//! Rendering of errors, warnings and notices as terminal text: a concise form by
//! default and a verbose record form on request, with or without ANSI colors.
use vstd::prelude::*;
use crate::text::{push_str, push_dec_u64, push_dec_i32, dec_nat, dec_int, lines, lines_of, views,
    trim, trimmed, str_eq};
use super::error_codes::{self, code_name, code_to_name};
use super::{
    NicyError, RequireChain, RequireChainFrame, chain_text, line_suffix, push_line_suffix,
    cleaned_path, cleaned_text, clean_path, clean_path_in_string, load_location, text_of,
};

verus! {

/// The ANSI color codes in use: the real codes when enabled, empty texts otherwise.
#[derive(Debug, Clone, Copy)]
pub struct Colors {
    pub enabled: bool,
}

impl Colors {
    pub open spec fn red_s(self) -> Seq<char> { if self.enabled { "\x1b[31m"@ } else { ""@ } }
    pub open spec fn yellow_s(self) -> Seq<char> { if self.enabled { "\x1b[33m"@ } else { ""@ } }
    pub open spec fn cyan_s(self) -> Seq<char> { if self.enabled { "\x1b[36m"@ } else { ""@ } }
    pub open spec fn green_s(self) -> Seq<char> { if self.enabled { "\x1b[32m"@ } else { ""@ } }
    pub open spec fn bold_s(self) -> Seq<char> { if self.enabled { "\x1b[1m"@ } else { ""@ } }
    pub open spec fn reset_s(self) -> Seq<char> { if self.enabled { "\x1b[0m"@ } else { ""@ } }
    pub open spec fn dim_s(self) -> Seq<char> { if self.enabled { "\x1b[2m"@ } else { ""@ } }

    pub fn red(&self) -> (r: &'static str)
        ensures r@ == self.red_s(),
    { if self.enabled { "\x1b[31m" } else { "" } }

    pub fn yellow(&self) -> (r: &'static str)
        ensures r@ == self.yellow_s(),
    { if self.enabled { "\x1b[33m" } else { "" } }

    pub fn cyan(&self) -> (r: &'static str)
        ensures r@ == self.cyan_s(),
    { if self.enabled { "\x1b[36m" } else { "" } }

    pub fn green(&self) -> (r: &'static str)
        ensures r@ == self.green_s(),
    { if self.enabled { "\x1b[32m" } else { "" } }

    pub fn bold(&self) -> (r: &'static str)
        ensures r@ == self.bold_s(),
    { if self.enabled { "\x1b[1m" } else { "" } }

    pub fn reset(&self) -> (r: &'static str)
        ensures r@ == self.reset_s(),
    { if self.enabled { "\x1b[0m" } else { "" } }

    pub fn dim(&self) -> (r: &'static str)
        ensures r@ == self.dim_s(),
    { if self.enabled { "\x1b[2m" } else { "" } }
}

/// How messages are rendered: the verbose record form or the concise form, and colors.
#[derive(Debug, Clone, Copy)]
pub struct OutputStyle {
    pub verbose: bool,
    pub colors: Colors,
}

/// The output style chosen by the environment: colors unless `NICY_NO_COLOR` is `1` or
/// `true`; the verbose form when `NICY_VERBOSE_ERRORS` is `1`, `true` or `yes`.
pub open spec fn style_of(no_color: Option<Seq<char>>, verbose: Option<Seq<char>>) -> OutputStyle {
    OutputStyle {
        verbose: match verbose {
            Some(v) => v == "1"@ || v == "true"@ || v == "yes"@,
            None => false,
        },
        colors: Colors {
            enabled: match no_color {
                Some(v) => !(v == "1"@ || v == "true"@),
                None => true,
            },
        },
    }
}

/// The documented switches: `NICY_VERBOSE_ERRORS` set to `1`, `true` or `yes` turns on
/// the verbose form, and unset leaves it off; `NICY_NO_COLOR` set to `1` or `true` turns
/// colors off, and unset leaves them on. Each switch leaves the other setting alone.
pub proof fn lemma_documented_switches(no_color: Option<Seq<char>>, verbose: Option<Seq<char>>)
    ensures
        style_of(no_color, Some("1"@)).verbose,
        style_of(no_color, Some("true"@)).verbose,
        style_of(no_color, Some("yes"@)).verbose,
        !style_of(no_color, None).verbose,
        !style_of(Some("1"@), verbose).colors.enabled,
        !style_of(Some("true"@), verbose).colors.enabled,
        style_of(None, verbose).colors.enabled,
        style_of(no_color, verbose).colors == style_of(no_color, None).colors,
        style_of(no_color, verbose).verbose == style_of(None, verbose).verbose,
{
}

impl OutputStyle {
    /// The style for the values of `NICY_NO_COLOR` and `NICY_VERBOSE_ERRORS`, where set.
    pub fn from_settings(no_color: Option<&str>, verbose: Option<&str>) -> (r: Self)
        ensures
            r == style_of(
                match no_color { Some(v) => Some(v@), None => None },
                match verbose { Some(v) => Some(v@), None => None },
            ),
            verbose matches Some(v) && (v@ == "1"@ || v@ == "true"@ || v@ == "yes"@) ==> r.verbose,
            verbose is None ==> !r.verbose,
            no_color matches Some(v) && (v@ == "1"@ || v@ == "true"@) ==> !r.colors.enabled,
            no_color is None ==> r.colors.enabled,
    {
        proof {
            reveal_strlit("1");
            reveal_strlit("true");
            reveal_strlit("yes");
        }
        let verbose = match verbose {
            Some(v) => str_eq(v, "1") || str_eq(v, "true") || str_eq(v, "yes"),
            None => false,
        };
        let enabled = match no_color {
            Some(v) => !(str_eq(v, "1") || str_eq(v, "true")),
            None => true,
        };
        OutputStyle { verbose, colors: Colors { enabled } }
    }
}

// ---------------------------------------------------------------------------
// Blocks shared by the verbose records
// ---------------------------------------------------------------------------

/// `code (NAME)` for a status code.
pub open spec fn code_text(code: i32) -> Seq<char> {
    dec_int(code as int) + " ("@ + code_name(code) + ")"@
}

/// The nested `Exception` record with the message and the code.
pub open spec fn exception_block(c: Colors, msg: Seq<char>, code: i32) -> Seq<char> {
    c.bold_s() + "Exception"@ + c.reset_s() + "             :\n"@
    + "    "@ + c.dim_s() + "ErrorRecord"@ + c.reset_s() + "          :\n"@
    + "        "@ + c.dim_s() + "Exception"@ + c.reset_s() + "             :\n"@
    + "            "@ + c.bold_s() + "Message"@ + c.reset_s() + " : "@ + msg + "\n"@
    + "            "@ + c.bold_s() + "Code"@ + c.reset_s() + "    : "@ + c.cyan_s() + code_text(code)
    + c.reset_s() + "\n"@
}

/// The `TargetObject` line.
pub open spec fn target_line(c: Colors, target: Seq<char>) -> Seq<char> {
    "        "@ + c.bold_s() + "TargetObject"@ + c.reset_s() + "          : "@ + target + "\n"@
}

/// The `CategoryInfo` and `FullyQualifiedErrorId` lines.
pub open spec fn category_lines(
    c: Colors,
    category_color: Seq<char>,
    category: Seq<char>,
    id_color: Seq<char>,
    id: Seq<char>,
) -> Seq<char> {
    "        "@ + c.bold_s() + "CategoryInfo"@ + c.reset_s() + "          : "@ + category_color
    + category + c.reset_s() + "\n"@
    + "        "@ + c.bold_s() + "FullyQualifiedErrorId"@ + c.reset_s() + " : "@ + id_color + id
    + c.reset_s() + "\n"@
}

/// The `Message`, `Source` and `Code` summary lines.
pub open spec fn summary_lines(c: Colors, msg: Seq<char>, source: Seq<char>, code: i32) -> Seq<char> {
    "    "@ + c.bold_s() + "Message"@ + c.reset_s() + "              : "@ + msg + "\n"@
    + "    "@ + c.bold_s() + "Source"@ + c.reset_s() + "               : "@ + c.cyan_s() + source
    + c.reset_s() + "\n"@
    + "    "@ + c.bold_s() + "Code"@ + c.reset_s() + "                 : "@ + c.cyan_s() + code_text(
        code,
    ) + c.reset_s() + "\n"@
}

/// The `InvocationInfo` heading.
pub open spec fn invocation_header(c: Colors) -> Seq<char> {
    c.bold_s() + "InvocationInfo"@ + c.reset_s() + "        :\n"@
}

/// The `CommandOrigin` line.
pub open spec fn origin_line(c: Colors) -> Seq<char> {
    "    "@ + c.dim_s() + "CommandOrigin"@ + c.reset_s() + "    : Internal\n"@
}

/// The `ScriptStackTrace` heading.
pub open spec fn stack_header(c: Colors) -> Seq<char> {
    c.bold_s() + "ScriptStackTrace"@ + c.reset_s() + "      :\n"@
}

/// A dimmed `label gap value` line of the invocation block.
pub open spec fn detail_line(c: Colors, label: Seq<char>, gap: Seq<char>, value: Seq<char>) -> Seq<char> {
    "    "@ + c.dim_s() + label + c.reset_s() + gap + value + "\n"@
}

fn code_text_string(code: i32) -> (r: String)
    ensures
        r@ == code_text(code),
{
    let mut r = String::new();
    push_dec_i32(&mut r, code);
    push_str(&mut r, " (");
    push_str(&mut r, code_to_name(code));
    push_str(&mut r, ")");
    assert(r@ =~= code_text(code));
    r
}

fn exception_block_text(c: &Colors, msg: &str, code: i32) -> (r: String)
    ensures
        r@ == exception_block(*c, msg@, code),
{
    let b = c.bold();
    let d = c.dim();
    let e = c.reset();
    let ct = code_text_string(code);
    let mut r = text_of(b);
    push_str(&mut r, "Exception"); push_str(&mut r, e); push_str(&mut r, "             :\n");
    push_str(&mut r, "    "); push_str(&mut r, d); push_str(&mut r, "ErrorRecord"); push_str(&mut r, e);
    push_str(&mut r, "          :\n");
    push_str(&mut r, "        "); push_str(&mut r, d); push_str(&mut r, "Exception"); push_str(&mut r, e);
    push_str(&mut r, "             :\n");
    push_str(&mut r, "            "); push_str(&mut r, b); push_str(&mut r, "Message"); push_str(&mut r, e);
    push_str(&mut r, " : "); push_str(&mut r, msg); push_str(&mut r, "\n");
    push_str(&mut r, "            "); push_str(&mut r, b); push_str(&mut r, "Code"); push_str(&mut r, e);
    push_str(&mut r, "    : "); push_str(&mut r, c.cyan()); push_str(&mut r, ct.as_str());
    push_str(&mut r, e); push_str(&mut r, "\n");
    r
}

fn target_line_text(c: &Colors, target: &str) -> (r: String)
    ensures
        r@ == target_line(*c, target@),
{
    let mut r = text_of("        "); push_str(&mut r, c.bold()); push_str(&mut r, "TargetObject");
    push_str(&mut r, c.reset()); push_str(&mut r, "          : "); push_str(&mut r, target);
    push_str(&mut r, "\n");
    r
}

fn category_lines_text(c: &Colors, cc: &str, category: &str, ic: &str, id: &str) -> (r: String)
    ensures
        r@ == category_lines(*c, cc@, category@, ic@, id@),
{
    let b = c.bold();
    let e = c.reset();
    let mut r = text_of("        "); push_str(&mut r, b); push_str(&mut r, "CategoryInfo");
    push_str(&mut r, e); push_str(&mut r, "          : "); push_str(&mut r, cc);
    push_str(&mut r, category); push_str(&mut r, e); push_str(&mut r, "\n");
    push_str(&mut r, "        "); push_str(&mut r, b); push_str(&mut r, "FullyQualifiedErrorId");
    push_str(&mut r, e); push_str(&mut r, " : "); push_str(&mut r, ic); push_str(&mut r, id);
    push_str(&mut r, e); push_str(&mut r, "\n");
    r
}

fn summary_lines_text(c: &Colors, msg: &str, source: &str, code: i32) -> (r: String)
    ensures
        r@ == summary_lines(*c, msg@, source@, code),
{
    let b = c.bold();
    let e = c.reset();
    let cy = c.cyan();
    let ct = code_text_string(code);
    let mut r = text_of("    "); push_str(&mut r, b); push_str(&mut r, "Message"); push_str(&mut r, e);
    push_str(&mut r, "              : "); push_str(&mut r, msg); push_str(&mut r, "\n");
    push_str(&mut r, "    "); push_str(&mut r, b); push_str(&mut r, "Source"); push_str(&mut r, e);
    push_str(&mut r, "               : "); push_str(&mut r, cy); push_str(&mut r, source);
    push_str(&mut r, e); push_str(&mut r, "\n");
    push_str(&mut r, "    "); push_str(&mut r, b); push_str(&mut r, "Code"); push_str(&mut r, e);
    push_str(&mut r, "                 : "); push_str(&mut r, cy); push_str(&mut r, ct.as_str());
    push_str(&mut r, e); push_str(&mut r, "\n");
    r
}

fn invocation_header_text(c: &Colors) -> (r: String)
    ensures
        r@ == invocation_header(*c),
{
    let mut r = text_of(c.bold()); push_str(&mut r, "InvocationInfo"); push_str(&mut r, c.reset());
    push_str(&mut r, "        :\n");
    r
}

fn origin_line_text(c: &Colors) -> (r: String)
    ensures
        r@ == origin_line(*c),
{
    let mut r = text_of("    "); push_str(&mut r, c.dim()); push_str(&mut r, "CommandOrigin");
    push_str(&mut r, c.reset()); push_str(&mut r, "    : Internal\n");
    r
}

fn stack_header_text(c: &Colors) -> (r: String)
    ensures
        r@ == stack_header(*c),
{
    let mut r = text_of(c.bold()); push_str(&mut r, "ScriptStackTrace"); push_str(&mut r, c.reset());
    push_str(&mut r, "      :\n");
    r
}

fn detail_line_text(c: &Colors, label: &str, gap: &str, value: &str) -> (r: String)
    ensures
        r@ == detail_line(*c, label@, gap@, value@),
{
    let mut r = text_of("    "); push_str(&mut r, c.dim()); push_str(&mut r, label);
    push_str(&mut r, c.reset()); push_str(&mut r, gap); push_str(&mut r, value);
    push_str(&mut r, "\n");
    r
}


// ---------------------------------------------------------------------------
// Concise form
// ---------------------------------------------------------------------------

/// The `  at file:line` line naming where the innermost require happened, if any.
pub open spec fn require_site(frames: Seq<RequireChainFrame>) -> Seq<char> {
    if frames.len() > 0 {
        "  at "@ + frames.last().file@ + line_suffix(frames.last().line) + "\n"@
    } else {
        Seq::empty()
    }
}

/// ` path[:line]` after the runtime error heading, empty without a file.
pub open spec fn runtime_site(file: Option<String>, line: Option<u32>) -> Seq<char> {
    match file {
        Some(f) => " "@ + cleaned_path(f@) + line_suffix(line),
        None => Seq::empty(),
    }
}

/// The concise rendering of an error.
pub open spec fn concise_text(err: NicyError, c: Colors) -> Seq<char> {
    match err {
        NicyError::RequireError { spec, chain, message, .. } => c.red_s() + "require error:"@
            + c.reset_s() + " "@ + spec@ + "\n"@ + "  "@ + c.dim_s() + cleaned_text(message@)
            + c.reset_s() + "\n"@ + require_site(chain.frames()),
        NicyError::RuntimeError { message, file, line, .. } => c.red_s() + "runtime error:"@
            + c.reset_s() + runtime_site(file, line) + "\n"@ + "  "@ + c.dim_s() + cleaned_text(
            message@,
        ) + c.reset_s() + "\n"@,
        NicyError::TaskError { task_type, message } => c.yellow_s() + "task."@ + task_type@
            + " error:"@ + c.reset_s() + "\n"@ + "  "@ + c.dim_s() + cleaned_text(message@)
            + c.reset_s() + "\n"@,
        NicyError::LoadError { path, line, message, .. } => c.red_s() + "load error:"@
            + c.reset_s() + " "@ + cleaned_path(path@) + line_suffix(line) + "\n"@ + "  "@
            + c.dim_s() + message@ + c.reset_s() + "\n"@,
        NicyError::PanicError { context, payload } => "panic in "@ + context@ + "\n"@ + "  "@
            + payload@ + "\n"@,
        NicyError::FileError { path, operation, message } => "file error: "@ + operation@ + " '"@
            + cleaned_path(path@) + "'\n"@ + "  "@ + message@ + "\n"@,
        NicyError::RuntimeErrorGeneric { context, message } => context@ + " error\n"@ + "  "@
            + message@ + "\n"@,
    }
}

fn require_site_text(chain: &RequireChain) -> (r: String)
    ensures
        r@ == require_site(chain.frames()),
{
    match chain.last_frame() {
        Some(f) => {
            let mut r = text_of("  at ");
            push_str(&mut r, f.file.as_str());
            push_line_suffix(&mut r, f.line);
            push_str(&mut r, "\n");
            r
        },
        None => String::new(),
    }
}

fn runtime_site_text(file: &Option<String>, line: Option<u32>) -> (r: String)
    ensures
        r@ == runtime_site(*file, line),
{
    match file {
        Some(f) => {
            let mut r = text_of(" ");
            let cf = clean_path(f.as_str());
            push_str(&mut r, cf.as_str());
            push_line_suffix(&mut r, line);
            r
        },
        None => String::new(),
    }
}

fn format_concise(err: &NicyError, c: &Colors) -> (r: String)
    ensures
        r@ == concise_text(*err, *c),
{
    let e = c.reset();
    match err {
        NicyError::RequireError { spec, chain, message, .. } => {
            let cm = clean_path_in_string(message.as_str());
            let site = require_site_text(chain);
            let mut r = text_of(c.red());
            push_str(&mut r, "require error:"); push_str(&mut r, e); push_str(&mut r, " ");
            push_str(&mut r, spec.as_str()); push_str(&mut r, "\n"); push_str(&mut r, "  ");
            push_str(&mut r, c.dim()); push_str(&mut r, cm.as_str()); push_str(&mut r, e);
            push_str(&mut r, "\n"); push_str(&mut r, site.as_str());
            r
        },
        NicyError::RuntimeError { message, file, line, .. } => {
            let cm = clean_path_in_string(message.as_str());
            let site = runtime_site_text(file, *line);
            let mut r = text_of(c.red());
            push_str(&mut r, "runtime error:"); push_str(&mut r, e); push_str(&mut r, site.as_str());
            push_str(&mut r, "\n"); push_str(&mut r, "  "); push_str(&mut r, c.dim());
            push_str(&mut r, cm.as_str()); push_str(&mut r, e); push_str(&mut r, "\n");
            r
        },
        NicyError::TaskError { task_type, message } => {
            let cm = clean_path_in_string(message.as_str());
            let mut r = text_of(c.yellow());
            push_str(&mut r, "task."); push_str(&mut r, task_type); push_str(&mut r, " error:");
            push_str(&mut r, e); push_str(&mut r, "\n"); push_str(&mut r, "  ");
            push_str(&mut r, c.dim()); push_str(&mut r, cm.as_str()); push_str(&mut r, e);
            push_str(&mut r, "\n");
            r
        },
        NicyError::LoadError { path, line, message, .. } => {
            let cp = clean_path(path.as_str());
            let mut r = text_of(c.red());
            push_str(&mut r, "load error:"); push_str(&mut r, e); push_str(&mut r, " ");
            push_str(&mut r, cp.as_str()); push_line_suffix(&mut r, *line); push_str(&mut r, "\n");
            push_str(&mut r, "  "); push_str(&mut r, c.dim()); push_str(&mut r, message.as_str());
            push_str(&mut r, e); push_str(&mut r, "\n");
            r
        },
        NicyError::PanicError { context, payload } => {
            let mut r = text_of("panic in ");
            push_str(&mut r, context); push_str(&mut r, "\n"); push_str(&mut r, "  ");
            push_str(&mut r, payload.as_str()); push_str(&mut r, "\n");
            r
        },
        NicyError::FileError { path, operation, message } => {
            let cp = clean_path(path.as_str());
            let mut r = text_of("file error: ");
            push_str(&mut r, operation); push_str(&mut r, " '"); push_str(&mut r, cp.as_str());
            push_str(&mut r, "'\n"); push_str(&mut r, "  "); push_str(&mut r, message.as_str());
            push_str(&mut r, "\n");
            r
        },
        NicyError::RuntimeErrorGeneric { context, message } => {
            let mut r = text_of(context);
            push_str(&mut r, " error\n"); push_str(&mut r, "  "); push_str(&mut r, message.as_str());
            push_str(&mut r, "\n");
            r
        },
    }
}


// ---------------------------------------------------------------------------
// Verbose form
// ---------------------------------------------------------------------------

/// The lines of a require chain listing, each indented and dimmed.
pub open spec fn chain_lines_text(c: Colors, ls: Seq<Seq<char>>) -> Seq<char>
    decreases ls.len(),
{
    if ls.len() == 0 {
        Seq::empty()
    } else {
        chain_lines_text(c, ls.drop_last()) + "        "@ + c.dim_s() + ls.last() + "\n"@
    }
}

/// The lines of a Lua stack trace, each trimmed, cleaned, indented and dimmed.
pub open spec fn stack_lines_text(c: Colors, ls: Seq<Seq<char>>) -> Seq<char>
    decreases ls.len(),
{
    if ls.len() == 0 {
        Seq::empty()
    } else {
        stack_lines_text(c, ls.drop_last()) + "    "@ + c.dim_s() + cleaned_text(trimmed(ls.last()))
            + c.reset_s() + "\n"@
    }
}

/// One `at require(...)` stack line for a frame.
pub open spec fn require_stack_line(c: Colors, spec: Seq<char>, f: RequireChainFrame) -> Seq<char> {
    "    "@ + c.dim_s() + "at require('"@ + spec + "'), "@ + cleaned_path(f.file@) + line_suffix(
        f.line,
    ) + c.reset_s() + "\n"@
}

/// The `at require(...)` stack lines of the frames, the last frame first.
pub open spec fn require_stack_lines(c: Colors, spec: Seq<char>, frames: Seq<RequireChainFrame>) -> Seq<char>
    decreases frames.len(),
{
    if frames.len() == 0 {
        Seq::empty()
    } else {
        require_stack_lines(c, spec, frames.drop_first()) + require_stack_line(c, spec, frames.first())
    }
}

/// The verbose block listing the require chain, present when the chain is not empty.
pub open spec fn require_chain_block(c: Colors, frames: Seq<RequireChainFrame>) -> Seq<char> {
    if frames.len() > 0 {
        "    "@ + c.dim_s() + "RequireChain"@ + c.reset_s() + "           :\n"@ + chain_lines_text(
            c,
            lines_of(chain_text(frames)),
        )
    } else {
        Seq::empty()
    }
}

/// The invocation block of a require error, present when the chain is not empty.
pub open spec fn require_invocation_block(c: Colors, spec: Seq<char>, frames: Seq<RequireChainFrame>) -> Seq<char> {
    if frames.len() > 0 {
        let f = frames.last();
        let cf = cleaned_path(f.file@);
        invocation_header(c) + detail_line(c, "ScriptFile"@, "       : "@, cf) + match f.line {
            Some(l) => detail_line(c, "ScriptLineNumber"@, " : "@, dec_nat(l as nat)),
            None => Seq::empty(),
        } + detail_line(c, "Line"@, "             : local mod = require(\""@, spec + "\")"@)
            + "    "@ + c.dim_s() + "PositionMessage"@ + c.reset_s() + "  : At "@ + cf + ":"@
            + dec_nat(
            match f.line {
                Some(l) => l as nat,
                None => 0nat,
            },
        ) + c.reset_s() + "\n"@ + origin_line(c)
    } else {
        Seq::empty()
    }
}

/// The verbose rendering of a require error.
pub open spec fn verbose_require(
    c: Colors,
    spec: Seq<char>,
    resolved_path: Option<String>,
    frames: Seq<RequireChainFrame>,
    message: Seq<char>,
) -> Seq<char> {
    let m = cleaned_text(message);
    let code = error_codes::NICY_ERR_MODULE_NOT_FOUND;
    c.red_s() + "require:"@ + c.reset_s() + " Could not resolve module '"@ + spec + "'\n"@ + "\n"@
        + exception_block(c, m, code) + target_line(
        c,
        match resolved_path {
            Some(p) => cleaned_path(p@),
            None => spec,
        },
    ) + category_lines(c, c.cyan_s(), "ModuleNotFound"@, c.red_s(), "RequireFailed,"@ + spec)
        + require_chain_block(c, frames) + summary_lines(c, m, "nicyruntime.require"@, code)
        + require_invocation_block(c, spec, frames) + stack_header(c) + require_stack_lines(
        c,
        spec,
        frames,
    ) + "    "@ + c.dim_s() + "at <ScriptBlock>, <entry>"@ + c.reset_s() + "\n"@
}

/// The heading location `path[:line]: ` of a verbose runtime error, empty without a file.
pub open spec fn runtime_heading_site(file: Option<String>, line: Option<u32>) -> Seq<char> {
    match file {
        Some(f) => cleaned_path(f@) + line_suffix(line) + ": "@,
        None => Seq::empty(),
    }
}

/// The invocation block of a runtime error, present when the file is known.
pub open spec fn runtime_invocation_block(c: Colors, file: Option<String>, line: Option<u32>) -> Seq<char> {
    match file {
        Some(f) => invocation_header(c) + detail_line(c, "ScriptFile"@, "       : "@, cleaned_path(f@))
            + match line {
            Some(l) => detail_line(c, "ScriptLineNumber"@, " : "@, dec_nat(l as nat)),
            None => Seq::empty(),
        } + origin_line(c),
        None => Seq::empty(),
    }
}

/// The stack trace lines of a runtime error, present when the trace is not empty.
pub open spec fn runtime_trace_lines(c: Colors, stack_trace: Option<String>) -> Seq<char> {
    match stack_trace {
        Some(t) => if t@.len() > 0 { stack_lines_text(c, lines_of(t@)) } else { Seq::empty() },
        None => Seq::empty(),
    }
}

/// The closing `at <main>` line of a runtime error, present when file and line are known.
pub open spec fn runtime_main_line(c: Colors, file: Option<String>, line: Option<u32>) -> Seq<char> {
    match (file, line) {
        (Some(f), Some(l)) => "    "@ + c.dim_s() + "at <main>, "@ + cleaned_path(f@) + ":"@ + dec_nat(
            l as nat,
        ) + c.reset_s() + "\n"@,
        _ => Seq::empty(),
    }
}

/// The verbose rendering of a runtime error.
pub open spec fn verbose_runtime(
    c: Colors,
    message: Seq<char>,
    stack_trace: Option<String>,
    file: Option<String>,
    line: Option<u32>,
) -> Seq<char> {
    let m = cleaned_text(message);
    let code = error_codes::LUA_ERRRUN;
    c.red_s() + "runtime:"@ + c.reset_s() + " "@ + runtime_heading_site(file, line) + m + "\n"@
        + "\n"@ + exception_block(c, m, code) + match file {
        Some(f) => target_line(c, cleaned_path(f@)),
        None => Seq::empty(),
    } + category_lines(c, c.red_s(), "RuntimeError"@, c.red_s(), "LuaRuntimeError"@)
        + summary_lines(c, m, "nicyruntime.runtime"@, code) + runtime_invocation_block(c, file, line)
        + stack_header(c) + runtime_trace_lines(c, stack_trace) + runtime_main_line(c, file, line)
}

/// The verbose rendering of a task error.
pub open spec fn verbose_task(c: Colors, task_type: Seq<char>, message: Seq<char>) -> Seq<char> {
    let m = cleaned_text(message);
    let code = error_codes::NICY_ERR_TASK_CRASH;
    c.yellow_s() + "task."@ + task_type + ":"@ + c.reset_s() + " "@ + m + "\n"@ + "\n"@
        + exception_block(c, m, code) + category_lines(
        c,
        c.yellow_s(),
        "TaskError"@,
        c.yellow_s(),
        "TaskFailed,task."@ + task_type,
    ) + summary_lines(c, m, "nicyruntime.task_scheduler"@, code) + invocation_header(c)
        + detail_line(c, "TaskType"@, "         : "@, task_type) + origin_line(c) + stack_header(c)
        + "    "@ + c.dim_s() + "at task."@ + task_type + c.reset_s() + " callback\n"@ + "    "@
        + c.dim_s() + "at <task_scheduler>"@ + c.reset_s() + "\n"@
}

/// The verbose rendering of a load error.
pub open spec fn verbose_load(
    c: Colors,
    path: Seq<char>,
    line: Option<u32>,
    column: Option<u32>,
    message: Seq<char>,
) -> Seq<char> {
    let cp = cleaned_path(path);
    let loc = load_location(cp, line, column);
    let code = error_codes::LUA_ERRSYNTAX;
    c.red_s() + "load:"@ + c.reset_s() + " Failed to load '"@ + loc + "': "@ + message + "\n"@
        + "\n"@ + exception_block(c, message, code) + target_line(c, cp) + category_lines(
        c,
        c.red_s(),
        "LoadError"@,
        c.red_s(),
        "LoadFailed"@,
    ) + summary_lines(c, message, "nicyruntime.loader"@, code) + invocation_header(c)
        + detail_line(c, "ScriptFile"@, "       : "@, cp) + match line {
        Some(l) => detail_line(c, "ScriptLineNumber"@, " : "@, dec_nat(l as nat)),
        None => Seq::empty(),
    } + origin_line(c) + stack_header(c) + "    "@ + c.dim_s() + "at load('"@ + cp + "'), "@ + loc
        + c.reset_s() + "\n"@
}

/// The verbose rendering of a panic.
pub open spec fn verbose_panic(c: Colors, context: Seq<char>, payload: Seq<char>) -> Seq<char> {
    let code = error_codes::NICY_ERR_NATIVE_CRASH;
    c.red_s() + "panic:"@ + c.reset_s() + " "@ + payload + "\n"@ + "\n"@ + exception_block(
        c,
        payload,
        code,
    ) + category_lines(c, c.red_s(), "PanicError"@, c.red_s(), "RustPanic,"@ + context)
        + summary_lines(c, payload, "nicyruntime.panic_handler"@, code) + invocation_header(c)
        + detail_line(c, "Context"@, "          : "@, context) + origin_line(c) + stack_header(c)
        + "    "@ + c.dim_s() + "at panic in '"@ + context + "'\n"@
}

/// The verbose rendering of a file error.
pub open spec fn verbose_file(c: Colors, path: Seq<char>, operation: Seq<char>, message: Seq<char>) -> Seq<char> {
    let cp = cleaned_path(path);
    let code = error_codes::LUA_ERRFILE;
    c.red_s() + "file:"@ + c.reset_s() + " Failed to "@ + operation + " '"@ + cp + "': "@ + message
        + "\n"@ + "\n"@ + exception_block(c, message, code) + target_line(c, cp) + category_lines(
        c,
        c.red_s(),
        "FileError"@,
        c.red_s(),
        operation + "Failed"@,
    ) + summary_lines(c, message, "nicyruntime.filesystem"@, code) + invocation_header(c)
        + detail_line(c, "FilePath"@, "         : "@, cp) + detail_line(
        c,
        "Operation"@,
        "        : "@,
        operation,
    ) + origin_line(c) + stack_header(c) + "    "@ + c.dim_s() + "at "@ + operation + "('"@ + cp
        + "')\n"@
}

/// The verbose rendering of a generic runtime error.
pub open spec fn verbose_generic(c: Colors, context: Seq<char>, message: Seq<char>) -> Seq<char> {
    let code = error_codes::LUA_ERRRUN;
    c.red_s() + "runtime:"@ + c.reset_s() + " "@ + context + ": "@ + message + "\n"@ + "\n"@
        + exception_block(c, message, code) + category_lines(
        c,
        c.red_s(),
        "RuntimeError"@,
        c.red_s(),
        "GenericError,"@ + context,
    ) + summary_lines(c, message, "nicyruntime.runtime"@, code) + invocation_header(c)
        + detail_line(c, "Context"@, "          : "@, context) + origin_line(c) + stack_header(c)
        + "    "@ + c.dim_s() + "at '"@ + context + "'\n"@
}

/// The verbose rendering of an error.
pub open spec fn verbose_text(err: NicyError, c: Colors) -> Seq<char> {
    match err {
        NicyError::RequireError { spec, resolved_path, chain, message } => verbose_require(
            c,
            spec@,
            resolved_path,
            chain.frames(),
            message@,
        ),
        NicyError::RuntimeError { message, stack_trace, file, line } => verbose_runtime(
            c,
            message@,
            stack_trace,
            file,
            line,
        ),
        NicyError::TaskError { task_type, message } => verbose_task(c, task_type@, message@),
        NicyError::LoadError { path, line, column, message } => verbose_load(
            c,
            path@,
            line,
            column,
            message@,
        ),
        NicyError::PanicError { context, payload } => verbose_panic(c, context@, payload@),
        NicyError::FileError { path, operation, message } => verbose_file(
            c,
            path@,
            operation@,
            message@,
        ),
        NicyError::RuntimeErrorGeneric { context, message } => verbose_generic(
            c,
            context@,
            message@,
        ),
    }
}


fn chain_lines_string(c: &Colors, ls: &Vec<String>) -> (r: String)
    ensures
        r@ == chain_lines_text(*c, views(ls@)),
{
    let mut r = String::new();
    let mut i: usize = 0;
    assert(views(ls@).take(0) =~= Seq::<Seq<char>>::empty());
    while i < ls.len()
        invariant
            i <= ls@.len(),
            r@ == chain_lines_text(*c, views(ls@).take(i as int)),
        decreases ls@.len() - i,
    {
        assert(views(ls@).take(i + 1).drop_last() =~= views(ls@).take(i as int));
        assert(views(ls@).take(i + 1).last() == ls@[i as int]@);
        push_str(&mut r, "        ");
        push_str(&mut r, c.dim());
        push_str(&mut r, ls[i].as_str());
        push_str(&mut r, "\n");
        i = i + 1;
    }
    assert(views(ls@).take(ls@.len() as int) =~= views(ls@));
    r
}

fn stack_lines_string(c: &Colors, ls: &Vec<String>) -> (r: String)
    ensures
        r@ == stack_lines_text(*c, views(ls@)),
{
    let mut r = String::new();
    let mut i: usize = 0;
    assert(views(ls@).take(0) =~= Seq::<Seq<char>>::empty());
    while i < ls.len()
        invariant
            i <= ls@.len(),
            r@ == stack_lines_text(*c, views(ls@).take(i as int)),
        decreases ls@.len() - i,
    {
        assert(views(ls@).take(i + 1).drop_last() =~= views(ls@).take(i as int));
        assert(views(ls@).take(i + 1).last() == ls@[i as int]@);
        let t = trim(ls[i].as_str());
        let cl = clean_path_in_string(t);
        push_str(&mut r, "    ");
        push_str(&mut r, c.dim());
        push_str(&mut r, cl.as_str());
        push_str(&mut r, c.reset());
        push_str(&mut r, "\n");
        i = i + 1;
    }
    assert(views(ls@).take(ls@.len() as int) =~= views(ls@));
    r
}

fn require_stack_line_text(c: &Colors, spec: &str, f: &RequireChainFrame) -> (r: String)
    ensures
        r@ == require_stack_line(*c, spec@, *f),
{
    let cf = clean_path(f.file.as_str());
    let mut r = text_of("    ");
    push_str(&mut r, c.dim());
    push_str(&mut r, "at require('");
    push_str(&mut r, spec);
    push_str(&mut r, "'), ");
    push_str(&mut r, cf.as_str());
    push_line_suffix(&mut r, f.line);
    push_str(&mut r, c.reset());
    push_str(&mut r, "\n");
    r
}

fn require_stack_lines_text(c: &Colors, spec: &str, chain: &RequireChain) -> (r: String)
    ensures
        r@ == require_stack_lines(*c, spec@, chain.frames()),
{
    let n = chain.len();
    let mut r = String::new();
    let mut i: usize = n;
    let ghost fr = chain.frames();
    assert(fr.skip(n as int) =~= Seq::<RequireChainFrame>::empty());
    while i > 0
        invariant
            n == fr.len(),
            fr == chain.frames(),
            i <= n,
            r@ == require_stack_lines(*c, spec@, fr.skip(i as int)),
        decreases i,
    {
        assert(fr.skip(i - 1).drop_first() =~= fr.skip(i as int));
        assert(fr.skip(i - 1).first() == fr[i - 1]);
        let line = require_stack_line_text(c, spec, chain.frame(i - 1));
        push_str(&mut r, line.as_str());
        i = i - 1;
    }
    assert(fr.skip(0) =~= fr);
    r
}

fn require_chain_block_text(c: &Colors, chain: &RequireChain) -> (r: String)
    ensures
        r@ == require_chain_block(*c, chain.frames()),
{
    if chain.is_empty() {
        String::new()
    } else {
        let listing = chain.format_chain();
        let ls = lines(listing.as_str());
        let body = chain_lines_string(c, &ls);
        let mut r = text_of("    ");
        push_str(&mut r, c.dim());
        push_str(&mut r, "RequireChain");
        push_str(&mut r, c.reset());
        push_str(&mut r, "           :\n");
        push_str(&mut r, body.as_str());
        r
    }
}

fn line_number_detail(c: &Colors, line: Option<u32>) -> (r: String)
    ensures
        r@ == match line {
            Some(l) => detail_line(*c, "ScriptLineNumber"@, " : "@, dec_nat(l as nat)),
            None => Seq::<char>::empty(),
        },
{
    match line {
        Some(l) => {
            let mut v = String::new();
            push_dec_u64(&mut v, l as u64);
            assert(v@ =~= dec_nat(l as nat));
            detail_line_text(c, "ScriptLineNumber", " : ", v.as_str())
        },
        None => String::new(),
    }
}

fn require_invocation_block_text(c: &Colors, spec: &str, chain: &RequireChain) -> (r: String)
    ensures
        r@ == require_invocation_block(*c, spec@, chain.frames()),
{
    match chain.last_frame() {
        None => String::new(),
        Some(f) => {
            let cf = clean_path(f.file.as_str());
            let mut call = text_of(spec);
            push_str(&mut call, "\")");
            let l0: u32 = match f.line {
                Some(l) => l,
                None => 0,
            };
            let mut r = invocation_header_text(c);
            let d1 = detail_line_text(c, "ScriptFile", "       : ", cf.as_str());
            push_str(&mut r, d1.as_str());
            let d2 = line_number_detail(c, f.line);
            push_str(&mut r, d2.as_str());
            let d3 = detail_line_text(c, "Line", "             : local mod = require(\"", call.as_str());
            push_str(&mut r, d3.as_str());
            push_str(&mut r, "    ");
            push_str(&mut r, c.dim());
            push_str(&mut r, "PositionMessage");
            push_str(&mut r, c.reset());
            push_str(&mut r, "  : At ");
            push_str(&mut r, cf.as_str());
            push_str(&mut r, ":");
            push_dec_u64(&mut r, l0 as u64);
            push_str(&mut r, c.reset());
            push_str(&mut r, "\n");
            let o = origin_line_text(c);
            push_str(&mut r, o.as_str());
            r
        },
    }
}

fn format_verbose_require(
    c: &Colors,
    spec: &str,
    resolved_path: &Option<String>,
    chain: &RequireChain,
    message: &str,
) -> (r: String)
    ensures
        r@ == verbose_require(*c, spec@, *resolved_path, chain.frames(), message@),
{
    let m = clean_path_in_string(message);
    let code = error_codes::NICY_ERR_MODULE_NOT_FOUND;
    let target = match resolved_path {
        Some(p) => clean_path(p.as_str()),
        None => text_of(spec),
    };
    let mut id = text_of("RequireFailed,");
    push_str(&mut id, spec);
    let mut r = text_of(c.red());
    push_str(&mut r, "require:");
    push_str(&mut r, c.reset());
    push_str(&mut r, " Could not resolve module '");
    push_str(&mut r, spec);
    push_str(&mut r, "'\n");
    push_str(&mut r, "\n");
    let b = exception_block_text(c, m.as_str(), code);
    push_str(&mut r, b.as_str());
    let b = target_line_text(c, target.as_str());
    push_str(&mut r, b.as_str());
    let b = category_lines_text(c, c.cyan(), "ModuleNotFound", c.red(), id.as_str());
    push_str(&mut r, b.as_str());
    let b = require_chain_block_text(c, chain);
    push_str(&mut r, b.as_str());
    let b = summary_lines_text(c, m.as_str(), "nicyruntime.require", code);
    push_str(&mut r, b.as_str());
    let b = require_invocation_block_text(c, spec, chain);
    push_str(&mut r, b.as_str());
    let b = stack_header_text(c);
    push_str(&mut r, b.as_str());
    let b = require_stack_lines_text(c, spec, chain);
    push_str(&mut r, b.as_str());
    push_str(&mut r, "    ");
    push_str(&mut r, c.dim());
    push_str(&mut r, "at <ScriptBlock>, <entry>");
    push_str(&mut r, c.reset());
    push_str(&mut r, "\n");
    r
}


fn format_verbose_runtime(
    c: &Colors,
    message: &str,
    stack_trace: &Option<String>,
    file: &Option<String>,
    line: Option<u32>,
) -> (r: String)
    ensures
        r@ == verbose_runtime(*c, message@, *stack_trace, *file, line),
{
    let m = clean_path_in_string(message);
    let code = error_codes::LUA_ERRRUN;
    let heading_site = match file {
        Some(f) => {
            let mut h = clean_path(f.as_str());
            push_line_suffix(&mut h, line);
            push_str(&mut h, ": ");
            h
        },
        None => String::new(),
    };
    let target = match file {
        Some(f) => {
            let cf = clean_path(f.as_str());
            target_line_text(c, cf.as_str())
        },
        None => String::new(),
    };
    let invocation = match file {
        Some(f) => {
            let cf = clean_path(f.as_str());
            let mut v = invocation_header_text(c);
            let d = detail_line_text(c, "ScriptFile", "       : ", cf.as_str());
            push_str(&mut v, d.as_str());
            let d = line_number_detail(c, line);
            push_str(&mut v, d.as_str());
            let d = origin_line_text(c);
            push_str(&mut v, d.as_str());
            v
        },
        None => String::new(),
    };
    let trace = match stack_trace {
        Some(t) => {
            if t.as_str().unicode_len() > 0 {
                let ls = lines(t.as_str());
                stack_lines_string(c, &ls)
            } else {
                String::new()
            }
        },
        None => String::new(),
    };
    let main_line = match (file, line) {
        (Some(f), Some(l)) => {
            let cf = clean_path(f.as_str());
            let mut v = text_of("    ");
            push_str(&mut v, c.dim());
            push_str(&mut v, "at <main>, ");
            push_str(&mut v, cf.as_str());
            push_str(&mut v, ":");
            push_dec_u64(&mut v, l as u64);
            push_str(&mut v, c.reset());
            push_str(&mut v, "\n");
            v
        },
        _ => String::new(),
    };
    let mut r = text_of(c.red());
    push_str(&mut r, "runtime:");
    push_str(&mut r, c.reset());
    push_str(&mut r, " ");
    push_str(&mut r, heading_site.as_str());
    push_str(&mut r, m.as_str());
    push_str(&mut r, "\n");
    push_str(&mut r, "\n");
    let b = exception_block_text(c, m.as_str(), code);
    push_str(&mut r, b.as_str());
    push_str(&mut r, target.as_str());
    let b = category_lines_text(c, c.red(), "RuntimeError", c.red(), "LuaRuntimeError");
    push_str(&mut r, b.as_str());
    let b = summary_lines_text(c, m.as_str(), "nicyruntime.runtime", code);
    push_str(&mut r, b.as_str());
    push_str(&mut r, invocation.as_str());
    let b = stack_header_text(c);
    push_str(&mut r, b.as_str());
    push_str(&mut r, trace.as_str());
    push_str(&mut r, main_line.as_str());
    r
}

fn format_verbose_task(c: &Colors, task_type: &str, message: &str) -> (r: String)
    ensures
        r@ == verbose_task(*c, task_type@, message@),
{
    let m = clean_path_in_string(message);
    let code = error_codes::NICY_ERR_TASK_CRASH;
    let mut id = text_of("TaskFailed,task.");
    push_str(&mut id, task_type);
    let mut r = text_of(c.yellow());
    push_str(&mut r, "task.");
    push_str(&mut r, task_type);
    push_str(&mut r, ":");
    push_str(&mut r, c.reset());
    push_str(&mut r, " ");
    push_str(&mut r, m.as_str());
    push_str(&mut r, "\n");
    push_str(&mut r, "\n");
    let b = exception_block_text(c, m.as_str(), code);
    push_str(&mut r, b.as_str());
    let b = category_lines_text(c, c.yellow(), "TaskError", c.yellow(), id.as_str());
    push_str(&mut r, b.as_str());
    let b = summary_lines_text(c, m.as_str(), "nicyruntime.task_scheduler", code);
    push_str(&mut r, b.as_str());
    let b = invocation_header_text(c);
    push_str(&mut r, b.as_str());
    let b = detail_line_text(c, "TaskType", "         : ", task_type);
    push_str(&mut r, b.as_str());
    let b = origin_line_text(c);
    push_str(&mut r, b.as_str());
    let b = stack_header_text(c);
    push_str(&mut r, b.as_str());
    push_str(&mut r, "    ");
    push_str(&mut r, c.dim());
    push_str(&mut r, "at task.");
    push_str(&mut r, task_type);
    push_str(&mut r, c.reset());
    push_str(&mut r, " callback\n");
    push_str(&mut r, "    ");
    push_str(&mut r, c.dim());
    push_str(&mut r, "at <task_scheduler>");
    push_str(&mut r, c.reset());
    push_str(&mut r, "\n");
    r
}

fn format_verbose_load(
    c: &Colors,
    path: &str,
    line: Option<u32>,
    column: Option<u32>,
    message: &str,
) -> (r: String)
    ensures
        r@ == verbose_load(*c, path@, line, column, message@),
{
    let cp = clean_path(path);
    let loc = super::load_location_text(cp.as_str(), line, column);
    let code = error_codes::LUA_ERRSYNTAX;
    let mut r = text_of(c.red());
    push_str(&mut r, "load:");
    push_str(&mut r, c.reset());
    push_str(&mut r, " Failed to load '");
    push_str(&mut r, loc.as_str());
    push_str(&mut r, "': ");
    push_str(&mut r, message);
    push_str(&mut r, "\n");
    push_str(&mut r, "\n");
    let b = exception_block_text(c, message, code);
    push_str(&mut r, b.as_str());
    let b = target_line_text(c, cp.as_str());
    push_str(&mut r, b.as_str());
    let b = category_lines_text(c, c.red(), "LoadError", c.red(), "LoadFailed");
    push_str(&mut r, b.as_str());
    let b = summary_lines_text(c, message, "nicyruntime.loader", code);
    push_str(&mut r, b.as_str());
    let b = invocation_header_text(c);
    push_str(&mut r, b.as_str());
    let b = detail_line_text(c, "ScriptFile", "       : ", cp.as_str());
    push_str(&mut r, b.as_str());
    let b = line_number_detail(c, line);
    push_str(&mut r, b.as_str());
    let b = origin_line_text(c);
    push_str(&mut r, b.as_str());
    let b = stack_header_text(c);
    push_str(&mut r, b.as_str());
    push_str(&mut r, "    ");
    push_str(&mut r, c.dim());
    push_str(&mut r, "at load('");
    push_str(&mut r, cp.as_str());
    push_str(&mut r, "'), ");
    push_str(&mut r, loc.as_str());
    push_str(&mut r, c.reset());
    push_str(&mut r, "\n");
    r
}

fn format_verbose_panic(c: &Colors, context: &str, payload: &str) -> (r: String)
    ensures
        r@ == verbose_panic(*c, context@, payload@),
{
    let code = error_codes::NICY_ERR_NATIVE_CRASH;
    let mut id = text_of("RustPanic,");
    push_str(&mut id, context);
    let mut r = text_of(c.red());
    push_str(&mut r, "panic:");
    push_str(&mut r, c.reset());
    push_str(&mut r, " ");
    push_str(&mut r, payload);
    push_str(&mut r, "\n");
    push_str(&mut r, "\n");
    let b = exception_block_text(c, payload, code);
    push_str(&mut r, b.as_str());
    let b = category_lines_text(c, c.red(), "PanicError", c.red(), id.as_str());
    push_str(&mut r, b.as_str());
    let b = summary_lines_text(c, payload, "nicyruntime.panic_handler", code);
    push_str(&mut r, b.as_str());
    let b = invocation_header_text(c);
    push_str(&mut r, b.as_str());
    let b = detail_line_text(c, "Context", "          : ", context);
    push_str(&mut r, b.as_str());
    let b = origin_line_text(c);
    push_str(&mut r, b.as_str());
    let b = stack_header_text(c);
    push_str(&mut r, b.as_str());
    push_str(&mut r, "    ");
    push_str(&mut r, c.dim());
    push_str(&mut r, "at panic in '");
    push_str(&mut r, context);
    push_str(&mut r, "'\n");
    r
}

fn format_verbose_file(c: &Colors, path: &str, operation: &str, message: &str) -> (r: String)
    ensures
        r@ == verbose_file(*c, path@, operation@, message@),
{
    let cp = clean_path(path);
    let code = error_codes::LUA_ERRFILE;
    let mut id = text_of(operation);
    push_str(&mut id, "Failed");
    let mut r = text_of(c.red());
    push_str(&mut r, "file:");
    push_str(&mut r, c.reset());
    push_str(&mut r, " Failed to ");
    push_str(&mut r, operation);
    push_str(&mut r, " '");
    push_str(&mut r, cp.as_str());
    push_str(&mut r, "': ");
    push_str(&mut r, message);
    push_str(&mut r, "\n");
    push_str(&mut r, "\n");
    let b = exception_block_text(c, message, code);
    push_str(&mut r, b.as_str());
    let b = target_line_text(c, cp.as_str());
    push_str(&mut r, b.as_str());
    let b = category_lines_text(c, c.red(), "FileError", c.red(), id.as_str());
    push_str(&mut r, b.as_str());
    let b = summary_lines_text(c, message, "nicyruntime.filesystem", code);
    push_str(&mut r, b.as_str());
    let b = invocation_header_text(c);
    push_str(&mut r, b.as_str());
    let b = detail_line_text(c, "FilePath", "         : ", cp.as_str());
    push_str(&mut r, b.as_str());
    let b = detail_line_text(c, "Operation", "        : ", operation);
    push_str(&mut r, b.as_str());
    let b = origin_line_text(c);
    push_str(&mut r, b.as_str());
    let b = stack_header_text(c);
    push_str(&mut r, b.as_str());
    push_str(&mut r, "    ");
    push_str(&mut r, c.dim());
    push_str(&mut r, "at ");
    push_str(&mut r, operation);
    push_str(&mut r, "('");
    push_str(&mut r, cp.as_str());
    push_str(&mut r, "')\n");
    r
}

fn format_verbose_generic(c: &Colors, context: &str, message: &str) -> (r: String)
    ensures
        r@ == verbose_generic(*c, context@, message@),
{
    let code = error_codes::LUA_ERRRUN;
    let mut id = text_of("GenericError,");
    push_str(&mut id, context);
    let mut r = text_of(c.red());
    push_str(&mut r, "runtime:");
    push_str(&mut r, c.reset());
    push_str(&mut r, " ");
    push_str(&mut r, context);
    push_str(&mut r, ": ");
    push_str(&mut r, message);
    push_str(&mut r, "\n");
    push_str(&mut r, "\n");
    let b = exception_block_text(c, message, code);
    push_str(&mut r, b.as_str());
    let b = category_lines_text(c, c.red(), "RuntimeError", c.red(), id.as_str());
    push_str(&mut r, b.as_str());
    let b = summary_lines_text(c, message, "nicyruntime.runtime", code);
    push_str(&mut r, b.as_str());
    let b = invocation_header_text(c);
    push_str(&mut r, b.as_str());
    let b = detail_line_text(c, "Context", "          : ", context);
    push_str(&mut r, b.as_str());
    let b = origin_line_text(c);
    push_str(&mut r, b.as_str());
    let b = stack_header_text(c);
    push_str(&mut r, b.as_str());
    push_str(&mut r, "    ");
    push_str(&mut r, c.dim());
    push_str(&mut r, "at '");
    push_str(&mut r, context);
    push_str(&mut r, "'\n");
    r
}

fn format_verbose(err: &NicyError, c: &Colors) -> (r: String)
    ensures
        r@ == verbose_text(*err, *c),
{
    match err {
        NicyError::RequireError { spec, resolved_path, chain, message } => format_verbose_require(
            c,
            spec.as_str(),
            resolved_path,
            chain,
            message.as_str(),
        ),
        NicyError::RuntimeError { message, stack_trace, file, line } => format_verbose_runtime(
            c,
            message.as_str(),
            stack_trace,
            file,
            *line,
        ),
        NicyError::TaskError { task_type, message } => format_verbose_task(c, task_type, message.as_str()),
        NicyError::LoadError { path, line, column, message } => format_verbose_load(
            c,
            path.as_str(),
            *line,
            *column,
            message.as_str(),
        ),
        NicyError::PanicError { context, payload } => format_verbose_panic(c, context, payload.as_str()),
        NicyError::FileError { path, operation, message } => format_verbose_file(
            c,
            path.as_str(),
            operation,
            message.as_str(),
        ),
        NicyError::RuntimeErrorGeneric { context, message } => format_verbose_generic(
            c,
            context,
            message.as_str(),
        ),
    }
}

// ---------------------------------------------------------------------------
// Warnings and notices
// ---------------------------------------------------------------------------

/// The rendering of a warning.
pub open spec fn warning_text(message: Seq<char>, style: OutputStyle) -> Seq<char> {
    let c = style.colors;
    let code = error_codes::LUA_OK;
    if style.verbose {
        c.yellow_s() + "warn:"@ + c.reset_s() + " "@ + message + "\n"@ + "\n"@ + exception_block(
            c,
            message,
            code,
        ) + category_lines(c, c.yellow_s(), "Warning"@, c.yellow_s(), "RuntimeWarning"@)
            + summary_lines(c, message, "nicyruntime.warn"@, code) + invocation_header(c)
            + origin_line(c)
    } else {
        c.yellow_s() + "warning:"@ + c.reset_s() + " "@ + message + "\n"@
    }
}

/// The rendering of an informational notice.
pub open spec fn info_text(message: Seq<char>, style: OutputStyle) -> Seq<char> {
    let c = style.colors;
    let code = error_codes::LUA_OK;
    if style.verbose {
        c.cyan_s() + "info:"@ + c.reset_s() + " "@ + message + "\n"@ + "\n"@ + exception_block(
            c,
            message,
            code,
        ) + category_lines(c, c.cyan_s(), "Information"@, c.cyan_s(), "RuntimeInfo"@)
            + summary_lines(c, message, "nicyruntime.info"@, code) + invocation_header(c)
            + origin_line(c)
    } else {
        c.cyan_s() + "info:"@ + c.reset_s() + " "@ + message + "\n"@
    }
}

/// The rendering of an error in the given style.
pub open spec fn error_text(err: NicyError, style: OutputStyle) -> Seq<char> {
    if style.verbose { verbose_text(err, style.colors) } else { concise_text(err, style.colors) }
}

/// Renders errors, warnings and notices.
pub struct ErrorFormatter;

impl ErrorFormatter {
    /// Renders an error: the record form when `style.verbose`, the concise form otherwise.
    pub fn format_error(err: &NicyError, style: OutputStyle) -> (r: String)
        ensures
            r@ == error_text(*err, style),
    {
        if style.verbose {
            format_verbose(err, &style.colors)
        } else {
            format_concise(err, &style.colors)
        }
    }

    /// Renders a warning.
    pub fn format_warning(message: &str, style: OutputStyle) -> (r: String)
        ensures
            r@ == warning_text(message@, style),
    {
        let c = &style.colors;
        let mut r = text_of(c.yellow());
        if style.verbose {
            let code = error_codes::LUA_OK;
            push_str(&mut r, "warn:");
            push_str(&mut r, c.reset());
            push_str(&mut r, " ");
            push_str(&mut r, message);
            push_str(&mut r, "\n");
            push_str(&mut r, "\n");
            let b = exception_block_text(c, message, code);
            push_str(&mut r, b.as_str());
            let b = category_lines_text(c, c.yellow(), "Warning", c.yellow(), "RuntimeWarning");
            push_str(&mut r, b.as_str());
            let b = summary_lines_text(c, message, "nicyruntime.warn", code);
            push_str(&mut r, b.as_str());
            let b = invocation_header_text(c);
            push_str(&mut r, b.as_str());
            let b = origin_line_text(c);
            push_str(&mut r, b.as_str());
        } else {
            push_str(&mut r, "warning:");
            push_str(&mut r, c.reset());
            push_str(&mut r, " ");
            push_str(&mut r, message);
            push_str(&mut r, "\n");
        }
        r
    }

    /// Renders an informational notice.
    pub fn format_info(message: &str, style: OutputStyle) -> (r: String)
        ensures
            r@ == info_text(message@, style),
    {
        let c = &style.colors;
        let mut r = text_of(c.cyan());
        push_str(&mut r, "info:");
        push_str(&mut r, c.reset());
        push_str(&mut r, " ");
        push_str(&mut r, message);
        push_str(&mut r, "\n");
        if style.verbose {
            let code = error_codes::LUA_OK;
            push_str(&mut r, "\n");
            let b = exception_block_text(c, message, code);
            push_str(&mut r, b.as_str());
            let b = category_lines_text(c, c.cyan(), "Information", c.cyan(), "RuntimeInfo");
            push_str(&mut r, b.as_str());
            let b = summary_lines_text(c, message, "nicyruntime.info", code);
            push_str(&mut r, b.as_str());
            let b = invocation_header_text(c);
            push_str(&mut r, b.as_str());
            let b = origin_line_text(c);
            push_str(&mut r, b.as_str());
        }
        r
    }
}

} // verus!
