//! Error records of the runtime, their rendering, and pcall bookkeeping.
use vstd::prelude::*;
use vstd::string::*;
use crate::text::{push_str, push_char, push_dec_u64, push_dec_i32, dec_nat, dec_int, remove_all,
    remove_all_of, starts_with, lines, lines_of, views, trim, trimmed};
use self::error_codes::{code_name, code_to_name};

pub mod error_codes;
pub mod format;
pub mod report;

verus! {

/// Severity of a reported message.
#[derive(Debug, Clone, Copy, PartialEq, Eq, Structural)]
pub enum ErrorLevel {
    Error,
    Warning,
    Info,
}

impl ErrorLevel {
    /// The lower-case label of a level.
    pub open spec fn label_text(self) -> Seq<char> {
        match self {
            ErrorLevel::Error => "error"@,
            ErrorLevel::Warning => "warning"@,
            ErrorLevel::Info => "info"@,
        }
    }

    pub fn label(&self) -> (r: &'static str)
        ensures
            r@ == self.label_text(),
    {
        match self {
            ErrorLevel::Error => "error",
            ErrorLevel::Warning => "warning",
            ErrorLevel::Info => "info",
        }
    }
}

/// One `require` call in progress: the requiring file, its line when known, the
/// module specifier and the candidate paths that were searched.
#[derive(Debug, Clone, Default)]
pub struct RequireChainFrame {
    pub file: String,
    pub line: Option<u32>,
    pub spec: String,
    pub searched_paths: Vec<String>,
}

/// The stack of `require` calls in progress, innermost last.
#[derive(Debug, Clone, Default)]
pub struct RequireChain {
    frames: Vec<RequireChainFrame>,
}

/// The `:line` suffix of a location, empty when the line is unknown.
pub open spec fn line_suffix(line: Option<u32>) -> Seq<char> {
    match line {
        Some(l) => seq![':'] + dec_nat(l as nat),
        None => Seq::empty(),
    }
}

/// Appends `line_suffix(line)`.
pub fn push_line_suffix(out: &mut String, line: Option<u32>)
    ensures
        final(out)@ == old(out)@ + line_suffix(line),
{
    match line {
        Some(l) => {
            let ghost o = out@;
            push_char(out, ':');
            push_dec_u64(out, l as u64);
            assert(out@ =~= o + line_suffix(line));
        },
        None => {
            assert(out@ =~= out@ + line_suffix(line));
        },
    }
}

/// The listing of searched paths, one indented path per line.
pub open spec fn searched_text(paths: Seq<String>) -> Seq<char>
    decreases paths.len(),
{
    if paths.len() == 0 {
        Seq::empty()
    } else {
        searched_text(paths.drop_last()) + "        "@ + paths.last()@ + "\n"@
    }
}

/// The text of one frame of a require chain.
pub open spec fn frame_text(f: RequireChainFrame) -> Seq<char> {
    "    at require('"@ + f.spec@ + "'), "@ + f.file@ + line_suffix(f.line) + "\n"@ + (
    if f.searched_paths@.len() > 0 {
        "    SearchedPaths         :\n"@ + searched_text(f.searched_paths@)
    } else {
        Seq::empty()
    })
}

/// The text of a require chain: its frames from innermost to outermost.
pub open spec fn chain_text(frames: Seq<RequireChainFrame>) -> Seq<char>
    decreases frames.len(),
{
    if frames.len() == 0 {
        Seq::empty()
    } else {
        frame_text(frames.last()) + chain_text(frames.drop_last())
    }
}

/// A `String` with the contents of `t`.
pub fn text_of(t: &str) -> (r: String)
    ensures
        r@ == t@,
{
    t.to_owned()
}

fn frame_to_text(f: &RequireChainFrame) -> (r: String)
    ensures
        r@ == frame_text(*f),
{
    let mut out = text_of("    at require('");
    push_str(&mut out, f.spec.as_str());
    push_str(&mut out, "'), ");
    push_str(&mut out, f.file.as_str());
    push_line_suffix(&mut out, f.line);
    push_str(&mut out, "\n");
    let mut tail = String::new();
    if f.searched_paths.len() > 0 {
        push_str(&mut tail, "    SearchedPaths         :\n");
        let mut i: usize = 0;
        let ghost head = tail@;
        assert(f.searched_paths@.take(0) =~= Seq::<String>::empty());
        while i < f.searched_paths.len()
            invariant
                i <= f.searched_paths@.len(),
                tail@ == head + searched_text(f.searched_paths@.take(i as int)),
            decreases f.searched_paths@.len() - i,
        {
            let ghost before = tail@;
            push_str(&mut tail, "        ");
            push_str(&mut tail, f.searched_paths[i].as_str());
            push_str(&mut tail, "\n");
            assert(f.searched_paths@.take(i + 1).drop_last() =~= f.searched_paths@.take(i as int));
            assert(tail@ =~= head + searched_text(f.searched_paths@.take(i + 1)));
            i = i + 1;
        }
        assert(f.searched_paths@.take(i as int) =~= f.searched_paths@);
        assert(tail@ =~= "    SearchedPaths         :\n"@ + searched_text(f.searched_paths@));
    } else {
        assert(tail@ =~= Seq::<char>::empty());
    }
    push_str(&mut out, tail.as_str());
    out
}

impl RequireChain {
    /// The frames, outermost first.
    pub closed spec fn frames(self) -> Seq<RequireChainFrame> {
        self.frames@
    }

    pub fn new() -> (r: Self)
        ensures
            r.frames() == Seq::<RequireChainFrame>::empty(),
    {
        RequireChain { frames: Vec::new() }
    }

    /// Records a `require` call as the new innermost frame.
    pub fn push(&mut self, file: String, line: Option<u32>, spec: String, searched_paths: Vec<String>)
        ensures
            final(self).frames() == old(self).frames().push(
                RequireChainFrame { file, line, spec, searched_paths },
            ),
    {
        self.frames.push(RequireChainFrame { file, line, spec, searched_paths });
    }

    /// Drops the innermost frame, if any.
    pub fn pop(&mut self)
        ensures
            old(self).frames().len() == 0 ==> final(self).frames() == old(self).frames(),
            old(self).frames().len() > 0 ==> final(self).frames() == old(self).frames().drop_last(),
    {
        let _ = self.frames.pop();
    }

    pub fn is_empty(&self) -> (r: bool)
        ensures
            r == (self.frames().len() == 0),
    {
        self.frames.len() == 0
    }

    /// The innermost frame, if any.
    pub fn last_frame(&self) -> (r: Option<&RequireChainFrame>)
        ensures
            self.frames().len() == 0 ==> r.is_none(),
            self.frames().len() > 0 ==> r == Some(&self.frames().last()),
    {
        if self.frames.len() == 0 {
            None
        } else {
            Some(&self.frames[self.frames.len() - 1])
        }
    }

    /// The frame at `i`, outermost first.
    pub fn frame(&self, i: usize) -> (r: &RequireChainFrame)
        requires
            i < self.frames().len(),
        ensures
            *r == self.frames()[i as int],
    {
        &self.frames[i]
    }

    pub fn len(&self) -> (r: usize)
        ensures
            r == self.frames().len(),
    {
        self.frames.len()
    }

    /// The chain as text: one block per frame, innermost first, each naming the
    /// specifier, the requiring file and line, and the searched paths.
    pub fn format_chain(&self) -> (r: String)
        ensures
            r@ == chain_text(self.frames()),
    {
        let mut out = String::new();
        let n = self.frames.len();
        let mut i: usize = n;
        assert(self.frames@.take(n as int) =~= self.frames@);
        while i > 0
            invariant
                n == self.frames@.len(),
                i <= n,
                out@ + chain_text(self.frames@.take(i as int)) == chain_text(self.frames@),
            decreases i,
        {
            let t = frame_to_text(&self.frames[i - 1]);
            let ghost before = out@;
            push_str(&mut out, t.as_str());
            assert(self.frames@.take(i as int).drop_last() =~= self.frames@.take(i - 1));
            assert(out@ + chain_text(self.frames@.take(i - 1)) =~= before + chain_text(
                self.frames@.take(i as int),
            ));
            i = i - 1;
        }
        assert(out@ + Seq::<char>::empty() =~= out@);
        out
    }
}


/// An error raised by the runtime.
#[derive(Debug, Clone)]
pub enum NicyError {
    LoadError { path: String, line: Option<u32>, column: Option<u32>, message: String },
    RequireError {
        spec: String,
        resolved_path: Option<String>,
        chain: RequireChain,
        message: String,
    },
    RuntimeError {
        message: String,
        stack_trace: Option<String>,
        file: Option<String>,
        line: Option<u32>,
    },
    TaskError { task_type: &'static str, message: String },
    PanicError { context: &'static str, payload: String },
    FileError { path: String, operation: &'static str, message: String },
    RuntimeErrorGeneric { context: &'static str, message: String },
}

/// The Windows extended-length path prefix `\\?\`.
pub open spec fn extended_prefix() -> Seq<char> {
    "\\\\?\\"@
}

/// A path without a leading extended-length prefix.
pub open spec fn cleaned_path(path: Seq<char>) -> Seq<char> {
    if extended_prefix().is_prefix_of(path) {
        path.skip(extended_prefix().len() as int)
    } else {
        path
    }
}

/// A text with every extended-length prefix removed.
pub open spec fn cleaned_text(s: Seq<char>) -> Seq<char> {
    remove_all(s, extended_prefix())
}

/// Removes a leading Windows extended-length prefix `\\?\` from a path.
pub fn clean_path(path: &str) -> (r: String)
    ensures
        r@ == cleaned_path(path@),
{
    let prefix = "\\\\?\\";
    if starts_with(path, prefix) {
        let n = path.unicode_len();
        let k = prefix.unicode_len();
        text_of(path.substring_char(k, n))
    } else {
        text_of(path)
    }
}

/// Removes every extended-length prefix `\\?\` anywhere in a text.
pub fn clean_path_in_string(s: &str) -> (r: String)
    ensures
        r@ == cleaned_text(s@),
{
    let prefix = "\\\\?\\";
    proof {
        reveal_strlit("\\\\?\\");
    }
    remove_all_of(s, prefix)
}

/// The location `path[:line[:column]]` of a load error; the column shows only with a line.
pub open spec fn load_location(path: Seq<char>, line: Option<u32>, column: Option<u32>) -> Seq<char> {
    path + match line {
        Some(l) => seq![':'] + dec_nat(l as nat) + line_suffix(column),
        None => Seq::empty(),
    }
}

fn load_location_text(path: &str, line: Option<u32>, column: Option<u32>) -> (r: String)
    ensures
        r@ == load_location(path@, line, column),
{
    let mut out = text_of(path);
    let mut tail = String::new();
    if let Some(l) = line {
        push_char(&mut tail, ':');
        push_dec_u64(&mut tail, l as u64);
        push_line_suffix(&mut tail, column);
        assert(tail@ =~= seq![':'] + dec_nat(l as nat) + line_suffix(column));
    } else {
        assert(tail@ =~= Seq::<char>::empty());
    }
    push_str(&mut out, tail.as_str());
    out
}

impl NicyError {
    /// The one-line description of an error.
    pub open spec fn display_text(self) -> Seq<char> {
        match self {
            NicyError::LoadError { path, line, column, message } => "Failed to load '"@
                + load_location(path@, line, column) + "': "@ + message@,
            NicyError::RequireError { spec, message, .. } => "Could not resolve module '"@
                + spec@ + "': "@ + message@,
            NicyError::RuntimeError { message, file, line, .. } => match file {
                Some(f) => f@ + line_suffix(line) + ": "@ + message@,
                None => message@,
            },
            NicyError::TaskError { task_type, message } => "task."@ + task_type@ + " error: "@
                + message@,
            NicyError::PanicError { context, payload } => "Panic in "@ + context@ + ": "@
                + payload@,
            NicyError::FileError { path, operation, message } => "Failed to "@ + operation@
                + " '"@ + path@ + "': "@ + message@,
            NicyError::RuntimeErrorGeneric { context, message } => context@ + ": "@ + message@,
        }
    }

    /// The one-line description of this error.
    pub fn to_display_string(&self) -> (r: String)
        ensures
            r@ == self.display_text(),
    {
        match self {
            NicyError::LoadError { path, line, column, message } => {
                let loc = load_location_text(path.as_str(), *line, *column);
                let mut out = text_of("Failed to load '");
                push_str(&mut out, loc.as_str());
                push_str(&mut out, "': ");
                push_str(&mut out, message.as_str());
                out
            },
            NicyError::RequireError { spec, message, .. } => {
                let mut out = text_of("Could not resolve module '");
                push_str(&mut out, spec.as_str());
                push_str(&mut out, "': ");
                push_str(&mut out, message.as_str());
                out
            },
            NicyError::RuntimeError { message, file, line, .. } => {
                match file {
                    Some(f) => {
                        let mut out = text_of(f.as_str());
                        push_line_suffix(&mut out, *line);
                        push_str(&mut out, ": ");
                        push_str(&mut out, message.as_str());
                        out
                    },
                    None => text_of(message.as_str()),
                }
            },
            NicyError::TaskError { task_type, message } => {
                let mut out = text_of("task.");
                push_str(&mut out, task_type);
                push_str(&mut out, " error: ");
                push_str(&mut out, message.as_str());
                out
            },
            NicyError::PanicError { context, payload } => {
                let mut out = text_of("Panic in ");
                push_str(&mut out, context);
                push_str(&mut out, ": ");
                push_str(&mut out, payload.as_str());
                out
            },
            NicyError::FileError { path, operation, message } => {
                let mut out = text_of("Failed to ");
                push_str(&mut out, operation);
                push_str(&mut out, " '");
                push_str(&mut out, path.as_str());
                push_str(&mut out, "': ");
                push_str(&mut out, message.as_str());
                out
            },
            NicyError::RuntimeErrorGeneric { context, message } => {
                let mut out = text_of(context);
                push_str(&mut out, ": ");
                push_str(&mut out, message.as_str());
                out
            },
        }
    }

    /// Every error is reported at the `Error` level.
    pub fn level(&self) -> (r: ErrorLevel)
        ensures
            r == ErrorLevel::Error,
    {
        ErrorLevel::Error
    }

    /// The title of an error's kind.
    pub open spec fn title_text(self) -> Seq<char> {
        match self {
            NicyError::LoadError { .. } => "LoadError"@,
            NicyError::RequireError { .. } => "RequireError"@,
            NicyError::RuntimeError { .. } => "RuntimeError"@,
            NicyError::TaskError { .. } => "TaskError"@,
            NicyError::PanicError { .. } => "PanicError"@,
            NicyError::FileError { .. } => "FileError"@,
            NicyError::RuntimeErrorGeneric { .. } => "RuntimeError"@,
        }
    }

    pub fn title(&self) -> (r: &'static str)
        ensures
            r@ == self.title_text(),
    {
        match self {
            NicyError::LoadError { .. } => "LoadError",
            NicyError::RequireError { .. } => "RequireError",
            NicyError::RuntimeError { .. } => "RuntimeError",
            NicyError::TaskError { .. } => "TaskError",
            NicyError::PanicError { .. } => "PanicError",
            NicyError::FileError { .. } => "FileError",
            NicyError::RuntimeErrorGeneric { .. } => "RuntimeError",
        }
    }

    /// The status code of an error's kind.
    pub open spec fn code_value(self) -> i32 {
        match self {
            NicyError::LoadError { .. } => error_codes::LUA_ERRSYNTAX,
            NicyError::RequireError { .. } => error_codes::NICY_ERR_MODULE_NOT_FOUND,
            NicyError::RuntimeError { .. } => error_codes::LUA_ERRRUN,
            NicyError::TaskError { .. } => error_codes::NICY_ERR_TASK_CRASH,
            NicyError::PanicError { .. } => error_codes::NICY_ERR_NATIVE_CRASH,
            NicyError::FileError { .. } => error_codes::LUA_ERRFILE,
            NicyError::RuntimeErrorGeneric { .. } => error_codes::LUA_ERRRUN,
        }
    }

    pub fn code(&self) -> (r: i32)
        ensures
            r == self.code_value(),
    {
        match self {
            NicyError::LoadError { .. } => error_codes::LUA_ERRSYNTAX,
            NicyError::RequireError { .. } => error_codes::NICY_ERR_MODULE_NOT_FOUND,
            NicyError::RuntimeError { .. } => error_codes::LUA_ERRRUN,
            NicyError::TaskError { .. } => error_codes::NICY_ERR_TASK_CRASH,
            NicyError::PanicError { .. } => error_codes::NICY_ERR_NATIVE_CRASH,
            NicyError::FileError { .. } => error_codes::LUA_ERRFILE,
            NicyError::RuntimeErrorGeneric { .. } => error_codes::LUA_ERRRUN,
        }
    }

    /// A load error without a known line or column.
    pub fn load_error(path: String, message: String) -> (r: Self)
        ensures
            r == (NicyError::LoadError { path, line: None, column: None, message }),
    {
        NicyError::LoadError { path, line: None, column: None, message }
    }

    /// A require error without a resolved path.
    pub fn require_error(spec: String, message: String, chain: RequireChain) -> (r: Self)
        ensures
            r == (NicyError::RequireError { spec, resolved_path: None, chain, message }),
    {
        NicyError::RequireError { spec, resolved_path: None, chain, message }
    }

    /// A runtime error without stack trace or location.
    pub fn runtime_error(message: String) -> (r: Self)
        ensures
            r == (NicyError::RuntimeError { message, stack_trace: None, file: None, line: None }),
    {
        NicyError::RuntimeError { message, stack_trace: None, file: None, line: None }
    }

    pub fn task_error(task_type: &'static str, message: String) -> (r: Self)
        ensures
            r == (NicyError::TaskError { task_type, message }),
    {
        NicyError::TaskError { task_type, message }
    }

    pub fn panic_error(context: &'static str, payload: String) -> (r: Self)
        ensures
            r == (NicyError::PanicError { context, payload }),
    {
        NicyError::PanicError { context, payload }
    }

    pub fn file_error(path: String, operation: &'static str, message: String) -> (r: Self)
        ensures
            r == (NicyError::FileError { path, operation, message }),
    {
        NicyError::FileError { path, operation, message }
    }
}

/// Ending a `require` undoes starting it: pushing a frame and popping it leaves the chain
/// as it was.
pub proof fn lemma_chain_pop_undoes_push(frames: Seq<RequireChainFrame>, f: RequireChainFrame)
    ensures
        frames.push(f).len() > 0,
        frames.push(f).drop_last() == frames,
{
    assert(frames.push(f).drop_last() =~= frames);
}

/// The innermost `require` is shown first: the text of a chain with a frame pushed starts
/// with that frame's text, followed by the text of the chain before it.
pub proof fn lemma_chain_text_innermost_first(frames: Seq<RequireChainFrame>, f: RequireChainFrame)
    ensures
        chain_text(frames.push(f)) == frame_text(f) + chain_text(frames),
{
    assert(frames.push(f).drop_last() =~= frames);
}

} // verus!
