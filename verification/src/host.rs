//! What the runtime's entry points decide before and after they touch the Lua state:
//! the text of a panic payload, the kind of an entry file, chunk names, the options of
//! `collectgarbage` and the failures of `runtime.loadlib`.
use vstd::prelude::*;
use std::any::Any;
use crate::error::{text_of, NicyError};
use crate::resolver::paths::{path_extension, path_extension_of, path_parent, path_parent_of,
    path_with_extension, path_with_extension_of};
use crate::directives::CompilerDirectives;
use crate::text::{push_str, push_char, str_eq, push_dec_u64, push_dec_u128, dec_nat};

verus! {

/// The payload as a string slice, when it holds one: `<dyn Any>::downcast_ref::<&str>`.
/// Nothing is stated of the result: it depends on the payload's type, which the
/// contracts cannot name.
#[verifier::external_body]
fn payload_str<T: 'static>(p: &Box<T>) -> (r: Option<String>) {
    let any: &dyn Any = &**p;
    any.downcast_ref::<&str>().map(|s| s.to_string())
}

/// The payload as an owned string, when it holds one: `<dyn Any>::downcast_ref::<String>`.
/// Nothing is stated of the result, for the same reason.
#[verifier::external_body]
fn payload_string<T: 'static>(p: &Box<T>) -> (r: Option<String>) {
    let any: &dyn Any = &**p;
    any.downcast_ref::<String>().map(|s| s.clone())
}

/// The text shown for a panic payload: its string slice, else its owned string, else a
/// fixed note.
pub open spec fn payload_text_of(as_str: Option<Seq<char>>, as_string: Option<Seq<char>>) -> Seq<char> {
    match as_str {
        Some(s) => s,
        None => match as_string {
            Some(s) => s,
            None => "non-string panic payload"@,
        },
    }
}

/// Chooses the text of a panic payload from what it held.
pub fn payload_text(as_str: Option<String>, as_string: Option<String>) -> (r: String)
    ensures
        r@ == payload_text_of(
            match as_str { Some(s) => Some(s@), None => None },
            match as_string { Some(s) => Some(s@), None => None },
        ),
{
    match as_str {
        Some(s) => s,
        None => match as_string {
            Some(s) => s,
            None => text_of("non-string panic payload"),
        },
    }
}

/// The text of a caught panic: a `&str` or `String` payload as it is, anything else as
/// `"non-string panic payload"`.
pub fn panic_payload_to_string<T: 'static>(p: Box<T>) -> (r: String) {
    let a = payload_str(&p);
    let b = payload_string(&p);
    payload_text(a, b)
}

// ---------------------------------------------------------------------------
// Entry files and chunk names
// ---------------------------------------------------------------------------

/// How an entry file is loaded: as source text or as precompiled bytecode.
#[derive(Debug, Clone, Copy, PartialEq, Eq, Structural)]
pub enum EntryKind {
    Source,
    Bytecode,
}

/// The extension of a path as the runtime reads it: empty when there is none.
pub open spec fn entry_extension(path: Seq<char>) -> Seq<char> {
    match path_extension_of(path) {
        Some(e) => e,
        None => Seq::empty(),
    }
}

/// The complaint about an entry file whose extension is not one the runtime runs.
pub open spec fn unsupported_extension_message(ext: Seq<char>) -> Seq<char> {
    "unsupported file extension '."@ + ext + "', expected '.luau', '.lua', or '.luauc'"@
}

/// The kind of entry file an extension names, if any.
pub open spec fn entry_kind_of(ext: Seq<char>) -> Option<EntryKind> {
    if ext == "luau"@ || ext == "lua"@ {
        Some(EntryKind::Source)
    } else if ext == "luauc"@ {
        Some(EntryKind::Bytecode)
    } else {
        None
    }
}

/// Decides how the entry file `path` runs: `.luau` and `.lua` files as source, `.luauc`
/// files as bytecode; any other extension (or none) is refused with a file error on
/// opening it.
pub fn entry_kind(path: &str) -> (r: Result<EntryKind, NicyError>)
    ensures
        match entry_kind_of(entry_extension(path@)) {
            Some(k) => r == Ok::<EntryKind, NicyError>(k),
            None => r matches Err(NicyError::FileError { path: p, operation, message })
                && p@ == path@ && operation == "open"
                && message@ == unsupported_extension_message(entry_extension(path@)),
        },
{
    let ext = match path_extension(path) {
        Some(e) => e,
        None => String::new(),
    };
    if str_eq(ext.as_str(), "luau") || str_eq(ext.as_str(), "lua") {
        proof {
            reveal_strlit("luau");
            reveal_strlit("lua");
        }
        return Ok(EntryKind::Source);
    }
    if str_eq(ext.as_str(), "luauc") {
        proof {
            reveal_strlit("luau");
            reveal_strlit("lua");
            reveal_strlit("luauc");
        }
        return Ok(EntryKind::Bytecode);
    }
    let mut message = text_of("unsupported file extension '.");
    push_str(&mut message, ext.as_str());
    push_str(&mut message, "', expected '.luau', '.lua', or '.luauc'");
    Err(NicyError::file_error(text_of(path), "open", message))
}

/// Whether a module file holds precompiled bytecode: its extension is `luauc`.
pub fn is_bytecode_file(path: &str) -> (r: bool)
    ensures
        r == (path_extension_of(path@) == Some("luauc"@)),
{
    proof {
        reveal_strlit("luauc");
    }
    match path_extension(path) {
        Some(e) => str_eq(e.as_str(), "luauc"),
        None => false,
    }
}

/// A text with every NUL character replaced by `?`, as chunk names and messages handed to
/// Lua need.
pub open spec fn nul_replaced(s: Seq<char>) -> Seq<char> {
    Seq::new(s.len(), |i: int| if s[i] == '\0' { '?' } else { s[i] })
}

/// A text handed to Lua holds no NUL, and NUL-free text passes through unchanged.
pub proof fn lemma_nul_replaced(s: Seq<char>)
    ensures
        !nul_replaced(s).contains('\0'),
        nul_replaced(s).len() == s.len(),
        !s.contains('\0') ==> nul_replaced(s) == s,
{
    if !s.contains('\0') {
        assert(nul_replaced(s) =~= s);
    }
}

/// Replaces every NUL character of `s` by `?`.
pub fn without_nul(s: &str) -> (r: String)
    ensures
        r@ == nul_replaced(s@),
{
    let mut out = String::new();
    let n = s.unicode_len();
    let mut i: usize = 0;
    while i < n
        invariant
            n == s@.len(),
            i <= n,
            out@ == nul_replaced(s@).take(i as int),
        decreases n - i,
    {
        let c = s.get_char(i);
        if c == '\0' {
            push_char(&mut out, '?');
        } else {
            push_char(&mut out, c);
        }
        assert(nul_replaced(s@).take(i + 1) =~= nul_replaced(s@).take(i as int).push(
            nul_replaced(s@)[i as int],
        ));
        i = i + 1;
    }
    assert(nul_replaced(s@).take(n as int) =~= nul_replaced(s@));
    out
}

// ---------------------------------------------------------------------------
// collectgarbage
// ---------------------------------------------------------------------------

/// Luau's `lua_gc` request codes.
pub const LUA_GCSTOP: i32 = 0;
pub const LUA_GCRESTART: i32 = 1;
pub const LUA_GCCOLLECT: i32 = 2;
pub const LUA_GCCOUNT: i32 = 3;
pub const LUA_GCISRUNNING: i32 = 5;
pub const LUA_GCSTEP: i32 = 6;

/// The step size used by `collectgarbage("step")` without a size.
pub const DEFAULT_GC_STEP: i32 = 100;

/// The options `collectgarbage` accepts.
#[derive(Debug, Clone, Copy, PartialEq, Eq, Structural)]
pub enum GcOption {
    Count,
    Collect,
    IsRunning,
    Stop,
    Restart,
    Step,
}

/// What `collectgarbage` hands back to Lua after the request.
#[derive(Debug, Clone, Copy, PartialEq, Eq, Structural)]
pub enum GcReply {
    /// No value.
    Nothing,
    /// The collector's answer as a number (kilobytes in use).
    Number,
    /// Whether the collector's answer is not 0.
    Flag,
}

/// One call of `lua_gc`: the request code, its argument and the reply.
#[derive(Debug, Clone, Copy, PartialEq, Eq, Structural)]
pub struct GcRequest {
    pub what: i32,
    pub data: i32,
    pub reply: GcReply,
}

/// The option an option name stands for.
pub open spec fn gc_option_of(name: Seq<char>) -> Option<GcOption> {
    if name == "count"@ {
        Some(GcOption::Count)
    } else if name == "collect"@ {
        Some(GcOption::Collect)
    } else if name == "isrunning"@ {
        Some(GcOption::IsRunning)
    } else if name == "stop"@ {
        Some(GcOption::Stop)
    } else if name == "restart"@ {
        Some(GcOption::Restart)
    } else if name == "step"@ {
        Some(GcOption::Step)
    } else {
        None
    }
}

/// The complaint about an option `collectgarbage` does not know.
pub open spec fn invalid_gc_option_message(name: Seq<char>) -> Seq<char> {
    "invalid option '"@ + name + "'"@
}

/// Reads the first argument of `collectgarbage`: one of `count`, `collect`, `isrunning`,
/// `stop`, `restart` and `step`; anything else is refused with `invalid option '<name>'`.
pub fn parse_gc_option(name: &str) -> (r: Result<GcOption, String>)
    ensures
        match gc_option_of(name@) {
            Some(o) => r == Ok::<GcOption, String>(o),
            None => r matches Err(m) && m@ == invalid_gc_option_message(name@),
        },
{
    proof {
        reveal_strlit("count");
        reveal_strlit("collect");
        reveal_strlit("isrunning");
        reveal_strlit("stop");
        reveal_strlit("restart");
        reveal_strlit("step");
    }
    if str_eq(name, "count") {
        Ok(GcOption::Count)
    } else if str_eq(name, "collect") {
        Ok(GcOption::Collect)
    } else if str_eq(name, "isrunning") {
        Ok(GcOption::IsRunning)
    } else if str_eq(name, "stop") {
        Ok(GcOption::Stop)
    } else if str_eq(name, "restart") {
        Ok(GcOption::Restart)
    } else if str_eq(name, "step") {
        Ok(GcOption::Step)
    } else {
        let mut m = text_of("invalid option '");
        push_str(&mut m, name);
        push_char(&mut m, '\'');
        proof {
            reveal_strlit("'");
        }
        assert(m@ =~= invalid_gc_option_message(name@));
        Err(m)
    }
}

/// The `lua_gc` call an option makes; `step` uses its size argument, 100 without one.
pub open spec fn gc_request_of(option: GcOption, step: Option<i32>) -> GcRequest {
    match option {
        GcOption::Count => GcRequest { what: LUA_GCCOUNT, data: 0, reply: GcReply::Number },
        GcOption::Collect => GcRequest { what: LUA_GCCOLLECT, data: 0, reply: GcReply::Nothing },
        GcOption::IsRunning => GcRequest { what: LUA_GCISRUNNING, data: 0, reply: GcReply::Flag },
        GcOption::Stop => GcRequest { what: LUA_GCSTOP, data: 0, reply: GcReply::Nothing },
        GcOption::Restart => GcRequest { what: LUA_GCRESTART, data: 0, reply: GcReply::Nothing },
        GcOption::Step => GcRequest {
            what: LUA_GCSTEP,
            data: match step {
                Some(n) => n,
                None => DEFAULT_GC_STEP,
            },
            reply: GcReply::Flag,
        },
    }
}

/// The `lua_gc` call for an option of `collectgarbage`.
pub fn gc_request(option: GcOption, step: Option<i32>) -> (r: GcRequest)
    ensures
        r == gc_request_of(option, step),
{
    match option {
        GcOption::Count => GcRequest { what: LUA_GCCOUNT, data: 0, reply: GcReply::Number },
        GcOption::Collect => GcRequest { what: LUA_GCCOLLECT, data: 0, reply: GcReply::Nothing },
        GcOption::IsRunning => GcRequest { what: LUA_GCISRUNNING, data: 0, reply: GcReply::Flag },
        GcOption::Stop => GcRequest { what: LUA_GCSTOP, data: 0, reply: GcReply::Nothing },
        GcOption::Restart => GcRequest { what: LUA_GCRESTART, data: 0, reply: GcReply::Nothing },
        GcOption::Step => GcRequest {
            what: LUA_GCSTEP,
            data: match step {
                Some(n) => n,
                None => DEFAULT_GC_STEP,
            },
            reply: GcReply::Flag,
        },
    }
}

/// The number of values a reply pushes.
pub fn gc_reply_count(reply: GcReply) -> (r: i32)
    ensures
        r == (if reply == GcReply::Nothing { 0i32 } else { 1i32 }),
{
    match reply {
        GcReply::Nothing => 0,
        _ => 1,
    }
}

// ---------------------------------------------------------------------------
// runtime.loadlib
// ---------------------------------------------------------------------------

/// Why `runtime.loadlib` failed.
#[derive(Debug, Clone, PartialEq, Eq)]
pub enum LoadlibFailure {
    /// The argument was not a string.
    InvalidPath,
    /// The argument was not UTF-8.
    InvalidEncoding,
    /// The specifier could not be resolved; the message says why.
    Unresolved(String),
    /// The resolved file does not exist.
    NotFound(String),
    /// The platform loader refused the library.
    LoadFailed { path: String, detail: String },
    /// The library crashed while it was being loaded (on Windows or not).
    Crashed { path: String, windows: bool },
    /// The library has no `nicydynamic_init` (nor `nicydinamic_init`) symbol.
    MissingInit(String),
    /// The init function panicked; the payload's text (on Windows or not).
    InitPanicked { payload: String, windows: bool },
    /// The init function did not return exactly one value.
    BadReturnCount,
    /// Anything else panicked; the payload's text.
    Panicked(String),
}

/// What is reported of an init function that panicked.
pub open spec fn init_panic_detail(payload: Seq<char>, windows: bool) -> Seq<char> {
    payload + if windows { " - native DLL crashed (possible SEH exception)"@ } else { " - native DLL crashed"@ }
}

/// The message of a `runtime.loadlib` failure, as Lua receives it (before NULs are
/// replaced).
pub open spec fn loadlib_message_of(f: LoadlibFailure) -> Seq<char> {
    match f {
        LoadlibFailure::InvalidPath => "invalid path"@,
        LoadlibFailure::InvalidEncoding => "invalid path encoding"@,
        LoadlibFailure::Unresolved(m) => m@,
        LoadlibFailure::NotFound(p) => "file not found: '"@ + p@ + "'"@,
        LoadlibFailure::LoadFailed { path, detail } => "failed to load library '"@ + path@ + "': "@ + detail@,
        LoadlibFailure::Crashed { path, windows } => "failed to load library '"@ + path@ + (
        if windows {
            "': native DLL crashed during load (possible missing dependency or SEH exception)"@
        } else {
            "': native library crashed during load"@
        }),
        LoadlibFailure::MissingInit(d) => "missing extension init symbol (nicydynamic_init): "@ + d@,
        LoadlibFailure::InitPanicked { payload, windows } => "extension panic during init: "@
            + init_panic_detail(payload@, windows),
        LoadlibFailure::BadReturnCount => "invalid extension return count (expected 1)"@,
        LoadlibFailure::Panicked(m) => "runtime panic in runtime.loadlib: "@ + m@,
    }
}

fn init_panic_detail_text(payload: &str, windows: bool) -> (r: String)
    ensures
        r@ == init_panic_detail(payload@, windows),
{
    let mut r = text_of(payload);
    if windows {
        push_str(&mut r, " - native DLL crashed (possible SEH exception)");
    } else {
        push_str(&mut r, " - native DLL crashed");
    }
    r
}

/// The payload of the panic record reported for a failure that crashed: the whole message
/// for a crash while loading, the detail for a panic in the init function.
pub open spec fn crash_report_of(f: LoadlibFailure) -> Option<Seq<char>> {
    match f {
        LoadlibFailure::Crashed { .. } => Some(loadlib_message_of(f)),
        LoadlibFailure::InitPanicked { payload, windows } => Some(init_panic_detail(payload@, windows)),
        _ => None,
    }
}

impl LoadlibFailure {
    /// The payload of the panic record reported for a crash, if the failure is one.
    pub fn crash_report(&self) -> (r: Option<String>)
        ensures
            match crash_report_of(*self) {
                Some(t) => r is Some && r.unwrap()@ == t,
                None => r is None,
            },
    {
        match self {
            LoadlibFailure::Crashed { .. } => Some(self.message()),
            LoadlibFailure::InitPanicked { payload, windows } => Some(init_panic_detail_text(payload.as_str(), *windows)),
            _ => None,
        }
    }

    /// The failure's message.
    pub fn message(&self) -> (r: String)
        ensures
            r@ == loadlib_message_of(*self),
    {
        match self {
            LoadlibFailure::InvalidPath => text_of("invalid path"),
            LoadlibFailure::InvalidEncoding => text_of("invalid path encoding"),
            LoadlibFailure::Unresolved(m) => m.clone(),
            LoadlibFailure::NotFound(p) => {
                let mut r = text_of("file not found: '");
                push_str(&mut r, p.as_str());
                push_char(&mut r, '\'');
                proof {
                    reveal_strlit("'");
                }
                assert(r@ =~= loadlib_message_of(*self));
                r
            },
            LoadlibFailure::LoadFailed { path, detail } => {
                let mut r = text_of("failed to load library '");
                push_str(&mut r, path.as_str());
                push_str(&mut r, "': ");
                push_str(&mut r, detail.as_str());
                r
            },
            LoadlibFailure::Crashed { path, windows } => {
                let mut r = text_of("failed to load library '");
                push_str(&mut r, path.as_str());
                if *windows {
                    push_str(&mut r, "': native DLL crashed during load (possible missing dependency or SEH exception)");
                } else {
                    push_str(&mut r, "': native library crashed during load");
                }
                r
            },
            LoadlibFailure::MissingInit(d) => {
                let mut r = text_of("missing extension init symbol (nicydynamic_init): ");
                push_str(&mut r, d.as_str());
                r
            },
            LoadlibFailure::InitPanicked { payload, windows } => {
                let mut r = text_of("extension panic during init: ");
                let d = init_panic_detail_text(payload.as_str(), *windows);
                push_str(&mut r, d.as_str());
                r
            },
            LoadlibFailure::BadReturnCount => text_of("invalid extension return count (expected 1)"),
            LoadlibFailure::Panicked(m) => {
                let mut r = text_of("runtime panic in runtime.loadlib: ");
                push_str(&mut r, m.as_str());
                r
            },
        }
    }
}

/// Checks what an extension's init function returned: it must leave exactly one value.
pub fn check_init_result(count: i32) -> (r: Result<(), LoadlibFailure>)
    ensures
        count == 1 <==> r is Ok,
        count != 1 ==> r == Err::<(), LoadlibFailure>(LoadlibFailure::BadReturnCount),
{
    if count != 1 {
        Err(LoadlibFailure::BadReturnCount)
    } else {
        Ok(())
    }
}

/// The message handed to Lua for a failure (NULs replaced) and the warning shown for it.
pub open spec fn loadlib_reply_of(f: LoadlibFailure) -> (Seq<char>, Seq<char>) {
    let m = nul_replaced(loadlib_message_of(f));
    (m, "runtime.loadlib failed: "@ + m)
}

/// What `runtime.loadlib` answers for a failure: the message for Lua, next to `nil`, and
/// the warning it also shows.
pub fn loadlib_reply(f: &LoadlibFailure) -> (r: (String, String))
    ensures
        r.0@ == loadlib_reply_of(*f).0,
        r.1@ == loadlib_reply_of(*f).1,
{
    let m = f.message();
    let filtered = without_nul(m.as_str());
    let mut warning = text_of("runtime.loadlib failed: ");
    push_str(&mut warning, filtered.as_str());
    (filtered, warning)
}

// ---------------------------------------------------------------------------
// Loaded extension libraries
// ---------------------------------------------------------------------------

/// `libloading::Library`, an open native library, held opaque: it is only kept and
/// dropped (dropping it closes the library).
#[verifier::external_type_specification]
#[verifier::external_body]
pub struct ExLibrary(libloading::Library);

/// The native extension libraries loaded by `runtime.loadlib`, kept open until shutdown.
pub struct LoadedLibraries {
    libs: Vec<libloading::Library>,
}

impl LoadedLibraries {
    /// The libraries held open, in the order they were loaded.
    pub closed spec fn held(&self) -> Seq<libloading::Library> {
        self.libs@
    }

    /// How many libraries are held open.
    pub open spec fn count(&self) -> nat {
        self.held().len()
    }

    /// No library loaded yet.
    pub fn new() -> (r: Self)
        ensures
            r.held() == Seq::<libloading::Library>::empty(),
    {
        LoadedLibraries { libs: Vec::new() }
    }

    /// Keeps a freshly loaded library open for the rest of the run.
    pub fn keep(&mut self, lib: libloading::Library)
        ensures
            final(self).held() == old(self).held().push(lib),
    {
        self.libs.push(lib);
    }

    /// The number of libraries held open.
    pub fn len(&self) -> (r: usize)
        ensures
            r == self.count(),
    {
        self.libs.len()
    }

    /// Closes every loaded library (dropping a library unloads it) at the end of a run.
    pub fn shutdown_loaded_libs(&mut self)
        ensures
            final(self).held() == Seq::<libloading::Library>::empty(),
    {
        self.libs.clear();
    }
}

// ---------------------------------------------------------------------------
// High-resolution timer
// ---------------------------------------------------------------------------

/// Whether the high-resolution system timer is raised for the run (Windows): it is when
/// `NICY_HIRES_TIMER` is set to anything but `0`.
pub struct Guard {
    enabled: bool,
}

impl Guard {
    pub closed spec fn is_enabled(&self) -> bool {
        self.enabled
    }

    /// Decides from the value of `NICY_HIRES_TIMER`, if it is set.
    pub fn maybe_enable(setting: Option<&str>) -> (r: Self)
        ensures
            r.is_enabled() == (match setting {
                Some(v) => v@ != "0"@,
                None => false,
            }),
    {
        let enabled = match setting {
            Some(v) => !str_eq(v, "0"),
            None => false,
        };
        Guard { enabled }
    }

    /// Whether the timer was raised, so that it must be lowered again at the end.
    pub fn enabled(&self) -> (r: bool)
        ensures
            r == self.is_enabled(),
    {
        self.enabled
    }
}

// ---------------------------------------------------------------------------
// The `runtime` table, compilation and temporary files
// ---------------------------------------------------------------------------

/// The directory shown as `runtime.entry_dir`: the entry file's parent, `.` without one.
pub fn entry_dir_label(entry_path: &str) -> (r: String)
    ensures
        r@ == match path_parent_of(entry_path@) {
            Some(p) => p,
            None => "."@,
        },
{
    match path_parent(entry_path) {
        Some(p) => p,
        None => text_of("."),
    }
}

/// The file a compiled script is written to: the script with the extension `luauc`.
pub fn bytecode_output_path(script: &str) -> (r: String)
    ensures
        r@ == path_with_extension_of(script@, "luauc"@),
{
    proof {
        reveal_strlit("luauc");
        assert(!"luauc"@.contains('/') && !"luauc"@.contains('\\')) by {
            assert(forall|i: int| 0 <= i < "luauc"@.len() ==> "luauc"@[i] != '/' && "luauc"@[i] != '\\');
        }
    }
    path_with_extension(script, "luauc")
}

/// The settings handed to the Luau compiler.
#[derive(Debug, Clone, Copy, PartialEq, Eq, Structural)]
pub struct CompileSettings {
    pub optimization_level: i32,
    pub debug_level: i32,
    pub type_info_level: i32,
    pub coverage_level: i32,
}

/// The compiler settings for a script's directives: its optimization and type information
/// levels, debug level 1, and coverage level 1 when `--!coverage` asks for it.
pub fn compile_settings(d: &CompilerDirectives) -> (r: CompileSettings)
    ensures
        r == (CompileSettings {
            optimization_level: d.optimization_level,
            debug_level: 1,
            type_info_level: d.type_info_level,
            coverage_level: if d.coverage { 1 } else { 0 },
        }),
{
    CompileSettings {
        optimization_level: d.optimization_level,
        debug_level: 1,
        type_info_level: d.type_info_level,
        coverage_level: if d.coverage { 1 } else { 0 },
    }
}

/// The name of a temporary file for `os.tmpname`: the process id, the time in nanoseconds
/// and a counter, which together keep names distinct.
pub open spec fn tmp_name_of(pid: u32, nanos: u128, counter: u64) -> Seq<char> {
    "nicy_tmp_"@ + dec_nat(pid as nat) + "_"@ + dec_nat(nanos as nat) + "_"@ + dec_nat(counter as nat)
        + ".tmp"@
}

/// Names a temporary file for `os.tmpname`.
pub fn tmp_file_name(pid: u32, nanos: u128, counter: u64) -> (r: String)
    ensures
        r@ == tmp_name_of(pid, nanos, counter),
{
    let mut r = text_of("nicy_tmp_");
    push_dec_u64(&mut r, pid as u64);
    push_str(&mut r, "_");
    push_dec_u128(&mut r, nanos);
    push_str(&mut r, "_");
    push_dec_u64(&mut r, counter);
    push_str(&mut r, ".tmp");
    r
}

/// The Luau version shown to scripts: the one the library reports, else `unknown luau`.
pub fn luau_version_text(reported: Option<&str>) -> (r: String)
    ensures
        r@ == match reported {
            Some(v) => v@,
            None => "unknown luau"@,
        },
{
    match reported {
        Some(v) => text_of(v),
        None => text_of("unknown luau"),
    }
}

} // verus!
