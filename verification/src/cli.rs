//! The `nicy` command line: which command the arguments ask for, where the runtime
//! library is looked for, and the messages the launcher prints.
use vstd::prelude::*;
use crate::text::{str_eq, push_str, starts_with, lines, lex_le, str_le, lemma_lex_total,
    lemma_lex_transitive, views};
use crate::error::text_of;
use crate::resolver::paths::{path_join, joined_path};

verus! {

/// The platforms the launcher knows library names for.
#[derive(Debug, Clone, Copy, PartialEq, Eq, Structural)]
pub enum TargetOs {
    Windows,
    MacOs,
    Android,
    OtherUnix,
}

/// The file name of the runtime library on a platform.
pub open spec fn library_basename_of(os: TargetOs) -> Seq<char> {
    match os {
        TargetOs::Windows => "nicyruntime.dll"@,
        TargetOs::MacOs => "libnicyruntime.dylib"@,
        _ => "libnicyruntime.so"@,
    }
}

/// The file name of the runtime library on `os`.
pub fn runtime_library_basename(os: TargetOs) -> (r: &'static str)
    ensures
        r@ == library_basename_of(os),
{
    match os {
        TargetOs::Windows => "nicyruntime.dll",
        TargetOs::MacOs => "libnicyruntime.dylib",
        _ => "libnicyruntime.so",
    }
}

/// The start and the end of the names of runtime library builds on a platform.
pub open spec fn library_prefix_and_ext_of(os: TargetOs) -> (Seq<char>, Seq<char>) {
    match os {
        TargetOs::Windows => ("nicyruntime"@, ".dll"@),
        TargetOs::MacOs => ("libnicyruntime"@, ".dylib"@),
        _ => ("libnicyruntime"@, ".so"@),
    }
}

/// The start and the end of the names of runtime library builds on `os`.
pub fn runtime_library_prefix_and_ext(os: TargetOs) -> (r: (&'static str, &'static str))
    ensures
        (r.0@, r.1@) == library_prefix_and_ext_of(os),
{
    match os {
        TargetOs::Windows => ("nicyruntime", ".dll"),
        TargetOs::MacOs => ("libnicyruntime", ".dylib"),
        _ => ("libnicyruntime", ".so"),
    }
}

/// The Termux installation prefix used when `PREFIX` is not set.
pub open spec fn default_termux_prefix() -> Seq<char> {
    "/data/data/com.termux/files/usr"@
}

/// The Termux prefix: the value of `PREFIX` when it is set, the default one otherwise.
pub fn termux_prefix(prefix_var: Option<String>) -> (r: String)
    ensures
        r@ == match prefix_var {
            Some(p) => p@,
            None => default_termux_prefix(),
        },
{
    match prefix_var {
        Some(p) => p,
        None => text_of("/data/data/com.termux/files/usr"),
    }
}

/// Where the runtime library is looked for on Android: the prefix's `lib` and `bin`, then
/// the default Termux `lib` and `bin` directories.
pub open spec fn android_candidates_of(prefix: Seq<char>, base: Seq<char>) -> Seq<Seq<char>> {
    seq![
        joined_path(joined_path(prefix, "lib"@), base),
        joined_path(joined_path(prefix, "bin"@), base),
        joined_path("/data/data/com.termux/files/usr/lib"@, base),
        joined_path("/data/data/com.termux/files/usr/bin"@, base),
    ]
}

/// The places the runtime library `base` is looked for on Android under `prefix`.
pub fn android_runtime_candidates(prefix: &str, base: &str) -> (r: Vec<String>)
    ensures
        crate::text::views(r@) == android_candidates_of(prefix@, base@),
{
    let lib_dir = path_join(prefix, "lib");
    let bin_dir = path_join(prefix, "bin");
    let mut out: Vec<String> = Vec::new();
    out.push(path_join(lib_dir.as_str(), base));
    out.push(path_join(bin_dir.as_str(), base));
    out.push(path_join("/data/data/com.termux/files/usr/lib", base));
    out.push(path_join("/data/data/com.termux/files/usr/bin", base));
    assert(crate::text::views(out@) =~= android_candidates_of(prefix@, base@));
    out
}

/// The C++ runtime loaded first on Android, looked for in the same places.
pub fn android_libcxx_candidates(prefix: &str) -> (r: Vec<String>)
    ensures
        crate::text::views(r@) == android_candidates_of(prefix@, "libc++_shared.so"@),
{
    android_runtime_candidates(prefix, "libc++_shared.so")
}

/// Whether a file name is a runtime library build: it starts with `prefix` and ends with
/// `ext`.
pub open spec fn is_build_name(name: Seq<char>, prefix: Seq<char>, ext: Seq<char>) -> bool {
    prefix.is_prefix_of(name) && ext.is_suffix_of(name)
}

/// The names among `names` that are library builds on `os`, in their order.
pub open spec fn build_names(names: Seq<Seq<char>>, os: TargetOs) -> Seq<Seq<char>> {
    names.filter(|n: Seq<char>| is_build_name(n, library_prefix_and_ext_of(os).0, library_prefix_and_ext_of(os).1))
}

/// Texts in ascending order.
pub open spec fn sorted_texts(s: Seq<Seq<char>>) -> bool {
    forall|i: int, j: int| 0 <= i <= j < s.len() ==> lex_le(#[trigger] s[i], #[trigger] s[j])
}

fn ends_with(s: &str, suffix: &str) -> (r: bool)
    ensures
        r == suffix@.is_suffix_of(s@),
{
    let n = s.unicode_len();
    let m = suffix.unicode_len();
    if m > n {
        return false;
    }
    let tail = s.substring_char(n - m, n);
    let r = str_eq(tail, suffix);
    assert(tail@ =~= s@.subrange(n - m, n as int));
    r
}

/// Sorts texts in ascending order (stable insertion).
fn sort_texts(v: Vec<String>) -> (r: Vec<String>)
    ensures
        sorted_texts(views(r@)),
        views(r@).to_multiset() == views(v@).to_multiset(),
{
    let mut out: Vec<String> = Vec::new();
    let mut i: usize = 0;
    assert(views(v@).take(0) =~= Seq::<Seq<char>>::empty());
    assert(views(out@) =~= Seq::<Seq<char>>::empty());
    while i < v.len()
        invariant
            i <= v@.len(),
            sorted_texts(views(out@)),
            views(out@).to_multiset() == views(v@).take(i as int).to_multiset(),
        decreases v@.len() - i,
    {
        let item = &v[i];
        let mut p: usize = 0;
        while p < out.len() && str_le(out[p].as_str(), item.as_str())
            invariant
                p <= out@.len(),
                forall|k: int| 0 <= k < p ==> lex_le(#[trigger] out@[k]@, item@),
            decreases out@.len() - p,
        {
            p = p + 1;
        }
        let ghost before = views(out@);
        proof {
            if p < out@.len() {
                lemma_lex_total(out@[p as int]@, item@);
            }
        }
        out.insert(p, text_of(item.as_str()));
        assert(views(out@) =~= before.insert(p as int, item@));
        proof {
            vstd::seq_lib::to_multiset_insert(before, p as int, item@);
            vstd::seq_lib::to_multiset_insert(views(v@).take(i as int), i as int, item@);
        }
        assert(views(v@).take(i + 1) =~= views(v@).take(i as int).push(item@));
        assert(views(v@).take(i as int).push(item@) =~= views(v@).take(i as int).insert(
            i as int,
            item@,
        ));
        assert forall|a: int, b: int| 0 <= a <= b < views(out@).len() implies lex_le(
            #[trigger] views(out@)[a],
            #[trigger] views(out@)[b],
        ) by {
            let o = views(out@);
            if a < p && b < p {
                assert(o[a] == before[a] && o[b] == before[b]);
            } else if a < p && b == p {
                assert(o[a] == before[a]);
            } else if a < p && b > p {
                assert(o[a] == before[a] && o[b] == before[b - 1]);
                assert(lex_le(before[a], item@));
                if p < before.len() {
                    assert(lex_le(item@, before[p as int]));
                    lemma_lex_transitive(item@, before[p as int], before[b - 1]);
                }
                lemma_lex_transitive(before[a], item@, before[b - 1]);
            } else if a == p && b == p {
                lemma_lex_total(item@, item@);
            } else if a == p && b > p {
                assert(o[b] == before[b - 1]);
                lemma_lex_transitive(item@, before[p as int], before[b - 1]);
            } else {
                assert(o[a] == before[a - 1] && o[b] == before[b - 1]);
            }
        }
        i = i + 1;
    }
    assert(views(v@).take(v@.len() as int) =~= views(v@));
    out
}

/// Where the launcher looks for the runtime library next to itself, in `exe_dir` whose
/// entries are named `names`: the platform's library name first, then every other build
/// of the library (names starting and ending like it), in ascending order.
pub fn local_library_candidates(exe_dir: &str, os: TargetOs, names: &Vec<String>) -> (r: Vec<String>)
    ensures
        exists|s: Seq<Seq<char>>| {
            &&& sorted_texts(s)
            &&& s.to_multiset() == build_names(views(names@), os).to_multiset()
            &&& views(r@) == seq![joined_path(exe_dir@, library_basename_of(os))]
                + s.map_values(|n: Seq<char>| joined_path(exe_dir@, n))
        },
{
    let (prefix, ext) = runtime_library_prefix_and_ext(os);
    let mut picked: Vec<String> = Vec::new();
    let mut i: usize = 0;
    let ghost f = |n: Seq<char>| is_build_name(n, library_prefix_and_ext_of(os).0, library_prefix_and_ext_of(os).1);
    assert(views(names@).take(0).filter(f) =~= Seq::<Seq<char>>::empty());
    while i < names.len()
        invariant
            i <= names@.len(),
            (prefix@, ext@) == library_prefix_and_ext_of(os),
            f == (|n: Seq<char>| is_build_name(n, library_prefix_and_ext_of(os).0, library_prefix_and_ext_of(os).1)),
            views(picked@) == views(names@).take(i as int).filter(f),
        decreases names@.len() - i,
    {
        let name = names[i].as_str();
        assert(views(names@).take(i + 1).drop_last() =~= views(names@).take(i as int));
        assert(views(names@).take(i + 1).last() == name@);
        proof {
            views(names@).take(i as int).lemma_filter_push(name@, f);
        }
        assert(views(names@).take(i as int).push(name@) =~= views(names@).take(i + 1));
        if starts_with(name, prefix) && ends_with(name, ext) {
            picked.push(text_of(name));
            assert(views(picked@) =~= views(names@).take(i as int).filter(f).push(name@));
        }
        i = i + 1;
    }
    assert(views(names@).take(names@.len() as int) =~= views(names@));
    let sorted = sort_texts(picked);
    let mut out: Vec<String> = Vec::new();
    out.push(path_join(exe_dir, runtime_library_basename(os)));
    let mut j: usize = 0;
    let ghost base = joined_path(exe_dir@, library_basename_of(os));
    let ghost g = |n: Seq<char>| joined_path(exe_dir@, n);
    assert(views(out@) =~= seq![base] + views(sorted@).take(0).map_values(g));
    while j < sorted.len()
        invariant
            j <= sorted@.len(),
            g == (|n: Seq<char>| joined_path(exe_dir@, n)),
            views(out@) == seq![base] + views(sorted@).take(j as int).map_values(g),
        decreases sorted@.len() - j,
    {
        let ghost prev = views(out@);
        out.push(path_join(exe_dir, sorted[j].as_str()));
        assert(views(sorted@).take(j + 1).map_values(g) =~= views(sorted@).take(j as int).map_values(
            g,
        ).push(joined_path(exe_dir@, sorted@[j as int]@)));
        assert(views(out@) =~= prev.push(joined_path(exe_dir@, sorted@[j as int]@)));
        assert(views(out@) =~= seq![base] + views(sorted@).take(j + 1).map_values(g));
        j = j + 1;
    }
    assert(views(sorted@).take(sorted@.len() as int) =~= views(sorted@));
    assert(build_names(views(names@), os) == views(names@).filter(f));
    out
}

// ---------------------------------------------------------------------------
// Commands
// ---------------------------------------------------------------------------

/// What the arguments of `nicy` ask for.
#[derive(Debug, Clone, PartialEq, Eq)]
pub enum CliCommand {
    /// Print the usage.
    Help,
    /// Print the launcher's version.
    Version,
    /// Load the runtime and print its versions.
    RuntimeVersion,
    /// Run a script.
    Run(String),
    /// Evaluate a piece of code.
    Eval(String),
    /// Compile a script to bytecode.
    Compile(String),
    /// A command without its argument; the error to report.
    MissingArgument(String),
    /// Not a command: run it as a script if such a file exists.
    ScriptOrUnknown(String),
}

/// The error for `run` without a script.
pub open spec fn missing_run_message() -> Seq<char> {
    "[ERROR] Missing script file. Example: nicy run script.luau"@
}

/// The error for `eval` without code.
pub open spec fn missing_eval_message() -> Seq<char> {
    "[ERROR] Missing code to evaluate. Example: nicy eval \"print('hello')\""@
}

/// The error for `compile` without a script.
pub open spec fn missing_compile_message() -> Seq<char> {
    "[ERROR] Missing script file to compile. Example: nicy compile script.luau"@
}

/// Whether `c` is the command that arguments `args` (the program name first) ask for.
pub open spec fn is_command_of(args: Seq<Seq<char>>, c: CliCommand) -> bool {
    if args.len() < 2 {
        c == CliCommand::Help
    } else {
        let cmd = args[1];
        let has_arg = args.len() >= 3;
        if cmd == "help"@ || cmd == "--help"@ || cmd == "-h"@ {
            c == CliCommand::Help
        } else if cmd == "version"@ || cmd == "--version"@ || cmd == "-v"@ {
            c == CliCommand::Version
        } else if cmd == "runtime-version"@ || cmd == "--runtime-version"@ || cmd == "-rv"@ {
            c == CliCommand::RuntimeVersion
        } else if cmd == "run"@ {
            if has_arg {
                c matches CliCommand::Run(p) && p@ == args[2]
            } else {
                c matches CliCommand::MissingArgument(m) && m@ == missing_run_message()
            }
        } else if cmd == "eval"@ {
            if has_arg {
                c matches CliCommand::Eval(p) && p@ == args[2]
            } else {
                c matches CliCommand::MissingArgument(m) && m@ == missing_eval_message()
            }
        } else if cmd == "compile"@ {
            if has_arg {
                c matches CliCommand::Compile(p) && p@ == args[2]
            } else {
                c matches CliCommand::MissingArgument(m) && m@ == missing_compile_message()
            }
        } else {
            c matches CliCommand::ScriptOrUnknown(p) && p@ == cmd
        }
    }
}

/// Reads the command line of `nicy`: `help`, `version`, `runtime-version` (each with its
/// `--long` and short forms), `run <script>`, `eval <code>`, `compile <script>`; without a
/// command, the usage; anything else is taken for a script path.
pub fn parse_command(args: &Vec<String>) -> (r: CliCommand)
    ensures
        is_command_of(views(args@), r),
{
    proof {
        reveal_strlit("help");
        reveal_strlit("--help");
        reveal_strlit("-h");
        reveal_strlit("version");
        reveal_strlit("--version");
        reveal_strlit("-v");
        reveal_strlit("runtime-version");
        reveal_strlit("--runtime-version");
        reveal_strlit("-rv");
        reveal_strlit("run");
        reveal_strlit("eval");
        reveal_strlit("compile");
    }
    if args.len() < 2 {
        return CliCommand::Help;
    }
    let cmd = args[1].as_str();
    assert(cmd@ == views(args@)[1]);
    let has_arg = args.len() >= 3;
    if str_eq(cmd, "help") || str_eq(cmd, "--help") || str_eq(cmd, "-h") {
        CliCommand::Help
    } else if str_eq(cmd, "version") || str_eq(cmd, "--version") || str_eq(cmd, "-v") {
        CliCommand::Version
    } else if str_eq(cmd, "runtime-version") || str_eq(cmd, "--runtime-version") || str_eq(cmd, "-rv") {
        CliCommand::RuntimeVersion
    } else if str_eq(cmd, "run") {
        if has_arg {
            assert(args@[2]@ == views(args@)[2]);
            CliCommand::Run(text_of(args[2].as_str()))
        } else {
            CliCommand::MissingArgument(text_of("[ERROR] Missing script file. Example: nicy run script.luau"))
        }
    } else if str_eq(cmd, "eval") {
        if has_arg {
            assert(args@[2]@ == views(args@)[2]);
            CliCommand::Eval(text_of(args[2].as_str()))
        } else {
            CliCommand::MissingArgument(
                text_of("[ERROR] Missing code to evaluate. Example: nicy eval \"print('hello')\""),
            )
        }
    } else if str_eq(cmd, "compile") {
        if has_arg {
            assert(args@[2]@ == views(args@)[2]);
            CliCommand::Compile(text_of(args[2].as_str()))
        } else {
            CliCommand::MissingArgument(
                text_of("[ERROR] Missing script file to compile. Example: nicy compile script.luau"),
            )
        }
    } else {
        CliCommand::ScriptOrUnknown(text_of(cmd))
    }
}

// ---------------------------------------------------------------------------
// Messages
// ---------------------------------------------------------------------------

/// The usage text, one line per entry, each ending with a line break.
pub open spec fn help_text_of() -> Seq<char> {
    "nicy - The Ultimate Luau Runtime\n"@ + "Usage:\n"@ + "  nicy run <script.luau>\n"@
        + "  nicy eval <\"code\">\n"@ + "  nicy compile <script.luau>\n"@ + "  nicy help\n"@
        + "  nicy version\n"@ + "  nicy runtime-version\n"@
}

/// The usage text printed by `nicy help`.
pub fn help_text() -> (r: String)
    ensures
        r@ == help_text_of(),
{
    let mut r = text_of("nicy - The Ultimate Luau Runtime\n");
    push_str(&mut r, "Usage:\n");
    push_str(&mut r, "  nicy run <script.luau>\n");
    push_str(&mut r, "  nicy eval <\"code\">\n");
    push_str(&mut r, "  nicy compile <script.luau>\n");
    push_str(&mut r, "  nicy help\n");
    push_str(&mut r, "  nicy version\n");
    push_str(&mut r, "  nicy runtime-version\n");
    r
}

/// The error for an argument that is neither a command nor an existing file.
pub fn unknown_command_message(command: &str) -> (r: String)
    ensures
        r@ == "[ERROR] Unknown command or file not found: '"@ + command@ + "'"@,
{
    let mut r = text_of("[ERROR] Unknown command or file not found: '");
    push_str(&mut r, command);
    push_str(&mut r, "'");
    r
}

/// The error for a script that does not exist.
pub fn missing_file_message(path: &str) -> (r: String)
    ensures
        r@ == "[ERROR] File '"@ + path@ + "' does not exist."@,
{
    let mut r = text_of("[ERROR] File '");
    push_str(&mut r, path);
    push_str(&mut r, "' does not exist.");
    r
}

/// Whether a text holds a NUL character, which a C string cannot.
pub fn has_nul(s: &str) -> (r: bool)
    ensures
        r == s@.contains('\0'),
{
    let n = s.unicode_len();
    let mut i: usize = 0;
    while i < n
        invariant
            n == s@.len(),
            i <= n,
            forall|k: int| 0 <= k < i ==> s@[k] != '\0',
        decreases n - i,
    {
        if s.get_char(i) == '\0' {
            assert(s@[i as int] == '\0');
            return true;
        }
        i = i + 1;
    }
    false
}

/// What is handed to the runtime as a C string: the script path, or the code to evaluate.
#[derive(Debug, Clone, Copy, PartialEq, Eq, Structural)]
pub enum CArgument {
    ScriptPath,
    EvalCode,
}

/// The error for an argument that holds a NUL character.
pub open spec fn nul_argument_message(what: CArgument) -> Seq<char> {
    match what {
        CArgument::ScriptPath => "[ERROR] Invalid script path: contains NUL byte"@,
        CArgument::EvalCode => "[ERROR] Invalid eval code: contains NUL byte"@,
    }
}

/// Checks that an argument can be handed to the runtime as a C string.
pub fn check_c_argument(s: &str, what: CArgument) -> (r: Result<(), String>)
    ensures
        !s@.contains('\0') <==> r is Ok,
        r matches Err(m) ==> m@ == nul_argument_message(what),
{
    if has_nul(s) {
        match what {
            CArgument::ScriptPath => Err(text_of("[ERROR] Invalid script path: contains NUL byte")),
            CArgument::EvalCode => Err(text_of("[ERROR] Invalid eval code: contains NUL byte")),
        }
    } else {
        Ok(())
    }
}

/// The error for a symbol missing from the runtime library.
pub fn symbol_error_message(name: &str, detail: &str) -> (r: String)
    ensures
        r@ == "failed to load symbol '"@ + name@ + "': "@ + detail@,
{
    let mut r = text_of("failed to load symbol '");
    push_str(&mut r, name);
    push_str(&mut r, "': ");
    push_str(&mut r, detail);
    r
}

/// The record of the last attempt at loading the runtime library by its bare name.
pub fn path_attempt_message(base: &str, detail: &str) -> (r: String)
    ensures
        r@ == "PATH "@ + base@ + ": "@ + detail@,
{
    let mut r = text_of("PATH ");
    push_str(&mut r, base);
    push_str(&mut r, ": ");
    push_str(&mut r, detail);
    r
}

/// The report printed when the runtime library cannot be loaded.
pub fn library_load_failure_message(base: &str, details: &str) -> (r: String)
    ensures
        r@ == "[FATAL] Failed to load runtime library '"@ + base@ + "'.\n[FATAL] Attempt details:\n"@
            + details@,
{
    let mut r = text_of("[FATAL] Failed to load runtime library '");
    push_str(&mut r, base);
    push_str(&mut r, "'.\n[FATAL] Attempt details:\n");
    push_str(&mut r, details);
    r
}

} // verus!
