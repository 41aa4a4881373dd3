use nicy_runtime::error::error_codes::{code_to_name, is_nicy_code};
use nicy_runtime::error::format::{Colors, ErrorFormatter, OutputStyle};
use nicy_runtime::error::report::PcallRegistry;
use nicy_runtime::error::{clean_path, clean_path_in_string, ErrorLevel};
use nicy_runtime::{ErrorReporter, NicyError, RequireChain};

fn plain() -> OutputStyle {
    OutputStyle { verbose: false, colors: Colors { enabled: false } }
}

fn verbose_plain() -> OutputStyle {
    OutputStyle { verbose: true, colors: Colors { enabled: false } }
}

#[test]
fn code_names() {
    assert_eq!(code_to_name(0), "LUA_OK");
    assert_eq!(code_to_name(2), "LUA_ERRRUN");
    assert_eq!(code_to_name(103), "NICY_ERR_CYCLIC_REQUIRE");
    assert_eq!(code_to_name(107), "NICY_ERR_PERMISSION_DENIED");
    assert_eq!(code_to_name(42), "UNKNOWN_ERROR_CODE");
    assert!(is_nicy_code(100));
    assert!(!is_nicy_code(6));
}

#[test]
fn level_labels() {
    assert_eq!(ErrorLevel::Error.label(), "error");
    assert_eq!(ErrorLevel::Warning.label(), "warning");
    assert_eq!(ErrorLevel::Info.label(), "info");
}

#[test]
fn clean_paths() {
    assert_eq!(clean_path(r"\\?\C:\x\y.luau"), r"C:\x\y.luau");
    assert_eq!(clean_path("/a/b"), "/a/b");
    assert_eq!(clean_path_in_string(r"at \\?\C:\a and \\?\D:\b"), r"at C:\a and D:\b");
}

#[test]
fn require_chain_push_pop_and_format() {
    let mut chain = RequireChain::new();
    assert!(chain.is_empty());
    chain.push("main.luau".to_string(), Some(3), "./a".to_string(), vec!["/p/a.luau".to_string()]);
    chain.push("a.luau".to_string(), None, "./b".to_string(), vec![]);
    assert_eq!(chain.len(), 2);
    assert_eq!(
        chain.format_chain(),
        "    at require('./b'), a.luau\n    at require('./a'), main.luau:3\n    SearchedPaths         :\n        /p/a.luau\n"
    );
    chain.pop();
    assert_eq!(chain.len(), 1);
    assert_eq!(chain.last_frame().unwrap().spec, "./a");
    chain.pop();
    chain.pop();
    assert!(chain.is_empty());
}

#[test]
fn titles_codes_and_display() {
    let e = NicyError::load_error("x.luau".to_string(), "bad".to_string());
    assert_eq!(e.title(), "LoadError");
    assert_eq!(e.code(), 3);
    assert_eq!(e.to_display_string(), "Failed to load 'x.luau': bad");
    let e = NicyError::require_error("./m".to_string(), "nope".to_string(), RequireChain::new());
    assert_eq!(e.title(), "RequireError");
    assert_eq!(e.code(), 100);
    assert_eq!(e.to_display_string(), "Could not resolve module './m': nope");
    let e = NicyError::runtime_error("boom".to_string());
    assert_eq!(e.code(), 2);
    assert_eq!(e.to_display_string(), "boom");
    let e = NicyError::task_error("resume", "oops".to_string());
    assert_eq!(e.code(), 104);
    assert_eq!(e.to_display_string(), "task.resume error: oops");
    let e = NicyError::panic_error("loadlib", "crash".to_string());
    assert_eq!(e.code(), 105);
    assert_eq!(e.to_display_string(), "Panic in loadlib: crash");
    let e = NicyError::file_error("f.txt".to_string(), "read", "denied".to_string());
    assert_eq!(e.title(), "FileError");
    assert_eq!(e.code(), 6);
    assert_eq!(e.to_display_string(), "Failed to read 'f.txt': denied");
    assert_eq!(e.level(), ErrorLevel::Error);
}

#[test]
fn display_of_runtime_error_with_location() {
    let e = NicyError::RuntimeError {
        message: "boom".to_string(),
        stack_trace: None,
        file: Some("main.luau".to_string()),
        line: Some(7),
    };
    assert_eq!(e.to_display_string(), "main.luau:7: boom");
    let e = NicyError::LoadError {
        path: "m.luau".to_string(),
        line: Some(2),
        column: Some(5),
        message: "x".to_string(),
    };
    assert_eq!(e.to_display_string(), "Failed to load 'm.luau:2:5': x");
}

#[test]
fn concise_formats() {
    let e = NicyError::RuntimeError {
        message: "boom".to_string(),
        stack_trace: None,
        file: Some("main.luau".to_string()),
        line: Some(3),
    };
    assert_eq!(ErrorFormatter::format_error(&e, plain()), "runtime error: main.luau:3\n  boom\n");
    let e = NicyError::file_error("f.luau".to_string(), "open", "gone".to_string());
    assert_eq!(ErrorFormatter::format_error(&e, plain()), "file error: open 'f.luau'\n  gone\n");
    let e = NicyError::panic_error("ctx", "p".to_string());
    assert_eq!(ErrorFormatter::format_error(&e, plain()), "panic in ctx\n  p\n");
    let e = NicyError::task_error("resume", "bad".to_string());
    assert_eq!(ErrorFormatter::format_error(&e, plain()), "task.resume error:\n  bad\n");
    let mut chain = RequireChain::new();
    chain.push("main.luau".to_string(), Some(4), "./m".to_string(), vec![]);
    let e = NicyError::require_error("./m".to_string(), "not found".to_string(), chain);
    assert_eq!(
        ErrorFormatter::format_error(&e, plain()),
        "require error: ./m\n  not found\n  at main.luau:4\n"
    );
}

#[test]
fn concise_colored_runtime_error() {
    let e = NicyError::runtime_error("boom".to_string());
    let style = OutputStyle { verbose: false, colors: Colors { enabled: true } };
    assert_eq!(
        ErrorFormatter::format_error(&e, style),
        "\x1b[31mruntime error:\x1b[0m\n  \x1b[2mboom\x1b[0m\n"
    );
}

#[test]
fn warnings_and_infos() {
    assert_eq!(ErrorFormatter::format_warning("careful", plain()), "warning: careful\n");
    assert_eq!(ErrorFormatter::format_info("hello", plain()), "info: hello\n");
    assert_eq!(
        ErrorFormatter::format_warning("hi", verbose_plain()),
        "warn: hi\n\nException             :\n    ErrorRecord          :\n        Exception             :\n            Message : hi\n            Code    : 0 (LUA_OK)\n        CategoryInfo          : Warning\n        FullyQualifiedErrorId : RuntimeWarning\n    Message              : hi\n    Source               : nicyruntime.warn\n    Code                 : 0 (LUA_OK)\nInvocationInfo        :\n    CommandOrigin    : Internal\n"
    );
}

#[test]
fn verbose_differs_from_concise() {
    let e = NicyError::runtime_error("boom".to_string());
    let v = ErrorFormatter::format_error(&e, verbose_plain());
    assert!(v.contains("boom"));
    assert!(v.contains("LUA_ERRRUN"));
    assert_ne!(v, ErrorFormatter::format_error(&e, plain()));
}

#[test]
fn pcall_tracking() {
    let mut reg = PcallRegistry::new();
    let e = NicyError::runtime_error("x".to_string());
    assert!(!ErrorReporter::is_inside_pcall(&reg, Some(7)));
    ErrorReporter::enter_pcall(&mut reg, 7);
    assert!(ErrorReporter::is_inside_pcall(&reg, Some(7)));
    assert!(!ErrorReporter::is_inside_pcall(&reg, Some(8)));
    assert!(ErrorReporter::report_with_state(&reg, Some(7), &e, plain()).is_none());
    assert_eq!(
        ErrorReporter::report_with_state(&reg, Some(8), &e, plain()).unwrap(),
        "runtime error:\n  x\n"
    );
    ErrorReporter::exit_pcall(&mut reg, 7);
    assert!(!ErrorReporter::is_inside_pcall(&reg, Some(7)));
    assert!(ErrorReporter::report(&reg, &e, plain()).is_some());
    reg.set_fallback(true);
    assert!(ErrorReporter::report(&reg, &e, plain()).is_none());
}

#[test]
fn nested_pcalls_stay_quiet_until_the_outermost_ends() {
    let mut reg = PcallRegistry::new();
    let e = NicyError::runtime_error("x".to_string());
    ErrorReporter::enter_pcall(&mut reg, 7);
    ErrorReporter::enter_pcall(&mut reg, 7);
    ErrorReporter::exit_pcall(&mut reg, 7);
    assert!(ErrorReporter::is_inside_pcall(&reg, Some(7)));
    assert!(ErrorReporter::report_with_state(&reg, Some(7), &e, plain()).is_none());
    ErrorReporter::exit_pcall(&mut reg, 7);
    assert!(!ErrorReporter::is_inside_pcall(&reg, Some(7)));
    ErrorReporter::exit_pcall(&mut reg, 7);
    assert!(!ErrorReporter::is_inside_pcall(&reg, Some(7)));
}

#[test]
fn extract_locations() {
    let (f, l) = ErrorReporter::extract_location("main.luau:42: boom");
    assert_eq!(f.unwrap(), "main.luau");
    assert_eq!(l, Some(42));
    assert_eq!(ErrorReporter::extract_location("no colon here"), (None, None));
    assert_eq!(ErrorReporter::extract_location("file:abc"), (None, None));
    assert_eq!(ErrorReporter::extract_location("file:12"), (None, None));
    assert_eq!(ErrorReporter::extract_location("file:99999999999: x"), (None, None));
}

#[test]
fn lua_error_records() {
    match ErrorReporter::lua_error_record(Some(r"\\?\C:\m.luau:5: bad")) {
        NicyError::RuntimeError { message, file, line, stack_trace } => {
            assert_eq!(message, r"C:\m.luau:5: bad");
            assert!(file.is_none());
            assert_eq!(line, None);
            assert!(stack_trace.is_none());
        }
        _ => panic!("not a runtime error"),
    }
    match ErrorReporter::lua_error_record(Some("m.luau:5: bad")) {
        NicyError::RuntimeError { message, file, line, .. } => {
            assert_eq!(message, "m.luau:5: bad");
            assert_eq!(file.unwrap(), "m.luau");
            assert_eq!(line, Some(5));
        }
        _ => panic!("not a runtime error"),
    }
    match ErrorReporter::lua_error_record(None) {
        NicyError::RuntimeError { message, file, line, .. } => {
            assert_eq!(message, "unknown error");
            assert!(file.is_none());
            assert!(line.is_none());
        }
        _ => panic!("not a runtime error"),
    }
}

#[test]
fn output_style_from_environment_values() {
    let s = OutputStyle::from_settings(None, None);
    assert!(!s.verbose);
    assert!(s.colors.enabled);
    let s = OutputStyle::from_settings(Some("1"), Some("yes"));
    assert!(s.verbose);
    assert!(!s.colors.enabled);
    let s = OutputStyle::from_settings(Some("true"), Some("true"));
    assert!(s.verbose);
    assert!(!s.colors.enabled);
    let s = OutputStyle::from_settings(Some("0"), Some("no"));
    assert!(!s.verbose);
    assert!(s.colors.enabled);
}

#[test]
fn verbose_runtime_error_record() {
    let e = NicyError::RuntimeError {
        message: "boom".to_string(),
        stack_trace: Some("  at a\n  at b".to_string()),
        file: Some("main.luau".to_string()),
        line: Some(3),
    };
    let expected = [
        "runtime: main.luau:3: boom\n",
        "\n",
        "Exception             :\n",
        "    ErrorRecord          :\n",
        "        Exception             :\n",
        "            Message : boom\n",
        "            Code    : 2 (LUA_ERRRUN)\n",
        "        TargetObject          : main.luau\n",
        "        CategoryInfo          : RuntimeError\n",
        "        FullyQualifiedErrorId : LuaRuntimeError\n",
        "    Message              : boom\n",
        "    Source               : nicyruntime.runtime\n",
        "    Code                 : 2 (LUA_ERRRUN)\n",
        "InvocationInfo        :\n",
        "    ScriptFile       : main.luau\n",
        "    ScriptLineNumber : 3\n",
        "    CommandOrigin    : Internal\n",
        "ScriptStackTrace      :\n",
        "    at a\n",
        "    at b\n",
        "    at <main>, main.luau:3\n",
    ]
    .concat();
    assert_eq!(ErrorFormatter::format_error(&e, verbose_plain()), expected);
}

#[test]
fn verbose_require_error_record() {
    let mut chain = RequireChain::new();
    chain.push("main.luau".to_string(), Some(4), "./m".to_string(), vec!["/p/m.luau".to_string()]);
    let e = NicyError::require_error("./m".to_string(), "nope".to_string(), chain);
    let expected = [
        "require: Could not resolve module './m'\n",
        "\n",
        "Exception             :\n",
        "    ErrorRecord          :\n",
        "        Exception             :\n",
        "            Message : nope\n",
        "            Code    : 100 (NICY_ERR_MODULE_NOT_FOUND)\n",
        "        TargetObject          : ./m\n",
        "        CategoryInfo          : ModuleNotFound\n",
        "        FullyQualifiedErrorId : RequireFailed,./m\n",
        "    RequireChain           :\n",
        "            at require('./m'), main.luau:4\n",
        "            SearchedPaths         :\n",
        "                /p/m.luau\n",
        "    Message              : nope\n",
        "    Source               : nicyruntime.require\n",
        "    Code                 : 100 (NICY_ERR_MODULE_NOT_FOUND)\n",
        "InvocationInfo        :\n",
        "    ScriptFile       : main.luau\n",
        "    ScriptLineNumber : 4\n",
        "    Line             : local mod = require(\"./m\")\n",
        "    PositionMessage  : At main.luau:4\n",
        "    CommandOrigin    : Internal\n",
        "ScriptStackTrace      :\n",
        "    at require('./m'), main.luau:4\n",
        "    at <ScriptBlock>, <entry>\n",
    ]
    .concat();
    assert_eq!(ErrorFormatter::format_error(&e, verbose_plain()), expected);
}
