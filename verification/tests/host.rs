use nicy_runtime::host::{
    check_init_result, entry_kind, is_bytecode_file, gc_reply_count, gc_request, loadlib_reply, parse_gc_option,
    without_nul, EntryKind, GcOption, GcReply, GcRequest, Guard, LoadedLibraries, LoadlibFailure,
};
use nicy_runtime::NicyError;
use nicy_runtime::directives::parse_compiler_directives;
use nicy_runtime::host::{
    bytecode_output_path, compile_settings, entry_dir_label, luau_version_text, tmp_file_name,
    CompileSettings,
};

#[test]
fn entry_kinds() {
    assert_eq!(entry_kind("/p/main.luau").unwrap(), EntryKind::Source);
    assert_eq!(entry_kind("/p/main.lua").unwrap(), EntryKind::Source);
    assert_eq!(entry_kind("/p/main.luauc").unwrap(), EntryKind::Bytecode);
    match entry_kind("/p/main.txt") {
        Err(NicyError::FileError { path, operation, message }) => {
            assert_eq!(path, "/p/main.txt");
            assert_eq!(operation, "open");
            assert_eq!(message, "unsupported file extension '.txt', expected '.luau', '.lua', or '.luauc'");
        }
        _ => panic!("expected a file error"),
    }
    match entry_kind("/p/script") {
        Err(NicyError::FileError { message, .. }) => {
            assert_eq!(message, "unsupported file extension '.', expected '.luau', '.lua', or '.luauc'");
        }
        _ => panic!("expected a file error"),
    }
}

#[test]
fn bytecode_files() {
    assert!(is_bytecode_file("/p/m.luauc"));
    assert!(!is_bytecode_file("/p/m.luau"));
    assert!(!is_bytecode_file("/p/m"));
}

#[test]
fn nul_replacement() {
    assert_eq!(without_nul("a\0b\0"), "a?b?");
    assert_eq!(without_nul("plain"), "plain");
}

#[test]
fn gc_options() {
    assert_eq!(parse_gc_option("count").unwrap(), GcOption::Count);
    assert_eq!(parse_gc_option("collect").unwrap(), GcOption::Collect);
    assert_eq!(parse_gc_option("isrunning").unwrap(), GcOption::IsRunning);
    assert_eq!(parse_gc_option("stop").unwrap(), GcOption::Stop);
    assert_eq!(parse_gc_option("restart").unwrap(), GcOption::Restart);
    assert_eq!(parse_gc_option("step").unwrap(), GcOption::Step);
    assert_eq!(parse_gc_option("incremental").unwrap_err(), "invalid option 'incremental'");
    assert_eq!(gc_request(GcOption::Count, None), GcRequest { what: 3, data: 0, reply: GcReply::Number });
    assert_eq!(gc_request(GcOption::Collect, None), GcRequest { what: 2, data: 0, reply: GcReply::Nothing });
    assert_eq!(gc_request(GcOption::IsRunning, None), GcRequest { what: 5, data: 0, reply: GcReply::Flag });
    assert_eq!(gc_request(GcOption::Stop, None), GcRequest { what: 0, data: 0, reply: GcReply::Nothing });
    assert_eq!(gc_request(GcOption::Restart, None), GcRequest { what: 1, data: 0, reply: GcReply::Nothing });
    assert_eq!(gc_request(GcOption::Step, None), GcRequest { what: 6, data: 100, reply: GcReply::Flag });
    assert_eq!(gc_request(GcOption::Step, Some(7)), GcRequest { what: 6, data: 7, reply: GcReply::Flag });
    assert_eq!(gc_reply_count(GcReply::Nothing), 0);
    assert_eq!(gc_reply_count(GcReply::Flag), 1);
}

#[test]
fn loadlib_failures() {
    assert_eq!(LoadlibFailure::InvalidPath.message(), "invalid path");
    assert_eq!(LoadlibFailure::InvalidEncoding.message(), "invalid path encoding");
    assert_eq!(LoadlibFailure::Unresolved("path does not exist: /x".to_string()).message(), "path does not exist: /x");
    assert_eq!(LoadlibFailure::NotFound("/x.so".to_string()).message(), "file not found: '/x.so'");
    assert_eq!(
        LoadlibFailure::LoadFailed { path: "/x.so".to_string(), detail: "bad ELF".to_string() }.message(),
        "failed to load library '/x.so': bad ELF"
    );
    assert_eq!(
        LoadlibFailure::Crashed { path: "/x.so".to_string(), windows: false }.message(),
        "failed to load library '/x.so': native library crashed during load"
    );
    assert_eq!(
        LoadlibFailure::Crashed { path: "x.dll".to_string(), windows: true }.message(),
        "failed to load library 'x.dll': native DLL crashed during load (possible missing dependency or SEH exception)"
    );
    assert_eq!(
        LoadlibFailure::Crashed { path: "/x.so".to_string(), windows: false }.crash_report().unwrap(),
        "failed to load library '/x.so': native library crashed during load"
    );
    assert_eq!(
        LoadlibFailure::InitPanicked { payload: "boom".to_string(), windows: true }.crash_report().unwrap(),
        "boom - native DLL crashed (possible SEH exception)"
    );
    assert_eq!(LoadlibFailure::BadReturnCount.crash_report(), None);
    assert_eq!(
        LoadlibFailure::MissingInit("undefined symbol".to_string()).message(),
        "missing extension init symbol (nicydynamic_init): undefined symbol"
    );
    assert_eq!(
        LoadlibFailure::InitPanicked { payload: "boom".to_string(), windows: false }.message(),
        "extension panic during init: boom - native DLL crashed"
    );
    assert_eq!(LoadlibFailure::BadReturnCount.message(), "invalid extension return count (expected 1)");
    assert_eq!(LoadlibFailure::Panicked("p".to_string()).message(), "runtime panic in runtime.loadlib: p");
    assert_eq!(check_init_result(1), Ok(()));
    assert_eq!(check_init_result(0), Err(LoadlibFailure::BadReturnCount));
    assert_eq!(check_init_result(2), Err(LoadlibFailure::BadReturnCount));
    let (msg, warning) = loadlib_reply(&LoadlibFailure::NotFound("/a\0b".to_string()));
    assert_eq!(msg, "file not found: '/a?b'");
    assert_eq!(warning, "runtime.loadlib failed: file not found: '/a?b'");
}

#[test]
fn loaded_libraries_start_empty() {
    let mut libs = LoadedLibraries::new();
    assert_eq!(libs.len(), 0);
    libs.shutdown_loaded_libs();
    assert_eq!(libs.len(), 0);
}

#[test]
fn hires_timer_setting() {
    assert!(!Guard::maybe_enable(None).enabled());
    assert!(!Guard::maybe_enable(Some("0")).enabled());
    assert!(Guard::maybe_enable(Some("1")).enabled());
    assert!(Guard::maybe_enable(Some("")).enabled());
}

#[test]
fn runtime_table_and_compilation() {
    assert_eq!(entry_dir_label("/p/src/main.luau"), "/p/src");
    assert_eq!(entry_dir_label("/"), ".");
    assert_eq!(bytecode_output_path("/p/main.luau"), "/p/main.luauc");
    assert_eq!(bytecode_output_path("/p/main"), "/p/main.luauc");
    let (d, _) = parse_compiler_directives("--!optimize 2\n--!coverage\n--!typeinfo 1\nx()");
    assert_eq!(
        compile_settings(&d),
        CompileSettings { optimization_level: 2, debug_level: 1, type_info_level: 1, coverage_level: 1 }
    );
    let (d, _) = parse_compiler_directives("x()");
    assert_eq!(
        compile_settings(&d),
        CompileSettings { optimization_level: 1, debug_level: 1, type_info_level: 0, coverage_level: 0 }
    );
    assert_eq!(tmp_file_name(42, 123456789012345678901234567890u128, 7), "nicy_tmp_42_123456789012345678901234567890_7.tmp");
    assert_eq!(luau_version_text(Some("Luau 0.663")), "Luau 0.663");
    assert_eq!(luau_version_text(None), "unknown luau");
}
