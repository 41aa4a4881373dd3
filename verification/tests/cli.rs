use nicy_runtime::cli::{
    android_libcxx_candidates, android_runtime_candidates, check_c_argument, has_nul, help_text,
    library_load_failure_message, local_library_candidates, missing_file_message, parse_command,
    path_attempt_message, runtime_library_basename, runtime_library_prefix_and_ext, symbol_error_message,
    termux_prefix, unknown_command_message, CArgument, CliCommand, TargetOs,
};

fn args(list: &[&str]) -> Vec<String> {
    list.iter().map(|s| s.to_string()).collect()
}

#[test]
fn library_names() {
    assert_eq!(runtime_library_basename(TargetOs::Windows), "nicyruntime.dll");
    assert_eq!(runtime_library_basename(TargetOs::MacOs), "libnicyruntime.dylib");
    assert_eq!(runtime_library_basename(TargetOs::OtherUnix), "libnicyruntime.so");
    assert_eq!(runtime_library_basename(TargetOs::Android), "libnicyruntime.so");
    assert_eq!(runtime_library_prefix_and_ext(TargetOs::Windows), ("nicyruntime", ".dll"));
    assert_eq!(runtime_library_prefix_and_ext(TargetOs::MacOs), ("libnicyruntime", ".dylib"));
    assert_eq!(runtime_library_prefix_and_ext(TargetOs::OtherUnix), ("libnicyruntime", ".so"));
}

#[test]
fn android_places() {
    assert_eq!(termux_prefix(None), "/data/data/com.termux/files/usr");
    assert_eq!(termux_prefix(Some("/opt/t".to_string())), "/opt/t");
    assert_eq!(
        android_runtime_candidates("/opt/t", "libnicyruntime.so"),
        vec![
            "/opt/t/lib/libnicyruntime.so".to_string(),
            "/opt/t/bin/libnicyruntime.so".to_string(),
            "/data/data/com.termux/files/usr/lib/libnicyruntime.so".to_string(),
            "/data/data/com.termux/files/usr/bin/libnicyruntime.so".to_string(),
        ]
    );
    assert_eq!(android_libcxx_candidates("/opt/t")[0], "/opt/t/lib/libc++_shared.so");
}

#[test]
fn local_candidates_are_sorted_builds() {
    let names = args(&[
        "nicy",
        "libnicyruntime-b.so",
        "libnicyruntime.so",
        "libnicyruntime-a.so",
        "libnicyruntime.so.bak",
        "other.so",
    ]);
    assert_eq!(
        local_library_candidates("/bin", TargetOs::OtherUnix, &names),
        vec![
            "/bin/libnicyruntime.so".to_string(),
            "/bin/libnicyruntime-a.so".to_string(),
            "/bin/libnicyruntime-b.so".to_string(),
            "/bin/libnicyruntime.so".to_string(),
        ]
    );
    assert_eq!(
        local_library_candidates("/bin", TargetOs::Windows, &args(&["x.dll"])),
        vec!["/bin/nicyruntime.dll".to_string()]
    );
}

#[test]
fn commands() {
    assert_eq!(parse_command(&args(&["nicy"])), CliCommand::Help);
    for h in ["help", "--help", "-h"] {
        assert_eq!(parse_command(&args(&["nicy", h])), CliCommand::Help);
    }
    for v in ["version", "--version", "-v"] {
        assert_eq!(parse_command(&args(&["nicy", v])), CliCommand::Version);
    }
    for v in ["runtime-version", "--runtime-version", "-rv"] {
        assert_eq!(parse_command(&args(&["nicy", v])), CliCommand::RuntimeVersion);
    }
    assert_eq!(parse_command(&args(&["nicy", "run", "a.luau"])), CliCommand::Run("a.luau".to_string()));
    assert_eq!(parse_command(&args(&["nicy", "eval", "print(1)"])), CliCommand::Eval("print(1)".to_string()));
    assert_eq!(parse_command(&args(&["nicy", "compile", "a.luau"])), CliCommand::Compile("a.luau".to_string()));
    assert_eq!(
        parse_command(&args(&["nicy", "run"])),
        CliCommand::MissingArgument("[ERROR] Missing script file. Example: nicy run script.luau".to_string())
    );
    assert_eq!(
        parse_command(&args(&["nicy", "eval"])),
        CliCommand::MissingArgument("[ERROR] Missing code to evaluate. Example: nicy eval \"print('hello')\"".to_string())
    );
    assert_eq!(
        parse_command(&args(&["nicy", "compile"])),
        CliCommand::MissingArgument("[ERROR] Missing script file to compile. Example: nicy compile script.luau".to_string())
    );
    assert_eq!(parse_command(&args(&["nicy", "script.luau"])), CliCommand::ScriptOrUnknown("script.luau".to_string()));
}

#[test]
fn messages() {
    assert!(help_text().starts_with("nicy - The Ultimate Luau Runtime\nUsage:\n"));
    assert!(help_text().ends_with("  nicy runtime-version\n"));
    assert_eq!(help_text().lines().count(), 8);
    assert_eq!(unknown_command_message("x"), "[ERROR] Unknown command or file not found: 'x'");
    assert_eq!(missing_file_message("a.luau"), "[ERROR] File 'a.luau' does not exist.");
    assert_eq!(symbol_error_message("nicy_start", "gone"), "failed to load symbol 'nicy_start': gone");
    assert_eq!(path_attempt_message("libnicyruntime.so", "nope"), "PATH libnicyruntime.so: nope");
    assert_eq!(
        library_load_failure_message("libnicyruntime.so", "PATH x: y"),
        "[FATAL] Failed to load runtime library 'libnicyruntime.so'.\n[FATAL] Attempt details:\nPATH x: y"
    );
    assert!(has_nul("a\0b"));
    assert!(!has_nul("ab"));
    assert_eq!(check_c_argument("a.luau", CArgument::ScriptPath), Ok(()));
    assert_eq!(
        check_c_argument("a\0", CArgument::ScriptPath).unwrap_err(),
        "[ERROR] Invalid script path: contains NUL byte"
    );
    assert_eq!(
        check_c_argument("x\0", CArgument::EvalCode).unwrap_err(),
        "[ERROR] Invalid eval code: contains NUL byte"
    );
}
