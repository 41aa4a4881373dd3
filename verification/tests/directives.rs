use nicy_runtime::directives::{parse_compiler_directives, strip_native_directive, CompilerDirectives};

fn defaults() -> CompilerDirectives {
    CompilerDirectives { native: false, optimization_level: 1, coverage: false, profile: false, type_info_level: 0 }
}

#[test]
fn strip_native_first_line() {
    assert_eq!(strip_native_directive("--!native\nprint(1)\nprint(2)"), (true, "print(1)\nprint(2)".to_string()));
    assert_eq!(strip_native_directive("  --!native  \r\nx()"), (true, "x()".to_string()));
    assert_eq!(strip_native_directive("print(1)\n--!native"), (false, "print(1)\n--!native".to_string()));
    assert_eq!(strip_native_directive(""), (false, String::new()));
    assert_eq!(strip_native_directive("--!native"), (true, String::new()));
}

#[test]
fn no_directives() {
    let (d, code) = parse_compiler_directives("local x = 1\nprint(x)");
    assert_eq!(d, defaults());
    assert_eq!(code, "local x = 1\nprint(x)");
}

#[test]
fn all_directives() {
    let src = "--!native\n--!optimize 2\n--!coverage\n--!profile\n--!typeinfo 1\n--!strict\nlocal a = 1\n--!native";
    let (d, code) = parse_compiler_directives(src);
    assert_eq!(
        d,
        CompilerDirectives { native: true, optimization_level: 2, coverage: true, profile: true, type_info_level: 1 }
    );
    assert_eq!(code, "local a = 1\n--!native");
}

#[test]
fn levels_are_clamped() {
    let (d, _) = parse_compiler_directives("--!optimize 9\n--!typeinfo -3\nx()");
    assert_eq!(d.optimization_level, 2);
    assert_eq!(d.type_info_level, 0);
    let (d, _) = parse_compiler_directives("--!optimize 0\n--!typeinfo 2\nx()");
    assert_eq!(d.optimization_level, 0);
    assert_eq!(d.type_info_level, 1);
}

#[test]
fn directive_without_level_is_passed_over() {
    let (d, code) = parse_compiler_directives("--!optimize\n--!native\nx()");
    assert_eq!(d.optimization_level, 1);
    assert!(d.native);
    assert_eq!(code, "x()");
    let (d, code) = parse_compiler_directives("--!optimize fast\nx()");
    assert_eq!(d, defaults());
    assert_eq!(code, "--!optimize fast\nx()");
}

#[test]
fn blank_line_ends_the_block() {
    let (d, code) = parse_compiler_directives("--!native\n\n--!coverage\nx()");
    assert!(d.native);
    assert!(!d.coverage);
    assert_eq!(code, "\n--!coverage\nx()");
}

#[test]
fn directives_after_code_are_code() {
    let (d, code) = parse_compiler_directives("print(1)\n--!native\n--!optimize 2");
    assert_eq!(d, defaults());
    assert_eq!(code, "print(1)\n--!native\n--!optimize 2");
}

#[test]
fn windows_line_endings_are_lines() {
    let (d, code) = parse_compiler_directives("--!native\r\n--!profile\r\nx()\r\ny()");
    assert!(d.native && d.profile);
    assert_eq!(code, "x()\ny()");
}
