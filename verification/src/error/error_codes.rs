//! Status codes: Luau's own (0 to 6) and the runtime's (100 and above).
use vstd::prelude::*;

verus! {

pub const LUA_OK: i32 = 0;
pub const LUA_YIELD: i32 = 1;
pub const LUA_ERRRUN: i32 = 2;
pub const LUA_ERRSYNTAX: i32 = 3;
pub const LUA_ERRMEM: i32 = 4;
pub const LUA_ERRERR: i32 = 5;
pub const LUA_ERRFILE: i32 = 6;

pub const NICY_ERR_MODULE_NOT_FOUND: i32 = 100;
pub const NICY_ERR_MODULE_LOAD_FAILED: i32 = 101;
pub const NICY_ERR_MODULE_INIT_FAILED: i32 = 102;
pub const NICY_ERR_CYCLIC_REQUIRE: i32 = 103;
pub const NICY_ERR_TASK_CRASH: i32 = 104;
pub const NICY_ERR_NATIVE_CRASH: i32 = 105;
pub const NICY_ERR_TIMEOUT: i32 = 106;
pub const NICY_ERR_PERMISSION_DENIED: i32 = 107;

/// The symbolic name of a status code; unknown codes get a fixed placeholder name.
pub open spec fn code_name(code: i32) -> Seq<char> {
    if code == LUA_OK { "LUA_OK"@ }
    else if code == LUA_YIELD { "LUA_YIELD"@ }
    else if code == LUA_ERRRUN { "LUA_ERRRUN"@ }
    else if code == LUA_ERRSYNTAX { "LUA_ERRSYNTAX"@ }
    else if code == LUA_ERRMEM { "LUA_ERRMEM"@ }
    else if code == LUA_ERRERR { "LUA_ERRERR"@ }
    else if code == LUA_ERRFILE { "LUA_ERRFILE"@ }
    else if code == NICY_ERR_MODULE_NOT_FOUND { "NICY_ERR_MODULE_NOT_FOUND"@ }
    else if code == NICY_ERR_MODULE_LOAD_FAILED { "NICY_ERR_MODULE_LOAD_FAILED"@ }
    else if code == NICY_ERR_MODULE_INIT_FAILED { "NICY_ERR_MODULE_INIT_FAILED"@ }
    else if code == NICY_ERR_CYCLIC_REQUIRE { "NICY_ERR_CYCLIC_REQUIRE"@ }
    else if code == NICY_ERR_TASK_CRASH { "NICY_ERR_TASK_CRASH"@ }
    else if code == NICY_ERR_NATIVE_CRASH { "NICY_ERR_NATIVE_CRASH"@ }
    else if code == NICY_ERR_TIMEOUT { "NICY_ERR_TIMEOUT"@ }
    else if code == NICY_ERR_PERMISSION_DENIED { "NICY_ERR_PERMISSION_DENIED"@ }
    else { "UNKNOWN_ERROR_CODE"@ }
}

/// Converts a status code to its symbolic name.
pub fn code_to_name(code: i32) -> (r: &'static str)
    ensures
        r@ == code_name(code),
{
    if code == LUA_OK { "LUA_OK" }
    else if code == LUA_YIELD { "LUA_YIELD" }
    else if code == LUA_ERRRUN { "LUA_ERRRUN" }
    else if code == LUA_ERRSYNTAX { "LUA_ERRSYNTAX" }
    else if code == LUA_ERRMEM { "LUA_ERRMEM" }
    else if code == LUA_ERRERR { "LUA_ERRERR" }
    else if code == LUA_ERRFILE { "LUA_ERRFILE" }
    else if code == NICY_ERR_MODULE_NOT_FOUND { "NICY_ERR_MODULE_NOT_FOUND" }
    else if code == NICY_ERR_MODULE_LOAD_FAILED { "NICY_ERR_MODULE_LOAD_FAILED" }
    else if code == NICY_ERR_MODULE_INIT_FAILED { "NICY_ERR_MODULE_INIT_FAILED" }
    else if code == NICY_ERR_CYCLIC_REQUIRE { "NICY_ERR_CYCLIC_REQUIRE" }
    else if code == NICY_ERR_TASK_CRASH { "NICY_ERR_TASK_CRASH" }
    else if code == NICY_ERR_NATIVE_CRASH { "NICY_ERR_NATIVE_CRASH" }
    else if code == NICY_ERR_TIMEOUT { "NICY_ERR_TIMEOUT" }
    else if code == NICY_ERR_PERMISSION_DENIED { "NICY_ERR_PERMISSION_DENIED" }
    else { "UNKNOWN_ERROR_CODE" }
}

/// Whether a code lies in the runtime's own range (100 and above).
pub fn is_nicy_code(code: i32) -> (r: bool)
    ensures
        r == (code >= 100),
{
    code >= 100
}

} // verus!
