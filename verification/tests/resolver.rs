use nicy_runtime::resolver::paths::{
    ancestor_dirs, candidate_paths, is_init_module, module_not_found_message, resolve_loadlib_base,
    resolve_spec_base, select_module_file, SpecBase,
};
use nicy_runtime::resolver::registry::{
    cyclic_require_message, find_main_state, register_coroutine, require_lost_message,
    require_timed_out_message, FileFingerprint, RequireAttempt, RuntimeData, TextMap, MAX_REQUIRE_RETRIES,
};
use nicy_runtime::resolver::aliases::parse_aliases_from_luaurc;
use nicy_runtime::resolver::paths::path_missing_message;
use std::collections::HashMap;

#[test]
fn init_modules() {
    assert!(is_init_module("/p/lib/init.luau"));
    assert!(is_init_module("/p/lib/init.lua"));
    assert!(!is_init_module("/p/lib/init.luauc"));
    assert!(!is_init_module("/p/lib/main.luau"));
}

#[test]
fn spec_bases() {
    match resolve_spec_base("/p", "/p/src/main.luau", "./util") {
        SpecBase::Path(p) => assert_eq!(p, "/p/src/./util"),
        _ => panic!(),
    }
    match resolve_spec_base("/p", "/p/src/main.luau", "../lib/x") {
        SpecBase::Path(p) => assert_eq!(p, "/p/src/../lib/x"),
        _ => panic!(),
    }
    match resolve_spec_base("/p", "/p/src/init.luau", ".") {
        SpecBase::Path(p) => assert_eq!(p, "/p/src"),
        _ => panic!(),
    }
    match resolve_spec_base("/p", "/p/src/main.luau", "@self") {
        SpecBase::Path(p) => assert_eq!(p, "/p/src/main.luau"),
        _ => panic!(),
    }
    match resolve_spec_base("/p", "/p/src/main.luau", "@self/child") {
        SpecBase::Path(p) => assert_eq!(p, "/p/src/child"),
        _ => panic!(),
    }
    match resolve_spec_base("/p", "/p/src/main.luau", "@lib/a/b") {
        SpecBase::Alias { caller_dir, key, remain } => {
            assert_eq!(caller_dir, "/p/src");
            assert_eq!(key, "@lib");
            assert_eq!(remain, "a/b");
        }
        _ => panic!(),
    }
    match resolve_spec_base("/p", "/p/src/main.luau", "@lib") {
        SpecBase::Alias { key, remain, .. } => {
            assert_eq!(key, "@lib");
            assert_eq!(remain, "");
        }
        _ => panic!(),
    }
    match resolve_spec_base("/p", "/p/src/main.luau", "mods/x") {
        SpecBase::Path(p) => assert_eq!(p, "/p/mods/x"),
        _ => panic!(),
    }
}

#[test]
fn candidates() {
    assert_eq!(candidate_paths("/p/m.luau"), vec!["/p/m.luau".to_string()]);
    assert_eq!(
        candidate_paths("/p/m"),
        vec![
            "/p/m.luauc".to_string(),
            "/p/m.luau".to_string(),
            "/p/m.lua".to_string(),
            "/p/m/init.luauc".to_string(),
            "/p/m/init.luau".to_string(),
            "/p/m/init.lua".to_string(),
        ]
    );
}

#[test]
fn selecting_the_module_file() {
    let found = vec![
        ("/p/m.luauc".to_string(), false),
        ("/p/m.luau".to_string(), true),
        ("/p/m.lua".to_string(), true),
    ];
    let (file, searched) = select_module_file("./m", "/p/main.luau", &found).unwrap();
    assert_eq!(file, "/p/m.luau");
    assert_eq!(searched, vec!["/p/m.luauc".to_string(), "/p/m.luau".to_string()]);
    let none = vec![("/p/m.luauc".to_string(), false)];
    assert_eq!(
        select_module_file("./m", "/p/main.luau", &none).unwrap_err(),
        "module './m' not found from '/p/main.luau'"
    );
    assert_eq!(module_not_found_message("a", "b"), "module 'a' not found from 'b'");
}

#[test]
fn loadlib_bases() {
    assert_eq!(resolve_loadlib_base("/p", "/p/src/m.luau", "@self/ext.so").unwrap(), "/p/ext.so");
    assert_eq!(resolve_loadlib_base("/p", "/p/src/m.luau", "@self").unwrap(), "/p/src/m.luau");
    assert_eq!(resolve_loadlib_base("/p", "/p/src/m.luau", "./ext.so").unwrap(), "./ext.so");
    assert_eq!(resolve_loadlib_base("/p", "/p/src/m.luau", "../lib/ext.so").unwrap(), "../lib/ext.so");
    assert_eq!(resolve_loadlib_base("/p", "/p/src/m.luau", "/abs/ext.so").unwrap(), "/abs/ext.so");
    assert_eq!(resolve_loadlib_base("/p", "/p/src/m.luau", "libs/ext.so").unwrap(), "/p/libs/ext.so");
    assert_eq!(
        resolve_loadlib_base("/p", "/p/src/m.luau", "@lib/ext.so").unwrap_err(),
        "loadlib supports only @self aliases"
    );
}

#[test]
fn ancestors() {
    assert_eq!(
        ancestor_dirs("/p/src"),
        vec!["/".to_string(), "/p".to_string(), "/p/src".to_string()]
    );
}

#[test]
fn text_map_read_after_write() {
    let mut m: TextMap<i32> = TextMap::new();
    m.insert("a".to_string(), 1);
    m.insert("b".to_string(), 2);
    m.insert("a".to_string(), 3);
    assert_eq!(m.get("a"), Some(&3));
    assert_eq!(m.get("b"), Some(&2));
    assert_eq!(m.len(), 2);
    m.remove("a");
    assert!(!m.contains_key("a"));
    assert!(m.contains_key("b"));
}

fn fp(n: u64) -> FileFingerprint {
    FileFingerprint { modified_ns: n, size: 10 }
}

#[test]
fn module_cache_lifecycle() {
    let mut rt = RuntimeData::new(0x100, "/p/main.luau".to_string(), "/p".to_string());
    assert_eq!(rt.current_module(), "/p/main.luau");
    assert_eq!(rt.current_file_label(), "main");
    rt.push_entry_module();
    assert_eq!(rt.current_file_label(), "/p/main.luau");
    // first require loads
    assert_eq!(rt.require_attempt("/p/m.luau", fp(1), 0), (RequireAttempt::Load, None));
    rt.enter_module("/p/m.luau");
    assert_eq!(rt.current_module(), "/p/m.luau");
    rt.leave_module("/p/m.luau");
    rt.store_module("/p/m.luau", fp(1), 42, true);
    assert!(rt.module_jit_enabled("/p/m.luau"));
    // later requires are served from the cache
    assert_eq!(rt.require_attempt("/p/m.luau", fp(1), 0), (RequireAttempt::Cached(42), None));
    assert_eq!(rt.cached_module("/p/m.luau", fp(1)), Some(42));
    // a changed file evicts the old value and loads again
    assert_eq!(rt.require_attempt("/p/m.luau", fp(2), 0), (RequireAttempt::Load, Some(42)));
    assert_eq!(rt.cached_module("/p/m.luau", fp(1)), None);
    assert!(!rt.module_jit_enabled("/p/m.luau"));
}

#[test]
fn cached_module_survives_other_work() {
    let mut rt = RuntimeData::new(0x100, "/p/main.luau".to_string(), "/p".to_string());
    assert_eq!(rt.require_attempt("/p/m.luau", fp(1), 0), (RequireAttempt::Load, None));
    rt.leave_module("/p/m.luau");
    rt.store_module("/p/m.luau", fp(1), 42, false);
    rt.begin_require("main".to_string(), "./n".to_string(), Vec::new());
    assert_eq!(rt.require_attempt("/p/n.luau", fp(3), 0), (RequireAttempt::Load, None));
    rt.enter_module("/p/n.luau");
    assert_eq!(rt.require_attempt("/p/m.luau", fp(1), 0), (RequireAttempt::Cached(42), None));
    rt.leave_module("/p/n.luau");
    rt.store_module("/p/n.luau", fp(3), 43, false);
    rt.end_require();
    assert_eq!(rt.require_attempt("/p/n.luau", fp(4), 0), (RequireAttempt::Load, Some(43)));
    assert_eq!(rt.require_attempt("/p/m.luau", fp(1), 0), (RequireAttempt::Cached(42), None));
}

#[test]
fn concurrent_and_cyclic_requires() {
    let mut rt = RuntimeData::new(0x100, "/p/main.luau".to_string(), "/p".to_string());
    assert_eq!(rt.require_attempt("/p/a.luau", fp(1), 0), (RequireAttempt::Load, None));
    // another thread asks while it loads
    assert_eq!(rt.require_attempt("/p/a.luau", fp(1), 0), (RequireAttempt::Wait, None));
    assert_eq!(
        rt.require_attempt("/p/a.luau", fp(1), MAX_REQUIRE_RETRIES - 1),
        (RequireAttempt::TimedOut, None)
    );
    // the module requires itself while running
    rt.enter_module("/p/a.luau");
    assert_eq!(rt.require_attempt("/p/a.luau", fp(1), 0), (RequireAttempt::Cyclic, None));
    // the loading mark was dropped with the cycle
    assert_eq!(rt.require_attempt("/p/a.luau", fp(1), 0), (RequireAttempt::Load, None));
    rt.stop_loading("/p/a.luau");
    assert!(!rt.in_module_stack("/p/b.luau"));
    assert!(rt.in_module_stack("/p/a.luau"));
}

#[test]
fn require_chain_bookkeeping() {
    let mut rt = RuntimeData::new(0x100, "/p/main.luau".to_string(), "/p".to_string());
    rt.begin_require("main".to_string(), "./a".to_string(), vec!["/p/a.luau".to_string()]);
    assert_eq!(rt.require_chain().len(), 1);
    rt.end_require();
    assert!(rt.require_chain().is_empty());
    rt.end_require();
    assert!(rt.require_chain().is_empty());
}

#[test]
fn require_messages() {
    assert_eq!(cyclic_require_message("./a"), "cyclic require detected: './a' is already being loaded");
    assert_eq!(
        require_timed_out_message("/p/a.luau"),
        "module is currently being loaded, timed out waiting for '/p/a.luau'"
    );
    assert_eq!(
        require_lost_message("./a"),
        "module loading failed for './a' (possible cycle or crash)"
    );
}

#[test]
fn main_states() {
    let mut links: HashMap<usize, usize> = HashMap::new();
    let mut runtimes: HashMap<usize, ()> = HashMap::new();
    runtimes.insert(1, ());
    register_coroutine(&mut links, 1, 2);
    register_coroutine(&mut links, 2, 3);
    assert_eq!(find_main_state(&links, &runtimes, 3).main, Some(1));
    assert_eq!(find_main_state(&links, &runtimes, 1).main, Some(1));
    assert_eq!(find_main_state(&links, &runtimes, 9).main, None);
    // a cycle without a runtime ends without one
    register_coroutine(&mut links, 5, 4);
    register_coroutine(&mut links, 4, 5);
    let r = find_main_state(&links, &runtimes, 4);
    assert_eq!(r.main, None);
    assert!(!r.exceeded);
}

#[test]
fn main_state_search_is_bounded() {
    let mut links: HashMap<usize, usize> = HashMap::new();
    let runtimes: HashMap<usize, ()> = HashMap::new();
    for i in 0..2000usize {
        register_coroutine(&mut links, i + 1, i);
    }
    let r = find_main_state(&links, &runtimes, 0);
    assert_eq!(r.main, None);
    assert!(r.exceeded);
}

#[test]
fn luaurc_cache() {
    let mut rt = RuntimeData::new(0x100, "/p/main.luau".to_string(), "/p".to_string());
    assert!(rt.luaurc_cached("/p/.luaurc", fp(1)).is_none());
    rt.store_luaurc("/p/.luaurc", fp(1), parse_aliases_from_luaurc(r#"{"aliases": {"@a": "x"}}"#));
    assert_eq!(rt.luaurc_cached("/p/.luaurc", fp(1)).unwrap().get("@a").unwrap(), "x");
    assert!(rt.luaurc_cached("/p/.luaurc", fp(2)).is_none());
}

#[test]
fn cached_references_for_shutdown() {
    let mut rt = RuntimeData::new(0x100, "/p/main.luau".to_string(), "/p".to_string());
    assert!(rt.cached_refs().is_empty());
    rt.store_module("/p/a.luau", fp(1), 11, false);
    rt.store_module("/p/b.luau", fp(1), 12, false);
    rt.store_module("/p/a.luau", fp(2), 13, false);
    assert_eq!(rt.cached_refs(), vec![12, 13]);
    assert_eq!(rt.l_ptr(), 0x100);
    assert_eq!(path_missing_message("/x"), "path does not exist: /x");
}
