//! Per-runtime module bookkeeping behind `require`: the module stack, the module cache
//! (checked against file fingerprints), modules being loaded, per-module JIT flags, the
//! `.luaurc` cache and the require chain; and finding a thread's main state.
use vstd::prelude::*;
use std::collections::HashMap;
use crate::text::{str_eq, push_str};
use crate::error::{text_of, RequireChain, RequireChainFrame};
use super::aliases::AliasTable;

verus! {

broadcast use vstd::std_specs::hash::group_hash_axioms;

// ---------------------------------------------------------------------------
// Tables keyed by text
// ---------------------------------------------------------------------------

/// The value of the entry with key `k`, the first one when there are several.
pub open spec fn key_lookup<V>(s: Seq<(Seq<char>, V)>, k: Seq<char>) -> Option<V>
    decreases s.len(),
{
    if s.len() == 0 {
        None
    } else if s[0].0 == k {
        Some(s[0].1)
    } else {
        key_lookup(s.skip(1), k)
    }
}

/// The entries without any entry with key `k`.
pub open spec fn key_remove<V>(s: Seq<(Seq<char>, V)>, k: Seq<char>) -> Seq<(Seq<char>, V)>
    decreases s.len(),
{
    if s.len() == 0 {
        s
    } else if s.last().0 == k {
        key_remove(s.drop_last(), k)
    } else {
        key_remove(s.drop_last(), k).push(s.last())
    }
}

/// The entries with `k` mapped to `v`, replacing any earlier mapping.
pub open spec fn key_insert<V>(s: Seq<(Seq<char>, V)>, k: Seq<char>, v: V) -> Seq<(Seq<char>, V)> {
    key_remove(s, k).push((k, v))
}

/// A lookup after appending an entry finds an earlier mapping first.
pub proof fn lemma_lookup_push<V>(s: Seq<(Seq<char>, V)>, e: (Seq<char>, V), k: Seq<char>)
    ensures
        key_lookup(s.push(e), k) == match key_lookup(s, k) {
            Some(v) => Some(v),
            None => if e.0 == k { Some(e.1) } else { None },
        },
    decreases s.len(),
{
    if s.len() > 0 {
        assert(s.push(e).skip(1) =~= s.skip(1).push(e));
        assert(s.push(e)[0] == s[0]);
        lemma_lookup_push(s.skip(1), e, k);
    } else {
        assert(s.push(e).skip(1) =~= Seq::<(Seq<char>, V)>::empty());
        assert(s.push(e)[0] == e);
        assert(key_lookup(s.push(e).skip(1), k) is None);
    }
}

/// Removing key `k` leaves it unmapped and every other key as it was.
pub proof fn lemma_key_remove<V>(s: Seq<(Seq<char>, V)>, k: Seq<char>, k2: Seq<char>)
    ensures
        key_lookup(key_remove(s, k), k) is None,
        k2 != k ==> key_lookup(key_remove(s, k), k2) == key_lookup(s, k2),
    decreases s.len(),
{
    if s.len() > 0 {
        lemma_key_remove(s.drop_last(), k, k2);
        assert(s.drop_last().push(s.last()) =~= s);
        lemma_lookup_push(s.drop_last(), s.last(), k2);
        lemma_lookup_push(s.drop_last(), s.last(), k);
        if s.last().0 != k {
            lemma_lookup_push(key_remove(s.drop_last(), k), s.last(), k);
            lemma_lookup_push(key_remove(s.drop_last(), k), s.last(), k2);
        }
    }
}

/// After an insert the key maps to the new value and every other key is unchanged.
pub proof fn lemma_key_insert<V>(s: Seq<(Seq<char>, V)>, k: Seq<char>, v: V, k2: Seq<char>)
    ensures
        key_lookup(key_insert(s, k, v), k) == Some(v),
        k2 != k ==> key_lookup(key_insert(s, k, v), k2) == key_lookup(s, k2),
{
    lemma_key_remove(s, k, k2);
    lemma_lookup_push(key_remove(s, k), (k, v), k);
    lemma_lookup_push(key_remove(s, k), (k, v), k2);
}

/// A table keyed by text.
pub struct TextMap<V> {
    entries: Vec<(String, V)>,
}

impl<V> TextMap<V> {
    pub closed spec fn view_entries(self) -> Seq<(Seq<char>, V)> {
        self.entries@.map_values(|e: (String, V)| (e.0@, e.1))
    }

    pub open spec fn lookup(self, k: Seq<char>) -> Option<V> {
        key_lookup(self.view_entries(), k)
    }

    pub fn new() -> (r: Self)
        ensures
            r.view_entries() == Seq::<(Seq<char>, V)>::empty(),
    {
        let r = TextMap { entries: Vec::new() };
        assert(r.view_entries() =~= Seq::<(Seq<char>, V)>::empty());
        r
    }

    /// The value of key `k`.
    pub fn get(&self, k: &str) -> (r: Option<&V>)
        ensures
            match r {
                Some(v) => self.lookup(k@) == Some(*v),
                None => self.lookup(k@) is None,
            },
    {
        let ghost s = self.view_entries();
        let mut i: usize = 0;
        assert(s.skip(0) =~= s);
        while i < self.entries.len()
            invariant
                s == self.view_entries(),
                i <= self.entries@.len(),
                key_lookup(s, k@) == key_lookup(s.skip(i as int), k@),
            decreases self.entries@.len() - i,
        {
            assert(s.skip(i as int).skip(1) =~= s.skip(i + 1));
            assert(s.skip(i as int)[0] == s[i as int]);
            if str_eq(self.entries[i].0.as_str(), k) {
                return Some(&self.entries[i].1);
            }
            i = i + 1;
        }
        None
    }

    pub fn contains_key(&self, k: &str) -> (r: bool)
        ensures
            r == (self.lookup(k@) is Some),
    {
        self.get(k).is_some()
    }

    /// Removes every entry of key `k`.
    pub fn remove(&mut self, k: &str)
        ensures
            final(self).view_entries() == key_remove(old(self).view_entries(), k@),
            final(self).lookup(k@) is None,
            forall|k2: Seq<char>| k2 != k@ ==> final(self).lookup(k2) == old(self).lookup(k2),
    {
        let ghost s = self.view_entries();
        let ghost n = s.len();
        let mut rev: Vec<(String, V)> = Vec::new();
        while self.entries.len() > 0
            invariant
                n == s.len(),
                self.entries@.len() + rev@.len() == n,
                self.view_entries() == s.take(self.entries@.len() as int),
                forall|i: int| 0 <= i < rev@.len() ==> (#[trigger] rev@[i]).0@ == s[n - 1 - i].0 && rev@[i].1 == s[n - 1 - i].1,
            decreases self.entries@.len(),
        {
            let ghost m = self.entries@.len();
            let ghost old_entries = self.entries@;
            assert(self.view_entries()[m - 1] == s[m - 1]);
            let e = self.entries.pop().unwrap();
            assert(e == old_entries[m - 1]);
            assert(self.view_entries() =~= s.take(m - 1));
            let ghost rev_before = rev@;
            rev.push(e);
            assert forall|i: int| 0 <= i < rev@.len() implies (#[trigger] rev@[i]).0@ == s[n - 1 - i].0 && rev@[i].1 == s[n - 1 - i].1 by {
                if i < rev_before.len() {
                    assert(rev@[i] == rev_before[i]);
                }
            }
        }
        assert(key_remove(s, k@).len() >= 0);
        assert(s.take(0) =~= Seq::<(Seq<char>, V)>::empty());
        while rev.len() > 0
            invariant
                n == s.len(),
                rev@.len() <= n,
                forall|i: int| 0 <= i < rev@.len() ==> (#[trigger] rev@[i]).0@ == s[n - 1 - i].0 && rev@[i].1 == s[n - 1 - i].1,
                self.view_entries() == key_remove(s.take(n - rev@.len()), k@),
            decreases rev@.len(),
        {
            let ghost j = n - rev@.len();
            let e = rev.pop().unwrap();
            assert(e.0@ == s[j].0 && e.1 == s[j].1);
            assert(s.take(j + 1).drop_last() =~= s.take(j));
            assert(s.take(j + 1).last() == s[j]);
            if !str_eq(e.0.as_str(), k) {
                let ghost before = self.view_entries();
                self.entries.push(e);
                assert(self.view_entries() =~= before.push(s[j]));
            }
        }
        assert(s.take(n as int) =~= s);
        proof {
            lemma_key_remove(s, k@, k@);
            assert forall|k2: Seq<char>| k2 != k@ implies self.lookup(k2) == old(self).lookup(k2) by {
                lemma_key_remove(s, k@, k2);
            }
        }
    }

    /// Maps `k` to `v`.
    pub fn insert(&mut self, k: String, v: V)
        ensures
            final(self).view_entries() == key_insert(old(self).view_entries(), k@, v),
            final(self).lookup(k@) == Some(v),
            forall|k2: Seq<char>| k2 != k@ ==> final(self).lookup(k2) == old(self).lookup(k2),
    {
        let ghost kk = k@;
        let ghost s = self.view_entries();
        self.remove(k.as_str());
        let ghost before = self.view_entries();
        self.entries.push((k, v));
        assert(self.view_entries() =~= before.push((kk, v)));
        proof {
            lemma_key_insert(s, kk, v, kk);
            assert forall|k2: Seq<char>| k2 != kk implies self.lookup(k2) == old(self).lookup(k2) by {
                lemma_key_insert(s, kk, v, k2);
            }
        }
    }

    pub fn len(&self) -> (r: usize)
        ensures
            r == self.view_entries().len(),
    {
        self.entries.len()
    }

    /// The value of the entry at `i`, in insertion order.
    pub fn value_at(&self, i: usize) -> (r: &V)
        requires
            i < self.view_entries().len(),
        ensures
            *r == self.view_entries()[i as int].1,
    {
        &self.entries[i].1
    }
}

// ---------------------------------------------------------------------------
// Runtime data
// ---------------------------------------------------------------------------

/// What identifies a version of a file: its modification time and its size.
#[derive(Debug, Clone, Copy, PartialEq, Eq, Structural)]
pub struct FileFingerprint {
    pub modified_ns: u64,
    pub size: u64,
}

/// A loaded module: the fingerprint of its file and the registry reference of its value.
#[derive(Debug, Clone, Copy, PartialEq, Eq, Structural)]
pub struct CachedModule {
    pub fp: FileFingerprint,
    pub value_ref: i32,
}

/// A parsed `.luaurc`: the fingerprint of the file and its aliases.
pub struct LuaurcEntry {
    pub fp: FileFingerprint,
    pub aliases: AliasTable,
}

/// The abstract state of a runtime's module bookkeeping.
pub ghost struct RuntimeView {
    /// The address of the main Lua state.
    pub l_ptr: usize,
    pub entry_file: Seq<char>,
    pub entry_dir: Seq<char>,
    /// The modules being executed, outermost first.
    pub module_stack: Seq<Seq<char>>,
    pub module_cache: Seq<(Seq<char>, CachedModule)>,
    pub module_jit: Seq<(Seq<char>, bool)>,
    /// The modules some thread is loading.
    pub loading: Seq<(Seq<char>, ())>,
    pub luaurc_cache: Seq<(Seq<char>, LuaurcEntry)>,
    pub require_chain: Seq<RequireChainFrame>,
}

/// The module bookkeeping of one runtime (one main Lua state at address `l_ptr`).
pub struct RuntimeData {
    l_ptr: usize,
    entry_file: String,
    entry_dir: String,
    module_stack: Vec<String>,
    module_cache: TextMap<CachedModule>,
    module_jit: TextMap<bool>,
    loading: TextMap<()>,
    luaurc_cache: TextMap<LuaurcEntry>,
    require_chain: RequireChain,
}

impl View for RuntimeData {
    type V = RuntimeView;

    closed spec fn view(&self) -> RuntimeView {
        RuntimeView {
            l_ptr: self.l_ptr,
            entry_file: self.entry_file@,
            entry_dir: self.entry_dir@,
            module_stack: self.module_stack@.map_values(|p: String| p@),
            module_cache: self.module_cache.view_entries(),
            module_jit: self.module_jit.view_entries(),
            loading: self.loading.view_entries(),
            luaurc_cache: self.luaurc_cache.view_entries(),
            require_chain: self.require_chain.frames(),
        }
    }
}

/// The module a `require` runs from: the innermost executing module, or the entry file.
pub open spec fn current_module_of(v: RuntimeView) -> Seq<char> {
    if v.module_stack.len() > 0 { v.module_stack.last() } else { v.entry_file }
}

/// The cached value of module `path`, when the cache holds it for fingerprint `fp`.
pub open spec fn cached_ref(v: RuntimeView, path: Seq<char>, fp: FileFingerprint) -> Option<i32> {
    match key_lookup(v.module_cache, path) {
        Some(c) => if c.fp == fp { Some(c.value_ref) } else { None },
        None => None,
    }
}

/// Whether some thread is loading module `path`.
pub open spec fn is_loading(v: RuntimeView, path: Seq<char>) -> bool {
    key_lookup(v.loading, path) is Some
}

/// What a `require` does on one attempt at a module whose file it found.
#[derive(Debug, Clone, Copy, PartialEq, Eq, Structural)]
pub enum RequireAttempt {
    /// The cache holds the module for this version of the file.
    Cached(i32),
    /// This thread now loads the module.
    Load,
    /// The module requires itself, directly or through others.
    Cyclic,
    /// Another thread has been loading it for too long.
    TimedOut,
    /// Another thread is loading it: give way and try again.
    Wait,
}

/// How many times a `require` gives way to another thread loading the same module.
pub const MAX_REQUIRE_RETRIES: u32 = 50;

/// The state after evicting a cached module (its cache entry and its JIT flag).
pub open spec fn evicted(v: RuntimeView, path: Seq<char>) -> RuntimeView {
    if key_lookup(v.module_cache, path) is Some {
        RuntimeView {
            module_cache: key_remove(v.module_cache, path),
            module_jit: key_remove(v.module_jit, path),
            ..v
        }
    } else {
        v
    }
}

/// One attempt of `require` at module `path` with file fingerprint `fp`, after `retries`
/// earlier waits: the outcome, the new state, and the reference of an outdated cached
/// value that was dropped from the cache.
pub open spec fn attempt_effect(v: RuntimeView, path: Seq<char>, fp: FileFingerprint, retries: u32) -> (
    RequireAttempt,
    RuntimeView,
    Option<i32>,
) {
    match cached_ref(v, path, fp) {
        Some(r) => (RequireAttempt::Cached(r), v, None),
        None => {
            let old = match key_lookup(v.module_cache, path) {
                Some(c) => Some(c.value_ref),
                None => None,
            };
            let v1 = evicted(v, path);
            if !is_loading(v1, path) {
                (RequireAttempt::Load, RuntimeView { loading: key_insert(v1.loading, path, ()), ..v1 }, old)
            } else if v1.module_stack.contains(path) {
                (RequireAttempt::Cyclic, RuntimeView { loading: key_remove(v1.loading, path), ..v1 }, old)
            } else if retries + 1 >= MAX_REQUIRE_RETRIES {
                (RequireAttempt::TimedOut, v1, old)
            } else {
                (RequireAttempt::Wait, v1, old)
            }
        },
    }
}

impl RuntimeData {
    pub fn new(l_ptr: usize, entry_file: String, entry_dir: String) -> (r: Self)
        ensures
            r@ == (RuntimeView {
                l_ptr,
                entry_file: entry_file@,
                entry_dir: entry_dir@,
                module_stack: Seq::empty(),
                module_cache: Seq::empty(),
                module_jit: Seq::empty(),
                loading: Seq::empty(),
                luaurc_cache: Seq::empty(),
                require_chain: Seq::empty(),
            }),
    {
        let r = RuntimeData {
            l_ptr,
            entry_file,
            entry_dir,
            module_stack: Vec::new(),
            module_cache: TextMap::new(),
            module_jit: TextMap::new(),
            loading: TextMap::new(),
            luaurc_cache: TextMap::new(),
            require_chain: RequireChain::new(),
        };
        assert(r.module_stack@.map_values(|p: String| p@) =~= Seq::<Seq<char>>::empty());
        r
    }

    pub fn l_ptr(&self) -> (r: usize)
        ensures
            r == self@.l_ptr,
    {
        self.l_ptr
    }

    pub fn entry_file(&self) -> (r: &String)
        ensures
            r@ == self@.entry_file,
    {
        &self.entry_file
    }

    pub fn entry_dir(&self) -> (r: &String)
        ensures
            r@ == self@.entry_dir,
    {
        &self.entry_dir
    }

    pub fn require_chain(&self) -> (r: &RequireChain)
        ensures
            r.frames() == self@.require_chain,
    {
        &self.require_chain
    }

    /// The module a `require` runs from.
    pub fn current_module(&self) -> (r: String)
        ensures
            r@ == current_module_of(self@),
    {
        let n = self.module_stack.len();
        if n > 0 {
            text_of(self.module_stack[n - 1].as_str())
        } else {
            text_of(self.entry_file.as_str())
        }
    }

    /// The requiring file as the require chain names it: the innermost executing module,
    /// or `main`.
    pub fn current_file_label(&self) -> (r: String)
        ensures
            r@ == if self@.module_stack.len() > 0 { self@.module_stack.last() } else { "main"@ },
    {
        let n = self.module_stack.len();
        if n > 0 {
            text_of(self.module_stack[n - 1].as_str())
        } else {
            text_of("main")
        }
    }

    /// Marks the entry file as the executing module.
    pub fn push_entry_module(&mut self)
        ensures
            final(self)@ == op_effect(old(self)@, RuntimeOp::PushEntryModule),
            final(self)@ == (RuntimeView {
                module_stack: old(self)@.module_stack.push(old(self)@.entry_file),
                ..old(self)@
            }),
    {
        let e = text_of(self.entry_file.as_str());
        self.module_stack.push(e);
        assert(self.module_stack@.map_values(|p: String| p@) =~= old(self)@.module_stack.push(
            old(self)@.entry_file,
        ));
    }

    /// Records whether the entry file runs natively compiled.
    pub fn set_entry_jit(&mut self, enabled: bool)
        ensures
            final(self)@ == op_effect(old(self)@, RuntimeOp::SetEntryJit { enabled }),
            final(self)@ == (RuntimeView {
                module_jit: key_insert(old(self)@.module_jit, old(self)@.entry_file, enabled),
                ..old(self)@
            }),
    {
        let e = text_of(self.entry_file.as_str());
        self.module_jit.insert(e, enabled);
    }

    /// Whether module `path` runs natively compiled.
    pub fn module_jit_enabled(&self, path: &str) -> (r: bool)
        ensures
            r == match key_lookup(self@.module_jit, path@) {
                Some(b) => b,
                None => false,
            },
    {
        match self.module_jit.get(path) {
            Some(b) => *b,
            None => false,
        }
    }

    /// The cached value of module `path` for file fingerprint `fp`.
    pub fn cached_module(&self, path: &str, fp: FileFingerprint) -> (r: Option<i32>)
        ensures
            r == cached_ref(self@, path@, fp),
    {
        match self.module_cache.get(path) {
            Some(c) => if c.fp == fp { Some(c.value_ref) } else { None },
            None => None,
        }
    }

    /// Whether module `path` is executing.
    pub fn in_module_stack(&self, path: &str) -> (r: bool)
        ensures
            r == self@.module_stack.contains(path@),
    {
        let ghost st = self@.module_stack;
        let mut i: usize = 0;
        while i < self.module_stack.len()
            invariant
                st == self.module_stack@.map_values(|p: String| p@),
                i <= st.len(),
                forall|j: int| 0 <= j < i ==> st[j] != path@,
            decreases st.len() - i,
        {
            if str_eq(self.module_stack[i].as_str(), path) {
                assert(st[i as int] == path@);
                return true;
            }
            i = i + 1;
        }
        false
    }

    /// One attempt of `require` at module `path` with file fingerprint `fp`, after
    /// `retries` earlier waits: a cached value for this version is used; an outdated one
    /// is evicted; the module is then loaded by this thread unless another thread loads
    /// it, in which case this is a cycle when the module is executing here, a time-out
    /// after too many waits, or a wait.
    pub fn require_attempt(&mut self, path: &str, fp: FileFingerprint, retries: u32) -> (r: (
        RequireAttempt,
        Option<i32>,
    ))
        ensures
            final(self)@ == op_effect(old(self)@, RuntimeOp::Require { path: path@, fp, retries }),
            ({
                let (a, v, old_ref) = attempt_effect(old(self)@, path@, fp, retries);
                &&& r.0 == a
                &&& final(self)@ == v
                &&& r.1 == old_ref
            }),
    {
        if let Some(r) = self.cached_module(path, fp) {
            return (RequireAttempt::Cached(r), None);
        }
        let old_ref = match self.module_cache.get(path) {
            Some(c) => Some(c.value_ref),
            None => None,
        };
        if old_ref.is_some() {
            self.module_cache.remove(path);
            self.module_jit.remove(path);
        }
        if !self.loading.contains_key(path) {
            self.loading.insert(text_of(path), ());
            return (RequireAttempt::Load, old_ref);
        }
        if self.in_module_stack(path) {
            self.loading.remove(path);
            return (RequireAttempt::Cyclic, old_ref);
        }
        if retries >= MAX_REQUIRE_RETRIES - 1 {
            (RequireAttempt::TimedOut, old_ref)
        } else {
            (RequireAttempt::Wait, old_ref)
        }
    }

    /// The module `path` is no longer being loaded (its load failed).
    pub fn stop_loading(&mut self, path: &str)
        ensures
            final(self)@ == op_effect(old(self)@, RuntimeOp::StopLoading { path: path@ }),
            final(self)@ == (RuntimeView { loading: key_remove(old(self)@.loading, path@), ..old(self)@ }),
    {
        self.loading.remove(path);
    }

    /// Module `path` starts executing.
    pub fn enter_module(&mut self, path: &str)
        ensures
            final(self)@ == op_effect(old(self)@, RuntimeOp::EnterModule { path: path@ }),
            final(self)@ == (RuntimeView {
                module_stack: old(self)@.module_stack.push(path@),
                ..old(self)@
            }),
    {
        self.module_stack.push(text_of(path));
        assert(self.module_stack@.map_values(|p: String| p@) =~= old(self)@.module_stack.push(path@));
    }

    /// Module `path` finished executing, with or without error: it is no longer being
    /// loaded and leaves the module stack.
    pub fn leave_module(&mut self, path: &str)
        ensures
            final(self)@ == op_effect(old(self)@, RuntimeOp::LeaveModule { path: path@ }),
            final(self)@ == (RuntimeView {
                loading: key_remove(old(self)@.loading, path@),
                module_stack: if old(self)@.module_stack.len() > 0 {
                    old(self)@.module_stack.drop_last()
                } else {
                    old(self)@.module_stack
                },
                ..old(self)@
            }),
    {
        self.loading.remove(path);
        let _ = self.module_stack.pop();
        assert(self.module_stack@.map_values(|p: String| p@) =~= if old(self)@.module_stack.len() > 0 {
            old(self)@.module_stack.drop_last()
        } else {
            old(self)@.module_stack
        });
    }

    /// Caches the value of module `path` (file fingerprint `fp`) and its JIT flag.
    pub fn store_module(&mut self, path: &str, fp: FileFingerprint, value_ref: i32, jit: bool)
        ensures
            final(self)@ == op_effect(old(self)@, RuntimeOp::Store { path: path@, fp, value_ref, jit }),
            final(self)@ == stored(old(self)@, path@, fp, value_ref, jit),
    {
        self.module_cache.insert(text_of(path), CachedModule { fp, value_ref });
        self.module_jit.insert(text_of(path), jit);
    }

    /// Records a `require` in progress.
    pub fn begin_require(&mut self, file: String, spec: String, searched_paths: Vec<String>)
        ensures
            final(self)@ == op_effect(old(self)@, RuntimeOp::BeginRequire { frame: RequireChainFrame { file, line: None, spec, searched_paths } }),
            final(self)@ == (RuntimeView {
                require_chain: old(self)@.require_chain.push(
                    RequireChainFrame { file, line: None, spec, searched_paths },
                ),
                ..old(self)@
            }),
    {
        self.require_chain.push(file, None, spec, searched_paths);
    }

    /// Ends the innermost `require` in progress.
    pub fn end_require(&mut self)
        ensures
            final(self)@ == op_effect(old(self)@, RuntimeOp::EndRequire),
            final(self)@ == (RuntimeView {
                require_chain: if old(self)@.require_chain.len() > 0 {
                    old(self)@.require_chain.drop_last()
                } else {
                    old(self)@.require_chain
                },
                ..old(self)@
            }),
    {
        self.require_chain.pop();
    }

    /// The references of every cached module value, for the host to drop at shutdown.
    pub fn cached_refs(&self) -> (r: Vec<i32>)
        ensures
            r@ == self@.module_cache.map_values(|e: (Seq<char>, CachedModule)| e.1.value_ref),
    {
        let mut out: Vec<i32> = Vec::new();
        let mut i: usize = 0;
        let ghost s = self@.module_cache;
        while i < self.module_cache.len()
            invariant
                s == self@.module_cache,
                i <= s.len(),
                out@ == s.take(i as int).map_values(|e: (Seq<char>, CachedModule)| e.1.value_ref),
            decreases s.len() - i,
        {
            out.push(self.module_cache.value_at(i).value_ref);
            assert(s.take(i + 1).map_values(|e: (Seq<char>, CachedModule)| e.1.value_ref) =~= s.take(
                i as int,
            ).map_values(|e: (Seq<char>, CachedModule)| e.1.value_ref).push(s[i as int].1.value_ref));
            i = i + 1;
        }
        assert(s.take(s.len() as int) =~= s);
        out
    }

    /// The cached aliases of the `.luaurc` at `path`, when cached for fingerprint `fp`.
    pub fn luaurc_cached(&self, path: &str, fp: FileFingerprint) -> (r: Option<&AliasTable>)
        ensures
            match r {
                Some(t) => key_lookup(self@.luaurc_cache, path@) matches Some(e) && e.fp == fp && e.aliases == *t,
                None => !(key_lookup(self@.luaurc_cache, path@) matches Some(e) && e.fp == fp),
            },
    {
        match self.luaurc_cache.get(path) {
            Some(e) => if e.fp == fp { Some(&e.aliases) } else { None },
            None => None,
        }
    }

    /// Caches the aliases of the `.luaurc` at `path`, read at fingerprint `fp`.
    pub fn store_luaurc(&mut self, path: &str, fp: FileFingerprint, aliases: AliasTable)
        ensures
            final(self)@ == op_effect(old(self)@, RuntimeOp::StoreLuaurc { path: path@, entry: LuaurcEntry { fp, aliases } }),
            final(self)@ == (RuntimeView {
                luaurc_cache: key_insert(old(self)@.luaurc_cache, path@, LuaurcEntry { fp, aliases }),
                ..old(self)@
            }),
    {
        self.luaurc_cache.insert(text_of(path), LuaurcEntry { fp, aliases });
    }
}

/// The message of a module that requires itself.
pub open spec fn cyclic_message(spec: Seq<char>) -> Seq<char> {
    "cyclic require detected: '"@ + spec + "' is already being loaded"@
}

pub fn cyclic_require_message(spec: &str) -> (r: String)
    ensures
        r@ == cyclic_message(spec@),
{
    let mut r = text_of("cyclic require detected: '");
    push_str(&mut r, spec);
    push_str(&mut r, "' is already being loaded");
    r
}

/// The message of a module another thread loads for too long.
pub open spec fn timed_out_message(path: Seq<char>) -> Seq<char> {
    "module is currently being loaded, timed out waiting for '"@ + path + "'"@
}

pub fn require_timed_out_message(path: &str) -> (r: String)
    ensures
        r@ == timed_out_message(path@),
{
    let mut r = text_of("module is currently being loaded, timed out waiting for '");
    push_str(&mut r, path);
    push_str(&mut r, "'");
    r
}

/// The message of a module whose runtime vanished while waiting for it.
pub open spec fn lost_runtime_message(spec: Seq<char>) -> Seq<char> {
    "module loading failed for '"@ + spec + "' (possible cycle or crash)"@
}

pub fn require_lost_message(spec: &str) -> (r: String)
    ensures
        r@ == lost_runtime_message(spec@),
{
    let mut r = text_of("module loading failed for '");
    push_str(&mut r, spec);
    push_str(&mut r, "' (possible cycle or crash)");
    r
}

// ---------------------------------------------------------------------------
// Main state of a thread
// ---------------------------------------------------------------------------

/// How many links `find_main_state` follows at most.
pub const MAX_MAIN_STATE_HOPS: usize = 1000;

/// The outcome of following a thread's links to its main state: the main state found,
/// and whether the search stopped at its bound.
#[derive(Debug, Clone, Copy, PartialEq, Eq, Structural)]
pub struct MainStateLookup {
    pub main: Option<usize>,
    pub exceeded: bool,
}

/// Following links from `cur`: the first state reached that owns a runtime, stopping at a
/// state already visited, at a state without a link, or after `fuel` states.
pub open spec fn main_search(
    links: Map<usize, usize>,
    runtimes: Set<usize>,
    cur: usize,
    visited: Set<usize>,
    fuel: nat,
) -> MainStateLookup
    decreases fuel,
{
    if visited.contains(cur) {
        MainStateLookup { main: None, exceeded: false }
    } else if fuel == 0 {
        MainStateLookup { main: None, exceeded: true }
    } else if runtimes.contains(cur) {
        MainStateLookup { main: Some(cur), exceeded: false }
    } else if links.contains_key(cur) {
        main_search(links, runtimes, links[cur], visited.insert(cur), (fuel - 1) as nat)
    } else {
        MainStateLookup { main: None, exceeded: false }
    }
}

/// The main state (the one owning a runtime) of the Lua thread at `l`, following the
/// links from each coroutine to the state that created it.
pub fn find_main_state<V>(links: &HashMap<usize, usize>, runtimes: &HashMap<usize, V>, l: usize) -> (r: MainStateLookup)
    ensures
        r == main_search(links@, runtimes@.dom(), l, Set::empty(), MAX_MAIN_STATE_HOPS as nat),
{
    let mut current = l;
    let mut visited: std::collections::HashSet<usize> = std::collections::HashSet::new();
    let mut fuel: usize = MAX_MAIN_STATE_HOPS;
    loop
        invariant
            fuel <= MAX_MAIN_STATE_HOPS,
            main_search(links@, runtimes@.dom(), l, Set::empty(), MAX_MAIN_STATE_HOPS as nat)
                == main_search(links@, runtimes@.dom(), current, visited@, fuel as nat),
        decreases fuel,
    {
        if visited.contains(&current) {
            return MainStateLookup { main: None, exceeded: false };
        }
        if fuel == 0 {
            return MainStateLookup { main: None, exceeded: true };
        }
        visited.insert(current);
        if runtimes.contains_key(&current) {
            return MainStateLookup { main: Some(current), exceeded: false };
        }
        match links.get(&current) {
            Some(next) => {
                current = *next;
                fuel = fuel - 1;
            },
            None => {
                return MainStateLookup { main: None, exceeded: false };
            },
        }
    }
}

/// Records that the coroutine `th` was created by the state `main_l`, so that `require`
/// inside it finds the runtime of its main state.
pub fn register_coroutine(links: &mut HashMap<usize, usize>, main_l: usize, th: usize)
    ensures
        final(links)@ == old(links)@.insert(th, main_l),
{
    links.insert(th, main_l);
}

/// A coroutine registered with a state that owns a runtime finds that runtime: the search
/// from the coroutine ends at its main state (the coroutine itself owning no runtime).
pub proof fn lemma_registered_coroutine_finds_main(
    links: Map<usize, usize>,
    runtimes: Set<usize>,
    main_l: usize,
    th: usize,
)
    requires
        runtimes.contains(main_l),
        !runtimes.contains(th),
    ensures
        main_search(links.insert(th, main_l), runtimes, th, Set::empty(), MAX_MAIN_STATE_HOPS as nat)
            == (MainStateLookup { main: Some(main_l), exceeded: false }),
{
    let l2 = links.insert(th, main_l);
    let v1 = Set::<usize>::empty().insert(th);
    if th == main_l {
    } else {
        assert(!v1.contains(main_l));
        assert(main_search(l2, runtimes, main_l, v1, (MAX_MAIN_STATE_HOPS - 1) as nat)
            == (MainStateLookup { main: Some(main_l), exceeded: false }));
    }
}

// ---------------------------------------------------------------------------
// Laws of the module cache
// ---------------------------------------------------------------------------

/// The state after caching module `path` (as `store_module` leaves it).
pub open spec fn stored(v: RuntimeView, path: Seq<char>, fp: FileFingerprint, value_ref: i32, jit: bool) -> RuntimeView {
    RuntimeView {
        module_cache: key_insert(v.module_cache, path, CachedModule { fp, value_ref }),
        module_jit: key_insert(v.module_jit, path, jit),
        ..v
    }
}

/// A module is served from the cache once loaded: after its value is cached for a version
/// of its file, every `require` of it while the file is unchanged answers that value and
/// changes nothing.
pub proof fn lemma_cached_module_is_served(
    v: RuntimeView,
    path: Seq<char>,
    fp: FileFingerprint,
    value_ref: i32,
    jit: bool,
    retries: u32,
)
    ensures
        attempt_effect(stored(v, path, fp, value_ref, jit), path, fp, retries) == (
            RequireAttempt::Cached(value_ref),
            stored(v, path, fp, value_ref, jit),
            None::<i32>,
        ),
{
    lemma_key_insert(v.module_cache, path, CachedModule { fp, value_ref }, path);
}

/// A changed file is loaded again: after the file's fingerprint changes, the next
/// `require` drops the outdated value (handing back its reference), forgets the module's
/// JIT flag and loads the module, unless another thread already loads it.
pub proof fn lemma_changed_file_is_reloaded(
    v: RuntimeView,
    path: Seq<char>,
    fp: FileFingerprint,
    fp2: FileFingerprint,
    value_ref: i32,
    jit: bool,
    retries: u32,
)
    requires
        fp2 != fp,
        !is_loading(v, path),
    ensures
        ({
            let (a, v2, dropped) = attempt_effect(stored(v, path, fp, value_ref, jit), path, fp2, retries);
            &&& a == RequireAttempt::Load
            &&& dropped == Some(value_ref)
            &&& key_lookup(v2.module_cache, path) is None
            &&& key_lookup(v2.module_jit, path) is None
            &&& is_loading(v2, path)
        }),
{
    let v1 = stored(v, path, fp, value_ref, jit);
    lemma_key_insert(v.module_cache, path, CachedModule { fp, value_ref }, path);
    lemma_key_remove(v1.module_cache, path, path);
    lemma_key_remove(v1.module_jit, path, path);
    let v2 = evicted(v1, path);
    lemma_key_insert(v2.loading, path, (), path);
}

/// One thread loads a module at a time: while a thread loads it, another `require` of it
/// from a thread where it is not executing gives way (or, after its last wait, times out)
/// and changes nothing; from a thread where it is executing, it is a cycle.
pub proof fn lemma_loading_excludes_others(v: RuntimeView, path: Seq<char>, fp: FileFingerprint, retries: u32)
    requires
        cached_ref(v, path, fp) is None,
        key_lookup(v.module_cache, path) is None,
        is_loading(v, path),
    ensures
        ({
            let (a, v2, dropped) = attempt_effect(v, path, fp, retries);
            &&& dropped is None
            &&& v.module_stack.contains(path) ==> a == RequireAttempt::Cyclic && !is_loading(v2, path)
            &&& !v.module_stack.contains(path) && retries + 1 < MAX_REQUIRE_RETRIES ==> a
                == RequireAttempt::Wait && v2 == v
            &&& !v.module_stack.contains(path) && retries + 1 >= MAX_REQUIRE_RETRIES ==> a
                == RequireAttempt::TimedOut && v2 == v
        }),
{
    lemma_key_remove(v.loading, path, path);
}

/// One change a runtime's bookkeeping goes through: a call of one of the `RuntimeData`
/// methods that take `&mut self`, with its arguments.
pub ghost enum RuntimeOp {
    Require { path: Seq<char>, fp: FileFingerprint, retries: u32 },
    StopLoading { path: Seq<char> },
    EnterModule { path: Seq<char> },
    LeaveModule { path: Seq<char> },
    Store { path: Seq<char>, fp: FileFingerprint, value_ref: i32, jit: bool },
    BeginRequire { frame: RequireChainFrame },
    EndRequire,
    PushEntryModule,
    SetEntryJit { enabled: bool },
    StoreLuaurc { path: Seq<char>, entry: LuaurcEntry },
}

/// The state after one operation, as the method's own contract gives it.
pub open spec fn op_effect(v: RuntimeView, op: RuntimeOp) -> RuntimeView {
    match op {
        RuntimeOp::Require { path, fp, retries } => attempt_effect(v, path, fp, retries).1,
        RuntimeOp::StopLoading { path } => RuntimeView { loading: key_remove(v.loading, path), ..v },
        RuntimeOp::EnterModule { path } => RuntimeView { module_stack: v.module_stack.push(path), ..v },
        RuntimeOp::LeaveModule { path } => RuntimeView {
            loading: key_remove(v.loading, path),
            module_stack: if v.module_stack.len() > 0 { v.module_stack.drop_last() } else { v.module_stack },
            ..v
        },
        RuntimeOp::Store { path, fp, value_ref, jit } => stored(v, path, fp, value_ref, jit),
        RuntimeOp::BeginRequire { frame } => RuntimeView { require_chain: v.require_chain.push(frame), ..v },
        RuntimeOp::EndRequire => RuntimeView {
            require_chain: if v.require_chain.len() > 0 { v.require_chain.drop_last() } else { v.require_chain },
            ..v
        },
        RuntimeOp::PushEntryModule => RuntimeView { module_stack: v.module_stack.push(v.entry_file), ..v },
        RuntimeOp::SetEntryJit { enabled } => RuntimeView {
            module_jit: key_insert(v.module_jit, v.entry_file, enabled),
            ..v
        },
        RuntimeOp::StoreLuaurc { path, entry } => RuntimeView {
            luaurc_cache: key_insert(v.luaurc_cache, path, entry),
            ..v
        },
    }
}

/// The state after a run of operations, in order.
pub open spec fn ops_effect(v: RuntimeView, ops: Seq<RuntimeOp>) -> RuntimeView
    decreases ops.len(),
{
    if ops.len() == 0 { v } else { op_effect(ops_effect(v, ops.drop_last()), ops.last()) }
}

/// Whether an operation can change what the cache holds for module `path` at version
/// `fp`: storing a value for `path`, or a `require` of `path` after its file changed.
pub open spec fn touches_cached(op: RuntimeOp, path: Seq<char>, fp: FileFingerprint) -> bool {
    match op {
        RuntimeOp::Require { path: p, fp: f, .. } => p == path && f != fp,
        RuntimeOp::Store { path: p, .. } => p == path,
        _ => false,
    }
}

proof fn lemma_op_keeps_cached(v: RuntimeView, op: RuntimeOp, path: Seq<char>, fp: FileFingerprint, r: i32)
    requires
        cached_ref(v, path, fp) == Some(r),
        !touches_cached(op, path, fp),
    ensures
        cached_ref(op_effect(v, op), path, fp) == Some(r),
{
    match op {
        RuntimeOp::Require { path: p, fp: f, retries } => {
            if cached_ref(v, p, f) is None {
                assert(p != path);
                lemma_key_remove(v.module_cache, p, path);
            }
        },
        RuntimeOp::Store { path: p, fp: f, value_ref, jit } => {
            lemma_key_insert(v.module_cache, p, CachedModule { fp: f, value_ref }, path);
        },
        _ => {},
    }
}

/// A module is served from the cache for as long as its file is unchanged: once the cache
/// holds value `r` for module `path` at file version `fp`, it keeps holding it through any
/// run of other operations (requires of other modules or of this one at the same version,
/// entering and leaving modules, the require chain, `.luaurc` caching), and every
/// `require` of `path` at version `fp` along the way answers `r` without loading again.
/// Only a `require` that finds the file changed, or storing a new value for `path`, ends it.
pub proof fn lemma_cache_holds_while_unchanged(
    v: RuntimeView,
    ops: Seq<RuntimeOp>,
    path: Seq<char>,
    fp: FileFingerprint,
    r: i32,
)
    requires
        cached_ref(v, path, fp) == Some(r),
        forall|i: int| 0 <= i < ops.len() ==> !touches_cached(#[trigger] ops[i], path, fp),
    ensures
        forall|i: int| 0 <= i <= ops.len() ==> cached_ref(#[trigger] ops_effect(v, ops.take(i)), path, fp) == Some(r),
        forall|i: int, retries: u32| 0 <= i <= ops.len() ==> #[trigger] attempt_effect(
            ops_effect(v, ops.take(i)),
            path,
            fp,
            retries,
        ) == (RequireAttempt::Cached(r), ops_effect(v, ops.take(i)), None::<i32>),
    decreases ops.len(),
{
    if ops.len() > 0 {
        let init = ops.drop_last();
        lemma_cache_holds_while_unchanged(v, init, path, fp, r);
        assert forall|i: int| 0 <= i <= ops.len() implies cached_ref(
            #[trigger] ops_effect(v, ops.take(i)),
            path,
            fp,
        ) == Some(r) by {
            if i < ops.len() {
                assert(ops.take(i) =~= init.take(i));
            } else {
                assert(ops.take(i) =~= ops);
                assert(init.take(init.len() as int) =~= init);
                assert(!touches_cached(ops[ops.len() - 1], path, fp));
                lemma_op_keeps_cached(ops_effect(v, init), ops.last(), path, fp, r);
            }
        }
        assert forall|i: int, retries: u32| 0 <= i <= ops.len() implies #[trigger] attempt_effect(
            ops_effect(v, ops.take(i)),
            path,
            fp,
            retries,
        ) == (RequireAttempt::Cached(r), ops_effect(v, ops.take(i)), None::<i32>) by {
            assert(cached_ref(ops_effect(v, ops.take(i)), path, fp) == Some(r));
        }
    } else {
        assert(ops.take(0) =~= ops);
    }
}

/// The first `require` of a module nobody loads takes the loading mark for it.
pub proof fn lemma_first_require_loads(v: RuntimeView, path: Seq<char>, fp: FileFingerprint, retries: u32)
    requires
        key_lookup(v.module_cache, path) is None,
        !is_loading(v, path),
    ensures
        ({
            let (a, v2, dropped) = attempt_effect(v, path, fp, retries);
            &&& a == RequireAttempt::Load
            &&& dropped is None
            &&& is_loading(v2, path)
        }),
{
    lemma_key_insert(v.loading, path, (), path);
}

} // verus!
