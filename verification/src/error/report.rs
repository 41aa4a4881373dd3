//! Deciding what gets reported: pcall tracking per Lua thread, and error records built
//! from raw Lua error messages.
use vstd::prelude::*;
use std::collections::HashMap;
use crate::text::{index_of, first_non_digit, digits_value, all_digits, is_digit, find_char,
    char_is_digit, parse_digits_u32, lemma_index_of, lemma_first_non_digit};
use super::{NicyError, cleaned_text, clean_path_in_string, text_of};
use super::format::{ErrorFormatter, OutputStyle, error_text};

verus! {

broadcast use vstd::std_specs::hash::group_hash_axioms;

/// How deep each Lua thread is in protected calls, keyed by the address of the thread
/// (calls nest: a `pcall` inside a `pcall` on one thread counts twice), plus the flag used
/// where no thread is known.
pub struct PcallRegistry {
    states: HashMap<usize, u64>,
    fallback: bool,
}

/// The nesting depth of thread `k` in a depth table: 0 when it has no entry.
pub open spec fn depth_in(m: Map<usize, u64>, k: usize) -> u64 {
    if m.contains_key(k) { m[k] } else { 0 }
}

/// The depth table after thread `k` enters a protected call: one level deeper (a depth
/// that already holds `u64::MAX` levels stays there).
pub open spec fn entered(m: Map<usize, u64>, k: usize) -> Map<usize, u64> {
    let d = depth_in(m, k);
    m.insert(k, if d < u64::MAX { (d + 1) as u64 } else { d })
}

/// The depth table after thread `k` leaves a protected call: one level shallower, and the
/// entry gone when it reaches 0.
pub open spec fn exited(m: Map<usize, u64>, k: usize) -> Map<usize, u64> {
    let d = depth_in(m, k);
    if d <= 1 { m.remove(k) } else { m.insert(k, (d - 1) as u64) }
}

impl PcallRegistry {
    pub closed spec fn states(self) -> Map<usize, u64> {
        self.states@
    }

    /// The flag consulted where no Lua thread is known.
    pub closed spec fn fallback(self) -> bool {
        self.fallback
    }

    /// Sets the flag consulted where no Lua thread is known.
    pub fn set_fallback(&mut self, inside: bool)
        ensures
            final(self).fallback() == inside,
            final(self).states() == old(self).states(),
    {
        self.fallback = inside;
    }

    /// An empty registry: no thread is inside a protected call.
    pub fn new() -> (r: Self)
        ensures
            r.states() == Map::<usize, u64>::empty(),
            !r.fallback(),
    {
        PcallRegistry { states: HashMap::new(), fallback: false }
    }

    /// How many protected calls thread `k` is inside.
    pub open spec fn depth(self, k: usize) -> u64 {
        depth_in(self.states(), k)
    }

    /// Whether the thread `key` (or, without a key, the fallback) is inside a protected call.
    pub open spec fn inside(self, key: Option<usize>) -> bool {
        match key {
            Some(k) => self.depth(k) > 0,
            None => self.fallback(),
        }
    }
}

/// The file and line named at the head of a Lua error message `file:line: text`:
/// the text before the first `:` and the digits right after it, which must be followed
/// by a non-digit and fit in a `u32`.
pub open spec fn location_of(m: Seq<char>) -> Option<(Seq<char>, nat)> {
    match index_of(m, ':') {
        None => None,
        Some(p) => {
            let rest = m.skip(p + 1);
            match first_non_digit(rest) {
                Some(k) => if k > 0 && digits_value(rest.take(k)) <= u32::MAX {
                    Some((m.take(p), digits_value(rest.take(k))))
                } else {
                    None
                },
                None => None,
            }
        },
    }
}

/// Decides whether errors are printed, and builds records from Lua messages.
pub struct ErrorReporter;

impl ErrorReporter {
    /// Thread `key` enters a protected call: it is one level deeper.
    pub fn enter_pcall(registry: &mut PcallRegistry, key: usize)
        ensures
            final(registry).states() == entered(old(registry).states(), key),
            final(registry).fallback() == old(registry).fallback(),
    {
        let d: u64 = match registry.states.get(&key) {
            Some(v) => *v,
            None => 0,
        };
        let n: u64 = if d < u64::MAX { d + 1 } else { d };
        registry.states.insert(key, n);
    }

    /// Thread `key` leaves a protected call: it is one level shallower, and outside every
    /// protected call once the outermost one is left.
    pub fn exit_pcall(registry: &mut PcallRegistry, key: usize)
        ensures
            final(registry).states() == exited(old(registry).states(), key),
            final(registry).fallback() == old(registry).fallback(),
    {
        let d: u64 = match registry.states.get(&key) {
            Some(v) => *v,
            None => 0,
        };
        if d <= 1 {
            registry.states.remove(&key);
        } else {
            registry.states.insert(key, d - 1);
        }
    }

    /// Whether the thread `key` is inside a protected call; without a key the fallback flag
    /// answers.
    pub fn is_inside_pcall(registry: &PcallRegistry, key: Option<usize>) -> (r: bool)
        ensures
            r == registry.inside(key),
    {
        match key {
            Some(k) => match registry.states.get(&k) {
                Some(v) => *v > 0,
                None => false,
            },
            None => registry.fallback,
        }
    }

    /// The text to print for an error raised on thread `key`: nothing inside a protected
    /// call, the rendered error otherwise.
    pub fn report_with_state(
        registry: &PcallRegistry,
        key: Option<usize>,
        err: &NicyError,
        style: OutputStyle,
    ) -> (r: Option<String>)
        ensures
            registry.inside(key) ==> r is None,
            !registry.inside(key) ==> r is Some && r.unwrap()@ == error_text(*err, style),
    {
        if Self::is_inside_pcall(registry, key) {
            None
        } else {
            Some(ErrorFormatter::format_error(err, style))
        }
    }

    /// The text to print for an error raised where no Lua thread is known.
    pub fn report(registry: &PcallRegistry, err: &NicyError, style: OutputStyle) -> (r: Option<
        String,
    >)
        ensures
            registry.fallback() ==> r is None,
            !registry.fallback() ==> r is Some && r.unwrap()@ == error_text(*err, style),
    {
        Self::report_with_state(registry, None, err, style)
    }

    /// Splits `file:line: text` into its file and line.
    pub fn extract_location(message: &str) -> (r: (Option<String>, Option<u32>))
        ensures
            match location_of(message@) {
                Some((f, l)) => r.0 is Some && r.0.unwrap()@ == f && r.1 == Some(l as u32),
                None => r.0 is None && r.1 is None,
            },
    {
        let n = message.unicode_len();
        let ghost m = message@;
        proof {
            lemma_index_of(m, ':');
        }
        let p = match find_char(message, ':') {
            Some(p) => p,
            None => {
                return (None, None);
            },
        };
        let ghost rest = m.skip(p + 1);
        proof {
            lemma_first_non_digit(rest);
        }
        let mut j: usize = p + 1;
        while j < n && char_is_digit(message.get_char(j))
            invariant
                n == m.len(),
                m == message@,
                p < n,
                p + 1 <= j <= n,
                rest == m.skip(p + 1),
                forall|i: int| p + 1 <= i < j ==> is_digit(#[trigger] m[i]),
            decreases n - j,
        {
            j = j + 1;
        }
        if j == n {
            assert(all_digits(rest)) by {
                assert forall|i: int| 0 <= i < rest.len() implies is_digit(#[trigger] rest[i]) by {
                    assert(rest[i] == m[p + 1 + i]);
                }
            }
            assert(first_non_digit(rest) is None) by {
                match first_non_digit(rest) {
                    Some(k) => { assert(!is_digit(rest[k])); },
                    None => {},
                }
            }
            return (None, None);
        }
        let k: usize = j - (p + 1);
        assert(first_non_digit(rest) == Some(k as int)) by {
            assert(!is_digit(rest[k as int]));
            match first_non_digit(rest) {
                Some(k2) => {
                    if k2 < k {
                        assert(rest[k2] == m[p + 1 + k2]);
                    } else if k2 > k {
                        assert(rest.take(k2)[k as int] == rest[k as int]);
                    }
                },
                None => {
                    assert(all_digits(rest));
                },
            }
        }
        if k == 0 {
            return (None, None);
        }
        assert(rest.take(k as int) =~= m.subrange(p + 1, j as int));
        assert(all_digits(m.subrange(p + 1, j as int))) by {
            assert forall|i: int| 0 <= i < j - (p + 1) implies is_digit(
                #[trigger] m.subrange(p + 1, j as int)[i],
            ) by {
                assert(m.subrange(p + 1, j as int)[i] == m[p + 1 + i]);
            }
        }
        match parse_digits_u32(message, p + 1, j) {
            Some(line) => {
                let file = text_of(message.substring_char(0, p));
                assert(m.subrange(0, p as int) =~= m.take(p as int));
                (Some(file), Some(line))
            },
            None => (None, None),
        }
    }

    /// The runtime error record for a Lua error message: the message with extended-length
    /// path prefixes removed (or `unknown error` when there is none), and the file and line
    /// named at its head.
    pub fn lua_error_record(raw: Option<&str>) -> (r: NicyError)
        ensures
            ({
                let m = match raw {
                    Some(t) => cleaned_text(t@),
                    None => "unknown error"@,
                };
                &&& r matches NicyError::RuntimeError { message, stack_trace, file, line }
                &&& message@ == m
                &&& stack_trace is None
                &&& match location_of(m) {
                    Some((f, l)) => file is Some && file.unwrap()@ == f && line == Some(l as u32),
                    None => file is None && line is None,
                }
            }),
    {
        let message = match raw {
            Some(t) => clean_path_in_string(t),
            None => text_of("unknown error"),
        };
        let (file, line) = Self::extract_location(message.as_str());
        NicyError::RuntimeError { message, stack_trace: None, file, line }
    }
}

/// Protected calls nest: after thread `k` enters `n` protected calls (`n` below
/// `u64::MAX`) and leaves `m < n` of them it is still inside one, so an error raised in an
/// outer call stays quiet; after leaving all `n` it is exactly as before. Any other thread,
/// and the fallback, are not touched.
pub proof fn lemma_pcall_nesting(states: Map<usize, u64>, k: usize, n: nat, m: nat, other: usize)
    requires
        depth_in(states, k) + n < u64::MAX,
        m <= n,
        other != k,
    ensures
        depth_in(exits(enters(states, k, n), k, m), k) == depth_in(states, k) + n - m,
        m < n ==> depth_in(exits(enters(states, k, n), k, m), k) > 0,
        depth_in(exits(enters(states, k, n), k, m), other) == depth_in(states, other),
        m == n ==> depth_in(exits(enters(states, k, n), k, m), k) == depth_in(states, k),
{
    lemma_enters(states, k, n, other);
    lemma_exits(enters(states, k, n), k, m, other);
}

/// The depth table after thread `k` enters `n` protected calls.
pub open spec fn enters(m: Map<usize, u64>, k: usize, n: nat) -> Map<usize, u64>
    decreases n,
{
    if n == 0 { m } else { entered(enters(m, k, (n - 1) as nat), k) }
}

/// The depth table after thread `k` leaves `n` protected calls.
pub open spec fn exits(m: Map<usize, u64>, k: usize, n: nat) -> Map<usize, u64>
    decreases n,
{
    if n == 0 { m } else { exited(exits(m, k, (n - 1) as nat), k) }
}

proof fn lemma_enters(m: Map<usize, u64>, k: usize, n: nat, other: usize)
    requires
        depth_in(m, k) + n < u64::MAX,
        other != k,
    ensures
        depth_in(enters(m, k, n), k) == depth_in(m, k) + n,
        depth_in(enters(m, k, n), other) == depth_in(m, other),
    decreases n,
{
    if n > 0 {
        lemma_enters(m, k, (n - 1) as nat, other);
    }
}

proof fn lemma_exits(m: Map<usize, u64>, k: usize, n: nat, other: usize)
    requires
        n <= depth_in(m, k),
        other != k,
    ensures
        depth_in(exits(m, k, n), k) == depth_in(m, k) - n,
        depth_in(exits(m, k, n), other) == depth_in(m, other),
    decreases n,
{
    if n > 0 {
        lemma_exits(m, k, (n - 1) as nat, other);
    }
}

} // verus!
