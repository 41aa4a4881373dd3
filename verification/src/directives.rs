//! Compiler directives at the top of Luau sources (`--!native`, `--!optimize N`,
//! `--!coverage`, `--!profile`, `--!typeinfo N`) and the source that remains.
use vstd::prelude::*;
use crate::text::{lines, lines_of, views, trim, trimmed, starts_with, str_eq, suffix_from, push_str,
    push_char, parse_i32, parsed_i32};
use crate::error::text_of;
use crate::resolver::aliases::joined_lines;

verus! {

/// The directives found at the top of a source.
#[derive(Debug, Clone, Copy, PartialEq, Eq, Structural)]
pub struct CompilerDirectives {
    pub native: bool,
    pub optimization_level: i32,
    pub coverage: bool,
    pub profile: bool,
    pub type_info_level: i32,
}

/// The directives of a source without any: optimization level 1, type information level 0.
pub open spec fn default_directives() -> CompilerDirectives {
    CompilerDirectives {
        native: false,
        optimization_level: 1,
        coverage: false,
        profile: false,
        type_info_level: 0,
    }
}

/// Whether a trimmed line is the flag `word`, alone or followed by a space.
pub open spec fn is_flag_line(t: Seq<char>, word: Seq<char>) -> bool {
    t == word || (word + " "@).is_prefix_of(t)
}

/// The number `N` of a trimmed line `word N`: a space after the word, then an `i32`.
pub open spec fn level_argument(t: Seq<char>, word: Seq<char>) -> Option<int> {
    let rest = t.skip(word.len() as int);
    if rest.len() > 0 && rest[0] == ' ' { parsed_i32(trimmed(rest.skip(1))) } else { None }
}

/// `n` limited to `lo..=hi`.
pub open spec fn clamped(n: int, lo: int, hi: int) -> int {
    if n < lo { lo } else if n > hi { hi } else { n }
}

/// Clamping keeps a value inside the bounds as it is, and takes any other value to the
/// nearer bound.
pub proof fn lemma_clamped(n: int, lo: int, hi: int)
    requires
        lo <= hi,
    ensures
        lo <= n <= hi ==> clamped(n, lo, hi) == n,
        n < lo ==> clamped(n, lo, hi) == lo,
        n > hi ==> clamped(n, lo, hi) == hi,
        lo <= clamped(n, lo, hi) <= hi,
{
}

/// How a trimmed line acts on the directives: `None` ends the directive block; otherwise
/// the new directives and whether the line belongs to the block. `--!optimize` and
/// `--!typeinfo` without a valid number are passed over without ending the block.
pub open spec fn directive_step(t: Seq<char>, d: CompilerDirectives) -> Option<(CompilerDirectives, bool)> {
    if is_flag_line(t, "--!native"@) {
        Some((CompilerDirectives { native: true, ..d }, true))
    } else if "--!optimize"@.is_prefix_of(t) {
        match level_argument(t, "--!optimize"@) {
            Some(n) => Some((CompilerDirectives { optimization_level: clamped(n, 0, 2) as i32, ..d }, true)),
            None => Some((d, false)),
        }
    } else if is_flag_line(t, "--!coverage"@) {
        Some((CompilerDirectives { coverage: true, ..d }, true))
    } else if is_flag_line(t, "--!profile"@) {
        Some((CompilerDirectives { profile: true, ..d }, true))
    } else if "--!typeinfo"@.is_prefix_of(t) {
        match level_argument(t, "--!typeinfo"@) {
            Some(n) => Some((CompilerDirectives { type_info_level: clamped(n, 0, 1) as i32, ..d }, true)),
            None => Some((d, false)),
        }
    } else if "--!"@.is_prefix_of(t) {
        Some((d, true))
    } else {
        None
    }
}

/// A written level inside the documented range is kept as written: `--!optimize N` with
/// `N` in `0..=2` sets the optimization level to `N`, and `--!typeinfo N` with `N` in
/// `0..=1` sets the type information level to `N`; the line belongs to the directive block
/// and nothing else changes.
pub proof fn lemma_levels_in_range_are_kept(t: Seq<char>, d: CompilerDirectives, n: int)
    ensures
        "--!optimize"@.is_prefix_of(t) && level_argument(t, "--!optimize"@) == Some(n) && 0 <= n <= 2
            ==> directive_step(t, d) == Some((CompilerDirectives { optimization_level: n as i32, ..d }, true)),
        "--!typeinfo"@.is_prefix_of(t) && level_argument(t, "--!typeinfo"@) == Some(n) && 0 <= n <= 1
            ==> directive_step(t, d) == Some((CompilerDirectives { type_info_level: n as i32, ..d }, true)),
{
    reveal_strlit("--!optimize");
    reveal_strlit("--!typeinfo");
    reveal_strlit("--!native");
    reveal_strlit("--!coverage");
    reveal_strlit("--!profile");
    reveal_strlit(" ");
    if "--!optimize"@.is_prefix_of(t) {
        assert(t[3] == "--!optimize"@[3]);
        assert(("--!native"@ + " "@)[3] == 'n');
        assert(!is_flag_line(t, "--!native"@));
    }
    if "--!typeinfo"@.is_prefix_of(t) {
        assert(t[3] == "--!typeinfo"@[3]);
        assert(("--!native"@ + " "@)[3] == 'n');
        assert(("--!coverage"@ + " "@)[3] == 'c');
        assert(("--!profile"@ + " "@)[3] == 'p');
        assert(!is_flag_line(t, "--!native"@));
        assert(!"--!optimize"@.is_prefix_of(t));
        assert(!is_flag_line(t, "--!coverage"@));
        assert(!is_flag_line(t, "--!profile"@));
    }
}

/// Scanning lines from `i` with directives `d` and the block ending at line `end`.
pub open spec fn scan_directives(ls: Seq<Seq<char>>, i: int, d: CompilerDirectives, end: int) -> (CompilerDirectives, int)
    decreases ls.len() - i,
{
    if i < 0 || i >= ls.len() {
        (d, end)
    } else {
        match directive_step(trimmed(ls[i]), d) {
            None => (d, end),
            Some((d2, counts)) => scan_directives(ls, i + 1, d2, if counts { i + 1 } else { end }),
        }
    }
}

/// The directives of a source and the source after the directive block.
pub open spec fn parsed_directives(source: Seq<char>) -> (CompilerDirectives, Seq<char>) {
    let ls = lines_of(source);
    let (d, end) = scan_directives(ls, 0, default_directives(), 0);
    (d, joined_lines(ls.skip(end)))
}

/// Whether the first line asks for native compilation, and the source without that line.
pub open spec fn native_split(source: Seq<char>) -> (bool, Seq<char>) {
    let ls = lines_of(source);
    let first = if ls.len() > 0 { ls[0] } else { Seq::empty() };
    if "--!native"@.is_prefix_of(trimmed(first)) {
        (true, joined_lines(ls.skip(1)))
    } else {
        (false, source)
    }
}

fn join_from(ls: &Vec<String>, from: usize) -> (r: String)
    requires
        from <= ls@.len(),
    ensures
        r@ == joined_lines(views(ls@).skip(from as int)),
{
    let ghost v = views(ls@);
    let mut out = String::new();
    let mut j: usize = from;
    assert(v.subrange(from as int, from as int) =~= Seq::<Seq<char>>::empty());
    while j < ls.len()
        invariant
            v == views(ls@),
            from <= j <= ls@.len(),
            out@ == joined_lines(v.subrange(from as int, j as int)),
        decreases ls@.len() - j,
    {
        let ghost prev = v.subrange(from as int, j as int);
        assert(v.subrange(from as int, j + 1).drop_last() =~= prev);
        assert(v.subrange(from as int, j + 1).last() == ls@[j as int]@);
        if j > from {
            push_char(&mut out, '\n');
        } else {
            assert(v.subrange(from as int, j + 1) =~= seq![ls@[j as int]@]);
        }
        push_str(&mut out, ls[j].as_str());
        if j == from {
            assert(out@ =~= ls@[j as int]@);
        }
        j = j + 1;
    }
    assert(v.subrange(from as int, ls@.len() as int) =~= v.skip(from as int));
    out
}

/// Splits off a `--!native` first line: whether native compilation was asked for, and the
/// source that remains (the whole source when it was not).
pub fn strip_native_directive(source: &str) -> (r: (bool, String))
    ensures
        r.0 == native_split(source@).0,
        r.1@ == native_split(source@).1,
{
    let ls = lines(source);
    if ls.len() == 0 {
        proof {
            reveal_strlit("--!native");
        }
        assert(!"--!native"@.is_prefix_of(trimmed(Seq::<char>::empty())));
        return (false, text_of(source));
    }
    let first: &str = ls[0].as_str();
    assert(first@ == views(ls@)[0]);
    let t = trim(first);
    if !starts_with(t, "--!native") {
        return (false, text_of(source));
    }
    (true, join_from(&ls, 1))
}

fn is_flag(t: &str, word: &str, word_space: &str) -> (r: bool)
    requires
        word_space@ == word@ + " "@,
    ensures
        r == is_flag_line(t@, word@),
{
    str_eq(t, word) || starts_with(t, word_space)
}

fn level_of(t: &str, word: &str) -> (r: Option<i32>)
    requires
        word@.is_prefix_of(t@),
    ensures
        match r {
            Some(n) => level_argument(t@, word@) == Some(n as int),
            None => level_argument(t@, word@) is None,
        },
{
    let rest = suffix_from(t, word.unicode_len());
    if rest.unicode_len() > 0 && rest.get_char(0) == ' ' {
        let num = trim(suffix_from(rest, 1));
        parse_i32(num)
    } else {
        None
    }
}

fn clamp_i32(n: i32, lo: i32, hi: i32) -> (r: i32)
    requires
        lo <= hi,
    ensures
        r as int == clamped(n as int, lo as int, hi as int),
{
    if n < lo { lo } else if n > hi { hi } else { n }
}

fn directive_step_exec(t: &str, d: CompilerDirectives) -> (r: Option<(CompilerDirectives, bool)>)
    ensures
        r == directive_step(t@, d),
{
    proof {
        reveal_strlit("--!native");
        reveal_strlit("--!native ");
        reveal_strlit("--!coverage");
        reveal_strlit("--!coverage ");
        reveal_strlit("--!profile");
        reveal_strlit("--!profile ");
        reveal_strlit(" ");
    }
    assert("--!native "@ =~= "--!native"@ + " "@);
    assert("--!coverage "@ =~= "--!coverage"@ + " "@);
    assert("--!profile "@ =~= "--!profile"@ + " "@);
    if is_flag(t, "--!native", "--!native ") {
        Some((CompilerDirectives { native: true, ..d }, true))
    } else if starts_with(t, "--!optimize") {
        match level_of(t, "--!optimize") {
            Some(n) => Some((CompilerDirectives { optimization_level: clamp_i32(n, 0, 2), ..d }, true)),
            None => Some((d, false)),
        }
    } else if is_flag(t, "--!coverage", "--!coverage ") {
        Some((CompilerDirectives { coverage: true, ..d }, true))
    } else if is_flag(t, "--!profile", "--!profile ") {
        Some((CompilerDirectives { profile: true, ..d }, true))
    } else if starts_with(t, "--!typeinfo") {
        match level_of(t, "--!typeinfo") {
            Some(n) => Some((CompilerDirectives { type_info_level: clamp_i32(n, 0, 1), ..d }, true)),
            None => Some((d, false)),
        }
    } else if starts_with(t, "--!") {
        Some((d, true))
    } else {
        None
    }
}

/// Reads the directive block at the top of a source: consecutive lines starting with
/// `--!` (after white space). Known directives set their flag or level (the optimization
/// level clamped to 0..=2, the type information level to 0..=1); unknown ones such as
/// `--!strict` are passed over. Answers the directives and the source after the block.
pub fn parse_compiler_directives(source: &str) -> (r: (CompilerDirectives, String))
    ensures
        r.0 == parsed_directives(source@).0,
        r.1@ == parsed_directives(source@).1,
{
    let ls = lines(source);
    let ghost v = views(ls@);
    let mut d = CompilerDirectives {
        native: false,
        optimization_level: 1,
        coverage: false,
        profile: false,
        type_info_level: 0,
    };
    let mut end: usize = 0;
    let mut i: usize = 0;
    let mut stop = false;
    while i < ls.len() && !stop
        invariant
            v == views(ls@),
            i <= ls@.len(),
            end <= i,
            scan_directives(v, 0, default_directives(), 0) == (if stop {
                (d, end as int)
            } else {
                scan_directives(v, i as int, d, end as int)
            }),
        decreases ls@.len() - i, if stop { 0int } else { 1int },
    {
        assert(v[i as int] == ls@[i as int]@);
        let t = trim(ls[i].as_str());
        match directive_step_exec(t, d) {
            None => {
                stop = true;
            },
            Some((d2, counts)) => {
                d = d2;
                if counts {
                    end = i + 1;
                }
                i = i + 1;
            },
        }
    }
    let code = join_from(&ls, end);
    (d, code)
}

/// Directives count only at the top: when the first line is not a directive, the source
/// has the default directives and all of its lines are code, including any `--!` lines
/// further down.
pub proof fn lemma_directives_only_at_top(source: Seq<char>)
    requires
        lines_of(source).len() > 0,
        directive_step(trimmed(lines_of(source)[0]), default_directives()) is None,
    ensures
        parsed_directives(source) == (default_directives(), joined_lines(lines_of(source))),
{
    assert(lines_of(source).skip(0) =~= lines_of(source));
}

} // verus!
