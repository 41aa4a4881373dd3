//! `.luaurc` alias tables: reading them from JSON (or JSON with comment lines) and
//! combining the files of nested directories.
use vstd::prelude::*;
use crate::text::{lines, lines_of, views, trim, trimmed, starts_with, str_eq, push_str, push_char};
use crate::error::text_of;
use super::paths::{path_is_absolute, path_is_absolute_of, path_join, joined_path};

verus! {

/// A top-level JSON member as far as alias reading needs it: a string, an object whose
/// members are strings or not, or anything else.
#[derive(Debug)]
pub enum JsonField {
    Text(String),
    Object(Vec<(String, Option<String>)>),
    Other,
}

/// A JSON document as far as alias reading needs it: an object with its members in the
/// order `serde_json` keeps them, or anything else.
#[derive(Debug)]
pub enum JsonDoc {
    Object(Vec<(String, JsonField)>),
    Other,
}

/// What `serde_json::from_str` makes of a text, seen as a `JsonDoc`; `None` when the
/// text is not JSON.
pub uninterp spec fn json_document_of(text: Seq<char>) -> Option<JsonDoc>;

/// `serde_json::from_str::<serde_json::Value>` on a text, converted member by member to a
/// `JsonDoc`: the top-level members, and of member objects which members are strings. The
/// contract claims only that the result is `json_document_of` of the text (`None` when
/// `serde_json` refuses it).
#[verifier::external_body]
fn json_document(text: &str) -> (r: Option<JsonDoc>)
    ensures
        r == json_document_of(text@),
{
    serde_json::from_str::<serde_json::Value>(text).ok().map(|v| match v {
        serde_json::Value::Object(m) => JsonDoc::Object(m.into_iter().map(|(k, f)| (k, match f {
            serde_json::Value::String(s) => JsonField::Text(s),
            serde_json::Value::Object(o) => JsonField::Object(o.into_iter().map(|(n, x)| (n, match x {
                serde_json::Value::String(s) => Some(s),
                _ => None,
            })).collect()),
            _ => JsonField::Other,
        })).collect()),
        _ => JsonDoc::Other,
    })
}

// ---------------------------------------------------------------------------
// Alias tables
// ---------------------------------------------------------------------------

/// The value of the first entry with key `k`.
pub open spec fn table_lookup(s: Seq<(Seq<char>, Seq<char>)>, k: Seq<char>) -> Option<Seq<char>>
    decreases s.len(),
{
    if s.len() == 0 {
        None
    } else if s[0].0 == k {
        Some(s[0].1)
    } else {
        table_lookup(s.skip(1), k)
    }
}

/// The entries without key `k`.
pub open spec fn table_remove(s: Seq<(Seq<char>, Seq<char>)>, k: Seq<char>) -> Seq<(Seq<char>, Seq<char>)>
    decreases s.len(),
{
    if s.len() == 0 {
        s
    } else if s[0].0 == k {
        table_remove(s.skip(1), k)
    } else {
        seq![s[0]] + table_remove(s.skip(1), k)
    }
}

/// The entries with `k` mapped to `v`, replacing an earlier mapping.
pub open spec fn table_insert(s: Seq<(Seq<char>, Seq<char>)>, k: Seq<char>, v: Seq<char>) -> Seq<
    (Seq<char>, Seq<char>),
> {
    table_remove(s, k).push((k, v))
}

/// A table from alias names (with their `@`) to paths.
#[derive(Debug, Clone)]
pub struct AliasTable {
    entries: Vec<(String, String)>,
}

impl AliasTable {
    pub closed spec fn entries(self) -> Seq<(Seq<char>, Seq<char>)> {
        self.entries@.map_values(|e: (String, String)| (e.0@, e.1@))
    }

    pub fn new() -> (r: Self)
        ensures
            r.entries() == Seq::<(Seq<char>, Seq<char>)>::empty(),
    {
        let r = AliasTable { entries: Vec::new() };
        assert(r.entries() =~= Seq::<(Seq<char>, Seq<char>)>::empty());
        r
    }

    /// The path of alias `key`.
    pub fn get(&self, key: &str) -> (r: Option<&String>)
        ensures
            match r {
                Some(v) => table_lookup(self.entries(), key@) == Some(v@),
                None => table_lookup(self.entries(), key@) is None,
            },
    {
        let mut i: usize = 0;
        assert(self.entries().skip(0) =~= self.entries());
        while i < self.entries.len()
            invariant
                i <= self.entries@.len(),
                table_lookup(self.entries(), key@) == table_lookup(self.entries().skip(i as int), key@),
            decreases self.entries@.len() - i,
        {
            assert(self.entries().skip(i as int).skip(1) =~= self.entries().skip(i + 1));
            assert(self.entries().skip(i as int)[0] == (self.entries@[i as int].0@, self.entries@[i as int].1@));
            if str_eq(self.entries[i].0.as_str(), key) {
                return Some(&self.entries[i].1);
            }
            i = i + 1;
        }
        None
    }

    pub fn contains_key(&self, key: &str) -> (r: bool)
        ensures
            r == (table_lookup(self.entries(), key@) is Some),
    {
        self.get(key).is_some()
    }

    pub fn is_empty(&self) -> (r: bool)
        ensures
            r == (self.entries().len() == 0),
    {
        self.entries.len() == 0
    }

    pub fn len(&self) -> (r: usize)
        ensures
            r == self.entries().len(),
    {
        self.entries.len()
    }

    /// The entry at `i`, in insertion order.
    pub fn entry(&self, i: usize) -> (r: (&String, &String))
        requires
            i < self.entries().len(),
        ensures
            (r.0@, r.1@) == self.entries()[i as int],
    {
        (&self.entries[i].0, &self.entries[i].1)
    }

    /// Maps `key` to `value`, replacing an earlier mapping.
    pub fn insert(&mut self, key: String, value: String)
        ensures
            final(self).entries() == table_insert(old(self).entries(), key@, value@),
    {
        let ghost s0 = self.entries();
        let mut kept: Vec<(String, String)> = Vec::new();
        let mut i: usize = 0;
        let n = self.entries.len();
        assert(s0.skip(0) =~= s0);
        assert(kept@.map_values(|e: (String, String)| (e.0@, e.1@)) =~= Seq::<(Seq<char>, Seq<char>)>::empty());
        while i < n
            invariant
                n == self.entries@.len(),
                s0 == self.entries(),
                i <= n,
                kept@.map_values(|e: (String, String)| (e.0@, e.1@)) + table_remove(s0.skip(i as int), key@)
                    == table_remove(s0, key@),
            decreases n - i,
        {
            assert(s0.skip(i as int).skip(1) =~= s0.skip(i + 1));
            assert(s0.skip(i as int)[0] == (self.entries@[i as int].0@, self.entries@[i as int].1@));
            if !str_eq(self.entries[i].0.as_str(), key.as_str()) {
                let e = (text_of(self.entries[i].0.as_str()), text_of(self.entries[i].1.as_str()));
                let ghost before = kept@.map_values(|e: (String, String)| (e.0@, e.1@));
                kept.push(e);
                assert(kept@.map_values(|e: (String, String)| (e.0@, e.1@)) =~= before.push(
                    (e.0@, e.1@),
                ));
                assert(kept@.map_values(|e: (String, String)| (e.0@, e.1@)) + table_remove(
                    s0.skip(i + 1),
                    key@,
                ) =~= before + table_remove(s0.skip(i as int), key@));
            }
            i = i + 1;
        }
        assert(s0.skip(n as int) =~= Seq::<(Seq<char>, Seq<char>)>::empty());
        let ghost kv = kept@.map_values(|e: (String, String)| (e.0@, e.1@));
        assert(kv + Seq::<(Seq<char>, Seq<char>)>::empty() =~= kv);
        let ghost kk = key@;
        let ghost vv = value@;
        kept.push((key, value));
        assert(kept@.map_values(|e: (String, String)| (e.0@, e.1@)) =~= kv.push((kk, vv)));
        self.entries = kept;
    }
}

/// An alias name with its leading `@`.
pub open spec fn normalized_alias(k: Seq<char>) -> Seq<char> {
    if k.len() > 0 && k[0] == '@' { k } else { seq!['@'] + k }
}

/// The table made of the members of an `aliases` object, in order: string members with
/// a non-empty value, under their `@`-prefixed names; a later mapping replaces an earlier.
pub open spec fn alias_members(ms: Seq<(String, Option<String>)>) -> Seq<(Seq<char>, Seq<char>)>
    decreases ms.len(),
{
    if ms.len() == 0 {
        Seq::empty()
    } else {
        let prev = alias_members(ms.drop_last());
        match ms.last().1 {
            Some(v) => if v@.len() > 0 {
                table_insert(prev, normalized_alias(ms.last().0@), v@)
            } else {
                prev
            },
            None => prev,
        }
    }
}

/// The member named `aliases` of a top-level object.
pub open spec fn aliases_member(ms: Seq<(String, JsonField)>) -> Option<JsonField>
    decreases ms.len(),
{
    if ms.len() == 0 {
        None
    } else if ms[0].0@ == "aliases"@ {
        Some(ms[0].1)
    } else {
        aliases_member(ms.skip(1))
    }
}

/// The alias table of a JSON document: its `aliases` object, if it has one.
pub open spec fn document_aliases(doc: JsonDoc) -> Seq<(Seq<char>, Seq<char>)> {
    match doc {
        JsonDoc::Object(ms) => match aliases_member(ms@) {
            Some(JsonField::Object(fs)) => alias_members(fs@),
            _ => Seq::empty(),
        },
        JsonDoc::Other => Seq::empty(),
    }
}

/// Whether a line is a comment line: `//` or `#` after leading white space.
pub open spec fn is_comment_line(l: Seq<char>) -> bool {
    "//"@.is_prefix_of(trimmed(l)) || "#"@.is_prefix_of(trimmed(l))
}

/// The lines that are not comment lines.
pub open spec fn code_lines(ls: Seq<Seq<char>>) -> Seq<Seq<char>>
    decreases ls.len(),
{
    if ls.len() == 0 {
        Seq::empty()
    } else if is_comment_line(ls.last()) {
        code_lines(ls.drop_last())
    } else {
        code_lines(ls.drop_last()).push(ls.last())
    }
}

/// Lines joined with `\n` between them.
pub open spec fn joined_lines(ls: Seq<Seq<char>>) -> Seq<char>
    decreases ls.len(),
{
    if ls.len() == 0 {
        Seq::empty()
    } else if ls.len() == 1 {
        ls[0]
    } else {
        joined_lines(ls.drop_last()) + seq!['\n'] + ls.last()
    }
}

/// A text without its comment lines.
pub open spec fn without_comment_lines(s: Seq<char>) -> Seq<char> {
    joined_lines(code_lines(lines_of(s)))
}

/// The aliases of a `.luaurc` text: read as JSON, or, when that fails, as JSON once the
/// comment lines are dropped; empty when neither is JSON.
pub open spec fn luaurc_aliases(content: Seq<char>) -> Seq<(Seq<char>, Seq<char>)> {
    match json_document_of(content) {
        Some(doc) => document_aliases(doc),
        None => match json_document_of(without_comment_lines(content)) {
            Some(doc) => document_aliases(doc),
            None => Seq::empty(),
        },
    }
}

fn strip_comment_lines(content: &str) -> (r: String)
    ensures
        r@ == without_comment_lines(content@),
{
    let ls = lines(content);
    let ghost v = views(ls@);
    let mut out = String::new();
    let mut count: usize = 0;
    let mut i: usize = 0;
    assert(v.take(0) =~= Seq::<Seq<char>>::empty());
    while i < ls.len()
        invariant
            v == views(ls@),
            i <= ls@.len(),
            count <= i,
            count == code_lines(v.take(i as int)).len(),
            out@ == joined_lines(code_lines(v.take(i as int))),
        decreases ls@.len() - i,
    {
        assert(v.take(i + 1).drop_last() =~= v.take(i as int));
        assert(v.take(i + 1).last() == ls@[i as int]@);
        let t = trim(ls[i].as_str());
        if !(starts_with(t, "//") || starts_with(t, "#")) {
            let ghost prev = code_lines(v.take(i as int));
            if count > 0 {
                push_char(&mut out, '\n');
            }
            push_str(&mut out, ls[i].as_str());
            assert(code_lines(v.take(i + 1)) == prev.push(ls@[i as int]@));
            assert(prev.push(ls@[i as int]@).drop_last() =~= prev);
            if count == 0 {
                assert(out@ =~= ls@[i as int]@);
            }
            count = count + 1;
        }
        i = i + 1;
    }
    assert(v.take(ls@.len() as int) =~= v);
    out
}

fn members_table(fs: &Vec<(String, Option<String>)>) -> (r: AliasTable)
    ensures
        r.entries() == alias_members(fs@),
{
    let mut t = AliasTable::new();
    let mut i: usize = 0;
    assert(fs@.take(0) =~= Seq::<(String, Option<String>)>::empty());
    while i < fs.len()
        invariant
            i <= fs@.len(),
            t.entries() == alias_members(fs@.take(i as int)),
        decreases fs@.len() - i,
    {
        assert(fs@.take(i + 1).drop_last() =~= fs@.take(i as int));
        assert(fs@.take(i + 1).last() == fs@[i as int]);
        let k = &fs[i].0;
        match &fs[i].1 {
            Some(v) => {
                if v.as_str().unicode_len() > 0 {
                    let key = if k.as_str().unicode_len() > 0 && k.as_str().get_char(0) == '@' {
                        text_of(k.as_str())
                    } else {
                        let mut n = text_of("@");
                        push_str(&mut n, k.as_str());
                        proof { reveal_strlit("@"); }
                        assert(n@ =~= seq!['@'] + k@);
                        n
                    };
                    t.insert(key, text_of(v.as_str()));
                }
            },
            None => {},
        }
        i = i + 1;
    }
    assert(fs@.take(fs@.len() as int) =~= fs@);
    t
}

/// The alias table of a parsed `.luaurc` document: the string members of its top-level
/// `aliases` object with a non-empty value, under their `@`-prefixed names, a later
/// mapping replacing an earlier; empty when there is no such object.
pub fn document_table(doc: &JsonDoc) -> (r: AliasTable)
    ensures
        r.entries() == document_aliases(*doc),
{
    match doc {
        JsonDoc::Object(ms) => {
            let mut i: usize = 0;
            assert(ms@.skip(0) =~= ms@);
            while i < ms.len()
                invariant
                    *doc == JsonDoc::Object(*ms),
                    i <= ms@.len(),
                    aliases_member(ms@) == aliases_member(ms@.skip(i as int)),
                decreases ms@.len() - i,
            {
                assert(ms@.skip(i as int).skip(1) =~= ms@.skip(i + 1));
                assert(ms@.skip(i as int)[0] == ms@[i as int]);
                if str_eq(ms[i].0.as_str(), "aliases") {
                    assert(aliases_member(ms@) == Some(ms@[i as int].1));
                    return match &ms[i].1 {
                        JsonField::Object(fs) => {
                            assert(document_aliases(*doc) == alias_members(fs@));
                            members_table(fs)
                        },
                        JsonField::Text(_) => {
                            assert(document_aliases(*doc) == Seq::<(Seq<char>, Seq<char>)>::empty());
                            AliasTable::new()
                        },
                        JsonField::Other => {
                            assert(document_aliases(*doc) == Seq::<(Seq<char>, Seq<char>)>::empty());
                            AliasTable::new()
                        },
                    };
                }
                i = i + 1;
            }
            AliasTable::new()
        },
        JsonDoc::Other => AliasTable::new(),
    }
}

/// The alias table of a `.luaurc` text.
pub fn parse_aliases_from_luaurc(content: &str) -> (r: AliasTable)
    ensures
        r.entries() == luaurc_aliases(content@),
{
    match json_document(content) {
        Some(doc) => document_table(&doc),
        None => {
            let stripped = strip_comment_lines(content);
            match json_document(stripped.as_str()) {
                Some(doc) => document_table(&doc),
                None => AliasTable::new(),
            }
        },
    }
}

/// The table `t` with the aliases of the `.luaurc` in `dir` added: relative paths are
/// taken relative to `dir`.
pub open spec fn merged_aliases(
    t: Seq<(Seq<char>, Seq<char>)>,
    dir: Seq<char>,
    add: Seq<(Seq<char>, Seq<char>)>,
) -> Seq<(Seq<char>, Seq<char>)>
    decreases add.len(),
{
    if add.len() == 0 {
        t
    } else {
        let (k, v) = add.last();
        table_insert(
            merged_aliases(t, dir, add.drop_last()),
            k,
            if path_is_absolute_of(v) { v } else { joined_path(dir, v) },
        )
    }
}

/// Adds the aliases of the `.luaurc` in `dir` to `table`.
pub fn merge_aliases(table: &mut AliasTable, dir: &str, add: &AliasTable)
    ensures
        final(table).entries() == merged_aliases(old(table).entries(), dir@, add.entries()),
{
    let mut i: usize = 0;
    let ghost t0 = table.entries();
    assert(add.entries().take(0) =~= Seq::<(Seq<char>, Seq<char>)>::empty());
    while i < add.len()
        invariant
            i <= add.entries().len(),
            table.entries() == merged_aliases(t0, dir@, add.entries().take(i as int)),
        decreases add.entries().len() - i,
    {
        let (k, v) = add.entry(i);
        assert(add.entries().take(i + 1).drop_last() =~= add.entries().take(i as int));
        assert(add.entries().take(i + 1).last() == add.entries()[i as int]);
        let path = if path_is_absolute(v.as_str()) { text_of(v.as_str()) } else { path_join(dir, v.as_str()) };
        table.insert(text_of(k.as_str()), path);
        i = i + 1;
    }
    assert(add.entries().take(add.entries().len() as int) =~= add.entries());
}

/// The path of alias `key` followed by `remain`; an unknown alias is an error.
pub open spec fn alias_base(t: Seq<(Seq<char>, Seq<char>)>, key: Seq<char>, remain: Seq<char>) -> Result<
    Seq<char>,
    Seq<char>,
> {
    match table_lookup(t, key) {
        Some(base) => if remain.len() == 0 { Ok(base) } else { Ok(joined_path(base, remain)) },
        None => Err("unknown alias '"@ + key + "'"@),
    }
}

/// Completes an alias specifier with the aliases that apply to the requiring module.
pub fn resolve_alias_base(table: &AliasTable, key: &str, remain: &str) -> (r: Result<String, String>)
    ensures
        match (r, alias_base(table.entries(), key@, remain@)) {
            (Ok(a), Ok(b)) => a@ == b,
            (Err(a), Err(b)) => a@ == b,
            _ => false,
        },
{
    match table.get(key) {
        Some(base) => {
            if remain.unicode_len() == 0 {
                Ok(text_of(base.as_str()))
            } else {
                Ok(path_join(base.as_str(), remain))
            }
        },
        None => {
            let mut e = text_of("unknown alias '");
            push_str(&mut e, key);
            push_str(&mut e, "'");
            Err(e)
        },
    }
}

/// The aliases of a chain of `.luaurc` files, outermost first, each with its directory:
/// an inner file's alias replaces an outer one of the same name.
pub open spec fn chained_aliases(files: Seq<(String, AliasTable)>) -> Seq<(Seq<char>, Seq<char>)>
    decreases files.len(),
{
    if files.len() == 0 {
        Seq::empty()
    } else {
        merged_aliases(chained_aliases(files.drop_last()), files.last().0@, files.last().1.entries())
    }
}

/// Collects the aliases that apply in a directory from the `.luaurc` files found from the
/// root down to it, each given with its directory and its parsed aliases.
pub fn aliases_from_files(files: &Vec<(String, AliasTable)>) -> (r: AliasTable)
    ensures
        r.entries() == chained_aliases(files@),
{
    let mut table = AliasTable::new();
    let mut i: usize = 0;
    assert(files@.take(0) =~= Seq::<(String, AliasTable)>::empty());
    while i < files.len()
        invariant
            i <= files@.len(),
            table.entries() == chained_aliases(files@.take(i as int)),
        decreases files@.len() - i,
    {
        assert(files@.take(i + 1).drop_last() =~= files@.take(i as int));
        assert(files@.take(i + 1).last() == files@[i as int]);
        merge_aliases(&mut table, files[i].0.as_str(), &files[i].1);
        i = i + 1;
    }
    assert(files@.take(files@.len() as int) =~= files@);
    table
}

// ---------------------------------------------------------------------------
// Laws of alias tables
// ---------------------------------------------------------------------------

proof fn lemma_table_lookup_push(s: Seq<(Seq<char>, Seq<char>)>, e: (Seq<char>, Seq<char>), k: Seq<char>)
    ensures
        table_lookup(s.push(e), k) == match table_lookup(s, k) {
            Some(v) => Some(v),
            None => if e.0 == k { Some(e.1) } else { None },
        },
    decreases s.len(),
{
    if s.len() > 0 {
        assert(s.push(e).skip(1) =~= s.skip(1).push(e));
        assert(s.push(e)[0] == s[0]);
        lemma_table_lookup_push(s.skip(1), e, k);
    } else {
        assert(s.push(e).skip(1) =~= Seq::<(Seq<char>, Seq<char>)>::empty());
        assert(s.push(e)[0] == e);
        assert(table_lookup(s.push(e).skip(1), k) is None);
    }
}

proof fn lemma_table_remove(s: Seq<(Seq<char>, Seq<char>)>, k: Seq<char>, k2: Seq<char>)
    ensures
        table_lookup(table_remove(s, k), k) is None,
        k2 != k ==> table_lookup(table_remove(s, k), k2) == table_lookup(s, k2),
    decreases s.len(),
{
    if s.len() > 0 {
        lemma_table_remove(s.skip(1), k, k2);
        if s[0].0 != k {
            let r = seq![s[0]] + table_remove(s.skip(1), k);
            assert(r[0] == s[0]);
            assert(r.skip(1) =~= table_remove(s.skip(1), k));
        }
    }
}

/// After an insert the key maps to the new value and every other key is unchanged.
pub proof fn lemma_table_insert(s: Seq<(Seq<char>, Seq<char>)>, k: Seq<char>, v: Seq<char>, k2: Seq<char>)
    ensures
        table_lookup(table_insert(s, k, v), k) == Some(v),
        k2 != k ==> table_lookup(table_insert(s, k, v), k2) == table_lookup(s, k2),
{
    lemma_table_remove(s, k, k2);
    lemma_table_lookup_push(table_remove(s, k), (k, v), k);
    lemma_table_lookup_push(table_remove(s, k), (k, v), k2);
}

/// The value of the last entry with key `k`.
pub open spec fn last_value(s: Seq<(Seq<char>, Seq<char>)>, k: Seq<char>) -> Option<Seq<char>>
    decreases s.len(),
{
    if s.len() == 0 {
        None
    } else if s.last().0 == k {
        Some(s.last().1)
    } else {
        last_value(s.drop_last(), k)
    }
}

/// The path an alias value names from the directory of its `.luaurc`.
pub open spec fn alias_path_from(dir: Seq<char>, v: Seq<char>) -> Seq<char> {
    if path_is_absolute_of(v) { v } else { joined_path(dir, v) }
}

/// Adding a `.luaurc`'s aliases replaces the aliases it defines and keeps the others.
pub proof fn lemma_merged_lookup(
    t: Seq<(Seq<char>, Seq<char>)>,
    dir: Seq<char>,
    add: Seq<(Seq<char>, Seq<char>)>,
    k: Seq<char>,
)
    ensures
        table_lookup(merged_aliases(t, dir, add), k) == match last_value(add, k) {
            Some(v) => Some(alias_path_from(dir, v)),
            None => table_lookup(t, k),
        },
    decreases add.len(),
{
    if add.len() > 0 {
        let (k1, v1) = add.last();
        lemma_merged_lookup(t, dir, add.drop_last(), k);
        lemma_table_insert(merged_aliases(t, dir, add.drop_last()), k1, alias_path_from(dir, v1), k);
    }
}

/// The alias `k` as the innermost `.luaurc` defining it gives it.
pub open spec fn innermost_alias(files: Seq<(String, AliasTable)>, k: Seq<char>) -> Option<Seq<char>>
    decreases files.len(),
{
    if files.len() == 0 {
        None
    } else {
        match last_value(files.last().1.entries(), k) {
            Some(v) => Some(alias_path_from(files.last().0@, v)),
            None => innermost_alias(files.drop_last(), k),
        }
    }
}

/// Nested `.luaurc` files are merged, the inner one winning: an alias is what the
/// innermost file defining it says, taken relative to that file's directory; aliases of
/// outer files that inner ones do not define stay available.
pub proof fn lemma_inner_luaurc_wins(files: Seq<(String, AliasTable)>, k: Seq<char>)
    ensures
        table_lookup(chained_aliases(files), k) == innermost_alias(files, k),
    decreases files.len(),
{
    if files.len() > 0 {
        lemma_inner_luaurc_wins(files.drop_last(), k);
        lemma_merged_lookup(chained_aliases(files.drop_last()), files.last().0@, files.last().1.entries(), k);
    }
}

} // verus!
