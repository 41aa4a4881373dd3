//! Paths as text, through `std::path` on the platform the crate is built for, and the
//! rules that turn a module specifier into a base path and candidate files.
use vstd::prelude::*;
use crate::text::{starts_with, str_eq, suffix_from, push_str};
use crate::error::text_of;

verus! {

// ---------------------------------------------------------------------------
// std::path, by name
//
// Each name is a function of its text arguments under the path syntax of the target the
// crate is compiled for (separators and prefixes are fixed at build time).
// ---------------------------------------------------------------------------

/// What `Path::parent` gives for a path.
pub uninterp spec fn path_parent_of(p: Seq<char>) -> Option<Seq<char>>;

/// What `Path::join` gives for a base and a path.
pub uninterp spec fn joined_path(base: Seq<char>, p: Seq<char>) -> Seq<char>;

/// What `Path::extension` gives for a path.
pub uninterp spec fn path_extension_of(p: Seq<char>) -> Option<Seq<char>>;

/// What `Path::with_extension` gives for a path and an extension.
pub uninterp spec fn path_with_extension_of(p: Seq<char>, ext: Seq<char>) -> Seq<char>;

/// What `Path::file_name` gives for a path.
pub uninterp spec fn path_file_name_of(p: Seq<char>) -> Option<Seq<char>>;

/// What `Path::is_absolute` gives for a path.
pub uninterp spec fn path_is_absolute_of(p: Seq<char>) -> bool;

/// `std::path::Path::parent`, the result read back as text. The contract claims that the
/// result is `path_parent_of` of the path, and that a parent is shorter than the path
/// (it is a prefix of the path without the final component).
#[verifier::external_body]
pub(crate) fn path_parent(p: &str) -> (r: Option<String>)
    ensures
        match r {
            Some(q) => path_parent_of(p@) == Some(q@) && q@.len() < p@.len(),
            None => path_parent_of(p@) is None,
        },
{
    std::path::Path::new(p).parent().map(|q| q.to_string_lossy().into_owned())
}

/// `std::path::Path::join`, read back as text. The contract claims only that the result
/// is `joined_path` of the two texts.
#[verifier::external_body]
pub(crate) fn path_join(base: &str, p: &str) -> (r: String)
    ensures
        r@ == joined_path(base@, p@),
{
    std::path::Path::new(base).join(p).to_string_lossy().into_owned()
}

/// `std::path::Path::extension`, read back as text. The contract claims only that the
/// result is `path_extension_of` of the path.
#[verifier::external_body]
pub(crate) fn path_extension(p: &str) -> (r: Option<String>)
    ensures
        match r {
            Some(e) => path_extension_of(p@) == Some(e@),
            None => path_extension_of(p@) is None,
        },
{
    std::path::Path::new(p).extension().map(|e| e.to_string_lossy().into_owned())
}

/// `std::path::Path::with_extension`, read back as text. The contract claims only that
/// the result is `path_with_extension_of` of the path and the extension. The call panics
/// on an extension holding a path separator, so such an extension is not admitted.
#[verifier::external_body]
pub(crate) fn path_with_extension(p: &str, ext: &str) -> (r: String)
    requires
        !ext@.contains('/'),
        !ext@.contains('\\'),
    ensures
        r@ == path_with_extension_of(p@, ext@),
{
    std::path::Path::new(p).with_extension(ext).to_string_lossy().into_owned()
}

/// `std::path::Path::file_name`, read back as text. The contract claims only that the
/// result is `path_file_name_of` of the path.
#[verifier::external_body]
pub(crate) fn path_file_name(p: &str) -> (r: Option<String>)
    ensures
        match r {
            Some(n) => path_file_name_of(p@) == Some(n@),
            None => path_file_name_of(p@) is None,
        },
{
    std::path::Path::new(p).file_name().map(|n| n.to_string_lossy().into_owned())
}

/// `std::path::Path::is_absolute`. The contract claims only that the answer is
/// `path_is_absolute_of` of the path.
#[verifier::external_body]
pub(crate) fn path_is_absolute(p: &str) -> (r: bool)
    ensures
        r == path_is_absolute_of(p@),
{
    std::path::Path::new(p).is_absolute()
}

// ---------------------------------------------------------------------------
// Resolution rules
// ---------------------------------------------------------------------------

/// Whether a module file is a directory's `init.lua` or `init.luau`.
pub open spec fn is_init_file(p: Seq<char>) -> bool {
    path_file_name_of(p) == Some("init.lua"@) || path_file_name_of(p) == Some("init.luau"@)
}

/// Whether a module path names a directory module (`init.lua` or `init.luau`).
pub fn is_init_module(path: &str) -> (r: bool)
    ensures
        r == is_init_file(path@),
{
    match path_file_name(path) {
        Some(n) => str_eq(n.as_str(), "init.lua") || str_eq(n.as_str(), "init.luau"),
        None => false,
    }
}

/// The directory of a module: its parent, or the entry directory when it has none.
pub open spec fn module_dir(entry_dir: Seq<char>, current: Seq<char>) -> Seq<char> {
    match path_parent_of(current) {
        Some(p) => p,
        None => entry_dir,
    }
}

fn module_dir_of(entry_dir: &str, current: &str) -> (r: String)
    ensures
        r@ == module_dir(entry_dir@, current@),
{
    match path_parent(current) {
        Some(p) => p,
        None => text_of(entry_dir),
    }
}

/// The module itself for `@self` (or `.`): a directory module stands for its directory.
pub open spec fn self_module(entry_dir: Seq<char>, current: Seq<char>) -> Seq<char> {
    if is_init_file(current) { module_dir(entry_dir, current) } else { current }
}

fn self_module_of(entry_dir: &str, current: &str) -> (r: String)
    ensures
        r@ == self_module(entry_dir@, current@),
{
    if is_init_module(current) {
        module_dir_of(entry_dir, current)
    } else {
        text_of(current)
    }
}

/// `rest` without one leading `/`.
pub open spec fn without_slash(rest: Seq<char>) -> Seq<char> {
    if rest.len() > 0 && rest[0] == '/' { rest.skip(1) } else { rest }
}

/// The base path of `@self` followed by `rest`.
pub open spec fn self_alias_base(entry_dir: Seq<char>, current: Seq<char>, rest: Seq<char>) -> Seq<char> {
    if rest.len() == 0 {
        self_module(entry_dir, current)
    } else {
        joined_path(module_dir(entry_dir, current), without_slash(rest))
    }
}

fn self_alias_base_of(entry_dir: &str, current: &str, rest: &str) -> (r: String)
    ensures
        r@ == self_alias_base(entry_dir@, current@, rest@),
{
    if rest.unicode_len() == 0 {
        self_module_of(entry_dir, current)
    } else {
        let dir = module_dir_of(entry_dir, current);
        let tail = if rest.get_char(0) == '/' { suffix_from(rest, 1) } else { rest };
        path_join(dir.as_str(), tail)
    }
}

/// Whether a specifier is relative to the requiring module (`./` or `../`).
pub open spec fn is_relative_spec(spec: Seq<char>) -> bool {
    "./"@.is_prefix_of(spec) || "../"@.is_prefix_of(spec)
}

/// Where `runtime.loadlib` looks for a library named by `spec`, from module `current`:
/// `@self/path` relative to the entry script's directory (`@self` alone is the module
/// itself), `./` and `../` paths relative to the working directory (kept as given),
/// absolute paths as given, anything else relative to the entry directory; other `@`
/// aliases are refused.
pub open spec fn loadlib_base(entry_dir: Seq<char>, current: Seq<char>, spec: Seq<char>) -> Result<
    Seq<char>,
    Seq<char>,
> {
    if "@self"@.is_prefix_of(spec) {
        let rest = spec.skip(5);
        if rest.len() == 0 {
            Ok(self_module(entry_dir, current))
        } else {
            Ok(joined_path(entry_dir, without_slash(rest)))
        }
    } else if is_relative_spec(spec) {
        Ok(spec)
    } else if spec.len() > 0 && spec[0] == '@' {
        Err("loadlib supports only @self aliases"@)
    } else if path_is_absolute_of(spec) {
        Ok(spec)
    } else {
        Ok(joined_path(entry_dir, spec))
    }
}

/// The base path of a library for `runtime.loadlib`.
pub fn resolve_loadlib_base(entry_dir: &str, current: &str, spec: &str) -> (r: Result<String, String>)
    ensures
        match (r, loadlib_base(entry_dir@, current@, spec@)) {
            (Ok(a), Ok(b)) => a@ == b,
            (Err(a), Err(b)) => a@ == b,
            _ => false,
        },
{
    proof {
        reveal_strlit("@self");
    }
    if starts_with(spec, "@self") {
        let rest = suffix_from(spec, 5);
        if rest.unicode_len() == 0 {
            Ok(self_module_of(entry_dir, current))
        } else {
            let tail = if rest.get_char(0) == '/' { suffix_from(rest, 1) } else { rest };
            Ok(path_join(entry_dir, tail))
        }
    } else if starts_with(spec, "./") || starts_with(spec, "../") {
        Ok(text_of(spec))
    } else if spec.unicode_len() > 0 && spec.get_char(0) == '@' {
        Err(text_of("loadlib supports only @self aliases"))
    } else if path_is_absolute(spec) {
        Ok(text_of(spec))
    } else {
        Ok(path_join(entry_dir, spec))
    }
}

/// The first step of resolving a `require` specifier: either a base path, or an alias
/// to look up in the `.luaurc` files above the requiring module's directory.
#[derive(Debug)]
pub enum SpecBase {
    Path(String),
    Alias { caller_dir: String, key: String, remain: String },
}

/// The alias name of `@name[/remain]`, up to the first `/`.
pub open spec fn alias_name(alias_spec: Seq<char>) -> Seq<char> {
    match crate::text::index_of(alias_spec, '/') {
        Some(k) => alias_spec.take(k),
        None => alias_spec,
    }
}

/// The path after the alias of `@name[/remain]`, empty without a `/`.
pub open spec fn alias_remain(alias_spec: Seq<char>) -> Seq<char> {
    match crate::text::index_of(alias_spec, '/') {
        Some(k) => alias_spec.skip(k + 1),
        None => Seq::empty(),
    }
}

/// How `require` turns `spec` into a base path from module `current`: `./` and `../`
/// relative to the module's directory, `.` and `@self[/rest]` relative to the module,
/// other `@name[/rest]` through the aliases, anything else relative to the entry
/// directory. `Ok` is a base path; `Err((dir, key, remain))` asks for alias `key` as seen
/// from `dir`.
pub open spec fn spec_base(entry_dir: Seq<char>, current: Seq<char>, spec: Seq<char>) -> Result<
    Seq<char>,
    (Seq<char>, Seq<char>, Seq<char>),
> {
    if is_relative_spec(spec) {
        Ok(joined_path(module_dir(entry_dir, current), spec))
    } else if spec == "."@ {
        Ok(self_module(entry_dir, current))
    } else if "@self"@.is_prefix_of(spec) {
        Ok(self_alias_base(entry_dir, current, spec.skip(5)))
    } else if spec.len() > 0 && spec[0] == '@' {
        Err(
            (
                module_dir(entry_dir, current),
                seq!['@'] + alias_name(spec.skip(1)),
                alias_remain(spec.skip(1)),
            ),
        )
    } else {
        Ok(joined_path(entry_dir, spec))
    }
}

/// The first step of resolving a `require` specifier.
pub fn resolve_spec_base(entry_dir: &str, current: &str, spec: &str) -> (r: SpecBase)
    ensures
        match (r, spec_base(entry_dir@, current@, spec@)) {
            (SpecBase::Path(a), Ok(b)) => a@ == b,
            (SpecBase::Alias { caller_dir, key, remain }, Err((d, k, m))) => caller_dir@ == d
                && key@ == k && remain@ == m,
            _ => false,
        },
{
    proof {
        reveal_strlit("@self");
        reveal_strlit(".");
    }
    if starts_with(spec, "./") || starts_with(spec, "../") {
        let dir = module_dir_of(entry_dir, current);
        SpecBase::Path(path_join(dir.as_str(), spec))
    } else if str_eq(spec, ".") {
        SpecBase::Path(self_module_of(entry_dir, current))
    } else if starts_with(spec, "@self") {
        let rest = suffix_from(spec, 5);
        SpecBase::Path(self_alias_base_of(entry_dir, current, rest))
    } else if spec.unicode_len() > 0 && spec.get_char(0) == '@' {
        let alias_spec = suffix_from(spec, 1);
        let n = alias_spec.unicode_len();
        proof {
            crate::text::lemma_index_of(alias_spec@, '/');
        }
        let (name, remain) = match crate::text::find_char(alias_spec, '/') {
            Some(k) => (alias_spec.substring_char(0, k), suffix_from(alias_spec, k + 1)),
            None => (alias_spec, alias_spec.substring_char(n, n)),
        };
        assert(name@ =~= alias_name(alias_spec@));
        assert(remain@ =~= alias_remain(alias_spec@));
        let mut key = text_of("@");
        push_str(&mut key, name);
        proof {
            reveal_strlit("@");
        }
        assert(key@ =~= seq!['@'] + alias_name(spec@.skip(1)));
        SpecBase::Alias { caller_dir: module_dir_of(entry_dir, current), key, remain: text_of(remain) }
    } else {
        SpecBase::Path(path_join(entry_dir, spec))
    }
}

/// The files tried for a base path, in order: the base itself when it has an extension;
/// otherwise bytecode, then source, as a file and then as a directory module.
pub open spec fn candidates(base: Seq<char>) -> Seq<Seq<char>> {
    if path_extension_of(base) is Some {
        seq![base]
    } else {
        seq![
            path_with_extension_of(base, "luauc"@),
            path_with_extension_of(base, "luau"@),
            path_with_extension_of(base, "lua"@),
            joined_path(base, "init.luauc"@),
            joined_path(base, "init.luau"@),
            joined_path(base, "init.lua"@),
        ]
    }
}

/// The candidate files for a base path.
pub fn candidate_paths(base: &str) -> (r: Vec<String>)
    ensures
        crate::text::views(r@) == candidates(base@),
{
    let mut out: Vec<String> = Vec::new();
    if path_extension(base).is_some() {
        out.push(text_of(base));
        assert(crate::text::views(out@) =~= candidates(base@));
        return out;
    }
    proof {
        reveal_strlit("luauc");
        reveal_strlit("luau");
        reveal_strlit("lua");
        assert(!"luauc"@.contains('/') && !"luauc"@.contains('\\')) by {
            assert(forall|i: int| 0 <= i < "luauc"@.len() ==> "luauc"@[i] != '/' && "luauc"@[i] != '\\');
        }
        assert(!"luau"@.contains('/') && !"luau"@.contains('\\')) by {
            assert(forall|i: int| 0 <= i < "luau"@.len() ==> "luau"@[i] != '/' && "luau"@[i] != '\\');
        }
        assert(!"lua"@.contains('/') && !"lua"@.contains('\\')) by {
            assert(forall|i: int| 0 <= i < "lua"@.len() ==> "lua"@[i] != '/' && "lua"@[i] != '\\');
        }
    }
    out.push(path_with_extension(base, "luauc"));
    out.push(path_with_extension(base, "luau"));
    out.push(path_with_extension(base, "lua"));
    out.push(path_join(base, "init.luauc"));
    out.push(path_join(base, "init.luau"));
    out.push(path_join(base, "init.lua"));
    assert(crate::text::views(out@) =~= candidates(base@));
    out
}

/// The message of a specifier that matched no file.
pub open spec fn not_found_message(spec: Seq<char>, current: Seq<char>) -> Seq<char> {
    "module '"@ + spec + "' not found from '"@ + current + "'"@
}

/// The message of a specifier that matched no file.
pub fn module_not_found_message(spec: &str, current: &str) -> (r: String)
    ensures
        r@ == not_found_message(spec@, current@),
{
    let mut r = text_of("module '");
    push_str(&mut r, spec);
    push_str(&mut r, "' not found from '");
    push_str(&mut r, current);
    push_str(&mut r, "'");
    r
}

/// The complaint about a path that does not exist.
pub fn path_missing_message(path: &str) -> (r: String)
    ensures
        r@ == "path does not exist: "@ + path@,
{
    let mut r = text_of("path does not exist: ");
    push_str(&mut r, path);
    r
}

/// The directories from the root down to `dir`, each the parent of the next.
pub open spec fn ancestors(dir: Seq<char>) -> Seq<Seq<char>>
    decreases dir.len(),
{
    match path_parent_of(dir) {
        Some(p) => if p.len() < dir.len() { ancestors(p).push(dir) } else { seq![dir] },
        None => seq![dir],
    }
}

/// The directories whose `.luaurc` files apply to `dir`, outermost first.
pub fn ancestor_dirs(dir: &str) -> (r: Vec<String>)
    ensures
        crate::text::views(r@) == ancestors(dir@),
    decreases dir@.len(),
{
    match path_parent(dir) {
        Some(p) => {
            let mut r = ancestor_dirs(p.as_str());
            r.push(text_of(dir));
            assert(crate::text::views(r@) =~= ancestors(p@).push(dir@));
            r
        },
        None => {
            let mut r: Vec<String> = Vec::new();
            r.push(text_of(dir));
            assert(crate::text::views(r@) =~= seq![dir@]);
            r
        },
    }
}

/// The position of the first candidate that exists.
pub open spec fn first_existing(found: Seq<(String, bool)>) -> Option<int>
    decreases found.len(),
{
    if found.len() == 0 {
        None
    } else if found[0].1 {
        Some(0)
    } else {
        match first_existing(found.skip(1)) {
            Some(k) => Some(k + 1),
            None => None,
        }
    }
}

/// The candidate paths of a search, without the answers.
pub open spec fn searched_of(found: Seq<(String, bool)>) -> Seq<Seq<char>> {
    found.map_values(|e: (String, bool)| e.0@)
}

proof fn lemma_first_existing(found: Seq<(String, bool)>)
    ensures
        match first_existing(found) {
            Some(k) => 0 <= k < found.len() && found[k].1
                && forall|j: int| 0 <= j < k ==> !(#[trigger] found[j]).1,
            None => forall|j: int| 0 <= j < found.len() ==> !(#[trigger] found[j]).1,
        },
    decreases found.len(),
{
    if found.len() > 0 {
        let rest = found.skip(1);
        lemma_first_existing(rest);
        assert forall|j: int| 1 <= j < found.len() implies found[j] == rest[j - 1] by {}
    }
}

/// Picks the module file among the candidates of a base path, each with whether it
/// exists, in the order they are tried: the first that exists, with the candidates tried
/// up to and including it (for the require chain). When none exists, the specifier
/// `spec` required from `current` is not found.
pub fn select_module_file(spec: &str, current: &str, found: &Vec<(String, bool)>) -> (r: Result<
    (String, Vec<String>),
    String,
>)
    ensures
        match first_existing(found@) {
            Some(k) => r matches Ok((file, searched)) && file@ == found@[k].0@
                && crate::text::views(searched@) == searched_of(found@).take(k + 1),
            None => r matches Err(m) && m@ == not_found_message(spec@, current@),
        },
{
    proof {
        lemma_first_existing(found@);
    }
    let mut searched: Vec<String> = Vec::new();
    let mut i: usize = 0;
    while i < found.len()
        invariant
            i <= found@.len(),
            forall|j: int| 0 <= j < i ==> !(#[trigger] found@[j]).1,
            crate::text::views(searched@) == searched_of(found@).take(i as int),
        decreases found@.len() - i,
    {
        searched.push(text_of(found[i].0.as_str()));
        assert(searched_of(found@).take(i + 1) =~= searched_of(found@).take(i as int).push(
            found@[i as int].0@,
        ));
        assert(crate::text::views(searched@) =~= searched_of(found@).take(i + 1));
        if found[i].1 {
            proof {
                lemma_first_existing(found@);
                match first_existing(found@) {
                    Some(k) => {
                        if k < i {
                            assert(found@[k].1);
                        } else if k > i {
                            assert(!found@[i as int].1);
                        }
                    },
                    None => {
                        assert(!found@[i as int].1);
                    },
                }
            }
            return Ok((text_of(found[i].0.as_str()), searched));
        }
        i = i + 1;
    }
    Err(module_not_found_message(spec, current))
}

} // verus!
