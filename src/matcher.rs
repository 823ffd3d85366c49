//! Deciding whether a directory entry is a cleanable artifact: by catalog name or
//! glob, by extension, or by the rules of a `.gitignore` file.
use vstd::prelude::*;
use vstd::string::*;
use crate::catalog::{Catalog, CatalogView, lookup};
use crate::text::{
    chars_of, ends_with, has_infix, last_index_before, last_index_of, last_index_of_exec, opt_chars, prefix_to,
    starts_with, str_contains, str_contains_char, str_ends_with, str_eq, str_starts_with,
    suffix_from, lemma_last_index_before,
};

verus! {

/// Whether `name` matches the Unix shell pattern `pattern`, as the glob crate decides it.
pub uninterp spec fn glob_match(pattern: Seq<char>, name: Seq<char>) -> bool;

/// Relies on glob::Pattern::new and glob::Pattern::matches: whether `name` matches the
/// shell pattern `pattern` with the default options, false when the pattern does not
/// compile. The answer depends on the two strings alone.
#[verifier::external_body]
pub(crate) fn match_glob_pattern(pattern: &str, name: &str) -> (r: bool)
    ensures
        r == glob_match(pattern@, name@),
{
    match glob::Pattern::new(pattern) {
        Ok(glob) => glob.matches(name),
        Err(_) => false,
    }
}

/// The final component of a `/`-separated path, as std's `Path::file_name` gives it on
/// Unix: trailing `/` and `.` parts do not count, and a final `..` or no part at all gives
/// nothing.
pub open spec fn file_name_of(path: Seq<char>) -> Option<Seq<char>>
    decreases path.len(),
{
    if path.len() == 0 {
        None
    } else if path.last() == '/' {
        file_name_of(path.drop_last())
    } else if path.last() == '.' && (path.len() == 1 || path[path.len() - 2] == '/') {
        file_name_of(path.drop_last())
    } else {
        let seg = path.subrange(last_index_of(path, '/') + 1, path.len() as int);
        if seg == ".."@ {
            None
        } else {
            Some(seg)
        }
    }
}

/// The final component of `path`, if it has one (see [`file_name_of`]).
pub fn path_file_name(path: &str) -> (r: Option<String>)
    ensures
        opt_chars(r) == file_name_of(path@),
{
    let chars = chars_of(path);
    let mut k: usize = chars.len();
    assert(path@.subrange(0, path@.len() as int) =~= path@);
    while k > 0 && (chars[k - 1] == '/' || (chars[k - 1] == '.' && (k == 1 || chars[k - 2] == '/')))
        invariant
            chars@ == path@,
            k <= chars@.len(),
            file_name_of(path@.subrange(0, k as int)) == file_name_of(path@),
        decreases k,
    {
        assert(path@.subrange(0, k as int).drop_last() =~= path@.subrange(0, k - 1));
        k = k - 1;
    }
    if k == 0 {
        return None;
    }
    let ghost q = path@.subrange(0, k as int);
    let mut j: usize = k;
    while j > 0 && chars[j - 1] != '/'
        invariant
            chars@ == path@,
            j <= k <= chars@.len(),
            q == path@.subrange(0, k as int),
            last_index_before(q, '/', j as int) == last_index_before(q, '/', k as int),
        decreases j,
    {
        j = j - 1;
    }
    let seg = path.substring_char(j, k);
    assert(seg@ =~= q.subrange(last_index_of(q, '/') + 1, q.len() as int));
    if str_eq(seg, "..") {
        None
    } else {
        Some(String::from_str(seg))
    }
}

/// What std's `str::trim` leaves of a line.
pub uninterp spec fn trim_of(s: Seq<char>) -> Seq<char>;

/// Relies on str::trim: `s` without leading and trailing white space; an empty string
/// stays empty.
#[verifier::external_body]
pub(crate) fn trim_text(s: &str) -> (r: String)
    ensures
        r@ == trim_of(s@),
        s@.len() == 0 ==> r@.len() == 0,
{
    s.trim().to_string()
}

/// A key holding `*` is a glob; any other key is an exact name.
pub open spec fn is_glob(key: Seq<char>) -> bool {
    key.contains('*')
}

/// Whether one catalog key accepts an entry name.
pub open spec fn key_matches(key: Seq<char>, name: Seq<char>) -> bool {
    if is_glob(key) {
        glob_match(key, name)
    } else {
        key == name
    }
}

/// The description of the first entry at or after `i` whose key accepts `name`.
pub open spec fn first_match_from(cat: CatalogView, name: Seq<char>, i: int) -> Option<Seq<char>>
    decreases cat.len() - i,
{
    if i < 0 || i >= cat.len() {
        None
    } else if key_matches(cat[i].0, name) {
        Some(cat[i].1)
    } else {
        first_match_from(cat, name, i + 1)
    }
}

/// The catalog key `*.<ext>` for the final extension of `name`.
pub open spec fn extension_key(name: Seq<char>) -> Seq<char> {
    seq!['*', '.'] + name.subrange(last_index_of(name, '.') + 1, name.len() as int)
}

/// The category of an entry name: the first catalog entry that accepts it, else the
/// entry stored under `*.<ext>` for its final extension.
pub open spec fn match_name(cat: CatalogView, name: Seq<char>) -> Option<Seq<char>> {
    match first_match_from(cat, name, 0) {
        Some(d) => Some(d),
        None => if name.contains('.') {
            lookup(cat, extension_key(name))
        } else {
            None
        },
    }
}

/// Hidden entries (a leading `.`) other than `.git` are left out of a catalog scan,
/// subtrees included.
pub open spec fn hidden_excluded(name: Seq<char>) -> bool {
    starts_with(name, "."@) && name != ".git"@
}

/// `p` without its trailing `/` characters.
pub open spec fn trim_end_slashes(p: Seq<char>) -> Seq<char>
    decreases p.len(),
{
    if p.len() > 0 && p.last() == '/' {
        trim_end_slashes(p.drop_last())
    } else {
        p
    }
}

/// The base name of a relative path, empty when it has none.
pub open spec fn base_name(path: Seq<char>) -> Seq<char> {
    match file_name_of(path) {
        Some(n) => n,
        None => Seq::empty(),
    }
}

/// Whether one `.gitignore` rule accepts a path relative to the scan root.
pub open spec fn gitignore_matches(pattern: Seq<char>, path: Seq<char>) -> bool {
    if ends_with(pattern, "/"@) {
        let t = trim_end_slashes(pattern);
        path == t || starts_with(path, t + "/"@)
    } else if pattern.contains('*') {
        glob_match(pattern, base_name(path)) || glob_match(pattern, path)
    } else {
        path == pattern || has_infix(path, pattern) || ends_with(path, "/"@ + pattern)
    }
}

/// The rule that a line of a `.gitignore` file gives: blank lines, comments and
/// negations give none.
pub open spec fn rule_of_line(line: Seq<char>) -> Option<Seq<char>> {
    let t = trim_of(line);
    if t.len() > 0 && t[0] != '#' && t[0] != '!' {
        Some(t)
    } else {
        None
    }
}

/// The rules of a `.gitignore` file given as its lines, in order.
pub open spec fn gitignore_rules_of(lines: Seq<Seq<char>>) -> Seq<Seq<char>>
    decreases lines.len(),
{
    if lines.len() == 0 {
        Seq::empty()
    } else {
        let prev = gitignore_rules_of(lines.drop_last());
        match rule_of_line(lines.last()) {
            Some(r) => prev.push(r),
            None => prev,
        }
    }
}

/// Whether a catalog key accepts `name`: a glob by glob matching, any other key by
/// equality.
pub fn pattern_matches(key: &str, name: &str) -> (r: bool)
    ensures
        r == key_matches(key@, name@),
{
    if str_contains_char(key, '*') {
        match_glob_pattern(key, name)
    } else {
        str_eq(key, name)
    }
}

/// The catalog key `*.<ext>` for the final extension of `name`, when it has a `.`.
pub fn extension_key_of(name: &str) -> (r: Option<String>)
    ensures
        name@.contains('.') ==> r is Some && r->0@ == extension_key(name@),
        !name@.contains('.') ==> r is None,
{
    let chars = chars_of(name);
    proof {
        lemma_last_index_before(name@, '.', name@.len() as int);
        assert(name@.subrange(0, name@.len() as int) =~= name@);
    }
    match last_index_of_exec(&chars, '.') {
        Some(i) => {
            let mut key = String::from_str("*.");
            assert(i < chars.len());
            let ext = suffix_from(name, i + 1);
            key.append(ext.as_str());
            proof {
                reveal_strlit("*.");
            }
            assert(key@ =~= extension_key(name@));
            Some(key)
        },
        None => None,
    }
}

/// The category of a directory entry's name under `catalog`: the description of the
/// first entry whose key accepts it, else that of the key `*.<ext>` for the name's
/// final extension.
pub fn match_entry(name: &str, catalog: &Catalog) -> (r: Option<String>)
    ensures
        opt_chars(r) == match_name(catalog@, name@),
{
    let mut i: usize = 0;
    while i < catalog.len()
        invariant
            i <= catalog@.len(),
            first_match_from(catalog@, name@, i as int) == first_match_from(catalog@, name@, 0),
        decreases catalog@.len() - i,
    {
        if pattern_matches(catalog.key(i), name) {
            return Some(String::from_str(catalog.description(i)));
        }
        i = i + 1;
    }
    match extension_key_of(name) {
        Some(key) => match catalog.get(key.as_str()) {
            Some(d) => Some(String::from_str(d)),
            None => None,
        },
        None => None,
    }
}

/// Whether a catalog scan leaves out an entry with this name, and all beneath it.
pub fn is_hidden_excluded(name: &str) -> (r: bool)
    ensures
        r == hidden_excluded(name@),
{
    str_starts_with(name, ".") && !str_eq(name, ".git")
}

/// `pattern` without its trailing `/` characters.
pub fn trim_trailing_slashes(pattern: &str) -> (r: String)
    ensures
        r@ == trim_end_slashes(pattern@),
{
    let chars = chars_of(pattern);
    let mut k: usize = chars.len();
    assert(pattern@.subrange(0, pattern@.len() as int) =~= pattern@);
    while k > 0 && chars[k - 1] == '/'
        invariant
            k <= chars@.len(),
            chars@ == pattern@,
            trim_end_slashes(pattern@.subrange(0, k as int)) == trim_end_slashes(pattern@),
        decreases k,
    {
        assert(pattern@.subrange(0, k as int).drop_last() =~= pattern@.subrange(0, k - 1));
        k = k - 1;
    }
    prefix_to(pattern, k)
}

/// Whether one `.gitignore` rule accepts `path`, a path relative to the scan root: a rule
/// ending in `/` takes that directory and what is beneath it; a rule with `*` is a glob on
/// the base name or the whole path; any other rule takes a path equal to it, holding it,
/// or ending in `/` and it.
pub fn matches_gitignore_pattern(pattern: &str, path: &str) -> (r: bool)
    ensures
        r == gitignore_matches(pattern@, path@),
{
    if str_ends_with(pattern, "/") {
        let t = trim_trailing_slashes(pattern);
        let mut dir = String::from_str(t.as_str());
        dir.append("/");
        str_eq(path, t.as_str()) || str_starts_with(path, dir.as_str())
    } else if str_contains_char(pattern, '*') {
        let base = match path_file_name(path) {
            Some(n) => n,
            None => String::new(),
        };
        match_glob_pattern(pattern, base.as_str()) || match_glob_pattern(pattern, path)
    } else {
        let mut tail = String::from_str("/");
        tail.append(pattern);
        str_eq(path, pattern) || str_contains(path, pattern) || str_ends_with(path, tail.as_str())
    }
}

/// The rules of a `.gitignore` file given as its lines: each line trimmed, blank lines,
/// `#` comments and `!` negations left out.
pub fn gitignore_patterns(lines: &Vec<String>) -> (r: Vec<String>)
    ensures
        r@.map_values(|s: String| s@) == gitignore_rules_of(lines@.map_values(|s: String| s@)),
{
    let ghost lv = lines@.map_values(|s: String| s@);
    let mut r: Vec<String> = Vec::new();
    let mut i: usize = 0;
    while i < lines.len()
        invariant
            i <= lines@.len(),
            lv == lines@.map_values(|s: String| s@),
            r@.map_values(|s: String| s@) == gitignore_rules_of(lv.subrange(0, i as int)),
        decreases lines.len() - i,
    {
        let t = trim_text(lines[i].as_str());
        assert(lv.subrange(0, i + 1).drop_last() =~= lv.subrange(0, i as int));
        let n = t.as_str().unicode_len();
        if n > 0 {
            let c = t.as_str().get_char(0);
            if c != '#' && c != '!' {
                r.push(t);
                assert(r@.map_values(|s: String| s@) =~= gitignore_rules_of(lv.subrange(0, i as int)).push(trim_of(lv[i as int])));
            }
        }
        i = i + 1;
    }
    assert(lv.subrange(0, lines@.len() as int) =~= lv);
    r
}

proof fn lemma_first_match_at(cat: CatalogView, name: Seq<char>, j: int, i: int)
    requires
        0 <= j <= i < cat.len(),
        key_matches(cat[i].0, name),
        forall|k: int| j <= k < i ==> !key_matches(#[trigger] cat[k].0, name),
    ensures
        first_match_from(cat, name, j) == Some(cat[i].1),
    decreases i - j,
{
    if j < i {
        lemma_first_match_at(cat, name, j + 1, i);
    }
}

proof fn lemma_first_match_some(cat: CatalogView, name: Seq<char>, j: int, i: int)
    requires
        0 <= j <= i < cat.len(),
        key_matches(cat[i].0, name),
    ensures
        first_match_from(cat, name, j) is Some,
    decreases i - j,
{
    if j < i && !key_matches(cat[j].0, name) {
        lemma_first_match_some(cat, name, j + 1, i);
    }
}

/// An entry named exactly like an exact-name key of the catalog is matched with that
/// key's description, provided no earlier entry of the catalog accepts the name too
/// (first match wins).
pub proof fn lemma_exact_key_matched(cat: CatalogView, i: int)
    requires
        0 <= i < cat.len(),
        !is_glob(cat[i].0),
        forall|j: int| 0 <= j < i ==> !key_matches(#[trigger] cat[j].0, cat[i].0),
    ensures
        match_name(cat, cat[i].0) == Some(cat[i].1),
{
    lemma_first_match_at(cat, cat[i].0, 0, i);
}

/// Any name that a glob key of the catalog accepts is matched.
pub proof fn lemma_glob_key_matched(cat: CatalogView, i: int, name: Seq<char>)
    requires
        0 <= i < cat.len(),
        is_glob(cat[i].0),
        glob_match(cat[i].0, name),
    ensures
        match_name(cat, name) is Some,
{
    lemma_first_match_some(cat, name, 0, i);
}

/// A name `<stem>.<ext>` is matched when the catalog holds the key `*.<ext>`, whatever
/// the stem: the extension fallback finds it if nothing else does.
pub proof fn lemma_extension_matched(cat: CatalogView, stem: Seq<char>, ext: Seq<char>)
    requires
        !ext.contains('.'),
        lookup(cat, seq!['*', '.'] + ext) is Some,
    ensures
        match_name(cat, stem + seq!['.'] + ext) is Some,
{
    let name = stem + seq!['.'] + ext;
    let d = stem.len() as int;
    assert(name[d] == '.');
    assert(name.contains('.'));
    lemma_last_index_before(name, '.', name.len() as int);
    let r = last_index_of(name, '.');
    assert forall|j: int| d < j < name.len() implies name[j] != '.' by {
        assert(name[j] == ext[j - d - 1]);
    }
    if r < d {
        assert(name[d] != '.');
    }
    assert(r == d);
    assert(name.subrange(d + 1, name.len() as int) =~= ext);
    assert(extension_key(name) =~= seq!['*', '.'] + ext);
}

} // verus!
