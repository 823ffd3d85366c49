//! The tree walker's matching stage and the size resolver's planning and summing, over
//! a directory listing that the caller has read.
use vstd::prelude::*;
use vstd::string::*;
use crate::catalog::{Catalog, CatalogView, lookup};
use crate::matcher::{
    gitignore_matches, glob_match, hidden_excluded, is_glob, is_hidden_excluded, key_matches,
    lemma_exact_key_matched, lemma_extension_matched, lemma_glob_key_matched, match_entry, match_name,
    matches_gitignore_pattern,
};
use crate::models::{CleanableItem, EntryView, ItemView, WalkEntry, items_view, saturated};

verus! {

/// The entry lies below the root, at most `max_depth` levels down.
pub open spec fn in_depth(e: EntryView, max_depth: nat) -> bool {
    1 <= e.components.len() <= max_depth
}

/// No component of the entry's path below the root is an excluded hidden name.
pub open spec fn visible(e: EntryView) -> bool {
    forall|i: int| 0 <= i < e.components.len() ==> !#[trigger] hidden_excluded(e.components[i])
}

/// The size known at discovery: a file's length; 0 for anything else.
pub open spec fn discovered_size(e: EntryView) -> u64 {
    if e.is_file { e.len } else { 0 }
}

/// The item that a catalog scan makes of one entry, if any.
pub open spec fn catalog_item(e: EntryView, cat: CatalogView, max_depth: nat) -> Option<ItemView> {
    if in_depth(e, max_depth) && visible(e) {
        match match_name(cat, e.components.last()) {
            Some(d) => Some(
                ItemView { path: e.path, item_type: d, size: discovered_size(e), info: d, selected: false },
            ),
            None => None,
        }
    } else {
        None
    }
}

/// The path of an entry relative to the root: its components joined by `/`.
pub open spec fn join_path(comps: Seq<Seq<char>>) -> Seq<char>
    decreases comps.len(),
{
    if comps.len() == 0 {
        Seq::empty()
    } else if comps.len() == 1 {
        comps[0]
    } else {
        join_path(comps.drop_last()) + "/"@ + comps.last()
    }
}

/// The first rule at or after `i` that accepts `rel`.
pub open spec fn first_rule_from(rules: Seq<Seq<char>>, rel: Seq<char>, i: int) -> Option<Seq<char>>
    decreases rules.len() - i,
{
    if i < 0 || i >= rules.len() {
        None
    } else if gitignore_matches(rules[i], rel) {
        Some(rules[i])
    } else {
        first_rule_from(rules, rel, i + 1)
    }
}

/// The item that a `.gitignore` scan makes of one entry, if any.
pub open spec fn gitignore_item(e: EntryView, rules: Seq<Seq<char>>, max_depth: nat) -> Option<ItemView> {
    if in_depth(e, max_depth) {
        match first_rule_from(rules, join_path(e.components), 0) {
            Some(p) => Some(
                ItemView {
                    path: e.path,
                    item_type: "Gitignore pattern: "@ + p,
                    size: discovered_size(e),
                    info: "Matches .gitignore pattern"@,
                    selected: false,
                },
            ),
            None => None,
        }
    } else {
        None
    }
}

/// The items that `f` makes of the entries, in listing order.
pub open spec fn filter_items(entries: Seq<EntryView>, f: spec_fn(EntryView) -> Option<ItemView>) -> Seq<ItemView>
    decreases entries.len(),
{
    if entries.len() == 0 {
        Seq::empty()
    } else {
        let prev = filter_items(entries.drop_last(), f);
        match f(entries.last()) {
            Some(x) => prev.push(x),
            None => prev,
        }
    }
}

/// Some item of `items` has path `p`.
pub open spec fn has_path(items: Seq<ItemView>, p: Seq<char>) -> bool {
    exists|j: int| 0 <= j < items.len() && (#[trigger] items[j]).path == p
}

/// The items with the later repeats of a path left out.
pub open spec fn dedup_paths(items: Seq<ItemView>) -> Seq<ItemView>
    decreases items.len(),
{
    if items.len() == 0 {
        Seq::empty()
    } else {
        let d = dedup_paths(items.drop_last());
        if has_path(d, items.last().path) {
            d
        } else {
            d.push(items.last())
        }
    }
}

/// The models of a listing.
pub open spec fn entries_view(entries: Seq<WalkEntry>) -> Seq<EntryView> {
    entries.map_values(|e: WalkEntry| e@)
}

/// What a catalog scan of a listing finds.
pub open spec fn catalog_scan(entries: Seq<EntryView>, cat: CatalogView, max_depth: nat) -> Seq<ItemView> {
    filter_items(entries, |e: EntryView| catalog_item(e, cat, max_depth))
}

/// What a `.gitignore` scan of a listing finds, before repeats of a path are dropped.
pub open spec fn gitignore_scan(entries: Seq<EntryView>, rules: Seq<Seq<char>>, max_depth: nat) -> Seq<ItemView> {
    filter_items(entries, |e: EntryView| gitignore_item(e, rules, max_depth))
}

/// Whether the entry lies within `max_depth` below the root.
fn entry_in_depth(e: &WalkEntry, max_depth: usize) -> (r: bool)
    ensures
        r == in_depth(e@, max_depth as nat),
{
    e.components.len() >= 1 && e.components.len() <= max_depth
}

/// Whether no component of the entry's path is an excluded hidden name.
pub fn entry_visible(e: &WalkEntry) -> (r: bool)
    ensures
        r == visible(e@),
{
    let mut i: usize = 0;
    while i < e.components.len()
        invariant
            i <= e.components@.len(),
            forall|j: int| 0 <= j < i ==> !#[trigger] hidden_excluded(e@.components[j]),
        decreases e.components.len() - i,
    {
        if is_hidden_excluded(e.components[i].as_str()) {
            assert(hidden_excluded(e@.components[i as int]));
            return false;
        }
        i = i + 1;
    }
    true
}

fn entry_size(e: &WalkEntry) -> (r: u64)
    ensures
        r == discovered_size(e@),
{
    if e.is_file { e.len } else { 0 }
}

/// The path of an entry relative to the root, components joined by `/`.
pub fn relative_path(e: &WalkEntry) -> (r: String)
    ensures
        r@ == join_path(e@.components),
{
    let ghost comps = e@.components;
    let mut r = String::new();
    let mut i: usize = 0;
    while i < e.components.len()
        invariant
            i <= comps.len(),
            comps == e@.components,
            r@ == join_path(comps.subrange(0, i as int)),
        decreases e.components.len() - i,
    {
        assert(comps.subrange(0, i + 1).drop_last() =~= comps.subrange(0, i as int));
        if i > 0 {
            r.append("/");
        }
        r.append(e.components[i].as_str());
        i = i + 1;
    }
    assert(comps.subrange(0, comps.len() as int) =~= comps);
    r
}

/// The first rule that accepts `rel`, if any.
fn first_rule(rules: &Vec<String>, rel: &str) -> (r: Option<usize>)
    ensures
        match r {
            Some(i) => i < rules@.len() && first_rule_from(rules@.map_values(|s: String| s@), rel@, 0) == Some(rules@[i as int]@),
            None => first_rule_from(rules@.map_values(|s: String| s@), rel@, 0) is None,
        },
{
    let ghost rv = rules@.map_values(|s: String| s@);
    let mut i: usize = 0;
    while i < rules.len()
        invariant
            i <= rules@.len(),
            rv == rules@.map_values(|s: String| s@),
            first_rule_from(rv, rel@, i as int) == first_rule_from(rv, rel@, 0),
        decreases rules.len() - i,
    {
        if matches_gitignore_pattern(rules[i].as_str(), rel) {
            return Some(i);
        }
        i = i + 1;
    }
    None
}

/// The items that a catalog scan finds in a listing, in listing order: each entry within
/// `max_depth` whose path holds no excluded hidden name and whose name the catalog
/// accepts, with the catalog's description as category and info.
pub fn scan_cleanable_items(entries: &Vec<WalkEntry>, catalog: &Catalog, max_depth: usize) -> (r: Vec<CleanableItem>)
    ensures
        items_view(r@) == catalog_scan(entries_view(entries@), catalog@, max_depth as nat),
{
    let ghost ev = entries_view(entries@);
    let ghost f = |e: EntryView| catalog_item(e, catalog@, max_depth as nat);
    let mut r: Vec<CleanableItem> = Vec::new();
    let mut i: usize = 0;
    while i < entries.len()
        invariant
            i <= entries@.len(),
            ev == entries_view(entries@),
            f == (|e: EntryView| catalog_item(e, catalog@, max_depth as nat)),
            items_view(r@) == filter_items(ev.subrange(0, i as int), f),
        decreases entries.len() - i,
    {
        let e = &entries[i];
        assert(ev.subrange(0, i + 1).drop_last() =~= ev.subrange(0, i as int));
        assert(ev.subrange(0, i + 1).last() == e@);
        if entry_in_depth(e, max_depth) && entry_visible(e) {
            let name = e.components[e.components.len() - 1].as_str();
            match match_entry(name, catalog) {
                Some(d) => {
                    let item = CleanableItem::new(e.path.clone(), d.clone(), entry_size(e), d);
                    r.push(item);
                    assert(items_view(r@) =~= filter_items(ev.subrange(0, i as int), f).push(item@));
                },
                None => {},
            }
        }
        i = i + 1;
    }
    assert(ev.subrange(0, entries@.len() as int) =~= ev);
    r
}

/// The items that a `.gitignore` scan finds in a listing, in listing order, repeats of a
/// path included: each entry within `max_depth` whose path relative to the root some rule
/// accepts, with the first such rule named in its category.
pub fn match_gitignore_entries(entries: &Vec<WalkEntry>, rules: &Vec<String>, max_depth: usize) -> (r: Vec<CleanableItem>)
    ensures
        items_view(r@) == gitignore_scan(entries_view(entries@), rules@.map_values(|s: String| s@), max_depth as nat),
{
    let ghost ev = entries_view(entries@);
    let ghost rv = rules@.map_values(|s: String| s@);
    let ghost f = |e: EntryView| gitignore_item(e, rv, max_depth as nat);
    let mut r: Vec<CleanableItem> = Vec::new();
    let mut i: usize = 0;
    while i < entries.len()
        invariant
            i <= entries@.len(),
            ev == entries_view(entries@),
            rv == rules@.map_values(|s: String| s@),
            f == (|e: EntryView| gitignore_item(e, rv, max_depth as nat)),
            items_view(r@) == filter_items(ev.subrange(0, i as int), f),
        decreases entries.len() - i,
    {
        let e = &entries[i];
        assert(ev.subrange(0, i + 1).drop_last() =~= ev.subrange(0, i as int));
        assert(ev.subrange(0, i + 1).last() == e@);
        if entry_in_depth(e, max_depth) {
            let rel = relative_path(e);
            match first_rule(rules, rel.as_str()) {
                Some(k) => {
                    let mut category = String::from_str("Gitignore pattern: ");
                    category.append(rules[k].as_str());
                    let info = String::from_str("Matches .gitignore pattern");
                    let item = CleanableItem::new(e.path.clone(), category, entry_size(e), info);
                    r.push(item);
                    assert(items_view(r@) =~= filter_items(ev.subrange(0, i as int), f).push(item@));
                },
                None => {},
            }
        }
        i = i + 1;
    }
    assert(ev.subrange(0, entries@.len() as int) =~= ev);
    r
}

/// Whether some item of `items` has path `p`.
fn contains_path(items: &Vec<CleanableItem>, p: &String) -> (r: bool)
    ensures
        r == has_path(items_view(items@), p@),
{
    let mut j: usize = 0;
    while j < items.len()
        invariant
            j <= items@.len(),
            forall|k: int| 0 <= k < j ==> items@[k].path@ != p@,
        decreases items.len() - j,
    {
        if items[j].path == *p {
            assert(items_view(items@)[j as int].path == p@);
            return true;
        }
        j = j + 1;
    }
    assert forall|k: int| 0 <= k < items_view(items@).len() implies (#[trigger] items_view(items@)[k]).path != p@ by {
        assert(items_view(items@)[k] == items@[k]@);
    }
    false
}

/// The items with the later repeats of a path left out; the rest keep their order.
pub fn dedup_by_path(items: Vec<CleanableItem>) -> (r: Vec<CleanableItem>)
    ensures
        items_view(r@) == dedup_paths(items_view(items@)),
{
    let ghost iv = items_view(items@);
    let mut r: Vec<CleanableItem> = Vec::new();
    let mut i: usize = 0;
    while i < items.len()
        invariant
            i <= items@.len(),
            iv == items_view(items@),
            items_view(r@) == dedup_paths(iv.subrange(0, i as int)),
        decreases items.len() - i,
    {
        assert(iv.subrange(0, i + 1).drop_last() =~= iv.subrange(0, i as int));
        assert(iv.subrange(0, i + 1).last() == items@[i as int]@);
        if !contains_path(&r, &items[i].path) {
            let item = items[i].duplicate();
            r.push(item);
            assert(items_view(r@) =~= dedup_paths(iv.subrange(0, i as int)).push(item@));
        }
        i = i + 1;
    }
    assert(iv.subrange(0, items@.len() as int) =~= iv);
    r
}

/// The items that a `.gitignore` scan finds in a listing: the rules' matches in listing
/// order, each path once.
pub fn scan_gitignore_items(entries: &Vec<WalkEntry>, rules: &Vec<String>, max_depth: usize) -> (r: Vec<CleanableItem>)
    ensures
        items_view(r@) == dedup_paths(
            gitignore_scan(entries_view(entries@), rules@.map_values(|s: String| s@), max_depth as nat),
        ),
{
    dedup_by_path(match_gitignore_entries(entries, rules, max_depth))
}

/// The tree walker's result on a listing of the root: in `.gitignore` mode the rules'
/// matches, each path once; otherwise the catalog's matches.
pub fn scan_directory(
    entries: &Vec<WalkEntry>,
    use_gitignore: bool,
    catalog: &Catalog,
    gitignore_rules: &Vec<String>,
    max_depth: usize,
) -> (r: Vec<CleanableItem>)
    ensures
        use_gitignore ==> items_view(r@) == dedup_paths(
            gitignore_scan(entries_view(entries@), gitignore_rules@.map_values(|s: String| s@), max_depth as nat),
        ),
        !use_gitignore ==> items_view(r@) == catalog_scan(entries_view(entries@), catalog@, max_depth as nat),
{
    if use_gitignore {
        scan_gitignore_items(entries, gitignore_rules, max_depth)
    } else {
        scan_cleanable_items(entries, catalog, max_depth)
    }
}

/// `s` cut into consecutive pieces of `size` elements, the last one possibly shorter.
pub open spec fn chunks_of_size<A>(s: Seq<A>, size: nat) -> Seq<Seq<A>>
    decreases s.len(),
{
    if s.len() == 0 || size == 0 {
        Seq::empty()
    } else if s.len() <= size {
        seq![s]
    } else {
        seq![s.take(size as int)] + chunks_of_size(s.skip(size as int), size)
    }
}

/// The piece size used to share `len` elements among `count` workers.
pub open spec fn chunk_size_for(len: nat, count: nat) -> nat {
    if len == 0 { 0 } else { len / count + 1 }
}

/// `s` shared among `count` workers in consecutive pieces.
pub open spec fn split_chunks<A>(s: Seq<A>, count: nat) -> Seq<Seq<A>> {
    chunks_of_size(s, chunk_size_for(s.len(), count))
}

proof fn lemma_chunk_count_bound(n: int, k: int, size: int, len: int)
    requires
        k > 0,
        n > 0,
        size == n / k + 1,
        len >= 1,
        (len - 1) * size < n,
    ensures
        len <= k,
{
    vstd::arithmetic::div_mod::lemma_fundamental_div_mod(n, k);
    vstd::arithmetic::div_mod::lemma_mod_pos_bound(n, k);
    assert(n < size * k) by (nonlinear_arith)
        requires
            size == n / k + 1,
            n == k * (n / k) + n % k,
            n % k < k,
    {}
    assert(len <= k) by (nonlinear_arith)
        requires
            (len - 1) * size < n,
            n < size * k,
            size > 0,
    {}
}

/// Cuts `items` into at most `chunk_count` consecutive pieces of `len / chunk_count + 1`
/// elements (the last one possibly shorter), one per worker; no piece is empty.
pub fn split_into_chunks<T>(items: Vec<T>, chunk_count: usize) -> (r: Vec<Vec<T>>)
    requires
        chunk_count > 0,
    ensures
        r@.map_values(|c: Vec<T>| c@) == split_chunks(items@, chunk_count as nat),
        r@.len() <= chunk_count,
{
    let n = items.len();
    let ghost all = items@;
    let mut chunks: Vec<Vec<T>> = Vec::new();
    if n == 0 {
        assert(chunks@.map_values(|c: Vec<T>| c@) =~= split_chunks(all, chunk_count as nat));
        return chunks;
    }
    if n / chunk_count == usize::MAX {
        chunks.push(items);
        assert(chunks@.map_values(|c: Vec<T>| c@) =~= split_chunks(all, chunk_count as nat));
        return chunks;
    }
    let size: usize = n / chunk_count + 1;
    let mut rest = items;
    while rest.len() > 0
        invariant
            n == all.len(),
            n > 0,
            chunk_count > 0,
            size == n / chunk_count + 1,
            chunks@.map_values(|c: Vec<T>| c@) + chunks_of_size(rest@, size as nat) == chunks_of_size(all, size as nat),
            rest@.len() > 0 ==> chunks@.len() * size + rest@.len() == n,
            rest@.len() == 0 ==> chunks@.len() >= 1 && (chunks@.len() - 1) * size < n,
        decreases rest.len(),
    {
        let ghost before = chunks@.map_values(|c: Vec<T>| c@);
        let ghost rest_before = rest@;
        if rest.len() <= size {
            chunks.push(rest);
            rest = Vec::new();
            assert(chunks@.map_values(|c: Vec<T>| c@) =~= before + seq![rest_before]);
            assert((chunks@.len() - 1) * size < n) by (nonlinear_arith)
                requires
                    (chunks@.len() - 1) * size + rest_before.len() == n,
                    rest_before.len() > 0,
            {}
        } else {
            let tail = rest.split_off(size);
            chunks.push(rest);
            rest = tail;
            assert(chunks@.map_values(|c: Vec<T>| c@) =~= before + seq![rest_before.take(size as int)]);
            assert(rest@ =~= rest_before.skip(size as int));
            assert(chunks@.map_values(|c: Vec<T>| c@) + chunks_of_size(rest@, size as nat) =~= before + chunks_of_size(rest_before, size as nat));
            assert(chunks@.len() * size + rest@.len() == n) by (nonlinear_arith)
                requires
                    chunks@.len() == before.len() + 1,
                    before.len() * size + rest_before.len() == n,
                    rest@.len() == rest_before.len() - size,
            {}
        }
    }
    proof {
        lemma_chunk_count_bound(n as int, chunk_count as int, size as int, chunks@.len() as int);
        assert(chunks@.map_values(|c: Vec<T>| c@) + chunks_of_size(rest@, size as nat) =~= chunks@.map_values(|c: Vec<T>| c@));
    }
    chunks
}

/// The same sharing of work, for the `.gitignore` scan's listing.
pub fn split_into_chunks_ignore<T>(items: Vec<T>, chunk_count: usize) -> (r: Vec<Vec<T>>)
    requires
        chunk_count > 0,
    ensures
        r@.map_values(|c: Vec<T>| c@) == split_chunks(items@, chunk_count as nat),
        r@.len() <= chunk_count,
{
    split_into_chunks(items, chunk_count)
}

/// Relies on num_cpus::get: the number of CPUs this process may use, which is always at
/// least 1.
#[verifier::external_body]
fn available_cpus() -> (r: usize)
    ensures
        r >= 1,
{
    num_cpus::get()
}

/// The number of workers for a machine with `cpus` CPUs: one per CPU, at least two.
pub fn workers_for(cpus: usize) -> (r: usize)
    ensures
        r == if cpus < 2 { 2 } else { cpus },
{
    if cpus < 2 { 2 } else { cpus }
}

/// The number of workers for scanning and sizing on this machine: `workers_for` of the
/// CPUs available, so at least two whatever the machine has.
pub fn worker_count() -> (r: usize)
    ensures
        r >= 2,
{
    workers_for(available_cpus())
}

/// The paths of the first `n` items that still need their size resolved: size 0 and a
/// directory (`is_dir` holds, per item, whether its path is a directory).
pub open spec fn size_jobs_upto(items: Seq<ItemView>, is_dir: Seq<bool>, n: int) -> Seq<Seq<char>>
    decreases n,
{
    if n <= 0 || n > items.len() {
        Seq::empty()
    } else {
        let prev = size_jobs_upto(items, is_dir, n - 1);
        if items[n - 1].size == 0 && n - 1 < is_dir.len() && is_dir[n - 1] {
            prev.push(items[n - 1].path)
        } else {
            prev
        }
    }
}

/// The paths whose sizes the resolver computes, in item order: the items of size 0 whose
/// path is a directory (`is_dir[i]` tells it of item `i`; a missing flag counts as false).
pub fn size_jobs(items: &Vec<CleanableItem>, is_dir: &Vec<bool>) -> (r: Vec<String>)
    ensures
        r@.map_values(|s: String| s@) == size_jobs_upto(items_view(items@), is_dir@, items@.len() as int),
{
    let ghost iv = items_view(items@);
    let mut r: Vec<String> = Vec::new();
    let mut i: usize = 0;
    while i < items.len()
        invariant
            i <= items@.len(),
            iv == items_view(items@),
            r@.map_values(|s: String| s@) == size_jobs_upto(iv, is_dir@, i as int),
        decreases items.len() - i,
    {
        if items[i].size == 0 && i < is_dir.len() && is_dir[i] {
            let p = items[i].path.clone();
            r.push(p);
            assert(r@.map_values(|s: String| s@) =~= size_jobs_upto(iv, is_dir@, i as int).push(iv[i as int].path));
        }
        i = i + 1;
    }
    r
}

/// Each size job is the path of one of the first `n` items, and no path is a job twice
/// when the items' paths are distinct: the resolver emits one result per directory.
pub proof fn lemma_size_jobs_distinct(items: Seq<ItemView>, is_dir: Seq<bool>, n: int)
    requires
        0 <= n <= items.len(),
        forall|a: int, b: int| 0 <= a < b < items.len() ==> items[a].path != items[b].path,
    ensures
        size_jobs_upto(items, is_dir, n).no_duplicates(),
        forall|k: int| 0 <= k < size_jobs_upto(items, is_dir, n).len() ==> exists|i: int|
            0 <= i < n && items[i].path == #[trigger] size_jobs_upto(items, is_dir, n)[k],
    decreases n,
{
    if n > 0 {
        lemma_size_jobs_distinct(items, is_dir, n - 1);
        let prev = size_jobs_upto(items, is_dir, n - 1);
        let x = items[n - 1].path;
        if items[n - 1].size == 0 && n - 1 < is_dir.len() && is_dir[n - 1] {
            assert forall|k: int| 0 <= k < prev.len() implies prev[k] != x by {
                let i = choose|i: int| 0 <= i < n - 1 && items[i].path == #[trigger] prev[k];
            }
            let cur = prev.push(x);
            assert forall|a: int, b: int| 0 <= a < cur.len() && 0 <= b < cur.len() && a != b implies cur[a] != cur[b] by {
                if a < prev.len() && b < prev.len() {
                    assert(prev.no_duplicates());
                }
            }
            assert forall|k: int| 0 <= k < cur.len() implies exists|i: int|
                0 <= i < n && items[i].path == #[trigger] cur[k] by {
                if k < prev.len() {
                    let i = choose|i: int| 0 <= i < n - 1 && items[i].path == #[trigger] prev[k];
                    assert(items[i].path == cur[k]);
                } else {
                    assert(items[n - 1].path == cur[k]);
                }
            }
        }
    }
}

/// The bytes held by the regular files of a listing.
pub open spec fn file_bytes(entries: Seq<EntryView>) -> int
    decreases entries.len(),
{
    if entries.len() == 0 {
        0
    } else {
        file_bytes(entries.drop_last()) + discovered_size(entries.last())
    }
}

/// The resolved size of a directory from the listing of everything beneath it: the sum
/// of the lengths of its regular files (`u64::MAX` when that does not fit).
pub fn directory_size(entries: &Vec<WalkEntry>) -> (r: u64)
    ensures
        r == saturated(file_bytes(entries_view(entries@))),
{
    let ghost ev = entries_view(entries@);
    let mut total: u64 = 0;
    let mut i: usize = 0;
    while i < entries.len()
        invariant
            i <= entries@.len(),
            ev == entries_view(entries@),
            total == saturated(file_bytes(ev.subrange(0, i as int))),
            file_bytes(ev.subrange(0, i as int)) >= 0,
        decreases entries.len() - i,
    {
        assert(ev.subrange(0, i + 1).drop_last() =~= ev.subrange(0, i as int));
        assert(ev.subrange(0, i + 1).last() == entries@[i as int]@);
        total = total.saturating_add(entry_size(&entries[i]));
        i = i + 1;
    }
    assert(ev.subrange(0, entries@.len() as int) =~= ev);
    total
}

/// Each item of `filter_items` comes from some entry, and each entry's item is there.
proof fn lemma_filter_items_members(entries: Seq<EntryView>, f: spec_fn(EntryView) -> Option<ItemView>)
    ensures
        forall|k: int| 0 <= k < filter_items(entries, f).len() ==> exists|i: int|
            0 <= i < entries.len() && f(entries[i]) == Some(#[trigger] filter_items(entries, f)[k]),
        forall|i: int| 0 <= i < entries.len() && (#[trigger] f(entries[i])) is Some ==> exists|k: int|
            0 <= k < filter_items(entries, f).len() && f(entries[i]) == Some(filter_items(entries, f)[k]),
    decreases entries.len(),
{
    if entries.len() > 0 {
        let prev = entries.drop_last();
        lemma_filter_items_members(prev, f);
        let out = filter_items(entries, f);
        assert forall|k: int| 0 <= k < out.len() implies exists|i: int|
            0 <= i < entries.len() && f(entries[i]) == Some(#[trigger] out[k]) by {
            if k < filter_items(prev, f).len() {
                let i = choose|i: int| 0 <= i < prev.len() && f(prev[i]) == Some(filter_items(prev, f)[k]);
                assert(entries[i] == prev[i]);
            } else {
                assert(f(entries[entries.len() - 1]) == Some(out[k]));
            }
        }
        assert forall|i: int| 0 <= i < entries.len() && (#[trigger] f(entries[i])) is Some implies exists|k: int|
            0 <= k < out.len() && f(entries[i]) == Some(out[k]) by {
            if i < prev.len() {
                assert(entries[i] == prev[i]);
                let k = choose|k: int| 0 <= k < filter_items(prev, f).len() && f(prev[i]) == Some(filter_items(prev, f)[k]);
                assert(out[k] == filter_items(prev, f)[k]);
            } else {
                assert(out[out.len() - 1] == f(entries.last())->0);
            }
        }
    }
}

/// The paths that some item holds.
pub open spec fn path_set(items: Seq<ItemView>) -> Set<Seq<char>> {
    Set::new(|p: Seq<char>| has_path(items, p))
}

/// Every item that a catalog scan finds comes from an entry within the depth limit none
/// of whose path components is a hidden name other than `.git`: hidden entries, and
/// everything beneath them, are never matched.
pub proof fn lemma_catalog_scan_skips_hidden(entries: Seq<EntryView>, cat: CatalogView, max_depth: nat, k: int)
    requires
        0 <= k < catalog_scan(entries, cat, max_depth).len(),
    ensures
        exists|i: int| 0 <= i < entries.len() && entries[i].path == catalog_scan(entries, cat, max_depth)[k].path
            && visible(entries[i]) && in_depth(entries[i], max_depth),
{
    let f = |e: EntryView| catalog_item(e, cat, max_depth);
    lemma_filter_items_members(entries, f);
    let x = catalog_scan(entries, cat, max_depth)[k];
    let i = choose|i: int| 0 <= i < entries.len() && f(entries[i]) == Some(filter_items(entries, f)[k]);
    assert(entries[i].path == x.path && visible(entries[i]) && in_depth(entries[i], max_depth));
}

/// A listed entry within the depth limit, with no excluded hidden name on its path, whose
/// name the catalog matches, is found by the catalog scan: an item with its path and the
/// matched description as category and info.
pub proof fn lemma_catalog_scan_finds(entries: Seq<EntryView>, cat: CatalogView, max_depth: nat, i: int)
    requires
        0 <= i < entries.len(),
        in_depth(entries[i], max_depth),
        visible(entries[i]),
        match_name(cat, entries[i].components.last()) is Some,
    ensures
        exists|k: int| #![trigger catalog_scan(entries, cat, max_depth)[k]]
            0 <= k < catalog_scan(entries, cat, max_depth).len()
            && catalog_scan(entries, cat, max_depth)[k].path == entries[i].path
            && catalog_scan(entries, cat, max_depth)[k].item_type == match_name(cat, entries[i].components.last())->0
            && catalog_scan(entries, cat, max_depth)[k].info == match_name(cat, entries[i].components.last())->0,
{
    let f = |e: EntryView| catalog_item(e, cat, max_depth);
    lemma_filter_items_members(entries, f);
    assert(f(entries[i]) is Some);
    let k = choose|k: int| 0 <= k < filter_items(entries, f).len() && f(entries[i]) == Some(filter_items(entries, f)[k]);
    assert(catalog_scan(entries, cat, max_depth)[k] == filter_items(entries, f)[k]);
}

/// A visible entry within the depth limit named exactly like an exact-name catalog key is
/// found by the catalog scan with that key's description, provided no earlier catalog
/// entry accepts the name (first match wins).
pub proof fn lemma_scan_finds_exact_key(entries: Seq<EntryView>, cat: CatalogView, max_depth: nat, i: int, j: int)
    requires
        0 <= i < entries.len(),
        in_depth(entries[i], max_depth),
        visible(entries[i]),
        0 <= j < cat.len(),
        !is_glob(cat[j].0),
        entries[i].components.last() == cat[j].0,
        forall|m: int| 0 <= m < j ==> !key_matches(#[trigger] cat[m].0, cat[j].0),
    ensures
        exists|k: int| #![trigger catalog_scan(entries, cat, max_depth)[k]]
            0 <= k < catalog_scan(entries, cat, max_depth).len()
            && catalog_scan(entries, cat, max_depth)[k].path == entries[i].path
            && catalog_scan(entries, cat, max_depth)[k].item_type == cat[j].1
            && catalog_scan(entries, cat, max_depth)[k].info == cat[j].1,
{
    lemma_exact_key_matched(cat, j);
    lemma_catalog_scan_finds(entries, cat, max_depth, i);
}

/// A visible entry within the depth limit whose name a glob key of the catalog accepts is
/// found by the catalog scan.
pub proof fn lemma_scan_finds_glob_match(entries: Seq<EntryView>, cat: CatalogView, max_depth: nat, i: int, j: int)
    requires
        0 <= i < entries.len(),
        in_depth(entries[i], max_depth),
        visible(entries[i]),
        0 <= j < cat.len(),
        is_glob(cat[j].0),
        glob_match(cat[j].0, entries[i].components.last()),
    ensures
        exists|k: int| #![trigger catalog_scan(entries, cat, max_depth)[k]]
            0 <= k < catalog_scan(entries, cat, max_depth).len()
            && catalog_scan(entries, cat, max_depth)[k].path == entries[i].path,
{
    lemma_glob_key_matched(cat, j, entries[i].components.last());
    lemma_catalog_scan_finds(entries, cat, max_depth, i);
}

/// A visible entry within the depth limit named `<stem>.<ext>` is found by the catalog
/// scan when the catalog holds the key `*.<ext>` (the extension fallback).
pub proof fn lemma_scan_finds_extension(
    entries: Seq<EntryView>,
    cat: CatalogView,
    max_depth: nat,
    i: int,
    stem: Seq<char>,
    ext: Seq<char>,
)
    requires
        0 <= i < entries.len(),
        in_depth(entries[i], max_depth),
        visible(entries[i]),
        entries[i].components.last() == stem + seq!['.'] + ext,
        !ext.contains('.'),
        lookup(cat, seq!['*', '.'] + ext) is Some,
    ensures
        exists|k: int| #![trigger catalog_scan(entries, cat, max_depth)[k]]
            0 <= k < catalog_scan(entries, cat, max_depth).len()
            && catalog_scan(entries, cat, max_depth)[k].path == entries[i].path,
{
    lemma_extension_matched(cat, stem, ext);
    lemma_catalog_scan_finds(entries, cat, max_depth, i);
}

proof fn lemma_filter_items_distinct_paths(entries: Seq<EntryView>, f: spec_fn(EntryView) -> Option<ItemView>)
    requires
        forall|e: EntryView| #[trigger] f(e) is Some ==> f(e)->0.path == e.path,
        forall|a: int, b: int| 0 <= a < b < entries.len() ==> entries[a].path != entries[b].path,
    ensures
        forall|a: int, b: int| 0 <= a < b < filter_items(entries, f).len() ==>
            filter_items(entries, f)[a].path != filter_items(entries, f)[b].path,
    decreases entries.len(),
{
    if entries.len() > 0 {
        let prev = entries.drop_last();
        lemma_filter_items_distinct_paths(prev, f);
        lemma_filter_items_members(prev, f);
        let p = filter_items(prev, f);
        let out = filter_items(entries, f);
        if f(entries.last()) is Some {
            assert forall|a: int| 0 <= a < p.len() implies p[a].path != entries.last().path by {
                let m = choose|m: int| 0 <= m < prev.len() && f(prev[m]) == Some(#[trigger] p[a]);
                assert(prev[m] == entries[m]);
            }
            assert forall|a: int, b: int| 0 <= a < b < out.len() implies out[a].path != out[b].path by {
                if b == p.len() {
                    assert(out[b] == f(entries.last())->0);
                } else {
                    assert(out[a] == p[a] && out[b] == p[b]);
                }
            }
        }
    }
}

/// When the listing holds each path once, the catalog scan finds each path at most once,
/// so an entry that the catalog matches gives exactly one item.
pub proof fn lemma_catalog_scan_paths_distinct(entries: Seq<EntryView>, cat: CatalogView, max_depth: nat)
    requires
        forall|a: int, b: int| 0 <= a < b < entries.len() ==> entries[a].path != entries[b].path,
    ensures
        forall|a: int, b: int| 0 <= a < b < catalog_scan(entries, cat, max_depth).len() ==>
            catalog_scan(entries, cat, max_depth)[a].path != catalog_scan(entries, cat, max_depth)[b].path,
{
    lemma_filter_items_distinct_paths(entries, |e: EntryView| catalog_item(e, cat, max_depth));
}

proof fn lemma_filter_paths(entries: Seq<EntryView>, f: spec_fn(EntryView) -> Option<ItemView>, p: Seq<char>)
    ensures
        has_path(filter_items(entries, f), p) <==> exists|i: int|
            0 <= i < entries.len() && (#[trigger] f(entries[i])) is Some && f(entries[i])->0.path == p,
{
    lemma_filter_items_members(entries, f);
    let out = filter_items(entries, f);
    if has_path(out, p) {
        let k = choose|k: int| 0 <= k < out.len() && (#[trigger] out[k]).path == p;
        let i = choose|i: int| 0 <= i < entries.len() && f(entries[i]) == Some(#[trigger] out[k]);
        assert(f(entries[i]) is Some && f(entries[i])->0.path == p);
    }
    if exists|i: int| 0 <= i < entries.len() && (#[trigger] f(entries[i])) is Some && f(entries[i])->0.path == p {
        let i = choose|i: int| 0 <= i < entries.len() && (#[trigger] f(entries[i])) is Some && f(entries[i])->0.path == p;
        let k = choose|k: int| 0 <= k < out.len() && f(entries[i]) == Some(out[k]);
        assert(out[k].path == p);
    }
}

proof fn lemma_dedup_paths(items: Seq<ItemView>, p: Seq<char>)
    ensures
        has_path(dedup_paths(items), p) <==> has_path(items, p),
    decreases items.len(),
{
    if items.len() > 0 {
        let prev = items.drop_last();
        lemma_dedup_paths(prev, p);
        let d = dedup_paths(prev);
        let x = items.last();
        if has_path(items, p) && !has_path(prev, p) {
            let j = choose|j: int| 0 <= j < items.len() && (#[trigger] items[j]).path == p;
            if j < prev.len() {
                assert(prev[j] == items[j]);
            }
            assert(x.path == p);
            if !has_path(d, x.path) {
                assert(d.push(x)[d.len() as int] == x);
            }
        }
        if has_path(prev, p) {
            let j = choose|j: int| 0 <= j < prev.len() && (#[trigger] prev[j]).path == p;
            assert(items[j] == prev[j]);
        }
        if has_path(dedup_paths(items), p) && !has_path(d, p) {
            let j = choose|j: int| 0 <= j < dedup_paths(items).len() && (#[trigger] dedup_paths(items)[j]).path == p;
            if !has_path(d, x.path) {
                if j < d.len() {
                    assert(d.push(x)[j] == d[j]);
                }
                assert(items[items.len() - 1].path == p);
            }
        }
        if has_path(d, p) {
            let j = choose|j: int| 0 <= j < d.len() && (#[trigger] d[j]).path == p;
            if !has_path(d, x.path) {
                assert(d.push(x)[j] == d[j]);
            }
        }
    }
}

/// Scanning the same entries in any order, or twice, finds the same set of paths, in
/// either mode: only which entries the listing holds matters.
pub proof fn lemma_scan_paths_order_free(
    e1: Seq<EntryView>,
    e2: Seq<EntryView>,
    cat: CatalogView,
    rules: Seq<Seq<char>>,
    max_depth: nat,
)
    requires
        forall|e: EntryView| e1.contains(e) <==> e2.contains(e),
    ensures
        path_set(catalog_scan(e1, cat, max_depth)) == path_set(catalog_scan(e2, cat, max_depth)),
        path_set(dedup_paths(gitignore_scan(e1, rules, max_depth))) == path_set(
            dedup_paths(gitignore_scan(e2, rules, max_depth)),
        ),
{
    let f = |e: EntryView| catalog_item(e, cat, max_depth);
    let g = |e: EntryView| gitignore_item(e, rules, max_depth);
    assert forall|p: Seq<char>| path_set(catalog_scan(e1, cat, max_depth)).contains(p) <==> path_set(
        catalog_scan(e2, cat, max_depth),
    ).contains(p) by {
        lemma_filter_paths(e1, f, p);
        lemma_filter_paths(e2, f, p);
        if exists|i: int| 0 <= i < e1.len() && (#[trigger] f(e1[i])) is Some && f(e1[i])->0.path == p {
            let i = choose|i: int| 0 <= i < e1.len() && (#[trigger] f(e1[i])) is Some && f(e1[i])->0.path == p;
            assert(e1.contains(e1[i]));
            let j = choose|j: int| 0 <= j < e2.len() && e2[j] == e1[i];
            assert(f(e2[j]) is Some);
        }
        if exists|i: int| 0 <= i < e2.len() && (#[trigger] f(e2[i])) is Some && f(e2[i])->0.path == p {
            let i = choose|i: int| 0 <= i < e2.len() && (#[trigger] f(e2[i])) is Some && f(e2[i])->0.path == p;
            assert(e2.contains(e2[i]));
            let j = choose|j: int| 0 <= j < e1.len() && e1[j] == e2[i];
            assert(f(e1[j]) is Some);
        }
    }
    assert(path_set(catalog_scan(e1, cat, max_depth)) =~= path_set(catalog_scan(e2, cat, max_depth)));
    assert forall|p: Seq<char>| path_set(dedup_paths(gitignore_scan(e1, rules, max_depth))).contains(p)
        <==> path_set(dedup_paths(gitignore_scan(e2, rules, max_depth))).contains(p) by {
        lemma_dedup_paths(gitignore_scan(e1, rules, max_depth), p);
        lemma_dedup_paths(gitignore_scan(e2, rules, max_depth), p);
        lemma_filter_paths(e1, g, p);
        lemma_filter_paths(e2, g, p);
        if exists|i: int| 0 <= i < e1.len() && (#[trigger] g(e1[i])) is Some && g(e1[i])->0.path == p {
            let i = choose|i: int| 0 <= i < e1.len() && (#[trigger] g(e1[i])) is Some && g(e1[i])->0.path == p;
            assert(e1.contains(e1[i]));
            let j = choose|j: int| 0 <= j < e2.len() && e2[j] == e1[i];
            assert(g(e2[j]) is Some);
        }
        if exists|i: int| 0 <= i < e2.len() && (#[trigger] g(e2[i])) is Some && g(e2[i])->0.path == p {
            let i = choose|i: int| 0 <= i < e2.len() && (#[trigger] g(e2[i])) is Some && g(e2[i])->0.path == p;
            assert(e2.contains(e2[i]));
            let j = choose|j: int| 0 <= j < e1.len() && e1[j] == e2[i];
            assert(g(e1[j]) is Some);
        }
    }
    assert(path_set(dedup_paths(gitignore_scan(e1, rules, max_depth))) =~= path_set(
        dedup_paths(gitignore_scan(e2, rules, max_depth)),
    ));
}

proof fn lemma_chunks_of_size_flatten<A>(s: Seq<A>, size: nat)
    requires
        size > 0,
    ensures
        chunks_of_size(s, size).flatten() == s,
    decreases s.len(),
{
    if s.len() == 0 {
    } else if s.len() <= size {
        seq![s].lemma_flatten_one_element();
    } else {
        let rest = chunks_of_size(s.skip(size as int), size);
        lemma_chunks_of_size_flatten(s.skip(size as int), size);
        let c = seq![s.take(size as int)] + rest;
        assert(c.first() == s.take(size as int));
        assert(c.drop_first() =~= rest);
        assert(s.take(size as int) + s.skip(size as int) =~= s);
    }
}

/// Sharing work among any number of workers hands out every element exactly once and in
/// order: the pieces, put back together, are the sequence that was shared. So resolving the
/// sizes of M directories with N workers emits exactly one result per directory.
pub proof fn lemma_split_chunks_cover<A>(s: Seq<A>, count: nat)
    requires
        count > 0,
    ensures
        split_chunks(s, count).flatten() == s,
{
    if s.len() > 0 {
        lemma_chunks_of_size_flatten(s, chunk_size_for(s.len(), count));
    }
}

} // verus!
