//! The scan/clean session: the state machine that takes scan updates, user actions and
//! cleaner reports, and keeps the item list and the progress counters.
use vstd::prelude::*;
use vstd::string::*;
use crate::cleaner::{
    CleanJob, CleanProgress, CleanResult, ResultView, clean_jobs, cleaned_size, count_selected, freed_bytes,
    jobs_match, lemma_remaining_after_contains, remaining_after, remove_cleaned, removed, results_view,
    selected_of,
};
use crate::models::{AppState, CleanableItem, ItemView, display_info_of, items_view, saturated};
use crate::text::{decimal, decimal_string, opt_chars};

verus! {

/// A report from the background scan.
#[derive(Clone, Debug)]
pub enum ScanUpdate {
    /// Discovery is complete: the items found, and how many of them need their size resolved.
    ItemsFound(Vec<CleanableItem>, usize),
    /// The resolved size of the directory at a path.
    SizeUpdate(String, u64),
    /// The size resolver has finished.
    SizeCalculationComplete,
    /// The scan has taken this many milliseconds so far.
    ScanComplete(u64),
    /// This many entries have been looked at.
    ItemsScanned(usize),
}

/// The model of a [`ScanUpdate`].
pub ghost enum UpdateView {
    ItemsFound(Seq<ItemView>, usize),
    SizeUpdate(Seq<char>, u64),
    SizeCalculationComplete,
    ScanComplete(u64),
    ItemsScanned(usize),
}

impl View for ScanUpdate {
    type V = UpdateView;

    open spec fn view(&self) -> UpdateView {
        match self {
            ScanUpdate::ItemsFound(items, jobs) => UpdateView::ItemsFound(items_view(items@), *jobs),
            ScanUpdate::SizeUpdate(p, s) => UpdateView::SizeUpdate(p@, *s),
            ScanUpdate::SizeCalculationComplete => UpdateView::SizeCalculationComplete,
            ScanUpdate::ScanComplete(ms) => UpdateView::ScanComplete(*ms),
            ScanUpdate::ItemsScanned(n) => UpdateView::ItemsScanned(*n),
        }
    }
}

/// A request from the user interface.
#[derive(Clone, Copy, Debug, PartialEq, Eq, Structural)]
pub enum Action {
    NavigateNext,
    NavigatePrevious,
    ToggleSelection,
    StartClean,
    RescanRequested,
    Quit,
    ToggleHelp,
    ScrollHelp(isize),
}

/// What the caller must do after an action.
#[derive(Clone, Debug)]
pub enum Command {
    Continue,
    Quit,
    /// Start a new background scan.
    StartScan,
    /// Run these deletions in the background and report back.
    StartClean(Vec<CleanJob>),
}

/// The session: its phase, the items, the cursor and the progress counters.
pub struct App {
    pub state: AppState,
    /// The phase to return to when help is closed.
    pub previous_state: Option<AppState>,
    pub items: Vec<CleanableItem>,
    /// The index of the active item.
    pub cursor: Option<usize>,
    pub scanning: bool,
    pub cleaning: bool,
    pub total_size: u64,
    pub cleaned_size: u64,
    pub current_dir: String,
    pub use_gitignore: bool,
    pub scan_duration_ms: u64,
    pub scanned_items: usize,
    pub calculating_sizes: bool,
    /// Sizes that arrived before the items they belong to.
    pub pending_sizes: Vec<(String, u64)>,
    pub total_size_jobs: usize,
    pub completed_size_jobs: usize,
    /// Discovery has reported its items.
    pub discovered: bool,
    /// The size resolver has reported that it is done (recorded; the scan ends by count).
    pub sizes_signalled: bool,
    pub clean_done: usize,
    pub clean_total: usize,
    pub processing_item: Option<String>,
    pub max_depth: usize,
    pub help_scroll: usize,
}

/// The model of an [`App`].
#[verifier::ext_equal]
pub ghost struct AppView {
    pub state: AppState,
    pub previous_state: Option<AppState>,
    pub items: Seq<ItemView>,
    pub cursor: Option<usize>,
    pub scanning: bool,
    pub cleaning: bool,
    pub total_size: u64,
    pub cleaned_size: u64,
    pub current_dir: Seq<char>,
    pub use_gitignore: bool,
    pub scan_duration_ms: u64,
    pub scanned_items: usize,
    pub calculating_sizes: bool,
    pub pending_sizes: Seq<(Seq<char>, u64)>,
    pub total_size_jobs: usize,
    pub completed_size_jobs: usize,
    pub discovered: bool,
    pub sizes_signalled: bool,
    pub clean_done: usize,
    pub clean_total: usize,
    pub processing_item: Option<Seq<char>>,
    pub max_depth: usize,
    pub help_scroll: usize,
}

/// The models of pending sizes.
pub open spec fn pending_view(p: Seq<(String, u64)>) -> Seq<(Seq<char>, u64)> {
    p.map_values(|e: (String, u64)| (e.0@, e.1))
}

impl View for App {
    type V = AppView;

    open spec fn view(&self) -> AppView {
        AppView {
            state: self.state,
            previous_state: self.previous_state,
            items: items_view(self.items@),
            cursor: self.cursor,
            scanning: self.scanning,
            cleaning: self.cleaning,
            total_size: self.total_size,
            cleaned_size: self.cleaned_size,
            current_dir: self.current_dir@,
            use_gitignore: self.use_gitignore,
            scan_duration_ms: self.scan_duration_ms,
            scanned_items: self.scanned_items,
            calculating_sizes: self.calculating_sizes,
            pending_sizes: pending_view(self.pending_sizes@),
            total_size_jobs: self.total_size_jobs,
            completed_size_jobs: self.completed_size_jobs,
            discovered: self.discovered,
            sizes_signalled: self.sizes_signalled,
            clean_done: self.clean_done,
            clean_total: self.clean_total,
            processing_item: opt_chars(self.processing_item),
            max_depth: self.max_depth,
            help_scroll: self.help_scroll,
        }
    }
}

/// The session's invariant: no more size jobs done than there are, and the scanning
/// phase is flagged as such.
pub open spec fn app_wf(a: AppView) -> bool {
    &&& a.completed_size_jobs <= a.total_size_jobs
    &&& a.state == AppState::Scanning ==> a.scanning
    &&& a.state == AppState::Help ==> a.previous_state != Some(AppState::Help)
}

/// A fresh session that is about to scan `dir`.
pub open spec fn initial_view(dir: Seq<char>, use_gitignore: bool, max_depth: usize) -> AppView {
    AppView {
        state: AppState::Scanning,
        previous_state: None,
        items: Seq::empty(),
        cursor: None,
        scanning: true,
        cleaning: false,
        total_size: 0,
        cleaned_size: 0,
        current_dir: dir,
        use_gitignore,
        scan_duration_ms: 0,
        scanned_items: 0,
        calculating_sizes: false,
        pending_sizes: Seq::empty(),
        total_size_jobs: 0,
        completed_size_jobs: 0,
        discovered: false,
        sizes_signalled: false,
        clean_done: 0,
        clean_total: 0,
        processing_item: None,
        max_depth,
        help_scroll: 0,
    }
}

// ---------------------------------------------------------------- sizes and sorting

/// The sum of the items' sizes.
pub open spec fn total_bytes(items: Seq<ItemView>) -> int
    decreases items.len(),
{
    if items.len() == 0 {
        0
    } else {
        total_bytes(items.drop_last()) + items.last().size
    }
}

/// The first position at or after `j` whose item is smaller than `size`, or the length.
pub open spec fn first_smaller_from(s: Seq<ItemView>, size: u64, j: int) -> int
    decreases s.len() - j,
{
    if j < 0 || j >= s.len() {
        s.len() as int
    } else if s[j].size < size {
        j
    } else {
        first_smaller_from(s, size, j + 1)
    }
}

/// `x` placed after every item of `s` at least as large.
pub open spec fn insert_desc(s: Seq<ItemView>, x: ItemView) -> Seq<ItemView> {
    s.insert(first_smaller_from(s, x.size, 0), x)
}

/// The items ordered by size, largest first; equal sizes keep their order.
pub open spec fn sort_desc(s: Seq<ItemView>) -> Seq<ItemView>
    decreases s.len(),
{
    if s.len() == 0 {
        s
    } else {
        insert_desc(sort_desc(s.drop_last()), s.last())
    }
}

/// Sizes never grow along the sequence.
pub open spec fn sorted_desc(s: Seq<ItemView>) -> bool {
    forall|a: int, b: int| 0 <= a < b < s.len() ==> s[a].size >= s[b].size
}

proof fn lemma_first_smaller_from(s: Seq<ItemView>, size: u64, j: int)
    requires
        0 <= j <= s.len(),
    ensures
        j <= first_smaller_from(s, size, j) <= s.len(),
        forall|k: int| j <= k < first_smaller_from(s, size, j) ==> s[k].size >= size,
        first_smaller_from(s, size, j) < s.len() ==> s[first_smaller_from(s, size, j)].size < size,
    decreases s.len() - j,
{
    if j < s.len() {
        lemma_first_smaller_from(s, size, j + 1);
    }
}

/// Sorting by size yields the same items, largest first.
pub proof fn lemma_sort_desc(s: Seq<ItemView>)
    ensures
        sorted_desc(sort_desc(s)),
        sort_desc(s).to_multiset() == s.to_multiset(),
        sort_desc(s).len() == s.len(),
    decreases s.len(),
{
    broadcast use vstd::seq_lib::group_to_multiset_ensures;
    if s.len() > 0 {
        let t = sort_desc(s.drop_last());
        lemma_sort_desc(s.drop_last());
        let x = s.last();
        lemma_first_smaller_from(t, x.size, 0);
        let j = first_smaller_from(t, x.size, 0);
        let r = t.insert(j, x);
        assert(r == t.subrange(0, j) + seq![x] + t.subrange(j, t.len() as int));
        vstd::seq_lib::lemma_multiset_commutative(t.subrange(0, j) + seq![x], t.subrange(j, t.len() as int));
        vstd::seq_lib::lemma_multiset_commutative(t.subrange(0, j), seq![x]);
        vstd::seq_lib::lemma_multiset_commutative(t.subrange(0, j), t.subrange(j, t.len() as int));
        assert(t == t.subrange(0, j) + t.subrange(j, t.len() as int));
        assert(s == s.drop_last().push(x));
        assert forall|a: int, b: int| 0 <= a < b < r.len() implies r[a].size >= r[b].size by {
            if b < j {
            } else if b == j {
            } else if a < j {
                assert(r[b] == t[b - 1]);
            } else if a == j {
                assert(r[b] == t[b - 1]);
            } else {
                assert(r[a] == t[a - 1]);
                assert(r[b] == t[b - 1]);
            }
        }
    }
}

/// The items ordered by size, largest first; equal sizes keep their order.
pub fn sort_items_by_size(items: &Vec<CleanableItem>) -> (r: Vec<CleanableItem>)
    ensures
        items_view(r@) == sort_desc(items_view(items@)),
{
    let ghost iv = items_view(items@);
    let mut r: Vec<CleanableItem> = Vec::new();
    let mut i: usize = 0;
    while i < items.len()
        invariant
            i <= items@.len(),
            iv == items_view(items@),
            items_view(r@) == sort_desc(iv.subrange(0, i as int)),
        decreases items.len() - i,
    {
        assert(iv.subrange(0, i + 1).drop_last() =~= iv.subrange(0, i as int));
        assert(iv.subrange(0, i + 1).last() == items@[i as int]@);
        let item = items[i].duplicate();
        let ghost rv = items_view(r@);
        let mut j: usize = 0;
        while j < r.len() && r[j].size >= item.size
            invariant
                j <= r@.len(),
                rv == items_view(r@),
                first_smaller_from(rv, item.size, j as int) == first_smaller_from(rv, item.size, 0),
            decreases r.len() - j,
        {
            j = j + 1;
        }
        r.insert(j, item);
        assert(items_view(r@) =~= rv.insert(j as int, item@));
        i = i + 1;
    }
    assert(iv.subrange(0, items@.len() as int) =~= iv);
    r
}

/// The sum of the items' sizes (`u64::MAX` when it does not fit).
pub fn total_item_size(items: &Vec<CleanableItem>) -> (r: u64)
    ensures
        r == saturated(total_bytes(items_view(items@))),
{
    let ghost iv = items_view(items@);
    let mut total: u64 = 0;
    let mut i: usize = 0;
    while i < items.len()
        invariant
            i <= items@.len(),
            iv == items_view(items@),
            total == saturated(total_bytes(iv.subrange(0, i as int))),
            total_bytes(iv.subrange(0, i as int)) >= 0,
        decreases items.len() - i,
    {
        assert(iv.subrange(0, i + 1).drop_last() =~= iv.subrange(0, i as int));
        assert(iv.subrange(0, i + 1).last() == items@[i as int]@);
        total = total.saturating_add(items[i].size);
        i = i + 1;
    }
    assert(iv.subrange(0, items@.len() as int) =~= iv);
    total
}

// ---------------------------------------------------------------- scan updates

/// The size waiting for `path`, if one arrived early.
pub open spec fn pending_size_from(p: Seq<(Seq<char>, u64)>, path: Seq<char>, j: int) -> Option<u64>
    decreases p.len() - j,
{
    if j < 0 || j >= p.len() {
        None
    } else if p[j].0 == path {
        Some(p[j].1)
    } else {
        pending_size_from(p, path, j + 1)
    }
}

/// An item with the size that arrived early for its path, if any.
pub open spec fn with_pending_size(x: ItemView, p: Seq<(Seq<char>, u64)>) -> ItemView {
    match pending_size_from(p, x.path, 0) {
        Some(s) => ItemView { size: s, ..x },
        None => x,
    }
}

/// The items with the sizes that arrived early for them.
pub open spec fn with_pending(items: Seq<ItemView>, p: Seq<(Seq<char>, u64)>) -> Seq<ItemView> {
    items.map_values(|x: ItemView| with_pending_size(x, p))
}

/// The first position at or after `j` of an item with `path`, or -1.
pub open spec fn path_index_from(items: Seq<ItemView>, path: Seq<char>, j: int) -> int
    decreases items.len() - j,
{
    if j < 0 || j >= items.len() {
        -1
    } else if items[j].path == path {
        j
    } else {
        path_index_from(items, path, j + 1)
    }
}

/// The items with the first one at `path` resized.
pub open spec fn set_size(items: Seq<ItemView>, path: Seq<char>, size: u64) -> Seq<ItemView> {
    let j = path_index_from(items, path, 0);
    if j >= 0 && j < items.len() {
        items.update(j, ItemView { size, ..items[j] })
    } else {
        items
    }
}

/// Both completion conditions of a scan hold: discovery has reported, and as many size
/// results have arrived as there are size jobs. The resolver's own end signal is only
/// recorded: the session counts.
pub open spec fn scan_finished(a: AppView) -> bool {
    a.discovered && a.completed_size_jobs == a.total_size_jobs
}

/// What one scan update records, before any phase change.
pub open spec fn record_update(a: AppView, u: UpdateView) -> AppView {
    match u {
        UpdateView::ItemsFound(items, jobs) => AppView {
            items: with_pending(items, a.pending_sizes),
            scanned_items: items.len() as usize,
            total_size_jobs: jobs,
            completed_size_jobs: if a.pending_sizes.len() < jobs { a.pending_sizes.len() as usize } else { jobs },
            pending_sizes: Seq::empty(),
            discovered: true,
            calculating_sizes: jobs > 0,
            ..a
        },
        UpdateView::SizeUpdate(path, size) => if a.discovered {
            AppView {
                items: set_size(a.items, path, size),
                completed_size_jobs: if a.completed_size_jobs < a.total_size_jobs {
                    (a.completed_size_jobs + 1) as usize
                } else {
                    a.completed_size_jobs
                },
                ..a
            }
        } else {
            AppView { pending_sizes: a.pending_sizes.push((path, size)), ..a }
        },
        UpdateView::SizeCalculationComplete => AppView { sizes_signalled: true, ..a },
        UpdateView::ScanComplete(ms) => AppView { scan_duration_ms: ms, ..a },
        UpdateView::ItemsScanned(n) => AppView { scanned_items: n, ..a },
    }
}

/// The end of a scan: items largest first, the total recomputed, the first item active,
/// and the session selecting (behind the help overlay, if that is open).
pub open spec fn finish_scan(b: AppView) -> AppView {
    let items = sort_desc(b.items);
    AppView {
        items,
        total_size: saturated(total_bytes(items)),
        scanning: false,
        calculating_sizes: false,
        cursor: if items.len() > 0 { Some(0usize) } else { b.cursor },
        state: if b.state == AppState::Help { AppState::Help } else { AppState::Selecting },
        previous_state: if b.state == AppState::Help { Some(AppState::Selecting) } else { b.previous_state },
        ..b
    }
}

/// One scan update: recorded, then the scan ends if it was running and both completion
/// conditions now hold.
pub open spec fn scan_step(a: AppView, u: UpdateView) -> AppView {
    let b = record_update(a, u);
    if b.scanning && scan_finished(b) {
        finish_scan(b)
    } else {
        b
    }
}

/// The same, when the phase is not `Help` behind a finished scan: cleaning or selecting
/// never starts while a scan is still running.
pub open spec fn app_wf_full(a: AppView) -> bool {
    &&& app_wf(a)
    &&& a.state == AppState::Help && a.previous_state == Some(AppState::Scanning) ==> a.scanning
}

// ---------------------------------------------------------------- user actions

/// The cursor after moving forward, wrapping from the last item to the first.
pub open spec fn next_cursor(a: AppView) -> Option<usize> {
    if a.items.len() == 0 {
        a.cursor
    } else {
        match a.cursor {
            Some(i) => if i >= a.items.len() - 1 { Some(0usize) } else { Some((i + 1) as usize) },
            None => Some(0usize),
        }
    }
}

/// The cursor after moving back, wrapping from the first item to the last.
pub open spec fn previous_cursor(a: AppView) -> Option<usize> {
    if a.items.len() == 0 {
        a.cursor
    } else {
        match a.cursor {
            Some(i) => if i == 0 { Some((a.items.len() - 1) as usize) } else { Some((i - 1) as usize) },
            None => Some(0usize),
        }
    }
}

/// The items with the active one's selection flipped.
pub open spec fn toggled(items: Seq<ItemView>, cursor: Option<usize>) -> Seq<ItemView> {
    match cursor {
        Some(i) => if i < items.len() {
            items.update(i as int, ItemView { selected: !items[i as int].selected, ..items[i as int] })
        } else {
            items
        },
        None => items,
    }
}

/// The bytes held by the selected items.
pub open spec fn selected_bytes(items: Seq<ItemView>) -> int {
    total_bytes(selected_of(items))
}

/// The help overlay opened (remembering the phase) or closed (back to that phase).
pub open spec fn help_toggled(a: AppView) -> AppView {
    if a.state == AppState::Help {
        AppView {
            state: match a.previous_state {
                Some(s) => s,
                None => AppState::Selecting,
            },
            previous_state: None,
            ..a
        }
    } else {
        AppView { previous_state: Some(a.state), state: AppState::Help, help_scroll: 0, ..a }
    }
}

/// The help scroll position moved by `d`, kept within `0..=usize::MAX`.
pub open spec fn scrolled(scroll: usize, d: isize) -> usize {
    let v = scroll + d;
    if v < 0 {
        0
    } else if v > usize::MAX {
        usize::MAX
    } else {
        v as usize
    }
}

/// A session reset for a new scan: no items, every counter at zero, scanning.
pub open spec fn rescan_view(a: AppView) -> AppView {
    AppView {
        state: AppState::Scanning,
        scanning: true,
        scan_duration_ms: 0,
        scanned_items: 0,
        calculating_sizes: false,
        pending_sizes: Seq::empty(),
        total_size_jobs: 0,
        completed_size_jobs: 0,
        discovered: false,
        sizes_signalled: false,
        clean_done: 0,
        clean_total: 0,
        processing_item: None,
        items: Seq::empty(),
        cursor: None,
        total_size: 0,
        cleaned_size: 0,
        ..a
    }
}

/// Cleaning can start: selecting, something selected, no clean in flight.
pub open spec fn can_clean(a: AppView) -> bool {
    a.state == AppState::Selecting && !a.cleaning && selected_of(a.items).len() > 0
}

/// A re-scan can start: selecting, no clean in flight.
pub open spec fn can_rescan(a: AppView) -> bool {
    a.state == AppState::Selecting && !a.cleaning
}

/// The session after an action.
pub open spec fn action_step(a: AppView, act: Action) -> AppView {
    match act {
        Action::Quit => a,
        Action::ToggleHelp => help_toggled(a),
        _ => if a.state == AppState::Help {
            match act {
                Action::ScrollHelp(d) => AppView { help_scroll: scrolled(a.help_scroll, d), ..a },
                _ => a,
            }
        } else if a.state == AppState::Complete {
            AppView {
                state: AppState::Selecting,
                cursor: if a.items.len() > 0 { Some(0usize) } else { a.cursor },
                ..a
            }
        } else if a.state == AppState::Selecting {
            match act {
                Action::NavigateNext => AppView { cursor: next_cursor(a), ..a },
                Action::NavigatePrevious => AppView { cursor: previous_cursor(a), ..a },
                Action::ToggleSelection => if a.cleaning {
                    a
                } else {
                    let items = toggled(a.items, a.cursor);
                    AppView { items, total_size: saturated(selected_bytes(items)), ..a }
                },
                Action::StartClean => if can_clean(a) {
                    AppView {
                        state: AppState::Cleaning,
                        cleaning: true,
                        clean_done: 0,
                        clean_total: selected_of(a.items).len() as usize,
                        processing_item: None,
                        total_size: saturated(selected_bytes(a.items)),
                        ..a
                    }
                } else {
                    a
                },
                Action::RescanRequested => if can_rescan(a) { rescan_view(a) } else { a },
                _ => a,
            }
        } else {
            a
        },
    }
}

/// What the caller is asked to do after an action.
pub open spec fn command_matches(cmd: Command, a: AppView, act: Action) -> bool {
    match cmd {
        Command::Quit => act == Action::Quit,
        Command::StartScan => act == Action::RescanRequested && can_rescan(a),
        Command::StartClean(jobs) => act == Action::StartClean && can_clean(a) && jobs_match(jobs@, a.items),
        Command::Continue => act != Action::Quit && !(act == Action::RescanRequested && can_rescan(a))
            && !(act == Action::StartClean && can_clean(a)),
    }
}

// ---------------------------------------------------------------- cleaner reports

/// The session after the cleaner has reported all its results.
pub open spec fn clean_finished(a: AppView, results: Seq<ResultView>) -> AppView {
    AppView {
        cleaned_size: saturated(freed_bytes(results)),
        items: remaining_after(a.items, results),
        cleaning: false,
        state: if a.state == AppState::Help { AppState::Help } else { AppState::Complete },
        previous_state: if a.state == AppState::Help { Some(AppState::Complete) } else { a.previous_state },
        ..a
    }
}

/// The text describing the selection.
pub open spec fn selected_info(items: Seq<ItemView>) -> Seq<char> {
    let sel = selected_of(items);
    if sel.len() == 0 {
        "No items selected"@
    } else if sel.len() == 1 {
        "Selected: "@ + sel[0].path + " ("@ + display_info_of(sel[0]) + ")"@
    } else {
        "Selected: "@ + decimal(sel.len()) + " items of various types"@
    }
}

fn pending_size(pending: &Vec<(String, u64)>, path: &String) -> (r: Option<u64>)
    ensures
        r == pending_size_from(pending_view(pending@), path@, 0),
{
    let ghost pv = pending_view(pending@);
    let mut j: usize = 0;
    while j < pending.len()
        invariant
            j <= pending@.len(),
            pv == pending_view(pending@),
            pending_size_from(pv, path@, j as int) == pending_size_from(pv, path@, 0),
        decreases pending.len() - j,
    {
        if pending[j].0 == *path {
            return Some(pending[j].1);
        }
        j = j + 1;
    }
    None
}

fn apply_pending_sizes(items: Vec<CleanableItem>, pending: &Vec<(String, u64)>) -> (r: Vec<CleanableItem>)
    ensures
        items_view(r@) == with_pending(items_view(items@), pending_view(pending@)),
{
    let ghost iv = items_view(items@);
    let ghost pv = pending_view(pending@);
    let mut r: Vec<CleanableItem> = Vec::new();
    let mut i: usize = 0;
    while i < items.len()
        invariant
            i <= items@.len(),
            iv == items_view(items@),
            pv == pending_view(pending@),
            items_view(r@) == with_pending(iv.subrange(0, i as int), pv),
            r@.len() == i,
            iv.len() == items@.len(),
        decreases items.len() - i,
    {
        let mut item = items[i].duplicate();
        match pending_size(pending, &item.path) {
            Some(s) => {
                item.size = s;
            },
            None => {},
        }
        assert(item@ == with_pending_size(iv[i as int], pv));
        let ghost old_r = items_view(r@);
        let ghost old_rs = r@;
        let ghost item_v = item@;
        r.push(item);
        assert forall|k: int| 0 <= k < i + 1 implies #[trigger] items_view(r@)[k] == with_pending(
            iv.subrange(0, i + 1),
            pv,
        )[k] by {
            assert(items_view(r@)[k] == r@[k]@);
            assert(with_pending(iv.subrange(0, i + 1), pv)[k] == with_pending_size(iv.subrange(0, i + 1)[k], pv));
            if k < i {
                assert(r@[k] == old_rs[k]);
                assert(old_r[k] == old_rs[k]@);
                assert(old_r[k] == with_pending(iv.subrange(0, i as int), pv)[k]);
                assert(iv.subrange(0, i as int)[k] == iv.subrange(0, i + 1)[k]);
            } else {
                assert(r@[k]@ == item_v);
            }
        }
        assert(items_view(r@) =~= with_pending(iv.subrange(0, i + 1), pv));
        i = i + 1;
    }
    assert(iv.subrange(0, items@.len() as int) =~= iv);
    r
}

fn set_item_size(items: &mut Vec<CleanableItem>, path: &String, size: u64)
    ensures
        items_view(final(items)@) == set_size(items_view(old(items)@), path@, size),
{
    let ghost iv = items_view(items@);
    let mut j: usize = 0;
    while j < items.len()
        invariant
            j <= items@.len(),
            iv == items_view(items@),
            path_index_from(iv, path@, j as int) == path_index_from(iv, path@, 0),
            iv.len() == items@.len(),
            iv == items_view(old(items)@),
        decreases items.len() - j,
    {
        if items[j].path == *path {
            assert(iv[j as int].path == path@);
            assert(path_index_from(iv, path@, j as int) == j);
            let mut item = items[j].duplicate();
            item.size = size;
            items.set(j, item);
            assert(items_view(items@) =~= set_size(iv, path@, size));
            return;
        }
        j = j + 1;
    }
}

/// Applies one report of the background scan; the scan ends, and selection begins, once
/// discovery has reported and every size job is done.
pub fn process_scan_update(app: &mut App, update: ScanUpdate)
    ensures
        final(app)@ == scan_step(old(app)@, update@),
        app_wf_full(old(app)@) ==> app_wf_full(final(app)@),
{
    let ghost a = app@;
    let ghost u = update@;
    match update {
        ScanUpdate::ItemsFound(items, jobs) => {
            let items = apply_pending_sizes(items, &app.pending_sizes);
            app.scanned_items = items.len();
            app.items = items;
            app.total_size_jobs = jobs;
            app.completed_size_jobs = if app.pending_sizes.len() < jobs { app.pending_sizes.len() } else { jobs };
            app.pending_sizes = Vec::new();
            app.discovered = true;
            app.calculating_sizes = jobs > 0;
        },
        ScanUpdate::SizeUpdate(path, size) => {
            if app.discovered {
                set_item_size(&mut app.items, &path, size);
                if app.completed_size_jobs < app.total_size_jobs {
                    app.completed_size_jobs = app.completed_size_jobs + 1;
                }
            } else {
                app.pending_sizes.push((path, size));
            }
        },
        ScanUpdate::SizeCalculationComplete => {
            app.sizes_signalled = true;
        },
        ScanUpdate::ScanComplete(ms) => {
            app.scan_duration_ms = ms;
        },
        ScanUpdate::ItemsScanned(n) => {
            app.scanned_items = n;
        },
    }
    assert(app@ =~= record_update(a, u));
    if app.scanning && app.discovered && app.completed_size_jobs == app.total_size_jobs {
        app.finish_scan();
    }
}

impl App {
    /// A fresh session about to scan `target_dir`.
    pub fn new(target_dir: String, use_gitignore: bool, max_depth: usize) -> (r: App)
        ensures
            r@ == initial_view(target_dir@, use_gitignore, max_depth),
            app_wf_full(r@),
    {
        let r = App {
            state: AppState::Scanning,
            previous_state: None,
            items: Vec::new(),
            cursor: None,
            scanning: true,
            cleaning: false,
            total_size: 0,
            cleaned_size: 0,
            current_dir: target_dir,
            use_gitignore,
            scan_duration_ms: 0,
            scanned_items: 0,
            calculating_sizes: false,
            pending_sizes: Vec::new(),
            total_size_jobs: 0,
            completed_size_jobs: 0,
            discovered: false,
            sizes_signalled: false,
            clean_done: 0,
            clean_total: 0,
            processing_item: None,
            max_depth,
            help_scroll: 0,
        };
        assert(r@ =~= initial_view(target_dir@, use_gitignore, max_depth));
        r
    }

    fn finish_scan(&mut self)
        requires
            old(self).scanning,
        ensures
            final(self)@ == finish_scan(old(self)@),
            app_wf_full(old(self)@) ==> app_wf_full(final(self)@),
    {
        let ghost b = self@;
        self.sort_by_size();
        self.total_size = total_item_size(&self.items);
        self.scanning = false;
        self.calculating_sizes = false;
        if self.items.len() > 0 {
            self.cursor = Some(0);
        }
        if self.state == AppState::Help {
            self.previous_state = Some(AppState::Selecting);
        } else {
            self.state = AppState::Selecting;
        }
        assert(self@ =~= finish_scan(b));
    }

    /// Moves the cursor to the next item, from the last back to the first.
    pub fn next(&mut self)
        ensures
            final(self)@ == (AppView { cursor: next_cursor(old(self)@), ..old(self)@ }),
    {
        let ghost a = self@;
        if self.items.len() == 0 {
            assert(self@ =~= AppView { cursor: next_cursor(a), ..a });
            return;
        }
        let i = match self.cursor {
            Some(i) => if i >= self.items.len() - 1 { 0 } else { i + 1 },
            None => 0,
        };
        self.cursor = Some(i);
        assert(self@ =~= AppView { cursor: next_cursor(a), ..a });
    }

    /// Moves the cursor to the previous item, from the first round to the last.
    pub fn previous(&mut self)
        ensures
            final(self)@ == (AppView { cursor: previous_cursor(old(self)@), ..old(self)@ }),
    {
        let ghost a = self@;
        if self.items.len() == 0 {
            assert(self@ =~= AppView { cursor: previous_cursor(a), ..a });
            return;
        }
        let i = match self.cursor {
            Some(i) => if i == 0 { self.items.len() - 1 } else { i - 1 },
            None => 0,
        };
        self.cursor = Some(i);
        assert(self@ =~= AppView { cursor: previous_cursor(a), ..a });
    }

    /// Flips the selection of the active item.
    pub fn toggle_selection(&mut self)
        ensures
            final(self)@ == (AppView { items: toggled(old(self)@.items, old(self)@.cursor), ..old(self)@ }),
    {
        let ghost a = self@;
        match self.cursor {
            Some(i) => {
                if i < self.items.len() {
                    let mut item = self.items[i].duplicate();
                    item.selected = !item.selected;
                    self.items.set(i, item);
                }
            },
            None => {},
        }
        assert(self@ =~= AppView { items: toggled(a.items, a.cursor), ..a });
    }

    /// The number of selected items.
    pub fn selected_count(&self) -> (r: usize)
        ensures
            r == selected_of(self@.items).len(),
    {
        count_selected(&self.items)
    }

    /// The bytes held by the selected items (`u64::MAX` when that does not fit).
    pub fn selected_size(&self) -> (r: u64)
        ensures
            r == saturated(selected_bytes(self@.items)),
    {
        let ghost iv = self@.items;
        let mut total: u64 = 0;
        let mut i: usize = 0;
        while i < self.items.len()
            invariant
                i <= self.items@.len(),
                iv == items_view(self.items@),
                total == saturated(total_bytes(selected_of(iv.subrange(0, i as int)))),
                total_bytes(selected_of(iv.subrange(0, i as int))) >= 0,
            decreases self.items.len() - i,
        {
            assert(iv.subrange(0, i + 1).drop_last() =~= iv.subrange(0, i as int));
            assert(iv.subrange(0, i + 1).last() == self.items@[i as int]@);
            if self.items[i].selected {
                let ghost prev = selected_of(iv.subrange(0, i as int));
                assert(selected_of(iv.subrange(0, i + 1)) == prev.push(iv[i as int]));
                assert(prev.push(iv[i as int]).drop_last() =~= prev);
                total = total.saturating_add(self.items[i].size);
            }
            i = i + 1;
        }
        assert(iv.subrange(0, self.items@.len() as int) =~= iv);
        total
    }

    /// Orders the items by size, largest first.
    pub fn sort_by_size(&mut self)
        ensures
            final(self)@ == (AppView { items: sort_desc(old(self)@.items), ..old(self)@ }),
    {
        let ghost a = self@;
        let sorted = sort_items_by_size(&self.items);
        self.items = sorted;
        assert(self@ =~= AppView { items: sort_desc(a.items), ..a });
    }

    /// A line describing the selection: none, the one item, or how many.
    pub fn get_selected_info(&self) -> (r: String)
        ensures
            r@ == selected_info(self@.items),
    {
        let ghost iv = self@.items;
        let n = count_selected(&self.items);
        if n == 0 {
            return String::from_str("No items selected");
        }
        if n == 1 {
            let mut i: usize = 0;
            while i < self.items.len()
                invariant
                    i <= self.items@.len(),
                    iv == items_view(self.items@),
                    selected_of(iv).len() == 1,
                    selected_of(iv.subrange(0, i as int)).len() == 0,
                decreases self.items.len() - i,
            {
                assert(iv.subrange(0, i + 1).drop_last() =~= iv.subrange(0, i as int));
                assert(iv.subrange(0, i + 1).last() == self.items@[i as int]@);
                if self.items[i].selected {
                    proof {
                        lemma_single_selected(iv, i as int);
                    }
                    let mut r = String::from_str("Selected: ");
                    r.append(self.items[i].path.as_str());
                    r.append(" (");
                    let info = self.items[i].display_info();
                    r.append(info.as_str());
                    r.append(")");
                    return r;
                }
                i = i + 1;
            }
            assert(iv.subrange(0, self.items@.len() as int) =~= iv);
            return String::new();
        }
        let mut r = String::from_str("Selected: ");
        let count = decimal_string(n);
        r.append(count.as_str());
        r.append(" items of various types");
        r
    }

    /// Applies one user action and says what the caller must do next.
    pub fn handle_action(&mut self, action: Action) -> (cmd: Command)
        ensures
            final(self)@ == action_step(old(self)@, action),
            command_matches(cmd, old(self)@, action),
            app_wf_full(old(self)@) ==> app_wf_full(final(self)@),
    {
        proof {
            if app_wf_full(self@) {
                lemma_action_step_wf(self@, action);
            }
        }
        if action == Action::Quit {
            return Command::Quit;
        }
        if action == Action::ToggleHelp {
            self.toggle_help();
            return Command::Continue;
        }
        if self.state == AppState::Help {
            self.scroll_help(action);
            Command::Continue
        } else if self.state == AppState::Complete {
            self.leave_complete(action);
            Command::Continue
        } else if self.state == AppState::Selecting {
            self.handle_selecting(action)
        } else {
            Command::Continue
        }
    }

    fn toggle_help(&mut self)
        ensures
            final(self)@ == action_step(old(self)@, Action::ToggleHelp),
    {
        let ghost a = self@;
        if self.state == AppState::Help {
            self.state = match self.previous_state {
                Some(s) => s,
                None => AppState::Selecting,
            };
            self.previous_state = None;
        } else {
            self.previous_state = Some(self.state);
            self.state = AppState::Help;
            self.help_scroll = 0;
        }
        assert(self@ =~= action_step(a, Action::ToggleHelp));
    }

    fn scroll_help(&mut self, action: Action)
        requires
            old(self).state == AppState::Help,
            action != Action::Quit,
            action != Action::ToggleHelp,
        ensures
            final(self)@ == action_step(old(self)@, action),
    {
        let ghost a = self@;
        match action {
            Action::ScrollHelp(d) => {
                let v: i128 = self.help_scroll as i128 + d as i128;
                self.help_scroll = if v < 0 {
                    0
                } else if v > usize::MAX as i128 {
                    usize::MAX
                } else {
                    v as usize
                };
            },
            _ => {},
        }
        assert(self@ =~= action_step(a, action));
    }

    fn leave_complete(&mut self, action: Action)
        requires
            old(self).state == AppState::Complete,
            action != Action::Quit,
            action != Action::ToggleHelp,
        ensures
            final(self)@ == action_step(old(self)@, action),
    {
        let ghost a = self@;
        self.state = AppState::Selecting;
        if self.items.len() > 0 {
            self.cursor = Some(0);
        }
        assert(self@ =~= action_step(a, action));
    }

    fn handle_selecting(&mut self, action: Action) -> (cmd: Command)
        requires
            old(self).state == AppState::Selecting,
            action != Action::Quit,
            action != Action::ToggleHelp,
        ensures
            final(self)@ == action_step(old(self)@, action),
            command_matches(cmd, old(self)@, action),
    {
        let ghost a = self@;
        match action {
            Action::NavigateNext => {
                self.next();
                Command::Continue
            },
            Action::NavigatePrevious => {
                self.previous();
                Command::Continue
            },
            Action::ToggleSelection => {
                if !self.cleaning {
                    self.toggle_selection();
                    self.total_size = self.selected_size();
                }
                assert(self@ =~= action_step(a, action));
                Command::Continue
            },
            Action::StartClean => {
                if self.cleaning || self.selected_count() == 0 {
                    return Command::Continue;
                }
                self.start_cleaning()
            },
            Action::RescanRequested => {
                if self.cleaning {
                    return Command::Continue;
                }
                self.reset_for_rescan();
                Command::StartScan
            },
            _ => Command::Continue,
        }
    }

    /// Clears the items and every counter and enters scanning again.
    fn reset_for_rescan(&mut self)
        ensures
            final(self)@ == rescan_view(old(self)@),
    {
        let ghost a = self@;
        self.state = AppState::Scanning;
        self.scanning = true;
        self.scan_duration_ms = 0;
        self.scanned_items = 0;
        self.calculating_sizes = false;
        self.pending_sizes = Vec::new();
        self.total_size_jobs = 0;
        self.completed_size_jobs = 0;
        self.discovered = false;
        self.sizes_signalled = false;
        self.clean_done = 0;
        self.clean_total = 0;
        self.processing_item = None;
        self.items = Vec::new();
        self.cursor = None;
        self.total_size = 0;
        self.cleaned_size = 0;
        assert(self@ =~= rescan_view(a));
    }

    /// Enters cleaning and hands out the deletions to run, one per selected item.
    fn start_cleaning(&mut self) -> (cmd: Command)
        requires
            can_clean(old(self)@),
        ensures
            final(self)@ == action_step(old(self)@, Action::StartClean),
            cmd matches Command::StartClean(jobs) && jobs_match(jobs@, old(self)@.items),
    {
        let ghost a = self@;
        let jobs = clean_jobs(&self.items);
        let total = self.selected_count();
        self.total_size = self.selected_size();
        self.state = AppState::Cleaning;
        self.cleaning = true;
        self.clean_done = 0;
        self.clean_total = total;
        self.processing_item = None;
        assert(self@ =~= action_step(a, Action::StartClean));
        Command::StartClean(jobs)
    }

    /// Records a progress report of the cleaner.
    pub fn clean_progress(&mut self, progress: CleanProgress)
        ensures
            final(self)@ == (AppView {
                clean_done: progress.done,
                clean_total: progress.total,
                processing_item: opt_chars(progress.item),
                ..old(self)@
            }),
    {
        let ghost a = self@;
        let ghost item = opt_chars(progress.item);
        self.clean_done = progress.done;
        self.clean_total = progress.total;
        self.processing_item = progress.item;
        assert(self@ =~= AppView { clean_done: progress.done, clean_total: progress.total, processing_item: item, ..a });
    }

    /// Applies the cleaner's results: the freed bytes become the cleaned size, every item
    /// reported removed leaves the list, and the session is complete.
    pub fn finish_cleaning(&mut self, results: &Vec<CleanResult>)
        ensures
            final(self)@ == clean_finished(old(self)@, results_view(results@)),
            app_wf_full(old(self)@) ==> app_wf_full(final(self)@),
    {
        let ghost a = self@;
        self.cleaned_size = cleaned_size(results);
        let remaining = remove_cleaned(&self.items, results);
        self.items = remaining;
        self.cleaning = false;
        if self.state == AppState::Help {
            self.previous_state = Some(AppState::Complete);
        } else {
            self.state = AppState::Complete;
        }
        assert(self@ =~= clean_finished(a, results_view(results@)));
    }
}

/// A running scan stops only once discovery has reported and one size result per size job
/// has arrived, and it stops as soon as both hold; the resolver's end signal alone never
/// stops it. Size results that come before discovery are kept and counted when the items
/// arrive, so this holds whether discovery comes before, between or after the size
/// results, and wherever the end signal falls among them.
pub proof fn lemma_scan_ends_only_when_finished(a: AppView, u: UpdateView)
    requires
        app_wf_full(a),
        a.scanning,
    ensures
        !scan_step(a, u).scanning ==> scan_finished(scan_step(a, u)),
        scan_finished(record_update(a, u)) ==> !scan_step(a, u).scanning,
        a.state == AppState::Scanning && scan_step(a, u).state == AppState::Selecting ==> scan_finished(
            scan_step(a, u),
        ),
        !scan_step(a, u).scanning ==> (scan_step(a, u).state == AppState::Selecting || (scan_step(a, u).state
            == AppState::Help && scan_step(a, u).previous_state == Some(AppState::Selecting))),
        sorted_desc(scan_step(a, u).items) || scan_step(a, u).scanning,
{
    let b = record_update(a, u);
    if b.scanning && scan_finished(b) {
        lemma_sort_desc(b.items);
    }
}

/// A re-scan requested while selecting clears the item list, the total and cleaned
/// sizes and every progress counter, and enters scanning from zero.
pub proof fn lemma_rescan_resets(a: AppView)
    requires
        can_rescan(a),
    ensures
        action_step(a, Action::RescanRequested).state == AppState::Scanning,
        action_step(a, Action::RescanRequested).scanning,
        action_step(a, Action::RescanRequested).items.len() == 0,
        action_step(a, Action::RescanRequested).total_size == 0,
        action_step(a, Action::RescanRequested).cleaned_size == 0,
        action_step(a, Action::RescanRequested).scanned_items == 0,
        action_step(a, Action::RescanRequested).total_size_jobs == 0,
        action_step(a, Action::RescanRequested).completed_size_jobs == 0,
        action_step(a, Action::RescanRequested).clean_done == 0,
        action_step(a, Action::RescanRequested).clean_total == 0,
        action_step(a, Action::RescanRequested).pending_sizes.len() == 0,
        !action_step(a, Action::RescanRequested).discovered,
        !action_step(a, Action::RescanRequested).sizes_signalled,
{
}

/// When the cleaner's results arrive during cleaning, the freed bytes become the cleaned
/// size, an item stays exactly when no result reports its path removed, and the session is
/// complete. Results name only selected items, so when paths are distinct every unselected
/// item stays, whatever succeeded or failed.
pub proof fn lemma_clean_reconciles(a: AppView, results: Seq<ResultView>)
    requires
        a.state == AppState::Cleaning,
        forall|a1: int, b1: int| 0 <= a1 < b1 < a.items.len() ==> a.items[a1].path != a.items[b1].path,
        forall|j: int| 0 <= j < results.len() ==> exists|i: int|
            0 <= i < a.items.len() && a.items[i].selected && a.items[i].path == #[trigger] results[j].path,
    ensures
        clean_finished(a, results).state == AppState::Complete,
        !clean_finished(a, results).cleaning,
        clean_finished(a, results).cleaned_size == saturated(freed_bytes(results)),
        forall|x: ItemView| clean_finished(a, results).items.contains(x) <==> (a.items.contains(x) && !removed(
            results,
            x.path,
        )),
        forall|i: int| 0 <= i < a.items.len() && !a.items[i].selected ==> clean_finished(
            a,
            results,
        ).items.contains(#[trigger] a.items[i]),
{
    lemma_remaining_after_contains(a.items, results);
    assert forall|i: int| 0 <= i < a.items.len() && !a.items[i].selected implies clean_finished(
        a,
        results,
    ).items.contains(#[trigger] a.items[i]) by {
        assert(a.items.contains(a.items[i]));
        if removed(results, a.items[i].path) {
            let j = choose|j: int| 0 <= j < results.len() && (#[trigger] results[j]).path == a.items[i].path
                && results[j].success;
            let m = choose|m: int| 0 <= m < a.items.len() && a.items[m].selected && a.items[m].path == #[trigger] results[j].path;
            assert(m != i);
        }
    }
}

/// Every action keeps the session's invariant.
pub proof fn lemma_action_step_wf(a: AppView, act: Action)
    requires
        app_wf_full(a),
    ensures
        app_wf_full(action_step(a, act)),
{
}

proof fn lemma_single_selected(items: Seq<ItemView>, i: int)
    requires
        0 <= i < items.len(),
        items[i].selected,
        selected_of(items.subrange(0, i)).len() == 0,
    ensures
        selected_of(items.subrange(0, i + 1)) == seq![items[i]],
        selected_of(items)[0] == items[i],
{
    assert(items.subrange(0, i + 1).drop_last() =~= items.subrange(0, i));
    assert(selected_of(items.subrange(0, i + 1)) =~= seq![items[i]]);
    lemma_selected_prefix(items, i + 1);
    assert(selected_of(items.subrange(0, i + 1))[0] == items[i]);
}

proof fn lemma_selected_prefix(items: Seq<ItemView>, n: int)
    requires
        0 <= n <= items.len(),
    ensures
        selected_of(items.subrange(0, n)).len() <= selected_of(items).len(),
        forall|k: int| 0 <= k < selected_of(items.subrange(0, n)).len() ==>
            selected_of(items)[k] == #[trigger] selected_of(items.subrange(0, n))[k],
    decreases items.len() - n,
{
    if n < items.len() {
        lemma_selected_prefix(items, n + 1);
        assert(items.subrange(0, n + 1).drop_last() =~= items.subrange(0, n));
        let prev = selected_of(items.subrange(0, n));
        let next = selected_of(items.subrange(0, n + 1));
        assert forall|k: int| 0 <= k < prev.len() implies selected_of(items)[k] == #[trigger] prev[k] by {
            assert(next[k] == prev[k]);
        }
    } else {
        assert(items.subrange(0, n) =~= items);
    }
}

} // verus!
