//! The data the scanner and the session share: listed entries, cleanable items, states.
use vstd::prelude::*;

verus! {

/// One entry of a directory listing under the scan root, as the walker saw it.
#[derive(Clone, Debug)]
pub struct WalkEntry {
    /// The entry's full path.
    pub path: String,
    /// The components of the path below the scan root; the last one is the entry's name.
    pub components: Vec<String>,
    /// The entry is a regular file.
    pub is_file: bool,
    /// The file's length in bytes (0 where it could not be read).
    pub len: u64,
}

/// The model of a [`WalkEntry`].
pub ghost struct EntryView {
    pub path: Seq<char>,
    pub components: Seq<Seq<char>>,
    pub is_file: bool,
    pub len: u64,
}

impl View for WalkEntry {
    type V = EntryView;

    open spec fn view(&self) -> EntryView {
        EntryView {
            path: self.path@,
            components: self.components@.map_values(|c: String| c@),
            is_file: self.is_file,
            len: self.len,
        }
    }
}

impl WalkEntry {
    pub fn new(path: String, components: Vec<String>, is_file: bool, len: u64) -> (r: WalkEntry)
        ensures
            r.path == path,
            r.components == components,
            r.is_file == is_file,
            r.len == len,
    {
        WalkEntry { path, components, is_file, len }
    }
}

/// One matched filesystem entry, identified by its path.
#[derive(Clone, Debug)]
pub struct CleanableItem {
    pub path: String,
    pub item_type: String,
    pub size: u64,
    pub info: String,
    pub selected: bool,
}

/// The model of a [`CleanableItem`].
pub ghost struct ItemView {
    pub path: Seq<char>,
    pub item_type: Seq<char>,
    pub size: u64,
    pub info: Seq<char>,
    pub selected: bool,
}

impl View for CleanableItem {
    type V = ItemView;

    open spec fn view(&self) -> ItemView {
        ItemView {
            path: self.path@,
            item_type: self.item_type@,
            size: self.size,
            info: self.info@,
            selected: self.selected,
        }
    }
}

/// A byte count held in a `u64`: the count itself, or `u64::MAX` when it does not fit.
pub open spec fn saturated(x: int) -> u64 {
    if x > u64::MAX as int { u64::MAX } else if x < 0 { 0 } else { x as u64 }
}

/// The models of a sequence of items.
pub open spec fn items_view(items: Seq<CleanableItem>) -> Seq<ItemView> {
    items.map_values(|i: CleanableItem| i@)
}

/// What an item shows as its description: its info, or its category when the info is empty.
pub open spec fn display_info_of(item: ItemView) -> Seq<char> {
    if item.info.len() > 0 {
        item.info
    } else {
        item.item_type
    }
}

impl CleanableItem {
    /// A new, unselected item.
    pub fn new(path: String, item_type: String, size: u64, info: String) -> (r: CleanableItem)
        ensures
            r@ == (ItemView { path: path@, item_type: item_type@, size, info: info@, selected: false }),
    {
        CleanableItem { path, item_type, size, info, selected: false }
    }

    /// A copy of this item.
    pub fn duplicate(&self) -> (r: CleanableItem)
        ensures
            r@ == self@,
    {
        CleanableItem {
            path: self.path.clone(),
            item_type: self.item_type.clone(),
            size: self.size,
            info: self.info.clone(),
            selected: self.selected,
        }
    }

    /// The path as text.
    pub fn display_path(&self) -> (r: String)
        ensures
            r@ == self.path@,
    {
        self.path.clone()
    }

    /// The item's info, or its category when the info is empty.
    pub fn display_info(&self) -> (r: String)
        ensures
            r@ == display_info_of(self@),
    {
        if !self.info.as_str().is_empty() {
            self.info.clone()
        } else {
            self.item_type.clone()
        }
    }
}

/// The phases of a scan-and-clean session.
#[derive(Debug, Clone, Copy, PartialEq, Eq, Structural)]
pub enum AppState {
    Scanning,
    Selecting,
    Cleaning,
    Complete,
    Help,
}

} // verus!
