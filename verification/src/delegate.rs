//! The rows of the file table.

use vstd::prelude::*;
use crate::text::is_empty;
use crate::entry::{DirEntry, EntryAction, EntryKind, Icon, Rows, SortKey};

verus! {

const COL_NAME: usize = 0;

const COL_SIZE: usize = 1;

const COL_MODIFIED: usize = 2;

/// How a column's header says that the rows are ordered by it.
#[derive(Clone, Copy, PartialEq, Eq, Structural, Debug)]
pub enum ColumnSort {
    Default,
    Ascending,
    Descending,
}

/// A column of the table. Widths are in pixels.
#[derive(Clone, Copy, Debug)]
pub struct Column {
    pub key: &'static str,
    pub title: &'static str,
    pub width: u32,
    pub right: bool,
    pub sort: ColumnSort,
}

/// Supplies rows to the table.
///
/// The entry list is never reordered. Sorting and filtering produce an index view over
/// it: the places of the entries that are shown, in the order of the rows.
#[derive(Debug)]
pub struct EntriesDelegate {
    entries: Vec<DirEntry>,
    view: Vec<u32>,
    columns: Vec<Column>,
    sort_key: SortKey,
    ascending: bool,
    filter: String,
    show_hidden: bool,
    loading: bool,
}

/// An [`EntriesDelegate`] by what it holds.
pub struct TableState {
    pub entries: Seq<DirEntry>,
    pub view: Seq<u32>,
    pub columns: Seq<Column>,
    pub sort_key: SortKey,
    pub ascending: bool,
    pub filter: Seq<char>,
    pub show_hidden: bool,
    pub loading: bool,
}

impl View for EntriesDelegate {
    type V = TableState;

    closed spec fn view(&self) -> TableState {
        TableState {
            entries: self.entries@,
            view: self.view@,
            columns: self.columns@,
            sort_key: self.sort_key,
            ascending: self.ascending,
            filter: self.filter@,
            show_hidden: self.show_hidden,
            loading: self.loading,
        }
    }
}

impl TableState {
    /// The entry on a row, found through the index view.
    pub open spec fn on_row(self, row: int) -> Option<DirEntry> {
        if 0 <= row < self.view.len() && self.view[row] < self.entries.len() {
            Some(self.entries[self.view[row] as int])
        } else {
            None
        }
    }

    /// Whether every row has an entry.
    pub open spec fn rows_resolve(self) -> bool {
        forall|row: int| 0 <= row < self.view.len() ==> (#[trigger] self.view[row])
            < self.entries.len()
    }
}

/// A table that shows nothing, ordered by name.
pub open spec fn empty_table() -> TableState {
    TableState {
        entries: Seq::empty(),
        view: Seq::empty(),
        columns: seq![
            Column {
                key: "name",
                title: "名称",
                width: 340,
                right: false,
                sort: ColumnSort::Ascending,
            },
            Column {
                key: "size",
                title: "大小",
                width: 110,
                right: true,
                sort: ColumnSort::Default,
            },
            Column {
                key: "modified",
                title: "修改时间",
                width: 170,
                right: false,
                sort: ColumnSort::Default,
            },
        ],
        sort_key: SortKey::Name,
        ascending: true,
        filter: Seq::empty(),
        show_hidden: false,
        loading: false,
    }
}

/// The places, counted from `start`, of the entries of a batch that pass the filter.
pub open spec fn passing(start: int, matching: Seq<bool>) -> Seq<u32>
    decreases matching.len(),
{
    if matching.len() == 0 {
        Seq::empty()
    } else {
        let before = passing(start, matching.drop_last());
        if matching.last() {
            before.push((start + matching.len() - 1) as u32)
        } else {
            before
        }
    }
}

/// Whether a name is that of a dotfile.
pub open spec fn dotfile(name: Seq<char>) -> bool {
    name.len() > 0 && name[0] == '.'
}

/// Whether the setting hides what stands at a place among some entries.
pub open spec fn hidden(entries: Seq<DirEntry>, place: u32, show_hidden: bool) -> bool {
    !show_hidden && place < entries.len() && dotfile(entries[place as int].name@)
}

/// The places of an order that the setting does not hide.
pub open spec fn visible(entries: Seq<DirEntry>, view: Seq<u32>, show_hidden: bool) -> Seq<u32> {
    view.filter(|place: u32| !hidden(entries, place, show_hidden))
}

/// Which entries of a batch are shown: those that pass the filter and that the setting does
/// not hide.
pub open spec fn kept(batch: Seq<DirEntry>, matching: Seq<bool>, show_hidden: bool) -> Seq<bool> {
    Seq::new(
        batch.len(),
        |i: int| matching[i] && (show_hidden || !dotfile(batch[i].name@)),
    )
}

/// A table after a batch has been appended to it.
pub open spec fn extended(t: TableState, batch: Seq<DirEntry>, matching: Seq<bool>) -> TableState {
    TableState {
        entries: t.entries + batch,
        view: t.view + passing(t.entries.len() as int, kept(batch, matching, t.show_hidden)),
        ..t
    }
}

/// A table with other contents, whose rows are to be in the order of `view`.
pub open spec fn replaced(
    t: TableState,
    entries: Seq<DirEntry>,
    view: Seq<u32>,
    loading: bool,
) -> TableState {
    TableState { entries, view: visible(entries, view, t.show_hidden), loading, ..t }
}

/// A table that shows or hides dotfiles, whose rows are to be in the order of `view`.
pub open spec fn shown_hidden(t: TableState, view: Seq<u32>, show: bool) -> TableState {
    TableState { show_hidden: show, view: visible(t.entries, view, show), ..t }
}

/// What a column's rows are ordered by.
pub open spec fn column_key(col: int) -> SortKey {
    if col == 1 {
        SortKey::Size
    } else if col == 2 {
        SortKey::Modified
    } else {
        SortKey::Name
    }
}

/// The headers after ordering by one column: that one is marked, no other is.
pub open spec fn marked(columns: Seq<Column>, col: int, sort: ColumnSort) -> Seq<Column> {
    columns.map(
        |i: int, c: Column|
            Column {
                sort: if i == col {
                    sort
                } else {
                    ColumnSort::Default
                },
                ..c
            },
    )
}

/// Something a session offers to do with an entry.
#[derive(Debug)]
pub struct Offer {
    pub action: EntryAction,
    pub label: String,
    pub enabled: bool,
}

/// An item of a row's menu.
#[derive(Debug)]
pub struct MenuItem {
    pub action: EntryAction,
    pub label: String,
    pub disabled: bool,
}

/// Whether the items are what is offered, in its order. What cannot be done is shown and
/// cannot be chosen.
pub open spec fn menu_shows(items: Seq<MenuItem>, offers: Seq<Offer>) -> bool {
    &&& items.len() == offers.len()
    &&& forall|i: int|
        0 <= i < items.len() ==> (#[trigger] items[i]).action == offers[i].action
            && items[i].label@ == offers[i].label@ && items[i].disabled == !offers[i].enabled
}

/// What stands in a cell.
#[derive(Debug)]
pub enum Cell {
    Name { icon: Icon, accent: bool, text: String },
    Size { text: String },
    Modified { text: String },
    Blank,
}

/// A table with a filter, whose rows are to be in the order of `view`.
pub open spec fn filtered(t: TableState, filter: Seq<char>, view: Seq<u32>) -> TableState {
    TableState { filter, view: visible(t.entries, view, t.show_hidden), ..t }
}

/// A table ordered by a column, whose rows are to be in the order of `view`.
pub open spec fn sorted_by(t: TableState, col: int, sort: ColumnSort, view: Seq<u32>) -> TableState {
    TableState {
        sort_key: column_key(col),
        ascending: sort != ColumnSort::Descending,
        columns: marked(t.columns, col, sort),
        view: visible(t.entries, view, t.show_hidden),
        ..t
    }
}

/// Whether a cell shows what stands in a column for an entry.
pub open spec fn cell_shows(
    cell: Cell,
    entry: Option<DirEntry>,
    col: usize,
    size: Seq<char>,
    modified: Seq<char>,
    missing: Seq<char>,
) -> bool {
    match entry {
        None => cell is Blank,
        Some(e) => match cell {
            Cell::Name { icon, accent, text } => col == 0 && text@ == e.name@ && accent == e.dir()
                && icon == (if e.dir() {
                Icon::Folder
            } else {
                Icon::File
            }),
            Cell::Size { text } => col == 1 && text@ == (if e.dir() {
                missing
            } else {
                size
            }),
            Cell::Modified { text } => col == 2 && text@ == modified,
            Cell::Blank => col > 2,
        },
    }
}

/// What an entry's kind is called.
pub open spec fn kind_name(kind: EntryKind) -> Seq<char> {
    match kind {
        EntryKind::Dir => "目录"@,
        EntryKind::File => "文件"@,
        EntryKind::Unknown => "未知"@,
    }
}

impl EntriesDelegate {
    pub fn new() -> (r: EntriesDelegate)
        ensures
            r@ == empty_table(),
    {
        let columns: Vec<Column> = vec![
            Column {
                key: "name",
                title: "名称",
                width: 340,
                right: false,
                sort: ColumnSort::Ascending,
            },
            Column {
                key: "size",
                title: "大小",
                width: 110,
                right: true,
                sort: ColumnSort::Default,
            },
            Column {
                key: "modified",
                title: "修改时间",
                width: 170,
                right: false,
                sort: ColumnSort::Default,
            },
        ];
        let r = EntriesDelegate {
            entries: Vec::new(),
            view: Vec::new(),
            columns,
            sort_key: SortKey::Name,
            ascending: true,
            filter: String::new(),
            show_hidden: false,
            loading: false,
        };
        assert(r@.columns =~= empty_table().columns);
        r
    }

    /// The place among the entries of the one shown on `row_ix`.
    pub fn place(&self, row_ix: usize) -> (r: Option<usize>)
        ensures
            match r {
                Some(i) => i < self@.entries.len() && self@.on_row(row_ix as int) == Some(
                    self@.entries[i as int],
                ) && i == self@.view[row_ix as int],
                None => self@.on_row(row_ix as int) is None,
            },
    {
        if row_ix < self.view.len() {
            let i: usize = self.view[row_ix] as usize;
            if i < self.entries.len() {
                return Some(i);
            }
        }
        None
    }

    /// The entry shown on `row_ix`, resolved through the index view.
    pub fn entry(&self, row_ix: usize) -> (r: Option<&DirEntry>)
        ensures
            match r {
                Some(e) => self@.on_row(row_ix as int) == Some(*e),
                None => self@.on_row(row_ix as int) is None,
            },
    {
        match self.place(row_ix) {
            Some(i) => Some(&self.entries[i]),
            None => None,
        }
    }

    pub fn entries(&self) -> (r: &Vec<DirEntry>)
        ensures
            r@ == self@.entries,
    {
        &self.entries
    }

    pub fn is_loading(&self) -> (r: bool)
        ensures
            r == self@.loading,
    {
        self.loading
    }

    /// Replaces the contents outright, e.g. when serving a cache hit or applying the
    /// authoritative list once a directory finishes loading.
    pub fn reset(&mut self, rows: Rows, loading: bool)
        ensures
            final(self)@ == replaced(old(self)@, rows.entries@, rows.view@, loading),
    {
        self.view = visible_rows(&rows.entries, &rows.view, self.show_hidden);
        self.entries = rows.entries;
        self.loading = loading;
    }

    /// Shows nothing.
    pub fn clear(&mut self, loading: bool)
        ensures
            final(self)@ == replaced(old(self)@, Seq::empty(), Seq::empty(), loading),
    {
        self.reset(Rows { entries: Vec::new(), view: Vec::new() }, loading);
    }

    /// Appends a streamed batch. `matching` says of each of its entries whether it passes
    /// the filter.
    ///
    /// The rows that are there stay where they are: rows appear in arrival order while
    /// loading and are put in order once, by `reset`, at completion.
    pub fn extend(&mut self, batch: Vec<DirEntry>, matching: &Vec<bool>)
        requires
            matching@.len() == batch@.len(),
            old(self)@.entries.len() + batch@.len() <= u32::MAX,
        ensures
            final(self)@ == extended(old(self)@, batch@, matching@),
    {
        let start: u32 = self.entries.len() as u32;
        let ghost before = self@;
        let ghost keep = kept(batch@, matching@, self.show_hidden);
        let mut i: usize = 0;
        assert(before.view + passing(start as int, keep.take(0)) =~= before.view);
        while i < batch.len()
            invariant
                i <= batch@.len(),
                batch@.len() == matching@.len(),
                keep == kept(batch@, matching@, before.show_hidden),
                start + batch@.len() <= u32::MAX,
                start == before.entries.len(),
                self@ == (TableState {
                    view: before.view + passing(start as int, keep.take(i as int)),
                    ..before
                }),
            decreases batch@.len() - i,
        {
            assert(keep.take(i + 1).drop_last() =~= keep.take(i as int));
            assert(keep.take(i + 1).last() == keep[i as int]);
            if matching[i] && (self.show_hidden || !is_dotfile(batch[i].name.as_str())) {
                self.view.push(start + i as u32);
                assert(self.view@ =~= before.view + passing(start as int, keep.take(i + 1)));
            }
            i = i + 1;
        }
        assert(keep.take(i as int) =~= keep);
        let mut batch = batch;
        self.entries.append(&mut batch);
    }

    /// Sets the filter. `view` is the order of the entries that pass it.
    pub fn set_filter(&mut self, filter: &str, view: Vec<u32>)
        ensures
            final(self)@ == filtered(old(self)@, filter@, view@),
    {
        self.filter = filter.to_owned();
        self.view = visible_rows(&self.entries, &view, self.show_hidden);
    }

    pub fn filter(&self) -> (r: &str)
        ensures
            r@ == self@.filter,
    {
        self.filter.as_str()
    }

    /// Shows or hides dotfiles. `view` is the order of the entries that pass the filter.
    pub fn set_show_hidden(&mut self, show: bool, view: Vec<u32>)
        ensures
            final(self)@ == shown_hidden(old(self)@, view@, show),
    {
        self.show_hidden = show;
        self.view = visible_rows(&self.entries, &view, show);
    }

    pub fn show_hidden(&self) -> (r: bool)
        ensures
            r == self@.show_hidden,
    {
        self.show_hidden
    }

    /// What the rows are ordered by, and whether upwards.
    pub fn order(&self) -> (r: (SortKey, bool))
        ensures
            r == (self@.sort_key, self@.ascending),
    {
        (self.sort_key, self.ascending)
    }

    /// How many entries exist regardless of the filter, for the status bar.
    pub fn total(&self) -> (r: usize)
        ensures
            r == self@.entries.len(),
    {
        self.entries.len()
    }

    /// How many rows pass the filter, i.e. how many the table draws.
    pub fn shown(&self) -> (r: usize)
        ensures
            r == self@.view.len(),
    {
        self.view.len()
    }

    pub fn columns(&self) -> (r: &Vec<Column>)
        ensures
            r@ == self@.columns,
    {
        &self.columns
    }

    /// Whether to draw the skeleton. Only before anything has arrived: once rows exist,
    /// they stay while more stream in underneath.
    pub fn skeleton(&self) -> (r: bool)
        ensures
            r == (self@.loading && self@.entries.len() == 0),
    {
        self.loading && self.entries.len() == 0
    }

    /// Orders the rows by a column, in the order that `view` gives, and moves the mark in
    /// the headers there.
    pub fn perform_sort(&mut self, col_ix: usize, sort: ColumnSort, view: Vec<u32>)
        ensures
            final(self)@ == sorted_by(old(self)@, col_ix as int, sort, view@),
    {
        let ghost before = self@;
        let (sort_key, ascending) = order_by(col_ix, sort);
        self.sort_key = sort_key;
        self.ascending = ascending;
        let mut columns: Vec<Column> = Vec::new();
        let mut i: usize = 0;
        while i < self.columns.len()
            invariant
                self@.columns == before.columns,
                i <= self.columns.len(),
                columns@ == marked(before.columns, col_ix as int, sort).take(i as int),
                self@ == (TableState {
                    sort_key: column_key(col_ix as int),
                    ascending: sort != ColumnSort::Descending,
                    ..before
                }),
            decreases self.columns.len() - i,
        {
            let c = self.columns[i];
            let mark = if i == col_ix {
                sort
            } else {
                ColumnSort::Default
            };
            columns.push(
                Column { key: c.key, title: c.title, width: c.width, right: c.right, sort: mark },
            );
            assert(columns@ =~= marked(before.columns, col_ix as int, sort).take(i + 1));
            i = i + 1;
        }
        assert(columns@ =~= marked(before.columns, col_ix as int, sort));
        self.columns = columns;
        self.view = visible_rows(&self.entries, &view, self.show_hidden);
    }

    /// A row's menu, of what the session offers for its entry. There is none for a row that
    /// is not there, nor without a session.
    pub fn context_menu(&self, row_ix: usize, offers: &Option<Vec<Offer>>) -> (r: Vec<MenuItem>)
        ensures
            match *offers {
                Some(offers) => if self@.on_row(row_ix as int) is Some {
                    menu_shows(r@, offers@)
                } else {
                    r@.len() == 0
                },
                None => r@.len() == 0,
            },
    {
        let mut r: Vec<MenuItem> = Vec::new();
        match (self.entry(row_ix), offers) {
            (Some(_), Some(offers)) => {
                let mut i: usize = 0;
                while i < offers.len()
                    invariant
                        i <= offers@.len(),
                        menu_shows(r@, offers@.take(i as int)),
                    decreases offers@.len() - i,
                {
                    let offer = &offers[i];
                    r.push(
                        MenuItem {
                            action: offer.action,
                            label: offer.label.clone(),
                            disabled: !offer.enabled,
                        },
                    );
                    i = i + 1;
                }
                assert(offers@.take(i as int) =~= offers@);
            },
            (_, _) => {},
        }
        r
    }

    /// What stands in a cell. `size` and `modified` are the entry's size and time as they
    /// are written, and `missing` is what is written for a size that there is none of:
    /// directories have no size.
    pub fn cell(&self, row_ix: usize, col_ix: usize, size: &str, modified: &str, missing: &str)
        -> (r: Cell)
        ensures
            cell_shows(r, self@.on_row(row_ix as int), col_ix, size@, modified@, missing@),
    {
        match self.entry(row_ix) {
            None => Cell::Blank,
            Some(entry) => {
                let dir = entry.is_dir();
                if col_ix == COL_NAME {
                    let icon = if dir {
                        Icon::Folder
                    } else {
                        Icon::File
                    };
                    Cell::Name { icon, accent: dir, text: entry.name.clone() }
                } else if col_ix == COL_SIZE {
                    let text = if dir {
                        missing.to_owned()
                    } else {
                        size.to_owned()
                    };
                    Cell::Size { text }
                } else if col_ix == COL_MODIFIED {
                    Cell::Modified { text: modified.to_owned() }
                } else {
                    Cell::Blank
                }
            },
        }
    }
}

fn is_dotfile(name: &str) -> (r: bool)
    ensures
        r == dotfile(name@),
{
    !is_empty(name) && name.get_char(0) == '.'
}

/// The places of an order that the setting does not hide.
fn visible_rows(entries: &Vec<DirEntry>, view: &Vec<u32>, show_hidden: bool) -> (r: Vec<u32>)
    ensures
        r@ == visible(entries@, view@, show_hidden),
{
    let mut r: Vec<u32> = Vec::new();
    let mut i: usize = 0;
    proof {
        reveal(Seq::filter);
    }
    while i < view.len()
        invariant
            i <= view@.len(),
            r@ == visible(entries@, view@.take(i as int), show_hidden),
        decreases view@.len() - i,
    {
        proof {
            reveal(Seq::filter);
            assert(view@.take(i + 1).drop_last() =~= view@.take(i as int));
        }
        let place: u32 = view[i];
        if show_hidden || place as usize >= entries.len() || !is_dotfile(
            entries[place as usize].name.as_str(),
        ) {
            r.push(place);
        }
        i = i + 1;
    }
    assert(view@.take(i as int) =~= view@);
    r
}

/// What choosing a column's header with a mark orders the rows by, and whether upwards.
pub fn order_by(col_ix: usize, sort: ColumnSort) -> (r: (SortKey, bool))
    ensures
        r == (column_key(col_ix as int), sort != ColumnSort::Descending),
{
    let key = if col_ix == COL_SIZE {
        SortKey::Size
    } else if col_ix == COL_MODIFIED {
        SortKey::Modified
    } else {
        SortKey::Name
    };
    (key, sort != ColumnSort::Descending)
}

impl Default for EntriesDelegate {
    fn default() -> (r: EntriesDelegate)
        ensures
            r@ == empty_table(),
    {
        EntriesDelegate::new()
    }
}

/// A row's kind, for callers that only need the classification.
pub fn kind_label(kind: EntryKind) -> (r: &'static str)
    ensures
        r@ == kind_name(kind),
{
    match kind {
        EntryKind::Dir => "目录",
        EntryKind::File => "文件",
        EntryKind::Unknown => "未知",
    }
}

/// The rows that a batch adds are exactly those of its entries that pass the filter, in
/// the order in which they arrived.
pub proof fn law_batch_obeys_the_filter(start: int, matching: Seq<bool>)
    requires
        0 <= start,
        start + matching.len() <= u32::MAX,
    ensures
        forall|k: int|
            0 <= k < passing(start, matching).len() ==> {
                let place = #[trigger] passing(start, matching)[k];
                start <= place < start + matching.len() && matching[place - start]
            },
        forall|j: int|
            0 <= j < matching.len() && #[trigger] matching[j] ==> passing(start, matching).contains(
                (start + j) as u32,
            ),
        forall|k: int, l: int|
            0 <= k < l < passing(start, matching).len() ==> #[trigger] passing(start, matching)[k]
                < #[trigger] passing(start, matching)[l],
    decreases matching.len(),
{
    if matching.len() > 0 {
        let rest = matching.drop_last();
        let before = passing(start, rest);
        law_batch_obeys_the_filter(start, rest);
        let all = passing(start, matching);
        if matching.last() {
            assert(all == before.push((start + matching.len() - 1) as u32));
        }
        assert forall|j: int| 0 <= j < matching.len() && #[trigger] matching[j] implies all.contains(
            (start + j) as u32,
        ) by {
            if j < rest.len() {
                assert(rest[j]);
                let k = choose|k: int|
                    0 <= k < before.len() && before[k] == (start + j) as u32;
                assert(all[k] == before[k]);
            } else {
                assert(all[all.len() - 1] == (start + j) as u32);
            }
        }
        assert forall|k: int| 0 <= k < all.len() implies {
            let place = #[trigger] all[k];
            start <= place < start + matching.len() && matching[place - start]
        } by {
            if k < before.len() {
                assert(all[k] == before[k]);
                assert(rest[before[k] - start]);
            }
        }
    }
}

/// A batch moves no row that is shown already, and where every row had an entry, every
/// row still has one. What it adds are entries of the batch that pass the filter, and no
/// dotfiles where those are hidden.
pub proof fn law_extend_keeps_rows(t: TableState, batch: Seq<DirEntry>, matching: Seq<bool>)
    requires
        matching.len() == batch.len(),
        t.entries.len() + batch.len() <= u32::MAX,
        t.rows_resolve(),
    ensures
        extended(t, batch, matching).rows_resolve(),
        forall|row: int|
            0 <= row < t.view.len() ==> #[trigger] extended(t, batch, matching).on_row(row)
                == t.on_row(row),
        forall|row: int|
            t.view.len() <= row < extended(t, batch, matching).view.len() ==> {
                let place = #[trigger] extended(t, batch, matching).view[row];
                let added = place - t.entries.len();
                &&& 0 <= added < batch.len()
                &&& matching[added]
                &&& t.show_hidden || !dotfile(batch[added].name@)
                &&& extended(t, batch, matching).on_row(row) == Some(batch[added])
            },
{
    let start = t.entries.len() as int;
    let keep = kept(batch, matching, t.show_hidden);
    let added = passing(start, keep);
    let new = extended(t, batch, matching);
    law_batch_obeys_the_filter(start, keep);
    assert forall|row: int| 0 <= row < new.view.len() implies (#[trigger] new.view[row])
        < new.entries.len() by {
        if row >= t.view.len() {
            assert(new.view[row] == added[row - t.view.len()]);
        } else {
            assert(new.view[row] == t.view[row]);
        }
    }
    assert forall|row: int| 0 <= row < t.view.len() implies #[trigger] new.on_row(row)
        == t.on_row(row) by {
        assert(new.view[row] == t.view[row]);
    }
    assert forall|row: int| t.view.len() <= row < new.view.len() implies {
        let place = #[trigger] new.view[row];
        let from = place - t.entries.len();
        &&& 0 <= from < batch.len()
        &&& matching[from]
        &&& t.show_hidden || !dotfile(batch[from].name@)
        &&& new.on_row(row) == Some(batch[from])
    } by {
        assert(new.view[row] == added[row - t.view.len()]);
        assert(keep[new.view[row] - start]);
    }
}

/// What is shown of an order is of it, and is no dotfile where those are hidden; everything
/// else of it is shown. Where they are not hidden the whole of it is.
pub proof fn law_hidden_entries_stay_hidden(
    entries: Seq<DirEntry>,
    view: Seq<u32>,
    show_hidden: bool,
)
    ensures
        show_hidden ==> visible(entries, view, show_hidden) == view,
        forall|k: int|
            0 <= k < visible(entries, view, show_hidden).len() ==> {
                let place = #[trigger] visible(entries, view, show_hidden)[k];
                view.contains(place) && !hidden(entries, place, show_hidden)
            },
        forall|i: int|
            0 <= i < view.len() && !hidden(entries, #[trigger] view[i], show_hidden) ==> visible(
                entries,
                view,
                show_hidden,
            ).contains(view[i]),
    decreases view.len(),
{
    reveal(Seq::filter);
    if view.len() > 0 {
        let rest = view.drop_last();
        law_hidden_entries_stay_hidden(entries, rest, show_hidden);
        let before = visible(entries, rest, show_hidden);
        let all = visible(entries, view, show_hidden);
        if show_hidden {
            assert(all =~= view);
        }
        assert forall|k: int| 0 <= k < all.len() implies {
            let place = #[trigger] all[k];
            view.contains(place) && !hidden(entries, place, show_hidden)
        } by {
            if k < before.len() {
                assert(all[k] == before[k]);
                let j = choose|j: int| 0 <= j < rest.len() && rest[j] == before[k];
                assert(view[j] == all[k]);
            } else {
                assert(view[view.len() - 1] == all[k]);
            }
        }
        assert forall|i: int|
            0 <= i < view.len() && !hidden(entries, #[trigger] view[i], show_hidden) implies
            all.contains(view[i]) by {
            if i < rest.len() {
                assert(rest[i] == view[i]);
                assert(before.contains(rest[i]));
                let k = choose|k: int| 0 <= k < before.len() && before[k] == rest[i];
                assert(all[k] == view[i]);
            } else {
                assert(all[all.len() - 1] == view[i]);
            }
        }
    } else {
        assert(visible(entries, view, show_hidden) =~= view);
    }
}

/// Showing dotfiles and hiding them again, or the other way round, shows what was shown.
pub proof fn law_toggling_hidden_twice_restores(t: TableState, view: Seq<u32>)
    requires
        t.view == visible(t.entries, view, t.show_hidden),
    ensures
        shown_hidden(shown_hidden(t, view, !t.show_hidden), view, t.show_hidden) == t,
{
}

/// Where every place of an order has an entry, so has every row that it shows.
pub proof fn law_replaced_rows_resolve(
    t: TableState,
    entries: Seq<DirEntry>,
    view: Seq<u32>,
    loading: bool,
)
    requires
        forall|i: int| 0 <= i < view.len() ==> (#[trigger] view[i]) < entries.len(),
    ensures
        replaced(t, entries, view, loading).rows_resolve(),
        replaced(t, entries, view, loading).entries == entries,
{
    law_hidden_entries_stay_hidden(entries, view, t.show_hidden);
    let new = replaced(t, entries, view, loading);
    assert forall|row: int| 0 <= row < new.view.len() implies (#[trigger] new.view[row])
        < new.entries.len() by {
        let place = new.view[row];
        assert(view.contains(place));
        let i = choose|i: int| 0 <= i < view.len() && view[i] == place;
        assert(view[i] < entries.len());
    }
}

/// Where every row has an entry, a row is answered if and only if it is shown.
pub proof fn law_shown_rows_answer(t: TableState, row: int)
    requires
        t.rows_resolve(),
    ensures
        t.on_row(row) is Some <==> 0 <= row < t.view.len(),
{
}

/// Whether `places` leads through an order from its beginning to its end, and `rows` is what
/// stands at those places.
pub open spec fn picked(rows: Seq<u32>, view: Seq<u32>, places: Seq<int>) -> bool {
    &&& places.len() == rows.len()
    &&& forall|k: int|
        0 <= k < places.len() ==> 0 <= (#[trigger] places[k]) < view.len() && view[places[k]]
            == rows[k]
    &&& forall|k: int, l: int|
        0 <= k < l < places.len() ==> (#[trigger] places[k]) < (#[trigger] places[l])
}

/// The rows keep the order that is given: they are what stands in it, from its beginning to
/// its end, at every place that is not hidden and at no other.
pub proof fn law_rows_keep_the_given_order(
    entries: Seq<DirEntry>,
    view: Seq<u32>,
    show_hidden: bool,
)
    ensures
        exists|places: Seq<int>|
            #[trigger] picked(visible(entries, view, show_hidden), view, places) && forall|i: int|
                0 <= i < view.len() ==> (places.contains(i) <==> !hidden(
                    entries,
                    #[trigger] view[i],
                    show_hidden,
                )),
{
    let _ = lemma_places(entries, view, show_hidden);
}

proof fn lemma_places(entries: Seq<DirEntry>, view: Seq<u32>, show_hidden: bool) -> (places: Seq<
    int,
>)
    ensures
        picked(visible(entries, view, show_hidden), view, places),
        forall|i: int|
            0 <= i < view.len() ==> (places.contains(i) <==> !hidden(
                entries,
                #[trigger] view[i],
                show_hidden,
            )),
        forall|k: int| 0 <= k < places.len() ==> 0 <= (#[trigger] places[k]) < view.len(),
    decreases view.len(),
{
    reveal(Seq::filter);
    if view.len() == 0 {
        Seq::empty()
    } else {
        let rest = view.drop_last();
        let last = view.len() - 1;
        let before = lemma_places(entries, rest, show_hidden);
        let rows = visible(entries, view, show_hidden);
        let places = if hidden(entries, view[last], show_hidden) {
            before
        } else {
            before.push(last)
        };
        assert forall|k: int| 0 <= k < places.len() implies 0 <= (#[trigger] places[k]) < view.len()
            && view[places[k]] == rows[k] by {
            if k < before.len() {
                assert(places[k] == before[k]);
                assert(rest[before[k]] == visible(entries, rest, show_hidden)[k]);
                assert(rest[before[k]] == view[before[k]]);
            }
        }
        assert forall|k: int, l: int| 0 <= k < l < places.len() implies (#[trigger] places[k]) < (
        #[trigger] places[l]) by {
            assert(places[k] == before[k]);
            if l < before.len() {
                assert(places[l] == before[l]);
            }
        }
        assert forall|i: int| 0 <= i < view.len() implies (places.contains(i) <==> !hidden(
            entries,
            #[trigger] view[i],
            show_hidden,
        )) by {
            if i < last {
                assert(rest[i] == view[i]);
                if before.contains(i) {
                    let k = choose|k: int| 0 <= k < before.len() && before[k] == i;
                    assert(places[k] == i);
                }
                if places.contains(i) {
                    let k = choose|k: int| 0 <= k < places.len() && places[k] == i;
                    assert(before[k] == i);
                }
            } else {
                if !hidden(entries, view[last], show_hidden) {
                    assert(places[before.len() as int] == last);
                } else if places.contains(i) {
                    let k = choose|k: int| 0 <= k < before.len() && before[k] == i;
                    assert(before[k] < rest.len());
                }
            }
        }
        places
    }
}

/// What is shown of two orders, one behind the other, is what is shown of each, one behind the
/// other: no row depends on another one.
pub proof fn law_rows_are_shown_one_by_one(
    entries: Seq<DirEntry>,
    front: Seq<u32>,
    back: Seq<u32>,
    place: u32,
    show_hidden: bool,
)
    ensures
        visible(entries, front + back, show_hidden) == visible(entries, front, show_hidden)
            + visible(entries, back, show_hidden),
        visible(entries, seq![place], show_hidden) == (if !show_hidden && place < entries.len()
            && entries[place as int].name@.len() > 0 && entries[place as int].name@[0] == '.' {
            Seq::<u32>::empty()
        } else {
            seq![place]
        }),
    decreases back.len(),
{
    reveal(Seq::filter);
    let one = seq![place];
    assert(one.drop_last() =~= Seq::<u32>::empty());
    assert(visible(entries, Seq::empty(), show_hidden) =~= Seq::empty());
    assert(visible(entries, one, show_hidden) =~= (if hidden(entries, place, show_hidden) {
        Seq::<u32>::empty()
    } else {
        seq![place]
    }));
    if back.len() == 0 {
        assert(front + back =~= front);
        assert(visible(entries, back, show_hidden) =~= Seq::empty());
        assert(visible(entries, front, show_hidden) + Seq::<u32>::empty() =~= visible(
            entries,
            front,
            show_hidden,
        ));
    } else {
        law_rows_are_shown_one_by_one(entries, front, back.drop_last(), place, show_hidden);
        assert((front + back).drop_last() =~= front + back.drop_last());
        assert(visible(entries, front + back, show_hidden) =~= visible(entries, front, show_hidden)
            + visible(entries, back, show_hidden));
    }
}

/// A dotfile is what has a dot before the rest of its name, and it is hidden only while
/// dotfiles are.
pub proof fn law_dotfiles(rest: Seq<char>, c: char, entries: Seq<DirEntry>, place: u32, show: bool)
    ensures
        !dotfile(Seq::empty()),
        dotfile(seq![c] + rest) <==> c == '.',
        hidden(entries, place, show) <==> !show && place < entries.len() && dotfile(
            entries[place as int].name@,
        ),
{
}

/// A batch shows every entry of it that passes the filter and is not hidden, and shows no
/// other; nothing else of the table changes.
pub proof fn law_a_batch_is_shown_completely(
    t: TableState,
    batch: Seq<DirEntry>,
    matching: Seq<bool>,
    i: int,
)
    requires
        matching.len() == batch.len(),
        t.entries.len() + batch.len() <= u32::MAX,
        0 <= i < batch.len(),
    ensures
        ({
            let new = extended(t, batch, matching);
            let place = (t.entries.len() + i) as u32;
            let shown = matching[i] && (t.show_hidden || batch[i].name@.len() == 0
                || batch[i].name@[0] != '.');
            &&& new.entries == t.entries + batch
            &&& new.view.take(t.view.len() as int) == t.view
            &&& new.view.skip(t.view.len() as int).contains(place) <==> shown
            &&& new.columns == t.columns && new.sort_key == t.sort_key && new.ascending
                == t.ascending
            &&& new.filter == t.filter && new.show_hidden == t.show_hidden && new.loading
                == t.loading
        }),
{
    let start = t.entries.len() as int;
    let keep = kept(batch, matching, t.show_hidden);
    let added = passing(start, keep);
    let new = extended(t, batch, matching);
    law_batch_obeys_the_filter(start, keep);
    assert(new.view.take(t.view.len() as int) =~= t.view);
    assert(new.view.skip(t.view.len() as int) =~= added);
    if added.contains((start + i) as u32) {
        let k = choose|k: int| 0 <= k < added.len() && added[k] == (start + i) as u32;
        assert(keep[added[k] - start]);
    }
    if keep[i] {
        assert(added.contains((start + i) as u32));
    }
}

/// Replacing a table's contents keeps the contents as they are given, and everything about
/// the table that is no content.
pub proof fn law_replacing_keeps_the_settings(
    t: TableState,
    entries: Seq<DirEntry>,
    view: Seq<u32>,
    loading: bool,
    show: bool,
)
    ensures
        replaced(t, entries, view, loading).entries == entries,
        replaced(t, entries, view, loading).view == visible(entries, view, t.show_hidden),
        replaced(t, entries, view, loading).loading == loading,
        replaced(t, entries, view, loading).columns == t.columns,
        replaced(t, entries, view, loading).sort_key == t.sort_key,
        replaced(t, entries, view, loading).ascending == t.ascending,
        replaced(t, entries, view, loading).filter == t.filter,
        replaced(t, entries, view, loading).show_hidden == t.show_hidden,
        shown_hidden(t, view, show).show_hidden == show,
        shown_hidden(t, view, show).view == visible(t.entries, view, show),
        shown_hidden(t, view, show).entries == t.entries,
        shown_hidden(t, view, show).columns == t.columns,
        shown_hidden(t, view, show).sort_key == t.sort_key,
        shown_hidden(t, view, show).ascending == t.ascending,
        shown_hidden(t, view, show).filter == t.filter,
        shown_hidden(t, view, show).loading == t.loading,
{
}

/// A row shows the entry at the place that the order gives for it.
pub proof fn law_a_row_shows_its_entry(t: TableState, row: int)
    ensures
        0 <= row < t.view.len() && t.view[row] < t.entries.len() ==> t.on_row(row) == Some(
            t.entries[t.view[row] as int],
        ),
        !(0 <= row < t.view.len() && t.view[row] < t.entries.len()) ==> t.on_row(row) is None,
        t.rows_resolve() <==> forall|r: int|
            0 <= r < t.view.len() ==> (#[trigger] t.view[r]) < t.entries.len(),
{
}

/// The columns are the name, the size and the time, and a new table is ordered by name,
/// upwards, with no filter and without dotfiles.
pub proof fn law_a_new_table()
    ensures
        ({
            let t = empty_table();
            &&& t.entries.len() == 0 && t.view.len() == 0 && t.filter.len() == 0
            &&& t.sort_key is Name && t.ascending && !t.show_hidden && !t.loading
            &&& t.columns.len() == 3
            &&& t.columns[0].key@ == "name"@ && t.columns[0].title@ == "名称"@
            &&& t.columns[0].width == 340 && !t.columns[0].right && t.columns[0].sort is Ascending
            &&& t.columns[1].key@ == "size"@ && t.columns[1].title@ == "大小"@
            &&& t.columns[1].width == 110 && t.columns[1].right && t.columns[1].sort is Default
            &&& t.columns[2].key@ == "modified"@ && t.columns[2].title@ == "修改时间"@
            &&& t.columns[2].width == 170 && !t.columns[2].right && t.columns[2].sort is Default
        }),
{
}

/// Each column orders by what it shows, and its header is the only one that is marked.
pub proof fn law_sorting_marks_one_column(
    columns: Seq<Column>,
    col: int,
    sort: ColumnSort,
    i: int,
)
    requires
        0 <= i < columns.len(),
    ensures
        column_key(0) is Name,
        column_key(1) is Size,
        column_key(2) is Modified,
        col != 1 && col != 2 ==> column_key(col) is Name,
        marked(columns, col, sort).len() == columns.len(),
        marked(columns, col, sort)[i].key == columns[i].key,
        marked(columns, col, sort)[i].title == columns[i].title,
        marked(columns, col, sort)[i].width == columns[i].width,
        marked(columns, col, sort)[i].right == columns[i].right,
        i == col ==> marked(columns, col, sort)[i].sort == sort,
        i != col ==> marked(columns, col, sort)[i].sort is Default,
{
}

/// A menu has an item for everything that is offered, in its order, with its words, and lets
/// exactly what is enabled be chosen.
pub proof fn law_menus_show_every_offer(items: Seq<MenuItem>, offers: Seq<Offer>, i: int)
    requires
        menu_shows(items, offers),
        0 <= i < offers.len(),
    ensures
        items.len() == offers.len(),
        items[i].action == offers[i].action,
        items[i].label@ == offers[i].label@,
        items[i].disabled <==> !offers[i].enabled,
{
}

/// Filtering and ordering lose nothing: the entries and every setting but their own stay as
/// they are, and going back to an earlier filter and order shows the rows that were shown.
pub proof fn law_filtering_and_ordering_lose_nothing(
    t: TableState,
    filter: Seq<char>,
    view: Seq<u32>,
    col: int,
    sort: ColumnSort,
    before: Seq<u32>,
)
    requires
        t.view == visible(t.entries, before, t.show_hidden),
    ensures
        filtered(t, filter, view).entries == t.entries,
        filtered(t, filter, view).filter == filter,
        filtered(t, filter, view).view == visible(t.entries, view, t.show_hidden),
        filtered(t, filter, view).sort_key == t.sort_key && filtered(t, filter, view).ascending
            == t.ascending && filtered(t, filter, view).columns == t.columns,
        filtered(t, filter, view).show_hidden == t.show_hidden && filtered(t, filter, view).loading
            == t.loading,
        filtered(filtered(t, filter, view), t.filter, before) == t,
        sorted_by(t, col, sort, view).entries == t.entries,
        sorted_by(t, col, sort, view).view == visible(t.entries, view, t.show_hidden),
        sorted_by(t, col, sort, view).filter == t.filter && sorted_by(t, col, sort, view).loading
            == t.loading && sorted_by(t, col, sort, view).show_hidden == t.show_hidden,
        sorted_by(t, col, sort, view).ascending <==> !(sort is Descending),
        col == 1 ==> sorted_by(t, col, sort, view).sort_key is Size,
        col == 2 ==> sorted_by(t, col, sort, view).sort_key is Modified,
        col != 1 && col != 2 ==> sorted_by(t, col, sort, view).sort_key is Name,
        sorted_by(t, col, sort, view).columns == marked(t.columns, col, sort),
{
}

/// A row's cells show its own entry: its name, with a folder for directories only, its size,
/// which a directory has none of, and its time.
pub proof fn law_cells(
    cell: Cell,
    e: DirEntry,
    col: usize,
    size: Seq<char>,
    modified: Seq<char>,
    missing: Seq<char>,
)
    ensures
        cell_shows(cell, None, col, size, modified, missing) <==> cell is Blank,
        cell_shows(cell, Some(e), 0, size, modified, missing) ==> (cell matches Cell::Name {
            icon,
            accent,
            text,
        } && text@ == e.name@ && (e.kind is Dir ==> icon is Folder && accent) && (!(e.kind is Dir)
            ==> icon is File && !accent)),
        cell_shows(cell, Some(e), 1, size, modified, missing) ==> (cell matches Cell::Size { text }
            && (e.kind is Dir ==> text@ == missing) && (!(e.kind is Dir) ==> text@ == size)),
        cell_shows(cell, Some(e), 2, size, modified, missing) ==> (cell matches Cell::Modified {
            text,
        } && text@ == modified),
        col > 2 && cell_shows(cell, Some(e), col, size, modified, missing) ==> cell is Blank,
        kind_name(EntryKind::Dir) == "目录"@,
        kind_name(EntryKind::File) == "文件"@,
        kind_name(EntryKind::Unknown) == "未知"@,
{
}

} // verus!
