//! The sidebar's directory tree.

use vstd::prelude::*;
use crate::entry::Icon;
use crate::text::{chars_of, same};

verus! {

/// How tall a row is, in pixels. Every row is this tall, which is what lets the list draw
/// only the rows in view.
pub const ROW_HEIGHT: u32 = 22;

/// The tallest the tree gets before it scrolls, in pixels.
pub const PANEL_HEIGHT: u32 = 260;

/// What each level of depth costs, in pixels.
pub const INDENT: u32 = 12;

/// How much of the sidebar a name at the root has, in half pixels: the sidebar is 216
/// pixels wide, less the padding, the disclosure triangle, the folder icon and the gaps.
pub const NAME_WIDTH_AT_ROOT: u64 = 332;

/// How wide an ASCII character is taken to be, in half pixels.
pub const NARROW: u64 = 13;

/// How wide any other character is taken to be, in half pixels.
pub const WIDE: u64 = 24;

/// The list's viewport in pixels: the rows it has, one at least, up to the cap.
pub open spec fn height_of(rows: nat) -> nat {
    let wanted = if rows == 0 {
        ROW_HEIGHT as nat
    } else {
        ROW_HEIGHT as nat * rows
    };
    if wanted < PANEL_HEIGHT {
        wanted
    } else {
        PANEL_HEIGHT as nat
    }
}

/// The list's viewport: the rows it has, capped. A tree with three directories does not
/// reserve the whole panel, and an empty one still has a viewport to draw against.
pub fn visible_height(rows: usize) -> (r: u32)
    ensures
        r == height_of(rows as nat),
{
    if rows == 0 {
        return ROW_HEIGHT;
    }
    if rows >= PANEL_HEIGHT as usize {
        return PANEL_HEIGHT;
    }
    let wanted: u32 = ROW_HEIGHT * rows as u32;
    if wanted < PANEL_HEIGHT {
        wanted
    } else {
        PANEL_HEIGHT
    }
}

/// How wide a text is taken to be, in half pixels.
pub open spec fn label_width(s: Seq<char>) -> nat
    decreases s.len(),
{
    if s.len() == 0 {
        0
    } else {
        label_width(s.drop_last()) + if (s.last() as u32) < 128 {
            NARROW as nat
        } else {
            WIDE as nat
        }
    }
}

/// Whether a name is too wide for what its depth leaves of the sidebar.
pub open spec fn cut_off(label: Seq<char>, depth: nat) -> bool {
    label_width(label) + depth * 2 * INDENT > NAME_WIDTH_AT_ROOT
}

/// Prefixes of a text are no wider than the text.
proof fn lemma_width_grows(s: Seq<char>, i: int)
    requires
        0 <= i <= s.len(),
    ensures
        label_width(s.take(i)) <= label_width(s),
    decreases s.len() - i,
{
    if i < s.len() {
        assert(s.take(i + 1).drop_last() =~= s.take(i));
        lemma_width_grows(s, i + 1);
    } else {
        assert(s.take(i) =~= s);
    }
}

/// Whether `label` is wide enough at this depth to be cut off, and so wants a tooltip with
/// the whole name.
///
/// An estimate on purpose: text is measured long after the row is built. Guessing slightly
/// high only costs a tooltip on a name that happened to fit.
pub fn may_truncate(label: &str, depth: usize) -> (r: bool)
    ensures
        r == cut_off(label@, depth as nat),
{
    let chars = chars_of(label);
    let mut width: u64 = 0;
    let mut i: usize = 0;
    while i < chars.len() && width <= NAME_WIDTH_AT_ROOT
        invariant
            chars@ == label@,
            i <= chars@.len(),
            width == label_width(label@.take(i as int)),
            width <= NAME_WIDTH_AT_ROOT + WIDE,
        decreases chars@.len() - i,
    {
        assert(label@.take(i + 1).drop_last() =~= label@.take(i as int));
        if (chars[i] as u32) < 128 {
            width = width + NARROW;
        } else {
            width = width + WIDE;
        }
        i = i + 1;
    }
    proof {
        lemma_width_grows(label@, i as int);
        if i == chars@.len() {
            assert(label@.take(i as int) =~= label@);
        }
    }
    if depth >= 14 {
        return true;
    }
    let indent: u64 = depth as u64 * 24;
    width + indent > NAME_WIDTH_AT_ROOT
}

/// A row of the tree.
#[derive(Debug)]
pub struct TreeRow {
    pub path: String,
    pub label: String,
    pub depth: usize,
    pub expanded: bool,
    pub loading: bool,
    pub leaf: bool,
}

/// The tree, as the sidebar shows it.
#[derive(Debug)]
pub struct DirTreeView {
    /// The flattened rows, replaced only when the tree changes: flattening walks the whole
    /// expanded tree, which is too much for every frame.
    rows: Vec<TreeRow>,
    /// The directory the main pane is showing, highlighted here.
    current: String,
    show_hidden: bool,
}

/// A [`DirTreeView`] by what it holds.
pub struct Tree {
    pub rows: Seq<TreeRow>,
    pub current: Seq<char>,
    pub show_hidden: bool,
}

impl View for DirTreeView {
    type V = Tree;

    closed spec fn view(&self) -> Tree {
        Tree { rows: self.rows@, current: self.current@, show_hidden: self.show_hidden }
    }
}

/// A tree that shows or hides dot-directories, with the rows it then has. Where that is its
/// setting already, nothing changes.
pub open spec fn with_hidden(tree: Tree, show: bool, rows: Seq<TreeRow>) -> Tree {
    if tree.show_hidden == show {
        tree
    } else {
        Tree { show_hidden: show, rows, ..tree }
    }
}

/// What stands before a row's name.
#[derive(Clone, Copy, PartialEq, Eq, Structural, Debug)]
pub enum Twisty {
    /// The row is being listed.
    Loader,
    /// There is nothing to expand. The space keeps the names lined up.
    Spacer,
    /// The disclosure triangle.
    Triangle(Icon),
}

/// What stands before a row's name: while it is listed a loader, and a triangle where
/// there is something to expand.
pub open spec fn twisty_of(row: TreeRow) -> Twisty {
    if row.loading {
        Twisty::Loader
    } else if row.leaf {
        Twisty::Spacer
    } else if row.expanded {
        Twisty::Triangle(Icon::ChevronDown)
    } else {
        Twisty::Triangle(Icon::ChevronRight)
    }
}

/// A row, as it is drawn. Widths are in pixels.
#[derive(Debug)]
pub struct RowView {
    pub path: String,
    pub label: String,
    pub indent: u128,
    pub current: bool,
    pub twisty: Twisty,
    pub icon: Icon,
    pub tooltip: bool,
}

/// Whether a row is drawn as it should be, while `current` is shown in the main pane.
pub open spec fn drawn(view: RowView, row: TreeRow, current: Seq<char>) -> bool {
    &&& view.path@ == row.path@
    &&& view.label@ == row.label@
    &&& view.indent == 4 + row.depth * INDENT
    &&& view.current == (current == row.path@)
    &&& view.twisty == twisty_of(row)
    &&& view.icon == (if row.expanded {
        Icon::FolderOpen
    } else {
        Icon::FolderClosed
    })
    &&& view.tooltip == cut_off(row.label@, row.depth as nat)
}

/// What a click in the tree does.
#[derive(Debug)]
pub enum TreeClick {
    /// Expands or collapses a directory.
    Toggle(String),
    /// Goes to a directory in the main pane.
    Navigate(String),
    Nothing,
}

/// Whether a reaction is the one to a click on a row.
pub open spec fn click_does(r: TreeClick, row: TreeRow, on_twisty: bool) -> bool {
    match r {
        TreeClick::Nothing => false,
        TreeClick::Toggle(path) => path@ == row.path@ && on_twisty && twisty_of(row) is Triangle,
        TreeClick::Navigate(path) => path@ == row.path@ && !(on_twisty && twisty_of(
            row,
        ) is Triangle),
    }
}

fn twisty(row: &TreeRow) -> (r: Twisty)
    ensures
        r == twisty_of(*row),
{
    if row.loading {
        return Twisty::Loader;
    }
    if row.leaf {
        return Twisty::Spacer;
    }
    Twisty::Triangle(
        if row.expanded {
            Icon::ChevronDown
        } else {
            Icon::ChevronRight
        },
    )
}

impl DirTreeView {
    /// A tree with no rows yet, at the root.
    pub fn new() -> (r: DirTreeView)
        ensures
            r@ == (Tree { rows: Seq::empty(), current: Seq::empty(), show_hidden: false }),
    {
        DirTreeView { rows: Vec::new(), current: String::new(), show_hidden: false }
    }

    /// Follows the pane to another session: the root is current, and no row of the session
    /// before is left.
    pub fn set_vfs(&mut self)
        ensures
            final(self)@ == (Tree { rows: Seq::empty(), current: Seq::empty(), ..old(self)@ }),
    {
        self.rows = Vec::new();
        self.current = String::new();
    }

    /// Takes the rows of a tree that has changed.
    pub fn refresh_rows(&mut self, rows: Vec<TreeRow>)
        ensures
            final(self)@ == (Tree { rows: rows@, ..old(self)@ }),
    {
        self.rows = rows;
    }

    /// Follows the main pane: highlights its directory, among the rows of a tree whose
    /// ancestors of it are expanded.
    pub fn set_current(&mut self, dir: &str, rows: Vec<TreeRow>)
        ensures
            final(self)@ == (Tree { current: dir@, rows: rows@, ..old(self)@ }),
    {
        self.current = dir.to_owned();
        self.rows = rows;
    }

    /// Shows or hides dot-directories, following the main pane's toggle, and says whether
    /// that changes anything. `rows` are those of the tree with the new setting. Nothing is
    /// listed again: what is hidden is kept.
    pub fn set_show_hidden(&mut self, show: bool, rows: Vec<TreeRow>) -> (r: bool)
        ensures
            r == (old(self)@.show_hidden != show),
            final(self)@ == with_hidden(old(self)@, show, rows@),
    {
        if self.show_hidden == show {
            return false;
        }
        self.show_hidden = show;
        self.rows = rows;
        true
    }

    pub fn show_hidden(&self) -> (r: bool)
        ensures
            r == self@.show_hidden,
    {
        self.show_hidden
    }

    pub fn current(&self) -> (r: &str)
        ensures
            r@ == self@.current,
    {
        self.current.as_str()
    }

    pub fn rows(&self) -> (r: &Vec<TreeRow>)
        ensures
            r@ == self@.rows,
    {
        &self.rows
    }

    /// How tall the list is.
    pub fn height(&self) -> (r: u32)
        ensures
            r == height_of(self@.rows.len()),
    {
        visible_height(self.rows.len())
    }

    /// A row, as it is drawn. Nothing for a row that there is none of: the list may ask for
    /// one that has just gone.
    pub fn row(&self, ix: usize) -> (r: Option<RowView>)
        ensures
            match r {
                Some(view) => ix < self@.rows.len() && drawn(
                    view,
                    self@.rows[ix as int],
                    self@.current,
                ),
                None => ix >= self@.rows.len(),
            },
    {
        if ix >= self.rows.len() {
            return None;
        }
        let row = &self.rows[ix];
        let icon = if row.expanded {
            Icon::FolderOpen
        } else {
            Icon::FolderClosed
        };
        Some(
            RowView {
                path: row.path.clone(),
                label: row.label.clone(),
                indent: 4 + row.depth as u128 * INDENT as u128,
                current: same(self.current.as_str(), row.path.as_str()),
                twisty: twisty(row),
                icon,
                tooltip: may_truncate(row.label.as_str(), row.depth),
            },
        )
    }

    /// What a click on a row does. `on_twisty` says whether it hit what stands before the
    /// name: the triangle only expands or collapses, and anything else navigates.
    pub fn click(&self, ix: usize, on_twisty: bool) -> (r: TreeClick)
        ensures
            if ix < self@.rows.len() {
                click_does(r, self@.rows[ix as int], on_twisty)
            } else {
                r is Nothing
            },
    {
        if ix >= self.rows.len() {
            return TreeClick::Nothing;
        }
        let row = &self.rows[ix];
        let triangle = match twisty(row) {
            Twisty::Triangle(_) => true,
            _ => false,
        };
        if on_twisty && triangle {
            TreeClick::Toggle(row.path.clone())
        } else {
            TreeClick::Navigate(row.path.clone())
        }
    }
}

impl Default for DirTreeView {
    fn default() -> (r: DirTreeView)
        ensures
            r@ == (Tree { rows: Seq::empty(), current: Seq::empty(), show_hidden: false }),
    {
        DirTreeView::new()
    }
}

/// The list is never lower than a row nor taller than the cap, grows with its rows, and
/// shows them all as long as they fit.
pub proof fn law_height_is_bounded(rows: nat, more: nat)
    requires
        rows <= more,
    ensures
        ROW_HEIGHT <= height_of(rows) <= PANEL_HEIGHT,
        height_of(rows) <= height_of(more),
        0 < rows && rows * ROW_HEIGHT <= PANEL_HEIGHT ==> height_of(rows) == rows * ROW_HEIGHT,
{
    assert(ROW_HEIGHT as nat * rows <= ROW_HEIGHT as nat * more) by (nonlinear_arith)
        requires
            rows <= more,
    ;
    assert(rows >= 1 ==> ROW_HEIGHT as nat * rows >= ROW_HEIGHT) by (nonlinear_arith);
}

/// A name that is cut off is cut off at every greater depth too.
pub proof fn law_indentation_eats_into_the_budget(label: Seq<char>, depth: nat, deeper: nat)
    requires
        depth <= deeper,
        cut_off(label, depth),
    ensures
        cut_off(label, deeper),
{
}

/// A longer name is cut off wherever its beginning is.
pub proof fn law_longer_names_are_cut_off_too(label: Seq<char>, end: Seq<char>, depth: nat)
    requires
        cut_off(label, depth),
    ensures
        cut_off(label + end, depth),
{
    lemma_width_grows(label + end, label.len() as int);
    assert((label + end).take(label.len() as int) =~= label);
}

/// The list has 22 pixels for each row, for one at least and for no more than 260 in all.
pub proof fn law_heights(rows: nat)
    ensures
        height_of(0) == 22,
        0 < rows && 22 * rows <= 260 ==> height_of(rows) == 22 * rows,
        22 * rows > 260 ==> height_of(rows) == 260,
{
}

/// A name is as wide as its characters, half as many pixels as 13 for an ASCII one and 24 for
/// any other, and is cut off where that and 24 for each level of depth are more than 332.
pub proof fn law_widths(a: Seq<char>, b: Seq<char>, c: char, depth: nat)
    ensures
        label_width(Seq::empty()) == 0,
        (c as u32) < 128 ==> label_width(seq![c]) == 13,
        (c as u32) >= 128 ==> label_width(seq![c]) == 24,
        label_width(a + b) == label_width(a) + label_width(b),
        cut_off(a, depth) <==> label_width(a) + 24 * depth > 332,
    decreases b.len(),
{
    assert(seq![c].drop_last() =~= Seq::<char>::empty());
    if b.len() == 0 {
        assert(a + b =~= a);
    } else {
        law_widths(a, b.drop_last(), c, depth);
        assert((a + b).drop_last() =~= a + b.drop_last());
    }
}

/// A row that is being listed has a loader, one with nothing to expand has a space, and any
/// other has a triangle that points down while it is expanded and right while it is not.
pub proof fn law_twisties(row: TreeRow)
    ensures
        row.loading <==> twisty_of(row) is Loader,
        !row.loading && row.leaf <==> twisty_of(row) is Spacer,
        !row.loading && !row.leaf && row.expanded ==> twisty_of(row) == Twisty::Triangle(
            Icon::ChevronDown,
        ),
        !row.loading && !row.leaf && !row.expanded ==> twisty_of(row) == Twisty::Triangle(
            Icon::ChevronRight,
        ),
{
}

/// A row is drawn with its own path and name, 12 pixels further in for each level, and is
/// highlighted only where it is the directory that the main pane shows.
pub proof fn law_drawn_rows(view: RowView, row: TreeRow, current: Seq<char>)
    requires
        drawn(view, row, current),
    ensures
        view.path@ == row.path@,
        view.label@ == row.label@,
        view.indent == 4 + 12 * row.depth,
        view.current <==> row.path@ == current,
        view.twisty == twisty_of(row),
        row.expanded ==> view.icon is FolderOpen,
        !row.expanded ==> view.icon is FolderClosed,
        view.tooltip <==> label_width(row.label@) + 24 * row.depth > 332,
{
}

/// Changing whether dot-directories are shown takes the rows of the new setting, keeps which
/// directory is current, and does nothing where the setting stays.
pub proof fn law_hidden_rows(tree: Tree, show: bool, rows: Seq<TreeRow>)
    ensures
        with_hidden(tree, show, rows).show_hidden == show,
        with_hidden(tree, show, rows).current == tree.current,
        tree.show_hidden != show ==> with_hidden(tree, show, rows).rows == rows,
        tree.show_hidden == show ==> with_hidden(tree, show, rows).rows == tree.rows,
{
}

/// A click is always about the row that it hits. It expands or collapses the row only on the
/// triangle, which neither a row that is loading nor one without children has, and navigates
/// anywhere else.
pub proof fn law_clicks(r: TreeClick, row: TreeRow, on_twisty: bool)
    requires
        click_does(r, row, on_twisty),
    ensures
        r is Toggle <==> on_twisty && !row.loading && !row.leaf,
        r is Navigate <==> !on_twisty || row.loading || row.leaf,
        r matches TreeClick::Toggle(path) ==> path@ == row.path@,
        r matches TreeClick::Navigate(path) ==> path@ == row.path@,
{
}

} // verus!
