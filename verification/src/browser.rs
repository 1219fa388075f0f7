//! One browsing pane over one backend session.

use vstd::prelude::*;
use crate::delegate::{EntriesDelegate, TableState, empty_table, extended, replaced, shown_hidden, visible};
use crate::dialog::{ButtonStyle, Dialog, notice, question};
use crate::entry::{Capability, DirEntry, EntryAction, Icon, Rows};
use crate::text::{cat, cat3, decimal, is_empty, number, same, text_option, texts};

verus! {

/// How many seconds a copied share link stays valid.
pub const SHARE_LINK_TTL: u64 = 600;

/// The pane's state: where it is, where it came from, and what is under way.
#[derive(Debug)]
pub struct Browser {
    label: String,
    capability: Capability,
    /// Current directory, `""` at the root.
    cwd: String,
    back: Vec<String>,
    forward: Vec<String>,
    /// Incremented on every navigation. Batches tagged with an older generation are
    /// discarded, so a slow listing cannot overwrite a newer directory.
    generation: u64,
    loading: bool,
    error: Option<String>,
    /// Mutations in flight.
    pending_mutations: usize,
    preview_open: bool,
}

/// A [`Browser`] by what it holds.
pub struct Pane {
    pub label: Seq<char>,
    pub capability: Capability,
    pub cwd: Seq<char>,
    pub back: Seq<Seq<char>>,
    pub forward: Seq<Seq<char>>,
    pub generation: nat,
    pub loading: bool,
    pub error: Option<Seq<char>>,
    pub pending: nat,
    pub preview_open: bool,
}

impl View for Browser {
    type V = Pane;

    closed spec fn view(&self) -> Pane {
        Pane {
            label: self.label@,
            capability: self.capability,
            cwd: self.cwd@,
            back: texts(self.back@),
            forward: texts(self.forward@),
            generation: self.generation as nat,
            loading: self.loading,
            error: text_option(self.error),
            pending: self.pending_mutations as nat,
            preview_open: self.preview_open,
        }
    }
}

/// A pane on a session, before its first listing.
pub open spec fn fresh_pane(label: Seq<char>, capability: Capability) -> Pane {
    Pane {
        label,
        capability,
        cwd: Seq::empty(),
        back: Seq::empty(),
        forward: Seq::empty(),
        generation: 0,
        loading: false,
        error: None,
        pending: 0,
        preview_open: false,
    }
}

/// A pane that has gone to a directory. The directory it leaves is remembered where
/// `push_history` says so and it is another one; what could be gone forward to is then
/// forgotten.
pub open spec fn navigated(p: Pane, to: Seq<char>, push_history: bool) -> Pane {
    let left = push_history && p.cwd != to;
    Pane {
        back: if left {
            p.back.push(p.cwd)
        } else {
            p.back
        },
        forward: if left {
            Seq::empty()
        } else {
            p.forward
        },
        generation: p.generation + 1,
        cwd: to,
        error: None,
        loading: true,
        ..p
    }
}

/// Another pane on a pane's session, in its directory.
pub open spec fn beside(p: Pane) -> Pane {
    navigated(
        navigated(fresh_pane(p.label, p.capability), Seq::empty(), false),
        p.cwd,
        true,
    )
}

/// A pane with one more mutation in flight.
pub open spec fn begun(p: Pane) -> Pane {
    Pane { pending: p.pending + 1, ..p }
}

/// A pane after a mutation has ended. A success lists the directory anew.
pub open spec fn ended(p: Pane, ok: bool) -> Pane {
    let p = if ok {
        navigated(p, p.cwd, false)
    } else {
        p
    };
    Pane {
        pending: if p.pending > 0 {
            (p.pending - 1) as nat
        } else {
            0
        },
        ..p
    }
}

/// A pane that has gone back, where there is something to go back to.
pub open spec fn went_back(p: Pane) -> Pane {
    if p.back.len() == 0 {
        p
    } else {
        navigated(
            Pane { back: p.back.drop_last(), forward: p.forward.push(p.cwd), ..p },
            p.back.last(),
            false,
        )
    }
}

/// A pane that has gone forward, where there is something to go forward to.
pub open spec fn went_forward(p: Pane) -> Pane {
    if p.forward.len() == 0 {
        p
    } else {
        navigated(
            Pane { back: p.back.push(p.cwd), forward: p.forward.drop_last(), ..p },
            p.forward.last(),
            false,
        )
    }
}

/// A pane on another session: nothing of the one before can be gone back to.
pub open spec fn switched(p: Pane, label: Seq<char>, capability: Capability) -> Pane {
    navigated(
        Pane { label, capability, back: Seq::empty(), forward: Seq::empty(), error: None, ..p },
        Seq::empty(),
        false,
    )
}

/// What the table shows when a directory is entered: what is known of it from before, or
/// nothing.
pub open spec fn entered(t: TableState, cached: Option<Rows>) -> TableState {
    match cached {
        Some(rows) => replaced(t, rows.entries@, rows.view@, true),
        None => replaced(t, Seq::empty(), Seq::empty(), true),
    }
}

/// A listing that a navigation asks for, and what has come of it.
#[derive(Debug)]
pub struct Listing {
    pub generation: u64,
    pub dir: String,
    /// Everything listed so far.
    pub collected: Vec<DirEntry>,
    /// Whether nothing was listed yet.
    pub first_batch: bool,
}

impl Listing {
    /// Whether this is the listing of a directory that was just entered.
    pub open spec fn starts(self, p: Pane) -> bool {
        &&& self.generation == p.generation
        &&& self.dir@ == p.cwd
        &&& self.collected@.len() == 0
        &&& self.first_batch
    }

    /// Takes note of a batch, and says whether it is to replace what the table shows: the
    /// first one supersedes what was known from before.
    pub fn take_batch(&mut self, batch: &Vec<DirEntry>) -> (r: bool)
        ensures
            r == old(self).first_batch,
            !final(self).first_batch,
            final(self).collected@ == old(self).collected@ + batch@,
            final(self).generation == old(self).generation,
            final(self).dir@ == old(self).dir@,
    {
        let ghost before = self.collected@;
        let mut i: usize = 0;
        assert(before + batch@.take(0) =~= before);
        while i < batch.len()
            invariant
                i <= batch.len(),
                self.collected@ == before + batch@.take(i as int),
                self.generation == old(self).generation,
                self.dir@ == old(self).dir@,
                self.first_batch == old(self).first_batch,
            decreases batch.len() - i,
        {
            self.collected.push(batch[i].copy());
            assert(self.collected@ =~= before + batch@.take(i + 1));
            i = i + 1;
        }
        assert(batch@.take(i as int) =~= batch@);
        let first = self.first_batch;
        self.first_batch = false;
        first
    }
}

/// A streamed part of a listing: the first with the order of its rows, a later one with
/// which of its entries pass the filter.
#[derive(Debug)]
pub enum Batch {
    First(Rows),
    Later { entries: Vec<DirEntry>, matching: Vec<bool> },
}

/// The table after a batch.
pub open spec fn batched(t: TableState, batch: Batch) -> TableState {
    match batch {
        Batch::First(rows) => replaced(t, rows.entries@, rows.view@, true),
        Batch::Later { entries, matching } => extended(t, entries@, matching@),
    }
}

/// The table after a batch of a listing, which counts only where the listing is the latest.
pub open spec fn streamed(p: Pane, t: TableState, generation: nat, batch: Batch) -> TableState {
    if generation == p.generation {
        batched(t, batch)
    } else {
        t
    }
}

/// The table after a listing has brought everything, which counts only where the listing is
/// the latest.
pub open spec fn listed(
    p: Pane,
    t: TableState,
    generation: nat,
    collected: Seq<DirEntry>,
    view: Seq<u32>,
) -> TableState {
    if generation == p.generation {
        replaced(t, collected, view, false)
    } else {
        t
    }
}

/// The pane after a listing has brought everything.
pub open spec fn completed(p: Pane, generation: nat) -> Pane {
    if generation == p.generation {
        Pane { loading: false, ..p }
    } else {
        p
    }
}

/// The pane after a listing has failed.
pub open spec fn failed(p: Pane, generation: nat, message: Seq<char>, cancelled: bool) -> Pane {
    if generation == p.generation && !cancelled {
        Pane { loading: false, error: Some(message), ..p }
    } else {
        p
    }
}

impl Browser {
    /// A pane on a session, and the listing of its root that it starts with.
    pub fn new(label: &str, capability: Capability) -> (r: (Browser, EntriesDelegate, Listing))
        ensures
            r.0@ == navigated(fresh_pane(label@, capability), Seq::empty(), false),
            r.1@ == entered(empty_table(), None),
            r.2.starts(r.0@),
    {
        let mut table = EntriesDelegate::new();
        let mut browser = Browser {
            label: label.to_owned(),
            capability,
            cwd: String::new(),
            back: Vec::new(),
            forward: Vec::new(),
            generation: 0,
            loading: false,
            error: None,
            pending_mutations: 0,
            preview_open: false,
        };
        proof {
            reveal_strlit("");
            assert(""@ =~= Seq::<char>::empty());
            assert(texts(browser.back@) =~= Seq::<Seq<char>>::empty());
            assert(browser@ == fresh_pane(label@, capability));
        }
        let listing = browser.navigate(&mut table, "", false, None);
        (browser, table, listing)
    }

    /// Another pane on the same session, in the same directory.
    pub fn open_beside(&self) -> (r: (Browser, EntriesDelegate, Listing))
        ensures
            r.0@ == beside(self@),
            r.1@ == entered(empty_table(), None),
            r.2.starts(r.0@),
    {
        let (mut browser, mut table, _) = Browser::new(self.label.as_str(), self.capability);
        let listing = browser.navigate_to_dir(&mut table, self.cwd.as_str(), None);
        (browser, table, listing)
    }

    pub fn capability(&self) -> (r: Capability)
        ensures
            r == self@.capability,
    {
        self.capability
    }

    pub fn cwd(&self) -> (r: &str)
        ensures
            r@ == self@.cwd,
    {
        self.cwd.as_str()
    }

    pub fn label(&self) -> (r: &str)
        ensures
            r@ == self@.label,
    {
        self.label.as_str()
    }

    /// The pane's current error, if any: a failed listing shows here.
    pub fn error_message(&self) -> (r: Option<&str>)
        ensures
            match r {
                Some(message) => self@.error == Some(message@),
                None => self@.error is None,
            },
    {
        match &self.error {
            Some(message) => Some(message.as_str()),
            None => None,
        }
    }

    /// True while a listing or a mutation is still running.
    pub fn is_busy(&self) -> (r: bool)
        ensures
            r == (self@.loading || self@.pending > 0),
    {
        self.loading || self.pending_mutations > 0
    }

    pub fn preview_open(&self) -> (r: bool)
        ensures
            r == self@.preview_open,
    {
        self.preview_open
    }

    /// The generation of the latest listing.
    pub fn generation(&self) -> (r: u64)
        ensures
            r == self@.generation,
    {
        self.generation
    }

    /// How many mutations are in flight.
    pub fn pending_mutations(&self) -> (r: usize)
        ensures
            r == self@.pending,
    {
        self.pending_mutations
    }

    pub fn can_go_back(&self) -> (r: bool)
        ensures
            r == (self@.back.len() > 0),
    {
        self.back.len() > 0
    }

    pub fn can_go_forward(&self) -> (r: bool)
        ensures
            r == (self@.forward.len() > 0),
    {
        self.forward.len() > 0
    }

    /// Where going back leads.
    pub fn previous(&self) -> (r: Option<&str>)
        ensures
            match r {
                Some(dir) => self@.back.len() > 0 && dir@ == self@.back.last(),
                None => self@.back.len() == 0,
            },
    {
        if self.back.len() == 0 {
            None
        } else {
            Some(self.back[self.back.len() - 1].as_str())
        }
    }

    /// Where going forward leads.
    pub fn next(&self) -> (r: Option<&str>)
        ensures
            match r {
                Some(dir) => self@.forward.len() > 0 && dir@ == self@.forward.last(),
                None => self@.forward.len() == 0,
            },
    {
        if self.forward.len() == 0 {
            None
        } else {
            Some(self.forward[self.forward.len() - 1].as_str())
        }
    }

    /// Goes to a directory. `cached` is what is known of it from before: revisiting a
    /// directory paints at once, and the listing replaces it when it completes.
    pub fn navigate(
        &mut self,
        table: &mut EntriesDelegate,
        to: &str,
        push_history: bool,
        cached: Option<Rows>,
    ) -> (r: Listing)
        requires
            old(self)@.generation < u64::MAX,
        ensures
            final(self)@ == navigated(old(self)@, to@, push_history),
            final(table)@ == entered(old(table)@, cached),
            r.starts(final(self)@),
    {
        let ghost before = self@;
        if push_history && !same(self.cwd.as_str(), to) {
            self.back.push(self.cwd.clone());
            self.forward = Vec::new();
            proof {
                assert(texts(self.back@) =~= before.back.push(before.cwd));
                assert(texts(self.forward@) =~= Seq::<Seq<char>>::empty());
            }
        }
        self.generation = self.generation + 1;
        self.cwd = to.to_owned();
        self.error = None;
        self.loading = true;
        match cached {
            Some(rows) => table.reset(rows, true),
            None => table.clear(true),
        }
        Listing {
            generation: self.generation,
            dir: to.to_owned(),
            collected: Vec::new(),
            first_batch: true,
        }
    }

    /// Goes to a directory from outside, as the sidebar tree does.
    pub fn navigate_to_dir(
        &mut self,
        table: &mut EntriesDelegate,
        dir: &str,
        cached: Option<Rows>,
    ) -> (r: Listing)
        requires
            old(self)@.generation < u64::MAX,
        ensures
            final(self)@ == navigated(old(self)@, dir@, true),
            final(table)@ == entered(old(table)@, cached),
            r.starts(final(self)@),
    {
        self.navigate(table, dir, true, cached)
    }

    /// Switches to a different backend session.
    ///
    /// History belongs to a session, and so does what is known of its directories: a path
    /// from the previous connection means nothing here.
    pub fn set_vfs(&mut self, table: &mut EntriesDelegate, label: &str, capability: Capability)
        -> (r: Listing)
        requires
            old(self)@.generation < u64::MAX,
        ensures
            final(self)@ == switched(old(self)@, label@, capability),
            final(table)@ == entered(old(table)@, None),
            r.starts(final(self)@),
    {
        self.label = label.to_owned();
        self.capability = capability;
        self.back = Vec::new();
        self.forward = Vec::new();
        self.error = None;
        proof {
            reveal_strlit("");
            assert(""@ =~= Seq::<char>::empty());
            assert(texts(self.back@) =~= Seq::<Seq<char>>::empty());
            assert(texts(self.forward@) =~= Seq::<Seq<char>>::empty());
        }
        self.navigate(table, "", false, None)
    }

    pub fn go_back(&mut self, table: &mut EntriesDelegate, cached: Option<Rows>) -> (r: Option<
        Listing,
    >)
        requires
            old(self)@.generation < u64::MAX,
        ensures
            final(self)@ == went_back(old(self)@),
            match r {
                Some(listing) => old(self)@.back.len() > 0 && listing.starts(final(self)@)
                    && final(table)@ == entered(old(table)@, cached),
                None => old(self)@.back.len() == 0 && final(table)@ == old(table)@,
            },
    {
        let ghost before = self@;
        match self.back.pop() {
            Some(previous) => {
                self.forward.push(self.cwd.clone());
                proof {
                    assert(texts(self.back@) =~= before.back.drop_last());
                    assert(texts(self.forward@) =~= before.forward.push(before.cwd));
                    assert(texts(old(self).back@).last() == previous@);
                }
                Some(self.navigate(table, previous.as_str(), false, cached))
            },
            None => None,
        }
    }

    pub fn go_forward(&mut self, table: &mut EntriesDelegate, cached: Option<Rows>) -> (r: Option<
        Listing,
    >)
        requires
            old(self)@.generation < u64::MAX,
        ensures
            final(self)@ == went_forward(old(self)@),
            match r {
                Some(listing) => old(self)@.forward.len() > 0 && listing.starts(final(self)@)
                    && final(table)@ == entered(old(table)@, cached),
                None => old(self)@.forward.len() == 0 && final(table)@ == old(table)@,
            },
    {
        let ghost before = self@;
        match self.forward.pop() {
            Some(next) => {
                self.back.push(self.cwd.clone());
                proof {
                    assert(texts(self.forward@) =~= before.forward.drop_last());
                    assert(texts(self.back@) =~= before.back.push(before.cwd));
                    assert(texts(old(self).forward@).last() == next@);
                }
                Some(self.navigate(table, next.as_str(), false, cached))
            },
            None => None,
        }
    }

    /// Goes to the directory above. `parent` is absent at the root.
    pub fn go_up(
        &mut self,
        table: &mut EntriesDelegate,
        parent: Option<&str>,
        cached: Option<Rows>,
    ) -> (r: Option<Listing>)
        requires
            old(self)@.generation < u64::MAX,
        ensures
            match r {
                Some(listing) => parent is Some && final(self)@ == navigated(
                    old(self)@,
                    parent->0@,
                    true,
                ) && listing.starts(final(self)@) && final(table)@ == entered(old(table)@, cached),
                None => parent is None && final(self)@ == old(self)@ && final(table)@ == old(
                    table,
                )@,
            },
    {
        match parent {
            Some(parent) => Some(self.navigate(table, parent, true, cached)),
            None => None,
        }
    }

    /// Lists the current directory anew. Nothing that is known of it from before is shown:
    /// a row that no longer exists is worse than a brief spinner.
    pub fn reload(&mut self, table: &mut EntriesDelegate) -> (r: Listing)
        requires
            old(self)@.generation < u64::MAX,
        ensures
            final(self)@ == navigated(old(self)@, old(self)@.cwd, false),
            final(table)@ == entered(old(table)@, None),
            r.starts(final(self)@),
    {
        let cwd = self.cwd.clone();
        self.navigate(table, cwd.as_str(), false, None)
    }

    /// Applies a batch, and says whether it did: a batch of an older generation is stale,
    /// as the user has navigated away.
    pub fn on_batch(&self, table: &mut EntriesDelegate, generation: u64, batch: Batch) -> (r: bool)
        requires
            generation == self@.generation ==> match batch {
                Batch::First(_) => true,
                Batch::Later { entries, matching } => matching@.len() == entries@.len() && old(
                    table,
                )@.entries.len() + entries@.len() <= u32::MAX,
            },
        ensures
            r == (generation == self@.generation),
            final(table)@ == streamed(self@, old(table)@, generation as nat, batch),
    {
        if generation != self.generation {
            return false;
        }
        match batch {
            Batch::First(rows) => table.reset(rows, true),
            Batch::Later { entries, matching } => table.extend(entries, &matching),
        }
        true
    }

    /// Applies everything that a listing brought, once, in the order that `view` gives. This
    /// is also what makes an empty fresh listing clear the rows known from before. Returns
    /// the directory to remember the entries under, unless the listing is stale.
    pub fn on_complete(&mut self, table: &mut EntriesDelegate, listing: Listing, view: Vec<u32>)
        -> (r: Option<String>)
        ensures
            match r {
                Some(dir) => listing.generation == old(self)@.generation && dir@ == old(self)@.cwd,
                None => listing.generation != old(self)@.generation,
            },
            final(self)@ == completed(old(self)@, listing.generation as nat),
            final(table)@ == listed(
                old(self)@,
                old(table)@,
                listing.generation as nat,
                listing.collected@,
                view@,
            ),
    {
        if listing.generation != self.generation {
            return None;
        }
        table.reset(Rows { entries: listing.collected, view }, false);
        self.loading = false;
        Some(self.cwd.clone())
    }

    /// Shows why a listing failed, and no rows. A stale or a cancelled one changes nothing.
    pub fn on_error(
        &mut self,
        table: &mut EntriesDelegate,
        generation: u64,
        message: &str,
        cancelled: bool,
    ) -> (r: bool)
        ensures
            r == (generation == old(self)@.generation && !cancelled),
            final(self)@ == failed(old(self)@, generation as nat, message@, cancelled),
            final(table)@ == (if r {
                replaced(old(table)@, Seq::empty(), Seq::empty(), false)
            } else {
                old(table)@
            }),
    {
        if generation != self.generation || cancelled {
            return false;
        }
        self.loading = false;
        self.error = Some(message.to_owned());
        table.clear(false);
        true
    }
}

/// What happened to the table.
#[derive(Clone, Copy, PartialEq, Eq, Structural, Debug)]
pub enum TableEvent {
    SelectRow(usize),
    DoubleClickedRow(usize),
    Other,
}

/// What follows from what happened to the table.
#[derive(Debug)]
pub enum TableReaction {
    /// Preview the entry, or nothing.
    Preview(Option<DirEntry>),
    /// Go to a directory.
    Navigate(String),
    Nothing,
}

/// The entry that is on a row, where there is a row.
pub open spec fn selection(t: TableState, row: Option<usize>) -> Option<DirEntry> {
    match row {
        Some(row) => t.on_row(row as int),
        None => None,
    }
}

/// The row the keyboard acts on. Nothing when nothing is selected: every shortcut is then
/// a no-op, and none acts on the first row.
pub fn selected_entry(table: &EntriesDelegate, row: Option<usize>) -> (r: Option<DirEntry>)
    ensures
        r == selection(table@, row),
{
    match row {
        Some(row) => match table.entry(row) {
            Some(entry) => Some(entry.copy()),
            None => None,
        },
        None => None,
    }
}

/// Where opening an entry leads: into a directory, and nowhere otherwise.
pub open spec fn opens(entry: Option<DirEntry>) -> Option<Seq<char>> {
    match entry {
        Some(entry) => if entry.dir() {
            Some(entry.path@)
        } else {
            None
        },
        None => None,
    }
}

/// Whether a reaction is the one to what happened to the table.
pub open spec fn answers(r: TableReaction, t: TableState, event: TableEvent) -> bool {
    match event {
        TableEvent::SelectRow(row) => match r {
            TableReaction::Preview(entry) => entry == t.on_row(row as int),
            _ => false,
        },
        TableEvent::DoubleClickedRow(row) => match r {
            TableReaction::Navigate(dir) => opens(t.on_row(row as int)) == Some(dir@),
            TableReaction::Nothing => opens(t.on_row(row as int)) is None,
            TableReaction::Preview(_) => false,
        },
        TableEvent::Other => r is Nothing,
    }
}

/// Opening a row: where it leads, if it is a directory.
pub fn action_open(table: &EntriesDelegate, row: Option<usize>) -> (r: Option<String>)
    ensures
        text_option(r) == opens(selection(table@, row)),
{
    match selected_entry(table, row) {
        Some(entry) => if entry.is_dir() {
            Some(entry.path)
        } else {
            None
        },
        None => None,
    }
}

/// Selecting a row previews it; a double click opens it.
pub fn on_table_event(table: &EntriesDelegate, event: TableEvent) -> (r: TableReaction)
    ensures
        answers(r, table@, event),
{
    match event {
        TableEvent::SelectRow(row) => TableReaction::Preview(selected_entry(table, Some(row))),
        TableEvent::DoubleClickedRow(row) => match action_open(table, Some(row)) {
            Some(dir) => TableReaction::Navigate(dir),
            None => TableReaction::Nothing,
        },
        TableEvent::Other => TableReaction::Nothing,
    }
}

/// Shows or hides dotfiles, whichever is not the case. The entries are already here, so
/// nothing is listed again. `view` is the order of the entries that pass the filter.
pub fn toggle_hidden(table: &mut EntriesDelegate, view: Vec<u32>) -> (r: bool)
    ensures
        r == !old(table)@.show_hidden,
        final(table)@ == shown_hidden(old(table)@, view@, r),
{
    let show = !table.show_hidden();
    table.set_show_hidden(show, view);
    show
}

/// What follows from choosing something from an entry's menu.
#[derive(Debug)]
pub enum EntryReaction {
    PromptNewFolder,
    PromptRename,
    Duplicate,
    Download,
    ShowVersions,
    /// Ask before deleting.
    ConfirmDelete,
    /// Put a text on the clipboard and say so.
    CopyText { text: String, notice: &'static str },
    Reload,
    /// Have a link to a path signed, valid for some seconds.
    SignLink { path: String, seconds: u64 },
}

/// Whether a reaction is the one to choosing something from an entry's menu.
pub open spec fn reacts(r: EntryReaction, action: EntryAction, entry: DirEntry) -> bool {
    match action {
        EntryAction::NewFolder => r is PromptNewFolder,
        EntryAction::Rename => r is PromptRename,
        EntryAction::Duplicate => r is Duplicate,
        EntryAction::Download => r is Download,
        EntryAction::ShowVersions => r is ShowVersions,
        EntryAction::Delete => r is ConfirmDelete,
        EntryAction::CopyPath => match r {
            EntryReaction::CopyText { text, notice } => text@ == entry.path@ && notice@
                == "已复制路径"@,
            _ => false,
        },
        EntryAction::Reload => r is Reload,
        EntryAction::CopyShareLink => match r {
            EntryReaction::SignLink { path, seconds } => path@ == entry.path@ && seconds
                == SHARE_LINK_TTL,
            _ => false,
        },
    }
}

/// What follows from choosing something from an entry's menu.
pub fn on_entry_action(action: EntryAction, entry: &DirEntry) -> (r: EntryReaction)
    ensures
        reacts(r, action, *entry),
{
    match action {
        EntryAction::NewFolder => EntryReaction::PromptNewFolder,
        EntryAction::Rename => EntryReaction::PromptRename,
        EntryAction::Duplicate => EntryReaction::Duplicate,
        EntryAction::Download => EntryReaction::Download,
        EntryAction::ShowVersions => EntryReaction::ShowVersions,
        EntryAction::Delete => EntryReaction::ConfirmDelete,
        EntryAction::CopyPath => EntryReaction::CopyText {
            text: entry.path.clone(),
            notice: "已复制路径",
        },
        EntryAction::Reload => EntryReaction::Reload,
        EntryAction::CopyShareLink => EntryReaction::SignLink {
            path: entry.path.clone(),
            seconds: SHARE_LINK_TTL,
        },
    }
}

/// A change to the backend that is one call.
#[derive(Debug)]
pub enum Mutation {
    CreateDir { path: String },
    Rename { from: String, to: String },
    Copy { from: String, to: String },
    Delete { path: String },
    RestoreVersion { path: String, version: String },
}

/// Work that has to be expanded into one transfer per file.
#[derive(Debug)]
pub enum Expansion {
    MoveDir { from: String, to: String },
    DuplicateDir { from: String, to: String },
    Download { path: String, dest: String },
    Upload { into: String },
}

/// What to do for the user.
#[derive(Debug)]
pub enum Job {
    /// Run a mutation, and say `done` when it succeeded.
    Mutate { mutation: Mutation, done: &'static str },
    /// Expand a plan and queue it; `what` is what the transfers do.
    Queue { plan: Expansion, what: &'static str },
}

/// How a mutation ended.
#[derive(Debug)]
pub struct MutationEnd {
    /// What to tell the user.
    pub message: String,
    /// The listing that follows a success.
    pub listing: Option<Listing>,
}

/// How expanding a plan ended.
#[derive(Debug)]
pub struct QueueEnd {
    /// Whether to queue the transfers.
    pub enqueue: bool,
    /// What to tell the user.
    pub message: String,
}

/// What a signed link ended in.
#[derive(Debug)]
pub struct ShareLink {
    /// What to put on the clipboard.
    pub copied: Option<String>,
    /// What to tell the user.
    pub message: String,
}

/// What listing an object's versions ended in.
#[derive(Debug)]
pub enum Versions {
    /// Show them.
    Open,
    /// Tell the user why not.
    Notify(String),
}

/// What a plan's expansion into `planned` transfers, or its failure, says.
pub open spec fn queue_text(what: Seq<char>, planned: Result<usize, String>) -> Seq<char> {
    match planned {
        Ok(count) => if count == 0 {
            "没有可"@ + what + "的文件"@
        } else {
            "已加入 "@ + decimal(count as nat) + " 个"@ + what + "任务"@
        },
        Err(message) => message@,
    }
}

/// Whether there is anything to queue of a plan.
pub open spec fn queues(planned: Result<usize, String>) -> bool {
    planned matches Ok(count) && count > 0
}

/// Reports how expanding a plan ended. Nothing is queued when the plan is empty, so an
/// empty folder does not leave a phantom task in the panel.
pub fn plan_and_queue(what: &str, planned: Result<usize, String>) -> (r: QueueEnd)
    ensures
        r.enqueue == queues(planned),
        r.message@ == queue_text(what@, planned),
{
    match planned {
        Ok(count) => if count == 0 {
            QueueEnd { enqueue: false, message: cat3("没有可", what, "的文件") }
        } else {
            let added = cat3("已加入 ", number(count as u64).as_str(), " 个");
            QueueEnd { enqueue: true, message: cat3(added.as_str(), what, "任务") }
        },
        Err(message) => QueueEnd { enqueue: false, message },
    }
}

/// Whether a report is the one of signing a link.
pub open spec fn tells_link(r: ShareLink, signed: Result<Option<String>, String>) -> bool {
    match signed {
        Ok(Some(url)) => text_option(r.copied) == Some(url@) && r.message@
            == "已复制分享链接（10 分钟内有效）"@,
        Ok(None) => r.copied is None && r.message@ == "该后端不支持分享链接"@,
        Err(message) => r.copied is None && r.message@ == message@,
    }
}

/// Reports how signing a link ended. A backend that cannot sign gives no link.
pub fn copy_share_link(signed: Result<Option<String>, String>) -> (r: ShareLink)
    ensures
        tells_link(r, signed),
{
    match signed {
        Ok(Some(url)) => ShareLink {
            copied: Some(url),
            message: "已复制分享链接（10 分钟内有效）".to_owned(),
        },
        Ok(None) => ShareLink { copied: None, message: "该后端不支持分享链接".to_owned() },
        Err(message) => ShareLink { copied: None, message },
    }
}

/// Whether an answer is the one to listing an object's versions.
pub open spec fn tells_versions(r: Versions, listed: Result<usize, String>) -> bool {
    match r {
        Versions::Open => listed matches Ok(count) && count > 0,
        Versions::Notify(message) => match listed {
            Ok(count) => count == 0 && message@ == "这个对象没有版本记录"@,
            Err(reason) => message@ == reason@,
        },
    }
}

/// Decides what to do with an object's versions, given how many were listed.
pub fn show_versions(listed: Result<usize, String>) -> (r: Versions)
    ensures
        tells_versions(r, listed),
{
    match listed {
        Ok(count) => if count == 0 {
            Versions::Notify("这个对象没有版本记录".to_owned())
        } else {
            Versions::Open
        },
        Err(reason) => Versions::Notify(reason),
    }
}

/// Whether a job downloads an entry into a directory.
pub open spec fn is_download(job: Job, entry: DirEntry, dest: Seq<char>) -> bool {
    match job {
        Job::Queue { plan: Expansion::Download { path, dest: into }, what } => path@ == entry.path@
            && into@ == dest && what@ == "下载"@,
        _ => false,
    }
}

/// Downloads an entry into the downloads directory, where there is one.
pub fn download(entry: &DirEntry, dest: Option<&str>) -> (r: Result<Job, &'static str>)
    ensures
        match r {
            Ok(job) => dest is Some && is_download(job, *entry, dest->0@),
            Err(reason) => dest is None && reason@ == "找不到下载目录"@,
        },
{
    match dest {
        Some(dest) => Ok(
            Job::Queue {
                plan: Expansion::Download { path: entry.path.clone(), dest: dest.to_owned() },
                what: "下载",
            },
        ),
        None => Err("找不到下载目录"),
    }
}

/// Whether a job writes an old version of an entry back.
pub open spec fn is_restore(job: Job, entry: DirEntry, version: Seq<char>) -> bool {
    match job {
        Job::Mutate { mutation: Mutation::RestoreVersion { path, version: v }, done } => path@
            == entry.path@ && v@ == version && done@ == "已恢复该版本（作为新版本写入）"@,
        _ => false,
    }
}

/// Writes an old version back. That becomes a new version: history in these stores only
/// grows.
pub fn restore_version(entry: &DirEntry, version: &str) -> (r: Job)
    ensures
        is_restore(r, *entry, version@),
{
    Job::Mutate {
        mutation: Mutation::RestoreVersion {
            path: entry.path.clone(),
            version: version.to_owned(),
        },
        done: "已恢复该版本（作为新版本写入）",
    }
}

/// Whether a job copies an entry to another path.
pub open spec fn is_duplicate(job: Job, entry: DirEntry, target: Seq<char>) -> bool {
    match job {
        Job::Mutate { mutation: Mutation::Copy { from, to }, done } => !entry.dir() && from@
            == entry.path@ && to@ == target && done@ == "创建副本完成"@,
        Job::Queue { plan: Expansion::DuplicateDir { from, to }, what } => entry.dir() && from@
            == entry.path@ && to@ == target && what@ == "创建副本"@,
        _ => false,
    }
}

/// Copies an entry to `target`, a free name beside it. A single object is one copy on the
/// backend; a directory has to be flattened into one copy per file, which needs progress
/// and a cancel.
pub fn duplicate(entry: &DirEntry, target: &str) -> (r: Job)
    ensures
        is_duplicate(r, *entry, target@),
{
    if !entry.is_dir() {
        return Job::Mutate {
            mutation: Mutation::Copy { from: entry.path.clone(), to: target.to_owned() },
            done: "创建副本完成",
        };
    }
    Job::Queue {
        plan: Expansion::DuplicateDir { from: entry.path.clone(), to: target.to_owned() },
        what: "创建副本",
    }
}

/// Whether a job gives an entry another path.
pub open spec fn is_rename(job: Job, entry: DirEntry, target: Seq<char>) -> bool {
    match job {
        Job::Mutate { mutation: Mutation::Rename { from, to }, done } => !entry.dir() && from@
            == entry.path@ && to@ == target && done@ == "重命名完成"@,
        Job::Queue { plan: Expansion::MoveDir { from, to }, what } => entry.dir() && from@
            == entry.path@ && to@ == target && what@ == "移动"@,
        _ => false,
    }
}

/// Renames an entry to `target`. `checked` says whether the name can be used, and if not,
/// why not: the prompt then stays open. Renaming to the current name is a no-op, not an
/// error. No backend renames a directory in one call, so that becomes a visible move.
pub fn rename_entry(
    entry: &DirEntry,
    name: &str,
    checked: Result<(), &'static str>,
    target: &str,
) -> (r: Result<Option<Job>, &'static str>)
    ensures
        match r {
            Err(reason) => checked == Err::<(), &'static str>(reason),
            Ok(None) => checked is Ok && name@ == entry.name@,
            Ok(Some(job)) => checked is Ok && name@ != entry.name@ && is_rename(
                job,
                *entry,
                target@,
            ),
        },
{
    match checked {
        Err(reason) => return Err(reason),
        Ok(()) => {},
    }
    if same(name, entry.name.as_str()) {
        return Ok(None);
    }
    if entry.is_dir() {
        return Ok(
            Some(
                Job::Queue {
                    plan: Expansion::MoveDir { from: entry.path.clone(), to: target.to_owned() },
                    what: "移动",
                },
            ),
        );
    }
    Ok(
        Some(
            Job::Mutate {
                mutation: Mutation::Rename { from: entry.path.clone(), to: target.to_owned() },
                done: "重命名完成",
            },
        ),
    )
}

/// Whether a job creates a folder.
pub open spec fn is_new_folder(job: Job, target: Seq<char>) -> bool {
    match job {
        Job::Mutate { mutation: Mutation::CreateDir { path }, done } => path@ == target && done@
            == "新建文件夹完成"@,
        _ => false,
    }
}

/// Creates the folder `target`. `checked` says whether the name can be used, and if not,
/// why not: the prompt then stays open.
pub fn create_folder(checked: Result<(), &'static str>, target: &str) -> (r: Result<
    Job,
    &'static str,
>)
    ensures
        match r {
            Err(reason) => checked == Err::<(), &'static str>(reason),
            Ok(job) => checked is Ok && is_new_folder(job, target@),
        },
{
    match checked {
        Err(reason) => Err(reason),
        Ok(()) => Ok(
            Job::Mutate {
                mutation: Mutation::CreateDir { path: target.to_owned() },
                done: "新建文件夹完成",
            },
        ),
    }
}

/// The names in a directory, whatever the filter hides: what a copy must not overwrite.
pub fn taken_names(table: &EntriesDelegate) -> (r: Vec<String>)
    ensures
        texts(r@) == table@.entries.map_values(|e: DirEntry| e.name@),
{
    let entries = table.entries();
    let mut r: Vec<String> = Vec::new();
    let mut i: usize = 0;
    while i < entries.len()
        invariant
            i <= entries@.len(),
            r@.len() == i,
            forall|k: int| 0 <= k < i ==> (#[trigger] r@[k])@ == entries@[k].name@,
        decreases entries@.len() - i,
    {
        r.push(entries[i].name.clone());
        i = i + 1;
    }
    assert(texts(r@) =~= entries@.map_values(|e: DirEntry| e.name@));
    r
}

/// Whether a job deletes an entry. Where versions are kept, the name of an emptied directory
/// can come back, and the message says so.
pub open spec fn is_delete(job: Job, entry: DirEntry, versioned: bool) -> bool {
    match job {
        Job::Mutate { mutation: Mutation::Delete { path }, done } => path@ == entry.path@ && done@
            == (if entry.dir() && versioned {
            "已删除目录内容；该后端保留版本历史，空目录名可能仍会显示"@
        } else {
            "删除完成"@
        }),
        _ => false,
    }
}

/// Whether a job uploads into a directory.
pub open spec fn is_upload(job: Job, dir: Seq<char>) -> bool {
    match job {
        Job::Queue { plan: Expansion::Upload { into }, what } => into@ == dir && what@ == "上传"@,
        _ => false,
    }
}

impl Browser {
    /// Whether the new-folder shortcut opens its prompt.
    pub fn action_new_folder(&self) -> (r: bool)
        ensures
            r == self@.capability.create_dir,
    {
        self.capability.create_dir
    }

    /// Opens or closes the preview. On opening, the selected entry is to be previewed: the
    /// selection may have moved by keyboard while the panel was hidden.
    pub fn action_toggle_preview(&mut self, table: &EntriesDelegate, row: Option<usize>) -> (r:
        Option<Option<DirEntry>>)
        ensures
            final(self)@ == (Pane { preview_open: !old(self)@.preview_open, ..old(self)@ }),
            r == (if old(self)@.preview_open {
                None
            } else {
                Some(selection(table@, row))
            }),
    {
        self.preview_open = !self.preview_open;
        if self.preview_open {
            Some(selected_entry(table, row))
        } else {
            None
        }
    }

    /// Counts a mutation that is about to run.
    pub fn begin_mutation(&mut self)
        requires
            old(self)@.pending < usize::MAX,
        ensures
            final(self)@ == begun(old(self)@),
    {
        self.pending_mutations = self.pending_mutations + 1;
    }

    /// Reports how a mutation ended, and lists the directory anew after a success. What was
    /// known of it is wrong then, and none of it is shown.
    pub fn finish_mutation(
        &mut self,
        table: &mut EntriesDelegate,
        outcome: Result<(), String>,
        done: &str,
    ) -> (r: MutationEnd)
        requires
            outcome is Ok ==> old(self)@.generation < u64::MAX,
        ensures
            final(self)@ == ended(old(self)@, outcome is Ok),
            match outcome {
                Ok(_) => r.message@ == done@ && final(table)@ == entered(old(table)@, None)
                    && match r.listing {
                    Some(listing) => listing.starts(final(self)@),
                    None => false,
                },
                Err(message) => r.message@ == message@ && final(table)@ == old(table)@
                    && r.listing is None,
            },
    {
        let end = match outcome {
            Ok(()) => {
                let listing = self.reload(table);
                MutationEnd { message: done.to_owned(), listing: Some(listing) }
            },
            Err(message) => MutationEnd { message, listing: None },
        };
        if self.pending_mutations > 0 {
            self.pending_mutations = self.pending_mutations - 1;
        }
        end
    }

    /// Deletes an entry. On a version-aware backend the name of an emptied directory can
    /// come back in a listing, and the message says so.
    pub fn delete_entry(&self, entry: &DirEntry) -> (r: Job)
        ensures
            is_delete(r, *entry, self@.capability.list_with_versions),
    {
        let versioned_dir = entry.is_dir() && self.capability.list_with_versions;
        let done: &'static str = if versioned_dir {
            "已删除目录内容；该后端保留版本历史，空目录名可能仍会显示"
        } else {
            "删除完成"
        };
        Job::Mutate { mutation: Mutation::Delete { path: entry.path.clone() }, done }
    }

    /// Uploads `count` dropped paths into the current directory. Nothing happens for no
    /// paths, and a backend that cannot write says so.
    pub fn upload_dropped(&self, count: usize) -> (r: Option<Result<Job, String>>)
        ensures
            match r {
                None => count == 0,
                Some(Err(reason)) => count > 0 && !self@.capability.write && reason@
                    == self@.label + " 不支持写入"@,
                Some(Ok(job)) => count > 0 && self@.capability.write && is_upload(job, self@.cwd),
            },
    {
        if count == 0 {
            return None;
        }
        if !self.capability.write {
            return Some(Err(cat(self.label.as_str(), " 不支持写入")));
        }
        Some(Ok(Job::Queue { plan: Expansion::Upload { into: self.cwd.clone() }, what: "上传" }))
    }
}

/// The prompt for a new folder.
pub fn new_folder_dialog() -> (r: Dialog)
    ensures
        r.title@ == "新建文件夹"@,
        r.width == 420,
        r.overlay_closable && r.close_button,
        r.footer@ == question("创建", ButtonStyle::Primary, "取消"),
        r.enter_runs,
{
    Dialog::new("新建文件夹".to_owned(), 420).confirm_cancel("创建", "取消")
}

/// The prompt for an entry's new name.
pub fn rename_dialog(entry: &DirEntry) -> (r: Dialog)
    ensures
        r.title@ == "重命名 · "@ + entry.name@,
        r.width == 420,
        r.overlay_closable && r.close_button,
        r.footer@ == question("重命名", ButtonStyle::Primary, "取消"),
        r.enter_runs,
{
    Dialog::new(cat("重命名 · ", entry.name.as_str()), 420).confirm_cancel("重命名", "取消")
}

/// The list of an entry's versions. It has nothing to confirm.
pub fn versions_dialog(entry: &DirEntry) -> (r: Dialog)
    ensures
        r.title@ == "版本历史 · "@ + entry.name@,
        r.width == 560,
        r.overlay_closable && r.close_button,
        r.footer@ == notice("关闭"),
        !r.enter_runs,
{
    Dialog::new(cat("版本历史 · ", entry.name.as_str()), 560).dismiss("关闭")
}

/// The question before deleting, with its body. Deleting cannot be undone, so neither the
/// backdrop nor a close cross dismisses it, and deleting a directory says that everything
/// in it goes.
pub fn delete_dialog(entry: &DirEntry) -> (r: (Dialog, String))
    ensures
        r.0.title@ == "删除 "@ + entry.name@ + "？"@,
        r.0.width == 440,
        !r.0.overlay_closable && !r.0.close_button,
        r.0.footer@ == question("删除", ButtonStyle::Danger, "取消"),
        r.0.enter_runs,
        r.1@ == (if entry.dir() {
            "「"@ + entry.name@ + "」及其全部内容将被删除，此操作无法撤销。"@
        } else {
            "「"@ + entry.name@ + "」将被删除，此操作无法撤销。"@
        }),
{
    let name = entry.name.as_str();
    let body = if entry.is_dir() {
        cat3("「", name, "」及其全部内容将被删除，此操作无法撤销。")
    } else {
        cat3("「", name, "」将被删除，此操作无法撤销。")
    };
    let dialog = Dialog::new(cat3("删除 ", name, "？"), 440).must_answer().danger_cancel(
        "删除",
        "取消",
    );
    (dialog, body)
}

/// What a button of the toolbar does.
#[derive(Clone, Copy, PartialEq, Eq, Structural, Debug)]
pub enum Tool {
    Back,
    Forward,
    Up,
    Reload,
    ToggleHidden,
    TogglePreview,
    NewFolder,
}

/// A button of the toolbar.
#[derive(Debug)]
pub struct ToolButton {
    pub tool: Tool,
    pub id: &'static str,
    pub icon: Icon,
    pub tooltip: String,
    pub disabled: bool,
    pub selected: bool,
    pub loading: bool,
}

/// A [`ToolButton`] by what it holds.
pub struct ToolSpec {
    pub tool: Tool,
    pub id: &'static str,
    pub icon: Icon,
    pub tooltip: Seq<char>,
    pub disabled: bool,
    pub selected: bool,
    pub loading: bool,
}

impl View for ToolButton {
    type V = ToolSpec;

    open spec fn view(&self) -> ToolSpec {
        ToolSpec {
            tool: self.tool,
            id: self.id,
            icon: self.icon,
            tooltip: self.tooltip@,
            disabled: self.disabled,
            selected: self.selected,
            loading: self.loading,
        }
    }
}

/// A button that is only ever disabled.
pub open spec fn plain_tool(
    tool: Tool,
    id: &'static str,
    icon: Icon,
    tooltip: Seq<char>,
    disabled: bool,
) -> ToolSpec {
    ToolSpec { tool, id, icon, tooltip, disabled, selected: false, loading: false }
}

/// The toolbar of a pane, from left to right.
pub open spec fn toolbar_of(p: Pane, show_hidden: bool, can_up: bool) -> Seq<ToolSpec> {
    seq![
        plain_tool(Tool::Back, "back", Icon::ArrowLeft, "后退"@, p.back.len() == 0),
        plain_tool(Tool::Forward, "forward", Icon::ArrowRight, "前进"@, p.forward.len() == 0),
        plain_tool(Tool::Up, "up", Icon::ArrowUp, "上一级"@, !can_up),
        ToolSpec { loading: p.loading, ..plain_tool(Tool::Reload, "reload", Icon::Redo, "刷新"@, false) },
        ToolSpec {
            selected: show_hidden,
            ..plain_tool(
                Tool::ToggleHidden, "toggle-hidden",
                if show_hidden {
                    Icon::Eye
                } else {
                    Icon::EyeOff
                },
                if show_hidden {
                    "隐藏点文件（⌘⇧.）"@
                } else {
                    "显示点文件（⌘⇧.）"@
                },
                false,
            )
        },
        ToolSpec {
            selected: p.preview_open,
            ..plain_tool(Tool::TogglePreview, "toggle-preview", Icon::Eye, "预览（空格）"@, false)
        },
        plain_tool(
            Tool::NewFolder, "new-folder",
            Icon::Plus,
            if p.capability.create_dir {
                "新建文件夹"@
            } else {
                p.label + " 不支持新建目录"@
            },
            !p.capability.create_dir,
        ),
    ]
}

fn button(tool: Tool, id: &'static str, icon: Icon, tooltip: String, disabled: bool) -> (r:
    ToolButton)
    ensures
        r@ == plain_tool(tool, id, icon, tooltip@, disabled),
{
    ToolButton { tool, id, icon, tooltip, disabled, selected: false, loading: false }
}

/// What the status bar says.
#[derive(Debug)]
pub struct StatusBar {
    pub count: String,
    pub note: Option<&'static str>,
    pub session: String,
}

/// How many rows there are. While filtering, both numbers: one alone would look like the
/// directory only had that many things in it.
pub open spec fn count_text(t: TableState) -> Seq<char> {
    if t.filter.len() > 0 {
        decimal(t.view.len()) + " / "@ + decimal(t.entries.len()) + " 项"@
    } else {
        decimal(t.entries.len()) + " 项"@
    }
}

impl Browser {
    /// The toolbar. `can_up` says whether the current directory has one above it.
    ///
    /// New folders are made from here too, as an empty directory has no row to right-click.
    pub fn toolbar(&self, table: &EntriesDelegate, can_up: bool) -> (r: Vec<ToolButton>)
        ensures
            r@.map_values(|b: ToolButton| b@) == toolbar_of(self@, table@.show_hidden, can_up),
    {
        let show_hidden = table.show_hidden();
        let can_create_dir = self.capability.create_dir;
        let mut reload = button(Tool::Reload, "reload", Icon::Redo, "刷新".to_owned(), false);
        reload.loading = self.loading;
        let mut hidden = if show_hidden {
            button(Tool::ToggleHidden, "toggle-hidden", Icon::Eye, "隐藏点文件（⌘⇧.）".to_owned(), false)
        } else {
            button(Tool::ToggleHidden, "toggle-hidden", Icon::EyeOff, "显示点文件（⌘⇧.）".to_owned(), false)
        };
        hidden.selected = show_hidden;
        let mut preview = button(Tool::TogglePreview, "toggle-preview", Icon::Eye, "预览（空格）".to_owned(), false);
        preview.selected = self.preview_open;
        let create = if can_create_dir {
            "新建文件夹".to_owned()
        } else {
            cat(self.label.as_str(), " 不支持新建目录")
        };
        let r: Vec<ToolButton> = vec![
            button(Tool::Back, "back", Icon::ArrowLeft, "后退".to_owned(), self.back.len() == 0),
            button(Tool::Forward, "forward", Icon::ArrowRight, "前进".to_owned(), self.forward.len() == 0),
            button(Tool::Up, "up", Icon::ArrowUp, "上一级".to_owned(), !can_up),
            reload,
            hidden,
            preview,
            button(Tool::NewFolder, "new-folder", Icon::Plus, create, !can_create_dir),
        ];
        assert(r@.map_values(|b: ToolButton| b@) =~= toolbar_of(
            self@,
            table@.show_hidden,
            can_up,
        ));
        r
    }

    /// The status bar.
    pub fn status_bar(&self, table: &EntriesDelegate) -> (r: StatusBar)
        ensures
            r.count@ == count_text(table@),
            match r.note {
                Some(note) => self@.loading && note@ == "正在载入…"@,
                None => !self@.loading,
            },
            r.session@ == "fs · "@ + self@.label,
    {
        let total = number(table.total() as u64);
        let count = if !is_empty(table.filter()) {
            let shown = cat(number(table.shown() as u64).as_str(), " / ");
            cat3(shown.as_str(), total.as_str(), " 项")
        } else {
            cat(total.as_str(), " 项")
        };
        let note: Option<&'static str> = if self.loading {
            Some("正在载入…")
        } else {
            None
        };
        StatusBar { count, note, session: cat("fs · ", self.label.as_str()) }
    }
}

/// A stored version of an object, with its texts as they are written.
#[derive(Debug)]
pub struct ObjectVersion {
    pub id: Option<String>,
    pub short_id: String,
    pub modified: String,
    pub size: String,
    pub is_current: bool,
    pub is_delete_marker: bool,
}

/// A row of the list of versions.
#[derive(Debug)]
pub struct VersionRow {
    pub version: String,
    pub modified: String,
    pub size: String,
    pub status: &'static str,
    /// The version that the row's button restores, where it has one.
    pub restores: Option<String>,
}

/// The headings of the list of versions, with their widths.
pub open spec fn version_headings() -> Seq<(&'static str, Option<u32>)> {
    seq![
        ("版本", Some(120u32)),
        ("时间", Some(120u32)),
        ("大小", Some(70u32)),
        ("状态", None::<u32>),
    ]
}

/// The list's columns, with their widths in pixels; the last one takes what is left.
pub fn version_columns() -> (r: Vec<(&'static str, Option<u32>)>)
    ensures
        r@ == version_headings(),
{
    let r: Vec<(&'static str, Option<u32>)> = vec![
        ("版本", Some(120)),
        ("时间", Some(120)),
        ("大小", Some(70)),
        ("状态", None),
    ];
    assert(r@ =~= version_headings());
    r
}

/// Whether a version can be restored: it has an id, is not the current one, and is no
/// delete marker.
pub open spec fn restorable(v: ObjectVersion) -> bool {
    v.id is Some && !v.is_current && !v.is_delete_marker
}

/// Whether a row shows a version. A delete marker is an event, not content: it has no size.
pub open spec fn row_shows(row: VersionRow, v: ObjectVersion) -> bool {
    &&& row.version@ == v.short_id@
    &&& row.modified@ == v.modified@
    &&& row.size@ == (if v.is_delete_marker {
        "删除标记"@
    } else {
        v.size@
    })
    &&& row.status@ == (if v.is_current {
        "当前版本"@
    } else if v.is_delete_marker {
        ""@
    } else {
        "历史版本"@
    })
    &&& text_option(row.restores) == (if restorable(v) {
        text_option(v.id)
    } else {
        None
    })
}

fn version_row(v: &ObjectVersion) -> (r: VersionRow)
    ensures
        row_shows(r, *v),
{
    let size = if v.is_delete_marker {
        "删除标记".to_owned()
    } else {
        v.size.clone()
    };
    let status: &'static str = if v.is_current {
        "当前版本"
    } else if v.is_delete_marker {
        ""
    } else {
        "历史版本"
    };
    let restores = match &v.id {
        Some(id) => if !v.is_current && !v.is_delete_marker {
            Some(id.clone())
        } else {
            None
        },
        None => None,
    };
    VersionRow {
        version: v.short_id.clone(),
        modified: v.modified.clone(),
        size,
        status,
        restores,
    }
}

/// One row per stored version, in the order given.
pub fn version_rows(versions: &Vec<ObjectVersion>) -> (r: Vec<VersionRow>)
    ensures
        r@.len() == versions@.len(),
        forall|i: int| 0 <= i < r@.len() ==> row_shows(#[trigger] r@[i], versions@[i]),
{
    let mut r: Vec<VersionRow> = Vec::new();
    let mut i: usize = 0;
    while i < versions.len()
        invariant
            i <= versions@.len(),
            r@.len() == i,
            forall|k: int| 0 <= k < i ==> row_shows(#[trigger] r@[k], versions@[k]),
        decreases versions@.len() - i,
    {
        r.push(version_row(&versions[i]));
        i = i + 1;
    }
    r
}

/// Going somewhere and then back leads to where the pane was, with the place left behind
/// one step forward.
pub proof fn law_back_undoes_navigation(p: Pane, to: Seq<char>)
    requires
        to != p.cwd,
    ensures
        went_back(navigated(p, to, true)).cwd == p.cwd,
        went_back(navigated(p, to, true)).back == p.back,
        went_back(navigated(p, to, true)).forward == seq![to],
{
    assert(p.back.push(p.cwd).drop_last() =~= p.back);
    assert(Seq::<Seq<char>>::empty().push(to) =~= seq![to]);
}

/// Forward undoes back.
pub proof fn law_forward_undoes_back(p: Pane)
    requires
        p.back.len() > 0,
    ensures
        went_forward(went_back(p)).cwd == p.cwd,
        went_forward(went_back(p)).back == p.back,
        went_forward(went_back(p)).forward == p.forward,
{
    assert(p.back.drop_last().push(p.back.last()) =~= p.back);
    assert(p.forward.push(p.cwd).drop_last() =~= p.forward);
}

/// Back undoes forward.
pub proof fn law_back_undoes_forward(p: Pane)
    requires
        p.forward.len() > 0,
    ensures
        went_back(went_forward(p)).cwd == p.cwd,
        went_back(went_forward(p)).back == p.back,
        went_back(went_forward(p)).forward == p.forward,
{
    assert(p.forward.drop_last().push(p.forward.last()) =~= p.forward);
    assert(p.back.push(p.cwd).drop_last() =~= p.back);
}

/// Every way of moving makes all earlier listings stale, so none of them can change what
/// is shown of the newer directory.
pub proof fn law_moving_makes_listings_stale(
    p: Pane,
    to: Seq<char>,
    push_history: bool,
    label: Seq<char>,
    capability: Capability,
    generation: nat,
)
    requires
        generation <= p.generation,
    ensures
        generation < navigated(p, to, push_history).generation,
        generation < switched(p, label, capability).generation,
        p.back.len() > 0 ==> generation < went_back(p).generation,
        p.forward.len() > 0 ==> generation < went_forward(p).generation,
{
}

/// On another session nothing of the one before is left: no history in either direction,
/// no error, and the root is shown.
pub proof fn law_switching_sessions_forgets(p: Pane, label: Seq<char>, capability: Capability)
    ensures
        switched(p, label, capability).back.len() == 0,
        switched(p, label, capability).forward.len() == 0,
        switched(p, label, capability).error is None,
        switched(p, label, capability).cwd.len() == 0,
        switched(p, label, capability).label == label,
        switched(p, label, capability).capability == capability,
        went_back(switched(p, label, capability)) == switched(p, label, capability),
        went_forward(switched(p, label, capability)) == switched(p, label, capability),
{
}

/// Revisiting the directory that is shown leaves the history as it is.
pub proof fn law_staying_keeps_history(p: Pane)
    ensures
        navigated(p, p.cwd, true) == navigated(p, p.cwd, false),
        navigated(p, p.cwd, true).back == p.back,
        navigated(p, p.cwd, true).forward == p.forward,
{
}

/// A mutation that ends leaves as many in flight as there were before it began, and the
/// pane where it was. While one is in flight the pane is busy.
pub proof fn law_mutations_balance(p: Pane, ok: bool)
    ensures
        ended(begun(p), ok).pending == p.pending,
        begun(p).pending > 0,
        ended(begun(p), ok).cwd == p.cwd,
        ended(begun(p), ok).back == p.back,
        ended(begun(p), ok).forward == p.forward,
        ok ==> ended(begun(p), ok).loading,
{
}

/// A new tab's pane opens where the other one is, and shows nothing of it that might be
/// out of date.
pub proof fn law_a_new_pane_opens_where_the_other_is(p: Pane)
    ensures
        beside(p).cwd == p.cwd,
        beside(p).label == p.label,
        beside(p).capability == p.capability,
        p.cwd.len() > 0 ==> went_back(beside(p)).cwd.len() == 0,
        beside(p).forward.len() == 0,
        beside(p).loading && beside(p).error is None,
        beside(p).pending == 0 && !beside(p).preview_open,
{
}

/// Entering a directory keeps the filter and the order of the rows, and whether dotfiles
/// are shown. Where nothing is known of the directory, no row of the one before is left.
pub proof fn law_entering_keeps_the_filter(t: TableState, cached: Option<Rows>)
    ensures
        entered(t, cached).filter == t.filter,
        entered(t, cached).sort_key == t.sort_key,
        entered(t, cached).ascending == t.ascending,
        entered(t, cached).show_hidden == t.show_hidden,
        entered(t, cached).columns == t.columns,
        cached is None ==> forall|row: int| #[trigger] entered(t, cached).on_row(row) is None,
{
}

/// Going to a directory shows that directory, lists it, and clears an error; it remembers the
/// one it leaves only if it is another one and history is kept, and only then forgets what
/// could be gone forward to. Nothing else of the pane changes.
pub proof fn law_navigation(p: Pane, to: Seq<char>, push_history: bool)
    ensures
        ({
            let n = navigated(p, to, push_history);
            &&& n.cwd == to && n.loading && n.error is None && n.generation == p.generation + 1
            &&& push_history && to != p.cwd ==> n.back.len() == p.back.len() + 1 && n.back.last()
                == p.cwd && n.back.drop_last() == p.back && n.forward.len() == 0
            &&& !push_history || to == p.cwd ==> n.back == p.back && n.forward == p.forward
            &&& n.label == p.label && n.capability == p.capability && n.pending == p.pending
                && n.preview_open == p.preview_open
        }),
{
    assert(p.back.push(p.cwd).drop_last() =~= p.back);
}

/// Going back leads to the directory that was left last and going forward to the one that was
/// gone back from last; both list what they lead to, and without such a directory neither
/// does anything.
pub proof fn law_history_leads_where_it_was(p: Pane)
    ensures
        p.back.len() > 0 ==> went_back(p).cwd == p.back.last() && went_back(p).back
            == p.back.drop_last() && went_back(p).forward.len() == p.forward.len() + 1
            && went_back(p).forward.last() == p.cwd && went_back(p).loading && went_back(p).error
            is None && went_back(p).generation == p.generation + 1,
        p.back.len() == 0 ==> went_back(p) == p,
        p.forward.len() > 0 ==> went_forward(p).cwd == p.forward.last() && went_forward(p).forward
            == p.forward.drop_last() && went_forward(p).back.len() == p.back.len() + 1
            && went_forward(p).back.last() == p.cwd && went_forward(p).loading
            && went_forward(p).error is None && went_forward(p).generation == p.generation + 1,
        p.forward.len() == 0 ==> went_forward(p) == p,
        went_back(p).label == p.label && went_forward(p).label == p.label,
        went_back(p).capability == p.capability && went_forward(p).capability == p.capability,
        went_back(p).pending == p.pending && went_forward(p).pending == p.pending,
        went_back(p).preview_open == p.preview_open && went_forward(p).preview_open
            == p.preview_open,
{
}

/// A new pane shows the root of its session and lists it, with nothing to go back to and
/// nothing under way.
pub proof fn law_a_new_pane(label: Seq<char>, capability: Capability)
    ensures
        ({
            let p = navigated(fresh_pane(label, capability), Seq::empty(), false);
            &&& p.label == label && p.capability == capability
            &&& p.cwd.len() == 0 && p.back.len() == 0 && p.forward.len() == 0
            &&& p.loading && p.error is None && p.pending == 0 && !p.preview_open
            &&& p.generation == 1
        }),
{
}

/// Another session keeps what belongs to the pane: what is in flight, and whether it shows a
/// preview. It lists its root.
pub proof fn law_switching_keeps_the_pane(p: Pane, label: Seq<char>, capability: Capability)
    ensures
        switched(p, label, capability).pending == p.pending,
        switched(p, label, capability).preview_open == p.preview_open,
        switched(p, label, capability).loading,
        switched(p, label, capability).generation == p.generation + 1,
{
}

/// A mutation that begins is one more in flight; one that ends is one less, never less than
/// none. Only a success lists the directory again, and a failure changes nothing else.
pub proof fn law_mutations_count(p: Pane, ok: bool)
    ensures
        begun(p).pending == p.pending + 1,
        begun(p).cwd == p.cwd && begun(p).back == p.back && begun(p).forward == p.forward,
        begun(p).generation == p.generation && begun(p).loading == p.loading && begun(p).error
            == p.error,
        begun(p).label == p.label && begun(p).capability == p.capability && begun(p).preview_open
            == p.preview_open,
        p.pending > 0 ==> ended(p, ok).pending == p.pending - 1,
        p.pending == 0 ==> ended(p, ok).pending == 0,
        ended(p, ok).cwd == p.cwd && ended(p, ok).back == p.back && ended(p, ok).forward
            == p.forward,
        ended(p, ok).label == p.label && ended(p, ok).capability == p.capability && ended(
            p,
            ok,
        ).preview_open == p.preview_open,
        ok ==> ended(p, ok).generation == p.generation + 1 && ended(p, ok).loading && ended(
            p,
            ok,
        ).error is None,
        !ok ==> ended(p, ok).generation == p.generation && ended(p, ok).loading == p.loading
            && ended(p, ok).error == p.error,
{
}

/// Entering a directory shows exactly what is known of it, in its order, while it loads.
pub proof fn law_entering_shows_what_is_known(t: TableState, cached: Option<Rows>)
    ensures
        entered(t, cached).loading,
        cached matches Some(rows) ==> entered(t, cached).entries == rows.entries@ && entered(
            t,
            cached,
        ).view == visible(rows.entries@, rows.view@, t.show_hidden),
        cached is None ==> entered(t, cached).entries.len() == 0,
{
}

/// The first batch takes the place of what was shown, and a later one is added behind it.
pub proof fn law_batches(t: TableState, rows: Rows, entries: Vec<DirEntry>, matching: Vec<bool>)
    ensures
        batched(t, Batch::First(rows)).entries == rows.entries@,
        batched(t, Batch::First(rows)).view == visible(
            rows.entries@,
            rows.view@,
            t.show_hidden,
        ),
        batched(t, Batch::First(rows)).loading,
        batched(t, Batch::First(rows)).filter == t.filter,
        batched(t, Batch::Later { entries, matching }).entries == t.entries + entries@,
        batched(t, Batch::Later { entries, matching }) == extended(t, entries@, matching@),
{
}

/// A listing starts for the directory that is shown and as the pane's latest one, with nothing
/// listed yet.
pub proof fn law_listings_start_empty(listing: Listing, p: Pane)
    requires
        listing.starts(p),
    ensures
        listing.dir@ == p.cwd,
        listing.generation == p.generation,
        listing.collected@.len() == 0,
        listing.first_batch,
{
}

/// The keyboard acts on the selected row's entry, and on nothing where no row is selected.
pub proof fn law_selection(t: TableState, row: usize)
    ensures
        selection(t, None) is None,
        selection(t, Some(row)) == t.on_row(row as int),
        row < t.view.len() && t.view[row as int] < t.entries.len() ==> selection(t, Some(row))
            == Some(t.entries[t.view[row as int] as int]),
{
}

/// What is said of a plan: how many tasks of what kind were added, that there was nothing to
/// do, or why it failed.
pub proof fn law_queue_words(what: Seq<char>, count: usize, reason: String)
    ensures
        queue_text(what, Ok(0)) == "没有可"@ + what + "的文件"@,
        count > 0 ==> queue_text(what, Ok(count)) == "已加入 "@ + decimal(count as nat) + " 个"@
            + what + "任务"@,
        queue_text(what, Err(reason)) == reason@,
{
}

/// Each item of the menu does what it says: making a folder and renaming ask for a name,
/// deleting asks first, a path is copied as it is, and a link is asked for ten minutes.
pub proof fn law_menu_reactions(r: EntryReaction, entry: DirEntry)
    ensures
        reacts(r, EntryAction::NewFolder, entry) ==> r is PromptNewFolder,
        reacts(r, EntryAction::Rename, entry) ==> r is PromptRename,
        reacts(r, EntryAction::Duplicate, entry) ==> r is Duplicate,
        reacts(r, EntryAction::Download, entry) ==> r is Download,
        reacts(r, EntryAction::ShowVersions, entry) ==> r is ShowVersions,
        reacts(r, EntryAction::Delete, entry) ==> r is ConfirmDelete,
        reacts(r, EntryAction::CopyPath, entry) ==> (r matches EntryReaction::CopyText {
            text,
            notice,
        } && text@ == entry.path@ && notice@ == "已复制路径"@),
        reacts(r, EntryAction::Reload, entry) ==> r is Reload,
        reacts(r, EntryAction::CopyShareLink, entry) ==> (r matches EntryReaction::SignLink {
            path,
            seconds,
        } && path@ == entry.path@ && seconds == 600),
{
}

/// The toolbar's buttons, from left to right, do what they show; each can be pressed exactly
/// where it would do something.
pub proof fn law_toolbar(p: Pane, show_hidden: bool, can_up: bool)
    ensures
        ({
            let bar = toolbar_of(p, show_hidden, can_up);
            &&& bar.len() == 7
            &&& bar[0].tool is Back && bar[0].id@ == "back"@ && bar[0].icon is ArrowLeft
                && bar[0].tooltip == "后退"@ && (bar[0].disabled <==> p.back.len() == 0)
            &&& bar[1].tool is Forward && bar[1].id@ == "forward"@ && bar[1].icon is ArrowRight
                && bar[1].tooltip == "前进"@ && (bar[1].disabled <==> p.forward.len() == 0)
            &&& bar[2].tool is Up && bar[2].id@ == "up"@ && bar[2].icon is ArrowUp
                && bar[2].tooltip == "上一级"@ && (bar[2].disabled <==> !can_up)
            &&& bar[3].tool is Reload && bar[3].id@ == "reload"@ && bar[3].icon is Redo
                && bar[3].tooltip == "刷新"@ && !bar[3].disabled && (bar[3].loading <==> p.loading)
            &&& bar[4].tool is ToggleHidden && bar[4].id@ == "toggle-hidden"@ && !bar[4].disabled
                && (bar[4].selected <==> show_hidden)
            &&& show_hidden ==> bar[4].icon is Eye && bar[4].tooltip == "隐藏点文件（⌘⇧.）"@
            &&& !show_hidden ==> bar[4].icon is EyeOff && bar[4].tooltip
                == "显示点文件（⌘⇧.）"@
            &&& bar[5].tool is TogglePreview && bar[5].id@ == "toggle-preview"@ && bar[5].icon
                is Eye && bar[5].tooltip == "预览（空格）"@ && !bar[5].disabled && (bar[5].selected
                <==> p.preview_open)
            &&& bar[6].tool is NewFolder && bar[6].id@ == "new-folder"@ && bar[6].icon is Plus && (
            bar[6].disabled <==> !p.capability.create_dir)
            &&& p.capability.create_dir ==> bar[6].tooltip == "新建文件夹"@
            &&& !p.capability.create_dir ==> bar[6].tooltip == p.label + " 不支持新建目录"@
            &&& forall|i: int|
                0 <= i < 7 && i != 3 ==> !(#[trigger] bar[i]).loading
            &&& forall|i: int|
                0 <= i < 7 && i != 4 && i != 5 ==> !(#[trigger] bar[i]).selected
        }),
{
}

/// The buttons are taken by what they show.
pub proof fn law_tool_buttons(b: ToolButton)
    ensures
        b@.tool == b.tool && b@.id == b.id && b@.icon == b.icon && b@.tooltip == b.tooltip@,
        b@.disabled == b.disabled && b@.selected == b.selected && b@.loading == b.loading,
{
}

/// The status bar counts every entry, and while a filter is set the rows as well.
pub proof fn law_count_words(t: TableState)
    ensures
        t.filter.len() == 0 ==> count_text(t) == decimal(t.entries.len()) + " 项"@,
        t.filter.len() > 0 ==> count_text(t) == decimal(t.view.len()) + " / "@ + decimal(
            t.entries.len(),
        ) + " 项"@,
{
}

/// A version's row shows that version. Its button restores it, and is there exactly for old
/// content that has an id: the current version and a delete marker have none.
pub proof fn law_version_rows(row: VersionRow, v: ObjectVersion)
    requires
        row_shows(row, v),
    ensures
        row.version@ == v.short_id@,
        row.modified@ == v.modified@,
        v.is_delete_marker ==> row.size@ == "删除标记"@,
        !v.is_delete_marker ==> row.size@ == v.size@,
        v.is_current ==> row.status@ == "当前版本"@ && row.restores is None,
        !v.is_current && v.is_delete_marker ==> row.status@ == ""@ && row.restores is None,
        !v.is_current && !v.is_delete_marker ==> row.status@ == "历史版本"@,
        v.id is None ==> row.restores is None,
        !v.is_current && !v.is_delete_marker && v.id is Some ==> row.restores is Some
            && row.restores->0@ == v.id->0@,
{
}

/// The list of versions has a column for the version, its time, its size and its status.
pub proof fn law_version_headings()
    ensures
        version_headings().len() == 4,
        version_headings()[0] == ("版本", Some(120u32)),
        version_headings()[1] == ("时间", Some(120u32)),
        version_headings()[2] == ("大小", Some(70u32)),
        version_headings()[3] == ("状态", None::<u32>),
        SHARE_LINK_TTL == 600,
{
}

/// Only the latest listing counts: it shows each of its parts and in the end everything that it
/// brought, or why it failed and nothing. Any other, and one that was cancelled, changes
/// nothing.
pub proof fn law_only_the_latest_listing_counts(
    p: Pane,
    t: TableState,
    generation: nat,
    batch: Batch,
    collected: Seq<DirEntry>,
    view: Seq<u32>,
    message: Seq<char>,
    cancelled: bool,
)
    ensures
        generation != p.generation ==> streamed(p, t, generation, batch) == t && listed(
            p,
            t,
            generation,
            collected,
            view,
        ) == t && completed(p, generation) == p && failed(p, generation, message, cancelled) == p,
        cancelled ==> failed(p, generation, message, cancelled) == p,
        streamed(p, t, p.generation, batch) == batched(t, batch),
        listed(p, t, p.generation, collected, view).entries == collected,
        listed(p, t, p.generation, collected, view).view == visible(
            collected,
            view,
            t.show_hidden,
        ),
        !listed(p, t, p.generation, collected, view).loading,
        listed(p, t, p.generation, collected, view).filter == t.filter,
        completed(p, p.generation) == (Pane { loading: false, ..p }),
        failed(p, p.generation, message, false).error == Some(message),
        !failed(p, p.generation, message, false).loading,
        failed(p, p.generation, message, false).cwd == p.cwd && failed(
            p,
            p.generation,
            message,
            false,
        ).back == p.back && failed(p, p.generation, message, false).forward == p.forward,
        failed(p, p.generation, message, false).generation == p.generation && failed(
            p,
            p.generation,
            message,
            false,
        ).pending == p.pending,
{
}

/// Only directories can be opened, and they lead to themselves. Selecting previews the row's
/// entry and never moves; a double click opens it and never previews.
pub proof fn law_opening_rows(entry: DirEntry, r: TableReaction, t: TableState, row: usize)
    ensures
        opens(None) is None,
        entry.kind is Dir ==> opens(Some(entry)) == Some(entry.path@),
        !(entry.kind is Dir) ==> opens(Some(entry)) is None,
        answers(r, t, TableEvent::SelectRow(row)) ==> r == TableReaction::Preview(
            t.on_row(row as int),
        ),
        answers(r, t, TableEvent::DoubleClickedRow(row)) ==> !(r is Preview) && (r is Navigate
            <==> opens(t.on_row(row as int)) is Some),
        answers(r, t, TableEvent::DoubleClickedRow(row)) ==> (r matches TableReaction::Navigate(dir)
            ==> opens(t.on_row(row as int)) == Some(dir@)),
        answers(r, t, TableEvent::Other) ==> r is Nothing,
{
}

/// Each job is about the entry it was asked for and does what was asked. What is one call for a
/// file is a queued plan for a directory wherever the backend has no such call.
pub proof fn law_jobs(job: Job, entry: DirEntry, other: Seq<char>, versioned: bool)
    ensures
        is_duplicate(job, entry, other) && entry.kind is Dir ==> (job matches Job::Queue {
            plan: Expansion::DuplicateDir { from, to },
            what,
        } && from@ == entry.path@ && to@ == other && what@ == "创建副本"@),
        is_duplicate(job, entry, other) && !(entry.kind is Dir) ==> (job matches Job::Mutate {
            mutation: Mutation::Copy { from, to },
            done,
        } && from@ == entry.path@ && to@ == other && done@ == "创建副本完成"@),
        is_rename(job, entry, other) && entry.kind is Dir ==> (job matches Job::Queue {
            plan: Expansion::MoveDir { from, to },
            what,
        } && from@ == entry.path@ && to@ == other && what@ == "移动"@),
        is_rename(job, entry, other) && !(entry.kind is Dir) ==> (job matches Job::Mutate {
            mutation: Mutation::Rename { from, to },
            done,
        } && from@ == entry.path@ && to@ == other && done@ == "重命名完成"@),
        is_delete(job, entry, versioned) ==> (job matches Job::Mutate {
            mutation: Mutation::Delete { path },
            done,
        } && path@ == entry.path@ && (entry.kind is Dir && versioned ==> done@
            == "已删除目录内容；该后端保留版本历史，空目录名可能仍会显示"@) && (!(entry.kind is Dir && versioned)
            ==> done@ == "删除完成"@)),
        is_new_folder(job, other) ==> (job matches Job::Mutate {
            mutation: Mutation::CreateDir { path },
            done,
        } && path@ == other && done@ == "新建文件夹完成"@),
        is_restore(job, entry, other) ==> (job matches Job::Mutate {
            mutation: Mutation::RestoreVersion { path, version },
            done,
        } && path@ == entry.path@ && version@ == other && done@
            == "已恢复该版本（作为新版本写入）"@),
        is_download(job, entry, other) ==> (job matches Job::Queue {
            plan: Expansion::Download { path, dest },
            what,
        } && path@ == entry.path@ && dest@ == other && what@ == "下载"@),
        is_upload(job, other) ==> (job matches Job::Queue { plan: Expansion::Upload { into }, what }
            && into@ == other && what@ == "上传"@),
{
}

/// Something is queued exactly where a plan has tasks. A link is copied exactly where there is
/// one, and versions are shown exactly where there are any; anything else is told.
pub proof fn law_reports(
    count: usize,
    reason: String,
    link: ShareLink,
    url: String,
    versions: Versions,
)
    ensures
        queues(Ok(count)) <==> count > 0,
        !queues(Err(reason)),
        tells_link(link, Ok(Some(url))) ==> link.copied is Some && link.copied->0@ == url@
            && link.message@ == "已复制分享链接（10 分钟内有效）"@,
        tells_link(link, Ok(None)) ==> link.copied is None && link.message@
            == "该后端不支持分享链接"@,
        tells_link(link, Err(reason)) ==> link.copied is None && link.message@ == reason@,
        count > 0 && tells_versions(versions, Ok(count)) ==> versions is Open,
        tells_versions(versions, Ok(0)) ==> (versions matches Versions::Notify(m) && m@
            == "这个对象没有版本记录"@),
        tells_versions(versions, Err(reason)) ==> (versions matches Versions::Notify(m) && m@
            == reason@),
{
}

} // verus!
