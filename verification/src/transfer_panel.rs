//! The bottom transfer panel: one row per task, with progress and a cancel.

use vstd::prelude::*;
use crate::entry::Icon;
use crate::text::{cat, cat3, decimal, number, text_option};

verus! {

/// Milliseconds between two looks at the tasks, about ten a second.
///
/// A look now and then rather than one per chunk: chunks can land every few milliseconds
/// per task, and drawing the panel on each would take longer than moving the bytes.
pub const POLL: u64 = 100;

/// What a task does.
#[derive(Clone, Copy, PartialEq, Eq, Structural, Debug)]
pub enum Operation {
    Download,
    Upload,
    Copy,
    Move,
}

/// A task at one moment, with its texts as they are written.
#[derive(Debug)]
pub struct TaskSnapshot {
    pub id: u64,
    pub label: String,
    pub operation: Operation,
    /// The state's name.
    pub status: String,
    pub finished: bool,
    /// Why it failed, if it did.
    pub failed: Option<String>,
    /// How much was moved.
    pub done: String,
    /// How much there is to move, where that is known.
    pub total: Option<String>,
    /// How much is moved per second, where that is known.
    pub rate: Option<String>,
    /// Whether a part of the whole can be told.
    pub has_fraction: bool,
    pub retryable: bool,
}

/// The transfer panel.
#[derive(Debug)]
pub struct TransferPanel {
    tasks: Vec<TaskSnapshot>,
    polling: bool,
    expanded: bool,
}

/// A [`TransferPanel`] by what it holds.
pub struct Transfers {
    pub tasks: Seq<TaskSnapshot>,
    pub polling: bool,
    pub expanded: bool,
}

impl View for TransferPanel {
    type V = Transfers;

    closed spec fn view(&self) -> Transfers {
        Transfers { tasks: self.tasks@, polling: self.polling, expanded: self.expanded }
    }
}

/// How many tasks are under way.
pub open spec fn active_in(tasks: Seq<TaskSnapshot>) -> nat {
    tasks.filter(|t: TaskSnapshot| !t.finished).len()
}

/// How many tasks have failed.
pub open spec fn failed_in(tasks: Seq<TaskSnapshot>) -> nat {
    tasks.filter(|t: TaskSnapshot| t.failed is Some).len()
}

/// What the panel's head says.
#[derive(Debug)]
pub struct Header {
    pub toggle: Icon,
    pub title: String,
    pub active: Option<String>,
    pub failed: Option<String>,
    pub cancel_all_disabled: bool,
    /// Whether failed tasks can be tried again all at once.
    pub retry_failed: bool,
    pub clear_finished_disabled: bool,
}

/// A task's row.
#[derive(Debug)]
pub struct TaskRow {
    pub id: u64,
    pub icon: Icon,
    pub label: String,
    /// Whether the row is written in the colour of failures.
    pub danger: bool,
    pub status: String,
    pub detail: String,
    pub speed: Option<String>,
    /// Whether a progress bar is drawn; the note stands in its place.
    pub progress: bool,
    pub note: Option<&'static str>,
    pub retry: bool,
    pub cancel_disabled: bool,
}

/// Whether a head is the one of a panel.
pub open spec fn header_shows(h: Header, t: Transfers) -> bool {
    let active = active_in(t.tasks);
    let failed = failed_in(t.tasks);
    &&& h.toggle == (if t.expanded {
        Icon::ChevronDown
    } else {
        Icon::ChevronUp
    })
    &&& h.title@ == "传输 · "@ + decimal(t.tasks.len()) + " 项"@
    &&& text_option(h.active) == (if active > 0 {
        Some(decimal(active) + " 进行中"@)
    } else {
        None
    })
    &&& text_option(h.failed) == (if failed > 0 {
        Some(decimal(failed) + " 失败"@)
    } else {
        None
    })
    &&& h.cancel_all_disabled == (active == 0)
    &&& h.retry_failed == (failed > 0)
    &&& h.clear_finished_disabled == (active == t.tasks.len())
}

/// The panel, as it is drawn.
#[derive(Debug)]
pub struct PanelView {
    pub header: Header,
    pub rows: Vec<TaskRow>,
}

/// Whether the rows are those of the tasks, the latest task first.
pub open spec fn rows_show(rows: Seq<TaskRow>, tasks: Seq<TaskSnapshot>) -> bool {
    &&& rows.len() == tasks.len()
    &&& forall|i: int|
        0 <= i < rows.len() ==> row_shows(#[trigger] rows[i], tasks[tasks.len() - 1 - i])
}

/// The picture for what a task does.
pub open spec fn operation_icon(operation: Operation) -> Icon {
    match operation {
        Operation::Download => Icon::ArrowDown,
        Operation::Upload => Icon::ArrowUp,
        Operation::Copy => Icon::Copy,
        Operation::Move => Icon::ArrowRight,
    }
}

/// Progress in numbers: a bar alone cannot say how much of how much, and where the whole
/// is unknown it would be a lie. A failure says why.
pub open spec fn detail_of(t: TaskSnapshot) -> Seq<char> {
    match t.failed {
        Some(reason) => reason@,
        None => match t.total {
            Some(total) => t.done@ + " / "@ + total@,
            None => t.done@,
        },
    }
}

/// Whether a row shows a task.
pub open spec fn row_shows(row: TaskRow, t: TaskSnapshot) -> bool {
    &&& row.id == t.id
    &&& row.icon == operation_icon(t.operation)
    &&& row.label@ == t.label@
    &&& row.danger == (t.failed is Some)
    &&& row.status@ == t.status@
    &&& row.detail@ == detail_of(t)
    &&& text_option(row.speed) == (match t.rate {
        Some(rate) => Some(rate@ + "/s"@),
        None => None,
    })
    &&& row.progress == t.has_fraction
    &&& match row.note {
        Some(note) => !t.has_fraction && note@ == "大小未知"@,
        None => t.has_fraction,
    }
    &&& row.retry == t.retryable
    &&& row.cancel_disabled == t.finished
}

fn task_row(t: &TaskSnapshot) -> (r: TaskRow)
    ensures
        row_shows(r, *t),
{
    let detail = match &t.failed {
        Some(reason) => reason.clone(),
        None => match &t.total {
            Some(total) => cat3(t.done.as_str(), " / ", total.as_str()),
            None => t.done.clone(),
        },
    };
    let danger = match &t.failed {
        Some(_) => true,
        None => false,
    };
    let speed = match &t.rate {
        Some(rate) => Some(cat(rate.as_str(), "/s")),
        None => None,
    };
    let icon = match t.operation {
        Operation::Download => Icon::ArrowDown,
        Operation::Upload => Icon::ArrowUp,
        Operation::Copy => Icon::Copy,
        Operation::Move => Icon::ArrowRight,
    };
    let note: Option<&'static str> = if t.has_fraction {
        None
    } else {
        Some("大小未知")
    };
    TaskRow {
        id: t.id,
        icon,
        label: t.label.clone(),
        danger,
        status: t.status.clone(),
        detail,
        speed,
        progress: t.has_fraction,
        note,
        retry: t.retryable,
        cancel_disabled: t.finished,
    }
}

/// Whether picking up the tasks starts the looking at them.
pub open spec fn starts(t: Transfers, active: bool) -> bool {
    active && !t.polling
}

/// The panel once the tasks were picked up.
pub open spec fn picked_up(t: Transfers, tasks: Seq<TaskSnapshot>, active: bool) -> Transfers {
    Transfers { tasks, polling: t.polling || active, ..t }
}

/// The panel once the tasks were looked at again.
pub open spec fn looked_at(t: Transfers, tasks: Seq<TaskSnapshot>) -> Transfers {
    Transfers { tasks, ..t }
}

/// The panel once the tasks were looked at for the last time.
pub open spec fn settled(t: Transfers, tasks: Seq<TaskSnapshot>) -> Transfers {
    Transfers { tasks, polling: false, ..t }
}

/// The panel with its rows opened or closed.
pub open spec fn toggled(t: Transfers) -> Transfers {
    Transfers { expanded: !t.expanded, ..t }
}

impl TransferPanel {
    pub fn new() -> (r: TransferPanel)
        ensures
            r@ == (Transfers { tasks: Seq::empty(), polling: false, expanded: true }),
    {
        TransferPanel { tasks: Vec::new(), polling: false, expanded: true }
    }

    /// Picks up the tasks, and says whether to start looking at them now and then: while
    /// something is under way, unless that is being done already.
    pub fn refresh(&mut self, tasks: Vec<TaskSnapshot>, active: bool) -> (r: bool)
        ensures
            r == starts(old(self)@, active),
            final(self)@ == picked_up(old(self)@, tasks@, active),
    {
        self.tasks = tasks;
        if self.polling || !active {
            return false;
        }
        self.polling = true;
        true
    }

    /// Looks at the tasks again, and says whether to do so once more.
    pub fn tick(&mut self, tasks: Vec<TaskSnapshot>, active: bool) -> (r: bool)
        ensures
            r == active,
            final(self)@ == looked_at(old(self)@, tasks@),
    {
        self.tasks = tasks;
        active
    }

    /// Looks at the tasks for the last time.
    pub fn settle(&mut self, tasks: Vec<TaskSnapshot>)
        ensures
            final(self)@ == settled(old(self)@, tasks@),
    {
        self.polling = false;
        self.tasks = tasks;
    }

    /// Opens or closes the list of rows.
    pub fn toggle(&mut self)
        ensures
            final(self)@ == toggled(old(self)@),
    {
        self.expanded = !self.expanded;
    }

    pub fn is_expanded(&self) -> (r: bool)
        ensures
            r == self@.expanded,
    {
        self.expanded
    }

    /// Whether nothing was queued yet: the panel then stays out of the way entirely.
    pub fn is_empty(&self) -> (r: bool)
        ensures
            r == (self@.tasks.len() == 0),
    {
        self.tasks.len() == 0
    }

    pub fn active_count(&self) -> (r: usize)
        ensures
            r == active_in(self@.tasks),
    {
        let mut count: usize = 0;
        let mut i: usize = 0;
        proof {
            reveal(Seq::filter);
        }
        while i < self.tasks.len()
            invariant
                i <= self.tasks@.len(),
                count <= i,
                count == active_in(self.tasks@.take(i as int)),
            decreases self.tasks@.len() - i,
        {
            proof {
                reveal(Seq::filter);
                assert(self.tasks@.take(i + 1).drop_last() =~= self.tasks@.take(i as int));
            }
            if !self.tasks[i].finished {
                count = count + 1;
            }
            i = i + 1;
        }
        assert(self.tasks@.take(i as int) =~= self.tasks@);
        count
    }

    pub fn failed_count(&self) -> (r: usize)
        ensures
            r == failed_in(self@.tasks),
    {
        let mut count: usize = 0;
        let mut i: usize = 0;
        proof {
            reveal(Seq::filter);
        }
        while i < self.tasks.len()
            invariant
                i <= self.tasks@.len(),
                count <= i,
                count == failed_in(self.tasks@.take(i as int)),
            decreases self.tasks@.len() - i,
        {
            proof {
                reveal(Seq::filter);
                assert(self.tasks@.take(i + 1).drop_last() =~= self.tasks@.take(i as int));
            }
            match &self.tasks[i].failed {
                Some(_) => {
                    count = count + 1;
                },
                None => {},
            }
            i = i + 1;
        }
        assert(self.tasks@.take(i as int) =~= self.tasks@);
        count
    }

    /// The panel's head.
    pub fn header(&self) -> (r: Header)
        ensures
            header_shows(r, self@),
    {
        let active: usize = self.active_count();
        let failed: usize = self.failed_count();
        let toggle = if self.expanded {
            Icon::ChevronDown
        } else {
            Icon::ChevronUp
        };
        Header {
            toggle,
            title: cat3("传输 · ", number(self.tasks.len() as u64).as_str(), " 项"),
            active: if active > 0 {
                Some(cat(number(active as u64).as_str(), " 进行中"))
            } else {
                None
            },
            failed: if failed > 0 {
                Some(cat(number(failed as u64).as_str(), " 失败"))
            } else {
                None
            },
            cancel_all_disabled: active == 0,
            retry_failed: failed > 0,
            clear_finished_disabled: self.tasks.len() == active,
        }
    }

    /// The rows, one per task, the latest task first.
    pub fn rows(&self) -> (r: Vec<TaskRow>)
        ensures
            rows_show(r@, self@.tasks),
    {
        let mut r: Vec<TaskRow> = Vec::new();
        let n: usize = self.tasks.len();
        while r.len() < n
            invariant
                n == self.tasks@.len(),
                r@.len() <= n,
                forall|i: int|
                    0 <= i < r@.len() ==> row_shows(#[trigger] r@[i], self.tasks@[n - 1 - i]),
            decreases n - r@.len(),
        {
            r.push(task_row(&self.tasks[n - 1 - r.len()]));
        }
        r
    }

    /// The panel, as it is drawn: nothing at all without tasks, and the rows only while it is
    /// expanded.
    pub fn panel(&self) -> (r: Option<PanelView>)
        ensures
            match r {
                Some(view) => self@.tasks.len() > 0 && header_shows(view.header, self@)
                    && if self@.expanded {
                    rows_show(view.rows@, self@.tasks)
                } else {
                    view.rows@.len() == 0
                },
                None => self@.tasks.len() == 0,
            },
    {
        if self.is_empty() {
            return None;
        }
        let rows = if self.expanded {
            self.rows()
        } else {
            Vec::new()
        };
        Some(PanelView { header: self.header(), rows })
    }
}

impl Default for TransferPanel {
    fn default() -> (r: TransferPanel)
        ensures
            r@ == (Transfers { tasks: Seq::empty(), polling: false, expanded: true }),
    {
        TransferPanel::new()
    }
}

/// The tasks under way and the finished ones are all the tasks: what can be cancelled and
/// what can be cleared away never overlap, and nothing is left out.
pub proof fn law_active_or_finished(tasks: Seq<TaskSnapshot>)
    ensures
        active_in(tasks) + tasks.filter(|t: TaskSnapshot| t.finished).len() == tasks.len(),
    decreases tasks.len(),
{
    reveal(Seq::filter);
    if tasks.len() > 0 {
        law_active_or_finished(tasks.drop_last());
    }
}

/// Every task counts once: under way unless it is finished, and failed if it says why.
pub proof fn law_counts(tasks: Seq<TaskSnapshot>, t: TaskSnapshot)
    ensures
        active_in(Seq::empty()) == 0,
        failed_in(Seq::empty()) == 0,
        active_in(tasks.push(t)) == active_in(tasks) + (if t.finished {
            0int
        } else {
            1
        }),
        failed_in(tasks.push(t)) == failed_in(tasks) + (if t.failed is Some {
            1int
        } else {
            0
        }),
{
    reveal(Seq::filter);
    assert(tasks.push(t).drop_last() =~= tasks);
}

/// The head counts all tasks, and those under way and failed where there are any. Cancelling
/// needs one under way, clearing one that is finished, and retrying one that failed.
pub proof fn law_headers(h: Header, t: Transfers)
    requires
        header_shows(h, t),
    ensures
        t.expanded ==> h.toggle is ChevronDown,
        !t.expanded ==> h.toggle is ChevronUp,
        h.title@ == "传输 · "@ + decimal(t.tasks.len()) + " 项"@,
        h.active is Some <==> active_in(t.tasks) > 0,
        h.active matches Some(text) ==> text@ == decimal(active_in(t.tasks)) + " 进行中"@,
        h.failed is Some <==> failed_in(t.tasks) > 0,
        h.failed matches Some(text) ==> text@ == decimal(failed_in(t.tasks)) + " 失败"@,
        h.cancel_all_disabled <==> active_in(t.tasks) == 0,
        h.retry_failed <==> failed_in(t.tasks) > 0,
        h.clear_finished_disabled <==> active_in(t.tasks) == t.tasks.len(),
{
}

/// There is a row for every task, and the last task's is the first.
pub proof fn law_every_task_has_a_row(rows: Seq<TaskRow>, tasks: Seq<TaskSnapshot>, i: int)
    requires
        rows_show(rows, tasks),
        0 <= i < tasks.len(),
    ensures
        rows.len() == tasks.len(),
        row_shows(rows[tasks.len() - 1 - i], tasks[i]),
{
    assert(row_shows(rows[tasks.len() - 1 - i], tasks[tasks.len() - 1 - (tasks.len() - 1 - i)]));
}

/// A task's row shows that task: a failure says why in the colour of failures, and any other
/// how much was moved of how much, as far as that is known. Only what is not finished can be
/// cancelled.
pub proof fn law_task_rows(row: TaskRow, t: TaskSnapshot)
    requires
        row_shows(row, t),
    ensures
        row.id == t.id,
        row.label@ == t.label@,
        row.status@ == t.status@,
        t.operation is Download ==> row.icon is ArrowDown,
        t.operation is Upload ==> row.icon is ArrowUp,
        t.operation is Copy ==> row.icon is Copy,
        t.operation is Move ==> row.icon is ArrowRight,
        row.danger <==> t.failed is Some,
        t.failed matches Some(reason) ==> row.detail@ == reason@,
        t.failed is None ==> (t.total matches Some(total) ==> row.detail@ == t.done@ + " / "@
            + total@),
        t.failed is None && t.total is None ==> row.detail@ == t.done@,
        row.speed is Some <==> t.rate is Some,
        t.rate matches Some(rate) ==> row.speed->0@ == rate@ + "/s"@,
        row.progress <==> t.has_fraction,
        row.note is Some <==> !t.has_fraction,
        row.note matches Some(note) ==> note@ == "大小未知"@,
        row.retry <==> t.retryable,
        row.cancel_disabled <==> t.finished,
        POLL == 100,
{
}

/// The panel always shows the tasks it was last given. The looking starts once, while
/// something is under way, goes on until it settles, and can start again then. Opening and
/// closing the rows touches neither, and undoes itself.
pub proof fn law_looking_at_tasks(
    t: Transfers,
    tasks: Seq<TaskSnapshot>,
    later: Seq<TaskSnapshot>,
    active: bool,
)
    ensures
        picked_up(t, tasks, active).tasks == tasks,
        looked_at(t, tasks).tasks == tasks,
        settled(t, tasks).tasks == tasks,
        !starts(t, false),
        starts(t, active) ==> picked_up(t, tasks, active).polling,
        !starts(picked_up(t, tasks, true), active),
        !starts(looked_at(picked_up(t, tasks, true), later), active),
        starts(settled(t, tasks), true),
        !starts(t, true) ==> picked_up(t, tasks, false).polling,
        starts(t, true) ==> !picked_up(t, tasks, false).polling,
        starts(looked_at(t, tasks), active) == starts(t, active),
        starts(toggled(t), active) == starts(t, active),
        picked_up(t, tasks, active).expanded == t.expanded,
        looked_at(t, tasks).expanded == t.expanded,
        settled(t, tasks).expanded == t.expanded,
        toggled(t).expanded != t.expanded,
        toggled(t).tasks == t.tasks,
        toggled(toggled(t)) == t,
{
}

} // verus!
