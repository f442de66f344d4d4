//! The life of an experiment, and the order in which experiments are handed
//! out and listed.

use vstd::prelude::*;
use crate::experiments::{Assignee, AssigneeView, ExperimentView, Status};
use crate::seqs::{first_match, lemma_first_match, lemma_first_match_is};
use crate::time::Timestamp;

verus! {

/// What decides which experiment is handed out next.
pub struct Slot {
    pub status: Status,
    pub priority: i32,
    pub created_at: Timestamp,
}

/// Whether `a` goes before `b`: the higher priority first and, at the same
/// priority, the one created earlier.
pub open spec fn precedes(a: Slot, b: Slot) -> bool {
    a.priority > b.priority || (a.priority == b.priority && a.created_at.before(b.created_at))
}

/// Whether position `i` is the one to pick among the slots with the status
/// `status`: none of them goes before it, and it goes before each of them
/// that stands earlier in the table.
pub open spec fn is_first(slots: Seq<Slot>, status: Status, i: int) -> bool {
    &&& 0 <= i < slots.len()
    &&& slots[i].status == status
    &&& forall|j: int|
        0 <= j < slots.len() && (#[trigger] slots[j]).status == status ==> !precedes(
            slots[j],
            slots[i],
        ) && (j < i ==> precedes(slots[i], slots[j]))
}

/// The position to pick among the slots with the status `status`, if there
/// is one.
pub open spec fn first_with_status(slots: Seq<Slot>, status: Status) -> Option<int> {
    if exists|i: int| is_first(slots, status, i) {
        Some(choose|i: int| is_first(slots, status, i))
    } else {
        None
    }
}

/// Only one position is the one to pick.
pub proof fn lemma_is_first_unique(slots: Seq<Slot>, status: Status, i: int, k: int)
    requires
        is_first(slots, status, i),
        is_first(slots, status, k),
    ensures
        i == k,
{
    if i < k {
        assert(precedes(slots[k], slots[i]));
    } else if k < i {
        assert(precedes(slots[i], slots[k]));
    }
}

/// A position that is the one to pick is what `first_with_status` gives; where
/// no slot has the status, it gives none.
pub proof fn lemma_first_with_status(slots: Seq<Slot>, status: Status, i: int)
    requires
        is_first(slots, status, i) || (i == slots.len() && forall|j: int|
            0 <= j < slots.len() ==> (#[trigger] slots[j]).status != status),
    ensures
        first_with_status(slots, status) == if i < slots.len() {
            Some(i)
        } else {
            None
        },
{
    if i < slots.len() {
        let k = choose|k: int| is_first(slots, status, k);
        lemma_is_first_unique(slots, status, i, k);
    } else {
        if exists|k: int| is_first(slots, status, k) {
            let k = choose|k: int| is_first(slots, status, k);
            assert(slots[k].status == status);
        }
    }
}

impl ExperimentView {
    /// What decides when this experiment is handed out.
    pub open spec fn slot(self) -> Slot {
        Slot { status: self.status, priority: self.priority, created_at: self.created_at }
    }

    /// Whether setting the status to `status` starts the experiment: it
    /// becomes running and was never started.
    pub open spec fn starts_with(self, status: Status) -> bool {
        status == Status::Running && self.started_at is None
    }

    /// Whether setting the status to `status` records the end of the run of
    /// the experiment: no end was recorded yet, and either the experiment
    /// leaves `Running` for a status other than `Failed`, or it becomes
    /// `Completed` without an end of its run on record.
    pub open spec fn ends_with(self, status: Status) -> bool {
        !self.starts_with(status) && self.completed_at is None && ((self.status == Status::Running
            && status != Status::Failed) || status == Status::Completed)
    }

    /// The row `self` after the status of the experiment was set to `status`
    /// at the time `now`. What is stamped is decided by `known`, the record
    /// in the hands of the one who sets the status.
    pub open spec fn with_status(self, known: ExperimentView, status: Status, now: Timestamp)
        -> ExperimentView {
        ExperimentView {
            status,
            started_at: if known.starts_with(status) {
                Some(now)
            } else {
                self.started_at
            },
            completed_at: if known.ends_with(status) {
                Some(now)
            } else {
                self.completed_at
            },
            ..self
        }
    }

    /// The row `self` after one more chunk of the experiment completed at
    /// the time `now`, as `known` counts them: one chunk less is
    /// outstanding, and a running experiment whose last chunk this was needs
    /// its report. Where no chunk is outstanding the row stays as it is.
    pub open spec fn with_completed_child(self, known: ExperimentView, now: Timestamp)
        -> ExperimentView {
        let row = ExperimentView { children: (known.children - 1) as u32, ..self };
        if known.children == 0 {
            self
        } else if known.children == 1 && known.status == Status::Running {
            row.with_status(known, Status::NeedsReport, now)
        } else {
            row
        }
    }

    /// The row `self` after the experiment was handed to `assignee` at the
    /// time `now`.
    pub open spec fn handed_to(self, known: ExperimentView, assignee: AssigneeView, now: Timestamp)
        -> ExperimentView {
        ExperimentView {
            assigned_to: Some(assignee),
            ..self.with_status(known, Status::Running, now)
        }
    }
}

/// The slots of the rows of a table.
pub open spec fn slots_of(rows: Seq<ExperimentView>) -> Seq<Slot> {
    rows.map_values(|row: ExperimentView| row.slot())
}

/// The rows that `assignee` is running.
pub open spec fn run_by(assignee: AssigneeView) -> spec_fn(ExperimentView) -> bool {
    |row: ExperimentView| row.status == Status::Running && row.assigned_to == Some(assignee)
}

/// The rows of a table after each row named `name` was replaced by what `f`
/// makes of it.
pub open spec fn map_named(
    rows: Seq<ExperimentView>,
    name: Seq<char>,
    f: spec_fn(ExperimentView) -> ExperimentView,
) -> Seq<ExperimentView> {
    Seq::new(
        rows.len(),
        |i: int|
            if rows[i].name == name {
                f(rows[i])
            } else {
                rows[i]
            },
    )
}

/// Sets the status of a row as [`ExperimentView::with_status`] says.
pub open spec fn setting_status(known: ExperimentView, status: Status, now: Timestamp) -> spec_fn(
    ExperimentView,
) -> ExperimentView {
    |row: ExperimentView| row.with_status(known, status, now)
}

/// Counts one more completed chunk in a row as
/// [`ExperimentView::with_completed_child`] says.
pub open spec fn completing_child(known: ExperimentView, now: Timestamp) -> spec_fn(
    ExperimentView,
) -> ExperimentView {
    |row: ExperimentView| row.with_completed_child(known, now)
}

/// Hands a row out as [`ExperimentView::handed_to`] says.
pub open spec fn handing_to(known: ExperimentView, assignee: AssigneeView, now: Timestamp)
    -> spec_fn(ExperimentView) -> ExperimentView {
    |row: ExperimentView| row.handed_to(known, assignee, now)
}

/// Says in a row who runs the experiment, or that no one does.
pub open spec fn assigning(assignee: Option<AssigneeView>) -> spec_fn(
    ExperimentView,
) -> ExperimentView {
    |row: ExperimentView| ExperimentView { assigned_to: assignee, ..row }
}

/// What an optional assignee holds, as plain values.
pub open spec fn assignee_view(assignee: Option<&Assignee>) -> Option<AssigneeView> {
    match assignee {
        Some(a) => Some(a@),
        None => None,
    }
}

/// An experiment handed to an assignee; `is_new` where it was not theirs
/// before.
pub struct Given {
    pub is_new: bool,
    /// Where the experiment stands in the table.
    pub position: int,
    pub experiment: ExperimentView,
}

/// What a request for work gives, and the table as the request leaves it.
pub struct Handout {
    pub outcome: Option<Given>,
    pub rows: Seq<ExperimentView>,
}

/// What `assignee` gets when asking for work at the time `now`. Whoever is
/// running an experiment gets that one again. Anyone else gets the queued
/// experiment of highest priority, the oldest among equals, which thereby
/// starts running for them; or nothing where none is queued.
pub open spec fn next_handout(rows: Seq<ExperimentView>, assignee: AssigneeView, now: Timestamp)
    -> Handout {
    let running = first_match(rows, run_by(assignee));
    if running < rows.len() {
        Handout {
            outcome: Some(Given { is_new: false, position: running, experiment: rows[running] }),
            rows,
        }
    } else {
        match first_with_status(slots_of(rows), Status::Queued) {
            Some(i) => Handout {
                outcome: Some(
                    Given {
                        is_new: true,
                        position: i,
                        experiment: rows[i].handed_to(rows[i], assignee, now),
                    },
                ),
                rows: map_named(rows, rows[i].name, handing_to(rows[i], assignee, now)),
            },
            None => Handout { outcome: None, rows },
        }
    }
}

/// An experiment after one chunk of it completed at each of the times
/// `times`, one after the other.
pub open spec fn after_completions(ex: ExperimentView, times: Seq<Timestamp>) -> ExperimentView
    decreases times.len(),
{
    if times.len() == 0 {
        ex
    } else {
        let before = after_completions(ex, times.drop_last());
        before.with_completed_child(before, times.last())
    }
}

/// A running experiment that waits for a number of chunks needs its report
/// when exactly that many chunks have completed, and not before: until then
/// it keeps running, and counts the chunks that are left. Completions past
/// that number are not counted: the count stays at zero, and the experiment
/// as it is.
pub proof fn lemma_children_are_counted(ex: ExperimentView, times: Seq<Timestamp>)
    requires
        ex.status == Status::Running,
    ensures
        after_completions(ex, times).children == if times.len() <= ex.children {
            ex.children - times.len()
        } else {
            0
        },
        after_completions(ex, times).status == if times.len() >= ex.children && ex.children > 0 {
            Status::NeedsReport
        } else {
            Status::Running
        },
        times.len() > ex.children ==> after_completions(ex, times) == after_completions(
            ex,
            times.take(ex.children as int),
        ),
    decreases times.len(),
{
    if times.len() > 0 {
        lemma_children_are_counted(ex, times.drop_last());
        if times.len() > ex.children {
            if times.len() == ex.children + 1 {
                assert(times.drop_last() =~= times.take(ex.children as int));
            } else {
                assert(times.drop_last().take(ex.children as int) =~= times.take(
                    ex.children as int,
                ));
            }
        }
    }
}

/// Whether the life of an experiment leads from the status `from` straight to
/// the status `to`. An experiment is queued, runs, and then needs its report
/// or has failed; its report is generated, which completes the experiment or
/// fails; a report that failed can be asked for again.
pub open spec fn can_become(from: Status, to: Status) -> bool {
    match (from, to) {
        (Status::Queued, Status::Running) => true,
        (Status::Running, Status::NeedsReport) => true,
        (Status::Running, Status::Failed) => true,
        (Status::NeedsReport, Status::GeneratingReport) => true,
        (Status::GeneratingReport, Status::Completed) => true,
        (Status::GeneratingReport, Status::ReportFailed) => true,
        (Status::ReportFailed, Status::NeedsReport) => true,
        _ => false,
    }
}

/// Whether each row of `after` has the status that it has in `before`, or
/// one that its life leads to from there.
pub open spec fn follows(before: Seq<ExperimentView>, after: Seq<ExperimentView>) -> bool {
    &&& after.len() == before.len()
    &&& forall|i: int|
        0 <= i < before.len() ==> (#[trigger] after[i]).status == before[i].status || can_become(
            before[i].status,
            after[i].status,
        )
}

/// Handing out work makes no step that the life of an experiment does not
/// have: the experiment that is handed out was queued and now runs, and
/// every other stays as it is.
pub proof fn lemma_handout_follows_the_states(
    rows: Seq<ExperimentView>,
    assignee: AssigneeView,
    now: Timestamp,
)
    requires
        names_are_unique(rows),
    ensures
        follows(rows, next_handout(rows, assignee, now).rows),
{
    let after = next_handout(rows, assignee, now).rows;
    lemma_first_match(rows, run_by(assignee));
    if first_match(rows, run_by(assignee)) == rows.len() {
        let slots = slots_of(rows);
        if first_with_status(slots, Status::Queued) is Some {
            let i = first_with_status(slots, Status::Queued)->0;
            assert(is_first(slots, Status::Queued, i));
            assert forall|j: int| 0 <= j < rows.len() implies (#[trigger] after[j]).status
                == rows[j].status || can_become(rows[j].status, after[j].status) by {
                if rows[j].name == rows[i].name {
                    assert(j == i);
                }
            }
        }
    }
}

/// Counting a completed chunk makes no step that the life of an experiment
/// does not have: the experiment stays as it is, or it was running and
/// needs its report.
pub proof fn lemma_completion_follows_the_states(
    rows: Seq<ExperimentView>,
    at: int,
    now: Timestamp,
)
    requires
        names_are_unique(rows),
        0 <= at < rows.len(),
    ensures
        follows(rows, map_named(rows, rows[at].name, completing_child(rows[at], now))),
{
    let after = map_named(rows, rows[at].name, completing_child(rows[at], now));
    assert forall|j: int| 0 <= j < rows.len() implies (#[trigger] after[j]).status
        == rows[j].status || can_become(rows[j].status, after[j].status) by {
        if rows[j].name == rows[at].name {
            assert(j == at);
        }
    }
}

/// Whether the row at position `i` is listed before the row at position
/// `j`: it has the higher priority, or the same priority and the earlier
/// creation, or the same of both and the earlier position.
pub open spec fn listed_before(rows: Seq<ExperimentView>, i: int, j: int) -> bool {
    precedes(rows[i].slot(), rows[j].slot()) || (!precedes(rows[j].slot(), rows[i].slot()) && i
        < j)
}

/// Whether `order` lists the experiments that are not completed, each once,
/// by their positions in the table: the higher priority first and, at the
/// same priority, the older first.
pub open spec fn lists_unfinished(rows: Seq<ExperimentView>, order: Seq<int>) -> bool {
    &&& forall|k: int|
        0 <= k < order.len() ==> 0 <= #[trigger] order[k] < rows.len() && rows[order[k]].status
            != Status::Completed
    &&& forall|a: int, b: int|
        0 <= a < b < order.len() ==> listed_before(rows, #[trigger] order[a], #[trigger] order[b])
    &&& forall|i: int|
        0 <= i < rows.len() && (#[trigger] rows[i]).status != Status::Completed ==> exists|k: int|
            0 <= k < order.len() && #[trigger] order[k] == i
}

/// Whether no two rows of a table have the same name.
pub open spec fn names_are_unique(rows: Seq<ExperimentView>) -> bool {
    forall|i: int, j: int|
        0 <= i < rows.len() && 0 <= j < rows.len() && (#[trigger] rows[i]).name == (
        #[trigger] rows[j]).name ==> i == j
}

/// Whoever is running an experiment is handed that experiment again, not as a
/// new one, and the table stays as it is: however often they ask, the answer
/// is the same.
pub proof fn lemma_running_assignee_gets_the_same(
    rows: Seq<ExperimentView>,
    assignee: AssigneeView,
    first: Timestamp,
    then: Timestamp,
)
    requires
        first_match(rows, run_by(assignee)) < rows.len(),
    ensures
        next_handout(rows, assignee, first).outcome == Some(
            Given {
                is_new: false,
                position: first_match(rows, run_by(assignee)),
                experiment: rows[first_match(rows, run_by(assignee))],
            },
        ),
        next_handout(rows, assignee, first).rows == rows,
        next_handout(next_handout(rows, assignee, first).rows, assignee, then) == next_handout(
            rows,
            assignee,
            first,
        ),
{
}

/// Whoever was handed a new experiment is handed the same one, no longer as a
/// new one, when asking again.
pub proof fn lemma_new_handout_is_kept(
    rows: Seq<ExperimentView>,
    assignee: AssigneeView,
    first: Timestamp,
    then: Timestamp,
)
    requires
        names_are_unique(rows),
        next_handout(rows, assignee, first).outcome is Some,
        next_handout(rows, assignee, first).outcome->0.is_new,
    ensures
        next_handout(next_handout(rows, assignee, first).rows, assignee, then).outcome == Some(
            Given {
                is_new: false,
                position: next_handout(rows, assignee, first).outcome->0.position,
                experiment: next_handout(rows, assignee, first).outcome->0.experiment,
            },
        ),
        next_handout(next_handout(rows, assignee, first).rows, assignee, then).rows
            == next_handout(rows, assignee, first).rows,
{
    let slots = slots_of(rows);
    lemma_first_match(rows, run_by(assignee));
    assert(first_match(rows, run_by(assignee)) == rows.len());
    let i = first_with_status(slots, Status::Queued)->0;
    assert(is_first(slots, Status::Queued, i));
    let after = next_handout(rows, assignee, first).rows;
    assert forall|j: int| 0 <= j < i implies !run_by(assignee)(#[trigger] after[j]) by {
        assert(!run_by(assignee)(rows[j]));
    }
    lemma_first_match_is(after, run_by(assignee), i);
}

/// A new experiment that is handed out was queued, no queued experiment has
/// a higher priority, and none of the same priority is older.
pub proof fn lemma_handout_follows_priority(
    rows: Seq<ExperimentView>,
    assignee: AssigneeView,
    now: Timestamp,
)
    requires
        next_handout(rows, assignee, now).outcome is Some,
        next_handout(rows, assignee, now).outcome->0.is_new,
    ensures
        first_with_status(slots_of(rows), Status::Queued) is Some,
        ({
            let i = first_with_status(slots_of(rows), Status::Queued)->0;
            &&& 0 <= i < rows.len()
            &&& rows[i].status == Status::Queued
            &&& next_handout(rows, assignee, now).outcome->0.experiment == rows[i].handed_to(
                rows[i],
                assignee,
                now,
            )
            &&& forall|j: int|
                0 <= j < rows.len() && (#[trigger] rows[j]).status == Status::Queued ==> {
                    &&& rows[j].priority <= rows[i].priority
                    &&& rows[j].priority == rows[i].priority ==> !rows[j].created_at.before(
                        rows[i].created_at,
                    )
                }
        }),
{
    let slots = slots_of(rows);
    lemma_first_match(rows, run_by(assignee));
    let i = first_with_status(slots, Status::Queued)->0;
    assert(is_first(slots, Status::Queued, i));
    assert forall|j: int|
        0 <= j < rows.len() && (#[trigger] rows[j]).status == Status::Queued implies {
        &&& rows[j].priority <= rows[i].priority
        &&& rows[j].priority == rows[i].priority ==> !rows[j].created_at.before(
            rows[i].created_at,
        )
    } by {
        assert(slots[j].status == Status::Queued);
        assert(!precedes(slots[j], slots[i]));
    }
}

/// Two orders that list the unfinished experiments agree up to the position
/// `k`.
proof fn lemma_orders_agree(rows: Seq<ExperimentView>, a: Seq<int>, b: Seq<int>, k: int)
    requires
        lists_unfinished(rows, a),
        lists_unfinished(rows, b),
        0 <= k <= a.len(),
    ensures
        k <= b.len(),
        forall|j: int| 0 <= j < k ==> a[j] == b[j],
    decreases k,
{
    if k > 0 {
        lemma_orders_agree(rows, a, b, k - 1);
        let x = a[k - 1];
        assert(0 <= x < rows.len() && rows[x].status != Status::Completed);
        let m = choose|m: int| 0 <= m < b.len() && #[trigger] b[m] == x;
        if m < k - 1 {
            assert(a[m] == b[m]);
            assert(listed_before(rows, a[m], a[k - 1]));
        }
        if m > k - 1 {
            let y = b[k - 1];
            assert(0 <= y < rows.len() && rows[y].status != Status::Completed);
            assert(listed_before(rows, b[k - 1], b[m]));
            let n = choose|n: int| 0 <= n < a.len() && #[trigger] a[n] == y;
            if n < k - 1 {
                assert(a[n] == b[n]);
                assert(listed_before(rows, b[n], b[k - 1]));
            } else if n > k - 1 {
                assert(listed_before(rows, a[k - 1], a[n]));
            }
        }
    }
}

/// Only one order lists the unfinished experiments.
pub proof fn lemma_unfinished_order_is_unique(rows: Seq<ExperimentView>, a: Seq<int>, b: Seq<int>)
    requires
        lists_unfinished(rows, a),
        lists_unfinished(rows, b),
    ensures
        a == b,
{
    lemma_orders_agree(rows, a, b, a.len() as int);
    lemma_orders_agree(rows, b, a, b.len() as int);
    assert(a =~= b);
}

} // verus!
