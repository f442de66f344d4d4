//! Tables of experiments and of chunks: finding rows and changing them.

use vstd::prelude::*;
use crate::db::{named, update_named, Update};
use crate::experiments::{
    first_with_status, is_first, lemma_first_with_status, precedes, run_by, slots_of, Assignee,
    Experiment, ExperimentView, Status,
};
use crate::seqs::{count_where, first_match, lemma_count_where_step, lemma_first_match_is};

verus! {

/// A row of a table of experiments: an experiment, or a chunk of one.
pub trait Record: Sized {
    /// The experiment that the row holds.
    spec fn record(&self) -> ExperimentView;

    /// The name of the experiment that the row is a chunk of, if it is one.
    spec fn parent(&self) -> Option<Seq<char>>;

    fn experiment(&self) -> (ex: &Experiment)
        ensures
            ex@ == self.record(),
    ;

    /// The name of the parent of the row, if it has one.
    fn parent_name(&self) -> (name: Option<&String>)
        ensures
            match name {
                Some(n) => self.parent() == Some(n@),
                None => self.parent() is None,
            },
    ;

    /// Makes a change to the experiment that the row holds.
    fn change(&mut self, update: &Update)
        ensures
            final(self).record() == update.applied(old(self).record()),
            final(self).parent() == old(self).parent(),
    ;
}

/// The experiments that the rows of a table hold.
pub open spec fn records<T: Record>(rows: Seq<T>) -> Seq<ExperimentView> {
    Seq::new(rows.len(), |i: int| rows[i].record())
}

/// The parents of the rows of a table.
pub open spec fn parents<T: Record>(rows: Seq<T>) -> Seq<Option<Seq<char>>> {
    Seq::new(rows.len(), |i: int| rows[i].parent())
}

/// Position of the first row named `name`, or the length of the table where
/// there is none.
pub fn position_named<T: Record>(rows: &Vec<T>, name: &String) -> (at: usize)
    ensures
        at == first_match(records(rows@), named(name@)),
        at <= rows@.len(),
        at < rows@.len() ==> rows@[at as int].record().name == name@,
{
    let mut i: usize = 0;
    while i < rows.len() && !(rows[i].experiment().name == *name)
        invariant
            i <= rows.len(),
            forall|j: int| 0 <= j < i ==> !named(name@)(#[trigger] records(rows@)[j]),
        decreases rows.len() - i,
    {
        i += 1;
    }
    proof {
        lemma_first_match_is(records(rows@), named(name@), i as int);
    }
    i
}

fn is_run_by(row: &Experiment, assignee: &Assignee) -> (yes: bool)
    ensures
        yes == run_by(assignee@)(row@),
{
    row.status == Status::Running && match &row.assigned_to {
        Some(a) => *a == *assignee,
        None => false,
    }
}

/// Position of the first row that `assignee` is running, or the length of
/// the table where there is none.
pub fn position_run_by<T: Record>(rows: &Vec<T>, assignee: &Assignee) -> (at: usize)
    ensures
        at == first_match(records(rows@), run_by(assignee@)),
        at <= rows@.len(),
{
    let mut i: usize = 0;
    while i < rows.len() && !is_run_by(rows[i].experiment(), assignee)
        invariant
            i <= rows.len(),
            forall|j: int| 0 <= j < i ==> !run_by(assignee@)(#[trigger] records(rows@)[j]),
        decreases rows.len() - i,
    {
        i += 1;
    }
    proof {
        lemma_first_match_is(records(rows@), run_by(assignee@), i as int);
    }
    i
}

/// Position of the row to pick among those with the status `status`, or the
/// length of the table where no row has it.
pub fn position_first_by_status<T: Record>(rows: &Vec<T>, status: Status) -> (at: usize)
    ensures
        at <= rows@.len(),
        first_with_status(slots_of(records(rows@)), status) == if at < rows@.len() {
            Some(at as int)
        } else {
            None
        },
        at < rows@.len() ==> is_first(slots_of(records(rows@)), status, at as int),
{
    let ghost slots = slots_of(records(rows@));
    let n = rows.len();
    let mut best: usize = n;
    let mut i: usize = 0;
    while i < n
        invariant
            i <= n,
            n == rows.len(),
            slots == slots_of(records(rows@)),
            best == n || best < i,
            best == n ==> forall|j: int| 0 <= j < i ==> (#[trigger] slots[j]).status != status,
            best < n ==> slots[best as int].status == status,
            best < n ==> forall|j: int|
                0 <= j < i && (#[trigger] slots[j]).status == status ==> !precedes(
                    slots[j],
                    slots[best as int],
                ) && (j < best ==> precedes(slots[best as int], slots[j])),
        decreases n - i,
    {
        let row = rows[i].experiment();
        assert(slots[i as int] == row@.slot());
        if row.status == status {
            if best == n {
                best = i;
            } else {
                let top = rows[best].experiment();
                assert(slots[best as int] == top@.slot());
                if row.priority > top.priority || (row.priority == top.priority
                    && row.created_at.is_before(&top.created_at)) {
                    best = i;
                }
            }
        }
        i += 1;
    }
    proof {
        lemma_first_with_status(slots, status, best as int);
    }
    best
}

/// Makes a change to every row named `name`, and says how many rows that
/// were.
pub fn update_rows<T: Record>(rows: &mut Vec<T>, name: &String, update: &Update) -> (changes:
    usize)
    ensures
        records(final(rows)@) == update_named(records(old(rows)@), name@, *update),
        parents(final(rows)@) == parents(old(rows)@),
        changes == count_where(records(old(rows)@), named(name@)),
{
    let ghost before = records(rows@);
    let ghost kin = parents(rows@);
    let mut changes: usize = 0;
    let mut i: usize = 0;
    while i < rows.len()
        invariant
            i <= rows.len(),
            rows.len() == before.len(),
            before == records(old(rows)@),
            kin == parents(old(rows)@),
            changes == count_where(before.take(i as int), named(name@)),
            changes <= i,
            forall|j: int|
                0 <= j < i ==> (#[trigger] rows@[j]).record() == update_named(
                    before,
                    name@,
                    *update,
                )[j],
            forall|j: int| i <= j < before.len() ==> (#[trigger] rows@[j]).record() == before[j],
            forall|j: int| 0 <= j < before.len() ==> (#[trigger] rows@[j]).parent() == kin[j],
        decreases rows.len() - i,
    {
        proof {
            lemma_count_where_step(before, named(name@), i as int);
        }
        if rows[i].experiment().name == *name {
            rows[i].change(update);
            changes += 1;
        }
        i += 1;
    }
    proof {
        assert(before.take(i as int) =~= before);
        assert(records(rows@) =~= update_named(before, name@, *update));
        assert(parents(rows@) =~= kin);
    }
    changes
}

/// The rows that do not belong to the experiment named `name`: neither the
/// experiment itself nor a chunk of it.
pub open spec fn not_of<T: Record>(name: Seq<char>) -> spec_fn(T) -> bool {
    |row: T| row.record().name != name && row.parent() != Some(name)
}

/// The rows that are not chunks of the experiment named `name`.
pub open spec fn not_chunk_of<T: Record>(name: Seq<char>) -> spec_fn(T) -> bool {
    |row: T| row.parent() != Some(name)
}

/// Removes the rows of the experiment named `name`, or its chunks alone.
pub fn remove_rows<T: Record>(rows: &mut Vec<T>, name: &String, chunks_only: bool)
    ensures
        final(rows)@ == old(rows)@.filter(
            if chunks_only {
                not_chunk_of::<T>(name@)
            } else {
                not_of::<T>(name@)
            },
        ),
{
    let ghost keep = if chunks_only {
        not_chunk_of::<T>(name@)
    } else {
        not_of::<T>(name@)
    };
    let ghost all = rows@;
    let ghost mut seen: int = 0;
    let mut at: usize = 0;
    while at < rows.len()
        invariant
            0 <= seen <= all.len(),
            at == all.take(seen).filter(keep).len(),
            rows@ == all.take(seen).filter(keep) + all.skip(seen),
            keep == if chunks_only {
                not_chunk_of::<T>(name@)
            } else {
                not_of::<T>(name@)
            },
        decreases rows.len() - at,
    {
        let row = &rows[at];
        assert(*row == all[seen]);
        let is_chunk = match row.parent_name() {
            Some(parent) => *parent == *name,
            None => false,
        };
        let drop = is_chunk || (!chunks_only && row.experiment().name == *name);
        assert(drop == !keep(all[seen]));
        proof {
            reveal(Seq::filter);
            assert(all.take(seen + 1).drop_last() =~= all.take(seen));
        }
        if drop {
            rows.remove(at);
            assert(rows@ =~= all.take(seen + 1).filter(keep) + all.skip(seen + 1));
        } else {
            assert(rows@ =~= all.take(seen + 1).filter(keep) + all.skip(seen + 1));
            at += 1;
        }
        proof {
            seen = seen + 1;
        }
    }
    proof {
        assert(all.take(seen) =~= all);
    }
}

} // verus!
