//! The budget of a row, over everything that can happen to it: however passes, arms,
//! reclaims, flushes and restarts follow on each other, a structured row is re-armed
//! at most once in a transport generation.
use crate::inject_delivery::{
    arm_refused, armed_row, committed_row, deferred_row, find_deferred, find_latch, flushable, holds,
    latch_of, latch_reservable, of_epoch, of_other_rows, rearm_is_deferred, reservable, reserved_row,
    restored_row, revived_row, rows_after, step_of, with_row, LatchView, PendingView, PreparedArm,
    RearmReservation, RowStep, Rows, TransportMode, MAX_STRUCTURED_REARMS,
};
use vstd::prelude::*;

verus! {

/// What is kept of an agent's wakes: the rows in memory and its latch file.
pub struct Delivery {
    pub rows: Rows,
    pub file: Seq<LatchView>,
}

/// The row that is looked at: whose it is, its id and the transport generation.
pub struct Subject {
    pub agent: Seq<char>,
    pub row_id: Seq<char>,
    pub epoch: u64,
}

/// Something that happens to a row. `ok` says that the latch file could be read and
/// written.
pub enum Happening {
    /// A verification pass.
    Pass { subs: Map<Seq<char>, u64>, now: u64, ok: bool },
    /// The wake is prepared and armed.
    Arm { prepared: PreparedArm, now: u64 },
    /// A reclaim reserves the re-arm.
    Reserve { now: u64, ok: bool },
    /// The flusher takes a deferred re-arm up.
    TakeUp { now: u64, ok: bool },
    /// A reserved re-arm is deferred.
    Defer { r: RearmReservation, ok: bool },
    /// A reserved re-arm is committed.
    Commit { r: RearmReservation, ok: bool },
    /// A reserved re-arm is taken back.
    RollBack { r: RearmReservation, ok: bool },
    /// The arm for a deferred re-arm is dropped.
    Cancel { r: RearmReservation },
    /// The agent's rows are forgotten.
    Forget,
    /// The daemon starts again: only the file is left.
    Restart,
    /// Anything that happens to the other rows.
    Elsewhere { rows: Rows, row_id: Seq<char>, row: PendingView, ok: bool },
}

/// Whether a row counts as written: the legacy route keeps no latch, and a row of
/// another generation is not written.
pub open spec fn is_written(p: PendingView, epoch: u64, ok: bool) -> bool {
    p.transport_mode == TransportMode::LegacyPty || (p.transport_epoch == epoch && ok)
}

/// The file after a row was to be written.
pub open spec fn after_write(
    file: Seq<LatchView>,
    row_id: Seq<char>,
    p: PendingView,
    epoch: u64,
    ok: bool,
) -> Seq<LatchView> {
    if p.transport_mode != TransportMode::LegacyPty && p.transport_epoch == epoch && ok {
        with_row(file, row_id, p)
    } else {
        file
    }
}

/// The row is in memory, of this generation.
pub open spec fn has_row(d: Delivery, s: Subject) -> bool {
    d.rows.dom().contains(s.row_id) && d.rows[s.row_id].transport_epoch == s.epoch
}

/// The row's latch, as it is read from the file.
pub open spec fn read_latch(d: Delivery, s: Subject) -> Option<LatchView> {
    find_latch(of_epoch(d.file, s.epoch), s.row_id)
}

/// A reserved row is replaced, if the new one could be written.
pub open spec fn replaced(d: Delivery, s: Subject, p: PendingView, ok: bool) -> Delivery {
    Delivery {
        rows: if is_written(p, s.epoch, ok) {
            d.rows.insert(s.row_id, p)
        } else {
            d.rows
        },
        file: after_write(d.file, s.row_id, p, s.epoch, ok),
    }
}

/// What is kept after something has happened.
pub open spec fn happened(d: Delivery, s: Subject, h: Happening) -> Delivery {
    let k = s.row_id;
    let read = of_epoch(d.file, s.epoch);
    match h {
        Happening::Pass { subs, now, ok } => Delivery {
            rows: rows_after(d.rows, subs, now),
            file: if d.rows.dom().contains(k) && step_of(d.rows, k, subs, now) == RowStep::Latch {
                after_write(
                    d.file,
                    k,
                    PendingView { gave_up: true, ..d.rows[k] },
                    s.epoch,
                    ok,
                )
            } else {
                d.file
            },
        },
        Happening::Arm { prepared, now } => Delivery {
            rows: if arm_refused(d.rows, prepared, s.epoch) {
                d.rows
            } else {
                d.rows.insert(k, armed_row(d.rows, prepared, s.epoch, now))
            },
            file: read,
        },
        Happening::Reserve { now, ok } => if has_row(d, s) {
            if reservable(d.rows[k], s.agent) {
                Delivery { rows: d.rows.insert(k, reserved_row(d.rows[k], now)), ..d }
            } else {
                d
            }
        } else if !ok {
            Delivery { rows: d.rows.remove(k), ..d }
        } else {
            let latch = find_latch(read, k);
            Delivery {
                rows: if latch is Some && latch_reservable(latch->0, s.agent) {
                    d.rows.remove(k).insert(
                        k,
                        revived_row(latch->0, s.agent, s.epoch, now, false),
                    )
                } else {
                    d.rows.remove(k)
                },
                file: read,
            }
        },
        Happening::TakeUp { now, ok } => if has_row(d, s) {
            if flushable(d.rows[k], s.agent) {
                Delivery {
                    rows: d.rows.insert(
                        k,
                        PendingView { gave_up: false, rearm_reserved: true, ..d.rows[k] },
                    ),
                    ..d
                }
            } else {
                d
            }
        } else if d.rows.dom().contains(k) {
            Delivery { rows: d.rows.remove(k), ..d }
        } else if !ok {
            d
        } else {
            let latch = find_deferred(read, k, s.agent);
            Delivery {
                rows: if latch is Some && latch->0.rearm_count < MAX_STRUCTURED_REARMS {
                    d.rows.insert(k, revived_row(latch->0, s.agent, s.epoch, now, true))
                } else {
                    d.rows
                },
                file: read,
            }
        },
        Happening::Defer { r, ok } => if holds(d.rows, r) && !r.deferred {
            replaced(d, s, deferred_row(d.rows[k]), ok)
        } else {
            d
        },
        Happening::Commit { r, ok } => if holds(d.rows, r) {
            replaced(d, s, committed_row(d.rows[k]), ok)
        } else {
            d
        },
        Happening::RollBack { r, ok } => if holds(d.rows, r) {
            replaced(d, s, restored_row(d.rows[k], r.deferred), ok)
        } else {
            d
        },
        Happening::Cancel { r } => if holds(d.rows, r) && d.rows[k].rearm_pending {
            Delivery { rows: d.rows.remove(k), ..d }
        } else {
            d
        },
        Happening::Forget => Delivery {
            rows: crate::table::kept(
                d.rows,
                |id: Seq<char>, p: PendingView| p.agent != s.agent,
            ),
            ..d
        },
        Happening::Restart => Delivery { rows: Rows::empty(), ..d },
        Happening::Elsewhere { rows, row_id, row, ok } => Delivery {
            rows,
            file: after_write(d.file, row_id, row, s.epoch, ok),
        },
    }
}

/// The wake was prepared as the file and the memory stand.
pub open spec fn is_prepared(d: Delivery, s: Subject, a: PreparedArm) -> bool {
    let latch = read_latch(d, s);
    let deferred = rearm_is_deferred(d.rows, latch, s.row_id);
    &&& a.row_id@ == s.row_id
    &&& a.agent@ == s.agent
    &&& !(latch is Some && latch->0.gave_up && !deferred)
    &&& a.durable_rearm_count == (if latch is Some {
        latch->0.rearm_count
    } else {
        0
    })
    &&& a.rearm_pending == deferred
}

/// The reservation is one for this row.
pub open spec fn concerns(s: Subject, r: RearmReservation) -> bool {
    r.agent@ == s.agent && r.row_id@ == s.row_id && r.transport_epoch == s.epoch
}

/// What can happen next: a wake is armed as it was prepared, and a re-arm that is
/// reserved or deferred does not change over to the legacy route; reservations are
/// for this row; and what happens elsewhere leaves the row alone.
pub open spec fn can_happen(d: Delivery, s: Subject, h: Happening) -> bool {
    match h {
        Happening::Arm { prepared, now } => {
            let row = armed_row(d.rows, prepared, s.epoch, now);
            &&& is_prepared(d, s, prepared)
            &&& row.rearm_reserved || row.rearm_pending ==> row.transport_mode
                != TransportMode::LegacyPty
        },
        Happening::Defer { r, .. } => concerns(s, r),
        Happening::Commit { r, .. } => concerns(s, r),
        Happening::RollBack { r, .. } => concerns(s, r),
        Happening::Cancel { r } => concerns(s, r),
        Happening::Elsewhere { rows, row_id, .. } => {
            &&& row_id != s.row_id
            &&& rows.dom().contains(s.row_id) == d.rows.dom().contains(s.row_id)
            &&& rows.dom().contains(s.row_id) ==> rows[s.row_id] == d.rows[s.row_id]
        },
        _ => true,
    }
}

/// Each of these can happen after those before it.
pub open spec fn can_follow(d: Delivery, s: Subject, hs: Seq<Happening>) -> bool
    decreases hs.len(),
{
    hs.len() == 0 || (can_happen(d, s, hs[0]) && can_follow(
        happened(d, s, hs[0]),
        s,
        hs.drop_first(),
    ))
}

/// The row is the agent's, its reservation has budget left, and a re-arm is never on
/// the legacy route, neither in memory nor on disk.
pub open spec fn is_sound(d: Delivery, s: Subject) -> bool {
    &&& has_row(d, s) ==> {
        let p = d.rows[s.row_id];
        &&& p.agent == s.agent
        &&& p.rearm_reserved ==> p.rearm_count < MAX_STRUCTURED_REARMS
        &&& p.rearm_reserved || p.rearm_pending ==> p.transport_mode != TransportMode::LegacyPty
    }
    &&& forall|l: LatchView| #[trigger]
        d.file.contains(l) && l.row_id == s.row_id && l.transport_epoch == s.epoch
            ==> l.transport_mode != TransportMode::LegacyPty
}

/// The budget of the row is used up, in memory and on disk.
pub open spec fn is_spent(d: Delivery, s: Subject) -> bool {
    &&& has_row(d, s) ==> d.rows[s.row_id].rearm_count >= MAX_STRUCTURED_REARMS
    &&& exists|l: LatchView| #[trigger]
        d.file.contains(l) && l.row_id == s.row_id && l.transport_epoch == s.epoch
    &&& forall|l: LatchView| #[trigger]
        d.file.contains(l) && l.row_id == s.row_id && l.transport_epoch == s.epoch
            ==> l.rearm_count >= MAX_STRUCTURED_REARMS
}

/// Whether a re-arm is admitted.
pub open spec fn is_rearm(d: Delivery, s: Subject, h: Happening) -> bool {
    match h {
        Happening::Commit { r, ok } => holds(d.rows, r) && is_written(
            committed_row(d.rows[s.row_id]),
            s.epoch,
            ok,
        ),
        _ => false,
    }
}

/// How many re-arms are admitted.
pub open spec fn rearms(d: Delivery, s: Subject, hs: Seq<Happening>) -> nat
    decreases hs.len(),
{
    if hs.len() == 0 {
        0
    } else {
        rearms(happened(d, s, hs[0]), s, hs.drop_first()) + (if is_rearm(d, s, hs[0]) {
            1nat
        } else {
            0nat
        })
    }
}

proof fn lemma_filtered<A>(v: Seq<A>, pred: spec_fn(A) -> bool, x: A)
    ensures
        v.filter(pred).contains(x) <==> v.contains(x) && pred(x),
    decreases v.len(),
{
    reveal(Seq::filter);
    if v.len() > 0 {
        lemma_filtered(v.drop_last(), pred, x);
        let shorter = v.drop_last().filter(pred);
        if v.drop_last().contains(x) {
            let i = v.drop_last().index_of(x);
            assert(v[i] == x);
        }
        if v.contains(x) && x != v.last() {
            let i = v.index_of(x);
            assert(v.drop_last()[i] == x);
        }
        if x == v.last() {
            assert(v[v.len() - 1] == x);
        }
        if pred(v.last()) {
            let longer = shorter.push(v.last());
            assert(longer[longer.len() - 1] == v.last());
            if shorter.contains(x) {
                let i = shorter.index_of(x);
                assert(longer[i] == x);
            }
            if longer.contains(x) && x != v.last() {
                let i = longer.index_of(x);
                assert(shorter[i] == x);
            }
        }
    }
}

proof fn lemma_read(file: Seq<LatchView>, epoch: u64)
    ensures
        forall|l: LatchView| #[trigger]
            of_epoch(file, epoch).contains(l) <==> file.contains(l) && l.transport_epoch == epoch,
{
    assert forall|l: LatchView| #[trigger]
        of_epoch(file, epoch).contains(l) <==> file.contains(l) && l.transport_epoch == epoch by {
        lemma_filtered(file, |x: LatchView| x.transport_epoch == epoch, l);
    }
}

proof fn lemma_written(file: Seq<LatchView>, row_id: Seq<char>, p: PendingView)
    ensures
        forall|l: LatchView| #[trigger]
            with_row(file, row_id, p).contains(l) <==> (file.contains(l) && l.row_id != row_id) || ((
            p.gave_up || p.rearm_count > 0) && l == latch_of(row_id, p)),
{
    let others = of_other_rows(file, row_id);
    let all = with_row(file, row_id, p);
    assert forall|l: LatchView| #[trigger] all.contains(l) <==> (file.contains(l) && l.row_id
        != row_id) || ((p.gave_up || p.rearm_count > 0) && l == latch_of(row_id, p)) by {
        lemma_filtered(file, |x: LatchView| x.row_id != row_id, l);
        if p.gave_up || p.rearm_count > 0 {
            assert(all[all.len() - 1] == latch_of(row_id, p));
            if others.contains(l) {
                let i = others.index_of(l);
                assert(all[i] == l);
            }
            if all.contains(l) && l != latch_of(row_id, p) {
                let i = all.index_of(l);
                assert(others[i] == l);
            }
        }
    }
}

proof fn lemma_found(v: Seq<LatchView>, row_id: Seq<char>, agent: Seq<char>)
    ensures
        match find_latch(v, row_id) {
            Some(l) => v.contains(l) && l.row_id == row_id,
            None => forall|l: LatchView| #[trigger] v.contains(l) ==> l.row_id != row_id,
        },
        match find_deferred(v, row_id, agent) {
            Some(l) => v.contains(l) && l.row_id == row_id,
            None => true,
        },
    decreases v.len(),
{
    if v.len() > 0 {
        let rest = v.drop_first();
        lemma_found(rest, row_id, agent);
        assert(v[0] == v[0]);
        assert forall|l: LatchView| #[trigger] v.contains(l) <==> l == v[0] || rest.contains(l) by {
            if rest.contains(l) {
                let i = rest.index_of(l);
                assert(v[i + 1] == l);
            }
            if v.contains(l) && l != v[0] {
                let i = v.index_of(l);
                assert(rest[i - 1] == l);
            }
        }
    }
}

/// Whatever happens to a row leaves it sound; once its budget is used up it stays
/// so; and an admitted re-arm uses it up, which cannot happen again.
pub proof fn law_a_rearm_spends_the_budget(d: Delivery, s: Subject, h: Happening)
    requires
        is_sound(d, s),
        can_happen(d, s, h),
    ensures
        is_sound(happened(d, s, h), s),
        is_spent(d, s) ==> is_spent(happened(d, s, h), s) && !is_rearm(d, s, h),
        is_rearm(d, s, h) ==> is_spent(happened(d, s, h), s),
{
    let k = s.row_id;
    let read = of_epoch(d.file, s.epoch);
    let n = happened(d, s, h);
    lemma_read(d.file, s.epoch);
    lemma_found(read, k, s.agent);
    match h {
        Happening::Pass { .. } => {
            if d.rows.dom().contains(k) {
                lemma_written(d.file, k, PendingView { gave_up: true, ..d.rows[k] });
            }
        },
        Happening::Defer { .. } => {
            lemma_written(d.file, k, deferred_row(d.rows[k]));
        },
        Happening::Commit { .. } => {
            lemma_written(d.file, k, committed_row(d.rows[k]));
        },
        Happening::RollBack { r, .. } => {
            lemma_written(d.file, k, restored_row(d.rows[k], r.deferred));
        },
        Happening::Elsewhere { row_id, row, .. } => {
            lemma_written(d.file, row_id, row);
        },
        _ => {},
    }
    if is_spent(d, s) {
        let l = choose|l: LatchView| #[trigger]
            d.file.contains(l) && l.row_id == k && l.transport_epoch == s.epoch;
        assert(d.file.contains(l));
        assert(read.contains(l));
        if n.file == d.file || n.file == read {
            assert(n.file.contains(l));
        } else if h is Elsewhere {
            assert(n.file.contains(l));
        } else {
            let p = match h {
                Happening::Pass { .. } => PendingView { gave_up: true, ..d.rows[k] },
                Happening::Defer { .. } => deferred_row(d.rows[k]),
                Happening::Commit { .. } => committed_row(d.rows[k]),
                Happening::RollBack { r, .. } => restored_row(d.rows[k], r.deferred),
                _ => d.rows[k],
            };
            assert(n.file.contains(latch_of(k, p)));
        }
    }
    if is_rearm(d, s, h) {
        assert(n.file.contains(latch_of(k, committed_row(d.rows[k]))));
    }
}

/// However passes, arms, reclaims, flushes, commits and restarts follow on each
/// other, each of them whole before the next begins, a row is re-armed at most once
/// in a transport generation, and not at all once its budget is used up. A restart
/// loses the memory and reads the budget back from the latch file.
pub proof fn law_at_most_one_rearm(d: Delivery, s: Subject, hs: Seq<Happening>)
    requires
        is_sound(d, s),
        can_follow(d, s, hs),
    ensures
        rearms(d, s, hs) <= 1,
        is_spent(d, s) ==> rearms(d, s, hs) == 0,
    decreases hs.len(),
{
    if hs.len() > 0 {
        law_a_rearm_spends_the_budget(d, s, hs[0]);
        law_at_most_one_rearm(happened(d, s, hs[0]), s, hs.drop_first());
    }
}

/// A row that nothing is kept of is sound: the law holds from the first arm on.
pub proof fn law_a_new_row_is_sound(s: Subject)
    ensures
        is_sound(Delivery { rows: Rows::empty(), file: Seq::empty() }, s),
{
}

} // verus!
