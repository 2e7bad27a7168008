//! Delivery verification of actionable wakes.
//!
//! A wake that lands submits a prompt, and the backend reports the submission. A
//! wake that an open dialog swallows submits nothing. Each armed wake therefore
//! waits for a submission; after [`VERIFY_WINDOW_MS`] without one it is
//! delivered once more, and after a second window it is given up. A structured
//! route keeps the given-up wake as a latch under its durable row, which an
//! explicit reclaim may re-arm a bounded number of times.
//!
//! The rows live in memory; the latches are a file per agent. What is read from
//! or written to that file is handed in and out as plain values.
use crate::events::{event, LogEvent};
use crate::notification_dedup::{extract_msg_id_from_header, header_msg_id};
use crate::positions::lemma_filter_positions;
use crate::table::Table;
use crate::text::{contains, occurs_at, occurs_in, same};
use vstd::prelude::*;

verus! {

/// How long a wake may stay unconfirmed before the next step is taken.
pub const VERIFY_WINDOW_MS: u64 = 30_000;

/// How often a given-up structured wake may be re-armed.
pub const MAX_STRUCTURED_REARMS: u8 = 1;

/// The route on which a wake was admitted.
#[derive(Debug, Clone, Copy, PartialEq, Eq, Structural)]
pub enum TransportMode {
    LegacyPty,
    ChannelBridge,
}

/// The outside channel that a wake came from.
#[derive(Debug, Clone, Copy, PartialEq, Eq, Structural)]
pub enum ChannelKind {
    Telegram,
    Discord,
}

/// A wake that waits for its confirmation.
pub struct Pending {
    pub agent: String,
    pub injected_at_ms: u64,
    pub text: String,
    pub channel_origin: Option<ChannelKind>,
    pub redelivered: bool,
    pub transport_epoch: u64,
    pub transport_mode: TransportMode,
    pub gave_up: bool,
    pub rearm_count: u8,
    pub rearm_reserved: bool,
    pub rearm_pending: bool,
}

/// What a [`Pending`] holds.
#[verifier::ext_equal]
pub struct PendingView {
    pub agent: Seq<char>,
    pub injected_at_ms: u64,
    pub text: Seq<char>,
    pub channel_origin: Option<ChannelKind>,
    pub redelivered: bool,
    pub transport_epoch: u64,
    pub transport_mode: TransportMode,
    pub gave_up: bool,
    pub rearm_count: u8,
    pub rearm_reserved: bool,
    pub rearm_pending: bool,
}

impl View for Pending {
    type V = PendingView;

    open spec fn view(&self) -> PendingView {
        PendingView {
            agent: self.agent@,
            injected_at_ms: self.injected_at_ms,
            text: self.text@,
            channel_origin: self.channel_origin,
            redelivered: self.redelivered,
            transport_epoch: self.transport_epoch,
            transport_mode: self.transport_mode,
            gave_up: self.gave_up,
            rearm_count: self.rearm_count,
            rearm_reserved: self.rearm_reserved,
            rearm_pending: self.rearm_pending,
        }
    }
}

impl Pending {
    /// A copy of the row.
    pub fn copy(&self) -> (r: Pending)
        ensures
            r@ == self@,
    {
        Pending {
            agent: self.agent.clone(),
            injected_at_ms: self.injected_at_ms,
            text: self.text.clone(),
            channel_origin: self.channel_origin,
            redelivered: self.redelivered,
            transport_epoch: self.transport_epoch,
            transport_mode: self.transport_mode,
            gave_up: self.gave_up,
            rearm_count: self.rearm_count,
            rearm_reserved: self.rearm_reserved,
            rearm_pending: self.rearm_pending,
        }
    }
}

/// A given-up or re-armed wake, as it is kept on disk.
pub struct DurableLatch {
    pub agent: String,
    pub row_id: String,
    pub text: String,
    pub channel_origin: Option<ChannelKind>,
    pub transport_mode: TransportMode,
    pub transport_epoch: u64,
    pub rearm_pending: bool,
    pub gave_up: bool,
    pub rearm_count: u8,
}

/// What a [`DurableLatch`] holds.
#[verifier::ext_equal]
pub struct LatchView {
    pub agent: Seq<char>,
    pub row_id: Seq<char>,
    pub text: Seq<char>,
    pub channel_origin: Option<ChannelKind>,
    pub transport_mode: TransportMode,
    pub transport_epoch: u64,
    pub rearm_pending: bool,
    pub gave_up: bool,
    pub rearm_count: u8,
}

impl View for DurableLatch {
    type V = LatchView;

    open spec fn view(&self) -> LatchView {
        LatchView {
            agent: self.agent@,
            row_id: self.row_id@,
            text: self.text@,
            channel_origin: self.channel_origin,
            transport_mode: self.transport_mode,
            transport_epoch: self.transport_epoch,
            rearm_pending: self.rearm_pending,
            gave_up: self.gave_up,
            rearm_count: self.rearm_count,
        }
    }
}

impl DurableLatch {
    fn copy(&self) -> (r: DurableLatch)
        ensures
            r@ == self@,
    {
        DurableLatch {
            agent: self.agent.clone(),
            row_id: self.row_id.clone(),
            text: self.text.clone(),
            channel_origin: self.channel_origin,
            transport_mode: self.transport_mode,
            transport_epoch: self.transport_epoch,
            rearm_pending: self.rearm_pending,
            gave_up: self.gave_up,
            rearm_count: self.rearm_count,
        }
    }
}

/// What a list of latches holds.
pub open spec fn latch_views(s: Seq<DurableLatch>) -> Seq<LatchView> {
    s.map_values(|l: DurableLatch| l@)
}

/// The id of the row that a wake belongs to: the message id in its header, or
/// one made of the agent's name.
pub open spec fn row_id_of(agent: Seq<char>, text: Seq<char>) -> Seq<char> {
    match header_msg_id(text) {
        Some(id) => id,
        None => "agent:"@ + agent,
    }
}

/// The id of the row that a wake belongs to.
pub fn logical_row_id(agent: &str, text: &str) -> (r: String)
    ensures
        r@ == row_id_of(agent@, text@),
{
    match extract_msg_id_from_header(text) {
        Some(id) => id,
        None => String::from_str("agent:").concat(agent),
    }
}

// ---------------------------------------------------------------------------
// The latch file
// ---------------------------------------------------------------------------

/// The latches of one transport generation, in order.
pub open spec fn of_epoch(s: Seq<LatchView>, epoch: u64) -> Seq<LatchView> {
    s.filter(|l: LatchView| l.transport_epoch == epoch)
}

/// The latches of the other rows, in order.
pub open spec fn of_other_rows(s: Seq<LatchView>, row_id: Seq<char>) -> Seq<LatchView> {
    s.filter(|l: LatchView| l.row_id != row_id)
}

/// The latch that a row leaves on disk.
pub open spec fn latch_of(row_id: Seq<char>, p: PendingView) -> LatchView {
    LatchView {
        agent: p.agent,
        row_id,
        text: p.text,
        channel_origin: p.channel_origin,
        transport_mode: p.transport_mode,
        transport_epoch: p.transport_epoch,
        rearm_pending: p.rearm_pending,
        gave_up: p.gave_up,
        rearm_count: p.rearm_count,
    }
}

/// The latches after a row was written: its earlier latch is gone, and a new one
/// stands at the end if the row has given up or used some of its budget.
pub open spec fn with_row(s: Seq<LatchView>, row_id: Seq<char>, p: PendingView) -> Seq<LatchView> {
    if p.gave_up || p.rearm_count > 0 {
        of_other_rows(s, row_id).push(latch_of(row_id, p))
    } else {
        of_other_rows(s, row_id)
    }
}

/// What became of reading an agent's latches for a transport generation.
pub enum LatchLoad {
    /// The file is locked, of another generation or unreadable.
    Refused,
    /// The latches of the generation; `purge` says that others were dropped and
    /// the file is to be rewritten before the latches are used.
    Loaded { latches: Vec<DurableLatch>, purge: bool },
}

/// Decides what an agent's latch file says for generation `epoch`: `current` is
/// the agent's generation, read after the file lock was taken, and `read` what
/// the file holds (none where the lock failed or the file is unreadable).
pub fn load_latches_for_epoch(current: u64, epoch: u64, read: Option<Vec<DurableLatch>>) -> (r:
    LatchLoad)
    ensures
        match r {
            LatchLoad::Refused => current != epoch || read is None,
            LatchLoad::Loaded { latches, purge } => {
                &&& current == epoch
                &&& read is Some
                &&& latch_views(latches@) == of_epoch(latch_views(read->0@), epoch)
                &&& purge == (latches@.len() != read->0@.len())
            },
        },
{
    if current != epoch {
        return LatchLoad::Refused;
    }
    match read {
        None => LatchLoad::Refused,
        Some(all) => {
            let mut latches: Vec<DurableLatch> = Vec::new();
            let ghost views = latch_views(all@);
            let ghost pred = |l: LatchView| l.transport_epoch == epoch;
            let mut i: usize = 0;
            assert(views.take(0) =~= Seq::<LatchView>::empty());
            proof {
                reveal(Seq::filter);
            }
            assert(latch_views(latches@) =~= views.take(0).filter(pred));
            while i < all.len()
                invariant
                    views == latch_views(all@),
                    pred == (|l: LatchView| l.transport_epoch == epoch),
                    i <= all@.len(),
                    latch_views(latches@) == views.take(i as int).filter(pred),
                decreases all@.len() - i,
            {
                let ghost before = latch_views(latches@);
                assert(views.take(i + 1).drop_last() =~= views.take(i as int));
                assert(views[i as int] == all@[i as int]@);
                proof {
                    reveal(Seq::filter);
                }
                if all[i].transport_epoch == epoch {
                    latches.push(all[i].copy());
                    assert(latch_views(latches@) =~= before.push(views[i as int]));
                }
                i = i + 1;
            }
            assert(views.take(i as int) =~= views);
            let purge: bool = latches.len() != all.len();
            LatchLoad::Loaded { latches, purge }
        },
    }
}

/// Whether a row has to be written to the latch file.
#[derive(Debug, Clone, Copy, PartialEq, Eq, Structural)]
pub enum PersistPlan {
    /// The route keeps no latch; the row counts as written.
    NotNeeded,
    /// The row belongs to a transport generation that is over.
    Stale,
    /// The file is to be rewritten.
    Write,
}

/// Decides whether a row has to be written, given the agent's transport
/// generation. It is asked before the file lock is taken and again after.
pub fn persist_plan(p: &Pending, current: u64) -> (r: PersistPlan)
    ensures
        r == (if p.transport_mode == TransportMode::LegacyPty {
            PersistPlan::NotNeeded
        } else if current != p.transport_epoch {
            PersistPlan::Stale
        } else {
            PersistPlan::Write
        }),
{
    if p.transport_mode == TransportMode::LegacyPty {
        PersistPlan::NotNeeded
    } else if current != p.transport_epoch {
        PersistPlan::Stale
    } else {
        PersistPlan::Write
    }
}

/// The latches to write for a row, given those that the file holds.
pub fn persist_latch(read: &Vec<DurableLatch>, row_id: &str, p: &Pending) -> (r: Vec<DurableLatch>)
    ensures
        latch_views(r@) == with_row(latch_views(read@), row_id@, p@),
{
    let mut out: Vec<DurableLatch> = Vec::new();
    let ghost views = latch_views(read@);
    let ghost pred = |l: LatchView| l.row_id != row_id@;
    let mut i: usize = 0;
    assert(views.take(0) =~= Seq::<LatchView>::empty());
    proof {
        reveal(Seq::filter);
    }
    assert(latch_views(out@) =~= views.take(0).filter(pred));
    while i < read.len()
        invariant
            views == latch_views(read@),
            pred == (|l: LatchView| l.row_id != row_id@),
            i <= read@.len(),
            latch_views(out@) == views.take(i as int).filter(pred),
        decreases read@.len() - i,
    {
        let ghost before = latch_views(out@);
        assert(views.take(i + 1).drop_last() =~= views.take(i as int));
        assert(views[i as int] == read@[i as int]@);
        proof {
            reveal(Seq::filter);
        }
        if !same(read[i].row_id.as_str(), row_id) {
            out.push(read[i].copy());
            assert(latch_views(out@) =~= before.push(views[i as int]));
        }
        i = i + 1;
    }
    assert(views.take(i as int) =~= views);
    if p.gave_up || p.rearm_count > 0 {
        let ghost before = latch_views(out@);
        out.push(
            DurableLatch {
                agent: p.agent.clone(),
                row_id: String::from_str(row_id),
                text: p.text.clone(),
                channel_origin: p.channel_origin,
                transport_mode: p.transport_mode,
                transport_epoch: p.transport_epoch,
                rearm_pending: p.rearm_pending,
                gave_up: p.gave_up,
                rearm_count: p.rearm_count,
            },
        );
        assert(latch_views(out@) =~= before.push(latch_of(row_id@, p@)));
    }
    out
}

// ---------------------------------------------------------------------------
// The armed rows
// ---------------------------------------------------------------------------

/// What the armed rows are: one per row id.
pub type Rows = Map<Seq<char>, PendingView>;

/// The rows that a table stands for.
pub open spec fn row_views(m: Map<Seq<char>, Pending>) -> Rows {
    m.map_values(|p: Pending| p@)
}

/// A row that holds a re-arm reservation has budget left.
pub open spec fn budget_kept(m: Rows) -> bool {
    forall|k: Seq<char>| #[trigger]
        m.dom().contains(k) && m[k].rearm_reserved ==> m[k].rearm_count < MAX_STRUCTURED_REARMS
}

/// The armed rows.
pub struct Verifier {
    rows: Table<String, Pending>,
}

impl View for Verifier {
    type V = Rows;

    closed spec fn view(&self) -> Rows {
        row_views(self.rows@)
    }
}

/// A wake that is about to be armed.
pub struct PreparedArm {
    pub row_id: String,
    pub agent: String,
    pub text: String,
    pub channel_origin: Option<ChannelKind>,
    pub transport_mode: TransportMode,
    pub durable_rearm_count: u8,
    pub rearm_pending: bool,
}

/// The claim on the re-arm budget of one row.
pub struct RearmReservation {
    pub agent: String,
    pub row_id: String,
    pub transport_epoch: u64,
    pub deferred: bool,
}

impl RearmReservation {
    /// The reservation is for this agent, row and generation, deferred or not.
    pub open spec fn is_for(&self, agent: Seq<char>, row_id: Seq<char>, epoch: u64, deferred: bool)
        -> bool {
        &&& self.agent@ == agent
        &&& self.row_id@ == row_id
        &&& self.transport_epoch == epoch
        &&& self.deferred == deferred
    }

    fn copy(&self) -> (r: RearmReservation)
        ensures
            r.is_for(self.agent@, self.row_id@, self.transport_epoch, self.deferred),
    {
        RearmReservation {
            agent: self.agent.clone(),
            row_id: self.row_id.clone(),
            transport_epoch: self.transport_epoch,
            deferred: self.deferred,
        }
    }
}

/// The first latch of a row.
pub open spec fn find_latch(s: Seq<LatchView>, row_id: Seq<char>) -> Option<LatchView>
    decreases s.len(),
{
    if s.len() == 0 {
        None
    } else if s[0].row_id == row_id {
        Some(s[0])
    } else {
        find_latch(s.drop_first(), row_id)
    }
}

/// The first latch of a row and agent that waits in the deferred queue.
pub open spec fn find_deferred(s: Seq<LatchView>, row_id: Seq<char>, agent: Seq<char>) -> Option<
    LatchView,
>
    decreases s.len(),
{
    if s.len() == 0 {
        None
    } else if s[0].row_id == row_id && s[0].agent == agent && s[0].rearm_pending {
        Some(s[0])
    } else {
        find_deferred(s.drop_first(), row_id, agent)
    }
}

fn latch_for_row(latches: &Vec<DurableLatch>, row_id: &str) -> (r: Option<DurableLatch>)
    ensures
        match r {
            Some(l) => find_latch(latch_views(latches@), row_id@) == Some(l@),
            None => find_latch(latch_views(latches@), row_id@) is None,
        },
{
    let ghost all = latch_views(latches@);
    let mut i: usize = 0;
    assert(all.skip(0) =~= all);
    while i < latches.len()
        invariant
            all == latch_views(latches@),
            i <= latches@.len(),
            find_latch(all, row_id@) == find_latch(all.skip(i as int), row_id@),
        decreases latches@.len() - i,
    {
        assert(all.skip(i as int)[0] == latches@[i as int]@);
        assert(all.skip(i as int).drop_first() =~= all.skip(i + 1));
        if same(latches[i].row_id.as_str(), row_id) {
            return Some(latches[i].copy());
        }
        i = i + 1;
    }
    None
}

fn deferred_latch(latches: &Vec<DurableLatch>, row_id: &str, agent: &str) -> (r: Option<
    DurableLatch,
>)
    ensures
        match r {
            Some(l) => find_deferred(latch_views(latches@), row_id@, agent@) == Some(l@),
            None => find_deferred(latch_views(latches@), row_id@, agent@) is None,
        },
{
    let ghost all = latch_views(latches@);
    let mut i: usize = 0;
    assert(all.skip(0) =~= all);
    while i < latches.len()
        invariant
            all == latch_views(latches@),
            i <= latches@.len(),
            find_deferred(all, row_id@, agent@) == find_deferred(
                all.skip(i as int),
                row_id@,
                agent@,
            ),
        decreases latches@.len() - i,
    {
        assert(all.skip(i as int)[0] == latches@[i as int]@);
        assert(all.skip(i as int).drop_first() =~= all.skip(i + 1));
        if same(latches[i].row_id.as_str(), row_id) && same(latches[i].agent.as_str(), agent)
            && latches[i].rearm_pending {
            return Some(latches[i].copy());
        }
        i = i + 1;
    }
    None
}

/// Whether the wake waits in the deferred queue: its latch says so, and the row
/// in memory holds the reservation.
pub open spec fn rearm_is_deferred(m: Rows, latch: Option<LatchView>, row_id: Seq<char>) -> bool {
    &&& latch is Some
    &&& latch->0.rearm_pending
    &&& m.dom().contains(row_id)
    &&& m[row_id].rearm_reserved
    &&& m[row_id].rearm_pending
}

/// The row that arming a prepared wake leaves. A row of the same generation hands
/// its budget and its reservation on; otherwise the budget is the durable one.
pub open spec fn armed_row(m: Rows, a: PreparedArm, epoch: u64, now: u64) -> PendingView {
    let carries = m.dom().contains(a.row_id@) && m[a.row_id@].transport_epoch == epoch;
    PendingView {
        agent: a.agent@,
        injected_at_ms: now,
        text: a.text@,
        channel_origin: a.channel_origin,
        redelivered: false,
        transport_epoch: epoch,
        transport_mode: a.transport_mode,
        gave_up: false,
        rearm_count: if carries {
            m[a.row_id@].rearm_count
        } else {
            a.durable_rearm_count
        },
        rearm_reserved: carries && m[a.row_id@].rearm_reserved,
        rearm_pending: if carries {
            m[a.row_id@].rearm_pending
        } else {
            a.rearm_pending
        },
    }
}

/// Whether a prepared wake may not be armed: the same agent gave this row up in
/// the same generation.
pub open spec fn arm_refused(m: Rows, a: PreparedArm, epoch: u64) -> bool {
    &&& m.dom().contains(a.row_id@)
    &&& m[a.row_id@].transport_epoch == epoch
    &&& m[a.row_id@].agent == a.agent@
    &&& m[a.row_id@].gave_up
}

/// Whether a reclaim may re-arm this row.
pub open spec fn reservable(p: PendingView, agent: Seq<char>) -> bool {
    &&& p.agent == agent
    &&& p.gave_up
    &&& !p.rearm_pending
    &&& !p.rearm_reserved
    &&& p.transport_mode != TransportMode::LegacyPty
    &&& p.rearm_count < MAX_STRUCTURED_REARMS
}

/// The row after a reclaim has reserved its re-arm.
pub open spec fn reserved_row(p: PendingView, now: u64) -> PendingView {
    PendingView {
        gave_up: false,
        rearm_reserved: true,
        redelivered: false,
        injected_at_ms: now,
        ..p
    }
}

/// Whether a reclaim may re-arm the row that this latch stands for.
pub open spec fn latch_reservable(l: LatchView, agent: Seq<char>) -> bool {
    &&& l.agent == agent
    &&& l.gave_up
    &&& !l.rearm_pending
    &&& l.transport_mode != TransportMode::LegacyPty
    &&& l.rearm_count < MAX_STRUCTURED_REARMS
}

/// The row that a latch becomes when its re-arm is reserved.
pub open spec fn revived_row(l: LatchView, agent: Seq<char>, epoch: u64, now: u64, deferred: bool)
    -> PendingView {
    PendingView {
        agent,
        injected_at_ms: now,
        text: l.text,
        channel_origin: l.channel_origin,
        redelivered: false,
        transport_epoch: epoch,
        transport_mode: l.transport_mode,
        gave_up: false,
        rearm_count: l.rearm_count,
        rearm_reserved: true,
        rearm_pending: deferred,
    }
}

/// Whether the flusher may take this deferred row up.
pub open spec fn flushable(p: PendingView, agent: Seq<char>) -> bool {
    &&& p.agent == agent
    &&& p.rearm_pending
    &&& !p.rearm_reserved
    &&& p.rearm_count < MAX_STRUCTURED_REARMS
}

/// Whether the row still carries the reservation.
pub open spec fn holds(m: Rows, r: RearmReservation) -> bool {
    &&& m.dom().contains(r.row_id@)
    &&& m[r.row_id@].agent == r.agent@
    &&& m[r.row_id@].transport_epoch == r.transport_epoch
    &&& m[r.row_id@].rearm_reserved
}

/// The row while its pointer waits in the deferred queue: given up again, the
/// budget untouched.
pub open spec fn deferred_row(p: PendingView) -> PendingView {
    PendingView { gave_up: true, rearm_reserved: false, rearm_pending: true, ..p }
}

/// The row after its re-arm was admitted: one more of the budget is used.
pub open spec fn committed_row(p: PendingView) -> PendingView {
    PendingView {
        gave_up: false,
        rearm_reserved: false,
        rearm_count: if p.rearm_count == u8::MAX {
            u8::MAX
        } else {
            (p.rearm_count + 1) as u8
        },
        rearm_pending: false,
        ..p
    }
}

/// The row after its re-arm was refused: given up again, the budget untouched.
pub open spec fn restored_row(p: PendingView, deferred: bool) -> PendingView {
    PendingView { gave_up: true, rearm_reserved: false, rearm_pending: deferred, ..p }
}

/// What became of the reservation of a re-arm, as far as memory tells.
pub enum ReserveStep {
    /// The row may not be re-armed.
    Refused,
    /// The row in memory was reserved.
    Reserved(RearmReservation),
    /// Memory has no row of this generation: the latch file decides.
    ConsultLatches,
}

/// What became of taking a deferred re-arm up, as far as memory tells.
pub enum FlushStep {
    Refused,
    Taken(RearmReservation),
    ConsultLatches,
}

/// What became of writing a row to the latch file.
#[derive(Debug, Clone, Copy, PartialEq, Eq, Structural)]
pub enum Persisted {
    /// Written, or nothing had to be.
    Written,
    /// The transport generation is over; nothing was written.
    Stale,
    /// The write failed.
    Failed,
}

/// What became of committing a re-arm.
#[derive(Debug, Clone, Copy, PartialEq, Eq, Structural)]
pub enum RearmCommitOutcome {
    /// The budget was not written; the pointer may be queued again.
    NotCommitted,
    /// The budget was written, but the row in memory had gone or changed; the
    /// pointer may not be queued again.
    DurableCommitted,
    /// Both the file and the row in memory say so.
    Committed,
}

/// A deferral that is about to be carried out; only [`Verifier::plan_defer`] makes one.
pub struct DeferPlan {
    reservation: RearmReservation,
    row: Pending,
}

impl DeferPlan {
    #[verifier::type_invariant]
    spec fn plans(self) -> bool {
        self.row@.gave_up && !self.row@.rearm_reserved && self.row@.rearm_pending
    }

    /// The reservation that it was made for.
    pub closed spec fn claim(&self) -> RearmReservation {
        self.reservation
    }

    /// The row that it puts in place.
    pub closed spec fn planned(&self) -> PendingView {
        self.row@
    }

    /// It was made for this reservation.
    pub open spec fn is_for(&self, r: RearmReservation) -> bool {
        self.claim().is_for(r.agent@, r.row_id@, r.transport_epoch, r.deferred)
    }

    /// The row to write before the plan is carried out.
    pub fn row(&self) -> (p: &Pending)
        ensures
            p@ == self.planned(),
    {
        &self.row
    }
}

/// A commit that is about to be carried out; only [`Verifier::plan_commit`] makes one.
pub struct CommitPlan {
    reservation: RearmReservation,
    row: Pending,
}

impl CommitPlan {
    #[verifier::type_invariant]
    spec fn plans(self) -> bool {
        !self.row@.gave_up && !self.row@.rearm_reserved && self.row@.rearm_count > 0
    }

    /// The reservation that it was made for.
    pub closed spec fn claim(&self) -> RearmReservation {
        self.reservation
    }

    /// The row that it puts in place.
    pub closed spec fn planned(&self) -> PendingView {
        self.row@
    }

    /// It was made for this reservation.
    pub open spec fn is_for(&self, r: RearmReservation) -> bool {
        self.claim().is_for(r.agent@, r.row_id@, r.transport_epoch, r.deferred)
    }

    /// The row to write before the plan is carried out.
    pub fn row(&self) -> (p: &Pending)
        ensures
            p@ == self.planned(),
    {
        &self.row
    }
}

/// A roll-back that is about to be carried out; only [`Verifier::plan_rollback`] makes
/// one.
pub struct RollbackPlan {
    reservation: RearmReservation,
    row: Pending,
}

impl RollbackPlan {
    #[verifier::type_invariant]
    spec fn plans(self) -> bool {
        self.row@.gave_up && !self.row@.rearm_reserved
    }

    /// The reservation that it was made for.
    pub closed spec fn claim(&self) -> RearmReservation {
        self.reservation
    }

    /// The row that it puts in place.
    pub closed spec fn planned(&self) -> PendingView {
        self.row@
    }

    /// It was made for this reservation.
    pub open spec fn is_for(&self, r: RearmReservation) -> bool {
        self.claim().is_for(r.agent@, r.row_id@, r.transport_epoch, r.deferred)
    }

    /// The row to write before the plan is carried out.
    pub fn row(&self) -> (p: &Pending)
        ensures
            p@ == self.planned(),
    {
        &self.row
    }
}

proof fn lemma_row_views_insert(m: Map<Seq<char>, Pending>, k: Seq<char>, p: Pending)
    ensures
        row_views(m.insert(k, p)) == row_views(m).insert(k, p@),
{
    assert(row_views(m.insert(k, p)) =~= row_views(m).insert(k, p@));
}

proof fn lemma_row_views_remove(m: Map<Seq<char>, Pending>, k: Seq<char>)
    ensures
        row_views(m.remove(k)) == row_views(m).remove(k),
{
    assert(row_views(m.remove(k)) =~= row_views(m).remove(k));
}

impl Verifier {
    /// No wake is armed.
    pub fn new() -> (v: Self)
        ensures
            v@ == Rows::empty(),
            budget_kept(v@),
    {
        let v = Verifier { rows: Table::new() };
        assert(v@ =~= Rows::empty());
        v
    }

    /// The row under an id.
    pub fn row(&self, row_id: &str) -> (r: Option<Pending>)
        ensures
            match r {
                Some(p) => self@.dom().contains(row_id@) && self@[row_id@] == p@,
                None => !self@.dom().contains(row_id@),
            },
    {
        let key: String = String::from_str(row_id);
        match self.rows.get(&key) {
            Some(p) => Some(p.copy()),
            None => None,
        }
    }

    fn put(&mut self, row_id: &str, p: Pending)
        ensures
            final(self)@ == old(self)@.insert(row_id@, p@),
    {
        proof {
            lemma_row_views_insert(self.rows@, row_id@, p);
        }
        self.rows.insert(String::from_str(row_id), p);
    }

    fn take_out(&mut self, row_id: &str)
        ensures
            final(self)@ == old(self)@.remove(row_id@),
    {
        proof {
            lemma_row_views_remove(self.rows@, row_id@);
        }
        let key: String = String::from_str(row_id);
        self.rows.remove(&key);
    }

    /// The ids of the rows, in the order in which they were first armed.
    pub closed spec fn order(&self) -> Seq<Seq<char>> {
        self.rows.order()
    }

    /// The agent of each row.
    pub fn agents(&self) -> (r: Vec<String>)
        ensures
            self.order().no_duplicates(),
            self.order().to_set() == self@.dom(),
            r@.len() == self.order().len(),
            forall|i: int|
                0 <= i < r@.len() ==> (#[trigger] r@[i])@ == self@[self.order()[i]].agent,
    {
        let n: usize = self.rows.positions();
        let mut out: Vec<String> = Vec::new();
        let mut i: usize = 0;
        assert(self.order().to_set() =~= self@.dom());
        while i < n
            invariant
                n == self.order().len(),
                i <= n,
                out@.len() == i,
                forall|j: int|
                    0 <= j < i ==> (#[trigger] out@[j])@ == self@[self.order()[j]].agent,
            decreases n - i,
        {
            let k = self.rows.key_at(i);
            assert(self.rows@.dom().contains(k@));
            out.push(self.rows.value_at(i).agent.clone());
            i = i + 1;
        }
        out
    }

    /// Prepares a wake for arming. `hooks_seen` says that the agent's backend has
    /// reported a submission before; `latches` are the agent's latches of the
    /// present generation, none where they could not be read.
    pub fn prepare_arm(
        &self,
        hooks_seen: bool,
        latches: &Option<Vec<DurableLatch>>,
        agent: &str,
        text: &str,
        transport_mode: TransportMode,
        channel_origin: Option<ChannelKind>,
    ) -> (r: Option<PreparedArm>)
        ensures
            ({
                let row_id = row_id_of(agent@, text@);
                let latch = find_latch(latch_views(latches->0@), row_id);
                let deferred = rearm_is_deferred(self@, latch, row_id);
                if !hooks_seen || latches is None || (latch is Some && latch->0.gave_up
                    && !deferred) {
                    r is None
                } else {
                    &&& r is Some
                    &&& r->0.row_id@ == row_id
                    &&& r->0.agent@ == agent@
                    &&& r->0.text@ == text@
                    &&& r->0.channel_origin == channel_origin
                    &&& r->0.transport_mode == transport_mode
                    &&& r->0.durable_rearm_count == (if latch is Some {
                        latch->0.rearm_count
                    } else {
                        0
                    })
                    &&& r->0.rearm_pending == deferred
                }
            }),
    {
        if !hooks_seen {
            return None;
        }
        match latches {
            None => None,
            Some(list) => {
                let row_id = logical_row_id(agent, text);
                let mut count: u8 = 0;
                let mut deferred: bool = false;
                if let Some(latch) = latch_for_row(list, row_id.as_str()) {
                    count = latch.rearm_count;
                    if latch.rearm_pending {
                        deferred = match self.rows.get(&row_id) {
                            Some(p) => p.rearm_reserved && p.rearm_pending,
                            None => false,
                        };
                    }
                    if latch.gave_up && !deferred {
                        return None;
                    }
                }
                Some(
                    PreparedArm {
                        row_id,
                        agent: String::from_str(agent),
                        text: String::from_str(text),
                        channel_origin,
                        transport_mode,
                        durable_rearm_count: count,
                        rearm_pending: deferred,
                    },
                )
            },
        }
    }

    /// Arms a prepared wake in generation `transport_epoch`, unless the same
    /// agent gave the row up in that generation.
    pub fn commit_prepared_arm(&mut self, prepared: PreparedArm, transport_epoch: u64, now_ms: u64)
        -> (armed: bool)
        ensures
            armed == !arm_refused(old(self)@, prepared, transport_epoch),
            final(self)@ == (if armed {
                old(self)@.insert(
                    prepared.row_id@,
                    armed_row(old(self)@, prepared, transport_epoch, now_ms),
                )
            } else {
                old(self)@
            }),
            budget_kept(old(self)@) ==> budget_kept(final(self)@),
    {
        let mut rearm_count: u8 = prepared.durable_rearm_count;
        let mut rearm_reserved: bool = false;
        let mut rearm_pending: bool = prepared.rearm_pending;
        if let Some(previous) = self.rows.get(&prepared.row_id) {
            if previous.transport_epoch == transport_epoch {
                if previous.gave_up && same(previous.agent.as_str(), prepared.agent.as_str()) {
                    return false;
                }
                rearm_count = previous.rearm_count;
                rearm_reserved = previous.rearm_reserved;
                rearm_pending = previous.rearm_pending;
            }
        }
        let row = Pending {
            agent: prepared.agent,
            injected_at_ms: now_ms,
            text: prepared.text,
            channel_origin: prepared.channel_origin,
            redelivered: false,
            transport_epoch,
            transport_mode: prepared.transport_mode,
            gave_up: false,
            rearm_count,
            rearm_reserved,
            rearm_pending,
        };
        self.put(prepared.row_id.as_str(), row);
        true
    }

    /// Drops the rows of a deleted agent.
    pub fn forget(&mut self, agent: &str)
        ensures
            final(self)@ == crate::table::kept(
                old(self)@,
                |k: Seq<char>, p: PendingView| p.agent != agent@,
            ),
            budget_kept(old(self)@) ==> budget_kept(final(self)@),
    {
        let keep = |_k: &String, p: &Pending| -> (b: bool)
            ensures
                b == (p@.agent != agent@),
        {
            !same(p.agent.as_str(), agent)
        };
        let ghost before = self.rows@;
        let _dropped: usize = self.rows.retain(keep, Ghost(not_of(agent@)));
        proof {
            assert(self@ =~= crate::table::kept(
                row_views(before),
                |k: Seq<char>, p: PendingView| p.agent != agent@,
            ));
        }
    }

    /// Reserves the re-arm of a reclaimed row, as far as memory tells.
    /// `transport_epoch` is the agent's present generation; a row of another
    /// generation is dropped.
    pub fn reserve_rearm_after_reclaim(
        &mut self,
        agent: &str,
        row_id: &str,
        transport_epoch: u64,
        now_ms: u64,
    ) -> (r: ReserveStep)
        ensures
            ({
                let m = old(self)@;
                if !m.dom().contains(row_id@) {
                    r is ConsultLatches && final(self)@ == m
                } else if m[row_id@].transport_epoch != transport_epoch {
                    r is ConsultLatches && final(self)@ == m.remove(row_id@)
                } else if !reservable(m[row_id@], agent@) {
                    r is Refused && final(self)@ == m
                } else {
                    &&& r is Reserved
                    &&& r->Reserved_0.is_for(agent@, row_id@, transport_epoch, false)
                    &&& final(self)@ == m.insert(row_id@, reserved_row(m[row_id@], now_ms))
                }
            }),
            budget_kept(old(self)@) ==> budget_kept(final(self)@),
    {
        match self.row(row_id) {
            None => ReserveStep::ConsultLatches,
            Some(mut p) => {
                if p.transport_epoch != transport_epoch {
                    self.take_out(row_id);
                    return ReserveStep::ConsultLatches;
                }
                if !same(p.agent.as_str(), agent) || !p.gave_up || p.rearm_pending
                    || p.rearm_reserved || p.transport_mode == TransportMode::LegacyPty
                    || p.rearm_count >= MAX_STRUCTURED_REARMS {
                    return ReserveStep::Refused;
                }
                p.gave_up = false;
                p.rearm_reserved = true;
                p.redelivered = false;
                p.injected_at_ms = now_ms;
                self.put(row_id, p);
                ReserveStep::Reserved(
                    RearmReservation {
                        agent: String::from_str(agent),
                        row_id: String::from_str(row_id),
                        transport_epoch,
                        deferred: false,
                    },
                )
            },
        }
    }

    /// Reserves the re-arm of a reclaimed row by its latch, where memory had no
    /// row. A row that has come into memory since wins.
    pub fn reserve_rearm_from_latches(
        &mut self,
        agent: &str,
        row_id: &str,
        transport_epoch: u64,
        latches: &Option<Vec<DurableLatch>>,
        now_ms: u64,
    ) -> (r: Option<RearmReservation>)
        ensures
            ({
                let m = old(self)@;
                let latch = find_latch(latch_views(latches->0@), row_id@);
                if latches is Some && latch is Some && latch_reservable(latch->0, agent@)
                    && !m.dom().contains(row_id@) {
                    &&& r is Some
                    &&& r->0.is_for(agent@, row_id@, transport_epoch, false)
                    &&& final(self)@ == m.insert(
                        row_id@,
                        revived_row(latch->0, agent@, transport_epoch, now_ms, false),
                    )
                } else {
                    r is None && final(self)@ == m
                }
            }),
            budget_kept(old(self)@) ==> budget_kept(final(self)@),
    {
        let list = match latches {
            None => {
                return None;
            },
            Some(list) => list,
        };
        let latch = match latch_for_row(list, row_id) {
            None => {
                return None;
            },
            Some(latch) => latch,
        };
        if !same(latch.agent.as_str(), agent) || !latch.gave_up || latch.rearm_pending
            || latch.transport_mode == TransportMode::LegacyPty || latch.rearm_count
            >= MAX_STRUCTURED_REARMS {
            return None;
        }
        if self.row(row_id).is_some() {
            return None;
        }
        self.put(
            row_id,
            Pending {
                agent: String::from_str(agent),
                injected_at_ms: now_ms,
                text: latch.text,
                channel_origin: latch.channel_origin,
                redelivered: false,
                transport_epoch,
                transport_mode: latch.transport_mode,
                gave_up: false,
                rearm_count: latch.rearm_count,
                rearm_reserved: true,
                rearm_pending: false,
            },
        );
        Some(
            RearmReservation {
                agent: String::from_str(agent),
                row_id: String::from_str(row_id),
                transport_epoch,
                deferred: false,
            },
        )
    }

    /// Takes the deferred re-arm of a row up when its pointer is flushed, as far
    /// as memory tells. A row of another generation is dropped.
    pub fn take_deferred_rearm_for_flush(
        &mut self,
        agent: &str,
        row_id: &str,
        transport_epoch: u64,
    ) -> (r: FlushStep)
        ensures
            ({
                let m = old(self)@;
                if !m.dom().contains(row_id@) {
                    r is ConsultLatches && final(self)@ == m
                } else if m[row_id@].transport_epoch != transport_epoch {
                    r is Refused && final(self)@ == m.remove(row_id@)
                } else if !flushable(m[row_id@], agent@) {
                    r is Refused && final(self)@ == m
                } else {
                    &&& r is Taken
                    &&& r->Taken_0.is_for(agent@, row_id@, transport_epoch, true)
                    &&& final(self)@ == m.insert(
                        row_id@,
                        (PendingView { gave_up: false, rearm_reserved: true, ..m[row_id@] }),
                    )
                }
            }),
            budget_kept(old(self)@) ==> budget_kept(final(self)@),
    {
        match self.row(row_id) {
            None => FlushStep::ConsultLatches,
            Some(mut p) => {
                if p.transport_epoch != transport_epoch {
                    self.take_out(row_id);
                    return FlushStep::Refused;
                }
                if !same(p.agent.as_str(), agent) || !p.rearm_pending || p.rearm_reserved
                    || p.rearm_count >= MAX_STRUCTURED_REARMS {
                    return FlushStep::Refused;
                }
                p.gave_up = false;
                p.rearm_reserved = true;
                self.put(row_id, p);
                FlushStep::Taken(
                    RearmReservation {
                        agent: String::from_str(agent),
                        row_id: String::from_str(row_id),
                        transport_epoch,
                        deferred: true,
                    },
                )
            },
        }
    }

    /// Takes a deferred re-arm up by its latch, where memory had no row. A row
    /// that has come into memory since wins.
    pub fn take_deferred_rearm_from_latches(
        &mut self,
        agent: &str,
        row_id: &str,
        transport_epoch: u64,
        latches: &Option<Vec<DurableLatch>>,
        now_ms: u64,
    ) -> (r: Option<RearmReservation>)
        ensures
            ({
                let m = old(self)@;
                let latch = find_deferred(latch_views(latches->0@), row_id@, agent@);
                if latches is Some && latch is Some && latch->0.rearm_count
                    < MAX_STRUCTURED_REARMS && !m.dom().contains(row_id@) {
                    &&& r is Some
                    &&& r->0.is_for(agent@, row_id@, transport_epoch, true)
                    &&& final(self)@ == m.insert(
                        row_id@,
                        revived_row(latch->0, agent@, transport_epoch, now_ms, true),
                    )
                } else {
                    r is None && final(self)@ == m
                }
            }),
            budget_kept(old(self)@) ==> budget_kept(final(self)@),
    {
        let list = match latches {
            None => {
                return None;
            },
            Some(list) => list,
        };
        let latch = match deferred_latch(list, row_id, agent) {
            None => {
                return None;
            },
            Some(latch) => latch,
        };
        if latch.rearm_count >= MAX_STRUCTURED_REARMS {
            return None;
        }
        if self.row(row_id).is_some() {
            return None;
        }
        self.put(
            row_id,
            Pending {
                agent: String::from_str(agent),
                injected_at_ms: now_ms,
                text: latch.text,
                channel_origin: latch.channel_origin,
                redelivered: false,
                transport_epoch,
                transport_mode: latch.transport_mode,
                gave_up: false,
                rearm_count: latch.rearm_count,
                rearm_reserved: true,
                rearm_pending: true,
            },
        );
        Some(
            RearmReservation {
                agent: String::from_str(agent),
                row_id: String::from_str(row_id),
                transport_epoch,
                deferred: true,
            },
        )
    }

    fn reserved(&self, r: &RearmReservation) -> (p: Option<Pending>)
        ensures
            match p {
                Some(p) => holds(self@, *r) && p@ == self@[r.row_id@],
                None => !holds(self@, *r),
            },
    {
        match self.row(r.row_id.as_str()) {
            None => None,
            Some(p) => {
                if !same(p.agent.as_str(), r.agent.as_str()) || p.transport_epoch
                    != r.transport_epoch || !p.rearm_reserved {
                    None
                } else {
                    Some(p)
                }
            },
        }
    }

    /// Plans to defer a re-arm, if it can be.
    pub fn plan_defer(&self, r: &RearmReservation) -> (p: Option<DeferPlan>)
        ensures
            match p {
                Some(p) => {
                    &&& holds(self@, *r) && !r.deferred
                    &&& p.is_for(*r)
                    &&& p.planned() == deferred_row(self@[r.row_id@])
                },
                None => !holds(self@, *r) || r.deferred,
            },
    {
        match self.reserved(r) {
            None => None,
            Some(mut p) => {
                if r.deferred {
                    return None;
                }
                p.gave_up = true;
                p.rearm_reserved = false;
                p.rearm_pending = true;
                Some(DeferPlan { reservation: r.copy(), row: p })
            },
        }
    }

    /// Plans to commit a re-arm, if it can be.
    pub fn plan_commit(&self, r: &RearmReservation) -> (p: Option<CommitPlan>)
        ensures
            match p {
                Some(p) => {
                    &&& holds(self@, *r)
                    &&& p.is_for(*r)
                    &&& p.planned() == committed_row(self@[r.row_id@])
                },
                None => !holds(self@, *r),
            },
    {
        match self.reserved(r) {
            None => None,
            Some(mut p) => {
                p.gave_up = false;
                p.rearm_reserved = false;
                p.rearm_count = p.rearm_count.saturating_add(1);
                p.rearm_pending = false;
                Some(CommitPlan { reservation: r.copy(), row: p })
            },
        }
    }

    /// Plans to take a re-arm back, if it can be.
    pub fn plan_rollback(&self, r: &RearmReservation) -> (p: Option<RollbackPlan>)
        ensures
            match p {
                Some(p) => {
                    &&& holds(self@, *r)
                    &&& p.is_for(*r)
                    &&& p.planned() == restored_row(self@[r.row_id@], r.deferred)
                },
                None => !holds(self@, *r),
            },
    {
        match self.reserved(r) {
            None => None,
            Some(mut p) => {
                p.gave_up = true;
                p.rearm_reserved = false;
                p.rearm_pending = r.deferred;
                Some(RollbackPlan { reservation: r.copy(), row: p })
            },
        }
    }

    fn replace_reserved(&mut self, r: &RearmReservation, updated: Pending) -> (done: bool)
        ensures
            done == holds(old(self)@, *r),
            final(self)@ == (if done {
                old(self)@.insert(r.row_id@, updated@)
            } else {
                old(self)@
            }),
    {
        if self.reserved(r).is_none() {
            return false;
        }
        self.put(r.row_id.as_str(), updated);
        true
    }

    /// Defers a re-arm as planned: `persisted` is what became of writing the row.
    pub fn defer_rearm_after_reclaim(&mut self, plan: DeferPlan, persisted: Persisted) -> (done:
        bool)
        ensures
            done == (persisted == Persisted::Written && holds(old(self)@, plan.claim())),
            final(self)@ == (if done {
                old(self)@.insert(plan.claim().row_id@, plan.planned())
            } else {
                old(self)@
            }),
            budget_kept(old(self)@) ==> budget_kept(final(self)@),
    {
        proof {
            use_type_invariant(&plan);
        }
        if persisted != Persisted::Written {
            return false;
        }
        self.replace_reserved(&plan.reservation, plan.row)
    }

    /// Commits a re-arm as planned: `persisted` is what became of writing the row.
    pub fn commit_rearm_after_reclaim_outcome(
        &mut self,
        plan: Option<CommitPlan>,
        persisted: Persisted,
    ) -> (outcome: RearmCommitOutcome)
        ensures
            outcome == (if plan is None || persisted != Persisted::Written {
                RearmCommitOutcome::NotCommitted
            } else if !holds(old(self)@, plan->0.claim()) {
                RearmCommitOutcome::DurableCommitted
            } else {
                RearmCommitOutcome::Committed
            }),
            final(self)@ == (if outcome == RearmCommitOutcome::Committed {
                old(self)@.insert(plan->0.claim().row_id@, plan->0.planned())
            } else {
                old(self)@
            }),
            budget_kept(old(self)@) ==> budget_kept(final(self)@),
    {
        match plan {
            None => RearmCommitOutcome::NotCommitted,
            Some(plan) => {
                proof {
                    use_type_invariant(&plan);
                }
                if persisted != Persisted::Written {
                    return RearmCommitOutcome::NotCommitted;
                }
                if self.replace_reserved(&plan.reservation, plan.row) {
                    RearmCommitOutcome::Committed
                } else {
                    RearmCommitOutcome::DurableCommitted
                }
            },
        }
    }

    /// Takes a re-arm back as planned: `persisted` is what became of writing the row.
    pub fn rollback_rearm_after_reclaim(&mut self, plan: RollbackPlan, persisted: Persisted) -> (done:
        bool)
        ensures
            done == (persisted == Persisted::Written && holds(old(self)@, plan.claim())),
            final(self)@ == (if done {
                old(self)@.insert(plan.claim().row_id@, plan.planned())
            } else {
                old(self)@
            }),
            budget_kept(old(self)@) ==> budget_kept(final(self)@),
    {
        proof {
            use_type_invariant(&plan);
        }
        if persisted != Persisted::Written {
            return false;
        }
        self.replace_reserved(&plan.reservation, plan.row)
    }

    /// Drops the arm that was made for a deferred re-arm whose commit failed.
    pub fn cancel_rearm_arm(&mut self, r: &RearmReservation) -> (done: bool)
        ensures
            done == (holds(old(self)@, *r) && old(self)@[r.row_id@].rearm_pending),
            final(self)@ == (if done {
                old(self)@.remove(r.row_id@)
            } else {
                old(self)@
            }),
            budget_kept(old(self)@) ==> budget_kept(final(self)@),
    {
        match self.reserved(r) {
            None => false,
            Some(p) => {
                if !p.rearm_pending {
                    return false;
                }
                self.take_out(r.row_id.as_str());
                true
            },
        }
    }
}

/// Whether a commit left the pointer admitted, so that it may not be queued again.
pub fn commit_rearm_after_reclaim(outcome: RearmCommitOutcome) -> (r: bool)
    ensures
        r == (outcome != RearmCommitOutcome::NotCommitted),
{
    outcome != RearmCommitOutcome::NotCommitted
}

spec fn not_of(agent: Seq<char>) -> spec_fn(Seq<char>, Pending) -> bool {
    |k: Seq<char>, p: Pending| p@.agent != agent
}

// ---------------------------------------------------------------------------
// The verification pass
// ---------------------------------------------------------------------------

/// What the pass does with one row.
#[derive(Debug, Clone, Copy, PartialEq, Eq, Structural)]
pub enum RowStep {
    /// A submission came after the wake: the row is dropped.
    Delivered,
    /// The window is still open.
    Waiting,
    /// The window closed for the first time: the wake is delivered once more.
    Redeliver,
    /// The window closed again on a route without latches: the row is dropped.
    GiveUp,
    /// The window closed again on a structured route: the row is kept as a latch.
    Latch,
}

/// What the pass does with a row, given when the agent's backend last reported a
/// submission.
pub open spec fn row_step(p: PendingView, submitted_at: Option<u64>, now: u64) -> RowStep {
    if submitted_at is Some && submitted_at->0 > p.injected_at_ms {
        RowStep::Delivered
    } else if now - p.injected_at_ms < VERIFY_WINDOW_MS {
        RowStep::Waiting
    } else if !p.redelivered {
        RowStep::Redeliver
    } else if p.transport_mode == TransportMode::LegacyPty {
        RowStep::GiveUp
    } else {
        RowStep::Latch
    }
}

/// What the pass leaves of a row.
pub open spec fn row_after(p: PendingView, step: RowStep, now: u64) -> Option<PendingView> {
    match step {
        RowStep::Delivered | RowStep::GiveUp => None,
        RowStep::Waiting => Some(p),
        RowStep::Redeliver => Some(PendingView { redelivered: true, injected_at_ms: now, ..p }),
        RowStep::Latch => Some(PendingView { gave_up: true, ..p }),
    }
}

/// When the backend of an agent last reported a submission.
pub open spec fn submitted(subs: Map<Seq<char>, u64>, agent: Seq<char>) -> Option<u64> {
    if subs.dom().contains(agent) {
        Some(subs[agent])
    } else {
        None
    }
}

/// What the pass does with the row under `k`.
pub open spec fn step_of(m: Rows, k: Seq<char>, subs: Map<Seq<char>, u64>, now: u64) -> RowStep {
    row_step(m[k], submitted(subs, m[k].agent), now)
}

/// The rows that the pass leaves.
pub open spec fn rows_after(m: Rows, subs: Map<Seq<char>, u64>, now: u64) -> Rows {
    Map::new(
        |k: Seq<char>|
            m.dom().contains(k) && row_after(m[k], step_of(m, k, subs, now), now) is Some,
        |k: Seq<char>| row_after(m[k], step_of(m, k, subs, now), now)->0,
    )
}

/// The ids of the rows, in order, with which the pass does `step`.
pub open spec fn stepped(
    order: Seq<Seq<char>>,
    m: Rows,
    subs: Map<Seq<char>, u64>,
    now: u64,
    step: RowStep,
) -> Seq<Seq<char>> {
    order.filter(|k: Seq<char>| step_of(m, k, subs, now) == step)
}

/// A wake to deliver once more, with the generation and the origin that it was
/// first admitted with.
pub struct Redelivery {
    pub agent: String,
    pub text: String,
    pub transport_epoch: u64,
    pub channel_origin: Option<ChannelKind>,
}

impl Redelivery {
    /// The wake is that of the row.
    pub open spec fn is_of(&self, p: PendingView) -> bool {
        &&& self.agent@ == p.agent
        &&& self.text@ == p.text
        &&& self.transport_epoch == p.transport_epoch
        &&& self.channel_origin == p.channel_origin
    }
}

/// A wake that was given up.
pub struct GivenUp {
    pub agent: String,
    pub row_id: String,
}

/// A row to write to the latch file.
pub struct LatchWrite {
    pub row_id: String,
    pub row: Pending,
}

/// What is to be done after the pass, each list in the order of the rows.
pub struct VerifyActions {
    pub persist: Vec<LatchWrite>,
    pub redeliver: Vec<Redelivery>,
    pub gave_up: Vec<GivenUp>,
}

/// The lists hold one item for each row with that step, in the order of the rows.
pub open spec fn actions_are(
    a: VerifyActions,
    order: Seq<Seq<char>>,
    m: Rows,
    subs: Map<Seq<char>, u64>,
    now: u64,
) -> bool {
    let again = stepped(order, m, subs, now, RowStep::Redeliver);
    let latch = stepped(order, m, subs, now, RowStep::Latch);
    let gone = stepped(order, m, subs, now, RowStep::GiveUp);
    &&& a.redeliver@.len() == again.len()
    &&& forall|i: int|
        0 <= i < again.len() ==> (#[trigger] a.redeliver@[i]).is_of(m[again[i]])
    &&& a.persist@.len() == latch.len()
    &&& forall|i: int|
        0 <= i < latch.len() ==> (#[trigger] a.persist@[i]).row_id@ == latch[i]
            && a.persist@[i].row@ == (PendingView { gave_up: true, ..m[latch[i]] })
    &&& a.gave_up@.len() == gone.len()
    &&& forall|i: int|
        0 <= i < gone.len() ==> (#[trigger] a.gave_up@[i]).row_id@ == gone[i]
            && a.gave_up@[i].agent@ == m[gone[i]].agent
}

fn decide_row(p: &Pending, submitted_at: Option<u64>, now: u64) -> (r: RowStep)
    ensures
        r == row_step(p@, submitted_at, now),
{
    let delivered: bool = match submitted_at {
        Some(t) => t > p.injected_at_ms,
        None => false,
    };
    if delivered {
        RowStep::Delivered
    } else if now.saturating_sub(p.injected_at_ms) < VERIFY_WINDOW_MS {
        RowStep::Waiting
    } else if !p.redelivered {
        RowStep::Redeliver
    } else if p.transport_mode == TransportMode::LegacyPty {
        RowStep::GiveUp
    } else {
        RowStep::Latch
    }
}

proof fn lemma_filter_step<A>(s: Seq<A>, i: int, pred: spec_fn(A) -> bool)
    requires
        0 <= i < s.len(),
    ensures
        s.take(i + 1).filter(pred) == (if pred(s[i]) {
            s.take(i).filter(pred).push(s[i])
        } else {
            s.take(i).filter(pred)
        }),
{
    reveal(Seq::filter);
    assert(s.take(i + 1).drop_last() =~= s.take(i));
}

impl Verifier {
    /// One verification pass at `now_ms`. `submissions` says when the backend of
    /// each agent last reported a submission.
    pub fn verify_pass(&mut self, submissions: &Table<String, u64>, now_ms: u64) -> (a:
        VerifyActions)
        ensures
            old(self).order().no_duplicates(),
            old(self).order().to_set() == old(self)@.dom(),
            final(self)@ == rows_after(old(self)@, submissions@, now_ms),
            actions_are(a, old(self).order(), old(self)@, submissions@, now_ms),
            budget_kept(old(self)@) ==> budget_kept(final(self)@),
    {
        let n: usize = self.rows.positions();
        let ghost m = self@;
        let ghost subs = submissions@;
        let ghost order = self.order();
        assert(order.to_set() =~= m.dom());
        let mut next: Table<String, Pending> = Table::new();
        let mut a = VerifyActions {
            persist: Vec::new(),
            redeliver: Vec::new(),
            gave_up: Vec::new(),
        };
        let mut i: usize = 0;
        proof {
            reveal(Seq::filter);
            assert(order.take(0) =~= Seq::<Seq<char>>::empty());
            assert(row_views(next@) =~= Rows::empty());
        }
        while i < n
            invariant
                n == order.len(),
                i <= n,
                m == self@,
                order == self.order(),
                order.no_duplicates(),
                order.to_set() == m.dom(),
                subs == submissions@,
                forall|k: Seq<char>| #[trigger]
                    row_views(next@).dom().contains(k) <==> order.take(i as int).contains(k)
                        && rows_after(m, subs, now_ms).dom().contains(k),
                forall|k: Seq<char>| #[trigger]
                    row_views(next@).dom().contains(k) ==> row_views(next@)[k] == rows_after(
                        m,
                        subs,
                        now_ms,
                    )[k],
                actions_are(a, order.take(i as int), m, subs, now_ms),
            decreases n - i,
        {
            let row_id = self.rows.key_at(i);
            let row = self.rows.value_at(i);
            let ghost k = order[i as int];
            proof {
                assert(m[k] == row@);
                assert(order.to_set().contains(k));
                assert(m.dom().contains(k));
                lemma_filter_step(
                    order,
                    i as int,
                    |k: Seq<char>| step_of(m, k, subs, now_ms) == RowStep::Redeliver,
                );
                lemma_filter_step(
                    order,
                    i as int,
                    |k: Seq<char>| step_of(m, k, subs, now_ms) == RowStep::Latch,
                );
                lemma_filter_step(
                    order,
                    i as int,
                    |k: Seq<char>| step_of(m, k, subs, now_ms) == RowStep::GiveUp,
                );
                assert(order.take(i + 1) =~= order.take(i as int).push(k));
                assert forall|x: Seq<char>|
                    #![trigger order.take(i as int).contains(x)]
                    #![trigger order.take(i + 1).contains(x)]
                    order.take(i + 1).contains(x) <==> (order.take(i as int).contains(x) || x
                        == k) by {
                    if order.take(i as int).contains(x) {
                        let j = choose|j: int|
                            0 <= j < order.take(i as int).len() && order.take(i as int)[j] == x;
                        assert(order.take(i + 1)[j] == x);
                    }
                    if x == k {
                        assert(order.take(i + 1)[i as int] == x);
                    }
                }
            }
            let submitted_at: Option<u64> = match submissions.get(&row.agent) {
                Some(t) => Some(*t),
                None => None,
            };
            let step = decide_row(row, submitted_at, now_ms);
            assert(step == step_of(m, k, subs, now_ms));
            let ghost before = next@;
            let kept: Option<Pending> = match step {
                RowStep::Delivered => None,
                RowStep::Waiting => Some(row.copy()),
                RowStep::Redeliver => {
                    a.redeliver.push(
                        Redelivery {
                            agent: row.agent.clone(),
                            text: row.text.clone(),
                            transport_epoch: row.transport_epoch,
                            channel_origin: row.channel_origin,
                        },
                    );
                    let mut p = row.copy();
                    p.redelivered = true;
                    p.injected_at_ms = now_ms;
                    Some(p)
                },
                RowStep::GiveUp => {
                    a.gave_up.push(
                        GivenUp { agent: row.agent.clone(), row_id: row_id.clone() },
                    );
                    None
                },
                RowStep::Latch => {
                    let mut p = row.copy();
                    p.gave_up = true;
                    a.persist.push(LatchWrite { row_id: row_id.clone(), row: p.copy() });
                    Some(p)
                },
            };
            assert(!order.take(i as int).contains(k));
            if let Some(p) = kept {
                proof {
                    lemma_row_views_insert(before, k, p);
                }
                next.insert(row_id.clone(), p);
            }
            assert forall|x: Seq<char>| #[trigger]
                row_views(next@).dom().contains(x) <==> order.take(i + 1).contains(x)
                    && rows_after(m, subs, now_ms).dom().contains(x) by {
                if x != k {
                    assert(row_views(before).dom().contains(x) <==> order.take(
                        i as int,
                    ).contains(x) && rows_after(m, subs, now_ms).dom().contains(x));
                }
            }
            i = i + 1;
        }
        proof {
            assert(order.take(n as int) =~= order);
            assert forall|k: Seq<char>| m.dom().contains(k) implies #[trigger] order.contains(
                k,
            ) by {
                assert(order.to_set().contains(k));
            }
            assert(row_views(next@) =~= rows_after(m, subs, now_ms));
        }
        self.rows = next;
        a
    }
}

/// Why a second delivery was not admitted: its generation is over, or it failed.
pub open spec fn is_fenced(error: Seq<char>) -> bool {
    occurs_in(error, "fenced"@)
}

/// The record of a second delivery: `error` is what its admission failed with.
pub fn redelivery_event(agent: &str, error: Option<&str>) -> (e: LogEvent)
    ensures
        match error {
            None => e.says(
                "inject_redelivered"@,
                agent@,
                "actionable inject unconfirmed (no UserPromptSubmit) — re-delivered once"@,
            ),
            Some(text) => if is_fenced(text@) {
                e.says(
                    "inject_redelivery_suppressed"@,
                    agent@,
                    "redelivery admission fenced by a newer transport generation"@,
                )
            } else {
                e.says(
                    "inject_redelivery_failed"@,
                    agent@,
                    "redelivery admission failed before adapter delivery"@,
                )
            },
        },
{
    match error {
        None => event(
            "inject_redelivered",
            agent,
            "actionable inject unconfirmed (no UserPromptSubmit) — re-delivered once",
        ),
        Some(text) => if contains(text, "fenced") {
            event(
                "inject_redelivery_suppressed",
                agent,
                "redelivery admission fenced by a newer transport generation",
            )
        } else {
            event(
                "inject_redelivery_failed",
                agent,
                "redelivery admission failed before adapter delivery",
            )
        },
    }
}

/// The record of a wake that was given up.
pub fn undelivered_event(g: &GivenUp) -> (e: LogEvent)
    ensures
        e.says(
            "inject_undelivered"@,
            g.agent@,
            "re-delivered inject still unconfirmed — gave up row_id="@ + g.row_id@
                + " (no retry storm)"@,
        ),
{
    let mut detail: String = String::from_str(
        "re-delivered inject still unconfirmed — gave up row_id=",
    );
    detail.append(g.row_id.as_str());
    detail.append(" (no retry storm)");
    event("inject_undelivered", g.agent.as_str(), detail.as_str())
}

// ---------------------------------------------------------------------------
// Laws
// ---------------------------------------------------------------------------

/// How often a row is delivered again in a run of passes, each given by the
/// agent's last submission and the time.
pub open spec fn redelivery_count(row: Option<PendingView>, passes: Seq<(Option<u64>, u64)>) -> nat
    decreases passes.len(),
{
    if row is None || passes.len() == 0 {
        0
    } else {
        let step = row_step(row->0, passes[0].0, passes[0].1);
        let rest = redelivery_count(row_after(row->0, step, passes[0].1), passes.drop_first());
        if step == RowStep::Redeliver {
            rest + 1
        } else {
            rest
        }
    }
}

/// Whatever the backend reports and however the clock runs, an armed wake is
/// delivered again at most once, and never after it has been delivered again.
pub proof fn law_at_most_one_redelivery(row: PendingView, passes: Seq<(Option<u64>, u64)>)
    ensures
        redelivery_count(Some(row), passes) <= 1,
        row.redelivered ==> redelivery_count(Some(row), passes) == 0,
    decreases passes.len(),
{
    reveal_with_fuel(redelivery_count, 2);
    if passes.len() > 0 {
        let step = row_step(row, passes[0].0, passes[0].1);
        let next = row_after(row, step, passes[0].1);
        if next is Some {
            law_at_most_one_redelivery(next->0, passes.drop_first());
        }
    }
}

/// A wake that nobody confirms is delivered again when its first window closes
/// and given up when its second one does.
pub proof fn law_unconfirmed_is_given_up(
    row: PendingView,
    first: u64,
    second: u64,
    submitted_at: Option<u64>,
)
    requires
        !row.redelivered,
        submitted_at is Some ==> submitted_at->0 <= row.injected_at_ms,
        first - row.injected_at_ms >= VERIFY_WINDOW_MS,
        second - first >= VERIFY_WINDOW_MS,
    ensures
        row_step(row, submitted_at, first) == RowStep::Redeliver,
        ({
            let again = row_after(row, RowStep::Redeliver, first)->0;
            row_step(again, submitted_at, second) == (if row.transport_mode
                == TransportMode::LegacyPty {
                RowStep::GiveUp
            } else {
                RowStep::Latch
            })
        }),
{
}

/// A submission after the wake confirms it, whatever state the row is in; one
/// from before never does.
pub proof fn law_only_a_later_submission_confirms(row: PendingView, at: u64, now: u64)
    ensures
        row_step(row, Some(at), now) == RowStep::Delivered <==> at > row.injected_at_ms,
        row_step(row, None, now) != RowStep::Delivered,
{
}

/// What a pass leaves of one row does not depend on the other rows.
pub proof fn law_rows_are_independent(
    m: Rows,
    other: Rows,
    k: Seq<char>,
    subs: Map<Seq<char>, u64>,
    now: u64,
)
    requires
        m.dom().contains(k),
        other.dom().contains(k),
        m[k] == other[k],
    ensures
        rows_after(m, subs, now).dom().contains(k) == rows_after(other, subs, now).dom().contains(k),
        rows_after(m, subs, now).dom().contains(k) ==> rows_after(m, subs, now)[k] == rows_after(
            other,
            subs,
            now,
        )[k],
{
}

/// A row can be reserved once: while the reservation stands, a second one is
/// refused.
pub proof fn law_reservation_is_single(p: PendingView, agent: Seq<char>, again: Seq<char>, now: u64)
    requires
        reservable(p, agent),
    ensures
        !reservable(reserved_row(p, now), again),
{
}

/// Taking a reservation back leaves the row as open to a later reclaim as it was,
/// with its budget untouched.
pub proof fn law_rollback_restores_the_budget(p: PendingView, agent: Seq<char>, now: u64)
    requires
        reservable(p, agent),
    ensures
        reservable(restored_row(reserved_row(p, now), false), agent),
        restored_row(reserved_row(p, now), false).rearm_count == p.rearm_count,
{
}

/// Committing a reserved re-arm uses one of the budget and never more than there
/// is; once the budget is used up the row can never be reserved again.
pub proof fn law_commit_spends_the_budget(
    p: PendingView,
    later: PendingView,
    agent: Seq<char>,
    now: u64,
)
    requires
        reservable(p, agent),
        later.rearm_count >= MAX_STRUCTURED_REARMS,
    ensures
        committed_row(reserved_row(p, now)).rearm_count == p.rearm_count + 1,
        committed_row(reserved_row(p, now)).rearm_count <= MAX_STRUCTURED_REARMS,
        !reservable(later, agent),
        !flushable(later, agent),
{
}

/// A deferred re-arm waits for the flusher: no reclaim can take it, the flusher
/// can, and taking the flusher's reservation back lets it be flushed again.
pub proof fn law_deferral_waits_for_the_flusher(p: PendingView, agent: Seq<char>, now: u64)
    requires
        reservable(p, agent),
    ensures
        ({
            let waiting = deferred_row(reserved_row(p, now));
            let taken = PendingView { gave_up: false, rearm_reserved: true, ..waiting };
            &&& !reservable(waiting, agent)
            &&& flushable(waiting, agent)
            &&& !flushable(taken, agent)
            &&& flushable(restored_row(taken, true), agent)
            &&& waiting.rearm_count == p.rearm_count
        }),
{
}

/// A reservation of one generation holds no row of another.
pub proof fn law_reservations_end_with_their_generation(m: Rows, r: RearmReservation)
    requires
        m.dom().contains(r.row_id@),
        m[r.row_id@].transport_epoch != r.transport_epoch,
    ensures
        !holds(m, r),
{
}

proof fn lemma_find_in_filtered(s: Seq<LatchView>, row_id: Seq<char>, other: Seq<char>)
    ensures
        find_latch(of_other_rows(s, row_id), row_id) is None,
        other != row_id ==> find_latch(of_other_rows(s, row_id), other) == find_latch(s, other),
    decreases s.len(),
{
    reveal_with_fuel(Seq::filter, 2);
    let pred = |l: LatchView| l.row_id != row_id;
    if s.len() == 0 {
        assert(of_other_rows(s, row_id) =~= Seq::<LatchView>::empty());
    } else {
        let rest = s.drop_first();
        lemma_find_in_filtered(rest, row_id, other);
        assert(s =~= seq![s[0]] + rest);
        Seq::filter_distributes_over_add(seq![s[0]], rest, pred);
        assert(seq![s[0]].drop_last() =~= Seq::<LatchView>::empty());
        let head = seq![s[0]].filter(pred);
        if pred(s[0]) {
            assert(head =~= seq![s[0]]);
            assert(of_other_rows(s, row_id)[0] == s[0]);
            assert(of_other_rows(s, row_id).drop_first() =~= of_other_rows(rest, row_id));
        } else {
            assert(head =~= Seq::<LatchView>::empty());
            assert(of_other_rows(s, row_id) =~= of_other_rows(rest, row_id));
        }
    }
}

proof fn lemma_find_push(s: Seq<LatchView>, l: LatchView, row_id: Seq<char>)
    ensures
        find_latch(s.push(l), row_id) == (match find_latch(s, row_id) {
            Some(found) => Some(found),
            None => if l.row_id == row_id {
                Some(l)
            } else {
                None
            },
        }),
    decreases s.len(),
{
    if s.len() > 0 {
        lemma_find_push(s.drop_first(), l, row_id);
        assert(s.push(l).drop_first() =~= s.drop_first().push(l));
    } else {
        assert(s.push(l).drop_first() =~= Seq::<LatchView>::empty());
        reveal_with_fuel(find_latch, 2);
    }
}

/// Reading the file back finds the latch that was written for a row, and for
/// every other row what was there before.
pub proof fn law_latch_read_back(
    s: Seq<LatchView>,
    row_id: Seq<char>,
    p: PendingView,
    other: Seq<char>,
)
    ensures
        find_latch(with_row(s, row_id, p), row_id) == (if p.gave_up || p.rearm_count > 0 {
            Some(latch_of(row_id, p))
        } else {
            None
        }),
        other != row_id ==> find_latch(with_row(s, row_id, p), other) == find_latch(s, other),
{
    lemma_find_in_filtered(s, row_id, other);
    if p.gave_up || p.rearm_count > 0 {
        lemma_find_push(of_other_rows(s, row_id), latch_of(row_id, p), row_id);
        lemma_find_push(of_other_rows(s, row_id), latch_of(row_id, p), other);
    }
}

/// A generation never sees a latch of another one.
pub proof fn law_generations_are_separate(s: Seq<LatchView>, epoch: u64)
    ensures
        forall|i: int|
            0 <= i < of_epoch(s, epoch).len() ==> (#[trigger] of_epoch(s, epoch)[i]).transport_epoch
                == epoch,
{
    broadcast use vstd::seq_lib::group_filter_ensures;

    let pred = |l: LatchView| l.transport_epoch == epoch;
    assert forall|i: int| 0 <= i < of_epoch(s, epoch).len() implies (#[trigger] of_epoch(
        s,
        epoch,
    )[i]).transport_epoch == epoch by {
        s.lemma_filter_pred(pred, i);
    }
}

/// A given-up wake that is revived from its latch keeps its text, its route, its
/// budget and the channel that it came from.
pub proof fn law_latch_keeps_the_wake(
    row_id: Seq<char>,
    p: PendingView,
    agent: Seq<char>,
    epoch: u64,
    now: u64,
    deferred: bool,
)
    ensures
        ({
            let back = revived_row(latch_of(row_id, p), agent, epoch, now, deferred);
            &&& back.text == p.text
            &&& back.channel_origin == p.channel_origin
            &&& back.transport_mode == p.transport_mode
            &&& back.rearm_count == p.rearm_count
        }),
{
}

// ---------------------------------------------------------------------------
// What a pass hands out
// ---------------------------------------------------------------------------

/// A pass delivers again exactly the wakes that nobody has confirmed, whose window
/// has closed and that were not delivered again before: each of them once, in the
/// order of the rows, to its agent, with its text, in the generation that it was
/// admitted in and as coming from its channel. The law gives the places of their rows.
pub proof fn law_each_unconfirmed_wake_is_delivered_again(
    a: VerifyActions,
    order: Seq<Seq<char>>,
    m: Rows,
    subs: Map<Seq<char>, u64>,
    now: u64,
) -> (at: Seq<int>)
    requires
        actions_are(a, order, m, subs, now),
    ensures
        at.len() == a.redeliver@.len(),
        forall|i: int, j: int| 0 <= i < j < at.len() ==> #[trigger] at[i] < #[trigger] at[j],
        forall|i: int|
            0 <= i < at.len() ==> ({
                &&& 0 <= #[trigger] at[i] < order.len()
                &&& a.redeliver@[i].agent@ == m[order[at[i]]].agent
                &&& a.redeliver@[i].text@ == m[order[at[i]]].text
                &&& a.redeliver@[i].transport_epoch == m[order[at[i]]].transport_epoch
                &&& a.redeliver@[i].channel_origin == m[order[at[i]]].channel_origin
            }),
        forall|k: int|
            0 <= k < order.len() ==> (at.contains(k) <==> {
                &&& !m[#[trigger] order[k]].redelivered
                &&& now - m[order[k]].injected_at_ms >= 30_000
                &&& subs.dom().contains(m[order[k]].agent) ==> subs[m[order[k]].agent]
                    <= m[order[k]].injected_at_ms
            }),
{
    let at = lemma_filter_positions(
        order,
        |k: Seq<char>| step_of(m, k, subs, now) == RowStep::Redeliver,
    );
    assert forall|i: int| 0 <= i < at.len() implies a.redeliver@[i].agent@ == m[order[#[trigger] at[i]]].agent
        && a.redeliver@[i].text@ == m[order[at[i]]].text && a.redeliver@[i].transport_epoch
        == m[order[at[i]]].transport_epoch && a.redeliver@[i].channel_origin
        == m[order[at[i]]].channel_origin by {
        assert(a.redeliver@[i].is_of(m[order[at[i]]]));
    }
    at
}

/// A wake that was armed in one generation and stays unconfirmed for its first window
/// is delivered again as it was armed: to the same agent, with the same text, in the
/// same generation and as coming from the same channel. The law gives its place among
/// the second deliveries.
pub proof fn law_second_delivery_is_the_armed_wake(
    before: Rows,
    prepared: PreparedArm,
    epoch: u64,
    armed_at: u64,
    order: Seq<Seq<char>>,
    subs: Map<Seq<char>, u64>,
    now: u64,
    a: VerifyActions,
) -> (i: int)
    requires
        order.to_set() == before.insert(
            prepared.row_id@,
            armed_row(before, prepared, epoch, armed_at),
        ).dom(),
        actions_are(
            a,
            order,
            before.insert(prepared.row_id@, armed_row(before, prepared, epoch, armed_at)),
            subs,
            now,
        ),
        now - armed_at >= 30_000,
        subs.dom().contains(prepared.agent@) ==> subs[prepared.agent@] <= armed_at,
    ensures
        0 <= i < a.redeliver@.len(),
        a.redeliver@[i].agent@ == prepared.agent@,
        a.redeliver@[i].text@ == prepared.text@,
        a.redeliver@[i].transport_epoch == epoch,
        a.redeliver@[i].channel_origin == prepared.channel_origin,
{
    let m = before.insert(prepared.row_id@, armed_row(before, prepared, epoch, armed_at));
    assert(order.to_set().contains(prepared.row_id@));
    let k = order.index_of(prepared.row_id@);
    assert(order[k] == prepared.row_id@);
    let at = law_each_unconfirmed_wake_is_delivered_again(a, order, m, subs, now);
    assert(at.contains(k));
    let i = at.index_of(k);
    assert(at[i] == k);
    i
}

/// A pass latches exactly the wakes of the structured routes that stay unconfirmed
/// when their second window closes: each of them once, in the order of the rows, under
/// its row id, as the row stands but given up. The law gives the places of their rows.
pub proof fn law_each_spent_wake_is_latched(
    a: VerifyActions,
    order: Seq<Seq<char>>,
    m: Rows,
    subs: Map<Seq<char>, u64>,
    now: u64,
) -> (at: Seq<int>)
    requires
        actions_are(a, order, m, subs, now),
    ensures
        at.len() == a.persist@.len(),
        forall|i: int, j: int| 0 <= i < j < at.len() ==> #[trigger] at[i] < #[trigger] at[j],
        forall|i: int|
            0 <= i < at.len() ==> ({
                &&& 0 <= #[trigger] at[i] < order.len()
                &&& a.persist@[i].row_id@ == order[at[i]]
                &&& a.persist@[i].row@ == (PendingView { gave_up: true, ..m[order[at[i]]] })
            }),
        forall|k: int|
            0 <= k < order.len() ==> (at.contains(k) <==> {
                &&& m[#[trigger] order[k]].redelivered
                &&& m[order[k]].transport_mode == TransportMode::ChannelBridge
                &&& now - m[order[k]].injected_at_ms >= 30_000
                &&& subs.dom().contains(m[order[k]].agent) ==> subs[m[order[k]].agent]
                    <= m[order[k]].injected_at_ms
            }),
{
    let at = lemma_filter_positions(
        order,
        |k: Seq<char>| step_of(m, k, subs, now) == RowStep::Latch,
    );
    assert forall|i: int| 0 <= i < at.len() implies a.persist@[i].row_id@ == order[#[trigger] at[i]]
        && a.persist@[i].row@ == (PendingView { gave_up: true, ..m[order[at[i]]] }) by {
        let w = a.persist@[i];
    }
    at
}

/// A pass gives up, and reports, exactly the wakes of the route without latches that
/// stay unconfirmed when their second window closes: each of them once, in the order
/// of the rows, by its agent and its row id. The law gives the places of their rows.
pub proof fn law_each_spent_wake_without_a_latch_is_reported(
    a: VerifyActions,
    order: Seq<Seq<char>>,
    m: Rows,
    subs: Map<Seq<char>, u64>,
    now: u64,
) -> (at: Seq<int>)
    requires
        actions_are(a, order, m, subs, now),
    ensures
        at.len() == a.gave_up@.len(),
        forall|i: int, j: int| 0 <= i < j < at.len() ==> #[trigger] at[i] < #[trigger] at[j],
        forall|i: int|
            0 <= i < at.len() ==> ({
                &&& 0 <= #[trigger] at[i] < order.len()
                &&& a.gave_up@[i].row_id@ == order[at[i]]
                &&& a.gave_up@[i].agent@ == m[order[at[i]]].agent
            }),
        forall|k: int|
            0 <= k < order.len() ==> (at.contains(k) <==> {
                &&& m[#[trigger] order[k]].redelivered
                &&& m[order[k]].transport_mode == TransportMode::LegacyPty
                &&& now - m[order[k]].injected_at_ms >= 30_000
                &&& subs.dom().contains(m[order[k]].agent) ==> subs[m[order[k]].agent]
                    <= m[order[k]].injected_at_ms
            }),
{
    let at = lemma_filter_positions(
        order,
        |k: Seq<char>| step_of(m, k, subs, now) == RowStep::GiveUp,
    );
    assert forall|i: int| 0 <= i < at.len() implies a.gave_up@[i].row_id@ == order[#[trigger] at[i]]
        && a.gave_up@[i].agent@ == m[order[at[i]]].agent by {
        let g = a.gave_up@[i];
    }
    at
}

/// After a pass a confirmed wake is gone, one whose window is open is as it was, one
/// that was delivered again waits anew, and one that is spent is gone or latched; its
/// agent, text, route, generation, origin and budget are as they were. No row is new.
pub proof fn law_what_a_pass_leaves(m: Rows, subs: Map<Seq<char>, u64>, now: u64, k: Seq<char>)
    ensures
        ({
            let after = rows_after(m, subs, now);
            let confirmed = subs.dom().contains(m[k].agent) && subs[m[k].agent]
                > m[k].injected_at_ms;
            let closed = now - m[k].injected_at_ms >= 30_000;
            let spent = !confirmed && closed && m[k].redelivered;
            &&& after.dom().contains(k) <==> m.dom().contains(k) && !confirmed && !(spent
                && m[k].transport_mode == TransportMode::LegacyPty)
            &&& after.dom().contains(k) ==> {
                &&& after[k].agent == m[k].agent
                &&& after[k].text == m[k].text
                &&& after[k].channel_origin == m[k].channel_origin
                &&& after[k].transport_epoch == m[k].transport_epoch
                &&& after[k].transport_mode == m[k].transport_mode
                &&& after[k].rearm_count == m[k].rearm_count
                &&& after[k].rearm_reserved == m[k].rearm_reserved
                &&& after[k].rearm_pending == m[k].rearm_pending
                &&& after[k].redelivered == (m[k].redelivered || closed)
                &&& after[k].gave_up == (m[k].gave_up || spent)
                &&& after[k].injected_at_ms == (if closed && !m[k].redelivered {
                    now
                } else {
                    m[k].injected_at_ms
                })
            }
        }),
{
}

// ---------------------------------------------------------------------------
// What the rows and the latches keep
// ---------------------------------------------------------------------------

/// A wake without a message id has a row of its agent's own; two wakes with the same
/// message id share a row.
pub proof fn law_rows_go_by_the_message(
    agent: Seq<char>,
    other: Seq<char>,
    text: Seq<char>,
    more: Seq<char>,
)
    ensures
        header_msg_id(text) is Some ==> row_id_of(agent, text) == header_msg_id(text)->0,
        header_msg_id(text) is None ==> row_id_of(agent, text) == "agent:"@ + agent,
        header_msg_id(text) is Some && header_msg_id(text) == header_msg_id(more) ==> row_id_of(
            agent,
            text,
        ) == row_id_of(other, more),
        header_msg_id(text) is None && header_msg_id(more) is None ==> (row_id_of(agent, text)
            == row_id_of(other, more) <==> agent == other),
{
    if "agent:"@ + agent == "agent:"@ + other {
        let n = "agent:"@.len() as int;
        assert(("agent:"@ + agent).skip(n) =~= agent);
        assert(("agent:"@ + other).skip(n) =~= other);
    }
}

/// An armed wake is the one that was prepared, in the generation that it is armed in;
/// its window begins now, and it was neither delivered again nor given up. The budget
/// is that of the row of the same generation, or else the durable one.
pub proof fn law_arming_starts_a_wake(m: Rows, a: PreparedArm, epoch: u64, now: u64)
    ensures
        ({
            let row = armed_row(m, a, epoch, now);
            let there = m.dom().contains(a.row_id@) && m[a.row_id@].transport_epoch == epoch;
            &&& row.agent == a.agent@
            &&& row.text == a.text@
            &&& row.channel_origin == a.channel_origin
            &&& row.transport_mode == a.transport_mode
            &&& row.transport_epoch == epoch
            &&& row.injected_at_ms == now
            &&& !row.redelivered
            &&& !row.gave_up
            &&& there ==> row.rearm_count == m[a.row_id@].rearm_count
            &&& there ==> row.rearm_reserved == m[a.row_id@].rearm_reserved
            &&& there ==> row.rearm_pending == m[a.row_id@].rearm_pending
            &&& !there ==> row.rearm_count == a.durable_rearm_count
            &&& !there ==> row.rearm_pending == a.rearm_pending
            &&& !there ==> !row.rearm_reserved
            &&& arm_refused(m, a, epoch) <==> there && m[a.row_id@].gave_up && m[a.row_id@].agent
                == a.agent@
        }),
{
}

/// A wake that a pass has latched is not armed again in the same generation, and can
/// be armed in another.
pub proof fn law_a_latched_wake_stays_given_up(
    m: Rows,
    subs: Map<Seq<char>, u64>,
    now: u64,
    a: PreparedArm,
    epoch: u64,
)
    requires
        m.dom().contains(a.row_id@),
        m[a.row_id@].agent == a.agent@,
        m[a.row_id@].redelivered,
        m[a.row_id@].transport_mode == TransportMode::ChannelBridge,
        now - m[a.row_id@].injected_at_ms >= 30_000,
        subs.dom().contains(a.agent@) ==> subs[a.agent@] <= m[a.row_id@].injected_at_ms,
    ensures
        arm_refused(rows_after(m, subs, now), a, epoch) <==> m[a.row_id@].transport_epoch == epoch,
{
}

/// A row may be reserved by a reclaim of its agent while it is given up on a
/// structured route, nothing waits for it and its one re-arm is unused. A reserved row
/// waits anew and is otherwise what it was.
pub proof fn law_what_a_reclaim_reserves(p: PendingView, agent: Seq<char>, now: u64)
    ensures
        reservable(p, agent) <==> {
            &&& p.agent == agent
            &&& p.gave_up
            &&& !p.rearm_pending
            &&& !p.rearm_reserved
            &&& p.transport_mode == TransportMode::ChannelBridge
            &&& p.rearm_count == 0
        },
        ({
            let row = reserved_row(p, now);
            &&& row.rearm_reserved && !row.gave_up && !row.redelivered
            &&& row.injected_at_ms == now
            &&& row.agent == p.agent
            &&& row.text == p.text
            &&& row.channel_origin == p.channel_origin
            &&& row.transport_epoch == p.transport_epoch
            &&& row.transport_mode == p.transport_mode
            &&& row.rearm_count == p.rearm_count
            &&& row.rearm_pending == p.rearm_pending
        }),
{
}

/// A latch may be reserved under the same conditions as the row that it was written
/// for, and gives that row back, in the present generation and reserved.
pub proof fn law_a_latch_stands_for_its_row(
    row_id: Seq<char>,
    p: PendingView,
    agent: Seq<char>,
    epoch: u64,
    now: u64,
    deferred: bool,
)
    requires
        !p.rearm_reserved,
    ensures
        latch_reservable(latch_of(row_id, p), agent) == reservable(p, agent),
        ({
            let row = revived_row(latch_of(row_id, p), agent, epoch, now, deferred);
            &&& row.rearm_reserved && !row.gave_up && !row.redelivered
            &&& row.injected_at_ms == now
            &&& row.agent == agent
            &&& row.text == p.text
            &&& row.channel_origin == p.channel_origin
            &&& row.transport_epoch == epoch
            &&& row.transport_mode == p.transport_mode
            &&& row.rearm_count == p.rearm_count
            &&& row.rearm_pending == deferred
        }),
{
}

/// The flusher may take a row up for its agent while its re-arm is deferred, nobody
/// holds it and its one re-arm is unused.
pub proof fn law_what_the_flusher_takes(p: PendingView, agent: Seq<char>)
    ensures
        flushable(p, agent) <==> p.agent == agent && p.rearm_pending && !p.rearm_reserved
            && p.rearm_count == 0,
{
}

/// A reservation holds the row that it names exactly while that row is reserved for
/// its agent in its generation.
pub proof fn law_what_a_reservation_holds(m: Rows, r: RearmReservation)
    ensures
        holds(m, r) <==> {
            &&& m.dom().contains(r.row_id@)
            &&& m[r.row_id@].rearm_reserved
            &&& m[r.row_id@].agent == r.agent@
            &&& m[r.row_id@].transport_epoch == r.transport_epoch
        },
{
}

/// Deferring, committing and taking back each end a reservation and change nothing of
/// the wake. Only a commit uses the budget and leaves the wake armed; the other two
/// leave it given up, waiting in the queue or not.
pub proof fn law_how_a_reservation_ends(p: PendingView, deferred: bool)
    ensures
        ({
            let d = deferred_row(p);
            let c = committed_row(p);
            let r = restored_row(p, deferred);
            &&& !d.rearm_reserved && !c.rearm_reserved && !r.rearm_reserved
            &&& d.gave_up && r.gave_up && !c.gave_up
            &&& d.rearm_pending && r.rearm_pending == deferred && !c.rearm_pending
            &&& d.rearm_count == p.rearm_count && r.rearm_count == p.rearm_count
            &&& c.rearm_count == (if p.rearm_count < u8::MAX {
                p.rearm_count + 1
            } else {
                p.rearm_count as int
            })
            &&& d.agent == p.agent && c.agent == p.agent && r.agent == p.agent
            &&& d.text == p.text && c.text == p.text && r.text == p.text
            &&& d.channel_origin == p.channel_origin && c.channel_origin == p.channel_origin
                && r.channel_origin == p.channel_origin
            &&& d.transport_epoch == p.transport_epoch && c.transport_epoch == p.transport_epoch
                && r.transport_epoch == p.transport_epoch
            &&& d.transport_mode == p.transport_mode && c.transport_mode == p.transport_mode
                && r.transport_mode == p.transport_mode
            &&& d.injected_at_ms == p.injected_at_ms && c.injected_at_ms == p.injected_at_ms
                && r.injected_at_ms == p.injected_at_ms
            &&& d.redelivered == p.redelivered && c.redelivered == p.redelivered && r.redelivered
                == p.redelivered
        }),
{
}

/// A wake waits in the deferred queue exactly if its latch says so and its row in
/// memory is reserved for the queue.
pub proof fn law_what_is_deferred(m: Rows, latch: Option<LatchView>, row_id: Seq<char>)
    ensures
        rearm_is_deferred(m, latch, row_id) <==> {
            &&& latch is Some
            &&& latch->0.rearm_pending
            &&& m.dom().contains(row_id)
            &&& m[row_id].rearm_reserved
            &&& m[row_id].rearm_pending
        },
{
}

/// The first latch of a row is the one that counts, and a row without one has none;
/// of the deferred latches, the first of the row and the agent.
pub proof fn law_the_first_latch_counts(
    s: Seq<LatchView>,
    row_id: Seq<char>,
    agent: Seq<char>,
    i: int,
)
    requires
        0 <= i <= s.len(),
    ensures
        (forall|j: int| 0 <= j < i ==> (#[trigger] s[j]).row_id != row_id) ==> {
            &&& i < s.len() && s[i].row_id == row_id ==> find_latch(s, row_id) == Some(s[i])
            &&& i == s.len() ==> find_latch(s, row_id) is None
        },
        (forall|j: int|
            0 <= j < i ==> !((#[trigger] s[j]).row_id == row_id && s[j].agent == agent
                && s[j].rearm_pending)) ==> {
            &&& i < s.len() && s[i].row_id == row_id && s[i].agent == agent && s[i].rearm_pending
                ==> find_deferred(s, row_id, agent) == Some(s[i])
            &&& i == s.len() ==> find_deferred(s, row_id, agent) is None
        },
    decreases s.len(),
{
    if s.len() > 0 && i > 0 {
        let rest = s.drop_first();
        law_the_first_latch_counts(rest, row_id, agent, i - 1);
        assert(i < s.len() ==> rest[i - 1] == s[i]);
        if forall|j: int| 0 <= j < i ==> (#[trigger] s[j]).row_id != row_id {
            assert forall|j: int| 0 <= j < i - 1 implies (#[trigger] rest[j]).row_id != row_id by {
                assert(rest[j] == s[j + 1]);
            }
        }
        if forall|j: int|
            0 <= j < i ==> !((#[trigger] s[j]).row_id == row_id && s[j].agent == agent
                && s[j].rearm_pending) {
            assert forall|j: int| 0 <= j < i - 1 implies !((#[trigger] rest[j]).row_id == row_id
                && rest[j].agent == agent && rest[j].rearm_pending) by {
                assert(rest[j] == s[j + 1]);
            }
        }
    }
}

/// A generation sees all of its latches, in order, and no other. The law gives their
/// places in the file.
pub proof fn law_a_generation_sees_its_latches(s: Seq<LatchView>, epoch: u64) -> (at: Seq<int>)
    ensures
        at.len() == of_epoch(s, epoch).len(),
        forall|i: int, j: int| 0 <= i < j < at.len() ==> #[trigger] at[i] < #[trigger] at[j],
        forall|i: int|
            0 <= i < at.len() ==> 0 <= #[trigger] at[i] < s.len() && of_epoch(s, epoch)[i]
                == s[at[i]],
        forall|k: int|
            0 <= k < s.len() ==> (at.contains(k) <==> (#[trigger] s[k]).transport_epoch == epoch),
{
    lemma_filter_positions(s, |l: LatchView| l.transport_epoch == epoch)
}

/// Writing a row keeps the latches of all other rows, in order, and puts that of the
/// row, if it is to have one, behind them: it says of the wake what the row says. The
/// law gives the places of those that stay.
pub proof fn law_writing_a_row_keeps_the_others(
    s: Seq<LatchView>,
    row_id: Seq<char>,
    p: PendingView,
) -> (at: Seq<int>)
    ensures
        ({
            let after = with_row(s, row_id, p);
            let latched = p.gave_up || p.rearm_count > 0;
            &&& after.len() == at.len() + (if latched {
                1int
            } else {
                0
            })
            &&& latched ==> {
                let l = after.last();
                &&& l.row_id == row_id
                &&& l.agent == p.agent
                &&& l.text == p.text
                &&& l.channel_origin == p.channel_origin
                &&& l.transport_mode == p.transport_mode
                &&& l.transport_epoch == p.transport_epoch
                &&& l.rearm_pending == p.rearm_pending
                &&& l.gave_up == p.gave_up
                &&& l.rearm_count == p.rearm_count
            }
        }),
        forall|i: int, j: int| 0 <= i < j < at.len() ==> #[trigger] at[i] < #[trigger] at[j],
        forall|i: int|
            0 <= i < at.len() ==> 0 <= #[trigger] at[i] < s.len() && with_row(s, row_id, p)[i]
                == s[at[i]],
        forall|k: int|
            0 <= k < s.len() ==> (at.contains(k) <==> (#[trigger] s[k]).row_id != row_id),
{
    lemma_filter_positions(s, |l: LatchView| l.row_id != row_id)
}

/// A second delivery is fenced by a newer generation exactly if its error says so.
pub proof fn law_a_fenced_delivery_says_so(before: Seq<char>, after: Seq<char>)
    ensures
        is_fenced(before + "fenced"@ + after),
        forall|e: Seq<char>| #[trigger] is_fenced(e) ==> exists|i: int|
            0 <= i <= e.len() - 6 && #[trigger] e.subrange(i, i + 6) == "fenced"@,
{
    reveal_strlit("fenced");
    let whole = before + "fenced"@ + after;
    let n = before.len() as int;
    assert(whole.subrange(n, n + 6) =~= "fenced"@);
    assert(occurs_at(whole, "fenced"@, n));
    assert forall|e: Seq<char>| #[trigger] is_fenced(e) implies exists|i: int|
        0 <= i <= e.len() - 6 && #[trigger] e.subrange(i, i + 6) == "fenced"@ by {
        let i = choose|i: int| occurs_at(e, "fenced"@, i);
        assert(e.subrange(i, i + 6) == "fenced"@);
    }
}

/// What a row and a latch hold is what their fields say.
pub proof fn law_what_rows_and_latches_hold(p: Pending, l: DurableLatch)
    ensures
        p@.agent == p.agent@,
        p@.injected_at_ms == p.injected_at_ms,
        p@.text == p.text@,
        p@.channel_origin == p.channel_origin,
        p@.redelivered == p.redelivered,
        p@.transport_epoch == p.transport_epoch,
        p@.transport_mode == p.transport_mode,
        p@.gave_up == p.gave_up,
        p@.rearm_count == p.rearm_count,
        p@.rearm_reserved == p.rearm_reserved,
        p@.rearm_pending == p.rearm_pending,
        l@.agent == l.agent@,
        l@.row_id == l.row_id@,
        l@.text == l.text@,
        l@.channel_origin == l.channel_origin,
        l@.transport_mode == l.transport_mode,
        l@.transport_epoch == l.transport_epoch,
        l@.rearm_pending == l.rearm_pending,
        l@.gave_up == l.gave_up,
        l@.rearm_count == l.rearm_count,
{
}

/// A reservation is for exactly one agent, row and generation, and says whether it came out
/// of the queue; a plan is for the reservation that it was made for.
pub proof fn law_what_a_reservation_is_for(
    r: RearmReservation,
    agent: Seq<char>,
    row_id: Seq<char>,
    epoch: u64,
    deferred: bool,
)
    ensures
        r.is_for(agent, row_id, epoch, deferred) <==> r.agent@ == agent && r.row_id@ == row_id
            && r.transport_epoch == epoch && r.deferred == deferred,
{
}

/// A row that is reserved has its one re-arm left.
pub proof fn law_a_reserved_row_has_budget(m: Rows, k: Seq<char>)
    requires
        budget_kept(m),
        m.dom().contains(k),
        m[k].rearm_reserved,
    ensures
        m[k].rearm_count == 0,
{
}

/// A latch may be reserved by a reclaim of its agent while it is given up on a structured
/// route, nothing waits for it and its one re-arm is unused. The row that it gives back is
/// the wake that it keeps, armed anew in the present generation and reserved.
pub proof fn law_what_a_latch_gives_back(
    l: LatchView,
    agent: Seq<char>,
    epoch: u64,
    now: u64,
    deferred: bool,
)
    ensures
        latch_reservable(l, agent) <==> l.agent == agent && l.gave_up && !l.rearm_pending
            && l.transport_mode == TransportMode::ChannelBridge && l.rearm_count == 0,
        ({
            let row = revived_row(l, agent, epoch, now, deferred);
            &&& row.agent == agent
            &&& row.text == l.text
            &&& row.channel_origin == l.channel_origin
            &&& row.transport_mode == l.transport_mode
            &&& row.transport_epoch == epoch
            &&& row.rearm_count == l.rearm_count
            &&& row.rearm_pending == deferred
            &&& row.injected_at_ms == now
            &&& row.rearm_reserved && !row.gave_up && !row.redelivered
        }),
{
}

} // verus!
