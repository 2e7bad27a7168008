//! Reconciles the review assignments with the pull requests and the tasks that
//! they are about: a row that is not stored yet is stored, an assignment whose
//! subject is gone is retired, and an assignee who has done nothing is woken.
use crate::cadence::{fresh_gate, ticked, CadenceGate, GateState};
use crate::positions::lemma_pushed;
use crate::text::{chars_of, same};
use vstd::prelude::*;

verus! {

// ---------------------------------------------------------------------------
// The branches to look at
// ---------------------------------------------------------------------------

/// A branch of a repository.
pub struct BranchId {
    pub repo: String,
    pub branch: String,
}

impl View for BranchId {
    type V = (Seq<char>, Seq<char>);

    open spec fn view(&self) -> (Seq<char>, Seq<char>) {
        (self.repo@, self.branch@)
    }
}

/// The branches of a list.
pub open spec fn branch_views(v: Seq<BranchId>) -> Seq<(Seq<char>, Seq<char>)> {
    v.map_values(|b: BranchId| b@)
}

/// `a` stands before `b` in the order of the texts.
pub open spec fn text_before(a: Seq<char>, b: Seq<char>) -> bool
    decreases a.len(),
{
    if b.len() == 0 {
        false
    } else if a.len() == 0 {
        true
    } else if a[0] == b[0] {
        text_before(a.skip(1), b.skip(1))
    } else {
        a[0] < b[0]
    }
}

/// `a` stands before `b`: by the repository, then by the branch.
pub open spec fn branch_before(a: (Seq<char>, Seq<char>), b: (Seq<char>, Seq<char>)) -> bool {
    if a.0 == b.0 {
        text_before(a.1, b.1)
    } else {
        text_before(a.0, b.0)
    }
}

proof fn lemma_text_order(a: Seq<char>, b: Seq<char>)
    ensures
        !text_before(a, a),
        a != b ==> text_before(a, b) || text_before(b, a),
        !(text_before(a, b) && text_before(b, a)),
    decreases a.len(),
{
    if a.len() > 0 {
        lemma_text_order(a.skip(1), b.skip(1));
        if b.len() > 0 && a[0] == b[0] && a.skip(1) == b.skip(1) {
            assert(a =~= seq![a[0]] + a.skip(1));
            assert(b =~= seq![b[0]] + b.skip(1));
        }
    } else if b.len() == 0 {
        assert(a =~= b);
    }
}

proof fn lemma_text_transitive(a: Seq<char>, b: Seq<char>, c: Seq<char>)
    requires
        text_before(a, b),
        text_before(b, c),
    ensures
        text_before(a, c),
    decreases a.len(),
{
    if a.len() > 0 && a[0] == b[0] && b[0] == c[0] {
        lemma_text_transitive(a.skip(1), b.skip(1), c.skip(1));
    }
}

proof fn lemma_branch_order(a: (Seq<char>, Seq<char>), b: (Seq<char>, Seq<char>))
    ensures
        !branch_before(a, a),
        a != b ==> branch_before(a, b) || branch_before(b, a),
        !(branch_before(a, b) && branch_before(b, a)),
{
    lemma_text_order(a.0, b.0);
    lemma_text_order(a.1, b.1);
}

proof fn lemma_branch_transitive(
    a: (Seq<char>, Seq<char>),
    b: (Seq<char>, Seq<char>),
    c: (Seq<char>, Seq<char>),
)
    requires
        branch_before(a, b),
        branch_before(b, c),
    ensures
        branch_before(a, c),
{
    lemma_text_order(a.0, b.0);
    if a.0 == b.0 {
        if b.0 == c.0 {
            lemma_text_transitive(a.1, b.1, c.1);
        }
    } else if b.0 != c.0 {
        lemma_text_transitive(a.0, b.0, c.0);
        lemma_text_order(a.0, c.0);
    }
}

fn is_text_before(a: &str, b: &str) -> (r: bool)
    ensures
        r == text_before(a@, b@),
{
    let x = chars_of(a);
    let y = chars_of(b);
    let mut i: usize = 0;
    assert(a@.skip(0) =~= a@);
    assert(b@.skip(0) =~= b@);
    while i < x.len() && i < y.len()
        invariant
            x@ == a@,
            y@ == b@,
            i <= x@.len(),
            i <= y@.len(),
            text_before(a@, b@) == text_before(a@.skip(i as int), b@.skip(i as int)),
        decreases x@.len() - i,
    {
        if x[i] != y[i] {
            return x[i] < y[i];
        }
        assert(a@.skip(i as int).skip(1) =~= a@.skip(i + 1));
        assert(b@.skip(i as int).skip(1) =~= b@.skip(i + 1));
        i = i + 1;
    }
    i < y.len()
}

fn is_branch_before(a: &BranchId, b: &BranchId) -> (r: bool)
    ensures
        r == branch_before(a@, b@),
{
    if same(a.repo.as_str(), b.repo.as_str()) {
        is_text_before(a.branch.as_str(), b.branch.as_str())
    } else {
        is_text_before(a.repo.as_str(), b.repo.as_str())
    }
}

/// Every branch stands before those that follow it.
pub open spec fn ascending(v: Seq<(Seq<char>, Seq<char>)>) -> bool {
    forall|i: int, j: int| 0 <= i < j < v.len() ==> branch_before(#[trigger] v[i], #[trigger] v[j])
}

/// Adds a branch to an ascending list that holds it at most once.
fn add_branch(v: &mut Vec<BranchId>, b: BranchId)
    requires
        ascending(branch_views(old(v)@)),
    ensures
        ascending(branch_views(final(v)@)),
        branch_views(final(v)@).to_set() == branch_views(old(v)@).to_set().insert(b@),
{
    let ghost before = branch_views(v@);
    let ghost new = b@;
    let mut i: usize = 0;
    while i < v.len() && is_branch_before(&v[i], &b)
        invariant
            before == branch_views(v@),
            new == b@,
            i <= v@.len(),
            forall|k: int| 0 <= k < i ==> branch_before(#[trigger] before[k], new),
        decreases v@.len() - i,
    {
        assert(before[i as int] == v@[i as int]@);
        i = i + 1;
    }
    if i < v.len() && same(v[i].repo.as_str(), b.repo.as_str()) && same(
        v[i].branch.as_str(),
        b.branch.as_str(),
    ) {
        assert(before[i as int] == new);
        assert(before.to_set() =~= before.to_set().insert(new));
        return;
    }
    proof {
        if i < v@.len() {
            assert(before[i as int] == v@[i as int]@);
            lemma_branch_order(before[i as int], new);
        }
        assert forall|k: int| i <= k < before.len() implies branch_before(new, #[trigger] before[k]) by {
            if k > i {
                lemma_branch_transitive(new, before[i as int], before[k]);
            }
        }
    }
    v.insert(i, b);
    proof {
        let after = branch_views(v@);
        assert(after =~= before.insert(i as int, new));
        assert(after.to_set() =~= before.to_set().insert(new)) by {
            assert forall|x: (Seq<char>, Seq<char>)| after.contains(x) <==> (before.contains(x) || x
                == new) by {
                if before.contains(x) {
                    let k = before.index_of(x);
                    if k < i {
                        assert(after[k] == x);
                    } else {
                        assert(after[k + 1] == x);
                    }
                }
                if x == new {
                    assert(after[i as int] == x);
                }
                if after.contains(x) {
                    let k = after.index_of(x);
                    if k < i {
                        assert(before[k] == x);
                    } else if k > i {
                        assert(before[k - 1] == x);
                    }
                }
            }
        }
    }
}

/// The branches to look at: those of the assignments and those of the pull
/// requests, each of them once, in ascending order.
pub fn workset(assigned: &Vec<BranchId>, live: &Vec<BranchId>) -> (r: Vec<BranchId>)
    ensures
        ascending(branch_views(r@)),
        branch_views(r@).to_set() == branch_views(assigned@).to_set().union(
            branch_views(live@).to_set(),
        ),
{
    let mut r: Vec<BranchId> = Vec::new();
    assert(branch_views(r@).to_set() =~= branch_views(assigned@).take(0).to_set());
    add_all(&mut r, assigned);
    add_all(&mut r, live);
    assert(branch_views(r@).to_set() =~= branch_views(assigned@).to_set().union(
        branch_views(live@).to_set(),
    ));
    r
}

fn add_all(r: &mut Vec<BranchId>, more: &Vec<BranchId>)
    requires
        ascending(branch_views(old(r)@)),
    ensures
        ascending(branch_views(final(r)@)),
        branch_views(final(r)@).to_set() == branch_views(old(r)@).to_set().union(
            branch_views(more@).to_set(),
        ),
{
    let ghost first = branch_views(r@).to_set();
    let ghost all = branch_views(more@);
    let mut i: usize = 0;
    assert(first =~= first.union(all.take(0).to_set()));
    while i < more.len()
        invariant
            all == branch_views(more@),
            i <= more@.len(),
            ascending(branch_views(r@)),
            branch_views(r@).to_set() == first.union(all.take(i as int).to_set()),
        decreases more@.len() - i,
    {
        let b = BranchId { repo: more[i].repo.clone(), branch: more[i].branch.clone() };
        assert(b@ == all[i as int]);
        add_branch(r, b);
        proof {
            let shorter = all.take(i as int);
            let longer = all.take(i + 1);
            assert(longer =~= shorter.push(all[i as int]));
            assert(longer.to_set() =~= shorter.to_set().insert(all[i as int])) by {
                assert forall|x: (Seq<char>, Seq<char>)| longer.contains(x) <==> (shorter.contains(x) || x
                    == all[i as int]) by {
                    if shorter.contains(x) {
                        let k = shorter.index_of(x);
                        assert(longer[k] == x);
                    }
                    if x == all[i as int] {
                        assert(longer[i as int] == x);
                    }
                    if longer.contains(x) {
                        let k = longer.index_of(x);
                        if k < i {
                            assert(shorter[k] == x);
                        }
                    }
                }
            }
            assert(branch_views(r@).to_set() =~= first.union(longer.to_set()));
        }
        i = i + 1;
    }
    assert(all.take(i as int) =~= all);
}

/// An ascending list holds no branch twice.
pub proof fn law_no_branch_twice(v: Seq<(Seq<char>, Seq<char>)>)
    requires
        ascending(v),
    ensures
        v.no_duplicates(),
{
    assert forall|i: int, j: int| 0 <= i < v.len() && 0 <= j < v.len() && i != j implies v[i] != v[j] by {
        lemma_branch_order(v[i], v[i]);
        if i < j {
            assert(branch_before(v[i], v[j]));
        } else {
            assert(branch_before(v[j], v[i]));
        }
    }
}

// ---------------------------------------------------------------------------
// One assignment
// ---------------------------------------------------------------------------

/// What is read of an active assignment.
pub struct AssignmentRecord {
    pub target: String,
    pub pr_number: u64,
    /// The head that was to be reviewed, where the assignment names one.
    pub reviewed_head: Option<String>,
    /// Its row has not been stored yet.
    pub row_pending: bool,
}

/// The pull request that is live on the branch.
pub struct LiveSubject {
    pub head_sha: String,
    pub pr_number: u64,
}

/// What is known of the task of an assignment.
#[derive(Debug, Clone, Copy, PartialEq, Eq, Structural)]
pub enum TaskStanding {
    /// Done or cancelled.
    Over,
    Underway,
    /// The task could not be found.
    Unknown,
}

/// What the assignee has done.
#[derive(Debug, Clone, Copy, PartialEq, Eq, Structural)]
pub enum AssignmentEvidence {
    Unengaged,
    EngagedUnsatisfied,
    Satisfied,
}

/// What has been learned of an assignment so far.
#[derive(Debug, Clone, Copy, PartialEq, Eq, Structural)]
pub struct Learned {
    pub task: Option<TaskStanding>,
    pub evidence: Option<AssignmentEvidence>,
    /// Whether the repair of the row was due and done.
    pub repaired: Option<bool>,
}

/// What to do next about an assignment.
#[derive(Debug, Clone, Copy, PartialEq, Eq, Structural)]
pub enum NextStep {
    /// Retire it: the branch no longer holds what was to be reviewed.
    RetireContradicted,
    /// Retire it: its task is over.
    RetireTaskOver,
    /// Find out how its task stands.
    ReadTask,
    /// Find out what the assignee has done, by the live pull request where the
    /// assignment is about that one.
    Classify { against_live: bool },
    /// Repair its row, where that is due.
    Repair,
    /// Wake the assignee.
    Wake,
    /// Nothing more.
    Leave,
}

/// The live pull request is another one, or has another head than was to be reviewed.
pub open spec fn contradicts(r: AssignmentRecord, live: Option<LiveSubject>) -> bool {
    match live {
        Some(s) => {
            ||| s.pr_number != r.pr_number
            ||| r.reviewed_head is Some && (r.reviewed_head->0)@ != s.head_sha@
        },
        None => false,
    }
}

/// What to do next about an assignment.
pub open spec fn step_of(r: AssignmentRecord, live: Option<LiveSubject>, l: Learned) -> NextStep {
    if contradicts(r, live) {
        NextStep::RetireContradicted
    } else {
        match l.task {
            None => NextStep::ReadTask,
            Some(TaskStanding::Over) => NextStep::RetireTaskOver,
            Some(_) => match l.evidence {
                None => NextStep::Classify { against_live: live is Some },
                Some(AssignmentEvidence::Unengaged) => match l.repaired {
                    None => NextStep::Repair,
                    Some(true) => NextStep::Wake,
                    Some(false) => NextStep::Leave,
                },
                Some(_) => NextStep::Leave,
            },
        }
    }
}

/// What to do next about an assignment.
pub fn next_step(r: &AssignmentRecord, live: &Option<LiveSubject>, l: &Learned) -> (step: NextStep)
    ensures
        step == step_of(*r, *live, *l),
{
    if let Some(s) = live {
        if s.pr_number != r.pr_number {
            return NextStep::RetireContradicted;
        }
        if let Some(head) = &r.reviewed_head {
            if !same(head.as_str(), s.head_sha.as_str()) {
                return NextStep::RetireContradicted;
            }
        }
    }
    match l.task {
        None => NextStep::ReadTask,
        Some(TaskStanding::Over) => NextStep::RetireTaskOver,
        Some(_) => match l.evidence {
            None => NextStep::Classify { against_live: live.is_some() },
            Some(AssignmentEvidence::Unengaged) => match l.repaired {
                None => NextStep::Repair,
                Some(true) => NextStep::Wake,
                Some(false) => NextStep::Leave,
            },
            Some(_) => NextStep::Leave,
        },
    }
}

/// Whether the row of an assignment has to be stored first: whatever becomes of
/// the assignment, its row is kept.
pub fn needs_row(r: &AssignmentRecord) -> (b: bool)
    ensures
        b == r.row_pending,
{
    r.row_pending
}

/// An assignee is woken only for an assignment that still has its subject, whose
/// task is not over, on which nothing was done, and whose row was just repaired.
pub proof fn law_wake_only_the_idle(r: AssignmentRecord, live: Option<LiveSubject>, l: Learned)
    ensures
        step_of(r, live, l) == NextStep::Wake <==> {
            &&& !contradicts(r, live)
            &&& l.task is Some
            &&& l.task != Some(TaskStanding::Over)
            &&& l.evidence == Some(AssignmentEvidence::Unengaged)
            &&& l.repaired == Some(true)
        },
{
}

/// A branch without a readable pull request proves nothing: no assignment is
/// retired for its subject there.
pub proof fn law_no_pull_request_retires_nothing(r: AssignmentRecord, l: Learned)
    ensures
        step_of(r, None, l) != NextStep::RetireContradicted,
{
}

/// A task that cannot be found retires nothing.
pub proof fn law_unknown_task_retires_nothing(r: AssignmentRecord, live: Option<LiveSubject>, l: Learned)
    requires
        l.task == Some(TaskStanding::Unknown),
        !contradicts(r, live),
    ensures
        step_of(r, live, l) != NextStep::RetireContradicted,
        step_of(r, live, l) != NextStep::RetireTaskOver,
{
}

/// An assignment is classified by the live pull request only where it is about
/// that one.
pub proof fn law_classified_by_its_own_pull_request(
    r: AssignmentRecord,
    live: Option<LiveSubject>,
    l: Learned,
)
    requires
        step_of(r, live, l) == (NextStep::Classify { against_live: true }),
    ensures
        live is Some,
        (live->0).pr_number == r.pr_number,
{
}

// ---------------------------------------------------------------------------
// One branch
// ---------------------------------------------------------------------------

/// Where the pass over a branch stands.
#[derive(Debug, Clone, Copy, PartialEq, Eq, Structural)]
pub enum BranchPhase {
    Start,
    /// The finished assignments are gone.
    Dropped,
    /// The pull request and the assignments were asked for.
    Reading,
    /// The row of the present assignment was stored.
    Stored,
    /// Something was asked about the present assignment.
    Asking,
    /// Nothing more is done about the present assignment.
    Settled,
    /// The reservations were derived anew.
    Reserved,
}

/// What to do next about a branch; `at` is the place of an assignment among those
/// that were read.
#[derive(Debug, Clone, Copy, PartialEq, Eq, Structural)]
pub enum BranchStep {
    /// Drop the assignments that have ended.
    DropFinished,
    /// Read the live pull request and the active assignments.
    ReadBranch,
    /// Store the row of the assignment.
    StoreRow { at: usize },
    /// Retire the assignment, or ask what the next step about it needs.
    About { at: usize, step: NextStep },
    /// Derive the reservations anew.
    ReserveAgain,
    Done,
}

/// What came of the last step.
pub enum Heard {
    Nothing,
    Branch { live: Option<LiveSubject>, records: Vec<AssignmentRecord> },
    Task(TaskStanding),
    Evidence(AssignmentEvidence),
    Repaired(bool),
}

/// The pass over one branch.
pub struct BranchPass {
    pub phase: BranchPhase,
    pub live: Option<LiveSubject>,
    pub records: Vec<AssignmentRecord>,
    pub at: usize,
    pub learned: Learned,
    /// Whom to wake once every branch is done.
    pub wakes: Vec<String>,
}

/// The pass over one branch, by what it holds.
#[verifier::ext_equal]
pub struct BranchState {
    pub phase: BranchPhase,
    pub live: Option<LiveSubject>,
    pub records: Seq<AssignmentRecord>,
    pub at: int,
    pub learned: Learned,
    pub wakes: Seq<Seq<char>>,
}

impl View for BranchPass {
    type V = BranchState;

    open spec fn view(&self) -> BranchState {
        BranchState {
            phase: self.phase,
            live: self.live,
            records: self.records@,
            at: self.at as int,
            learned: self.learned,
            wakes: self.wakes@.map_values(|s: String| s@),
        }
    }
}

/// Nothing is known of an assignment yet.
pub open spec fn nothing_learned() -> Learned {
    Learned { task: None, evidence: None, repaired: None }
}

/// The pass is at one of its assignments, or past the last.
pub open spec fn in_range(p: BranchState) -> bool {
    &&& 0 <= p.at <= p.records.len()
    &&& p.phase == BranchPhase::Stored || p.phase == BranchPhase::Asking || p.phase
        == BranchPhase::Settled ==> p.at < p.records.len()
}

/// What was learned, with what came of the last step.
pub open spec fn heard_of(l: Learned, h: Heard) -> Learned {
    match h {
        Heard::Task(t) => Learned { task: Some(t), ..l },
        Heard::Evidence(e) => Learned { evidence: Some(e), ..l },
        Heard::Repaired(b) => Learned { repaired: Some(b), ..l },
        _ => l,
    }
}

/// Whether a step is the last about its assignment.
pub open spec fn is_last_step(step: NextStep) -> bool {
    step == NextStep::RetireContradicted || step == NextStep::RetireTaskOver || step
        == NextStep::Wake || step == NextStep::Leave
}

/// The next step about the present assignment.
pub open spec fn next_about(p: BranchState) -> (BranchState, BranchStep) {
    let step = step_of(p.records[p.at], p.live, p.learned);
    (
        BranchState {
            phase: if is_last_step(step) {
                BranchPhase::Settled
            } else {
                BranchPhase::Asking
            },
            wakes: if step == NextStep::Wake {
                p.wakes.push(p.records[p.at].target@)
            } else {
                p.wakes
            },
            ..p
        },
        BranchStep::About { at: p.at as usize, step },
    )
}

/// The first step about the present assignment, or the last about the branch.
pub open spec fn next_record(p: BranchState) -> (BranchState, BranchStep) {
    if p.at >= p.records.len() {
        (BranchState { phase: BranchPhase::Reserved, ..p }, BranchStep::ReserveAgain)
    } else if p.records[p.at].row_pending {
        (
            BranchState { phase: BranchPhase::Stored, ..p },
            BranchStep::StoreRow { at: p.at as usize },
        )
    } else {
        next_about(p)
    }
}

/// What to do next about a branch, and where that leaves the pass.
pub open spec fn branch_next(p: BranchState, h: Heard) -> (BranchState, BranchStep) {
    match p.phase {
        BranchPhase::Start => (
            BranchState { phase: BranchPhase::Dropped, ..p },
            BranchStep::DropFinished,
        ),
        BranchPhase::Dropped => (
            BranchState { phase: BranchPhase::Reading, ..p },
            BranchStep::ReadBranch,
        ),
        BranchPhase::Reading => match h {
            Heard::Branch { live, records } => next_record(
                BranchState { live, records: records@, at: 0, learned: nothing_learned(), ..p },
            ),
            _ => (p, BranchStep::ReadBranch),
        },
        BranchPhase::Stored => next_about(p),
        BranchPhase::Asking => next_about(
            BranchState { learned: heard_of(p.learned, h), ..p },
        ),
        BranchPhase::Settled => next_record(
            BranchState { at: p.at + 1, learned: nothing_learned(), ..p },
        ),
        BranchPhase::Reserved => (p, BranchStep::Done),
    }
}

impl BranchPass {
    /// A pass that has not begun.
    pub fn new() -> (p: Self)
        ensures
            p@ == (BranchState {
                phase: BranchPhase::Start,
                live: None,
                records: seq![],
                at: 0,
                learned: nothing_learned(),
                wakes: seq![],
            }),
            in_range(p@),
    {
        let p = BranchPass {
            phase: BranchPhase::Start,
            live: None,
            records: Vec::new(),
            at: 0,
            learned: Learned { task: None, evidence: None, repaired: None },
            wakes: Vec::new(),
        };
        assert(p@.wakes =~= seq![]);
        assert(p@.records =~= seq![]);
        p
    }

    fn about(&mut self) -> (s: BranchStep)
        requires
            old(self)@.at < old(self)@.records.len(),
        ensures
            (final(self)@, s) == next_about(old(self)@),
    {
        let step: NextStep = next_step(&self.records[self.at], &self.live, &self.learned);
        match step {
            NextStep::Wake => {
                let target: String = self.records[self.at].target.clone();
                let ghost before = self@.wakes;
                self.wakes.push(target);
                assert(self@.wakes =~= before.push(target@));
                self.phase = BranchPhase::Settled;
            },
            NextStep::RetireContradicted => {
                self.phase = BranchPhase::Settled;
            },
            NextStep::RetireTaskOver => {
                self.phase = BranchPhase::Settled;
            },
            NextStep::Leave => {
                self.phase = BranchPhase::Settled;
            },
            _ => {
                self.phase = BranchPhase::Asking;
            },
        }
        BranchStep::About { at: self.at, step }
    }

    fn record(&mut self) -> (s: BranchStep)
        requires
            old(self)@.at <= old(self)@.records.len(),
        ensures
            (final(self)@, s) == next_record(old(self)@),
    {
        if self.at >= self.records.len() {
            self.phase = BranchPhase::Reserved;
            BranchStep::ReserveAgain
        } else if needs_row(&self.records[self.at]) {
            self.phase = BranchPhase::Stored;
            BranchStep::StoreRow { at: self.at }
        } else {
            self.about()
        }
    }

    /// Takes one step: the caller performs it and comes back with what came of it.
    /// A question that was not answered is put again.
    pub fn reconcile_branch(&mut self, heard: Heard) -> (s: BranchStep)
        requires
            in_range(old(self)@),
        ensures
            (final(self)@, s) == branch_next(old(self)@, heard),
            in_range(final(self)@),
    {
        match self.phase {
            BranchPhase::Start => {
                self.phase = BranchPhase::Dropped;
                BranchStep::DropFinished
            },
            BranchPhase::Dropped => {
                self.phase = BranchPhase::Reading;
                BranchStep::ReadBranch
            },
            BranchPhase::Reading => match heard {
                Heard::Branch { live, records } => {
                    self.live = live;
                    self.records = records;
                    self.at = 0;
                    self.learned = Learned { task: None, evidence: None, repaired: None };
                    self.record()
                },
                _ => BranchStep::ReadBranch,
            },
            BranchPhase::Stored => self.about(),
            BranchPhase::Asking => {
                match heard {
                    Heard::Task(t) => {
                        self.learned.task = Some(t);
                    },
                    Heard::Evidence(e) => {
                        self.learned.evidence = Some(e);
                    },
                    Heard::Repaired(b) => {
                        self.learned.repaired = Some(b);
                    },
                    _ => {},
                }
                self.about()
            },
            BranchPhase::Settled => {
                assert(self.at < self.records.len());
                self.at = self.at + 1;
                self.learned = Learned { task: None, evidence: None, repaired: None };
                self.record()
            },
            BranchPhase::Reserved => BranchStep::Done,
        }
    }
}

/// Whether what was heard answers what was asked.
pub open spec fn answers(p: BranchState, h: Heard) -> bool {
    match p.phase {
        BranchPhase::Reading => h is Branch,
        BranchPhase::Asking => match step_of(p.records[p.at], p.live, p.learned) {
            NextStep::ReadTask => h is Task,
            NextStep::Classify { .. } => h is Evidence,
            NextStep::Repair => h is Repaired,
            _ => true,
        },
        _ => true,
    }
}

/// How many questions about an assignment are still open.
pub open spec fn open_questions(l: Learned) -> int {
    (if l.task is None { 1int } else { 0 }) + (if l.evidence is None { 1int } else { 0 }) + (
    if l.repaired is None { 1int } else { 0 })
}

/// How much of the pass over the assignments that were read is left, at most.
pub open spec fn steps_left(p: BranchState) -> int {
    match p.phase {
        BranchPhase::Reserved => 0,
        BranchPhase::Settled => 1 + 6 * (p.records.len() - p.at - 1),
        BranchPhase::Asking => 2 + open_questions(p.learned) + 6 * (p.records.len() - p.at - 1),
        BranchPhase::Stored => 6 + 6 * (p.records.len() - p.at - 1),
        _ => 0,
    }
}

/// A pass ends: once the assignments are read, every answered question brings it
/// nearer to its end.
pub proof fn law_a_pass_ends(p: BranchState, h: Heard)
    requires
        in_range(p),
        answers(p, h),
        p.phase == BranchPhase::Stored || p.phase == BranchPhase::Asking || p.phase
            == BranchPhase::Settled,
        p.phase == BranchPhase::Asking ==> !is_last_step(
            step_of(p.records[p.at], p.live, p.learned),
        ),
    ensures
        0 <= steps_left(branch_next(p, h).0) < steps_left(p),
{
}

/// A row that is not stored yet is stored before anything else is done about its
/// assignment.
pub proof fn law_rows_come_first(p: BranchState)
    requires
        0 <= p.at < p.records.len(),
        p.records[p.at].row_pending,
    ensures
        next_record(p).1 == (BranchStep::StoreRow { at: p.at as usize }),
        next_record(p).0.wakes == p.wakes,
{
}

/// What has ended is dropped before anything is read, and the reservations are
/// derived only when nothing is left to do about any assignment.
pub proof fn law_reservations_come_last(p: BranchState, h: Heard)
    requires
        in_range(p),
        branch_next(p, h).1 == BranchStep::ReserveAgain,
    ensures
        p.phase == BranchPhase::Reading || p.phase == BranchPhase::Settled,
        p.phase == BranchPhase::Settled ==> p.at + 1 == p.records.len(),
        p.phase == BranchPhase::Reading ==> h is Branch && h->records@.len() == 0,
        branch_next(branch_next(p, h).0, Heard::Nothing).1 == BranchStep::Done,
{
}

/// One step wakes at most one assignee, and only the one of an assignment that is
/// to be woken for.
pub proof fn law_only_the_idle_are_collected(p: BranchState, h: Heard)
    requires
        in_range(p),
    ensures
        ({
            let (n, s) = branch_next(p, h);
            n.wakes == p.wakes || {
                &&& s == (BranchStep::About { at: n.at as usize, step: NextStep::Wake })
                &&& 0 <= n.at < n.records.len()
                &&& n.wakes == p.wakes.push(n.records[n.at].target@)
                &&& step_of(n.records[n.at], n.live, n.learned) == NextStep::Wake
            }
        }),
{
}

// ---------------------------------------------------------------------------
// Laws of the order, of one assignment and of a whole pass
// ---------------------------------------------------------------------------

/// A text stands before another exactly if the two agree up to a place where the first
/// ends and the other does not, or where the first has the lesser character.
pub proof fn law_texts_are_ordered_like_words(a: Seq<char>, b: Seq<char>)
    ensures
        text_before(a, b) <==> exists|i: int|
            0 <= i <= a.len() && i < b.len() && #[trigger] a.take(i) == b.take(i) && (i == a.len()
                || a[i] < b[i]),
    decreases a.len(),
{
    if text_before(a, b) {
        if a.len() > 0 && a[0] == b[0] {
            law_texts_are_ordered_like_words(a.skip(1), b.skip(1));
            let i = choose|i: int|
                0 <= i <= a.skip(1).len() && i < b.skip(1).len() && #[trigger] a.skip(1).take(i)
                    == b.skip(1).take(i) && (i == a.skip(1).len() || a.skip(1)[i] < b.skip(1)[i]);
            assert(a.take(i + 1) =~= seq![a[0]] + a.skip(1).take(i));
            assert(b.take(i + 1) =~= seq![b[0]] + b.skip(1).take(i));
        } else {
            assert(a.take(0) =~= b.take(0));
        }
    }
    if exists|i: int|
        0 <= i <= a.len() && i < b.len() && #[trigger] a.take(i) == b.take(i) && (i == a.len()
            || a[i] < b[i]) {
        let i = choose|i: int|
            0 <= i <= a.len() && i < b.len() && #[trigger] a.take(i) == b.take(i) && (i == a.len()
                || a[i] < b[i]);
        if i > 0 {
            assert(a.take(i)[0] == b.take(i)[0]);
            assert(a.skip(1).take(i - 1) =~= a.take(i).skip(1));
            assert(b.skip(1).take(i - 1) =~= b.take(i).skip(1));
            law_texts_are_ordered_like_words(a.skip(1), b.skip(1));
        }
    }
}

/// Branches are ordered by their repository and, within one, by their name; an ascending
/// list has each of them before those that follow it.
pub proof fn law_branches_are_ordered_by_repository(
    v: Seq<(Seq<char>, Seq<char>)>,
    i: int,
    j: int,
)
    requires
        ascending(v),
        0 <= i < j < v.len(),
    ensures
        v[i].0 == v[j].0 ==> text_before(v[i].1, v[j].1),
        v[i].0 != v[j].0 ==> text_before(v[i].0, v[j].0),
{
    assert(branch_before(v[i], v[j]));
}

/// The branch speaks against an assignment exactly if it has another pull request than
/// the assignment is about, or the same with another head than was to be reviewed.
pub proof fn law_what_speaks_against_an_assignment(r: AssignmentRecord, s: LiveSubject)
    ensures
        !contradicts(r, None),
        s.pr_number != r.pr_number ==> contradicts(r, Some(s)),
        s.pr_number == r.pr_number && r.reviewed_head is None ==> !contradicts(r, Some(s)),
        s.pr_number == r.pr_number && r.reviewed_head is Some ==> (contradicts(r, Some(s)) <==> (
        r.reviewed_head->0)@ != s.head_sha@),
{
}

/// An assignment is retired where the branch speaks against it, whatever else is known,
/// and where its task is over; otherwise the task, the evidence and the repair are asked
/// for in turn, and it is left alone where its assignee has done something or its row
/// needed no repair.
pub proof fn law_the_course_of_an_assignment(
    r: AssignmentRecord,
    live: Option<LiveSubject>,
    l: Learned,
)
    ensures
        ({
            let step = step_of(r, live, l);
            let stands = !contradicts(r, live);
            let underway = l.task == Some(TaskStanding::Underway) || l.task == Some(
                TaskStanding::Unknown,
            );
            let idle = l.evidence == Some(AssignmentEvidence::Unengaged);
            &&& step == NextStep::RetireContradicted <==> !stands
            &&& step == NextStep::ReadTask <==> stands && l.task is None
            &&& step == NextStep::RetireTaskOver <==> stands && l.task == Some(TaskStanding::Over)
            &&& step is Classify <==> stands && underway && l.evidence is None
            &&& step is Classify ==> step->against_live == (live is Some)
            &&& step == NextStep::Repair <==> stands && underway && idle && l.repaired is None
            &&& step == NextStep::Wake <==> stands && underway && idle && l.repaired == Some(true)
            &&& step == NextStep::Leave <==> stands && underway && (l.evidence == Some(
                AssignmentEvidence::EngagedUnsatisfied,
            ) || l.evidence == Some(AssignmentEvidence::Satisfied) || (idle && l.repaired == Some(
                false,
            )))
        }),
{
}

/// What is heard is learned, and nothing else changes.
pub proof fn law_what_is_heard_is_learned(l: Learned, h: Heard)
    ensures
        heard_of(l, h).task == (if h is Task {
            Some(h->Task_0)
        } else {
            l.task
        }),
        heard_of(l, h).evidence == (if h is Evidence {
            Some(h->Evidence_0)
        } else {
            l.evidence
        }),
        heard_of(l, h).repaired == (if h is Repaired {
            Some(h->Repaired_0)
        } else {
            l.repaired
        }),
        nothing_learned().task is None,
        nothing_learned().evidence is None,
        nothing_learned().repaired is None,
{
}

/// A step that says to wake adds the assignee of its assignment to those who are woken,
/// however many there are already, and no other step adds anybody.
pub proof fn law_every_wake_is_collected(p: BranchState, h: Heard)
    requires
        in_range(p),
        p.records.len() <= usize::MAX,
        h is Branch ==> h->records@.len() <= usize::MAX,
    ensures
        match branch_next(p, h).1 {
            BranchStep::About { at, step: NextStep::Wake } => {
                &&& at < branch_next(p, h).0.records.len()
                &&& branch_next(p, h).0.wakes == p.wakes.push(
                    branch_next(p, h).0.records[at as int].target@,
                )
            },
            _ => branch_next(p, h).0.wakes == p.wakes,
        },
{
}

/// Where a pass stands after what was heard so far.
pub open spec fn pass_after(p: BranchState, heard: Seq<Heard>) -> BranchState
    decreases heard.len(),
{
    if heard.len() == 0 {
        p
    } else {
        branch_next(pass_after(p, heard.drop_last()), heard.last()).0
    }
}

/// The steps of a pass, one for each thing that was heard.
pub open spec fn pass_steps(p: BranchState, heard: Seq<Heard>) -> Seq<BranchStep>
    decreases heard.len(),
{
    if heard.len() == 0 {
        Seq::empty()
    } else {
        pass_steps(p, heard.drop_last()).push(
            branch_next(pass_after(p, heard.drop_last()), heard.last()).1,
        )
    }
}

proof fn lemma_next_in_range(p: BranchState, h: Heard)
    requires
        in_range(p),
    ensures
        in_range(branch_next(p, h).0),
        p.phase != BranchPhase::Reading ==> branch_next(p, h).0.records == p.records,
        branch_next(p, h).0.phase == BranchPhase::Reading ==> p.phase == BranchPhase::Reading
            || p.phase == BranchPhase::Dropped,
        branch_next(p, h).0.phase == BranchPhase::Dropped ==> p.phase == BranchPhase::Start,
        branch_next(p, h).0.phase != BranchPhase::Start,
{
}

/// Over a whole pass those who are woken are the assignees of the assignments that came
/// to be woken for, in that order and however many there are. The law gives the places of
/// the steps that say so.
pub proof fn law_the_woken_are_the_idle(p: BranchState, heard: Seq<Heard>) -> (at: Seq<int>)
    requires
        in_range(p),
        p.phase == BranchPhase::Stored || p.phase == BranchPhase::Asking || p.phase
            == BranchPhase::Settled || p.phase == BranchPhase::Reserved,
        p.records.len() <= usize::MAX,
    ensures
        pass_steps(p, heard).len() == heard.len(),
        pass_after(p, heard).records == p.records,
        pass_after(p, heard).wakes.len() == p.wakes.len() + at.len(),
        forall|i: int|
            0 <= i < p.wakes.len() ==> #[trigger] pass_after(p, heard).wakes[i] == p.wakes[i],
        forall|i: int, j: int| 0 <= i < j < at.len() ==> #[trigger] at[i] < #[trigger] at[j],
        forall|i: int|
            0 <= i < at.len() ==> ({
                &&& 0 <= #[trigger] at[i] < heard.len()
                &&& pass_steps(p, heard)[at[i]] is About
                &&& pass_after(p, heard).wakes[p.wakes.len() + i] == p.records[pass_steps(
                    p,
                    heard,
                )[at[i]]->About_at as int].target@
            }),
        forall|k: int|
            0 <= k < heard.len() ==> (at.contains(k) <==> (#[trigger] pass_steps(p, heard)[k])
                is About && pass_steps(p, heard)[k]->step == NextStep::Wake),
        in_range(pass_after(p, heard)),
        pass_after(p, heard).phase == BranchPhase::Stored || pass_after(p, heard).phase
            == BranchPhase::Asking || pass_after(p, heard).phase == BranchPhase::Settled
            || pass_after(p, heard).phase == BranchPhase::Reserved,
    decreases heard.len(),
{
    if heard.len() == 0 {
        Seq::empty()
    } else {
        let earlier = heard.drop_last();
        let n = heard.len() - 1;
        let before = law_the_woken_are_the_idle(p, earlier);
        let here = pass_after(p, earlier);
        let step = branch_next(here, heard.last()).1;
        lemma_next_in_range(here, heard.last());
        if step is About && step->step == NextStep::Wake {
            let at = before.push(n);
            assert(!before.contains(n));
            assert forall|k: int| 0 <= k < heard.len() implies (at.contains(k) <==> (
            #[trigger] pass_steps(p, heard)[k]) is About && pass_steps(p, heard)[k]->step
                == NextStep::Wake) by {
                lemma_pushed(before, n, k);
                if k < n {
                    assert(pass_steps(p, heard)[k] == pass_steps(p, earlier)[k]);
                }
            }
            assert forall|i: int| 0 <= i < at.len() implies pass_steps(p, heard)[#[trigger] at[i]]
                is About && pass_after(p, heard).wakes[p.wakes.len() + i] == p.records[pass_steps(
                p,
                heard,
            )[at[i]]->About_at as int].target@ by {
                if i < before.len() {
                    assert(before[i] == at[i]);
                    assert(pass_steps(p, heard)[at[i]] == pass_steps(p, earlier)[at[i]]);
                }
            }
            assert forall|i: int| 0 <= i < p.wakes.len() implies #[trigger] pass_after(
                p,
                heard,
            ).wakes[i] == p.wakes[i] by {
                assert(pass_after(p, earlier).wakes[i] == p.wakes[i]);
            }
            at
        } else {
            assert forall|k: int| 0 <= k < heard.len() implies (before.contains(k) <==> (
            #[trigger] pass_steps(p, heard)[k]) is About && pass_steps(p, heard)[k]->step
                == NextStep::Wake) by {
                if k < n {
                    assert(pass_steps(p, heard)[k] == pass_steps(p, earlier)[k]);
                }
            }
            assert forall|i: int| 0 <= i < before.len() implies pass_steps(
                p,
                heard,
            )[#[trigger] before[i]] is About && pass_after(p, heard).wakes[p.wakes.len() + i]
                == p.records[pass_steps(p, heard)[before[i]]->About_at as int].target@ by {
                assert(pass_steps(p, heard)[before[i]] == pass_steps(p, earlier)[before[i]]);
            }
            before
        }
    }
}

/// The assignee of an assignment that stands, whose task is not over, on which nothing was
/// done and whose row was just repaired, is woken, whoever was woken before.
pub proof fn law_an_idle_assignee_is_woken(p: BranchState, task: TaskStanding)
    requires
        p.phase == BranchPhase::Asking,
        0 <= p.at < p.records.len() <= usize::MAX,
        !contradicts(p.records[p.at], p.live),
        p.learned.task is None,
        p.learned.evidence is None,
        p.learned.repaired is None,
        task == TaskStanding::Underway || task == TaskStanding::Unknown,
    ensures
        ({
            let heard = seq![
                Heard::Task(task),
                Heard::Evidence(AssignmentEvidence::Unengaged),
                Heard::Repaired(true),
            ];
            let at = p.at as usize;
            &&& pass_steps(p, heard) == seq![
                BranchStep::About { at, step: NextStep::Classify { against_live: p.live is Some } },
                BranchStep::About { at, step: NextStep::Repair },
                BranchStep::About { at, step: NextStep::Wake },
            ]
            &&& pass_after(p, heard).wakes == p.wakes.push(p.records[p.at].target@)
            &&& pass_after(p, heard).phase == BranchPhase::Settled
        }),
{
    let heard = seq![
        Heard::Task(task),
        Heard::Evidence(AssignmentEvidence::Unengaged),
        Heard::Repaired(true),
    ];
    reveal_with_fuel(pass_steps, 4);
    reveal_with_fuel(pass_after, 4);
    assert(heard.drop_last() =~= heard.take(2));
    assert(heard.take(2).drop_last() =~= heard.take(1));
    assert(heard.take(1).drop_last() =~= heard.take(0));
    assert(pass_after(p, heard.take(0)) == p);
}

/// A pass drops what has ended, then reads the branch, then takes up one assignment after
/// the other, each with nothing known of it and its row stored first, and derives the
/// reservations behind the last.
pub proof fn law_the_course_of_a_pass(p: BranchState, h: Heard)
    requires
        in_range(p),
    ensures
        ({
            let (n, s) = branch_next(p, h);
            &&& p.phase == BranchPhase::Start ==> s == BranchStep::DropFinished && n.phase
                == BranchPhase::Dropped
            &&& p.phase == BranchPhase::Dropped ==> s == BranchStep::ReadBranch && n.phase
                == BranchPhase::Reading
            &&& p.phase == BranchPhase::Reading && !(h is Branch) ==> s == BranchStep::ReadBranch
                && n == p
            &&& p.phase == BranchPhase::Reading && h is Branch ==> {
                &&& n.at == 0
                &&& n.live == h->live
                &&& n.records == h->records@
                &&& n.learned.task is None && n.learned.evidence is None && n.learned.repaired
                    is None
            }
            &&& p.phase == BranchPhase::Settled ==> {
                &&& n.at == p.at + 1
                &&& n.live == p.live
                &&& n.records == p.records
                &&& n.learned.task is None && n.learned.evidence is None && n.learned.repaired
                    is None
            }
            &&& p.phase == BranchPhase::Settled || (p.phase == BranchPhase::Reading && h is Branch)
                ==> {
                &&& s == BranchStep::ReserveAgain <==> n.at == n.records.len()
                &&& n.at < n.records.len() ==> (s == (BranchStep::StoreRow { at: n.at as usize })
                    <==> n.records[n.at].row_pending)
                &&& n.at < n.records.len() && !n.records[n.at].row_pending ==> s == (
                BranchStep::About {
                    at: n.at as usize,
                    step: step_of(n.records[n.at], n.live, n.learned),
                })
            }
            &&& p.phase == BranchPhase::Stored || p.phase == BranchPhase::Asking ==> {
                &&& n.at == p.at
                &&& n.live == p.live
                &&& n.records == p.records
                &&& s == (BranchStep::About {
                    at: n.at as usize,
                    step: step_of(n.records[n.at], n.live, n.learned),
                })
                &&& n.learned == (if p.phase == BranchPhase::Asking {
                    heard_of(p.learned, h)
                } else {
                    p.learned
                })
            }
            &&& p.phase == BranchPhase::Reserved ==> s == BranchStep::Done && n == p
            &&& s is About ==> (n.phase == BranchPhase::Settled <==> (s->step
                == NextStep::RetireContradicted || s->step == NextStep::RetireTaskOver || s->step
                == NextStep::Wake || s->step == NextStep::Leave))
            &&& s is About && n.phase != BranchPhase::Settled ==> n.phase == BranchPhase::Asking
        }),
{
}

/// A pass is at one of its assignments, or past the last where nothing is being done about
/// one.
pub proof fn law_where_a_pass_stands(p: BranchState)
    ensures
        in_range(p) <==> 0 <= p.at <= p.records.len() && (p.at == p.records.len() ==> p.phase
            != BranchPhase::Stored && p.phase != BranchPhase::Asking && p.phase
            != BranchPhase::Settled),
{
}

// ---------------------------------------------------------------------------
// The handler
// ---------------------------------------------------------------------------

/// What one tick does.
#[derive(Debug, Clone, Copy, PartialEq, Eq, Structural)]
pub struct ReconcileTick {
    /// List the assignments of the old kind, once in the life of the daemon.
    pub census: bool,
    /// Reconcile the branches.
    pub reconcile: bool,
}

pub struct AssignmentReconcileHandler {
    gate: CadenceGate,
    census_done: bool,
}

impl AssignmentReconcileHandler {
    pub closed spec fn gate(&self) -> GateState {
        self.gate@
    }

    pub closed spec fn census_done(&self) -> bool {
        self.census_done
    }

    /// A handler that reconciles on the first tick and on every `cadence`-th after
    /// it; on every tick where the cadence is zero.
    pub fn new(cadence: u64) -> (h: Self)
        ensures
            h.gate() == fresh_gate(if cadence == 0 { 1 } else { cadence }),
            !h.census_done(),
    {
        let every: u64 = if cadence == 0 {
            1
        } else {
            cadence
        };
        AssignmentReconcileHandler { gate: CadenceGate::new(every), census_done: false }
    }

    pub fn name(&self) -> (r: &'static str)
        ensures
            r@ == "assignment_reconcile"@,
    {
        "assignment_reconcile"
    }

    /// One tick.
    pub fn run(&mut self) -> (r: ReconcileTick)
        ensures
            r.census == !old(self).census_done(),
            final(self).census_done(),
            ticked(old(self).gate(), final(self).gate(), r.reconcile),
    {
        let census: bool = !self.census_done;
        self.census_done = true;
        let reconcile: bool = self.gate.fire();
        ReconcileTick { census, reconcile }
    }
}

} // verus!
