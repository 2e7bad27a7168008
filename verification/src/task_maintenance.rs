//! Maintenance of the task board: what is recorded and who is asked when a task
//! is overdue, a dispatch is stuck or orphaned, a report has left its task open,
//! or a schedule was missed.
use crate::events::{event, message, LogEvent, Message};
use crate::text::{decimal, i64_text, same, signed_decimal, u64_text};
use vstd::prelude::*;

verus! {

/// A dispatch that needs attention.
pub struct Dispatch {
    pub to: String,
    pub task_id: Option<String>,
    pub delegated_at: String,
}

/// The task of a dispatch, as it is shown.
pub open spec fn shown_task(d: Dispatch) -> Seq<char> {
    match d.task_id {
        Some(id) => id@,
        None => "unknown"@,
    }
}

fn task_text(d: &Dispatch) -> (r: String)
    ensures
        r@ == shown_task(*d),
{
    match &d.task_id {
        Some(id) => id.clone(),
        None => String::from_str("unknown"),
    }
}

/// What the sweeps of the task board have found.
pub struct Findings {
    /// Tasks whose time ran out; they are open again.
    pub overdue: Vec<String>,
    /// Dispatches without a report for a while.
    pub stuck: Vec<Dispatch>,
    /// Dispatches without a report for so long that the assignee is asked.
    pub ask: Vec<Dispatch>,
    /// Dispatches that nobody answers for any more.
    pub orphans: Vec<Dispatch>,
}

/// What is recorded and sent, each list in the order of what was found.
pub struct TaskMaintenance {
    pub overdue: Vec<LogEvent>,
    pub warned: Vec<LogEvent>,
    /// The questions to the assignees; they are sent before `asked` is recorded.
    pub queries: Vec<Message>,
    pub asked: Vec<LogEvent>,
    pub orphaned: Vec<LogEvent>,
}

/// The record of a task whose time ran out.
pub open spec fn overdue_recorded(e: LogEvent, task_id: Seq<char>) -> bool {
    e.says("task_overdue_unclaimed"@, task_id, "due_at expired, status → open"@)
}

/// The record of a dispatch without a report.
pub open spec fn warn_recorded(e: LogEvent, d: Dispatch, minutes: u64) -> bool {
    e.says(
        "dispatch_stuck_warn"@,
        d.to@,
        "no report_result after "@ + decimal(minutes as nat) + "min"@,
    )
}

/// The record of an assignee who is asked.
pub open spec fn ask_recorded(e: LogEvent, d: Dispatch, minutes: u64) -> bool {
    e.says(
        "dispatch_stuck_ask"@,
        d.to@,
        "no report_result after "@ + decimal(minutes as nat) + "min, querying assignee"@,
    )
}

/// The question to an assignee.
pub open spec fn ask_sent(m: Message, d: Dispatch, minutes: u64) -> bool {
    m.says(
        d.to@,
        "system:dispatch"@,
        "query"@,
        "dispatch stuck check: still working on task_id="@ + shown_task(d) + " (dispatched "@
            + decimal(minutes as nat) + "min ago)?"@,
    )
}

/// The record of an orphaned dispatch.
pub open spec fn orphan_recorded(e: LogEvent, d: Dispatch) -> bool {
    e.says(
        "dispatch_orphaned"@,
        d.to@,
        "task_id="@ + shown_task(d) + " dispatched_at="@ + d.delegated_at@,
    )
}

fn overdue_event(task_id: &str) -> (e: LogEvent)
    ensures
        overdue_recorded(e, task_id@),
{
    event("task_overdue_unclaimed", task_id, "due_at expired, status → open")
}

fn warn_event(d: &Dispatch, minutes: u64) -> (e: LogEvent)
    ensures
        warn_recorded(e, *d, minutes),
{
    let n = u64_text(minutes);
    let detail = String::from_str("no report_result after ").concat(n.as_str()).concat("min");
    event("dispatch_stuck_warn", d.to.as_str(), detail.as_str())
}

fn ask_event(d: &Dispatch, minutes: u64) -> (e: LogEvent)
    ensures
        ask_recorded(e, *d, minutes),
{
    let n = u64_text(minutes);
    let detail = String::from_str("no report_result after ").concat(n.as_str()).concat(
        "min, querying assignee",
    );
    event("dispatch_stuck_ask", d.to.as_str(), detail.as_str())
}

fn ask_message(d: &Dispatch, minutes: u64) -> (m: Message)
    ensures
        ask_sent(m, *d, minutes),
{
    let n = u64_text(minutes);
    let task = task_text(d);
    let text = String::from_str("dispatch stuck check: still working on task_id=").concat(
        task.as_str(),
    ).concat(" (dispatched ").concat(n.as_str()).concat("min ago)?");
    message(d.to.as_str(), "system:dispatch", "query", text.as_str())
}

fn orphan_event(d: &Dispatch) -> (e: LogEvent)
    ensures
        orphan_recorded(e, *d),
{
    let task = task_text(d);
    let detail = String::from_str("task_id=").concat(task.as_str()).concat(
        " dispatched_at=",
    ).concat(d.delegated_at.as_str());
    event("dispatch_orphaned", d.to.as_str(), detail.as_str())
}

/// Decides what is recorded and sent for what the sweeps have found.
/// `warn_minutes` and `ask_minutes` say after how long a dispatch counts as stuck
/// and its assignee is asked.
pub fn run_task_maintenance(found: &Findings, warn_minutes: u64, ask_minutes: u64) -> (r:
    TaskMaintenance)
    ensures
        r.overdue@.len() == found.overdue@.len(),
        forall|i: int|
            0 <= i < found.overdue@.len() ==> overdue_recorded(
                #[trigger] r.overdue@[i],
                found.overdue@[i]@,
            ),
        r.warned@.len() == found.stuck@.len(),
        forall|i: int|
            0 <= i < found.stuck@.len() ==> warn_recorded(
                #[trigger] r.warned@[i],
                found.stuck@[i],
                warn_minutes,
            ),
        r.queries@.len() == found.ask@.len(),
        forall|i: int|
            0 <= i < found.ask@.len() ==> ask_sent(
                #[trigger] r.queries@[i],
                found.ask@[i],
                ask_minutes,
            ),
        r.asked@.len() == found.ask@.len(),
        forall|i: int|
            0 <= i < found.ask@.len() ==> ask_recorded(
                #[trigger] r.asked@[i],
                found.ask@[i],
                ask_minutes,
            ),
        r.orphaned@.len() == found.orphans@.len(),
        forall|i: int|
            0 <= i < found.orphans@.len() ==> orphan_recorded(
                #[trigger] r.orphaned@[i],
                found.orphans@[i],
            ),
{
    let mut overdue: Vec<LogEvent> = Vec::new();
    let mut i: usize = 0;
    while i < found.overdue.len()
        invariant
            i <= found.overdue@.len(),
            overdue@.len() == i,
            forall|k: int|
                0 <= k < i ==> overdue_recorded(#[trigger] overdue@[k], found.overdue@[k]@),
        decreases found.overdue@.len() - i,
    {
        overdue.push(overdue_event(found.overdue[i].as_str()));
        i = i + 1;
    }
    let mut warned: Vec<LogEvent> = Vec::new();
    let mut j: usize = 0;
    while j < found.stuck.len()
        invariant
            j <= found.stuck@.len(),
            warned@.len() == j,
            forall|k: int|
                0 <= k < j ==> warn_recorded(#[trigger] warned@[k], found.stuck@[k], warn_minutes),
        decreases found.stuck@.len() - j,
    {
        warned.push(warn_event(&found.stuck[j], warn_minutes));
        j = j + 1;
    }
    let mut queries: Vec<Message> = Vec::new();
    let mut asked: Vec<LogEvent> = Vec::new();
    let mut a: usize = 0;
    while a < found.ask.len()
        invariant
            a <= found.ask@.len(),
            queries@.len() == a,
            asked@.len() == a,
            forall|k: int|
                0 <= k < a ==> ask_sent(#[trigger] queries@[k], found.ask@[k], ask_minutes),
            forall|k: int|
                0 <= k < a ==> ask_recorded(#[trigger] asked@[k], found.ask@[k], ask_minutes),
        decreases found.ask@.len() - a,
    {
        asked.push(ask_event(&found.ask[a], ask_minutes));
        queries.push(ask_message(&found.ask[a], ask_minutes));
        a = a + 1;
    }
    let mut orphaned: Vec<LogEvent> = Vec::new();
    let mut o: usize = 0;
    while o < found.orphans.len()
        invariant
            o <= found.orphans@.len(),
            orphaned@.len() == o,
            forall|k: int|
                0 <= k < o ==> orphan_recorded(#[trigger] orphaned@[k], found.orphans@[k]),
        decreases found.orphans@.len() - o,
    {
        orphaned.push(orphan_event(&found.orphans[o]));
        o = o + 1;
    }
    TaskMaintenance { overdue, warned, queries, asked, orphaned }
}

// ---------------------------------------------------------------------------
// Tasks that a report has left open
// ---------------------------------------------------------------------------

/// A task that was reported but is still open.
pub struct UnsettledTask {
    pub task_id: String,
    pub status: String,
    pub age_minutes: i64,
    pub assignee: Option<String>,
    pub created_by: String,
}

/// What is recorded and sent for such a task.
pub struct UnsettledNotice {
    pub record: LogEvent,
    pub messages: Vec<Message>,
}

/// The reminder: it names both ways to settle the task.
pub open spec fn unsettled_text(t: UnsettledTask) -> Seq<char> {
    "task not settled: a report for task_id="@ + t.task_id@ + " landed "@ + signed_decimal(
        t.age_minutes as int,
    ) + "min ago but the task is still `"@ + t.status@
        + "` on the board. Close the loop — assignee: send the report again with `terminal: true` (correlation_id="@
        + t.task_id@ + "); orchestrator: `task action=done id="@ + t.task_id@
        + "`. Still working? Ignore this; the next report resets the timer."@
}

/// Who is reminded: the assignee, and the creator unless that is the same.
pub open spec fn unsettled_targets(t: UnsettledTask) -> Seq<Seq<char>> {
    match t.assignee {
        Some(a) => if a@ == t.created_by@ {
            seq![a@]
        } else {
            seq![a@, t.created_by@]
        },
        None => seq![t.created_by@],
    }
}

/// The particulars of the record.
pub open spec fn unsettled_detail(t: UnsettledTask) -> Seq<char> {
    "task_id="@ + t.task_id@ + " status="@ + t.status@ + " reported "@ + signed_decimal(
        t.age_minutes as int,
    ) + "min ago, still unsettled"@
}

fn reminder(t: &UnsettledTask) -> (r: String)
    ensures
        r@ == unsettled_text(*t),
{
    let age = i64_text(t.age_minutes);
    let mut s: String = String::from_str("task not settled: a report for task_id=");
    s.append(t.task_id.as_str());
    s.append(" landed ");
    s.append(age.as_str());
    s.append("min ago but the task is still `");
    s.append(t.status.as_str());
    s.append(
        "` on the board. Close the loop — assignee: send the report again with `terminal: true` (correlation_id=",
    );
    s.append(t.task_id.as_str());
    s.append("); orchestrator: `task action=done id=");
    s.append(t.task_id.as_str());
    s.append("`. Still working? Ignore this; the next report resets the timer.");
    s
}

/// Decides what is recorded and sent for a task that a report has left open.
pub fn notify_unsettled_after_report(t: &UnsettledTask) -> (r: UnsettledNotice)
    ensures
        r.record.says(
            "task_unsettled_after_report"@,
            match t.assignee {
                Some(a) => a@,
                None => "(unassigned)"@,
            },
            unsettled_detail(*t),
        ),
        r.messages@.len() == unsettled_targets(*t).len(),
        forall|i: int|
            0 <= i < r.messages@.len() ==> (#[trigger] r.messages@[i]).says(
                unsettled_targets(*t)[i],
                "system:task"@,
                "update"@,
                unsettled_text(*t),
            ),
{
    let age = i64_text(t.age_minutes);
    let mut detail: String = String::from_str("task_id=");
    detail.append(t.task_id.as_str());
    detail.append(" status=");
    detail.append(t.status.as_str());
    detail.append(" reported ");
    detail.append(age.as_str());
    detail.append("min ago, still unsettled");
    let text = reminder(t);
    let mut messages: Vec<Message> = Vec::new();
    let record = match &t.assignee {
        Some(a) => {
            messages.push(message(a.as_str(), "system:task", "update", text.as_str()));
            if !same(a.as_str(), t.created_by.as_str()) {
                messages.push(
                    message(t.created_by.as_str(), "system:task", "update", text.as_str()),
                );
            }
            event("task_unsettled_after_report", a.as_str(), detail.as_str())
        },
        None => {
            messages.push(message(t.created_by.as_str(), "system:task", "update", text.as_str()));
            event("task_unsettled_after_report", "(unassigned)", detail.as_str())
        },
    };
    UnsettledNotice { record, messages }
}

// ---------------------------------------------------------------------------
// Missed schedules
// ---------------------------------------------------------------------------

/// A one-shot schedule that was missed while the daemon was down.
pub struct MissedSchedule {
    pub target: String,
    pub message: String,
    pub label: Option<String>,
}

/// How a missed schedule reaches its target.
pub enum ReplayDelivery {
    /// It is typed into the agent's terminal.
    Inject { text: String },
    /// It is put into the target's inbox.
    Enqueue(Message),
}

/// What is recorded and done for a missed schedule.
pub struct Replay {
    pub record: LogEvent,
    pub delivery: ReplayDelivery,
}

/// Decides how a missed schedule is replayed: `reachable` says that its target
/// runs and can be typed to.
pub fn replay_missed_at_startup(s: &MissedSchedule, reachable: bool) -> (r: Replay)
    ensures
        r.record.says(
            "schedule_replay"@,
            s.target@,
            (match s.label {
                Some(l) => l@,
                None => "(unnamed)"@,
            }) + ": "@ + s.message@,
        ),
        match r.delivery {
            ReplayDelivery::Inject { text } => reachable && text@ == s.message@,
            ReplayDelivery::Enqueue(m) => !reachable && m.says(
                s.target@,
                "system:schedule"@,
                "schedule_replay"@,
                s.message@,
            ),
        },
{
    let label: String = match &s.label {
        Some(l) => l.clone(),
        None => String::from_str("(unnamed)"),
    };
    let detail = label.concat(": ").concat(s.message.as_str());
    let record = event("schedule_replay", s.target.as_str(), detail.as_str());
    let delivery = if reachable {
        ReplayDelivery::Inject { text: s.message.clone() }
    } else {
        ReplayDelivery::Enqueue(
            message(
                s.target.as_str(),
                "system:schedule",
                "schedule_replay",
                s.message.as_str(),
            ),
        )
    };
    Replay { record, delivery }
}

// ---------------------------------------------------------------------------
// Laws
// ---------------------------------------------------------------------------

/// Nobody is reminded twice of one task, the creator always is, and so is the
/// assignee where there is one.
pub proof fn law_everybody_is_reminded_once(t: UnsettledTask)
    ensures
        unsettled_targets(t).no_duplicates(),
        unsettled_targets(t).contains(t.created_by@),
        t.assignee is Some ==> unsettled_targets(t).contains(t.assignee->0@),
{
    let s = unsettled_targets(t);
    if t.assignee is Some {
        assert(s[0] == t.assignee->0@);
        if t.assignee->0@ != t.created_by@ {
            assert(s[1] == t.created_by@);
        }
    } else {
        assert(s[0] == t.created_by@);
    }
}

/// A dispatch is shown by its task, or as unknown where it names none.
pub proof fn law_how_a_dispatch_is_shown(d: Dispatch)
    ensures
        d.task_id is Some ==> shown_task(d) == d.task_id->0@,
        d.task_id is None ==> shown_task(d) == "unknown"@,
{
}

/// What is recorded of an overdue task names the task; what is recorded of a dispatch
/// names its assignee, and how long it waits or which task it was about and when.
pub proof fn law_what_the_sweeps_record(e: LogEvent, task_id: Seq<char>, d: Dispatch, minutes: u64)
    ensures
        overdue_recorded(e, task_id) ==> e.kind@ == "task_overdue_unclaimed"@ && e.subject@
            == task_id && e.detail@ == "due_at expired, status → open"@,
        warn_recorded(e, d, minutes) ==> e.kind@ == "dispatch_stuck_warn"@ && e.subject@ == d.to@
            && e.detail@ == "no report_result after "@ + decimal(minutes as nat) + "min"@,
        ask_recorded(e, d, minutes) ==> e.kind@ == "dispatch_stuck_ask"@ && e.subject@ == d.to@
            && e.detail@ == "no report_result after "@ + decimal(minutes as nat)
            + "min, querying assignee"@,
        orphan_recorded(e, d) ==> e.kind@ == "dispatch_orphaned"@ && e.subject@ == d.to@
            && e.detail@ == "task_id="@ + shown_task(d) + " dispatched_at="@ + d.delegated_at@,
{
}

/// The question about a stuck dispatch goes to its assignee and names the task and how long
/// ago it was dispatched.
pub proof fn law_what_an_assignee_is_asked(m: Message, d: Dispatch, minutes: u64)
    requires
        ask_sent(m, d, minutes),
    ensures
        m.to@ == d.to@,
        m.source@ == "system:dispatch"@,
        m.kind@ == "query"@,
        m.text@ == "dispatch stuck check: still working on task_id="@ + shown_task(d)
            + " (dispatched "@ + decimal(minutes as nat) + "min ago)?"@,
{
}

/// The reminder of a task that is not settled goes to its assignee first and then to its
/// creator, and to nobody else.
pub proof fn law_who_is_reminded(t: UnsettledTask, who: Seq<char>)
    ensures
        unsettled_targets(t).contains(who) <==> who == t.created_by@ || (t.assignee is Some && who
            == t.assignee->0@),
        t.assignee is Some ==> unsettled_targets(t)[0] == t.assignee->0@,
        unsettled_targets(t).last() == t.created_by@,
{
    law_everybody_is_reminded_once(t);
}

/// What is recorded and sent of a task that is not settled names the task, its status and
/// how long ago it was reported.
pub proof fn law_what_a_reminder_says(t: UnsettledTask)
    ensures
        unsettled_detail(t) == "task_id="@ + t.task_id@ + " status="@ + t.status@ + " reported "@
            + signed_decimal(t.age_minutes as int) + "min ago, still unsettled"@,
        unsettled_text(t) == "task not settled: a report for task_id="@ + t.task_id@ + " landed "@
            + signed_decimal(t.age_minutes as int) + "min ago but the task is still `"@ + t.status@
            + "` on the board. Close the loop — assignee: send the report again with `terminal: true` (correlation_id="@
            + t.task_id@ + "); orchestrator: `task action=done id="@ + t.task_id@
            + "`. Still working? Ignore this; the next report resets the timer."@,
{
}

} // verus!
