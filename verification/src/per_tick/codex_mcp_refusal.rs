//! Tells the orchestrator when a Codex pane shows that its tool calls are refused.
use crate::agents::Backend;
use crate::cadence::{fresh_gate, ticked, CadenceGate, GateState};
use crate::events::{notice, Notice};
use crate::positions::lemma_pushed;
use crate::table::{kept, Table};
use crate::text::{chars_of, contains, is_white_space, list_contains, occurs_in, opt_view, same, trimmed_start, views, white_space};
use vstd::prelude::*;

verus! {

/// The line that Codex shows when it refuses a tool call.
pub const REFUSED_CALL: &'static str = "MCP tool call requires approval, but approval policy is never";

/// The line that it shows for a delegate.
pub const REFUSED_DELEGATE: &'static str = "Codex delegates require approval policy";

/// Somebody types this line: it begins with the mark of the input line.
pub open spec fn is_typed(line: Seq<char>) -> bool {
    trimmed_start(line).len() > 0 && trimmed_start(line)[0] == '\u{203a}'
}

/// Whether somebody types this line.
pub fn typed_line(line: &str) -> (r: bool)
    ensures
        r == is_typed(line@),
{
    let v = chars_of(line);
    let mut from: usize = 0;
    assert(v@.skip(0) =~= line@);
    while from < v.len() && white_space(v[from])
        invariant
            v@ == line@,
            from <= v@.len(),
            trimmed_start(line@) == trimmed_start(v@.skip(from as int)),
        decreases v@.len() - from,
    {
        assert(v@.skip(from as int).drop_first() =~= v@.skip(from + 1));
        from = from + 1;
    }
    from < v.len() && v[from] == '\u{203a}'
}

/// The line shows a refusal.
pub open spec fn refuses(line: Seq<char>) -> bool {
    !is_typed(line) && (occurs_in(line, REFUSED_CALL@) || occurs_in(line, REFUSED_DELEGATE@))
}

/// Whether a line shows a refusal.
pub fn is_refusal(line: &str) -> (r: bool)
    ensures
        r == refuses(line@),
{
    !typed_line(line) && (contains(line, REFUSED_CALL) || contains(line, REFUSED_DELEGATE))
}

/// The first line of a pane that shows a refusal.
pub open spec fn first_refusal(lines: Seq<Seq<char>>) -> Option<Seq<char>>
    decreases lines.len(),
{
    if lines.len() == 0 {
        None
    } else if first_refusal(lines.drop_last()) is Some {
        first_refusal(lines.drop_last())
    } else if refuses(lines.last()) {
        Some(lines.last())
    } else {
        None
    }
}

/// What a pane shows, and what is known of its agent.
pub struct PaneLook {
    pub name: String,
    pub backend: Option<Backend>,
    pub lines: Vec<String>,
    pub orchestrator: Option<String>,
    /// The model and the arguments that the fleet gives the instance.
    pub model: Option<String>,
    pub args: Vec<String>,
}

/// The evidence in a pane: only a Codex pane has any.
pub open spec fn evidence(l: PaneLook) -> Option<Seq<char>> {
    if l.backend == Some(Backend::Codex) {
        first_refusal(views(l.lines@))
    } else {
        None
    }
}

/// The first line of a Codex pane that shows a refusal.
pub fn find_evidence(l: &PaneLook) -> (r: Option<String>)
    ensures
        opt_view(r) == evidence(*l),
{
    match l.backend {
        Some(Backend::Codex) => {},
        _ => return None,
    }
    let ghost all = views(l.lines@);
    let mut found: Option<String> = None;
    let mut i: usize = 0;
    assert(all.take(0) =~= Seq::<Seq<char>>::empty());
    while i < l.lines.len()
        invariant
            all == views(l.lines@),
            i <= l.lines@.len(),
            opt_view(found) == first_refusal(all.take(i as int)),
        decreases l.lines@.len() - i,
    {
        assert(all.take(i + 1).drop_last() =~= all.take(i as int));
        assert(all.take(i + 1).last() == l.lines@[i as int]@);
        if found.is_none() && is_refusal(l.lines[i].as_str()) {
            found = Some(l.lines[i].clone());
        }
        i = i + 1;
    }
    assert(all.take(i as int) =~= all);
    found
}

/// Texts with a space between them.
pub open spec fn spaced(v: Seq<Seq<char>>) -> Seq<char>
    decreases v.len(),
{
    if v.len() == 0 {
        Seq::empty()
    } else if v.len() == 1 {
        v[0]
    } else {
        spaced(v.drop_last()) + " "@ + v.last()
    }
}

fn join_spaced(v: &Vec<String>) -> (r: String)
    ensures
        r@ == spaced(views(v@)),
{
    let ghost all = views(v@);
    let mut r = String::new();
    let mut i: usize = 0;
    assert(r@ =~= spaced(all.take(0)));
    while i < v.len()
        invariant
            all == views(v@),
            i <= v@.len(),
            r@ == spaced(all.take(i as int)),
        decreases v@.len() - i,
    {
        proof {
            assert(all.take(i + 1).drop_last() =~= all.take(i as int));
            assert(all.take(i + 1).last() == v@[i as int]@);
        }
        if i > 0 {
            r.append(" ");
        }
        let ghost before = r@;
        r.append(v[i].as_str());
        proof {
            if i == 0 {
                assert(before =~= Seq::<char>::empty());
                assert(r@ =~= v@[0]@);
            }
        }
        i = i + 1;
    }
    assert(all.take(i as int) =~= all);
    r
}

/// The model of the instance, or that it has none of its own.
pub open spec fn model_text(model: Option<Seq<char>>) -> Seq<char> {
    match model {
        Some(m) => m,
        None => "(default)"@,
    }
}

/// What the orchestrator is told.
pub open spec fn refusal_text(l: PaneLook, line: Seq<char>) -> Seq<char> {
    "[codex_mcp_refusal] agent '"@ + l.name@ + "' shows that Codex refuses its MCP tool calls: "@ + line
        + " (instance overrides: model="@ + model_text(opt_view(l.model)) + ", args="@ + spaced(
        views(l.args@),
    ) + "). The daemon cannot lift this; check the instance's model and args, then restart it."@
}

/// Whom to tell.
pub open spec fn told_to(l: PaneLook) -> Seq<char> {
    match opt_view(l.orchestrator) {
        Some(o) => o,
        None => "general"@,
    }
}

/// A refusal that was seen: its line, and the notice of it, unless the agent would
/// be told about itself.
pub struct RefusalReport {
    pub name: String,
    pub line: String,
    pub notice: Option<Notice>,
}

impl RefusalReport {
    /// The report of this look.
    pub open spec fn reports(&self, l: PaneLook) -> bool {
        &&& self.name@ == l.name@
        &&& evidence(l) == Some(self.line@)
        &&& self.notice is Some <==> told_to(l) != l.name@
        &&& self.notice is Some ==> (self.notice->0).says(
            told_to(l),
            "system:codex_mcp_refusal"@,
            "codex_mcp_refusal"@,
            refusal_text(l, self.line@),
            l.name@,
        )
    }
}

fn report(l: &PaneLook, line: String) -> (r: RefusalReport)
    requires
        evidence(*l) == Some(line@),
    ensures
        r.reports(*l),
{
    let to: String = match &l.orchestrator {
        Some(o) => o.clone(),
        None => String::from_str("general"),
    };
    if same(to.as_str(), l.name.as_str()) {
        return RefusalReport { name: l.name.clone(), line, notice: None };
    }
    let mut text = String::from_str("[codex_mcp_refusal] agent '");
    text.append(l.name.as_str());
    text.append("' shows that Codex refuses its MCP tool calls: ");
    text.append(line.as_str());
    text.append(" (instance overrides: model=");
    match &l.model {
        Some(m) => {
            text.append(m.as_str());
        },
        None => {
            text.append("(default)");
        },
    }
    text.append(", args=");
    text.append(join_spaced(&l.args).as_str());
    text.append(
        "). The daemon cannot lift this; check the instance's model and args, then restart it.",
    );
    let n = notice(
        to.as_str(),
        "system:codex_mcp_refusal",
        "codex_mcp_refusal",
        text.as_str(),
        l.name.as_str(),
    );
    RefusalReport { name: l.name.clone(), line, notice: Some(n) }
}

/// Which agents are armed: the next refusal of an armed agent is reported.
pub type Latches = Map<Seq<char>, bool>;

/// Whether an agent is armed; one that was never seen is.
pub open spec fn armed(m: Latches, name: Seq<char>) -> bool {
    if m.dom().contains(name) {
        m[name]
    } else {
        true
    }
}

/// What is known after one more look: a pane that shows a refusal disarms, one that
/// shows none arms again. Only Codex panes are looked at.
pub open spec fn after_look(m: Latches, l: PaneLook) -> Latches {
    if l.backend == Some(Backend::Codex) {
        m.insert(l.name@, evidence(l) is None)
    } else {
        m
    }
}

/// What is known after a run of looks.
pub open spec fn after_looks(m: Latches, ls: Seq<PaneLook>) -> Latches
    decreases ls.len(),
{
    if ls.len() == 0 {
        m
    } else {
        after_look(after_looks(m, ls.drop_last()), ls.last())
    }
}

/// The look is reported.
pub open spec fn fires(m: Latches, l: PaneLook) -> bool {
    evidence(l) is Some && armed(m, l.name@)
}

/// The looks that are reported, in order.
pub open spec fn reported(m: Latches, ls: Seq<PaneLook>) -> Seq<PaneLook>
    decreases ls.len(),
{
    if ls.len() == 0 {
        Seq::empty()
    } else if fires(after_looks(m, ls.drop_last()), ls.last()) {
        reported(m, ls.drop_last()).push(ls.last())
    } else {
        reported(m, ls.drop_last())
    }
}

/// The agents that are still there.
pub open spec fn is_live(live: Seq<Seq<char>>) -> spec_fn(Seq<char>, bool) -> bool {
    |name: Seq<char>, s: bool| live.contains(name)
}

pub struct CodexMcpRefusalHandler {
    gate: CadenceGate,
    states: Table<String, bool>,
}

impl CodexMcpRefusalHandler {
    pub closed spec fn gate(&self) -> GateState {
        self.gate@
    }

    pub closed spec fn latches(&self) -> Latches {
        self.states@
    }

    pub fn new(every_n_ticks: u64) -> (h: Self)
        ensures
            h.gate() == fresh_gate(every_n_ticks),
            h.latches() == Latches::empty(),
    {
        CodexMcpRefusalHandler { gate: CadenceGate::new(every_n_ticks), states: Table::new() }
    }

    pub fn name(&self) -> (r: &'static str)
        ensures
            r@ == "codex_mcp_refusal"@,
    {
        "codex_mcp_refusal"
    }

    /// One tick: whether it is time to run.
    pub fn due(&mut self) -> (r: bool)
        ensures
            ticked(old(self).gate(), final(self).gate(), r),
            final(self).latches() == old(self).latches(),
    {
        self.gate.fire()
    }

    /// Takes the looks of this tick and forgets the agents that are gone.
    pub fn run(&mut self, looks: &Vec<PaneLook>, live: &Vec<String>) -> (out: Vec<RefusalReport>)
        ensures
            final(self).gate() == old(self).gate(),
            final(self).latches() == kept(
                after_looks(old(self).latches(), looks@),
                is_live(views(live@)),
            ),
            ({
                let r = reported(old(self).latches(), looks@);
                &&& out@.len() == r.len()
                &&& forall|i: int| 0 <= i < r.len() ==> (#[trigger] out@[i]).reports(r[i])
            }),
    {
        let ghost m = self.states@;
        let mut out: Vec<RefusalReport> = Vec::new();
        let mut i: usize = 0;
        assert(looks@.take(0) =~= Seq::<PaneLook>::empty());
        while i < looks.len()
            invariant
                i <= looks@.len(),
                self.gate@ == old(self).gate@,
                self.states@ == after_looks(m, looks@.take(i as int)),
                out@.len() == reported(m, looks@.take(i as int)).len(),
                forall|k: int|
                    0 <= k < out@.len() ==> (#[trigger] out@[k]).reports(
                        reported(m, looks@.take(i as int))[k],
                    ),
            decreases looks@.len() - i,
        {
            let l = &looks[i];
            assert(looks@.take(i + 1).drop_last() =~= looks@.take(i as int));
            assert(looks@.take(i + 1).last() == *l);
            match l.backend {
                Some(Backend::Codex) => {
                    let was_armed: bool = match self.states.get(&l.name) {
                        Some(a) => *a,
                        None => true,
                    };
                    match find_evidence(l) {
                        Some(line) => {
                            self.states.insert(l.name.clone(), false);
                            if was_armed {
                                out.push(report(l, line));
                            }
                        },
                        None => {
                            self.states.insert(l.name.clone(), true);
                        },
                    }
                },
                _ => {},
            }
            i = i + 1;
        }
        assert(looks@.take(i as int) =~= looks@);
        let keep = |k: &String, s: &bool| -> (b: bool)
            ensures
                b == views(live@).contains(k@),
        {
            list_contains(live, k.as_str())
        };
        let _gone: usize = self.states.retain(keep, Ghost(is_live(views(live@))));
        out
    }
}

// ---------------------------------------------------------------------------
// Laws
// ---------------------------------------------------------------------------

/// A refusal that stays on the screen is reported once.
pub proof fn law_one_report_per_episode(m: Latches, a: PaneLook, b: PaneLook)
    requires
        a.name@ == b.name@,
        evidence(a) is Some,
    ensures
        !fires(after_look(m, a), b),
{
}

/// A refusal that comes back after it was gone is reported again.
pub proof fn law_disappearance_rearms(m: Latches, gone: PaneLook, back: PaneLook)
    requires
        gone.name@ == back.name@,
        gone.backend == Some(Backend::Codex),
        evidence(gone) is None,
        evidence(back) is Some,
    ensures
        fires(after_look(m, gone), back),
{
}

/// A line that somebody types is never evidence.
pub proof fn law_typed_lines_are_no_evidence(line: Seq<char>)
    requires
        is_typed(line),
    ensures
        !refuses(line),
{
}

/// Only a Codex pane is ever reported.
pub proof fn law_other_backends_are_ignored(m: Latches, l: PaneLook)
    requires
        l.backend != Some(Backend::Codex),
    ensures
        !fires(m, l),
        after_look(m, l) == m,
{
}

/// A line is typed exactly if the mark of the input line is its first character that is no
/// white space.
pub proof fn law_which_lines_are_typed(line: Seq<char>)
    ensures
        is_typed(line) <==> exists|i: int|
            0 <= i < line.len() && (#[trigger] line[i]) == '\u{203a}' && forall|k: int|
                0 <= k < i ==> is_white_space(#[trigger] line[k]),
    decreases line.len(),
{
    if line.len() > 0 {
        let rest = line.drop_first();
        law_which_lines_are_typed(rest);
        if is_white_space(line[0]) {
            if is_typed(rest) {
                let i = choose|i: int|
                    0 <= i < rest.len() && (#[trigger] rest[i]) == '\u{203a}' && forall|k: int|
                        0 <= k < i ==> is_white_space(#[trigger] rest[k]);
                assert(line[i + 1] == '\u{203a}');
                assert forall|k: int| 0 <= k < i + 1 implies is_white_space(#[trigger] line[k]) by {
                    if k > 0 {
                        assert(rest[k - 1] == line[k]);
                    }
                }
            }
            if exists|i: int|
                0 <= i < line.len() && (#[trigger] line[i]) == '\u{203a}' && forall|k: int|
                    0 <= k < i ==> is_white_space(#[trigger] line[k]) {
                let i = choose|i: int|
                    0 <= i < line.len() && (#[trigger] line[i]) == '\u{203a}' && forall|k: int|
                        0 <= k < i ==> is_white_space(#[trigger] line[k]);
                assert(i > 0);
                assert(rest[i - 1] == '\u{203a}');
                assert forall|k: int| 0 <= k < i - 1 implies is_white_space(#[trigger] rest[k]) by {
                    assert(line[k + 1] == rest[k]);
                }
            }
        } else {
            if is_typed(line) {
                assert(line[0] == '\u{203a}');
            }
            if exists|i: int|
                0 <= i < line.len() && (#[trigger] line[i]) == '\u{203a}' && forall|k: int|
                    0 <= k < i ==> is_white_space(#[trigger] line[k]) {
                let i = choose|i: int|
                    0 <= i < line.len() && (#[trigger] line[i]) == '\u{203a}' && forall|k: int|
                        0 <= k < i ==> is_white_space(#[trigger] line[k]);
                if i > 0 {
                    assert(is_white_space(line[0]));
                }
            }
        }
    }
}

/// A line shows a refusal exactly if nobody types it and one of the two messages stands in
/// it.
pub proof fn law_which_lines_refuse(line: Seq<char>)
    ensures
        refuses(line) <==> !is_typed(line) && (occurs_in(
            line,
            "MCP tool call requires approval, but approval policy is never"@,
        ) || occurs_in(line, "Codex delegates require approval policy"@)),
{
}

/// The evidence of a Codex pane is the first of its lines that shows a refusal; without
/// such a line, and in any other pane, there is none.
pub proof fn law_the_first_refusal_is_the_evidence(l: PaneLook, i: int)
    requires
        0 <= i <= l.lines@.len(),
        forall|j: int| 0 <= j < i ==> !refuses((#[trigger] l.lines@[j])@),
    ensures
        l.backend != Some(Backend::Codex) ==> evidence(l) is None,
        l.backend == Some(Backend::Codex) && i < l.lines@.len() && refuses(l.lines@[i]@)
            ==> evidence(l) == Some(l.lines@[i]@),
        i == l.lines@.len() ==> evidence(l) is None,
{
    let all = views(l.lines@);
    assert forall|j: int| 0 <= j < i implies !refuses(#[trigger] all[j]) by {
        assert(!refuses(l.lines@[j]@));
    }
    lemma_first_refusal(all, i);
}

proof fn lemma_first_refusal(lines: Seq<Seq<char>>, i: int)
    requires
        0 <= i <= lines.len(),
        forall|j: int| 0 <= j < i ==> !refuses(#[trigger] lines[j]),
    ensures
        i < lines.len() && refuses(lines[i]) ==> first_refusal(lines) == Some(lines[i]),
        i == lines.len() ==> first_refusal(lines) is None,
    decreases lines.len(),
{
    if lines.len() > 0 {
        let rest = lines.drop_last();
        assert(forall|j: int| 0 <= j < rest.len() ==> rest[j] == #[trigger] lines[j]);
        if i < lines.len() {
            lemma_first_refusal(rest, i);
        } else {
            lemma_first_refusal(rest, i - 1);
        }
    }
}

/// What is told of a refusal goes to the orchestrator of the agent's team, or to everybody
/// where there is none, unless that is the agent itself; it names the agent, the line, and
/// the model and the arguments of the instance, with a space between two of them.
pub proof fn law_what_is_told_of_a_refusal(r: RefusalReport, l: PaneLook, args: Seq<Seq<char>>, arg: Seq<char>)
    requires
        r.reports(l),
    ensures
        r.name@ == l.name@,
        evidence(l) == Some(r.line@),
        l.orchestrator is Some ==> told_to(l) == l.orchestrator->0@,
        l.orchestrator is None ==> told_to(l) == "general"@,
        r.notice is None <==> told_to(l) == l.name@,
        r.notice is Some ==> {
            let n = r.notice->0;
            &&& n.message.to@ == told_to(l)
            &&& n.message.source@ == "system:codex_mcp_refusal"@
            &&& n.message.kind@ == "codex_mcp_refusal"@
            &&& n.about@ == l.name@
            &&& n.message.text@ == "[codex_mcp_refusal] agent '"@ + l.name@
                + "' shows that Codex refuses its MCP tool calls: "@ + r.line@
                + " (instance overrides: model="@ + (if l.model is Some {
                l.model->0@
            } else {
                "(default)"@
            }) + ", args="@ + spaced(views(l.args@))
                + "). The daemon cannot lift this; check the instance's model and args, then restart it."@
        },
        spaced(Seq::empty()) == Seq::<char>::empty(),
        spaced(seq![arg]) == arg,
        args.len() > 0 ==> spaced(args.push(arg)) == spaced(args) + " "@ + arg,
{
    assert(args.push(arg).drop_last() =~= args);
}

/// A Codex pane arms its agent exactly if it shows no refusal and changes nothing else; a
/// refusal is reported exactly if its agent is armed, as one that was never seen is.
pub proof fn law_when_a_refusal_is_reported(m: Latches, l: PaneLook, other: Seq<char>)
    ensures
        fires(m, l) <==> evidence(l) is Some && (!m.dom().contains(l.name@) || m[l.name@]),
        l.backend == Some(Backend::Codex) ==> after_look(m, l).dom() == m.dom().insert(l.name@),
        l.backend == Some(Backend::Codex) ==> (after_look(m, l)[l.name@] <==> evidence(l) is None),
        other != l.name@ ==> after_look(m, l)[other] == m[other],
        l.backend != Some(Backend::Codex) ==> after_look(m, l) == m,
{
}

proof fn lemma_others_are_untouched(m: Latches, ls: Seq<PaneLook>, name: Seq<char>)
    requires
        forall|i: int| 0 <= i < ls.len() ==> (#[trigger] ls[i]).name@ != name,
    ensures
        armed(after_looks(m, ls), name) == armed(m, name),
    decreases ls.len(),
{
    if ls.len() > 0 {
        let rest = ls.drop_last();
        assert forall|i: int| 0 <= i < rest.len() implies (#[trigger] rest[i]).name@ != name by {
            assert(rest[i] == ls[i]);
        }
        lemma_others_are_untouched(m, rest, name);
        assert(ls[ls.len() - 1].name@ != name);
    }
}

/// Of the looks of one round exactly those are reported that show a refusal of an agent
/// that was armed before, in order, each judged by its own agent. The law gives their
/// places.
pub proof fn law_which_looks_are_reported(m: Latches, ls: Seq<PaneLook>) -> (at: Seq<int>)
    requires
        forall|i: int, j: int|
            0 <= i < j < ls.len() ==> (#[trigger] ls[i]).name@ != (#[trigger] ls[j]).name@,
    ensures
        at.len() == reported(m, ls).len(),
        forall|i: int, j: int| 0 <= i < j < at.len() ==> #[trigger] at[i] < #[trigger] at[j],
        forall|i: int|
            0 <= i < at.len() ==> 0 <= #[trigger] at[i] < ls.len() && reported(m, ls)[i]
                == ls[at[i]],
        forall|k: int|
            0 <= k < ls.len() ==> (at.contains(k) <==> evidence(#[trigger] ls[k]) is Some && (
            !m.dom().contains(ls[k].name@) || m[ls[k].name@])),
    decreases ls.len(),
{
    if ls.len() == 0 {
        Seq::empty()
    } else {
        let rest = ls.drop_last();
        let n = ls.len() - 1;
        assert(forall|k: int| 0 <= k < n ==> rest[k] == #[trigger] ls[k]);
        assert forall|i: int, j: int| 0 <= i < j < rest.len() implies (#[trigger] rest[i]).name@ != (
        #[trigger] rest[j]).name@ by {
            assert(ls[i].name@ != ls[j].name@);
        }
        let before = law_which_looks_are_reported(m, rest);
        let l = ls.last();
        assert forall|i: int| 0 <= i < rest.len() implies (#[trigger] rest[i]).name@ != l.name@ by {
            assert(ls[i].name@ != ls[n].name@);
        }
        lemma_others_are_untouched(m, rest, l.name@);
        assert(!before.contains(n));
        if fires(m, l) {
            let at = before.push(n);
            assert forall|k: int| 0 <= k < ls.len() implies (at.contains(k) <==> evidence(
                #[trigger] ls[k],
            ) is Some && (!m.dom().contains(ls[k].name@) || m[ls[k].name@])) by {
                lemma_pushed(before, n, k);
            }
            at
        } else {
            before
        }
    }
}

/// One more look of a round is judged by what is known after those before it.
pub proof fn law_one_more_look(m: Latches, ls: Seq<PaneLook>, l: PaneLook)
    ensures
        reported(m, Seq::empty()).len() == 0,
        after_looks(m, Seq::empty()) == m,
        ({
            let before = after_looks(m, ls);
            let is_armed = !before.dom().contains(l.name@) || before[l.name@];
            &&& reported(m, ls.push(l)) == (if evidence(l) is Some && is_armed {
                reported(m, ls).push(l)
            } else {
                reported(m, ls)
            })
            &&& after_looks(m, ls.push(l)) == (if l.backend == Some(Backend::Codex) {
                before.insert(l.name@, evidence(l) is None)
            } else {
                before
            })
        }),
{
    assert(ls.push(l).drop_last() =~= ls);
}

/// What is known of the agents that are still there is kept, and nothing else.
pub proof fn law_live_agents_are_remembered(m: Latches, live: Seq<Seq<char>>, name: Seq<char>)
    ensures
        kept(m, is_live(live)).dom().contains(name) <==> m.dom().contains(name) && live.contains(
            name,
        ),
        kept(m, is_live(live)).dom().contains(name) ==> kept(m, is_live(live))[name] == m[name],
{
}

} // verus!
