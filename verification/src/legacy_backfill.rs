//! Closing the tasks of a board that merged pull requests have finished: each open
//! task is scored against each merged pull request, and the best one closes the
//! task, proposes to close it, or does nothing.
use vstd::prelude::*;
use crate::dates::{is_later, later, moment_of, parse_date, Moment};
use crate::json::{member, member_number, member_string, null_value, number_member, read_items, read_member, read_null, string_member, array_items, opt_views};
use crate::markup::{strip_html_comments, uncommented};
use crate::patterns::{escape_pattern, escaped, found, is_found, matches_pattern, pattern_match};
use crate::positions::lemma_pushed;
use crate::ratio::{hundredths, is_less, lemma_less_from_at_most, less, share_text, two_decimals, Ratio};
use crate::text::{ascii_lower, decimal, opt_copy, opt_view, same, u64_text, views};
use crate::titles::{numbers_differ, overlap, title_overlap, vague, words};

verus! {

/// How many pull requests one request lists.
pub const PR_LIST_LIMIT: u32 = 100;

/// What to do about a task.
#[derive(Debug, Clone, Copy, PartialEq, Eq, Structural)]
pub enum Tier {
    AutoApply,
    Propose,
    Silent,
}

/// What the backfill reads of a task.
pub struct Task {
    pub id: String,
    pub title: String,
    pub status: String,
    pub created_at: String,
}

/// What the backfill reads of a pull request.
pub struct PrMeta {
    pub number: u64,
    pub state: String,
    pub merged: bool,
    pub merge_commit_sha: Option<String>,
    pub merged_at: Option<String>,
    pub body: String,
    pub title: String,
    pub head_branch: String,
    pub api_response_hash: String,
}

/// What one signal adds to a score.
pub struct SubScore {
    pub name: String,
    pub value: Ratio,
}

/// A score: the sum of its parts, how many there are, and each by its name, in the
/// order of the names.
pub struct ConfidenceScore {
    pub total: Ratio,
    pub signal_count: u32,
    pub sub_scores: Vec<SubScore>,
}

/// The fraction of two numbers.
pub open spec fn ratio(num: nat, den: nat) -> Ratio {
    Ratio { num: num as u128, den: den as u128 }
}

/// The parts of a score as names and values.
pub open spec fn parts(v: Seq<SubScore>) -> Seq<(Seq<char>, Ratio)> {
    v.map_values(|s: SubScore| (s.name@, s.value))
}

/// The part of the branch name: the full task id, or else the words that the two
/// titles share.
pub open spec fn branch_part(exact: bool, shared: Option<(nat, nat)>) -> Option<(Seq<char>, nat, nat)> {
    if exact {
        Some(("branch_exact"@, 3, 5))
    } else {
        match shared {
            Some(p) => Some(("branch_jaccard"@, 2 * p.0, 5 * p.1)),
            None => None,
        }
    }
}

/// The parts of the score of a task and a pull request: the full task id in the
/// branch, else the share of common words; and the marker in the body.
pub open spec fn scored_parts(exact: bool, shared: Option<(nat, nat)>, closes: bool) -> Seq<
    (Seq<char>, Ratio),
> {
    let branch = match branch_part(exact, shared) {
        Some(p) => seq![(p.0, ratio(p.1, p.2))],
        None => Seq::empty(),
    };
    if closes {
        branch.push(("closes_marker"@, ratio(2, 5)))
    } else {
        branch
    }
}

/// The sum of the parts of a score.
pub open spec fn scored_total(exact: bool, shared: Option<(nat, nat)>, closes: bool) -> Ratio {
    let (num, den) = match branch_part(exact, shared) {
        Some(p) => (p.1, p.2),
        None => (0, 5),
    };
    if closes {
        ratio(num + den * 2 / 5, den)
    } else {
        ratio(num, den)
    }
}

impl ConfidenceScore {
    /// The score of these signals.
    pub open spec fn counts(&self, exact: bool, shared: Option<(nat, nat)>, closes: bool) -> bool {
        &&& self.total == scored_total(exact, shared, closes)
        &&& self.signal_count == scored_parts(exact, shared, closes).len()
        &&& parts(self.sub_scores@) == scored_parts(exact, shared, closes)
    }

    /// The sum is a share: at most one.
    pub open spec fn is_share(&self) -> bool {
        share(self.total)
    }
}

/// A fraction of at most one, small enough to be written in decimals.
pub open spec fn share(r: Ratio) -> bool {
    &&& 0 < r.den <= u128::MAX / 400
    &&& r.num <= r.den
}

/// The pattern of a task's id as a word of its own.
pub open spec fn branch_pattern(task_id: Seq<char>) -> Seq<char> {
    "\\b"@ + escaped(task_id) + "\\b"@
}

/// The pattern of the marker that says that a pull request closes a task.
pub open spec fn closes_pattern(task_id: Seq<char>) -> Seq<char> {
    "(?m)Closes\\s+"@ + escaped(task_id) + "\\b"@
}

/// The branch name holds the full task id.
pub open spec fn branch_names(branch: Seq<char>, task_id: Seq<char>) -> bool {
    found(pattern_match(branch_pattern(task_id), branch))
}

/// The body says, outside comments, that the pull request closes the task.
pub open spec fn body_closes(body: Seq<char>, task_id: Seq<char>) -> bool {
    found(pattern_match(closes_pattern(task_id), uncommented(body, 0)))
}

/// Whether the branch name holds the full task id.
pub fn branch_has_exact_task_id(branch: &str, task_id: &str) -> (r: bool)
    ensures
        r == branch_names(branch@, task_id@),
{
    let mut pattern = String::from_str("\\b");
    pattern.append(escape_pattern(task_id).as_str());
    pattern.append("\\b");
    is_found(matches_pattern(pattern.as_str(), branch))
}

/// Whether the body says, outside comments, that the pull request closes the task.
pub fn body_has_closes_marker(body: &str, task_id: &str) -> (r: bool)
    ensures
        r == body_closes(body@, task_id@),
{
    let sanitised = strip_html_comments(body);
    let mut pattern = String::from_str("(?m)Closes\\s+");
    pattern.append(escape_pattern(task_id).as_str());
    pattern.append("\\b");
    is_found(matches_pattern(pattern.as_str(), sanitised.as_str()))
}

/// The score of a task and a pull request, given whether the branch names the task
/// and whether the body closes it.
pub fn score_signals(exact: bool, task_title: &str, pr_title: &str, closes: bool) -> (r: ConfidenceScore)
    ensures
        r.counts(exact, overlap(task_title@, pr_title@), closes),
        r.is_share(),
{
    let ghost shared = overlap(task_title@, pr_title@);
    let mut sub: Vec<SubScore> = Vec::new();
    let mut num: u128 = 0;
    let mut fifth: u128 = 1;
    let mut signals: u32 = 0;
    if exact {
        sub.push(SubScore { name: String::from_str("branch_exact"), value: Ratio { num: 3, den: 5 } });
        num = 3;
        signals = 1;
    } else {
        match title_overlap(task_title, pr_title) {
            Some(p) => {
                num = 2 * p.0 as u128;
                fifth = p.1;
                sub.push(
                    SubScore {
                        name: String::from_str("branch_jaccard"),
                        value: Ratio { num: num, den: 5 * fifth },
                    },
                );
                signals = 1;
            },
            None => {},
        }
    }
    assert(parts(sub@) =~= scored_parts(exact, shared, false));
    let mut total = Ratio { num: num, den: 5 * fifth };
    if closes {
        sub.push(SubScore { name: String::from_str("closes_marker"), value: Ratio { num: 2, den: 5 } });
        total = Ratio { num: num + 2 * fifth, den: 5 * fifth };
        signals = signals + 1;
        assert(parts(sub@) =~= scored_parts(exact, shared, true));
    }
    ConfidenceScore { total: total, signal_count: signals, sub_scores: sub }
}

/// The score of a task and a pull request.
pub fn score_pair(task: &Task, pr: &PrMeta) -> (r: ConfidenceScore)
    ensures
        r.counts(
            branch_names(pr.head_branch@, task.id@),
            overlap(task.title@, pr.title@),
            body_closes(pr.body@, task.id@),
        ),
        r.is_share(),
{
    let exact: bool = branch_has_exact_task_id(pr.head_branch.as_str(), task.id.as_str());
    let closes: bool = body_has_closes_marker(pr.body.as_str(), task.id.as_str());
    score_signals(exact, task.title.as_str(), pr.title.as_str(), closes)
}

/// What a score calls for: closing takes four fifths from two signals or more, a
/// proposal two fifths.
pub open spec fn tier_of(total: Ratio, signals: nat) -> Tier {
    if !less(total, ratio(4, 5)) && signals >= 2 {
        Tier::AutoApply
    } else if !less(total, ratio(2, 5)) {
        Tier::Propose
    } else {
        Tier::Silent
    }
}

/// What a score calls for.
pub fn classify(scores: &ConfidenceScore) -> (r: Tier)
    requires
        scores.total.den > 0,
    ensures
        r == tier_of(scores.total, scores.signal_count as nat),
{
    if !is_less(scores.total, Ratio { num: 4, den: 5 }) && scores.signal_count >= 2 {
        return Tier::AutoApply;
    }
    if !is_less(scores.total, Ratio { num: 2, den: 5 }) {
        return Tier::Propose;
    }
    Tier::Silent
}

/// What a score calls for where another one may be as high: a tie is never closed,
/// only proposed.
pub open spec fn tier_among(total: Ratio, signals: nat, tied: bool) -> Tier {
    if tied && tier_of(total, signals) == Tier::AutoApply {
        Tier::Propose
    } else {
        tier_of(total, signals)
    }
}

/// The task was created after the pull request was merged.
pub open spec fn came_later(created: Option<Moment>, merged: Option<Moment>) -> bool {
    match (created, merged) {
        (Some(c), Some(m)) => later(c, m),
        _ => false,
    }
}

/// Whether a task was created after a pull request was merged.
pub fn is_reversed(created: Option<Moment>, merged: Option<Moment>) -> (r: bool)
    ensures
        r == came_later(created, merged),
{
    match (created, merged) {
        (Some(c), Some(m)) => is_later(c, m),
        _ => false,
    }
}

/// The moment of an optional date.
pub open spec fn opt_moment(date: Option<String>) -> Option<Moment> {
    match date {
        Some(d) => moment_of(d@),
        None => None,
    }
}

impl PrMeta {
    /// When the pull request was merged, where it says so.
    pub fn merged_at_dt(&self) -> (r: Option<Moment>)
        ensures
            r == opt_moment(self.merged_at),
    {
        match &self.merged_at {
            Some(d) => parse_date(d.as_str()),
            None => None,
        }
    }
}

/// The total of a pair.
pub open spec fn pair_total(task: Task, pr: PrMeta) -> Ratio {
    scored_total(
        branch_names(pr.head_branch@, task.id@),
        overlap(task.title@, pr.title@),
        body_closes(pr.body@, task.id@),
    )
}

/// The parts of the score of a pair.
pub open spec fn pair_parts(task: Task, pr: PrMeta) -> Seq<(Seq<char>, Ratio)> {
    scored_parts(
        branch_names(pr.head_branch@, task.id@),
        overlap(task.title@, pr.title@),
        body_closes(pr.body@, task.id@),
    )
}

/// The pull request can have finished the task: it was merged, not before the task
/// was created, and some signal connects the two.
pub open spec fn eligible(task: Task, pr: PrMeta) -> bool {
    &&& pr.merged
    &&& !came_later(moment_of(task.created_at@), opt_moment(pr.merged_at))
    &&& pair_parts(task, pr).len() > 0
}

/// The totals of the pull requests that can have finished the task.
pub open spec fn pair_totals(task: Task, prs: Seq<PrMeta>) -> Seq<Option<Ratio>> {
    Seq::new(
        prs.len(),
        |i: int|
            if eligible(task, prs[i]) {
                Some(pair_total(task, prs[i]))
            } else {
                None
            },
    )
}

/// The totals of a list of scores.
pub open spec fn totals(scores: Seq<Option<ConfidenceScore>>) -> Seq<Option<Ratio>> {
    scores.map_values(
        |s: Option<ConfidenceScore>|
            match s {
                Some(c) => Some(c.total),
                None => None,
            },
    )
}

/// Position `i` holds the first of the highest totals.
pub open spec fn is_best(t: Seq<Option<Ratio>>, i: int) -> bool {
    &&& 0 <= i < t.len()
    &&& t[i] is Some
    &&& forall|j: int|
        #![trigger t[j]]
        0 <= j < t.len() && t[j] is Some ==> !less(t[i]->0, t[j]->0) && (j < i ==> less(
            t[j]->0,
            t[i]->0,
        ))
}

/// Another position holds a total as high as that at `i`.
pub open spec fn is_tied(t: Seq<Option<Ratio>>, i: int) -> bool {
    exists|j: int|
        #![trigger t[j]]
        0 <= j < t.len() && j != i && t[j] is Some && !less(t[j]->0, t[i]->0)
}

/// The first of the highest scores, and whether another is as high.
pub fn pick_best(scores: &Vec<Option<ConfidenceScore>>) -> (r: Option<(usize, bool)>)
    requires
        forall|i: int|
            #![trigger scores@[i]]
            0 <= i < scores@.len() && scores@[i] is Some ==> (scores@[i]->0).total.den > 0,
    ensures
        match r {
            Some(p) => is_best(totals(scores@), p.0 as int) && p.1 == is_tied(totals(scores@), p.0 as int),
            None => forall|i: int| 0 <= i < scores@.len() ==> scores@[i] is None,
        },
{
    let ghost t = totals(scores@);
    let mut best: Option<(usize, bool)> = None;
    let mut i: usize = 0;
    while i < scores.len()
        invariant
            t == totals(scores@),
            i <= scores@.len(),
            forall|j: int|
                #![trigger scores@[j]]
                0 <= j < scores@.len() && scores@[j] is Some ==> (scores@[j]->0).total.den > 0,
            match best {
                Some(p) => is_best(t.take(i as int), p.0 as int) && p.1 == is_tied(
                    t.take(i as int),
                    p.0 as int,
                ),
                None => forall|j: int| 0 <= j < i ==> scores@[j] is None,
            },
        decreases scores@.len() - i,
    {
        let ghost before = t.take(i as int);
        let ghost after = t.take(i + 1);
        assert(forall|j: int| 0 <= j < i ==> #[trigger] after[j] == before[j]);
        assert(after[i as int] == t[i as int]);
        match &scores[i] {
            None => {
                proof {
                    if let Some(p) = best {
                        if is_tied(before, p.0 as int) {
                            let j = choose|j: int|
                                #![trigger before[j]]
                                0 <= j < before.len() && j != p.0 && before[j] is Some && !less(
                                    before[j]->0,
                                    before[p.0 as int]->0,
                                );
                            assert(after[j] is Some);
                        }
                        if is_tied(after, p.0 as int) {
                            let j = choose|j: int|
                                #![trigger after[j]]
                                0 <= j < after.len() && j != p.0 && after[j] is Some && !less(
                                    after[j]->0,
                                    after[p.0 as int]->0,
                                );
                            assert(before[j] is Some);
                        }
                    }
                }
            },
            Some(s) => match best {
                None => {
                    best = Some((i, false));
                    assert(forall|j: int| 0 <= j < i ==> #[trigger] after[j] is None) by {
                        assert forall|j: int| 0 <= j < i implies #[trigger] after[j] is None by {
                            assert(scores@[j] is None);
                        }
                    }
                },
                Some(p) => {
                    match &scores[p.0] {
                        Some(b) => {
                            let higher: bool = is_less(b.total, s.total);
                            let lower: bool = is_less(s.total, b.total);
                            proof {
                                lemma_one_more(before, after, p.0 as int, p.1, scores@);
                            }
                            if higher {
                                best = Some((i, false));
                            } else if !lower {
                                best = Some((p.0, true));
                            }
                        },
                        None => {},
                    }
                },
            },
        }
        i = i + 1;
    }
    assert(t.take(i as int) =~= t);
    best
}

/// What one more total does to the best one so far.
proof fn lemma_one_more(
    before: Seq<Option<Ratio>>,
    after: Seq<Option<Ratio>>,
    p: int,
    tied: bool,
    scores: Seq<Option<ConfidenceScore>>,
)
    requires
        before.len() + 1 == after.len(),
        after.len() <= scores.len(),
        after == totals(scores).take(after.len() as int),
        forall|j: int| 0 <= j < before.len() ==> #[trigger] after[j] == before[j],
        after.last() is Some,
        is_best(before, p),
        tied == is_tied(before, p),
        forall|j: int|
            #![trigger scores[j]]
            0 <= j < scores.len() && scores[j] is Some ==> (scores[j]->0).total.den > 0,
    ensures
        ({
            let old_best = before[p]->0;
            let new = after.last()->0;
            if less(old_best, new) {
                is_best(after, before.len() as int) && !is_tied(after, before.len() as int)
            } else {
                is_best(after, p) && is_tied(after, p) == (tied || !less(new, old_best))
            }
        }),
{
    let n = before.len() as int;
    let old_best = before[p]->0;
    let new = after.last()->0;
    assert forall|j: int| 0 <= j <= n && #[trigger] after[j] is Some implies (after[j]->0).den > 0 by {
        assert(scores[j] is Some);
    }
    assert(after[p] == before[p]);
    assert(after[n] is Some);
    if less(old_best, new) {
        assert forall|j: int| 0 <= j < n && #[trigger] after[j] is Some implies less(after[j]->0, new) by {
            assert(before[j] is Some);
            lemma_less_from_at_most(after[j]->0, old_best, new);
        }
        assert(!less(new, new));
        assert forall|j: int| 0 <= j < n && #[trigger] after[j] is Some implies !less(new, after[j]->0) by {
            assert(less(after[j]->0, new));
        }
    } else {
        assert forall|j: int|
            #![trigger after[j]]
            0 <= j < after.len() && after[j] is Some implies !less(after[p]->0, after[j]->0) && (j < p
            ==> less(after[j]->0, after[p]->0)) by {
            if j < n {
                assert(before[j] is Some);
            }
        }
        if tied {
            let j = choose|j: int|
                #![trigger before[j]]
                0 <= j < before.len() && j != p && before[j] is Some && !less(before[j]->0, before[p]->0);
            assert(after[j] is Some);
        }
        if is_tied(after, p) && less(new, old_best) {
            let j = choose|j: int|
                #![trigger after[j]]
                0 <= j < after.len() && j != p && after[j] is Some && !less(after[j]->0, after[p]->0);
            assert(j < n);
            assert(before[j] is Some);
        }
    }
}

/// At most one position holds the first of the highest totals.
pub proof fn law_best_is_unique(t: Seq<Option<Ratio>>, i: int, j: int)
    requires
        is_best(t, i),
        is_best(t, j),
    ensures
        i == j,
{
    if i < j {
        assert(t[i] is Some);
        assert(less(t[i]->0, t[j]->0));
    }
    if j < i {
        assert(t[j] is Some);
        assert(less(t[j]->0, t[i]->0));
    }
}

/// One signal never closes a task.
pub proof fn law_one_signal_never_closes(exact: bool, shared: Option<(nat, nat)>, closes: bool, tied: bool)
    requires
        scored_parts(exact, shared, closes).len() <= 1,
    ensures
        tier_among(
            scored_total(exact, shared, closes),
            scored_parts(exact, shared, closes).len(),
            tied,
        ) != Tier::AutoApply,
{
}

/// A tie never closes a task.
pub proof fn law_a_tie_never_closes(total: Ratio, signals: nat)
    ensures
        tier_among(total, signals, true) != Tier::AutoApply,
{
}

/// A vague title, or one with other numbers, adds nothing to a score.
pub proof fn law_vague_titles_add_nothing(title: Seq<char>, other: Seq<char>, closes: bool)
    requires
        vague(title) || numbers_differ(words(ascii_lower(title)), words(ascii_lower(other))),
    ensures
        scored_parts(false, overlap(title, other), closes) == scored_parts(false, None, closes),
        scored_total(false, overlap(title, other), closes) == scored_total(false, None, closes),
{
}

/// The full task id in the branch and the marker in the body together close the
/// task, whatever the titles say.
pub proof fn law_two_signals_close(shared: Option<(nat, nat)>)
    ensures
        scored_parts(true, shared, true).len() == 2,
        scored_total(true, shared, true) == ratio(5, 5),
        tier_of(scored_total(true, shared, true), 2) == Tier::AutoApply,
{
    let whole = ratio(5, 5);
    let least = ratio(4, 5);
    assert(whole.num * least.den >= least.num * whole.den) by (nonlinear_arith)
        requires
            whole.num == 5,
            whole.den == 5,
            least.num == 4,
            least.den == 5,
    ;
}

/// What was found for one task.
pub struct BackfillEntry {
    pub task_id: String,
    pub candidate_pr: Option<u64>,
    pub merge_sha: Option<String>,
    pub confidence: Ratio,
    pub sub_scores: Vec<SubScore>,
    pub signal_count: u32,
    pub tier: Tier,
}

impl BackfillEntry {
    /// The entry of a task whose best pull request is this.
    pub open spec fn pairs(&self, task: Task, pr: PrMeta, tied: bool) -> bool {
        &&& self.task_id@ == task.id@
        &&& self.candidate_pr == Some(pr.number)
        &&& opt_view(self.merge_sha) == opt_view(pr.merge_commit_sha)
        &&& self.confidence == pair_total(task, pr)
        &&& parts(self.sub_scores@) == pair_parts(task, pr)
        &&& self.signal_count == pair_parts(task, pr).len()
        &&& self.tier == tier_among(pair_total(task, pr), pair_parts(task, pr).len(), tied)
        &&& share(self.confidence)
    }

    /// The entry of a task that no pull request can have finished.
    pub open spec fn is_bare(&self, task: Task) -> bool {
        &&& self.task_id@ == task.id@
        &&& self.candidate_pr is None
        &&& self.merge_sha is None
        &&& self.confidence == ratio(0, 1)
        &&& self.sub_scores@.len() == 0
        &&& self.signal_count == 0
        &&& self.tier == Tier::Silent
    }
}

/// The entry names the first of the pull requests with the highest total.
pub open spec fn names_best(e: BackfillEntry, task: Task, prs: Seq<PrMeta>) -> bool {
    exists|i: int| #[trigger]
        is_best(pair_totals(task, prs), i) && e.pairs(
            task,
            prs[i],
            is_tied(pair_totals(task, prs), i),
        )
}

/// No pull request can have finished the task.
pub open spec fn none_eligible(task: Task, prs: Seq<PrMeta>) -> bool {
    forall|i: int| 0 <= i < prs.len() ==> !eligible(task, #[trigger] prs[i])
}

/// The score of a pair where the pull request can have finished the task.
fn score_eligible(task: &Task, pr: &PrMeta) -> (r: Option<ConfidenceScore>)
    ensures
        match r {
            Some(s) => eligible(*task, *pr) && s.is_share() && s.total == pair_total(*task, *pr)
                && s.signal_count == pair_parts(*task, *pr).len() && parts(s.sub_scores@) == pair_parts(
                *task,
                *pr,
            ),
            None => !eligible(*task, *pr),
        },
{
    if !pr.merged {
        return None;
    }
    if is_reversed(parse_date(task.created_at.as_str()), pr.merged_at_dt()) {
        return None;
    }
    let scores = score_pair(task, pr);
    if scores.signal_count == 0 {
        return None;
    }
    Some(scores)
}

fn copy_parts(v: &Vec<SubScore>) -> (r: Vec<SubScore>)
    ensures
        parts(r@) == parts(v@),
{
    let mut r: Vec<SubScore> = Vec::new();
    let mut i: usize = 0;
    while i < v.len()
        invariant
            i <= v@.len(),
            r@.len() == i,
            forall|k: int| 0 <= k < i ==> r@[k].name@ == v@[k].name@ && r@[k].value == v@[k].value,
        decreases v@.len() - i,
    {
        r.push(SubScore { name: v[i].name.clone(), value: v[i].value });
        i = i + 1;
    }
    assert(parts(r@) =~= parts(v@));
    r
}

/// The entry of the best pull request for a task, where one can have finished it.
pub fn best_candidate(task: &Task, prs: &Vec<PrMeta>) -> (r: Option<BackfillEntry>)
    ensures
        match r {
            Some(e) => names_best(e, *task, prs@),
            None => none_eligible(*task, prs@),
        },
{
    let mut scores: Vec<Option<ConfidenceScore>> = Vec::new();
    let mut i: usize = 0;
    while i < prs.len()
        invariant
            i <= prs@.len(),
            scores@.len() == i,
            forall|k: int|
                #![trigger scores@[k]]
                0 <= k < i ==> match scores@[k] {
                    Some(s) => eligible(*task, prs@[k]) && s.is_share() && s.total == pair_total(
                        *task,
                        prs@[k],
                    ) && s.signal_count == pair_parts(*task, prs@[k]).len() && parts(s.sub_scores@)
                        == pair_parts(*task, prs@[k]),
                    None => !eligible(*task, prs@[k]),
                },
        decreases prs@.len() - i,
    {
        scores.push(score_eligible(task, &prs[i]));
        i = i + 1;
    }
    proof {
        let t = totals(scores@);
        let p = pair_totals(*task, prs@);
        assert forall|k: int| 0 <= k < t.len() implies t[k] == p[k] by {
            let s = scores@[k];
        }
        assert(t =~= p);
    }
    match pick_best(&scores) {
        Some((best, tied)) => match &scores[best] {
            Some(s) => {
                let tier = classify(s);
                let tier = if tied && tier == Tier::AutoApply {
                    Tier::Propose
                } else {
                    tier
                };
                let e = BackfillEntry {
                    task_id: task.id.clone(),
                    candidate_pr: Some(prs[best].number),
                    merge_sha: opt_copy(&prs[best].merge_commit_sha),
                    confidence: s.total,
                    sub_scores: copy_parts(&s.sub_scores),
                    signal_count: s.signal_count,
                    tier: tier,
                };
                assert(is_best(pair_totals(*task, prs@), best as int));
                Some(e)
            },
            None => {
                assert(totals(scores@)[best as int] is None);
                None
            },
        },
        None => {
            proof {
                assert forall|k: int| 0 <= k < prs@.len() implies !eligible(*task, #[trigger] prs@[k]) by {
                    assert(scores@[k] is None);
                }
            }
            None
        },
    }
}

/// What a pull request was when it was looked at.
pub struct PrSnapshot {
    pub pr_state: String,
    pub merge_sha: Option<String>,
    pub api_response_hash: String,
    pub captured_at: String,
}

/// A record of the task log.
pub enum TaskEvent {
    Linked { task_id: String, pr_id: u64, sweep_id: String, snapshot: PrSnapshot },
    Done { task_id: String, by: String, sweep_id: String, reasoning: String, snapshot: PrSnapshot },
    TaskCloseProposed {
        task_id: String,
        pr_id: u64,
        merge_sha: String,
        merged_at: String,
        snapshot: PrSnapshot,
        sweep_id: String,
        confidence: ConfidenceScore,
    },
}

/// The first pull request with this number.
pub open spec fn pr_numbered(prs: Seq<PrMeta>, number: u64) -> Option<PrMeta>
    decreases prs.len(),
{
    if prs.len() == 0 {
        None
    } else if pr_numbered(prs.drop_last(), number) is Some {
        pr_numbered(prs.drop_last(), number)
    } else if prs.last().number == number {
        Some(prs.last())
    } else {
        None
    }
}

fn find_pr(prs: &Vec<PrMeta>, number: u64) -> (r: Option<usize>)
    ensures
        match r {
            Some(i) => i < prs@.len() && pr_numbered(prs@, number) == Some(prs@[i as int]),
            None => pr_numbered(prs@, number) is None,
        },
{
    let mut found_at: Option<usize> = None;
    let mut i: usize = 0;
    while i < prs.len()
        invariant
            i <= prs@.len(),
            match found_at {
                Some(k) => k < i && pr_numbered(prs@.take(i as int), number) == Some(prs@[k as int]),
                None => pr_numbered(prs@.take(i as int), number) is None,
            },
        decreases prs@.len() - i,
    {
        assert(prs@.take(i + 1).drop_last() =~= prs@.take(i as int));
        if found_at.is_none() && prs[i].number == number {
            found_at = Some(i);
        }
        i = i + 1;
    }
    assert(prs@.take(i as int) =~= prs@);
    found_at
}

/// The number of an entry's pull request; zero where it has none.
pub open spec fn entry_number(e: BackfillEntry) -> u64 {
    match e.candidate_pr {
        Some(n) => n,
        None => 0,
    }
}

/// The merge of an entry's pull request; empty where it has none.
pub open spec fn entry_sha(e: BackfillEntry) -> Seq<char> {
    match e.merge_sha {
        Some(s) => s@,
        None => Seq::empty(),
    }
}

impl PrSnapshot {
    /// The snapshot of an entry's pull request.
    pub open spec fn shows(&self, e: BackfillEntry, prs: Seq<PrMeta>, now: Seq<char>) -> bool {
        let pr = pr_numbered(prs, entry_number(e));
        &&& self.pr_state@ == match pr {
            Some(p) => p.state@,
            None => "merged"@,
        }
        &&& opt_view(self.merge_sha) == Some(entry_sha(e))
        &&& self.api_response_hash@ == match pr {
            Some(p) => p.api_response_hash@,
            None => "unknown"@,
        }
        &&& self.captured_at@ == now
    }
}

/// When an entry's pull request was merged; now where it does not say.
pub open spec fn entry_merged_at(e: BackfillEntry, prs: Seq<PrMeta>, now: Seq<char>) -> Seq<char> {
    match pr_numbered(prs, entry_number(e)) {
        Some(p) => match p.merged_at {
            Some(d) => d@,
            None => now,
        },
        None => now,
    }
}

fn number_of(e: &BackfillEntry) -> (r: u64)
    ensures
        r == entry_number(*e),
{
    match e.candidate_pr {
        Some(n) => n,
        None => 0,
    }
}

fn sha_of(e: &BackfillEntry) -> (r: String)
    ensures
        r@ == entry_sha(*e),
{
    match &e.merge_sha {
        Some(s) => s.clone(),
        None => String::new(),
    }
}

fn snapshot_of(e: &BackfillEntry, prs: &Vec<PrMeta>, now: &str) -> (r: PrSnapshot)
    ensures
        r.shows(*e, prs@, now@),
{
    let sha = sha_of(e);
    match find_pr(prs, number_of(e)) {
        Some(i) => PrSnapshot {
            pr_state: prs[i].state.clone(),
            merge_sha: Some(sha),
            api_response_hash: prs[i].api_response_hash.clone(),
            captured_at: String::from_str(now),
        },
        None => PrSnapshot {
            pr_state: String::from_str("merged"),
            merge_sha: Some(sha),
            api_response_hash: String::from_str("unknown"),
            captured_at: String::from_str(now),
        },
    }
}

/// Why a task was closed.
pub open spec fn closing_reason(e: BackfillEntry) -> Seq<char> {
    "auto-apply tier (total="@ + two_decimals(hundredths(e.confidence)) + ", signals="@ + decimal(
        e.signal_count as nat,
    ) + ")"@
}

/// The records that close a task: the link to the pull request, and the task done.
pub open spec fn closes_task(
    events: Seq<TaskEvent>,
    e: BackfillEntry,
    sweep_id: Seq<char>,
    prs: Seq<PrMeta>,
    now: Seq<char>,
) -> bool {
    &&& events.len() == 2
    &&& match events[0] {
        TaskEvent::Linked { task_id, pr_id, sweep_id: sweep, snapshot } => {
            &&& task_id@ == e.task_id@
            &&& pr_id == entry_number(e)
            &&& sweep@ == sweep_id
            &&& snapshot.shows(e, prs, now)
        },
        _ => false,
    }
    &&& match events[1] {
        TaskEvent::Done { task_id, by, sweep_id: sweep, reasoning, snapshot } => {
            &&& task_id@ == e.task_id@
            &&& by@ == "system:legacy_backfill"@
            &&& sweep@ == sweep_id
            &&& reasoning@ == closing_reason(e)
            &&& snapshot.shows(e, prs, now)
        },
        _ => false,
    }
}

/// The record that proposes to close a task.
pub open spec fn proposes_task(
    events: Seq<TaskEvent>,
    e: BackfillEntry,
    sweep_id: Seq<char>,
    prs: Seq<PrMeta>,
    now: Seq<char>,
) -> bool {
    &&& events.len() == 1
    &&& match events[0] {
        TaskEvent::TaskCloseProposed {
            task_id,
            pr_id,
            merge_sha,
            merged_at,
            snapshot,
            sweep_id: sweep,
            confidence,
        } => {
            &&& task_id@ == e.task_id@
            &&& pr_id == entry_number(e)
            &&& merge_sha@ == entry_sha(e)
            &&& merged_at@ == entry_merged_at(e, prs, now)
            &&& snapshot.shows(e, prs, now)
            &&& sweep@ == sweep_id
            &&& confidence.total == e.confidence
            &&& confidence.signal_count == e.signal_count
            &&& parts(confidence.sub_scores@) == parts(e.sub_scores@)
        },
        _ => false,
    }
}

/// The records that close a task.
pub fn emit_auto_close(entry: &BackfillEntry, sweep_id: &str, prs: &Vec<PrMeta>, now: &str) -> (r: Vec<
    TaskEvent,
>)
    requires
        share(entry.confidence),
    ensures
        closes_task(r@, *entry, sweep_id@, prs@, now@),
{
    let mut reasoning = String::from_str("auto-apply tier (total=");
    reasoning.append(share_text(entry.confidence).as_str());
    reasoning.append(", signals=");
    reasoning.append(u64_text(entry.signal_count as u64).as_str());
    reasoning.append(")");
    let linked = TaskEvent::Linked {
        task_id: entry.task_id.clone(),
        pr_id: number_of(entry),
        sweep_id: String::from_str(sweep_id),
        snapshot: snapshot_of(entry, prs, now),
    };
    let done = TaskEvent::Done {
        task_id: entry.task_id.clone(),
        by: String::from_str("system:legacy_backfill"),
        sweep_id: String::from_str(sweep_id),
        reasoning: reasoning,
        snapshot: snapshot_of(entry, prs, now),
    };
    let mut r: Vec<TaskEvent> = Vec::new();
    r.push(linked);
    r.push(done);
    r
}

/// The record that proposes to close a task.
pub fn emit_proposal(entry: &BackfillEntry, sweep_id: &str, prs: &Vec<PrMeta>, now: &str) -> (r: Vec<
    TaskEvent,
>)
    ensures
        proposes_task(r@, *entry, sweep_id@, prs@, now@),
{
    let merged_at = match find_pr(prs, number_of(entry)) {
        Some(i) => match &prs[i].merged_at {
            Some(d) => d.clone(),
            None => String::from_str(now),
        },
        None => String::from_str(now),
    };
    let event = TaskEvent::TaskCloseProposed {
        task_id: entry.task_id.clone(),
        pr_id: number_of(entry),
        merge_sha: sha_of(entry),
        merged_at: merged_at,
        snapshot: snapshot_of(entry, prs, now),
        sweep_id: String::from_str(sweep_id),
        confidence: ConfidenceScore {
            total: entry.confidence,
            signal_count: entry.signal_count,
            sub_scores: copy_parts(&entry.sub_scores),
        },
    };
    let mut r: Vec<TaskEvent> = Vec::new();
    r.push(event);
    r
}

/// What a run found.
pub struct BackfillReport {
    pub entries: Vec<BackfillEntry>,
    pub auto_applied: u32,
    pub proposed: u32,
    pub silent: u32,
}

/// What a run found, and the batches of records to write, in order.
pub struct BackfillRun {
    pub report: BackfillReport,
    pub batches: Vec<Vec<TaskEvent>>,
}

/// The status of a task that is not finished.
pub open spec fn is_open(status: Seq<char>) -> bool {
    status == "open"@ || status == "claimed"@ || status == "in_progress"@
}

/// One entry for each open task, in order: the best pull request, or none.
pub open spec fn entries_answer(entries: Seq<BackfillEntry>, tasks: Seq<Task>, prs: Seq<PrMeta>) -> bool
    decreases tasks.len(),
{
    if tasks.len() == 0 {
        entries.len() == 0
    } else if is_open(tasks.last().status@) {
        &&& entries.len() > 0
        &&& if none_eligible(tasks.last(), prs) {
            entries.last().is_bare(tasks.last())
        } else {
            names_best(entries.last(), tasks.last(), prs)
        }
        &&& entries_answer(entries.drop_last(), tasks.drop_last(), prs)
    } else {
        entries_answer(entries, tasks.drop_last(), prs)
    }
}

/// How many entries have this tier.
pub open spec fn tier_count(entries: Seq<BackfillEntry>, tier: Tier) -> nat
    decreases entries.len(),
{
    if entries.len() == 0 {
        0
    } else if entries.last().tier == tier {
        tier_count(entries.drop_last(), tier) + 1
    } else {
        tier_count(entries.drop_last(), tier)
    }
}

/// One batch for each entry that is not silent, in order: a dry run proposes what
/// another run closes.
pub open spec fn batches_answer(
    batches: Seq<Vec<TaskEvent>>,
    entries: Seq<BackfillEntry>,
    dry_run: bool,
    sweep_id: Seq<char>,
    prs: Seq<PrMeta>,
    now: Seq<char>,
) -> bool
    decreases entries.len(),
{
    if entries.len() == 0 {
        batches.len() == 0
    } else if entries.last().tier == Tier::Silent {
        batches_answer(batches, entries.drop_last(), dry_run, sweep_id, prs, now)
    } else {
        &&& batches.len() > 0
        &&& if entries.last().tier == Tier::AutoApply && !dry_run {
            closes_task(batches.last()@, entries.last(), sweep_id, prs, now)
        } else {
            proposes_task(batches.last()@, entries.last(), sweep_id, prs, now)
        }
        &&& batches_answer(batches.drop_last(), entries.drop_last(), dry_run, sweep_id, prs, now)
    }
}

/// The name of a run that begins now.
pub open spec fn sweep_name(now: Seq<char>) -> Seq<char> {
    "legacy-backfill-"@ + now
}

/// Looks for the pull request that finished each open task, and says what to record.
pub fn run(tasks: &Vec<Task>, prs: &Vec<PrMeta>, dry_run: bool, now: &str) -> (r: BackfillRun)
    requires
        tasks@.len() <= u32::MAX,
    ensures
        entries_answer(r.report.entries@, tasks@, prs@),
        r.report.auto_applied == tier_count(r.report.entries@, Tier::AutoApply),
        r.report.proposed == tier_count(r.report.entries@, Tier::Propose),
        r.report.silent == tier_count(r.report.entries@, Tier::Silent),
        batches_answer(r.batches@, r.report.entries@, dry_run, sweep_name(now@), prs@, now@),
{
    let mut sweep = String::from_str("legacy-backfill-");
    sweep.append(now);
    let mut entries: Vec<BackfillEntry> = Vec::new();
    let mut batches: Vec<Vec<TaskEvent>> = Vec::new();
    let mut auto_applied: u32 = 0;
    let mut proposed: u32 = 0;
    let mut silent: u32 = 0;
    let mut i: usize = 0;
    while i < tasks.len()
        invariant
            i <= tasks@.len() <= u32::MAX,
            sweep@ == sweep_name(now@),
            entries_answer(entries@, tasks@.take(i as int), prs@),
            auto_applied + proposed + silent <= i,
            auto_applied == tier_count(entries@, Tier::AutoApply),
            proposed == tier_count(entries@, Tier::Propose),
            silent == tier_count(entries@, Tier::Silent),
            batches_answer(batches@, entries@, dry_run, sweep_name(now@), prs@, now@),
        decreases tasks@.len() - i,
    {
        let task = &tasks[i];
        proof {
            assert(tasks@.take(i + 1).drop_last() =~= tasks@.take(i as int));
        }
        let status = task.status.as_str();
        if same(status, "open") || same(status, "claimed") || same(status, "in_progress") {
            let ghost entries0 = entries@;
            let ghost batches0 = batches@;
            let entry = match best_candidate(task, prs) {
                Some(e) => {
                    proof {
                        let k = choose|k: int| #[trigger]
                            is_best(pair_totals(*task, prs@), k) && e.pairs(
                                *task,
                                prs@[k],
                                is_tied(pair_totals(*task, prs@), k),
                            );
                        assert(eligible(*task, prs@[k]));
                    }
                    e
                },
                None => BackfillEntry {
                    task_id: task.id.clone(),
                    candidate_pr: None,
                    merge_sha: None,
                    confidence: Ratio { num: 0, den: 1 },
                    sub_scores: Vec::new(),
                    signal_count: 0,
                    tier: Tier::Silent,
                },
            };
            match entry.tier {
                Tier::AutoApply => {
                    auto_applied = auto_applied + 1;
                    let batch = if dry_run {
                        emit_proposal(&entry, sweep.as_str(), prs, now)
                    } else {
                        emit_auto_close(&entry, sweep.as_str(), prs, now)
                    };
                    batches.push(batch);
                },
                Tier::Propose => {
                    proposed = proposed + 1;
                    batches.push(emit_proposal(&entry, sweep.as_str(), prs, now));
                },
                Tier::Silent => {
                    silent = silent + 1;
                },
            }
            entries.push(entry);
            assert(entries@.drop_last() =~= entries0);
            proof {
                if entries@.last().tier != Tier::Silent {
                    assert(batches@.drop_last() =~= batches0);
                }
            }
        }
        i = i + 1;
    }
    assert(tasks@.take(i as int) =~= tasks@);
    BackfillRun {
        report: BackfillReport {
            entries: entries,
            auto_applied: auto_applied,
            proposed: proposed,
            silent: silent,
        },
        batches: batches,
    }
}

/// A pull request that is not merged, or was merged before the task was created,
/// is never the one that finished it.
pub proof fn law_only_later_merges_are_named(task: Task, prs: Seq<PrMeta>, i: int)
    requires
        is_best(pair_totals(task, prs), i),
    ensures
        prs[i].merged,
        !came_later(moment_of(task.created_at@), opt_moment(prs[i].merged_at)),
{
}

/// A dry run closes nothing: each of its records is a proposal.
pub proof fn law_a_dry_run_only_proposes(
    batches: Seq<Vec<TaskEvent>>,
    entries: Seq<BackfillEntry>,
    sweep_id: Seq<char>,
    prs: Seq<PrMeta>,
    now: Seq<char>,
)
    requires
        batches_answer(batches, entries, true, sweep_id, prs, now),
    ensures
        forall|k: int|
            0 <= k < batches.len() ==> (#[trigger] batches[k])@.len() == 1 && batches[k]@[0] is TaskCloseProposed,
    decreases entries.len(),
{
    if entries.len() > 0 {
        if entries.last().tier == Tier::Silent {
            law_a_dry_run_only_proposes(batches, entries.drop_last(), sweep_id, prs, now);
        } else {
            law_a_dry_run_only_proposes(batches.drop_last(), entries.drop_last(), sweep_id, prs, now);
            assert forall|k: int| 0 <= k < batches.len() implies (#[trigger] batches[k])@.len() == 1
                && batches[k]@[0] is TaskCloseProposed by {
                if k < batches.len() - 1 {
                    assert(batches.drop_last()[k] == batches[k]);
                }
            }
        }
    }
}

/// Every open task is counted once.
pub proof fn law_every_entry_is_counted(entries: Seq<BackfillEntry>)
    ensures
        tier_count(entries, Tier::AutoApply) + tier_count(entries, Tier::Propose) + tier_count(
            entries,
            Tier::Silent,
        ) == entries.len(),
    decreases entries.len(),
{
    if entries.len() > 0 {
        law_every_entry_is_counted(entries.drop_last());
    }
}

/// What a listing says of one pull request.
pub struct PullFields {
    pub number: Option<u64>,
    pub state: Option<String>,
    /// Whether `merged_at` is null; none where it is missing.
    pub merged_at_null: Option<bool>,
    pub merged_at: Option<String>,
    pub merge_commit_sha: Option<String>,
    pub body: Option<String>,
    pub title: Option<String>,
    pub head_ref: Option<String>,
}

/// The text, or an empty one where there is none.
pub open spec fn or_empty(s: Option<Seq<char>>) -> Seq<char> {
    match s {
        Some(t) => t,
        None => Seq::empty(),
    }
}

fn text_or_empty(s: &Option<String>) -> (r: String)
    ensures
        r@ == or_empty(opt_view(*s)),
{
    match s {
        Some(t) => t.clone(),
        None => String::new(),
    }
}

impl PrMeta {
    /// The pull request that a listing describes.
    pub open spec fn lists(
        &self,
        number: u64,
        state: Seq<char>,
        merged: bool,
        merge_commit_sha: Option<Seq<char>>,
        merged_at: Option<Seq<char>>,
        body: Seq<char>,
        title: Seq<char>,
        head_branch: Seq<char>,
        api_response_hash: Seq<char>,
    ) -> bool {
        &&& self.number == number
        &&& self.state@ == state
        &&& self.merged == merged
        &&& opt_view(self.merge_commit_sha) == merge_commit_sha
        &&& opt_view(self.merged_at) == merged_at
        &&& self.body@ == body
        &&& self.title@ == title
        &&& self.head_branch@ == head_branch
        &&& self.api_response_hash@ == api_response_hash
    }
}

/// The pull request of a listing: one without a number or a state is none.
pub fn pr_meta_from(f: &PullFields, api_response_hash: &str) -> (r: Option<PrMeta>)
    ensures
        r is Some <==> f.number is Some && f.state is Some,
        match r {
            Some(m) => m.lists(
                f.number->0,
                (f.state->0)@,
                f.merged_at_null == Some(false),
                opt_view(f.merge_commit_sha),
                opt_view(f.merged_at),
                or_empty(opt_view(f.body)),
                or_empty(opt_view(f.title)),
                or_empty(opt_view(f.head_ref)),
                api_response_hash@,
            ),
            None => true,
        },
{
    match (f.number, &f.state) {
        (Some(number), Some(state)) => {
            let merged: bool = match f.merged_at_null {
                Some(null) => !null,
                None => false,
            };
            Some(
                PrMeta {
                    number: number,
                    state: state.clone(),
                    merged: merged,
                    merge_commit_sha: opt_copy(&f.merge_commit_sha),
                    merged_at: opt_copy(&f.merged_at),
                    body: text_or_empty(&f.body),
                    title: text_or_empty(&f.title),
                    head_branch: text_or_empty(&f.head_ref),
                    api_response_hash: String::from_str(api_response_hash),
                },
            )
        },
        _ => None,
    }
}

/// Whether a member is null; none where it is missing.
pub open spec fn member_null(json: Seq<char>, name: Seq<char>) -> Option<bool> {
    match member(json, name) {
        Some(m) => null_value(m),
        None => None,
    }
}

/// The branch of a listed pull request.
pub open spec fn listed_branch(json: Seq<char>) -> Option<Seq<char>> {
    match member(json, "head"@) {
        Some(head) => member_string(head, "ref"@),
        None => None,
    }
}

/// Whether an item of a listing describes a pull request.
pub open spec fn is_pull(json: Seq<char>) -> bool {
    member_number(json, "number"@) is Some && member_string(json, "state"@) is Some
}

/// The pull request is the one that an item of a listing describes.
pub open spec fn describes(m: PrMeta, json: Seq<char>, hash: Seq<char>) -> bool {
    m.lists(
        member_number(json, "number"@)->0,
        member_string(json, "state"@)->0,
        member_null(json, "merged_at"@) == Some(false),
        member_string(json, "merge_commit_sha"@),
        member_string(json, "merged_at"@),
        or_empty(member_string(json, "body"@)),
        or_empty(member_string(json, "title"@)),
        or_empty(listed_branch(json)),
        hash,
    )
}

/// The pull request that an item of a listing describes.
pub fn parse_pr_meta(json: &str, api_response_hash: &str) -> (r: Option<PrMeta>)
    ensures
        r is Some <==> is_pull(json@),
        match r {
            Some(m) => describes(m, json@, api_response_hash@),
            None => true,
        },
{
    let merged_at_null = match read_member(json, "merged_at") {
        Some(m) => read_null(m.as_str()),
        None => None,
    };
    let head_ref = match read_member(json, "head") {
        Some(head) => string_member(head.as_str(), "ref"),
        None => None,
    };
    let f = PullFields {
        number: number_member(json, "number"),
        state: string_member(json, "state"),
        merged_at_null: merged_at_null,
        merged_at: string_member(json, "merged_at"),
        merge_commit_sha: string_member(json, "merge_commit_sha"),
        body: string_member(json, "body"),
        title: string_member(json, "title"),
        head_ref: head_ref,
    };
    pr_meta_from(&f, api_response_hash)
}

/// The items of a listing, each as JSON; none where the listing is no JSON array.
pub fn listed_items(body: &str) -> (r: Option<Vec<String>>)
    ensures
        opt_views(r) == array_items(body@),
{
    read_items(body)
}

/// The positions of the items that describe a pull request, in order.
pub open spec fn pulls_among(items: Seq<Seq<char>>) -> Seq<int>
    decreases items.len(),
{
    if items.len() == 0 {
        Seq::empty()
    } else if is_pull(items.last()) {
        pulls_among(items.drop_last()).push(items.len() - 1)
    } else {
        pulls_among(items.drop_last())
    }
}

/// The pull requests that the items of a listing describe, in order; `hashes` are
/// those of the items. An item that describes none is passed over.
pub fn listed_prs(items: &Vec<String>, hashes: &Vec<String>) -> (r: Vec<PrMeta>)
    requires
        hashes@.len() == items@.len(),
    ensures
        r@.len() == pulls_among(views(items@)).len(),
        forall|i: int|
            0 <= i < r@.len() ==> describes(
                #[trigger] r@[i],
                items@[pulls_among(views(items@))[i]]@,
                hashes@[pulls_among(views(items@))[i]]@,
            ),
{
    let ghost all = views(items@);
    let mut r: Vec<PrMeta> = Vec::new();
    let mut i: usize = 0;
    assert(all.take(0) =~= Seq::<Seq<char>>::empty());
    while i < items.len()
        invariant
            all == views(items@),
            hashes@.len() == items@.len(),
            i <= items@.len(),
            r@.len() == pulls_among(all.take(i as int)).len(),
            forall|k: int|
                0 <= k < r@.len() ==> describes(
                    #[trigger] r@[k],
                    items@[pulls_among(all.take(i as int))[k]]@,
                    hashes@[pulls_among(all.take(i as int))[k]]@,
                ),
        decreases items@.len() - i,
    {
        assert(all.take(i + 1).drop_last() =~= all.take(i as int));
        assert(all.take(i + 1).last() == items@[i as int]@);
        if let Some(m) = parse_pr_meta(items[i].as_str(), hashes[i].as_str()) {
            r.push(m);
        }
        i = i + 1;
    }
    assert(all.take(i as int) =~= all);
    r
}

/// The address that lists the closed pull requests of a repository.
pub fn pulls_url(repo: &str) -> (r: String)
    ensures
        r@ == "https://api.github.com/repos/"@ + repo@
            + "/pulls?state=closed&sort=updated&direction=desc&per_page="@ + decimal(
            PR_LIST_LIMIT as nat,
        ),
{
    let mut r = String::from_str("https://api.github.com/repos/");
    r.append(repo);
    r.append("/pulls?state=closed&sort=updated&direction=desc&per_page=");
    r.append(u64_text(PR_LIST_LIMIT as u64).as_str());
    r
}

// ---------------------------------------------------------------------------
// What a run answers
// ---------------------------------------------------------------------------

/// A run answers exactly the tasks whose status is "open", "claimed" or "in_progress":
/// each of them with one entry, in order and under its id. A task of any other status has
/// none. The law gives the places of the tasks.
pub proof fn law_only_unfinished_tasks_are_answered(
    entries: Seq<BackfillEntry>,
    tasks: Seq<Task>,
    prs: Seq<PrMeta>,
) -> (at: Seq<int>)
    requires
        entries_answer(entries, tasks, prs),
    ensures
        at.len() == entries.len(),
        forall|i: int, j: int| 0 <= i < j < at.len() ==> #[trigger] at[i] < #[trigger] at[j],
        forall|i: int|
            0 <= i < at.len() ==> ({
                &&& 0 <= #[trigger] at[i] < tasks.len()
                &&& entries[i].task_id@ == tasks[at[i]].id@
                &&& if forall|k: int| 0 <= k < prs.len() ==> !eligible(tasks[at[i]], #[trigger] prs[k]) {
                    entries[i].is_bare(tasks[at[i]])
                } else {
                    names_best(entries[i], tasks[at[i]], prs)
                }
            }),
        forall|k: int|
            0 <= k < tasks.len() ==> (at.contains(k) <==> {
                ||| (#[trigger] tasks[k]).status@ == "open"@
                ||| tasks[k].status@ == "claimed"@
                ||| tasks[k].status@ == "in_progress"@
            }),
    decreases tasks.len(),
{
    if tasks.len() == 0 {
        Seq::empty()
    } else {
        let rest = tasks.drop_last();
        let n = tasks.len() - 1;
        assert(forall|k: int| 0 <= k < n ==> rest[k] == #[trigger] tasks[k]);
        let status = tasks.last().status@;
        if status == "open"@ || status == "claimed"@ || status == "in_progress"@ {
            let earlier = entries.drop_last();
            let before = law_only_unfinished_tasks_are_answered(earlier, rest, prs);
            let at = before.push(n);
            assert(!before.contains(n));
            assert forall|k: int| 0 <= k < tasks.len() implies (at.contains(k) <==> ((
            #[trigger] tasks[k]).status@ == "open"@ || tasks[k].status@ == "claimed"@
                || tasks[k].status@ == "in_progress"@)) by {
                lemma_pushed(before, n, k);
            }
            assert forall|i: int| 0 <= i < at.len() implies 0 <= #[trigger] at[i] < tasks.len()
                && entries[i].task_id@ == tasks[at[i]].id@ && (if forall|k: int|
                0 <= k < prs.len() ==> !eligible(tasks[at[i]], #[trigger] prs[k]) {
                entries[i].is_bare(tasks[at[i]])
            } else {
                names_best(entries[i], tasks[at[i]], prs)
            }) by {
                if i < before.len() {
                    assert(before[i] == at[i]);
                    assert(earlier[i] == entries[i]);
                }
            }
            at
        } else {
            let before = law_only_unfinished_tasks_are_answered(entries, rest, prs);
            assert(!before.contains(n));
            before
        }
    }
}

/// A run writes one batch of records for each entry that is not silent, in order: the
/// records that close its task where the entry says so and the run is not a dry one, and
/// otherwise the record that proposes to close it. The law gives the places of the entries.
pub proof fn law_each_verdict_is_recorded(
    batches: Seq<Vec<TaskEvent>>,
    entries: Seq<BackfillEntry>,
    dry_run: bool,
    sweep_id: Seq<char>,
    prs: Seq<PrMeta>,
    now: Seq<char>,
) -> (at: Seq<int>)
    requires
        batches_answer(batches, entries, dry_run, sweep_id, prs, now),
    ensures
        at.len() == batches.len(),
        forall|i: int, j: int| 0 <= i < j < at.len() ==> #[trigger] at[i] < #[trigger] at[j],
        forall|i: int|
            0 <= i < at.len() ==> ({
                &&& 0 <= #[trigger] at[i] < entries.len()
                &&& entries[at[i]].tier == Tier::AutoApply && !dry_run ==> closes_task(
                    batches[i]@,
                    entries[at[i]],
                    sweep_id,
                    prs,
                    now,
                )
                &&& entries[at[i]].tier == Tier::Propose || dry_run ==> proposes_task(
                    batches[i]@,
                    entries[at[i]],
                    sweep_id,
                    prs,
                    now,
                )
            }),
        forall|k: int|
            0 <= k < entries.len() ==> (at.contains(k) <==> (#[trigger] entries[k]).tier
                == Tier::AutoApply || entries[k].tier == Tier::Propose),
    decreases entries.len(),
{
    if entries.len() == 0 {
        Seq::empty()
    } else {
        let rest = entries.drop_last();
        let n = entries.len() - 1;
        assert(forall|k: int| 0 <= k < n ==> rest[k] == #[trigger] entries[k]);
        if entries.last().tier == Tier::AutoApply || entries.last().tier == Tier::Propose {
            let earlier = batches.drop_last();
            let before = law_each_verdict_is_recorded(earlier, rest, dry_run, sweep_id, prs, now);
            let at = before.push(n);
            assert(!before.contains(n));
            assert forall|k: int| 0 <= k < entries.len() implies (at.contains(k) <==> ((
            #[trigger] entries[k]).tier == Tier::AutoApply || entries[k].tier == Tier::Propose)) by {
                lemma_pushed(before, n, k);
            }
            assert forall|i: int| 0 <= i < at.len() implies 0 <= #[trigger] at[i] < entries.len()
                && (entries[at[i]].tier == Tier::AutoApply && !dry_run ==> closes_task(
                batches[i]@,
                entries[at[i]],
                sweep_id,
                prs,
                now,
            )) && (entries[at[i]].tier == Tier::Propose || dry_run ==> proposes_task(
                batches[i]@,
                entries[at[i]],
                sweep_id,
                prs,
                now,
            )) by {
                if i < before.len() {
                    assert(before[i] == at[i]);
                    assert(earlier[i] == batches[i]);
                }
            }
            at
        } else {
            let before = law_each_verdict_is_recorded(batches, rest, dry_run, sweep_id, prs, now);
            assert(!before.contains(n));
            before
        }
    }
}

/// The task that a record is about.
pub open spec fn subject_of(e: TaskEvent) -> Seq<char> {
    match e {
        TaskEvent::Linked { task_id, .. } => task_id@,
        TaskEvent::Done { task_id, .. } => task_id@,
        TaskEvent::TaskCloseProposed { task_id, .. } => task_id@,
    }
}

/// Every record of a run is about a task whose status is "open", "claimed" or
/// "in_progress"; nothing is written about a task of another status, unless one of those
/// has the same id. The law gives the place of such a task.
pub proof fn law_no_finished_task_is_recorded(
    batches: Seq<Vec<TaskEvent>>,
    entries: Seq<BackfillEntry>,
    tasks: Seq<Task>,
    dry_run: bool,
    sweep_id: Seq<char>,
    prs: Seq<PrMeta>,
    now: Seq<char>,
    b: int,
    r: int,
) -> (k: int)
    requires
        entries_answer(entries, tasks, prs),
        batches_answer(batches, entries, dry_run, sweep_id, prs, now),
        0 <= b < batches.len(),
        0 <= r < batches[b]@.len(),
    ensures
        0 <= k < tasks.len(),
        tasks[k].id@ == subject_of(batches[b]@[r]),
        tasks[k].status@ == "open"@ || tasks[k].status@ == "claimed"@ || tasks[k].status@
            == "in_progress"@,
{
    let of_entry = law_each_verdict_is_recorded(batches, entries, dry_run, sweep_id, prs, now);
    let of_task = law_only_unfinished_tasks_are_answered(entries, tasks, prs);
    let e = of_entry[b];
    assert(of_entry.contains(e));
    let k = of_task[e];
    assert(of_task.contains(k));
    k
}

/// The entry of a task names a pull request of the list that was merged, not before the
/// task was created, that some signal connects with the task, and that scores as high as
/// any other such; of those with the same score the first. The law gives its place.
pub proof fn law_an_entry_names_the_best_pull_request(
    e: BackfillEntry,
    task: Task,
    prs: Seq<PrMeta>,
) -> (i: int)
    requires
        names_best(e, task, prs),
    ensures
        0 <= i < prs.len(),
        prs[i].merged,
        moment_of(task.created_at@) is Some && opt_moment(prs[i].merged_at) is Some ==> {
            let created = moment_of(task.created_at@)->0;
            let merged = opt_moment(prs[i].merged_at)->0;
            created.secs < merged.secs || (created.secs == merged.secs && created.nanos
                <= merged.nanos)
        },
        branch_names(prs[i].head_branch@, task.id@) || overlap(task.title@, prs[i].title@) is Some
            || body_closes(prs[i].body@, task.id@),
        forall|j: int|
            0 <= j < prs.len() && eligible(task, #[trigger] prs[j]) ==> !less(
                e.confidence,
                pair_total(task, prs[j]),
            ) && (j < i ==> less(pair_total(task, prs[j]), e.confidence)),
        e.task_id@ == task.id@,
        e.candidate_pr == Some(prs[i].number),
        opt_view(e.merge_sha) == opt_view(prs[i].merge_commit_sha),
        e.confidence == pair_total(task, prs[i]),
        parts(e.sub_scores@) == pair_parts(task, prs[i]),
        e.signal_count == pair_parts(task, prs[i]).len(),
        e.tier == Tier::AutoApply ==> forall|j: int|
            0 <= j < prs.len() && j != i && eligible(task, #[trigger] prs[j]) ==> less(
                pair_total(task, prs[j]),
                e.confidence,
            ),
        (forall|j: int|
            0 <= j < prs.len() && j != i && eligible(task, #[trigger] prs[j]) ==> less(
                pair_total(task, prs[j]),
                e.confidence,
            )) ==> e.tier == tier_of(e.confidence, e.signal_count as nat),
        e.tier == Tier::Silent <==> tier_of(e.confidence, e.signal_count as nat) == Tier::Silent,
{
    let t = pair_totals(task, prs);
    let i = choose|i: int| #[trigger] is_best(t, i) && e.pairs(task, prs[i], is_tied(t, i));
    assert(t[i] == Some(pair_total(task, prs[i])));
    assert forall|j: int| 0 <= j < prs.len() && eligible(task, #[trigger] prs[j]) implies !less(
        e.confidence,
        pair_total(task, prs[j]),
    ) && (j < i ==> less(pair_total(task, prs[j]), e.confidence)) by {
        assert(t[j] == Some(pair_total(task, prs[j])));
    }
    if e.tier == Tier::AutoApply {
        assert forall|j: int| 0 <= j < prs.len() && j != i && eligible(
            task,
            #[trigger] prs[j],
        ) implies less(pair_total(task, prs[j]), e.confidence) by {
            assert(t[j] == Some(pair_total(task, prs[j])));
        }
    }
    if is_tied(t, i) {
        let j = choose|j: int|
            #![trigger t[j]]
            0 <= j < t.len() && j != i && t[j] is Some && !less(t[j]->0, t[i]->0);
        assert(eligible(task, prs[j]));
    }
    i
}

/// Of the pull requests that can have finished a task, one that scores as high as any
/// other and higher than all before it is the best; it is tied exactly where another
/// scores as high.
pub proof fn law_what_the_best_pull_request_is(task: Task, prs: Seq<PrMeta>, i: int)
    requires
        0 <= i < prs.len(),
        eligible(task, prs[i]),
    ensures
        is_best(pair_totals(task, prs), i) <==> forall|j: int|
            0 <= j < prs.len() && eligible(task, #[trigger] prs[j]) ==> !less(
                pair_total(task, prs[i]),
                pair_total(task, prs[j]),
            ) && (j < i ==> less(pair_total(task, prs[j]), pair_total(task, prs[i]))),
        is_tied(pair_totals(task, prs), i) <==> exists|j: int|
            0 <= j < prs.len() && j != i && eligible(task, #[trigger] prs[j]) && !less(
                pair_total(task, prs[j]),
                pair_total(task, prs[i]),
            ),
{
    let t = pair_totals(task, prs);
    assert(t[i] == Some(pair_total(task, prs[i])));
    assert(forall|j: int|
        0 <= j < prs.len() ==> ((#[trigger] t[j]) is Some <==> eligible(task, prs[j])));
    if is_best(t, i) {
        assert forall|j: int| 0 <= j < prs.len() && eligible(task, #[trigger] prs[j]) implies !less(
            pair_total(task, prs[i]),
            pair_total(task, prs[j]),
        ) && (j < i ==> less(pair_total(task, prs[j]), pair_total(task, prs[i]))) by {
            assert(t[j] is Some);
        }
    }
    if forall|j: int|
        0 <= j < prs.len() && eligible(task, #[trigger] prs[j]) ==> !less(
            pair_total(task, prs[i]),
            pair_total(task, prs[j]),
        ) && (j < i ==> less(pair_total(task, prs[j]), pair_total(task, prs[i]))) {
        assert forall|j: int| 0 <= j < t.len() && (#[trigger] t[j]) is Some implies !less(
            t[i]->0,
            t[j]->0,
        ) && (j < i ==> less(t[j]->0, t[i]->0)) by {
            assert(eligible(task, prs[j]));
        }
    }
    if is_tied(t, i) {
        let j = choose|j: int|
            #![trigger t[j]]
            0 <= j < t.len() && j != i && t[j] is Some && !less(t[j]->0, t[i]->0);
        assert(eligible(task, prs[j]));
    }
    if exists|j: int|
        0 <= j < prs.len() && j != i && eligible(task, #[trigger] prs[j]) && !less(
            pair_total(task, prs[j]),
            pair_total(task, prs[i]),
        ) {
        let j = choose|j: int|
            0 <= j < prs.len() && j != i && eligible(task, #[trigger] prs[j]) && !less(
                pair_total(task, prs[j]),
                pair_total(task, prs[i]),
            );
        assert(t[j] is Some);
    }
}

/// A pull request can have finished a task exactly if it was merged, the task was not
/// created after that, and the branch, the titles or the body connect the two. A date that
/// cannot be read rules nothing out.
pub proof fn law_what_can_have_finished_a_task(task: Task, pr: PrMeta)
    ensures
        eligible(task, pr) <==> {
            &&& pr.merged
            &&& !(moment_of(task.created_at@) is Some && opt_moment(pr.merged_at) is Some && later(
                moment_of(task.created_at@)->0,
                opt_moment(pr.merged_at)->0,
            ))
            &&& branch_names(pr.head_branch@, task.id@) || overlap(task.title@, pr.title@) is Some
                || body_closes(pr.body@, task.id@)
        },
        opt_moment(pr.merged_at) == (if pr.merged_at is Some {
            moment_of((pr.merged_at->0)@)
        } else {
            None
        }),
{
}

/// The full id in the branch weighs three fifths, the marker in the body two fifths, and
/// the share of common words two fifths of itself; the words count only where the branch
/// does not name the task. Each signal that is there is one part, under its name.
pub proof fn law_what_the_signals_weigh(exact: bool, shared: Option<(nat, nat)>, closes: bool)
    ensures
        ({
            let total = scored_total(exact, shared, closes);
            let p = scored_parts(exact, shared, closes);
            let titled = !exact && shared is Some;
            let c = (shared->0).0;
            let u = (shared->0).1;
            &&& p.len() == (if exact || titled {
                1int
            } else {
                0
            }) + (if closes {
                1int
            } else {
                0
            })
            &&& exact ==> p[0] == ("branch_exact"@, ratio(3, 5))
            &&& titled ==> p[0] == ("branch_jaccard"@, ratio(2 * c, 5 * u))
            &&& closes ==> p.last() == ("closes_marker"@, ratio(2, 5))
            &&& exact && closes ==> total == ratio(5, 5)
            &&& exact && !closes ==> total == ratio(3, 5)
            &&& titled && closes ==> total == ratio(2 * c + 2 * u, 5 * u)
            &&& titled && !closes ==> total == ratio(2 * c, 5 * u)
            &&& !exact && !titled && closes ==> total == ratio(2, 5)
            &&& !exact && !titled && !closes ==> total == ratio(0, 5)
        }),
{
    if !exact && shared is Some {
        let u = (shared->0).1;
        assert((5 * u) * 2 / 5 == 2 * u) by (nonlinear_arith);
    }
}

/// A fraction is of the two numbers that it is made of.
pub proof fn law_what_a_fraction_is(num: nat, den: nat)
    requires
        num <= u128::MAX,
        den <= u128::MAX,
    ensures
        ratio(num, den).num == num,
        ratio(num, den).den == den,
{
}

/// A score closes a task exactly from four fifths on and with two signals or more, and
/// proposes it exactly from two fifths on where it does not close it. With another score as
/// high it proposes where it would have closed.
pub proof fn law_what_a_score_calls_for(total: Ratio, signals: nat, tied: bool)
    ensures
        tier_of(total, signals) == Tier::AutoApply <==> total.num * 5 >= 4 * total.den && signals
            >= 2,
        tier_of(total, signals) == Tier::Propose <==> total.num * 5 >= 2 * total.den && !(total.num
            * 5 >= 4 * total.den && signals >= 2),
        tier_of(total, signals) == Tier::Silent <==> total.num * 5 < 2 * total.den && !(total.num
            * 5 >= 4 * total.den && signals >= 2),
        tier_among(total, signals, false) == tier_of(total, signals),
        tier_among(total, signals, true) == (if tier_of(total, signals) == Tier::AutoApply {
            Tier::Propose
        } else {
            tier_of(total, signals)
        }),
{
    let (n, d) = (total.num as int, total.den as int);
    assert(ratio(4, 5).num == 4 && ratio(4, 5).den == 5 && ratio(2, 5).num == 2);
    assert(less(total, ratio(4, 5)) == (n * 5 < 4 * d));
    assert(less(total, ratio(2, 5)) == (n * 5 < 2 * d));
}

/// The entry of a task without a pull request names none, scores nothing and is silent.
pub proof fn law_a_bare_entry_says_nothing(e: BackfillEntry, task: Task)
    ensures
        e.is_bare(task) <==> {
            &&& e.task_id@ == task.id@
            &&& e.candidate_pr is None
            &&& e.merge_sha is None
            &&& e.confidence.num == 0
            &&& e.confidence.den == 1
            &&& e.sub_scores@.len() == 0
            &&& e.signal_count == 0
            &&& e.tier == Tier::Silent
        },
{
}

/// Closing a task links it with the pull request of its entry and marks it as done, in this
/// order, both under the name of the run; an entry without one has the number zero.
pub proof fn law_what_closing_records(
    events: Seq<TaskEvent>,
    e: BackfillEntry,
    sweep_id: Seq<char>,
    prs: Seq<PrMeta>,
    now: Seq<char>,
)
    requires
        closes_task(events, e, sweep_id, prs, now),
    ensures
        events.len() == 2,
        events[0] is Linked,
        events[0]->Linked_task_id@ == e.task_id@,
        events[0]->Linked_pr_id == (if e.candidate_pr is Some {
            e.candidate_pr->0
        } else {
            0
        }),
        events[0]->Linked_sweep_id@ == sweep_id,
        events[0]->Linked_snapshot.shows(e, prs, now),
        events[1] is Done,
        events[1]->Done_task_id@ == e.task_id@,
        events[1]->by@ == "system:legacy_backfill"@,
        events[1]->Done_sweep_id@ == sweep_id,
        events[1]->reasoning@ == "auto-apply tier (total="@ + two_decimals(
            hundredths(e.confidence),
        ) + ", signals="@ + decimal(e.signal_count as nat) + ")"@,
        events[1]->Done_snapshot.shows(e, prs, now),
{
}

/// Proposing to close a task is one record: it names the pull request of the entry, its
/// merge and when that was, and carries the whole score.
pub proof fn law_what_a_proposal_records(
    events: Seq<TaskEvent>,
    e: BackfillEntry,
    sweep_id: Seq<char>,
    prs: Seq<PrMeta>,
    now: Seq<char>,
)
    requires
        proposes_task(events, e, sweep_id, prs, now),
    ensures
        events.len() == 1,
        events[0] is TaskCloseProposed,
        events[0]->TaskCloseProposed_task_id@ == e.task_id@,
        events[0]->TaskCloseProposed_pr_id == (if e.candidate_pr is Some {
            e.candidate_pr->0
        } else {
            0
        }),
        events[0]->merge_sha@ == (if e.merge_sha is Some {
            (e.merge_sha->0)@
        } else {
            Seq::empty()
        }),
        events[0]->merged_at@ == (match pr_numbered(prs, events[0]->TaskCloseProposed_pr_id) {
            Some(p) => if p.merged_at is Some {
                (p.merged_at->0)@
            } else {
                now
            },
            None => now,
        }),
        events[0]->TaskCloseProposed_snapshot.shows(e, prs, now),
        events[0]->TaskCloseProposed_sweep_id@ == sweep_id,
        events[0]->confidence.total == e.confidence,
        events[0]->confidence.signal_count == e.signal_count,
        parts(events[0]->confidence.sub_scores@) == parts(e.sub_scores@),
{
}

/// A snapshot shows the pull request with the entry's number as it was listed, the entry's
/// merge and when it was looked at; where none has that number, a merged one.
pub proof fn law_what_a_snapshot_shows(
    s: PrSnapshot,
    e: BackfillEntry,
    prs: Seq<PrMeta>,
    now: Seq<char>,
)
    requires
        s.shows(e, prs, now),
    ensures
        s.captured_at@ == now,
        s.merge_sha is Some,
        (s.merge_sha->0)@ == (if e.merge_sha is Some {
            (e.merge_sha->0)@
        } else {
            Seq::empty()
        }),
        match pr_numbered(
            prs,
            if e.candidate_pr is Some {
                e.candidate_pr->0
            } else {
                0
            },
        ) {
            Some(p) => s.pr_state@ == p.state@ && s.api_response_hash@ == p.api_response_hash@,
            None => s.pr_state@ == "merged"@ && s.api_response_hash@ == "unknown"@,
        },
{
}

/// The pull request with a number is the first of the list that has it.
pub proof fn law_the_first_pull_request_with_a_number(prs: Seq<PrMeta>, number: u64, i: int)
    requires
        0 <= i <= prs.len(),
        forall|j: int| 0 <= j < i ==> (#[trigger] prs[j]).number != number,
    ensures
        i < prs.len() && prs[i].number == number ==> pr_numbered(prs, number) == Some(prs[i]),
        i == prs.len() ==> pr_numbered(prs, number) is None,
    decreases prs.len(),
{
    if prs.len() > 0 {
        let rest = prs.drop_last();
        assert(forall|j: int| 0 <= j < rest.len() ==> rest[j] == #[trigger] prs[j]);
        if i < prs.len() {
            law_the_first_pull_request_with_a_number(rest, number, i);
        } else {
            law_the_first_pull_request_with_a_number(rest, number, i - 1);
        }
    }
}

/// As many entries of a tier are counted as there are, wherever they stand.
pub proof fn law_the_counts_are_the_tiers(entries: Seq<BackfillEntry>, tier: Tier)
    ensures
        tier_count(entries, tier) == entries.filter(|e: BackfillEntry| e.tier == tier).len(),
    decreases entries.len(),
{
    reveal(Seq::filter);
    if entries.len() > 0 {
        law_the_counts_are_the_tiers(entries.drop_last(), tier);
    }
}

/// A run is named after the moment at which it begins.
pub proof fn law_runs_are_named_after_their_beginning(now: Seq<char>)
    ensures
        sweep_name(now) == "legacy-backfill-"@ + now,
{
}

/// The branch is searched for the id as a word of its own, the body for the marker before
/// it, both with what the id holds taken literally.
pub proof fn law_what_is_searched_for(task_id: Seq<char>, text: Seq<char>)
    ensures
        branch_names(text, task_id) == (pattern_match(
            "\\b"@ + escaped(task_id) + "\\b"@,
            text,
        ) == Some(true)),
        body_closes(text, task_id) == (pattern_match(
            "(?m)Closes\\s+"@ + escaped(task_id) + "\\b"@,
            uncommented(text, 0),
        ) == Some(true)),
{
}

/// The items of a listing that describe a pull request are those with a number and a
/// state, in order. The law says so of the places that are listed.
pub proof fn law_the_pull_requests_of_a_listing(items: Seq<Seq<char>>)
    ensures
        ({
            let at = pulls_among(items);
            &&& forall|i: int, j: int| 0 <= i < j < at.len() ==> #[trigger] at[i] < #[trigger] at[j]
            &&& forall|i: int| 0 <= i < at.len() ==> 0 <= #[trigger] at[i] < items.len()
            &&& forall|k: int|
                0 <= k < items.len() ==> (at.contains(k) <==> member_number(
                    #[trigger] items[k],
                    "number"@,
                ) is Some && member_string(items[k], "state"@) is Some)
        }),
    decreases items.len(),
{
    if items.len() > 0 {
        let rest = items.drop_last();
        let n = items.len() - 1;
        law_the_pull_requests_of_a_listing(rest);
        let before = pulls_among(rest);
        assert(forall|k: int| 0 <= k < n ==> rest[k] == #[trigger] items[k]);
        assert(!before.contains(n));
        if is_pull(items.last()) {
            assert forall|k: int| 0 <= k < items.len() implies (pulls_among(items).contains(k)
                <==> member_number(#[trigger] items[k], "number"@) is Some && member_string(
                items[k],
                "state"@,
            ) is Some) by {
                lemma_pushed(before, n, k);
            }
        }
    }
}

/// A listed pull request says what its item says: it was merged exactly if the date of its
/// merge is there and not null, and a text that the item does not have is empty.
pub proof fn law_what_a_listing_says(m: PrMeta, json: Seq<char>, hash: Seq<char>)
    requires
        describes(m, json, hash),
        is_pull(json),
    ensures
        Some(m.number) == member_number(json, "number"@),
        Some(m.state@) == member_string(json, "state"@),
        m.merged <==> member(json, "merged_at"@) is Some && null_value(
            member(json, "merged_at"@)->0,
        ) == Some(false),
        opt_view(m.merge_commit_sha) == member_string(json, "merge_commit_sha"@),
        opt_view(m.merged_at) == member_string(json, "merged_at"@),
        m.body@ == (match member_string(json, "body"@) {
            Some(t) => t,
            None => Seq::empty(),
        }),
        m.title@ == (match member_string(json, "title"@) {
            Some(t) => t,
            None => Seq::empty(),
        }),
        m.head_branch@ == (if member(json, "head"@) is Some && member_string(
            member(json, "head"@)->0,
            "ref"@,
        ) is Some {
            member_string(member(json, "head"@)->0, "ref"@)->0
        } else {
            Seq::empty()
        }),
        m.api_response_hash@ == hash,
{
}

/// A score is the sum, the number and the list of its parts, and at most one.
pub proof fn law_what_a_score_counts(
    s: ConfidenceScore,
    exact: bool,
    shared: Option<(nat, nat)>,
    closes: bool,
)
    ensures
        s.counts(exact, shared, closes) <==> s.total == scored_total(exact, shared, closes)
            && s.signal_count == scored_parts(exact, shared, closes).len() && parts(s.sub_scores@)
            == scored_parts(exact, shared, closes),
        s.is_share() <==> 0 < s.total.den <= u128::MAX / 400 && s.total.num <= s.total.den,
        parts(s.sub_scores@).len() == s.sub_scores@.len(),
        forall|i: int|
            0 <= i < s.sub_scores@.len() ==> (#[trigger] parts(s.sub_scores@)[i]) == (
                s.sub_scores@[i].name@,
                s.sub_scores@[i].value,
            ),
{
}

/// What a score of a task and a pull request is made of are the branch, the two titles and
/// the body.
pub proof fn law_what_a_pair_is_scored_by(task: Task, pr: PrMeta)
    ensures
        pair_total(task, pr) == scored_total(
            branch_names(pr.head_branch@, task.id@),
            overlap(task.title@, pr.title@),
            body_closes(pr.body@, task.id@),
        ),
        pair_parts(task, pr) == scored_parts(
            branch_names(pr.head_branch@, task.id@),
            overlap(task.title@, pr.title@),
            body_closes(pr.body@, task.id@),
        ),
{
}

} // verus!
