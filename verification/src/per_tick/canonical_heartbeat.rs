//! Pages the operator once when a registered source repository disappears.
use crate::cadence::{fresh_gate, ticked, CadenceGate, GateState};
use crate::events::{event, LogEvent};
use crate::per_tick::offload::OffloadGuard;
use crate::positions::lemma_pushed;
use crate::table::{kept, Table};
use crate::text::{list_contains, views};
use vstd::prelude::*;

verus! {

/// What was found at the absolute path of a registered repository.
pub struct RepoLook {
    pub repo: String,
    /// The path exists.
    pub exists: bool,
    /// Git takes it for a repository.
    pub git_ok: bool,
}

/// Why a repository counts as gone, where it does.
pub open spec fn missing_reason(exists: bool, git_ok: bool) -> Option<Seq<char>> {
    if !exists {
        Some("path missing"@)
    } else if !git_ok {
        Some("not a git repo (corrupt/removed .git)"@)
    } else {
        None
    }
}

/// Why a repository counts as gone; nothing where it is healthy.
pub fn canonical_missing_reason(exists: bool, git_ok: bool) -> (r: Option<&'static str>)
    ensures
        match missing_reason(exists, git_ok) {
            Some(t) => r is Some && (r->0)@ == t,
            None => r is None,
        },
{
    if !exists {
        return Some("path missing");
    }
    if !git_ok {
        return Some("not a git repo (corrupt/removed .git)");
    }
    None
}

/// One page.
pub struct Page {
    pub repo: String,
    pub text: String,
}

/// What a page says.
pub open spec fn page_text(repo: Seq<char>, reason: Seq<char>) -> Seq<char> {
    "[canonical-missing] registered source_repo '"@ + repo + "' is GONE ("@ + reason
        + "). Every worktree bound to it is now unusable (dangling gitdir) and agents may silently commit into dead worktrees until it is restored — re-clone/restore the canonical, then repair worktrees."@
}

fn page(repo: &str, reason: &str) -> (p: Page)
    ensures
        p.repo@ == repo@,
        p.text@ == page_text(repo@, reason@),
{
    let mut text = String::from_str("[canonical-missing] registered source_repo '");
    text.append(repo);
    text.append("' is GONE (");
    text.append(reason);
    text.append(
        "). Every worktree bound to it is now unusable (dangling gitdir) and agents may silently commit into dead worktrees until it is restored — re-clone/restore the canonical, then repair worktrees.",
    );
    Page { repo: String::from_str(repo), text }
}

/// The record of a page.
pub fn page_event(p: &Page) -> (e: LogEvent)
    ensures
        e.says("canonical_repo_missing"@, p.repo@, p.text@),
{
    event("canonical_repo_missing", p.repo.as_str(), p.text.as_str())
}

/// The repositories that are known to be gone.
pub type Alerted = Map<Seq<char>, ()>;

/// Why the repository of a look counts as gone.
pub open spec fn look_reason(l: RepoLook) -> Option<Seq<char>> {
    missing_reason(l.exists, l.git_ok)
}

/// What is known after one more look.
pub open spec fn after_look(m: Alerted, l: RepoLook) -> Alerted {
    if look_reason(l) is Some {
        m.insert(l.repo@, ())
    } else {
        m.remove(l.repo@)
    }
}

/// What is known after a run of looks.
pub open spec fn after_looks(m: Alerted, ls: Seq<RepoLook>) -> Alerted
    decreases ls.len(),
{
    if ls.len() == 0 {
        m
    } else {
        after_look(after_looks(m, ls.drop_last()), ls.last())
    }
}

/// The look pages: the repository is gone, and was not known to be.
pub open spec fn pages(m: Alerted, l: RepoLook) -> bool {
    look_reason(l) is Some && !m.dom().contains(l.repo@)
}

/// The looks that page, in order.
pub open spec fn paged(m: Alerted, ls: Seq<RepoLook>) -> Seq<RepoLook>
    decreases ls.len(),
{
    if ls.len() == 0 {
        Seq::empty()
    } else if pages(after_looks(m, ls.drop_last()), ls.last()) {
        paged(m, ls.drop_last()).push(ls.last())
    } else {
        paged(m, ls.drop_last())
    }
}

/// The repositories that were looked at.
pub open spec fn repos(ls: Seq<RepoLook>) -> Seq<Seq<char>> {
    ls.map_values(|l: RepoLook| l.repo@)
}

/// The repositories that are still registered.
pub open spec fn is_registered(names: Seq<Seq<char>>) -> spec_fn(Seq<char>, ()) -> bool {
    |name: Seq<char>, u: ()| names.contains(name)
}

pub struct CanonicalHeartbeatHandler {
    gate: CadenceGate,
    guard: OffloadGuard,
    alerted: Table<String, ()>,
}

impl CanonicalHeartbeatHandler {
    pub closed spec fn gate(&self) -> GateState {
        self.gate@
    }

    /// A round is running.
    pub closed spec fn busy(&self) -> bool {
        self.guard.busy()
    }

    pub closed spec fn alerted(&self) -> Alerted {
        self.alerted@
    }

    pub fn new(every_n_ticks: u64) -> (h: Self)
        ensures
            h.gate() == fresh_gate(every_n_ticks),
            !h.busy(),
            h.alerted() == Alerted::empty(),
    {
        CanonicalHeartbeatHandler {
            gate: CadenceGate::new(every_n_ticks),
            guard: OffloadGuard::new(),
            alerted: Table::new(),
        }
    }

    pub fn name(&self) -> (r: &'static str)
        ensures
            r@ == "canonical_heartbeat"@,
    {
        "canonical_heartbeat"
    }

    /// One tick: whether to begin a round of looks in the background. The tick
    /// itself never waits for one.
    pub fn start(&mut self) -> (r: bool)
        ensures
            exists|due: bool| #[trigger]
                ticked(old(self).gate(), final(self).gate(), due) && r == (due && !old(self).busy())
                    && final(self).busy() == (old(self).busy() || due),
            final(self).alerted() == old(self).alerted(),
    {
        let due: bool = self.gate.fire();
        let r: bool = if due {
            self.guard.begin()
        } else {
            false
        };
        assert(ticked(old(self).gate(), self.gate(), due));
        r
    }

    /// The round is over.
    pub fn finish(&mut self)
        ensures
            !final(self).busy(),
            final(self).gate() == old(self).gate(),
            final(self).alerted() == old(self).alerted(),
    {
        self.guard.finish();
    }

    /// Takes the looks of a round: pages for each repository that has gone since the
    /// last one, and forgets those that are no longer registered.
    pub fn run(&mut self, looks: &Vec<RepoLook>) -> (out: Vec<Page>)
        ensures
            final(self).gate() == old(self).gate(),
            final(self).busy() == old(self).busy(),
            final(self).alerted() == kept(
                after_looks(old(self).alerted(), looks@),
                is_registered(repos(looks@)),
            ),
            ({
                let p = paged(old(self).alerted(), looks@);
                &&& out@.len() == p.len()
                &&& forall|i: int|
                    0 <= i < p.len() ==> (#[trigger] out@[i]).repo@ == p[i].repo@ && out@[i].text@
                        == page_text(p[i].repo@, look_reason(p[i])->0)
            }),
    {
        let ghost m = self.alerted@;
        let mut registered: Vec<String> = Vec::new();
        let mut out: Vec<Page> = Vec::new();
        let mut i: usize = 0;
        assert(looks@.take(0) =~= Seq::<RepoLook>::empty());
        while i < looks.len()
            invariant
                i <= looks@.len(),
                self.gate@ == old(self).gate@,
                self.guard.busy() == old(self).guard.busy(),
                self.alerted@ == after_looks(m, looks@.take(i as int)),
                registered@.len() == i,
                forall|k: int| 0 <= k < i ==> (#[trigger] registered@[k])@ == looks@[k].repo@,
                out@.len() == paged(m, looks@.take(i as int)).len(),
                forall|k: int|
                    0 <= k < out@.len() ==> (#[trigger] out@[k]).repo@ == paged(
                        m,
                        looks@.take(i as int),
                    )[k].repo@ && out@[k].text@ == page_text(
                        paged(m, looks@.take(i as int))[k].repo@,
                        look_reason(paged(m, looks@.take(i as int))[k])->0,
                    ),
            decreases looks@.len() - i,
        {
            let l = &looks[i];
            assert(looks@.take(i + 1).drop_last() =~= looks@.take(i as int));
            assert(looks@.take(i + 1).last() == *l);
            registered.push(l.repo.clone());
            match canonical_missing_reason(l.exists, l.git_ok) {
                None => {
                    self.alerted.remove(&l.repo);
                },
                Some(reason) => {
                    if !self.alerted.contains(&l.repo) {
                        out.push(page(l.repo.as_str(), reason));
                    }
                    self.alerted.insert(l.repo.clone(), ());
                },
            }
            i = i + 1;
        }
        assert(looks@.take(i as int) =~= looks@);
        assert(views(registered@) =~= repos(looks@));
        let keep = |k: &String, u: &()| -> (b: bool)
            ensures
                b == views(registered@).contains(k@),
        {
            list_contains(&registered, k.as_str())
        };
        let _gone: usize = self.alerted.retain(keep, Ghost(is_registered(repos(looks@))));
        out
    }
}

// ---------------------------------------------------------------------------
// Laws
// ---------------------------------------------------------------------------

/// One page for an outage: a repository that stays gone pages once.
pub proof fn law_one_page_per_outage(m: Alerted, a: RepoLook, b: RepoLook)
    requires
        a.repo@ == b.repo@,
        look_reason(a) is Some,
        look_reason(b) is Some,
    ensures
        !pages(after_look(m, a), b),
{
}

/// A repository that came back pages again when it goes.
pub proof fn law_recovery_rearms(m: Alerted, back: RepoLook, gone: RepoLook)
    requires
        back.repo@ == gone.repo@,
        look_reason(back) is None,
        look_reason(gone) is Some,
    ensures
        pages(after_look(m, back), gone),
{
}

/// A healthy repository never pages.
pub proof fn law_healthy_is_silent(m: Alerted, l: RepoLook)
    requires
        l.exists,
        l.git_ok,
    ensures
        !pages(m, l),
{
}

/// A repository counts as gone exactly if its path is missing or Git does not take it for
/// one, and the page says which of the two and names the repository.
pub proof fn law_when_a_repository_is_gone(exists: bool, git_ok: bool, repo: Seq<char>, reason: Seq<char>)
    ensures
        missing_reason(exists, git_ok) is None <==> exists && git_ok,
        !exists ==> missing_reason(exists, git_ok) == Some("path missing"@),
        exists && !git_ok ==> missing_reason(exists, git_ok) == Some(
            "not a git repo (corrupt/removed .git)"@,
        ),
        page_text(repo, reason) == "[canonical-missing] registered source_repo '"@ + repo
            + "' is GONE ("@ + reason
            + "). Every worktree bound to it is now unusable (dangling gitdir) and agents may silently commit into dead worktrees until it is restored — re-clone/restore the canonical, then repair worktrees."@,
{
}

proof fn lemma_others_are_untouched(m: Alerted, ls: Seq<RepoLook>, repo: Seq<char>)
    requires
        forall|i: int| 0 <= i < ls.len() ==> (#[trigger] ls[i]).repo@ != repo,
    ensures
        after_looks(m, ls).dom().contains(repo) == m.dom().contains(repo),
    decreases ls.len(),
{
    if ls.len() > 0 {
        let rest = ls.drop_last();
        assert forall|i: int| 0 <= i < rest.len() implies (#[trigger] rest[i]).repo@ != repo by {
            assert(rest[i] == ls[i]);
        }
        lemma_others_are_untouched(m, rest, repo);
        assert(ls[ls.len() - 1].repo@ != repo);
    }
}

/// Of the repositories of one round exactly those page that are gone and were not known to
/// be, in order. After it exactly the registered ones that are gone are known to be. The
/// law gives the places of those that page.
pub proof fn law_which_repositories_page(m: Alerted, ls: Seq<RepoLook>) -> (at: Seq<int>)
    requires
        forall|i: int, j: int|
            0 <= i < j < ls.len() ==> (#[trigger] ls[i]).repo@ != (#[trigger] ls[j]).repo@,
    ensures
        at.len() == paged(m, ls).len(),
        forall|i: int, j: int| 0 <= i < j < at.len() ==> #[trigger] at[i] < #[trigger] at[j],
        forall|i: int|
            0 <= i < at.len() ==> 0 <= #[trigger] at[i] < ls.len() && paged(m, ls)[i] == ls[at[i]],
        forall|k: int|
            0 <= k < ls.len() ==> (at.contains(k) <==> !((#[trigger] ls[k]).exists && ls[k].git_ok)
                && !m.dom().contains(ls[k].repo@)),
        forall|k: int|
            0 <= k < ls.len() ==> (after_looks(m, ls).dom().contains((#[trigger] ls[k]).repo@)
                <==> !(ls[k].exists && ls[k].git_ok)),
    decreases ls.len(),
{
    if ls.len() == 0 {
        Seq::empty()
    } else {
        let rest = ls.drop_last();
        let n = ls.len() - 1;
        assert(forall|k: int| 0 <= k < n ==> rest[k] == #[trigger] ls[k]);
        assert forall|i: int, j: int| 0 <= i < j < rest.len() implies (#[trigger] rest[i]).repo@ != (
        #[trigger] rest[j]).repo@ by {
            assert(ls[i].repo@ != ls[j].repo@);
        }
        let before = law_which_repositories_page(m, rest);
        let l = ls.last();
        assert forall|i: int| 0 <= i < rest.len() implies (#[trigger] rest[i]).repo@ != l.repo@ by {
            assert(ls[i].repo@ != ls[n].repo@);
        }
        lemma_others_are_untouched(m, rest, l.repo@);
        assert(!before.contains(n));
        assert forall|k: int| 0 <= k < ls.len() implies (after_looks(m, ls).dom().contains(
            (#[trigger] ls[k]).repo@,
        ) <==> !(ls[k].exists && ls[k].git_ok)) by {
            if k < n {
                assert(rest[k].repo@ != l.repo@);
            }
        }
        if !(l.exists && l.git_ok) && !m.dom().contains(l.repo@) {
            let at = before.push(n);
            assert forall|k: int| 0 <= k < ls.len() implies (at.contains(k) <==> !((
            #[trigger] ls[k]).exists && ls[k].git_ok) && !m.dom().contains(ls[k].repo@)) by {
                lemma_pushed(before, n, k);
            }
            at
        } else {
            before
        }
    }
}

/// What is kept of what is known are the repositories that were looked at.
pub proof fn law_unregistered_repositories_are_forgotten(m: Alerted, ls: Seq<RepoLook>, repo: Seq<char>)
    ensures
        kept(m, is_registered(repos(ls))).dom().contains(repo) <==> m.dom().contains(repo)
            && exists|i: int| 0 <= i < ls.len() && (#[trigger] ls[i]).repo@ == repo,
{
    if repos(ls).contains(repo) {
        let i = repos(ls).index_of(repo);
        assert(ls[i].repo@ == repo);
    }
    if exists|i: int| 0 <= i < ls.len() && (#[trigger] ls[i]).repo@ == repo {
        let i = choose|i: int| 0 <= i < ls.len() && (#[trigger] ls[i]).repo@ == repo;
        assert(repos(ls)[i] == repo);
    }
}

/// One more repository of a round is judged by what is known after those before it.
pub proof fn law_one_more_repository(m: Alerted, ls: Seq<RepoLook>, l: RepoLook)
    ensures
        paged(m, Seq::empty()).len() == 0,
        after_looks(m, Seq::empty()) == m,
        ({
            let before = after_looks(m, ls);
            let is_gone = !(l.exists && l.git_ok);
            &&& paged(m, ls.push(l)) == (if is_gone && !before.dom().contains(l.repo@) {
                paged(m, ls).push(l)
            } else {
                paged(m, ls)
            })
            &&& after_looks(m, ls.push(l)) == (if is_gone {
                before.insert(l.repo@, ())
            } else {
                before.remove(l.repo@)
            })
        }),
{
    assert(ls.push(l).drop_last() =~= ls);
}

} // verus!
