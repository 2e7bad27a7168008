//! The one switch from a decided disposition of a worktree to the mechanism that
//! carries it out.
use vstd::prelude::*;

verus! {

/// What was decided for a worktree.
#[derive(Debug, Clone, Copy, PartialEq, Eq, Structural)]
pub enum Disposition {
    /// It stays.
    Keep,
    /// Its binding is released.
    Release,
    /// It is removed.
    Delete,
    /// It is moved to the trash.
    Archive,
}

/// What carrying a disposition out came to.
pub enum DispositionOutcome<R, A> {
    /// Nothing was touched.
    Kept,
    /// The release ran.
    Released(R),
    /// The caller's remover ran.
    Deleted(Result<(), String>),
    /// The archive ran.
    Archived(A),
}

/// Carries a disposition out by its own mechanism and no other: the release for
/// `agent`, the caller's remover, or the archive of `candidate`. An archive
/// without a candidate keeps the worktree.
pub fn dispose<R, A, C, Rel, Arch, Del>(
    disposition: Disposition,
    agent: &str,
    candidate: Option<C>,
    release: Rel,
    archive: Arch,
    delete: Del,
) -> (out: DispositionOutcome<R, A>) where
    Rel: FnOnce(&str) -> R,
    Arch: FnOnce(C) -> A,
    Del: FnOnce() -> Result<(), String>,

    requires
        disposition == Disposition::Release ==> call_requires(release, (agent,)),
        disposition == Disposition::Delete ==> call_requires(delete, ()),
        disposition == Disposition::Archive && candidate is Some ==> call_requires(
            archive,
            (candidate->0,),
        ),
    ensures
        match disposition {
            Disposition::Keep => out is Kept,
            Disposition::Release => out is Released && call_ensures(
                release,
                (agent,),
                out->Released_0,
            ),
            Disposition::Delete => out is Deleted && call_ensures(delete, (), out->Deleted_0),
            Disposition::Archive => match candidate {
                Some(c) => out is Archived && call_ensures(archive, (c,), out->Archived_0),
                None => out is Kept,
            },
        },
{
    match disposition {
        Disposition::Keep => DispositionOutcome::Kept,
        Disposition::Release => DispositionOutcome::Released(release(agent)),
        Disposition::Delete => DispositionOutcome::Deleted(delete()),
        Disposition::Archive => match candidate {
            Some(c) => DispositionOutcome::Archived(archive(c)),
            None => DispositionOutcome::Kept,
        },
    }
}

/// Carries a release out that holds only for one state of the binding.
pub fn dispose_release_exact<R, A, B, Rel>(agent: &str, expected: B, release: Rel) -> (out:
    DispositionOutcome<R, A>) where Rel: FnOnce(&str, B) -> R
    requires
        call_requires(release, (agent, expected)),
    ensures
        out is Released,
        call_ensures(release, (agent, expected), out->Released_0),
{
    DispositionOutcome::Released(release(agent, expected))
}

} // verus!
