use agend_daemon::janitor::{dispose, dispose_release_exact, Disposition, DispositionOutcome};
use std::cell::Cell;

fn no_release(_agent: &str) -> u32 {
    panic!("nothing is released here")
}

fn no_archive(_candidate: u8) -> u32 {
    panic!("nothing is archived here")
}

#[test]
fn dispose_delete_runs_only_the_caller_remover() {
    let called = Cell::new(false);
    let out = dispose(Disposition::Delete, "", None, no_release, no_archive, || {
        called.set(true);
        Ok(())
    });
    assert!(called.get(), "Delete must invoke the caller's remover");
    assert!(matches!(out, DispositionOutcome::Deleted(Ok(()))));
}

#[test]
fn dispose_delete_forwards_remover_error_verbatim() {
    let out = dispose(Disposition::Delete, "", None, no_release, no_archive, || {
        Err("git worktree remove failed: boom".to_string())
    });
    match out {
        DispositionOutcome::Deleted(Err(reason)) => {
            assert_eq!(reason, "git worktree remove failed: boom");
        }
        _ => panic!("Delete must forward the remover's Err verbatim"),
    }
}

#[test]
fn dispose_keep_is_a_noop_and_never_removes() {
    let called = Cell::new(false);
    let out = dispose(Disposition::Keep, "", None, no_release, no_archive, || {
        called.set(true);
        Ok(())
    });
    assert!(!called.get(), "Keep must NOT invoke the remover (the fail-closed default)");
    assert!(matches!(out, DispositionOutcome::Kept));
}

#[test]
fn dispose_archive_without_candidate_keeps_fail_closed() {
    let called = Cell::new(false);
    let out = dispose(Disposition::Archive, "agent-x", None, no_release, no_archive, || {
        called.set(true);
        Ok(())
    });
    assert!(!called.get(), "Archive must not invoke the Delete remover");
    assert!(
        matches!(out, DispositionOutcome::Kept),
        "Archive without a candidate → fail-closed Keep"
    );
}

#[test]
fn dispose_archives_the_candidate() {
    let out = dispose(
        Disposition::Archive,
        "agent-x",
        Some(7u8),
        no_release,
        |c: u8| c as u32 + 1,
        || panic!("nothing is deleted here"),
    );
    assert!(matches!(out, DispositionOutcome::Archived(8)));
}

#[test]
fn dispose_releases_the_named_agent() {
    let out = dispose(
        Disposition::Release,
        "agent-x",
        Some(7u8),
        |a: &str| a.len() as u32,
        no_archive,
        || panic!("nothing is deleted here"),
    );
    assert!(matches!(out, DispositionOutcome::Released(7)));
}

#[test]
fn an_exact_release_names_the_agent_and_the_binding() {
    let out: DispositionOutcome<String, u32> =
        dispose_release_exact("agent-x", 3u8, |a: &str, b: u8| format!("{a}:{b}"));
    match out {
        DispositionOutcome::Released(s) => assert_eq!(s, "agent-x:3"),
        _ => panic!("an exact release releases"),
    }
}
