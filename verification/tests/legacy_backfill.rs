use agend_daemon::dates::Moment;
use agend_daemon::legacy_backfill::{
    best_candidate, body_has_closes_marker, branch_has_exact_task_id, classify, emit_auto_close, emit_proposal, is_reversed,
    listed_items, listed_prs, parse_pr_meta, pick_best, pr_meta_from, pulls_url, run, score_pair, score_signals, BackfillEntry,
    ConfidenceScore, PrMeta, PullFields, SubScore, Task, TaskEvent, Tier,
};
use agend_daemon::markup::strip_html_comments;
use agend_daemon::ratio::{is_less, share_text, Ratio};
use agend_daemon::titles::{is_vague, numeric_mismatch, title_overlap, tokenize};

fn pr(number: u64, head_branch: &str, title: &str, body: &str) -> PrMeta {
    PrMeta {
        number,
        state: "closed".into(),
        merged: true,
        merge_commit_sha: Some(format!("sha-{number}")),
        merged_at: Some("2026-11-01T00:00:00+00:00".into()),
        body: body.into(),
        title: title.into(),
        head_branch: head_branch.into(),
        api_response_hash: "h".into(),
    }
}

fn task(id: &str, title: &str) -> Task {
    Task { id: id.into(), title: title.into(), status: "open".into(), created_at: "2026-04-26T00:00:00Z".into() }
}

fn score(num: u128, den: u128, signal_count: u32) -> ConfidenceScore {
    ConfidenceScore { total: Ratio { num, den }, signal_count, sub_scores: Vec::new() }
}

fn has_part(parts: &Vec<SubScore>, name: &str) -> bool {
    parts.iter().any(|p| p.name == name)
}

#[test]
fn defense_1_title_jaccard_alone_caps_at_propose() {
    let t = task("t-1-1", "fix the auth bug urgently");
    let p = pr(1, "feature/something-else", "fix the auth bug urgently", "");
    let scores = score_pair(&t, &p);
    let tier = classify(&scores);
    assert!(matches!(tier, Tier::Propose | Tier::Silent));
    assert!(scores.signal_count <= 1);
}

#[test]
fn defense_2_author_is_not_a_signal() {
    let _: fn(&Task, &PrMeta) -> ConfidenceScore = score_pair;
}

#[test]
fn defense_3_branch_fragment_no_substring_match() {
    assert!(branch_has_exact_task_id("feature/t-1-1", "t-1-1"));
    assert!(!branch_has_exact_task_id("feature/t-1-100", "t-1-1"));
    assert!(branch_has_exact_task_id("t-1-1-something", "t-1-1"));
    assert!(!branch_has_exact_task_id("xt-1-1", "t-1-1"));
}

#[test]
fn defense_4_multi_pr_tie_break_by_max_confidence() {
    let t = task("t-100-1", "auth bug fix");
    let p_low = pr(1, "feature/something", "different work", "");
    let p_high = pr(2, "fix/t-100-1-auth", "auth bug fix", "Closes t-100-1");
    let entry = best_candidate(&t, &vec![p_low, p_high]).expect("must find candidate");
    assert_eq!(entry.candidate_pr, Some(2));
    assert!(is_less(Ratio { num: 1, den: 2 }, entry.confidence));
}

#[test]
fn defense_5_vague_title_zeroes_jaccard() {
    let t = task("t-1-1", "follow-up work");
    let p = pr(1, "feature/x", "follow-up work", "");
    let scores = score_pair(&t, &p);
    assert!(!has_part(&scores.sub_scores, "branch_jaccard"), "vague title must clamp jaccard contribution");
}

#[test]
fn defense_5b_numeric_mismatch_zeroes_jaccard() {
    let t = task("t-1-1", "Sprint22 P0 PR3 cutover");
    let p = pr(1, "sprint23-p0-pr1", "Sprint23 P0 PR1 substrate", "");
    let scores = score_pair(&t, &p);
    assert_eq!(scores.signal_count, 0);
}

#[test]
fn defense_6_reverse_temporal_skipped() {
    let mut t = task("t-1-1", "fix something");
    t.created_at = "2027-01-01T00:00:00Z".into();
    let mut p = pr(1, "fix/t-1-1", "fix something", "Closes t-1-1");
    p.merged_at = Some("2026-04-01T00:00:00Z".into());
    let entry = best_candidate(&t, &vec![p]);
    assert!(entry.is_none(), "reverse-temporal candidate must be skipped");
}

#[test]
fn classification_auto_apply_requires_2_signals() {
    assert_eq!(classify(&score(9, 10, 1)), Tier::Propose);
    assert_eq!(classify(&score(9, 10, 2)), Tier::AutoApply);
    assert_eq!(classify(&score(3, 10, 1)), Tier::Silent);
}

#[test]
fn body_closes_marker_strips_html_comments() {
    assert!(body_has_closes_marker("Closes t-1-1", "t-1-1"));
    assert!(!body_has_closes_marker("<!-- Closes t-1-1 -->", "t-1-1"));
}

#[test]
fn happy_path_two_signals_reaches_auto_apply() {
    let t = task("t-100-1", "real work title");
    let p = pr(1, "fix/t-100-1-real-work", "real work title", "Body says Closes t-100-1.");
    let scores = score_pair(&t, &p);
    assert_eq!(scores.signal_count, 2);
    assert!(!is_less(scores.total, Ratio { num: 4, den: 5 }));
    assert_eq!(classify(&scores), Tier::AutoApply);
}

#[test]
fn the_tiers_begin_at_their_thresholds() {
    assert_eq!(classify(&score(4, 5, 2)), Tier::AutoApply);
    assert_eq!(classify(&score(79, 100, 2)), Tier::Propose);
    assert_eq!(classify(&score(2, 5, 1)), Tier::Propose);
    assert_eq!(classify(&score(39, 100, 3)), Tier::Silent);
}

#[test]
fn the_parts_of_a_score() {
    let s = score_signals(true, "a b", "c d", true);
    assert_eq!(s.total, Ratio { num: 5, den: 5 });
    assert_eq!(s.sub_scores.len(), 2);
    assert_eq!(s.sub_scores[0].name, "branch_exact");
    assert_eq!(s.sub_scores[0].value, Ratio { num: 3, den: 5 });
    assert_eq!(s.sub_scores[1].name, "closes_marker");
    assert_eq!(s.sub_scores[1].value, Ratio { num: 2, den: 5 });
    let s = score_signals(false, "alpha beta gamma", "alpha beta delta", false);
    assert_eq!(s.signal_count, 1);
    assert_eq!(s.total, Ratio { num: 4, den: 20 });
    assert_eq!(s.sub_scores[0].name, "branch_jaccard");
    let s = score_signals(false, "alpha beta gamma", "alpha beta delta", true);
    assert_eq!(s.total, Ratio { num: 12, den: 20 });
    let s = score_signals(false, "polish the docs", "polish the docs", false);
    assert_eq!((s.signal_count, s.total), (0, Ratio { num: 0, den: 5 }));
}

#[test]
fn a_tie_is_only_proposed() {
    let t = task("t-7-1", "real work title");
    let a = pr(1, "fix/t-7-1", "x", "Closes t-7-1");
    let b = pr(2, "fix/t-7-1", "x", "Closes t-7-1");
    let entry = best_candidate(&t, &vec![a, b]).expect("candidate");
    assert_eq!(entry.candidate_pr, Some(1), "the first of two equals is named");
    assert_eq!(entry.tier, Tier::Propose);
}

#[test]
fn the_first_of_the_highest_is_picked() {
    let scores = vec![None, Some(score(1, 2, 1)), Some(score(2, 3, 1)), Some(score(4, 6, 2)), Some(score(1, 5, 1))];
    assert_eq!(pick_best(&scores), Some((2, true)));
    assert_eq!(pick_best(&vec![Some(score(1, 2, 1)), Some(score(2, 3, 1))]), Some((1, false)));
    assert_eq!(pick_best(&vec![None, None]), None);
}

#[test]
fn fractions_are_compared_exactly() {
    assert!(is_less(Ratio { num: 1, den: 3 }, Ratio { num: 1, den: 2 }));
    assert!(!is_less(Ratio { num: 2, den: 4 }, Ratio { num: 1, den: 2 }));
    assert!(is_less(Ratio { num: u128::MAX - 1, den: u128::MAX }, Ratio { num: 1, den: 1 }));
    assert!(!is_less(Ratio { num: 3, den: 2 }, Ratio { num: 4, den: 3 }));
    assert_eq!(share_text(Ratio { num: 4, den: 5 }), "0.80");
    assert_eq!(share_text(Ratio { num: 5, den: 5 }), "1.00");
    assert_eq!(share_text(Ratio { num: 1, den: 8 }), "0.13");
    assert_eq!(share_text(Ratio { num: 0, den: 7 }), "0.00");
}

#[test]
fn words_of_a_title() {
    let mut w = tokenize("fix the-auth bug, a fix");
    w.sort();
    assert_eq!(w, vec!["auth".to_string(), "bug".to_string(), "fix".to_string(), "the".to_string()]);
    assert!(tokenize("a b c").is_empty());
    assert_eq!(title_overlap("Alpha beta", "ALPHA gamma"), Some((1, 3)));
    assert_eq!(title_overlap("alpha beta", "gamma delta"), None);
    assert_eq!(title_overlap("cleanup alpha", "alpha"), None);
    assert!(is_vague("WIP: something"));
    assert!(!is_vague("something"));
    let a = vec!["sprint22".to_string()];
    assert!(numeric_mismatch(&a, &vec!["sprint23".to_string()]));
    assert!(!numeric_mismatch(&a, &vec!["sprint22".to_string()]));
    assert!(!numeric_mismatch(&a, &vec!["print23".to_string()]));
    assert!(!numeric_mismatch(&a, &vec!["sprint23x".to_string()]));
}

#[test]
fn comments_are_removed() {
    assert_eq!(strip_html_comments("a<!-- b -->c<!--d-->e"), "ace");
    assert_eq!(strip_html_comments("a<!-- b"), "a");
    assert_eq!(strip_html_comments("a --> b"), "a --> b");
}

#[test]
fn the_id_of_a_task_is_no_pattern() {
    assert!(branch_has_exact_task_id("fix/t.1", "t.1"));
    assert!(!branch_has_exact_task_id("fix/tx1", "t.1"));
    assert!(body_has_closes_marker("Closes\n t-1-1 now", "t-1-1"));
    assert!(!body_has_closes_marker("Closes t-1-10", "t-1-1"));
}

#[test]
fn a_later_task_is_reversed() {
    let early = Moment { secs: 10, nanos: 0 };
    let late = Moment { secs: 10, nanos: 1 };
    assert!(is_reversed(Some(late), Some(early)));
    assert!(!is_reversed(Some(early), Some(late)));
    assert!(!is_reversed(None, Some(early)));
    assert!(!is_reversed(Some(late), None));
}

fn entry() -> BackfillEntry {
    BackfillEntry {
        task_id: "t-1".into(),
        candidate_pr: Some(5),
        merge_sha: Some("sha".into()),
        confidence: Ratio { num: 4, den: 5 },
        sub_scores: vec![SubScore { name: "branch_exact".into(), value: Ratio { num: 3, den: 5 } }],
        signal_count: 2,
        tier: Tier::AutoApply,
    }
}

#[test]
fn closing_a_task_links_and_finishes_it() {
    let prs = vec![pr(5, "b", "t", "")];
    let events = emit_auto_close(&entry(), "sweep", &prs, "now");
    assert_eq!(events.len(), 2);
    match &events[0] {
        TaskEvent::Linked { task_id, pr_id, sweep_id, snapshot } => {
            assert_eq!((task_id.as_str(), *pr_id, sweep_id.as_str()), ("t-1", 5, "sweep"));
            assert_eq!(snapshot.pr_state, "closed");
            assert_eq!(snapshot.merge_sha.as_deref(), Some("sha"));
            assert_eq!(snapshot.captured_at, "now");
        }
        _ => panic!("the link comes first"),
    }
    match &events[1] {
        TaskEvent::Done { by, reasoning, snapshot, .. } => {
            assert_eq!(by, "system:legacy_backfill");
            assert_eq!(reasoning, "auto-apply tier (total=0.80, signals=2)");
            assert_eq!(snapshot.api_response_hash, "h");
        }
        _ => panic!("the end comes second"),
    }
}

#[test]
fn a_proposal_names_its_candidate() {
    let mut e = entry();
    e.candidate_pr = None;
    e.merge_sha = None;
    let events = emit_proposal(&e, "sweep", &Vec::new(), "now");
    assert_eq!(events.len(), 1);
    match &events[0] {
        TaskEvent::TaskCloseProposed { pr_id, merge_sha, merged_at, snapshot, confidence, .. } => {
            assert_eq!((*pr_id, merge_sha.as_str(), merged_at.as_str()), (0, "", "now"));
            assert_eq!(snapshot.pr_state, "merged");
            assert_eq!(snapshot.api_response_hash, "unknown");
            assert_eq!(confidence.total, Ratio { num: 4, den: 5 });
        }
        _ => panic!("a proposal is owed"),
    }
}

#[test]
fn a_run_answers_every_open_task() {
    let mut done = task("t-9-9", "other");
    done.status = "done".into();
    let mut claimed = task("t-2-2", "alpha beta gamma");
    claimed.status = "claimed".into();
    let mut idle = task("t-3-3", "unrelated");
    idle.status = "in_progress".into();
    let tasks = vec![task("t-1-1", "fix"), done, claimed, idle];
    let prs = vec![pr(1, "fix/t-1-1", "zz yy", "Closes t-1-1"), pr(2, "x", "alpha beta gamma", "")];
    let real = run(&tasks, &prs, false, "now");
    assert_eq!(real.report.entries.len(), 3);
    assert_eq!((real.report.auto_applied, real.report.proposed, real.report.silent), (1, 1, 1));
    assert_eq!(real.report.entries[0].candidate_pr, Some(1));
    assert_eq!(real.report.entries[1].candidate_pr, Some(2));
    assert_eq!(real.report.entries[2].candidate_pr, None);
    assert_eq!(real.batches.len(), 2);
    assert_eq!(real.batches[0].len(), 2);
    let dry = run(&tasks, &prs, true, "now");
    assert_eq!(dry.report.auto_applied, 1);
    assert!(dry.batches.iter().all(|b| b.len() == 1 && matches!(b[0], TaskEvent::TaskCloseProposed { .. })));
    match &dry.batches[0][0] {
        TaskEvent::TaskCloseProposed { sweep_id, .. } => assert_eq!(sweep_id, "legacy-backfill-now"),
        _ => panic!("a dry run proposes"),
    }
}

#[test]
fn an_unmerged_pull_request_is_no_candidate() {
    let t = task("t-1-1", "fix");
    let mut p = pr(1, "fix/t-1-1", "fix", "Closes t-1-1");
    p.merged = false;
    assert!(best_candidate(&t, &vec![p]).is_none());
}

#[test]
fn a_listing_is_read() {
    let body = r#"[{"number": 7, "state": "closed", "merged_at": "2026-01-01T00:00:00Z",
        "merge_commit_sha": "abc", "body": null, "title": "T", "head": {"ref": "fix/t-1"}},
        {"number": 8, "state": "closed", "merged_at": null}, {"state": "closed"}]"#;
    let items = listed_items(body).expect("an array");
    assert_eq!(items.len(), 3);
    let first = parse_pr_meta(&items[0], "hash").expect("a pull request");
    assert_eq!((first.number, first.merged), (7, true));
    assert_eq!(first.merge_commit_sha.as_deref(), Some("abc"));
    assert_eq!(first.merged_at.as_deref(), Some("2026-01-01T00:00:00Z"));
    assert_eq!((first.body.as_str(), first.title.as_str(), first.head_branch.as_str()), ("", "T", "fix/t-1"));
    assert_eq!(first.api_response_hash, "hash");
    let second = parse_pr_meta(&items[1], "hash").expect("a pull request");
    assert!(!second.merged && second.merged_at.is_none());
    assert!(parse_pr_meta(&items[2], "hash").is_none(), "one without a number is none");
    assert!(listed_items("{}").is_none());
    assert!(listed_items("not json").is_none());
}

#[test]
fn a_pull_request_needs_a_number_and_a_state() {
    let mut f = PullFields {
        number: Some(1),
        state: Some("closed".into()),
        merged_at_null: Some(false),
        merged_at: None,
        merge_commit_sha: None,
        body: None,
        title: None,
        head_ref: None,
    };
    let m = pr_meta_from(&f, "h").expect("a pull request");
    assert!(m.merged && m.merged_at.is_none());
    f.merged_at_null = None;
    assert!(!pr_meta_from(&f, "h").expect("a pull request").merged);
    f.state = None;
    assert!(pr_meta_from(&f, "h").is_none());
}

#[test]
fn the_address_of_a_listing() {
    assert_eq!(
        pulls_url("o/r"),
        "https://api.github.com/repos/o/r/pulls?state=closed&sort=updated&direction=desc&per_page=100"
    );
}

#[test]
fn a_listing_keeps_its_pull_requests_in_order() {
    let body = r#"[{"number":7,"state":"closed","title":"a"},{"title":"none"},{"number":5,"state":"open","title":"b"}]"#;
    let items = listed_items(body).expect("an array");
    let hashes = vec!["h0".to_string(), "h1".to_string(), "h2".to_string()];
    let prs = listed_prs(&items, &hashes);
    let seen: Vec<(u64, &str, &str)> =
        prs.iter().map(|p| (p.number, p.title.as_str(), p.api_response_hash.as_str())).collect();
    assert_eq!(seen, vec![(7, "a", "h0"), (5, "b", "h2")]);
    assert!(listed_prs(&Vec::new(), &Vec::new()).is_empty());
}
