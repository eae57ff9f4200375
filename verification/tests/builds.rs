//! The build orchestration: status mapping, the progress session's paired
//! begin/end, the registry, and targeted and wildcard cancellation.

use texlab::builds::{
    build_args, build_status_of, locate_build_root, resolve_build_target, split_path,
};
use texlab::token::mint_token;
use texlab::{
    BuildManager, BuildOptions, BuildResult, BuildSession, BuildStatus, ClientAction,
    ProgressToken, RunOutcome, Uri,
};

#[test]
fn outcome_settles_to_status() {
    assert_eq!(build_status_of(RunOutcome::Exited(true)), BuildStatus::Success);
    assert_eq!(build_status_of(RunOutcome::Exited(false)), BuildStatus::Error);
    assert_eq!(build_status_of(RunOutcome::SpawnOrIoError), BuildStatus::Failure);
    assert_eq!(build_status_of(RunOutcome::Aborted), BuildStatus::Cancelled);
}

#[test]
fn session_pairs_progress_begin_and_end() {
    let mut s = BuildSession::new(ProgressToken::Text("texlab-build-1".to_string()), true);
    let begin = s.start("foo.tex".to_string());
    match begin {
        Some(ClientAction::ProgressBegin { token, title }) => {
            assert!(token.same_as(&ProgressToken::Text("texlab-build-1".to_string())));
            assert_eq!(title, "foo.tex");
        },
        _ => panic!("expected a progress-begin action"),
    }
    let log = s.log_line("This is pdfTeX".to_string());
    match log {
        ClientAction::LogMessage { message } => assert_eq!(message, "This is pdfTeX"),
        _ => panic!("expected a log action"),
    }
    s.settle(RunOutcome::Exited(true));
    let (end, result) = s.finish();
    assert!(matches!(end, Some(ClientAction::ProgressEnd { .. })));
    assert_eq!(result, BuildResult { status: BuildStatus::Success });
}

#[test]
fn session_without_progress_support_stays_silent() {
    let mut s = BuildSession::new(ProgressToken::Number(7), false);
    assert!(s.start("foo.tex".to_string()).is_none());
    s.settle(RunOutcome::Exited(false));
    let (end, result) = s.finish();
    assert!(end.is_none());
    assert_eq!(result.status, BuildStatus::Error);
}

#[test]
fn aborted_session_is_cancelled() {
    let mut s = BuildSession::new(ProgressToken::Number(3), true);
    let _ = s.start("foo.tex".to_string());
    s.settle(RunOutcome::Aborted);
    let (end, result) = s.finish();
    assert!(end.is_some());
    assert_eq!(result.status, BuildStatus::Cancelled);
}

#[test]
fn failed_spawn_is_failure() {
    let mut s = BuildSession::new(ProgressToken::Number(4), true);
    let _ = s.start("foo.tex".to_string());
    s.settle(RunOutcome::SpawnOrIoError);
    let (_, result) = s.finish();
    assert_eq!(result.status, BuildStatus::Failure);
}

#[test]
fn cancel_registered_token_targets_it() {
    let mut m = BuildManager::new();
    let t = ProgressToken::Text("texlab-build-a".to_string());
    m.register(t.duplicate());
    let targets = m.cancel(&t);
    assert_eq!(targets.len(), 1);
    assert!(targets[0].same_as(&t));
    m.remove(&t);
    assert!(m.cancel(&t).is_empty());
}

#[test]
fn cancel_unknown_token_is_noop() {
    let m = BuildManager::new();
    assert!(m.cancel(&ProgressToken::Text("texlab-build-gone".to_string())).is_empty());
    assert!(m.cancel(&ProgressToken::Number(99)).is_empty());
}

#[test]
fn wildcard_cancels_every_registered_build() {
    let mut m = BuildManager::new();
    let t1 = ProgressToken::Text("texlab-build-a".to_string());
    let t2 = ProgressToken::Text("texlab-build-b".to_string());
    m.register(t1.duplicate());
    m.register(t2.duplicate());
    let wildcard = ProgressToken::Text("texlab-build-*".to_string());
    let targets = m.cancel(&wildcard);
    assert_eq!(targets.len(), 2);
    assert!(targets[0].same_as(&t1));
    assert!(targets[1].same_as(&t2));
    // a build registered after the sweep is not among its targets
    let t3 = ProgressToken::Text("texlab-build-c".to_string());
    m.register(t3.duplicate());
    assert!(targets.iter().all(|t| !t.same_as(&t3)));
}

#[test]
fn remove_leaves_other_tokens_registered() {
    let mut m = BuildManager::new();
    let t1 = ProgressToken::Number(1);
    let t2 = ProgressToken::Number(2);
    m.register(t1.duplicate());
    m.register(t2.duplicate());
    m.remove(&t1);
    assert!(m.cancel(&t1).is_empty());
    assert_eq!(m.cancel(&t2).len(), 1);
}

#[test]
fn minted_token_has_prefix_and_fresh_suffix() {
    let t = mint_token();
    match t {
        ProgressToken::Text(s) => {
            assert_eq!(s.len(), 49);
            assert!(s.starts_with("texlab-build-"));
            assert_ne!(s, "texlab-build-*");
        },
        ProgressToken::Number(_) => panic!("expected a text token"),
    }
}

#[test]
fn compiler_invocation_appends_root_file_name() {
    let options = BuildOptions {
        executable: "latexmk".to_string(),
        args: vec![
            "-pdf".to_string(),
            "-interaction=nonstopmode".to_string(),
            "-synctex=1".to_string(),
        ],
    };
    let args = build_args(&options, "foo.tex");
    assert_eq!(args, vec!["-pdf", "-interaction=nonstopmode", "-synctex=1", "foo.tex"]);
    assert_eq!(options.executable, "latexmk");
}

#[test]
fn path_splits_at_last_slash() {
    let (dir, name) = split_path("/home/user/doc/foo.tex");
    assert_eq!(dir, "/home/user/doc/");
    assert_eq!(name, "foo.tex");
    let (dir, name) = split_path("foo.tex");
    assert_eq!(dir, "");
    assert_eq!(name, "foo.tex");
    let (dir, name) = split_path("/foo.tex");
    assert_eq!(dir, "/");
    assert_eq!(name, "foo.tex");
}

#[test]
fn root_without_local_path_settles_as_failure() {
    let remote = Uri::new("untitled:draft".to_string());
    let outcome = match locate_build_root(&remote) {
        Ok(_) => panic!("expected no spawnable location"),
        Err(outcome) => outcome,
    };
    assert_eq!(build_status_of(outcome), BuildStatus::Failure);
    let local = Uri::new("file:///doc/main.tex".to_string());
    let (dir, name) = locate_build_root(&local).unwrap();
    assert_eq!(dir, "/doc/");
    assert_eq!(name, "main.tex");
}

#[test]
fn build_target_prefers_parent_document() {
    let own = Uri::new("file:///doc/section.tex".to_string());
    let parent = Uri::new("file:///doc/main.tex".to_string());
    let root = resolve_build_target(Some(parent), &own);
    assert_eq!(root.as_str(), "file:///doc/main.tex");
    let root = resolve_build_target(None, &own);
    assert_eq!(root.as_str(), "file:///doc/section.tex");
}
