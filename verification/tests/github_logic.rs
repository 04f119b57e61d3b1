use neogh::github::auth::{login_from_output, token_from_output};
use neogh::github::chain::{is_default_branch, ChainDetection, ChainError, ChainQuery};
use neogh::github::comments::CommentsError;
use neogh::github::graphql::{
    self, check_suites_from_reply, check_suites_of, related_prs_from_nodes, resolved_after_resolve,
    resolved_after_unresolve, AppInfo, CheckRunNode, CheckSuiteNode, CommitNode, GraphQLError,
};
use neogh::github::pending::PendingCommentsError;
use neogh::github::pr::{owner_repo_from_url, pr_error_from_stderr, pull_request_from_view, PrChain, PrInfo, PrViewFields};
use neogh::github::{AuthError, CheckConclusion, CheckStatus, PrError, PullRequest};
use neogh::clock::timestamp_or_now;

fn pr(number: u64, head: &str, base: &str) -> PullRequest {
    PullRequest {
        number,
        title: format!("PR {}", number),
        html_url: format!("https://github.com/octo/repo/pull/{}", number),
        head_ref: head.to_string(),
        base_ref: base.to_string(),
        owner: "octo".to_string(),
        repo: "repo".to_string(),
    }
}

fn gql_info(number: u64, head: &str, base: &str) -> graphql::PrInfo {
    graphql::PrInfo {
        number,
        title: format!("PR {}", number),
        head_ref_name: head.to_string(),
        base_ref_name: base.to_string(),
    }
}

#[test]
fn check_status_names_and_labels() {
    assert_eq!(CheckStatus::from_str("QUEUED"), CheckStatus::Queued);
    assert_eq!(CheckStatus::from_str("IN_PROGRESS"), CheckStatus::InProgress);
    assert_eq!(CheckStatus::from_str("COMPLETED"), CheckStatus::Completed);
    assert_eq!(CheckStatus::from_str("PENDING"), CheckStatus::Pending);
    assert_eq!(CheckStatus::from_str("completed"), CheckStatus::Unknown);
    assert_eq!(CheckStatus::InProgress.to_display(), "🔄 Running");
    assert_eq!(CheckStatus::Unknown.to_display(), "? Unknown");
    assert_eq!(CheckConclusion::from_str("SUCCESS"), CheckConclusion::Success);
    assert_eq!(CheckConclusion::from_str("TIMED_OUT"), CheckConclusion::TimedOut);
    assert_eq!(CheckConclusion::from_str("STALE"), CheckConclusion::Unknown);
    assert_eq!(CheckConclusion::Failure.to_display(), "❌ Failure");
    assert_eq!(CheckConclusion::ActionRequired.to_display(), "⚠️ Action Required");
}

#[test]
fn error_messages() {
    assert_eq!(PrError::NotAGitRepo.message(), "Not a git repository");
    assert_eq!(PrError::GhError("boom".to_string()).message(), "gh error: boom");
    assert_eq!(PrError::ParseError("bad".to_string()).message(), "Parse error: bad");
    assert_eq!(AuthError::GhNotFound.message(), "gh CLI not found. Please install: https://cli.github.com");
    assert_eq!(AuthError::NotAuthenticated.short_message(), "Not authenticated with gh");
    assert_eq!(AuthError::IoError("x".to_string()).short_message(), "IO error: x");
    assert_eq!(GraphQLError::RequestFailed("t".to_string()).message(), "Request failed: t");
    assert_eq!(ChainError::NoToken.message(), "No GitHub token available");
    assert_eq!(ChainError::from_graphql(GraphQLError::RequestFailed("m".to_string())).message(), "GraphQL error: m");
    assert_eq!(CommentsError::from_graphql(&GraphQLError::RequestFailed("m".to_string())).message(), "GitHub GraphQL error: Request failed: m");
    assert_eq!(PendingCommentsError::RequestFailed("z".to_string()).message(), "Request failed: z");
    assert_eq!(PrError::NoAssociatedPr.message(), "No PR associated with current branch");
    assert_eq!(PrError::IoError("io".to_string()).message(), "IO error: io");
    assert_eq!(AuthError::GhNotFound.short_message(), "gh CLI not found");
    assert_eq!(AuthError::NotAuthenticated.message(), "Not authenticated with gh. Run: gh auth login");
    assert_eq!(ChainError::AuthError("a".to_string()).message(), "Auth error: a");
    assert_eq!(ChainError::GraphQLError("g".to_string()).message(), "GraphQL error: g");
}

#[test]
fn pr_error_classification() {
    assert!(matches!(pr_error_from_stderr("fatal: not a git repository (or any parent)"), PrError::NotAGitRepo));
    assert!(matches!(pr_error_from_stderr("no pull requests found for branch \"x\""), PrError::NoAssociatedPr));
    match pr_error_from_stderr("HTTP 502") {
        PrError::GhError(t) => assert_eq!(t, "HTTP 502"),
        _ => panic!("expected a gh error"),
    }
}

#[test]
fn owner_and_repo_from_url() {
    let (o, r) = owner_repo_from_url("https://github.com/octo/hello/pull/12");
    assert_eq!((o.as_str(), r.as_str()), ("octo", "hello"));
    let (o, r) = owner_repo_from_url("https://gitlab.com/octo/hello/pull/12");
    assert_eq!((o.as_str(), r.as_str()), ("", ""));
    let p = pull_request_from_view(PrViewFields {
        number: Some(7),
        title: Some("Add x".to_string()),
        head_ref_name: Some("feat".to_string()),
        base_ref_name: None,
        url: Some("https://github.com/octo/hello/pull/7".to_string()),
    });
    assert_eq!(p.number, 7);
    assert_eq!(p.base_ref, "");
    assert_eq!(p.owner, "octo");
    assert_eq!(p.repo, "hello");
}

#[test]
fn auth_outputs() {
    assert_eq!(token_from_output(true, "  gho_abc\n").ok(), Some("gho_abc".to_string()));
    assert!(matches!(token_from_output(true, " \n"), Err(AuthError::NotAuthenticated)));
    assert!(matches!(token_from_output(false, "gho_abc"), Err(AuthError::NotAuthenticated)));
    assert_eq!(login_from_output(true, "octocat\n", ""), Ok("octocat".to_string()));
    assert_eq!(login_from_output(false, "", " denied \n"), Err("denied".to_string()));
    assert_eq!(login_from_output(true, "\n", ""), Err("Failed to determine authenticated GitHub login".to_string()));
}

#[test]
fn default_branches() {
    for b in ["main", "master", "develop", "development"] {
        assert!(is_default_branch(b));
    }
    assert!(!is_default_branch("feature"));
    assert!(!is_default_branch("Main"));
}

#[test]
fn chain_detection_walks_parents_then_children() {
    let start = pr(3, "c", "b");
    let (mut d, q) = ChainDetection::start(start);
    assert!(matches!(q, ChainQuery::Parent { ref base_ref } if base_ref == "b"));
    let q = d.on_parent(related_prs_from_nodes(vec![gql_info(2, "b", "a")], vec![]));
    assert!(matches!(q, ChainQuery::Parent { ref base_ref } if base_ref == "a"));
    let q = d.on_parent(related_prs_from_nodes(vec![gql_info(1, "a", "main")], vec![]));
    assert!(matches!(q, ChainQuery::Children { ref head_ref } if head_ref == "c"));
    let chain = d.finish(related_prs_from_nodes(vec![], vec![gql_info(4, "d", "c"), gql_info(5, "e", "c")]));
    let numbers: Vec<u64> = chain.chain.iter().map(|p| p.number).collect();
    assert_eq!(numbers, vec![1, 2, 3, 4, 5]);
    assert_eq!(chain.current_index, 2);
    for j in 0..2 {
        assert_eq!(chain.chain[j].head_ref, chain.chain[j + 1].base_ref);
    }
    for j in 3..5 {
        assert_eq!(chain.chain[j].base_ref, chain.chain[2].head_ref);
    }
}

#[test]
fn chain_detection_stops_without_parent() {
    let (mut d, _q) = ChainDetection::start(pr(9, "x", "y"));
    let q = d.on_parent(related_prs_from_nodes(vec![], vec![]));
    assert!(matches!(q, ChainQuery::Children { ref head_ref } if head_ref == "x"));
    let chain = d.finish(related_prs_from_nodes(vec![], vec![]));
    assert_eq!(chain.chain.len(), 1);
    assert_eq!(chain.current_index, 0);
    assert!(chain.is_root() && chain.is_tip());
}

#[test]
fn pr_chain_neighbours() {
    let info = |n: u64| PrInfo { number: n, title: String::new(), head_ref: String::new(), base_ref: "main".to_string() };
    let chain = PrChain { chain: vec![info(1), info(2), info(3)], current_index: 1 };
    assert!(!chain.is_root());
    assert!(!chain.is_tip());
    assert_eq!(chain.parent().map(|p| p.number), Some(1));
    assert_eq!(chain.child().map(|p| p.number), Some(3));
    let tip = PrChain { chain: vec![info(1), info(2)], current_index: 1 };
    assert!(tip.is_tip());
    assert!(tip.child().is_none());
    let root = PrChain { chain: vec![info(1), info(2)], current_index: 0 };
    assert!(root.parent().is_none());
    assert_eq!(PrInfo::from_pr(pr(4, "h", "b")).head_ref, "h");
}

#[test]
fn resolution_replies() {
    assert!(resolved_after_resolve(Some(true)));
    assert!(!resolved_after_resolve(None));
    assert!(!resolved_after_unresolve(Some(false)));
    assert!(resolved_after_unresolve(None));
}

#[test]
fn timestamps_parse_or_fall_back() {
    assert_eq!(timestamp_or_now("2024-01-01T00:00:00Z", (7, 5)), (1704067200, 0));
    assert_eq!(timestamp_or_now("2024-01-01T00:00:01.25Z", (7, 5)), (1704067201, 250_000_000));
    assert_eq!(timestamp_or_now("not a time", (7, 5)), (7, 5));
}

fn suite_node(app: Option<&str>, status: &str, conclusion: Option<&str>, runs: Option<Vec<CheckRunNode>>) -> CheckSuiteNode {
    CheckSuiteNode {
        app: app.map(|n| AppInfo { name: n.to_string() }),
        status: status.to_string(),
        conclusion: conclusion.map(|c| c.to_string()),
        check_runs: runs,
    }
}

#[test]
fn check_suites_from_commits() {
    let run = CheckRunNode {
        name: "build".to_string(),
        status: "COMPLETED".to_string(),
        conclusion: Some("FAILURE".to_string()),
        started_at: Some("2024-01-01T00:00:00Z".to_string()),
        completed_at: Some("garbage".to_string()),
        details_url: Some("https://ci/1".to_string()),
    };
    let commits = vec![CommitNode {
        check_suites: Some(vec![
            suite_node(Some("GitHub Actions"), "COMPLETED", Some("FAILURE"), Some(vec![run])),
            suite_node(None, "IN_PROGRESS", None, None),
        ]),
    }];
    let suites = check_suites_of(&commits);
    assert_eq!(suites.len(), 2);
    assert_eq!(suites[0].app_name, "GitHub Actions");
    assert!(suites[0].is_failure());
    assert!(!suites[0].is_success());
    assert_eq!(suites[0].check_runs[0].started_at, Some((1704067200, 0)));
    assert_eq!(suites[0].check_runs[0].completed_at, None);
    assert_eq!(suites[1].app_name, "Unknown");
    assert!(suites[1].is_in_progress());
    match check_suites_from_reply(Some("rate limited".to_string()), Ok(vec![])) {
        Err(GraphQLError::RequestFailed(m)) => assert_eq!(m, "GraphQL error: rate limited"),
        _ => panic!("expected an error"),
    }
    assert_eq!(check_suites_from_reply(None, Ok(commits)).map(|s| s.len()).ok(), Some(2));
}

#[test]
fn a_failed_run_makes_the_suite_failed() {
    let run = |c: Option<CheckConclusion>| neogh::github::CheckRun {
        name: "job".to_string(),
        status: CheckStatus::Completed,
        conclusion: c,
        started_at: None,
        completed_at: None,
        details_url: None,
    };
    let suite = |conclusion: Option<CheckConclusion>, runs| neogh::github::CheckSuite {
        app_name: "CI".to_string(),
        status: CheckStatus::InProgress,
        conclusion,
        check_runs: runs,
    };
    assert!(suite(None, vec![run(Some(CheckConclusion::Success)), run(Some(CheckConclusion::Failure))]).is_failure());
    assert!(!suite(None, vec![run(Some(CheckConclusion::Success)), run(None)]).is_failure());
    assert!(suite(Some(CheckConclusion::Failure), vec![]).is_failure());
    assert!(!suite(Some(CheckConclusion::Success), vec![run(Some(CheckConclusion::Cancelled))]).is_failure());
}
