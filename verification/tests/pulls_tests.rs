use fj_ex::cli::PullRequestState;
use fj_ex::pulls::{
    api_auth, current_branch_name, default_base_branch, filter_by_head, list_pulls_url,
    pull_row, pull_table_headings, pull_url, pulls_path, read_body, repo_path, require_repo, stdin_path,
    ApiAuth, BodyToRead, PullRef, PullRequest, PullsError,
};
use fj_ex::store::UiCreds;

fn pull(number: u64, head: &str) -> PullRequest {
    PullRequest {
        number,
        title: format!("title {number}"),
        state: "open".to_string(),
        html_url: format!("https://forge.example/owner/repo/pulls/{number}"),
        draft: false,
        mergeable: None,
        head: PullRef {
            branch: head.to_string(),
            sha: String::new(),
        },
        base: PullRef {
            branch: "master".to_string(),
            sha: String::new(),
        },
    }
}

#[test]
fn reads_inline_and_empty_bodies() {
    assert_eq!(read_body(Some("body".into()), None).unwrap(), "body");
    assert_eq!(read_body(None, None).unwrap(), "");
}

#[test]
fn body_files_are_read_elsewhere() {
    assert_eq!(read_body(None, Some("-")), Err(BodyToRead::Stdin));
    assert_eq!(
        read_body(None, Some("notes.md")),
        Err(BodyToRead::File("notes.md".to_string()))
    );
}

#[test]
fn dash_paths_mean_standard_input() {
    assert_eq!(read_body(None, Some("-/")), Err(BodyToRead::Stdin));
    assert_eq!(read_body(None, Some("-/./")), Err(BodyToRead::Stdin));
    assert_eq!(read_body(None, Some("-//.")), Err(BodyToRead::Stdin));
    assert_eq!(
        read_body(None, Some("./-")),
        Err(BodyToRead::File("./-".to_string()))
    );
    assert_eq!(
        read_body(None, Some("-x")),
        Err(BodyToRead::File("-x".to_string()))
    );
    assert!(stdin_path("-"));
    assert!(!stdin_path("/-"));
    assert!(!stdin_path(""));
}

#[test]
fn pull_request_state_uses_forgejo_values() {
    assert_eq!(PullRequestState::Open.as_api_value(), "open");
    assert_eq!(PullRequestState::Closed.as_api_value(), "closed");
    assert_eq!(PullRequestState::All.as_api_value(), "all");
}

#[test]
fn api_paths() {
    assert_eq!(repo_path("alice/widgets"), "/repos/alice/widgets");
    assert_eq!(pulls_path("alice/widgets"), "/repos/alice/widgets/pulls");
    assert_eq!(
        list_pulls_url("https://f.example/api/v1/repos/a/b/pulls", PullRequestState::Closed, 2, 30),
        "https://f.example/api/v1/repos/a/b/pulls?state=closed&page=2&limit=30"
    );
    assert_eq!(pull_url("https://f.example/pulls", 596), "https://f.example/pulls/596");
}

#[test]
fn head_filter_keeps_order() {
    let pulls = vec![pull(1, "fix/chat"), pull(2, "main"), pull(3, "fix/chat")];
    let kept = filter_by_head(pulls, Some("fix/chat"));
    assert_eq!(kept.len(), 2);
    assert_eq!(kept[0].number, 1);
    assert_eq!(kept[1].number, 3);

    let pulls = vec![pull(1, "fix/chat"), pull(2, "main")];
    assert_eq!(filter_by_head(pulls, None).len(), 2);
    let pulls = vec![pull(1, "fix/chat")];
    assert!(filter_by_head(pulls, Some("fix")).is_empty());
}

#[test]
fn pull_rows() {
    assert_eq!(
        pull_row(&pull(596, "fix/chat")),
        vec![
            "596",
            "open",
            "title 596",
            "fix/chat",
            "master",
            "https://forge.example/owner/repo/pulls/596"
        ]
    );
    assert_eq!(
        pull_table_headings(),
        vec!["Number", "State", "Title", "Head", "Base", "URL"]
    );
}

#[test]
fn base_and_head_branches() {
    assert_eq!(default_base_branch("main".to_string()).unwrap(), "main");
    assert_eq!(
        default_base_branch("  ".to_string()),
        Err(PullsError::EmptyDefaultBranch)
    );
    assert_eq!(current_branch_name(true, Some("fix/chat")).unwrap(), "fix/chat");
    assert_eq!(current_branch_name(false, Some("fix/chat")), Err(PullsError::DetachedHead));
    assert_eq!(current_branch_name(true, Some(" ")), Err(PullsError::UnnamedBranch));
    assert_eq!(current_branch_name(true, None), Err(PullsError::UnnamedBranch));
    assert_eq!(
        PullsError::DetachedHead.message(""),
        "Current Git checkout is detached; pass --head explicitly."
    );
}

#[test]
fn repo_and_authentication() {
    assert_eq!(require_repo(Some("a/b")).unwrap(), "a/b");
    assert_eq!(require_repo(None), Err(PullsError::RepoUnresolved));

    let creds = UiCreds {
        base_url: "https://f.example".to_string(),
        username: "alice".to_string(),
        password: "secret".to_string(),
        updated_utc: None,
    };
    match api_auth(Some("tok".to_string()), Some(creds.clone())).unwrap() {
        ApiAuth::Token(t) => assert_eq!(t, "tok"),
        other => panic!("unexpected auth: {other:?}"),
    }
    match api_auth(None, Some(creds)).unwrap() {
        ApiAuth::Basic { username, password } => {
            assert_eq!(username, "alice");
            assert_eq!(password, "secret");
        }
        other => panic!("unexpected auth: {other:?}"),
    }
    assert!(matches!(api_auth(None, None), Err(PullsError::NoApiAuth)));
    assert_eq!(
        PullsError::NoApiAuth.message("https://f.example"),
        "No Forgejo API authentication found for 'https://f.example'. Run `fj auth login` or `fj-ex auth login` first."
    );
}
