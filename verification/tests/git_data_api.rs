use gh_agent_screenshot::error::Error;
use gh_agent_screenshot::git_data_api::{
    append_body, body_or_empty, check_status, error_from_body, is_absent_ref, ApiRequest,
    GitHubApi, HttpMethod, RequestBody, StatusCheck, TreeEntry,
};

fn api() -> GitHubApi {
    GitHubApi::with_base_url("test-token".into(), "http://mock".into())
}

fn text_of(req: &ApiRequest) -> &str {
    match &req.body {
        Some(RequestBody::Text { body }) => body.as_str(),
        _ => panic!("expected a text body"),
    }
}

fn failure(c: StatusCheck) -> Error {
    match c {
        StatusCheck::Failed(e) => e,
        StatusCheck::Passed => panic!("expected a failure, got a pass"),
        StatusCheck::NeedsBody => panic!("expected a failure, got a body request"),
    }
}

/// The error of a failed response with a JSON body, as the client determines it.
fn response_error(status: u16, ratelimit: Option<&str>, retry_after: Option<&str>, body: &str) -> Error {
    match check_status(status, ratelimit, retry_after) {
        StatusCheck::Passed => panic!("expected a failure"),
        StatusCheck::Failed(e) => e,
        StatusCheck::NeedsBody => error_from_body(status, body.to_string()),
    }
}

#[test]
fn create_blob_sends_base64_body_and_returns_sha() {
    let req = api().create_blob("o", "r", b"hi");
    assert_eq!(req.method, HttpMethod::Post);
    assert_eq!(req.url, "http://mock/repos/o/r/git/blobs");
    let headers = api().auth_headers();
    assert!(headers.contains(&("authorization".to_string(), "Bearer test-token".to_string())));
    assert!(headers.contains(&("user-agent".to_string(), "gh-agent-screenshot".to_string())));
}

#[test]
fn create_blob_body_is_base64_encoded() {
    // "hi" base64 = "aGk="
    match api().create_blob("o", "r", b"hi").body {
        Some(RequestBody::Blob { content, encoding }) => {
            assert_eq!(content, "aGk=");
            assert_eq!(encoding, "base64");
        }
        _ => panic!("expected a blob body"),
    }
}

#[test]
fn blob_content_of_longer_input_is_padded_base64() {
    match api().create_blob("o", "r", b"hello world~").body {
        Some(RequestBody::Blob { content, .. }) => assert_eq!(content, "aGVsbG8gd29ybGR+"),
        _ => panic!("expected a blob body"),
    }
    match api().create_blob("o", "r", b"").body {
        Some(RequestBody::Blob { content, .. }) => assert_eq!(content, ""),
        _ => panic!("expected a blob body"),
    }
}

#[test]
fn blob_request_carries_encoded_content() {
    let req = api().blob_request("o", "r", "aGk=".to_string());
    assert_eq!(req.method, HttpMethod::Post);
    assert_eq!(req.url, "http://mock/repos/o/r/git/blobs");
    match req.body {
        Some(RequestBody::Blob { content, encoding }) => {
            assert_eq!(content, "aGk=");
            assert_eq!(encoding, "base64");
        }
        _ => panic!("expected a blob body"),
    }
}

#[test]
fn create_tree_without_base_tree_omits_field() {
    let req = api().create_tree(
        "o",
        "r",
        None,
        &[TreeEntry { path: "img.png".into(), sha: "blobsha".into() }],
    );
    assert_eq!(req.method, HttpMethod::Post);
    assert_eq!(req.url, "http://mock/repos/o/r/git/trees");
    match req.body {
        Some(RequestBody::Tree { base_tree, tree }) => {
            assert_eq!(base_tree, None);
            assert_eq!(tree.len(), 1);
            assert_eq!(tree[0].path, "img.png");
            assert_eq!(tree[0].mode, "100644");
            assert_eq!(tree[0].kind, "blob");
            assert_eq!(tree[0].sha, "blobsha");
        }
        _ => panic!("expected a tree body"),
    }
}

#[test]
fn create_tree_with_base_tree_includes_field() {
    let req = api().create_tree(
        "o",
        "r",
        Some("xyz"),
        &[TreeEntry { path: "img.png".into(), sha: "bs".into() }],
    );
    match req.body {
        Some(RequestBody::Tree { base_tree, tree }) => {
            assert_eq!(base_tree.as_deref(), Some("xyz"));
            assert_eq!(tree[0].sha, "bs");
        }
        _ => panic!("expected a tree body"),
    }
}

#[test]
fn create_commit_empty_parents_serializes_empty_array() {
    let req = api().create_commit("o", "r", "msg", "ts", &[]);
    assert_eq!(req.url, "http://mock/repos/o/r/git/commits");
    match req.body {
        Some(RequestBody::Commit { message, tree_sha, parents }) => {
            assert_eq!(message, "msg");
            assert_eq!(tree_sha, "ts");
            assert!(parents.is_empty());
        }
        _ => panic!("expected a commit body"),
    }
}

#[test]
fn create_commit_with_parent() {
    let req = api().create_commit("o", "r", "m", "t", &["p1".to_string()]);
    match req.body {
        Some(RequestBody::Commit { parents, .. }) => assert_eq!(parents, vec!["p1".to_string()]),
        _ => panic!("expected a commit body"),
    }
}

#[test]
fn get_ref_returns_none_on_404() {
    let req = api().get_ref("o", "r", "uploads/issue/1");
    assert_eq!(req.method, HttpMethod::Get);
    assert_eq!(req.url, "http://mock/repos/o/r/git/ref/uploads/issue/1");
    assert!(req.body.is_none());
    assert!(is_absent_ref(404));
    assert!(!is_absent_ref(200));
}

#[test]
fn create_ref_sends_full_ref_name() {
    let req = api().create_ref("o", "r", "refs/uploads/issue/1", "sha1");
    assert_eq!(req.method, HttpMethod::Post);
    assert_eq!(req.url, "http://mock/repos/o/r/git/refs");
    match req.body {
        Some(RequestBody::CreateRef { full_ref, sha }) => {
            assert_eq!(full_ref, "refs/uploads/issue/1");
            assert_eq!(sha, "sha1");
        }
        _ => panic!("expected a ref body"),
    }
}

#[test]
fn update_ref_uses_no_prefix_path_and_force_true() {
    let req = api().update_ref("o", "r", "uploads/issue/1", "sha2", true);
    assert_eq!(req.method, HttpMethod::Patch);
    assert_eq!(req.url, "http://mock/repos/o/r/git/refs/uploads/issue/1");
    match req.body {
        Some(RequestBody::UpdateRef { sha, force }) => {
            assert_eq!(sha, "sha2");
            assert!(force);
        }
        _ => panic!("expected a ref update body"),
    }
}

#[test]
fn list_refs_uses_matching_refs_endpoint() {
    let req = api().list_refs("o", "r", "uploads/issue");
    assert_eq!(req.method, HttpMethod::Get);
    assert_eq!(req.url, "http://mock/repos/o/r/git/matching-refs/uploads/issue");
}

#[test]
fn delete_ref_accepts_204() {
    let req = api().delete_ref("o", "r", "uploads/issue/1");
    assert_eq!(req.method, HttpMethod::Delete);
    assert_eq!(req.url, "http://mock/repos/o/r/git/refs/uploads/issue/1");
    assert!(matches!(check_status(204, None, None), StatusCheck::Passed));
}

#[test]
fn get_commit_reads_commit_endpoint() {
    let req = api().get_commit("o", "r", "abc123");
    assert_eq!(req.method, HttpMethod::Get);
    assert_eq!(req.url, "http://mock/repos/o/r/git/commits/abc123");
}

#[test]
fn error_401_maps_to_auth_failure() {
    let err = failure(check_status(401, None, None));
    assert!(matches!(err, Error::AuthFailure));
}

#[test]
fn error_403_with_rate_limit_header_zero_maps_to_rate_limited() {
    let err = failure(check_status(403, Some("0"), None));
    assert!(matches!(err, Error::RateLimited { .. }));
}

#[test]
fn error_403_without_rate_limit_header_maps_to_api_error() {
    let err = response_error(403, None, None, r#"{"message":"Forbidden"}"#);
    assert!(matches!(err, Error::ApiError { status: 403, .. }));
}

#[test]
fn error_403_with_rate_limit_message_maps_to_rate_limited() {
    let err = response_error(403, Some("12"), None, "API rate limit exceeded for user");
    assert_eq!(err, Error::RateLimited { retry_after: None });
}

#[test]
fn error_404_from_non_get_ref_maps_to_api_error() {
    let err = response_error(404, None, None, r#"{"message":"Not Found"}"#);
    assert_eq!(
        err,
        Error::ApiError { status: 404, message: r#"{"message":"Not Found"}"#.to_string() }
    );
}

#[test]
fn error_409_maps_to_empty_repo() {
    let err = failure(check_status(409, None, None));
    assert!(matches!(err, Error::EmptyRepo));
}

#[test]
fn error_422_maps_to_api_error() {
    let err = response_error(422, None, None, r#"{"message":"Unprocessable"}"#);
    assert!(matches!(err, Error::ApiError { status: 422, .. }));
}

#[test]
fn error_429_with_retry_after_header() {
    let err = failure(check_status(429, None, Some("30")));
    assert!(matches!(err, Error::RateLimited { retry_after: Some(30) }));
}

#[test]
fn error_429_with_unreadable_retry_after_has_none() {
    assert_eq!(failure(check_status(429, None, Some("soon"))), Error::RateLimited { retry_after: None });
    assert_eq!(failure(check_status(429, None, None)), Error::RateLimited { retry_after: None });
    assert_eq!(failure(check_status(429, None, Some("+7"))), Error::RateLimited { retry_after: Some(7) });
    assert_eq!(
        failure(check_status(429, None, Some("18446744073709551616"))),
        Error::RateLimited { retry_after: None }
    );
}

#[test]
fn other_statuses_carry_their_body() {
    assert!(matches!(check_status(500, None, None), StatusCheck::NeedsBody));
    assert!(matches!(check_status(200, None, None), StatusCheck::Passed));
    assert!(matches!(check_status(299, None, None), StatusCheck::Passed));
    assert!(matches!(check_status(300, None, None), StatusCheck::NeedsBody));
    assert_eq!(
        error_from_body(500, "boom".to_string()),
        Error::ApiError { status: 500, message: "boom".to_string() }
    );
    // only a 403 turns a rate-limit message into rate limiting
    assert_eq!(
        error_from_body(500, "rate limit exceeded".to_string()),
        Error::ApiError { status: 500, message: "rate limit exceeded".to_string() }
    );
}

#[test]
fn user_agent_header_sent_on_every_request() {
    let headers = api().auth_headers();
    assert_eq!(
        headers,
        vec![
            ("authorization".to_string(), "Bearer test-token".to_string()),
            ("accept".to_string(), "application/vnd.github+json".to_string()),
            ("x-github-api-version".to_string(), "2022-11-28".to_string()),
            ("user-agent".to_string(), "gh-agent-screenshot".to_string()),
        ]
    );
}

#[test]
fn default_api_is_github() {
    let api = GitHubApi::new("t".to_string());
    assert_eq!(api.base_url, "https://api.github.com");
    assert_eq!(api.token, "t");
    assert_eq!(api.get_ref("o", "r", "x").url, "https://api.github.com/repos/o/r/git/ref/x");
}

#[test]
fn create_comment_posts_to_issues_endpoint_and_returns_id() {
    let req = api().create_comment("o", "r", 42, "hello");
    assert_eq!(req.method, HttpMethod::Post);
    assert_eq!(req.url, "http://mock/repos/o/r/issues/42/comments");
    assert_eq!(text_of(&req), "hello");
}

#[test]
fn update_comment_patches_comment_endpoint() {
    let req = api().update_comment("o", "r", 99, "new");
    assert_eq!(req.method, HttpMethod::Patch);
    assert_eq!(req.url, "http://mock/repos/o/r/issues/comments/99");
    assert_eq!(text_of(&req), "new");
}

#[test]
fn patch_issue_body_patches_issue_endpoint() {
    let req = api().patch_issue_body("o", "r", 42, "text");
    assert_eq!(req.method, HttpMethod::Patch);
    assert_eq!(req.url, "http://mock/repos/o/r/issues/42");
    assert_eq!(text_of(&req), "text");
}

#[test]
fn patch_pr_body_patches_pulls_endpoint_not_issues() {
    let req = api().patch_pr_body("o", "r", 7, "text");
    assert_eq!(req.method, HttpMethod::Patch);
    assert_eq!(req.url, "http://mock/repos/o/r/pulls/7");
    assert_eq!(text_of(&req), "text");
}

#[test]
fn create_comment_404_returns_api_error() {
    let req = api().create_comment("o", "r", 99, "body");
    assert_eq!(req.url, "http://mock/repos/o/r/issues/99/comments");
    let err = response_error(404, None, None, r#"{"message": "Not Found"}"#);
    assert!(matches!(err, Error::ApiError { status: 404, .. }));
}

#[test]
fn append_body_empty_existing_returns_addition_only() {
    assert_eq!(append_body("", "new"), "new");
    assert_eq!(append_body("   \n  ", "new"), "new");
}

#[test]
fn append_body_non_empty_joins_with_blank_line() {
    assert_eq!(append_body("old", "new"), "old\n\nnew");
    assert_eq!(append_body("old\n", "new"), "old\n\nnew");
}

#[test]
fn append_body_keeps_leading_whitespace_and_drops_trailing() {
    assert_eq!(append_body("  old  \t\n", "new"), "  old\n\nnew");
    assert_eq!(append_body("\u{3000}", "new"), "new");
    assert_eq!(append_body("a\u{a0}", ""), "a\n\n");
}

#[test]
fn get_issue_body_returns_empty_string_on_null_body() {
    let req = api().get_issue_body("o", "r", 42);
    assert_eq!(req.method, HttpMethod::Get);
    assert_eq!(req.url, "http://mock/repos/o/r/issues/42");
    assert_eq!(body_or_empty(None), "");
    assert_eq!(body_or_empty(Some("x".to_string())), "x");
}

#[test]
fn get_pr_body_returns_empty_string_on_null_body() {
    let req = api().get_pr_body("o", "r", 7);
    assert_eq!(req.url, "http://mock/repos/o/r/pulls/7");
    assert_eq!(body_or_empty(None), "");
}

#[test]
fn get_comment_body_returns_empty_string_on_null_body() {
    let req = api().get_comment_body("o", "r", 99);
    assert_eq!(req.url, "http://mock/repos/o/r/issues/comments/99");
    assert_eq!(body_or_empty(None), "");
}

#[test]
fn append_issue_body_gets_then_patches_joined_body() {
    let get = api().get_issue_body("o", "r", 42);
    assert_eq!(get.url, "http://mock/repos/o/r/issues/42");
    let joined = append_body("old", "new");
    let patch = api().patch_issue_body("o", "r", 42, &joined);
    assert_eq!(patch.url, "http://mock/repos/o/r/issues/42");
    assert_eq!(text_of(&patch), "old\n\nnew");
}

#[test]
fn append_pr_body_gets_then_patches_joined_body() {
    let get = api().get_pr_body("o", "r", 7);
    assert_eq!(get.url, "http://mock/repos/o/r/pulls/7");
    let patch = api().patch_pr_body("o", "r", 7, &append_body("old", "new"));
    assert_eq!(patch.url, "http://mock/repos/o/r/pulls/7");
    assert_eq!(text_of(&patch), "old\n\nnew");
}

#[test]
fn append_comment_gets_then_patches_joined_body() {
    let get = api().get_comment_body("o", "r", 99);
    assert_eq!(get.url, "http://mock/repos/o/r/issues/comments/99");
    let patch = api().update_comment("o", "r", 99, &append_body("old", "new"));
    assert_eq!(patch.url, "http://mock/repos/o/r/issues/comments/99");
    assert_eq!(text_of(&patch), "old\n\nnew");
}

#[test]
fn appending_twice_equals_appending_the_joined_text() {
    for existing in ["", "  \n", "intro", "intro\n\n"] {
        let twice = append_body(&append_body(existing, "![](a)"), "![](b)");
        let once = append_body(existing, "![](a)\n\n![](b)");
        assert_eq!(twice, once);
    }
    assert_eq!(append_body(&append_body("intro", "x"), "y"), "intro\n\nx\n\ny");
}
