use gh_agent_screenshot::git_data_api::RefInfo;
use gh_agent_screenshot::upload::{
    compose_markdown, embed_url, percent_encode_path_component, EmbedUrl, Target, UploadAction,
    UploadEvent, UploadPlan,
};

fn names(list: &[&str]) -> Vec<String> {
    list.iter().map(|s| s.to_string()).collect()
}

fn strings(list: &[&str]) -> Vec<String> {
    names(list)
}

fn expect_lookup(a: UploadAction, want: &str) {
    match a {
        UploadAction::LookupRef { ref_no_prefix } => assert_eq!(ref_no_prefix, want),
        _ => panic!("expected a ref lookup"),
    }
}

fn expect_blobs(a: UploadAction, count: usize) {
    match a {
        UploadAction::CreateBlobs { count: c } => assert_eq!(c, count),
        _ => panic!("expected blob creation"),
    }
}

fn expect_tree(a: UploadAction, base: Option<&str>, entries: &[(&str, &str)]) {
    match a {
        UploadAction::CreateTree { base_tree, entries: got } => {
            assert_eq!(base_tree.as_deref(), base);
            let got: Vec<(String, String)> =
                got.into_iter().map(|e| (e.path, e.sha)).collect();
            let want: Vec<(String, String)> =
                entries.iter().map(|(p, s)| (p.to_string(), s.to_string())).collect();
            assert_eq!(got, want);
        }
        _ => panic!("expected tree creation"),
    }
}

fn expect_commit(a: UploadAction, message: &str, tree: &str, parents: &[&str]) {
    match a {
        UploadAction::CreateCommit { message: m, tree_sha, parents: p } => {
            assert_eq!(m, message);
            assert_eq!(tree_sha, tree);
            assert_eq!(p, strings(parents));
        }
        _ => panic!("expected commit creation"),
    }
}

fn expect_create_ref(a: UploadAction, full_ref: &str, sha: &str) {
    match a {
        UploadAction::CreateRef { full_ref: f, sha: s } => {
            assert_eq!(f, full_ref);
            assert_eq!(s, sha);
        }
        _ => panic!("expected ref creation"),
    }
}

fn expect_update_ref(a: UploadAction, name: &str, sha: &str) {
    match a {
        UploadAction::UpdateRef { ref_no_prefix, sha: s, force } => {
            assert_eq!(ref_no_prefix, name);
            assert_eq!(s, sha);
            assert!(force);
        }
        _ => panic!("expected a forced ref update"),
    }
}

fn finished(a: UploadAction) -> Vec<EmbedUrl> {
    match a {
        UploadAction::Finished { urls } => urls,
        _ => panic!("expected the upload to finish"),
    }
}

/// Runs a first upload (no upload ref yet) with every blob getting `blob`.
fn first_upload(target: Target, files: &[&str], blob: &str, tree: &str, commit: &str) -> (Vec<UploadAction>, Vec<EmbedUrl>) {
    let (mut plan, a0) = UploadPlan::new("o", "r", target, names(files));
    let a1 = plan.step(UploadEvent::RefLooked(None));
    let a2 = plan.step(UploadEvent::BlobsCreated(vec![blob.to_string(); files.len()]));
    let a3 = plan.step(UploadEvent::TreeCreated(tree.to_string()));
    let a4 = plan.step(UploadEvent::CommitCreated(commit.to_string()));
    let a5 = plan.step(UploadEvent::RefWritten);
    (vec![a0, a1, a2, a3, a4], finished(a5))
}

#[test]
fn embed_url_basic_format() {
    let sha = "a".repeat(40);
    let url = embed_url("o", "r", &sha, "img.png");
    assert_eq!(
        url.to_string(),
        format!("https://github.com/o/r/blob/{}/img.png?raw=true", sha)
    );
}

#[test]
fn embed_url_encodes_spaces() {
    let sha = "a".repeat(40);
    let url = embed_url("o", "r", &sha, "foo bar.png");
    assert_eq!(
        url.to_string(),
        format!("https://github.com/o/r/blob/{}/foo%20bar.png?raw=true", sha)
    );
}

#[test]
fn embed_url_encodes_hash_and_question() {
    let sha = "b".repeat(40);
    let url = embed_url("o", "r", &sha, "file#1?.png");
    assert_eq!(
        url.to_string(),
        format!(
            "https://github.com/o/r/blob/{}/file%231%3F.png?raw=true",
            sha
        )
    );
}

#[test]
fn embed_url_encodes_non_ascii() {
    let sha = "c".repeat(40);
    // é is UTF-8: 0xC3 0xA9
    let url = embed_url("o", "r", &sha, "café.png");
    let s = url.to_string();
    assert!(s.contains("%C3%A9"), "expected %C3%A9 for é, got: {}", s);
    assert!(s.starts_with("https://github.com/o/r/blob/"));
    assert!(s.ends_with("?raw=true"));
}

#[test]
fn percent_encoding_keeps_unreserved_only() {
    assert_eq!(percent_encode_path_component("AZaz09-._~"), "AZaz09-._~");
    assert_eq!(percent_encode_path_component("a/b"), "a%2Fb");
    assert_eq!(percent_encode_path_component(""), "");
    assert_eq!(percent_encode_path_component("%"), "%25");
    assert_eq!(percent_encode_path_component("\u{1F600}"), "%F0%9F%98%80");
}

#[test]
fn target_ref_segment_and_number() {
    assert_eq!(Target::Issue(5).ref_segment(), "issue");
    assert_eq!(Target::Pr(7).ref_segment(), "pr");
    assert_eq!(Target::Issue(5).number(), 5);
    assert_eq!(Target::Pr(7).number(), 7);
}

#[test]
fn upload_single_first_upload_no_existing_ref() {
    let (actions, urls) = first_upload(Target::Issue(42), &["test_first_upload.png"], "blobsha1", "treesha1", "commitsha1");
    let mut it = actions.into_iter();
    expect_lookup(it.next().unwrap(), "uploads/issue/42");
    expect_blobs(it.next().unwrap(), 1);
    expect_tree(it.next().unwrap(), None, &[("test_first_upload.png", "blobsha1")]);
    expect_commit(it.next().unwrap(), "upload test_first_upload.png", "treesha1", &[]);
    expect_create_ref(it.next().unwrap(), "refs/uploads/issue/42", "commitsha1");
    assert_eq!(urls.len(), 1);
    assert_eq!(
        urls[0].to_string(),
        "https://github.com/o/r/blob/commitsha1/test_first_upload.png?raw=true"
    );
}

#[test]
fn upload_single_repeat_upload_ref_exists() {
    let (mut plan, a0) = UploadPlan::new("o", "r", Target::Issue(42), names(&["test_repeat_upload.png"]));
    expect_lookup(a0, "uploads/issue/42");
    let a1 = plan.step(UploadEvent::RefLooked(Some(RefInfo {
        ref_name: "refs/uploads/issue/42".to_string(),
        object_sha: "oldcommit".to_string(),
    })));
    match a1 {
        UploadAction::FetchCommitTree { commit_sha } => assert_eq!(commit_sha, "oldcommit"),
        _ => panic!("expected the old commit's tree to be fetched"),
    }
    expect_blobs(plan.step(UploadEvent::BaseTreeFetched("oldtree".to_string())), 1);
    expect_tree(
        plan.step(UploadEvent::BlobsCreated(strings(&["blobsha2"]))),
        Some("oldtree"),
        &[("test_repeat_upload.png", "blobsha2")],
    );
    expect_commit(
        plan.step(UploadEvent::TreeCreated("treesha2".to_string())),
        "upload test_repeat_upload.png",
        "treesha2",
        &["oldcommit"],
    );
    expect_update_ref(
        plan.step(UploadEvent::CommitCreated("commitsha2".to_string())),
        "uploads/issue/42",
        "commitsha2",
    );
    let urls = finished(plan.step(UploadEvent::RefWritten));
    assert_eq!(
        urls[0].to_string(),
        "https://github.com/o/r/blob/commitsha2/test_repeat_upload.png?raw=true"
    );
}

#[test]
fn target_pr_variant_uses_singular_pr_in_ref_path() {
    let (actions, urls) = first_upload(Target::Pr(7), &["test_pr_upload.png"], "bs", "ts", "cs");
    let mut it = actions.into_iter();
    expect_lookup(it.next().unwrap(), "uploads/pr/7");
    it.next();
    it.next();
    it.next();
    expect_create_ref(it.next().unwrap(), "refs/uploads/pr/7", "cs");
    assert!(
        urls[0].to_string().contains("/blob/cs/test_pr_upload.png"),
        "URL should contain commit sha and filename: {}",
        urls[0].to_string()
    );
}

#[test]
fn upload_batch_two_files_first_upload_no_base_tree() {
    let (actions, urls) = first_upload(Target::Issue(1), &["batch1_alpha.png", "batch1_zulu.png"], "blobsha", "treesha", "commitsha");
    let mut it = actions.into_iter();
    expect_lookup(it.next().unwrap(), "uploads/issue/1");
    expect_blobs(it.next().unwrap(), 2);
    expect_tree(
        it.next().unwrap(),
        None,
        &[("batch1_alpha.png", "blobsha"), ("batch1_zulu.png", "blobsha")],
    );
    expect_commit(
        it.next().unwrap(),
        "upload 2 file(s): batch1_alpha.png, batch1_zulu.png",
        "treesha",
        &[],
    );
    expect_create_ref(it.next().unwrap(), "refs/uploads/issue/1", "commitsha");
    assert_eq!(urls.len(), 2);
    assert!(
        urls[0].to_string().contains("batch1_alpha.png"),
        "first URL must be for alpha file, got: {}",
        urls[0].to_string()
    );
    assert!(
        urls[1].to_string().contains("batch1_zulu.png"),
        "second URL must be for zulu file, got: {}",
        urls[1].to_string()
    );
}

#[test]
fn upload_batch_two_files_repeat_upload_with_base_tree() {
    let (mut plan, a0) = UploadPlan::new("o", "r", Target::Issue(2), names(&["batch2_alpha.png", "batch2_zulu.png"]));
    expect_lookup(a0, "uploads/issue/2");
    plan.step(UploadEvent::RefLooked(Some(RefInfo {
        ref_name: "refs/uploads/issue/2".to_string(),
        object_sha: "oldcommit".to_string(),
    })));
    expect_blobs(plan.step(UploadEvent::BaseTreeFetched("oldtree".to_string())), 2);
    expect_tree(
        plan.step(UploadEvent::BlobsCreated(strings(&["blobsha", "blobsha"]))),
        Some("oldtree"),
        &[("batch2_alpha.png", "blobsha"), ("batch2_zulu.png", "blobsha")],
    );
    expect_commit(
        plan.step(UploadEvent::TreeCreated("treesha2".to_string())),
        "upload 2 file(s): batch2_alpha.png, batch2_zulu.png",
        "treesha2",
        &["oldcommit"],
    );
    expect_update_ref(
        plan.step(UploadEvent::CommitCreated("commitsha2".to_string())),
        "uploads/issue/2",
        "commitsha2",
    );
    let result = finished(plan.step(UploadEvent::RefWritten));
    assert_eq!(result.len(), 2);
    assert!(result[0].to_string().contains("batch2_alpha.png"));
    assert!(result[1].to_string().contains("batch2_zulu.png"));
}

#[test]
fn upload_batch_preserves_input_order() {
    // Input order: c, a, b — tree must be sorted (a, b, c) but URLs returned in input order
    let (mut plan, _) = UploadPlan::new("o", "r", Target::Issue(3), names(&["order_c.png", "order_a.png", "order_b.png"]));
    expect_blobs(plan.step(UploadEvent::RefLooked(None)), 3);
    expect_tree(
        plan.step(UploadEvent::BlobsCreated(strings(&["sha_c", "sha_a", "sha_b"]))),
        None,
        &[("order_a.png", "sha_a"), ("order_b.png", "sha_b"), ("order_c.png", "sha_c")],
    );
    expect_commit(
        plan.step(UploadEvent::TreeCreated("treesha3".to_string())),
        "upload 3 file(s): order_c.png, order_a.png, order_b.png",
        "treesha3",
        &[],
    );
    plan.step(UploadEvent::CommitCreated("commitsha3".to_string()));
    let result = finished(plan.step(UploadEvent::RefWritten));
    assert_eq!(result.len(), 3);
    assert!(
        result[0].to_string().contains("order_c.png"),
        "result[0] must be c (input order), got: {}",
        result[0].to_string()
    );
    assert!(
        result[1].to_string().contains("order_a.png"),
        "result[1] must be a (input order), got: {}",
        result[1].to_string()
    );
    assert!(
        result[2].to_string().contains("order_b.png"),
        "result[2] must be b (input order), got: {}",
        result[2].to_string()
    );
}

#[test]
fn upload_batch_single_file_matches_upload_single_shape() {
    let (actions, urls) = first_upload(Target::Issue(4), &["batch_shape_single.png"], "bs", "ts", "cs");
    assert_eq!(actions.len(), 5);
    assert_eq!(urls.len(), 1);
    assert!(urls[0].to_string().contains("batch_shape_single.png"));
}

#[test]
fn tree_sort_is_stable_and_bytewise() {
    let (mut plan, _) = UploadPlan::new("o", "r", Target::Issue(9), names(&["b.png", "B.png", "a.png", "b.png"]));
    plan.step(UploadEvent::RefLooked(None));
    expect_tree(
        plan.step(UploadEvent::BlobsCreated(strings(&["s0", "s1", "s2", "s3"]))),
        None,
        &[("B.png", "s1"), ("a.png", "s2"), ("b.png", "s0"), ("b.png", "s3")],
    );
}

#[test]
fn events_out_of_turn_are_ignored() {
    let (mut plan, _) = UploadPlan::new("o", "r", Target::Issue(1), names(&["x.png"]));
    assert!(matches!(plan.step(UploadEvent::RefWritten), UploadAction::Ignored));
    expect_blobs(plan.step(UploadEvent::RefLooked(None)), 1);
    // the wrong number of blob SHAs changes nothing
    assert!(matches!(plan.step(UploadEvent::BlobsCreated(vec![])), UploadAction::Ignored));
    expect_tree(plan.step(UploadEvent::BlobsCreated(strings(&["s"]))), None, &[("x.png", "s")]);
}

#[test]
fn compose_markdown_joins_with_newline() {
    let sha = "a".repeat(40);
    let urls = vec![
        embed_url("o", "r", &sha, "c.png"),
        embed_url("o", "r", &sha, "a.png"),
        embed_url("o", "r", &sha, "b.png"),
    ];
    let md = compose_markdown(&urls);
    let lines: Vec<&str> = md.split('\n').collect();
    assert_eq!(lines.len(), 3);
    assert!(lines[0].contains("c.png"));
    assert!(lines[1].contains("a.png"));
    assert!(lines[2].contains("b.png"));
    assert!(lines[0].starts_with("![](") && lines[0].ends_with(')'));
}

#[test]
fn compose_markdown_single_url() {
    let sha = "b".repeat(40);
    let urls = vec![embed_url("o", "r", &sha, "img.png")];
    let md = compose_markdown(&urls);
    assert_eq!(
        md,
        format!("![](https://github.com/o/r/blob/{}/img.png?raw=true)", sha)
    );
    assert!(
        !md.ends_with('\n'),
        "single URL must not have trailing newline"
    );
}

#[test]
fn compose_markdown_of_nothing_is_empty() {
    assert_eq!(compose_markdown(&[]), "");
}

/// Reads `%XY` escapes back into bytes.
fn percent_decode(s: &str) -> Vec<u8> {
    let b = s.as_bytes();
    let mut out = Vec::new();
    let mut i = 0;
    while i < b.len() {
        if b[i] == b'%' && i + 2 < b.len() {
            let hex = std::str::from_utf8(&b[i + 1..i + 3]).unwrap();
            out.push(u8::from_str_radix(hex, 16).unwrap());
            i += 3;
        } else {
            out.push(b[i]);
            i += 1;
        }
    }
    out
}

#[test]
fn percent_decoding_gives_back_the_file_name() {
    for name in ["café.png", "file#1?.png", "foo bar.png", "100%.png", "a/b\\c", "\u{1F600}.gif"] {
        let encoded = percent_encode_path_component(name);
        assert_eq!(percent_decode(&encoded), name.as_bytes());
    }
}

fn writes_ref(a: &UploadAction) -> bool {
    matches!(a, UploadAction::CreateRef { .. } | UploadAction::UpdateRef { .. })
}

#[test]
fn ref_is_written_only_after_the_commit_exists() {
    let (mut plan, _) = UploadPlan::new("o", "r", Target::Issue(3), names(&["a.png"]));
    // Events out of turn ask for nothing, in particular no ref write.
    assert!(matches!(plan.step(UploadEvent::CommitCreated("c1".into())), UploadAction::Ignored));
    assert!(matches!(plan.step(UploadEvent::RefWritten), UploadAction::Ignored));
    let a1 = plan.step(UploadEvent::RefLooked(None));
    assert!(!writes_ref(&a1));
    // A wrong number of blobs is ignored too.
    assert!(matches!(plan.step(UploadEvent::BlobsCreated(vec![])), UploadAction::Ignored));
    let a2 = plan.step(UploadEvent::BlobsCreated(vec!["b1".into()]));
    assert!(!writes_ref(&a2));
    assert!(matches!(plan.step(UploadEvent::CommitCreated("c1".into())), UploadAction::Ignored));
    let a3 = plan.step(UploadEvent::TreeCreated("t1".into()));
    assert!(!writes_ref(&a3));
    let a4 = plan.step(UploadEvent::CommitCreated("c1".into()));
    expect_create_ref(a4, "refs/uploads/issue/3", "c1");
    // Once written, a second commit event cannot write the ref again.
    assert!(matches!(plan.step(UploadEvent::CommitCreated("c2".into())), UploadAction::Ignored));
    let urls = finished(plan.step(UploadEvent::RefWritten));
    assert_eq!(urls.len(), 1);
    assert!(matches!(plan.step(UploadEvent::CommitCreated("c3".into())), UploadAction::Ignored));
}
