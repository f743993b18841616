//! The GitHub REST requests the tool makes, how their responses are judged, and how text
//! is appended to an existing body.
use base64::engine::general_purpose::STANDARD;
use base64::Engine;
use vstd::prelude::*;
use vstd::string::*;

use crate::error::Error;
use crate::text::{
    chars_of, contains_chars, contains_seq, is_blank_str, owned, parse_u64, parse_u64_spec,
    push_decimal, decimal, trim, trim_end, trim_end_str, lemma_trim_end_blank,
};

verus! {

/// What `base64::engine::general_purpose::STANDARD.encode` returns for `bytes`: standard
/// alphabet, with padding.
pub uninterp spec fn base64_standard(bytes: Seq<u8>) -> Seq<char>;

/// `base64::engine::general_purpose::STANDARD.encode(bytes)`.
///
/// Trusted: the result is named `base64_standard(bytes)`; the call panics only when the
/// encoded length overflows `usize`, which `requires` leaves out.
#[verifier::external_body]
fn encode_base64(bytes: &[u8]) -> (s: String)
    requires
        4 * ((bytes@.len() + 2) / 3) <= usize::MAX,
    ensures
        s@ == base64_standard(bytes@),
{
    STANDARD.encode(bytes)
}

/// `existing` followed by `addition`, separated by a blank line; a blank `existing` gives
/// `addition` alone.
pub open spec fn appended(existing: Seq<char>, addition: Seq<char>) -> Seq<char> {
    if trim(existing).len() == 0 {
        addition
    } else {
        trim_end(existing) + "\n\n"@ + addition
    }
}

/// Appends `addition` after `existing`, blank-line separated. Empty existing → just addition.
pub fn append_body(existing: &str, addition: &str) -> (r: String)
    ensures
        r@ == appended(existing@, addition@),
{
    if is_blank_str(existing) {
        owned(addition)
    } else {
        let mut r = trim_end_str(existing);
        r.append("\n\n");
        r.append(addition);
        r
    }
}

/// A file to place in a tree: its path and the SHA of its blob.
pub struct TreeEntry {
    pub path: String,
    pub sha: String,
}

/// A git reference and the SHA of the object it points to.
pub struct RefInfo {
    pub ref_name: String,
    pub object_sha: String,
}

/// The HTTP method of a request.
#[derive(Debug, Clone, Copy, PartialEq, Eq, Structural)]
pub enum HttpMethod {
    Get,
    Post,
    Patch,
    Delete,
}

/// One entry of a tree-creation request.
pub struct TreeItem {
    pub path: String,
    pub mode: String,
    pub kind: String,
    pub sha: String,
}

/// The JSON body of a request.
pub enum RequestBody {
    Blob { content: String, encoding: String },
    Tree { base_tree: Option<String>, tree: Vec<TreeItem> },
    Commit { message: String, tree_sha: String, parents: Vec<String> },
    CreateRef { full_ref: String, sha: String },
    UpdateRef { sha: String, force: bool },
    Text { body: String },
}

/// A request to the GitHub REST API.
pub struct ApiRequest {
    pub method: HttpMethod,
    pub url: String,
    pub body: Option<RequestBody>,
}

/// Where and as whom requests are made.
pub struct GitHubApi {
    pub base_url: String,
    pub token: String,
}

/// `<base>/repos/<owner>/<repo><tail>`.
pub open spec fn repo_url(base: Seq<char>, owner: Seq<char>, repo: Seq<char>, tail: Seq<char>) -> Seq<char> {
    base + "/repos/"@ + owner + "/"@ + repo + tail
}

/// Two lists of strings with the same texts, in the same order.
pub open spec fn same_texts(a: Seq<String>, b: Seq<String>) -> bool {
    a.len() == b.len() && forall|i: int| 0 <= i < a.len() ==> #[trigger] a[i]@ == b[i]@
}

/// The tree items for `entries`: regular files (`100644`) holding blobs.
pub open spec fn tree_items_match(items: Seq<TreeItem>, entries: Seq<TreeEntry>) -> bool {
    &&& items.len() == entries.len()
    &&& forall|i: int|
        0 <= i < items.len() ==> {
            &&& #[trigger] items[i].path@ == entries[i].path@
            &&& items[i].sha@ == entries[i].sha@
            &&& items[i].mode@ == "100644"@
            &&& items[i].kind@ == "blob"@
        }
}

pub open spec fn is_success(status: u16) -> bool {
    200 <= status <= 299
}

/// How a response status is judged before its body is read.
pub enum StatusCheck {
    /// A 2xx status: the response is used.
    Passed,
    /// The request failed with this error.
    Failed(Error),
    /// The request failed; the error depends on the response body.
    NeedsBody,
}

/// Judges a response status. `ratelimit_remaining` and `retry_after` are the values of
/// the `x-ratelimit-remaining` and `retry-after` headers, where present and readable.
pub fn check_status(status: u16, ratelimit_remaining: Option<&str>, retry_after: Option<&str>) -> (c: StatusCheck)
    ensures
        is_success(status) ==> c is Passed,
        status == 401 ==> c == StatusCheck::Failed(Error::AuthFailure),
        status == 403 ==> c == (if ratelimit_remaining matches Some(v) && v@ == "0"@ {
            StatusCheck::Failed(Error::RateLimited { retry_after: None })
        } else {
            StatusCheck::NeedsBody
        }),
        status == 409 ==> c == StatusCheck::Failed(Error::EmptyRepo),
        status == 429 ==> c == StatusCheck::Failed(
            Error::RateLimited {
                retry_after: match retry_after {
                    Some(v) => parse_u64_spec(v@),
                    None => None,
                },
            },
        ),
        !is_success(status) && status != 401 && status != 403 && status != 409 && status != 429
            ==> c is NeedsBody,
{
    if 200 <= status && status <= 299 {
        return StatusCheck::Passed;
    }
    if status == 401 {
        StatusCheck::Failed(Error::AuthFailure)
    } else if status == 403 {
        let exhausted = match ratelimit_remaining {
            Some(v) => is_zero_text(v),
            None => false,
        };
        if exhausted {
            StatusCheck::Failed(Error::RateLimited { retry_after: None })
        } else {
            StatusCheck::NeedsBody
        }
    } else if status == 409 {
        StatusCheck::Failed(Error::EmptyRepo)
    } else if status == 429 {
        let retry_after = match retry_after {
            Some(v) => parse_u64(v),
            None => None,
        };
        StatusCheck::Failed(Error::RateLimited { retry_after })
    } else {
        StatusCheck::NeedsBody
    }
}

fn is_zero_text(v: &str) -> (b: bool)
    ensures
        b == (v@ == "0"@),
{
    proof {
        reveal_strlit("0");
    }
    let cs = chars_of(v);
    let b = cs.len() == 1 && cs[0] == '0';
    assert(b ==> v@ =~= "0"@);
    b
}

/// The error of a failed response whose body is `body`: a 403 whose body mentions the
/// rate limit is rate limiting; anything else is an API error carrying the body.
pub fn error_from_body(status: u16, body: String) -> (e: Error)
    ensures
        status == 403 && contains_seq(body@, "rate limit exceeded"@) ==> e == (Error::RateLimited {
            retry_after: None,
        }),
        !(status == 403 && contains_seq(body@, "rate limit exceeded"@)) ==> (e matches Error::ApiError { status: s, message } && s == status && message@ == body@),
{
    if status == 403 {
        let hay = chars_of(body.as_str());
        let needle = chars_of("rate limit exceeded");
        if contains_chars(hay.as_slice(), needle.as_slice()) {
            return Error::RateLimited { retry_after: None };
        }
    }
    Error::ApiError { status, message: body }
}

/// Looking a ref up, a 404 means there is no such ref rather than a failure.
pub fn is_absent_ref(status: u16) -> (b: bool)
    ensures
        b == (status == 404),
{
    status == 404
}

/// The text of a body that may be null.
pub fn body_or_empty(body: Option<String>) -> (s: String)
    ensures
        s@ == match body {
            Some(b) => b@,
            None => Seq::<char>::empty(),
        },
{
    match body {
        Some(b) => b,
        None => String::new(),
    }
}

/// The default API root.
pub open spec fn github_api_root() -> Seq<char> {
    "https://api.github.com"@
}

/// `<base>/repos/<owner>/<repo><tail>` as a string.
fn repo_url_string(base: &str, owner: &str, repo: &str, tail: &str) -> (u: String)
    ensures
        u@ == repo_url(base@, owner@, repo@, tail@),
{
    let mut u = owned(base);
    u.append("/repos/");
    u.append(owner);
    u.append("/");
    u.append(repo);
    u.append(tail);
    u
}

/// `<base>/repos/<owner>/<repo><tail><n>` with `n` in decimal.
fn repo_url_number(base: &str, owner: &str, repo: &str, tail: &str, n: u64) -> (u: String)
    ensures
        u@ == repo_url(base@, owner@, repo@, tail@ + decimal(n as nat)),
{
    let mut u = repo_url_string(base, owner, repo, tail);
    push_decimal(&mut u, n);
    u
}

/// A text body request.
fn text_body(body: &str) -> (b: Option<RequestBody>)
    ensures
        b matches Some(RequestBody::Text { body: t }) && t@ == body@,
{
    Some(RequestBody::Text { body: owned(body) })
}

impl GitHubApi {
    /// The public GitHub API, as `token`.
    pub fn new(token: String) -> (api: Self)
        ensures
            api.base_url@ == github_api_root(),
            api.token@ == token@,
    {
        GitHubApi { base_url: owned("https://api.github.com"), token }
    }

    /// An API rooted at `base_url`, as `token`.
    pub fn with_base_url(token: String, base_url: String) -> (api: Self)
        ensures
            api.base_url@ == base_url@,
            api.token@ == token@,
    {
        GitHubApi { base_url, token }
    }

    /// The headers every request carries: bearer authorization, the GitHub JSON media
    /// type, the pinned API version, and the tool's user agent.
    pub fn auth_headers(&self) -> (h: Vec<(String, String)>)
        ensures
            h.deep_view() == seq![
                ("authorization"@, "Bearer "@ + self.token@),
                ("accept"@, "application/vnd.github+json"@),
                ("x-github-api-version"@, "2022-11-28"@),
                ("user-agent"@, "gh-agent-screenshot"@),
            ],
    {
        let mut bearer = owned("Bearer ");
        bearer.append(self.token.as_str());
        let mut h: Vec<(String, String)> = Vec::new();
        h.push((owned("authorization"), bearer));
        h.push((owned("accept"), owned("application/vnd.github+json")));
        h.push((owned("x-github-api-version"), owned("2022-11-28")));
        h.push((owned("user-agent"), owned("gh-agent-screenshot")));
        assert(h.deep_view() =~= seq![
            ("authorization"@, "Bearer "@ + self.token@),
            ("accept"@, "application/vnd.github+json"@),
            ("x-github-api-version"@, "2022-11-28"@),
            ("user-agent"@, "gh-agent-screenshot"@),
        ]);
        h
    }

    /// Creates a blob holding `content_bytes`, sent base64-encoded.
    pub fn create_blob(&self, owner: &str, repo: &str, content_bytes: &[u8]) -> (r: ApiRequest)
        requires
            4 * ((content_bytes@.len() + 2) / 3) <= usize::MAX,
        ensures
            r.method == HttpMethod::Post,
            r.url@ == repo_url(self.base_url@, owner@, repo@, "/git/blobs"@),
            r.body matches Some(RequestBody::Blob { content, encoding }) && content@
                == base64_standard(content_bytes@) && encoding@ == "base64"@,
    {
        let content = encode_base64(content_bytes);
        self.blob_request(owner, repo, content)
    }

    /// The blob-creation request for content already base64-encoded as `encoded`.
    pub fn blob_request(&self, owner: &str, repo: &str, encoded: String) -> (r: ApiRequest)
        ensures
            r.method == HttpMethod::Post,
            r.url@ == repo_url(self.base_url@, owner@, repo@, "/git/blobs"@),
            r.body matches Some(RequestBody::Blob { content, encoding }) && content@ == encoded@
                && encoding@ == "base64"@,
    {
        let url = repo_url_string(self.base_url.as_str(), owner, repo, "/git/blobs");
        ApiRequest {
            method: HttpMethod::Post,
            url,
            body: Some(RequestBody::Blob { content: encoded, encoding: owned("base64") }),
        }
    }

    /// Creates a tree of `entries`, on top of `base_tree` where one is given.
    pub fn create_tree(&self, owner: &str, repo: &str, base_tree: Option<&str>, entries: &[TreeEntry]) -> (r: ApiRequest)
        ensures
            r.method == HttpMethod::Post,
            r.url@ == repo_url(self.base_url@, owner@, repo@, "/git/trees"@),
            r.body matches Some(RequestBody::Tree { base_tree: b, tree }) && b.deep_view() == (
            match base_tree {
                Some(t) => Some(t@),
                None => None,
            }) && tree_items_match(tree@, entries@),
    {
        let url = repo_url_string(self.base_url.as_str(), owner, repo, "/git/trees");
        let mut tree: Vec<TreeItem> = Vec::new();
        let mut i: usize = 0;
        while i < entries.len()
            invariant
                i <= entries@.len(),
                tree_items_match(tree@, entries@.take(i as int)),
            decreases entries.len() - i,
        {
            tree.push(
                TreeItem {
                    path: entries[i].path.clone(),
                    mode: owned("100644"),
                    kind: owned("blob"),
                    sha: entries[i].sha.clone(),
                },
            );
            i = i + 1;
        }
        assert(entries@.take(entries@.len() as int) =~= entries@);
        let b = match base_tree {
            Some(t) => Some(owned(t)),
            None => None,
        };
        ApiRequest { method: HttpMethod::Post, url, body: Some(RequestBody::Tree { base_tree: b, tree }) }
    }

    /// Creates a commit of `tree_sha` with `parents`.
    pub fn create_commit(&self, owner: &str, repo: &str, message: &str, tree_sha: &str, parents: &[String]) -> (r: ApiRequest)
        ensures
            r.method == HttpMethod::Post,
            r.url@ == repo_url(self.base_url@, owner@, repo@, "/git/commits"@),
            r.body matches Some(RequestBody::Commit { message: m, tree_sha: t, parents: p }) && m@
                == message@ && t@ == tree_sha@ && same_texts(p@, parents@),
    {
        let url = repo_url_string(self.base_url.as_str(), owner, repo, "/git/commits");
        let mut p: Vec<String> = Vec::new();
        let mut i: usize = 0;
        while i < parents.len()
            invariant
                i <= parents@.len(),
                same_texts(p@, parents@.take(i as int)),
            decreases parents.len() - i,
        {
            p.push(parents[i].clone());
            i = i + 1;
        }
        assert(parents@.take(parents@.len() as int) =~= parents@);
        ApiRequest {
            method: HttpMethod::Post,
            url,
            body: Some(RequestBody::Commit { message: owned(message), tree_sha: owned(tree_sha), parents: p }),
        }
    }

    /// Reads the ref `refs/<ref_no_prefix>`.
    pub fn get_ref(&self, owner: &str, repo: &str, ref_no_prefix: &str) -> (r: ApiRequest)
        ensures
            r.method == HttpMethod::Get,
            r.url@ == repo_url(self.base_url@, owner@, repo@, "/git/ref/"@ + ref_no_prefix@),
            r.body is None,
    {
        let mut url = repo_url_string(self.base_url.as_str(), owner, repo, "/git/ref/");
        url.append(ref_no_prefix);
        ApiRequest { method: HttpMethod::Get, url, body: None }
    }

    /// Creates the ref `full_ref` (with its `refs/` prefix) at `sha`.
    pub fn create_ref(&self, owner: &str, repo: &str, full_ref: &str, sha: &str) -> (r: ApiRequest)
        ensures
            r.method == HttpMethod::Post,
            r.url@ == repo_url(self.base_url@, owner@, repo@, "/git/refs"@),
            r.body matches Some(RequestBody::CreateRef { full_ref: f, sha: s }) && f@ == full_ref@
                && s@ == sha@,
    {
        let url = repo_url_string(self.base_url.as_str(), owner, repo, "/git/refs");
        ApiRequest {
            method: HttpMethod::Post,
            url,
            body: Some(RequestBody::CreateRef { full_ref: owned(full_ref), sha: owned(sha) }),
        }
    }

    /// Moves the ref `refs/<ref_no_prefix>` to `sha`.
    pub fn update_ref(&self, owner: &str, repo: &str, ref_no_prefix: &str, sha: &str, force: bool) -> (r: ApiRequest)
        ensures
            r.method == HttpMethod::Patch,
            r.url@ == repo_url(self.base_url@, owner@, repo@, "/git/refs/"@ + ref_no_prefix@),
            r.body matches Some(RequestBody::UpdateRef { sha: s, force: f }) && s@ == sha@ && f
                == force,
    {
        let mut url = repo_url_string(self.base_url.as_str(), owner, repo, "/git/refs/");
        url.append(ref_no_prefix);
        ApiRequest {
            method: HttpMethod::Patch,
            url,
            body: Some(RequestBody::UpdateRef { sha: owned(sha), force }),
        }
    }

    /// Lists the refs whose names start with `refs/<prefix_no_prefix>`.
    pub fn list_refs(&self, owner: &str, repo: &str, prefix_no_prefix: &str) -> (r: ApiRequest)
        ensures
            r.method == HttpMethod::Get,
            r.url@ == repo_url(self.base_url@, owner@, repo@, "/git/matching-refs/"@ + prefix_no_prefix@),
            r.body is None,
    {
        let mut url = repo_url_string(self.base_url.as_str(), owner, repo, "/git/matching-refs/");
        url.append(prefix_no_prefix);
        ApiRequest { method: HttpMethod::Get, url, body: None }
    }

    /// Reads a commit (for its tree and its committer date).
    pub fn get_commit(&self, owner: &str, repo: &str, commit_sha: &str) -> (r: ApiRequest)
        ensures
            r.method == HttpMethod::Get,
            r.url@ == repo_url(self.base_url@, owner@, repo@, "/git/commits/"@ + commit_sha@),
            r.body is None,
    {
        let mut url = repo_url_string(self.base_url.as_str(), owner, repo, "/git/commits/");
        url.append(commit_sha);
        ApiRequest { method: HttpMethod::Get, url, body: None }
    }

    /// Deletes the ref `refs/<ref_no_prefix>`.
    pub fn delete_ref(&self, owner: &str, repo: &str, ref_no_prefix: &str) -> (r: ApiRequest)
        ensures
            r.method == HttpMethod::Delete,
            r.url@ == repo_url(self.base_url@, owner@, repo@, "/git/refs/"@ + ref_no_prefix@),
            r.body is None,
    {
        let mut url = repo_url_string(self.base_url.as_str(), owner, repo, "/git/refs/");
        url.append(ref_no_prefix);
        ApiRequest { method: HttpMethod::Delete, url, body: None }
    }

    /// Posts a comment; pull request comments go through the issues endpoint too.
    pub fn create_comment(&self, owner: &str, repo: &str, issue_or_pr_number: u32, body: &str) -> (r: ApiRequest)
        ensures
            r.method == HttpMethod::Post,
            r.url@ == repo_url(self.base_url@, owner@, repo@, "/issues/"@ + decimal(issue_or_pr_number as nat) + "/comments"@),
            r.body matches Some(RequestBody::Text { body: t }) && t@ == body@,
    {
        let mut url = repo_url_number(self.base_url.as_str(), owner, repo, "/issues/", issue_or_pr_number as u64);
        url.append("/comments");
        ApiRequest { method: HttpMethod::Post, url, body: text_body(body) }
    }

    /// Replaces the text of a comment.
    pub fn update_comment(&self, owner: &str, repo: &str, comment_id: u64, body: &str) -> (r: ApiRequest)
        ensures
            r.method == HttpMethod::Patch,
            r.url@ == repo_url(self.base_url@, owner@, repo@, "/issues/comments/"@ + decimal(comment_id as nat)),
            r.body matches Some(RequestBody::Text { body: t }) && t@ == body@,
    {
        let url = repo_url_number(self.base_url.as_str(), owner, repo, "/issues/comments/", comment_id);
        ApiRequest { method: HttpMethod::Patch, url, body: text_body(body) }
    }

    /// Replaces the description of an issue.
    pub fn patch_issue_body(&self, owner: &str, repo: &str, issue_number: u32, body: &str) -> (r: ApiRequest)
        ensures
            r.method == HttpMethod::Patch,
            r.url@ == repo_url(self.base_url@, owner@, repo@, "/issues/"@ + decimal(issue_number as nat)),
            r.body matches Some(RequestBody::Text { body: t }) && t@ == body@,
    {
        let url = repo_url_number(self.base_url.as_str(), owner, repo, "/issues/", issue_number as u64);
        ApiRequest { method: HttpMethod::Patch, url, body: text_body(body) }
    }

    /// Replaces the description of a pull request (under `/pulls/`, not `/issues/`).
    pub fn patch_pr_body(&self, owner: &str, repo: &str, pr_number: u32, body: &str) -> (r: ApiRequest)
        ensures
            r.method == HttpMethod::Patch,
            r.url@ == repo_url(self.base_url@, owner@, repo@, "/pulls/"@ + decimal(pr_number as nat)),
            r.body matches Some(RequestBody::Text { body: t }) && t@ == body@,
    {
        let url = repo_url_number(self.base_url.as_str(), owner, repo, "/pulls/", pr_number as u64);
        ApiRequest { method: HttpMethod::Patch, url, body: text_body(body) }
    }

    /// Reads an issue (for its description).
    pub fn get_issue_body(&self, owner: &str, repo: &str, issue_number: u32) -> (r: ApiRequest)
        ensures
            r.method == HttpMethod::Get,
            r.url@ == repo_url(self.base_url@, owner@, repo@, "/issues/"@ + decimal(issue_number as nat)),
            r.body is None,
    {
        let url = repo_url_number(self.base_url.as_str(), owner, repo, "/issues/", issue_number as u64);
        ApiRequest { method: HttpMethod::Get, url, body: None }
    }

    /// Reads a pull request (for its description).
    pub fn get_pr_body(&self, owner: &str, repo: &str, pr_number: u32) -> (r: ApiRequest)
        ensures
            r.method == HttpMethod::Get,
            r.url@ == repo_url(self.base_url@, owner@, repo@, "/pulls/"@ + decimal(pr_number as nat)),
            r.body is None,
    {
        let url = repo_url_number(self.base_url.as_str(), owner, repo, "/pulls/", pr_number as u64);
        ApiRequest { method: HttpMethod::Get, url, body: None }
    }

    /// Reads a comment (for its text).
    pub fn get_comment_body(&self, owner: &str, repo: &str, comment_id: u64) -> (r: ApiRequest)
        ensures
            r.method == HttpMethod::Get,
            r.url@ == repo_url(self.base_url@, owner@, repo@, "/issues/comments/"@ + decimal(comment_id as nat)),
            r.body is None,
    {
        let url = repo_url_number(self.base_url.as_str(), owner, repo, "/issues/comments/", comment_id);
        ApiRequest { method: HttpMethod::Get, url, body: None }
    }
}

/// Appending keeps what was there: the result ends with the addition; unless the existing
/// text is blank, it starts with the existing text verbatim up to its trailing whitespace,
/// then a blank line; a blank existing text is replaced by the addition.
pub proof fn law_append_keeps_existing(existing: Seq<char>, addition: Seq<char>)
    ensures
        ({
            let r = appended(existing, addition);
            &&& r.len() >= addition.len()
            &&& r.skip(r.len() - addition.len()) == addition
            &&& trim(existing).len() == 0 ==> r == addition
            &&& trim(existing).len() > 0 ==> {
                let kept = trim_end(existing).len() as int;
                &&& 0 < kept <= existing.len()
                &&& r.take(kept) == existing.take(kept)
                &&& r.subrange(kept, kept + 2) == seq!['\n', '\n']
                &&& r.len() == kept + 2 + addition.len()
            }
        }),
{
    reveal_strlit("\n\n");
    lemma_trim_end_blank(existing);
    let r = appended(existing, addition);
    assert(r.skip(r.len() - addition.len()) =~= addition);
    if trim(existing).len() > 0 {
        let kept = trim_end(existing).len() as int;
        assert(r.take(kept) =~= existing.take(kept));
        assert(r.subrange(kept, kept + 2) =~= seq!['\n', '\n']);
    }
}

/// Appending twice is appending once with the two additions joined by a blank line, when
/// the first addition has content and no trailing whitespace.
pub proof fn law_append_twice(existing: Seq<char>, first: Seq<char>, second: Seq<char>)
    requires
        trim(first).len() > 0,
        trim_end(first) == first,
    ensures
        appended(appended(existing, first), second) == appended(
            existing,
            first + "\n\n"@ + second,
        ),
{
    reveal_strlit("\n\n");
    lemma_trim_end_blank(first);
    let once = appended(existing, first);
    if trim(existing).len() > 0 {
        assert(once.len() > 0 && once.last() == first.last());
        assert(trim_end(once) == once);
        lemma_trim_end_blank(once);
        assert(once + "\n\n"@ + second =~= trim_end(existing) + "\n\n"@ + (first + "\n\n"@
            + second));
    }
}

} // verus!
