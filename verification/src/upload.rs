//! Upload targets, the links that embed uploaded images, and the plan of an upload.
use vstd::prelude::*;
use vstd::string::*;
use vstd::utf8::encode_utf8;

use crate::git_data_api::{RefInfo, TreeEntry};
use crate::order::{as_ints, stable_order, stable_sort_order};
use crate::text::{decimal, law_decimal_injective, law_decimal_reads_back, owned, parse_u64_spec, push_char, push_decimal};

verus! {

/// The issue or pull request that images are uploaded for.
#[derive(Debug, Clone, Copy, PartialEq, Eq, Structural)]
pub enum Target {
    Issue(u32),
    Pr(u32),
}

impl Target {
    pub open spec fn segment(self) -> Seq<char> {
        match self {
            Target::Issue(_) => "issue"@,
            Target::Pr(_) => "pr"@,
        }
    }

    pub open spec fn num(self) -> u32 {
        match self {
            Target::Issue(n) => n,
            Target::Pr(n) => n,
        }
    }

    /// The path segment naming the kind of target in upload refs (singular: `pr`, not `prs`).
    pub fn ref_segment(&self) -> (s: &'static str)
        ensures
            s@ == self.segment(),
    {
        match self {
            Target::Issue(_) => "issue",
            Target::Pr(_) => "pr",
        }
    }

    /// The issue or pull request number.
    pub fn number(&self) -> (n: u32)
        ensures
            n == self.num(),
    {
        match self {
            Target::Issue(n) => *n,
            Target::Pr(n) => *n,
        }
    }
}

/// A link that renders an uploaded image inline.
pub struct EmbedUrl(pub String);

impl View for EmbedUrl {
    type V = Seq<char>;

    open spec fn view(&self) -> Seq<char> {
        self.0@
    }
}

impl EmbedUrl {
    /// The link as text.
    pub fn to_string(&self) -> (s: String)
        ensures
            s@ == self@,
    {
        self.0.clone()
    }
}

/// The views of a list of links.
pub open spec fn url_views(urls: Seq<EmbedUrl>) -> Seq<Seq<char>> {
    urls.map_values(|u: EmbedUrl| u@)
}

/// Bytes that stand for themselves in a path component (RFC 3986 unreserved characters).
pub open spec fn unreserved(b: u8) -> bool {
    ||| 65 <= b <= 90
    ||| 97 <= b <= 122
    ||| 48 <= b <= 57
    ||| b == 45
    ||| b == 46
    ||| b == 95
    ||| b == 126
}

/// Upper-case hexadecimal digit of `n < 16`.
pub open spec fn hex_upper(n: int) -> char {
    if n < 10 {
        (48 + n) as char
    } else {
        (55 + n) as char
    }
}

/// One byte of a path component, percent-encoded unless unreserved.
pub open spec fn encode_byte(b: u8) -> Seq<char> {
    if unreserved(b) {
        seq![b as char]
    } else {
        seq!['%', hex_upper(b as int / 16), hex_upper(b as int % 16)]
    }
}

/// A byte string percent-encoded as a URL path component.
pub open spec fn percent_encode(bytes: Seq<u8>) -> Seq<char>
    decreases bytes.len(),
{
    if bytes.len() == 0 {
        Seq::empty()
    } else {
        percent_encode(bytes.drop_last()) + encode_byte(bytes.last())
    }
}

/// The embed link of `file_name` as committed in `commit_sha` of `owner/repo`.
pub open spec fn embed_link(owner: Seq<char>, repo: Seq<char>, sha: Seq<char>, file_name: Seq<char>) -> Seq<char> {
    "https://github.com/"@ + owner + "/"@ + repo + "/blob/"@ + sha + "/"@ + percent_encode(
        encode_utf8(file_name),
    ) + "?raw=true"@
}

/// The markdown line that shows one image.
pub open spec fn image_line(url: Seq<char>) -> Seq<char> {
    "![]("@ + url + ")"@
}

/// One image line per link, joined by newlines, with no trailing newline.
pub open spec fn markdown_of(urls: Seq<Seq<char>>) -> Seq<char>
    decreases urls.len(),
{
    if urls.len() == 0 {
        Seq::empty()
    } else if urls.len() == 1 {
        image_line(urls[0])
    } else {
        markdown_of(urls.drop_last()) + "\n"@ + image_line(urls.last())
    }
}

fn hex_digit(n: u8) -> (c: char)
    requires
        n < 16,
    ensures
        c == hex_upper(n as int),
{
    if n < 10 {
        (48u8 + n) as char
    } else {
        (55u8 + n) as char
    }
}

/// Percent-encodes every byte of `s` that is not an unreserved character.
pub fn percent_encode_path_component(s: &str) -> (out: String)
    ensures
        out@ == percent_encode(encode_utf8(s@)),
{
    let bytes = s.as_bytes();
    let mut out = String::new();
    let mut i: usize = 0;
    while i < bytes.len()
        invariant
            bytes@ == encode_utf8(s@),
            i <= bytes@.len(),
            out@ == percent_encode(bytes@.take(i as int)),
        decreases bytes.len() - i,
    {
        let byte = bytes[i];
        let ghost before = out@;
        if (65 <= byte && byte <= 90) || (97 <= byte && byte <= 122) || (48 <= byte && byte <= 57)
            || byte == 45 || byte == 46 || byte == 95 || byte == 126 {
            push_char(&mut out, byte as char);
        } else {
            push_char(&mut out, '%');
            push_char(&mut out, hex_digit(byte / 16));
            push_char(&mut out, hex_digit(byte % 16));
        }
        assert(bytes@.take(i + 1).drop_last() =~= bytes@.take(i as int));
        assert(out@ =~= before + encode_byte(byte));
        i = i + 1;
    }
    assert(bytes@.take(bytes@.len() as int) =~= bytes@);
    out
}

/// `https://github.com/<owner>/<repo>/blob/<commit_sha>/<file_name>?raw=true`, with the
/// file name percent-encoded.
pub fn embed_url(owner: &str, repo: &str, commit_sha: &str, file_name: &str) -> (u: EmbedUrl)
    ensures
        u@ == embed_link(owner@, repo@, commit_sha@, file_name@),
{
    let encoded = percent_encode_path_component(file_name);
    let mut s = String::new();
    s.append("https://github.com/");
    s.append(owner);
    s.append("/");
    s.append(repo);
    s.append("/blob/");
    s.append(commit_sha);
    s.append("/");
    s.append(encoded.as_str());
    s.append("?raw=true");
    EmbedUrl(s)
}

/// Renders the links as `![](<url>)`, one per line.
pub fn compose_markdown(urls: &[EmbedUrl]) -> (md: String)
    ensures
        md@ == markdown_of(url_views(urls@)),
{
    let mut md = String::new();
    let mut i: usize = 0;
    while i < urls.len()
        invariant
            i <= urls@.len(),
            md@ == markdown_of(url_views(urls@.take(i as int))),
        decreases urls.len() - i,
    {
        let ghost prev = urls@.take(i as int);
        if i > 0 {
            md.append("\n");
        }
        md.append("![](");
        md.append(urls[i].0.as_str());
        md.append(")");
        assert(url_views(urls@.take(i + 1)).drop_last() =~= url_views(prev));
        assert(url_views(urls@.take(i + 1)).last() == urls@[i as int]@);
        if i == 0 {
            assert(url_views(urls@.take(1)) =~= seq![urls@[0]@]);
        }
        i = i + 1;
    }
    assert(urls@.take(urls@.len() as int) =~= urls@);
    md
}

/// The ref, without `refs/`, that collects the uploads for `t`:
/// `uploads/<issue|pr>/<number>`.
pub open spec fn upload_ref(t: Target) -> Seq<char> {
    "uploads/"@ + t.segment() + "/"@ + decimal(t.num() as nat)
}

/// The full name of the upload ref of `t`.
pub open spec fn full_upload_ref(t: Target) -> Seq<char> {
    "refs/"@ + upload_ref(t)
}

/// `parts` joined by `sep`.
pub open spec fn join_with(parts: Seq<Seq<char>>, sep: Seq<char>) -> Seq<char>
    decreases parts.len(),
{
    if parts.len() == 0 {
        Seq::empty()
    } else if parts.len() == 1 {
        parts[0]
    } else {
        join_with(parts.drop_last(), sep) + sep + parts.last()
    }
}

/// The commit message of an upload: `upload <name>` for one file, otherwise
/// `upload <n> file(s): <names, in input order, comma separated>`.
pub open spec fn commit_message(names: Seq<Seq<char>>) -> Seq<char> {
    if names.len() == 1 {
        "upload "@ + names[0]
    } else {
        "upload "@ + decimal(names.len()) + " file(s): "@ + join_with(names, ", "@)
    }
}

/// The parents of the next upload commit: the commit the ref points to, if any.
pub open spec fn parents_of(prior: Option<Seq<char>>) -> Seq<Seq<char>> {
    match prior {
        Some(p) => seq![p],
        None => Seq::empty(),
    }
}

/// The embed link of every file, in input order.
pub open spec fn embed_links(owner: Seq<char>, repo: Seq<char>, sha: Seq<char>, names: Seq<Seq<char>>) -> Seq<Seq<char>> {
    names.map_values(|n: Seq<char>| embed_link(owner, repo, sha, n))
}

/// `entries` holds the pair `(names[i], shas[i])` of every file once, sorted by name in
/// `String` order, files of equal name in input order.
pub open spec fn sorted_tree(names: Seq<Seq<char>>, shas: Seq<Seq<char>>, entries: Seq<(Seq<char>, Seq<char>)>) -> bool {
    exists|order: Seq<int>|
        #![trigger stable_order(names, order)]
        stable_order(names, order) && entries.len() == names.len() && forall|k: int|
            0 <= k < entries.len() ==> #[trigger] entries[k] == (names[order[k]], shas[order[k]])
}

/// How far an upload has come.
#[derive(Debug, Clone, Copy, PartialEq, Eq, Structural)]
pub enum UploadPhase {
    LookingUpRef,
    FetchingBaseTree,
    CreatingBlobs,
    CreatingTree,
    CreatingCommit,
    WritingRef,
    Done,
}

/// What happened when the last action was carried out.
pub enum UploadEvent {
    /// The upload ref, if it exists.
    RefLooked(Option<RefInfo>),
    /// The tree of the commit the upload ref points to.
    BaseTreeFetched(String),
    /// The blob SHA of every file, in input order.
    BlobsCreated(Vec<String>),
    TreeCreated(String),
    CommitCreated(String),
    RefWritten,
}

/// The next thing to do for an upload.
pub enum UploadAction {
    LookupRef { ref_no_prefix: String },
    FetchCommitTree { commit_sha: String },
    /// Create one blob per file, from the file contents in input order.
    CreateBlobs { count: usize },
    CreateTree { base_tree: Option<String>, entries: Vec<TreeEntry> },
    CreateCommit { message: String, tree_sha: String, parents: Vec<String> },
    CreateRef { full_ref: String, sha: String },
    UpdateRef { ref_no_prefix: String, sha: String, force: bool },
    /// The upload is complete; these are the links, in input order.
    Finished { urls: Vec<EmbedUrl> },
    /// The event does not belong to the current phase; nothing changed.
    Ignored,
}

/// An `UploadAction` as values.
pub enum UploadActionView {
    LookupRef { ref_no_prefix: Seq<char> },
    FetchCommitTree { commit_sha: Seq<char> },
    CreateBlobs { count: nat },
    CreateTree { base_tree: Option<Seq<char>>, entries: Seq<(Seq<char>, Seq<char>)> },
    CreateCommit { message: Seq<char>, tree_sha: Seq<char>, parents: Seq<Seq<char>> },
    CreateRef { full_ref: Seq<char>, sha: Seq<char> },
    UpdateRef { ref_no_prefix: Seq<char>, sha: Seq<char>, force: bool },
    Finished { urls: Seq<Seq<char>> },
    Ignored,
}

pub open spec fn entry_views(entries: Seq<TreeEntry>) -> Seq<(Seq<char>, Seq<char>)> {
    entries.map_values(|e: TreeEntry| (e.path@, e.sha@))
}

impl View for UploadAction {
    type V = UploadActionView;

    open spec fn view(&self) -> UploadActionView {
        match self {
            UploadAction::LookupRef { ref_no_prefix } => UploadActionView::LookupRef {
                ref_no_prefix: ref_no_prefix@,
            },
            UploadAction::FetchCommitTree { commit_sha } => UploadActionView::FetchCommitTree {
                commit_sha: commit_sha@,
            },
            UploadAction::CreateBlobs { count } => UploadActionView::CreateBlobs {
                count: *count as nat,
            },
            UploadAction::CreateTree { base_tree, entries } => UploadActionView::CreateTree {
                base_tree: base_tree.deep_view(),
                entries: entry_views(entries@),
            },
            UploadAction::CreateCommit { message, tree_sha, parents } => UploadActionView::CreateCommit {
                message: message@,
                tree_sha: tree_sha@,
                parents: parents.deep_view(),
            },
            UploadAction::CreateRef { full_ref, sha } => UploadActionView::CreateRef {
                full_ref: full_ref@,
                sha: sha@,
            },
            UploadAction::UpdateRef { ref_no_prefix, sha, force } => UploadActionView::UpdateRef {
                ref_no_prefix: ref_no_prefix@,
                sha: sha@,
                force: *force,
            },
            UploadAction::Finished { urls } => UploadActionView::Finished { urls: url_views(urls@) },
            UploadAction::Ignored => UploadActionView::Ignored,
        }
    }
}

/// An upload in progress, as values.
pub struct UploadState {
    pub owner: Seq<char>,
    pub repo: Seq<char>,
    pub target: Target,
    pub names: Seq<Seq<char>>,
    pub phase: UploadPhase,
    /// The commit the upload ref pointed to before this upload, if it existed.
    pub prior: Option<Seq<char>>,
    pub base_tree: Option<Seq<char>>,
    pub blobs: Seq<Seq<char>>,
    pub tree: Seq<char>,
    pub commit: Seq<char>,
}

/// The state of a new upload of `names` for `target`.
pub open spec fn fresh_upload(owner: Seq<char>, repo: Seq<char>, target: Target, names: Seq<Seq<char>>) -> UploadState {
    UploadState {
        owner,
        repo,
        target,
        names,
        phase: UploadPhase::LookingUpRef,
        prior: None,
        base_tree: None,
        blobs: Seq::empty(),
        tree: Seq::empty(),
        commit: Seq::empty(),
    }
}

/// One step of an upload: from `pre`, on event `e`, to `post`, with next action `a`.
pub open spec fn upload_step(pre: UploadState, e: UploadEvent, post: UploadState, a: UploadActionView) -> bool {
    match (pre.phase, e) {
        (UploadPhase::LookingUpRef, UploadEvent::RefLooked(Some(r))) => {
            &&& post == UploadState { phase: UploadPhase::FetchingBaseTree, prior: Some(r.object_sha@), ..pre }
            &&& a == UploadActionView::FetchCommitTree { commit_sha: r.object_sha@ }
        },
        (UploadPhase::LookingUpRef, UploadEvent::RefLooked(None)) => {
            &&& post == UploadState { phase: UploadPhase::CreatingBlobs, prior: None, base_tree: None, ..pre }
            &&& a == UploadActionView::CreateBlobs { count: pre.names.len() }
        },
        (UploadPhase::FetchingBaseTree, UploadEvent::BaseTreeFetched(t)) => {
            &&& post == UploadState { phase: UploadPhase::CreatingBlobs, base_tree: Some(t@), ..pre }
            &&& a == UploadActionView::CreateBlobs { count: pre.names.len() }
        },
        (UploadPhase::CreatingBlobs, UploadEvent::BlobsCreated(shas)) => {
            if shas@.len() == pre.names.len() {
                &&& post == UploadState { phase: UploadPhase::CreatingTree, blobs: shas.deep_view(), ..pre }
                &&& a matches UploadActionView::CreateTree { base_tree, entries }
                &&& base_tree == pre.base_tree
                &&& sorted_tree(pre.names, shas.deep_view(), entries)
            } else {
                post == pre && a == UploadActionView::Ignored
            }
        },
        (UploadPhase::CreatingTree, UploadEvent::TreeCreated(t)) => {
            &&& post == UploadState { phase: UploadPhase::CreatingCommit, tree: t@, ..pre }
            &&& a == UploadActionView::CreateCommit {
                message: commit_message(pre.names),
                tree_sha: t@,
                parents: parents_of(pre.prior),
            }
        },
        (UploadPhase::CreatingCommit, UploadEvent::CommitCreated(c)) => {
            &&& post == UploadState { phase: UploadPhase::WritingRef, commit: c@, ..pre }
            &&& a == match pre.prior {
                None => UploadActionView::CreateRef { full_ref: full_upload_ref(pre.target), sha: c@ },
                Some(_) => UploadActionView::UpdateRef {
                    ref_no_prefix: upload_ref(pre.target),
                    sha: c@,
                    force: true,
                },
            }
        },
        (UploadPhase::WritingRef, UploadEvent::RefWritten) => {
            &&& post == UploadState { phase: UploadPhase::Done, ..pre }
            &&& a == UploadActionView::Finished {
                urls: embed_links(pre.owner, pre.repo, pre.commit, pre.names),
            }
        },
        _ => post == pre && a == UploadActionView::Ignored,
    }
}

/// An upload in progress: every file goes into one commit on the upload ref of the target.
pub struct UploadPlan {
    owner: String,
    repo: String,
    target: Target,
    file_names: Vec<String>,
    phase: UploadPhase,
    prior: Option<String>,
    base_tree: Option<String>,
    blob_shas: Vec<String>,
    tree_sha: String,
    commit_sha: String,
}

impl View for UploadPlan {
    type V = UploadState;

    closed spec fn view(&self) -> UploadState {
        UploadState {
            owner: self.owner@,
            repo: self.repo@,
            target: self.target,
            names: self.file_names.deep_view(),
            phase: self.phase,
            prior: self.prior.deep_view(),
            base_tree: self.base_tree.deep_view(),
            blobs: self.blob_shas.deep_view(),
            tree: self.tree_sha@,
            commit: self.commit_sha@,
        }
    }
}

/// `uploads/<segment>/<number>` as a string.
fn upload_ref_string(target: Target) -> (s: String)
    ensures
        s@ == upload_ref(target),
{
    let mut s = owned("uploads/");
    s.append(target.ref_segment());
    s.append("/");
    push_decimal(&mut s, target.number() as u64);
    s
}

/// The commit message for `names`.
fn commit_message_string(names: &Vec<String>) -> (m: String)
    ensures
        m@ == commit_message(names.deep_view()),
{
    let ghost nv = names.deep_view();
    let mut m = owned("upload ");
    if names.len() == 1 {
        m.append(names[0].as_str());
        return m;
    }
    push_decimal(&mut m, names.len() as u64);
    m.append(" file(s): ");
    let ghost head = m@;
    let mut i: usize = 0;
    while i < names.len()
        invariant
            nv == names.deep_view(),
            i <= nv.len(),
            m@ == head + join_with(nv.take(i as int), ", "@),
        decreases names.len() - i,
    {
        if i > 0 {
            m.append(", ");
        }
        m.append(names[i].as_str());
        assert(nv.take(i + 1).drop_last() =~= nv.take(i as int));
        if i == 0 {
            assert(nv.take(1) =~= seq![nv[0]]);
        }
        i = i + 1;
    }
    assert(nv.take(nv.len() as int) =~= nv);
    m
}

/// The tree entries of an upload: `(name, blob)` pairs in stable name order.
fn sorted_entries(names: &Vec<String>, shas: &Vec<String>) -> (entries: Vec<TreeEntry>)
    requires
        names@.len() == shas@.len(),
    ensures
        sorted_tree(names.deep_view(), shas.deep_view(), entry_views(entries@)),
{
    let order = stable_sort_order(names);
    let ghost ord = as_ints(order@);
    let mut entries: Vec<TreeEntry> = Vec::new();
    let mut k: usize = 0;
    while k < order.len()
        invariant
            stable_order(names.deep_view(), ord),
            ord == as_ints(order@),
            names@.len() == shas@.len(),
            k <= order@.len(),
            entries@.len() == k,
            forall|j: int| 0 <= j < k ==> #[trigger] entry_views(entries@)[j] == (names.deep_view()[ord[j]], shas.deep_view()[ord[j]]),
        decreases order.len() - k,
    {
        let idx = order[k];
        assert(ord[k as int] == idx as int);
        let ghost before = entries@;
        entries.push(TreeEntry { path: names[idx].clone(), sha: shas[idx].clone() });
        assert forall|j: int| 0 <= j < k + 1 implies #[trigger] entry_views(entries@)[j] == (
        names.deep_view()[ord[j]], shas.deep_view()[ord[j]]) by {
            if j < k {
                assert(entries@[j] == before[j]);
                assert(entry_views(before)[j] == (before[j].path@, before[j].sha@));
            } else {
                assert(names.deep_view()[idx as int] == names@[idx as int]@);
                assert(shas.deep_view()[idx as int] == shas@[idx as int]@);
            }
        }
        k = k + 1;
    }
    assert(sorted_tree(names.deep_view(), shas.deep_view(), entry_views(entries@))) by {
        assert(stable_order(names.deep_view(), ord));
    }
    entries
}

/// The embed links of every file, in input order.
fn embed_url_list(owner: &str, repo: &str, sha: &str, names: &Vec<String>) -> (urls: Vec<EmbedUrl>)
    ensures
        url_views(urls@) == embed_links(owner@, repo@, sha@, names.deep_view()),
{
    let mut urls: Vec<EmbedUrl> = Vec::new();
    let mut i: usize = 0;
    while i < names.len()
        invariant
            i <= names@.len(),
            urls@.len() == i,
            url_views(urls@) == embed_links(owner@, repo@, sha@, names.deep_view().take(i as int)),
        decreases names.len() - i,
    {
        let ghost before = urls@;
        urls.push(embed_url(owner, repo, sha, names[i].as_str()));
        assert forall|j: int| 0 <= j < i + 1 implies #[trigger] url_views(urls@)[j] == embed_links(owner@, repo@, sha@, names.deep_view().take(i + 1))[j] by {
            if j < i {
                assert(urls@[j] == before[j]);
                assert(url_views(before)[j] == embed_links(owner@, repo@, sha@, names.deep_view().take(i as int))[j]);
            } else {
                assert(names.deep_view()[i as int] == names@[i as int]@);
            }
        }
        assert(url_views(urls@) =~= embed_links(owner@, repo@, sha@, names.deep_view().take(i + 1)));
        i = i + 1;
    }
    assert(names.deep_view().take(names@.len() as int) =~= names.deep_view());
    urls
}

impl UploadPlan {
    /// A new upload of the files named `file_names` (in input order) for `target`, and its
    /// first action: looking up the target's upload ref.
    pub fn new(owner: &str, repo: &str, target: Target, file_names: Vec<String>) -> (r: (UploadPlan, UploadAction))
        ensures
            r.0@ == fresh_upload(owner@, repo@, target, file_names.deep_view()),
            r.1@ == (UploadActionView::LookupRef { ref_no_prefix: upload_ref(target) }),
    {
        let plan = UploadPlan {
            owner: owned(owner),
            repo: owned(repo),
            target,
            file_names,
            phase: UploadPhase::LookingUpRef,
            prior: None,
            base_tree: None,
            blob_shas: Vec::new(),
            tree_sha: String::new(),
            commit_sha: String::new(),
        };
        assert(plan@.blobs =~= Seq::<Seq<char>>::empty());
        (plan, UploadAction::LookupRef { ref_no_prefix: upload_ref_string(target) })
    }

    /// Advances the upload by the outcome of the last action and returns the next action.
    pub fn step(&mut self, event: UploadEvent) -> (a: UploadAction)
        ensures
            upload_step(old(self)@, event, final(self)@, a@),
    {
        let ghost e = event;
        match (self.phase, event) {
            (UploadPhase::LookingUpRef, UploadEvent::RefLooked(Some(r))) => {
                self.phase = UploadPhase::FetchingBaseTree;
                let sha = r.object_sha.clone();
                self.prior = Some(r.object_sha);
                UploadAction::FetchCommitTree { commit_sha: sha }
            },
            (UploadPhase::LookingUpRef, UploadEvent::RefLooked(None)) => {
                self.phase = UploadPhase::CreatingBlobs;
                self.prior = None;
                self.base_tree = None;
                UploadAction::CreateBlobs { count: self.file_names.len() }
            },
            (UploadPhase::FetchingBaseTree, UploadEvent::BaseTreeFetched(t)) => {
                self.phase = UploadPhase::CreatingBlobs;
                self.base_tree = Some(t);
                UploadAction::CreateBlobs { count: self.file_names.len() }
            },
            (UploadPhase::CreatingBlobs, UploadEvent::BlobsCreated(shas)) => {
                if shas.len() != self.file_names.len() {
                    return UploadAction::Ignored;
                }
                let entries = sorted_entries(&self.file_names, &shas);
                let base_tree = match &self.base_tree {
                    Some(t) => Some(t.clone()),
                    None => None,
                };
                self.phase = UploadPhase::CreatingTree;
                self.blob_shas = shas;
                UploadAction::CreateTree { base_tree, entries }
            },
            (UploadPhase::CreatingTree, UploadEvent::TreeCreated(t)) => {
                self.phase = UploadPhase::CreatingCommit;
                let message = commit_message_string(&self.file_names);
                let mut parents: Vec<String> = Vec::new();
                match &self.prior {
                    Some(p) => parents.push(p.clone()),
                    None => {},
                }
                let tree_sha = t.clone();
                self.tree_sha = t;
                assert(parents.deep_view() =~= parents_of(self.prior.deep_view()));
                UploadAction::CreateCommit { message, tree_sha, parents }
            },
            (UploadPhase::CreatingCommit, UploadEvent::CommitCreated(c)) => {
                self.phase = UploadPhase::WritingRef;
                let sha = c.clone();
                self.commit_sha = c;
                let name = upload_ref_string(self.target);
                match &self.prior {
                    None => {
                        let mut full_ref = owned("refs/");
                        full_ref.append(name.as_str());
                        UploadAction::CreateRef { full_ref, sha }
                    },
                    Some(_) => UploadAction::UpdateRef { ref_no_prefix: name, sha, force: true },
                }
            },
            (UploadPhase::WritingRef, UploadEvent::RefWritten) => {
                self.phase = UploadPhase::Done;
                let urls = embed_url_list(
                    self.owner.as_str(),
                    self.repo.as_str(),
                    self.commit_sha.as_str(),
                    &self.file_names,
                );
                UploadAction::Finished { urls }
            },
            _ => UploadAction::Ignored,
        }
    }
}

/// A first upload for a target (no upload ref yet) creates one blob per file, a tree of
/// them with no base tree, a commit without parents, then creates
/// `refs/uploads/<issue|pr>/<n>` at that commit, and hands back the links of the files in
/// input order, pinned to that commit.
pub proof fn law_first_upload(
    owner: Seq<char>,
    repo: Seq<char>,
    target: Target,
    names: Seq<Seq<char>>,
    shas: Vec<String>,
    tree: String,
    commit: String,
    s1: UploadState,
    s2: UploadState,
    s3: UploadState,
    s4: UploadState,
    s5: UploadState,
    a1: UploadActionView,
    a2: UploadActionView,
    a3: UploadActionView,
    a4: UploadActionView,
    a5: UploadActionView,
)
    requires
        shas@.len() == names.len(),
        upload_step(fresh_upload(owner, repo, target, names), UploadEvent::RefLooked(None), s1, a1),
        upload_step(s1, UploadEvent::BlobsCreated(shas), s2, a2),
        upload_step(s2, UploadEvent::TreeCreated(tree), s3, a3),
        upload_step(s3, UploadEvent::CommitCreated(commit), s4, a4),
        upload_step(s4, UploadEvent::RefWritten, s5, a5),
    ensures
        a1 == (UploadActionView::CreateBlobs { count: names.len() }),
        a2 matches UploadActionView::CreateTree { base_tree, entries } && base_tree is None
            && sorted_tree(names, shas.deep_view(), entries),
        a3 == (UploadActionView::CreateCommit {
            message: commit_message(names),
            tree_sha: tree@,
            parents: Seq::empty(),
        }),
        a4 == (UploadActionView::CreateRef { full_ref: full_upload_ref(target), sha: commit@ }),
        a5 == (UploadActionView::Finished { urls: embed_links(owner, repo, commit@, names) }),
        s5.phase == UploadPhase::Done,
{
}

/// A repeat upload for a target builds on what the upload ref holds: the new tree starts
/// from the tree of the ref's commit, the new commit has that commit as its only parent
/// (so earlier links keep resolving), and the ref is force-moved to the new commit.
pub proof fn law_repeat_upload(
    owner: Seq<char>,
    repo: Seq<char>,
    target: Target,
    names: Seq<Seq<char>>,
    existing: RefInfo,
    base: String,
    shas: Vec<String>,
    tree: String,
    commit: String,
    s1: UploadState,
    s2: UploadState,
    s3: UploadState,
    s4: UploadState,
    s5: UploadState,
    s6: UploadState,
    a1: UploadActionView,
    a2: UploadActionView,
    a3: UploadActionView,
    a4: UploadActionView,
    a5: UploadActionView,
    a6: UploadActionView,
)
    requires
        shas@.len() == names.len(),
        upload_step(fresh_upload(owner, repo, target, names), UploadEvent::RefLooked(Some(existing)), s1, a1),
        upload_step(s1, UploadEvent::BaseTreeFetched(base), s2, a2),
        upload_step(s2, UploadEvent::BlobsCreated(shas), s3, a3),
        upload_step(s3, UploadEvent::TreeCreated(tree), s4, a4),
        upload_step(s4, UploadEvent::CommitCreated(commit), s5, a5),
        upload_step(s5, UploadEvent::RefWritten, s6, a6),
    ensures
        a1 == (UploadActionView::FetchCommitTree { commit_sha: existing.object_sha@ }),
        a2 == (UploadActionView::CreateBlobs { count: names.len() }),
        a3 matches UploadActionView::CreateTree { base_tree, entries } && base_tree == Some(base@)
            && sorted_tree(names, shas.deep_view(), entries),
        a4 == (UploadActionView::CreateCommit {
            message: commit_message(names),
            tree_sha: tree@,
            parents: seq![existing.object_sha@],
        }),
        a5 == (UploadActionView::UpdateRef { ref_no_prefix: upload_ref(target), sha: commit@, force: true }),
        a6 == (UploadActionView::Finished { urls: embed_links(owner, repo, commit@, names) }),
        s6.phase == UploadPhase::Done,
{
}

/// The order of the phases of an upload.
pub open spec fn phase_rank(p: UploadPhase) -> int {
    match p {
        UploadPhase::LookingUpRef => 0,
        UploadPhase::FetchingBaseTree => 1,
        UploadPhase::CreatingBlobs => 2,
        UploadPhase::CreatingTree => 3,
        UploadPhase::CreatingCommit => 4,
        UploadPhase::WritingRef => 5,
        UploadPhase::Done => 6,
    }
}

/// The action creates or moves the upload ref.
pub open spec fn writes_ref(a: UploadActionView) -> bool {
    a is CreateRef || a is UpdateRef
}

/// `states`, `events` and `actions` form a run of an upload: each event takes
/// `states[i]` to `states[i + 1]` and asks for `actions[i]`.
pub open spec fn upload_run(states: Seq<UploadState>, events: Seq<UploadEvent>, actions: Seq<UploadActionView>) -> bool {
    &&& states.len() == events.len() + 1
    &&& actions.len() == events.len()
    &&& forall|i: int|
        #![trigger actions[i]]
        0 <= i < events.len() ==> upload_step(states[i], events[i], states[i + 1], actions[i])
}

/// The upload ref is written only by the step that answers the creation of the commit:
/// every other step either leaves the upload as it was (and asks for nothing) or moves it
/// to a later phase, never back.
pub proof fn law_ref_written_only_after_commit(pre: UploadState, e: UploadEvent, post: UploadState, a: UploadActionView)
    requires
        upload_step(pre, e, post, a),
    ensures
        writes_ref(a) ==> pre.phase == UploadPhase::CreatingCommit && e is CommitCreated
            && post.phase == UploadPhase::WritingRef,
        a is Ignored ==> post == pre,
        !(a is Ignored) ==> phase_rank(pre.phase) < phase_rank(post.phase),
{
}

proof fn lemma_rank_grows(states: Seq<UploadState>, events: Seq<UploadEvent>, actions: Seq<UploadActionView>, i: int, j: int)
    requires
        upload_run(states, events, actions),
        0 <= i <= j <= events.len(),
    ensures
        phase_rank(states[i].phase) <= phase_rank(states[j].phase),
    decreases j - i,
{
    if i < j {
        lemma_rank_grows(states, events, actions, i, j - 1);
        assert(upload_step(states[j - 1], events[j - 1], states[j], actions[j - 1]));
        law_ref_written_only_after_commit(states[j - 1], events[j - 1], states[j], actions[j - 1]);
    }
}

/// In a run of an upload the ref is written at most once.
pub proof fn law_ref_written_at_most_once(
    states: Seq<UploadState>,
    events: Seq<UploadEvent>,
    actions: Seq<UploadActionView>,
    i: int,
    j: int,
)
    requires
        upload_run(states, events, actions),
        0 <= i < j < events.len(),
    ensures
        !(writes_ref(actions[i]) && writes_ref(actions[j])),
{
    assert(upload_step(states[i], events[i], states[i + 1], actions[i]));
    assert(upload_step(states[j], events[j], states[j + 1], actions[j]));
    law_ref_written_only_after_commit(states[i], events[i], states[i + 1], actions[i]);
    law_ref_written_only_after_commit(states[j], events[j], states[j + 1], actions[j]);
    lemma_rank_grows(states, events, actions, i + 1, j);
}

/// A run that stops before a commit is created (the ref lookup, the base tree, a blob, the
/// tree or the commit failed) never asks to create or move the upload ref, so the ref keeps
/// its old target.
pub proof fn law_no_ref_write_without_commit(states: Seq<UploadState>, events: Seq<UploadEvent>, actions: Seq<UploadActionView>)
    requires
        upload_run(states, events, actions),
        forall|k: int| 0 <= k < events.len() ==> !(#[trigger] events[k] is CommitCreated),
    ensures
        forall|k: int| 0 <= k < actions.len() ==> !writes_ref(#[trigger] actions[k]),
{
    assert forall|k: int| 0 <= k < actions.len() implies !writes_ref(#[trigger] actions[k]) by {
        assert(upload_step(states[k], events[k], states[k + 1], actions[k]));
        law_ref_written_only_after_commit(states[k], events[k], states[k + 1], actions[k]);
        assert(!(events[k] is CommitCreated));
    }
}

/// The upload ref of a target names the kind of target and reads back to its number:
/// `uploads/issue/<n>` or `uploads/pr/<n>`, where `<n>` parses to the target's number; the
/// full ref is the same name under `refs/`; and different targets get different refs.
pub proof fn law_upload_ref_names_target(t: Target, u: Target)
    ensures
        exists|n: Seq<char>|
            #![trigger parse_u64_spec(n)]
            upload_ref(t) == "uploads/"@ + (match t {
                Target::Issue(_) => "issue"@,
                Target::Pr(_) => "pr"@,
            }) + "/"@ + n && parse_u64_spec(n) == Some(
                match t {
                    Target::Issue(k) => k as u64,
                    Target::Pr(k) => k as u64,
                },
            ),
        full_upload_ref(t) == "refs/"@ + upload_ref(t),
        upload_ref(t) == upload_ref(u) ==> t == u,
{
    reveal_strlit("uploads/");
    reveal_strlit("issue");
    reveal_strlit("pr");
    reveal_strlit("/");
    law_decimal_reads_back(t.num() as nat);
    let n = decimal(t.num() as nat);
    assert(parse_u64_spec(n) == Some(t.num() as u64));
    if upload_ref(t) == upload_ref(u) {
        let a = upload_ref(t);
        let b = upload_ref(u);
        if t.segment() == u.segment() {
            let k = 9 + t.segment().len() as int;
            assert(a.skip(k) =~= decimal(t.num() as nat));
            assert(b.skip(k) =~= decimal(u.num() as nat));
            law_decimal_injective(t.num() as nat, u.num() as nat);
        } else {
            assert(a[8] != b[8]);
        }
    }
}

/// The markdown of no links is empty, of one link is that link as an image, and of two
/// lists one after the other is their markdowns joined by a newline: every link becomes its
/// own `![](...)` line, in order.
pub proof fn law_markdown_lines(a: Seq<Seq<char>>, b: Seq<Seq<char>>, url: Seq<char>)
    ensures
        markdown_of(Seq::empty()) == Seq::<char>::empty(),
        markdown_of(seq![url]) == "![]("@ + url + ")"@,
        a.len() > 0 && b.len() > 0 ==> markdown_of(a + b) == markdown_of(a) + "\n"@ + markdown_of(b),
    decreases b.len(),
{
    if a.len() > 0 && b.len() > 0 {
        assert((a + b).drop_last() =~= a + b.drop_last());
        assert((a + b).last() == b.last());
        if b.len() == 1 {
            assert(a + b.drop_last() =~= a);
            assert(b =~= seq![b[0]]);
        } else {
            law_markdown_lines(a, b.drop_last(), url);
            assert(markdown_of(a + b) =~= markdown_of(a) + "\n"@ + markdown_of(b));
        }
    }
}

/// No step of an upload changes what is uploaded, by whom, or for which target.
pub proof fn law_upload_keeps_subject(pre: UploadState, e: UploadEvent, post: UploadState, a: UploadActionView)
    requires
        upload_step(pre, e, post, a),
    ensures
        post.owner == pre.owner,
        post.repo == pre.repo,
        post.target == pre.target,
        post.names == pre.names,
{
}

proof fn lemma_hex_digits(n: int)
    requires
        0 <= n < 16,
    ensures
        hex_upper(n) == "0123456789ABCDEF"@[n],
{
    reveal_strlit("0123456789ABCDEF");
    if n == 0 { assert(hex_upper(0) == '0'); }
    else if n == 1 { assert(hex_upper(1) == '1'); }
    else if n == 2 { assert(hex_upper(2) == '2'); }
    else if n == 3 { assert(hex_upper(3) == '3'); }
    else if n == 4 { assert(hex_upper(4) == '4'); }
    else if n == 5 { assert(hex_upper(5) == '5'); }
    else if n == 6 { assert(hex_upper(6) == '6'); }
    else if n == 7 { assert(hex_upper(7) == '7'); }
    else if n == 8 { assert(hex_upper(8) == '8'); }
    else if n == 9 { assert(hex_upper(9) == '9'); }
    else if n == 10 { assert(hex_upper(10) == 'A'); }
    else if n == 11 { assert(hex_upper(11) == 'B'); }
    else if n == 12 { assert(hex_upper(12) == 'C'); }
    else if n == 13 { assert(hex_upper(13) == 'D'); }
    else if n == 14 { assert(hex_upper(14) == 'E'); }
    else { assert(hex_upper(15) == 'F'); }
}

/// Percent-encoding works byte by byte: an ASCII letter, digit, `-`, `.`, `_` or `~`
/// stands for itself, any other byte becomes `%` and its two upper-case hexadecimal
/// digits; and encoding two byte strings one after the other is encoding each of them.
pub proof fn law_percent_encoding_by_byte(a: Seq<u8>, b: Seq<u8>, x: u8)
    ensures
        percent_encode(seq![x]) == (if (65 <= x <= 90 || 97 <= x <= 122 || 48 <= x <= 57 || x == 45
            || x == 46 || x == 95 || x == 126) {
            seq![x as char]
        } else {
            seq!['%', "0123456789ABCDEF"@[x as int / 16], "0123456789ABCDEF"@[x as int % 16]]
        }),
        percent_encode(a + b) == percent_encode(a) + percent_encode(b),
    decreases b.len(),
{
    assert(seq![x].drop_last() =~= Seq::<u8>::empty());
    assert(x as int / 16 < 16 && x as int % 16 < 16) by (nonlinear_arith);
    lemma_hex_digits(x as int / 16);
    lemma_hex_digits(x as int % 16);
    assert(percent_encode(seq![x]) =~= encode_byte(x)) by {
        assert(percent_encode(seq![x].drop_last()) =~= Seq::<char>::empty());
        assert(seq![x].last() == x);
    }
    if b.len() == 0 {
        assert(a + b =~= a);
    } else {
        law_percent_encoding_by_byte(a, b.drop_last(), x);
        assert((a + b).drop_last() =~= a + b.drop_last());
        assert((a + b).last() == b.last());
        assert(percent_encode(a + b) =~= percent_encode(a) + percent_encode(b));
    }
}

/// An embed link names the repository, pins the commit, and ends in `?raw=true`; the file
/// part is path-safe and percent-decodes to the file name's UTF-8 bytes.
pub proof fn law_embed_link_pins_file(owner: Seq<char>, repo: Seq<char>, sha: Seq<char>, name: Seq<char>)
    ensures
        exists|m: Seq<char>|
            #![trigger percent_decode(m)]
            embed_link(owner, repo, sha, name) == "https://github.com/"@ + owner + "/"@ + repo
                + "/blob/"@ + sha + "/"@ + m + "?raw=true"@ && percent_decode(m) == encode_utf8(name)
                && forall|i: int| 0 <= i < m.len() ==> #[trigger] m[i] != '/' && m[i] != '?' && m[i] != '#',
{
    let m = percent_encode(encode_utf8(name));
    law_percent_decoding_undoes_encoding(encode_utf8(name));
    law_percent_encoding_is_path_safe(encode_utf8(name));
    assert forall|i: int| 0 <= i < m.len() implies #[trigger] m[i] != '/' && m[i] != '?' && m[i] != '#' by {
        let c = percent_encode(encode_utf8(name))[i];
        assert(c == m[i]);
    }
    assert(percent_decode(m) == encode_utf8(name));
}

/// Joining two non-empty lists is joining each and putting the separator between.
pub proof fn law_join_concat(a: Seq<Seq<char>>, b: Seq<Seq<char>>, sep: Seq<char>, x: Seq<char>)
    ensures
        join_with(Seq::empty(), sep) == Seq::<char>::empty(),
        join_with(seq![x], sep) == x,
        a.len() > 0 && b.len() > 0 ==> join_with(a + b, sep) == join_with(a, sep) + sep + join_with(b, sep),
    decreases b.len(),
{
    if a.len() > 0 && b.len() > 0 {
        assert((a + b).drop_last() =~= a + b.drop_last());
        assert((a + b).last() == b.last());
        if b.len() == 1 {
            assert(a + b.drop_last() =~= a);
        } else {
            law_join_concat(a, b.drop_last(), sep, x);
            assert(join_with(a + b, sep) =~= join_with(a, sep) + sep + join_with(b, sep));
        }
    }
}

/// The commit message names the file of a single upload; for any other number of files it
/// gives their count in decimal and every name, in input order, separated by `, `.
pub proof fn law_commit_message_names_files(names: Seq<Seq<char>>)
    ensures
        names.len() == 1 ==> commit_message(names) == "upload "@ + names[0],
        names.len() != 1 ==> exists|c: Seq<char>|
            #![trigger parse_u64_spec(c)]
            commit_message(names) == "upload "@ + c + " file(s): "@ + join_with(names, ", "@)
                && (names.len() <= u64::MAX ==> parse_u64_spec(c) == Some(names.len() as u64)),
{
    if names.len() != 1 {
        let c = decimal(names.len());
        law_decimal_reads_back(names.len());
        assert(names.len() <= u64::MAX ==> parse_u64_spec(c) == Some(names.len() as u64));
    }
}

/// A percent-encoded path component holds only unreserved characters, `%` and upper-case
/// hexadecimal digits: no `/`, `?`, `#` or space can escape into the URL.
pub proof fn law_percent_encoding_is_path_safe(bytes: Seq<u8>)
    ensures
        forall|i: int|
            0 <= i < percent_encode(bytes).len() ==> {
                let c = #[trigger] percent_encode(bytes)[i];
                ||| ('A' <= c && c <= 'Z')
                ||| ('a' <= c && c <= 'z')
                ||| ('0' <= c && c <= '9')
                ||| c == '-' || c == '.' || c == '_' || c == '~' || c == '%'
            },
    decreases bytes.len(),
{
    if bytes.len() > 0 {
        law_percent_encoding_is_path_safe(bytes.drop_last());
        let pre = percent_encode(bytes.drop_last());
        let tail = encode_byte(bytes.last());
        assert(percent_encode(bytes) == pre + tail);
        assert forall|i: int| 0 <= i < percent_encode(bytes).len() implies {
            let c = #[trigger] percent_encode(bytes)[i];
            ||| ('A' <= c && c <= 'Z')
            ||| ('a' <= c && c <= 'z')
            ||| ('0' <= c && c <= '9')
            ||| c == '-' || c == '.' || c == '_' || c == '~' || c == '%'
        } by {
            if i >= pre.len() {
                let b = bytes.last();
                assert(b as int / 16 < 16 && b as int % 16 < 16) by (nonlinear_arith);
            } else {
                assert(percent_encode(bytes)[i] == pre[i]);
            }
        }
    }
}

/// The value of a hexadecimal digit (either case).
pub open spec fn hex_value(c: char) -> int {
    if '0' <= c && c <= '9' {
        c as int - 48
    } else if 'A' <= c && c <= 'F' {
        c as int - 55
    } else if 'a' <= c && c <= 'f' {
        c as int - 87
    } else {
        0
    }
}

/// Percent-decoding of a URL path component: `%XY` is the byte `0xXY`, any other
/// character stands for itself.
pub open spec fn percent_decode(s: Seq<char>) -> Seq<u8>
    decreases s.len(),
{
    if s.len() == 0 {
        Seq::empty()
    } else if s[0] == '%' && s.len() >= 3 {
        seq![(hex_value(s[1]) * 16 + hex_value(s[2])) as u8] + percent_decode(s.skip(3))
    } else {
        seq![s[0] as u32 as u8] + percent_decode(s.drop_first())
    }
}

proof fn lemma_percent_encode_first(b: Seq<u8>)
    requires
        b.len() > 0,
    ensures
        percent_encode(b) == encode_byte(b[0]) + percent_encode(b.drop_first()),
    decreases b.len(),
{
    if b.len() == 1 {
        assert(b.drop_last() =~= Seq::<u8>::empty());
        assert(b.drop_first() =~= Seq::<u8>::empty());
        assert(percent_encode(b) =~= encode_byte(b[0]) + percent_encode(b.drop_first()));
    } else {
        lemma_percent_encode_first(b.drop_last());
        assert(b.drop_last().drop_first() =~= b.drop_first().drop_last());
        assert(b.drop_first().last() == b.last());
        assert(b.drop_last()[0] == b[0]);
        assert(percent_encode(b) =~= encode_byte(b[0]) + percent_encode(b.drop_first()));
    }
}

proof fn lemma_hex_round_trip(n: int)
    requires
        0 <= n < 16,
    ensures
        hex_value(hex_upper(n)) == n,
{
}

proof fn lemma_decode_encoded_byte(x: u8, rest: Seq<char>)
    ensures
        percent_decode(encode_byte(x) + rest) == seq![x] + percent_decode(rest),
{
    let e = encode_byte(x) + rest;
    if unreserved(x) {
        assert(e[0] == x as char);
        assert(e.drop_first() =~= rest);
        assert((x as char) as u32 as u8 == x);
    } else {
        assert(x as int / 16 < 16 && x as int % 16 < 16) by (nonlinear_arith);
        lemma_hex_round_trip(x as int / 16);
        lemma_hex_round_trip(x as int % 16);
        assert(e[0] == '%');
        assert(e[1] == hex_upper(x as int / 16));
        assert(e[2] == hex_upper(x as int % 16));
        assert(e.skip(3) =~= rest);
        assert((x as int / 16) * 16 + x as int % 16 == x as int);
    }
}

/// Percent-decoding undoes percent-encoding: the link names the file's exact bytes.
pub proof fn law_percent_decoding_undoes_encoding(bytes: Seq<u8>)
    ensures
        percent_decode(percent_encode(bytes)) == bytes,
    decreases bytes.len(),
{
    if bytes.len() > 0 {
        lemma_percent_encode_first(bytes);
        lemma_decode_encoded_byte(bytes[0], percent_encode(bytes.drop_first()));
        law_percent_decoding_undoes_encoding(bytes.drop_first());
        assert(seq![bytes[0]] + bytes.drop_first() =~= bytes);
    }
}

} // verus!
