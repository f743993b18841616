//! Command-line arguments and the choices they make.
use std::path::PathBuf;
use vstd::prelude::*;
use vstd::string::*;

use crate::error::{Error, Result};
use crate::prune::PruneMode;
use crate::text::split_once_char;
use crate::upload::Target;

verus! {

#[verifier::external_type_specification]
#[verifier::external_body]
pub struct ExPathBuf(PathBuf);

/// The age, in days, from which upload refs count as stale unless `--older-than-days`
/// says otherwise.
pub const DEFAULT_OLDER_THAN_DAYS: u64 = 90;

/// The whole command line.
pub struct Cli {
    pub command: Command,
}

/// The subcommands.
pub enum Command {
    Upload(UploadArgs),
    Prune(PruneArgs),
}

/// Where the uploaded images are written.
#[derive(Debug, Clone, Copy, PartialEq, Eq, Structural)]
pub enum WriteMode {
    PrintOnly,
    NewComment,
    UpdateComment(u64),
    EditBody,
}

/// The write-mode flags; at most one of them may be given.
pub struct WriteModeArgs {
    pub new_comment: bool,
    pub update_comment: Option<u64>,
    pub edit_body: bool,
    pub print_only: bool,
}

/// Arguments of `upload`.
pub struct UploadArgs {
    pub files: Vec<PathBuf>,
    pub repo: String,
    pub target: TargetArgs,
    pub write_mode_args: WriteModeArgs,
    pub overwrite: bool,
}

/// `--issue` and `--pr`; exactly one of them must be given.
pub struct TargetArgs {
    pub issue: Option<u32>,
    pub pr: Option<u32>,
}

/// Arguments of `prune`.
pub struct PruneArgs {
    pub repo: String,
    pub dry_run: bool,
    pub confirm: bool,
    pub older_than_days: u64,
}

/// The message of the error for a `--repo` value without a `/`.
pub open spec fn invalid_repo_message(repo: Seq<char>) -> Seq<char> {
    "invalid --repo '"@ + repo + "': expected format 'owner/repo' (e.g. 'myorg/myrepo')"@
}

pub open spec fn overwrite_conflict_message() -> Seq<char> {
    "--overwrite only applies to --edit-body or --update-comment; it cannot be combined with --print-only or --new-comment."@
}

pub open spec fn prune_both_message() -> Seq<char> {
    "--dry-run and --confirm cannot be used together; choose one."@
}

pub open spec fn prune_neither_message() -> Seq<char> {
    "prune requires either --dry-run (list stale refs) or --confirm (delete stale refs)."@
}

/// Splits `owner/repo` at its first `/`.
pub fn split_repo(repo: &str) -> (r: Result<(String, String)>)
    ensures
        r is Ok <==> repo@.contains('/'),
        r matches Ok((owner, name)) ==> owner@ + seq!['/'] + name@ == repo@ && !owner@.contains(
            '/',
        ),
        r is Err ==> (r matches Err(Error::ApiError { status, message }) && status == 0
                && message@ == invalid_repo_message(repo@)),
{
    match split_once_char(repo, '/') {
        Some((owner, name)) => Ok((owner, name)),
        None => {
            let mut message = String::new();
            message.append("invalid --repo '");
            message.append(repo);
            message.append("': expected format 'owner/repo' (e.g. 'myorg/myrepo')");
            Err(Error::ApiError { status: 0, message })
        },
    }
}

impl TargetArgs {
    /// Exactly one of `--issue` and `--pr` is given.
    pub open spec fn exactly_one(&self) -> bool {
        self.issue is Some != self.pr is Some
    }

    /// Whether exactly one of `--issue` and `--pr` is given.
    pub fn is_exactly_one(&self) -> (b: bool)
        ensures
            b == self.exactly_one(),
    {
        self.issue.is_some() != self.pr.is_some()
    }
}

impl WriteModeArgs {
    /// The number of write-mode flags given.
    pub open spec fn flag_count(&self) -> int {
        (if self.new_comment { 1int } else { 0 }) + (if self.update_comment is Some { 1int } else {
            0
        }) + (if self.edit_body { 1int } else { 0 }) + (if self.print_only { 1int } else { 0 })
    }

    /// Whether the flags respect their group: at most one write mode is chosen.
    pub fn is_exclusive(&self) -> (b: bool)
        ensures
            b == (self.flag_count() <= 1),
    {
        let mut n: u8 = 0;
        if self.new_comment {
            n = n + 1;
        }
        if self.update_comment.is_some() {
            n = n + 1;
        }
        if self.edit_body {
            n = n + 1;
        }
        if self.print_only {
            n = n + 1;
        }
        n <= 1
    }
}

impl UploadArgs {
    /// The issue or pull request the images go to.
    pub fn target(&self) -> (t: Target)
        requires
            self.target.issue is Some || self.target.pr is Some,
        ensures
            t == (match self.target.issue {
                Some(n) => Target::Issue(n),
                None => Target::Pr(self.target.pr->0),
            }),
    {
        if let Some(n) = self.target.issue {
            Target::Issue(n)
        } else {
            match self.target.pr {
                Some(n) => Target::Pr(n),
                None => Target::Pr(0),
            }
        }
    }

    /// The write mode the flags select: `--new-comment`, then `--update-comment`, then
    /// `--edit-body`, and printing only when none of them is given.
    pub open spec fn chosen_mode(&self) -> WriteMode {
        if self.write_mode_args.new_comment {
            WriteMode::NewComment
        } else if self.write_mode_args.update_comment is Some {
            WriteMode::UpdateComment(self.write_mode_args.update_comment->0)
        } else if self.write_mode_args.edit_body {
            WriteMode::EditBody
        } else {
            WriteMode::PrintOnly
        }
    }

    pub fn write_mode(&self) -> (m: WriteMode)
        ensures
            m == self.chosen_mode(),
    {
        let w = &self.write_mode_args;
        if w.new_comment {
            WriteMode::NewComment
        } else if let Some(id) = w.update_comment {
            WriteMode::UpdateComment(id)
        } else if w.edit_body {
            WriteMode::EditBody
        } else {
            WriteMode::PrintOnly
        }
    }

    /// `--overwrite` replaces existing text, so it is refused with the modes that touch none.
    pub fn validate_overwrite(&self) -> (r: Result<()>)
        ensures
            r is Err <==> self.overwrite && (self.chosen_mode() == WriteMode::PrintOnly
                || self.chosen_mode() == WriteMode::NewComment),
            r is Err ==> (r matches Err(Error::ApiError { status, message }) && status == 0
                && message@ == overwrite_conflict_message()),
    {
        let mode = self.write_mode();
        if self.overwrite && (mode == WriteMode::PrintOnly || mode == WriteMode::NewComment) {
            let mut message = String::new();
            message.append(
                "--overwrite only applies to --edit-body or --update-comment; it cannot be combined with --print-only or --new-comment.",
            );
            Err(Error::ApiError { status: 0, message })
        } else {
            Ok(())
        }
    }

    pub fn split_repo(&self) -> (r: Result<(String, String)>)
        ensures
            r is Ok <==> self.repo@.contains('/'),
            r matches Ok((owner, name)) ==> owner@ + seq!['/'] + name@ == self.repo@
                && !owner@.contains('/'),
            r is Err ==> (r matches Err(Error::ApiError { status, message }) && status == 0
                && message@ == invalid_repo_message(self.repo@)),
    {
        split_repo(self.repo.as_str())
    }
}

impl PruneArgs {
    pub fn split_repo(&self) -> (r: Result<(String, String)>)
        ensures
            r is Ok <==> self.repo@.contains('/'),
            r matches Ok((owner, name)) ==> owner@ + seq!['/'] + name@ == self.repo@
                && !owner@.contains('/'),
            r is Err ==> (r matches Err(Error::ApiError { status, message }) && status == 0
                && message@ == invalid_repo_message(self.repo@)),
    {
        split_repo(self.repo.as_str())
    }

    /// The prune mode: exactly one of `--dry-run` and `--confirm` must be given.
    pub fn mode(&self) -> (r: Result<PruneMode>)
        ensures
            self.dry_run && !self.confirm ==> r == Ok::<PruneMode, Error>(PruneMode::DryRun),
            !self.dry_run && self.confirm ==> r == Ok::<PruneMode, Error>(PruneMode::Confirm),
            self.dry_run == self.confirm ==> (r matches Err(Error::ApiError { status, message })
                && status == 0 && message@ == (if self.dry_run {
                prune_both_message()
            } else {
                prune_neither_message()
            })),
    {
        if self.dry_run && self.confirm {
            let mut message = String::new();
            message.append("--dry-run and --confirm cannot be used together; choose one.");
            return Err(Error::ApiError { status: 0, message });
        }
        if !self.dry_run && !self.confirm {
            let mut message = String::new();
            message.append(
                "prune requires either --dry-run (list stale refs) or --confirm (delete stale refs).",
            );
            return Err(Error::ApiError { status: 0, message });
        }
        if self.dry_run {
            Ok(PruneMode::DryRun)
        } else {
            Ok(PruneMode::Confirm)
        }
    }
}

/// What is done with the markdown of an upload.
#[derive(Debug, Clone, Copy, PartialEq, Eq, Structural)]
pub enum Publish {
    /// Print it.
    Print,
    /// Post it as a new comment on the issue or pull request, then print the comment id.
    CreateComment { number: u32 },
    /// Replace the text of a comment with it.
    ReplaceComment { comment_id: u64 },
    /// Append it to the text of a comment.
    AppendComment { comment_id: u64 },
    /// Replace the description of an issue with it.
    ReplaceIssueBody { number: u32 },
    /// Append it to the description of an issue.
    AppendIssueBody { number: u32 },
    /// Replace the description of a pull request with it.
    ReplacePrBody { number: u32 },
    /// Append it to the description of a pull request.
    AppendPrBody { number: u32 },
}

/// Where the markdown goes for a write mode, a target, and `--overwrite`: comments and
/// descriptions are appended to unless `overwrite` is given.
pub open spec fn publish_for(mode: WriteMode, target: Target, overwrite: bool) -> Publish {
    match mode {
        WriteMode::PrintOnly => Publish::Print,
        WriteMode::NewComment => Publish::CreateComment { number: target.num() },
        WriteMode::UpdateComment(id) => if overwrite {
            Publish::ReplaceComment { comment_id: id }
        } else {
            Publish::AppendComment { comment_id: id }
        },
        WriteMode::EditBody => match target {
            Target::Issue(n) => if overwrite {
                Publish::ReplaceIssueBody { number: n }
            } else {
                Publish::AppendIssueBody { number: n }
            },
            Target::Pr(n) => if overwrite {
                Publish::ReplacePrBody { number: n }
            } else {
                Publish::AppendPrBody { number: n }
            },
        },
    }
}

/// Chooses what to do with the markdown of an upload.
pub fn publish(mode: WriteMode, target: Target, overwrite: bool) -> (p: Publish)
    ensures
        p == publish_for(mode, target, overwrite),
{
    match mode {
        WriteMode::PrintOnly => Publish::Print,
        WriteMode::NewComment => Publish::CreateComment { number: target.number() },
        WriteMode::UpdateComment(id) => if overwrite {
            Publish::ReplaceComment { comment_id: id }
        } else {
            Publish::AppendComment { comment_id: id }
        },
        WriteMode::EditBody => match target {
            Target::Issue(n) => if overwrite {
                Publish::ReplaceIssueBody { number: n }
            } else {
                Publish::AppendIssueBody { number: n }
            },
            Target::Pr(n) => if overwrite {
                Publish::ReplacePrBody { number: n }
            } else {
                Publish::AppendPrBody { number: n }
            },
        },
    }
}

/// The markdown goes where the flags say, and nowhere else: printing only never writes to
/// GitHub; a new comment goes on the target; a comment update touches exactly the comment
/// given; a body edit touches the description of the target itself, an issue's as an issue
/// and a pull request's as a pull request.
pub proof fn law_publish_goes_where_asked(mode: WriteMode, target: Target, overwrite: bool)
    ensures
        ({
            let p = publish_for(mode, target, overwrite);
            let n = match target {
                Target::Issue(k) => k,
                Target::Pr(k) => k,
            };
            &&& (p == Publish::Print) <==> (mode == WriteMode::PrintOnly)
            &&& (p == Publish::CreateComment { number: n }) <==> (mode == WriteMode::NewComment)
            &&& (p is ReplaceComment || p is AppendComment) <==> mode is UpdateComment
            &&& p matches Publish::ReplaceComment { comment_id } ==> mode == WriteMode::UpdateComment(comment_id)
            &&& p matches Publish::AppendComment { comment_id } ==> mode == WriteMode::UpdateComment(comment_id)
            &&& (p is ReplaceIssueBody || p is AppendIssueBody) <==> (mode == WriteMode::EditBody && target is Issue)
            &&& (p is ReplacePrBody || p is AppendPrBody) <==> (mode == WriteMode::EditBody && target is Pr)
            &&& p matches Publish::ReplaceIssueBody { number } ==> number == n
            &&& p matches Publish::AppendIssueBody { number } ==> number == n
            &&& p matches Publish::ReplacePrBody { number } ==> number == n
            &&& p matches Publish::AppendPrBody { number } ==> number == n
        }),
{
}

/// Existing text is replaced only with `--overwrite`: without it a comment or description
/// is appended to, and with it (where it is accepted) the text is replaced.
pub proof fn law_replace_only_with_overwrite(mode: WriteMode, target: Target)
    ensures
        !(publish_for(mode, target, false) is ReplaceComment),
        !(publish_for(mode, target, false) is ReplaceIssueBody),
        !(publish_for(mode, target, false) is ReplacePrBody),
        mode is UpdateComment || mode is EditBody ==> {
            let p = publish_for(mode, target, true);
            p is ReplaceComment || p is ReplaceIssueBody || p is ReplacePrBody
        },
{
}

} // verus!
