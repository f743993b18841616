use std::path::PathBuf;

use gh_agent_screenshot::cli::{
    publish, split_repo, PruneArgs, Publish, TargetArgs, UploadArgs, WriteMode, WriteModeArgs,
};
use gh_agent_screenshot::error::Error;
use gh_agent_screenshot::prune::PruneMode;
use gh_agent_screenshot::upload::Target;

fn no_flags() -> WriteModeArgs {
    WriteModeArgs { new_comment: false, update_comment: None, edit_body: false, print_only: false }
}

/// `a.png --repo o/r --issue 1` plus the given write-mode flags.
fn upload_args(files: &[&str], flags: WriteModeArgs) -> UploadArgs {
    UploadArgs {
        files: files.iter().map(PathBuf::from).collect(),
        repo: "o/r".to_string(),
        target: TargetArgs { issue: Some(1), pr: None },
        write_mode_args: flags,
        overwrite: false,
    }
}

#[test]
fn write_mode_defaults_to_print_only() {
    let args = upload_args(&["a.png"], no_flags());
    assert_eq!(args.write_mode(), WriteMode::PrintOnly);
}

#[test]
fn write_mode_new_comment() {
    let args = upload_args(&["a.png"], WriteModeArgs { new_comment: true, ..no_flags() });
    assert_eq!(args.write_mode(), WriteMode::NewComment);
}

#[test]
fn write_mode_update_comment() {
    let args = upload_args(&["a.png"], WriteModeArgs { update_comment: Some(123), ..no_flags() });
    assert_eq!(args.write_mode(), WriteMode::UpdateComment(123));
}

#[test]
fn write_mode_edit_body() {
    let args = upload_args(&["a.png"], WriteModeArgs { edit_body: true, ..no_flags() });
    assert_eq!(args.write_mode(), WriteMode::EditBody);
}

#[test]
fn write_mode_explicit_print_only() {
    let args = upload_args(&["a.png"], WriteModeArgs { print_only: true, ..no_flags() });
    assert_eq!(args.write_mode(), WriteMode::PrintOnly);
}

#[test]
fn write_mode_conflicting_flags_rejected() {
    let args = upload_args(
        &["a.png"],
        WriteModeArgs { new_comment: true, edit_body: true, ..no_flags() },
    );
    assert!(
        !args.write_mode_args.is_exclusive(),
        "conflicting write mode flags must be rejected by clap"
    );
}

#[test]
fn multiple_files_accepted() {
    let args = upload_args(&["a.png", "b.png", "c.png"], no_flags());
    assert_eq!(args.files.len(), 3);
}

#[test]
fn single_write_mode_flags_are_exclusive() {
    assert!(no_flags().is_exclusive());
    assert!(WriteModeArgs { update_comment: Some(5), ..no_flags() }.is_exclusive());
    assert!(!WriteModeArgs { update_comment: Some(5), print_only: true, ..no_flags() }.is_exclusive());
}

#[test]
fn target_requires_exactly_one_of_issue_and_pr() {
    assert!(TargetArgs { issue: Some(1), pr: None }.is_exactly_one());
    assert!(TargetArgs { issue: None, pr: Some(2) }.is_exactly_one());
    assert!(!TargetArgs { issue: Some(1), pr: Some(2) }.is_exactly_one());
    assert!(!TargetArgs { issue: None, pr: None }.is_exactly_one());
}

#[test]
fn target_from_issue_or_pr() {
    let mut args = upload_args(&["a.png"], no_flags());
    assert_eq!(args.target(), Target::Issue(1));
    args.target = TargetArgs { issue: None, pr: Some(42) };
    assert_eq!(args.target(), Target::Pr(42));
}

#[test]
fn split_repo_splits_at_first_slash() {
    assert_eq!(split_repo("myorg/myrepo").unwrap(), ("myorg".to_string(), "myrepo".to_string()));
    assert_eq!(split_repo("a/b/c").unwrap(), ("a".to_string(), "b/c".to_string()));
    assert_eq!(split_repo("/x").unwrap(), ("".to_string(), "x".to_string()));
}

#[test]
fn split_repo_without_slash_is_an_error() {
    let err = split_repo("justaname").unwrap_err();
    assert_eq!(
        err,
        Error::ApiError {
            status: 0,
            message: "invalid --repo 'justaname': expected format 'owner/repo' (e.g. 'myorg/myrepo')"
                .to_string(),
        }
    );
}

#[test]
fn args_split_repo_uses_repo_flag() {
    let args = upload_args(&["a.png"], no_flags());
    assert_eq!(args.split_repo().unwrap(), ("o".to_string(), "r".to_string()));
    let prune = PruneArgs { repo: "owner/name".to_string(), dry_run: true, confirm: false, older_than_days: 90 };
    assert_eq!(prune.split_repo().unwrap(), ("owner".to_string(), "name".to_string()));
}

#[test]
fn overwrite_is_refused_with_print_only_and_new_comment() {
    let mut args = upload_args(&["a.png"], no_flags());
    assert!(args.validate_overwrite().is_ok());
    args.overwrite = true;
    assert!(matches!(args.validate_overwrite(), Err(Error::ApiError { status: 0, .. })));
    args.write_mode_args = WriteModeArgs { new_comment: true, ..no_flags() };
    assert!(args.validate_overwrite().is_err());
    args.write_mode_args = WriteModeArgs { edit_body: true, ..no_flags() };
    assert!(args.validate_overwrite().is_ok());
    args.write_mode_args = WriteModeArgs { update_comment: Some(7), ..no_flags() };
    assert!(args.validate_overwrite().is_ok());
}

#[test]
fn prune_mode_needs_exactly_one_flag() {
    let mut args = PruneArgs { repo: "o/r".to_string(), dry_run: true, confirm: false, older_than_days: 90 };
    assert_eq!(args.mode().unwrap(), PruneMode::DryRun);
    args = PruneArgs { dry_run: false, confirm: true, ..args };
    assert_eq!(args.mode().unwrap(), PruneMode::Confirm);
    args = PruneArgs { dry_run: true, confirm: true, ..args };
    assert_eq!(
        args.mode().unwrap_err(),
        Error::ApiError {
            status: 0,
            message: "--dry-run and --confirm cannot be used together; choose one.".to_string()
        }
    );
    args = PruneArgs { dry_run: false, confirm: false, ..args };
    assert_eq!(
        args.mode().unwrap_err(),
        Error::ApiError {
            status: 0,
            message: "prune requires either --dry-run (list stale refs) or --confirm (delete stale refs)."
                .to_string()
        }
    );
}

#[test]
fn publish_appends_unless_overwrite() {
    assert_eq!(publish(WriteMode::PrintOnly, Target::Issue(3), false), Publish::Print);
    assert_eq!(
        publish(WriteMode::NewComment, Target::Pr(7), false),
        Publish::CreateComment { number: 7 }
    );
    assert_eq!(
        publish(WriteMode::UpdateComment(99), Target::Issue(3), false),
        Publish::AppendComment { comment_id: 99 }
    );
    assert_eq!(
        publish(WriteMode::UpdateComment(99), Target::Issue(3), true),
        Publish::ReplaceComment { comment_id: 99 }
    );
    assert_eq!(
        publish(WriteMode::EditBody, Target::Issue(3), false),
        Publish::AppendIssueBody { number: 3 }
    );
    assert_eq!(
        publish(WriteMode::EditBody, Target::Pr(8), true),
        Publish::ReplacePrBody { number: 8 }
    );
    assert_eq!(
        publish(WriteMode::EditBody, Target::Pr(8), false),
        Publish::AppendPrBody { number: 8 }
    );
    assert_eq!(
        publish(WriteMode::EditBody, Target::Issue(3), true),
        Publish::ReplaceIssueBody { number: 3 }
    );
}
