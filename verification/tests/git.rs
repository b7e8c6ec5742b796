use commitfmt::git::{
    command_failed, command_output, comment_symbol, commit_from_fields, config_value,
    hooks_dir_text, log_field, log_step, parse_git_log, string_from_git, ConfigKey, GitError,
    HookType, LogAction, LogStage,
};

#[test]
fn test_string_from_git_replaces_invalid_utf8() {
    assert_eq!(string_from_git(vec![b'f', 0x80, b'o']), "f\u{fffd}o");
}

#[test]
fn test_config_key_display() {
    assert_eq!(ConfigKey::TrailerSeparators.to_string(), "trailer.separators");
    assert_eq!(ConfigKey::CommentChar.to_string(), "core.commentChar");
    assert_eq!(ConfigKey::CommentString.to_string(), "core.commentString");
}

#[test]
fn test_hook_type_display() {
    assert_eq!(HookType::PrepareCommitMsg.to_string(), "prepare-commit-msg");
    assert_eq!(HookType::ApplyPatchMsg.to_string(), "applypatch-msg");
}

#[test]
fn valid_utf8_is_kept() {
    assert_eq!(string_from_git("héllo".as_bytes().to_vec()), "héllo");
}

#[test]
fn command_output_drops_trailing_white_space() {
    assert_eq!(command_output(b"main\n\n".to_vec()), "main");
    assert_eq!(command_output(b"  a b \t\n".to_vec()), "  a b");
}

#[test]
fn failed_command_keeps_code_and_error_output() {
    match command_failed(Some(128), b"fatal: bad") {
        GitError::CommandFailed(code, msg) => {
            assert_eq!(code, 128);
            assert_eq!(msg, "fatal: bad");
        }
        other => panic!("unexpected {other:?}"),
    }
    match command_failed(None, b"") {
        GitError::CommandFailed(code, _) => assert_eq!(code, -1),
        other => panic!("unexpected {other:?}"),
    }
}

#[test]
fn hooks_dir_is_trimmed() {
    assert_eq!(hooks_dir_text(b".git/hooks\n"), ".git/hooks");
}

#[test]
fn empty_config_value_is_unset() {
    assert_eq!(config_value(String::new()), None);
    assert_eq!(config_value(":#".to_string()), Some(":#".to_string()));
}

#[test]
fn comment_string_comes_before_comment_char() {
    assert_eq!(comment_symbol(Some("//".to_string()), Some("#".to_string())), Some("//".to_string()));
    assert_eq!(comment_symbol(None, Some("#".to_string())), Some("#".to_string()));
    assert_eq!(comment_symbol(None, None), None);
}

#[test]
fn log_fields_end_with_nul() {
    assert_eq!(log_field(b"abc\0".to_vec()).unwrap(), b"abc".to_vec());
    assert!(matches!(log_field(b"abc".to_vec()), Err(GitError::InvalidOutput(_))));
    assert!(matches!(log_field(Vec::new()), Err(GitError::InvalidOutput(_))));
    let commit = commit_from_fields(b"1a2b".to_vec(), b"feat: x\n".to_vec());
    assert_eq!(commit.sha, "1a2b");
    assert_eq!(commit.message, "feat: x\n");
}

#[test]
fn git_log_entries() {
    let output = "abc1234\nfeat: one\n\nbody\n#-eoc-#\ndef5678\nfix: two\n#-eoc-#";
    let commits = parse_git_log(output).unwrap();
    assert_eq!(commits.len(), 2);
    assert_eq!(commits[0].sha, "abc1234");
    assert_eq!(commits[0].message, "feat: one\n\nbody\n");
    assert_eq!(commits[1].sha, "def5678");
    assert_eq!(commits[1].message, "fix: two\n");
    assert_eq!(parse_git_log("").unwrap().len(), 0);
    assert!(parse_git_log("no line break#-eoc-#").is_none());
}

#[test]
fn log_stream_steps() {
    let hash = match log_step(LogStage::Hash, Ok(b"1a2b\0".to_vec())) {
        LogAction::ReadMessage(h) => h,
        other => panic!("unexpected {other:?}"),
    };
    assert_eq!(hash, b"1a2b".to_vec());
    match log_step(LogStage::Message(hash), Ok(b"feat: x\n\0".to_vec())) {
        LogAction::Emit(c) => {
            assert_eq!(c.sha, "1a2b");
            assert_eq!(c.message, "feat: x\n");
        }
        other => panic!("unexpected {other:?}"),
    }
    assert!(matches!(log_step(LogStage::Hash, Ok(Vec::new())), LogAction::Finish));
    assert!(matches!(
        log_step(LogStage::Message(b"1".to_vec()), Ok(Vec::new())),
        LogAction::Fail(GitError::InvalidOutput(_))
    ));
    assert!(matches!(
        log_step(LogStage::Hash, Ok(b"no-nul".to_vec())),
        LogAction::Fail(GitError::InvalidOutput(_))
    ));
}

#[test]
fn log_error_texts() {
    match log_field(b"abc".to_vec()) {
        Err(GitError::InvalidOutput(t)) => assert_eq!(t, "unterminated git log field"),
        _ => panic!("error expected"),
    }
    match log_step(LogStage::Message(b"1".to_vec()), Ok(Vec::new())) {
        LogAction::Fail(GitError::InvalidOutput(t)) => assert_eq!(t, "git log ended before the commit message"),
        _ => panic!("error expected"),
    }
    match log_step(LogStage::Hash, Ok(b"no-nul".to_vec())) {
        LogAction::Fail(GitError::InvalidOutput(t)) => assert_eq!(t, "unterminated git log field"),
        _ => panic!("error expected"),
    }
}
