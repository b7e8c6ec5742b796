//! What the git integration computes: names of configuration keys and hooks,
//! the text of git's output, the choice of the comment symbol and the commits
//! of a log. Running git and touching the repository's files is left to the
//! caller.
use vstd::prelude::*;

use crate::text::{
    chars_of, copy_range, find_char, find_char_from, lemma_find_char_from_bounds, starts_with,
    starts_with_at, string_of, trim, trim_end, trim_end_vec, trim_vec,
};

verus! {

#[verifier::external_type_specification]
#[verifier::external_body]
pub struct ExIoError(std::io::Error);

/// Errors of the git integration.
#[derive(Debug)]
pub enum GitError {
    NotFound(String),
    NotResolvable(String),
    CommandFailed(i32, String),
    IOError(std::io::Error),
    InvalidOutput(String),
}

/// A commit of the log: its abbreviated hash and its message.
#[derive(Debug, PartialEq)]
pub struct Commit {
    pub sha: String,
    pub message: String,
}

/// Mathematical model of a commit.
pub struct CommitModel {
    pub sha: Seq<char>,
    pub message: Seq<char>,
}

impl View for Commit {
    type V = CommitModel;

    open spec fn view(&self) -> CommitModel {
        CommitModel { sha: self.sha@, message: self.message@ }
    }
}

/// The git configuration keys that are read.
#[derive(Debug, Clone, Copy, PartialEq, Eq, Structural)]
pub enum ConfigKey {
    TrailerSeparators,
    CommentChar,
    CommentString,
}

impl ConfigKey {
    /// The key as git names it.
    pub fn to_string(&self) -> (s: String)
        ensures
            *self == ConfigKey::TrailerSeparators ==> s@ == "trailer.separators"@,
            *self == ConfigKey::CommentChar ==> s@ == "core.commentChar"@,
            *self == ConfigKey::CommentString ==> s@ == "core.commentString"@,
    {
        let name = match self {
            ConfigKey::TrailerSeparators => "trailer.separators",
            ConfigKey::CommentChar => "core.commentChar",
            ConfigKey::CommentString => "core.commentString",
        };
        name.to_owned()
    }
}

/// The hooks that can be installed.
#[derive(Debug, Clone, Copy, PartialEq, Eq, Structural)]
pub enum HookType {
    PrepareCommitMsg,
    ApplyPatchMsg,
}

impl HookType {
    /// The hook's file name.
    pub fn to_string(&self) -> (s: String)
        ensures
            *self == HookType::PrepareCommitMsg ==> s@ == "prepare-commit-msg"@,
            *self == HookType::ApplyPatchMsg ==> s@ == "applypatch-msg"@,
    {
        let name = match self {
            HookType::PrepareCommitMsg => "prepare-commit-msg",
            HookType::ApplyPatchMsg => "applypatch-msg",
        };
        name.to_owned()
    }
}

/// What `String::from_utf8_lossy` makes of `bytes`: the text they encode in
/// UTF-8, with U+FFFD for each sequence that is not valid UTF-8.
pub uninterp spec fn utf8_lossy(bytes: Seq<u8>) -> Seq<char>;

/// `String::from_utf8_lossy`, made an owned `String`.
///
/// Trusted: the result is what `from_utf8_lossy` gives for these bytes.
#[verifier::external_body]
fn decode_lossy(bytes: &[u8]) -> (s: String)
    ensures
        s@ == utf8_lossy(bytes@),
{
    String::from_utf8_lossy(bytes).into_owned()
}

/// `String::from_utf8`, handing the bytes back when they are not UTF-8.
///
/// Trusted: on success the text is the one the bytes encode, which is what
/// `from_utf8_lossy` gives for valid UTF-8 too; on failure the bytes come back
/// unchanged (`FromUtf8Error::into_bytes`).
#[verifier::external_body]
fn decode_utf8(bytes: Vec<u8>) -> (r: Result<String, Vec<u8>>)
    ensures
        r matches Ok(s) ==> s@ == utf8_lossy(bytes@),
        r matches Err(b) ==> b@ == bytes@,
{
    match String::from_utf8(bytes) {
        Ok(s) => Ok(s),
        Err(e) => Err(e.into_bytes()),
    }
}

/// Text of bytes that git printed: UTF-8, with U+FFFD for what is not.
pub fn string_from_git(bytes: Vec<u8>) -> (s: String)
    ensures
        s@ == utf8_lossy(bytes@),
{
    match decode_utf8(bytes) {
        Ok(value) => value,
        Err(b) => decode_lossy(b.as_slice()),
    }
}

/// The output of a git command that succeeded, without trailing white space.
pub fn command_output(stdout: Vec<u8>) -> (s: String)
    ensures
        s@ == trim_end(utf8_lossy(stdout@)),
{
    let text = string_from_git(stdout);
    let v = chars_of(text.as_str());
    let t = trim_end_vec(&v);
    string_of(&t)
}

/// The error of a git command that failed: its exit code (-1 when it was
/// stopped by a signal) and its error output.
pub fn command_failed(code: Option<i32>, stderr: &[u8]) -> (e: GitError)
    ensures
        e matches GitError::CommandFailed(c, msg) && msg@ == utf8_lossy(stderr@) && (code matches Some(k) ==> c == k) && (code is None ==> c == -1),
{
    let c = match code {
        Some(c) => c,
        None => -1,
    };
    GitError::CommandFailed(c, decode_lossy(stderr))
}

/// The hooks directory that `git rev-parse --git-path hooks` printed.
pub fn hooks_dir_text(stdout: &[u8]) -> (s: String)
    ensures
        s@ == trim(utf8_lossy(stdout@)),
{
    let text = decode_lossy(stdout);
    let v = chars_of(text.as_str());
    let t = trim_vec(&v);
    string_of(&t)
}

/// A configuration value as `git config` printed it: nothing when empty.
pub fn config_value(output: String) -> (r: Option<String>)
    ensures
        output@.len() == 0 ==> r is None,
        output@.len() > 0 ==> r == Some(output),
{
    if output.as_str().is_empty() {
        proof {
            vstd::string::axiom_str_literal_len("");
        }
        None
    } else {
        Some(output)
    }
}

/// The comment symbol of a repository: `core.commentString` where it is set,
/// else `core.commentChar`.
pub fn comment_symbol(comment_string: Option<String>, comment_char: Option<String>) -> (r: Option<
    String,
>)
    ensures
        comment_string is Some ==> r == comment_string,
        comment_string is None ==> r == comment_char,
{
    match comment_string {
        Some(s) => Some(s),
        None => comment_char,
    }
}

/// What `.git/HEAD` holds when a branch is checked out, before the branch name.
pub open spec fn head_ref_prefix() -> Seq<char> {
    "ref: refs/heads/"@
}

/// The name of the checked-out branch from the text of `.git/HEAD`: what
/// follows `ref: refs/heads/`, without trailing white space; nothing when the
/// head is detached.
pub fn branch_name_from_head(head: &str) -> (r: Option<String>)
    ensures
        starts_with(trim_end(head@), head_ref_prefix()) ==> (r matches Some(name) && name@
            == trim_end(head@).skip(head_ref_prefix().len() as int)),
        !starts_with(trim_end(head@), head_ref_prefix()) ==> r is None,
{
    let v = chars_of(head);
    let t = trim_end_vec(&v);
    let prefix = chars_of("ref: refs/heads/");
    proof {
        reveal_strlit("ref: refs/heads/");
    }
    if starts_with_at(&t, 0, &prefix) {
        assert(t@.skip(0) =~= t@);
        let name = copy_range(&t, prefix.len(), t.len());
        assert(name@ =~= t@.skip(prefix@.len() as int));
        Some(string_of(&name))
    } else {
        assert(t@.skip(0) =~= t@);
        None
    }
}

/// The error text of a field that the output ended in before its NUL byte.
pub open spec fn unterminated_field_text() -> Seq<char> {
    "unterminated git log field"@
}

/// The error text of a commit whose message is missing from the output.
pub open spec fn missing_message_text() -> Seq<char> {
    "git log ended before the commit message"@
}

/// A field of `git log -z` output as read up to a NUL byte: the field without
/// that byte, or an error when the output ended before it.
pub fn log_field(mut field: Vec<u8>) -> (r: Result<Vec<u8>, GitError>)
    ensures
        field@.len() > 0 && field@.last() == 0u8 ==> (r matches Ok(f) && f@ == field@.drop_last()),
        !(field@.len() > 0 && field@.last() == 0u8) ==> (r matches Err(GitError::InvalidOutput(t))
            && t@ == unterminated_field_text()),
{
    proof {
        reveal_strlit("unterminated git log field");
    }
    match field.pop() {
        Some(b) => {
            if b == 0u8 {
                Ok(field)
            } else {
                Err(GitError::InvalidOutput(String::from_str("unterminated git log field")))
            }
        },
        None => Err(GitError::InvalidOutput(String::from_str("unterminated git log field"))),
    }
}

/// A commit from its two `git log -z` fields.
pub fn commit_from_fields(sha: Vec<u8>, message: Vec<u8>) -> (c: Commit)
    ensures
        c.sha@ == utf8_lossy(sha@),
        c.message@ == utf8_lossy(message@),
{
    Commit { sha: string_from_git(sha), message: string_from_git(message) }
}

/// Where reading a `git log -z` stream stands: before a hash, or after the
/// hash (kept) and before its message.
#[derive(Debug)]
pub enum LogStage {
    Hash,
    Message(Vec<u8>),
}

/// What the stream of commits does next.
#[derive(Debug)]
pub enum LogAction {
    /// Read the message of the commit with this hash.
    ReadMessage(Vec<u8>),
    /// Hand out this commit.
    Emit(Commit),
    /// The output has ended: wait for git and report how it exited.
    Finish,
    /// Stop git and hand out this error.
    Fail(GitError),
}

/// The next action of a `git log -z` stream at `stage`, given what reading the
/// next field up to a NUL byte gave (`Ok` with the bytes read, nothing when
/// the output has ended).
pub fn log_step(stage: LogStage, read: Result<Vec<u8>, GitError>) -> (a: LogAction)
    ensures
        match (stage, read) {
            (_, Err(_)) => a is Fail,
            (LogStage::Hash, Ok(bytes)) => if bytes@.len() == 0 {
                a is Finish
            } else if bytes@.last() == 0u8 {
                a matches LogAction::ReadMessage(h) && h@ == bytes@.drop_last()
            } else {
                a matches LogAction::Fail(GitError::InvalidOutput(t)) && t@ == unterminated_field_text()
            },
            (LogStage::Message(hash), Ok(bytes)) => if bytes@.len() == 0 {
                a matches LogAction::Fail(GitError::InvalidOutput(t)) && t@ == missing_message_text()
            } else if bytes@.last() == 0u8 {
                a matches LogAction::Emit(c) && c.sha@ == utf8_lossy(hash@) && c.message@
                    == utf8_lossy(bytes@.drop_last())
            } else {
                a matches LogAction::Fail(GitError::InvalidOutput(t)) && t@ == unterminated_field_text()
            },
        },
        read matches Err(e) ==> a == LogAction::Fail(e),
{
    let bytes = match read {
        Ok(b) => b,
        Err(e) => return LogAction::Fail(e),
    };
    if bytes.len() == 0 {
        return match stage {
            LogStage::Hash => LogAction::Finish,
            LogStage::Message(_) => {
                proof {
                    reveal_strlit("git log ended before the commit message");
                }
                LogAction::Fail(
                    GitError::InvalidOutput(String::from_str("git log ended before the commit message")),
                )
            },
        };
    }
    let field = match log_field(bytes) {
        Ok(f) => f,
        Err(e) => return LogAction::Fail(e),
    };
    match stage {
        LogStage::Hash => LogAction::ReadMessage(field),
        LogStage::Message(hash) => LogAction::Emit(commit_from_fields(hash, field)),
    }
}

/// The marker after each commit message in the output of `get_log`'s
/// `git log --pretty=format:%h%n%B#-eoc-#`.
pub open spec fn end_of_commit() -> Seq<char> {
    seq!['#', '-', 'e', 'o', 'c', '-', '#']
}

/// The first position at or after `i` where the marker starts (or the length).
pub open spec fn next_marker(s: Seq<char>, i: int) -> int
    decreases s.len() - i,
{
    if i >= s.len() {
        s.len() as int
    } else if starts_with(s.skip(i), end_of_commit()) {
        i
    } else {
        next_marker(s, i + 1)
    }
}

/// The commit that an entry of the log holds: the hash on the first line, the
/// message after it. The line break that separates entries is dropped first;
/// an entry that is empty then holds no commit; one without a line break is
/// malformed.
pub open spec fn log_entry(entry: Seq<char>) -> Option<Option<CommitModel>> {
    let e = if entry.len() > 0 && entry[0] == '\n' {
        entry.skip(1)
    } else {
        entry
    };
    let nl = find_char_from(e, '\n', 0);
    if e.len() == 0 {
        Some(None)
    } else if nl < e.len() {
        Some(Some(CommitModel { sha: e.take(nl), message: e.skip(nl + 1) }))
    } else {
        None
    }
}

/// The commits of the log from position `i` on, after the commits `acc`, or
/// nothing when an entry is malformed.
pub open spec fn log_from(s: Seq<char>, i: int, acc: Seq<CommitModel>) -> Option<Seq<CommitModel>>
    decreases s.len() - i,
{
    if i < 0 || i >= s.len() {
        Some(acc)
    } else {
        let p = next_marker(s, i);
        let next = if p < s.len() {
            p + 7
        } else {
            s.len() as int
        };
        proof {
            lemma_next_marker_bounds(s, i);
        }
        match log_entry(s.subrange(i, p)) {
            Some(Some(c)) => log_from(s, next, acc.push(c)),
            Some(None) => log_from(s, next, acc),
            None => None,
        }
    }
}

/// The commits that the output of `get_log`'s `git log` holds.
pub open spec fn git_log(s: Seq<char>) -> Option<Seq<CommitModel>> {
    log_from(s, 0, Seq::empty())
}

pub proof fn lemma_next_marker_bounds(s: Seq<char>, i: int)
    requires
        0 <= i <= s.len(),
    ensures
        i <= next_marker(s, i) <= s.len(),
        next_marker(s, i) < s.len() ==> next_marker(s, i) + 7 <= s.len(),
    decreases s.len() - i,
{
    if i < s.len() && !starts_with(s.skip(i), end_of_commit()) {
        lemma_next_marker_bounds(s, i + 1);
    }
}

pub open spec fn commits_view(v: Seq<Commit>) -> Seq<CommitModel> {
    v.map_values(|c: Commit| c@)
}

/// The first position at or after `i` where the marker starts.
fn next_marker_exec(v: &Vec<char>, marker: &Vec<char>, i: usize) -> (r: usize)
    requires
        i <= v.len(),
        marker@ == end_of_commit(),
    ensures
        r == next_marker(v@, i as int),
{
    let mut k = i;
    while k < v.len() && !starts_with_at(v, k, marker)
        invariant
            i <= k <= v.len(),
            marker@ == end_of_commit(),
            next_marker(v@, i as int) == next_marker(v@, k as int),
        decreases v.len() - k,
    {
        k = k + 1;
    }
    k
}

/// The commit of one entry of the log.
fn log_entry_exec(v: &Vec<char>, from: usize, to: usize) -> (r: Option<Option<Commit>>)
    requires
        from <= to <= v.len(),
    ensures
        r matches Some(Some(c)) ==> log_entry(v@.subrange(from as int, to as int)) == Some(
            Some(c@),
        ),
        r matches Some(None) ==> log_entry(v@.subrange(from as int, to as int)) == Some(
            None::<CommitModel>,
        ),
        r is None ==> log_entry(v@.subrange(from as int, to as int)) is None,
{
    let ghost entry = v@.subrange(from as int, to as int);
    let start = if from < to && v[from] == '\n' {
        from + 1
    } else {
        from
    };
    let e = copy_range(v, start, to);
    assert(e@ == (if entry.len() > 0 && entry[0] == '\n' {
        entry.skip(1)
    } else {
        entry
    }));
    if e.len() == 0 {
        return Some(None);
    }
    let nl = find_char(&e, '\n', 0);
    proof {
        lemma_find_char_from_bounds(e@, '\n', 0);
    }
    if nl < e.len() {
        let sha = copy_range(&e, 0, nl);
        let message = copy_range(&e, nl + 1, e.len());
        let c = Commit { sha: string_of(&sha), message: string_of(&message) };
        assert(sha@ =~= e@.take(nl as int));
        assert(message@ =~= e@.skip(nl + 1));
        Some(Some(c))
    } else {
        None
    }
}

/// The commits in the output of `get_log`'s `git log`, oldest last as git
/// prints them, or nothing when the output is malformed.
pub fn parse_git_log(output: &str) -> (r: Option<Vec<Commit>>)
    ensures
        git_log(output@) matches Some(cs) ==> r matches Some(v) && commits_view(v@) == cs,
        git_log(output@) is None ==> r is None,
{
    let v = chars_of(output);
    let marker = chars_of("#-eoc-#");
    proof {
        reveal_strlit("#-eoc-#");
        assert(marker@ =~= end_of_commit());
    }
    let mut commits: Vec<Commit> = Vec::new();
    assert(commits_view(commits@) =~= Seq::<CommitModel>::empty());
    let mut i: usize = 0;
    while i < v.len()
        invariant
            i <= v.len(),
            v@ == output@,
            marker@ == end_of_commit(),
            git_log(v@) == log_from(v@, i as int, commits_view(commits@)),
        decreases v.len() - i,
    {
        let p = next_marker_exec(&v, &marker, i);
        proof {
            lemma_next_marker_bounds(v@, i as int);
        }
        let next = if p < v.len() {
            p + 7
        } else {
            v.len()
        };
        match log_entry_exec(&v, i, p) {
            Some(Some(c)) => {
                let ghost before = commits@;
                commits.push(c);
                assert(commits_view(commits@) =~= commits_view(before).push(c@));
            },
            Some(None) => {},
            None => {
                return None;
            },
        }
        i = next;
    }
    Some(commits)
}

} // verus!
