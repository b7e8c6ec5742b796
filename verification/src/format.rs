//! Adding the configured footers to a message.
//!
//! A footer takes its value from a template or, where it has none, from the
//! first group that a pattern matches in the branch name. Rendering templates
//! runs commands and reads the environment, so the caller renders them and
//! hands the results in, one for each footer.
use vstd::prelude::*;

use crate::cc::footer::{footer_text, has_key, Footer, FooterModel, Footers, SeparatorAlignment, DEFAULT_SEPARATOR};
use crate::cc::message::Message;
use crate::cc::header::opt_view;
use crate::pattern::{regex_accepts, regex_first_group, Pattern};
use crate::workspace::settings::OnConflictAction;

verus! {

/// Errors of adding footers.
#[derive(Debug)]
pub enum FooterError {
    /// The footer's template could not be rendered; the text says why.
    TemplateError(String),
    /// The footer has neither a template nor a branch pattern.
    MissingValue(String),
    /// The branch pattern does not compile.
    BadPattern(regex::Error),
    ValueNotFoundInBranch(String),
    /// The message has a footer of this key already.
    AlreadyExists(String),
}

/// Mathematical model of a footer error.
pub enum FooterErrorModel {
    TemplateError(Seq<char>),
    MissingValue(Seq<char>),
    BadPattern,
    ValueNotFoundInBranch(Seq<char>),
    AlreadyExists(Seq<char>),
}

impl View for FooterError {
    type V = FooterErrorModel;

    open spec fn view(&self) -> FooterErrorModel {
        match self {
            FooterError::TemplateError(s) => FooterErrorModel::TemplateError(s@),
            FooterError::MissingValue(s) => FooterErrorModel::MissingValue(s@),
            FooterError::BadPattern(_) => FooterErrorModel::BadPattern,
            FooterError::ValueNotFoundInBranch(s) => FooterErrorModel::ValueNotFoundInBranch(s@),
            FooterError::AlreadyExists(s) => FooterErrorModel::AlreadyExists(s@),
        }
    }
}

/// A footer to add: its key, where its value comes from, and how it is written.
#[derive(Debug, Clone, PartialEq)]
pub struct AdditionalFooter {
    pub key: String,
    pub value_template: Option<String>,
    pub branch_value_pattern: Option<String>,
    pub on_conflict: OnConflictAction,
    pub separator: Option<char>,
    pub alignment: Option<SeparatorAlignment>,
}

/// What adding one footer does.
pub enum Step {
    /// Adds this footer.
    Add(FooterModel),
    /// Adds nothing.
    Skip,
    /// Fails.
    Fail(FooterErrorModel),
    /// Group 1 of the branch pattern matched nothing, where the value was to be taken from.
    Panic,
}

/// The footer of key `f.key` with the value `v`.
pub open spec fn footer_with_value(f: AdditionalFooter, v: Seq<char>) -> FooterModel {
    FooterModel {
        key: f.key@,
        value: v,
        separator: match f.separator {
            Some(c) => c,
            None => DEFAULT_SEPARATOR,
        },
        alignment: match f.alignment {
            Some(a) => a,
            None => SeparatorAlignment::Left,
        },
    }
}

/// What adding `f` does, given what its branch pattern found in the branch
/// name: nothing where it does not match or has no group; the footer with the
/// text of group 1 as its value; the panic case where group 1 took no part.
pub open spec fn group_step(f: AdditionalFooter, found: Option<(nat, Option<Seq<char>>)>) -> Step {
    match found {
        None => Step::Skip,
        Some((n, g)) => if n < 2 {
            Step::Skip
        } else {
            match g {
                Some(v) => Step::Add(footer_with_value(f, v)),
                None => Step::Panic,
            }
        },
    }
}

/// What adding `f` to the footers `fs` does, with `rendered` the rendering
/// of its template.
pub open spec fn footer_step(
    fs: Seq<FooterModel>,
    f: AdditionalFooter,
    rendered: Result<String, String>,
    branch: Seq<char>,
) -> Step {
    if f.branch_value_pattern is None && f.value_template is None {
        Step::Fail(FooterErrorModel::MissingValue(f.key@))
    } else if has_key(fs, f.key@) && f.on_conflict == OnConflictAction::Skip {
        Step::Skip
    } else if has_key(fs, f.key@) && f.on_conflict == OnConflictAction::Error {
        Step::Fail(FooterErrorModel::AlreadyExists(f.key@))
    } else if f.value_template is Some {
        match rendered {
            Ok(v) => Step::Add(footer_with_value(f, v@)),
            Err(m) => Step::Fail(FooterErrorModel::TemplateError(m@)),
        }
    } else {
        let p = f.branch_value_pattern->0;
        if !regex_accepts(p@) {
            Step::Fail(FooterErrorModel::BadPattern)
        } else {
            group_step(f, regex_first_group(p@, branch))
        }
    }
}

/// How adding a list of footers ends.
pub enum AppendOutcome {
    Done,
    Failed(FooterErrorModel),
    Panicked,
}

/// The footers after adding `footers` to `fs` in order, and how it ended.
pub open spec fn append_outcome(
    fs: Seq<FooterModel>,
    footers: Seq<AdditionalFooter>,
    rendered: Seq<Result<String, String>>,
    branch: Seq<char>,
) -> (Seq<FooterModel>, AppendOutcome)
    decreases footers.len(),
{
    if footers.len() == 0 {
        (fs, AppendOutcome::Done)
    } else {
        match footer_step(fs, footers[0], rendered[0], branch) {
            Step::Add(m) => append_outcome(fs.push(m), footers.drop_first(), rendered.drop_first(), branch),
            Step::Skip => append_outcome(fs, footers.drop_first(), rendered.drop_first(), branch),
            Step::Fail(e) => (fs, AppendOutcome::Failed(e)),
            Step::Panic => (fs, AppendOutcome::Panicked),
        }
    }
}

/// What adding `f` does, as an executable result.
pub enum StepResult {
    Add(Footer),
    Skip,
    Fail(FooterError),
    Panic,
}

pub open spec fn step_matches(r: StepResult, s: Step) -> bool {
    match (r, s) {
        (StepResult::Add(f), Step::Add(m)) => f@ == m,
        (StepResult::Skip, Step::Skip) => true,
        (StepResult::Fail(e), Step::Fail(m)) => e@ == m,
        (StepResult::Panic, Step::Panic) => true,
        _ => false,
    }
}

/// The footer of key `f.key` with the value `value`.
fn new_footer(f: &AdditionalFooter, value: String) -> (r: Footer)
    ensures
        r@ == footer_with_value(*f, value@),
{
    let separator = match f.separator {
        Some(c) => c,
        None => DEFAULT_SEPARATOR,
    };
    let alignment = match f.alignment {
        Some(a) => a,
        None => SeparatorAlignment::Left,
    };
    Footer { key: f.key.clone(), value, separator, alignment }
}

/// What adding `f` to `fs` does.
fn footer_step_exec(fs: &Footers, f: &AdditionalFooter, rendered: &Result<String, String>, branch: &str) -> (r:
    StepResult)
    ensures
        step_matches(r, footer_step(fs@, *f, *rendered, branch@)),
{
    if f.branch_value_pattern.is_none() && f.value_template.is_none() {
        return StepResult::Fail(FooterError::MissingValue(f.key.clone()));
    }
    if fs.contains_key(f.key.as_str()) {
        match f.on_conflict {
            OnConflictAction::Append => {},
            OnConflictAction::Skip => {
                return StepResult::Skip;
            },
            OnConflictAction::Error => {
                return StepResult::Fail(FooterError::AlreadyExists(f.key.clone()));
            },
        }
    }
    if f.value_template.is_some() {
        return match rendered {
            Ok(v) => StepResult::Add(new_footer(f, v.clone())),
            Err(m) => StepResult::Fail(FooterError::TemplateError(m.clone())),
        };
    }
    let source = match &f.branch_value_pattern {
        Some(p) => p,
        None => {
            return StepResult::Skip;
        },
    };
    let pattern = match Pattern::new(source.as_str()) {
        Ok(p) => p,
        Err(e) => {
            return StepResult::Fail(FooterError::BadPattern(e));
        },
    };
    branch_group_step(f, pattern.first_group(branch))
}

/// What adding `f` does, given what `Pattern::first_group` found of its branch
/// pattern in the branch name (the number of groups and the text of group 1).
pub fn branch_group_step(f: &AdditionalFooter, found: Option<(usize, Option<String>)>) -> (r: StepResult)
    ensures
        step_matches(
            r,
            group_step(
                *f,
                match found {
                    Some((n, g)) => Some((n as nat, opt_view(g))),
                    None => None,
                },
            ),
        ),
{
    match found {
        None => StepResult::Skip,
        Some((n, g)) => {
            if n < 2 {
                StepResult::Skip
            } else {
                match g {
                    Some(v) => StepResult::Add(new_footer(f, v)),
                    None => StepResult::Panic,
                }
            }
        },
    }
}

/// Whether adding `f` to the footers `fs` reads the rendering of its template:
/// only where `f` has a template and is neither refused for want of a value nor
/// skipped or refused for a key that `fs` has already.
pub open spec fn render_consulted(fs: Seq<FooterModel>, f: AdditionalFooter) -> bool {
    &&& !(f.branch_value_pattern is None && f.value_template is None)
    &&& !(has_key(fs, f.key@) && f.on_conflict == OnConflictAction::Skip)
    &&& !(has_key(fs, f.key@) && f.on_conflict == OnConflictAction::Error)
    &&& f.value_template is Some
}

/// Whether adding `f` to the footers `fs` needs the rendering of its template,
/// so that a caller renders (and runs the commands of) only the templates whose
/// value is used.
pub fn needs_rendering(fs: &Footers, f: &AdditionalFooter) -> (r: bool)
    ensures
        r == render_consulted(fs@, *f),
{
    if f.branch_value_pattern.is_none() && f.value_template.is_none() {
        return false;
    }
    if fs.contains_key(f.key.as_str()) {
        match f.on_conflict {
            OnConflictAction::Append => {},
            OnConflictAction::Skip => {
                return false;
            },
            OnConflictAction::Error => {
                return false;
            },
        }
    }
    f.value_template.is_some()
}

/// Adds one footer to the message, with `rendered` the rendering of its
/// template (read only where `needs_rendering` says so): the footer is added,
/// skipped, or refused with an error, as `footer_step` says. Returns nothing,
/// and leaves the message as it is, where the value was to be taken from a
/// group of the branch pattern that matched nothing.
pub fn append_footer(
    message: &mut Message,
    f: &AdditionalFooter,
    branch: &str,
    rendered: &Result<String, String>,
) -> (r: Option<Result<(), FooterError>>)
    ensures
        final(message).header == old(message).header,
        final(message).body == old(message).body,
        match footer_step(old(message).footers@, *f, *rendered, branch@) {
            Step::Add(m) => r matches Some(Ok(())) && final(message).footers@ == old(
                message,
            ).footers@.push(m),
            Step::Skip => r matches Some(Ok(())) && final(message).footers@ == old(
                message,
            ).footers@,
            Step::Fail(e) => r matches Some(Err(x)) && x@ == e && final(message).footers@ == old(
                message,
            ).footers@,
            Step::Panic => r is None && final(message).footers@ == old(message).footers@,
        },
{
    match footer_step_exec(&message.footers, f, rendered, branch) {
        StepResult::Add(footer) => {
            message.footers.push(footer);
            Some(Ok(()))
        },
        StepResult::Skip => Some(Ok(())),
        StepResult::Fail(e) => Some(Err(e)),
        StepResult::Panic => None,
    }
}

/// Where adding a footer does not read the rendering of its template, what
/// the rendering is changes nothing: a template that is not needed can be left
/// unrendered.
pub proof fn law_unread_rendering_is_unused(
    fs: Seq<FooterModel>,
    f: AdditionalFooter,
    r1: Result<String, String>,
    r2: Result<String, String>,
    branch: Seq<char>,
)
    requires
        !render_consulted(fs, f),
    ensures
        footer_step(fs, f, r1, branch) == footer_step(fs, f, r2, branch),
{
}

/// Whether two lists of renderings agree on every rendering that adding
/// `footers` to `fs` in order reads (with `r1`).
pub open spec fn agree_where_read(
    fs: Seq<FooterModel>,
    footers: Seq<AdditionalFooter>,
    r1: Seq<Result<String, String>>,
    r2: Seq<Result<String, String>>,
    branch: Seq<char>,
) -> bool
    decreases footers.len(),
{
    if footers.len() == 0 {
        true
    } else {
        &&& (render_consulted(fs, footers[0]) ==> r1[0] == r2[0])
        &&& match footer_step(fs, footers[0], r1[0], branch) {
            Step::Add(m) => agree_where_read(
                fs.push(m),
                footers.drop_first(),
                r1.drop_first(),
                r2.drop_first(),
                branch,
            ),
            Step::Skip => agree_where_read(
                fs,
                footers.drop_first(),
                r1.drop_first(),
                r2.drop_first(),
                branch,
            ),
            _ => true,
        }
    }
}

/// Rendering only the templates that are read gives the same footers and the
/// same outcome as rendering them all first.
pub proof fn law_lazy_rendering_same_outcome(
    fs: Seq<FooterModel>,
    footers: Seq<AdditionalFooter>,
    r1: Seq<Result<String, String>>,
    r2: Seq<Result<String, String>>,
    branch: Seq<char>,
)
    requires
        r1.len() == footers.len(),
        r2.len() == footers.len(),
        agree_where_read(fs, footers, r1, r2, branch),
    ensures
        append_outcome(fs, footers, r1, branch) == append_outcome(fs, footers, r2, branch),
    decreases footers.len(),
{
    if footers.len() > 0 {
        if !render_consulted(fs, footers[0]) {
            law_unread_rendering_is_unused(fs, footers[0], r1[0], r2[0], branch);
        }
        match footer_step(fs, footers[0], r1[0], branch) {
            Step::Add(m) => {
                law_lazy_rendering_same_outcome(
                    fs.push(m),
                    footers.drop_first(),
                    r1.drop_first(),
                    r2.drop_first(),
                    branch,
                );
            },
            Step::Skip => {
                law_lazy_rendering_same_outcome(
                    fs,
                    footers.drop_first(),
                    r1.drop_first(),
                    r2.drop_first(),
                    branch,
                );
            },
            _ => {},
        }
    }
}

/// Adds `footers` to `fs` in order; stops at the first error, and returns
/// nothing where the value of a footer was to be taken from a group of its
/// branch pattern that matched nothing.
fn append_to(
    fs: &mut Footers,
    footers: &Vec<AdditionalFooter>,
    branch: &str,
    rendered: &Vec<Result<String, String>>,
) -> (r: Option<Result<(), FooterError>>)
    requires
        rendered@.len() == footers@.len(),
    ensures
        final(fs)@ == append_outcome(old(fs)@, footers@, rendered@, branch@).0,
        match append_outcome(old(fs)@, footers@, rendered@, branch@).1 {
            AppendOutcome::Done => r matches Some(Ok(())),
            AppendOutcome::Failed(e) => r matches Some(Err(x)) && x@ == e,
            AppendOutcome::Panicked => r is None,
        },
{
    let mut i: usize = 0;
    assert(footers@.skip(0) =~= footers@);
    assert(rendered@.skip(0) =~= rendered@);
    while i < footers.len()
        invariant
            i <= footers@.len() == rendered@.len(),
            append_outcome(old(fs)@, footers@, rendered@, branch@) == append_outcome(
                fs@,
                footers@.skip(i as int),
                rendered@.skip(i as int),
                branch@,
            ),
        decreases footers.len() - i,
    {
        assert(footers@.skip(i as int)[0] == footers@[i as int]);
        assert(rendered@.skip(i as int)[0] == rendered@[i as int]);
        assert(footers@.skip(i as int).drop_first() =~= footers@.skip(i + 1));
        assert(rendered@.skip(i as int).drop_first() =~= rendered@.skip(i + 1));
        match footer_step_exec(fs, &footers[i], &rendered[i], branch) {
            StepResult::Add(f) => {
                fs.push(f);
            },
            StepResult::Skip => {},
            StepResult::Fail(e) => {
                return Some(Err(e));
            },
            StepResult::Panic => {
                return None;
            },
        }
        i = i + 1;
    }
    Some(Ok(()))
}

/// Adds the footers to the message, in order, with `rendered[i]` the
/// rendering of the template of `footers[i]` (the text, or why it failed).
///
/// A footer without a template and without a branch pattern is an error. A
/// footer whose key the message has already is skipped, added all the same or
/// an error, as its `on_conflict` says. Otherwise its value is its rendered
/// template, or else group 1 of its branch pattern in `branch`; a pattern
/// that does not compile is an error, and one that does not match, or has no
/// group, adds nothing. The footers added before an error stay.
pub fn append_footers(
    message: &mut Message,
    footers: &Vec<AdditionalFooter>,
    branch: &str,
    rendered: &Vec<Result<String, String>>,
) -> (r: Result<(), FooterError>)
    requires
        rendered@.len() == footers@.len(),
        !(append_outcome(old(message).footers@, footers@, rendered@, branch@).1 is Panicked),
    ensures
        final(message).header == old(message).header,
        final(message).body == old(message).body,
        final(message).footers@ == append_outcome(old(message).footers@, footers@, rendered@, branch@).0,
        match append_outcome(old(message).footers@, footers@, rendered@, branch@).1 {
            AppendOutcome::Failed(e) => r matches Err(x) && x@ == e,
            _ => r is Ok,
        },
{
    match append_to(&mut message.footers, footers, branch, rendered) {
        Some(r) => r,
        None => {
            assert(false);
            Ok(())
        },
    }
}

/// Adds the footers to the message one at a time with `append_footer`, with
/// `rendered[i]` the rendering of the template of `footers[i]`: stops at the
/// first error, and returns nothing where a footer's value was to be taken from
/// a group of its branch pattern that matched nothing (the footers added
/// before stay, as they do on an error).
pub fn append_footers_each(
    message: &mut Message,
    footers: &Vec<AdditionalFooter>,
    branch: &str,
    rendered: &Vec<Result<String, String>>,
) -> (r: Option<Result<(), FooterError>>)
    requires
        rendered@.len() == footers@.len(),
    ensures
        final(message).header == old(message).header,
        final(message).body == old(message).body,
        final(message).footers@ == append_outcome(old(message).footers@, footers@, rendered@, branch@).0,
        match append_outcome(old(message).footers@, footers@, rendered@, branch@).1 {
            AppendOutcome::Done => r matches Some(Ok(())),
            AppendOutcome::Failed(e) => r matches Some(Err(x)) && x@ == e,
            AppendOutcome::Panicked => r is None,
        },
{
    let mut i: usize = 0;
    assert(footers@.skip(0) =~= footers@);
    assert(rendered@.skip(0) =~= rendered@);
    while i < footers.len()
        invariant
            i <= footers@.len() == rendered@.len(),
            message.header == old(message).header,
            message.body == old(message).body,
            append_outcome(old(message).footers@, footers@, rendered@, branch@) == append_outcome(
                message.footers@,
                footers@.skip(i as int),
                rendered@.skip(i as int),
                branch@,
            ),
        decreases footers.len() - i,
    {
        assert(footers@.skip(i as int)[0] == footers@[i as int]);
        assert(rendered@.skip(i as int)[0] == rendered@[i as int]);
        assert(footers@.skip(i as int).drop_first() =~= footers@.skip(i + 1));
        assert(rendered@.skip(i as int).drop_first() =~= rendered@.skip(i + 1));
        match append_footer(message, &footers[i], branch, &rendered[i]) {
            Some(Ok(())) => {},
            Some(Err(e)) => {
                return Some(Err(e));
            },
            None => {
                return None;
            },
        }
        i = i + 1;
    }
    Some(Ok(()))
}

/// A copy of the footers.
fn copy_footers(fs: &Footers) -> (r: Footers)
    ensures
        r@ == fs@,
{
    let mut items: Vec<Footer> = Vec::new();
    let mut i: usize = 0;
    while i < fs.items.len()
        invariant
            i <= fs.items@.len(),
            crate::cc::footer::footers_view(items@) == fs@.take(i as int),
        decreases fs.items.len() - i,
    {
        let f = &fs.items[i];
        let ghost before = items@;
        let copy = Footer { key: f.key.clone(), value: f.value.clone(), separator: f.separator, alignment: f.alignment };
        assert(copy@ == fs@[i as int]);
        items.push(copy);
        assert(crate::cc::footer::footers_view(items@) =~= crate::cc::footer::footers_view(before).push(copy@));
        assert(crate::cc::footer::footers_view(items@) =~= fs@.take(i + 1));
        i = i + 1;
    }
    assert(fs@.take(fs@.len() as int) =~= fs@);
    Footers::from_vec(items)
}

/// Adds the footers to the message as `append_footers` does, where it can:
/// returns nothing, and leaves the message as it is, where the value of a
/// footer was to be taken from a group of its branch pattern that matched
/// nothing. `rendered` holds one rendering for each footer.
pub fn try_append_footers(
    message: &mut Message,
    footers: &Vec<AdditionalFooter>,
    branch: &str,
    rendered: &Vec<Result<String, String>>,
) -> (r: Option<Result<(), FooterError>>)
    ensures
        rendered@.len() != footers@.len() ==> r is None && *final(message) == *old(message),
        rendered@.len() == footers@.len() ==> {
            let (fs, outcome) = append_outcome(old(message).footers@, footers@, rendered@, branch@);
            match outcome {
                AppendOutcome::Panicked => r is None && *final(message) == *old(message),
                AppendOutcome::Done => r matches Some(Ok(())) && final(message).footers@ == fs
                    && final(message).header == old(message).header && final(message).body
                    == old(message).body,
                AppendOutcome::Failed(e) => r matches Some(Err(x)) && x@ == e && final(message).footers@
                    == fs && final(message).header == old(message).header && final(message).body
                    == old(message).body,
            }
        },
{
    if rendered.len() != footers.len() {
        return None;
    }
    let mut probe = copy_footers(&message.footers);
    match append_to(&mut probe, footers, branch, rendered) {
        None => None,
        Some(_) => Some(append_footers(message, footers, branch, rendered)),
    }
}

/// Adding footers never changes or drops the footers a message has: they stay
/// first, in order, and each footer to add adds at most one footer.
pub proof fn law_append_keeps_existing_footers(
    fs: Seq<FooterModel>,
    footers: Seq<AdditionalFooter>,
    rendered: Seq<Result<String, String>>,
    branch: Seq<char>,
)
    requires
        rendered.len() == footers.len(),
    ensures
        fs.is_prefix_of(append_outcome(fs, footers, rendered, branch).0),
        append_outcome(fs, footers, rendered, branch).0.len() <= fs.len() + footers.len(),
    decreases footers.len(),
{
    if footers.len() > 0 {
        let rest = footers.drop_first();
        let rrest = rendered.drop_first();
        match footer_step(fs, footers[0], rendered[0], branch) {
            Step::Add(m) => {
                law_append_keeps_existing_footers(fs.push(m), rest, rrest, branch);
                let out = append_outcome(fs.push(m), rest, rrest, branch).0;
                assert forall|i: int| 0 <= i < fs.len() implies out[i] == fs[i] by {
                    assert(fs.push(m)[i] == fs[i]);
                }
            },
            Step::Skip => {
                law_append_keeps_existing_footers(fs, rest, rrest, branch);
            },
            _ => {},
        }
    }
}

/// `out` is `fs` followed by one footer for each position of `idx`, in order:
/// the footer to add at that position, with its key, its separator (`:` by
/// default) and its alignment (left by default); the positions increase.
pub open spec fn added_in_order(
    fs: Seq<FooterModel>,
    out: Seq<FooterModel>,
    footers: Seq<AdditionalFooter>,
    idx: Seq<int>,
) -> bool {
    &&& fs.is_prefix_of(out)
    &&& idx.len() == out.len() - fs.len()
    &&& forall|k: int| 0 <= k < idx.len() ==> 0 <= #[trigger] idx[k] < footers.len()
    &&& forall|a: int, b: int| 0 <= a < b < idx.len() ==> #[trigger] idx[a] < #[trigger] idx[b]
    &&& forall|k: int|
        0 <= k < idx.len() ==> out[fs.len() + k] == footer_with_value(
            footers[#[trigger] idx[k]],
            out[fs.len() + k].value,
        )
}

/// Adding footers keeps the footers the message has, first and unchanged,
/// and after them adds footers to add in their order, each at most once, with
/// its configured key, separator and alignment; this holds whether adding
/// ends well, with an error, or in the panic case.
pub proof fn law_added_footers_in_order(
    fs: Seq<FooterModel>,
    footers: Seq<AdditionalFooter>,
    rendered: Seq<Result<String, String>>,
    branch: Seq<char>,
)
    requires
        rendered.len() == footers.len(),
    ensures
        exists|idx: Seq<int>|
            #[trigger] added_in_order(fs, append_outcome(fs, footers, rendered, branch).0, footers, idx),
    decreases footers.len(),
{
    let out = append_outcome(fs, footers, rendered, branch).0;
    law_append_keeps_existing_footers(fs, footers, rendered, branch);
    if footers.len() == 0 {
        assert(out == fs);
        assert(added_in_order(fs, out, footers, Seq::<int>::empty()));
    } else {
        let rest = footers.drop_first();
        let rrest = rendered.drop_first();
        match footer_step(fs, footers[0], rendered[0], branch) {
            Step::Add(m) => {
                let fs1 = fs.push(m);
                law_added_footers_in_order(fs1, rest, rrest, branch);
                law_append_keeps_existing_footers(fs1, rest, rrest, branch);
                assert(out == append_outcome(fs1, rest, rrest, branch).0);
                let ir = choose|idx: Seq<int>| #[trigger] added_in_order(fs1, out, rest, idx);
                let idx = seq![0int] + ir.map_values(|x: int| x + 1);
                assert(out[fs.len() as int] == fs1[fs.len() as int]);
                assert forall|k: int| 0 <= k < idx.len() implies out[fs.len() + k] == footer_with_value(
                    footers[#[trigger] idx[k]],
                    out[fs.len() + k].value,
                ) by {
                    if k > 0 {
                        assert(idx[k] == ir[k - 1] + 1);
                        assert(footers[ir[k - 1] + 1] == rest[ir[k - 1]]);
                        assert(fs.len() + k == fs1.len() + (k - 1));
                    }
                }
                assert forall|a: int, b: int| 0 <= a < b < idx.len() implies #[trigger] idx[a] < #[trigger] idx[b] by {
                    if a > 0 {
                        assert(idx[a] == ir[a - 1] + 1);
                    }
                    assert(idx[b] == ir[b - 1] + 1);
                    assert(0 <= ir[b - 1]);
                }
                assert forall|k: int| 0 <= k < idx.len() implies 0 <= #[trigger] idx[k] < footers.len() by {
                    if k > 0 {
                        assert(idx[k] == ir[k - 1] + 1);
                    }
                }
                assert(fs.is_prefix_of(out)) by {
                    assert forall|i: int| 0 <= i < fs.len() implies out[i] == fs[i] by {
                        assert(fs1[i] == fs[i]);
                    }
                }
                assert(added_in_order(fs, out, footers, idx));
            },
            Step::Skip => {
                law_added_footers_in_order(fs, rest, rrest, branch);
                assert(out == append_outcome(fs, rest, rrest, branch).0);
                let ir = choose|idx: Seq<int>| #[trigger] added_in_order(fs, out, rest, idx);
                let idx = ir.map_values(|x: int| x + 1);
                assert forall|k: int| 0 <= k < idx.len() implies out[fs.len() + k] == footer_with_value(
                    footers[#[trigger] idx[k]],
                    out[fs.len() + k].value,
                ) by {
                    assert(idx[k] == ir[k] + 1);
                    assert(footers[ir[k] + 1] == rest[ir[k]]);
                }
                assert forall|a: int, b: int| 0 <= a < b < idx.len() implies #[trigger] idx[a] < #[trigger] idx[b] by {
                    assert(idx[a] == ir[a] + 1);
                    assert(idx[b] == ir[b] + 1);
                }
                assert forall|k: int| 0 <= k < idx.len() implies 0 <= #[trigger] idx[k] < footers.len() by {
                    assert(idx[k] == ir[k] + 1);
                }
                assert(added_in_order(fs, out, footers, idx));
            },
            _ => {
                assert(out == fs);
                assert(added_in_order(fs, out, footers, Seq::<int>::empty()));
            },
        }
    }
}

/// A footer added from a configured footer takes its key and the value found
/// for it; without a configured separator it is written with `:`, and
/// without a configured alignment the separator follows the key and a space
/// the separator: its line is `key: value`.
pub proof fn law_added_footer_layout(f: AdditionalFooter, v: Seq<char>)
    ensures
        footer_with_value(f, v).key == f.key@,
        footer_with_value(f, v).value == v,
        f.separator matches Some(c) ==> footer_with_value(f, v).separator == c,
        f.separator is None ==> footer_with_value(f, v).separator == ':',
        f.alignment matches Some(a) ==> footer_with_value(f, v).alignment == a,
        f.alignment is None ==> footer_with_value(f, v).alignment == SeparatorAlignment::Left,
        f.separator is None && f.alignment is None ==> footer_text(footer_with_value(f, v)) == f.key@
            + seq![':', ' '] + v,
{
}

/// Adding a configured footer adds, if anything, a footer of its key, with
/// `:` where no separator is configured and the separator after the key where
/// no alignment is configured: then its line is `key: value`.
pub proof fn law_step_adds_default_layout(
    fs: Seq<FooterModel>,
    f: AdditionalFooter,
    rendered: Result<String, String>,
    branch: Seq<char>,
)
    ensures
        footer_step(fs, f, rendered, branch) matches Step::Add(m) ==> {
            &&& m.key == f.key@
            &&& (f.separator is None ==> m.separator == ':')
            &&& (f.alignment is None ==> m.alignment == SeparatorAlignment::Left)
            &&& (f.separator is None && f.alignment is None ==> footer_text(m) == m.key + seq![':', ' ']
                + m.value)
        },
{
    match footer_step(fs, f, rendered, branch) {
        Step::Add(m) => {
            let v = m.value;
            assert(m == footer_with_value(f, v));
            law_added_footer_layout(f, v);
        },
        _ => {},
    }
}

/// What `on_conflict` does: a footer with a value source whose key the message
/// has already adds nothing under `Skip`, is refused with its key under
/// `Error`, and under `Append` is added as if the message had no footers; where
/// the message lacks the key, `on_conflict` changes nothing.
pub proof fn law_conflict_actions(
    fs: Seq<FooterModel>,
    f: AdditionalFooter,
    rendered: Result<String, String>,
    branch: Seq<char>,
    other: OnConflictAction,
)
    requires
        f.value_template is Some || f.branch_value_pattern is Some,
    ensures
        has_key(fs, f.key@) && f.on_conflict == OnConflictAction::Skip ==> footer_step(fs, f, rendered, branch)
            == Step::Skip,
        has_key(fs, f.key@) && f.on_conflict == OnConflictAction::Error ==> footer_step(fs, f, rendered, branch)
            == Step::Fail(FooterErrorModel::AlreadyExists(f.key@)),
        f.on_conflict == OnConflictAction::Append ==> footer_step(fs, f, rendered, branch) == footer_step(
            Seq::empty(),
            f,
            rendered,
            branch,
        ),
        !has_key(fs, f.key@) ==> footer_step(fs, f, rendered, branch) == footer_step(
            fs,
            AdditionalFooter { on_conflict: other, ..f },
            rendered,
            branch,
        ),
{
    assert(!has_key(Seq::<FooterModel>::empty(), f.key@));
}

} // verus!
