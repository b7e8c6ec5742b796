//! Footer value templates.
//!
//! A template is text with two kinds of tags: `{{ command }}`, replaced by the
//! output of a shell command, and `${{ NAME }}`, replaced by the value of a
//! variable. Everything else is copied as it stands.
use vstd::prelude::*;
use vstd::std_specs::iter::IteratorSpec;

use crate::text::{
    chars_of, copy_range, find_char, find_char_from, lemma_find_char_from_bounds, push_all,
    push_str, string_of, trim, trim_vec,
};

verus! {

/// Errors of parsing and rendering templates.
#[derive(Debug)]
pub enum TemplateError {
    /// A command exited with the given code and error output.
    CommandExecutionFailed(i32, String),
    /// The template is malformed; the text says where.
    ParseError(String),
    /// A tag is not closed.
    UnclosedTag,
    /// A variable is neither given nor set in the environment.
    UndefinedVariable(String),
}

/// A segment of a template.
#[derive(Debug, Clone, PartialEq)]
pub enum Segment {
    Literal(String),
    Command(String),
    Variable(String),
}

/// Mathematical model of a segment.
pub enum SegmentModel {
    Literal(Seq<char>),
    Command(Seq<char>),
    Variable(Seq<char>),
}

impl View for Segment {
    type V = SegmentModel;

    open spec fn view(&self) -> SegmentModel {
        match self {
            Segment::Literal(s) => SegmentModel::Literal(s@),
            Segment::Command(s) => SegmentModel::Command(s@),
            Segment::Variable(s) => SegmentModel::Variable(s@),
        }
    }
}

/// A template is a sequence of segments.
#[derive(Debug, Clone, PartialEq)]
pub struct Template {
    segments: Vec<Segment>,
}

pub open spec fn segments_view(v: Seq<Segment>) -> Seq<SegmentModel> {
    v.map_values(|s: Segment| s@)
}

impl View for Template {
    type V = Seq<SegmentModel>;

    closed spec fn view(&self) -> Seq<SegmentModel> {
        segments_view(self.segments@)
    }
}

/// `{{` starts at `i`.
pub open spec fn command_tag_at(s: Seq<char>, i: int) -> bool {
    0 <= i && i + 2 <= s.len() && s[i] == '{' && s[i + 1] == '{'
}

/// `${{` starts at `i`.
pub open spec fn variable_tag_at(s: Seq<char>, i: int) -> bool {
    0 <= i && i + 3 <= s.len() && s[i] == '$' && s[i + 1] == '{' && s[i + 2] == '{'
}

/// A tag of either kind starts at `i`.
pub open spec fn tag_at(s: Seq<char>, i: int) -> bool {
    command_tag_at(s, i) || variable_tag_at(s, i)
}

/// The first position at or after `i` where a tag starts (or the length).
pub open spec fn next_tag(s: Seq<char>, i: int) -> int
    decreases s.len() - i,
{
    if i >= s.len() {
        s.len() as int
    } else if tag_at(s, i) {
        i
    } else {
        next_tag(s, i + 1)
    }
}

/// The white space that may follow `{{`: space, tab, carriage return, line feed.
pub open spec fn is_tag_space(c: char) -> bool {
    c == ' ' || c == '\t' || c == '\r' || c == '\n'
}

/// The first position at or after `i` that holds no tag space (or the length).
pub open spec fn skip_tag_space(s: Seq<char>, i: int) -> int
    decreases s.len() - i,
{
    if i >= s.len() {
        s.len() as int
    } else if is_tag_space(s[i]) {
        skip_tag_space(s, i + 1)
    } else {
        i
    }
}

/// The body of a tag that starts at `a`: at least one character other than
/// `}`, closed by `}}`. Gives the end of the body, when the tag is closed so.
pub open spec fn tag_body_end(s: Seq<char>, a: int) -> Option<int> {
    let e = find_char_from(s, '}', a);
    if a < e && e + 1 < s.len() && s[e + 1] == '}' {
        Some(e)
    } else {
        None
    }
}

/// The segment that starts at `i` and the position after it, if one does.
pub open spec fn segment_at(s: Seq<char>, i: int) -> Option<(SegmentModel, int)> {
    let a = skip_tag_space(s, i + 2);
    if command_tag_at(s, i) && tag_body_end(s, a) is Some {
        let e = tag_body_end(s, a)->0;
        Some((SegmentModel::Command(trim(s.subrange(a, e))), e + 2))
    } else if variable_tag_at(s, i) && tag_body_end(s, i + 3) is Some {
        let e = tag_body_end(s, i + 3)->0;
        Some((SegmentModel::Variable(trim(s.subrange(i + 3, e))), e + 2))
    } else if i < next_tag(s, i) {
        Some((SegmentModel::Literal(s.subrange(i, next_tag(s, i))), next_tag(s, i)))
    } else {
        None
    }
}

/// The message of a parse error at the rest `rest` of the input.
pub open spec fn parse_error_text(rest: Seq<char>) -> Seq<char> {
    "error IsNot at: "@ + rest
}

/// Parses the segments of `s` from `i` on after the segments `acc`: the
/// segments of the whole text, or the rest of the text where no segment starts.
pub open spec fn parse_from(s: Seq<char>, i: int, acc: Seq<SegmentModel>) -> Result<
    Seq<SegmentModel>,
    Seq<char>,
>
    decreases s.len() - i,
{
    if i < 0 || i >= s.len() {
        Ok(acc)
    } else {
        match segment_at(s, i) {
            Some((seg, next)) => {
                proof {
                    lemma_segment_at_advances(s, i);
                }
                parse_from(s, next, acc.push(seg))
            },
            None => Err(s.skip(i)),
        }
    }
}

/// The template that `s` holds, or the rest of `s` where parsing stops.
pub open spec fn parse_template(s: Seq<char>) -> Result<Seq<SegmentModel>, Seq<char>> {
    parse_from(s, 0, Seq::empty())
}

pub proof fn lemma_skip_tag_space_bounds(s: Seq<char>, i: int)
    requires
        0 <= i <= s.len(),
    ensures
        i <= skip_tag_space(s, i) <= s.len(),
        forall|k: int| i <= k < skip_tag_space(s, i) ==> is_tag_space(#[trigger] s[k]),
        skip_tag_space(s, i) < s.len() ==> !is_tag_space(s[skip_tag_space(s, i)]),
    decreases s.len() - i,
{
    if i < s.len() && is_tag_space(s[i]) {
        lemma_skip_tag_space_bounds(s, i + 1);
    }
}

pub proof fn lemma_next_tag_bounds(s: Seq<char>, i: int)
    requires
        0 <= i <= s.len(),
    ensures
        i <= next_tag(s, i) <= s.len(),
        forall|k: int| i <= k < next_tag(s, i) ==> !tag_at(s, k),
        next_tag(s, i) < s.len() ==> tag_at(s, next_tag(s, i)),
    decreases s.len() - i,
{
    if i < s.len() && !tag_at(s, i) {
        lemma_next_tag_bounds(s, i + 1);
    }
}

pub proof fn lemma_segment_at_advances(s: Seq<char>, i: int)
    requires
        0 <= i < s.len(),
    ensures
        segment_at(s, i) matches Some((_, next)) ==> i < next <= s.len(),
{
    lemma_next_tag_bounds(s, i);
    if i + 2 <= s.len() {
        lemma_skip_tag_space_bounds(s, i + 2);
        lemma_find_char_from_bounds(s, '}', skip_tag_space(s, i + 2));
    }
    if i + 3 <= s.len() {
        lemma_find_char_from_bounds(s, '}', i + 3);
    }
}

/// Whether a tag starts at `i`.
fn tag_at_exec(v: &Vec<char>, i: usize) -> (r: bool)
    requires
        i <= v.len(),
    ensures
        r == tag_at(v@, i as int),
{
    let n = v.len();
    (n - i >= 2 && v[i] == '{' && v[i + 1] == '{') || (n - i >= 3 && v[i] == '$' && v[i + 1] == '{'
        && v[i + 2] == '{')
}

/// The first position at or after `i` where a tag starts.
fn next_tag_exec(v: &Vec<char>, i: usize) -> (r: usize)
    requires
        i <= v.len(),
    ensures
        r == next_tag(v@, i as int),
{
    let mut k = i;
    while k < v.len() && !tag_at_exec(v, k)
        invariant
            i <= k <= v.len(),
            next_tag(v@, i as int) == next_tag(v@, k as int),
        decreases v.len() - k,
    {
        k = k + 1;
    }
    k
}

/// The first position at or after `i` that holds no tag space.
fn skip_tag_space_exec(v: &Vec<char>, i: usize) -> (r: usize)
    requires
        i <= v.len(),
    ensures
        r == skip_tag_space(v@, i as int),
{
    let mut k = i;
    while k < v.len() && (v[k] == ' ' || v[k] == '\t' || v[k] == '\r' || v[k] == '\n')
        invariant
            i <= k <= v.len(),
            skip_tag_space(v@, i as int) == skip_tag_space(v@, k as int),
        decreases v.len() - k,
    {
        k = k + 1;
    }
    k
}

/// End of the body of a tag that starts at `a`, if the tag is closed.
fn tag_body_end_exec(v: &Vec<char>, a: usize) -> (r: Option<usize>)
    requires
        a <= v.len(),
    ensures
        r matches Some(e) ==> tag_body_end(v@, a as int) == Some(e as int),
        r is None ==> tag_body_end(v@, a as int) is None,
{
    let e = find_char(v, '}', a);
    proof {
        lemma_find_char_from_bounds(v@, '}', a as int);
    }
    if a < e && e < v.len() && v.len() - e > 1 && v[e + 1] == '}' {
        Some(e)
    } else {
        None
    }
}

/// The segment that starts at `i`, with the position after it.
fn segment_at_exec(v: &Vec<char>, i: usize) -> (r: Option<(Segment, usize)>)
    requires
        i < v.len(),
    ensures
        r matches Some((seg, next)) ==> segment_at(v@, i as int) == Some((seg@, next as int)),
        r is None ==> segment_at(v@, i as int) is None,
{
    proof {
        lemma_segment_at_advances(v@, i as int);
        lemma_next_tag_bounds(v@, i as int);
    }
    let n = v.len();
    let is_command = n - i >= 2 && v[i] == '{' && v[i + 1] == '{';
    if is_command {
        proof {
            lemma_skip_tag_space_bounds(v@, i as int + 2);
        }
        let a = skip_tag_space_exec(v, i + 2);
        match tag_body_end_exec(v, a) {
            Some(e) => {
                let body = copy_range(v, a, e);
                let name = trim_vec(&body);
                return Some((Segment::Command(string_of(&name)), e + 2));
            },
            None => {},
        }
    }
    let is_variable = n - i >= 3 && v[i] == '$' && v[i + 1] == '{' && v[i + 2] == '{';
    if is_variable {
        match tag_body_end_exec(v, i + 3) {
            Some(e) => {
                let body = copy_range(v, i + 3, e);
                let name = trim_vec(&body);
                return Some((Segment::Variable(string_of(&name)), e + 2));
            },
            None => {},
        }
    }
    let p = next_tag_exec(v, i);
    if i < p {
        let text = copy_range(v, i, p);
        Some((Segment::Literal(string_of(&text)), p))
    } else {
        None
    }
}

impl Template {
    /// Parses a template.
    ///
    /// Fails with `TemplateError::ParseError` where a tag is not closed by `}}` or has
    /// an empty body; the message names the rest of the input from that tag.
    pub fn parse(input: &str) -> (r: Result<Template, TemplateError>)
        ensures
            parse_template(input@) matches Ok(segs) ==> r matches Ok(t) && t@ == segs,
            parse_template(input@) matches Err(rest) ==> r matches Err(TemplateError::ParseError(msg))
                && msg@ == parse_error_text(rest),
    {
        let v = chars_of(input);
        let mut segments: Vec<Segment> = Vec::new();
        let mut i: usize = 0;
        assert(segments_view(segments@) =~= Seq::<SegmentModel>::empty());
        while i < v.len()
            invariant
                i <= v.len(),
                v@ == input@,
                parse_template(v@) == parse_from(v@, i as int, segments_view(segments@)),
            decreases v.len() - i,
        {
            match segment_at_exec(&v, i) {
                Some((seg, next)) => {
                    proof {
                        lemma_segment_at_advances(v@, i as int);
                    }
                    let ghost before = segments@;
                    segments.push(seg);
                    assert(segments_view(segments@) =~= segments_view(before).push(seg@));
                    i = next;
                },
                None => {
                    let rest = copy_range(&v, i, v.len());
                    let mut msg: Vec<char> = Vec::new();
                    push_str(&mut msg, "error IsNot at: ");
                    push_all(&mut msg, &rest);
                    proof {
                        reveal_strlit("error IsNot at: ");
                        assert(rest@ =~= v@.skip(i as int));
                    }
                    return Err(TemplateError::ParseError(string_of(&msg)));
                },
            }
        }
        let t = Template { segments };
        assert(t@ == segments_view(t.segments@));
        Ok(t)
    }

    /// Whether the two templates have the same segments.
    pub fn same_segments(&self, other: &Template) -> (r: bool)
        ensures
            r == (self@ == other@),
    {
        if self.segments.len() != other.segments.len() {
            assert(self@.len() != other@.len());
            return false;
        }
        let mut i: usize = 0;
        while i < self.segments.len()
            invariant
                self.segments@.len() == other.segments@.len(),
                i <= self.segments@.len(),
                forall|j: int| 0 <= j < i ==> self@[j] == other@[j],
            decreases self.segments.len() - i,
        {
            let same = match (&self.segments[i], &other.segments[i]) {
                (Segment::Literal(a), Segment::Literal(b)) => crate::text::str_eq(a.as_str(), b.as_str()),
                (Segment::Command(a), Segment::Command(b)) => crate::text::str_eq(a.as_str(), b.as_str()),
                (Segment::Variable(a), Segment::Variable(b)) => crate::text::str_eq(a.as_str(), b.as_str()),
                _ => false,
            };
            assert(self@[i as int] == self.segments@[i as int]@);
            assert(other@[i as int] == other.segments@[i as int]@);
            if !same {
                return false;
            }
            i = i + 1;
        }
        assert(self@ =~= other@);
        true
    }

    /// The number of segments.
    pub fn segments_len(&self) -> (n: usize)
        ensures
            n == self@.len(),
    {
        self.segments.len()
    }

    /// Iterates over the segments, in order.
    pub fn segments_iter(&self) -> (it: std::slice::Iter<'_, Segment>)
        ensures
            segments_view(it.remaining().unref()) == self@,
    {
        let it = self.segments.iter();
        assert(it.remaining().unref() =~= self.segments@);
        it
    }
}

/// The text of a segment when it is a literal, else nothing.
pub open spec fn literal_of(seg: SegmentModel) -> Seq<char> {
    match seg {
        SegmentModel::Literal(t) => t,
        _ => Seq::empty(),
    }
}

/// The literal text of the segments `from..to`.
pub open spec fn literal_text(segs: Seq<SegmentModel>, from: int, to: int) -> Seq<char>
    decreases to - from,
{
    if to <= from {
        Seq::empty()
    } else {
        literal_text(segs, from, to - 1) + literal_of(segs[to - 1])
    }
}

/// The first segment at or after `i` that is not a literal (or the length).
pub open spec fn next_outside(segs: Seq<SegmentModel>, i: int) -> int
    decreases segs.len() - i,
{
    if i >= segs.len() {
        segs.len() as int
    } else if segs[i] is Literal {
        next_outside(segs, i + 1)
    } else {
        i
    }
}

/// What rendering needs from outside to go on: the output of a command, or
/// the value of a variable.
#[derive(Debug, PartialEq)]
pub enum RenderNeed {
    Command(String),
    Variable(String),
}

/// Progress of rendering a template: the next segment and the text so far.
pub struct Rendering {
    pub next: usize,
    pub text: Vec<char>,
}

impl Rendering {
    /// Rendering that has not started.
    pub fn new() -> (r: Rendering)
        ensures
            r.next == 0,
            r.text@ == Seq::<char>::empty(),
    {
        Rendering { next: 0, text: Vec::new() }
    }

    /// The text rendered so far.
    pub fn output(&self) -> (s: String)
        ensures
            s@ == self.text@,
    {
        string_of(&self.text)
    }
}

impl Template {
    /// Renders the literal segments from `r.next` on and stops at the first
    /// segment that needs an outside value, which it returns; returns `None`
    /// once every segment is rendered.
    pub fn render_literals(&self, r: &mut Rendering) -> (need: Option<RenderNeed>)
        requires
            old(r).next <= self@.len(),
        ensures
            final(r).next == next_outside(self@, old(r).next as int),
            final(r).text@ == old(r).text@ + literal_text(
                self@,
                old(r).next as int,
                final(r).next as int,
            ),
            need is None <==> final(r).next == self@.len(),
            need matches Some(RenderNeed::Command(c)) ==> self@[final(r).next as int]
                == SegmentModel::Command(c@),
            need matches Some(RenderNeed::Variable(n)) ==> self@[final(r).next as int]
                == SegmentModel::Variable(n@),
    {
        let ghost start = r.next as int;
        let ghost text0 = r.text@;
        let n = self.segments.len();
        while r.next < n
            invariant
                n == self.segments.len() == self@.len(),
                start == old(r).next,
                text0 == old(r).text@,
                start <= r.next <= n,
                next_outside(self@, start) == next_outside(self@, r.next as int),
                r.text@ == text0 + literal_text(self@, start, r.next as int),
            decreases n - r.next,
        {
            let i = r.next;
            assert(self@[i as int] == self.segments@[i as int]@);
            match &self.segments[i] {
                Segment::Literal(t) => {
                    let chars = chars_of(t.as_str());
                    push_all(&mut r.text, &chars);
                    r.next = i + 1;
                    assert(r.text@ =~= text0 + literal_text(self@, start, r.next as int));
                },
                Segment::Command(c) => {
                    assert(next_outside(self@, i as int) == i);
                    return Some(RenderNeed::Command(c.clone()));
                },
                Segment::Variable(v) => {
                    assert(next_outside(self@, i as int) == i);
                    return Some(RenderNeed::Variable(v.clone()));
                },
            }
        }
        None
    }

    /// Renders the command segment at `r.next` with the command's output.
    pub fn supply_command(&self, r: &mut Rendering, output: &str)
        requires
            old(r).next < self@.len(),
            self@[old(r).next as int] is Command,
        ensures
            final(r).next == old(r).next + 1,
            final(r).text@ == old(r).text@ + output@,
    {
        let n = self.segments.len();
        assert(self@.len() == n);
        push_str(&mut r.text, output);
        r.next = r.next + 1;
    }

    /// Renders the command segment at `r.next` from how its command ended: a
    /// command that exited with code 0 gives its output (`stdout`); one that
    /// exited otherwise, or was stopped by a signal (no code, taken as -1), fails
    /// the rendering with its code and error output, and `r` stays as it was.
    pub fn supply_command_result(
        &self,
        r: &mut Rendering,
        code: Option<i32>,
        stdout: &str,
        stderr: &str,
    ) -> (res: Result<(), TemplateError>)
        requires
            old(r).next < self@.len(),
            self@[old(r).next as int] is Command,
        ensures
            code == Some(0i32) ==> res is Ok && final(r).next == old(r).next + 1
                && final(r).text@ == old(r).text@ + stdout@,
            code != Some(0i32) ==> final(r).next == old(r).next && final(r).text@ == old(r).text@
                && (res matches Err(TemplateError::CommandExecutionFailed(c, e)) && e@ == stderr@
                && c == (match code {
                Some(k) => k,
                None => -1i32,
            })),
    {
        match code {
            Some(0) => {
                self.supply_command(r, stdout);
                Ok(())
            },
            Some(k) => Err(TemplateError::CommandExecutionFailed(k, String::from_str(stderr))),
            None => Err(TemplateError::CommandExecutionFailed(-1, String::from_str(stderr))),
        }
    }

    /// Renders the variable segment at `r.next`: with the value given for the
    /// variable (`local`) where there is one, else with the environment's
    /// (`env`). A variable that has neither is an error.
    pub fn supply_variable(&self, r: &mut Rendering, local: Option<&str>, env: Option<&str>) -> (res:
        Result<(), TemplateError>)
        requires
            old(r).next < self@.len(),
            self@[old(r).next as int] is Variable,
        ensures
            local matches Some(l) ==> res is Ok && final(r).next == old(r).next + 1
                && final(r).text@ == old(r).text@ + l@,
            local is None ==> (env matches Some(e) ==> res is Ok && final(r).next == old(r).next
                + 1 && final(r).text@ == old(r).text@ + e@),
            local is None && env is None ==> final(r).next == old(r).next && final(r).text@
                == old(r).text@ && (res matches Err(TemplateError::UndefinedVariable(name))
                && self@[old(r).next as int] == SegmentModel::Variable(name@)),
    {
        let n = self.segments.len();
        assert(self@.len() == n);
        match local {
            Some(l) => {
                push_str(&mut r.text, l);
                r.next = r.next + 1;
                Ok(())
            },
            None => match env {
                Some(e) => {
                    push_str(&mut r.text, e);
                    r.next = r.next + 1;
                    Ok(())
                },
                None => {
                    assert(self@[r.next as int] == self.segments@[r.next as int]@);
                    match &self.segments[r.next] {
                        Segment::Variable(name) => Err(TemplateError::UndefinedVariable(name.clone())),
                        _ => Err(TemplateError::UnclosedTag),
                    }
                },
            },
        }
    }
}

/// The value of `name` among `pairs`: that of its first pair, if any.
pub open spec fn value_of(pairs: Seq<(String, String)>, name: Seq<char>) -> Option<Seq<char>>
    decreases pairs.len(),
{
    if pairs.len() == 0 {
        None
    } else if pairs[0].0@ == name {
        Some(pairs[0].1@)
    } else {
        value_of(pairs.drop_first(), name)
    }
}

/// `t` put in front of a rendered text; an error stays as it is.
pub open spec fn prefixed(t: Seq<char>, r: Result<Seq<char>, Seq<char>>) -> Result<Seq<char>, Seq<char>> {
    match r {
        Ok(x) => Ok(t + x),
        Err(e) => Err(e),
    }
}

/// The text that the segments from `i` on render to, with the given values of
/// variables (`locals`, which come first) and of the environment (`env`); or
/// the name of the first variable that has neither. A command renders to
/// nothing here.
pub open spec fn render_from(
    segs: Seq<SegmentModel>,
    i: int,
    locals: Seq<(String, String)>,
    env: Seq<(String, String)>,
) -> Result<Seq<char>, Seq<char>>
    decreases segs.len() - i,
{
    if i < 0 || i >= segs.len() {
        Ok(Seq::empty())
    } else {
        let rest = render_from(segs, i + 1, locals, env);
        match segs[i] {
            SegmentModel::Literal(t) => prefixed(t, rest),
            SegmentModel::Command(_) => rest,
            SegmentModel::Variable(v) => match value_of(locals, v) {
                Some(x) => prefixed(x, rest),
                None => match value_of(env, v) {
                    Some(x) => prefixed(x, rest),
                    None => Err(v),
                },
            },
        }
    }
}

proof fn lemma_next_outside_bounds(segs: Seq<SegmentModel>, i: int)
    requires
        0 <= i <= segs.len(),
    ensures
        i <= next_outside(segs, i) <= segs.len(),
    decreases segs.len() - i,
{
    if i < segs.len() && segs[i] is Literal {
        lemma_next_outside_bounds(segs, i + 1);
    }
}

proof fn lemma_literal_text_front(segs: Seq<SegmentModel>, i: int, j: int)
    requires
        0 <= i < j <= segs.len(),
    ensures
        literal_text(segs, i, j) == literal_of(segs[i]) + literal_text(segs, i + 1, j),
    decreases j - i,
{
    if j - 1 > i {
        lemma_literal_text_front(segs, i, j - 1);
        assert(literal_of(segs[i]) + literal_text(segs, i + 1, j - 1) + literal_of(segs[j - 1])
            =~= literal_of(segs[i]) + (literal_text(segs, i + 1, j - 1) + literal_of(segs[j - 1])));
    } else {
        assert(literal_text(segs, i + 1, j) =~= Seq::<char>::empty());
        assert(literal_text(segs, i, i) =~= Seq::<char>::empty());
        assert(Seq::<char>::empty() + literal_of(segs[i]) =~= literal_of(segs[i]) + Seq::<char>::empty());
    }
}

/// The literals up to the next segment that is not one render to their text.
proof fn lemma_render_literals(
    segs: Seq<SegmentModel>,
    i: int,
    locals: Seq<(String, String)>,
    env: Seq<(String, String)>,
)
    requires
        0 <= i <= segs.len(),
    ensures
        render_from(segs, i, locals, env) == prefixed(
            literal_text(segs, i, next_outside(segs, i)),
            render_from(segs, next_outside(segs, i), locals, env),
        ),
    decreases segs.len() - i,
{
    let j = next_outside(segs, i);
    if i < segs.len() && segs[i] is Literal {
        lemma_next_outside_bounds(segs, i + 1);
        lemma_render_literals(segs, i + 1, locals, env);
        lemma_literal_text_front(segs, i, j);
        let t = segs[i]->Literal_0;
        let r = render_from(segs, j, locals, env);
        let l = literal_text(segs, i + 1, j);
        match r {
            Ok(x) => {
                assert(t + (l + x) =~= (t + l) + x);
            },
            Err(_) => {},
        }
    } else {
        assert(literal_text(segs, i, i) =~= Seq::<char>::empty());
        match render_from(segs, i, locals, env) {
            Ok(x) => {
                assert(Seq::<char>::empty() + x =~= x);
            },
            Err(_) => {},
        }
    }
}

/// The value of `name` among `pairs`.
fn find_value<'a>(pairs: &'a Vec<(String, String)>, name: &str) -> (r: Option<&'a str>)
    ensures
        match value_of(pairs@, name@) {
            Some(v) => r matches Some(x) && x@ == v,
            None => r is None,
        },
{
    let mut i: usize = 0;
    assert(pairs@.skip(0) =~= pairs@);
    while i < pairs.len()
        invariant
            i <= pairs@.len(),
            value_of(pairs@, name@) == value_of(pairs@.skip(i as int), name@),
        decreases pairs.len() - i,
    {
        assert(pairs@.skip(i as int)[0] == pairs@[i as int]);
        assert(pairs@.skip(i as int).drop_first() =~= pairs@.skip(i + 1));
        if crate::text::str_eq(pairs[i].0.as_str(), name) {
            return Some(pairs[i].1.as_str());
        }
        i = i + 1;
    }
    assert(pairs@.skip(i as int).len() == 0);
    None
}

impl Template {
    /// Renders a template without commands, step by step: a variable takes its
    /// value from `locals` where it is there, else from `env`; the first
    /// variable that has neither is an error.
    pub fn render_with(&self, locals: &Vec<(String, String)>, env: &Vec<(String, String)>) -> (r: Result<
        String,
        TemplateError,
    >)
        requires
            forall|i: int| 0 <= i < self@.len() ==> !(#[trigger] self@[i] is Command),
        ensures
            match render_from(self@, 0, locals@, env@) {
                Ok(t) => r matches Ok(s) && s@ == t,
                Err(v) => r matches Err(TemplateError::UndefinedVariable(n)) && n@ == v,
            },
    {
        let mut r = Rendering::new();
        let n = self.segments_len();
        assert(r.text@ + Seq::<char>::empty() =~= Seq::<char>::empty());
        loop
            invariant
                n == self@.len(),
                r.next <= n,
                forall|i: int| 0 <= i < self@.len() ==> !(#[trigger] self@[i] is Command),
                render_from(self@, 0, locals@, env@) == prefixed(r.text@, render_from(self@, r.next as int, locals@, env@)),
            decreases n - r.next,
        {
            let ghost before = r.text@;
            let ghost at = r.next as int;
            proof {
                lemma_render_literals(self@, at, locals@, env@);
                lemma_next_outside_bounds(self@, at);
            }
            match self.render_literals(&mut r) {
                None => {
                    proof {
                        let lt = literal_text(self@, at, r.next as int);
                        assert(render_from(self@, r.next as int, locals@, env@) == Ok::<Seq<char>, Seq<char>>(Seq::empty()));
                        assert(before + (lt + Seq::<char>::empty()) =~= r.text@);
                    }
                    return Ok(r.output());
                },
                Some(RenderNeed::Command(_)) => {
                    assert(self@[r.next as int] is Command);
                    assert(false);
                    return Ok(r.output());
                },
                Some(RenderNeed::Variable(name)) => {
                    let ghost k = r.next as int;
                    let ghost mid = r.text@;
                    proof {
                        let lt = literal_text(self@, at, k);
                        match render_from(self@, k, locals@, env@) {
                            Ok(x) => {
                                assert(before + (lt + x) =~= mid + x);
                            },
                            Err(_) => {},
                        }
                    }
                    let local = find_value(locals, name.as_str());
                    let from_env = find_value(env, name.as_str());
                    match self.supply_variable(&mut r, local, from_env) {
                        Ok(()) => {
                            proof {
                                let v = name@;
                                let x = if value_of(locals@, v) is Some {
                                    value_of(locals@, v)->0
                                } else {
                                    value_of(env@, v)->0
                                };
                                match render_from(self@, k + 1, locals@, env@) {
                                    Ok(y) => {
                                        assert(mid + (x + y) =~= (mid + x) + y);
                                    },
                                    Err(_) => {},
                                }
                            }
                        },
                        Err(e) => {
                            return Err(e);
                        },
                    }
                },
            }
        }
    }
}

/// Where no tag starts at `i`, the segment there is the literal text up to the
/// first tag (or the end): it is not empty, holds no tag start, and what
/// follows it is empty or starts with a tag.
pub proof fn law_literal_runs_to_next_tag(s: Seq<char>, i: int)
    requires
        0 <= i < s.len(),
        !tag_at(s, i),
    ensures
        segment_at(s, i) == Some(
            (SegmentModel::Literal(s.subrange(i, next_tag(s, i))), next_tag(s, i)),
        ),
        i < next_tag(s, i) <= s.len(),
        forall|k: int| i <= k < next_tag(s, i) ==> !tag_at(s, k),
        next_tag(s, i) < s.len() ==> tag_at(s, next_tag(s, i)),
{
    lemma_next_tag_bounds(s, i);
}

/// A text without tags is a template of one literal segment, the text itself
/// (of none when the text is empty), and renders to that text with nothing
/// from outside.
pub proof fn law_plain_text_template(s: Seq<char>)
    requires
        forall|i: int| 0 <= i < s.len() ==> !tag_at(s, i),
    ensures
        s.len() == 0 ==> parse_template(s) == Ok::<Seq<SegmentModel>, Seq<char>>(Seq::empty()),
        s.len() > 0 ==> parse_template(s) == Ok::<Seq<SegmentModel>, Seq<char>>(
            seq![SegmentModel::Literal(s)],
        ),
        parse_template(s) matches Ok(segs) ==> next_outside(segs, 0) == segs.len()
            && literal_text(segs, 0, segs.len() as int) == s,
{
    if s.len() > 0 {
        lemma_next_tag_bounds(s, 0);
        assert(next_tag(s, 0) == s.len());
        assert(!tag_at(s, 0));
        assert(s.subrange(0, s.len() as int) =~= s);
        assert(segment_at(s, 0) == Some((SegmentModel::Literal(s), s.len() as int)));
        let segs = seq![SegmentModel::Literal(s)];
        assert(Seq::<SegmentModel>::empty().push(SegmentModel::Literal(s)) =~= segs);
        assert(parse_from(s, s.len() as int, segs) == Ok::<Seq<SegmentModel>, Seq<char>>(segs));
        assert(next_outside(segs, 1) == 1);
        assert(literal_text(segs, 0, 0) =~= Seq::<char>::empty());
        assert(literal_text(segs, 0, 1) =~= s);
    } else {
        assert(literal_text(Seq::<SegmentModel>::empty(), 0, 0) =~= s);
    }
}

} // verus!
