//! A whole commit message: header, optional body and footers.
use vstd::prelude::*;

use crate::cc::body::{
    is_line_start, last_blank_line_before, lemma_last_blank_line_before, lemma_meaningful_end_plain,
    lemma_plain_lines_after, line_at, plain_lines, spec_parse_body, split_last_block,
    parse_body_exec, blank_line_at, law_leading_blank_line_ignored, DEFAULT_COMMENT_SYMBOL,
};
use crate::cc::footer::{
    footer_round_trips, footers_text, law_footers_round_trip, lemma_footers_text_shape,
    parse_footer_block, FooterModel, Footers, DEFAULT_SEPARATOR,
};
use crate::cc::header::{
    header_round_trips, header_text, law_header_round_trip, parse_header, Header, HeaderModel, Scope,
};
use crate::text::{first_non_ws, is_ws, last_non_ws_end, lemma_trimmed_ends, trim};
use crate::text::{chars_of, copy_range, find_char, find_char_from, lemma_find_char_from_bounds, push_all, string_of};

verus! {

/// Error of `Message::parse`.
#[derive(Debug)]
pub enum ParseError {
    InvalidCommitMessage(String),
}

/// Commit message.
#[derive(Debug, Clone, PartialEq)]
pub struct Message {
    pub header: Header,
    pub body: Option<String>,
    pub footers: Footers,
}

/// Mathematical model of a commit message.
pub struct MessageModel {
    pub header: HeaderModel,
    pub body: Option<Seq<char>>,
    pub footers: Seq<FooterModel>,
}

impl View for Message {
    type V = MessageModel;

    open spec fn view(&self) -> MessageModel {
        MessageModel {
            header: self.header@,
            body: match self.body {
                Some(b) => Some(b@),
                None => None,
            },
            footers: self.footers@,
        }
    }
}

/// The separators, or `:` when none are given.
pub open spec fn separators_or_default(o: Option<Seq<char>>) -> Seq<char> {
    match o {
        Some(s) => s,
        None => seq![DEFAULT_SEPARATOR],
    }
}

/// The comment symbol, or `#` when none is given.
pub open spec fn comment_symbol_or_default(o: Option<Seq<char>>) -> Seq<char> {
    match o {
        Some(s) => s,
        None => seq![DEFAULT_COMMENT_SYMBOL],
    }
}

/// The message that `input` denotes: the first line is the header, the rest is
/// split into body and footers.
pub open spec fn parse_message(input: Seq<char>, seps: Seq<char>, cs: Seq<char>) -> MessageModel {
    let he = find_char_from(input, '\n', 0);
    let header = parse_header(input.take(he));
    if he >= input.len() {
        MessageModel { header, body: None, footers: Seq::empty() }
    } else {
        let (b, f) = spec_parse_body(input.skip(he + 1), seps, cs);
        MessageModel {
            header,
            body: b,
            footers: match f {
                Some(fs) => fs,
                None => Seq::empty(),
            },
        }
    }
}

/// The text a message is written as: header, then the body and the footers,
/// each after a blank line.
pub open spec fn message_text(m: MessageModel) -> Seq<char> {
    header_text(m.header) + match m.body {
        Some(b) => seq!['\n', '\n'] + b,
        None => Seq::empty(),
    } + if m.footers.len() > 0 {
        seq!['\n', '\n'] + footers_text(m.footers)
    } else {
        Seq::empty()
    }
}

pub open spec fn opt_str_view(o: Option<&str>) -> Option<Seq<char>> {
    match o {
        Some(s) => Some(s@),
        None => None,
    }
}

impl Message {
    /// Parses a commit message. `footer_separators` defaults to `:` and
    /// `comment_symbol` to `#`. Every input is accepted.
    pub fn parse(input: &str, footer_separators: Option<&str>, comment_symbol: Option<&str>) -> (r:
        Result<Message, ParseError>)
        ensures
            r matches Ok(m) && m@ == parse_message(
                input@,
                separators_or_default(opt_str_view(footer_separators)),
                comment_symbol_or_default(opt_str_view(comment_symbol)),
            ),
    {
        let v = chars_of(input);
        let seps = match footer_separators {
            Some(s) => chars_of(s),
            None => vec![DEFAULT_SEPARATOR],
        };
        let cs = match comment_symbol {
            Some(s) => chars_of(s),
            None => vec![DEFAULT_COMMENT_SYMBOL],
        };
        assert(seps@ =~= separators_or_default(opt_str_view(footer_separators)));
        assert(cs@ =~= comment_symbol_or_default(opt_str_view(comment_symbol)));
        Ok(Self::parse_chars(&v, &seps, &cs))
    }

    /// `parse` on characters.
    pub fn parse_chars(v: &Vec<char>, seps: &Vec<char>, cs: &Vec<char>) -> (m: Message)
        ensures
            m@ == parse_message(v@, seps@, cs@),
    {
        let n = v.len();
        let he = find_char(v, '\n', 0);
        proof {
            lemma_find_char_from_bounds(v@, '\n', 0);
        }
        let line = copy_range(v, 0, he);
        assert(line@ =~= v@.take(he as int));
        let header = Header::parse_chars(&line);
        if he >= n {
            return Message { header, body: None, footers: Footers::new() };
        }
        let rest = copy_range(v, he + 1, n);
        assert(rest@ =~= v@.skip(he + 1));
        let (body, footers) = parse_body_exec(&rest, seps, cs);
        let footers = match footers {
            Some(f) => f,
            None => Footers::new(),
        };
        Message { header, body, footers }
    }

    /// The message as characters.
    pub fn render(&self) -> (r: Vec<char>)
        ensures
            r@ == message_text(self@),
    {
        let mut out = self.header.render();
        let ghost h = out@;
        match &self.body {
            Some(b) => {
                out.push('\n');
                out.push('\n');
                let bv = chars_of(b.as_str());
                push_all(&mut out, &bv);
            },
            None => {},
        }
        let ghost hb = out@;
        if !self.footers.is_empty() {
            out.push('\n');
            out.push('\n');
            let f = self.footers.render();
            push_all(&mut out, &f);
        }
        assert(out@ =~= message_text(self@));
        out
    }

    /// The message text (what `Display` writes).
    pub fn to_string(&self) -> (s: String)
        ensures
            s@ == message_text(self@),
    {
        let r = self.render();
        string_of(&r)
    }
}

impl Default for Message {
    fn default() -> (m: Message)
        ensures
            m@.header.kind is None,
            m@.header.scope.len() == 0,
            m@.header.description.len() == 0,
            !m@.header.breaking,
            m@.body is None,
            m@.footers.len() == 0,
    {
        Message {
            header: Header { kind: None, scope: Scope::new(), description: String::new(), breaking: false },
            body: None,
            footers: Footers::new(),
        }
    }
}

/// A message that its own text gives back: its header does so and holds no
/// line break; no line of its text is a comment or the title of a conflict
/// block; its body, if any, is trimmed and not empty; its footers give
/// themselves back and hold no line break; and where it has no footers, the
/// last paragraph of its body does not read as footers.
pub open spec fn message_round_trips(m: MessageModel, seps: Seq<char>, cs: Seq<char>) -> bool {
    &&& header_round_trips(m.header)
    &&& forall|j: int| 0 <= j < header_text(m.header).len() ==> #[trigger] header_text(m.header)[j] != '\n'
    &&& plain_lines(message_text(m), cs)
    &&& (m.body matches Some(b) ==> b.len() > 0 && trim(b) == b)
    &&& forall|i: int| 0 <= i < m.footers.len() ==> footer_round_trips(#[trigger] m.footers[i], seps)
    &&& forall|i: int, j: int| 0 <= i < m.footers.len() && 0 <= j < m.footers[i].value.len() ==> #[trigger] m.footers[i].value[j] != '\n'
    &&& (m.footers.len() == 0 && m.body is Some ==> parse_footer_block(split_last_block(m.body->0).1, seps) is None)
}

/// After a line break, a text of plain lines that neither starts nor ends with
/// white space is all meaningful.
proof fn lemma_meaningful_rest(x: Seq<char>, cs: Seq<char>)
    requires
        x.len() > 0,
        !is_ws(x[0]),
        !is_ws(x[x.len() - 1]),
        plain_lines(seq!['\n'] + x, cs),
    ensures
        crate::cc::body::spec_trim_meaningless_start(
            crate::cc::body::spec_trim_meaningless_end(seq!['\n'] + x, cs),
            cs,
        ) == x,
{
    let r = seq!['\n'] + x;
    lemma_meaningful_end_plain(r, cs, 0);
    assert(r.take(r.len() as int) =~= r);
    assert(last_non_ws_end(r, r.len() as int) == r.len());
    assert(crate::text::trim_end(r) =~= r);
    lemma_find_char_from_bounds(r, '\n', 0);
    assert(find_char_from(r, '\n', 0) == 0);
    lemma_find_char_from_bounds(r, '\n', 1);
    let e = find_char_from(r, '\n', 1);
    assert(r[1] == x[0]);
    assert(e >= 2);
    assert(is_line_start(r, 1));
    assert(line_at(r, 1) == crate::cc::footer::line_text(r, 1, e));
    assert(crate::cc::footer::line_text(r, 1, e).len() > 0) by {
        if e < r.len() && e > 1 && r[e - 1] == '\r' {
            assert(e > 2);
        }
    }
    assert(r.skip(1) =~= x);
    assert(first_non_ws(x, 0) == 0);
    assert(crate::text::trim_start(x) =~= x);
    assert(crate::cc::body::spec_trim_meaningless_end(r, cs) == r);
    assert(!crate::text::starts_with(line_at(r, 1), cs));
    assert(crate::cc::body::trim_start_from(r, cs, 1) == x);
    assert(crate::cc::footer::line_text(r, 0, 0).len() == 0);
    assert(crate::cc::body::trim_start_from(r, cs, 0) == crate::cc::body::trim_start_from(r, cs, 1));
}

/// A body, a blank line and footers split at that blank line.
proof fn lemma_split_body_footers(b: Seq<char>, f: Seq<char>)
    requires
        b.len() > 0,
        b[b.len() - 1] != '\n',
        f.len() > 0,
        f[0] != '\n',
        forall|i: int| 0 <= i < f.len() - 1 && #[trigger] f[i] == '\n' ==> f[i + 1] != '\n',
    ensures
        split_last_block(b + seq!['\n', '\n'] + f) == (b, f),
{
    let x = b + seq!['\n', '\n'] + f;
    let bl = b.len() as int;
    assert(blank_line_at(x, bl));
    lemma_last_blank_line_before(x, x.len() as int);
    let i = last_blank_line_before(x, x.len() as int)->0;
    if i > bl {
        if i == bl + 1 {
            assert(x[i + 1] == f[0]);
        } else {
            assert(x[i] == f[i - bl - 2]);
            assert(x[i + 1] == f[i - bl - 1]);
        }
    }
    if i < bl {
        assert(!blank_line_at(x, bl));
    }
    assert(i == bl);
    assert(x.take(bl) =~= b);
    assert(x.skip(bl + 2) =~= f);
}

/// A text without blank lines is one block.
proof fn lemma_split_one_block(f: Seq<char>)
    requires
        forall|i: int| 0 <= i < f.len() - 1 && #[trigger] f[i] == '\n' ==> f[i + 1] != '\n',
    ensures
        split_last_block(f) == (Seq::<char>::empty(), f),
{
    lemma_last_blank_line_before(f, f.len() as int);
    if last_blank_line_before(f, f.len() as int) is Some {
        let i = last_blank_line_before(f, f.len() as int)->0;
        assert(f[i] == '\n' && f[i + 1] == '\n');
    }
}

/// The header line ends at the first line break of the message text.
proof fn lemma_header_line(h: Seq<char>, x: Seq<char>)
    requires
        forall|j: int| 0 <= j < h.len() ==> #[trigger] h[j] != '\n',
    ensures
        find_char_from(h + seq!['\n', '\n'] + x, '\n', 0) == h.len(),
        (h + seq!['\n', '\n'] + x).take(h.len() as int) == h,
        (h + seq!['\n', '\n'] + x).skip(h.len() as int + 1) == seq!['\n'] + x,
{
    let t = h + seq!['\n', '\n'] + x;
    let hl = h.len() as int;
    lemma_find_char_from_bounds(t, '\n', 0);
    let c = find_char_from(t, '\n', 0);
    if c < hl {
        assert(t[c] == h[c]);
    }
    assert(t[hl] == '\n');
    assert(t.take(hl) =~= h);
    assert(t.skip(hl + 1) =~= seq!['\n'] + x);
}

/// Parsing the text that a message is written as gives the message back.
#[verifier::spinoff_prover]
pub proof fn law_message_round_trip(m: MessageModel, seps: Seq<char>, cs: Seq<char>)
    requires
        message_round_trips(m, seps, cs),
    ensures
        parse_message(message_text(m), seps, cs) == m,
{
    let h = header_text(m.header);
    let t = message_text(m);
    law_header_round_trip(m.header);
    if m.body is None && m.footers.len() == 0 {
        assert(t =~= h);
        lemma_find_char_from_bounds(t, '\n', 0);
        assert(find_char_from(t, '\n', 0) == t.len());
        assert(t.take(t.len() as int) =~= h);
        assert(m.footers =~= Seq::<FooterModel>::empty());
        return;
    }
    let f_text = footers_text(m.footers);
    if m.footers.len() > 0 {
        lemma_footers_text_shape(m.footers, seps);
        law_footers_round_trip(m.footers, seps);
    }
    let x = match m.body {
        Some(b) => if m.footers.len() > 0 {
            b + seq!['\n', '\n'] + f_text
        } else {
            b
        },
        None => f_text,
    };
    match m.body {
        Some(b) => {
            lemma_trimmed_ends(b);
            if m.footers.len() > 0 {
                lemma_split_body_footers(b, f_text);
            }
        },
        None => {
            lemma_split_one_block(f_text);
        },
    }
    assert(x.len() > 0);
    assert(!is_ws(x[0]));
    assert(!is_ws(x[x.len() - 1]));
    assert(t =~= h + seq!['\n', '\n'] + x);
    lemma_header_line(h, x);
    lemma_plain_lines_after(t, cs, h.len() as int + 1);
    lemma_meaningful_rest(x, cs);
    let rest = t.skip(h.len() as int + 1);
    assert(rest == seq!['\n'] + x);
    assert(spec_parse_body(rest, seps, cs) == crate::cc::body::footer_candidate(
        x,
        split_last_block(x).0,
        split_last_block(x).1,
        seps,
    ));
    match m.body {
        Some(b) => {
            if m.footers.len() > 0 {
                assert(spec_parse_body(rest, seps, cs) == (Some(b), Some(m.footers)));
            } else {
                assert(spec_parse_body(rest, seps, cs) == (Some(b), None::<Seq<FooterModel>>));
                assert(m.footers =~= Seq::<FooterModel>::empty());
            }
        },
        None => {
            assert(spec_parse_body(rest, seps, cs) == (None::<Seq<char>>, Some(m.footers)));
        },
    }
}

/// The blank line between the header and the rest of a message may be left
/// out: `header\n\nrest` and `header\nrest` are the same message.
pub proof fn law_blank_line_after_header_optional(h: Seq<char>, x: Seq<char>, seps: Seq<char>, cs: Seq<char>)
    requires
        forall|j: int| 0 <= j < h.len() ==> #[trigger] h[j] != '\n',
    ensures
        parse_message(h + seq!['\n', '\n'] + x, seps, cs) == parse_message(h + seq!['\n'] + x, seps, cs),
{
    lemma_header_line(h, x);
    let t = h + seq!['\n'] + x;
    let hl = h.len() as int;
    lemma_find_char_from_bounds(t, '\n', 0);
    let c = find_char_from(t, '\n', 0);
    if c < hl {
        assert(t[c] == h[c]);
    }
    assert(t[hl] == '\n');
    assert(t.take(hl) =~= h);
    assert(t.skip(hl + 1) =~= x);
    law_leading_blank_line_ignored(x, seps, cs);
}

} // verus!