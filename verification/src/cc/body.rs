//! Splitting the text after the header into body and footers.
use vstd::prelude::*;

use crate::cc::footer::{line_text, parse_footer_block, FooterModel, Footers};
use crate::text::{
    chars_of, copy_range, find_char, find_char_from, lemma_find_char_from_bounds, starts_with,
    starts_with_at, string_of, trim, trim_end, trim_end_vec, trim_start, trim_start_vec, trim_vec,
};
use crate::text::{is_ws, last_non_ws_end};

verus! {

/// Comment symbol used when none is configured.
pub const DEFAULT_COMMENT_SYMBOL: char = '#';

/// `Conflicts:`, the title of the conflict block that old git versions appended.
pub open spec fn conflicts_title() -> Seq<char> {
    seq!['C', 'o', 'n', 'f', 'l', 'i', 'c', 't', 's', ':']
}

/// The text from the first meaningful line on, with leading white space trimmed.
/// Empty lines and comment lines (starting with `cs`) before it are meaningless.
pub open spec fn trim_start_from(s: Seq<char>, cs: Seq<char>, start: int) -> Seq<char>
    decreases s.len() + 1 - start,
{
    if start < 0 || start >= s.len() {
        Seq::empty()
    } else {
        let e = find_char_from(s, '\n', start);
        let line = line_text(s, start, e);
        if !(line.len() == 0 || starts_with(line, cs)) {
            trim_start(s.skip(start))
        } else {
            proof {
                lemma_find_char_from_bounds(s, '\n', start);
            }
            trim_start_from(s, cs, e + 1)
        }
    }
}

/// Removes meaningless lines (empty or comments) from the start of the text.
pub open spec fn spec_trim_meaningless_start(s: Seq<char>, cs: Seq<char>) -> Seq<char> {
    trim_start_from(s, cs, 0)
}

/// End of the meaningful text, scanning lines from `start` with the state
/// `me` (end found so far; the length when none) and `inb` (inside a conflict block).
pub open spec fn meaningful_end_from(s: Seq<char>, cs: Seq<char>, start: int, me: int, inb: bool) -> int
    decreases s.len() + 1 - start,
{
    if start < 0 || start >= s.len() {
        me
    } else {
        let e = find_char_from(s, '\n', start);
        let line = line_text(s, start, e);
        let len = s.len() as int;
        let unset = me == len;
        proof {
            lemma_find_char_from_bounds(s, '\n', start);
        }
        if starts_with(line, cs) {
            meaningful_end_from(s, cs, e + 1, if unset { start } else { me }, inb)
        } else if line == conflicts_title() {
            meaningful_end_from(s, cs, e + 1, if unset { start } else { me }, true)
        } else if inb && starts_with(line, seq!['\t']) {
            meaningful_end_from(s, cs, e + 1, me, inb)
        } else if trim(line).len() != 0 {
            meaningful_end_from(s, cs, e + 1, len, inb)
        } else {
            meaningful_end_from(s, cs, e + 1, me, inb)
        }
    }
}

/// Removes meaningless lines from the end of the text: empty lines, comments,
/// and the old conflict block (`Conflicts:` followed by tab-indented lines).
pub open spec fn spec_trim_meaningless_end(s: Seq<char>, cs: Seq<char>) -> Seq<char> {
    trim_end(s.take(meaningful_end_from(s, cs, 0, s.len() as int, false)))
}

/// A blank line (`\n\n`) starts at `i`.
pub open spec fn blank_line_at(s: Seq<char>, i: int) -> bool {
    0 <= i && i + 1 < s.len() && s[i] == '\n' && s[i + 1] == '\n'
}

/// The last position before `j` where a blank line starts.
pub open spec fn last_blank_line_before(s: Seq<char>, j: int) -> Option<int>
    decreases j,
{
    if j <= 0 {
        None
    } else if blank_line_at(s, j - 1) {
        Some(j - 1)
    } else {
        last_blank_line_before(s, j - 1)
    }
}

/// Body and footer candidate of the meaningful text: split at the last blank line.
pub open spec fn split_last_block(m: Seq<char>) -> (Seq<char>, Seq<char>) {
    match last_blank_line_before(m, m.len() as int) {
        Some(i) => (m.take(i), m.skip(i + 2)),
        None => (Seq::empty(), m),
    }
}

/// Body and footers of the text after the header.
pub open spec fn spec_parse_body(input: Seq<char>, seps: Seq<char>, cs: Seq<char>) -> (
    Option<Seq<char>>,
    Option<Seq<FooterModel>>,
) {
    if input.len() == 0 {
        (None, None)
    } else {
        let m = spec_trim_meaningless_start(spec_trim_meaningless_end(input, cs), cs);
        if m.len() == 0 {
            (None, None)
        } else {
            footer_candidate(m, split_last_block(m).0, split_last_block(m).1, seps)
        }
    }
}

/// The footer candidate is taken as footers when every line of it is one;
/// otherwise the whole meaningful text is body.
pub open spec fn footer_candidate(m: Seq<char>, body: Seq<char>, cand: Seq<char>, seps: Seq<char>) -> (
    Option<Seq<char>>,
    Option<Seq<FooterModel>>,
) {
    match parse_footer_block(cand, seps) {
        Some(fs) => (
            if body.len() == 0 {
                None
            } else {
                Some(body)
            },
            Some(fs),
        ),
        None => (Some(m), None),
    }
}

pub proof fn lemma_last_blank_line_before(s: Seq<char>, j: int)
    requires
        0 <= j <= s.len(),
    ensures
        match last_blank_line_before(s, j) {
            Some(i) => 0 <= i < j && blank_line_at(s, i) && forall|k: int|
                i < k < j ==> !blank_line_at(s, k),
            None => forall|k: int| 0 <= k < j ==> !blank_line_at(s, k),
        },
    decreases j,
{
    if j > 0 && !blank_line_at(s, j - 1) {
        lemma_last_blank_line_before(s, j - 1);
    }
}

/// The last position where a blank line (`\n\n`) starts.
pub fn rfind_blank_line(v: &Vec<char>) -> (r: Option<usize>)
    ensures
        match r {
            Some(i) => last_blank_line_before(v@, v@.len() as int) == Some(i as int),
            None => last_blank_line_before(v@, v@.len() as int) is None,
        },
{
    let mut j = v.len();
    while j > 0
        invariant
            j <= v.len(),
            last_blank_line_before(v@, v@.len() as int) == last_blank_line_before(v@, j as int),
        decreases j,
    {
        if j < v.len() && v[j - 1] == '\n' && v[j] == '\n' {
            return Some(j - 1);
        }
        j = j - 1;
    }
    None
}

/// Removes meaningless lines from the start.
pub fn trim_meaningless_start_exec(v: &Vec<char>, cs: &Vec<char>) -> (r: Vec<char>)
    ensures
        r@ == spec_trim_meaningless_start(v@, cs@),
{
    let n = v.len();
    let mut start: usize = 0;
    while start < n
        invariant
            n == v.len(),
            start <= n,
            spec_trim_meaningless_start(v@, cs@) == trim_start_from(v@, cs@, start as int),
        decreases n - start,
    {
        let e = find_char(v, '\n', start);
        proof {
            lemma_find_char_from_bounds(v@, '\n', start as int);
        }
        let line_end = if e < n && e > start && v[e - 1] == '\r' {
            e - 1
        } else {
            e
        };
        let line = copy_range(v, start, line_end);
        assert(line@ =~= line_text(v@, start as int, e as int));
        let is_comment = starts_with_at(&line, 0, cs);
        assert(line@.skip(0) =~= line@);
        if !(line.len() == 0 || is_comment) {
            let rest = copy_range(v, start, n);
            assert(rest@ =~= v@.skip(start as int));
            return trim_start_vec(&rest);
        }
        if e >= n {
            assert(trim_start_from(v@, cs@, e + 1) =~= Seq::<char>::empty());
            return Vec::new();
        }
        start = e + 1;
    }
    Vec::new()
}

/// End of the meaningful text.
fn meaningful_end_exec(v: &Vec<char>, cs: &Vec<char>) -> (r: usize)
    ensures
        r == meaningful_end_from(v@, cs@, 0, v@.len() as int, false),
        r <= v@.len(),
{
    let n = v.len();
    let title = conflicts_title_vec();
    let mut me = n;
    let mut inb = false;
    let mut start: usize = 0;
    let tab: Vec<char> = vec!['\t'];
    assert(tab@ =~= seq!['\t']);
    while start < n
        invariant
            n == v.len(),
            start <= n,
            me <= n,
            title@ == conflicts_title(),
            tab@ == seq!['\t'],
            meaningful_end_from(v@, cs@, 0, n as int, false) == meaningful_end_from(
                v@,
                cs@,
                start as int,
                me as int,
                inb,
            ),
        decreases n - start,
    {
        let e = find_char(v, '\n', start);
        proof {
            lemma_find_char_from_bounds(v@, '\n', start as int);
        }
        let line_end = if e < n && e > start && v[e - 1] == '\r' {
            e - 1
        } else {
            e
        };
        let line = copy_range(v, start, line_end);
        assert(line@ =~= line_text(v@, start as int, e as int));
        assert(line@.skip(0) =~= line@);
        if starts_with_at(&line, 0, cs) {
            if me == n {
                me = start;
            }
        } else if crate::text::vec_eq(&line, &title) {
            inb = true;
            if me == n {
                me = start;
            }
        } else if inb && starts_with_at(&line, 0, &tab) {
        } else {
            let t = trim_vec(&line);
            if t.len() != 0 {
                me = n;
            }
        }
        if e >= n {
            assert(meaningful_end_from(v@, cs@, e + 1, me as int, inb) == me);
            return me;
        }
        start = e + 1;
    }
    me
}

fn conflicts_title_vec() -> (r: Vec<char>)
    ensures
        r@ == conflicts_title(),
{
    let r = vec!['C', 'o', 'n', 'f', 'l', 'i', 'c', 't', 's', ':'];
    assert(r@ =~= conflicts_title());
    r
}

/// Removes meaningless lines from the end.
pub fn trim_meaningless_end_exec(v: &Vec<char>, cs: &Vec<char>) -> (r: Vec<char>)
    ensures
        r@ == spec_trim_meaningless_end(v@, cs@),
{
    let me = meaningful_end_exec(v, cs);
    let head = copy_range(v, 0, me);
    assert(head@ =~= v@.take(me as int));
    trim_end_vec(&head)
}

/// Splits the text after the header into body and footers.
pub fn parse_body_exec(input: &Vec<char>, seps: &Vec<char>, cs: &Vec<char>) -> (r: (
    Option<String>,
    Option<Footers>,
))
    ensures
        spec_parse_body(input@, seps@, cs@) == (
            match r.0 {
                Some(b) => Some(b@),
                None => None,
            },
            match r.1 {
                Some(f) => Some(f@),
                None => None,
            },
        ),
{
    if input.len() == 0 {
        return (None, None);
    }
    let end_trimmed = trim_meaningless_end_exec(input, cs);
    let m = trim_meaningless_start_exec(&end_trimmed, cs);
    if m.len() == 0 {
        return (None, None);
    }
    let (body, cand) = match rfind_blank_line(&m) {
        Some(i) => {
            proof {
                lemma_last_blank_line_before(m@, m@.len() as int);
            }
            let b = copy_range(&m, 0, i);
            let c = copy_range(&m, i + 2, m.len());
            assert(b@ =~= m@.take(i as int));
            assert(c@ =~= m@.skip(i + 2));
            (b, c)
        },
        None => {
            let c = copy_range(&m, 0, m.len());
            assert(c@ =~= m@);
            (Vec::new(), c)
        },
    };
    parse_footer_candidate(&m, &body, &cand, seps)
}

/// Footers when every line of the candidate is one; otherwise all of `m` is body.
fn parse_footer_candidate(m: &Vec<char>, body: &Vec<char>, cand: &Vec<char>, seps: &Vec<char>) -> (r: (
    Option<String>,
    Option<Footers>,
))
    ensures
        footer_candidate(m@, body@, cand@, seps@) == (
            match r.0 {
                Some(b) => Some(b@),
                None => None,
            },
            match r.1 {
                Some(f) => Some(f@),
                None => None,
            },
        ),
{
    match Footers::parse_chars(cand, seps) {
        Some(footers) => {
            let b = if body.len() == 0 {
                None
            } else {
                Some(string_of(body))
            };
            (b, Some(footers))
        },
        None => (Some(string_of(m)), None),
    }
}

/// Removes meaningless lines (empty lines and comments) from the start.
pub fn trim_meaningless_start(input: &str, comment_symbol: &str) -> (r: String)
    ensures
        r@ == spec_trim_meaningless_start(input@, comment_symbol@),
{
    let v = chars_of(input);
    let cs = chars_of(comment_symbol);
    let r = trim_meaningless_start_exec(&v, &cs);
    string_of(&r)
}

/// Removes meaningless lines (empty lines, comments, the old conflict block) from the end.
pub fn trim_meaningless_end(input: &str, comment_symbol: &str) -> (r: String)
    ensures
        r@ == spec_trim_meaningless_end(input@, comment_symbol@),
{
    let v = chars_of(input);
    let cs = chars_of(comment_symbol);
    let r = trim_meaningless_end_exec(&v, &cs);
    string_of(&r)
}

/// Splits the text after the header into body and footers.
pub fn parse_body(input: &str, footer_separators: &str, comment_symbol: &str) -> (r: (
    Option<String>,
    Option<Footers>,
))
    ensures
        spec_parse_body(input@, footer_separators@, comment_symbol@) == (
            match r.0 {
                Some(b) => Some(b@),
                None => None,
            },
            match r.1 {
                Some(f) => Some(f@),
                None => None,
            },
        ),
{
    let v = chars_of(input);
    let seps = chars_of(footer_separators);
    let cs = chars_of(comment_symbol);
    parse_body_exec(&v, &seps, &cs)
}

/// The line that starts at `p`.
pub open spec fn line_at(s: Seq<char>, p: int) -> Seq<char> {
    line_text(s, p, find_char_from(s, '\n', p))
}

/// A line starts at `p`.
pub open spec fn is_line_start(s: Seq<char>, p: int) -> bool {
    0 <= p < s.len() && (p == 0 || s[p - 1] == '\n')
}

/// No line of `s` is a comment (starts with `cs`) or the title of a conflict block.
pub open spec fn plain_lines(s: Seq<char>, cs: Seq<char>) -> bool {
    forall|p: int| #[trigger] is_line_start(s, p) ==> !starts_with(line_at(s, p), cs) && line_at(s, p) != conflicts_title()
}

/// In a text of plain lines, every line from a line start on is meaningful or
/// blank, so the meaningful text runs to the end.
pub proof fn lemma_meaningful_end_plain(s: Seq<char>, cs: Seq<char>, start: int)
    requires
        plain_lines(s, cs),
        0 <= start,
        start >= s.len() || start == 0 || s[start - 1] == '\n',
    ensures
        meaningful_end_from(s, cs, start, s.len() as int, false) == s.len(),
    decreases s.len() + 1 - start,
{
    if start < s.len() {
        assert(is_line_start(s, start));
        lemma_find_char_from_bounds(s, '\n', start);
        let e = find_char_from(s, '\n', start);
        lemma_meaningful_end_plain(s, cs, e + 1);
    }
}

/// The lines of the text after a line break are lines of the whole text.
pub proof fn lemma_plain_lines_after(s: Seq<char>, cs: Seq<char>, k: int)
    requires
        plain_lines(s, cs),
        0 < k <= s.len(),
        s[k - 1] == '\n',
    ensures
        plain_lines(s.skip(k), cs),
{
    let u = s.skip(k);
    assert forall|p: int| #[trigger] is_line_start(u, p) implies !starts_with(line_at(u, p), cs)
        && line_at(u, p) != conflicts_title() by {
        assert(is_line_start(s, p + k));
        crate::cc::header::lemma_find_shift_from(s, '\n', k, p);
        lemma_find_char_from_bounds(s, '\n', p + k);
        let e = find_char_from(s, '\n', p + k);
        assert(find_char_from(u, '\n', p) == e - k);
        assert(line_at(u, p) =~= line_at(s, p + k));
    }
}

/// Putting a line break in front of a text moves its line breaks one place on.
proof fn lemma_find_after_newline(x: Seq<char>, k: int)
    requires
        0 <= k <= x.len(),
    ensures
        find_char_from(seq!['\n'] + x, '\n', k + 1) == find_char_from(x, '\n', k) + 1,
{
    let s = seq!['\n'] + x;
    assert(s.skip(1) =~= x);
    crate::cc::header::lemma_find_shift_from(s, '\n', 1, k);
}

/// The lines of a text are those of the text after a line break put in front.
proof fn lemma_line_after_newline(x: Seq<char>, k: int, e: int)
    requires
        0 <= k <= e <= x.len(),
    ensures
        line_text(seq!['\n'] + x, k + 1, e + 1) == line_text(x, k, e),
{
    let s = seq!['\n'] + x;
    if e < x.len() {
        assert(s[e + 1] == x[e]);
    }
    if e > k {
        assert(s[e] == x[e - 1]);
    }
    assert(s.subrange(k + 1, e + 1) =~= x.subrange(k, e));
    if e > k {
        assert(s.subrange(k + 1, e) =~= x.subrange(k, e - 1));
    }
}

/// Scanning the text after a line break put in front finds the same end, one
/// place on.
proof fn lemma_meaningful_end_after_newline(x: Seq<char>, cs: Seq<char>, k: int, me: int, inb: bool)
    requires
        0 <= k,
    ensures
        meaningful_end_from(seq!['\n'] + x, cs, k + 1, me + 1, inb) == meaningful_end_from(
            x,
            cs,
            k,
            me,
            inb,
        ) + 1,
    decreases x.len() + 1 - k,
{
    let s = seq!['\n'] + x;
    if k < x.len() {
        lemma_find_char_from_bounds(x, '\n', k);
        lemma_find_after_newline(x, k);
        let e = find_char_from(x, '\n', k);
        lemma_line_after_newline(x, k, e);
        let len = x.len() as int;
        let line = line_text(x, k, e);
        if starts_with(line, cs) {
            lemma_meaningful_end_after_newline(x, cs, e + 1, if me == len { k } else { me }, inb);
        } else if line == conflicts_title() {
            lemma_meaningful_end_after_newline(x, cs, e + 1, if me == len { k } else { me }, true);
        } else if inb && starts_with(line, seq!['\t']) {
            lemma_meaningful_end_after_newline(x, cs, e + 1, me, inb);
        } else if trim(line).len() != 0 {
            lemma_meaningful_end_after_newline(x, cs, e + 1, len, inb);
        } else {
            lemma_meaningful_end_after_newline(x, cs, e + 1, me, inb);
        }
    }
}

/// The end found lies within the text.
proof fn lemma_meaningful_end_bounds(s: Seq<char>, cs: Seq<char>, k: int, me: int, inb: bool)
    requires
        0 <= me <= s.len(),
    ensures
        0 <= meaningful_end_from(s, cs, k, me, inb) <= s.len(),
    decreases s.len() + 1 - k,
{
    if 0 <= k < s.len() {
        lemma_find_char_from_bounds(s, '\n', k);
        let e = find_char_from(s, '\n', k);
        let len = s.len() as int;
        let line = line_text(s, k, e);
        if starts_with(line, cs) {
            lemma_meaningful_end_bounds(s, cs, e + 1, if me == len { k } else { me }, inb);
        } else if line == conflicts_title() {
            lemma_meaningful_end_bounds(s, cs, e + 1, if me == len { k } else { me }, true);
        } else if inb && starts_with(line, seq!['\t']) {
            lemma_meaningful_end_bounds(s, cs, e + 1, me, inb);
        } else if trim(line).len() != 0 {
            lemma_meaningful_end_bounds(s, cs, e + 1, len, inb);
        } else {
            lemma_meaningful_end_bounds(s, cs, e + 1, me, inb);
        }
    }
}

/// Without a comment symbol every line is a comment: once the end is set, it stays.
proof fn lemma_meaningful_end_no_symbol(s: Seq<char>, cs: Seq<char>, k: int, me: int, inb: bool)
    requires
        cs.len() == 0,
        me != s.len(),
    ensures
        meaningful_end_from(s, cs, k, me, inb) == me,
    decreases s.len() + 1 - k,
{
    if 0 <= k < s.len() {
        lemma_find_char_from_bounds(s, '\n', k);
        let e = find_char_from(s, '\n', k);
        assert(starts_with(line_text(s, k, e), cs)) by {
            assert(line_text(s, k, e).take(0) =~= cs);
        }
        lemma_meaningful_end_no_symbol(s, cs, e + 1, me, inb);
    }
}

/// Trailing white space of a text after a line break put in front.
proof fn lemma_last_non_ws_after_newline(y: Seq<char>, j: int)
    requires
        0 <= j <= y.len(),
    ensures
        last_non_ws_end(seq!['\n'] + y, j + 1) == if last_non_ws_end(y, j) == 0 {
            0
        } else {
            last_non_ws_end(y, j) + 1
        },
    decreases j,
{
    let s = seq!['\n'] + y;
    if j == 0 {
        assert(is_ws(s[0]));
        assert(last_non_ws_end(s, 0) == 0);
    } else {
        assert(s[j] == y[j - 1]);
        lemma_last_non_ws_after_newline(y, j - 1);
    }
}

/// Skipping meaningless leading lines of a text after a line break put in front.
proof fn lemma_trim_start_after_newline(z: Seq<char>, cs: Seq<char>, k: int)
    requires
        0 <= k,
    ensures
        trim_start_from(seq!['\n'] + z, cs, k + 1) == trim_start_from(z, cs, k),
    decreases z.len() + 1 - k,
{
    let s = seq!['\n'] + z;
    if k < z.len() {
        lemma_find_char_from_bounds(z, '\n', k);
        lemma_find_after_newline(z, k);
        let e = find_char_from(z, '\n', k);
        lemma_line_after_newline(z, k, e);
        assert(s.skip(k + 1) =~= z.skip(k));
        lemma_trim_start_after_newline(z, cs, e + 1);
    }
}

/// A blank line in front of the text after the header changes neither the body
/// nor the footers.
pub proof fn law_leading_blank_line_ignored(x: Seq<char>, seps: Seq<char>, cs: Seq<char>)
    ensures
        spec_parse_body(seq!['\n'] + x, seps, cs) == spec_parse_body(x, seps, cs),
{
    let s = seq!['\n'] + x;
    let n = x.len() as int;
    let e0 = find_char_from(s, '\n', 0);
    assert(e0 == 0);
    assert(line_text(s, 0, 0) =~= Seq::<char>::empty());
    let ms = meaningful_end_from(s, cs, 0, s.len() as int, false);
    let mx = meaningful_end_from(x, cs, 0, n, false);
    if cs.len() == 0 {
        assert(starts_with(line_text(s, 0, 0), cs)) by {
            assert(line_text(s, 0, 0).take(0) =~= cs);
        }
        lemma_meaningful_end_no_symbol(s, cs, 1, 0, false);
        assert(ms == 0);
        assert(s.take(0) =~= Seq::<char>::empty());
        assert(spec_trim_meaningless_end(s, cs) =~= Seq::<char>::empty());
        assert(spec_trim_meaningless_start(Seq::<char>::empty(), cs) =~= Seq::<char>::empty());
        if n > 0 {
            lemma_find_char_from_bounds(x, '\n', 0);
            let e = find_char_from(x, '\n', 0);
            assert(starts_with(line_text(x, 0, e), cs)) by {
                assert(line_text(x, 0, e).take(0) =~= cs);
            }
            lemma_meaningful_end_no_symbol(x, cs, e + 1, 0, false);
            assert(mx == 0);
            assert(x.take(0) =~= Seq::<char>::empty());
            assert(spec_trim_meaningless_end(x, cs) =~= Seq::<char>::empty());
        }
    } else {
        assert(!starts_with(line_text(s, 0, 0), cs));
        assert(line_text(s, 0, 0) != conflicts_title());
        assert(trim(line_text(s, 0, 0)).len() == 0);
        lemma_meaningful_end_after_newline(x, cs, 0, n, false);
        assert(ms == mx + 1);
        lemma_meaningful_end_bounds(x, cs, 0, n, false);
        let y = x.take(mx);
        assert(s.take(mx + 1) =~= seq!['\n'] + y);
        lemma_last_non_ws_after_newline(y, y.len() as int);
        crate::text::lemma_last_non_ws_end_bounds(y, y.len() as int);
        let ex = trim_end(y);
        let es = trim_end(seq!['\n'] + y);
        if ex.len() == 0 {
            assert(es =~= Seq::<char>::empty());
            assert(spec_trim_meaningless_start(es, cs) =~= Seq::<char>::empty());
            assert(spec_trim_meaningless_start(ex, cs) =~= Seq::<char>::empty());
        } else {
            assert(es =~= seq!['\n'] + ex);
            assert(find_char_from(es, '\n', 0) == 0);
            assert(line_text(es, 0, 0) =~= Seq::<char>::empty());
            lemma_trim_start_after_newline(ex, cs, 0);
        }
    }
}

} // verus!
