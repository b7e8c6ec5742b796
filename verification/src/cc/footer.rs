//! Footers (git trailers) of a commit message, e.g. `Authored-By: John Doe`
//! or `Fixes #123`.
use vstd::prelude::*;

use crate::text::{
    all_ws, lemma_trim_after_ws, chars_of, copy_range, find_char, find_char_from, is_whitespace, is_ws,
    lemma_find_char_from_bounds, push_all, string_of, trim, trim_vec, vec_eq,
};

verus! {

/// Where the separator stands: `Key: value` (left) or `Key #value` (right).
#[derive(Debug, Clone, Copy, PartialEq, Eq, Structural)]
pub enum SeparatorAlignment {
    Left,
    Right,
}

impl Default for SeparatorAlignment {
    fn default() -> (r: Self)
        ensures
            r == SeparatorAlignment::Left,
    {
        SeparatorAlignment::Left
    }
}

/// Separator used when none is configured.
pub const DEFAULT_SEPARATOR: char = ':';

/// A single footer.
#[derive(Debug, Clone, PartialEq)]
pub struct Footer {
    pub key: String,
    pub value: String,
    pub separator: char,
    pub alignment: SeparatorAlignment,
}

/// Mathematical model of a footer.
pub struct FooterModel {
    pub key: Seq<char>,
    pub value: Seq<char>,
    pub separator: char,
    pub alignment: SeparatorAlignment,
}

impl View for Footer {
    type V = FooterModel;

    open spec fn view(&self) -> FooterModel {
        FooterModel {
            key: self.key@,
            value: self.value@,
            separator: self.separator,
            alignment: self.alignment,
        }
    }
}

/// The footers of a message, in order.
#[derive(Debug, Clone, PartialEq)]
pub struct Footers {
    pub items: Vec<Footer>,
}

pub open spec fn footers_view(v: Seq<Footer>) -> Seq<FooterModel> {
    v.map_values(|f: Footer| f@)
}

impl View for Footers {
    type V = Seq<FooterModel>;

    open spec fn view(&self) -> Seq<FooterModel> {
        footers_view(self.items@)
    }
}

/// `BREAKING`
pub open spec fn breaking_word() -> Seq<char> {
    seq!['B', 'R', 'E', 'A', 'K', 'I', 'N', 'G']
}

/// `CHANGE`
pub open spec fn change_word() -> Seq<char> {
    seq!['C', 'H', 'A', 'N', 'G', 'E']
}

/// `BREAKING CHANGE`, `BREAKING-CHANGE`, `BREAKING CHANGES` or `BREAKING-CHANGES`.
pub open spec fn is_breaking_key(k: Seq<char>) -> bool {
    &&& (k.len() == 15 || k.len() == 16)
    &&& k.take(8) == breaking_word()
    &&& (k[8] == ' ' || k[8] == '-')
    &&& k.subrange(9, 15) == change_word()
    &&& (k.len() == 15 || k[15] == 'S')
}

/// A key may not hold white space or a separator.
pub open spec fn is_key_char(c: char, seps: Seq<char>) -> bool {
    !is_ws(c) && !seps.contains(c)
}

/// End of the key token that starts at `i`.
pub open spec fn key_end(line: Seq<char>, seps: Seq<char>, i: int) -> int
    decreases line.len() - i,
{
    if i >= line.len() {
        line.len() as int
    } else if is_key_char(line[i], seps) {
        key_end(line, seps, i + 1)
    } else {
        i
    }
}

/// Length of the key of a footer line: a spaced breaking-change key, or a token.
pub open spec fn key_len(line: Seq<char>, seps: Seq<char>) -> int {
    if line.len() >= 16 && line.take(16)[8] == ' ' && is_breaking_key(line.take(16)) {
        16
    } else if line.len() >= 15 && line[8] == ' ' && is_breaking_key(line.take(15)) {
        15
    } else {
        key_end(line, seps, 0)
    }
}

/// The footer a line denotes, if it is one: `key<sep> value` or `key <sep>value`,
/// where `<sep>` is one of `seps` and the value is not empty.
pub open spec fn parse_footer_line(line: Seq<char>, seps: Seq<char>) -> Option<FooterModel> {
    let k = key_len(line, seps);
    if k == 0 || k >= line.len() {
        None
    } else if seps.contains(line[k]) {
        let value = trim(line.skip(k + 1));
        if value.len() == 0 {
            None
        } else {
            Some(
                FooterModel {
                    key: line.take(k),
                    value,
                    separator: line[k],
                    alignment: SeparatorAlignment::Left,
                },
            )
        }
    } else if line[k] == ' ' && k + 2 < line.len() && seps.contains(line[k + 1]) && !is_ws(
        line[k + 2],
    ) {
        Some(
            FooterModel {
                key: line.take(k),
                value: trim(line.skip(k + 2)),
                separator: line[k + 1],
                alignment: SeparatorAlignment::Right,
            },
        )
    } else {
        None
    }
}

/// A line as `str::lines` yields it: a `\r` before the `\n` that ends it is dropped.
pub open spec fn line_text(s: Seq<char>, start: int, end: int) -> Seq<char> {
    if end < s.len() && end > start && s[end - 1] == '\r' {
        s.subrange(start, end - 1)
    } else {
        s.subrange(start, end)
    }
}

/// The footers of a block where every line is a footer; `None` otherwise.
pub open spec fn parse_footer_block(s: Seq<char>, seps: Seq<char>) -> Option<Seq<FooterModel>>
    decreases s.len(),
{
    if s.len() == 0 {
        None
    } else {
        let e = find_char_from(s, '\n', 0);
        match parse_footer_line(line_text(s, 0, e), seps) {
            None => None,
            Some(f) => if e + 1 >= s.len() {
                Some(seq![f])
            } else {
                proof {
                    lemma_find_char_from_bounds(s, '\n', 0);
                }
                match parse_footer_block(s.skip(e + 1), seps) {
                    Some(fs) => Some(seq![f] + fs),
                    None => None,
                }
            },
        }
    }
}

/// The line a footer is written as.
pub open spec fn footer_text(f: FooterModel) -> Seq<char> {
    match f.alignment {
        SeparatorAlignment::Left => f.key + seq![f.separator, ' '] + f.value,
        SeparatorAlignment::Right => f.key + seq![' ', f.separator] + f.value,
    }
}

/// The footers written one per line.
pub open spec fn footers_text(fs: Seq<FooterModel>) -> Seq<char>
    decreases fs.len(),
{
    if fs.len() == 0 {
        Seq::empty()
    } else if fs.len() == 1 {
        footer_text(fs[0])
    } else {
        footer_text(fs[0]) + seq!['\n'] + footers_text(fs.drop_first())
    }
}

/// Some footer of `fs` has key `key`.
pub open spec fn has_key(fs: Seq<FooterModel>, key: Seq<char>) -> bool {
    exists|i: int| 0 <= i < fs.len() && #[trigger] fs[i].key == key
}

fn seps_contains(seps: &Vec<char>, c: char) -> (r: bool)
    ensures
        r == seps@.contains(c),
{
    let mut i: usize = 0;
    while i < seps.len()
        invariant
            i <= seps.len(),
            forall|j: int| 0 <= j < i ==> seps@[j] != c,
        decreases seps.len() - i,
    {
        if seps[i] == c {
            return true;
        }
        i = i + 1;
    }
    false
}

fn key_end_exec(line: &Vec<char>, seps: &Vec<char>) -> (r: usize)
    ensures
        r == key_end(line@, seps@, 0),
{
    let mut k: usize = 0;
    while k < line.len() && !is_whitespace(line[k]) && !seps_contains(seps, line[k])
        invariant
            k <= line.len(),
            key_end(line@, seps@, 0) == key_end(line@, seps@, k as int),
        decreases line.len() - k,
    {
        k = k + 1;
    }
    k
}

pub proof fn lemma_key_end_bounds(line: Seq<char>, seps: Seq<char>, i: int)
    requires
        0 <= i <= line.len(),
    ensures
        i <= key_end(line, seps, i) <= line.len(),
        forall|j: int| i <= j < key_end(line, seps, i) ==> is_key_char(#[trigger] line[j], seps),
        key_end(line, seps, i) < line.len() ==> !is_key_char(line[key_end(line, seps, i)], seps),
    decreases line.len() - i,
{
    if i < line.len() && is_key_char(line[i], seps) {
        lemma_key_end_bounds(line, seps, i + 1);
    }
}

/// Whether `v[..n]` is a breaking-change key.
fn is_breaking_prefix(v: &Vec<char>, n: usize) -> (r: bool)
    requires
        n == 15 || n == 16,
        n <= v.len(),
    ensures
        r == is_breaking_key(v@.take(n as int)),
{
    let ghost k = v@.take(n as int);
    let r = v[0] == 'B' && v[1] == 'R' && v[2] == 'E' && v[3] == 'A' && v[4] == 'K' && v[5] == 'I'
        && v[6] == 'N' && v[7] == 'G' && (v[8] == ' ' || v[8] == '-') && v[9] == 'C' && v[10]
        == 'H' && v[11] == 'A' && v[12] == 'N' && v[13] == 'G' && v[14] == 'E' && (n == 15 || v[15]
        == 'S');
    proof {
        if r {
            assert(k.take(8) =~= breaking_word());
            assert(k.subrange(9, 15) =~= change_word());
        }
        if is_breaking_key(k) {
            assert(k.take(8)[0] == 'B');
            assert(k.take(8)[1] == 'R');
            assert(k.take(8)[2] == 'E');
            assert(k.take(8)[3] == 'A');
            assert(k.take(8)[4] == 'K');
            assert(k.take(8)[5] == 'I');
            assert(k.take(8)[6] == 'N');
            assert(k.take(8)[7] == 'G');
            assert(k.subrange(9, 15)[0] == 'C');
            assert(k.subrange(9, 15)[1] == 'H');
            assert(k.subrange(9, 15)[2] == 'A');
            assert(k.subrange(9, 15)[3] == 'N');
            assert(k.subrange(9, 15)[4] == 'G');
            assert(k.subrange(9, 15)[5] == 'E');
        }
    }
    r
}

fn key_len_exec(line: &Vec<char>, seps: &Vec<char>) -> (r: usize)
    ensures
        r == key_len(line@, seps@),
{
    if line.len() >= 16 && line[8] == ' ' && is_breaking_prefix(line, 16) {
        proof {
            assert(line@.take(16)[8] == line@[8]);
        }
        16
    } else if line.len() >= 15 && line[8] == ' ' && is_breaking_prefix(line, 15) {
        proof {
            if line@.len() >= 16 {
                assert(line@.take(16)[8] == line@[8]);
            }
        }
        15
    } else {
        proof {
            if line@.len() >= 16 {
                assert(line@.take(16)[8] == line@[8]);
            }
        }
        key_end_exec(line, seps)
    }
}

/// Parses a single footer line.
pub fn parse_footer_line_exec(line: &Vec<char>, seps: &Vec<char>) -> (r: Option<Footer>)
    ensures
        match r {
            Some(f) => parse_footer_line(line@, seps@) == Some(f@),
            None => parse_footer_line(line@, seps@) is None,
        },
{
    let k = key_len_exec(line, seps);
    let n = line.len();
    proof {
        lemma_key_end_bounds(line@, seps@, 0);
    }
    if k == 0 || k >= n {
        return None;
    }
    if seps_contains(seps, line[k]) {
        let rest = copy_range(line, k + 1, n);
        let value = trim_vec(&rest);
        assert(rest@ =~= line@.skip(k + 1));
        if value.len() == 0 {
            return None;
        }
        let key = copy_range(line, 0, k);
        assert(key@ =~= line@.take(k as int));
        let f = Footer {
            key: string_of(&key),
            value: string_of(&value),
            separator: line[k],
            alignment: SeparatorAlignment::Left,
        };
        Some(f)
    } else if line[k] == ' ' && n - k > 2 && seps_contains(seps, line[k + 1]) && !is_whitespace(
        line[k + 2],
    ) {
        let rest = copy_range(line, k + 2, n);
        let value = trim_vec(&rest);
        assert(rest@ =~= line@.skip(k + 2));
        let key = copy_range(line, 0, k);
        assert(key@ =~= line@.take(k as int));
        let f = Footer {
            key: string_of(&key),
            value: string_of(&value),
            separator: line[k + 1],
            alignment: SeparatorAlignment::Right,
        };
        Some(f)
    } else {
        None
    }
}

/// `find_char_from` on a suffix, in the indices of the whole text.
pub proof fn lemma_find_in_skip(s: Seq<char>, c: char, start: int, i: int)
    requires
        0 <= start <= s.len(),
        0 <= i <= s.len() - start,
    ensures
        find_char_from(s.skip(start), c, i) == find_char_from(s, c, start + i) - start,
    decreases s.len() - start - i,
{
    if i < s.len() - start && s[start + i] != c {
        lemma_find_in_skip(s, c, start, i + 1);
    }
}

pub open spec fn prepend_all(xs: Seq<FooterModel>, r: Option<Seq<FooterModel>>) -> Option<
    Seq<FooterModel>,
> {
    match r {
        Some(ys) => Some(xs + ys),
        None => None,
    }
}

impl Footers {
    /// No footers.
    pub fn new() -> (r: Footers)
        ensures
            r@ == Seq::<FooterModel>::empty(),
    {
        let r = Footers { items: Vec::new() };
        assert(r@ =~= Seq::<FooterModel>::empty());
        r
    }

    /// Footers holding `items`, in order.
    pub fn from_vec(items: Vec<Footer>) -> (r: Footers)
        ensures
            r@ == footers_view(items@),
    {
        Footers { items }
    }

    /// Number of footers.
    pub fn len(&self) -> (n: usize)
        ensures
            n == self@.len(),
    {
        self.items.len()
    }

    /// Whether there are no footers.
    pub fn is_empty(&self) -> (b: bool)
        ensures
            b == (self@.len() == 0),
    {
        self.items.len() == 0
    }

    /// The footer at `i`.
    pub fn get(&self, i: usize) -> (r: Option<&Footer>)
        ensures
            match r {
                Some(f) => i < self@.len() && f@ == self@[i as int],
                None => i >= self@.len(),
            },
    {
        if i < self.items.len() {
            Some(&self.items[i])
        } else {
            None
        }
    }

    /// Appends a footer.
    pub fn push(&mut self, footer: Footer)
        ensures
            final(self)@ == old(self)@.push(footer@),
    {
        self.items.push(footer);
        assert(self@ =~= old(self)@.push(footer@));
    }

    /// Whether a footer with key `key` is present.
    pub fn contains_key(&self, key: &str) -> (b: bool)
        ensures
            b == has_key(self@, key@),
    {
        let k = chars_of(key);
        let mut i: usize = 0;
        while i < self.items.len()
            invariant
                i <= self.items.len(),
                k@ == key@,
                forall|j: int| 0 <= j < i ==> #[trigger] self@[j].key != key@,
            decreases self.items.len() - i,
        {
            let fk = chars_of(self.items[i].key.as_str());
            if vec_eq(&fk, &k) {
                assert(self@[i as int].key == key@);
                return true;
            }
            i = i + 1;
        }
        false
    }

    /// Parses a block of footers, one per line; `None` when a line is not a footer
    /// or the block is empty.
    pub fn parse(input: &str, separators: &str) -> (r: Option<Footers>)
        ensures
            match r {
                Some(fs) => parse_footer_block(input@, separators@) == Some(fs@),
                None => parse_footer_block(input@, separators@) is None,
            },
    {
        let s = chars_of(input);
        let seps = chars_of(separators);
        Self::parse_chars(&s, &seps)
    }

    /// `parse` on characters.
    pub fn parse_chars(s: &Vec<char>, seps: &Vec<char>) -> (r: Option<Footers>)
        ensures
            match r {
                Some(fs) => parse_footer_block(s@, seps@) == Some(fs@),
                None => parse_footer_block(s@, seps@) is None,
            },
    {
        let n = s.len();
        if n == 0 {
            return None;
        }
        let mut out = Footers::new();
        let mut start: usize = 0;
        assert(s@.skip(0) =~= s@);
        loop
            invariant
                n == s.len(),
                start < n,
                parse_footer_block(s@, seps@) == prepend_all(out@, parse_footer_block(s@.skip(start as int), seps@)),
            decreases n - start,
        {
            let ghost t = s@.skip(start as int);
            let e = find_char(s, '\n', start);
            proof {
                lemma_find_char_from_bounds(s@, '\n', start as int);
                lemma_find_in_skip(s@, '\n', start as int, 0);
            }
            let line_end = if e < n && e > start && s[e - 1] == '\r' {
                e - 1
            } else {
                e
            };
            let line = copy_range(s, start, line_end);
            proof {
                let le = e - start;
                assert(line@ =~= line_text(t, 0, le));
            }
            match parse_footer_line_exec(&line, seps) {
                None => {
                    return None;
                },
                Some(f) => {
                    let ghost before = out@;
                    out.push(f);
                    if e >= n - 1 {
                        assert(out@ =~= before + seq![f@]);
                        return Some(out);
                    }
                    proof {
                        assert(t.skip(e - start + 1) =~= s@.skip(e + 1));
                        assert(before + (seq![f@] + Seq::<FooterModel>::empty()) =~= out@);
                        match parse_footer_block(s@.skip(e + 1), seps@) {
                            Some(fs) => {
                                assert(before + (seq![f@] + fs) =~= out@ + fs);
                            },
                            None => {},
                        }
                    }
                    start = e + 1;
                },
            }
        }
    }

    /// The footers written one per line (what `Display` writes).
    pub fn render(&self) -> (r: Vec<char>)
        ensures
            r@ == footers_text(self@),
    {
        let mut out: Vec<char> = Vec::new();
        let n = self.items.len();
        let mut i: usize = n;
        // Built from the back: footers_text(fs[i..]).
        assert(self@.skip(n as int) =~= Seq::<FooterModel>::empty());
        while i > 0
            invariant
                i <= n == self@.len(),
                out@ == footers_text(self@.skip(i as int)),
            decreases i,
        {
            let line = self.items[i - 1].render();
            let mut next = line;
            if i < n {
                next.push('\n');
                push_all(&mut next, &out);
            }
            proof {
                let rest = self@.skip(i as int);
                assert(self@.skip(i - 1).drop_first() =~= rest);
                assert(self@.skip(i - 1)[0] == self@[i - 1]);
                if i < n {
                    assert(next@ =~= footer_text(self@[i - 1]) + seq!['\n'] + footers_text(rest));
                } else {
                    assert(self@.skip(i - 1) =~= seq![self@[i - 1]]);
                }
            }
            out = next;
            i = i - 1;
        }
        assert(self@.skip(0) =~= self@);
        out
    }

    /// The footers written one per line.
    pub fn to_string(&self) -> (s: String)
        ensures
            s@ == footers_text(self@),
    {
        let r = self.render();
        string_of(&r)
    }
}

impl Default for Footers {
    fn default() -> (r: Footers)
        ensures
            r@ == Seq::<FooterModel>::empty(),
    {
        Footers::new()
    }
}

impl Footer {
    /// Whether this footer announces a breaking change.
    pub fn is_breaking_change(&self) -> (b: bool)
        ensures
            b == is_breaking_key(self.key@),
    {
        let k = chars_of(self.key.as_str());
        if k.len() == 15 || k.len() == 16 {
            assert(k@.take(k@.len() as int) =~= k@);
            is_breaking_prefix(&k, k.len())
        } else {
            false
        }
    }

    /// The footer line as characters.
    pub fn render(&self) -> (r: Vec<char>)
        ensures
            r@ == footer_text(self@),
    {
        let mut out = chars_of(self.key.as_str());
        match self.alignment {
            SeparatorAlignment::Left => {
                out.push(self.separator);
                out.push(' ');
            },
            SeparatorAlignment::Right => {
                out.push(' ');
                out.push(self.separator);
            },
        }
        let v = chars_of(self.value.as_str());
        push_all(&mut out, &v);
        assert(out@ =~= footer_text(self@));
        out
    }

    /// The footer line (what `Display` writes).
    pub fn to_string(&self) -> (s: String)
        ensures
            s@ == footer_text(self@),
    {
        let r = self.render();
        string_of(&r)
    }
}

/// A separator that can stand in no key: neither white space nor a capital
/// letter (of which `BREAKING CHANGE` is made).
pub open spec fn is_plain_separator(c: char) -> bool {
    !is_ws(c) && !('A' <= c && c <= 'Z')
}

/// A footer that its own line gives back: its separator is one of `seps`,
/// which are all plain; its value is trimmed and not empty; its key is a
/// spaced breaking-change key or a token without white space and separators.
pub open spec fn footer_round_trips(f: FooterModel, seps: Seq<char>) -> bool {
    &&& seps.contains(f.separator)
    &&& forall|i: int| 0 <= i < seps.len() ==> is_plain_separator(#[trigger] seps[i])
    &&& f.value.len() > 0
    &&& trim(f.value) == f.value
    &&& ((is_breaking_key(f.key) && f.key[8] == ' ') || (f.key.len() > 0 && forall|i: int|
        0 <= i < f.key.len() ==> is_key_char(#[trigger] f.key[i], seps)))
}

/// The key of a footer's line ends where the key ends.
proof fn lemma_key_end_token(t: Seq<char>, seps: Seq<char>, n: int, i: int)
    requires
        0 <= i <= n < t.len(),
        forall|j: int| 0 <= j < n ==> is_key_char(#[trigger] t[j], seps),
        !is_key_char(t[n], seps),
    ensures
        key_end(t, seps, i) == n,
    decreases n - i,
{
    if i < n {
        lemma_key_end_token(t, seps, n, i + 1);
    }
}

/// Parsing the line that a footer is written as gives the footer back.
pub proof fn law_footer_line_round_trip(f: FooterModel, seps: Seq<char>)
    requires
        footer_round_trips(f, seps),
    ensures
        parse_footer_line(footer_text(f), seps) == Some(f),
{
    let t = footer_text(f);
    let n = f.key.len() as int;
    let sep = f.separator;
    let v = f.value;
    let gap = match f.alignment {
        SeparatorAlignment::Left => seq![sep, ' '],
        SeparatorAlignment::Right => seq![' ', sep],
    };
    assert(t == f.key + gap + v);
    assert(t.len() == n + 2 + v.len());
    assert(forall|j: int| 0 <= j < n ==> t[j] == f.key[j]);
    assert(t[n] == gap[0] && t[n + 1] == gap[1]);
    assert(forall|j: int| 0 <= j < v.len() ==> t[n + 2 + j] == v[j]);
    let i = choose|i: int| 0 <= i < seps.len() && seps[i] == sep;
    assert(is_plain_separator(seps[i]));
    assert(is_plain_separator(sep));
    crate::text::lemma_trimmed_ends(v);
    let bw = breaking_word();
    let cw = change_word();
    if is_breaking_key(f.key) && f.key[8] == ' ' {
        assert(t.take(n) =~= f.key);
        if n == 15 {
            assert(t.take(16)[15] == t[15]);
            assert(!is_breaking_key(t.take(16)));
            assert(t.take(15) =~= f.key);
        } else {
            assert(t.take(16) =~= f.key);
        }
        assert(key_len(t, seps) == n);
    } else {
        if t.len() >= 16 && t.take(16)[8] == ' ' && is_breaking_key(t.take(16)) {
            assert(t.take(16).take(8) == bw);
            if n > 8 {
                assert(t[8] == f.key[8]);
            } else if n < 8 {
                assert(t.take(16).take(8)[n] == t[n]);
                assert(bw[n] == t[n]);
            } else {
                assert(t.take(16).subrange(9, 15)[0] == t[9]);
                assert(cw[0] == t[9]);
            }
        }
        if t.len() >= 15 && t[8] == ' ' && is_breaking_key(t.take(15)) {
            assert(t.take(15).take(8) == bw);
            if n > 8 {
                assert(t[8] == f.key[8]);
            } else if n < 8 {
                assert(t.take(15).take(8)[n] == t[n]);
                assert(bw[n] == t[n]);
            } else {
                assert(t.take(15).subrange(9, 15)[0] == t[9]);
                assert(cw[0] == t[9]);
            }
        }
        assert(!is_key_char(t[n], seps));
        lemma_key_end_token(t, seps, n, 0);
        assert(key_len(t, seps) == n);
    }
    assert(t.take(n) =~= f.key);
    let sp = seq![' '];
    assert(all_ws(sp)) by {
        assert forall|j: int| 0 <= j < sp.len() implies is_ws(#[trigger] sp[j]) by {}
    }
    match f.alignment {
        SeparatorAlignment::Left => {
            assert(t.skip(n + 1) =~= sp + v);
            lemma_trim_after_ws(sp, v);
        },
        SeparatorAlignment::Right => {
            assert(!seps.contains(t[n])) by {
                if seps.contains(t[n]) {
                    let j = choose|j: int| 0 <= j < seps.len() && seps[j] == t[n];
                    assert(is_plain_separator(seps[j]));
                }
            }
            assert(t.skip(n + 2) =~= v);
        },
    }
}

/// The line of a footer that its line gives back is not empty, holds no line
/// break unless its value does, and neither starts nor ends with white space.
pub proof fn lemma_footer_line_shape(f: FooterModel, seps: Seq<char>)
    requires
        footer_round_trips(f, seps),
        forall|j: int| 0 <= j < f.value.len() ==> #[trigger] f.value[j] != '\n',
    ensures
        footer_text(f).len() > 0,
        forall|j: int| 0 <= j < footer_text(f).len() ==> #[trigger] footer_text(f)[j] != '\n',
        !is_ws(footer_text(f)[0]),
        !is_ws(footer_text(f)[footer_text(f).len() - 1]),
        footer_text(f)[footer_text(f).len() - 1] == f.value[f.value.len() - 1],
{
    let line = footer_text(f);
    let n = f.key.len() as int;
    crate::text::lemma_trimmed_ends(f.value);
    assert(line.len() == n + 2 + f.value.len());
    let sep = f.separator;
    let i = choose|i: int| 0 <= i < seps.len() && seps[i] == sep;
    assert(is_plain_separator(seps[i]));
    assert forall|j: int| 0 <= j < line.len() implies #[trigger] line[j] != '\n' by {
        if j < n {
            assert(line[j] == f.key[j]);
            if !(is_breaking_key(f.key) && f.key[8] == ' ') {
                assert(is_key_char(f.key[j], seps));
            } else {
                assert(f.key.take(8)[j] == f.key[j] || j >= 8);
                if j >= 9 && j < 15 {
                    assert(f.key.subrange(9, 15)[j - 9] == f.key[j]);
                }
            }
        } else if j >= n + 2 {
            assert(line[j] == f.value[j - n - 2]);
        }
    }
    if is_breaking_key(f.key) && f.key[8] == ' ' {
        assert(f.key.take(8)[0] == f.key[0]);
    } else {
        assert(is_key_char(f.key[0], seps));
    }
    assert(line[0] == f.key[0]);
    assert(line[line.len() - 1] == f.value[f.value.len() - 1]);
}

/// Parsing the lines that footers are written as gives the footers back, when
/// each footer's line gives it back and no value holds a line break.
pub proof fn law_footers_round_trip(fs: Seq<FooterModel>, seps: Seq<char>)
    requires
        fs.len() > 0,
        forall|i: int| 0 <= i < fs.len() ==> footer_round_trips(#[trigger] fs[i], seps),
        forall|i: int, j: int| 0 <= i < fs.len() && 0 <= j < fs[i].value.len() ==> #[trigger] fs[i].value[j] != '\n',
    ensures
        parse_footer_block(footers_text(fs), seps) == Some(fs),
    decreases fs.len(),
{
    let f = fs[0];
    assert(footer_round_trips(f, seps));
    let line = footer_text(f);
    law_footer_line_round_trip(f, seps);
    lemma_footer_line_shape(f, seps);
    crate::text::lemma_trimmed_ends(f.value);
    let t = footers_text(fs);
    if fs.len() == 1 {
        assert(t == line);
        lemma_find_char_from_bounds(t, '\n', 0);
        assert(find_char_from(t, '\n', 0) == t.len());
        assert(line_text(t, 0, t.len() as int) =~= t);
        assert(seq![f] =~= fs);
    } else {
        let rest = fs.drop_first();
        assert(t == line + seq!['\n'] + footers_text(rest));
        lemma_find_char_from_bounds(t, '\n', 0);
        let e = find_char_from(t, '\n', 0);
        if e < line.len() {
            assert(t[e] == line[e]);
        }
        assert(t[line.len() as int] == '\n');
        assert(e == line.len());
        assert(t[e - 1] == f.value[f.value.len() - 1]);
        assert(line_text(t, 0, e) =~= line);
        assert forall|i: int| 0 <= i < rest.len() implies footer_round_trips(#[trigger] rest[i], seps) by {
            assert(rest[i] == fs[i + 1]);
        }
        assert forall|i: int, j: int| 0 <= i < rest.len() && 0 <= j < rest[i].value.len() implies #[trigger] rest[i].value[j] != '\n' by {
            assert(rest[i] == fs[i + 1]);
        }
        law_footers_round_trip(rest, seps);
        assert(t.skip(e + 1) =~= footers_text(rest));
        assert(footers_text(rest).len() > 0);
        assert(seq![f] + rest =~= fs);
    }
}

/// The lines of footers that their lines give back are not empty: their text
/// holds no blank line, and neither starts nor ends with white space.
pub proof fn lemma_footers_text_shape(fs: Seq<FooterModel>, seps: Seq<char>)
    requires
        fs.len() > 0,
        forall|i: int| 0 <= i < fs.len() ==> footer_round_trips(#[trigger] fs[i], seps),
        forall|i: int, j: int| 0 <= i < fs.len() && 0 <= j < fs[i].value.len() ==> #[trigger] fs[i].value[j] != '\n',
    ensures
        footers_text(fs).len() > 0,
        !is_ws(footers_text(fs)[0]),
        !is_ws(footers_text(fs)[footers_text(fs).len() - 1]),
        forall|i: int| 0 <= i < footers_text(fs).len() - 1 && #[trigger] footers_text(fs)[i] == '\n' ==> footers_text(fs)[i + 1] != '\n',
    decreases fs.len(),
{
    let f = fs[0];
    assert(footer_round_trips(f, seps));
    assert forall|j: int| 0 <= j < f.value.len() implies #[trigger] f.value[j] != '\n' by {
        assert(fs[0].value[j] != '\n');
    }
    lemma_footer_line_shape(f, seps);
    let line = footer_text(f);
    let t = footers_text(fs);
    if fs.len() == 1 {
        assert(t == line);
    } else {
        let rest = fs.drop_first();
        assert forall|i: int| 0 <= i < rest.len() implies footer_round_trips(#[trigger] rest[i], seps) by {
            assert(rest[i] == fs[i + 1]);
        }
        assert forall|i: int, j: int| 0 <= i < rest.len() && 0 <= j < rest[i].value.len() implies #[trigger] rest[i].value[j] != '\n' by {
            assert(rest[i] == fs[i + 1]);
        }
        lemma_footers_text_shape(rest, seps);
        let rt = footers_text(rest);
        assert(t == line + seq!['\n'] + rt);
        assert(t[0] == line[0]);
        assert(t[t.len() - 1] == rt[rt.len() - 1]);
        assert forall|i: int| 0 <= i < t.len() - 1 && #[trigger] t[i] == '\n' implies t[i + 1] != '\n' by {
            if i < line.len() {
                assert(t[i] == line[i]);
            } else if i == line.len() {
                assert(t[i + 1] == rt[0]);
            } else {
                assert(t[i] == rt[i - line.len() - 1]);
                assert(t[i + 1] == rt[i - line.len()]);
            }
        }
    }
}

} // verus!
