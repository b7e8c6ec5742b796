//! The header (first line) of a conventional commit:
//! `type(scope, ...)!: description`.
use vstd::prelude::*;

use crate::text::{
    all_ws, first_non_ws, last_non_ws_end, lemma_trim_after_ws, lemma_trim_chars,
    lemma_trim_idempotent, chars_of, copy_range, find_char, find_char_from, is_whitespace, is_ws, lemma_find_char_from_bounds,
    push_all, string_of, string_range, trim, trim_vec,
};

verus! {

/// Scope items of a header, e.g. `db` and `ui` in `feat(db, ui): ...`.
#[derive(Debug, Clone, PartialEq)]
pub struct Scope {
    pub items: Vec<String>,
}

/// Parsed header.
#[derive(Debug, Clone, PartialEq)]
pub struct Header {
    pub kind: Option<String>,
    pub scope: Scope,
    pub description: String,
    pub breaking: bool,
}

/// Mathematical model of a header.
pub struct HeaderModel {
    pub kind: Option<Seq<char>>,
    pub scope: Seq<Seq<char>>,
    pub description: Seq<char>,
    pub breaking: bool,
}

pub open spec fn opt_view(o: Option<String>) -> Option<Seq<char>> {
    match o {
        Some(s) => Some(s@),
        None => None,
    }
}

pub open spec fn strings_view(v: Seq<String>) -> Seq<Seq<char>> {
    v.map_values(|s: String| s@)
}

impl View for Scope {
    type V = Seq<Seq<char>>;

    open spec fn view(&self) -> Seq<Seq<char>> {
        strings_view(self.items@)
    }
}

impl View for Header {
    type V = HeaderModel;

    open spec fn view(&self) -> HeaderModel {
        HeaderModel {
            kind: opt_view(self.kind),
            scope: self.scope@,
            description: self.description@,
            breaking: self.breaking,
        }
    }
}

/// Characters allowed in a commit type.
pub open spec fn is_kind_char(c: char) -> bool {
    !is_ws(c) && c != '(' && c != ')' && c != '!' && c != ':'
}

/// End of the commit type that starts at `i`.
pub open spec fn kind_end(h: Seq<char>, i: int) -> int
    decreases h.len() - i,
{
    if i >= h.len() {
        h.len() as int
    } else if is_kind_char(h[i]) {
        kind_end(h, i + 1)
    } else {
        i
    }
}

/// Scope items of the text between the parentheses: split at `,`,
/// each item trimmed, empty items dropped.
pub open spec fn split_scope(t: Seq<char>) -> Seq<Seq<char>>
    decreases t.len(),
{
    let c = find_char_from(t, ',', 0);
    let item = trim(t.take(c));
    let rest = if c < t.len() {
        proof {
            lemma_find_char_from_bounds(t, ',', 0);
        }
        split_scope(t.skip(c + 1))
    } else {
        Seq::empty()
    };
    if item.len() == 0 {
        rest
    } else {
        seq![item] + rest
    }
}

/// Scope items and the position after the scope, when the type ends at `k`.
pub open spec fn scope_after(h: Seq<char>, k: int) -> Option<(Seq<Seq<char>>, int)> {
    if k < h.len() && h[k] == '(' {
        let c = find_char_from(h, ')', k + 1);
        if c < h.len() {
            Some((split_scope(h.subrange(k + 1, c)), c + 1))
        } else {
            None
        }
    } else {
        Some((Seq::empty(), k))
    }
}

/// A header line that does not follow the `type(scope)!: description` form.
pub open spec fn plain_header(h: Seq<char>) -> HeaderModel {
    HeaderModel { kind: None, scope: Seq::empty(), description: trim(h), breaking: false }
}

/// The header that a header line denotes.
pub open spec fn parse_header(h: Seq<char>) -> HeaderModel {
    let k = kind_end(h, 0);
    match scope_after(h, k) {
        Some((items, p)) => {
            let bang = p < h.len() && h[p] == '!';
            let q = if bang {
                p + 1
            } else {
                p
            };
            if k > 0 && q < h.len() && h[q] == ':' {
                HeaderModel {
                    kind: Some(h.take(k)),
                    scope: items,
                    description: trim(h.skip(q + 1)),
                    breaking: bang,
                }
            } else {
                plain_header(h)
            }
        },
        None => plain_header(h),
    }
}

/// `items` joined with `sep`.
pub open spec fn join(items: Seq<Seq<char>>, sep: Seq<char>) -> Seq<char>
    decreases items.len(),
{
    if items.len() == 0 {
        Seq::empty()
    } else if items.len() == 1 {
        items[0]
    } else {
        items[0] + sep + join(items.drop_first(), sep)
    }
}

/// `(a, b)` for a non-empty scope, nothing for an empty one.
pub open spec fn scope_text(items: Seq<Seq<char>>) -> Seq<char> {
    if items.len() == 0 {
        Seq::empty()
    } else {
        seq!['('] + join(items, seq![',', ' ']) + seq![')']
    }
}

/// The header line that a header is written as.
pub open spec fn header_text(h: HeaderModel) -> Seq<char> {
    match h.kind {
        None => h.description,
        Some(k) => k + scope_text(h.scope) + (if h.breaking {
            seq!['!']
        } else {
            Seq::empty()
        }) + seq![':', ' '] + h.description,
    }
}

pub proof fn lemma_kind_end_bounds(h: Seq<char>, i: int)
    requires
        0 <= i <= h.len(),
    ensures
        i <= kind_end(h, i) <= h.len(),
        forall|j: int| i <= j < kind_end(h, i) ==> is_kind_char(#[trigger] h[j]),
        kind_end(h, i) < h.len() ==> !is_kind_char(h[kind_end(h, i)]),
    decreases h.len() - i,
{
    if i < h.len() && is_kind_char(h[i]) {
        lemma_kind_end_bounds(h, i + 1);
    }
}

fn kind_end_exec(v: &Vec<char>) -> (r: usize)
    ensures
        r == kind_end(v@, 0),
{
    let mut k: usize = 0;
    while k < v.len() && !is_whitespace(v[k]) && v[k] != '(' && v[k] != ')' && v[k] != '!' && v[k]
        != ':'
        invariant
            k <= v.len(),
            kind_end(v@, 0) == kind_end(v@, k as int),
        decreases v.len() - k,
    {
        k = k + 1;
    }
    k
}

/// Scope items of `v` (the text between the parentheses).
fn split_scope_exec(v: &Vec<char>) -> (r: Vec<String>)
    ensures
        strings_view(r@) == split_scope(v@),
{
    let mut out: Vec<String> = Vec::new();
    let mut start: usize = 0;
    assert(v@.skip(0) =~= v@);
    loop
        invariant
            start <= v.len(),
            strings_view(out@) + split_scope(v@.skip(start as int)) == split_scope(v@),
        decreases v.len() - start,
    {
        let ghost t = v@.skip(start as int);
        let c = find_char(v, ',', start);
        proof {
            lemma_find_char_from_bounds(v@, ',', start as int);
            lemma_find_char_from_bounds(t, ',', 0);
            assert forall|k: int| 0 <= k < t.len() implies t[k] == v@[start + k] by {}
            lemma_find_shift(v@, ',', start as int);
        }
        let piece = copy_range(v, start, c);
        let item = trim_vec(&piece);
        proof {
            assert(piece@ =~= t.take(c - start));
        }
        let ghost old_out = strings_view(out@);
        if item.len() > 0 {
            let s = string_of(&item);
            out.push(s);
            assert(strings_view(out@) =~= old_out + seq![item@]);
        }
        if c < v.len() {
            proof {
                assert(t.skip(c - start + 1) =~= v@.skip(c + 1));
            }
            start = c + 1;
        } else {
            assert(strings_view(out@) =~= strings_view(out@) + Seq::<Seq<char>>::empty());
            return out;
        }
    }
}

/// `find_char_from` on a suffix, in the indices of the whole text.
pub proof fn lemma_find_shift(s: Seq<char>, c: char, start: int)
    requires
        0 <= start <= s.len(),
    ensures
        find_char_from(s.skip(start), c, 0) == find_char_from(s, c, start) - start,
{
    lemma_find_shift_from(s, c, start, 0);
}

pub proof fn lemma_find_shift_from(s: Seq<char>, c: char, start: int, i: int)
    requires
        0 <= start <= s.len(),
        0 <= i <= s.len() - start,
    ensures
        find_char_from(s.skip(start), c, i) == find_char_from(s, c, start + i) - start,
    decreases s.len() - start - i,
{
    if i < s.len() - start && s[start + i] != c {
        lemma_find_shift_from(s, c, start, i + 1);
    }
}

impl Scope {
    /// An empty scope.
    pub fn new() -> (s: Scope)
        ensures
            s@ == Seq::<Seq<char>>::empty(),
    {
        Scope { items: Vec::new() }
    }

    /// Number of scope items.
    pub fn len(&self) -> (n: usize)
        ensures
            n == self@.len(),
    {
        self.items.len()
    }

    /// Whether the scope has no items.
    pub fn is_empty(&self) -> (b: bool)
        ensures
            b == (self@.len() == 0),
    {
        self.items.len() == 0
    }

    /// Length in characters of the scope as written, parentheses included
    /// (`(db, ui)` is 8); 0 for an empty scope.
    pub fn str_len(&self) -> (n: usize)
        ensures
            n == scope_text(self@).len(),
    {
        let text = self.render();
        text.len()
    }

    /// The scope as written: `(a, b)`, or nothing when it is empty.
    pub fn render(&self) -> (r: Vec<char>)
        ensures
            r@ == scope_text(self@),
    {
        let mut out: Vec<char> = Vec::new();
        if self.items.len() == 0 {
            return out;
        }
        out.push('(');
        let mut i: usize = 0;
        while i < self.items.len()
            invariant
                0 < self.items.len(),
                i <= self.items.len(),
                out@ == (if i == 0 {
                    seq!['(']
                } else {
                    seq!['('] + join(self@.take(i as int), seq![',', ' '])
                }),
            decreases self.items.len() - i,
        {
            let ghost before = out@;
            if i > 0 {
                out.push(',');
                out.push(' ');
            }
            let item = crate::text::chars_of(self.items[i].as_str());
            push_all(&mut out, &item);
            proof {
                lemma_join_push(self@.take(i as int), self@[i as int], seq![',', ' ']);
                assert(self@.take(i + 1) =~= self@.take(i as int).push(self@[i as int]));
                if i == 0 {
                    assert(self@.take(1) =~= seq![self@[0]]);
                    assert(out@ =~= seq!['('] + join(self@.take(1), seq![',', ' ']));
                } else {
                    assert(out@ =~= seq!['('] + join(self@.take(i + 1), seq![',', ' ']));
                }
            }
            i = i + 1;
        }
        out.push(')');
        assert(self@.take(self@.len() as int) =~= self@);
        out
    }
}

/// Joining one more item at the end.
pub proof fn lemma_join_push(items: Seq<Seq<char>>, x: Seq<char>, sep: Seq<char>)
    ensures
        join(items.push(x), sep) == (if items.len() == 0 {
            x
        } else {
            join(items, sep) + sep + x
        }),
    decreases items.len(),
{
    if items.len() == 0 {
    } else if items.len() == 1 {
        assert(items.push(x).drop_first() =~= seq![x]);
        assert(join(items.push(x).drop_first(), sep) == x);
    } else {
        assert(items.push(x).drop_first() =~= items.drop_first().push(x));
        lemma_join_push(items.drop_first(), x, sep);
        assert(join(items.push(x), sep) == items[0] + sep + join(items.drop_first().push(x), sep));
        assert(join(items.push(x), sep) =~= join(items, sep) + sep + x);
    }
}

impl Default for Scope {
    fn default() -> (s: Scope)
        ensures
            s@ == Seq::<Seq<char>>::empty(),
    {
        Scope::new()
    }
}

impl Header {
    /// Parses a header line (`Header::from(&str)`).
    pub fn parse(line: &str) -> (h: Header)
        ensures
            h@ == parse_header(line@),
    {
        let v = chars_of(line);
        Self::parse_chars(&v)
    }

    /// Parses a header line given as characters.
    pub fn parse_chars(v: &Vec<char>) -> (h: Header)
        ensures
            h@ == parse_header(v@),
    {
        let k = kind_end_exec(v);
        proof {
            lemma_kind_end_bounds(v@, 0);
        }
        let n = v.len();
        let mut items: Vec<String> = Vec::new();
        let mut p = k;
        if k < n && v[k] == '(' {
            let c = find_char(v, ')', k + 1);
            proof {
                lemma_find_char_from_bounds(v@, ')', k + 1);
            }
            if c >= n {
                return Self::plain(v);
            }
            let inner = copy_range(v, k + 1, c);
            items = split_scope_exec(&inner);
            p = c + 1;
        }
        let bang = p < n && v[p] == '!';
        let q = if bang {
            p + 1
        } else {
            p
        };
        if k > 0 && q < n && v[q] == ':' {
            let kind = string_range(v, 0, k);
            let rest = copy_range(v, q + 1, n);
            let desc = trim_vec(&rest);
            proof {
                assert(v@.subrange(0, k as int) =~= v@.take(k as int));
                assert(v@.subrange(q + 1, n as int) =~= v@.skip(q + 1));
            }
            let h = Header {
                kind: Some(kind),
                scope: Scope { items },
                description: string_of(&desc),
                breaking: bang,
            };
            proof {
                let e = parse_header(v@);
                assert(scope_after(v@, k as int) matches Some((its, pp)) && its == h@.scope && pp == p);
                assert(h@.kind == e.kind);
                assert(h@.scope == e.scope);
                assert(h@.description == e.description);
            }
            h
        } else {
            Self::plain(v)
        }
    }

    fn plain(v: &Vec<char>) -> (h: Header)
        ensures
            h@ == plain_header(v@),
    {
        let d = trim_vec(v);
        let h = Header { kind: None, scope: Scope::new(), description: string_of(&d), breaking: false };
        assert(h@.scope =~= Seq::<Seq<char>>::empty());
        h
    }

    /// The header line as characters.
    pub fn render(&self) -> (r: Vec<char>)
        ensures
            r@ == header_text(self@),
    {
        match &self.kind {
            None => chars_of(self.description.as_str()),
            Some(k) => {
                let mut out = chars_of(k.as_str());
                let scope = self.scope.render();
                push_all(&mut out, &scope);
                if self.breaking {
                    out.push('!');
                }
                out.push(':');
                out.push(' ');
                let d = chars_of(self.description.as_str());
                push_all(&mut out, &d);
                proof {
                    let k_v = k@;
                    if self.breaking {
                        assert(out@ =~= header_text(self@));
                    } else {
                        assert(out@ =~= header_text(self@));
                    }
                }
                out
            },
        }
    }

    /// The header line (what `Display` writes).
    pub fn to_string(&self) -> (s: String)
        ensures
            s@ == header_text(self@),
    {
        let r = self.render();
        string_of(&r)
    }
}

/// What separates scope items as written.
pub open spec fn scope_separator() -> Seq<char> {
    seq![',', ' ']
}

/// A scope item as parsing gives it: not empty, trimmed, without `,` and `)`.
pub open spec fn is_scope_item(t: Seq<char>) -> bool {
    &&& t.len() > 0
    &&& trim(t) == t
    &&& forall|i: int| 0 <= i < t.len() ==> #[trigger] t[i] != ',' && t[i] != ')'
}

/// A header that its own line gives back: a typed header whose type is made
/// of type characters, whose scope items are as parsing gives them and whose
/// description is trimmed; or an untyped, unscoped, non-breaking header whose
/// trimmed description is no typed header line.
pub open spec fn header_round_trips(h: HeaderModel) -> bool {
    match h.kind {
        Some(k) => {
            &&& k.len() > 0
            &&& forall|i: int| 0 <= i < k.len() ==> is_kind_char(#[trigger] k[i])
            &&& forall|i: int| 0 <= i < h.scope.len() ==> is_scope_item(#[trigger] h.scope[i])
            &&& trim(h.description) == h.description
        },
        None => {
            &&& h.scope.len() == 0
            &&& !h.breaking
            &&& trim(h.description) == h.description
            &&& parse_header(h.description).kind is None
        },
    }
}

/// The text that joining scope items with `, ` gives holds no `)`.
proof fn lemma_join_no_paren(items: Seq<Seq<char>>)
    requires
        forall|i: int| 0 <= i < items.len() ==> is_scope_item(#[trigger] items[i]),
    ensures
        forall|j: int| 0 <= j < join(items, scope_separator()).len() ==> #[trigger] join(
            items,
            scope_separator(),
        )[j] != ')',
    decreases items.len(),
{
    if items.len() >= 2 {
        let rest = items.drop_first();
        assert forall|i: int| 0 <= i < rest.len() implies is_scope_item(#[trigger] rest[i]) by {
            assert(rest[i] == items[i + 1]);
        }
        lemma_join_no_paren(rest);
        let x = items[0];
        assert(is_scope_item(items[0]));
        let t = join(items, scope_separator());
        assert(t == x + scope_separator() + join(rest, scope_separator()));
        assert forall|j: int| 0 <= j < t.len() implies #[trigger] t[j] != ')' by {
            if j < x.len() {
                assert(t[j] == x[j]);
            } else if j >= x.len() + 2 {
                assert(t[j] == join(rest, scope_separator())[j - x.len() - 2]);
            } else {
                assert(t[j] == scope_separator()[j - x.len()]);
            }
        }
    } else if items.len() == 1 {
        assert(is_scope_item(items[0]));
    }
}

/// Splitting white space followed by scope items joined with `, ` gives the
/// items back.
proof fn lemma_split_join(w: Seq<char>, items: Seq<Seq<char>>)
    requires
        all_ws(w),
        forall|i: int| 0 <= i < items.len() ==> is_scope_item(#[trigger] items[i]),
    ensures
        split_scope(w + join(items, seq![',', ' '])) == items,
    decreases items.len(),
{
    let t = w + join(items, seq![',', ' ']);
    lemma_find_char_from_bounds(t, ',', 0);
    let c = find_char_from(t, ',', 0);
    if items.len() == 0 {
        assert(t =~= w);
        if c < t.len() {
            assert(is_ws(t[c]));
        }
        assert(t.take(c) =~= w);
        let e = Seq::<char>::empty();
        assert(first_non_ws(e, 0) == 0);
        assert(last_non_ws_end(e, 0) == 0);
        assert(trim(e) =~= e);
        lemma_trim_after_ws(w, e);
        assert(w + e =~= w);
    } else {
        let x = items[0];
        assert(is_scope_item(x));
        let rest = items.drop_first();
        let tail = if items.len() == 1 {
            Seq::<char>::empty()
        } else {
            seq![',', ' '] + join(rest, seq![',', ' '])
        };
        assert(t =~= w + x + tail);
        let e = (w.len() + x.len()) as int;
        if c < e {
            if c < w.len() {
                assert(t[c] == w[c]);
                assert(is_ws(w[c]));
            } else {
                assert(t[c] == x[c - w.len()]);
            }
        }
        assert(t.take(e) =~= w + x);
        lemma_trim_after_ws(w, x);
        if items.len() == 1 {
            assert(t.len() == e);
            assert(c == e);
            assert(split_scope(t) == seq![x] + Seq::<Seq<char>>::empty());
            assert(seq![x] + Seq::<Seq<char>>::empty() =~= items);
        } else {
            assert(t[e] == ',');
            assert(c == e);
            assert forall|i: int| 0 <= i < rest.len() implies is_scope_item(#[trigger] rest[i]) by {
                assert(rest[i] == items[i + 1]);
            }
            let sp = seq![' '];
            assert(all_ws(sp)) by {
                assert forall|i: int| 0 <= i < sp.len() implies is_ws(#[trigger] sp[i]) by {}
            }
            lemma_split_join(sp, rest);
            assert(t.skip(c + 1) =~= sp + join(rest, seq![',', ' ']));
            assert(seq![x] + rest =~= items);
        }
    }
}

/// The type ends where the type characters that start the line end.
proof fn lemma_kind_end_at(t: Seq<char>, n: int, i: int)
    requires
        0 <= i <= n < t.len(),
        forall|j: int| 0 <= j < n ==> is_kind_char(#[trigger] t[j]),
        !is_kind_char(t[n]),
    ensures
        kind_end(t, i) == n,
    decreases n - i,
{
    if i < n {
        lemma_kind_end_at(t, n, i + 1);
    }
}

/// Parsing the line that a header is written as gives the header back, for
/// every header that parsing can give in the typed form, and for an untyped
/// one whose description reads as no typed header.
pub proof fn law_header_round_trip(h: HeaderModel)
    requires
        header_round_trips(h),
    ensures
        parse_header(header_text(h)) == h,
{
    match h.kind {
        None => {
            assert(h.scope =~= Seq::<Seq<char>>::empty());
            assert(parse_header(h.description) == plain_header(h.description));
        },
        Some(k) => {
            let st = scope_text(h.scope);
            let bang = if h.breaking {
                seq!['!']
            } else {
                Seq::<char>::empty()
            };
            let d = h.description;
            let t = header_text(h);
            assert(t == k + st + bang + seq![':', ' '] + d);
            let n = k.len() as int;
            let p = n + st.len();
            let q = p + bang.len();
            assert(t[q] == ':');
            assert(forall|j: int| 0 <= j < n ==> t[j] == k[j]);
            if h.scope.len() > 0 {
                assert(t[n] == '(');
            } else if h.breaking {
                assert(t[n] == '!');
            }
            lemma_kind_end_at(t, n, 0);
            let items = h.scope;
            if items.len() > 0 {
                let jn = join(items, scope_separator());
                lemma_join_no_paren(items);
                assert(st == seq!['('] + jn + seq![')']);
                assert(t[n + 1 + jn.len()] == ')');
                lemma_find_char_from_bounds(t, ')', n + 1);
                let c = find_char_from(t, ')', n + 1);
                if c < n + 1 + jn.len() {
                    assert(t[c] == jn[c - n - 1]);
                }
                assert(c == n + 1 + jn.len());
                assert(t.subrange(n + 1, c) =~= Seq::<char>::empty() + jn);
                lemma_split_join(Seq::<char>::empty(), items);
                assert(scope_after(t, n) == Some((items, p)));
            } else {
                assert(scope_after(t, n) == Some((items, p)));
            }
            if h.breaking {
                assert(t[p] == '!');
            } else {
                assert(t[p] == ':');
            }
            let sp = seq![' '];
            assert(t.skip(q + 1) =~= sp + d);
            assert(all_ws(sp)) by {
                assert forall|i: int| 0 <= i < sp.len() implies is_ws(#[trigger] sp[i]) by {}
            }
            lemma_trim_after_ws(sp, d);
            assert(t.take(n) =~= k);
        },
    }
}

/// The scope items of a text without `)` are as parsing gives them.
proof fn lemma_split_scope_items(t: Seq<char>)
    requires
        forall|j: int| 0 <= j < t.len() ==> #[trigger] t[j] != ')',
    ensures
        forall|i: int| 0 <= i < split_scope(t).len() ==> is_scope_item(#[trigger] split_scope(t)[i]),
    decreases t.len(),
{
    lemma_find_char_from_bounds(t, ',', 0);
    let c = find_char_from(t, ',', 0);
    let piece = t.take(c);
    let item = trim(piece);
    lemma_trim_idempotent(piece);
    lemma_trim_chars(piece);
    let f = first_non_ws(piece, 0);
    assert(piece.len() == c);
    assert(f + item.len() <= piece.len());
    assert(f >= 0) by {
        crate::text::lemma_first_non_ws_bounds(piece, 0);
    }
    assert forall|i: int| 0 <= i < item.len() implies #[trigger] item[i] != ',' && item[i] != ')' by {
        assert(item[i] == piece[i + f]);
        assert(piece[i + f] == t[i + f]);
    }
    let rest = if c < t.len() {
        split_scope(t.skip(c + 1))
    } else {
        Seq::empty()
    };
    if c < t.len() {
        let u = t.skip(c + 1);
        assert forall|j: int| 0 <= j < u.len() implies #[trigger] u[j] != ')' by {
            assert(u[j] == t[j + c + 1]);
        }
        lemma_split_scope_items(u);
    }
    assert(split_scope(t) == (if item.len() == 0 {
        rest
    } else {
        seq![item] + rest
    }));
    if item.len() > 0 {
        assert forall|i: int| 0 <= i < split_scope(t).len() implies is_scope_item(
            #[trigger] split_scope(t)[i],
        ) by {
            if i > 0 {
                assert(split_scope(t)[i] == rest[i - 1]);
            }
        }
    }
}

/// Every typed header that parsing gives is one that its own line gives back.
pub proof fn law_parsed_header_round_trips(line: Seq<char>)
    requires
        parse_header(line).kind is Some,
    ensures
        header_round_trips(parse_header(line)),
        parse_header(header_text(parse_header(line))) == parse_header(line),
{
    let h = parse_header(line);
    let k = kind_end(line, 0);
    lemma_kind_end_bounds(line, 0);
    assert(h.kind == Some(line.take(k)));
    let kt = line.take(k);
    assert forall|i: int| 0 <= i < kt.len() implies is_kind_char(#[trigger] kt[i]) by {
        assert(kt[i] == line[i]);
    }
    if k < line.len() && line[k] == '(' {
        let c = find_char_from(line, ')', k + 1);
        lemma_find_char_from_bounds(line, ')', k + 1);
        let inner = line.subrange(k + 1, c);
        assert forall|j: int| 0 <= j < inner.len() implies #[trigger] inner[j] != ')' by {
            assert(inner[j] == line[k + 1 + j]);
        }
        lemma_split_scope_items(inner);
    }
    match scope_after(line, k) {
        Some((items, p)) => {
            let bang = p < line.len() && line[p] == '!';
            let q = if bang {
                p + 1
            } else {
                p
            };
            lemma_trim_idempotent(line.skip(q + 1));
        },
        None => {},
    }
    law_header_round_trip(h);
}

} // verus!
