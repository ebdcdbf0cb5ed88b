use vstd::prelude::*;

use quick_xml::escape::unescape;
use quick_xml::events::attributes::Attributes;
use quick_xml::events::Event;
use quick_xml::Reader;

verus! {

// ---------------------------------------------------------------------------
// Tokens
// ---------------------------------------------------------------------------

#[derive(Debug, Clone)]
pub struct XmlAttribute {
    pub key: String,
    pub value: String,
}

/// One step of a document read in order. An empty element `<a/>` is read as
/// an `Open` directly followed by a `Close`.
#[derive(Debug, Clone)]
pub enum XmlToken {
    Open { name: String, attributes: Vec<XmlAttribute> },
    Close,
    Text(String),
}

/// The document could not be read, or does not have the expected shape.
#[derive(Debug, Clone, Copy, PartialEq, Eq, Structural)]
pub struct DecodeError;

// ---------------------------------------------------------------------------
// The structure of a token sequence
// ---------------------------------------------------------------------------

pub open spec fn delta(t: XmlToken) -> int {
    match t {
        XmlToken::Open { .. } => 1,
        XmlToken::Close => -1,
        XmlToken::Text(_) => 0,
    }
}

/// How many elements are open just before token `k`.
pub open spec fn depth(ts: Seq<XmlToken>, k: int) -> int
    decreases k,
{
    if k <= 0 {
        0
    } else {
        depth(ts, k - 1) + delta(ts[k - 1])
    }
}

/// No `Close` without a matching `Open` before it, and every element closed
/// by the end.
pub open spec fn nested(ts: Seq<XmlToken>) -> bool {
    &&& forall|k: int| 0 <= k <= ts.len() ==> depth(ts, k) >= 0
    &&& depth(ts, ts.len() as int) == 0
}

pub open spec fn depths_of(ts: Seq<XmlToken>, ds: Seq<usize>) -> bool {
    &&& ds.len() == ts.len() + 1
    &&& forall|k: int| 0 <= k <= ts.len() ==> ds[k] as int == depth(ts, k)
}

/// The first index in `lo..hi` that satisfies `p`.
pub open spec fn first_where(p: spec_fn(int) -> bool, lo: int, hi: int) -> Option<int>
    decreases hi - lo,
{
    if hi <= lo {
        None
    } else {
        match first_where(p, lo, hi - 1) {
            Some(k) => Some(k),
            None => if p(hi - 1) {
                Some(hi - 1)
            } else {
                None
            },
        }
    }
}

/// Every index in `lo..hi` that satisfies `p`, in increasing order.
pub open spec fn all_where(p: spec_fn(int) -> bool, lo: int, hi: int) -> Seq<int>
    decreases hi - lo,
{
    if hi <= lo {
        seq![]
    } else {
        let s = all_where(p, lo, hi - 1);
        if p(hi - 1) {
            s.push(hi - 1)
        } else {
            s
        }
    }
}

pub open spec fn closes_at(ts: Seq<XmlToken>, d: int) -> spec_fn(int) -> bool {
    |k: int| 0 <= k < ts.len() && ts[k] is Close && depth(ts, k) == d + 1
}

/// Index of the `Close` of the element opened at `i`, or the length of the
/// sequence when it is never closed.
pub open spec fn elem_end(ts: Seq<XmlToken>, i: int) -> int {
    match first_where(closes_at(ts, depth(ts, i)), i + 1, ts.len() as int) {
        Some(e) => e,
        None => ts.len() as int,
    }
}

pub open spec fn token_name(t: XmlToken) -> Seq<char> {
    match t {
        XmlToken::Open { name, .. } => name@,
        _ => seq![],
    }
}

/// An element opened at `k` at depth `d`.
pub open spec fn opens_at(ts: Seq<XmlToken>, d: int) -> spec_fn(int) -> bool {
    |k: int| 0 <= k < ts.len() && ts[k] is Open && depth(ts, k) == d
}

/// An element named `name` opened at `k` at depth `d`.
pub open spec fn opens_named_at(ts: Seq<XmlToken>, d: int, name: Seq<char>) -> spec_fn(
    int,
) -> bool {
    |k: int| 0 <= k < ts.len() && ts[k] is Open && depth(ts, k) == d && token_name(ts[k]) == name
}

pub open spec fn text_piece(ts: Seq<XmlToken>, d: int, k: int) -> Seq<char> {
    match ts[k] {
        XmlToken::Text(s) => if depth(ts, k) == d {
            s@
        } else {
            seq![]
        },
        _ => seq![],
    }
}

/// The text tokens in `lo..hi` at depth `d`, joined.
pub open spec fn text_between(ts: Seq<XmlToken>, d: int, lo: int, hi: int) -> Seq<char>
    decreases hi - lo,
{
    if hi <= lo {
        seq![]
    } else {
        text_between(ts, d, lo, hi - 1) + text_piece(ts, d, hi - 1)
    }
}

/// The text directly inside the element opened at `i`.
pub open spec fn elem_text(ts: Seq<XmlToken>, i: int) -> Seq<char> {
    text_between(ts, depth(ts, i) + 1, i + 1, elem_end(ts, i))
}

/// The first child element of `i` named `name`.
pub open spec fn child(ts: Seq<XmlToken>, i: int, name: Seq<char>) -> Option<int> {
    first_where(opens_named_at(ts, depth(ts, i) + 1, name), i + 1, elem_end(ts, i))
}

/// Every child element of `i` named `name`, in document order.
pub open spec fn children_named(ts: Seq<XmlToken>, i: int, name: Seq<char>) -> Seq<int> {
    all_where(opens_named_at(ts, depth(ts, i) + 1, name), i + 1, elem_end(ts, i))
}

/// Every child element of `i`, in document order.
pub open spec fn child_elements(ts: Seq<XmlToken>, i: int) -> Seq<int> {
    all_where(opens_at(ts, depth(ts, i) + 1), i + 1, elem_end(ts, i))
}

/// The text of the first child of `i` named `name`, if there is one.
pub open spec fn field(ts: Seq<XmlToken>, i: int, name: Seq<char>) -> Option<Seq<char>> {
    match child(ts, i, name) {
        Some(c) => Some(elem_text(ts, c)),
        None => None,
    }
}

/// The texts of every child of `i` named `name`; `None` when there is none.
pub open spec fn field_list(ts: Seq<XmlToken>, i: int, name: Seq<char>) -> Option<
    Seq<Seq<char>>,
> {
    let cs = children_named(ts, i, name);
    if cs.len() == 0 {
        None
    } else {
        Some(cs.map_values(|c: int| elem_text(ts, c)))
    }
}

pub open spec fn attrs_of(t: XmlToken) -> Seq<XmlAttribute> {
    match t {
        XmlToken::Open { attributes, .. } => attributes@,
        _ => seq![],
    }
}

pub open spec fn key_at(a: Seq<XmlAttribute>, key: Seq<char>) -> spec_fn(int) -> bool {
    |j: int| 0 <= j < a.len() && a[j].key@ == key
}

/// The value of the first attribute of the element at `i` with key `key`.
pub open spec fn attr(ts: Seq<XmlToken>, i: int, key: Seq<char>) -> Option<Seq<char>> {
    let a = attrs_of(ts[i]);
    match first_where(key_at(a, key), 0, a.len() as int) {
        Some(j) => Some(a[j].value@),
        None => None,
    }
}

// ---------------------------------------------------------------------------
// Lemmas on searches
// ---------------------------------------------------------------------------

pub proof fn lemma_first_found(p: spec_fn(int) -> bool, lo: int, k: int, hi: int)
    requires
        lo <= k < hi,
        first_where(p, lo, k) is None,
        p(k),
    ensures
        first_where(p, lo, hi) == Some(k),
    decreases hi - k,
{
    if hi > k + 1 {
        lemma_first_found(p, lo, k, hi - 1);
    }
}

/// A search that finds every match finds a first one when there is any.
pub proof fn lemma_all_has_first(p: spec_fn(int) -> bool, lo: int, hi: int)
    requires
        all_where(p, lo, hi).len() > 0,
    ensures
        first_where(p, lo, hi) is Some,
    decreases hi - lo,
{
    if hi > lo {
        if all_where(p, lo, hi - 1).len() > 0 {
            lemma_all_has_first(p, lo, hi - 1);
        }
    }
}

/// When a first match exists, the list of every match is not empty.
pub proof fn lemma_first_in_all(p: spec_fn(int) -> bool, lo: int, hi: int)
    requires
        first_where(p, lo, hi) is Some,
    ensures
        all_where(p, lo, hi).len() > 0,
    decreases hi - lo,
{
    if hi > lo {
        if first_where(p, lo, hi - 1) is Some {
            lemma_first_in_all(p, lo, hi - 1);
        }
    }
}

// ---------------------------------------------------------------------------
// Integers
// ---------------------------------------------------------------------------

pub open spec fn is_digit(c: char) -> bool {
    '0' <= c && c <= '9'
}

pub open spec fn digit_value(c: char) -> int {
    c as int - '0' as int
}

/// The value of a run of decimal digits.
pub open spec fn digits_value(t: Seq<char>) -> int
    decreases t.len(),
{
    if t.len() == 0 {
        0
    } else {
        digits_value(t.drop_last()) * 10 + digit_value(t.last())
    }
}

pub open spec fn all_digits(t: Seq<char>) -> bool {
    t.len() > 0 && forall|j: int| 0 <= j < t.len() ==> is_digit(#[trigger] t[j])
}

/// A decimal integer: digits, optionally after a `-` or a `+`.
pub open spec fn integer_value(t: Seq<char>) -> Option<int> {
    if t.len() > 0 && (t[0] == '-' || t[0] == '+') {
        if all_digits(t.drop_first()) {
            Some(if t[0] == '-' { -digits_value(t.drop_first()) } else { digits_value(t.drop_first()) })
        } else {
            None
        }
    } else if all_digits(t) {
        Some(digits_value(t))
    } else {
        None
    }
}

/// A decimal integer within `lo..=hi`.
pub open spec fn integer_in(t: Seq<char>, lo: int, hi: int) -> Option<int> {
    match integer_value(t) {
        Some(v) => if lo <= v <= hi {
            Some(v)
        } else {
            None
        },
        None => None,
    }
}

pub const SATURATION: i64 = 0x100_0000_0000;

proof fn lemma_digits_nonneg(t: Seq<char>)
    requires
        forall|j: int| 0 <= j < t.len() ==> is_digit(#[trigger] t[j]),
    ensures
        digits_value(t) >= 0,
    decreases t.len(),
{
    if t.len() > 0 {
        assert forall|j: int| 0 <= j < t.drop_last().len() implies is_digit(
            #[trigger] t.drop_last()[j],
        ) by {
            assert(t.drop_last()[j] == t[j]);
        }
        lemma_digits_nonneg(t.drop_last());
    }
}

proof fn lemma_saturate_step(v: int, d: int, c: int)
    requires
        v >= 0,
        0 <= d <= 9,
        c > 0,
    ensures
        (if v < c { v } else { c }) * 10 + d >= c <==> v * 10 + d >= c,
        v < c && v * 10 + d < c ==> (if v < c { v } else { c }) * 10 + d == v * 10 + d,
{
    assert(v >= c ==> v * 10 + d >= c) by (nonlinear_arith)
        requires
            c > 0,
            d >= 0,
    ;
    assert(c * 10 + d >= c) by (nonlinear_arith)
        requires
            c > 0,
            d >= 0,
    ;
}

/// Reads `s` as a decimal integer within `lo..=hi`.
pub fn parse_integer(s: &String, lo: i64, hi: i64) -> (r: Option<i64>)
    requires
        -SATURATION < lo <= hi < SATURATION,
    ensures
        r matches Some(v) ==> integer_in(s@, lo as int, hi as int) == Some(v as int),
        r is None ==> integer_in(s@, lo as int, hi as int) is None,
{
    let t = s.as_str();
    let n = t.unicode_len();
    let ghost sv = s@;
    if n == 0 {
        return None;
    }
    let first = t.get_char(0);
    let negative = first == '-';
    let signed = negative || first == '+';
    let start: usize = if signed { 1 } else { 0 };
    if start >= n {
        return None;
    }
    let mut acc: i64 = 0;
    let mut k: usize = start;
    while k < n
        invariant
            t@ == sv,
            s@ == sv,
            n == sv.len(),
            start <= k <= n,
            start < n,
            start == (if signed { 1usize } else { 0usize }),
            negative == (sv[0] == '-'),
            signed == (sv[0] == '-' || sv[0] == '+'),
            forall|j: int| start <= j < k ==> is_digit(#[trigger] sv[j]),
            digits_value(sv.subrange(start as int, k as int)) >= 0,
            acc == (if digits_value(sv.subrange(start as int, k as int)) < SATURATION {
                digits_value(sv.subrange(start as int, k as int))
            } else {
                SATURATION as int
            }),
        decreases n - k,
    {
        let c = t.get_char(k);
        if !('0' <= c && c <= '9') {
            proof {
                if signed {
                    assert(sv.drop_first()[k - 1] == c);
                    assert(!all_digits(sv.drop_first()));
                    assert(integer_value(sv) is None);
                } else {
                    assert(sv[k as int] == c);
                    assert(!all_digits(sv));
                    assert(integer_value(sv) is None);
                }
            }
            return None;
        }
        let ghost prev = sv.subrange(start as int, k as int);
        let ghost next = sv.subrange(start as int, k + 1);
        proof {
            assert(next.drop_last() =~= prev);
            assert(next.last() == c);
            lemma_saturate_step(digits_value(prev), digit_value(c), SATURATION as int);
        }
        let d = (c as u32 - '0' as u32) as i64;
        let grown = acc * 10 + d;
        acc = if grown < SATURATION { grown } else { SATURATION };
        k = k + 1;
    }
    proof {
        let u = sv.subrange(start as int, n as int);
        if signed {
            assert(sv.drop_first() =~= u);
        } else {
            assert(sv =~= u);
        }
        assert forall|j: int| 0 <= j < u.len() implies is_digit(#[trigger] u[j]) by {
            assert(u[j] == sv[j + start]);
        }
    }
    if acc >= SATURATION {
        return None;
    }
    let v = if negative { -acc } else { acc };
    if lo <= v && v <= hi {
        Some(v)
    } else {
        None
    }
}

// ---------------------------------------------------------------------------
// A token sequence with the depth before each token
// ---------------------------------------------------------------------------

pub open spec fn as_ints(v: Seq<usize>) -> Seq<int> {
    v.map_values(|x: usize| x as int)
}

pub(crate) fn same_text(a: &String, b: &str) -> (r: bool)
    ensures
        r == (a@ == b@),
{
    let b = String::from_str(b);
    a.eq(&b)
}

/// A nested token sequence, with the depth before each token.
pub struct XmlDocument {
    pub tokens: Vec<XmlToken>,
    pub depths: Vec<usize>,
}

impl XmlDocument {
    pub open spec fn wf(&self) -> bool {
        &&& depths_of(self.tokens@, self.depths@)
        &&& forall|k: int| 0 <= k < self.depths@.len() ==> self.depths@[k] <= k
    }

    pub open spec fn ts(&self) -> Seq<XmlToken> {
        self.tokens@
    }

    /// Accepts the tokens if no `Close` comes without its `Open` and every
    /// element is closed.
    pub fn from_tokens(tokens: Vec<XmlToken>) -> (r: Result<XmlDocument, DecodeError>)
        ensures
            r is Ok <==> nested(tokens@),
            r matches Ok(d) ==> d.wf() && d.tokens@ == tokens@,
    {
        let mut depths: Vec<usize> = Vec::new();
        depths.push(0);
        let mut k: usize = 0;
        while k < tokens.len()
            invariant
                k <= tokens@.len(),
                depths@.len() == k + 1,
                forall|j: int| 0 <= j <= k ==> depths@[j] as int == depth(tokens@, j),
                forall|j: int| 0 <= j <= k ==> depths@[j] <= j,
            decreases tokens@.len() - k,
        {
            let d = depths[k];
            let next = match &tokens[k] {
                XmlToken::Open { .. } => d + 1,
                XmlToken::Close => {
                    if d == 0 {
                        proof {
                            assert(depth(tokens@, k + 1) < 0);
                        }
                        return Err(DecodeError);
                    }
                    d - 1
                },
                XmlToken::Text(_) => d,
            };
            depths.push(next);
            k = k + 1;
        }
        if depths[tokens.len()] != 0 {
            return Err(DecodeError);
        }
        Ok(XmlDocument { tokens, depths })
    }

    /// Index of the `Close` of the element opened at `i`.
    pub fn end_of(&self, i: usize) -> (r: usize)
        requires
            self.wf(),
            i < self.ts().len(),
        ensures
            r as int == elem_end(self.ts(), i as int),
            i < r <= self.ts().len(),
    {
        let ghost ts = self.ts();
        let ghost p = closes_at(ts, depth(ts, i as int));
        let d = self.depths[i];
        let n = self.tokens.len();
        let mut k: usize = i + 1;
        while k < n
            invariant
                self.wf(),
                ts == self.ts(),
                p == closes_at(ts, depth(ts, i as int)),
                d as int == depth(ts, i as int),
                n == ts.len(),
                i < k <= ts.len(),
                first_where(p, i + 1, k as int) is None,
            decreases ts.len() - k,
        {
            if matches!(self.tokens[k], XmlToken::Close) && self.depths[k] == d + 1 {
                proof {
                    lemma_first_found(p, i + 1, k as int, ts.len() as int);
                }
                return k;
            }
            k = k + 1;
        }
        k
    }

    /// The text directly inside the element opened at `i`.
    pub fn text_of(&self, i: usize) -> (r: String)
        requires
            self.wf(),
            i < self.ts().len(),
        ensures
            r@ == elem_text(self.ts(), i as int),
    {
        let ghost ts = self.ts();
        let e = self.end_of(i);
        let d = self.depths[i];
        let mut acc = String::new();
        let mut k: usize = i + 1;
        while k < e
            invariant
                self.wf(),
                ts == self.ts(),
                d as int == depth(ts, i as int),
                e as int == elem_end(ts, i as int),
                i < k <= e <= ts.len(),
                acc@ == text_between(ts, d + 1, i + 1, k as int),
            decreases e - k,
        {
            if let XmlToken::Text(s) = &self.tokens[k] {
                if self.depths[k] == d + 1 {
                    acc.append(s.as_str());
                } else {
                    assert(text_piece(ts, d + 1, k as int) =~= seq![]);
                    assert(acc@ =~= acc@ + seq![]);
                }
            } else {
                assert(acc@ =~= acc@ + seq![]);
            }
            k = k + 1;
        }
        acc
    }

    /// The first child element of `i` named `name`.
    pub fn child(&self, i: usize, name: &str) -> (r: Option<usize>)
        requires
            self.wf(),
            i < self.ts().len(),
        ensures
            r matches Some(c) ==> child(self.ts(), i as int, name@) == Some(c as int) && c
                < self.ts().len(),
            r is None ==> child(self.ts(), i as int, name@) is None,
    {
        let ghost ts = self.ts();
        let ghost p = opens_named_at(ts, depth(ts, i as int) + 1, name@);
        let e = self.end_of(i);
        let d = self.depths[i];
        let mut k: usize = i + 1;
        while k < e
            invariant
                self.wf(),
                ts == self.ts(),
                p == opens_named_at(ts, depth(ts, i as int) + 1, name@),
                d as int == depth(ts, i as int),
                e as int == elem_end(ts, i as int),
                i < k <= e <= ts.len(),
                first_where(p, i + 1, k as int) is None,
            decreases e - k,
        {
            if let XmlToken::Open { name: n, .. } = &self.tokens[k] {
                if self.depths[k] == d + 1 && same_text(n, name) {
                    proof {
                        lemma_first_found(p, i + 1, k as int, e as int);
                    }
                    return Some(k);
                }
            }
            k = k + 1;
        }
        None
    }

    /// Every child element of `i` named `name`.
    pub fn children_named(&self, i: usize, name: &str) -> (r: Vec<usize>)
        requires
            self.wf(),
            i < self.ts().len(),
        ensures
            as_ints(r@) == children_named(self.ts(), i as int, name@),
            forall|j: int| 0 <= j < r@.len() ==> r@[j] < self.ts().len(),
    {
        let ghost ts = self.ts();
        let ghost p = opens_named_at(ts, depth(ts, i as int) + 1, name@);
        let e = self.end_of(i);
        let d = self.depths[i];
        let mut out: Vec<usize> = Vec::new();
        let mut k: usize = i + 1;
        while k < e
            invariant
                self.wf(),
                ts == self.ts(),
                p == opens_named_at(ts, depth(ts, i as int) + 1, name@),
                d as int == depth(ts, i as int),
                e as int == elem_end(ts, i as int),
                i < k <= e <= ts.len(),
                as_ints(out@) == all_where(p, i + 1, k as int),
                forall|j: int| 0 <= j < out@.len() ==> out@[j] < ts.len(),
            decreases e - k,
        {
            let mut hit = false;
            if let XmlToken::Open { name: n, .. } = &self.tokens[k] {
                hit = self.depths[k] == d + 1 && same_text(n, name);
            }
            assert(hit == p(k as int));
            if hit {
                out.push(k);
            }
            assert(as_ints(out@) =~= all_where(p, i + 1, k + 1));
            k = k + 1;
        }
        out
    }

    /// Every child element of `i`.
    pub fn child_elements(&self, i: usize) -> (r: Vec<usize>)
        requires
            self.wf(),
            i < self.ts().len(),
        ensures
            as_ints(r@) == child_elements(self.ts(), i as int),
            forall|j: int| 0 <= j < r@.len() ==> r@[j] < self.ts().len(),
    {
        let ghost ts = self.ts();
        let ghost p = opens_at(ts, depth(ts, i as int) + 1);
        let e = self.end_of(i);
        let d = self.depths[i];
        let mut out: Vec<usize> = Vec::new();
        let mut k: usize = i + 1;
        while k < e
            invariant
                self.wf(),
                ts == self.ts(),
                p == opens_at(ts, depth(ts, i as int) + 1),
                d as int == depth(ts, i as int),
                e as int == elem_end(ts, i as int),
                i < k <= e <= ts.len(),
                as_ints(out@) == all_where(p, i + 1, k as int),
                forall|j: int| 0 <= j < out@.len() ==> out@[j] < ts.len(),
            decreases e - k,
        {
            let hit = matches!(self.tokens[k], XmlToken::Open { .. }) && self.depths[k] == d + 1;
            if hit {
                out.push(k);
            }
            assert(as_ints(out@) =~= all_where(p, i + 1, k + 1));
            k = k + 1;
        }
        out
    }

    /// The text of the first child of `i` named `name`.
    pub fn field(&self, i: usize, name: &str) -> (r: Option<String>)
        requires
            self.wf(),
            i < self.ts().len(),
        ensures
            r.deep_view() == field(self.ts(), i as int, name@),
    {
        match self.child(i, name) {
            Some(c) => Some(self.text_of(c)),
            None => None,
        }
    }

    /// The texts of every child of `i` named `name`, or `None` if there is none.
    pub fn field_list(&self, i: usize, name: &str) -> (r: Option<Vec<String>>)
        requires
            self.wf(),
            i < self.ts().len(),
        ensures
            r.deep_view() == field_list(self.ts(), i as int, name@),
    {
        let ghost ts = self.ts();
        let cs = self.children_named(i, name);
        let ghost csi = as_ints(cs@);
        if cs.len() == 0 {
            return None;
        }
        let mut out: Vec<String> = Vec::new();
        let mut j: usize = 0;
        while j < cs.len()
            invariant
                self.wf(),
                ts == self.ts(),
                csi == as_ints(cs@),
                forall|m: int| 0 <= m < cs@.len() ==> cs@[m] < ts.len(),
                j <= cs@.len(),
                out@.len() == j,
                out.deep_view() == csi.take(j as int).map_values(|c: int| elem_text(ts, c)),
            decreases cs@.len() - j,
        {
            let t = self.text_of(cs[j]);
            let ghost prev = out.deep_view();
            let ghost prev_v = out@;
            out.push(t);
            proof {
                let f = |c: int| elem_text(ts, c);
                let target = csi.take(j + 1).map_values(f);
                assert(csi[j as int] == cs@[j as int] as int);
                assert forall|m: int| 0 <= m < j + 1 implies out.deep_view()[m] == target[m] by {
                    if m < j {
                        assert(out@[m] == prev_v[m]);
                        assert(prev[m] == csi.take(j as int).map_values(f)[m]);
                    }
                }
                assert(out.deep_view() =~= target);
            }
            j = j + 1;
        }
        assert(csi.take(cs@.len() as int) =~= csi);
        Some(out)
    }

    /// Whether the token at `i` opens an element named `name`.
    pub fn name_is(&self, i: usize, name: &str) -> (r: bool)
        requires
            i < self.ts().len(),
        ensures
            r == (self.ts()[i as int] is Open && token_name(self.ts()[i as int]) == name@),
    {
        match &self.tokens[i] {
            XmlToken::Open { name: n, .. } => same_text(n, name),
            _ => false,
        }
    }

    /// The first element at the outermost level.
    pub fn root(&self) -> (r: Option<usize>)
        requires
            self.wf(),
        ensures
            r matches Some(k) ==> first_where(opens_at(self.ts(), 0), 0, self.ts().len() as int)
                == Some(k as int) && k < self.ts().len(),
            r is None ==> first_where(opens_at(self.ts(), 0), 0, self.ts().len() as int) is None,
    {
        let ghost ts = self.ts();
        let ghost p = opens_at(ts, 0);
        let n = self.tokens.len();
        let mut k: usize = 0;
        while k < n
            invariant
                self.wf(),
                ts == self.ts(),
                p == opens_at(ts, 0),
                n == ts.len(),
                k <= n,
                first_where(p, 0, k as int) is None,
            decreases n - k,
        {
            if matches!(self.tokens[k], XmlToken::Open { .. }) && self.depths[k] == 0 {
                proof {
                    lemma_first_found(p, 0, k as int, n as int);
                }
                return Some(k);
            }
            k = k + 1;
        }
        None
    }

    /// The value of the attribute `key` of the element at `i`.
    pub fn attr(&self, i: usize, key: &str) -> (r: Option<String>)
        requires
            self.wf(),
            i < self.ts().len(),
        ensures
            r.deep_view() == attr(self.ts(), i as int, key@),
    {
        let ghost ts = self.ts();
        let ghost a = attrs_of(ts[i as int]);
        let ghost p = key_at(a, key@);
        match &self.tokens[i] {
            XmlToken::Open { attributes, .. } => {
                let mut j: usize = 0;
                while j < attributes.len()
                    invariant
                        a == attributes@,
                        a == attrs_of(self.ts()[i as int]),
                        p == key_at(a, key@),
                        j <= a.len(),
                        first_where(p, 0, j as int) is None,
                    decreases a.len() - j,
                {
                    if same_text(&attributes[j].key, key) {
                        proof {
                            lemma_first_found(p, 0, j as int, a.len() as int);
                        }
                        let v = attributes[j].value.clone();
                        assert(Some(v).deep_view() == Some(a[j as int].value@));
                        return Some(v);
                    }
                    j = j + 1;
                }
                None
            },
            _ => None,
        }
    }
}

// ---------------------------------------------------------------------------
// Reading a document with quick-xml
// ---------------------------------------------------------------------------

/// An event of quick-xml's reader, with its text as written in the document.
#[derive(Debug, Clone)]
pub enum XmlEvent {
    /// A start tag: the element's name and the whole text inside `<...>`.
    Start(String, String),
    /// An empty-element tag `<.../>`: its name and text, likewise.
    Empty(String, String),
    End,
    /// Character data, with its entity references not yet resolved.
    Text(String),
    /// The contents of a CDATA section.
    CData(String),
}

/// The events quick-xml's reader yields for `text` up to its end, leaving out
/// declarations, comments, processing instructions and doctypes; `None` when
/// the reader reports an error.
pub uninterp spec fn xml_events(text: Seq<char>) -> Option<Seq<XmlEvent>>;

/// The attributes quick-xml reads from a tag's text after the tag's name;
/// `None` when one is malformed or repeated.
pub uninterp spec fn attributes_of(tag: Seq<char>, name: Seq<char>) -> Option<Seq<XmlAttribute>>;

/// quick-xml's resolution of the entity references in `raw`; `None` when one
/// is unknown or malformed.
pub uninterp spec fn unescaped(raw: Seq<char>) -> Option<Seq<char>>;

pub open spec fn byte_len(s: Seq<char>) -> usize {
    vstd::utf8::encode_utf8(s).len() as usize
}

/// Relies on quick_xml::Reader::from_str and Reader::read_event: every event
/// of the document in order, with names and texts copied out as written
/// (they are slices of the `&str`, cut at markup, so the copy loses nothing).
#[verifier::external_body]
pub(crate) fn read_events(text: &str) -> (r: Option<Vec<XmlEvent>>)
    ensures
        r matches Some(v) ==> xml_events(text@) == Some(v@),
        r is None ==> xml_events(text@) is None,
{
    let mut reader = Reader::from_str(text);
    let mut out = Vec::new();
    loop {
        out.push(match reader.read_event().ok()? {
            Event::Start(e) => XmlEvent::Start(String::from_utf8_lossy(e.name().0).into_owned(), String::from_utf8_lossy(&e).into_owned()),
            Event::Empty(e) => XmlEvent::Empty(String::from_utf8_lossy(e.name().0).into_owned(), String::from_utf8_lossy(&e).into_owned()),
            Event::End(_) => XmlEvent::End,
            Event::Text(t) => XmlEvent::Text(String::from_utf8_lossy(&t).into_owned()),
            Event::CData(t) => XmlEvent::CData(String::from_utf8_lossy(&t).into_owned()),
            Event::Eof => return Some(out),
            _ => continue,
        });
    }
}

/// Relies on quick_xml::events::attributes::Attributes::new and
/// Attribute::unescape_value: the attributes of a tag, values unescaped.
/// The iterator slices the tag at the name's byte length, hence `requires`.
#[verifier::external_body]
fn parse_attributes(tag: &str, name: &str) -> (r: Option<Vec<XmlAttribute>>)
    requires
        byte_len(name@) <= byte_len(tag@),
    ensures
        r matches Some(v) ==> attributes_of(tag@, name@) == Some(v@),
        r is None ==> attributes_of(tag@, name@) is None,
{
    let mut out = Vec::new();
    for a in Attributes::new(tag, name.len()) {
        let a = a.ok()?;
        let key = String::from_utf8_lossy(a.key.as_ref()).into_owned();
        out.push(XmlAttribute { key, value: a.unescape_value().ok()?.into_owned() });
    }
    Some(out)
}

/// Relies on quick_xml::escape::unescape: the text with entities resolved.
#[verifier::external_body]
fn unescape_text(raw: &str) -> (r: Option<String>)
    ensures
        r matches Some(s) ==> unescaped(raw@) == Some(s@),
        r is None ==> unescaped(raw@) is None,
{
    unescape(raw).ok().map(|c| c.into_owned())
}

// ---------------------------------------------------------------------------
// From events to tokens
// ---------------------------------------------------------------------------

/// How many tokens an event reads as.
pub open spec fn event_width(e: XmlEvent) -> int {
    match e {
        XmlEvent::Empty(..) => 2,
        _ => 1,
    }
}

/// The token opening the element of a start or empty-element tag.
pub open spec fn opened(name: String, tag: String, t: XmlToken) -> bool {
    match t {
        XmlToken::Open { name: n, attributes } => {
            &&& n@ == name@
            &&& byte_len(name@) <= byte_len(tag@)
            &&& attributes_of(tag@, name@) == Some(attributes@)
        },
        _ => false,
    }
}

/// The tokens `toks` are what the event `e` reads as.
pub open spec fn event_tokens(e: XmlEvent, toks: Seq<XmlToken>) -> bool {
    match e {
        XmlEvent::Start(name, tag) => toks.len() == 1 && opened(name, tag, toks[0]),
        XmlEvent::Empty(name, tag) => toks.len() == 2 && opened(name, tag, toks[0])
            && toks[1] is Close,
        XmlEvent::End => toks.len() == 1 && toks[0] is Close,
        XmlEvent::Text(raw) => toks.len() == 1 && match toks[0] {
            XmlToken::Text(s) => unescaped(raw@) == Some(s@),
            _ => false,
        },
        XmlEvent::CData(c) => toks.len() == 1 && match toks[0] {
            XmlToken::Text(s) => s@ == c@,
            _ => false,
        },
    }
}

/// Whether the event can be read as tokens.
pub open spec fn event_readable(e: XmlEvent) -> bool {
    match e {
        XmlEvent::Start(name, tag) => byte_len(name@) <= byte_len(tag@) && attributes_of(
            tag@,
            name@,
        ) is Some,
        XmlEvent::Empty(name, tag) => byte_len(name@) <= byte_len(tag@) && attributes_of(
            tag@,
            name@,
        ) is Some,
        XmlEvent::Text(raw) => unescaped(raw@) is Some,
        _ => true,
    }
}

/// `ts` is what the events read as, in order.
pub open spec fn tokens_of_events(evs: Seq<XmlEvent>, ts: Seq<XmlToken>) -> bool
    decreases evs.len(),
{
    if evs.len() == 0 {
        ts.len() == 0
    } else {
        let w = event_width(evs.last());
        &&& ts.len() >= w
        &&& tokens_of_events(evs.drop_last(), ts.subrange(0, ts.len() - w))
        &&& event_tokens(evs.last(), ts.subrange(ts.len() - w, ts.len() as int))
    }
}

pub open spec fn all_readable(evs: Seq<XmlEvent>) -> bool {
    forall|j: int| 0 <= j < evs.len() ==> event_readable(#[trigger] evs[j])
}

fn open_token(name: &String, tag: &String) -> (r: Option<XmlToken>)
    ensures
        r matches Some(t) ==> opened(*name, *tag, t),
        r is None <==> !(byte_len(name@) <= byte_len(tag@) && attributes_of(tag@, name@) is Some),
{
    if name.as_str().len() > tag.as_str().len() {
        return None;
    }
    match parse_attributes(tag.as_str(), name.as_str()) {
        Some(attributes) => Some(XmlToken::Open { name: name.clone(), attributes }),
        None => None,
    }
}

/// Reads the events as tokens; fails exactly when one cannot be read.
pub fn tokens_from_events(evs: &Vec<XmlEvent>) -> (r: Result<Vec<XmlToken>, DecodeError>)
    ensures
        r is Ok <==> all_readable(evs@),
        r matches Ok(ts) ==> tokens_of_events(evs@, ts@),
{
    let mut out: Vec<XmlToken> = Vec::new();
    let mut j: usize = 0;
    while j < evs.len()
        invariant
            j <= evs@.len(),
            tokens_of_events(evs@.take(j as int), out@),
            forall|m: int| 0 <= m < j ==> event_readable(#[trigger] evs@[m]),
        decreases evs@.len() - j,
    {
        let ghost before = out@;
        let toks: Vec<XmlToken> = match &evs[j] {
            XmlEvent::Start(name, tag) => match open_token(name, tag) {
                Some(t) => vec![t],
                None => return Err(DecodeError),
            },
            XmlEvent::Empty(name, tag) => match open_token(name, tag) {
                Some(t) => vec![t, XmlToken::Close],
                None => return Err(DecodeError),
            },
            XmlEvent::End => vec![XmlToken::Close],
            XmlEvent::Text(raw) => match unescape_text(raw.as_str()) {
                Some(s) => vec![XmlToken::Text(s)],
                None => return Err(DecodeError),
            },
            XmlEvent::CData(c) => vec![XmlToken::Text(c.clone())],
        };
        assert(event_tokens(evs@[j as int], toks@));
        let mut toks = toks;
        let ghost added = toks@;
        out.append(&mut toks);
        proof {
            let t = evs@.take(j + 1);
            let w = event_width(evs@[j as int]);
            assert(t.drop_last() =~= evs@.take(j as int));
            assert(t.last() == evs@[j as int]);
            assert(added.len() == w);
            assert(out@.subrange(0, out@.len() - w) =~= before);
            assert(out@.subrange(out@.len() - w, out@.len() as int) =~= added);
        }
        j = j + 1;
    }
    assert(evs@.take(evs@.len() as int) =~= evs@);
    Ok(out)
}

} // verus!
