//! The textual form of a container declaration:
//!
//! ```text
//! [pub] struct Name: u16 {
//!     [pub(crate)] field: u8 @ 0..4,
//!     [pub] flag: bool @ 4..=4 => |v| -> u32 { v as u32 },
//! }
//! ```
//!
//! Whitespace may stand between any two tokens. A range is `[a]..[b]` or `[a]..=[b]`
//! with decimal bounds. A transform is a closure `|params| [-> Type] body`; its body
//! runs to the first `,` or `}` outside brackets.
use crate::range::RangeExpr;
use crate::schema::{BitfieldDecl, FieldDecl, SchemaError, Transform};
use vstd::prelude::*;

verus! {

pub open spec fn is_ws(b: u8) -> bool {
    b == 32 || b == 9 || b == 10 || b == 13
}

pub open spec fn is_digit(b: u8) -> bool {
    48 <= b <= 57
}

pub open spec fn is_ident_start(b: u8) -> bool {
    (65 <= b <= 90) || (97 <= b <= 122) || b == 95
}

pub open spec fn is_ident_byte(b: u8) -> bool {
    is_ident_start(b) || is_digit(b)
}

/// The first position at or after `i` that does not hold whitespace.
pub open spec fn skip_ws(s: Seq<u8>, i: int) -> int
    decreases s.len() - i,
{
    if 0 <= i < s.len() && is_ws(s[i]) {
        skip_ws(s, i + 1)
    } else {
        i
    }
}

/// The end of the run of identifier bytes that starts at `i`.
pub open spec fn ident_end(s: Seq<u8>, i: int) -> int
    decreases s.len() - i,
{
    if 0 <= i < s.len() && is_ident_byte(s[i]) {
        ident_end(s, i + 1)
    } else {
        i
    }
}

/// The end of the run of decimal digits that starts at `i`.
pub open spec fn digits_end(s: Seq<u8>, i: int) -> int
    decreases s.len() - i,
{
    if 0 <= i < s.len() && is_digit(s[i]) {
        digits_end(s, i + 1)
    } else {
        i
    }
}

/// The number that the decimal digits `d` spell.
pub open spec fn decimal(d: Seq<u8>) -> nat
    decreases d.len(),
{
    if d.len() == 0 {
        0
    } else {
        decimal(d.drop_last()) * 10 + (d.last() - 48) as nat
    }
}

/// The identifier after whitespace from `i`: where it starts and ends.
pub open spec fn ident_at(s: Seq<u8>, i: int) -> Option<(int, int)> {
    let j = skip_ws(s, i);
    if 0 <= j < s.len() && is_ident_start(s[j]) {
        Some((j, ident_end(s, j)))
    } else {
        None
    }
}

/// The position after the byte `c`, when `c` follows whitespace from `i`.
pub open spec fn symbol_at(s: Seq<u8>, i: int, c: u8) -> Option<int> {
    let j = skip_ws(s, i);
    if 0 <= j < s.len() && s[j] == c {
        Some(j + 1)
    } else {
        None
    }
}

/// The position after the bytes `c` `d`, when they follow whitespace from `i`.
pub open spec fn pair_at(s: Seq<u8>, i: int, c: u8, d: u8) -> Option<int> {
    let j = skip_ws(s, i);
    if 0 <= j && j + 1 < s.len() && s[j] == c && s[j + 1] == d {
        Some(j + 2)
    } else {
        None
    }
}

/// The decimal number after whitespace from `i`, if it fits 64 bits, and the position after it.
pub open spec fn int_at(s: Seq<u8>, i: int) -> Option<(u64, int)> {
    let j = skip_ws(s, i);
    let k = digits_end(s, j);
    if 0 <= j < k && decimal(s.subrange(j, k)) <= u64::MAX {
        Some((decimal(s.subrange(j, k)) as u64, k))
    } else {
        None
    }
}

fn skip_whitespace(s: &[u8], i: usize) -> (r: usize)
    requires
        i <= s.len(),
    ensures
        r == skip_ws(s@, i as int),
        i <= r <= s.len(),
{
    let mut j = i;
    while j < s.len() && (s[j] == 32 || s[j] == 9 || s[j] == 10 || s[j] == 13)
        invariant
            i <= j <= s.len(),
            skip_ws(s@, j as int) == skip_ws(s@, i as int),
        decreases s.len() - j,
    {
        j += 1;
    }
    j
}

fn ident_bytes_end(s: &[u8], i: usize) -> (r: usize)
    requires
        i <= s.len(),
    ensures
        r == ident_end(s@, i as int),
        i <= r <= s.len(),
{
    let mut j = i;
    while j < s.len() && ((65 <= s[j] && s[j] <= 90) || (97 <= s[j] && s[j] <= 122) || s[j] == 95
        || (48 <= s[j] && s[j] <= 57))
        invariant
            i <= j <= s.len(),
            ident_end(s@, j as int) == ident_end(s@, i as int),
        decreases s.len() - j,
    {
        j += 1;
    }
    j
}

fn ident(s: &[u8], i: usize) -> (r: Option<(usize, usize)>)
    requires
        i <= s.len(),
    ensures
        match r {
            Some((j, k)) => ident_at(s@, i as int) == Some((j as int, k as int)) && i <= j <= k <= s.len(),
            None => ident_at(s@, i as int) is None,
        },
{
    let j = skip_whitespace(s, i);
    if j < s.len() && ((65 <= s[j] && s[j] <= 90) || (97 <= s[j] && s[j] <= 122) || s[j] == 95) {
        Some((j, ident_bytes_end(s, j)))
    } else {
        None
    }
}

fn symbol(s: &[u8], i: usize, c: u8) -> (r: Option<usize>)
    requires
        i <= s.len(),
    ensures
        match r {
            Some(k) => symbol_at(s@, i as int, c) == Some(k as int) && i < k <= s.len(),
            None => symbol_at(s@, i as int, c) is None,
        },
{
    let j = skip_whitespace(s, i);
    if j < s.len() && s[j] == c {
        Some(j + 1)
    } else {
        None
    }
}

fn pair(s: &[u8], i: usize, c: u8, d: u8) -> (r: Option<usize>)
    requires
        i <= s.len(),
    ensures
        match r {
            Some(k) => pair_at(s@, i as int, c, d) == Some(k as int) && i < k <= s.len(),
            None => pair_at(s@, i as int, c, d) is None,
        },
{
    let j = skip_whitespace(s, i);
    if s.len() - j > 1 && s[j] == c && s[j + 1] == d {
        Some(j + 2)
    } else {
        None
    }
}

fn number(s: &[u8], i: usize) -> (r: Option<(u64, usize)>)
    requires
        i <= s.len(),
    ensures
        match r {
            Some((v, k)) => int_at(s@, i as int) == Some((v, k as int)) && i < k <= s.len(),
            None => int_at(s@, i as int) is None,
        },
{
    let j = skip_whitespace(s, i);
    let mut k = j;
    let mut value: u64 = 0;
    let mut fits = true;
    while k < s.len() && 48 <= s[k] && s[k] <= 57
        invariant
            j <= k <= s.len(),
            digits_end(s@, k as int) == digits_end(s@, j as int),
            forall|m: int| j <= m < k ==> is_digit(s@[m]),
            fits ==> value == decimal(s@.subrange(j as int, k as int)),
            !fits ==> decimal(s@.subrange(j as int, k as int)) > u64::MAX,
        decreases s.len() - k,
    {
        let ghost prev = s@.subrange(j as int, k as int);
        assert(s@.subrange(j as int, k + 1).drop_last() == prev);
        let d = (s[k] - 48) as u64;
        if fits && value <= (u64::MAX - d) / 10 {
            value = value * 10 + d;
        } else {
            fits = false;
        }
        k += 1;
    }
    if k > j && fits {
        Some((value, k))
    } else {
        None
    }
}

/// The first position at or after `i` that holds `c`, or the length when none does.
pub open spec fn find_byte(s: Seq<u8>, i: int, c: u8) -> int
    decreases s.len() - i,
{
    if 0 <= i < s.len() && s[i] != c {
        find_byte(s, i + 1, c)
    } else {
        i
    }
}

pub open spec fn is_open(b: u8) -> bool {
    b == 40 || b == 91 || b == 123
}

pub open spec fn is_close(b: u8) -> bool {
    b == 41 || b == 93 || b == 125
}

/// Where a transform's body that is scanned from `i`, `depth` brackets deep, ends:
/// at the first `,` or closing bracket outside every bracket, or at the end of `s`.
pub open spec fn body_end(s: Seq<u8>, i: int, depth: nat) -> int
    decreases s.len() - i,
{
    if !(0 <= i < s.len()) {
        i
    } else if depth == 0 && (s[i] == 44 || is_close(s[i])) {
        i
    } else if is_open(s[i]) {
        body_end(s, i + 1, depth + 1)
    } else if is_close(s[i]) {
        body_end(s, i + 1, (depth - 1) as nat)
    } else {
        body_end(s, i + 1, depth)
    }
}

/// A range expression after whitespace from `i`, and the position after it.
pub open spec fn range_at(s: Seq<u8>, i: int) -> Option<(RangeExpr, int)> {
    let (start, j) = match int_at(s, i) {
        Some((v, k)) => (Some(v), k),
        None => (None, i),
    };
    match pair_at(s, j, 46, 46) {
        None => None,
        Some(k) => if 0 <= k < s.len() && s[k] == 61 {
            match int_at(s, k + 1) {
                Some((e, m)) => Some((RangeExpr { start, end: Some(e), closed: true }, m)),
                None => Some((RangeExpr { start, end: None, closed: true }, k + 1)),
            }
        } else {
            match int_at(s, k) {
                Some((e, m)) => Some((RangeExpr { start, end: Some(e), closed: false }, m)),
                None => Some((RangeExpr { start, end: None, closed: false }, k)),
            }
        },
    }
}

/// A transform's body from `i` on, when it is not empty, with the output type `out`.
pub open spec fn body_at(s: Seq<u8>, i: int, out: Option<(int, int)>) -> Option<(Option<(int, int)>, int)> {
    let b = skip_ws(s, i);
    let e = body_end(s, b, 0);
    if e > b {
        Some((out, e))
    } else {
        None
    }
}

/// A transform closure `|params| [-> Type] body` after whitespace from `i`: the span of
/// its output type, if it declares one, and the position after its body.
pub open spec fn transform_at(s: Seq<u8>, i: int) -> Option<(Option<(int, int)>, int)> {
    match symbol_at(s, i, 124) {
        None => None,
        Some(p) => {
            let q = find_byte(s, p, 124);
            if q >= s.len() {
                None
            } else {
                match pair_at(s, q + 1, 45, 62) {
                    Some(a) => match ident_at(s, a) {
                        Some(t) => body_at(s, t.1, Some(t)),
                        None => None,
                    },
                    None => body_at(s, q + 1, None),
                }
            }
        },
    }
}

/// Bytes `[span.0, span.1)` of `s`.
pub open spec fn spelled(s: Seq<u8>, span: (int, int)) -> Seq<u8> {
    s.subrange(span.0, span.1)
}

/// The position after an optional visibility from `i`: `pub`, or `pub` followed by a
/// parenthesized restriction such as `(crate)`.
pub open spec fn vis_end(s: Seq<u8>, i: int) -> int {
    match ident_at(s, i) {
        Some(w) => if spelled(s, w) == seq![112u8, 117, 98] {
            match symbol_at(s, w.1, 40) {
                Some(p) => {
                    let q = find_byte(s, p, 41);
                    if q < s.len() {
                        q + 1
                    } else {
                        w.1
                    }
                },
                None => w.1,
            }
        } else {
            i
        },
        None => i,
    }
}

/// Where the parts of a field declaration stand in the text.
pub ghost struct FieldSyntax {
    pub name: (int, int),
    pub ty: (int, int),
    pub range: RangeExpr,
    /// `None` without a transform; else the span of its output type, if declared.
    pub transform: Option<Option<(int, int)>>,
}

/// Where the parts of a container declaration stand in the text.
pub ghost struct DeclSyntax {
    pub name: (int, int),
    pub ty: (int, int),
    pub fields: Seq<FieldSyntax>,
}

/// A field declaration `[pub] name: Type @ range [=> transform]` from `i`, and the
/// position after it.
pub open spec fn field_at(s: Seq<u8>, i: int) -> Option<(FieldSyntax, int)> {
    match ident_at(s, vis_end(s, i)) {
        None => None,
        Some(n) => match symbol_at(s, n.1, 58) {
            None => None,
            Some(b) => match ident_at(s, b) {
                None => None,
                Some(t) => match symbol_at(s, t.1, 64) {
                    None => None,
                    Some(c) => match range_at(s, c) {
                        None => None,
                        Some((r, d)) => match pair_at(s, d, 61, 62) {
                            None => Some((FieldSyntax { name: n, ty: t, range: r, transform: None }, d)),
                            Some(e) => match transform_at(s, e) {
                                None => None,
                                Some((out, f)) => Some(
                                    (FieldSyntax { name: n, ty: t, range: r, transform: Some(out) }, f),
                                ),
                            },
                        },
                    },
                },
            },
        },
    }
}

/// The field declarations from `i` on, each but the last followed by `,`, then an
/// optional `,` and the closing `}`; and the position after that `}`.
pub open spec fn fields_at(s: Seq<u8>, i: int) -> Option<(Seq<FieldSyntax>, int)>
    decreases s.len() - i,
{
    match symbol_at(s, i, 125) {
        Some(k) => Some((seq![], k)),
        None => match field_at(s, i) {
            None => None,
            Some((f, j)) => match symbol_at(s, j, 44) {
                Some(k) => if i < k <= s.len() {
                    match fields_at(s, k) {
                        Some((fs, m)) => Some((seq![f] + fs, m)),
                        None => None,
                    }
                } else {
                    None
                },
                None => match symbol_at(s, j, 125) {
                    Some(k) => Some((seq![f], k)),
                    None => None,
                },
            },
        },
    }
}

/// The container declaration `[pub] struct Name: Type { fields }` that `s` holds, with
/// nothing but whitespace around it.
pub open spec fn decl_at(s: Seq<u8>) -> Option<DeclSyntax> {
    match ident_at(s, vis_end(s, 0)) {
        None => None,
        Some(kw) => if spelled(s, kw) != seq![115u8, 116, 114, 117, 99, 116] {
            None
        } else {
            match ident_at(s, kw.1) {
                None => None,
                Some(n) => match symbol_at(s, n.1, 58) {
                    None => None,
                    Some(b) => match ident_at(s, b) {
                        None => None,
                        Some(t) => match symbol_at(s, t.1, 123) {
                            None => None,
                            Some(c) => match fields_at(s, c) {
                                None => None,
                                Some((fs, d)) => if skip_ws(s, d) == s.len() {
                                    Some(DeclSyntax { name: n, ty: t, fields: fs })
                                } else {
                                    None
                                },
                            },
                        },
                    },
                },
            }
        },
    }
}

/// `d` holds the names, types, range and transform that `f` locates in `s`.
pub open spec fn field_spelled(s: Seq<u8>, f: FieldSyntax, d: FieldDecl) -> bool {
    &&& d.name@ == spelled(s, f.name)
    &&& d.ty@ == spelled(s, f.ty)
    &&& d.range == f.range
    &&& match f.transform {
        None => d.transform is None,
        Some(out) => d.transform matches Some(t) && match out {
            None => t.output is None,
            Some(span) => t.output matches Some(o) && o@ == spelled(s, span),
        },
    }
}

/// `d` holds what `m` locates in `s`.
pub open spec fn decl_spelled(s: Seq<u8>, m: DeclSyntax, d: BitfieldDecl) -> bool {
    &&& d.name@ == spelled(s, m.name)
    &&& d.ty@ == spelled(s, m.ty)
    &&& d.fields.len() == m.fields.len()
    &&& forall|i: int| 0 <= i < m.fields.len() ==> field_spelled(s, #[trigger] m.fields[i], d.fields@[i])
}

fn find(s: &[u8], i: usize, c: u8) -> (r: usize)
    requires
        i <= s.len(),
    ensures
        r == find_byte(s@, i as int, c),
        i <= r <= s.len(),
{
    let mut j = i;
    while j < s.len() && s[j] != c
        invariant
            i <= j <= s.len(),
            find_byte(s@, j as int, c) == find_byte(s@, i as int, c),
        decreases s.len() - j,
    {
        j += 1;
    }
    j
}

fn scan_body(s: &[u8], i: usize) -> (r: usize)
    requires
        i <= s.len(),
    ensures
        r == body_end(s@, i as int, 0),
        i <= r <= s.len(),
{
    let mut j = i;
    let mut depth: usize = 0;
    while j < s.len()
        invariant
            i <= j <= s.len(),
            depth <= j - i,
            body_end(s@, j as int, depth as nat) == body_end(s@, i as int, 0),
        decreases s.len() - j,
    {
        let b = s[j];
        if depth == 0 && (b == 44 || b == 41 || b == 93 || b == 125) {
            return j;
        } else if b == 40 || b == 91 || b == 123 {
            depth += 1;
        } else if b == 41 || b == 93 || b == 125 {
            depth -= 1;
        }
        j += 1;
    }
    j
}

fn range(s: &[u8], i: usize) -> (r: Option<(RangeExpr, usize)>)
    requires
        i <= s.len(),
    ensures
        match r {
            Some((x, k)) => range_at(s@, i as int) == Some((x, k as int)) && i < k <= s.len(),
            None => range_at(s@, i as int) is None,
        },
{
    let (start, j) = match number(s, i) {
        Some((v, k)) => (Some(v), k),
        None => (None, i),
    };
    let k = match pair(s, j, 46, 46) {
        Some(k) => k,
        None => return None,
    };
    if k < s.len() && s[k] == 61 {
        match number(s, k + 1) {
            Some((e, m)) => Some((RangeExpr { start, end: Some(e), closed: true }, m)),
            None => Some((RangeExpr { start, end: None, closed: true }, k + 1)),
        }
    } else {
        match number(s, k) {
            Some((e, m)) => Some((RangeExpr { start, end: Some(e), closed: false }, m)),
            None => Some((RangeExpr { start, end: None, closed: false }, k)),
        }
    }
}

fn body(s: &[u8], i: usize, out: Option<(usize, usize)>) -> (r: Option<(Option<(usize, usize)>, usize)>)
    requires
        i <= s.len(),
    ensures
        match r {
            Some((o, k)) => body_at(s@, i as int, span_of(out)) == Some((span_of(o), k as int))
                && i < k <= s.len() && o == out,
            None => body_at(s@, i as int, span_of(out)) is None,
        },
{
    let b = skip_whitespace(s, i);
    let e = scan_body(s, b);
    if e > b {
        Some((out, e))
    } else {
        None
    }
}

/// A span of byte positions, as integers.
pub open spec fn span_of(o: Option<(usize, usize)>) -> Option<(int, int)> {
    match o {
        Some(p) => Some((p.0 as int, p.1 as int)),
        None => None,
    }
}

fn transform(s: &[u8], i: usize) -> (r: Option<(Option<(usize, usize)>, usize)>)
    requires
        i <= s.len(),
    ensures
        match r {
            Some((o, k)) => transform_at(s@, i as int) == Some((span_of(o), k as int)) && i < k
                <= s.len() && (o matches Some(t) ==> t.0 <= t.1 <= s.len()),
            None => transform_at(s@, i as int) is None,
        },
{
    let p = match symbol(s, i, 124) {
        Some(p) => p,
        None => return None,
    };
    let q = find(s, p, 124);
    if q >= s.len() {
        return None;
    }
    match pair(s, q + 1, 45, 62) {
        Some(a) => match ident(s, a) {
            Some(t) => body(s, t.1, Some(t)),
            None => None,
        },
        None => body(s, q + 1, None),
    }
}

fn copy_span(s: &[u8], j: usize, k: usize) -> (r: Vec<u8>)
    requires
        j <= k <= s.len(),
    ensures
        r@ == spelled(s@, (j as int, k as int)),
{
    vstd::slice::slice_to_vec(vstd::slice::slice_subrange(s, j, k))
}

fn vis(s: &[u8], i: usize) -> (r: usize)
    requires
        i <= s.len(),
    ensures
        r == vis_end(s@, i as int),
        i <= r <= s.len(),
{
    match ident(s, i) {
        Some((j, k)) => {
            let ghost w = spelled(s@, (j as int, k as int));
            if k - j == 3 && s[j] == 112 && s[j + 1] == 117 && s[j + 2] == 98 {
                assert(w =~= seq![112u8, 117, 98]);
                match symbol(s, k, 40) {
                    Some(p) => {
                        let q = find(s, p, 41);
                        if q < s.len() {
                            q + 1
                        } else {
                            k
                        }
                    },
                    None => k,
                }
            } else {
                assert(w != seq![112u8, 117, 98] ) by {
                    if w == seq![112u8, 117, 98] {
                        assert(w.len() == 3 && w[0] == 112 && w[1] == 117 && w[2] == 98);
                    }
                }
                i
            }
        },
        None => i,
    }
}

fn field(s: &[u8], i: usize) -> (r: Option<(FieldDecl, usize)>)
    requires
        i <= s.len(),
    ensures
        match r {
            Some((d, k)) => (field_at(s@, i as int) matches Some((m, e)) && e == k
                && field_spelled(s@, m, d)) && i < k <= s.len(),
            None => field_at(s@, i as int) is None,
        },
{
    let a = vis(s, i);
    let n = match ident(s, a) {
        Some(n) => n,
        None => return None,
    };
    let b = match symbol(s, n.1, 58) {
        Some(b) => b,
        None => return None,
    };
    let t = match ident(s, b) {
        Some(t) => t,
        None => return None,
    };
    let c = match symbol(s, t.1, 64) {
        Some(c) => c,
        None => return None,
    };
    let (r, d) = match range(s, c) {
        Some(x) => x,
        None => return None,
    };
    let name = copy_span(s, n.0, n.1);
    let ty = copy_span(s, t.0, t.1);
    match pair(s, d, 61, 62) {
        None => Some((FieldDecl { name, ty, range: r, transform: None }, d)),
        Some(e) => match transform(s, e) {
            None => None,
            Some((out, f)) => {
                let output = match out {
                    Some(o) => Some(copy_span(s, o.0, o.1)),
                    None => None,
                };
                Some((FieldDecl { name, ty, range: r, transform: Some(Transform { output }) }, f))
            },
        },
    }
}

fn fields(s: &[u8], i: usize) -> (r: Option<(Vec<FieldDecl>, usize)>)
    requires
        i <= s.len(),
    ensures
        match r {
            Some((ds, k)) => k <= s.len() && (fields_at(s@, i as int) matches Some((ms, e)) && e
                == k && ds.len() == ms.len() && forall|j: int|
                0 <= j < ms.len() ==> field_spelled(s@, #[trigger] ms[j], ds@[j])),
            None => fields_at(s@, i as int) is None,
        },
{
    let mut out: Vec<FieldDecl> = Vec::new();
    let ghost mut acc: Seq<FieldSyntax> = seq![];
    let mut pos = i;
    loop
        invariant
            i <= pos <= s.len(),
            out.len() == acc.len(),
            forall|j: int| 0 <= j < acc.len() ==> field_spelled(s@, #[trigger] acc[j], out@[j]),
            fields_at(s@, i as int) == (match fields_at(s@, pos as int) {
                Some((fs, m)) => Some((acc + fs, m)),
                None => None,
            }),
        decreases s.len() - pos,
    {
        if let Some(k) = symbol(s, pos, 125) {
            assert(acc + seq![] =~= acc);
            return Some((out, k));
        }
        let (d, j) = match field(s, pos) {
            Some(x) => x,
            None => return None,
        };
        let ghost m = (field_at(s@, pos as int)->Some_0).0;
        match symbol(s, j, 44) {
            Some(k) => {
                out.push(d);
                proof {
                    let fs_after = fields_at(s@, k as int);
                    if fs_after is Some {
                        assert(acc + (seq![m] + (fs_after->Some_0).0) =~= acc.push(m) + (fs_after->Some_0).0);
                    }
                    acc = acc.push(m);
                    assert forall|x: int| 0 <= x < acc.len() implies field_spelled(
                        s@,
                        #[trigger] acc[x],
                        out@[x],
                    ) by {}
                }
                pos = k;
            },
            None => match symbol(s, j, 125) {
                Some(k) => {
                    out.push(d);
                    proof {
                        assert(acc + seq![m] =~= acc.push(m));
                        acc = acc.push(m);
                        assert forall|x: int| 0 <= x < acc.len() implies field_spelled(
                            s@,
                            #[trigger] acc[x],
                            out@[x],
                        ) by {}
                    }
                    return Some((out, k));
                },
                None => return None,
            },
        }
    }
}

/// Reads a container declaration from its text.
pub fn parse_decl(text: &[u8]) -> (r: Result<BitfieldDecl, SchemaError>)
    ensures
        match r {
            Ok(d) => decl_at(text@) matches Some(m) && decl_spelled(text@, m, d),
            Err(e) => decl_at(text@) is None && e == SchemaError::Syntax,
        },
{
    let s = text;
    let a = vis(s, 0);
    let kw = match ident(s, a) {
        Some(kw) => kw,
        None => return Err(SchemaError::Syntax),
    };
    let ghost w = spelled(s@, (kw.0 as int, kw.1 as int));
    let ghost keyword = seq![115u8, 116, 114, 117, 99, 116];
    if !(kw.1 - kw.0 == 6 && s[kw.0] == 115 && s[kw.0 + 1] == 116 && s[kw.0 + 2] == 114 && s[kw.0
        + 3] == 117 && s[kw.0 + 4] == 99 && s[kw.0 + 5] == 116) {
        assert(w != keyword) by {
            if w == keyword {
                assert(w.len() == 6 && w[0] == 115 && w[1] == 116 && w[2] == 114);
                assert(w[3] == 117 && w[4] == 99 && w[5] == 116);
            }
        }
        return Err(SchemaError::Syntax);
    }
    assert(w =~= keyword);
    let n = match ident(s, kw.1) {
        Some(n) => n,
        None => return Err(SchemaError::Syntax),
    };
    let b = match symbol(s, n.1, 58) {
        Some(b) => b,
        None => return Err(SchemaError::Syntax),
    };
    let t = match ident(s, b) {
        Some(t) => t,
        None => return Err(SchemaError::Syntax),
    };
    let c = match symbol(s, t.1, 123) {
        Some(c) => c,
        None => return Err(SchemaError::Syntax),
    };
    let (fields, d) = match fields(s, c) {
        Some(x) => x,
        None => return Err(SchemaError::Syntax),
    };
    if skip_whitespace(s, d) != s.len() {
        return Err(SchemaError::Syntax);
    }
    Ok(BitfieldDecl { name: copy_span(s, n.0, n.1), ty: copy_span(s, t.0, t.1), fields })
}

} // verus!
