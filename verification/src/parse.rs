//! Extraction of numeric samples from input lines, on raw bytes.
//!
//! Numbers are plain decimals — an optional sign, digits, an optional
//! fraction — and are carried as fixed-point milli-units (thousandths),
//! truncated after the third fraction digit and saturated at the largest
//! sample value. Classification is ASCII: case folding, whitespace and word
//! characters beyond ASCII are taken verbatim.

use vstd::prelude::*;

verus! {

/// The largest sample magnitude, in milli-units.
pub open spec fn sample_max() -> int {
    0x7fff_ffff_ffff_ffff
}

/// An ASCII decimal digit.
pub open spec fn is_digit(b: u8) -> bool {
    0x30 <= b <= 0x39
}

/// An ASCII word character: digit, letter or underscore.
pub open spec fn is_word_byte(b: u8) -> bool {
    is_digit(b) || (0x41 <= b <= 0x5a) || (0x61 <= b <= 0x7a) || b == 0x5f
}

/// ASCII whitespace.
pub open spec fn is_space_byte(b: u8) -> bool {
    b == 0x20 || b == 0x09 || b == 0x0a || b == 0x0d || b == 0x0b || b == 0x0c
}

/// ASCII case folding to lower case.
pub open spec fn lower(b: u8) -> u8 {
    if 0x41 <= b <= 0x5a {
        (b + 0x20) as u8
    } else {
        b
    }
}

/// The end of the run of digits starting at `p`.
pub open spec fn digits_end(s: Seq<u8>, p: int) -> int
    recommends
        0 <= p <= s.len(),
    decreases s.len() - p,
{
    if 0 <= p < s.len() && is_digit(s[p]) {
        digits_end(s, p + 1)
    } else {
        p
    }
}

/// The end of the run of whitespace starting at `p`.
pub open spec fn spaces_end(s: Seq<u8>, p: int) -> int
    recommends
        0 <= p <= s.len(),
    decreases s.len() - p,
{
    if 0 <= p < s.len() && is_space_byte(s[p]) {
        spaces_end(s, p + 1)
    } else {
        p
    }
}

/// The end of the run of non-whitespace starting at `p`.
pub open spec fn nonspace_end(s: Seq<u8>, p: int) -> int
    recommends
        0 <= p <= s.len(),
    decreases s.len() - p,
{
    if 0 <= p < s.len() && !is_space_byte(s[p]) {
        nonspace_end(s, p + 1)
    } else {
        p
    }
}

/// The value of the digit string `s[from..to]`, as a nonnegative integer.
pub open spec fn digits_val(s: Seq<u8>, from: int, to: int) -> int
    recommends
        0 <= from <= to <= s.len(),
    decreases to - from,
{
    if from >= to {
        0
    } else {
        digits_val(s, from, to - 1) * 10 + (s[to - 1] - 0x30)
    }
}

/// The milli-unit value of the fraction digits `s[from..to]`: the first
/// three digits, padded with zeroes, further digits truncated.
pub open spec fn frac_milli(s: Seq<u8>, from: int, to: int) -> int
    recommends
        0 <= from <= to <= s.len(),
{
    let d1 = if from < to {
        (s[from] - 0x30) as int
    } else {
        0
    };
    let d2 = if from + 1 < to {
        (s[from + 1] - 0x30) as int
    } else {
        0
    };
    let d3 = if from + 2 < to {
        (s[from + 2] - 0x30) as int
    } else {
        0
    };
    100 * d1 + 10 * d2 + d3
}

/// A whole-and-fraction value in milli-units, saturated at the largest
/// sample value.
pub open spec fn sat_milli(whole: int, frac: int) -> int {
    if whole * 1000 + frac > sample_max() {
        sample_max()
    } else {
        whole * 1000 + frac
    }
}

/// A digit string's value is nonnegative.
pub proof fn lemma_digits_val_nonneg(s: Seq<u8>, from: int, to: int)
    requires
        0 <= from <= to <= s.len(),
        forall|k: int| from <= k < to ==> is_digit(#[trigger] s[k]),
    ensures
        digits_val(s, from, to) >= 0,
    decreases to - from,
{
    if from < to {
        lemma_digits_val_nonneg(s, from, to - 1);
    }
}

/// Whether one digit lies at `i`.
fn is_digit_at(s: &Vec<u8>, i: usize) -> (b: bool)
    requires
        i < s@.len(),
    ensures
        b == is_digit(s@[i as int]),
{
    let c: u8 = s[i];
    0x30 <= c && c <= 0x39
}

/// Whether one word character lies at `i`.
fn is_word_at(s: &Vec<u8>, i: usize) -> (b: bool)
    requires
        i < s@.len(),
    ensures
        b == is_word_byte(s@[i as int]),
{
    let c: u8 = s[i];
    (0x30 <= c && c <= 0x39) || (0x41 <= c && c <= 0x5a) || (0x61 <= c && c <= 0x7a) || c == 0x5f
}

/// Whether one whitespace byte lies at `i`.
fn is_space_at(s: &Vec<u8>, i: usize) -> (b: bool)
    requires
        i < s@.len(),
    ensures
        b == is_space_byte(s@[i as int]),
{
    let c: u8 = s[i];
    c == 0x20 || c == 0x09 || c == 0x0a || c == 0x0d || c == 0x0b || c == 0x0c
}

/// ASCII case folding of one byte.
fn lower_byte(b: u8) -> (r: u8)
    ensures
        r == lower(b),
{
    if 0x41 <= b && b <= 0x5a {
        b + 0x20
    } else {
        b
    }
}

/// The end of the digit run starting at `p`.
fn digits_end_at(s: &Vec<u8>, p: usize) -> (e: usize)
    requires
        p <= s@.len(),
    ensures
        e as int == digits_end(s@, p as int),
        p <= e <= s@.len(),
{
    let mut e: usize = p;
    while e < s.len() && is_digit_at(s, e)
        invariant
            p <= e <= s@.len(),
            digits_end(s@, p as int) == digits_end(s@, e as int),
        decreases s@.len() - e,
    {
        e = e + 1;
    }
    e
}

/// The end of the whitespace run starting at `p`.
fn spaces_end_at(s: &Vec<u8>, p: usize) -> (e: usize)
    requires
        p <= s@.len(),
    ensures
        e as int == spaces_end(s@, p as int),
        p <= e <= s@.len(),
{
    let mut e: usize = p;
    while e < s.len() && is_space_at(s, e)
        invariant
            p <= e <= s@.len(),
            spaces_end(s@, p as int) == spaces_end(s@, e as int),
        decreases s@.len() - e,
    {
        e = e + 1;
    }
    e
}

/// The end of the non-whitespace run starting at `p`.
fn nonspace_end_at(s: &Vec<u8>, p: usize) -> (e: usize)
    requires
        p <= s@.len(),
    ensures
        e as int == nonspace_end(s@, p as int),
        p <= e <= s@.len(),
{
    let mut e: usize = p;
    while e < s.len() && !is_space_at(s, e)
        invariant
            p <= e <= s@.len(),
            nonspace_end(s@, p as int) == nonspace_end(s@, e as int),
        decreases s@.len() - e,
    {
        e = e + 1;
    }
    e
}

/// The value of the digit string `s[from..to]`, saturated at the largest
/// sample value.
fn digits_val_sat(s: &Vec<u8>, from: usize, to: usize) -> (v: u64)
    requires
        from <= to <= s@.len(),
        forall|k: int| from <= k < to ==> is_digit(#[trigger] s@[k]),
    ensures
        digits_val(s@, from as int, to as int) <= sample_max() ==> v as int == digits_val(
            s@,
            from as int,
            to as int,
        ),
        digits_val(s@, from as int, to as int) > sample_max() ==> v as int == sample_max(),
{
    let sat: u64 = 0x7fff_ffff_ffff_ffff;
    let mut v: u64 = 0;
    let mut i: usize = from;
    while i < to
        invariant
            from <= i <= to <= s@.len(),
            forall|k: int| from <= k < to ==> is_digit(#[trigger] s@[k]),
            sat as int == sample_max(),
            digits_val(s@, from as int, i as int) <= sample_max() ==> v as int == digits_val(
                s@,
                from as int,
                i as int,
            ),
            digits_val(s@, from as int, i as int) > sample_max() ==> v as int == sample_max(),
            v <= sat,
        decreases to - i,
    {
        proof {
            lemma_digits_val_nonneg(s@, from as int, i as int);
        }
        let d: u64 = (s[i] - 0x30) as u64;
        proof {
            vstd::arithmetic::div_mod::lemma_fundamental_div_mod(sat as int - d as int, 10);
        }
        if v > (sat - d) / 10 {
            v = sat;
        } else {
            v = v * 10 + d;
        }
        i = i + 1;
    }
    v
}

/// The milli-unit value of the fraction digits `s[from..to]`.
fn frac_milli_at(s: &Vec<u8>, from: usize, to: usize) -> (v: u64)
    requires
        from <= to <= s@.len(),
        forall|k: int| from <= k < to ==> is_digit(#[trigger] s@[k]),
    ensures
        v as int == frac_milli(s@, from as int, to as int),
        v <= 999,
{
    let d1: u64 = if from < to {
        (s[from] - 0x30) as u64
    } else {
        0
    };
    let d2: u64 = if to - from > 1 {
        (s[from + 1] - 0x30) as u64
    } else {
        0
    };
    let d3: u64 = if to - from > 2 {
        (s[from + 2] - 0x30) as u64
    } else {
        0
    };
    100 * d1 + 10 * d2 + d3
}

/// `whole * 1000 + frac` in milli-units, saturated at the largest sample.
fn sat_milli_exec(whole: u64, frac: u64) -> (v: i64)
    requires
        frac <= 999,
        whole as int <= sample_max(),
    ensures
        v as int == sat_milli(whole as int, frac as int),
        v >= 0,
{
    let sat: u64 = 0x7fff_ffff_ffff_ffff;
    proof {
        vstd::arithmetic::div_mod::lemma_fundamental_div_mod(sat as int - frac as int, 1000);
    }
    if whole > (sat - frac) / 1000 {
        sat as i64
    } else {
        (whole * 1000 + frac) as i64
    }
}

/// A digit run covers digits only, up to the first non-digit.
pub proof fn lemma_digits_end_run(s: Seq<u8>, p: int)
    requires
        0 <= p <= s.len(),
    ensures
        p <= digits_end(s, p) <= s.len(),
        forall|k: int| p <= k < digits_end(s, p) ==> is_digit(#[trigger] s[k]),
        digits_end(s, p) < s.len() ==> !is_digit(s[digits_end(s, p)]),
    decreases s.len() - p,
{
    if p < s.len() && is_digit(s[p]) {
        lemma_digits_end_run(s, p + 1);
    }
}

/// A non-whitespace run never moves backwards nor past the end.
pub proof fn lemma_nonspace_end_bounds(s: Seq<u8>, p: int)
    requires
        0 <= p <= s.len(),
    ensures
        p <= nonspace_end(s, p) <= s.len(),
    decreases s.len() - p,
{
    if p < s.len() && !is_space_byte(s[p]) {
        lemma_nonspace_end_bounds(s, p + 1);
    }
}

/// Whether the bytes from `p` to the end form a plain unsigned decimal:
/// digits with an optional fraction, or a fraction with a leading dot.
pub open spec fn body_is_number_at(t: Seq<u8>, p: int) -> bool
    recommends
        0 <= p <= t.len(),
{
    p < t.len() && {
        ||| (is_digit(t[p]) && {
            let d = digits_end(t, p);
            d == t.len() || (t[d] == 0x2e && digits_end(t, d + 1) == t.len())
        })
        ||| (t[p] == 0x2e && p + 1 < t.len() && is_digit(t[p + 1]) && digits_end(t, p + 1)
            == t.len())
    }
}

/// The milli-unit value of the unsigned decimal starting at `p`.
pub open spec fn body_milli_at(t: Seq<u8>, p: int) -> int
    recommends
        body_is_number_at(t, p),
{
    if p < t.len() && is_digit(t[p]) {
        let d = digits_end(t, p);
        if d == t.len() {
            sat_milli(digits_val(t, p, d), 0)
        } else {
            sat_milli(digits_val(t, p, d), frac_milli(t, d + 1, t.len() as int))
        }
    } else {
        sat_milli(0, frac_milli(t, p + 1, t.len() as int))
    }
}

/// Whether a whole token is a signed plain decimal.
pub open spec fn token_is_number(t: Seq<u8>) -> bool {
    if t.len() > 0 && (t[0] == 0x2b || t[0] == 0x2d) {
        body_is_number_at(t, 1)
    } else {
        body_is_number_at(t, 0)
    }
}

/// The milli-unit value of a signed plain decimal token.
pub open spec fn token_milli(t: Seq<u8>) -> int
    recommends
        token_is_number(t),
{
    if t.len() > 0 && t[0] == 0x2d {
        -body_milli_at(t, 1)
    } else if t.len() > 0 && t[0] == 0x2b {
        body_milli_at(t, 1)
    } else {
        body_milli_at(t, 0)
    }
}

/// A number body's value lies between 0 and the largest sample value.
pub proof fn lemma_body_milli_range(t: Seq<u8>, p: int)
    requires
        0 <= p <= t.len(),
        body_is_number_at(t, p),
    ensures
        0 <= body_milli_at(t, p) <= sample_max(),
{
    if is_digit(t[p]) {
        lemma_digits_end_run(t, p);
        lemma_digits_val_nonneg(t, p, digits_end(t, p));
        let w = digits_val(t, p, digits_end(t, p));
        assert(w * 1000 >= 0) by (nonlinear_arith)
            requires
                w >= 0,
        ;
        if digits_end(t, p) < t.len() {
            lemma_digits_end_run(t, digits_end(t, p) + 1);
        }
    } else {
        lemma_digits_end_run(t, p + 1);
    }
}

/// Parses one whitespace-separated token as a signed plain decimal; tokens
/// of any other shape are no numbers.
pub fn parse_token(t: &Vec<u8>) -> (r: Option<i64>)
    ensures
        r is Some <==> token_is_number(t@),
        r is Some ==> r->0 as int == token_milli(t@),
{
    if t.len() == 0 {
        return None;
    }
    let first: u8 = t[0];
    let neg: bool = first == 0x2d;
    let base: usize = if first == 0x2d || first == 0x2b {
        1
    } else {
        0
    };
    let v: i64 = match parse_body(t, base) {
        Some(v) => v,
        None => {
            return None;
        },
    };
    proof {
        lemma_body_milli_range(t@, base as int);
    }
    if neg {
        Some(-v)
    } else {
        Some(v)
    }
}

/// Parses the unsigned decimal that runs from `base` to the end of the
/// token, if the bytes have that shape.
fn parse_body(t: &Vec<u8>, base: usize) -> (r: Option<i64>)
    requires
        base <= t@.len(),
    ensures
        r is Some <==> body_is_number_at(t@, base as int),
        r is Some ==> r->0 as int == body_milli_at(t@, base as int),
        r is Some ==> r->0 >= 0,
{
    if base >= t.len() {
        return None;
    }
    if is_digit_at(t, base) {
        let d: usize = digits_end_at(t, base);
        proof {
            lemma_digits_end_run(t@, base as int);
        }
        if d == t.len() {
            let w: u64 = digits_val_sat(t, base, d);
            proof {
                lemma_digits_val_nonneg(t@, base as int, d as int);
                lemma_sat_of_saturated(digits_val(t@, base as int, d as int), 0, w as int);
            }
            Some(sat_milli_exec(w, 0))
        } else {
            if t[d] == 0x2e {
                let e: usize = digits_end_at(t, d + 1);
                if e == t.len() {
                    proof {
                        lemma_digits_end_run(t@, d as int + 1);
                    }
                    let w: u64 = digits_val_sat(t, base, d);
                    let fr: u64 = frac_milli_at(t, d + 1, t.len());
                    proof {
                        lemma_digits_val_nonneg(t@, base as int, d as int);
                        lemma_sat_of_saturated(
                            digits_val(t@, base as int, d as int),
                            fr as int,
                            w as int,
                        );
                    }
                    Some(sat_milli_exec(w, fr))
                } else {
                    None
                }
            } else {
                None
            }
        }
    } else {
        if t[base] == 0x2e {
            if t.len() - base >= 2 && is_digit_at(t, base + 1) {
                let e: usize = digits_end_at(t, base + 1);
                if e == t.len() {
                    proof {
                        lemma_digits_end_run(t@, base as int + 1);
                    }
                    let fr: u64 = frac_milli_at(t, base + 1, t.len());
                    Some(sat_milli_exec(0, fr))
                } else {
                    None
                }
            } else {
                None
            }
        } else {
            None
        }
    }
}

/// The whitespace-separated tokens of a line, from position `p` on.
pub open spec fn spec_tokens_from(s: Seq<u8>, p: int) -> Seq<Seq<u8>>
    decreases s.len() - p,
{
    if p < 0 || p >= s.len() {
        Seq::empty()
    } else if is_space_byte(s[p]) {
        spec_tokens_from(s, p + 1)
    } else {
        let e = nonspace_end(s, p);
        seq![s.subrange(p, e)] + spec_tokens_from(
            s,
            if p < e <= s.len() {
                e
            } else {
                p + 1
            },
        )
    }
}

/// The numeric samples a line yields in positional mode: each token parsed
/// as a plain decimal, non-numeric tokens dropped, in token order.
pub open spec fn spec_line_values(ts: Seq<Seq<u8>>) -> Seq<int>
    decreases ts.len(),
{
    if ts.len() == 0 {
        Seq::empty()
    } else {
        let rest = spec_line_values(ts.drop_last());
        if token_is_number(ts.last()) {
            rest.push(token_milli(ts.last()))
        } else {
            rest
        }
    }
}

/// The view of each token of a token list.
pub open spec fn byte_views(ts: Seq<Vec<u8>>) -> Seq<Seq<u8>> {
    ts.map(|i: int, t: Vec<u8>| t@)
}

/// A copy of the bytes `s[from..to]`.
pub(crate) fn copy_range(s: &Vec<u8>, from: usize, to: usize) -> (r: Vec<u8>)
    requires
        from <= to <= s@.len(),
    ensures
        r@ == s@.subrange(from as int, to as int),
{
    let mut r: Vec<u8> = Vec::new();
    let mut i: usize = from;
    while i < to
        invariant
            from <= i <= to <= s@.len(),
            r@.len() == i - from,
            forall|k: int| 0 <= k < r@.len() ==> r@[k] == s@[from + k],
        decreases to - i,
    {
        r.push(s[i]);
        i = i + 1;
    }
    proof {
        assert(r@ =~= s@.subrange(from as int, to as int));
    }
    r
}

/// Splits a line into whitespace-separated tokens.
pub fn tokenize(s: &Vec<u8>) -> (r: Vec<Vec<u8>>)
    ensures
        byte_views(r@) == spec_tokens_from(s@, 0),
{
    let ghost goal = spec_tokens_from(s@, 0);
    let mut out: Vec<Vec<u8>> = Vec::new();
    let mut p: usize = 0;
    proof {
        assert(byte_views(out@) =~= Seq::<Seq<u8>>::empty());
        assert(Seq::<Seq<u8>>::empty() + goal =~= goal);
    }
    while p < s.len()
        invariant
            p <= s@.len(),
            goal == byte_views(out@) + spec_tokens_from(s@, p as int),
        decreases s@.len() - p,
    {
        if is_space_at(s, p) {
            p = p + 1;
        } else {
            let e: usize = nonspace_end_at(s, p);
            proof {
                lemma_nonspace_end_bounds(s@, p as int + 1);
            }
            let tok: Vec<u8> = copy_range(s, p, e);
            proof {
                assert(byte_views(out@.push(tok)) =~= byte_views(out@).push(tok@));
                assert(byte_views(out@) + (seq![tok@] + spec_tokens_from(s@, e as int))
                    =~= byte_views(out@).push(tok@) + spec_tokens_from(s@, e as int));
            }
            out.push(tok);
            p = e;
        }
    }
    proof {
        assert(byte_views(out@) + Seq::<Seq<u8>>::empty() =~= byte_views(out@));
    }
    out
}

/// The numeric samples of a line in positional mode, in token order.
pub fn line_values(s: &Vec<u8>) -> (r: Vec<i64>)
    ensures
        r@.len() == spec_line_values(spec_tokens_from(s@, 0)).len(),
        forall|i: int|
            0 <= i < r@.len() ==> r@[i] as int == spec_line_values(spec_tokens_from(s@, 0))[i],
{
    let tokens: Vec<Vec<u8>> = tokenize(s);
    let ghost ts = spec_tokens_from(s@, 0);
    let mut r: Vec<i64> = Vec::new();
    let mut i: usize = 0;
    while i < tokens.len()
        invariant
            byte_views(tokens@) == ts,
            i <= tokens@.len(),
            r@.len() == spec_line_values(ts.take(i as int)).len(),
            forall|k: int|
                0 <= k < r@.len() ==> r@[k] as int == spec_line_values(ts.take(i as int))[k],
        decreases tokens@.len() - i,
    {
        proof {
            assert(ts.take(i + 1).drop_last() =~= ts.take(i as int));
            assert(ts.take(i + 1).last() == ts[i as int]);
            assert(ts[i as int] == tokens@[i as int]@);
        }
        match parse_token(&tokens[i]) {
            Some(v) => {
                r.push(v);
            },
            None => {},
        }
        i = i + 1;
    }
    proof {
        assert(ts.take(ts.len() as int) =~= ts);
    }
    r
}

/// Whether the unit label occurs at `q`, compared byte for byte with ASCII
/// case folding.
pub open spec fn unit_eq_at(s: Seq<u8>, u: Seq<u8>, q: int) -> bool {
    0 <= q && q + u.len() <= s.len() && forall|k: int|
        0 <= k < u.len() ==> lower(s[q + k]) == lower(#[trigger] u[k])
}

/// The whole-word check after the unit: when the unit ends in a word
/// character, no word character may follow it.
pub open spec fn right_ok(s: Seq<u8>, u: Seq<u8>, e: int) -> bool {
    if u.len() > 0 && is_word_byte(u.last()) {
        e >= s.len() || !is_word_byte(s[e])
    } else {
        true
    }
}

/// Whether, right after the number at `q`, optional whitespace and then the
/// unit follow, as a whole word.
pub open spec fn tail_at(s: Seq<u8>, u: Seq<u8>, q: int) -> bool
    recommends
        0 <= q <= s.len(),
{
    unit_eq_at(s, u, spaces_end(s, q)) && right_ok(s, u, spaces_end(s, q) + u.len())
}

/// Whether a digit at `p` starts a number at a word boundary.
pub open spec fn left_ok(s: Seq<u8>, p: int) -> bool {
    0 <= p < s.len() && is_digit(s[p]) && (p == 0 || !is_word_byte(s[p - 1]))
}

/// Whether the number starting at `p` carries a fraction: a dot and at
/// least one digit right after its integer digits.
pub open spec fn frac_ok_at(s: Seq<u8>, p: int) -> bool
    recommends
        0 <= p <= s.len(),
{
    let d = digits_end(s, p);
    d < s.len() && s[d] == 0x2e && d + 1 < s.len() && is_digit(s[d + 1])
}

/// Whether a unit-tagged number match starts at `p`: a number at a word
/// boundary — with its fraction when one follows, else without — then
/// optional whitespace and the unit as a whole word.
pub open spec fn match_at(s: Seq<u8>, u: Seq<u8>, p: int) -> bool {
    left_ok(s, p) && {
        let d = digits_end(s, p);
        ||| (frac_ok_at(s, p) && tail_at(s, u, digits_end(s, d + 1)))
        ||| tail_at(s, u, d)
    }
}

/// The milli-unit value of the match at `p`; the fraction counts whenever
/// the fractional alternative is the one that matches.
pub open spec fn match_value(s: Seq<u8>, u: Seq<u8>, p: int) -> int
    recommends
        match_at(s, u, p),
{
    let d = digits_end(s, p);
    if frac_ok_at(s, p) && tail_at(s, u, digits_end(s, d + 1)) {
        sat_milli(digits_val(s, p, d), frac_milli(s, d + 1, digits_end(s, d + 1)))
    } else {
        sat_milli(digits_val(s, p, d), 0)
    }
}

/// The first match of a line for one unit label.
pub open spec fn is_first_match(s: Seq<u8>, u: Seq<u8>, p: int) -> bool {
    match_at(s, u, p) && forall|q: int| 0 <= q < p ==> !match_at(s, u, q)
}

/// A match value lies between 0 and the largest sample value.
pub proof fn lemma_match_value_range(s: Seq<u8>, u: Seq<u8>, p: int)
    requires
        match_at(s, u, p),
    ensures
        0 <= match_value(s, u, p) <= sample_max(),
{
    lemma_digits_end_run(s, p);
    let d = digits_end(s, p);
    lemma_digits_val_nonneg(s, p, d);
    let w = digits_val(s, p, d);
    assert(w * 1000 >= 0) by (nonlinear_arith)
        requires
            w >= 0,
    ;
    if frac_ok_at(s, p) && tail_at(s, u, digits_end(s, d + 1)) {
        lemma_digits_end_run(s, d + 1);
    }
}

/// Whether the tail after a number matches: optional whitespace, the unit
/// with ASCII case folding, and the whole-word check.
fn tail_matches_at(line: &Vec<u8>, unit: &Vec<u8>, q: usize) -> (b: bool)
    requires
        q <= line@.len(),
    ensures
        b == tail_at(line@, unit@, q as int),
{
    let sp: usize = spaces_end_at(line, q);
    if unit.len() > line.len() - sp {
        return false;
    }
    let n: usize = line.len();
    let mut k: usize = 0;
    while k < unit.len()
        invariant
            n == line@.len(),
            sp as int + unit@.len() <= line@.len(),
            sp as int == spaces_end(line@, q as int),
            k <= unit@.len(),
            forall|j: int| 0 <= j < k ==> lower(line@[sp + j]) == lower(#[trigger] unit@[j]),
        decreases unit@.len() - k,
    {
        proof {
            assert((sp as int + k as int) < line@.len());
        }
        if lower_byte(line[sp + k]) != lower_byte(unit[k]) {
            proof {
                assert(!unit_eq_at(line@, unit@, sp as int));
            }
            return false;
        }
        k = k + 1;
    }
    let e: usize = sp + unit.len();
    if unit.len() > 0 && is_word_at(unit, unit.len() - 1) && e < line.len() && is_word_at(line, e) {
        return false;
    }
    true
}

/// Whether a unit-tagged match starts at `p`, and its value.
fn try_match_at(line: &Vec<u8>, unit: &Vec<u8>, p: usize) -> (r: Option<i64>)
    requires
        p < line@.len(),
    ensures
        r is Some <==> match_at(line@, unit@, p as int),
        r is Some ==> r->0 as int == match_value(line@, unit@, p as int),
{
    if !is_digit_at(line, p) {
        return None;
    }
    if p > 0 && is_word_at(line, p - 1) {
        return None;
    }
    let d: usize = digits_end_at(line, p);
    proof {
        lemma_digits_end_run(line@, p as int);
    }
    if d < line.len() && line[d] == 0x2e && d + 1 < line.len() && is_digit_at(line, d + 1) {
        let f: usize = digits_end_at(line, d + 1);
        proof {
            lemma_digits_end_run(line@, d as int + 1);
        }
        if tail_matches_at(line, unit, f) {
            let w: u64 = digits_val_sat(line, p, d);
            let fr: u64 = frac_milli_at(line, d + 1, f);
            proof {
                lemma_digits_val_nonneg(line@, p as int, d as int);
                lemma_sat_of_saturated(digits_val(line@, p as int, d as int), fr as int, w as int);
            }
            return Some(sat_milli_exec(w, fr));
        }
    }
    if tail_matches_at(line, unit, d) {
        let w: u64 = digits_val_sat(line, p, d);
        proof {
            lemma_digits_val_nonneg(line@, p as int, d as int);
            lemma_sat_of_saturated(digits_val(line@, p as int, d as int), 0, w as int);
        }
        return Some(sat_milli_exec(w, 0));
    }
    None
}

/// The value of the first place in the line where a number is followed,
/// after optional whitespace, by the unit label as a whole word — the
/// unit-tag extraction of one configured unit.
pub fn find_unit_value(line: &Vec<u8>, unit: &Vec<u8>) -> (r: Option<i64>)
    ensures
        r is Some <==> exists|p: int| match_at(line@, unit@, p),
        r is Some ==> exists|p: int|
            #[trigger] is_first_match(line@, unit@, p) && r->0 as int == match_value(
                line@,
                unit@,
                p,
            ),
        r is Some ==> r->0 >= 0,
{
    let mut p: usize = 0;
    while p < line.len()
        invariant
            p <= line@.len(),
            forall|q: int| 0 <= q < p ==> !match_at(line@, unit@, q),
        decreases line@.len() - p,
    {
        match try_match_at(line, unit, p) {
            Some(v) => {
                proof {
                    lemma_match_value_range(line@, unit@, p as int);
                    assert(is_first_match(line@, unit@, p as int));
                }
                return Some(v);
            },
            None => {},
        }
        p = p + 1;
    }
    proof {
        assert(forall|q: int| #[trigger] match_at(line@, unit@, q) ==> 0 <= q < line@.len());
    }
    None
}

/// Saturation commutes with a pre-saturated whole part: the milli value of
/// the exact whole equals the milli value of its saturated stand-in.
proof fn lemma_sat_of_saturated(exact: int, frac: int, w: int)
    requires
        0 <= frac <= 999,
        exact >= 0,
        exact <= sample_max() ==> w == exact,
        exact > sample_max() ==> w == sample_max(),
    ensures
        sat_milli(w, frac) == sat_milli(exact, frac),
{
    if exact > sample_max() {
        assert(exact * 1000 >= exact) by (nonlinear_arith)
            requires
                exact >= 0,
        ;
        assert(w * 1000 >= w) by (nonlinear_arith)
            requires
                w >= 0,
        ;
    }
}

} // verus!
