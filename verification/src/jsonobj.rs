use vstd::prelude::*;

use crate::codec::append_bytes;
use crate::errors::CoreError;
use crate::jsontext::{
    esc, has_quoted_at, hex_digit, lemma_esc_snoc, quoted_at, scan_string, BACKSLASH, COLON, COMMA,
    CONTROL_LIMIT, DIGIT_ZERO, LBRACE, LETTER_U, QUOTE, RBRACE,
};

verus! {

/// The opening of a three-field object up to the first value: a brace, the
/// first key in quotes, a colon, and the opening quote of the value.
pub open spec fn key_head(k: Seq<u8>) -> Seq<u8> {
    seq![LBRACE, QUOTE] + k + seq![QUOTE, COLON, QUOTE]
}

/// The text between two values: the closing quote of the one before, a
/// comma, the next key in quotes, a colon, and the next opening quote.
pub open spec fn key_mid(k: Seq<u8>) -> Seq<u8> {
    seq![QUOTE, COMMA, QUOTE] + k + seq![QUOTE, COLON, QUOTE]
}

/// The end of the object: the last value's closing quote and the brace.
pub open spec fn obj_tail() -> Seq<u8> {
    seq![QUOTE, RBRACE]
}

/// The canonical text of an object of three string fields, in order, with
/// each value escaped.
pub open spec fn json3(
    k1: Seq<u8>,
    k2: Seq<u8>,
    k3: Seq<u8>,
    v1: Seq<u8>,
    v2: Seq<u8>,
    v3: Seq<u8>,
) -> Seq<u8> {
    key_head(k1) + esc(v1) + key_mid(k2) + esc(v2) + key_mid(k3) + esc(v3) + obj_tail()
}

/// The bytes of `lit` sit in `s` at position `i`.
spec fn lit_at(s: Seq<u8>, i: int, lit: Seq<u8>) -> bool {
    &&& 0 <= i
    &&& i + lit.len() <= s.len()
    &&& s.subrange(i, i + lit.len() as int) == lit
}

/// A segment of a concatenation sits at the position after what precedes it.
proof fn lemma_seg_at(s: Seq<u8>, l: Seq<u8>, x: Seq<u8>, r: Seq<u8>)
    requires
        s == l + x + r,
    ensures
        lit_at(s, l.len() as int, x),
{
    let i = l.len() as int;
    assert(s.len() == l.len() + x.len() + r.len());
    assert forall|j: int| 0 <= j < x.len() implies s.subrange(i, i + x.len() as int)[j]
        == x[j] by {
        assert(s[i + j] == (l + x + r)[i + j]);
        assert((l + x + r)[i + j] == (l + x)[i + j]);
        assert((l + x)[i + j] == x[j]);
    }
    assert(s.subrange(i, i + x.len() as int) =~= x);
}

/// A quoted value of a concatenation begins right after what precedes it,
/// when a quote opens what follows it.
proof fn lemma_quoted_seg_at(s: Seq<u8>, l: Seq<u8>, v: Seq<u8>, r: Seq<u8>)
    requires
        s == l + esc(v) + (seq![QUOTE] + r),
    ensures
        has_quoted_at(s, l.len() as int, v),
{
    let i = l.len() as int;
    assert forall|j: int| 0 <= j < s.len() - i implies s.skip(i)[j] == (esc(v) + seq![QUOTE]
        + r)[j] by {
        assert(s[i + j] == (l + esc(v) + (seq![QUOTE] + r))[i + j]);
        assert(esc(v) + seq![QUOTE] + r =~= esc(v) + (seq![QUOTE] + r));
    }
    assert(s.skip(i) =~= esc(v) + seq![QUOTE] + r);
    assert(quoted_at(s, i, v, r));
}

/// Where each part of a three-field object's text sits: the shape that both
/// the renderer produces and the parser consumes.
proof fn lemma_json3_shape(
    k1: Seq<u8>,
    k2: Seq<u8>,
    k3: Seq<u8>,
    v1: Seq<u8>,
    v2: Seq<u8>,
    v3: Seq<u8>,
    s: Seq<u8>,
)
    requires
        s == json3(k1, k2, k3, v1, v2, v3),
    ensures
        s.len() == key_head(k1).len() + esc(v1).len() + key_mid(k2).len() + esc(v2).len()
            + key_mid(k3).len() + esc(v3).len() + 2,
        lit_at(s, 0, key_head(k1)),
        has_quoted_at(s, key_head(k1).len() as int, v1),
        lit_at(s, (key_head(k1).len() + esc(v1).len()) as int, key_mid(k2)),
        has_quoted_at(s, (key_head(k1).len() + esc(v1).len() + key_mid(k2).len()) as int, v2),
        lit_at(
            s,
            (key_head(k1).len() + esc(v1).len() + key_mid(k2).len() + esc(v2).len()) as int,
            key_mid(k3),
        ),
        has_quoted_at(
            s,
            (key_head(k1).len() + esc(v1).len() + key_mid(k2).len() + esc(v2).len() + key_mid(
                k3,
            ).len()) as int,
            v3,
        ),
        lit_at(
            s,
            (key_head(k1).len() + esc(v1).len() + key_mid(k2).len() + esc(v2).len() + key_mid(
                k3,
            ).len() + esc(v3).len()) as int,
            obj_tail(),
        ),
{
    let a = key_head(k1);
    let b = esc(v1);
    let c = key_mid(k2);
    let d = esc(v2);
    let e = key_mid(k3);
    let f = esc(v3);
    let g = obj_tail();
    assert(s =~= Seq::<u8>::empty() + a + (b + c + d + e + f + g));
    lemma_seg_at(s, Seq::<u8>::empty(), a, b + c + d + e + f + g);
    assert(s =~= a + b + (seq![QUOTE] + (c.skip(1) + d + e + f + g))) by {
        assert(c =~= seq![QUOTE] + c.skip(1));
    }
    lemma_quoted_seg_at(s, a, v1, c.skip(1) + d + e + f + g);
    assert(s =~= (a + b) + c + (d + e + f + g));
    lemma_seg_at(s, a + b, c, d + e + f + g);
    assert(s =~= (a + b + c) + d + (seq![QUOTE] + (e.skip(1) + f + g))) by {
        assert(e =~= seq![QUOTE] + e.skip(1));
    }
    lemma_quoted_seg_at(s, a + b + c, v2, e.skip(1) + f + g);
    assert(s =~= (a + b + c + d) + e + (f + g));
    lemma_seg_at(s, a + b + c + d, e, f + g);
    assert(s =~= (a + b + c + d + e) + f + (seq![QUOTE] + seq![RBRACE])) by {
        assert(g =~= seq![QUOTE] + seq![RBRACE]);
    }
    lemma_quoted_seg_at(s, a + b + c + d + e, v3, seq![RBRACE]);
    assert(s =~= (a + b + c + d + e + f) + g + Seq::<u8>::empty());
    lemma_seg_at(s, a + b + c + d + e + f, g, Seq::<u8>::empty());
}

/// True exactly when the bytes of `lit` sit in `s` at position `i`.
fn expect_lit(s: &Vec<u8>, i: usize, lit: &Vec<u8>) -> (r: bool)
    requires
        i <= s@.len(),
    ensures
        r <==> lit_at(s@, i as int, lit@),
{
    if s.len() - i < lit.len() {
        return false;
    }
    let mut j: usize = 0;
    while j < lit.len()
        invariant
            i + lit@.len() <= s@.len(),
            s@.len() <= usize::MAX,
            j <= lit@.len(),
            forall|t: int| 0 <= t < j ==> s@[i + t] == #[trigger] lit@[t],
        decreases lit@.len() - j,
    {
        if s[i + j] != lit[j] {
            proof {
                assert(s@.subrange(i as int, i + lit@.len() as int)[j as int] == s@[i + j]);
            }
            return false;
        }
        j += 1;
    }
    proof {
        assert forall|t: int| 0 <= t < lit@.len() implies s@.subrange(
            i as int,
            i + lit@.len() as int,
        )[t] == lit@[t] by {
            assert(s@[i + t] == lit@[t]);
        }
        assert(s@.subrange(i as int, i + lit@.len() as int) =~= lit@);
    }
    true
}

/// The exec hex digit character of a value below 16.
fn hex_digit_x(x: u8) -> (r: u8)
    requires
        x < 16,
    ensures
        r == hex_digit(x),
{
    if x < 10 {
        x + 0x30
    } else {
        x + 0x57
    }
}

/// Appends the escaped form of `v` to `out`.
fn esc_append(out: &mut Vec<u8>, v: &Vec<u8>)
    ensures
        final(out)@ == old(out)@ + esc(v@),
{
    let mut j: usize = 0;
    proof {
        assert(v@.take(0) =~= Seq::<u8>::empty());
        assert(out@ =~= old(out)@ + esc(v@.take(0)));
    }
    while j < v.len()
        invariant
            j <= v@.len(),
            out@ == old(out)@ + esc(v@.take(j as int)),
        decreases v@.len() - j,
    {
        let ghost prefix = v@.take(j as int);
        let b = v[j];
        if b == QUOTE {
            out.push(BACKSLASH);
            out.push(QUOTE);
        } else if b == BACKSLASH {
            out.push(BACKSLASH);
            out.push(BACKSLASH);
        } else if b < CONTROL_LIMIT {
            out.push(BACKSLASH);
            out.push(LETTER_U);
            out.push(DIGIT_ZERO);
            out.push(DIGIT_ZERO);
            out.push(hex_digit_x(b / 16));
            out.push(hex_digit_x(b % 16));
        } else {
            out.push(b);
        }
        proof {
            lemma_esc_snoc(prefix, b);
            assert(v@.take(j + 1 as int) =~= prefix.push(b));
            assert(out@ =~= old(out)@ + esc(v@.take(j + 1 as int)));
        }
        j += 1;
    }
    proof {
        assert(v@.take(v@.len() as int) =~= v@);
    }
}

/// The opening literal for a first key, as bytes.
fn head_vec(k: &Vec<u8>) -> (r: Vec<u8>)
    ensures
        r@ == key_head(k@),
{
    let mut r: Vec<u8> = Vec::new();
    r.push(LBRACE);
    r.push(QUOTE);
    append_bytes(&mut r, k);
    r.push(QUOTE);
    r.push(COLON);
    r.push(QUOTE);
    proof {
        assert(r@ =~= key_head(k@));
    }
    r
}

/// The separating literal before a further key, as bytes.
fn mid_vec(k: &Vec<u8>) -> (r: Vec<u8>)
    ensures
        r@ == key_mid(k@),
{
    let mut r: Vec<u8> = Vec::new();
    r.push(QUOTE);
    r.push(COMMA);
    r.push(QUOTE);
    append_bytes(&mut r, k);
    r.push(QUOTE);
    r.push(COLON);
    r.push(QUOTE);
    proof {
        assert(r@ =~= key_mid(k@));
    }
    r
}

/// Renders an object of three string fields as its canonical text.
pub fn render3(
    k1: &Vec<u8>,
    v1: &Vec<u8>,
    k2: &Vec<u8>,
    v2: &Vec<u8>,
    k3: &Vec<u8>,
    v3: &Vec<u8>,
) -> (r: Vec<u8>)
    ensures
        r@ == json3(k1@, k2@, k3@, v1@, v2@, v3@),
{
    let mut out = head_vec(k1);
    esc_append(&mut out, v1);
    let m2 = mid_vec(k2);
    append_bytes(&mut out, &m2);
    esc_append(&mut out, v2);
    let m3 = mid_vec(k3);
    append_bytes(&mut out, &m3);
    esc_append(&mut out, v3);
    out.push(QUOTE);
    out.push(RBRACE);
    proof {
        assert(out@ =~= json3(k1@, k2@, k3@, v1@, v2@, v3@));
    }
    out
}

/// Parses the canonical text of an object of three string fields with the
/// given keys, strictly: exactly the texts that `render3` produces are
/// accepted, anything else is a `DecodeError`.
/// The second `ensures` clause is the parser's completeness: the rendering of
/// any three values parses back to exactly those values.
pub fn parse3(s: &Vec<u8>, k1: &Vec<u8>, k2: &Vec<u8>, k3: &Vec<u8>) -> (r: Result<
    (Vec<u8>, Vec<u8>, Vec<u8>),
    CoreError,
>)
    ensures
        r is Ok ==> s@ == json3(k1@, k2@, k3@, r->Ok_0.0@, r->Ok_0.1@, r->Ok_0.2@),
        forall|v1: Seq<u8>, v2: Seq<u8>, v3: Seq<u8>|
            s@ == #[trigger] json3(k1@, k2@, k3@, v1, v2, v3) ==> r is Ok && r->Ok_0.0@ == v1
                && r->Ok_0.1@ == v2 && r->Ok_0.2@ == v3,
        r is Err ==> r->Err_0 == CoreError::DecodeError,
{
    let slen = s.len();
    let h = head_vec(k1);
    if !expect_lit(s, 0, &h) {
        proof {
            assert forall|v1: Seq<u8>, v2: Seq<u8>, v3: Seq<u8>|
                s@ != #[trigger] json3(k1@, k2@, k3@, v1, v2, v3) by {
                if s@ == json3(k1@, k2@, k3@, v1, v2, v3) {
                    lemma_json3_shape(k1@, k2@, k3@, v1, v2, v3, s@);
                    assert(false);
                }
            }
        }
        return Err(CoreError::DecodeError);
    }
    let p0 = h.len();
    let sc1 = scan_string(s, p0);
    let (u1, q1) = match sc1 {
        Ok(x) => x,
        Err(_) => {
            proof {
                assert forall|v1: Seq<u8>, v2: Seq<u8>, v3: Seq<u8>|
                    s@ != #[trigger] json3(k1@, k2@, k3@, v1, v2, v3) by {
                    if s@ == json3(k1@, k2@, k3@, v1, v2, v3) {
                        lemma_json3_shape(k1@, k2@, k3@, v1, v2, v3, s@);
                        assert(has_quoted_at(s@, p0 as int, v1));
                        assert(false);
                    }
                }
            }
            return Err(CoreError::DecodeError);
        },
    };
    let m2 = mid_vec(k2);
    if !expect_lit(s, q1, &m2) {
        proof {
            assert forall|v1: Seq<u8>, v2: Seq<u8>, v3: Seq<u8>|
                s@ != #[trigger] json3(k1@, k2@, k3@, v1, v2, v3) by {
                if s@ == json3(k1@, k2@, k3@, v1, v2, v3) {
                    lemma_json3_shape(k1@, k2@, k3@, v1, v2, v3, s@);
                    assert(has_quoted_at(s@, p0 as int, v1));
                    assert(q1 == p0 + esc(v1).len());
                    assert(false);
                }
            }
        }
        return Err(CoreError::DecodeError);
    }
    let i1 = q1 + m2.len();
    let sc2 = scan_string(s, i1);
    let (u2, q2) = match sc2 {
        Ok(x) => x,
        Err(_) => {
            proof {
                assert forall|v1: Seq<u8>, v2: Seq<u8>, v3: Seq<u8>|
                    s@ != #[trigger] json3(k1@, k2@, k3@, v1, v2, v3) by {
                    if s@ == json3(k1@, k2@, k3@, v1, v2, v3) {
                        lemma_json3_shape(k1@, k2@, k3@, v1, v2, v3, s@);
                        assert(has_quoted_at(s@, p0 as int, v1));
                        assert(q1 == p0 + esc(v1).len());
                        assert(has_quoted_at(s@, i1 as int, v2));
                        assert(false);
                    }
                }
            }
            return Err(CoreError::DecodeError);
        },
    };
    let m3 = mid_vec(k3);
    if !expect_lit(s, q2, &m3) {
        proof {
            assert forall|v1: Seq<u8>, v2: Seq<u8>, v3: Seq<u8>|
                s@ != #[trigger] json3(k1@, k2@, k3@, v1, v2, v3) by {
                if s@ == json3(k1@, k2@, k3@, v1, v2, v3) {
                    lemma_json3_shape(k1@, k2@, k3@, v1, v2, v3, s@);
                    assert(has_quoted_at(s@, p0 as int, v1));
                    assert(q1 == p0 + esc(v1).len());
                    assert(has_quoted_at(s@, i1 as int, v2));
                    assert(q2 == i1 + esc(v2).len());
                    assert(false);
                }
            }
        }
        return Err(CoreError::DecodeError);
    }
    let i2 = q2 + m3.len();
    let sc3 = scan_string(s, i2);
    let (u3, q3) = match sc3 {
        Ok(x) => x,
        Err(_) => {
            proof {
                assert forall|v1: Seq<u8>, v2: Seq<u8>, v3: Seq<u8>|
                    s@ != #[trigger] json3(k1@, k2@, k3@, v1, v2, v3) by {
                    if s@ == json3(k1@, k2@, k3@, v1, v2, v3) {
                        lemma_json3_shape(k1@, k2@, k3@, v1, v2, v3, s@);
                        assert(has_quoted_at(s@, p0 as int, v1));
                        assert(q1 == p0 + esc(v1).len());
                        assert(has_quoted_at(s@, i1 as int, v2));
                        assert(q2 == i1 + esc(v2).len());
                        assert(has_quoted_at(s@, i2 as int, v3));
                        assert(false);
                    }
                }
            }
            return Err(CoreError::DecodeError);
        },
    };
    let mut t: Vec<u8> = Vec::new();
    t.push(QUOTE);
    t.push(RBRACE);
    proof {
        assert(t@ =~= obj_tail());
    }
    if !expect_lit(s, q3, &t) || q3 + t.len() != slen {
        proof {
            assert forall|v1: Seq<u8>, v2: Seq<u8>, v3: Seq<u8>|
                s@ != #[trigger] json3(k1@, k2@, k3@, v1, v2, v3) by {
                if s@ == json3(k1@, k2@, k3@, v1, v2, v3) {
                    lemma_json3_shape(k1@, k2@, k3@, v1, v2, v3, s@);
                    assert(has_quoted_at(s@, p0 as int, v1));
                    assert(q1 == p0 + esc(v1).len());
                    assert(has_quoted_at(s@, i1 as int, v2));
                    assert(q2 == i1 + esc(v2).len());
                    assert(has_quoted_at(s@, i2 as int, v3));
                    assert(q3 == i2 + esc(v3).len());
                    assert(lit_at(s@, q3 as int, obj_tail()));
                    assert(s@.len() == q3 + 2);
                    assert(false);
                }
            }
        }
        return Err(CoreError::DecodeError);
    }
    proof {
        assert(s@ =~= s@.subrange(0, p0 as int) + s@.subrange(p0 as int, q1 as int) + s@.subrange(
            q1 as int,
            i1 as int,
        ) + s@.subrange(i1 as int, q2 as int) + s@.subrange(q2 as int, i2 as int) + s@.subrange(
            i2 as int,
            q3 as int,
        ) + s@.subrange(q3 as int, s@.len() as int));
        assert(s@.subrange(0, p0 as int) == key_head(k1@));
        assert(s@.subrange(p0 as int, q1 as int) == esc(u1@));
        assert(s@.subrange(q1 as int, i1 as int) == key_mid(k2@));
        assert(s@.subrange(i1 as int, q2 as int) == esc(u2@));
        assert(s@.subrange(q2 as int, i2 as int) == key_mid(k3@));
        assert(s@.subrange(i2 as int, q3 as int) == esc(u3@));
        assert(s@.subrange(q3 as int, s@.len() as int) == obj_tail());
        assert(s@ == json3(k1@, k2@, k3@, u1@, u2@, u3@));
        assert forall|v1: Seq<u8>, v2: Seq<u8>, v3: Seq<u8>|
            s@ == #[trigger] json3(k1@, k2@, k3@, v1, v2, v3) implies u1@ == v1 && u2@ == v2 && u3@
            == v3 by {
            lemma_json3_shape(k1@, k2@, k3@, v1, v2, v3, s@);
            assert(has_quoted_at(s@, p0 as int, v1));
            assert(q1 == p0 + esc(v1).len());
            assert(has_quoted_at(s@, i1 as int, v2));
            assert(q2 == i1 + esc(v2).len());
            assert(has_quoted_at(s@, i2 as int, v3));
        }
    }
    Ok((u1, u2, u3))
}

} // verus!
