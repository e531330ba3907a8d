use vstd::prelude::*;

use crate::errors::CoreError;

verus! {

// Byte values of the characters that structure the format.
pub const QUOTE: u8 = 0x22;

pub const BACKSLASH: u8 = 0x5c;

pub const LBRACE: u8 = 0x7b;

pub const RBRACE: u8 = 0x7d;

pub const COMMA: u8 = 0x2c;

pub const COLON: u8 = 0x3a;

pub const LETTER_U: u8 = 0x75;

pub const DIGIT_ZERO: u8 = 0x30;

/// First byte value that needs no control escape.
pub const CONTROL_LIMIT: u8 = 0x20;

/// The lower-case hex digit character for a value below 16.
pub open spec fn hex_digit(v: u8) -> u8 {
    if v < 10 {
        (v + 0x30) as u8
    } else {
        (v + 0x57) as u8
    }
}

/// How one byte of a string value is written inside a quoted string: quote
/// and backslash get a backslash escape, control bytes a \u00XX escape with
/// lower-case hex digits, and every other byte stands for itself.
pub open spec fn esc_byte(b: u8) -> Seq<u8> {
    if b == QUOTE {
        seq![BACKSLASH, QUOTE]
    } else if b == BACKSLASH {
        seq![BACKSLASH, BACKSLASH]
    } else if b < CONTROL_LIMIT {
        seq![BACKSLASH, LETTER_U, DIGIT_ZERO, DIGIT_ZERO, hex_digit(b / 16), hex_digit(b % 16)]
    } else {
        seq![b]
    }
}

/// The escaped form of a whole string value.
pub open spec fn esc(v: Seq<u8>) -> Seq<u8>
    decreases v.len(),
{
    if v.len() == 0 {
        Seq::<u8>::empty()
    } else {
        esc_byte(v[0]) + esc(v.skip(1))
    }
}

/// From position `start`, `s` reads as the escaped form of `v`, a closing
/// quote, and then `rest`.
pub open spec fn quoted_at(s: Seq<u8>, start: int, v: Seq<u8>, rest: Seq<u8>) -> bool {
    s.skip(start) == esc(v) + seq![QUOTE] + rest
}

/// Some quoted string value `v` begins at position `start` of `s`.
pub open spec fn has_quoted_at(s: Seq<u8>, start: int, v: Seq<u8>) -> bool {
    exists|rest: Seq<u8>| #[trigger] quoted_at(s, start, v, rest)
}

/// The scanner's relation to a hypothetical quoted value: the bytes read so
/// far are a prefix of it and the remaining input still reads as its tail.
spec fn scan_inv(s: Seq<u8>, i: int, out: Seq<u8>, v: Seq<u8>, rest: Seq<u8>) -> bool {
    &&& out.len() <= v.len()
    &&& out == v.take(out.len() as int)
    &&& s.skip(i) == esc(v.skip(out.len() as int)) + seq![QUOTE] + rest
}

/// Basic facts about single-byte escapes: their length, and that their first
/// byte is never a quote and never a control byte.
proof fn lemma_esc_byte_first(b: u8)
    ensures
        1 <= esc_byte(b).len() <= 6,
        esc_byte(b)[0] != QUOTE,
        esc_byte(b)[0] >= CONTROL_LIMIT,
        esc_byte(b)[0] == BACKSLASH <==> (b == QUOTE || b == BACKSLASH || b < CONTROL_LIMIT),
        b != QUOTE && b != BACKSLASH && b >= CONTROL_LIMIT ==> esc_byte(b) == seq![b],
        esc_byte(b).len() == 2 ==> esc_byte(b)[1] == QUOTE || esc_byte(b)[1] == BACKSLASH,
        esc_byte(b).len() == 6 ==> esc_byte(b)[1] == LETTER_U,
{
}

/// Hex digits are unambiguous: equal digit characters come from equal values.
proof fn lemma_hex_digit_inj(a: u8, b: u8)
    requires
        a < 16,
        b < 16,
        hex_digit(a) == hex_digit(b),
    ensures
        a == b,
{
}

/// A byte escape followed by anything determines the byte: two escape
/// streams that agree byte for byte begin with the same value.
proof fn lemma_esc_byte_prefix(x: u8, y: u8, t1: Seq<u8>, t2: Seq<u8>)
    requires
        esc_byte(x) + t1 == esc_byte(y) + t2,
    ensures
        x == y,
        t1 == t2,
{
    let a = esc_byte(x) + t1;
    lemma_esc_byte_first(x);
    lemma_esc_byte_first(y);
    assert(a[0] == esc_byte(x)[0]);
    assert(a[0] == esc_byte(y)[0]);
    if esc_byte(x)[0] == BACKSLASH {
        // both are escapes; the second byte separates the three escape forms
        assert(esc_byte(x).len() >= 2 && esc_byte(y).len() >= 2);
        assert(a[1] == esc_byte(x)[1]);
        assert(a[1] == esc_byte(y)[1]);
        if x < CONTROL_LIMIT {
            assert(y < CONTROL_LIMIT);
            assert(a[4] == hex_digit(x / 16) && a[5] == hex_digit(x % 16));
            assert(a[4] == hex_digit(y / 16) && a[5] == hex_digit(y % 16));
            lemma_hex_digit_inj(x / 16, y / 16);
            lemma_hex_digit_inj(x % 16, y % 16);
            assert(x == x / 16 * 16 + x % 16);
            assert(y == y / 16 * 16 + y % 16);
        } else {
            assert(x == y);
        }
    } else {
        assert(esc_byte(x) == seq![x]);
        assert(esc_byte(y) == seq![y]);
    }
    assert(esc_byte(x).len() == esc_byte(y).len());
    assert((esc_byte(x) + t1).len() == esc_byte(x).len() + t1.len());
    assert((esc_byte(y) + t2).len() == esc_byte(y).len() + t2.len());
    assert(t1.len() == t2.len());
    assert forall|j: int| 0 <= j < t1.len() implies t1[j] == t2[j] by {
        assert(t1[j] == (esc_byte(x) + t1)[j + esc_byte(x).len()]);
        assert(t2[j] == (esc_byte(y) + t2)[j + esc_byte(y).len()]);
    }
    assert(t1 =~= t2);
}

/// Unfolding the escape of a suffix one byte at a time.
proof fn lemma_esc_unfold_at(v: Seq<u8>, k: int)
    requires
        0 <= k < v.len(),
    ensures
        esc(v.skip(k)) == esc_byte(v[k]) + esc(v.skip(k + 1)),
{
    assert(v.skip(k)[0] == v[k]);
    assert(v.skip(k).skip(1) =~= v.skip(k + 1));
}

/// Appending one byte to a value appends its escape to the escaped form.
pub proof fn lemma_esc_snoc(v: Seq<u8>, b: u8)
    ensures
        esc(v.push(b)) == esc(v) + esc_byte(b),
    decreases v.len(),
{
    if v.len() == 0 {
        assert(v.push(b).skip(1) =~= Seq::<u8>::empty());
        assert(v.push(b)[0] == b);
        assert(esc(Seq::<u8>::empty()) =~= Seq::<u8>::empty());
        assert(esc(v.push(b)) == esc_byte(b) + esc(Seq::<u8>::empty()));
        assert(esc(v.push(b)) =~= esc(v) + esc_byte(b));
    } else {
        assert(v.push(b).skip(1) =~= v.skip(1).push(b));
        lemma_esc_snoc(v.skip(1), b);
        assert(esc(v.push(b)) =~= esc(v) + esc_byte(b));
    }
}

/// What the head of the remaining input must be under a scan invariant:
/// either the value is exhausted and a closing quote follows, or the next
/// byte escape of the value follows in full.
proof fn lemma_scan_head(s: Seq<u8>, i: int, out: Seq<u8>, v: Seq<u8>, rest: Seq<u8>)
    requires
        0 <= i <= s.len(),
        scan_inv(s, i, out, v, rest),
    ensures
        out.len() == v.len() ==> i < s.len() && s[i] == QUOTE,
        out.len() < v.len() ==> {
            let e = esc_byte(v[out.len() as int]);
            &&& i + e.len() + 1 <= s.len()
            &&& s.subrange(i, i + e.len()) == e
            &&& s.skip(i + e.len()) == esc(v.skip(out.len() as int + 1)) + seq![QUOTE] + rest
        },
{
    let k = out.len() as int;
    let tail = s.skip(i);
    assert(tail.len() == s.len() - i);
    if k == v.len() {
        assert(v.skip(k) =~= Seq::<u8>::empty());
        assert(tail[0] == QUOTE);
        assert(s[i] == tail[0]);
    } else {
        lemma_esc_unfold_at(v, k);
        let e = esc_byte(v[k]);
        lemma_esc_byte_first(v[k]);
        assert(tail == e + (esc(v.skip(k + 1)) + seq![QUOTE] + rest)) by {
            assert(e + (esc(v.skip(k + 1)) + seq![QUOTE] + rest) =~= (e + esc(v.skip(k + 1)))
                + seq![QUOTE] + rest);
        }
        assert(tail.len() >= e.len() + 1);
        assert forall|j: int| 0 <= j < e.len() implies s.subrange(i, i + e.len())[j] == e[j] by {
            assert(s.subrange(i, i + e.len())[j] == tail[j]);
        }
        assert(s.subrange(i, i + e.len()) =~= e);
        let x = esc(v.skip(k + 1)) + seq![QUOTE] + rest;
        assert forall|j: int| 0 <= j < x.len() implies s.skip(i + e.len())[j] == x[j] by {
            assert(tail[j + e.len()] == x[j]);
            assert(s.skip(i + e.len())[j] == tail[j + e.len()]);
        }
        assert(s.skip(i + e.len()) =~= x);
    }
}

/// One scanner step: after consuming the full escape of byte `b`, the scan
/// invariant holds with `b` appended to the output.
proof fn lemma_scan_step(s: Seq<u8>, start: int, i: int, out: Seq<u8>, b: u8)
    requires
        0 <= start <= i <= s.len(),
        i + esc_byte(b).len() <= s.len(),
        s.subrange(start, i) == esc(out),
        s.subrange(i, i + esc_byte(b).len()) == esc_byte(b),
        forall|v: Seq<u8>, rest: Seq<u8>| #[trigger]
            quoted_at(s, start, v, rest) ==> scan_inv(s, i, out, v, rest),
    ensures
        s.subrange(start, i + esc_byte(b).len()) == esc(out.push(b)),
        forall|v: Seq<u8>, rest: Seq<u8>| #[trigger]
            quoted_at(s, start, v, rest) ==> scan_inv(
                s,
                i + esc_byte(b).len(),
                out.push(b),
                v,
                rest,
            ),
{
    let e = esc_byte(b);
    lemma_esc_snoc(out, b);
    assert(s.subrange(start, i + e.len()) =~= s.subrange(start, i) + s.subrange(i, i + e.len()));
    assert forall|v: Seq<u8>, rest: Seq<u8>| #[trigger]
        quoted_at(s, start, v, rest) implies scan_inv(
        s,
        i + e.len(),
        out.push(b),
        v,
        rest,
    ) by {
        let k = out.len() as int;
        lemma_scan_head(s, i, out, v, rest);
        lemma_esc_byte_first(b);
        if k == v.len() {
            // the remaining input would start with a quote, but an escape never does
            assert(s[i] == esc_byte(b)[0]);
            assert(false);
        } else {
            let eh = esc_byte(v[k]);
            assert(s.skip(i) == eh + (esc(v.skip(k + 1)) + seq![QUOTE] + rest)) by {
                lemma_esc_unfold_at(v, k);
                assert(eh + (esc(v.skip(k + 1)) + seq![QUOTE] + rest) =~= (eh + esc(v.skip(k + 1)))
                    + seq![QUOTE] + rest);
            }
            assert(s.skip(i) == e + s.skip(i + e.len())) by {
                assert(e + s.skip(i + e.len()) =~= s.skip(i));
            }
            lemma_esc_byte_prefix(b, v[k], s.skip(i + e.len()), esc(v.skip(k + 1)) + seq![QUOTE]
                + rest);
            assert(v[k] == b);
            assert(out.push(b) =~= v.take(k + 1));
        }
    }
}

/// The value of a lower-case hex digit character, if it is one.
fn hex_val(c: u8) -> (r: Option<u8>)
    ensures
        r is Some ==> r->0 < 16 && c == hex_digit(r->0),
        r is None ==> forall|v: u8| v < 16 ==> c != hex_digit(v),
{
    if 0x30 <= c && c <= 0x39 {
        Some(c - 0x30)
    } else if 0x61 <= c && c <= 0x66 {
        Some(c - 0x57)
    } else {
        assert forall|v: u8| v < 16 implies c != hex_digit(v) by {
            if v < 10 {
            } else {
            }
        }
        None
    }
}

/// Scans one quoted string value of `s` beginning at `start` (just after the
/// opening quote), decoding escapes, up to but not including the closing
/// quote. Strict: accepts exactly the spellings that `esc` produces.
/// The second `ensures` clause makes the scanner total and exact on them:
/// whenever some value's escaped form sits at `start`, scanning finds
/// precisely that value.
pub fn scan_string(s: &Vec<u8>, start: usize) -> (r: Result<(Vec<u8>, usize), CoreError>)
    requires
        start <= s@.len(),
    ensures
        r is Ok ==> ({
            let (v, end) = r->Ok_0;
            &&& start <= end < s@.len()
            &&& s@[end as int] == QUOTE
            &&& s@.subrange(start as int, end as int) == esc(v@)
        }),
        forall|v: Seq<u8>| #[trigger]
            has_quoted_at(s@, start as int, v) ==> r is Ok && r->Ok_0.0@ == v && r->Ok_0.1 == start
                + esc(v).len(),
        r is Err ==> r->Err_0 == CoreError::DecodeError,
{
    let mut i: usize = start;
    let mut out: Vec<u8> = Vec::new();
    proof {
        assert(s@.subrange(start as int, start as int) =~= esc(out@));
        assert forall|v: Seq<u8>, rest: Seq<u8>| #[trigger]
            quoted_at(s@, start as int, v, rest) implies scan_inv(
            s@,
            start as int,
            out@,
            v,
            rest,
        ) by {
            assert(out@ =~= v.take(0));
            assert(v.skip(0) =~= v);
        }
    }
    while i < s.len()
        invariant
            start <= i <= s@.len(),
            s@.subrange(start as int, i as int) == esc(out@),
            forall|v: Seq<u8>, rest: Seq<u8>| #[trigger]
                quoted_at(s@, start as int, v, rest) ==> scan_inv(s@, i as int, out@, v, rest),
        decreases s@.len() - i,
    {
        let c = s[i];
        if c == QUOTE {
            proof {
                assert forall|v: Seq<u8>| #[trigger]
                    has_quoted_at(s@, start as int, v) implies out@ == v && i == start + esc(
                    v,
                ).len() by {
                    let rest = choose|rest: Seq<u8>| #[trigger]
                        quoted_at(s@, start as int, v, rest);
                    lemma_scan_head(s@, i as int, out@, v, rest);
                    if out@.len() < v.len() {
                        lemma_esc_byte_first(v[out@.len() as int]);
                        assert(s@[i as int] == esc_byte(v[out@.len() as int])[0]);
                        assert(false);
                    }
                    assert(out@ =~= v);
                }
            }
            return Ok((out, i));
        }
        let ghost old_out = out@;
        let ghost old_i = i as int;
        if c == BACKSLASH {
            if i + 1 >= s.len() {
                proof {
                    scan_no_witness_long(s@, start as int, i as int, out@);
                }
                return Err(CoreError::DecodeError);
            }
            let e = s[i + 1];
            if e == QUOTE {
                out.push(QUOTE);
                proof {
                    assert(s@.subrange(old_i, old_i + 2) =~= esc_byte(QUOTE));
                    lemma_scan_step(s@, start as int, old_i, old_out, QUOTE);
                }
                i = i + 2;
            } else if e == BACKSLASH {
                out.push(BACKSLASH);
                proof {
                    assert(s@.subrange(old_i, old_i + 2) =~= esc_byte(BACKSLASH));
                    lemma_scan_step(s@, start as int, old_i, old_out, BACKSLASH);
                }
                i = i + 2;
            } else if e == LETTER_U {
                if s.len() - i < 6 {
                    proof {
                        scan_no_witness_long(s@, start as int, i as int, out@);
                    }
                    return Err(CoreError::DecodeError);
                }
                let d0 = s[i + 2];
                let d1 = s[i + 3];
                let h = hex_val(s[i + 4]);
                let l = hex_val(s[i + 5]);
                if d0 != DIGIT_ZERO || d1 != DIGIT_ZERO || h.is_none() || l.is_none() {
                    proof {
                        assert forall|bb: u8| bb < CONTROL_LIMIT implies s@.subrange(
                            i as int,
                            i as int + 6,
                        ) != esc_byte(bb) by {
                            if s@.subrange(i as int, i as int + 6) == esc_byte(bb) {
                                assert(s@[i as int + 2] == esc_byte(bb)[2]);
                                assert(s@[i as int + 3] == esc_byte(bb)[3]);
                                assert(s@[i as int + 4] == hex_digit(bb / 16));
                                assert(s@[i as int + 5] == hex_digit(bb % 16));
                                assert(bb / 16 < 16 && bb % 16 < 16);
                                assert(false);
                            }
                        }
                        scan_no_witness_u(s@, start as int, i as int, out@);
                    }
                    return Err(CoreError::DecodeError);
                }
                let b = h.unwrap() * 16 + l.unwrap();
                if b >= CONTROL_LIMIT {
                    proof {
                        assert forall|bb: u8| bb < CONTROL_LIMIT implies s@.subrange(
                            i as int,
                            i as int + 6,
                        ) != esc_byte(bb) by {
                            if s@.subrange(i as int, i as int + 6) == esc_byte(bb) {
                                assert(s@[i as int + 4] == hex_digit(bb / 16));
                                assert(s@[i as int + 5] == hex_digit(bb % 16));
                                assert(bb / 16 < 16 && bb % 16 < 16);
                                lemma_hex_digit_inj(h->0, bb / 16);
                                lemma_hex_digit_inj(l->0, bb % 16);
                                assert(bb == bb / 16 * 16 + bb % 16);
                                assert(false);
                            }
                        }
                        scan_no_witness_u(s@, start as int, i as int, out@);
                    }
                    return Err(CoreError::DecodeError);
                }
                out.push(b);
                proof {
                    assert(b / 16 == h->0 && b % 16 == l->0);
                    assert(s@.subrange(old_i, old_i + 6) =~= esc_byte(b));
                    lemma_scan_step(s@, start as int, old_i, old_out, b);
                }
                i = i + 6;
            } else {
                proof {
                    scan_no_witness_u(s@, start as int, i as int, out@);
                }
                return Err(CoreError::DecodeError);
            }
        } else if c < CONTROL_LIMIT {
            proof {
                assert forall|v: Seq<u8>| !(#[trigger] has_quoted_at(s@, start as int, v)) by {
                    if has_quoted_at(s@, start as int, v) {
                        let rest = choose|rest: Seq<u8>| #[trigger]
                            quoted_at(s@, start as int, v, rest);
                        lemma_scan_head(s@, i as int, out@, v, rest);
                        if out@.len() < v.len() {
                            lemma_esc_byte_first(v[out@.len() as int]);
                            assert(s@[i as int] == esc_byte(v[out@.len() as int])[0]);
                        }
                        assert(false);
                    }
                }
            }
            return Err(CoreError::DecodeError);
        } else {
            out.push(c);
            proof {
                lemma_esc_byte_first(c);
                assert(s@.subrange(old_i, old_i + 1) =~= esc_byte(c));
                lemma_scan_step(s@, start as int, old_i, old_out, c);
            }
            i = i + 1;
        }
    }
    proof {
        assert forall|v: Seq<u8>| !(#[trigger] has_quoted_at(s@, start as int, v)) by {
            if has_quoted_at(s@, start as int, v) {
                let rest = choose|rest: Seq<u8>| #[trigger] quoted_at(s@, start as int, v, rest);
                assert(scan_inv(s@, i as int, out@, v, rest));
                assert(s@.skip(i as int).len() == 0);
                assert((esc(v.skip(out@.len() as int)) + seq![QUOTE] + rest).len() >= 1);
                assert(false);
            }
        }
    }
    Err(CoreError::DecodeError)
}

/// No quoted value can sit at `start` when a backslash at `i` is followed by
/// too few bytes for any escape form: under two bytes in all, or under six
/// when the escape announces itself as a \u escape.
proof fn scan_no_witness_long(s: Seq<u8>, start: int, i: int, out: Seq<u8>)
    requires
        0 <= start <= i < s.len(),
        s[i] == BACKSLASH,
        s.len() - i < 2 || (i + 1 < s.len() && s[i + 1] == LETTER_U && s.len() - i < 6),
        forall|v: Seq<u8>, rest: Seq<u8>| #[trigger]
            quoted_at(s, start, v, rest) ==> scan_inv(s, i, out, v, rest),
    ensures
        forall|v: Seq<u8>| !(#[trigger] has_quoted_at(s, start, v)),
{
    assert forall|v: Seq<u8>| !(#[trigger] has_quoted_at(s, start, v)) by {
        if has_quoted_at(s, start, v) {
            let rest = choose|rest: Seq<u8>| #[trigger] quoted_at(s, start, v, rest);
            lemma_scan_head(s, i, out, v, rest);
            if out.len() < v.len() {
                let b = v[out.len() as int];
                lemma_esc_byte_first(b);
                assert(s[i] == s.subrange(i, i + esc_byte(b).len() as int)[0]);
                assert(s[i] == esc_byte(b)[0]);
                assert(b == QUOTE || b == BACKSLASH || b < CONTROL_LIMIT);
                // every escape has at least two bytes, and a quote follows it
                assert(i + esc_byte(b).len() + 1 <= s.len());
                if s.len() - i < 2 {
                } else {
                    assert(s[i + 1] == s.subrange(i, i + esc_byte(b).len() as int)[1]);
                    assert(s[i + 1] == esc_byte(b)[1]);
                    // the second byte says this is a \u escape, which has six bytes
                    assert(b < CONTROL_LIMIT);
                    assert(i + 7 <= s.len());
                }
            }
            assert(false);
        }
    }
}

/// No quoted value can sit at `start` when the bytes at `i` begin with a
/// backslash but continue with none of the three escape forms.
proof fn scan_no_witness_u(s: Seq<u8>, start: int, i: int, out: Seq<u8>)
    requires
        0 <= start <= i,
        i + 2 <= s.len(),
        s[i] == BACKSLASH,
        s[i + 1] != QUOTE && s[i + 1] != BACKSLASH,
        s[i + 1] == LETTER_U ==> i + 6 <= s.len() && (forall|b: u8|
            b < CONTROL_LIMIT ==> s.subrange(i, i + 6) != #[trigger] esc_byte(b)),
        forall|v: Seq<u8>, rest: Seq<u8>| #[trigger]
            quoted_at(s, start, v, rest) ==> scan_inv(s, i, out, v, rest),
    ensures
        forall|v: Seq<u8>| !(#[trigger] has_quoted_at(s, start, v)),
{
    assert forall|v: Seq<u8>| !(#[trigger] has_quoted_at(s, start, v)) by {
        if has_quoted_at(s, start, v) {
            let rest = choose|rest: Seq<u8>| #[trigger] quoted_at(s, start, v, rest);
            lemma_scan_head(s, i, out, v, rest);
            if out.len() < v.len() {
                let b = v[out.len() as int];
                lemma_esc_byte_first(b);
                assert(s[i] == esc_byte(b)[0]);
                assert(b == QUOTE || b == BACKSLASH || b < CONTROL_LIMIT);
                assert(s[i + 1] == s.subrange(i, i + esc_byte(b).len() as int)[1]);
                assert(s[i + 1] == esc_byte(b)[1]);
                if b < CONTROL_LIMIT {
                    assert(s.subrange(i, i + 6) == esc_byte(b));
                }
            }
            assert(false);
        }
    }
}

} // verus!
