use vstd::prelude::*;

use crate::state::WindowState;

verus! {

/// The state file held bytes, but not a well-formed record. Distinct from
/// the file being absent, which is not an error at all.
#[derive(Clone, Copy, PartialEq, Eq, Structural, Debug)]
pub struct ParseError {}

pub open spec fn is_digit(b: u8) -> bool {
    48 <= b && b <= 57
}

/// Decimal digits of `n`, most significant first, no sign, no leading zeros
/// (except for the single digit of zero itself).
pub open spec fn dec_digits(n: nat) -> Seq<u8>
    decreases n,
{
    if n < 10 {
        seq![(48 + n) as u8]
    } else {
        dec_digits(n / 10).push((48 + n % 10) as u8)
    }
}

/// Decimal encoding of a signed value: a minus sign before the digits of the
/// magnitude when negative.
pub open spec fn enc_int(x: int) -> Seq<u8> {
    if x < 0 {
        seq![45u8] + dec_digits((-x) as nat)
    } else {
        dec_digits(x as nat)
    }
}

pub open spec fn lit_true() -> Seq<u8> {
    seq![116u8, 114u8, 117u8, 101u8]
}

pub open spec fn lit_false() -> Seq<u8> {
    seq![102u8, 97u8, 108u8, 115u8, 101u8]
}

pub open spec fn enc_bool(b: bool) -> Seq<u8> {
    if b {
        lit_true()
    } else {
        lit_false()
    }
}

/// `{"width":`
pub open spec fn key_width() -> Seq<u8> {
    seq![123u8, 34u8, 119u8, 105u8, 100u8, 116u8, 104u8, 34u8, 58u8]
}

/// `,"height":`
pub open spec fn key_height() -> Seq<u8> {
    seq![44u8, 34u8, 104u8, 101u8, 105u8, 103u8, 104u8, 116u8, 34u8, 58u8]
}

/// `,"x":`
pub open spec fn key_x() -> Seq<u8> {
    seq![44u8, 34u8, 120u8, 34u8, 58u8]
}

/// `,"y":`
pub open spec fn key_y() -> Seq<u8> {
    seq![44u8, 34u8, 121u8, 34u8, 58u8]
}

/// `,"maximized":`
pub open spec fn key_maximized() -> Seq<u8> {
    seq![44u8, 34u8, 109u8, 97u8, 120u8, 105u8, 109u8, 105u8, 122u8, 101u8, 100u8, 34u8, 58u8]
}

/// `,"visible":`
pub open spec fn key_visible() -> Seq<u8> {
    seq![44u8, 34u8, 118u8, 105u8, 115u8, 105u8, 98u8, 108u8, 101u8, 34u8, 58u8]
}

/// `,"decorated":`
pub open spec fn key_decorated() -> Seq<u8> {
    seq![44u8, 34u8, 100u8, 101u8, 99u8, 111u8, 114u8, 97u8, 116u8, 101u8, 100u8, 34u8, 58u8]
}

/// `,"fullscreen":`
pub open spec fn key_fullscreen() -> Seq<u8> {
    seq![44u8, 34u8, 102u8, 117u8, 108u8, 108u8, 115u8, 99u8, 114u8, 101u8, 101u8, 110u8, 34u8, 58u8]
}

/// `}`
pub open spec fn key_close() -> Seq<u8> {
    seq![125u8]
}

/// The canonical byte encoding of a record: one JSON object with the eight
/// fields in a fixed order, no spacing.
pub open spec fn encode_spec(s: WindowState) -> Seq<u8> {
    key_width() + (dec_digits(s.width as nat) + (key_height() + (dec_digits(s.height as nat) + (
    key_x() + (enc_int(s.x as int) + (key_y() + (enc_int(s.y as int) + (key_maximized() + (
    enc_bool(s.maximized) + (key_visible() + (enc_bool(s.visible) + (key_decorated() + (enc_bool(
        s.decorated,
    ) + (key_fullscreen() + (enc_bool(s.fullscreen) + key_close())))))))))))))))
}

/// The numeric value of a digit string, most significant first. Meaningful
/// only when every byte is a decimal digit.
pub open spec fn val_of(s: Seq<u8>) -> int
    decreases s.len(),
{
    if s.len() == 0 {
        0
    } else {
        val_of(s.drop_last()) * 10 + (s.last() - 48)
    }
}

/// Length of the maximal digit prefix of `s`.
pub open spec fn digit_count(s: Seq<u8>) -> int
    decreases s.len(),
{
    if s.len() == 0 || !is_digit(s[0]) {
        0
    } else {
        1 + digit_count(s.drop_first())
    }
}

/// Greedily read a decimal number from the front of `s`: its value and what
/// follows it. Nothing to read when the first byte is not a digit.
pub open spec fn parse_nat(s: Seq<u8>) -> Option<(int, Seq<u8>)> {
    let k = digit_count(s);
    if k == 0 {
        None
    } else {
        Some((val_of(s.take(k)), s.skip(k)))
    }
}

pub open spec fn parse_u32(s: Seq<u8>) -> Option<(u32, Seq<u8>)> {
    match parse_nat(s) {
        None => None,
        Some((v, r)) => if v <= u32::MAX {
            Some((v as u32, r))
        } else {
            None
        },
    }
}

pub open spec fn parse_i32(s: Seq<u8>) -> Option<(i32, Seq<u8>)> {
    if s.len() > 0 && s[0] == 45 {
        match parse_nat(s.skip(1)) {
            None => None,
            Some((v, r)) => if v <= 0x8000_0000 {
                Some(((-v) as i32, r))
            } else {
                None
            },
        }
    } else {
        match parse_nat(s) {
            None => None,
            Some((v, r)) => if v <= 0x7FFF_FFFF {
                Some((v as i32, r))
            } else {
                None
            },
        }
    }
}

/// Remove an expected literal from the front of `s`.
pub open spec fn strip(s: Seq<u8>, lit: Seq<u8>) -> Option<Seq<u8>> {
    if lit.len() <= s.len() && s.take(lit.len() as int) == lit {
        Some(s.skip(lit.len() as int))
    } else {
        None
    }
}

pub open spec fn parse_bool(s: Seq<u8>) -> Option<(bool, Seq<u8>)> {
    match strip(s, lit_true()) {
        Some(r) => Some((true, r)),
        None => match strip(s, lit_false()) {
            Some(r) => Some((false, r)),
            None => None,
        },
    }
}

/// What a byte string means as a record: `Some` exactly when it is one whole
/// well-formed record, in field order, with nothing before or after it.
pub open spec fn decode_spec(s: Seq<u8>) -> Option<WindowState> {
    match strip(s, key_width()) {
        None => None,
        Some(s) => match parse_u32(s) {
            None => None,
            Some((width, s)) => match strip(s, key_height()) {
                None => None,
                Some(s) => match parse_u32(s) {
                    None => None,
                    Some((height, s)) => match strip(s, key_x()) {
                        None => None,
                        Some(s) => match parse_i32(s) {
                            None => None,
                            Some((x, s)) => match strip(s, key_y()) {
                                None => None,
                                Some(s) => match parse_i32(s) {
                                    None => None,
                                    Some((y, s)) => match strip(s, key_maximized()) {
                                        None => None,
                                        Some(s) => match parse_bool(s) {
                                            None => None,
                                            Some((maximized, s)) => match strip(s, key_visible()) {
                                                None => None,
                                                Some(s) => match parse_bool(s) {
                                                    None => None,
                                                    Some((visible, s)) => match strip(
                                                        s,
                                                        key_decorated(),
                                                    ) {
                                                        None => None,
                                                        Some(s) => match parse_bool(s) {
                                                            None => None,
                                                            Some((decorated, s)) => match strip(
                                                                s,
                                                                key_fullscreen(),
                                                            ) {
                                                                None => None,
                                                                Some(s) => match parse_bool(s) {
                                                                    None => None,
                                                                    Some((fullscreen, s)) => match strip(
                                                                        s,
                                                                        key_close(),
                                                                    ) {
                                                                        None => None,
                                                                        Some(s) => if s.len()
                                                                            == 0 {
                                                                            Some(
                                                                                WindowState {
                                                                                    width,
                                                                                    height,
                                                                                    x,
                                                                                    y,
                                                                                    maximized,
                                                                                    visible,
                                                                                    decorated,
                                                                                    fullscreen,
                                                                                },
                                                                            )
                                                                        } else {
                                                                            None
                                                                        },
                                                                    },
                                                                },
                                                            },
                                                        },
                                                    },
                                                },
                                            },
                                        },
                                    },
                                },
                            },
                        },
                    },
                },
            },
        },
    }
}

proof fn lemma_dec_digits(n: nat)
    ensures
        dec_digits(n).len() >= 1,
        forall|i: int| 0 <= i < dec_digits(n).len() ==> is_digit(#[trigger] dec_digits(n)[i]),
        val_of(dec_digits(n)) == n,
    decreases n,
{
    if n < 10 {
        let s = dec_digits(n);
        assert(s.drop_last() =~= Seq::<u8>::empty());
        assert(s.last() == (48 + n) as u8);
        assert(val_of(s) == val_of(Seq::<u8>::empty()) * 10 + ((48 + n) as u8 - 48));
    } else {
        lemma_dec_digits(n / 10);
        let p = dec_digits(n / 10);
        let d = (48 + n % 10) as u8;
        let s = dec_digits(n);
        assert(s == p.push(d));
        assert(s.drop_last() =~= p);
        assert(s.last() == d);
        assert(val_of(s) == val_of(p) * 10 + (d - 48));
        vstd::arithmetic::div_mod::lemma_fundamental_div_mod(n as int, 10);
        assert(val_of(s) == n);
        assert(forall|i: int| 0 <= i < p.len() ==> s[i] == p[i]);
    }
}

proof fn lemma_digit_count_concat(a: Seq<u8>, b: Seq<u8>)
    requires
        forall|i: int| 0 <= i < a.len() ==> is_digit(#[trigger] a[i]),
        b.len() == 0 || !is_digit(b[0]),
    ensures
        digit_count(a + b) == a.len(),
    decreases a.len(),
{
    if a.len() == 0 {
        assert(a + b =~= b);
    } else {
        assert((a + b)[0] == a[0]);
        assert((a + b).drop_first() =~= a.drop_first() + b);
        assert(forall|i: int| 0 <= i < a.drop_first().len() ==> is_digit(
            #[trigger] a.drop_first()[i],
        ));
        lemma_digit_count_concat(a.drop_first(), b);
    }
}

proof fn lemma_digit_count_props(s: Seq<u8>)
    ensures
        0 <= digit_count(s) <= s.len(),
        forall|m: int| 0 <= m < digit_count(s) ==> is_digit(#[trigger] s[m]),
        digit_count(s) == s.len() || !is_digit(s[digit_count(s)]),
    decreases s.len(),
{
    if s.len() == 0 || !is_digit(s[0]) {
    } else {
        lemma_digit_count_props(s.drop_first());
        assert forall|m: int| 0 <= m < digit_count(s) implies is_digit(#[trigger] s[m]) by {
            if m >= 1 {
                assert(s.drop_first()[m - 1] == s[m]);
                assert(is_digit(s.drop_first()[m - 1]));
            }
        }
        if digit_count(s) < s.len() {
            assert(s.drop_first()[digit_count(s) - 1] == s[digit_count(s)]);
        }
    }
}

proof fn lemma_val_of_nonneg(t: Seq<u8>)
    requires
        forall|i: int| 0 <= i < t.len() ==> is_digit(#[trigger] t[i]),
    ensures
        val_of(t) >= 0,
    decreases t.len(),
{
    if t.len() > 0 {
        assert(forall|i: int| 0 <= i < t.drop_last().len() ==> #[trigger] t.drop_last()[i] == t[i]);
        lemma_val_of_nonneg(t.drop_last());
    }
}

proof fn lemma_val_of_prefix(t: Seq<u8>, k: int)
    requires
        0 <= k <= t.len(),
        forall|i: int| 0 <= i < t.len() ==> is_digit(#[trigger] t[i]),
    ensures
        0 <= val_of(t.take(k)),
        val_of(t.take(k)) <= val_of(t),
    decreases t.len() - k,
{
    if k == t.len() {
        assert(t.take(k) =~= t);
        lemma_val_of_nonneg(t);
    } else {
        lemma_val_of_prefix(t, k + 1);
        assert(t.take(k + 1).drop_last() =~= t.take(k));
        assert(t.take(k + 1).last() == t[k]);
        assert(forall|i: int| 0 <= i < t.take(k).len() ==> #[trigger] t.take(k)[i] == t[i]);
        lemma_val_of_nonneg(t.take(k));
    }
}

proof fn lemma_parse_nat_exact(a: Seq<u8>, b: Seq<u8>)
    requires
        a.len() >= 1,
        forall|i: int| 0 <= i < a.len() ==> is_digit(#[trigger] a[i]),
        b.len() == 0 || !is_digit(b[0]),
    ensures
        parse_nat(a + b) == Some((val_of(a), b)),
{
    lemma_digit_count_concat(a, b);
    assert((a + b).take(a.len() as int) =~= a);
    assert((a + b).skip(a.len() as int) =~= b);
}

proof fn lemma_parse_u32_enc(n: u32, rest: Seq<u8>)
    requires
        rest.len() == 0 || !is_digit(rest[0]),
    ensures
        parse_u32(dec_digits(n as nat) + rest) == Some((n, rest)),
{
    lemma_dec_digits(n as nat);
    lemma_parse_nat_exact(dec_digits(n as nat), rest);
}

proof fn lemma_parse_i32_enc(x: i32, rest: Seq<u8>)
    requires
        rest.len() == 0 || !is_digit(rest[0]),
    ensures
        parse_i32(enc_int(x as int) + rest) == Some((x, rest)),
{
    if x < 0 {
        let m = (-(x as int)) as nat;
        lemma_dec_digits(m);
        let s = enc_int(x as int) + rest;
        assert(enc_int(x as int) == seq![45u8] + dec_digits(m));
        assert(s[0] == 45);
        assert(s.skip(1) =~= dec_digits(m) + rest);
        lemma_parse_nat_exact(dec_digits(m), rest);
        assert(parse_nat(s.skip(1)) == Some((m as int, rest)));
        assert(m <= 0x8000_0000);
        assert((-(m as int)) as i32 == x);
    } else {
        let s = enc_int(x as int) + rest;
        lemma_dec_digits(x as nat);
        assert(s[0] == dec_digits(x as nat)[0]);
        assert(is_digit(s[0]));
        assert(s[0] != 45);
        lemma_parse_nat_exact(dec_digits(x as nat), rest);
    }
}

proof fn lemma_strip_exact(lit: Seq<u8>, rest: Seq<u8>)
    ensures
        strip(lit + rest, lit) == Some(rest),
{
    assert((lit + rest).take(lit.len() as int) =~= lit);
    assert((lit + rest).skip(lit.len() as int) =~= rest);
}

proof fn lemma_parse_bool_enc(b: bool, rest: Seq<u8>)
    ensures
        parse_bool(enc_bool(b) + rest) == Some((b, rest)),
{
    if b {
        lemma_strip_exact(lit_true(), rest);
    } else {
        lemma_strip_exact(lit_false(), rest);
        let s = lit_false() + rest;
        assert(s.len() >= 4);
        assert(s.take(4)[0] == 102);
        assert(s.take(4) != lit_true());
    }
}

/// Round trip: a record written by the encoder is read back unchanged, for
/// every record. With the encoder and decoder below, saving and then loading
/// a state yields an equal state.
#[verifier::rlimit(100)]
pub proof fn lemma_round_trip(st: WindowState)
    ensures
        decode_spec(encode_spec(st)) == Some(st),
{
    let s0 = encode_spec(st);
    let r1 = dec_digits(st.width as nat) + (key_height() + (dec_digits(st.height as nat) + (key_x()
        + (enc_int(st.x as int) + (key_y() + (enc_int(st.y as int) + (key_maximized() + (enc_bool(
        st.maximized,
    ) + (key_visible() + (enc_bool(st.visible) + (key_decorated() + (enc_bool(st.decorated) + (
    key_fullscreen() + (enc_bool(st.fullscreen) + key_close()))))))))))))));
    lemma_strip_exact(key_width(), r1);
    assert(strip(s0, key_width()) == Some(r1));

    let r2 = key_height() + (dec_digits(st.height as nat) + (key_x() + (enc_int(st.x as int) + (
    key_y() + (enc_int(st.y as int) + (key_maximized() + (enc_bool(st.maximized) + (key_visible()
        + (enc_bool(st.visible) + (key_decorated() + (enc_bool(st.decorated) + (key_fullscreen()
        + (enc_bool(st.fullscreen) + key_close())))))))))))));
    assert(r2[0] == 44);
    lemma_parse_u32_enc(st.width, r2);

    let r3 = dec_digits(st.height as nat) + (key_x() + (enc_int(st.x as int) + (key_y() + (enc_int(
        st.y as int,
    ) + (key_maximized() + (enc_bool(st.maximized) + (key_visible() + (enc_bool(st.visible) + (
    key_decorated() + (enc_bool(st.decorated) + (key_fullscreen() + (enc_bool(st.fullscreen)
        + key_close()))))))))))));
    lemma_strip_exact(key_height(), r3);

    let r4 = key_x() + (enc_int(st.x as int) + (key_y() + (enc_int(st.y as int) + (key_maximized()
        + (enc_bool(st.maximized) + (key_visible() + (enc_bool(st.visible) + (key_decorated() + (
    enc_bool(st.decorated) + (key_fullscreen() + (enc_bool(st.fullscreen) + key_close())))))))))));
    assert(r4[0] == 44);
    lemma_parse_u32_enc(st.height, r4);

    let r5 = enc_int(st.x as int) + (key_y() + (enc_int(st.y as int) + (key_maximized() + (
    enc_bool(st.maximized) + (key_visible() + (enc_bool(st.visible) + (key_decorated() + (enc_bool(
        st.decorated,
    ) + (key_fullscreen() + (enc_bool(st.fullscreen) + key_close()))))))))));
    lemma_strip_exact(key_x(), r5);

    let r6 = key_y() + (enc_int(st.y as int) + (key_maximized() + (enc_bool(st.maximized) + (
    key_visible() + (enc_bool(st.visible) + (key_decorated() + (enc_bool(st.decorated) + (
    key_fullscreen() + (enc_bool(st.fullscreen) + key_close())))))))));
    assert(r6[0] == 44);
    lemma_parse_i32_enc(st.x, r6);

    let r7 = enc_int(st.y as int) + (key_maximized() + (enc_bool(st.maximized) + (key_visible() + (
    enc_bool(st.visible) + (key_decorated() + (enc_bool(st.decorated) + (key_fullscreen() + (
    enc_bool(st.fullscreen) + key_close()))))))));
    lemma_strip_exact(key_y(), r7);

    let r8 = key_maximized() + (enc_bool(st.maximized) + (key_visible() + (enc_bool(st.visible) + (
    key_decorated() + (enc_bool(st.decorated) + (key_fullscreen() + (enc_bool(st.fullscreen)
        + key_close())))))));
    assert(r8[0] == 44);
    lemma_parse_i32_enc(st.y, r8);

    let r9 = enc_bool(st.maximized) + (key_visible() + (enc_bool(st.visible) + (key_decorated() + (
    enc_bool(st.decorated) + (key_fullscreen() + (enc_bool(st.fullscreen) + key_close()))))));
    lemma_strip_exact(key_maximized(), r9);

    let r10 = key_visible() + (enc_bool(st.visible) + (key_decorated() + (enc_bool(st.decorated)
        + (key_fullscreen() + (enc_bool(st.fullscreen) + key_close())))));
    lemma_parse_bool_enc(st.maximized, r10);

    let r11 = enc_bool(st.visible) + (key_decorated() + (enc_bool(st.decorated) + (
    key_fullscreen() + (enc_bool(st.fullscreen) + key_close()))));
    lemma_strip_exact(key_visible(), r11);

    let r12 = key_decorated() + (enc_bool(st.decorated) + (key_fullscreen() + (enc_bool(
        st.fullscreen,
    ) + key_close())));
    lemma_parse_bool_enc(st.visible, r12);

    let r13 = enc_bool(st.decorated) + (key_fullscreen() + (enc_bool(st.fullscreen) + key_close()));
    lemma_strip_exact(key_decorated(), r13);

    let r14 = key_fullscreen() + (enc_bool(st.fullscreen) + key_close());
    lemma_parse_bool_enc(st.decorated, r14);

    let r15 = enc_bool(st.fullscreen) + key_close();
    lemma_strip_exact(key_fullscreen(), r15);

    lemma_parse_bool_enc(st.fullscreen, key_close());

    lemma_strip_exact(key_close(), Seq::<u8>::empty());
    assert(key_close() + Seq::<u8>::empty() =~= key_close());
    assert(strip(key_close(), key_close()) == Some(Seq::<u8>::empty()));

    assert(decode_spec(s0) == Some(st));
}

fn key_width_vec() -> (v: Vec<u8>)
    ensures
        v@ == key_width(),
{
    let mut v: Vec<u8> = Vec::new();
    v.push(123u8);
    v.push(34u8);
    v.push(119u8);
    v.push(105u8);
    v.push(100u8);
    v.push(116u8);
    v.push(104u8);
    v.push(34u8);
    v.push(58u8);
    proof {
        assert(v@ =~= key_width());
    }
    v
}

fn key_height_vec() -> (v: Vec<u8>)
    ensures
        v@ == key_height(),
{
    let mut v: Vec<u8> = Vec::new();
    v.push(44u8);
    v.push(34u8);
    v.push(104u8);
    v.push(101u8);
    v.push(105u8);
    v.push(103u8);
    v.push(104u8);
    v.push(116u8);
    v.push(34u8);
    v.push(58u8);
    proof {
        assert(v@ =~= key_height());
    }
    v
}

fn key_x_vec() -> (v: Vec<u8>)
    ensures
        v@ == key_x(),
{
    let mut v: Vec<u8> = Vec::new();
    v.push(44u8);
    v.push(34u8);
    v.push(120u8);
    v.push(34u8);
    v.push(58u8);
    proof {
        assert(v@ =~= key_x());
    }
    v
}

fn key_y_vec() -> (v: Vec<u8>)
    ensures
        v@ == key_y(),
{
    let mut v: Vec<u8> = Vec::new();
    v.push(44u8);
    v.push(34u8);
    v.push(121u8);
    v.push(34u8);
    v.push(58u8);
    proof {
        assert(v@ =~= key_y());
    }
    v
}

fn key_maximized_vec() -> (v: Vec<u8>)
    ensures
        v@ == key_maximized(),
{
    let mut v: Vec<u8> = Vec::new();
    v.push(44u8);
    v.push(34u8);
    v.push(109u8);
    v.push(97u8);
    v.push(120u8);
    v.push(105u8);
    v.push(109u8);
    v.push(105u8);
    v.push(122u8);
    v.push(101u8);
    v.push(100u8);
    v.push(34u8);
    v.push(58u8);
    proof {
        assert(v@ =~= key_maximized());
    }
    v
}

fn key_visible_vec() -> (v: Vec<u8>)
    ensures
        v@ == key_visible(),
{
    let mut v: Vec<u8> = Vec::new();
    v.push(44u8);
    v.push(34u8);
    v.push(118u8);
    v.push(105u8);
    v.push(115u8);
    v.push(105u8);
    v.push(98u8);
    v.push(108u8);
    v.push(101u8);
    v.push(34u8);
    v.push(58u8);
    proof {
        assert(v@ =~= key_visible());
    }
    v
}

fn key_decorated_vec() -> (v: Vec<u8>)
    ensures
        v@ == key_decorated(),
{
    let mut v: Vec<u8> = Vec::new();
    v.push(44u8);
    v.push(34u8);
    v.push(100u8);
    v.push(101u8);
    v.push(99u8);
    v.push(111u8);
    v.push(114u8);
    v.push(97u8);
    v.push(116u8);
    v.push(101u8);
    v.push(100u8);
    v.push(34u8);
    v.push(58u8);
    proof {
        assert(v@ =~= key_decorated());
    }
    v
}

fn key_fullscreen_vec() -> (v: Vec<u8>)
    ensures
        v@ == key_fullscreen(),
{
    let mut v: Vec<u8> = Vec::new();
    v.push(44u8);
    v.push(34u8);
    v.push(102u8);
    v.push(117u8);
    v.push(108u8);
    v.push(108u8);
    v.push(115u8);
    v.push(99u8);
    v.push(114u8);
    v.push(101u8);
    v.push(101u8);
    v.push(110u8);
    v.push(34u8);
    v.push(58u8);
    proof {
        assert(v@ =~= key_fullscreen());
    }
    v
}

fn lit_true_vec() -> (v: Vec<u8>)
    ensures
        v@ == lit_true(),
{
    let mut v: Vec<u8> = Vec::new();
    v.push(116u8);
    v.push(114u8);
    v.push(117u8);
    v.push(101u8);
    proof {
        assert(v@ =~= lit_true());
    }
    v
}

fn lit_false_vec() -> (v: Vec<u8>)
    ensures
        v@ == lit_false(),
{
    let mut v: Vec<u8> = Vec::new();
    v.push(102u8);
    v.push(97u8);
    v.push(108u8);
    v.push(115u8);
    v.push(101u8);
    proof {
        assert(v@ =~= lit_false());
    }
    v
}

fn push_u32_dec(out: &mut Vec<u8>, n: u32)
    ensures
        final(out)@ == old(out)@ + dec_digits(n as nat),
    decreases n,
{
    if n >= 10 {
        push_u32_dec(out, n / 10);
    }
    let d: u8 = 48 + (n % 10) as u8;
    out.push(d);
    proof {
        if n < 10 {
            assert(out@ =~= old(out)@ + dec_digits(n as nat));
        } else {
            assert((n / 10) as nat == (n as nat) / 10);
            assert((n % 10) as nat == (n as nat) % 10);
            assert(dec_digits(n as nat) == dec_digits((n as nat) / 10).push(
                (48 + (n as nat) % 10) as u8,
            ));
            assert(out@ =~= old(out)@ + dec_digits(n as nat));
        }
    }
}

fn push_i32_dec(out: &mut Vec<u8>, x: i32)
    ensures
        final(out)@ == old(out)@ + enc_int(x as int),
{
    if x < 0 {
        out.push(45u8);
        let m: i64 = -(x as i64);
        proof {
            assert(0 <= m <= u32::MAX);
        }
        let mu: u32 = m as u32;
        push_u32_dec(out, mu);
        proof {
            assert(mu as nat == (-(x as int)) as nat);
            assert(out@ =~= old(out)@ + enc_int(x as int));
        }
    } else {
        let ux: u32 = x as u32;
        push_u32_dec(out, ux);
        proof {
            assert(ux as nat == (x as int) as nat);
        }
    }
}

fn push_bool(out: &mut Vec<u8>, b: bool)
    ensures
        final(out)@ == old(out)@ + enc_bool(b),
{
    if b {
        out.push(116u8);
        out.push(114u8);
        out.push(117u8);
        out.push(101u8);
    } else {
        out.push(102u8);
        out.push(97u8);
        out.push(108u8);
        out.push(115u8);
        out.push(101u8);
    }
    proof {
        assert(out@ =~= old(out)@ + enc_bool(b));
    }
}

proof fn lemma_concat_assoc(a: Seq<u8>, b: Seq<u8>, c: Seq<u8>)
    ensures
        (a + b) + c == a + (b + c),
{
    assert((a + b) + c =~= a + (b + c));
}

/// Serialize a record into its canonical byte form. This is the whole body
/// of what `save` writes to disk; writing the bytes is the caller's part.
#[verifier::rlimit(60)]
pub fn encode_state(st: &WindowState) -> (out: Vec<u8>)
    ensures
        out@ == encode_spec(*st),
{
    let mut out: Vec<u8> = Vec::new();
    let mut t: Vec<u8> = key_width_vec();
    out.append(&mut t);
    push_u32_dec(&mut out, st.width);
    let mut t: Vec<u8> = key_height_vec();
    out.append(&mut t);
    push_u32_dec(&mut out, st.height);
    let mut t: Vec<u8> = key_x_vec();
    out.append(&mut t);
    push_i32_dec(&mut out, st.x);
    let mut t: Vec<u8> = key_y_vec();
    out.append(&mut t);
    push_i32_dec(&mut out, st.y);
    let mut t: Vec<u8> = key_maximized_vec();
    out.append(&mut t);
    push_bool(&mut out, st.maximized);
    let mut t: Vec<u8> = key_visible_vec();
    out.append(&mut t);
    push_bool(&mut out, st.visible);
    let mut t: Vec<u8> = key_decorated_vec();
    out.append(&mut t);
    push_bool(&mut out, st.decorated);
    let mut t: Vec<u8> = key_fullscreen_vec();
    out.append(&mut t);
    push_bool(&mut out, st.fullscreen);
    out.push(125u8);
    proof {
        let p1 = key_width();
        let p2 = dec_digits(st.width as nat);
        let p3 = key_height();
        let p4 = dec_digits(st.height as nat);
        let p5 = key_x();
        let p6 = enc_int(st.x as int);
        let p7 = key_y();
        let p8 = enc_int(st.y as int);
        let p9 = key_maximized();
        let p10 = enc_bool(st.maximized);
        let p11 = key_visible();
        let p12 = enc_bool(st.visible);
        let p13 = key_decorated();
        let p14 = enc_bool(st.decorated);
        let p15 = key_fullscreen();
        let p16 = enc_bool(st.fullscreen);
        let p17 = key_close();
        assert(Seq::<u8>::empty() + p1 =~= p1);
        let a1 = p1;
        let a2 = a1 + p2;
        let a3 = a2 + p3;
        let a4 = a3 + p4;
        let a5 = a4 + p5;
        let a6 = a5 + p6;
        let a7 = a6 + p7;
        let a8 = a7 + p8;
        let a9 = a8 + p9;
        let a10 = a9 + p10;
        let a11 = a10 + p11;
        let a12 = a11 + p12;
        let a13 = a12 + p13;
        let a14 = a13 + p14;
        let a15 = a14 + p15;
        let a16 = a15 + p16;
        assert(out@ == a16.push(125u8));
        assert(a16.push(125u8) =~= a16 + p17);
        let t16 = p16 + p17;
        let t15 = p15 + t16;
        let t14 = p14 + t15;
        let t13 = p13 + t14;
        let t12 = p12 + t13;
        let t11 = p11 + t12;
        let t10 = p10 + t11;
        let t9 = p9 + t10;
        let t8 = p8 + t9;
        let t7 = p7 + t8;
        let t6 = p6 + t7;
        let t5 = p5 + t6;
        let t4 = p4 + t5;
        let t3 = p3 + t4;
        let t2 = p2 + t3;
        lemma_concat_assoc(a15, p16, p17);
        lemma_concat_assoc(a14, p15, t16);
        lemma_concat_assoc(a13, p14, t15);
        lemma_concat_assoc(a12, p13, t14);
        lemma_concat_assoc(a11, p12, t13);
        lemma_concat_assoc(a10, p11, t12);
        lemma_concat_assoc(a9, p10, t11);
        lemma_concat_assoc(a8, p9, t10);
        lemma_concat_assoc(a7, p8, t9);
        lemma_concat_assoc(a6, p7, t8);
        lemma_concat_assoc(a5, p6, t7);
        lemma_concat_assoc(a4, p5, t6);
        lemma_concat_assoc(a3, p4, t5);
        lemma_concat_assoc(a2, p3, t4);
        lemma_concat_assoc(a1, p2, t3);
        assert(encode_spec(*st) == p1 + t2);
        assert(out@ == encode_spec(*st));
    }
    out
}

fn key_close_vec() -> (v: Vec<u8>)
    ensures
        v@ == key_close(),
{
    let mut v: Vec<u8> = Vec::new();
    v.push(125u8);
    proof {
        assert(v@ =~= key_close());
    }
    v
}

fn match_bytes(s: &Vec<u8>, i: usize, pat: &Vec<u8>) -> (r: bool)
    requires
        i <= s@.len(),
    ensures
        r == (i + pat@.len() <= s@.len() && s@.subrange(
            i as int,
            i as int + pat@.len() as int,
        ) == pat@),
{
    if pat.len() > s.len() - i {
        return false;
    }
    let mut k: usize = 0;
    while k < pat.len()
        invariant
            s@.len() <= usize::MAX,
            i + pat@.len() <= s@.len(),
            0 <= k <= pat@.len(),
            forall|m: int| 0 <= m < k ==> s@[i + m] == pat@[m],
        decreases pat@.len() - k,
    {
        if s[i + k] != pat[k] {
            proof {
                assert(s@.subrange(i as int, i as int + pat@.len() as int)[k as int] == s@[i + k]);
            }
            return false;
        }
        k += 1;
    }
    proof {
        assert(s@.subrange(i as int, i as int + pat@.len() as int) =~= pat@);
    }
    true
}

proof fn lemma_strip_at(s: Seq<u8>, i: int, lit: Seq<u8>)
    requires
        0 <= i <= s.len(),
        i + lit.len() <= s.len(),
        s.subrange(i, i + lit.len()) == lit,
    ensures
        strip(s.skip(i), lit) == Some(s.skip(i + lit.len())),
{
    assert(s.skip(i).take(lit.len() as int) =~= s.subrange(i, i + lit.len()));
    assert(s.skip(i).skip(lit.len() as int) =~= s.skip(i + lit.len()));
}

proof fn lemma_strip_at_none(s: Seq<u8>, i: int, lit: Seq<u8>)
    requires
        0 <= i <= s.len(),
        !(i + lit.len() <= s.len() && s.subrange(i, i + lit.len()) == lit),
    ensures
        strip(s.skip(i), lit) is None,
{
    if i + lit.len() <= s.len() {
        assert(s.skip(i).take(lit.len() as int) =~= s.subrange(i, i + lit.len()));
    }
}

fn expect_at(s: &Vec<u8>, i: usize, pat: &Vec<u8>) -> (r: Option<usize>)
    requires
        i <= s@.len(),
    ensures
        match r {
            Some(j) => i <= j <= s@.len() && strip(s@.skip(i as int), pat@) == Some(
                s@.skip(j as int),
            ),
            None => strip(s@.skip(i as int), pat@) is None,
        },
{
    let n = s.len();
    if match_bytes(s, i, pat) && pat.len() <= n {
        proof {
            lemma_strip_at(s@, i as int, pat@);
        }
        Some(i + pat.len())
    } else {
        proof {
            lemma_strip_at_none(s@, i as int, pat@);
        }
        None
    }
}

fn scan_number(s: &Vec<u8>, i: usize) -> (r: Option<(u32, usize)>)
    requires
        i <= s@.len(),
    ensures
        match r {
            Some(p) => i <= p.1 <= s@.len() && parse_nat(s@.skip(i as int)) == Some(
                (p.0 as int, s@.skip(p.1 as int)),
            ),
            None => match parse_nat(s@.skip(i as int)) {
                Option::None => true,
                Option::Some(q) => q.0 > u32::MAX,
            },
        },
{
    let mut j: usize = i;
    let mut val: u32 = 0;
    proof {
        assert(s@.subrange(i as int, i as int) =~= Seq::<u8>::empty());
    }
    while j < s.len() && 48 <= s[j] && s[j] <= 57
        invariant
            i <= j <= s@.len(),
            forall|m: int| i <= m < j ==> is_digit(#[trigger] s@[m]),
            digit_count(s@.skip(i as int)) == (j - i) + digit_count(s@.skip(j as int)),
            val as int == val_of(s@.subrange(i as int, j as int)),
        decreases s@.len() - j,
    {
        let d: u8 = s[j] - 48;
        proof {
            lemma_digit_count_props(s@.skip(j as int));
            assert(s@.skip(j as int)[0] == s@[j as int]);
            assert(s@.skip(j as int).drop_first() =~= s@.skip(j as int + 1));
            assert(s@.subrange(i as int, j as int + 1).drop_last() =~= s@.subrange(
                i as int,
                j as int,
            ));
            assert(s@.subrange(i as int, j as int + 1).last() == s@[j as int]);
        }
        let nv: u64 = (val as u64) * 10 + (d as u64);
        if nv > 0xFFFF_FFFFu64 {
            proof {
                let rem = s@.skip(i as int);
                lemma_digit_count_props(rem);
                let k = digit_count(rem);
                assert(digit_count(s@.skip(j as int)) >= 1);
                assert(k >= j + 1 - i);
                let t = rem.take(k);
                assert(forall|m: int| 0 <= m < t.len() ==> is_digit(#[trigger] t[m])) by {
                    assert(forall|m: int| 0 <= m < k ==> t[m] == rem[m]);
                }
                lemma_val_of_prefix(t, j + 1 - i);
                assert(t.take(j + 1 - i) =~= s@.subrange(i as int, j as int + 1));
                assert(val_of(s@.subrange(i as int, j as int + 1)) == nv as int);
                assert(val_of(t) > u32::MAX);
            }
            return None;
        }
        val = nv as u32;
        j += 1;
    }
    proof {
        if j < s@.len() {
            assert(s@.skip(j as int)[0] == s@[j as int]);
        } else {
            assert(s@.skip(j as int).len() == 0);
        }
        assert(digit_count(s@.skip(j as int)) == 0);
        let rem = s@.skip(i as int);
        assert(digit_count(rem) == j - i);
        if j > i {
            assert(rem.take((j - i) as int) =~= s@.subrange(i as int, j as int));
            assert(rem.skip((j - i) as int) =~= s@.skip(j as int));
        }
    }
    if j == i {
        return None;
    }
    Some((val, j))
}

fn parse_i32_at(s: &Vec<u8>, i: usize) -> (r: Option<(i32, usize)>)
    requires
        i <= s@.len(),
    ensures
        match r {
            Some(p) => i <= p.1 <= s@.len() && parse_i32(s@.skip(i as int)) == Some(
                (p.0, s@.skip(p.1 as int)),
            ),
            None => parse_i32(s@.skip(i as int)) is None,
        },
{
    if i < s.len() && s[i] == 45 {
        proof {
            assert(s@.skip(i as int)[0] == s@[i as int]);
            assert(s@.skip(i as int).skip(1) =~= s@.skip(i as int + 1));
        }
        match scan_number(s, i + 1) {
            None => None,
            Some(p) => {
                let v: u32 = p.0;
                let j: usize = p.1;
                if v <= 0x8000_0000u32 {
                    let xv: i64 = -(v as i64);
                    proof {
                        assert(i32::MIN <= xv <= i32::MAX);
                    }
                    Some((xv as i32, j))
                } else {
                    None
                }
            },
        }
    } else {
        proof {
            if i < s@.len() {
                assert(s@.skip(i as int)[0] == s@[i as int]);
            } else {
                assert(s@.skip(i as int).len() == 0);
            }
        }
        match scan_number(s, i) {
            None => None,
            Some(p) => {
                let v: u32 = p.0;
                let j: usize = p.1;
                if v <= 0x7FFF_FFFFu32 {
                    Some((v as i32, j))
                } else {
                    None
                }
            },
        }
    }
}

fn parse_bool_at(s: &Vec<u8>, i: usize) -> (r: Option<(bool, usize)>)
    requires
        i <= s@.len(),
    ensures
        match r {
            Some(p) => i <= p.1 <= s@.len() && parse_bool(s@.skip(i as int)) == Some(
                (p.0, s@.skip(p.1 as int)),
            ),
            None => parse_bool(s@.skip(i as int)) is None,
        },
{
    let t = lit_true_vec();
    match expect_at(s, i, &t) {
        Some(j) => Some((true, j)),
        None => {
            let f = lit_false_vec();
            match expect_at(s, i, &f) {
                Some(j) => Some((false, j)),
                None => None,
            }
        },
    }
}

/// Read back a record from its canonical byte form: exactly the inverse of
/// the encoder, and an error on any byte string the encoder cannot produce.
pub fn decode_state(s: &Vec<u8>) -> (r: Result<WindowState, ParseError>)
    ensures
        match r {
            Ok(st) => decode_spec(s@) == Some(st),
            Err(_) => decode_spec(s@) is None,
        },
{
    proof {
        assert(s@.skip(0) =~= s@);
    }
    let kw = key_width_vec();
    let i1 = match expect_at(s, 0, &kw) {
        Some(j) => j,
        None => {
            return Err(ParseError {  });
        },
    };
    let (w, i2) = match scan_number(s, i1) {
        Some(p) => p,
        None => {
            return Err(ParseError {  });
        },
    };
    let kh = key_height_vec();
    let i3 = match expect_at(s, i2, &kh) {
        Some(j) => j,
        None => {
            return Err(ParseError {  });
        },
    };
    let (h, i4) = match scan_number(s, i3) {
        Some(p) => p,
        None => {
            return Err(ParseError {  });
        },
    };
    let kx = key_x_vec();
    let i5 = match expect_at(s, i4, &kx) {
        Some(j) => j,
        None => {
            return Err(ParseError {  });
        },
    };
    let (xv, i6) = match parse_i32_at(s, i5) {
        Some(p) => p,
        None => {
            return Err(ParseError {  });
        },
    };
    let ky = key_y_vec();
    let i7 = match expect_at(s, i6, &ky) {
        Some(j) => j,
        None => {
            return Err(ParseError {  });
        },
    };
    let (yv, i8) = match parse_i32_at(s, i7) {
        Some(p) => p,
        None => {
            return Err(ParseError {  });
        },
    };
    let km = key_maximized_vec();
    let i9 = match expect_at(s, i8, &km) {
        Some(j) => j,
        None => {
            return Err(ParseError {  });
        },
    };
    let (bm, i10) = match parse_bool_at(s, i9) {
        Some(p) => p,
        None => {
            return Err(ParseError {  });
        },
    };
    let kv = key_visible_vec();
    let i11 = match expect_at(s, i10, &kv) {
        Some(j) => j,
        None => {
            return Err(ParseError {  });
        },
    };
    let (bv, i12) = match parse_bool_at(s, i11) {
        Some(p) => p,
        None => {
            return Err(ParseError {  });
        },
    };
    let kd = key_decorated_vec();
    let i13 = match expect_at(s, i12, &kd) {
        Some(j) => j,
        None => {
            return Err(ParseError {  });
        },
    };
    let (bd, i14) = match parse_bool_at(s, i13) {
        Some(p) => p,
        None => {
            return Err(ParseError {  });
        },
    };
    let kf = key_fullscreen_vec();
    let i15 = match expect_at(s, i14, &kf) {
        Some(j) => j,
        None => {
            return Err(ParseError {  });
        },
    };
    let (bf, i16) = match parse_bool_at(s, i15) {
        Some(p) => p,
        None => {
            return Err(ParseError {  });
        },
    };
    let kc = key_close_vec();
    let i17 = match expect_at(s, i16, &kc) {
        Some(j) => j,
        None => {
            return Err(ParseError {  });
        },
    };
    if i17 != s.len() {
        proof {
            assert(s@.skip(i17 as int).len() != 0);
        }
        return Err(ParseError {  });
    }
    let st = WindowState {
        width: w,
        height: h,
        x: xv,
        y: yv,
        maximized: bm,
        visible: bv,
        decorated: bd,
        fullscreen: bf,
    };
    proof {
        assert(s@.skip(i17 as int).len() == 0);
        assert(decode_spec(s@) == Some(st));
    }
    Ok(st)
}

/// What `load` does once the bytes (or their absence) are in hand: a missing
/// file is no state at all, present bytes must parse or loading fails.
pub fn load_state(contents: &Option<Vec<u8>>) -> (r: Result<Option<WindowState>, ParseError>)
    ensures
        match *contents {
            Option::None => r matches Ok(o) && o is None,
            Option::Some(bytes) => match decode_spec(bytes@) {
                Option::Some(st) => r matches Ok(o) && o == Some(st),
                Option::None => r is Err,
            },
        },
{
    match contents {
        None => Ok(None),
        Some(bytes) => match decode_state(bytes) {
            Ok(st) => Ok(Some(st)),
            Err(e) => Err(e),
        },
    }
}

} // verus!
