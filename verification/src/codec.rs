use vstd::prelude::*;
use vstd::string::StrSliceExecFns;
use vstd::string::StringSliceAdditionalSpecFns;
use vstd::utf8::decode_utf8;
use vstd::utf8::decode_utf8_encode_utf8;
use vstd::utf8::encode_utf8;
use vstd::utf8::encode_utf8_decode_utf8;
use vstd::utf8::encode_utf8_valid_utf8;
use vstd::utf8::valid_utf8;

verus! {

// A codec converts between the raw bytes of a body and a typed value.  Every
// codec is a symmetric pair: a total encoder and a fallible decoder, and a
// failed decode is an absent result, never a fault.
//
// Two codecs are defined here over plain values:
//  - the text codec, between UTF-8 bytes and text;
//  - the strict decimal codec, between canonical decimal digit bytes and `u64`.
/// True of the byte of one decimal digit.
pub open spec fn is_digit(b: u8) -> bool {
    0x30 <= b <= 0x39
}

/// The number that one digit byte contributes; a byte that is not a digit
/// contributes nothing.
pub open spec fn digit_val(b: u8) -> nat {
    if is_digit(b) {
        (b - 0x30) as nat
    } else {
        0
    }
}

/// The number denoted by a big-endian sequence of decimal digit bytes.
pub open spec fn dec_value(s: Seq<u8>) -> nat
    decreases s.len(),
{
    if s.len() == 0 {
        0
    } else {
        dec_value(s.drop_last()) * 10 + digit_val(s.last())
    }
}

/// The number denoted by a little-endian sequence of decimal digit bytes.
spec fn dec_value_le(s: Seq<u8>) -> nat
    decreases s.len(),
{
    if s.len() == 0 {
        0
    } else {
        digit_val(s[0]) + dec_value_le(s.drop_first()) * 10
    }
}

/// The canonical decimal form of a `u64`: nonempty, all digits, no redundant
/// leading zero, and small enough to fit.
pub open spec fn valid_dec_u64(s: Seq<u8>) -> bool {
    &&& s.len() > 0
    &&& (forall|i: int| 0 <= i < s.len() ==> is_digit(#[trigger] s[i]))
    &&& (s.len() > 1 ==> s[0] != 0x30)
    &&& dec_value(s) <= u64::MAX
}

pub open spec fn pow10(k: nat) -> nat
    decreases k,
{
    if k == 0 {
        1
    } else {
        10 * pow10((k - 1) as nat)
    }
}

/// A prefix of a digit sequence never denotes more than the whole sequence.
proof fn lemma_dec_value_prefix(s: Seq<u8>, i: int)
    requires
        0 <= i <= s.len(),
    ensures
        dec_value(s.subrange(0, i)) <= dec_value(s),
    decreases s.len() - i,
{
    if i == s.len() {
        assert(s.subrange(0, i) =~= s);
    } else {
        assert(s.subrange(0, i + 1).drop_last() =~= s.subrange(0, i));
        assert(dec_value(s.subrange(0, i)) <= dec_value(s.subrange(0, i + 1)));
        lemma_dec_value_prefix(s, i + 1);
    }
}

/// Appending one byte multiplies the denoted number by ten and adds the digit.
proof fn lemma_dec_value_push(s: Seq<u8>, y: u8)
    ensures
        dec_value(s.push(y)) == dec_value(s) * 10 + digit_val(y),
{
    assert(s.push(y).drop_last() =~= s);
    assert(s.push(y).last() == y);
}

/// Appending one byte to a little-endian sequence adds the digit at the next
/// decimal place.
proof fn lemma_dec_value_le_push(s: Seq<u8>, y: u8)
    ensures
        dec_value_le(s.push(y)) == dec_value_le(s) + digit_val(y) * pow10(s.len()),
    decreases s.len(),
{
    if s.len() == 0 {
        assert(s.push(y).drop_first() =~= Seq::<u8>::empty());
        assert(s.push(y)[0] == y);
        assert(pow10(s.len()) == 1);
        assert(digit_val(y) * 1 == digit_val(y));
        assert(s.push(y).len() == 1);
        assert(dec_value_le(s.push(y)) == digit_val(y) + dec_value_le(s.push(y).drop_first())
            * 10);
        assert(dec_value_le(s.push(y).drop_first()) == 0);
        assert(dec_value_le(s) == 0);
        assert(dec_value_le(s.push(y)) == digit_val(y));
    } else {
        assert(s.push(y).drop_first() =~= s.drop_first().push(y));
        assert(s.push(y)[0] == s[0]);
        lemma_dec_value_le_push(s.drop_first(), y);
        let a = digit_val(s[0]);
        let b = dec_value_le(s.drop_first());
        let c = digit_val(y);
        let p = pow10((s.len() - 1) as nat);
        assert(dec_value_le(s.push(y)) == a + (b + c * p) * 10);
        assert((b + c * p) * 10 == b * 10 + c * (p * 10)) by (nonlinear_arith);
        lemma_pow10_mul10((s.len() - 1) as nat);
        assert(p * 10 == pow10(s.len()));
        assert(dec_value_le(s) == a + b * 10);
    }
}

/// Reading a little-endian digit sequence backwards denotes the same number.
proof fn lemma_dec_value_reverse(s: Seq<u8>)
    ensures
        dec_value(s.reverse()) == dec_value_le(s),
    decreases s.len(),
{
    if s.len() == 0 {
        assert(s.reverse() =~= s);
    } else {
        assert(s.reverse() =~= s.drop_first().reverse().push(s[0]));
        lemma_dec_value_push(s.drop_first().reverse(), s[0]);
        lemma_dec_value_reverse(s.drop_first());
    }
}

/// `pow10` grows with its exponent.
proof fn lemma_pow10_monotone(j: nat, k: nat)
    requires
        j <= k,
    ensures
        pow10(j) <= pow10(k),
    decreases k,
{
    if j < k {
        lemma_pow10_monotone(j, (k - 1) as nat);
        assert(pow10(k) == 10 * pow10((k - 1) as nat));
    }
}

/// Decodes a byte sequence as a `u64` under the strict decimal codec.
/// Succeeds exactly on the canonical decimal form, and then returns the number
/// the digits denote.
pub fn decode_u64(b: &[u8]) -> (r: Option<u64>)
    ensures
        r matches Some(n) ==> valid_dec_u64(b@) && n as nat == dec_value(b@),
        r is None ==> !valid_dec_u64(b@),
{
    let len = b.len();
    if len == 0 {
        return None;
    }
    if len > 1 && b[0] == 0x30 {
        return None;
    }
    let mut acc: u64 = 0;
    let mut i: usize = 0;
    while i < len
        invariant
            0 <= i <= len,
            len == b@.len(),
            len > 0,
            len > 1 ==> b@[0] != 0x30,
            forall|j: int| 0 <= j < i ==> is_digit(#[trigger] b@[j]),
            acc as nat == dec_value(b@.subrange(0, i as int)),
        decreases len - i,
    {
        let d = b[i];
        if d < 0x30 || d > 0x39 {
            return None;
        }
        let dv = (d - 0x30) as u64;
        proof {
            assert(b@.subrange(0, i + 1).drop_last() =~= b@.subrange(0, i as int));
            assert(dec_value(b@.subrange(0, i + 1)) == acc as nat * 10 + dv as nat);
        }
        let stepped = match acc.checked_mul(10) {
            Some(t) => t.checked_add(dv),
            None => None,
        };
        match stepped {
            Some(next) => {
                acc = next;
            },
            None => {
                proof {
                    lemma_dec_value_prefix(b@, i + 1);
                }
                return None;
            },
        }
        i += 1;
    }
    proof {
        assert(b@.subrange(0, len as int) =~= b@);
    }
    Some(acc)
}

/// Encodes a `u64` as its canonical decimal digit bytes.  Together with the
/// contract of `decode_u64` this gives the codec round trip: decoding an
/// encoded number always succeeds and yields the same number.
pub fn encode_u64(n: u64) -> (r: Vec<u8>)
    ensures
        valid_dec_u64(r@),
        dec_value(r@) == n as nat,
{
    let mut tmp: Vec<u8> = Vec::new();
    if n == 0 {
        tmp.push(0x30);
        proof {
            lemma_dec_value_push(Seq::<u8>::empty(), 0x30);
            assert(tmp@ =~= Seq::<u8>::empty().push(0x30u8));
        }
        return tmp;
    }
    let mut x = n;
    proof {
        assert(pow10(tmp@.len()) == 1);
        assert(x as nat * 1 == x as nat);
    }
    while x > 0
        invariant
            x as nat * pow10(tmp@.len()) + dec_value_le(tmp@) == n as nat,
            forall|j: int| 0 <= j < tmp@.len() ==> is_digit(#[trigger] tmp@[j]),
            x == 0 ==> tmp@.len() > 0 && tmp@.last() != 0x30,
        decreases x,
    {
        let d = (x % 10) as u8;
        let ghost pre = tmp@;
        tmp.push(d + 0x30);
        proof {
            assert(tmp@ == pre.push((d + 0x30) as u8));
            lemma_dec_value_le_push(pre, (d + 0x30) as u8);
            assert(digit_val((d + 0x30) as u8) == d as nat);
            assert((x / 10) as nat * pow10(tmp@.len()) + dec_value_le(tmp@) == n as nat) by {
                assert(x as nat == 10 * (x as nat / 10) + x as nat % 10) by (nonlinear_arith);
                assert((10 * (x as nat / 10) + x as nat % 10) * pow10(pre.len()) == (x as nat / 10)
                    * (10 * pow10(pre.len())) + (x as nat % 10) * pow10(pre.len()))
                    by (nonlinear_arith);
                lemma_pow10_mul10(pre.len());
            }
        }
        x = x / 10;
    }
    proof {
        lemma_dec_value_reverse(tmp@);
    }
    // Emit the digits most significant first.
    let mut r: Vec<u8> = Vec::new();
    let count = tmp.len();
    let mut j: usize = 0;
    while j < count
        invariant
            0 <= j <= count,
            count == tmp@.len(),
            r@.len() == j,
            forall|t: int| 0 <= t < j ==> r@[t] == tmp@[count - 1 - t],
        decreases count - j,
    {
        let byte = tmp[count - 1 - j];
        r.push(byte);
        j += 1;
    }
    proof {
        assert(r@ =~= tmp@.reverse());
        assert(r@[0] == tmp@.last());
    }
    r
}

/// Relies on `core::str::from_utf8`: it succeeds exactly when the bytes are
/// valid UTF-8, and then views the same bytes as text.
#[verifier::external_body]
fn bytes_as_str(v: &[u8]) -> (r: Option<&str>)
    ensures
        r matches Some(s) ==> valid_utf8(v@) && s.spec_bytes() == v@,
        r is None ==> !valid_utf8(v@),
{
    core::str::from_utf8(v).ok()
}

/// Decodes a byte sequence as text under the text codec.  Succeeds exactly on
/// valid UTF-8, and then returns the decoded characters.
pub fn decode_text(b: &[u8]) -> (r: Option<String>)
    ensures
        r matches Some(s) ==> valid_utf8(b@) && s@ == decode_utf8(b@),
        r is None ==> !valid_utf8(b@),
{
    match bytes_as_str(b) {
        Some(s) => {
            proof {
                encode_utf8_decode_utf8(s@);
            }
            Some(s.to_owned())
        },
        None => None,
    }
}

/// Encodes text as its UTF-8 bytes.
pub fn encode_text(s: &str) -> (r: Vec<u8>)
    ensures
        r@ == encode_utf8(s@),
        valid_utf8(r@),
{
    proof {
        encode_utf8_valid_utf8(s@);
    }
    s.as_bytes_vec()
}

/// Law: the text codec round trip.  Encoding any text yields valid UTF-8
/// whose decoding is the original text, so `decode(encode(s))` always
/// succeeds and returns `s`.
pub proof fn lemma_text_round_trip(s: Seq<char>)
    ensures
        valid_utf8(encode_utf8(s)),
        decode_utf8(encode_utf8(s)) == s,
{
    encode_utf8_valid_utf8(s);
    encode_utf8_decode_utf8(s);
}

/// Law: the text codec round trip in the other direction.  Re-encoding the
/// text decoded from valid UTF-8 yields the original bytes.
pub proof fn lemma_bytes_round_trip(b: Seq<u8>)
    requires
        valid_utf8(b),
    ensures
        encode_utf8(decode_utf8(b)) == b,
{
    decode_utf8_encode_utf8(b);
}

/// Law: each number has exactly one canonical decimal form.  Together with
/// the contracts of `encode_u64` and `decode_u64` this makes the strict
/// decimal codec a bijection between numbers and canonical byte sequences:
/// decoding an encoding returns the number, and re-encoding a decoded
/// sequence returns the very same bytes.
pub proof fn lemma_dec_canonical_unique(a: Seq<u8>, b: Seq<u8>)
    requires
        valid_dec_u64(a),
        valid_dec_u64(b),
        dec_value(a) == dec_value(b),
    ensures
        a == b,
{
    lemma_dec_len_determined(a);
    lemma_dec_len_determined(b);
    if a.len() < b.len() {
        lemma_pow10_monotone(a.len() as nat, (b.len() - 1) as nat);
        assert(pow10(0) == 1);
        assert(dec_value(a) < pow10(a.len() as nat));
        assert(false);
    }
    if b.len() < a.len() {
        lemma_pow10_monotone(b.len() as nat, (a.len() - 1) as nat);
        assert(pow10(0) == 1);
        assert(dec_value(b) < pow10(b.len() as nat));
        assert(false);
    }
    lemma_dec_same_len_unique(a, b);
}

/// The length of a canonical form is determined by its value.
proof fn lemma_dec_len_determined(s: Seq<u8>)
    requires
        valid_dec_u64(s),
    ensures
        pow10((s.len() - 1) as nat) <= dec_value(s) < pow10(s.len() as nat)
            || (s.len() == 1 && dec_value(s) < 10),
    decreases s.len(),
{
    if s.len() == 1 {
        assert(s.drop_last() =~= Seq::<u8>::empty());
    } else {
        let p = s.drop_last();
        assert(valid_dec_u64(p)) by {
            assert(forall|i: int| 0 <= i < p.len() ==> p[i] == s[i] && is_digit(#[trigger] s[i]));
            lemma_dec_value_prefix_full(s);
        }
        lemma_dec_len_determined(p);
        let d: nat = (s.last() - 0x30) as nat;
        assert(dec_value(s) == dec_value(p) * 10 + d);
        if p.len() == 1 {
            assert(dec_value(p) >= 1) by {
                assert(p[0] != 0x30);
                assert(p.drop_last() =~= Seq::<u8>::empty());
            }
            assert(pow10(1) == 10);
            assert(dec_value(s) >= 10);
            assert(dec_value(p) < 10 ==> dec_value(p) * 10 + d < 100) by (nonlinear_arith)
                requires
                    d < 10,
            ;
            assert(pow10(2) == 100);
        } else {
            assert(pow10((p.len() - 1) as nat) <= dec_value(p) < pow10(p.len() as nat));
            assert(dec_value(p) * 10 >= pow10((p.len() - 1) as nat) * 10) by (nonlinear_arith)
                requires
                    dec_value(p) >= pow10((p.len() - 1) as nat),
            ;
            assert(pow10((p.len() - 1) as nat) * 10 == pow10(p.len() as nat)) by {
                lemma_pow10_mul10((p.len() - 1) as nat);
            }
            assert(dec_value(p) * 10 + d < pow10(p.len() as nat) * 10) by (nonlinear_arith)
                requires
                    dec_value(p) < pow10(p.len() as nat),
                    d < 10,
            ;
            assert(pow10(p.len() as nat) * 10 == pow10((p.len() + 1) as nat)) by {
                lemma_pow10_mul10(p.len() as nat);
            }
        }
    }
}

proof fn lemma_pow10_mul10(k: nat)
    ensures
        pow10(k) * 10 == pow10((k + 1) as nat),
{
    assert(pow10((k + 1) as nat) == 10 * pow10(k));
}

/// A proper prefix of digits stays valid when the whole is within bounds.
proof fn lemma_dec_value_prefix_full(s: Seq<u8>)
    requires
        s.len() > 1,
        dec_value(s) <= u64::MAX,
    ensures
        dec_value(s.drop_last()) <= u64::MAX,
{
    assert(dec_value(s) == dec_value(s.drop_last()) * 10 + (if is_digit(s.last()) {
        (s.last() - 0x30) as nat
    } else {
        0
    }));
    assert(dec_value(s.drop_last()) <= dec_value(s.drop_last()) * 10) by (nonlinear_arith);
}

/// Two equal-length digit sequences with the same value are equal.
proof fn lemma_dec_same_len_unique(a: Seq<u8>, b: Seq<u8>)
    requires
        a.len() == b.len(),
        forall|i: int| 0 <= i < a.len() ==> is_digit(#[trigger] a[i]),
        forall|i: int| 0 <= i < b.len() ==> is_digit(#[trigger] b[i]),
        dec_value(a) == dec_value(b),
    ensures
        a == b,
    decreases a.len(),
{
    if a.len() == 0 {
        assert(a =~= b);
    } else {
        let da: nat = (a.last() - 0x30) as nat;
        let db: nat = (b.last() - 0x30) as nat;
        assert(dec_value(a) == dec_value(a.drop_last()) * 10 + da);
        assert(dec_value(b) == dec_value(b.drop_last()) * 10 + db);
        assert(da == db && dec_value(a.drop_last()) == dec_value(b.drop_last()))
            by (nonlinear_arith)
            requires
                da < 10,
                db < 10,
                dec_value(a.drop_last()) * 10 + da == dec_value(b.drop_last()) * 10 + db,
        ;
        lemma_dec_same_len_unique(a.drop_last(), b.drop_last());
        assert(a =~= a.drop_last().push(a.last()));
        assert(b =~= b.drop_last().push(b.last()));
    }
}

} // verus!
