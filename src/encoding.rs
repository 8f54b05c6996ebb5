//! Text encodings of binary fields: the canonical lowercase hexadecimal form,
//! and decimal numbers as the node's wire format writes them.
use crate::cluster::ClusterError;
use base64::Engine;
use vstd::prelude::*;

verus! {

/// The sixteen lowercase hexadecimal digits, in order of value.
pub open spec fn hex_digits() -> Seq<char> {
    seq!['0', '1', '2', '3', '4', '5', '6', '7', '8', '9', 'a', 'b', 'c', 'd', 'e', 'f']
}

/// Lowercase hexadecimal text of `bytes`: two digits per byte, high half first.
pub open spec fn hex_of(bytes: Seq<u8>) -> Seq<char>
    decreases bytes.len(),
{
    if bytes.len() == 0 {
        Seq::empty()
    } else {
        let b = bytes.last();
        hex_of(bytes.drop_last()) + seq![hex_digits()[b as int / 16], hex_digits()[b as int % 16]]
    }
}

/// Text in the canonical encoding: an even number of lowercase hexadecimal digits.
pub open spec fn is_canonical_hex(s: Seq<char>) -> bool {
    &&& s.len() % 2 == 0
    &&& forall|i: int| 0 <= i < s.len() ==> hex_digits().contains(#[trigger] s[i])
}

/// The bytes that standard base64 (with padding) decodes `s` to, or `None`
/// where `s` is not valid base64.
pub uninterp spec fn base64_decoded(s: Seq<char>) -> Option<Seq<u8>>;

/// The canonical form of a binary field that arrives either as lowercase
/// hexadecimal or as base64: text that already is canonical hexadecimal is
/// kept as it is, any other text is read as base64 and written as hexadecimal.
/// `None` where the text is neither.
pub open spec fn canonical_hex_of(s: Seq<char>) -> Option<Seq<char>> {
    if is_canonical_hex(s) {
        Some(s)
    } else {
        match base64_decoded(s) {
            Some(bytes) => Some(hex_of(bytes)),
            None => None,
        }
    }
}

/// Hexadecimal text is in the canonical encoding.
pub proof fn lemma_hex_of_is_canonical(bytes: Seq<u8>)
    ensures
        is_canonical_hex(hex_of(bytes)),
        hex_of(bytes).len() == 2 * bytes.len(),
    decreases bytes.len(),
{
    if bytes.len() > 0 {
        let b = bytes.last();
        lemma_hex_of_is_canonical(bytes.drop_last());
        let tail = seq![hex_digits()[b as int / 16], hex_digits()[b as int % 16]];
        assert(hex_digits().contains(tail[0]));
        assert(hex_digits().contains(tail[1]));
        let init = hex_of(bytes.drop_last());
        assert forall|i: int| 0 <= i < hex_of(bytes).len() implies hex_digits().contains(
            #[trigger] hex_of(bytes)[i],
        ) by {
            if i < init.len() {
                assert(hex_of(bytes)[i] == init[i]);
            } else {
                assert(hex_of(bytes)[i] == tail[i - init.len()]);
            }
        }
    }
}

/// Canonicalisation yields canonical text, and leaves canonical text as it is.
pub proof fn lemma_canonical_hex_of_is_canonical(s: Seq<char>)
    ensures
        canonical_hex_of(s) matches Some(t) ==> is_canonical_hex(t) && canonical_hex_of(t) == Some(t),
{
    if let Some(bytes) = base64_decoded(s) {
        lemma_hex_of_is_canonical(bytes);
    }
}

/// The same bytes, whether they arrive as hexadecimal or as base64, come out
/// as the same canonical text: their hexadecimal. Base64 text that consists
/// of an even number of lowercase hexadecimal digits is read as hexadecimal.
pub proof fn lemma_encodings_agree(bytes: Seq<u8>, s: Seq<char>)
    requires
        s == hex_of(bytes) || (base64_decoded(s) == Some(bytes) && !is_canonical_hex(s)),
    ensures
        canonical_hex_of(s) == Some(hex_of(bytes)),
{
    lemma_hex_of_is_canonical(bytes);
}

/// Relies on base64's `engine::general_purpose::STANDARD.decode` (standard
/// alphabet, canonical padding required): it decodes the text to bytes, or
/// fails on text that is not base64. Whether it fails and what it returns
/// depend on the text alone.
#[verifier::external_body]
fn decode_base64(s: &str) -> (r: Option<Vec<u8>>)
    ensures
        match r {
            Some(bytes) => base64_decoded(s@) == Some(bytes@),
            None => base64_decoded(s@) is None,
        },
{
    base64::engine::general_purpose::STANDARD.decode(s).ok()
}

/// Relies on hex::encode: two lowercase hexadecimal digits per byte, in order.
#[verifier::external_body]
fn encode_hex(bytes: &Vec<u8>) -> (r: String)
    ensures
        r@ == hex_of(bytes@),
{
    hex::encode(bytes)
}

/// Whether `c` is one of the sixteen lowercase hexadecimal digits.
fn is_hex_digit(c: char) -> (r: bool)
    ensures
        r == hex_digits().contains(c),
{
    let r = ('0' <= c && c <= '9') || ('a' <= c && c <= 'f');
    proof {
        if r {
            let k: int = if c <= '9' { c as int - '0' as int } else { c as int - 'a' as int + 10 };
            assert(hex_digits()[k] == c);
        } else {
            assert forall|k: int| 0 <= k < 16 implies hex_digits()[k] != c by {}
        }
    }
    r
}

/// Whether `s` is already in the canonical encoding.
pub fn is_canonical(s: &str) -> (r: bool)
    ensures
        r == is_canonical_hex(s@),
{
    let n = s.unicode_len();
    if n % 2 != 0 {
        return false;
    }
    let mut i: usize = 0;
    while i < n
        invariant
            n == s@.len(),
            i <= n,
            forall|j: int| 0 <= j < i ==> hex_digits().contains(#[trigger] s@[j]),
        decreases n - i,
    {
        if !is_hex_digit(s.get_char(i)) {
            return false;
        }
        i = i + 1;
    }
    true
}

/// Lowercase hexadecimal text of `bytes`.
pub fn hex_text(bytes: &Vec<u8>) -> (r: String)
    ensures
        r@ == hex_of(bytes@),
{
    encode_hex(bytes)
}

/// The canonical hexadecimal form of a binary field that arrived as
/// hexadecimal or as base64; `EncodingError` where it is neither.
pub fn to_hex(s: &str) -> (r: Result<String, ClusterError>)
    ensures
        match r {
            Ok(t) => canonical_hex_of(s@) == Some(t@),
            Err(e) => e == ClusterError::EncodingError && canonical_hex_of(s@) is None,
        },
{
    if is_canonical(s) {
        Ok(s.to_owned())
    } else {
        match decode_base64(s) {
            Some(bytes) => Ok(encode_hex(&bytes)),
            None => Err(ClusterError::EncodingError),
        }
    }
}

/// The ten decimal digits, in order of value.
pub open spec fn decimal_digits() -> Seq<char> {
    seq!['0', '1', '2', '3', '4', '5', '6', '7', '8', '9']
}

/// Decimal text of `n`, without sign or leading zeros.
pub open spec fn decimal_of(n: nat) -> Seq<char>
    decreases n,
{
    if n < 10 {
        seq![decimal_digits()[n as int]]
    } else {
        decimal_of(n / 10) + seq![decimal_digits()[(n % 10) as int]]
    }
}

/// Whether every character of `s` is a decimal digit.
pub open spec fn all_decimal(s: Seq<char>) -> bool {
    forall|i: int| 0 <= i < s.len() ==> '0' <= #[trigger] s[i] && s[i] <= '9'
}

/// The value of a run of decimal digits, most significant first.
pub open spec fn decimal_value(s: Seq<char>) -> nat
    decreases s.len(),
{
    if s.len() == 0 {
        0
    } else {
        (decimal_value(s.drop_last()) * 10 + (s.last() as int - '0' as int)) as nat
    }
}

/// The number that decimal text denotes, as an unsigned 64-bit integer: an
/// optional `+`, then at least one decimal digit, of value at most `u64::MAX`.
/// `None` for any other text (signs, spaces, separators, overflow).
pub open spec fn parsed_u64(s: Seq<char>) -> Option<u64> {
    let digits = if s.len() > 0 && s[0] == '+' { s.drop_first() } else { s };
    if digits.len() > 0 && all_decimal(digits) && decimal_value(digits) <= u64::MAX {
        Some(decimal_value(digits) as u64)
    } else {
        None
    }
}

/// The one-character text of the decimal digit `d`.
fn digit_text(d: u64) -> (r: &'static str)
    requires
        d < 10,
    ensures
        r@ == seq![decimal_digits()[d as int]],
{
    proof {
        reveal_strlit("0");
        reveal_strlit("1");
        reveal_strlit("2");
        reveal_strlit("3");
        reveal_strlit("4");
        reveal_strlit("5");
        reveal_strlit("6");
        reveal_strlit("7");
        reveal_strlit("8");
        reveal_strlit("9");
    }
    match d {
        0 => "0",
        1 => "1",
        2 => "2",
        3 => "3",
        4 => "4",
        5 => "5",
        6 => "6",
        7 => "7",
        8 => "8",
        _ => "9",
    }
}

/// Decimal text of `n`.
pub fn decimal(n: u64) -> (r: String)
    ensures
        r@ == decimal_of(n as nat),
    decreases n,
{
    if n < 10 {
        digit_text(n).to_owned()
    } else {
        let head = decimal(n / 10);
        head.concat(digit_text(n % 10))
    }
}

/// Reads decimal text as an unsigned 64-bit integer.
pub fn parse_u64(s: &str) -> (r: Option<u64>)
    ensures
        r == parsed_u64(s@),
{
    let n = s.unicode_len();
    let start: usize = if n > 0 && s.get_char(0) == '+' { 1 } else { 0 };
    let ghost digits = s@.subrange(start as int, n as int);
    assert(digits =~= (if s@.len() > 0 && s@[0] == '+' { s@.drop_first() } else { s@ }));
    if start >= n {
        return None;
    }
    let mut acc: u64 = 0;
    let mut overflow = false;
    let mut i: usize = start;
    while i < n
        invariant
            n == s@.len(),
            start <= i <= n,
            digits == s@.subrange(start as int, n as int),
            digits == (if s@.len() > 0 && s@[0] == '+' { s@.drop_first() } else { s@ }),
            all_decimal(s@.subrange(start as int, i as int)),
            !overflow ==> acc == decimal_value(s@.subrange(start as int, i as int)),
            overflow ==> decimal_value(s@.subrange(start as int, i as int)) > u64::MAX,
        decreases n - i,
    {
        let c = s.get_char(i);
        let ghost prefix = s@.subrange(start as int, i as int);
        let ghost next = s@.subrange(start as int, i + 1);
        assert(next.drop_last() =~= prefix);
        assert(next.last() == c);
        if !('0' <= c && c <= '9') {
            assert(digits[i - start] == c);
            assert(!all_decimal(digits));
            return None;
        }
        let d: u64 = (c as u32 - '0' as u32) as u64;
        assert(d as int == c as int - '0' as int);
        if !overflow {
            if acc > (u64::MAX - d) / 10 {
                assert(acc * 10 + d > u64::MAX) by (nonlinear_arith)
                    requires
                        acc > (u64::MAX - d) / 10,
                        d <= 9,
                ;
                overflow = true;
            } else {
                assert(acc * 10 + d <= u64::MAX) by (nonlinear_arith)
                    requires
                        acc <= (u64::MAX - d) / 10,
                        d <= 9,
                ;
                acc = acc * 10 + d;
            }
        } else {
            let ghost v = decimal_value(prefix);
            assert(v * 10 + d > u64::MAX) by (nonlinear_arith)
                requires
                    v > u64::MAX,
            ;
        }
        assert(all_decimal(next));
        i = i + 1;
    }
    assert(s@.subrange(start as int, n as int) == digits);
    if overflow {
        None
    } else {
        Some(acc)
    }
}

} // verus!
