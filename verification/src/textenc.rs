//! Text encoding at the payload boundary.
//!
//! Entity payloads are byte sequences; some of them carry text (a refresh
//! token, an identifier typed by a user). Decoding goes through the host's
//! UTF-8 validation, specified against vstd's UTF-8 model, so that
//! serialize-then-deserialize round trips are provable. Decimal rendering
//! of indices is written and verified here outright.

use vstd::prelude::*;

use vstd::utf8::{decode_utf8, encode_utf8, valid_utf8};

verus! {

/// Relies on String::from_utf8: it succeeds exactly on valid UTF-8 and
/// returns the characters that the bytes encode.
#[verifier::external_body]
pub fn string_from_utf8(v: Vec<u8>) -> (r: Option<String>)
    ensures
        r is Some <==> valid_utf8(v@),
        r matches Some(s) ==> s@ == decode_utf8(v@),
{
    String::from_utf8(v).ok()
}

/// The decimal digits of `n`, most significant first, no leading zeros.
pub open spec fn dec_chars(n: nat) -> Seq<char>
    decreases n,
{
    if n < 10 {
        seq![((n + 48) as u8) as char]
    } else {
        dec_chars(n / 10).push(((n % 10 + 48) as u8) as char)
    }
}

/// The decimal digits are ASCII and each one's byte is its character code.
pub proof fn lemma_dec_chars_ascii(n: nat)
    ensures
        vstd::utf8::is_ascii_chars(dec_chars(n)),
        dec_chars(n).len() >= 1,
    decreases n,
{
    reveal_with_fuel(dec_chars, 2);
    if n < 10 {
    } else {
        lemma_dec_chars_ascii(n / 10);
    }
}

/// The ASCII bytes of the decimal digits of `n`, appended to `out`.
fn push_dec_bytes(n: u64, out: &mut Vec<u8>)
    ensures
        final(out)@.len() == old(out)@.len() + dec_chars(n as nat).len(),
        final(out)@ == old(out)@ + encode_utf8(dec_chars(n as nat)),
    decreases n,
{
    proof {
        lemma_dec_chars_ascii(n as nat);
        vstd::utf8::is_ascii_chars_encode_utf8(dec_chars(n as nat));
    }
    if n < 10 {
        out.push((n as u8) + 48);
        proof {
            assert(final(out)@ =~= old(out)@ + encode_utf8(dec_chars(n as nat)));
        }
    } else {
        proof {
            lemma_dec_chars_ascii((n / 10) as nat);
            vstd::utf8::is_ascii_chars_encode_utf8(dec_chars((n / 10) as nat));
        }
        push_dec_bytes(n / 10, out);
        out.push(((n % 10) as u8) + 48);
        proof {
            let whole = dec_chars(n as nat);
            let head = dec_chars((n / 10) as nat);
            assert(whole == head.push(((n as nat % 10 + 48) as u8) as char));
            assert(final(out)@ =~= old(out)@ + encode_utf8(whole));
        }
    }
}

/// The decimal rendering of `n`, e.g. 40 becomes "40".
pub fn u64_to_dec(n: u64) -> (s: String)
    ensures
        s@ == dec_chars(n as nat),
{
    let mut bytes: Vec<u8> = Vec::new();
    push_dec_bytes(n, &mut bytes);
    proof {
        lemma_dec_chars_ascii(n as nat);
        vstd::utf8::encode_utf8_valid_utf8(dec_chars(n as nat));
        assert(bytes@ =~= encode_utf8(dec_chars(n as nat)));
        vstd::utf8::encode_utf8_decode_utf8(dec_chars(n as nat));
    }
    match string_from_utf8(bytes) {
        Some(s) => s,
        None => {
            proof {
                assert(false);
            }
            String::new()
        },
    }
}

} // verus!
