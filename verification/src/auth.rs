//! The token that authenticates command-line clients of the local RPC server.

use vstd::prelude::*;

use rand::Rng;
use subtle::ConstantTimeEq;

verus! {

broadcast use vstd::utf8::encode_utf8_decode_utf8;

/// Byte equality of two slices, compared in constant time
/// (`subtle::ConstantTimeEq::ct_eq` on `[u8]`, turned into a `bool`): true
/// exactly when the slices have the same length and the same bytes.
#[verifier::external_body]
fn ct_bytes_eq(a: &[u8], b: &[u8]) -> (r: bool)
    ensures
        r == (a@ == b@),
{
    bool::from(a.ct_eq(b))
}

/// Thirty-two bytes from the thread-local random generator
/// (`rand::rng().fill`). Nothing is promised of their values.
#[verifier::external_body]
fn random_bytes_32() -> (r: Vec<u8>)
    ensures
        r@.len() == 32,
{
    let mut buf = [0u8; 32];
    rand::rng().fill(&mut buf[..]);
    buf.to_vec()
}

/// The token a request carries (none counts as empty) matches the server's.
pub open spec fn spec_token_matches(provided: Option<Seq<char>>, token: Seq<char>) -> bool {
    match provided {
        Some(p) => p == token,
        None => token.len() == 0,
    }
}

/// Whether the `X-Keysight-Token` a request carries (`None` when absent or
/// not text) equals the server's token; compared in constant time.
pub fn token_matches(provided: Option<&str>, token: &str) -> (r: bool)
    ensures
        r == spec_token_matches(
            match provided {
                Some(p) => Some(p@),
                None => None,
            },
            token@,
        ),
{
    let p: &str = match provided {
        Some(p) => p,
        None => "",
    };
    proof {
        reveal_strlit("");
    }
    let pb = p.as_bytes();
    let tb = token.as_bytes();
    let eq = ct_bytes_eq(pb, tb);
    proof {
        if pb@ == tb@ {
            assert(vstd::utf8::decode_utf8(pb@) == p@);
            assert(vstd::utf8::decode_utf8(tb@) == token@);
        }
    }
    eq
}

/// Lower-case hexadecimal digit of `d`.
pub open spec fn hex_lower(d: int) -> char {
    if d < 10 {
        (48 + d) as char
    } else {
        (87 + d) as char
    }
}

fn hex_lower_exec(d: u8) -> (c: char)
    requires
        d < 16,
    ensures
        c == hex_lower(d as int),
{
    if d == 0 {
        '0'
    } else if d == 1 {
        '1'
    } else if d == 2 {
        '2'
    } else if d == 3 {
        '3'
    } else if d == 4 {
        '4'
    } else if d == 5 {
        '5'
    } else if d == 6 {
        '6'
    } else if d == 7 {
        '7'
    } else if d == 8 {
        '8'
    } else if d == 9 {
        '9'
    } else if d == 10 {
        'a'
    } else if d == 11 {
        'b'
    } else if d == 12 {
        'c'
    } else if d == 13 {
        'd'
    } else if d == 14 {
        'e'
    } else {
        'f'
    }
}

/// Each byte as two lower-case hexadecimal digits (`{:02x}`), in order.
pub open spec fn spec_hex_encode(b: Seq<u8>) -> Seq<char>
    decreases b.len(),
{
    if b.len() == 0 {
        Seq::empty()
    } else {
        spec_hex_encode(b.drop_last()) + seq![
            hex_lower((b.last() / 16) as int),
            hex_lower((b.last() % 16) as int),
        ]
    }
}

/// Each byte as two lower-case hexadecimal digits, in order.
pub fn hex_encode(bytes: &Vec<u8>) -> (r: String)
    ensures
        r@ == spec_hex_encode(bytes@),
{
    let mut out: Vec<char> = Vec::new();
    let mut i: usize = 0;
    while i < bytes.len()
        invariant
            i <= bytes.len(),
            out@ == spec_hex_encode(bytes@.take(i as int)),
        decreases bytes.len() - i,
    {
        let b = bytes[i];
        out.push(hex_lower_exec(b / 16));
        out.push(hex_lower_exec(b % 16));
        assert(bytes@.take(i + 1).drop_last() =~= bytes@.take(i as int));
        assert(out@ =~= spec_hex_encode(bytes@.take(i + 1)));
        i = i + 1;
    }
    assert(bytes@.take(bytes.len() as int) =~= bytes@);
    crate::text::string_of(out.as_slice())
}

/// A lower-case hexadecimal digit.
pub open spec fn is_hex_lower_digit(c: char) -> bool {
    ('0' <= c && c <= '9') || ('a' <= c && c <= 'f')
}

proof fn lemma_hex_encode_shape(b: Seq<u8>)
    ensures
        spec_hex_encode(b).len() == 2 * b.len(),
        forall|i: int| 0 <= i < spec_hex_encode(b).len() ==> is_hex_lower_digit(
            #[trigger] spec_hex_encode(b)[i],
        ),
    decreases b.len(),
{
    if b.len() > 0 {
        lemma_hex_encode_shape(b.drop_last());
        let x = b.last();
        assert(0 <= x / 16 < 16);
        assert(0 <= x % 16 < 16);
    }
}

/// A new random token: 32 random bytes in lower-case hexadecimal, so 64
/// characters each `0-9` or `a-f`.
pub fn generate_token() -> (r: String)
    ensures
        r@.len() == 64,
        forall|i: int| 0 <= i < r@.len() ==> is_hex_lower_digit(#[trigger] r@[i]),
        exists|b: Seq<u8>| b.len() == 32 && r@ == spec_hex_encode(b),
{
    let bytes = random_bytes_32();
    proof {
        lemma_hex_encode_shape(bytes@);
    }
    hex_encode(&bytes)
}

/// The value of a lower-case hexadecimal digit.
pub open spec fn hex_digit_value(c: char) -> int {
    if '0' <= c && c <= '9' {
        c as int - '0' as int
    } else {
        c as int - 'a' as int + 10
    }
}

/// Encoding bytes in hexadecimal loses nothing: byte `i` is read back from
/// digits `2i` (high) and `2i + 1` (low), which are `0-9` or `a-f`.
pub proof fn law_hex_encoding_reads_back(b: Seq<u8>)
    ensures
        spec_hex_encode(b).len() == 2 * b.len(),
        forall|i: int|
            0 <= i < b.len() ==> 16 * hex_digit_value(#[trigger] spec_hex_encode(b)[2 * i])
                + hex_digit_value(spec_hex_encode(b)[2 * i + 1]) == b[i],
        forall|i: int|
            0 <= i < spec_hex_encode(b).len() ==> ('0' <= #[trigger] spec_hex_encode(b)[i] <= '9')
                || ('a' <= spec_hex_encode(b)[i] <= 'f'),
    decreases b.len(),
{
    lemma_hex_encode_shape(b);
    if b.len() > 0 {
        let d = b.drop_last();
        law_hex_encoding_reads_back(d);
        let x = b.last();
        let hi = (x / 16) as int;
        let lo = (x % 16) as int;
        assert(0 <= hi < 16 && 0 <= lo < 16 && 16 * hi + lo == x);
        assert(hex_digit_value(hex_lower(hi)) == hi);
        assert(hex_digit_value(hex_lower(lo)) == lo);
        let e = spec_hex_encode(b);
        let ed = spec_hex_encode(d);
        assert forall|i: int| 0 <= i < b.len() implies 16 * hex_digit_value(#[trigger] e[2 * i])
            + hex_digit_value(e[2 * i + 1]) == b[i] by {
            if i < d.len() {
                assert(e[2 * i] == ed[2 * i] && e[2 * i + 1] == ed[2 * i + 1]);
                assert(b[i] == d[i]);
                assert(16 * hex_digit_value(ed[2 * i]) + hex_digit_value(ed[2 * i + 1]) == d[i]);
            } else {
                assert(e[2 * i] == hex_lower(hi) && e[2 * i + 1] == hex_lower(lo));
            }
        }
        assert forall|i: int| 0 <= i < e.len() implies ('0' <= #[trigger] e[i] <= '9') || ('a'
            <= e[i] <= 'f') by {
            assert(is_hex_lower_digit(e[i]));
        }
    }
}

/// A request is let through exactly when it carries the server's token,
/// or carries none while the server's token is empty.
pub proof fn law_token_gate(provided: Option<Seq<char>>, token: Seq<char>)
    ensures
        spec_token_matches(Some(token), token),
        provided matches Some(p) && p != token ==> !spec_token_matches(provided, token),
        provided is None ==> (spec_token_matches(provided, token) <==> token.len() == 0),
{
}

} // verus!
