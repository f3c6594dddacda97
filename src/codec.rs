//! Standard padded base64 and the encoding of the client's auth token.
use vstd::prelude::*;
use vstd::string::StringExecFns;
use vstd::utf8::encode_utf8;

verus! {

/// The character that standard base64 writes for the six-bit value `v`.
pub open spec fn b64_digit(v: int) -> char {
    if v < 26 {
        ((v + 65) as u8) as char
    } else if v < 52 {
        ((v + 71) as u8) as char
    } else if v < 62 {
        ((v - 4) as u8) as char
    } else if v == 62 {
        '+'
    } else {
        '/'
    }
}

/// The six-bit value of a character of the standard base64 alphabet.
pub open spec fn b64_value(c: char) -> int {
    if 'A' <= c && c <= 'Z' {
        c as int - 65
    } else if 'a' <= c && c <= 'z' {
        c as int - 71
    } else if '0' <= c && c <= '9' {
        c as int + 4
    } else if c == '+' {
        62
    } else {
        63
    }
}

proof fn lemma_digit_value(v: int)
    requires
        0 <= v < 64,
    ensures
        b64_value(b64_digit(v)) == v,
        b64_digit(v) != '=',
{
}

/// Standard padded base64 of `b`: each group of three bytes becomes four
/// digits, and a final group of one or two bytes is padded with `=`.
pub open spec fn base64(b: Seq<u8>) -> Seq<char>
    decreases b.len(),
{
    if b.len() == 0 {
        seq![]
    } else if b.len() == 1 {
        let x = b[0] as int;
        seq![b64_digit(x / 4), b64_digit((x % 4) * 16), '=', '=']
    } else if b.len() == 2 {
        let x = b[0] as int;
        let y = b[1] as int;
        seq![b64_digit(x / 4), b64_digit((x % 4) * 16 + y / 16), b64_digit((y % 16) * 4), '=']
    } else {
        let x = b[0] as int;
        let y = b[1] as int;
        let z = b[2] as int;
        seq![
            b64_digit(x / 4),
            b64_digit((x % 4) * 16 + y / 16),
            b64_digit((y % 16) * 4 + z / 64),
            b64_digit(z % 64),
        ] + base64(b.skip(3))
    }
}

/// Decoding of standard padded base64: each group of four digits gives three
/// bytes, or fewer where the group ends in padding.
pub open spec fn unbase64(s: Seq<char>) -> Seq<u8>
    decreases s.len(),
{
    if s.len() < 4 {
        seq![]
    } else {
        let a = b64_value(s[0]);
        let b = b64_value(s[1]);
        let c = b64_value(s[2]);
        let d = b64_value(s[3]);
        let x = (a * 4 + b / 16) as u8;
        let y = ((b % 16) * 16 + c / 4) as u8;
        let z = ((c % 4) * 64 + d) as u8;
        if s[2] == '=' {
            seq![x]
        } else if s[3] == '=' {
            seq![x, y]
        } else {
            seq![x, y, z] + unbase64(s.skip(4))
        }
    }
}

/// Decoding the base64 of any byte sequence gives that sequence back.
pub proof fn lemma_base64_round_trip(b: Seq<u8>)
    ensures
        unbase64(base64(b)) == b,
    decreases b.len(),
{
    if b.len() == 0 {
    } else {
        let x = b[0] as int;
        let y = if b.len() > 1 { b[1] as int } else { 0 };
        let z = if b.len() > 2 { b[2] as int } else { 0 };
        assert(0 <= x / 4 < 64 && 0 <= (x % 4) * 16 + y / 16 < 64 && 0 <= (y % 16) * 4 + z / 64
            < 64 && 0 <= z % 64 < 64) by (nonlinear_arith)
            requires
                0 <= x < 256,
                0 <= y < 256,
                0 <= z < 256,
        ;
        assert((x / 4) * 4 + ((x % 4) * 16 + y / 16) / 16 == x && (((x % 4) * 16 + y / 16) % 16)
            * 16 + ((y % 16) * 4 + z / 64) / 4 == y && (((y % 16) * 4 + z / 64) % 4) * 64 + z % 64
            == z) by (nonlinear_arith)
            requires
                0 <= x < 256,
                0 <= y < 256,
                0 <= z < 256,
        ;
        lemma_digit_value(x / 4);
        lemma_digit_value((x % 4) * 16 + y / 16);
        lemma_digit_value((y % 16) * 4 + z / 64);
        lemma_digit_value(z % 64);
        let e = base64(b);
        if b.len() == 1 {
            assert(unbase64(e) =~= b);
        } else if b.len() == 2 {
            assert(unbase64(e) =~= b);
        } else {
            lemma_base64_round_trip(b.skip(3));
            assert(e.skip(4) =~= base64(b.skip(3)));
            assert(unbase64(e) =~= b);
        }
    }
}

/// The user name and token joined by a colon, as the client's basic
/// authentication expects them: `riot:<token>`.
pub open spec fn user_and_token(token: Seq<char>) -> Seq<char> {
    seq!['r', 'i', 'o', 't', ':'] + token
}

/// The base64 of the UTF-8 bytes of `riot:<token>`.
pub open spec fn encoded_token(token: Seq<char>) -> Seq<char> {
    base64(encode_utf8(user_and_token(token)))
}

/// Relies on `irelia_encoder::Encoder::encode`, with the alphabet of
/// `Encoder::new`: it writes the standard padded base64 of the bytes.
#[verifier::external_body]
fn base64_of(text: &str) -> (r: String)
    ensures
        r@ == base64(encode_utf8(text@)),
{
    irelia_encoder::Encoder::new().encode(text)
}

/// Encodes the auth token for the `Basic` authorization header: the base64
/// of `riot:<token>`.
pub fn encode(token: &str) -> (r: String)
    ensures
        r@ == encoded_token(token@),
{
    let text = String::from_str("riot:").concat(token);
    proof {
        reveal_strlit("riot:");
    }
    assert(text@ =~= user_and_token(token@));
    base64_of(text.as_str())
}

/// Encoding depends on the token alone, and decoding the result gives back
/// the UTF-8 bytes of `riot:<token>` exactly.
pub proof fn lemma_encode_round_trip(token: Seq<char>, other: Seq<char>)
    ensures
        token == other ==> encoded_token(token) == encoded_token(other),
        unbase64(encoded_token(token)) == encode_utf8(user_and_token(token)),
{
    lemma_base64_round_trip(encode_utf8(user_and_token(token)));
}

} // verus!
