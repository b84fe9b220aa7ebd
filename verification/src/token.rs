use vstd::prelude::*;

verus! {

/// How many random bytes make a session token: 256 bits.
pub const TOKEN_BYTES: usize = 32;

/// The lowercase hexadecimal digit for `d`.
pub open spec fn hex_digit(d: nat) -> char {
    if d < 10 {
        ((d + 48) as u8) as char
    } else {
        ((d + 87) as u8) as char
    }
}

/// `bytes` in lowercase hexadecimal, two digits per byte, high nibble first.
pub open spec fn hex_lower(bytes: Seq<u8>) -> Seq<char>
    decreases bytes.len(),
{
    if bytes.len() == 0 {
        Seq::empty()
    } else {
        hex_lower(bytes.drop_last()) + seq![
            hex_digit((bytes.last() / 16) as nat),
            hex_digit((bytes.last() % 16) as nat),
        ]
    }
}

fn hex_char(d: u8) -> (c: char)
    requires
        d < 16,
    ensures
        c == hex_digit(d as nat),
{
    if d < 10 {
        (d + 48) as char
    } else {
        (d + 87) as char
    }
}

/// `bytes` written as lowercase hexadecimal, as `format!("{b:02x}")` writes
/// each byte.
pub fn hex_string(bytes: &[u8]) -> (s: String)
    ensures
        s@ == hex_lower(bytes@),
{
    let mut s = String::new();
    let n = bytes.len();
    let mut i: usize = 0;
    while i < n
        invariant
            n == bytes@.len(),
            i <= n,
            s@ == hex_lower(bytes@.take(i as int)),
        decreases n - i,
    {
        let b = bytes[i];
        proof {
            let t = bytes@.take(i + 1);
            assert(t.drop_last() =~= bytes@.take(i as int));
            assert(t.last() == b);
        }
        s.push(hex_char(b / 16));
        s.push(hex_char(b % 16));
        i = i + 1;
    }
    assert(bytes@.take(n as int) =~= bytes@);
    s
}

/// Calls `getrandom::fill` on the buffer. When it reports success the buffer
/// has been filled from the operating system's random source. Nothing is
/// claimed of the bytes; the length is unchanged either way.
#[verifier::external_body]
fn fill_from_os(buf: &mut Vec<u8>) -> (filled: bool)
    ensures
        final(buf)@.len() == old(buf)@.len(),
{
    getrandom::fill(buf.as_mut_slice()).is_ok()
}

/// The token a draw from the random source yields: the hexadecimal of the
/// drawn bytes when the draw succeeded, and no token at all when it failed,
/// never one made up from the untouched buffer.
pub fn token_from_draw(filled: bool, bytes: &[u8]) -> (token: Option<String>)
    ensures
        filled ==> (token matches Some(t) && t@ == hex_lower(bytes@)),
        !filled ==> token is None,
{
    if filled {
        Some(hex_string(bytes))
    } else {
        None
    }
}

/// A fresh session token: 32 bytes from the operating system's random source,
/// in lowercase hexadecimal. `None` when that source is unavailable.
pub fn new_session_token() -> (token: Option<String>)
    ensures
        token matches Some(t) ==> exists|b: Seq<u8>| b.len() == TOKEN_BYTES && t@ == #[trigger] hex_lower(b),
{
    let mut bytes: Vec<u8> = vec![0u8; TOKEN_BYTES];
    let filled = fill_from_os(&mut bytes);
    let token = token_from_draw(filled, bytes.as_slice());
    proof {
        if filled {
            assert(bytes@.len() == TOKEN_BYTES);
        }
    }
    token
}

} // verus!
