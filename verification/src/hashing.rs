//! Text-level hashing primitives: decimal rendering of counters, the
//! difficulty target on a hash's hexadecimal text, and the content digest.

use vstd::prelude::*;
use vstd::string::StringExecFns;
use vstd::string::StrSliceExecFns;

verus! {

/// The decimal digit character for a value below ten.
pub open spec fn dec_digit(d: nat) -> char {
    if d == 0 {
        '0'
    } else if d == 1 {
        '1'
    } else if d == 2 {
        '2'
    } else if d == 3 {
        '3'
    } else if d == 4 {
        '4'
    } else if d == 5 {
        '5'
    } else if d == 6 {
        '6'
    } else if d == 7 {
        '7'
    } else if d == 8 {
        '8'
    } else {
        '9'
    }
}

/// The decimal text of a natural number, most significant digit first,
/// with no leading zeros (a lone zero for zero itself).
pub open spec fn dec_of(n: nat) -> Seq<char>
    decreases n,
{
    if n < 10 {
        seq![dec_digit(n)]
    } else {
        dec_of(n / 10).push(dec_digit(n % 10))
    }
}

fn digit_str(d: u64) -> (r: &'static str)
    requires
        d < 10,
    ensures
        r@ == seq![dec_digit(d as nat)],
{
    proof {
        reveal_strlit("0");
        reveal_strlit("1");
        reveal_strlit("2");
        reveal_strlit("3");
        reveal_strlit("4");
        reveal_strlit("5");
        reveal_strlit("6");
        reveal_strlit("7");
        reveal_strlit("8");
        reveal_strlit("9");
    }
    let r: &'static str = if d == 0 {
        "0"
    } else if d == 1 {
        "1"
    } else if d == 2 {
        "2"
    } else if d == 3 {
        "3"
    } else if d == 4 {
        "4"
    } else if d == 5 {
        "5"
    } else if d == 6 {
        "6"
    } else if d == 7 {
        "7"
    } else if d == 8 {
        "8"
    } else {
        "9"
    };
    proof {
        assert(r@ =~= seq![dec_digit(d as nat)]);
    }
    r
}

/// Renders a counter as decimal text, exactly as its fixed textual form
/// inside a block's hash payload.
pub fn u64_to_dec(n: u64) -> (r: String)
    ensures
        r@ == dec_of(n as nat),
    decreases n,
{
    if n < 10 {
        String::from_str(digit_str(n))
    } else {
        let prefix = u64_to_dec(n / 10);
        let r = prefix.concat(digit_str(n % 10));
        proof {
            assert(r@ =~= dec_of(n as nat));
        }
        r
    }
}

/// A hash's text meets difficulty `d` when it begins with `d` zero characters.
pub open spec fn meets_difficulty(h: Seq<char>, d: nat) -> bool {
    d <= h.len() && (forall|i: int| 0 <= i < d ==> h[i] == '0')
}

/// Decides the proof-of-work target: whether the hash text starts with
/// `d` consecutive `'0'` characters.
pub fn check_difficulty(h: &str, d: usize) -> (r: bool)
    ensures
        r == meets_difficulty(h@, d as nat),
{
    let len = h.unicode_len();
    if d > len {
        return false;
    }
    let mut i: usize = 0;
    while i < d
        invariant
            i <= d <= h@.len(),
            forall|j: int| 0 <= j < i ==> h@[j] == '0',
        decreases d - i,
    {
        if h.get_char(i) != '0' {
            return false;
        }
        i += 1;
    }
    true
}

/// The hexadecimal text of the content digest of a character sequence.
/// The digest is a fixed cryptographic function of the input alone.
pub uninterp spec fn digest_hex_of(payload: Seq<char>) -> Seq<char>;

/// Relies on `blake3::hash` and `blake3::Hash::to_hex`: the digest depends
/// on the input bytes alone, and its hexadecimal text is 64 characters.
#[verifier::external_body]
pub(crate) fn digest_hex(payload: &str) -> (r: String)
    ensures
        r@ == digest_hex_of(payload@),
        r@.len() == 64,
{
    blake3::hash(payload.as_bytes()).to_hex().to_string()
}

} // verus!
