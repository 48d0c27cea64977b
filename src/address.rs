//! Canonical textual form of account addresses.
use vstd::prelude::*;
use vstd::string::*;

verus! {

/// Number of hex digits in a canonical address body.
pub const ADDRESS_DIGITS: usize = 64;

/// The address body: the text after a leading `0x`, or the whole text.
pub open spec fn address_body(s: Seq<char>) -> Seq<char> {
    if s.len() >= 2 && s[0] == '0' && s[1] == 'x' {
        s.subrange(2, s.len() as int)
    } else {
        s
    }
}

/// ASCII `A`..`Z` mapped to `a`..`z`; every other character kept.
pub open spec fn ascii_lower(c: char) -> char {
    if 'A' <= c <= 'Z' {
        ((c as u8) + 32) as char
    } else {
        c
    }
}

/// Every character of `s` under `ascii_lower`.
pub open spec fn ascii_lower_seq(s: Seq<char>) -> Seq<char> {
    s.map_values(|c: char| ascii_lower(c))
}

/// Relies on `str::to_ascii_lowercase`: ASCII upper-case letters become
/// lower-case, every other character is kept.
#[verifier::external_body]
fn to_ascii_lowercase(s: &str) -> (r: String)
    ensures
        r@ == ascii_lower_seq(s@),
{
    s.to_ascii_lowercase()
}

/// `n` copies of the character `'0'`.
pub open spec fn zeros(n: nat) -> Seq<char> {
    Seq::new(n, |i: int| '0')
}

/// Number of zeros needed to left-pad a body of `len` characters to full width.
pub open spec fn pad_len(len: nat) -> nat {
    if len < ADDRESS_DIGITS as nat {
        (ADDRESS_DIGITS as nat - len) as nat
    } else {
        0
    }
}

/// `0x` followed by the address body in lower case, left-padded with zeros
/// to 64 digits. Bodies longer than 64 digits are kept whole.
pub open spec fn canonical_address(s: Seq<char>) -> Seq<char> {
    let body = address_body(s);
    seq!['0', 'x'] + zeros(pad_len(body.len())) + ascii_lower_seq(body)
}

/// Canonicalizing an already canonical address leaves it unchanged.
pub proof fn lemma_canonicalize_idempotent(x: Seq<char>)
    ensures
        canonical_address(canonical_address(x)) == canonical_address(x),
{
    let c = canonical_address(x);
    let rest = zeros(pad_len(address_body(x).len())) + ascii_lower_seq(address_body(x));
    assert(c =~= seq!['0', 'x'] + rest);
    assert(address_body(c) =~= rest);
    assert(pad_len(rest.len()) == 0);
    assert(ascii_lower_seq(rest) =~= rest);
    assert(zeros(0) =~= Seq::<char>::empty());
    assert(canonical_address(c) =~= c);
}

/// Canonical form of an account address: `0x` and at least 64 digits in
/// lower case, left-padded with zeros.
pub fn standardize_address(raw: &str) -> (r: String)
    ensures
        r@ == canonical_address(raw@),
{
    let n = raw.unicode_len();
    let body: &str = if n >= 2 && raw.get_char(0) == '0' && raw.get_char(1) == 'x' {
        raw.substring_char(2, n)
    } else {
        raw
    };
    assert(body@ == address_body(raw@));
    let m = if n >= 2 && raw.get_char(0) == '0' && raw.get_char(1) == 'x' {
        n - 2
    } else {
        n
    };
    assert(m == body@.len());
    let mut out = String::from_str("0x");
    proof {
        reveal_strlit("0x");
    }
    let mut k: usize = m;
    while k < ADDRESS_DIGITS
        invariant
            m <= k,
            m == body@.len(),
            k <= ADDRESS_DIGITS || k == m,
            out@ == seq!['0', 'x'] + zeros((k - m) as nat),
        decreases ADDRESS_DIGITS - k,
    {
        out.append("0");
        proof {
            reveal_strlit("0");
        }
        assert(out@ =~= seq!['0', 'x'] + zeros((k + 1 - m) as nat));
        k = k + 1;
    }
    assert((k - m) as nat == pad_len(m as nat));
    let lower = to_ascii_lowercase(body);
    out.append(lower.as_str());
    out
}

} // verus!
