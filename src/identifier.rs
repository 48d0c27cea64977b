//! Composite token identity, its content hashes and truncated names.
use crate::address::{canonical_address, standardize_address};
use crate::decimal::Decimal;
use vstd::prelude::*;
use vstd::string::*;

verus! {

/// Largest number of UTF-8 bytes kept of a collection or token name.
pub const MAX_NAME_LENGTH: usize = 128;

/// The SHA3-256 digest of the UTF-8 encoding of `text`.
pub uninterp spec fn sha3_256_of(text: Seq<char>) -> Seq<u8>;

/// Relies on `sha3::Sha3_256` through `digest::Digest::digest`: the 32-byte
/// SHA3-256 digest of the UTF-8 bytes of `text`.
#[verifier::external_body]
fn sha3_256(text: &str) -> (r: Vec<u8>)
    ensures
        r@ == sha3_256_of(text@),
        r@.len() == 32,
{
    <sha3::Sha3_256 as sha3::Digest>::digest(text.as_bytes()).to_vec()
}

/// Lower-case hexadecimal digit of a value below 16.
pub open spec fn hex_digit(n: u8) -> char {
    if n < 10 {
        ('0' as u8 + n) as char
    } else {
        ('a' as u8 + (n - 10)) as char
    }
}

/// Two lower-case hex digits per byte, high nibble first.
pub open spec fn hex_of(b: Seq<u8>) -> Seq<char> {
    Seq::new(
        2 * b.len(),
        |i: int|
            if i % 2 == 0 {
                hex_digit(b[i / 2] / 16)
            } else {
                hex_digit(b[i / 2] % 16)
            },
    )
}

/// Number of bytes in the UTF-8 encoding of `c`.
pub open spec fn utf8_width(c: char) -> nat {
    if (c as u32) < 0x80 {
        1
    } else if (c as u32) < 0x800 {
        2
    } else if (c as u32) < 0x10000 {
        3
    } else {
        4
    }
}

/// Number of leading characters of `s` whose UTF-8 encoding fits in `budget` bytes.
pub open spec fn fitting_chars(s: Seq<char>, budget: nat) -> nat
    decreases s.len(),
{
    if s.len() == 0 || utf8_width(s[0]) > budget {
        0
    } else {
        1 + fitting_chars(s.drop_first(), (budget - utf8_width(s[0])) as nat)
    }
}

/// The longest prefix of `s` that is at most `max` bytes long in UTF-8.
pub open spec fn truncate_utf8(s: Seq<char>, max: nat) -> Seq<char> {
    s.subrange(0, fitting_chars(s, max) as int)
}

/// What a composite identifier holds.
pub struct CompositeIdentifierModel {
    pub creator_address: Seq<char>,
    pub collection_name: Seq<char>,
    pub token_name: Seq<char>,
    pub property_version: Seq<char>,
}

/// Number of decimal digits of the length written before each field of a key.
pub const LENGTH_DIGITS: usize = 20;

/// Ten to the power `w`.
pub open spec fn pow10(w: nat) -> nat
    decreases w,
{
    if w == 0 {
        1
    } else {
        10 * pow10((w - 1) as nat)
    }
}

/// The low `w` decimal digits of `n`, most significant first.
pub open spec fn fixed_digits(n: nat, w: nat) -> Seq<char>
    decreases w,
{
    if w == 0 {
        Seq::empty()
    } else {
        fixed_digits(n / 10, (w - 1) as nat).push(hex_digit((n % 10) as u8))
    }
}

/// A field as it enters a key: its length in characters, written in
/// `LENGTH_DIGITS` decimal digits, then the field itself. The prefix makes
/// a sequence of fields readable in one way only.
pub open spec fn key_field(f: Seq<char>) -> Seq<char> {
    fixed_digits(f.len(), LENGTH_DIGITS as nat) + f
}

/// The text hashed for a collection: canonical creator and collection name,
/// each length-prefixed.
pub open spec fn collection_key(creator: Seq<char>, collection: Seq<char>) -> Seq<char> {
    key_field(canonical_address(creator)) + key_field(collection)
}

/// The text hashed for a token: canonical creator, collection name, token
/// name and property version, each length-prefixed.
pub open spec fn token_key(id: CompositeIdentifierModel) -> Seq<char> {
    key_field(canonical_address(id.creator_address)) + (key_field(id.collection_name) + (
    key_field(id.token_name) + key_field(id.property_version)))
}

proof fn lemma_fixed_digits_len(n: nat, w: nat)
    ensures
        fixed_digits(n, w).len() == w,
    decreases w,
{
    if w > 0 {
        lemma_fixed_digits_len(n / 10, (w - 1) as nat);
    }
}

proof fn lemma_fixed_digits_injective(n: nat, m: nat, w: nat)
    requires
        n < pow10(w),
        m < pow10(w),
        fixed_digits(n, w) == fixed_digits(m, w),
    ensures
        n == m,
    decreases w,
{
    if w > 0 {
        let p = pow10((w - 1) as nat);
        lemma_fixed_digits_len(n / 10, (w - 1) as nat);
        lemma_fixed_digits_len(m / 10, (w - 1) as nat);
        let sn = fixed_digits(n, w);
        let sm = fixed_digits(m, w);
        assert(sn.subrange(0, w - 1) =~= fixed_digits(n / 10, (w - 1) as nat));
        assert(sm.subrange(0, w - 1) =~= fixed_digits(m / 10, (w - 1) as nat));
        assert(sn[w - 1] == hex_digit((n % 10) as u8));
        assert(sm[w - 1] == hex_digit((m % 10) as u8));
        assert(n / 10 < p) by (nonlinear_arith)
            requires
                n < 10 * p,
        ;
        assert(m / 10 < p) by (nonlinear_arith)
            requires
                m < 10 * p,
        ;
        lemma_fixed_digits_injective(n / 10, m / 10, (w - 1) as nat);
        assert(n % 10 == m % 10);
    }
}

proof fn lemma_key_field_split(a: Seq<char>, b: Seq<char>, x: Seq<char>, y: Seq<char>)
    requires
        a.len() < pow10(LENGTH_DIGITS as nat),
        b.len() < pow10(LENGTH_DIGITS as nat),
        key_field(a) + x == key_field(b) + y,
    ensures
        a == b,
        x == y,
{
    let w = LENGTH_DIGITS as int;
    let s = key_field(a) + x;
    lemma_fixed_digits_len(a.len(), LENGTH_DIGITS as nat);
    lemma_fixed_digits_len(b.len(), LENGTH_DIGITS as nat);
    assert(s.subrange(0, w) =~= fixed_digits(a.len(), LENGTH_DIGITS as nat));
    assert((key_field(b) + y).subrange(0, w) =~= fixed_digits(b.len(), LENGTH_DIGITS as nat));
    lemma_fixed_digits_injective(a.len(), b.len(), LENGTH_DIGITS as nat);
    assert(s.subrange(w, w + a.len()) =~= a);
    assert((key_field(b) + y).subrange(w, w + b.len()) =~= b);
    assert(s.subrange(w + a.len(), s.len() as int) =~= x);
    assert((key_field(b) + y).subrange(w + b.len(), s.len() as int) =~= y);
}

/// Distinct fields give distinct keys: two collection keys are equal only
/// when the canonical creators and the collection names are, and two token
/// keys only when the canonical creators, collection names, token names and
/// property versions are. (Fields are shorter than `10^LENGTH_DIGITS`
/// characters, as every string is.)
pub proof fn lemma_keys_injective(a: CompositeIdentifierModel, b: CompositeIdentifierModel)
    requires
        canonical_address(a.creator_address).len() < pow10(LENGTH_DIGITS as nat),
        canonical_address(b.creator_address).len() < pow10(LENGTH_DIGITS as nat),
        a.collection_name.len() < pow10(LENGTH_DIGITS as nat),
        b.collection_name.len() < pow10(LENGTH_DIGITS as nat),
        a.token_name.len() < pow10(LENGTH_DIGITS as nat),
        b.token_name.len() < pow10(LENGTH_DIGITS as nat),
        a.property_version.len() < pow10(LENGTH_DIGITS as nat),
        b.property_version.len() < pow10(LENGTH_DIGITS as nat),
    ensures
        collection_key(a.creator_address, a.collection_name) == collection_key(
            b.creator_address,
            b.collection_name,
        ) ==> canonical_address(a.creator_address) == canonical_address(b.creator_address)
            && a.collection_name == b.collection_name,
        token_key(a) == token_key(b) ==> canonical_address(a.creator_address) == canonical_address(
            b.creator_address,
        ) && a.collection_name == b.collection_name && a.token_name == b.token_name
            && a.property_version == b.property_version,
{
    let ca = canonical_address(a.creator_address);
    let cb = canonical_address(b.creator_address);
    let e = Seq::<char>::empty();
    if collection_key(a.creator_address, a.collection_name) == collection_key(
        b.creator_address,
        b.collection_name,
    ) {
        lemma_key_field_split(ca, cb, key_field(a.collection_name), key_field(b.collection_name));
        assert(key_field(a.collection_name) + e =~= key_field(a.collection_name));
        assert(key_field(b.collection_name) + e =~= key_field(b.collection_name));
        lemma_key_field_split(a.collection_name, b.collection_name, e, e);
    }
    if token_key(a) == token_key(b) {
        lemma_key_field_split(
            ca,
            cb,
            key_field(a.collection_name) + (key_field(a.token_name) + key_field(a.property_version)),
            key_field(b.collection_name) + (key_field(b.token_name) + key_field(b.property_version)),
        );
        lemma_key_field_split(
            a.collection_name,
            b.collection_name,
            key_field(a.token_name) + key_field(a.property_version),
            key_field(b.token_name) + key_field(b.property_version),
        );
        lemma_key_field_split(
            a.token_name,
            b.token_name,
            key_field(a.property_version),
            key_field(b.property_version),
        );
        assert(key_field(a.property_version) + e =~= key_field(a.property_version));
        assert(key_field(b.property_version) + e =~= key_field(b.property_version));
        lemma_key_field_split(a.property_version, b.property_version, e, e);
    }
}

/// Hex text of the SHA3-256 digest of a key.
pub open spec fn hash_text(key: Seq<char>) -> Seq<char> {
    hex_of(sha3_256_of(key))
}

/// A token's identity: creator address, collection name, token name and
/// property version.
#[derive(Clone, Debug, PartialEq, Eq)]
pub struct CompositeIdentifier {
    pub creator_address: String,
    pub collection_name: String,
    pub token_name: String,
    pub property_version: Decimal,
}

impl View for CompositeIdentifier {
    type V = CompositeIdentifierModel;

    open spec fn view(&self) -> CompositeIdentifierModel {
        CompositeIdentifierModel {
            creator_address: self.creator_address@,
            collection_name: self.collection_name@,
            token_name: self.token_name@,
            property_version: self.property_version@,
        }
    }
}

/// Two identifiers that agree on the canonical creator address, the
/// collection name, the token name and the property version have the same
/// token hash; two that agree on the canonical creator address and the
/// collection name have the same collection hash.
pub proof fn lemma_hashes_depend_on_canonical_fields(
    a: CompositeIdentifierModel,
    b: CompositeIdentifierModel,
)
    requires
        canonical_address(a.creator_address) == canonical_address(b.creator_address),
        a.collection_name == b.collection_name,
    ensures
        hash_text(collection_key(a.creator_address, a.collection_name)) == hash_text(
            collection_key(b.creator_address, b.collection_name),
        ),
        a.token_name == b.token_name && a.property_version == b.property_version ==> hash_text(
            token_key(a),
        ) == hash_text(token_key(b)),
{
}

/// Hex encoding of bytes, two lower-case digits per byte.
pub fn hex_encode(b: &Vec<u8>) -> (r: String)
    requires
        b@.len() <= usize::MAX / 2,
    ensures
        r@ == hex_of(b@),
{
    let mut out = String::new();
    let mut i: usize = 0;
    while i < b.len()
        invariant
            i <= b@.len(),
            b@.len() <= usize::MAX / 2,
            out@ =~= hex_of(b@.subrange(0, i as int)),
        decreases b@.len() - i,
    {
        let x = b[i];
        out.append(hex_char(x / 16));
        out.append(hex_char(x % 16));
        assert(out@ =~= hex_of(b@.subrange(0, i + 1)));
        i = i + 1;
    }
    assert(b@.subrange(0, b@.len() as int) =~= b@);
    out
}

/// The one-character text of a hex digit.
fn hex_char(n: u8) -> (r: &'static str)
    requires
        n < 16,
    ensures
        r@ == seq![hex_digit(n)],
{
    proof {
        reveal_strlit("0");
        reveal_strlit("1");
        reveal_strlit("2");
        reveal_strlit("3");
        reveal_strlit("4");
        reveal_strlit("5");
        reveal_strlit("6");
        reveal_strlit("7");
        reveal_strlit("8");
        reveal_strlit("9");
        reveal_strlit("a");
        reveal_strlit("b");
        reveal_strlit("c");
        reveal_strlit("d");
        reveal_strlit("e");
        reveal_strlit("f");
    }
    match n {
        0 => "0",
        1 => "1",
        2 => "2",
        3 => "3",
        4 => "4",
        5 => "5",
        6 => "6",
        7 => "7",
        8 => "8",
        9 => "9",
        10 => "a",
        11 => "b",
        12 => "c",
        13 => "d",
        14 => "e",
        _ => "f",
    }
}

/// Appends the low `w` decimal digits of `n`.
fn append_fixed_digits(out: &mut String, n: u64, w: usize)
    ensures
        final(out)@ == old(out)@ + fixed_digits(n as nat, w as nat),
    decreases w,
{
    if w > 0 {
        append_fixed_digits(out, n / 10, w - 1);
        out.append(hex_char((n % 10) as u8));
        assert(final(out)@ =~= old(out)@ + fixed_digits(n as nat, w as nat));
    }
}

/// Appends a length-prefixed field.
fn append_key_field(out: &mut String, f: &str)
    ensures
        final(out)@ == old(out)@ + key_field(f@),
{
    let n = f.unicode_len();
    append_fixed_digits(out, n as u64, LENGTH_DIGITS);
    out.append(f);
    assert(final(out)@ =~= old(out)@ + key_field(f@));
}

/// Hex text of the SHA3-256 digest of `key`.
pub fn hash_str(key: &str) -> (r: String)
    ensures
        r@ == hash_text(key@),
{
    let digest = sha3_256(key);
    hex_encode(&digest)
}

/// Number of bytes in the UTF-8 encoding of `c`.
fn char_width(c: char) -> (r: usize)
    ensures
        r == utf8_width(c),
{
    let v = c as u32;
    if v < 0x80 {
        1
    } else if v < 0x800 {
        2
    } else if v < 0x10000 {
        3
    } else {
        4
    }
}

proof fn lemma_fitting_chars_bound(s: Seq<char>, budget: nat)
    ensures
        fitting_chars(s, budget) <= s.len(),
        fitting_chars(s, budget) <= budget,
    decreases s.len(),
{
    if s.len() > 0 && utf8_width(s[0]) <= budget {
        lemma_fitting_chars_bound(s.drop_first(), (budget - utf8_width(s[0])) as nat);
    }
}

/// The longest prefix of `s` whose UTF-8 encoding is at most `max` bytes;
/// it never splits a character.
pub fn truncate_str(s: &str, max: usize) -> (r: String)
    ensures
        r@ == truncate_utf8(s@, max as nat),
{
    let n = s.unicode_len();
    let mut k: usize = 0;
    let mut budget: usize = max;
    proof {
        assert(s@.subrange(0, n as int) =~= s@);
    }
    let mut full = false;
    while k < n && !full
        invariant
            n == s@.len(),
            k <= n,
            full ==> k < n && utf8_width(s@[k as int]) > budget,
            fitting_chars(s@, max as nat) == k + fitting_chars(
                s@.subrange(k as int, n as int),
                budget as nat,
            ),
        decreases n - k + if full { 0int } else { 1int },
    {
        let w = char_width(s.get_char(k));
        if w > budget {
            full = true;
        } else {
            assert(s@.subrange(k as int, n as int).drop_first() =~= s@.subrange(k + 1, n as int));
            budget = budget - w;
            k = k + 1;
        }
    }
    proof {
        if k < n {
            assert(s@.subrange(k as int, n as int)[0] == s@[k as int]);
        }
        lemma_fitting_chars_bound(s@, max as nat);
    }
    String::from_str(s.substring_char(0, k))
}

impl CompositeIdentifier {
    /// The creator address in canonical form.
    pub fn get_creator_address(&self) -> (r: String)
        ensures
            r@ == canonical_address(self.creator_address@),
    {
        standardize_address(self.creator_address.as_str())
    }

    /// Hash of the canonical creator address and the collection name.
    pub fn collection_hash(&self) -> (r: String)
        ensures
            r@ == hash_text(collection_key(self.creator_address@, self.collection_name@)),
    {
        let mut key = String::new();
        append_key_field(&mut key, self.get_creator_address().as_str());
        append_key_field(&mut key, self.collection_name.as_str());
        assert(key@ =~= collection_key(self.creator_address@, self.collection_name@));
        hash_str(key.as_str())
    }

    /// Hash of the canonical creator address, collection name, token name and
    /// property version.
    pub fn token_hash(&self) -> (r: String)
        ensures
            r@ == hash_text(token_key(self@)),
    {
        let mut key = String::new();
        append_key_field(&mut key, self.get_creator_address().as_str());
        append_key_field(&mut key, self.collection_name.as_str());
        append_key_field(&mut key, self.token_name.as_str());
        append_key_field(&mut key, self.property_version.to_text().as_str());
        assert(key@ =~= token_key(self@));
        hash_str(key.as_str())
    }

    /// The collection name cut to at most `MAX_NAME_LENGTH` bytes.
    pub fn truncated_collection_name(&self) -> (r: String)
        ensures
            r@ == truncate_utf8(self.collection_name@, MAX_NAME_LENGTH as nat),
    {
        truncate_str(self.collection_name.as_str(), MAX_NAME_LENGTH)
    }

    /// The token name cut to at most `MAX_NAME_LENGTH` bytes.
    pub fn truncated_token_name(&self) -> (r: String)
        ensures
            r@ == truncate_utf8(self.token_name@, MAX_NAME_LENGTH as nat),
    {
        truncate_str(self.token_name.as_str(), MAX_NAME_LENGTH)
    }
}

} // verus!
