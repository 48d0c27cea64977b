//! Arbitrary-precision non-negative integers held as canonical decimal text.
use vstd::prelude::*;
use vstd::string::*;

verus! {

/// Every character is an ASCII decimal digit.
pub open spec fn all_digits(s: Seq<char>) -> bool {
    forall|i: int| 0 <= i < s.len() ==> '0' <= #[trigger] s[i] <= '9'
}

/// Decimal text without redundant leading zeros (a lone `0` stays).
pub open spec fn strip_leading_zeros(s: Seq<char>) -> Seq<char>
    decreases s.len(),
{
    if s.len() > 1 && s[0] == '0' {
        strip_leading_zeros(s.drop_first())
    } else {
        s
    }
}

/// The canonical text of a decimal integer, or `None` when `s` is not one.
pub open spec fn decimal_text(s: Seq<char>) -> Option<Seq<char>> {
    if s.len() > 0 && all_digits(s) {
        Some(strip_leading_zeros(s))
    } else {
        None
    }
}

/// A non-negative integer of any size, as canonical decimal text.
#[derive(Debug, PartialEq, Eq)]
pub struct Decimal {
    text: String,
}

impl View for Decimal {
    type V = Seq<char>;

    closed spec fn view(&self) -> Seq<char> {
        self.text@
    }
}

impl Decimal {
    /// Nonempty digits with no leading zero, except for zero itself.
    pub open spec fn wf(&self) -> bool {
        &&& self@.len() > 0
        &&& all_digits(self@)
        &&& (self@.len() > 1 ==> self@[0] != '0')
    }

    /// The number zero.
    pub fn zero() -> (r: Decimal)
        ensures
            r@ == seq!['0'],
            r.wf(),
    {
        proof {
            reveal_strlit("0");
        }
        Decimal { text: String::from_str("0") }
    }

    /// Reads decimal digits; `None` unless the text is a nonempty run of digits.
    /// Token amounts and property versions are unsigned on chain and arrive
    /// as plain digit strings, so this library accepts no sign, fraction or
    /// exponent: such text is malformed.
    pub fn parse(s: &str) -> (r: Option<Decimal>)
        ensures
            match r {
                Some(d) => d.wf() && decimal_text(s@) == Some(d@),
                None => decimal_text(s@) is None,
            },
    {
        let n = s.unicode_len();
        if n == 0 {
            return None;
        }
        let mut i: usize = 0;
        while i < n
            invariant
                n == s@.len(),
                i <= n,
                forall|j: int| 0 <= j < i ==> '0' <= #[trigger] s@[j] <= '9',
            decreases n - i,
        {
            let c = s.get_char(i);
            if !('0' <= c && c <= '9') {
                return None;
            }
            i = i + 1;
        }
        let mut k: usize = 0;
        assert(s@.subrange(0, n as int) =~= s@);
        while k + 1 < n && s.get_char(k) == '0'
            invariant
                n == s@.len(),
                n > 0,
                k < n,
                all_digits(s@),
                strip_leading_zeros(s@.subrange(k as int, n as int)) == strip_leading_zeros(s@),
            decreases n - k,
        {
            assert(s@.subrange(k as int, n as int).drop_first() =~= s@.subrange(k + 1, n as int));
            k = k + 1;
        }
        let ghost tail = s@.subrange(k as int, n as int);
        assert(strip_leading_zeros(tail) == tail);
        let d = Decimal { text: String::from_str(s.substring_char(k, n)) };
        assert(d@ =~= tail);
        Some(d)
    }

    /// The canonical decimal text.
    pub fn to_text(&self) -> (r: String)
        ensures
            r@ == self@,
    {
        self.text.clone()
    }
}

impl Clone for Decimal {
    fn clone(&self) -> (r: Decimal)
        ensures
            r@ == self@,
    {
        Decimal { text: self.text.clone() }
    }
}

} // verus!
