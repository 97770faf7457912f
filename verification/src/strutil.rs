//! Small verified helpers on strings: equality, searching, literal
//! matching, and decimal rendering and parsing used for surrogate ids and
//! numeric token fields.

use vstd::prelude::*;

verus! {

/// Character-wise equality of two string slices.
pub fn str_eq(a: &str, b: &str) -> (r: bool)
    ensures
        r == (a@ == b@),
{
    let alen = a.unicode_len();
    let blen = b.unicode_len();
    if alen != blen {
        proof {
            assert(a@.len() != b@.len());
        }
        return false;
    }
    let mut i: usize = 0;
    while i < alen
        invariant
            alen == a@.len(),
            blen == b@.len(),
            alen == blen,
            i <= alen,
            forall|j: int| 0 <= j < i ==> a@[j] == b@[j],
        decreases alen - i,
    {
        if a.get_char(i) != b.get_char(i) {
            return false;
        }
        i += 1;
    }
    proof {
        assert(a@ =~= b@);
    }
    true
}

/// Equality of a `String` against a literal slice.
pub fn string_eq_str(a: &String, b: &str) -> (r: bool)
    ensures
        r == (a@ == b@),
{
    str_eq(a.as_str(), b)
}

/// Index of the first occurrence of `c` in `s` at or after `from`.
pub open spec fn spec_find(s: Seq<char>, c: char, from: int) -> Option<int>
    decreases s.len() - from,
{
    if from < 0 || from >= s.len() {
        Option::None
    } else if s[from] == c {
        Option::Some(from)
    } else {
        spec_find(s, c, from + 1)
    }
}

/// `spec_find` returns exactly the first occurrence: if nothing matches
/// before `k` and `k` matches, the search from `from` lands on `k`.
pub proof fn lemma_find_exact(s: Seq<char>, c: char, from: int, k: int)
    requires
        0 <= from <= k < s.len(),
        s[k] == c,
        forall|j: int| from <= j < k ==> s[j] != c,
    ensures
        spec_find(s, c, from) == Option::Some(k),
    decreases k - from,
{
    if from < k {
        lemma_find_exact(s, c, from + 1, k);
    }
}

/// What a search result means: a hit is the first occurrence, a miss
/// means no occurrence at or after `from`.
pub proof fn lemma_find_props(s: Seq<char>, c: char, from: int)
    requires
        0 <= from,
    ensures
        match spec_find(s, c, from) {
            Option::Some(k) => from <= k < s.len() && s[k] == c && (forall|j: int|
                from <= j < k ==> s[j] != c),
            Option::None => forall|j: int| from <= j < s.len() ==> s[j] != c,
        },
    decreases s.len() - from,
{
    if from < s.len() && s[from] != c {
        lemma_find_props(s, c, from + 1);
    }
}

/// First occurrence of `c` in `s` at or after `from`.
pub fn find_char(s: &str, c: char, from: usize) -> (r: Option<usize>)
    requires
        from <= s@.len(),
    ensures
        match r {
            Option::Some(k) => spec_find(s@, c, from as int) == Option::Some(k as int) && from <= k
                < s@.len() && s@[k as int] == c,
            Option::None => spec_find(s@, c, from as int) == Option::None::<int>,
        },
{
    let len = s.unicode_len();
    let mut i: usize = from;
    while i < len
        invariant
            from <= i <= len,
            len == s@.len(),
            spec_find(s@, c, from as int) == spec_find(s@, c, i as int),
        decreases len - i,
    {
        if s.get_char(i) == c {
            return Some(i);
        }
        i += 1;
    }
    None
}

/// Whether `lit` occurs in `s` starting at position `at`.
pub open spec fn spec_has_at(s: Seq<char>, lit: Seq<char>, at: int) -> bool {
    0 <= at && at + lit.len() <= s.len() && s.subrange(at, at + lit.len()) == lit
}

/// Check that the literal `lit` occurs in `s` at position `at`.
pub fn has_lit_at(s: &str, lit: &str, at: usize) -> (r: bool)
    ensures
        r == spec_has_at(s@, lit@, at as int),
{
    let slen = s.unicode_len();
    let llen = lit.unicode_len();
    if at > slen || llen > slen - at {
        proof {
            assert(!spec_has_at(s@, lit@, at as int));
        }
        return false;
    }
    let mut i: usize = 0;
    while i < llen
        invariant
            i <= llen,
            llen == lit@.len(),
            slen == s@.len(),
            at + llen <= slen,
            forall|j: int| 0 <= j < i ==> s@[at + j] == lit@[j],
        decreases llen - i,
    {
        if s.get_char(at + i) != lit.get_char(i) {
            proof {
                assert(s@.subrange(at as int, at + lit@.len())[i as int] == s@[at + i]);
            }
            return false;
        }
        i += 1;
    }
    proof {
        assert(s@.subrange(at as int, at + lit@.len()) =~= lit@);
    }
    true
}

/// Whether `c` is a decimal digit.
pub open spec fn spec_is_digit(c: char) -> bool {
    '0' <= c <= '9'
}

/// Numeric value of a decimal digit.
pub open spec fn spec_digit_val(c: char) -> int {
    c as int - '0' as int
}

/// The digit character for a value; meaningful for values in `0 ..= 9`.
pub open spec fn spec_digit_char(v: int) -> char {
    ((48 + v) as u8) as char
}

/// The number denoted by a sequence of decimal digits, most significant
/// first; meaningful only when every character is a digit.
pub open spec fn spec_digits_val(s: Seq<char>) -> int
    decreases s.len(),
{
    if s.len() == 0 {
        0
    } else {
        spec_digits_val(s.drop_last()) * 10 + spec_digit_val(s.last())
    }
}

/// Whether every character of `s` is a decimal digit.
pub open spec fn spec_all_digits(s: Seq<char>) -> bool {
    forall|i: int| 0 <= i < s.len() ==> spec_is_digit(#[trigger] s[i])
}

/// Decimal rendering of a positive number, empty for zero and below.
pub open spec fn spec_pos_string(n: int) -> Seq<char>
    decreases n,
{
    if n <= 0 {
        Seq::empty()
    } else {
        spec_pos_string(n / 10).push(spec_digit_char(n % 10))
    }
}

/// The canonical decimal rendering of a natural number: no leading zeroes,
/// a single `'0'` for zero.
pub open spec fn spec_u64_string(n: int) -> Seq<char> {
    if n <= 0 {
        seq!['0']
    } else {
        spec_pos_string(n)
    }
}

/// The canonical rendering consists of digits and denotes the number back.
pub proof fn lemma_pos_string_val(n: int)
    requires
        n >= 0,
    ensures
        spec_all_digits(spec_pos_string(n)),
        n > 0 ==> spec_pos_string(n).len() >= 1,
        spec_digits_val(spec_pos_string(n)) == n,
    decreases n,
{
    if n > 0 {
        lemma_pos_string_val(n / 10);
        let s = spec_pos_string(n);
        assert(s.drop_last() =~= spec_pos_string(n / 10));
        assert(spec_digit_val(spec_digit_char(n % 10)) == n % 10);
    }
}

/// `spec_u64_string` denotes the number it renders.
pub proof fn lemma_u64_string_val(n: int)
    requires
        n >= 0,
    ensures
        spec_all_digits(spec_u64_string(n)),
        spec_u64_string(n).len() >= 1,
        spec_digits_val(spec_u64_string(n)) == n,
{
    if n == 0 {
        let s0 = seq!['0'];
        assert(s0.len() == 1);
        assert(s0.last() == '0');
        assert(s0.drop_last() =~= Seq::<char>::empty());
        assert(spec_digits_val(s0.drop_last()) == 0);
        assert(spec_digits_val(s0) == spec_digits_val(s0.drop_last()) * 10 + spec_digit_val('0'));
        assert(spec_digit_val('0') == 0);
        assert(spec_is_digit('0'));
    } else {
        lemma_pos_string_val(n);
    }
}

/// The value of a digit string is nonnegative.
pub proof fn lemma_digits_val_nonneg(s: Seq<char>)
    requires
        spec_all_digits(s),
    ensures
        spec_digits_val(s) >= 0,
    decreases s.len(),
{
    if s.len() > 0 {
        assert(spec_all_digits(s.drop_last()));
        lemma_digits_val_nonneg(s.drop_last());
    }
}

/// A prefix of a digit string never denotes more than the whole string.
pub proof fn lemma_digits_val_take_le(s: Seq<char>, k: int)
    requires
        spec_all_digits(s),
        0 <= k <= s.len(),
    ensures
        spec_digits_val(s.take(k)) <= spec_digits_val(s),
    decreases s.len() - k,
{
    if k < s.len() {
        lemma_digits_val_take_le(s, k + 1);
        let a = s.take(k);
        let b = s.take(k + 1);
        assert(spec_all_digits(a)) by {
            assert(forall|i: int| 0 <= i < a.len() ==> #[trigger] a[i] == s[i]);
        }
        assert(b.drop_last() =~= a);
        assert(b.last() == s[k]);
        lemma_digits_val_nonneg(a);
        assert(spec_digits_val(b) == spec_digits_val(a) * 10 + spec_digit_val(s[k]));
        assert(spec_digit_val(s[k]) >= 0);
        assert(spec_digits_val(a) * 10 >= spec_digits_val(a)) by (nonlinear_arith)
            requires
                spec_digits_val(a) >= 0,
        ;
    } else {
        assert(s.take(k) =~= s);
    }
}

/// Render a number in decimal.
pub fn u64_to_string(n: u64) -> (s: String)
    ensures
        s@ == spec_u64_string(n as int),
        spec_all_digits(s@),
        s@.len() >= 1,
{
    proof {
        lemma_u64_string_val(n as int);
    }
    if n == 0 {
        proof {
            reveal_strlit("0");
            assert("0"@ =~= seq!['0']);
        }
        return String::from_str("0");
    }
    let mut digits: Vec<char> = Vec::new();
    let mut m: u64 = n;
    while m > 0
        invariant
            spec_pos_string(n as int) =~= spec_pos_string(m as int) + digits@.reverse(),
        decreases m,
    {
        let d: u8 = (m % 10) as u8;
        let c: char = (48 + d) as char;
        proof {
            let olddigits = digits@;
            assert(spec_pos_string(m as int) == spec_pos_string(m as int / 10).push(
                spec_digit_char(m as int % 10),
            ));
            assert(c == spec_digit_char(m as int % 10));
            assert(seq![c] + olddigits.reverse() =~= olddigits.push(c).reverse());
            assert(spec_pos_string(m as int / 10) + (seq![c] + olddigits.reverse())
                =~= spec_pos_string(m as int / 10).push(c) + olddigits.reverse());
        }
        digits.push(c);
        m = m / 10;
    }
    proof {
        assert(spec_pos_string(n as int) =~= digits@.reverse());
    }
    let mut s = String::new();
    let mut i: usize = digits.len();
    while i > 0
        invariant
            i <= digits.len(),
            s@ =~= digits@.reverse().take(digits@.len() - i),
        decreases i,
    {
        i -= 1;
        let c = digits[i];
        push_char(&mut s, c);
        proof {
            let l = digits@.len() as int;
            assert(digits@.reverse()[l - i - 1] == digits@[i as int]);
            assert(s@ =~= digits@.reverse().take(l - i));
        }
    }
    proof {
        assert(s@ =~= digits@.reverse());
    }
    s
}

/// Append one character to a string.
/// Relies on `String::push`, which appends the character to the end.
#[verifier::external_body]
pub fn push_char(s: &mut String, c: char)
    ensures
        final(s)@ == old(s)@.push(c),
{
    s.push(c);
}

/// Parse a decimal number. Succeeds exactly on nonempty all-digit strings
/// whose value fits in a `u64`.
pub fn parse_u64(s: &str) -> (r: Option<u64>)
    ensures
        r matches Some(v) ==> s@.len() >= 1 && spec_all_digits(s@) && v as int == spec_digits_val(
            s@,
        ),
        s@.len() >= 1 && spec_all_digits(s@) && spec_digits_val(s@) <= u64::MAX as int ==> r
            is Some,
{
    let len = s.unicode_len();
    if len == 0 {
        return None;
    }
    let mut acc: u64 = 0;
    let mut i: usize = 0;
    while i < len
        invariant
            i <= len,
            len == s@.len(),
            forall|j: int| 0 <= j < i ==> spec_is_digit(#[trigger] s@[j]),
            acc as int == spec_digits_val(s@.take(i as int)),
        decreases len - i,
    {
        let c = s.get_char(i);
        if c < '0' || c > '9' {
            return None;
        }
        let d: u64 = (c as u64) - 48;
        proof {
            assert(s@.take(i + 1).drop_last() =~= s@.take(i as int));
            assert(s@.take(i + 1).last() == s@[i as int]);
            assert(spec_digits_val(s@.take(i + 1)) == acc as int * 10 + d as int);
        }
        if acc > (u64::MAX - d) / 10 {
            // The prefix read so far already exceeds the representable
            // range, so the whole string does too.
            proof {
                assert(acc as int * 10 + d as int > u64::MAX as int) by (nonlinear_arith)
                    requires
                        acc as int > (u64::MAX as int - d as int) / 10,
                        0 <= d as int <= 9,
                ;
                if spec_all_digits(s@) {
                    lemma_digits_val_take_le(s@, i + 1);
                }
            }
            return None;
        }
        acc = acc * 10 + d;
        i += 1;
    }
    proof {
        assert(s@.take(len as int) =~= s@);
    }
    Some(acc)
}

/// Parse the decimal form of a surrogate id carried in a `String`.
pub fn parse_id(s: &String) -> (r: Option<u64>)
    ensures
        r matches Some(v) ==> s@.len() >= 1 && spec_all_digits(s@) && v as int == spec_digits_val(
            s@,
        ),
        s@.len() >= 1 && spec_all_digits(s@) && spec_digits_val(s@) <= u64::MAX as int ==> r
            is Some,
{
    parse_u64(s.as_str())
}

} // verus!
