//! Character-level helpers: locating separators, reading unsigned decimal
//! numbers, and rendering them back, together with the spec functions that
//! describe each of these operations over a `Seq<char>`.

use vstd::prelude::*;
use vstd::string::StrSliceExecFns;
use vstd::string::StringExecFns;

verus! {

/// Whether `c` is an ASCII decimal digit.
pub open spec fn is_digit_char(c: char) -> bool {
    48 <= c as u32 && c as u32 <= 57
}

/// Numeric value of a digit character.
pub open spec fn digit_val(c: char) -> int {
    c as u32 - 48
}

/// The digit character for a value in `0..=9`.
pub open spec fn digit_char(d: int) -> char {
    ((48 + d) as u32) as char
}

/// Whether every character of `s` is a decimal digit.
pub open spec fn all_digits(s: Seq<char>) -> bool {
    forall|k: int| 0 <= k < s.len() ==> is_digit_char(s[k])
}

/// The value of a digit string, read left to right.
pub open spec fn digits_val(s: Seq<char>) -> int
    decreases s.len(),
{
    if s.len() == 0 {
        0
    } else {
        digits_val(s.drop_last()) * 10 + digit_val(s.last())
    }
}

/// Whether `s` is a decimal numeral denoting a value that fits in `u32`.
pub open spec fn u32_digits(s: Seq<char>) -> bool {
    s.len() > 0 && all_digits(s) && digits_val(s) <= u32::MAX as int
}

/// Index of the first occurrence of `c` in `s`, or `s.len()` if absent.
pub open spec fn find_char(s: Seq<char>, c: char) -> int
    decreases s.len(),
{
    if s.len() == 0 {
        0
    } else if s[0] == c {
        0
    } else {
        1 + find_char(s.drop_first(), c)
    }
}

/// Index of the first occurrence of the two-character separator `".."` in
/// `s`, or `s.len()` if absent.
pub open spec fn find_dotdot(s: Seq<char>) -> int
    decreases s.len(),
{
    if s.len() < 2 {
        s.len() as int
    } else if s[0] == '.' && s[1] == '.' {
        0
    } else {
        1 + find_dotdot(s.drop_first())
    }
}

pub proof fn lemma_find_char_bounds(s: Seq<char>, c: char)
    ensures
        0 <= find_char(s, c) <= s.len(),
        find_char(s, c) < s.len() ==> s[find_char(s, c)] == c,
        forall|k: int| 0 <= k < find_char(s, c) ==> s[k] != c,
    decreases s.len(),
{
    if s.len() == 0 {
    } else if s[0] == c {
    } else {
        lemma_find_char_bounds(s.drop_first(), c);
        assert forall|k: int| 0 <= k < find_char(s, c) implies s[k] != c by {
            if k > 0 {
                assert(s.drop_first()[k - 1] == s[k]);
            }
        }
    }
}

/// An index with no occurrence of `c` before it, and `c` at it unless it is
/// the end, is exactly `find_char`.
pub proof fn lemma_find_char_is(s: Seq<char>, c: char, i: int)
    requires
        0 <= i <= s.len(),
        forall|k: int| 0 <= k < i ==> s[k] != c,
        i < s.len() ==> s[i] == c,
    ensures
        find_char(s, c) == i,
{
    lemma_find_char_bounds(s, c);
    let f = find_char(s, c);
    if f < i {
        assert(s[f] != c);
    }
    if i < f {
        assert(s[i] != c);
    }
}

pub proof fn lemma_find_dotdot_bounds(s: Seq<char>)
    ensures
        0 <= find_dotdot(s) <= s.len(),
        find_dotdot(s) < s.len() ==> find_dotdot(s) + 2 <= s.len() && s[find_dotdot(s)] == '.'
            && s[find_dotdot(s) + 1] == '.',
        forall|k: int|
            0 <= k < find_dotdot(s) && k + 2 <= s.len() ==> !(#[trigger] s[k] == '.' && s[k + 1] == '.'),
    decreases s.len(),
{
    if s.len() < 2 {
    } else if s[0] == '.' && s[1] == '.' {
    } else {
        lemma_find_dotdot_bounds(s.drop_first());
        assert forall|k: int|
            0 <= k < find_dotdot(s) && k + 2 <= s.len() implies !(#[trigger] s[k] == '.' && s[k
            + 1] == '.') by {
            if k > 0 {
                assert(s.drop_first()[k - 1] == s[k]);
                assert(s.drop_first()[k] == s[k + 1]);
            }
        }
    }
}

/// An index with no separator occurrence before it, and a separator at it
/// unless it is the end, is exactly `find_dotdot`.
pub proof fn lemma_find_dotdot_is(s: Seq<char>, i: int)
    requires
        0 <= i <= s.len(),
        forall|k: int| 0 <= k < i && k + 2 <= s.len() ==> !(#[trigger] s[k] == '.' && s[k + 1] == '.'),
        i < s.len() ==> i + 2 <= s.len() && s[i] == '.' && s[i + 1] == '.',
    ensures
        find_dotdot(s) == i,
{
    lemma_find_dotdot_bounds(s);
    let f = find_dotdot(s);
    if f < i {
        assert(!(s[f] == '.' && s[f + 1] == '.'));
    }
    if i < f {
        assert(!(s[i] == '.' && s[i + 1] == '.'));
    }
}

/// Index of the first occurrence of `c` in `s`, or the length of `s` if `c`
/// does not occur.
pub fn find_char_in(s: &str, c: char) -> (r: usize)
    ensures
        r as int == find_char(s@, c),
        r <= s@.len(),
{
    let n = s.unicode_len();
    let mut i: usize = 0;
    while i < n
        invariant
            n == s@.len(),
            i <= n,
            forall|k: int| 0 <= k < i ==> s@[k] != c,
        decreases n - i,
    {
        if s.get_char(i) == c {
            proof {
                lemma_find_char_is(s@, c, i as int);
            }
            return i;
        }
        i += 1;
    }
    proof {
        lemma_find_char_is(s@, c, i as int);
    }
    i
}

/// Index of the first occurrence of `".."` in `s`, or the length of `s` if
/// the separator does not occur.
pub fn find_dotdot_in(s: &str) -> (r: usize)
    ensures
        r as int == find_dotdot(s@),
        r <= s@.len(),
{
    let n = s.unicode_len();
    if n < 2 {
        proof {
            lemma_find_dotdot_is(s@, n as int);
        }
        return n;
    }
    let mut i: usize = 0;
    while i <= n - 2
        invariant
            n == s@.len(),
            2 <= n,
            i + 1 <= n,
            forall|k: int| 0 <= k < i && k + 2 <= s@.len() ==> !(#[trigger] s@[k] == '.' && s@[k + 1] == '.'),
        decreases n - i,
    {
        if s.get_char(i) == '.' && s.get_char(i + 1) == '.' {
            proof {
                lemma_find_dotdot_is(s@, i as int);
            }
            return i;
        }
        i += 1;
    }
    proof {
        lemma_find_dotdot_is(s@, n as int);
    }
    n
}

/// Whether the views of two string slices are the same character sequence.
pub fn str_eq(a: &str, b: &str) -> (r: bool)
    ensures
        r == (a@ == b@),
{
    let n = a.unicode_len();
    if n != b.unicode_len() {
        return false;
    }
    let mut i: usize = 0;
    while i < n
        invariant
            n == a@.len(),
            n == b@.len(),
            i <= n,
            forall|k: int| 0 <= k < i ==> a@[k] == b@[k],
        decreases n - i,
    {
        if a.get_char(i) != b.get_char(i) {
            return false;
        }
        i += 1;
    }
    proof {
        assert(a@ =~= b@);
    }
    true
}

/// A digit string's value is never negative.
pub proof fn lemma_digits_val_nonneg(s: Seq<char>)
    requires
        all_digits(s),
    ensures
        digits_val(s) >= 0,
    decreases s.len(),
{
    if s.len() > 0 {
        assert(all_digits(s.drop_last()));
        lemma_digits_val_nonneg(s.drop_last());
        assert(is_digit_char(s[s.len() - 1]));
        assert(s.last() == s[s.len() - 1]);
    }
}

/// The value of a numeral grows (weakly) with each digit appended, so the
/// value of a prefix never exceeds the value of the whole numeral.
pub proof fn lemma_digits_val_prefix_le(s: Seq<char>, i: int)
    requires
        all_digits(s),
        0 <= i <= s.len(),
    ensures
        digits_val(s.subrange(0, i)) <= digits_val(s),
    decreases s.len() - i,
{
    if i == s.len() {
        assert(s.subrange(0, i) =~= s);
    } else {
        lemma_digits_val_prefix_le(s, i + 1);
        let p1 = s.subrange(0, i + 1);
        assert(p1.drop_last() =~= s.subrange(0, i));
        assert(all_digits(s.subrange(0, i))) by {
            assert(forall|k: int|
                0 <= k < i ==> s.subrange(0, i)[k] == s[k] && is_digit_char(s[k]));
        }
        lemma_digits_val_nonneg(s.subrange(0, i));
        assert(digits_val(p1) == digits_val(s.subrange(0, i)) * 10 + digit_val(s[i]));
        assert(is_digit_char(s[i]));
        assert(digit_val(s[i]) >= 0);
    }
}

/// Reads `s` as an unsigned decimal numeral.  Returns its value when `s` is
/// a nonempty digit string whose value fits in `u32`, and `None` otherwise.
pub fn parse_u32(s: &str) -> (r: Option<u32>)
    ensures
        match r {
            Some(v) => u32_digits(s@) && v as int == digits_val(s@),
            None => !u32_digits(s@),
        },
{
    let n = s.unicode_len();
    if n == 0 {
        return None;
    }
    let mut acc: u64 = 0;
    let mut i: usize = 0;
    while i < n
        invariant
            n == s@.len(),
            i <= n,
            forall|k: int| 0 <= k < i ==> is_digit_char(s@[k]),
            acc as int == digits_val(s@.subrange(0, i as int)),
            acc <= u32::MAX as u64,
        decreases n - i,
    {
        let c = s.get_char(i);
        let code = c as u32;
        if code < 48 || code > 57 {
            assert(!all_digits(s@));
            return None;
        }
        let d = (code - 48) as u64;
        acc = acc * 10 + d;
        proof {
            let p1 = s@.subrange(0, i + 1);
            assert(p1.drop_last() =~= s@.subrange(0, i as int));
            assert(p1.last() == s@[i as int]);
        }
        i += 1;
        if acc > u32::MAX as u64 {
            proof {
                if all_digits(s@) {
                    lemma_digits_val_prefix_le(s@, i as int);
                }
            }
            return None;
        }
    }
    proof {
        assert(s@.subrange(0, n as int) =~= s@);
    }
    Some(acc as u32)
}

/// Decimal rendering of `n`, most significant digit first, no leading zeros
/// (a single `'0'` for zero).
pub open spec fn decimal_digits(n: nat) -> Seq<char>
    decreases n,
{
    if n < 10 {
        seq![digit_char(n as int)]
    } else {
        decimal_digits(n / 10) + seq![digit_char((n % 10) as int)]
    }
}

/// The one-character string for a digit value.
fn digit_str(d: u32) -> (r: &'static str)
    requires
        d < 10,
    ensures
        r@ =~= seq![digit_char(d as int)],
{
    proof {
        reveal_strlit("0");
        reveal_strlit("1");
        reveal_strlit("2");
        reveal_strlit("3");
        reveal_strlit("4");
        reveal_strlit("5");
        reveal_strlit("6");
        reveal_strlit("7");
        reveal_strlit("8");
        reveal_strlit("9");
    }
    if d == 0 {
        "0"
    } else if d == 1 {
        "1"
    } else if d == 2 {
        "2"
    } else if d == 3 {
        "3"
    } else if d == 4 {
        "4"
    } else if d == 5 {
        "5"
    } else if d == 6 {
        "6"
    } else if d == 7 {
        "7"
    } else if d == 8 {
        "8"
    } else {
        "9"
    }
}

/// Appends the decimal rendering of `n` to `s`.
pub fn append_decimal(s: &mut String, n: u32)
    ensures
        final(s)@ == old(s)@ + decimal_digits(n as nat),
    decreases n,
{
    if n >= 10 {
        append_decimal(s, n / 10);
    }
    s.append(digit_str(n % 10));
    proof {
        assert(old(s)@ + decimal_digits(n as nat) =~= s@);
    }
}

} // verus!
