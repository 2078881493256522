//! Small verified string utilities: decimal formatting and parsing,
//! string equality, and substring search.
use vstd::prelude::*;

verus! {

use vstd::string::StrSliceExecFns;
use vstd::string::StringExecFns;

/// The character for one decimal digit value.
pub open spec fn digit_char(d: int) -> char {
    ((0x30 + d) as u8) as char
}

/// The decimal digit sequence of a non-negative integer, most significant first.
pub open spec fn dec_chars(n: int) -> Seq<char>
    decreases n,
{
    if n < 10 {
        seq![digit_char(n)]
    } else {
        dec_chars(n / 10).push(digit_char(n % 10))
    }
}

fn digit_str(d: u64) -> (r: String)
    requires
        d < 10,
    ensures
        r@ == seq![digit_char(d as int)],
{
    let s: &str = if d == 0 {
        "0"
    } else if d == 1 {
        "1"
    } else if d == 2 {
        "2"
    } else if d == 3 {
        "3"
    } else if d == 4 {
        "4"
    } else if d == 5 {
        "5"
    } else if d == 6 {
        "6"
    } else if d == 7 {
        "7"
    } else if d == 8 {
        "8"
    } else {
        "9"
    };
    proof {
        reveal_strlit("0");
        reveal_strlit("1");
        reveal_strlit("2");
        reveal_strlit("3");
        reveal_strlit("4");
        reveal_strlit("5");
        reveal_strlit("6");
        reveal_strlit("7");
        reveal_strlit("8");
        reveal_strlit("9");
        assert(s@ =~= seq![digit_char(d as int)]);
    }
    s.to_owned()
}

/// Format an integer in decimal.
pub fn u64_to_dec(n: u64) -> (r: String)
    ensures
        r@ == dec_chars(n as int),
    decreases n,
{
    if n < 10 {
        digit_str(n)
    } else {
        let mut s = u64_to_dec(n / 10);
        let d = digit_str(n % 10);
        s.append(d.as_str());
        proof {
            assert(s@ =~= dec_chars(n as int));
        }
        s
    }
}

/// Whether a character is a decimal digit.
pub open spec fn is_digit_char(c: char) -> bool {
    '0' <= c && c <= '9'
}

/// Whether a character sequence is one or more decimal digits.
pub open spec fn all_digits(s: Seq<char>) -> bool {
    s.len() > 0 && forall|i: int| 0 <= i < s.len() ==> is_digit_char(#[trigger] s[i])
}

/// The integer value of a decimal digit sequence, most significant first.
pub open spec fn dec_value(s: Seq<char>) -> int
    decreases s.len(),
{
    if s.len() == 0 {
        0
    } else {
        dec_value(s.drop_last()) * 10 + (s.last() as int - '0' as int)
    }
}

proof fn lemma_dec_value_take_step(s: Seq<char>, i: int)
    requires
        0 <= i < s.len(),
    ensures
        dec_value(s.take(i + 1)) == dec_value(s.take(i)) * 10 + (s[i] as int - '0' as int),
{
    assert(s.take(i + 1).drop_last() =~= s.take(i));
    assert(s.take(i + 1).last() == s[i]);
}

proof fn lemma_dec_value_monotone(s: Seq<char>, i: int)
    requires
        0 <= i <= s.len(),
        all_digits(s),
    ensures
        dec_value(s.take(i)) <= dec_value(s),
    decreases s.len() - i,
{
    if i == s.len() {
        assert(s.take(i) =~= s);
    } else {
        lemma_dec_value_take_step(s, i);
        assert(dec_value(s.take(i)) * 10 >= dec_value(s.take(i))) by {
            assert(forall|k: int|
                0 <= k < s.take(i).len() ==> is_digit_char(#[trigger] s.take(i)[k]));
            lemma_dec_value_nonneg(s.take(i));
        }
        assert(s[i] as int - '0' as int >= 0);
        lemma_dec_value_monotone(s, i + 1);
    }
}

proof fn lemma_dec_value_nonneg(s: Seq<char>)
    requires
        forall|i: int| 0 <= i < s.len() ==> is_digit_char(#[trigger] s[i]),
    ensures
        dec_value(s) * 10 >= dec_value(s) >= 0,
    decreases s.len(),
{
    if s.len() > 0 {
        assert(forall|i: int|
            0 <= i < s.drop_last().len() ==> is_digit_char(#[trigger] s.drop_last()[i]));
        lemma_dec_value_nonneg(s.drop_last());
        assert(is_digit_char(s.last()));
    }
}

/// The characters of a string, in a vector for random access.
pub fn str_to_chars(s: &str) -> (v: Vec<char>)
    ensures
        v@ == s@,
{
    let n = s.unicode_len();
    let mut v: Vec<char> = Vec::new();
    let mut i: usize = 0;
    while i < n
        invariant
            n == s@.len(),
            i <= n,
            v@ =~= s@.take(i as int),
        decreases n - i,
    {
        let c = s.get_char(i);
        v.push(c);
        i = i + 1;
        proof {
            assert(v@ =~= s@.take(i as int));
        }
    }
    proof {
        assert(v@ =~= s@);
    }
    v
}

/// Parse a decimal digit string into an integer.
///
/// Returns the value exactly when the whole input is one or more decimal
/// digits and the value fits in a `usize`; anything else is rejected.
pub fn parse_usize(s: &str) -> (r: Option<usize>)
    ensures
        match r {
            Some(v) => all_digits(s@) && v as int == dec_value(s@) && dec_value(s@)
                <= usize::MAX as int,
            None => !all_digits(s@) || dec_value(s@) > usize::MAX as int,
        },
{
    let chars = str_to_chars(s);
    let n = chars.len();
    if n == 0 {
        return None;
    }
    let mut value: usize = 0;
    let mut i: usize = 0;
    while i < n
        invariant
            n == s@.len(),
            chars@ == s@,
            i <= n,
            forall|k: int| 0 <= k < i ==> is_digit_char(#[trigger] s@[k]),
            value as int == dec_value(s@.take(i as int)),
        decreases n - i,
    {
        let c = chars[i];
        if !(c >= '0' && c <= '9') {
            assert(!all_digits(s@));
            return None;
        }
        let d: usize = (c as u8 - 0x30) as usize;
        assert(d == s@[i as int] as int - '0' as int);
        if value > (usize::MAX - d) / 10 {
            proof {
                lemma_dec_value_take_step(s@, i as int);
                assert(dec_value(s@.take(i as int + 1)) > usize::MAX as int) by {
                    let v = dec_value(s@.take(i as int));
                    assert(v >= (usize::MAX as int - d + 10) / 10);
                    assert(v * 10 + d > usize::MAX as int) by (nonlinear_arith)
                        requires
                            v >= (usize::MAX as int - d + 10) / 10,
                            0 <= d < 10,
                    ;
                }
                if all_digits(s@) {
                    lemma_dec_value_monotone(s@, i as int + 1);
                }
            }
            return None;
        }
        proof {
            lemma_dec_value_take_step(s@, i as int);
            assert(value * 10 + d <= usize::MAX as int) by (nonlinear_arith)
                requires
                    value <= (usize::MAX as int - d) / 10,
                    0 <= d < 10,
            ;
        }
        value = value * 10 + d;
        i = i + 1;
    }
    proof {
        assert(s@.take(n as int) =~= s@);
    }
    Some(value)
}

/// Whether two strings hold the same characters.
pub fn str_eq(a: &str, b: &str) -> (r: bool)
    ensures
        r == (a@ == b@),
{
    let x: String = a.to_owned();
    let y: String = b.to_owned();
    x == y
}

/// Whether `needle` occurs in `hay` starting at position `i`.
pub open spec fn contains_at(hay: Seq<char>, needle: Seq<char>, i: int) -> bool {
    0 <= i && i + needle.len() <= hay.len() && hay.subrange(i, i + needle.len()) == needle
}

/// Whether `needle` occurs anywhere in `hay`.
pub open spec fn contains_seq(hay: Seq<char>, needle: Seq<char>) -> bool {
    exists|i: int| contains_at(hay, needle, i)
}

/// Substring search.
pub fn contains_sub(hay: &str, needle: &str) -> (r: bool)
    ensures
        r == contains_seq(hay@, needle@),
{
    let h = str_to_chars(hay);
    let m = str_to_chars(needle);
    if m.len() > h.len() {
        proof {
            assert(forall|i: int| !contains_at(hay@, needle@, i));
        }
        return false;
    }
    let last_start = h.len() - m.len();
    let mut i: usize = 0;
    loop
        invariant
            h@ == hay@,
            m@ == needle@,
            m@.len() <= h@.len(),
            last_start == h@.len() - m@.len(),
            i <= last_start,
            forall|k: int| 0 <= k < i ==> !contains_at(hay@, needle@, k),
        decreases last_start - i,
    {
        let mut j: usize = 0;
        let mut matched = true;
        while j < m.len()
            invariant
                h@ == hay@,
                m@ == needle@,
                i + m@.len() <= h@.len(),
                h@.len() == h.len(),
                j <= m@.len(),
                matched ==> forall|t: int| 0 <= t < j ==> hay@[i + t] == needle@[t],
                !matched ==> !contains_at(hay@, needle@, i as int),
            decreases m@.len() - j,
        {
            if h[i + j] != m[j] {
                proof {
                    assert(hay@.subrange(i as int, i + needle@.len())[j as int]
                        != needle@[j as int]);
                }
                matched = false;
                j = m.len();
            } else {
                j = j + 1;
            }
        }
        if matched {
            proof {
                assert(hay@.subrange(i as int, i + needle@.len()) =~= needle@);
                assert(contains_at(hay@, needle@, i as int));
            }
            return true;
        }
        if i == last_start {
            proof {
                assert(forall|k: int| contains_at(hay@, needle@, k) ==> 0 <= k <= last_start);
            }
            return false;
        }
        i = i + 1;
    }
}

} // verus!
