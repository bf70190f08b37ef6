//! Texts as runs of characters: reading a string's characters and finding
//! a run of characters at a position.

use vstd::prelude::*;
use vstd::string::StringExecFns;

verus! {

/// The characters of `s`, in order.
pub(crate) fn chars_of(s: &str) -> (chars: Vec<char>)
    ensures
        chars@ == s@,
{
    let mut chars: Vec<char> = Vec::new();
    for c in it: s.chars()
        invariant
            chars@ == it.seq().take(it.index() as int),
            it.seq() == s@,
    {
        chars.push(c);
        assert(it.seq().take(it.index() + 1) =~= it.seq().take(it.index() as int).push(c));
    }
    assert(s@.take(s@.len() as int) =~= s@);
    chars
}

/// Whether `pattern` occurs at position `start` of `text`.
pub(crate) fn occurs_at(text: &Vec<char>, pattern: &Vec<char>, start: usize) -> (found: bool)
    requires
        start + pattern@.len() <= text@.len(),
    ensures
        found == (text@.subrange(start as int, start + pattern@.len()) == pattern@),
{
    let m = pattern.len();
    let text_len = text.len();
    let mut j: usize = 0;
    while j < m
        invariant
            m == pattern@.len(),
            text_len == text@.len(),
            start + m <= text@.len(),
            0 <= j <= m,
            forall|k: int| 0 <= k < j ==> text@[start + k] == pattern@[k],
        decreases m - j,
    {
        if text[start + j] != pattern[j] {
            assert(text@.subrange(start as int, start + m)[j as int] != pattern@[j as int]);
            return false;
        }
        j = j + 1;
    }
    assert(text@.subrange(start as int, start + m) =~= pattern@);
    true
}

/// The decimal digit for `d` (0 to 9).
pub open spec fn digit_char(d: int) -> char {
    if d == 0 {
        '0'
    } else if d == 1 {
        '1'
    } else if d == 2 {
        '2'
    } else if d == 3 {
        '3'
    } else if d == 4 {
        '4'
    } else if d == 5 {
        '5'
    } else if d == 6 {
        '6'
    } else if d == 7 {
        '7'
    } else if d == 8 {
        '8'
    } else {
        '9'
    }
}

/// The decimal numeral of `n`, without leading zeros.
pub open spec fn decimal(n: nat) -> Seq<char>
    decreases n,
{
    if n < 10 {
        seq![digit_char(n as int)]
    } else {
        decimal(n / 10).push(digit_char(n as int % 10))
    }
}

/// The value of a decimal digit: how far its code is past that of '0'.
pub open spec fn digit_value(c: char) -> int {
    (c as int) - ('0' as int)
}

/// The value of a run of decimal digits read in base 10.
pub open spec fn decimal_value(s: Seq<char>) -> int
    decreases s.len(),
{
    if s.len() == 0 {
        0
    } else {
        10 * decimal_value(s.drop_last()) + digit_value(s.last())
    }
}

/// Every digit character written for `d` (0 to 9) is the one whose code is
/// that of '0' plus `d`.
proof fn lemma_digit_char_value(d: int)
    requires
        0 <= d < 10,
    ensures
        '0' <= digit_char(d) <= '9',
        digit_value(digit_char(d)) == d,
{
}

/// The numeral of `n` reads back as `n`: it is made of the digits '0' to
/// '9' only, has no leading zero, and read in base 10 its value is `n`.
pub proof fn lemma_decimal_reads_back(n: nat)
    ensures
        decimal(n).len() > 0,
        forall|i: int| 0 <= i < decimal(n).len() ==> '0' <= #[trigger] decimal(n)[i] <= '9',
        decimal(n).len() > 1 ==> decimal(n)[0] != '0',
        decimal_value(decimal(n)) == n,
    decreases n,
{
    if n < 10 {
        lemma_digit_char_value(n as int);
        let s = decimal(n);
        assert(s.drop_last() =~= Seq::<char>::empty());
        assert(decimal_value(s.drop_last()) == 0);
        assert(s.last() == digit_char(n as int));
        assert(decimal_value(s) == 10 * decimal_value(s.drop_last()) + digit_value(s.last()));
    } else {
        lemma_decimal_reads_back(n / 10);
        lemma_digit_char_value(n as int % 10);
        let prev = decimal(n / 10);
        let s = decimal(n);
        assert(s == prev.push(digit_char(n as int % 10)));
        assert(s.drop_last() =~= prev);
        assert(s.last() == digit_char(n as int % 10));
        assert(decimal_value(s) == 10 * decimal_value(s.drop_last()) + digit_value(s.last()));
        assert(10 * (n / 10) + n % 10 == n);
        assert(s[0] == prev[0]);
        assert forall|i: int| 0 <= i < s.len() implies '0' <= #[trigger] s[i] <= '9' by {
            if i < prev.len() {
                assert(s[i] == prev[i]);
            }
        }
        if prev.len() == 1 {
            assert(n / 10 < 10) by {
                if n / 10 >= 10 {
                    lemma_decimal_reads_back(n / 10 / 10);
                }
            }
            lemma_digit_char_value((n / 10) as int);
        }
    }
}

/// The one-character text of the decimal digit `d`.
fn digit_str(d: usize) -> (text: &'static str)
    requires
        d < 10,
    ensures
        text@ == seq![digit_char(d as int)],
{
    proof {
        reveal_strlit("0");
        reveal_strlit("1");
        reveal_strlit("2");
        reveal_strlit("3");
        reveal_strlit("4");
        reveal_strlit("5");
        reveal_strlit("6");
        reveal_strlit("7");
        reveal_strlit("8");
        reveal_strlit("9");
    }
    if d == 0 {
        "0"
    } else if d == 1 {
        "1"
    } else if d == 2 {
        "2"
    } else if d == 3 {
        "3"
    } else if d == 4 {
        "4"
    } else if d == 5 {
        "5"
    } else if d == 6 {
        "6"
    } else if d == 7 {
        "7"
    } else if d == 8 {
        "8"
    } else {
        "9"
    }
}

/// The decimal numeral of `n`.
pub fn decimal_string(n: usize) -> (text: String)
    ensures
        text@ == decimal(n as nat),
        decimal_value(text@) == n,
        forall|i: int| 0 <= i < text@.len() ==> '0' <= #[trigger] text@[i] <= '9',
    decreases n,
{
    proof {
        lemma_decimal_reads_back(n as nat);
    }
    if n < 10 {
        String::from_str(digit_str(n))
    } else {
        let mut text = decimal_string(n / 10);
        text.append(digit_str(n % 10));
        text
    }
}

/// The name `prefix`, a space and the decimal numeral of `number`, as the
/// editor names the objects it adds ("Cube 3").
pub fn numbered_name(prefix: &str, number: usize) -> (name: String)
    ensures
        name@ == prefix@ + " "@ + decimal(number as nat),
{
    proof {
        reveal_strlit(" ");
    }
    let mut name = String::from_str(prefix);
    name.append(" ");
    let digits = decimal_string(number);
    name.append(digits.as_str());
    name
}

} // verus!
