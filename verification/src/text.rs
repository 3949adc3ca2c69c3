//! Plain-text building blocks the report and chart renderers share:
//! decimal numerals, signed values and month names.

use vstd::prelude::*;
use vstd::string::*;

use crate::utils::all_digits;
use crate::utils::dec_val;
use crate::utils::digit_val;
use crate::utils::is_digit_char;

verus! {

/// The character of one decimal digit.
pub open spec fn digit_char(d: int) -> char {
    if d == 0 {
        '0'
    } else if d == 1 {
        '1'
    } else if d == 2 {
        '2'
    } else if d == 3 {
        '3'
    } else if d == 4 {
        '4'
    } else if d == 5 {
        '5'
    } else if d == 6 {
        '6'
    } else if d == 7 {
        '7'
    } else if d == 8 {
        '8'
    } else {
        '9'
    }
}

/// The decimal numeral of a non-negative number: no sign, no leading zero.
pub open spec fn dec_seq(n: int) -> Seq<char>
    decreases n,
{
    if n < 10 {
        seq![digit_char(n)]
    } else {
        dec_seq(n / 10) + seq![digit_char(n % 10)]
    }
}

/// Printing and parsing agree: the numeral of `n` is all digits and reads
/// back as `n`.
pub proof fn lemma_dec_seq_reads_back(n: int)
    requires
        0 <= n,
    ensures
        dec_seq(n).len() >= 1,
        all_digits(dec_seq(n)),
        dec_val(dec_seq(n)) == n,
    decreases n,
{
    vstd::arithmetic::div_mod::lemma_fundamental_div_mod(n, 10);
    if n < 10 {
        let s = dec_seq(n);
        assert(s =~= seq![digit_char(n)]);
        assert(s.drop_last() =~= Seq::<char>::empty());
        assert(dec_val(Seq::<char>::empty()) == 0);
        assert(digit_val(digit_char(n)) == n);
        assert(dec_val(s) == dec_val(s.drop_last()) * 10 + digit_val(s[0]));
    } else {
        lemma_dec_seq_reads_back(n / 10);
        let a = dec_seq(n / 10);
        let c = digit_char(n % 10);
        let s = dec_seq(n);
        assert(s == a + seq![c]);
        assert(s.drop_last() =~= a);
        assert(s[s.len() - 1] == c);
        assert(digit_val(c) == n % 10);
        assert(dec_val(s) == dec_val(a) * 10 + digit_val(c));
        assert forall|i: int| 0 <= i < s.len() implies is_digit_char(
            #[trigger] s[i],
        ) by {
            if i < a.len() {
                assert(s[i] == a[i]);
            }
        }
    }
}

fn digit_text(d: u8) -> (s: &'static str)
    requires
        d <= 9,
    ensures
        s@ == seq![digit_char(d as int)],
{
    proof {
        reveal_strlit("0");
        reveal_strlit("1");
        reveal_strlit("2");
        reveal_strlit("3");
        reveal_strlit("4");
        reveal_strlit("5");
        reveal_strlit("6");
        reveal_strlit("7");
        reveal_strlit("8");
        reveal_strlit("9");
    }
    match d {
        0 => "0",
        1 => "1",
        2 => "2",
        3 => "3",
        4 => "4",
        5 => "5",
        6 => "6",
        7 => "7",
        8 => "8",
        _ => "9",
    }
}

/// A number as decimal text.
pub fn decimal_text(n: u16) -> (s: String)
    ensures
        s@ == dec_seq(n as int),
    decreases n,
{
    if n < 10 {
        String::from_str(digit_text(n as u8))
    } else {
        let mut s = decimal_text(n / 10);
        s.append(digit_text((n % 10) as u8));
        s
    }
}

/// A signed value as decimal text, sign included.
pub open spec fn value_seq(v: int) -> Seq<char> {
    if v >= 0 {
        dec_seq(v)
    } else {
        seq!['-'] + dec_seq(-v)
    }
}

pub fn value_text(v: i8) -> (s: String)
    ensures
        s@ == value_seq(v as int),
{
    if v >= 0 {
        let s = decimal_text(v as u16);
        proof {
            assert(s@ =~= value_seq(v as int));
        }
        s
    } else {
        let magnitude: u16 = (-(v as i16)) as u16;
        let mut s = String::from_str("-");
        let digits = decimal_text(magnitude);
        s.append(digits.as_str());
        proof {
            reveal_strlit("-");
            assert(s@ =~= value_seq(v as int));
        }
        s
    }
}

/// A day-of-month number zero-padded to two places, as calendar displays
/// show it.
pub open spec fn day2_seq(d: int) -> Seq<char> {
    if 0 <= d < 10 {
        seq!['0'] + dec_seq(d)
    } else {
        dec_seq(d)
    }
}

pub fn day2_text(d: u8) -> (s: String)
    ensures
        s@ == day2_seq(d as int),
{
    if d < 10 {
        let mut s = String::from_str("0");
        s.append(digit_text(d));
        proof {
            reveal_strlit("0");
            assert(s@ =~= day2_seq(d as int));
        }
        s
    } else {
        let s = decimal_text(d as u16);
        proof {
            assert(s@ =~= day2_seq(d as int));
        }
        s
    }
}

/// The name of a calendar month; a month number outside 1 to 12 has none
/// and yields the empty text.
pub open spec fn month_name_seq(m: int) -> Seq<char> {
    if m == 1 {
        "January"@
    } else if m == 2 {
        "February"@
    } else if m == 3 {
        "March"@
    } else if m == 4 {
        "April"@
    } else if m == 5 {
        "May"@
    } else if m == 6 {
        "June"@
    } else if m == 7 {
        "July"@
    } else if m == 8 {
        "August"@
    } else if m == 9 {
        "September"@
    } else if m == 10 {
        "October"@
    } else if m == 11 {
        "November"@
    } else if m == 12 {
        "December"@
    } else {
        Seq::<char>::empty()
    }
}

pub fn month_name_text(m: u8) -> (s: &'static str)
    ensures
        s@ == month_name_seq(m as int),
{
    match m {
        1 => "January",
        2 => "February",
        3 => "March",
        4 => "April",
        5 => "May",
        6 => "June",
        7 => "July",
        8 => "August",
        9 => "September",
        10 => "October",
        11 => "November",
        12 => "December",
        _ => {
            let s = "";
            proof {
                reveal_strlit("");
            }
            s
        },
    }
}

/// The three-letter abbreviation of a month's name; empty outside 1 to 12.
pub open spec fn month_abbrev_seq(m: int) -> Seq<char> {
    if m == 1 {
        "Jan"@
    } else if m == 2 {
        "Feb"@
    } else if m == 3 {
        "Mar"@
    } else if m == 4 {
        "Apr"@
    } else if m == 5 {
        "May"@
    } else if m == 6 {
        "Jun"@
    } else if m == 7 {
        "Jul"@
    } else if m == 8 {
        "Aug"@
    } else if m == 9 {
        "Sep"@
    } else if m == 10 {
        "Oct"@
    } else if m == 11 {
        "Nov"@
    } else if m == 12 {
        "Dec"@
    } else {
        Seq::<char>::empty()
    }
}

pub fn month_abbrev_text(m: u8) -> (s: &'static str)
    ensures
        s@ == month_abbrev_seq(m as int),
{
    match m {
        1 => "Jan",
        2 => "Feb",
        3 => "Mar",
        4 => "Apr",
        5 => "May",
        6 => "Jun",
        7 => "Jul",
        8 => "Aug",
        9 => "Sep",
        10 => "Oct",
        11 => "Nov",
        12 => "Dec",
        _ => {
            let s = "";
            proof {
                reveal_strlit("");
            }
            s
        },
    }
}

} // verus!
