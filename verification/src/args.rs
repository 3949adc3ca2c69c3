//! The query arguments the caller hands in, and the year validator.
//!
//! Reading the command line itself is the caller's concern; the engine only
//! sees this plain value.

use vstd::prelude::*;
use vstd::string::*;

use crate::utils::all_digits;
use crate::utils::dec_val;
use crate::utils::digit_val;
use crate::utils::is_digit_char;

verus! {

/// One run's queries: a year for the yearly report, a `year/month` string
/// for the monthly report, another for the chart, and the directory the
/// readings come from.
#[derive(Debug)]
pub struct Arguments {
    pub year: Option<u16>,
    pub year_with_month: Option<String>,
    pub year_with_month_for_chart: Option<String>,
    pub path: String,
}

/// Check a year query: exactly four decimal digits. Anything else — too
/// short, too long, a sign, a non-digit — is rejected with the message the
/// caller shows.
pub fn validate_year(year_str: &str) -> (r: Result<u16, String>)
    ensures
        r is Ok <==> (year_str@.len() == 4 && all_digits(year_str@)),
        r matches Ok(v) ==> v as int == dec_val(year_str@),
        r matches Err(e) ==> e@ == "Please provide year in format YYYY"@,
{
    let n: usize = year_str.unicode_len();
    if n != 4 {
        return Err(String::from_str("Please provide year in format YYYY"));
    }
    let mut v: u16 = 0;
    let mut i: usize = 0;
    proof {
        assert(year_str@.take(0) =~= Seq::<char>::empty());
    }
    while i < 4
        invariant
            0 <= i <= 4,
            year_str@.len() == 4,
            all_digits(year_str@.take(i as int)),
            v as int == dec_val(year_str@.take(i as int)),
            v < 1000 || i == 4,
            i == 1 ==> v < 10,
            i == 2 ==> v < 100,
            i == 3 ==> v < 1000,
            i == 0 ==> v == 0,
        decreases 4 - i,
    {
        let c = year_str.get_char(i);
        let cu = c as u32;
        if cu < '0' as u32 || cu > '9' as u32 {
            proof {
                assert(!is_digit_char(year_str@[i as int]));
            }
            return Err(String::from_str("Please provide year in format YYYY"));
        }
        let d: u16 = (cu - ('0' as u32)) as u16;
        proof {
            let s = year_str@;
            let k = i as int;
            let p2 = s.take(k + 1);
            assert(p2.drop_last() =~= s.take(k));
            assert(p2[k] == s[k]);
            assert(d as int == digit_val(s[k]));
        }
        v = v * 10 + d;
        i += 1;
    }
    proof {
        assert(year_str@.take(4) =~= year_str@);
    }
    Ok(v)
}

} // verus!
