//! The report text of the two calculations: three lines each, exactly as
//! they are shown to the user.

use vstd::prelude::*;
use vstd::string::*;

use crate::calculate::HumidityExtreme;
use crate::calculate::MonthlyCalculation;
use crate::calculate::TempExtreme;
use crate::calculate::YearlyCalculation;
use crate::reading::Date;
use crate::text::day2_seq;
use crate::text::day2_text;
use crate::text::dec_seq;
use crate::text::decimal_text;
use crate::text::month_abbrev_seq;
use crate::text::month_abbrev_text;
use crate::text::value_seq;
use crate::text::value_text;

verus! {

/// A date shown the way report lines abbreviate it: `Jan 05`. A reading
/// that carried no date is said so in words.
pub open spec fn date_text_seq(d: Option<Date>) -> Seq<char> {
    match d {
        Some(d) => month_abbrev_seq(d.month as int) + seq![' '] + day2_seq(d.day as int),
        None => "an undated reading"@,
    }
}

fn date_text(d: &Option<Date>) -> (s: String)
    ensures
        s@ == date_text_seq(*d),
{
    match d {
        Some(d) => {
            let mut s = String::from_str(month_abbrev_text(d.month));
            s.append(" ");
            let day = day2_text(d.day);
            s.append(day.as_str());
            proof {
                reveal_strlit(" ");
                assert(s@ =~= date_text_seq(Some(*d)));
            }
            s
        },
        None => String::from_str("an undated reading"),
    }
}

/// One yearly report line for a temperature metric: the value, unit and
/// date, or the note that no reading carried the metric.
pub open spec fn temp_entry_seq(e: Option<TempExtreme>) -> Seq<char> {
    match e {
        Some(e) => value_seq(e.value as int) + "C on "@ + date_text_seq(e.date),
        None => "no available reading"@,
    }
}

fn temp_entry_text(e: &Option<TempExtreme>) -> (s: String)
    ensures
        s@ == temp_entry_seq(*e),
{
    match e {
        Some(e) => {
            let mut s = value_text(e.value);
            s.append("C on ");
            let d = date_text(&e.date);
            s.append(d.as_str());
            proof {
                reveal_strlit("C on ");
                assert(s@ =~= temp_entry_seq(Some(*e)));
            }
            s
        },
        None => String::from_str("no available reading"),
    }
}

/// One yearly report line for the humidity metric.
pub open spec fn hum_entry_seq(e: Option<HumidityExtreme>) -> Seq<char> {
    match e {
        Some(e) => dec_seq(e.value as int) + "% on "@ + date_text_seq(e.date),
        None => "no available reading"@,
    }
}

fn hum_entry_text(e: &Option<HumidityExtreme>) -> (s: String)
    ensures
        s@ == hum_entry_seq(*e),
{
    match e {
        Some(e) => {
            let mut s = decimal_text(e.value as u16);
            s.append("% on ");
            let d = date_text(&e.date);
            s.append(d.as_str());
            proof {
                reveal_strlit("% on ");
                assert(s@ =~= hum_entry_seq(Some(*e)));
            }
            s
        },
        None => String::from_str("no available reading"),
    }
}

/// The yearly report: highest temperature, lowest temperature and peak
/// humidity, each with its date, one line each.
pub open spec fn yearly_summary_seq(c: YearlyCalculation) -> Seq<char> {
    "Highest: "@ + temp_entry_seq(c.highest_temperature_with_date) + seq!['\n'] + "Lowest: "@
        + temp_entry_seq(c.lowest_temperature_with_date) + seq!['\n'] + "Humid: "@ + hum_entry_seq(
        c.max_humidity_with_date,
    )
}

impl YearlyCalculation {
    /// The report text, ready to print.
    pub fn summary(&self) -> (s: String)
        ensures
            s@ == yearly_summary_seq(*self),
    {
        let mut s = String::from_str("Highest: ");
        let high = temp_entry_text(&self.highest_temperature_with_date);
        s.append(high.as_str());
        s.append("\n");
        s.append("Lowest: ");
        let low = temp_entry_text(&self.lowest_temperature_with_date);
        s.append(low.as_str());
        s.append("\n");
        s.append("Humid: ");
        let hum = hum_entry_text(&self.max_humidity_with_date);
        s.append(hum.as_str());
        proof {
            reveal_strlit("Highest: ");
            reveal_strlit("Lowest: ");
            reveal_strlit("Humid: ");
            reveal_strlit("\n");
            assert(s@ =~= yearly_summary_seq(*self));
        }
        s
    }
}

/// The monthly report: the two extremal mean temperatures and the average
/// humidity, one line each.
pub open spec fn monthly_summary_seq(c: MonthlyCalculation) -> Seq<char> {
    "Highest Average: "@ + value_seq(c.highest_mean_temperature as int) + "C"@ + seq!['\n']
        + "Lowest Average: "@ + value_seq(c.lowest_mean_temperature as int) + "C"@ + seq!['\n']
        + "Average Humidity: "@ + dec_seq(c.average_humidity as int) + "%"@
}

impl MonthlyCalculation {
    /// The report text, ready to print.
    pub fn summary(&self) -> (s: String)
        ensures
            s@ == monthly_summary_seq(*self),
    {
        let mut s = String::from_str("Highest Average: ");
        let high = value_text(self.highest_mean_temperature);
        s.append(high.as_str());
        s.append("C");
        s.append("\n");
        s.append("Lowest Average: ");
        let low = value_text(self.lowest_mean_temperature);
        s.append(low.as_str());
        s.append("C");
        s.append("\n");
        s.append("Average Humidity: ");
        let avg = decimal_text(self.average_humidity as u16);
        s.append(avg.as_str());
        s.append("%");
        proof {
            reveal_strlit("Highest Average: ");
            reveal_strlit("Lowest Average: ");
            reveal_strlit("Average Humidity: ");
            reveal_strlit("C");
            reveal_strlit("%");
            reveal_strlit("\n");
            assert(s@ =~= monthly_summary_seq(*self));
        }
        s
    }
}

} // verus!
