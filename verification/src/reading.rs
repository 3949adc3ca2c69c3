//! The atomic data unit: one day's weather observation record.

use vstd::prelude::*;

verus! {

/// A calendar date, held as plain year/month/day numbers.
#[derive(Clone, Copy, Debug, PartialEq, Eq, Structural)]
pub struct Date {
    pub year: u16,
    pub month: u8,
    pub day: u8,
}

impl Date {
    /// A date is well formed when its month and day lie in calendar range.
    /// Day bounds are deliberately loose (no per-month length check): the
    /// engine only groups and displays dates, it never does calendar
    /// arithmetic on them.
    pub open spec fn wf(self) -> bool {
        &&& 1 <= self.month <= 12
        &&& 1 <= self.day <= 31
    }

    pub fn new(year: u16, month: u8, day: u8) -> (d: Date)
        requires
            1 <= month <= 12,
            1 <= day <= 31,
        ensures
            d == (Date { year, month, day }),
            d.wf(),
    {
        Date { year, month, day }
    }
}

/// One day's observation. Every numeric field is optional: a source may
/// record nothing for a day, and a reading with all fields absent is still
/// valid. Aggregations filter on presence; absence is never read as zero.
///
/// The date is needed for grouping and display, but value-only records from
/// some sources carry none.
#[derive(Clone, Copy, Debug, PartialEq, Eq, Structural)]
pub struct DailyTemperatureReading {
    pub date: Option<Date>,
    pub max_temperature: Option<i8>,
    pub mean_temperature: Option<i8>,
    pub min_temperature: Option<i8>,
    pub max_humidity: Option<u8>,
    pub mean_humidity: Option<u8>,
    pub min_humidity: Option<u8>,
}

impl DailyTemperatureReading {
    /// A reading is well formed when its date, if present, is.
    pub open spec fn wf(self) -> bool {
        self.date matches Some(d) ==> d.wf()
    }

    /// A reading with every field absent — the valid blank every record
    /// starts from before decoded fields are filled in.
    pub fn empty() -> (r: DailyTemperatureReading)
        ensures
            r == (DailyTemperatureReading {
                date: None::<Date>,
                max_temperature: None::<i8>,
                mean_temperature: None::<i8>,
                min_temperature: None::<i8>,
                max_humidity: None::<u8>,
                mean_humidity: None::<u8>,
                min_humidity: None::<u8>,
            }),
            r.wf(),
    {
        DailyTemperatureReading {
            date: None,
            max_temperature: None,
            mean_temperature: None,
            min_temperature: None,
            max_humidity: None,
            mean_humidity: None,
            min_humidity: None,
        }
    }
}

} // verus!
