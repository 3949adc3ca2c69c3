//! The aggregators: yearly extremes and monthly averages.
//!
//! Selection is specified by two scan functions over a reading sequence.
//! Both skip readings whose field is absent. On ties the maximum scan keeps
//! the last reading encountered and the minimum scan keeps the first; the
//! asymmetry is observable behaviour and is kept deliberately, though it
//! looks accidental rather than designed.

use vstd::prelude::*;

use crate::reading::DailyTemperatureReading;
use crate::reading::Date;
use crate::store::ReadingStore;

verus! {

/// The one error kind the engine reports: the query has no data to answer
/// with. It carries no message; presentation belongs to the caller.
#[derive(Clone, Copy, Debug, PartialEq, Eq, Structural)]
pub enum CalculationError {
    NotFound,
}

/// Field selectors: each reads one optional numeric field of a reading,
/// widened to `int` so one scan definition serves every metric.
pub open spec fn sel_max_temp() -> spec_fn(DailyTemperatureReading) -> Option<int> {
    |r: DailyTemperatureReading|
        match r.max_temperature {
            Some(v) => Some(v as int),
            None => None,
        }
}

pub open spec fn sel_min_temp() -> spec_fn(DailyTemperatureReading) -> Option<int> {
    |r: DailyTemperatureReading|
        match r.min_temperature {
            Some(v) => Some(v as int),
            None => None,
        }
}

pub open spec fn sel_max_humidity() -> spec_fn(DailyTemperatureReading) -> Option<int> {
    |r: DailyTemperatureReading|
        match r.max_humidity {
            Some(v) => Some(v as int),
            None => None,
        }
}

pub open spec fn sel_mean_temp() -> spec_fn(DailyTemperatureReading) -> Option<int> {
    |r: DailyTemperatureReading|
        match r.mean_temperature {
            Some(v) => Some(v as int),
            None => None,
        }
}

/// Index of the reading a maximum search selects from `s` under selector
/// `f`, or `None` when no reading carries the field. Of readings tied at
/// the maximum, the last one encountered wins.
pub open spec fn best_last_max(
    s: Seq<DailyTemperatureReading>,
    f: spec_fn(DailyTemperatureReading) -> Option<int>,
) -> Option<int>
    decreases s.len(),
{
    if s.len() == 0 {
        None
    } else {
        let prev = best_last_max(s.drop_last(), f);
        let last = s.len() - 1;
        match f(s[last]) {
            None => prev,
            Some(v) => match prev {
                None => Some(last as int),
                Some(i) => if v >= f(s[i])->0 {
                    Some(last as int)
                } else {
                    Some(i)
                },
            },
        }
    }
}

/// Index of the reading a minimum search selects, or `None` when no reading
/// carries the field. Of readings tied at the minimum, the first one
/// encountered wins.
pub open spec fn best_first_min(
    s: Seq<DailyTemperatureReading>,
    f: spec_fn(DailyTemperatureReading) -> Option<int>,
) -> Option<int>
    decreases s.len(),
{
    if s.len() == 0 {
        None
    } else {
        let prev = best_first_min(s.drop_last(), f);
        let last = s.len() - 1;
        match f(s[last]) {
            None => prev,
            Some(v) => match prev {
                None => Some(last as int),
                Some(i) => if v < f(s[i])->0 {
                    Some(last as int)
                } else {
                    Some(i)
                },
            },
        }
    }
}

/// What the maximum scan's answer means: `None` exactly when the field is
/// absent throughout; otherwise the selected reading carries the field,
/// no reading beats it, and every later tied reading would have replaced it,
/// so none exists.
pub proof fn lemma_best_last_max_props(
    s: Seq<DailyTemperatureReading>,
    f: spec_fn(DailyTemperatureReading) -> Option<int>,
)
    ensures
        best_last_max(s, f) is None <==> (forall|j: int|
            0 <= j < s.len() ==> f(s[j]) is None),
        best_last_max(s, f) matches Some(i) ==> {
            &&& 0 <= i < s.len()
            &&& f(s[i]) is Some
            &&& forall|j: int| 0 <= j < s.len() && f(s[j]) is Some ==> f(s[j])->0 <= f(s[i])->0
            &&& forall|j: int| i < j < s.len() && f(s[j]) is Some ==> f(s[j])->0 < f(s[i])->0
        },
    decreases s.len(),
{
    if s.len() > 0 {
        lemma_best_last_max_props(s.drop_last(), f);
        assert(forall|j: int| 0 <= j < s.len() - 1 ==> s.drop_last()[j] == s[j]);
    }
}

/// What the minimum scan's answer means: the selected reading carries the
/// field, no reading undercuts it, and every earlier reading with the field
/// sits strictly above it.
pub proof fn lemma_best_first_min_props(
    s: Seq<DailyTemperatureReading>,
    f: spec_fn(DailyTemperatureReading) -> Option<int>,
)
    ensures
        best_first_min(s, f) is None <==> (forall|j: int|
            0 <= j < s.len() ==> f(s[j]) is None),
        best_first_min(s, f) matches Some(i) ==> {
            &&& 0 <= i < s.len()
            &&& f(s[i]) is Some
            &&& forall|j: int| 0 <= j < s.len() && f(s[j]) is Some ==> f(s[j])->0 >= f(s[i])->0
            &&& forall|j: int| 0 <= j < i && f(s[j]) is Some ==> f(s[j])->0 > f(s[i])->0
        },
    decreases s.len(),
{
    if s.len() > 0 {
        lemma_best_first_min_props(s.drop_last(), f);
        assert(forall|j: int| 0 <= j < s.len() - 1 ==> s.drop_last()[j] == s[j]);
    }
}

/// The readings stored for month `m` of year `y`, or the empty sequence when
/// the key is absent.
pub open spec fn month_seq(store: ReadingStore, y: int, m: int) -> Seq<DailyTemperatureReading> {
    match store.spec_get(y, m) {
        Some(s) => s,
        None => Seq::<DailyTemperatureReading>::empty(),
    }
}

/// The readings of year `y` across months 1 up to `upto`, months in
/// ascending order, each month's readings in stored order. This is the
/// iteration order every yearly selection is defined over.
pub open spec fn year_seq_upto(store: ReadingStore, y: int, upto: int) -> Seq<
    DailyTemperatureReading,
>
    decreases upto,
{
    if upto <= 0 {
        Seq::<DailyTemperatureReading>::empty()
    } else {
        year_seq_upto(store, y, upto - 1) + month_seq(store, y, upto)
    }
}

/// All readings of year `y`, in selection order.
pub open spec fn year_seq(store: ReadingStore, y: int) -> Seq<DailyTemperatureReading> {
    year_seq_upto(store, y, 12)
}

/// At least one month of year `y` is present in the store (even an empty
/// one). A year with no present month at all is reported as not found.
pub open spec fn year_present(store: ReadingStore, y: int) -> bool {
    exists|m: int| 1 <= m <= 12 && store.spec_get(y, m) is Some
}

/// One extremal temperature result: the value, and the date of the selected
/// reading where that reading carried one.
#[derive(Clone, Copy, Debug, PartialEq, Eq, Structural)]
pub struct TempExtreme {
    pub date: Option<Date>,
    pub value: i8,
}

/// One extremal humidity result.
#[derive(Clone, Copy, Debug, PartialEq, Eq, Structural)]
pub struct HumidityExtreme {
    pub date: Option<Date>,
    pub value: u8,
}

/// `e` is exactly the temperature extreme that winner index `w` denotes in
/// `s` under selector `f`: absent when no reading carries the field, else
/// the selected reading's date and value.
pub open spec fn temp_pick(
    s: Seq<DailyTemperatureReading>,
    w: Option<int>,
    e: Option<TempExtreme>,
    f: spec_fn(DailyTemperatureReading) -> Option<int>,
) -> bool {
    match w {
        None => e is None,
        Some(i) => {
            &&& 0 <= i < s.len()
            &&& e matches Some(x) && x.date == s[i].date && f(s[i]) == Some(x.value as int)
        },
    }
}

/// As `temp_pick`, for a humidity metric.
pub open spec fn hum_pick(
    s: Seq<DailyTemperatureReading>,
    w: Option<int>,
    e: Option<HumidityExtreme>,
    f: spec_fn(DailyTemperatureReading) -> Option<int>,
) -> bool {
    match w {
        None => e is None,
        Some(i) => {
            &&& 0 <= i < s.len()
            &&& e matches Some(x) && x.date == s[i].date && f(s[i]) == Some(x.value as int)
        },
    }
}

/// The yearly extremes: highest max-temperature, lowest min-temperature and
/// highest max-humidity of a year, each selected independently, so they may
/// come from different days. A field is absent when no reading of the year
/// carried the metric.
#[derive(Clone, Copy, Debug, PartialEq, Eq, Structural)]
pub struct YearlyCalculation {
    pub highest_temperature_with_date: Option<TempExtreme>,
    pub lowest_temperature_with_date: Option<TempExtreme>,
    pub max_humidity_with_date: Option<HumidityExtreme>,
}

/// Everything `YearlyCalculation::calculate` promises of its result: not
/// found exactly when the year has no present month, and otherwise the three
/// extremes that the scans select over the year's readings.
pub open spec fn yearly_result_spec(
    store: ReadingStore,
    y: int,
    r: Result<YearlyCalculation, CalculationError>,
) -> bool {
    if year_present(store, y) {
        let s = year_seq(store, y);
        &&& r matches Ok(c)
        &&& temp_pick(
            s,
            best_last_max(s, sel_max_temp()),
            c.highest_temperature_with_date,
            sel_max_temp(),
        )
        &&& temp_pick(
            s,
            best_first_min(s, sel_min_temp()),
            c.lowest_temperature_with_date,
            sel_min_temp(),
        )
        &&& hum_pick(
            s,
            best_last_max(s, sel_max_humidity()),
            c.max_humidity_with_date,
            sel_max_humidity(),
        )
    } else {
        r == Err::<YearlyCalculation, CalculationError>(CalculationError::NotFound)
    }
}

impl YearlyCalculation {
    /// Scan months 1 through 12 of `year`, skipping absent months, and
    /// select the three extremes. Fails only when no month of the year is
    /// present in the store.
    pub fn calculate(year: u16, store: &ReadingStore) -> (r: Result<
        YearlyCalculation,
        CalculationError,
    >)
        ensures
            yearly_result_spec(*store, year as int, r),
    {
        let y: u16 = year;
        let mut found_month = false;
        let mut high: Option<TempExtreme> = None;
        let mut low: Option<TempExtreme> = None;
        let mut hum: Option<HumidityExtreme> = None;
        let mut m: u8 = 1;
        while m <= 12
            invariant
                1 <= m <= 13,
                found_month <==> exists|mm: int|
                    1 <= mm < m && store.spec_get(y as int, mm) is Some,
                temp_pick(
                    year_seq_upto(*store, y as int, m as int - 1),
                    best_last_max(year_seq_upto(*store, y as int, m as int - 1), sel_max_temp()),
                    high,
                    sel_max_temp(),
                ),
                temp_pick(
                    year_seq_upto(*store, y as int, m as int - 1),
                    best_first_min(year_seq_upto(*store, y as int, m as int - 1), sel_min_temp()),
                    low,
                    sel_min_temp(),
                ),
                hum_pick(
                    year_seq_upto(*store, y as int, m as int - 1),
                    best_last_max(
                        year_seq_upto(*store, y as int, m as int - 1),
                        sel_max_humidity(),
                    ),
                    hum,
                    sel_max_humidity(),
                ),
            decreases 13 - m,
        {
            let ghost done = year_seq_upto(*store, y as int, m as int - 1);
            match store.get(y, m) {
                None => {
                    proof {
                        assert(month_seq(*store, y as int, m as int)
                            =~= Seq::<DailyTemperatureReading>::empty());
                        assert(year_seq_upto(*store, y as int, m as int) =~= done);
                    }
                },
                Some(v) => {
                    found_month = true;
                    let n: usize = v.len();
                    let mut j: usize = 0;
                    proof {
                        assert(v@.take(0) =~= Seq::<DailyTemperatureReading>::empty());
                        assert(done + v@.take(0) =~= done);
                    }
                    while j < n
                        invariant
                            n == v@.len(),
                            0 <= j <= n,
                            temp_pick(
                                done + v@.take(j as int),
                                best_last_max(done + v@.take(j as int), sel_max_temp()),
                                high,
                                sel_max_temp(),
                            ),
                            temp_pick(
                                done + v@.take(j as int),
                                best_first_min(done + v@.take(j as int), sel_min_temp()),
                                low,
                                sel_min_temp(),
                            ),
                            hum_pick(
                                done + v@.take(j as int),
                                best_last_max(done + v@.take(j as int), sel_max_humidity()),
                                hum,
                                sel_max_humidity(),
                            ),
                        decreases n - j,
                    {
                        let rd = v[j];
                        let ghost p = done + v@.take(j as int);
                        let ghost p2 = done + v@.take(j as int + 1);
                        proof {
                            assert(p2 =~= p.push(rd));
                            assert(p2.drop_last() =~= p);
                            assert(p2[p2.len() - 1] == rd);
                            assert(forall|k: int| 0 <= k < p.len() ==> p2[k] == p[k]);
                        }
                        if let Some(t) = rd.max_temperature {
                            let replace = match &high {
                                None => true,
                                Some(e) => t >= e.value,
                            };
                            if replace {
                                high = Some(TempExtreme { date: rd.date, value: t });
                            }
                        }
                        if let Some(t) = rd.min_temperature {
                            let replace = match &low {
                                None => true,
                                Some(e) => t < e.value,
                            };
                            if replace {
                                low = Some(TempExtreme { date: rd.date, value: t });
                            }
                        }
                        if let Some(h) = rd.max_humidity {
                            let replace = match &hum {
                                None => true,
                                Some(e) => h >= e.value,
                            };
                            if replace {
                                hum = Some(HumidityExtreme { date: rd.date, value: h });
                            }
                        }
                        j += 1;
                    }
                    proof {
                        assert(v@.take(n as int) =~= v@);
                        assert(month_seq(*store, y as int, m as int) == v@);
                        assert(year_seq_upto(*store, y as int, m as int) == done + v@);
                    }
                },
            }
            m += 1;
        }
        if !found_month {
            return Err(CalculationError::NotFound);
        }
        Ok(
            YearlyCalculation {
                highest_temperature_with_date: high,
                lowest_temperature_with_date: low,
                max_humidity_with_date: hum,
            },
        )
    }
}

/// Sum of the mean-humidity values that are present in `s`; an absent value
/// contributes nothing (never a substituted zero reading — the sum simply
/// skips it, while the divisor below still counts the reading).
pub open spec fn hum_sum(s: Seq<DailyTemperatureReading>) -> int
    decreases s.len(),
{
    if s.len() == 0 {
        0
    } else {
        hum_sum(s.drop_last()) + (match s[s.len() - 1].mean_humidity {
            Some(v) => v as int,
            None => 0,
        })
    }
}

pub proof fn lemma_hum_sum_bounds(s: Seq<DailyTemperatureReading>)
    ensures
        0 <= hum_sum(s) <= 255 * s.len(),
    decreases s.len(),
{
    if s.len() > 0 {
        lemma_hum_sum_bounds(s.drop_last());
    }
}

/// `val` is exactly the value that winner index `w` denotes in `s` under
/// selector `f`.
pub open spec fn val_pick(
    s: Seq<DailyTemperatureReading>,
    w: Option<int>,
    val: Option<i8>,
    f: spec_fn(DailyTemperatureReading) -> Option<int>,
) -> bool {
    match w {
        None => val is None,
        Some(i) => {
            &&& 0 <= i < s.len()
            &&& val matches Some(x) && f(s[i]) == Some(x as int)
        },
    }
}

/// One month's mean-based results: the extremal single-day mean
/// temperatures (not averages of temperatures), the month's average
/// mean-humidity, and the full reading list kept for charting.
#[derive(Debug)]
pub struct MonthlyCalculation {
    pub highest_mean_temperature: i8,
    pub lowest_mean_temperature: i8,
    pub average_humidity: u8,
    pub readings_for_chart: Vec<DailyTemperatureReading>,
}

/// Everything `MonthlyCalculation::calculate` promises of its result: not
/// found exactly when the month's key is absent, its list is empty, or no
/// reading of the month carries a mean temperature; otherwise the scans'
/// extremal mean temperatures, the truncating humidity average over the
/// count of all readings, and the month's readings unchanged and in order.
pub open spec fn monthly_result_spec(
    store: ReadingStore,
    y: int,
    m: int,
    r: Result<MonthlyCalculation, CalculationError>,
) -> bool {
    let s = month_seq(store, y, m);
    if store.spec_get(y, m) is None || s.len() == 0 || best_last_max(s, sel_mean_temp()) is None {
        r matches Err(e) && e == CalculationError::NotFound
    } else {
        &&& r matches Ok(c)
        &&& val_pick(
            s,
            best_last_max(s, sel_mean_temp()),
            Some(c.highest_mean_temperature),
            sel_mean_temp(),
        )
        &&& val_pick(
            s,
            best_first_min(s, sel_mean_temp()),
            Some(c.lowest_mean_temperature),
            sel_mean_temp(),
        )
        &&& c.average_humidity as int == hum_sum(s) / s.len() as int
        &&& c.readings_for_chart@ == s
    }
}

impl MonthlyCalculation {
    /// Compute one month's summary. The average divides by the count of all
    /// readings in the month, not only those with a present humidity, and
    /// truncates.
    pub fn calculate(year: u16, month: u8, store: &ReadingStore) -> (r: Result<
        MonthlyCalculation,
        CalculationError,
    >)
        ensures
            monthly_result_spec(*store, year as int, month as int, r),
    {
        let v = match store.get(year, month) {
            None => {
                return Err(CalculationError::NotFound);
            },
            Some(v) => v,
        };
        let n: usize = v.len();
        if n == 0 {
            return Err(CalculationError::NotFound);
        }
        let mut hi: Option<i8> = None;
        let mut lo: Option<i8> = None;
        let mut sum: u128 = 0;
        let mut chart: Vec<DailyTemperatureReading> = Vec::new();
        let mut j: usize = 0;
        proof {
            assert(v@.take(0) =~= Seq::<DailyTemperatureReading>::empty());
        }
        while j < n
            invariant
                n == v@.len(),
                0 <= j <= n,
                val_pick(
                    v@.take(j as int),
                    best_last_max(v@.take(j as int), sel_mean_temp()),
                    hi,
                    sel_mean_temp(),
                ),
                val_pick(
                    v@.take(j as int),
                    best_first_min(v@.take(j as int), sel_mean_temp()),
                    lo,
                    sel_mean_temp(),
                ),
                sum as int == hum_sum(v@.take(j as int)),
                sum <= 255 * j,
                chart@ == v@.take(j as int),
            decreases n - j,
        {
            let rd = v[j];
            let ghost p = v@.take(j as int);
            let ghost p2 = v@.take(j as int + 1);
            proof {
                assert(p2 =~= p.push(rd));
                assert(p2.drop_last() =~= p);
                assert(p2[p2.len() - 1] == rd);
                assert(forall|k: int| 0 <= k < p.len() ==> p2[k] == p[k]);
            }
            if let Some(t) = rd.mean_temperature {
                let replace_hi = match &hi {
                    None => true,
                    Some(x) => t >= *x,
                };
                if replace_hi {
                    hi = Some(t);
                }
                let replace_lo = match &lo {
                    None => true,
                    Some(x) => t < *x,
                };
                if replace_lo {
                    lo = Some(t);
                }
            }
            if let Some(h) = rd.mean_humidity {
                sum = sum + h as u128;
            }
            chart.push(rd);
            j += 1;
        }
        proof {
            assert(v@.take(n as int) =~= v@);
        }
        let highest = match hi {
            None => {
                return Err(CalculationError::NotFound);
            },
            Some(t) => t,
        };
        let lowest = match lo {
            None => {
                proof {
                    // A present maximum implies a present minimum; this
                    // branch is unreachable, and the scans agree on that.
                    lemma_best_last_max_props(v@, sel_mean_temp());
                    lemma_best_first_min_props(v@, sel_mean_temp());
                }
                return Err(CalculationError::NotFound);
            },
            Some(t) => t,
        };
        proof {
            lemma_hum_sum_bounds(v@);
            vstd::arithmetic::div_mod::lemma_div_is_ordered(
                hum_sum(v@),
                255 * v@.len() as int,
                v@.len() as int,
            );
            vstd::arithmetic::div_mod::lemma_div_by_multiple(255, v@.len() as int);
        }
        let average = (sum / (n as u128)) as u8;
        Ok(
            MonthlyCalculation {
                highest_mean_temperature: highest,
                lowest_mean_temperature: lowest,
                average_humidity: average,
                readings_for_chart: chart,
            },
        )
    }
}

/// A shorter month range of the same year is a prefix of a longer one.
proof fn lemma_upto_extends(store: ReadingStore, y: int, a: int, b: int)
    requires
        0 <= a <= b,
    ensures
        year_seq_upto(store, y, a).len() <= year_seq_upto(store, y, b).len(),
        forall|i: int|
            0 <= i < year_seq_upto(store, y, a).len() ==> year_seq_upto(store, y, b)[i]
                == year_seq_upto(store, y, a)[i],
    decreases b - a,
{
    if a < b {
        lemma_upto_extends(store, y, a, b - 1);
    }
}

/// Where a stored month's reading stands in the year's iteration order:
/// at its own offset within the month, after every earlier month.
pub proof fn lemma_month_reading_in_year(store: ReadingStore, y: int, m: int, k: int)
    requires
        1 <= m <= 12,
        0 <= k < month_seq(store, y, m).len(),
    ensures
        ({
            let base = year_seq_upto(store, y, m - 1).len();
            &&& 0 <= base + k < year_seq(store, y).len()
            &&& year_seq(store, y)[base + k] == month_seq(store, y, m)[k]
        }),
{
    let base = year_seq_upto(store, y, m - 1).len();
    assert(year_seq_upto(store, y, m) == year_seq_upto(store, y, m - 1) + month_seq(store, y, m));
    assert(year_seq_upto(store, y, m)[base + k] == month_seq(store, y, m)[k]);
    lemma_upto_extends(store, y, m, 12);
}

/// A year with at least one stored month holding at least one reading that
/// carries a max temperature is never reported as not found: the result is
/// a calculation, and its highest-temperature entry is filled in.
pub proof fn lemma_year_with_max_temp_found(
    store: ReadingStore,
    y: int,
    m: int,
    k: int,
    r: Result<YearlyCalculation, CalculationError>,
)
    requires
        1 <= m <= 12,
        store.spec_get(y, m) matches Some(s) && 0 <= k < s.len() && s[k].max_temperature is Some,
        yearly_result_spec(store, y, r),
    ensures
        r matches Ok(c) && c.highest_temperature_with_date is Some,
{
    assert(year_present(store, y));
    lemma_month_reading_in_year(store, y, m, k);
    let ys = year_seq(store, y);
    let base = year_seq_upto(store, y, m - 1).len();
    assert((sel_max_temp())(ys[base + k]) is Some);
    lemma_best_last_max_props(ys, sel_max_temp());
}

/// Tie-break on a maximum search: when two readings of one month are tied
/// at the overall maximal value, the later one in store order is selected —
/// the winner never sits before the later of the two.
pub proof fn lemma_max_tie_last_wins(
    store: ReadingStore,
    y: int,
    m: int,
    k1: int,
    k2: int,
    f: spec_fn(DailyTemperatureReading) -> Option<int>,
)
    requires
        1 <= m <= 12,
        0 <= k1 < k2 < month_seq(store, y, m).len(),
        f(month_seq(store, y, m)[k1]) is Some,
        f(month_seq(store, y, m)[k2]) is Some,
        f(month_seq(store, y, m)[k1])->0 == f(month_seq(store, y, m)[k2])->0,
        forall|i: int|
            0 <= i < year_seq(store, y).len() && f(year_seq(store, y)[i]) is Some ==> f(
                year_seq(store, y)[i],
            )->0 <= f(month_seq(store, y, m)[k1])->0,
    ensures
        ({
            let base = year_seq_upto(store, y, m - 1).len();
            &&& best_last_max(year_seq(store, y), f) matches Some(w)
            &&& w >= base + k2
            &&& f(year_seq(store, y)[w])->0 == f(month_seq(store, y, m)[k1])->0
        }),
{
    let ys = year_seq(store, y);
    let base = year_seq_upto(store, y, m - 1).len();
    lemma_month_reading_in_year(store, y, m, k1);
    lemma_month_reading_in_year(store, y, m, k2);
    lemma_best_last_max_props(ys, f);
    assert(best_last_max(ys, f) is Some);
    let w = best_last_max(ys, f)->0;
    assert(f(ys[base + k2]) is Some);
    assert(f(ys[base + k2])->0 <= f(ys[w])->0);
    assert(f(ys[w])->0 <= f(month_seq(store, y, m)[k1])->0);
    if w < base + k2 {
        assert(f(ys[base + k2])->0 < f(ys[w])->0);
        assert(false);
    }
}

/// Tie-break on a minimum search: when two readings of one month are tied
/// at the overall minimal value, the earlier one in store order is selected —
/// the winner never sits after the earlier of the two.
pub proof fn lemma_min_tie_first_wins(
    store: ReadingStore,
    y: int,
    m: int,
    k1: int,
    k2: int,
    f: spec_fn(DailyTemperatureReading) -> Option<int>,
)
    requires
        1 <= m <= 12,
        0 <= k1 < k2 < month_seq(store, y, m).len(),
        f(month_seq(store, y, m)[k1]) is Some,
        f(month_seq(store, y, m)[k2]) is Some,
        f(month_seq(store, y, m)[k1])->0 == f(month_seq(store, y, m)[k2])->0,
        forall|i: int|
            0 <= i < year_seq(store, y).len() && f(year_seq(store, y)[i]) is Some ==> f(
                year_seq(store, y)[i],
            )->0 >= f(month_seq(store, y, m)[k1])->0,
    ensures
        ({
            let base = year_seq_upto(store, y, m - 1).len();
            &&& best_first_min(year_seq(store, y), f) matches Some(w)
            &&& w <= base + k1
            &&& f(year_seq(store, y)[w])->0 == f(month_seq(store, y, m)[k1])->0
        }),
{
    let ys = year_seq(store, y);
    let base = year_seq_upto(store, y, m - 1).len();
    lemma_month_reading_in_year(store, y, m, k1);
    lemma_month_reading_in_year(store, y, m, k2);
    lemma_best_first_min_props(ys, f);
    assert(best_first_min(ys, f) is Some);
    let w = best_first_min(ys, f)->0;
    assert(f(ys[base + k1]) is Some);
    assert(f(ys[base + k1])->0 >= f(ys[w])->0);
    assert(f(ys[w])->0 >= f(month_seq(store, y, m)[k1])->0);
    if w > base + k1 {
        assert(f(ys[base + k1])->0 > f(ys[w])->0);
        assert(false);
    }
}

/// A yearly result is a pure function of the store and the year: any two
/// results that meet the yearly contract for the same store and year are
/// identical.
pub proof fn lemma_yearly_deterministic(
    store: ReadingStore,
    y: int,
    r1: Result<YearlyCalculation, CalculationError>,
    r2: Result<YearlyCalculation, CalculationError>,
)
    requires
        yearly_result_spec(store, y, r1),
        yearly_result_spec(store, y, r2),
    ensures
        r1 == r2,
{
    if year_present(store, y) {
        let c1 = r1->Ok_0;
        let c2 = r2->Ok_0;
        assert(c1.highest_temperature_with_date == c2.highest_temperature_with_date);
        assert(c1.lowest_temperature_with_date == c2.lowest_temperature_with_date);
        assert(c1.max_humidity_with_date == c2.max_humidity_with_date);
    }
}

/// A monthly result is a pure function of the store and the query key: any
/// two results that meet the monthly contract for the same store, year and
/// month agree on every field, the chart readings included.
pub proof fn lemma_monthly_deterministic(
    store: ReadingStore,
    y: int,
    m: int,
    r1: Result<MonthlyCalculation, CalculationError>,
    r2: Result<MonthlyCalculation, CalculationError>,
)
    requires
        monthly_result_spec(store, y, m, r1),
        monthly_result_spec(store, y, m, r2),
    ensures
        r1 is Ok <==> r2 is Ok,
        r1 matches Err(e1) ==> r2 matches Err(e2) && e1 == e2,
        r1 matches Ok(c1) ==> r2 matches Ok(c2) && {
            &&& c1.highest_mean_temperature == c2.highest_mean_temperature
            &&& c1.lowest_mean_temperature == c2.lowest_mean_temperature
            &&& c1.average_humidity == c2.average_humidity
            &&& c1.readings_for_chart@ == c2.readings_for_chart@
        },
{
}

} // verus!
