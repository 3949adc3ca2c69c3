//! The chart renderer: one month's readings as a dual bar chart.
//!
//! Every reading yields two lines, one per temperature metric, in stored
//! day order; a missing metric yields a "no available reading" line instead
//! of a bar. The marker count of a bar equals the stored temperature
//! exactly — zero or negative values give an empty bar, never a clamped or
//! rounded one.

use vstd::prelude::*;

use crate::calculate::MonthlyCalculation;
use crate::reading::DailyTemperatureReading;
use crate::text::dec_seq;
use crate::text::decimal_text;
use crate::text::month_name_seq;
use crate::text::month_name_text;
use crate::text::value_seq;
use crate::text::value_text;

verus! {

/// Which of the two bars of a day a line belongs to. The two are
/// structurally identical and are told apart only by display styling
/// (highest conventionally red, lowest blue).
#[derive(Clone, Copy, Debug, PartialEq, Eq, Structural)]
pub enum BarKind {
    Highest,
    Lowest,
}

/// One line of the chart, as data; turning it into styled text is the
/// caller's display concern.
#[derive(Clone, Copy, Debug, PartialEq, Eq, Structural)]
pub enum ChartLine {
    /// The month/year heading, emitted once, from the first reading's date.
    Header { year: u16, month: u8 },
    /// A bar: the day-of-month label (absent for a value-only reading),
    /// the stored temperature, and the number of markers to draw.
    Bar { day: Option<u8>, value: i8, markers: u8, kind: BarKind },
    /// Emitted in place of a bar when the reading lacks the metric.
    NoData { day: Option<u8>, kind: BarKind },
}

/// How many markers a bar for temperature `v` carries: one per degree,
/// none for zero or negative values.
pub open spec fn marker_count(v: i8) -> int {
    if v >= 0 {
        v as int
    } else {
        0
    }
}

/// The day-of-month label a reading's lines carry.
pub open spec fn day_of(r: DailyTemperatureReading) -> Option<u8> {
    match r.date {
        Some(d) => Some(d.day),
        None => None,
    }
}

/// The line one metric of one reading yields.
pub open spec fn bar_line(r: DailyTemperatureReading, kind: BarKind, field: Option<i8>) -> ChartLine {
    match field {
        Some(v) => ChartLine::Bar {
            day: day_of(r),
            value: v,
            markers: marker_count(v) as u8,
            kind,
        },
        None => ChartLine::NoData { day: day_of(r), kind },
    }
}

/// The two lines of one reading: its highest-temperature bar, then its
/// lowest-temperature bar.
pub open spec fn reading_lines(r: DailyTemperatureReading) -> Seq<ChartLine> {
    seq![
        bar_line(r, BarKind::Highest, r.max_temperature),
        bar_line(r, BarKind::Lowest, r.min_temperature),
    ]
}

/// The body of the chart: two lines per reading, in stored order.
pub open spec fn body_lines(s: Seq<DailyTemperatureReading>) -> Seq<ChartLine>
    decreases s.len(),
{
    if s.len() == 0 {
        Seq::<ChartLine>::empty()
    } else {
        body_lines(s.drop_last()) + reading_lines(s[s.len() - 1])
    }
}

/// The heading, derived from the first reading's date; a value-only first
/// reading gives the chart no heading to derive.
pub open spec fn header_lines(r: DailyTemperatureReading) -> Seq<ChartLine> {
    match r.date {
        Some(d) => seq![ChartLine::Header { year: d.year, month: d.month }],
        None => Seq::<ChartLine>::empty(),
    }
}

/// The whole chart of a reading sequence.
pub open spec fn chart_spec(s: Seq<DailyTemperatureReading>) -> Seq<ChartLine> {
    if s.len() == 0 {
        Seq::<ChartLine>::empty()
    } else {
        header_lines(s[0]) + body_lines(s)
    }
}

impl MonthlyCalculation {
    /// Lay the month's chart out, line by line, over the readings kept for
    /// charting.
    pub fn chart_lines(&self) -> (out: Vec<ChartLine>)
        ensures
            out@ == chart_spec(self.readings_for_chart@),
    {
        let s = &self.readings_for_chart;
        let n: usize = s.len();
        let mut out: Vec<ChartLine> = Vec::new();
        if n == 0 {
            proof {
                assert(out@ =~= chart_spec(s@));
            }
            return out;
        }
        let first = s[0];
        if let Some(d) = first.date {
            out.push(ChartLine::Header { year: d.year, month: d.month });
        }
        proof {
            assert(body_lines(s@.take(0)) =~= Seq::<ChartLine>::empty());
            assert(out@ =~= header_lines(s@[0]) + body_lines(s@.take(0)));
        }
        let mut j: usize = 0;
        while j < n
            invariant
                n == s@.len(),
                n > 0,
                0 <= j <= n,
                out@ == header_lines(s@[0]) + body_lines(s@.take(j as int)),
            decreases n - j,
        {
            let rd = s[j];
            let ghost p = s@.take(j as int);
            let ghost p2 = s@.take(j as int + 1);
            proof {
                assert(p2.drop_last() =~= p);
                assert(p2[p2.len() - 1] == rd);
            }
            match rd.max_temperature {
                Some(v) => {
                    let markers: u8 = if v >= 0 {
                        v as u8
                    } else {
                        0
                    };
                    out.push(
                        ChartLine::Bar { day: day_number(&rd), value: v, markers, kind: BarKind::Highest },
                    );
                },
                None => {
                    out.push(ChartLine::NoData { day: day_number(&rd), kind: BarKind::Highest });
                },
            }
            match rd.min_temperature {
                Some(v) => {
                    let markers: u8 = if v >= 0 {
                        v as u8
                    } else {
                        0
                    };
                    out.push(
                        ChartLine::Bar { day: day_number(&rd), value: v, markers, kind: BarKind::Lowest },
                    );
                },
                None => {
                    out.push(ChartLine::NoData { day: day_number(&rd), kind: BarKind::Lowest });
                },
            }
            proof {
                assert(body_lines(p2) == body_lines(p) + reading_lines(rd));
                assert(out@ =~= header_lines(s@[0]) + body_lines(p2));
            }
            j += 1;
        }
        proof {
            assert(s@.take(n as int) =~= s@);
        }
        out
    }
}

/// The day-of-month label of a reading's lines, where its date carries one.
fn day_number(r: &DailyTemperatureReading) -> (d: Option<u8>)
    ensures
        d == day_of(*r),
{
    match &r.date {
        Some(d) => Some(d.day),
        None => None,
    }
}

/// A run of `n` bar markers.
pub open spec fn marker_seq(n: int) -> Seq<char> {
    Seq::new(if n >= 0 {
        n as nat
    } else {
        0
    }, |i: int| '+')
}

/// `count` markers as text.
fn marker_text(count: u8) -> (s: String)
    ensures
        s@ == marker_seq(count as int),
{
    let mut s = String::new();
    let mut k: u8 = 0;
    proof {
        reveal_strlit("+");
    }
    while k < count
        invariant
            0 <= k <= count,
            s@ =~= marker_seq(k as int),
        decreases count - k,
    {
        s.append("+");
        proof {
            reveal_strlit("+");
            assert(s@ =~= marker_seq(k as int + 1));
        }
        k += 1;
    }
    proof {
        assert(s@ =~= marker_seq(count as int));
    }
    s
}

/// The markers of one bar as text: one `+` per degree, none for zero or
/// negative temperatures.
pub fn temperature_bar(value: i8) -> (s: String)
    ensures
        s@ == marker_seq(marker_count(value)),
{
    if value <= 0 {
        let s = String::new();
        proof {
            assert(s@ =~= marker_seq(marker_count(value)));
        }
        s
    } else {
        marker_text(value as u8)
    }
}

/// The day-of-month label of a chart line: the day number, or `?` for a
/// value-only reading that carries no date.
pub open spec fn day_label_seq(day: Option<u8>) -> Seq<char> {
    match day {
        Some(d) => dec_seq(d as int),
        None => seq!['?'],
    }
}

fn day_label_text(day: Option<u8>) -> (s: String)
    ensures
        s@ == day_label_seq(day),
{
    match day {
        Some(d) => {
            let s = decimal_text(d as u16);
            proof {
                assert(s@ =~= day_label_seq(day));
            }
            s
        },
        None => {
            let s = String::from_str("?");
            proof {
                reveal_strlit("?");
                assert(s@ =~= day_label_seq(day));
            }
            s
        },
    }
}

/// One chart line as plain text: `Month YYYY` for the heading, `day markers
/// valueC` for a bar, and a note in place of a bar for a missing metric.
pub open spec fn line_text_spec(line: ChartLine) -> Seq<char> {
    match line {
        ChartLine::Header { year, month } => month_name_seq(month as int) + seq![' ']
            + dec_seq(year as int),
        ChartLine::Bar { day, value, markers, kind } => day_label_seq(day) + seq![' ']
            + marker_seq(markers as int) + seq![' '] + value_seq(value as int) + seq!['C'],
        ChartLine::NoData { day, kind } => day_label_seq(day) + seq![' ']
            + "no available reading"@,
    }
}

impl ChartLine {
    pub fn text(&self) -> (s: String)
        ensures
            s@ == line_text_spec(*self),
    {
        proof {
            reveal_strlit(" ");
            reveal_strlit("C");
        }
        match self {
            ChartLine::Header { year, month } => {
                let mut s = String::from_str(month_name_text(*month));
                s.append(" ");
                let y = decimal_text(*year);
                s.append(y.as_str());
                proof {
                    assert(s@ =~= line_text_spec(*self));
                }
                s
            },
            ChartLine::Bar { day, value, markers, kind } => {
                let mut s = day_label_text(*day);
                s.append(" ");
                let bar = marker_text(*markers);
                s.append(bar.as_str());
                s.append(" ");
                let v = value_text(*value);
                s.append(v.as_str());
                s.append("C");
                proof {
                    assert(s@ =~= line_text_spec(*self));
                }
                s
            },
            ChartLine::NoData { day, kind } => {
                let mut s = day_label_text(*day);
                s.append(" ");
                s.append("no available reading");
                proof {
                    assert(s@ =~= line_text_spec(*self));
                }
                s
            },
        }
    }
}

impl MonthlyCalculation {
    /// The whole chart as text, one line per entry of `chart_lines`.
    pub fn chart_text(&self) -> (out: Vec<String>)
        ensures
            out@.len() == chart_spec(self.readings_for_chart@).len(),
            forall|i: int|
                0 <= i < out@.len() ==> out@[i]@ == line_text_spec(
                    #[trigger] chart_spec(self.readings_for_chart@)[i],
                ),
    {
        let lines = self.chart_lines();
        let mut out: Vec<String> = Vec::new();
        let n: usize = lines.len();
        let mut i: usize = 0;
        while i < n
            invariant
                n == lines@.len(),
                lines@ == chart_spec(self.readings_for_chart@),
                0 <= i <= n,
                out@.len() == i,
                forall|k: int|
                    0 <= k < i ==> out@[k]@ == line_text_spec(#[trigger] lines@[k]),
            decreases n - i,
        {
            let line = &lines[i];
            out.push(line.text());
            i += 1;
        }
        out
    }
}

} // verus!
