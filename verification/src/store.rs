//! The reading store: daily readings grouped by `(year, month)` key.
//!
//! The store is built once by a fold over decoded records, is read-only
//! afterwards, and never creates a key by itself. Lookup is a linear scan;
//! every query the aggregators make is linear anyway.

use vstd::prelude::*;

use crate::reading::DailyTemperatureReading;

verus! {

/// One key of the store: a calendar month together with the readings filed
/// under it, in insertion order.
pub struct MonthReadings {
    pub year: u16,
    pub month: u8,
    pub readings: Vec<DailyTemperatureReading>,
}

/// Mapping from `(year, month)` to the ordered readings of that month.
pub struct ReadingStore {
    pub entries: Vec<MonthReadings>,
}

/// The readings filed under `(y, m)` in `s`, taking the first entry whose
/// key matches; `None` when no entry does.
pub open spec fn seq_find(s: Seq<MonthReadings>, y: int, m: int) -> Option<
    Seq<DailyTemperatureReading>,
>
    decreases s.len(),
{
    if s.len() == 0 {
        None
    } else if s[0].year == y && s[0].month == m {
        Some(s[0].readings@)
    } else {
        seq_find(s.drop_first(), y, m)
    }
}

/// No two entries share a `(year, month)` key.
pub open spec fn keys_unique(s: Seq<MonthReadings>) -> bool {
    forall|i: int, j: int|
        0 <= i < j < s.len() ==> !(s[i].year == s[j].year && s[i].month == s[j].month)
}

/// Every entry's month lies in calendar range.
pub open spec fn months_in_range(s: Seq<MonthReadings>) -> bool {
    forall|i: int| 0 <= i < s.len() ==> 1 <= #[trigger] s[i].month <= 12
}

/// Skipping a prefix that holds no matching key leaves the lookup result
/// unchanged.
proof fn lemma_seq_find_skip(s: Seq<MonthReadings>, y: int, m: int, n: int)
    requires
        0 <= n <= s.len(),
        forall|k: int| 0 <= k < n ==> !(#[trigger] s[k].year == y && s[k].month == m),
    ensures
        seq_find(s, y, m) == seq_find(s.skip(n), y, m),
    decreases n,
{
    if n == 0 {
        assert(s.skip(0) =~= s);
    } else {
        assert(!(s[0].year == y && s[0].month == m));
        assert(s.len() > 0);
        let t = s.drop_first();
        assert(forall|k: int| 0 <= k < n - 1 ==> !(#[trigger] t[k].year == y && t[k].month == m));
        lemma_seq_find_skip(t, y, m, n - 1);
        assert(t.skip(n - 1) =~= s.skip(n));
    }
}

/// Appending an entry changes the lookup result only for the appended key,
/// and only when that key was absent.
proof fn lemma_seq_find_push(s: Seq<MonthReadings>, e: MonthReadings, y: int, m: int)
    ensures
        seq_find(s.push(e), y, m) == (if seq_find(s, y, m) is Some {
            seq_find(s, y, m)
        } else if e.year == y && e.month == m {
            Some(e.readings@)
        } else {
            None::<Seq<DailyTemperatureReading>>
        }),
    decreases s.len(),
{
    let sp = s.push(e);
    assert(sp.len() == s.len() + 1);
    if s.len() == 0 {
        assert(sp[0] == e);
        assert(seq_find(s, y, m) is None);
        if e.year == y && e.month == m {
            assert(seq_find(sp, y, m) == Some(e.readings@));
        } else {
            assert(sp.drop_first() =~= Seq::<MonthReadings>::empty());
            assert(seq_find(Seq::<MonthReadings>::empty(), y, m) is None);
            assert(seq_find(sp, y, m) is None);
        }
    } else {
        assert(sp[0] == s[0]);
        if s[0].year == y && s[0].month == m {
            assert(seq_find(sp, y, m) == Some(s[0].readings@));
            assert(seq_find(s, y, m) == Some(s[0].readings@));
        } else {
            assert(sp.drop_first() =~= s.drop_first().push(e));
            lemma_seq_find_push(s.drop_first(), e, y, m);
        }
    }
}

/// Replacing the entry at `i` with one that keeps its key changes the lookup
/// result only for that key, as long as keys are unique.
proof fn lemma_seq_find_update(
    s: Seq<MonthReadings>,
    i: int,
    e: MonthReadings,
    y: int,
    m: int,
)
    requires
        0 <= i < s.len(),
        e.year == s[i].year,
        e.month == s[i].month,
        keys_unique(s),
    ensures
        seq_find(s.update(i, e), y, m) == (if s[i].year == y && s[i].month == m {
            Some(e.readings@)
        } else {
            seq_find(s, y, m)
        }),
    decreases s.len(),
{
    let s2 = s.update(i, e);
    if i == 0 {
        assert(s2[0] == e);
        if e.year == y && e.month == m {
        } else {
            assert(s2.drop_first() =~= s.drop_first());
        }
    } else {
        assert(s2[0] == s[0]);
        if s[0].year == y && s[0].month == m {
            // Uniqueness: entry i keeps a different key, so the answer is
            // still the front entry on both sides.
            assert(!(s[i].year == y && s[i].month == m));
        } else {
            let t = s.drop_first();
            assert(keys_unique(t)) by {
                assert(forall|p: int, q: int|
                    0 <= p < q < t.len() ==> t[p] == s[p + 1] && t[q] == s[q + 1]);
            }
            assert(s2.drop_first() =~= t.update(i - 1, e));
            assert(t[i - 1] == s[i]);
            lemma_seq_find_update(t, i - 1, e, y, m);
        }
    }
}

impl ReadingStore {
    /// Well-formed: unique keys, months in calendar range.
    pub open spec fn wf(self) -> bool {
        &&& keys_unique(self.entries@)
        &&& months_in_range(self.entries@)
    }

    /// The readings stored under `(y, m)`, or `None` when the key is absent.
    pub open spec fn spec_get(self, y: int, m: int) -> Option<Seq<DailyTemperatureReading>> {
        seq_find(self.entries@, y, m)
    }

    pub fn new() -> (s: ReadingStore)
        ensures
            s.wf(),
            forall|y: int, m: int| s.spec_get(y, m) is None,
    {
        ReadingStore { entries: Vec::new() }
    }

    /// Look a month up. No entry is ever created by a lookup.
    pub fn get(&self, year: u16, month: u8) -> (r: Option<&Vec<DailyTemperatureReading>>)
        ensures
            match r {
                Some(v) => self.spec_get(year as int, month as int) == Some(v@),
                None => self.spec_get(year as int, month as int) is None,
            },
    {
        let n: usize = self.entries.len();
        let mut i: usize = 0;
        while i < n
            invariant
                n == self.entries@.len(),
                0 <= i <= n,
                forall|k: int|
                    0 <= k < i ==> !(#[trigger] self.entries@[k].year == year
                        && self.entries@[k].month == month),
            decreases n - i,
        {
            let e = &self.entries[i];
            if e.year == year && e.month == month {
                proof {
                    lemma_seq_find_skip(self.entries@, year as int, month as int, i as int);
                    assert(self.entries@.skip(i as int)[0] == self.entries@[i as int]);
                }
                return Some(&e.readings);
            }
            i += 1;
        }
        proof {
            lemma_seq_find_skip(self.entries@, year as int, month as int, n as int);
            assert(self.entries@.skip(n as int) =~= Seq::<MonthReadings>::empty());
        }
        None
    }

    /// One fold step of building the store: file `reading` under
    /// `(year, month)`, appending to the month's sequence or opening the key.
    /// A month outside calendar range is refused and the store is unchanged.
    pub fn add(&mut self, year: u16, month: u8, reading: DailyTemperatureReading) -> (ok: bool)
        requires
            old(self).wf(),
        ensures
            final(self).wf(),
            ok <==> 1 <= month <= 12,
            !ok ==> *final(self) == *old(self),
            ok ==> final(self).spec_get(year as int, month as int) == Some(
                (match old(self).spec_get(year as int, month as int) {
                    Some(s) => s,
                    None => Seq::<DailyTemperatureReading>::empty(),
                }).push(reading),
            ),
            ok ==> forall|y: int, m: int|
                !(y == year as int && m == month as int) ==> #[trigger] final(self).spec_get(y, m)
                    == old(self).spec_get(y, m),
    {
        if month < 1 || month > 12 {
            return false;
        }
        let n: usize = self.entries.len();
        let mut i: usize = 0;
        while i < n
            invariant
                n == self.entries@.len(),
                0 <= i <= n,
                self.wf(),
                *self == *old(self),
                forall|k: int|
                    0 <= k < i ==> !(#[trigger] self.entries@[k].year == year
                        && self.entries@[k].month == month),
            decreases n - i,
        {
            if self.entries[i].year == year && self.entries[i].month == month {
                proof {
                    lemma_seq_find_skip(self.entries@, year as int, month as int, i as int);
                    assert(self.entries@.skip(i as int)[0] == self.entries@[i as int]);
                }
                let ghost before = self.entries@;
                let entry = &mut self.entries[i];
                entry.readings.push(reading);
                proof {
                    let after = self.entries@;
                    let ii = i as int;
                    assert(after == before.update(ii, after[ii]));
                    assert(after[ii].year == year && after[ii].month == month);
                    assert(after[ii].readings@ == before[ii].readings@.push(reading));
                    assert forall|y: int, m: int| #[trigger] seq_find(after, y, m) == (if year
                        == y && month == m {
                        Some(after[ii].readings@)
                    } else {
                        seq_find(before, y, m)
                    }) by {
                        lemma_seq_find_update(before, ii, after[ii], y, m);
                    }
                    assert forall|p: int, q: int| 0 <= p < q < after.len() implies !(after[p].year
                        == after[q].year && after[p].month == after[q].month) by {
                        assert(after[p].year == before[p].year && after[p].month
                            == before[p].month);
                        assert(after[q].year == before[q].year && after[q].month
                            == before[q].month);
                    }
                    assert forall|k: int| 0 <= k < after.len() implies 1 <= #[trigger] after[k].month
                        <= 12 by {
                        assert(after[k].month == before[k].month);
                    }
                }
                return true;
            }
            i += 1;
        }
        proof {
            lemma_seq_find_skip(self.entries@, year as int, month as int, n as int);
            assert(self.entries@.skip(n as int) =~= Seq::<MonthReadings>::empty());
        }
        let ghost before = self.entries@;
        let mut readings: Vec<DailyTemperatureReading> = Vec::new();
        readings.push(reading);
        let entry = MonthReadings { year, month, readings };
        self.entries.push(entry);
        proof {
            let after = self.entries@;
            let e = after[after.len() - 1];
            assert(after == before.push(e));
            assert(e.year == year && e.month == month);
            assert(e.readings@ =~= Seq::<DailyTemperatureReading>::empty().push(reading));
            assert(seq_find(before, year as int, month as int) is None);
            assert forall|y: int, m: int| #[trigger] seq_find(after, y, m) == (if seq_find(
                before,
                y,
                m,
            ) is Some {
                seq_find(before, y, m)
            } else if year == y && month == m {
                Some(e.readings@)
            } else {
                None::<Seq<DailyTemperatureReading>>
            }) by {
                lemma_seq_find_push(before, e, y, m);
            }
            assert forall|p: int, q: int| 0 <= p < q < after.len() implies !(after[p].year
                == after[q].year && after[p].month == after[q].month) by {
                if q < after.len() - 1 {
                    assert(after[p] == before[p] && after[q] == before[q]);
                } else {
                    assert(after[p] == before[p]);
                    assert(after[q] == e);
                }
            }
            assert forall|k: int| 0 <= k < after.len() implies 1 <= #[trigger] after[k].month
                <= 12 by {
                if k < after.len() - 1 {
                    assert(after[k] == before[k]);
                }
            }
        }
        true
    }
}

} // verus!
