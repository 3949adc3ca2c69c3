//! Aggregation engine tests: the store, the yearly extremes and the monthly
//! averages.

use weatherman::calculate::{CalculationError, MonthlyCalculation, YearlyCalculation};
use weatherman::reading::{DailyTemperatureReading, Date};
use weatherman::store::ReadingStore;

fn empty_reading() -> DailyTemperatureReading {
    DailyTemperatureReading::empty()
}

fn dated(year: u16, month: u8, day: u8) -> DailyTemperatureReading {
    DailyTemperatureReading {
        date: Some(Date::new(year, month, day)),
        ..empty_reading()
    }
}

#[test]
fn yearly_extremes_across_one_month() {
    let mut store = ReadingStore::new();
    let r1 = DailyTemperatureReading {
        max_temperature: Some(10),
        min_temperature: Some(2),
        max_humidity: Some(80),
        ..dated(2024, 1, 1)
    };
    let r2 = DailyTemperatureReading {
        max_temperature: Some(15),
        min_temperature: Some(5),
        max_humidity: Some(90),
        ..dated(2024, 1, 2)
    };
    assert!(store.add(2024, 1, r1));
    assert!(store.add(2024, 1, r2));

    let c = YearlyCalculation::calculate(2024, &store).unwrap();
    let high = c.highest_temperature_with_date.unwrap();
    assert_eq!(high.value, 15);
    assert_eq!(high.date, Some(Date { year: 2024, month: 1, day: 2 }));
    let low = c.lowest_temperature_with_date.unwrap();
    assert_eq!(low.value, 2);
    assert_eq!(low.date, Some(Date { year: 2024, month: 1, day: 1 }));
    let hum = c.max_humidity_with_date.unwrap();
    assert_eq!(hum.value, 90);
    assert_eq!(hum.date, Some(Date { year: 2024, month: 1, day: 2 }));
}

#[test]
fn yearly_extremes_pick_independently_across_months() {
    let mut store = ReadingStore::new();
    let r1 = DailyTemperatureReading {
        max_temperature: Some(3),
        min_temperature: Some(-10),
        ..dated(2023, 2, 11)
    };
    let r2 = DailyTemperatureReading {
        max_temperature: Some(30),
        max_humidity: Some(70),
        ..dated(2023, 7, 4)
    };
    assert!(store.add(2023, 7, r2));
    assert!(store.add(2023, 2, r1));

    let c = YearlyCalculation::calculate(2023, &store).unwrap();
    assert_eq!(c.highest_temperature_with_date.unwrap().value, 30);
    assert_eq!(
        c.lowest_temperature_with_date.unwrap().date,
        Some(Date { year: 2023, month: 2, day: 11 })
    );
    assert_eq!(c.lowest_temperature_with_date.unwrap().value, -10);
    assert_eq!(c.max_humidity_with_date.unwrap().value, 70);
}

#[test]
fn yearly_not_found_when_year_has_no_months() {
    let mut store = ReadingStore::new();
    assert!(store.add(2022, 3, dated(2022, 3, 1)));
    assert_eq!(
        YearlyCalculation::calculate(2024, &store),
        Err(CalculationError::NotFound)
    );
    assert_eq!(
        YearlyCalculation::calculate(2024, &ReadingStore::new()),
        Err(CalculationError::NotFound)
    );
}

#[test]
fn yearly_found_when_any_reading_has_max_temperature() {
    let mut store = ReadingStore::new();
    let r = DailyTemperatureReading {
        max_temperature: Some(1),
        ..dated(2024, 6, 9)
    };
    assert!(store.add(2024, 6, r));
    let c = YearlyCalculation::calculate(2024, &store).unwrap();
    assert!(c.highest_temperature_with_date.is_some());
    assert!(c.lowest_temperature_with_date.is_none());
    assert!(c.max_humidity_with_date.is_none());
}

#[test]
fn yearly_metric_absent_everywhere_gives_absent_entry() {
    let mut store = ReadingStore::new();
    let r = DailyTemperatureReading {
        max_humidity: Some(44),
        ..dated(2024, 2, 2)
    };
    assert!(store.add(2024, 2, r));
    let c = YearlyCalculation::calculate(2024, &store).unwrap();
    assert!(c.highest_temperature_with_date.is_none());
    assert!(c.lowest_temperature_with_date.is_none());
    assert_eq!(c.max_humidity_with_date.unwrap().value, 44);
}

#[test]
fn max_tie_selects_later_reading() {
    let mut store = ReadingStore::new();
    let r1 = DailyTemperatureReading {
        max_temperature: Some(21),
        ..dated(2024, 1, 5)
    };
    let r2 = DailyTemperatureReading {
        max_temperature: Some(21),
        ..dated(2024, 1, 9)
    };
    assert!(store.add(2024, 1, r1));
    assert!(store.add(2024, 1, r2));
    let c = YearlyCalculation::calculate(2024, &store).unwrap();
    let high = c.highest_temperature_with_date.unwrap();
    assert_eq!(high.value, 21);
    assert_eq!(high.date, Some(Date { year: 2024, month: 1, day: 9 }));
}

#[test]
fn min_tie_selects_earlier_reading() {
    let mut store = ReadingStore::new();
    let r1 = DailyTemperatureReading {
        min_temperature: Some(-4),
        ..dated(2024, 1, 5)
    };
    let r2 = DailyTemperatureReading {
        min_temperature: Some(-4),
        ..dated(2024, 1, 9)
    };
    assert!(store.add(2024, 1, r1));
    assert!(store.add(2024, 1, r2));
    let c = YearlyCalculation::calculate(2024, &store).unwrap();
    let low = c.lowest_temperature_with_date.unwrap();
    assert_eq!(low.value, -4);
    assert_eq!(low.date, Some(Date { year: 2024, month: 1, day: 5 }));
}

#[test]
fn max_tie_across_months_selects_later_month() {
    let mut store = ReadingStore::new();
    let r1 = DailyTemperatureReading {
        max_temperature: Some(17),
        ..dated(2024, 1, 30)
    };
    let r2 = DailyTemperatureReading {
        max_temperature: Some(17),
        ..dated(2024, 4, 2)
    };
    // Insertion order of the months does not matter: iteration is 1 to 12.
    assert!(store.add(2024, 4, r2));
    assert!(store.add(2024, 1, r1));
    let c = YearlyCalculation::calculate(2024, &store).unwrap();
    assert_eq!(
        c.highest_temperature_with_date.unwrap().date,
        Some(Date { year: 2024, month: 4, day: 2 })
    );
}

#[test]
fn min_tie_across_months_selects_earlier_month() {
    let mut store = ReadingStore::new();
    let r1 = DailyTemperatureReading {
        min_temperature: Some(0),
        ..dated(2024, 1, 30)
    };
    let r2 = DailyTemperatureReading {
        min_temperature: Some(0),
        ..dated(2024, 4, 2)
    };
    assert!(store.add(2024, 4, r2));
    assert!(store.add(2024, 1, r1));
    let c = YearlyCalculation::calculate(2024, &store).unwrap();
    assert_eq!(
        c.lowest_temperature_with_date.unwrap().date,
        Some(Date { year: 2024, month: 1, day: 30 })
    );
}

#[test]
fn yearly_is_idempotent() {
    let mut store = ReadingStore::new();
    let r = DailyTemperatureReading {
        max_temperature: Some(12),
        min_temperature: Some(1),
        max_humidity: Some(55),
        ..dated(2024, 3, 3)
    };
    assert!(store.add(2024, 3, r));
    let c1 = YearlyCalculation::calculate(2024, &store);
    let c2 = YearlyCalculation::calculate(2024, &store);
    assert_eq!(c1, c2);
}

#[test]
fn monthly_means_and_average_humidity() {
    let mut store = ReadingStore::new();
    let r1 = DailyTemperatureReading {
        mean_temperature: Some(10),
        mean_humidity: Some(50),
        ..empty_reading()
    };
    let r2 = DailyTemperatureReading {
        mean_temperature: Some(20),
        mean_humidity: Some(60),
        ..empty_reading()
    };
    assert!(store.add(2024, 1, r1));
    assert!(store.add(2024, 1, r2));
    let c = MonthlyCalculation::calculate(2024, 1, &store).unwrap();
    assert_eq!(c.highest_mean_temperature, 20);
    assert_eq!(c.lowest_mean_temperature, 10);
    assert_eq!(c.average_humidity, 55);
    assert_eq!(c.readings_for_chart, vec![r1, r2]);
}

#[test]
fn average_humidity_truncates() {
    let mut store = ReadingStore::new();
    let r1 = DailyTemperatureReading {
        mean_temperature: Some(1),
        mean_humidity: Some(10),
        ..empty_reading()
    };
    let r2 = DailyTemperatureReading {
        mean_temperature: Some(2),
        mean_humidity: Some(11),
        ..empty_reading()
    };
    assert!(store.add(2024, 1, r1));
    assert!(store.add(2024, 1, r2));
    let c = MonthlyCalculation::calculate(2024, 1, &store).unwrap();
    assert_eq!(c.average_humidity, 10);
}

#[test]
fn average_humidity_divides_by_all_readings() {
    let mut store = ReadingStore::new();
    let r1 = DailyTemperatureReading {
        mean_temperature: Some(1),
        mean_humidity: Some(10),
        ..empty_reading()
    };
    // Absent humidity contributes nothing to the sum but still counts in
    // the divisor; it must not be read as a zero value.
    let r2 = DailyTemperatureReading {
        mean_temperature: Some(2),
        ..empty_reading()
    };
    assert!(store.add(2024, 1, r1));
    assert!(store.add(2024, 1, r2));
    let c = MonthlyCalculation::calculate(2024, 1, &store).unwrap();
    assert_eq!(c.average_humidity, 5);
}

#[test]
fn monthly_not_found_for_absent_key() {
    let mut store = ReadingStore::new();
    assert!(store.add(2024, 1, dated(2024, 1, 1)));
    assert_eq!(
        MonthlyCalculation::calculate(2024, 2, &store).unwrap_err(),
        CalculationError::NotFound
    );
}

#[test]
fn monthly_not_found_when_no_mean_temperature() {
    let mut store = ReadingStore::new();
    let r = DailyTemperatureReading {
        mean_humidity: Some(40),
        ..dated(2024, 1, 1)
    };
    assert!(store.add(2024, 1, r));
    assert_eq!(
        MonthlyCalculation::calculate(2024, 1, &store).unwrap_err(),
        CalculationError::NotFound
    );
}

#[test]
fn monthly_is_idempotent() {
    let mut store = ReadingStore::new();
    let r = DailyTemperatureReading {
        mean_temperature: Some(7),
        mean_humidity: Some(33),
        ..dated(2024, 5, 1)
    };
    assert!(store.add(2024, 5, r));
    let c1 = MonthlyCalculation::calculate(2024, 5, &store).unwrap();
    let c2 = MonthlyCalculation::calculate(2024, 5, &store).unwrap();
    assert_eq!(c1.highest_mean_temperature, c2.highest_mean_temperature);
    assert_eq!(c1.lowest_mean_temperature, c2.lowest_mean_temperature);
    assert_eq!(c1.average_humidity, c2.average_humidity);
    assert_eq!(c1.readings_for_chart, c2.readings_for_chart);
}

#[test]
fn store_lookup_and_order() {
    let mut store = ReadingStore::new();
    assert!(store.get(2024, 1).is_none());
    let r1 = dated(2024, 1, 1);
    let r2 = dated(2024, 1, 2);
    let r3 = dated(2024, 2, 1);
    assert!(store.add(2024, 1, r1));
    assert!(store.add(2024, 2, r3));
    assert!(store.add(2024, 1, r2));
    assert_eq!(store.get(2024, 1), Some(&vec![r1, r2]));
    assert_eq!(store.get(2024, 2), Some(&vec![r3]));
    assert!(store.get(2023, 1).is_none());
}

#[test]
fn store_refuses_month_out_of_range() {
    let mut store = ReadingStore::new();
    assert!(!store.add(2024, 0, dated(2024, 1, 1)));
    assert!(!store.add(2024, 13, dated(2024, 1, 1)));
    assert!(store.get(2024, 0).is_none());
    assert!(store.get(2024, 13).is_none());
}

#[test]
fn all_absent_reading_crashes_nothing() {
    let mut store = ReadingStore::new();
    assert!(store.add(2024, 1, empty_reading()));
    assert_eq!(
        YearlyCalculation::calculate(2024, &store),
        Ok(YearlyCalculation {
            highest_temperature_with_date: None,
            lowest_temperature_with_date: None,
            max_humidity_with_date: None,
        })
    );
    assert_eq!(
        MonthlyCalculation::calculate(2024, 1, &store).unwrap_err(),
        CalculationError::NotFound
    );
}
