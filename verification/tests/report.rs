//! Report text tests: the three-line yearly and monthly summaries.

use weatherman::calculate::{MonthlyCalculation, YearlyCalculation};
use weatherman::reading::{DailyTemperatureReading, Date};
use weatherman::store::ReadingStore;

fn blank() -> DailyTemperatureReading {
    DailyTemperatureReading::empty()
}

#[test]
fn yearly_summary_three_lines() {
    let mut store = ReadingStore::new();
    let r1 = DailyTemperatureReading {
        date: Some(Date::new(2024, 1, 1)),
        max_temperature: Some(10),
        min_temperature: Some(2),
        max_humidity: Some(80),
        ..blank()
    };
    let r2 = DailyTemperatureReading {
        date: Some(Date::new(2024, 1, 2)),
        max_temperature: Some(15),
        min_temperature: Some(5),
        max_humidity: Some(90),
        ..blank()
    };
    assert!(store.add(2024, 1, r1));
    assert!(store.add(2024, 1, r2));
    let c = YearlyCalculation::calculate(2024, &store).unwrap();
    assert_eq!(
        c.summary(),
        "Highest: 15C on Jan 02\nLowest: 2C on Jan 01\nHumid: 90% on Jan 02"
    );
}

#[test]
fn yearly_summary_notes_missing_metrics() {
    let mut store = ReadingStore::new();
    let r = DailyTemperatureReading {
        date: Some(Date::new(2024, 12, 25)),
        max_temperature: Some(-3),
        ..blank()
    };
    assert!(store.add(2024, 12, r));
    let c = YearlyCalculation::calculate(2024, &store).unwrap();
    assert_eq!(
        c.summary(),
        "Highest: -3C on Dec 25\nLowest: no available reading\nHumid: no available reading"
    );
}

#[test]
fn monthly_summary_three_lines() {
    let mut store = ReadingStore::new();
    let r1 = DailyTemperatureReading {
        mean_temperature: Some(10),
        mean_humidity: Some(50),
        ..blank()
    };
    let r2 = DailyTemperatureReading {
        mean_temperature: Some(20),
        mean_humidity: Some(60),
        ..blank()
    };
    assert!(store.add(2024, 1, r1));
    assert!(store.add(2024, 1, r2));
    let c = MonthlyCalculation::calculate(2024, 1, &store).unwrap();
    assert_eq!(
        c.summary(),
        "Highest Average: 20C\nLowest Average: 10C\nAverage Humidity: 55%"
    );
}

#[test]
fn monthly_summary_negative_means() {
    let mut store = ReadingStore::new();
    let r = DailyTemperatureReading {
        mean_temperature: Some(-7),
        ..blank()
    };
    assert!(store.add(2024, 2, r));
    let c = MonthlyCalculation::calculate(2024, 2, &store).unwrap();
    assert_eq!(
        c.summary(),
        "Highest Average: -7C\nLowest Average: -7C\nAverage Humidity: 0%"
    );
}
