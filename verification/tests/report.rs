use ergothic::report::{decimal_text, Report};
use prettytable::Table;

#[test]
fn decimal_text_writes_a_number_without_leading_zeros() {
    assert_eq!(decimal_text(0), "0");
    assert_eq!(decimal_text(7), "7");
    assert_eq!(decimal_text(9), "9");
    assert_eq!(decimal_text(10), "10");
    assert_eq!(decimal_text(99), "99");
    assert_eq!(decimal_text(100), "100");
    assert_eq!(decimal_text(1234567890), "1234567890");
    assert_eq!(decimal_text(u64::MAX), "18446744073709551615");
    for n in [0u64, 1, 5, 19, 20, 101, 4096, 999_999, 1_000_000, u64::MAX - 1] {
        assert_eq!(decimal_text(n), n.to_string());
    }
}

#[test]
fn heading_names_the_uptime_and_the_samples() {
    let report = Report { uptime: 0, samples_processed: 0, table: Table::new() };
    assert_eq!(
        report.heading(),
        "\nSimulation uptime: 0 secs\nSamples processed: 0\nAggregate values:\n"
    );
    let report = Report { uptime: 86400, samples_processed: u64::MAX, table: Table::new() };
    assert_eq!(
        report.heading(),
        "\nSimulation uptime: 86400 secs\nSamples processed: 18446744073709551615\n\
         Aggregate values:\n"
    );
}
