use dbmonitor::batch::{BatchEvent, BatchProcessor, FlushOutcome};
use dbmonitor::migrate::newly_applied;
use dbmonitor::numfmt::u64_to_decimal;
use dbmonitor::reading::Reading;
use dbmonitor::render::{seconds_ago_text, short_version, tenths_text};
use dbmonitor::sql::{build_bulk_insert, single_insert_statement};

#[test]
fn decimal_rendering_is_exact() {
    assert_eq!(u64_to_decimal(0), "0");
    assert_eq!(u64_to_decimal(7), "7");
    assert_eq!(u64_to_decimal(10), "10");
    assert_eq!(u64_to_decimal(604), "604");
    assert_eq!(u64_to_decimal(u64::MAX), "18446744073709551615");
}

#[test]
fn single_row_statement_is_the_one_row_bulk_statement() {
    let single = single_insert_statement();
    let bulk = build_bulk_insert(1);
    assert_eq!(single, bulk);
    assert_eq!(
        single,
        "INSERT INTO decibel_logs (decibels, fk_device_id, created_at) VALUES ($1, $2, $3)"
    );
}

#[test]
fn bulk_statement_numbers_three_parameters_per_row() {
    assert_eq!(
        build_bulk_insert(2),
        "INSERT INTO decibel_logs (decibels, fk_device_id, created_at) VALUES \
         ($1, $2, $3), ($4, $5, $6)"
    );
    let ten = build_bulk_insert(10);
    assert!(ten.ends_with("($28, $29, $30)"));
    assert_eq!(ten.matches("(").count(), 11);
}

#[test]
fn flush_statement_matches_the_batch_size() {
    let mut p = BatchProcessor::new();
    for i in 0..3u64 {
        p.on_event(BatchEvent::Received(Reading {
            device_id: 1,
            decibels_tenths: 500,
            timestamp_ms: i,
        }));
    }
    assert_eq!(
        p.flush_statement(),
        "INSERT INTO decibel_logs (decibels, fk_device_id, created_at) VALUES \
         ($1, $2, $3), ($4, $5, $6), ($7, $8, $9)"
    );
    p.apply_flush_outcome(FlushOutcome::Written);
}

#[test]
fn tenths_render_with_one_decimal_place() {
    assert_eq!(tenths_text(592), "59.2");
    assert_eq!(tenths_text(600), "60.0");
    assert_eq!(tenths_text(5), "0.5");
    assert_eq!(tenths_text(0), "0.0");
    assert_eq!(tenths_text(-15), "-1.5");
    assert_eq!(tenths_text(-3), "-0.3");
}

#[test]
fn seconds_ago_phrasing() {
    assert_eq!(seconds_ago_text(0), "just now");
    assert_eq!(seconds_ago_text(1), "1 second ago");
    assert_eq!(seconds_ago_text(2), "2 seconds ago");
    assert_eq!(seconds_ago_text(59), "59 seconds ago");
}

#[test]
fn newly_applied_reports_only_the_fresh_versions_in_order() {
    let pre = vec![1, 2];
    let post = vec![
        (1, String::from("initial")),
        (2, String::from("devices")),
        (3, String::from("logs")),
        (4, String::from("indexes")),
    ];
    let fresh = newly_applied(&pre, &post);
    assert_eq!(
        fresh,
        vec![(3, String::from("logs")), (4, String::from("indexes"))]
    );
}

#[test]
fn newly_applied_is_empty_when_nothing_ran() {
    let pre = vec![1, 2, 3];
    let post = vec![
        (1, String::from("initial")),
        (2, String::from("devices")),
        (3, String::from("logs")),
    ];
    assert_eq!(newly_applied(&pre, &post), vec![]);
}

#[test]
fn version_banner_shortens_to_its_first_two_words() {
    let banner = b"PostgreSQL 16.1 on x86_64-pc-linux-gnu, compiled by gcc";
    assert_eq!(short_version(banner), b"PostgreSQL 16.1".to_vec());
    assert_eq!(short_version(b"  lone "), b"lone".to_vec());
    assert_eq!(short_version(b"a\t b"), b"a b".to_vec());
    assert_eq!(short_version(b"   "), Vec::<u8>::new());
    assert_eq!(short_version(b""), Vec::<u8>::new());
}
