use proper_rust::{timed, Delta, ErrorTagger, MetricError, MetricKind, MetricStore, NO_ERROR};

#[derive(Debug, PartialEq)]
struct DbError {
    code: u32,
}

impl ErrorTagger for DbError {
    fn error_tag(&self) -> String {
        "db-error".to_string()
    }
}

#[test]
fn one_counter_per_identity() {
    let mut store = MetricStore::new();
    for _ in 0..5 {
        assert_eq!(store.record_outcome("fetch", true, NO_ERROR, Delta::Count), Ok(()));
        assert_eq!(store.record_outcome("fetch", false, "db-error", Delta::Count), Ok(()));
        assert_eq!(store.record_outcome("fetch", false, "timeout", Delta::Count), Ok(()));
    }
    assert_eq!(store.len(), 3);
    assert_eq!(store.value("fetch", true, NO_ERROR, MetricKind::Count), Some(5));
    assert_eq!(store.value("fetch", false, "db-error", MetricKind::Count), Some(5));
    assert_eq!(store.value("fetch", false, "timeout", MetricKind::Count), Some(5));
}

#[test]
fn success_ignores_category() {
    let mut store = MetricStore::new();
    assert_eq!(store.record_outcome("op", true, "whatever", Delta::Count), Ok(()));
    assert_eq!(store.record_outcome("op", true, NO_ERROR, Delta::Count), Ok(()));
    assert_eq!(store.len(), 1);
    assert_eq!(store.value("op", true, "other", MetricKind::Count), Some(2));
}

#[test]
fn count_and_time_are_separate_counters() {
    let mut store = MetricStore::new();
    assert_eq!(store.record_outcome("op", true, NO_ERROR, Delta::Count), Ok(()));
    assert_eq!(store.record_outcome("op", true, NO_ERROR, Delta::ElapsedNanos(250)), Ok(()));
    assert_eq!(store.record_outcome("op", true, NO_ERROR, Delta::ElapsedNanos(750)), Ok(()));
    assert_eq!(store.len(), 2);
    assert_eq!(store.value("op", true, NO_ERROR, MetricKind::Count), Some(1));
    assert_eq!(store.value("op", true, NO_ERROR, MetricKind::ElapsedSeconds), Some(1000));
}

#[test]
fn invalid_name_is_refused() {
    let mut store = MetricStore::new();
    assert_eq!(
        store.record_outcome("bad name", true, NO_ERROR, Delta::Count),
        Err(MetricError::InvalidName)
    );
    assert_eq!(store.len(), 0);
    assert_eq!(store.value("bad name", true, NO_ERROR, MetricKind::Count), None);
}

#[test]
fn totals_saturate() {
    let mut store = MetricStore::new();
    assert_eq!(store.record_outcome("op", false, "x", Delta::ElapsedNanos(u64::MAX)), Ok(()));
    assert_eq!(store.record_outcome("op", false, "x", Delta::ElapsedNanos(5)), Ok(()));
    assert_eq!(store.value("op", false, "x", MetricKind::ElapsedSeconds), Some(u64::MAX));
}

#[test]
fn timed_success_counts_once() {
    let mut store = MetricStore::new();
    let r: Result<u32, DbError> = timed(&mut store, "get_grocery_list", || Ok(7), |e: &DbError| e.error_tag());
    assert_eq!(r, Ok(7));
    assert_eq!(store.value("get_grocery_list", true, NO_ERROR, MetricKind::Count), Some(1));
    assert!(store.value("get_grocery_list", true, NO_ERROR, MetricKind::ElapsedSeconds).is_some());
    assert_eq!(store.value("get_grocery_list", false, "db-error", MetricKind::Count), None);
    assert_eq!(store.value("get_grocery_list", false, "db-error", MetricKind::ElapsedSeconds), None);
    assert_eq!(store.len(), 2);
}

#[test]
fn timed_error_keeps_error_and_tags_it() {
    let mut store = MetricStore::new();
    let r: Result<u32, DbError> = timed(&mut store, "chuck", || Err(DbError { code: 17 }), |e: &DbError| e.error_tag());
    assert_eq!(r, Err(DbError { code: 17 }));
    assert_eq!(store.value("chuck", false, "db-error", MetricKind::Count), Some(1));
    assert!(store.value("chuck", false, "db-error", MetricKind::ElapsedSeconds).is_some());
    assert_eq!(store.value("chuck", true, NO_ERROR, MetricKind::Count), None);
    assert_eq!(store.value("chuck", true, NO_ERROR, MetricKind::ElapsedSeconds), None);
    assert_eq!(store.len(), 2);
}

#[test]
fn render_two_categories() {
    let mut store = MetricStore::new();
    assert_eq!(store.record_outcome("chuck", false, "db-error", Delta::Count), Ok(()));
    assert_eq!(store.record_outcome("chuck", false, "timeout", Delta::Count), Ok(()));
    assert_eq!(store.record_outcome("chuck", false, "timeout", Delta::Count), Ok(()));
    let text = store.render().unwrap();
    let lines: Vec<&str> = text.lines().filter(|l| !l.starts_with('#')).collect();
    assert_eq!(lines.len(), 2);
    assert!(lines.contains(&"chuck_total{error_type=\"db-error\",outcome=\"error\"} 1"));
    assert!(lines.contains(&"chuck_total{error_type=\"timeout\",outcome=\"error\"} 2"));
    assert!(text.contains("# TYPE chuck_total counter"));
}

#[test]
fn render_time_in_seconds() {
    let mut store = MetricStore::new();
    assert_eq!(
        store.record_outcome("db", true, NO_ERROR, Delta::ElapsedNanos(1_500_000_000)),
        Ok(())
    );
    let text = store.render().unwrap();
    assert!(text.contains("db_time_seconds{error_type=\"no-error\",outcome=\"success\"} 1.5"));
}

#[test]
fn render_empty_store() {
    let store = MetricStore::new();
    assert_eq!(store.render(), Ok(String::new()));
}

#[test]
fn first_use_of_valid_identity_succeeds() {
    let mut store = MetricStore::new();
    let names = ["a", "b_c", "x:y", "_z", "grocery"];
    for n in names.iter() {
        assert_eq!(store.record_outcome(n, true, NO_ERROR, Delta::Count), Ok(()));
        assert_eq!(store.record_outcome(n, false, "db-error", Delta::Count), Ok(()));
        assert_eq!(store.record_outcome(n, false, "db-error", Delta::ElapsedNanos(3)), Ok(()));
    }
    assert_eq!(store.len(), 15);
    assert_eq!(store.value("x:y", false, "db-error", MetricKind::ElapsedSeconds), Some(3));
}

#[test]
fn tagger_category_is_used() {
    let mut store = MetricStore::new();
    let r: Result<u32, DbError> =
        timed(&mut store, "q", || Err(DbError { code: 1 }), |e: &DbError| format!("code-{}", e.code));
    assert_eq!(r, Err(DbError { code: 1 }));
    assert_eq!(store.value("q", false, "code-1", MetricKind::Count), Some(1));
    assert_eq!(store.value("q", false, "db-error", MetricKind::Count), None);
}
