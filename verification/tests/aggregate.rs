use csv_processor::app_state::{AppState, UrlResult};
use csv_processor::csv_processor::{build_probe_result, invalid_url_result};

fn outcome(id: &str, code: u16) -> UrlResult {
    build_probe_result(
        id.to_string(),
        format!("https://httpbin.org/status/{}", code),
        "http".to_string(),
        Some((code, "".to_string())),
        1,
    )
}

fn bucket(stats: &[(u16, u32)], code: u16) -> u32 {
    stats
        .iter()
        .find(|e| e.0 == code)
        .map(|e| e.1)
        .unwrap_or(0)
}

#[test]
fn two_records_one_success_one_failure() {
    // batch of two: one URL answering 200, one answering 404
    let mut state = AppState::new();
    state.set_total(2);

    let first = state.record_outcome(outcome("1", 200));
    assert_eq!(first.records_processed, 1);
    assert_eq!(first.total_records, 2);

    let second = state.record_outcome(outcome("2", 404));
    assert_eq!(second.records_processed, 2);
    assert_eq!(second.success_count, 1);
    assert_eq!(second.unsuccess_count, 1);
    assert_eq!(second.total_records, 2);
    assert_eq!(bucket(&second.status_code_stats, 200), 1);
    assert_eq!(bucket(&second.status_code_stats, 404), 1);
    assert_eq!(second.status_code_stats.len(), 2);
}

#[test]
fn invalid_record_still_counts_as_processed() {
    // a batch holding one mail-like string: one event, status code 0
    let mut state = AppState::new();
    state.set_total(1);

    let r = invalid_url_result("1".to_string(), "user@example.com".to_string());
    let event = state.record_outcome(r);
    assert_eq!(event.records_processed, 1);
    assert_eq!(event.success_count, 0);
    assert_eq!(event.unsuccess_count, 1);
    assert_eq!(event.result.response_code, 0);
    assert_eq!(event.result.full_response, "INVALID domain or URL");
    assert_eq!(bucket(&event.status_code_stats, 0), 1);
}

#[test]
fn histogram_buckets_accumulate_and_sum_to_processed() {
    let codes = [200u16, 404, 200, 500, 200, 404];
    let mut state = AppState::new();
    state.set_total(codes.len() as u32);

    let mut last = None;
    for (i, code) in codes.iter().enumerate() {
        last = Some(state.record_outcome(outcome(&i.to_string(), *code)));
    }
    let last = last.unwrap();
    assert_eq!(last.records_processed, 6);
    assert_eq!(last.success_count, 3);
    assert_eq!(last.unsuccess_count, 3);
    assert_eq!(bucket(&last.status_code_stats, 200), 3);
    assert_eq!(bucket(&last.status_code_stats, 404), 2);
    assert_eq!(bucket(&last.status_code_stats, 500), 1);
    let total: u32 = last.status_code_stats.iter().map(|e| e.1).sum();
    assert_eq!(total, 6);
}

#[test]
fn completion_order_does_not_change_final_totals() {
    let one_order = [200u16, 404, 500, 200];
    let other_order = [404u16, 200, 200, 500];

    let mut a = AppState::new();
    a.set_total(4);
    let mut b = AppState::new();
    b.set_total(4);

    let mut last_a = None;
    for (i, code) in one_order.iter().enumerate() {
        last_a = Some(a.record_outcome(outcome(&i.to_string(), *code)));
    }
    let mut last_b = None;
    for (i, code) in other_order.iter().enumerate() {
        last_b = Some(b.record_outcome(outcome(&i.to_string(), *code)));
    }
    let last_a = last_a.unwrap();
    let last_b = last_b.unwrap();

    assert_eq!(last_a.success_count, last_b.success_count);
    assert_eq!(last_a.unsuccess_count, last_b.unsuccess_count);
    assert_eq!(last_a.records_processed, last_b.records_processed);
    for code in [200u16, 404, 500] {
        assert_eq!(
            bucket(&last_a.status_code_stats, code),
            bucket(&last_b.status_code_stats, code)
        );
    }
}

#[test]
fn snapshot_reflects_own_update_immediately() {
    let mut state = AppState::new();
    state.set_total(3);
    let event = state.record_outcome(outcome("1", 301));
    // the event built right after recording carries the caller's own update
    assert_eq!(event.records_processed, 1);
    assert_eq!(bucket(&event.status_code_stats, 301), 1);
    let again = state.snapshot(outcome("1", 301));
    assert_eq!(again.records_processed, 1);
}
