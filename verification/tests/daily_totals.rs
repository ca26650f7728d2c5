use coderouter_proxy::daily_totals::{restore_daily_totals, DailyCounter};
use coderouter_proxy::router::{EntryState, EntryStatus, RouterState};

fn st() -> EntryState {
    EntryState {
        status: EntryStatus::Active,
        cooldown_until: None,
        consecutive_errors: 2,
        daily_tokens_used: 5,
        daily_requests_used: 1,
        daily_reset_at: 77,
        cooldown_duration_seconds: Some(60),
    }
}

fn state() -> RouterState {
    let mut s = RouterState::new();
    for k in ["p1:0", "p1:1", "p10:0", "p2:0"] {
        s.entries.push((k.to_string(), st()));
    }
    s
}

#[test]
fn tokens_restored_for_every_entry_of_the_provider() {
    let mut s = state();
    let rows = vec![("p2".to_string(), 9), ("p1".to_string(), 1000), ("p1".to_string(), 1200)];
    restore_daily_totals(&mut s, "p1", &rows, DailyCounter::Tokens);
    assert_eq!(s.get("p1:0").unwrap().daily_tokens_used, 1200);
    assert_eq!(s.get("p1:1").unwrap().daily_tokens_used, 1200);
    assert_eq!(s.get("p1:1").unwrap().daily_requests_used, 1);
    assert_eq!(s.get("p1:1").unwrap().consecutive_errors, 2);
    // "p10:0" does not start with "p1:".
    assert_eq!(s.get("p10:0").unwrap().daily_tokens_used, 5);
    assert_eq!(s.get("p2:0").unwrap().daily_tokens_used, 5);
}

#[test]
fn requests_restored_and_absent_provider_changes_nothing() {
    let mut s = state();
    restore_daily_totals(&mut s, "p2", &vec![("p2".to_string(), 33)], DailyCounter::Requests);
    assert_eq!(s.get("p2:0").unwrap().daily_requests_used, 33);
    assert_eq!(s.get("p2:0").unwrap().daily_tokens_used, 5);
    restore_daily_totals(&mut s, "p1", &vec![("p2".to_string(), 44)], DailyCounter::Requests);
    assert_eq!(s.get("p1:0").unwrap().daily_requests_used, 1);
    assert_eq!(s.entries.len(), 4);
}
