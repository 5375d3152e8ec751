use trade_client::gate::{Admission, Gate};
use trade_client::trade::Trade;

#[test]
fn first_call_proceeds_at_zero() {
    let mut g = Gate::new(100);
    assert_eq!(g.check(0), Admission::Proceed);
}

#[test]
fn back_to_back_calls_pace_out() {
    // quota = 1 slot / 100 ms; three logical calls issued back-to-back at
    // t = 0, each waiting out the reported delay before retrying, go through
    // at t = 0, t = 100 and t = 200: wait times of 0, 100 and 200 ms.
    let mut g = Gate::new(100);
    assert_eq!(g.check(0), Admission::Proceed);
    assert_eq!(g.check(0), Admission::Wait(100));
    assert_eq!(g.check(100), Admission::Proceed);
    assert_eq!(g.check(100), Admission::Wait(100));
    assert_eq!(g.check(200), Admission::Proceed);
}

#[test]
fn repeated_checks_without_elapse_report_same_wait() {
    let mut g = Gate::new(100);
    assert_eq!(g.check(0), Admission::Proceed);
    assert_eq!(g.check(30), Admission::Wait(70));
    assert_eq!(g.check(30), Admission::Wait(70));
    assert_eq!(g.check(30), Admission::Wait(70));
}

#[test]
fn unused_time_is_not_banked() {
    let mut g = Gate::new(100);
    assert_eq!(g.check(0), Admission::Proceed);
    // A long quiet stretch does not accumulate slots: the next slot is booked
    // from the instant of the granted call.
    assert_eq!(g.check(500), Admission::Proceed);
    assert_eq!(g.check(550), Admission::Wait(50));
}

#[test]
fn never_twice_within_one_interval() {
    let mut g = Gate::new(100);
    let mut grants = Vec::new();
    // Calls spaced less than one interval apart.
    for t in (0u64..1000).step_by(30) {
        if g.check(t) == Admission::Proceed {
            grants.push(t);
        }
    }
    for w in grants.windows(2) {
        assert!(w[1] >= w[0] + 100);
    }
}

#[test]
fn trade_gates_are_independent() {
    let mut t = Trade::new("session");
    assert_eq!(t.check_search(0), Admission::Proceed);
    assert_eq!(t.check_fetch(0), Admission::Proceed);
    assert_eq!(t.check_search(0), Admission::Wait(1667));
    assert_eq!(t.check_fetch(0), Admission::Wait(667));
    // The fetch gate opens again while the search gate still waits.
    assert_eq!(t.check_fetch(667), Admission::Proceed);
    assert_eq!(t.check_search(667), Admission::Wait(1000));
}

#[test]
fn session_credential_is_kept() {
    let t = Trade::new("abc123");
    assert_eq!(t.session_id(), "abc123");
}
