use port_knocking::state::{KnockResult, PortKnockingState};

const ADDR_A: u128 = 0;
const ADDR_B: u128 = 0x7f000001;

fn policy() -> Vec<u16> {
    vec![4002, 4841, 4219]
}

#[test]
fn test_check_no_knocks_returns_unknown() {
    let state = PortKnockingState::new(policy());
    assert_eq!(state.check(ADDR_A), KnockResult::Unknown);
}

#[test]
fn test_check_one_knock_returns_fail() {
    let mut state = PortKnockingState::new(policy());
    state.knock(ADDR_A, policy()[0]);
    assert_eq!(state.check(ADDR_A), KnockResult::Fail);
}

#[test]
fn test_check_correct_sequence_returns_success() {
    let mut state = PortKnockingState::new(policy());
    for port in policy() {
        state.knock(ADDR_A, port);
    }
    assert_eq!(state.check(ADDR_A), KnockResult::Success);
}

/// Check that a rolling buffer of knocks is maintained such that any
/// sequence containing the correct sequence at the end is considered
/// correct.
#[test]
fn test_check_correct_sequence_with_rollover() {
    let mut state = PortKnockingState::new(policy());

    // Perform a sequence of knocks that *ends* with the correct sequence.
    state.knock(ADDR_A, 4000);
    state.knock(ADDR_A, 4001);
    for port in policy() {
        state.knock(ADDR_A, port);
    }
    assert_eq!(state.check(ADDR_A), KnockResult::Success);
}

#[test]
fn test_check_contains_correct_sequence() {
    let mut state = PortKnockingState::new(policy());

    // The correct ports appear in order, but each is followed by two wrong
    // knocks, so the three most recent knocks are never the policy.
    for port in policy() {
        state.knock(ADDR_A, port);
        state.knock(ADDR_A, 4000);
        state.knock(ADDR_A, 4001);
    }
    assert_eq!(state.check(ADDR_A), KnockResult::Fail);
}

#[test]
fn test_reset_after_success() {
    let mut state = PortKnockingState::new(policy());

    for port in policy() {
        state.knock(ADDR_A, port);
    }
    assert_eq!(state.check(ADDR_A), KnockResult::Success);
    state.reset(ADDR_A);
    assert_eq!(state.check(ADDR_A), KnockResult::Unknown);
}

#[test]
fn test_wrong_first_knock_fails() {
    let mut state = PortKnockingState::new(policy());
    state.knock(ADDR_A, 1234);
    assert_eq!(state.check(ADDR_A), KnockResult::Fail);
}

#[test]
fn test_addresses_keep_independent_records() {
    let mut state = PortKnockingState::new(policy());

    for port in policy() {
        state.knock(ADDR_A, port);
    }
    // Nothing was recorded for the other address.
    assert_eq!(state.check(ADDR_B), KnockResult::Unknown);

    // A wrong knock from the other address affects only its own record.
    state.knock(ADDR_B, 1234);
    assert_eq!(state.check(ADDR_B), KnockResult::Fail);
    assert_eq!(state.check(ADDR_A), KnockResult::Success);
}

#[test]
fn test_single_port_policy() {
    let mut state = PortKnockingState::new(vec![4002]);
    state.knock(ADDR_A, 4001);
    assert_eq!(state.check(ADDR_A), KnockResult::Fail);
    state.knock(ADDR_A, 4002);
    assert_eq!(state.check(ADDR_A), KnockResult::Success);
}
