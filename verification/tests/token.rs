use scoreboard::board::ScoreBoard;
use scoreboard::outcome::SubmitOutcome;
use scoreboard::token::{make_session_token, u64_to_dec};

#[test]
fn decimal_formatting_is_exact() {
    assert_eq!(u64_to_dec(0), "0");
    assert_eq!(u64_to_dec(7), "7");
    assert_eq!(u64_to_dec(10), "10");
    assert_eq!(u64_to_dec(1234567890), "1234567890");
    assert_eq!(u64_to_dec(u64::MAX), "18446744073709551615");
}

#[test]
fn session_tokens_carry_time_and_suffix() {
    assert_eq!(make_session_token(1000, 42), "sess_1000_42");
    assert_eq!(make_session_token(0, 0), "sess_0_0");
}

#[test]
fn issued_token_opens_a_live_session() {
    let mut b = ScoreBoard::new();
    let id = b.open_session_with_token(1_000, 42, None, None, None);
    assert_eq!(id, "sess_1000_42");
    assert_eq!(b.session_used(&id), Some(false));
    let r = b.submit_score(&id, String::from("alice"), 600, 11_000, None, None, None);
    assert_eq!(r, SubmitOutcome::Accepted);
    assert_eq!(b.session_used(&id), Some(true));
}

#[test]
fn distinct_suffixes_issue_distinct_tokens() {
    let mut b = ScoreBoard::new();
    let id1 = b.open_session_with_token(5, 1, None, None, None);
    let id2 = b.open_session_with_token(5, 2, None, None, None);
    assert_ne!(id1, id2);
    let r1 = b.submit_score(&id1, String::from("a"), 0, 5, None, None, None);
    assert_eq!(r1, SubmitOutcome::Accepted);
    // Consuming one session leaves the other live.
    assert_eq!(b.session_used(&id2), Some(false));
}
