use scoreboard::ai::{AICandidates, AIRequest, AIResponse};
use scoreboard::board::ScoreBoard;
use scoreboard::outcome::SubmitOutcome;

fn open(b: &mut ScoreBoard, id: &str, now_ms: u64) {
    b.open_session(id.to_string(), now_ms, None, None, None);
}

#[test]
fn plausible_submission_after_ten_seconds_is_accepted() {
    let mut b = ScoreBoard::new();
    let id = String::from("sess_1000_42");
    open(&mut b, &id, 1_000);
    let r = b.submit_score(&id, String::from("alice"), 600, 11_000, None, None, None);
    assert_eq!(r, SubmitOutcome::Accepted);
    assert!(r.is_accepted());
    assert_eq!(r.reason(), "accepted");
    assert_eq!(b.session_used(&id), Some(true));
    assert_eq!(b.top_scores(), vec![(String::from("alice"), 600)]);
}

#[test]
fn implausible_immediate_score_is_rejected_with_context() {
    let mut b = ScoreBoard::new();
    let id = String::from("sess_0_7");
    open(&mut b, &id, 0);
    let r = b.submit_score(&id, String::from("bob"), 10_000, 0, None, None, None);
    assert_eq!(
        r,
        SubmitOutcome::ScoreTimeMismatch {
            elapsed_ms: 0,
            expected_score: 0,
            tolerance: 180,
            actual_score: 10_000,
        }
    );
    assert_eq!(r.reason(), "score/time mismatch");
    // A rejection leaves everything untouched: the session is still live.
    assert_eq!(b.session_used(&id), Some(false));
    assert!(b.ranked_scores().is_empty());
}

#[test]
fn expected_score_reflects_elapsed_time() {
    let mut b = ScoreBoard::new();
    let id = String::from("s");
    open(&mut b, &id, 0);
    // After 10 s the expectation is 600; a score of 2000 is far outside it.
    let r = b.submit_score(&id, String::from("carol"), 2_000, 10_000, None, None, None);
    assert_eq!(
        r,
        SubmitOutcome::ScoreTimeMismatch {
            elapsed_ms: 10_000,
            expected_score: 600,
            tolerance: 180,
            actual_score: 2_000,
        }
    );
}

#[test]
fn tolerance_boundary_is_inclusive() {
    let mut b = ScoreBoard::new();
    let id = String::from("s1");
    open(&mut b, &id, 0);
    // |180 - 0| == 180 is still within the tolerance.
    let r = b.submit_score(&id, String::from("a"), 180, 0, None, None, None);
    assert_eq!(r, SubmitOutcome::Accepted);

    let id2 = String::from("s2");
    open(&mut b, &id2, 0);
    // |181 - 0| > 180 is not.
    let r2 = b.submit_score(&id2, String::from("a"), 181, 0, None, None, None);
    assert!(matches!(r2, SubmitOutcome::ScoreTimeMismatch { .. }));
}

#[test]
fn viewport_shrink_is_rejected_regardless_of_score() {
    let mut b = ScoreBoard::new();
    let id = String::from("sess_vp");
    b.open_session(id.clone(), 0, Some(1000), Some(800), None);
    // Width fell to 70% of its starting value; the score itself is plausible.
    let r = b.submit_score(&id, String::from("dave"), 0, 0, Some(700), Some(800), None);
    assert_eq!(
        r,
        SubmitOutcome::ViewportShrink { viewport_w: Some(700), viewport_h: Some(800) }
    );
    assert_eq!(r.reason(), "viewport shrink / zoom detected");
    assert_eq!(b.session_used(&id), Some(false));
    assert!(b.ranked_scores().is_empty());
}

#[test]
fn viewport_at_exactly_85_percent_passes() {
    let mut b = ScoreBoard::new();
    let id = String::from("sess_edge");
    b.open_session(id.clone(), 0, Some(1000), Some(800), None);
    let r = b.submit_score(&id, String::from("eve"), 0, 0, Some(850), Some(680), None);
    assert_eq!(r, SubmitOutcome::Accepted);
}

#[test]
fn absent_viewport_values_skip_the_check() {
    let mut b = ScoreBoard::new();
    // No starting viewport recorded: shrunken current values are not checked.
    let id = String::from("no_start");
    open(&mut b, &id, 0);
    let r = b.submit_score(&id, String::from("a"), 0, 0, Some(1), Some(1), None);
    assert_eq!(r, SubmitOutcome::Accepted);
    // Starting viewport recorded but no current values supplied: same.
    let id2 = String::from("no_current");
    b.open_session(id2.clone(), 0, Some(1000), Some(800), Some(2000));
    let r2 = b.submit_score(&id2, String::from("a"), 0, 0, None, None, None);
    assert_eq!(r2, SubmitOutcome::Accepted);
}

#[test]
fn dpr_shrink_is_rejected_without_starting_viewport() {
    let mut b = ScoreBoard::new();
    // Only the pixel ratio was recorded at the start; its shrink still counts.
    let id = String::from("dpr_only");
    b.open_session(id.clone(), 0, None, None, Some(2000));
    let r = b.submit_score(&id, String::from("m"), 0, 0, None, None, Some(1000));
    assert_eq!(r, SubmitOutcome::DprShrink { dpr_milli: 1000 });
}

#[test]
fn width_shrink_is_rejected_without_a_reported_height() {
    let mut b = ScoreBoard::new();
    let id = String::from("partial");
    b.open_session(id.clone(), 0, Some(1000), Some(800), None);
    // Each dimension is judged on its own: the shrunken width is enough,
    // even though no current height was reported.
    let r = b.submit_score(&id, String::from("n"), 0, 0, Some(700), None, None);
    assert_eq!(r, SubmitOutcome::ViewportShrink { viewport_w: Some(700), viewport_h: None });
}

#[test]
fn width_shrink_is_rejected_without_a_recorded_height() {
    let mut b = ScoreBoard::new();
    let id = String::from("w_only");
    // Only the width was recorded at the start; its shrink still counts.
    b.open_session(id.clone(), 0, Some(1000), None, None);
    let r = b.submit_score(&id, String::from("o"), 0, 0, Some(700), None, None);
    assert_eq!(r, SubmitOutcome::ViewportShrink { viewport_w: Some(700), viewport_h: None });
}

#[test]
fn unshrunk_width_with_absent_height_is_accepted() {
    let mut b = ScoreBoard::new();
    let id = String::from("w_ok");
    b.open_session(id.clone(), 0, Some(1000), Some(800), None);
    // The width passes its own check; the absent height skips only the
    // height check.
    let r = b.submit_score(&id, String::from("p"), 0, 0, Some(900), None, None);
    assert_eq!(r, SubmitOutcome::Accepted);
}

#[test]
fn dpr_shrink_is_rejected_and_takes_precedence() {
    let mut b = ScoreBoard::new();
    let id = String::from("sess_dpr");
    b.open_session(id.clone(), 0, Some(1000), Some(800), Some(2000));
    // Both the viewport and the pixel ratio shrank; the pixel-ratio reason wins.
    let r = b.submit_score(&id, String::from("f"), 0, 0, Some(500), Some(400), Some(1600));
    assert_eq!(r, SubmitOutcome::DprShrink { dpr_milli: 1600 });
    assert_eq!(r.reason(), "devicePixelRatio shrink detected");
}

#[test]
fn unknown_session_is_rejected_without_state_change() {
    let mut b = ScoreBoard::new();
    let known = String::from("known");
    open(&mut b, &known, 0);
    let unknown = String::from("sess_nope");
    let r = b.submit_score(&unknown, String::from("g"), 0, 0, None, None, None);
    assert_eq!(r, SubmitOutcome::InvalidSession);
    assert_eq!(r.reason(), "invalid session");
    assert_eq!(b.session_used(&unknown), None);
    assert_eq!(b.session_used(&known), Some(false));
    assert!(b.ranked_scores().is_empty());
}

#[test]
fn empty_session_id_is_rejected() {
    let mut b = ScoreBoard::new();
    let empty = String::new();
    let r = b.submit_score(&empty, String::from("h"), 0, 0, None, None, None);
    assert_eq!(r, SubmitOutcome::InvalidSession);
}

#[test]
fn second_submission_on_same_session_is_rejected() {
    let mut b = ScoreBoard::new();
    let id = String::from("once");
    open(&mut b, &id, 0);
    let r1 = b.submit_score(&id, String::from("i"), 60, 1_000, None, None, None);
    assert_eq!(r1, SubmitOutcome::Accepted);
    let r2 = b.submit_score(&id, String::from("i"), 60, 1_000, None, None, None);
    assert_eq!(r2, SubmitOutcome::SessionAlreadyUsed);
    assert_eq!(r2.reason(), "session already used");
    // The first acceptance stands alone.
    assert_eq!(b.ranked_scores().len(), 1);
}

#[test]
fn rejected_session_can_be_retried() {
    let mut b = ScoreBoard::new();
    let id = String::from("retry");
    open(&mut b, &id, 0);
    let r1 = b.submit_score(&id, String::from("j"), 5_000, 1_000, None, None, None);
    assert!(matches!(r1, SubmitOutcome::ScoreTimeMismatch { .. }));
    let r2 = b.submit_score(&id, String::from("j"), 60, 1_000, None, None, None);
    assert_eq!(r2, SubmitOutcome::Accepted);
}

#[test]
fn reopening_a_token_resets_the_session() {
    let mut b = ScoreBoard::new();
    let id = String::from("twice");
    open(&mut b, &id, 0);
    let r1 = b.submit_score(&id, String::from("k"), 60, 1_000, None, None, None);
    assert_eq!(r1, SubmitOutcome::Accepted);
    // Opening again under the same token overwrites the consumed record.
    open(&mut b, &id, 1_000);
    assert_eq!(b.session_used(&id), Some(false));
    let r2 = b.submit_score(&id, String::from("k"), 60, 2_000, None, None, None);
    assert_eq!(r2, SubmitOutcome::Accepted);
}

#[test]
fn clock_going_backwards_counts_as_no_elapsed_time() {
    let mut b = ScoreBoard::new();
    let id = String::from("back");
    open(&mut b, &id, 10_000);
    let r = b.submit_score(&id, String::from("l"), 0, 5_000, None, None, None);
    assert_eq!(r, SubmitOutcome::Accepted);
}

#[test]
fn ranked_list_is_sorted_descending() {
    let mut b = ScoreBoard::new();
    let scores = [300u64, 60, 240, 120, 180];
    for (i, s) in scores.iter().enumerate() {
        let id = format!("sess_{}", i);
        open(&mut b, &id, 0);
        // Submit at the moment the score becomes plausible: s units at 60/s.
        let now = s * 1000 / 60;
        let r = b.submit_score(&id, format!("p{}", i), *s as i64, now, None, None, None);
        assert_eq!(r, SubmitOutcome::Accepted);
    }
    let ranked = b.ranked_scores();
    let got: Vec<i64> = ranked.iter().map(|e| e.1).collect();
    assert_eq!(got, vec![300, 240, 180, 120, 60]);
}

#[test]
fn ties_keep_insertion_order() {
    let mut b = ScoreBoard::new();
    for (i, name) in ["first", "second", "third"].iter().enumerate() {
        let id = format!("tie_{}", i);
        open(&mut b, &id, 0);
        let r = b.submit_score(&id, name.to_string(), 60, 1_000, None, None, None);
        assert_eq!(r, SubmitOutcome::Accepted);
    }
    let names: Vec<String> = b.ranked_scores().into_iter().map(|e| e.0).collect();
    assert_eq!(names, vec!["first", "second", "third"]);
}

#[test]
fn top_scores_is_a_five_entry_prefix() {
    let mut b = ScoreBoard::new();
    for i in 0u64..7 {
        let id = format!("t_{}", i);
        open(&mut b, &id, 0);
        let s = 60 * (i + 1);
        let r = b.submit_score(&id, format!("n{}", i), s as i64, (i + 1) * 1_000, None, None, None);
        assert_eq!(r, SubmitOutcome::Accepted);
    }
    let ranked = b.ranked_scores();
    let top = b.top_scores();
    assert_eq!(top.len(), 5);
    assert_eq!(&ranked[..5], &top[..]);
    assert_eq!(top[0].1, 420);
    assert_eq!(top[4].1, 180);
}

#[test]
fn top_scores_on_empty_board_is_empty() {
    let b = ScoreBoard::new();
    assert!(b.top_scores().is_empty());
}

#[test]
fn hundred_and_first_entry_evicts_the_lowest() {
    let mut b = ScoreBoard::new();
    for i in 0u64..101 {
        let id = format!("cap_{}", i);
        open(&mut b, &id, 0);
        let s = 60 * (i + 1);
        let r = b.submit_score(&id, format!("n{}", i), s as i64, (i + 1) * 1_000, None, None, None);
        assert_eq!(r, SubmitOutcome::Accepted, "submission {} not accepted", i);
    }
    let ranked = b.ranked_scores();
    assert_eq!(ranked.len(), 100);
    // The top 100 by score remain; the lowest (60) was evicted.
    assert_eq!(ranked[0].1, 60 * 101);
    assert_eq!(ranked[99].1, 60 * 2);
    for w in ranked.windows(2) {
        assert!(w[0].1 >= w[1].1);
    }
}

#[test]
fn ai_payload_shapes_carry_their_text() {
    let req = AIRequest { prompt: String::from("say hi") };
    let resp = AIResponse { result: String::from("hi") };
    assert_eq!(req.prompt, "say hi");
    assert_eq!(resp.result, "hi");
}

#[test]
fn ai_selection_takes_the_first_present_candidate() {
    let full = AICandidates {
        result: Some(String::from("a")),
        response: Some(String::from("b")),
        first_choice_text: Some(String::from("c")),
        result_response: Some(String::from("d")),
        raw: String::from("e"),
    };
    assert_eq!(full.select(), "a");
    let later = AICandidates {
        result: None,
        response: None,
        first_choice_text: Some(String::from("c")),
        result_response: Some(String::from("d")),
        raw: String::from("e"),
    };
    assert_eq!(later.select(), "c");
    let none = AICandidates {
        result: None,
        response: None,
        first_choice_text: None,
        result_response: None,
        raw: String::from("e"),
    };
    assert_eq!(none.select(), "e");
}
