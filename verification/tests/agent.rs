use agent_reviewer::agent::{
    find_named, recovery_message, reply_calls, turn_outcome, AgentLoop, AssistantMessage,
    ReplyCalls, ToolOffer, TurnOutcome,
};
use agent_reviewer::tool_calls::CallIdCounter;

fn names(v: &[&str]) -> Vec<String> {
    v.iter().map(|s| s.to_string()).collect()
}

#[test]
fn step_worder_text() {
    let l = AgentLoop::new(12);
    assert_eq!(l.step_worder(3), "You are in step 3 of 12.");
}

#[test]
fn steps_of_a_run() {
    let mut l = AgentLoop::new(3);
    let s1 = l.begin_step("Review this diff.", "submit_review").unwrap();
    assert_eq!(s1.step, 1);
    assert!(!s1.is_last_turn);
    assert_eq!(s1.offer, ToolOffer::All);
    assert_eq!(s1.user_message, "You are in step 1 of 3.\nReview this diff.");
    let s2 = l.begin_step("Review this diff.", "submit_review").unwrap();
    assert_eq!(s2.user_message, "You are in step 2 of 3.");
    assert_eq!(s2.offer, ToolOffer::All);
    let s3 = l.begin_step("Review this diff.", "submit_review").unwrap();
    assert!(s3.is_last_turn);
    assert_eq!(s3.offer, ToolOffer::SubmitOnly);
    assert_eq!(
        s3.user_message,
        "You are in step 3 of 3.\nThis is the final step. Make sure to call the 'submit_review' tool if you haven't already."
    );
    assert!(l.begin_step("Review this diff.", "submit_review").is_none());
    assert!(l.begin_step("Review this diff.", "submit_review").is_none());
}

#[test]
fn single_step_run_is_first_and_last() {
    let mut l = AgentLoop::new(1);
    let s = l.begin_step("p", "submit").unwrap();
    assert!(s.is_last_turn);
    assert_eq!(s.offer, ToolOffer::SubmitOnly);
    assert_eq!(s.user_message, "You are in step 1 of 1.\np");
    assert!(l.begin_step("p", "submit").is_none());
}

#[test]
fn zero_step_run_fails_at_once() {
    let mut l = AgentLoop::new(0);
    assert!(l.begin_step("p", "submit").is_none());
}

#[test]
fn recovery_message_text() {
    assert_eq!(
        recovery_message("submit_triage"),
        "This is the final recovery step. You MUST call `submit_triage` now. Respond with ONLY a JSON object shaped like {\"name\":\"submit_triage\",\"arguments\":{...}} using the context gathered so far."
    );
}

#[test]
fn turn_outcomes() {
    let markers = names(&["other_marker", "submit", "submit"]);
    assert_eq!(turn_outcome(&markers, "submit", false), TurnOutcome::Submit(1));
    assert_eq!(turn_outcome(&markers, "submit", true), TurnOutcome::Submit(1));
    assert_eq!(turn_outcome(&names(&["x"]), "submit", true), TurnOutcome::Recover);
    assert_eq!(turn_outcome(&names(&[]), "submit", false), TurnOutcome::RunTools);
}

#[test]
fn find_named_first() {
    assert_eq!(find_named(&names(&["a", "b", "a"]), "a"), Some(0));
    assert_eq!(find_named(&names(&["a", "b"]), "c"), None);
}

#[test]
fn reply_calls_sources() {
    let mut ids = CallIdCounter::new();
    let r = reply_calls(2, Some("{\"name\":\"x\",\"arguments\":{}}"), &mut ids);
    assert!(matches!(r, ReplyCalls::Structured));
    assert_eq!(r.assistant_message(), AssistantMessage::FromResponse);
    let r = reply_calls(0, None, &mut ids);
    assert!(matches!(r, ReplyCalls::Structured));
    let r = reply_calls(0, Some("```json\n{\"name\":\"x\",\"arguments\":{}}\n```"), &mut ids);
    match &r {
        ReplyCalls::FromText(calls) => {
            assert_eq!(calls.len(), 1);
            assert_eq!(calls[0].fn_name, "x");
            assert_eq!(calls[0].call_id, "call_0");
        }
        _ => panic!("expected calls from text"),
    }
    assert_eq!(r.assistant_message(), AssistantMessage::FromToolCalls);
    let r = reply_calls(0, Some("no tools today"), &mut ids);
    assert!(matches!(&r, ReplyCalls::FromText(c) if c.is_empty()));
    assert_eq!(r.assistant_message(), AssistantMessage::FromResponse);
    assert_eq!(ids.peek(), 1);
}
