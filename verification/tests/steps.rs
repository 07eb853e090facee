use rt_ring::protocol::{
    pop_action, pop_step, push_action, push_step, PopAction, PopEvent, PopPhase, PushAction,
    PushEvent, PushPhase,
};
use rt_ring::ring::fill_step;

fn push_is(phase: PushPhase, expected: &str) -> bool {
    let name = match phase {
        PushPhase::Check => "check".to_string(),
        PushPhase::Discard { observed } => format!("discard {}", observed),
        PushPhase::Count => "count".to_string(),
        PushPhase::Store => "store".to_string(),
        PushPhase::Abandon => "abandon".to_string(),
    };
    name == expected
}

fn pop_is(phase: PopPhase, expected: &str) -> bool {
    let name = match phase {
        PopPhase::Begin => "begin".to_string(),
        PopPhase::CheckWrite { observed } => format!("check {}", observed),
        PopPhase::Load { observed } => format!("load {}", observed),
        PopPhase::Claim { observed, sample } => format!("claim {} {}", observed, sample),
        PopPhase::Done { result } => format!("done {:?}", result),
    };
    name == expected
}

#[test]
fn push_step_stores_while_there_is_room() {
    let next = push_step(PushPhase::Check, PushEvent::ReadPos { read_pos: 5 }, 8, 4);
    assert!(push_is(next, "store"));
}

#[test]
fn push_step_discards_when_full() {
    // Four unread samples with capacity four: full, not room.
    let next = push_step(PushPhase::Check, PushEvent::ReadPos { read_pos: 4 }, 8, 4);
    assert!(push_is(next, "discard 4"));
}

#[test]
fn push_step_after_the_exchange() {
    let discard = PushPhase::Discard { observed: 4 };
    let ok = PushEvent::Exchange { exchanged: true, give_up: false };
    let failed = PushEvent::Exchange { exchanged: false, give_up: false };
    let failed_last = PushEvent::Exchange { exchanged: false, give_up: true };
    assert!(push_is(push_step(discard, ok, 8, 4), "count"));
    assert!(push_is(push_step(discard, failed, 8, 4), "check"));
    assert!(push_is(push_step(discard, failed_last, 8, 4), "abandon"));
    assert!(push_is(push_step(PushPhase::Count, PushEvent::Counted, 8, 4), "store"));
}

#[test]
fn push_step_ignores_an_event_the_phase_does_not_wait_for() {
    let next = push_step(PushPhase::Count, PushEvent::ReadPos { read_pos: 0 }, 8, 4);
    assert!(push_is(next, "count"));
}

#[test]
fn pop_step_walks_through_a_successful_pop() {
    let p = pop_step(PopPhase::Begin, PopEvent::ReadPos { read_pos: 2 });
    assert!(pop_is(p, "check 2"));
    let p = pop_step(p, PopEvent::WritePos { write_pos: 3 });
    assert!(pop_is(p, "load 2"));
    let p = pop_step(p, PopEvent::Slot { sample: 77 });
    assert!(pop_is(p, "claim 2 77"));
    let p = pop_step(p, PopEvent::Exchange { exchanged: true, give_up: false });
    assert!(pop_is(p, "done Some(77)"));
}

#[test]
fn pop_step_on_empty_and_after_failed_claims() {
    let empty = pop_step(PopPhase::CheckWrite { observed: 3 }, PopEvent::WritePos { write_pos: 3 });
    assert!(pop_is(empty, "done None"));
    let claim = PopPhase::Claim { observed: 2, sample: 77 };
    let retry = pop_step(claim, PopEvent::Exchange { exchanged: false, give_up: false });
    assert!(pop_is(retry, "begin"));
    let given_up = pop_step(claim, PopEvent::Exchange { exchanged: false, give_up: true });
    assert!(pop_is(given_up, "done None"));
}

#[test]
fn push_action_names_each_operation() {
    assert!(matches!(push_action(PushPhase::Check, 9, 3, 5), PushAction::LoadReadPos));
    assert!(matches!(
        push_action(PushPhase::Discard { observed: 5 }, 9, 3, 5),
        PushAction::Exchange { current: 5, new: 6 }
    ));
    assert!(matches!(
        push_action(PushPhase::Discard { observed: usize::MAX }, 9, 3, 5),
        PushAction::Exchange { current: usize::MAX, new: 0 }
    ));
    assert!(matches!(push_action(PushPhase::Count, 9, 3, 5), PushAction::AddCount { amount: 1 }));
    assert!(matches!(
        push_action(PushPhase::Store, 9, 3, 5),
        PushAction::Store { slot: 1, sample: 5, write_pos: 10 }
    ));
    assert!(matches!(push_action(PushPhase::Abandon, 9, 3, 5), PushAction::Finish));
}

#[test]
fn pop_action_names_each_operation() {
    assert!(matches!(pop_action(PopPhase::Begin, 7), PopAction::LoadReadPos));
    assert!(matches!(pop_action(PopPhase::CheckWrite { observed: 3 }, 7), PopAction::LoadWritePos));
    assert!(matches!(pop_action(PopPhase::Load { observed: 13 }, 7), PopAction::LoadSlot { slot: 5 }));
    assert!(matches!(
        pop_action(PopPhase::Claim { observed: 13, sample: 1 }, 7),
        PopAction::Exchange { current: 13, new: 14 }
    ));
    assert!(matches!(
        pop_action(PopPhase::Done { result: Some(4) }, 7),
        PopAction::Return { result: Some(4) }
    ));
}

#[test]
fn initial_values_are_all_zero() {
    assert_eq!(rt_ring::protocol::initial_values(), (0, 0, 0, 0));
}

#[test]
fn fill_step_writes_a_sample_and_stops_on_none() {
    let mut buf = [1u32, 2, 3];
    assert!(fill_step(&mut buf, 1, Some(9)));
    assert_eq!(buf, [1, 9, 3]);
    assert!(!fill_step(&mut buf, 2, None));
    assert_eq!(buf, [1, 9, 3]);
}
