use weather_station::LoopState;
use weather_station::next_state;

#[test]
fn yes_in_any_case_keeps_prompting() {
    assert_eq!(next_state("yes"), LoopState::Prompting);
    assert_eq!(next_state("YES"), LoopState::Prompting);
    assert_eq!(next_state("Yes"), LoopState::Prompting);
    assert_eq!(next_state("yEs"), LoopState::Prompting);
}

#[test]
fn anything_else_terminates_the_loop() {
    assert_eq!(next_state("no"), LoopState::Terminated);
    assert_eq!(next_state(""), LoopState::Terminated);
    assert_eq!(next_state("y"), LoopState::Terminated);
    assert_eq!(next_state("yess"), LoopState::Terminated);
    assert_eq!(next_state("yes "), LoopState::Terminated);
    assert_eq!(next_state("oui"), LoopState::Terminated);
}
