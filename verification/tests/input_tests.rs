use snake_game::input::EguiInput;
use snake_game::systems::Input;
use snake_game::types::Direction;

#[test]
fn test_input_latches_requested_direction() {
    let mut input = EguiInput::new(Direction::Right);
    input.request(Some(Direction::Up));
    assert_eq!(input.current_dir(), Direction::Up);
}

#[test]
fn test_input_rejects_reversal() {
    let mut input = EguiInput::new(Direction::Right);
    input.request(Some(Direction::Left));
    assert_eq!(input.current_dir(), Direction::Right);
}

#[test]
fn test_input_allows_reversal_after_settle() {
    // Right -> Up is fine; once Up is settled, Down is the reversal and
    // Left is fine.
    let mut input = EguiInput::new(Direction::Right);
    input.request(Some(Direction::Up));
    input.settle();
    input.request(Some(Direction::Down));
    assert_eq!(input.current_dir(), Direction::Up);
    input.request(Some(Direction::Left));
    assert_eq!(input.current_dir(), Direction::Left);
}

#[test]
fn test_input_no_request_keeps_direction() {
    let mut input = EguiInput::new(Direction::Down);
    input.request(None);
    assert_eq!(input.current_dir(), Direction::Down);
}

#[test]
fn test_unsettled_direction_can_still_change() {
    // Two requests before a settle: the second is measured against the
    // settled direction, not the first request.
    let mut input = EguiInput::new(Direction::Right);
    input.request(Some(Direction::Up));
    input.request(Some(Direction::Down));
    assert_eq!(input.current_dir(), Direction::Down);
}
