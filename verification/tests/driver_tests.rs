use game_of_life::driver::{tick_action, TickAction, TickEvent};

#[test]
fn keypress_stops_the_session() {
    assert_eq!(tick_action(TickEvent::KeyPressed), TickAction::Stop);
}

#[test]
fn other_input_is_ignored() {
    assert_eq!(tick_action(TickEvent::OtherInput), TickAction::Wait);
}

#[test]
fn quiet_interval_advances_a_generation() {
    assert_eq!(tick_action(TickEvent::TimedOut), TickAction::RenderAndStep);
}
