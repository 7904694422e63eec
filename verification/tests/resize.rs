use open_sockets::resize::{step, BridgeAction, BridgeEvent, BridgeState};

#[test]
fn each_resize_is_one_callback_while_listening() {
    assert_eq!(
        step(BridgeState::Listening, BridgeEvent::Resize),
        (BridgeState::Listening, BridgeAction::Notify)
    );
    assert_eq!(
        step(BridgeState::Listening, BridgeEvent::OtherSignal),
        (BridgeState::Listening, BridgeAction::Wait)
    );
}

#[test]
fn closing_ends_the_loop() {
    assert_eq!(
        step(BridgeState::Listening, BridgeEvent::Closed),
        (BridgeState::Stopped, BridgeAction::Return)
    );
}

#[test]
fn nothing_is_called_back_once_stopped() {
    let events = [BridgeEvent::Resize, BridgeEvent::OtherSignal, BridgeEvent::Closed];
    for event in events {
        assert_eq!(
            step(BridgeState::Stopped, event),
            (BridgeState::Stopped, BridgeAction::Return)
        );
    }
}

#[test]
fn callbacks_stop_with_the_first_close() {
    let events = [
        BridgeEvent::Resize,
        BridgeEvent::Resize,
        BridgeEvent::Closed,
        BridgeEvent::Resize,
        BridgeEvent::Resize,
    ];
    let mut state = BridgeState::Listening;
    let mut callbacks: u32 = 0;
    for event in events {
        let (next, action) = step(state, event);
        state = next;
        if action == BridgeAction::Notify {
            callbacks += 1;
        }
    }
    assert_eq!(callbacks, 2);
    assert_eq!(state, BridgeState::Stopped);
}
