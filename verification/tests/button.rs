use rp_picow_examples::button::{
    awaited_level, button_start, local_endpoint, on_awaited_level, remote_endpoint, ButtonPhase,
    ButtonReaction, Level, DEBOUNCE_MS, LED_GPIO, OFF, ON,
};
use rp_picow_examples::network::{Endpoint, Ipv4Address};

#[test]
fn endpoints_of_the_sending_example() {
    assert_eq!(remote_endpoint(), Endpoint { address: Ipv4Address(192, 168, 1, 50), port: 47900 });
    assert_eq!(local_endpoint(), Endpoint { address: Ipv4Address(192, 168, 1, 49), port: 47901 });
}

#[test]
fn constants() {
    assert_eq!(ON, [1]);
    assert_eq!(OFF, [0]);
    assert_eq!(DEBOUNCE_MS, 100);
    assert_eq!(LED_GPIO, 0);
}

#[test]
fn loop_starts_waiting_for_a_press_on_low() {
    assert_eq!(button_start(), ButtonPhase::AwaitPress);
    assert_eq!(awaited_level(ButtonPhase::AwaitPress), Level::Low);
    assert_eq!(awaited_level(ButtonPhase::AwaitRelease), Level::High);
}

#[test]
fn press_turns_led_on_and_sends_on() {
    assert_eq!(
        on_awaited_level(ButtonPhase::AwaitPress),
        ButtonReaction { next: ButtonPhase::AwaitRelease, led_on: true, message: [1], debounce_ms: 100 }
    );
}

#[test]
fn release_turns_led_off_and_sends_off() {
    assert_eq!(
        on_awaited_level(ButtonPhase::AwaitRelease),
        ButtonReaction { next: ButtonPhase::AwaitPress, led_on: false, message: [0], debounce_ms: 100 }
    );
}

#[test]
fn press_and_release_alternate() {
    let mut phase = button_start();
    for n in 1..=6 {
        let r = on_awaited_level(phase);
        assert_eq!(r.led_on, n % 2 == 1);
        assert_eq!(r.message, if r.led_on { ON } else { OFF });
        assert_eq!(r.next == ButtonPhase::AwaitRelease, r.led_on);
        phase = r.next;
    }
    assert_eq!(phase, ButtonPhase::AwaitPress);
}
