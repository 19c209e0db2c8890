use freemdu_gateway::bridge::{
    forward, led_on, signals_led, LedEvent, Read, Transfer, BUF_SIZE, LED_MIN_ON_MILLIS,
};

fn buffers() -> ([u8; BUF_SIZE], [u8; BUF_SIZE]) {
    let mut serial = [0; BUF_SIZE];
    let mut optical = [0; BUF_SIZE];
    for i in 0..BUF_SIZE {
        serial[i] = i as u8;
        optical[i] = 100 + i as u8;
    }
    (serial, optical)
}

#[test]
fn serial_goes_to_optical() {
    let (serial, optical) = buffers();
    for len in [0, 1, 5, BUF_SIZE] {
        let transfer = forward(Read::Serial(len), &serial, &optical);
        assert!(signals_led(&transfer));
        match transfer {
            Transfer::ToOptical(data) => assert_eq!(data, &serial[..len]),
            _ => panic!("wrong way"),
        }
    }
}

#[test]
fn optical_goes_to_serial() {
    let (serial, optical) = buffers();
    for len in [0, 1, 5, BUF_SIZE] {
        let transfer = forward(Read::Optical(len), &serial, &optical);
        assert!(!signals_led(&transfer));
        match transfer {
            Transfer::ToSerial(data) => assert_eq!(data, &optical[..len]),
            _ => panic!("wrong way"),
        }
    }
}

#[test]
fn read_errors_are_ignored() {
    let (serial, optical) = buffers();
    let transfer = forward(Read::Failed, &serial, &optical);
    assert!(!signals_led(&transfer));
    assert!(matches!(transfer, Transfer::Nothing));
}

#[test]
fn a_run_is_transparent() {
    let (_, optical) = buffers();
    let mut sent = vec![];
    for chunk in [&b"hello"[..], b"", b"world"] {
        let mut serial = [0xee; BUF_SIZE];
        serial[..chunk.len()].copy_from_slice(chunk);
        if let Transfer::ToOptical(data) = forward(Read::Serial(chunk.len()), &serial, &optical) {
            sent.extend_from_slice(data);
        }
    }
    assert_eq!(sent, b"helloworld");
}

#[test]
fn led_follows_the_signal() {
    assert!(led_on(LedEvent::Signalled));
    assert!(!led_on(LedEvent::TimedOut));
    assert_eq!(LED_MIN_ON_MILLIS, 10);
}
