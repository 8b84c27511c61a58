use infrared::sender::hal::PwmPin;
use infrared::sender::hal::Sender;
use infrared::sender::PulsedataSender;
use infrared::sender::RawEncoder;
use infrared::sender::Status;

/// A pin that records whether the carrier is currently on.
struct TestPin {
    on: bool,
}

impl TestPin {
    fn new() -> Self {
        Self { on: false }
    }
}

impl PwmPin for TestPin {
    fn enable(&mut self) {
        self.on = true;
    }

    fn disable(&mut self) {
        self.on = false;
    }
}

#[test]
fn tick_idle_while_nothing_is_loaded() {
    let mut sender = PulsedataSender::<8>::new();
    assert_eq!(Status::Idle, sender.tick(0));
    assert_eq!(Status::Idle, sender.tick(100));
}

#[test]
fn tick_walks_marks_and_spaces() {
    let mut sender = PulsedataSender::<8>::new();
    sender.load_command::<RawEncoder, 0>(&vec![2, 3, 1]);

    assert_eq!(Status::Transmit(true), sender.tick(0));
    assert_eq!(Status::Transmit(true), sender.tick(1));
    assert_eq!(Status::Transmit(false), sender.tick(2));
    assert_eq!(Status::Transmit(false), sender.tick(3));
    assert_eq!(Status::Transmit(false), sender.tick(4));
    assert_eq!(Status::Transmit(true), sender.tick(5));
    assert_eq!(Status::Idle, sender.tick(6));
    assert_eq!(Status::Idle, sender.tick(7));
}

#[test]
fn tick_is_deterministic_for_equal_inputs() {
    let mut first = PulsedataSender::<8>::new();
    let mut second = PulsedataSender::<8>::new();
    first.load_command::<RawEncoder, 0>(&vec![2, 2]);
    second.load_command::<RawEncoder, 0>(&vec![2, 2]);

    for ts in 0..6 {
        let a = first.tick(ts);
        let b = first.tick(ts);
        assert_eq!(a, b);
        assert_eq!(a, second.tick(ts));
    }
}

#[test]
fn tick_reports_error_on_zero_duration() {
    let mut sender = PulsedataSender::<8>::new();
    sender.load_command::<RawEncoder, 0>(&vec![3, 0, 2]);

    assert_eq!(Status::Error, sender.tick(0));
    assert_eq!(Status::Error, sender.tick(1000));
}

#[test]
fn hardware_sender_transmits_and_gates_the_pin() {
    let mut sender: Sender<TestPin, 0, 8> = Sender::new(TestPin::new());
    sender.load::<RawEncoder>(&vec![2, 1]);
    assert_eq!(&[2, 1], sender.buffer());

    assert_eq!(Status::Transmit(true), sender.tick());
    assert!(sender.pin.on);
    assert_eq!(Status::Transmit(true), sender.tick());
    assert!(sender.pin.on);
    assert_eq!(Status::Transmit(false), sender.tick());
    assert!(!sender.pin.on);
    assert_eq!(Status::Idle, sender.tick());
    assert!(!sender.pin.on);
}

#[test]
fn hardware_sender_ignores_load_while_transmitting() {
    let mut sender: Sender<TestPin, 0, 8> = Sender::new(TestPin::new());
    sender.load::<RawEncoder>(&vec![2, 2]);

    assert_eq!(Status::Transmit(true), sender.tick());
    assert_eq!(1, sender.counter);

    sender.load::<RawEncoder>(&vec![9, 9, 9]);
    assert_eq!(&[2, 2], sender.buffer());
    assert_eq!(1, sender.counter);

    assert_eq!(Status::Transmit(true), sender.tick());
    assert_eq!(Status::Transmit(false), sender.tick());
    assert_eq!(Status::Transmit(false), sender.tick());
    assert_eq!(Status::Idle, sender.tick());

    sender.load::<RawEncoder>(&vec![9, 9, 9]);
    assert_eq!(&[9, 9, 9], sender.buffer());
    assert_eq!(0, sender.counter);
}

#[test]
fn hardware_sender_disables_the_pin_on_error() {
    let mut sender: Sender<TestPin, 0, 8> = Sender::new(TestPin::new());
    sender.load::<RawEncoder>(&vec![0]);

    assert_eq!(Status::Error, sender.tick());
    assert!(!sender.pin.on);
}
