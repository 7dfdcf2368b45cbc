use fib_swallow::fault::Fault;
use fib_swallow::state::{State, RECORD_LEN};

#[test]
fn new_state_holds_the_threshold_twice() {
    assert_eq!(State::new(100), State { prev: 100, next: 100 });
    assert_eq!(State::new(0), State { prev: 0, next: 0 });
    assert_eq!(State::new(u64::MAX), State { prev: u64::MAX, next: u64::MAX });
}

#[test]
fn advance_follows_the_recurrence() {
    let first = State::new(100).advance();
    assert_eq!(first, Ok(State { prev: 100, next: 200 }));
    let second = State { prev: 100, next: 200 }.advance();
    assert_eq!(second, Ok(State { prev: 200, next: 300 }));
    let third = State { prev: 200, next: 300 }.advance();
    assert_eq!(third, Ok(State { prev: 300, next: 500 }));
}

#[test]
fn advance_from_any_pair() {
    assert_eq!(State { prev: 7, next: 3 }.advance(), Ok(State { prev: 3, next: 10 }));
    assert_eq!(State { prev: 0, next: 0 }.advance(), Ok(State { prev: 0, next: 0 }));
}

#[test]
fn advance_reports_overflow() {
    assert_eq!(State { prev: 1, next: u64::MAX }.advance(), Err(Fault::Overflow));
    assert_eq!(State { prev: u64::MAX, next: u64::MAX }.advance(), Err(Fault::Overflow));
    assert_eq!(
        State { prev: 1 << 63, next: 1 << 63 }.advance(),
        Err(Fault::Overflow)
    );
}

#[test]
fn advance_reaches_the_largest_value() {
    assert_eq!(
        State { prev: 0, next: u64::MAX }.advance(),
        Ok(State { prev: u64::MAX, next: u64::MAX })
    );
    assert_eq!(
        State { prev: 1, next: u64::MAX - 1 }.advance(),
        Ok(State { prev: u64::MAX - 1, next: u64::MAX })
    );
}

#[test]
fn next_never_falls_below_prev() {
    let mut state = State { prev: 9, next: 2 };
    for _ in 0..40 {
        state = state.advance().unwrap();
        assert!(state.prev <= state.next);
    }
}

#[test]
fn thresholds_are_fibonacci_multiples_of_the_seed() {
    let fib: [u64; 12] = [0, 1, 1, 2, 3, 5, 8, 13, 21, 34, 55, 89];
    let mut state = State::new(100);
    for count in 1..=9usize {
        state = state.advance().unwrap();
        assert_eq!(state.prev, fib[count + 1] * 100);
        assert_eq!(state.next, fib[count + 2] * 100);
    }
}

#[test]
fn thresholds_from_a_mixed_seed() {
    let fib: [u64; 8] = [0, 1, 1, 2, 3, 5, 8, 13];
    let start = State { prev: 4, next: 10 };
    let mut state = start;
    for count in 1..=6usize {
        state = state.advance().unwrap();
        assert_eq!(state.next, fib[count] * start.prev + fib[count + 1] * start.next);
        assert_eq!(state.prev, fib[count - 1] * start.prev + fib[count] * start.next);
    }
}

#[test]
fn swallows_go_on_until_the_threshold_leaves_the_range() {
    let mut state = State::new(1);
    let mut count = 0;
    loop {
        match state.advance() {
            Ok(after) => {
                state = after;
                count += 1;
            }
            Err(fault) => {
                assert_eq!(fault, Fault::Overflow);
                break;
            }
        }
    }
    assert_eq!(count, 91);
    assert_eq!(state.next, 12_200_160_415_121_876_738);
    assert_eq!(state.prev, 7_540_113_804_746_346_429);
}

#[test]
fn encode_lays_out_prev_then_next() {
    let record = State { prev: 0x0102_0304_0506_0708, next: 200 }.encode();
    assert_eq!(
        record,
        [0x08, 0x07, 0x06, 0x05, 0x04, 0x03, 0x02, 0x01, 200, 0, 0, 0, 0, 0, 0, 0]
    );
    assert_eq!(record.len(), RECORD_LEN);
}

#[test]
fn decode_reads_prev_then_next() {
    let mut data = vec![0u8; 16];
    data[0] = 100;
    data[8] = 0x2c;
    data[9] = 0x01;
    assert_eq!(State::decode(&data), Ok(State { prev: 100, next: 300 }));
}

#[test]
fn decode_ignores_what_follows_the_record() {
    let mut data = State { prev: 5, next: 8 }.encode().to_vec();
    data.extend_from_slice(&[0xff; 20]);
    assert_eq!(State::decode(&data), Ok(State { prev: 5, next: 8 }));
}

#[test]
fn decode_refuses_a_short_record() {
    assert_eq!(State::decode(&[]), Err(Fault::AccountDataTooSmall));
    assert_eq!(State::decode(&[0u8; 15]), Err(Fault::AccountDataTooSmall));
    assert_eq!(State::decode(&[0u8; 16]), Ok(State { prev: 0, next: 0 }));
}

#[test]
fn record_round_trip() {
    let states = [
        State { prev: 0, next: 0 },
        State { prev: 100, next: 200 },
        State { prev: u64::MAX, next: 1 },
        State { prev: 0x1122_3344_5566_7788, next: u64::MAX },
    ];
    for state in states {
        assert_eq!(State::decode(&state.encode()), Ok(state));
    }
}
