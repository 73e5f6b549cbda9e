use discovery::echo::{EchoReply, EchoServer, ECHO_CAPACITY, LINE_END};
use discovery::gpio::{bsrr_reset, bsrr_set, EAST_LED_PIN, GPIOE_BSRR, NORTH_LED_PIN};
use discovery::magnetometer::{
    decode_reading, join_axis, read_reading_ops, I2cOp, Reading, MAGNETOMETER, OUT_X_H_M,
};
use discovery::serial::{received_byte, Receiver, Transmitter};
use discovery::timer::{delay, timer_setup, TimerOp, APB1_CLOCK_HZ, TIM6_PRESCALER};

#[test]
fn bsrr_words_of_the_register_exercise() {
    assert_eq!(GPIOE_BSRR, 0x4800_1018);
    assert_eq!(bsrr_set(NORTH_LED_PIN), 1 << 9);
    assert_eq!(bsrr_set(EAST_LED_PIN), 0x800);
    assert_eq!(bsrr_reset(NORTH_LED_PIN), 1 << (9 + 16));
    assert_eq!(bsrr_reset(EAST_LED_PIN), 0x0800_0000);
    assert_eq!(bsrr_set(0), 1);
    assert_eq!(bsrr_reset(15), 0x8000_0000);
}

#[test]
fn axis_bytes_join_into_signed_values() {
    assert_eq!(join_axis(0x01, 0x02), 258);
    assert_eq!(join_axis(0xff, 0xfe), -2);
    assert_eq!(join_axis(0x80, 0x00), i16::MIN);
    assert_eq!(join_axis(0x7f, 0xff), i16::MAX);
    for v in i16::MIN..=i16::MAX {
        let w = v as u16;
        assert_eq!(join_axis((w >> 8) as u8, w as u8), v);
    }
}

#[test]
fn reading_is_decoded_in_x_z_y_register_order() {
    let r = decode_reading(&[0x01, 0x02, 0xff, 0xfe, 0x80, 0x00]);
    assert_eq!(r, Reading { x: 258, y: -32768, z: -2 });
}

#[test]
fn reading_transaction_reads_six_bytes() {
    let ops = read_reading_ops();
    assert_eq!(ops.len(), 17);
    assert_eq!(
        ops[0],
        I2cOp::Start { address: MAGNETOMETER, read: false, nbytes: 1, autoend: false }
    );
    assert_eq!(MAGNETOMETER, 0x1e);
    assert_eq!(ops[1], I2cOp::WaitTransmitReady);
    assert_eq!(ops[2], I2cOp::Transmit(OUT_X_H_M));
    assert_eq!(ops[3], I2cOp::WaitTransferComplete);
    assert_eq!(ops[4], I2cOp::Restart { read: true, nbytes: 6, autoend: true });
    for k in 0..6 {
        assert_eq!(ops[5 + 2 * k], I2cOp::WaitReceived);
        assert_eq!(ops[6 + 2 * k], I2cOp::Receive);
    }
}

#[test]
fn transmitter_sends_each_byte_when_register_is_empty() {
    let mut t = Transmitter::new(b"Hi!".to_vec());
    let readings = [false, true, false, false, true, true, true, false];
    let mut written = Vec::new();
    for r in readings {
        if !t.pending() {
            break;
        }
        if let Some(w) = t.on_status(r) {
            written.push(w);
        }
    }
    assert_eq!(written, vec![b'H' as u16, b'i' as u16, b'!' as u16]);
    assert!(!t.pending());
    assert_eq!(t.on_status(true), None);
}

#[test]
fn transmitter_of_empty_string_has_nothing_to_send() {
    let t = Transmitter::new(Vec::new());
    assert!(!t.pending());
}

#[test]
fn received_byte_keeps_low_eight_bits() {
    assert_eq!(received_byte(0x41), b'A');
    assert_eq!(received_byte(0x1ff), 0xff);
    assert_eq!(received_byte(0x100), 0);
}

#[test]
fn timer_setup_and_delay_operations() {
    assert_eq!(
        timer_setup(),
        vec![TimerOp::EnableClock, TimerOp::OnePulseStopped, TimerOp::SetPrescaler(7999)]
    );
    assert_eq!(
        delay(50),
        vec![
            TimerOp::SetAutoReload(50),
            TimerOp::EnableCounter,
            TimerOp::WaitUpdate,
            TimerOp::ClearUpdate
        ]
    );
    assert_eq!(APB1_CLOCK_HZ / (TIM6_PRESCALER as u32 + 1), 1000);
}

#[test]
fn echo_stores_bytes_then_reverses_on_line_end() {
    let mut s = EchoServer::new();
    assert!(s.request().is_empty());
    for b in b"abc" {
        assert!(matches!(s.handle_byte(*b), EchoReply::Nothing));
    }
    assert_eq!(s.request(), b"abc".to_vec());
    match s.handle_byte(LINE_END) {
        EchoReply::Reversed(bytes) => assert_eq!(bytes, b"cba".to_vec()),
        _ => panic!("expected a reversed reply"),
    }
    assert_eq!(s.request(), b"cba".to_vec());
}

#[test]
fn echo_line_end_on_empty_buffer_is_stored() {
    let mut s = EchoServer::new();
    assert!(matches!(s.handle_byte(b'\n'), EchoReply::Nothing));
    assert_eq!(s.request(), vec![b'\n']);
}

#[test]
fn echo_reports_full_buffer() {
    let mut s = EchoServer::new();
    for i in 0..ECHO_CAPACITY {
        assert!(matches!(s.handle_byte(b'a' + (i % 26) as u8), EchoReply::Nothing));
    }
    assert!(matches!(s.handle_byte(b'z'), EchoReply::BufferFull));
    assert_eq!(s.request().len(), 32);
}

#[test]
fn echo_serving_loop_clears_before_each_byte() {
    let mut s = EchoServer::new();
    for b in b"hello\n" {
        assert!(matches!(s.serve_byte(*b), EchoReply::Nothing));
        assert_eq!(s.request(), vec![*b]);
    }
}

fn send_all(bytes: &[u8], readings: &[bool]) -> Vec<u16> {
    let mut t = Transmitter::new(bytes.to_vec());
    let mut words = Vec::new();
    for &r in readings {
        if !t.pending() {
            break;
        }
        if let Some(w) = t.on_status(r) {
            words.push(w);
        }
    }
    assert!(!t.pending());
    words
}

#[test]
fn sending_two_strings_writes_their_concatenation() {
    let readings = [false, true, true, false, true, true, true, true];
    let mut words = send_all("ab".as_bytes(), &readings);
    words.extend(send_all("cé".as_bytes(), &readings));
    let joined = send_all("abcé".as_bytes(), &readings);
    let expected: Vec<u16> = "abcé".bytes().map(u16::from).collect();
    assert_eq!(words, expected);
    assert_eq!(joined, expected);
}

#[test]
fn receiver_reads_once_when_flag_is_set() {
    let mut rx = Receiver::new();
    assert!(rx.waiting());
    assert!(!rx.on_status(false));
    assert!(rx.waiting());
    assert!(!rx.on_status(false));
    assert!(rx.on_status(true));
    assert!(!rx.waiting());
    assert!(!rx.on_status(true));
}
