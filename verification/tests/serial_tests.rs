use prisma_drivers::serial::{ksnprintf, FixedBuffer, SerialPort, LOOPBACK_TEST_BYTE, PORT};

#[test]
fn test_buffer_formatting() {
    let mut buf = FixedBuffer::<64>::new();

    // Test basic formatting
    let len = ksnprintf(&mut buf, &format!("Hello, {}!", "world"));
    assert_eq!(buf.as_str(), "Hello, world!");
    assert_eq!(len, 13);

    // Test number formatting
    let _len = ksnprintf(&mut buf, &format!("Number: {}", 42));
    assert_eq!(buf.as_str(), "Number: 42");

    // Test hex formatting
    let _len = ksnprintf(&mut buf, &format!("Hex: 0x{:x}", 255));
    assert_eq!(buf.as_str(), "Hex: 0xff");
}

#[test]
fn test_serial_operations() {
    let serial = SerialPort::new(PORT);
    let sent = serial.write_str("Test message\n");
    assert_eq!(sent, b"Test message\n".to_vec());
    let sent_char = serial.write_str("X");
    assert_eq!(sent_char, vec![b'X']);
}

#[test]
fn serial_init_sequence_programs_uart() {
    let serial = SerialPort::new(PORT);
    let seq = serial.init_sequence();
    assert_eq!(
        seq,
        vec![
            (0x3F9, 0x00),
            (0x3FB, 0x80),
            (0x3F8, 0x03),
            (0x3F9, 0x00),
            (0x3FB, 0x03),
            (0x3FA, 0xC7),
            (0x3FC, 0x0B),
            (0x3FC, 0x1E),
            (0x3F8, 0xAE),
        ]
    );
}

#[test]
fn serial_loopback_result() {
    let serial = SerialPort::new(PORT);
    assert_eq!(serial.init_result(LOOPBACK_TEST_BYTE), Ok((0x3FC, 0x0F)));
    assert_eq!(serial.init_result(0x00), Err(()));
    assert_eq!(serial.line_status_port(), 0x3FD);
}

#[test]
fn serial_transmit_empty_bit() {
    assert!(SerialPort::is_transmit_empty(0x20));
    assert!(SerialPort::is_transmit_empty(0x60));
    assert!(!SerialPort::is_transmit_empty(0x1F));
}

#[test]
fn fixed_buffer_truncates_and_keeps_terminator() {
    let mut buf = FixedBuffer::<8>::new();
    let len = ksnprintf(&mut buf, "abcdefghij");
    assert_eq!(len, 7);
    assert_eq!(buf.as_str(), "abcdefg");
    buf.write_str("xyz");
    assert_eq!(buf.len(), 7);
    buf.clear();
    assert_eq!(buf.len(), 0);
    assert_eq!(buf.as_str(), "");
    buf.write_str("ab");
    buf.write_str("cd");
    assert_eq!(buf.as_str(), "abcd");
}

#[test]
fn fixed_buffer_cut_character_reads_empty() {
    let mut buf = FixedBuffer::<3>::new();
    // "é" takes two bytes; only the first fits before the terminator
    buf.write_str("aé");
    assert_eq!(buf.len(), 2);
    assert_eq!(buf.as_str(), "");
}
