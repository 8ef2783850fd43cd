use nos3_io::i2c::BlockWrite;
use nos3_io::i2c::I2cEngine;
use nos3_io::uart::UartEngine;

#[test]
fn uart_flushes_once_when_the_port_drains() {
    // Real-adapter read sequence ["AB", "", "C"]: the middle read finds no
    // more data, so exactly one flush of "AB" happens before "C" accumulates.
    let mut engine = UartEngine::new();
    let first = engine.on_real_read("AB".as_bytes());
    assert_eq!(first, None);
    let second = engine.on_real_read("".as_bytes());
    assert_eq!(second, Some("AB".as_bytes().to_vec()));
    let third = engine.on_real_read("C".as_bytes());
    assert_eq!(third, None);
    assert_eq!(engine.pending, "C".as_bytes().to_vec());
}

#[test]
fn uart_accumulates_across_reads() {
    let mut engine = UartEngine::new();
    assert_eq!(engine.on_real_read("A".as_bytes()), None);
    assert_eq!(engine.on_real_read("B".as_bytes()), None);
    assert_eq!(engine.on_real_read("".as_bytes()), Some("AB".as_bytes().to_vec()));
    assert!(engine.pending.is_empty());
}

#[test]
fn uart_drained_read_with_nothing_pending_does_nothing() {
    let mut engine = UartEngine::new();
    assert_eq!(engine.on_real_read("".as_bytes()), None);
    assert!(engine.pending.is_empty());
}

#[test]
fn uart_sim_chunk_is_written_through_whole() {
    let engine = UartEngine::new();
    assert_eq!(engine.on_sim_read(vec![1, 2, 3]), Some(vec![1, 2, 3]));
    assert_eq!(engine.on_sim_read(vec![]), None);
}

#[test]
fn i2c_command_with_payload_becomes_one_message() {
    // Command 0x10, block read of 3 bytes [0x01, 0x02, 0x03]: exactly one
    // message [0x10, 0x01, 0x02, 0x03], and the command byte is remembered.
    let mut engine = I2cEngine::new();
    let msg = engine.on_real_read(0x10, Some(vec![0x01, 0x02, 0x03]));
    assert_eq!(msg, Some(vec![0x10, 0x01, 0x02, 0x03]));
    assert_eq!(engine.last_command, 0x10);
}

#[test]
fn i2c_command_with_empty_block_is_acknowledged_alone() {
    // Command 0x10, block read of 0 bytes: the message is exactly [0x10].
    let mut engine = I2cEngine::new();
    let msg = engine.on_real_read(0x10, Some(vec![]));
    assert_eq!(msg, Some(vec![0x10]));
}

#[test]
fn i2c_failed_block_read_sends_nothing() {
    let mut engine = I2cEngine::new();
    let msg = engine.on_real_read(0x20, None);
    assert_eq!(msg, None);
    assert_eq!(engine.last_command, 0x20);
}

#[test]
fn i2c_sim_data_is_written_at_the_last_command() {
    let mut engine = I2cEngine::new();
    engine.on_real_read(0x10, Some(vec![0x01]));
    let write = engine.on_sim_data(vec![0x09, 0x08]);
    assert_eq!(write, Some(BlockWrite { command: 0x10, payload: vec![0x09, 0x08] }));
}

#[test]
fn i2c_sim_data_never_changes_the_command_byte() {
    // Deliberate policy: the first byte of a simulated-master write is never
    // reinterpreted as a new command byte; only the real side sets it.
    let mut engine = I2cEngine::new();
    engine.on_real_read(0x10, Some(vec![0x01]));
    engine.on_sim_data(vec![0x77, 0x66]);
    assert_eq!(engine.last_command, 0x10);
    let write = engine.on_sim_data(vec![0x55]);
    assert_eq!(write, Some(BlockWrite { command: 0x10, payload: vec![0x55] }));
}

#[test]
fn i2c_empty_sim_poll_writes_nothing() {
    let engine = I2cEngine::new();
    assert_eq!(engine.on_sim_data(vec![]), None);
}
