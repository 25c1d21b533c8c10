use nrf24_driver::builder::Nrf24l01Bulider;
use nrf24_driver::driver::PowerState;
use nrf24_driver::error::Error;
use nrf24_driver::sim::{SimPin, SimSpi, SimTimer};

#[test]
fn end_to_end_send_and_completion_poll() {
    let mut nrf = Nrf24l01Bulider::new()
        .spi(SimSpi::new())
        .csn(SimPin::new())
        .ce(SimPin::new())
        .timer(SimTimer::new())
        .channel(5)
        .payload_size(8)
        .rx_address(b"ABCDE".to_vec())
        .tx_address(b"ABCDE".to_vec())
        .build()
        .unwrap();
    assert_eq!(nrf.spi.dev.regs[0x0B], b"ABCDE".to_vec());
    assert_eq!(nrf.spi.dev.regs[0x0A], b"ABCDE".to_vec());
    assert_eq!(nrf.spi.dev.regs[0x10], b"ABCDE".to_vec());

    let mut payload = b"deadbe".to_vec();
    payload.resize(8, 0);
    let log_before = nrf.spi.dev.log.len();
    nrf.send(&payload).unwrap();

    // Wire traffic of send: status read, transmit-mode CONFIG write,
    // then one select bracket of FLUSH_TX, W_TX_PAYLOAD and the payload.
    let mut expected = vec![0x07, 0x20, 0x0A, 0xE1, 0xA0];
    expected.extend_from_slice(&payload);
    assert_eq!(&nrf.spi.dev.log[log_before..], &expected[..]);
    assert_eq!(nrf.spi.dev.tx_fifo, payload);
    assert!(nrf.csn.level, "chip-select is released after the bracket");
    assert!(nrf.ce.level, "chip-enable is asserted to start the radio");
    assert!(matches!(nrf.power_state, PowerState::TransmitActive));

    // Completion observed on a later poll: back to receive mode.
    nrf.write_register(0x07, &vec![0x20]).unwrap();
    assert_eq!(nrf.is_sending().unwrap(), false);
    assert!(matches!(nrf.power_state, PowerState::ReceiveActive));
    assert_eq!(nrf.spi.dev.regs[0x00], vec![0x0B]);
}

#[test]
fn send_while_earlier_transmission_hangs_times_out() {
    let mut nrf = Nrf24l01Bulider::new()
        .spi(SimSpi::new())
        .csn(SimPin::new())
        .ce(SimPin::new())
        .timer(SimTimer::new())
        .build()
        .unwrap();
    nrf.send(&vec![1u8; 32]).unwrap();
    // STATUS never reports completion, so the second send gives up.
    let r = nrf.send(&vec![2u8; 32]);
    assert!(matches!(r, Err(Error::IOError("tx wait timeout"))));
    assert!(matches!(nrf.power_state, PowerState::TransmitActive));
    let waited = nrf.timer.elapsed_ns;
    assert!(waited > 0, "the poll loop must yield between retries");
}

#[test]
fn send_after_observed_completion_goes_through() {
    let mut nrf = Nrf24l01Bulider::new()
        .spi(SimSpi::new())
        .csn(SimPin::new())
        .ce(SimPin::new())
        .timer(SimTimer::new())
        .build()
        .unwrap();
    nrf.send(&vec![1u8; 32]).unwrap();
    nrf.write_register(0x07, &vec![0x20]).unwrap();
    nrf.send(&vec![2u8; 32]).unwrap();
    assert_eq!(nrf.spi.dev.tx_fifo, vec![2u8; 32]);
    assert!(matches!(nrf.power_state, PowerState::TransmitActive));
}

#[test]
fn send_config_write_failure_is_config_error() {
    let mut nrf = nrf24_driver::driver::Nrf24l01::new(
        SimSpi::with_budget(3),
        SimPin::new(),
        SimPin::new(),
        SimTimer::new(),
        1,
        32,
    )
    .unwrap();
    // The priming status read uses up the budget; the transmit-mode
    // CONFIG write is the first operation that fails.
    let r = nrf.send(&vec![0u8; 32]);
    assert!(matches!(r, Err(Error::ConfigError)));
    assert!(matches!(nrf.power_state, PowerState::PoweredDown));
}

#[test]
fn send_with_stuck_chip_enable_is_gpio_error() {
    let nrf = nrf24_driver::driver::Nrf24l01::new(
        SimSpi::new(),
        SimPin::new(),
        SimPin::stuck(),
        SimTimer::new(),
        1,
        32,
    );
    assert!(matches!(nrf, Err(Error::Gpio)));
    // Construct without toggling the pins instead, through the builder
    // path that does not touch chip-enable until config.
    let b = Nrf24l01Bulider::new()
        .spi(SimSpi::new())
        .csn(SimPin::new())
        .ce(SimPin::stuck())
        .timer(SimTimer::new())
        .build();
    assert!(matches!(b, Err(nrf24_driver::error::BuilderError::Other)));
}
