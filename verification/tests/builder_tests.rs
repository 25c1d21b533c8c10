use nrf24_driver::builder::Nrf24l01Bulider;
use nrf24_driver::driver::PowerState;
use nrf24_driver::error::BuilderError;
use nrf24_driver::sim::{SimPin, SimSpi, SimTimer};

#[test]
fn build_without_spi_reports_spi_first() {
    let r = Nrf24l01Bulider::new()
        .csn(SimPin::new())
        .ce(SimPin::new())
        .timer(SimTimer::new())
        .build();
    assert!(matches!(r, Err(BuilderError::SpiNotSpecified)));
}

#[test]
fn build_without_csn_reports_csn() {
    let r = Nrf24l01Bulider::new()
        .spi(SimSpi::new())
        .ce(SimPin::new())
        .timer(SimTimer::new())
        .build();
    assert!(matches!(r, Err(BuilderError::CsnNotSpecified)));
}

#[test]
fn build_missing_everything_reports_spi_before_the_rest() {
    let r = Nrf24l01Bulider::new().build();
    assert!(matches!(r, Err(BuilderError::SpiNotSpecified)));
    let r2 = Nrf24l01Bulider::new().spi(SimSpi::new()).build();
    assert!(matches!(r2, Err(BuilderError::CsnNotSpecified)));
    let r3 = Nrf24l01Bulider::new().spi(SimSpi::new()).csn(SimPin::new()).build();
    assert!(matches!(r3, Err(BuilderError::CeNotSpecified)));
    let r4 = Nrf24l01Bulider::new()
        .spi(SimSpi::new())
        .csn(SimPin::new())
        .ce(SimPin::new())
        .build();
    assert!(matches!(r4, Err(BuilderError::TimerNotSpecified)));
}

#[test]
fn build_applies_defaults() {
    let nrf = Nrf24l01Bulider::new()
        .spi(SimSpi::new())
        .csn(SimPin::new())
        .ce(SimPin::new())
        .timer(SimTimer::new())
        .build()
        .unwrap();
    assert_eq!(nrf.channel, 1);
    assert_eq!(nrf.payload_size, 32);
    assert_eq!(nrf.rx_address, vec![0u8; 5]);
    assert_eq!(nrf.tx_address, vec![0u8; 5]);
    assert_eq!(nrf.spi.dev.regs[0x05], vec![1u8]);
    assert_eq!(nrf.spi.dev.regs[0x11], vec![32u8]);
    assert_eq!(nrf.spi.dev.regs[0x12], vec![32u8]);
    assert_eq!(nrf.spi.dev.regs[0x0B], vec![0u8; 5]);
    assert_eq!(nrf.spi.dev.regs[0x0A], vec![0u8; 5]);
    assert_eq!(nrf.spi.dev.regs[0x10], vec![0u8; 5]);
    assert!(matches!(nrf.power_state, PowerState::ReceiveIdle));
}

#[test]
fn build_takes_supplied_parameters() {
    let nrf = Nrf24l01Bulider::new()
        .spi(SimSpi::new())
        .csn(SimPin::new())
        .ce(SimPin::new())
        .timer(SimTimer::new())
        .channel(42)
        .payload_size(16)
        .rx_address(vec![1, 2, 3, 4, 5])
        .tx_address(vec![9, 8, 7, 6, 5])
        .build()
        .unwrap();
    assert_eq!(nrf.channel, 42);
    assert_eq!(nrf.payload_size, 16);
    assert_eq!(nrf.spi.dev.regs[0x05], vec![42u8]);
    assert_eq!(nrf.spi.dev.regs[0x0B], vec![1, 2, 3, 4, 5]);
    assert_eq!(nrf.spi.dev.regs[0x0A], vec![9, 8, 7, 6, 5]);
    assert_eq!(nrf.spi.dev.regs[0x10], vec![9, 8, 7, 6, 5]);
}

#[test]
fn build_wire_traffic_is_exact() {
    let nrf = Nrf24l01Bulider::new()
        .spi(SimSpi::new())
        .csn(SimPin::new())
        .ce(SimPin::new())
        .timer(SimTimer::new())
        .channel(5)
        .payload_size(8)
        .rx_address(vec![1, 2, 3, 4, 5])
        .tx_address(vec![6, 7, 8, 9, 10])
        .build()
        .unwrap();
    // Pipe-1 RX address, pipe-0 RX address, TX address, channel, both
    // payload widths, receive-mode CONFIG, flush RX: in that order.
    let expected: Vec<u8> = vec![
        0x2B, 1, 2, 3, 4, 5, //
        0x2A, 6, 7, 8, 9, 10, //
        0x30, 6, 7, 8, 9, 10, //
        0x25, 5, //
        0x31, 8, //
        0x32, 8, //
        0x20, 0x0B, //
        0xE2,
    ];
    assert_eq!(nrf.spi.dev.log, expected);
}

#[test]
fn build_maps_protocol_failure_to_other() {
    let r = Nrf24l01Bulider::new()
        .spi(SimSpi::with_budget(0))
        .csn(SimPin::new())
        .ce(SimPin::new())
        .timer(SimTimer::new())
        .build();
    assert!(matches!(r, Err(BuilderError::Other)));
}

#[test]
fn build_with_stuck_csn_is_other() {
    let r = Nrf24l01Bulider::new()
        .spi(SimSpi::new())
        .csn(SimPin::stuck())
        .ce(SimPin::new())
        .timer(SimTimer::new())
        .build();
    assert!(matches!(r, Err(BuilderError::Other)));
}
