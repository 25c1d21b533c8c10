use nrf24_driver::builder::Nrf24l01Bulider;
use nrf24_driver::driver::PowerState;
use nrf24_driver::sim::{SimPin, SimSpi, SimTimer};

fn built(channel: u8, payload_size: u8) -> nrf24_driver::driver::Nrf24l01 {
    Nrf24l01Bulider::new()
        .spi(SimSpi::new())
        .csn(SimPin::new())
        .ce(SimPin::new())
        .timer(SimTimer::new())
        .channel(channel)
        .payload_size(payload_size)
        .build()
        .unwrap()
}

#[test]
fn config_programs_channel_width_and_mode() {
    let nrf = built(5, 8);
    let config_byte = nrf.spi.dev.regs[0x00][0];
    assert_eq!(config_byte & 0x02, 0x02, "PWR_UP must be set");
    assert_eq!(config_byte & 0x01, 0x01, "PRIM_RX must be set");
    assert_eq!(nrf.spi.dev.regs[0x05], vec![5]);
    assert_eq!(nrf.spi.dev.regs[0x11], vec![8]);
    assert_eq!(nrf.spi.dev.regs[0x12], vec![8]);
    assert!(nrf.ce.level);
    assert!(matches!(nrf.power_state, PowerState::ReceiveIdle));
}

#[test]
fn is_sending_before_any_send_touches_no_hardware() {
    let mut nrf = built(1, 32);
    let log_before = nrf.spi.dev.log.len();
    assert_eq!(nrf.is_sending().unwrap(), false);
    assert_eq!(nrf.spi.dev.log.len(), log_before);
}

#[test]
fn is_sending_tracks_tx_completion() {
    let mut nrf = built(1, 32);
    nrf.send(&vec![0u8; 32]).unwrap();
    assert!(matches!(nrf.power_state, PowerState::TransmitActive));
    // STATUS is still zero: the transmission is reported as in flight.
    assert_eq!(nrf.is_sending().unwrap(), true);
    // The device latches TX-done; the driver reverts to receive mode.
    nrf.write_register(0x07, &vec![0x20]).unwrap();
    assert_eq!(nrf.is_sending().unwrap(), false);
    assert_eq!(nrf.spi.dev.regs[0x00], vec![0x0B]);
    assert!(matches!(nrf.power_state, PowerState::ReceiveActive));
}

#[test]
fn is_sending_honours_max_retries_too() {
    let mut nrf = built(1, 32);
    nrf.send(&vec![0u8; 32]).unwrap();
    nrf.write_register(0x07, &vec![0x10]).unwrap();
    assert_eq!(nrf.is_sending().unwrap(), false);
    assert!(matches!(nrf.power_state, PowerState::ReceiveActive));
}

#[test]
fn data_ready_true_on_rx_dr_bit() {
    let mut nrf = built(1, 32);
    nrf.write_register(0x07, &vec![0x40]).unwrap();
    assert_eq!(nrf.data_ready().unwrap(), true);
}

#[test]
fn data_ready_true_on_nonempty_fifo_without_flag() {
    let mut nrf = built(1, 32);
    nrf.write_register(0x07, &vec![0x00]).unwrap();
    nrf.write_register(0x17, &vec![0x00]).unwrap();
    assert_eq!(nrf.data_ready().unwrap(), true);
}

#[test]
fn data_ready_false_when_flag_clear_and_fifo_empty() {
    let mut nrf = built(1, 32);
    nrf.write_register(0x07, &vec![0x00]).unwrap();
    nrf.write_register(0x17, &vec![0x02]).unwrap();
    assert_eq!(nrf.data_ready().unwrap(), false);
}
