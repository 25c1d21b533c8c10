use nrf24_driver::driver::Nrf24l01;
use nrf24_driver::error::Error;
use nrf24_driver::sim::{SimPin, SimSpi, SimTimer};

fn fresh_driver() -> Nrf24l01 {
    Nrf24l01::new(SimSpi::new(), SimPin::new(), SimPin::new(), SimTimer::new(), 1, 32).unwrap()
}

#[test]
fn register_write_then_read_round_trips() {
    let mut nrf = fresh_driver();
    for addr in 0u8..0x18u8 {
        let v = addr.wrapping_mul(7).wrapping_add(3);
        nrf.write_register(addr, &vec![v]).unwrap();
        assert_eq!(nrf.read_register(addr).unwrap(), v);
    }
}

#[test]
fn multi_byte_register_stores_all_bytes() {
    let mut nrf = fresh_driver();
    nrf.write_register(0x10, &vec![1, 2, 3, 4, 5]).unwrap();
    assert_eq!(nrf.spi.dev.regs[0x10], vec![1, 2, 3, 4, 5]);
    assert_eq!(nrf.read_register(0x10).unwrap(), 1);
}

#[test]
fn set_txaddr_mirrors_into_pipe0() {
    let mut nrf = fresh_driver();
    nrf.set_rxaddr(&vec![0xAA; 5]).unwrap();
    nrf.set_txaddr(&vec![1, 2, 3, 4, 5]).unwrap();
    assert_eq!(nrf.spi.dev.regs[0x10], vec![1, 2, 3, 4, 5]);
    assert_eq!(nrf.spi.dev.regs[0x0A], vec![1, 2, 3, 4, 5]);
    assert_eq!(nrf.spi.dev.regs[0x0B], vec![0xAA; 5]);
}

#[test]
fn set_rxaddr_touches_only_pipe1() {
    let mut nrf = fresh_driver();
    nrf.set_txaddr(&vec![7; 5]).unwrap();
    nrf.set_rxaddr(&vec![1, 2, 3, 4, 5]).unwrap();
    assert_eq!(nrf.spi.dev.regs[0x0B], vec![1, 2, 3, 4, 5]);
    assert_eq!(nrf.spi.dev.regs[0x0A], vec![7; 5]);
    assert_eq!(nrf.spi.dev.regs[0x10], vec![7; 5]);
}

#[test]
fn flush_interrupts_writes_the_three_latched_bits() {
    let mut nrf = fresh_driver();
    nrf.flush_interrupts().unwrap();
    assert_eq!(nrf.spi.dev.regs[0x07], vec![0x70]);
}

#[test]
fn power_down_clears_power_bits_and_chip_enable() {
    let mut nrf = fresh_driver();
    nrf.config().unwrap();
    nrf.power_down().unwrap();
    assert_eq!(nrf.spi.dev.regs[0x00], vec![0x08]);
    assert!(!nrf.ce.level);
    assert!(matches!(
        nrf.power_state,
        nrf24_driver::driver::PowerState::PoweredDown
    ));
}

#[test]
fn register_io_failure_is_io_error() {
    let mut nrf =
        Nrf24l01::new(SimSpi::with_budget(0), SimPin::new(), SimPin::new(), SimTimer::new(), 1, 32)
            .unwrap();
    assert!(matches!(nrf.read_register(0x05), Err(Error::IOError(_))));
    assert!(matches!(nrf.write_register(0x05, &vec![1]), Err(Error::IOError(_))));
}

#[test]
fn new_with_stuck_pin_is_gpio_error() {
    let r = Nrf24l01::new(SimSpi::new(), SimPin::new(), SimPin::stuck(), SimTimer::new(), 1, 32);
    assert!(matches!(r, Err(Error::Gpio)));
}

#[test]
fn flush_rx_failure_is_spi_error() {
    let mut nrf =
        Nrf24l01::new(SimSpi::with_budget(0), SimPin::new(), SimPin::new(), SimTimer::new(), 1, 32)
            .unwrap();
    let r = nrf.flush_rx();
    assert!(matches!(r, Err(Error::Spi("write err"))));
}

#[test]
fn flush_rx_empties_the_rx_fifo() {
    let mut nrf = fresh_driver();
    nrf.spi.queue_rx(&vec![1, 2, 3]);
    nrf.flush_rx().unwrap();
    assert!(nrf.spi.dev.rx_fifo.is_empty());
}
