use nrf24_driver::driver::Nrf24l01;
use nrf24_driver::sim::{SimPin, SimSpi, SimTimer};

fn fresh() -> Nrf24l01 {
    Nrf24l01::new(SimSpi::new(), SimPin::new(), SimPin::new(), SimTimer::new(), 1, 8).unwrap()
}

#[test]
fn receive_pops_one_payload_and_clears_the_flag() {
    let mut nrf = fresh();
    nrf.spi.queue_rx(&vec![10, 20, 30, 40]);
    let mut buf = vec![0u8; 3];
    nrf.receive(&mut buf).unwrap();
    assert_eq!(buf, vec![10, 20, 30]);
    assert_eq!(nrf.spi.dev.rx_fifo, vec![40]);
    // The RX-data-ready bit was written back to the status register.
    assert_eq!(nrf.spi.dev.regs[0x07], vec![0x40]);
}

#[test]
fn receive_pads_with_zeros_when_fifo_runs_dry() {
    let mut nrf = fresh();
    nrf.spi.queue_rx(&vec![7, 8]);
    let mut buf = vec![0xFFu8; 5];
    nrf.receive(&mut buf).unwrap();
    assert_eq!(buf, vec![7, 8, 0, 0, 0]);
    assert!(nrf.spi.dev.rx_fifo.is_empty());
}

#[test]
fn receive_wire_traffic_is_one_bracket_plus_flag_clear() {
    let mut nrf = fresh();
    nrf.spi.queue_rx(&vec![1, 2]);
    let log_before = nrf.spi.dev.log.len();
    let mut buf = vec![0u8; 2];
    nrf.receive(&mut buf).unwrap();
    assert_eq!(&nrf.spi.dev.log[log_before..], &[0x61, 0x27, 0x40]);
}

#[test]
fn receive_failure_leaves_buffer_alone() {
    let mut nrf =
        Nrf24l01::new(SimSpi::with_budget(0), SimPin::new(), SimPin::new(), SimTimer::new(), 1, 8)
            .unwrap();
    let mut buf = vec![9u8; 4];
    assert!(nrf.receive(&mut buf).is_err());
    assert_eq!(buf, vec![9u8; 4]);
}

#[test]
fn get_status_reads_the_status_register() {
    let mut nrf = fresh();
    nrf.write_register(0x07, &vec![0x2E]).unwrap();
    assert_eq!(nrf.get_status().unwrap(), 0x2E);
}
