use nrf24_driver::cmt2300a::{CMT2300A, RawSpi};
use nrf24_driver::error::Error;
use nrf24_driver::sim::SimPin;

#[test]
fn cmt_transmit_puts_the_bytes_on_the_wire() {
    let mut radio = CMT2300A::new(RawSpi::new(), SimPin::new());
    radio.transmit(&vec![1, 2, 3]).unwrap();
    radio.transmit(&vec![4]).unwrap();
    assert_eq!(radio.spi.written, vec![1, 2, 3, 4]);
    assert!(radio.csb.level, "select line is released after the bracket");
}

#[test]
fn cmt_recieve_drains_the_queue_in_order() {
    let mut radio = CMT2300A::new(RawSpi::new(), SimPin::new());
    radio.spi.queue(&vec![9, 8, 7]);
    let mut buf = vec![0u8; 2];
    radio.recieve(&mut buf).unwrap();
    assert_eq!(buf, vec![9, 8]);
    let mut rest = vec![0u8; 3];
    radio.recieve(&mut rest).unwrap();
    assert_eq!(rest, vec![7, 0, 0]);
}

#[test]
fn cmt_bus_fault_surfaces_as_spi_error() {
    let mut radio = CMT2300A::new(RawSpi::with_budget(0), SimPin::new());
    assert!(matches!(radio.transmit(&vec![1]), Err(Error::Spi("write error"))));
    let mut buf = vec![0u8; 1];
    assert!(matches!(radio.recieve(&mut buf), Err(Error::Spi("read error"))));
}
