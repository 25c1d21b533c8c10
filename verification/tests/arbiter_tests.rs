use nrf24_driver::driver::Nrf24l01;
use nrf24_driver::error::Error;
use nrf24_driver::operation::Operation;
use nrf24_driver::sim::{SimPin, SimSpi, SimTimer};

fn fresh() -> Nrf24l01 {
    Nrf24l01::new(SimSpi::new(), SimPin::new(), SimPin::new(), SimTimer::new(), 1, 32).unwrap()
}

#[test]
fn transaction_runs_a_heterogeneous_batch_atomically() {
    let mut nrf = fresh();
    // One bracket: program the channel register, then wait.
    let ops = vec![Operation::Write(vec![0x25, 77]), Operation::Delay(50)];
    let resps = nrf.transaction(&ops).unwrap();
    assert_eq!(resps.len(), 2);
    assert_eq!(nrf.spi.dev.regs[0x05], vec![77]);
    assert_eq!(nrf.timer.elapsed_ns, 50);
    assert!(nrf.csn.level, "chip-select is deasserted after the batch");
    // A second bracket reads the register back.
    let ops = vec![Operation::Write(vec![0x05]), Operation::Read(1)];
    let resps = nrf.transaction(&ops).unwrap();
    assert_eq!(resps[1], vec![77]);
}

#[test]
fn transaction_transfer_is_full_duplex() {
    let mut nrf = fresh();
    nrf.write_register(0x05, &vec![9]).unwrap();
    // The response byte is produced before the outgoing byte is decoded.
    let ops = vec![Operation::Write(vec![0x05]), Operation::Transfer(vec![0x00])];
    let resps = nrf.transaction(&ops).unwrap();
    assert_eq!(resps[1], vec![9]);
}

#[test]
fn transaction_with_stuck_chip_select_is_gpio() {
    let mut nrf =
        Nrf24l01 { csn: SimPin::stuck(), ..fresh() };
    let r = nrf.transaction(&vec![Operation::Read(1)]);
    assert!(matches!(r, Err(Error::Gpio)));
}

#[test]
fn transaction_failure_names_the_operation_kind() {
    let mut nrf =
        Nrf24l01::new(SimSpi::with_budget(1), SimPin::new(), SimPin::new(), SimTimer::new(), 1, 32)
            .unwrap();
    let ops = vec![Operation::Write(vec![0x25]), Operation::Write(vec![5])];
    let r = nrf.transaction(&ops);
    match r {
        Err(Error::Spi(reason)) => assert_eq!(reason, "write error"),
        other => panic!("expected an SPI error, got {:?}", other),
    }
    assert!(nrf.csn.level, "chip-select is released even on failure");
}

#[test]
fn transaction_flush_failure_is_reported() {
    let mut nrf =
        Nrf24l01::new(SimSpi::with_budget(1), SimPin::new(), SimPin::new(), SimTimer::new(), 1, 32)
            .unwrap();
    let r = nrf.transaction(&vec![Operation::Write(vec![0x25, 5])]);
    match r {
        Err(Error::Spi(reason)) => assert_eq!(reason, "flush error"),
        other => panic!("expected a flush error, got {:?}", other),
    }
}

#[test]
fn transfer_in_place_swaps_buffers() {
    let mut spi = SimSpi::new();
    let mut buf = vec![0x05u8];
    // Nothing pending: the device produces zero while the byte goes out.
    spi.transfer_in_place(&mut buf).unwrap();
    assert_eq!(buf, vec![0]);
    assert_eq!(*spi.dev.log.last().unwrap(), 0x05);
}
