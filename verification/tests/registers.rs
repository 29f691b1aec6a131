use svd::access::{apply, modify, read_field};
use svd::regs::RegField;
use svd::util::{or_tuples, shift_tuple};

/// The named value `USE_16384_CLOCK_CYCLES` of the WDT CONFIG fields PER and WINDOW.
const USE_16384_CLOCK_CYCLES: usize = 0xB;

#[test]
fn wdt_changes() {
    // WDT CONFIG: PER at bits 0..4, WINDOW at bits 4..8.
    let per = RegField { width: 4 };
    let window = RegField { width: 4 };
    let mut config: usize = 0;

    // WDT.CONFIG.write().WINDOW(..).PER(..)
    let write = apply(apply((0, 0), 4, window.set_value(USE_16384_CLOCK_CYCLES)), 0, per.set_value(USE_16384_CLOCK_CYCLES));
    config = modify(config, write);
    // WDT.CONFIG.update().PER(..)
    let update = apply((0, 0), 0, per.update_value(USE_16384_CLOCK_CYCLES));
    config = modify(config, update);

    assert!(read_field(&per, 0, config) == USE_16384_CLOCK_CYCLES);
    assert_eq!(config, 187);

    // I2CM.ADDR.write().ADDR(0xde): ADDR is bits 0..11 of a cleared register.
    let addr = RegField { width: 11 };
    let i2cm_addr = modify(0x7ff, apply((0, 0), 0, addr.set_value(0xde)));
    assert_eq!(i2cm_addr, 0xde);
}

#[test]
fn reg_field_masks() {
    let f = RegField { width: 3 };
    assert_eq!(f.set(), (0, 0b111));
    assert_eq!(f.update(), (0b111, 0b111));
    assert_eq!(f.set_value(0b1101), (0, 0b101));
    assert_eq!(f.update_value(0b1101), (0b111, 0b101));
    assert_eq!(f.read(0b1101), 0b101);
    let z = RegField { width: 0 };
    assert_eq!(z.set(), (0, 0));
    assert_eq!(z.read(usize::MAX), 0);
}

#[test]
fn tuples_combine() {
    assert_eq!(or_tuples((0b0011, 0b0001), (0b1100, 0b0100)), (0b1111, 0b0101));
    assert_eq!(shift_tuple(4, (0b11, 0b01)), (0b110000, 0b010000));
}

#[test]
fn update_keeps_other_bits() {
    let f = RegField { width: 2 };
    let v = modify(0b1111_0000, apply((0, 0), 2, f.update_value(0b01)));
    assert_eq!(v, 0b1111_0100);
    assert_eq!(read_field(&f, 2, v), 0b01);
    // A write with nothing to clear takes only the bits to set.
    assert_eq!(modify(0b1111_0000, (0, 0b100)), 0b100);
}
