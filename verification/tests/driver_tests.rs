use fs3000::ChipType;
use fs3000::DeviceAddr;
use fs3000::FS3000;
use fs3000::RawData;
use fs3000::ReadableBus;

/// A bus whose device always answers with the same 5 bytes.
struct FixedBus {
    bytes: [u8; 5],
}

impl FixedBus {
    fn new(bytes: [u8; 5]) -> Self {
        FixedBus { bytes }
    }
}

impl ReadableBus for FixedBus {
    type BusError = ();

    fn read_frame(&mut self, _address: u8) -> Result<[u8; 5], ()> {
        Ok(self.bytes)
    }
}

/// A bus whose every transaction fails with a fixed opaque error.
struct FailingBus;

impl ReadableBus for FailingBus {
    type BusError = u8;

    fn read_frame(&mut self, _address: u8) -> Result<[u8; 5], u8> {
        Err(42)
    }
}

#[test]
fn construction_never_fails_and_does_no_io() {
    let bus = FixedBus::new([0, 0, 0, 0, 0]);
    let driver = FS3000::new(bus, DeviceAddr::Default, ChipType::Type1005);
    assert!(driver.is_ok());
}

#[test]
fn the_fixed_device_address_is_0x28() {
    assert_eq!(DeviceAddr::Default.as_byte(), 0x28);
}

#[test]
fn get_raw_velocity_decodes_positionally() {
    let bus = FixedBus::new([0x70, 0x03, 0x8D, 0x01, 0x02]);
    let mut driver = FS3000::new(bus, DeviceAddr::Default, ChipType::Type1005).unwrap();
    let frame = driver.get_raw_velocity().unwrap();
    assert_eq!(
        frame,
        RawData {
            checksum: 0x70,
            data_high: 0x03,
            data_low: 0x8D,
            generic_checksum_1: 0x01,
            generic_checksum_2: 0x02,
        }
    );
}

#[test]
fn get_counts_returns_the_big_endian_count() {
    let bus = FixedBus::new([0x00, 0x03, 0x8D, 0x00, 0x00]);
    let mut driver = FS3000::new(bus, DeviceAddr::Default, ChipType::Type1005).unwrap();
    assert_eq!(driver.get_counts(), Ok(0x038D));
}

#[test]
fn debug_values_returns_the_frame_bytes_in_wire_order() {
    let bytes = [0x70, 0x03, 0x8D, 0x01, 0x02];
    let bus = FixedBus::new(bytes);
    let mut driver = FS3000::new(bus, DeviceAddr::Default, ChipType::Type1005).unwrap();
    assert_eq!(driver.debug_values(), Ok(bytes));
}

#[test]
fn calculate_checksum_judges_the_given_frame() {
    let bus = FixedBus::new([0; 5]);
    let mut driver = FS3000::new(bus, DeviceAddr::Default, ChipType::Type1005).unwrap();
    let clean = RawData {
        checksum: 0x70,
        data_high: 0x03,
        data_low: 0x8D,
        generic_checksum_1: 0x00,
        generic_checksum_2: 0x00,
    };
    assert!(driver.calculate_checksum(clean.clone()));
    let corrupted = RawData { data_low: 0x8E, ..clean };
    assert!(!driver.calculate_checksum(corrupted));
}

#[test]
fn end_to_end_measurement_for_the_narrow_range_variant() {
    // Count 0x038D = 909 falls between nodes (409, 0.0) and (915, 1.07):
    // the interpolated velocity is 500 * 1070 / 506 = 1057 mm/s, about
    // 1.058 m/s.
    let bus = FixedBus::new([0x00, 0x03, 0x8D, 0x00, 0x00]);
    let mut driver = FS3000::new(bus, DeviceAddr::Default, ChipType::Type1005).unwrap();
    assert_eq!(driver.get_measurement_mmps(), Ok(1057));
    let velocity = 1057 as f32 / 1000.0;
    assert!((velocity - 1.058).abs() < 0.002);
}

#[test]
fn transport_failure_propagates_from_every_operation() {
    let mut driver = FS3000::new(FailingBus, DeviceAddr::Default, ChipType::Type1005).unwrap();
    assert_eq!(driver.get_raw_velocity().unwrap_err(), 42);
    assert_eq!(driver.get_counts(), Err(42));
    assert_eq!(driver.debug_values(), Err(42));
    assert_eq!(driver.get_measurement_mmps(), Err(42));
    // The driver stays usable after a failure: the next call simply tries
    // again and reports the same transport error.
    assert_eq!(driver.get_counts(), Err(42));
}
