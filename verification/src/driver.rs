//! The sensor driver: owns the bus handle and the fixed device address,
//! and orchestrates read, decode and conversion.
//!
//! The I2C transport is an external collaborator.  The driver asks for it
//! through the minimal [`ReadableBus`] capability: one blocking read of
//! exactly 5 bytes from a 7-bit device address, answering with the bytes or
//! an opaque transport error.  Nothing is assumed about the answer, so every
//! driver operation is verified for every outcome the transport can produce,
//! and every transport failure is surfaced to the caller as a recoverable
//! `Err` — never a panic.

use crate::calib::ChipType;
use crate::calib::interpolate;
use crate::calib::lemma_interpolate_in_range;
use crate::calib::spec_interpolate_mmps;
use crate::calib::spec_velocities_mmps;
use crate::frame::RawData;
use crate::frame::decode;
use crate::frame::frame_bytes;
use crate::frame::get_counts;
use crate::frame::spec_checksum_ok;
use crate::frame::verify_checksum;
use vstd::prelude::*;

verus! {

/// The minimal transport capability the driver needs: one blocking read of
/// exactly 5 bytes from the device at the given 7-bit address.  Implemented
/// by the surrounding system over its concrete I2C bus; a failure of any
/// kind (NACK, timeout, arbitration loss) comes back as the opaque
/// `BusError`.  No promise is made about the bytes: the driver is verified
/// for every possible answer.
pub trait ReadableBus {
    /// The transport's opaque error type.
    type BusError;

    /// Reads the device's current 5-byte response frame.
    fn read_frame(&mut self, address: u8) -> Result<[u8; 5], Self::BusError>;
}

/// The chip's hard-wired 7-bit I2C address.  Every chip of this family sits
/// at 0x28; there is no alternate-address support.
#[derive(Debug, Clone, Copy, PartialEq, Eq, Structural)]
pub enum DeviceAddr {
    Default,
}

impl DeviceAddr {
    /// The 7-bit wire address this value stands for.
    pub open spec fn spec_as_byte(self) -> u8 {
        0x28
    }

    /// The 7-bit wire address, for the transport.
    pub fn as_byte(self) -> (b: u8)
        ensures
            b == self.spec_as_byte(),
    {
        match self {
            DeviceAddr::Default => 0x28,
        }
    }
}

/// The driver for one sensor: the exclusively owned bus handle plus the
/// immutable device address and chip variant.  Every operation is one fresh
/// read-decode-convert cycle; no state is kept between calls.
#[derive(Debug)]
pub struct FS3000<I2C: ReadableBus> {
    // The concrete I2C transport implementation
    i2c: I2C,
    // All chips of this family answer at the same fixed address
    address: DeviceAddr,
    // The hardware variant, which selects the calibration table
    subtype: ChipType,
}

impl<I2C: ReadableBus> FS3000<I2C> {
    /// The device address this driver was constructed with.
    pub closed spec fn spec_address(self) -> DeviceAddr {
        self.address
    }

    /// The chip variant this driver was constructed with.
    pub closed spec fn spec_subtype(self) -> ChipType {
        self.subtype
    }

    /// The chip variant this driver reads, for runtime use.
    pub fn subtype(&self) -> (subtype: ChipType)
        ensures
            subtype == self.spec_subtype(),
    {
        self.subtype
    }

    /// Builds a driver from a bus handle, address and variant.  Pure value
    /// construction: no I/O happens and the result is always `Ok`.
    pub fn new(i2c: I2C, address: DeviceAddr, subtype: ChipType) -> (result: Result<
        Self,
        I2C::BusError,
    >)
        ensures
            result matches Ok(driver) && driver.spec_address() == address
                && driver.spec_subtype() == subtype,
    {
        Ok(Self { i2c, address, subtype })
    }

    /// Issues one blocking 5-byte read at the fixed device address and
    /// decodes the answer into a frame.  A transport failure is passed on
    /// unchanged; the driver neither retries nor interprets it.
    pub fn get_raw_velocity(&mut self) -> (result: Result<RawData, I2C::BusError>)
        ensures
            final(self).spec_address() == old(self).spec_address(),
            final(self).spec_subtype() == old(self).spec_subtype(),
    {
        let address = self.address.as_byte();
        match self.i2c.read_frame(address) {
            Ok(buffer) => Ok(decode(&buffer)),
            Err(e) => Err(e),
        }
    }

    /// Reads one frame and returns its big-endian 16-bit raw count, or the
    /// transport error that prevented the read.
    pub fn get_counts(&mut self) -> (result: Result<u16, I2C::BusError>)
        ensures
            final(self).spec_address() == old(self).spec_address(),
            final(self).spec_subtype() == old(self).spec_subtype(),
    {
        match self.get_raw_velocity() {
            Ok(data) => Ok(get_counts(data)),
            Err(e) => Err(e),
        }
    }

    /// Reads one frame and returns its five bytes in wire order, for
    /// diagnostic use, or the transport error that prevented the read.
    pub fn debug_values(&mut self) -> (result: Result<[u8; 5], I2C::BusError>)
        ensures
            final(self).spec_address() == old(self).spec_address(),
            final(self).spec_subtype() == old(self).spec_subtype(),
    {
        match self.get_raw_velocity() {
            Ok(data) => Ok(frame_bytes(&data)),
            Err(e) => Err(e),
        }
    }

    /// Checks the additive modulo-256 checksum of a frame.  The read path
    /// never calls this on its own — that is a deliberate design choice, not
    /// an oversight: callers that need integrity assurance call it
    /// explicitly and decide their own recovery.
    pub fn calculate_checksum(&mut self, rawdata: RawData) -> (ok: bool)
        ensures
            ok == spec_checksum_ok(rawdata),
            *final(self) == *old(self),
    {
        verify_checksum(&rawdata)
    }

    /// Reads one frame and converts its raw count to a velocity in
    /// millimetres per second over this driver's calibration table, or
    /// returns the transport error that prevented the read.  On success the
    /// answer is exactly the interpolated value of some 16-bit count for
    /// this driver's variant.
    pub fn get_measurement_mmps(&mut self) -> (result: Result<u16, I2C::BusError>)
        ensures
            final(self).spec_address() == old(self).spec_address(),
            final(self).spec_subtype() == old(self).spec_subtype(),
            result matches Ok(v) ==> exists|count: u16|
                v == spec_interpolate_mmps(old(self).spec_subtype(), count),
            result matches Ok(v) ==> spec_velocities_mmps(old(self).spec_subtype()).first() <= v
                <= spec_velocities_mmps(old(self).spec_subtype()).last(),
    {
        match self.get_counts() {
            Ok(counts) => {
                let velocity = interpolate(&self.subtype, counts);
                proof {
                    assert(velocity == spec_interpolate_mmps(old(self).spec_subtype(), counts));
                    lemma_interpolate_in_range(old(self).spec_subtype(), counts);
                }
                Ok(velocity)
            },
            Err(e) => Err(e),
        }
    }
}

} // verus!
