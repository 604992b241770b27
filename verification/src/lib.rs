//! Driver for the FS3000 I2C air-velocity sensor.
//!
//! The sensor answers every read request with a fixed 5-byte frame that
//! carries a 12-bit raw count plus an additive checksum.  The raw count is
//! converted to a physical velocity by piecewise-linear interpolation over a
//! per-variant calibration table.  The frame layout, the checksum rule and
//! the interpolation are specified and verified here; the I2C transport
//! itself is an external collaborator reached through the minimal
//! [`ReadableBus`] capability.

mod calib;
mod driver;
mod frame;

pub use driver::DeviceAddr;
pub use driver::FS3000;
pub use driver::ReadableBus;

pub use calib::ChipType;
pub use calib::counts_table;
pub use calib::interpolate;
pub use calib::lemma_interpolate_exact_at_nodes;
pub use calib::lemma_interpolate_in_range;
pub use calib::lemma_interpolate_monotonic;
pub use calib::lemma_table_wf;
pub use calib::nondecreasing;
pub use calib::seg_value;
pub use calib::spec_counts;
pub use calib::spec_interp_table;
pub use calib::spec_interpolate_mmps;
pub use calib::spec_velocities_mmps;
pub use calib::strictly_increasing;
pub use calib::table_wf;
pub use calib::velocities_table;
pub use frame::RawData;
pub use frame::decode;
pub use frame::frame_bytes;
pub use frame::get_counts;
pub use frame::lemma_complement_checksum;
pub use frame::lemma_count_of_decode;
pub use frame::lemma_frame_bytes_roundtrip;
pub use frame::spec_checksum_ok;
pub use frame::spec_count;
pub use frame::spec_decode;
pub use frame::spec_frame_bytes;
pub use frame::spec_frame_sum;
pub use frame::verify_checksum;
