//! Unofficial VRG9080 IMU and proximity report decoding, for Linux.
//!
//! The [`codec`] is independent of device I/O. The other modules hold what a session
//! with a device decides: which node it is ([`discovery`], [`open`]), how the device is
//! started ([`startup`]), what is buffered and counted ([`session`]), and when to wait
//! or to try again ([`hidraw`]). None of them performs I/O: a caller does, one action
//! at a time, and tells what came of it.
//!
//! Only the fixed messages of [`protocol`] are ever handed out for writing. Ending a
//! session sends nothing, and the device may keep streaming. Concurrent access by
//! another driver or reader is unsupported.

pub mod binary32;
pub mod bits;
pub mod codec;
pub mod codec_laws;
pub mod device_session;
pub mod discovery;
pub mod discovery_laws;
pub mod error;
pub mod hidraw;
pub mod identity;
pub mod identity_laws;
pub mod message;
pub mod message_laws;
pub mod node;
pub mod open;
pub mod os;
pub mod protocol;
pub mod session;
pub mod session_laws;
pub mod startup;
pub mod startup_laws;
pub mod text;

pub use codec::{
    parse_imu_report, parse_report, parse_status_report, CommandResponse, Event, ImuChannel,
    ImuFrame, ParseError, ProximityResponse, ReportHeader, StatusUpdate,
};
pub use device_session::DeviceSession;
pub use discovery::discover_devices;
pub use error::{RejectedReport, TransportError};
pub use node::DeviceInfo;
pub use session::{ConnectionInfo, StartupMode, Statistics};
