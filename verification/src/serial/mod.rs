//! The serial side of a device: what its background task decides.
//!
//! The task itself owns the port, the channels and the clock. It performs what is
//! decided here, and hands the outcomes back in.
//!
//! - [`lines`]: the modem-control lines, when a port is opened and to reset a chip;
//! - [`exchange`]: draining a stale stream, and the `info` exchange;
//! - [`info`]: the identification block;
//! - [`boot_fault`]: what a chip prints when it does not reach the CLI;
//! - [`recovery`]: escalating recovery of a device that does not verify;
//! - [`status`]: the runtime status of a device;
//! - [`link`]: one open connection, from its first exchange to its end.
pub mod boot_fault;
pub mod exchange;
pub mod info;
pub mod lines;
pub mod link;
pub mod recovery;
pub mod status;

pub use boot_fault::{detect_boot_fault, BootFault};
pub use exchange::{InfoExchange, InfoExchangeError, Quiesce, ReadOutcome, WriteOutcome};
pub use info::parse_info_block;
pub use lines::{plan_on_open, reset_pulse, LineStep};
pub use link::{
    ChipInfo, ConnectionExit, DecodeReport, FramePlan, FrameRead, Link, ReadStep, SinkAction,
};
pub use recovery::{RecoveryLadder, Rung};
pub use status::DeviceStatus;
