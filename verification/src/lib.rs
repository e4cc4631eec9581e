//! Print agent core: turning a transport-encoded PDF into a print job and
//! steering it to a printer.
//!
//! Everything here is pure decision logic with machine-checked contracts.
//! Whatever touches the operating system (running commands, talking to a
//! device, writing files) is done by the caller, which feeds the outcomes
//! back in as plain values.

pub mod dispatch;
pub mod document;
pub mod error;
pub mod fallback;
pub mod geometry;
pub mod job;
pub mod printers;
pub mod raster;
pub mod session;
pub mod text;
