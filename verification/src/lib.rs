//! Host-side driver core for a LoRa mesh-radio TNC attached over a serial
//! line: the dual-mode framing codec (ASCII lines vs. the reserved binary
//! KISS framing), the session state machine that sequences boot detection
//! and radio parameter negotiation, the parser for RXLOG receive records,
//! and the packet step of the receive pipeline.

pub mod codec;
pub mod pipeline;
pub mod rxlog;
pub mod session;
pub mod text;
