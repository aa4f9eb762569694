//! Verified core of a three-port USB CDC to UART bridge.
//!
//! The library holds the data model and the decisions of the bridge: the
//! fixed-size packets that travel between the USB and UART sides, the
//! batching of packets into USB transfers, the assembly of UART bursts into
//! packets, the tracking of the host's baud rate, the WS2812 frame encoding
//! and its timing check, and the pad-register arithmetic for pull-ups.
//! The hardware and the async plumbing live outside the library.

pub mod packet;
pub mod batch;
pub mod channels;
pub mod uart;
pub mod usb;
pub mod ws2812;
pub mod pads;
