//! A UDPBD block-device server core: the wire protocol, the cursor and
//! packet tuning of the served volume, and the command state machine.

pub mod protocol;
pub mod server;
pub mod utils;
pub mod vexfat;
pub mod wire;
