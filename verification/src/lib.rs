//! Discovery of Beckhoff controllers on locally attached IPv4 networks, and
//! the ADS message framing shared with the forwarding side.
//!
//! `util` holds addresses, the hex dump and the message envelope, `netid` the
//! AMS network identifier, `udp` the two discovery protocols on the wire.
//! `scanner` runs a scan over the interfaces of `directory`, in the steps
//! that `exchange` describes. `le` and `text` say how numbers are read from
//! bytes and written out as text.

pub mod directory;
pub mod exchange;
pub mod le;
pub mod netid;
pub mod scanner;
pub mod text;
pub mod udp;
pub mod util;
