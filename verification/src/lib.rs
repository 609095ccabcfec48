//! Verified core of a desktop FTP file browser.
//!
//! The library covers the protocol-correctness layer of the application:
//! parsing heterogeneous directory-listing formats, remote path joining and
//! working-directory normalization, throttled transfer-progress emission,
//! the passive/extended-passive upload retry strategy, planning of recursive
//! remote copies, connection-candidate ordering, and the connected/disconnected
//! session state. All I/O (sockets, the FTP control channel, the local
//! filesystem, the GUI event stream) lives outside the library and feeds it
//! plain values.

pub mod clock;
pub mod error;
pub mod exif;
pub mod listing;
pub mod mime;
pub mod path;
pub mod progress;
pub mod remote_copy;
pub mod resolver;
pub mod session;
pub mod text;
pub mod upload;
