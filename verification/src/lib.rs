//! Reader for the IVF container: a 32-byte header followed by timestamped
//! frame records, all integers little-endian.

pub mod container;
pub mod cursor;
pub mod error;
pub mod frame;
pub mod header;
pub mod le;

pub use container::{Ivf, IvfIter};
pub use cursor::ByteCursor;
pub use error::IvfError;
pub use frame::IvfFrame;
pub use header::IvfHeader;
