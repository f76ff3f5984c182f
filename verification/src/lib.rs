//! A fixed-capacity circular sample buffer with one write cursor and any
//! number of read cursors ("taps"), each trailing the writer by its own delay.
//!
//! The buffer owns the storage. Cursors are plain positions into it: every
//! cursor operation names the buffer it works on, so one buffer can be written
//! through its write head and read through many read heads without copying.
//!
//! - [`buffer`]: the buffer, its construction and the writer slot;
//! - [`write_head`] and [`read_head`]: the cursors;
//! - [`wrap`]: the cyclic index arithmetic that the cursors share;
//! - [`history`]: what whole runs of pushes and pulls come to;
//! - [`num`] and [`error`]: the sample trait and the error type.

pub mod buffer;
pub mod error;
pub mod history;
pub mod num;
pub mod read_head;
pub mod wrap;
pub mod write_head;

pub use buffer::Multitap;
pub use error::MultitapError;
pub use num::Num;
pub use read_head::ReadHead;
pub use write_head::WriteHead;
