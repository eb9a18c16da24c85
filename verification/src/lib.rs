//! An in-memory, growable byte buffer with explicit byte-ordering control.
//!
//! [`Bytes`] owns a growable array of bytes together with a byte-ordering
//! mode ([`Ordering`]) that governs how multi-byte unsigned integers are
//! laid out when they are appended, read back, or altered in place.  All
//! accessors are bounds-checked: out-of-range reads return `None` and
//! out-of-range alterations return `false` and leave the buffer untouched.

pub mod buffer;
pub mod codec;

pub use buffer::Bytes;
pub use codec::Ordering;
