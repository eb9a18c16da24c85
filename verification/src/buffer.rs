//! The byte buffer itself: a growable, exclusively-owned array of bytes
//! with bounds-checked accessors for 8-, 32- and 64-bit unsigned values.

use crate::codec::{
    Ordering, encode_u32, encode_u64, spec_read_u32, spec_read_u64, spec_read_u8, splice,
};
use vstd::prelude::*;
use vstd::slice::slice_to_vec;
use vstd::string::StringSliceAdditionalSpecFns;

verus! {

/// A growable byte array paired with the byte ordering used for all
/// multi-byte appends, reads and in-place alterations.
///
/// The ordering of a fresh buffer is always [`Ordering::LittleEndian`]:
/// it is a fixed, documented default, not a reflection of the machine
/// the code runs on.
pub struct Bytes {
    ordering: Ordering,
    data: Vec<u8>,
}

impl View for Bytes {
    type V = Seq<u8>;

    closed spec fn view(&self) -> Seq<u8> {
        self.data@
    }
}

impl Bytes {
    /// The ordering currently governing multi-byte operations.
    pub closed spec fn ordering(&self) -> Ordering {
        self.ordering
    }

    /// Create a new, empty buffer; the ordering defaults to little-endian.
    pub fn new() -> (b: Bytes)
        ensures
            b@ == Seq::<u8>::empty(),
            b.ordering() is LittleEndian,
    {
        Bytes { ordering: Ordering::LittleEndian, data: Vec::<u8>::new() }
    }

    /// Set the ordering used by all subsequent multi-byte operations;
    /// the bytes already stored are left exactly as they are.
    pub fn set_ordering(&mut self, order: Ordering)
        ensures
            final(self).ordering() == order,
            final(self)@ == old(self)@,
    {
        self.ordering = order;
    }

    /// Create a buffer holding a copy of the given bytes; the ordering
    /// defaults to little-endian.
    pub fn from_slice(bytes: &[u8]) -> (b: Bytes)
        ensures
            b@ == bytes@,
            b.ordering() is LittleEndian,
    {
        Bytes { ordering: Ordering::LittleEndian, data: slice_to_vec(bytes) }
    }

    /// Borrow the stored bytes as an immutable slice.
    pub fn as_slice(&self) -> (s: &[u8])
        ensures
            s@ == self@,
    {
        self.data.as_slice()
    }

    /// An independent copy of the stored bytes.
    pub fn as_vec(&self) -> (v: Vec<u8>)
        ensures
            v@ == self@,
    {
        slice_to_vec(self.data.as_slice())
    }

    /// The number of bytes currently stored.
    pub fn len(&self) -> (n: usize)
        ensures
            n == self@.len(),
    {
        self.data.len()
    }

    /// The current length as a 32-bit value; lengths beyond `u32::MAX`
    /// are truncated.
    pub fn offset32(&self) -> (n: u32)
        ensures
            n == self@.len() % 0x1_0000_0000,
            self@.len() <= u32::MAX ==> n == self@.len(),
    {
        let l: usize = self.data.len();
        proof {
            assert(l as u32 == (l as u64) % 0x1_0000_0000 && (l <= 0xffff_ffff ==> l as u32 == l))
                by (bit_vector);
            assert(l as u64 == l);
        }
        #[verifier::truncate] (l as u32)
    }

    /// The current length as a 64-bit value.
    pub fn offset64(&self) -> (n: u64)
        ensures
            n == self@.len(),
    {
        self.data.len() as u64
    }

    /// Append the UTF-8 encoding of `to_add`, with no terminator.
    pub fn add_string(&mut self, to_add: &str)
        ensures
            final(self)@ == old(self)@ + to_add.spec_bytes(),
            final(self)@.len() == old(self)@.len() + to_add.spec_bytes().len(),
            final(self).ordering() == old(self).ordering(),
    {
        let bytes: &[u8] = to_add.as_bytes();
        let n: usize = bytes.len();
        let mut i: usize = 0;
        while i < n
            invariant
                i <= n,
                n == bytes@.len(),
                bytes@ == to_add.spec_bytes(),
                self.data@ == old(self).data@ + bytes@.subrange(0, i as int),
                self.ordering == old(self).ordering,
            decreases n - i,
        {
            let b: u8 = bytes[i];
            self.data.push(b);
            i = i + 1;
            proof {
                assert(bytes@.subrange(0, i as int) =~= bytes@.subrange(0, i as int - 1).push(b));
            }
        }
        proof {
            assert(bytes@.subrange(0, n as int) =~= bytes@);
        }
    }

    /// Append a single zero byte.
    pub fn add_null_terminator(&mut self)
        ensures
            final(self)@ == old(self)@.push(0u8),
            final(self)@.len() == old(self)@.len() + 1,
            final(self).ordering() == old(self).ordering(),
    {
        self.data.push(0);
    }

    /// Append the UTF-8 encoding of `to_add` followed by a zero byte.
    pub fn add_null_term_string(&mut self, to_add: &str)
        ensures
            final(self)@ == (old(self)@ + to_add.spec_bytes()).push(0u8),
            final(self).ordering() == old(self).ordering(),
    {
        self.add_string(to_add);
        self.add_null_terminator();
    }

    /// Append zero bytes until the length is a multiple of four.  The
    /// padding amount is `4 - length % 4`, so a buffer whose length is
    /// already a multiple of four grows by a full four bytes.
    pub fn pad_to_u32(&mut self)
        ensures
            final(self)@ == old(self)@ + Seq::new((4 - old(self)@.len() % 4) as nat, |j: int| 0u8),
            final(self)@.len() == old(self)@.len() + 4 - old(self)@.len() % 4,
            final(self)@.len() % 4 == 0,
            final(self).ordering() == old(self).ordering(),
    {
        let padding: usize = 4 - (self.data.len() % 4);
        let mut i: usize = 0;
        while i < padding
            invariant
                i <= padding,
                padding == 4 - old(self)@.len() % 4,
                self.data@ == old(self).data@ + Seq::new(i as nat, |j: int| 0u8),
                self.ordering == old(self).ordering,
            decreases padding - i,
        {
            self.data.push(0);
            i = i + 1;
            proof {
                assert(old(self).data@ + Seq::new(i as nat, |j: int| 0u8) =~= (old(self).data@
                    + Seq::new((i - 1) as nat, |j: int| 0u8)).push(0u8));
            }
        }
        proof {
            let l = old(self)@.len() as int;
            let p = padding as int;
            assert((l + p) % 4 == 0) by (nonlinear_arith)
                requires
                    l >= 0,
                    p == 4 - l % 4,
            ;
        }
    }

    /// Append a single byte.
    pub fn add_u8(&mut self, value: u8)
        ensures
            final(self)@ == old(self)@.push(value),
            final(self)@.len() == old(self)@.len() + 1,
            final(self).ordering() == old(self).ordering(),
    {
        self.data.push(value);
    }

    /// Append the four bytes of `value`, laid out under the buffer's
    /// current ordering.
    pub fn add_u32(&mut self, value: u32)
        ensures
            final(self)@ == old(self)@ + encode_u32(old(self).ordering(), value),
            final(self)@.len() == old(self)@.len() + 4,
            final(self).ordering() == old(self).ordering(),
    {
        match self.ordering {
            Ordering::LittleEndian => {
                self.data.push(#[verifier::truncate] (value as u8));
                self.data.push(#[verifier::truncate] ((value >> 8) as u8));
                self.data.push(#[verifier::truncate] ((value >> 16) as u8));
                self.data.push(#[verifier::truncate] ((value >> 24) as u8));
            },
            Ordering::BigEndian => {
                self.data.push(#[verifier::truncate] ((value >> 24) as u8));
                self.data.push(#[verifier::truncate] ((value >> 16) as u8));
                self.data.push(#[verifier::truncate] ((value >> 8) as u8));
                self.data.push(#[verifier::truncate] (value as u8));
            },
        }
        proof {
            assert(self.data@ =~= old(self).data@ + encode_u32(old(self).ordering(), value));
        }
    }

    /// Append the eight bytes of `value`, laid out under the buffer's
    /// current ordering.
    pub fn add_u64(&mut self, value: u64)
        ensures
            final(self)@ == old(self)@ + encode_u64(old(self).ordering(), value),
            final(self)@.len() == old(self)@.len() + 8,
            final(self).ordering() == old(self).ordering(),
    {
        match self.ordering {
            Ordering::LittleEndian => {
                self.data.push(#[verifier::truncate] (value as u8));
                self.data.push(#[verifier::truncate] ((value >> 8) as u8));
                self.data.push(#[verifier::truncate] ((value >> 16) as u8));
                self.data.push(#[verifier::truncate] ((value >> 24) as u8));
                self.data.push(#[verifier::truncate] ((value >> 32) as u8));
                self.data.push(#[verifier::truncate] ((value >> 40) as u8));
                self.data.push(#[verifier::truncate] ((value >> 48) as u8));
                self.data.push(#[verifier::truncate] ((value >> 56) as u8));
            },
            Ordering::BigEndian => {
                self.data.push(#[verifier::truncate] ((value >> 56) as u8));
                self.data.push(#[verifier::truncate] ((value >> 48) as u8));
                self.data.push(#[verifier::truncate] ((value >> 40) as u8));
                self.data.push(#[verifier::truncate] ((value >> 32) as u8));
                self.data.push(#[verifier::truncate] ((value >> 24) as u8));
                self.data.push(#[verifier::truncate] ((value >> 16) as u8));
                self.data.push(#[verifier::truncate] ((value >> 8) as u8));
                self.data.push(#[verifier::truncate] (value as u8));
            },
        }
        proof {
            assert(self.data@ =~= old(self).data@ + encode_u64(old(self).ordering(), value));
        }
    }

    /// Read the byte at `offset`, or `None` if `offset` is out of bounds.
    pub fn read_u8(&self, offset: usize) -> (r: Option<u8>)
        ensures
            r == spec_read_u8(self@, offset as int),
            offset < self@.len() <==> r is Some,
    {
        if offset < self.data.len() {
            Some(self.data[offset])
        } else {
            None
        }
    }

    /// Read the 32-bit value stored at `offset` under the buffer's
    /// current ordering, or `None` if four bytes do not fit there.
    pub fn read_u32(&self, offset: usize) -> (r: Option<u32>)
        ensures
            r == spec_read_u32(self.ordering(), self@, offset as int),
            offset + 4 <= self@.len() <==> r is Some,
    {
        if self.data.len() >= 4 && offset <= self.data.len() - 4 {
            let b0 = self.data[offset];
            let b1 = self.data[offset + 1];
            let b2 = self.data[offset + 2];
            let b3 = self.data[offset + 3];
            proof {
                assert(self@.subrange(offset as int, offset as int + 4) =~= seq![b0, b1, b2, b3]);
                assert(seq![b0, b1, b2, b3].reverse() =~= seq![b3, b2, b1, b0]);
            }
            match self.ordering {
                Ordering::LittleEndian => Some(
                    (b0 as u32) | ((b1 as u32) << 8) | ((b2 as u32) << 16) | ((b3 as u32) << 24),
                ),
                Ordering::BigEndian => Some(
                    (b3 as u32) | ((b2 as u32) << 8) | ((b1 as u32) << 16) | ((b0 as u32) << 24),
                ),
            }
        } else {
            None
        }
    }

    /// Read the 64-bit value stored at `offset` under the buffer's
    /// current ordering, or `None` if eight bytes do not fit there.
    pub fn read_u64(&self, offset: usize) -> (r: Option<u64>)
        ensures
            r == spec_read_u64(self.ordering(), self@, offset as int),
            offset + 8 <= self@.len() <==> r is Some,
    {
        if self.data.len() >= 8 && offset <= self.data.len() - 8 {
            let b0 = self.data[offset];
            let b1 = self.data[offset + 1];
            let b2 = self.data[offset + 2];
            let b3 = self.data[offset + 3];
            let b4 = self.data[offset + 4];
            let b5 = self.data[offset + 5];
            let b6 = self.data[offset + 6];
            let b7 = self.data[offset + 7];
            proof {
                assert(self@.subrange(offset as int, offset as int + 8) =~= seq![
                    b0,
                    b1,
                    b2,
                    b3,
                    b4,
                    b5,
                    b6,
                    b7,
                ]);
                assert(seq![b0, b1, b2, b3, b4, b5, b6, b7].reverse() =~= seq![
                    b7,
                    b6,
                    b5,
                    b4,
                    b3,
                    b2,
                    b1,
                    b0,
                ]);
            }
            match self.ordering {
                Ordering::LittleEndian => Some(
                    (b0 as u64) | ((b1 as u64) << 8) | ((b2 as u64) << 16) | ((b3 as u64) << 24)
                        | ((b4 as u64) << 32) | ((b5 as u64) << 40) | ((b6 as u64) << 48) | ((
                    b7 as u64) << 56),
                ),
                Ordering::BigEndian => Some(
                    (b7 as u64) | ((b6 as u64) << 8) | ((b5 as u64) << 16) | ((b4 as u64) << 24)
                        | ((b3 as u64) << 32) | ((b2 as u64) << 40) | ((b1 as u64) << 48) | ((
                    b0 as u64) << 56),
                ),
            }
        } else {
            None
        }
    }

    /// Overwrite the byte at `offset`.  Returns `true` on success, or
    /// `false`, with the buffer untouched, if `offset` is out of bounds.
    pub fn alter_u8(&mut self, offset: usize, new_value: u8) -> (r: bool)
        ensures
            r == (offset < old(self)@.len()),
            r ==> final(self)@ == old(self)@.update(offset as int, new_value),
            !r ==> final(self)@ == old(self)@,
            final(self)@.len() == old(self)@.len(),
            final(self).ordering() == old(self).ordering(),
    {
        if offset < self.data.len() {
            self.data[offset] = new_value;
            true
        } else {
            false
        }
    }

    /// Overwrite the four bytes at `offset` with `new_value`, laid out
    /// under the buffer's current ordering.  Returns `true` on success,
    /// or `false`, with the buffer untouched, if the four bytes do not
    /// fit within the current length.
    pub fn alter_u32(&mut self, offset: usize, new_value: u32) -> (r: bool)
        ensures
            r == (offset + 4 <= old(self)@.len()),
            r ==> final(self)@ == splice(
                old(self)@,
                offset as int,
                encode_u32(old(self).ordering(), new_value),
            ),
            !r ==> final(self)@ == old(self)@,
            final(self)@.len() == old(self)@.len(),
            final(self).ordering() == old(self).ordering(),
    {
        if self.data.len() >= 4 && offset <= self.data.len() - 4 {
            let (b0, b1, b2, b3): (u8, u8, u8, u8) = match self.ordering {
                Ordering::LittleEndian => (
                    #[verifier::truncate] (new_value as u8),
                    #[verifier::truncate] ((new_value >> 8) as u8),
                    #[verifier::truncate] ((new_value >> 16) as u8),
                    #[verifier::truncate] ((new_value >> 24) as u8),
                ),
                Ordering::BigEndian => (
                    #[verifier::truncate] ((new_value >> 24) as u8),
                    #[verifier::truncate] ((new_value >> 16) as u8),
                    #[verifier::truncate] ((new_value >> 8) as u8),
                    #[verifier::truncate] (new_value as u8),
                ),
            };
            self.data[offset] = b0;
            self.data[offset + 1] = b1;
            self.data[offset + 2] = b2;
            self.data[offset + 3] = b3;
            proof {
                assert(encode_u32(old(self).ordering(), new_value) =~= seq![b0, b1, b2, b3]);
                assert(self.data@ =~= splice(old(self).data@, offset as int, seq![b0, b1, b2, b3]));
            }
            true
        } else {
            false
        }
    }

    /// Overwrite the eight bytes at `offset` with `new_value`, laid out
    /// under the buffer's current ordering.  Returns `true` on success,
    /// or `false`, with the buffer untouched, if the eight bytes do not
    /// fit within the current length.
    pub fn alter_u64(&mut self, offset: usize, new_value: u64) -> (r: bool)
        ensures
            r == (offset + 8 <= old(self)@.len()),
            r ==> final(self)@ == splice(
                old(self)@,
                offset as int,
                encode_u64(old(self).ordering(), new_value),
            ),
            !r ==> final(self)@ == old(self)@,
            final(self)@.len() == old(self)@.len(),
            final(self).ordering() == old(self).ordering(),
    {
        if self.data.len() >= 8 && offset <= self.data.len() - 8 {
            let (b0, b1, b2, b3, b4, b5, b6, b7): (u8, u8, u8, u8, u8, u8, u8, u8) = match self
                .ordering {
                Ordering::LittleEndian => (
                    #[verifier::truncate] (new_value as u8),
                    #[verifier::truncate] ((new_value >> 8) as u8),
                    #[verifier::truncate] ((new_value >> 16) as u8),
                    #[verifier::truncate] ((new_value >> 24) as u8),
                    #[verifier::truncate] ((new_value >> 32) as u8),
                    #[verifier::truncate] ((new_value >> 40) as u8),
                    #[verifier::truncate] ((new_value >> 48) as u8),
                    #[verifier::truncate] ((new_value >> 56) as u8),
                ),
                Ordering::BigEndian => (
                    #[verifier::truncate] ((new_value >> 56) as u8),
                    #[verifier::truncate] ((new_value >> 48) as u8),
                    #[verifier::truncate] ((new_value >> 40) as u8),
                    #[verifier::truncate] ((new_value >> 32) as u8),
                    #[verifier::truncate] ((new_value >> 24) as u8),
                    #[verifier::truncate] ((new_value >> 16) as u8),
                    #[verifier::truncate] ((new_value >> 8) as u8),
                    #[verifier::truncate] (new_value as u8),
                ),
            };
            self.data[offset] = b0;
            self.data[offset + 1] = b1;
            self.data[offset + 2] = b2;
            self.data[offset + 3] = b3;
            self.data[offset + 4] = b4;
            self.data[offset + 5] = b5;
            self.data[offset + 6] = b6;
            self.data[offset + 7] = b7;
            proof {
                assert(encode_u64(old(self).ordering(), new_value) =~= seq![
                    b0,
                    b1,
                    b2,
                    b3,
                    b4,
                    b5,
                    b6,
                    b7,
                ]);
                assert(self.data@ =~= splice(old(self).data@, offset as int, seq![
                    b0,
                    b1,
                    b2,
                    b3,
                    b4,
                    b5,
                    b6,
                    b7,
                ]));
            }
            true
        } else {
            false
        }
    }
}

} // verus!
