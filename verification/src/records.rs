//! Byte layout of records that are mirrored into device memory.
//!
//! A record type says how one value lays itself out as bytes; a sequence of
//! records is laid out as the concatenation of its members' bytes, in order.

use vstd::prelude::*;

verus! {

/// A plain-data record that can be written into a GPU buffer.
pub trait DeviceBytes: Sized {
    /// The byte image of this record in device memory.
    spec fn device_bytes(&self) -> Seq<u8>;

    /// Appends the byte image of this record to `out`.
    fn append_device_bytes(&self, out: &mut Vec<u8>)
        ensures
            final(out)@ == old(out)@ + self.device_bytes(),
    ;
}

/// The byte image of a whole sequence of records: the members' images,
/// concatenated in order.
pub open spec fn device_encoding<T: DeviceBytes>(s: Seq<T>) -> Seq<u8>
    decreases s.len(),
{
    if s.len() == 0 {
        Seq::empty()
    } else {
        device_encoding(s.drop_last()) + s.last().device_bytes()
    }
}

/// The encoding of the one-longer prefix of `s` appends the bytes of the
/// next record.
pub proof fn lemma_device_encoding_prefix<T: DeviceBytes>(s: Seq<T>, i: int)
    requires
        0 <= i < s.len(),
    ensures
        device_encoding(s.subrange(0, i + 1)) == device_encoding(s.subrange(0, i))
            + s[i].device_bytes(),
{
    assert(s.subrange(0, i + 1).drop_last() =~= s.subrange(0, i));
    assert(s.subrange(0, i + 1).last() == s[i]);
}

impl DeviceBytes for u8 {
    open spec fn device_bytes(&self) -> Seq<u8> {
        seq![*self]
    }

    fn append_device_bytes(&self, out: &mut Vec<u8>) {
        out.push(*self);
    }
}

impl DeviceBytes for u32 {
    /// Little-endian, as the device consumes index data.
    open spec fn device_bytes(&self) -> Seq<u8> {
        seq![
            (*self & 0xff) as u8,
            ((*self >> 8) & 0xff) as u8,
            ((*self >> 16) & 0xff) as u8,
            ((*self >> 24) & 0xff) as u8,
        ]
    }

    fn append_device_bytes(&self, out: &mut Vec<u8>) {
        let x: u32 = *self;
        out.push((x & 0xff) as u8);
        out.push(((x >> 8) & 0xff) as u8);
        out.push(((x >> 16) & 0xff) as u8);
        out.push(((x >> 24) & 0xff) as u8);
        assert(out@ =~= old(out)@ + self.device_bytes());
    }
}

} // verus!
