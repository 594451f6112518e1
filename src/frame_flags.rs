//! The bits of a frame's flags byte.
use vstd::prelude::*;

verus! {

/// One bit of the flags byte; several may be set on one frame.
#[derive(Debug, Copy, Clone)]
pub enum Flag {
    Control,
    CodecRaw,
    CodecJSON,
    CodecMsgpack,
    CodecGob,
    Error,
    CodecProto,
}

impl Flag {
    /// The bit that this flag sets in the flags byte.
    pub open spec fn spec_bits(self) -> u8 {
        match self {
            Flag::Control => 0x01,
            Flag::CodecRaw => 0x04,
            Flag::CodecJSON => 0x08,
            Flag::CodecMsgpack => 0x10,
            Flag::CodecGob => 0x20,
            Flag::Error => 0x40,
            Flag::CodecProto => 0x80,
        }
    }

    /// The bit that this flag sets in the flags byte.
    pub fn bits(&self) -> (r: u8)
        ensures
            r == self.spec_bits(),
    {
        match self {
            Flag::Control => 0x01,
            Flag::CodecRaw => 0x04,
            Flag::CodecJSON => 0x08,
            Flag::CodecMsgpack => 0x10,
            Flag::CodecGob => 0x20,
            Flag::Error => 0x40,
            Flag::CodecProto => 0x80,
        }
    }
}

/// The flags byte that setting each flag of `flags` in turn gives, starting
/// from an empty byte.
pub open spec fn flags_bits(flags: Seq<Flag>) -> u8
    decreases flags.len(),
{
    if flags.len() == 0 {
        0
    } else {
        flags_bits(flags.drop_last()) | flags.last().spec_bits()
    }
}

} // verus!
