//! What holds of a whole read of one frame, step after step.
use vstd::prelude::*;
use crate::codec_laws::lemma_round_trip;
use crate::errors::Error;
use crate::frame::{crc_ok, default_frame, header_size, hl_of, parse, payload_len_of};
use crate::frame_flags::{flags_bits, Flag};
use crate::pipe::{lossy_text, read_step_spec, ReadState, ReadStep};

verus! {

/// A frame built with an empty payload carries a payload length of zero,
/// and a read of it ends as soon as its header is in, with that frame: no
/// payload read is asked for.
pub proof fn lemma_empty_payload_read(version: u8, flags: Seq<Flag>, first: ReadStep)
    requires
        version <= 15,
        read_step_spec(
            ReadState::Header,
            default_frame().with_version(version).with_flags(flags_bits(flags)).with_payload(
                Seq::empty(),
            ).with_crc().serialize().subrange(0, 12),
            first,
        ),
    ensures
        ({
            let built = default_frame().with_version(version).with_flags(
                flags_bits(flags),
            ).with_payload(Seq::empty()).with_crc();
            &&& payload_len_of(parse(built.serialize()).header) == 0
            &&& first matches ReadStep::Finished(Ok(g)) && g@ == built
        }),
{
    lemma_round_trip(version, flags, Seq::empty());
    let built = default_frame().with_version(version).with_flags(flags_bits(flags)).with_payload(
        Seq::empty(),
    ).with_crc();
    assert(built.serialize().subrange(0, 12) =~= built.header);
    assert(built.payload =~= Seq::<u8>::empty());
}

/// When the checksum of a received header fails, the read drains the data
/// channel and ends in an integrity error whose cause is the header's text
/// followed by the drained bytes' text (each decoded where it is valid
/// UTF-8); the options, if the header announces any, are read first.
/// `header` is the whole header on the wire and `drained` what the recovery
/// window collected; `first`, `second` and `last` are the steps that the
/// read hands back when fed what each step before asked for.
pub proof fn lemma_corrupt_header_read(
    header: Seq<u8>,
    drained: Seq<u8>,
    first: ReadStep,
    second: ReadStep,
    last: ReadStep,
)
    requires
        header.len() >= 12,
        header.len() == header_size(header[0]),
        !crc_ok(header),
        read_step_spec(ReadState::Header, header.subrange(0, 12), first),
        first matches ReadStep::Read(s, _) ==> read_step_spec(
            s,
            header.subrange(12, header.len() as int),
            second,
        ),
        first matches ReadStep::Drain(s) ==> read_step_spec(s, drained, last),
        second matches ReadStep::Drain(s) ==> read_step_spec(s, drained, last),
    ensures
        last matches ReadStep::Finished(Err(e)) && e matches Error::CRCVerification { cause }
            && cause@ == lossy_text(header) + lossy_text(drained),
{
    let base = header.subrange(0, 12);
    assert(base[0] == header[0]);
    assert(base.subrange(0, 6) =~= header.subrange(0, 6));
    assert(base.subrange(6, 10) =~= header.subrange(6, 10));
    if hl_of(base) <= 3 {
        assert(base =~= header);
    } else {
        assert(base + header.subrange(12, header.len() as int) =~= header);
    }
}

} // verus!
