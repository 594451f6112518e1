//! The decisions of the transport: how a frame is read off the data channel
//! (header, then options, then checksum, then payload, and the recovery path
//! when the checksum fails), and how control frames are built and their
//! replies checked. The caller owns the channels and does the reading and
//! writing that each step asks for.
use vstd::prelude::*;
use vstd::string::StringExecFns;
use vstd::utf8::{decode_utf8, encode_utf8, valid_utf8};
use crate::errors::Error;
use crate::frame::{
    crc_ok, default_frame, flags_of, hl_of, payload_len_of, Frame, FrameView, WORD,
};
use crate::frame_flags::{flags_bits, Flag};

verus! {

broadcast use vstd::utf8::encode_utf8_decode_utf8;

/// Something that can turn itself into the payload of a control frame.
pub trait Marshaller {
    fn marshal(&mut self) -> Result<Vec<u8>, Error>;
}

/// The text that `b` encodes when it is valid UTF-8, and no text otherwise.
pub open spec fn lossy_text(b: Seq<u8>) -> Seq<char> {
    if valid_utf8(b) {
        decode_utf8(b)
    } else {
        Seq::empty()
    }
}

/// Relies on std::str::from_utf8: it succeeds exactly on valid UTF-8, and
/// the text it gives is encoded by the same bytes.
#[verifier::external_body]
fn utf8_text(bytes: &[u8]) -> (r: Option<String>)
    ensures
        r is Some <==> valid_utf8(bytes@),
        r matches Some(s) ==> encode_utf8(s@) == bytes@,
{
    std::str::from_utf8(bytes).ok().map(String::from)
}

/// The text of `bytes` when they are valid UTF-8, else the empty text.
fn best_effort_text(bytes: &[u8]) -> (r: String)
    ensures
        r@ == lossy_text(bytes@),
{
    match utf8_text(bytes) {
        Some(s) => s,
        None => String::new(),
    }
}

/// Where a read of one frame stands.
pub enum ReadState {
    /// Waiting for the 12 bytes of the baseline header.
    Header,
    /// The baseline header is in and announces options; waiting for them.
    Options(Frame),
    /// The header is in and its checksum checks; waiting for the payload.
    Payload(Frame),
    /// The header's checksum failed; waiting for what the data channel
    /// yields within the recovery window.
    Draining(Frame),
}

/// What the reader of a frame is to do next.
pub enum ReadStep {
    /// Read exactly this many bytes and hand them to `read_step` with the
    /// state.
    Read(ReadState, usize),
    /// Collect what arrives within the recovery window, however little, and
    /// hand it to `read_step` with the state.
    Drain(ReadState),
    /// The read is over, with this outcome.
    Finished(Result<Frame, Error>),
}

/// The states that `read_step` can be handed: those it hands out.
pub open spec fn read_state_wf(s: ReadState) -> bool {
    match s {
        ReadState::Header => true,
        ReadState::Options(f) => f@.header.len() == 12 && hl_of(f@.header) > 3 && f@.payload.len() == 0,
        ReadState::Payload(f) => f@.header.len() >= 12,
        ReadState::Draining(f) => true,
    }
}

/// How many bytes a read in state `s` asks for (none is fixed while
/// draining).
pub open spec fn bytes_wanted(s: ReadState) -> nat {
    match s {
        ReadState::Header => 12,
        ReadState::Options(f) => 4 * (hl_of(f@.header) - 3) as nat,
        ReadState::Payload(f) => payload_len_of(f@.header),
        ReadState::Draining(f) => 0,
    }
}

/// What comes after the whole header `h` is in: a checksum failure starts
/// the drain; otherwise the frame is done when it announces no payload, and
/// the payload is read when it does.
pub open spec fn after_header(h: Seq<u8>, r: ReadStep) -> bool {
    let f = FrameView { header: h, payload: Seq::empty() };
    if !crc_ok(h) {
        r matches ReadStep::Drain(ReadState::Draining(g)) && g@ == f
    } else if payload_len_of(h) == 0 {
        r matches ReadStep::Finished(Ok(g)) && g@ == f
    } else {
        r matches ReadStep::Read(ReadState::Payload(g), n) && g@ == f && n == payload_len_of(h)
    }
}

/// What comes after the baseline header `h` is in: its options are read if
/// it announces any, else it is the whole header.
pub open spec fn after_baseline(h: Seq<u8>, r: ReadStep) -> bool {
    if hl_of(h) > 3 {
        r matches ReadStep::Read(ReadState::Options(g), n) && g@ == (FrameView {
            header: h,
            payload: Seq::empty(),
        }) && n == 4 * (hl_of(h) - 3)
    } else {
        after_header(h, r)
    }
}

/// What `read_step` hands back for `state` and the bytes `input`: the next
/// step after the baseline header or after the options; the finished frame
/// once the payload is in; and after a drain, the integrity error whose cause
/// is the header's text followed by the drained bytes' text.
pub open spec fn read_step_spec(state: ReadState, input: Seq<u8>, r: ReadStep) -> bool {
    match state {
        ReadState::Header => after_baseline(input, r),
        ReadState::Options(f) => after_header(f@.header + input, r),
        ReadState::Payload(f) => r matches ReadStep::Finished(Ok(g)) && g@ == (FrameView {
            header: f@.header,
            payload: input,
        }),
        ReadState::Draining(f) => r matches ReadStep::Finished(Err(e)) && e matches Error::CRCVerification { cause } && cause@ == lossy_text(f@.header) + lossy_text(input),
    }
}

/// The first step of reading a frame: read the 12-byte baseline header.
pub fn begin_read() -> (r: ReadStep)
    ensures
        r matches ReadStep::Read(ReadState::Header, n) && n == 12,
{
    ReadStep::Read(ReadState::Header, 12)
}

/// The step after the whole header of `f` is in.
fn finish_header(f: Frame) -> (r: ReadStep)
    requires
        f@.header.len() >= 12,
        f@.payload.len() == 0,
    ensures
        after_header(f@.header, r),
{
    assert(f@.payload =~= Seq::<u8>::empty());
    assert(f@ == (FrameView { header: f@.header, payload: Seq::empty() }));
    if f.verify_crc().is_err() {
        return ReadStep::Drain(ReadState::Draining(f));
    }
    let len = f.read_payload_len();
    if len == 0 {
        return ReadStep::Finished(Ok(f));
    }
    ReadStep::Read(ReadState::Payload(f), len as usize)
}

/// Takes the bytes that the last step asked for and says what to do next.
/// After a checksum failure the read ends in an integrity error whose cause
/// is the header's text followed by the drained bytes' text, each decoded as
/// UTF-8 where it is valid and left out where it is not.
pub fn read_step(state: ReadState, input: Vec<u8>) -> (r: ReadStep)
    requires
        read_state_wf(state),
        !(state is Draining) ==> input@.len() == bytes_wanted(state),
    ensures
        read_step_spec(state, input@, r),
        r matches ReadStep::Read(s, n) ==> read_state_wf(s) && n == bytes_wanted(s),
{
    match state {
        ReadState::Header => {
            let mut f = Frame::default();
            *f.header_mut() = input;
            let hl = f.read_hl();
            let b0 = f.header()[0];
            assert(b0 & 0x0F <= 15) by (bit_vector);
            if hl > 3 {
                let n = ((hl - 3) * WORD) as usize;
                ReadStep::Read(ReadState::Options(f), n)
            } else {
                finish_header(f)
            }
        },
        ReadState::Options(f) => {
            let mut f = f;
            f.extend_header(input.as_slice());
            finish_header(f)
        },
        ReadState::Payload(f) => {
            let mut f = f;
            let slot = f.init_payload_mut(input.len());
            *slot = input;
            ReadStep::Finished(Ok(f))
        },
        ReadState::Draining(f) => {
            let mut cause = best_effort_text(f.header().as_slice());
            let tail = best_effort_text(input.as_slice());
            cause.append(tail.as_str());
            ReadStep::Finished(Err(Error::CRCVerification { cause }))
        },
    }
}

/// The control frame that carries `data`: version 1, flags Control and
/// CodecJSON, `data` as payload, and its checksum.
pub fn control_frame(data: Vec<u8>) -> (r: Frame)
    ensures
        r@ == default_frame().with_version(1).with_flags(
            flags_bits(seq![Flag::Control, Flag::CodecJSON]),
        ).with_payload(data@).with_crc(),
{
    let mut frame = Frame::default();
    frame.write_version(1);
    let flags = vec![Flag::Control, Flag::CodecJSON];
    assert(flags@ == seq![Flag::Control, Flag::CodecJSON]);
    frame.write_flags(flags.as_slice());
    frame.write_payload(data);
    frame.write_crc();
    frame
}

/// Checks that a reply to a control command carries the Control flag.
pub fn check_control_reply(frame: &Frame) -> (r: Result<(), Error>)
    requires
        frame@.header.len() >= 2,
    ensures
        r is Ok <==> flags_of(frame@.header) & 0x01 != 0,
        r matches Err(e) ==> (e matches Error::Protocol { cause } && cause@
            == "unexpected response, header is missing, no CONTROL flag"@),
{
    if frame.read_flags() & Flag::Control.bits() == 0 {
        return Err(
            Error::Protocol {
                cause: String::from_str("unexpected response, header is missing, no CONTROL flag"),
            },
        );
    }
    Ok(())
}

/// Checks a process id reported by the peer: zero marks a failure, not a
/// process.
pub fn check_pid(pid: u32) -> (r: Result<u32, Error>)
    ensures
        r is Ok <==> pid > 0,
        r matches Ok(p) ==> p == pid,
        r matches Err(e) ==> (e matches Error::Protocol { cause } && cause@
            == "pid should be greater than 0"@),
{
    if pid == 0 {
        return Err(Error::Protocol { cause: String::from_str("pid should be greater than 0") });
    }
    Ok(pid)
}

} // verus!
