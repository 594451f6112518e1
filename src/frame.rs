//! The frame wire format: a bit-packed header of 12 to 52 bytes followed by
//! the payload.
//!
//! Byte 0 holds the header length in 4-byte words (low nibble) and the
//! protocol version (high nibble); byte 1 the flags; bytes 2..6 the payload
//! length and bytes 6..10 the CRC-32 of bytes 0..6, both little-endian;
//! bytes 10..12 are reserved; option words, little-endian, follow from
//! byte 12.
use vstd::prelude::*;
use vstd::slice::{slice_subrange, slice_to_vec};
use crate::bit_operations::{le_bytes, le_value, lemma_le_bytes_4, lemma_le_value_4};
use crate::errors::Error;
use crate::frame_flags::{flags_bits, Flag};

verus! {

/// Bytes in one header word.
pub const WORD: u8 = 4;

/// The most bytes that the options of a header may take.
pub const FRAME_OPTIONS_MAX_SIZE: u8 = 40;

/// Where the options start in a header.
const LAST_BYTE: u8 = 12;

/// The standard CRC-32 checksum of `data`.
pub uninterp spec fn crc32_of(data: Seq<u8>) -> u32;

/// Relies on crc32fast::hash: the standard CRC-32 of the bytes, a value
/// that depends on the bytes alone.
#[verifier::external_body]
fn crc32(data: &[u8]) -> (r: u32)
    ensures
        r == crc32_of(data@),
{
    crc32fast::hash(data)
}

/// A frame as bytes: its header and its payload.
pub ghost struct FrameView {
    pub header: Seq<u8>,
    pub payload: Seq<u8>,
}

/// The header length field of a header, in 4-byte words.
pub open spec fn hl_of(h: Seq<u8>) -> u8 {
    h[0] & 0x0F
}

/// The protocol version field of a header.
pub open spec fn version_of(h: Seq<u8>) -> u8 {
    h[0] >> 4u8
}

/// The flags byte of a header.
pub open spec fn flags_of(h: Seq<u8>) -> u8 {
    h[1]
}

/// The payload length field of a header.
pub open spec fn payload_len_of(h: Seq<u8>) -> nat {
    le_value(h.subrange(2, 6))
}

/// The checksum that a header carries.
pub open spec fn stored_crc_of(h: Seq<u8>) -> nat {
    le_value(h.subrange(6, 10))
}

/// Whether the checksum that a header carries is the CRC-32 of its first six
/// bytes.
pub open spec fn crc_ok(h: Seq<u8>) -> bool {
    stored_crc_of(h) == crc32_of(h.subrange(0, 6)) as nat
}

/// The option words of a header whose length field is above 3: one
/// little-endian word for each header word past the third.
pub open spec fn options_of(h: Seq<u8>) -> Seq<u32> {
    Seq::new(
        (hl_of(h) - 3) as nat,
        |i: int| le_value(h.subrange(12 + 4 * i, 16 + 4 * i)) as u32,
    )
}

/// The bytes that the option words `opts` take in a header.
pub open spec fn option_bytes(opts: Seq<u32>) -> Seq<u8>
    decreases opts.len(),
{
    if opts.len() == 0 {
        Seq::empty()
    } else {
        option_bytes(opts.drop_last()) + le_bytes(opts.last() as nat, 4)
    }
}

/// The header of a fresh frame: three words long, version 0, no flags, no
/// payload length, no checksum.
pub open spec fn default_header() -> Seq<u8> {
    seq![3u8, 0u8, 0u8, 0u8, 0u8, 0u8, 0u8, 0u8, 0u8, 0u8, 0u8, 0u8]
}

/// A fresh frame: the default header and an empty payload.
pub open spec fn default_frame() -> FrameView {
    FrameView { header: default_header(), payload: Seq::empty() }
}

/// How many leading bytes of a received frame whose first byte is `b0` make
/// its header: 12 when the length field is at most 3, else the field's
/// words.
pub open spec fn header_size(b0: u8) -> nat {
    if b0 & 0x0F <= 3 {
        12
    } else {
        4 * (b0 & 0x0F) as nat
    }
}

/// Whether `data` is long enough to be cut into a header and a payload.
pub open spec fn can_parse(data: Seq<u8>) -> bool {
    data.len() > 0 && data.len() >= header_size(data[0])
}

/// The frame that the bytes `data` are cut into: the header, with its
/// reserved bytes cleared when it has no options, and the rest as payload.
pub open spec fn parse(data: Seq<u8>) -> FrameView {
    let n = header_size(data[0]) as int;
    let header = data.subrange(0, n);
    FrameView {
        header: if n == 12 {
            header.update(10, 0).update(11, 0)
        } else {
            header
        },
        payload: data.subrange(n, data.len() as int),
    }
}

impl FrameView {
    /// The frame's bytes on the wire: header, then payload.
    pub open spec fn serialize(self) -> Seq<u8> {
        self.header + self.payload
    }

    /// The frame with `v` in the version field; the header length field
    /// beside it is kept.
    pub open spec fn with_version(self, v: u8) -> FrameView {
        FrameView {
            header: self.header.update(0, (self.header[0] & 0x0F) | (v << 4u8)),
            ..self
        }
    }

    /// The frame after or-ing `bits` into the flags byte.
    pub open spec fn with_flags(self, bits: u8) -> FrameView {
        FrameView { header: self.header.update(1, self.header[1] | bits), ..self }
    }

    /// The frame with payload `p`, whose length (modulo 2^32) fills the
    /// payload length field.
    pub open spec fn with_payload(self, p: Seq<u8>) -> FrameView {
        FrameView {
            header: self.header.subrange(0, 2) + le_bytes(p.len(), 4) + self.header.subrange(
                6,
                self.header.len() as int,
            ),
            payload: p,
        }
    }

    /// The frame after appending the words `opts` to the header and growing
    /// its length field by one for each.
    pub open spec fn with_options(self, opts: Seq<u32>) -> FrameView {
        FrameView {
            header: (self.header + option_bytes(opts)).update(
                0,
                (self.header[0] + opts.len()) as u8,
            ),
            ..self
        }
    }

    /// The frame with `crc` in its checksum field.
    pub open spec fn with_crc_value(self, crc: u32) -> FrameView {
        FrameView {
            header: self.header.subrange(0, 6) + le_bytes(crc as nat, 4) + self.header.subrange(
                10,
                self.header.len() as int,
            ),
            ..self
        }
    }

    /// The frame with the CRC-32 of its first six header bytes in its
    /// checksum field.
    pub open spec fn with_crc(self) -> FrameView {
        self.with_crc_value(crc32_of(self.header.subrange(0, 6)))
    }
}

/// One protocol message: a header and a payload.
#[derive(Debug, Clone, PartialEq, Eq, PartialOrd, Ord)]
pub struct Frame {
    header: Vec<u8>,
    payload: Vec<u8>,
}

impl View for Frame {
    type V = FrameView;

    closed spec fn view(&self) -> FrameView {
        FrameView { header: self.header@, payload: self.payload@ }
    }
}

impl Default for Frame {
    /// A fresh frame: a three-word header with version 0 and no flags, and
    /// an empty payload.
    fn default() -> (r: Self)
        ensures
            r@ == default_frame(),
    {
        let mut f = Frame { header: vec![0u8; 12], payload: Vec::new() };
        f.default_hl();
        assert(0u8 | 3u8 == 3u8) by (bit_vector);
        assert(f@.header =~= default_header());
        f
    }
}

impl Frame {
    /// Ors `hl` into the header length field.
    fn write_hl(&mut self, hl: u8)
        requires
            old(self)@.header.len() >= 1,
        ensures
            final(self)@ == (FrameView {
                header: old(self)@.header.update(0, old(self)@.header[0] | hl),
                ..old(self)@
            }),
    {
        self.header[0] = self.header[0] | hl;
    }

    /// Ors the baseline length, three words, into the header length field.
    fn default_hl(&mut self)
        requires
            old(self)@.header.len() >= 1,
        ensures
            final(self)@ == (FrameView {
                header: old(self)@.header.update(0, old(self)@.header[0] | 3u8),
                ..old(self)@
            }),
    {
        self.write_hl(3);
    }

    /// The header, for the caller to fill or change.
    pub fn header_mut(&mut self) -> (r: &mut Vec<u8>)
        ensures
            r@ == old(self)@.header,
            final(self)@ == (FrameView { header: final(r)@, payload: old(self)@.payload }),
    {
        &mut self.header
    }

    /// The header bytes.
    pub fn header(&self) -> (r: &Vec<u8>)
        ensures
            r@ == self@.header,
    {
        &self.header
    }

    /// Replaces the payload by `size` zero bytes and hands it out to be
    /// filled.
    pub fn init_payload_mut(&mut self, size: usize) -> (r: &mut Vec<u8>)
        ensures
            r@ == Seq::new(size as nat, |i: int| 0u8),
            final(self)@ == (FrameView { header: old(self)@.header, payload: final(r)@ }),
    {
        self.payload = vec![0u8; size];
        &mut self.payload
    }

    /// Appends `data` to the header.
    pub fn extend_header(&mut self, data: &[u8])
        ensures
            final(self)@ == (FrameView { header: old(self)@.header + data@, ..old(self)@ }),
    {
        self.header.extend_from_slice(data);
        assert(self@.header =~= old(self)@.header + data@);
    }

    /// Cuts the received bytes `data` into a frame, without checking its
    /// checksum. When the header length field is at most 3 the header is the
    /// first 12 bytes, with the reserved bytes 10 and 11 cleared; otherwise
    /// it is as many words as the field says. The rest is the payload.
    pub fn read_frame(&self, data: &[u8]) -> (r: Self)
        requires
            can_parse(data@),
        ensures
            r@ == parse(data@),
    {
        let b0 = data[0];
        let opt = b0 & 0x0F;
        assert(b0 & 0x0F <= 15) by (bit_vector);
        if opt <= 3 {
            let mut header = slice_to_vec(slice_subrange(data, 0, 12));
            header[10] = 0;
            header[11] = 0;
            let payload = slice_to_vec(slice_subrange(data, 12, data.len()));
            Frame { header, payload }
        } else {
            let n = (opt * WORD) as usize;
            let header = slice_to_vec(slice_subrange(data, 0, n));
            let payload = slice_to_vec(slice_subrange(data, n, data.len()));
            Frame { header, payload }
        }
    }

    /// The protocol version field.
    pub fn version(&self) -> (r: u8)
        requires
            self@.header.len() >= 1,
        ensures
            r == version_of(self@.header),
    {
        self.header[0] >> 4u8
    }

    /// Sets the version field to `version`, whatever it held; a version above
    /// 15 does not fit in its four bits and is ruled out.
    pub fn write_version(&mut self, version: u8)
        requires
            old(self)@.header.len() >= 1,
            version <= 15,
        ensures
            final(self)@ == old(self)@.with_version(version),
            version_of(final(self)@.header) == version,
            hl_of(final(self)@.header) == hl_of(old(self)@.header),
            final(self)@.header.len() == old(self)@.header.len(),
    {
        let b0 = self.header[0];
        self.header[0] = (self.header[0] & 0x0F) | version << 4u8;
        assert(version <= 15 ==> ((b0 & 0x0F) | (version << 4u8)) >> 4u8 == version && ((b0 & 0x0F)
            | (version << 4u8)) & 0x0F == b0 & 0x0F) by (bit_vector);
    }

    /// The header length field, in 4-byte words.
    pub fn read_hl(&self) -> (r: u8)
        requires
            self@.header.len() >= 1,
        ensures
            r == hl_of(self@.header),
    {
        self.header[0] & 0x0F
    }

    /// Grows the header length field by one word; it cannot pass 15.
    fn increment_hl(&mut self)
        requires
            old(self)@.header.len() >= 1,
            hl_of(old(self)@.header) < 15,
        ensures
            final(self)@ == (FrameView {
                header: old(self)@.header.update(0, (old(self)@.header[0] + 1) as u8),
                ..old(self)@
            }),
    {
        let hl = self.read_hl();
        let b0 = self.header[0];
        assert((b0 & 0x0F) < 15 ==> (b0 | (b0 & 0x0F)) == b0 && b0 < 255) by (bit_vector);
        self.header[0] = (self.header[0] | hl) + 1;
    }

    /// The flags byte.
    pub fn read_flags(&self) -> (r: u8)
        requires
            self@.header.len() >= 2,
        ensures
            r == flags_of(self@.header),
    {
        self.header[1]
    }

    /// Sets the bit of each flag of `flags` in the flags byte; bits already
    /// set stay set.
    pub fn write_flags(&mut self, flags: &[Flag])
        requires
            old(self)@.header.len() >= 2,
        ensures
            final(self)@ == old(self)@.with_flags(flags_bits(flags@)),
            final(self)@.header.len() == old(self)@.header.len(),
    {
        let ghost start = self@;
        let mut i: usize = 0;
        assert(start.header[1] | 0u8 == start.header[1]) by (bit_vector);
        assert(flags@.take(0) =~= Seq::<Flag>::empty());
        assert(start.with_flags(flags_bits(flags@.take(0))).header =~= start.header);
        while i < flags.len()
            invariant
                i <= flags@.len(),
                start == old(self)@,
                start.header.len() >= 2,
                self@ == start.with_flags(flags_bits(flags@.take(i as int))),
            decreases flags@.len() - i,
        {
            let b = flags[i].bits();
            let ghost acc = flags_bits(flags@.take(i as int));
            let ghost h1 = start.header[1];
            self.header[1] = self.header[1] | b;
            assert(flags@.take(i + 1).drop_last() =~= flags@.take(i as int));
            assert((h1 | acc) | b == h1 | (acc | b)) by (bit_vector);
            i = i + 1;
            assert(self@.header =~= start.with_flags(flags_bits(flags@.take(i as int))).header);
        }
        assert(flags@.take(flags@.len() as int) =~= flags@);
    }

    /// Sets the payload to `payload` and its length, truncated to 32 bits,
    /// into the payload length field.
    pub fn write_payload(&mut self, payload: Vec<u8>)
        requires
            old(self)@.header.len() >= 6,
        ensures
            final(self)@ == old(self)@.with_payload(payload@),
            final(self)@.header.len() == old(self)@.header.len(),
    {
        let pl = payload.len();
        self.header[2] = pl as u8;
        self.header[3] = (pl >> 8usize) as u8;
        self.header[4] = (pl >> 16usize) as u8;
        self.header[5] = (pl >> 24usize) as u8;
        self.payload = payload;
        proof {
            lemma_le_bytes_4(pl);
            assert(self@.header =~= old(self)@.with_payload(payload@).header);
        }
    }

    /// Appends each word of `options` to the header, little-endian, and grows
    /// the header length field by one for each. One to ten words may be
    /// written, and only while the field stays within its four bits.
    pub fn write_options(&mut self, options: &[u32])
        requires
            1 <= options@.len() <= 10,
            old(self)@.header.len() >= 1,
            hl_of(old(self)@.header) + options@.len() <= 15,
        ensures
            final(self)@ == old(self)@.with_options(options@),
    {
        let ghost start = self@;
        let n = options.len();
        let mut i: usize = 0;
        assert(options@.take(0) =~= Seq::<u32>::empty());
        assert(start.with_options(options@.take(0)).header =~= start.header);
        while i < n
            invariant
                n == options@.len() <= 10,
                i <= n,
                start == old(self)@,
                start.header.len() >= 1,
                hl_of(start.header) + n <= 15,
                self@ == start.with_options(options@.take(i as int)),
            decreases n - i,
        {
            let o = options[i];
            let ghost before = self@.header;
            let ghost h0 = start.header[0];
            let ghost k = i as u8;
            assert((h0 & 0x0F) + k < 15 ==> ((h0 + k) as u8) & 0x0F == (h0 & 0x0F) + k && h0 + k
                < 255) by (bit_vector);
            self.header.push(o as u8);
            self.header.push((o >> 8u32) as u8);
            self.header.push((o >> 16u32) as u8);
            self.header.push((o >> 24u32) as u8);
            self.increment_hl();
            proof {
                lemma_le_bytes_4(o as usize);
                let w = o as usize;
                assert((w as u8) == (o as u8) && (w >> 8usize) as u8 == (o >> 8u32) as u8 && (w
                    >> 16usize) as u8 == (o >> 16u32) as u8 && (w >> 24usize) as u8 == (o >> 24u32)
                    as u8) by (bit_vector)
                    requires
                        w == o,
                ;
                assert(options@.take(i + 1).drop_last() =~= options@.take(i as int));
                assert(option_bytes(options@.take(i + 1)) == option_bytes(options@.take(i as int))
                    + le_bytes(o as nat, 4));
            }
            i = i + 1;
            assert(self@.header =~= start.with_options(options@.take(i as int)).header);
        }
        assert(options@.take(n as int) =~= options@);
    }

    /// The option words of the header: none when the header length field is
    /// at most 3, else one word for each header word past the third. At most
    /// ten words (40 bytes) may be implied.
    pub fn read_options(&mut self) -> (r: Option<Vec<u32>>)
        requires
            old(self)@.header.len() >= 1,
            hl_of(old(self)@.header) > 3 ==> {
                &&& 4 * (hl_of(old(self)@.header) - 3) <= FRAME_OPTIONS_MAX_SIZE
                &&& old(self)@.header.len() >= 4 * hl_of(old(self)@.header)
            },
        ensures
            final(self)@ == old(self)@,
            hl_of(old(self)@.header) <= 3 ==> r is None,
            hl_of(old(self)@.header) > 3 ==> (r matches Some(v) && v@ == options_of(old(self)@.header)),
    {
        let ol = self.read_hl();
        if ol <= 3 {
            return None;
        }
        let option_len = ol - 3;
        let ghost h = self@.header;
        let mut options: Vec<u32> = Vec::new();
        let mut j: usize = 0;
        let mut k: usize = LAST_BYTE as usize;
        while j < option_len as usize
            invariant
                k == 12 + 4 * j,
                h == self@.header,
                option_len == hl_of(h) - 3 <= 10,
                h.len() >= 12 + 4 * option_len,
                j <= option_len,
                options@ =~= options_of(h).take(j as int),
            decreases option_len - j,
        {
            let v = (self.header[k] as u32) | (self.header[k + 1] as u32) << 8u32 | (
            self.header[k + 2] as u32) << 16u32 | (self.header[k + 3] as u32) << 24u32;
            proof {
                let s = h.subrange(k as int, k + 4);
                lemma_le_value_4(s);
                assert(s[0] == h[k as int] && s[1] == h[k + 1] && s[2] == h[k + 2] && s[3] == h[k + 3]);
            }
            options.push(v);
            j = j + 1;
            k = k + WORD as usize;
        }
        assert(options@ =~= options_of(h));
        Some(options)
    }

    /// Writes `crc` into the checksum field.
    pub fn write_crc_value(&mut self, crc: u32)
        requires
            old(self)@.header.len() >= 10,
        ensures
            final(self)@ == old(self)@.with_crc_value(crc),
            final(self)@.header.len() == old(self)@.header.len(),
    {
        self.header[6] = crc as u8;
        self.header[7] = (crc >> 8u32) as u8;
        self.header[8] = (crc >> 16u32) as u8;
        self.header[9] = (crc >> 24u32) as u8;
        proof {
            lemma_le_bytes_4(crc as usize);
            let w = crc as usize;
            assert((w as u8) == (crc as u8) && (w >> 8usize) as u8 == (crc >> 8u32) as u8 && (w
                >> 16usize) as u8 == (crc >> 16u32) as u8 && (w >> 24usize) as u8 == (crc >> 24u32)
                as u8) by (bit_vector)
                requires
                    w == crc,
            ;
            assert(self@.header =~= old(self)@.with_crc_value(crc).header);
        }
    }

    /// Writes the CRC-32 of the first six header bytes into the checksum
    /// field. Done last: the version, flags and payload length all lie in
    /// those six bytes.
    pub fn write_crc(&mut self)
        requires
            old(self)@.header.len() >= 10,
        ensures
            final(self)@ == old(self)@.with_crc(),
            final(self)@.header.len() == old(self)@.header.len(),
    {
        let crc = crc32(slice_subrange(self.header.as_slice(), 0, 6));
        self.write_crc_value(crc);
    }

    /// The payload bytes.
    pub fn payload(&self) -> (r: &Vec<u8>)
        ensures
            r@ == self@.payload,
    {
        &self.payload
    }

    /// Checks the checksum field against `crc`, the checksum computed over
    /// the first six header bytes.
    pub fn check_crc(&self, crc: u32) -> (r: Result<(), Error>)
        requires
            self@.header.len() >= 10,
        ensures
            r is Ok <==> stored_crc_of(self@.header) == crc as nat,
            r matches Err(e) ==> (e matches Error::CRCVerification { cause } && cause@ == Seq::<char>::empty()),
    {
        let stored = (self.header[6] as u32) | (self.header[7] as u32) << 8u32 | (
        self.header[8] as u32) << 16u32 | (self.header[9] as u32) << 24u32;
        proof {
            let h = self@.header;
            let s = h.subrange(6, 10);
            lemma_le_value_4(s);
            assert(s[0] == h[6] && s[1] == h[7] && s[2] == h[8] && s[3] == h[9]);
        }
        if crc == stored {
            return Ok(());
        }
        Err(Error::CRCVerification { cause: String::new() })
    }

    /// Checks that the checksum field holds the CRC-32 of the first six
    /// header bytes; a mismatch is an integrity failure.
    pub fn verify_crc(&self) -> (r: Result<(), Error>)
        requires
            self@.header.len() >= 10,
        ensures
            r is Ok <==> crc_ok(self@.header),
            r matches Err(e) ==> (e matches Error::CRCVerification { cause } && cause@ == Seq::<char>::empty()),
    {
        let crc = crc32(slice_subrange(self.header.as_slice(), 0, 6));
        self.check_crc(crc)
    }

    /// The frame's bytes: header, then payload.
    pub fn bytes(&mut self) -> (r: Vec<u8>)
        ensures
            final(self)@ == old(self)@,
            r@ == old(self)@.serialize(),
    {
        let mut v: Vec<u8> = Vec::new();
        v.extend_from_slice(self.header.as_slice());
        v.extend_from_slice(self.payload.as_slice());
        assert(v@ =~= self@.serialize());
        v
    }

    /// The payload length field. The header must reach past it.
    pub fn read_payload_len(&self) -> (r: u32)
        requires
            self@.header.len() >= 6,
        ensures
            r == payload_len_of(self@.header),
    {
        let r = (self.header[2] as u32) | (self.header[3] as u32) << 8u32 | (self.header[4] as u32)
            << 16u32 | (self.header[5] as u32) << 24u32;
        proof {
            let h = self@.header;
            let s = h.subrange(2, 6);
            lemma_le_value_4(s);
            assert(s[0] == h[2] && s[1] == h[3] && s[2] == h[4] && s[3] == h[5]);
        }
        r
    }
}

} // verus!
