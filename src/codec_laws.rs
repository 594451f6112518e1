//! What holds of the frame codec across several of its operations.
use vstd::prelude::*;
use crate::bit_operations::{le_bytes, le_value, lemma_le_round_trip_4};
use crate::frame::{
    can_parse, crc32_of, crc_ok, default_frame, flags_of, hl_of, option_bytes, options_of, parse,
    payload_len_of, version_of, FrameView,
};
use crate::frame_flags::{flags_bits, Flag};

verus! {

proof fn lemma_le_bytes_len(v: nat, n: nat)
    ensures
        le_bytes(v, n).len() == n,
    decreases n,
{
    if n > 0 {
        lemma_le_bytes_len(v / 256, (n - 1) as nat);
    }
}

/// The option words take four bytes each, each word's bytes at its own
/// place.
proof fn lemma_option_bytes(opts: Seq<u32>)
    ensures
        option_bytes(opts).len() == 4 * opts.len(),
        forall|i: int|
            0 <= i < opts.len() ==> #[trigger] option_bytes(opts).subrange(4 * i, 4 * i + 4)
                == le_bytes(opts[i] as nat, 4),
    decreases opts.len(),
{
    if opts.len() > 0 {
        let init = opts.drop_last();
        lemma_option_bytes(init);
        lemma_le_bytes_len(opts.last() as nat, 4);
        let all = option_bytes(opts);
        assert(all == option_bytes(init) + le_bytes(opts.last() as nat, 4));
        assert forall|i: int| 0 <= i < opts.len() implies #[trigger] all.subrange(4 * i, 4 * i + 4)
            == le_bytes(opts[i] as nat, 4) by {
            if i < opts.len() - 1 {
                assert(all.subrange(4 * i, 4 * i + 4) =~= option_bytes(init).subrange(4 * i, 4 * i
                    + 4));
                assert(init[i] == opts[i]);
            } else {
                assert(all.subrange(4 * i, 4 * i + 4) =~= le_bytes(opts.last() as nat, 4));
            }
        }
    }
}

/// Building a frame from a version of at most 15, any flags and a payload
/// whose length fits in 32 bits, checksumming it, and cutting its bytes back
/// into a frame gives back the version, the flags, the payload and its
/// length, and the checksum checks.
pub proof fn lemma_round_trip(version: u8, flags: Seq<Flag>, payload: Seq<u8>)
    requires
        version <= 15,
        payload.len() < 0x1_0000_0000,
    ensures
        ({
            let built = default_frame().with_version(version).with_flags(
                flags_bits(flags),
            ).with_payload(payload).with_crc();
            let parsed = parse(built.serialize());
            &&& built.header.len() == 12
            &&& hl_of(built.header) == 3
            &&& can_parse(built.serialize())
            &&& parsed == built
            &&& version_of(parsed.header) == version
            &&& flags_of(parsed.header) == flags_bits(flags)
            &&& parsed.payload == payload
            &&& payload_len_of(parsed.header) == payload.len()
            &&& crc_ok(parsed.header)
        }),
{
    let bits = flags_bits(flags);
    let v1 = default_frame().with_version(version);
    let v2 = v1.with_flags(bits);
    let v3 = v2.with_payload(payload);
    let built = v3.with_crc();
    let wire = built.serialize();
    let crc = crc32_of(v3.header.subrange(0, 6));
    lemma_le_bytes_len(payload.len(), 4);
    lemma_le_bytes_len(crc as nat, 4);
    let b0 = ((3u8 & 0x0F) | (version << 4u8)) as u8;
    assert(version <= 15 ==> b0 & 0x0F == 3 && b0 >> 4u8 == version) by (bit_vector)
        requires
            b0 == ((3u8 & 0x0F) | (version << 4u8)) as u8,
    ;
    assert(0u8 | bits == bits) by (bit_vector);
    assert(built.header.len() == 12);
    assert(built.header[0] == b0);
    assert(built.header[1] == bits);
    assert(built.header.subrange(2, 6) =~= le_bytes(payload.len(), 4));
    assert(built.header.subrange(6, 10) =~= le_bytes(crc as nat, 4));
    assert(built.header.subrange(0, 6) =~= v3.header.subrange(0, 6));
    assert(built.header[10] == 0 && built.header[11] == 0);
    let parsed = parse(wire);
    assert(wire.subrange(0, 12) =~= built.header);
    assert(parsed.header =~= built.header);
    assert(parsed.payload =~= payload);
    lemma_le_round_trip_4(crc);
    lemma_le_round_trip_4(payload.len() as u32);
    assert(payload.len() as u32 == payload.len());
}

/// The checksum check reads only the first ten header bytes: two frames on
/// the wire that agree there, whatever their options, reserved bytes or
/// payloads, pass or fail it together.
pub proof fn lemma_crc_ignores_rest(a: Seq<u8>, b: Seq<u8>)
    requires
        can_parse(a),
        can_parse(b),
        a.subrange(0, 10) == b.subrange(0, 10),
    ensures
        crc_ok(parse(a).header) == crc_ok(parse(b).header),
{
    assert(a[0] == a.subrange(0, 10)[0]);
    assert(b[0] == b.subrange(0, 10)[0]);
    assert(parse(a).header.subrange(0, 10) =~= a.subrange(0, 10));
    assert(parse(b).header.subrange(0, 10) =~= b.subrange(0, 10));
    assert(parse(a).header.subrange(0, 6) =~= parse(a).header.subrange(0, 10).subrange(0, 6));
    assert(parse(b).header.subrange(0, 6) =~= parse(b).header.subrange(0, 10).subrange(0, 6));
    assert(parse(a).header.subrange(6, 10) =~= parse(a).header.subrange(0, 10).subrange(6, 10));
    assert(parse(b).header.subrange(6, 10) =~= parse(b).header.subrange(0, 10).subrange(6, 10));
}

/// Writing one to ten option words into a frame whose 12-byte header has no
/// options and reading them back gives the same words in the same order; the
/// header length field becomes 3 plus their number, and the frame's bytes
/// cut back into the same frame.
pub proof fn lemma_options_round_trip(f: FrameView, opts: Seq<u32>)
    requires
        f.header.len() == 12,
        hl_of(f.header) == 3,
        1 <= opts.len() <= 10,
    ensures
        ({
            let g = f.with_options(opts);
            &&& hl_of(g.header) == 3 + opts.len()
            &&& g.header.len() == 4 * hl_of(g.header)
            &&& options_of(g.header) == opts
            &&& can_parse(g.serialize())
            &&& parse(g.serialize()) == g
        }),
{
    let g = f.with_options(opts);
    let n = opts.len() as u8;
    let h0 = f.header[0];
    assert(h0 & 0x0F == 3 && 1 <= n <= 10 ==> ((h0 + n) as u8) & 0x0F == 3 + n) by (bit_vector);
    lemma_option_bytes(opts);
    let ob = option_bytes(opts);
    assert forall|i: int| 0 <= i < opts.len() implies #[trigger] options_of(g.header)[i] == opts[i] by {
        assert(g.header.subrange(12 + 4 * i, 16 + 4 * i) =~= ob.subrange(4 * i, 4 * i + 4));
        lemma_le_round_trip_4(opts[i]);
    }
    assert(options_of(g.header) =~= opts);
    let wire = g.serialize();
    assert(wire[0] == g.header[0]);
    assert(wire.subrange(0, 4 * hl_of(g.header)) =~= g.header);
    assert(parse(wire).payload =~= g.payload);
}

/// Cutting received bytes whose header length field is at most 3 gives a
/// 12-byte header whose reserved bytes 10 and 11 are zero, whatever they
/// were on the wire.
pub proof fn lemma_reserved_bytes_cleared(data: Seq<u8>)
    requires
        can_parse(data),
        data[0] & 0x0F <= 3,
    ensures
        parse(data).header.len() == 12,
        parse(data).header[10] == 0,
        parse(data).header[11] == 0,
{
}

} // verus!
