use vstd::prelude::*;

use crate::little_endian::{
    le_bytes, le_value, lemma_le_bytes_len, lemma_le_round_trip, lemma_le_value_bound,
    lemma_le_value_injective, lemma_pow256_widths,
};
use crate::masked_crc::masked_crc_of;
use crate::tf_record::{
    consumed, decode, frame_len, frame_of, held_after, length_crc_actual, length_crc_field,
    length_field, lemma_same_header, Decoded,
};

verus! {

/// The header that `write` emits for a payload of `length` bytes.
pub open spec fn header_of(length: nat) -> Seq<u8> {
    le_bytes(length, 8) + le_bytes(masked_crc_of(le_bytes(length, 8)) as nat, 4)
}

/// A frame is its header, its payload and its footer.
proof fn lemma_frame_parts(data: Seq<u8>, data_crc: u32)
    requires
        data.len() < 0x1_0000_0000_0000_0000,
    ensures
        ({
            let f = frame_of(data, data_crc);
            &&& f.len() == data.len() + 16
            &&& f.subrange(0, 12) == header_of(data.len())
            &&& length_field(f) == data.len()
            &&& length_crc_field(f) == masked_crc_of(le_bytes(data.len(), 8))
            &&& length_crc_actual(f) == masked_crc_of(le_bytes(data.len(), 8))
            &&& f.subrange(12, 12 + data.len() as int) == data
            &&& le_value(f.subrange(12 + data.len() as int, f.len() as int)) == data_crc
        }),
{
    let f = frame_of(data, data_crc);
    let len_bytes = le_bytes(data.len(), 8);
    let mc = masked_crc_of(len_bytes);
    lemma_le_bytes_len(data.len(), 8);
    lemma_le_bytes_len(mc as nat, 4);
    lemma_le_bytes_len(data_crc as nat, 4);
    lemma_pow256_widths();
    lemma_le_round_trip(data.len(), 8);
    lemma_le_round_trip(mc as nat, 4);
    lemma_le_round_trip(data_crc as nat, 4);
    assert(f.subrange(0, 12) =~= header_of(data.len()));
    assert(f.subrange(0, 8) =~= len_bytes);
    assert(f.subrange(8, 12) =~= le_bytes(mc as nat, 4));
    assert(f.subrange(12, 12 + data.len() as int) =~= data);
    assert(f.subrange(12 + data.len() as int, f.len() as int) =~= le_bytes(data_crc as nat, 4));
}

/// Decoding what `write` emits gives the record back, its stored data CRC
/// included, whether or not that CRC matches the payload; the decoder takes
/// in exactly the frame and holds nothing afterwards.
pub proof fn lemma_round_trip(data: Seq<u8>, data_crc: u32)
    requires
        data.len() + 4 <= usize::MAX,
    ensures
        decode(frame_of(data, data_crc)) == (Decoded::Record { data, data_crc }),
        consumed(frame_of(data, data_crc)) == frame_of(data, data_crc).len(),
        held_after(frame_of(data, data_crc)) == Seq::<u8>::empty(),
{
    lemma_frame_parts(data, data_crc);
}

/// Once the bytes seen so far decide the outcome, more bytes change neither
/// the outcome nor how many bytes are taken in.
pub proof fn lemma_decided_outcome_stays(s: Seq<u8>, t: Seq<u8>)
    requires
        !(decode(s) is Truncated),
    ensures
        decode(s + t) == decode(s),
        consumed(s + t) == consumed(s),
        held_after(s + t) == held_after(s),
{
    let st = s + t;
    assert(st.subrange(0, 12) =~= s.subrange(0, 12));
    lemma_same_header(s, st);
    if decode(s) is Record {
        let n = length_field(s) as int;
        assert(st.subrange(12, 12 + n) =~= s.subrange(12, 12 + n));
        assert(st.subrange(12 + n, frame_len(s) as int) =~= s.subrange(12 + n, frame_len(s) as int));
    } else {
        assert(st.subrange(0, 12) =~= s.subrange(0, 12));
    }
}

/// The outcome of handing a state that holds `held` the chunks one call at a
/// time, stopping at the first call that does not report truncation.
pub open spec fn feed_chunks(held: Seq<u8>, chunks: Seq<Seq<u8>>) -> Decoded
    decreases chunks.len(),
{
    if chunks.len() == 0 {
        Decoded::Truncated
    } else {
        let s = held + chunks[0];
        if decode(s) is Truncated && chunks.len() > 1 {
            feed_chunks(held_after(s), chunks.drop_first())
        } else {
            decode(s)
        }
    }
}

proof fn lemma_feed_chunks_from(held: Seq<u8>, chunks: Seq<Seq<u8>>)
    requires
        chunks.len() > 0,
        decode(held) is Truncated,
    ensures
        feed_chunks(held, chunks) == decode(held + chunks.flatten()),
    decreases chunks.len(),
{
    let s = held + chunks[0];
    let rest = chunks.drop_first();
    assert(held + chunks.flatten() =~= s + rest.flatten());
    if decode(s) is Truncated {
        if chunks.len() > 1 {
            assert(held_after(s) =~= s);
            lemma_feed_chunks_from(s, rest);
        } else {
            assert(rest.flatten() =~= Seq::<u8>::empty());
            assert(s + rest.flatten() =~= s);
        }
    } else {
        lemma_decided_outcome_stays(s, rest.flatten());
    }
}

/// Handing a fresh state a stream in pieces, one piece per call (one byte per
/// call, say), ends in the same outcome as handing it the whole stream at once.
pub proof fn lemma_resumable(chunks: Seq<Seq<u8>>)
    requires
        chunks.len() > 0,
    ensures
        feed_chunks(Seq::empty(), chunks) == decode(chunks.flatten()),
{
    lemma_feed_chunks_from(Seq::empty(), chunks);
    assert(Seq::<u8>::empty() + chunks.flatten() =~= chunks.flatten());
}

/// A complete record followed by part of a second one yields the first record
/// and takes in exactly its frame; the part left over is truncated and held,
/// and once the rest of the second record arrives it is yielded whole.
pub proof fn lemma_record_then_partial(
    data1: Seq<u8>,
    crc1: u32,
    data2: Seq<u8>,
    crc2: u32,
    k: int,
)
    requires
        data1.len() + 4 <= usize::MAX,
        data2.len() + 4 <= usize::MAX,
        0 <= k < frame_of(data2, crc2).len(),
    ensures
        ({
            let f1 = frame_of(data1, crc1);
            let f2 = frame_of(data2, crc2);
            let first = f2.subrange(0, k);
            &&& decode(f1 + first) == (Decoded::Record { data: data1, data_crc: crc1 })
            &&& consumed(f1 + first) == f1.len()
            &&& (f1 + first).subrange(consumed(f1 + first) as int, (f1 + first).len() as int)
                == first
            &&& decode(first) is Truncated
            &&& held_after(first) == first
            &&& decode(held_after(first) + f2.subrange(k, f2.len() as int)) == (Decoded::Record {
                data: data2,
                data_crc: crc2,
            })
        }),
{
    let f1 = frame_of(data1, crc1);
    let f2 = frame_of(data2, crc2);
    let first = f2.subrange(0, k);
    lemma_round_trip(data1, crc1);
    lemma_round_trip(data2, crc2);
    lemma_decided_outcome_stays(f1, first);
    assert((f1 + first).subrange(f1.len() as int, (f1 + first).len() as int) =~= first);
    lemma_frame_parts(data2, crc2);
    if k >= 12 {
        assert(first.subrange(0, 12) =~= f2.subrange(0, 12));
        lemma_same_header(first, f2);
    }
    assert(first.subrange(0, first.len() as int) =~= first);
    assert(first + f2.subrange(k, f2.len() as int) =~= f2);
}

/// Flipping one bit of the stored length CRC of a valid frame makes decoding
/// fail on the length CRC, with the recomputed and stored values differing.
pub proof fn lemma_corrupt_length_crc(data: Seq<u8>, data_crc: u32, i: int, bit: u8)
    requires
        data.len() + 4 <= usize::MAX,
        8 <= i < 12,
        bit < 8,
    ensures
        ({
            let f = frame_of(data, data_crc);
            let g = f.update(i, f[i] ^ (1u8 << bit));
            decode(g) matches Decoded::BadLengthCrc { got, want } && got != want
        }),
{
    let f = frame_of(data, data_crc);
    let b = f[i];
    let g = f.update(i, b ^ (1u8 << bit));
    lemma_frame_parts(data, data_crc);
    assert(b ^ (1u8 << bit) != b) by (bit_vector)
        requires
            bit < 8,
    ;
    assert(g.subrange(0, 8) =~= f.subrange(0, 8));
    assert(g.subrange(8, 12)[i - 8] != f.subrange(8, 12)[i - 8]);
    if le_value(g.subrange(8, 12)) == le_value(f.subrange(8, 12)) {
        lemma_le_value_injective(g.subrange(8, 12), f.subrange(8, 12));
    }
    lemma_le_value_bound(g.subrange(8, 12));
    lemma_pow256_widths();
}

/// A valid header declaring a length whose data plus footer does not fit in a
/// `usize` makes decoding fail with that length, whatever follows.
pub proof fn lemma_too_large(length: u64, rest: Seq<u8>)
    requires
        length + 4 > usize::MAX,
    ensures
        decode(header_of(length as nat) + rest) == (Decoded::TooLarge { length }),
{
    let h = header_of(length as nat);
    let s = h + rest;
    let len_bytes = le_bytes(length as nat, 8);
    let mc = masked_crc_of(len_bytes);
    lemma_le_bytes_len(length as nat, 8);
    lemma_le_bytes_len(mc as nat, 4);
    lemma_pow256_widths();
    lemma_le_round_trip(length as nat, 8);
    lemma_le_round_trip(mc as nat, 4);
    assert(s.subrange(0, 8) =~= len_bytes);
    assert(s.subrange(8, 12) =~= le_bytes(mc as nat, 4));
}

} // verus!
