use vstd::prelude::*;

use vstd::slice::slice_subrange;

use crate::little_endian::{le_bytes, le_value, push_le, read_u32_le, read_u64_le};
use crate::masked_crc::{compute_crc, masked_crc_of, MaskedCrc};

verus! {

// Format of a single record:
//  uint64    length
//  uint32    masked crc of length
//  byte      data[length]
//  uint32    masked crc of data
/// Offset of the length CRC within the header.
pub const LENGTH_CRC_OFFSET: usize = 8;

/// Bytes in the header: the length and its CRC.
pub const HEADER_LENGTH: usize = 12;

/// Bytes in the footer: the CRC of the data.
pub const FOOTER_LENGTH: usize = 4;

/// `std::io::Error`, carried opaquely by `ReadRecordError::Io`.
#[verifier::external_type_specification]
#[verifier::external_body]
pub struct ExIoError(std::io::Error);

/// The length declared by a stream that holds at least a full header.
pub open spec fn length_field(s: Seq<u8>) -> nat {
    le_value(s.subrange(0, 8))
}

/// The masked CRC of the length, as stored in the header.
pub open spec fn length_crc_field(s: Seq<u8>) -> nat {
    le_value(s.subrange(8, 12))
}

/// The masked CRC recomputed over the length bytes.
pub open spec fn length_crc_actual(s: Seq<u8>) -> u32 {
    masked_crc_of(s.subrange(0, 8))
}

/// The stored length CRC matches the recomputed one.
pub open spec fn length_crc_ok(s: Seq<u8>) -> bool {
    length_crc_actual(s) as nat == length_crc_field(s)
}

/// The data plus its footer fits in a `usize`.
pub open spec fn length_fits(s: Seq<u8>) -> bool {
    length_field(s) + 4 <= usize::MAX
}

/// Bytes in the whole record framed by the header of `s`.
pub open spec fn frame_len(s: Seq<u8>) -> nat {
    12 + length_field(s) + 4
}

/// What decoding a record from the start of a stream yields.
pub enum Decoded {
    Record { data: Seq<u8>, data_crc: u32 },
    Truncated,
    BadLengthCrc { got: u32, want: u32 },
    TooLarge { length: u64 },
}

/// The outcome of decoding one record from the bytes `s`, which start at a
/// record boundary.
pub open spec fn decode(s: Seq<u8>) -> Decoded {
    if s.len() < 12 {
        Decoded::Truncated
    } else if !length_crc_ok(s) {
        Decoded::BadLengthCrc { got: length_crc_actual(s), want: length_crc_field(s) as u32 }
    } else if !length_fits(s) {
        Decoded::TooLarge { length: length_field(s) as u64 }
    } else if s.len() < frame_len(s) {
        Decoded::Truncated
    } else {
        Decoded::Record {
            data: s.subrange(12, 12 + length_field(s) as int),
            data_crc: le_value(s.subrange(12 + length_field(s) as int, frame_len(s) as int)) as u32,
        }
    }
}

/// How many bytes of `s` the decoder takes in: all of them while the record is
/// incomplete, the header on a header error, the whole record on success.
pub open spec fn consumed(s: Seq<u8>) -> nat {
    match decode(s) {
        Decoded::Truncated => s.len(),
        Decoded::Record { .. } => frame_len(s),
        _ => 12,
    }
}

/// The bytes a parser state holds after decoding from `s`: none once a record
/// is complete, else what it took in.
pub open spec fn held_after(s: Seq<u8>) -> Seq<u8> {
    match decode(s) {
        Decoded::Record { .. } => Seq::empty(),
        _ => s.subrange(0, consumed(s) as int),
    }
}

/// The serialized form of a record with payload `data` and stored data CRC
/// `data_crc`.
pub open spec fn frame_of(data: Seq<u8>, data_crc: u32) -> Seq<u8> {
    let length = le_bytes(data.len(), 8);
    length + le_bytes(masked_crc_of(length) as nat, 4) + data + le_bytes(data_crc as nat, 4)
}

enum Stage {
    AwaitingHeader,
    /// The header is complete and valid; the data plus footer is this long.
    AwaitingBody(usize),
}

/// Resumable parsing state for one stream of records.
pub struct TfRecordState {
    /// TFRecord header: little-endian u64 length, u32 length-CRC.
    header: Vec<u8>,
    /// Everything past the header in the TFRecord: the data buffer, plus a
    /// little-endian u32 CRC of the data buffer.
    data_plus_footer: Vec<u8>,
    stage: Stage,
}

impl View for TfRecordState {
    type V = Seq<u8>;

    /// The bytes of the current record read so far.
    closed spec fn view(&self) -> Seq<u8> {
        self.header@ + self.data_plus_footer@
    }
}

impl TfRecordState {
    /// The buffers agree with the stage: while awaiting the header, no body
    /// bytes are held and a complete header is one that failed validation;
    /// while awaiting the body, the header is complete and valid and the body
    /// target is the declared length plus the footer.
    pub closed spec fn wf(&self) -> bool {
        let h = self.header@;
        match self.stage {
            Stage::AwaitingHeader => {
                &&& self.data_plus_footer@.len() == 0
                &&& h.len() <= 12
                &&& h.len() == 12 ==> !(length_crc_ok(h) && length_fits(h))
            },
            Stage::AwaitingBody(target) => {
                &&& h.len() == 12
                &&& length_crc_ok(h)
                &&& length_fits(h)
                &&& target == length_field(h) + 4
                &&& self.data_plus_footer@.len() < target
            },
        }
    }

    /// A state that holds no bytes and awaits a header.
    pub fn new() -> (r: Self)
        ensures
            r.wf(),
            r@ == Seq::<u8>::empty(),
    {
        let r = TfRecordState {
            header: Vec::with_capacity(HEADER_LENGTH),
            data_plus_footer: Vec::new(),
            stage: Stage::AwaitingHeader,
        };
        assert(r@ =~= Seq::<u8>::empty());
        r
    }
}

/// A decoded record: its payload and the masked CRC read with it.
pub struct TfRecord {
    pub data: Vec<u8>,
    data_crc: MaskedCrc,
}

/// A buffer's checksum was computed, but it did not match the expected value.
#[derive(Debug)]
pub struct ChecksumError {
    /// The actual checksum of the buffer.
    got: MaskedCrc,
    /// The expected checksum.
    want: MaskedCrc,
}

impl ChecksumError {
    /// The actual checksum of the buffer.
    pub closed spec fn got_spec(&self) -> u32 {
        self.got.0
    }

    /// The expected checksum.
    pub closed spec fn want_spec(&self) -> u32 {
        self.want.0
    }

    /// The actual checksum of the buffer.
    pub fn got(&self) -> (r: MaskedCrc)
        ensures
            r.0 == self.got_spec(),
    {
        self.got
    }

    /// The expected checksum.
    pub fn want(&self) -> (r: MaskedCrc)
        ensures
            r.0 == self.want_spec(),
    {
        self.want
    }
}

/// Compares a computed checksum with the expected one.
pub fn check_crc(got: MaskedCrc, want: MaskedCrc) -> (r: Result<(), ChecksumError>)
    ensures
        r is Ok <==> got == want,
        r matches Err(e) ==> e.got_spec() == got.0 && e.want_spec() == want.0,
{
    if got == want {
        Ok(())
    } else {
        Err(ChecksumError { got, want })
    }
}

impl TfRecord {
    /// The payload bytes.
    pub closed spec fn payload(&self) -> Seq<u8> {
        self.data@
    }

    /// The masked CRC that was read with the payload.
    pub closed spec fn data_crc_spec(&self) -> u32 {
        self.data_crc.0
    }

    /// The masked CRC that was read with the payload.
    pub fn data_crc(&self) -> (r: MaskedCrc)
        ensures
            r.0 == self.data_crc_spec(),
    {
        self.data_crc
    }

    /// Validates the integrity of the record by computing its CRC-32 and
    /// checking it against the expected value.
    pub fn checksum(&self) -> (r: Result<(), ChecksumError>)
        ensures
            r is Ok <==> masked_crc_of(self.payload()) == self.data_crc_spec(),
            r matches Err(e) ==> e.got_spec() == masked_crc_of(self.payload()) && e.want_spec()
                == self.data_crc_spec(),
    {
        let got = compute_crc(self.data.as_slice());
        check_crc(got, self.data_crc)
    }

    /// Writes this TFRecord in serialized form to the end of `w`: header,
    /// payload and footer. The data checksum is the stored one, not a
    /// recomputed one, so a corrupt record stays corrupt.
    pub fn write(&self, w: &mut Vec<u8>)
        ensures
            final(w)@ == old(w)@ + frame_of(self.payload(), self.data_crc_spec()),
    {
        let mut length_field: Vec<u8> = Vec::new();
        push_le(&mut length_field, self.data.len() as u64, 8);
        assert(length_field@ =~= le_bytes(self.data@.len(), 8));
        let length_crc = compute_crc(length_field.as_slice());
        w.extend_from_slice(length_field.as_slice());
        push_le(w, length_crc.0 as u64, 4);
        w.extend_from_slice(self.data.as_slice());
        push_le(w, self.data_crc.0 as u64, 4);
        assert(w@ =~= old(w)@ + frame_of(self.payload(), self.data_crc_spec()));
    }
}

#[derive(Debug)]
pub enum ReadRecordError {
    /// Length field failed checksum. Cannot read rest of file.
    BadLengthCrc(ChecksumError),
    /// No hard errors so far, but the record is not complete. Call
    /// `read_record` again with the same state once more data is available.
    Truncated,
    /// Record is too large to be represented in memory on this system.
    TooLarge(u64),
    /// Underlying I/O error.
    Io(std::io::Error),
}

impl From<std::io::Error> for ReadRecordError {
    fn from(io: std::io::Error) -> (r: Self)
        ensures
            r == ReadRecordError::Io(io),
    {
        ReadRecordError::Io(io)
    }
}

impl vstd::std_specs::convert::FromSpecImpl<std::io::Error> for ReadRecordError {
    open spec fn obeys_from_spec() -> bool {
        true
    }

    open spec fn from_spec(io: std::io::Error) -> Self {
        ReadRecordError::Io(io)
    }
}

/// The bytes a decode attempt sees: those the state holds, then those of
/// `input` from `pos` on.
pub open spec fn stream(held: Seq<u8>, input: Seq<u8>, pos: int) -> Seq<u8> {
    held + input.subrange(pos, input.len() as int)
}

/// `r` is the executable form of the outcome `d`.
pub open spec fn result_is(r: Result<TfRecord, ReadRecordError>, d: Decoded) -> bool {
    match d {
        Decoded::Record { data, data_crc } => r matches Ok(rec) && rec.payload() == data
            && rec.data_crc_spec() == data_crc,
        Decoded::Truncated => r matches Err(ReadRecordError::Truncated),
        Decoded::BadLengthCrc { got, want } => r matches Err(ReadRecordError::BadLengthCrc(e))
            && e.got_spec() == got && e.want_spec() == want,
        Decoded::TooLarge { length } => r matches Err(ReadRecordError::TooLarge(l)) && l == length,
    }
}

/// The header fields of two streams that share their first twelve bytes agree.
pub proof fn lemma_same_header(s: Seq<u8>, t: Seq<u8>)
    requires
        s.len() >= 12,
        t.len() >= 12,
        s.subrange(0, 12) == t.subrange(0, 12),
    ensures
        length_field(s) == length_field(t),
        length_crc_field(s) == length_crc_field(t),
        length_crc_actual(s) == length_crc_actual(t),
{
    assert(s.subrange(0, 8) =~= s.subrange(0, 12).subrange(0, 8));
    assert(t.subrange(0, 8) =~= t.subrange(0, 12).subrange(0, 8));
    assert(s.subrange(8, 12) =~= s.subrange(0, 12).subrange(8, 12));
    assert(t.subrange(8, 12) =~= t.subrange(0, 12).subrange(8, 12));
}

/// Moves into `buf` the bytes it lacks to reach `target` bytes, as far as
/// `input` holds them from `pos` on; coming up short is a truncation.
fn read_remaining(input: &[u8], pos: &mut usize, buf: &mut Vec<u8>, target: usize) -> (r: Result<
    (),
    ReadRecordError,
>)
    requires
        old(buf)@.len() <= target,
        *old(pos) <= input@.len(),
    ensures
        *final(pos) - *old(pos) == if target - old(buf)@.len() <= input@.len() - *old(pos) {
            target - old(buf)@.len()
        } else {
            input@.len() - *old(pos)
        },
        final(buf)@ == old(buf)@ + input@.subrange(*old(pos) as int, *final(pos) as int),
        r is Ok <==> final(buf)@.len() == target,
        r is Err ==> r matches Err(ReadRecordError::Truncated),
{
    let want = target - buf.len();
    let avail = input.len() - *pos;
    let n = if want <= avail {
        want
    } else {
        avail
    };
    buf.extend_from_slice(slice_subrange(input, *pos, *pos + n));
    *pos = *pos + n;
    assert(buf@ =~= old(buf)@ + input@.subrange(*old(pos) as int, *pos as int));
    if buf.len() < target {
        Err(ReadRecordError::Truncated)
    } else {
        Ok(())
    }
}

/// Attempts to read one TFRecord from the bytes of `input` at `pos`,
/// continuing from what `st` holds. If the record is not complete, the result
/// is `Truncated`, all available bytes are moved into `st`, and a later call
/// with the same state and further bytes continues where this one left off.
///
/// The length field is always validated against its checksum; the payload is
/// only validated by `TfRecord::checksum`.
pub fn read_record(st: &mut TfRecordState, input: &[u8], pos: &mut usize) -> (r: Result<
    TfRecord,
    ReadRecordError,
>)
    requires
        old(st).wf(),
        *old(pos) <= input@.len(),
    ensures
        final(st).wf(),
        ({
            let s = stream(old(st)@, input@, *old(pos) as int);
            &&& result_is(r, decode(s))
            &&& final(st)@ == held_after(s)
            &&& *final(pos) == *old(pos) + consumed(s) - old(st)@.len()
        }),
{
    let ghost s = stream(st@, input@, *pos as int);
    let target: usize;
    match st.stage {
        Stage::AwaitingHeader => {
            let got_header = read_remaining(input, pos, &mut st.header, HEADER_LENGTH);
            assert(s =~= st.header@ + input@.subrange(*pos as int, input@.len() as int));
            if got_header.is_err() {
                assert(st@ =~= s);
                assert(s.subrange(0, s.len() as int) =~= s);
                return Err(ReadRecordError::Truncated);
            }
            let header = st.header.as_slice();
            assert(s.subrange(0, 12) =~= st.header@);
            assert(st.header@.subrange(0, 12) =~= st.header@);
            proof { lemma_same_header(s, st.header@); }
            let length_bytes = slice_subrange(header, 0, LENGTH_CRC_OFFSET);
            let length_crc_bytes = slice_subrange(header, LENGTH_CRC_OFFSET, HEADER_LENGTH);
            assert(length_bytes@.subrange(0, 8) =~= length_bytes@);
            assert(length_crc_bytes@.subrange(0, 4) =~= length_crc_bytes@);
            let length_crc = MaskedCrc(read_u32_le(length_crc_bytes));
            let actual_crc = compute_crc(length_bytes);
            if let Err(e) = check_crc(actual_crc, length_crc) {
                assert(st@ =~= s.subrange(0, 12));
                return Err(ReadRecordError::BadLengthCrc(e));
            }
            let length = read_u64_le(length_bytes);
            if length > (usize::MAX - FOOTER_LENGTH) as u64 {
                assert(st@ =~= s.subrange(0, 12));
                return Err(ReadRecordError::TooLarge(length));
            }
            target = length as usize + FOOTER_LENGTH;
            st.stage = Stage::AwaitingBody(target);
        },
        Stage::AwaitingBody(t) => {
            target = t;
        },
    }
    let ghost h = st.header@;
    let ghost before_body = st.data_plus_footer@;
    assert(h.len() == 12 && length_crc_ok(h) && length_fits(h));
    assert(target == length_field(h) + 4 && before_body.len() < target);
    assert(s =~= h + before_body + input@.subrange(*pos as int, input@.len() as int));
    assert(s.subrange(0, 12) =~= h);
    assert(h.subrange(0, 12) =~= h);
    proof { lemma_same_header(s, h); }
    let got_body = read_remaining(input, pos, &mut st.data_plus_footer, target);
    assert(s =~= st@ + input@.subrange(*pos as int, input@.len() as int));
    if got_body.is_err() {
        assert(st@ =~= s);
        assert(s.subrange(0, s.len() as int) =~= s);
        return Err(ReadRecordError::Truncated);
    }
    let data_length = target - FOOTER_LENGTH;
    let data_crc_buf = st.data_plus_footer.split_off(data_length);
    let mut data: Vec<u8> = Vec::new();
    std::mem::swap(&mut data, &mut st.data_plus_footer);
    let data_crc = MaskedCrc(read_u32_le(data_crc_buf.as_slice()));
    assert(data@ =~= s.subrange(12, 12 + length_field(s) as int));
    assert(data_crc_buf@.subrange(0, 4) =~= s.subrange(
        12 + length_field(s) as int,
        frame_len(s) as int,
    ));
    st.header.clear();
    st.stage = Stage::AwaitingHeader;
    assert(st@ =~= Seq::<u8>::empty());
    Ok(TfRecord { data, data_crc })
}

} // verus!
