//! Outer `$Secure:$SDS` record framing and the pull-based stream reader.
//!
//! Each record is framed as `hash:u32, securityId:u32, streamOffset:u64,
//! length:u32`, followed by `length - 20` bytes holding the embedded
//! security descriptor, and padding up to the next sixteen-byte boundary.
//! The reader advances to the computed boundary whether or not the embedded
//! descriptor decoded, so one corrupt record never desynchronises the
//! records after it. A position where no full record can be framed ends
//! iteration; it is not an error.
use vstd::prelude::*;

use crate::bytes::{copy_range, le32, le64, read_le32, read_le64};
use crate::descriptor::{decode_descriptor, sd_parse, sd_wf, SdModel, SecurityDescriptor};
use crate::errors::DecodeError;
use crate::sid::sid_string;

verus! {

/// One successfully decoded stream record.
#[derive(Clone, Debug, PartialEq, Eq)]
pub struct StreamRecord {
    /// Hash of the descriptor bytes, as stored in the frame.
    pub hash: u32,
    /// The security identifier key under which file records reference this
    /// descriptor.
    pub security_id: u32,
    /// Offset of this record within the stream, as stored in the frame.
    pub stream_offset: u64,
    /// Declared length of the frame, header included.
    pub length: u32,
    pub descriptor: SecurityDescriptor,
}

/// Mathematical model of a [`StreamRecord`].
#[verifier::ext_equal]
pub struct RecordModel {
    pub hash: u32,
    pub security_id: u32,
    pub stream_offset: u64,
    pub length: u32,
    pub descriptor: SdModel,
}

impl View for StreamRecord {
    type V = RecordModel;

    open spec fn view(&self) -> RecordModel {
        RecordModel {
            hash: self.hash,
            security_id: self.security_id,
            stream_offset: self.stream_offset,
            length: self.length,
            descriptor: self.descriptor@,
        }
    }
}

impl StreamRecord {
    /// Hash field of the frame.
    pub fn get_hash(&self) -> (r: u32)
        ensures
            r == self.hash,
    {
        self.hash
    }

    /// Security identifier field of the frame.
    pub fn get_security_id(&self) -> (r: u32)
        ensures
            r == self.security_id,
    {
        self.security_id
    }

    /// Canonical string form of the owner identifier.
    pub fn get_owner_sid(&self) -> (r: String)
        requires
            sd_wf(self.descriptor@),
        ensures
            r@ == sid_string(self@.descriptor.owner),
    {
        self.descriptor.owner_sid.to_string()
    }

    /// Canonical string form of the group identifier.
    pub fn get_group_sid(&self) -> (r: String)
        requires
            sd_wf(self.descriptor@),
        ensures
            r@ == sid_string(self@.descriptor.group),
    {
        self.descriptor.group_sid.to_string()
    }

    /// The discretionary access control list, where the record has one.
    pub fn get_dacl(&self) -> (r: &Option<crate::acl::Acl>)
        ensures
            r == &self.descriptor.dacl,
    {
        &self.descriptor.dacl
    }

    /// The system access control list, where the record has one.
    pub fn get_sacl(&self) -> (r: &Option<crate::acl::Acl>)
        ensures
            r == &self.descriptor.sacl,
    {
        &self.descriptor.sacl
    }
}

/// A full record can be framed at `pos`: the twenty-byte header is there,
/// the declared length covers at least the header, and the whole frame lies
/// within the data.
pub open spec fn frame_ok(d: Seq<u8>, pos: int) -> bool {
    &&& 0 <= pos
    &&& pos + 20 <= d.len()
    &&& le32(d, pos + 16) >= 20
    &&& pos + le32(d, pos + 16) <= d.len()
}

/// First position after the frame at `pos`.
pub open spec fn frame_end(d: Seq<u8>, pos: int) -> int {
    pos + le32(d, pos + 16)
}

/// `x` rounded up to the next multiple of sixteen.
pub open spec fn align16(x: int) -> int {
    if x % 16 == 0 {
        x
    } else {
        x + (16 - x % 16)
    }
}

/// Position of the next record boundary after the frame at `pos`: the frame
/// end rounded up to a sixteen-byte boundary, capped at the end of the data.
pub open spec fn next_rec_pos(d: Seq<u8>, pos: int) -> int {
    if align16(frame_end(d, pos)) > d.len() {
        d.len() as int
    } else {
        align16(frame_end(d, pos))
    }
}

/// The embedded security descriptor bytes of the frame at `pos`.
pub open spec fn frame_blob(d: Seq<u8>, pos: int) -> Seq<u8> {
    d.subrange(pos + 20, frame_end(d, pos))
}

/// The slot the frame at `pos` yields: the decoded record, or the decode
/// failure of its embedded descriptor.
pub open spec fn slot_at(d: Seq<u8>, pos: int) -> Result<RecordModel, DecodeError> {
    match sd_parse(frame_blob(d, pos)) {
        Ok(sd) => Ok(
            RecordModel {
                hash: le32(d, pos) as u32,
                security_id: le32(d, pos + 4) as u32,
                stream_offset: le64(d, pos + 8) as u64,
                length: le32(d, pos + 16) as u32,
                descriptor: sd,
            },
        ),
        Err(detail) => Err(DecodeError::MalformedSecurityDescriptor { detail }),
    }
}

/// All slots of the stream from `pos` on, in order, one per framed record,
/// ending at the first position where no record can be framed.
#[verifier::opaque]
pub open spec fn stream_from(d: Seq<u8>, pos: int) -> Seq<Result<RecordModel, DecodeError>>
    decreases d.len() - pos,
{
    if !frame_ok(d, pos) {
        seq![]
    } else {
        seq![slot_at(d, pos)] + stream_from(d, next_rec_pos(d, pos))
    }
}

/// View of an executable slot.
pub open spec fn slot_view(r: Result<StreamRecord, DecodeError>) -> Result<
    RecordModel,
    DecodeError,
> {
    match r {
        Ok(rec) => Ok(rec@),
        Err(e) => Err(e),
    }
}

/// Views of a sequence of executable slots, in order.
pub open spec fn slots_view(v: Seq<Result<StreamRecord, DecodeError>>) -> Seq<
    Result<RecordModel, DecodeError>,
> {
    v.map_values(|s: Result<StreamRecord, DecodeError>| slot_view(s))
}

proof fn lemma_slots_view_push(v: Seq<Result<StreamRecord, DecodeError>>, x: Result<
    StreamRecord,
    DecodeError,
>)
    ensures
        slots_view(v.push(x)) == slots_view(v).push(slot_view(x)),
{
    assert(slots_view(v.push(x)) =~= slots_view(v).push(slot_view(x)));
}

/// Appending the slot of the record framed at `cur` keeps the accumulated
/// views a prefix of the whole stream.
proof fn lemma_dump_step(
    d: Seq<u8>,
    pos0: int,
    cur: int,
    acc: Seq<Result<RecordModel, DecodeError>>,
)
    requires
        frame_ok(d, cur),
        acc + stream_from(d, cur) == stream_from(d, pos0),
    ensures
        acc.push(slot_at(d, cur)) + stream_from(d, next_rec_pos(d, cur)) == stream_from(d, pos0),
{
    reveal(stream_from);
    assert(stream_from(d, cur) == seq![slot_at(d, cur)] + stream_from(d, next_rec_pos(d, cur)));
    assert(acc.push(slot_at(d, cur)) + stream_from(d, next_rec_pos(d, cur)) =~= acc + stream_from(
        d,
        cur,
    ));
}

/// Decoding is deterministic: the slots of a stream are a function of its
/// bytes and starting position alone, so decoding the same bytes twice
/// yields structurally equal records. Every decoder's contract equates its
/// result with a specification function of the input bytes; this states that
/// consequence for whole streams.
pub proof fn lemma_stream_deterministic(d1: Seq<u8>, d2: Seq<u8>, pos1: int, pos2: int)
    requires
        d1 == d2,
        pos1 == pos2,
    ensures
        stream_from(d1, pos1) == stream_from(d2, pos2),
{
}

/// Every framed record occupies exactly one slot, whether or not its
/// embedded descriptor decodes: the stream always continues at the next
/// record boundary, so one malformed descriptor never ends iteration or
/// desynchronises the records after it.
pub proof fn lemma_failed_slot_continues(d: Seq<u8>, pos: int)
    requires
        frame_ok(d, pos),
    ensures
        stream_from(d, pos) == seq![slot_at(d, pos)] + stream_from(d, next_rec_pos(d, pos)),
        stream_from(d, pos).len() >= 1,
        stream_from(d, pos)[0] == slot_at(d, pos),
{
    reveal(stream_from);
}

/// At a position where no record can be framed the stream has ended.
pub proof fn lemma_stream_end(d: Seq<u8>, pos: int)
    requires
        !frame_ok(d, pos),
    ensures
        stream_from(d, pos) == Seq::<Result<RecordModel, DecodeError>>::empty(),
{
    reveal(stream_from);
}

/// Mathematical model of an [`SdsParser`]: the bytes it walks and its
/// current position.
#[verifier::ext_equal]
pub struct ParserModel {
    pub data: Seq<u8>,
    pub pos: int,
}

/// Pull-based reader over an in-memory `$Secure:$SDS` byte stream. Each call
/// of [`SdsParser::next`] frames one record, decodes its embedded security
/// descriptor, and advances to the next record boundary whatever that decode
/// returned.
pub struct SdsParser {
    data: Vec<u8>,
    pos: usize,
}

impl View for SdsParser {
    type V = ParserModel;

    closed spec fn view(&self) -> ParserModel {
        ParserModel { data: self.data@, pos: self.pos as int }
    }
}

impl SdsParser {
    /// A reader positioned at the first record boundary of `data`.
    pub fn from_bytes(data: Vec<u8>) -> (r: SdsParser)
        ensures
            r@.data == data@,
            r@.pos == 0,
    {
        SdsParser { data, pos: 0 }
    }

    /// Frames and decodes the record at the current position. Yields `None`
    /// at a position where no full record can be framed — end of iteration,
    /// with the reader left unchanged. Otherwise yields the record's slot,
    /// successful or failed, and advances to the next record boundary either
    /// way.
    pub fn next(&mut self) -> (r: Option<Result<StreamRecord, DecodeError>>)
        ensures
            frame_ok(old(self)@.data, old(self)@.pos) ==> {
                &&& final(self)@.data == old(self)@.data
                &&& final(self)@.pos == next_rec_pos(old(self)@.data, old(self)@.pos)
                &&& old(self)@.pos < final(self)@.pos <= final(self)@.data.len()
                &&& r matches Some(slot) && slot_view(slot) == slot_at(
                    old(self)@.data,
                    old(self)@.pos,
                )
                &&& (r matches Some(slot) && slot matches Ok(rec) ==> sd_wf(rec@.descriptor))
            },
            !frame_ok(old(self)@.data, old(self)@.pos) ==> r is None && final(self)@ == old(
                self,
            )@,
    {
        let n = self.data.len();
        let pos = self.pos;
        if pos > n || n - pos < 20 {
            return None;
        }
        let d = self.data.as_slice();
        let length = read_le32(d, pos + 16) as usize;
        if length < 20 || length > n - pos {
            return None;
        }
        let hash = read_le32(d, pos);
        let security_id = read_le32(d, pos + 4);
        let stream_offset = read_le64(d, pos + 8);
        let rec_end = pos + length;
        let blob = copy_range(d, pos + 20, rec_end);
        let decoded = decode_descriptor(blob.as_slice());
        let rem = rec_end % 16;
        let next_pos = if rem == 0 {
            rec_end
        } else if n - rec_end < 16 - rem {
            n
        } else {
            rec_end + (16 - rem)
        };
        proof {
            assert(next_pos == next_rec_pos(self@.data, pos as int));
        }
        self.pos = next_pos;
        match decoded {
            Ok(descriptor) => Some(
                Ok(
                    StreamRecord {
                        hash,
                        security_id,
                        stream_offset,
                        length: length as u32,
                        descriptor,
                    },
                ),
            ),
            Err(e) => Some(Err(e)),
        }
    }

    /// Decodes all remaining records in order, leaving the reader at the
    /// position where iteration ended.
    #[verifier::rlimit(100)]
    #[verifier::spinoff_prover]
    pub fn dump(&mut self) -> (v: Vec<Result<StreamRecord, DecodeError>>)
        ensures
            final(self)@.data == old(self)@.data,
            slots_view(v@) == stream_from(old(self)@.data, old(self)@.pos),
            !frame_ok(final(self)@.data, final(self)@.pos),
    {
        let ghost d = self@.data;
        let ghost pos0 = self@.pos;
        let mut v: Vec<Result<StreamRecord, DecodeError>> = Vec::new();
        proof {
            assert(slots_view(v@) + stream_from(d, pos0) =~= stream_from(d, pos0));
        }
        loop
            invariant
                d == old(self)@.data,
                pos0 == old(self)@.pos,
                self@.data == d,
                slots_view(v@) + stream_from(d, self@.pos) == stream_from(d, pos0),
            decreases (if self@.pos <= d.len() {
                d.len() - self@.pos
            } else {
                0
            }),
        {
            let ghost cur = self@.pos;
            let ghost vpre = v@;
            match self.next() {
                Some(slot) => {
                    v.push(slot);
                    proof {
                        lemma_slots_view_push(vpre, slot);
                        lemma_dump_step(d, pos0, cur, slots_view(vpre));
                    }
                },
                None => {
                    proof {
                        lemma_stream_end(d, self@.pos);
                        assert(slots_view(v@) + stream_from(d, self@.pos) =~= slots_view(v@));
                    }
                    return v;
                },
            }
        }
    }
}

} // verus!
