use crate::fourcc::FourCC;
use vstd::prelude::*;

verus! {

/// The payload of a chunk: either raw bytes or an ordered list of child
/// chunks.
#[derive(Debug)]
pub enum ChunkData {
    RawData(Vec<u8>),
    ChunkData(Vec<ChunkBuilder>),
}

/// One RIFF record: identifier, declared payload length, optional form-type
/// tag, and payload. Immutable once built; the declared length is fixed at
/// construction time and covers the payload before padding.
#[derive(Debug)]
pub struct ChunkBuilder {
    pub chunk_id: FourCC,
    pub payload_len: u32,
    pub chunk_type: Option<FourCC>,
    pub data: ChunkData,
}

/// The header footprint a chunk contributes to the total declared by its
/// parent: 8 bytes of id + length, 4 more when a form-type tag is present,
/// plus the chunk's own declared payload length.
pub open spec fn spec_chunk_outer_len(c: ChunkBuilder) -> int {
    8 + (if c.chunk_type is Some {
        4int
    } else {
        0int
    }) + c.payload_len as int
}

/// The declared length of a list payload: the sum of the outer footprints of
/// its children, in order.
pub open spec fn spec_children_declared_len(cs: Seq<ChunkBuilder>) -> int
    decreases cs.len(),
{
    if cs.len() == 0 {
        0
    } else {
        spec_children_declared_len(cs.drop_last()) + spec_chunk_outer_len(cs.last())
    }
}

/// The declared payload length computed from a payload at construction time:
/// for raw bytes their count, for a list the recursive header-plus-length sum.
pub open spec fn spec_declared_len(d: ChunkData) -> int {
    match d {
        ChunkData::RawData(v) => v@.len() as int,
        ChunkData::ChunkData(cs) => spec_children_declared_len(cs@),
    }
}

/// A byte sequence padded to even length with a single zero byte.
pub open spec fn spec_pad_even(s: Seq<u8>) -> Seq<u8> {
    if s.len() % 2 == 1 {
        s.push(0u8)
    } else {
        s
    }
}

/// The bytes of an optional form-type tag: the 4 tag bytes when present,
/// nothing otherwise.
pub open spec fn spec_type_bytes(t: Option<FourCC>) -> Seq<u8> {
    match t {
        Option::Some(f) => f@,
        Option::None => Seq::empty(),
    }
}

/// The serialized bytes of one chunk: identifier, little-endian declared
/// length, optional form-type tag, then the payload bytes.
pub open spec fn spec_chunk_bytes(c: ChunkBuilder) -> Seq<u8>
    decreases c,
{
    c.chunk_id@ + vstd::bytes::spec_u32_to_le_bytes(c.payload_len) + spec_type_bytes(c.chunk_type)
        + spec_data_bytes(c.data)
}

/// The serialized bytes of a payload: raw bytes verbatim (the pad byte, when
/// one was appended at construction, is part of them), or each child chunk in
/// order.
pub open spec fn spec_data_bytes(d: ChunkData) -> Seq<u8>
    decreases d,
{
    match d {
        ChunkData::RawData(v) => v@,
        ChunkData::ChunkData(cs) => spec_children_bytes(cs@),
    }
}

/// The serialized bytes of a list of chunks, in order.
pub open spec fn spec_children_bytes(cs: Seq<ChunkBuilder>) -> Seq<u8>
    decreases cs,
{
    if cs.len() == 0 {
        Seq::empty()
    } else {
        spec_children_bytes(cs.subrange(0, cs.len() - 1)) + spec_chunk_bytes(cs.last())
    }
}

/// Well-formedness of a built chunk. The declared length records the payload
/// size before padding: a raw payload whose original length was odd holds one
/// extra zero byte; a list payload's declared length is the header-plus-length
/// sum over its children, each of which is itself well formed.
pub open spec fn chunk_wf(c: ChunkBuilder) -> bool
    decreases c,
{
    match c.data {
        ChunkData::RawData(v) => if c.payload_len % 2 == 0 {
            v@.len() == c.payload_len
        } else {
            v@.len() == c.payload_len + 1 && v@[c.payload_len as int] == 0
        },
        ChunkData::ChunkData(cs) => c.payload_len == spec_children_declared_len(cs@)
            && children_wf(cs@),
    }
}

/// Every chunk of the sequence is well formed.
pub open spec fn children_wf(cs: Seq<ChunkBuilder>) -> bool
    decreases cs,
{
    forall|i: int| 0 <= i < cs.len() ==> chunk_wf(#[trigger] cs[i])
}

/// Well-formedness of an incoming payload: raw bytes are always acceptable;
/// a list must consist of well-formed chunks.
pub open spec fn data_wf(d: ChunkData) -> bool {
    match d {
        ChunkData::RawData(_) => true,
        ChunkData::ChunkData(cs) => children_wf(cs@),
    }
}

/// The number of bytes a chunk occupies in its parent's serialization at the
/// top level of a container: its outer footprint plus one pad byte when its
/// raw payload had odd length.
pub open spec fn spec_chunk_total_size(c: ChunkBuilder) -> int {
    spec_chunk_outer_len(c) + (if c.data is RawData && c.payload_len % 2 == 1 {
        1int
    } else {
        0int
    })
}

/// The running total payload length of a container holding the given chunks:
/// 4 bytes for the mandatory form-type tag, plus each chunk's total size.
pub open spec fn spec_total_len(cs: Seq<ChunkBuilder>) -> int
    decreases cs.len(),
{
    if cs.len() == 0 {
        4
    } else {
        spec_total_len(cs.drop_last()) + spec_chunk_total_size(cs.last())
    }
}

/// The root RIFF structure: an overall form-type identifier, the running
/// total payload length, and the ordered top-level chunks.
#[derive(Debug)]
pub struct RiffBuilder {
    pub payload_len: u32,
    pub chunk_type: FourCC,
    pub data: Vec<ChunkBuilder>,
}

/// Well-formedness of a container: its chunks are well formed and its running
/// total is exactly the sum their serialized bodies will occupy plus the
/// form-type tag.
pub open spec fn riff_wf(r: RiffBuilder) -> bool {
    children_wf(r.data@) && r.payload_len == spec_total_len(r.data@)
}

/// The fixed 4-byte marker that opens every container of this format: the
/// ASCII letters `RIFF`.
pub open spec fn spec_riff_id() -> Seq<u8> {
    seq![82u8, 73u8, 70u8, 70u8]
}

/// The full serialization of a container: marker, little-endian total length,
/// form-type tag, then each top-level chunk in insertion order.
pub open spec fn spec_riff_bytes(r: RiffBuilder) -> Seq<u8> {
    spec_riff_id() + vstd::bytes::spec_u32_to_le_bytes(r.payload_len) + r.chunk_type@
        + spec_children_bytes(r.data@)
}

/// Appends every byte of `bytes` to `out`, in order.
fn push_slice(out: &mut Vec<u8>, bytes: &[u8])
    ensures
        final(out)@ == old(out)@ + bytes@,
{
    let mut i: usize = 0;
    proof {
        assert(out@ =~= old(out)@ + bytes@.subrange(0, 0));
    }
    while i < bytes.len()
        invariant
            i <= bytes@.len(),
            out@ == old(out)@ + bytes@.subrange(0, i as int),
        decreases bytes@.len() - i,
    {
        out.push(bytes[i]);
        proof {
            assert(bytes@.subrange(0, i + 1) =~= bytes@.subrange(0, i as int).push(
                bytes@[i as int],
            ));
            assert(out@ =~= old(out)@ + bytes@.subrange(0, i + 1));
        }
        i = i + 1;
    }
    proof {
        assert(bytes@.subrange(0, bytes@.len() as int) =~= bytes@);
    }
}

/// A prefix of a chunk list never declares more than the whole list: every
/// chunk's outer footprint is nonnegative.
proof fn lemma_children_prefix_le(cs: Seq<ChunkBuilder>, i: int)
    requires
        0 <= i <= cs.len(),
    ensures
        spec_children_declared_len(cs.subrange(0, i)) <= spec_children_declared_len(cs),
    decreases cs.len(),
{
    if i == cs.len() {
        assert(cs.subrange(0, i) =~= cs);
    } else {
        let pre = cs.drop_last();
        assert(cs.subrange(0, i) =~= pre.subrange(0, i));
        lemma_children_prefix_le(pre, i);
    }
}

impl ChunkBuilder {
    /// The declared payload length of an incoming payload: a raw payload's
    /// byte count, or the header-plus-length sum over a list's children.
    fn calculate_payload(data: &ChunkData) -> (r: u32)
        requires
            spec_declared_len(*data) <= u32::MAX,
        ensures
            r as int == spec_declared_len(*data),
    {
        match data {
            ChunkData::ChunkData(chunks) => {
                let mut sum: u32 = 0;
                let mut i: usize = 0;
                while i < chunks.len()
                    invariant
                        i <= chunks@.len(),
                        sum as int == spec_children_declared_len(chunks@.subrange(0, i as int)),
                        spec_children_declared_len(chunks@) <= u32::MAX,
                    decreases chunks@.len() - i,
                {
                    proof {
                        lemma_children_prefix_le(chunks@, i + 1);
                        assert(chunks@.subrange(0, i + 1).drop_last() =~= chunks@.subrange(
                            0,
                            i as int,
                        ));
                        assert(chunks@.subrange(0, i + 1).last() == chunks@[i as int]);
                    }
                    let x = &chunks[i];
                    if x.chunk_type.is_none() {
                        sum = sum + x.payload_len + 8;
                    } else {
                        sum = sum + x.payload_len + 4 + 8;
                    }
                    i = i + 1;
                }
                proof {
                    assert(chunks@.subrange(0, chunks@.len() as int) =~= chunks@);
                }
                sum
            },
            ChunkData::RawData(data) => data.len() as u32,
        }
    }

    /// Pads a raw payload to even length with a single zero byte; a list
    /// payload passes through unchanged.
    fn fit_data(data: ChunkData) -> (r: ChunkData)
        ensures
            data matches ChunkData::RawData(v) ==> (r matches ChunkData::RawData(w) && w@
                == spec_pad_even(v@)),
            data is ChunkData ==> r == data,
    {
        match data {
            ChunkData::RawData(mut vec) => {
                if vec.len() % 2 == 1 {
                    vec.push(0);
                }
                ChunkData::RawData(vec)
            },
            chunks => chunks,
        }
    }

    /// Appends the full serialization of this chunk to `result`: identifier,
    /// little-endian declared length, the form-type tag when present, then
    /// the payload — raw bytes verbatim (including any pad byte), or each
    /// child chunk recursively, in insertion order.
    #[verifier::loop_isolation(false)]
    pub fn to_bytes(&self, result: &mut Vec<u8>)
        ensures
            final(result)@ == old(result)@ + spec_chunk_bytes(*self),
        decreases *self,
    {
        push_slice(result, self.chunk_id.as_bytes().as_slice());
        let len_bytes = vstd::bytes::u32_to_le_bytes(self.payload_len);
        push_slice(result, len_bytes.as_slice());
        if self.chunk_type.is_some() {
            push_slice(result, self.chunk_type.as_ref().unwrap().as_bytes().as_slice());
        }
        let ghost header = result@;
        proof {
            assert(header =~= old(result)@ + self.chunk_id@ + vstd::bytes::spec_u32_to_le_bytes(
                self.payload_len,
            ) + spec_type_bytes(self.chunk_type));
        }
        match &self.data {
            ChunkData::RawData(raw) => {
                push_slice(result, raw.as_slice());
            },
            ChunkData::ChunkData(chunks) => {
                let mut i: usize = 0;
                proof {
                    assert(result@ =~= header + spec_children_bytes(chunks@.subrange(0, 0)));
                }
                while i < chunks.len()
                    invariant
                        i <= chunks@.len(),
                        result@ == header + spec_children_bytes(chunks@.subrange(0, i as int)),
                    decreases chunks@.len() - i,
                {
                    chunks[i].to_bytes(result);
                    proof {
                        assert(chunks@.subrange(0, i + 1).drop_last() =~= chunks@.subrange(
                            0,
                            i as int,
                        ));
                        assert(chunks@.subrange(0, i + 1).last() == chunks@[i as int]);
                        assert(result@ =~= header + spec_children_bytes(
                            chunks@.subrange(0, i + 1),
                        ));
                    }
                    i = i + 1;
                }
                proof {
                    assert(chunks@.subrange(0, chunks@.len() as int) =~= chunks@);
                }
            },
        }
        proof {
            assert(result@ =~= old(result)@ + spec_chunk_bytes(*self));
        }
    }

    /// Builds a chunk without a form-type tag. The declared length is
    /// computed from the payload before padding; a raw payload is then padded
    /// to even length.
    pub fn new_notype(id: FourCC, data: ChunkData) -> (r: Self)
        requires
            data_wf(data),
            spec_declared_len(data) <= u32::MAX,
        ensures
            chunk_wf(r),
            r.chunk_id == id,
            r.chunk_type is None,
            r.payload_len as int == spec_declared_len(data),
            data matches ChunkData::RawData(v) ==> (r.data matches ChunkData::RawData(w) && w@
                == spec_pad_even(v@)),
            data is ChunkData ==> r.data == data,
    {
        ChunkBuilder {
            chunk_id: id,
            payload_len: ChunkBuilder::calculate_payload(&data),
            chunk_type: None,
            data: ChunkBuilder::fit_data(data),
        }
    }

    /// Builds a "list-style" chunk carrying a form-type tag. The declared
    /// length covers only the payload; the 4 tag bytes are header overhead
    /// that the parent accounts for.
    pub fn new_type(id: FourCC, chunk_type: FourCC, data: ChunkData) -> (r: Self)
        requires
            data_wf(data),
            spec_declared_len(data) <= u32::MAX,
        ensures
            chunk_wf(r),
            r.chunk_id == id,
            r.chunk_type == Some(chunk_type),
            r.payload_len as int == spec_declared_len(data),
            data matches ChunkData::RawData(v) ==> (r.data matches ChunkData::RawData(w) && w@
                == spec_pad_even(v@)),
            data is ChunkData ==> r.data == data,
    {
        ChunkBuilder {
            chunk_id: id,
            payload_len: ChunkBuilder::calculate_payload(&data),
            chunk_type: Some(chunk_type),
            data: ChunkBuilder::fit_data(data),
        }
    }
}

impl RiffBuilder {
    /// Creates an empty container with the given form type. The running total
    /// starts at 4: the mandatory form-type tag that follows the header.
    pub fn new(chunk_type: FourCC) -> (r: Self)
        ensures
            riff_wf(r),
            r.payload_len == 4,
            r.chunk_type == chunk_type,
            r.data@ == Seq::<ChunkBuilder>::empty(),
    {
        RiffBuilder { payload_len: 4, chunk_type, data: Vec::new() }
    }

    /// Appends a top-level chunk, growing the running total by the chunk's
    /// outer footprint — 8 header bytes, 4 more for a form-type tag, its
    /// declared length — plus one byte when its raw payload was padded.
    pub fn add_chunk(self, chunk: ChunkBuilder) -> (r: Self)
        requires
            riff_wf(self),
            chunk_wf(chunk),
            self.payload_len + spec_chunk_total_size(chunk) <= u32::MAX,
        ensures
            riff_wf(r),
            r.chunk_type == self.chunk_type,
            r.data@ == self.data@.push(chunk),
            r.payload_len as int == self.payload_len + spec_chunk_total_size(chunk),
    {
        let mut payload_len = self.payload_len + chunk.payload_len + 8;
        if chunk.chunk_type.is_some() {
            payload_len = payload_len + 4;
        }
        match &chunk.data {
            ChunkData::RawData(_) => {
                if chunk.payload_len % 2 == 1 {
                    payload_len = payload_len + 1;
                }
            },
            ChunkData::ChunkData(_) => {},
        }
        let mut data = self.data;
        data.push(chunk);
        proof {
            assert(data@.drop_last() =~= self.data@);
            assert(data@.last() == chunk);
            assert forall|i: int| 0 <= i < data@.len() implies chunk_wf(#[trigger] data@[i]) by {
                if i < self.data@.len() {
                    assert(chunk_wf(self.data@[i]));
                }
            }
        }
        RiffBuilder { payload_len, chunk_type: self.chunk_type, data }
    }

    /// Serializes the container: the fixed 4-byte marker, the little-endian
    /// running total, the form-type tag, then each top-level chunk in
    /// insertion order. Pure: the result depends on the builder alone.
    #[verifier::loop_isolation(false)]
    pub fn to_bytes(&self) -> (r: Vec<u8>)
        ensures
            r@ == spec_riff_bytes(*self),
    {
        let mut result: Vec<u8> = Vec::new();
        let marker: [u8; 4] = [82u8, 73u8, 70u8, 70u8];
        proof {
            assert(marker@ =~= spec_riff_id());
        }
        push_slice(&mut result, marker.as_slice());
        let len_bytes = vstd::bytes::u32_to_le_bytes(self.payload_len);
        push_slice(&mut result, len_bytes.as_slice());
        push_slice(&mut result, self.chunk_type.as_bytes().as_slice());
        let ghost header = result@;
        proof {
            assert(header =~= spec_riff_id() + vstd::bytes::spec_u32_to_le_bytes(self.payload_len)
                + self.chunk_type@);
            assert(result@ =~= header + spec_children_bytes(self.data@.subrange(0, 0)));
        }
        let mut i: usize = 0;
        while i < self.data.len()
            invariant
                i <= self.data@.len(),
                result@ == header + spec_children_bytes(self.data@.subrange(0, i as int)),
            decreases self.data@.len() - i,
        {
            self.data[i].to_bytes(&mut result);
            proof {
                assert(self.data@.subrange(0, i + 1).drop_last() =~= self.data@.subrange(
                    0,
                    i as int,
                ));
                assert(self.data@.subrange(0, i + 1).last() == self.data@[i as int]);
                assert(result@ =~= header + spec_children_bytes(self.data@.subrange(0, i + 1)));
            }
            i = i + 1;
        }
        proof {
            assert(self.data@.subrange(0, self.data@.len() as int) =~= self.data@);
            assert(result@ =~= spec_riff_bytes(*self));
        }
        result
    }
}

/// A well-formed chunk with a raw payload serializes its payload as the
/// original bytes rounded up to the nearest even count; the pad byte, when
/// one is present, is zero and is not counted by the declared length.
pub proof fn lemma_raw_payload_padding(c: ChunkBuilder)
    requires
        chunk_wf(c),
        c.data is RawData,
    ensures
        spec_data_bytes(c.data).len() == c.payload_len + (c.payload_len % 2),
        c.payload_len % 2 == 1 ==> spec_data_bytes(c.data).last() == 0,
{
}

/// At a well-formed list chunk, the declared length is exactly the sum over
/// its children of 8 + 4·[child typed] + child's own declared length, and
/// every child is itself well formed — so the formula holds recursively at
/// every level of the tree.
pub proof fn lemma_list_declared_len(c: ChunkBuilder)
    requires
        chunk_wf(c),
        c.data is ChunkData,
    ensures
        c.payload_len as int == spec_declared_len(c.data),
        data_wf(c.data),
{
}

/// Chunks serialize in insertion order: appending a chunk to a list appends
/// exactly that chunk's bytes at the end of the list's serialization.
pub proof fn lemma_children_bytes_push(cs: Seq<ChunkBuilder>, c: ChunkBuilder)
    ensures
        spec_children_bytes(cs.push(c)) == spec_children_bytes(cs) + spec_chunk_bytes(c),
{
    assert(cs.push(c).subrange(0, cs.push(c).len() - 1) =~= cs);
    assert(cs.push(c).last() == c);
}

/// A container with no chunks serializes to exactly 12 bytes: the marker,
/// the total length 4 in little-endian, and the form-type tag.
pub proof fn lemma_empty_riff_bytes(r: RiffBuilder)
    requires
        riff_wf(r),
        r.data@.len() == 0,
    ensures
        r.payload_len == 4,
        spec_riff_bytes(r) == spec_riff_id() + vstd::bytes::spec_u32_to_le_bytes(4u32)
            + r.chunk_type@,
        spec_riff_bytes(r).len() == 12,
{
    vstd::bytes::lemma_auto_spec_u32_to_from_le_bytes();
    assert(spec_riff_bytes(r) =~= spec_riff_id() + vstd::bytes::spec_u32_to_le_bytes(4u32)
        + r.chunk_type@);
}

/// The word-alignment rule holds throughout: every well-formed chunk
/// occupies an even number of bytes in the serialization.
pub proof fn lemma_chunk_bytes_even(c: ChunkBuilder)
    requires
        chunk_wf(c),
    ensures
        spec_chunk_bytes(c).len() % 2 == 0,
    decreases c,
{
    vstd::bytes::lemma_auto_spec_u32_to_from_le_bytes();
    match c.data {
        ChunkData::RawData(_) => {},
        ChunkData::ChunkData(cs) => {
            lemma_children_bytes_even(cs@);
        },
    }
}

/// The serialization of a list of well-formed chunks has even length.
proof fn lemma_children_bytes_even(cs: Seq<ChunkBuilder>)
    requires
        children_wf(cs),
    ensures
        spec_children_bytes(cs).len() % 2 == 0,
    decreases cs,
{
    if cs.len() > 0 {
        lemma_children_bytes_even(cs.subrange(0, cs.len() - 1));
        lemma_chunk_bytes_even(cs.last());
    }
}

} // verus!
