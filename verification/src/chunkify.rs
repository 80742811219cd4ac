//! Chunked, content-addressed byte strings. One logical byte buffer is held
//! either contiguously or as an ordered list of chunks; either shape exposes
//! the same chunk decomposition, the same bytes, and the same SHA-256 content
//! id, so a consumer can rebuild the buffer from the chunks alone.

use vstd::prelude::*;
use crate::encode::{spec_hex, hex_lower};

verus! {

/// The default chunk size is chosen with logging in mind: a base64-encoded
/// chunk of 2922 bytes occupies `2922 / 3 * 4 == 3896` bytes, which leaves
/// about 200 bytes of a 4096-byte journald record for the JSON envelope.
pub const DEFAULT_CHUNK_SIZE: usize = 2922;

/// The SHA-256 digest of a byte sequence, as the sha2 crate computes it.
pub uninterp spec fn sha256_of(data: Seq<u8>) -> Seq<u8>;

/// Relies on sha2::Sha256::digest: the 32-byte SHA-256 digest of the input,
/// a function of the input bytes alone.
#[verifier::external_body]
fn sha256_digest(data: &Vec<u8>) -> (r: Vec<u8>)
    ensures
        r@ == sha256_of(data@),
        r@.len() == 32,
{
    <sha2::Sha256 as sha2::Digest>::digest(data.as_slice()).as_slice().to_vec()
}

/// A 32-byte SHA-256 content digest.
#[derive(Clone, Debug, PartialEq, Eq, Hash)]
pub struct Id {
    bytes: Vec<u8>,
}

impl View for Id {
    type V = Seq<u8>;

    closed spec fn view(&self) -> Seq<u8> {
        self.bytes@
    }
}

impl Id {
    pub open spec fn wf(&self) -> bool {
        self@.len() == 32
    }

    pub fn new(bytes: Vec<u8>) -> (r: Id)
        requires
            bytes@.len() == 32,
        ensures
            r@ == bytes@,
            r.wf(),
    {
        Id { bytes }
    }

    /// A second `Id` with the same digest bytes.
    pub fn duplicate(&self) -> (r: Id)
        ensures
            r@ == self@,
    {
        Id { bytes: vstd::slice::slice_to_vec(self.bytes.as_slice()) }
    }

    pub fn as_bytes(&self) -> (r: &Vec<u8>)
        ensures
            r@ == self@,
    {
        &self.bytes
    }

    /// The lowercase hex form in which an id appears on the wire.
    pub fn to_hex(&self) -> (r: Vec<u8>)
        ensures
            r@ == spec_hex(self@),
    {
        hex_lower(&self.bytes)
    }
}

/// One chunk: its bytes and the number of bytes from the start of this chunk
/// to the end of the logical buffer.
#[derive(Debug, Clone)]
pub struct Chunk {
    pub remaining: usize,
    pub data: Vec<u8>,
}

impl View for Chunk {
    type V = (usize, Seq<u8>);

    open spec fn view(&self) -> (usize, Seq<u8>) {
        (self.remaining, self.data@)
    }
}

impl Chunk {
    pub fn into_owned(self) -> (r: Chunk)
        ensures
            r@ == self@,
    {
        Chunk { data: self.data, remaining: self.remaining }
    }

    /// A second chunk with the same remaining count and the same bytes.
    pub fn duplicate(&self) -> (r: Chunk)
        ensures
            r@ == self@,
    {
        Chunk { remaining: self.remaining, data: vstd::slice::slice_to_vec(self.data.as_slice()) }
    }
}

/// Why a list of chunks cannot be treated as one logical buffer.
#[derive(Debug, Clone, PartialEq, Eq)]
pub enum ChunksError {
    /// All but the last chunk must have the same length, and the last must
    /// not be longer.
    ChunksSizeMismatch,
    /// At least one value of a `remaining` field is invalid.
    InvalidRemainingValue,
}

/// Concatenation of a sequence of byte sequences.
pub open spec fn concat_bytes(s: Seq<Seq<u8>>) -> Seq<u8>
    decreases s.len(),
{
    if s.len() == 0 {
        Seq::empty()
    } else {
        s[0] + concat_bytes(s.drop_first())
    }
}

/// The data fields of a chunk list.
pub open spec fn chunk_data(l: Seq<(usize, Seq<u8>)>) -> Seq<Seq<u8>> {
    l.map_values(|p: (usize, Seq<u8>)| p.1)
}

/// The chunk decomposition of a contiguous buffer: full chunks of `cs` bytes,
/// a shorter final chunk if the length is not a multiple, and each chunk's
/// remaining count equal to the bytes from its start to the end.
pub open spec fn spec_chunks_of(data: Seq<u8>, cs: nat) -> Seq<(usize, Seq<u8>)>
    decreases data.len(),
{
    if cs == 0 || data.len() == 0 {
        Seq::empty()
    } else if data.len() <= cs {
        seq![(data.len() as usize, data)]
    } else {
        seq![(data.len() as usize, data.take(cs as int))] + spec_chunks_of(data.skip(cs as int), cs)
    }
}

/// All chunks but the last have the first chunk's length; the last is no
/// longer than that.
pub open spec fn chunk_sizes_ok(l: Seq<(usize, Seq<u8>)>) -> bool {
    &&& forall|i: int| 0 <= i < l.len() - 1 ==> (#[trigger] l[i]).1.len() == l[0].1.len()
    &&& l.len() > 0 ==> l[l.len() - 1].1.len() <= l[0].1.len()
}

/// Each remaining count exceeds the next by that chunk's length, and the last
/// chunk's remaining count is its own length.
pub open spec fn chunk_remaining_ok(l: Seq<(usize, Seq<u8>)>) -> bool {
    &&& forall|i: int| 0 <= i < l.len() - 1 ==> (#[trigger] l[i]).0 == l[i].1.len() + l[i + 1].0
    &&& l.len() > 0 ==> l[l.len() - 1].0 == l[l.len() - 1].1.len()
}

enum ChunksData {
    Contiguous(Vec<u8>),
    Chunked(Vec<Chunk>),
}

/// A logical byte string with a chunk size and its SHA-256 content id,
/// physically either one contiguous buffer or a list of chunks.
pub struct Chunks {
    id: Id,
    chunk_size: usize,
    data: ChunksData,
}

impl Chunks {
    /// The chunk size this buffer is decomposed by.
    pub closed spec fn spec_chunk_size(&self) -> usize {
        self.chunk_size
    }

    /// The digest bytes of the content id.
    pub closed spec fn spec_id(&self) -> Seq<u8> {
        self.id@
    }

    /// The logical byte string.
    pub closed spec fn bytes(&self) -> Seq<u8> {
        match self.data {
            ChunksData::Contiguous(d) => d@,
            ChunksData::Chunked(v) => concat_bytes(chunk_data(v@.map_values(|c: Chunk| c@))),
        }
    }

    /// The chunk decomposition this buffer exposes.
    pub closed spec fn chunk_list(&self) -> Seq<(usize, Seq<u8>)> {
        match self.data {
            ChunksData::Contiguous(d) => spec_chunks_of(d@, self.chunk_size as nat),
            ChunksData::Chunked(v) => v@.map_values(|c: Chunk| c@),
        }
    }

    pub closed spec fn wf(&self) -> bool {
        &&& self.id@ == sha256_of(self.bytes())
        &&& self.id@.len() == 32
        &&& match self.data {
            ChunksData::Contiguous(_) => self.chunk_size > 0,
            ChunksData::Chunked(v) => {
                let l = v@.map_values(|c: Chunk| c@);
                &&& chunk_sizes_ok(l)
                &&& chunk_remaining_ok(l)
                &&& self.chunk_size as int == first_chunk_len(l)
            },
        }
    }

    /// Wrap a contiguous buffer.
    pub fn new(data: Vec<u8>, chunk_size: usize) -> (r: Chunks)
        requires
            chunk_size > 0,
        ensures
            r.wf(),
            r.bytes() == data@,
            r.spec_chunk_size() == chunk_size,
            r.chunk_list() == spec_chunks_of(data@, chunk_size as nat),
            r.spec_id() == sha256_of(data@),
    {
        let digest = sha256_digest(&data);
        let id = Id::new(digest);
        Chunks { id, chunk_size, data: ChunksData::Contiguous(data) }
    }

    /// The content id: the SHA-256 of the logical bytes.
    pub fn id(&self) -> (r: Id)
        ensures
            r@ == self.spec_id(),
    {
        self.id.duplicate()
    }

    pub fn chunk_size(&self) -> (r: usize)
        ensures
            r == self.spec_chunk_size(),
    {
        self.chunk_size
    }

    /// Treat a list of chunks as one logical buffer. The chunk size is taken
    /// from the first chunk; every other chunk but the last must have that
    /// length and the last must not exceed it, and each `remaining` field
    /// must equal the bytes from that chunk's start to the end.
    pub fn from_chunks(v: Vec<Chunk>) -> (r: Result<Chunks, ChunksError>)
        ensures
            ({
                let l = chunk_models(v@);
                &&& (r is Ok <==> chunk_sizes_ok(l) && chunk_remaining_ok(l))
                &&& (r == Err::<Chunks, ChunksError>(ChunksError::ChunksSizeMismatch)
                    <==> !chunk_sizes_ok(l))
                &&& (r == Err::<Chunks, ChunksError>(ChunksError::InvalidRemainingValue)
                    <==> chunk_sizes_ok(l) && !chunk_remaining_ok(l))
                &&& (r matches Ok(c) ==> {
                    &&& c.wf()
                    &&& c.chunk_list() == l
                    &&& c.bytes() == concat_bytes(chunk_data(l))
                    &&& c.spec_chunk_size() as int == first_chunk_len(l)
                    &&& c.spec_id() == sha256_of(concat_bytes(chunk_data(l)))
                })
            }),
    {
        let ghost l = chunk_models(v@);
        let n = v.len();
        let chunk_size: usize = if n == 0 {
            0
        } else {
            v[0].data.len()
        };
        proof {
            assert(chunk_size as int == first_chunk_len(l));
        }

        let mut i: usize = 0;
        while i < n
            invariant
                n == v@.len(),
                l == chunk_models(v@),
                n > 0 ==> chunk_size as int == l[0].1.len(),
                n == 0 ==> chunk_size == 0,
                i <= n,
                forall|j: int| 0 <= j < i && j < n - 1 ==> (#[trigger] l[j]).1.len() == chunk_size,
                i == n && n > 0 ==> l[n - 1].1.len() <= chunk_size,
            decreases n - i,
        {
            let li = v[i].data.len();
            if i + 1 < n {
                if li != chunk_size {
                    proof {
                        assert(l[i as int].1.len() != l[0].1.len());
                        assert(!chunk_sizes_ok(l));
                    }
                    return Err(ChunksError::ChunksSizeMismatch);
                }
            } else {
                if li > chunk_size {
                    proof {
                        assert(l[l.len() - 1].1.len() > l[0].1.len());
                        assert(!chunk_sizes_ok(l));
                    }
                    return Err(ChunksError::ChunksSizeMismatch);
                }
            }
            i = i + 1;
        }
        proof {
            assert(chunk_sizes_ok(l));
        }

        if n > 0 {
            let mut k: usize = n - 1;
            let mut expected: usize = v[n - 1].data.len();
            proof {
                assert((l.len() - 1 - (n - 1)) * (chunk_size as int) == 0) by (nonlinear_arith)
                    requires l.len() == n as int, n >= 1;
                assert(expected as int == expected_remaining(l, chunk_size as int, n - 1));
            }
            loop
                invariant_except_break
                    n == v@.len(),
                    l == chunk_models(v@),
                    n > 0,
                    chunk_sizes_ok(l),
                    chunk_size as int == first_chunk_len(l),
                    k < n,
                    expected as int == expected_remaining(l, chunk_size as int, k as int),
                    forall|j: int| k < j < n ==> (#[trigger] l[j]).0 as int
                        == expected_remaining(l, chunk_size as int, j),
                ensures
                    forall|j: int| 0 <= j < n ==> (#[trigger] l[j]).0 as int
                        == expected_remaining(l, chunk_size as int, j),
                decreases k,
            {
                if v[k].remaining != expected {
                    proof {
                        if chunk_remaining_ok(l) {
                            lemma_remaining_closed_form_at(l, chunk_size as int, k as int);
                        }
                    }
                    return Err(ChunksError::InvalidRemainingValue);
                }
                if k == 0 {
                    break;
                }
                if expected > usize::MAX - chunk_size {
                    proof {
                        assert(expected_remaining(l, chunk_size as int, k - 1)
                            == expected_remaining(l, chunk_size as int, k as int)
                                + chunk_size as int) by (nonlinear_arith)
                            requires 1 <= k as int, (k as int) < l.len();
                        if chunk_remaining_ok(l) {
                            lemma_remaining_closed_form_at(l, chunk_size as int, k - 1);
                        }
                    }
                    return Err(ChunksError::InvalidRemainingValue);
                }
                proof {
                    assert(expected_remaining(l, chunk_size as int, k - 1)
                        == expected_remaining(l, chunk_size as int, k as int)
                            + chunk_size as int) by (nonlinear_arith)
                        requires 1 <= k as int, (k as int) < l.len();
                }
                expected = expected + chunk_size;
                k = k - 1;
            }
            proof {
                lemma_closed_form_remaining(l, chunk_size as int);
            }
        }
        proof {
            assert(chunk_remaining_ok(l));
        }

        let mut all: Vec<u8> = Vec::new();
        let mut h: usize = 0;
        proof {
            assert(chunk_data(l).take(0) =~= Seq::<Seq<u8>>::empty());
            assert(concat_bytes(Seq::<Seq<u8>>::empty()) =~= Seq::<u8>::empty());
        }
        while h < n
            invariant
                n == v@.len(),
                l == chunk_models(v@),
                h <= n,
                all@ == concat_bytes(chunk_data(l).take(h as int)),
            decreases n - h,
        {
            extend_bytes(&mut all, v[h].data.as_slice());
            proof {
                lemma_concat_take_step(chunk_data(l), h as int + 1);
                assert(chunk_data(l)[h as int] == v@[h as int].data@);
            }
            h = h + 1;
        }
        proof {
            assert(chunk_data(l).take(n as int) == chunk_data(l));
        }
        let digest = sha256_digest(&all);
        let id = Id::new(digest);
        let c = Chunks { id, chunk_size, data: ChunksData::Chunked(v) };
        proof {
            assert(c.chunk_list() == l);
            assert(c.bytes() == concat_bytes(chunk_data(l)));
        }
        Ok(c)
    }

    /// The chunk decomposition, as a list of owned chunks.
    pub fn iter(&self) -> (r: Vec<Chunk>)
        requires
            self.wf(),
        ensures
            chunk_models(r@) == self.chunk_list(),
    {
        let mut out: Vec<Chunk> = Vec::new();
        match &self.data {
            ChunksData::Chunked(vs) => {
                let ghost l = self.chunk_list();
                let mut i: usize = 0;
                proof {
                    assert(chunk_models(out@) =~= l.take(0));
                }
                while i < vs.len()
                    invariant
                        l == chunk_models(vs@),
                        i <= vs@.len(),
                        chunk_models(out@) == l.take(i as int),
                    decreases vs@.len() - i,
                {
                    let c = vs[i].duplicate();
                    let ghost prev = out@;
                    out.push(c);
                    proof {
                        lemma_chunk_models_push(prev, c);
                        assert(chunk_models(vs@)[i as int] == vs@[i as int]@);
                        assert(chunk_models(out@) =~= l.take(i as int + 1));
                    }
                    i = i + 1;
                }
                proof {
                    assert(l.take(l.len() as int) == l);
                }
            },
            ChunksData::Contiguous(d) => {
                let ghost l = self.chunk_list();
                let cs = self.chunk_size;
                let len = d.len();
                let mut o: usize = 0;
                proof {
                    lemma_iter_contiguous_step(d@, cs as nat, 0);
                    assert(chunk_models(out@) =~= Seq::<(usize, Seq<u8>)>::empty());
                    assert(d@.skip(0) =~= d@);
                }
                while o < len
                    invariant
                        len == d@.len(),
                        cs > 0,
                        l == spec_chunks_of(d@, cs as nat),
                        o <= len,
                        chunk_models(out@) + spec_chunks_of(d@.skip(o as int), cs as nat) == l,
                    decreases len - o,
                {
                    let end = if len - o > cs {
                        o + cs
                    } else {
                        len
                    };
                    let part = vstd::slice::slice_to_vec(
                        vstd::slice::slice_subrange(d.as_slice(), o, end),
                    );
                    let c = Chunk { remaining: len - o, data: part };
                    let ghost prev = out@;
                    out.push(c);
                    proof {
                        lemma_iter_contiguous_step(d@, cs as nat, o as int);
                        lemma_chunk_models_push(prev, c);
                        assert(chunk_models(out@) + spec_chunks_of(d@.skip(end as int), cs as nat)
                            =~= l);
                    }
                    o = end;
                }
                proof {
                    assert(d@.skip(len as int) =~= Seq::<u8>::empty());
                    assert(spec_chunks_of(Seq::<u8>::empty(), cs as nat)
                        =~= Seq::<(usize, Seq<u8>)>::empty());
                    assert(chunk_models(out@) =~= l);
                }
            },
        }
        out
    }
}

impl Chunks {
    /// How many bytes one `read` call returns from a given offset with a
    /// given buffer size: up to the end of the buffer for the contiguous
    /// shape, up to the end of the current chunk for the chunked shape.
    pub closed spec fn spec_read_len(&self, offset: int, buf_len: int) -> int {
        match self.data {
            ChunksData::Contiguous(d) => if d@.len() - offset < buf_len {
                d@.len() - offset
            } else {
                buf_len
            },
            ChunksData::Chunked(v) => {
                let l = v@.map_values(|c: Chunk| c@);
                let total = concat_bytes(chunk_data(l)).len() as int;
                if offset >= total {
                    0
                } else {
                    let cs = self.chunk_size as int;
                    let avail = l[offset / cs].1.len() - offset % cs;
                    if avail < buf_len {
                        avail
                    } else {
                        buf_len
                    }
                }
            },
        }
    }

    /// The length of the logical byte string.
    pub fn total_len(&self) -> (r: usize)
        requires
            self.wf(),
        ensures
            r as int == self.bytes().len(),
    {
        match &self.data {
            ChunksData::Contiguous(d) => d.len(),
            ChunksData::Chunked(v) => {
                let ghost l = v@.map_values(|c: Chunk| c@);
                if v.len() == 0 {
                    proof {
                        assert(chunk_data(l) =~= Seq::<Seq<u8>>::empty());
                    }
                    0
                } else {
                    proof {
                        lemma_chunk_list_total(l);
                    }
                    v[0].remaining
                }
            },
        }
    }

    /// A sequential reader over the logical bytes, positioned at the start.
    pub fn reader(&self) -> (r: ChunksRead<'_>)
        requires
            self.wf(),
        ensures
            r.wf(),
            r.target() == self,
            r.spec_offset() == 0,
    {
        ChunksRead { offset: 0, chunk_size: self.chunk_size, chunks: self }
    }
}

/// A sequential, non-destructive reader over the logical bytes of a
/// [`Chunks`] buffer.
pub struct ChunksRead<'a> {
    offset: usize,
    chunk_size: usize,
    chunks: &'a Chunks,
}

impl<'a> ChunksRead<'a> {
    /// The buffer this reader reads from.
    pub closed spec fn target(&self) -> &'a Chunks {
        self.chunks
    }

    /// How many bytes have been read so far.
    pub closed spec fn spec_offset(&self) -> usize {
        self.offset
    }

    pub closed spec fn wf(&self) -> bool {
        &&& self.chunks.wf()
        &&& self.chunk_size == self.chunks.spec_chunk_size()
        &&& self.offset as int <= self.chunks.bytes().len()
    }

    /// Read up to `buf_len` bytes from the current offset. Returns at least
    /// one byte while bytes remain and `buf_len` is positive; a short read
    /// stops at a chunk boundary.
    pub fn read(&mut self, buf_len: usize) -> (r: Vec<u8>)
        requires
            old(self).wf(),
        ensures
            final(self).wf(),
            final(self).target() == old(self).target(),
            r@.len() == old(self).target().spec_read_len(
                old(self).spec_offset() as int,
                buf_len as int,
            ),
            final(self).spec_offset() == old(self).spec_offset() + r@.len(),
            r@ == old(self).target().bytes().subrange(
                old(self).spec_offset() as int,
                old(self).spec_offset() + r@.len(),
            ),
    {
        let chunks = self.chunks;
        match &chunks.data {
            ChunksData::Contiguous(d) => {
                let avail = d.len() - self.offset;
                let k = if avail < buf_len {
                    avail
                } else {
                    buf_len
                };
                let part = vstd::slice::slice_to_vec(
                    vstd::slice::slice_subrange(d.as_slice(), self.offset, self.offset + k),
                );
                self.offset = self.offset + k;
                part
            },
            ChunksData::Chunked(v) => {
                let ghost l = v@.map_values(|c: Chunk| c@);
                let total = if v.len() == 0 {
                    proof {
                        assert(chunk_data(l) =~= Seq::<Seq<u8>>::empty());
                    }
                    0
                } else {
                    proof {
                        lemma_chunk_list_total(l);
                    }
                    v[0].remaining
                };
                if self.offset >= total {
                    return Vec::new();
                }
                let cs = self.chunk_size;
                proof {
                    lemma_chunked_access(l, cs as int, self.offset as int);
                }
                let idx = self.offset / cs;
                let co = self.offset % cs;
                let chunk = &v[idx];
                proof {
                    assert(l[idx as int] == v@[idx as int]@);
                }
                let avail = chunk.data.len() - co;
                let k = if avail < buf_len {
                    avail
                } else {
                    buf_len
                };
                let part = vstd::slice::slice_to_vec(
                    vstd::slice::slice_subrange(chunk.data.as_slice(), co, co + k),
                );
                let ghost off = self.offset as int;
                proof {
                    assert(off + k as int <= chunks.bytes().len());
                }
                self.offset = self.offset + k;
                proof {
                    let bytes = chunks.bytes();
                    assert forall|m: int| 0 <= m < k as int implies part@[m]
                        == bytes[off + m] by {
                        assert(part@[m] == l[off / cs as int].1[off % cs as int + m]);
                    }
                    assert(part@ =~= bytes.subrange(off, off + k as int));
                }
                part
            },
        }
    }

    /// Read everything from the current offset to the end.
    pub fn read_to_end(&mut self) -> (r: Vec<u8>)
        requires
            old(self).wf(),
        ensures
            final(self).wf(),
            final(self).target() == old(self).target(),
            r@ == old(self).target().bytes().skip(old(self).spec_offset() as int),
            final(self).spec_offset() as int == old(self).target().bytes().len(),
    {
        let mut out: Vec<u8> = Vec::new();
        let total = self.chunks.total_len();
        proof {
            assert(out@ + self.chunks.bytes().subrange(
                old(self).spec_offset() as int,
                self.spec_offset() as int,
            ) =~= Seq::<u8>::empty());
        }
        while self.offset < total
            invariant
                self.wf(),
                self.target() == old(self).target(),
                total as int == self.target().bytes().len(),
                old(self).spec_offset() <= self.spec_offset(),
                out@ == self.target().bytes().subrange(
                    old(self).spec_offset() as int,
                    self.spec_offset() as int,
                ),
            decreases total as int - self.spec_offset() as int,
        {
            let ghost before = self.spec_offset() as int;
            let mut part = self.read(4096);
            proof {
                lemma_read_len_bounds(self.chunks, before, 4096);
                assert(out@ + part@ =~= self.target().bytes().subrange(
                    old(self).spec_offset() as int,
                    self.spec_offset() as int,
                ));
            }
            out.append(&mut part);
        }
        proof {
            assert(out@ =~= self.target().bytes().skip(old(self).spec_offset() as int));
        }
        out
    }
}

/// Bounds on what one `read` call returns: never more than asked, never past
/// the end, always at least one byte while bytes remain.
pub proof fn lemma_read_len_bounds(c: &Chunks, offset: int, buf_len: int)
    requires
        c.wf(),
        0 <= offset <= c.bytes().len(),
        buf_len >= 0,
    ensures
        0 <= c.spec_read_len(offset, buf_len) <= buf_len,
        offset + c.spec_read_len(offset, buf_len) <= c.bytes().len(),
        offset < c.bytes().len() && buf_len > 0 ==> c.spec_read_len(offset, buf_len) > 0,
        offset == c.bytes().len() ==> c.spec_read_len(offset, buf_len) == 0,
{
    match c.data {
        ChunksData::Contiguous(_) => {},
        ChunksData::Chunked(v) => {
            let l = v@.map_values(|c: Chunk| c@);
            if l.len() == 0 {
                assert(chunk_data(l) =~= Seq::<Seq<u8>>::empty());
            } else {
                lemma_chunk_list_total(l);
            }
            if offset < c.bytes().len() {
                lemma_chunked_access(l, c.spec_chunk_size() as int, offset);
            }
        },
    }
}

/// For a well-formed chunk list, locate the chunk containing `offset` and
/// relate its bytes to the concatenation.
proof fn lemma_chunked_access(l: Seq<(usize, Seq<u8>)>, cs: int, offset: int)
    requires
        chunk_sizes_ok(l),
        chunk_remaining_ok(l),
        cs == first_chunk_len(l),
        0 <= offset < concat_bytes(chunk_data(l)).len(),
    ensures
        cs > 0,
        l.len() > 0,
        0 <= offset / cs < l.len(),
        0 <= offset % cs < l[offset / cs].1.len(),
        offset + (l[offset / cs].1.len() - offset % cs) <= concat_bytes(chunk_data(l)).len(),
        forall|m: int| 0 <= m < l[offset / cs].1.len() - offset % cs
            ==> #[trigger] concat_bytes(chunk_data(l))[offset + m]
                == l[offset / cs].1[offset % cs + m],
{
    let ds = chunk_data(l);
    let n = l.len() as int;
    assert(ds.len() == n);
    assert(n > 0) by {
        if n == 0 {
            assert(ds =~= Seq::<Seq<u8>>::empty());
        }
    }
    lemma_chunk_list_total(l);
    assert forall|i: int| 0 <= i < ds.len() - 1 implies (#[trigger] ds[i]).len() == cs by {
        assert(ds[i] == l[i].1);
        assert(l[i].1.len() == l[0].1.len());
    }
    assert(ds[n - 1] == l[n - 1].1);
    lemma_concat_uniform_len(ds, cs);
    let total = concat_bytes(ds).len() as int;
    assert(total == (n - 1) * cs + l[n - 1].1.len());
    if cs == 0 {
        assert((n - 1) * 0 == 0) by (nonlinear_arith);
        assert(l[n - 1].1.len() <= l[0].1.len());
        assert(false);
    }
    vstd::arithmetic::div_mod::lemma_fundamental_div_mod(offset, cs);
    vstd::arithmetic::div_mod::lemma_mod_division_less_than_divisor(offset, cs);
    vstd::arithmetic::div_mod::lemma_div_pos_is_pos(offset, cs);
    let idx = offset / cs;
    let mo = offset % cs;
    assert(cs * idx == idx * cs) by (nonlinear_arith);
    if idx >= n {
        assert(idx * cs >= n * cs) by (nonlinear_arith)
            requires idx >= n, cs > 0;
        assert((n - 1) * cs + cs == n * cs) by (nonlinear_arith);
        assert(offset >= total);
        assert(false);
    }
    if idx < n - 1 {
        assert(l[idx].1.len() == l[0].1.len());
        assert((idx + 1) * cs == idx * cs + cs) by (nonlinear_arith);
        assert((idx + 1) * cs <= (n - 1) * cs) by (nonlinear_arith)
            requires idx + 1 <= n - 1, cs > 0;
        assert(offset + (l[idx].1.len() - mo) <= total);
    } else {
        assert(idx == n - 1);
        assert(cs * idx == (n - 1) * cs) by (nonlinear_arith)
            requires idx == n - 1;
        assert(offset + (l[idx].1.len() - mo) <= total);
    }
    assert(mo < l[idx].1.len());
    assert forall|m: int| 0 <= m < l[idx].1.len() - mo implies
        #[trigger] concat_bytes(ds)[offset + m] == l[idx].1[mo + m] by {
        lemma_concat_uniform_index(ds, cs, idx, mo + m);
        assert(ds[idx] == l[idx].1);
        assert(idx * cs + (mo + m) == offset + m);
    }
}

/// The remaining count chunk `j` must carry when all chunks before the last
/// have length `cs`: the last chunk's length plus `cs` for each whole chunk
/// after position `j`.
spec fn expected_remaining(l: Seq<(usize, Seq<u8>)>, cs: int, j: int) -> int {
    l[l.len() - 1].1.len() + (l.len() - 1 - j) * cs
}

proof fn lemma_remaining_closed_form_at(l: Seq<(usize, Seq<u8>)>, cs: int, j: int)
    requires
        chunk_sizes_ok(l),
        chunk_remaining_ok(l),
        cs == first_chunk_len(l),
        0 <= j < l.len(),
    ensures
        l[j].0 as int == expected_remaining(l, cs, j),
    decreases l.len() - j,
{
    if j == l.len() - 1 {
        assert((l.len() - 1 - j) * cs == 0) by (nonlinear_arith)
            requires j == l.len() - 1;
    } else {
        lemma_remaining_closed_form_at(l, cs, j + 1);
        assert(l[j].1.len() == l[0].1.len());
        assert(l[j].0 == l[j].1.len() + l[j + 1].0);
        assert((l.len() - 1 - j) * cs == (l.len() - 1 - (j + 1)) * cs + cs) by (nonlinear_arith)
            requires 0 <= j < l.len() - 1;
    }
}

proof fn lemma_closed_form_remaining(l: Seq<(usize, Seq<u8>)>, cs: int)
    requires
        chunk_sizes_ok(l),
        cs == first_chunk_len(l),
        forall|j: int| 0 <= j < l.len() ==> (#[trigger] l[j]).0 as int
            == expected_remaining(l, cs, j),
    ensures
        chunk_remaining_ok(l),
{
    assert forall|i: int| 0 <= i < l.len() - 1 implies (#[trigger] l[i]).0 == l[i].1.len()
        + l[i + 1].0 by {
        assert(l[i].1.len() == l[0].1.len());
        assert((l.len() - 1 - i) * cs == (l.len() - 1 - (i + 1)) * cs + cs) by (nonlinear_arith)
            requires 0 <= i < l.len() - 1;
    }
    if l.len() > 0 {
        assert((l.len() - 1 - (l.len() - 1)) * cs == 0) by (nonlinear_arith);
    }
}

/// One step of the contiguous decomposition: the chunk at offset `o` followed
/// by the decomposition of what comes after it.
proof fn lemma_iter_contiguous_step(data: Seq<u8>, cs: nat, o: int)
    requires
        cs > 0,
        0 <= o <= data.len(),
    ensures
        o < data.len() && data.len() - o > cs ==> spec_chunks_of(data.skip(o), cs)
            == seq![((data.len() - o) as usize, data.subrange(o, o + cs))]
                + spec_chunks_of(data.skip(o + cs as int), cs),
        o < data.len() && data.len() - o <= cs ==> spec_chunks_of(data.skip(o), cs)
            == seq![((data.len() - o) as usize, data.subrange(o, data.len() as int))],
{
    let tail = data.skip(o);
    if o < data.len() {
        if data.len() - o > cs {
            assert(tail.take(cs as int) =~= data.subrange(o, o + cs as int));
            assert(tail.skip(cs as int) =~= data.skip(o + cs as int));
        } else {
            assert(tail =~= data.subrange(o, data.len() as int));
        }
    }
}

/// Law: in every well-formed buffer's chunk decomposition, each chunk's
/// `remaining` exceeds the next chunk's `remaining` by exactly its own
/// length, and the last chunk's `remaining` is its own length.
pub proof fn lemma_chunk_remaining(c: &Chunks)
    requires
        c.wf(),
    ensures
        chunk_remaining_ok(c.chunk_list()),
        forall|i: int| 0 <= i < c.chunk_list().len() - 1
            ==> (#[trigger] c.chunk_list()[i]).0 - c.chunk_list()[i].1.len()
                == c.chunk_list()[i + 1].0,
        c.chunk_list().len() > 0 ==> c.chunk_list()[c.chunk_list().len() - 1].0
            == c.chunk_list()[c.chunk_list().len() - 1].1.len(),
{
    match c.data {
        ChunksData::Contiguous(d) => {
            vstd::std_specs::vec::axiom_spec_len(&d);
            lemma_spec_chunks_of_props(d@, c.spec_chunk_size() as nat);
        },
        ChunksData::Chunked(_) => {},
    }
}

/// Law: in every well-formed buffer's chunk decomposition, all chunks except
/// the last have the first chunk's length and the last is no longer.
pub proof fn lemma_chunk_sizes(c: &Chunks)
    requires
        c.wf(),
    ensures
        chunk_sizes_ok(c.chunk_list()),
        forall|i: int| 0 <= i < c.chunk_list().len()
            ==> (#[trigger] c.chunk_list()[i]).1.len() <= c.spec_chunk_size(),
{
    match c.data {
        ChunksData::Contiguous(d) => {
            vstd::std_specs::vec::axiom_spec_len(&d);
            lemma_spec_chunks_of_props(d@, c.spec_chunk_size() as nat);
        },
        ChunksData::Chunked(v) => {
            let l = v@.map_values(|ch: Chunk| ch@);
            assert forall|i: int| 0 <= i < l.len() implies (#[trigger] l[i]).1.len()
                <= c.spec_chunk_size() by {
                if i < l.len() - 1 {
                    assert(l[i].1.len() == l[0].1.len());
                }
            }
        },
    }
}

/// Law: a well-formed buffer's content id is the SHA-256 of the
/// concatenation of its chunks' data fields, in order — the same digest
/// whichever physical shape holds the bytes.
pub proof fn lemma_content_id(c: &Chunks)
    requires
        c.wf(),
    ensures
        c.bytes() == concat_bytes(chunk_data(c.chunk_list())),
        c.spec_id() == sha256_of(concat_bytes(chunk_data(c.chunk_list()))),
        c.spec_id().len() == 32,
{
    match c.data {
        ChunksData::Contiguous(d) => {
            vstd::std_specs::vec::axiom_spec_len(&d);
            lemma_spec_chunks_of_props(d@, c.spec_chunk_size() as nat);
        },
        ChunksData::Chunked(_) => {},
    }
}

/// Law (round trip): the chunk decomposition of a contiguous buffer is
/// accepted by the chunk-list constructor, and rebuilding from it yields the
/// same bytes and therefore the same content id.
pub proof fn lemma_round_trip(data: Seq<u8>, cs: nat)
    requires
        cs > 0,
        data.len() <= usize::MAX,
    ensures
        chunk_sizes_ok(spec_chunks_of(data, cs)),
        chunk_remaining_ok(spec_chunks_of(data, cs)),
        concat_bytes(chunk_data(spec_chunks_of(data, cs))) == data,
        sha256_of(concat_bytes(chunk_data(spec_chunks_of(data, cs)))) == sha256_of(data),
{
    lemma_spec_chunks_of_props(data, cs);
}

/// Law (boundaries): an empty buffer decomposes into no chunks at all, and a
/// buffer no longer than the chunk size into exactly one chunk whose
/// `remaining` and data length are the whole buffer's length.
pub proof fn lemma_chunk_boundaries(data: Seq<u8>, cs: nat)
    requires
        cs > 0,
        data.len() <= usize::MAX,
    ensures
        data.len() == 0 ==> spec_chunks_of(data, cs) == Seq::<(usize, Seq<u8>)>::empty(),
        0 < data.len() <= cs ==> spec_chunks_of(data, cs)
            == seq![(data.len() as usize, data)],
{
    lemma_spec_chunks_of_props(data, cs);
    if data.len() == 0 {
        assert(spec_chunks_of(data, cs) =~= Seq::<(usize, Seq<u8>)>::empty());
    }
}

/// Append the bytes of a slice to a vector.
fn extend_bytes(out: &mut Vec<u8>, other: &[u8])
    ensures
        final(out)@ == old(out)@ + other@,
{
    let ghost base = old(out)@;
    proof {
        assert(other@.take(0) =~= Seq::<u8>::empty());
        assert(base + other@.take(0) =~= base);
    }
    let mut i: usize = 0;
    while i < other.len()
        invariant
            out@ == base + other@.take(i as int),
            i <= other@.len(),
        decreases other@.len() - i,
    {
        let b = *vstd::slice::slice_index_get(other, i);
        out.push(b);
        proof {
            assert(base + other@.take(i as int + 1)
                =~= (base + other@.take(i as int)).push(other@[i as int]));
        }
        i = i + 1;
    }
    proof {
        assert(other@.take(other@.len() as int) == other@);
    }
}

/// The first chunk's length, or zero for an empty list.
pub open spec fn first_chunk_len(l: Seq<(usize, Seq<u8>)>) -> int {
    if l.len() == 0 {
        0
    } else {
        l[0].1.len() as int
    }
}

/// The chunk models of a vector of chunks.
pub open spec fn chunk_models(v: Seq<Chunk>) -> Seq<(usize, Seq<u8>)> {
    v.map_values(|c: Chunk| c@)
}

/// `chunk_models` maps over a push elementwise.
proof fn lemma_chunk_models_push(v: Seq<Chunk>, c: Chunk)
    ensures
        chunk_models(v.push(c)) == chunk_models(v).push(c@),
        chunk_models(v).len() == v.len(),
{
    assert(chunk_models(v.push(c)) =~= chunk_models(v).push(c@));
}

/// Appending one element to a concatenation appends its bytes.
pub proof fn lemma_concat_take_step(s: Seq<Seq<u8>>, i: int)
    requires
        0 < i <= s.len(),
    ensures
        concat_bytes(s.take(i)) == concat_bytes(s.take(i - 1)) + s[i - 1],
    decreases i,
{
    if i == 1 {
        assert(s.take(1).drop_first() =~= Seq::<Seq<u8>>::empty());
        assert(s.take(0) =~= Seq::<Seq<u8>>::empty());
        assert(concat_bytes(Seq::<Seq<u8>>::empty()) =~= Seq::<u8>::empty());
        assert(concat_bytes(s.take(1)) =~= concat_bytes(s.take(0)) + s[0]);
    } else {
        let sd = s.drop_first();
        lemma_concat_take_step(sd, i - 1);
        assert(s.take(i).drop_first() =~= sd.take(i - 1));
        assert(s.take(i - 1).drop_first() =~= sd.take(i - 2));
        assert(s.take(i)[0] == s[0] && s.take(i - 1)[0] == s[0]);
        assert(sd[i - 2] == s[i - 1]);
        assert(concat_bytes(s.take(i)) =~= concat_bytes(s.take(i - 1)) + s[i - 1]);
    }
}

/// The decomposition of a contiguous buffer is a well-formed chunk list whose
/// concatenation is the buffer again.
pub proof fn lemma_spec_chunks_of_props(data: Seq<u8>, cs: nat)
    requires
        cs > 0,
        data.len() <= usize::MAX,
    ensures
        chunk_sizes_ok(spec_chunks_of(data, cs)),
        chunk_remaining_ok(spec_chunks_of(data, cs)),
        concat_bytes(chunk_data(spec_chunks_of(data, cs))) == data,
        spec_chunks_of(data, cs).len() == 0 <==> data.len() == 0,
        data.len() > 0 ==> spec_chunks_of(data, cs)[0].0 == data.len(),
        data.len() > 0 ==> spec_chunks_of(data, cs)[0].1.len() == (
            if data.len() <= cs { data.len() as int } else { cs as int }
        ),
        0 < data.len() <= cs ==> spec_chunks_of(data, cs) == seq![(data.len() as usize, data)],
        forall|i: int| 0 <= i < spec_chunks_of(data, cs).len()
            ==> (#[trigger] spec_chunks_of(data, cs)[i]).1.len() <= cs,
    decreases data.len(),
{
    let l = spec_chunks_of(data, cs);
    if data.len() == 0 {
        assert(chunk_data(l) =~= Seq::<Seq<u8>>::empty());
        assert(concat_bytes(chunk_data(l)) =~= data);
    } else if data.len() <= cs {
        assert(l == seq![(data.len() as usize, data)]);
        assert(chunk_data(l) =~= seq![data]);
        assert(chunk_data(l).drop_first() =~= Seq::<Seq<u8>>::empty());
        assert(concat_bytes(chunk_data(l).drop_first()) =~= Seq::<u8>::empty());
        assert(concat_bytes(chunk_data(l)) =~= data);
    } else {
        let head = (data.len() as usize, data.take(cs as int));
        let tail_data = data.skip(cs as int);
        let l2 = spec_chunks_of(tail_data, cs);
        lemma_spec_chunks_of_props(tail_data, cs);
        assert(l == seq![head] + l2);
        assert(l2.len() > 0);
        assert(forall|i: int| 1 <= i < l.len() ==> l[i] == #[trigger] l2[i - 1]);
        assert(l[0] == head);
        // sizes
        assert forall|i: int| 0 <= i < l.len() - 1 implies (#[trigger] l[i]).1.len()
            == l[0].1.len() by {
            if i >= 1 {
                assert(l[i] == l2[i - 1]);
                if i - 1 < l2.len() - 1 {
                    assert(l2[i - 1].1.len() == l2[0].1.len());
                    assert(tail_data.len() > cs);
                } else {
                    // l[i] is l2's last but not l's last: impossible
                    assert(i == l.len() - 1);
                }
            }
        }
        assert(l[l.len() - 1] == l2[l2.len() - 1]);
        assert(l[l.len() - 1].1.len() <= cs);
        // remaining
        assert forall|i: int| 0 <= i < l.len() - 1 implies (#[trigger] l[i]).0 == l[i].1.len()
            + l[i + 1].0 by {
            if i == 0 {
                assert(l[1] == l2[0]);
                assert(l2[0].0 == tail_data.len());
            } else {
                assert(l[i] == l2[i - 1] && l[i + 1] == l2[i]);
            }
        }
        // concatenation
        assert(chunk_data(l) =~= seq![data.take(cs as int)] + chunk_data(l2));
        assert(chunk_data(l).drop_first() =~= chunk_data(l2));
        assert(chunk_data(l)[0] == data.take(cs as int));
        assert(concat_bytes(chunk_data(l)) =~= data.take(cs as int) + concat_bytes(chunk_data(l2)));
        assert(concat_bytes(chunk_data(l)) =~= data);
        assert forall|i: int| 0 <= i < l.len() implies (#[trigger] l[i]).1.len() <= cs by {
            if i >= 1 {
                assert(l[i] == l2[i - 1]);
            }
        }
    }
}

/// For a list with consistent remaining counts, the first remaining count is
/// the total length of the concatenated data.
pub proof fn lemma_chunk_list_total(l: Seq<(usize, Seq<u8>)>)
    requires
        chunk_remaining_ok(l),
    ensures
        concat_bytes(chunk_data(l)).len() == if l.len() == 0 { 0int } else { l[0].0 as int },
    decreases l.len(),
{
    if l.len() == 0 {
        assert(chunk_data(l) =~= Seq::<Seq<u8>>::empty());
    } else if l.len() == 1 {
        assert(chunk_data(l) =~= seq![l[0].1]);
        assert(chunk_data(l).drop_first() =~= Seq::<Seq<u8>>::empty());
        assert(concat_bytes(Seq::<Seq<u8>>::empty()) =~= Seq::<u8>::empty());
        assert(concat_bytes(chunk_data(l)) =~= l[0].1);
    } else {
        let ld = l.drop_first();
        assert forall|i: int| 0 <= i < ld.len() - 1 implies (#[trigger] ld[i]).0 == ld[i].1.len()
            + ld[i + 1].0 by {
            assert(ld[i] == l[i + 1] && ld[i + 1] == l[i + 2]);
        }
        assert(ld[ld.len() - 1] == l[l.len() - 1]);
        lemma_chunk_list_total(ld);
        assert(chunk_data(l).drop_first() =~= chunk_data(ld));
        assert(chunk_data(l)[0] == l[0].1);
        assert(concat_bytes(chunk_data(l)) == l[0].1 + concat_bytes(chunk_data(ld)));
        assert(ld[0] == l[1]);
    }
}

/// Where all chunks but possibly the last have length `cs`, the concatenation
/// has the obvious total length.
pub proof fn lemma_concat_uniform_len(ds: Seq<Seq<u8>>, cs: int)
    requires
        cs >= 0,
        ds.len() > 0,
        forall|i: int| 0 <= i < ds.len() - 1 ==> (#[trigger] ds[i]).len() == cs,
    ensures
        concat_bytes(ds).len() == (ds.len() - 1) * cs + ds[ds.len() - 1].len(),
    decreases ds.len(),
{
    if ds.len() == 1 {
        assert(ds.drop_first() =~= Seq::<Seq<u8>>::empty());
        assert(concat_bytes(Seq::<Seq<u8>>::empty()) =~= Seq::<u8>::empty());
        assert(concat_bytes(ds) =~= ds[0]);
        assert((ds.len() - 1) * cs == 0) by (nonlinear_arith)
            requires ds.len() == 1;
    } else {
        let rest = ds.drop_first();
        assert forall|i: int| 0 <= i < rest.len() - 1 implies (#[trigger] rest[i]).len() == cs by {
            assert(rest[i] == ds[i + 1]);
        }
        lemma_concat_uniform_len(rest, cs);
        assert(ds[0].len() == cs);
        assert(concat_bytes(ds) == ds[0] + concat_bytes(rest));
        assert(rest[rest.len() - 1] == ds[ds.len() - 1]);
        assert((ds.len() - 1) * cs == (rest.len() - 1) * cs + cs) by (nonlinear_arith)
            requires ds.len() == rest.len() + 1, rest.len() >= 1;
    }
}

/// Where all chunks but possibly the last have length `cs`, byte `j` of chunk
/// `i` is byte `i * cs + j` of the concatenation.
pub proof fn lemma_concat_uniform_index(ds: Seq<Seq<u8>>, cs: int, i: int, j: int)
    requires
        cs >= 0,
        forall|k: int| 0 <= k < ds.len() - 1 ==> (#[trigger] ds[k]).len() == cs,
        0 <= i < ds.len(),
        0 <= j < ds[i].len(),
    ensures
        0 <= i * cs + j < concat_bytes(ds).len(),
        concat_bytes(ds)[i * cs + j] == ds[i][j],
    decreases ds.len(),
{
    lemma_concat_uniform_len(ds, cs);
    if i == 0 {
        assert(i * cs == 0) by (nonlinear_arith)
            requires i == 0;
        if ds.len() == 1 {
            assert(ds.drop_first() =~= Seq::<Seq<u8>>::empty());
            assert(concat_bytes(Seq::<Seq<u8>>::empty()) =~= Seq::<u8>::empty());
            assert(concat_bytes(ds) =~= ds[0]);
        } else {
            assert(concat_bytes(ds) == ds[0] + concat_bytes(ds.drop_first()));
        }
        assert(concat_bytes(ds)[j] == ds[0][j]);
    } else {
        let rest = ds.drop_first();
        assert forall|k: int| 0 <= k < rest.len() - 1 implies (#[trigger] rest[k]).len() == cs by {
            assert(rest[k] == ds[k + 1]);
        }
        assert(rest[i - 1] == ds[i]);
        lemma_concat_uniform_index(rest, cs, i - 1, j);
        assert(ds[0].len() == cs);
        assert(concat_bytes(ds) == ds[0] + concat_bytes(rest));
        assert(i * cs == (i - 1) * cs + cs) by (nonlinear_arith)
            requires i >= 1;
        assert((i - 1) * cs >= 0) by (nonlinear_arith)
            requires i >= 1, cs >= 0;
        assert(concat_bytes(ds)[i * cs + j] == concat_bytes(rest)[(i - 1) * cs + j]);
    }
}

} // verus!
