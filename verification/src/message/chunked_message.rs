//! Chunking of an already serialized and compressed payload into the
//! bounded set of self-describing UDP chunks that GELF requires.

use vstd::prelude::*;

use crate::errors::Error;

verus! {

/// Overhead per chunk is 12 bytes: magic(2) + id(8) + index(1) + total(1).
pub const CHUNK_OVERHEAD: u8 = 12;

/// Default chunk size for LANs.
pub const CHUNK_SIZE_LAN: u16 = 8154;

/// Default chunk size for WANs, sized to fit typical path MTUs.
pub const CHUNK_SIZE_WAN: u16 = 1420;

/// GELF's hard limit on the number of chunks of one message.
pub const MAX_CHUNKS: u8 = 128;

/// First magic byte identifying a GELF chunk frame.
pub const MAGIC_BYTE_0: u8 = 0x1e;

/// Second magic byte identifying a GELF chunk frame.
pub const MAGIC_BYTE_1: u8 = 0x0f;

/// Relies on rand::random: draws one uniformly distributed value.
/// Nothing is assumed of the value that comes back.
pub assume_specification<T>[ rand::random::<T> ]() -> (r: T)
    where
        rand::distributions::Standard: rand::distributions::Distribution<T>,
;

/// ChunkSize is a value type representing the payload size of a
/// message chunk.
///
/// It provides default sizes for WANs and LANs; zero is an illegal
/// custom size.
#[derive(Clone, Copy, Debug)]
pub enum ChunkSize {
    LAN,
    WAN,
    Custom(u16),
}

impl ChunkSize {
    /// The byte count this policy resolves to.
    pub open spec fn spec_size(&self) -> u16 {
        match *self {
            ChunkSize::LAN => CHUNK_SIZE_LAN,
            ChunkSize::WAN => CHUNK_SIZE_WAN,
            ChunkSize::Custom(size) => size,
        }
    }

    /// Return the size associated with the chunk-size policy.
    #[verifier::when_used_as_spec(spec_size)]
    pub fn size(&self) -> (r: u16)
        ensures
            r == self.spec_size(),
    {
        match *self {
            ChunkSize::LAN => CHUNK_SIZE_LAN,
            ChunkSize::WAN => CHUNK_SIZE_WAN,
            ChunkSize::Custom(size) => size,
        }
    }
}

/// The number of chunks a payload of `len` bytes occupies at `size`
/// bytes per chunk: the ceiling of `len / size`.
pub open spec fn num_chunks_of(len: int, size: int) -> int
    recommends
        size > 0,
{
    (len + size - 1) / size
}

/// Ceiling division, its loop-friendly form, and its defining bounds.
proof fn lemma_ceil_div(len: int, s: int)
    requires
        s >= 1,
        len >= 0,
    ensures
        len == 0 ==> num_chunks_of(len, s) == 0,
        len >= 1 ==> num_chunks_of(len, s) == (len - 1) / s + 1,
        num_chunks_of(len, s) >= 0,
        num_chunks_of(len, s) * s >= len,
        len >= 1 ==> (num_chunks_of(len, s) - 1) * s < len,
{
    let q = num_chunks_of(len, s);
    if len == 0 {
        vstd::arithmetic::div_mod::lemma_basic_div(s - 1, s);
    } else {
        vstd::arithmetic::div_mod::lemma_div_plus_one(len - 1, s);
    }
    vstd::arithmetic::div_mod::lemma_fundamental_div_mod(len + s - 1, s);
    vstd::arithmetic::div_mod::lemma_mod_division_less_than_divisor(len + s - 1, s);
    let r = (len + s - 1) % s;
    assert(len + s - 1 == q * s + r);
    vstd::arithmetic::mul::lemma_mul_is_distributive_sub_other_way(s, q, 1);
    assert((q - 1) * s == q * s - s);
}

/// The identifier of one chunked message: 8 bytes, shared by all the
/// chunks of the message, freshly drawn at random for each message.
#[derive(Clone, Copy, Debug)]
pub struct ChunkedMessageId(pub [u8; 8]);

/// The 64-bit integer whose big-endian byte rendering an id holds.
pub open spec fn id_to_int(s: Seq<u8>) -> u64
    recommends
        s.len() == 8,
{
    (((s[0] as u64) << 56) | ((s[1] as u64) << 48) | ((s[2] as u64) << 40) | ((s[3] as u64) << 32)
        | ((s[4] as u64) << 24) | ((s[5] as u64) << 16) | ((s[6] as u64) << 8) | (s[7] as u64))
}

impl ChunkedMessageId {
    /// Create a new, random ChunkedMessageId.
    pub fn random() -> ChunkedMessageId {
        let b0: u8 = rand::random();
        let b1: u8 = rand::random();
        let b2: u8 = rand::random();
        let b3: u8 = rand::random();
        let b4: u8 = rand::random();
        let b5: u8 = rand::random();
        let b6: u8 = rand::random();
        let b7: u8 = rand::random();
        ChunkedMessageId([b0, b1, b2, b3, b4, b5, b6, b7])
    }

    /// Create a new ChunkedMessageId holding the big-endian bytes of a
    /// 64-bit integer.
    pub fn from_int(id: u64) -> (r: ChunkedMessageId)
        ensures
            id_to_int(r.0@) == id,
    {
        let b0: u8 = #[verifier::truncate] ((id >> 56) as u8);
        let b1: u8 = #[verifier::truncate] ((id >> 48) as u8);
        let b2: u8 = #[verifier::truncate] ((id >> 40) as u8);
        let b3: u8 = #[verifier::truncate] ((id >> 32) as u8);
        let b4: u8 = #[verifier::truncate] ((id >> 24) as u8);
        let b5: u8 = #[verifier::truncate] ((id >> 16) as u8);
        let b6: u8 = #[verifier::truncate] ((id >> 8) as u8);
        let b7: u8 = #[verifier::truncate] (id as u8);
        let r = ChunkedMessageId([b0, b1, b2, b3, b4, b5, b6, b7]);
        proof {
            assert(r.0@[0] == b0 && r.0@[1] == b1 && r.0@[2] == b2 && r.0@[3] == b3 && r.0@[4]
                == b4 && r.0@[5] == b5 && r.0@[6] == b6 && r.0@[7] == b7);
            assert((((((id >> 56) as u8) as u64) << 56) | ((((id >> 48) as u8) as u64) << 48) | (((
            (id >> 40) as u8) as u64) << 40) | ((((id >> 32) as u8) as u64) << 32) | ((((id
                >> 24) as u8) as u64) << 24) | ((((id >> 16) as u8) as u64) << 16) | ((((id
                >> 8) as u8) as u64) << 8) | ((id as u8) as u64)) == id) by (bit_vector);
        }
        r
    }

    /// Create a new ChunkedMessageId from a byte array.
    pub fn from_bytes(bytes: [u8; 8]) -> (r: ChunkedMessageId)
        ensures
            r.0@ == bytes@,
    {
        ChunkedMessageId(bytes)
    }

    /// Return the message id as a byte array.
    pub fn as_bytes(&self) -> (r: &[u8; 8])
        ensures
            r@ == self.0@,
    {
        &self.0
    }

    /// Return the message id as a 64-bit integer.
    pub fn to_int(&self) -> (r: u64)
        ensures
            r == id_to_int(self.0@),
    {
        ((self.0[0] as u64) << 56) | ((self.0[1] as u64) << 48) | ((self.0[2] as u64) << 40) | ((
        self.0[3] as u64) << 32) | ((self.0[4] as u64) << 24) | ((self.0[5] as u64) << 16) | ((
        self.0[6] as u64) << 8) | (self.0[7] as u64)
    }
}

/// ChunkedMessage splits an already serialized (and compressed)
/// payload into chunks.
///
/// Its invariant ties the chunk count to the payload length by ceiling
/// division and bounds it by GELF's limit of 128 chunks per message.
pub struct ChunkedMessage {
    pub chunk_size: ChunkSize,
    pub payload: Vec<u8>,
    pub num_chunks: u8,
    pub id: ChunkedMessageId,
}

impl ChunkedMessage {
    /// Well-formedness: the resolved chunk size is positive and the
    /// chunk count is the ceiling of payload length over chunk size,
    /// at most 128.
    pub open spec fn wf(self) -> bool {
        &&& self.chunk_size.spec_size() > 0
        &&& self.num_chunks as int == num_chunks_of(
            self.payload@.len() as int,
            self.chunk_size.spec_size() as int,
        )
        &&& self.num_chunks <= MAX_CHUNKS
    }

    /// The byte length of the whole chunked message including all
    /// framing overhead: headers count only when the message spans
    /// more than one chunk.
    pub open spec fn spec_len(self) -> int {
        if self.num_chunks > 1 {
            self.payload@.len() + self.num_chunks * (CHUNK_OVERHEAD as int)
        } else {
            self.payload@.len() as int
        }
    }

    /// The payload slice carried by the chunk at a given index.
    pub open spec fn spec_chunk_payload(self, i: int) -> Seq<u8> {
        let size = self.chunk_size.spec_size() as int;
        let len = self.payload@.len() as int;
        self.payload@.subrange(i * size, if (i + 1) * size <= len { (i + 1) * size } else { len })
    }

    /// The full wire form of the chunk at a given index: a 12-byte
    /// header (magic bytes, message id, chunk index, total count)
    /// followed by the payload slice when the message spans more than
    /// one chunk, and the bare payload slice otherwise.
    pub open spec fn spec_chunk(self, i: int) -> Seq<u8> {
        if self.num_chunks > 1 {
            seq![MAGIC_BYTE_0, MAGIC_BYTE_1] + self.id.0@ + seq![i as u8, self.num_chunks]
                + self.spec_chunk_payload(i)
        } else {
            self.spec_chunk_payload(i)
        }
    }

    /// Construct a new ChunkedMessage.
    ///
    /// Several sanity checks are performed on construction:
    /// - the chunk size must be greater than 0,
    /// - GELF allows for a maximum of 128 chunks per message.
    ///
    /// Construction succeeds exactly when both hold, and the message
    /// then carries the payload unchanged with the ceiling-division
    /// chunk count and a fresh random id.  An empty payload yields a
    /// message of zero chunks, whose iteration ends at once and whose
    /// length is zero.
    pub fn new(chunk_size: ChunkSize, message: Vec<u8>) -> (r: Result<ChunkedMessage, Error>)
        ensures
            ({
                let s = chunk_size.spec_size() as int;
                let len = message@.len() as int;
                &&& (s == 0 <==> (r matches Err(Error::IllegalChunkSize { size }) && size
                    == chunk_size.spec_size()))
                &&& (s > 0 && num_chunks_of(len, s) > MAX_CHUNKS as int <==> r matches Err(
                    Error::ChunkMessageFailed,
                ))
                &&& (s > 0 && num_chunks_of(len, s) <= MAX_CHUNKS as int ==> (r matches Ok(cm)
                    && cm.chunk_size == chunk_size && cm.payload@ == message@
                    && cm.num_chunks as int == num_chunks_of(len, s) && cm.wf()))
            }),
    {
        let size16 = chunk_size.size();
        if size16 == 0 {
            return Err(Error::IllegalChunkSize { size: size16 });
        }
        let size: u64 = size16 as u64;
        let len: u64 = message.len() as u64;
        proof {
            lemma_ceil_div(len as int, size as int);
        }
        let num: u64 = if len == 0 {
            0
        } else {
            (len - 1) / size + 1
        };
        if num > MAX_CHUNKS as u64 {
            return Err(Error::ChunkMessageFailed);
        }
        Ok(
            ChunkedMessage {
                chunk_size,
                payload: message,
                num_chunks: num as u8,
                id: ChunkedMessageId::random(),
            },
        )
    }

    /// Return the byte length of the chunked message including all
    /// overhead.
    pub fn len(&self) -> (r: u64)
        requires
            self.wf(),
        ensures
            r as int == self.spec_len(),
    {
        proof {
            lemma_ceil_div(self.payload@.len() as int, self.chunk_size.spec_size() as int);
            vstd::arithmetic::mul::lemma_mul_inequality(
                self.num_chunks as int,
                MAX_CHUNKS as int,
                self.chunk_size.spec_size() as int,
            );
        }
        if self.num_chunks > 1 {
            self.payload.len() as u64 + self.num_chunks as u64 * CHUNK_OVERHEAD as u64
        } else {
            self.payload.len() as u64
        }
    }

    /// Return a fresh iterator over all chunks of the message.
    pub fn iter(&self) -> (r: ChunkedMessageIterator<'_>)
        ensures
            r.message == self,
            r.chunk_num == 0,
    {
        ChunkedMessageIterator::new(self)
    }
}

/// The payload slices of the first `n` chunks, concatenated in index
/// order.
pub open spec fn concat_chunk_payloads(cm: ChunkedMessage, n: int) -> Seq<u8>
    decreases n,
{
    if n <= 0 {
        Seq::empty()
    } else {
        concat_chunk_payloads(cm, n - 1) + cm.spec_chunk_payload(n - 1)
    }
}

/// The bounds of the chunk at index `i` lie inside the payload, in
/// order.
proof fn lemma_chunk_bounds(cm: ChunkedMessage, i: int)
    requires
        cm.wf(),
        0 <= i < cm.num_chunks,
    ensures
        ({
            let size = cm.chunk_size.spec_size() as int;
            let len = cm.payload@.len() as int;
            let end = if (i + 1) * size <= len { (i + 1) * size } else { len };
            &&& 0 <= i * size
            &&& i * size <= end
            &&& end <= len
            &&& end - i * size <= size
            &&& i == cm.num_chunks - 1 ==> end == len
        }),
{
    let size = cm.chunk_size.spec_size() as int;
    let len = cm.payload@.len() as int;
    lemma_ceil_div(len, size);
    vstd::arithmetic::mul::lemma_mul_inequality(i, cm.num_chunks as int - 1, size);
    vstd::arithmetic::mul::lemma_mul_is_distributive_sub_other_way(size, cm.num_chunks as int, 1);
    vstd::arithmetic::mul::lemma_mul_is_distributive_add_other_way(size, i, 1);
    vstd::arithmetic::mul::lemma_mul_nonnegative(i, size);
    if i == cm.num_chunks - 1 {
        assert(cm.num_chunks as int * size >= len);
    }
}

/// Concatenating the payload slices of all chunks, in index order,
/// reproduces the original payload exactly, byte for byte.
pub proof fn lemma_chunks_reassemble(cm: ChunkedMessage)
    requires
        cm.wf(),
    ensures
        concat_chunk_payloads(cm, cm.num_chunks as int) == cm.payload@,
{
    let size = cm.chunk_size.spec_size() as int;
    let len = cm.payload@.len() as int;
    lemma_ceil_div(len, size);
    if cm.num_chunks == 0 {
        assert(concat_chunk_payloads(cm, 0) =~= cm.payload@);
    } else {
        lemma_concat_prefix(cm, cm.num_chunks as int);
        lemma_chunk_bounds(cm, cm.num_chunks as int - 1);
        assert(cm.payload@.subrange(0, len) =~= cm.payload@);
    }
}

/// The concatenation of the first `n` payload slices is the payload
/// prefix up to `min(n * size, len)`.
proof fn lemma_concat_prefix(cm: ChunkedMessage, n: int)
    requires
        cm.wf(),
        0 <= n <= cm.num_chunks,
    ensures
        ({
            let size = cm.chunk_size.spec_size() as int;
            let len = cm.payload@.len() as int;
            let end = if n * size <= len { n * size } else { len };
            concat_chunk_payloads(cm, n) == cm.payload@.subrange(0, end)
        }),
    decreases n,
{
    let size = cm.chunk_size.spec_size() as int;
    let len = cm.payload@.len() as int;
    let end = if n * size <= len { n * size } else { len };
    vstd::arithmetic::mul::lemma_mul_basics(size);
    if n == 0 {
        assert(end == 0);
        assert(concat_chunk_payloads(cm, 0) =~= cm.payload@.subrange(0, 0));
    } else {
        lemma_concat_prefix(cm, n - 1);
        lemma_chunk_bounds(cm, n - 1);
        let prev_end = if (n - 1) * size <= len { (n - 1) * size } else { len };
        assert(prev_end == (n - 1) * size);
        assert(cm.payload@.subrange(0, prev_end) + cm.payload@.subrange(prev_end, end)
            =~= cm.payload@.subrange(0, end));
        assert(concat_chunk_payloads(cm, n) =~= cm.payload@.subrange(0, end));
    }
}

/// Every chunk of a multi-chunk message carries the 12-byte header:
/// the two magic bytes, the message id, its own index and the total
/// chunk count, followed by its payload slice.
pub proof fn lemma_chunk_header(cm: ChunkedMessage, i: int)
    requires
        cm.wf(),
        cm.num_chunks > 1,
        0 <= i < cm.num_chunks,
    ensures
        cm.spec_chunk(i).len() == 12 + cm.spec_chunk_payload(i).len(),
        cm.spec_chunk(i)[0] == MAGIC_BYTE_0,
        cm.spec_chunk(i)[1] == MAGIC_BYTE_1,
        cm.spec_chunk(i).subrange(2, 10) == cm.id.0@,
        cm.spec_chunk(i)[10] == i as u8,
        cm.spec_chunk(i)[11] == cm.num_chunks,
        cm.spec_chunk(i).skip(12) == cm.spec_chunk_payload(i),
{
    lemma_chunk_bounds(cm, i);
    assert(cm.spec_chunk(i).subrange(2, 10) =~= cm.id.0@);
    assert(cm.spec_chunk(i).skip(12) =~= cm.spec_chunk_payload(i));
}

/// A single-chunk message is emitted verbatim: no header is applied
/// and the one chunk is the payload itself.
pub proof fn lemma_single_chunk_verbatim(cm: ChunkedMessage)
    requires
        cm.wf(),
        cm.num_chunks == 1,
    ensures
        cm.spec_chunk(0) == cm.payload@,
{
    lemma_chunk_bounds(cm, 0);
    assert(cm.spec_chunk(0) =~= cm.payload@);
}

/// Every chunk stays within its byte budget: chunk size plus the
/// 12-byte header when headers are present, the bare chunk size
/// otherwise.
pub proof fn lemma_chunk_len_budget(cm: ChunkedMessage, i: int)
    requires
        cm.wf(),
        0 <= i < cm.num_chunks,
    ensures
        cm.num_chunks > 1 ==> cm.spec_chunk(i).len() <= cm.chunk_size.spec_size() + 12,
        cm.num_chunks <= 1 ==> cm.spec_chunk(i).len() <= cm.chunk_size.spec_size(),
{
    lemma_chunk_bounds(cm, i);
}

/// An iterator over all of a chunked message's chunks, in increasing
/// index order.
///
/// This is always constructed by `ChunkedMessage::iter`.
pub struct ChunkedMessageIterator<'a> {
    pub chunk_num: u8,
    pub message: &'a ChunkedMessage,
}

impl<'a> ChunkedMessageIterator<'a> {
    /// Create a new ChunkedMessageIterator positioned at the first
    /// chunk.
    pub fn new(msg: &'a ChunkedMessage) -> (r: ChunkedMessageIterator<'a>)
        ensures
            r.message == msg,
            r.chunk_num == 0,
    {
        ChunkedMessageIterator { message: msg, chunk_num: 0 }
    }

    /// Return the next chunk, if one is left.
    ///
    /// The chunk at index `i` carries the payload bytes
    /// `[i*size, min((i+1)*size, len))`, prefixed by the 12-byte header
    /// exactly when the message spans more than one chunk.
    pub fn next(&mut self) -> (r: Option<Vec<u8>>)
        requires
            old(self).message.wf(),
        ensures
            final(self).message == old(self).message,
            old(self).chunk_num >= old(self).message.num_chunks ==> r is None && final(self).chunk_num
                == old(self).chunk_num,
            old(self).chunk_num < old(self).message.num_chunks ==> {
                &&& r matches Some(c) && c@ == old(self).message.spec_chunk(
                    old(self).chunk_num as int,
                )
                &&& final(self).chunk_num == old(self).chunk_num + 1
            },
    {
        if self.chunk_num >= self.message.num_chunks {
            return None;
        }
        let i = self.chunk_num;
        let msg = self.message;
        let chunk_size = msg.chunk_size.size();
        let ghost size = chunk_size as int;
        let ghost len = msg.payload@.len() as int;
        proof {
            lemma_ceil_div(len, size);
            // the slice bounds of chunk i lie inside the payload
            vstd::arithmetic::mul::lemma_mul_inequality(
                i as int,
                msg.num_chunks as int - 1,
                size,
            );
            vstd::arithmetic::mul::lemma_mul_is_distributive_sub_other_way(
                size,
                msg.num_chunks as int,
                1,
            );
            vstd::arithmetic::mul::lemma_mul_inequality(i as int, MAX_CHUNKS as int, size);
        }
        let slice_start: usize = i as usize * chunk_size as usize;
        let slice_end: usize = if slice_start + chunk_size as usize <= msg.payload.len() {
            slice_start + chunk_size as usize
        } else {
            msg.payload.len()
        };
        let mut chunk: Vec<u8> = Vec::new();

        // The chunk header is only required when the message spans
        // more than one chunk.
        if msg.num_chunks > 1 {
            chunk.push(MAGIC_BYTE_0);
            chunk.push(MAGIC_BYTE_1);
            let mut k: usize = 0;
            while k < 8
                invariant
                    0 <= k <= 8,
                    chunk@ == seq![MAGIC_BYTE_0, MAGIC_BYTE_1] + msg.id.0@.subrange(0, k as int),
                decreases 8 - k,
            {
                chunk.push(msg.id.0[k]);
                proof {
                    assert(chunk@ =~= seq![MAGIC_BYTE_0, MAGIC_BYTE_1] + msg.id.0@.subrange(
                        0,
                        k as int + 1,
                    ));
                }
                k = k + 1;
            }
            proof {
                assert(msg.id.0@.subrange(0, 8) =~= msg.id.0@);
            }
            chunk.push(i);
            chunk.push(msg.num_chunks);
        }
        let ghost header = chunk@;
        let mut j: usize = slice_start;
        while j < slice_end
            invariant
                slice_start <= j <= slice_end,
                slice_end <= msg.payload@.len(),
                chunk@ == header + msg.payload@.subrange(slice_start as int, j as int),
            decreases slice_end - j,
        {
            chunk.push(msg.payload[j]);
            proof {
                assert(chunk@ =~= header + msg.payload@.subrange(
                    slice_start as int,
                    j as int + 1,
                ));
            }
            j = j + 1;
        }
        self.chunk_num = self.chunk_num + 1;
        proof {
            vstd::arithmetic::mul::lemma_mul_is_distributive_add_other_way(size, i as int, 1);
            assert((i as int + 1) * size == i as int * size + size);
            assert(chunk@ =~= msg.spec_chunk(i as int));
        }
        Some(chunk)
    }
}

} // verus!
