//! WireMessage: the fully assembled GELF message, and its
//! serialization to the canonical GELF JSON object.

use vstd::prelude::*;

use crate::backends::Backend;
use crate::errors::Error;
use crate::json::append_dec_i64;
use crate::json::append_dec_u64;
use crate::json::append_json_escaped;
use crate::json::append_json_quoted;
use crate::json::dec_int;
use crate::json::dec_nat;
use crate::json::json_escaped;
use crate::json::json_quoted;
use crate::json::push_char;
use crate::json::str_eq;
use crate::logger::Logger;
use crate::message::chunked_message::num_chunks_of;
use crate::message::chunked_message::ChunkSize;
use crate::message::chunked_message::ChunkedMessage;
use crate::message::chunked_message::MAX_CHUNKS;
use crate::message::compression::spec_compressed;
use crate::message::compression::MessageCompression;
use crate::message::lemma_meta_push;
use crate::message::lemma_meta_push_wf;
use crate::message::meta_contains;
use crate::message::meta_has_key;
use crate::message::meta_keys_distinct;
use crate::message::meta_lookup;
use crate::message::meta_view;
use crate::message::Message;
use crate::message::Timestamp;

verus! {

/// One metadata field as it appears in the GELF JSON object: the key
/// under a single-underscore prefix, the value as a JSON string.
pub open spec fn meta_field_json(p: (Seq<char>, Seq<char>)) -> Seq<char> {
    ",\"_"@ + json_escaped(p.0) + "\":"@ + json_quoted(p.1)
}

/// All metadata fields, emitted in order.
pub open spec fn meta_fields_json(m: Seq<(Seq<char>, Seq<char>)>) -> Seq<char>
    decreases m.len(),
{
    if m.len() == 0 {
        Seq::empty()
    } else {
        meta_field_json(m[0]) + meta_fields_json(m.drop_first())
    }
}

/// The timestamp field: seconds since the epoch and the
/// fractional-millisecond component, as a JSON string.
pub open spec fn timestamp_json(t: Timestamp) -> Seq<char> {
    ",\"timestamp\":\""@ + dec_int(t.seconds as int) + seq!['.'] + dec_nat(t.millis as nat)
        + "\""@
}

/// The canonical GELF JSON object of a wire message: the fixed
/// `version`, `host`, `short_message` and `level` fields, then
/// `full_message` and `timestamp` only where the message set them,
/// then every metadata field under its underscore-prefixed key.
pub open spec fn spec_gelf_json(w: WireMessage) -> Seq<char> {
    "{\"version\":\"1.1\",\"host\":"@ + json_quoted(w.host@) + ",\"short_message\":"@
        + json_quoted(w.message.short_message@) + ",\"level\":"@ + dec_nat(
        w.message.level.as_int() as nat,
    ) + (match w.message.full_message {
        Some(f) => ",\"full_message\":"@ + json_quoted(f@),
        None => Seq::empty(),
    }) + (match w.message.timestamp {
        Some(t) => timestamp_json(t),
        None => Seq::empty(),
    }) + meta_fields_json(w.message.meta_seq()) + seq!['}']
}

/// The message metadata after the logger's defaults are folded in:
/// each default whose key is not reserved and not already present is
/// appended, in order.
pub open spec fn merge_defaults(
    m: Seq<(Seq<char>, Seq<char>)>,
    d: Seq<(Seq<char>, Seq<char>)>,
) -> Seq<(Seq<char>, Seq<char>)>
    decreases d.len(),
{
    if d.len() == 0 {
        m
    } else {
        let m1 = if d[0].0 == "id"@ || meta_has_key(m, d[0].0) {
            m
        } else {
            m.push(d[0])
        };
        merge_defaults(m1, d.drop_first())
    }
}

/// Folding in the defaults one part at a time.
proof fn lemma_merge_defaults_concat(
    m: Seq<(Seq<char>, Seq<char>)>,
    a: Seq<(Seq<char>, Seq<char>)>,
    b: Seq<(Seq<char>, Seq<char>)>,
)
    ensures
        merge_defaults(m, a + b) == merge_defaults(merge_defaults(m, a), b),
    decreases a.len(),
{
    if a.len() == 0 {
        assert(a + b =~= b);
    } else {
        let m1 = if a[0].0 == "id"@ || meta_has_key(m, a[0].0) {
            m
        } else {
            m.push(a[0])
        };
        assert((a + b).drop_first() =~= a.drop_first() + b);
        assert((a + b)[0] == a[0]);
        lemma_merge_defaults_concat(m1, a.drop_first(), b);
    }
}

/// Folding in one more default.
proof fn lemma_merge_defaults_snoc(
    m: Seq<(Seq<char>, Seq<char>)>,
    d: Seq<(Seq<char>, Seq<char>)>,
    i: int,
)
    requires
        0 <= i < d.len(),
    ensures
        merge_defaults(m, d.subrange(0, i + 1)) == ({
            let mm = merge_defaults(m, d.subrange(0, i));
            if d[i].0 == "id"@ || meta_has_key(mm, d[i].0) {
                mm
            } else {
                mm.push(d[i])
            }
        }),
{
    let single = seq![d[i]];
    assert(d.subrange(0, i + 1) =~= d.subrange(0, i) + single);
    lemma_merge_defaults_concat(m, d.subrange(0, i), single);
    let mm = merge_defaults(m, d.subrange(0, i));
    let mm1 = if single[0].0 == "id"@ || meta_has_key(mm, single[0].0) {
        mm
    } else {
        mm.push(single[0])
    };
    assert(single.drop_first() =~= Seq::<(Seq<char>, Seq<char>)>::empty());
    assert(merge_defaults(mm1, single.drop_first()) == mm1);
}

/// Default metadata is merged into a wire message only for keys absent
/// from the message's own metadata: a key present in both keeps the
/// message's own value; a default under a fresh key other than the
/// reserved `id` is added with its own value; and no key appears that
/// neither side holds.
pub proof fn lemma_merge_defaults_properties(
    m: Seq<(Seq<char>, Seq<char>)>,
    d: Seq<(Seq<char>, Seq<char>)>,
)
    requires
        meta_keys_distinct(m),
        !meta_has_key(m, "id"@),
        meta_keys_distinct(d),
    ensures
        meta_keys_distinct(merge_defaults(m, d)),
        !meta_has_key(merge_defaults(m, d), "id"@),
        forall|k: Seq<char>| #[trigger] meta_has_key(m, k) ==> meta_has_key(merge_defaults(m, d), k)
            && meta_lookup(merge_defaults(m, d), k) == meta_lookup(m, k),
        forall|k: Seq<char>| #[trigger] meta_has_key(merge_defaults(m, d), k) ==> meta_has_key(m, k)
            || meta_has_key(d, k),
        forall|i: int| 0 <= i < d.len() && d[i].0 != "id"@ && !meta_has_key(m, #[trigger] d[i].0)
            ==> meta_has_key(merge_defaults(m, d), d[i].0) && meta_lookup(
            merge_defaults(m, d),
            d[i].0,
        ) == d[i].1,
    decreases d.len(),
{
    if d.len() == 0 {
    } else {
        let x = d[0];
        let d1 = d.drop_first();
        let added = !(x.0 == "id"@ || meta_has_key(m, x.0));
        let m1 = if !added {
            m
        } else {
            m.push(x)
        };
        let merged = merge_defaults(m, d);
        assert(merged == merge_defaults(m1, d1));
        if added {
            lemma_meta_push_wf(m, x);
        }
        assert(forall|j: int| 0 <= j < d1.len() ==> d1[j] == d[j + 1]);
        lemma_merge_defaults_properties(m1, d1);
        assert forall|k: Seq<char>| #[trigger] meta_has_key(m, k) implies meta_has_key(merged, k)
            && meta_lookup(merged, k) == meta_lookup(m, k) by {
            if added {
                lemma_meta_push(m, x, k);
            }
            assert(meta_has_key(m1, k) && meta_lookup(m1, k) == meta_lookup(m, k));
        }
        assert forall|k: Seq<char>| #[trigger] meta_has_key(merged, k) implies meta_has_key(m, k)
            || meta_has_key(d, k) by {
            if meta_has_key(m1, k) {
                if added {
                    lemma_meta_push(m, x, k);
                    if !meta_has_key(m, k) {
                        assert(k == x.0);
                        assert(d[0].0 == k);
                        assert(meta_has_key(d, k));
                    }
                }
            } else {
                assert(meta_has_key(d1, k));
                let j = choose|j: int| 0 <= j < d1.len() && d1[j].0 == k;
                assert(d[j + 1].0 == k);
                assert(meta_has_key(d, k));
            }
        }
        assert forall|i: int|
            0 <= i < d.len() && d[i].0 != "id"@ && !meta_has_key(m, #[trigger] d[i].0) implies
            meta_has_key(merged, d[i].0) && meta_lookup(merged, d[i].0) == d[i].1 by {
            if i == 0 {
                assert(added);
                lemma_meta_push(m, x, x.0);
                assert(meta_has_key(m1, x.0) && meta_lookup(m1, x.0) == x.1);
            } else {
                assert(d1[i - 1] == d[i]);
                if added {
                    assert(d[0].0 != d[i].0);
                    lemma_meta_push(m, x, d[i].0);
                }
                assert(!meta_has_key(m1, d[i].0));
            }
        }
    }
}

/// WireMessage is the representation of a fully assembled GELF message.
///
/// Full assembly requires information only present in the `Logger`:
/// both the local hostname and default metadata fields missing from the
/// message are added.  A WireMessage can be serialized to GELF JSON,
/// with and without compression, and is the value handed to the
/// transport backends.
pub struct WireMessage {
    pub host: String,
    pub message: Message,
}

impl WireMessage {
    /// Construct a new wire message.
    ///
    /// The logger provides the `host` field and the default metadata:
    /// every default whose key is absent from the message (and not the
    /// reserved key `id`) is added, and a key present in both keeps the
    /// message's own value.
    pub fn new<B: Backend>(msg: Message, logger: &Logger<B>) -> (r: WireMessage)
        requires
            msg.wf(),
            logger.wf(),
        ensures
            r.host@ == logger.hostname@,
            r.message.short_message == msg.short_message,
            r.message.full_message == msg.full_message,
            r.message.timestamp == msg.timestamp,
            r.message.level == msg.level,
            r.message.meta_seq() == merge_defaults(
                msg.meta_seq(),
                meta_view(logger.default_metadata@),
            ),
            r.message.wf(),
    {
        let ghost d = meta_view(logger.default_metadata@);
        let mut message = msg;
        let n = logger.default_metadata.len();
        let mut i: usize = 0;
        proof {
            assert(d.subrange(0, 0) =~= Seq::<(Seq<char>, Seq<char>)>::empty());
        }
        while i < n
            invariant
                msg.wf(),
                d == meta_view(logger.default_metadata@),
                n == logger.default_metadata@.len(),
                0 <= i <= n,
                message.short_message == msg.short_message,
                message.full_message == msg.full_message,
                message.timestamp == msg.timestamp,
                message.level == msg.level,
                message.meta_seq() == merge_defaults(msg.meta_seq(), d.subrange(0, i as int)),
                message.wf(),
            decreases n - i,
        {
            let ghost before = message.meta_seq();
            let key_is_id = str_eq(logger.default_metadata[i].0.as_str(), "id");
            let present = meta_contains(&message.metadata, logger.default_metadata[i].0.as_str());
            if !key_is_id && !present {
                let pair = (
                    logger.default_metadata[i].0.clone(),
                    logger.default_metadata[i].1.clone(),
                );
                message.metadata.push(pair);
                proof {
                    assert(message.meta_seq() =~= before.push(d[i as int]));
                    lemma_meta_push_wf(before, d[i as int]);
                }
            }
            proof {
                lemma_merge_defaults_snoc(msg.meta_seq(), d, i as int);
            }
            i = i + 1;
        }
        proof {
            assert(d.subrange(0, n as int) =~= d);
        }
        WireMessage { host: logger.hostname.clone(), message }
    }

    /// Return the GELF JSON string of this message.
    ///
    /// Serialization of a well-formed message always succeeds, and the
    /// result is exactly the canonical GELF JSON object.
    #[verifier::rlimit(60)]
    pub fn to_gelf(&self) -> (r: Result<String, Error>)
        ensures
            r matches Ok(j) && j@ == spec_gelf_json(*self),
    {
        let ghost fixed = "{\"version\":\"1.1\",\"host\":"@ + json_quoted(self.host@)
            + ",\"short_message\":"@ + json_quoted(self.message.short_message@) + ",\"level\":"@
            + dec_nat(self.message.level.as_int() as nat);
        let ghost with_full = fixed + (match &self.message.full_message {
            Some(f) => ",\"full_message\":"@ + json_quoted(f@),
            None => Seq::empty(),
        });
        let ghost with_ts = with_full + (match &self.message.timestamp {
            Some(t) => timestamp_json(*t),
            None => Seq::empty(),
        });
        let mut out = String::new();
        out.append("{\"version\":\"1.1\",\"host\":");
        append_json_quoted(&mut out, self.host.as_str());
        out.append(",\"short_message\":");
        append_json_quoted(&mut out, self.message.short_message.as_str());
        out.append(",\"level\":");
        let ord = self.message.level.ordinal();
        append_dec_u64(&mut out, ord as u64);
        proof {
            assert(out@ =~= fixed);
        }
        match &self.message.full_message {
            Some(f) => {
                out.append(",\"full_message\":");
                append_json_quoted(&mut out, f.as_str());
                proof {
                    assert(out@ =~= with_full);
                }
            },
            None => {},
        }
        match &self.message.timestamp {
            Some(t) => {
                out.append(",\"timestamp\":\"");
                append_dec_i64(&mut out, t.seconds);
                push_char(&mut out, '.');
                append_dec_u64(&mut out, t.millis as u64);
                out.append("\"");
                proof {
                    assert(out@ =~= with_ts);
                }
            },
            None => {},
        }
        proof {
            assert(out@ == with_ts);
        }
        let ghost base = out@;
        let n = self.message.metadata.len();
        let mut i: usize = 0;
        proof {
            assert(base + meta_fields_json(self.message.meta_seq().subrange(0, 0)) =~= base);
        }
        while i < n
            invariant
                n == self.message.metadata@.len(),
                0 <= i <= n,
                out@ == base + meta_fields_json(self.message.meta_seq().subrange(0, i as int)),
            decreases n - i,
        {
            out.append(",\"_");
            append_json_escaped(&mut out, self.message.metadata[i].0.as_str());
            out.append("\":");
            append_json_quoted(&mut out, self.message.metadata[i].1.as_str());
            proof {
                lemma_meta_fields_snoc(self.message.meta_seq(), i as int);
                assert(out@ =~= base + meta_fields_json(
                    self.message.meta_seq().subrange(0, i as int + 1),
                ));
            }
            i = i + 1;
        }
        push_char(&mut out, '}');
        proof {
            assert(self.message.meta_seq().subrange(0, n as int) =~= self.message.meta_seq());
            assert(out@ =~= with_ts + meta_fields_json(self.message.meta_seq()) + seq!['}']);
            assert(with_ts + meta_fields_json(self.message.meta_seq()) + seq!['}']
                =~= spec_gelf_json(*self));
        }
        Ok(out)
    }

    /// Return the compressed GELF JSON bytes of this message.
    pub fn to_compressed_gelf(&self, compression: MessageCompression) -> (r: Result<Vec<u8>, Error>)
        ensures
            r matches Ok(b) ==> b@ == spec_compressed(*self, compression)
                && compression.level_ok(),
            !compression.level_ok() ==> (r matches Err(e) && e matches
                Error::InvalidCompressionLevel { level } && Some(level)
                == compression.spec_level()),
            compression.level_ok() ==> r is Ok,
    {
        compression.compress(self)
    }

    /// Return the GELF-over-TCP frame of this message: the UTF-8 bytes
    /// of its GELF JSON followed by exactly one 0x00 terminator byte.
    ///
    /// GELF over TCP never applies compression: the null delimiter is
    /// incompatible with binary compressed streams, which may hold
    /// embedded zero bytes.
    pub fn to_tcp_frame(&self) -> (r: Result<Vec<u8>, Error>)
        ensures
            r matches Ok(b) && b@ == vstd::utf8::encode_utf8(spec_gelf_json(*self)).push(0u8),
    {
        let json = match self.to_gelf() {
            Ok(j) => j,
            Err(e) => {
                return Err(e);
            },
        };
        let mut bytes = json.as_str().as_bytes_vec();
        bytes.push(0u8);
        Ok(bytes)
    }

    /// Serialize and compress the message and prepare it for chunking.
    pub fn to_chunked_message(
        &self,
        chunk_size: ChunkSize,
        compression: MessageCompression,
    ) -> (r: Result<ChunkedMessage, Error>)
        ensures
            r matches Ok(cm) ==> {
                &&& cm.wf()
                &&& compression.level_ok()
                &&& chunk_size.spec_size() > 0
                &&& cm.chunk_size == chunk_size
                &&& cm.payload@ == spec_compressed(*self, compression)
                &&& cm.num_chunks as int == num_chunks_of(
                    spec_compressed(*self, compression).len() as int,
                    chunk_size.spec_size() as int,
                )
            },
            !compression.level_ok() ==> (r matches Err(e) && e is InvalidCompressionLevel),
            compression.level_ok() && chunk_size.spec_size() == 0 ==> (r matches Err(e) && e
                matches Error::IllegalChunkSize { size } && size == 0),
            compression.level_ok() && chunk_size.spec_size() > 0 && num_chunks_of(
                spec_compressed(*self, compression).len() as int,
                chunk_size.spec_size() as int,
            ) > MAX_CHUNKS as int ==> (r matches Err(e) && e is ChunkMessageFailed),
            compression.level_ok() && chunk_size.spec_size() > 0 && num_chunks_of(
                spec_compressed(*self, compression).len() as int,
                chunk_size.spec_size() as int,
            ) <= MAX_CHUNKS as int ==> r is Ok,
    {
        match self.to_compressed_gelf(compression) {
            Ok(bytes) => ChunkedMessage::new(chunk_size, bytes),
            Err(e) => Err(e),
        }
    }
}

/// Emitting one more metadata field.
proof fn lemma_meta_fields_snoc(m: Seq<(Seq<char>, Seq<char>)>, i: int)
    requires
        0 <= i < m.len(),
    ensures
        meta_fields_json(m.subrange(0, i + 1)) == meta_fields_json(m.subrange(0, i))
            + meta_field_json(m[i]),
{
    let single = seq![m[i]];
    assert(m.subrange(0, i + 1) =~= m.subrange(0, i) + single);
    lemma_meta_fields_concat(m.subrange(0, i), single);
    assert(single.drop_first() =~= Seq::<(Seq<char>, Seq<char>)>::empty());
    assert(meta_fields_json(single.drop_first()) == Seq::<char>::empty());
    assert(meta_fields_json(single) == meta_field_json(m[i]) + Seq::<char>::empty());
    assert(meta_field_json(m[i]) + Seq::<char>::empty() =~= meta_field_json(m[i]));
}

/// Field emission distributes over concatenation.
proof fn lemma_meta_fields_concat(a: Seq<(Seq<char>, Seq<char>)>, b: Seq<(Seq<char>, Seq<char>)>)
    ensures
        meta_fields_json(a + b) == meta_fields_json(a) + meta_fields_json(b),
    decreases a.len(),
{
    if a.len() == 0 {
        assert(a + b =~= b);
        assert(meta_fields_json(a) + meta_fields_json(b) =~= meta_fields_json(b));
    } else {
        lemma_meta_fields_concat(a.drop_first(), b);
        assert((a + b).drop_first() =~= a.drop_first() + b);
        assert((a + b).len() != 0);
        assert((a + b)[0] == a[0]);
        assert(meta_fields_json(a + b) =~= meta_fields_json(a) + meta_fields_json(b));
    }
}

} // verus!
