//! The in-memory representation of one GELF log event: short text,
//! optional long text, optional timestamp, severity level, and an open
//! set of named metadata fields.

use vstd::prelude::*;

pub mod chunked_message;
pub mod compression;
pub mod wire_message;

use crate::errors::Error;
use crate::json::str_eq;
use crate::level::Level;

verus! {

/// A point in time as seconds since the Unix epoch plus a
/// fractional-millisecond component, which is how GELF encodes
/// timestamps on the wire (`<seconds>.<millis>`).
#[derive(Clone, Copy, Debug, PartialEq, Eq, Structural)]
pub struct Timestamp {
    pub seconds: i64,
    pub millis: u16,
}

/// The metadata fields of a message as ghost data: a sequence of
/// key/value pairs of characters.
pub open spec fn meta_view(m: Seq<(String, String)>) -> Seq<(Seq<char>, Seq<char>)> {
    m.map_values(|p: (String, String)| (p.0@, p.1@))
}

/// Whether a key occurs in a metadata sequence.
pub open spec fn meta_has_key(m: Seq<(Seq<char>, Seq<char>)>, k: Seq<char>) -> bool {
    exists|i: int| 0 <= i < m.len() && m[i].0 == k
}

/// The value stored under the first occurrence of a key.
pub open spec fn meta_lookup(m: Seq<(Seq<char>, Seq<char>)>, k: Seq<char>) -> Seq<char>
    decreases m.len(),
{
    if m.len() == 0 {
        Seq::empty()
    } else if m[0].0 == k {
        m[0].1
    } else {
        meta_lookup(m.drop_first(), k)
    }
}

/// Whether all keys of a metadata sequence are distinct.
pub open spec fn meta_keys_distinct(m: Seq<(Seq<char>, Seq<char>)>) -> bool {
    forall|i: int, j: int| 0 <= i < j < m.len() ==> m[i].0 != m[j].0
}

/// How appending one pair changes key membership and lookup.
pub proof fn lemma_meta_push(m: Seq<(Seq<char>, Seq<char>)>, x: (Seq<char>, Seq<char>), k: Seq<char>)
    ensures
        meta_has_key(m.push(x), k) <==> (meta_has_key(m, k) || x.0 == k),
        meta_has_key(m, k) ==> meta_lookup(m.push(x), k) == meta_lookup(m, k),
        !meta_has_key(m, k) && x.0 == k ==> meta_lookup(m.push(x), k) == x.1,
    decreases m.len(),
{
    if m.len() == 0 {
        assert(m.push(x)[0] == x);
        if x.0 == k {
            assert(meta_has_key(m.push(x), k));
        }
    } else {
        lemma_meta_push(m.drop_first(), x, k);
        assert(m.push(x).drop_first() =~= m.drop_first().push(x));
        if meta_has_key(m, k) {
            let i = choose|i: int| 0 <= i < m.len() && m[i].0 == k;
            if i == 0 {
            } else {
                assert(m.drop_first()[i - 1].0 == k);
                assert(meta_has_key(m.drop_first(), k));
            }
            assert(m.push(x)[i].0 == k);
            assert(meta_has_key(m.push(x), k));
        } else {
            assert(forall|i: int| 0 <= i < m.drop_first().len() ==> m.drop_first()[i] == m[i + 1]);
            assert(!meta_has_key(m.drop_first(), k));
            assert(m[0].0 != k);
        }
        if meta_has_key(m.push(x), k) && m[0].0 != k && x.0 != k {
            let i = choose|i: int| 0 <= i < m.push(x).len() && m.push(x)[i].0 == k;
            assert(0 < i < m.len());
            assert(m[i].0 == k);
            assert(meta_has_key(m, k));
        }
    }
}

/// Appending a pair whose key is fresh and not `id` keeps a metadata
/// sequence's keys distinct and keeps `id` absent.
pub proof fn lemma_meta_push_wf(m: Seq<(Seq<char>, Seq<char>)>, x: (Seq<char>, Seq<char>))
    requires
        meta_keys_distinct(m),
        !meta_has_key(m, "id"@),
        !meta_has_key(m, x.0),
        x.0 != "id"@,
    ensures
        meta_keys_distinct(m.push(x)),
        !meta_has_key(m.push(x), "id"@),
{
    lemma_meta_push(m, x, "id"@);
    assert forall|a: int, b: int| 0 <= a < b < m.push(x).len() implies m.push(x)[a].0 != m.push(
        x,
    )[b].0 by {
        if b < m.len() {
            assert(m[a].0 != m[b].0);
        } else {
            assert(m.push(x)[b].0 == x.0);
            if m[a].0 == x.0 {
                assert(meta_has_key(m, x.0));
            }
        }
    }
}

/// Return whether a metadata vector holds the given key.
pub fn meta_contains(m: &Vec<(String, String)>, key: &str) -> (r: bool)
    ensures
        r == meta_has_key(meta_view(m@), key@),
{
    let n = m.len();
    let mut i: usize = 0;
    while i < n
        invariant
            n == m@.len(),
            0 <= i <= n,
            forall|j: int| 0 <= j < i ==> meta_view(m@)[j].0 != key@,
        decreases n - i,
    {
        if str_eq(m[i].0.as_str(), key) {
            proof {
                assert(meta_view(m@)[i as int].0 == key@);
            }
            return true;
        }
        i = i + 1;
    }
    proof {
        if meta_has_key(meta_view(m@), key@) {
            let j = choose|j: int| 0 <= j < meta_view(m@).len() && meta_view(m@)[j].0 == key@;
            assert(meta_view(m@)[j].0 != key@);
        }
    }
    false
}

/// Message is the representation of one GELF log event.
///
/// It offers setters and getters for all of GELF's message features;
/// only the `host` field is absent, since that one is managed by the
/// `Logger`.  Metadata keys are unique, and the key `id` — reserved by
/// GELF for the receiver — is never among them.
#[derive(Clone, Debug)]
pub struct Message {
    pub short_message: String,
    pub full_message: Option<String>,
    pub timestamp: Option<Timestamp>,
    pub level: Level,
    pub metadata: Vec<(String, String)>,
}

impl Message {
    /// The metadata fields as ghost data.
    pub open spec fn meta_seq(self) -> Seq<(Seq<char>, Seq<char>)> {
        meta_view(self.metadata@)
    }

    /// Well-formedness: metadata keys are unique and the reserved key
    /// `id` does not occur.  Constructors establish this and all
    /// methods preserve it.
    pub open spec fn wf(self) -> bool {
        &&& meta_keys_distinct(self.meta_seq())
        &&& !meta_has_key(self.meta_seq(), "id"@)
    }

    /// Construct a new log message.
    ///
    /// All optional fields start out absent.  The level defaults to
    /// `Alert`, as the GELF specification requires.
    pub fn new(short_message: &str) -> (r: Message)
        ensures
            r.short_message@ == short_message@,
            r.full_message is None,
            r.timestamp is None,
            r.level == Level::Alert,
            r.meta_seq() == Seq::<(Seq<char>, Seq<char>)>::empty(),
            r.wf(),
    {
        Self::new_with_level(short_message, Level::Alert)
    }

    /// Construct a new log message with the given level.
    pub fn new_with_level(short_message: &str, level: Level) -> (r: Message)
        ensures
            r.short_message@ == short_message@,
            r.full_message is None,
            r.timestamp is None,
            r.level == level,
            r.meta_seq() == Seq::<(Seq<char>, Seq<char>)>::empty(),
            r.wf(),
    {
        let r = Message {
            short_message: short_message.to_owned(),
            full_message: None,
            timestamp: None,
            level,
            metadata: Vec::new(),
        };
        proof {
            assert(r.meta_seq() =~= Seq::<(Seq<char>, Seq<char>)>::empty());
        }
        r
    }

    /// Return the `short_message`.
    pub fn short_message(&self) -> (r: &String)
        ensures
            r@ == self.short_message@,
    {
        &self.short_message
    }

    /// Set the `short_message`.
    pub fn set_short_message(&mut self, msg: &str)
        ensures
            *final(self) == (Message { short_message: final(self).short_message, ..*old(self) }),
            final(self).short_message@ == msg@,
    {
        self.short_message = msg.to_owned();
    }

    /// Return the `full_message`.
    pub fn full_message(&self) -> (r: &Option<String>)
        ensures
            r == &self.full_message,
    {
        &self.full_message
    }

    /// Set the `full_message`.
    pub fn set_full_message(&mut self, msg: &str)
        ensures
            *final(self) == (Message { full_message: final(self).full_message, ..*old(self) }),
            (final(self).full_message matches Some(m) && m@ == msg@),
    {
        self.full_message = Some(msg.to_owned());
    }

    /// Clear the `full_message`.
    pub fn clear_full_message(&mut self)
        ensures
            *final(self) == (Message { full_message: None, ..*old(self) }),
    {
        self.full_message = None;
    }

    /// Return the `timestamp`.
    pub fn timestamp(&self) -> (r: &Option<Timestamp>)
        ensures
            r == &self.timestamp,
    {
        &self.timestamp
    }

    /// Set the `timestamp`.
    pub fn set_timestamp(&mut self, ts: Timestamp)
        ensures
            *final(self) == (Message { timestamp: Some(ts), ..*old(self) }),
    {
        self.timestamp = Some(ts);
    }

    /// Clear the `timestamp`.
    pub fn clear_timestamp(&mut self)
        ensures
            *final(self) == (Message { timestamp: None, ..*old(self) }),
    {
        self.timestamp = None;
    }

    /// Return the `level`.
    pub fn level(&self) -> (r: Level)
        ensures
            r == self.level,
    {
        self.level
    }

    /// Set the `level`.
    pub fn set_level(&mut self, level: Level)
        ensures
            *final(self) == (Message { level: level, ..*old(self) }),
    {
        self.level = level;
    }

    /// Return the metadata field stored under the given key.
    pub fn metadata(&self, key: &str) -> (r: Option<&String>)
        ensures
            r is Some <==> meta_has_key(self.meta_seq(), key@),
            r matches Some(v) ==> v@ == meta_lookup(self.meta_seq(), key@),
    {
        let n = self.metadata.len();
        let mut i: usize = 0;
        while i < n
            invariant
                n == self.metadata.len(),
                0 <= i <= n,
                forall|j: int| 0 <= j < i ==> self.meta_seq()[j].0 != key@,
            decreases n - i,
        {
            if str_eq(self.metadata[i].0.as_str(), key) {
                proof {
                    lemma_meta_lookup_at(self.meta_seq(), key@, i as int);
                }
                return Some(&self.metadata[i].1);
            }
            i = i + 1;
        }
        None
    }

    /// Return all metadata fields.
    pub fn all_metadata(&self) -> (r: &Vec<(String, String)>)
        ensures
            r == &self.metadata,
    {
        &self.metadata
    }

    /// Set a metadata field.
    ///
    /// Setting the reserved key `id` always fails with
    /// `IllegalNameForAdditional` and leaves the message untouched.
    /// Otherwise the key's entry is replaced in place, or appended when
    /// the key is new.
    pub fn set_metadata(&mut self, key: &str, value: &str) -> (r: Result<(), Error>)
        requires
            old(self).wf(),
        ensures
            final(self).wf(),
            key@ == "id"@ ==> (r matches Err(Error::IllegalNameForAdditional { name }) && name@
                == key@ && *final(self) == *old(self)),
            key@ != "id"@ ==> r is Ok,
            key@ != "id"@ && meta_has_key(old(self).meta_seq(), key@) ==> exists|i: int|
                0 <= i < old(self).meta_seq().len() && old(self).meta_seq()[i].0 == key@
                    && final(self).meta_seq() == old(self).meta_seq().update(i, (key@, value@)),
            key@ != "id"@ && !meta_has_key(old(self).meta_seq(), key@) ==> final(self).meta_seq()
                == old(self).meta_seq().push((key@, value@)),
            key@ != "id"@ ==> *final(self) == (Message {
                metadata: final(self).metadata,
                ..*old(self)
            }),
    {
        if str_eq(key, "id") {
            return Err(Error::IllegalNameForAdditional { name: key.to_owned() });
        }
        let n = self.metadata.len();
        let mut i: usize = 0;
        while i < n
            invariant
                old(self).wf(),
                *self == *old(self),
                n == self.metadata.len(),
                0 <= i <= n,
                forall|j: int| 0 <= j < i ==> self.meta_seq()[j].0 != key@,
                key@ != "id"@,
            decreases n - i,
        {
            if str_eq(self.metadata[i].0.as_str(), key) {
                let ghost m0 = self.meta_seq();
                self.metadata[i] = (key.to_owned(), value.to_owned());
                proof {
                    assert(self.meta_seq() =~= m0.update(i as int, (key@, value@)));
                    lemma_meta_update_keeps_wf(m0, i as int, key@, value@);
                    assert(m0[i as int].0 == key@);
                    assert(meta_has_key(m0, key@));
                }
                return Ok(());
            }
            i = i + 1;
        }
        let ghost m0 = self.meta_seq();
        self.metadata.push((key.to_owned(), value.to_owned()));
        proof {
            assert(self.meta_seq() =~= m0.push((key@, value@)));
            assert(!meta_has_key(m0, key@));
            assert forall|a: int, b: int|
                0 <= a < b < self.meta_seq().len() implies self.meta_seq()[a].0 != self.meta_seq()[b].0 by {
                if b < m0.len() {
                } else {
                    assert(self.meta_seq()[b].0 == key@);
                }
            }
            assert(!meta_has_key(self.meta_seq(), "id"@)) by {
                if meta_has_key(self.meta_seq(), "id"@) {
                    let i = choose|i: int|
                        0 <= i < self.meta_seq().len() && self.meta_seq()[i].0 == "id"@;
                    if i < m0.len() {
                        assert(meta_has_key(m0, "id"@));
                    } else {
                        assert(key@ == "id"@);
                    }
                }
            }
        }
        Ok(())
    }
}

/// When the keys before position `i` differ from `k` and the key at `i`
/// equals `k`, the first-match lookup lands at `i`.
proof fn lemma_meta_lookup_at(m: Seq<(Seq<char>, Seq<char>)>, k: Seq<char>, i: int)
    requires
        0 <= i < m.len(),
        m[i].0 == k,
        forall|j: int| 0 <= j < i ==> m[j].0 != k,
    ensures
        meta_has_key(m, k),
        meta_lookup(m, k) == m[i].1,
    decreases i,
{
    if i == 0 {
    } else {
        assert(forall|j: int| 0 <= j < m.drop_first().len() ==> m.drop_first()[j] == m[j + 1]);
        lemma_meta_lookup_at(m.drop_first(), k, i - 1);
    }
}

/// Replacing the pair at an existing position of `k` keeps the keys
/// distinct and keeps `id` absent.
proof fn lemma_meta_update_keeps_wf(
    m: Seq<(Seq<char>, Seq<char>)>,
    i: int,
    k: Seq<char>,
    v: Seq<char>,
)
    requires
        meta_keys_distinct(m),
        !meta_has_key(m, "id"@),
        0 <= i < m.len(),
        m[i].0 == k,
        k != "id"@,
    ensures
        meta_keys_distinct(m.update(i, (k, v))),
        !meta_has_key(m.update(i, (k, v)), "id"@),
{
    let m1 = m.update(i, (k, v));
    assert forall|a: int, b: int| 0 <= a < b < m1.len() implies m1[a].0 != m1[b].0 by {
        assert(m[a].0 != m[b].0);
    }
    if meta_has_key(m1, "id"@) {
        let j = choose|j: int| 0 <= j < m1.len() && m1[j].0 == "id"@;
        assert(m[j].0 == "id"@);
        assert(meta_has_key(m, "id"@));
    }
}

} // verus!
