//! The logger: it owns the transport backend, the hostname GELF
//! requires, and the default metadata merged into every message.

use vstd::prelude::*;

use crate::backends::Backend;
use crate::errors::Error;
use crate::json::str_eq;
use crate::message::meta_has_key;
use crate::message::meta_keys_distinct;
use crate::message::meta_view;
use crate::message::Message;
use crate::message::wire_message::WireMessage;

verus! {

/// Relies on hostname::get_hostname: yields the machine's hostname, or
/// None when it cannot be determined.  The value depends on the
/// environment, so nothing is assumed about it.
#[verifier::external_body]
fn os_hostname() -> Option<String> {
    hostname::get_hostname()
}

/// Logger for sending log messages.
///
/// A `Logger` merges each message with its transport context (the
/// hostname and the default metadata) and hands the resulting wire
/// message to its backend.  By default all transmission errors are
/// returned to the caller; the `panic_on_error` flag is carried for
/// callers that prefer to abort on a failed send.
pub struct Logger<B: Backend> {
    pub hostname: String,
    pub backend: B,
    pub default_metadata: Vec<(String, String)>,
    pub panic_on_error: bool,
}

impl<B: Backend> Logger<B> {
    /// Well-formedness: the default metadata keys are unique.
    pub open spec fn wf(self) -> bool {
        meta_keys_distinct(meta_view(self.default_metadata@))
    }

    /// Construct a new `Logger` instance.
    ///
    /// This constructor tries to determine the local hostname (required
    /// by GELF); when that fails, it reports `LoggerCreateFailed`.  For
    /// a custom hostname use `Logger::new_with_hostname`.
    pub fn new(backend: B) -> (r: Result<Logger<B>, Error>)
        ensures
            r matches Ok(l) ==> l.backend == backend && l.default_metadata@.len() == 0
                && !l.panic_on_error && l.wf(),
            r matches Err(e) ==> e is LoggerCreateFailed,
    {
        match os_hostname() {
            Some(hostname) => Ok(Self::new_with_hostname(backend, hostname.as_str())),
            None => Err(Error::LoggerCreateFailed),
        }
    }

    /// Construct a new `Logger` instance with a predetermined hostname,
    /// used for the GELF `host` field.
    pub fn new_with_hostname(backend: B, hostname: &str) -> (r: Logger<B>)
        ensures
            r.hostname@ == hostname@,
            r.backend == backend,
            r.default_metadata@.len() == 0,
            !r.panic_on_error,
            r.wf(),
    {
        let r = Logger {
            hostname: hostname.to_owned(),
            backend,
            default_metadata: Vec::new(),
            panic_on_error: false,
        };
        proof {
            assert(meta_view(r.default_metadata@) =~= Seq::<(Seq<char>, Seq<char>)>::empty());
        }
        r
    }

    /// Log a message via the logger's transport to a GELF server.
    ///
    /// The logger adds its `default_metadata` fields to the message
    /// where the message lacks the key, and reports the backend's
    /// verdict to the caller.
    pub fn log_message(&self, msg: Message) -> (r: Result<(), Error>)
        requires
            msg.wf(),
            self.wf(),
    {
        self.backend.log_message(WireMessage::new(msg, self))
    }

    /// Return the hostname used for GELF's `host` field.
    pub fn hostname(&self) -> (r: &String)
        ensures
            r@ == self.hostname@,
    {
        &self.hostname
    }

    /// Set the hostname used for GELF's `host` field.
    pub fn set_hostname(&mut self, hostname: &str)
        ensures
            *final(self) == (Logger { hostname: final(self).hostname, ..*old(self) }),
            final(self).hostname@ == hostname@,
    {
        self.hostname = hostname.to_owned();
    }

    /// Return all default metadata fields.
    pub fn default_metadata(&self) -> (r: &Vec<(String, String)>)
        ensures
            r == &self.default_metadata,
    {
        &self.default_metadata
    }

    /// Set a default metadata field.
    ///
    /// Every logged `Message` is checked for every default metadata
    /// key: a message that already carries the key keeps its own value,
    /// otherwise the default is added to the message on the wire.
    pub fn set_default_metadata(&mut self, key: &str, value: &str)
        requires
            old(self).wf(),
        ensures
            final(self).wf(),
            *final(self) == (Logger { default_metadata: final(self).default_metadata, ..*old(self) }),
            meta_has_key(meta_view(old(self).default_metadata@), key@) ==> exists|i: int|
                0 <= i < old(self).default_metadata@.len() && meta_view(
                    old(self).default_metadata@,
                )[i].0 == key@ && meta_view(final(self).default_metadata@) == meta_view(
                    old(self).default_metadata@,
                ).update(i, (key@, value@)),
            !meta_has_key(meta_view(old(self).default_metadata@), key@) ==> meta_view(
                final(self).default_metadata@,
            ) == meta_view(old(self).default_metadata@).push((key@, value@)),
    {
        let n = self.default_metadata.len();
        let mut i: usize = 0;
        while i < n
            invariant
                old(self).wf(),
                *self == *old(self),
                n == self.default_metadata.len(),
                0 <= i <= n,
                forall|j: int| 0 <= j < i ==> meta_view(self.default_metadata@)[j].0 != key@,
            decreases n - i,
        {
            if str_eq(self.default_metadata[i].0.as_str(), key) {
                let ghost m0 = meta_view(self.default_metadata@);
                self.default_metadata[i] = (key.to_owned(), value.to_owned());
                proof {
                    assert(meta_view(self.default_metadata@) =~= m0.update(
                        i as int,
                        (key@, value@),
                    ));
                    assert(m0[i as int].0 == key@);
                    assert(meta_has_key(m0, key@));
                    assert forall|a: int, b: int|
                        0 <= a < b < meta_view(self.default_metadata@).len() implies meta_view(
                        self.default_metadata@,
                    )[a].0 != meta_view(self.default_metadata@)[b].0 by {
                        assert(m0[a].0 != m0[b].0);
                    }
                }
                return ;
            }
            i = i + 1;
        }
        let ghost m0 = meta_view(self.default_metadata@);
        self.default_metadata.push((key.to_owned(), value.to_owned()));
        proof {
            assert(meta_view(self.default_metadata@) =~= m0.push((key@, value@)));
            assert(!meta_has_key(m0, key@));
            assert forall|a: int, b: int|
                0 <= a < b < meta_view(self.default_metadata@).len() implies meta_view(
                self.default_metadata@,
            )[a].0 != meta_view(self.default_metadata@)[b].0 by {
                if b < m0.len() {
                } else {
                    assert(meta_view(self.default_metadata@)[b].0 == key@);
                }
            }
        }
    }

    /// Return whether the caller asked for a panic when a send fails.
    pub fn panic_on_error(&self) -> (r: bool)
        ensures
            r == self.panic_on_error,
    {
        self.panic_on_error
    }

    /// Ask for a panic when a send fails.
    pub fn enable_panic_on_error(&mut self)
        ensures
            *final(self) == (Logger { panic_on_error: true, ..*old(self) }),
    {
        self.panic_on_error = true;
    }

    /// Ask for failed sends to be reported, not aborted on.
    pub fn disable_panic_on_error(&mut self)
        ensures
            *final(self) == (Logger { panic_on_error: false, ..*old(self) }),
    {
        self.panic_on_error = false;
    }
}

} // verus!
