//! The event context: the information an event handler needs to act
//! on an event, and the topic-resolution rules it uses when it
//! publishes events or calls other services.
//!
//! A topic or action path may come in three shapes: fully qualified
//! (`network:service/topic`, used as is), service-qualified
//! (`service/topic`, the network id is prepended), or bare (`topic`,
//! both the network id and the own service path are prepended).

use vstd::prelude::*;
use vstd::string::StrSliceExecFns;

use crate::display::{finish, lemma_encode_utf8_concat, push_str_bytes};

verus! {

/// The character `c` occurs in `s`.
pub open spec fn has_char(s: Seq<char>, c: char) -> bool {
    exists|i: int| 0 <= i < s.len() && s[i] == c
}

/// Whether the character occurs in the string.
pub fn contains_char(s: &str, c: char) -> (r: bool)
    ensures
        r == has_char(s@, c),
{
    let n = s.unicode_len();
    let mut i: usize = 0;
    while i < n
        invariant
            n == s@.len(),
            0 <= i <= n,
            forall|j: int| 0 <= j < i ==> s@[j] != c,
        decreases n - i,
    {
        if s.get_char(i) == c {
            return true;
        }
        i += 1;
    }
    false
}

/// A parsed topic path: the network, the owning service, and the
/// action or event segment.
#[derive(Debug)]
pub struct TopicPath {
    /// The network the topic belongs to.
    pub network_id: String,
    /// The path of the service the topic belongs to.
    pub service_path: String,
    /// The action or event segment, possibly empty.
    pub action_path: String,
}

impl TopicPath {
    /// Assemble a topic path from its segments.
    pub fn new(network_id: String, service_path: String, action_path: String) -> (r: Self)
        ensures
            r.network_id == network_id,
            r.service_path == service_path,
            r.action_path == action_path,
    {
        TopicPath { network_id, service_path, action_path }
    }

    /// The action or event segment.
    pub fn action_path(&self) -> (r: String)
        ensures
            r@ == self.action_path@,
    {
        self.action_path.clone()
    }
}

impl Clone for TopicPath {
    /// Clones carry the same segments.
    fn clone(&self) -> (r: Self)
        ensures
            r == *self,
    {
        TopicPath {
            network_id: self.network_id.clone(),
            service_path: self.service_path.clone(),
            action_path: self.action_path.clone(),
        }
    }
}

/// How a topic or path names its target, given the context's own
/// network and service: fully qualified names pass through, the
/// others are completed.
pub open spec fn resolved_spec(network: Seq<char>, service: Seq<char>, topic: Seq<char>) -> Seq<
    char,
> {
    if has_char(topic, ':') {
        topic
    } else if has_char(topic, '/') {
        network + ":"@ + topic
    } else {
        network + ":"@ + service + "/"@ + topic
    }
}

/// Context for handling one event: the topic it arrived on, and the
/// resolution rules for whatever the handler publishes or requests.
#[derive(Debug)]
pub struct EventContext {
    /// Complete topic path for this event.
    pub topic_path: TopicPath,
}

impl EventContext {
    /// Create a context for the given topic path.
    pub fn new(topic_path: &TopicPath) -> (r: Self)
        ensures
            r.topic_path == *topic_path,
    {
        EventContext { topic_path: topic_path.clone() }
    }

    /// Complete a topic or action path against this context: a name
    /// with a network id is used as is; one with a service segment
    /// gets the network id; a bare name gets both the network id and
    /// the own service path.
    pub fn resolve_topic(&self, topic: &str) -> (r: String)
        ensures
            r@ == resolved_spec(self.topic_path.network_id@, self.topic_path.service_path@, topic@),
    {
        if contains_char(topic, ':') {
            return topic.to_owned();
        }
        let network = self.topic_path.network_id.as_str();
        if contains_char(topic, '/') {
            let mut out: Vec<u8> = Vec::new();
            push_str_bytes(network, &mut out);
            push_str_bytes(":", &mut out);
            push_str_bytes(topic, &mut out);
            proof {
                lemma_encode_utf8_concat(network@, ":"@);
                lemma_encode_utf8_concat(network@ + ":"@, topic@);
            }
            finish(out, Ghost(network@ + ":"@ + topic@))
        } else {
            let service = self.topic_path.service_path.as_str();
            let mut out: Vec<u8> = Vec::new();
            push_str_bytes(network, &mut out);
            push_str_bytes(":", &mut out);
            push_str_bytes(service, &mut out);
            push_str_bytes("/", &mut out);
            push_str_bytes(topic, &mut out);
            proof {
                lemma_encode_utf8_concat(network@, ":"@);
                lemma_encode_utf8_concat(network@ + ":"@, service@);
                lemma_encode_utf8_concat(network@ + ":"@ + service@, "/"@);
                lemma_encode_utf8_concat(network@ + ":"@ + service@ + "/"@, topic@);
            }
            finish(out, Ghost(network@ + ":"@ + service@ + "/"@ + topic@))
        }
    }
}

} // verus!
