use vstd::prelude::*;

verus! {

/// The duplicate-suppression window of a stream, as the provisioner
/// configures it on the broker: the message ids seen within the window,
/// and the log of payloads the stream stored.
pub struct DedupWindow {
    /// Client-supplied message ids seen within the window.
    pub seen: Set<Seq<u8>>,
    /// Payloads appended to the stream.
    pub log: Seq<Seq<u8>>,
}

/// One publish with a client-supplied message id: an id already seen
/// within the window stores nothing.
pub open spec fn publish_dedup(w: DedupWindow, id: Seq<u8>, payload: Seq<u8>) -> DedupWindow {
    if w.seen.contains(id) {
        w
    } else {
        DedupWindow { seen: w.seen.insert(id), log: w.log.push(payload) }
    }
}

/// Within the duplicate-suppression window, pushing again under the same
/// client-supplied message id changes nothing: the payload is stored
/// exactly once, whatever the repeat carries.
pub proof fn lemma_publish_idempotent(
    w: DedupWindow,
    id: Seq<u8>,
    payload: Seq<u8>,
    repeat: Seq<u8>,
)
    ensures
        publish_dedup(publish_dedup(w, id, payload), id, repeat) == publish_dedup(w, id, payload),
{
    assert(publish_dedup(w, id, payload).seen.contains(id));
}

} // verus!
