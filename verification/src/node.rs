//! A single node's content store: a map from content identifier to payload.
use crate::cid::{content_id, digest_of, hex16_of, CID};
use vstd::hash_map::StringHashMap;
use vstd::prelude::*;

verus! {

/// What a store holds: payloads by content identifier.
pub type Content = Map<Seq<char>, Seq<char>>;

/// Every identifier in `m` is the content identifier of the payload kept
/// under it, and `m` has finitely many entries.
pub open spec fn content_addressed(m: Content) -> bool {
    &&& m.dom().finite()
    &&& forall|k: Seq<char>| #[trigger] m.contains_key(k) ==> content_id(m[k]) == k
}

/// `m` after a payload was stored: the payload is entered under its content
/// identifier unless that identifier is already taken, in which case `m` is
/// left as it is.
pub open spec fn put(m: Content, payload: Seq<char>) -> Content {
    if m.contains_key(content_id(payload)) {
        m
    } else {
        m.insert(content_id(payload), payload)
    }
}

/// The content store of one node.
pub struct Node {
    storage: StringHashMap<String>,
}

impl View for Node {
    type V = Content;

    closed spec fn view(&self) -> Content {
        self.storage@.map_values(|payload: String| payload@)
    }
}

impl Node {
    /// The store is well formed: it is finite, and every payload is kept
    /// under its own content identifier.
    pub open spec fn wf(&self) -> bool {
        content_addressed(self@)
    }

    /// An empty store.
    pub fn new() -> (node: Node)
        ensures
            node.wf(),
            node@ == Map::<Seq<char>, Seq<char>>::empty(),
    {
        Node { storage: StringHashMap::new() }
    }

    /// The content identifier of a payload. It depends on the payload alone.
    pub fn generate_cid(data: &str) -> (cid: CID)
        ensures
            cid@ == content_id(data@),
    {
        hex16_of(digest_of(data))
    }

    /// Stores a payload under its content identifier and returns the
    /// identifier. Where the identifier is already present the store is left
    /// unchanged.
    pub fn store_data(&mut self, data: &str) -> (cid: CID)
        requires
            old(self).wf(),
        ensures
            final(self).wf(),
            cid@ == content_id(data@),
            final(self)@ == put(old(self)@, data@),
    {
        let cid = Self::generate_cid(data);
        if !self.storage.contains_key(cid.as_str()) {
            self.storage.insert(cid.clone(), data.to_owned());
            assert(self@ =~= old(self)@.insert(cid@, data@));
        }
        cid
    }

    /// Looks a content identifier up.
    pub fn retrieve_data(&self, cid: &CID) -> (found: Option<&String>)
        requires
            self.wf(),
        ensures
            match found {
                Some(payload) => self@.contains_key(cid@) && payload@ == self@[cid@]
                    && content_id(payload@) == cid@,
                None => !self@.contains_key(cid@),
            },
    {
        self.storage.get(cid.as_str())
    }

    /// The number of payloads held.
    pub fn len(&self) -> (n: usize)
        ensures
            n == self@.len(),
    {
        assert(self@.dom() =~= self.storage@.dom());
        self.storage.len()
    }
}

} // verus!
