//! The mathematical model of a replication network: the nodes in the order
//! in which they joined, each with its name and what it holds.
use crate::cid::content_id;
use crate::node::{content_addressed, put, Content};
use vstd::prelude::*;

verus! {

/// The replication factor of a network of `n` nodes: half of the nodes,
/// rounded down, and at least one. An empty network has factor one, although
/// it has no node to take a copy.
pub open spec fn replication_factor(n: nat) -> nat {
    if n / 2 >= 1 {
        n / 2
    } else {
        1
    }
}

/// One node of the model: its name and the content of its store.
pub struct Member {
    pub id: Seq<char>,
    pub content: Content,
}

/// A network: its nodes in the order in which they joined.
#[verifier::ext_equal]
pub struct NetworkModel {
    pub members: Seq<Member>,
}

impl NetworkModel {
    /// The network without nodes.
    pub open spec fn empty() -> NetworkModel {
        NetworkModel { members: Seq::empty() }
    }

    /// The number of nodes.
    pub open spec fn len(self) -> nat {
        self.members.len()
    }

    /// The names of the nodes, in order.
    pub open spec fn ids(self) -> Seq<Seq<char>> {
        Seq::new(self.members.len(), |i: int| self.members[i].id)
    }

    /// No name occurs twice, and every store is content addressed.
    pub open spec fn wf(self) -> bool {
        &&& self.ids().no_duplicates()
        &&& forall|i: int|
            0 <= i < self.members.len() ==> content_addressed(#[trigger] self.members[i].content)
    }

    /// The place of the node named `id`, where one is present.
    pub open spec fn position(self, id: Seq<char>) -> int
        recommends
            self.ids().contains(id),
    {
        self.ids().index_of(id)
    }

    /// The network after a node named `id` joined with an empty store. A node
    /// of that name that is already present keeps its place and loses what it
    /// held; otherwise the new node comes last.
    pub open spec fn add_node(self, id: Seq<char>) -> NetworkModel {
        let fresh = Member { id, content: Map::empty() };
        if self.ids().contains(id) {
            NetworkModel { members: self.members.update(self.position(id), fresh) }
        } else {
            NetworkModel { members: self.members.push(fresh) }
        }
    }

    /// The network after the node named `id` left, with all that it held. The
    /// other nodes keep their order. Without such a node nothing changes.
    pub open spec fn remove_node(self, id: Seq<char>) -> NetworkModel {
        if self.ids().contains(id) {
            NetworkModel { members: self.members.remove(self.position(id)) }
        } else {
            self
        }
    }

    /// The number of nodes that take a copy when a payload is stored: the
    /// replication factor, or all nodes where there are fewer.
    pub open spec fn copies(self) -> nat {
        if replication_factor(self.len()) <= self.len() {
            replication_factor(self.len())
        } else {
            self.len()
        }
    }

    /// The network after a payload was stored: each of the first `copies()`
    /// nodes has stored it, the others are untouched.
    pub open spec fn store(self, payload: Seq<char>) -> NetworkModel {
        self.store_on_first(self.copies() as int, payload)
    }

    /// The network after each of the first `k` nodes has stored a payload.
    pub open spec fn store_on_first(self, k: int, payload: Seq<char>) -> NetworkModel {
        NetworkModel {
            members: Seq::new(
                self.members.len(),
                |i: int|
                    if i < k {
                        Member {
                            id: self.members[i].id,
                            content: put(self.members[i].content, payload),
                        }
                    } else {
                        self.members[i]
                    },
            ),
        }
    }

    /// Node `i` holds something under `cid`.
    pub open spec fn holds(self, i: int, cid: Seq<char>) -> bool {
        self.members[i].content.contains_key(cid)
    }

    /// Node `i` holds something under `cid`, and no node before it does.
    pub open spec fn is_first_holder(self, i: int, cid: Seq<char>) -> bool {
        &&& 0 <= i < self.members.len()
        &&& self.holds(i, cid)
        &&& forall|j: int| 0 <= j < i ==> !#[trigger] self.holds(j, cid)
    }

    /// The place of the first node, in order, that holds something under
    /// `cid`.
    pub open spec fn first_holder(self, cid: Seq<char>) -> Option<int> {
        if exists|i: int| self.is_first_holder(i, cid) {
            Some(choose|i: int| self.is_first_holder(i, cid))
        } else {
            None
        }
    }

    /// What a lookup of `cid` gives: the payload that the first holder keeps
    /// under it, or nothing where no node holds it.
    pub open spec fn retrieve(self, cid: Seq<char>) -> Option<Seq<char>> {
        match self.first_holder(cid) {
            Some(i) => Some(self.members[i].content[cid]),
            None => None,
        }
    }

    /// Node `i` does not hold another payload under the identifier of
    /// `payload`: no earlier payload with the same digest is in the way.
    pub open spec fn free_for(self, i: int, payload: Seq<char>) -> bool {
        self.holds(i, content_id(payload)) ==> self.members[i].content[content_id(payload)]
            == payload
    }

    /// The first holder is the node that meets `is_first_holder`: of two such
    /// nodes neither comes before the other.
    pub proof fn lemma_first_holder(self, i: int, cid: Seq<char>)
        requires
            self.is_first_holder(i, cid),
        ensures
            self.first_holder(cid) == Some(i),
    {
        let j = choose|j: int| self.is_first_holder(j, cid);
        assert(self.holds(i, cid) && self.holds(j, cid));
        assert(i == j);
    }

    /// Where no node holds `cid`, there is no first holder.
    pub proof fn lemma_no_holder(self, cid: Seq<char>)
        requires
            forall|i: int| 0 <= i < self.members.len() ==> !#[trigger] self.holds(i, cid),
        ensures
            self.first_holder(cid) is None,
    {
    }

    /// In a network without repeated names, a node is found at its own place.
    pub proof fn lemma_position(self, i: int)
        requires
            self.ids().no_duplicates(),
            0 <= i < self.members.len(),
        ensures
            self.ids().contains(self.members[i].id),
            self.position(self.members[i].id) == i,
    {
        let ids = self.ids();
        assert(ids[i] == self.members[i].id);
        let j = ids.index_of(self.members[i].id);
        assert(0 <= j < ids.len() && ids[j] == ids[i]);
    }

    /// After a node joined, the nodes present are those that were present,
    /// and the one that joined.
    pub proof fn lemma_add_node_members(self, id: Seq<char>, other: Seq<char>)
        ensures
            self.add_node(id).ids().contains(other) <==> self.ids().contains(other) || other == id,
    {
        let ids = self.ids();
        let added = self.add_node(id).ids();
        if ids.contains(id) {
            assert(added =~= ids);
        } else {
            assert(added =~= ids.push(id));
            assert(added.last() == id);
            if ids.contains(other) {
                assert(added[ids.index_of(other)] == other);
            }
        }
    }

    /// After a node left a network without repeated names, the nodes present
    /// are those that were present, without the one that left.
    pub proof fn lemma_remove_node_members(self, id: Seq<char>, other: Seq<char>)
        requires
            self.ids().no_duplicates(),
        ensures
            self.remove_node(id).ids().contains(other) <==> self.ids().contains(other) && other != id,
    {
        let ids = self.ids();
        let left = self.remove_node(id).ids();
        if ids.contains(id) {
            let at = self.position(id);
            assert(left =~= ids.remove(at));
            if ids.contains(other) && other != id {
                let i = ids.index_of(other);
                if i < at {
                    assert(left[i] == other);
                } else {
                    assert(left[i - 1] == other);
                }
            }
            if left.contains(other) {
                let j = left.index_of(other);
                if j < at {
                    assert(ids[j] == other);
                } else {
                    assert(ids[j + 1] == other);
                }
            }
        }
    }
}

} // verus!
