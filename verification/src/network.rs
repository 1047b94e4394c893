//! The replication network: named nodes, kept in the order in which they
//! joined. Payloads are copied to the first nodes and looked up from the
//! first node on.
use crate::cid::{content_id, CID};
use crate::laws::lemma_round_trip;
use crate::model::{replication_factor, Member, NetworkModel};
use crate::node::{content_addressed, Node};
use crate::text::same_text;
use vstd::prelude::*;

verus! {

/// A node together with the name under which it joined.
struct Entry {
    id: String,
    node: Node,
}

/// What storing a payload came to.
#[derive(Debug, PartialEq, Eq)]
pub struct StoreOutcome {
    /// The content identifier of the payload.
    pub cid: CID,
    /// The number of copies aimed at: the replication factor.
    pub target: usize,
    /// The number of nodes that took a copy.
    pub copies: usize,
}

impl StoreOutcome {
    /// Fewer nodes took a copy than were aimed at.
    pub fn under_replicated(&self) -> (under: bool)
        ensures
            under == (self.copies < self.target),
    {
        self.copies < self.target
    }
}

/// A payload that a lookup found, and the node that answered.
#[derive(Debug, PartialEq, Eq)]
pub struct Retrieved {
    /// The name of the first node that holds the payload.
    pub node_id: String,
    /// The payload.
    pub data: String,
}

/// A set of named nodes that replicates payloads among them.
pub struct Network {
    nodes: Vec<Entry>,
}

impl View for Network {
    type V = NetworkModel;

    closed spec fn view(&self) -> NetworkModel {
        NetworkModel {
            members: Seq::new(
                self.nodes@.len(),
                |i: int| Member { id: self.nodes@[i].id@, content: self.nodes@[i].node@ },
            ),
        }
    }
}

impl Network {
    /// The network is well formed: no name occurs twice and every store is
    /// content addressed.
    pub open spec fn wf(&self) -> bool {
        self@.wf()
    }

    /// A network without nodes.
    pub fn new() -> (network: Network)
        ensures
            network.wf(),
            network@ == NetworkModel::empty(),
    {
        Network { nodes: Vec::new() }
    }

    /// The place of the node named `node_id`, if there is one.
    fn position(&self, node_id: &str) -> (found: Option<usize>)
        requires
            self.wf(),
        ensures
            match found {
                Some(i) => self@.ids().contains(node_id@) && i == self@.position(node_id@),
                None => !self@.ids().contains(node_id@),
            },
    {
        let mut i: usize = 0;
        while i < self.nodes.len()
            invariant
                i <= self.nodes.len(),
                self.wf(),
                forall|j: int| 0 <= j < i ==> self@.members[j].id != node_id@,
            decreases self.nodes.len() - i,
        {
            if same_text(self.nodes[i].id.as_str(), node_id) {
                proof {
                    self@.lemma_position(i as int);
                }
                return Some(i);
            }
            i += 1;
        }
        None
    }

    /// The number of nodes.
    pub fn node_count(&self) -> (n: usize)
        ensures
            n == self@.len(),
    {
        self.nodes.len()
    }

    /// Lets a node named `node_id` join with an empty store. A node of that
    /// name that is already present is replaced in its place, and what it
    /// held is lost; otherwise the new node comes last.
    pub fn add_node(&mut self, node_id: &str)
        requires
            old(self).wf(),
        ensures
            final(self).wf(),
            final(self)@ == old(self)@.add_node(node_id@),
            forall|id: Seq<char>|
                #[trigger] final(self)@.ids().contains(id) <==> old(self)@.ids().contains(id) || id
                    == node_id@,
    {
        match self.position(node_id) {
            Some(i) => {
                self.nodes[i].node = Node::new();
                assert(self@.members =~= old(self)@.add_node(node_id@).members);
                assert(self@.ids() =~= old(self)@.ids());
            },
            None => {
                self.nodes.push(Entry { id: node_id.to_owned(), node: Node::new() });
                assert(self@.members =~= old(self)@.add_node(node_id@).members);
                assert(self@.ids() =~= old(self)@.ids().push(node_id@));
            },
        }
        assert forall|id: Seq<char>| #[trigger]
            self@.ids().contains(id) <==> old(self)@.ids().contains(id) || id == node_id@ by {
            old(self)@.lemma_add_node_members(node_id@, id);
        }
    }

    /// The replication factor for the present number of nodes: half of them,
    /// rounded down, and at least one.
    pub fn calculate_replication_factor(&self) -> (factor: usize)
        ensures
            factor == replication_factor(self@.len()),
            1 <= factor,
            self@.len() > 0 ==> factor <= self@.len(),
    {
        let half: usize = self.nodes.len() / 2;
        if half >= 1 {
            half
        } else {
            1
        }
    }

    /// Stores a payload on the first nodes of the network, as many as the
    /// replication factor asks for or as there are, and says how many took a
    /// copy. The content identifier is computed once, from the payload alone.
    pub fn store_with_outcome(&mut self, data: &str) -> (outcome: StoreOutcome)
        requires
            old(self).wf(),
        ensures
            final(self).wf(),
            final(self)@ == old(self)@.store(data@),
            final(self)@.ids() == old(self)@.ids(),
            outcome.cid@ == content_id(data@),
            outcome.target == replication_factor(old(self)@.len()),
            outcome.copies == old(self)@.copies(),
            old(self)@.len() >= 1 && old(self)@.free_for(0, data@) ==> final(self)@.retrieve(
                outcome.cid@,
            ) == Some(data@),
    {
        let target = self.calculate_replication_factor();
        let cid = Node::generate_cid(data);
        let mut copies: usize = 0;
        while copies < self.nodes.len() && copies < target
            invariant
                copies <= self.nodes.len(),
                copies <= target,
                self.nodes.len() == old(self).nodes.len(),
                target == replication_factor(old(self)@.len()),
                self.wf(),
                self@ == old(self)@.store_on_first(copies as int, data@),
                self@.ids() == old(self)@.ids(),
            decreases self.nodes.len() - copies,
        {
            let ghost before = self@;
            assert(self.nodes[copies as int].node@ == before.members[copies as int].content);
            self.nodes[copies].node.store_data(data);
            copies += 1;
            proof {
                let after = old(self)@.store_on_first(copies as int, data@);
                assert forall|j: int| 0 <= j < self@.members.len() implies self@.members[j]
                    == after.members[j] by {
                    assert(before.members[j] == old(self)@.store_on_first(
                        copies - 1,
                        data@,
                    ).members[j]);
                }
                assert forall|j: int| 0 <= j < self@.members.len() implies content_addressed(
                    #[trigger] self@.members[j].content,
                ) by {
                    if j != copies - 1 {
                        assert(self@.members[j].content == before.members[j].content);
                    }
                }
            }
            assert(self@.ids() =~= before.ids());
        }
        proof {
            if old(self)@.len() >= 1 && old(self)@.free_for(0, data@) {
                lemma_round_trip(old(self)@, data@);
            }
        }
        StoreOutcome { cid, target, copies }
    }

    /// Stores a payload on the first nodes of the network and returns its
    /// content identifier, however many nodes took a copy.
    pub fn store_data(&mut self, data: &str) -> (cid: CID)
        requires
            old(self).wf(),
        ensures
            final(self).wf(),
            final(self)@ == old(self)@.store(data@),
            final(self)@.ids() == old(self)@.ids(),
            cid@ == content_id(data@),
            old(self)@.len() >= 1 && old(self)@.free_for(0, data@) ==> final(self)@.retrieve(cid@)
                == Some(data@),
    {
        self.store_with_outcome(data).cid
    }

    /// Looks a content identifier up on the nodes in order and returns what
    /// the first holder keeps under it, with that node's name.
    pub fn retrieve_with_source(&self, cid: &CID) -> (found: Option<Retrieved>)
        requires
            self.wf(),
        ensures
            match found {
                Some(hit) => self@.first_holder(cid@) matches Some(i) && hit.node_id@
                    == self@.members[i].id && hit.data@ == self@.members[i].content[cid@]
                    && content_id(hit.data@) == cid@,
                None => self@.first_holder(cid@) is None,
            },
            found is None <==> forall|i: int| 0 <= i < self@.len() ==> !self@.holds(i, cid@),
    {
        let mut i: usize = 0;
        while i < self.nodes.len()
            invariant
                i <= self.nodes.len(),
                self.wf(),
                forall|j: int| 0 <= j < i ==> !#[trigger] self@.holds(j, cid@),
            decreases self.nodes.len() - i,
        {
            assert(self.nodes[i as int].node@ == self@.members[i as int].content);
            match self.nodes[i].node.retrieve_data(cid) {
                Some(data) => {
                    proof {
                        self@.lemma_first_holder(i as int, cid@);
                    }
                    return Some(Retrieved { node_id: self.nodes[i].id.clone(), data: data.clone() });
                },
                None => {},
            }
            i += 1;
        }
        proof {
            self@.lemma_no_holder(cid@);
        }
        None
    }

    /// Looks a content identifier up on the nodes in order and returns what
    /// the first holder keeps under it.
    pub fn retrieve_data(&self, cid: &CID) -> (found: Option<String>)
        requires
            self.wf(),
        ensures
            match found {
                Some(data) => self@.retrieve(cid@) == Some(data@) && content_id(data@) == cid@,
                None => self@.retrieve(cid@) is None,
            },
            found is None <==> forall|i: int| 0 <= i < self@.len() ==> !self@.holds(i, cid@),
    {
        match self.retrieve_with_source(cid) {
            Some(hit) => Some(hit.data),
            None => None,
        }
    }

    /// Takes the node named `node_id` out of the network, with all that it
    /// holds. The other nodes keep their order. Without such a node nothing
    /// changes.
    pub fn simulate_node_failure(&mut self, node_id: &str)
        requires
            old(self).wf(),
        ensures
            final(self).wf(),
            final(self)@ == old(self)@.remove_node(node_id@),
            forall|id: Seq<char>|
                #[trigger] final(self)@.ids().contains(id) <==> old(self)@.ids().contains(id) && id
                    != node_id@,
    {
        match self.position(node_id) {
            Some(i) => {
                self.nodes.remove(i);
                assert(self@.members =~= old(self)@.remove_node(node_id@).members);
                assert(self@.ids() =~= old(self)@.ids().remove(i as int));
            },
            None => {},
        }
        assert forall|id: Seq<char>| #[trigger]
            self@.ids().contains(id) <==> old(self)@.ids().contains(id) && id != node_id@ by {
            old(self)@.lemma_remove_node_members(node_id@, id);
        }
    }

    /// The store of the node named `node_id`, if there is such a node.
    pub fn node(&self, node_id: &str) -> (found: Option<&Node>)
        requires
            self.wf(),
        ensures
            match found {
                Some(node) => self@.ids().contains(node_id@) && node.wf() && node@
                    == self@.members[self@.position(node_id@)].content,
                None => !self@.ids().contains(node_id@),
            },
    {
        match self.position(node_id) {
            Some(i) => {
                assert(self.nodes[i as int].node@ == self@.members[i as int].content);
                Some(&self.nodes[i].node)
            },
            None => None,
        }
    }

    /// The names of the nodes, in the order in which they joined.
    pub fn node_ids(&self) -> (ids: Vec<String>)
        ensures
            ids@.len() == self@.len(),
            forall|i: int| 0 <= i < ids@.len() ==> ids@[i]@ == self@.ids()[i],
    {
        let mut ids: Vec<String> = Vec::new();
        let mut i: usize = 0;
        while i < self.nodes.len()
            invariant
                i <= self.nodes.len(),
                ids@.len() == i,
                forall|j: int| 0 <= j < i ==> ids@[j]@ == self@.ids()[j],
            decreases self.nodes.len() - i,
        {
            ids.push(self.nodes[i].id.clone());
            i += 1;
        }
        ids
    }
}

} // verus!
