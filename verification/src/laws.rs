//! What holds of every store and every network, stated over the models that
//! the contracts of `Node` and `Network` use.
use crate::cid::content_id;
use crate::model::{replication_factor, NetworkModel};
use crate::node::{put, Content};
use vstd::math::{max, min};
use vstd::prelude::*;

verus! {

/// Storing is idempotent: a payload stored a second time leaves the store,
/// and so its size, as the first time left it.
pub proof fn lemma_store_twice(m: Content, payload: Seq<char>)
    ensures
        put(put(m, payload), payload) == put(m, payload),
        put(put(m, payload), payload).len() == put(m, payload).len(),
{
}

/// What a store holds under an identifier, it holds unchanged after any
/// payload was stored.
pub proof fn lemma_store_keeps(m: Content, payload: Seq<char>, cid: Seq<char>)
    requires
        m.contains_key(cid),
    ensures
        put(m, payload).contains_key(cid),
        put(m, payload)[cid] == m[cid],
{
}

/// The replication factor is at least one and at most the number of nodes,
/// or one for the empty network: it is the greater of one and half the
/// number of nodes, rounded down.
pub proof fn lemma_replication_factor_bounds(n: nat)
    ensures
        1 <= replication_factor(n) <= max(n as int, 1),
        replication_factor(n) == max(1, n as int / 2),
        n > 0 ==> replication_factor(n) == min(max(1, n as int / 2), n as int),
{
}

/// Only the empty network stores fewer copies than its replication factor
/// asks for.
pub proof fn lemma_short_of_copies_only_when_empty(net: NetworkModel)
    ensures
        net.copies() <= replication_factor(net.len()),
        net.copies() < replication_factor(net.len()) <==> net.len() == 0,
{
}

/// Storing a payload in a network with at least one node and then looking
/// its identifier up gives the payload back, unless the first node already
/// held another payload under that identifier.
pub proof fn lemma_round_trip(net: NetworkModel, payload: Seq<char>)
    requires
        net.len() >= 1,
        net.free_for(0, payload),
    ensures
        net.store(payload).retrieve(content_id(payload)) == Some(payload),
{
    let stored = net.store(payload);
    assert(stored.members[0].content == put(net.members[0].content, payload));
    stored.lemma_first_holder(0, content_id(payload));
}

/// After a payload was stored, a network of two or more nodes in which at
/// least two took a copy can lose any one of the nodes that took a copy, and
/// a lookup still gives the payload back, unless the first remaining node
/// already held another payload under that identifier.
pub proof fn lemma_survives_node_loss(net: NetworkModel, payload: Seq<char>, lost: int)
    requires
        net.wf(),
        net.len() >= 2,
        net.copies() >= 2,
        0 <= lost < net.copies(),
        net.free_for(
            if lost == 0 {
                1
            } else {
                0
            },
            payload,
        ),
    ensures
        net.store(payload).remove_node(net.members[lost].id).retrieve(content_id(payload)) == Some(
            payload,
        ),
{
    let stored = net.store(payload);
    assert(stored.ids() =~= net.ids());
    stored.lemma_position(lost);
    let rest = stored.remove_node(net.members[lost].id);
    let survivor: int = if lost == 0 {
        1
    } else {
        0
    };
    assert(rest.members[0] == stored.members[survivor]);
    rest.lemma_first_holder(0, content_id(payload));
}

/// After a payload was stored in a network of exactly one node and that node
/// was lost, a lookup of the payload's identifier finds nothing.
pub proof fn lemma_single_node_loss(net: NetworkModel, payload: Seq<char>)
    requires
        net.len() == 1,
    ensures
        net.store(payload).remove_node(net.members[0].id).retrieve(content_id(payload)) is None,
{
    let stored = net.store(payload);
    stored.lemma_position(0);
    let rest = stored.remove_node(net.members[0].id);
    assert(rest.members.len() == 0);
    rest.lemma_no_holder(content_id(payload));
}

/// The empty network has replication factor one, stays empty when a payload
/// is stored, and answers no lookup.
pub proof fn lemma_empty_network(payload: Seq<char>, cid: Seq<char>)
    ensures
        replication_factor(0) == 1,
        NetworkModel::empty().copies() == 0,
        NetworkModel::empty().store(payload) == NetworkModel::empty(),
        NetworkModel::empty().store(payload).retrieve(cid) is None,
{
    let stored = NetworkModel::empty().store(payload);
    stored.lemma_no_holder(cid);
}

} // verus!
