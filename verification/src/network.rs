//! The node registry and graph construction: external identifiers are
//! resolved to stable handles, created on first sight, and directed edges
//! are appended to the store without deduplication.
use vstd::prelude::*;
use std::collections::HashMap;
use crate::digits::label_of;
use crate::digits::label_for;
use crate::store::NetGraph;
use crate::store::STORE_CAP;
use crate::store::graph_new;
use crate::store::graph_edge_count;
use crate::store::graph_add_node;
use crate::store::graph_add_edge;
use crate::store::graph_node_count;
use crate::store::graph_render_dot;
use crate::store::graph_labels;
use crate::store::graph_edges;
use crate::store::dot_of;

verus! {

broadcast use vstd::std_specs::hash::group_hash_axioms;

/// The abstract state of an engine instance: labels in creation order,
/// edges in insertion order, and the identifier-to-handle registry.
#[verifier::ext_equal]
pub ghost struct NetModel {
    pub labels: Seq<Seq<char>>,
    pub edges: Seq<(usize, usize)>,
    pub reg: Map<usize, usize>,
}

pub open spec fn empty_model() -> NetModel {
    NetModel {
        labels: Seq::<Seq<char>>::empty(),
        edges: Seq::<(usize, usize)>::empty(),
        reg: Map::<usize, usize>::empty(),
    }
}

/// Resolving an identifier: a known identifier keeps its handle and
/// changes nothing; a new one is appended with label `label_of(id)` and
/// receives the next handle.
pub open spec fn resolve_model(m: NetModel, id: usize) -> (NetModel, usize) {
    if m.reg.contains_key(id) {
        (m, m.reg[id])
    } else {
        let h = m.labels.len() as usize;
        (
            NetModel {
                labels: m.labels.push(label_of(id as int)),
                edges: m.edges,
                reg: m.reg.insert(id, h),
            },
            h,
        )
    }
}

/// Ingesting one record: resolve the source, resolve the target, then
/// append the directed edge between the two handles.
pub open spec fn step_model(m: NetModel, from: usize, to: usize) -> NetModel {
    let r0 = resolve_model(m, from);
    let r1 = resolve_model(r0.0, to);
    NetModel { labels: r1.0.labels, edges: r1.0.edges.push((r0.1, r1.1)), reg: r1.0.reg }
}

/// Ingesting a batch of records, in order.
pub open spec fn ingest_model(m: NetModel, pairs: Seq<(usize, usize)>) -> NetModel
    decreases pairs.len(),
{
    if pairs.len() == 0 {
        m
    } else {
        step_model(ingest_model(m, pairs.drop_last()), pairs.last().0, pairs.last().1)
    }
}

/// The relationship network: a directed multigraph over nodes created on
/// first sight of their external identifier.
pub struct AmazonNetwork {
    pub(crate) graph: NetGraph,
    pub(crate) node_indices: HashMap<usize, usize>,
}

impl AmazonNetwork {
    /// The node labels, in node-creation order; the node with handle `h`
    /// stands at position `h`.
    pub closed spec fn labels(self) -> Seq<Seq<char>> {
        graph_labels(self.graph)
    }

    /// The directed edges, as handle pairs, in insertion order.
    pub closed spec fn edges(self) -> Seq<(usize, usize)> {
        graph_edges(self.graph)
    }

    /// The registry: external identifier to node handle.
    pub closed spec fn registry(self) -> Map<usize, usize> {
        self.node_indices@
    }

    /// Within the crate, the views are exactly the store's abstract state.
    pub(crate) proof fn view_facts(self)
        ensures
            self.labels() == graph_labels(self.graph),
            self.edges() == graph_edges(self.graph),
            self.registry() == self.node_indices@,
    {
    }

    pub open spec fn model(self) -> NetModel {
        NetModel { labels: self.labels(), edges: self.edges(), reg: self.registry() }
    }

    /// Well-formedness: the registry is a bijection between the
    /// identifiers seen so far and the node handles, every registered
    /// handle carries the label derived from its identifier, every edge
    /// endpoint is a live handle, and the store is within capacity.
    pub open spec fn wf(self) -> bool {
        &&& self.labels().len() <= STORE_CAP as int
        &&& self.edges().len() <= STORE_CAP as int
        &&& self.registry().dom().finite()
        &&& self.registry().dom().len() == self.labels().len()
        &&& forall|id: usize|
            #[trigger] self.registry().contains_key(id) ==> self.registry()[id]
                < self.labels().len() && self.labels()[self.registry()[id] as int] == label_of(
                id as int,
            )
        &&& forall|i: usize, j: usize|
            self.registry().contains_key(i) && self.registry().contains_key(j) && i != j
                ==> self.registry()[i] != self.registry()[j]
        &&& forall|k: int|
            0 <= k < self.edges().len() ==> (#[trigger] self.edges()[k]).0 < self.labels().len()
                && self.edges()[k].1 < self.labels().len()
    }

    /// A fresh, empty engine instance.
    pub fn new() -> (net: AmazonNetwork)
        ensures
            net.wf(),
            net.model() == empty_model(),
    {
        let net = AmazonNetwork { graph: graph_new(), node_indices: HashMap::new() };
        proof {
            assert(net.model() =~~= empty_model());
        }
        net
    }

    /// The number of nodes created so far.
    pub fn node_count(&self) -> (n: usize)
        ensures
            n == self.labels().len(),
    {
        graph_node_count(&self.graph)
    }

    /// The number of edges stored so far.
    pub fn edge_count(&self) -> (n: usize)
        ensures
            n == self.edges().len(),
    {
        graph_edge_count(&self.graph)
    }

    /// The handle for `id`: the one assigned earlier if `id` was seen
    /// before, else a freshly created node's handle.
    pub(crate) fn resolve(&mut self, id: usize) -> (h: usize)
        requires
            old(self).wf(),
            old(self).labels().len() < STORE_CAP as int,
        ensures
            final(self).wf(),
            final(self).model() == resolve_model(old(self).model(), id).0,
            h == resolve_model(old(self).model(), id).1,
            final(self).edges() == old(self).edges(),
            old(self).labels().len() <= final(self).labels().len() <= old(self).labels().len()
                + 1,
            h < final(self).labels().len(),
    {
        match self.node_indices.get(&id) {
            Some(handle) => {
                let h = *handle;
                proof {
                    assert(final(self).model() =~~= resolve_model(old(self).model(), id).0);
                }
                h
            },
            None => {
                let label = label_for(id);
                let h = graph_add_node(&mut self.graph, label);
                self.node_indices.insert(id, h);
                proof {
                    assert(final(self).model() =~~= resolve_model(old(self).model(), id).0);
                    assert(final(self).registry().dom() =~= old(self).registry().dom().insert(
                        id,
                    ));
                }
                h
            },
        }
    }

    /// Ingest a batch of already-parsed (from, to) identifier pairs, in
    /// order, resolving identifiers and appending one edge per pair.
    pub fn ingest_pairs(&mut self, pairs: &Vec<(usize, usize)>)
        requires
            old(self).wf(),
            old(self).labels().len() + 2 * pairs@.len() <= STORE_CAP as int,
            old(self).edges().len() + pairs@.len() <= STORE_CAP as int,
        ensures
            final(self).wf(),
            final(self).model() == ingest_model(old(self).model(), pairs@),
    {
        let mut idx: usize = 0;
        while idx < pairs.len()
            invariant
                self.wf(),
                idx <= pairs@.len(),
                self.model() == ingest_model(old(self).model(), pairs@.take(idx as int)),
                self.labels().len() <= old(self).labels().len() + 2 * idx,
                self.edges().len() == old(self).edges().len() + idx,
                old(self).labels().len() + 2 * pairs@.len() <= STORE_CAP as int,
                old(self).edges().len() + pairs@.len() <= STORE_CAP as int,
            decreases pairs@.len() - idx,
        {
            let pair = pairs[idx];
            let from = pair.0;
            let to = pair.1;
            let ghost m_before = self.model();
            let a = self.resolve(from);
            let b = self.resolve(to);
            graph_add_edge(&mut self.graph, a, b);
            proof {
                assert(self.model() =~~= step_model(m_before, from, to));
                assert(pairs@.take(idx + 1).drop_last() =~= pairs@.take(idx as int));
                assert(pairs@.take(idx + 1).last() == pairs@[idx as int]);
                assert(self.model() == ingest_model(old(self).model(), pairs@.take(idx + 1)));
            }
            idx = idx + 1;
        }
        proof {
            assert(pairs@.take(pairs@.len() as int) =~= pairs@);
        }
    }

    /// The graph as a textual diagram in the Dot format, nodes labelled,
    /// edges unlabelled.
    pub fn visualize_graph(&self) -> (s: String)
        ensures
            s@ == dot_of(self.labels(), self.edges()),
    {
        graph_render_dot(&self.graph)
    }
}

/// The registry is a bijection: the number of distinct external
/// identifiers seen equals the number of nodes in the store.
pub proof fn lemma_registry_bijection(net: AmazonNetwork)
    requires
        net.wf(),
    ensures
        net.registry().dom().finite(),
        net.registry().dom().len() == net.labels().len(),
{
}

/// Determinism: the abstract state after ingesting a batch is a function
/// of the batch alone, so two fresh instances fed the same records agree
/// on every part of their state.
pub proof fn lemma_ingest_deterministic(a: AmazonNetwork, b: AmazonNetwork, pairs: Seq<(usize, usize)>)
    requires
        a.model() == ingest_model(empty_model(), pairs),
        b.model() == ingest_model(empty_model(), pairs),
    ensures
        a.labels() == b.labels(),
        a.edges() == b.edges(),
        a.registry() == b.registry(),
{
}

} // verus!
