//! Read-only degree statistics over a built network. "Degree" throughout
//! means out-degree: the number of stored edges whose source is the node.
use vstd::prelude::*;
use std::collections::HashMap;
use crate::network::AmazonNetwork;
use crate::store::edge_sources;
use crate::store::graph_out_degree;
use crate::counting::count_eq;
use crate::counting::bucket_sum;
use crate::counting::map_sum_upto;
use crate::counting::lemma_count_eq_bounds;
use crate::counting::lemma_count_eq_push;
use crate::counting::lemma_bucket_sum_total;
use crate::counting::lemma_bucket_sum_bounds;
use crate::counting::lemma_map_sum_matches_buckets;
use crate::NetworkError;
use crate::Ratio;

verus! {

broadcast use vstd::std_specs::hash::group_hash_axioms;

impl AmazonNetwork {
    /// The out-degree of the node with handle `h`.
    pub open spec fn out_degree_spec(self, h: int) -> int {
        count_eq(edge_sources(self.edges()), h)
    }

    /// All out-degrees, by handle.
    pub open spec fn degree_seq(self) -> Seq<int> {
        Seq::new(self.labels().len(), |h: int| self.out_degree_spec(h))
    }

    /// The sum of the out-degrees of the nodes with handles below `k`.
    pub open spec fn degree_sum(self, k: int) -> int {
        bucket_sum(edge_sources(self.edges()), k)
    }

    /// The out-degree of one node.
    pub fn out_degree(&self, h: usize) -> (d: usize)
        requires
            self.wf(),
            h < self.labels().len(),
        ensures
            d as int == self.out_degree_spec(h as int),
    {
        proof {
            self.view_facts();
        }
        graph_out_degree(&self.graph, h)
    }

    /// The degree distribution: for each degree value that occurs, how
    /// many nodes have exactly that out-degree. The values sum to the
    /// node count: every node lands in exactly one bucket.
    pub fn calculate_degree_distribution(&self) -> (dist: HashMap<usize, usize>)
        requires
            self.wf(),
        ensures
            forall|d: usize|
                #[trigger] dist@.contains_key(d) <==> count_eq(self.degree_seq(), d as int) > 0,
            forall|d: usize|
                #[trigger] dist@.contains_key(d) ==> dist@[d] as int == count_eq(
                    self.degree_seq(),
                    d as int,
                ),
            map_sum_upto(dist@, self.edges().len() as int + 1) == self.labels().len(),
    {
        let n = self.node_count();
        let mut dist: HashMap<usize, usize> = HashMap::new();
        let mut h: usize = 0;
        while h < n
            invariant
                self.wf(),
                n == self.labels().len(),
                h <= n,
                forall|d: usize|
                    #[trigger] dist@.contains_key(d) <==> count_eq(
                        self.degree_seq().take(h as int),
                        d as int,
                    ) > 0,
                forall|d: usize|
                    #[trigger] dist@.contains_key(d) ==> dist@[d] as int == count_eq(
                        self.degree_seq().take(h as int),
                        d as int,
                    ),
            decreases n - h,
        {
            let deg = self.out_degree(h);
            proof {
                assert(self.degree_seq().take(h + 1).drop_last() =~= self.degree_seq().take(
                    h as int,
                ));
                assert(self.degree_seq().take(h + 1).last() == deg as int);
                lemma_count_eq_push(self.degree_seq().take(h as int), deg as int, deg as int);
                lemma_count_eq_bounds(self.degree_seq().take(h as int), deg as int);
            }
            let bucket = match dist.get(&deg) {
                Some(c) => *c + 1,
                None => 1,
            };
            dist.insert(deg, bucket);
            proof {
                assert forall|d: usize| #[trigger]
                    dist@.contains_key(d) <==> count_eq(
                        self.degree_seq().take(h + 1),
                        d as int,
                    ) > 0 by {
                    lemma_count_eq_push(self.degree_seq().take(h as int), deg as int, d as int);
                    lemma_count_eq_bounds(self.degree_seq().take(h as int), d as int);
                }
                assert forall|d: usize| #[trigger]
                    dist@.contains_key(d) implies dist@[d] as int == count_eq(
                    self.degree_seq().take(h + 1),
                    d as int,
                ) by {
                    lemma_count_eq_push(self.degree_seq().take(h as int), deg as int, d as int);
                }
            }
            h = h + 1;
        }
        proof {
            assert(self.degree_seq().take(n as int) =~= self.degree_seq());
            let bound = self.edges().len() as int + 1;
            assert forall|v: int|
                0 <= v < bound implies (if dist@.contains_key(v as usize) {
                dist@[v as usize] as int
            } else {
                0int
            }) == #[trigger] count_eq(self.degree_seq(), v) by {
                lemma_count_eq_bounds(self.degree_seq(), v);
            }
            assert forall|i: int|
                0 <= i < self.degree_seq().len() implies 0 <= #[trigger] self.degree_seq()[i]
                < bound by {
                lemma_count_eq_bounds(edge_sources(self.edges()), i);
            }
            lemma_map_sum_matches_buckets(dist@, self.degree_seq(), bound);
            lemma_bucket_sum_total(self.degree_seq(), bound);
        }
        dist
    }

    /// The average out-degree: the sum of all out-degrees over the node
    /// count, as an exact ratio; zero (as 0/1) on the empty graph. The
    /// numerator always equals the number of stored edges.
    pub fn calculate_average_degree(&self) -> (avg: Ratio)
        requires
            self.wf(),
        ensures
            self.labels().len() == 0 ==> avg == (Ratio { num: 0, den: 1 }),
            self.labels().len() > 0 ==> avg.num as int == self.degree_sum(self.labels().len() as int)
                && avg.den == self.labels().len(),
            self.labels().len() > 0 ==> avg.num == self.edges().len(),
    {
        let n = self.node_count();
        if n == 0 {
            return Ratio { num: 0, den: 1 };
        }
        let mut total: usize = 0;
        let mut h: usize = 0;
        while h < n
            invariant
                self.wf(),
                n == self.labels().len(),
                0 < n,
                h <= n,
                total as int == self.degree_sum(h as int),
                total <= self.edges().len(),
            decreases n - h,
        {
            let deg = self.out_degree(h);
            proof {
                lemma_bucket_sum_bounds(edge_sources(self.edges()), h + 1);
                assert(self.degree_sum(h + 1) == self.degree_sum(h as int) + self.out_degree_spec(
                    h as int,
                ));
                assert(edge_sources(self.edges()).len() == self.edges().len());
            }
            total = total + deg;
            h = h + 1;
        }
        proof {
            assert forall|i: int|
                0 <= i < edge_sources(self.edges()).len() implies 0 <= #[trigger] edge_sources(
                self.edges(),
            )[i] < n as int by {
                assert(self.edges()[i].0 < self.labels().len());
            }
            lemma_bucket_sum_total(edge_sources(self.edges()), n as int);
        }
        Ratio { num: total, den: n }
    }

    /// The degree centrality of each node: its out-degree over the highest
    /// degree possible in a simple graph, the node count minus one. On a
    /// graph with fewer than two nodes the denominator would not be
    /// positive, and the query is refused instead of producing a number.
    pub fn calculate_degree_centrality(&self) -> (r: Result<HashMap<usize, Ratio>, NetworkError>)
        requires
            self.wf(),
        ensures
            r is Err <==> self.labels().len() <= 1,
            r matches Err(e) ==> e == NetworkError::InsufficientGraphSize,
            r matches Ok(cent) ==> {
                &&& forall|h: usize| #[trigger] cent@.contains_key(h) <==> h < self.labels().len()
                &&& forall|h: usize|
                    #[trigger] cent@.contains_key(h) ==> cent@[h].num as int
                        == self.out_degree_spec(h as int) && cent@[h].den as int == self.labels().len()
                        - 1
            },
    {
        let n = self.node_count();
        if n <= 1 {
            return Err(NetworkError::InsufficientGraphSize);
        }
        let den = n - 1;
        let mut cent: HashMap<usize, Ratio> = HashMap::new();
        let mut h: usize = 0;
        while h < n
            invariant
                self.wf(),
                n == self.labels().len(),
                1 < n,
                den == n - 1,
                h <= n,
                forall|k: usize| #[trigger] cent@.contains_key(k) <==> k < h,
                forall|k: usize|
                    #[trigger] cent@.contains_key(k) ==> cent@[k].num as int
                        == self.out_degree_spec(k as int) && cent@[k].den == den,
            decreases n - h,
        {
            let deg = self.out_degree(h);
            cent.insert(h, Ratio { num: deg, den });
            h = h + 1;
        }
        Ok(cent)
    }

    /// The nodes with the highest and the lowest out-degree, or nothing on
    /// an empty graph. Ties go to the node created first: the returned
    /// maximum has a strictly higher degree than every earlier node, and
    /// the returned minimum a strictly lower one.
    pub fn nodes_with_extreme_degrees(&self) -> (r: Option<(usize, usize)>)
        requires
            self.wf(),
        ensures
            r is Some <==> self.labels().len() > 0,
            r matches Some(pair) ==> {
                &&& pair.0 < self.labels().len()
                &&& pair.1 < self.labels().len()
                &&& forall|h: int|
                    0 <= h < self.labels().len() ==> #[trigger] self.out_degree_spec(h)
                        <= self.out_degree_spec(pair.0 as int)
                &&& forall|h: int|
                    0 <= h < pair.0 ==> #[trigger] self.out_degree_spec(h) < self.out_degree_spec(
                        pair.0 as int,
                    )
                &&& forall|h: int|
                    0 <= h < self.labels().len() ==> #[trigger] self.out_degree_spec(h)
                        >= self.out_degree_spec(pair.1 as int)
                &&& forall|h: int|
                    0 <= h < pair.1 ==> #[trigger] self.out_degree_spec(h) > self.out_degree_spec(
                        pair.1 as int,
                    )
            },
    {
        let n = self.node_count();
        if n == 0 {
            return None;
        }
        let mut max_h: usize = 0;
        let mut max_d: usize = self.out_degree(0);
        let mut min_h: usize = 0;
        let mut min_d: usize = max_d;
        let mut h: usize = 1;
        while h < n
            invariant
                self.wf(),
                n == self.labels().len(),
                0 < n,
                1 <= h <= n,
                max_h < h,
                min_h < h,
                max_d as int == self.out_degree_spec(max_h as int),
                min_d as int == self.out_degree_spec(min_h as int),
                forall|k: int| 0 <= k < h ==> #[trigger] self.out_degree_spec(k) <= max_d as int,
                forall|k: int| 0 <= k < max_h ==> #[trigger] self.out_degree_spec(k) < max_d as int,
                forall|k: int| 0 <= k < h ==> #[trigger] self.out_degree_spec(k) >= min_d as int,
                forall|k: int| 0 <= k < min_h ==> #[trigger] self.out_degree_spec(k) > min_d as int,
            decreases n - h,
        {
            let d = self.out_degree(h);
            if d > max_d {
                max_h = h;
                max_d = d;
            }
            if d < min_d {
                min_h = h;
                min_d = d;
            }
            h = h + 1;
        }
        Some((max_h, min_h))
    }

    /// The nodes with the most and the fewest connections. Connections are
    /// counted as out-degree, so this is the same query as
    /// `nodes_with_extreme_degrees`, under the name the reporting side
    /// uses.
    pub fn nodes_with_most_and_least_connections(&self) -> (r: Option<(usize, usize)>)
        requires
            self.wf(),
        ensures
            r is Some <==> self.labels().len() > 0,
            r matches Some(pair) ==> {
                &&& pair.0 < self.labels().len()
                &&& pair.1 < self.labels().len()
                &&& forall|h: int|
                    0 <= h < self.labels().len() ==> #[trigger] self.out_degree_spec(h)
                        <= self.out_degree_spec(pair.0 as int)
                &&& forall|h: int|
                    0 <= h < pair.0 ==> #[trigger] self.out_degree_spec(h) < self.out_degree_spec(
                        pair.0 as int,
                    )
                &&& forall|h: int|
                    0 <= h < self.labels().len() ==> #[trigger] self.out_degree_spec(h)
                        >= self.out_degree_spec(pair.1 as int)
                &&& forall|h: int|
                    0 <= h < pair.1 ==> #[trigger] self.out_degree_spec(h) > self.out_degree_spec(
                        pair.1 as int,
                    )
            },
    {
        self.nodes_with_extreme_degrees()
    }
}

/// Tie-break determinism: among any nodes sharing the maximum out-degree,
/// the selection returned by `nodes_with_extreme_degrees` is the one whose
/// handle was created earliest — it can come no later than any node tied
/// for the maximum.
pub proof fn lemma_tie_break_first(net: AmazonNetwork, max_h: int, i: int, j: int)
    requires
        net.wf(),
        0 <= i < j < net.labels().len(),
        net.out_degree_spec(i) == net.out_degree_spec(j),
        forall|k: int|
            0 <= k < net.labels().len() ==> #[trigger] net.out_degree_spec(k)
                <= net.out_degree_spec(i),
        0 <= max_h < net.labels().len(),
        forall|k: int|
            0 <= k < net.labels().len() ==> #[trigger] net.out_degree_spec(k)
                <= net.out_degree_spec(max_h),
        forall|k: int|
            0 <= k < max_h ==> #[trigger] net.out_degree_spec(k) < net.out_degree_spec(max_h),
    ensures
        max_h <= i,
{
    if max_h > i {
        assert(net.out_degree_spec(i) < net.out_degree_spec(max_h));
        assert(net.out_degree_spec(max_h) <= net.out_degree_spec(i));
    }
}

} // verus!
