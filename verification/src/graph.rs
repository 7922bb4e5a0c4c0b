//! Index-based chain/graph: nodes live in one growable table and links are
//! integer indices into that table, never direct references. Lookup is
//! O(1) with no pointer chasing, and traversal state (a visited-marker
//! array) is supplied and owned by the caller, not the table.

use vstd::prelude::*;

verus! {

/// A graph stored as a flat node table. Every stored edge targets a
/// currently populated slot; nodes are never removed, so indices are
/// stable handles.
pub struct Graph<T> {
    data: Vec<T>,
    edges: Vec<Vec<usize>>,
}

impl<T> Graph<T> {
    /// The payloads of the nodes, by index.
    pub closed spec fn data_seq(&self) -> Seq<T> {
        self.data@
    }

    /// The adjacency lists of the nodes, by index.
    pub closed spec fn edge_seq(&self) -> Seq<Seq<usize>> {
        self.edges@.map_values(|v: Vec<usize>| v@)
    }

    /// One adjacency list per node, and every stored edge points at a
    /// populated slot.
    pub closed spec fn wf(&self) -> bool {
        &&& self.edges@.len() == self.data@.len()
        &&& forall|i: int, j: int|
            0 <= i < self.edges@.len() && 0 <= j < self.edges@[i]@.len()
                ==> (#[trigger] self.edges@[i]@[j]) < self.data@.len()
    }

    /// An empty table.
    pub fn new() -> (g: Self)
        ensures
            g.wf(),
            g.data_seq() == Seq::<T>::empty(),
            g.edge_seq() == Seq::<Seq<usize>>::empty(),
    {
        let g = Graph { data: Vec::new(), edges: Vec::new() };
        proof {
            assert(g.edge_seq() =~= Seq::<Seq<usize>>::empty());
        }
        g
    }

    /// The number of nodes in the table.
    pub fn node_count(&self) -> (n: usize)
        ensures
            n == self.data_seq().len(),
    {
        self.data.len()
    }

    /// Appends a node with no edges and returns its stable handle.
    pub fn add_node(&mut self, data: T) -> (index: usize)
        requires
            old(self).wf(),
            old(self).data_seq().len() < usize::MAX,
        ensures
            final(self).wf(),
            index == old(self).data_seq().len(),
            final(self).data_seq() == old(self).data_seq().push(data),
            final(self).edge_seq() == old(self).edge_seq().push(Seq::<usize>::empty()),
    {
        let index = self.data.len();
        self.data.push(data);
        self.edges.push(Vec::new());
        proof {
            assert(self.edge_seq() =~= old(self).edge_seq().push(Seq::<usize>::empty()));
        }
        index
    }

    /// Records an edge from `from` to `to`. If either index is out of
    /// range the call is silently ignored: the table is left exactly as it
    /// was, and in particular `neighbors(from)` does not change.
    pub fn add_edge(&mut self, from: usize, to: usize)
        requires
            old(self).wf(),
        ensures
            final(self).wf(),
            final(self).data_seq() == old(self).data_seq(),
            from < old(self).data_seq().len() && to < old(self).data_seq().len() ==> final(self).edge_seq()
                == old(self).edge_seq().update(
                from as int,
                old(self).edge_seq()[from as int].push(to),
            ),
            !(from < old(self).data_seq().len() && to < old(self).data_seq().len()) ==> final(self).edge_seq()
                == old(self).edge_seq(),
    {
        if from < self.data.len() && to < self.data.len() {
            self.edges[from].push(to);
            proof {
                assert(self.edge_seq() =~= old(self).edge_seq().update(
                    from as int,
                    old(self).edge_seq()[from as int].push(to),
                ));
            }
        }
    }

    /// The adjacency list of a node, or `None` for an index that no node
    /// occupies.
    pub fn neighbors(&self, node: usize) -> (r: Option<&Vec<usize>>)
        requires
            self.wf(),
        ensures
            node < self.data_seq().len() ==> (r matches Some(v) && v@ == self.edge_seq()[node as int]),
            node >= self.data_seq().len() ==> r is None,
    {
        if node < self.edges.len() {
            Some(&self.edges[node])
        } else {
            None
        }
    }

    /// The `j`th stored edge target of node `k`.
    pub open spec fn edge_target(&self, k: int, j: int) -> usize {
        self.edge_seq()[k][j]
    }

    /// Depth-first traversal from `start`, following stored edges. The
    /// caller supplies and owns the visited-marker array, sized to the
    /// table; the table itself keeps no traversal state. Already-marked
    /// nodes are skipped, marks are never cleared, and the returned list
    /// holds exactly the nodes this call marked, each once, in first-visit
    /// order; every edge out of a node marked by this call leads to a node
    /// that is marked afterwards.
    pub fn depth_first_from(&self, start: usize, visited: &mut Vec<bool>) -> (order: Vec<usize>)
        requires
            self.wf(),
            old(visited)@.len() == self.data_seq().len(),
            start < self.data_seq().len(),
        ensures
            final(visited)@.len() == old(visited)@.len(),
            forall|k: int| 0 <= k < old(visited)@.len() && old(visited)@[k] ==> final(visited)@[k],
            forall|i: int| 0 <= i < order@.len() ==> (#[trigger] order@[i]) < self.data_seq().len(),
            forall|i: int| 0 <= i < order@.len() ==> !old(visited)@[(#[trigger] order@[i]) as int],
            forall|i: int, j: int| 0 <= i < j < order@.len() ==> order@[i] != order@[j],
            forall|k: int|
                0 <= k < final(visited)@.len() ==> ((#[trigger] final(visited)@[k]) <==> old(
                    visited,
                )@[k] || order@.contains(k as usize)),
            !old(visited)@[start as int] ==> final(visited)@[start as int],
            forall|i: int, j: int|
                0 <= i < order@.len() && 0 <= j < self.edge_seq()[order@[i] as int].len()
                    ==> final(visited)@[(#[trigger] self.edge_target(order@[i] as int, j)) as int],
    {
        let n = self.data.len();
        let mut order: Vec<usize> = Vec::new();
        let mut stack: Vec<usize> = Vec::new();
        stack.push(start);
        proof {
            assert(stack@[0] == start);
            assert(stack@.contains(start));
        }
        let ghost mut unvisited: Set<int> = Set::new(
            |k: int| 0 <= k < visited@.len() && !visited@[k],
        );
        proof {
            vstd::set_lib::lemma_int_range(0, visited@.len() as int);
            assert(unvisited.subset_of(vstd::set_lib::set_int_range(0, visited@.len() as int)));
            vstd::set_lib::lemma_len_subset(
                unvisited,
                vstd::set_lib::set_int_range(0, visited@.len() as int),
            );
        }
        loop
            invariant
                self.wf(),
                n == self.data_seq().len(),
                visited@.len() == old(visited)@.len(),
                old(visited)@.len() == n,
                start < n,
                unvisited == Set::new(|k: int| 0 <= k < visited@.len() && !visited@[k]),
                unvisited.finite(),
                forall|k: int| 0 <= k < n && old(visited)@[k] ==> visited@[k],
                forall|i: int| 0 <= i < stack@.len() ==> (#[trigger] stack@[i]) < n,
                forall|i: int| 0 <= i < order@.len() ==> (#[trigger] order@[i]) < n,
                forall|i: int| 0 <= i < order@.len() ==> !old(visited)@[(#[trigger] order@[i]) as int],
                forall|i: int| 0 <= i < order@.len() ==> visited@[(#[trigger] order@[i]) as int],
                forall|i: int, j: int| 0 <= i < j < order@.len() ==> order@[i] != order@[j],
                forall|k: int|
                    0 <= k < n ==> ((#[trigger] visited@[k]) <==> old(visited)@[k]
                        || order@.contains(k as usize)),
                visited@[start as int] || stack@.contains(start),
                forall|k: int, j: int|
                    0 <= k < n && visited@[k] && !old(visited)@[k] && 0 <= j < self.edge_seq()[k].len()
                        ==> visited@[(#[trigger] self.edge_target(k, j)) as int]
                            || stack@.contains(self.edge_target(k, j)),
            ensures
                visited@.len() == old(visited)@.len(),
                forall|k: int| 0 <= k < n && old(visited)@[k] ==> visited@[k],
                forall|i: int| 0 <= i < order@.len() ==> (#[trigger] order@[i]) < n,
                forall|i: int| 0 <= i < order@.len() ==> !old(visited)@[(#[trigger] order@[i]) as int],
                forall|i: int, j: int| 0 <= i < j < order@.len() ==> order@[i] != order@[j],
                forall|k: int|
                    0 <= k < n ==> ((#[trigger] visited@[k]) <==> old(visited)@[k]
                        || order@.contains(k as usize)),
                visited@[start as int],
                forall|k: int, j: int|
                    0 <= k < n && visited@[k] && !old(visited)@[k] && 0 <= j < self.edge_seq()[k].len()
                        ==> visited@[(#[trigger] self.edge_target(k, j)) as int],
            decreases unvisited.len(), stack@.len(),
        {
            let ghost stack_before: Seq<usize> = stack@;
            match stack.pop() {
                None => {
                    break;
                },
                Some(node) => {
                    proof {
                        if !visited@[start as int] {
                            assert(stack_before.contains(start));
                            let i = choose|i: int|
                                0 <= i < stack_before.len() && stack_before[i] == start;
                            if i < stack_before.len() - 1 {
                                assert(stack@[i] == start);
                                assert(stack@.contains(start));
                            } else {
                                assert(node == start);
                            }
                        }
                        assert forall|k: int, j: int|
                            0 <= k < n && visited@[k] && !old(visited)@[k] && 0 <= j
                                < self.edge_seq()[k].len() && !visited@[(#[trigger] self.edge_target(
                                k,
                                j,
                            )) as int] implies stack@.contains(self.edge_target(k, j))
                            || self.edge_target(k, j) == node by {
                            let e = self.edge_target(k, j);
                            assert(stack_before.contains(e));
                            let i = choose|i: int|
                                0 <= i < stack_before.len() && stack_before[i] == e;
                            if i < stack_before.len() - 1 {
                                assert(stack@[i] == e);
                            }
                        }
                    }
                    if !visited[node] {
                        visited[node] = true;
                        let ghost order_before: Seq<usize> = order@;
                        order.push(node);
                        proof {
                            assert(unvisited.contains(node as int));
                            unvisited = unvisited.remove(node as int);
                            assert(unvisited =~= Set::new(
                                |k: int| 0 <= k < visited@.len() && !visited@[k],
                            ));
                            assert(order@ == order_before.push(node));
                            assert(order@[order@.len() - 1] == node);
                            assert forall|x: usize|
                                order@.contains(x) <==> order_before.contains(x) || x == node by {
                                vstd::seq_lib::lemma_seq_contains_after_push(
                                    order_before,
                                    node,
                                    x,
                                );
                            }
                        }
                        let ghost unvisited_snapshot: Set<int> = unvisited;
                        let neighbor_count = self.edges[node].len();
                        let mut j: usize = 0;
                        while j < neighbor_count
                            invariant
                                self.wf(),
                                n == self.data_seq().len(),
                                node < n,
                                neighbor_count == self.edge_seq()[node as int].len(),
                                j <= neighbor_count,
                                unvisited == unvisited_snapshot,
                                visited@[node as int],
                                !old(visited)@[node as int],
                                forall|i: int| 0 <= i < stack@.len() ==> (#[trigger] stack@[i]) < n,
                                visited@[start as int] || stack@.contains(start),
                                forall|k: int, jj: int|
                                    0 <= k < n && visited@[k] && !old(visited)@[k] && k != node
                                        && 0 <= jj < self.edge_seq()[k].len()
                                        ==> visited@[(#[trigger] self.edge_target(k, jj)) as int]
                                            || stack@.contains(self.edge_target(k, jj)),
                                forall|jj: int|
                                    0 <= jj < j ==> visited@[(#[trigger] self.edge_target(
                                        node as int,
                                        jj,
                                    )) as int] || stack@.contains(self.edge_target(node as int, jj)),
                            decreases neighbor_count - j,
                        {
                            let target = self.edges[node][j];
                            let ghost stack_snap: Seq<usize> = stack@;
                            stack.push(target);
                            proof {
                                assert(stack@[stack@.len() - 1] == target);
                                assert forall|x: usize| stack_snap.contains(x) implies stack@.contains(
                                    x,
                                ) by {
                                    let i = choose|i: int|
                                        0 <= i < stack_snap.len() && stack_snap[i] == x;
                                    assert(stack@[i] == x);
                                }
                            }
                            j = j + 1;
                        }
                    }
                },
            }
        }
        order
    }

    /// The payload of a node, or `None` for an index that no node
    /// occupies.
    pub fn get_data(&self, node: usize) -> (r: Option<&T>)
        ensures
            node < self.data_seq().len() ==> r == Some(&self.data_seq()[node as int]),
            node >= self.data_seq().len() ==> r is None,
    {
        if node < self.data.len() {
            Some(&self.data[node])
        } else {
            None
        }
    }
}

} // verus!
