use vstd::prelude::*;

verus! {

/// A forest of items linked to their parents, from which the path to any item
/// can be read back.
#[derive(Debug)]
pub struct Backtracker<T> {
    nodes: Vec<Node<T>>,
}

/// An item and the index of its parent.
#[derive(Debug)]
pub struct Node<T> {
    pub parent: Option<usize>,
    pub item: T,
}

/// The items from the root down to node `index`, following parent links
/// while they point at earlier nodes.
pub open spec fn spec_path<T>(nodes: Seq<(Option<usize>, T)>, index: int) -> Seq<T>
    decreases index + 1,
{
    if index < 0 || index >= nodes.len() {
        Seq::empty()
    } else {
        match nodes[index].0 {
            Some(p) => if (p as int) < index {
                spec_path(nodes, p as int).push(nodes[index].1)
            } else {
                seq![nodes[index].1]
            },
            None => seq![nodes[index].1],
        }
    }
}

impl<T: Copy> Backtracker<T> {
    /// The nodes as (parent, item) pairs.
    pub closed spec fn spec_nodes(&self) -> Seq<(Option<usize>, T)> {
        self.nodes@.map_values(|n: Node<T>| (n.parent, n.item))
    }

    pub closed spec fn wf(&self) -> bool {
        forall|i: int|
            0 <= i < self.nodes@.len() ==> match (#[trigger] self.nodes@[i]).parent {
                Some(p) => (p as int) < i,
                None => true,
            }
    }

    pub fn new() -> (r: Backtracker<T>)
        ensures
            r.wf(),
            r.spec_nodes() == Seq::<(Option<usize>, T)>::empty(),
    {
        let r = Backtracker { nodes: Vec::new() };
        assert(r.spec_nodes() =~= Seq::<(Option<usize>, T)>::empty());
        r
    }

    /// Adds `item` below `parent` and returns its index.
    pub fn push(&mut self, parent: Option<usize>, item: T) -> (r: usize)
        requires
            old(self).wf(),
            match parent {
                Some(p) => p < old(self).spec_nodes().len(),
                None => true,
            },
        ensures
            final(self).wf(),
            r == old(self).spec_nodes().len(),
            final(self).spec_nodes() == old(self).spec_nodes().push((parent, item)),
    {
        let index = self.nodes.len();
        self.nodes.push(Node { parent, item });
        assert(self.spec_nodes() =~= old(self).spec_nodes().push((parent, item)));
        index
    }

    /// The items on the path from the root to node `index`, root first.
    pub fn backtrack(&self, index: usize) -> (r: Vec<T>)
        requires
            self.wf(),
        ensures
            r@ == spec_path(self.spec_nodes(), index as int),
    {
        let ghost nodes = self.spec_nodes();
        let mut items: Vec<T> = Vec::new();
        let mut next_index: Option<usize> = Some(index);
        while next_index.is_some() && next_index.unwrap() < self.nodes.len()
            invariant
                self.wf(),
                nodes == self.spec_nodes(),
                spec_path(nodes, index as int) == match next_index {
                    Some(i) => spec_path(nodes, i as int),
                    None => Seq::empty(),
                } + items@.reverse(),
                next_index matches Some(i) ==> i <= index,
            decreases
                match next_index {
                    Some(i) => i + 1,
                    None => 0,
                },
        {
            let i = next_index.unwrap();
            let node = &self.nodes[i];
            let ghost before = items@;
            items.push(node.item);
            proof {
                assert(items@.reverse() =~= seq![node.item] + before.reverse());
            }
            next_index = node.parent;
            proof {
                assert(nodes[i as int] == (node.parent, node.item));
                match node.parent {
                    Some(p) => {
                        assert(spec_path(nodes, i as int) == spec_path(nodes, p as int).push(node.item));
                        assert(spec_path(nodes, p as int).push(node.item) + before.reverse()
                            =~= spec_path(nodes, p as int) + items@.reverse());
                    },
                    None => {
                        assert(spec_path(nodes, i as int) == seq![node.item]);
                        assert(seq![node.item] + before.reverse() =~= Seq::<T>::empty() + items@.reverse());
                    },
                }
            }
        }
        proof {
            match next_index {
                Some(i) => {
                    assert(spec_path(nodes, i as int) == Seq::<T>::empty());
                },
                None => {},
            }
            assert(spec_path(nodes, index as int) =~= items@.reverse());
        }
        let mut path: Vec<T> = Vec::new();
        let mut k = items.len();
        while k > 0
            invariant
                k <= items@.len(),
                path@ == items@.subrange(k as int, items@.len() as int).reverse(),
            decreases k,
        {
            k -= 1;
            path.push(items[k]);
            proof {
                assert(items@.subrange(k as int, items@.len() as int).reverse() =~= items@.subrange(
                    k + 1,
                    items@.len() as int,
                ).reverse().push(items@[k as int]));
            }
        }
        assert(items@.subrange(0, items@.len() as int) =~= items@);
        path
    }
}

} // verus!
