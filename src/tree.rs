use vstd::prelude::*;

verus! {

/// An append-only tree whose nodes refer to each other by index.
#[derive(Debug)]
pub struct Arena<T> {
    pub nodes: Vec<Node<T>>,
}

/// A node of an `Arena`.
#[derive(Debug)]
pub struct Node<T> {
    pub parent: Option<usize>,
    pub children: Vec<usize>,
    pub state: T,
}

impl<T> Arena<T> {
    /// The shape of the tree: a root at index 0 without a parent, every other
    /// node below a parent of smaller index, and children lists that match the
    /// parent links.
    pub open spec fn wf(&self) -> bool {
        &&& self.nodes@.len() >= 1
        &&& self.nodes@[0].parent is None
        &&& forall|i: int|
            0 < i < self.nodes@.len() ==> (#[trigger] self.nodes@[i]).parent is Some
                && self.nodes@[i].parent->0 < i
        &&& forall|i: int, k: int|
            0 <= i < self.nodes@.len() && 0 <= k < self.nodes@[i].children@.len() ==> {
                let c = #[trigger] self.nodes@[i].children@[k];
                &&& i < c < self.nodes@.len()
                &&& self.nodes@[c as int].parent == Some(i as usize)
            }
    }

    pub fn new(initial_state: T) -> (r: Arena<T>)
        ensures
            r.wf(),
            r.nodes@.len() == 1,
            r.nodes@[0].state == initial_state,
            r.nodes@[0].children@.len() == 0,
    {
        let initial_node = Node { parent: None, children: Vec::new(), state: initial_state };
        let mut nodes = Vec::new();
        nodes.push(initial_node);
        Arena { nodes }
    }

    /// Appends `state` as a new child of `parent_index` and returns its index.
    pub fn insert(&mut self, parent_index: usize, state: T) -> (r: usize)
        requires
            old(self).wf(),
            parent_index < old(self).nodes@.len(),
            old(self).nodes@.len() < usize::MAX,
        ensures
            final(self).wf(),
            r == old(self).nodes@.len(),
            final(self).nodes@.len() == old(self).nodes@.len() + 1,
            final(self).nodes@[r as int].parent == Some(parent_index),
            final(self).nodes@[r as int].children@.len() == 0,
            final(self).nodes@[r as int].state == state,
            final(self).nodes@[parent_index as int].children@ == old(self).nodes@[parent_index as int].children@.push(r),
            final(self).nodes@[parent_index as int].parent == old(self).nodes@[parent_index as int].parent,
            final(self).nodes@[parent_index as int].state == old(self).nodes@[parent_index as int].state,
            forall|i: int|
                0 <= i < old(self).nodes@.len() && i != parent_index ==> #[trigger] final(self).nodes@[i]
                    == old(self).nodes@[i],
    {
        let index = self.nodes.len();
        let node = Node { parent: Some(parent_index), children: Vec::new(), state };
        let parent = self.get_mut(parent_index);
        parent.children.push(index);
        self.nodes.push(node);
        proof {
            let n = self.nodes@;
            assert forall|i: int, k: int|
                0 <= i < n.len() && 0 <= k < n[i].children@.len() implies {
                    let c = #[trigger] n[i].children@[k];
                    &&& i < c < n.len()
                    &&& n[c as int].parent == Some(i as usize)
                } by {
                if i == parent_index as int && k == n[i].children@.len() - 1 {
                } else if i < old(self).nodes@.len() {
                    assert(n[i].children@[k] == old(self).nodes@[i].children@[k]);
                }
            }
        }
        index
    }

    pub fn get(&self, index: usize) -> (r: &Node<T>)
        requires
            index < self.nodes@.len(),
        ensures
            *r == self.nodes@[index as int],
    {
        &self.nodes[index]
    }

    pub fn get_mut(&mut self, index: usize) -> (r: &mut Node<T>)
        requires
            index < old(self).nodes@.len(),
        ensures
            *r == old(self).nodes@[index as int],
            final(self).nodes@ == old(self).nodes@.update(index as int, *final(r)),
    {
        &mut self.nodes[index]
    }
}

} // verus!
