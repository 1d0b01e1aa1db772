//! The search for the part of an entity that can play an animation.
//!
//! The entity that carries a peer's state is often not the one that is
//! animated: the animated mesh hangs somewhere below it. The scene is given
//! as a table, node by node, and the search walks the part of it that hangs
//! below a root with a worklist, so that a deep scene costs no call depth.
//! A node is visited before its children, the children in the order in which
//! they are listed, and all that hangs below a child before the next child.

use vstd::prelude::*;

verus! {

/// A scene as a table: for every node, by its index, the indices of its
/// children and whether it can play an animation. An index that names no
/// node is taken for no child; a node without an entry in `playable` cannot
/// play.
pub struct Hierarchy {
    pub children: Vec<Vec<usize>>,
    pub playable: Vec<bool>,
}

/// The number of entries of `marks` that are not set.
pub open spec fn unmarked(marks: Seq<bool>) -> nat
    decreases marks.len(),
{
    if marks.len() == 0 {
        0
    } else {
        unmarked(marks.drop_last()) + if marks.last() {
            0nat
        } else {
            1nat
        }
    }
}

/// Setting a mark leaves one entry fewer that is not set.
pub proof fn lemma_mark(marks: Seq<bool>, at: int)
    requires
        0 <= at < marks.len(),
        !marks[at],
    ensures
        unmarked(marks.update(at, true)) + 1 == unmarked(marks),
    decreases marks.len(),
{
    let after = marks.update(at, true);
    if at == marks.len() - 1 {
        assert(after.drop_last() =~= marks.drop_last());
    } else {
        lemma_mark(marks.drop_last(), at);
        assert(after.drop_last() =~= marks.drop_last().update(at, true));
    }
}

/// `kids` from the last to the first.
pub open spec fn reversed(kids: Seq<usize>) -> Seq<usize> {
    Seq::new(kids.len(), |i: int| kids[kids.len() - 1 - i])
}

impl Hierarchy {
    /// Whether `node` is a node that can play.
    pub open spec fn can_play(&self, node: usize) -> bool {
        &&& node < self.children@.len()
        &&& node < self.playable@.len()
        &&& self.playable@[node as int]
    }

    /// Whether `child` is a child of `parent`, both being nodes.
    pub open spec fn is_child(&self, parent: usize, child: usize) -> bool {
        &&& parent < self.children@.len()
        &&& child < self.children@.len()
        &&& self.children@[parent as int]@.contains(child)
    }

    /// Whether `path` starts at a node and goes from each node to one of its
    /// children.
    pub open spec fn is_path(&self, path: Seq<usize>) -> bool {
        &&& path.len() > 0
        &&& path[0] < self.children@.len()
        &&& forall|i: int|
            0 <= i < path.len() - 1 ==> self.is_child(#[trigger] path[i], path[i + 1])
    }

    /// Whether `to` is `from` or hangs below it.
    pub open spec fn reaches(&self, from: usize, to: usize) -> bool {
        exists|path: Seq<usize>| #[trigger]
            self.is_path(path) && path.first() == from && path.last() == to
    }

    /// Whether `node` can play and is `root` or hangs below it.
    pub open spec fn is_target(&self, root: usize, node: usize) -> bool {
        self.reaches(root, node) && self.can_play(node)
    }

    /// What the walk finds when `stack` holds the nodes still to visit, the
    /// next one last, and `marks` says which nodes have been visited: the
    /// first node visited from here on that can play. A node is visited once;
    /// its children go on the stack so that the one listed first comes next.
    pub open spec fn walk(&self, stack: Seq<usize>, marks: Seq<bool>) -> Option<usize>
        decreases unmarked(marks), stack.len(),
    {
        if stack.len() == 0 {
            None
        } else {
            let node = stack.last();
            let rest = stack.drop_last();
            if node >= self.children@.len() || node >= marks.len() || marks[node as int] {
                self.walk(rest, marks)
            } else if self.can_play(node) {
                Some(node)
            } else {
                proof {
                    lemma_mark(marks, node as int);
                }
                self.walk(
                    rest + reversed(self.children@[node as int]@),
                    marks.update(node as int, true),
                )
            }
        }
    }

    /// What the walk from `root` finds, with no node visited yet.
    pub open spec fn search(&self, root: usize) -> Option<usize> {
        self.walk(seq![root], Seq::new(self.children@.len(), |i: int| false))
    }

    /// The first node on the walk from `root` that can play. It is `root`
    /// or hangs below it; `None` means that nothing there can play.
    pub fn first_playable(&self, root: usize) -> (target: Option<usize>)
        ensures
            target == self.search(root),
            target matches Some(found) ==> self.is_target(root, found),
            target is None ==> forall|other: usize| !#[trigger] self.is_target(root, other),
    {
        let n: usize = self.children.len();
        let mut marks: Vec<bool> = Vec::new();
        while marks.len() < n
            invariant
                marks@.len() <= n,
                forall|i: int| 0 <= i < marks@.len() ==> !marks@[i],
            decreases n - marks@.len(),
        {
            marks.push(false);
        }
        let mut stack: Vec<usize> = Vec::new();
        stack.push(root);
        proof {
            assert(stack@ =~= seq![root]);
            assert(marks@ =~= Seq::new(n as nat, |i: int| false));
            assert(stack@[0] == root);
            if root < n {
                let start = seq![root];
                assert(self.is_path(start) && start.first() == root && start.last() == root);
            }
        }
        while stack.len() > 0
            invariant
                n == self.children@.len(),
                marks@.len() == n,
                self.walk(stack@, marks@) == self.search(root),
                forall|k: int|
                    0 <= k < stack@.len() && #[trigger] stack@[k] < n ==> self.reaches(
                        root,
                        stack@[k],
                    ),
                forall|node: usize|
                    node < n && marks@[node as int] ==> #[trigger] self.reaches(root, node),
                forall|node: usize|
                    node < n && marks@[node as int] ==> !#[trigger] self.can_play(node),
                forall|parent: usize, child: usize|
                    parent < n && marks@[parent as int] && #[trigger] self.is_child(parent, child)
                        ==> marks@[child as int] || stack@.contains(child),
                root < n ==> marks@[root as int] || stack@.contains(root),
            decreases unmarked(marks@), stack@.len(),
        {
            let ghost stack_before = stack@;
            let node: usize = stack.pop().unwrap();
            proof {
                assert(stack_before.last() == node);
                assert(stack@ =~= stack_before.drop_last());
                assert forall|other: usize| stack_before.contains(other) implies other == node
                    || stack@.contains(other) by {
                    let k = choose|k: int| 0 <= k < stack_before.len() && stack_before[k] == other;
                    if k < stack@.len() {
                        assert(stack@[k] == other);
                    }
                }
            }
            if node < n && !marks[node] {
                if node < self.playable.len() && self.playable[node] {
                    return Some(node);
                }
                proof {
                    lemma_mark(marks@, node as int);
                }
                marks.set(node, true);
                let kids: &Vec<usize> = &self.children[node];
                let ghost stack_popped = stack@;
                let mut left: usize = kids.len();
                while left > 0
                    invariant
                        n == self.children@.len(),
                        node < n,
                        kids@ == self.children@[node as int]@,
                        left <= kids@.len(),
                        stack@ == stack_popped + reversed(kids@).take(kids@.len() - left),
                        self.reaches(root, node),
                        forall|k: int|
                            0 <= k < stack@.len() && #[trigger] stack@[k] < n ==> self.reaches(
                                root,
                                stack@[k],
                            ),
                    decreases left,
                {
                    let ghost stack_then = stack@;
                    left = left - 1;
                    let kid: usize = kids[left];
                    stack.push(kid);
                    proof {
                        let done = kids@.len() - left - 1;
                        assert(reversed(kids@)[done] == kid);
                        assert(stack@ =~= stack_popped + reversed(kids@).take(done + 1));
                        if kid < n {
                            assert(kids@[left as int] == kid);
                            assert(self.is_child(node, kid));
                            self.lemma_step(root, node, kid);
                        }
                        assert forall|k: int|
                            0 <= k < stack@.len() && #[trigger] stack@[k] < n implies self.reaches(
                            root,
                            stack@[k],
                        ) by {
                            if k < stack_then.len() {
                                assert(stack@[k] == stack_then[k]);
                            }
                        }
                    }
                }
                proof {
                    assert(reversed(kids@).take(kids@.len() as int) =~= reversed(kids@));
                    assert forall|other: usize| stack_popped.contains(other) implies stack@.contains(
                        other,
                    ) by {
                        let k = choose|k: int| 0 <= k < stack_popped.len() && stack_popped[k] == other;
                        assert(stack@[k] == other);
                    }
                    assert forall|parent: usize, child: usize|
                        parent < n && marks@[parent as int] && #[trigger] self.is_child(
                            parent,
                            child,
                        ) implies marks@[child as int] || stack@.contains(child) by {
                        if parent == node {
                            let k = choose|k: int| 0 <= k < kids@.len() && kids@[k] == child;
                            let at = stack_popped.len() + (kids@.len() - 1 - k);
                            assert(reversed(kids@)[kids@.len() - 1 - k] == child);
                            assert(stack@[at] == child);
                        }
                    }
                }
            }
        }
        proof {
            assert forall|other: usize| !#[trigger] self.is_target(root, other) by {
                if self.reaches(root, other) {
                    let path = choose|path: Seq<usize>| #[trigger]
                        self.is_path(path) && path.first() == root && path.last() == other;
                    self.lemma_closed(marks@, path, path.len() - 1);
                    assert(!self.can_play(other));
                }
            }
        }
        None
    }

    /// A root that can play is found before anything below it, and a root
    /// that is no node finds nothing.
    pub proof fn lemma_root_first(&self, root: usize)
        ensures
            self.can_play(root) ==> self.search(root) == Some(root),
            root >= self.children@.len() ==> self.search(root).is_none(),
    {
        let start = seq![root];
        let marks = Seq::new(self.children@.len(), |i: int| false);
        assert(start.last() == root);
        assert(start.drop_last() =~= Seq::<usize>::empty());
        if root >= self.children@.len() {
            assert(self.walk(start, marks) == self.walk(start.drop_last(), marks));
        }
    }

    /// Of the children of a root that cannot play, the one listed first is
    /// looked at first: if it can play, it is found.
    pub proof fn lemma_first_child_first(&self, root: usize)
        requires
            root < self.children@.len(),
            !self.can_play(root),
            self.children@[root as int]@.len() > 0,
            self.children@[root as int]@[0] != root,
            self.can_play(self.children@[root as int]@[0]),
        ensures
            self.search(root) == Some(self.children@[root as int]@[0]),
    {
        let kids = self.children@[root as int]@;
        let start = seq![root];
        let marks = Seq::new(self.children@.len(), |i: int| false);
        let next = start.drop_last() + reversed(kids);
        let marked = marks.update(root as int, true);
        assert(start.last() == root);
        assert(self.walk(start, marks) == self.walk(next, marked));
        assert(next.last() == kids[0]);
    }

    /// A child of what hangs below `root` hangs below `root`.
    proof fn lemma_step(&self, root: usize, parent: usize, child: usize)
        requires
            self.reaches(root, parent),
            self.is_child(parent, child),
        ensures
            self.reaches(root, child),
    {
        let path = choose|path: Seq<usize>| #[trigger]
            self.is_path(path) && path.first() == root && path.last() == parent;
        let longer = path.push(child);
        assert forall|i: int| 0 <= i < longer.len() - 1 implies self.is_child(
            #[trigger] longer[i],
            longer[i + 1],
        ) by {
            if i < path.len() - 1 {
                assert(self.is_child(path[i], path[i + 1]));
            }
        }
        assert(self.is_path(longer) && longer.first() == root && longer.last() == child);
    }

    /// Marks that hold the start of a path and, with a node, its children
    /// hold the whole path.
    proof fn lemma_closed(&self, marks: Seq<bool>, path: Seq<usize>, upto: int)
        requires
            self.is_path(path),
            0 <= upto < path.len(),
            marks.len() == self.children@.len(),
            marks[path[0] as int],
            forall|parent: usize, child: usize|
                parent < marks.len() && marks[parent as int] && #[trigger] self.is_child(
                    parent,
                    child,
                ) ==> marks[child as int],
        ensures
            marks[path[upto] as int],
        decreases upto,
    {
        if upto > 0 {
            self.lemma_closed(marks, path, upto - 1);
            assert(self.is_child(path[upto - 1], path[upto - 1 + 1]));
        }
    }
}

} // verus!
