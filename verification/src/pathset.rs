//! Sets of paths, in the order of their components.

use vstd::prelude::*;

use crate::path::precedes;

verus! {

/// Whether two paths have the same components.
pub open spec fn same_path(left: Seq<u8>, right: Seq<u8>) -> bool {
    crate::path::components_of(left) == crate::path::components_of(right)
}

/// Whether paths are listed in order, each once.
pub open spec fn paths_ascend(paths: Seq<Seq<u8>>) -> bool {
    forall|left: int, right: int|
        0 <= left < right < paths.len() ==> crate::path::path_before(paths[left], paths[right])
}

/// The bytes of some paths.
pub open spec fn path_views(paths: Seq<Vec<u8>>) -> Seq<Seq<u8>> {
    paths.map_values(|path: Vec<u8>| path@)
}

/// Whether a list holds a path with the same components.
pub open spec fn holds_path(paths: Seq<Seq<u8>>, path: Seq<u8>) -> bool {
    exists|at: int| 0 <= at < paths.len() && same_path(#[trigger] paths[at], path)
}

/// The list with a path put in its place, unless one with the same components is there.
pub open spec fn with_path(paths: Seq<Seq<u8>>, path: Seq<u8>) -> Seq<Seq<u8>>
    decreases paths.len(),
{
    if paths.len() == 0 {
        seq![path]
    } else if same_path(paths[0], path) {
        paths
    } else if crate::path::path_before(path, paths[0]) {
        seq![path] + paths
    } else {
        seq![paths[0]] + with_path(paths.drop_first(), path)
    }
}

proof fn lemma_with_path(paths: Seq<Seq<u8>>, path: Seq<u8>, to: int)
    requires
        0 <= to <= paths.len(),
        forall|at: int| 0 <= at < to ==> crate::path::path_before(#[trigger] paths[at], path),
        to < paths.len() ==> same_path(paths[to], path) || crate::path::path_before(
            path,
            paths[to],
        ),
    ensures
        with_path(paths, path) == if to < paths.len() && same_path(paths[to], path) {
            paths
        } else {
            paths.insert(to, path)
        },
    decreases to,
{
    let new = crate::path::components_of(path);
    if to == 0 {
        if paths.len() > 0 {
            crate::path::lemma_components_order(new, new, new);
        }
        assert(seq![path] + paths =~= paths.insert(0, path));
        assert(paths.len() == 0 ==> seq![path] =~= paths.insert(0, path));
    } else {
        let rest = paths.drop_first();
        let first = crate::path::components_of(paths[0]);
        assert(crate::path::path_before(paths[0], path));
        crate::path::lemma_components_order(first, new, first);
        crate::path::lemma_components_order(new, new, new);
        assert forall|at: int| 0 <= at < to - 1 implies crate::path::path_before(
            #[trigger] rest[at],
            path,
        ) by {
            assert(rest[at] == paths[at + 1]);
        }
        if to < paths.len() {
            assert(rest[to - 1] == paths[to]);
        }
        lemma_with_path(rest, path, to - 1);
        assert(paths =~= seq![paths[0]] + rest);
        assert(seq![paths[0]] + rest.insert(to - 1, path) =~= paths.insert(to, path));
    }
}

/// A set of paths. Paths with the same components count as one.
#[derive(Debug)]
pub struct PathSet {
    paths: Vec<Vec<u8>>,
}

impl View for PathSet {
    type V = Seq<Seq<u8>>;

    closed spec fn view(&self) -> Seq<Seq<u8>> {
        path_views(self.paths@)
    }
}

impl PathSet {
    #[verifier::type_invariant]
    spec fn in_order(self) -> bool {
        paths_ascend(path_views(self.paths@))
    }

    pub fn new() -> (set: PathSet)
        ensures
            set@ == Seq::<Seq<u8>>::empty(),
    {
        let paths: Vec<Vec<u8>> = Vec::new();
        assert(path_views(paths@) =~= Seq::<Seq<u8>>::empty());
        PathSet { paths }
    }

    /// Adds a path, unless one with the same components is there.
    pub fn insert(&mut self, path: Vec<u8>) -> (added: bool)
        ensures
            added == !holds_path(old(self)@, path@),
            paths_ascend(final(self)@),
            final(self)@ == with_path(old(self)@, path@),
    {
        proof {
            use_type_invariant(&*self);
        }
        let ghost before = path_views(self.paths@);
        let mut paths: Vec<Vec<u8>> = Vec::new();
        std::mem::swap(&mut paths, &mut self.paths);
        let mut to: usize = 0;
        while to < paths.len() && precedes(paths[to].as_slice(), path.as_slice())
            invariant
                to <= paths@.len(),
                path_views(paths@) == before,
                forall|at: int|
                    0 <= at < to ==> crate::path::path_before(#[trigger] before[at], path@),
            decreases paths@.len() - to,
        {
            assert(before[to as int] == paths@[to as int]@);
            to = to + 1;
        }
        let follows = to < paths.len() && !precedes(path.as_slice(), paths[to].as_slice());
        proof {
            let new = crate::path::components_of(path@);
            assert forall|at: int| 0 <= at < to implies !same_path(#[trigger] before[at], path@) by {
                crate::path::lemma_components_order(new, new, new);
            }
            if to < before.len() {
                assert(before[to as int] == paths@[to as int]@);
                let next = crate::path::components_of(before[to as int]);
                crate::path::lemma_components_order(next, new, next);
                if follows {
                    assert(same_path(before[to as int], path@));
                } else {
                    assert forall|at: int| to <= at < before.len() implies crate::path::path_before(
                        path@,
                        #[trigger] before[at],
                    ) && !same_path(before[at], path@) by {
                        let later = crate::path::components_of(before[at]);
                        if at > to {
                            assert(crate::path::path_before(before[to as int], before[at]));
                        }
                        crate::path::lemma_components_order(new, next, later);
                        crate::path::lemma_components_order(new, new, new);
                    }
                }
            }
        }
        proof {
            lemma_with_path(before, path@, to as int);
        }
        if follows {
            self.paths = paths;
            return false;
        }
        paths.insert(to, path);
        proof {
            let after = path_views(paths@);
            assert(after =~= before.insert(to as int, path@));
            assert forall|left: int, right: int|
                0 <= left < right < after.len() implies crate::path::path_before(
                after[left],
                after[right],
            ) by {
                let old_left = if left > to {
                    left - 1
                } else {
                    left
                };
                let old_right = if right > to {
                    right - 1
                } else {
                    right
                };
                if left == to {
                    assert(crate::path::path_before(path@, before[old_right]));
                } else if right == to {
                    assert(crate::path::path_before(before[left], path@));
                } else {
                    assert(crate::path::path_before(before[old_left], before[old_right]));
                }
            }
            assert(!holds_path(before, path@));
        }
        self.paths = paths;
        proof {
            assert(self@ == old(self)@.insert(to as int, path@));
        }
        true
    }

    /// The number of paths.
    pub fn len(&self) -> (count: usize)
        ensures
            count == self@.len(),
    {
        self.paths.len()
    }

    /// The paths, in order.
    pub fn as_slice(&self) -> (paths: &[Vec<u8>])
        ensures
            path_views(paths@) == self@,
            paths_ascend(self@),
    {
        proof {
            use_type_invariant(self);
        }
        self.paths.as_slice()
    }
}

impl Clone for PathSet {
    fn clone(&self) -> (copy: PathSet)
        ensures
            copy@ == self@,
    {
        proof {
            use_type_invariant(self);
        }
        let mut paths: Vec<Vec<u8>> = Vec::new();
        let mut index: usize = 0;
        while index < self.paths.len()
            invariant
                index <= self.paths@.len(),
                path_views(paths@) == self@.take(index as int),
            decreases self.paths@.len() - index,
        {
            let ghost before = paths@;
            let path = crate::interceptor::copy_bytes(&self.paths[index]);
            paths.push(path);
            proof {
                assert(path_views(paths@) =~= path_views(before).push(path@));
                assert(self@.take(index + 1) =~= self@.take(index as int).push(
                    self@[index as int],
                ));
            }
            index = index + 1;
        }
        proof {
            assert(self@.take(index as int) =~= self@);
        }
        PathSet { paths }
    }
}

} // verus!
