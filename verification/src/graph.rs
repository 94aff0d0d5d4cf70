//! The resolved dependency graph of a workspace, as plain data: the packages
//! that are known, and for each resolved package the packages it depends on.

use vstd::prelude::*;
use crate::text::same_text;

verus! {

/// A package that the graph knows: its identifier, name and version.
#[derive(Debug, Clone)]
pub struct PackageInfo {
    pub id: String,
    pub name: String,
    pub version: String,
}

/// A resolved package: its identifier and the identifiers of the packages it
/// depends on.
#[derive(Debug, Clone)]
pub struct ResolveNode {
    pub id: String,
    pub dependencies: Vec<String>,
}

/// The packages of a workspace and, where the graph was resolved, the
/// dependency edges between them.
#[derive(Debug, Clone)]
pub struct PackageGraph {
    pub packages: Vec<PackageInfo>,
    pub resolve: Option<Vec<ResolveNode>>,
}

/// A package identifier, as text.
pub type Id = Seq<char>;

impl PackageGraph {
    /// The resolved packages; none where the graph was not resolved.
    pub open spec fn nodes(&self) -> Seq<ResolveNode> {
        match self.resolve {
            Some(nodes) => nodes@,
            None => Seq::empty(),
        }
    }

    /// Whether `i` is the place of the first known package with this identifier.
    pub open spec fn is_package_at(&self, id: Id, i: int) -> bool {
        &&& 0 <= i < self.packages@.len()
        &&& self.packages@[i].id@ == id
        &&& forall|j: int| 0 <= j < i ==> (#[trigger] self.packages@[j]).id@ != id
    }

    /// Whether a package with this identifier is known.
    pub open spec fn has_package(&self, id: Id) -> bool {
        exists|i: int| self.is_package_at(id, i)
    }

    /// The place of the first known package with this identifier.
    pub open spec fn package_index(&self, id: Id) -> int {
        choose|i: int| self.is_package_at(id, i)
    }

    /// Whether `i` is the place of the first resolved package with this
    /// identifier.
    pub open spec fn is_node_at(&self, id: Id, i: int) -> bool {
        &&& 0 <= i < self.nodes().len()
        &&& self.nodes()[i].id@ == id
        &&& forall|j: int| 0 <= j < i ==> (#[trigger] self.nodes()[j]).id@ != id
    }

    /// Whether a package with this identifier was resolved.
    pub open spec fn has_node(&self, id: Id) -> bool {
        exists|i: int| self.is_node_at(id, i)
    }

    /// The place of the first resolved package with this identifier.
    pub open spec fn node_index(&self, id: Id) -> int {
        choose|i: int| self.is_node_at(id, i)
    }

    /// Whether the package `from` was resolved and depends directly on `to`.
    pub open spec fn has_edge(&self, from: Id, to: Id) -> bool {
        &&& self.has_node(from)
        &&& exists|k: int|
            0 <= k < self.nodes()[self.node_index(from)].dependencies@.len() && (
            #[trigger] self.nodes()[self.node_index(from)].dependencies@[k])@ == to
    }

    /// Whether each identifier of `path` but the last depends directly on the
    /// next one.
    pub open spec fn is_path(&self, path: Seq<Id>) -> bool {
        &&& path.len() > 0
        &&& forall|i: int|
            0 <= i < path.len() - 1 ==> self.has_edge(#[trigger] path[i], path[i + 1])
    }

    /// Whether `to` is `from` or one of its direct or transitive dependencies.
    pub open spec fn reachable(&self, from: Id, to: Id) -> bool {
        exists|path: Seq<Id>| self.is_path(path) && path[0] == from && path.last() == to
    }

    /// Whether every package that `root` reaches is known and was resolved.
    pub open spec fn sound_from(&self, root: Id) -> bool {
        forall|id: Id| #[trigger]
            self.reachable(root, id) ==> self.has_package(id) && self.has_node(id)
    }

    /// Two places of the first package with an identifier are the same place.
    pub proof fn lemma_package_at_unique(&self, id: Id, i: int, j: int)
        requires
            self.is_package_at(id, i),
            self.is_package_at(id, j),
        ensures
            i == j,
    {
    }

    /// Two places of the first resolved package with an identifier are the
    /// same place.
    pub proof fn lemma_node_at_unique(&self, id: Id, i: int, j: int)
        requires
            self.is_node_at(id, i),
            self.is_node_at(id, j),
        ensures
            i == j,
    {
    }

    /// Every package reaches itself.
    pub proof fn lemma_reachable_self(&self, id: Id)
        ensures
            self.reachable(id, id),
    {
        let path = seq![id];
        assert(self.is_path(path) && path[0] == id && path.last() == id);
    }

    /// What a reached package depends on is reached too.
    pub proof fn lemma_reachable_step(&self, from: Id, via: Id, to: Id)
        requires
            self.reachable(from, via),
            self.has_edge(via, to),
        ensures
            self.reachable(from, to),
    {
        let path = choose|path: Seq<Id>|
            self.is_path(path) && path[0] == from && path.last() == via;
        let longer = path.push(to);
        assert forall|i: int| 0 <= i < longer.len() - 1 implies self.has_edge(
            #[trigger] longer[i],
            longer[i + 1],
        ) by {
            if i < path.len() - 1 {
                assert(self.has_edge(path[i], path[i + 1]));
            }
        }
        assert(self.is_path(longer) && longer[0] == from && longer.last() == to);
    }

    /// Whether each identifier of `ids` outside `open` was resolved and has
    /// all its direct dependencies in `ids`.
    pub open spec fn closed_except(&self, ids: Set<Id>, open: Set<Id>) -> bool {
        forall|from: Id| #[trigger]
            ids.contains(from) && !open.contains(from) ==> self.has_node(from) && forall|to: Id|
                self.has_edge(from, to) ==> ids.contains(to)
    }

    /// A set that holds the first identifier of a path, and the direct
    /// dependencies of each of its members, holds the whole path.
    pub proof fn lemma_closed_holds_path(&self, ids: Set<Id>, path: Seq<Id>, i: int)
        requires
            self.closed_except(ids, Set::empty()),
            self.is_path(path),
            ids.contains(path[0]),
            0 <= i < path.len(),
        ensures
            ids.contains(path[i]),
        decreases i,
    {
        if i > 0 {
            self.lemma_closed_holds_path(ids, path, i - 1);
            assert(self.has_edge(path[i - 1], path[i - 1 + 1]));
        }
    }

    /// A set that holds `root`, and the direct dependencies of each of its
    /// members, holds all that `root` reaches.
    pub proof fn lemma_closed_holds_reachable(&self, ids: Set<Id>, root: Id, id: Id)
        requires
            self.closed_except(ids, Set::empty()),
            ids.contains(root),
            self.reachable(root, id),
        ensures
            ids.contains(id),
    {
        let path = choose|path: Seq<Id>|
            self.is_path(path) && path[0] == root && path.last() == id;
        self.lemma_closed_holds_path(ids, path, path.len() - 1);
    }

    /// The place of the first known package with this identifier, if any.
    pub fn find_package(&self, id: &str) -> (found: Option<usize>)
        ensures
            match found {
                Some(i) => self.is_package_at(id@, i as int),
                None => !self.has_package(id@),
            },
    {
        let mut i: usize = 0;
        while i < self.packages.len()
            invariant
                i <= self.packages@.len(),
                forall|j: int| 0 <= j < i ==> (#[trigger] self.packages@[j]).id@ != id@,
            decreases self.packages@.len() - i,
        {
            if same_text(self.packages[i].id.as_str(), id) {
                return Some(i);
            }
            i = i + 1;
        }
        None
    }

    /// The place of the first resolved package with this identifier, if any.
    pub fn find_node(&self, id: &str) -> (found: Option<usize>)
        ensures
            match found {
                Some(i) => self.is_node_at(id@, i as int),
                None => !self.has_node(id@),
            },
    {
        match &self.resolve {
            None => None,
            Some(nodes) => {
                let mut i: usize = 0;
                while i < nodes.len()
                    invariant
                        i <= nodes@.len(),
                        nodes@ == self.nodes(),
                        forall|j: int| 0 <= j < i ==> (#[trigger] nodes@[j]).id@ != id@,
                    decreases nodes@.len() - i,
                {
                    if same_text(nodes[i].id.as_str(), id) {
                        return Some(i);
                    }
                    i = i + 1;
                }
                None
            },
        }
    }
}

} // verus!
