//! Resolution of the dependencies of a package: a depth-first walk of the
//! graph that visits each package once, so that shared dependencies and
//! cycles are harmless.

use vstd::prelude::*;
use vstd::string::StringExecFns;
use crate::dependency::{Dependencies, Dependency, DependencyView};
use crate::errors::{plain, Error, ErrorView};
use crate::graph::{Id, PackageGraph, PackageInfo};

verus! {

/// The error for a graph that was not resolved.
pub open spec fn no_resolve_error() -> ErrorView {
    plain("metadata has no resolve"@)
}

/// The error for a package that is depended on and not known.
pub open spec fn unknown_package_error(id: Id) -> ErrorView {
    ErrorView {
        explanation: Some("Unable to find package "@ + id + " in the metadata."@),
        ..plain("could not find package"@)
    }
}

/// The error for a package that is known and was not resolved.
pub open spec fn unresolved_error(id: Id) -> ErrorView {
    ErrorView {
        explanation: Some("Unable to resolve dependencies for package "@ + id + "."@),
        ..plain("could not resolve dependencies"@)
    }
}

/// The error of a package whose dependency failed with `cause`.
pub open spec fn transitive_error(cause: ErrorView) -> ErrorView {
    ErrorView { source: Some(Box::new(cause)), ..plain("transitive dependency failure"@) }
}

/// How many of `packages` have an identifier outside `visited`.
pub open spec fn unvisited(packages: Seq<PackageInfo>, visited: Set<Id>) -> nat
    decreases packages.len(),
{
    if packages.len() == 0 {
        0
    } else {
        unvisited(packages.drop_last(), visited) + if visited.contains(packages.last().id@) {
            0nat
        } else {
            1nat
        }
    }
}

proof fn lemma_unvisited_shrinks(packages: Seq<PackageInfo>, fewer: Set<Id>, more: Set<Id>)
    requires
        fewer.subset_of(more),
    ensures
        unvisited(packages, more) <= unvisited(packages, fewer),
    decreases packages.len(),
{
    if packages.len() > 0 {
        lemma_unvisited_shrinks(packages.drop_last(), fewer, more);
    }
}

proof fn lemma_unvisited_visit(packages: Seq<PackageInfo>, visited: Set<Id>, id: Id, i: int)
    requires
        0 <= i < packages.len(),
        packages[i].id@ == id,
        !visited.contains(id),
    ensures
        unvisited(packages, visited.insert(id)) < unvisited(packages, visited),
    decreases packages.len(),
{
    let rest = packages.drop_last();
    if i == packages.len() - 1 {
        lemma_unvisited_shrinks(rest, visited, visited.insert(id));
    } else {
        lemma_unvisited_visit(rest, visited, id, i);
    }
}

impl PackageGraph {
    /// The name and version of the first known package with this identifier.
    pub open spec fn dependency_of(&self, id: Id) -> DependencyView {
        DependencyView {
            name: self.packages@[self.package_index(id)].name@,
            version: self.packages@[self.package_index(id)].version@,
        }
    }

    /// The dependencies of `root`: `root` and every package it reaches, each
    /// with its name and version.
    pub open spec fn closure(&self, root: Id) -> Map<Id, DependencyView> {
        Map::new(|id: Id| self.reachable(root, id), |id: Id| self.dependency_of(id))
    }

    /// Whether `error` is what fails the resolution at the package `at`
    /// itself: the package is not known, or the graph was not resolved, or
    /// the package was not resolved.
    pub open spec fn is_cause(&self, at: Id, error: ErrorView) -> bool {
        if !self.has_package(at) {
            error == unknown_package_error(at)
        } else if self.resolve is None {
            error == no_resolve_error()
        } else {
            !self.has_node(at) && error == unresolved_error(at)
        }
    }

    /// Whether `error` is what fails the resolution that starts at the
    /// package `at`: the cause of failure at `at` itself, or the failure of
    /// one of its direct dependencies, passed up as a transitive failure.
    pub open spec fn explains_failure(&self, at: Id, error: ErrorView) -> bool
        decreases error,
    {
        match error.source {
            Some(cause) => {
                &&& error == transitive_error(*cause)
                &&& self.has_package(at)
                &&& exists|next: Id| #[trigger]
                    self.has_edge(at, next) && self.explains_failure(next, *cause)
            },
            None => self.is_cause(at, error),
        }
    }

    /// Whether each entry of `held` is for a package that `root` reaches and
    /// that is known, and holds its name and version.
    pub open spec fn agrees_with(&self, root: Id, held: Map<Id, DependencyView>) -> bool {
        forall|id: Id| #[trigger]
            held.contains_key(id) ==> self.reachable(root, id) && self.has_package(id) && held[id]
                == self.dependency_of(id)
    }

    /// A failure that is explained at a package that `root` reaches shows
    /// that not every package that `root` reaches is known and resolved.
    pub proof fn lemma_failure_is_unsound(&self, root: Id, at: Id, error: ErrorView)
        requires
            self.reachable(root, at),
            self.explains_failure(at, error),
        ensures
            !self.sound_from(root),
        decreases error,
    {
        match error.source {
            Some(cause) => {
                let next = choose|next: Id| #[trigger]
                    self.has_edge(at, next) && self.explains_failure(next, *cause);
                self.lemma_reachable_step(root, at, next);
                self.lemma_failure_is_unsound(root, next, *cause);
            },
            None => {
                if self.has_package(at) && self.resolve is None {
                    assert(!self.has_node(at));
                }
            },
        }
    }

    fn unknown_package(id: &str) -> (error: Error)
        ensures
            error@ == unknown_package_error(id@),
    {
        let mut explanation = "Unable to find package ".to_owned();
        explanation.append(id);
        explanation.append(" in the metadata.");
        Error::new("could not find package").with_explanation(explanation.as_str())
    }

    fn unresolved(id: &str) -> (error: Error)
        ensures
            error@ == unresolved_error(id@),
    {
        let mut explanation = "Unable to resolve dependencies for package ".to_owned();
        explanation.append(id);
        explanation.append(".");
        Error::new("could not resolve dependencies").with_explanation(explanation.as_str())
    }

    /// Adds `package_id` and what it reaches to `result`, unless `result`
    /// holds `package_id` already. `open` holds the packages whose
    /// dependencies are being added by the callers.
    fn resolve_with(
        &self,
        result: Dependencies,
        package_id: &str,
        Ghost(root): Ghost<Id>,
        Ghost(open): Ghost<Set<Id>>,
    ) -> (r: Result<Dependencies, Error>)
        requires
            self.reachable(root, package_id@),
            self.agrees_with(root, result@),
            self.closed_except(result@.dom(), open),
        ensures
            match r {
                Ok(after) => {
                    &&& self.agrees_with(root, after@)
                    &&& result@.dom().subset_of(after@.dom())
                    &&& after@.contains_key(package_id@)
                    &&& self.closed_except(after@.dom(), open)
                },
                Err(error) => self.explains_failure(package_id@, error@),
            },
        decreases unvisited(self.packages@, result@.dom()),
    {
        if result.contains_key(package_id) {
            return Ok(result);
        }
        let index = match self.find_package(package_id) {
            Some(index) => index,
            None => {
                return Err(Self::unknown_package(package_id));
            },
        };
        let dependency = Dependency {
            name: self.packages[index].name.clone(),
            version: self.packages[index].version.clone(),
        };
        let ghost open_here = open.insert(package_id@);
        let mut current = result.insert(package_id, dependency);
        proof {
            assert(self.has_package(package_id@));
            self.lemma_package_at_unique(
                package_id@,
                index as int,
                self.package_index(package_id@),
            );
            assert(current@.dom() =~= result@.dom().insert(package_id@));
            lemma_unvisited_visit(self.packages@, result@.dom(), package_id@, index as int);
            assert(self.agrees_with(root, current@));
            assert(self.closed_except(current@.dom(), open_here));
        }
        let nodes = match &self.resolve {
            Some(nodes) => nodes,
            None => {
                return Err(Error::new("metadata has no resolve"));
            },
        };
        let node_index = match self.find_node(package_id) {
            Some(node_index) => node_index,
            None => {
                return Err(Self::unresolved(package_id));
            },
        };
        let node = &nodes[node_index];
        proof {
            assert(self.has_node(package_id@));
            self.lemma_node_at_unique(package_id@, node_index as int, self.node_index(package_id@));
        }
        let mut k: usize = 0;
        while k < node.dependencies.len()
            invariant
                k <= node.dependencies@.len(),
                self.reachable(root, package_id@),
                self.has_node(package_id@),
                *node == self.nodes()[self.node_index(package_id@)],
                open_here == open.insert(package_id@),
                self.agrees_with(root, current@),
                result@.dom().subset_of(current@.dom()),
                current@.contains_key(package_id@),
                self.closed_except(current@.dom(), open_here),
                forall|j: int| 0 <= j < k ==> current@.contains_key((#[trigger] node.dependencies@[j])@),
                unvisited(self.packages@, current@.dom()) < unvisited(
                    self.packages@,
                    result@.dom(),
                ),
            decreases node.dependencies@.len() - k,
        {
            let ghost before = current@.dom();
            proof {
                assert(self.has_edge(package_id@, node.dependencies@[k as int]@));
                self.lemma_reachable_step(root, package_id@, node.dependencies@[k as int]@);
            }
            match self.resolve_with(
                current,
                node.dependencies[k].as_str(),
                Ghost(root),
                Ghost(open_here),
            ) {
                Ok(next) => {
                    current = next;
                },
                Err(cause) => {
                    let error = Error::new("transitive dependency failure").with_source(cause);
                    assert(error@ == transitive_error(cause@));
                    return Err(error);
                },
            }
            proof {
                lemma_unvisited_shrinks(self.packages@, before, current@.dom());
            }
            k = k + 1;
        }
        proof {
            assert forall|from: Id| #[trigger]
                current@.dom().contains(from) && !open.contains(from) implies self.has_node(from)
                && forall|to: Id| self.has_edge(from, to) ==> current@.dom().contains(to) by {
                if from == package_id@ {
                    assert forall|to: Id| self.has_edge(from, to) implies current@.dom().contains(
                        to,
                    ) by {
                        let j = choose|j: int|
                            0 <= j < node.dependencies@.len() && (
                            #[trigger] node.dependencies@[j])@ == to;
                        assert(current@.contains_key(node.dependencies@[j]@));
                    }
                } else {
                    assert(!open_here.contains(from));
                }
            }
        }
        Ok(current)
    }

    /// The dependencies of a package: the package itself and every package
    /// it depends on, directly or through others, each once.
    ///
    /// Fails unless every such package is known to the graph and was
    /// resolved; the error then names one that is not, passed up once for
    /// each dependency on the way to it.
    pub fn resolve(&self, package_id: &str) -> (r: Result<Dependencies, Error>)
        ensures
            match r {
                Ok(dependencies) => self.sound_from(package_id@) && dependencies@ == self.closure(
                    package_id@,
                ),
                Err(error) => !self.sound_from(package_id@) && self.explains_failure(
                    package_id@,
                    error@,
                ),
            },
    {
        let ghost root = package_id@;
        proof {
            self.lemma_reachable_self(root);
        }
        let r = self.resolve_with(Dependencies::new(), package_id, Ghost(root), Ghost(Set::empty()));
        proof {
            match &r {
                Ok(dependencies) => {
                    let held = dependencies@;
                    assert forall|id: Id| #[trigger] self.reachable(root, id) implies held.dom().contains(
                        id,
                    ) by {
                        self.lemma_closed_holds_reachable(held.dom(), root, id);
                    }
                    assert(held =~= self.closure(root));
                    assert(self.sound_from(root));
                },
                Err(error) => {
                    self.lemma_failure_is_unsound(root, root, error@);
                },
            }
        }
        r
    }
}

} // verus!
