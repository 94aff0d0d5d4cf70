//! Dependencies of a package, and their resolution: the package itself and
//! every package it depends on, directly or through others.

use vstd::prelude::*;
use vstd::string::StringExecFns;
use crate::graph::Id;
use crate::hash::{hash_spec, HashItem, Hashable, ItemView};
use crate::order::{
    ascending_by,
    is_strict_order,
    is_text_before,
    lemma_ascending_unique,
    lemma_text_before_irreflexive,
    lemma_text_before_total,
    lemma_text_before_transitive,
    text_before,
};
use crate::text::same_text;

verus! {

/// The name and version of a package that is depended on.
#[derive(Debug, Clone)]
pub struct Dependency {
    pub name: String,
    pub version: String,
}

/// The content of a [`Dependency`].
pub struct DependencyView {
    pub name: Seq<char>,
    pub version: Seq<char>,
}

impl View for Dependency {
    type V = DependencyView;

    open spec fn view(&self) -> DependencyView {
        DependencyView { name: self.name@, version: self.version@ }
    }
}

/// The contents of the dependencies of a list, in order.
pub open spec fn views(list: Seq<Dependency>) -> Seq<DependencyView> {
    list.map_values(|d: Dependency| d@)
}

/// Whether `a` comes before `b`: by name, then by version.
pub open spec fn before(a: DependencyView, b: DependencyView) -> bool {
    text_before(a.name, b.name) || (a.name == b.name && text_before(a.version, b.version))
}

/// Whether each dependency of `list` comes before all that follow it.
pub open spec fn ascending(list: Seq<DependencyView>) -> bool {
    forall|i: int, j: int| 0 <= i < j < list.len() ==> before(#[trigger] list[i], #[trigger] list[j])
}

/// Whether `list` holds the dependencies of `held`, each once, in order.
pub open spec fn is_canonical(held: Map<Id, DependencyView>, list: Seq<DependencyView>) -> bool {
    &&& ascending(list)
    &&& forall|d: DependencyView|
        #![trigger list.contains(d)]
        #![trigger held.values().contains(d)]
        list.contains(d) <==> held.values().contains(d)
}

/// The dependencies of `held`, each once, in order.
pub open spec fn canonical(held: Map<Id, DependencyView>) -> Seq<DependencyView> {
    choose|list: Seq<DependencyView>| is_canonical(held, list)
}

/// The item that stands for a dependency.
pub open spec fn dependency_item(d: DependencyView) -> ItemView {
    ItemView::List(
        seq![
            ItemView::Named("name"@, Box::new(ItemView::String(d.name))),
            ItemView::Named("version"@, Box::new(ItemView::String(d.version))),
        ],
    )
}

pub proof fn lemma_before_irreflexive(a: DependencyView)
    ensures
        !before(a, a),
{
    lemma_text_before_irreflexive(a.name);
    lemma_text_before_irreflexive(a.version);
}

pub proof fn lemma_before_transitive(a: DependencyView, b: DependencyView, c: DependencyView)
    requires
        before(a, b),
        before(b, c),
    ensures
        before(a, c),
{
    if text_before(a.name, b.name) && text_before(b.name, c.name) {
        lemma_text_before_transitive(a.name, b.name, c.name);
    }
    if a.name == b.name && b.name == c.name {
        lemma_text_before_irreflexive(a.name);
        lemma_text_before_transitive(a.version, b.version, c.version);
    }
}

/// Of two different dependencies one comes before the other.
pub proof fn lemma_before_total(a: DependencyView, b: DependencyView)
    requires
        !before(a, b),
        !before(b, a),
    ensures
        a == b,
{
    lemma_text_before_total(a.name, b.name);
    lemma_text_before_total(a.version, b.version);
}

/// Two ascending lists with the same dependencies are the same list.
pub proof fn lemma_canonical_unique(s: Seq<DependencyView>, t: Seq<DependencyView>)
    requires
        ascending(s),
        ascending(t),
        forall|d: DependencyView|
            #![trigger s.contains(d)]
            #![trigger t.contains(d)]
            s.contains(d) <==> t.contains(d),
    ensures
        s == t,
{
    let lt = |a: DependencyView, b: DependencyView| before(a, b);
    assert(is_strict_order(lt)) by {
        assert forall|x: DependencyView| !#[trigger] lt(x, x) by {
            lemma_before_irreflexive(x);
        }
        assert forall|x: DependencyView, y: DependencyView, z: DependencyView| #[trigger]
            lt(x, y) && #[trigger] lt(y, z) implies lt(x, z) by {
            lemma_before_transitive(x, y, z);
        }
    }
    assert(ascending_by(s, lt));
    assert(ascending_by(t, lt));
    lemma_ascending_unique(s, t, lt);
}

impl Dependency {
    /// Whether this dependency comes before `other`: by name, then by version.
    pub fn is_before(&self, other: &Dependency) -> (r: bool)
        ensures
            r == before(self@, other@),
    {
        if is_text_before(self.name.as_str(), other.name.as_str()) {
            true
        } else if same_text(self.name.as_str(), other.name.as_str()) {
            is_text_before(self.version.as_str(), other.version.as_str())
        } else {
            false
        }
    }

    /// Whether this dependency has the name and version of `other`.
    pub fn is_same(&self, other: &Dependency) -> (r: bool)
        ensures
            r == (self@ == other@),
    {
        same_text(self.name.as_str(), other.name.as_str()) && same_text(
            self.version.as_str(),
            other.version.as_str(),
        )
    }

    /// The text `name version`.
    pub fn to_string(&self) -> (text: String)
        ensures
            text@ == self@.name + seq![' '] + self@.version,
    {
        let mut text = self.name.clone();
        text.append(" ");
        text.append(self.version.as_str());
        proof {
            reveal_strlit(" ");
            assert(" "@ =~= seq![' ']);
        }
        text
    }
}

impl Hashable for Dependency {
    open spec fn item(&self) -> ItemView {
        dependency_item(self@)
    }

    fn as_hash_item(&self) -> (item: HashItem) {
        let name = HashItem::named("name", HashItem::String(self.name.clone()));
        let version = HashItem::named("version", HashItem::String(self.version.clone()));
        let mut fields: Vec<HashItem> = Vec::new();
        fields.push(name);
        fields.push(version);
        let item = HashItem::list(fields);
        assert(item@ =~= dependency_item(self@)) by {
            assert(fields@.map_values(|item: HashItem| item@) =~= seq![name@, version@]);
        }
        item
    }
}

#[derive(Debug)]
struct Entry {
    id: String,
    dependency: Dependency,
}

/// Dependencies by package identifier: each identifier occurs once.
#[derive(Debug)]
pub struct Dependencies {
    entries: Vec<Entry>,
}

impl View for Dependencies {
    type V = Map<Id, DependencyView>;

    closed spec fn view(&self) -> Map<Id, DependencyView> {
        Map::new(|id: Id| self.holds(id), |id: Id| self.entries@[self.place(id)].dependency@)
    }
}

impl Dependencies {
    #[verifier::type_invariant]
    spec fn distinct(self) -> bool {
        forall|i: int, j: int|
            0 <= i < j < self.entries@.len() ==> (#[trigger] self.entries@[i]).id@ != (
            #[trigger] self.entries@[j]).id@
    }

    spec fn holds(self, id: Id) -> bool {
        exists|i: int| 0 <= i < self.entries@.len() && (#[trigger] self.entries@[i]).id@ == id
    }

    spec fn among(self, upto: int, d: DependencyView) -> bool {
        exists|j: int| 0 <= j < upto && (#[trigger] self.entries@[j]).dependency@ == d
    }

    spec fn place(self, id: Id) -> int {
        choose|i: int| 0 <= i < self.entries@.len() && (#[trigger] self.entries@[i]).id@ == id
    }

    /// No dependencies.
    pub fn new() -> (empty: Dependencies)
        ensures
            empty@ == Map::<Id, DependencyView>::empty(),
    {
        let empty = Dependencies { entries: Vec::new() };
        assert(empty@ =~= Map::<Id, DependencyView>::empty());
        empty
    }

    fn find(&self, id: &str) -> (found: Option<usize>)
        ensures
            match found {
                Some(i) => i < self.entries@.len() && self.entries@[i as int].id@ == id@
                    && self.place(id@) == i,
                None => !self.holds(id@),
            },
    {
        proof {
            use_type_invariant(self);
        }
        let mut i: usize = 0;
        while i < self.entries.len()
            invariant
                i <= self.entries@.len(),
                self.distinct(),
                forall|j: int| 0 <= j < i ==> (#[trigger] self.entries@[j]).id@ != id@,
            decreases self.entries@.len() - i,
        {
            if same_text(self.entries[i].id.as_str(), id) {
                assert(self.holds(id@));
                return Some(i);
            }
            i = i + 1;
        }
        None
    }

    /// Whether a dependency is held for this package identifier.
    pub fn contains_key(&self, id: &str) -> (held: bool)
        ensures
            held == self@.contains_key(id@),
    {
        self.find(id).is_some()
    }

    /// The dependency held for this package identifier, if any.
    pub fn get(&self, id: &str) -> (held: Option<&Dependency>)
        ensures
            match held {
                Some(dependency) => self@.contains_key(id@) && self@[id@] == dependency@,
                None => !self@.contains_key(id@),
            },
    {
        match self.find(id) {
            Some(i) => Some(&self.entries[i].dependency),
            None => None,
        }
    }

    /// These dependencies, with `dependency` held for `id` in place of what
    /// was held for it.
    pub fn insert(self, id: &str, dependency: Dependency) -> (after: Dependencies)
        ensures
            after@ == self@.insert(id@, dependency@),
    {
        proof {
            use_type_invariant(&self);
        }
        let found = self.find(id);
        let ghost before = self;
        let mut entries = self.entries;
        match found {
            Some(i) => {
                entries.set(i, Entry { id: id.to_owned(), dependency });
            },
            None => {
                entries.push(Entry { id: id.to_owned(), dependency });
            },
        }
        let after = Dependencies { entries };
        proof {
            assert forall|other: Id| #[trigger]
                after@.contains_key(other) <==> before@.insert(id@, dependency@).contains_key(
                    other,
                ) by {
                if before.holds(other) {
                    let i = before.place(other);
                    assert(after.entries@[i].id@ == other);
                }
                if after.holds(other) && other != id@ {
                    let i = after.place(other);
                    assert(before.entries@[i].id@ == other);
                }
                if other == id@ {
                    match found {
                        Some(i) => {
                            assert(after.entries@[i as int].id@ == other);
                        },
                        None => {
                            assert(after.entries@[before.entries@.len() as int].id@ == other);
                        },
                    }
                }
            }
            assert forall|other: Id| #[trigger] after@.contains_key(other) implies after@[other]
                == before@.insert(id@, dependency@)[other] by {
                let i = after.place(other);
                if other != id@ {
                    assert(before.entries@[i].id@ == other);
                    let j = before.place(other);
                    assert(after.entries@[j].id@ == other);
                } else {
                    match found {
                        Some(k) => {
                            assert(after.entries@[k as int].id@ == other);
                        },
                        None => {
                            assert(after.entries@[before.entries@.len() as int].id@ == other);
                        },
                    }
                }
            }
            assert(after@ =~= before@.insert(id@, dependency@));
        }
        after
    }

    /// The dependencies that are held, each name and version once, in order
    /// of name, then version.
    pub fn sorted(&self) -> (list: Vec<Dependency>)
        ensures
            views(list@) == canonical(self@),
    {
        proof {
            use_type_invariant(self);
        }
        let mut list: Vec<Dependency> = Vec::new();
        let mut i: usize = 0;
        while i < self.entries.len()
            invariant
                i <= self.entries@.len(),
                ascending(views(list@)),
                forall|d: DependencyView| #[trigger]
                    views(list@).contains(d) <==> self.among(i as int, d),
            decreases self.entries@.len() - i,
        {
            let entry = &self.entries[i].dependency;
            let ghost shown = views(list@);
            let mut p: usize = 0;
            while p < list.len() && list[p].is_before(entry)
                invariant
                    p <= list@.len(),
                    shown == views(list@),
                    forall|q: int| 0 <= q < p ==> before(#[trigger] shown[q], entry@),
                decreases list@.len() - p,
            {
                p = p + 1;
            }
            if p < list.len() && !entry.is_before(&list[p]) {
                proof {
                    lemma_before_total(entry@, shown[p as int]);
                    assert forall|d: DependencyView| #[trigger]
                        shown.contains(d) <==> self.among(i + 1, d) by {
                        if d == entry@ {
                            assert(shown[p as int] == d);
                            assert(self.entries@[i as int].dependency@ == d);
                        }
                    }
                }
            } else {
                let copy = Dependency { name: entry.name.clone(), version: entry.version.clone() };
                list.insert(p, copy);
                proof {
                    let after = views(list@);
                    assert(after =~= shown.insert(p as int, entry@));
                    assert forall|a: int, b: int| 0 <= a < b < after.len() implies before(
                        #[trigger] after[a],
                        #[trigger] after[b],
                    ) by {
                        if b == p {
                            assert(after[a] == shown[a]);
                        } else if a == p {
                            assert(after[b] == shown[b - 1]);
                            if b - 1 > p {
                                assert(before(shown[p as int], shown[b - 1]));
                                lemma_before_transitive(entry@, shown[p as int], shown[b - 1]);
                            }
                        } else {
                            let a0 = if a < p { a } else { a - 1 };
                            let b0 = if b < p { b } else { b - 1 };
                            assert(after[a] == shown[a0]);
                            assert(after[b] == shown[b0]);
                            assert(before(shown[a0], shown[b0]));
                        }
                    }
                    assert forall|d: DependencyView| #[trigger]
                        after.contains(d) <==> self.among(i + 1, d) by {
                        if after.contains(d) {
                            let k = choose|k: int| 0 <= k < after.len() && after[k] == d;
                            if k == p {
                                assert(self.entries@[i as int].dependency@ == d);
                            } else {
                                let k0 = if k < p { k } else { k - 1 };
                                assert(shown[k0] == d);
                                assert(shown.contains(d));
                            }
                        }
                        if self.among(i + 1, d) {
                            let j = choose|j: int|
                                0 <= j < i + 1 && (#[trigger] self.entries@[j]).dependency@ == d;
                            if j == i {
                                assert(after[p as int] == d);
                            } else {
                                assert(shown.contains(d));
                                let k = choose|k: int| 0 <= k < shown.len() && shown[k] == d;
                                let k1 = if k < p { k } else { k + 1 };
                                assert(after[k1] == d);
                            }
                        }
                    }
                }
            }
            i = i + 1;
        }
        proof {
            let shown = views(list@);
            assert forall|d: DependencyView|
                #![trigger shown.contains(d)]
                #![trigger self@.values().contains(d)]
                shown.contains(d) <==> self@.values().contains(d) by {
                if shown.contains(d) {
                    assert(self.among(self.entries@.len() as int, d));
                    let j = choose|j: int|
                        0 <= j < self.entries@.len() && (#[trigger] self.entries@[j]).dependency@
                            == d;
                    let id = self.entries@[j].id@;
                    assert(self.holds(id));
                    assert(self@.dom().contains(id));
                    assert(self@[id] == d);
                }
                if self@.values().contains(d) {
                    let id = choose|id: Id| self@.dom().contains(id) && self@[id] == d;
                    assert(self.entries@[self.place(id)].dependency@ == d);
                    assert(self.among(self.entries@.len() as int, d));
                }
            }
            assert(is_canonical(self@, shown));
            let chosen = canonical(self@);
            lemma_canonical_unique(shown, chosen);
        }
        list
    }
}

/// The item that stands for some dependencies: their items, each name and
/// version once, in order of name, then version.
pub open spec fn dependencies_item(held: Map<Id, DependencyView>) -> ItemView {
    ItemView::List(canonical(held).map_values(|d: DependencyView| dependency_item(d)))
}

impl Dependencies {
    /// The hash of the dependencies that are held.
    pub fn hash(&self) -> (digest: String)
        ensures
            digest@ == hash_spec(dependencies_item(self@)),
    {
        self.as_hash_item().hash()
    }

    /// Whether a hash that was declared for these dependencies is their
    /// hash still.
    pub fn is_pinned_by(&self, declared: &str) -> (current: bool)
        ensures
            current == (declared@ == hash_spec(dependencies_item(self@))),
    {
        let digest = self.hash();
        same_text(declared, digest.as_str())
    }
}

impl Hashable for Dependencies {
    open spec fn item(&self) -> ItemView {
        dependencies_item(self@)
    }

    fn as_hash_item(&self) -> (item: HashItem) {
        let list = self.sorted();
        let mut items: Vec<HashItem> = Vec::new();
        let mut i: usize = 0;
        while i < list.len()
            invariant
                i <= list@.len(),
                items@.len() == i,
                forall|j: int| 0 <= j < i ==> (#[trigger] items@[j])@ == dependency_item(list@[j]@),
            decreases list@.len() - i,
        {
            items.push(list[i].as_hash_item());
            i = i + 1;
        }
        let item = HashItem::list(items);
        proof {
            let shown = views(list@);
            assert(items@.map_values(|item: HashItem| item@) =~= shown.map_values(
                |d: DependencyView| dependency_item(d),
            ));
        }
        item
    }
}

} // verus!
