//! Which packages of a workspace a command works on: all of them by name,
//! those that were named, or those that changed and those that depend on them.

use vstd::prelude::*;
use vstd::seq_lib::{to_multiset_build, to_multiset_insert};
use crate::errors::Error;
use crate::order::{
    is_text_before,
    lemma_text_before_irreflexive,
    lemma_text_before_total,
    lemma_text_before_transitive,
    text_before,
};
use crate::package::{failure_error, Failure, Link, Member, Workspace};
use crate::paths::{below, relative_to};
use crate::text::{same_text, text_views};

verus! {

/// Whether no text of `list` comes before one that stands earlier.
pub open spec fn non_descending(list: Seq<Seq<char>>) -> bool {
    forall|i: int, j: int|
        0 <= i < j < list.len() ==> !text_before(#[trigger] list[j], #[trigger] list[i])
}

/// Whether `sorted` holds the texts of `list`, as many times each, in order.
pub open spec fn is_sorted(list: Seq<Seq<char>>, sorted: Seq<Seq<char>>) -> bool {
    non_descending(sorted) && sorted.to_multiset() == list.to_multiset()
}

/// Whether a member has a link to the member of the workspace with this name.
pub open spec fn links_to(member: Member, name: Seq<char>) -> bool {
    exists|k: int|
        0 <= k < member.links@.len() && (#[trigger] member.links@[k]) is Workspace
            && member.links@[k]->Workspace_0@ == name
}

/// The names of those of `members` that have a link to the member with
/// this name, in order.
pub open spec fn dependants_among(members: Seq<Member>, name: Seq<char>) -> Seq<Seq<char>>
    decreases members.len(),
{
    if members.len() == 0 {
        Seq::empty()
    } else {
        let rest = dependants_among(members.drop_last(), name);
        if links_to(members.last(), name) {
            rest.push(members.last().manifest.name@)
        } else {
            rest
        }
    }
}

/// Whether a file lies below the directory of a member and is one of its
/// files.
pub open spec fn is_file_of(member: Member, path: Seq<char>) -> bool {
    match below(path, member.root@) {
        Some(rest) => member.sources@.contains_key(rest),
        None => false,
    }
}

/// Whether one of the files that changed is among the files of a member.
pub open spec fn has_changed(member: Member, changed: Seq<Seq<char>>) -> bool {
    exists|k: int| 0 <= k < changed.len() && is_file_of(member, #[trigger] changed[k])
}

/// Whether a member links to the member with this name.
pub fn has_link_to(member: &Member, name: &str) -> (links: bool)
    ensures
        links == links_to(*member, name@),
{
    let mut k: usize = 0;
    while k < member.links.len()
        invariant
            k <= member.links@.len(),
            forall|j: int|
                0 <= j < k ==> !((#[trigger] member.links@[j]) is Workspace
                    && member.links@[j]->Workspace_0@ == name@),
        decreases member.links@.len() - k,
    {
        match &member.links[k] {
            Link::Workspace(target) => {
                if same_text(target.as_str(), name) {
                    return true;
                }
            },
            Link::External(_) => {},
        }
        k = k + 1;
    }
    false
}

/// Whether one of the files that changed is among the files of a member.
pub fn is_changed(member: &Member, changed_files: &Vec<String>) -> (changed: bool)
    ensures
        changed == has_changed(*member, text_views(changed_files@)),
{
    let mut k: usize = 0;
    while k < changed_files.len()
        invariant
            k <= changed_files@.len(),
            forall|j: int|
                0 <= j < k ==> !is_file_of(*member, #[trigger] text_views(changed_files@)[j]),
        decreases changed_files@.len() - k,
    {
        if let Some(rest) = relative_to(changed_files[k].as_str(), member.root.as_str()) {
            if member.sources.contains(rest.as_str()) {
                assert(is_file_of(*member, text_views(changed_files@)[k as int]));
                return true;
            }
        }
        assert(!is_file_of(*member, text_views(changed_files@)[k as int]));
        k = k + 1;
    }
    false
}

impl Workspace {
    /// The names of the members, in the order of the members.
    pub open spec fn names(&self) -> Seq<Seq<char>> {
        self.members@.map_values(|member: Member| member.manifest.name@)
    }

    /// The names of the members that depend directly on the member with this
    /// name, in the order of the members.
    pub open spec fn direct_dependants(&self, name: Seq<char>) -> Seq<Seq<char>> {
        dependants_among(self.members@, name)
    }

    /// Each of `names`, followed by the names of the members that depend
    /// directly on it.
    pub open spec fn with_direct_dependants(&self, names: Seq<Seq<char>>) -> Seq<Seq<char>>
        decreases names.len(),
    {
        if names.len() == 0 {
            Seq::empty()
        } else {
            self.with_direct_dependants(names.drop_last()) + seq![names.last()]
                + self.direct_dependants(names.last())
        }
    }

    /// The members that depend on the member with this name, directly or
    /// through one other member: each direct dependant, followed by its own
    /// direct dependants.
    pub open spec fn dependants(&self, name: Seq<char>) -> Seq<Seq<char>> {
        self.with_direct_dependants(self.direct_dependants(name))
    }

    /// For each of `names` that is the name of a member with a changed file:
    /// the name, followed by the members that depend on that member.
    pub open spec fn changed_among(&self, names: Seq<Seq<char>>, changed: Seq<Seq<char>>) -> Seq<
        Seq<char>,
    >
        decreases names.len(),
    {
        if names.len() == 0 {
            Seq::empty()
        } else {
            let rest = self.changed_among(names.drop_last(), changed);
            let name = names.last();
            if self.has_member(name) && has_changed(self.member(name), changed) {
                rest + seq![name] + self.dependants(name)
            } else {
                rest
            }
        }
    }

    /// The names of the members, in order of name.
    pub fn packages(&self) -> (list: Vec<String>)
        ensures
            is_sorted(self.names(), text_views(list@)),
    {
        let mut list: Vec<String> = Vec::new();
        let mut i: usize = 0;
        assert(self.names().take(0) =~= Seq::<Seq<char>>::empty());
        assert(text_views(list@) =~= Seq::<Seq<char>>::empty());
        while i < self.members.len()
            invariant
                i <= self.members@.len(),
                is_sorted(self.names().take(i as int), text_views(list@)),
            decreases self.members@.len() - i,
        {
            let name = &self.members[i].manifest.name;
            let ghost shown = text_views(list@);
            let mut p: usize = list.len();
            while p > 0 && is_text_before(name.as_str(), list[p - 1].as_str())
                invariant
                    p <= list@.len(),
                    shown == text_views(list@),
                    forall|q: int| p <= q < shown.len() ==> text_before(name@, #[trigger] shown[q]),
                decreases p,
            {
                p = p - 1;
            }
            list.insert(p, name.clone());
            proof {
                let after = text_views(list@);
                assert(after =~= shown.insert(p as int, name@));
                to_multiset_insert(shown, p as int, name@);
                let seen = self.names().take(i as int);
                assert(self.names().take(i + 1) =~= seen.push(name@));
                to_multiset_build(seen, name@);
                assert forall|a: int, b: int| 0 <= a < b < after.len() implies !text_before(
                    #[trigger] after[b],
                    #[trigger] after[a],
                ) by {
                    let a0 = if a < p { a } else { a - 1 };
                    let b0 = if b < p { b } else { b - 1 };
                    if a == p {
                        assert(after[b] == shown[b0]);
                        assert(text_before(name@, shown[b0]));
                        if text_before(shown[b0], name@) {
                            lemma_text_before_transitive(name@, shown[b0], name@);
                            lemma_text_before_irreflexive(name@);
                        }
                    } else if b == p {
                        assert(after[a] == shown[a0]);
                        if text_before(name@, shown[a0]) && a0 < p - 1 {
                            if text_before(shown[a0], shown[p - 1]) {
                                lemma_text_before_transitive(name@, shown[a0], shown[p - 1]);
                            } else {
                                assert(!text_before(shown[p - 1], shown[a0]));
                                lemma_text_before_total(shown[a0], shown[p - 1]);
                            }
                        }
                    } else {
                        assert(after[a] == shown[a0]);
                        assert(after[b] == shown[b0]);
                    }
                }
            }
            i = i + 1;
        }
        assert(self.names().take(self.members@.len() as int) =~= self.names());
        list
    }

    /// The names of the members that depend directly on the member with this
    /// name.
    pub fn directly_dependant_packages(&self, name: &str) -> (list: Vec<String>)
        ensures
            text_views(list@) == self.direct_dependants(name@),
    {
        let mut list: Vec<String> = Vec::new();
        let mut i: usize = 0;
        assert(self.members@.take(0) =~= Seq::<Member>::empty());
        assert(text_views(list@) =~= Seq::<Seq<char>>::empty());
        while i < self.members.len()
            invariant
                i <= self.members@.len(),
                text_views(list@) == dependants_among(self.members@.take(i as int), name@),
            decreases self.members@.len() - i,
        {
            let ghost shown = text_views(list@);
            proof {
                let more = self.members@.take(i + 1);
                assert(more.drop_last() =~= self.members@.take(i as int));
                assert(more.last() == self.members@[i as int]);
            }
            if has_link_to(&self.members[i], name) {
                list.push(self.members[i].manifest.name.clone());
                assert(text_views(list@) =~= shown.push(self.members@[i as int].manifest.name@));
            }
            i = i + 1;
        }
        assert(self.members@.take(self.members@.len() as int) =~= self.members@);
        list
    }

    /// The names of the members that depend on the member with this name,
    /// directly or through one other member.
    pub fn dependant_packages(&self, name: &str) -> (list: Vec<String>)
        ensures
            text_views(list@) == self.dependants(name@),
    {
        let direct = self.directly_dependant_packages(name);
        let mut list: Vec<String> = Vec::new();
        let mut i: usize = 0;
        assert(text_views(direct@).take(0) =~= Seq::<Seq<char>>::empty());
        assert(text_views(list@) =~= Seq::<Seq<char>>::empty());
        while i < direct.len()
            invariant
                i <= direct@.len(),
                text_views(list@) == self.with_direct_dependants(text_views(direct@).take(i as int)),
            decreases direct@.len() - i,
        {
            let ghost shown = text_views(list@);
            proof {
                let more = text_views(direct@).take(i + 1);
                assert(more.drop_last() =~= text_views(direct@).take(i as int));
                assert(more.last() == direct@[i as int]@);
            }
            list.push(direct[i].clone());
            let mut further = self.directly_dependant_packages(direct[i].as_str());
            let ghost tail = text_views(further@);
            list.append(&mut further);
            assert(text_views(list@) =~= shown + seq![direct@[i as int]@] + tail);
            i = i + 1;
        }
        assert(text_views(direct@).take(direct@.len() as int) =~= text_views(direct@));
        list
    }

    /// The names of the members that were named, in the order given; the
    /// error of the first name that no member has.
    pub fn resolve_packages_by_names(&self, names: &Vec<String>) -> (r: Result<Vec<String>, Error>)
        ensures
            match r {
                Ok(list) => text_views(list@) == text_views(names@) && forall|i: int|
                    0 <= i < names@.len() ==> self.has_member(#[trigger] text_views(names@)[i]),
                Err(error) => exists|i: int|
                    0 <= i < names@.len() && !self.has_member(#[trigger] text_views(names@)[i])
                        && error@ == failure_error(Failure::NotFound(text_views(names@)[i]))
                        && forall|j: int|
                        0 <= j < i ==> self.has_member(#[trigger] text_views(names@)[j]),
            },
    {
        let mut list: Vec<String> = Vec::new();
        let mut i: usize = 0;
        while i < names.len()
            invariant
                i <= names@.len(),
                list@.len() == i,
                forall|j: int| 0 <= j < i ==> (#[trigger] list@[j])@ == names@[j]@,
                forall|j: int| 0 <= j < i ==> self.has_member(#[trigger] text_views(names@)[j]),
            decreases names@.len() - i,
        {
            match self.find_member(names[i].as_str()) {
                Some(_) => {
                    assert(self.has_member(text_views(names@)[i as int]));
                    list.push(names[i].clone());
                },
                None => {
                    assert(!self.has_member(text_views(names@)[i as int]));
                    return Err(Self::not_found_for(names[i].as_str()));
                },
            }
            i = i + 1;
        }
        assert(text_views(list@) =~= text_views(names@));
        Ok(list)
    }

    /// The names of the members with a changed file, in order of name, each
    /// followed by the members that depend on it.
    pub fn resolve_changed_packages(&self, changed_files: &Vec<String>) -> (list: Vec<String>)
        ensures
            exists|order: Seq<Seq<char>>|
                is_sorted(self.names(), order) && text_views(list@) == #[trigger] self.changed_among(
                    order,
                    text_views(changed_files@),
                ),
    {
        let order = self.packages();
        let mut list: Vec<String> = Vec::new();
        let mut i: usize = 0;
        assert(text_views(order@).take(0) =~= Seq::<Seq<char>>::empty());
        assert(text_views(list@) =~= Seq::<Seq<char>>::empty());
        while i < order.len()
            invariant
                i <= order@.len(),
                text_views(list@) == self.changed_among(
                    text_views(order@).take(i as int),
                    text_views(changed_files@),
                ),
            decreases order@.len() - i,
        {
            let ghost shown = text_views(list@);
            proof {
                let more = text_views(order@).take(i + 1);
                assert(more.drop_last() =~= text_views(order@).take(i as int));
                assert(more.last() == order@[i as int]@);
            }
            match self.find_member(order[i].as_str()) {
                Some(index) => {
                    assert(self.members@[index as int] == self.member(order@[i as int]@));
                    if is_changed(&self.members[index], changed_files) {
                        list.push(order[i].clone());
                        let mut further = self.dependant_packages(order[i].as_str());
                        let ghost tail = text_views(further@);
                        list.append(&mut further);
                        assert(text_views(list@) =~= shown + seq![order@[i as int]@] + tail);
                    }
                },
                None => {},
            }
            i = i + 1;
        }
        assert(text_views(order@).take(order@.len() as int) =~= text_views(order@));
        list
    }
}

} // verus!
