//! The source files of a package: their relative paths and their contents.

use vstd::prelude::*;
use crate::hash::{HashItem, Hashable, ItemView};
use crate::order::{
    ascending_by,
    is_strict_order,
    is_text_before,
    lemma_ascending_unique,
    lemma_text_before_irreflexive,
    lemma_text_before_total,
    lemma_text_before_transitive,
    text_before,
};
use crate::lines::{lines_of, split_lines};
use crate::text::{same_text, text_views};

verus! {

/// A path, as text.
pub type PathText = Seq<char>;

/// A path and the content of the file at that path.
pub type FileView = (PathText, Seq<u8>);

/// Whether the file `a` comes before the file `b`: by path.
pub open spec fn file_before(a: FileView, b: FileView) -> bool {
    text_before(a.0, b.0)
}

/// Whether `list` holds the files of `files`, each once, in order of path.
pub open spec fn is_listing(files: Map<PathText, Seq<u8>>, list: Seq<FileView>) -> bool {
    &&& ascending_by(list, |a: FileView, b: FileView| file_before(a, b))
    &&& forall|file: FileView|
        #![trigger list.contains(file)]
        #![trigger files.contains_pair(file.0, file.1)]
        list.contains(file) <==> files.contains_pair(file.0, file.1)
}

/// The files of `files`, each once, in order of path.
pub open spec fn listing(files: Map<PathText, Seq<u8>>) -> Seq<FileView> {
    choose|list: Seq<FileView>| is_listing(files, list)
}

/// The item that stands for a file.
pub open spec fn file_item(file: FileView) -> ItemView {
    ItemView::List(
        seq![
            ItemView::Named("path"@, Box::new(ItemView::Path(file.0))),
            ItemView::Named("bytes"@, Box::new(ItemView::Bytes(file.1))),
        ],
    )
}

/// The item that stands for a set of files.
pub open spec fn files_item(files: Map<PathText, Seq<u8>>) -> ItemView {
    ItemView::List(listing(files).map_values(|file: FileView| file_item(file)))
}

/// The order of files by path is a strict order.
pub proof fn lemma_file_order()
    ensures
        is_strict_order(|a: FileView, b: FileView| file_before(a, b)),
{
    let lt = |a: FileView, b: FileView| file_before(a, b);
    assert forall|x: FileView| !#[trigger] lt(x, x) by {
        lemma_text_before_irreflexive(x.0);
    }
    assert forall|x: FileView, y: FileView, z: FileView| #[trigger] lt(x, y) && #[trigger] lt(
        y,
        z,
    ) implies lt(x, z) by {
        lemma_text_before_transitive(x.0, y.0, z.0);
    }
}

/// A set of files has one listing only.
pub proof fn lemma_listing_unique(files: Map<PathText, Seq<u8>>, list: Seq<FileView>)
    requires
        is_listing(files, list),
    ensures
        list == listing(files),
{
    lemma_file_order();
    lemma_ascending_unique(list, listing(files), |a: FileView, b: FileView| file_before(a, b));
}

/// The name of the copy of the manifest that the package manager adds to
/// the files it lists.
pub const ORIGINAL_MANIFEST_NAME: &'static str = "Cargo.toml.orig";

/// The name of the record of the revision that the package manager adds to
/// the files it lists.
pub const REVISION_RECORD_NAME: &'static str = ".cargo_vcs_info.json";

/// Whether a line of a listing names a file of the package itself: whether
/// it is not empty and names none of the files that the package manager
/// adds.
pub open spec fn is_listed_file(line: Seq<char>) -> bool {
    line.len() > 0 && line != ORIGINAL_MANIFEST_NAME@ && line != REVISION_RECORD_NAME@
}

/// Those of the lines of a listing that name a file of the package itself,
/// in order.
pub open spec fn listed_among(lines: Seq<Seq<char>>) -> Seq<Seq<char>>
    decreases lines.len(),
{
    if lines.len() == 0 {
        Seq::empty()
    } else if is_listed_file(lines.last()) {
        listed_among(lines.drop_last()).push(lines.last())
    } else {
        listed_among(lines.drop_last())
    }
}

/// The paths of the files of a package, as the listing of the package
/// manager names them, one on each line.
pub fn listed_files(listing: &str) -> (paths: Vec<String>)
    ensures
        text_views(paths@) == listed_among(lines_of(listing@)),
{
    let lines = split_lines(listing);
    let mut paths: Vec<String> = Vec::new();
    let mut i: usize = 0;
    assert(text_views(lines@).take(0) =~= Seq::<Seq<char>>::empty());
    assert(text_views(paths@) =~= Seq::<Seq<char>>::empty());
    while i < lines.len()
        invariant
            i <= lines@.len(),
            text_views(paths@) == listed_among(text_views(lines@).take(i as int)),
        decreases lines@.len() - i,
    {
        let ghost shown = text_views(paths@);
        proof {
            let more = text_views(lines@).take(i + 1);
            assert(more.drop_last() =~= text_views(lines@).take(i as int));
            assert(more.last() == lines@[i as int]@);
        }
        let line = &lines[i];
        if !line.as_str().is_empty() && !same_text(line.as_str(), ORIGINAL_MANIFEST_NAME)
            && !same_text(line.as_str(), REVISION_RECORD_NAME) {
            paths.push(line.clone());
            assert(text_views(paths@) =~= shown.push(lines@[i as int]@));
        }
        i = i + 1;
    }
    assert(text_views(lines@).take(lines@.len() as int) =~= text_views(lines@));
    paths
}

#[derive(Debug)]
struct SourceFile {
    path: String,
    bytes: Vec<u8>,
}

/// Files by path, in order of path.
#[derive(Debug)]
pub struct Sources {
    files: Vec<SourceFile>,
}

impl View for Sources {
    type V = Map<PathText, Seq<u8>>;

    closed spec fn view(&self) -> Map<PathText, Seq<u8>> {
        Map::new(|path: PathText| self.holds(path), |path: PathText| self.files@[self.place(path)].bytes@)
    }
}

impl Sources {
    #[verifier::type_invariant]
    spec fn ordered(self) -> bool {
        forall|i: int, j: int|
            0 <= i < j < self.files@.len() ==> text_before(
                (#[trigger] self.files@[i]).path@,
                (#[trigger] self.files@[j]).path@,
            )
    }

    spec fn holds(self, path: PathText) -> bool {
        exists|i: int| 0 <= i < self.files@.len() && (#[trigger] self.files@[i]).path@ == path
    }

    spec fn place(self, path: PathText) -> int {
        choose|i: int| 0 <= i < self.files@.len() && (#[trigger] self.files@[i]).path@ == path
    }

    spec fn shown(self) -> Seq<FileView> {
        self.files@.map_values(|file: SourceFile| (file.path@, file.bytes@))
    }

    proof fn lemma_place(self, i: int)
        requires
            self.ordered(),
            0 <= i < self.files@.len(),
        ensures
            self.holds(self.files@[i].path@),
            self.place(self.files@[i].path@) == i,
    {
        let path = self.files@[i].path@;
        let j = self.place(path);
        lemma_text_before_irreflexive(path);
        if i < j {
            assert(text_before(self.files@[i].path@, self.files@[j].path@));
        }
        if j < i {
            assert(text_before(self.files@[j].path@, self.files@[i].path@));
        }
    }

    proof fn lemma_shown(self)
        requires
            self.ordered(),
        ensures
            self.shown() == listing(self@),
    {
        let list = self.shown();
        assert forall|file: FileView|
            #![trigger list.contains(file)]
            #![trigger self@.contains_pair(file.0, file.1)]
            list.contains(file) <==> self@.contains_pair(file.0, file.1) by {
            if list.contains(file) {
                let i = choose|i: int| 0 <= i < list.len() && list[i] == file;
                self.lemma_place(i);
            }
            if self@.contains_pair(file.0, file.1) {
                let i = self.place(file.0);
                assert(list[i] == file);
            }
        }
        lemma_listing_unique(self@, list);
    }

    /// No files.
    pub fn new() -> (empty: Sources)
        ensures
            empty@ == Map::<PathText, Seq<u8>>::empty(),
    {
        let empty = Sources { files: Vec::new() };
        assert(empty@ =~= Map::<PathText, Seq<u8>>::empty());
        empty
    }

    /// The place of the first file whose path is not before `path`.
    fn position(&self, path: &str) -> (p: usize)
        ensures
            p <= self.files@.len(),
            forall|q: int| 0 <= q < p ==> text_before((#[trigger] self.files@[q]).path@, path@),
            p < self.files@.len() ==> !text_before(self.files@[p as int].path@, path@),
    {
        let mut p: usize = 0;
        while p < self.files.len() && is_text_before(self.files[p].path.as_str(), path)
            invariant
                p <= self.files@.len(),
                forall|q: int| 0 <= q < p ==> text_before((#[trigger] self.files@[q]).path@, path@),
            decreases self.files@.len() - p,
        {
            p = p + 1;
        }
        p
    }

    fn find(&self, path: &str) -> (found: Option<usize>)
        ensures
            match found {
                Some(i) => i < self.files@.len() && self.files@[i as int].path@ == path@
                    && self.place(path@) == i,
                None => !self.holds(path@),
            },
    {
        proof {
            use_type_invariant(self);
        }
        let p = self.position(path);
        if p < self.files.len() && same_text(self.files[p].path.as_str(), path) {
            proof {
                self.lemma_place(p as int);
            }
            Some(p)
        } else {
            proof {
                if self.holds(path@) {
                    let i = self.place(path@);
                    lemma_text_before_irreflexive(path@);
                    if i > p {
                        assert(text_before(self.files@[p as int].path@, self.files@[i].path@));
                    }
                }
            }
            None
        }
    }

    /// Whether a file is held for this path.
    pub fn contains(&self, path: &str) -> (held: bool)
        ensures
            held == self@.contains_key(path@),
    {
        self.find(path).is_some()
    }

    /// The content held for this path, if any.
    pub fn get(&self, path: &str) -> (held: Option<&Vec<u8>>)
        ensures
            match held {
                Some(bytes) => self@.contains_key(path@) && self@[path@] == bytes@,
                None => !self@.contains_key(path@),
            },
    {
        match self.find(path) {
            Some(i) => Some(&self.files[i].bytes),
            None => None,
        }
    }

    /// How many files are held.
    pub fn len(&self) -> (count: usize)
        ensures
            count == self@.len(),
            self@.dom().finite(),
    {
        proof {
            use_type_invariant(self);
            self.lemma_count(self.files@.len() as int);
            assert(self@.dom() =~= self.paths(self.files@.len() as int));
        }
        self.files.len()
    }

    spec fn paths(self, upto: int) -> Set<PathText> {
        Set::new(|path: PathText| exists|i: int| 0 <= i < upto && (#[trigger] self.files@[i]).path@ == path)
    }

    proof fn lemma_count(self, upto: int)
        requires
            self.ordered(),
            0 <= upto <= self.files@.len(),
        ensures
            self.paths(upto).finite(),
            self.paths(upto).len() == upto,
        decreases upto,
    {
        if upto == 0 {
            assert(self.paths(0) =~= Set::<PathText>::empty());
        } else {
            self.lemma_count(upto - 1);
            let last = self.files@[upto - 1].path@;
            assert(self.paths(upto) =~= self.paths(upto - 1).insert(last));
            if self.paths(upto - 1).contains(last) {
                let i = choose|i: int| 0 <= i < upto - 1 && (#[trigger] self.files@[i]).path@ == last;
                assert(text_before(self.files@[i].path@, self.files@[upto - 1].path@));
                lemma_text_before_irreflexive(last);
            }
        }
    }

    /// These files, with `bytes` held for `path` in place of what was held
    /// for it.
    pub fn insert(self, path: &str, bytes: Vec<u8>) -> (after: Sources)
        ensures
            after@ == self@.insert(path@, bytes@),
    {
        proof {
            use_type_invariant(&self);
        }
        let p = self.position(path);
        let replace = p < self.files.len() && same_text(self.files[p].path.as_str(), path);
        let ghost before = self;
        let mut files = self.files;
        let file = SourceFile { path: path.to_owned(), bytes };
        if replace {
            files.set(p, file);
        } else {
            files.insert(p, file);
        }
        proof {
            let old_files = before.files@;
            if !replace && p < old_files.len() && !text_before(path@, old_files[p as int].path@) {
                lemma_text_before_total(path@, old_files[p as int].path@);
            }
            assert forall|i: int, j: int| 0 <= i < j < files@.len() implies text_before(
                (#[trigger] files@[i]).path@,
                (#[trigger] files@[j]).path@,
            ) by {
                if replace {
                    assert(text_before(old_files[i].path@, old_files[j].path@));
                } else if j == p {
                    assert(files@[i] == old_files[i]);
                } else if i == p {
                    assert(files@[j] == old_files[j - 1]);
                    if j - 1 > p {
                        assert(text_before(old_files[p as int].path@, old_files[j - 1].path@));
                        lemma_text_before_transitive(
                            path@,
                            old_files[p as int].path@,
                            old_files[j - 1].path@,
                        );
                    }
                } else {
                    let i0 = if i < p { i } else { i - 1 };
                    let j0 = if j < p { j } else { j - 1 };
                    assert(files@[i] == old_files[i0]);
                    assert(files@[j] == old_files[j0]);
                    assert(text_before(old_files[i0].path@, old_files[j0].path@));
                }
            }
        }
        let after = Sources { files };
        proof {
            let old_files = before.files@;
            assert(after.files@[p as int].path@ == path@);
            after.lemma_place(p as int);
            assert forall|other: PathText| #[trigger]
                after@.contains_key(other) <==> before@.insert(path@, bytes@).contains_key(
                    other,
                ) by {
                if before.holds(other) {
                    let i = before.place(other);
                    let i1 = if replace || i < p { i } else { i + 1 };
                    if !(replace && i == p) {
                        assert(after.files@[i1].path@ == other);
                    }
                }
                if after.holds(other) && other != path@ {
                    let i = after.place(other);
                    let i0 = if replace || i < p { i } else { i - 1 };
                    assert(old_files[i0].path@ == other);
                }
            }
            assert forall|other: PathText| #[trigger] after@.contains_key(other) implies after@[other]
                == before@.insert(path@, bytes@)[other] by {
                let i = after.place(other);
                if other != path@ {
                    let i0 = if replace || i < p { i } else { i - 1 };
                    assert(old_files[i0].path@ == other);
                    before.lemma_place(i0);
                }
            }
            assert(after@ =~= before@.insert(path@, bytes@));
        }
        after
    }

    /// A copy of these files.
    pub fn duplicate(&self) -> (copy: Sources)
        ensures
            copy@ == self@,
    {
        proof {
            use_type_invariant(self);
        }
        let mut files: Vec<SourceFile> = Vec::new();
        let mut i: usize = 0;
        while i < self.files.len()
            invariant
                i <= self.files@.len(),
                files@.len() == i,
                forall|j: int|
                    0 <= j < i ==> (#[trigger] files@[j]).path@ == self.files@[j].path@
                        && files@[j].bytes@ == self.files@[j].bytes@,
            decreases self.files@.len() - i,
        {
            files.push(
                SourceFile { path: self.files[i].path.clone(), bytes: self.files[i].bytes.clone() },
            );
            i = i + 1;
        }
        proof {
            assert forall|a: int, b: int| 0 <= a < b < files@.len() implies text_before(
                (#[trigger] files@[a]).path@,
                (#[trigger] files@[b]).path@,
            ) by {
                assert(text_before(self.files@[a].path@, self.files@[b].path@));
            }
        }
        let copy = Sources { files };
        proof {
            assert forall|path: PathText| #[trigger] copy@.contains_key(path) <==> self@.contains_key(
                path,
            ) by {
                if copy.holds(path) {
                    let k = copy.place(path);
                    assert(self.files@[k].path@ == path);
                }
                if self.holds(path) {
                    let k = self.place(path);
                    assert(copy.files@[k].path@ == path);
                }
            }
            assert forall|path: PathText| #[trigger] copy@.contains_key(path) implies copy@[path]
                == self@[path] by {
                let k = copy.place(path);
                assert(self.files@[k].path@ == path);
                self.lemma_place(k);
            }
            assert(copy@ =~= self@);
        }
        copy
    }

    /// Removes the file held for this path, if there is one; says whether
    /// there was one.
    pub fn remove(&mut self, path: &str) -> (removed: Option<()>)
        ensures
            final(self)@ == old(self)@.remove(path@),
            removed is Some <==> old(self)@.contains_key(path@),
    {
        proof {
            use_type_invariant(&*self);
        }
        let ghost before = *self;
        match self.find(path) {
            Some(i) => {
                let mut taken = Sources::new();
                core::mem::swap(self, &mut taken);
                let mut files = taken.files;
                files.remove(i);
                proof {
                    let old_files = before.files@;
                    assert forall|a: int, b: int| 0 <= a < b < files@.len() implies text_before(
                        (#[trigger] files@[a]).path@,
                        (#[trigger] files@[b]).path@,
                    ) by {
                        let a0 = if a < i { a } else { a + 1 };
                        let b0 = if b < i { b } else { b + 1 };
                        assert(files@[a] == old_files[a0]);
                        assert(files@[b] == old_files[b0]);
                        assert(text_before(old_files[a0].path@, old_files[b0].path@));
                    }
                }
                *self = Sources { files };
                proof {
                    let old_files = before.files@;
                    assert forall|other: PathText| #[trigger]
                        self@.contains_key(other) <==> before@.remove(path@).contains_key(
                            other,
                        ) by {
                        if before.holds(other) && other != path@ {
                            let k = before.place(other);
                            let k1 = if k < i { k } else { k - 1 };
                            assert(self.files@[k1].path@ == other);
                        }
                        if self.holds(other) {
                            let k = self.place(other);
                            let k0 = if k < i { k } else { k + 1 };
                            assert(old_files[k0].path@ == other);
                            before.lemma_place(k0);
                        }
                    }
                    assert forall|other: PathText| #[trigger] self@.contains_key(other) implies self@[other]
                        == before@.remove(path@)[other] by {
                        let k = self.place(other);
                        let k0 = if k < i { k } else { k + 1 };
                        assert(old_files[k0].path@ == other);
                        before.lemma_place(k0);
                    }
                    assert(self@ =~= before@.remove(path@));
                }
                Some(())
            },
            None => {
                assert(self@ =~= before@.remove(path@));
                None
            },
        }
    }
}

impl Hashable for Sources {
    open spec fn item(&self) -> ItemView {
        files_item(self@)
    }

    fn as_hash_item(&self) -> (item: HashItem) {
        let mut items: Vec<HashItem> = Vec::new();
        let mut i: usize = 0;
        while i < self.files.len()
            invariant
                i <= self.files@.len(),
                items@.len() == i,
                forall|j: int|
                    0 <= j < i ==> (#[trigger] items@[j])@ == file_item(
                        (self.files@[j].path@, self.files@[j].bytes@),
                    ),
            decreases self.files@.len() - i,
        {
            let file = &self.files[i];
            let path = HashItem::named("path", HashItem::Path(file.path.clone()));
            let bytes = HashItem::named("bytes", HashItem::Bytes(file.bytes.clone()));
            let mut fields: Vec<HashItem> = Vec::new();
            fields.push(path);
            fields.push(bytes);
            let entry = HashItem::list(fields);
            assert(entry@ =~= file_item((file.path@, file.bytes@))) by {
                assert(fields@.map_values(|item: HashItem| item@) =~= seq![path@, bytes@]);
            }
            items.push(entry);
            i = i + 1;
        }
        let item = HashItem::list(items);
        proof {
            use_type_invariant(self);
            self.lemma_shown();
            assert(items@.map_values(|item: HashItem| item@) =~= self.shown().map_values(
                |file: FileView| file_item(file),
            ));
        }
        item
    }
}

} // verus!
