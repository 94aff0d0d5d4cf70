//! The hash of a workspace package: its declared identity, its direct
//! dependency links and its source files, folded into one item.

use vstd::prelude::*;
use vstd::string::StringExecFns;
use crate::errors::{plain, Error, ErrorView};
use crate::hash::{hash_spec, HashItem, Hashable, ItemView};
use crate::sources::{files_item, PathText, Sources};
use crate::text::same_text;

verus! {

/// What a package declares of itself.
#[derive(Debug, Clone)]
pub struct Manifest {
    pub name: String,
    /// The version, in its canonical string form.
    pub version: String,
    pub authors: Vec<String>,
    pub description: Option<String>,
    pub license: Option<String>,
    pub license_file: Option<String>,
    pub categories: Vec<String>,
    pub keywords: Vec<String>,
    pub readme: Option<String>,
    pub repository: Option<String>,
    pub edition: String,
    pub links: Option<String>,
}

/// The content of a [`Manifest`].
pub struct ManifestView {
    pub name: Seq<char>,
    pub version: Seq<char>,
    pub authors: Seq<Seq<char>>,
    pub description: Option<Seq<char>>,
    pub license: Option<Seq<char>>,
    pub license_file: Option<Seq<char>>,
    pub categories: Seq<Seq<char>>,
    pub keywords: Seq<Seq<char>>,
    pub readme: Option<Seq<char>>,
    pub repository: Option<Seq<char>>,
    pub edition: Seq<char>,
    pub links: Option<Seq<char>>,
}

pub open spec fn texts(list: Seq<String>) -> Seq<Seq<char>> {
    list.map_values(|s: String| s@)
}

pub open spec fn optional_text(text: Option<String>) -> Option<Seq<char>> {
    match text {
        Some(s) => Some(s@),
        None => None,
    }
}

impl View for Manifest {
    type V = ManifestView;

    open spec fn view(&self) -> ManifestView {
        ManifestView {
            name: self.name@,
            version: self.version@,
            authors: texts(self.authors@),
            description: optional_text(self.description),
            license: optional_text(self.license),
            license_file: optional_text(self.license_file),
            categories: texts(self.categories@),
            keywords: texts(self.keywords@),
            readme: optional_text(self.readme),
            repository: optional_text(self.repository),
            edition: self.edition@,
            links: optional_text(self.links),
        }
    }
}

/// A direct dependency link of a package.
#[derive(Debug, Clone)]
pub enum Link {
    /// A package of the same workspace, by name.
    Workspace(String),
    /// A package from elsewhere, by its package identifier.
    External(String),
}

/// A package of the workspace, with all that its hash depends on.
#[derive(Debug)]
pub struct Member {
    pub manifest: Manifest,
    /// The directory of the package.
    pub root: String,
    pub links: Vec<Link>,
    /// The files of the package, by their paths below its directory.
    pub sources: Sources,
    /// The path, below the directory of the package, of the file that
    /// records the hashes of this package, which is left out of what is
    /// hashed.
    pub pin_file: Option<String>,
}

/// The packages of a workspace.
#[derive(Debug)]
pub struct Workspace {
    pub members: Vec<Member>,
}

/// Why a package has no hash.
pub enum Failure {
    /// No package of the workspace has this name.
    NotFound(Seq<char>),
    /// The workspace links of this package lead back to a package that
    /// leads to it.
    Cyclic(Seq<char>),
}

/// A named field.
pub open spec fn named(name: Seq<char>, value: ItemView) -> ItemView {
    ItemView::Named(name, Box::new(value))
}

/// A named list of texts.
pub open spec fn named_texts(name: Seq<char>, values: Seq<Seq<char>>) -> ItemView {
    named(name, ItemView::List(values.map_values(|text: Seq<char>| ItemView::String(text))))
}

/// A named value that may be absent: a list of no item, or of one.
pub open spec fn named_optional(name: Seq<char>, value: Option<ItemView>) -> ItemView {
    named(
        name,
        ItemView::List(
            match value {
                Some(item) => seq![item],
                None => Seq::empty(),
            },
        ),
    )
}

pub open spec fn optional_string(text: Option<Seq<char>>) -> Option<ItemView> {
    match text {
        Some(text) => Some(ItemView::String(text)),
        None => None,
    }
}

pub open spec fn optional_path(text: Option<Seq<char>>) -> Option<ItemView> {
    match text {
        Some(text) => Some(ItemView::Path(text)),
        None => None,
    }
}

/// The files that are hashed: all but the file that records the hashes.
pub open spec fn hashed_files(
    files: Map<PathText, Seq<u8>>,
    pin_file: Option<Seq<char>>,
) -> Map<PathText, Seq<u8>> {
    match pin_file {
        Some(path) => files.remove(path),
        None => files,
    }
}

/// The item that stands for a package: its declared fields in a fixed order,
/// then its direct dependency links in the order given, each as what it
/// resolved to, then its files.
pub open spec fn package_item(
    manifest: ManifestView,
    resolved_links: Seq<Seq<char>>,
    files: Map<PathText, Seq<u8>>,
) -> ItemView {
    ItemView::List(
        seq![
            named("name"@, ItemView::String(manifest.name)),
            named("version"@, ItemView::SemanticVersion(manifest.version)),
            named_texts("authors"@, manifest.authors),
            named_optional("description"@, optional_string(manifest.description)),
            named_optional("license"@, optional_string(manifest.license)),
            named_optional("license_file"@, optional_path(manifest.license_file)),
            named_texts("categories"@, manifest.categories),
            named_texts("keywords"@, manifest.keywords),
            named_optional("readme"@, optional_path(manifest.readme)),
            named_optional("repository"@, optional_string(manifest.repository)),
            named("edition"@, ItemView::String(manifest.edition)),
            named_optional("links"@, optional_string(manifest.links)),
            named(
                "direct_links"@,
                ItemView::List(
                    resolved_links.map_values(
                        |link: Seq<char>| named("dependency"@, ItemView::String(link)),
                    ),
                ),
            ),
            named("sources"@, files_item(files)),
        ],
    )
}

/// The hash of a package as it is shown: the name of the digest, a colon,
/// and the hash of the item that stands for the package.
pub open spec fn shown_hash(item: ItemView) -> Seq<char> {
    "sha256:"@ + hash_spec(item)
}

/// The error for a name that no package of the workspace has.
pub open spec fn not_found_error(name: Seq<char>) -> ErrorView {
    ErrorView {
        explanation: Some(
            "A cargo package with the given name ("@ + name + ") could not be found."@,
        ),
        ..plain("package not found"@)
    }
}

/// The error for a package whose workspace links lead back to it.
pub open spec fn cyclic_error(name: Seq<char>) -> ErrorView {
    ErrorView {
        explanation: Some(
            "The workspace dependencies of the package "@ + name + " form a cycle."@,
        ),
        ..plain("cyclic workspace dependency"@)
    }
}

/// The error that reports a failure.
pub open spec fn failure_error(failure: Failure) -> ErrorView {
    match failure {
        Failure::NotFound(name) => not_found_error(name),
        Failure::Cyclic(name) => cyclic_error(name),
    }
}

fn text_item(name: &str, value: &String) -> (item: HashItem)
    ensures
        item@ == named(name@, ItemView::String(value@)),
{
    HashItem::named(name, HashItem::String(value.clone()))
}

fn texts_item(name: &str, values: &Vec<String>) -> (item: HashItem)
    ensures
        item@ == named_texts(name@, texts(values@)),
{
    let mut items: Vec<HashItem> = Vec::new();
    let mut i: usize = 0;
    while i < values.len()
        invariant
            i <= values@.len(),
            items@.len() == i,
            forall|j: int| 0 <= j < i ==> (#[trigger] items@[j])@ == ItemView::String(values@[j]@),
        decreases values@.len() - i,
    {
        items.push(HashItem::String(values[i].clone()));
        i = i + 1;
    }
    let list = HashItem::list(items);
    assert(items@.map_values(|item: HashItem| item@) =~= texts(values@).map_values(
        |text: Seq<char>| ItemView::String(text),
    ));
    HashItem::named(name, list)
}

fn optional_item(name: &str, value: &Option<String>, is_path: bool) -> (item: HashItem)
    ensures
        item@ == named_optional(
            name@,
            if is_path {
                optional_path(optional_text(*value))
            } else {
                optional_string(optional_text(*value))
            },
        ),
{
    let mut items: Vec<HashItem> = Vec::new();
    match value {
        Some(text) => {
            if is_path {
                items.push(HashItem::Path(text.clone()));
            } else {
                items.push(HashItem::String(text.clone()));
            }
        },
        None => {},
    }
    let list = HashItem::list(items);
    proof {
        let shown = items@.map_values(|item: HashItem| item@);
        match value {
            Some(text) => {
                assert(shown =~= seq![items@[0]@]);
            },
            None => {
                assert(shown =~= Seq::<ItemView>::empty());
            },
        }
    }
    HashItem::named(name, list)
}

fn links_item(resolved_links: &Vec<String>) -> (item: HashItem)
    ensures
        item@ == named(
            "direct_links"@,
            ItemView::List(
                texts(resolved_links@).map_values(
                    |link: Seq<char>| named("dependency"@, ItemView::String(link)),
                ),
            ),
        ),
{
    let mut items: Vec<HashItem> = Vec::new();
    let mut i: usize = 0;
    while i < resolved_links.len()
        invariant
            i <= resolved_links@.len(),
            items@.len() == i,
            forall|j: int|
                0 <= j < i ==> (#[trigger] items@[j])@ == named(
                    "dependency"@,
                    ItemView::String(resolved_links@[j]@),
                ),
        decreases resolved_links@.len() - i,
    {
        items.push(text_item("dependency", &resolved_links[i]));
        i = i + 1;
    }
    let list = HashItem::list(items);
    assert(items@.map_values(|item: HashItem| item@) =~= texts(resolved_links@).map_values(
        |link: Seq<char>| named("dependency"@, ItemView::String(link)),
    ));
    HashItem::named("direct_links", list)
}

/// The item that stands for a package with these declared fields, these
/// resolved links and these files.
pub fn build_package_item(
    manifest: &Manifest,
    resolved_links: &Vec<String>,
    files: &Sources,
) -> (item: HashItem)
    ensures
        item@ == package_item(manifest@, texts(resolved_links@), files@),
{
    let mut fields: Vec<HashItem> = Vec::new();
    fields.push(text_item("name", &manifest.name));
    fields.push(HashItem::named("version", HashItem::SemanticVersion(manifest.version.clone())));
    fields.push(texts_item("authors", &manifest.authors));
    fields.push(optional_item("description", &manifest.description, false));
    fields.push(optional_item("license", &manifest.license, false));
    fields.push(optional_item("license_file", &manifest.license_file, true));
    fields.push(texts_item("categories", &manifest.categories));
    fields.push(texts_item("keywords", &manifest.keywords));
    fields.push(optional_item("readme", &manifest.readme, true));
    fields.push(optional_item("repository", &manifest.repository, false));
    fields.push(text_item("edition", &manifest.edition));
    fields.push(optional_item("links", &manifest.links, false));
    fields.push(links_item(resolved_links));
    fields.push(HashItem::named("sources", files.as_hash_item()));
    let item = HashItem::list(fields);
    assert(item@ =~= package_item(manifest@, texts(resolved_links@), files@)) by {
        let shown = fields@.map_values(|item: HashItem| item@);
        let wanted = package_item(manifest@, texts(resolved_links@), files@)->List_0;
        assert(shown.len() == 14);
        assert(wanted.len() == 14);
        assert(shown =~= wanted);
    }
    item
}

impl Workspace {
    /// Whether `i` is the place of the first member with this name.
    pub open spec fn is_member_at(&self, name: Seq<char>, i: int) -> bool {
        &&& 0 <= i < self.members@.len()
        &&& self.members@[i].manifest.name@ == name
        &&& forall|j: int| 0 <= j < i ==> (#[trigger] self.members@[j]).manifest.name@ != name
    }

    /// Whether the workspace has a member with this name.
    pub open spec fn has_member(&self, name: Seq<char>) -> bool {
        exists|i: int| self.is_member_at(name, i)
    }

    /// The first member with this name.
    pub open spec fn member(&self, name: Seq<char>) -> Member {
        self.members@[choose|i: int| self.is_member_at(name, i)]
    }

    /// What the links resolve to, in order: a link to a member of the
    /// workspace to the shown hash of that member, any other link to its
    /// package identifier. The first link that fails decides.
    pub open spec fn resolved(&self, links: Seq<Link>, depth: nat) -> Result<
        Seq<Seq<char>>,
        Failure,
    >
        decreases depth, links.len() + 1,
    {
        if links.len() == 0 {
            Ok(Seq::empty())
        } else {
            match self.resolved(links.drop_last(), depth) {
                Err(failure) => Err(failure),
                Ok(list) => match links.last() {
                    Link::External(id) => Ok(list.push(id@)),
                    Link::Workspace(name) => match self.hash_of(name@, depth) {
                        Ok(hash) => Ok(list.push(hash)),
                        Err(failure) => Err(failure),
                    },
                },
            }
        }
    }

    /// The shown hash of the member with this name, following links between
    /// members through at most `depth` members.
    pub open spec fn hash_of(&self, name: Seq<char>, depth: nat) -> Result<Seq<char>, Failure>
        decreases depth, 0nat,
    {
        if !self.has_member(name) {
            Err(Failure::NotFound(name))
        } else if depth == 0 {
            Err(Failure::Cyclic(name))
        } else {
            let member = self.member(name);
            match self.resolved(member.links@, (depth - 1) as nat) {
                Err(failure) => Err(failure),
                Ok(links) => Ok(
                    shown_hash(
                        package_item(
                            member.manifest@,
                            links,
                            hashed_files(member.sources@, optional_text(member.pin_file)),
                        ),
                    ),
                ),
            }
        }
    }

    /// Whether `r` reports `wanted`: the same text, or the error of the
    /// same failure.
    pub open spec fn reports(r: Result<String, Error>, wanted: Result<Seq<char>, Failure>) -> bool {
        match (r, wanted) {
            (Ok(text), Ok(hash)) => text@ == hash,
            (Err(error), Err(failure)) => error@ == failure_error(failure),
            _ => false,
        }
    }

    /// The place of the first member with this name, if any.
    pub fn find_member(&self, name: &str) -> (found: Option<usize>)
        ensures
            match found {
                Some(i) => self.is_member_at(name@, i as int),
                None => !self.has_member(name@),
            },
    {
        let mut i: usize = 0;
        while i < self.members.len()
            invariant
                i <= self.members@.len(),
                forall|j: int|
                    0 <= j < i ==> (#[trigger] self.members@[j]).manifest.name@ != name@,
            decreases self.members@.len() - i,
        {
            if same_text(self.members[i].manifest.name.as_str(), name) {
                return Some(i);
            }
            i = i + 1;
        }
        None
    }

    fn not_found(name: &str) -> (error: Error)
        ensures
            error@ == not_found_error(name@),
    {
        let mut explanation = "A cargo package with the given name (".to_owned();
        explanation.append(name);
        explanation.append(") could not be found.");
        Error::new("package not found").with_explanation(explanation.as_str())
    }

    /// The error for a name that no member has.
    pub fn not_found_for(name: &str) -> (error: Error)
        ensures
            error@ == failure_error(Failure::NotFound(name@)),
    {
        Self::not_found(name)
    }

    fn cyclic(name: &str) -> (error: Error)
        ensures
            error@ == cyclic_error(name@),
    {
        let mut explanation = "The workspace dependencies of the package ".to_owned();
        explanation.append(name);
        explanation.append(" form a cycle.");
        Error::new("cyclic workspace dependency").with_explanation(explanation.as_str())
    }

    fn resolve_links(&self, links: &Vec<Link>, depth: usize) -> (r: Result<Vec<String>, Error>)
        ensures
            match (r, self.resolved(links@, depth as nat)) {
                (Ok(list), Ok(wanted)) => texts(list@) == wanted,
                (Err(error), Err(failure)) => error@ == failure_error(failure),
                _ => false,
            },
        decreases depth, 1nat,
    {
        let mut list: Vec<String> = Vec::new();
        let mut i: usize = 0;
        assert(texts(list@) =~= Seq::<Seq<char>>::empty());
        while i < links.len()
            invariant
                i <= links@.len(),
                list@.len() == i,
                self.resolved(links@.take(i as int), depth as nat) == Ok::<
                    Seq<Seq<char>>,
                    Failure,
                >(texts(list@)),
            decreases links@.len() - i,
        {
            let ghost seen = links@.take(i as int);
            let ghost more = links@.take(i + 1);
            let ghost shown = texts(list@);
            proof {
                assert(more.drop_last() =~= seen);
                assert(more.last() == links@[i as int]);
            }
            match &links[i] {
                Link::External(id) => {
                    list.push(id.clone());
                },
                Link::Workspace(name) => {
                    match self.hash_within(name.as_str(), depth) {
                        Ok(hash) => {
                            list.push(hash);
                        },
                        Err(error) => {
                            proof {
                                self.lemma_failure_stays(links@, i + 1, depth as nat);
                            }
                            return Err(error);
                        },
                    }
                },
            }
            proof {
                assert(texts(list@) =~= shown.push(list@[i as int]@));
            }
            i = i + 1;
        }
        assert(links@.take(links@.len() as int) =~= links@);
        Ok(list)
    }

    /// A failure among the first links is the failure of all the links.
    proof fn lemma_failure_stays(&self, links: Seq<Link>, upto: int, depth: nat)
        requires
            0 <= upto <= links.len(),
            self.resolved(links.take(upto), depth) is Err,
        ensures
            self.resolved(links, depth) == self.resolved(links.take(upto), depth),
        decreases links.len() - upto,
    {
        if upto < links.len() {
            let more = links.take(upto + 1);
            assert(more.drop_last() =~= links.take(upto));
            self.lemma_failure_stays(links, upto + 1, depth);
        } else {
            assert(links.take(upto) =~= links);
        }
    }

    fn hash_within(&self, name: &str, depth: usize) -> (r: Result<String, Error>)
        ensures
            Self::reports(r, self.hash_of(name@, depth as nat)),
        decreases depth, 0nat,
    {
        let index = match self.find_member(name) {
            Some(index) => index,
            None => {
                return Err(Self::not_found(name));
            },
        };
        if depth == 0 {
            return Err(Self::cyclic(name));
        }
        let member = &self.members[index];
        assert(*member == self.member(name@));
        let links = match self.resolve_links(&member.links, depth - 1) {
            Ok(links) => links,
            Err(error) => {
                return Err(error);
            },
        };
        let mut files = member.sources.duplicate();
        match &member.pin_file {
            Some(path) => {
                files.remove(path.as_str());
            },
            None => {},
        }
        let item = build_package_item(&member.manifest, &links, &files);
        let mut shown = "sha256:".to_owned();
        let hash = item.hash();
        shown.append(hash.as_str());
        Ok(shown)
    }

    /// The hash of the member with this name, as it is shown.
    ///
    /// Each link to another member of the workspace stands in the hash
    /// through the hash of that member, every other link through its package
    /// identifier. The file that records the hashes of a member is left out
    /// of its files.
    pub fn hash_package(&self, name: &str) -> (r: Result<String, Error>)
        ensures
            Self::reports(r, self.hash_of(name@, self.members@.len())),
    {
        self.hash_within(name, self.members.len())
    }
}

/// The files that are hashed never hold the file that records the hashes.
pub proof fn law_pin_file_left_out(files: Map<PathText, Seq<u8>>, pin_file: Seq<char>)
    ensures
        !hashed_files(files, Some(pin_file)).contains_key(pin_file),
{
}

/// Two packages that differ only in the content of the file that records
/// the hashes stand for the same item, and so have the same hash.
pub proof fn law_pin_file_content_is_ignored(
    manifest: ManifestView,
    resolved_links: Seq<Seq<char>>,
    files: Map<PathText, Seq<u8>>,
    other_files: Map<PathText, Seq<u8>>,
    pin_file: Seq<char>,
)
    requires
        files.remove(pin_file) == other_files.remove(pin_file),
    ensures
        package_item(manifest, resolved_links, hashed_files(files, Some(pin_file)))
            == package_item(manifest, resolved_links, hashed_files(other_files, Some(pin_file))),
        shown_hash(package_item(manifest, resolved_links, hashed_files(files, Some(pin_file))))
            == shown_hash(
            package_item(manifest, resolved_links, hashed_files(other_files, Some(pin_file))),
        ),
{
}

/// Whether two workspaces have the same members but for the files of the
/// members, which are the same once the file that records the hashes is
/// left out.
pub open spec fn differ_in_pin_files_only(a: Workspace, b: Workspace) -> bool {
    &&& a.members@.len() == b.members@.len()
    &&& forall|i: int|
        0 <= i < a.members@.len() ==> {
            let m = #[trigger] a.members@[i];
            let n = b.members@[i];
            &&& m.manifest == n.manifest
            &&& m.links == n.links
            &&& m.pin_file == n.pin_file
            &&& hashed_files(m.sources@, optional_text(m.pin_file)) == hashed_files(
                n.sources@,
                optional_text(n.pin_file),
            )
        }
}

proof fn lemma_same_member(a: Workspace, b: Workspace, name: Seq<char>)
    requires
        differ_in_pin_files_only(a, b),
    ensures
        a.has_member(name) == b.has_member(name),
        a.has_member(name) ==> exists|i: int|
            a.is_member_at(name, i) && b.is_member_at(name, i) && a.member(name) == a.members@[i]
                && b.member(name) == b.members@[i],
{
    if a.has_member(name) {
        let i = choose|i: int| a.is_member_at(name, i);
        assert(a.members@[i].manifest == b.members@[i].manifest);
        assert forall|j: int| 0 <= j < i implies (#[trigger] b.members@[j]).manifest.name@
            != name by {
            assert(a.members@[j].manifest == b.members@[j].manifest);
        }
        assert(b.is_member_at(name, i));
        let k = choose|k: int| b.is_member_at(name, k);
        assert(k == i);
    }
    if b.has_member(name) {
        let i = choose|i: int| b.is_member_at(name, i);
        assert(a.members@[i].manifest == b.members@[i].manifest);
        assert forall|j: int| 0 <= j < i implies (#[trigger] a.members@[j]).manifest.name@
            != name by {
            assert(a.members@[j].manifest == b.members@[j].manifest);
        }
        assert(a.is_member_at(name, i));
    }
}

proof fn lemma_same_links(a: Workspace, b: Workspace, links: Seq<Link>, depth: nat)
    requires
        differ_in_pin_files_only(a, b),
    ensures
        a.resolved(links, depth) == b.resolved(links, depth),
    decreases depth, links.len() + 1,
{
    if links.len() > 0 {
        lemma_same_links(a, b, links.drop_last(), depth);
        match links.last() {
            Link::Workspace(name) => {
                law_pin_file_does_not_change_hash(a, b, name@, depth);
            },
            Link::External(_) => {},
        }
    }
}

/// Two workspaces that differ only in the files that record the hashes of
/// their members give each member the same hash.
pub proof fn law_pin_file_does_not_change_hash(
    a: Workspace,
    b: Workspace,
    name: Seq<char>,
    depth: nat,
)
    requires
        differ_in_pin_files_only(a, b),
    ensures
        a.hash_of(name, depth) == b.hash_of(name, depth),
    decreases depth, 0nat,
{
    lemma_same_member(a, b, name);
    if a.has_member(name) && depth > 0 {
        let i = choose|i: int|
            a.is_member_at(name, i) && b.is_member_at(name, i) && a.member(name) == a.members@[i]
                && b.member(name) == b.members@[i];
        assert(a.members@[i].links == b.members@[i].links);
        lemma_same_links(a, b, a.member(name).links@, (depth - 1) as nat);
    }
}

} // verus!
