//! The composable value model that is hashed, and its byte encoding.

use vstd::prelude::*;
use vstd::utf8::encode_utf8;
use crate::digest::{hex_lower, sha256, sha256_digest, to_hex};
use crate::prefix::{length_prefix, push_length_prefix};

verus! {

/// One node of a structure to be hashed.
#[derive(Debug)]
pub enum HashItem {
    /// A text value.
    String(String),
    /// A semantic version, held in its canonical string form.
    SemanticVersion(String),
    /// An opaque byte buffer.
    Bytes(Vec<u8>),
    /// A filesystem path, held in its platform-independent string form.
    Path(String),
    /// A field name and the value of the field.
    Named(String, Box<HashItem>),
    /// An ordered sequence of items.
    List(Vec<HashItem>),
    /// Bytes that are already the encoding of some item, embedded as they are.
    Raw(Vec<u8>),
}

/// The logical structure of a [`HashItem`].
pub enum ItemView {
    String(Seq<char>),
    SemanticVersion(Seq<char>),
    Bytes(Seq<u8>),
    Path(Seq<char>),
    Named(Seq<char>, Box<ItemView>),
    List(Seq<ItemView>),
    Raw(Seq<u8>),
}

/// The logical structure of one item.
pub open spec fn view_of(item: HashItem) -> ItemView
    decreases item,
{
    match item {
        HashItem::String(s) => ItemView::String(s@),
        HashItem::SemanticVersion(s) => ItemView::SemanticVersion(s@),
        HashItem::Bytes(b) => ItemView::Bytes(b@),
        HashItem::Path(s) => ItemView::Path(s@),
        HashItem::Named(name, inner) => ItemView::Named(name@, Box::new(view_of(*inner))),
        HashItem::List(items) => ItemView::List(views_of(items@)),
        HashItem::Raw(b) => ItemView::Raw(b@),
    }
}

/// The logical structures of the items of a list, in order.
pub open spec fn views_of(items: Seq<HashItem>) -> Seq<ItemView>
    decreases items,
{
    if items.len() == 0 {
        Seq::empty()
    } else {
        views_of(items.drop_last()).push(view_of(items.last()))
    }
}

impl View for HashItem {
    type V = ItemView;

    open spec fn view(&self) -> ItemView {
        view_of(*self)
    }
}

/// The tag of a text value: `s`.
pub const TAG_STRING: u8 = 0x73;

/// The tag of a semantic version: `v`.
pub const TAG_VERSION: u8 = 0x76;

/// The tag of a byte buffer: `b`.
pub const TAG_BYTES: u8 = 0x62;

/// The tag of a path: `p`.
pub const TAG_PATH: u8 = 0x70;

/// The tag of a named field: `n`.
pub const TAG_NAMED: u8 = 0x6e;

/// The tag of a list: `l`.
pub const TAG_LIST: u8 = 0x6c;

/// A tag, the length of the payload, the payload.
pub open spec fn tagged(tag: u8, payload: Seq<u8>) -> Seq<u8> {
    seq![tag] + length_prefix(payload.len()) + payload
}

/// The byte stream that stands for an item.
pub open spec fn encode_spec(item: ItemView) -> Seq<u8>
    decreases item,
{
    match item {
        ItemView::String(s) => tagged(TAG_STRING, encode_utf8(s)),
        ItemView::SemanticVersion(s) => tagged(TAG_VERSION, encode_utf8(s)),
        ItemView::Bytes(b) => tagged(TAG_BYTES, b),
        ItemView::Path(s) => tagged(TAG_PATH, encode_utf8(s)),
        ItemView::Named(name, inner) => tagged(TAG_NAMED, encode_utf8(name)) + encode_spec(*inner),
        ItemView::List(items) => seq![TAG_LIST] + length_prefix(items.len()) + encode_all(items),
        ItemView::Raw(b) => b,
    }
}

/// The hash of an item: the SHA-256 digest of its encoding, in lowercase
/// hexadecimal.
pub open spec fn hash_spec(item: ItemView) -> Seq<char> {
    hex_lower(sha256_digest(encode_spec(item)))
}

/// The encodings of the items of a list, one after the other.
pub open spec fn encode_all(items: Seq<ItemView>) -> Seq<u8>
    decreases items,
{
    if items.len() == 0 {
        Seq::empty()
    } else {
        encode_spec(items[0]) + encode_all(items.drop_first())
    }
}

pub proof fn lemma_views_of_len(items: Seq<HashItem>)
    ensures
        views_of(items).len() == items.len(),
    decreases items.len(),
{
    if items.len() > 0 {
        lemma_views_of_len(items.drop_last());
    }
}

pub proof fn lemma_views_of_index(items: Seq<HashItem>, i: int)
    requires
        0 <= i < items.len(),
    ensures
        views_of(items).len() == items.len(),
        views_of(items)[i] == items[i]@,
    decreases items.len(),
{
    lemma_views_of_len(items);
    lemma_views_of_len(items.drop_last());
    if i < items.len() - 1 {
        lemma_views_of_index(items.drop_last(), i);
    }
}

/// The logical structure of a list holds the logical structure of each item
/// at the place of the item.
pub proof fn lemma_views_of(items: Seq<HashItem>)
    ensures
        views_of(items) == items.map_values(|item: HashItem| item@),
{
    let mapped = items.map_values(|item: HashItem| item@);
    lemma_views_of_len(items);
    assert forall|i: int| 0 <= i < items.len() implies views_of(items)[i] == mapped[i] by {
        lemma_views_of_index(items, i);
    }
    assert(views_of(items) =~= mapped);
}

/// Encoding a list with one more item appends the encoding of that item.
pub proof fn lemma_encode_all_push(items: Seq<ItemView>, item: ItemView)
    ensures
        encode_all(items.push(item)) == encode_all(items) + encode_spec(item),
    decreases items.len(),
{
    let longer = items.push(item);
    if items.len() == 0 {
        assert(longer.drop_first() =~= Seq::<ItemView>::empty());
        assert(encode_all(longer) =~= encode_spec(item) + encode_all(longer.drop_first()));
        assert(encode_all(longer.drop_first()) =~= Seq::<u8>::empty());
        assert(encode_all(longer) =~= encode_all(items) + encode_spec(item));
    } else {
        assert(longer.drop_first() =~= items.drop_first().push(item));
        lemma_encode_all_push(items.drop_first(), item);
        assert(encode_all(longer) =~= encode_all(items) + encode_spec(item));
    }
}

/// Appends a copy of `bytes` to `out`.
pub fn push_bytes(out: &mut Vec<u8>, bytes: &[u8])
    ensures
        final(out)@ == old(out)@ + bytes@,
{
    let ghost start = out@;
    let mut i: usize = 0;
    while i < bytes.len()
        invariant
            i <= bytes@.len(),
            out@ == start + bytes@.subrange(0, i as int),
        decreases bytes@.len() - i,
    {
        out.push(bytes[i]);
        i = i + 1;
        assert(out@ =~= start + bytes@.subrange(0, i as int));
    }
    assert(bytes@.subrange(0, bytes@.len() as int) =~= bytes@);
}

/// Appends a tag, the length of `payload` and `payload` to `out`.
pub fn push_tagged(out: &mut Vec<u8>, tag: u8, payload: &[u8])
    ensures
        final(out)@ == old(out)@ + tagged(tag, payload@),
{
    let ghost start = out@;
    out.push(tag);
    push_length_prefix(out, payload.len());
    push_bytes(out, payload);
    assert(out@ =~= start + tagged(tag, payload@));
}

/// A value that is hashed through the item that stands for it.
pub trait Hashable {
    /// The logical structure of the item that stands for this value.
    spec fn item(&self) -> ItemView;

    /// The item that stands for this value.
    fn as_hash_item(&self) -> (item: HashItem)
        ensures
            item@ == self.item(),
    ;
}

impl HashItem {
    /// A list of items.
    pub fn list(items: Vec<HashItem>) -> (r: HashItem)
        ensures
            r@ == ItemView::List(items@.map_values(|item: HashItem| item@)),
    {
        proof {
            lemma_views_of(items@);
        }
        HashItem::List(items)
    }

    /// A named field.
    pub fn named(name: &str, item: HashItem) -> (r: HashItem)
        ensures
            r@ == ItemView::Named(name@, Box::new(item@)),
    {
        HashItem::Named(name.to_owned(), Box::new(item))
    }

    /// Appends the encoding of this item to `out`.
    pub fn encode_into(&self, out: &mut Vec<u8>)
        ensures
            final(out)@ == old(out)@ + encode_spec(self@),
        decreases self,
    {
        let ghost start = out@;
        match self {
            HashItem::String(s) => push_tagged(out, TAG_STRING, s.as_str().as_bytes()),
            HashItem::SemanticVersion(s) => push_tagged(out, TAG_VERSION, s.as_str().as_bytes()),
            HashItem::Bytes(b) => push_tagged(out, TAG_BYTES, b.as_slice()),
            HashItem::Path(s) => push_tagged(out, TAG_PATH, s.as_str().as_bytes()),
            HashItem::Named(name, inner) => {
                push_tagged(out, TAG_NAMED, name.as_str().as_bytes());
                inner.encode_into(out);
                assert(out@ =~= start + encode_spec(self@));
            },
            HashItem::List(items) => {
                out.push(TAG_LIST);
                push_length_prefix(out, items.len());
                let ghost head = out@;
                let mut i: usize = 0;
                proof {
                    assert(views_of(items@.take(0)) =~= Seq::<ItemView>::empty());
                    assert(out@ =~= head + encode_all(views_of(items@.take(0))));
                }
                while i < items.len()
                    invariant
                        i <= items@.len(),
                        *self == HashItem::List(*items),
                        out@ == head + encode_all(views_of(items@.take(i as int))),
                    decreases items@.len() - i,
                {
                    proof {
                        vstd::std_specs::vec::axiom_vec_index_decreases(*items, i as int);
                        assert(decreases_to!(*self => self->List_0));
                    }
                    items[i].encode_into(out);
                    proof {
                        let seen = items@.take(i as int);
                        let more = items@.take(i + 1);
                        assert(more.drop_last() =~= seen);
                        assert(more.last() == items@[i as int]);
                        assert(views_of(more) == views_of(seen).push(items@[i as int]@));
                        lemma_encode_all_push(views_of(seen), items@[i as int]@);
                        assert(out@ =~= head + encode_all(views_of(more)));
                    }
                    i = i + 1;
                }
                proof {
                    assert(items@.take(items@.len() as int) =~= items@);
                    lemma_views_of_len(items@);
                    assert(out@ =~= start + encode_spec(self@));
                }
            },
            HashItem::Raw(b) => push_bytes(out, b.as_slice()),
        }
    }

    /// The byte stream that stands for this item.
    pub fn encode(&self) -> (bytes: Vec<u8>)
        ensures
            bytes@ == encode_spec(self@),
    {
        let mut out: Vec<u8> = Vec::new();
        self.encode_into(&mut out);
        assert(out@ =~= encode_spec(self@));
        out
    }

    /// The hash of this item: the SHA-256 digest of its encoding, in
    /// lowercase hexadecimal.
    pub fn hash(&self) -> (digest: String)
        ensures
            digest@ == hash_spec(self@),
    {
        let bytes = self.encode();
        let digest = sha256(bytes.as_slice());
        to_hex(digest.as_slice())
    }
}

} // verus!
