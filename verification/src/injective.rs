//! The encoding of structural items can be decoded in one way only: no two
//! different items share a byte stream, and no byte stream of an item is the
//! beginning of the byte stream of another.

use vstd::prelude::*;
use vstd::string::StringSliceAdditionalSpecFns;
use vstd::utf8::encode_utf8;
use crate::digest::{lemma_hex_lower_injective, sha256_digest};
use crate::hash::{
    lemma_views_of,
    encode_all,
    encode_spec,
    hash_spec,
    HashItem,
    tagged,
    ItemView,
    TAG_BYTES,
    TAG_LIST,
    TAG_NAMED,
    TAG_PATH,
    TAG_STRING,
    TAG_VERSION,
};
use crate::text::lemma_utf8_injective;
use crate::prefix::{
    lemma_be_bytes_len,
    lemma_length_prefix_injective,
    length_prefix,
    prefix_bound,
    PREFIX_WIDTH,
};

verus! {

/// An item is structural when it embeds no raw bytes and each of its
/// payloads and lists is short enough for its prefix.
pub open spec fn structural(item: ItemView) -> bool
    decreases item,
{
    match item {
        ItemView::String(s) => encode_utf8(s).len() < prefix_bound(),
        ItemView::SemanticVersion(s) => encode_utf8(s).len() < prefix_bound(),
        ItemView::Bytes(b) => b.len() < prefix_bound(),
        ItemView::Path(s) => encode_utf8(s).len() < prefix_bound(),
        ItemView::Named(name, inner) => encode_utf8(name).len() < prefix_bound() && structural(
            *inner,
        ),
        ItemView::List(items) => items.len() < prefix_bound() && forall|i: int|
            0 <= i < items.len() ==> structural(#[trigger] items[i]),
        ItemView::Raw(_) => false,
    }
}

/// The tag byte that the encoding of a structural item begins with.
pub open spec fn tag_of(item: ItemView) -> u8 {
    match item {
        ItemView::String(_) => TAG_STRING,
        ItemView::SemanticVersion(_) => TAG_VERSION,
        ItemView::Bytes(_) => TAG_BYTES,
        ItemView::Path(_) => TAG_PATH,
        ItemView::Named(_, _) => TAG_NAMED,
        ItemView::List(_) => TAG_LIST,
        ItemView::Raw(_) => 0,
    }
}

/// A prefix followed by anything gives back its count and what follows.
pub proof fn lemma_prefix_unique(m: nat, n: nat, x: Seq<u8>, y: Seq<u8>)
    requires
        m < prefix_bound(),
        n < prefix_bound(),
        length_prefix(m) + x == length_prefix(n) + y,
    ensures
        m == n,
        x == y,
{
    let w = PREFIX_WIDTH as nat;
    lemma_be_bytes_len(m, w);
    lemma_be_bytes_len(n, w);
    let left = length_prefix(m) + x;
    let right = length_prefix(n) + y;
    assert(left.subrange(0, w as int) =~= length_prefix(m));
    assert(right.subrange(0, w as int) =~= length_prefix(n));
    lemma_length_prefix_injective(m, n);
    assert(left.subrange(w as int, left.len() as int) =~= x);
    assert(right.subrange(w as int, right.len() as int) =~= y);
}

/// A tagged payload followed by anything gives back the tag, the payload and
/// what follows.
pub proof fn lemma_tagged_unique(
    s: u8,
    p: Seq<u8>,
    x: Seq<u8>,
    t: u8,
    q: Seq<u8>,
    y: Seq<u8>,
)
    requires
        p.len() < prefix_bound(),
        q.len() < prefix_bound(),
        tagged(s, p) + x == tagged(t, q) + y,
    ensures
        s == t,
        p == q,
        x == y,
{
    let left = tagged(s, p) + x;
    let right = tagged(t, q) + y;
    assert(left[0] == s);
    assert(right[0] == t);
    let lrest = length_prefix(p.len()) + (p + x);
    let rrest = length_prefix(q.len()) + (q + y);
    assert(left.subrange(1, left.len() as int) =~= lrest);
    assert(right.subrange(1, right.len() as int) =~= rrest);
    lemma_prefix_unique(p.len(), q.len(), p + x, q + y);
    assert((p + x).subrange(0, p.len() as int) =~= p);
    assert((q + y).subrange(0, q.len() as int) =~= q);
    assert((p + x).subrange(p.len() as int, (p + x).len() as int) =~= x);
    assert((q + y).subrange(q.len() as int, (q + y).len() as int) =~= y);
}

/// The encoding of a structural item begins with its tag.
pub proof fn lemma_first_byte(item: ItemView)
    requires
        structural(item),
    ensures
        encode_spec(item).len() > 0,
        encode_spec(item)[0] == tag_of(item),
{
}

/// The encoding of a structural item, followed by anything, gives back the
/// item and what follows.
pub proof fn lemma_item_unique(a: ItemView, x: Seq<u8>, b: ItemView, y: Seq<u8>)
    requires
        structural(a),
        structural(b),
        encode_spec(a) + x == encode_spec(b) + y,
    ensures
        a == b,
        x == y,
    decreases a, 0nat,
{
    lemma_first_byte(a);
    lemma_first_byte(b);
    assert((encode_spec(a) + x)[0] == tag_of(a));
    assert((encode_spec(b) + y)[0] == tag_of(b));
    match (a, b) {
        (ItemView::String(s), ItemView::String(t)) => {
            lemma_tagged_unique(TAG_STRING, encode_utf8(s), x, TAG_STRING, encode_utf8(t), y);
            lemma_utf8_injective(s, t);
        },
        (ItemView::SemanticVersion(s), ItemView::SemanticVersion(t)) => {
            lemma_tagged_unique(TAG_VERSION, encode_utf8(s), x, TAG_VERSION, encode_utf8(t), y);
            lemma_utf8_injective(s, t);
        },
        (ItemView::Bytes(s), ItemView::Bytes(t)) => {
            lemma_tagged_unique(TAG_BYTES, s, x, TAG_BYTES, t, y);
        },
        (ItemView::Path(s), ItemView::Path(t)) => {
            lemma_tagged_unique(TAG_PATH, encode_utf8(s), x, TAG_PATH, encode_utf8(t), y);
            lemma_utf8_injective(s, t);
        },
        (ItemView::Named(m, inner_a), ItemView::Named(n, inner_b)) => {
            let xa = encode_spec(*inner_a) + x;
            let yb = encode_spec(*inner_b) + y;
            assert(encode_spec(a) + x =~= tagged(TAG_NAMED, encode_utf8(m)) + xa);
            assert(encode_spec(b) + y =~= tagged(TAG_NAMED, encode_utf8(n)) + yb);
            lemma_tagged_unique(TAG_NAMED, encode_utf8(m), xa, TAG_NAMED, encode_utf8(n), yb);
            lemma_utf8_injective(m, n);
            lemma_item_unique(*inner_a, x, *inner_b, y);
        },
        (ItemView::List(items_a), ItemView::List(items_b)) => {
            let xa = encode_all(items_a) + x;
            let yb = encode_all(items_b) + y;
            let left = encode_spec(a) + x;
            let right = encode_spec(b) + y;
            assert(left.subrange(1, left.len() as int) =~= length_prefix(items_a.len()) + xa);
            assert(right.subrange(1, right.len() as int) =~= length_prefix(items_b.len()) + yb);
            lemma_prefix_unique(items_a.len(), items_b.len(), xa, yb);
            lemma_list_unique(items_a, x, items_b, y);
        },
        _ => {},
    }
}

/// The encodings of equally many structural items, followed by anything,
/// give back the items and what follows.
pub proof fn lemma_list_unique(a: Seq<ItemView>, x: Seq<u8>, b: Seq<ItemView>, y: Seq<u8>)
    requires
        a.len() == b.len(),
        forall|i: int| 0 <= i < a.len() ==> structural(#[trigger] a[i]),
        forall|i: int| 0 <= i < b.len() ==> structural(#[trigger] b[i]),
        encode_all(a) + x == encode_all(b) + y,
    ensures
        a == b,
        x == y,
    decreases a, 1nat,
{
    if a.len() == 0 {
        assert(a =~= b);
        assert(encode_all(a) + x =~= x);
        assert(encode_all(b) + y =~= y);
    } else {
        let ra = a.drop_first();
        let rb = b.drop_first();
        let xa = encode_all(ra) + x;
        let yb = encode_all(rb) + y;
        assert(encode_all(a) + x =~= encode_spec(a[0]) + xa);
        assert(encode_all(b) + y =~= encode_spec(b[0]) + yb);
        assert(structural(a[0]));
        assert(structural(b[0]));
        lemma_item_unique(a[0], xa, b[0], yb);
        assert forall|i: int| 0 <= i < ra.len() implies structural(#[trigger] ra[i]) by {
            assert(ra[i] == a[i + 1]);
        }
        assert forall|i: int| 0 <= i < rb.len() implies structural(#[trigger] rb[i]) by {
            assert(rb[i] == b[i + 1]);
        }
        lemma_list_unique(ra, x, rb, y);
        assert(a =~= seq![a[0]] + ra);
        assert(b =~= seq![b[0]] + rb);
    }
}

/// Two structural items with the same encoding are the same item.
pub proof fn law_encoding_injective(a: ItemView, b: ItemView)
    requires
        structural(a),
        structural(b),
        encode_spec(a) == encode_spec(b),
    ensures
        a == b,
{
    let empty = Seq::<u8>::empty();
    lemma_item_unique(a, empty, b, empty);
}

/// The encoding of a structural item is never the beginning of the encoding
/// of a different structural item.
pub proof fn law_encoding_prefix_free(a: ItemView, b: ItemView)
    requires
        structural(a),
        structural(b),
        encode_spec(a).is_prefix_of(encode_spec(b)),
    ensures
        a == b,
{
    let ea = encode_spec(a);
    let eb = encode_spec(b);
    let rest = eb.subrange(ea.len() as int, eb.len() as int);
    assert(ea + rest =~= eb + Seq::<u8>::empty());
    lemma_item_unique(a, rest, b, Seq::<u8>::empty());
}

/// A list with one more field at its end never encodes as the list without it.
pub proof fn law_added_field_changes_encoding(fields: Seq<ItemView>, added: ItemView)
    requires
        fields.len() + 1 < prefix_bound(),
    ensures
        encode_spec(ItemView::List(fields.push(added))) != encode_spec(ItemView::List(fields)),
{
    let longer = fields.push(added);
    let left = encode_spec(ItemView::List(longer));
    let right = encode_spec(ItemView::List(fields));
    if left == right {
        assert(left.subrange(1, left.len() as int) =~= length_prefix(longer.len()) + encode_all(
            longer,
        ));
        assert(right.subrange(1, right.len() as int) =~= length_prefix(fields.len())
            + encode_all(fields));
        lemma_prefix_unique(longer.len(), fields.len(), encode_all(longer), encode_all(fields));
    }
}

/// Two items with the same logical structure have the same hash.
pub proof fn law_hash_deterministic(a: HashItem, b: HashItem)
    requires
        a@ == b@,
    ensures
        hash_spec(a@) == hash_spec(b@),
{
}

/// Two different structural items have the same hash only where SHA-256
/// gives two different byte streams the same digest.
pub proof fn law_hash_collision(a: ItemView, b: ItemView)
    requires
        structural(a),
        structural(b),
        a != b,
        hash_spec(a) == hash_spec(b),
    ensures
        encode_spec(a) != encode_spec(b),
        sha256_digest(encode_spec(a)) == sha256_digest(encode_spec(b)),
{
    lemma_hex_lower_injective(sha256_digest(encode_spec(a)), sha256_digest(encode_spec(b)));
    if encode_spec(a) == encode_spec(b) {
        law_encoding_injective(a, b);
    }
}

/// Whether the UTF-8 form of a text is short enough for its prefix.
fn fits(text: &String) -> (fits: bool)
    ensures
        fits == (encode_utf8(text@).len() < prefix_bound()),
{
    text.as_str().as_bytes().len() <= usize::MAX
}

impl HashItem {
    /// Whether the item is structural: whether it embeds no raw bytes.
    pub fn is_structural(&self) -> (r: bool)
        ensures
            r == structural(self@),
        decreases self,
    {
        match self {
            HashItem::String(s) => fits(s),
            HashItem::SemanticVersion(s) => fits(s),
            HashItem::Bytes(b) => b.len() <= usize::MAX,
            HashItem::Path(s) => fits(s),
            HashItem::Named(name, inner) => fits(name) && inner.is_structural(),
            HashItem::List(items) => {
                proof {
                    lemma_views_of(items@);
                }
                let mut i: usize = 0;
                while i < items.len()
                    invariant
                        i <= items@.len(),
                        *self == HashItem::List(*items),
                        forall|j: int| 0 <= j < i ==> structural(#[trigger] items@[j]@),
                    decreases items@.len() - i,
                {
                    proof {
                        vstd::std_specs::vec::axiom_vec_index_decreases(*items, i as int);
                        assert(decreases_to!(*self => self->List_0));
                    }
                    if !items[i].is_structural() {
                        proof {
                            lemma_views_of(items@);
                            assert(self@->List_0[i as int] == items@[i as int]@);
                        }
                        return false;
                    }
                    i = i + 1;
                }
                proof {
                    lemma_views_of(items@);
                    assert forall|j: int| 0 <= j < self@->List_0.len() implies structural(
                        #[trigger] self@->List_0[j],
                    ) by {
                        assert(self@->List_0[j] == items@[j]@);
                    }
                }
                true
            },
            HashItem::Raw(_) => false,
        }
    }
}

} // verus!
