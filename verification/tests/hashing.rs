use cargo_monorepo::hash::HashItem;

fn text(value: &str) -> HashItem {
    HashItem::String(value.to_string())
}

fn field(name: &str) -> HashItem {
    HashItem::named(name, text(name))
}

#[test]
fn string_encoding_is_tag_length_payload() {
    let encoded = text("a").encode();
    let mut expected = vec![b's'];
    expected.extend_from_slice(&[0u8; 15]);
    expected.push(1);
    expected.push(b'a');
    assert_eq!(encoded, expected);
}

#[test]
fn hash_is_deterministic() {
    let first = HashItem::List(vec![field("a"), field("b")]);
    let second = HashItem::List(vec![field("a"), field("b")]);
    assert_eq!(first.hash(), first.hash());
    assert_eq!(first.hash(), second.hash());
}

#[test]
fn nested_list_differs_from_flat_list() {
    let flat = HashItem::List(vec![field("a"), field("b")]);
    let nested = HashItem::List(vec![HashItem::List(vec![field("a"), field("b")])]);
    assert_ne!(flat.encode(), nested.encode());
    assert_ne!(flat.hash(), nested.hash());
    assert_eq!(
        flat.hash(),
        "d42e60abda9ceb785111cbdbe7faa167fa98bc56626b31baa87fb68bc8da613e"
    );
    assert_eq!(
        nested.hash(),
        "9d21c975a5073235cc3409f4707b8fa7139d65d43add6f636d39be382ba86c6e"
    );
}

#[test]
fn added_field_changes_hash() {
    let before = HashItem::List(vec![field("a"), field("b")]);
    let after = HashItem::List(vec![field("a"), field("b"), field("c")]);
    assert_ne!(before.encode(), after.encode());
    assert_ne!(before.hash(), after.hash());
}

#[test]
fn known_vector() {
    let tree = HashItem::List(vec![
        field("a"),
        field("b"),
        HashItem::List(vec![field("c"), field("d")]),
    ]);
    assert_eq!(
        tree.hash(),
        "1c292ae624b26d6cdb8a0f874d05f52fa48d57e7fa34bac895c1590f08189f4a"
    );
}

#[test]
fn empty_list_hash() {
    assert_eq!(
        HashItem::List(vec![]).hash(),
        "8e2db16d7d71e1fb276f632b6f222b3801f36b137969359da3906f7073968724"
    );
}

#[test]
fn raw_is_embedded_verbatim() {
    let inner = text("a").encode();
    assert_eq!(HashItem::Raw(inner.clone()).encode(), inner);
    assert_eq!(
        HashItem::Raw(vec![]).hash(),
        "e3b0c44298fc1c149afbf4c8996fb92427ae41e4649b934ca495991b7852b855"
    );
}

#[test]
fn variants_have_distinct_tags() {
    let payload = "1.0.0";
    let as_string = HashItem::String(payload.to_string()).encode();
    let as_version = HashItem::SemanticVersion(payload.to_string()).encode();
    let as_path = HashItem::Path(payload.to_string()).encode();
    let as_bytes = HashItem::Bytes(payload.as_bytes().to_vec()).encode();
    assert_eq!(as_string[0], b's');
    assert_eq!(as_version[0], b'v');
    assert_eq!(as_path[0], b'p');
    assert_eq!(as_bytes[0], b'b');
    assert_eq!(as_string[1..], as_version[1..]);
    assert_eq!(as_string[1..], as_path[1..]);
    assert_eq!(as_string[1..], as_bytes[1..]);
}

#[test]
fn structural_items_embed_no_raw_bytes() {
    let tree = HashItem::List(vec![
        field("a"),
        HashItem::named("b", HashItem::Bytes(vec![1, 2, 3])),
        HashItem::List(vec![HashItem::Path("p".to_string())]),
    ]);
    assert!(tree.is_structural());
    assert!(HashItem::List(vec![]).is_structural());
    assert!(!HashItem::Raw(vec![]).is_structural());
    let embedded = HashItem::List(vec![
        field("a"),
        HashItem::named("b", HashItem::Raw(text("x").encode())),
    ]);
    assert!(!embedded.is_structural());
}

#[test]
fn raw_bytes_can_copy_another_item() {
    let item = text("a");
    let copy = HashItem::Raw(item.encode());
    assert_eq!(item.encode(), copy.encode());
    assert_eq!(item.hash(), copy.hash());
}

fn hex(bytes: &[u8]) -> String {
    bytes.iter().map(|b| format!("{:02x}", b)).collect()
}

#[test]
fn length_prefix_counts_utf8_bytes() {
    assert_eq!(
        hex(&text("é").encode()),
        "7300000000000000000000000000000002c3a9"
    );
}

#[test]
fn list_prefix_counts_items() {
    let list = HashItem::List(vec![text("a"), HashItem::Bytes(vec![0x00, 0xff])]);
    assert_eq!(
        hex(&list.encode()),
        "6c00000000000000000000000000000002730000000000000000000000000000000161620000000000000000000000000000000200ff"
    );
}

#[test]
fn named_is_name_then_value() {
    let named = HashItem::named("k", HashItem::Path("x/y".to_string()));
    assert_eq!(
        hex(&named.encode()),
        "6e000000000000000000000000000000016b7000000000000000000000000000000003782f79"
    );
}

#[test]
fn version_hash_vector() {
    assert_eq!(
        HashItem::SemanticVersion("1.2.3-rc.1+build".to_string()).hash(),
        "2401e8c650b7c8b8823c2317fc17fff690425bd2ddbb7a6108c0cccbccea0e03"
    );
}

#[test]
fn long_payload_uses_wide_prefix() {
    let encoded = HashItem::Bytes(vec![7u8; 70000]).encode();
    assert_eq!(encoded.len(), 1 + 16 + 70000);
    assert_eq!(&encoded[1..14], &[0u8; 13]);
    assert_eq!(&encoded[14..17], &[0x01, 0x11, 0x70]);
}
