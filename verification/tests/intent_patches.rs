//! The bytes of patches and hunks, and the ranges of a change.

use sigil_kernel::intent::{IntentByteRangeV1, IntentContentDigest, IntentDigest};
use sigil_kernel::intent_patch::{
    canonical_changed_ranges, decode_exact_intent_patch, encode_hunk, encode_patch,
    MaterializedIntentFile, PatchDirection,
};

fn text(value: &str) -> String {
    value.to_owned()
}

fn range(start: u64, end: u64) -> IntentByteRangeV1 {
    IntentByteRangeV1 { start, end }
}

fn file(path: &str, before: Option<&str>, after: Option<&str>) -> MaterializedIntentFile {
    let old = before.unwrap_or("").as_bytes();
    let new = after.unwrap_or("").as_bytes();
    let (old_range, new_range) = canonical_changed_ranges(old, new).unwrap();
    let old_changed = old[old_range.start as usize..old_range.end as usize].to_vec();
    let new_changed = new[new_range.start as usize..new_range.end as usize].to_vec();
    MaterializedIntentFile {
        path: text(path),
        before: before.map(|value| value.as_bytes().to_vec()),
        after: after.map(|value| value.as_bytes().to_vec()),
        before_digest: IntentContentDigest::from_bytes(old),
        after_digest: IntentContentDigest::from_bytes(new),
        old_range,
        new_range,
        old_content_digest: IntentContentDigest::from_bytes(&old_changed),
        new_content_digest: IntentContentDigest::from_bytes(&new_changed),
        old_changed_bytes: old_changed,
        new_changed_bytes: new_changed,
        source_event_id: text("event-1"),
        mutation_identity: text("op-1"),
        changeset_id: text("cs-1"),
    }
}

fn field(out: &mut Vec<u8>, value: &[u8]) {
    out.extend_from_slice(&(value.len() as u64).to_be_bytes());
    out.extend_from_slice(value);
}

fn forward(files: &Vec<MaterializedIntentFile>) -> Vec<u8> {
    encode_patch(files, PatchDirection::Forward).unwrap()
}

fn refused(bytes: &[u8]) -> String {
    decode_exact_intent_patch(bytes).unwrap_err().message
}

#[test]
fn patches_have_one_layout() {
    let files = vec![file("a.txt", Some("one"), Some("two"))];
    let mut expected = b"sigil-intent-patch-v1\0".to_vec();
    expected.extend_from_slice(&[0, 0, 0, 1]);
    field(&mut expected, b"a.txt");
    expected.push(1);
    field(&mut expected, IntentContentDigest::from_bytes(b"one").as_str().as_bytes());
    expected.push(1);
    field(&mut expected, b"two");
    assert_eq!(forward(&files), expected);
}

#[test]
fn patches_are_read_back() {
    let files = vec![
        file("a.txt", Some("one"), Some("two")),
        file("b/new.txt", None, Some("fresh")),
        file("c.txt", Some("gone"), None),
    ];
    let read = decode_exact_intent_patch(&forward(&files)).unwrap();
    assert_eq!(read.len(), 3);
    assert_eq!(read[0].path, "a.txt");
    assert!(read[0].expected_present);
    assert_eq!(read[0].expected_digest, IntentContentDigest::from_bytes(b"one"));
    assert_eq!(read[0].target, Some(b"two".to_vec()));
    assert!(!read[1].expected_present);
    assert_eq!(read[1].expected_digest, IntentContentDigest::from_bytes(b""));
    assert_eq!(read[2].target, None);
}

#[test]
fn reverse_patches_take_the_change_back() {
    let files = vec![file("a.txt", Some("one"), Some("two")), file("b.txt", None, Some("fresh"))];
    let reverse = encode_patch(&files, PatchDirection::Reverse).unwrap();
    let read = decode_exact_intent_patch(&reverse).unwrap();
    assert_eq!(read[0].expected_digest, IntentContentDigest::from_bytes(b"two"));
    assert_eq!(read[0].target, Some(b"one".to_vec()));
    assert!(read[1].expected_present);
    assert_eq!(read[1].target, None);
}

#[test]
fn malformed_patches_are_refused() {
    let whole = forward(&vec![file("a.txt", Some("one"), Some("two"))]);
    assert_eq!(refused(b"sigil-intent-patch-v2\0"), "Intent patch has an invalid format marker");
    assert_eq!(refused(b"sigil"), "Intent patch is truncated");
    assert_eq!(refused(&whole[..whole.len() - 1]), "Intent patch is truncated");
    for end in 0..whole.len() {
        assert!(decode_exact_intent_patch(&whole[..end]).is_err());
    }
    let mut longer = whole.clone();
    longer.push(0);
    assert_eq!(refused(&longer), "Intent patch contains trailing bytes");
    let mut none = whole.clone();
    none[25] = 0;
    assert_eq!(refused(&none), "Intent patch file count is outside the supported range");
    let mut many = whole.clone();
    many[23] = 1;
    assert_eq!(refused(&many), "Intent patch file count is outside the supported range");
    let mut flag = whole.clone();
    flag[39] = 2;
    assert_eq!(refused(&flag), "Intent patch contains an invalid presence flag");
    let mut oversized = whole.clone();
    oversized[30] = 1;
    assert_eq!(refused(&oversized), "Intent patch field exceeds its bounded size");
    let mut path = whole.clone();
    path[34] = 0xff;
    assert_eq!(refused(&path), "Intent patch path is not UTF-8");
    let mut escaping = whole.clone();
    escaping[34] = b'/';
    assert_eq!(refused(&escaping), "Intent patch contains an invalid or duplicate path");
    let mut digest = whole;
    digest[48] = b'S';
    assert_eq!(refused(&digest), "intent content digest must use sha256:");
    let twice = vec![file("a.txt", Some("1"), Some("2")), file("a.txt", Some("1"), Some("3"))];
    assert_eq!(refused(&forward(&twice)), "Intent patch contains an invalid or duplicate path");
}

#[test]
fn hunks_hold_the_changed_bytes() {
    let change = file("a.txt", Some("fn old() {}\n"), Some("fn new() {}\n"));
    let digest = IntentDigest::new(format!("sha256:jcs-v1:{}", "0".repeat(64))).unwrap();
    let mut expected = b"sigil-intent-hunk-v1\0".to_vec();
    field(&mut expected, b"a.txt");
    field(&mut expected, digest.as_str().as_bytes());
    for bound in [3u64, 6, 3, 6] {
        expected.extend_from_slice(&bound.to_be_bytes());
    }
    field(&mut expected, b"old");
    field(&mut expected, b"new");
    assert_eq!(encode_hunk(&change, &digest), expected);
}

#[test]
fn ranges_hold_the_change_and_nothing_more() {
    let ranges = |before: &str, after: &str| {
        canonical_changed_ranges(before.as_bytes(), after.as_bytes()).unwrap()
    };
    assert_eq!(ranges("fn old() {}", "fn new() {}"), (range(3, 6), range(3, 6)));
    assert_eq!(ranges("", "abc"), (range(0, 0), range(0, 3)));
    assert_eq!(ranges("abc", ""), (range(0, 3), range(0, 0)));
    assert_eq!(ranges("aa", "aaa"), (range(2, 2), range(2, 3)));
    assert_eq!(ranges("ab", "acb"), (range(1, 1), range(1, 2)));
}

#[test]
fn ranges_keep_whole_characters() {
    let (old, new) =
        canonical_changed_ranges("x\u{e9}y".as_bytes(), "x\u{e8}y".as_bytes()).unwrap();
    assert_eq!((old, new), (range(1, 3), range(1, 3)));
    let (old, new) =
        canonical_changed_ranges("\u{e9}".as_bytes(), "\u{129}".as_bytes()).unwrap();
    assert_eq!((old, new), (range(0, 2), range(0, 2)));
}

#[test]
fn changes_must_change_text() {
    let failure = |before: &[u8], after: &[u8]| {
        canonical_changed_ranges(before, after).unwrap_err().message
    };
    assert_eq!(failure(b"same", b"same"), "Intent layer cannot materialize a no-op file delta");
    assert_eq!(failure(&[0xff], b"a"), "Intent layer before content is not UTF-8");
    assert_eq!(failure(b"a", &[0xc3]), "Intent layer after content is not UTF-8");
}
