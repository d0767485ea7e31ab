use abi_stable::tag::{compare, KeyValue, Tag, TagKind, TagMismatch};

fn entry(key: &str, value: Tag) -> KeyValue {
    KeyValue { key: key.to_string(), value }
}

fn required_traits(names: &[&str]) -> Tag {
    let inner = names.iter().map(|n| entry(n, Tag::Bool(true))).collect();
    Tag::MapOf(vec![entry("required traits", Tag::MapOf(inner))])
}

#[test]
fn child_with_more_keys_is_accepted() {
    let parent = required_traits(&["Debug"]);
    let child = required_traits(&["Debug", "Clone"]);
    assert_eq!(compare(&parent, &child), Ok(()));
}

#[test]
fn child_missing_a_key_is_rejected() {
    let parent = required_traits(&["Debug", "Clone"]);
    let child = required_traits(&["Debug"]);
    assert_eq!(
        compare(&parent, &child),
        Err(vec![TagMismatch::MissingKey { key: "Clone".to_string() }])
    );
}

#[test]
fn null_parent_matches_anything() {
    assert_eq!(compare(&Tag::Null, &Tag::Int(3)), Ok(()));
    assert_eq!(compare(&Tag::Null, &Tag::Arr(vec![Tag::Null])), Ok(()));
    let parent = Tag::Arr(vec![Tag::Null, Tag::UInt(1)]);
    let child = Tag::Arr(vec![Tag::Str("x".to_string()), Tag::UInt(1)]);
    assert_eq!(compare(&parent, &child), Ok(()));
}

#[test]
fn null_child_does_not_match_a_value() {
    assert_eq!(
        compare(&Tag::Int(3), &Tag::Null),
        Err(vec![TagMismatch::MismatchedKind { expected: TagKind::Int, found: TagKind::Null }])
    );
}

#[test]
fn scalars_must_be_equal() {
    assert_eq!(compare(&Tag::Int(3), &Tag::Int(3)), Ok(()));
    assert_eq!(
        compare(&Tag::Int(3), &Tag::Int(4)),
        Err(vec![TagMismatch::MismatchedValue { expected: Tag::Int(3), found: Tag::Int(4) }])
    );
    assert_eq!(
        compare(&Tag::Int(3), &Tag::UInt(3)),
        Err(vec![TagMismatch::MismatchedKind { expected: TagKind::Int, found: TagKind::UInt }])
    );
    let one = Tag::Float(1.0f64.to_bits());
    let other = Tag::Float(1.5f64.to_bits());
    assert_eq!(compare(&one, &one), Ok(()));
    assert!(compare(&one, &other).is_err());
}

#[test]
fn arrays_are_compared_in_order() {
    let parent = Tag::Arr(vec![Tag::Int(1), Tag::Int(2)]);
    let swapped = Tag::Arr(vec![Tag::Int(2), Tag::Int(1)]);
    let longer = Tag::Arr(vec![Tag::Int(1), Tag::Int(2), Tag::Int(3)]);
    assert_eq!(compare(&parent, &parent), Ok(()));
    assert_eq!(
        compare(&parent, &swapped),
        Err(vec![
            TagMismatch::MismatchedValue { expected: Tag::Int(1), found: Tag::Int(2) },
            TagMismatch::MismatchedValue { expected: Tag::Int(2), found: Tag::Int(1) },
        ])
    );
    assert_eq!(
        compare(&parent, &longer),
        Err(vec![TagMismatch::MismatchedArrayLength { expected: 2, found: 3 }])
    );
}

#[test]
fn sets_are_compared_by_containment() {
    let parent = Tag::SetOf(vec![Tag::Str("Send".to_string())]);
    let child = Tag::SetOf(vec![Tag::Str("Sync".to_string()), Tag::Str("Send".to_string())]);
    assert_eq!(compare(&parent, &child), Ok(()));
    assert_eq!(
        compare(&child, &parent),
        Err(vec![TagMismatch::MissingElement { element: Tag::Str("Sync".to_string()) }])
    );
}

#[test]
fn all_mismatches_are_collected() {
    let parent = Tag::MapOf(vec![
        entry("a", Tag::Int(1)),
        entry("b", Tag::Bool(true)),
        entry("c", Tag::Int(3)),
    ]);
    let child = Tag::MapOf(vec![entry("c", Tag::Int(4)), entry("a", Tag::UInt(1))]);
    assert_eq!(
        compare(&parent, &child),
        Err(vec![
            TagMismatch::MismatchedKind { expected: TagKind::Int, found: TagKind::UInt },
            TagMismatch::MissingKey { key: "b".to_string() },
            TagMismatch::MismatchedValue { expected: Tag::Int(3), found: Tag::Int(4) },
        ])
    );
}

#[test]
fn duplicate_keys_are_not_well_formed() {
    let twice = Tag::MapOf(vec![entry("a", Tag::Int(1)), entry("a", Tag::Int(2))]);
    assert!(!twice.is_well_formed());
    assert!(!Tag::Arr(vec![Tag::Null, twice]).is_well_formed());
    assert!(required_traits(&["Debug", "Clone"]).is_well_formed());
}

#[test]
fn duplicate_and_equals_agree() {
    let tag = required_traits(&["Debug", "Clone"]);
    let copy = tag.duplicate();
    assert!(tag.equals(&copy));
    assert_eq!(tag, copy);
    assert!(!tag.equals(&required_traits(&["Debug"])));
    assert_eq!(tag.kind(), TagKind::MapOf);
}
