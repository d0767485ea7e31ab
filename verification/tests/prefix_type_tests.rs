use abi_stable::abi_stability::stable_abi_trait::{get_abi_info, GetAbiInfo};
use abi_stable::type_layout::TLField;
use abi_stable::prefix_type::{
    panic_on_missing_field_ty, panic_on_missing_field_val, panic_on_missing_fieldname,
    EmptyPrefixType, FieldAccess, FieldAccessibility, IsAccessible, IsConditional, OnMissingField,
    PTStructLayout, PrefixTypeTrait, WithMetadataFor, WithMetadata_,
};

fn layout(version: &str, field_names: &[&str]) -> PTStructLayout {
    PTStructLayout {
        name: "Module".to_string(),
        generics: "<T>".to_string(),
        package: "example".to_string(),
        package_version: version.to_string(),
        file: "src/lib.rs".to_string(),
        line: 12,
        size: 24,
        alignment: 8,
        field_names: field_names.iter().map(|n| n.to_string()).collect(),
    }
}

fn value_with(first_suffix_field: usize, flags: Vec<bool>) -> WithMetadata_<u32, ()> {
    let metadata = WithMetadataFor::new(
        first_suffix_field,
        FieldAccessibility::from_flags(flags),
        layout("0.1.0", &["a", "b", "c"]),
    );
    WithMetadata_::new(metadata, 7)
}

#[test]
fn is_conditional_is_made_from_a_flag() {
    assert_eq!(IsConditional::new(true), IsConditional::Yes);
    assert_eq!(IsConditional::new(false), IsConditional::No);
    assert!(IsConditional::Yes.is_conditional());
    assert!(!IsConditional::No.is_conditional());
    assert_eq!(IsAccessible::new(true), IsAccessible::Yes);
    assert_eq!(IsAccessible::new(false), IsAccessible::No);
    assert!(IsAccessible::Yes.is_accessible());
    assert!(!IsAccessible::No.is_accessible());
}

#[test]
fn field_accessibility_records_positions() {
    let acc = FieldAccessibility::with_field_count(3);
    assert_eq!(acc.len(), 3);
    assert!(acc.is_accessible(0));
    assert!(acc.is_accessible(2));
    assert!(!acc.is_accessible(3));
    assert_eq!(FieldAccessibility::empty().len(), 0);
    assert!(!FieldAccessibility::empty().is_accessible(0));

    let acc = acc.set_accessibility(1, IsAccessible::No);
    assert_eq!(acc, FieldAccessibility::from_flags(vec![true, false, true]));
    let acc = acc.set_accessibility(5, IsAccessible::Yes);
    assert_eq!(acc, FieldAccessibility::from_flags(vec![true, false, true, false, false, true]));
    let acc = acc.truncated(3);
    assert_eq!(acc, FieldAccessibility::from_flags(vec![true, false, true]));
    let acc = acc.truncated(10);
    assert_eq!(acc.len(), 3);
}

#[test]
fn value_keeps_its_metadata() {
    let with = value_with(1, vec![true, false]);
    assert_eq!(with._prefix_type_first_suffix_field, 1);
    assert_eq!(with._prefix_type_field_acc, FieldAccessibility::from_flags(vec![true, false]));
    assert_eq!(with._prefix_type_layout, layout("0.1.0", &["a", "b", "c"]));
    assert_eq!(with.original, 7);
    assert_eq!(with.into_full(), 7);
}

#[test]
fn prefix_fields_always_exist() {
    let with = value_with(2, vec![false, true]);
    assert!(with.is_accessible(0));
    assert!(with.is_accessible(1));
    assert!(!with.is_accessible(2));
    assert!(with.is_accessible(3));
    assert!(!with.is_accessible(4));
    assert!(!with.is_accessible(usize::MAX));
}

#[test]
fn missing_fields_follow_the_policy() {
    let with = value_with(1, vec![true, false]);
    for policy in [
        OnMissingField::Panic,
        OnMissingField::ReturnOption,
        OnMissingField::UseDefault,
        OnMissingField::Compute,
    ] {
        assert_eq!(with.access(0, None, policy), FieldAccess::Read);
        assert_eq!(with.access(1, None, policy), FieldAccess::Read);
        assert_eq!(with.access(1, Some(true), policy), FieldAccess::Read);
    }
    assert_eq!(with.access(2, None, OnMissingField::Panic), FieldAccess::Fail);
    assert_eq!(with.access(2, None, OnMissingField::ReturnOption), FieldAccess::Absent);
    assert_eq!(with.access(2, None, OnMissingField::UseDefault), FieldAccess::Default);
    assert_eq!(with.access(2, None, OnMissingField::Compute), FieldAccess::Computed);
    assert_eq!(with.access(9, Some(true), OnMissingField::ReturnOption), FieldAccess::Absent);
    // A field that exists, but whose condition does not hold, is not read.
    assert_eq!(with.access(1, Some(false), OnMissingField::Panic), FieldAccess::Fail);
    assert_eq!(with.access(1, Some(false), OnMissingField::UseDefault), FieldAccess::Default);
}

#[test]
fn field_names_are_found_by_index() {
    let l = layout("0.1.0", &["a", "b"]);
    assert_eq!(l.get_field_name(1), Some(&"b".to_string()));
    assert_eq!(l.get_field_name(2), None);
    assert_eq!(l.duplicate(), l);
}

#[test]
fn missing_field_message_names_both_sides() {
    let expected = layout("0.2.0", &["a", "b", "c"]);
    let actual = layout("0.1.0", &["a"]);
    let message = panic_on_missing_field_val(2, "c", &expected, &actual);
    assert_eq!(
        message,
        "\n\nAttempting to access nonexistent field:\n    index:2 \n    named:c\n\n\
         Inside of:Module<T>\n\nPackage:'example' \n\nExpected:\n    Version:0.2.0 \
         (or compatible version number)\n    Field count:3\n\nFound:\n    Version:0.1.0\n    \
         Field count:1\n\n\n"
    );
}

#[test]
fn missing_field_of_a_type_is_named_from_its_layout() {
    let actual = layout("0.1.0", &["a"]);
    let message = panic_on_missing_field_ty::<EmptyPrefixType>(12, &actual);
    let expected = EmptyPrefixType::pt_layout();
    assert_eq!(message, panic_on_missing_field_val(12, "<unavailable>", &expected, &actual));
    assert!(message.contains("index:12 \n    named:<unavailable>\n"));
    assert!(message.contains("Inside of:EmptyPrefixType\n"));
    assert!(message.contains("Expected:\n    Version:0.0.0 (or compatible version number)\n    Field count:0\n"));
}

#[test]
fn missing_field_by_name_is_reported_in_its_own_spelling() {
    let actual = layout("0.1.0", &["a"]);
    let message = panic_on_missing_fieldname::<EmptyPrefixType>(12, &actual);
    let expected = EmptyPrefixType::pt_layout();
    assert_eq!(message, panic_on_missing_field_val(12, "<unavaiable>", &expected, &actual));
    assert!(message.contains("index:12 \n    named:<unavaiable>\n"));
    assert!(!message.contains("<unavailable>"));
    assert_ne!(message, panic_on_missing_field_ty::<EmptyPrefixType>(12, &actual));
    assert_eq!(
        panic_on_missing_fieldname::<EmptyPrefixType>(255, &actual),
        panic_on_missing_field_val(255, "<unavaiable>", &expected, &actual)
    );
}

#[test]
fn empty_prefix_type_has_no_fields() {
    let with = EmptyPrefixType {}.into_with_metadata();
    assert_eq!(with._prefix_type_first_suffix_field, 0);
    assert_eq!(with._prefix_type_field_acc.len(), 0);
    assert_eq!(with.original, EmptyPrefixType {});
    assert!(!with.is_accessible(0));
    assert_eq!(with.access(0, None, OnMissingField::ReturnOption), FieldAccess::Absent);
    assert_eq!(EmptyPrefixType::pt_first_suffix_field(), 0);
    assert_eq!(EmptyPrefixType::pt_cond_prefix_fields(), vec![]);
    assert_eq!(EmptyPrefixType::pt_field_accessibility(), FieldAccessibility::empty());
}

#[test]
fn fields_declare_what_happens_when_they_are_missing() {
    let with = value_with(1, vec![true, false]);
    let field = TLField::new("c", 0, GetAbiInfo::new(get_abi_info::<u8>()));
    assert_eq!(field.on_missing, OnMissingField::ReturnOption);
    assert_eq!(with.access_field(1, &field, None), FieldAccess::Read);
    assert_eq!(with.access_field(2, &field, None), FieldAccess::Absent);
    let field = field.set_on_missing(OnMissingField::Panic);
    assert_eq!(with.access_field(2, &field, None), FieldAccess::Fail);
    assert_eq!(with.access_field(1, &field, Some(false)), FieldAccess::Fail);
}
