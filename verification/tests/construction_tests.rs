use abi_stable::abi_stability::checked_layouts::{CheckOutcome, CheckedLayouts};
use abi_stable::abi_stability::stable_abi_trait::{
    get_abi_info, get_ssa_abi_info, AbiInfo, AbiInfoWrapper, GetAbiInfo, MakeGetAbiInfo,
    MakeGetAbiInfoSA, MakeGetAbiInfoUF, PrefixKind, SharedStableAbi, SharedStableAbi_Bound,
    StableAbi, StableAbi_Bound, TypeKind, TypeKindTrait, UnsafeOpaqueField,
    UnsafeOpaqueField_Bound, ValueKind,
};
use abi_stable::erased_types::type_info::TypeInfo;
use abi_stable::reflection::ModReflMode;
use abi_stable::sabi_trait::robject::{sabi_check_same_utypeid, UneraseError};
use abi_stable::sabi_types::MaybeCmp;
use abi_stable::std_types::utypeid::UTypeId;
use abi_stable::tag::Tag;
use abi_stable::type_layout::construction::{ItemInfo, ModPath, TypeLayoutParams};
use abi_stable::type_layout::{
    counts_equal, DiscriminantRepr, GenericParams, IsExhaustive, ReprAttr, TLData,
    TLDiscriminants, TLEnum, TLField, TLPrefixType, TLPrimitive, TypeLayout,
};
use abi_stable::utils::{max_by, min_by, min_max_by, to_decimal};

#[test]
fn package_and_version_are_split_at_the_first_separator() {
    let split = |text: &str| {
        let info = ItemInfo::new(text, 1, ModPath::No);
        let (package, version) = info.package_and_version();
        (package.to_string(), version.to_string())
    };
    assert_eq!(split("std;1.0.0"), ("std".to_string(), "1.0.0".to_string()));
    assert_eq!(split("no separator"), ("no separator".to_string(), "".to_string()));
    assert_eq!(split("a;b;c"), ("a".to_string(), "b;c".to_string()));
    assert_eq!(split(""), ("".to_string(), "".to_string()));
    assert_eq!(split(";1.0"), ("".to_string(), "1.0".to_string()));
    assert_eq!(split("crate;"), ("crate".to_string(), "".to_string()));
    assert_eq!(split("caf\u{e9};\u{3b1}.1"), ("caf\u{e9}".to_string(), "\u{3b1}.1".to_string()));
}

#[test]
fn item_info_constructors_fill_in_the_place() {
    assert_eq!(
        ItemInfo::primitive(),
        ItemInfo { package_and_version: "std;1.0.0".to_string(), line: 0, mod_path: ModPath::Prelude }
    );
    assert_eq!(
        ItemInfo::std_type_in("std::marker"),
        ItemInfo {
            package_and_version: "std;1.0.0".to_string(),
            line: 0,
            mod_path: ModPath::With("std::marker".to_string()),
        }
    );
    assert_eq!(
        ItemInfo::package_and_mod("core_extensions;0.0.0", "core_extensions"),
        ItemInfo {
            package_and_version: "core_extensions;0.0.0".to_string(),
            line: 0,
            mod_path: ModPath::With("core_extensions".to_string()),
        }
    );
    let info = ItemInfo::new("example;0.3.1", 42, ModPath::inside("example::a"));
    assert_eq!(info.line, 42);
    assert_eq!(info.package_and_version(), ("example", "0.3.1"));
    assert_eq!(info.duplicate(), info);
    assert_eq!(ModPath::inside("x").duplicate(), ModPath::With("x".to_string()));
}

#[test]
fn numbers_are_written_in_base_ten() {
    assert_eq!(to_decimal(0), "0");
    assert_eq!(to_decimal(7), "7");
    assert_eq!(to_decimal(10), "10");
    assert_eq!(to_decimal(12345), "12345");
    assert_eq!(to_decimal(9080706), "9080706");
    assert_eq!(to_decimal(usize::MAX), usize::MAX.to_string());
}

#[test]
fn values_are_ordered_by_their_keys() {
    let len = |s: &&str| s.len();
    assert_eq!(min_by("ab", "c", len), "c");
    assert_eq!(min_by("a", "bc", len), "a");
    assert_eq!(min_by("a", "b", len), "b");
    assert_eq!(max_by("ab", "c", len), "ab");
    assert_eq!(max_by("a", "bc", len), "bc");
    assert_eq!(max_by("a", "b", len), "b");
    assert_eq!(min_max_by("ab", "c", len), ("c", "ab"));
    assert_eq!(min_max_by("a", "bc", len), ("a", "bc"));
    assert_eq!(min_max_by("a", "b", len), ("b", "a"));
}

fn type_info(uid: MaybeCmp<UTypeId>) -> TypeInfo {
    TypeInfo {
        size: 16,
        alignment: 8,
        _uid: uid,
        name: "Foo".to_string(),
        module: "example::foo".to_string(),
        package: "example".to_string(),
        package_version: "1.2.3".to_string(),
    }
}

#[test]
fn type_infos_agree_on_known_identities_only() {
    let one = type_info(MaybeCmp::Just(UTypeId::new(1)));
    let same = type_info(MaybeCmp::Just(UTypeId::new(1)));
    let other = type_info(MaybeCmp::Just(UTypeId::new(2)));
    let unknown = type_info(MaybeCmp::Nothing);
    assert!(one.is_compatible(&same));
    assert!(!one.is_compatible(&other));
    assert!(!one.is_compatible(&unknown));
    assert!(!unknown.is_compatible(&one));
    assert!(!unknown.is_compatible(&unknown));
    assert!(MaybeCmp::Just(UTypeId::new(4)).is_same(&MaybeCmp::Just(UTypeId::new(4))));
    assert!(!MaybeCmp::<UTypeId>::Nothing.is_same(&MaybeCmp::Nothing));
    assert!(UTypeId::new(3).same_as(&UTypeId { token: 3 }));
    assert!(!UTypeId::new(3).same_as(&UTypeId::new(4)));
}

#[test]
fn type_info_is_described_line_by_line() {
    assert_eq!(
        type_info(MaybeCmp::Nothing).to_text(),
        "type:Foo\nsize:16 alignment:8\nmodule:'example::foo'\npackage:'example'\n\
         package_version:1.2.3\n\n"
    );
}

#[test]
fn unerasing_needs_the_same_known_identity() {
    let actual = UTypeId::new(8);
    assert!(sabi_check_same_utypeid(MaybeCmp::Just(UTypeId::new(8)), actual).is_ok());
    let err = sabi_check_same_utypeid(MaybeCmp::Just(UTypeId::new(9)), actual).unwrap_err();
    assert!(matches!(err.expected_typeid, MaybeCmp::Just(UTypeId { token: 9 })));
    assert_eq!(err.actual_typeid, actual);
    let err = sabi_check_same_utypeid(MaybeCmp::Nothing, actual).unwrap_err();
    assert!(matches!(err.expected_typeid, MaybeCmp::Nothing));
    let mapped: UneraseError<String> = err.map(|()| "object".to_string());
    assert_eq!(mapped.actual_typeid, actual);
    assert!(matches!(mapped.expected_typeid, MaybeCmp::Nothing));
    assert_eq!(mapped.into_inner(), "object");
}

#[test]
fn kinds_are_read_from_their_markers() {
    assert_eq!(ValueKind::value(), TypeKind::Value);
    assert!(!ValueKind::is_prefix());
    assert_eq!(PrefixKind::value(), TypeKind::Prefix);
    assert!(PrefixKind::is_prefix());
    assert_eq!(ModReflMode::default(), ModReflMode::Opaque);
    assert_eq!(ReprAttr::c(), ReprAttr::C);
    assert!(IsExhaustive::exhaustive().is_exhaustive());
    assert!(!IsExhaustive::NonExhaustive.is_exhaustive());
}

#[test]
fn primitives_describe_themselves() {
    let info = get_abi_info::<u8>();
    assert_eq!(
        info,
        AbiInfo {
            kind: TypeKind::Value,
            prefix_kind: false,
            type_id: UTypeId::new(1),
            is_nonzero: false,
            layout: TypeLayout {
                name: "u8".to_string(),
                item_info: ItemInfo::primitive(),
                repr_attr: ReprAttr::Primitive,
                generics: GenericParams::new(0, 0, 0),
                data: TLData::Primitive(TLPrimitive::U8),
                phantom_fields: vec![],
                tag: Tag::Null,
                mod_refl_mode: ModReflMode::Module,
            },
        }
    );
    assert_eq!(get_abi_info::<u8>(), get_ssa_abi_info::<u8>());
    assert_eq!(<u8 as StableAbi>::abi_info(), info);
    assert_eq!(<u8 as StableAbi>::layout(), <u8 as SharedStableAbi>::s_layout());
    assert_eq!(get_abi_info::<isize>().layout.data, TLData::Primitive(TLPrimitive::Isize));
    assert_eq!(get_abi_info::<bool>().layout.name, "bool");
    assert_eq!(get_abi_info::<bool>().get_utypeid(), UTypeId::new(11));
    assert_eq!(get_abi_info::<()>().layout.data, TLData::empty());
    assert_eq!(get_abi_info::<()>().layout.repr_attr, ReprAttr::C);
    for valid in [get_abi_info::<i64>(), get_abi_info::<()>(), get_abi_info::<&u32>()] {
        assert!(valid.is_valid());
    }
}

#[test]
fn references_hold_their_target_as_a_phantom_field() {
    let info = get_abi_info::<&u16>();
    assert!(info.is_nonzero);
    assert_eq!(info.type_id, UTypeId::new(3 * 31 + 1));
    assert_eq!(info.layout.name, "&");
    assert_eq!(info.layout.data, TLData::Primitive(TLPrimitive::SharedRef));
    assert_eq!(info.layout.generics, GenericParams::new(1, 1, 0));
    assert_eq!(info.layout.mod_refl_mode, ModReflMode::DelegateDeref { phantom_field_index: 0 });
    assert_eq!(
        info.layout.phantom_fields,
        vec![TLField::new("0", 1, GetAbiInfo::new(get_abi_info::<u16>()))]
    );
    assert_eq!(info.layout.phantom_fields[0].abi_info.get(), &get_abi_info::<u16>());
}

#[test]
fn fields_get_the_layout_that_the_bound_selects() {
    let stable = <u32 as MakeGetAbiInfo<StableAbi_Bound>>::make();
    let shared = <u32 as MakeGetAbiInfo<SharedStableAbi_Bound>>::make();
    let opaque = <u32 as MakeGetAbiInfo<UnsafeOpaqueField_Bound>>::make();
    assert_eq!(stable.get(), &get_abi_info::<u32>());
    assert_eq!(shared, stable);
    assert_eq!(MakeGetAbiInfoSA::<u32>::stable_abi(), stable);
    assert_eq!(opaque.get().layout.data, TLData::Opaque);
    assert_eq!(opaque.get().layout.name, "OpaqueField");
    assert_eq!(opaque.get(), &get_abi_info::<UnsafeOpaqueField<String>>());
    assert_eq!(MakeGetAbiInfoUF::<Vec<u8>>::opaque_field(), opaque);
    let wrapper = AbiInfoWrapper::new(get_abi_info::<UnsafeOpaqueField<u8>>()).unwrap();
    assert_eq!(wrapper.get(), opaque.get());
}

#[test]
fn layouts_are_built_from_their_parts() {
    let params = || TypeLayoutParams {
        name: "Void".to_string(),
        item_info: ItemInfo::package_and_mod("core_extensions;0.0.0", "core_extensions"),
        data: TLData::Enum(TLEnum::new(
            vec![],
            IsExhaustive::exhaustive(),
            vec![],
            TLDiscriminants::from_u8_slice(&[]),
            vec![],
        )),
        generics: GenericParams::new(0, 0, 0),
    };
    let layout = TypeLayout::from_params(params());
    assert_eq!(layout.name, "Void");
    assert_eq!(layout.repr_attr, ReprAttr::C);
    assert_eq!(layout.tag, Tag::Null);
    assert_eq!(layout.mod_refl_mode, ModReflMode::Module);
    assert_eq!(layout.phantom_fields, vec![]);
    assert_eq!(layout.data, params().data);
    assert!(layout.is_valid());
    let changed = layout
        .set_repr_attr(ReprAttr::Transparent)
        .set_tag(Tag::Bool(true))
        .set_mod_refl_mode(ModReflMode::Opaque);
    assert_eq!(changed.repr_attr, ReprAttr::Transparent);
    assert_eq!(changed.tag, Tag::Bool(true));
    assert_eq!(changed.mod_refl_mode, ModReflMode::Opaque);
    assert_eq!(changed.name, "Void");
    let std = TypeLayout::from_std(
        "PhantomPinned",
        TLData::empty(),
        ReprAttr::c(),
        ItemInfo::std_type_in("std::marker"),
        GenericParams::new(0, 0, 0),
    );
    assert_eq!(std.name, "PhantomPinned");
    assert_eq!(std.data, TLData::struct_(vec![]));
    assert_eq!(std.item_info, ItemInfo::std_type_in("std::marker"));
    let field = TLField::new("x", 2, GetAbiInfo::new(get_abi_info::<u8>())).set_is_function(true);
    assert_eq!(field.name, "x");
    assert_eq!(field.lifetime_count, 2);
    assert!(field.is_function);
}

#[test]
fn discriminants_are_compared_with_their_integer_type() {
    let d = TLDiscriminants::from_u8_slice(&[0, 1, 255]);
    assert_eq!(d, TLDiscriminants::new(DiscriminantRepr::U8, vec![0, 1, 255]));
    assert!(d.equals(&d.duplicate()));
    assert!(!d.equals(&TLDiscriminants::new(DiscriminantRepr::I8, vec![0, 1, 255])));
    assert!(!d.equals(&TLDiscriminants::new(DiscriminantRepr::U8, vec![0, 1])));
    assert!(!d.equals(&TLDiscriminants::new(DiscriminantRepr::U8, vec![0, 2, 255])));
    assert!(counts_equal(&vec![1, 2], &vec![1, 2]));
    assert!(!counts_equal(&vec![1, 2], &vec![1, 3]));
    assert!(!counts_equal(&vec![1, 2], &vec![1]));
}

fn fields(names: &[&str]) -> Vec<TLField> {
    names.iter().map(|n| TLField::new(n, 0, GetAbiInfo::new(get_abi_info::<u8>()))).collect()
}

#[test]
fn enums_must_count_their_fields() {
    let with = |discriminants: &[u8], counts: Vec<usize>, field_names: &[&str]| {
        TLEnum::new(
            vec!["A".to_string(), "B".to_string()],
            IsExhaustive::exhaustive(),
            fields(field_names),
            TLDiscriminants::from_u8_slice(discriminants),
            counts,
        )
    };
    assert!(with(&[0, 1], vec![1, 2], &["a", "b", "c"]).is_valid());
    assert!(with(&[0, 1], vec![0, 0], &[]).is_valid());
    assert!(!with(&[0], vec![1, 2], &["a", "b", "c"]).is_valid());
    assert!(!with(&[0, 1], vec![3], &["a", "b", "c"]).is_valid());
    assert!(!with(&[0, 1], vec![1, 1], &["a", "b", "c"]).is_valid());
    assert!(!with(&[0, 1], vec![2, 2], &["a", "b", "c"]).is_valid());
    assert!(!with(&[0, 1], vec![usize::MAX, 4], &["a", "b", "c"]).is_valid());
}

#[test]
fn prefix_types_must_mark_themselves() {
    let prefix = |first: usize| TLData::PrefixType(TLPrefixType::new(first, fields(&["a", "b"])).unwrap());
    let info = |kind: TypeKind, prefix_kind: bool, data: TLData| AbiInfo {
        kind,
        prefix_kind,
        type_id: UTypeId::new(1),
        is_nonzero: false,
        layout: TypeLayout::from_std(
            "M",
            data,
            ReprAttr::C,
            ItemInfo::primitive(),
            GenericParams::new(0, 0, 0),
        ),
    };
    assert!(info(TypeKind::Prefix, true, prefix(1)).is_valid());
    assert!(info(TypeKind::Prefix, true, prefix(2)).is_valid());
    assert!(!info(TypeKind::Value, false, prefix(1)).is_valid());
    assert!(!info(TypeKind::Prefix, false, prefix(1)).is_valid());
    assert!(!info(TypeKind::Prefix, true, TLData::struct_(fields(&["a"]))).is_valid());
    assert!(info(TypeKind::Value, false, TLData::struct_(fields(&["a"]))).is_valid());
    let made = TLPrefixType::new(1, fields(&["a", "b", "c"])).unwrap();
    assert_eq!(made.first_suffix_field, 1);
    assert_eq!(made.accessible_fields.len(), 2);
    assert!(made.accessible_fields.is_accessible(1));
    assert_eq!(made.conditional_prefix_fields.len(), 2);
    let mut too_late = TLPrefixType::new(1, fields(&["a"])).unwrap();
    too_late.first_suffix_field = 2;
    assert!(!too_late.is_valid());
    assert!(!info(TypeKind::Prefix, true, TLData::PrefixType(too_late)).is_valid());
    let duplicated = Tag::MapOf(vec![
        abi_stable::tag::KeyValue { key: "k".to_string(), value: Tag::Null },
        abi_stable::tag::KeyValue { key: "k".to_string(), value: Tag::Null },
    ]);
    let mut tagged = info(TypeKind::Value, false, TLData::Opaque);
    tagged.layout = tagged.layout.set_tag(duplicated);
    assert!(!tagged.is_valid());
    assert!(AbiInfoWrapper::new(tagged).is_none());
}

#[test]
fn each_pair_of_types_is_checked_once() {
    let a = AbiInfoWrapper::new(get_abi_info::<u8>()).unwrap();
    let b = AbiInfoWrapper::new(get_abi_info::<u16>()).unwrap();
    let mut checked = CheckedLayouts::new();
    assert_eq!(checked.lookup(&a, &a), None);
    assert_eq!(checked.check(&a, &a), CheckOutcome::Checked(Ok(())));
    assert_eq!(checked.check(&a, &a), CheckOutcome::Known { compatible: true });
    assert_eq!(checked.check(&a.duplicate(), &a), CheckOutcome::Known { compatible: true });
    assert_eq!(checked.lookup(&a, &a), Some(true));
    assert_eq!(checked.lookup(&a, &b), None);
    assert!(matches!(checked.check(&a, &b), CheckOutcome::Checked(Err(_))));
    assert_eq!(checked.check(&a, &b), CheckOutcome::Known { compatible: false });
    assert_eq!(checked.lookup(&a, &b), Some(false));
    assert_eq!(checked.lookup(&b, &a), None);
    assert!(matches!(checked.check(&b, &a), CheckOutcome::Checked(Err(_))));
}

#[test]
fn types_with_the_same_identity_are_told_apart() {
    let plain = AbiInfoWrapper::new(get_abi_info::<u8>()).unwrap();
    let reference = AbiInfoWrapper::new(get_abi_info::<&UnsafeOpaqueField<u8>>()).unwrap();
    assert_eq!(plain.get().type_id, reference.get().type_id);
    let nested = AbiInfoWrapper::new(get_abi_info::<&&i8>()).unwrap();
    let array = AbiInfoWrapper::new(get_abi_info::<[u8; 838]>()).unwrap();
    assert_eq!(nested.get().type_id, array.get().type_id);

    let mut checked = CheckedLayouts::new();
    assert_eq!(checked.check(&plain, &plain), CheckOutcome::Checked(Ok(())));
    let outcome = checked.check(&reference, &plain);
    assert_eq!(
        outcome,
        CheckOutcome::Checked(abi_stable::abi_stability::abi_checking::check_layout_compatibility(
            &reference, &plain
        ))
    );
    assert!(matches!(outcome, CheckOutcome::Checked(Err(_))));
    assert_eq!(checked.check(&reference, &plain), CheckOutcome::Known { compatible: false });
    assert_eq!(checked.check(&plain, &plain), CheckOutcome::Known { compatible: true });
    assert_eq!(checked.check(&nested, &nested), CheckOutcome::Checked(Ok(())));
    assert!(matches!(checked.check(&array, &nested), CheckOutcome::Checked(Err(_))));
    assert_eq!(checked.lookup(&nested, &array), None);
    assert_eq!(checked.lookup(&array, &nested), Some(false));

    // The same type under another identity is another pair.
    let mut renumbered = get_abi_info::<u8>();
    renumbered.type_id = UTypeId::new(77);
    let renumbered = AbiInfoWrapper::new(renumbered).unwrap();
    assert_eq!(checked.lookup(&renumbered, &plain), None);
    assert_eq!(checked.check(&renumbered, &plain), CheckOutcome::Checked(Ok(())));
}

#[test]
fn layouts_are_equal_part_for_part() {
    let base = || get_abi_info::<Option<&[std::marker::PhantomData<u8>; 2]>>();
    assert!(base().equals(&base()));
    assert!(base().layout.equals(&base().layout));
    assert!(base().layout.data.equals(&base().layout.data));
    let mut other = base();
    other.is_nonzero = true;
    assert!(!base().equals(&other));
    let mut other = base();
    other.type_id = UTypeId::new(1);
    assert!(!base().equals(&other));
    let mut other = base();
    other.layout.name = "Maybe".to_string();
    assert!(!base().equals(&other));
    let mut other = base();
    other.layout.item_info.line = 3;
    assert!(!base().equals(&other));
    let mut other = base();
    other.layout.tag = Tag::Bool(false);
    assert!(!base().equals(&other));
    assert!(!base().equals(&get_abi_info::<Option<&[std::marker::PhantomData<u8>; 3]>>()));
    assert!(!base().equals(&get_abi_info::<Option<&[std::marker::PhantomData<i8>; 2]>>()));
    assert!(!get_abi_info::<u8>().equals(&get_abi_info::<()>()));

    let field = |name: &str| TLField::new(name, 0, GetAbiInfo::new(get_abi_info::<u8>()));
    assert!(field("a").equals(&field("a")));
    assert!(!field("a").equals(&field("b")));
    assert!(!field("a").equals(&field("a").set_is_function(true)));
    assert!(!field("a").equals(&TLField::new("a", 1, GetAbiInfo::new(get_abi_info::<u8>()))));
    let prefix = |first: usize, names: &[&str]| TLPrefixType::new(first, fields(names)).unwrap();
    assert!(prefix(1, &["a", "b"]).equals(&prefix(1, &["a", "b"])));
    assert!(!prefix(1, &["a", "b"]).equals(&prefix(2, &["a", "b"])));
    assert!(!prefix(1, &["a", "b"]).equals(&prefix(1, &["a", "b", "c"])));
    assert!(!TLData::PrefixType(prefix(1, &["a"])).equals(&TLData::struct_(fields(&["a"]))));
    assert!(ItemInfo::primitive().equals(&ItemInfo::primitive()));
    assert!(!ItemInfo::primitive().equals(&ItemInfo::std_type_in("std")));
    assert!(ModPath::inside("a").equals(&ModPath::inside("a")));
    assert!(!ModPath::inside("a").equals(&ModPath::No));
}

fn std_field(name: &str, lifetime_count: usize, target: AbiInfo) -> TLField {
    TLField::new(name, lifetime_count, GetAbiInfo::new(target))
}

#[test]
fn identities_of_made_types_are_derived() {
    assert_eq!(get_abi_info::<&u8>().type_id, UTypeId::new(32));
    assert_eq!(get_abi_info::<&&u8>().type_id, UTypeId::new(32 * 31 + 1));
    assert_eq!(get_abi_info::<&mut u8>().type_id, UTypeId::new(33));
    assert_eq!(get_abi_info::<[u8; 4]>().type_id, UTypeId::new((31 + 5) * 31 + 4));
    assert_eq!(get_abi_info::<Option<&u8>>().type_id, UTypeId::new(32 * 31 + 6));
    assert_eq!(get_abi_info::<std::marker::PhantomData<u8>>().type_id, UTypeId::new(38));
    assert_eq!(get_abi_info::<std::mem::ManuallyDrop<u8>>().type_id, UTypeId::new(39));
    let mut deep = get_abi_info::<&&&&&&&&&&&&&&u64>().type_id.token as u128;
    deep = (deep * 31 + 1) % (1u128 << 64);
    assert_eq!(get_abi_info::<&&&&&&&&&&&&&&&u64>().type_id, UTypeId::new(deep as u64));
    assert!(deep > u32::MAX as u128);
}

#[test]
fn mutable_references_and_arrays_are_primitives() {
    let info = get_abi_info::<&mut i32>();
    assert!(info.is_nonzero);
    assert_eq!(info.layout.name, "&mut");
    assert_eq!(info.layout.data, TLData::Primitive(TLPrimitive::MutRef));
    assert_eq!(info.layout.repr_attr, ReprAttr::Primitive);
    assert_eq!(info.layout.generics, GenericParams::new(1, 1, 0));
    assert_eq!(info.layout.mod_refl_mode, ModReflMode::Module);
    assert_eq!(info.layout.phantom_fields, vec![std_field("0", 1, get_abi_info::<i32>())]);

    let info = get_abi_info::<[u16; 3]>();
    assert!(!info.is_nonzero);
    assert_eq!(info.layout.name, "array");
    assert_eq!(info.layout.data, TLData::Primitive(TLPrimitive::Array { len: 3 }));
    assert_eq!(info.layout.generics, GenericParams::new(0, 1, 1));
    assert_eq!(info.layout.phantom_fields, vec![std_field("element", 0, get_abi_info::<u16>())]);
    assert!(info.is_valid());
}

#[test]
fn optional_values_need_an_invalid_bit_pattern() {
    let info = get_abi_info::<Option<&u8>>();
    assert_eq!(info.layout.name, "Option");
    assert_eq!(info.layout.repr_attr, ReprAttr::OptionNonZero);
    assert_eq!(
        info.layout.data,
        TLData::Enum(TLEnum::new(
            vec!["Some".to_string(), "None".to_string()],
            IsExhaustive::exhaustive(),
            vec![std_field("0", 0, get_abi_info::<&u8>())],
            TLDiscriminants::from_u8_slice(&[0, 1]),
            vec![1, 0],
        ))
    );
    assert!(!info.is_nonzero);
    assert!(info.is_valid());
    assert!(AbiInfoWrapper::new(info).is_some());
    assert!(!get_abi_info::<Option<u8>>().is_valid());
    assert!(AbiInfoWrapper::new(get_abi_info::<Option<u8>>()).is_none());
    assert!(!get_abi_info::<Option<Option<&u8>>>().is_valid());
    let claimed = get_abi_info::<()>().layout.set_repr_attr(ReprAttr::OptionNonZero);
    assert!(!claimed.is_valid());
}

#[test]
fn markers_and_wrappers_describe_their_content() {
    let info = get_abi_info::<std::marker::PhantomData<bool>>();
    assert_eq!(info.layout.name, "PhantomData");
    assert_eq!(info.layout.item_info, ItemInfo::std_type_in("std::marker"));
    assert_eq!(info.layout.data, TLData::empty());
    assert_eq!(info.layout.repr_attr, ReprAttr::C);
    assert_eq!(info.layout.phantom_fields, vec![std_field("0", 0, get_abi_info::<bool>())]);

    let info = get_abi_info::<std::mem::ManuallyDrop<&u8>>();
    assert!(info.is_nonzero);
    assert!(!get_abi_info::<std::mem::ManuallyDrop<u8>>().is_nonzero);
    assert_eq!(info.layout.name, "ManuallyDrop");
    assert_eq!(info.layout.item_info, ItemInfo::std_type_in("std::mem"));
    assert_eq!(info.layout.repr_attr, ReprAttr::Transparent);
    assert_eq!(info.layout.data, TLData::struct_(vec![std_field("0", 0, get_abi_info::<&u8>())]));
    assert_eq!(info.layout.phantom_fields, vec![]);
    assert!(AbiInfoWrapper::new(get_abi_info::<Option<std::mem::ManuallyDrop<&u8>>>()).is_some());
}

#[test]
fn copies_are_equal_to_what_they_copy() {
    let info = get_abi_info::<Option<&[std::marker::PhantomData<u8>; 2]>>();
    assert_eq!(info.duplicate(), info);
    assert_eq!(info.layout.duplicate(), info.layout);
    assert_eq!(info.layout.data.duplicate(), info.layout.data);
    let wrapper = AbiInfoWrapper::new(info).unwrap();
    assert_eq!(wrapper.duplicate(), wrapper);
    let prefix = TLPrefixType::new(1, fields(&["a", "b"])).unwrap();
    assert_eq!(prefix.duplicate(), prefix);
    assert_eq!(prefix.fields[0].duplicate(), prefix.fields[0]);
    assert_eq!(prefix.fields[0].abi_info.duplicate(), prefix.fields[0].abi_info);
    assert_eq!(prefix.accessible_fields.duplicate(), prefix.accessible_fields);
}
