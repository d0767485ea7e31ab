use abi_stable::abi_stability::abi_checking::{
    check_abi_info, check_layout_compatibility, AbiInstability, Mismatch, TLDataDiscriminant,
};
use abi_stable::abi_stability::stable_abi_trait::{
    get_abi_info, AbiInfo, AbiInfoWrapper, GetAbiInfo, TypeKind,
};
use abi_stable::prefix_type::IsConditional;
use abi_stable::reflection::ModReflMode;
use abi_stable::std_types::utypeid::UTypeId;
use abi_stable::tag::{KeyValue, Tag, TagMismatch};
use abi_stable::type_layout::construction::{ItemInfo, ModPath, TypeLayoutParams};
use abi_stable::type_layout::{
    DiscriminantRepr, GenericParams, IsExhaustive, ReprAttr, TLData, TLDiscriminants, TLEnum,
    TLField, TLPrefixType, TLPrimitive, TypeLayout,
};

fn field<T: abi_stable::abi_stability::stable_abi_trait::StableAbi>(name: &str) -> TLField {
    TLField::new(name, 0, GetAbiInfo::new(get_abi_info::<T>()))
}

fn u32_fields(names: &[&str]) -> Vec<TLField> {
    names.iter().map(|n| field::<u32>(n)).collect()
}

fn declared() -> ItemInfo {
    ItemInfo::new("example;0.1.0", 7, ModPath::inside("example::types"))
}

fn mismatch(in_type: &str, kind: AbiInstability) -> Mismatch {
    Mismatch { in_type: in_type.to_string(), declared_at: declared(), kind }
}

fn layout_of(name: &str, data: TLData) -> TypeLayout {
    TypeLayout::from_params(TypeLayoutParams {
        name: name.to_string(),
        item_info: declared(),
        data,
        generics: GenericParams::new(0, 0, 0),
    })
}

fn value_info(layout: TypeLayout) -> AbiInfoWrapper {
    AbiInfoWrapper::new(AbiInfo {
        kind: TypeKind::Value,
        prefix_kind: false,
        type_id: UTypeId::new(100),
        is_nonzero: false,
        layout,
    })
    .unwrap()
}

fn prefix_info(name: &str, first_suffix_field: usize, fields: Vec<TLField>) -> AbiInfoWrapper {
    let prefix = TLPrefixType::new(first_suffix_field, fields).unwrap();
    AbiInfoWrapper::new(AbiInfo {
        kind: TypeKind::Prefix,
        prefix_kind: true,
        type_id: UTypeId::new(100),
        is_nonzero: false,
        layout: layout_of(name, TLData::PrefixType(prefix)),
    })
    .unwrap()
}

fn struct_info(name: &str, names: &[&str]) -> AbiInfoWrapper {
    value_info(layout_of(name, TLData::struct_(u32_fields(names))))
}

fn what(repr_attr: ReprAttr, repr: DiscriminantRepr, values: &[i128], names: &[&str]) -> AbiInfoWrapper {
    let e = TLEnum::new(
        names.iter().map(|n| n.to_string()).collect(),
        IsExhaustive::exhaustive(),
        vec![],
        TLDiscriminants::new(repr, values.to_vec()),
        vec![0; names.len()],
    );
    value_info(layout_of("What", TLData::Enum(e)).set_repr_attr(repr_attr))
}

fn kinds(errs: &[Mismatch]) -> Vec<&AbiInstability> {
    errs.iter().map(|m| &m.kind).collect()
}

fn check_imcompatible_with_others<F>(list: &[AbiInfoWrapper], mut f: F)
where
    F: FnMut(&[Mismatch]),
{
    for (l_i, l_abi) in list.iter().enumerate() {
        for (r_i, r_abi) in list.iter().enumerate() {
            let res = check_layout_compatibility(l_abi, r_abi);
            if l_i == r_i {
                assert_eq!(res, Ok(()));
            } else {
                let errs = res.unwrap_err();
                f(&errs);
            }
        }
    }
}

#[test]
fn check_discriminant_repr_enums() {
    let abc = ["A", "B", "C"];
    let list = [
        what(ReprAttr::C, DiscriminantRepr::Isize, &[0, 1, 2], &abc),
        what(ReprAttr::C, DiscriminantRepr::Isize, &[10, 11, 12], &abc),
        what(ReprAttr::Int(DiscriminantRepr::U8), DiscriminantRepr::U8, &[0, 1, 2], &abc),
        what(ReprAttr::Int(DiscriminantRepr::U8), DiscriminantRepr::U8, &[10, 11, 12], &abc),
        what(ReprAttr::Int(DiscriminantRepr::U16), DiscriminantRepr::U16, &[0, 1, 2], &abc),
        what(ReprAttr::Int(DiscriminantRepr::Usize), DiscriminantRepr::Usize, &[0, 1, 2], &abc),
        what(ReprAttr::Int(DiscriminantRepr::I8), DiscriminantRepr::I8, &[0, 1, 2], &abc),
        what(ReprAttr::Int(DiscriminantRepr::I8), DiscriminantRepr::I8, &[10, 11, 12], &abc),
        what(ReprAttr::Int(DiscriminantRepr::I16), DiscriminantRepr::I16, &[0, 1, 2], &abc),
        what(ReprAttr::Int(DiscriminantRepr::Isize), DiscriminantRepr::Isize, &[0, 1, 2], &abc),
    ];

    check_imcompatible_with_others(&list, |errs| {
        let mut had_some_err = false;
        for err in errs {
            match err.kind {
                AbiInstability::ReprAttr { .. } => {
                    had_some_err = true;
                }
                AbiInstability::EnumDiscriminant { .. } => {
                    had_some_err = true;
                }
                _ => {}
            }
        }
        assert!(had_some_err, "\nerrors:{:#?}\n", errs);
    })
}

#[test]
fn check_discriminants() {}

#[test]
fn different_discriminants_are_reported() {
    let abc = ["A", "B", "C"];
    let low = what(ReprAttr::C, DiscriminantRepr::Isize, &[0, 1, 2], &abc);
    let high = what(ReprAttr::C, DiscriminantRepr::Isize, &[10, 11, 12], &abc);
    let errs = check_layout_compatibility(&low, &high).unwrap_err();
    assert_eq!(
        errs,
        vec![mismatch(
            "What",
            AbiInstability::EnumDiscriminant {
                expected: TLDiscriminants::new(DiscriminantRepr::Isize, vec![0, 1, 2]),
                found: TLDiscriminants::new(DiscriminantRepr::Isize, vec![10, 11, 12]),
            },
        )]
    );
}

#[test]
fn discriminant_width_is_compared() {
    let abc = ["A", "B", "C"];
    let narrow = what(ReprAttr::Int(DiscriminantRepr::U8), DiscriminantRepr::U8, &[0, 1, 2], &abc);
    let wide = what(ReprAttr::Int(DiscriminantRepr::U32), DiscriminantRepr::U32, &[0, 1, 2], &abc);
    let errs = check_layout_compatibility(&narrow, &wide).unwrap_err();
    assert_eq!(
        kinds(&errs),
        vec![&AbiInstability::ReprAttr {
            expected: ReprAttr::Int(DiscriminantRepr::U8),
            found: ReprAttr::Int(DiscriminantRepr::U32),
        }]
    );
    // The same representation attribute, but another integer type for the discriminants.
    let c_narrow = what(ReprAttr::C, DiscriminantRepr::U8, &[0, 1, 2], &abc);
    let c_wide = what(ReprAttr::C, DiscriminantRepr::U32, &[0, 1, 2], &abc);
    let errs = check_layout_compatibility(&c_narrow, &c_wide).unwrap_err();
    assert!(matches!(errs[0].kind, AbiInstability::EnumDiscriminant { .. }));
    assert_eq!(errs.len(), 1);
}

#[test]
fn longer_struct_is_a_field_count_mismatch() {
    let two = struct_info("Point", &["x", "y"]);
    let three = struct_info("Point", &["x", "y", "z"]);
    assert_eq!(
        check_layout_compatibility(&two, &three),
        Err(vec![mismatch(
            "Point",
            AbiInstability::FieldCountMismatch { expected: 2, found: 3 },
        )])
    );
    assert_eq!(
        check_layout_compatibility(&three, &two),
        Err(vec![mismatch(
            "Point",
            AbiInstability::FieldCountMismatch { expected: 3, found: 2 },
        )])
    );
}

#[test]
fn prefix_type_may_have_more_fields() {
    let two = struct_info("Point", &["x", "y"]);
    let three = prefix_info("Point", 2, u32_fields(&["x", "y", "z"]));
    assert_eq!(check_layout_compatibility(&two, &three), Ok(()));
    assert_eq!(check_layout_compatibility(&three, &two), Ok(()));
}

#[test]
fn prefix_types_grow_in_both_directions() {
    let shorter = prefix_info("Module", 1, u32_fields(&["a", "b"]));
    let longer = prefix_info("Module", 1, u32_fields(&["a", "b", "c", "d"]));
    assert_eq!(check_layout_compatibility(&shorter, &longer), Ok(()));
    assert_eq!(check_layout_compatibility(&longer, &shorter), Ok(()));
}

#[test]
fn prefix_type_cannot_lose_prefix_fields() {
    let expected = prefix_info("Module", 2, u32_fields(&["a", "b", "c"]));
    let found = prefix_info("Module", 1, u32_fields(&["a"]));
    let forward = check_layout_compatibility(&expected, &found).unwrap_err();
    assert_eq!(
        kinds(&forward),
        vec![&AbiInstability::FieldCountMismatch { expected: 3, found: 1 }]
    );
    let backward = check_layout_compatibility(&found, &expected).unwrap_err();
    assert_eq!(
        kinds(&backward),
        vec![&AbiInstability::FieldCountMismatch { expected: 1, found: 3 }]
    );
}

#[test]
fn reordered_prefix_fields_fail_in_both_directions() {
    let expected = prefix_info("Module", 1, u32_fields(&["a", "b", "c"]));
    let found = prefix_info("Module", 1, u32_fields(&["a", "c", "b", "d"]));
    let forward = check_layout_compatibility(&expected, &found).unwrap_err();
    assert_eq!(
        kinds(&forward),
        vec![
            &AbiInstability::FieldRename {
                index: 1,
                expected: "b".to_string(),
                found: "c".to_string()
            },
            &AbiInstability::FieldRename {
                index: 2,
                expected: "c".to_string(),
                found: "b".to_string()
            },
        ]
    );
    assert!(check_layout_compatibility(&found, &expected).is_err());
}

#[test]
fn conditional_fields_must_agree() {
    let mut with_condition = u32_fields(&["a", "b"]);
    let b = with_condition.pop().unwrap();
    with_condition.push(b.set_is_conditional(IsConditional::Yes));
    let expected = prefix_info("Module", 1, with_condition);
    let found = prefix_info("Module", 1, u32_fields(&["a", "b", "c"]));
    let forward = check_layout_compatibility(&expected, &found).unwrap_err();
    assert_eq!(
        kinds(&forward),
        vec![&AbiInstability::FieldCountMismatch { expected: 2, found: 3 }]
    );
    assert!(check_layout_compatibility(&found, &expected).is_err());
}

#[test]
fn more_variants_are_a_mismatch() {
    let three = what(ReprAttr::C, DiscriminantRepr::Isize, &[0, 1, 2], &["A", "B", "C"]);
    let four = what(ReprAttr::C, DiscriminantRepr::Isize, &[0, 1, 2, 3], &["A", "B", "C", "D"]);
    assert_eq!(
        check_layout_compatibility(&three, &four),
        Err(vec![mismatch(
            "What",
            AbiInstability::FieldCountMismatch { expected: 3, found: 4 },
        )])
    );
    assert!(check_layout_compatibility(&four, &three).is_err());
}

#[test]
fn every_layout_is_compatible_with_itself() {
    let nested = value_info(layout_of(
        "Outer",
        TLData::struct_(vec![
            TLField::new(
                "inner",
                0,
                GetAbiInfo::new(AbiInfo {
                    kind: TypeKind::Value,
                    prefix_kind: false,
                    type_id: UTypeId::new(5),
                    is_nonzero: false,
                    layout: layout_of("Inner", TLData::struct_(u32_fields(&["a"]))),
                }),
            ),
            field::<bool>("flag"),
            field::<&u8>("borrowed"),
            field::<()>("unit"),
        ]),
    ));
    assert_eq!(check_layout_compatibility(&nested, &nested), Ok(()));
    let items = [
        struct_info("Empty", &[]),
        prefix_info("Module", 0, u32_fields(&["a"])),
        what(ReprAttr::Int(DiscriminantRepr::I8), DiscriminantRepr::I8, &[-1, 3], &["A", "B"]),
        value_info(layout_of("Hidden", TLData::Opaque)),
        AbiInfoWrapper::new(get_abi_info::<u64>()).unwrap(),
        AbiInfoWrapper::new(get_abi_info::<&&i16>()).unwrap(),
        AbiInfoWrapper::new(get_abi_info::<Option<&mut [u8; 3]>>()).unwrap(),
    ];
    for item in &items {
        assert_eq!(check_layout_compatibility(item, item), Ok(()));
    }
}

#[test]
fn mismatches_below_fields_are_found_and_all_are_listed() {
    let inner = |fields: &[&str], generics: GenericParams| AbiInfo {
        kind: TypeKind::Value,
        prefix_kind: false,
        type_id: UTypeId::new(5),
        is_nonzero: false,
        layout: TypeLayout::from_params(TypeLayoutParams {
            name: "Inner".to_string(),
            item_info: declared(),
            data: TLData::struct_(u32_fields(fields)),
            generics,
        }),
    };
    let outer = |held: AbiInfo, second: TLField| {
        value_info(layout_of(
            "Outer",
            TLData::struct_(vec![TLField::new("inner", 0, GetAbiInfo::new(held)), second]),
        ))
    };
    let expected = outer(inner(&["a", "b"], GenericParams::new(0, 1, 0)), field::<u8>("n"));
    let found = outer(inner(&["a", "c"], GenericParams::new(1, 1, 0)), field::<i8>("m"));
    let errs = check_layout_compatibility(&expected, &found).unwrap_err();
    assert_eq!(
        errs,
        vec![
            mismatch(
                "Inner",
                AbiInstability::FieldRename {
                    index: 1,
                    expected: "b".to_string(),
                    found: "c".to_string(),
                },
            ),
            mismatch(
                "Inner",
                AbiInstability::GenericParamCount {
                    expected: GenericParams::new(0, 1, 0),
                    found: GenericParams::new(1, 1, 0),
                },
            ),
            mismatch(
                "Outer",
                AbiInstability::FieldRename {
                    index: 1,
                    expected: "n".to_string(),
                    found: "m".to_string(),
                },
            ),
            Mismatch {
                in_type: "u8".to_string(),
                declared_at: ItemInfo::primitive(),
                kind: AbiInstability::Primitive {
                    expected: Some(TLPrimitive::U8),
                    found: Some(TLPrimitive::I8),
                },
            },
        ]
    );
}

#[test]
fn primitive_against_struct_is_a_primitive_mismatch() {
    let number = AbiInfoWrapper::new(get_abi_info::<u32>()).unwrap();
    let unit = AbiInfoWrapper::new(get_abi_info::<()>()).unwrap();
    let errs = check_layout_compatibility(&number, &unit).unwrap_err();
    assert_eq!(
        kinds(&errs),
        vec![&AbiInstability::ReprAttr { expected: ReprAttr::Primitive, found: ReprAttr::C }]
    );
    let prim = value_info(layout_of("T", TLData::Primitive(TLPrimitive::U32)));
    let strukt = value_info(layout_of("T", TLData::empty()));
    assert_eq!(
        kinds(&check_layout_compatibility(&prim, &strukt).unwrap_err()),
        vec![&AbiInstability::Primitive { expected: Some(TLPrimitive::U32), found: None }]
    );
    assert_eq!(
        kinds(&check_layout_compatibility(&strukt, &prim).unwrap_err()),
        vec![&AbiInstability::Primitive { expected: None, found: Some(TLPrimitive::U32) }]
    );
}

#[test]
fn references_of_different_kinds_never_agree() {
    let shared = value_info(layout_of("R", TLData::Primitive(TLPrimitive::SharedRef)));
    let unique = value_info(layout_of("R", TLData::Primitive(TLPrimitive::MutRef)));
    assert_eq!(
        kinds(&check_layout_compatibility(&shared, &unique).unwrap_err()),
        vec![&AbiInstability::Primitive {
            expected: Some(TLPrimitive::SharedRef),
            found: Some(TLPrimitive::MutRef),
        }]
    );
    let to_u8 = AbiInfoWrapper::new(get_abi_info::<&u8>()).unwrap();
    let to_u16 = AbiInfoWrapper::new(get_abi_info::<&u16>()).unwrap();
    assert_eq!(
        kinds(&check_layout_compatibility(&to_u8, &to_u16).unwrap_err()),
        vec![&AbiInstability::Primitive {
            expected: Some(TLPrimitive::U8),
            found: Some(TLPrimitive::U16),
        }]
    );
}

#[test]
fn enum_against_struct_is_a_data_variant_mismatch() {
    let e = what(ReprAttr::C, DiscriminantRepr::Isize, &[0], &["A"]);
    let s = struct_info("What", &["a"]);
    assert_eq!(
        kinds(&check_layout_compatibility(&e, &s).unwrap_err()),
        vec![&AbiInstability::DataVariant {
            expected: TLDataDiscriminant::Enum,
            found: TLDataDiscriminant::Struct,
        }]
    );
    let o = value_info(layout_of("What", TLData::Opaque));
    assert_eq!(
        kinds(&check_layout_compatibility(&s, &o).unwrap_err()),
        vec![&AbiInstability::DataVariant {
            expected: TLDataDiscriminant::Struct,
            found: TLDataDiscriminant::Opaque,
        }]
    );
}

#[test]
fn function_pointers_are_compared_without_parameter_names() {
    let signature = |params: &[&str]| AbiInfo {
        kind: TypeKind::Value,
        prefix_kind: false,
        type_id: UTypeId::new(9),
        is_nonzero: true,
        layout: layout_of("AFunctionPointer", TLData::struct_(u32_fields(params))),
    };
    let with = |params: &[&str], is_function: bool| {
        value_info(layout_of(
            "VTable",
            TLData::struct_(vec![TLField::new("call", 0, GetAbiInfo::new(signature(params)))
                .set_is_function(is_function)]),
        ))
    };
    assert_eq!(
        check_layout_compatibility(&with(&["left", "right"], true), &with(&["a", "b"], true)),
        Ok(())
    );
    assert_eq!(
        kinds(
            &check_layout_compatibility(&with(&["left"], true), &with(&["a", "b"], true))
                .unwrap_err()
        ),
        vec![&AbiInstability::FieldCountMismatch { expected: 1, found: 2 }]
    );
    assert_eq!(
        kinds(
            &check_layout_compatibility(&with(&["left"], false), &with(&["a"], false)).unwrap_err()
        ),
        vec![&AbiInstability::FieldRename {
            index: 0,
            expected: "left".to_string(),
            found: "a".to_string()
        }]
    );
    assert_eq!(
        kinds(
            &check_layout_compatibility(&with(&["a"], true), &with(&["a"], false)).unwrap_err()
        ),
        vec![&AbiInstability::DataVariant {
            expected: TLDataDiscriminant::FunctionPointer,
            found: TLDataDiscriminant::Struct,
        }]
    );
}

#[test]
fn tags_and_reflection_modes_are_compared() {
    let tagged = |tag: Tag, mode: ModReflMode| {
        value_info(layout_of("T", TLData::empty()).set_tag(tag).set_mod_refl_mode(mode))
    };
    let map = |keys: &[&str]| {
        Tag::MapOf(
            keys.iter().map(|k| KeyValue { key: k.to_string(), value: Tag::Bool(true) }).collect(),
        )
    };
    let small = tagged(map(&["Debug"]), ModReflMode::Module);
    let large = tagged(map(&["Debug", "Clone"]), ModReflMode::Module);
    assert_eq!(check_layout_compatibility(&small, &large), Ok(()));
    assert_eq!(
        check_layout_compatibility(&large, &small),
        Err(vec![mismatch(
            "T",
            AbiInstability::TagMismatch(TagMismatch::MissingKey {
                key: "Clone".to_string()
            }),
        )])
    );
    let delegate = |i: usize| tagged(Tag::Null, ModReflMode::DelegateDeref { phantom_field_index: i });
    assert_eq!(check_layout_compatibility(&delegate(0), &delegate(0)), Ok(()));
    assert_eq!(
        kinds(&check_layout_compatibility(&delegate(0), &delegate(1)).unwrap_err()),
        vec![&AbiInstability::ModuleReflectionMismatch {
            expected: ModReflMode::DelegateDeref { phantom_field_index: 0 },
            found: ModReflMode::DelegateDeref { phantom_field_index: 1 },
        }]
    );
    assert!(check_layout_compatibility(&delegate(0), &tagged(Tag::Null, ModReflMode::Opaque))
        .is_err());
}

#[test]
fn malformed_layouts_are_refused_by_the_wrapper_and_still_checked() {
    let malformed = || AbiInfo {
        kind: TypeKind::Prefix,
        prefix_kind: true,
        type_id: UTypeId::new(1),
        is_nonzero: false,
        layout: layout_of(
            "Broken",
            TLData::Enum(TLEnum::new(
                vec!["A".to_string()],
                IsExhaustive::exhaustive(),
                u32_fields(&["a"]),
                TLDiscriminants::from_u8_slice(&[0, 1]),
                vec![5, 6],
            )),
        ),
    };
    assert!(!malformed().is_valid());
    assert!(AbiInfoWrapper::new(malformed()).is_none());
    assert_eq!(check_abi_info(&malformed(), &malformed()), Ok(()));
    assert!(TLPrefixType::new(3, u32_fields(&["a"])).is_none());
}

fn has_shape_mismatch(res: &Result<(), Vec<Mismatch>>) -> bool {
    match res {
        Ok(()) => false,
        Err(errs) => errs.iter().any(|m| !matches!(m.kind, AbiInstability::TagMismatch(_))),
    }
}

#[test]
fn shape_mismatches_show_in_both_directions() {
    let abc = ["A", "B", "C"];
    let tagged = |tag: Tag| value_info(layout_of("T", TLData::empty()).set_tag(tag));
    let items = [
        struct_info("S", &["x", "y"]),
        struct_info("S", &["x", "y", "z"]),
        struct_info("S", &["x", "z"]),
        prefix_info("S", 2, u32_fields(&["x", "y", "z"])),
        prefix_info("S", 1, u32_fields(&["x"])),
        prefix_info("S", 3, u32_fields(&["x", "y", "z", "w"])),
        what(ReprAttr::C, DiscriminantRepr::Isize, &[0, 1, 2], &abc),
        what(ReprAttr::C, DiscriminantRepr::Isize, &[0, 1, 3], &abc),
        what(ReprAttr::Int(DiscriminantRepr::U8), DiscriminantRepr::U8, &[0, 1, 2], &abc),
        value_info(layout_of("O", TLData::Opaque)),
        tagged(Tag::Bool(true)),
        tagged(Tag::Null),
        AbiInfoWrapper::new(get_abi_info::<u8>()).unwrap(),
        AbiInfoWrapper::new(get_abi_info::<&u8>()).unwrap(),
        AbiInfoWrapper::new(get_abi_info::<&mut u8>()).unwrap(),
        AbiInfoWrapper::new(get_abi_info::<[u8; 2]>()).unwrap(),
        AbiInfoWrapper::new(get_abi_info::<[u8; 3]>()).unwrap(),
    ];
    for a in &items {
        for b in &items {
            let forward = check_layout_compatibility(a, b);
            let backward = check_layout_compatibility(b, a);
            assert_eq!(has_shape_mismatch(&forward), has_shape_mismatch(&backward));
        }
    }
    // Tags have a direction, so that they are left out of the law.
    assert!(check_layout_compatibility(&items[11], &items[10]).is_ok());
    assert!(check_layout_compatibility(&items[10], &items[11]).is_err());
}

#[test]
fn enums_are_compared_variant_by_variant() {
    let with = |names: &[&str], counts: Vec<usize>, fields: &[&str], exhaustive: bool| {
        let e = TLEnum::new(
            names.iter().map(|n| n.to_string()).collect(),
            if exhaustive { IsExhaustive::Exhaustive } else { IsExhaustive::NonExhaustive },
            u32_fields(fields),
            TLDiscriminants::from_u8_slice(&[0, 1]),
            counts,
        );
        value_info(layout_of("E", TLData::Enum(e)))
    };
    let base = with(&["A", "B"], vec![1, 1], &["a", "b"], true);
    assert_eq!(check_layout_compatibility(&base, &base), Ok(()));
    assert_eq!(
        kinds(
            &check_layout_compatibility(&base, &with(&["A", "C"], vec![1, 1], &["a", "b"], true))
                .unwrap_err()
        ),
        vec![&AbiInstability::FieldRename {
            index: 1,
            expected: "B".to_string(),
            found: "C".to_string()
        }]
    );
    assert_eq!(
        kinds(
            &check_layout_compatibility(&base, &with(&["A", "B"], vec![2, 0], &["a", "b"], true))
                .unwrap_err()
        ),
        vec![&AbiInstability::FieldCountMismatch { expected: 2, found: 2 }]
    );
    assert_eq!(
        kinds(
            &check_layout_compatibility(&base, &with(&["A", "B"], vec![1, 2], &["a", "b", "c"], true))
                .unwrap_err()
        ),
        vec![&AbiInstability::FieldCountMismatch { expected: 2, found: 3 }]
    );
    assert_eq!(
        kinds(
            &check_layout_compatibility(&base, &with(&["A", "B"], vec![1, 1], &["a", "x"], true))
                .unwrap_err()
        ),
        vec![&AbiInstability::FieldRename {
            index: 1,
            expected: "b".to_string(),
            found: "x".to_string()
        }]
    );
    let open = with(&["A", "B"], vec![1, 1], &["a", "b"], false);
    assert_eq!(check_layout_compatibility(&open, &open), Ok(()));
    assert_eq!(
        kinds(&check_layout_compatibility(&base, &open).unwrap_err()),
        vec![&AbiInstability::DataVariant {
            expected: TLDataDiscriminant::Enum,
            found: TLDataDiscriminant::NonExhaustiveEnum,
        }]
    );
}

#[test]
fn phantom_fields_must_be_as_many() {
    let with = |phantom: Vec<TLField>| {
        value_info(TypeLayout::from_std_full(
            "Holder",
            declared(),
            TLData::empty(),
            ReprAttr::C,
            GenericParams::new(0, 1, 0),
            phantom,
        ))
    };
    assert_eq!(check_layout_compatibility(&with(u32_fields(&["0"])), &with(u32_fields(&["0"]))), Ok(()));
    assert_eq!(
        kinds(
            &check_layout_compatibility(&with(u32_fields(&["0"])), &with(u32_fields(&["0", "1"])))
                .unwrap_err()
        ),
        vec![&AbiInstability::FieldCountMismatch { expected: 1, found: 2 }]
    );
    assert_eq!(
        kinds(
            &check_layout_compatibility(&with(u32_fields(&["0"])), &with(vec![field::<u64>("0")]))
                .unwrap_err()
        ),
        vec![&AbiInstability::Primitive {
            expected: Some(TLPrimitive::U32),
            found: Some(TLPrimitive::U64),
        }]
    );
}

#[test]
fn different_representation_hides_everything_below() {
    let inner_differs = |repr: ReprAttr, names: &[&str]| {
        value_info(layout_of("S", TLData::struct_(u32_fields(names))).set_repr_attr(repr))
    };
    let errs = check_layout_compatibility(
        &inner_differs(ReprAttr::C, &["a"]),
        &inner_differs(ReprAttr::Transparent, &["b", "c"]),
    )
    .unwrap_err();
    assert_eq!(
        kinds(&errs),
        vec![&AbiInstability::ReprAttr { expected: ReprAttr::C, found: ReprAttr::Transparent }]
    );
}

#[test]
fn removed_prefix_field_fails_in_both_directions() {
    let expected = prefix_info("Module", 1, u32_fields(&["a", "b", "c", "d"]));
    let found = prefix_info("Module", 1, u32_fields(&["a", "c", "d"]));
    let forward = check_layout_compatibility(&expected, &found).unwrap_err();
    assert_eq!(
        kinds(&forward),
        vec![
            &AbiInstability::FieldRename {
                index: 1,
                expected: "b".to_string(),
                found: "c".to_string()
            },
            &AbiInstability::FieldRename {
                index: 2,
                expected: "c".to_string(),
                found: "d".to_string()
            },
        ]
    );
    let backward = check_layout_compatibility(&found, &expected).unwrap_err();
    assert_eq!(backward.len(), 2);
    assert!(has_shape_mismatch(&Err(backward)));
}
