//! The layouts of types of the language and of its standard library.

use crate::abi_stability::stable_abi_trait::{
    abi_info_of, get_abi_info, get_ssa_abi_info, AbiInfo, AbiInfoView, GetAbiInfo,
    SharedStableAbi, StableAbi, TypeKind, ValueKind,
};
use core::marker::PhantomData;
use core::mem::ManuallyDrop;
use crate::prefix_type::OnMissingField;
use crate::reflection::ModReflMode;
use crate::std_types::utypeid::UTypeId;
use crate::tag::TagView;
use crate::type_layout::construction::{std_package, ItemInfo, ItemInfoView, ModPathView};
use crate::type_layout::{
    field_views, DiscriminantRepr, GenericParams, IsExhaustive, ReprAttr, TLData, TLDataView,
    TLDiscriminants, TLDiscriminantsView, TLEnum, TLEnumView, TLField, TLFieldView, TLPrimitive,
    TypeLayout, TypeLayoutView,
};
use vstd::prelude::*;

verus! {

/// The layout of the primitive `primitive`, named `name`.
pub open spec fn primitive_layout(name: Seq<char>, primitive: TLPrimitive) -> TypeLayoutView {
    TypeLayoutView {
        name,
        item_info: ItemInfoView {
            package_and_version: std_package(),
            line: 0,
            mod_path: ModPathView::Prelude,
        },
        repr_attr: ReprAttr::Primitive,
        generics: GenericParams { lifetime_count: 0, type_count: 0, const_count: 0 },
        data: TLDataView::Primitive(primitive),
        phantom_fields: Seq::empty(),
        tag: TagView::Null,
        mod_refl_mode: ModReflMode::Module,
    }
}

/// Makes the layout of the primitive `primitive`, named `name`.
fn make_primitive_layout(name: &str, primitive: TLPrimitive) -> (layout: TypeLayout)
    ensures
        layout@ == primitive_layout(name@, primitive),
{
    TypeLayout::from_std(
        name,
        TLData::Primitive(primitive),
        ReprAttr::Primitive,
        ItemInfo::primitive(),
        GenericParams::new(0, 0, 0),
    )
}

impl SharedStableAbi for u8 {
    type Kind = ValueKind;

    open spec fn spec_is_nonzero() -> bool {
        false
    }

    open spec fn spec_type_id() -> UTypeId {
        UTypeId { token: 1 }
    }

    open spec fn spec_layout() -> TypeLayoutView {
        primitive_layout("u8"@, TLPrimitive::U8)
    }

    fn is_nonzero() -> (b: bool) {
        false
    }

    fn type_id() -> (id: UTypeId) {
        UTypeId::new(1)
    }

    fn s_layout() -> (layout: TypeLayout) {
        make_primitive_layout("u8", TLPrimitive::U8)
    }
}

impl SharedStableAbi for i8 {
    type Kind = ValueKind;

    open spec fn spec_is_nonzero() -> bool {
        false
    }

    open spec fn spec_type_id() -> UTypeId {
        UTypeId { token: 2 }
    }

    open spec fn spec_layout() -> TypeLayoutView {
        primitive_layout("i8"@, TLPrimitive::I8)
    }

    fn is_nonzero() -> (b: bool) {
        false
    }

    fn type_id() -> (id: UTypeId) {
        UTypeId::new(2)
    }

    fn s_layout() -> (layout: TypeLayout) {
        make_primitive_layout("i8", TLPrimitive::I8)
    }
}

impl SharedStableAbi for u16 {
    type Kind = ValueKind;

    open spec fn spec_is_nonzero() -> bool {
        false
    }

    open spec fn spec_type_id() -> UTypeId {
        UTypeId { token: 3 }
    }

    open spec fn spec_layout() -> TypeLayoutView {
        primitive_layout("u16"@, TLPrimitive::U16)
    }

    fn is_nonzero() -> (b: bool) {
        false
    }

    fn type_id() -> (id: UTypeId) {
        UTypeId::new(3)
    }

    fn s_layout() -> (layout: TypeLayout) {
        make_primitive_layout("u16", TLPrimitive::U16)
    }
}

impl SharedStableAbi for i16 {
    type Kind = ValueKind;

    open spec fn spec_is_nonzero() -> bool {
        false
    }

    open spec fn spec_type_id() -> UTypeId {
        UTypeId { token: 4 }
    }

    open spec fn spec_layout() -> TypeLayoutView {
        primitive_layout("i16"@, TLPrimitive::I16)
    }

    fn is_nonzero() -> (b: bool) {
        false
    }

    fn type_id() -> (id: UTypeId) {
        UTypeId::new(4)
    }

    fn s_layout() -> (layout: TypeLayout) {
        make_primitive_layout("i16", TLPrimitive::I16)
    }
}

impl SharedStableAbi for u32 {
    type Kind = ValueKind;

    open spec fn spec_is_nonzero() -> bool {
        false
    }

    open spec fn spec_type_id() -> UTypeId {
        UTypeId { token: 5 }
    }

    open spec fn spec_layout() -> TypeLayoutView {
        primitive_layout("u32"@, TLPrimitive::U32)
    }

    fn is_nonzero() -> (b: bool) {
        false
    }

    fn type_id() -> (id: UTypeId) {
        UTypeId::new(5)
    }

    fn s_layout() -> (layout: TypeLayout) {
        make_primitive_layout("u32", TLPrimitive::U32)
    }
}

impl SharedStableAbi for i32 {
    type Kind = ValueKind;

    open spec fn spec_is_nonzero() -> bool {
        false
    }

    open spec fn spec_type_id() -> UTypeId {
        UTypeId { token: 6 }
    }

    open spec fn spec_layout() -> TypeLayoutView {
        primitive_layout("i32"@, TLPrimitive::I32)
    }

    fn is_nonzero() -> (b: bool) {
        false
    }

    fn type_id() -> (id: UTypeId) {
        UTypeId::new(6)
    }

    fn s_layout() -> (layout: TypeLayout) {
        make_primitive_layout("i32", TLPrimitive::I32)
    }
}

impl SharedStableAbi for u64 {
    type Kind = ValueKind;

    open spec fn spec_is_nonzero() -> bool {
        false
    }

    open spec fn spec_type_id() -> UTypeId {
        UTypeId { token: 7 }
    }

    open spec fn spec_layout() -> TypeLayoutView {
        primitive_layout("u64"@, TLPrimitive::U64)
    }

    fn is_nonzero() -> (b: bool) {
        false
    }

    fn type_id() -> (id: UTypeId) {
        UTypeId::new(7)
    }

    fn s_layout() -> (layout: TypeLayout) {
        make_primitive_layout("u64", TLPrimitive::U64)
    }
}

impl SharedStableAbi for i64 {
    type Kind = ValueKind;

    open spec fn spec_is_nonzero() -> bool {
        false
    }

    open spec fn spec_type_id() -> UTypeId {
        UTypeId { token: 8 }
    }

    open spec fn spec_layout() -> TypeLayoutView {
        primitive_layout("i64"@, TLPrimitive::I64)
    }

    fn is_nonzero() -> (b: bool) {
        false
    }

    fn type_id() -> (id: UTypeId) {
        UTypeId::new(8)
    }

    fn s_layout() -> (layout: TypeLayout) {
        make_primitive_layout("i64", TLPrimitive::I64)
    }
}

impl SharedStableAbi for usize {
    type Kind = ValueKind;

    open spec fn spec_is_nonzero() -> bool {
        false
    }

    open spec fn spec_type_id() -> UTypeId {
        UTypeId { token: 9 }
    }

    open spec fn spec_layout() -> TypeLayoutView {
        primitive_layout("usize"@, TLPrimitive::Usize)
    }

    fn is_nonzero() -> (b: bool) {
        false
    }

    fn type_id() -> (id: UTypeId) {
        UTypeId::new(9)
    }

    fn s_layout() -> (layout: TypeLayout) {
        make_primitive_layout("usize", TLPrimitive::Usize)
    }
}

impl SharedStableAbi for isize {
    type Kind = ValueKind;

    open spec fn spec_is_nonzero() -> bool {
        false
    }

    open spec fn spec_type_id() -> UTypeId {
        UTypeId { token: 10 }
    }

    open spec fn spec_layout() -> TypeLayoutView {
        primitive_layout("isize"@, TLPrimitive::Isize)
    }

    fn is_nonzero() -> (b: bool) {
        false
    }

    fn type_id() -> (id: UTypeId) {
        UTypeId::new(10)
    }

    fn s_layout() -> (layout: TypeLayout) {
        make_primitive_layout("isize", TLPrimitive::Isize)
    }
}

impl SharedStableAbi for bool {
    type Kind = ValueKind;

    open spec fn spec_is_nonzero() -> bool {
        false
    }

    open spec fn spec_type_id() -> UTypeId {
        UTypeId { token: 11 }
    }

    open spec fn spec_layout() -> TypeLayoutView {
        primitive_layout("bool"@, TLPrimitive::Bool)
    }

    fn is_nonzero() -> (b: bool) {
        false
    }

    fn type_id() -> (id: UTypeId) {
        UTypeId::new(11)
    }

    fn s_layout() -> (layout: TypeLayout) {
        make_primitive_layout("bool", TLPrimitive::Bool)
    }
}

/// The layout of the unit type: a struct without fields.
pub open spec fn unit_layout() -> TypeLayoutView {
    TypeLayoutView {
        name: "()"@,
        item_info: ItemInfoView {
            package_and_version: std_package(),
            line: 0,
            mod_path: ModPathView::Prelude,
        },
        repr_attr: ReprAttr::C,
        generics: GenericParams { lifetime_count: 0, type_count: 0, const_count: 0 },
        data: TLDataView::Struct { fields: Seq::empty() },
        phantom_fields: Seq::empty(),
        tag: TagView::Null,
        mod_refl_mode: ModReflMode::Module,
    }
}

impl SharedStableAbi for () {
    type Kind = ValueKind;

    open spec fn spec_is_nonzero() -> bool {
        false
    }

    open spec fn spec_type_id() -> UTypeId {
        UTypeId { token: 12 }
    }

    open spec fn spec_layout() -> TypeLayoutView {
        unit_layout()
    }

    fn is_nonzero() -> (b: bool) {
        false
    }

    fn type_id() -> (id: UTypeId) {
        UTypeId::new(12)
    }

    fn s_layout() -> (layout: TypeLayout) {
        TypeLayout::from_std(
            "()",
            TLData::empty(),
            ReprAttr::c(),
            ItemInfo::primitive(),
            GenericParams::new(0, 0, 0),
        )
    }
}

/// The identity of the type that the type constructor numbered
/// `constructor` makes from the type with the identity `target`.
///
/// Different types may get the same identity: an identity is a hint under
/// which layouts are found, and never evidence that two layouts describe
/// one type. Layouts are told apart by comparing them.
pub open spec fn derived_type_id(constructor: u64, target: UTypeId) -> UTypeId {
    UTypeId { token: ((target.token * 31 + constructor) % 0x1_0000_0000_0000_0000) as u64 }
}

/// Computes [`derived_type_id`].
fn derive_type_id(constructor: u64, target: UTypeId) -> (id: UTypeId)
    ensures
        id == derived_type_id(constructor, target),
{
    let wide: u128 = target.token as u128 * 31 + constructor as u128;
    UTypeId::new((wide % 0x1_0000_0000_0000_0000u128) as u64)
}

/// The field `name` of a type that knows `target` of itself, as the
/// layouts of the standard library declare their fields.
pub open spec fn std_field(name: Seq<char>, lifetime_count: nat, target: AbiInfoView) -> TLFieldView {
    TLFieldView {
        name,
        lifetime_count,
        abi_info: target,
        is_function: false,
        is_conditional: false,
        on_missing: OnMissingField::ReturnOption,
    }
}

/// A list with the one field `name`.
fn one_field(name: &str, lifetime_count: usize, target: AbiInfo) -> (fields: Vec<TLField>)
    ensures
        field_views(fields@) == seq![std_field(name@, lifetime_count as nat, target@)],
{
    let mut fields: Vec<TLField> = Vec::new();
    fields.push(TLField::new(name, lifetime_count, GetAbiInfo::new(target)));
    assert(field_views(fields@) =~= seq![std_field(name@, lifetime_count as nat, target@)]);
    fields
}

/// The layout of the kind of pointer `primitive`, named `name`, to a type
/// that knows `target` of itself: the primitive, with the target as its
/// one phantom field.
pub open spec fn pointer_layout(
    name: Seq<char>,
    primitive: TLPrimitive,
    lifetime_count: nat,
    target: AbiInfoView,
    mod_refl_mode: ModReflMode,
) -> TypeLayoutView {
    TypeLayoutView {
        name,
        item_info: ItemInfoView {
            package_and_version: std_package(),
            line: 0,
            mod_path: ModPathView::Prelude,
        },
        repr_attr: ReprAttr::Primitive,
        generics: GenericParams {
            lifetime_count: lifetime_count as usize,
            type_count: 1,
            const_count: 0,
        },
        data: TLDataView::Primitive(primitive),
        phantom_fields: seq![std_field("0"@, lifetime_count, target)],
        tag: TagView::Null,
        mod_refl_mode,
    }
}

/// Makes the layout of a pointer.
fn make_pointer_layout(
    name: &str,
    primitive: TLPrimitive,
    lifetime_count: usize,
    target: AbiInfo,
    mod_refl_mode: ModReflMode,
) -> (layout: TypeLayout)
    ensures
        layout@ == pointer_layout(
            name@,
            primitive,
            lifetime_count as nat,
            target@,
            mod_refl_mode,
        ),
{
    TypeLayout::from_std_full(
        name,
        ItemInfo::primitive(),
        TLData::Primitive(primitive),
        ReprAttr::Primitive,
        GenericParams::new(lifetime_count, 1, 0),
        one_field("0", lifetime_count, target),
    ).set_mod_refl_mode(mod_refl_mode)
}

impl<'a, T: SharedStableAbi> SharedStableAbi for &'a T {
    type Kind = ValueKind;

    open spec fn spec_is_nonzero() -> bool {
        true
    }

    open spec fn spec_type_id() -> UTypeId {
        derived_type_id(1, T::spec_type_id())
    }

    open spec fn spec_layout() -> TypeLayoutView {
        pointer_layout(
            "&"@,
            TLPrimitive::SharedRef,
            1,
            abi_info_of::<T>(),
            ModReflMode::DelegateDeref { phantom_field_index: 0 },
        )
    }

    fn is_nonzero() -> (b: bool) {
        true
    }

    fn type_id() -> (id: UTypeId) {
        derive_type_id(1, T::type_id())
    }

    fn s_layout() -> (layout: TypeLayout) {
        make_pointer_layout(
            "&",
            TLPrimitive::SharedRef,
            1,
            get_ssa_abi_info::<T>(),
            ModReflMode::DelegateDeref { phantom_field_index: 0 },
        )
    }
}

impl<'a, T: StableAbi> SharedStableAbi for &'a mut T {
    type Kind = ValueKind;

    open spec fn spec_is_nonzero() -> bool {
        true
    }

    open spec fn spec_type_id() -> UTypeId {
        derived_type_id(2, T::spec_type_id())
    }

    open spec fn spec_layout() -> TypeLayoutView {
        pointer_layout("&mut"@, TLPrimitive::MutRef, 1, abi_info_of::<T>(), ModReflMode::Module)
    }

    fn is_nonzero() -> (b: bool) {
        true
    }

    fn type_id() -> (id: UTypeId) {
        derive_type_id(2, T::type_id())
    }

    fn s_layout() -> (layout: TypeLayout) {
        make_pointer_layout(
            "&mut",
            TLPrimitive::MutRef,
            1,
            get_abi_info::<T>(),
            ModReflMode::Module,
        )
    }
}

/// The layout of an array of `len` elements of a type that knows `element`
/// of itself: the primitive, with the element as its one phantom field.
pub open spec fn array_layout(len: usize, element: AbiInfoView) -> TypeLayoutView {
    TypeLayoutView {
        name: "array"@,
        item_info: ItemInfoView {
            package_and_version: std_package(),
            line: 0,
            mod_path: ModPathView::Prelude,
        },
        repr_attr: ReprAttr::Primitive,
        generics: GenericParams { lifetime_count: 0, type_count: 1, const_count: 1 },
        data: TLDataView::Primitive(TLPrimitive::Array { len }),
        phantom_fields: seq![std_field("element"@, 0, element)],
        tag: TagView::Null,
        mod_refl_mode: ModReflMode::Module,
    }
}

impl<T: StableAbi, const N: usize> SharedStableAbi for [T; N] {
    type Kind = ValueKind;

    open spec fn spec_is_nonzero() -> bool {
        false
    }

    open spec fn spec_type_id() -> UTypeId {
        derived_type_id(N as u64, derived_type_id(5, T::spec_type_id()))
    }

    open spec fn spec_layout() -> TypeLayoutView {
        array_layout(N, abi_info_of::<T>())
    }

    fn is_nonzero() -> (b: bool) {
        false
    }

    fn type_id() -> (id: UTypeId) {
        derive_type_id(N as u64, derive_type_id(5, T::type_id()))
    }

    fn s_layout() -> (layout: TypeLayout) {
        TypeLayout::from_std_full(
            "array",
            ItemInfo::primitive(),
            TLData::Primitive(TLPrimitive::Array { len: N }),
            ReprAttr::Primitive,
            GenericParams::new(0, 1, 1),
            one_field("element", 0, get_abi_info::<T>()),
        )
    }
}

/// The layout of an optional value of a type that knows `target` of
/// itself: an enum of the variant `Some`, with one field, and the variant
/// `None`, laid out as the type itself.
pub open spec fn option_layout(target: AbiInfoView) -> TypeLayoutView {
    TypeLayoutView {
        name: "Option"@,
        item_info: ItemInfoView {
            package_and_version: std_package(),
            line: 0,
            mod_path: ModPathView::Prelude,
        },
        repr_attr: ReprAttr::OptionNonZero,
        generics: GenericParams { lifetime_count: 0, type_count: 1, const_count: 0 },
        data: TLDataView::Enum(
            TLEnumView {
                variant_names: seq!["Some"@, "None"@],
                exhaustiveness: IsExhaustive::Exhaustive,
                fields: seq![std_field("0"@, 0, target)],
                discriminants: TLDiscriminantsView {
                    repr: DiscriminantRepr::U8,
                    values: seq![0int, 1int],
                },
                field_count: seq![1nat, 0nat],
            },
        ),
        phantom_fields: Seq::empty(),
        tag: TagView::Null,
        mod_refl_mode: ModReflMode::Module,
    }
}

/// The layout of an optional value is only well formed when the type of
/// the value has one invalid bit pattern.
impl<T: StableAbi> SharedStableAbi for Option<T> {
    type Kind = ValueKind;

    open spec fn spec_is_nonzero() -> bool {
        false
    }

    open spec fn spec_type_id() -> UTypeId {
        derived_type_id(6, T::spec_type_id())
    }

    open spec fn spec_layout() -> TypeLayoutView {
        option_layout(abi_info_of::<T>())
    }

    fn is_nonzero() -> (b: bool) {
        false
    }

    fn type_id() -> (id: UTypeId) {
        derive_type_id(6, T::type_id())
    }

    fn s_layout() -> (layout: TypeLayout) {
        let mut variant_names: Vec<String> = Vec::new();
        variant_names.push("Some".to_owned());
        variant_names.push("None".to_owned());
        let mut field_count: Vec<usize> = Vec::new();
        field_count.push(1);
        field_count.push(0);
        let mut values: Vec<i128> = Vec::new();
        values.push(0);
        values.push(1);
        let discriminants = TLDiscriminants::new(DiscriminantRepr::U8, values);
        let e = TLEnum::new(
            variant_names,
            IsExhaustive::exhaustive(),
            one_field("0", 0, get_abi_info::<T>()),
            discriminants,
            field_count,
        );
        assert(e@.variant_names =~= seq!["Some"@, "None"@]);
        assert(e@.field_count =~= seq![1nat, 0nat]);
        assert(e@.discriminants.values =~= seq![0int, 1int]);
        TypeLayout::from_std(
            "Option",
            TLData::Enum(e),
            ReprAttr::OptionNonZero,
            ItemInfo::primitive(),
            GenericParams::new(0, 1, 0),
        )
    }
}

/// The layout of a marker for a type that knows `target` of itself: a
/// struct without fields, with the target as its one phantom field.
pub open spec fn phantom_data_layout(target: AbiInfoView) -> TypeLayoutView {
    TypeLayoutView {
        name: "PhantomData"@,
        item_info: ItemInfoView {
            package_and_version: std_package(),
            line: 0,
            mod_path: ModPathView::With("std::marker"@),
        },
        repr_attr: ReprAttr::C,
        generics: GenericParams { lifetime_count: 0, type_count: 1, const_count: 0 },
        data: TLDataView::Struct { fields: Seq::empty() },
        phantom_fields: seq![std_field("0"@, 0, target)],
        tag: TagView::Null,
        mod_refl_mode: ModReflMode::Module,
    }
}

impl<T: StableAbi> SharedStableAbi for PhantomData<T> {
    type Kind = ValueKind;

    open spec fn spec_is_nonzero() -> bool {
        false
    }

    open spec fn spec_type_id() -> UTypeId {
        derived_type_id(7, T::spec_type_id())
    }

    open spec fn spec_layout() -> TypeLayoutView {
        phantom_data_layout(abi_info_of::<T>())
    }

    fn is_nonzero() -> (b: bool) {
        false
    }

    fn type_id() -> (id: UTypeId) {
        derive_type_id(7, T::type_id())
    }

    fn s_layout() -> (layout: TypeLayout) {
        TypeLayout::from_std_full(
            "PhantomData",
            ItemInfo::std_type_in("std::marker"),
            TLData::empty(),
            ReprAttr::c(),
            GenericParams::new(0, 1, 0),
            one_field("0", 0, get_abi_info::<T>()),
        )
    }
}

/// The layout of a wrapper named `name`, declared in the module `module`
/// of the standard library, that is laid out as its one field, of a type
/// that knows `target` of itself.
pub open spec fn transparent_layout(
    name: Seq<char>,
    module: Seq<char>,
    target: AbiInfoView,
) -> TypeLayoutView {
    TypeLayoutView {
        name,
        item_info: ItemInfoView {
            package_and_version: std_package(),
            line: 0,
            mod_path: ModPathView::With(module),
        },
        repr_attr: ReprAttr::Transparent,
        generics: GenericParams { lifetime_count: 0, type_count: 1, const_count: 0 },
        data: TLDataView::Struct { fields: seq![std_field("0"@, 0, target)] },
        phantom_fields: Seq::empty(),
        tag: TagView::Null,
        mod_refl_mode: ModReflMode::Module,
    }
}

impl<P: StableAbi> SharedStableAbi for ManuallyDrop<P> {
    type Kind = ValueKind;

    open spec fn spec_is_nonzero() -> bool {
        P::spec_is_nonzero()
    }

    open spec fn spec_type_id() -> UTypeId {
        derived_type_id(8, P::spec_type_id())
    }

    open spec fn spec_layout() -> TypeLayoutView {
        transparent_layout("ManuallyDrop"@, "std::mem"@, abi_info_of::<P>())
    }

    fn is_nonzero() -> (b: bool) {
        P::is_nonzero()
    }

    fn type_id() -> (id: UTypeId) {
        derive_type_id(8, P::type_id())
    }

    fn s_layout() -> (layout: TypeLayout) {
        TypeLayout::from_std(
            "ManuallyDrop",
            TLData::struct_(one_field("0", 0, get_abi_info::<P>())),
            ReprAttr::Transparent,
            ItemInfo::std_type_in("std::mem"),
            GenericParams::new(0, 1, 0),
        )
    }
}


/// What is known of every function pointer: it has one invalid bit
/// pattern, and its layout is a struct without fields.
pub open spec fn extern_fn_abi_info_view() -> AbiInfoView {
    AbiInfoView {
        kind: TypeKind::Value,
        prefix_kind: false,
        type_id: UTypeId { token: 13 },
        is_nonzero: true,
        layout: TypeLayoutView {
            name: "AFunctionPointer"@,
            item_info: ItemInfoView {
                package_and_version: std_package(),
                line: 0,
                mod_path: ModPathView::Prelude,
            },
            repr_attr: ReprAttr::C,
            generics: GenericParams { lifetime_count: 0, type_count: 0, const_count: 0 },
            data: TLDataView::Struct { fields: Seq::empty() },
            phantom_fields: Seq::empty(),
            tag: TagView::Null,
            mod_refl_mode: ModReflMode::Module,
        },
    }
}

/// What is known of a function pointer without parameters. A field that
/// is a function pointer with parameters lists them in a layout of its own.
pub fn extern_fn_abi_info() -> (held: GetAbiInfo)
    ensures
        held@ == extern_fn_abi_info_view(),
{
    GetAbiInfo::new(
        AbiInfo {
            kind: TypeKind::Value,
            prefix_kind: false,
            type_id: UTypeId::new(13),
            is_nonzero: true,
            layout: TypeLayout::from_std(
                "AFunctionPointer",
                TLData::empty(),
                ReprAttr::c(),
                ItemInfo::primitive(),
                GenericParams::new(0, 0, 0),
            ),
        },
    )
}

} // verus!
