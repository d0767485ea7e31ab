//! The check that two layouts of a type agree.
//!
//! The check walks both layouts together, depth first, and lists every
//! mismatch it meets: it does not stop at the first. Two layouts are
//! compatible when the list is empty; every mismatch is fatal.
//!
//! What is compared is what decides how memory is read: representation
//! attributes, primitives, fields and their names, variants and their
//! discriminants, numbers of generic parameters, tags and reflection modes
//! ([`layout_mismatches`] gives the rules). The caller pairs the layouts by
//! the identity of their type; the name of a type, the place of its
//! declaration and its identity are carried along for diagnostics and are
//! not compared.
//!
//! The check needs no well-formed layouts: it is defined, and ends, on
//! every pair of layouts.

use crate::abi_stability::compatibility_laws::lemma_check_reflexive;
use crate::abi_stability::stable_abi_trait::{AbiInfo, AbiInfoView, AbiInfoWrapper};
use crate::prefix_type::flag_at;
use crate::reflection::ModReflMode;
use crate::type_layout::construction::{ItemInfo, ItemInfoView};
use crate::tag::{
    collect_mismatches, tag_mismatch_views, tag_mismatches, Tag, TagMismatch, TagMismatchView,
};
use crate::type_layout::{
    counts_equal, field_views, name_views, GenericParams, IsExhaustive, ReprAttr, TLData,
    TLDataView, TLDiscriminants, TLDiscriminantsView, TLEnum, TLEnumView, TLField, TLFieldView,
    TLPrimitive, TypeLayout, TypeLayoutView,
};
use vstd::prelude::*;

verus! {

/// What a type is made of, without the details.
#[derive(Debug, Clone, Copy, PartialEq, Eq, Structural)]
pub enum TLDataDiscriminant {
    Primitive,
    Opaque,
    Struct,
    Enum,
    NonExhaustiveEnum,
    FunctionPointer,
}

/// One way in which two layouts disagree.
#[derive(Debug, PartialEq, Eq)]
#[allow(inconsistent_fields)]
pub enum AbiInstability {
    /// The representation attributes differ.
    ReprAttr { expected: ReprAttr, found: ReprAttr },
    /// One side is a primitive and the other is not, or both are different
    /// primitives. A side that is no primitive is `None`.
    Primitive { expected: Option<TLPrimitive>, found: Option<TLPrimitive> },
    /// The numbers of fields or of variants do not fit together.
    FieldCountMismatch { expected: usize, found: usize },
    /// The fields or variants at `index` have different names.
    FieldRename { index: usize, expected: String, found: String },
    /// The two sides are made of different kinds of data.
    DataVariant { expected: TLDataDiscriminant, found: TLDataDiscriminant },
    /// The numbers of generic parameters differ.
    GenericParamCount { expected: GenericParams, found: GenericParams },
    /// The discriminants of two enums, or the integer types that store them,
    /// differ.
    EnumDiscriminant { expected: TLDiscriminants, found: TLDiscriminants },
    /// The tag of the found side is not compatible with the expected one.
    TagMismatch(TagMismatch),
    /// The two sides take part in reflection in different ways.
    ModuleReflectionMismatch { expected: ModReflMode, found: ModReflMode },
}

/// The mathematical value of an [`AbiInstability`].
#[allow(inconsistent_fields)]
pub ghost enum AbiInstabilityView {
    ReprAttr { expected: ReprAttr, found: ReprAttr },
    Primitive { expected: Option<TLPrimitive>, found: Option<TLPrimitive> },
    FieldCountMismatch { expected: int, found: int },
    FieldRename { index: int, expected: Seq<char>, found: Seq<char> },
    DataVariant { expected: TLDataDiscriminant, found: TLDataDiscriminant },
    GenericParamCount { expected: GenericParams, found: GenericParams },
    EnumDiscriminant { expected: TLDiscriminantsView, found: TLDiscriminantsView },
    TagMismatch(TagMismatchView),
    ModuleReflectionMismatch { expected: ModReflMode, found: ModReflMode },
}

impl View for AbiInstability {
    type V = AbiInstabilityView;

    open spec fn view(&self) -> AbiInstabilityView {
        match self {
            AbiInstability::ReprAttr { expected, found } => AbiInstabilityView::ReprAttr {
                expected: *expected,
                found: *found,
            },
            AbiInstability::Primitive { expected, found } => AbiInstabilityView::Primitive {
                expected: *expected,
                found: *found,
            },
            AbiInstability::FieldCountMismatch {
                expected,
                found,
            } => AbiInstabilityView::FieldCountMismatch {
                expected: *expected as int,
                found: *found as int,
            },
            AbiInstability::FieldRename {
                index,
                expected,
                found,
            } => AbiInstabilityView::FieldRename {
                index: *index as int,
                expected: expected@,
                found: found@,
            },
            AbiInstability::DataVariant { expected, found } => AbiInstabilityView::DataVariant {
                expected: *expected,
                found: *found,
            },
            AbiInstability::GenericParamCount {
                expected,
                found,
            } => AbiInstabilityView::GenericParamCount { expected: *expected, found: *found },
            AbiInstability::EnumDiscriminant {
                expected,
                found,
            } => AbiInstabilityView::EnumDiscriminant { expected: expected@, found: found@ },
            AbiInstability::TagMismatch(m) => AbiInstabilityView::TagMismatch(m@),
            AbiInstability::ModuleReflectionMismatch {
                expected,
                found,
            } => AbiInstabilityView::ModuleReflectionMismatch {
                expected: *expected,
                found: *found,
            },
        }
    }
}

/// A mismatch, and the type at which it was met.
#[derive(Debug, PartialEq, Eq)]
pub struct Mismatch {
    /// The name of the type, as the expected side has it.
    pub in_type: String,
    /// Where the expected side says that the type was declared.
    pub declared_at: ItemInfo,
    /// What is wrong.
    pub kind: AbiInstability,
}

/// The mathematical value of a [`Mismatch`].
pub ghost struct MismatchView {
    pub in_type: Seq<char>,
    pub declared_at: ItemInfoView,
    pub kind: AbiInstabilityView,
}

impl View for Mismatch {
    type V = MismatchView;

    open spec fn view(&self) -> MismatchView {
        MismatchView { in_type: self.in_type@, declared_at: self.declared_at@, kind: self.kind@ }
    }
}

/// The views of the mismatches in `v`, in order.
pub open spec fn mismatch_views(v: Seq<Mismatch>) -> Seq<MismatchView> {
    Seq::new(v.len(), |i: int| v[i]@)
}

/// The kind of data of `data`. A struct that may grow is a struct.
pub open spec fn data_class(data: TLDataView) -> TLDataDiscriminant {
    match data {
        TLDataView::Primitive(_) => TLDataDiscriminant::Primitive,
        TLDataView::Opaque => TLDataDiscriminant::Opaque,
        TLDataView::Struct { .. } => TLDataDiscriminant::Struct,
        TLDataView::PrefixType(_) => TLDataDiscriminant::Struct,
        TLDataView::Enum(e) => if e.exhaustiveness == IsExhaustive::Exhaustive {
            TLDataDiscriminant::Enum
        } else {
            TLDataDiscriminant::NonExhaustiveEnum
        },
    }
}

/// The primitive that `data` is, if it is one.
pub open spec fn primitive_of(data: TLDataView) -> Option<TLPrimitive> {
    match data {
        TLDataView::Primitive(p) => Some(p),
        _ => None,
    }
}

/// The fields of a struct, growing or not. Other data has none.
pub open spec fn struct_fields(data: TLDataView) -> Seq<TLFieldView> {
    match data {
        TLDataView::Struct { fields } => fields,
        TLDataView::PrefixType(p) => p.fields,
        _ => Seq::empty(),
    }
}

/// The index of the first field that a build may lack. A struct that
/// cannot grow lacks none of its fields.
pub open spec fn first_suffix_field(data: TLDataView) -> int {
    match data {
        TLDataView::PrefixType(p) => p.first_suffix_field as int,
        _ => struct_fields(data).len() as int,
    }
}

/// Whether reading the field at `index` depends on a condition. Only
/// suffix fields of a struct that may grow can be conditional.
pub open spec fn conditional_at(data: TLDataView, index: int) -> bool {
    match data {
        TLDataView::PrefixType(p) => flag_at(
            p.conditional_prefix_fields,
            index - p.first_suffix_field,
        ),
        _ => false,
    }
}

/// The number of fields that both sides have.
pub open spec fn cut_point(expected: TLDataView, found: TLDataView) -> int {
    if struct_fields(expected).len() <= struct_fields(found).len() {
        struct_fields(expected).len() as int
    } else {
        struct_fields(found).len() as int
    }
}

/// The first index that is a suffix position on both sides.
pub open spec fn common_suffix_start(expected: TLDataView, found: TLDataView) -> int {
    if first_suffix_field(expected) >= first_suffix_field(found) {
        first_suffix_field(expected)
    } else {
        first_suffix_field(found)
    }
}

/// Whether both sides agree, from `start` to the cut point, on which
/// fields are conditional.
pub open spec fn conditionality_agrees_from(
    expected: TLDataView,
    found: TLDataView,
    start: int,
) -> bool {
    forall|i: int|
        start <= i < cut_point(expected, found) ==> conditional_at(expected, i) == conditional_at(
            found,
            i,
        )
}

/// Whether the numbers of fields of two structs fit together: the fields
/// that only one side has are fields that the other side may lack, and the
/// sides agree on which of the suffix fields they share are conditional.
///
/// For two structs that cannot grow this says that they have the same
/// number of fields.
pub open spec fn field_counts_agree(expected: TLDataView, found: TLDataView) -> bool {
    &&& first_suffix_field(expected) <= cut_point(expected, found)
    &&& first_suffix_field(found) <= cut_point(expected, found)
    &&& conditionality_agrees_from(expected, found, common_suffix_start(expected, found))
}

/// The mismatch `kind`, met at the type whose expected layout is `owner`.
pub open spec fn at(owner: TypeLayoutView, kind: AbiInstabilityView) -> MismatchView {
    MismatchView { in_type: owner.name, declared_at: owner.item_info, kind }
}

/// The tag mismatches `tags`, each as a mismatch met at the type whose
/// expected layout is `owner`.
pub open spec fn tag_part(owner: TypeLayoutView, tags: Seq<TagMismatchView>) -> Seq<MismatchView> {
    Seq::new(tags.len(), |i: int| at(owner, AbiInstabilityView::TagMismatch(tags[i])))
}

/// The kind of data of a field: a function pointer, or the kind of its type.
pub open spec fn field_class(field: TLFieldView) -> TLDataDiscriminant {
    if field.is_function {
        TLDataDiscriminant::FunctionPointer
    } else {
        data_class(field.abi_info.layout.data)
    }
}

/// Every mismatch between the expected and the found layout of a type, in
/// the order of a depth-first walk.
///
/// At each type, in this order:
/// 1. Different representation attributes are a mismatch, and then what the
///    type is made of is not looked at.
/// 2. Otherwise what the type is made of is compared ([`data_mismatches`]),
///    and then its phantom fields, which must be as many on both sides.
/// 3. The numbers of generic parameters must be the same.
/// 4. The found tag must be compatible with the expected tag.
/// 5. The reflection modes must be the same.
///
/// With `by_name` unset, the fields directly below this type are paired
/// without regard to their names, as the parameters of a function are.
pub open spec fn layout_mismatches(
    expected: AbiInfoView,
    found: AbiInfoView,
    by_name: bool,
) -> Seq<MismatchView>
    decreases expected, 0int,
{
    let e = expected.layout;
    let f = found.layout;
    (if e.repr_attr != f.repr_attr {
        seq![at(e, AbiInstabilityView::ReprAttr { expected: e.repr_attr, found: f.repr_attr })]
    } else {
        data_mismatches(e, e.data, f.data, by_name) + phantom_mismatches(
            e,
            e.phantom_fields,
            f.phantom_fields,
        )
    }) + shallow_mismatches(e, f)
}

/// The mismatches of two layouts that do not depend on what the types are
/// made of: generic parameters, tags, reflection.
pub open spec fn shallow_mismatches(e: TypeLayoutView, f: TypeLayoutView) -> Seq<MismatchView> {
    (if e.generics != f.generics {
        seq![
            at(
                e,
                AbiInstabilityView::GenericParamCount { expected: e.generics, found: f.generics },
            ),
        ]
    } else {
        Seq::empty()
    }) + tag_part(e, tag_mismatches(e.tag, f.tag)) + (if e.mod_refl_mode != f.mod_refl_mode {
        seq![
            at(
                e,
                AbiInstabilityView::ModuleReflectionMismatch {
                    expected: e.mod_refl_mode,
                    found: f.mod_refl_mode,
                },
            ),
        ]
    } else {
        Seq::empty()
    })
}

/// The mismatches between the phantom fields of two layouts.
pub open spec fn phantom_mismatches(
    owner: TypeLayoutView,
    expected: Seq<TLFieldView>,
    found: Seq<TLFieldView>,
) -> Seq<MismatchView>
    decreases expected, expected.len() + 1,
{
    if expected.len() != found.len() {
        seq![
            at(
                owner,
                AbiInstabilityView::FieldCountMismatch {
                    expected: expected.len() as int,
                    found: found.len() as int,
                },
            ),
        ]
    } else {
        fields_mismatches(owner, expected, found, expected.len() as int, true)
    }
}

/// The mismatches between what two types are made of.
///
/// - If either side is a primitive, both must be the same primitive.
/// - Otherwise both sides must be of the same kind: both opaque, both
///   structs, both exhaustive enums or both non-exhaustive enums.
/// - Two opaque types always agree.
/// - Two structs must have numbers of fields that fit together
///   ([`field_counts_agree`]), and the fields that both have must agree.
/// - Two enums are compared by [`enum_mismatches`].
pub open spec fn data_mismatches(
    owner: TypeLayoutView,
    expected: TLDataView,
    found: TLDataView,
    by_name: bool,
) -> Seq<MismatchView>
    decreases expected, 0int,
{
    if expected is Primitive || found is Primitive {
        if expected == found {
            Seq::empty()
        } else {
            seq![
                at(
                    owner,
                    AbiInstabilityView::Primitive {
                        expected: primitive_of(expected),
                        found: primitive_of(found),
                    },
                ),
            ]
        }
    } else if data_class(expected) != data_class(found) {
        seq![
            at(
                owner,
                AbiInstabilityView::DataVariant {
                    expected: data_class(expected),
                    found: data_class(found),
                },
            ),
        ]
    } else {
        match expected {
            TLDataView::Enum(e) => enum_mismatches(owner, e, found->Enum_0, by_name),
            TLDataView::Struct { fields } => struct_mismatches(
                owner,
                expected,
                found,
                fields,
                by_name,
            ),
            TLDataView::PrefixType(p) => struct_mismatches(
                owner,
                expected,
                found,
                p.fields,
                by_name,
            ),
            _ => Seq::empty(),
        }
    }
}

/// The mismatches between two structs, `fields` being the fields of the
/// expected one.
pub open spec fn struct_mismatches(
    owner: TypeLayoutView,
    expected: TLDataView,
    found: TLDataView,
    fields: Seq<TLFieldView>,
    by_name: bool,
) -> Seq<MismatchView>
    decreases fields, fields.len() + 1,
{
    (if field_counts_agree(expected, found) {
        Seq::empty()
    } else {
        seq![
            at(
                owner,
                AbiInstabilityView::FieldCountMismatch {
                    expected: struct_fields(expected).len() as int,
                    found: struct_fields(found).len() as int,
                },
            ),
        ]
    }) + fields_mismatches(
        owner,
        fields,
        struct_fields(found),
        if fields.len() <= struct_fields(found).len() {
            fields.len() as int
        } else {
            struct_fields(found).len() as int
        },
        by_name,
    )
}

/// The mismatches between two enums.
///
/// The numbers of variants must be the same; if they are not, nothing else
/// is compared. Otherwise the names of the variants, the discriminants with
/// the integer type that stores them, and the numbers of fields of the
/// variants must be the same, and the fields must agree.
pub open spec fn enum_mismatches(
    owner: TypeLayoutView,
    expected: TLEnumView,
    found: TLEnumView,
    by_name: bool,
) -> Seq<MismatchView>
    decreases expected, 0int,
{
    if expected.variant_names.len() != found.variant_names.len() {
        seq![
            at(
                owner,
                AbiInstabilityView::FieldCountMismatch {
                    expected: expected.variant_names.len() as int,
                    found: found.variant_names.len() as int,
                },
            ),
        ]
    } else {
        name_mismatches(
            owner,
            expected.variant_names,
            found.variant_names,
            expected.variant_names.len() as int,
        ) + (if expected.discriminants != found.discriminants {
            seq![
                at(
                    owner,
                    AbiInstabilityView::EnumDiscriminant {
                        expected: expected.discriminants,
                        found: found.discriminants,
                    },
                ),
            ]
        } else {
            Seq::empty()
        }) + (if expected.field_count != found.field_count || expected.fields.len()
            != found.fields.len() {
            seq![
                at(
                    owner,
                    AbiInstabilityView::FieldCountMismatch {
                        expected: expected.fields.len() as int,
                        found: found.fields.len() as int,
                    },
                ),
            ]
        } else {
            fields_mismatches(
                owner,
                expected.fields,
                found.fields,
                expected.fields.len() as int,
                by_name,
            )
        })
    }
}

/// The mismatches between the first `n` names of two lists of names.
pub open spec fn name_mismatches(
    owner: TypeLayoutView,
    expected: Seq<Seq<char>>,
    found: Seq<Seq<char>>,
    n: int,
) -> Seq<MismatchView>
    decreases n,
{
    if n <= 0 || n > expected.len() || n > found.len() {
        Seq::empty()
    } else {
        name_mismatches(owner, expected, found, n - 1) + (if expected[n - 1] != found[n - 1] {
            seq![
                at(
                    owner,
                    AbiInstabilityView::FieldRename {
                        index: n - 1,
                        expected: expected[n - 1],
                        found: found[n - 1],
                    },
                ),
            ]
        } else {
            Seq::empty()
        })
    }
}

/// The mismatches between the first `n` fields of two lists of fields.
pub open spec fn fields_mismatches(
    owner: TypeLayoutView,
    expected: Seq<TLFieldView>,
    found: Seq<TLFieldView>,
    n: int,
    by_name: bool,
) -> Seq<MismatchView>
    decreases expected, n,
{
    if n <= 0 || n > expected.len() || n > found.len() {
        Seq::empty()
    } else {
        fields_mismatches(owner, expected, found, n - 1, by_name) + field_mismatches(
            owner,
            expected[n - 1],
            found[n - 1],
            n - 1,
            by_name,
        )
    }
}

/// The mismatches between two fields at the same index.
///
/// With `by_name` set the names must be the same. A function pointer only
/// agrees with a function pointer, and then the layouts of the two are
/// compared without regard to the names of their fields; two other fields
/// agree as the layouts of their types do.
pub open spec fn field_mismatches(
    owner: TypeLayoutView,
    expected: TLFieldView,
    found: TLFieldView,
    index: int,
    by_name: bool,
) -> Seq<MismatchView>
    decreases expected, 0int,
{
    (if by_name && expected.name != found.name {
        seq![
            at(
                owner,
                AbiInstabilityView::FieldRename {
                    index,
                    expected: expected.name,
                    found: found.name,
                },
            ),
        ]
    } else {
        Seq::empty()
    }) + (if expected.is_function != found.is_function {
        seq![
            at(
                owner,
                AbiInstabilityView::DataVariant {
                    expected: field_class(expected),
                    found: field_class(found),
                },
            ),
        ]
    } else {
        layout_mismatches(expected.abi_info, found.abi_info, !expected.is_function)
    })
}


/// Appends to `errs` the mismatch `kind`, met at the type whose expected
/// layout is `owner`.
fn report(errs: &mut Vec<Mismatch>, owner: &TypeLayout, kind: AbiInstability)
    ensures
        mismatch_views(final(errs)@) == mismatch_views(old(errs)@) + seq![at(owner@, kind@)],
{
    let m = Mismatch {
        in_type: owner.name.clone(),
        declared_at: owner.item_info.duplicate(),
        kind,
    };
    assert(mismatch_views(errs@.push(m)) =~= mismatch_views(errs@) + seq![at(owner@, kind@)]);
    errs.push(m);
}

/// The kind of data of `data`.
fn data_class_of(data: &TLData) -> (class: TLDataDiscriminant)
    ensures
        class == data_class(data@),
{
    match data {
        TLData::Primitive(_) => TLDataDiscriminant::Primitive,
        TLData::Opaque => TLDataDiscriminant::Opaque,
        TLData::Struct { .. } => TLDataDiscriminant::Struct,
        TLData::PrefixType(_) => TLDataDiscriminant::Struct,
        TLData::Enum(e) => if e.exhaustiveness.is_exhaustive() {
            TLDataDiscriminant::Enum
        } else {
            TLDataDiscriminant::NonExhaustiveEnum
        },
    }
}

/// The primitive that `data` is, if it is one.
fn primitive_in(data: &TLData) -> (p: Option<TLPrimitive>)
    ensures
        p == primitive_of(data@),
{
    match data {
        TLData::Primitive(p) => Some(*p),
        _ => None,
    }
}

/// The number of fields of a struct, growing or not.
fn field_count_of(data: &TLData) -> (n: usize)
    ensures
        n == struct_fields(data@).len(),
{
    match data {
        TLData::Struct { fields } => fields.len(),
        TLData::PrefixType(p) => p.fields.len(),
        _ => 0,
    }
}

/// The index of the first field that a build may lack.
fn first_suffix_of(data: &TLData) -> (n: usize)
    ensures
        n == first_suffix_field(data@),
{
    match data {
        TLData::PrefixType(p) => p.first_suffix_field,
        _ => field_count_of(data),
    }
}

/// Whether reading the field at `index` depends on a condition.
fn is_conditional_at(data: &TLData, index: usize) -> (b: bool)
    ensures
        b == conditional_at(data@, index as int),
{
    match data {
        TLData::PrefixType(p) => {
            if index < p.first_suffix_field {
                false
            } else {
                let position = index - p.first_suffix_field;
                position < p.conditional_prefix_fields.len()
                    && p.conditional_prefix_fields[position].is_conditional()
            }
        },
        _ => false,
    }
}

/// Whether the numbers of fields of two structs fit together.
fn counts_fit(expected: &TLData, found: &TLData) -> (fit: bool)
    ensures
        fit == field_counts_agree(expected@, found@),
{
    let e_len = field_count_of(expected);
    let f_len = field_count_of(found);
    let cut = if e_len <= f_len {
        e_len
    } else {
        f_len
    };
    let e_first = first_suffix_of(expected);
    let f_first = first_suffix_of(found);
    if e_first > cut || f_first > cut {
        return false;
    }
    let start = if e_first >= f_first {
        e_first
    } else {
        f_first
    };
    let mut i: usize = start;
    while i < cut
        invariant
            start <= i <= cut,
            cut == cut_point(expected@, found@),
            start == common_suffix_start(expected@, found@),
            conditionality_agrees_from(expected@, found@, start as int)
                == conditionality_agrees_from(expected@, found@, i as int),
        decreases cut - i,
    {
        if is_conditional_at(expected, i) != is_conditional_at(found, i) {
            return false;
        }
        i += 1;
    }
    true
}

/// Appends to `errs` the mismatches between the first `n` names of two
/// lists of names.
fn check_names(
    owner: &TypeLayout,
    expected: &Vec<String>,
    found: &Vec<String>,
    errs: &mut Vec<Mismatch>,
)
    requires
        expected.len() == found.len(),
    ensures
        mismatch_views(final(errs)@) == mismatch_views(old(errs)@) + name_mismatches(
            owner@,
            name_views(expected@),
            name_views(found@),
            expected.len() as int,
        ),
{
    let ghost before = mismatch_views(errs@);
    assert(before + Seq::<MismatchView>::empty() =~= before);
    let mut i: usize = 0;
    while i < expected.len()
        invariant
            i <= expected.len(),
            expected.len() == found.len(),
            mismatch_views(errs@) == before + name_mismatches(
                owner@,
                name_views(expected@),
                name_views(found@),
                i as int,
            ),
        decreases expected.len() - i,
    {
        let ghost so_far = mismatch_views(errs@);
        if expected[i] != found[i] {
            report(
                errs,
                owner,
                AbiInstability::FieldRename {
                    index: i,
                    expected: expected[i].clone(),
                    found: found[i].clone(),
                },
            );
        } else {
            assert(so_far + Seq::<MismatchView>::empty() =~= so_far);
        }
        i += 1;
        assert(mismatch_views(errs@) =~= before + name_mismatches(
            owner@,
            name_views(expected@),
            name_views(found@),
            i as int,
        ));
    }
}

/// Appends to `errs` the mismatches between the tags of two layouts.
fn check_tags(owner: &TypeLayout, expected: &Tag, found: &Tag, errs: &mut Vec<Mismatch>)
    ensures
        mismatch_views(final(errs)@) == mismatch_views(old(errs)@) + tag_part(
            owner@,
            tag_mismatches(expected@, found@),
        ),
{
    let ghost before = mismatch_views(errs@);
    let mut tags: Vec<TagMismatch> = Vec::new();
    assert(tag_mismatch_views(tags@) + tag_mismatches(expected@, found@) =~= tag_mismatches(
        expected@,
        found@,
    ));
    collect_mismatches(expected, found, &mut tags);
    let ghost all = tag_part(owner@, tag_mismatches(expected@, found@));
    let mut i: usize = 0;
    assert(before + all.subrange(0, 0) =~= before);
    while i < tags.len()
        invariant
            i <= tags.len(),
            tag_mismatch_views(tags@) == tag_mismatches(expected@, found@),
            all == tag_part(owner@, tag_mismatches(expected@, found@)),
            mismatch_views(errs@) == before + all.subrange(0, i as int),
        decreases tags.len() - i,
    {
        assert(tag_mismatch_views(tags@)[i as int] == tags[i as int]@);
        report(errs, owner, AbiInstability::TagMismatch(tags[i].duplicate()));
        i += 1;
        assert(mismatch_views(errs@) =~= before + all.subrange(0, i as int));
    }
    assert(all.subrange(0, i as int) =~= all);
}

/// Appends to `errs` the mismatches of two layouts that do not depend on
/// what the types are made of.
fn check_shallow(expected: &TypeLayout, found: &TypeLayout, errs: &mut Vec<Mismatch>)
    ensures
        mismatch_views(final(errs)@) == mismatch_views(old(errs)@) + shallow_mismatches(
            expected@,
            found@,
        ),
{
    let ghost before = mismatch_views(errs@);
    let ghost e = expected@;
    let ghost f = found@;
    let ghost generics = if e.generics != f.generics {
        seq![
            at(
                e,
                AbiInstabilityView::GenericParamCount { expected: e.generics, found: f.generics },
            ),
        ]
    } else {
        Seq::<MismatchView>::empty()
    };
    if expected.generics != found.generics {
        report(
            errs,
            expected,
            AbiInstability::GenericParamCount {
                expected: expected.generics,
                found: found.generics,
            },
        );
    } else {
        assert(before + generics =~= before);
    }
    assert(mismatch_views(errs@) == before + generics);
    check_tags(expected, &expected.tag, &found.tag, errs);
    let ghost tags = tag_part(e, tag_mismatches(e.tag, f.tag));
    if expected.mod_refl_mode != found.mod_refl_mode {
        report(
            errs,
            expected,
            AbiInstability::ModuleReflectionMismatch {
                expected: expected.mod_refl_mode,
                found: found.mod_refl_mode,
            },
        );
    } else {
        assert(before + generics + tags + Seq::<MismatchView>::empty() =~= before + generics
            + tags);
    }
    assert(mismatch_views(errs@) =~= before + shallow_mismatches(e, f));
}

proof fn lemma_concat_assoc(a: Seq<MismatchView>, b: Seq<MismatchView>, c: Seq<MismatchView>)
    ensures
        (a + b) + c == a + (b + c),
{
    assert((a + b) + c =~= a + (b + c));
}

/// Appends to `errs` every mismatch between the expected and the found
/// layout of a type.
pub fn check_inner(expected: &AbiInfo, found: &AbiInfo, by_name: bool, errs: &mut Vec<Mismatch>)
    ensures
        mismatch_views(final(errs)@) == mismatch_views(old(errs)@) + layout_mismatches(
            expected@,
            found@,
            by_name,
        ),
    decreases expected, 0int,
{
    let ghost before = mismatch_views(errs@);
    let e = &expected.layout;
    let f = &found.layout;
    let ghost deep = if e@.repr_attr != f@.repr_attr {
        seq![
            at(
                e@,
                AbiInstabilityView::ReprAttr { expected: e@.repr_attr, found: f@.repr_attr },
            ),
        ]
    } else {
        data_mismatches(e@, e@.data, f@.data, by_name) + phantom_mismatches(
            e@,
            e@.phantom_fields,
            f@.phantom_fields,
        )
    };
    if e.repr_attr != f.repr_attr {
        report(
            errs,
            &e,
            AbiInstability::ReprAttr { expected: e.repr_attr, found: f.repr_attr },
        );
    } else {
        check_data(&e, &e.data, &f.data, by_name, errs);
        check_phantom(&e, &e.phantom_fields, &f.phantom_fields, errs);
        proof {
            lemma_concat_assoc(
                before,
                data_mismatches(e@, e@.data, f@.data, by_name),
                phantom_mismatches(e@, e@.phantom_fields, f@.phantom_fields),
            );
        }
    }
    assert(mismatch_views(errs@) == before + deep);
    check_shallow(e, f, errs);
    proof {
        lemma_concat_assoc(before, deep, shallow_mismatches(e@, f@));
        assert(expected@.layout == e@);
        assert(found@.layout == f@);
        assert(layout_mismatches(expected@, found@, by_name) == deep + shallow_mismatches(
            e@,
            f@,
        ));
    }
}

/// Appends to `errs` the mismatches between the phantom fields of two
/// layouts.
fn check_phantom(
    owner: &TypeLayout,
    expected: &Vec<TLField>,
    found: &Vec<TLField>,
    errs: &mut Vec<Mismatch>,
)
    ensures
        mismatch_views(final(errs)@) == mismatch_views(old(errs)@) + phantom_mismatches(
            owner@,
            field_views(expected@),
            field_views(found@),
        ),
    decreases expected, expected.len() + 1,
{
    if expected.len() != found.len() {
        report(
            errs,
            owner,
            AbiInstability::FieldCountMismatch { expected: expected.len(), found: found.len() },
        );
    } else {
        check_fields(owner, expected, found, expected.len(), true, errs);
    }
}

/// Appends to `errs` the mismatches between what two types are made of.
fn check_data(
    owner: &TypeLayout,
    expected: &TLData,
    found: &TLData,
    by_name: bool,
    errs: &mut Vec<Mismatch>,
)
    ensures
        mismatch_views(final(errs)@) == mismatch_views(old(errs)@) + data_mismatches(
            owner@,
            expected@,
            found@,
            by_name,
        ),
    decreases expected, 0int,
{
    let ghost before = mismatch_views(errs@);
    assert(before + Seq::<MismatchView>::empty() =~= before);
    let e_prim = primitive_in(expected);
    let f_prim = primitive_in(found);
    if e_prim.is_some() || f_prim.is_some() {
        let same = match (e_prim, f_prim) {
            (Some(p), Some(q)) => p == q,
            _ => false,
        };
        if !same {
            report(errs, owner, AbiInstability::Primitive { expected: e_prim, found: f_prim });
        }
        return ;
    }
    let e_class = data_class_of(expected);
    let f_class = data_class_of(found);
    if e_class != f_class {
        report(errs, owner, AbiInstability::DataVariant { expected: e_class, found: f_class });
        return ;
    }
    match expected {
        TLData::Enum(e) => {
            if let TLData::Enum(f) = found {
                check_enum(owner, e, f, by_name, errs);
            }
        },
        TLData::Struct { fields } => {
            check_struct(owner, expected, found, fields, by_name, errs);
        },
        TLData::PrefixType(p) => {
            check_struct(owner, expected, found, &p.fields, by_name, errs);
        },
        _ => {},
    }
}

/// Appends to `errs` the mismatches between two structs, `fields` being the
/// fields of the expected one.
fn check_struct(
    owner: &TypeLayout,
    expected: &TLData,
    found: &TLData,
    fields: &Vec<TLField>,
    by_name: bool,
    errs: &mut Vec<Mismatch>,
)
    requires
        field_views(fields@) == struct_fields(expected@),
        data_class(found@) == TLDataDiscriminant::Struct,
    ensures
        mismatch_views(final(errs)@) == mismatch_views(old(errs)@) + struct_mismatches(
            owner@,
            expected@,
            found@,
            field_views(fields@),
            by_name,
        ),
    decreases fields, fields.len() + 1,
{
    let ghost before = mismatch_views(errs@);
    let ghost counted = if field_counts_agree(expected@, found@) {
        Seq::<MismatchView>::empty()
    } else {
        seq![
            at(
                owner@,
                AbiInstabilityView::FieldCountMismatch {
                    expected: struct_fields(expected@).len() as int,
                    found: struct_fields(found@).len() as int,
                },
            ),
        ]
    };
    if !counts_fit(expected, found) {
        report(
            errs,
            owner,
            AbiInstability::FieldCountMismatch {
                expected: fields.len(),
                found: field_count_of(found),
            },
        );
    } else {
        assert(before + counted =~= before);
    }
    assert(mismatch_views(errs@) == before + counted);
    let ghost cut = if fields.len() <= struct_fields(found@).len() {
        fields.len() as int
    } else {
        struct_fields(found@).len() as int
    };
    let ghost below = fields_mismatches(
        owner@,
        field_views(fields@),
        struct_fields(found@),
        cut,
        by_name,
    );
    match found {
        TLData::Struct { fields: others } => {
            let cut = if fields.len() <= others.len() {
                fields.len()
            } else {
                others.len()
            };
            check_fields(owner, fields, others, cut, by_name, errs);
        },
        TLData::PrefixType(p) => {
            let cut = if fields.len() <= p.fields.len() {
                fields.len()
            } else {
                p.fields.len()
            };
            check_fields(owner, fields, &p.fields, cut, by_name, errs);
        },
        _ => {},
    }
    assert(mismatch_views(errs@) == before + counted + below);
    proof {
        lemma_concat_assoc(before, counted, below);
    }
}

/// Appends to `errs` the mismatches between two enums.
fn check_enum(
    owner: &TypeLayout,
    expected: &TLEnum,
    found: &TLEnum,
    by_name: bool,
    errs: &mut Vec<Mismatch>,
)
    ensures
        mismatch_views(final(errs)@) == mismatch_views(old(errs)@) + enum_mismatches(
            owner@,
            expected@,
            found@,
            by_name,
        ),
    decreases expected, 0int,
{
    let ghost before = mismatch_views(errs@);
    if expected.variant_names.len() != found.variant_names.len() {
        report(
            errs,
            owner,
            AbiInstability::FieldCountMismatch {
                expected: expected.variant_names.len(),
                found: found.variant_names.len(),
            },
        );
        return ;
    }
    let ghost e = expected@;
    let ghost f = found@;
    let ghost names = name_mismatches(
        owner@,
        e.variant_names,
        f.variant_names,
        e.variant_names.len() as int,
    );
    let ghost discriminants = if e.discriminants != f.discriminants {
        seq![
            at(
                owner@,
                AbiInstabilityView::EnumDiscriminant {
                    expected: e.discriminants,
                    found: f.discriminants,
                },
            ),
        ]
    } else {
        Seq::<MismatchView>::empty()
    };
    let ghost below = if e.field_count != f.field_count || e.fields.len() != f.fields.len() {
        seq![
            at(
                owner@,
                AbiInstabilityView::FieldCountMismatch {
                    expected: e.fields.len() as int,
                    found: f.fields.len() as int,
                },
            ),
        ]
    } else {
        fields_mismatches(owner@, e.fields, f.fields, e.fields.len() as int, by_name)
    };
    check_names(owner, &expected.variant_names, &found.variant_names, errs);
    assert(mismatch_views(errs@) == before + names);
    if !expected.discriminants.equals(&found.discriminants) {
        report(
            errs,
            owner,
            AbiInstability::EnumDiscriminant {
                expected: expected.discriminants.duplicate(),
                found: found.discriminants.duplicate(),
            },
        );
    } else {
        assert(before + names + discriminants =~= before + names);
    }
    assert(mismatch_views(errs@) == before + names + discriminants);
    if !counts_equal(&expected.field_count, &found.field_count) || expected.fields.len()
        != found.fields.len() {
        report(
            errs,
            owner,
            AbiInstability::FieldCountMismatch {
                expected: expected.fields.len(),
                found: found.fields.len(),
            },
        );
    } else {
        check_fields(owner, &expected.fields, &found.fields, expected.fields.len(), by_name, errs);
    }
    assert(mismatch_views(errs@) == before + names + discriminants + below);
    proof {
        lemma_concat_assoc(before, names, discriminants);
        lemma_concat_assoc(before, names + discriminants, below);
        assert(enum_mismatches(owner@, e, f, by_name) == names + discriminants + below);
    }
}

/// Appends to `errs` the mismatches between the first `n` fields of two
/// lists of fields.
#[verifier::loop_isolation(false)]
fn check_fields(
    owner: &TypeLayout,
    expected: &Vec<TLField>,
    found: &Vec<TLField>,
    n: usize,
    by_name: bool,
    errs: &mut Vec<Mismatch>,
)
    requires
        n <= expected.len(),
        n <= found.len(),
    ensures
        mismatch_views(final(errs)@) == mismatch_views(old(errs)@) + fields_mismatches(
            owner@,
            field_views(expected@),
            field_views(found@),
            n as int,
            by_name,
        ),
    decreases expected, n,
{
    let ghost before = mismatch_views(errs@);
    assert(before + Seq::<MismatchView>::empty() =~= before);
    let mut i: usize = 0;
    while i < n
        invariant
            i <= n,
            mismatch_views(errs@) == before + fields_mismatches(
                owner@,
                field_views(expected@),
                field_views(found@),
                i as int,
                by_name,
            ),
        decreases n - i,
    {
        check_field(owner, &expected[i], &found[i], i, by_name, errs);
        i += 1;
        assert(mismatch_views(errs@) =~= before + fields_mismatches(
            owner@,
            field_views(expected@),
            field_views(found@),
            i as int,
            by_name,
        ));
    }
}

/// Appends to `errs` the mismatches between two fields at the same index.
fn check_field(
    owner: &TypeLayout,
    expected: &TLField,
    found: &TLField,
    index: usize,
    by_name: bool,
    errs: &mut Vec<Mismatch>,
)
    ensures
        mismatch_views(final(errs)@) == mismatch_views(old(errs)@) + field_mismatches(
            owner@,
            expected@,
            found@,
            index as int,
            by_name,
        ),
    decreases expected, 0int,
{
    let ghost before = mismatch_views(errs@);
    if by_name && expected.name != found.name {
        report(
            errs,
            owner,
            AbiInstability::FieldRename {
                index,
                expected: expected.name.clone(),
                found: found.name.clone(),
            },
        );
    } else {
        assert(before + Seq::<MismatchView>::empty() =~= before);
    }
    if expected.is_function != found.is_function {
        let e_class = if expected.is_function {
            TLDataDiscriminant::FunctionPointer
        } else {
            data_class_of(&expected.abi_info.abi_info.layout.data)
        };
        let f_class = if found.is_function {
            TLDataDiscriminant::FunctionPointer
        } else {
            data_class_of(&found.abi_info.abi_info.layout.data)
        };
        report(errs, owner, AbiInstability::DataVariant { expected: e_class, found: f_class });
    } else {
        check_inner(
            &*expected.abi_info.abi_info,
            &*found.abi_info.abi_info,
            !expected.is_function,
            errs,
        );
    }
    assert(mismatch_views(errs@) =~= before + field_mismatches(
        owner@,
        expected@,
        found@,
        index as int,
        by_name,
    ));
}


/// Checks that the layout `implementation`, found in another binary, can
/// stand for the layout `interface`, expected by this one.
///
/// Returns `Ok` when there is no mismatch, and otherwise every mismatch, in
/// the order of a depth-first walk of both layouts. A layout is always
/// compatible with itself.
pub fn check_layout_compatibility(
    interface: &AbiInfoWrapper,
    implementation: &AbiInfoWrapper,
) -> (res: Result<(), Vec<Mismatch>>)
    ensures
        res is Ok <==> layout_mismatches(interface@, implementation@, true).len() == 0,
        res matches Err(errs) ==> mismatch_views(errs@) == layout_mismatches(
            interface@,
            implementation@,
            true,
        ),
        interface@ == implementation@ ==> res is Ok,
{
    let expected = interface.get();
    proof {
        if interface@ == implementation@ {
            lemma_check_reflexive(expected@, true);
        }
    }
    check_abi_info(expected, implementation.get())
}

/// Checks the layout `found` against the layout `expected`, neither of
/// which needs to be well formed.
pub fn check_abi_info(expected: &AbiInfo, found: &AbiInfo) -> (res: Result<(), Vec<Mismatch>>)
    ensures
        res is Ok <==> layout_mismatches(expected@, found@, true).len() == 0,
        res matches Err(errs) ==> mismatch_views(errs@) == layout_mismatches(
            expected@,
            found@,
            true,
        ),
{
    let mut errs: Vec<Mismatch> = Vec::new();
    assert(mismatch_views(errs@) + layout_mismatches(expected@, found@, true)
        =~= layout_mismatches(expected@, found@, true));
    check_inner(expected, found, true, &mut errs);
    if errs.len() == 0 {
        Ok(())
    } else {
        Err(errs)
    }
}

} // verus!
