//! The layout of a type: how a binary describes one of its types to another.
//!
//! A layout is a finite tree: each field holds the layout of its type. A
//! type that refers to itself is described with that reference as an opaque
//! field, so that walking a layout always ends.

pub mod construction;

use crate::abi_stability::stable_abi_trait::{AbiInfoView, GetAbiInfo};
use crate::prefix_type::{FieldAccessibility, IsConditional, OnMissingField};
use crate::reflection::ModReflMode;
use crate::tag::{Tag, TagView};
use construction::{ItemInfo, ItemInfoView, TypeLayoutParams};
use vstd::prelude::*;

verus! {

/// The integer type that stores the discriminant of an enum.
#[derive(Debug, Clone, Copy, PartialEq, Eq, Structural)]
pub enum DiscriminantRepr {
    U8,
    I8,
    U16,
    I16,
    U32,
    I32,
    U64,
    I64,
    Usize,
    Isize,
}

/// The representation attribute of a type.
#[derive(Debug, Clone, Copy, PartialEq, Eq, Structural)]
pub enum ReprAttr {
    /// An optional value of a type with one invalid bit pattern, laid out as
    /// that type. The layout is otherwise left to the compiler.
    OptionNonZero,
    /// A primitive of the language.
    Primitive,
    /// Fields laid out as C does.
    C,
    /// Fields laid out as C does, with the discriminant stored in the given
    /// integer type.
    CWithDiscriminant(DiscriminantRepr),
    /// Laid out as its single field.
    Transparent,
    /// An enum whose discriminant is stored in the given integer type.
    Int(DiscriminantRepr),
}

impl ReprAttr {
    /// The attribute of a type laid out as C does.
    pub fn c() -> (repr: Self)
        ensures
            repr == ReprAttr::C,
    {
        ReprAttr::C
    }
}

/// The primitives of the language that a layout can describe.
///
/// Shared references, mutable references and the two kinds of raw pointers
/// are different primitives: none of them stands for another.
#[derive(Debug, Clone, Copy, PartialEq, Eq, Structural)]
pub enum TLPrimitive {
    U8,
    I8,
    U16,
    I16,
    U32,
    I32,
    U64,
    I64,
    Usize,
    Isize,
    Bool,
    SharedRef,
    MutRef,
    ConstPtr,
    MutPtr,
    Array { len: usize },
}

/// The numbers of generic parameters of a type.
#[derive(Debug, Clone, Copy, PartialEq, Eq, Structural)]
pub struct GenericParams {
    pub lifetime_count: usize,
    pub type_count: usize,
    pub const_count: usize,
}

impl GenericParams {
    /// The numbers of lifetime, type and constant parameters, in this order.
    pub fn new(lifetime_count: usize, type_count: usize, const_count: usize) -> (g: Self)
        ensures
            g == (GenericParams { lifetime_count, type_count, const_count }),
    {
        GenericParams { lifetime_count, type_count, const_count }
    }
}

/// Whether every variant of an enum is known to every binary.
#[derive(Debug, Clone, Copy, PartialEq, Eq, Structural)]
pub enum IsExhaustive {
    Exhaustive,
    NonExhaustive,
}

impl IsExhaustive {
    /// Every variant is known.
    pub fn exhaustive() -> (e: Self)
        ensures
            e == IsExhaustive::Exhaustive,
    {
        IsExhaustive::Exhaustive
    }

    /// Whether every variant is known.
    pub fn is_exhaustive(self) -> (b: bool)
        ensures
            b == (self == IsExhaustive::Exhaustive),
    {
        match self {
            IsExhaustive::Exhaustive => true,
            IsExhaustive::NonExhaustive => false,
        }
    }
}

/// The discriminants of the variants of an enum, in the order of the
/// variants, and the integer type that stores them.
#[derive(Debug, PartialEq, Eq)]
pub struct TLDiscriminants {
    pub repr: DiscriminantRepr,
    pub values: Vec<i128>,
}

/// The mathematical value of a [`TLDiscriminants`].
pub ghost struct TLDiscriminantsView {
    pub repr: DiscriminantRepr,
    pub values: Seq<int>,
}

/// The numbers of `values`, as integers.
pub open spec fn as_ints(values: Seq<i128>) -> Seq<int> {
    Seq::new(values.len(), |i: int| values[i] as int)
}

impl View for TLDiscriminants {
    type V = TLDiscriminantsView;

    open spec fn view(&self) -> TLDiscriminantsView {
        TLDiscriminantsView { repr: self.repr, values: as_ints(self.values@) }
    }
}

/// A field of a struct or of a variant of an enum.
#[derive(Debug, PartialEq, Eq)]
pub struct TLField {
    /// The name of the field.
    pub name: String,
    /// The number of lifetimes that the type of the field refers to.
    pub lifetime_count: usize,
    /// The layout of the type of the field.
    pub abi_info: GetAbiInfo,
    /// Whether the field is a function pointer. The layout of such a field
    /// lists the parameters of the function, then what it returns, as the
    /// fields of a struct.
    pub is_function: bool,
    /// Whether reading the field depends on a condition.
    pub is_conditional: IsConditional,
    /// What the accessor of the field does when a value lacks the field.
    pub on_missing: OnMissingField,
}

/// The mathematical value of a [`TLField`].
pub ghost struct TLFieldView {
    pub name: Seq<char>,
    pub lifetime_count: nat,
    pub abi_info: AbiInfoView,
    pub is_function: bool,
    pub is_conditional: bool,
    pub on_missing: OnMissingField,
}

/// An enum: its variants, and their fields as one list.
#[derive(Debug, PartialEq, Eq)]
pub struct TLEnum {
    /// The names of the variants.
    pub variant_names: Vec<String>,
    /// Whether every variant is known to every binary.
    pub exhaustiveness: IsExhaustive,
    /// The fields of all variants, those of the first variant first.
    pub fields: Vec<TLField>,
    /// The discriminants of the variants.
    pub discriminants: TLDiscriminants,
    /// For each variant, the number of its fields.
    pub field_count: Vec<usize>,
}

/// The mathematical value of a [`TLEnum`].
pub ghost struct TLEnumView {
    pub variant_names: Seq<Seq<char>>,
    pub exhaustiveness: IsExhaustive,
    pub fields: Seq<TLFieldView>,
    pub discriminants: TLDiscriminantsView,
    pub field_count: Seq<nat>,
}

/// A struct that may grow fields at its end.
#[derive(Debug, PartialEq, Eq)]
pub struct TLPrefixType {
    /// The index of the first field that a build may lack.
    pub first_suffix_field: usize,
    /// For each suffix position, whether this build has the field.
    pub accessible_fields: FieldAccessibility,
    /// For each suffix position, whether reading the field depends on a
    /// condition.
    pub conditional_prefix_fields: Vec<IsConditional>,
    /// All fields that this build knows, prefix and suffix.
    pub fields: Vec<TLField>,
}

/// The mathematical value of a [`TLPrefixType`].
pub ghost struct TLPrefixTypeView {
    pub first_suffix_field: nat,
    pub accessible_fields: Seq<bool>,
    pub conditional_prefix_fields: Seq<bool>,
    pub fields: Seq<TLFieldView>,
}

/// What a type is made of.
#[derive(Debug, PartialEq, Eq)]
pub enum TLData {
    /// A primitive of the language.
    Primitive(TLPrimitive),
    /// A type whose layout is deliberately left unchecked.
    Opaque,
    /// A struct with the given fields.
    Struct { fields: Vec<TLField> },
    /// An enum.
    Enum(TLEnum),
    /// A struct that may grow fields at its end.
    PrefixType(TLPrefixType),
}

/// The mathematical value of a [`TLData`].
pub ghost enum TLDataView {
    Primitive(TLPrimitive),
    Opaque,
    Struct { fields: Seq<TLFieldView> },
    Enum(TLEnumView),
    PrefixType(TLPrefixTypeView),
}

/// The layout of a type.
#[derive(Debug, PartialEq, Eq)]
pub struct TypeLayout {
    /// The name of the type, without its generic parameters.
    pub name: String,
    /// Where the type was declared.
    pub item_info: ItemInfo,
    /// The representation attribute of the type.
    pub repr_attr: ReprAttr,
    /// The numbers of generic parameters of the type.
    pub generics: GenericParams,
    /// What the type is made of.
    pub data: TLData,
    /// Fields that the type does not store, one for each type that it
    /// refers to without holding it: the target of a reference, the
    /// element of an array.
    pub phantom_fields: Vec<TLField>,
    /// Facts about the type that its structure does not show.
    pub tag: Tag,
    /// How the type takes part in reflection on modules.
    pub mod_refl_mode: ModReflMode,
}

/// The mathematical value of a [`TypeLayout`].
pub ghost struct TypeLayoutView {
    pub name: Seq<char>,
    pub item_info: ItemInfoView,
    pub repr_attr: ReprAttr,
    pub generics: GenericParams,
    pub data: TLDataView,
    pub phantom_fields: Seq<TLFieldView>,
    pub tag: TagView,
    pub mod_refl_mode: ModReflMode,
}

/// The texts of `names`, in order.
pub open spec fn name_views(names: Seq<String>) -> Seq<Seq<char>> {
    Seq::new(names.len(), |i: int| names[i]@)
}

/// The numbers of `counts`, as natural numbers.
pub open spec fn as_nats(counts: Seq<usize>) -> Seq<nat> {
    Seq::new(counts.len(), |i: int| counts[i] as nat)
}

/// For each flag of `flags`, whether it is `Yes`.
pub open spec fn as_bools(flags: Seq<IsConditional>) -> Seq<bool> {
    Seq::new(flags.len(), |i: int| flags[i] == IsConditional::Yes)
}

/// The views of the fields in `fields`, in order.
pub open spec fn field_views(fields: Seq<TLField>) -> Seq<TLFieldView>
    decreases fields, 1int,
{
    Seq::new(fields.len(), |i: int| field_view_at(fields, i))
}

/// The view of the field at `i` of `fields`.
pub open spec fn field_view_at(fields: Seq<TLField>, i: int) -> TLFieldView
    decreases fields, 0int,
{
    if 0 <= i < fields.len() {
        fields[i].view()
    } else {
        arbitrary()
    }
}

impl View for TLField {
    type V = TLFieldView;

    open spec fn view(&self) -> TLFieldView
        decreases self,
    {
        TLFieldView {
            name: self.name@,
            lifetime_count: self.lifetime_count as nat,
            abi_info: self.abi_info.view(),
            is_function: self.is_function,
            is_conditional: self.is_conditional == IsConditional::Yes,
            on_missing: self.on_missing,
        }
    }
}

impl View for TLEnum {
    type V = TLEnumView;

    open spec fn view(&self) -> TLEnumView
        decreases self,
    {
        TLEnumView {
            variant_names: name_views(self.variant_names@),
            exhaustiveness: self.exhaustiveness,
            fields: field_views(self.fields@),
            discriminants: self.discriminants@,
            field_count: as_nats(self.field_count@),
        }
    }
}

impl View for TLPrefixType {
    type V = TLPrefixTypeView;

    open spec fn view(&self) -> TLPrefixTypeView
        decreases self,
    {
        TLPrefixTypeView {
            first_suffix_field: self.first_suffix_field as nat,
            accessible_fields: self.accessible_fields@,
            conditional_prefix_fields: as_bools(self.conditional_prefix_fields@),
            fields: field_views(self.fields@),
        }
    }
}

impl View for TLData {
    type V = TLDataView;

    open spec fn view(&self) -> TLDataView
        decreases self,
    {
        match self {
            TLData::Primitive(p) => TLDataView::Primitive(*p),
            TLData::Opaque => TLDataView::Opaque,
            TLData::Struct { fields } => TLDataView::Struct { fields: field_views(fields@) },
            TLData::Enum(e) => TLDataView::Enum(e.view()),
            TLData::PrefixType(p) => TLDataView::PrefixType(p.view()),
        }
    }
}

impl View for TypeLayout {
    type V = TypeLayoutView;

    open spec fn view(&self) -> TypeLayoutView
        decreases self,
    {
        TypeLayoutView {
            name: self.name@,
            item_info: self.item_info@,
            repr_attr: self.repr_attr,
            generics: self.generics,
            data: self.data.view(),
            phantom_fields: field_views(self.phantom_fields@),
            tag: self.tag@,
            mod_refl_mode: self.mod_refl_mode,
        }
    }
}


impl TLDiscriminants {
    /// Whether `self` and `other` hold the same discriminants, stored in
    /// the same integer type.
    pub fn equals(&self, other: &TLDiscriminants) -> (same: bool)
        ensures
            same == (self@ == other@),
    {
        if self.repr != other.repr {
            return false;
        }
        if self.values.len() != other.values.len() {
            assert(self@.values.len() != other@.values.len());
            return false;
        }
        let mut i: usize = 0;
        while i < self.values.len()
            invariant
                i <= self.values.len(),
                self.values.len() == other.values.len(),
                forall|j: int| 0 <= j < i ==> self.values[j] == other.values[j],
            decreases self.values.len() - i,
        {
            if self.values[i] != other.values[i] {
                assert(self@.values[i as int] != other@.values[i as int]);
                return false;
            }
            i += 1;
        }
        assert(self@.values =~= other@.values);
        true
    }

    /// A copy of these discriminants.
    pub fn duplicate(&self) -> (copy: TLDiscriminants)
        ensures
            copy@ == self@,
    {
        let mut values: Vec<i128> = Vec::new();
        let mut i: usize = 0;
        while i < self.values.len()
            invariant
                i <= self.values.len(),
                values.len() == i,
                forall|j: int| 0 <= j < i ==> values[j] == self.values[j],
            decreases self.values.len() - i,
        {
            values.push(self.values[i]);
            i += 1;
        }
        assert(as_ints(values@) =~= as_ints(self.values@));
        TLDiscriminants { repr: self.repr, values }
    }
}

/// Whether two lists hold the same numbers.
pub fn counts_equal(a: &Vec<usize>, b: &Vec<usize>) -> (same: bool)
    ensures
        same == (as_nats(a@) == as_nats(b@)),
{
    if a.len() != b.len() {
        assert(as_nats(a@).len() != as_nats(b@).len());
        return false;
    }
    let mut i: usize = 0;
    while i < a.len()
        invariant
            i <= a.len(),
            a.len() == b.len(),
            forall|j: int| 0 <= j < i ==> a[j] == b[j],
        decreases a.len() - i,
    {
        if a[i] != b[i] {
            assert(as_nats(a@)[i as int] != as_nats(b@)[i as int]);
            return false;
        }
        i += 1;
    }
    assert(as_nats(a@) =~= as_nats(b@));
    true
}


/// The sum of the first `n` numbers of `counts`.
pub open spec fn sum_counts(counts: Seq<nat>, n: int) -> nat
    decreases n,
{
    if n <= 0 || n > counts.len() {
        0
    } else {
        sum_counts(counts, n - 1) + counts[n - 1]
    }
}

/// Whether the layout of the type of each field of `fields` is well formed.
pub open spec fn fields_wf(fields: Seq<TLFieldView>) -> bool
    decreases fields,
{
    forall|i: int| 0 <= i < fields.len() ==> (#[trigger] fields[i]).abi_info.wf()
}

impl TLEnumView {
    /// Whether the enum has one discriminant and one number of fields for
    /// each variant, its list of fields is as long as these numbers say, and
    /// the layouts of its fields are well formed.
    pub open spec fn wf(self) -> bool
        decreases self,
    {
        &&& self.discriminants.values.len() == self.variant_names.len()
        &&& self.field_count.len() == self.variant_names.len()
        &&& sum_counts(self.field_count, self.field_count.len() as int) == self.fields.len()
        &&& fields_wf(self.fields)
    }
}

impl TLPrefixTypeView {
    /// Whether the first suffix field is no later than the end of the
    /// fields, no more suffix positions are recorded than there are fields,
    /// and the layouts of the fields are well formed.
    pub open spec fn wf(self) -> bool
        decreases self,
    {
        &&& self.first_suffix_field <= self.fields.len()
        &&& self.accessible_fields.len() <= self.fields.len()
        &&& self.conditional_prefix_fields.len() <= self.fields.len()
        &&& fields_wf(self.fields)
    }
}

impl TLDataView {
    /// Whether the data is well formed, and all layouts below it.
    pub open spec fn wf(self) -> bool
        decreases self,
    {
        match self {
            TLDataView::Struct { fields } => fields_wf(fields),
            TLDataView::Enum(e) => e.wf(),
            TLDataView::PrefixType(p) => p.wf(),
            _ => true,
        }
    }
}

/// Whether `data` is what an optional value laid out as its content is
/// made of: an enum with one field, of a type with one invalid bit pattern.
pub open spec fn is_nonzero_option(data: TLDataView) -> bool {
    &&& data is Enum
    &&& data->Enum_0.fields.len() == 1
    &&& data->Enum_0.fields[0].abi_info.is_nonzero
}

impl TypeLayoutView {
    /// Whether the tag, the data and the phantom fields are well formed,
    /// and a layout that claims to be an optional value laid out as its
    /// content is one.
    pub open spec fn wf(self) -> bool
        decreases self,
    {
        &&& self.tag.wf()
        &&& self.data.wf()
        &&& fields_wf(self.phantom_fields)
        &&& self.repr_attr == ReprAttr::OptionNonZero ==> is_nonzero_option(self.data)
    }
}


proof fn lemma_sum_counts_grows(counts: Seq<nat>, n: int, m: int)
    requires
        0 <= n <= m <= counts.len(),
    ensures
        sum_counts(counts, n) <= sum_counts(counts, m),
    decreases m - n,
{
    if n < m {
        lemma_sum_counts_grows(counts, n, m - 1);
    }
}

/// Whether the numbers of `counts` add up to `total`.
fn counts_add_up(counts: &Vec<usize>, total: usize) -> (ok: bool)
    ensures
        ok == (sum_counts(as_nats(counts@), counts.len() as int) == total),
{
    let ghost nats = as_nats(counts@);
    let mut remaining: usize = total;
    let mut i: usize = 0;
    while i < counts.len()
        invariant
            i <= counts.len(),
            nats == as_nats(counts@),
            sum_counts(nats, i as int) + remaining == total,
        decreases counts.len() - i,
    {
        if counts[i] > remaining {
            proof {
                lemma_sum_counts_grows(nats, i as int + 1, counts.len() as int);
            }
            return false;
        }
        remaining -= counts[i];
        i += 1;
    }
    remaining == 0
}

/// Whether the layout of the type of each field of `fields` is well formed.
fn fields_valid(fields: &Vec<TLField>) -> (ok: bool)
    ensures
        ok == fields_wf(field_views(fields@)),
    decreases fields, 0int,
{
    let mut i: usize = 0;
    while i < fields.len()
        invariant
            i <= fields.len(),
            forall|j: int| 0 <= j < i ==> (#[trigger] field_views(fields@)[j]).abi_info.wf(),
        decreases fields.len() - i,
    {
        if !fields[i].abi_info.abi_info.is_valid() {
            assert(!field_views(fields@)[i as int].abi_info.wf());
            return false;
        }
        i += 1;
    }
    true
}

impl TLEnum {
    /// Whether the enum is well formed.
    pub fn is_valid(&self) -> (ok: bool)
        ensures
            ok == self@.wf(),
        decreases self, 0int,
    {
        self.discriminants.values.len() == self.variant_names.len() && self.field_count.len()
            == self.variant_names.len() && counts_add_up(&self.field_count, self.fields.len())
            && fields_valid(&self.fields)
    }
}

impl TLPrefixType {
    /// Whether the struct is well formed.
    pub fn is_valid(&self) -> (ok: bool)
        ensures
            ok == self@.wf(),
        decreases self, 0int,
    {
        self.first_suffix_field <= self.fields.len() && self.accessible_fields.len()
            <= self.fields.len() && self.conditional_prefix_fields.len() <= self.fields.len()
            && fields_valid(&self.fields)
    }
}

impl TLData {
    /// Whether the data is well formed, and all layouts below it.
    pub fn is_valid(&self) -> (ok: bool)
        ensures
            ok == self@.wf(),
        decreases self, 0int,
    {
        match self {
            TLData::Struct { fields } => fields_valid(fields),
            TLData::Enum(e) => e.is_valid(),
            TLData::PrefixType(p) => p.is_valid(),
            _ => true,
        }
    }

    /// Whether the data is a struct that may grow fields at its end.
    pub fn is_prefix_type(&self) -> (b: bool)
        ensures
            b == (self@ is PrefixType),
    {
        match self {
            TLData::PrefixType(_) => true,
            _ => false,
        }
    }
}

impl TypeLayout {
    /// Whether the layout is well formed.
    pub fn is_valid(&self) -> (ok: bool)
        ensures
            ok == self@.wf(),
        decreases self, 0int,
    {
        let option_ok = match self.repr_attr {
            ReprAttr::OptionNonZero => match &self.data {
                TLData::Enum(e) => e.fields.len() == 1 && e.fields[0].abi_info.abi_info.is_nonzero,
                _ => false,
            },
            _ => true,
        };
        self.tag.is_well_formed() && self.data.is_valid() && fields_valid(&self.phantom_fields)
            && option_ok
    }
}


impl TLDiscriminants {
    /// The discriminants `values`, stored in the integer type `repr`.
    pub fn new(repr: DiscriminantRepr, values: Vec<i128>) -> (d: Self)
        ensures
            d@ == (TLDiscriminantsView { repr, values: as_ints(values@) }),
    {
        TLDiscriminants { repr, values }
    }

    /// The discriminants `values`, stored in a `u8`.
    pub fn from_u8_slice(values: &[u8]) -> (d: Self)
        ensures
            d@.repr == DiscriminantRepr::U8,
            d@.values == Seq::new(values@.len(), |i: int| values@[i] as int),
    {
        let mut wide: Vec<i128> = Vec::new();
        let mut i: usize = 0;
        while i < values.len()
            invariant
                i <= values.len(),
                wide.len() == i,
                forall|j: int| 0 <= j < i ==> wide[j] == values@[j],
            decreases values.len() - i,
        {
            wide.push(values[i] as i128);
            i += 1;
        }
        assert(as_ints(wide@) =~= Seq::new(values@.len(), |i: int| values@[i] as int));
        TLDiscriminants { repr: DiscriminantRepr::U8, values: wide }
    }
}

impl TLField {
    /// The field `name` of a type with the layout `abi_info`, which refers
    /// to `lifetime_count` lifetimes. The field is no function pointer,
    /// reading it depends on no condition, and its accessor returns the
    /// absent marker when a value lacks it.
    pub fn new(name: &str, lifetime_count: usize, abi_info: GetAbiInfo) -> (field: Self)
        ensures
            field@ == (TLFieldView {
                name: name@,
                lifetime_count: lifetime_count as nat,
                abi_info: abi_info@,
                is_function: false,
                is_conditional: false,
                on_missing: OnMissingField::ReturnOption,
            }),
    {
        TLField {
            name: name.to_owned(),
            lifetime_count,
            abi_info,
            is_function: false,
            is_conditional: IsConditional::No,
            on_missing: OnMissingField::ReturnOption,
        }
    }

    /// This field, as a function pointer or not.
    pub fn set_is_function(self, is_function: bool) -> (field: Self)
        ensures
            field@ == (TLFieldView { is_function, ..self@ }),
    {
        TLField { is_function, ..self }
    }

    /// This field, with reading it depending on a condition or not.
    pub fn set_is_conditional(self, is_conditional: IsConditional) -> (field: Self)
        ensures
            field@ == (TLFieldView {
                is_conditional: is_conditional == IsConditional::Yes,
                ..self@
            }),
    {
        TLField { is_conditional, ..self }
    }

    /// This field, with its accessor doing `on_missing` when a value lacks
    /// the field.
    pub fn set_on_missing(self, on_missing: OnMissingField) -> (field: Self)
        ensures
            field@ == (TLFieldView { on_missing, ..self@ }),
    {
        TLField { on_missing, ..self }
    }
}

impl TLEnum {
    /// The enum with the given parts.
    pub fn new(
        variant_names: Vec<String>,
        exhaustiveness: IsExhaustive,
        fields: Vec<TLField>,
        discriminants: TLDiscriminants,
        field_count: Vec<usize>,
    ) -> (e: Self)
        ensures
            e@ == (TLEnumView {
                variant_names: name_views(variant_names@),
                exhaustiveness,
                fields: field_views(fields@),
                discriminants: discriminants@,
                field_count: as_nats(field_count@),
            }),
    {
        TLEnum { variant_names, exhaustiveness, fields, discriminants, field_count }
    }
}

impl TLData {
    /// A struct without fields.
    pub fn empty() -> (data: Self)
        ensures
            data@ == (TLDataView::Struct { fields: Seq::empty() }),
    {
        let data = TLData::Struct { fields: Vec::new() };
        assert(field_views(Seq::<TLField>::empty()) =~= Seq::<TLFieldView>::empty());
        data
    }

    /// A struct with the fields `fields`.
    pub fn struct_(fields: Vec<TLField>) -> (data: Self)
        ensures
            data@ == (TLDataView::Struct { fields: field_views(fields@) }),
    {
        TLData::Struct { fields }
    }
}

impl TypeLayout {
    /// The layout of a type declared with the parameters `params`: laid out
    /// as C does, without phantom fields, with a null tag, reflected on as
    /// a module.
    pub fn from_params(params: TypeLayoutParams) -> (layout: Self)
        ensures
            layout@ == (TypeLayoutView {
                name: params.name@,
                item_info: params.item_info@,
                repr_attr: ReprAttr::C,
                generics: params.generics,
                data: params.data@,
                phantom_fields: Seq::empty(),
                tag: TagView::Null,
                mod_refl_mode: ModReflMode::Module,
            }),
    {
        let layout = TypeLayout {
            name: params.name,
            item_info: params.item_info,
            repr_attr: ReprAttr::C,
            generics: params.generics,
            data: params.data,
            phantom_fields: Vec::new(),
            tag: Tag::Null,
            mod_refl_mode: ModReflMode::Module,
        };
        assert(field_views(layout.phantom_fields@) =~= Seq::<TLFieldView>::empty());
        layout
    }

    /// The layout of a type of the standard library without phantom fields.
    pub fn from_std(
        name: &str,
        data: TLData,
        repr_attr: ReprAttr,
        item_info: ItemInfo,
        generics: GenericParams,
    ) -> (layout: Self)
        ensures
            layout@ == (TypeLayoutView {
                name: name@,
                item_info: item_info@,
                repr_attr,
                generics,
                data: data@,
                phantom_fields: Seq::empty(),
                tag: TagView::Null,
                mod_refl_mode: ModReflMode::Module,
            }),
    {
        let phantom_fields: Vec<TLField> = Vec::new();
        assert(field_views(phantom_fields@) =~= Seq::<TLFieldView>::empty());
        TypeLayout::from_std_full(name, item_info, data, repr_attr, generics, phantom_fields)
    }

    /// The layout of a type of the standard library.
    pub fn from_std_full(
        name: &str,
        item_info: ItemInfo,
        data: TLData,
        repr_attr: ReprAttr,
        generics: GenericParams,
        phantom_fields: Vec<TLField>,
    ) -> (layout: Self)
        ensures
            layout@ == (TypeLayoutView {
                name: name@,
                item_info: item_info@,
                repr_attr,
                generics,
                data: data@,
                phantom_fields: field_views(phantom_fields@),
                tag: TagView::Null,
                mod_refl_mode: ModReflMode::Module,
            }),
    {
        TypeLayout {
            name: name.to_owned(),
            item_info,
            repr_attr,
            generics,
            data,
            phantom_fields,
            tag: Tag::Null,
            mod_refl_mode: ModReflMode::Module,
        }
    }

    /// This layout with the representation attribute `repr_attr`.
    pub fn set_repr_attr(self, repr_attr: ReprAttr) -> (layout: Self)
        ensures
            layout@ == (TypeLayoutView { repr_attr, ..self@ }),
    {
        TypeLayout { repr_attr, ..self }
    }

    /// This layout with the tag `tag`.
    pub fn set_tag(self, tag: Tag) -> (layout: Self)
        ensures
            layout@ == (TypeLayoutView { tag: tag@, ..self@ }),
    {
        TypeLayout { tag, ..self }
    }

    /// This layout with the reflection mode `mod_refl_mode`.
    pub fn set_mod_refl_mode(self, mod_refl_mode: ModReflMode) -> (layout: Self)
        ensures
            layout@ == (TypeLayoutView { mod_refl_mode, ..self@ }),
    {
        TypeLayout { mod_refl_mode, ..self }
    }
}


/// For each suffix position of a struct with the fields `fields`, whose
/// first suffix field is at `first_suffix_field`, whether reading the
/// field at that position depends on a condition.
pub open spec fn conditional_suffix(fields: Seq<TLFieldView>, first_suffix_field: int) -> Seq<
    bool,
> {
    Seq::new(
        (fields.len() - first_suffix_field) as nat,
        |i: int| fields[first_suffix_field + i].is_conditional,
    )
}

impl TLPrefixType {
    /// The struct with the fields `fields`, the first of which that a build
    /// may lack is at `first_suffix_field`. This build has all of the
    /// fields, and each suffix field is conditional as the field says.
    ///
    /// `None` when `first_suffix_field` is past the end of `fields`.
    pub fn new(first_suffix_field: usize, fields: Vec<TLField>) -> (prefix: Option<Self>)
        ensures
            prefix is Some <==> first_suffix_field <= fields.len(),
            prefix matches Some(p) ==> p@ == (TLPrefixTypeView {
                first_suffix_field: first_suffix_field as nat,
                accessible_fields: Seq::new(
                    (fields.len() - first_suffix_field) as nat,
                    |i: int| true,
                ),
                conditional_prefix_fields: conditional_suffix(
                    field_views(fields@),
                    first_suffix_field as int,
                ),
                fields: field_views(fields@),
            }),
    {
        if first_suffix_field > fields.len() {
            return None;
        }
        let suffix_len = fields.len() - first_suffix_field;
        let mut conditional: Vec<IsConditional> = Vec::new();
        let mut i: usize = 0;
        while i < suffix_len
            invariant
                i <= suffix_len,
                suffix_len == fields.len() - first_suffix_field,
                conditional.len() == i,
                forall|j: int|
                    0 <= j < i ==> conditional[j] == fields[first_suffix_field + j].is_conditional,
            decreases suffix_len - i,
        {
            conditional.push(fields[first_suffix_field + i].is_conditional);
            i += 1;
        }
        assert(as_bools(conditional@) =~= conditional_suffix(
            field_views(fields@),
            first_suffix_field as int,
        ));
        Some(
            TLPrefixType {
                first_suffix_field,
                accessible_fields: FieldAccessibility::with_field_count(suffix_len),
                conditional_prefix_fields: conditional,
                fields,
            },
        )
    }
}


/// A copy of `names`.
fn duplicate_names(names: &Vec<String>) -> (copy: Vec<String>)
    ensures
        name_views(copy@) == name_views(names@),
{
    let mut copy: Vec<String> = Vec::new();
    let mut i: usize = 0;
    while i < names.len()
        invariant
            i <= names.len(),
            copy.len() == i,
            forall|j: int| 0 <= j < i ==> copy[j]@ == names[j]@,
        decreases names.len() - i,
    {
        copy.push(names[i].clone());
        i += 1;
    }
    assert(name_views(copy@) =~= name_views(names@));
    copy
}

/// A copy of `counts`.
fn duplicate_counts(counts: &Vec<usize>) -> (copy: Vec<usize>)
    ensures
        copy@ == counts@,
{
    let mut copy: Vec<usize> = Vec::new();
    let mut i: usize = 0;
    while i < counts.len()
        invariant
            i <= counts.len(),
            copy@ == counts@.subrange(0, i as int),
        decreases counts.len() - i,
    {
        copy.push(counts[i]);
        i += 1;
        assert(copy@ =~= counts@.subrange(0, i as int));
    }
    assert(copy@ =~= counts@);
    copy
}

/// A copy of `flags`.
fn duplicate_flags(flags: &Vec<IsConditional>) -> (copy: Vec<IsConditional>)
    ensures
        copy@ == flags@,
{
    let mut copy: Vec<IsConditional> = Vec::new();
    let mut i: usize = 0;
    while i < flags.len()
        invariant
            i <= flags.len(),
            copy@ == flags@.subrange(0, i as int),
        decreases flags.len() - i,
    {
        copy.push(flags[i]);
        i += 1;
        assert(copy@ =~= flags@.subrange(0, i as int));
    }
    assert(copy@ =~= flags@);
    copy
}

/// A copy of `fields`.
fn duplicate_fields(fields: &Vec<TLField>) -> (copy: Vec<TLField>)
    ensures
        field_views(copy@) == field_views(fields@),
    decreases fields, 0int,
{
    let mut copy: Vec<TLField> = Vec::new();
    let mut i: usize = 0;
    while i < fields.len()
        invariant
            i <= fields.len(),
            copy.len() == i,
            forall|j: int| 0 <= j < i ==> copy[j]@ == fields[j]@,
        decreases fields.len() - i,
    {
        copy.push(fields[i].duplicate());
        i += 1;
    }
    assert(field_views(copy@) =~= field_views(fields@));
    copy
}

impl TLField {
    /// A copy of this field.
    pub fn duplicate(&self) -> (copy: Self)
        ensures
            copy@ == self@,
        decreases self, 0int,
    {
        TLField {
            name: self.name.clone(),
            lifetime_count: self.lifetime_count,
            abi_info: GetAbiInfo::new(self.abi_info.abi_info.duplicate()),
            is_function: self.is_function,
            is_conditional: self.is_conditional,
            on_missing: self.on_missing,
        }
    }
}

impl TLEnum {
    /// A copy of this enum.
    pub fn duplicate(&self) -> (copy: Self)
        ensures
            copy@ == self@,
        decreases self, 0int,
    {
        TLEnum {
            variant_names: duplicate_names(&self.variant_names),
            exhaustiveness: self.exhaustiveness,
            fields: duplicate_fields(&self.fields),
            discriminants: self.discriminants.duplicate(),
            field_count: duplicate_counts(&self.field_count),
        }
    }
}

impl TLPrefixType {
    /// A copy of this struct.
    pub fn duplicate(&self) -> (copy: Self)
        ensures
            copy@ == self@,
        decreases self, 0int,
    {
        TLPrefixType {
            first_suffix_field: self.first_suffix_field,
            accessible_fields: self.accessible_fields.duplicate(),
            conditional_prefix_fields: duplicate_flags(&self.conditional_prefix_fields),
            fields: duplicate_fields(&self.fields),
        }
    }
}

impl TLData {
    /// A copy of this data.
    pub fn duplicate(&self) -> (copy: Self)
        ensures
            copy@ == self@,
        decreases self, 0int,
    {
        match self {
            TLData::Primitive(p) => TLData::Primitive(*p),
            TLData::Opaque => TLData::Opaque,
            TLData::Struct { fields } => TLData::Struct { fields: duplicate_fields(fields) },
            TLData::Enum(e) => TLData::Enum(e.duplicate()),
            TLData::PrefixType(p) => TLData::PrefixType(p.duplicate()),
        }
    }
}

impl TypeLayout {
    /// A copy of this layout.
    pub fn duplicate(&self) -> (copy: Self)
        ensures
            copy@ == self@,
        decreases self, 0int,
    {
        TypeLayout {
            name: self.name.clone(),
            item_info: self.item_info.duplicate(),
            repr_attr: self.repr_attr,
            generics: self.generics,
            data: self.data.duplicate(),
            phantom_fields: duplicate_fields(&self.phantom_fields),
            tag: self.tag.duplicate(),
            mod_refl_mode: self.mod_refl_mode,
        }
    }
}


/// Whether two lists hold the same names.
fn names_equal(a: &Vec<String>, b: &Vec<String>) -> (same: bool)
    ensures
        same == (name_views(a@) == name_views(b@)),
{
    if a.len() != b.len() {
        assert(name_views(a@).len() != name_views(b@).len());
        return false;
    }
    let mut i: usize = 0;
    while i < a.len()
        invariant
            i <= a.len(),
            a.len() == b.len(),
            forall|j: int| 0 <= j < i ==> a[j]@ == b[j]@,
        decreases a.len() - i,
    {
        if a[i] != b[i] {
            assert(name_views(a@)[i as int] != name_views(b@)[i as int]);
            return false;
        }
        i += 1;
    }
    assert(name_views(a@) =~= name_views(b@));
    true
}

/// Whether two lists hold the same flags.
fn flags_equal(a: &Vec<IsConditional>, b: &Vec<IsConditional>) -> (same: bool)
    ensures
        same == (as_bools(a@) == as_bools(b@)),
{
    if a.len() != b.len() {
        assert(as_bools(a@).len() != as_bools(b@).len());
        return false;
    }
    let mut i: usize = 0;
    while i < a.len()
        invariant
            i <= a.len(),
            a.len() == b.len(),
            forall|j: int| 0 <= j < i ==> a[j] == b[j],
        decreases a.len() - i,
    {
        if a[i] != b[i] {
            assert(as_bools(a@)[i as int] != as_bools(b@)[i as int]);
            return false;
        }
        i += 1;
    }
    assert(as_bools(a@) =~= as_bools(b@));
    true
}

/// Whether two lists hold the same fields.
fn fields_equal(a: &Vec<TLField>, b: &Vec<TLField>) -> (same: bool)
    ensures
        same == (field_views(a@) == field_views(b@)),
    decreases a, 0int,
{
    if a.len() != b.len() {
        assert(field_views(a@).len() != field_views(b@).len());
        return false;
    }
    let mut i: usize = 0;
    while i < a.len()
        invariant
            i <= a.len(),
            a.len() == b.len(),
            forall|j: int| 0 <= j < i ==> a[j]@ == b[j]@,
        decreases a.len() - i,
    {
        if !a[i].equals(&b[i]) {
            assert(field_views(a@)[i as int] != field_views(b@)[i as int]);
            return false;
        }
        i += 1;
    }
    assert(field_views(a@) =~= field_views(b@));
    true
}

impl TLField {
    /// Whether `self` and `other` are the same field.
    pub fn equals(&self, other: &TLField) -> (same: bool)
        ensures
            same == (self@ == other@),
        decreases self, 0int,
    {
        self.name == other.name && self.lifetime_count == other.lifetime_count
            && self.is_function == other.is_function && self.is_conditional
            == other.is_conditional && self.on_missing == other.on_missing
            && self.abi_info.abi_info.equals(&*other.abi_info.abi_info)
    }
}

impl TLEnum {
    /// Whether `self` and `other` are the same enum.
    pub fn equals(&self, other: &TLEnum) -> (same: bool)
        ensures
            same == (self@ == other@),
        decreases self, 0int,
    {
        self.exhaustiveness == other.exhaustiveness && names_equal(
            &self.variant_names,
            &other.variant_names,
        ) && self.discriminants.equals(&other.discriminants) && counts_equal(
            &self.field_count,
            &other.field_count,
        ) && fields_equal(&self.fields, &other.fields)
    }
}

impl TLPrefixType {
    /// Whether `self` and `other` are the same struct.
    pub fn equals(&self, other: &TLPrefixType) -> (same: bool)
        ensures
            same == (self@ == other@),
        decreases self, 0int,
    {
        self.first_suffix_field == other.first_suffix_field && self.accessible_fields.equals(
            &other.accessible_fields,
        ) && flags_equal(&self.conditional_prefix_fields, &other.conditional_prefix_fields)
            && fields_equal(&self.fields, &other.fields)
    }
}

impl TLData {
    /// Whether `self` and `other` are the same data.
    pub fn equals(&self, other: &TLData) -> (same: bool)
        ensures
            same == (self@ == other@),
        decreases self, 0int,
    {
        match self {
            TLData::Primitive(p) => match other {
                TLData::Primitive(q) => *p == *q,
                _ => false,
            },
            TLData::Opaque => match other {
                TLData::Opaque => true,
                _ => false,
            },
            TLData::Struct { fields } => match other {
                TLData::Struct { fields: others } => fields_equal(fields, others),
                _ => false,
            },
            TLData::Enum(e) => match other {
                TLData::Enum(f) => e.equals(f),
                _ => false,
            },
            TLData::PrefixType(p) => match other {
                TLData::PrefixType(q) => p.equals(q),
                _ => false,
            },
        }
    }
}

impl TypeLayout {
    /// Whether `self` and `other` are the same layout.
    pub fn equals(&self, other: &TypeLayout) -> (same: bool)
        ensures
            same == (self@ == other@),
        decreases self, 0int,
    {
        self.name == other.name && self.item_info.equals(&other.item_info) && self.repr_attr
            == other.repr_attr && self.generics == other.generics && self.mod_refl_mode
            == other.mod_refl_mode && self.tag.equals(&other.tag) && self.data.equals(&other.data)
            && fields_equal(&self.phantom_fields, &other.phantom_fields)
    }
}

} // verus!
