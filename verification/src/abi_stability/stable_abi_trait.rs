//! The layout of a type together with what a binary knows of the type
//! besides its layout.

use crate::reflection::ModReflMode;
use crate::std_types::utypeid::UTypeId;
use crate::tag::TagView;
use crate::type_layout::construction::{ItemInfo, ItemInfoView, ModPathView};
use crate::type_layout::{
    GenericParams, ReprAttr, TLData, TLDataView, TypeLayout, TypeLayoutView,
};
use vstd::prelude::*;

verus! {

/// Whether the layout of a type may change between minor versions.
#[derive(Debug, Clone, Copy, PartialEq, Eq, Structural)]
pub enum TypeKind {
    /// A value whose layout must stay the same.
    Value,
    /// A struct that may grow fields at its end, and is only reached
    /// through references.
    Prefix,
}

/// What a binary knows of one of its types.
#[derive(Debug, PartialEq, Eq)]
pub struct AbiInfo {
    /// Whether the layout may grow.
    pub kind: TypeKind,
    /// Whether the type is a prefix type.
    pub prefix_kind: bool,
    /// The identity of the type in this process.
    pub type_id: UTypeId,
    /// Whether the type has one invalid bit pattern, so that an optional
    /// value of it is as large as the type itself.
    pub is_nonzero: bool,
    /// The layout of the type.
    pub layout: TypeLayout,
}

/// The mathematical value of an [`AbiInfo`].
pub ghost struct AbiInfoView {
    pub kind: TypeKind,
    pub prefix_kind: bool,
    pub type_id: UTypeId,
    pub is_nonzero: bool,
    pub layout: TypeLayoutView,
}

impl View for AbiInfo {
    type V = AbiInfoView;

    open spec fn view(&self) -> AbiInfoView
        decreases self,
    {
        AbiInfoView {
            kind: self.kind,
            prefix_kind: self.prefix_kind,
            type_id: self.type_id,
            is_nonzero: self.is_nonzero,
            layout: self.layout.view(),
        }
    }
}

impl AbiInfoView {
    /// Whether this describes a type consistently: the two marks of a
    /// prefix type agree with each other and with the data, and the layout
    /// is well formed.
    pub open spec fn wf(self) -> bool
        decreases self,
    {
        &&& self.prefix_kind == (self.kind == TypeKind::Prefix)
        &&& self.prefix_kind == (self.layout.data is PrefixType)
        &&& self.layout.wf()
    }
}

impl AbiInfo {
    /// The identity of the type in this process.
    pub fn get_utypeid(&self) -> (id: UTypeId)
        ensures
            id == self.type_id,
    {
        self.type_id
    }

    /// Whether `self` and `other` say the same of a type.
    pub fn equals(&self, other: &AbiInfo) -> (same: bool)
        ensures
            same == (self@ == other@),
        decreases self, 0int,
    {
        self.kind == other.kind && self.prefix_kind == other.prefix_kind && self.type_id
            == other.type_id && self.is_nonzero == other.is_nonzero && self.layout.equals(
            &other.layout,
        )
    }

    /// A copy of this value.
    pub fn duplicate(&self) -> (copy: Self)
        ensures
            copy@ == self@,
        decreases self, 0int,
    {
        AbiInfo {
            kind: self.kind,
            prefix_kind: self.prefix_kind,
            type_id: self.type_id,
            is_nonzero: self.is_nonzero,
            layout: self.layout.duplicate(),
        }
    }

    /// Whether this describes a type consistently.
    pub fn is_valid(&self) -> (ok: bool)
        ensures
            ok == self@.wf(),
        decreases self, 0int,
    {
        let is_prefix = match self.kind {
            TypeKind::Prefix => true,
            TypeKind::Value => false,
        };
        self.prefix_kind == is_prefix && self.prefix_kind == self.layout.data.is_prefix_type()
            && self.layout.is_valid()
    }
}

/// A well-formed [`AbiInfo`].
#[derive(Debug, PartialEq, Eq)]
pub struct AbiInfoWrapper {
    inner: AbiInfo,
}

impl View for AbiInfoWrapper {
    type V = AbiInfoView;

    closed spec fn view(&self) -> AbiInfoView {
        self.inner@
    }
}

impl AbiInfoWrapper {
    #[verifier::type_invariant]
    spec fn well_formed(self) -> bool {
        self.inner@.wf()
    }

    /// Wraps `inner` if it is well formed.
    pub fn new(inner: AbiInfo) -> (wrapper: Option<Self>)
        ensures
            wrapper is Some <==> inner@.wf(),
            wrapper matches Some(w) ==> w@ == inner@,
    {
        if inner.is_valid() {
            Some(AbiInfoWrapper { inner })
        } else {
            None
        }
    }

    /// A copy of this value.
    pub fn duplicate(&self) -> (copy: Self)
        ensures
            copy@ == self@,
    {
        proof {
            use_type_invariant(self);
        }
        AbiInfoWrapper { inner: self.inner.duplicate() }
    }

    /// The wrapped value.
    pub fn get(&self) -> (inner: &AbiInfo)
        ensures
            inner@ == self@,
            inner@.wf(),
    {
        proof {
            use_type_invariant(self);
        }
        &self.inner
    }
}

/// The layout of the type of a field, held by the field.
#[derive(Debug, PartialEq, Eq)]
pub struct GetAbiInfo {
    pub abi_info: Box<AbiInfo>,
}

impl View for GetAbiInfo {
    type V = AbiInfoView;

    open spec fn view(&self) -> AbiInfoView
        decreases self,
    {
        (*self.abi_info).view()
    }
}


impl GetAbiInfo {
    /// Holds `info` as the layout of the type of a field.
    pub fn new(info: AbiInfo) -> (held: Self)
        ensures
            held@ == info@,
    {
        GetAbiInfo { abi_info: Box::new(info) }
    }

    /// A copy of what is held.
    pub fn duplicate(&self) -> (copy: Self)
        ensures
            copy@ == self@,
    {
        GetAbiInfo::new(self.abi_info.duplicate())
    }

    /// The layout that is held.
    pub fn get(&self) -> (info: &AbiInfo)
        ensures
            info@ == self@,
    {
        &*self.abi_info
    }
}


/// A marker type that stands for one [`TypeKind`].
pub trait TypeKindTrait {
    /// The kind that the marker stands for.
    spec fn spec_value() -> TypeKind;

    /// The kind that the marker stands for.
    fn value() -> (kind: TypeKind)
        ensures
            kind == Self::spec_value(),
    ;

    /// Whether the marker stands for prefix types.
    fn is_prefix() -> (b: bool)
        ensures
            b == (Self::spec_value() == TypeKind::Prefix),
    ;
}

/// The marker of types whose layout must stay the same.
#[derive(Debug, Clone, Copy, PartialEq, Eq, Structural)]
pub struct ValueKind {}

/// The marker of prefix types.
#[derive(Debug, Clone, Copy, PartialEq, Eq, Structural)]
pub struct PrefixKind {}

impl TypeKindTrait for ValueKind {
    open spec fn spec_value() -> TypeKind {
        TypeKind::Value
    }

    fn value() -> (kind: TypeKind) {
        TypeKind::Value
    }

    fn is_prefix() -> (b: bool) {
        false
    }
}

impl TypeKindTrait for PrefixKind {
    open spec fn spec_value() -> TypeKind {
        TypeKind::Prefix
    }

    fn value() -> (kind: TypeKind) {
        TypeKind::Prefix
    }

    fn is_prefix() -> (b: bool) {
        true
    }
}

/// A type that describes its own layout, of any kind.
pub trait SharedStableAbi {
    /// Whether the layout of the type may grow.
    type Kind: TypeKindTrait;

    /// Whether the type has one invalid bit pattern.
    spec fn spec_is_nonzero() -> bool;

    /// The identity of the type.
    spec fn spec_type_id() -> UTypeId;

    /// The layout of the type.
    spec fn spec_layout() -> TypeLayoutView;

    /// Whether the type has one invalid bit pattern.
    fn is_nonzero() -> (b: bool)
        ensures
            b == Self::spec_is_nonzero(),
    ;

    /// The identity of the type.
    fn type_id() -> (id: UTypeId)
        ensures
            id == Self::spec_type_id(),
    ;

    /// The layout of the type. Every call returns the same layout.
    fn s_layout() -> (layout: TypeLayout)
        ensures
            layout@ == Self::spec_layout(),
    ;

    /// What the type knows of itself. Every call returns the same value.
    fn s_abi_info() -> (info: AbiInfo)
        ensures
            info@ == (AbiInfoView {
                kind: Self::Kind::spec_value(),
                prefix_kind: Self::Kind::spec_value() == TypeKind::Prefix,
                type_id: Self::spec_type_id(),
                is_nonzero: Self::spec_is_nonzero(),
                layout: Self::spec_layout(),
            }),
    {
        AbiInfo {
            kind: Self::Kind::value(),
            prefix_kind: Self::Kind::is_prefix(),
            type_id: Self::type_id(),
            is_nonzero: Self::is_nonzero(),
            layout: Self::s_layout(),
        }
    }
}

/// What the type `T` knows of itself.
pub open spec fn abi_info_of<T: SharedStableAbi + ?Sized>() -> AbiInfoView {
    AbiInfoView {
        kind: T::Kind::spec_value(),
        prefix_kind: T::Kind::spec_value() == TypeKind::Prefix,
        type_id: T::spec_type_id(),
        is_nonzero: T::spec_is_nonzero(),
        layout: T::spec_layout(),
    }
}

/// A type that describes its own layout, which must stay the same.
pub trait StableAbi: SharedStableAbi<Kind = ValueKind> {
    /// The layout of the type.
    fn layout() -> (layout: TypeLayout)
        ensures
            layout@ == Self::spec_layout(),
    {
        Self::s_layout()
    }

    /// What the type knows of itself.
    fn abi_info() -> (info: AbiInfo)
        ensures
            info@ == abi_info_of::<Self>(),
    {
        Self::s_abi_info()
    }
}

impl<This: SharedStableAbi<Kind = ValueKind>> StableAbi for This {

}

/// A type whose layout must stay the same says so of itself.
pub proof fn lemma_stable_abi_is_value<T: StableAbi>()
    ensures
        abi_info_of::<T>().kind == TypeKind::Value,
        !abi_info_of::<T>().prefix_kind,
{
}

/// What the type `T`, whose layout must stay the same, knows of itself.
pub fn get_abi_info<T: StableAbi>() -> (info: AbiInfo)
    ensures
        info@ == abi_info_of::<T>(),
{
    T::abi_info()
}

/// What the type `T` knows of itself.
pub fn get_ssa_abi_info<T: SharedStableAbi>() -> (info: AbiInfo)
    ensures
        info@ == abi_info_of::<T>(),
{
    T::s_abi_info()
}

/// Selects the layout of a type whose layout must stay the same.
#[allow(non_camel_case_types)]
#[derive(Debug, Clone, Copy, PartialEq, Eq, Structural)]
pub struct StableAbi_Bound {}

/// Selects the layout of a type of any kind.
#[allow(non_camel_case_types)]
#[derive(Debug, Clone, Copy, PartialEq, Eq, Structural)]
pub struct SharedStableAbi_Bound {}

/// Selects the opaque layout, which any type can have.
#[allow(non_camel_case_types)]
#[derive(Debug, Clone, Copy, PartialEq, Eq, Structural)]
pub struct UnsafeOpaqueField_Bound {}

/// Makes the layout that a field of this type holds. `B` selects which
/// layout that is.
pub trait MakeGetAbiInfo<B> {
    /// The layout that the field holds.
    spec fn spec_make() -> AbiInfoView;

    /// The layout that the field holds.
    fn make() -> (held: GetAbiInfo)
        ensures
            held@ == Self::spec_make(),
    ;
}

impl<T: StableAbi> MakeGetAbiInfo<StableAbi_Bound> for T {
    open spec fn spec_make() -> AbiInfoView {
        abi_info_of::<T>()
    }

    fn make() -> (held: GetAbiInfo) {
        GetAbiInfo::new(get_abi_info::<T>())
    }
}

impl<T: SharedStableAbi> MakeGetAbiInfo<SharedStableAbi_Bound> for T {
    open spec fn spec_make() -> AbiInfoView {
        abi_info_of::<T>()
    }

    fn make() -> (held: GetAbiInfo) {
        GetAbiInfo::new(get_ssa_abi_info::<T>())
    }
}

impl<T> MakeGetAbiInfo<UnsafeOpaqueField_Bound> for T {
    open spec fn spec_make() -> AbiInfoView {
        abi_info_of::<UnsafeOpaqueField<T>>()
    }

    fn make() -> (held: GetAbiInfo) {
        GetAbiInfo::new(get_abi_info::<UnsafeOpaqueField<T>>())
    }
}

/// Makes the layout that a field of the type `T` holds, `T` being a type
/// whose layout must stay the same.
pub struct MakeGetAbiInfoSA<T>(pub T);

impl<T: StableAbi> MakeGetAbiInfoSA<T> {
    /// The layout that the field holds.
    pub fn stable_abi() -> (held: GetAbiInfo)
        ensures
            held@ == abi_info_of::<T>(),
    {
        GetAbiInfo::new(get_abi_info::<T>())
    }
}

/// Makes the opaque layout that a field of any type `T` can hold.
pub struct MakeGetAbiInfoUF<T>(pub T);

impl<T> MakeGetAbiInfoUF<T> {
    /// The opaque layout.
    pub fn opaque_field() -> (held: GetAbiInfo)
        ensures
            held@ == abi_info_of::<UnsafeOpaqueField<T>>(),
    {
        GetAbiInfo::new(get_abi_info::<UnsafeOpaqueField<T>>())
    }
}

/// A value of any type, described as opaque: its layout is left unchecked.
///
/// Whoever uses this must make sure by other means that the layout of `T`
/// is the same in both binaries.
pub struct UnsafeOpaqueField<T>(pub T);

/// The identity under which every opaque field is recorded.
pub open spec fn opaque_field_type_id() -> UTypeId {
    UTypeId { token: 0 }
}

/// The layout of an opaque field.
pub open spec fn opaque_field_layout() -> TypeLayoutView {
    TypeLayoutView {
        name: "OpaqueField"@,
        item_info: ItemInfoView {
            package_and_version: "abi_stable;0.0.0"@,
            line: 0,
            mod_path: ModPathView::With("abi_stable::abi_stability::stable_abi_trait"@),
        },
        repr_attr: ReprAttr::C,
        generics: GenericParams { lifetime_count: 0, type_count: 0, const_count: 0 },
        data: TLDataView::Opaque,
        phantom_fields: Seq::empty(),
        tag: TagView::Null,
        mod_refl_mode: ModReflMode::Module,
    }
}

impl<T> SharedStableAbi for UnsafeOpaqueField<T> {
    type Kind = ValueKind;

    open spec fn spec_is_nonzero() -> bool {
        false
    }

    open spec fn spec_type_id() -> UTypeId {
        opaque_field_type_id()
    }

    open spec fn spec_layout() -> TypeLayoutView {
        opaque_field_layout()
    }

    fn is_nonzero() -> (b: bool) {
        false
    }

    fn type_id() -> (id: UTypeId) {
        UTypeId::new(0)
    }

    fn s_layout() -> (layout: TypeLayout) {
        TypeLayout::from_std(
            "OpaqueField",
            TLData::Opaque,
            ReprAttr::C,
            ItemInfo::package_and_mod(
                "abi_stable;0.0.0",
                "abi_stable::abi_stability::stable_abi_trait",
            ),
            GenericParams::new(0, 0, 0),
        )
    }
}

} // verus!
