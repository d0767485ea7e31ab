//! Structs that may grow fields at their end.
//!
//! A prefix type is only reached through references. Its first fields, the
//! prefix, exist in every build; the fields after them, the suffix, may be
//! absent from the build that made a value. Before a suffix field is read,
//! its accessibility is looked up in the metadata stored beside the value.

use crate::type_layout::TLField;
use crate::utils::{decimal, to_decimal};
use core::marker::PhantomData;
use vstd::prelude::*;
use vstd::string::*;

verus! {

/// Whether reading a field depends on a condition declared with the field.
#[derive(Debug, Clone, Copy, PartialEq, Eq, Structural)]
pub enum IsConditional {
    No,
    Yes,
}

impl IsConditional {
    /// `Yes` when `is_conditional` holds, `No` otherwise.
    pub fn new(is_conditional: bool) -> (c: Self)
        ensures
            c == (if is_conditional {
                IsConditional::Yes
            } else {
                IsConditional::No
            }),
    {
        if is_conditional {
            IsConditional::Yes
        } else {
            IsConditional::No
        }
    }

    /// Whether this is `Yes`.
    pub fn is_conditional(self) -> (b: bool)
        ensures
            b == (self == IsConditional::Yes),
    {
        match self {
            IsConditional::Yes => true,
            IsConditional::No => false,
        }
    }
}

/// Whether a field exists in the build that made a value.
#[derive(Debug, Clone, Copy, PartialEq, Eq, Structural)]
pub enum IsAccessible {
    No,
    Yes,
}

impl IsAccessible {
    /// `Yes` when `is_accessible` holds, `No` otherwise.
    pub fn new(is_accessible: bool) -> (a: Self)
        ensures
            a == (if is_accessible {
                IsAccessible::Yes
            } else {
                IsAccessible::No
            }),
    {
        if is_accessible {
            IsAccessible::Yes
        } else {
            IsAccessible::No
        }
    }

    /// Whether this is `Yes`.
    pub fn is_accessible(self) -> (b: bool)
        ensures
            b == (self == IsAccessible::Yes),
    {
        match self {
            IsAccessible::Yes => true,
            IsAccessible::No => false,
        }
    }
}

/// Whether the flag at `position` of `flags` is there and set.
pub open spec fn flag_at(flags: Seq<bool>, position: int) -> bool {
    0 <= position < flags.len() && flags[position]
}

/// For each suffix position, whether the field at that position exists in
/// this build. Positions past the end do not exist.
#[derive(Debug, PartialEq, Eq)]
pub struct FieldAccessibility {
    flags: Vec<bool>,
}

impl View for FieldAccessibility {
    type V = Seq<bool>;

    closed spec fn view(&self) -> Seq<bool> {
        self.flags@
    }
}

impl FieldAccessibility {
    /// No position exists.
    pub fn empty() -> (acc: Self)
        ensures
            acc@ == Seq::<bool>::empty(),
    {
        FieldAccessibility { flags: Vec::new() }
    }

    /// The first `count` positions exist.
    pub fn with_field_count(count: usize) -> (acc: Self)
        ensures
            acc@ == Seq::new(count as nat, |i: int| true),
    {
        let mut flags: Vec<bool> = Vec::new();
        let mut i: usize = 0;
        while i < count
            invariant
                i <= count,
                flags@ == Seq::new(i as nat, |j: int| true),
            decreases count - i,
        {
            flags.push(true);
            i += 1;
            assert(flags@ =~= Seq::new(i as nat, |j: int| true));
        }
        FieldAccessibility { flags }
    }

    /// The flags of `flags`, in order.
    pub fn from_flags(flags: Vec<bool>) -> (acc: Self)
        ensures
            acc@ == flags@,
    {
        FieldAccessibility { flags }
    }

    /// The number of positions that are recorded.
    pub fn len(&self) -> (n: usize)
        ensures
            n == self@.len(),
    {
        self.flags.len()
    }

    /// Whether the field at `position` exists.
    pub fn is_accessible(&self, position: usize) -> (b: bool)
        ensures
            b == flag_at(self@, position as int),
    {
        position < self.flags.len() && self.flags[position]
    }

    /// Records whether the field at `position` exists. Positions between the
    /// old end and `position` are recorded as absent.
    pub fn set_accessibility(self, position: usize, value: IsAccessible) -> (acc: Self)
        ensures
            acc@.len() == (if position < self@.len() {
                self@.len() as int
            } else {
                position + 1
            }),
            forall|i: int|
                0 <= i < acc@.len() ==> acc@[i] == (if i == position {
                    value == IsAccessible::Yes
                } else {
                    flag_at(self@, i)
                }),
    {
        let mut flags = self.flags;
        let ghost before = flags@;
        while flags.len() <= position
            invariant
                before.len() <= flags.len(),
                flags.len() > before.len() ==> flags.len() <= position + 1,
                forall|i: int| 0 <= i < flags.len() ==> flags[i] == flag_at(before, i),
            decreases position + 1 - flags.len(),
        {
            flags.push(false);
        }
        flags.set(position, value.is_accessible());
        FieldAccessibility { flags }
    }

    /// Whether `self` and `other` record the same positions in the same
    /// way.
    pub fn equals(&self, other: &FieldAccessibility) -> (same: bool)
        ensures
            same == (self@ == other@),
    {
        if self.flags.len() != other.flags.len() {
            return false;
        }
        let mut i: usize = 0;
        while i < self.flags.len()
            invariant
                i <= self.flags.len(),
                self.flags.len() == other.flags.len(),
                forall|j: int| 0 <= j < i ==> self.flags[j] == other.flags[j],
            decreases self.flags.len() - i,
        {
            if self.flags[i] != other.flags[i] {
                return false;
            }
            i += 1;
        }
        assert(self.flags@ =~= other.flags@);
        true
    }

    /// A copy of these flags.
    pub fn duplicate(&self) -> (copy: Self)
        ensures
            copy@ == self@,
    {
        let mut flags: Vec<bool> = Vec::new();
        let mut i: usize = 0;
        while i < self.flags.len()
            invariant
                i <= self.flags.len(),
                flags@ == self.flags@.subrange(0, i as int),
            decreases self.flags.len() - i,
        {
            flags.push(self.flags[i]);
            i += 1;
            assert(flags@ =~= self.flags@.subrange(0, i as int));
        }
        assert(flags@ =~= self.flags@);
        FieldAccessibility { flags }
    }

    /// Keeps the first `length` positions, and forgets the others.
    pub fn truncated(self, length: usize) -> (acc: Self)
        ensures
            acc@ == (if length <= self@.len() {
                self@.subrange(0, length as int)
            } else {
                self@
            }),
    {
        let mut flags = self.flags;
        flags.truncate(length);
        FieldAccessibility { flags }
    }
}


/// What an accessor does when the field it is asked for cannot be read.
#[derive(Debug, Clone, Copy, PartialEq, Eq, Structural)]
pub enum OnMissingField {
    /// Fail loudly.
    Panic,
    /// Return a marker that says that the field is absent.
    ReturnOption,
    /// Return a value that the caller supplied.
    UseDefault,
    /// Return what a computation that the caller supplied returns.
    Compute,
}

/// What an accessor must do for one field of one value.
#[derive(Debug, Clone, Copy, PartialEq, Eq, Structural)]
pub enum FieldAccess {
    /// The field exists and may be read.
    Read,
    /// The field must not be read: fail loudly.
    Fail,
    /// The field must not be read: return the absent marker.
    Absent,
    /// The field must not be read: return the supplied value.
    Default,
    /// The field must not be read: run the supplied computation.
    Computed,
}

/// Whether the field at `index` exists in a value whose first suffix field
/// is at `first_suffix_field` and whose suffix positions are `accessible`.
/// Prefix fields always exist.
pub open spec fn field_exists(first_suffix_field: int, accessible: Seq<bool>, index: int) -> bool {
    0 <= index && (index < first_suffix_field || flag_at(accessible, index - first_suffix_field))
}

/// What the policy `policy` asks for when a field cannot be read.
pub open spec fn fallback(policy: OnMissingField) -> FieldAccess {
    match policy {
        OnMissingField::Panic => FieldAccess::Fail,
        OnMissingField::ReturnOption => FieldAccess::Absent,
        OnMissingField::UseDefault => FieldAccess::Default,
        OnMissingField::Compute => FieldAccess::Computed,
    }
}

/// What an accessor must do for the field at `index`: read it when it
/// exists and its condition, if it has one, holds; follow `policy`
/// otherwise.
pub open spec fn access_decision(
    first_suffix_field: int,
    accessible: Seq<bool>,
    index: int,
    condition: Option<bool>,
    policy: OnMissingField,
) -> FieldAccess {
    if field_exists(first_suffix_field, accessible, index) && condition != Some(false) {
        FieldAccess::Read
    } else {
        fallback(policy)
    }
}

/// The description of a prefix type that is shown in diagnostics.
#[derive(Debug, PartialEq, Eq)]
pub struct PTStructLayout {
    pub name: String,
    pub generics: String,
    pub package: String,
    pub package_version: String,
    pub file: String,
    pub line: u32,
    pub size: usize,
    pub alignment: usize,
    pub field_names: Vec<String>,
}

/// The mathematical value of a [`PTStructLayout`].
pub ghost struct PTStructLayoutView {
    pub name: Seq<char>,
    pub generics: Seq<char>,
    pub package: Seq<char>,
    pub package_version: Seq<char>,
    pub file: Seq<char>,
    pub line: u32,
    pub size: usize,
    pub alignment: usize,
    pub field_names: Seq<Seq<char>>,
}

impl View for PTStructLayout {
    type V = PTStructLayoutView;

    open spec fn view(&self) -> PTStructLayoutView {
        PTStructLayoutView {
            name: self.name@,
            generics: self.generics@,
            package: self.package@,
            package_version: self.package_version@,
            file: self.file@,
            line: self.line,
            size: self.size,
            alignment: self.alignment,
            field_names: Seq::new(self.field_names@.len(), |i: int| self.field_names@[i]@),
        }
    }
}

impl PTStructLayout {
    /// The name of the field at `index`, if there is such a field.
    pub fn get_field_name(&self, index: usize) -> (name: Option<&String>)
        ensures
            name is Some <==> index < self@.field_names.len(),
            name matches Some(n) ==> n@ == self@.field_names[index as int],
    {
        if index < self.field_names.len() {
            Some(&self.field_names[index])
        } else {
            None
        }
    }

    /// A copy of this description.
    pub fn duplicate(&self) -> (copy: Self)
        ensures
            copy@ == self@,
    {
        let mut field_names: Vec<String> = Vec::new();
        let mut i: usize = 0;
        while i < self.field_names.len()
            invariant
                i <= self.field_names.len(),
                field_names.len() == i,
                forall|j: int| 0 <= j < i ==> field_names[j]@ == self.field_names[j]@,
            decreases self.field_names.len() - i,
        {
            field_names.push(self.field_names[i].clone());
            i += 1;
        }
        let copy = PTStructLayout {
            name: self.name.clone(),
            generics: self.generics.clone(),
            package: self.package.clone(),
            package_version: self.package_version.clone(),
            file: self.file.clone(),
            line: self.line,
            size: self.size,
            alignment: self.alignment,
            field_names,
        };
        assert(copy@.field_names =~= self@.field_names);
        copy
    }
}

/// The metadata of the prefix type `T`, whose prefix is `P`: what is stored
/// beside each value of `T`.
pub struct WithMetadataFor<T, P> {
    inner: WithMetadata_<(), ()>,
    _marker: PhantomData<(T, P)>,
}

/// A value of a prefix type, with the metadata that says which of its
/// fields exist.
pub struct WithMetadata_<T, P> {
    /// The index of the first field that a build may lack.
    pub _prefix_type_first_suffix_field: usize,
    /// For each suffix position, whether the field exists in this value.
    pub _prefix_type_field_acc: FieldAccessibility,
    /// The description of the type for diagnostics.
    pub _prefix_type_layout: PTStructLayout,
    /// The value itself.
    pub original: T,
    pub _marker: PhantomData<P>,
}

impl<T, P> WithMetadataFor<T, P> {
    /// The metadata with the given parts.
    pub fn new(
        first_suffix_field: usize,
        field_accessibility: FieldAccessibility,
        layout: PTStructLayout,
    ) -> (metadata: Self)
        ensures
            metadata.first_suffix_field() == first_suffix_field,
            metadata.field_accessibility() == field_accessibility@,
            metadata.layout() == layout@,
    {
        WithMetadataFor {
            inner: WithMetadata_ {
                _prefix_type_first_suffix_field: first_suffix_field,
                _prefix_type_field_acc: field_accessibility,
                _prefix_type_layout: layout,
                original: (),
                _marker: PhantomData,
            },
            _marker: PhantomData,
        }
    }

    /// The index of the first field that a build may lack.
    pub closed spec fn first_suffix_field(self) -> usize {
        self.inner._prefix_type_first_suffix_field
    }

    /// For each suffix position, whether the field exists.
    pub closed spec fn field_accessibility(self) -> Seq<bool> {
        self.inner._prefix_type_field_acc@
    }

    /// The description of the type for diagnostics.
    pub closed spec fn layout(self) -> PTStructLayoutView {
        self.inner._prefix_type_layout@
    }
}

impl<T, P> WithMetadata_<T, P> {
    /// The value `value` with the metadata `metadata` beside it.
    pub fn new(metadata: WithMetadataFor<T, P>, value: T) -> (with: Self)
        ensures
            with._prefix_type_first_suffix_field == metadata.first_suffix_field(),
            with._prefix_type_field_acc@ == metadata.field_accessibility(),
            with._prefix_type_layout@ == metadata.layout(),
            with.original == value,
    {
        WithMetadata_ {
            _prefix_type_first_suffix_field: metadata.inner._prefix_type_first_suffix_field,
            _prefix_type_field_acc: metadata.inner._prefix_type_field_acc,
            _prefix_type_layout: metadata.inner._prefix_type_layout,
            original: value,
            _marker: PhantomData,
        }
    }

    /// Whether the field at `index` exists in this value.
    pub fn is_accessible(&self, index: usize) -> (b: bool)
        ensures
            b == field_exists(
                self._prefix_type_first_suffix_field as int,
                self._prefix_type_field_acc@,
                index as int,
            ),
    {
        if index < self._prefix_type_first_suffix_field {
            true
        } else {
            self._prefix_type_field_acc.is_accessible(index - self._prefix_type_first_suffix_field)
        }
    }

    /// What the accessor of the field at `index` must do. `condition` is
    /// what the condition of the field evaluated to, if it has one.
    pub fn access(
        &self,
        index: usize,
        condition: Option<bool>,
        policy: OnMissingField,
    ) -> (decision: FieldAccess)
        ensures
            decision == access_decision(
                self._prefix_type_first_suffix_field as int,
                self._prefix_type_field_acc@,
                index as int,
                condition,
                policy,
            ),
    {
        let holds = match condition {
            Some(b) => b,
            None => true,
        };
        if self.is_accessible(index) && holds {
            FieldAccess::Read
        } else {
            match policy {
                OnMissingField::Panic => FieldAccess::Fail,
                OnMissingField::ReturnOption => FieldAccess::Absent,
                OnMissingField::UseDefault => FieldAccess::Default,
                OnMissingField::Compute => FieldAccess::Computed,
            }
        }
    }

    /// What the accessor of `field`, which is the field at `index`, must
    /// do: as [`WithMetadata_::access`] with the policy that the field
    /// declares.
    pub fn access_field(
        &self,
        index: usize,
        field: &TLField,
        condition: Option<bool>,
    ) -> (decision: FieldAccess)
        ensures
            decision == access_decision(
                self._prefix_type_first_suffix_field as int,
                self._prefix_type_field_acc@,
                index as int,
                condition,
                field@.on_missing,
            ),
    {
        self.access(index, condition, field.on_missing)
    }

    /// The value itself, without its metadata.
    pub fn into_full(self) -> (value: T)
        ensures
            value == self.original,
    {
        self.original
    }
}

/// The text with which an accessor fails when it is asked for a field that
/// the value does not have.
pub open spec fn missing_field_text(
    field_index: nat,
    field_name: Seq<char>,
    expected: PTStructLayoutView,
    actual: PTStructLayoutView,
) -> Seq<char> {
    "\n\nAttempting to access nonexistent field:\n    index:"@ + decimal(field_index)
        + " \n    named:"@ + field_name + "\n\nInside of:"@ + expected.name + expected.generics
        + "\n\nPackage:'"@ + expected.package + "' \n\nExpected:\n    Version:"@
        + expected.package_version + " (or compatible version number)\n    Field count:"@
        + decimal(expected.field_names.len()) + "\n\nFound:\n    Version:"@
        + actual.package_version + "\n    Field count:"@ + decimal(actual.field_names.len())
        + "\n\n\n"@
}

/// The name under which [`panic_on_missing_field_ty`] reports a field
/// without a known name.
pub open spec fn unavailable_name() -> Seq<char> {
    "<unavailable>"@
}

/// The name under which [`panic_on_missing_fieldname`] reports a field
/// without a known name. Its messages spell the word in this way, and the
/// spelling is kept letter for letter for those who search logs for it.
pub open spec fn unavaiable_name() -> Seq<char> {
    "<unavaiable>"@
}

/// The name of the field at `index` of `layout`, or `fallback` when
/// `layout` names no field at `index`.
pub open spec fn field_name_or(
    layout: PTStructLayoutView,
    index: int,
    fallback: Seq<char>,
) -> Seq<char> {
    if 0 <= index < layout.field_names.len() {
        layout.field_names[index]
    } else {
        fallback
    }
}

/// Builds the message with which an accessor fails when the field
/// `field_name`, at `field_index`, is expected by `expected` and missing
/// from a value described by `actual`.
pub fn panic_on_missing_field_val(
    field_index: usize,
    field_name: &str,
    expected: &PTStructLayout,
    actual: &PTStructLayout,
) -> (message: String)
    ensures
        message@ == missing_field_text(field_index as nat, field_name@, expected@, actual@),
{
    let mut message = String::from_str("\n\nAttempting to access nonexistent field:\n    index:");
    message.append(to_decimal(field_index).as_str());
    message.append(" \n    named:");
    message.append(field_name);
    message.append("\n\nInside of:");
    message.append(expected.name.as_str());
    message.append(expected.generics.as_str());
    message.append("\n\nPackage:'");
    message.append(expected.package.as_str());
    message.append("' \n\nExpected:\n    Version:");
    message.append(expected.package_version.as_str());
    message.append(" (or compatible version number)\n    Field count:");
    message.append(to_decimal(expected.field_names.len()).as_str());
    message.append("\n\nFound:\n    Version:");
    message.append(actual.package_version.as_str());
    message.append("\n    Field count:");
    message.append(to_decimal(actual.field_names.len()).as_str());
    message.append("\n\n\n");
    message
}

/// A type that may grow fields at its end.
pub trait PrefixTypeTrait: Sized {
    /// The type through which values of `Self` are read: its prefix.
    type Prefix;

    /// The description of `Self` for diagnostics.
    spec fn spec_pt_layout() -> PTStructLayoutView;

    /// The index of the first field of `Self` that a build may lack.
    spec fn spec_first_suffix_field() -> usize;

    /// For each suffix position, whether this build has the field.
    spec fn spec_field_accessibility() -> Seq<bool>;

    /// For each suffix position, whether reading the field depends on a
    /// condition.
    spec fn spec_cond_prefix_fields() -> Seq<IsConditional>;

    /// The description of `Self` for diagnostics.
    fn pt_layout() -> (layout: PTStructLayout)
        ensures
            layout@ == Self::spec_pt_layout(),
    ;

    /// The index of the first field of `Self` that a build may lack.
    fn pt_first_suffix_field() -> (index: usize)
        ensures
            index == Self::spec_first_suffix_field(),
    ;

    /// For each suffix position, whether this build has the field.
    fn pt_field_accessibility() -> (acc: FieldAccessibility)
        ensures
            acc@ == Self::spec_field_accessibility(),
    ;

    /// For each suffix position, whether reading the field depends on a
    /// condition.
    fn pt_cond_prefix_fields() -> (flags: Vec<IsConditional>)
        ensures
            flags@ == Self::spec_cond_prefix_fields(),
    ;

    /// The metadata that is stored beside each value of `Self`.
    fn metadata() -> (metadata: WithMetadataFor<Self, Self::Prefix>)
        ensures
            metadata.first_suffix_field() == Self::spec_first_suffix_field(),
            metadata.field_accessibility() == Self::spec_field_accessibility(),
            metadata.layout() == Self::spec_pt_layout(),
    {
        WithMetadataFor::new(
            Self::pt_first_suffix_field(),
            Self::pt_field_accessibility(),
            Self::pt_layout(),
        )
    }

    /// This value with its metadata beside it.
    fn into_with_metadata(self) -> (with: WithMetadata_<Self, Self::Prefix>)
        ensures
            with._prefix_type_first_suffix_field == Self::spec_first_suffix_field(),
            with._prefix_type_field_acc@ == Self::spec_field_accessibility(),
            with._prefix_type_layout@ == Self::spec_pt_layout(),
            with.original == self,
    {
        WithMetadata_::new(Self::metadata(), self)
    }
}

/// Builds the message with which an accessor of `T` fails when the field at
/// `field_index` is missing from a value described by `actual_layout`. A
/// field that `T` does not name is reported as `<unavailable>`.
pub fn panic_on_missing_field_ty<T: PrefixTypeTrait>(
    field_index: usize,
    actual_layout: &PTStructLayout,
) -> (message: String)
    ensures
        message@ == missing_field_text(
            field_index as nat,
            field_name_or(T::spec_pt_layout(), field_index as int, unavailable_name()),
            T::spec_pt_layout(),
            actual_layout@,
        ),
{
    let expected = T::pt_layout();
    match expected.get_field_name(field_index) {
        Some(name) => panic_on_missing_field_val(
            field_index,
            name.as_str(),
            &expected,
            actual_layout,
        ),
        None => panic_on_missing_field_val(field_index, "<unavailable>", &expected, actual_layout),
    }
}

/// Builds the message with which an accessor of `T` fails when the field at
/// `field_index` is missing from a value described by `actual_layout`. A
/// field that `T` does not name is reported as `<unavaiable>`.
pub fn panic_on_missing_fieldname<T: PrefixTypeTrait>(
    field_index: u8,
    actual_layout: &PTStructLayout,
) -> (message: String)
    ensures
        message@ == missing_field_text(
            field_index as nat,
            field_name_or(T::spec_pt_layout(), field_index as int, unavaiable_name()),
            T::spec_pt_layout(),
            actual_layout@,
        ),
{
    let field_index = field_index as usize;
    let expected = T::pt_layout();
    match expected.get_field_name(field_index) {
        Some(name) => panic_on_missing_field_val(
            field_index,
            name.as_str(),
            &expected,
            actual_layout,
        ),
        None => panic_on_missing_field_val(field_index, "<unavaiable>", &expected, actual_layout),
    }
}

/// A prefix type without fields.
#[derive(Debug, Clone, Copy, PartialEq, Eq, Structural)]
pub struct EmptyPrefixType {}

impl PrefixTypeTrait for EmptyPrefixType {
    type Prefix = EmptyPrefixType;

    open spec fn spec_pt_layout() -> PTStructLayoutView {
        PTStructLayoutView {
            name: "EmptyPrefixType"@,
            generics: ""@,
            package: "abi_stable"@,
            package_version: "0.0.0"@,
            file: ""@,
            line: 0,
            size: 0,
            alignment: 1,
            field_names: Seq::empty(),
        }
    }

    open spec fn spec_first_suffix_field() -> usize {
        0
    }

    open spec fn spec_field_accessibility() -> Seq<bool> {
        Seq::empty()
    }

    open spec fn spec_cond_prefix_fields() -> Seq<IsConditional> {
        Seq::empty()
    }

    fn pt_layout() -> (layout: PTStructLayout) {
        let layout = PTStructLayout {
            name: String::from_str("EmptyPrefixType"),
            generics: String::from_str(""),
            package: String::from_str("abi_stable"),
            package_version: String::from_str("0.0.0"),
            file: String::from_str(""),
            line: 0,
            size: 0,
            alignment: 1,
            field_names: Vec::new(),
        };
        assert(layout@.field_names =~= Seq::empty());
        layout
    }

    fn pt_first_suffix_field() -> (index: usize) {
        0
    }

    fn pt_field_accessibility() -> (acc: FieldAccessibility) {
        FieldAccessibility::empty()
    }

    fn pt_cond_prefix_fields() -> (flags: Vec<IsConditional>) {
        Vec::new()
    }
}

} // verus!
