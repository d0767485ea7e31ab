//! The metadata of a type.

use crate::sabi_types::{same_identity, MaybeCmp};
use crate::std_types::utypeid::UTypeId;
use crate::utils::{decimal, to_decimal};
use vstd::prelude::*;
use vstd::string::*;

verus! {

/// The metadata of a type, as stored beside values of the type that are
/// passed around without it.
#[derive(Debug)]
pub struct TypeInfo {
    pub size: usize,
    pub alignment: usize,
    /// The identity of the type, if it is known.
    pub _uid: MaybeCmp<UTypeId>,
    pub name: String,
    pub module: String,
    pub package: String,
    pub package_version: String,
}

/// The mathematical value of a [`TypeInfo`].
pub ghost struct TypeInfoView {
    pub size: usize,
    pub alignment: usize,
    pub uid: MaybeCmp<UTypeId>,
    pub name: Seq<char>,
    pub module: Seq<char>,
    pub package: Seq<char>,
    pub package_version: Seq<char>,
}

impl View for TypeInfo {
    type V = TypeInfoView;

    open spec fn view(&self) -> TypeInfoView {
        TypeInfoView {
            size: self.size,
            alignment: self.alignment,
            uid: self._uid,
            name: self.name@,
            module: self.module@,
            package: self.package@,
            package_version: self.package_version@,
        }
    }
}

/// The text that describes a type to a reader.
pub open spec fn type_info_text(info: TypeInfoView) -> Seq<char> {
    "type:"@ + info.name + "\nsize:"@ + decimal(info.size as nat) + " alignment:"@ + decimal(
        info.alignment as nat,
    ) + "\nmodule:'"@ + info.module + "'\npackage:'"@ + info.package + "'\npackage_version:"@
        + info.package_version + "\n\n"@
}

impl TypeInfo {
    /// Whether `self` and `other` are the metadata of the same type: both
    /// know the identity of their type, and it is the same.
    pub fn is_compatible(&self, other: &Self) -> (same: bool)
        ensures
            same == same_identity(self@.uid, other@.uid),
    {
        self._uid.is_same(&other._uid)
    }

    /// Describes the type to a reader.
    pub fn to_text(&self) -> (text: String)
        ensures
            text@ == type_info_text(self@),
    {
        let mut text = String::from_str("type:");
        text.append(self.name.as_str());
        text.append("\nsize:");
        text.append(to_decimal(self.size).as_str());
        text.append(" alignment:");
        text.append(to_decimal(self.alignment).as_str());
        text.append("\nmodule:'");
        text.append(self.module.as_str());
        text.append("'\npackage:'");
        text.append(self.package.as_str());
        text.append("'\npackage_version:");
        text.append(self.package_version.as_str());
        text.append("\n\n");
        text
    }
}

} // verus!
