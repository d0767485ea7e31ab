//! Where a type was declared, and the parameters from which a layout is made.

use super::{GenericParams, TLData};
use vstd::prelude::*;

verus! {

/// The module in which a type was declared.
#[derive(Debug, PartialEq, Eq)]
pub enum ModPath {
    /// The path is not known.
    No,
    /// The full path of the module, crate name included.
    With(String),
    /// The type is in scope everywhere.
    Prelude,
}

/// The mathematical value of a [`ModPath`].
pub ghost enum ModPathView {
    No,
    With(Seq<char>),
    Prelude,
}

impl View for ModPath {
    type V = ModPathView;

    open spec fn view(&self) -> ModPathView {
        match self {
            ModPath::No => ModPathView::No,
            ModPath::With(path) => ModPathView::With(path@),
            ModPath::Prelude => ModPathView::Prelude,
        }
    }
}

impl ModPath {
    /// The module with the path `path`.
    pub fn inside(path: &str) -> (m: Self)
        ensures
            m@ == ModPathView::With(path@),
    {
        ModPath::With(path.to_owned())
    }

    /// Whether `self` and `other` are the same path.
    pub fn equals(&self, other: &ModPath) -> (same: bool)
        ensures
            same == (self@ == other@),
    {
        match self {
            ModPath::No => match other {
                ModPath::No => true,
                _ => false,
            },
            ModPath::With(a) => match other {
                ModPath::With(b) => *a == *b,
                _ => false,
            },
            ModPath::Prelude => match other {
                ModPath::Prelude => true,
                _ => false,
            },
        }
    }

    /// A copy of this path.
    pub fn duplicate(&self) -> (copy: Self)
        ensures
            copy@ == self@,
    {
        match self {
            ModPath::No => ModPath::No,
            ModPath::With(path) => ModPath::With(path.clone()),
            ModPath::Prelude => ModPath::Prelude,
        }
    }
}

/// Where a type was declared. It is used in diagnostics only: two layouts
/// are never told apart by it.
#[derive(Debug, PartialEq, Eq)]
pub struct ItemInfo {
    /// The package of the type and its version, as `package;version`.
    pub package_and_version: String,
    /// The line at which the type was declared.
    pub line: u32,
    /// The module in which the type was declared.
    pub mod_path: ModPath,
}

/// The mathematical value of an [`ItemInfo`].
pub ghost struct ItemInfoView {
    pub package_and_version: Seq<char>,
    pub line: u32,
    pub mod_path: ModPathView,
}

impl View for ItemInfo {
    type V = ItemInfoView;

    open spec fn view(&self) -> ItemInfoView {
        ItemInfoView {
            package_and_version: self.package_and_version@,
            line: self.line,
            mod_path: self.mod_path@,
        }
    }
}

/// The text `std;1.0.0`, under which the types of the standard library are
/// recorded.
pub open spec fn std_package() -> Seq<char> {
    seq!['s', 't', 'd', ';', '1', '.', '0', '.', '0']
}

/// The position of the first `;` of `text` at or after `start`, or the
/// length of `text` when there is none.
pub open spec fn separator_from(text: Seq<char>, start: int) -> int
    decreases text.len() - start,
{
    if start < 0 || start >= text.len() {
        text.len() as int
    } else if text[start] == ';' {
        start
    } else {
        separator_from(text, start + 1)
    }
}

/// The part of `text` before its first `;`: all of it when it has none.
pub open spec fn package_of(text: Seq<char>) -> Seq<char> {
    text.subrange(0, separator_from(text, 0))
}

/// The part of `text` after its first `;`: nothing when it has none.
pub open spec fn version_of(text: Seq<char>) -> Seq<char> {
    let at = separator_from(text, 0);
    if at < text.len() {
        text.subrange(at + 1, text.len() as int)
    } else {
        Seq::empty()
    }
}

proof fn lemma_separator_bounds(text: Seq<char>, start: int)
    requires
        0 <= start <= text.len(),
    ensures
        start <= separator_from(text, start) <= text.len(),
    decreases text.len() - start,
{
    if start < text.len() && text[start] != ';' {
        lemma_separator_bounds(text, start + 1);
    }
}

impl ItemInfo {
    /// The place given by its three parts.
    pub fn new(package_and_version: &str, line: u32, mod_path: ModPath) -> (info: Self)
        ensures
            info@ == (ItemInfoView {
                package_and_version: package_and_version@,
                line,
                mod_path: mod_path@,
            }),
    {
        ItemInfo { package_and_version: package_and_version.to_owned(), line, mod_path }
    }

    /// The place of a primitive of the language.
    pub fn primitive() -> (info: Self)
        ensures
            info@ == (ItemInfoView {
                package_and_version: std_package(),
                line: 0,
                mod_path: ModPathView::Prelude,
            }),
    {
        proof {
            reveal_strlit("std;1.0.0");
            assert("std;1.0.0"@ =~= std_package());
        }
        ItemInfo {
            package_and_version: "std;1.0.0".to_owned(),
            line: 0,
            mod_path: ModPath::Prelude,
        }
    }

    /// The place of a type of the standard library, in the module `path`.
    pub fn std_type_in(path: &str) -> (info: Self)
        ensures
            info@ == (ItemInfoView {
                package_and_version: std_package(),
                line: 0,
                mod_path: ModPathView::With(path@),
            }),
    {
        proof {
            reveal_strlit("std;1.0.0");
            assert("std;1.0.0"@ =~= std_package());
        }
        ItemInfo {
            package_and_version: "std;1.0.0".to_owned(),
            line: 0,
            mod_path: ModPath::inside(path),
        }
    }

    /// The place of a type in a package, given as `package;version`, and in
    /// the module `mod_path` of it.
    pub fn package_and_mod(package_and_version: &str, mod_path: &str) -> (info: Self)
        ensures
            info@ == (ItemInfoView {
                package_and_version: package_and_version@,
                line: 0,
                mod_path: ModPathView::With(mod_path@),
            }),
    {
        ItemInfo {
            package_and_version: package_and_version.to_owned(),
            line: 0,
            mod_path: ModPath::inside(mod_path),
        }
    }

    /// The package and the version, split at the first `;`. Without a `;` the
    /// whole text is the package and the version is empty.
    pub fn package_and_version(&self) -> (parts: (&str, &str))
        ensures
            parts.0@ == package_of(self.package_and_version@),
            parts.1@ == version_of(self.package_and_version@),
    {
        let pav = self.package_and_version.as_str();
        let len = pav.unicode_len();
        let mut i: usize = 0;
        while i < len && pav.get_char(i) != ';'
            invariant
                i <= len,
                len == pav@.len(),
                separator_from(pav@, 0) == separator_from(pav@, i as int),
            decreases len - i,
        {
            i += 1;
        }
        proof {
            lemma_separator_bounds(pav@, i as int);
        }
        if i < len {
            (pav.substring_char(0, i), pav.substring_char(i + 1, len))
        } else {
            (pav.substring_char(0, len), pav.substring_char(len, len))
        }
    }

    /// Whether `self` and `other` are the same place.
    pub fn equals(&self, other: &ItemInfo) -> (same: bool)
        ensures
            same == (self@ == other@),
    {
        self.package_and_version == other.package_and_version && self.line == other.line
            && self.mod_path.equals(&other.mod_path)
    }

    /// A copy of this place.
    pub fn duplicate(&self) -> (copy: Self)
        ensures
            copy@ == self@,
    {
        ItemInfo {
            package_and_version: self.package_and_version.clone(),
            line: self.line,
            mod_path: self.mod_path.duplicate(),
        }
    }
}

/// The parameters from which [`super::TypeLayout::from_params`] makes a layout.
#[derive(Debug, PartialEq, Eq)]
pub struct TypeLayoutParams {
    /// The name of the type, without its generic parameters.
    pub name: String,
    /// Where the type was declared.
    pub item_info: ItemInfo,
    /// The definition of the type.
    pub data: TLData,
    /// The numbers of generic parameters of the type.
    pub generics: GenericParams,
}

} // verus!
