//! What holds of the layout check for all layouts.

use crate::abi_stability::abi_checking::{
    at, common_suffix_start, conditionality_agrees_from, cut_point, data_class, field_class,
    first_suffix_field, data_mismatches, enum_mismatches, field_counts_agree, field_mismatches,
    fields_mismatches, layout_mismatches, name_mismatches, phantom_mismatches,
    shallow_mismatches, struct_fields, struct_mismatches, tag_part, AbiInstabilityView,
    MismatchView,
};
use crate::abi_stability::stable_abi_trait::AbiInfoView;
use crate::tag::{lemma_compare_reflexive, tag_mismatches};
use crate::type_layout::{fields_wf, TLDataView, TLEnumView, TLFieldView, TypeLayoutView};
use vstd::prelude::*;

verus! {

proof fn lemma_names_reflexive(owner: TypeLayoutView, names: Seq<Seq<char>>, n: int)
    requires
        0 <= n <= names.len(),
    ensures
        name_mismatches(owner, names, names, n) =~= Seq::empty(),
    decreases n,
{
    if n > 0 {
        lemma_names_reflexive(owner, names, n - 1);
    }
}

proof fn lemma_shallow_reflexive(layout: TypeLayoutView)
    requires
        layout.tag.wf(),
    ensures
        shallow_mismatches(layout, layout) =~= Seq::empty(),
{
    lemma_compare_reflexive(layout.tag);
    assert(tag_part(layout, tag_mismatches(layout.tag, layout.tag)) =~= Seq::empty());
}

proof fn lemma_fields_reflexive(owner: TypeLayoutView, fields: Seq<TLFieldView>, n: int, by_name: bool)
    requires
        fields_wf(fields),
        0 <= n <= fields.len(),
    ensures
        fields_mismatches(owner, fields, fields, n, by_name) =~= Seq::empty(),
    decreases fields, n,
{
    if n > 0 {
        lemma_fields_reflexive(owner, fields, n - 1, by_name);
        let field = fields[n - 1];
        lemma_check_reflexive(field.abi_info, !field.is_function);
        assert(field_mismatches(owner, field, field, n - 1, by_name) =~= Seq::empty());
    }
}

proof fn lemma_enum_reflexive(owner: TypeLayoutView, e: TLEnumView, by_name: bool)
    requires
        e.wf(),
    ensures
        enum_mismatches(owner, e, e, by_name) =~= Seq::empty(),
    decreases e, 0int,
{
    lemma_names_reflexive(owner, e.variant_names, e.variant_names.len() as int);
    lemma_fields_reflexive(owner, e.fields, e.fields.len() as int, by_name);
}

proof fn lemma_data_reflexive(owner: TypeLayoutView, data: TLDataView, by_name: bool)
    requires
        data.wf(),
    ensures
        data_mismatches(owner, data, data, by_name) =~= Seq::empty(),
    decreases data, 0int,
{
    match data {
        TLDataView::Enum(e) => {
            lemma_enum_reflexive(owner, e, by_name);
        },
        TLDataView::Struct { fields } => {
            assert(field_counts_agree(data, data));
            lemma_fields_reflexive(owner, fields, fields.len() as int, by_name);
            assert(struct_mismatches(owner, data, data, fields, by_name) =~= Seq::empty());
        },
        TLDataView::PrefixType(p) => {
            assert(field_counts_agree(data, data));
            lemma_fields_reflexive(owner, p.fields, p.fields.len() as int, by_name);
            assert(struct_mismatches(owner, data, data, p.fields, by_name) =~= Seq::empty());
        },
        _ => {},
    }
}

/// A well-formed layout is compatible with itself: checking it against
/// itself finds no mismatch.
pub proof fn lemma_check_reflexive(info: AbiInfoView, by_name: bool)
    requires
        info.wf(),
    ensures
        layout_mismatches(info, info, by_name) =~= Seq::empty(),
    decreases info, 0int,
{
    let layout = info.layout;
    lemma_data_reflexive(layout, layout.data, by_name);
    lemma_fields_reflexive(
        layout,
        layout.phantom_fields,
        layout.phantom_fields.len() as int,
        true,
    );
    lemma_shallow_reflexive(layout);
}


/// Whether a mismatch is one of shape: any mismatch but one between tags.
pub open spec fn is_shape_mismatch(m: MismatchView) -> bool {
    !(m.kind is TagMismatch)
}

/// Whether `list` holds a mismatch of shape.
pub open spec fn has_shape_mismatch(list: Seq<MismatchView>) -> bool {
    exists|i: int| 0 <= i < list.len() && is_shape_mismatch(#[trigger] list[i])
}

proof fn lemma_shape_of_concat(a: Seq<MismatchView>, b: Seq<MismatchView>)
    ensures
        has_shape_mismatch(a + b) == (has_shape_mismatch(a) || has_shape_mismatch(b)),
{
    if has_shape_mismatch(a) {
        let i = choose|i: int| 0 <= i < a.len() && is_shape_mismatch(#[trigger] a[i]);
        assert((a + b)[i] == a[i]);
    }
    if has_shape_mismatch(b) {
        let i = choose|i: int| 0 <= i < b.len() && is_shape_mismatch(#[trigger] b[i]);
        assert((a + b)[a.len() + i] == b[i]);
    }
    if has_shape_mismatch(a + b) {
        let i = choose|i: int| 0 <= i < (a + b).len() && is_shape_mismatch(#[trigger] (a + b)[i]);
        if i < a.len() {
            assert((a + b)[i] == a[i]);
        } else {
            assert((a + b)[i] == b[i - a.len()]);
        }
    }
}

proof fn lemma_shape_of_one(m: MismatchView)
    ensures
        has_shape_mismatch(seq![m]) == is_shape_mismatch(m),
{
    if is_shape_mismatch(m) {
        assert(seq![m][0] == m);
    }
}

proof fn lemma_shape_of_shallow(e: TypeLayoutView, f: TypeLayoutView)
    ensures
        has_shape_mismatch(shallow_mismatches(e, f)) == (e.generics != f.generics
            || e.mod_refl_mode != f.mod_refl_mode),
{
    let generics = if e.generics != f.generics {
        seq![
            at(
                e,
                AbiInstabilityView::GenericParamCount { expected: e.generics, found: f.generics },
            ),
        ]
    } else {
        Seq::<MismatchView>::empty()
    };
    let tags = tag_part(e, tag_mismatches(e.tag, f.tag));
    let refl = if e.mod_refl_mode != f.mod_refl_mode {
        seq![
            at(
                e,
                AbiInstabilityView::ModuleReflectionMismatch {
                    expected: e.mod_refl_mode,
                    found: f.mod_refl_mode,
                },
            ),
        ]
    } else {
        Seq::<MismatchView>::empty()
    };
    assert(shallow_mismatches(e, f) == generics + tags + refl);
    lemma_shape_of_concat(generics + tags, refl);
    lemma_shape_of_concat(generics, tags);
    assert(!has_shape_mismatch(tags));
    if e.generics != f.generics {
        lemma_shape_of_one(generics[0]);
    }
    if e.mod_refl_mode != f.mod_refl_mode {
        lemma_shape_of_one(refl[0]);
    }
}

proof fn lemma_names_symmetric(
    owner_e: TypeLayoutView,
    owner_f: TypeLayoutView,
    e: Seq<Seq<char>>,
    f: Seq<Seq<char>>,
    n: int,
)
    ensures
        has_shape_mismatch(name_mismatches(owner_e, e, f, n)) == has_shape_mismatch(
            name_mismatches(owner_f, f, e, n),
        ),
    decreases n,
{
    if !(n <= 0 || n > e.len() || n > f.len()) {
        lemma_names_symmetric(owner_e, owner_f, e, f, n - 1);
        let head_e = name_mismatches(owner_e, e, f, n - 1);
        let head_f = name_mismatches(owner_f, f, e, n - 1);
        let last_e = if e[n - 1] != f[n - 1] {
            seq![
                at(
                    owner_e,
                    AbiInstabilityView::FieldRename {
                        index: n - 1,
                        expected: e[n - 1],
                        found: f[n - 1],
                    },
                ),
            ]
        } else {
            Seq::<MismatchView>::empty()
        };
        let last_f = if f[n - 1] != e[n - 1] {
            seq![
                at(
                    owner_f,
                    AbiInstabilityView::FieldRename {
                        index: n - 1,
                        expected: f[n - 1],
                        found: e[n - 1],
                    },
                ),
            ]
        } else {
            Seq::<MismatchView>::empty()
        };
        lemma_shape_of_concat(head_e, last_e);
        lemma_shape_of_concat(head_f, last_f);
        if e[n - 1] != f[n - 1] {
            lemma_shape_of_one(last_e[0]);
            lemma_shape_of_one(last_f[0]);
        }
    }
}

proof fn lemma_field_symmetric(
    owner_e: TypeLayoutView,
    owner_f: TypeLayoutView,
    e: TLFieldView,
    f: TLFieldView,
    index: int,
    by_name: bool,
)
    ensures
        has_shape_mismatch(field_mismatches(owner_e, e, f, index, by_name)) == has_shape_mismatch(
            field_mismatches(owner_f, f, e, index, by_name),
        ),
    decreases e, 0int,
{
    let name_e = if by_name && e.name != f.name {
        seq![
            at(
                owner_e,
                AbiInstabilityView::FieldRename { index, expected: e.name, found: f.name },
            ),
        ]
    } else {
        Seq::<MismatchView>::empty()
    };
    let name_f = if by_name && f.name != e.name {
        seq![
            at(
                owner_f,
                AbiInstabilityView::FieldRename { index, expected: f.name, found: e.name },
            ),
        ]
    } else {
        Seq::<MismatchView>::empty()
    };
    let nested_e = if e.is_function != f.is_function {
        seq![
            at(
                owner_e,
                AbiInstabilityView::DataVariant {
                    expected: field_class(e),
                    found: field_class(f),
                },
            ),
        ]
    } else {
        layout_mismatches(e.abi_info, f.abi_info, !e.is_function)
    };
    let nested_f = if f.is_function != e.is_function {
        seq![
            at(
                owner_f,
                AbiInstabilityView::DataVariant {
                    expected: field_class(f),
                    found: field_class(e),
                },
            ),
        ]
    } else {
        layout_mismatches(f.abi_info, e.abi_info, !f.is_function)
    };
    assert(field_mismatches(owner_e, e, f, index, by_name) == name_e + nested_e);
    assert(field_mismatches(owner_f, f, e, index, by_name) == name_f + nested_f);
    lemma_shape_of_concat(name_e, nested_e);
    lemma_shape_of_concat(name_f, nested_f);
    if by_name && e.name != f.name {
        lemma_shape_of_one(name_e[0]);
        lemma_shape_of_one(name_f[0]);
    }
    if e.is_function != f.is_function {
        lemma_shape_of_one(nested_e[0]);
        lemma_shape_of_one(nested_f[0]);
    } else {
        lemma_fatality_symmetric(e.abi_info, f.abi_info, !e.is_function);
    }
}

proof fn lemma_fields_symmetric(
    owner_e: TypeLayoutView,
    owner_f: TypeLayoutView,
    e: Seq<TLFieldView>,
    f: Seq<TLFieldView>,
    n: int,
    by_name: bool,
)
    ensures
        has_shape_mismatch(fields_mismatches(owner_e, e, f, n, by_name)) == has_shape_mismatch(
            fields_mismatches(owner_f, f, e, n, by_name),
        ),
    decreases e, n,
{
    if !(n <= 0 || n > e.len() || n > f.len()) {
        lemma_fields_symmetric(owner_e, owner_f, e, f, n - 1, by_name);
        lemma_field_symmetric(owner_e, owner_f, e[n - 1], f[n - 1], n - 1, by_name);
        lemma_shape_of_concat(
            fields_mismatches(owner_e, e, f, n - 1, by_name),
            field_mismatches(owner_e, e[n - 1], f[n - 1], n - 1, by_name),
        );
        lemma_shape_of_concat(
            fields_mismatches(owner_f, f, e, n - 1, by_name),
            field_mismatches(owner_f, f[n - 1], e[n - 1], n - 1, by_name),
        );
    }
}

proof fn lemma_counts_symmetric(e: TLDataView, f: TLDataView)
    ensures
        field_counts_agree(e, f) == field_counts_agree(f, e),
        cut_point(e, f) == cut_point(f, e),
{
}

proof fn lemma_struct_symmetric(
    owner_e: TypeLayoutView,
    owner_f: TypeLayoutView,
    e: TLDataView,
    f: TLDataView,
    by_name: bool,
)
    requires
        e is Struct || e is PrefixType,
        f is Struct || f is PrefixType,
    ensures
        has_shape_mismatch(struct_mismatches(owner_e, e, f, struct_fields(e), by_name))
            == has_shape_mismatch(struct_mismatches(owner_f, f, e, struct_fields(f), by_name)),
    decreases e, 0int,
{
    lemma_counts_symmetric(e, f);
    let cut = cut_point(e, f);
    let count_e = if field_counts_agree(e, f) {
        Seq::<MismatchView>::empty()
    } else {
        seq![
            at(
                owner_e,
                AbiInstabilityView::FieldCountMismatch {
                    expected: struct_fields(e).len() as int,
                    found: struct_fields(f).len() as int,
                },
            ),
        ]
    };
    let count_f = if field_counts_agree(f, e) {
        Seq::<MismatchView>::empty()
    } else {
        seq![
            at(
                owner_f,
                AbiInstabilityView::FieldCountMismatch {
                    expected: struct_fields(f).len() as int,
                    found: struct_fields(e).len() as int,
                },
            ),
        ]
    };
    let below_e = fields_mismatches(owner_e, struct_fields(e), struct_fields(f), cut, by_name);
    let below_f = fields_mismatches(owner_f, struct_fields(f), struct_fields(e), cut, by_name);
    assert(struct_mismatches(owner_e, e, f, struct_fields(e), by_name) == count_e + below_e);
    assert(struct_mismatches(owner_f, f, e, struct_fields(f), by_name) == count_f + below_f);
    lemma_fields_symmetric(owner_e, owner_f, struct_fields(e), struct_fields(f), cut, by_name);
    lemma_shape_of_concat(count_e, below_e);
    lemma_shape_of_concat(count_f, below_f);
    if !field_counts_agree(e, f) {
        lemma_shape_of_one(count_e[0]);
        lemma_shape_of_one(count_f[0]);
    }
}

proof fn lemma_enum_symmetric(
    owner_e: TypeLayoutView,
    owner_f: TypeLayoutView,
    e: TLEnumView,
    f: TLEnumView,
    by_name: bool,
)
    ensures
        has_shape_mismatch(enum_mismatches(owner_e, e, f, by_name)) == has_shape_mismatch(
            enum_mismatches(owner_f, f, e, by_name),
        ),
    decreases e, 0int,
{
    let all_e = enum_mismatches(owner_e, e, f, by_name);
    let all_f = enum_mismatches(owner_f, f, e, by_name);
    if e.variant_names.len() != f.variant_names.len() {
        lemma_shape_of_one(all_e[0]);
        lemma_shape_of_one(all_f[0]);
        assert(all_e =~= seq![all_e[0]]);
        assert(all_f =~= seq![all_f[0]]);
    } else {
        let n = e.variant_names.len() as int;
        let names_e = name_mismatches(owner_e, e.variant_names, f.variant_names, n);
        let names_f = name_mismatches(owner_f, f.variant_names, e.variant_names, n);
        lemma_names_symmetric(owner_e, owner_f, e.variant_names, f.variant_names, n);
        let discr_e = if e.discriminants != f.discriminants {
            seq![
                at(
                    owner_e,
                    AbiInstabilityView::EnumDiscriminant {
                        expected: e.discriminants,
                        found: f.discriminants,
                    },
                ),
            ]
        } else {
            Seq::<MismatchView>::empty()
        };
        let discr_f = if f.discriminants != e.discriminants {
            seq![
                at(
                    owner_f,
                    AbiInstabilityView::EnumDiscriminant {
                        expected: f.discriminants,
                        found: e.discriminants,
                    },
                ),
            ]
        } else {
            Seq::<MismatchView>::empty()
        };
        let counts_differ = e.field_count != f.field_count || e.fields.len() != f.fields.len();
        let below_e = if counts_differ {
            seq![
                at(
                    owner_e,
                    AbiInstabilityView::FieldCountMismatch {
                        expected: e.fields.len() as int,
                        found: f.fields.len() as int,
                    },
                ),
            ]
        } else {
            fields_mismatches(owner_e, e.fields, f.fields, e.fields.len() as int, by_name)
        };
        let below_f = if counts_differ {
            seq![
                at(
                    owner_f,
                    AbiInstabilityView::FieldCountMismatch {
                        expected: f.fields.len() as int,
                        found: e.fields.len() as int,
                    },
                ),
            ]
        } else {
            fields_mismatches(owner_f, f.fields, e.fields, f.fields.len() as int, by_name)
        };
        assert(all_e == names_e + discr_e + below_e);
        assert(all_f == names_f + discr_f + below_f);
        lemma_shape_of_concat(names_e + discr_e, below_e);
        lemma_shape_of_concat(names_e, discr_e);
        lemma_shape_of_concat(names_f + discr_f, below_f);
        lemma_shape_of_concat(names_f, discr_f);
        if e.discriminants != f.discriminants {
            lemma_shape_of_one(discr_e[0]);
            lemma_shape_of_one(discr_f[0]);
        }
        if counts_differ {
            lemma_shape_of_one(below_e[0]);
            lemma_shape_of_one(below_f[0]);
        } else {
            lemma_fields_symmetric(
                owner_e,
                owner_f,
                e.fields,
                f.fields,
                e.fields.len() as int,
                by_name,
            );
        }
    }
}

proof fn lemma_data_symmetric(
    owner_e: TypeLayoutView,
    owner_f: TypeLayoutView,
    e: TLDataView,
    f: TLDataView,
    by_name: bool,
)
    ensures
        has_shape_mismatch(data_mismatches(owner_e, e, f, by_name)) == has_shape_mismatch(
            data_mismatches(owner_f, f, e, by_name),
        ),
    decreases e, 1int,
{
    let all_e = data_mismatches(owner_e, e, f, by_name);
    let all_f = data_mismatches(owner_f, f, e, by_name);
    if e is Primitive || f is Primitive {
        if e != f {
            lemma_shape_of_one(all_e[0]);
            lemma_shape_of_one(all_f[0]);
            assert(all_e =~= seq![all_e[0]]);
            assert(all_f =~= seq![all_f[0]]);
        }
    } else if data_class(e) != data_class(f) {
        lemma_shape_of_one(all_e[0]);
        lemma_shape_of_one(all_f[0]);
        assert(all_e =~= seq![all_e[0]]);
        assert(all_f =~= seq![all_f[0]]);
    } else {
        match e {
            TLDataView::Enum(ee) => {
                lemma_enum_symmetric(owner_e, owner_f, ee, f->Enum_0, by_name);
            },
            TLDataView::Struct { .. } => {
                lemma_struct_symmetric(owner_e, owner_f, e, f, by_name);
            },
            TLDataView::PrefixType(_) => {
                lemma_struct_symmetric(owner_e, owner_f, e, f, by_name);
            },
            _ => {},
        }
    }
}

proof fn lemma_phantom_symmetric(
    owner_e: TypeLayoutView,
    owner_f: TypeLayoutView,
    e: Seq<TLFieldView>,
    f: Seq<TLFieldView>,
)
    ensures
        has_shape_mismatch(phantom_mismatches(owner_e, e, f)) == has_shape_mismatch(
            phantom_mismatches(owner_f, f, e),
        ),
    decreases e, e.len() + 1,
{
    if e.len() != f.len() {
        lemma_shape_of_one(phantom_mismatches(owner_e, e, f)[0]);
        lemma_shape_of_one(phantom_mismatches(owner_f, f, e)[0]);
        assert(phantom_mismatches(owner_e, e, f) =~= seq![phantom_mismatches(owner_e, e, f)[0]]);
        assert(phantom_mismatches(owner_f, f, e) =~= seq![phantom_mismatches(owner_f, f, e)[0]]);
    } else {
        lemma_fields_symmetric(owner_e, owner_f, e, f, e.len() as int, true);
    }
}

/// A mismatch of shape shows in both directions: checking `expected`
/// against `found` meets a mismatch other than one between tags exactly
/// when checking `found` against `expected` does.
///
/// Tags are left out because their comparison has a direction: the found
/// tag may say more than the expected one.
pub proof fn lemma_fatality_symmetric(expected: AbiInfoView, found: AbiInfoView, by_name: bool)
    ensures
        has_shape_mismatch(layout_mismatches(expected, found, by_name)) == has_shape_mismatch(
            layout_mismatches(found, expected, by_name),
        ),
    decreases expected, 0int,
{
    let e = expected.layout;
    let f = found.layout;
    let deep_e = if e.repr_attr != f.repr_attr {
        seq![at(e, AbiInstabilityView::ReprAttr { expected: e.repr_attr, found: f.repr_attr })]
    } else {
        data_mismatches(e, e.data, f.data, by_name) + phantom_mismatches(
            e,
            e.phantom_fields,
            f.phantom_fields,
        )
    };
    let deep_f = if f.repr_attr != e.repr_attr {
        seq![at(f, AbiInstabilityView::ReprAttr { expected: f.repr_attr, found: e.repr_attr })]
    } else {
        data_mismatches(f, f.data, e.data, by_name) + phantom_mismatches(
            f,
            f.phantom_fields,
            e.phantom_fields,
        )
    };
    assert(layout_mismatches(expected, found, by_name) == deep_e + shallow_mismatches(e, f));
    assert(layout_mismatches(found, expected, by_name) == deep_f + shallow_mismatches(f, e));
    lemma_shape_of_concat(deep_e, shallow_mismatches(e, f));
    lemma_shape_of_concat(deep_f, shallow_mismatches(f, e));
    lemma_shape_of_shallow(e, f);
    lemma_shape_of_shallow(f, e);
    if e.repr_attr != f.repr_attr {
        lemma_shape_of_one(deep_e[0]);
        lemma_shape_of_one(deep_f[0]);
    } else {
        lemma_data_symmetric(e, f, e.data, f.data, by_name);
        lemma_phantom_symmetric(e, f, e.phantom_fields, f.phantom_fields);
        lemma_shape_of_concat(
            data_mismatches(e, e.data, f.data, by_name),
            phantom_mismatches(e, e.phantom_fields, f.phantom_fields),
        );
        lemma_shape_of_concat(
            data_mismatches(f, f.data, e.data, by_name),
            phantom_mismatches(f, f.phantom_fields, e.phantom_fields),
        );
    }
}


proof fn lemma_same_fields_agree(
    owner: TypeLayoutView,
    e: Seq<TLFieldView>,
    f: Seq<TLFieldView>,
    n: int,
    by_name: bool,
)
    requires
        0 <= n <= e.len(),
        n <= f.len(),
        forall|i: int| 0 <= i < n ==> e[i] == f[i] && (#[trigger] e[i]).abi_info.wf(),
    ensures
        fields_mismatches(owner, e, f, n, by_name) =~= Seq::empty(),
    decreases n,
{
    if n > 0 {
        lemma_same_fields_agree(owner, e, f, n - 1, by_name);
        let field = e[n - 1];
        lemma_check_reflexive(field.abi_info, !field.is_function);
        assert(field_mismatches(owner, field, field, n - 1, by_name) =~= Seq::empty());
    }
}

/// Whether `shorter` and `longer` describe one struct before and after it
/// grew at its end: both are structs, the fields of `shorter` are the first
/// fields of `longer`, the first suffix field of either side is no later
/// than the end of `shorter`, both sides agree on which of the fields they
/// share are conditional, and the layouts have the same representation
/// attribute, numbers of generic parameters, tag and reflection mode.
///
/// Layouts also carry phantom fields, which the check compares; the
/// phantom fields of the two sides must be compatible with each other.
pub open spec fn is_trailing_growth(shorter: AbiInfoView, longer: AbiInfoView) -> bool {
    let s = shorter.layout;
    let l = longer.layout;
    &&& s.data is Struct || s.data is PrefixType
    &&& l.data is Struct || l.data is PrefixType
    &&& struct_fields(s.data).len() <= struct_fields(l.data).len()
    &&& struct_fields(s.data) == struct_fields(l.data).subrange(
        0,
        struct_fields(s.data).len() as int,
    )
    &&& first_suffix_field(s.data) <= struct_fields(s.data).len()
    &&& first_suffix_field(l.data) <= struct_fields(s.data).len()
    &&& conditionality_agrees_from(s.data, l.data, common_suffix_start(s.data, l.data))
    &&& s.repr_attr == l.repr_attr
    &&& s.generics == l.generics
    &&& phantom_mismatches(s, s.phantom_fields, l.phantom_fields).len() == 0
    &&& phantom_mismatches(l, l.phantom_fields, s.phantom_fields).len() == 0
    &&& s.tag == l.tag
    &&& s.mod_refl_mode == l.mod_refl_mode
}

proof fn lemma_growth_of_data(
    owner_s: TypeLayoutView,
    owner_l: TypeLayoutView,
    shorter: TLDataView,
    longer: TLDataView,
    by_name: bool,
)
    requires
        is_struct(shorter),
        is_struct(longer),
        struct_fields(shorter).len() <= struct_fields(longer).len(),
        struct_fields(shorter) == struct_fields(longer).subrange(
            0,
            struct_fields(shorter).len() as int,
        ),
        first_suffix_field(shorter) <= struct_fields(shorter).len(),
        first_suffix_field(longer) <= struct_fields(shorter).len(),
        conditionality_agrees_from(shorter, longer, common_suffix_start(shorter, longer)),
        fields_wf(struct_fields(longer)),
    ensures
        data_mismatches(owner_s, shorter, longer, by_name) =~= Seq::empty(),
        data_mismatches(owner_l, longer, shorter, by_name) =~= Seq::empty(),
{
    let short_fields = struct_fields(shorter);
    let long_fields = struct_fields(longer);
    let n = short_fields.len() as int;
    assert(cut_point(shorter, longer) == n);
    assert(cut_point(longer, shorter) == n);
    assert(field_counts_agree(shorter, longer));
    assert(field_counts_agree(longer, shorter));
    assert forall|i: int| 0 <= i < n implies short_fields[i] == long_fields[i] && (
    #[trigger] short_fields[i]).abi_info.wf() by {
        assert(short_fields[i] == long_fields.subrange(0, n)[i]);
    }
    assert forall|i: int| 0 <= i < n implies long_fields[i] == short_fields[i] && (
    #[trigger] long_fields[i]).abi_info.wf() by {
        assert(short_fields[i] == long_fields.subrange(0, n)[i]);
    }
    lemma_same_fields_agree(owner_s, short_fields, long_fields, n, by_name);
    lemma_same_fields_agree(owner_l, long_fields, short_fields, n, by_name);
    assert(struct_mismatches(owner_s, shorter, longer, short_fields, by_name) =~= Seq::empty());
    assert(struct_mismatches(owner_l, longer, shorter, long_fields, by_name) =~= Seq::empty());
}

proof fn lemma_fields_of_wf_struct(layout: TypeLayoutView)
    requires
        layout.wf(),
        is_struct(layout.data),
    ensures
        fields_wf(struct_fields(layout.data)),
        layout.tag.wf(),
{
    assert(layout.data.wf());
    match layout.data {
        TLDataView::PrefixType(p) => {
            assert(p.wf());
        },
        _ => {},
    }
}

proof fn lemma_same_shallow_parts(e: TypeLayoutView, f: TypeLayoutView)
    requires
        e.generics == f.generics,
        e.tag == f.tag,
        e.tag.wf(),
        e.mod_refl_mode == f.mod_refl_mode,
    ensures
        shallow_mismatches(e, f) =~= Seq::empty(),
{
    lemma_compare_reflexive(e.tag);
    assert(tag_part(e, tag_mismatches(e.tag, f.tag)) =~= Seq::empty());
}

/// A struct that grew at its end is compatible with what it was before, in
/// both directions: the shorter layout can be expected where the longer is
/// found, and the longer where the shorter is found.
pub proof fn lemma_trailing_growth(shorter: AbiInfoView, longer: AbiInfoView, by_name: bool)
    requires
        longer.wf(),
        is_trailing_growth(shorter, longer),
    ensures
        layout_mismatches(shorter, longer, by_name) =~= Seq::empty(),
        layout_mismatches(longer, shorter, by_name) =~= Seq::empty(),
{
    let s = shorter.layout;
    let l = longer.layout;
    assert(l.wf());
    lemma_fields_of_wf_struct(l);
    lemma_growth_of_data(s, l, s.data, l.data, by_name);
    lemma_same_shallow_parts(s, l);
    lemma_same_shallow_parts(l, s);
    assert(phantom_mismatches(s, s.phantom_fields, l.phantom_fields) =~= Seq::empty());
    assert(phantom_mismatches(l, l.phantom_fields, s.phantom_fields) =~= Seq::empty());
}

/// Whether `list` holds a mismatch between representation attributes or
/// between discriminants.
pub open spec fn reports_representation(list: Seq<MismatchView>) -> bool {
    exists|i: int|
        0 <= i < list.len() && ((#[trigger] list[i]).kind is ReprAttr
            || list[i].kind is EnumDiscriminant)
}

/// Two enums with as many variants, both exhaustive or both not, are never
/// found compatible when their representation attributes differ, or when
/// their discriminants differ in value or in the integer type that stores
/// them: the mismatch is reported as one of representation or of
/// discriminants.
pub proof fn lemma_discriminants_are_compared(
    expected: AbiInfoView,
    found: AbiInfoView,
    by_name: bool,
)
    requires
        expected.layout.data is Enum,
        found.layout.data is Enum,
        expected.layout.data->Enum_0.exhaustiveness == found.layout.data->Enum_0.exhaustiveness,
        expected.layout.data->Enum_0.variant_names.len()
            == found.layout.data->Enum_0.variant_names.len(),
        expected.layout.repr_attr != found.layout.repr_attr
            || expected.layout.data->Enum_0.discriminants
            != found.layout.data->Enum_0.discriminants,
    ensures
        reports_representation(layout_mismatches(expected, found, by_name)),
{
    let e = expected.layout;
    let f = found.layout;
    let all = layout_mismatches(expected, found, by_name);
    if e.repr_attr != f.repr_attr {
        assert(all[0].kind is ReprAttr);
    } else {
        let ee = e.data->Enum_0;
        let fe = f.data->Enum_0;
        let names = name_mismatches(
            e,
            ee.variant_names,
            fe.variant_names,
            ee.variant_names.len() as int,
        );
        let of_enum = enum_mismatches(e, ee, fe, by_name);
        assert(data_mismatches(e, e.data, f.data, by_name) == of_enum);
        assert(of_enum[names.len() as int].kind is EnumDiscriminant);
        assert(all[names.len() as int] == of_enum[names.len() as int]);
    }
}


/// A primitive is only compatible with the same primitive: when one side
/// is a primitive and the other side is made of anything else, a mismatch
/// of shape is reported. In particular a shared reference, a mutable
/// reference and a struct that stands for a smart pointer never stand for
/// one another, whatever they point to.
pub proof fn lemma_primitives_are_compared(
    expected: AbiInfoView,
    found: AbiInfoView,
    by_name: bool,
)
    requires
        expected.layout.data is Primitive || found.layout.data is Primitive,
        expected.layout.data != found.layout.data,
    ensures
        has_shape_mismatch(layout_mismatches(expected, found, by_name)),
{
    let all = layout_mismatches(expected, found, by_name);
    assert(is_shape_mismatch(all[0]));
}


/// Whether `data` is a struct, growing or not.
pub open spec fn is_struct(data: TLDataView) -> bool {
    data is Struct || data is PrefixType
}

/// Two structs whose numbers of fields do not fit together are not
/// compatible, whichever of them is expected: a field that one side needs
/// cannot be removed from the other.
pub proof fn lemma_unfit_counts_fail_both_ways(
    expected: AbiInfoView,
    found: AbiInfoView,
    by_name: bool,
)
    requires
        is_struct(expected.layout.data),
        is_struct(found.layout.data),
        !field_counts_agree(expected.layout.data, found.layout.data),
    ensures
        has_shape_mismatch(layout_mismatches(expected, found, by_name)),
        has_shape_mismatch(layout_mismatches(found, expected, by_name)),
{
    let all = layout_mismatches(expected, found, by_name);
    assert(is_shape_mismatch(all[0]));
    lemma_fatality_symmetric(expected, found, by_name);
}

proof fn lemma_rename_shows(
    owner: TypeLayoutView,
    e: Seq<TLFieldView>,
    f: Seq<TLFieldView>,
    index: int,
    n: int,
)
    requires
        0 <= index < n,
        n <= e.len(),
        n <= f.len(),
        e[index].name != f[index].name,
    ensures
        has_shape_mismatch(fields_mismatches(owner, e, f, n, true)),
    decreases n,
{
    let before = fields_mismatches(owner, e, f, n - 1, true);
    let last = field_mismatches(owner, e[n - 1], f[n - 1], n - 1, true);
    lemma_shape_of_concat(before, last);
    if index == n - 1 {
        assert(is_shape_mismatch(last[0]));
    } else {
        lemma_rename_shows(owner, e, f, index, n - 1);
    }
}

/// Two structs are not compatible, whichever of them is expected, when the
/// fields that both have at some index are named differently.
pub proof fn lemma_renamed_field_fails_both_ways(
    expected: AbiInfoView,
    found: AbiInfoView,
    index: int,
)
    requires
        is_struct(expected.layout.data),
        is_struct(found.layout.data),
        0 <= index < struct_fields(expected.layout.data).len(),
        index < struct_fields(found.layout.data).len(),
        struct_fields(expected.layout.data)[index].name != struct_fields(
            found.layout.data,
        )[index].name,
    ensures
        has_shape_mismatch(layout_mismatches(expected, found, true)),
        has_shape_mismatch(layout_mismatches(found, expected, true)),
{
    let e = expected.layout;
    let f = found.layout;
    let all = layout_mismatches(expected, found, true);
    if e.repr_attr != f.repr_attr {
        assert(is_shape_mismatch(all[0]));
    } else {
        let fields = struct_fields(e.data);
        let others = struct_fields(f.data);
        let cut = cut_point(e.data, f.data);
        let counted = if field_counts_agree(e.data, f.data) {
            Seq::<MismatchView>::empty()
        } else {
            seq![
                at(
                    e,
                    AbiInstabilityView::FieldCountMismatch {
                        expected: fields.len() as int,
                        found: others.len() as int,
                    },
                ),
            ]
        };
        let below = fields_mismatches(e, fields, others, cut, true);
        let of_data = data_mismatches(e, e.data, f.data, true);
        let of_phantom = phantom_mismatches(e, e.phantom_fields, f.phantom_fields);
        lemma_rename_shows(e, fields, others, index, cut);
        assert(struct_mismatches(e, e.data, f.data, fields, true) == counted + below);
        assert(of_data == counted + below);
        lemma_shape_of_concat(counted, below);
        lemma_shape_of_concat(of_data, of_phantom);
        lemma_shape_of_concat(of_data + of_phantom, shallow_mismatches(e, f));
        assert(all == of_data + of_phantom + shallow_mismatches(e, f));
    }
    lemma_fatality_symmetric(expected, found, true);
}

/// A struct is not compatible, in either direction, with the struct that
/// has two of its fields, of different names, in each other's place.
pub proof fn lemma_swapped_fields_fail_both_ways(
    expected: AbiInfoView,
    found: AbiInfoView,
    first: int,
    second: int,
)
    requires
        is_struct(expected.layout.data),
        is_struct(found.layout.data),
        0 <= first < second < struct_fields(expected.layout.data).len(),
        struct_fields(expected.layout.data)[first].name != struct_fields(
            expected.layout.data,
        )[second].name,
        struct_fields(found.layout.data) == struct_fields(expected.layout.data).update(
            first,
            struct_fields(expected.layout.data)[second],
        ).update(second, struct_fields(expected.layout.data)[first]),
    ensures
        has_shape_mismatch(layout_mismatches(expected, found, true)),
        has_shape_mismatch(layout_mismatches(found, expected, true)),
{
    lemma_renamed_field_fails_both_ways(expected, found, first);
}

/// A struct is not compatible, in either direction, with the struct that
/// lacks one of its fields other than the last, when the field after the
/// lacking one has another name: the fields behind it move up.
pub proof fn lemma_removed_field_fails_both_ways(
    expected: AbiInfoView,
    found: AbiInfoView,
    removed: int,
)
    requires
        is_struct(expected.layout.data),
        is_struct(found.layout.data),
        0 <= removed,
        removed + 1 < struct_fields(expected.layout.data).len(),
        struct_fields(expected.layout.data)[removed].name != struct_fields(
            expected.layout.data,
        )[removed + 1].name,
        struct_fields(found.layout.data) == struct_fields(expected.layout.data).remove(removed),
    ensures
        has_shape_mismatch(layout_mismatches(expected, found, true)),
        has_shape_mismatch(layout_mismatches(found, expected, true)),
{
    lemma_renamed_field_fails_both_ways(expected, found, removed);
}

} // verus!
