//! Tags: small dynamically typed values attached to a type layout.
//!
//! A tag records compatibility facts that the structure of a type cannot
//! express, such as the traits a trait object requires. Two layouts are only
//! compatible when the tag of the expected side is compatible with the tag of
//! the found side, as decided by [`compare`].

use vstd::prelude::*;

verus! {

/// The kind of a [`Tag`], without its contents.
#[derive(Debug, Clone, Copy, PartialEq, Eq, Structural)]
pub enum TagKind {
    Null,
    Bool,
    Int,
    UInt,
    Float,
    Str,
    Arr,
    SetOf,
    MapOf,
}

/// One entry of a map tag.
#[derive(Debug, PartialEq, Eq)]
pub struct KeyValue {
    pub key: String,
    pub value: Tag,
}

/// A dynamically typed value.
///
/// `Float` holds the IEEE-754 bit pattern of a 64-bit float, so that two
/// floats are equal exactly when their bits are.
#[derive(Debug, PartialEq, Eq)]
pub enum Tag {
    Null,
    Bool(bool),
    Int(i64),
    UInt(u64),
    Float(u64),
    Str(String),
    Arr(Vec<Tag>),
    SetOf(Vec<Tag>),
    MapOf(Vec<KeyValue>),
}

/// The mathematical value of a [`KeyValue`].
pub ghost struct KeyValueView {
    pub key: Seq<char>,
    pub value: TagView,
}

/// The mathematical value of a [`Tag`].
pub ghost enum TagView {
    Null,
    Bool(bool),
    Int(int),
    UInt(int),
    Float(int),
    Str(Seq<char>),
    Arr(Seq<TagView>),
    SetOf(Seq<TagView>),
    MapOf(Seq<KeyValueView>),
}

/// The views of the tags in `v`, in order.
pub open spec fn tag_views(v: Seq<Tag>) -> Seq<TagView>
    decreases v,
{
    Seq::new(
        v.len(),
        |i: int|
            if 0 <= i < v.len() {
                v[i].view()
            } else {
                TagView::Null
            },
    )
}

/// The views of the entries in `v`, in order.
pub open spec fn entry_views(v: Seq<KeyValue>) -> Seq<KeyValueView>
    decreases v,
{
    Seq::new(
        v.len(),
        |i: int|
            if 0 <= i < v.len() {
                v[i].view()
            } else {
                KeyValueView { key: Seq::empty(), value: TagView::Null }
            },
    )
}

impl View for KeyValue {
    type V = KeyValueView;

    open spec fn view(&self) -> KeyValueView
        decreases self,
    {
        KeyValueView { key: self.key@, value: self.value.view() }
    }
}

impl View for Tag {
    type V = TagView;

    open spec fn view(&self) -> TagView
        decreases self,
    {
        match self {
            Tag::Null => TagView::Null,
            Tag::Bool(b) => TagView::Bool(*b),
            Tag::Int(i) => TagView::Int(*i as int),
            Tag::UInt(u) => TagView::UInt(*u as int),
            Tag::Float(bits) => TagView::Float(*bits as int),
            Tag::Str(s) => TagView::Str(s@),
            Tag::Arr(v) => TagView::Arr(tag_views(v@)),
            Tag::SetOf(v) => TagView::SetOf(tag_views(v@)),
            Tag::MapOf(v) => TagView::MapOf(entry_views(v@)),
        }
    }
}

impl TagView {
    /// The kind of this value.
    pub open spec fn kind(self) -> TagKind {
        match self {
            TagView::Null => TagKind::Null,
            TagView::Bool(_) => TagKind::Bool,
            TagView::Int(_) => TagKind::Int,
            TagView::UInt(_) => TagKind::UInt,
            TagView::Float(_) => TagKind::Float,
            TagView::Str(_) => TagKind::Str,
            TagView::Arr(_) => TagKind::Arr,
            TagView::SetOf(_) => TagKind::SetOf,
            TagView::MapOf(_) => TagKind::MapOf,
        }
    }
}


impl Tag {
    /// The kind of this tag.
    pub fn kind(&self) -> (k: TagKind)
        ensures
            k == self@.kind(),
    {
        match self {
            Tag::Null => TagKind::Null,
            Tag::Bool(_) => TagKind::Bool,
            Tag::Int(_) => TagKind::Int,
            Tag::UInt(_) => TagKind::UInt,
            Tag::Float(_) => TagKind::Float,
            Tag::Str(_) => TagKind::Str,
            Tag::Arr(_) => TagKind::Arr,
            Tag::SetOf(_) => TagKind::SetOf,
            Tag::MapOf(_) => TagKind::MapOf,
        }
    }

    /// Whether `self` and `other` are the same value.
    pub fn equals(&self, other: &Tag) -> (same: bool)
        ensures
            same == (self@ == other@),
        decreases self,
    {
        match self {
            Tag::Null => match other {
                Tag::Null => true,
                _ => false,
            },
            Tag::Bool(a) => match other {
                Tag::Bool(b) => *a == *b,
                _ => false,
            },
            Tag::Int(a) => match other {
                Tag::Int(b) => *a == *b,
                _ => false,
            },
            Tag::UInt(a) => match other {
                Tag::UInt(b) => *a == *b,
                _ => false,
            },
            Tag::Float(a) => match other {
                Tag::Float(b) => *a == *b,
                _ => false,
            },
            Tag::Str(a) => match other {
                Tag::Str(b) => *a == *b,
                _ => false,
            },
            Tag::Arr(a) => match other {
                Tag::Arr(b) => tags_equal(a, b),
                _ => false,
            },
            Tag::SetOf(a) => match other {
                Tag::SetOf(b) => tags_equal(a, b),
                _ => false,
            },
            Tag::MapOf(a) => match other {
                Tag::MapOf(b) => entries_equal(a, b),
                _ => false,
            },
        }
    }

    /// A copy of this tag.
    pub fn duplicate(&self) -> (copy: Tag)
        ensures
            copy@ == self@,
        decreases self,
    {
        match self {
            Tag::Null => Tag::Null,
            Tag::Bool(b) => Tag::Bool(*b),
            Tag::Int(i) => Tag::Int(*i),
            Tag::UInt(u) => Tag::UInt(*u),
            Tag::Float(bits) => Tag::Float(*bits),
            Tag::Str(s) => Tag::Str(s.clone()),
            Tag::Arr(v) => Tag::Arr(duplicate_tags(v)),
            Tag::SetOf(v) => Tag::SetOf(duplicate_tags(v)),
            Tag::MapOf(v) => Tag::MapOf(duplicate_entries(v)),
        }
    }
}

fn tags_equal(a: &Vec<Tag>, b: &Vec<Tag>) -> (same: bool)
    ensures
        same == (tag_views(a@) == tag_views(b@)),
    decreases a,
{
    if a.len() != b.len() {
        assert(tag_views(a@).len() != tag_views(b@).len());
        return false;
    }
    let mut i: usize = 0;
    while i < a.len()
        invariant
            i <= a.len(),
            a.len() == b.len(),
            forall|j: int| 0 <= j < i ==> a[j]@ == b[j]@,
        decreases a.len() - i,
    {
        if !a[i].equals(&b[i]) {
            assert(tag_views(a@)[i as int] != tag_views(b@)[i as int]);
            return false;
        }
        i += 1;
    }
    assert(tag_views(a@) =~= tag_views(b@));
    true
}

fn entries_equal(a: &Vec<KeyValue>, b: &Vec<KeyValue>) -> (same: bool)
    ensures
        same == (entry_views(a@) == entry_views(b@)),
    decreases a,
{
    if a.len() != b.len() {
        assert(entry_views(a@).len() != entry_views(b@).len());
        return false;
    }
    let mut i: usize = 0;
    while i < a.len()
        invariant
            i <= a.len(),
            a.len() == b.len(),
            forall|j: int| 0 <= j < i ==> a[j]@ == b[j]@,
        decreases a.len() - i,
    {
        let same_key = a[i].key == b[i].key;
        if !same_key || !a[i].value.equals(&b[i].value) {
            assert(entry_views(a@)[i as int] != entry_views(b@)[i as int]);
            return false;
        }
        i += 1;
    }
    assert(entry_views(a@) =~= entry_views(b@));
    true
}

fn duplicate_tags(v: &Vec<Tag>) -> (copy: Vec<Tag>)
    ensures
        tag_views(copy@) == tag_views(v@),
    decreases v,
{
    let mut copy: Vec<Tag> = Vec::new();
    let mut i: usize = 0;
    while i < v.len()
        invariant
            i <= v.len(),
            copy.len() == i,
            forall|j: int| 0 <= j < i ==> copy[j]@ == v[j]@,
        decreases v.len() - i,
    {
        copy.push(v[i].duplicate());
        i += 1;
    }
    assert(tag_views(copy@) =~= tag_views(v@));
    copy
}

fn duplicate_entries(v: &Vec<KeyValue>) -> (copy: Vec<KeyValue>)
    ensures
        entry_views(copy@) == entry_views(v@),
    decreases v,
{
    let mut copy: Vec<KeyValue> = Vec::new();
    let mut i: usize = 0;
    while i < v.len()
        invariant
            i <= v.len(),
            copy.len() == i,
            forall|j: int| 0 <= j < i ==> copy[j]@ == v[j]@,
        decreases v.len() - i,
    {
        copy.push(KeyValue { key: v[i].key.clone(), value: v[i].value.duplicate() });
        i += 1;
    }
    assert(entry_views(copy@) =~= entry_views(v@));
    copy
}


/// One way in which a child tag fails to be compatible with its parent.
#[derive(Debug, PartialEq, Eq)]
#[allow(inconsistent_fields)]
pub enum TagMismatch {
    /// The two tags are of different kinds, and the parent is not null.
    MismatchedKind { expected: TagKind, found: TagKind },
    /// Two scalars of the same kind differ.
    MismatchedValue { expected: Tag, found: Tag },
    /// Two arrays have different lengths.
    MismatchedArrayLength { expected: usize, found: usize },
    /// An element of the parent set is absent from the child set.
    MissingElement { element: Tag },
    /// A key of the parent map is absent from the child map.
    MissingKey { key: String },
}

/// The mathematical value of a [`TagMismatch`].
#[allow(inconsistent_fields)]
pub ghost enum TagMismatchView {
    MismatchedKind { expected: TagKind, found: TagKind },
    MismatchedValue { expected: TagView, found: TagView },
    MismatchedArrayLength { expected: int, found: int },
    MissingElement { element: TagView },
    MissingKey { key: Seq<char> },
}

impl View for TagMismatch {
    type V = TagMismatchView;

    open spec fn view(&self) -> TagMismatchView {
        match self {
            TagMismatch::MismatchedKind { expected, found } => TagMismatchView::MismatchedKind {
                expected: *expected,
                found: *found,
            },
            TagMismatch::MismatchedValue { expected, found } => TagMismatchView::MismatchedValue {
                expected: expected@,
                found: found@,
            },
            TagMismatch::MismatchedArrayLength {
                expected,
                found,
            } => TagMismatchView::MismatchedArrayLength {
                expected: *expected as int,
                found: *found as int,
            },
            TagMismatch::MissingElement { element } => TagMismatchView::MissingElement {
                element: element@,
            },
            TagMismatch::MissingKey { key } => TagMismatchView::MissingKey { key: key@ },
        }
    }
}

impl TagMismatch {
    /// A copy of this mismatch.
    pub fn duplicate(&self) -> (copy: TagMismatch)
        ensures
            copy@ == self@,
    {
        match self {
            TagMismatch::MismatchedKind { expected, found } => TagMismatch::MismatchedKind {
                expected: *expected,
                found: *found,
            },
            TagMismatch::MismatchedValue { expected, found } => TagMismatch::MismatchedValue {
                expected: expected.duplicate(),
                found: found.duplicate(),
            },
            TagMismatch::MismatchedArrayLength {
                expected,
                found,
            } => TagMismatch::MismatchedArrayLength { expected: *expected, found: *found },
            TagMismatch::MissingElement { element } => TagMismatch::MissingElement {
                element: element.duplicate(),
            },
            TagMismatch::MissingKey { key } => TagMismatch::MissingKey { key: key.clone() },
        }
    }
}

/// The views of the mismatches in `v`, in order.
pub open spec fn tag_mismatch_views(v: Seq<TagMismatch>) -> Seq<TagMismatchView> {
    Seq::new(v.len(), |i: int| v[i]@)
}

/// The position of the first entry of `entries` at or after `start` whose key
/// is `key`, if there is one.
pub open spec fn find_key_from(entries: Seq<KeyValueView>, key: Seq<char>, start: int) -> Option<
    int,
>
    decreases entries.len() - start,
{
    if start < 0 || start >= entries.len() {
        None
    } else if entries[start].key == key {
        Some(start)
    } else {
        find_key_from(entries, key, start + 1)
    }
}

/// The position of the first entry of `entries` whose key is `key`.
pub open spec fn find_key(entries: Seq<KeyValueView>, key: Seq<char>) -> Option<int> {
    find_key_from(entries, key, 0)
}

/// Every way in which `child` fails to be compatible with `parent`, in the
/// order of a depth-first walk of `parent`.
///
/// - A null parent is compatible with every child.
/// - A scalar parent needs a child of the same kind and the same value.
/// - An array parent needs an array child of the same length, each element
///   compatible with the element at the same position.
/// - A set parent needs a set child that holds each of its elements.
/// - A map parent needs a map child that holds each of its keys, with a
///   compatible value; the child may hold other keys.
pub open spec fn tag_mismatches(parent: TagView, child: TagView) -> Seq<TagMismatchView>
    decreases parent, 0int,
{
    if parent is Null {
        Seq::empty()
    } else if parent.kind() != child.kind() {
        seq![TagMismatchView::MismatchedKind { expected: parent.kind(), found: child.kind() }]
    } else {
        match parent {
            TagView::Arr(ps) => {
                let cs = child->Arr_0;
                if ps.len() != cs.len() {
                    seq![
                        TagMismatchView::MismatchedArrayLength {
                            expected: ps.len() as int,
                            found: cs.len() as int,
                        },
                    ]
                } else {
                    arr_mismatches(ps, cs, ps.len() as int)
                }
            },
            TagView::SetOf(ps) => set_mismatches(ps, child->SetOf_0, ps.len() as int),
            TagView::MapOf(ps) => map_mismatches(ps, child->MapOf_0, ps.len() as int),
            _ => if parent == child {
                Seq::empty()
            } else {
                seq![TagMismatchView::MismatchedValue { expected: parent, found: child }]
            },
        }
    }
}

/// The mismatches between the first `n` elements of two arrays.
pub open spec fn arr_mismatches(ps: Seq<TagView>, cs: Seq<TagView>, n: int) -> Seq<TagMismatchView>
    decreases ps, n,
{
    if n <= 0 || n > ps.len() || n > cs.len() {
        Seq::empty()
    } else {
        arr_mismatches(ps, cs, n - 1) + tag_mismatches(ps[n - 1], cs[n - 1])
    }
}

/// The mismatches of the first `n` elements of a parent set against a child set.
pub open spec fn set_mismatches(ps: Seq<TagView>, cs: Seq<TagView>, n: int) -> Seq<TagMismatchView>
    decreases n,
{
    if n <= 0 || n > ps.len() {
        Seq::empty()
    } else {
        set_mismatches(ps, cs, n - 1) + (if cs.contains(ps[n - 1]) {
            Seq::empty()
        } else {
            seq![TagMismatchView::MissingElement { element: ps[n - 1] }]
        })
    }
}

/// The mismatches of the first `n` entries of a parent map against a child map.
pub open spec fn map_mismatches(ps: Seq<KeyValueView>, cs: Seq<KeyValueView>, n: int) -> Seq<
    TagMismatchView,
>
    decreases ps, n,
{
    if n <= 0 || n > ps.len() {
        Seq::empty()
    } else {
        map_mismatches(ps, cs, n - 1) + (match find_key(cs, ps[n - 1].key) {
            None => seq![TagMismatchView::MissingKey { key: ps[n - 1].key }],
            Some(at) => tag_mismatches(ps[n - 1].value, cs[at].value),
        })
    }
}


proof fn lemma_push_mismatch(v: Seq<TagMismatch>, m: TagMismatch)
    ensures
        tag_mismatch_views(v.push(m)) == tag_mismatch_views(v) + seq![m@],
{
    assert(tag_mismatch_views(v.push(m)) =~= tag_mismatch_views(v) + seq![m@]);
}

/// Whether `tags` holds a tag equal to `tag`.
fn contains_tag(tags: &Vec<Tag>, tag: &Tag) -> (found: bool)
    ensures
        found == tag_views(tags@).contains(tag@),
{
    let mut i: usize = 0;
    while i < tags.len()
        invariant
            i <= tags.len(),
            forall|j: int| 0 <= j < i ==> tags[j]@ != tag@,
        decreases tags.len() - i,
    {
        if tags[i].equals(tag) {
            assert(tag_views(tags@)[i as int] == tag@);
            return true;
        }
        i += 1;
    }
    false
}

/// The position of the first entry of `entries` whose key is `key`.
fn position_of_key(entries: &Vec<KeyValue>, key: &String) -> (at: Option<usize>)
    ensures
        at matches Some(i) ==> i < entries.len() && find_key(entry_views(entries@), key@) == Some(
            i as int,
        ),
        at is None ==> find_key(entry_views(entries@), key@) is None,
{
    let mut i: usize = 0;
    while i < entries.len()
        invariant
            i <= entries.len(),
            find_key(entry_views(entries@), key@) == find_key_from(
                entry_views(entries@),
                key@,
                i as int,
            ),
        decreases entries.len() - i,
    {
        if entries[i].key == *key {
            return Some(i);
        }
        i += 1;
    }
    None
}

/// Appends to `errs` the mismatches between two arrays of the same length.
#[verifier::loop_isolation(false)]
fn collect_in_array(ps: &Vec<Tag>, cs: &Vec<Tag>, errs: &mut Vec<TagMismatch>)
    requires
        ps.len() == cs.len(),
    ensures
        tag_mismatch_views(final(errs)@) == tag_mismatch_views(old(errs)@) + arr_mismatches(
            tag_views(ps@),
            tag_views(cs@),
            ps.len() as int,
        ),
    decreases ps, 0int,
{
    let ghost before = tag_mismatch_views(errs@);
    assert(before + Seq::<TagMismatchView>::empty() =~= before);
    let mut i: usize = 0;
    while i < ps.len()
        invariant
            i <= ps.len(),
            tag_mismatch_views(errs@) == before + arr_mismatches(
                tag_views(ps@),
                tag_views(cs@),
                i as int,
            ),
        decreases ps.len() - i,
    {
        collect_mismatches(&ps[i], &cs[i], errs);
        i += 1;
        assert(tag_mismatch_views(errs@) =~= before + arr_mismatches(
            tag_views(ps@),
            tag_views(cs@),
            i as int,
        ));
    }
}

/// Appends to `errs` the elements of the parent set `ps` that the child set
/// `cs` lacks.
fn collect_in_set(ps: &Vec<Tag>, cs: &Vec<Tag>, errs: &mut Vec<TagMismatch>)
    ensures
        tag_mismatch_views(final(errs)@) == tag_mismatch_views(old(errs)@) + set_mismatches(
            tag_views(ps@),
            tag_views(cs@),
            ps.len() as int,
        ),
{
    let ghost before = tag_mismatch_views(errs@);
    assert(before + Seq::<TagMismatchView>::empty() =~= before);
    let mut i: usize = 0;
    while i < ps.len()
        invariant
            i <= ps.len(),
            tag_mismatch_views(errs@) == before + set_mismatches(
                tag_views(ps@),
                tag_views(cs@),
                i as int,
            ),
        decreases ps.len() - i,
    {
        let ghost so_far = tag_mismatch_views(errs@);
        if !contains_tag(cs, &ps[i]) {
            let m = TagMismatch::MissingElement { element: ps[i].duplicate() };
            proof {
                lemma_push_mismatch(errs@, m);
            }
            errs.push(m);
        } else {
            assert(so_far + Seq::<TagMismatchView>::empty() =~= so_far);
        }
        i += 1;
        assert(tag_mismatch_views(errs@) =~= before + set_mismatches(
            tag_views(ps@),
            tag_views(cs@),
            i as int,
        ));
    }
}

/// Appends to `errs` the mismatches of the parent map `ps` against the
/// child map `cs`.
#[verifier::loop_isolation(false)]
fn collect_in_map(ps: &Vec<KeyValue>, cs: &Vec<KeyValue>, errs: &mut Vec<TagMismatch>)
    ensures
        tag_mismatch_views(final(errs)@) == tag_mismatch_views(old(errs)@) + map_mismatches(
            entry_views(ps@),
            entry_views(cs@),
            ps.len() as int,
        ),
    decreases ps, 0int,
{
    let ghost before = tag_mismatch_views(errs@);
    assert(before + Seq::<TagMismatchView>::empty() =~= before);
    let mut i: usize = 0;
    while i < ps.len()
        invariant
            i <= ps.len(),
            tag_mismatch_views(errs@) == before + map_mismatches(
                entry_views(ps@),
                entry_views(cs@),
                i as int,
            ),
        decreases ps.len() - i,
    {
        match position_of_key(cs, &ps[i].key) {
            None => {
                let m = TagMismatch::MissingKey { key: ps[i].key.clone() };
                proof {
                    lemma_push_mismatch(errs@, m);
                }
                errs.push(m);
            },
            Some(at) => {
                collect_mismatches(&ps[i].value, &cs[at].value, errs);
            },
        }
        i += 1;
        assert(tag_mismatch_views(errs@) =~= before + map_mismatches(
            entry_views(ps@),
            entry_views(cs@),
            i as int,
        ));
    }
}

/// Appends to `errs` every way in which `child` fails to be compatible with
/// `parent`.
pub fn collect_mismatches(parent: &Tag, child: &Tag, errs: &mut Vec<TagMismatch>)
    ensures
        tag_mismatch_views(final(errs)@) == tag_mismatch_views(old(errs)@) + tag_mismatches(
            parent@,
            child@,
        ),
    decreases parent, 1int,
{
    let ghost before = tag_mismatch_views(errs@);
    assert(before + Seq::<TagMismatchView>::empty() =~= before);
    if let Tag::Null = parent {
        return ;
    }
    let expected = parent.kind();
    let found = child.kind();
    if expected != found {
        proof {
            lemma_push_mismatch(errs@, TagMismatch::MismatchedKind { expected, found });
        }
        errs.push(TagMismatch::MismatchedKind { expected, found });
        return ;
    }
    match parent {
        Tag::Arr(ps) => {
            if let Tag::Arr(cs) = child {
                if ps.len() != cs.len() {
                    let m = TagMismatch::MismatchedArrayLength {
                        expected: ps.len(),
                        found: cs.len(),
                    };
                    proof {
                        lemma_push_mismatch(errs@, m);
                    }
                    errs.push(m);
                } else {
                    collect_in_array(ps, cs, errs);
                }
            }
        },
        Tag::SetOf(ps) => {
            if let Tag::SetOf(cs) = child {
                collect_in_set(ps, cs, errs);
            }
        },
        Tag::MapOf(ps) => {
            if let Tag::MapOf(cs) = child {
                collect_in_map(ps, cs, errs);
            }
        },
        _ => {
            if !parent.equals(child) {
                let m = TagMismatch::MismatchedValue {
                    expected: parent.duplicate(),
                    found: child.duplicate(),
                };
                proof {
                    lemma_push_mismatch(errs@, m);
                }
                errs.push(m);
            }
        },
    }
}

/// Decides whether `child` is compatible with `parent`, and reports every
/// mismatch when it is not. A well-formed tag is compatible with itself.
pub fn compare(parent: &Tag, child: &Tag) -> (res: Result<(), Vec<TagMismatch>>)
    ensures
        res is Ok <==> tag_mismatches(parent@, child@).len() == 0,
        res matches Err(errs) ==> tag_mismatch_views(errs@) == tag_mismatches(parent@, child@),
        parent@ == child@ && parent@.wf() ==> res is Ok,
{
    proof {
        if parent@ == child@ && parent@.wf() {
            lemma_compare_reflexive(parent@);
        }
    }
    let mut errs: Vec<TagMismatch> = Vec::new();
    assert(tag_mismatch_views(errs@) + tag_mismatches(parent@, child@) =~= tag_mismatches(
        parent@,
        child@,
    ));
    collect_mismatches(parent, child, &mut errs);
    if errs.len() == 0 {
        Ok(())
    } else {
        Err(errs)
    }
}


impl TagView {
    /// Whether no map inside this value holds a key twice.
    pub open spec fn wf(self) -> bool
        decreases self,
    {
        match self {
            TagView::Arr(items) => all_wf(items),
            TagView::SetOf(items) => all_wf(items),
            TagView::MapOf(entries) => {
                &&& forall|i: int| 0 <= i < entries.len() ==> (#[trigger] entries[i]).value.wf()
                &&& distinct_keys(entries)
            },
            _ => true,
        }
    }
}

/// Whether every value of `items` is well formed.
pub open spec fn all_wf(items: Seq<TagView>) -> bool
    decreases items,
{
    forall|i: int| 0 <= i < items.len() ==> (#[trigger] items[i]).wf()
}

/// Whether no two entries of `entries` have the same key.
pub open spec fn distinct_keys(entries: Seq<KeyValueView>) -> bool {
    forall|i: int, j: int|
        0 <= i < j < entries.len() ==> (#[trigger] entries[i]).key != (#[trigger] entries[j]).key
}

impl Tag {
    /// Whether no map inside this tag holds a key twice.
    pub fn is_well_formed(&self) -> (ok: bool)
        ensures
            ok == self@.wf(),
        decreases self,
    {
        match self {
            Tag::Arr(items) => all_well_formed(items),
            Tag::SetOf(items) => all_well_formed(items),
            Tag::MapOf(entries) => entries_well_formed(entries),
            _ => true,
        }
    }
}

fn all_well_formed(items: &Vec<Tag>) -> (ok: bool)
    ensures
        ok == all_wf(tag_views(items@)),
    decreases items,
{
    let mut i: usize = 0;
    while i < items.len()
        invariant
            i <= items.len(),
            forall|j: int| 0 <= j < i ==> (#[trigger] tag_views(items@)[j]).wf(),
        decreases items.len() - i,
    {
        if !items[i].is_well_formed() {
            assert(!tag_views(items@)[i as int].wf());
            return false;
        }
        i += 1;
    }
    true
}

fn entries_well_formed(entries: &Vec<KeyValue>) -> (ok: bool)
    ensures
        ok == ((forall|i: int|
            0 <= i < entry_views(entries@).len() ==> (#[trigger] entry_views(
                entries@,
            )[i]).value.wf())
            && distinct_keys(entry_views(entries@))),
    decreases entries,
{
    let ghost views = entry_views(entries@);
    let mut i: usize = 0;
    while i < entries.len()
        invariant
            i <= entries.len(),
            views == entry_views(entries@),
            forall|j: int| 0 <= j < i ==> (#[trigger] views[j]).value.wf(),
            forall|a: int, b: int|
                0 <= a < b < i ==> (#[trigger] views[a]).key != (#[trigger] views[b]).key,
        decreases entries.len() - i,
    {
        if !entries[i].value.is_well_formed() {
            assert(!views[i as int].value.wf());
            return false;
        }
        let mut k: usize = 0;
        while k < i
            invariant
                k <= i < entries.len(),
                views == entry_views(entries@),
                forall|a: int| 0 <= a < k ==> (#[trigger] views[a]).key != views[i as int].key,
            decreases i - k,
        {
            if entries[k].key == entries[i].key {
                assert(views[k as int].key == views[i as int].key);
                return false;
            }
            k += 1;
        }
        i += 1;
    }
    true
}

proof fn lemma_find_distinct_key(entries: Seq<KeyValueView>, at: int, start: int)
    requires
        distinct_keys(entries),
        0 <= start <= at < entries.len(),
    ensures
        find_key_from(entries, entries[at].key, start) == Some(at),
    decreases at - start,
{
    if start < at {
        lemma_find_distinct_key(entries, at, start + 1);
    }
}

proof fn lemma_arr_reflexive(items: Seq<TagView>, n: int)
    requires
        all_wf(items),
        0 <= n <= items.len(),
    ensures
        arr_mismatches(items, items, n) =~= Seq::empty(),
    decreases items, n,
{
    if n > 0 {
        lemma_arr_reflexive(items, n - 1);
        lemma_compare_reflexive(items[n - 1]);
    }
}

proof fn lemma_set_reflexive(items: Seq<TagView>, n: int)
    requires
        0 <= n <= items.len(),
    ensures
        set_mismatches(items, items, n) =~= Seq::empty(),
    decreases n,
{
    if n > 0 {
        lemma_set_reflexive(items, n - 1);
        assert(items.contains(items[n - 1]));
    }
}

proof fn lemma_map_reflexive(entries: Seq<KeyValueView>, n: int)
    requires
        forall|i: int| 0 <= i < entries.len() ==> (#[trigger] entries[i]).value.wf(),
        distinct_keys(entries),
        0 <= n <= entries.len(),
    ensures
        map_mismatches(entries, entries, n) =~= Seq::empty(),
    decreases entries, n,
{
    if n > 0 {
        lemma_map_reflexive(entries, n - 1);
        lemma_find_distinct_key(entries, n - 1, 0);
        lemma_compare_reflexive(entries[n - 1].value);
    }
}

/// Every well-formed tag is compatible with itself.
pub proof fn lemma_compare_reflexive(tag: TagView)
    requires
        tag.wf(),
    ensures
        tag_mismatches(tag, tag) =~= Seq::empty(),
    decreases tag, 0int,
{
    match tag {
        TagView::Arr(items) => lemma_arr_reflexive(items, items.len() as int),
        TagView::SetOf(items) => lemma_set_reflexive(items, items.len() as int),
        TagView::MapOf(entries) => lemma_map_reflexive(entries, entries.len() as int),
        _ => {},
    }
}


proof fn lemma_map_within(parent: Seq<KeyValueView>, child: Seq<KeyValueView>, n: int)
    requires
        0 <= n <= parent.len(),
        distinct_keys(child),
        forall|i: int| 0 <= i < parent.len() ==> (#[trigger] parent[i]).value.wf(),
        forall|i: int| 0 <= i < parent.len() ==> child.contains(#[trigger] parent[i]),
    ensures
        map_mismatches(parent, child, n) =~= Seq::empty(),
    decreases n,
{
    if n > 0 {
        lemma_map_within(parent, child, n - 1);
        let entry = parent[n - 1];
        assert(child.contains(entry));
        let at = choose|at: int| 0 <= at < child.len() && child[at] == entry;
        lemma_find_distinct_key(child, at, 0);
        lemma_compare_reflexive(entry.value);
    }
}

/// A map is compatible with every map that holds all of its entries, and
/// maybe others: the child may say more than the parent asks for.
pub proof fn lemma_superset_map_is_compatible(
    parent: Seq<KeyValueView>,
    child: Seq<KeyValueView>,
)
    requires
        TagView::MapOf(parent).wf(),
        TagView::MapOf(child).wf(),
        forall|i: int| 0 <= i < parent.len() ==> child.contains(#[trigger] parent[i]),
    ensures
        tag_mismatches(TagView::MapOf(parent), TagView::MapOf(child)) =~= Seq::empty(),
{
    lemma_map_within(parent, child, parent.len() as int);
}


proof fn lemma_find_absent_key(entries: Seq<KeyValueView>, key: Seq<char>, start: int)
    requires
        0 <= start,
        forall|j: int| 0 <= j < entries.len() ==> (#[trigger] entries[j]).key != key,
    ensures
        find_key_from(entries, key, start) is None,
    decreases entries.len() - start,
{
    if start < entries.len() {
        lemma_find_absent_key(entries, key, start + 1);
    }
}

proof fn lemma_missing_key_stays(
    parent: Seq<KeyValueView>,
    child: Seq<KeyValueView>,
    at: int,
    n: int,
)
    requires
        0 <= at < n <= parent.len(),
        forall|j: int| 0 <= j < child.len() ==> (#[trigger] child[j]).key != parent[at].key,
    ensures
        map_mismatches(parent, child, n).contains(
            TagMismatchView::MissingKey { key: parent[at].key },
        ),
    decreases n,
{
    let missing = TagMismatchView::MissingKey { key: parent[at].key };
    let before = map_mismatches(parent, child, n - 1);
    let all = map_mismatches(parent, child, n);
    if at == n - 1 {
        lemma_find_absent_key(child, parent[at].key, 0);
        assert(all[before.len() as int] == missing);
    } else {
        lemma_missing_key_stays(parent, child, at, n - 1);
        let k = choose|k: int| 0 <= k < before.len() && before[k] == missing;
        assert(all[k] == missing);
    }
}

/// A map is not compatible with a map that lacks one of its keys: the
/// missing key is reported.
pub proof fn lemma_missing_key_is_reported(
    parent: Seq<KeyValueView>,
    child: Seq<KeyValueView>,
    at: int,
)
    requires
        0 <= at < parent.len(),
        forall|j: int| 0 <= j < child.len() ==> (#[trigger] child[j]).key != parent[at].key,
    ensures
        tag_mismatches(TagView::MapOf(parent), TagView::MapOf(child)).contains(
            TagMismatchView::MissingKey { key: parent[at].key },
        ),
{
    lemma_missing_key_stays(parent, child, at, parent.len() as int);
}

} // verus!
