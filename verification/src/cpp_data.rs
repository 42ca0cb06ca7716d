//! Native declarations and their derived FFI wrapper payloads.
//!
//! A [`CppItem`] is one declaration discovered in the wrapped library; a
//! [`CppFfiItem`] is a wrapper entity derived from such declarations, with
//! a signature compatible across the language boundary. Structural equality
//! of payloads — independent of identifiers or back-links — decides
//! deduplication in the store.

use vstd::prelude::*;

use crate::string_utils::eq_string_vec;

verus! {

/// Hierarchical name of a native declaration.
#[derive(Debug, Clone, Eq, PartialEq, Hash)]
pub struct CppPath {
    /// Parts of the name, outermost first.
    pub parts: Vec<String>,
}

impl View for CppPath {
    type V = Seq<Seq<char>>;

    open spec fn view(&self) -> Seq<Seq<char>> {
        self.parts.deep_view()
    }
}

impl DeepView for CppPath {
    type V = Seq<Seq<char>>;

    open spec fn deep_view(&self) -> Seq<Seq<char>> {
        self.view()
    }
}

impl CppPath {
    /// Creates a new path consisting of `parts`.
    pub fn from_parts(parts: Vec<String>) -> (r: CppPath)
        ensures
            r@ == parts.deep_view(),
    {
        CppPath { parts }
    }

    /// Character-for-character comparison with another path.
    pub fn same_path(&self, other: &CppPath) -> (r: bool)
        ensures
            r == (self@ == other@),
    {
        eq_string_vec(&self.parts, &other.parts)
    }
}

/// Pointwise comparison of two lists of native paths.
pub fn eq_path_vec(a: &Vec<CppPath>, b: &Vec<CppPath>) -> (r: bool)
    ensures
        r == (a.deep_view() == b.deep_view()),
{
    if a.len() != b.len() {
        proof {
            assert(a.deep_view().len() != b.deep_view().len());
        }
        return false;
    }
    let n = a.len();
    let mut i: usize = 0;
    while i < n
        invariant
            i <= n,
            n == a@.len(),
            n == b@.len(),
            forall|j: int| 0 <= j < i ==> a@[j]@ == b@[j]@,
        decreases n - i,
    {
        if !a[i].same_path(&b[i]) {
            proof {
                assert(a.deep_view()[i as int] != b.deep_view()[i as int]);
            }
            return false;
        }
        i = i + 1;
    }
    proof {
        assert(a.deep_view() =~= b.deep_view());
    }
    true
}

/// One declaration discovered in the wrapped library.
#[derive(Debug, Clone, Eq, PartialEq)]
pub enum CppItem {
    /// A namespace.
    Namespace { path: CppPath },
    /// A class, struct, enum or alias declaration.
    TypeDeclaration { path: CppPath },
    /// One value of an enumeration.
    EnumValue { path: CppPath, value: i64 },
    /// A free function or method, with the names of its argument types.
    Function { path: CppPath, arguments: Vec<CppPath> },
    /// A data field of a class.
    ClassField { path: CppPath, field_type: CppPath },
    /// A base-class relation: `derived` inherits from `base`.
    ClassBase { derived: CppPath, base: CppPath, base_index: usize },
    /// The argument-type list of a signal of a class.
    SignalArguments { class_path: CppPath, arguments: Vec<CppPath> },
}

/// Structural equality of two native declarations: the same kind of
/// declaration with the same names and values.
pub open spec fn same_cpp_item(a: CppItem, b: CppItem) -> bool {
    match (a, b) {
        (CppItem::Namespace { path: p1 }, CppItem::Namespace { path: p2 }) => p1@ == p2@,
        (CppItem::TypeDeclaration { path: p1 }, CppItem::TypeDeclaration { path: p2 }) => p1@
            == p2@,
        (
            CppItem::EnumValue { path: p1, value: v1 },
            CppItem::EnumValue { path: p2, value: v2 },
        ) => p1@ == p2@ && v1 == v2,
        (
            CppItem::Function { path: p1, arguments: a1 },
            CppItem::Function { path: p2, arguments: a2 },
        ) => p1@ == p2@ && a1.deep_view() == a2.deep_view(),
        (
            CppItem::ClassField { path: p1, field_type: t1 },
            CppItem::ClassField { path: p2, field_type: t2 },
        ) => p1@ == p2@ && t1@ == t2@,
        (
            CppItem::ClassBase { derived: d1, base: b1, base_index: i1 },
            CppItem::ClassBase { derived: d2, base: b2, base_index: i2 },
        ) => d1@ == d2@ && b1@ == b2@ && i1 == i2,
        (
            CppItem::SignalArguments { class_path: c1, arguments: a1 },
            CppItem::SignalArguments { class_path: c2, arguments: a2 },
        ) => c1@ == c2@ && a1.deep_view() == a2.deep_view(),
        _ => false,
    }
}

pub proof fn lemma_same_cpp_item_reflexive(a: CppItem)
    ensures
        same_cpp_item(a, a),
{
}

impl CppItem {
    /// Returns true if the two declarations are structurally identical.
    pub fn is_same(&self, other: &CppItem) -> (r: bool)
        ensures
            r == same_cpp_item(*self, *other),
    {
        match (self, other) {
            (CppItem::Namespace { path: p1 }, CppItem::Namespace { path: p2 }) => p1.same_path(p2),
            (CppItem::TypeDeclaration { path: p1 }, CppItem::TypeDeclaration { path: p2 }) => p1
                .same_path(p2),
            (
                CppItem::EnumValue { path: p1, value: v1 },
                CppItem::EnumValue { path: p2, value: v2 },
            ) => p1.same_path(p2) && *v1 == *v2,
            (
                CppItem::Function { path: p1, arguments: a1 },
                CppItem::Function { path: p2, arguments: a2 },
            ) => p1.same_path(p2) && eq_path_vec(a1, a2),
            (
                CppItem::ClassField { path: p1, field_type: t1 },
                CppItem::ClassField { path: p2, field_type: t2 },
            ) => p1.same_path(p2) && t1.same_path(t2),
            (
                CppItem::ClassBase { derived: d1, base: b1, base_index: i1 },
                CppItem::ClassBase { derived: d2, base: b2, base_index: i2 },
            ) => d1.same_path(d2) && b1.same_path(b2) && *i1 == *i2,
            (
                CppItem::SignalArguments { class_path: c1, arguments: a1 },
                CppItem::SignalArguments { class_path: c2, arguments: a2 },
            ) => c1.same_path(c2) && eq_path_vec(a1, a2),
            _ => false,
        }
    }
}

/// A plain wrapper function crossing the boundary: only a signature is
/// declared for it.
#[derive(Debug, Clone, Eq, PartialEq)]
pub struct CppFfiFunction {
    /// Name of the wrapped native entity.
    pub path: CppPath,
    /// Names of the wrapper's argument types.
    pub arguments: Vec<CppPath>,
}

/// A slot wrapper that additionally requires emitted helper source.
#[derive(Debug, Clone, Eq, PartialEq)]
pub struct QtSlotWrapper {
    /// Name of the generated wrapper class.
    pub class_path: CppPath,
    /// Names of the argument types of the wrapped signal.
    pub arguments: Vec<CppPath>,
}

/// A derived wrapper entity: either a plain function wrapper or a slot
/// wrapper with additionally-emitted source.
#[derive(Debug, Clone, Eq, PartialEq)]
pub enum CppFfiItem {
    Function(CppFfiFunction),
    QtSlotWrapper(QtSlotWrapper),
}

/// Structural equality of two wrapper payloads.
pub open spec fn same_ffi_item(a: CppFfiItem, b: CppFfiItem) -> bool {
    match (a, b) {
        (CppFfiItem::Function(f1), CppFfiItem::Function(f2)) => f1.path@ == f2.path@
            && f1.arguments.deep_view() == f2.arguments.deep_view(),
        (CppFfiItem::QtSlotWrapper(s1), CppFfiItem::QtSlotWrapper(s2)) => s1.class_path@
            == s2.class_path@ && s1.arguments.deep_view() == s2.arguments.deep_view(),
        _ => false,
    }
}

pub proof fn lemma_same_ffi_item_reflexive(a: CppFfiItem)
    ensures
        same_ffi_item(a, a),
{
}

/// The path under which a wrapper payload is known: a function wrapper's
/// own path, a slot wrapper's class path.
pub open spec fn ffi_item_path(a: CppFfiItem) -> Seq<Seq<char>> {
    match a {
        CppFfiItem::Function(f) => f.path@,
        CppFfiItem::QtSlotWrapper(s) => s.class_path@,
    }
}

impl CppFfiItem {
    /// Returns true if the two wrapper payloads come from the same source:
    /// they are structurally identical.
    pub fn has_same_source(&self, other: &CppFfiItem) -> (r: bool)
        ensures
            r == same_ffi_item(*self, *other),
    {
        match (self, other) {
            (CppFfiItem::Function(f1), CppFfiItem::Function(f2)) => f1.path.same_path(&f2.path)
                && eq_path_vec(&f1.arguments, &f2.arguments),
            (CppFfiItem::QtSlotWrapper(s1), CppFfiItem::QtSlotWrapper(s2)) => s1.class_path
                .same_path(&s2.class_path) && eq_path_vec(&s1.arguments, &s2.arguments),
            _ => false,
        }
    }
}

} // verus!
