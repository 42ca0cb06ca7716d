//! The hierarchical naming model and the type-conversion algebra.
//!
//! A [`RustPath`] is a non-empty sequence of name segments: a single segment
//! names a built-in type, a longer path starts with the crate (package) name.
//! A [`RustType`] describes a type crossing the foreign-function boundary,
//! and a [`RustFinalType`] couples the boundary-side type with the type
//! exposed to users together with the conversion that relates them.

use vstd::prelude::*;

use crate::string_utils::{
    clone_string_vec, join_parts, join_with, opt_string_view, snake_of, split_double_colon,
    split_path, str_eq, to_snake_case,
};

verus! {

/// Hierarchical identifier: a vector of name parts. For a regular name the
/// first part is the name of the crate, the last part is the entity's own
/// name, and intermediate parts are module names. Built-in types are
/// represented by a single part.
#[derive(Debug, Clone, Eq, PartialEq, Hash, PartialOrd, Ord)]
pub struct RustPath {
    /// Parts of the name.
    pub parts: Vec<String>,
}

impl View for RustPath {
    type V = Seq<Seq<char>>;

    open spec fn view(&self) -> Seq<Seq<char>> {
        self.parts.deep_view()
    }
}

/// A path is well formed when it has at least one part.
pub open spec fn path_wf(p: Seq<Seq<char>>) -> bool {
    p.len() > 0
}

/// `other` lies strictly inside `self`: it has more parts and starts with
/// all of `self`'s parts.
pub open spec fn includes_spec(p: Seq<Seq<char>>, other: Seq<Seq<char>>) -> bool {
    other.len() > p.len() && other.take(p.len() as int) == p
}

impl RustPath {
    /// Creates a new path consisting of `parts`.
    pub fn from_parts(parts: Vec<String>) -> (r: RustPath)
        requires
            parts@.len() > 0,
        ensures
            r@ == parts.deep_view(),
            path_wf(r@),
    {
        RustPath { parts }
    }

    /// Parses a `::`-separated name. The text must split into non-empty
    /// segments; no further syntax of the segments is checked.
    pub fn from_str_unchecked(str: &str) -> (r: RustPath)
        requires
            forall|j: int|
                0 <= j < split_path(str@).len() ==> (#[trigger] split_path(str@)[j]).len() > 0,
        ensures
            r@ == split_path(str@),
            path_wf(r@),
    {
        let parts = split_double_colon(str);
        RustPath { parts }
    }

    /// An element-for-element copy of this path.
    pub fn clone_path(&self) -> (r: RustPath)
        ensures
            r@ == self@,
            r.parts@.len() == self.parts@.len(),
            forall|i: int| 0 <= i < self.parts@.len() ==> r.parts@[i] == self.parts@[i],
    {
        RustPath { parts: clone_string_vec(&self.parts) }
    }

    /// Returns the crate name of this path, or `None` if the path does not
    /// carry one (a built-in type of a single part).
    pub fn crate_name(&self) -> (r: Option<&str>)
        requires
            path_wf(self@),
        ensures
            self@.len() > 1 ==> (r matches Some(s) && s@ == self@[0]),
            self@.len() == 1 ==> r is None,
    {
        if self.parts.len() > 1 {
            Some(self.parts[0].as_str())
        } else {
            None
        }
    }

    /// Returns the last component of the path.
    pub fn last(&self) -> (r: &str)
        requires
            path_wf(self@),
        ensures
            r@ == self@.last(),
    {
        self.parts[self.parts.len() - 1].as_str()
    }

    /// Returns this path extended by one further segment.
    pub fn join(&self, name: &str) -> (r: RustPath)
        ensures
            r@ == self@.push(name@),
    {
        let mut parts = clone_string_vec(&self.parts);
        parts.push(String::from_str(name));
        proof {
            assert(parts.deep_view() =~= self@.push(name@));
        }
        RustPath { parts }
    }

    /// Returns true if `other` is nested anywhere within `self`.
    pub fn includes(&self, other: &RustPath) -> (r: bool)
        ensures
            r == includes_spec(self@, other@),
    {
        if other.parts.len() <= self.parts.len() {
            return false;
        }
        let n = self.parts.len();
        let mut i: usize = 0;
        while i < n
            invariant
                i <= n,
                n == self.parts@.len(),
                n < other.parts@.len(),
                forall|j: int| 0 <= j < i ==> self@[j] == other@[j],
            decreases n - i,
        {
            if !str_eq(self.parts[i].as_str(), other.parts[i].as_str()) {
                proof {
                    assert(other@.take(n as int)[i as int] != self@[i as int]);
                }
                return false;
            }
            i = i + 1;
        }
        proof {
            assert(other@.take(n as int) =~= self@);
        }
        true
    }

    /// Returns true if `other` is a direct child of `self`.
    pub fn includes_directly(&self, other: &RustPath) -> (r: bool)
        ensures
            r == (includes_spec(self@, other@) && other@.len() == self@.len() + 1),
    {
        let r = self.includes(other);
        r && other.parts.len() == self.parts.len() + 1
    }

    /// Returns true if `self` is a direct child of `parent`.
    pub fn is_child_of(&self, parent: &RustPath) -> (r: bool)
        ensures
            r == (includes_spec(parent@, self@) && self@.len() == parent@.len() + 1),
    {
        parent.includes_directly(self)
    }

    /// The path shortened by its last segment, or `None` for a path of a
    /// single part.
    pub fn parent(&self) -> (r: Option<RustPath>)
        requires
            path_wf(self@),
        ensures
            self@.len() > 1 ==> (r matches Some(p) && p@ == self@.drop_last() && path_wf(p@)),
            self@.len() == 1 ==> r is None,
    {
        if self.parts.len() > 1 {
            let mut parts = clone_string_vec(&self.parts);
            parts.pop();
            proof {
                assert(parts.deep_view() =~= self@.drop_last());
            }
            Some(RustPath { parts })
        } else {
            None
        }
    }
}

/// What `full_name` renders: relative to the crate root when the path's
/// crate equals the given one, bare for a single part, and fully qualified
/// otherwise.
pub open spec fn full_name_spec(p: Seq<Seq<char>>, current_crate: Option<Seq<char>>) -> Seq<char> {
    if current_crate matches Some(c) && p.len() > 1 && p[0] == c {
        "crate::"@ + join_with(p.skip(1), "::"@)
    } else if p.len() == 1 {
        p[0]
    } else {
        "::"@ + join_with(p, "::"@)
    }
}

pub open spec fn opt_str_view(o: Option<&str>) -> Option<Seq<char>> {
    match o {
        Option::Some(s) => Option::Some(s@),
        Option::None => Option::None,
    }
}

impl RustPath {
    /// Returns the formatted name for use within `current_crate`; with
    /// `None` the name is formatted for use outside the crate it belongs
    /// to.
    pub fn full_name(&self, current_crate: Option<&str>) -> (r: String)
        requires
            path_wf(self@),
        ensures
            r@ == full_name_spec(self@, opt_str_view(current_crate)),
    {
        if let Some(cur) = current_crate {
            if self.parts.len() > 1 && str_eq(self.parts[0].as_str(), cur) {
                let mut out = String::from_str("crate::");
                let tail = join_parts(&self.parts, 1, "::");
                out.append(tail.as_str());
                return out;
            }
        }
        if self.parts.len() == 1 {
            let mut out = String::new();
            out.append(self.parts[0].as_str());
            return out;
        }
        let mut out = String::from_str("::");
        let tail = join_parts(&self.parts, 0, "::");
        out.append(tail.as_str());
        proof {
            assert(self@.skip(0) =~= self@);
        }
        out
    }
}

/// The two indirection shapes: a raw pointer (`*const T` / `*mut T`) or a
/// borrow (`&T` / `&mut T`) that may carry a named lifetime.
#[derive(Debug, Clone, Eq, PartialEq, Hash, PartialOrd, Ord)]
pub enum RustPointerLikeTypeKind {
    Pointer,
    Reference { lifetime: Option<String> },
}

/// Two indirection kinds are the same shape with the same lifetime text.
pub open spec fn same_kind(a: RustPointerLikeTypeKind, b: RustPointerLikeTypeKind) -> bool {
    match (a, b) {
        (RustPointerLikeTypeKind::Pointer, RustPointerLikeTypeKind::Pointer) => true,
        (
            RustPointerLikeTypeKind::Reference { lifetime: l1 },
            RustPointerLikeTypeKind::Reference { lifetime: l2 },
        ) => opt_string_view(l1) == opt_string_view(l2),
        _ => false,
    }
}

impl RustPointerLikeTypeKind {
    pub fn is_pointer(&self) -> (r: bool)
        ensures
            r == (self matches RustPointerLikeTypeKind::Pointer),
    {
        match *self {
            RustPointerLikeTypeKind::Pointer => true,
            _ => false,
        }
    }

    pub fn is_ref(&self) -> (r: bool)
        ensures
            r == (self matches RustPointerLikeTypeKind::Reference { .. }),
    {
        match *self {
            RustPointerLikeTypeKind::Reference { .. } => true,
            _ => false,
        }
    }
}

/// A named base type together with its generic arguments, if any.
#[derive(Debug, Eq, PartialEq, Hash, PartialOrd, Ord)]
pub struct RustCommonType {
    /// Full name of the base type.
    pub path: RustPath,
    /// Generic arguments, if any.
    pub generic_arguments: Option<Vec<RustType>>,
}

/// A type as it appears on either side of the boundary.
#[derive(Debug, Eq, PartialEq, Hash, PartialOrd, Ord)]
pub enum RustType {
    /// Unit type `()`, standing where the native side has no value.
    Unit,
    /// A numeric, enum or struct type without indirection.
    Common(RustCommonType),
    /// A function pointer type.
    FunctionPointer {
        /// Return type of the function.
        return_type: Box<RustType>,
        /// Argument types of the function.
        arguments: Vec<RustType>,
    },
    /// One level of indirection over a pointee type.
    PointerLike { kind: RustPointerLikeTypeKind, is_const: bool, target: Box<RustType> },
}

/// Structural equality of two types: the same shape with the same names,
/// independent of which string objects hold the names.
pub open spec fn same_type(a: RustType, b: RustType) -> bool
    decreases a, 1int,
{
    match (a, b) {
        (RustType::Unit, RustType::Unit) => true,
        (RustType::Common(c1), RustType::Common(c2)) => c1.path@ == c2.path@ && match (
            c1.generic_arguments,
            c2.generic_arguments,
        ) {
            (Option::None, Option::None) => true,
            (Option::Some(x), Option::Some(y)) => same_type_list(x@, y@),
            _ => false,
        },
        (
            RustType::FunctionPointer { return_type: r1, arguments: a1 },
            RustType::FunctionPointer { return_type: r2, arguments: a2 },
        ) => same_type(*r1, *r2) && same_type_list(a1@, a2@),
        (
            RustType::PointerLike { kind: k1, is_const: c1, target: t1 },
            RustType::PointerLike { kind: k2, is_const: c2, target: t2 },
        ) => same_kind(k1, k2) && c1 == c2 && same_type(*t1, *t2),
        _ => false,
    }
}

/// Pointwise structural equality of two lists of types.
pub open spec fn same_type_list(x: Seq<RustType>, y: Seq<RustType>) -> bool
    decreases x, 0int,
{
    x.len() == y.len() && (x.len() == 0 || (same_type_list(x.drop_last(), y.drop_last())
        && same_type(x.last(), y.last())))
}

pub proof fn lemma_same_type_reflexive(a: RustType)
    ensures
        same_type(a, a),
    decreases a, 1int,
{
    match a {
        RustType::Unit => {},
        RustType::Common(c) => {
            match c.generic_arguments {
                Option::Some(x) => {
                    lemma_same_type_list_reflexive(x@);
                },
                Option::None => {},
            }
        },
        RustType::FunctionPointer { return_type, arguments } => {
            lemma_same_type_reflexive(*return_type);
            lemma_same_type_list_reflexive(arguments@);
        },
        RustType::PointerLike { kind, is_const, target } => {
            lemma_same_type_reflexive(*target);
        },
    }
}

pub proof fn lemma_same_type_list_reflexive(x: Seq<RustType>)
    ensures
        same_type_list(x, x),
    decreases x, 0int,
{
    if x.len() > 0 {
        lemma_same_type_list_reflexive(x.drop_last());
        lemma_same_type_reflexive(x.last());
    }
}

/// An element-for-element copy of a list of types.
fn clone_type_vec(v: &Vec<RustType>) -> (r: Vec<RustType>)
    ensures
        r@.len() == v@.len(),
        same_type_list(r@, v@),
    decreases v@, 0int,
{
    let mut out: Vec<RustType> = Vec::new();
    let mut i: usize = 0;
    proof {
        assert(same_type_list(out@, v@.take(0)));
    }
    while i < v.len()
        invariant
            i <= v@.len(),
            out@.len() == i,
            same_type_list(out@, v@.take(i as int)),
        decreases v@.len() - i,
    {
        let ghost old_out = out@;
        out.push(clone_type(&v[i]));
        i = i + 1;
        proof {
            assert(out@.drop_last() =~= old_out);
            assert(v@.take(i as int).drop_last() =~= v@.take(i as int - 1));
            assert(v@.take(i as int).last() == v@[i as int - 1]);
            assert(same_type_list(out@, v@.take(i as int)));
        }
    }
    proof {
        assert(v@.take(v@.len() as int) =~= v@);
    }
    out
}

/// A structural copy of a type.
pub(crate) fn clone_type(t: &RustType) -> (r: RustType)
    ensures
        same_type(r, *t),
    decreases *t, 1int,
{
    match t {
        RustType::Unit => RustType::Unit,
        RustType::Common(c) => {
            let args = match &c.generic_arguments {
                Some(v) => Some(clone_type_vec(v)),
                None => None,
            };
            RustType::Common(RustCommonType { path: c.path.clone_path(), generic_arguments: args })
        },
        RustType::FunctionPointer { return_type, arguments } => RustType::FunctionPointer {
            return_type: Box::new(clone_type(return_type)),
            arguments: clone_type_vec(arguments),
        },
        RustType::PointerLike { kind, is_const, target } => {
            let k = match kind {
                RustPointerLikeTypeKind::Pointer => RustPointerLikeTypeKind::Pointer,
                RustPointerLikeTypeKind::Reference { lifetime } => {
                    let l = match lifetime {
                        Some(s) => Some(s.clone()),
                        None => None,
                    };
                    RustPointerLikeTypeKind::Reference { lifetime: l }
                },
            };
            RustType::PointerLike {
                kind: k,
                is_const: *is_const,
                target: Box::new(clone_type(target)),
            }
        },
    }
}

/// A type is unsafe when it is, or anywhere contains, a raw-pointer
/// indirection; a borrow is not itself unsafe but passes on the unsafety of
/// its pointee.
pub open spec fn is_unsafe_spec(t: RustType) -> bool
    decreases t, 1int,
{
    match t {
        RustType::Unit => false,
        RustType::Common(c) => match c.generic_arguments {
            Option::Some(args) => any_unsafe(args@),
            Option::None => false,
        },
        RustType::FunctionPointer { return_type, arguments } => is_unsafe_spec(*return_type)
            || any_unsafe(arguments@),
        RustType::PointerLike { kind, is_const, target } => (kind
            matches RustPointerLikeTypeKind::Pointer) || is_unsafe_spec(*target),
    }
}

/// Some type of the list is unsafe.
pub open spec fn any_unsafe(x: Seq<RustType>) -> bool
    decreases x, 0int,
{
    x.len() > 0 && (any_unsafe(x.drop_last()) || is_unsafe_spec(x.last()))
}

/// A list holds an unsafe type exactly when one of its elements is unsafe.
pub proof fn lemma_any_unsafe_exists(x: Seq<RustType>)
    ensures
        any_unsafe(x) <==> exists|i: int| 0 <= i < x.len() && is_unsafe_spec(x[i]),
    decreases x,
{
    if x.len() > 0 {
        lemma_any_unsafe_exists(x.drop_last());
        if any_unsafe(x.drop_last()) {
            let i = choose|i: int| 0 <= i < x.drop_last().len() && is_unsafe_spec(
                x.drop_last()[i],
            );
            assert(x[i] == x.drop_last()[i]);
        }
        if exists|i: int| 0 <= i < x.len() && is_unsafe_spec(x[i]) {
            let i = choose|i: int| 0 <= i < x.len() && is_unsafe_spec(x[i]);
            if i < x.len() - 1 {
                assert(x.drop_last()[i] == x[i]);
            }
        }
    }
}

fn any_unsafe_vec(v: &Vec<RustType>) -> (r: bool)
    ensures
        r == any_unsafe(v@),
    decreases v@, 0int,
{
    let mut found = false;
    let mut i: usize = 0;
    proof {
        assert(!any_unsafe(v@.take(0)));
    }
    while i < v.len()
        invariant
            i <= v@.len(),
            found == any_unsafe(v@.take(i as int)),
        decreases v@.len() - i,
    {
        if v[i].is_unsafe_argument() {
            found = true;
        }
        i = i + 1;
        proof {
            assert(v@.take(i as int).drop_last() =~= v@.take(i as int - 1));
            assert(v@.take(i as int).last() == v@[i as int - 1]);
        }
    }
    proof {
        assert(v@.take(v@.len() as int) =~= v@);
    }
    found
}

impl RustType {
    /// Returns true if this type is a borrow.
    pub fn is_ref(&self) -> (r: bool)
        ensures
            r == (self matches RustType::PointerLike {
                kind: RustPointerLikeTypeKind::Reference { .. },
                ..
            }),
    {
        match self {
            RustType::PointerLike { kind, .. } => kind.is_ref(),
            _ => false,
        }
    }

    /// Returns true if a function taking an argument of this type should be
    /// marked unsafe: the type is, or contains, a raw pointer.
    pub fn is_unsafe_argument(&self) -> (r: bool)
        ensures
            r == is_unsafe_spec(*self),
        decreases *self, 1int,
    {
        match self {
            RustType::PointerLike { kind, target, .. } => {
                kind.is_pointer() || target.is_unsafe_argument()
            },
            RustType::Common(c) => {
                match &c.generic_arguments {
                    Some(args) => any_unsafe_vec(args),
                    None => false,
                }
            },
            RustType::Unit => false,
            RustType::FunctionPointer { return_type, arguments } => {
                return_type.is_unsafe_argument() || any_unsafe_vec(arguments)
            },
        }
    }

    /// Returns a copy of this type with `new_lifetime` put on its borrow,
    /// if its outermost indirection is one; any other type is copied
    /// unchanged.
    pub fn with_lifetime(&self, new_lifetime: String) -> (r: RustType)
        ensures
            self matches RustType::PointerLike {
                kind: RustPointerLikeTypeKind::Reference { .. },
                is_const,
                target,
            } ==> (r matches RustType::PointerLike {
                kind: RustPointerLikeTypeKind::Reference { lifetime: Some(l) },
                is_const: c2,
                target: t2,
            } && l@ == new_lifetime@ && c2 == *is_const && same_type(*t2, **target)),
            !(self matches RustType::PointerLike {
                kind: RustPointerLikeTypeKind::Reference { .. },
                ..
            }) ==> same_type(r, *self),
    {
        proof {
            lemma_same_type_reflexive(*self);
        }
        match self {
            RustType::PointerLike {
                kind: RustPointerLikeTypeKind::Reference { .. },
                is_const,
                target,
            } => RustType::PointerLike {
                kind: RustPointerLikeTypeKind::Reference { lifetime: Some(new_lifetime) },
                is_const: *is_const,
                target: Box::new(clone_type(target)),
            },
            _ => clone_type(self),
        }
    }

    /// Returns the name of the lifetime on this type's borrow, or `None`
    /// when there is none.
    pub fn lifetime(&self) -> (r: Option<&str>)
        ensures
            self matches RustType::PointerLike {
                kind: RustPointerLikeTypeKind::Reference { lifetime: Some(l) },
                ..
            } ==> (r matches Some(s) && s@ == l@),
            !(self matches RustType::PointerLike {
                kind: RustPointerLikeTypeKind::Reference { lifetime: Some(_) },
                ..
            }) ==> r is None,
    {
        if let RustType::PointerLike { kind, .. } = self {
            if let RustPointerLikeTypeKind::Reference { lifetime } = kind {
                if let Some(l) = lifetime {
                    return Some(l.as_str());
                }
            }
        }
        None
    }

    /// Returns true if the indirection that is applied last has a const
    /// qualifier.
    pub fn is_const_pointer_like(&self) -> (r: Result<bool, ConversionError>)
        ensures
            self matches RustType::PointerLike { is_const, .. } ==> r == Ok::<
                bool,
                ConversionError,
            >(*is_const),
            !(self matches RustType::PointerLike { .. }) ==> r == Err::<bool, ConversionError>(
                ConversionError::NotPointerLike,
            ),
    {
        if let RustType::PointerLike { is_const, .. } = self {
            Ok(*is_const)
        } else {
            Err(ConversionError::NotPointerLike)
        }
    }

    /// Returns true if the first indirection of the type is const.
    pub fn is_const(&self) -> (r: Result<bool, ConversionError>)
        ensures
            self matches RustType::PointerLike { is_const, .. } ==> r == Ok::<
                bool,
                ConversionError,
            >(*is_const),
            !(self matches RustType::PointerLike { .. }) ==> r == Err::<bool, ConversionError>(
                ConversionError::NotPointerLike,
            ),
    {
        match self {
            RustType::PointerLike { is_const, .. } => Ok(*is_const),
            _ => Err(ConversionError::NotPointerLike),
        }
    }

    /// Sets the const qualifier of an indirection type; any other type is
    /// refused and left unchanged.
    pub fn set_const(&mut self, value: bool) -> (r: Result<(), ConversionError>)
        ensures
            *old(self) matches RustType::PointerLike { kind, is_const: _, target } ==> (r is Ok
                && *final(self) == (RustType::PointerLike { kind, is_const: value, target })),
            !(*old(self) matches RustType::PointerLike { .. }) ==> (r == Err::<
                (),
                ConversionError,
            >(ConversionError::NotPointerLike) && *final(self) == *old(self)),
    {
        match self {
            RustType::PointerLike { is_const, .. } => {
                *is_const = value;
                Ok(())
            },
            _ => Err(ConversionError::NotPointerLike),
        }
    }

    /// Returns a copy of the pointee of an indirection type.
    pub fn pointer_like_to_target(&self) -> (r: Result<RustType, ConversionError>)
        ensures
            self matches RustType::PointerLike { target, .. } ==> (r matches Ok(t) && same_type(
                t,
                **target,
            )),
            !(self matches RustType::PointerLike { .. }) ==> r == Err::<RustType, ConversionError>(
                ConversionError::NotPointerLike,
            ),
    {
        if let RustType::PointerLike { target, .. } = self {
            Ok(clone_type(target))
        } else {
            Err(ConversionError::NotPointerLike)
        }
    }

    /// Turns a raw-pointer indirection into a borrow (with no lifetime yet)
    /// of the given constness over the same pointee.
    pub fn ptr_to_ref(&self, is_const1: bool) -> (r: Result<Self, ConversionError>)
        ensures
            !(self matches RustType::PointerLike { .. }) ==> r == Err::<RustType, ConversionError>(
                ConversionError::NotPointerLike,
            ),
            self matches RustType::PointerLike { kind, .. } && !(kind
                matches RustPointerLikeTypeKind::Pointer) ==> r == Err::<
                RustType,
                ConversionError,
            >(ConversionError::NotPointer),
            self matches RustType::PointerLike {
                kind: RustPointerLikeTypeKind::Pointer,
                target,
                ..
            } ==> (r matches Ok(t) && t matches RustType::PointerLike {
                kind: RustPointerLikeTypeKind::Reference { lifetime: None },
                is_const: c2,
                target: t2,
            } && c2 == is_const1 && same_type(*t2, **target)),
    {
        match self {
            RustType::PointerLike { kind, target, .. } => {
                if !kind.is_pointer() {
                    return Err(ConversionError::NotPointer);
                }
                Ok(
                    RustType::PointerLike {
                        kind: RustPointerLikeTypeKind::Reference { lifetime: None },
                        is_const: is_const1,
                        target: Box::new(clone_type(target)),
                    },
                )
            },
            _ => Err(ConversionError::NotPointerLike),
        }
    }

    /// Views this type as a named base type with arguments.
    pub fn as_common(&self) -> (r: Result<&RustCommonType, ConversionError>)
        ensures
            self matches RustType::Common(c) ==> (r matches Ok(p) && *p == c),
            !(self matches RustType::Common(_)) ==> r == Err::<&RustCommonType, ConversionError>(
                ConversionError::NotCommon,
            ),
    {
        if let RustType::Common(r) = self {
            Ok(r)
        } else {
            Err(ConversionError::NotCommon)
        }
    }
}

/// A type is well formed when every named base type in it has a non-empty
/// path.
pub open spec fn type_wf(t: RustType) -> bool
    decreases t, 1int,
{
    match t {
        RustType::Unit => true,
        RustType::Common(c) => path_wf(c.path@) && match c.generic_arguments {
            Option::Some(args) => type_list_wf(args@),
            Option::None => true,
        },
        RustType::FunctionPointer { return_type, arguments } => type_wf(*return_type)
            && type_list_wf(arguments@),
        RustType::PointerLike { kind, is_const, target } => type_wf(*target),
    }
}

pub open spec fn type_list_wf(x: Seq<RustType>) -> bool
    decreases x, 0int,
{
    x.len() == 0 || (type_list_wf(x.drop_last()) && type_wf(x.last()))
}

pub proof fn lemma_type_list_wf_index(x: Seq<RustType>, i: int)
    requires
        type_list_wf(x),
        0 <= i < x.len(),
    ensures
        type_wf(x[i]),
    decreases x.len(),
{
    if i < x.len() - 1 {
        lemma_type_list_wf_index(x.drop_last(), i);
        assert(x.drop_last()[i] == x[i]);
    }
}

/// The length of the longest shared leading run of two part lists.
pub open spec fn common_prefix_len(a: Seq<Seq<char>>, b: Seq<Seq<char>>) -> int
    decreases a.len(),
{
    if a.len() == 0 || b.len() == 0 || a[0] != b[0] {
        0
    } else {
        1 + common_prefix_len(a.skip(1), b.skip(1))
    }
}

pub proof fn lemma_common_prefix_len_is(a: Seq<Seq<char>>, b: Seq<Seq<char>>, k: int)
    requires
        0 <= k <= a.len(),
        k <= b.len(),
        forall|i: int| 0 <= i < k ==> a[i] == b[i],
        k == a.len() || k == b.len() || a[k] != b[k],
    ensures
        common_prefix_len(a, b) == k,
    decreases k,
{
    if k == 0 {
    } else {
        assert(a[0] == b[0]);
        let a1 = a.skip(1);
        let b1 = b.skip(1);
        assert(forall|i: int| 0 <= i < k - 1 ==> a1[i] == b1[i]) by {
            assert(forall|i: int| 0 <= i < k - 1 ==> a1[i] == a[i + 1] && b1[i] == b[i + 1]);
        }
        assert(k - 1 == a1.len() || k - 1 == b1.len() || a1[k - 1] != b1[k - 1]);
        lemma_common_prefix_len_is(a1, b1, k - 1);
    }
}

/// The list with every immediately-repeated element collapsed to one.
pub open spec fn dedup_adjacent(xs: Seq<Seq<char>>) -> Seq<Seq<char>>
    decreases xs.len(),
{
    if xs.len() == 0 {
        Seq::empty()
    } else {
        let p = dedup_adjacent(xs.drop_last());
        if p.len() > 0 && p.last() == xs.last() {
            p
        } else {
            p.push(xs.last())
        }
    }
}

/// The snake-case folding of the part list from position `k` onward.
pub open spec fn snaked_tail(parts: Seq<Seq<char>>, k: int) -> Seq<Seq<char>> {
    parts.skip(k).map_values(|p: Seq<char>| snake_of(p))
}

/// The caption of a named base type: a single part is snake-cased; a path
/// of the standard namespace keeps only its snake-cased last part; any
/// other path drops the leading parts shared with the context, snake-cases
/// the rest collapsing immediate repeats, and falls back to the bare last
/// part when nothing remains.
pub open spec fn common_caption_base(parts: Seq<Seq<char>>, context: Seq<Seq<char>>) -> Seq<char> {
    if parts.len() == 1 {
        snake_of(parts[0])
    } else if parts[0] == "std"@ {
        snake_of(parts.last())
    } else {
        let k = common_prefix_len(parts, context);
        let g = dedup_adjacent(snaked_tail(parts, k));
        if g.len() == 0 {
            parts.last()
        } else {
            join_with(g, seq!['_'])
        }
    }
}

/// The caption of a type within a naming context: an identifier-safe label
/// used to disambiguate synthesized names. An indirection appends constness
/// and pointer or reference markers to its pointee's caption; a named type
/// is captioned by `common_caption_base` with the captions of its generic
/// arguments appended; function pointers get a fixed short label.
pub open spec fn caption_spec(t: RustType, context: Seq<Seq<char>>) -> Seq<char>
    decreases t, 1int,
{
    match t {
        RustType::Unit => "unit"@,
        RustType::PointerLike { kind, is_const, target } => caption_spec(*target, context) + (
        if is_const {
            "_const"@
        } else {
            Seq::empty()
        }) + (match kind {
            RustPointerLikeTypeKind::Pointer => "_ptr"@,
            RustPointerLikeTypeKind::Reference { .. } => "_ref"@,
        }),
        RustType::Common(c) => {
            let base = common_caption_base(c.path@, context);
            match c.generic_arguments {
                Option::Some(args) => base + seq!['_'] + join_with(
                    caption_list(args@, context),
                    seq!['_'],
                ),
                Option::None => base,
            }
        },
        RustType::FunctionPointer { .. } => "fn"@,
    }
}

/// The captions of a list of types, in order.
pub open spec fn caption_list(x: Seq<RustType>, context: Seq<Seq<char>>) -> Seq<Seq<char>>
    decreases x, 0int,
{
    if x.len() == 0 {
        Seq::empty()
    } else {
        caption_list(x.drop_last(), context).push(caption_spec(x.last(), context))
    }
}

impl RustType {
    /// Returns the alphanumeric description of this type used for name
    /// disambiguation.
    pub fn caption(&self, context: &RustPath) -> (r: String)
        requires
            type_wf(*self),
        ensures
            r@ == caption_spec(*self, context@),
        decreases *self, 1int,
    {
        match self {
            RustType::Unit => {
                let r = String::from_str("unit");
                r
            },
            RustType::FunctionPointer { .. } => {
                let r = String::from_str("fn");
                r
            },
            RustType::PointerLike { kind, is_const, target } => {
                let mut s = target.caption(context);
                let ghost base = s@;
                if *is_const {
                    s.append("_const");
                }
                match kind {
                    RustPointerLikeTypeKind::Pointer => s.append("_ptr"),
                    RustPointerLikeTypeKind::Reference { .. } => s.append("_ref"),
                }
                proof {
                    assert(s@ =~= caption_spec(*self, context@));
                }
                s
            },
            RustType::Common(c) => {
                let base = common_caption_base_exec(&c.path, context);
                match &c.generic_arguments {
                    None => base,
                    Some(args) => {
                        let mut caps: Vec<String> = Vec::new();
                        let mut j: usize = 0;
                        proof {
                            assert(caps.deep_view() =~= caption_list(args@.take(0), context@));
                        }
                        while j < args.len()
                            invariant
                                j <= args@.len(),
                                type_list_wf(args@),
                                type_wf(*self),
                                *self matches RustType::Common(cc) && cc.generic_arguments
                                    matches Some(aa) && aa@ == args@,
                                caps.deep_view() == caption_list(args@.take(j as int), context@),
                            decreases args@.len() - j,
                        {
                            proof {
                                lemma_type_list_wf_index(args@, j as int);
                            }
                            let ghost old_caps = caps.deep_view();
                            caps.push(args[j].caption(context));
                            j = j + 1;
                            proof {
                                assert(caps.deep_view() =~= old_caps.push(caps@.last()@));
                                assert(args@.take(j as int).drop_last() =~= args@.take(
                                    j as int - 1,
                                ));
                                assert(args@.take(j as int).last() == args@[j as int - 1]);
                            }
                        }
                        proof {
                            assert(args@.take(args@.len() as int) =~= args@);
                        }
                        let tail = join_parts(&caps, 0, "_");
                        let mut out = base;
                        out.append("_");
                        out.append(tail.as_str());
                        proof {
                            reveal_strlit("_");
                            assert("_"@ =~= seq!['_']);
                            assert(caps.deep_view().skip(0) =~= caps.deep_view());
                            assert(out@ =~= caption_spec(*self, context@));
                        }
                        out
                    },
                }
            },
        }
    }
}

/// The caption of a named base type's path within a context.
fn common_caption_base_exec(path: &RustPath, context: &RustPath) -> (r: String)
    requires
        path_wf(path@),
    ensures
        r@ == common_caption_base(path@, context@),
{
    let parts = &path.parts;
    let n = parts.len();
    if n == 1 {
        return to_snake_case(parts[0].as_str());
    }
    if str_eq(parts[0].as_str(), "std") {
        return to_snake_case(parts[n - 1].as_str());
    }
    let ctx = &context.parts;
    let m = ctx.len();
    let mut k: usize = 0;
    while k < n && k < m && str_eq(parts[k].as_str(), ctx[k].as_str())
        invariant
            k <= n,
            k <= m,
            n == parts@.len(),
            m == ctx@.len(),
            parts.deep_view() == path@,
            ctx.deep_view() == context@,
            forall|i: int| 0 <= i < k ==> path@[i] == context@[i],
        decreases n - k,
    {
        k = k + 1;
        proof {
            assert(path@[k as int - 1] == parts@[k as int - 1]@);
            assert(context@[k as int - 1] == ctx@[k as int - 1]@);
        }
    }
    proof {
        lemma_common_prefix_len_is(path@, context@, k as int);
    }
    let ghost st = snaked_tail(path@, k as int);
    proof {
        assert(st.len() == n - k);
        assert(forall|i: int|
            0 <= i < st.len() ==> st[i] == snake_of(path@[k + i])) by {
            assert(forall|i: int|
                0 <= i < st.len() ==> path@.skip(k as int)[i] == path@[k + i]);
        }
    }
    let mut good: Vec<String> = Vec::new();
    let mut i: usize = k;
    proof {
        assert(st.take(0) =~= Seq::<Seq<char>>::empty());
        assert(good.deep_view() =~= dedup_adjacent(st.take(0)));
    }
    while i < n
        invariant
            k <= i <= n,
            n == parts@.len(),
            parts.deep_view() == path@,
            st == snaked_tail(path@, k as int),
            st.len() == n - k,
            forall|j: int| 0 <= j < st.len() ==> st[j] == snake_of(path@[k + j]),
            good.deep_view() == dedup_adjacent(st.take(i - k)),
        decreases n - i,
    {
        let snake = to_snake_case(parts[i].as_str());
        let ghost snake_v = snake@;
        let ghost old_good = good.deep_view();
        proof {
            assert(path@[i as int] == parts@[i as int]@);
            assert(snake_v == st[i - k]);
        }
        let mut push_it = true;
        if good.len() > 0 {
            if str_eq(good[good.len() - 1].as_str(), snake.as_str()) {
                push_it = false;
                proof {
                    assert(old_good.last() == good@[good@.len() - 1]@);
                }
            }
        }
        if push_it {
            good.push(snake);
        }
        i = i + 1;
        proof {
            let q = i - k;
            assert(st.take(q).drop_last() =~= st.take(q - 1));
            assert(st.take(q).last() == st[q - 1]);
            assert(st[q - 1] == snake_v);
            if !push_it {
                assert(good.deep_view() == old_good);
                assert(old_good.len() > 0 && old_good.last() == snake_v);
            } else {
                assert(good@.last()@ == snake_v);
                assert(good.deep_view() =~= old_good.push(snake_v));
                assert(!(old_good.len() > 0 && old_good.last() == snake_v));
            }
            assert(good.deep_view() == dedup_adjacent(st.take(q)));
        }
    }
    proof {
        assert(st.take(n - k as int) =~= st);
    }
    if good.len() == 0 {
        let mut out = String::new();
        out.append(parts[n - 1].as_str());
        out
    } else {
        let out = join_parts(&good, 0, "_");
        proof {
            reveal_strlit("_");
            assert("_"@ =~= seq!['_']);
            assert(good.deep_view().skip(0) =~= good.deep_view());
        }
        out
    }
}

/// Caption determinism: structurally identical types captioned in the same
/// context get identical captions, whatever string objects hold their
/// names.
pub proof fn lemma_caption_deterministic(a: RustType, b: RustType, context: Seq<Seq<char>>)
    requires
        same_type(a, b),
    ensures
        caption_spec(a, context) == caption_spec(b, context),
    decreases a, 1int,
{
    match (a, b) {
        (RustType::Common(c1), RustType::Common(c2)) => {
            match (c1.generic_arguments, c2.generic_arguments) {
                (Option::Some(x), Option::Some(y)) => {
                    lemma_caption_list_deterministic(x@, y@, context);
                },
                _ => {},
            }
        },
        (
            RustType::PointerLike { kind: k1, is_const: cc1, target: t1 },
            RustType::PointerLike { kind: k2, is_const: cc2, target: t2 },
        ) => {
            lemma_caption_deterministic(*t1, *t2, context);
        },
        _ => {},
    }
}

pub proof fn lemma_caption_list_deterministic(x: Seq<RustType>, y: Seq<RustType>, context: Seq<
    Seq<char>,
>)
    requires
        same_type_list(x, y),
    ensures
        caption_list(x, context) == caption_list(y, context),
    decreases x, 0int,
{
    if x.len() > 0 {
        lemma_caption_list_deterministic(x.drop_last(), y.drop_last(), context);
        lemma_caption_deterministic(x.last(), y.last(), context);
    }
}

/// A raw-pointer indirection is unsafe whatever its pointee.
pub proof fn lemma_pointer_is_unsafe(is_const: bool, target: Box<RustType>)
    ensures
        is_unsafe_spec(
            RustType::PointerLike { kind: RustPointerLikeTypeKind::Pointer, is_const, target },
        ),
{
}

/// A borrow indirection is not itself unsafe: it is exactly as unsafe as
/// its pointee.
pub proof fn lemma_borrow_propagates_unsafety(
    kind: RustPointerLikeTypeKind,
    is_const: bool,
    target: Box<RustType>,
)
    requires
        kind matches RustPointerLikeTypeKind::Reference { .. },
    ensures
        is_unsafe_spec(RustType::PointerLike { kind, is_const, target }) == is_unsafe_spec(
            *target,
        ),
{
}

/// Why a conversion or shape inspection was refused: the type was not an
/// indirection at all, not a raw pointer, not a named base type, or the
/// triple had already been converted (its descriptor was no longer
/// `Identity`).
#[derive(Debug, Clone, Copy, PartialEq, Eq, Structural)]
pub enum ConversionError {
    NotPointerLike,
    NotPointer,
    NotCommon,
    AlreadyConverted,
}

/// Conversion from the public surface type to the corresponding FFI type.
#[derive(Debug, Clone, Copy, PartialEq, Eq, Structural)]
pub enum RustToFfiTypeConversion {
    /// Types are the same.
    Identity,
    /// `&T` to `*const T` (or similar mutable types).
    RefToPtr,
    /// An optional pointer wrapper to `*const T` (or similar mutable types).
    OptionPtrWrapperToPtr,
    /// `T` to `*const T` (or similar mutable types).
    ValueToPtr,
    /// An owning box to `*mut T`.
    CppBoxToPtr,
    /// A pointer wrapper to `*const T` (or similar mutable types).
    PtrWrapperToPtr,
    /// A flags value to a C integer.
    QFlagsToUInt,
}

/// A completely processed type: the type used in FFI functions, the type
/// used in the public surface, and the conversion between them. Conversion
/// operations never alter the FFI side.
#[derive(Debug, PartialEq, Eq)]
pub struct RustFinalType {
    /// Type used in FFI functions.
    pub ffi_type: RustType,
    /// Type used in the public surface.
    pub api_type: RustType,
    /// Conversion from the surface type to the FFI type.
    pub api_to_ffi_conversion: RustToFfiTypeConversion,
}

impl RustFinalType {
    /// Converts the surface type from pointer to borrow and records the
    /// conversion. `is_const1` gives the constness of the created borrow.
    /// A triple already converted, or whose surface type is not a raw
    /// pointer, is refused.
    pub fn ptr_to_ref(&self, is_const1: bool) -> (r: Result<RustFinalType, ConversionError>)
        ensures
            self.api_to_ffi_conversion != RustToFfiTypeConversion::Identity ==> r is Err,
            !(self.api_type matches RustType::PointerLike { .. }) ==> r == Err::<
                RustFinalType,
                ConversionError,
            >(ConversionError::NotPointerLike),
            self.api_type matches RustType::PointerLike { kind, .. } && !(kind
                matches RustPointerLikeTypeKind::Pointer) ==> r == Err::<
                RustFinalType,
                ConversionError,
            >(ConversionError::NotPointer),
            self.api_type matches RustType::PointerLike {
                kind: RustPointerLikeTypeKind::Pointer,
                ..
            } && self.api_to_ffi_conversion != RustToFfiTypeConversion::Identity ==> r == Err::<
                RustFinalType,
                ConversionError,
            >(ConversionError::AlreadyConverted),
            self.api_type matches RustType::PointerLike {
                kind: RustPointerLikeTypeKind::Pointer,
                target,
                ..
            } ==> (self.api_to_ffi_conversion == RustToFfiTypeConversion::Identity ==> ({
                &&& r matches Ok(f)
                &&& same_type(f.ffi_type, self.ffi_type)
                &&& f.api_to_ffi_conversion == RustToFfiTypeConversion::RefToPtr
                &&& f.api_type matches RustType::PointerLike {
                    kind: RustPointerLikeTypeKind::Reference { lifetime: None },
                    is_const: c2,
                    target: t2,
                }
                &&& c2 == is_const1
                &&& same_type(*t2, *target)
            })),
    {
        match self.api_type.ptr_to_ref(is_const1) {
            Err(e) => Err(e),
            Ok(api) => {
                if self.api_to_ffi_conversion == RustToFfiTypeConversion::Identity {
                    Ok(
                        RustFinalType {
                            ffi_type: clone_type(&self.ffi_type),
                            api_type: api,
                            api_to_ffi_conversion: RustToFfiTypeConversion::RefToPtr,
                        },
                    )
                } else {
                    Err(ConversionError::AlreadyConverted)
                }
            },
        }
    }

    /// Converts the surface type from pointer to its pointee value and
    /// records the conversion. A triple already converted, or whose
    /// surface type is not a raw pointer, is refused.
    pub fn ptr_to_value(&self) -> (r: Result<RustFinalType, ConversionError>)
        ensures
            self.api_to_ffi_conversion != RustToFfiTypeConversion::Identity ==> r is Err,
            !(self.api_type matches RustType::PointerLike { .. }) ==> r == Err::<
                RustFinalType,
                ConversionError,
            >(ConversionError::NotPointerLike),
            self.api_type matches RustType::PointerLike { kind, .. } && !(kind
                matches RustPointerLikeTypeKind::Pointer) ==> r == Err::<
                RustFinalType,
                ConversionError,
            >(ConversionError::NotPointer),
            self.api_type matches RustType::PointerLike {
                kind: RustPointerLikeTypeKind::Pointer,
                ..
            } && self.api_to_ffi_conversion != RustToFfiTypeConversion::Identity ==> r == Err::<
                RustFinalType,
                ConversionError,
            >(ConversionError::AlreadyConverted),
            self.api_type matches RustType::PointerLike {
                kind: RustPointerLikeTypeKind::Pointer,
                target,
                ..
            } ==> (self.api_to_ffi_conversion == RustToFfiTypeConversion::Identity ==> ({
                &&& r matches Ok(f)
                &&& same_type(f.ffi_type, self.ffi_type)
                &&& f.api_to_ffi_conversion == RustToFfiTypeConversion::ValueToPtr
                &&& same_type(f.api_type, *target)
            })),
    {
        match &self.api_type {
            RustType::PointerLike { kind, target, .. } => {
                if !kind.is_pointer() {
                    return Err(ConversionError::NotPointer);
                }
                if self.api_to_ffi_conversion != RustToFfiTypeConversion::Identity {
                    return Err(ConversionError::AlreadyConverted);
                }
                Ok(
                    RustFinalType {
                        ffi_type: clone_type(&self.ffi_type),
                        api_type: clone_type(target),
                        api_to_ffi_conversion: RustToFfiTypeConversion::ValueToPtr,
                    },
                )
            },
            _ => Err(ConversionError::NotPointerLike),
        }
    }
}

} // verus!

