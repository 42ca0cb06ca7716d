//! The versioned, identifier-addressed store of native declarations,
//! derived FFI wrappers and generated surface items.
//!
//! Identifiers are allocated from a single counter that only ever grows,
//! so every identifier is unique and strictly greater than all earlier
//! ones, even across clears. Items are stored in identifier order, which
//! lets lookup run as a binary search. Inserting a structurally-identical
//! payload is never an error: the store keeps the existing item and counts
//! the insertion as ignored.

use vstd::pervasive::VecAdditionalExecFns;
use vstd::prelude::*;

use crate::cpp_checks::{checks_wf, env_index, has_env, record_model, CheckEntryView, CppChecks,
    LibraryTarget, RecordOutcome};
use crate::cpp_data::{ffi_item_path, same_cpp_item, same_ffi_item, CppFfiItem, CppItem, CppPath};
use crate::rust_type::{path_wf, RustPath};
use crate::string_utils::{clone_string_vec, dec_digits, ends_with_digit, is_ascii_digit_char,
    lemma_concat_cancel_left, lemma_dec_digits_injective, opt_string_view, str_eq,
    u64_to_dec_string};
use vstd::set_lib::{lemma_int_range, set_int_range};

verus! {

/// What a store operation can report: a lookup found nothing, an inserted
/// surface item referenced an ancestor path not present in the store, or
/// an item's package-name segment did not match the store's package.
#[derive(Debug, Clone, Copy, PartialEq, Eq, Structural)]
pub enum DatabaseError {
    NotFound,
    PathError,
    PackageMismatch,
}

/// Identifier of a native declaration in the store.
#[derive(Debug, Clone, Copy, PartialEq, Eq, PartialOrd, Ord, Hash, Structural)]
pub struct CppItemId(pub u32);

impl CppItemId {
    pub fn from_u32(value: u32) -> (r: Self)
        ensures
            r.0 == value,
    {
        CppItemId(value)
    }
}

/// Identifier of a derived FFI wrapper in the store.
#[derive(Debug, Clone, Copy, PartialEq, Eq, PartialOrd, Ord, Hash, Structural)]
pub struct FfiItemId(pub u32);

impl FfiItemId {
    pub fn from_u32(value: u32) -> (r: Self)
        ensures
            r.0 == value,
    {
        FfiItemId(value)
    }
}

/// A stored native declaration: its identifier, its payload, and an
/// optional back-link to the FFI item it was synthesized from (an index
/// into the FFI collection, used only for targeted invalidation).
#[derive(Debug, Clone, Eq, PartialEq)]
pub struct CppDatabaseItem {
    pub id: CppItemId,
    pub item: CppItem,
    pub source_ffi_item: Option<usize>,
}

/// A stored FFI wrapper: its identifier, its payload, its compatibility
/// ledger, and a flag marking whether surface generation has consumed it.
#[derive(Debug, Clone, Eq, PartialEq)]
pub struct CppFfiDatabaseItem {
    pub id: FfiItemId,
    pub item: CppFfiItem,
    pub checks: CppChecks,
    pub is_rust_processed: bool,
}

impl CppFfiDatabaseItem {
    /// The path under which this wrapper is known.
    pub fn path(&self) -> (r: &CppPath)
        ensures
            r@ == ffi_item_path(self.item),
    {
        match &self.item {
            CppFfiItem::Function(f) => &f.path,
            CppFfiItem::QtSlotWrapper(s) => &s.class_path,
        }
    }

    /// Returns true if this wrapper additionally requires emitted helper
    /// source.
    pub fn is_source_item(&self) -> (r: bool)
        ensures
            r == (self.item matches CppFfiItem::QtSlotWrapper(_)),
    {
        match &self.item {
            CppFfiItem::Function(_) => false,
            CppFfiItem::QtSlotWrapper(_) => true,
        }
    }
}

/// The kinds of generated surface items.
#[derive(Debug, Clone, Copy, PartialEq, Eq, Hash, Structural)]
pub enum RustItemKind {
    /// The root module of the generated package.
    CrateRoot,
    /// A module below the root.
    Module,
    /// A generated type.
    Struct,
    /// A generated function.
    Function,
}

/// A generated surface item, placed at a path in the target namespace.
#[derive(Debug, Clone, Eq, PartialEq)]
pub struct RustDatabaseItem {
    pub kind: RustItemKind,
    pub path: RustPath,
}

/// Structural equality of two surface items.
pub open spec fn same_rust_item(a: RustDatabaseItem, b: RustDatabaseItem) -> bool {
    a.kind == b.kind && a.path@ == b.path@
}

impl RustDatabaseItem {
    /// The path where this item is placed.
    pub fn path(&self) -> (r: &RustPath)
        ensures
            r@ == self.path@,
    {
        &self.path
    }

    /// Returns true if this item is the package root.
    pub fn is_crate_root(&self) -> (r: bool)
        ensures
            r == (self.kind matches RustItemKind::CrateRoot),
    {
        match self.kind {
            RustItemKind::CrateRoot => true,
            _ => false,
        }
    }

    /// Returns true if this item is placed directly below `path`.
    pub fn is_child_of(&self, path: &RustPath) -> (r: bool)
        ensures
            r == (crate::rust_type::includes_spec(path@, self.path@) && self.path@.len() == path@.len()
                + 1),
    {
        self.path.is_child_of(path)
    }

    /// Returns true if the two items are structurally identical.
    pub fn is_same(&self, other: &RustDatabaseItem) -> (r: bool)
        ensures
            r == same_rust_item(*self, *other),
    {
        let kind_same = match (self.kind, other.kind) {
            (RustItemKind::CrateRoot, RustItemKind::CrateRoot) => true,
            (RustItemKind::Module, RustItemKind::Module) => true,
            (RustItemKind::Struct, RustItemKind::Struct) => true,
            (RustItemKind::Function, RustItemKind::Function) => true,
            _ => false,
        };
        kind_same && crate::string_utils::eq_string_vec(&self.path.parts, &other.path.parts)
    }
}

/// Identifiers in a native-item collection grow strictly and stay below
/// the allocation counter.
pub open spec fn cpp_items_wf(s: Seq<CppDatabaseItem>, next_id: u32) -> bool {
    &&& forall|i: int, j: int| 0 <= i < j < s.len() ==> s[i].id.0 < s[j].id.0
    &&& forall|i: int| 0 <= i < s.len() ==> (#[trigger] s[i]).id.0 < next_id
}

/// Identifiers in an FFI collection grow strictly, stay below the
/// allocation counter, and every ledger is well formed.
pub open spec fn ffi_items_wf(s: Seq<CppFfiDatabaseItem>, next_id: u32) -> bool {
    &&& forall|i: int, j: int| 0 <= i < j < s.len() ==> s[i].id.0 < s[j].id.0
    &&& forall|i: int| 0 <= i < s.len() ==> (#[trigger] s[i]).id.0 < next_id
    &&& forall|i: int| 0 <= i < s.len() ==> checks_wf((#[trigger] s[i]).checks@)
}

/// Accumulation counters for stage reporting.
#[derive(Debug, Clone, Copy, PartialEq, Eq, Structural)]
pub struct Counters {
    pub items_added: u32,
    pub items_ignored: u32,
}

impl Default for Counters {
    /// Both counters at zero.
    fn default() -> (r: Counters)
        ensures
            r.items_added == 0,
            r.items_ignored == 0,
    {
        Counters { items_added: 0, items_ignored: 0 }
    }
}

/// The persisted state of a store: package name and version, the three
/// item collections, the registered environments, and the allocation
/// counter.
#[derive(Debug)]
pub struct Data {
    crate_name: String,
    crate_version: String,
    cpp_items: Vec<CppDatabaseItem>,
    ffi_items: Vec<CppFfiDatabaseItem>,
    rust_items: Vec<RustDatabaseItem>,
    targets: Vec<LibraryTarget>,
    next_id: u32,
}

impl Data {
    pub closed spec fn spec_crate_name(&self) -> Seq<char> {
        self.crate_name@
    }

    pub closed spec fn spec_crate_version(&self) -> Seq<char> {
        self.crate_version@
    }

    pub closed spec fn spec_cpp_items(&self) -> Seq<CppDatabaseItem> {
        self.cpp_items@
    }

    pub closed spec fn spec_ffi_items(&self) -> Seq<CppFfiDatabaseItem> {
        self.ffi_items@
    }

    pub closed spec fn spec_rust_items(&self) -> Seq<RustDatabaseItem> {
        self.rust_items@
    }

    pub closed spec fn spec_targets(&self) -> Seq<(Seq<char>, Option<Seq<char>>)> {
        self.targets.deep_view()
    }

    pub closed spec fn spec_next_id(&self) -> u32 {
        self.next_id
    }

    /// Identifier order and bounds hold in both identifier-carrying
    /// collections.
    pub open spec fn wf(&self) -> bool {
        &&& cpp_items_wf(self.spec_cpp_items(), self.spec_next_id())
        &&& ffi_items_wf(self.spec_ffi_items(), self.spec_next_id())
    }

    /// The package name this data belongs to.
    pub fn crate_name(&self) -> (r: &str)
        ensures
            r@ == self.spec_crate_name(),
    {
        self.crate_name.as_str()
    }

    /// The package version.
    pub fn crate_version(&self) -> (r: &str)
        ensures
            r@ == self.spec_crate_version(),
    {
        self.crate_version.as_str()
    }

    /// The stored native declarations.
    pub fn cpp_items(&self) -> (r: &Vec<CppDatabaseItem>)
        ensures
            r@ == self.spec_cpp_items(),
    {
        &self.cpp_items
    }

    /// The stored FFI wrappers.
    pub fn ffi_items(&self) -> (r: &Vec<CppFfiDatabaseItem>)
        ensures
            r@ == self.spec_ffi_items(),
    {
        &self.ffi_items
    }

    /// The stored surface items.
    pub fn rust_items(&self) -> (r: &Vec<RustDatabaseItem>)
        ensures
            r@ == self.spec_rust_items(),
    {
        &self.rust_items
    }

    /// The registered environments.
    pub fn targets(&self) -> (r: &Vec<LibraryTarget>)
        ensures
            r.deep_view() == self.spec_targets(),
    {
        &self.targets
    }

    /// The allocation counter: the next identifier to hand out.
    pub fn next_id(&self) -> (r: u32)
        ensures
            r == self.spec_next_id(),
    {
        self.next_id
    }

    /// Assembles persisted state back into a `Data` value, validating the
    /// identifier invariants; returns `None` when they do not hold.
    pub fn try_new(
        crate_name: String,
        crate_version: String,
        cpp_items: Vec<CppDatabaseItem>,
        ffi_items: Vec<CppFfiDatabaseItem>,
        rust_items: Vec<RustDatabaseItem>,
        targets: Vec<LibraryTarget>,
        next_id: u32,
    ) -> (r: Option<Data>)
        ensures
            r matches Some(d) ==> ({
                &&& d.wf()
                &&& d.spec_crate_name() == crate_name@
                &&& d.spec_crate_version() == crate_version@
                &&& d.spec_cpp_items() == cpp_items@
                &&& d.spec_ffi_items() == ffi_items@
                &&& d.spec_rust_items() == rust_items@
                &&& d.spec_targets() == targets.deep_view()
                &&& d.spec_next_id() == next_id
            }),
            r is None ==> !(cpp_items_wf(cpp_items@, next_id) && ffi_items_wf(
                ffi_items@,
                next_id,
            )),
    {
        let mut i: usize = 0;
        let n = cpp_items.len();
        while i < n
            invariant
                i <= n,
                n == cpp_items@.len(),
                forall|a: int, b: int| 0 <= a < b < i ==> cpp_items@[a].id.0 < cpp_items@[b].id.0,
                forall|a: int| 0 <= a < i ==> (#[trigger] cpp_items@[a]).id.0 < next_id,
            decreases n - i,
        {
            if cpp_items[i].id.0 >= next_id {
                return None;
            }
            if i > 0 && cpp_items[i - 1].id.0 >= cpp_items[i].id.0 {
                return None;
            }
            proof {
                assert forall|a: int| 0 <= a < i implies cpp_items@[a].id.0
                    < cpp_items@[i as int].id.0 by {
                    if a < i as int - 1 {
                        assert(cpp_items@[a].id.0 < cpp_items@[i as int - 1].id.0);
                    }
                }
            }
            i = i + 1;
        }
        let mut j: usize = 0;
        let m = ffi_items.len();
        while j < m
            invariant
                j <= m,
                m == ffi_items@.len(),
                forall|a: int, b: int| 0 <= a < b < j ==> ffi_items@[a].id.0 < ffi_items@[b].id.0,
                forall|a: int| 0 <= a < j ==> (#[trigger] ffi_items@[a]).id.0 < next_id,
                forall|a: int| 0 <= a < j ==> checks_wf((#[trigger] ffi_items@[a]).checks@),
            decreases m - j,
        {
            if ffi_items[j].id.0 >= next_id {
                return None;
            }
            if j > 0 && ffi_items[j - 1].id.0 >= ffi_items[j].id.0 {
                return None;
            }
            if !ffi_items[j].checks.is_well_formed() {
                return None;
            }
            proof {
                assert forall|a: int| 0 <= a < j implies ffi_items@[a].id.0
                    < ffi_items@[j as int].id.0 by {
                    if a < j as int - 1 {
                        assert(ffi_items@[a].id.0 < ffi_items@[j as int - 1].id.0);
                    }
                }
            }
            j = j + 1;
        }
        Some(
            Data {
                crate_name,
                crate_version,
                cpp_items,
                ffi_items,
                rust_items,
                targets,
                next_id,
            },
        )
    }
}

/// Some stored native item is structurally identical to the payload.
pub open spec fn cpp_contains_same(s: Seq<CppDatabaseItem>, item: CppItem) -> bool {
    exists|i: int| 0 <= i < s.len() && same_cpp_item((#[trigger] s[i]).item, item)
}

/// Some stored FFI item is structurally identical to the payload.
pub open spec fn ffi_contains_same(s: Seq<CppFfiDatabaseItem>, item: CppFfiItem) -> bool {
    exists|i: int| 0 <= i < s.len() && same_ffi_item((#[trigger] s[i]).item, item)
}

/// Some stored surface item is structurally identical to the item.
pub open spec fn rust_contains_same(s: Seq<RustDatabaseItem>, item: RustDatabaseItem) -> bool {
    exists|i: int| 0 <= i < s.len() && same_rust_item(#[trigger] s[i], item)
}

/// Some stored surface item occupies the given path.
pub open spec fn rust_occupied(s: Seq<RustDatabaseItem>, p: Seq<Seq<char>>) -> bool {
    exists|i: int| 0 <= i < s.len() && (#[trigger] s[i]).path@ == p
}

/// The native collection restricted to parser-sourced items: those without
/// a back-link to an FFI item.
pub open spec fn parser_sourced_only(s: Seq<CppDatabaseItem>) -> Seq<CppDatabaseItem>
    decreases s.len(),
{
    if s.len() == 0 {
        Seq::empty()
    } else {
        let p = parser_sourced_only(s.drop_last());
        if s.last().source_ffi_item is None {
            p.push(s.last())
        } else {
            p
        }
    }
}

/// Dropping items from a well-formed native collection keeps it well
/// formed; no retained identifier exceeds the last one retained.
pub proof fn lemma_parser_sourced_wf(s: Seq<CppDatabaseItem>, next_id: u32)
    requires
        cpp_items_wf(s, next_id),
    ensures
        cpp_items_wf(parser_sourced_only(s), next_id),
        parser_sourced_only(s).len() > 0 ==> s.len() > 0 && parser_sourced_only(s).last().id.0
            <= s.last().id.0,
    decreases s.len(),
{
    if s.len() > 0 {
        lemma_parser_sourced_wf(s.drop_last(), next_id);
        let p = parser_sourced_only(s.drop_last());
        assert(forall|i: int| 0 <= i < s.drop_last().len() ==> s.drop_last()[i] == s[i]);
        if s.last().source_ffi_item is None {
            assert(forall|i: int|
                0 <= i < p.len() ==> #[trigger] p[i].id.0 < s.last().id.0) by {
                if p.len() > 0 {
                    assert(s.drop_last().len() > 0);
                    assert(s.drop_last().last().id.0 < s.last().id.0);
                }
            }
        }
    }
}

/// A surface item may be placed: either as the package root (a single
/// segment equal to the store's package name), or at a path of at least
/// two segments whose package segment matches and whose every strict
/// ancestor of two or more segments is already stored.
pub open spec fn rust_item_placeable(
    s: Seq<RustDatabaseItem>,
    crate_name: Seq<char>,
    item: RustDatabaseItem,
) -> bool {
    if item.kind is CrateRoot {
        item.path@.len() == 1 && item.path@[0] == crate_name
    } else {
        &&& item.path@.len() >= 2
        &&& item.path@[0] == crate_name
        &&& forall|k: int| 2 <= k < item.path@.len() ==> rust_occupied(s, item.path@.take(k))
    }
}


/// The separator put before a numeric suffix: an underscore when the base
/// segment already ends in a digit, so that the suffix is not read as part
/// of an existing run of digits.
pub open spec fn suffix_sep(base: Seq<char>) -> Seq<char> {
    if base.len() > 0 && is_ascii_digit_char(base.last()) {
        seq!['_']
    } else {
        Seq::empty()
    }
}

/// The last segment of the `m`-th probe: the original last segment, the
/// separator, and `m` in decimal.
pub open spec fn probe_last(p: Seq<Seq<char>>, m: int) -> Seq<char> {
    (p.last() + suffix_sep(p.last())) + dec_digits(m)
}

/// The `m`-th probe path: the original path with only its last segment
/// replaced.
pub open spec fn probe_path(p: Seq<Seq<char>>, m: int) -> Seq<Seq<char>> {
    p.update(p.len() - 1, probe_last(p, m))
}

/// Distinct probe numbers give distinct probe paths.
pub proof fn lemma_probe_injective(p: Seq<Seq<char>>, m1: int, m2: int)
    requires
        path_wf(p),
        m1 >= 0,
        m2 >= 0,
        probe_path(p, m1) == probe_path(p, m2),
    ensures
        m1 == m2,
{
    assert(probe_path(p, m1)[p.len() - 1] == probe_last(p, m1));
    assert(probe_path(p, m2)[p.len() - 1] == probe_last(p, m2));
    lemma_concat_cancel_left(p.last() + suffix_sep(p.last()), dec_digits(m1), dec_digits(m2));
    lemma_dec_digits_injective(m1, m2);
}

/// A path that some stored item occupies differs from every path that none
/// occupies; in particular a freshly synthesized unique path differs from
/// every path inserted before it.
pub proof fn lemma_unoccupied_differs(s: Seq<RustDatabaseItem>, a: Seq<Seq<char>>, b: Seq<
    Seq<char>,
>)
    requires
        rust_occupied(s, a),
        !rust_occupied(s, b),
    ensures
        a != b,
{
}

/// In a well-formed store every stored identifier lies strictly below the
/// allocation counter; a fresh identifier equals the counter when handed
/// out, so it is strictly greater than every identifier stored or ever
/// stored before: clears empty the collections but never lower the
/// counter.
pub proof fn lemma_identifier_monotonic(d: Data)
    requires
        d.wf(),
    ensures
        forall|i: int|
            0 <= i < d.spec_cpp_items().len() ==> (#[trigger] d.spec_cpp_items()[i]).id.0
                < d.spec_next_id(),
        forall|i: int|
            0 <= i < d.spec_ffi_items().len() ==> (#[trigger] d.spec_ffi_items()[i]).id.0
                < d.spec_next_id(),
{
}

/// Dedup idempotence: once an item with a payload stands in the native
/// collection, that collection contains a structural duplicate of the
/// payload, so inserting it again is a no-op that only counts as ignored.
pub proof fn lemma_cpp_insert_makes_duplicate(s: Seq<CppDatabaseItem>, it: CppDatabaseItem)
    ensures
        cpp_contains_same(s.push(it), it.item),
{
    crate::cpp_data::lemma_same_cpp_item_reflexive(it.item);
    assert(s.push(it)[s.len() as int].item == it.item);
}

/// Dedup idempotence for the FFI collection.
pub proof fn lemma_ffi_insert_makes_duplicate(s: Seq<CppFfiDatabaseItem>, it: CppFfiDatabaseItem)
    ensures
        ffi_contains_same(s.push(it), it.item),
{
    crate::cpp_data::lemma_same_ffi_item_reflexive(it.item);
    assert(s.push(it)[s.len() as int].item == it.item);
}

/// Dedup idempotence for the surface collection.
pub proof fn lemma_rust_insert_makes_duplicate(s: Seq<RustDatabaseItem>, it: RustDatabaseItem)
    ensures
        rust_contains_same(s.push(it), it),
{
    assert(same_rust_item(s.push(it)[s.len() as int], it));
}

/// The collected data of a store, with the modified flag read by the
/// persistence collaborator and the accumulation counters drained by stage
/// reporting.
#[derive(Debug)]
pub struct Database {
    data: Data,
    is_modified: bool,
    counters: Counters,
}

impl Database {
    pub closed spec fn spec_data(&self) -> Data {
        self.data
    }

    pub closed spec fn spec_is_modified(&self) -> bool {
        self.is_modified
    }

    pub closed spec fn spec_counters(&self) -> Counters {
        self.counters
    }

    pub open spec fn spec_crate_name(&self) -> Seq<char> {
        self.spec_data().spec_crate_name()
    }

    pub open spec fn spec_crate_version(&self) -> Seq<char> {
        self.spec_data().spec_crate_version()
    }

    pub open spec fn spec_cpp_items(&self) -> Seq<CppDatabaseItem> {
        self.spec_data().spec_cpp_items()
    }

    pub open spec fn spec_ffi_items(&self) -> Seq<CppFfiDatabaseItem> {
        self.spec_data().spec_ffi_items()
    }

    pub open spec fn spec_rust_items(&self) -> Seq<RustDatabaseItem> {
        self.spec_data().spec_rust_items()
    }

    pub open spec fn spec_targets(&self) -> Seq<(Seq<char>, Option<Seq<char>>)> {
        self.spec_data().spec_targets()
    }

    pub open spec fn spec_next_id(&self) -> u32 {
        self.spec_data().spec_next_id()
    }

    pub open spec fn wf(&self) -> bool {
        self.spec_data().wf()
    }

    /// The package name and version are those of `other`; used to state
    /// that an operation touches nothing else.
    pub open spec fn same_names(&self, other: &Database) -> bool {
        &&& self.spec_crate_name() == other.spec_crate_name()
        &&& self.spec_crate_version() == other.spec_crate_version()
    }

    /// Wraps already-validated data.
    pub fn new(data: Data) -> (r: Database)
        requires
            data.wf(),
        ensures
            r.spec_data() == data,
            !r.spec_is_modified(),
            r.spec_counters() == (Counters { items_added: 0, items_ignored: 0 }),
            r.wf(),
    {
        Database { data, is_modified: false, counters: Counters::default() }
    }

    /// Read access for the persistence collaborator.
    pub fn data(&self) -> (r: &Data)
        ensures
            *r == self.spec_data(),
    {
        &self.data
    }

    /// A fresh store for the named package: empty collections, version
    /// `0.0.0`, the allocation counter at one, and the modified flag set.
    pub fn empty(crate_name: &str) -> (r: Database)
        ensures
            r.wf(),
            r.spec_crate_name() == crate_name@,
            r.spec_crate_version() == "0.0.0"@,
            r.spec_cpp_items() == Seq::<CppDatabaseItem>::empty(),
            r.spec_ffi_items() == Seq::<CppFfiDatabaseItem>::empty(),
            r.spec_rust_items() == Seq::<RustDatabaseItem>::empty(),
            r.spec_targets() == Seq::<(Seq<char>, Option<Seq<char>>)>::empty(),
            r.spec_next_id() == 1,
            r.spec_is_modified(),
            r.spec_counters() == (Counters { items_added: 0, items_ignored: 0 }),
    {
        let data = Data {
            crate_name: String::from_str(crate_name),
            crate_version: String::from_str("0.0.0"),
            cpp_items: Vec::new(),
            ffi_items: Vec::new(),
            rust_items: Vec::new(),
            targets: Vec::new(),
            next_id: 1,
        };
        let r = Database { data, is_modified: true, counters: Counters::default() };
        proof {
            assert(r.spec_targets() =~= Seq::<(Seq<char>, Option<Seq<char>>)>::empty());
        }
        r
    }

    /// Whether any mutating call has run since the store was last saved.
    pub fn is_modified(&self) -> (r: bool)
        ensures
            r == self.spec_is_modified(),
    {
        self.is_modified
    }

    /// Marks the store as saved.
    pub fn set_saved(&mut self)
        ensures
            !final(self).spec_is_modified(),
            final(self).spec_data() == old(self).spec_data(),
            final(self).spec_counters() == old(self).spec_counters(),
    {
        self.is_modified = false;
    }

    /// The stored native declarations, in identifier order.
    pub fn cpp_items(&self) -> (r: &Vec<CppDatabaseItem>)
        ensures
            r@ == self.spec_cpp_items(),
    {
        &self.data.cpp_items
    }

    /// The identifiers of all stored native declarations, in order.
    pub fn cpp_item_ids(&self) -> (r: Vec<CppItemId>)
        ensures
            r@.len() == self.spec_cpp_items().len(),
            forall|i: int| 0 <= i < r@.len() ==> r@[i] == self.spec_cpp_items()[i].id,
    {
        let mut out: Vec<CppItemId> = Vec::new();
        let n = self.data.cpp_items.len();
        let mut i: usize = 0;
        while i < n
            invariant
                i <= n,
                n == self.spec_cpp_items().len(),
                out@.len() == i,
                forall|j: int| 0 <= j < i ==> out@[j] == self.spec_cpp_items()[j].id,
            decreases n - i,
        {
            out.push(self.data.cpp_items[i].id);
            i = i + 1;
        }
        out
    }

    /// The stored FFI wrappers, in identifier order.
    pub fn ffi_items(&self) -> (r: &Vec<CppFfiDatabaseItem>)
        ensures
            r@ == self.spec_ffi_items(),
    {
        &self.data.ffi_items
    }

    /// The stored surface items, in insertion order.
    pub fn rust_items(&self) -> (r: &Vec<RustDatabaseItem>)
        ensures
            r@ == self.spec_rust_items(),
    {
        &self.data.rust_items
    }

    /// The position of the native item with the given identifier.
    fn cpp_index_of(&self, id: u32) -> (r: Option<usize>)
        requires
            self.wf(),
        ensures
            r matches Some(i) ==> i < self.spec_cpp_items().len() && self.spec_cpp_items()[
                i as int
            ].id.0 == id,
            r is None ==> forall|i: int|
                0 <= i < self.spec_cpp_items().len() ==> (#[trigger] self.spec_cpp_items()[
                    i
                ]).id.0 != id,
    {
        let ghost s = self.spec_cpp_items();
        let n = self.data.cpp_items.len();
        let mut lo: usize = 0;
        let mut hi: usize = n;
        while lo < hi
            invariant
                lo <= hi <= n,
                n == s.len(),
                s == self.spec_cpp_items(),
                self.wf(),
                forall|k: int| 0 <= k < lo ==> (#[trigger] s[k]).id.0 < id,
                forall|k: int| hi <= k < n ==> (#[trigger] s[k]).id.0 > id,
            decreases hi - lo,
        {
            let mid = lo + (hi - lo) / 2;
            let v = self.data.cpp_items[mid].id.0;
            if v == id {
                return Some(mid);
            } else if v < id {
                proof {
                    assert(forall|k: int|
                        0 <= k <= mid ==> (#[trigger] s[k]).id.0 <= s[mid as int].id.0);
                }
                lo = mid + 1;
            } else {
                proof {
                    assert(forall|k: int|
                        mid <= k < n ==> (#[trigger] s[k]).id.0 >= s[mid as int].id.0);
                }
                hi = mid;
            }
        }
        None
    }

    /// The position of the FFI item with the given identifier.
    fn ffi_index_of(&self, id: u32) -> (r: Option<usize>)
        requires
            self.wf(),
        ensures
            r matches Some(i) ==> i < self.spec_ffi_items().len() && self.spec_ffi_items()[
                i as int
            ].id.0 == id,
            r is None ==> forall|i: int|
                0 <= i < self.spec_ffi_items().len() ==> (#[trigger] self.spec_ffi_items()[
                    i
                ]).id.0 != id,
    {
        let ghost s = self.spec_ffi_items();
        let n = self.data.ffi_items.len();
        let mut lo: usize = 0;
        let mut hi: usize = n;
        while lo < hi
            invariant
                lo <= hi <= n,
                n == s.len(),
                s == self.spec_ffi_items(),
                self.wf(),
                forall|k: int| 0 <= k < lo ==> (#[trigger] s[k]).id.0 < id,
                forall|k: int| hi <= k < n ==> (#[trigger] s[k]).id.0 > id,
            decreases hi - lo,
        {
            let mid = lo + (hi - lo) / 2;
            let v = self.data.ffi_items[mid].id.0;
            if v == id {
                return Some(mid);
            } else if v < id {
                proof {
                    assert(forall|k: int|
                        0 <= k <= mid ==> (#[trigger] s[k]).id.0 <= s[mid as int].id.0);
                }
                lo = mid + 1;
            } else {
                proof {
                    assert(forall|k: int|
                        mid <= k < n ==> (#[trigger] s[k]).id.0 >= s[mid as int].id.0);
                }
                hi = mid;
            }
        }
        None
    }

    /// Looks up a native declaration by identifier.
    pub fn cpp_item(&self, id: CppItemId) -> (r: Result<&CppDatabaseItem, DatabaseError>)
        requires
            self.wf(),
        ensures
            (exists|i: int|
                0 <= i < self.spec_cpp_items().len() && (#[trigger] self.spec_cpp_items()[
                    i
                ]).id.0 == id.0) <==> r is Ok,
            r matches Ok(it) ==> it.id.0 == id.0 && exists|i: int|
                0 <= i < self.spec_cpp_items().len() && *it == self.spec_cpp_items()[i],
            r is Err ==> r == Err::<&CppDatabaseItem, DatabaseError>(DatabaseError::NotFound),
    {
        match self.cpp_index_of(id.0) {
            Some(i) => Ok(&self.data.cpp_items[i]),
            None => Err(DatabaseError::NotFound),
        }
    }

    /// The current package name.
    pub fn crate_name(&self) -> (r: &str)
        ensures
            r@ == self.spec_crate_name(),
    {
        self.data.crate_name.as_str()
    }

    /// The current package version.
    pub fn crate_version(&self) -> (r: &str)
        ensures
            r@ == self.spec_crate_version(),
    {
        self.data.crate_version.as_str()
    }

    /// Sets the package version; the store is marked modified only when
    /// the version actually changes.
    pub fn set_crate_version(&mut self, version: String)
        ensures
            final(self).spec_crate_version() == version@,
            final(self).spec_cpp_items() == old(self).spec_cpp_items(),
            final(self).spec_ffi_items() == old(self).spec_ffi_items(),
            final(self).spec_rust_items() == old(self).spec_rust_items(),
            final(self).spec_targets() == old(self).spec_targets(),
            final(self).spec_crate_name() == old(self).spec_crate_name(),
            final(self).spec_next_id() == old(self).spec_next_id(),
            final(self).spec_counters() == old(self).spec_counters(),
            old(self).spec_crate_version() != version@ ==> final(self).spec_is_modified(),
            old(self).spec_crate_version() == version@ ==> final(self).spec_is_modified() == old(self).spec_is_modified(),
            old(self).wf() ==> final(self).wf(),
    {
        if !crate::string_utils::str_eq(self.data.crate_version.as_str(), version.as_str()) {
            self.is_modified = true;
            self.data.crate_version = version;
        }
    }

    /// Registers an environment; environments form a set, so one already
    /// registered is not added again and the store is left untouched.
    pub fn add_environment(&mut self, env: LibraryTarget)
        ensures
            old(self).wf() ==> final(self).wf(),
            final(self).spec_counters() == old(self).spec_counters(),
            (exists|i: int|
                0 <= i < old(self).spec_targets().len() && old(self).spec_targets()[i] == env@)
                ==> final(self).spec_data() == old(self).spec_data() && final(self).spec_is_modified() == old(self).spec_is_modified(),
            !(exists|i: int|
                0 <= i < old(self).spec_targets().len() && old(self).spec_targets()[i] == env@)
                ==> ({
                &&& final(self).spec_targets() == old(self).spec_targets().push(env@)
                &&& final(self).spec_is_modified()
                &&& final(self).spec_cpp_items() == old(self).spec_cpp_items()
                &&& final(self).spec_ffi_items() == old(self).spec_ffi_items()
                &&& final(self).spec_rust_items() == old(self).spec_rust_items()
                &&& final(self).same_names(old(self))
                &&& final(self).spec_next_id() == old(self).spec_next_id()
            }),
    {
        let ghost t0 = self.spec_targets();
        let n = self.data.targets.len();
        let mut i: usize = 0;
        while i < n
            invariant
                i <= n,
                n == t0.len(),
                t0 == self.spec_targets(),
                self == old(self),
                forall|j: int| 0 <= j < i ==> t0[j] != env@,
            decreases n - i,
        {
            if self.data.targets[i].same_target(&env) {
                proof {
                    assert(self.spec_targets()[i as int] == self.data.targets@[i as int]@);
                }
                return ;
            }
            proof {
                assert(t0[i as int] == self.data.targets@[i as int]@);
            }
            i = i + 1;
        }
        self.is_modified = true;
        self.data.targets.push(env);
        proof {
            assert(self.spec_targets() =~= t0.push(env@));
        }
    }

    /// The registered environments, in registration order.
    pub fn environments(&self) -> (r: &Vec<LibraryTarget>)
        ensures
            r.deep_view() == self.spec_targets(),
    {
        &self.data.targets
    }

    /// Returns and resets the accumulation counters, for stage reporting.
    pub fn report_counters(&mut self) -> (r: Counters)
        ensures
            r == old(self).spec_counters(),
            final(self).spec_counters() == (Counters { items_added: 0, items_ignored: 0 }),
            final(self).spec_data() == old(self).spec_data(),
            final(self).spec_is_modified() == old(self).spec_is_modified(),
    {
        let r = self.counters;
        self.counters = Counters::default();
        r
    }

    /// Inserts a native declaration unless a structurally-identical one is
    /// already stored. A duplicate only counts as ignored and returns
    /// nothing; a new declaration is appended under a fresh identifier,
    /// strictly greater than every identifier the store has ever handed
    /// out.
    pub fn add_cpp_item(&mut self, source_ffi_item: Option<usize>, data: CppItem) -> (r: Option<
        CppItemId,
    >)
        requires
            old(self).wf(),
            old(self).spec_next_id() < u32::MAX,
            old(self).spec_counters().items_added < u32::MAX,
            old(self).spec_counters().items_ignored < u32::MAX,
        ensures
            final(self).wf(),
            cpp_contains_same(old(self).spec_cpp_items(), data) ==> ({
                &&& r is None
                &&& final(self).spec_data() == old(self).spec_data()
                &&& final(self).spec_is_modified() == old(self).spec_is_modified()
                &&& final(self).spec_counters().items_ignored == old(self).spec_counters().items_ignored + 1
                &&& final(self).spec_counters().items_added == old(self).spec_counters().items_added
            }),
            !cpp_contains_same(old(self).spec_cpp_items(), data) ==> ({
                &&& r matches Some(id) && id.0 == old(self).spec_next_id()
                &&& final(self).spec_cpp_items() == old(self).spec_cpp_items().push(
                    CppDatabaseItem {
                        id: CppItemId(old(self).spec_next_id()),
                        item: data,
                        source_ffi_item,
                    },
                )
                &&& final(self).spec_next_id() == old(self).spec_next_id() + 1
                &&& final(self).spec_ffi_items() == old(self).spec_ffi_items()
                &&& final(self).spec_rust_items() == old(self).spec_rust_items()
                &&& final(self).spec_targets() == old(self).spec_targets()
                &&& final(self).same_names(old(self))
                &&& final(self).spec_is_modified()
                &&& final(self).spec_counters().items_added == old(self).spec_counters().items_added + 1
                &&& final(self).spec_counters().items_ignored == old(self).spec_counters().items_ignored
            }),
    {
        let ghost s0 = self.spec_cpp_items();
        let n = self.data.cpp_items.len();
        let mut i: usize = 0;
        while i < n
            invariant
                i <= n,
                n == s0.len(),
                s0 == self.spec_cpp_items(),
                self == old(self),
                old(self).wf(),
                old(self).spec_counters().items_ignored < u32::MAX,
                !cpp_contains_same(s0.take(i as int), data),
            decreases n - i,
        {
            if self.data.cpp_items[i].item.is_same(&data) {
                proof {
                    assert(cpp_contains_same(s0, data));
                }
                self.counters.items_ignored = self.counters.items_ignored + 1;
                return None;
            }
            i = i + 1;
            proof {
                assert forall|k: int|
                    0 <= k < i implies !same_cpp_item(s0.take(i as int)[k].item, data) by {
                    if k < i - 1 {
                        assert(!same_cpp_item(s0.take(i as int - 1)[k].item, data));
                    }
                }
            }
        }
        proof {
            assert(s0.take(n as int) =~= s0);
        }
        self.is_modified = true;
        let id = CppItemId(self.data.next_id);
        self.data.next_id = self.data.next_id + 1;
        let item = CppDatabaseItem { id, item: data, source_ffi_item };
        self.data.cpp_items.push(item);
        self.counters.items_added = self.counters.items_added + 1;
        proof {
            let s1 = self.spec_cpp_items();
            assert forall|a: int, b: int| 0 <= a < b < s1.len() implies s1[a].id.0
                < s1[b].id.0 by {
                if b < s1.len() - 1 {
                    assert(s0[a].id.0 < s0[b].id.0);
                } else {
                    assert(s0[a].id.0 < old(self).spec_next_id());
                }
            }
            assert(forall|a: int|
                0 <= a < s1.len() - 1 ==> (#[trigger] s1[a]).id.0 < self.spec_next_id());
        }
        Some(id)
    }

    /// Inserts an FFI wrapper unless a structurally-identical one is
    /// already stored; returns whether a new item was actually inserted.
    /// The new item starts with an empty ledger and unconsumed by surface
    /// generation. Either way the store counts as modified.
    pub fn add_ffi_item(&mut self, item: CppFfiItem) -> (r: bool)
        requires
            old(self).wf(),
            old(self).spec_next_id() < u32::MAX,
            old(self).spec_counters().items_added < u32::MAX,
            old(self).spec_counters().items_ignored < u32::MAX,
        ensures
            final(self).wf(),
            final(self).spec_is_modified(),
            ffi_contains_same(old(self).spec_ffi_items(), item) ==> ({
                &&& r == false
                &&& final(self).spec_data() == old(self).spec_data()
                &&& final(self).spec_counters().items_ignored == old(self).spec_counters().items_ignored + 1
                &&& final(self).spec_counters().items_added == old(self).spec_counters().items_added
            }),
            !ffi_contains_same(old(self).spec_ffi_items(), item) ==> ({
                &&& r == true
                &&& final(self).spec_ffi_items().len() == old(self).spec_ffi_items().len() + 1
                &&& final(self).spec_ffi_items().take(old(self).spec_ffi_items().len() as int)
                    == old(self).spec_ffi_items()
                &&& final(self).spec_ffi_items().last().id.0 == old(self).spec_next_id()
                &&& final(self).spec_ffi_items().last().item == item
                &&& final(self).spec_ffi_items().last().checks@ == Seq::<
                    CheckEntryView,
                >::empty()
                &&& final(self).spec_ffi_items().last().is_rust_processed == false
                &&& final(self).spec_next_id() == old(self).spec_next_id() + 1
                &&& final(self).spec_cpp_items() == old(self).spec_cpp_items()
                &&& final(self).spec_rust_items() == old(self).spec_rust_items()
                &&& final(self).spec_targets() == old(self).spec_targets()
                &&& final(self).same_names(old(self))
                &&& final(self).spec_counters().items_added == old(self).spec_counters().items_added + 1
                &&& final(self).spec_counters().items_ignored == old(self).spec_counters().items_ignored
            }),
    {
        self.is_modified = true;
        let ghost s0 = self.spec_ffi_items();
        let n = self.data.ffi_items.len();
        let mut i: usize = 0;
        while i < n
            invariant
                i <= n,
                n == s0.len(),
                s0 == self.spec_ffi_items(),
                self.spec_data() == old(self).spec_data(),
                self.spec_counters() == old(self).spec_counters(),
                self.spec_is_modified(),
                old(self).wf(),
                old(self).spec_counters().items_ignored < u32::MAX,
                !ffi_contains_same(s0.take(i as int), item),
            decreases n - i,
        {
            if self.data.ffi_items[i].item.has_same_source(&item) {
                proof {
                    assert(ffi_contains_same(s0, item));
                }
                self.counters.items_ignored = self.counters.items_ignored + 1;
                return false;
            }
            i = i + 1;
            proof {
                assert forall|k: int|
                    0 <= k < i implies !same_ffi_item(s0.take(i as int)[k].item, item) by {
                    if k < i - 1 {
                        assert(!same_ffi_item(s0.take(i as int - 1)[k].item, item));
                    }
                }
            }
        }
        proof {
            assert(s0.take(n as int) =~= s0);
        }
        let id = FfiItemId(self.data.next_id);
        self.data.next_id = self.data.next_id + 1;
        let new_item = CppFfiDatabaseItem {
            id,
            item,
            checks: CppChecks::new(),
            is_rust_processed: false,
        };
        self.data.ffi_items.push(new_item);
        self.counters.items_added = self.counters.items_added + 1;
        proof {
            let s1 = self.spec_ffi_items();
            assert(s1.take(s0.len() as int) =~= s0);
            assert forall|a: int, b: int| 0 <= a < b < s1.len() implies s1[a].id.0
                < s1[b].id.0 by {
                if b < s1.len() - 1 {
                    assert(s0[a].id.0 < s0[b].id.0);
                } else {
                    assert(s0[a].id.0 < old(self).spec_next_id());
                }
            }
            assert(forall|a: int|
                0 <= a < s1.len() - 1 ==> (#[trigger] s1[a]).id.0 < self.spec_next_id());
            assert(forall|a: int|
                0 <= a < s1.len() - 1 ==> checks_wf((#[trigger] s1[a]).checks@));
        }
        true
    }

    /// Clears the native declarations and the registered environments, for
    /// a re-run of the parser stage. Identifiers are not reused: the
    /// allocation counter keeps its value.
    pub fn clear(&mut self)
        ensures
            old(self).wf() ==> final(self).wf(),
            final(self).spec_is_modified(),
            final(self).spec_cpp_items() == Seq::<CppDatabaseItem>::empty(),
            final(self).spec_targets() == Seq::<(Seq<char>, Option<Seq<char>>)>::empty(),
            final(self).spec_ffi_items() == old(self).spec_ffi_items(),
            final(self).spec_rust_items() == old(self).spec_rust_items(),
            final(self).same_names(old(self)),
            final(self).spec_next_id() == old(self).spec_next_id(),
            final(self).spec_counters() == old(self).spec_counters(),
    {
        self.is_modified = true;
        self.data.cpp_items.clear();
        self.data.targets.clear();
        proof {
            assert(self.spec_cpp_items() =~= Seq::<CppDatabaseItem>::empty());
            assert(self.spec_targets() =~= Seq::<(Seq<char>, Option<Seq<char>>)>::empty());
        }
    }

    /// Clears the FFI wrappers, for a re-run of the derivation stage.
    /// Native items that were synthesized from an FFI item are dropped
    /// with them; parser-sourced native items are preserved. Identifiers
    /// are not reused.
    pub fn clear_ffi(&mut self)
        requires
            old(self).wf(),
        ensures
            final(self).wf(),
            final(self).spec_is_modified(),
            final(self).spec_ffi_items() == Seq::<CppFfiDatabaseItem>::empty(),
            final(self).spec_cpp_items() == parser_sourced_only(old(self).spec_cpp_items()),
            final(self).spec_rust_items() == old(self).spec_rust_items(),
            final(self).spec_targets() == old(self).spec_targets(),
            final(self).same_names(old(self)),
            final(self).spec_next_id() == old(self).spec_next_id(),
            final(self).spec_counters() == old(self).spec_counters(),
    {
        self.is_modified = true;
        self.data.ffi_items.clear();
        let ghost s0 = self.spec_cpp_items();
        let mut kept: Vec<CppDatabaseItem> = Vec::new();
        core::mem::swap(&mut kept, &mut self.data.cpp_items);
        let mut out: Vec<CppDatabaseItem> = Vec::new();
        let total = kept.len();
        let ghost mut g: int = 0;
        proof {
            assert(out@ =~= parser_sourced_only(s0.take(0)));
            assert(kept@ =~= s0.skip(0));
        }
        while kept.len() > 0
            invariant
                0 <= g <= s0.len(),
                kept@ == s0.skip(g),
                out@ == parser_sourced_only(s0.take(g)),
            decreases kept@.len(),
        {
            let it = kept.remove(0);
            proof {
                assert(it == s0[g]);
                assert(kept@ =~= s0.skip(g + 1));
                assert(s0.take(g + 1).drop_last() =~= s0.take(g));
                assert(s0.take(g + 1).last() == s0[g]);
            }
            if it.source_ffi_item.is_none() {
                out.push(it);
            }
            proof {
                g = g + 1;
            }
        }
        core::mem::swap(&mut out, &mut self.data.cpp_items);
        proof {
            assert(s0.take(s0.len() as int) =~= s0);
            assert(self.spec_ffi_items() =~= Seq::<CppFfiDatabaseItem>::empty());
            lemma_parser_sourced_wf(s0, old(self).spec_next_id());
        }
    }

    /// Clears the checker ledgers of all FFI wrappers without touching the
    /// wrappers themselves, for a re-run of the checking stage.
    pub fn clear_cpp_checks(&mut self)
        requires
            old(self).wf(),
        ensures
            final(self).wf(),
            final(self).spec_is_modified(),
            final(self).spec_ffi_items().len() == old(self).spec_ffi_items().len(),
            forall|i: int|
                0 <= i < old(self).spec_ffi_items().len() ==> {
                    let pre = old(self).spec_ffi_items()[i];
                    let post = #[trigger] final(self).spec_ffi_items()[i];
                    post.id == pre.id && post.item == pre.item && post.is_rust_processed
                        == pre.is_rust_processed && post.checks@ == Seq::<
                        CheckEntryView,
                    >::empty()
                },
            final(self).spec_cpp_items() == old(self).spec_cpp_items(),
            final(self).spec_rust_items() == old(self).spec_rust_items(),
            final(self).spec_targets() == old(self).spec_targets(),
            final(self).same_names(old(self)),
            final(self).spec_next_id() == old(self).spec_next_id(),
            final(self).spec_counters() == old(self).spec_counters(),
    {
        self.is_modified = true;
        let ghost s0 = self.spec_ffi_items();
        let n = self.data.ffi_items.len();
        let mut i: usize = 0;
        while i < n
            invariant
                i <= n,
                n == self.data.ffi_items@.len(),
                n == s0.len(),
                self.spec_cpp_items() == old(self).spec_cpp_items(),
                self.spec_rust_items() == old(self).spec_rust_items(),
                self.spec_targets() == old(self).spec_targets(),
                self.same_names(old(self)),
                self.spec_next_id() == old(self).spec_next_id(),
                self.spec_counters() == old(self).spec_counters(),
                self.spec_is_modified(),
                s0 == old(self).spec_ffi_items(),
                forall|k: int| i <= k < n ==> self.spec_ffi_items()[k] == s0[k],
                forall|k: int|
                    0 <= k < i ==> {
                        let pre = s0[k];
                        let post = #[trigger] self.spec_ffi_items()[k];
                        post.id == pre.id && post.item == pre.item && post.is_rust_processed
                            == pre.is_rust_processed && post.checks@ == Seq::<
                            CheckEntryView,
                        >::empty()
                    },
            decreases n - i,
        {
            self.clear_check_at(i);
            i = i + 1;
        }
        proof {
            assert(forall|a: int, b: int|
                0 <= a < b < self.spec_ffi_items().len() ==> self.spec_ffi_items()[a].id.0
                    < self.spec_ffi_items()[b].id.0);
        }
    }

    /// Empties the ledger of the wrapper at one position.
    fn clear_check_at(&mut self, i: usize)
        requires
            i < old(self).spec_ffi_items().len(),
        ensures
            final(self).spec_ffi_items().len() == old(self).spec_ffi_items().len(),
            forall|k: int|
                0 <= k < old(self).spec_ffi_items().len() && k != i ==> final(self).spec_ffi_items()[k] == old(self).spec_ffi_items()[k],
            ({
                let pre = old(self).spec_ffi_items()[i as int];
                let post = final(self).spec_ffi_items()[i as int];
                post.id == pre.id && post.item == pre.item && post.is_rust_processed
                    == pre.is_rust_processed && post.checks@ == Seq::<CheckEntryView>::empty()
            }),
            final(self).spec_cpp_items() == old(self).spec_cpp_items(),
            final(self).spec_rust_items() == old(self).spec_rust_items(),
            final(self).spec_targets() == old(self).spec_targets(),
            final(self).same_names(old(self)),
            final(self).spec_next_id() == old(self).spec_next_id(),
            final(self).spec_counters() == old(self).spec_counters(),
            final(self).spec_is_modified() == old(self).spec_is_modified(),
    {
        let it = vstd::std_specs::vec::vec_index_mut(&mut self.data.ffi_items, i);
        it.checks.clear();
    }

    /// Clears the generated surface items, for a re-run of the generation
    /// stage.
    pub fn clear_rust_info(&mut self)
        ensures
            old(self).wf() ==> final(self).wf(),
            final(self).spec_is_modified(),
            final(self).spec_rust_items() == Seq::<RustDatabaseItem>::empty(),
            final(self).spec_cpp_items() == old(self).spec_cpp_items(),
            final(self).spec_ffi_items() == old(self).spec_ffi_items(),
            final(self).spec_targets() == old(self).spec_targets(),
            final(self).same_names(old(self)),
            final(self).spec_next_id() == old(self).spec_next_id(),
            final(self).spec_counters() == old(self).spec_counters(),
    {
        self.is_modified = true;
        self.data.rust_items.clear();
        proof {
            assert(self.spec_rust_items() =~= Seq::<RustDatabaseItem>::empty());
        }
    }

    /// The position of the first surface item placed at the given path.
    fn rust_index_of(&self, path: &RustPath) -> (r: Option<usize>)
        ensures
            r matches Some(i) ==> i < self.spec_rust_items().len() && self.spec_rust_items()[
                i as int
            ].path@ == path@ && forall|j: int|
                0 <= j < i ==> (#[trigger] self.spec_rust_items()[j]).path@ != path@,
            r is None ==> !rust_occupied(self.spec_rust_items(), path@),
    {
        let ghost s = self.spec_rust_items();
        let n = self.data.rust_items.len();
        let mut i: usize = 0;
        while i < n
            invariant
                i <= n,
                n == s.len(),
                s == self.spec_rust_items(),
                forall|j: int| 0 <= j < i ==> (#[trigger] s[j]).path@ != path@,
            decreases n - i,
        {
            if crate::string_utils::eq_string_vec(&self.data.rust_items[i].path.parts, &path.parts)
            {
                return Some(i);
            }
            i = i + 1;
        }
        None
    }

    /// Finds the surface item placed at the given path, if any.
    pub fn find_rust_item(&self, path: &RustPath) -> (r: Option<&RustDatabaseItem>)
        ensures
            r matches Some(it) ==> it.path@ == path@ && exists|i: int|
                {
                    &&& 0 <= i < self.spec_rust_items().len()
                    &&& *it == self.spec_rust_items()[i]
                    &&& forall|j: int|
                        0 <= j < i ==> (#[trigger] self.spec_rust_items()[j]).path@ != path@
                },
            r is None ==> !rust_occupied(self.spec_rust_items(), path@),
    {
        match self.rust_index_of(path) {
            Some(i) => Some(&self.data.rust_items[i]),
            None => None,
        }
    }

    /// The positions of all surface items placed directly below the given
    /// path, in storage order.
    pub fn rust_children(&self, path: &RustPath) -> (r: Vec<usize>)
        ensures
            forall|j: int|
                0 <= j < r@.len() ==> (#[trigger] r@[j]) < self.spec_rust_items().len() && ({
                    let it = self.spec_rust_items()[r@[j] as int];
                    crate::rust_type::includes_spec(path@, it.path@) && it.path@.len() == path@.len()
                        + 1
                }),
            forall|i: int|
                0 <= i < self.spec_rust_items().len() && crate::rust_type::includes_spec(
                    path@,
                    (#[trigger] self.spec_rust_items()[i]).path@,
                ) && self.spec_rust_items()[i].path@.len() == path@.len() + 1 ==> exists|j: int|
                    0 <= j < r@.len() && r@[j] == i,
            forall|a: int, b: int| 0 <= a < b < r@.len() ==> r@[a] < r@[b],
    {
        let ghost s = self.spec_rust_items();
        let n = self.data.rust_items.len();
        let mut out: Vec<usize> = Vec::new();
        let mut i: usize = 0;
        while i < n
            invariant
                i <= n,
                n == s.len(),
                s == self.spec_rust_items(),
                forall|j: int|
                    0 <= j < out@.len() ==> (#[trigger] out@[j]) < i && ({
                        let it = s[out@[j] as int];
                        crate::rust_type::includes_spec(path@, it.path@) && it.path@.len()
                            == path@.len() + 1
                    }),
                forall|k: int|
                    0 <= k < i && crate::rust_type::includes_spec(
                        path@,
                        (#[trigger] s[k]).path@,
                    ) && s[k].path@.len() == path@.len() + 1 ==> exists|j: int|
                        0 <= j < out@.len() && out@[j] == k,
                forall|a: int, b: int| 0 <= a < b < out@.len() ==> out@[a] < out@[b],
            decreases n - i,
        {
            let ghost old_out = out@;
            let is_child = self.data.rust_items[i].is_child_of(path);
            if is_child {
                out.push(i);
            }
            proof {
                if is_child {
                    assert(out@ == old_out.push(i));
                    assert(out@[out@.len() - 1] == i);
                }
                assert forall|k: int|
                    0 <= k < i + 1 && crate::rust_type::includes_spec(
                        path@,
                        (#[trigger] s[k]).path@,
                    ) && s[k].path@.len() == path@.len() + 1 implies exists|j: int|
                        0 <= j < out@.len() && out@[j] == k by {
                    if k < i {
                        let j = choose|j: int| 0 <= j < old_out.len() && old_out[j] == k;
                        assert(out@[j] == k);
                    } else {
                        assert(out@[out@.len() - 1] == k);
                    }
                }
            }
            i = i + 1;
        }
        out
    }

    /// Inserts a surface item after validating its placement: a package
    /// root must be a single segment equal to the store's package name
    /// (else the packages mismatch); any other item needs a parent (else
    /// the path is in error), its package segment must match, and every
    /// ancestor of two or more segments must already be stored (else the
    /// first missing one makes the path unreachable). Only a placeable
    /// item proceeds to deduplication: a structurally-identical stored
    /// item leaves the collection unchanged and counts as ignored.
    pub fn add_rust_item(&mut self, item: RustDatabaseItem) -> (r: Result<(), DatabaseError>)
        requires
            path_wf(item.path@),
            old(self).spec_counters().items_added < u32::MAX,
            old(self).spec_counters().items_ignored < u32::MAX,
        ensures
            old(self).wf() ==> final(self).wf(),
            final(self).spec_is_modified(),
            r is Ok <==> rust_item_placeable(
                old(self).spec_rust_items(),
                old(self).spec_crate_name(),
                item,
            ),
            r is Err ==> ({
                &&& final(self).spec_data() == old(self).spec_data()
                &&& final(self).spec_counters() == old(self).spec_counters()
                &&& (item.kind is CrateRoot ==> r == Err::<(), DatabaseError>(
                    DatabaseError::PackageMismatch,
                ))
                &&& (!(item.kind is CrateRoot) && item.path@.len() < 2 ==> r == Err::<
                    (),
                    DatabaseError,
                >(DatabaseError::PathError))
                &&& (!(item.kind is CrateRoot) && item.path@.len() >= 2 && item.path@[0] != old(
                    self,
                ).spec_crate_name() ==> r == Err::<(), DatabaseError>(
                    DatabaseError::PackageMismatch,
                ))
                &&& (!(item.kind is CrateRoot) && item.path@.len() >= 2 && item.path@[0] == old(
                    self,
                ).spec_crate_name() ==> r == Err::<(), DatabaseError>(DatabaseError::PathError))
            }),
            r is Ok && rust_contains_same(old(self).spec_rust_items(), item) ==> ({
                &&& final(self).spec_data() == old(self).spec_data()
                &&& final(self).spec_counters().items_ignored == old(
                    self,
                ).spec_counters().items_ignored + 1
                &&& final(self).spec_counters().items_added == old(
                    self,
                ).spec_counters().items_added
            }),
            r is Ok && !rust_contains_same(old(self).spec_rust_items(), item) ==> ({
                &&& final(self).spec_rust_items() == old(self).spec_rust_items().push(item)
                &&& final(self).spec_cpp_items() == old(self).spec_cpp_items()
                &&& final(self).spec_ffi_items() == old(self).spec_ffi_items()
                &&& final(self).spec_targets() == old(self).spec_targets()
                &&& final(self).same_names(old(self))
                &&& final(self).spec_next_id() == old(self).spec_next_id()
                &&& final(self).spec_counters().items_added == old(
                    self,
                ).spec_counters().items_added + 1
                &&& final(self).spec_counters().items_ignored == old(
                    self,
                ).spec_counters().items_ignored
            }),
    {
        self.is_modified = true;
        let ghost s0 = self.spec_rust_items();
        let ghost cn = self.spec_crate_name();
        let root = match item.kind {
            RustItemKind::CrateRoot => true,
            _ => false,
        };
        if root {
            if item.path.parts.len() != 1 || !str_eq(
                item.path.parts[0].as_str(),
                self.data.crate_name.as_str(),
            ) {
                proof {
                    assert(item.path@[0] == item.path.parts@[0]@);
                }
                return Err(DatabaseError::PackageMismatch);
            }
            proof {
                assert(item.path@[0] == item.path.parts@[0]@);
            }
        } else {
            if item.path.parts.len() < 2 {
                return Err(DatabaseError::PathError);
            }
            if !str_eq(item.path.parts[0].as_str(), self.data.crate_name.as_str()) {
                proof {
                    assert(item.path@[0] == item.path.parts@[0]@);
                }
                return Err(DatabaseError::PackageMismatch);
            }
            proof {
                assert(item.path@[0] == item.path.parts@[0]@);
            }
            let full_len = item.path.parts.len();
            let mut probe = match item.path.parent() {
                Some(p) => p,
                None => {
                    return Err(DatabaseError::PathError);
                },
            };
            proof {
                assert(probe@ =~= item.path@.take(full_len as int - 1));
            }
            while probe.parts.len() > 1
                invariant
                    s0 == self.spec_rust_items(),
                    self.spec_data() == old(self).spec_data(),
                    self.spec_counters() == old(self).spec_counters(),
                    self.spec_is_modified(),
                    !(item.kind is CrateRoot),
                    path_wf(item.path@),
                    item.path@[0] == old(self).spec_crate_name(),
                    1 <= probe.parts@.len() < full_len,
                    full_len == item.path@.len(),
                    2 <= full_len,
                    probe@ == item.path@.take(probe.parts@.len() as int),
                    forall|k: int|
                        probe.parts@.len() < k < full_len ==> rust_occupied(
                            s0,
                            item.path@.take(k),
                        ),
                decreases probe.parts@.len(),
            {
                if self.find_rust_item(&probe).is_none() {
                    proof {
                        assert(!rust_occupied(s0, item.path@.take(probe.parts@.len() as int)));
                    }
                    return Err(DatabaseError::PathError);
                }
                let lens = probe.parts.len();
                probe.parts.pop();
                proof {
                    assert(probe.parts.deep_view() =~= item.path@.take(lens - 1));
                }
            }
            proof {
                assert(forall|k: int|
                    2 <= k < full_len ==> rust_occupied(s0, item.path@.take(k)));
            }
        }
        proof {
            assert(rust_item_placeable(s0, cn, item));
        }
        let n = self.data.rust_items.len();
        let mut i: usize = 0;
        while i < n
            invariant
                i <= n,
                n == s0.len(),
                s0 == self.spec_rust_items(),
                self.spec_data() == old(self).spec_data(),
                self.spec_counters() == old(self).spec_counters(),
                self.spec_is_modified(),
                old(self).spec_counters().items_ignored < u32::MAX,
                rust_item_placeable(s0, cn, item),
                cn == old(self).spec_crate_name(),
                old(self).wf() ==> self.wf(),
                path_wf(item.path@),
                !rust_contains_same(s0.take(i as int), item),
            decreases n - i,
        {
            if self.data.rust_items[i].is_same(&item) {
                proof {
                    assert(rust_contains_same(s0, item));
                }
                self.counters.items_ignored = self.counters.items_ignored + 1;
                return Ok(());
            }
            i = i + 1;
            proof {
                assert forall|k: int|
                    0 <= k < i implies !same_rust_item(s0.take(i as int)[k], item) by {
                    if k < i - 1 {
                        assert(!same_rust_item(s0.take(i as int - 1)[k], item));
                    }
                }
            }
        }
        proof {
            assert(s0.take(n as int) =~= s0);
        }
        self.data.rust_items.push(item);
        self.counters.items_added = self.counters.items_added + 1;
        Ok(())
    }


    /// Builds the `number`-th probe for a desired path.
    fn build_probe(path: &RustPath, number: u64) -> (r: RustPath)
        requires
            path_wf(path@),
        ensures
            r@ == probe_path(path@, number as int),
            path_wf(r@),
    {
        let n = path.parts.len();
        let mut last = path.parts[n - 1].clone();
        if ends_with_digit(last.as_str()) {
            last.append("_");
            proof {
                reveal_strlit("_");
                assert("_"@ =~= seq!['_']);
            }
        }
        proof {
            assert(last@ =~= path@.last() + suffix_sep(path@.last()));
        }
        let digits = u64_to_dec_string(number);
        last.append(digits.as_str());
        let mut parts = clone_string_vec(&path.parts);
        parts.set(n - 1, last);
        proof {
            assert(parts.deep_view() =~= probe_path(path@, number as int));
        }
        RustPath { parts }
    }

    /// Synthesizes a path not occupied by any stored surface item: the
    /// desired path itself when free, else the desired path with its last
    /// segment suffixed by 2, 3, 4, ... in order, the first free probe
    /// winning. Only the last segment is ever changed. The probe sequence
    /// is unbounded and the store finite, so the search terminates.
    pub fn make_unique_rust_path(&self, path: &RustPath) -> (r: RustPath)
        requires
            path_wf(path@),
            self.spec_rust_items().len() + 2 < usize::MAX,
        ensures
            !rust_occupied(self.spec_rust_items(), r@),
            !rust_occupied(self.spec_rust_items(), path@) ==> r@ == path@,
            rust_occupied(self.spec_rust_items(), path@) ==> exists|m: int|
                {
                    &&& 2 <= m
                    &&& r@ == probe_path(path@, m)
                    &&& forall|k: int|
                        2 <= k < m ==> rust_occupied(
                            self.spec_rust_items(),
                            #[trigger] probe_path(path@, k),
                        )
                },
            r@.len() == path@.len(),
            r@.drop_last() == path@.drop_last(),
            path_wf(r@),
    {
        if self.rust_index_of(path).is_none() {
            let r = path.clone_path();
            return r;
        }
        let ghost s = self.spec_rust_items();
        let total = self.data.rust_items.len();
        let mut number: u64 = 2;
        let ghost mut witnesses: Set<int> = Set::empty();
        loop
            invariant
                2 <= number,
                total == s.len(),
                s == self.spec_rust_items(),
                path_wf(path@),
                rust_occupied(s, path@),
                total + 2 < usize::MAX,
                witnesses.finite(),
                witnesses.len() == number - 2,
                number <= total + 2,
                forall|w: int| #[trigger]
                    witnesses.contains(w) ==> 0 <= w < total && exists|m: int|
                        2 <= m < number && s[w].path@ == probe_path(path@, m),
                forall|k: int|
                    2 <= k < number ==> rust_occupied(s, #[trigger] probe_path(path@, k)),
            decreases total + 2 - number,
        {
            let probe = Self::build_probe(path, number);
            match self.rust_index_of(&probe) {
                None => {
                    proof {
                        assert(probe@.drop_last() =~= path@.drop_last());
                    }
                    return probe;
                },
                Some(w) => {
                    proof {
                        assert(s[w as int].path@ == probe_path(path@, number as int));
                        if witnesses.contains(w as int) {
                            let m = choose|m: int|
                                2 <= m < number && s[w as int].path@ == probe_path(path@, m);
                            lemma_probe_injective(path@, m, number as int);
                            assert(false);
                        }
                        witnesses = witnesses.insert(w as int);
                        assert(witnesses.len() == number - 2 + 1);
                        assert(witnesses.subset_of(set_int_range(0, total as int)));
                        lemma_int_range(0, total as int);
                        vstd::set_lib::lemma_len_subset(
                            witnesses,
                            set_int_range(0, total as int),
                        );
                    }
                    number = number + 1;
                },
            }
        }
    }

    /// Records the result of checking one FFI wrapper under one
    /// environment, into that wrapper's ledger. Everything else in the
    /// store is untouched; an unknown identifier changes nothing.
    pub fn record_check(&mut self, id: FfiItemId, env: LibraryTarget, error: Option<String>) -> (r:
        Result<RecordOutcome, DatabaseError>)
        requires
            old(self).wf(),
        ensures
            final(self).wf(),
            !(exists|i: int|
                0 <= i < old(self).spec_ffi_items().len() && (#[trigger] old(
                    self,
                ).spec_ffi_items()[i]).id.0 == id.0) ==> ({
                &&& r == Err::<RecordOutcome, DatabaseError>(DatabaseError::NotFound)
                &&& final(self).spec_data() == old(self).spec_data()
                &&& final(self).spec_is_modified() == old(self).spec_is_modified()
                &&& final(self).spec_counters() == old(self).spec_counters()
            }),
            forall|i: int|
                0 <= i < old(self).spec_ffi_items().len() && (#[trigger] old(
                    self,
                ).spec_ffi_items()[i]).id.0 == id.0 ==> ({
                    let pre = old(self).spec_ffi_items()[i];
                    let post = final(self).spec_ffi_items()[i];
                    &&& r matches Ok(outcome)
                    &&& (!has_env(pre.checks@, env@) ==> outcome is Added)
                    &&& (has_env(pre.checks@, env@) && pre.checks@[env_index(
                        pre.checks@,
                        env@,
                    )].error == opt_string_view(error) ==> outcome is Unchanged)
                    &&& (has_env(pre.checks@, env@) && pre.checks@[env_index(
                        pre.checks@,
                        env@,
                    )].error != opt_string_view(error) ==> ({
                        &&& outcome matches RecordOutcome::Changed { old: e }
                        &&& opt_string_view(e) == pre.checks@[env_index(pre.checks@, env@)].error
                    }))
                    &&& final(self).spec_is_modified()
                    &&& final(self).spec_ffi_items().len() == old(self).spec_ffi_items().len()
                    &&& forall|k: int|
                        0 <= k < old(self).spec_ffi_items().len() && k != i ==> final(self).spec_ffi_items()[k] == old(self).spec_ffi_items()[k]
                    &&& post.id == pre.id
                    &&& post.item == pre.item
                    &&& post.is_rust_processed == pre.is_rust_processed
                    &&& post.checks@ == record_model(pre.checks@, env@, opt_string_view(error))
                    &&& final(self).spec_cpp_items() == old(self).spec_cpp_items()
                    &&& final(self).spec_rust_items() == old(self).spec_rust_items()
                    &&& final(self).spec_targets() == old(self).spec_targets()
                    &&& final(self).same_names(old(self))
                    &&& final(self).spec_next_id() == old(self).spec_next_id()
                    &&& final(self).spec_counters() == old(self).spec_counters()
                }),
    {
        match self.ffi_index_of(id.0) {
            None => Err(DatabaseError::NotFound),
            Some(i) => {
                self.is_modified = true;
                let it = vstd::std_specs::vec::vec_index_mut(&mut self.data.ffi_items, i);
                let outcome = it.checks.record(env, error);
                Ok(outcome)
            },
        }
    }

    /// Marks one FFI wrapper as consumed by surface generation.
    pub fn set_rust_processed(&mut self, id: FfiItemId) -> (r: Result<(), DatabaseError>)
        requires
            old(self).wf(),
        ensures
            final(self).wf(),
            !(exists|i: int|
                0 <= i < old(self).spec_ffi_items().len() && (#[trigger] old(
                    self,
                ).spec_ffi_items()[i]).id.0 == id.0) ==> ({
                &&& r == Err::<(), DatabaseError>(DatabaseError::NotFound)
                &&& final(self).spec_data() == old(self).spec_data()
                &&& final(self).spec_is_modified() == old(self).spec_is_modified()
                &&& final(self).spec_counters() == old(self).spec_counters()
            }),
            forall|i: int|
                0 <= i < old(self).spec_ffi_items().len() && (#[trigger] old(
                    self,
                ).spec_ffi_items()[i]).id.0 == id.0 ==> ({
                    let pre = old(self).spec_ffi_items()[i];
                    let post = final(self).spec_ffi_items()[i];
                    &&& r is Ok
                    &&& final(self).spec_is_modified()
                    &&& final(self).spec_ffi_items().len() == old(self).spec_ffi_items().len()
                    &&& forall|k: int|
                        0 <= k < old(self).spec_ffi_items().len() && k != i ==> final(self).spec_ffi_items()[k] == old(self).spec_ffi_items()[k]
                    &&& post.id == pre.id
                    &&& post.item == pre.item
                    &&& post.checks == pre.checks
                    &&& post.is_rust_processed == true
                    &&& final(self).spec_cpp_items() == old(self).spec_cpp_items()
                    &&& final(self).spec_rust_items() == old(self).spec_rust_items()
                    &&& final(self).spec_targets() == old(self).spec_targets()
                    &&& final(self).same_names(old(self))
                    &&& final(self).spec_next_id() == old(self).spec_next_id()
                    &&& final(self).spec_counters() == old(self).spec_counters()
                }),
    {
        match self.ffi_index_of(id.0) {
            None => Err(DatabaseError::NotFound),
            Some(i) => {
                self.is_modified = true;
                let it = vstd::std_specs::vec::vec_index_mut(&mut self.data.ffi_items, i);
                it.is_rust_processed = true;
                Ok(())
            },
        }
    }

    /// Looks up an FFI wrapper by identifier.
    pub fn ffi_item(&self, id: FfiItemId) -> (r: Result<&CppFfiDatabaseItem, DatabaseError>)
        requires
            self.wf(),
        ensures
            (exists|i: int|
                0 <= i < self.spec_ffi_items().len() && (#[trigger] self.spec_ffi_items()[
                    i
                ]).id.0 == id.0) <==> r is Ok,
            r matches Ok(it) ==> it.id.0 == id.0 && exists|i: int|
                0 <= i < self.spec_ffi_items().len() && *it == self.spec_ffi_items()[i],
            r is Err ==> r == Err::<&CppFfiDatabaseItem, DatabaseError>(DatabaseError::NotFound),
    {
        match self.ffi_index_of(id.0) {
            Some(i) => Ok(&self.data.ffi_items[i]),
            None => Err(DatabaseError::NotFound),
        }
    }
}

} // verus!
