//! The per-item compatibility ledger: for each FFI wrapper, whether it
//! compiled and ran under each registered environment.
//!
//! A ledger holds at most one entry per distinct environment; recording a
//! result for an environment that already has one either leaves the ledger
//! unchanged (same outcome) or replaces the entry and reports the previous
//! error, which supports regression reporting.

use vstd::pervasive::VecAdditionalExecFns;
use vstd::prelude::*;

use crate::string_utils::{eq_opt_string, opt_string_view, str_eq};

verus! {

/// One configuration under which an FFI wrapper is validated: a platform
/// target descriptor plus an optional native-library version.
#[derive(Debug, Clone, Eq, PartialEq, Hash)]
pub struct LibraryTarget {
    /// Platform target descriptor.
    pub target: String,
    /// Version of the wrapped native library, if known.
    pub cpp_library_version: Option<String>,
}

impl View for LibraryTarget {
    type V = (Seq<char>, Option<Seq<char>>);

    open spec fn view(&self) -> (Seq<char>, Option<Seq<char>>) {
        (self.target@, opt_string_view(self.cpp_library_version))
    }
}

impl DeepView for LibraryTarget {
    type V = (Seq<char>, Option<Seq<char>>);

    open spec fn deep_view(&self) -> (Seq<char>, Option<Seq<char>>) {
        self.view()
    }
}

impl LibraryTarget {
    /// Character-for-character comparison with another environment.
    pub fn same_target(&self, other: &LibraryTarget) -> (r: bool)
        ensures
            r == (self@ == other@),
    {
        str_eq(self.target.as_str(), other.target.as_str()) && eq_opt_string(
            &self.cpp_library_version,
            &other.cpp_library_version,
        )
    }
}

/// The mathematical shape of one ledger entry.
pub struct CheckEntryView {
    pub env: (Seq<char>, Option<Seq<char>>),
    pub error: Option<Seq<char>>,
}

/// One recorded result: the environment and the error it produced, or
/// `None` when the wrapper passed there.
#[derive(Debug, Clone, Eq, PartialEq)]
pub struct CppCheckItem {
    pub env: LibraryTarget,
    pub error: Option<String>,
}

impl View for CppCheckItem {
    type V = CheckEntryView;

    open spec fn view(&self) -> CheckEntryView {
        CheckEntryView { env: self.env@, error: opt_string_view(self.error) }
    }
}

impl DeepView for CppCheckItem {
    type V = CheckEntryView;

    open spec fn deep_view(&self) -> CheckEntryView {
        self.view()
    }
}

/// A ledger holds at most one entry per distinct environment.
pub open spec fn checks_wf(s: Seq<CheckEntryView>) -> bool {
    forall|i: int, j: int| 0 <= i < j < s.len() ==> s[i].env != s[j].env
}

/// Some entry records the given environment.
pub open spec fn has_env(s: Seq<CheckEntryView>, env: (Seq<char>, Option<Seq<char>>)) -> bool {
    exists|i: int| 0 <= i < s.len() && s[i].env == env
}

/// The position of the entry recording the given environment; in a
/// well-formed ledger there is at most one.
pub open spec fn env_index(s: Seq<CheckEntryView>, env: (Seq<char>, Option<Seq<char>>)) -> int {
    choose|i: int| 0 <= i < s.len() && s[i].env == env
}

/// The ledger after recording a result: a new entry is appended for an
/// unseen environment, the existing entry is replaced otherwise.
pub open spec fn record_model(
    s: Seq<CheckEntryView>,
    env: (Seq<char>, Option<Seq<char>>),
    error: Option<Seq<char>>,
) -> Seq<CheckEntryView> {
    if has_env(s, env) {
        s.update(env_index(s, env), CheckEntryView { env, error })
    } else {
        s.push(CheckEntryView { env, error })
    }
}

/// Some entry of the ledger has no error.
pub open spec fn some_passed(s: Seq<CheckEntryView>) -> bool {
    exists|i: int| 0 <= i < s.len() && s[i].error is None
}

/// What `record` reports: the environment was new, its entry changed (with
/// the error it had before), or nothing changed.
#[derive(Debug, Clone, Eq, PartialEq)]
pub enum RecordOutcome {
    Added,
    Changed { old: Option<String> },
    Unchanged,
}

/// The pass/fail ledger of one FFI wrapper.
#[derive(Debug, Clone, Eq, PartialEq)]
pub struct CppChecks {
    items: Vec<CppCheckItem>,
}

impl View for CppChecks {
    type V = Seq<CheckEntryView>;

    closed spec fn view(&self) -> Seq<CheckEntryView> {
        self.items.deep_view()
    }
}

impl CppChecks {
    /// An empty ledger.
    pub fn new() -> (r: CppChecks)
        ensures
            r@ == Seq::<CheckEntryView>::empty(),
            checks_wf(r@),
    {
        let r = CppChecks { items: Vec::new() };
        proof {
            assert(r@ =~= Seq::<CheckEntryView>::empty());
        }
        r
    }

    /// The recorded entries, in recording order.
    pub fn entries(&self) -> (r: &Vec<CppCheckItem>)
        ensures
            r.deep_view() == self@,
    {
        &self.items
    }

    /// Returns true if the ledger holds at most one entry per distinct
    /// environment.
    pub fn is_well_formed(&self) -> (r: bool)
        ensures
            r == checks_wf(self@),
    {
        let n = self.items.len();
        let mut i: usize = 0;
        while i < n
            invariant
                i <= n,
                n == self.items@.len(),
                forall|a: int, b: int| 0 <= a < b < i ==> self@[a].env != self@[b].env,
            decreases n - i,
        {
            let mut j: usize = 0;
            while j < i
                invariant
                    j <= i < n,
                    n == self.items@.len(),
                    forall|b: int| 0 <= b < j ==> self@[b].env != self@[i as int].env,
                decreases i - j,
            {
                if self.items[j].env.same_target(&self.items[i].env) {
                    proof {
                        assert(self@[j as int].env == self@[i as int].env);
                    }
                    return false;
                }
                j = j + 1;
            }
            proof {
                assert forall|a: int| 0 <= a < i implies self@[a].env != self@[i as int].env by {
                    assert(self@[a].env != self@[i as int].env);
                }
            }
            i = i + 1;
        }
        true
    }

    /// Records the result of checking under one environment. A new
    /// environment is appended and `Added` returned; an environment whose
    /// recorded error equals the new one is left as it is and `Unchanged`
    /// returned; otherwise the entry is replaced and `Changed` returns the
    /// error it held before.
    pub fn record(&mut self, env: LibraryTarget, error: Option<String>) -> (r: RecordOutcome)
        requires
            checks_wf(old(self)@),
        ensures
            checks_wf(final(self)@),
            final(self)@ == record_model(old(self)@, env@, opt_string_view(error)),
            !has_env(old(self)@, env@) ==> (r matches RecordOutcome::Added),
            has_env(old(self)@, env@) && old(self)@[env_index(old(self)@, env@)].error
                == opt_string_view(error) ==> (r matches RecordOutcome::Unchanged && final(self)@
                == old(self)@),
            has_env(old(self)@, env@) && old(self)@[env_index(old(self)@, env@)].error
                != opt_string_view(error) ==> (r matches RecordOutcome::Changed { old: e }
                && opt_string_view(e) == old(self)@[env_index(old(self)@, env@)].error),
    {
        let ghost s0 = self@;
        let ghost envv = env@;
        let n = self.items.len();
        let mut i: usize = 0;
        while i < n
            invariant
                i <= n,
                n == self.items@.len(),
                s0 == self@,
                s0 == old(self)@,
                envv == env@,
                checks_wf(s0),
                forall|j: int| 0 <= j < i ==> s0[j].env != envv,
            decreases n - i,
        {
            if self.items[i].env.same_target(&env) {
                proof {
                    assert(s0[i as int].env == envv);
                    assert(has_env(s0, envv));
                    assert(env_index(s0, envv) == i as int) by {
                        let w = env_index(s0, envv);
                        assert(0 <= w < s0.len() && s0[w].env == envv);
                    }
                }
                if eq_opt_string(&self.items[i].error, &error) {
                    proof {
                        let entry = CheckEntryView { env: envv, error: opt_string_view(error) };
                        assert(entry == s0[i as int]);
                        assert(s0.update(i as int, entry) =~= s0);
                    }
                    return RecordOutcome::Unchanged;
                }
                let mut entry = CppCheckItem { env, error };
                let ghost entryv = CheckEntryView { env: envv, error: opt_string_view(entry.error) };
                let prev = self.swap_entry(i, entry);
                proof {
                    assert(self@ =~= s0.update(i as int, entryv));
                    lemma_checks_wf_update(s0, i as int, entryv);
                }
                return RecordOutcome::Changed { old: prev.error };
            }
            i = i + 1;
        }
        proof {
            assert(!has_env(s0, envv));
        }
        self.items.push(CppCheckItem { env, error });
        proof {
            assert(self@ =~= s0.push(CheckEntryView { env: envv, error: opt_string_view(error) }));
            assert(checks_wf(self@)) by {
                assert(forall|j: int|
                    0 <= j < s0.len() ==> self@[j] == s0[j] && self@[j].env == s0[j].env);
            }
        }
        RecordOutcome::Added
    }

    /// Replaces the entry at `i`, returning the one that stood there.
    fn swap_entry(&mut self, i: usize, entry: CppCheckItem) -> (r: CppCheckItem)
        requires
            i < old(self)@.len(),
        ensures
            r@ == old(self)@[i as int],
            final(self)@ == old(self)@.update(i as int, entry@),
    {
        let ghost entryv = entry@;
        let mut e = entry;
        self.items.set_and_swap(i, &mut e);
        proof {
            assert(self@ =~= old(self)@.update(i as int, entryv));
        }
        e
    }

    /// Returns true if at least one recorded entry has no error.
    pub fn any_passed(&self) -> (r: bool)
        ensures
            r == some_passed(self@),
    {
        let n = self.items.len();
        let mut i: usize = 0;
        while i < n
            invariant
                i <= n,
                n == self.items@.len(),
                forall|j: int| 0 <= j < i ==> self@[j].error is Some,
            decreases n - i,
        {
            if self.items[i].error.is_none() {
                proof {
                    assert(self@[i as int].error is None);
                }
                return true;
            }
            i = i + 1;
        }
        false
    }

    /// Removes all entries.
    pub fn clear(&mut self)
        ensures
            final(self)@ == Seq::<CheckEntryView>::empty(),
            checks_wf(final(self)@),
    {
        self.items.clear();
        proof {
            assert(self@ =~= Seq::<CheckEntryView>::empty());
        }
    }
}

impl Default for CppChecks {
    /// An empty ledger.
    fn default() -> (r: CppChecks)
        ensures
            r@ == Seq::<CheckEntryView>::empty(),
            checks_wf(r@),
    {
        CppChecks::new()
    }
}

/// Recording an outcome and then recording the same outcome again leaves
/// the ledger exactly as after the first recording.
pub proof fn lemma_record_idempotent(
    s: Seq<CheckEntryView>,
    env: (Seq<char>, Option<Seq<char>>),
    error: Option<Seq<char>>,
)
    requires
        checks_wf(s),
    ensures
        has_env(record_model(s, env, error), env),
        record_model(s, env, error)[env_index(record_model(s, env, error), env)].error == error,
        record_model(record_model(s, env, error), env, error) == record_model(s, env, error),
{
    let s1 = record_model(s, env, error);
    let entry = CheckEntryView { env, error };
    if has_env(s, env) {
        let i = env_index(s, env);
        assert(0 <= i < s.len() && s[i].env == env);
        assert(s1[i] == entry);
        assert(has_env(s1, env));
        lemma_checks_wf_update(s, i, entry);
        let j = env_index(s1, env);
        assert(0 <= j < s1.len() && s1[j].env == env);
        assert(j == i);
        assert(s1.update(j, entry) =~= s1);
    } else {
        let i = s.len() as int;
        assert(s1[i] == entry);
        assert(has_env(s1, env));
        let j = env_index(s1, env);
        assert(0 <= j < s1.len() && s1[j].env == env);
        assert(forall|k: int| 0 <= k < s.len() ==> s1[k] == s[k]);
        assert(j == i);
        assert(s1.update(j, entry) =~= s1);
    }
}

/// Replacing the entry at a position with one for the same environment
/// keeps the ledger well formed.
pub proof fn lemma_checks_wf_update(s: Seq<CheckEntryView>, i: int, entry: CheckEntryView)
    requires
        checks_wf(s),
        0 <= i < s.len(),
        s[i].env == entry.env,
    ensures
        checks_wf(s.update(i, entry)),
{
}

} // verus!
