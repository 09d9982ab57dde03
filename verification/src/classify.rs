//! Type classification engine: decides, per declared type, whether values
//! may cross the interop boundary by plain copy (`Trivial`) or must be
//! accessed through an indirection handle (`Opaque`).
//!
//! Ingestion records one entry per type: enums as trivial leaves, structs
//! with their field-name dependencies, typedefs as alias links or opaque
//! leaves.  Classification is then resolved once, globally: the engine
//! computes the least fixpoint of the one-step triviality condition, so
//! forward references are supported and cyclic dependency chains are
//! rejected (they classify `Opaque`).

use vstd::prelude::*;

use crate::name::cpp_name_of;
use crate::name::QnV;
use crate::name::QualifiedName;

verus! {

/// The classification of one type.
#[derive(PartialEq, Eq, Structural, Clone, Copy, Debug)]
pub enum Classification {
    /// Values may be copied across the boundary by plain copy.
    Trivial,
    /// Values must be accessed through an indirection handle.
    Opaque,
}

/// What ingestion recorded about one type.
pub enum TypeEntry {
    /// A type whose classification is known outright: an enum or a
    /// built-in known-trivial name (trivial), or an alias with arguments
    /// or a complex alias target (opaque).
    Leaf { trivial: bool },
    /// A typedef aliasing another named type.
    Alias { target: QualifiedName },
    /// A struct with one dependency per field: the field type's name, or
    /// `None` for an indirection-bearing or unrecognized field shape,
    /// which never classifies trivial.
    Fields { deps: Vec<Option<QualifiedName>> },
}

pub enum TypeEntryV {
    Leaf { trivial: bool },
    Alias { target: QnV },
    Fields { deps: Seq<Option<QnV>> },
}

pub open spec fn dep_v(d: Option<QualifiedName>) -> Option<QnV> {
    match d {
        Option::None => Option::None,
        Option::Some(q) => Option::Some(q@),
    }
}

pub open spec fn deps_v(s: Seq<Option<QualifiedName>>) -> Seq<Option<QnV>>
    decreases s,
{
    if s.len() == 0 {
        Seq::empty()
    } else {
        seq![dep_v(s[0])] + deps_v(s.drop_first())
    }
}

pub open spec fn entry_v(e: TypeEntry) -> TypeEntryV {
    match e {
        TypeEntry::Leaf { trivial } => TypeEntryV::Leaf { trivial },
        TypeEntry::Alias { target } => TypeEntryV::Alias { target: target@ },
        TypeEntry::Fields { deps } => TypeEntryV::Fields { deps: deps_v(deps@) },
    }
}

pub open spec fn entries_v(s: Seq<(QualifiedName, TypeEntry)>) -> Seq<(QnV, TypeEntryV)>
    decreases s,
{
    if s.len() == 0 {
        Seq::empty()
    } else {
        seq![(s[0].0@, entry_v(s[0].1))] + entries_v(s.drop_first())
    }
}

pub open spec fn qns_v(s: Seq<QualifiedName>) -> Seq<QnV>
    decreases s,
{
    if s.len() == 0 {
        Seq::empty()
    } else {
        seq![s[0]@] + qns_v(s.drop_first())
    }
}

pub broadcast proof fn lemma_deps_v(s: Seq<Option<QualifiedName>>)
    ensures
        (#[trigger] deps_v(s)).len() == s.len(),
        forall|i: int| 0 <= i < s.len() ==> deps_v(s)[i] == dep_v(s[i]),
    decreases s,
{
    if s.len() > 0 {
        lemma_deps_v(s.drop_first());
    }
}

pub broadcast proof fn lemma_entries_v(s: Seq<(QualifiedName, TypeEntry)>)
    ensures
        (#[trigger] entries_v(s)).len() == s.len(),
        forall|i: int|
            0 <= i < s.len() ==> entries_v(s)[i] == (s[i].0@, entry_v(s[i].1)),
    decreases s,
{
    if s.len() > 0 {
        lemma_entries_v(s.drop_first());
    }
}

pub broadcast proof fn lemma_qns_v(s: Seq<QualifiedName>)
    ensures
        (#[trigger] qns_v(s)).len() == s.len(),
        forall|i: int| 0 <= i < s.len() ==> qns_v(s)[i] == s[i]@,
    decreases s,
{
    if s.len() > 0 {
        lemma_qns_v(s.drop_first());
    }
}

pub broadcast group group_classify_view_lemmas {
    lemma_deps_v,
    lemma_entries_v,
    lemma_qns_v,
}

// ---------------------------------------------------------------------------
// The classification relation.
// ---------------------------------------------------------------------------
/// The position of the first entry recorded for `n`, or `-1`.
pub open spec fn first_index(es: Seq<(QnV, TypeEntryV)>, n: QnV) -> int
    decreases es,
{
    if es.len() == 0 {
        -1
    } else if es[0].0 == n {
        0
    } else {
        let r = first_index(es.drop_first(), n);
        if r < 0 {
            -1
        } else {
            r + 1
        }
    }
}

pub broadcast proof fn lemma_first_index(es: Seq<(QnV, TypeEntryV)>, n: QnV)
    ensures
        ({
            let i = #[trigger] first_index(es, n);
            &&& (i == -1 || (0 <= i < es.len() && es[i].0 == n))
            &&& (i == -1 ==> forall|j: int| 0 <= j < es.len() ==> (#[trigger] es[j]).0 != n)
            &&& (i >= 0 ==> forall|j: int| 0 <= j < i ==> (#[trigger] es[j]).0 != n)
        }),
    decreases es,
{
    if es.len() > 0 && es[0].0 != n {
        let d = es.drop_first();
        lemma_first_index(d, n);
        let r = first_index(d, n);
        if r < 0 {
            assert forall|j: int| 0 <= j < es.len() implies (#[trigger] es[j]).0 != n by {
                if j > 0 {
                    assert(es[j] == d[j - 1]);
                }
            }
        } else {
            assert(es[r + 1] == d[r]);
            assert forall|j: int| 0 <= j < r + 1 implies (#[trigger] es[j]).0 != n by {
                if j > 0 {
                    assert(es[j] == d[j - 1]);
                }
            }
        }
    }
}

/// Pins the value of `first_index` down from a found position.
pub proof fn lemma_first_index_is(es: Seq<(QnV, TypeEntryV)>, n: QnV, i: int)
    requires
        0 <= i < es.len(),
        es[i].0 == n,
        forall|j: int| 0 <= j < i ==> (#[trigger] es[j]).0 != n,
    ensures
        first_index(es, n) == i,
{
    lemma_first_index(es, n);
    let fi = first_index(es, n);
    if fi == -1 {
        assert(es[i].0 != n);
    } else if fi < i {
        assert(es[fi].0 != n);
    } else if fi > i {
        assert(es[i].0 != n);
    }
}

/// Looks up the entry recorded for `n` (first declaration wins).
pub open spec fn entry_of(es: Seq<(QnV, TypeEntryV)>, n: QnV) -> Option<TypeEntryV> {
    let i = first_index(es, n);
    if i >= 0 {
        Option::Some(es[i].1)
    } else {
        Option::None
    }
}

/// Whether `n` is marked trivial by the bit assignment `bits`.
pub open spec fn cls_at(es: Seq<(QnV, TypeEntryV)>, bits: Seq<bool>, n: QnV) -> bool {
    let i = first_index(es, n);
    0 <= i < bits.len() && bits[i]
}

/// Whether one field dependency counts as trivial under `bits`.
pub open spec fn dep_trivial(es: Seq<(QnV, TypeEntryV)>, bits: Seq<bool>, d: Option<QnV>) -> bool {
    match d {
        Option::None => false,
        Option::Some(q) => cls_at(es, bits, q),
    }
}

/// Whether every field dependency counts as trivial under `bits`.
pub open spec fn deps_all_trivial(
    es: Seq<(QnV, TypeEntryV)>,
    bits: Seq<bool>,
    deps: Seq<Option<QnV>>,
) -> bool {
    forall|i: int| 0 <= i < deps.len() ==> dep_trivial(es, bits, #[trigger] deps[i])
}

/// The one-step triviality condition for one entry, under `bits`:
/// a leaf is what it says; an alias is as trivial as its target; a struct
/// is trivial exactly when every field dependency is.
pub open spec fn entry_step(es: Seq<(QnV, TypeEntryV)>, bits: Seq<bool>, e: TypeEntryV) -> bool {
    match e {
        TypeEntryV::Leaf { trivial } => trivial,
        TypeEntryV::Alias { target } => cls_at(es, bits, target),
        TypeEntryV::Fields { deps } => deps_all_trivial(es, bits, deps),
    }
}

/// Instantiates the per-field condition of a struct entry.
pub proof fn lemma_fields_step_elim(
    es: Seq<(QnV, TypeEntryV)>,
    bits: Seq<bool>,
    deps: Seq<Option<QnV>>,
    i: int,
)
    requires
        entry_step(es, bits, TypeEntryV::Fields { deps }),
        0 <= i < deps.len(),
    ensures
        dep_trivial(es, bits, deps[i]),
{
    assert(deps_all_trivial(es, bits, deps));
}

/// `bits` assigns every entry exactly its one-step condition.
pub open spec fn is_fixpoint(es: Seq<(QnV, TypeEntryV)>, bits: Seq<bool>) -> bool {
    &&& bits.len() == es.len()
    &&& forall|i: int|
        0 <= i < es.len() ==> bits[i] == entry_step(es, bits, (#[trigger] es[i]).1)
}

/// `bits` is below every fixpoint: together with `is_fixpoint` it pins
/// the resolution down to the least fixpoint, under which a cyclic
/// dependency chain classifies opaque.
pub open spec fn is_least(es: Seq<(QnV, TypeEntryV)>, bits: Seq<bool>) -> bool {
    forall|g: Seq<bool>| #[trigger] is_fixpoint(es, g) ==> pointwise_le(bits, g)
}

/// Every set bit is justified by its one-step condition (the loop
/// invariant of the resolution below).
pub open spec fn is_sound_pre(es: Seq<(QnV, TypeEntryV)>, bits: Seq<bool>) -> bool {
    &&& bits.len() == es.len()
    &&& forall|i: int|
        0 <= i < es.len() ==> (bits[i] ==> entry_step(es, bits, (#[trigger] es[i]).1))
}

pub open spec fn pointwise_le(a: Seq<bool>, b: Seq<bool>) -> bool {
    a.len() == b.len() && forall|i: int| 0 <= i < a.len() ==> (a[i] ==> #[trigger] b[i])
}

pub proof fn lemma_cls_at_monotone(
    es: Seq<(QnV, TypeEntryV)>,
    a: Seq<bool>,
    b: Seq<bool>,
    n: QnV,
)
    requires
        pointwise_le(a, b),
        cls_at(es, a, n),
    ensures
        cls_at(es, b, n),
{
}

pub proof fn lemma_entry_step_monotone(
    es: Seq<(QnV, TypeEntryV)>,
    a: Seq<bool>,
    b: Seq<bool>,
    e: TypeEntryV,
)
    requires
        pointwise_le(a, b),
        entry_step(es, a, e),
    ensures
        entry_step(es, b, e),
{
    match e {
        TypeEntryV::Leaf { trivial } => {
        },
        TypeEntryV::Alias { target } => {
            lemma_cls_at_monotone(es, a, b, target);
        },
        TypeEntryV::Fields { deps } => {
            assert forall|i: int| 0 <= i < deps.len() implies dep_trivial(
                es,
                b,
                #[trigger] deps[i],
            ) by {
                assert(dep_trivial(es, a, deps[i]));
                match deps[i] {
                    Option::None => {
                    },
                    Option::Some(q) => {
                        lemma_cls_at_monotone(es, a, b, q);
                    },
                }
            }
        },
    }
}

// ---------------------------------------------------------------------------
// Counting set bits, for termination of the resolution.
// ---------------------------------------------------------------------------
pub open spec fn count_true(s: Seq<bool>) -> nat
    decreases s,
{
    if s.len() == 0 {
        0nat
    } else {
        (if s[0] {
            1nat
        } else {
            0nat
        }) + count_true(s.drop_first())
    }
}

pub proof fn lemma_count_true_le_len(s: Seq<bool>)
    ensures
        count_true(s) <= s.len(),
    decreases s,
{
    if s.len() > 0 {
        lemma_count_true_le_len(s.drop_first());
    }
}

pub proof fn lemma_count_true_lt(a: Seq<bool>, b: Seq<bool>, k: int)
    requires
        pointwise_le(a, b),
        0 <= k < a.len(),
        a[k] != b[k],
    ensures
        count_true(a) < count_true(b),
    decreases a,
{
    if k == 0 {
        lemma_count_true_le(a.drop_first(), b.drop_first());
    } else {
        lemma_count_true_lt(a.drop_first(), b.drop_first(), k - 1);
    }
}

pub proof fn lemma_count_true_le(a: Seq<bool>, b: Seq<bool>)
    requires
        pointwise_le(a, b),
    ensures
        count_true(a) <= count_true(b),
    decreases a,
{
    if a.len() > 0 {
        lemma_count_true_le(a.drop_first(), b.drop_first());
    }
}

// ---------------------------------------------------------------------------
// The classifier.
// ---------------------------------------------------------------------------
/// The classification engine.  Ingest every declaration, resolve once with
/// [`Classifier::satisfy_requests`], then consult read-only.
pub struct Classifier {
    pub entries: Vec<(QualifiedName, TypeEntry)>,
    pub resolved: Vec<bool>,
    pub done: bool,
}

impl Classifier {
    /// The recorded entries, as views.
    pub open spec fn entries_view(self) -> Seq<(QnV, TypeEntryV)> {
        entries_v(self.entries@)
    }

    /// Resolution has run and assigned every entry its one-step condition.
    pub open spec fn resolved_ok(self) -> bool {
        self.done && is_fixpoint(self.entries_view(), self.resolved@)
    }

    /// The resolution is the least fixpoint.
    pub open spec fn resolved_least(self) -> bool {
        is_least(self.entries_view(), self.resolved@)
    }

    /// Whether `n` classifies trivial (meaningful once `resolved_ok`).
    pub open spec fn is_trivial_spec(self, n: QnV) -> bool {
        cls_at(self.entries_view(), self.resolved@, n)
    }

    /// A fresh classifier with nothing ingested.
    pub fn new() -> (r: Self)
        ensures
            r.entries_view() == Seq::<(QnV, TypeEntryV)>::empty(),
            !r.done,
    {
        let r = Classifier { entries: Vec::new(), resolved: Vec::new(), done: false };
        proof {
            assert(r.entries_view() =~= Seq::<(QnV, TypeEntryV)>::empty());
        }
        r
    }

    fn push_entry(&mut self, name: QualifiedName, e: TypeEntry)
        ensures
            final(self).entries_view() == old(self).entries_view().push((name@, entry_v(e))),
            !final(self).done,
    {
        broadcast use group_classify_view_lemmas;

        self.entries.push((name, e));
        self.done = false;
        proof {
            assert(final(self).entries_view() =~= old(self).entries_view().push(
                (name@, entry_v(e)),
            ));
        }
    }

    /// Records a type that is trivial outright (an enum, or a built-in
    /// known-trivial name).
    pub fn ingest_pod_type(&mut self, name: QualifiedName)
        ensures
            final(self).entries_view() == old(self).entries_view().push(
                (name@, TypeEntryV::Leaf { trivial: true }),
            ),
            !final(self).done,
    {
        self.push_entry(name, TypeEntry::Leaf { trivial: true });
    }

    /// Records a type that can never be passed by value (a typedef with
    /// arguments or with a complex target).
    pub fn ingest_nonpod_type(&mut self, name: QualifiedName)
        ensures
            final(self).entries_view() == old(self).entries_view().push(
                (name@, TypeEntryV::Leaf { trivial: false }),
            ),
            !final(self).done,
    {
        self.push_entry(name, TypeEntry::Leaf { trivial: false });
    }

    /// Records a typedef aliasing another named type.
    pub fn ingest_simple_typedef(&mut self, name: QualifiedName, target: QualifiedName)
        ensures
            final(self).entries_view() == old(self).entries_view().push(
                (name@, TypeEntryV::Alias { target: target@ }),
            ),
            !final(self).done,
    {
        self.push_entry(name, TypeEntry::Alias { target });
    }

    /// Records a struct with its per-field dependencies.
    pub fn ingest_struct_deps(&mut self, name: QualifiedName, deps: Vec<Option<QualifiedName>>)
        ensures
            final(self).entries_view() == old(self).entries_view().push(
                (name@, TypeEntryV::Fields { deps: deps_v(deps@) }),
            ),
            !final(self).done,
    {
        self.push_entry(name, TypeEntry::Fields { deps });
    }

    #[verifier::loop_isolation(false)]
    fn find_first(&self, n: &QualifiedName) -> (r: Option<usize>)
        ensures
            match r {
                Option::Some(i) => first_index(self.entries_view(), n@) == i,
                Option::None => first_index(self.entries_view(), n@) == -1,
            },
    {
        proof {
            lemma_entries_v(self.entries@);
        }
        let ghost es = self.entries_view();
        let len = self.entries.len();
        let mut i: usize = 0;
        while i < len
            invariant
                es == self.entries_view(),
                len == self.entries.len(),
                len == es.len(),
                i <= len,
                forall|j: int| 0 <= j < i ==> (#[trigger] es[j]).0 != n@,
            decreases len - i,
        {
            if self.entries[i].0 == *n {
                proof {
                    assert(es[i as int].0 == n@);
                    lemma_first_index_is(es, n@, i as int);
                }
                return Option::Some(i);
            }
            i = i + 1;
        }
        proof {
            lemma_first_index(es, n@);
        }
        Option::None
    }

    #[verifier::loop_isolation(false)]
    fn cls_lookup(
        entries: &Vec<(QualifiedName, TypeEntry)>,
        bits: &Vec<bool>,
        n: &QualifiedName,
    ) -> (r: bool)
        ensures
            r == cls_at(entries_v(entries@), bits@, n@),
    {
        proof {
            lemma_entries_v(entries@);
        }
        let ghost es = entries_v(entries@);
        let len = entries.len();
        let mut i: usize = 0;
        while i < len
            invariant
                es == entries_v(entries@),
                len == entries.len(),
                len == es.len(),
                i <= len,
                forall|j: int| 0 <= j < i ==> (#[trigger] es[j]).0 != n@,
            decreases len - i,
        {
            if entries[i].0 == *n {
                proof {
                    assert(es[i as int].0 == n@);
                    lemma_first_index_is(es, n@, i as int);
                }
                return i < bits.len() && bits[i];
            }
            i = i + 1;
        }
        proof {
            lemma_first_index(es, n@);
        }
        false
    }

    #[verifier::loop_isolation(false)]
    fn step_entry(
        entries: &Vec<(QualifiedName, TypeEntry)>,
        bits: &Vec<bool>,
        e: &TypeEntry,
    ) -> (r: bool)
        ensures
            r == entry_step(entries_v(entries@), bits@, entry_v(*e)),
    {
        match e {
            TypeEntry::Leaf { trivial } => *trivial,
            TypeEntry::Alias { target } => Self::cls_lookup(entries, bits, target),
            TypeEntry::Fields { deps } => {
                proof {
                    lemma_deps_v(deps@);
                }
                let ghost depsv = deps_v(deps@);
                let n = deps.len();
                let mut i: usize = 0;
                while i < n
                    invariant
                        depsv == deps_v(deps@),
                        n == deps.len(),
                        n == depsv.len(),
                        i <= n,
                        forall|j: int|
                            0 <= j < i ==> dep_trivial(
                                entries_v(entries@),
                                bits@,
                                #[trigger] depsv[j],
                            ),
                    decreases n - i,
                {
                    let ok = match &deps[i] {
                        Option::None => false,
                        Option::Some(q) => Self::cls_lookup(entries, bits, q),
                    };
                    proof {
                        assert(depsv[i as int] == dep_v(deps@[i as int]));
                        assert(ok == dep_trivial(entries_v(entries@), bits@, depsv[i as int]));
                    }
                    if !ok {
                        proof {
                            assert(entry_v(*e) == TypeEntryV::Fields { deps: depsv });
                            assert(!dep_trivial(entries_v(entries@), bits@, depsv[i as int]));
                            if entry_step(entries_v(entries@), bits@, TypeEntryV::Fields { deps: depsv }) {
                                lemma_fields_step_elim(entries_v(entries@), bits@, depsv, i as int);
                            }
                        }
                        return false;
                    }
                    i = i + 1;
                }
                true
            },
        }
    }

    #[verifier::loop_isolation(false)]
    fn step_all(entries: &Vec<(QualifiedName, TypeEntry)>, bits: &Vec<bool>) -> (r: Vec<bool>)
        ensures
            r@.len() == entries@.len(),
            forall|i: int|
                0 <= i < entries@.len() ==> r@[i] == entry_step(
                    entries_v(entries@),
                    bits@,
                    entry_v(entries@[i].1),
                ),
    {
        let n = entries.len();
        let mut r: Vec<bool> = Vec::new();
        let mut i: usize = 0;
        while i < n
            invariant
                n == entries.len(),
                i <= n,
                r@.len() == i,
                forall|j: int|
                    0 <= j < i ==> r@[j] == entry_step(
                        entries_v(entries@),
                        bits@,
                        entry_v(entries@[j].1),
                    ),
            decreases n - i,
        {
            let b = Self::step_entry(entries, bits, &entries[i].1);
            r.push(b);
            i = i + 1;
        }
        r
    }

    /// The first index where the two bit vectors differ.
    #[verifier::loop_isolation(false)]
    fn first_diff(a: &Vec<bool>, b: &Vec<bool>) -> (r: Option<usize>)
        requires
            a@.len() == b@.len(),
        ensures
            match r {
                Option::Some(k) => 0 <= k < a@.len() && a@[k as int] != b@[k as int],
                Option::None => a@ == b@,
            },
    {
        let n = a.len();
        let mut i: usize = 0;
        while i < n
            invariant
                n == a.len(),
                a@.len() == b@.len(),
                i <= n,
                forall|j: int| 0 <= j < i ==> a@[j] == b@[j],
            decreases n - i,
        {
            if a[i] != b[i] {
                return Option::Some(i);
            }
            i = i + 1;
        }
        proof {
            assert(a@ =~= b@);
        }
        Option::None
    }

    /// Resolves every recorded entry: computes the least fixpoint of the
    /// one-step triviality condition.
    #[verifier::loop_isolation(false)]
    fn finalize(&mut self)
        ensures
            final(self).entries == old(self).entries,
            final(self).resolved_ok(),
            final(self).resolved_least(),
    {
        proof {
            lemma_entries_v(self.entries@);
        }
        let ghost es = entries_v(self.entries@);
        let n = self.entries.len();
        let mut cur: Vec<bool> = Vec::new();
        let mut i: usize = 0;
        while i < n
            invariant
                n == self.entries.len(),
                i <= n,
                cur@.len() == i,
                forall|j: int| 0 <= j < i ==> !cur@[j],
            decreases n - i,
        {
            cur.push(false);
            i = i + 1;
        }
        proof {
            assert forall|g: Seq<bool>| #[trigger] is_fixpoint(es, g) implies pointwise_le(
                cur@,
                g,
            ) by {
                assert(forall|j: int| 0 <= j < n ==> !cur@[j]);
            }
        }
        let mut fixed = false;
        while !fixed
            invariant
                es == entries_v(self.entries@),
                n == self.entries.len(),
                n == es.len(),
                cur@.len() == n,
                is_sound_pre(es, cur@),
                is_least(es, cur@),
                fixed ==> is_fixpoint(es, cur@),
            decreases
                    (if fixed {
                        0int
                    } else {
                        1int
                    }),
                    n - count_true(cur@),
    {
            let next = Self::step_all(&self.entries, &cur);
            match Self::first_diff(&next, &cur) {
                Option::None => {
                    proof {
                        assert forall|j: int| 0 <= j < n implies cur@[j] == entry_step(
                            es,
                            cur@,
                            (es[j]).1,
                        ) by {
                            assert(es[j] == (self.entries@[j].0@, entry_v(self.entries@[j].1)));
                            assert(next@[j] == entry_step(es, cur@, entry_v(self.entries@[j].1)));
                        }
                    }
                    fixed = true;
                },
                Option::Some(k) => {
                    proof {
                        // The bits only grow: every set bit's one-step
                        // condition is preserved by growth.
                        assert forall|j: int| 0 <= j < n implies (cur@[j] ==> #[trigger] next@[j]) by {
                            assert(es[j] == (self.entries@[j].0@, entry_v(self.entries@[j].1)));
                            if cur@[j] {
                                assert(entry_step(es, cur@, es[j].1));
                            }
                        }
                        assert(pointwise_le(cur@, next@));
                        assert forall|j: int| 0 <= j < n implies (next@[j] ==> entry_step(
                            es,
                            next@,
                            (es[j]).1,
                        )) by {
                            assert(es[j] == (self.entries@[j].0@, entry_v(self.entries@[j].1)));
                            if next@[j] {
                                lemma_entry_step_monotone(es, cur@, next@, es[j].1);
                            }
                        }
                        lemma_count_true_lt(cur@, next@, k as int);
                        lemma_count_true_le_len(next@);
                        assert forall|g: Seq<bool>| #[trigger] is_fixpoint(es, g) implies
                        pointwise_le(next@, g) by {
                            assert(pointwise_le(cur@, g));
                            assert forall|j: int| 0 <= j < n implies (next@[j] ==> #[trigger] g[j]) by {
                                assert(es[j] == (self.entries@[j].0@, entry_v(self.entries@[j].1)));
                                if next@[j] {
                                    lemma_entry_step_monotone(es, cur@, g, es[j].1);
                                    assert(g[j] == entry_step(es, g, es[j].1));
                                }
                            }
                        }
                    }
                    cur = next;
                },
            }
        }
        self.resolved = cur;
        self.done = true;
    }

    /// Validates the caller's explicit trivial requests against the
    /// computed classification and finalizes resolution.  Fails on the
    /// first requested type whose classification is `Opaque`, naming it
    /// by its fully qualified native-style name.
    #[verifier::loop_isolation(false)]
    pub fn satisfy_requests(&mut self, requests: &Vec<QualifiedName>) -> (r: Result<(), String>)
        ensures
            final(self).entries == old(self).entries,
            final(self).resolved_ok(),
            final(self).resolved_least(),
            match r {
                Result::Ok(()) => forall|i: int|
                    0 <= i < requests@.len() ==> final(self).is_trivial_spec(
                        (#[trigger] requests@[i])@,
                    ),
                Result::Err(msg) => exists|i: int|
                    {
                        &&& 0 <= i < requests@.len()
                        &&& !final(self).is_trivial_spec((#[trigger] requests@[i])@)
                        &&& msg@ == cpp_name_of(requests@[i]@)
                        &&& forall|j: int|
                            0 <= j < i ==> final(self).is_trivial_spec((#[trigger] requests@[j])@)
                    },
            },
    {
        self.finalize();
        let n = requests.len();
        let mut i: usize = 0;
        while i < n
            invariant
                n == requests.len(),
                i <= n,
                self.resolved_ok(),
                self.entries == old(self).entries,
                forall|j: int|
                    0 <= j < i ==> self.is_trivial_spec((#[trigger] requests@[j])@),
            decreases n - i,
        {
            if !Self::cls_lookup(&self.entries, &self.resolved, &requests[i]) {
                let msg = requests[i].to_cpp_name();
                return Result::Err(msg);
            }
            i = i + 1;
        }
        Result::Ok(())
    }

    /// Whether `name` classifies trivial; consulted read-only during the
    /// rewrite pass.
    pub fn is_pod(&self, name: &QualifiedName) -> (r: bool)
        requires
            self.resolved_ok(),
        ensures
            r == self.is_trivial_spec(name@),
    {
        Self::cls_lookup(&self.entries, &self.resolved, name)
    }

    /// The classification of `name`: `Trivial` for an enum, a struct all
    /// of whose fields classify trivial, or a typedef chain ending at a
    /// trivial terminal; `Opaque` otherwise (including every unrecognized
    /// name and every cyclic chain).
    pub fn classify(&self, name: &QualifiedName) -> (r: Classification)
        requires
            self.resolved_ok(),
        ensures
            r == Classification::Trivial <==> self.is_trivial_spec(name@),
    {
        if self.is_pod(name) {
            Classification::Trivial
        } else {
            Classification::Opaque
        }
    }
}

// ---------------------------------------------------------------------------
// Laws of the resolved classification.
// ---------------------------------------------------------------------------
/// LAW: a struct classifies `Trivial` exactly when every one of its field
/// dependencies does; one non-trivial field anywhere makes the struct
/// `Opaque`.
pub proof fn lemma_struct_trivial_iff_fields_trivial(
    c: Classifier,
    n: QnV,
    deps: Seq<Option<QnV>>,
)
    requires
        c.resolved_ok(),
        entry_of(c.entries_view(), n) == Option::Some(TypeEntryV::Fields { deps }),
    ensures
        c.is_trivial_spec(n) <==> (forall|i: int|
            0 <= i < deps.len() ==> dep_trivial(c.entries_view(), c.resolved@, #[trigger] deps[i])),
{
    let es = c.entries_view();
    let bits = c.resolved@;
    lemma_first_index(es, n);
    let i = first_index(es, n);
    assert(0 <= i < es.len());
    assert(es[i].1 == TypeEntryV::Fields { deps });
    assert(bits[i] == entry_step(es, bits, es[i].1));
    assert(c.is_trivial_spec(n) == bits[i]);
    if c.is_trivial_spec(n) {
        assert(entry_step(es, bits, TypeEntryV::Fields { deps }));
        assert forall|k: int| 0 <= k < deps.len() implies dep_trivial(
            es,
            bits,
            #[trigger] deps[k],
        ) by {
            lemma_fields_step_elim(es, bits, deps, k);
        }
    } else {
        assert(!entry_step(es, bits, TypeEntryV::Fields { deps }));
        if (forall|k: int| 0 <= k < deps.len() ==> dep_trivial(es, bits, #[trigger] deps[k])) {
            assert(deps_all_trivial(es, bits, deps));
            assert(entry_step(es, bits, TypeEntryV::Fields { deps }));
            assert(false);
        }
    }
}

/// One alias link preserves classification.
pub proof fn lemma_alias_step(c: Classifier, n: QnV, target: QnV)
    requires
        c.resolved_ok(),
        entry_of(c.entries_view(), n) == Option::Some(TypeEntryV::Alias { target }),
    ensures
        c.is_trivial_spec(n) == c.is_trivial_spec(target),
{
    let es = c.entries_view();
    let bits = c.resolved@;
    lemma_first_index(es, n);
    let i = first_index(es, n);
    assert(bits[i] == entry_step(es, bits, es[i].1));
}

/// LAW: along a typedef chain of alias links, the first name classifies
/// exactly as the terminal name does.
pub proof fn lemma_typedef_chain_classify(c: Classifier, chain: Seq<QnV>)
    requires
        c.resolved_ok(),
        chain.len() >= 1,
        forall|i: int|
            0 <= i < chain.len() - 1 ==> entry_of(c.entries_view(), #[trigger] chain[i])
                == Option::Some(TypeEntryV::Alias { target: chain[i + 1] }),
    ensures
        c.is_trivial_spec(chain[0]) == c.is_trivial_spec(chain.last()),
    decreases chain.len(),
{
    if chain.len() > 1 {
        lemma_alias_step(c, chain[0], chain[1]);
        let rest = chain.drop_first();
        assert forall|i: int|
            0 <= i < rest.len() - 1 implies entry_of(c.entries_view(), #[trigger] rest[i])
            == Option::Some(TypeEntryV::Alias { target: rest[i + 1] }) by {
            assert(rest[i] == chain[i + 1]);
            assert(rest[i + 1] == chain[i + 2]);
        }
        lemma_typedef_chain_classify(c, rest);
        assert(rest.last() == chain.last());
    }
}


/// The least fixpoint is unique: the classification the resolution
/// computes is fully determined by the ingested entries.
pub proof fn lemma_least_fixpoint_unique(
    es: Seq<(QnV, TypeEntryV)>,
    b1: Seq<bool>,
    b2: Seq<bool>,
)
    requires
        is_fixpoint(es, b1),
        is_least(es, b1),
        is_fixpoint(es, b2),
        is_least(es, b2),
    ensures
        b1 == b2,
{
    assert(pointwise_le(b1, b2));
    assert(pointwise_le(b2, b1));
    assert(b1 =~= b2);
}

} // verus!
