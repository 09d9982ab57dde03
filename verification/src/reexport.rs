//! Namespace re-export tree: folds the ordered list of namespace
//! emissions into a tree keyed by namespace segment, then renders it as
//! nested re-export modules.  Child order is the insertion order of each
//! first-seen segment.

use vstd::prelude::*;

use crate::emit::emission_v;
use crate::emit::emissions_v;
use crate::emit::lemma_emissions_v;
use crate::emit::EmissionV;
use crate::emit::NamespaceEmission;
use crate::emit::OutItem;
use crate::emit::OutItemV;
use crate::name::Namespace;

verus! {

/// A node of the re-export tree: the identifiers re-exported directly at
/// this namespace, and one child per first-seen next segment.
pub struct NsTree {
    pub entries: Vec<String>,
    pub children: Vec<(String, NsTree)>,
}

pub struct NsTreeV {
    pub entries: Seq<Seq<char>>,
    pub children: Seq<(Seq<char>, NsTreeV)>,
}

pub open spec fn nstree_v(t: NsTree) -> NsTreeV
    decreases t,
{
    NsTreeV { entries: t.entries.deep_view(), children: nschildren_v(t.children@) }
}

pub open spec fn nschildren_v(s: Seq<(String, NsTree)>) -> Seq<(Seq<char>, NsTreeV)>
    decreases s,
{
    if s.len() == 0 {
        Seq::empty()
    } else {
        seq![(s[0].0@, nstree_v(s[0].1))] + nschildren_v(s.drop_first())
    }
}

pub broadcast proof fn lemma_nschildren_v(s: Seq<(String, NsTree)>)
    ensures
        (#[trigger] nschildren_v(s)).len() == s.len(),
        forall|i: int| 0 <= i < s.len() ==> nschildren_v(s)[i] == (s[i].0@, nstree_v(s[i].1)),
    decreases s,
{
    if s.len() > 0 {
        lemma_nschildren_v(s.drop_first());
    }
}

// ---------------------------------------------------------------------------
// The tree's construction.
// ---------------------------------------------------------------------------
/// The identifiers recorded directly at this namespace (empty path).
pub open spec fn direct_ids(es: Seq<EmissionV>) -> Seq<Seq<char>>
    decreases es,
{
    if es.len() == 0 {
        Seq::empty()
    } else if es[0].ns.len() == 0 {
        seq![es[0].id] + direct_ids(es.drop_first())
    } else {
        direct_ids(es.drop_first())
    }
}

/// The first-occurrence order of leading segments, given the segments
/// `seen` so far.
pub open spec fn first_segs_acc(es: Seq<EmissionV>, seen: Seq<Seq<char>>) -> Seq<Seq<char>>
    decreases es,
{
    if es.len() == 0 {
        Seq::empty()
    } else if es[0].ns.len() > 0 && !seen.contains(es[0].ns[0]) {
        seq![es[0].ns[0]] + first_segs_acc(es.drop_first(), seen.push(es[0].ns[0]))
    } else {
        first_segs_acc(es.drop_first(), seen)
    }
}

/// The emissions under leading segment `s`, with that segment removed.
pub open spec fn tails_with(es: Seq<EmissionV>, s: Seq<char>) -> Seq<EmissionV>
    decreases es,
{
    if es.len() == 0 {
        Seq::empty()
    } else if es[0].ns.len() > 0 && es[0].ns[0] == s {
        seq![EmissionV { ns: es[0].ns.drop_first(), id: es[0].id }] + tails_with(
            es.drop_first(),
            s,
        )
    } else {
        tails_with(es.drop_first(), s)
    }
}

/// Builds the node for one emission list; children are built while `fuel`
/// lasts.  Every child strips one leading segment, so a fuel one more
/// than the longest namespace path builds the whole tree.
pub open spec fn build_node(es: Seq<EmissionV>, fuel: nat) -> NsTreeV
    decreases fuel, 0int, 0int,
{
    NsTreeV {
        entries: direct_ids(es),
        children: if fuel == 0 {
            Seq::empty()
        } else {
            build_children(es, first_segs_acc(es, Seq::empty()), (fuel - 1) as nat)
        },
    }
}

pub open spec fn build_children(es: Seq<EmissionV>, segs: Seq<Seq<char>>, fuel: nat) -> Seq<
    (Seq<char>, NsTreeV),
>
    decreases fuel, 1int, segs.len(),
{
    if segs.len() == 0 {
        Seq::empty()
    } else {
        seq![(segs[0], build_node(tails_with(es, segs[0]), fuel))] + build_children(
            es,
            segs.drop_first(),
            fuel,
        )
    }
}

pub broadcast proof fn lemma_build_children(es: Seq<EmissionV>, segs: Seq<Seq<char>>, fuel: nat)
    ensures
        (#[trigger] build_children(es, segs, fuel)).len() == segs.len(),
        forall|i: int|
            0 <= i < segs.len() ==> build_children(es, segs, fuel)[i] == (
                segs[i],
                build_node(tails_with(es, segs[i]), fuel),
            ),
    decreases segs.len(),
{
    if segs.len() > 0 {
        lemma_build_children(es, segs.drop_first(), fuel);
    }
}

/// The longest namespace path among the emissions.
pub open spec fn max_ns_len(es: Seq<EmissionV>) -> nat
    decreases es,
{
    if es.len() == 0 {
        0nat
    } else {
        let rest = max_ns_len(es.drop_first());
        if es[0].ns.len() > rest {
            es[0].ns.len()
        } else {
            rest
        }
    }
}

/// The fuel that builds the whole tree.
pub open spec fn tree_fuel(es: Seq<EmissionV>) -> nat {
    if max_ns_len(es) < usize::MAX as nat {
        max_ns_len(es) + 1
    } else {
        usize::MAX as nat
    }
}

/// The re-export tree of an ordered emission list.
pub open spec fn build_tree_spec(es: Seq<EmissionV>) -> NsTreeV {
    build_node(es, tree_fuel(es))
}

// ---------------------------------------------------------------------------
// Rendering the tree as output items.
// ---------------------------------------------------------------------------
pub open spec fn render_entries(entries: Seq<Seq<char>>) -> Seq<OutItemV>
    decreases entries,
{
    if entries.len() == 0 {
        Seq::empty()
    } else {
        seq![OutItemV::ReexportUse { target: entries[0] }] + render_entries(entries.drop_first())
    }
}

pub broadcast proof fn lemma_render_entries(entries: Seq<Seq<char>>)
    ensures
        (#[trigger] render_entries(entries)).len() == entries.len(),
        forall|i: int|
            0 <= i < entries.len() ==> render_entries(entries)[i] == (OutItemV::ReexportUse {
                target: entries[i],
            }),
    decreases entries,
{
    if entries.len() > 0 {
        lemma_render_entries(entries.drop_first());
    }
}

/// Renders one node: a re-export per identifier recorded here, then one
/// nested module per child.
pub open spec fn render_tree(t: NsTreeV) -> Seq<OutItemV>
    decreases t, 0int,
{
    render_entries(t.entries) + render_children(t.children)
}

pub open spec fn render_children(cs: Seq<(Seq<char>, NsTreeV)>) -> Seq<OutItemV>
    decreases cs, 1int,
{
    if cs.len() == 0 {
        Seq::empty()
    } else {
        seq![
            OutItemV::ReexportMod {
                name: cs[0].0,
                items: seq![OutItemV::CxxbridgeUse] + render_tree(cs[0].1),
            },
        ] + render_children(cs.drop_first())
    }
}

pub broadcast proof fn lemma_render_children(cs: Seq<(Seq<char>, NsTreeV)>)
    ensures
        (#[trigger] render_children(cs)).len() == cs.len(),
        forall|i: int|
            0 <= i < cs.len() ==> render_children(cs)[i] == (OutItemV::ReexportMod {
                name: cs[i].0,
                items: seq![OutItemV::CxxbridgeUse] + render_tree(cs[i].1),
            }),
    decreases cs,
{
    if cs.len() > 0 {
        lemma_render_children(cs.drop_first());
    }
}

// ---------------------------------------------------------------------------
// Executable construction.
// ---------------------------------------------------------------------------
fn direct_ids_exec(es: &Vec<NamespaceEmission>, start: usize) -> (r: Vec<String>)
    requires
        start <= es.len(),
    ensures
        r.deep_view() == direct_ids(emissions_v(es@).skip(start as int)),
    decreases es.len() - start,
{
    proof {
        lemma_emissions_v(es@);
    }
    let ghost tail = emissions_v(es@).skip(start as int);
    if start == es.len() {
        let r: Vec<String> = Vec::new();
        proof {
            assert(tail =~= Seq::<EmissionV>::empty());
            assert(r.deep_view() =~= direct_ids(tail));
        }
        return r;
    }
    proof {
        assert(tail[0] == emission_v(es@[start as int]));
        assert(tail.drop_first() =~= emissions_v(es@).skip(start + 1 as int));
    }
    let mut rest = direct_ids_exec(es, start + 1);
    if es[start].ns.segments.len() == 0 {
        let mut r: Vec<String> = Vec::new();
        let ghost restdv = rest.deep_view();
        r.push(es[start].id.clone());
        r.append(&mut rest);
        proof {
            assert(r.deep_view() =~= direct_ids(tail));
        }
        r
    } else {
        proof {
            assert(rest.deep_view() =~= direct_ids(tail));
        }
        rest
    }
}

/// Whether `seen` holds `s`, by character sequences.
#[verifier::loop_isolation(false)]
fn seen_contains(seen: &Vec<String>, s: &String) -> (r: bool)
    ensures
        r == seen.deep_view().contains(s@),
{
    let n = seen.len();
    let mut i: usize = 0;
    while i < n
        invariant
            i <= n,
            forall|j: int| 0 <= j < i ==> seen.deep_view()[j] != s@,
        decreases n - i,
    {
        if seen[i] == *s {
            proof {
                assert(seen.deep_view()[i as int] == s@);
            }
            return true;
        }
        i = i + 1;
    }
    proof {
        if seen.deep_view().contains(s@) {
            let j = choose|j: int| 0 <= j < seen.deep_view().len() && seen.deep_view()[j] == s@;
            assert(seen.deep_view()[j] != s@);
        }
    }
    false
}

fn first_segs_exec(es: &Vec<NamespaceEmission>, start: usize, seen: Vec<String>) -> (r: Vec<
    String,
>)
    requires
        start <= es.len(),
    ensures
        r.deep_view() == first_segs_acc(emissions_v(es@).skip(start as int), seen.deep_view()),
    decreases es.len() - start,
{
    proof {
        lemma_emissions_v(es@);
    }
    let ghost tail = emissions_v(es@).skip(start as int);
    let ghost seenv = seen.deep_view();
    if start == es.len() {
        let r: Vec<String> = Vec::new();
        proof {
            assert(tail =~= Seq::<EmissionV>::empty());
            assert(r.deep_view() =~= first_segs_acc(tail, seenv));
        }
        return r;
    }
    proof {
        assert(tail[0] == emission_v(es@[start as int]));
        assert(tail.drop_first() =~= emissions_v(es@).skip(start + 1 as int));
    }
    if es[start].ns.segments.len() > 0 && !seen_contains(&seen, &es[start].ns.segments[0]) {
        let head = es[start].ns.segments[0].clone();
        let mut seen2 = seen;
        seen2.push(es[start].ns.segments[0].clone());
        proof {
            assert(seen2.deep_view() =~= seenv.push(tail[0].ns[0]));
        }
        let mut rest = first_segs_exec(es, start + 1, seen2);
        let mut r: Vec<String> = Vec::new();
        r.push(head);
        r.append(&mut rest);
        proof {
            assert(r.deep_view() =~= first_segs_acc(tail, seenv));
        }
        r
    } else {
        let rest = first_segs_exec(es, start + 1, seen);
        proof {
            assert(rest.deep_view() =~= first_segs_acc(tail, seenv));
        }
        rest
    }
}

/// The namespace with its leading segment removed.
#[verifier::loop_isolation(false)]
fn ns_tail(ns: &Namespace) -> (r: Namespace)
    requires
        ns@.len() > 0,
    ensures
        r@ == ns@.drop_first(),
{
    let n = ns.segments.len();
    let mut segs: Vec<String> = Vec::new();
    let mut i: usize = 1;
    while i < n
        invariant
            1 <= i <= n,
            segs@.len() == i - 1,
            forall|j: int| 0 <= j < i - 1 ==> segs@[j]@ == ns@[j + 1],
        decreases n - i,
    {
        segs.push(ns.segments[i].clone());
        i = i + 1;
    }
    let r = Namespace { segments: segs };
    proof {
        assert(r@ =~= ns@.drop_first());
    }
    r
}

fn tails_with_exec(es: &Vec<NamespaceEmission>, start: usize, s: &String) -> (r: Vec<
    NamespaceEmission,
>)
    requires
        start <= es.len(),
    ensures
        emissions_v(r@) == tails_with(emissions_v(es@).skip(start as int), s@),
    decreases es.len() - start,
{
    proof {
        lemma_emissions_v(es@);
    }
    let ghost tail = emissions_v(es@).skip(start as int);
    if start == es.len() {
        let r: Vec<NamespaceEmission> = Vec::new();
        proof {
            assert(tail =~= Seq::<EmissionV>::empty());
            assert(emissions_v(r@) =~= tails_with(tail, s@));
        }
        return r;
    }
    proof {
        assert(tail[0] == emission_v(es@[start as int]));
        assert(tail.drop_first() =~= emissions_v(es@).skip(start + 1 as int));
    }
    let mut rest = tails_with_exec(es, start + 1, s);
    if es[start].ns.segments.len() > 0 && es[start].ns.segments[0] == *s {
        let e = NamespaceEmission { ns: ns_tail(&es[start].ns), id: es[start].id.clone() };
        let mut r: Vec<NamespaceEmission> = Vec::new();
        let ghost restv = rest@;
        r.push(e);
        r.append(&mut rest);
        proof {
            crate::emit::lemma_emissions_v(r@);
            crate::emit::lemma_emissions_v(restv);
            assert(r@ == seq![e] + restv);
            assert(emissions_v(r@) =~= tails_with(tail, s@));
        }
        r
    } else {
        proof {
            assert(emissions_v(rest@) =~= tails_with(tail, s@));
        }
        rest
    }
}

#[verifier::loop_isolation(false)]
fn max_ns_len_exec(es: &Vec<NamespaceEmission>, start: usize) -> (r: usize)
    requires
        start <= es.len(),
    ensures
        r as nat == max_ns_len(emissions_v(es@).skip(start as int)),
    decreases es.len() - start,
{
    proof {
        lemma_emissions_v(es@);
    }
    let ghost tail = emissions_v(es@).skip(start as int);
    if start == es.len() {
        proof {
            assert(tail =~= Seq::<EmissionV>::empty());
        }
        return 0;
    }
    proof {
        assert(tail[0] == emission_v(es@[start as int]));
        assert(tail.drop_first() =~= emissions_v(es@).skip(start + 1 as int));
    }
    let rest = max_ns_len_exec(es, start + 1);
    let here = es[start].ns.segments.len();
    if here > rest {
        here
    } else {
        rest
    }
}

/// Builds the tree node for an emission list, with `fuel` levels of
/// children below it.
#[verifier::loop_isolation(false)]
fn build_node_exec(es: &Vec<NamespaceEmission>, fuel: usize) -> (r: NsTree)
    ensures
        nstree_v(r) == build_node(emissions_v(es@), fuel as nat),
    decreases fuel,
{
    proof {
        lemma_emissions_v(es@);
        assert(emissions_v(es@).skip(0) =~= emissions_v(es@));
    }
    let entries = direct_ids_exec(es, 0);
    if fuel == 0 {
        let r = NsTree { entries, children: Vec::new() };
        proof {
            assert(nschildren_v(r.children@) =~= Seq::<(Seq<char>, NsTreeV)>::empty());
        }
        return r;
    }
    let seen0: Vec<String> = Vec::new();
    proof {
        assert(seen0.deep_view() =~= Seq::<Seq<char>>::empty());
    }
    let segs = first_segs_exec(es, 0, seen0);
    let ghost segsv = segs.deep_view();
    let ghost esv = emissions_v(es@);
    proof {
        lemma_build_children(esv, segsv, (fuel - 1) as nat);
    }
    let mut children: Vec<(String, NsTree)> = Vec::new();
    let n = segs.len();
    let mut i: usize = 0;
    while i < n
        invariant
            i <= n,
            n == segs.len(),
            children@.len() == i,
            forall|j: int|
                0 <= j < i ==> (children@[j].0@, nstree_v(children@[j].1)) == (
                    segsv[j],
                    build_node(tails_with(esv, segsv[j]), (fuel - 1) as nat),
                ),
        decreases n - i,
    {
        let tails = tails_with_exec(es, 0, &segs[i]);
        proof {
            assert(emissions_v(es@).skip(0) =~= emissions_v(es@));
        }
        let child = build_node_exec(&tails, fuel - 1);
        children.push((segs[i].clone(), child));
        i = i + 1;
    }
    let r = NsTree { entries, children };
    proof {
        lemma_nschildren_v(r.children@);
        assert(nschildren_v(r.children@) =~= build_children(esv, segsv, (fuel - 1) as nat));
    }
    r
}

/// Builds the whole re-export tree of the ordered emission list.
pub fn build_tree(es: &Vec<NamespaceEmission>) -> (r: NsTree)
    ensures
        nstree_v(r) == build_tree_spec(emissions_v(es@)),
{
    proof {
        assert(emissions_v(es@).skip(0) =~= emissions_v(es@));
    }
    let maxl = max_ns_len_exec(es, 0);
    let fuel = if maxl == usize::MAX {
        usize::MAX
    } else {
        maxl + 1
    };
    build_node_exec(es, fuel)
}

/// Renders the tree: one re-export per identifier at this node, then one
/// nested module per child.
#[verifier::loop_isolation(false)]
pub fn render_tree_exec(t: &NsTree) -> (r: Vec<OutItem>)
    ensures
        crate::emit::outitems_v(r@) == render_tree(nstree_v(*t)),
    decreases *t,
{
    proof {
        lemma_nschildren_v(t.children@);
        lemma_render_entries(t.entries.deep_view());
        lemma_render_children(nschildren_v(t.children@));
    }
    let mut r: Vec<OutItem> = Vec::new();
    let n = t.entries.len();
    let mut i: usize = 0;
    while i < n
        invariant
            i <= n,
            r@.len() == i,
            forall|j: int|
                0 <= j < i ==> crate::emit::outitem_v(r@[j]) == (OutItemV::ReexportUse {
                    target: t.entries.deep_view()[j],
                }),
        decreases n - i,
    {
        r.push(OutItem::ReexportUse { target: t.entries[i].clone() });
        i = i + 1;
    }
    let m = t.children.len();
    let mut k: usize = 0;
    while k < m
        invariant
            k <= m,
            r@.len() == n + k,
            forall|j: int|
                0 <= j < n ==> crate::emit::outitem_v(r@[j]) == (OutItemV::ReexportUse {
                    target: t.entries.deep_view()[j],
                }),
            forall|j: int|
                0 <= j < k ==> crate::emit::outitem_v(r@[n + j]) == (OutItemV::ReexportMod {
                    name: nschildren_v(t.children@)[j].0,
                    items: seq![OutItemV::CxxbridgeUse] + render_tree(
                        nschildren_v(t.children@)[j].1,
                    ),
                }),
        decreases m - k,
    {
        let sub = render_tree_exec(&t.children[k].1);
        let ghost subv = sub@;
        let mut items: Vec<OutItem> = Vec::new();
        items.push(OutItem::CxxbridgeUse);
        let mut sub2 = sub;
        items.append(&mut sub2);
        proof {
            crate::emit::lemma_outitems_v(items@);
            crate::emit::lemma_outitems_v(subv);
            assert(items@ == seq![OutItem::CxxbridgeUse] + subv);
            assert(crate::emit::outitems_v(items@) =~= seq![OutItemV::CxxbridgeUse] + render_tree(
                nschildren_v(t.children@)[k as int].1,
            ));
        }
        r.push(OutItem::ReexportMod { name: t.children[k].0.clone(), items });
        k = k + 1;
    }
    proof {
        crate::emit::lemma_outitems_v(r@);
        assert(crate::emit::outitems_v(r@) =~= render_tree(nstree_v(*t)));
    }
    r
}

} // verus!
