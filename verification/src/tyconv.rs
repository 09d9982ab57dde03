//! Type-path rewriting: pointer-to-reference lowering, stripping of the
//! generator's internal root-module prefix, substitution of resolved
//! typedef targets, replacement of well-known foreign standard-library
//! type spellings, and final unqualification.

use vstd::prelude::*;

use crate::ast::qn_from_cxx_path;
use crate::ast::qn_from_cxx_path_exec;
use crate::ast::seg_idents;
use crate::ast::tys_v;
use crate::ast::Ty;
use crate::ast::TyPath;
use crate::ast::TyPathV;
use crate::ast::TySegment;
use crate::ast::TySegmentV;
use crate::ast::TyV;
use crate::classify::cls_at;
use crate::classify::entries_v;
use crate::classify::Classifier;
use crate::classify::TypeEntryV;
use crate::name::str_eq;
use crate::name::QnV;
use crate::name::QualifiedName;
use vstd::pervasive::VecAdditionalExecFns;
use vstd::string::StringExecFns;

verus! {

// ---------------------------------------------------------------------------
// Typedef targets.
// ---------------------------------------------------------------------------
/// Analysis of one typedef.
pub enum TypedefTarget {
    /// An alias with no further type arguments.
    AliasTo(QualifiedName),
    /// An alias that is parameterized, never resolvable to one target.
    HasArguments,
    /// An alias whose target is not a simple named type.
    Complex,
}

pub enum TypedefTargetV {
    AliasTo(QnV),
    HasArguments,
    Complex,
}

pub open spec fn td_v(t: TypedefTarget) -> TypedefTargetV {
    match t {
        TypedefTarget::AliasTo(q) => TypedefTargetV::AliasTo(q@),
        TypedefTarget::HasArguments => TypedefTargetV::HasArguments,
        TypedefTarget::Complex => TypedefTargetV::Complex,
    }
}

pub open spec fn tds_v(s: Seq<(QualifiedName, TypedefTarget)>) -> Seq<(QnV, TypedefTargetV)>
    decreases s,
{
    if s.len() == 0 {
        Seq::empty()
    } else {
        seq![(s[0].0@, td_v(s[0].1))] + tds_v(s.drop_first())
    }
}

pub broadcast proof fn lemma_tds_v(s: Seq<(QualifiedName, TypedefTarget)>)
    ensures
        (#[trigger] tds_v(s)).len() == s.len(),
        forall|i: int| 0 <= i < s.len() ==> tds_v(s)[i] == (s[i].0@, td_v(s[i].1)),
    decreases s,
{
    if s.len() > 0 {
        lemma_tds_v(s.drop_first());
    }
}

/// The target recorded for `n` (first record wins).
pub open spec fn td_lookup(tds: Seq<(QnV, TypedefTargetV)>, n: QnV) -> Option<TypedefTargetV>
    decreases tds,
{
    if tds.len() == 0 {
        Option::None
    } else if tds[0].0 == n {
        Option::Some(tds[0].1)
    } else {
        td_lookup(tds.drop_first(), n)
    }
}

pub proof fn lemma_td_lookup_is(tds: Seq<(QnV, TypedefTargetV)>, n: QnV, i: int)
    requires
        0 <= i < tds.len(),
        tds[i].0 == n,
        forall|j: int| 0 <= j < i ==> (#[trigger] tds[j]).0 != n,
    ensures
        td_lookup(tds, n) == Option::Some(tds[i].1),
    decreases tds,
{
    if tds[0].0 != n {
        assert(i > 0);
        let d = tds.drop_first();
        assert(d[i - 1] == tds[i]);
        assert forall|j: int| 0 <= j < i - 1 implies (#[trigger] d[j]).0 != n by {
            assert(d[j] == tds[j + 1]);
        }
        lemma_td_lookup_is(d, n, i - 1);
    }
}

pub proof fn lemma_td_lookup_none(tds: Seq<(QnV, TypedefTargetV)>, n: QnV)
    requires
        forall|j: int| 0 <= j < tds.len() ==> (#[trigger] tds[j]).0 != n,
    ensures
        td_lookup(tds, n) == Option::<TypedefTargetV>::None,
    decreases tds,
{
    if tds.len() > 0 {
        let d = tds.drop_first();
        assert forall|j: int| 0 <= j < d.len() implies (#[trigger] d[j]).0 != n by {
            assert(d[j] == tds[j + 1]);
        }
        lemma_td_lookup_none(d, n);
    }
}

/// Walks an alias chain for up to `fuel` links and yields the terminal
/// name, or `None` when the name is no simple alias.  A chain longer than
/// the number of recorded typedefs must revisit one of them, so the
/// bound leaves exactly the cyclic chains (and names recorded as
/// parameterized or complex aliases) unresolved.
pub open spec fn resolve_alias(tds: Seq<(QnV, TypedefTargetV)>, n: QnV, fuel: nat) -> Option<QnV>
    decreases fuel,
{
    if fuel == 0 {
        Option::None
    } else {
        match td_lookup(tds, n) {
            Option::Some(TypedefTargetV::AliasTo(t)) => match resolve_alias(
                tds,
                t,
                (fuel - 1) as nat,
            ) {
                Option::None => Option::Some(t),
                Option::Some(t2) => Option::Some(t2),
            },
            _ => Option::None,
        }
    }
}

/// The terminal of `n`'s typedef chain, if it has one.
pub open spec fn resolve_td(tds: Seq<(QnV, TypedefTargetV)>, n: QnV) -> Option<QnV> {
    resolve_alias(tds, n, (tds.len() + 1) as nat)
}

/// The map of recorded typedef targets, keyed by the typedef's own name.
pub struct TypedefMap {
    pub entries: Vec<(QualifiedName, TypedefTarget)>,
}

impl TypedefMap {
    pub open spec fn view_spec(self) -> Seq<(QnV, TypedefTargetV)> {
        tds_v(self.entries@)
    }

    pub fn new() -> (r: Self)
        ensures
            r.view_spec() == Seq::<(QnV, TypedefTargetV)>::empty(),
    {
        let r = TypedefMap { entries: Vec::new() };
        proof {
            assert(r.view_spec() =~= Seq::<(QnV, TypedefTargetV)>::empty());
        }
        r
    }

    /// Records one typedef's analysis.
    pub fn record(&mut self, name: QualifiedName, target: TypedefTarget)
        ensures
            final(self).view_spec() == old(self).view_spec().push((name@, td_v(target))),
    {
        proof {
            lemma_tds_v(self.entries@.push((name, target)));
            lemma_tds_v(self.entries@);
        }
        self.entries.push((name, target));
        proof {
            assert(final(self).view_spec() =~= old(self).view_spec().push((name@, td_v(target))));
        }
    }

    #[verifier::loop_isolation(false)]
    fn lookup(&self, n: &QualifiedName) -> (r: Option<TypedefTarget>)
        ensures
            match r {
                Option::Some(t) => td_lookup(self.view_spec(), n@) == Option::Some(td_v(t)),
                Option::None => td_lookup(self.view_spec(), n@) == Option::<TypedefTargetV>::None,
            },
    {
        proof {
            lemma_tds_v(self.entries@);
        }
        let ghost tds = self.view_spec();
        let len = self.entries.len();
        let mut i: usize = 0;
        while i < len
            invariant
                i <= len,
                forall|j: int| 0 <= j < i ==> (#[trigger] tds[j]).0 != n@,
            decreases len - i,
        {
            if self.entries[i].0 == *n {
                proof {
                    lemma_td_lookup_is(tds, n@, i as int);
                }
                let t = match &self.entries[i].1 {
                    TypedefTarget::AliasTo(q) => TypedefTarget::AliasTo(q.clone()),
                    TypedefTarget::HasArguments => TypedefTarget::HasArguments,
                    TypedefTarget::Complex => TypedefTarget::Complex,
                };
                proof {
                    assert(td_v(t) == td_v(self.entries@[i as int].1));
                }
                return Option::Some(t);
            }
            i = i + 1;
        }
        proof {
            lemma_td_lookup_none(tds, n@);
        }
        Option::None
    }

    fn resolve_fuel(&self, n: &QualifiedName, fuel: usize) -> (r: Option<QualifiedName>)
        ensures
            match r {
                Option::Some(q) => resolve_alias(self.view_spec(), n@, fuel as nat)
                    == Option::Some(q@),
                Option::None => resolve_alias(self.view_spec(), n@, fuel as nat)
                    == Option::<QnV>::None,
            },
        decreases fuel,
    {
        if fuel == 0 {
            return Option::None;
        }
        match self.lookup(n) {
            Option::Some(TypedefTarget::AliasTo(t)) => match self.resolve_fuel(&t, fuel - 1) {
                Option::None => Option::Some(t),
                Option::Some(t2) => Option::Some(t2),
            },
            _ => Option::None,
        }
    }

    /// Resolves `n` through recorded alias links to its terminal name.
    pub fn resolve(&self, n: &QualifiedName) -> (r: Option<QualifiedName>)
        ensures
            match r {
                Option::Some(q) => resolve_td(self.view_spec(), n@) == Option::Some(q@),
                Option::None => resolve_td(self.view_spec(), n@) == Option::<QnV>::None,
            },
    {
        proof {
            lemma_tds_v(self.entries@);
            assert(self.view_spec().len() == self.entries@.len());
        }
        match self.lookup(n) {
            Option::Some(TypedefTarget::AliasTo(t)) => match self.resolve_fuel(
                &t,
                self.entries.len(),
            ) {
                Option::None => Option::Some(t),
                Option::Some(t2) => Option::Some(t2),
            },
            _ => Option::None,
        }
    }
}

// ---------------------------------------------------------------------------
// The conversion context: classification plus typedef map, resolved and
// read-only during the rewrite pass.
// ---------------------------------------------------------------------------
pub struct CtxV {
    pub es: Seq<(QnV, TypeEntryV)>,
    pub bits: Seq<bool>,
    pub tds: Seq<(QnV, TypedefTargetV)>,
}

pub open spec fn ctx_of(cls: Classifier, tds: TypedefMap) -> CtxV {
    CtxV { es: entries_v(cls.entries@), bits: cls.resolved@, tds: tds.view_spec() }
}

/// Whether `n` classifies trivial in this context.
pub open spec fn ctx_trivial(ctx: CtxV, n: QnV) -> bool {
    cls_at(ctx.es, ctx.bits, n)
}

// ---------------------------------------------------------------------------
// Well-known foreign standard-library type spellings.
// ---------------------------------------------------------------------------
pub open spec fn single_seg_path(id: Seq<char>) -> TyPathV {
    TyPathV { segments: seq![TySegmentV { ident: id, args: Seq::empty() }] }
}

/// Replaces the well-known foreign spellings by their bridge-layer
/// equivalents, ignoring any type arguments.
pub open spec fn replace_known_path(p: TyPathV) -> TyPathV {
    if seg_idents(p.segments) == seq!["std"@, "unique_ptr"@] {
        single_seg_path("UniquePtr"@)
    } else if seg_idents(p.segments) == seq!["std"@, "string"@] {
        single_seg_path("CxxString"@)
    } else {
        p
    }
}

/// A raw by-value foreign string view, which is rewritten to a borrowed
/// string slice.
pub open spec fn is_str_view_path(p: TyPathV) -> bool {
    seg_idents(p.segments) == seq!["rust"@, "Str"@]
}

/// The borrowed string slice type.
pub open spec fn str_slice_ty() -> TyV {
    TyV::Reference { mutable: false, elem: Box::new(TyV::Path(single_seg_path("str"@))) }
}

/// Tests whether the path spells exactly the two given segments.
fn path_idents_are(p: &TyPath, a: &str, b: &str) -> (r: bool)
    ensures
        r == (seg_idents(crate::ast::typath_v(*p).segments) == seq![a@, b@]),
{
    proof {
        crate::ast::lemma_tysegs_v(p.segments@);
        crate::ast::lemma_seg_idents(crate::ast::typath_v(*p).segments);
    }
    let ghost ids = seg_idents(crate::ast::typath_v(*p).segments);
    if p.segments.len() != 2 {
        assert(ids.len() != 2);
        return false;
    }
    let r = str_eq(p.segments[0].ident.as_str(), a) && str_eq(p.segments[1].ident.as_str(), b);
    proof {
        if r {
            assert(ids =~= seq![a@, b@]);
        } else {
            assert(ids != seq![a@, b@]) by {
                if ids == seq![a@, b@] {
                    assert(ids[0] == a@ && ids[1] == b@);
                }
            }
        }
    }
    r
}

pub fn single_seg_path_exec(id: String) -> (r: TyPath)
    ensures
        crate::ast::typath_v(r) == single_seg_path(id@),
{
    let mut segs: Vec<TySegment> = Vec::new();
    segs.push(TySegment { ident: id, args: Vec::new() });
    let r = TyPath { segments: segs };
    proof {
        crate::ast::lemma_tysegs_v(r.segments@);
        assert(tys_v(r.segments@[0].args@) =~= Seq::<TyV>::empty());
        assert(crate::ast::typath_v(r).segments =~= single_seg_path(id@).segments);
    }
    r
}

fn replace_known_path_exec(p: TyPath) -> (r: TyPath)
    ensures
        crate::ast::typath_v(r) == replace_known_path(crate::ast::typath_v(p)),
{
    if path_idents_are(&p, "std", "unique_ptr") {
        single_seg_path_exec(string_lit("UniquePtr"))
    } else if path_idents_are(&p, "std", "string") {
        single_seg_path_exec(string_lit("CxxString"))
    } else {
        p
    }
}

/// An owned copy of a string literal.
pub fn string_lit(s: &str) -> (r: String)
    ensures
        r@ == s@,
{
    String::from_str(s)
}

// ---------------------------------------------------------------------------
// Path construction from a qualified name.
// ---------------------------------------------------------------------------
pub open spec fn segs_of_idents(ids: Seq<Seq<char>>) -> Seq<TySegmentV>
    decreases ids,
{
    if ids.len() == 0 {
        Seq::empty()
    } else {
        seq![TySegmentV { ident: ids[0], args: Seq::empty() }] + segs_of_idents(ids.drop_first())
    }
}

pub broadcast proof fn lemma_segs_of_idents(ids: Seq<Seq<char>>)
    ensures
        (#[trigger] segs_of_idents(ids)).len() == ids.len(),
        forall|i: int|
            0 <= i < ids.len() ==> segs_of_idents(ids)[i] == (TySegmentV {
                ident: ids[i],
                args: Seq::empty(),
            }),
    decreases ids,
{
    if ids.len() > 0 {
        lemma_segs_of_idents(ids.drop_first());
    }
}

/// The plain path spelling a qualified name: its namespace segments, then
/// its identifier, without arguments.
pub open spec fn path_of_qn(q: QnV) -> TyPathV {
    TyPathV { segments: segs_of_idents(q.ns.push(q.id)) }
}

#[verifier::loop_isolation(false)]
fn path_of_qn_exec(q: &QualifiedName) -> (r: TyPath)
    ensures
        crate::ast::typath_v(r) == path_of_qn(q@),
{
    proof {
        lemma_segs_of_idents(q@.ns.push(q@.id));
    }
    let mut segs: Vec<TySegment> = Vec::new();
    let n = q.ns.segments.len();
    let mut i: usize = 0;
    while i < n
        invariant
            i <= n,
            segs@.len() == i,
            forall|j: int|
                0 <= j < i ==> crate::ast::tyseg_v(segs@[j]) == (TySegmentV {
                    ident: q@.ns[j],
                    args: Seq::empty(),
                }),
        decreases n - i,
    {
        segs.push(TySegment { ident: q.ns.segments[i].clone(), args: Vec::new() });
        proof {
            assert(tys_v(segs@[i as int].args@) =~= Seq::<TyV>::empty());
        }
        i = i + 1;
    }
    segs.push(TySegment { ident: q.id.clone(), args: Vec::new() });
    let r = TyPath { segments: segs };
    proof {
        assert(tys_v(r.segments@[n as int].args@) =~= Seq::<TyV>::empty());
        crate::ast::lemma_tysegs_v(r.segments@);
        assert(crate::ast::typath_v(r).segments =~= segs_of_idents(q@.ns.push(q@.id)));
    }
    r
}


// ---------------------------------------------------------------------------
// Type conversion.
// ---------------------------------------------------------------------------
/// Converts the generic arguments of a run of segments.
pub open spec fn conv_segs(tds: Seq<(QnV, TypedefTargetV)>, s: Seq<TySegmentV>) -> Seq<TySegmentV>
    decreases s,
{
    if s.len() == 0 {
        Seq::empty()
    } else {
        seq![TySegmentV { ident: s[0].ident, args: convert_tys(tds, s[0].args) }] + conv_segs(
            tds,
            s.drop_first(),
        )
    }
}

pub open spec fn convert_tys(tds: Seq<(QnV, TypedefTargetV)>, s: Seq<TyV>) -> Seq<TyV>
    decreases s,
{
    if s.len() == 0 {
        Seq::empty()
    } else {
        seq![convert_ty(tds, s[0])] + convert_tys(tds, s.drop_first())
    }
}

/// Substitutes the resolved typedef target, replaces well-known foreign
/// spellings, and keeps the final segment's arguments.
pub open spec fn replace_cpp(tds: Seq<(QnV, TypedefTargetV)>, p: TyPathV) -> TyPathV {
    if p.segments.len() == 0 {
        p
    } else {
        let last_args = p.segments.last().args;
        let p2 = match resolve_td(tds, qn_from_cxx_path(p)) {
            Option::Some(t) => path_of_qn(t),
            Option::None => p,
        };
        let p3 = replace_known_path(p2);
        TyPathV {
            segments: p3.segments.update(
                p3.segments.len() - 1,
                TySegmentV { ident: p3.segments.last().ident, args: last_args },
            ),
        }
    }
}

/// Rewrites one named path: strips the generator's internal root-module
/// prefix (converting the arguments of the remaining segments), then
/// substitutes typedefs and well-known spellings.
pub open spec fn convert_typath(tds: Seq<(QnV, TypedefTargetV)>, p: TyPathV) -> TyPathV
    decreases p,
{
    if p.segments.len() == 0 {
        p
    } else {
        let stripped = if p.segments.len() > 1 && p.segments[0].ident == "root"@ {
            conv_segs(tds, p.segments.drop_first())
        } else {
            p.segments
        };
        replace_cpp(tds, TyPathV { segments: stripped })
    }
}

/// Converts one type: raw pointers become references of the same
/// mutability, paths are rewritten, and a raw by-value foreign string
/// view becomes a borrowed string slice.
pub open spec fn convert_ty(tds: Seq<(QnV, TypedefTargetV)>, t: TyV) -> TyV
    decreases t,
{
    match t {
        TyV::Path(p) => {
            let p2 = convert_typath(tds, p);
            if is_str_view_path(p2) {
                str_slice_ty()
            } else {
                TyV::Path(p2)
            }
        },
        TyV::Reference { mutable, elem } => TyV::Reference {
            mutable,
            elem: Box::new(convert_ty(tds, *elem)),
        },
        TyV::Pointer { mutable, elem } => TyV::Reference {
            mutable,
            elem: Box::new(convert_ty(tds, *elem)),
        },
        TyV::Other => TyV::Other,
    }
}

pub broadcast proof fn lemma_convert_tys(tds: Seq<(QnV, TypedefTargetV)>, s: Seq<TyV>)
    ensures
        (#[trigger] convert_tys(tds, s)).len() == s.len(),
        forall|i: int| 0 <= i < s.len() ==> convert_tys(tds, s)[i] == convert_ty(tds, s[i]),
    decreases s,
{
    if s.len() > 0 {
        lemma_convert_tys(tds, s.drop_first());
    }
}

pub broadcast proof fn lemma_conv_segs(tds: Seq<(QnV, TypedefTargetV)>, s: Seq<TySegmentV>)
    ensures
        (#[trigger] conv_segs(tds, s)).len() == s.len(),
        forall|i: int|
            0 <= i < s.len() ==> conv_segs(tds, s)[i] == (TySegmentV {
                ident: s[i].ident,
                args: convert_tys(tds, s[i].args),
            }),
    decreases s,
{
    if s.len() > 0 {
        lemma_conv_segs(tds, s.drop_first());
    }
}

/// Unqualifies a type: a multi-segment path is reduced to its final
/// segment, recursively through arguments and references.
pub open spec fn unqualify_ty(t: TyV) -> TyV
    decreases t,
{
    match t {
        TyV::Path(p) => if p.segments.len() == 0 {
            t
        } else {
            TyV::Path(
                TyPathV {
                    segments: seq![
                        TySegmentV {
                            ident: p.segments.last().ident,
                            args: unqualify_tys(p.segments.last().args),
                        },
                    ],
                },
            )
        },
        TyV::Reference { mutable, elem } => TyV::Reference {
            mutable,
            elem: Box::new(unqualify_ty(*elem)),
        },
        TyV::Pointer { mutable, elem } => TyV::Pointer {
            mutable,
            elem: Box::new(unqualify_ty(*elem)),
        },
        TyV::Other => TyV::Other,
    }
}

pub open spec fn unqualify_tys(s: Seq<TyV>) -> Seq<TyV>
    decreases s,
{
    if s.len() == 0 {
        Seq::empty()
    } else {
        seq![unqualify_ty(s[0])] + unqualify_tys(s.drop_first())
    }
}

pub broadcast proof fn lemma_unqualify_tys(s: Seq<TyV>)
    ensures
        (#[trigger] unqualify_tys(s)).len() == s.len(),
        forall|i: int| 0 <= i < s.len() ==> unqualify_tys(s)[i] == unqualify_ty(s[i]),
    decreases s,
{
    if s.len() > 0 {
        lemma_unqualify_tys(s.drop_first());
    }
}

// ---------------------------------------------------------------------------
// Executable conversion.
// ---------------------------------------------------------------------------
fn replace_cpp_exec(td: &TypedefMap, p: &TyPath) -> (r: TyPath)
    ensures
        crate::ast::typath_v(r) == replace_cpp(td.view_spec(), crate::ast::typath_v(*p)),
{
    proof {
        crate::ast::lemma_tysegs_v(p.segments@);
    }
    let ghost pv = crate::ast::typath_v(*p);
    let n = p.segments.len();
    if n == 0 {
        return crate::ast::clone_typath(p);
    }
    let tn = qn_from_cxx_path_exec(p);
    let last_args = crate::ast::clone_tys(&p.segments[n - 1].args);
    let p2 = match td.resolve(&tn) {
        Option::Some(t2) => path_of_qn_exec(&t2),
        Option::None => crate::ast::clone_typath(p),
    };
    proof {
        lemma_segs_of_idents(
            match resolve_td(td.view_spec(), qn_from_cxx_path(pv)) {
                Option::Some(t) => t.ns.push(t.id),
                Option::None => Seq::empty(),
            },
        );
        assert(crate::ast::typath_v(p2).segments.len() > 0);
    }
    let p3 = replace_known_path_exec(p2);
    let m = p3.segments.len();
    proof {
        crate::ast::lemma_tysegs_v(p3.segments@);
        assert(m > 0);
    }
    let ident = p3.segments[m - 1].ident.clone();
    let mut segs = p3.segments;
    segs.set(m - 1, TySegment { ident, args: last_args });
    let r = TyPath { segments: segs };
    proof {
        crate::ast::lemma_tysegs_v(r.segments@);
        assert(crate::ast::typath_v(r).segments =~= replace_cpp(td.view_spec(), pv).segments);
    }
    r
}

#[verifier::loop_isolation(false)]
fn convert_typath_exec(td: &TypedefMap, p: &TyPath) -> (r: TyPath)
    ensures
        crate::ast::typath_v(r) == convert_typath(td.view_spec(), crate::ast::typath_v(*p)),
    decreases *p,
{
    proof {
        crate::ast::lemma_tysegs_v(p.segments@);
    }
    let ghost pv = crate::ast::typath_v(*p);
    let n = p.segments.len();
    if n == 0 {
        return crate::ast::clone_typath(p);
    }
    if n > 1 && str_eq(p.segments[0].ident.as_str(), "root") {
        proof {
            lemma_conv_segs(td.view_spec(), pv.segments.drop_first());
        }
        let mut segs: Vec<TySegment> = Vec::new();
        let mut j: usize = 1;
        while j < n
            invariant
                1 <= j <= n,
                segs@.len() == j - 1,
                forall|k: int|
                    0 <= k < j - 1 ==> crate::ast::tyseg_v(segs@[k]) == (TySegmentV {
                        ident: pv.segments[k + 1].ident,
                        args: convert_tys(td.view_spec(), pv.segments[k + 1].args),
                    }),
            decreases n - j,
        {
            let args = convert_tys_exec(td, &p.segments[j].args);
            segs.push(TySegment { ident: p.segments[j].ident.clone(), args });
            j = j + 1;
        }
        let stripped = TyPath { segments: segs };
        proof {
            crate::ast::lemma_tysegs_v(stripped.segments@);
            assert(crate::ast::typath_v(stripped).segments =~= conv_segs(
                td.view_spec(),
                pv.segments.drop_first(),
            ));
        }
        replace_cpp_exec(td, &stripped)
    } else {
        replace_cpp_exec(td, p)
    }
}

#[verifier::loop_isolation(false)]
fn convert_tys_exec(td: &TypedefMap, v: &Vec<Ty>) -> (r: Vec<Ty>)
    ensures
        tys_v(r@) == convert_tys(td.view_spec(), tys_v(v@)),
    decreases *v,
{
    proof {
        crate::ast::lemma_tys_v(v@);
        lemma_convert_tys(td.view_spec(), tys_v(v@));
    }
    let mut r: Vec<Ty> = Vec::new();
    let n = v.len();
    let mut i: usize = 0;
    while i < n
        invariant
            i <= n,
            r@.len() == i,
            forall|j: int|
                0 <= j < i ==> crate::ast::ty_v(r@[j]) == convert_ty(
                    td.view_spec(),
                    crate::ast::ty_v(v@[j]),
                ),
        decreases n - i,
    {
        let t = convert_ty_exec(td, &v[i]);
        r.push(t);
        i = i + 1;
    }
    proof {
        crate::ast::lemma_tys_v(r@);
        assert(tys_v(r@) =~= convert_tys(td.view_spec(), tys_v(v@)));
    }
    r
}

/// Converts one type as the rewrite pass requires: pointer-to-reference
/// lowering, root-prefix stripping, typedef substitution, well-known
/// spelling replacement, string-view special case.
pub fn convert_ty_exec(td: &TypedefMap, t: &Ty) -> (r: Ty)
    ensures
        crate::ast::ty_v(r) == convert_ty(td.view_spec(), crate::ast::ty_v(*t)),
    decreases *t,
{
    let ghost tv = crate::ast::ty_v(*t);
    match t {
        Ty::Path(p) => {
            proof {
                assert(tv == TyV::Path(crate::ast::typath_v(*p)));
            }
            let p2 = convert_typath_exec(td, p);
            if path_idents_are(&p2, "rust", "Str") {
                let inner = Ty::Path(single_seg_path_exec(string_lit("str")));
                proof {
                    assert(crate::ast::ty_v(inner) == TyV::Path(single_seg_path("str"@)));
                }
                let r = Ty::Reference { mutable: false, elem: Box::new(inner) };
                proof {
                    assert(crate::ast::ty_v(r) == str_slice_ty());
                    assert(crate::ast::ty_v(r) == convert_ty(td.view_spec(), tv));
                }
                r
            } else {
                let r = Ty::Path(p2);
                proof {
                    assert(crate::ast::ty_v(r) == convert_ty(td.view_spec(), tv));
                }
                r
            }
        },
        Ty::Reference { mutable, elem } => {
            let e2 = convert_ty_exec(td, &**elem);
            let r = Ty::Reference { mutable: *mutable, elem: Box::new(e2) };
            proof {
                assert(tv == (TyV::Reference {
                    mutable: *mutable,
                    elem: Box::new(crate::ast::ty_v(**elem)),
                }));
                assert(crate::ast::ty_v(r) == convert_ty(td.view_spec(), tv));
            }
            r
        },
        Ty::Pointer { mutable, elem } => {
            let e2 = convert_ty_exec(td, &**elem);
            let r = Ty::Reference { mutable: *mutable, elem: Box::new(e2) };
            proof {
                assert(tv == (TyV::Pointer {
                    mutable: *mutable,
                    elem: Box::new(crate::ast::ty_v(**elem)),
                }));
                assert(crate::ast::ty_v(r) == convert_ty(td.view_spec(), tv));
            }
            r
        },
        Ty::Other => Ty::Other,
    }
}

/// Unqualifies one type.
pub fn unqualify_ty_exec(t: &Ty) -> (r: Ty)
    ensures
        crate::ast::ty_v(r) == unqualify_ty(crate::ast::ty_v(*t)),
    decreases *t,
{
    match t {
        Ty::Path(p) => {
            proof {
                crate::ast::lemma_tysegs_v(p.segments@);
            }
            let n = p.segments.len();
            if n == 0 {
                let r0 = crate::ast::clone_ty(t);
                proof {
                    assert(crate::ast::ty_v(*t) == TyV::Path(crate::ast::typath_v(*p)));
                    assert(unqualify_ty(crate::ast::ty_v(*t)) == crate::ast::ty_v(*t));
                    assert(crate::ast::ty_v(r0) == unqualify_ty(crate::ast::ty_v(*t)));
                }
                r0
            } else {
                let ghost pv = crate::ast::typath_v(*p);
                let args = unqualify_tys_exec(&p.segments[n - 1].args);
                let ident = p.segments[n - 1].ident.clone();
                let mut segs: Vec<TySegment> = Vec::new();
                segs.push(TySegment { ident, args });
                let rp = TyPath { segments: segs };
                proof {
                    crate::ast::lemma_tysegs_v(rp.segments@);
                    assert(pv.segments.last() == crate::ast::tyseg_v(p.segments@[n - 1 as int]));
                    assert(crate::ast::typath_v(rp).segments =~= seq![
                        TySegmentV {
                            ident: pv.segments.last().ident,
                            args: unqualify_tys(pv.segments.last().args),
                        },
                    ]);
                    assert(crate::ast::ty_v(*t) == TyV::Path(pv));
                    assert(unqualify_ty(TyV::Path(pv)) == TyV::Path(
                        TyPathV {
                            segments: seq![
                                TySegmentV {
                                    ident: pv.segments.last().ident,
                                    args: unqualify_tys(pv.segments.last().args),
                                },
                            ],
                        },
                    ));
                    assert(TyV::Path(crate::ast::typath_v(rp)) == unqualify_ty(TyV::Path(pv)));
                }
                Ty::Path(rp)
            }
        },
        Ty::Reference { mutable, elem } => {
            let e2 = unqualify_ty_exec(&**elem);
            let r = Ty::Reference { mutable: *mutable, elem: Box::new(e2) };
            proof {
                assert(crate::ast::ty_v(*t) == (TyV::Reference {
                    mutable: *mutable,
                    elem: Box::new(crate::ast::ty_v(**elem)),
                }));
                assert(crate::ast::ty_v(r) == unqualify_ty(crate::ast::ty_v(*t)));
            }
            r
        },
        Ty::Pointer { mutable, elem } => {
            let e2 = unqualify_ty_exec(&**elem);
            let r = Ty::Pointer { mutable: *mutable, elem: Box::new(e2) };
            proof {
                assert(crate::ast::ty_v(*t) == (TyV::Pointer {
                    mutable: *mutable,
                    elem: Box::new(crate::ast::ty_v(**elem)),
                }));
                assert(crate::ast::ty_v(r) == unqualify_ty(crate::ast::ty_v(*t)));
            }
            r
        },
        Ty::Other => Ty::Other,
    }
}

#[verifier::loop_isolation(false)]
fn unqualify_tys_exec(v: &Vec<Ty>) -> (r: Vec<Ty>)
    ensures
        tys_v(r@) == unqualify_tys(tys_v(v@)),
    decreases *v,
{
    proof {
        crate::ast::lemma_tys_v(v@);
        lemma_unqualify_tys(tys_v(v@));
    }
    let mut r: Vec<Ty> = Vec::new();
    let n = v.len();
    let mut i: usize = 0;
    while i < n
        invariant
            i <= n,
            r@.len() == i,
            forall|j: int|
                0 <= j < i ==> crate::ast::ty_v(r@[j]) == unqualify_ty(crate::ast::ty_v(v@[j])),
        decreases n - i,
    {
        let t = unqualify_ty_exec(&v[i]);
        r.push(t);
        i = i + 1;
    }
    proof {
        crate::ast::lemma_tys_v(r@);
        assert(tys_v(r@) =~= unqualify_tys(tys_v(v@)));
    }
    r
}


/// LAW: a raw pointer of mutability M to element E is rewritten to a
/// reference of mutability M to the converted E; return types convert
/// with the same function, so the same rule applies to pointer returns.
pub proof fn lemma_pointer_lowering(tds: Seq<(QnV, TypedefTargetV)>, m: bool, e: TyV)
    ensures
        convert_ty(tds, TyV::Pointer { mutable: m, elem: Box::new(e) }) == (TyV::Reference {
            mutable: m,
            elem: Box::new(convert_ty(tds, e)),
        }),
{
}

} // verus!
