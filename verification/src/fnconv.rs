//! Per-function signature conversion: receiver detection, constructor and
//! destructor filtering, method-name recovery, by-value conversion
//! decisions and the synthesized shim request.

use vstd::prelude::*;

use crate::ast::fnparam_v;
use crate::ast::fnparams_v;
use crate::ast::foreignfn_v;
use crate::ast::ForeignFnV;
use crate::ast::qn_from_cxx_path;
use crate::ast::qn_from_cxx_path_exec;
use crate::ast::ty_v;
use crate::ast::FnParam;
use crate::ast::FnParamV;
use crate::ast::ForeignFn;
use crate::ast::Ty;
use crate::ast::TyV;
use crate::classify::Classifier;
use crate::emit::argconv_v;
use crate::emit::argconvs_v;
use crate::emit::conv_bridge_type;
use crate::emit::conv_raw_type;
use crate::emit::conv_work_needed;
use crate::emit::ArgumentConversion;
use crate::emit::ArgumentConversionV;
use crate::emit::AuxiliaryNeed;
use crate::emit::BridgeFnDecl;
use crate::emit::BridgeFnDeclV;
use crate::emit::EmissionV;
use crate::emit::ExternCItem;
use crate::emit::NamespaceEmission;
use crate::emit::ShimDetails;
use crate::emit::ShimDetailsV;
use crate::name::is_prefix_of;
use crate::name::str_starts_with;
use crate::name::Namespace;
use crate::tyconv::convert_ty;
use crate::tyconv::convert_ty_exec;
use crate::tyconv::ctx_of;
use crate::tyconv::ctx_trivial;
use crate::tyconv::string_lit;
use crate::tyconv::unqualify_ty;
use crate::tyconv::unqualify_ty_exec;
use crate::tyconv::CtxV;
use crate::tyconv::TypedefMap;
use vstd::string::StrSliceExecFns;
use vstd::string::StringExecFns;

verus! {

// ---------------------------------------------------------------------------
// Constructor and destructor patterns.
// ---------------------------------------------------------------------------
/// The flat name of a detected constructor of type `t`.
pub open spec fn ctor_name(t: Seq<char>) -> Seq<char> {
    t + "_"@ + t
}

/// The flat name of a detected destructor of type `t`.
pub open spec fn dtor_name(t: Seq<char>) -> Seq<char> {
    t + "_"@ + t + "_destructor"@
}

/// Whether `name` matches the constructor or destructor pattern of a
/// type seen so far.
pub open spec fn is_ctor_dtor(tf: Seq<Seq<char>>, name: Seq<char>) -> bool {
    exists|i: int|
        0 <= i < tf.len() && (name == ctor_name(#[trigger] tf[i]) || name == dtor_name(tf[i]))
}

#[verifier::loop_isolation(false)]
fn is_ctor_dtor_exec(tf: &Vec<String>, name: &String) -> (r: bool)
    ensures
        r == is_ctor_dtor(tf.deep_view(), name@),
{
    let n = tf.len();
    let mut i: usize = 0;
    while i < n
        invariant
            i <= n,
            forall|j: int|
                0 <= j < i ==> name@ != ctor_name(#[trigger] tf.deep_view()[j]) && name@
                    != dtor_name(tf.deep_view()[j]),
        decreases n - i,
    {
        let mut cn = tf[i].clone();
        cn.append("_");
        cn.append(tf[i].as_str());
        proof {
            assert(cn@ == ctor_name(tf.deep_view()[i as int]));
        }
        if cn == *name {
            return true;
        }
        let mut dn = cn;
        dn.append("_destructor");
        proof {
            assert(dn@ == dtor_name(tf.deep_view()[i as int]));
        }
        if dn == *name {
            return true;
        }
        i = i + 1;
    }
    false
}

// ---------------------------------------------------------------------------
// Method name recovery.
// ---------------------------------------------------------------------------
/// Strips the first matching `<TypeIdent>_` prefix of a previously seen
/// type from a method's flat name; the name is kept when none matches.
pub open spec fn strip_class_prefix(tf: Seq<Seq<char>>, name: Seq<char>) -> Seq<char>
    decreases tf,
{
    if tf.len() == 0 {
        name
    } else if is_prefix_of(tf[0] + "_"@, name) {
        name.subrange(tf[0].len() + 1 as int, name.len() as int)
    } else {
        strip_class_prefix(tf.drop_first(), name)
    }
}

pub proof fn lemma_strip_is(tf: Seq<Seq<char>>, name: Seq<char>, i: int)
    requires
        0 <= i < tf.len(),
        is_prefix_of(tf[i] + "_"@, name),
        forall|j: int| 0 <= j < i ==> !is_prefix_of((#[trigger] tf[j]) + "_"@, name),
    ensures
        strip_class_prefix(tf, name) == name.subrange(tf[i].len() + 1 as int, name.len() as int),
    decreases tf,
{
    if !is_prefix_of(tf[0] + "_"@, name) {
        assert(i > 0);
        let d = tf.drop_first();
        assert(d[i - 1] == tf[i]);
        assert forall|j: int| 0 <= j < i - 1 implies !is_prefix_of(
            (#[trigger] d[j]) + "_"@,
            name,
        ) by {
            assert(d[j] == tf[j + 1]);
        }
        lemma_strip_is(d, name, i - 1);
    }
}

pub proof fn lemma_strip_none(tf: Seq<Seq<char>>, name: Seq<char>)
    requires
        forall|j: int| 0 <= j < tf.len() ==> !is_prefix_of((#[trigger] tf[j]) + "_"@, name),
    ensures
        strip_class_prefix(tf, name) == name,
    decreases tf,
{
    if tf.len() > 0 {
        let d = tf.drop_first();
        assert forall|j: int| 0 <= j < d.len() implies !is_prefix_of(
            (#[trigger] d[j]) + "_"@,
            name,
        ) by {
            assert(d[j] == tf[j + 1]);
        }
        lemma_strip_none(d, name);
    }
}

#[verifier::loop_isolation(false)]
fn strip_class_prefix_exec(tf: &Vec<String>, name: &String) -> (r: String)
    ensures
        r@ == strip_class_prefix(tf.deep_view(), name@),
{
    let n = tf.len();
    let mut i: usize = 0;
    while i < n
        invariant
            i <= n,
            forall|j: int|
                0 <= j < i ==> !is_prefix_of((#[trigger] tf.deep_view()[j]) + "_"@, name@),
        decreases n - i,
    {
        let mut p = tf[i].clone();
        p.append("_");
        proof {
            assert(p@ == tf.deep_view()[i as int] + "_"@);
        }
        if str_starts_with(name.as_str(), p.as_str()) {
            let tlen = tf[i].as_str().unicode_len();
            let nlen = name.as_str().unicode_len();
            proof {
                reveal_strlit("_");
                assert(p@.len() == tf.deep_view()[i as int].len() + 1);
                assert(tlen + 1 <= nlen);
                lemma_strip_is(tf.deep_view(), name@, i as int);
            }
            let stripped = name.as_str().substring_char(tlen + 1, nlen);
            return stripped.to_owned();
        }
        i = i + 1;
    }
    proof {
        lemma_strip_none(tf.deep_view(), name@);
    }
    name.clone()
}

// ---------------------------------------------------------------------------
// Parameter and return analysis.
// ---------------------------------------------------------------------------
pub struct ArgAnalysisV {
    pub param: FnParamV,
    pub was_self: bool,
    pub conv: ArgumentConversionV,
}

/// The conversion a parameter of (already converted) type `t` needs:
/// a named trivial type crosses unconverted; a named opaque type passed
/// by value is boxed into a handle; anything else crosses unconverted.
pub open spec fn param_conversion(ctx: CtxV, t: TyV) -> ArgumentConversionV {
    match t {
        TyV::Path(p) => if p.segments.len() > 0 && !ctx_trivial(ctx, qn_from_cxx_path(p)) {
            ArgumentConversionV::ToHandle(t)
        } else {
            ArgumentConversionV::Unconverted(t)
        },
        _ => ArgumentConversionV::Unconverted(t),
    }
}

/// Whether a (converted) return type requires conversion out of a handle.
pub open spec fn ret_requires_conversion(ctx: CtxV, t: TyV) -> bool {
    match t {
        TyV::Path(p) => p.segments.len() > 0 && !ctx_trivial(ctx, qn_from_cxx_path(p)),
        _ => false,
    }
}

/// The analysis of one parameter: the receiver is renamed, the type is
/// converted, and the conversion decision recorded.
pub open spec fn arg_analysis(ctx: CtxV, p: FnParamV) -> ArgAnalysisV {
    let was_self = p.name == "this"@;
    let name2 = if was_self {
        "self"@
    } else {
        p.name
    };
    let ty2 = convert_ty(ctx.tds, p.ty);
    ArgAnalysisV {
        param: FnParamV { name: name2, ty: ty2 },
        was_self,
        conv: param_conversion(ctx, ty2),
    }
}

pub open spec fn args_analysis(ctx: CtxV, ps: Seq<FnParamV>) -> Seq<ArgAnalysisV>
    decreases ps,
{
    if ps.len() == 0 {
        Seq::empty()
    } else {
        seq![arg_analysis(ctx, ps[0])] + args_analysis(ctx, ps.drop_first())
    }
}

pub broadcast proof fn lemma_args_analysis(ctx: CtxV, ps: Seq<FnParamV>)
    ensures
        (#[trigger] args_analysis(ctx, ps)).len() == ps.len(),
        forall|i: int|
            0 <= i < ps.len() ==> args_analysis(ctx, ps)[i] == arg_analysis(ctx, ps[i]),
    decreases ps,
{
    if ps.len() > 0 {
        lemma_args_analysis(ctx, ps.drop_first());
    }
}

pub open spec fn any_self(pa: Seq<ArgAnalysisV>) -> bool {
    exists|i: int| 0 <= i < pa.len() && (#[trigger] pa[i]).was_self
}

pub open spec fn any_param_conv(pa: Seq<ArgAnalysisV>) -> bool {
    exists|i: int| 0 <= i < pa.len() && conv_work_needed((#[trigger] pa[i]).conv)
}

/// The analysis of the return: the converted type together with its
/// conversion decision; a void-returning declaration yields none and is
/// never wrapped on the return side.
pub open spec fn ret_analysis(ctx: CtxV, r: Option<TyV>) -> Option<ArgumentConversionV> {
    match r {
        Option::None => Option::None,
        Option::Some(t) => {
            let t2 = convert_ty(ctx.tds, t);
            Option::Some(
                if ret_requires_conversion(ctx, t2) {
                    ArgumentConversionV::FromHandle(t2)
                } else {
                    ArgumentConversionV::Unconverted(t2)
                },
            )
        },
    }
}

pub open spec fn ret_work(rc: Option<ArgumentConversionV>) -> bool {
    match rc {
        Option::None => false,
        Option::Some(c) => conv_work_needed(c),
    }
}

// Sequence projections of the analysis.
pub open spec fn plain_params(pa: Seq<ArgAnalysisV>) -> Seq<FnParamV>
    decreases pa,
{
    if pa.len() == 0 {
        Seq::empty()
    } else {
        seq![pa[0].param] + plain_params(pa.drop_first())
    }
}

/// The parameter list of a wrapped declaration: every position takes its
/// bridge-side (handle) form, and the receiver is given a distinct
/// internal name so that receiver detection does not fire again when the
/// shim's own declaration is fed back through the pipeline.
pub open spec fn wrapper_params(pa: Seq<ArgAnalysisV>) -> Seq<FnParamV>
    decreases pa,
{
    if pa.len() == 0 {
        Seq::empty()
    } else {
        seq![
            FnParamV {
                name: if pa[0].was_self {
                    "gen_this"@
                } else {
                    pa[0].param.name
                },
                ty: conv_bridge_type(pa[0].conv),
            },
        ] + wrapper_params(pa.drop_first())
    }
}

pub open spec fn convs_of(pa: Seq<ArgAnalysisV>) -> Seq<ArgumentConversionV>
    decreases pa,
{
    if pa.len() == 0 {
        Seq::empty()
    } else {
        seq![pa[0].conv] + convs_of(pa.drop_first())
    }
}

pub open spec fn unq_params(ps: Seq<FnParamV>) -> Seq<FnParamV>
    decreases ps,
{
    if ps.len() == 0 {
        Seq::empty()
    } else {
        seq![FnParamV { name: ps[0].name, ty: unqualify_ty(ps[0].ty) }] + unq_params(
            ps.drop_first(),
        )
    }
}

pub broadcast proof fn lemma_plain_params(pa: Seq<ArgAnalysisV>)
    ensures
        (#[trigger] plain_params(pa)).len() == pa.len(),
        forall|i: int| 0 <= i < pa.len() ==> plain_params(pa)[i] == pa[i].param,
    decreases pa,
{
    if pa.len() > 0 {
        lemma_plain_params(pa.drop_first());
    }
}

pub broadcast proof fn lemma_wrapper_params(pa: Seq<ArgAnalysisV>)
    ensures
        (#[trigger] wrapper_params(pa)).len() == pa.len(),
        forall|i: int|
            0 <= i < pa.len() ==> wrapper_params(pa)[i] == (FnParamV {
                name: if pa[i].was_self {
                    "gen_this"@
                } else {
                    pa[i].param.name
                },
                ty: conv_bridge_type(pa[i].conv),
            }),
    decreases pa,
{
    if pa.len() > 0 {
        lemma_wrapper_params(pa.drop_first());
    }
}

pub broadcast proof fn lemma_convs_of(pa: Seq<ArgAnalysisV>)
    ensures
        (#[trigger] convs_of(pa)).len() == pa.len(),
        forall|i: int| 0 <= i < pa.len() ==> convs_of(pa)[i] == pa[i].conv,
    decreases pa,
{
    if pa.len() > 0 {
        lemma_convs_of(pa.drop_first());
    }
}

pub broadcast proof fn lemma_unq_params(ps: Seq<FnParamV>)
    ensures
        (#[trigger] unq_params(ps)).len() == ps.len(),
        forall|i: int|
            0 <= i < ps.len() ==> unq_params(ps)[i] == (FnParamV {
                name: ps[i].name,
                ty: unqualify_ty(ps[i].ty),
            }),
    decreases ps,
{
    if ps.len() > 0 {
        lemma_unq_params(ps.drop_first());
    }
}

// ---------------------------------------------------------------------------
// The whole per-function conversion.
// ---------------------------------------------------------------------------
/// What converting one foreign function emits.
pub struct FfnOutV {
    /// The declaration matched a constructor or destructor pattern and
    /// was removed from the output entirely.
    pub skipped: bool,
    pub decl: Option<BridgeFnDeclV>,
    pub need: Option<ShimDetailsV>,
    pub emission: Option<EmissionV>,
}

/// Converts one foreign function declaration, in namespace `ns`, with
/// the types seen so far `tf`.
pub open spec fn ffn_convert(ctx: CtxV, ns: Seq<Seq<char>>, tf: Seq<Seq<char>>, f: ForeignFnV) -> FfnOutV {
    if is_ctor_dtor(tf, f.name) {
        FfnOutV { skipped: true, decl: Option::None, need: Option::None, emission: Option::None }
    } else {
        let pa = args_analysis(ctx, f.params);
        let is_method = any_self(pa);
        let rust_name = if is_method {
            strip_class_prefix(tf, f.name)
        } else {
            f.name
        };
        let retc = ret_analysis(ctx, f.ret);
        let wrapper = any_param_conv(pa) || ret_work(retc);
        let target_name = if wrapper {
            rust_name + "_up_wrapper"@
        } else {
            rust_name
        };
        let params0 = if wrapper {
            wrapper_params(pa)
        } else {
            plain_params(pa)
        };
        let ret0 = match retc {
            Option::None => Option::<TyV>::None,
            Option::Some(c) => Option::Some(
                if wrapper {
                    conv_bridge_type(c)
                } else {
                    conv_raw_type(c)
                },
            ),
        };
        FfnOutV {
            skipped: false,
            decl: Option::Some(
                BridgeFnDeclV {
                    namespace: if ns.len() > 0 {
                        Option::Some(ns)
                    } else {
                        Option::None
                    },
                    alias: if wrapper {
                        Option::Some(rust_name)
                    } else {
                        Option::None
                    },
                    name: target_name,
                    params: unq_params(params0),
                    ret: match ret0 {
                        Option::None => Option::<TyV>::None,
                        Option::Some(t) => Option::Some(unqualify_ty(t)),
                    },
                },
            ),
            need: if wrapper {
                Option::Some(
                    ShimDetailsV {
                        target: rust_name,
                        return_conversion: retc,
                        argument_conversion: convs_of(pa),
                        is_a_method: is_method,
                    },
                )
            } else {
                Option::None
            },
            emission: if !is_method || wrapper {
                Option::Some(EmissionV { ns, id: rust_name })
            } else {
                Option::None
            },
        }
    }
}


// ---------------------------------------------------------------------------
// Executable conversion.
// ---------------------------------------------------------------------------
pub struct ArgAnalysis {
    pub param: FnParam,
    pub was_self: bool,
    pub conv: ArgumentConversion,
}

pub open spec fn aa_v(a: ArgAnalysis) -> ArgAnalysisV {
    ArgAnalysisV { param: fnparam_v(a.param), was_self: a.was_self, conv: argconv_v(a.conv) }
}

/// What converting one foreign function emits (executable form).
pub struct FfnOut {
    pub skipped: bool,
    pub decl: Option<BridgeFnDecl>,
    pub need: Option<ShimDetails>,
    pub emission: Option<NamespaceEmission>,
}

pub open spec fn ffnout_v(o: FfnOut) -> FfnOutV {
    FfnOutV {
        skipped: o.skipped,
        decl: match o.decl {
            Option::None => Option::None,
            Option::Some(d) => Option::Some(crate::emit::bfn_v(d)),
        },
        need: match o.need {
            Option::None => Option::None,
            Option::Some(s) => Option::Some(crate::emit::shim_v(s)),
        },
        emission: match o.emission {
            Option::None => Option::None,
            Option::Some(e) => Option::Some(crate::emit::emission_v(e)),
        },
    }
}

fn conv_work_needed_exec(c: &ArgumentConversion) -> (r: bool)
    ensures
        r == conv_work_needed(argconv_v(*c)),
{
    match c {
        ArgumentConversion::Unconverted(_) => false,
        ArgumentConversion::ToHandle(_) => true,
        ArgumentConversion::FromHandle(_) => true,
    }
}

fn clone_argconv(c: &ArgumentConversion) -> (r: ArgumentConversion)
    ensures
        argconv_v(r) == argconv_v(*c),
{
    match c {
        ArgumentConversion::Unconverted(t) => ArgumentConversion::Unconverted(
            crate::ast::clone_ty(t),
        ),
        ArgumentConversion::ToHandle(t) => ArgumentConversion::ToHandle(crate::ast::clone_ty(t)),
        ArgumentConversion::FromHandle(t) => ArgumentConversion::FromHandle(
            crate::ast::clone_ty(t),
        ),
    }
}

/// The bridge-side type of a converted position: a handle around the raw
/// type where conversion is needed.
fn bridge_type_exec(c: &ArgumentConversion) -> (r: Ty)
    ensures
        ty_v(r) == conv_bridge_type(argconv_v(*c)),
{
    match c {
        ArgumentConversion::Unconverted(t) => crate::ast::clone_ty(t),
        ArgumentConversion::ToHandle(t) => handle_ty_exec(t),
        ArgumentConversion::FromHandle(t) => handle_ty_exec(t),
    }
}

fn raw_type_exec(c: &ArgumentConversion) -> (r: Ty)
    ensures
        ty_v(r) == conv_raw_type(argconv_v(*c)),
{
    match c {
        ArgumentConversion::Unconverted(t) => crate::ast::clone_ty(t),
        ArgumentConversion::ToHandle(t) => crate::ast::clone_ty(t),
        ArgumentConversion::FromHandle(t) => crate::ast::clone_ty(t),
    }
}

pub fn handle_ty_exec(t: &Ty) -> (r: Ty)
    ensures
        ty_v(r) == crate::emit::handle_ty(ty_v(*t)),
{
    let mut args: Vec<Ty> = Vec::new();
    args.push(crate::ast::clone_ty(t));
    let mut segs: Vec<crate::ast::TySegment> = Vec::new();
    segs.push(crate::ast::TySegment { ident: string_lit("UniquePtr"), args });
    let rp = crate::ast::TyPath { segments: segs };
    proof {
        crate::ast::lemma_tysegs_v(rp.segments@);
        crate::ast::lemma_tys_v(rp.segments@[0].args@);
        assert(crate::ast::tys_v(rp.segments@[0].args@) =~= seq![ty_v(*t)]);
        assert(crate::ast::typath_v(rp).segments =~= (crate::ast::TyPathV {
            segments: seq![
                crate::ast::TySegmentV { ident: "UniquePtr"@, args: seq![ty_v(*t)] },
            ],
        }).segments);
        assert(TyV::Path(crate::ast::typath_v(rp)) == crate::emit::handle_ty(ty_v(*t)));
    }
    Ty::Path(rp)
}

/// Analyzes one parameter: receiver renaming, type conversion, and the
/// by-value conversion decision.
fn convert_fn_arg(cls: &Classifier, tds: &TypedefMap, p: &FnParam) -> (r: ArgAnalysis)
    requires
        cls.resolved_ok(),
    ensures
        aa_v(r) == arg_analysis(ctx_of(*cls, *tds), fnparam_v(*p)),
{
    let was_self = crate::name::str_eq(p.name.as_str(), "this");
    let name2 = if was_self {
        string_lit("self")
    } else {
        p.name.clone()
    };
    let ty2 = convert_ty_exec(tds, &p.ty);
    let conv = param_conversion_exec(cls, &ty2, Ghost(tds.view_spec()));
    ArgAnalysis { param: FnParam { name: name2, ty: ty2 }, was_self, conv }
}

fn param_conversion_exec(
    cls: &Classifier,
    t: &Ty,
    tds: Ghost<Seq<(crate::name::QnV, crate::tyconv::TypedefTargetV)>>,
) -> (r: ArgumentConversion)
    requires
        cls.resolved_ok(),
    ensures
        argconv_v(r) == param_conversion(
            crate::tyconv::CtxV {
                es: crate::classify::entries_v(cls.entries@),
                bits: cls.resolved@,
                tds: tds@,
            },
            ty_v(*t),
        ),
{
    match t {
        Ty::Path(p) => {
            if p.segments.len() > 0 {
                proof {
                    crate::ast::lemma_tysegs_v(p.segments@);
                }
                let qn = qn_from_cxx_path_exec(p);
                if cls.is_pod(&qn) {
                    ArgumentConversion::Unconverted(crate::ast::clone_ty(t))
                } else {
                    ArgumentConversion::ToHandle(crate::ast::clone_ty(t))
                }
            } else {
                proof {
                    crate::ast::lemma_tysegs_v(p.segments@);
                }
                ArgumentConversion::Unconverted(crate::ast::clone_ty(t))
            }
        },
        _ => ArgumentConversion::Unconverted(crate::ast::clone_ty(t)),
    }
}

fn convert_return_type_exec(cls: &Classifier, tds: &TypedefMap, r: &Option<Ty>) -> (res: Option<
    ArgumentConversion,
>)
    requires
        cls.resolved_ok(),
    ensures
        match res {
            Option::None => ret_analysis(ctx_of(*cls, *tds), crate::ast::opt_ty_v(*r))
                == Option::<ArgumentConversionV>::None,
            Option::Some(c) => ret_analysis(ctx_of(*cls, *tds), crate::ast::opt_ty_v(*r))
                == Option::Some(argconv_v(c)),
        },
{
    match r {
        Option::None => Option::None,
        Option::Some(t) => {
            let t2 = convert_ty_exec(tds, t);
            let ghost rctx = ctx_of(*cls, *tds);
            let needs = match &t2 {
                Ty::Path(p) => {
                    if p.segments.len() > 0 {
                        proof {
                            crate::ast::lemma_tysegs_v(p.segments@);
                        }
                        let qn = qn_from_cxx_path_exec(p);
                        let b = !cls.is_pod(&qn);
                        proof {
                            assert(b == ret_requires_conversion(rctx, ty_v(t2)));
                        }
                        b
                    } else {
                        proof {
                            crate::ast::lemma_tysegs_v(p.segments@);
                            assert(!ret_requires_conversion(rctx, ty_v(t2)));
                        }
                        false
                    }
                },
                _ => {
                    proof {
                        assert(!ret_requires_conversion(rctx, ty_v(t2)));
                    }
                    false
                },
            };
            if needs {
                Option::Some(ArgumentConversion::FromHandle(t2))
            } else {
                Option::Some(ArgumentConversion::Unconverted(t2))
            }
        },
    }
}

/// Converts one foreign function declaration in namespace `ns`, with the
/// types seen so far `tf`: a constructor or destructor pattern is
/// removed entirely; otherwise the declaration is emitted, a shim request
/// is synthesized when any position crosses an opaque type by value, and
/// the visible name is recorded unless the declaration is a plain method.
#[verifier::loop_isolation(false)]
pub fn convert_foreign_fn(
    cls: &Classifier,
    tds: &TypedefMap,
    tf: &Vec<String>,
    ns: &Namespace,
    f: &ForeignFn,
) -> (r: FfnOut)
    requires
        cls.resolved_ok(),
    ensures
        ffnout_v(r) == ffn_convert(ctx_of(*cls, *tds), ns@, tf.deep_view(), foreignfn_v(*f)),
{
    let ghost ctx = ctx_of(*cls, *tds);
    let ghost fv = foreignfn_v(*f);
    proof {
        crate::ast::lemma_fnparams_v(f.params@);
        lemma_args_analysis(ctx, fv.params);
    }
    if is_ctor_dtor_exec(tf, &f.name) {
        return FfnOut {
            skipped: true,
            decl: Option::None,
            need: Option::None,
            emission: Option::None,
        };
    }
    let ghost pav = args_analysis(ctx, fv.params);
    let n = f.params.len();
    let mut pa: Vec<ArgAnalysis> = Vec::new();
    let mut is_method = false;
    let mut any_conv = false;
    let mut i: usize = 0;
    while i < n
        invariant
            i <= n,
            pa@.len() == i,
            forall|j: int| 0 <= j < i ==> aa_v(pa@[j]) == pav[j],
            is_method == exists|j: int| 0 <= j < i && (#[trigger] pav[j]).was_self,
            any_conv == exists|j: int| 0 <= j < i && conv_work_needed((#[trigger] pav[j]).conv),
        decreases n - i,
    {
        let a = convert_fn_arg(cls, tds, &f.params[i]);
        proof {
            assert(aa_v(a) == pav[i as int]);
        }
        if a.was_self {
            is_method = true;
        }
        if conv_work_needed_exec(&a.conv) {
            any_conv = true;
        }
        pa.push(a);
        i = i + 1;
    }
    proof {
        assert(is_method == any_self(pav));
        assert(any_conv == any_param_conv(pav));
    }
    let rust_name = if is_method {
        strip_class_prefix_exec(tf, &f.name)
    } else {
        f.name.clone()
    };
    let ret_c = convert_return_type_exec(cls, tds, &f.ret);
    let ret_w = match &ret_c {
        Option::None => false,
        Option::Some(c) => conv_work_needed_exec(c),
    };
    let wrapper = any_conv || ret_w;
    let ghost retcv = ret_analysis(ctx, fv.ret);
    proof {
        assert(ret_w == ret_work(retcv));
    }
    // Build the declaration's parameter list, already unqualified.
    proof {
        lemma_plain_params(pav);
        lemma_wrapper_params(pav);
        lemma_convs_of(pav);
        lemma_unq_params(if wrapper {
            wrapper_params(pav)
        } else {
            plain_params(pav)
        });
    }
    let ghost params0v = if wrapper {
        wrapper_params(pav)
    } else {
        plain_params(pav)
    };
    let mut params1: Vec<FnParam> = Vec::new();
    let mut k: usize = 0;
    while k < n
        invariant
            k <= n,
            pa@.len() == n,
            params1@.len() == k,
            forall|j: int| 0 <= j < n ==> aa_v(pa@[j]) == pav[j],
            forall|j: int|
                0 <= j < k ==> fnparam_v(params1@[j]) == (FnParamV {
                    name: params0v[j].name,
                    ty: unqualify_ty(params0v[j].ty),
                }),
        decreases n - k,
    {
        let p1 = if wrapper {
            let nm = if pa[k].was_self {
                string_lit("gen_this")
            } else {
                pa[k].param.name.clone()
            };
            let bt = bridge_type_exec(&pa[k].conv);
            FnParam { name: nm, ty: unqualify_ty_exec(&bt) }
        } else {
            FnParam { name: pa[k].param.name.clone(), ty: unqualify_ty_exec(&pa[k].param.ty) }
        };
        params1.push(p1);
        k = k + 1;
    }
    proof {
        crate::ast::lemma_fnparams_v(params1@);
        assert(fnparams_v(params1@) =~= unq_params(params0v));
    }
    // The return type of the emitted declaration.
    let ret1: Option<Ty> = match &ret_c {
        Option::None => Option::None,
        Option::Some(c) => {
            let r0 = if wrapper {
                bridge_type_exec(c)
            } else {
                raw_type_exec(c)
            };
            Option::Some(unqualify_ty_exec(&r0))
        },
    };
    // The shim request, when any position needs conversion.
    let need: Option<ShimDetails> = if wrapper {
        let mut convs: Vec<ArgumentConversion> = Vec::new();
        let mut m: usize = 0;
        while m < n
            invariant
                m <= n,
                pa@.len() == n,
                convs@.len() == m,
                forall|j: int| 0 <= j < n ==> aa_v(pa@[j]) == pav[j],
                forall|j: int| 0 <= j < m ==> argconv_v(convs@[j]) == pav[j].conv,
            decreases n - m,
        {
            convs.push(clone_argconv(&pa[m].conv));
            m = m + 1;
        }
        proof {
            crate::emit::lemma_argconvs_v(convs@);
            assert(argconvs_v(convs@) =~= convs_of(pav));
        }
        Option::Some(
            ShimDetails {
                target: rust_name.clone(),
                return_conversion: ret_c,
                argument_conversion: convs,
                is_a_method: is_method,
            },
        )
    } else {
        Option::None
    };
    let name1 = if wrapper {
        let mut t = rust_name.clone();
        t.append("_up_wrapper");
        t
    } else {
        rust_name.clone()
    };
    let alias = if wrapper {
        Option::Some(rust_name.clone())
    } else {
        Option::None
    };
    let nsattr = if ns.is_empty() {
        Option::None
    } else {
        Option::Some(ns.clone())
    };
    let emission = if !is_method || wrapper {
        Option::Some(NamespaceEmission { ns: ns.clone(), id: rust_name })
    } else {
        Option::None
    };
    let r = FfnOut {
        skipped: false,
        decl: Option::Some(
            BridgeFnDecl { namespace: nsattr, alias, name: name1, params: params1, ret: ret1 },
        ),
        need,
        emission,
    };
    proof {
        assert(ffnout_v(r) == ffn_convert(ctx, ns@, tf.deep_view(), fv));
    }
    r
}


/// LAW: a function crossing an opaque type by value produces exactly one
/// value-crossing shim request, and the emitted declaration's externally
/// visible name equals the original (stripped) name, even though the
/// declared target name differs.
pub proof fn lemma_opaque_by_value_shim(
    ctx: CtxV,
    ns: Seq<Seq<char>>,
    tf: Seq<Seq<char>>,
    f: ForeignFnV,
)
    requires
        !is_ctor_dtor(tf, f.name),
        any_param_conv(args_analysis(ctx, f.params)) || ret_work(ret_analysis(ctx, f.ret)),
    ensures
        ({
            let o = ffn_convert(ctx, ns, tf, f);
            let rust_name = if any_self(args_analysis(ctx, f.params)) {
                strip_class_prefix(tf, f.name)
            } else {
                f.name
            };
            &&& o.need is Some
            &&& o.decl is Some
            &&& crate::emit::visible_name(o.decl->0) == rust_name
            &&& o.decl->0.name != rust_name
            &&& o.emission is Some
        }),
{
    let o = ffn_convert(ctx, ns, tf, f);
    let rust_name = if any_self(args_analysis(ctx, f.params)) {
        strip_class_prefix(tf, f.name)
    } else {
        f.name
    };
    reveal_strlit("_up_wrapper");
    assert((rust_name + "_up_wrapper"@).len() == rust_name.len() + 11);
    assert(o.decl->0.name != rust_name);
}

/// LAW: a declaration whose flat name matches a detected constructor or
/// destructor pattern is removed from the output entirely: no
/// declaration, no shim request, no emission.
pub proof fn lemma_ctor_dtor_removed(
    ctx: CtxV,
    ns: Seq<Seq<char>>,
    tf: Seq<Seq<char>>,
    f: ForeignFnV,
)
    requires
        is_ctor_dtor(tf, f.name),
    ensures
        ffn_convert(ctx, ns, tf, f).skipped,
        ffn_convert(ctx, ns, tf, f).decl is None,
        ffn_convert(ctx, ns, tf, f).need is None,
        ffn_convert(ctx, ns, tf, f).emission is None,
{
}

} // verus!
