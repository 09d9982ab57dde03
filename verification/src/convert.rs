//! The declaration rewriter: a namespace-recursive walk over the raw
//! declaration tree that emits bridge-ready declarations, records the
//! auxiliary native-code requests, and collects the namespace emissions.

use vstd::prelude::*;

use crate::ast::decl_v;
use crate::ast::decls_v;
use crate::ast::fdecl_v;
use crate::ast::fdecls_v;
use crate::ast::fnparams_v;
use crate::ast::lemma_decls_v;
use crate::ast::lemma_fdecls_v;
use crate::ast::lemma_methods_v;
use crate::ast::lemma_mparams_v;
use crate::ast::method_v;
use crate::ast::methods_v;
use crate::ast::mparam_v;
use crate::ast::mparams_v;
use crate::ast::type_to_typename;
use crate::ast::type_to_typename_spec;
use crate::ast::ty_v;
use crate::ast::Decl;
use crate::ast::DeclV;
use crate::ast::FnParam;
use crate::ast::FnParamV;
use crate::ast::ForeignDecl;
use crate::ast::ForeignDeclV;
use crate::ast::MethodDecl;
use crate::ast::MethodDeclV;
use crate::ast::MethodParam;
use crate::ast::MethodParamV;
use crate::ast::Ty;
use crate::ast::TyV;
use crate::classify::Classifier;
use crate::emit::bfn_v;
use crate::emit::bridgeitem_v;
use crate::emit::bridgeitems_v;
use crate::emit::emission_v;
use crate::emit::emissions_v;
use crate::emit::externc_v;
use crate::emit::externcs_v;
use crate::emit::handle_ty;
use crate::emit::lemma_bridgeitems_v;
use crate::emit::lemma_emissions_v;
use crate::emit::lemma_externcs_v;
use crate::emit::lemma_needs_v;
use crate::emit::lemma_outitems_v;
use crate::emit::need_v;
use crate::emit::needs_v;
use crate::emit::outitem_v;
use crate::emit::outitems_v;
use crate::emit::AllocMethod;
use crate::emit::AllocMethodV;
use crate::emit::AuxiliaryNeed;
use crate::emit::AuxiliaryNeedV;
use crate::emit::BridgeFnDecl;
use crate::emit::BridgeFnDeclV;
use crate::emit::BridgeItem;
use crate::emit::BridgeItemV;
use crate::emit::EmissionV;
use crate::emit::ExternCItem;
use crate::emit::ExternCItemV;
use crate::emit::NamespaceEmission;
use crate::emit::OutItem;
use crate::emit::OutItemV;
use crate::fnconv::convert_foreign_fn;
use crate::fnconv::ffn_convert;
use crate::reexport::render_tree_exec;
use crate::name::str_eq;
use crate::name::Namespace;
use crate::name::QnV;
use crate::name::QualifiedName;
use crate::tyconv::ctx_of;
use crate::tyconv::ctx_trivial;
use crate::tyconv::string_lit;
use crate::tyconv::CtxV;
use crate::tyconv::TypedefMap;
use vstd::string::StringExecFns;

verus! {

/// The errors a conversion run can report; each is terminal for the run.
#[derive(Debug)]
pub enum ConvertError {
    /// The top-level wrapper had no content to convert.
    NoContent,
    /// An explicitly requested trivial classification failed validation;
    /// the offending type's fully qualified native-style name is carried.
    UnsafePODType(String),
    /// A foreign block contained a declaration kind the engine does not
    /// understand.
    UnknownForeignItem,
}

// ---------------------------------------------------------------------------
// What one subtree contributes to each accumulator.
// ---------------------------------------------------------------------------
pub struct WalkOutV {
    /// Items of the rewritten declaration tree, at the current level.
    pub out: Seq<OutItemV>,
    /// Declarations of the foreign block.
    pub extern_c: Seq<ExternCItemV>,
    /// Items of the bridge module (handle markers).
    pub bridge: Seq<BridgeItemV>,
    /// Top-level items (passed-through constants, extern-type bindings).
    pub extra: Seq<OutItemV>,
    /// Auxiliary native-code requests.
    pub needs: Seq<AuxiliaryNeedV>,
    /// Namespace emissions.
    pub uses: Seq<EmissionV>,
    /// The types seen after this subtree.
    pub tf: Seq<Seq<char>>,
    /// Whether a foreign block held an unknown declaration kind.
    pub bad: bool,
}

pub open spec fn walk_empty(tf: Seq<Seq<char>>) -> WalkOutV {
    WalkOutV {
        out: Seq::empty(),
        extern_c: Seq::empty(),
        bridge: Seq::empty(),
        extra: Seq::empty(),
        needs: Seq::empty(),
        uses: Seq::empty(),
        tf,
        bad: false,
    }
}

pub open spec fn walk_combine(a: WalkOutV, b: WalkOutV) -> WalkOutV {
    WalkOutV {
        out: a.out + b.out,
        extern_c: a.extern_c + b.extern_c,
        bridge: a.bridge + b.bridge,
        extra: a.extra + b.extra,
        needs: a.needs + b.needs,
        uses: a.uses + b.uses,
        tf: b.tf,
        bad: a.bad || b.bad,
    }
}

/// What emitting one type alias contributes: the alias in the foreign
/// block, the handle marker, the extern-type binding, the emission, and
/// the name joining the types seen.
pub open spec fn alias_walk(
    ns: Seq<Seq<char>>,
    name: Seq<char>,
    trivial: bool,
    tf: Seq<Seq<char>>,
) -> WalkOutV {
    WalkOutV {
        out: Seq::empty(),
        extern_c: seq![ExternCItemV::TypeAlias { namespace: ns, name }],
        bridge: seq![BridgeItemV::HandleMarker { name }],
        extra: seq![OutItemV::ExternTypeBinding { name: QnV { ns, id: name }, trivial }],
        needs: Seq::empty(),
        uses: seq![EmissionV { ns, id: name }],
        tf: tf.push(name),
        bad: false,
    }
}

// ---------------------------------------------------------------------------
// Constructor blocks.
// ---------------------------------------------------------------------------
/// The typed parameters of a method, as plain function parameters.
pub open spec fn typed_fnparams(ms: Seq<MethodParamV>) -> Seq<FnParamV>
    decreases ms,
{
    if ms.len() == 0 {
        Seq::empty()
    } else {
        (match ms[0] {
            MethodParamV::Typed { name, ty } => seq![FnParamV { name, ty }],
            MethodParamV::Receiver => Seq::empty(),
        }) + typed_fnparams(ms.drop_first())
    }
}

/// The names of the constructor's argument types, where they are plain
/// named paths.
pub open spec fn ctor_arg_types(ms: Seq<MethodParamV>) -> Seq<QnV>
    decreases ms,
{
    if ms.len() == 0 {
        Seq::empty()
    } else {
        (match ms[0] {
            MethodParamV::Typed { name: _, ty } => match type_to_typename_spec(ty) {
                Option::Some(q) => seq![q],
                Option::None => Seq::empty(),
            },
            MethodParamV::Receiver => Seq::empty(),
        }) + ctor_arg_types(ms.drop_first())
    }
}

/// What rewriting one constructor-defining method contributes: one
/// allocation method whose body targets a synthesized factory and whose
/// return becomes a uniquely owned handle.
pub open spec fn walk_method_one(
    ns: Seq<Seq<char>>,
    tf: Seq<Seq<char>>,
    impl_self: TyV,
    ty: QnV,
    m: MethodDeclV,
) -> WalkOutV {
    if m.name == "new"@ && m.ret is Some {
        let call_name = ty.id + "_make_unique"@;
        WalkOutV {
            out: seq![
                OutItemV::AllocMethodImpl {
                    self_ty: impl_self,
                    method: AllocMethodV {
                        target: call_name,
                        params: m.params,
                        ret: handle_ty(m.ret->0),
                    },
                },
            ],
            extern_c: seq![
                ExternCItemV::Fn(
                    BridgeFnDeclV {
                        namespace: Option::None,
                        alias: Option::None,
                        name: call_name,
                        params: typed_fnparams(m.params),
                        ret: Option::Some(handle_ty(impl_self)),
                    },
                ),
            ],
            bridge: Seq::empty(),
            extra: Seq::empty(),
            needs: seq![AuxiliaryNeedV::AllocationFactory { ty, arg_types: ctor_arg_types(m.params) }],
            uses: seq![EmissionV { ns: ty.ns, id: call_name }],
            tf,
            bad: false,
        }
    } else {
        walk_empty(tf)
    }
}

pub open spec fn walk_methods(
    ns: Seq<Seq<char>>,
    tf: Seq<Seq<char>>,
    impl_self: TyV,
    ty: QnV,
    ms: Seq<MethodDeclV>,
) -> WalkOutV
    decreases ms,
{
    if ms.len() == 0 {
        walk_empty(tf)
    } else {
        walk_combine(
            walk_method_one(ns, tf, impl_self, ty, ms[0]),
            walk_methods(ns, tf, impl_self, ty, ms.drop_first()),
        )
    }
}

// ---------------------------------------------------------------------------
// Foreign blocks.
// ---------------------------------------------------------------------------
pub open spec fn walk_foreign_one(
    ctx: CtxV,
    ns: Seq<Seq<char>>,
    tf: Seq<Seq<char>>,
    fd: ForeignDeclV,
) -> WalkOutV {
    match fd {
        ForeignDeclV::Fn(f) => {
            let o = ffn_convert(ctx, ns, tf, f);
            WalkOutV {
                out: Seq::empty(),
                extern_c: match o.decl {
                    Option::Some(d) => seq![ExternCItemV::Fn(d)],
                    Option::None => Seq::empty(),
                },
                bridge: Seq::empty(),
                extra: Seq::empty(),
                needs: match o.need {
                    Option::Some(s) => seq![AuxiliaryNeedV::ValueCrossingShim(s)],
                    Option::None => Seq::empty(),
                },
                uses: match o.emission {
                    Option::Some(e) => seq![e],
                    Option::None => Seq::empty(),
                },
                tf,
                bad: false,
            }
        },
        ForeignDeclV::Other => WalkOutV {
            out: Seq::empty(),
            extern_c: Seq::empty(),
            bridge: Seq::empty(),
            extra: Seq::empty(),
            needs: Seq::empty(),
            uses: Seq::empty(),
            tf,
            bad: true,
        },
    }
}

pub open spec fn walk_foreign(
    ctx: CtxV,
    ns: Seq<Seq<char>>,
    tf: Seq<Seq<char>>,
    fs: Seq<ForeignDeclV>,
) -> WalkOutV
    decreases fs,
{
    if fs.len() == 0 {
        walk_empty(tf)
    } else {
        walk_combine(walk_foreign_one(ctx, ns, tf, fs[0]), walk_foreign(ctx, ns, tf, fs.drop_first()))
    }
}

/// A foreign block contributes no output-tree items and leaves the types
/// seen unchanged.
pub proof fn lemma_walk_foreign_out(
    ctx: CtxV,
    ns: Seq<Seq<char>>,
    tf: Seq<Seq<char>>,
    fs: Seq<ForeignDeclV>,
)
    ensures
        walk_foreign(ctx, ns, tf, fs).out == Seq::<OutItemV>::empty(),
        walk_foreign(ctx, ns, tf, fs).tf == tf,
    decreases fs,
{
    if fs.len() > 0 {
        lemma_walk_foreign_out(ctx, ns, tf, fs.drop_first());
        assert(walk_foreign(ctx, ns, tf, fs).out =~= Seq::<OutItemV>::empty());
    }
}

// ---------------------------------------------------------------------------
// The whole walk.
// ---------------------------------------------------------------------------
pub open spec fn walk_item(ctx: CtxV, ns: Seq<Seq<char>>, tf: Seq<Seq<char>>, d: DeclV) -> WalkOutV
    decreases d, 1int,
{
    match d {
        DeclV::Mod(m) => match m.content {
            Option::None => WalkOutV {
                out: seq![OutItemV::Mod { name: m.name, items: Seq::empty() }],
                extern_c: Seq::empty(),
                bridge: Seq::empty(),
                extra: Seq::empty(),
                needs: Seq::empty(),
                uses: Seq::empty(),
                tf,
                bad: false,
            },
            Option::Some(inner) => {
                let w = walk_items(ctx, ns.push(m.name), inner, tf);
                WalkOutV {
                    out: seq![OutItemV::Mod { name: m.name, items: w.out }],
                    extern_c: w.extern_c,
                    bridge: w.bridge,
                    extra: w.extra,
                    needs: w.needs,
                    uses: w.uses,
                    tf: w.tf,
                    bad: w.bad,
                }
            },
        },
        DeclV::ForeignMod(fs) => walk_foreign(ctx, ns, tf, fs),
        DeclV::Struct(s) => {
            let pod = ctx_trivial(ctx, QnV { ns, id: s.name });
            let a = alias_walk(ns, s.name, pod, tf);
            WalkOutV {
                out: seq![
                    OutItemV::Struct {
                        name: s.name,
                        fields: if pod {
                            s.fields
                        } else {
                            Seq::empty()
                        },
                        opaque_layout: !pod,
                    },
                ],
                extern_c: a.extern_c,
                bridge: a.bridge,
                extra: a.extra,
                needs: Seq::empty(),
                uses: a.uses,
                tf: a.tf,
                bad: false,
            }
        },
        DeclV::Enum(nm) => {
            let a = alias_walk(ns, nm, true, tf);
            WalkOutV {
                out: seq![OutItemV::Enum { name: nm }],
                extern_c: a.extern_c,
                bridge: a.bridge,
                extra: a.extra,
                needs: Seq::empty(),
                uses: a.uses,
                tf: a.tf,
                bad: false,
            }
        },
        DeclV::Typedef(t) => {
            if t.has_generic_params {
                walk_empty(tf)
            } else {
                WalkOutV {
                    out: seq![OutItemV::Typedef { name: t.name, target: t.target }],
                    extern_c: Seq::empty(),
                    bridge: Seq::empty(),
                    extra: Seq::empty(),
                    needs: Seq::empty(),
                    uses: Seq::empty(),
                    tf,
                    bad: false,
                }
            }
        },
        DeclV::Impl(b) => match type_to_typename_spec(b.self_ty) {
            Option::None => walk_empty(tf),
            Option::Some(ty) => walk_methods(ns, tf, b.self_ty, ty, b.methods),
        },
        DeclV::UseDecl => WalkOutV {
            out: seq![OutItemV::UseDecl],
            extern_c: Seq::empty(),
            bridge: Seq::empty(),
            extra: Seq::empty(),
            needs: Seq::empty(),
            uses: Seq::empty(),
            tf,
            bad: false,
        },
        DeclV::ConstDecl => WalkOutV {
            out: Seq::empty(),
            extern_c: Seq::empty(),
            bridge: Seq::empty(),
            extra: seq![OutItemV::ConstDecl],
            needs: Seq::empty(),
            uses: Seq::empty(),
            tf,
            bad: false,
        },
        DeclV::Other => walk_empty(tf),
    }
}

pub open spec fn walk_items(
    ctx: CtxV,
    ns: Seq<Seq<char>>,
    items: Seq<DeclV>,
    tf: Seq<Seq<char>>,
) -> WalkOutV
    decreases items, 0int,
{
    if items.len() == 0 {
        walk_empty(tf)
    } else {
        let w1 = walk_item(ctx, ns, tf, items[0]);
        walk_combine(w1, walk_items(ctx, ns, items.drop_first(), w1.tf))
    }
}


// ---------------------------------------------------------------------------
// The executable walk.
// ---------------------------------------------------------------------------
/// The accumulators of one conversion run, threaded through the whole
/// walk.
pub struct BridgeConversion {
    pub extern_c_items: Vec<ExternCItem>,
    pub bridge_items: Vec<BridgeItem>,
    pub extra_items: Vec<OutItem>,
    pub additional_cpp_needs: Vec<AuxiliaryNeed>,
    pub final_uses: Vec<NamespaceEmission>,
    pub types_found: Vec<String>,
}

pub fn clone_fields(v: &Vec<crate::ast::Field>) -> (r: Vec<crate::ast::Field>)
    ensures
        crate::ast::fields_v(r@) == crate::ast::fields_v(v@),
{
    proof {
        crate::ast::lemma_fields_v(v@);
    }
    let mut r: Vec<crate::ast::Field> = Vec::new();
    let n = v.len();
    let mut i: usize = 0;
    while i < n
        invariant
            i <= n,
            n == v.len(),
            r@.len() == i,
            forall|j: int|
                0 <= j < i ==> crate::ast::field_v(r@[j]) == crate::ast::field_v(v@[j]),
        decreases n - i,
    {
        r.push(crate::ast::Field { name: v[i].name.clone(), ty: crate::ast::clone_ty(&v[i].ty) });
        i = i + 1;
    }
    proof {
        crate::ast::lemma_fields_v(r@);
        assert(crate::ast::fields_v(r@) =~= crate::ast::fields_v(v@));
    }
    r
}

fn clone_mparams(v: &Vec<MethodParam>) -> (r: Vec<MethodParam>)
    ensures
        mparams_v(r@) == mparams_v(v@),
{
    proof {
        lemma_mparams_v(v@);
    }
    let mut r: Vec<MethodParam> = Vec::new();
    let n = v.len();
    let mut i: usize = 0;
    while i < n
        invariant
            i <= n,
            n == v.len(),
            r@.len() == i,
            forall|j: int| 0 <= j < i ==> mparam_v(r@[j]) == mparam_v(v@[j]),
        decreases n - i,
    {
        let p = match &v[i] {
            MethodParam::Receiver => MethodParam::Receiver,
            MethodParam::Typed { name, ty } => MethodParam::Typed {
                name: name.clone(),
                ty: crate::ast::clone_ty(ty),
            },
        };
        r.push(p);
        i = i + 1;
    }
    proof {
        lemma_mparams_v(r@);
        assert(mparams_v(r@) =~= mparams_v(v@));
    }
    r
}

fn typed_fnparams_exec(v: &Vec<MethodParam>, start: usize) -> (r: Vec<FnParam>)
    requires
        start <= v.len(),
    ensures
        fnparams_v(r@) == typed_fnparams(mparams_v(v@).skip(start as int)),
    decreases v.len() - start,
{
    proof {
        lemma_mparams_v(v@);
    }
    let ghost tail = mparams_v(v@).skip(start as int);
    if start == v.len() {
        let r: Vec<FnParam> = Vec::new();
        proof {
            assert(tail =~= Seq::<MethodParamV>::empty());
            assert(fnparams_v(r@) =~= typed_fnparams(tail));
        }
        return r;
    }
    proof {
        assert(tail[0] == mparam_v(v@[start as int]));
        assert(tail.drop_first() =~= mparams_v(v@).skip(start + 1 as int));
    }
    let mut rest = typed_fnparams_exec(v, start + 1);
    let ghost restv = rest@;
    match &v[start] {
        MethodParam::Typed { name, ty } => {
            let mut r: Vec<FnParam> = Vec::new();
            r.push(FnParam { name: name.clone(), ty: crate::ast::clone_ty(ty) });
            r.append(&mut rest);
            proof {
                crate::ast::lemma_fnparams_v(r@);
                crate::ast::lemma_fnparams_v(restv);
                assert(r@ == seq![r@[0]] + restv);
                assert(fnparams_v(r@) =~= typed_fnparams(tail));
            }
            r
        },
        MethodParam::Receiver => {
            proof {
                assert(fnparams_v(rest@) =~= typed_fnparams(tail));
            }
            rest
        },
    }
}

fn ctor_arg_types_exec(v: &Vec<MethodParam>, start: usize) -> (r: Vec<QualifiedName>)
    requires
        start <= v.len(),
    ensures
        crate::classify::qns_v(r@) == ctor_arg_types(mparams_v(v@).skip(start as int)),
    decreases v.len() - start,
{
    proof {
        lemma_mparams_v(v@);
    }
    let ghost tail = mparams_v(v@).skip(start as int);
    if start == v.len() {
        let r: Vec<QualifiedName> = Vec::new();
        proof {
            assert(tail =~= Seq::<MethodParamV>::empty());
            assert(crate::classify::qns_v(r@) =~= ctor_arg_types(tail));
        }
        return r;
    }
    proof {
        assert(tail[0] == mparam_v(v@[start as int]));
        assert(tail.drop_first() =~= mparams_v(v@).skip(start + 1 as int));
    }
    let mut rest = ctor_arg_types_exec(v, start + 1);
    let ghost restv = rest@;
    match &v[start] {
        MethodParam::Typed { name: _, ty } => match type_to_typename(ty) {
            Option::Some(q) => {
                let mut r: Vec<QualifiedName> = Vec::new();
                r.push(q);
                r.append(&mut rest);
                proof {
                    crate::classify::lemma_qns_v(r@);
                    crate::classify::lemma_qns_v(restv);
                    assert(r@ == seq![r@[0]] + restv);
                    assert(crate::classify::qns_v(r@) =~= ctor_arg_types(tail));
                }
                r
            },
            Option::None => {
                proof {
                    assert(crate::classify::qns_v(rest@) =~= ctor_arg_types(tail));
                }
                rest
            },
        },
        MethodParam::Receiver => {
            proof {
                assert(crate::classify::qns_v(rest@) =~= ctor_arg_types(tail));
            }
            rest
        },
    }
}

impl BridgeConversion {
    pub open spec fn ecv(self) -> Seq<ExternCItemV> {
        externcs_v(self.extern_c_items@)
    }

    pub open spec fn bv(self) -> Seq<BridgeItemV> {
        bridgeitems_v(self.bridge_items@)
    }

    pub open spec fn xv(self) -> Seq<OutItemV> {
        outitems_v(self.extra_items@)
    }

    pub open spec fn nv(self) -> Seq<AuxiliaryNeedV> {
        needs_v(self.additional_cpp_needs@)
    }

    pub open spec fn uv(self) -> Seq<EmissionV> {
        emissions_v(self.final_uses@)
    }

    pub open spec fn tfv(self) -> Seq<Seq<char>> {
        self.types_found.deep_view()
    }

    pub fn new() -> (r: Self)
        ensures
            r.ecv() == Seq::<ExternCItemV>::empty(),
            r.bv() == Seq::<BridgeItemV>::empty(),
            r.xv() == Seq::<OutItemV>::empty(),
            r.nv() == Seq::<AuxiliaryNeedV>::empty(),
            r.uv() == Seq::<EmissionV>::empty(),
            r.tfv() == Seq::<Seq<char>>::empty(),
    {
        let r = BridgeConversion {
            extern_c_items: Vec::new(),
            bridge_items: Vec::new(),
            extra_items: Vec::new(),
            additional_cpp_needs: Vec::new(),
            final_uses: Vec::new(),
            types_found: Vec::new(),
        };
        proof {
            assert(r.ecv() =~= Seq::<ExternCItemV>::empty());
            assert(r.bv() =~= Seq::<BridgeItemV>::empty());
            assert(r.xv() =~= Seq::<OutItemV>::empty());
            assert(r.nv() =~= Seq::<AuxiliaryNeedV>::empty());
            assert(r.uv() =~= Seq::<EmissionV>::empty());
            assert(r.tfv() =~= Seq::<Seq<char>>::empty());
        }
        r
    }

    fn push_extern_c(&mut self, it: ExternCItem)
        ensures
            final(self).ecv() == old(self).ecv().push(externc_v(it)),
            final(self).bridge_items == old(self).bridge_items,
            final(self).extra_items == old(self).extra_items,
            final(self).additional_cpp_needs == old(self).additional_cpp_needs,
            final(self).final_uses == old(self).final_uses,
            final(self).types_found == old(self).types_found,
    {
        proof {
            lemma_externcs_v(self.extern_c_items@);
            lemma_externcs_v(self.extern_c_items@.push(it));
        }
        self.extern_c_items.push(it);
        proof {
            assert(final(self).ecv() =~= old(self).ecv().push(externc_v(it)));
        }
    }

    fn push_bridge(&mut self, it: BridgeItem)
        ensures
            final(self).bv() == old(self).bv().push(bridgeitem_v(it)),
            final(self).extern_c_items == old(self).extern_c_items,
            final(self).extra_items == old(self).extra_items,
            final(self).additional_cpp_needs == old(self).additional_cpp_needs,
            final(self).final_uses == old(self).final_uses,
            final(self).types_found == old(self).types_found,
    {
        proof {
            lemma_bridgeitems_v(self.bridge_items@);
            lemma_bridgeitems_v(self.bridge_items@.push(it));
        }
        self.bridge_items.push(it);
        proof {
            assert(final(self).bv() =~= old(self).bv().push(bridgeitem_v(it)));
        }
    }

    fn push_extra(&mut self, it: OutItem)
        ensures
            final(self).xv() == old(self).xv().push(outitem_v(it)),
            final(self).extern_c_items == old(self).extern_c_items,
            final(self).bridge_items == old(self).bridge_items,
            final(self).additional_cpp_needs == old(self).additional_cpp_needs,
            final(self).final_uses == old(self).final_uses,
            final(self).types_found == old(self).types_found,
    {
        proof {
            lemma_outitems_v(self.extra_items@);
            lemma_outitems_v(self.extra_items@.push(it));
        }
        self.extra_items.push(it);
        proof {
            assert(final(self).xv() =~= old(self).xv().push(outitem_v(it)));
        }
    }

    fn push_need(&mut self, it: AuxiliaryNeed)
        ensures
            final(self).nv() == old(self).nv().push(need_v(it)),
            final(self).extern_c_items == old(self).extern_c_items,
            final(self).bridge_items == old(self).bridge_items,
            final(self).extra_items == old(self).extra_items,
            final(self).final_uses == old(self).final_uses,
            final(self).types_found == old(self).types_found,
    {
        proof {
            lemma_needs_v(self.additional_cpp_needs@);
            lemma_needs_v(self.additional_cpp_needs@.push(it));
        }
        self.additional_cpp_needs.push(it);
        proof {
            assert(final(self).nv() =~= old(self).nv().push(need_v(it)));
        }
    }

    fn push_use(&mut self, it: NamespaceEmission)
        ensures
            final(self).uv() == old(self).uv().push(emission_v(it)),
            final(self).extern_c_items == old(self).extern_c_items,
            final(self).bridge_items == old(self).bridge_items,
            final(self).extra_items == old(self).extra_items,
            final(self).additional_cpp_needs == old(self).additional_cpp_needs,
            final(self).types_found == old(self).types_found,
    {
        self.final_uses.push(it);
        proof {
            lemma_emissions_v(old(self).final_uses@);
            lemma_emissions_v(final(self).final_uses@);
            assert(final(self).uv() =~= old(self).uv().push(emission_v(it)));
        }
    }

    /// Emits the type-alias binding of one struct or enum: the alias in
    /// the foreign block, the handle marker, the extern-type binding,
    /// the surface emission; the name joins the types seen.
    fn generate_type_alias(&mut self, ns: &Namespace, name: String, trivial: bool)
        ensures
            ({
                let a = alias_walk(ns@, name@, trivial, old(self).tfv());
                &&& final(self).ecv() == old(self).ecv() + a.extern_c
                &&& final(self).bv() == old(self).bv() + a.bridge
                &&& final(self).xv() == old(self).xv() + a.extra
                &&& final(self).uv() == old(self).uv() + a.uses
                &&& final(self).nv() == old(self).nv()
                &&& final(self).tfv() == a.tf
            }),
    {
        let ghost a = alias_walk(ns@, name@, trivial, old(self).tfv());
        self.push_extern_c(
            ExternCItem::TypeAlias { namespace: ns.clone(), name: name.clone() },
        );
        self.push_bridge(BridgeItem::HandleMarker { name: name.clone() });
        self.push_extra(
            OutItem::ExternTypeBinding { name: QualifiedName::new(ns, name.clone()), trivial },
        );
        self.push_use(NamespaceEmission { ns: ns.clone(), id: name.clone() });
        self.types_found.push(name);
        proof {
            assert(final(self).ecv() =~= old(self).ecv() + a.extern_c);
            assert(final(self).bv() =~= old(self).bv() + a.bridge);
            assert(final(self).xv() =~= old(self).xv() + a.extra);
            assert(final(self).uv() =~= old(self).uv() + a.uses);
            assert(final(self).tfv() =~= a.tf);
        }
    }

    /// Rewrites one constructor-defining method into its allocation
    /// method, factory request and bridge declaration.
    fn convert_new_method(
        &mut self,
        ns: &Namespace,
        impl_self: &Ty,
        ty: &QualifiedName,
        m: &MethodDecl,
        out: &mut Vec<OutItem>,
    )
        ensures
            ({
                let w = walk_method_one(ns@, old(self).tfv(), ty_v(*impl_self), ty@, method_v(*m));
                &&& final(self).ecv() == old(self).ecv() + w.extern_c
                &&& final(self).bv() == old(self).bv() + w.bridge
                &&& final(self).xv() == old(self).xv() + w.extra
                &&& final(self).nv() == old(self).nv() + w.needs
                &&& final(self).uv() == old(self).uv() + w.uses
                &&& final(self).tfv() == w.tf
                &&& outitems_v(final(out)@) == outitems_v(old(out)@) + w.out
            }),
    {
        let ghost w = walk_method_one(ns@, old(self).tfv(), ty_v(*impl_self), ty@, method_v(*m));
        proof {
            lemma_outitems_v(out@);
        }
        if !(str_eq(m.name.as_str(), "new")) {
            proof {
                assert(final(self).ecv() =~= old(self).ecv() + w.extern_c);
                assert(final(self).bv() =~= old(self).bv() + w.bridge);
                assert(final(self).xv() =~= old(self).xv() + w.extra);
                assert(final(self).nv() =~= old(self).nv() + w.needs);
                assert(final(self).uv() =~= old(self).uv() + w.uses);
                assert(outitems_v(out@) =~= outitems_v(old(out)@) + w.out);
            }
            return ;
        }
        match &m.ret {
            Option::None => {
                proof {
                    assert(final(self).ecv() =~= old(self).ecv() + w.extern_c);
                    assert(final(self).bv() =~= old(self).bv() + w.bridge);
                    assert(final(self).xv() =~= old(self).xv() + w.extra);
                    assert(final(self).nv() =~= old(self).nv() + w.needs);
                    assert(final(self).uv() =~= old(self).uv() + w.uses);
                    assert(outitems_v(out@) =~= outitems_v(old(out)@) + w.out);
                }
            },
            Option::Some(rt) => {
                let mut call_name = ty.get_final_ident().clone();
                call_name.append("_make_unique");
                proof {
                    assert(call_name@ == ty@.id + "_make_unique"@);
                }
                let arg_types = ctor_arg_types_exec(&m.params, 0);
                proof {
                    assert(mparams_v(m.params@).skip(0) =~= mparams_v(m.params@));
                }
                self.push_need(
                    AuxiliaryNeed::AllocationFactory { ty: ty.clone(), arg_types },
                );
                self.push_use(
                    NamespaceEmission { ns: ty.get_namespace().clone(), id: call_name.clone() },
                );
                let params = typed_fnparams_exec(&m.params, 0);
                self.push_extern_c(
                    ExternCItem::Fn(
                        BridgeFnDecl {
                            namespace: Option::None,
                            alias: Option::None,
                            name: call_name.clone(),
                            params,
                            ret: Option::Some(crate::fnconv::handle_ty_exec(impl_self)),
                        },
                    ),
                );
                out.push(
                    OutItem::AllocMethodImpl {
                        self_ty: crate::ast::clone_ty(impl_self),
                        method: AllocMethod {
                            target: call_name,
                            params: clone_mparams(&m.params),
                            ret: crate::fnconv::handle_ty_exec(rt),
                        },
                    },
                );
                proof {
                    lemma_outitems_v(final(out)@);
                    assert(final(self).ecv() =~= old(self).ecv() + w.extern_c);
                    assert(final(self).bv() =~= old(self).bv() + w.bridge);
                    assert(final(self).xv() =~= old(self).xv() + w.extra);
                    assert(final(self).nv() =~= old(self).nv() + w.needs);
                    assert(final(self).uv() =~= old(self).uv() + w.uses);
                    assert(outitems_v(final(out)@) =~= outitems_v(old(out)@) + w.out);
                }
            },
        }
    }

    fn convert_impl_methods(
        &mut self,
        ns: &Namespace,
        impl_self: &Ty,
        ty: &QualifiedName,
        ms: &Vec<MethodDecl>,
        start: usize,
        out: &mut Vec<OutItem>,
    )
        requires
            start <= ms.len(),
        ensures
            ({
                let w = walk_methods(
                    ns@,
                    old(self).tfv(),
                    ty_v(*impl_self),
                    ty@,
                    methods_v(ms@).skip(start as int),
                );
                &&& final(self).ecv() == old(self).ecv() + w.extern_c
                &&& final(self).bv() == old(self).bv() + w.bridge
                &&& final(self).xv() == old(self).xv() + w.extra
                &&& final(self).nv() == old(self).nv() + w.needs
                &&& final(self).uv() == old(self).uv() + w.uses
                &&& final(self).tfv() == w.tf
                &&& outitems_v(final(out)@) == outitems_v(old(out)@) + w.out
                &&& !w.bad
            }),
        decreases ms.len() - start,
    {
        proof {
            lemma_methods_v(ms@);
            lemma_outitems_v(out@);
        }
        let ghost tail = methods_v(ms@).skip(start as int);
        let ghost w = walk_methods(ns@, old(self).tfv(), ty_v(*impl_self), ty@, tail);
        if start == ms.len() {
            proof {
                assert(tail =~= Seq::<MethodDeclV>::empty());
                assert(final(self).ecv() =~= old(self).ecv() + w.extern_c);
                assert(final(self).bv() =~= old(self).bv() + w.bridge);
                assert(final(self).xv() =~= old(self).xv() + w.extra);
                assert(final(self).nv() =~= old(self).nv() + w.needs);
                assert(final(self).uv() =~= old(self).uv() + w.uses);
                assert(outitems_v(out@) =~= outitems_v(old(out)@) + w.out);
            }
            return ;
        }
        proof {
            assert(tail[0] == method_v(ms@[start as int]));
            assert(tail.drop_first() =~= methods_v(ms@).skip(start + 1 as int));
        }
        let ghost w1 = walk_method_one(ns@, old(self).tfv(), ty_v(*impl_self), ty@, tail[0]);
        self.convert_new_method(ns, impl_self, ty, &ms[start], out);
        proof {
            assert(w1.tf == old(self).tfv());
        }
        let ghost mid_e = self.ecv();
        let ghost mid_out = outitems_v(out@);
        self.convert_impl_methods(ns, impl_self, ty, ms, start + 1, out);
        proof {
            let w2 = walk_methods(ns@, w1.tf, ty_v(*impl_self), ty@, tail.drop_first());
            assert(w == walk_combine(w1, w2));
            assert(final(self).ecv() =~= old(self).ecv() + w.extern_c);
            assert(final(self).bv() =~= old(self).bv() + w.bridge);
            assert(final(self).xv() =~= old(self).xv() + w.extra);
            assert(final(self).nv() =~= old(self).nv() + w.needs);
            assert(final(self).uv() =~= old(self).uv() + w.uses);
            assert(outitems_v(final(out)@) =~= outitems_v(old(out)@) + w.out);
        }
    }

    fn convert_foreign_mod_items(
        &mut self,
        cls: &Classifier,
        tds: &TypedefMap,
        ns: &Namespace,
        fs: &Vec<ForeignDecl>,
        start: usize,
    ) -> (r: Result<(), ConvertError>)
        requires
            cls.resolved_ok(),
            start <= fs.len(),
        ensures
            ({
                let w = walk_foreign(
                    ctx_of(*cls, *tds),
                    ns@,
                    old(self).tfv(),
                    fdecls_v(fs@).skip(start as int),
                );
                match r {
                    Result::Ok(()) => {
                        &&& !w.bad
                        &&& final(self).ecv() == old(self).ecv() + w.extern_c
                        &&& final(self).bv() == old(self).bv() + w.bridge
                        &&& final(self).xv() == old(self).xv() + w.extra
                        &&& final(self).nv() == old(self).nv() + w.needs
                        &&& final(self).uv() == old(self).uv() + w.uses
                        &&& final(self).tfv() == w.tf
                    },
                    Result::Err(e) => w.bad && e is UnknownForeignItem,
                }
            }),
        decreases fs.len() - start,
    {
        proof {
            lemma_fdecls_v(fs@);
        }
        let ghost ctx = ctx_of(*cls, *tds);
        let ghost tail = fdecls_v(fs@).skip(start as int);
        let ghost w = walk_foreign(ctx, ns@, old(self).tfv(), tail);
        if start == fs.len() {
            proof {
                assert(tail =~= Seq::<ForeignDeclV>::empty());
                assert(final(self).ecv() =~= old(self).ecv() + w.extern_c);
                assert(final(self).bv() =~= old(self).bv() + w.bridge);
                assert(final(self).xv() =~= old(self).xv() + w.extra);
                assert(final(self).nv() =~= old(self).nv() + w.needs);
                assert(final(self).uv() =~= old(self).uv() + w.uses);
            }
            return Result::Ok(());
        }
        proof {
            assert(tail[0] == fdecl_v(fs@[start as int]));
            assert(tail.drop_first() =~= fdecls_v(fs@).skip(start + 1 as int));
        }
        let ghost w1 = walk_foreign_one(ctx, ns@, old(self).tfv(), tail[0]);
        match &fs[start] {
            ForeignDecl::Other => {
                return Result::Err(ConvertError::UnknownForeignItem);
            },
            ForeignDecl::Fn(f) => {
                let o = convert_foreign_fn(cls, tds, &self.types_found, ns, f);
                match o.decl {
                    Option::Some(d) => {
                        self.push_extern_c(ExternCItem::Fn(d));
                    },
                    Option::None => {
                    },
                }
                match o.need {
                    Option::Some(sd) => {
                        self.push_need(AuxiliaryNeed::ValueCrossingShim(sd));
                    },
                    Option::None => {
                    },
                }
                match o.emission {
                    Option::Some(e) => {
                        self.push_use(e);
                    },
                    Option::None => {
                    },
                }
                proof {
                    assert(self.tfv() == old(self).tfv());
                    assert(self.ecv() =~= old(self).ecv() + w1.extern_c);
                    assert(self.bv() =~= old(self).bv() + w1.bridge);
                    assert(self.xv() =~= old(self).xv() + w1.extra);
                    assert(self.nv() =~= old(self).nv() + w1.needs);
                    assert(self.uv() =~= old(self).uv() + w1.uses);
                }
            },
        }
        let res = self.convert_foreign_mod_items(cls, tds, ns, fs, start + 1);
        proof {
            let w2 = walk_foreign(ctx, ns@, w1.tf, tail.drop_first());
            assert(w == walk_combine(w1, w2));
        }
        match res {
            Result::Err(e) => Result::Err(e),
            Result::Ok(()) => {
                proof {
                    let w2 = walk_foreign(ctx, ns@, w1.tf, tail.drop_first());
                    assert(final(self).ecv() =~= old(self).ecv() + w.extern_c);
                    assert(final(self).bv() =~= old(self).bv() + w.bridge);
                    assert(final(self).xv() =~= old(self).xv() + w.extra);
                    assert(final(self).nv() =~= old(self).nv() + w.needs);
                    assert(final(self).uv() =~= old(self).uv() + w.uses);
                }
                Result::Ok(())
            },
        }
    }

    /// Converts one declaration.
    fn convert_one(
        &mut self,
        cls: &Classifier,
        tds: &TypedefMap,
        ns: &Namespace,
        d: &Decl,
        out: &mut Vec<OutItem>,
    ) -> (r: Result<(), ConvertError>)
        requires
            cls.resolved_ok(),
        ensures
            ({
                let w = walk_item(ctx_of(*cls, *tds), ns@, old(self).tfv(), decl_v(*d));
                match r {
                    Result::Ok(()) => {
                        &&& !w.bad
                        &&& final(self).ecv() == old(self).ecv() + w.extern_c
                        &&& final(self).bv() == old(self).bv() + w.bridge
                        &&& final(self).xv() == old(self).xv() + w.extra
                        &&& final(self).nv() == old(self).nv() + w.needs
                        &&& final(self).uv() == old(self).uv() + w.uses
                        &&& final(self).tfv() == w.tf
                        &&& outitems_v(final(out)@) == outitems_v(old(out)@) + w.out
                    },
                    Result::Err(e) => w.bad && e is UnknownForeignItem,
                }
            }),
        decreases *d, 1int, 0int,
    {
        proof {
            lemma_outitems_v(out@);
        }
        let ghost ctx = ctx_of(*cls, *tds);
        let ghost dv = decl_v(*d);
        let ghost w = walk_item(ctx, ns@, old(self).tfv(), dv);
        match d {
            Decl::Mod(m) => {
                match &m.content {
                    Option::None => {
                        let empty_items: Vec<OutItem> = Vec::new();
                        let ghost emptyv = empty_items@;
                        out.push(OutItem::Mod { name: m.name.clone(), items: empty_items });
                        proof {
                            lemma_outitems_v(final(out)@);
                            lemma_outitems_v(emptyv);
                            assert(outitems_v(emptyv) =~= Seq::<OutItemV>::empty());
                            assert(outitems_v(final(out)@) =~= outitems_v(old(out)@) + w.out);
                            assert(final(self).ecv() =~= old(self).ecv() + w.extern_c);
                            assert(final(self).bv() =~= old(self).bv() + w.bridge);
                            assert(final(self).xv() =~= old(self).xv() + w.extra);
                            assert(final(self).nv() =~= old(self).nv() + w.needs);
                            assert(final(self).uv() =~= old(self).uv() + w.uses);
                        }
                        Result::Ok(())
                    },
                    Option::Some(inner) => {
                        let new_ns = ns.push(m.name.clone());
                        let mut sub: Vec<OutItem> = Vec::new();
                        let res = self.convert_mod_items(cls, tds, &new_ns, inner, 0, &mut sub);
                        proof {
                            assert(decls_v(inner@).skip(0) =~= decls_v(inner@));
                        }
                        match res {
                            Result::Err(e) => Result::Err(e),
                            Result::Ok(()) => {
                                let ghost subv = sub@;
                                out.push(OutItem::Mod { name: m.name.clone(), items: sub });
                                proof {
                                    lemma_outitems_v(final(out)@);
                                    lemma_outitems_v(subv);
                                    assert(outitems_v(subv) =~= Seq::<OutItemV>::empty()
                                        + outitems_v(subv));
                                    assert(outitems_v(final(out)@) =~= outitems_v(old(out)@)
                                        + w.out);
                                    assert(final(self).ecv() =~= old(self).ecv() + w.extern_c);
                                    assert(final(self).bv() =~= old(self).bv() + w.bridge);
                                    assert(final(self).xv() =~= old(self).xv() + w.extra);
                                    assert(final(self).nv() =~= old(self).nv() + w.needs);
                                    assert(final(self).uv() =~= old(self).uv() + w.uses);
                                }
                                Result::Ok(())
                            },
                        }
                    },
                }
            },
            Decl::ForeignMod(fs) => {
                let res = self.convert_foreign_mod_items(cls, tds, ns, fs, 0);
                proof {
                    assert(fdecls_v(fs@).skip(0) =~= fdecls_v(fs@));
                    lemma_walk_foreign_out(ctx, ns@, old(self).tfv(), fdecls_v(fs@));
                    assert(outitems_v(out@) =~= outitems_v(old(out)@) + w.out);
                }
                res
            },
            Decl::Struct(s) => {
                let q = QualifiedName::new(ns, s.name.clone());
                let pod = cls.is_pod(&q);
                self.generate_type_alias(ns, s.name.clone(), pod);
                let fields = if pod {
                    clone_fields(&s.fields)
                } else {
                    Vec::new()
                };
                let ghost fieldsv = crate::ast::fields_v(fields@);
                out.push(OutItem::Struct { name: s.name.clone(), fields, opaque_layout: !pod });
                proof {
                    lemma_outitems_v(final(out)@);
                    if !pod {
                        assert(fieldsv =~= Seq::<crate::ast::FieldV>::empty());
                    }
                    assert(outitems_v(final(out)@) =~= outitems_v(old(out)@) + w.out);
                    assert(final(self).ecv() =~= old(self).ecv() + w.extern_c);
                    assert(final(self).bv() =~= old(self).bv() + w.bridge);
                    assert(final(self).xv() =~= old(self).xv() + w.extra);
                    assert(final(self).nv() =~= old(self).nv() + w.needs);
                    assert(final(self).uv() =~= old(self).uv() + w.uses);
                }
                Result::Ok(())
            },
            Decl::Enum(e) => {
                self.generate_type_alias(ns, e.name.clone(), true);
                out.push(OutItem::Enum { name: e.name.clone() });
                proof {
                    lemma_outitems_v(final(out)@);
                    assert(outitems_v(final(out)@) =~= outitems_v(old(out)@) + w.out);
                    assert(final(self).ecv() =~= old(self).ecv() + w.extern_c);
                    assert(final(self).bv() =~= old(self).bv() + w.bridge);
                    assert(final(self).xv() =~= old(self).xv() + w.extra);
                    assert(final(self).nv() =~= old(self).nv() + w.needs);
                    assert(final(self).uv() =~= old(self).uv() + w.uses);
                }
                Result::Ok(())
            },
            Decl::Typedef(t) => {
                if !t.has_generic_params {
                    out.push(
                        OutItem::Typedef {
                            name: t.name.clone(),
                            target: crate::ast::clone_ty(&t.target),
                        },
                    );
                    proof {
                        lemma_outitems_v(final(out)@);
                        assert(outitems_v(final(out)@) =~= outitems_v(old(out)@) + w.out);
                    }
                }
                proof {
                    assert(final(self).ecv() =~= old(self).ecv() + w.extern_c);
                    assert(final(self).bv() =~= old(self).bv() + w.bridge);
                    assert(final(self).xv() =~= old(self).xv() + w.extra);
                    assert(final(self).nv() =~= old(self).nv() + w.needs);
                    assert(final(self).uv() =~= old(self).uv() + w.uses);
                    assert(outitems_v(final(out)@) =~= outitems_v(old(out)@) + w.out);
                }
                Result::Ok(())
            },
            Decl::Impl(b) => {
                match type_to_typename(&b.self_ty) {
                    Option::Some(ty) => {
                        let res: Result<(), ConvertError> = Result::Ok(());
                        self.convert_impl_methods(ns, &b.self_ty, &ty, &b.methods, 0, out);
                        proof {
                            assert(methods_v(b.methods@).skip(0) =~= methods_v(b.methods@));
                        }
                        res
                    },
                    Option::None => {
                        proof {
                            assert(final(self).ecv() =~= old(self).ecv() + w.extern_c);
                            assert(final(self).bv() =~= old(self).bv() + w.bridge);
                            assert(final(self).xv() =~= old(self).xv() + w.extra);
                            assert(final(self).nv() =~= old(self).nv() + w.needs);
                            assert(final(self).uv() =~= old(self).uv() + w.uses);
                            assert(outitems_v(out@) =~= outitems_v(old(out)@) + w.out);
                        }
                        Result::Ok(())
                    },
                }
            },
            Decl::UseDecl => {
                out.push(OutItem::UseDecl);
                proof {
                    lemma_outitems_v(final(out)@);
                    assert(outitems_v(final(out)@) =~= outitems_v(old(out)@) + w.out);
                    assert(final(self).ecv() =~= old(self).ecv() + w.extern_c);
                    assert(final(self).bv() =~= old(self).bv() + w.bridge);
                    assert(final(self).xv() =~= old(self).xv() + w.extra);
                    assert(final(self).nv() =~= old(self).nv() + w.needs);
                    assert(final(self).uv() =~= old(self).uv() + w.uses);
                }
                Result::Ok(())
            },
            Decl::ConstDecl => {
                self.push_extra(OutItem::ConstDecl);
                proof {
                    assert(outitems_v(out@) =~= outitems_v(old(out)@) + w.out);
                    assert(final(self).ecv() =~= old(self).ecv() + w.extern_c);
                    assert(final(self).bv() =~= old(self).bv() + w.bridge);
                    assert(final(self).xv() =~= old(self).xv() + w.extra);
                    assert(final(self).nv() =~= old(self).nv() + w.needs);
                    assert(final(self).uv() =~= old(self).uv() + w.uses);
                }
                Result::Ok(())
            },
            Decl::Other => {
                proof {
                    assert(outitems_v(out@) =~= outitems_v(old(out)@) + w.out);
                    assert(final(self).ecv() =~= old(self).ecv() + w.extern_c);
                    assert(final(self).bv() =~= old(self).bv() + w.bridge);
                    assert(final(self).xv() =~= old(self).xv() + w.extra);
                    assert(final(self).nv() =~= old(self).nv() + w.needs);
                    assert(final(self).uv() =~= old(self).uv() + w.uses);
                }
                Result::Ok(())
            },
        }
    }

    /// Converts the declarations of one module level, from `start` on.
    pub fn convert_mod_items(
        &mut self,
        cls: &Classifier,
        tds: &TypedefMap,
        ns: &Namespace,
        items: &Vec<Decl>,
        start: usize,
        out: &mut Vec<OutItem>,
    ) -> (r: Result<(), ConvertError>)
        requires
            cls.resolved_ok(),
            start <= items.len(),
        ensures
            ({
                let w = walk_items(
                    ctx_of(*cls, *tds),
                    ns@,
                    decls_v(items@).skip(start as int),
                    old(self).tfv(),
                );
                match r {
                    Result::Ok(()) => {
                        &&& !w.bad
                        &&& final(self).ecv() == old(self).ecv() + w.extern_c
                        &&& final(self).bv() == old(self).bv() + w.bridge
                        &&& final(self).xv() == old(self).xv() + w.extra
                        &&& final(self).nv() == old(self).nv() + w.needs
                        &&& final(self).uv() == old(self).uv() + w.uses
                        &&& final(self).tfv() == w.tf
                        &&& outitems_v(final(out)@) == outitems_v(old(out)@) + w.out
                    },
                    Result::Err(e) => w.bad && e is UnknownForeignItem,
                }
            }),
        decreases items@, 0int, items.len() - start,
    {
        proof {
            lemma_decls_v(items@);
            lemma_outitems_v(out@);
        }
        let ghost ctx = ctx_of(*cls, *tds);
        let ghost tail = decls_v(items@).skip(start as int);
        let ghost w = walk_items(ctx, ns@, tail, old(self).tfv());
        if start == items.len() {
            proof {
                assert(tail =~= Seq::<DeclV>::empty());
                assert(final(self).ecv() =~= old(self).ecv() + w.extern_c);
                assert(final(self).bv() =~= old(self).bv() + w.bridge);
                assert(final(self).xv() =~= old(self).xv() + w.extra);
                assert(final(self).nv() =~= old(self).nv() + w.needs);
                assert(final(self).uv() =~= old(self).uv() + w.uses);
                assert(outitems_v(out@) =~= outitems_v(old(out)@) + w.out);
            }
            return Result::Ok(());
        }
        proof {
            assert(tail[0] == decl_v(items@[start as int]));
            assert(tail.drop_first() =~= decls_v(items@).skip(start + 1 as int));
        }
        let ghost w1 = walk_item(ctx, ns@, old(self).tfv(), tail[0]);
        let res1 = self.convert_one(cls, tds, ns, &items[start], out);
        match res1 {
            Result::Err(e) => {
                proof {
                    let w2 = walk_items(ctx, ns@, tail.drop_first(), w1.tf);
                    assert(w == walk_combine(w1, w2));
                }
                Result::Err(e)
            },
            Result::Ok(()) => {
                let res2 = self.convert_mod_items(cls, tds, ns, items, start + 1, out);
                proof {
                    let w2 = walk_items(ctx, ns@, tail.drop_first(), w1.tf);
                    assert(w == walk_combine(w1, w2));
                }
                match res2 {
                    Result::Err(e) => Result::Err(e),
                    Result::Ok(()) => {
                        proof {
                            assert(final(self).ecv() =~= old(self).ecv() + w.extern_c);
                            assert(final(self).bv() =~= old(self).bv() + w.bridge);
                            assert(final(self).xv() =~= old(self).xv() + w.extra);
                            assert(final(self).nv() =~= old(self).nv() + w.needs);
                            assert(final(self).uv() =~= old(self).uv() + w.uses);
                            assert(outitems_v(final(out)@) =~= outitems_v(old(out)@) + w.out);
                        }
                        Result::Ok(())
                    },
                }
            },
        }
    }
}


// ---------------------------------------------------------------------------
// The classification pre-pass.
// ---------------------------------------------------------------------------
/// The analysis of one typedef's target.
pub open spec fn analyze_typedef_spec(t: TyV) -> crate::tyconv::TypedefTargetV {
    match t {
        TyV::Path(p) => if p.segments.len() == 0 {
            crate::tyconv::TypedefTargetV::Complex
        } else if p.segments.last().args.len() == 0 {
            crate::tyconv::TypedefTargetV::AliasTo(crate::ast::qn_from_raw_path(p))
        } else {
            crate::tyconv::TypedefTargetV::HasArguments
        },
        _ => crate::tyconv::TypedefTargetV::Complex,
    }
}

/// One struct field's classification dependency: the field type's name,
/// or none for an indirection-bearing or unrecognized shape.
pub open spec fn field_dep(f: crate::ast::FieldV) -> Option<QnV> {
    match f.ty {
        TyV::Path(p) => if p.segments.len() > 0 {
            Option::Some(crate::ast::qn_from_raw_path(p))
        } else {
            Option::None
        },
        _ => Option::None,
    }
}

pub open spec fn field_deps(fs: Seq<crate::ast::FieldV>) -> Seq<Option<QnV>>
    decreases fs,
{
    if fs.len() == 0 {
        Seq::empty()
    } else {
        seq![field_dep(fs[0])] + field_deps(fs.drop_first())
    }
}

pub broadcast proof fn lemma_field_deps(fs: Seq<crate::ast::FieldV>)
    ensures
        (#[trigger] field_deps(fs)).len() == fs.len(),
        forall|i: int| 0 <= i < fs.len() ==> field_deps(fs)[i] == field_dep(fs[i]),
    decreases fs,
{
    if fs.len() > 0 {
        lemma_field_deps(fs.drop_first());
    }
}

/// The classification entries one declaration records.
pub open spec fn collect_item_entries(ns: Seq<Seq<char>>, d: DeclV) -> Seq<
    (QnV, crate::classify::TypeEntryV),
>
    decreases d, 1int,
{
    match d {
        DeclV::Struct(s) => seq![
            (
                QnV { ns, id: s.name },
                crate::classify::TypeEntryV::Fields { deps: field_deps(s.fields) },
            ),
        ],
        DeclV::Enum(nm) => seq![
            (QnV { ns, id: nm }, crate::classify::TypeEntryV::Leaf { trivial: true }),
        ],
        DeclV::Typedef(t) => if t.has_generic_params {
            Seq::empty()
        } else {
            match analyze_typedef_spec(t.target) {
                crate::tyconv::TypedefTargetV::AliasTo(tn) => seq![
                    (QnV { ns, id: t.name }, crate::classify::TypeEntryV::Alias { target: tn }),
                ],
                _ => seq![
                    (
                        QnV { ns, id: t.name },
                        crate::classify::TypeEntryV::Leaf { trivial: false },
                    ),
                ],
            }
        },
        DeclV::Mod(m) => match m.content {
            Option::Some(inner) => collect_entries(ns.push(m.name), inner),
            Option::None => Seq::empty(),
        },
        _ => Seq::empty(),
    }
}

pub open spec fn collect_entries(ns: Seq<Seq<char>>, items: Seq<DeclV>) -> Seq<
    (QnV, crate::classify::TypeEntryV),
>
    decreases items, 0int,
{
    if items.len() == 0 {
        Seq::empty()
    } else {
        collect_item_entries(ns, items[0]) + collect_entries(ns, items.drop_first())
    }
}

/// The typedef targets one declaration records.
pub open spec fn collect_item_tds(ns: Seq<Seq<char>>, d: DeclV) -> Seq<
    (QnV, crate::tyconv::TypedefTargetV),
>
    decreases d, 1int,
{
    match d {
        DeclV::Typedef(t) => if t.has_generic_params {
            Seq::empty()
        } else {
            seq![(QnV { ns, id: t.name }, analyze_typedef_spec(t.target))]
        },
        DeclV::Mod(m) => match m.content {
            Option::Some(inner) => collect_tds(ns.push(m.name), inner),
            Option::None => Seq::empty(),
        },
        _ => Seq::empty(),
    }
}

pub open spec fn collect_tds(ns: Seq<Seq<char>>, items: Seq<DeclV>) -> Seq<
    (QnV, crate::tyconv::TypedefTargetV),
>
    decreases items, 0int,
{
    if items.len() == 0 {
        Seq::empty()
    } else {
        collect_item_tds(ns, items[0]) + collect_tds(ns, items.drop_first())
    }
}

/// One built-in known-trivial entry in the root namespace.
pub open spec fn bentry(id: Seq<char>) -> (QnV, crate::classify::TypeEntryV) {
    (
        QnV { ns: Seq::empty(), id },
        crate::classify::TypeEntryV::Leaf { trivial: true },
    )
}

/// The built-in known-trivial names: the plain integer and boolean
/// spellings the raw generator emits for primitive fields.
pub open spec fn builtin_entries() -> Seq<(QnV, crate::classify::TypeEntryV)> {
    seq![
        bentry("bool"@),
        bentry("u8"@),
        bentry("u16"@),
        bentry("u32"@),
        bentry("u64"@),
        bentry("usize"@),
        bentry("i8"@),
        bentry("i16"@),
        bentry("i32"@),
        bentry("i64"@),
        bentry("isize"@),
    ]
}

fn ingest_builtin(c: &mut Classifier, name: &str)
    ensures
        final(c).entries_view() == old(c).entries_view().push(bentry(name@)),
        !final(c).done,
{
    c.ingest_pod_type(QualifiedName::new_root(string_lit(name)));
}

/// Records the built-in known-trivial names.
fn ingest_builtins(c: &mut Classifier)
    ensures
        final(c).entries_view() == old(c).entries_view() + builtin_entries(),
        !final(c).done,
{
    ingest_builtin(c, "bool");
    ingest_builtin(c, "u8");
    ingest_builtin(c, "u16");
    ingest_builtin(c, "u32");
    ingest_builtin(c, "u64");
    ingest_builtin(c, "usize");
    ingest_builtin(c, "i8");
    ingest_builtin(c, "i16");
    ingest_builtin(c, "i32");
    ingest_builtin(c, "i64");
    ingest_builtin(c, "isize");
    proof {
        assert(final(c).entries_view() =~= old(c).entries_view() + builtin_entries());
    }
}

fn analyze_typedef_exec(t: &Ty) -> (r: crate::tyconv::TypedefTarget)
    ensures
        crate::tyconv::td_v(r) == analyze_typedef_spec(ty_v(*t)),
{
    match t {
        Ty::Path(p) => {
            proof {
                crate::ast::lemma_tysegs_v(p.segments@);
                assert(ty_v(*t) == TyV::Path(crate::ast::typath_v(*p)));
            }
            let n = p.segments.len();
            if n == 0 {
                proof {
                    assert(analyze_typedef_spec(ty_v(*t))
                        == crate::tyconv::TypedefTargetV::Complex);
                }
                crate::tyconv::TypedefTarget::Complex
            } else {
                proof {
                    crate::ast::lemma_tys_v(p.segments@[n - 1 as int].args@);
                    assert(crate::ast::typath_v(*p).segments.last() == crate::ast::tyseg_v(
                        p.segments@[n - 1 as int],
                    ));
                }
                if p.segments[n - 1].args.len() == 0 {
                    let q = crate::ast::qn_from_raw_path_exec(p);
                    proof {
                        assert(analyze_typedef_spec(ty_v(*t))
                            == crate::tyconv::TypedefTargetV::AliasTo(q@));
                    }
                    crate::tyconv::TypedefTarget::AliasTo(q)
                } else {
                    proof {
                        assert(analyze_typedef_spec(ty_v(*t))
                            == crate::tyconv::TypedefTargetV::HasArguments);
                    }
                    crate::tyconv::TypedefTarget::HasArguments
                }
            }
        },
        _ => crate::tyconv::TypedefTarget::Complex,
    }
}

/// The classification pre-pass: recursively records each struct's field
/// dependencies, each enum as trivial, and each typedef's analyzed
/// target, supporting forward references.
#[verifier::loop_isolation(false)]
pub fn find_nested_pod_types(
    c: &mut Classifier,
    td: &mut TypedefMap,
    ns: &Namespace,
    items: &Vec<Decl>,
    start: usize,
)
    requires
        start <= items.len(),
    ensures
        final(c).entries_view() == old(c).entries_view() + collect_entries(
            ns@,
            decls_v(items@).skip(start as int),
        ),
        !final(c).done,
        final(td).view_spec() == old(td).view_spec() + collect_tds(
            ns@,
            decls_v(items@).skip(start as int),
        ),
    decreases items@, 0int, items.len() - start,
{
    proof {
        lemma_decls_v(items@);
    }
    let ghost tail = decls_v(items@).skip(start as int);
    let ghost ce = collect_entries(ns@, tail);
    let ghost ct = collect_tds(ns@, tail);
    if start == items.len() {
        c.done = false;
        proof {
            assert(tail =~= Seq::<DeclV>::empty());
            assert(final(c).entries_view() =~= old(c).entries_view() + ce);
            assert(final(td).view_spec() =~= old(td).view_spec() + ct);
        }
        return ;
    }
    proof {
        assert(tail[0] == decl_v(items@[start as int]));
        assert(tail.drop_first() =~= decls_v(items@).skip(start + 1 as int));
    }
    let ghost e1 = collect_item_entries(ns@, tail[0]);
    let ghost t1 = collect_item_tds(ns@, tail[0]);
    match &items[start] {
        Decl::Struct(s) => {
            proof {
                crate::ast::lemma_fields_v(s.fields@);
                lemma_field_deps(crate::ast::fields_v(s.fields@));
            }
            let mut deps: Vec<Option<QualifiedName>> = Vec::new();
            let nf = s.fields.len();
            let mut i: usize = 0;
            while i < nf
                invariant
                    i <= nf,
                    nf == s.fields.len(),
                    deps@.len() == i,
                    forall|j: int|
                        0 <= j < i ==> crate::classify::dep_v(deps@[j]) == field_dep(
                            crate::ast::fields_v(s.fields@)[j],
                        ),
                decreases nf - i,
            {
                let ghost fv = crate::ast::fields_v(s.fields@)[i as int];
                proof {
                    assert(fv == crate::ast::field_v(s.fields@[i as int]));
                }
                let dep: Option<QualifiedName> = match &s.fields[i].ty {
                    Ty::Path(p) => {
                        proof {
                            crate::ast::lemma_tysegs_v(p.segments@);
                            assert(fv.ty == TyV::Path(crate::ast::typath_v(*p)));
                        }
                        if p.segments.len() > 0 {
                            let q = crate::ast::qn_from_raw_path_exec(p);
                            proof {
                                assert(field_dep(fv) == Option::Some(q@));
                            }
                            Option::Some(q)
                        } else {
                            proof {
                                assert(field_dep(fv) == Option::<QnV>::None);
                            }
                            Option::None
                        }
                    },
                    _ => {
                        proof {
                            assert(field_dep(fv) == Option::<QnV>::None);
                        }
                        Option::None
                    },
                };
                deps.push(dep);
                i = i + 1;
            }
            proof {
                crate::classify::lemma_deps_v(deps@);
                assert(crate::classify::deps_v(deps@) =~= field_deps(
                    crate::ast::fields_v(s.fields@),
                ));
            }
            c.ingest_struct_deps(QualifiedName::new(ns, s.name.clone()), deps);
        },
        Decl::Enum(e) => {
            c.ingest_pod_type(QualifiedName::new(ns, e.name.clone()));
        },
        Decl::Typedef(t) => {
            if !t.has_generic_params {
                let target = analyze_typedef_exec(&t.target);
                match &target {
                    crate::tyconv::TypedefTarget::AliasTo(tn) => {
                        c.ingest_simple_typedef(
                            QualifiedName::new(ns, t.name.clone()),
                            tn.clone(),
                        );
                    },
                    _ => {
                        c.ingest_nonpod_type(QualifiedName::new(ns, t.name.clone()));
                    },
                }
                td.record(QualifiedName::new(ns, t.name.clone()), target);
            }
        },
        Decl::Mod(m) => {
            match &m.content {
                Option::Some(inner) => {
                    let new_ns = ns.push(m.name.clone());
                    find_nested_pod_types(c, td, &new_ns, inner, 0);
                    proof {
                        assert(decls_v(inner@).skip(0) =~= decls_v(inner@));
                    }
                },
                Option::None => {
                },
            }
        },
        _ => {
        },
    }
    proof {
        assert(c.entries_view() =~= old(c).entries_view() + e1);
        assert(td.view_spec() =~= old(td).view_spec() + t1);
    }
    find_nested_pod_types(c, td, ns, items, start + 1);
    proof {
        assert(final(c).entries_view() =~= old(c).entries_view() + ce);
        assert(final(td).view_spec() =~= old(td).view_spec() + ct);
    }
}


// ---------------------------------------------------------------------------
// The converter.
// ---------------------------------------------------------------------------
/// The generated utilities: the owned-native-string constructor.
pub open spec fn make_string_decl() -> ExternCItemV {
    ExternCItemV::Fn(
        BridgeFnDeclV {
            namespace: Option::None,
            alias: Option::None,
            name: "make_string"@,
            params: seq![FnParamV { name: "str_"@, ty: crate::tyconv::str_slice_ty() }],
            ret: Option::Some(
                handle_ty(TyV::Path(crate::tyconv::single_seg_path("CxxString"@))),
            ),
        },
    )
}

pub open spec fn util_decls(util: bool) -> Seq<ExternCItemV> {
    if util {
        seq![make_string_decl()]
    } else {
        Seq::empty()
    }
}

pub open spec fn util_needs(util: bool) -> Seq<AuxiliaryNeedV> {
    if util {
        seq![AuxiliaryNeedV::StringConstructorHelper]
    } else {
        Seq::empty()
    }
}

pub open spec fn util_uses(util: bool) -> Seq<EmissionV> {
    if util {
        seq![EmissionV { ns: Seq::empty(), id: "make_string"@ }]
    } else {
        Seq::empty()
    }
}

/// The forwarded include directives, plus the generated auxiliary header
/// when any auxiliary need was recorded.
pub open spec fn include_entries(incs: Seq<Seq<char>>) -> Seq<ExternCItemV>
    decreases incs,
{
    if incs.len() == 0 {
        Seq::empty()
    } else {
        seq![ExternCItemV::Include { header: incs[0] }] + include_entries(incs.drop_first())
    }
}

pub broadcast proof fn lemma_include_entries(incs: Seq<Seq<char>>)
    ensures
        (#[trigger] include_entries(incs)).len() == incs.len(),
        forall|i: int|
            0 <= i < incs.len() ==> include_entries(incs)[i] == (ExternCItemV::Include {
                header: incs[i],
            }),
    decreases incs,
{
    if incs.len() > 0 {
        lemma_include_entries(incs.drop_first());
    }
}

/// The assumed outer shape: at most one item, and that item the raw
/// generator's root namespace wrapper.
pub open spec fn outer_ok(items: Seq<DeclV>) -> bool {
    &&& items.len() <= 1
    &&& (items.len() == 1 ==> match items[0] {
        DeclV::Mod(m) => m.name == "root"@,
        _ => false,
    })
}

/// The declarations inside the root wrapper, or nothing.
pub open spec fn root_inner(items: Seq<DeclV>) -> Seq<DeclV> {
    if items.len() == 1 {
        match items[0] {
            DeclV::Mod(m) => match m.content {
                Option::Some(inner) => inner,
                Option::None => Seq::empty(),
            },
            _ => Seq::empty(),
        }
    } else {
        Seq::empty()
    }
}

/// The items of a successful conversion, in order: the top-level extras,
/// the re-export tree, the rewritten tree under its root wrapper, and
/// the bridge module.
pub open spec fn assembled_items(
    bname: Seq<char>,
    w: WalkOutV,
    emissions: Seq<EmissionV>,
    extern_all: Seq<ExternCItemV>,
) -> Seq<OutItemV> {
    w.extra + crate::reexport::render_tree(crate::reexport::build_tree_spec(emissions)) + seq![
        OutItemV::Mod {
            name: bname,
            items: seq![
                OutItemV::Mod { name: "root"@, items: w.out + seq![OutItemV::CxxbridgeUse] },
            ],
        },
    ] + seq![
        OutItemV::BridgeMod {
            items: w.bridge + seq![BridgeItemV::ExternCBlock { items: extern_all }],
        },
    ]
}

/// What one conversion run yields, for the least-fixpoint classification
/// `bits` of the ingested entries.
pub open spec fn convert_post(
    include_list: Seq<Seq<char>>,
    pod_requests: Seq<QnV>,
    bname: Seq<char>,
    inner: Seq<DeclV>,
    exclude_utilities: bool,
    r: Result<crate::emit::BridgeConversionResults, ConvertError>,
    bits: Seq<bool>,
) -> bool {
    let es = builtin_entries() + collect_entries(Seq::empty(), inner);
    let tds = collect_tds(Seq::empty(), inner);
    let ctx = CtxV { es, bits, tds };
    let w = walk_items(ctx, Seq::empty(), inner, Seq::empty());
    let util = !exclude_utilities;
    let needs_all = util_needs(util) + w.needs;
    &&& crate::classify::is_fixpoint(es, bits)
    &&& crate::classify::is_least(es, bits)
    &&& match r {
        Result::Ok(results) => {
            &&& (forall|i: int|
                0 <= i < pod_requests.len() ==> crate::classify::cls_at(
                    es,
                    bits,
                    #[trigger] pod_requests[i],
                ))
            &&& !w.bad
            &&& needs_v(results.additional_cpp_needs@) == needs_all
            &&& outitems_v(results.items@) == assembled_items(
                bname,
                w,
                util_uses(util) + w.uses,
                util_decls(util) + w.extern_c + include_entries(include_list) + (if needs_all.len()
                    > 0 {
                    seq![ExternCItemV::Include { header: "bridgegen.h"@ }]
                } else {
                    Seq::empty()
                }),
            )
        },
        Result::Err(e) => match e {
            ConvertError::NoContent => false,
            ConvertError::UnsafePODType(msg) => exists|i: int|
                {
                    &&& 0 <= i < pod_requests.len()
                    &&& !crate::classify::cls_at(es, bits, #[trigger] pod_requests[i])
                    &&& msg@ == crate::name::cpp_name_of(pod_requests[i])
                    &&& forall|j: int|
                        0 <= j < i ==> crate::classify::cls_at(es, bits, #[trigger] pod_requests[j])
                },
            ConvertError::UnknownForeignItem => {
                &&& (forall|i: int|
                    0 <= i < pod_requests.len() ==> crate::classify::cls_at(
                        es,
                        bits,
                        #[trigger] pod_requests[i],
                    ))
                &&& w.bad
            },
        },
    }
}

fn generate_utilities(conv: &mut BridgeConversion)
    ensures
        final(conv).ecv() == old(conv).ecv() + util_decls(true),
        final(conv).nv() == old(conv).nv() + util_needs(true),
        final(conv).uv() == old(conv).uv() + util_uses(true),
        final(conv).bv() == old(conv).bv(),
        final(conv).xv() == old(conv).xv(),
        final(conv).tfv() == old(conv).tfv(),
{
    let mut params: Vec<FnParam> = Vec::new();
    let str_inner = Ty::Path(crate::tyconv::single_seg_path_exec(string_lit("str")));
    proof {
        assert(ty_v(str_inner) == TyV::Path(crate::tyconv::single_seg_path("str"@)));
    }
    let pty = Ty::Reference { mutable: false, elem: Box::new(str_inner) };
    proof {
        assert(ty_v(pty) == crate::tyconv::str_slice_ty());
    }
    params.push(FnParam { name: string_lit("str_"), ty: pty });
    let ghost paramsv = fnparams_v(params@);
    proof {
        crate::ast::lemma_fnparams_v(params@);
        assert(paramsv =~= seq![
            FnParamV { name: "str_"@, ty: crate::tyconv::str_slice_ty() },
        ]);
    }
    let ret = crate::fnconv::handle_ty_exec(
        &Ty::Path(crate::tyconv::single_seg_path_exec(string_lit("CxxString"))),
    );
    let decl = BridgeFnDecl {
        namespace: Option::None,
        alias: Option::None,
        name: string_lit("make_string"),
        params,
        ret: Option::Some(ret),
    };
    proof {
        assert(bfn_v(decl) == (match make_string_decl() {
            ExternCItemV::Fn(d) => d,
            _ => bfn_v(decl),
        }));
    }
    conv.push_extern_c(ExternCItem::Fn(decl));
    conv.push_use(NamespaceEmission { ns: Namespace::new(), id: string_lit("make_string") });
    conv.push_need(AuxiliaryNeed::StringConstructorHelper);
    proof {
        assert(final(conv).ecv() =~= old(conv).ecv() + util_decls(true));
        assert(final(conv).nv() =~= old(conv).nv() + util_needs(true));
        assert(final(conv).uv() =~= old(conv).uv() + util_uses(true));
    }
}

/// Converts raw, mechanically generated declarations into a form suitable
/// for a safety-checked interop bridge.
pub struct BridgeConverter {
    pub include_list: Vec<String>,
    pub pod_requests: Vec<QualifiedName>,
}

impl BridgeConverter {
    pub fn new(include_list: Vec<String>, pod_requests: Vec<QualifiedName>) -> (r: Self)
        ensures
            r.include_list == include_list,
            r.pod_requests == pod_requests,
    {
        BridgeConverter { include_list, pod_requests }
    }

    /// Converts one raw declaration tree.  The classification pass runs
    /// first, globally; the explicit trivial requests are validated; then
    /// the rewrite pass produces the bridge declarations, the auxiliary
    /// needs and the re-export surface.
    #[verifier::loop_isolation(false)]
    #[verifier::rlimit(60)]
    pub fn convert(&mut self, bindings: crate::ast::ModDecl, exclude_utilities: bool) -> (r:
        Result<crate::emit::BridgeConversionResults, ConvertError>)
        requires
            match bindings.content {
                Option::Some(items) => outer_ok(decls_v(items@)),
                Option::None => true,
            },
        ensures
            *final(self) == *old(self),
            match bindings.content {
                Option::None => r == Result::<
                    crate::emit::BridgeConversionResults,
                    ConvertError,
                >::Err(ConvertError::NoContent),
                Option::Some(items) => exists|bits: Seq<bool>|
                    #[trigger] convert_post(
                        old(self).include_list.deep_view(),
                        crate::classify::qns_v(old(self).pod_requests@),
                        bindings.name@,
                        root_inner(decls_v(items@)),
                        exclude_utilities,
                        r,
                        bits,
                    ),
            },
    {
        let items = match bindings.content {
            Option::None => {
                return Result::Err(ConvertError::NoContent);
            },
            Option::Some(items) => items,
        };
        proof {
            lemma_decls_v(items@);
        }
        let ghost innerv = root_inner(decls_v(items@));
        let empty_vec: Vec<Decl> = Vec::new();
        let inner_ref: &Vec<Decl> = if items.len() == 1 {
            match &items[0] {
                Decl::Mod(m) => match &m.content {
                    Option::Some(inner) => inner,
                    Option::None => &empty_vec,
                },
                _ => &empty_vec,
            }
        } else {
            &empty_vec
        };
        proof {
            assert(decls_v(empty_vec@) =~= Seq::<DeclV>::empty());
            assert(decls_v(inner_ref@) == innerv);
        }
        // Classification pass, global and first.
        let mut cls = Classifier::new();
        ingest_builtins(&mut cls);
        let mut td = TypedefMap::new();
        let root_ns = Namespace::new();
        find_nested_pod_types(&mut cls, &mut td, &root_ns, inner_ref, 0);
        proof {
            assert(decls_v(inner_ref@).skip(0) =~= decls_v(inner_ref@));
            assert(cls.entries_view() =~= builtin_entries() + collect_entries(
                Seq::empty(),
                innerv,
            ));
            assert(td.view_spec() =~= collect_tds(Seq::empty(), innerv));
        }
        // Validate the explicit trivial requests.
        let validated = cls.satisfy_requests(&self.pod_requests);
        let ghost bits = cls.resolved@;
        proof {
            crate::classify::lemma_qns_v(self.pod_requests@);
        }
        match validated {
            Result::Err(msg) => {
                let r = Result::<crate::emit::BridgeConversionResults, ConvertError>::Err(
                    ConvertError::UnsafePODType(msg),
                );
                proof {
                    let reqs = crate::classify::qns_v(old(self).pod_requests@);
                    let es = builtin_entries() + collect_entries(Seq::empty(), innerv);
                    assert(cls.entries_view() == es);
                    let i = choose|i: int|
                        {
                            &&& 0 <= i < self.pod_requests@.len()
                            &&& !cls.is_trivial_spec((#[trigger] self.pod_requests@[i])@)
                            &&& msg@ == crate::name::cpp_name_of(self.pod_requests@[i]@)
                            &&& forall|j: int|
                                0 <= j < i ==> cls.is_trivial_spec(
                                    (#[trigger] self.pod_requests@[j])@,
                                )
                        };
                    assert(0 <= i < reqs.len() && !crate::classify::cls_at(es, bits, reqs[i])
                        && msg@ == crate::name::cpp_name_of(reqs[i]));
                    assert(forall|j: int|
                        0 <= j < i ==> crate::classify::cls_at(es, bits, #[trigger] reqs[j]));
                    assert(convert_post(
                        old(self).include_list.deep_view(),
                        crate::classify::qns_v(old(self).pod_requests@),
                        bindings.name@,
                        innerv,
                        exclude_utilities,
                        r,
                        bits,
                    ));
                }
                return r;
            },
            Result::Ok(()) => {
            },
        }
        // Rewrite pass.
        let mut conversion = BridgeConversion::new();
        if !exclude_utilities {
            generate_utilities(&mut conversion);
        }
        let ghost ctx = ctx_of(cls, td);
        let ghost w = walk_items(ctx, Seq::empty(), innerv, Seq::empty());
        let mut root_items: Vec<OutItem> = Vec::new();
        let walked = conversion.convert_mod_items(&cls, &td, &root_ns, inner_ref, 0, &mut root_items);
        proof {
            assert(decls_v(inner_ref@).skip(0) =~= decls_v(inner_ref@));
        }
        match walked {
            Result::Err(e) => {
                let r = Result::<crate::emit::BridgeConversionResults, ConvertError>::Err(e);
                proof {
                    assert(convert_post(
                        old(self).include_list.deep_view(),
                        crate::classify::qns_v(old(self).pod_requests@),
                        bindings.name@,
                        innerv,
                        exclude_utilities,
                        r,
                        bits,
                    ));
                }
                return r;
            },
            Result::Ok(()) => {
            },
        }
        let ghost util = !exclude_utilities;
        proof {
            assert(conversion.ecv() =~= util_decls(util) + w.extern_c);
            assert(conversion.bv() =~= w.bridge);
            assert(conversion.xv() =~= w.extra);
            assert(conversion.nv() =~= util_needs(util) + w.needs);
            assert(conversion.uv() =~= util_uses(util) + w.uses);
            assert(outitems_v(root_items@) =~= w.out);
        }
        // Assemble the results.
        proof {
            lemma_include_entries(self.include_list.deep_view());
        }
        let extra_inc = conversion.additional_cpp_needs.len() > 0;
        let mut incs: Vec<ExternCItem> = Vec::new();
        let ninc = self.include_list.len();
        let mut i: usize = 0;
        while i < ninc
            invariant
                i <= ninc,
                incs@.len() == i,
                forall|j: int|
                    0 <= j < i ==> externc_v(incs@[j]) == (ExternCItemV::Include {
                        header: self.include_list.deep_view()[j],
                    }),
            decreases ninc - i,
        {
            incs.push(ExternCItem::Include { header: self.include_list[i].clone() });
            i = i + 1;
        }
        if extra_inc {
            incs.push(ExternCItem::Include { header: string_lit("bridgegen.h") });
        }
        let ghost incsv = externcs_v(incs@);
        proof {
            lemma_externcs_v(incs@);
            lemma_needs_v(conversion.additional_cpp_needs@);
            assert(incsv =~= include_entries(old(self).include_list.deep_view()) + (
            if (util_needs(util) + w.needs).len() > 0 {
                seq![ExternCItemV::Include { header: "bridgegen.h"@ }]
            } else {
                Seq::<ExternCItemV>::empty()
            }));
        }
        let ghost ecv0 = conversion.ecv();
        proof {
            lemma_externcs_v(conversion.extern_c_items@);
        }
        let mut ec = conversion.extern_c_items;
        ec.append(&mut incs);
        proof {
            lemma_externcs_v(ec@);
            assert(externcs_v(ec@) =~= ecv0 + incsv);
        }
        let ghost bv0 = conversion.bv();
        let ghost ecallv = externcs_v(ec@);
        proof {
            lemma_bridgeitems_v(conversion.bridge_items@);
        }
        let mut bridge = conversion.bridge_items;
        bridge.push(BridgeItem::ExternCBlock { items: ec });
        proof {
            lemma_bridgeitems_v(bridge@);
            assert(bridgeitems_v(bridge@) =~= bv0 + seq![
                BridgeItemV::ExternCBlock { items: ecallv },
            ]);
        }
        let tree = crate::reexport::build_tree(&conversion.final_uses);
        let mut rex = render_tree_exec(&tree);
        let ghost rexv = outitems_v(rex@);
        let ghost xv0 = conversion.xv();
        proof {
            lemma_outitems_v(rex@);
            lemma_outitems_v(conversion.extra_items@);
        }
        let mut items_out = conversion.extra_items;
        items_out.append(&mut rex);
        proof {
            lemma_outitems_v(items_out@);
            assert(outitems_v(items_out@) =~= xv0 + rexv);
        }
        let ghost rootv = outitems_v(root_items@);
        proof {
            lemma_outitems_v(root_items@);
        }
        root_items.push(OutItem::CxxbridgeUse);
        proof {
            lemma_outitems_v(root_items@);
            assert(outitems_v(root_items@) =~= rootv + seq![OutItemV::CxxbridgeUse]);
        }
        let ghost root_itemsv = outitems_v(root_items@);
        let root_mod = OutItem::Mod { name: string_lit("root"), items: root_items };
        let mut inner_mods: Vec<OutItem> = Vec::new();
        inner_mods.push(root_mod);
        let ghost inner_modsv = outitems_v(inner_mods@);
        proof {
            lemma_outitems_v(inner_mods@);
            assert(inner_modsv =~= seq![OutItemV::Mod { name: "root"@, items: root_itemsv }]);
        }
        let ghost pre_modv = outitems_v(items_out@);
        proof {
            lemma_outitems_v(items_out@);
        }
        let ghost bname_v = bindings.name@;
        items_out.push(OutItem::Mod { name: bindings.name, items: inner_mods });
        proof {
            lemma_outitems_v(items_out@);
            assert(outitems_v(items_out@) =~= pre_modv + seq![
                OutItemV::Mod { name: bname_v, items: inner_modsv },
            ]);
        }
        let ghost with_modv = outitems_v(items_out@);
        let ghost bridgev = bridgeitems_v(bridge@);
        items_out.push(OutItem::BridgeMod { items: bridge });
        proof {
            lemma_outitems_v(items_out@);
            assert(outitems_v(items_out@) =~= with_modv + seq![
                OutItemV::BridgeMod { items: bridgev },
            ]);
        }
        let results = crate::emit::BridgeConversionResults {
            items: items_out,
            additional_cpp_needs: conversion.additional_cpp_needs,
        };
        let r = Result::<crate::emit::BridgeConversionResults, ConvertError>::Ok(results);
        proof {
            let emis = util_uses(util) + w.uses;
            let extern_all = util_decls(util) + w.extern_c + include_entries(
                old(self).include_list.deep_view(),
            ) + (if (util_needs(util) + w.needs).len() > 0 {
                seq![ExternCItemV::Include { header: "bridgegen.h"@ }]
            } else {
                Seq::<ExternCItemV>::empty()
            });
            assert(rexv == crate::reexport::render_tree(crate::reexport::build_tree_spec(emis)));
            assert(ecallv =~= extern_all);
            assert(root_itemsv == w.out + seq![OutItemV::CxxbridgeUse]);
            assert(outitems_v(items_out@) =~= assembled_items(bname_v, w, emis, extern_all));
            assert(convert_post(
                old(self).include_list.deep_view(),
                crate::classify::qns_v(old(self).pod_requests@),
                bname_v,
                innerv,
                exclude_utilities,
                r,
                bits,
            ));
        }
        r
    }
}


/// LAW: exactly one allocation method is emitted per detected
/// constructor-defining method, returning a uniquely owned handle to the
/// original return type, backed by exactly one allocation-factory
/// request.
pub proof fn lemma_ctor_block_alloc_method(
    ns: Seq<Seq<char>>,
    tf: Seq<Seq<char>>,
    impl_self: TyV,
    ty: QnV,
    m: MethodDeclV,
)
    requires
        m.name == "new"@,
        m.ret is Some,
    ensures
        ({
            let w = walk_method_one(ns, tf, impl_self, ty, m);
            &&& w.out.len() == 1
            &&& w.out[0] == (OutItemV::AllocMethodImpl {
                self_ty: impl_self,
                method: AllocMethodV {
                    target: ty.id + "_make_unique"@,
                    params: m.params,
                    ret: handle_ty(m.ret->0),
                },
            })
            &&& w.needs.len() == 1
            &&& w.needs[0] == (AuxiliaryNeedV::AllocationFactory {
                ty,
                arg_types: ctor_arg_types(m.params),
            })
        }),
{
}

} // verus!
