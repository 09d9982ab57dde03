//! Model of what the conversion engine emits: bridge-ready declarations,
//! the auxiliary native-code requests handed to the downstream generator,
//! and the recorded namespace emissions.

use vstd::prelude::*;

use crate::ast::fnparams_v;
use crate::ast::mparams_v;
use crate::ast::ty_v;
use crate::ast::FnParam;
use crate::ast::FnParamV;
use crate::ast::MethodParam;
use crate::ast::MethodParamV;
use crate::ast::Ty;
use crate::ast::TyV;
use crate::name::QnV;
use crate::name::QualifiedName;

verus! {

// ---------------------------------------------------------------------------
// Argument conversions.
// ---------------------------------------------------------------------------
/// How one value must be transformed when crossing the boundary.
pub enum ArgumentConversion {
    /// The value crosses as it is.
    Unconverted(Ty),
    /// An opaque parameter passed by value: the caller's value is boxed
    /// into a uniquely owned handle before the call.
    ToHandle(Ty),
    /// An opaque return passed by value: the callee's value comes back
    /// boxed in a uniquely owned handle.
    FromHandle(Ty),
}

pub enum ArgumentConversionV {
    Unconverted(TyV),
    ToHandle(TyV),
    FromHandle(TyV),
}

pub open spec fn argconv_v(c: ArgumentConversion) -> ArgumentConversionV {
    match c {
        ArgumentConversion::Unconverted(t) => ArgumentConversionV::Unconverted(ty_v(t)),
        ArgumentConversion::ToHandle(t) => ArgumentConversionV::ToHandle(ty_v(t)),
        ArgumentConversion::FromHandle(t) => ArgumentConversionV::FromHandle(ty_v(t)),
    }
}

pub open spec fn argconvs_v(s: Seq<ArgumentConversion>) -> Seq<ArgumentConversionV>
    decreases s,
{
    if s.len() == 0 {
        Seq::empty()
    } else {
        seq![argconv_v(s[0])] + argconvs_v(s.drop_first())
    }
}

pub open spec fn opt_argconv_v(c: Option<ArgumentConversion>) -> Option<ArgumentConversionV> {
    match c {
        Option::None => Option::None,
        Option::Some(c0) => Option::Some(argconv_v(c0)),
    }
}

/// Whether a conversion requires shim work.
pub open spec fn conv_work_needed(c: ArgumentConversionV) -> bool {
    !(c is Unconverted)
}

/// The raw type a conversion carries.
pub open spec fn conv_raw_type(c: ArgumentConversionV) -> TyV {
    match c {
        ArgumentConversionV::Unconverted(t) => t,
        ArgumentConversionV::ToHandle(t) => t,
        ArgumentConversionV::FromHandle(t) => t,
    }
}

/// A uniquely owned handle type around `t`.
pub open spec fn handle_ty(t: TyV) -> TyV {
    TyV::Path(
        crate::ast::TyPathV {
            segments: seq![crate::ast::TySegmentV { ident: "UniquePtr"@, args: seq![t] }],
        },
    )
}

/// The type a converted position carries in the emitted bridge
/// declaration: handle-form for converted positions, the raw type
/// otherwise.
pub open spec fn conv_bridge_type(c: ArgumentConversionV) -> TyV {
    match c {
        ArgumentConversionV::Unconverted(t) => t,
        ArgumentConversionV::ToHandle(t) => handle_ty(t),
        ArgumentConversionV::FromHandle(t) => handle_ty(t),
    }
}

// ---------------------------------------------------------------------------
// Auxiliary needs.
// ---------------------------------------------------------------------------
/// What a synthesized by-value shim must do.
pub struct ShimDetails {
    /// The native function the shim calls.
    pub target: String,
    pub return_conversion: Option<ArgumentConversion>,
    pub argument_conversion: Vec<ArgumentConversion>,
    pub is_a_method: bool,
}

pub struct ShimDetailsV {
    pub target: Seq<char>,
    pub return_conversion: Option<ArgumentConversionV>,
    pub argument_conversion: Seq<ArgumentConversionV>,
    pub is_a_method: bool,
}

pub open spec fn shim_v(s: ShimDetails) -> ShimDetailsV {
    ShimDetailsV {
        target: s.target@,
        return_conversion: opt_argconv_v(s.return_conversion),
        argument_conversion: argconvs_v(s.argument_conversion@),
        is_a_method: s.is_a_method,
    }
}

/// Work the external native-code generator must perform.
pub enum AuxiliaryNeed {
    /// The helper constructing an owned native string from a borrowed
    /// string slice.
    StringConstructorHelper,
    /// A factory allocating a `ty` on the heap from the given
    /// constructor argument types, returning a uniquely owned handle.
    AllocationFactory { ty: QualifiedName, arg_types: Vec<QualifiedName> },
    /// A function wrapping a by-value native call behind handle-typed
    /// positions.
    ValueCrossingShim(ShimDetails),
}

pub enum AuxiliaryNeedV {
    StringConstructorHelper,
    AllocationFactory { ty: QnV, arg_types: Seq<QnV> },
    ValueCrossingShim(ShimDetailsV),
}

pub open spec fn need_v(n: AuxiliaryNeed) -> AuxiliaryNeedV {
    match n {
        AuxiliaryNeed::StringConstructorHelper => AuxiliaryNeedV::StringConstructorHelper,
        AuxiliaryNeed::AllocationFactory { ty, arg_types } => AuxiliaryNeedV::AllocationFactory {
            ty: ty@,
            arg_types: crate::classify::qns_v(arg_types@),
        },
        AuxiliaryNeed::ValueCrossingShim(s) => AuxiliaryNeedV::ValueCrossingShim(shim_v(s)),
    }
}

pub open spec fn needs_v(s: Seq<AuxiliaryNeed>) -> Seq<AuxiliaryNeedV>
    decreases s,
{
    if s.len() == 0 {
        Seq::empty()
    } else {
        seq![need_v(s[0])] + needs_v(s.drop_first())
    }
}

// ---------------------------------------------------------------------------
// Namespace emissions.
// ---------------------------------------------------------------------------
/// One name made visible at the bridge surface.
pub struct NamespaceEmission {
    pub ns: crate::name::Namespace,
    pub id: String,
}

pub struct EmissionV {
    pub ns: Seq<Seq<char>>,
    pub id: Seq<char>,
}

pub open spec fn emission_v(e: NamespaceEmission) -> EmissionV {
    EmissionV { ns: e.ns@, id: e.id@ }
}

pub open spec fn emissions_v(s: Seq<NamespaceEmission>) -> Seq<EmissionV>
    decreases s,
{
    if s.len() == 0 {
        Seq::empty()
    } else {
        seq![emission_v(s[0])] + emissions_v(s.drop_first())
    }
}

// ---------------------------------------------------------------------------
// Emitted bridge declarations.
// ---------------------------------------------------------------------------
/// A bridge-ready function declaration for the foreign block.
pub struct BridgeFnDecl {
    /// The namespace annotation, when the declaring namespace is not root.
    pub namespace: Option<crate::name::Namespace>,
    /// The externally visible alias, attached when the declared target
    /// name differs from the name callers must see.
    pub alias: Option<String>,
    /// The declared target name.
    pub name: String,
    pub params: Vec<FnParam>,
    pub ret: Option<Ty>,
}

pub struct BridgeFnDeclV {
    pub namespace: Option<Seq<Seq<char>>>,
    pub alias: Option<Seq<char>>,
    pub name: Seq<char>,
    pub params: Seq<FnParamV>,
    pub ret: Option<TyV>,
}

/// The name callers observe for an emitted declaration: the alias when
/// one is attached, the declared name otherwise.
pub open spec fn visible_name(d: BridgeFnDeclV) -> Seq<char> {
    match d.alias {
        Option::Some(a) => a,
        Option::None => d.name,
    }
}

pub open spec fn bfn_v(d: BridgeFnDecl) -> BridgeFnDeclV {
    BridgeFnDeclV {
        namespace: match d.namespace {
            Option::None => Option::None,
            Option::Some(n) => Option::Some(n@),
        },
        alias: match d.alias {
            Option::None => Option::None,
            Option::Some(a) => Option::Some(a@),
        },
        name: d.name@,
        params: fnparams_v(d.params@),
        ret: crate::ast::opt_ty_v(d.ret),
    }
}

/// One declaration of the foreign block.
pub enum ExternCItem {
    /// A type alias binding the raw foreign name into the bridge
    /// namespace.
    TypeAlias { namespace: crate::name::Namespace, name: String },
    Fn(BridgeFnDecl),
    /// A forwarded native header include directive.
    Include { header: String },
}

pub enum ExternCItemV {
    TypeAlias { namespace: Seq<Seq<char>>, name: Seq<char> },
    Fn(BridgeFnDeclV),
    Include { header: Seq<char> },
}

pub open spec fn externc_v(i: ExternCItem) -> ExternCItemV {
    match i {
        ExternCItem::TypeAlias { namespace, name } => ExternCItemV::TypeAlias {
            namespace: namespace@,
            name: name@,
        },
        ExternCItem::Fn(d) => ExternCItemV::Fn(bfn_v(d)),
        ExternCItem::Include { header } => ExternCItemV::Include { header: header@ },
    }
}

pub open spec fn externcs_v(s: Seq<ExternCItem>) -> Seq<ExternCItemV>
    decreases s,
{
    if s.len() == 0 {
        Seq::empty()
    } else {
        seq![externc_v(s[0])] + externcs_v(s.drop_first())
    }
}

/// One item of the bridge module.
pub enum BridgeItem {
    /// The ownership-wrapper marker associating a handle with a bound
    /// type, used later for handle typing.
    HandleMarker { name: String },
    /// The single foreign block holding all bridge declarations.
    ExternCBlock { items: Vec<ExternCItem> },
}

pub enum BridgeItemV {
    HandleMarker { name: Seq<char> },
    ExternCBlock { items: Seq<ExternCItemV> },
}

pub open spec fn bridgeitem_v(i: BridgeItem) -> BridgeItemV {
    match i {
        BridgeItem::HandleMarker { name } => BridgeItemV::HandleMarker { name: name@ },
        BridgeItem::ExternCBlock { items } => BridgeItemV::ExternCBlock {
            items: externcs_v(items@),
        },
    }
}

pub open spec fn bridgeitems_v(s: Seq<BridgeItem>) -> Seq<BridgeItemV>
    decreases s,
{
    if s.len() == 0 {
        Seq::empty()
    } else {
        seq![bridgeitem_v(s[0])] + bridgeitems_v(s.drop_first())
    }
}

// ---------------------------------------------------------------------------
// The rewritten output tree.
// ---------------------------------------------------------------------------
/// The single allocation method a detected constructor block is rewritten
/// into.
pub struct AllocMethod {
    /// The synthesized native factory function the method calls.
    pub target: String,
    /// The declared parameter list, kept from the constructor.
    pub params: Vec<MethodParam>,
    /// The uniquely owned handle type around the original return type.
    pub ret: Ty,
}

pub struct AllocMethodV {
    pub target: Seq<char>,
    pub params: Seq<MethodParamV>,
    pub ret: TyV,
}

pub open spec fn alloc_v(m: AllocMethod) -> AllocMethodV {
    AllocMethodV { target: m.target@, params: mparams_v(m.params@), ret: ty_v(m.ret) }
}

/// One item of the emitted output.
pub enum OutItem {
    /// A struct binding; an opaque one carries no client-visible layout
    /// (a fixed placeholder with packed representation stands in).
    Struct { name: String, fields: Vec<crate::ast::Field>, opaque_layout: bool },
    Enum { name: String },
    Typedef { name: String, target: Ty },
    Mod { name: String, items: Vec<OutItem> },
    /// A use declaration passed through from the input.
    UseDecl,
    /// A constant passed through to the top level.
    ConstDecl,
    /// The import that makes the bridge module reachable from the
    /// rewritten tree.
    CxxbridgeUse,
    /// The rewritten constructor block: one allocation method.
    AllocMethodImpl { self_ty: Ty, method: AllocMethod },
    /// The binding associating a fully qualified native name with its
    /// classification.
    ExternTypeBinding { name: QualifiedName, trivial: bool },
    /// A re-export of one bridge item at the surface.
    ReexportUse { target: String },
    /// A nested module of the re-export surface.
    ReexportMod { name: String, items: Vec<OutItem> },
    /// The bridge module itself.
    BridgeMod { items: Vec<BridgeItem> },
}

pub enum OutItemV {
    Struct { name: Seq<char>, fields: Seq<crate::ast::FieldV>, opaque_layout: bool },
    Enum { name: Seq<char> },
    Typedef { name: Seq<char>, target: TyV },
    Mod { name: Seq<char>, items: Seq<OutItemV> },
    UseDecl,
    ConstDecl,
    CxxbridgeUse,
    AllocMethodImpl { self_ty: TyV, method: AllocMethodV },
    ExternTypeBinding { name: QnV, trivial: bool },
    ReexportUse { target: Seq<char> },
    ReexportMod { name: Seq<char>, items: Seq<OutItemV> },
    BridgeMod { items: Seq<BridgeItemV> },
}

pub open spec fn outitem_v(i: OutItem) -> OutItemV
    decreases i,
{
    match i {
        OutItem::Struct { name, fields, opaque_layout } => OutItemV::Struct {
            name: name@,
            fields: crate::ast::fields_v(fields@),
            opaque_layout,
        },
        OutItem::Enum { name } => OutItemV::Enum { name: name@ },
        OutItem::Typedef { name, target } => OutItemV::Typedef {
            name: name@,
            target: ty_v(target),
        },
        OutItem::Mod { name, items } => OutItemV::Mod { name: name@, items: outitems_v(items@) },
        OutItem::UseDecl => OutItemV::UseDecl,
        OutItem::ConstDecl => OutItemV::ConstDecl,
        OutItem::CxxbridgeUse => OutItemV::CxxbridgeUse,
        OutItem::AllocMethodImpl { self_ty, method } => OutItemV::AllocMethodImpl {
            self_ty: ty_v(self_ty),
            method: alloc_v(method),
        },
        OutItem::ExternTypeBinding { name, trivial } => OutItemV::ExternTypeBinding {
            name: name@,
            trivial,
        },
        OutItem::ReexportUse { target } => OutItemV::ReexportUse { target: target@ },
        OutItem::ReexportMod { name, items } => OutItemV::ReexportMod {
            name: name@,
            items: outitems_v(items@),
        },
        OutItem::BridgeMod { items } => OutItemV::BridgeMod { items: bridgeitems_v(items@) },
    }
}

pub open spec fn outitems_v(s: Seq<OutItem>) -> Seq<OutItemV>
    decreases s,
{
    if s.len() == 0 {
        Seq::empty()
    } else {
        seq![outitem_v(s[0])] + outitems_v(s.drop_first())
    }
}

pub broadcast proof fn lemma_argconvs_v(s: Seq<ArgumentConversion>)
    ensures
        (#[trigger] argconvs_v(s)).len() == s.len(),
        forall|i: int| 0 <= i < s.len() ==> argconvs_v(s)[i] == argconv_v(s[i]),
    decreases s,
{
    if s.len() > 0 {
        lemma_argconvs_v(s.drop_first());
    }
}

pub broadcast proof fn lemma_needs_v(s: Seq<AuxiliaryNeed>)
    ensures
        (#[trigger] needs_v(s)).len() == s.len(),
        forall|i: int| 0 <= i < s.len() ==> needs_v(s)[i] == need_v(s[i]),
    decreases s,
{
    if s.len() > 0 {
        lemma_needs_v(s.drop_first());
    }
}

pub broadcast proof fn lemma_emissions_v(s: Seq<NamespaceEmission>)
    ensures
        (#[trigger] emissions_v(s)).len() == s.len(),
        forall|i: int| 0 <= i < s.len() ==> emissions_v(s)[i] == emission_v(s[i]),
    decreases s,
{
    if s.len() > 0 {
        lemma_emissions_v(s.drop_first());
    }
}

pub broadcast proof fn lemma_externcs_v(s: Seq<ExternCItem>)
    ensures
        (#[trigger] externcs_v(s)).len() == s.len(),
        forall|i: int| 0 <= i < s.len() ==> externcs_v(s)[i] == externc_v(s[i]),
    decreases s,
{
    if s.len() > 0 {
        lemma_externcs_v(s.drop_first());
    }
}

pub broadcast proof fn lemma_bridgeitems_v(s: Seq<BridgeItem>)
    ensures
        (#[trigger] bridgeitems_v(s)).len() == s.len(),
        forall|i: int| 0 <= i < s.len() ==> bridgeitems_v(s)[i] == bridgeitem_v(s[i]),
    decreases s,
{
    if s.len() > 0 {
        lemma_bridgeitems_v(s.drop_first());
    }
}

pub broadcast proof fn lemma_outitems_v(s: Seq<OutItem>)
    ensures
        (#[trigger] outitems_v(s)).len() == s.len(),
        forall|i: int| 0 <= i < s.len() ==> outitems_v(s)[i] == outitem_v(s[i]),
    decreases s,
{
    if s.len() > 0 {
        lemma_outitems_v(s.drop_first());
    }
}

pub broadcast group group_emit_view_lemmas {
    lemma_argconvs_v,
    lemma_needs_v,
    lemma_emissions_v,
    lemma_externcs_v,
    lemma_bridgeitems_v,
    lemma_outitems_v,
}

/// The results of one conversion run.
pub struct BridgeConversionResults {
    pub items: Vec<OutItem>,
    pub additional_cpp_needs: Vec<AuxiliaryNeed>,
}

} // verus!
