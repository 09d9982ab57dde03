//! Model of the raw, mechanically generated declaration tree that the
//! conversion engine consumes: types, struct/enum/typedef items, foreign
//! function blocks, constructor method blocks and nested namespace modules.
//!
//! Each executable type has a ghost mirror (`..V`) over `Seq`/`bool`, and a
//! view function mapping the executable value to its mirror; all contracts
//! are stated over the mirrors.

use vstd::prelude::*;

use crate::name::str_eq;
use crate::name::Namespace;
use crate::name::QnV;
use crate::name::QualifiedName;

verus! {

// ---------------------------------------------------------------------------
// Types as they appear in raw declarations.
// ---------------------------------------------------------------------------
/// One path segment: an identifier with optional generic type arguments.
pub struct TySegment {
    pub ident: String,
    pub args: Vec<Ty>,
}

/// A (possibly qualified) named type path.
pub struct TyPath {
    pub segments: Vec<TySegment>,
}

/// The shape of a type as the engine reads it.
pub enum Ty {
    /// A named path type.
    Path(TyPath),
    /// A reference, `&` or `&mut`, to an element type.
    Reference { mutable: bool, elem: Box<Ty> },
    /// A raw pointer, `*const` or `*mut`, to an element type.
    Pointer { mutable: bool, elem: Box<Ty> },
    /// Any other shape; the engine carries it through unchanged.
    Other,
}

pub struct TySegmentV {
    pub ident: Seq<char>,
    pub args: Seq<TyV>,
}

pub struct TyPathV {
    pub segments: Seq<TySegmentV>,
}

pub enum TyV {
    Path(TyPathV),
    Reference { mutable: bool, elem: Box<TyV> },
    Pointer { mutable: bool, elem: Box<TyV> },
    Other,
}

pub open spec fn ty_v(t: Ty) -> TyV
    decreases t,
{
    match t {
        Ty::Path(p) => TyV::Path(typath_v(p)),
        Ty::Reference { mutable, elem } => TyV::Reference {
            mutable,
            elem: Box::new(ty_v(*elem)),
        },
        Ty::Pointer { mutable, elem } => TyV::Pointer { mutable, elem: Box::new(ty_v(*elem)) },
        Ty::Other => TyV::Other,
    }
}

pub open spec fn typath_v(p: TyPath) -> TyPathV
    decreases p,
{
    TyPathV { segments: tysegs_v(p.segments@) }
}

pub open spec fn tysegs_v(s: Seq<TySegment>) -> Seq<TySegmentV>
    decreases s,
{
    if s.len() == 0 {
        Seq::empty()
    } else {
        seq![tyseg_v(s[0])] + tysegs_v(s.drop_first())
    }
}

pub open spec fn tyseg_v(s: TySegment) -> TySegmentV
    decreases s,
{
    TySegmentV { ident: s.ident@, args: tys_v(s.args@) }
}

pub open spec fn tys_v(s: Seq<Ty>) -> Seq<TyV>
    decreases s,
{
    if s.len() == 0 {
        Seq::empty()
    } else {
        seq![ty_v(s[0])] + tys_v(s.drop_first())
    }
}

pub open spec fn opt_ty_v(t: Option<Ty>) -> Option<TyV> {
    match t {
        Option::None => Option::None,
        Option::Some(t0) => Option::Some(ty_v(t0)),
    }
}

pub broadcast proof fn lemma_tys_v(s: Seq<Ty>)
    ensures
        (#[trigger] tys_v(s)).len() == s.len(),
        forall|i: int| 0 <= i < s.len() ==> tys_v(s)[i] == ty_v(s[i]),
    decreases s,
{
    if s.len() > 0 {
        lemma_tys_v(s.drop_first());
    }
}

pub broadcast proof fn lemma_tysegs_v(s: Seq<TySegment>)
    ensures
        (#[trigger] tysegs_v(s)).len() == s.len(),
        forall|i: int| 0 <= i < s.len() ==> tysegs_v(s)[i] == tyseg_v(s[i]),
    decreases s,
{
    if s.len() > 0 {
        lemma_tysegs_v(s.drop_first());
    }
}

// ---------------------------------------------------------------------------
// Well-formedness of the assumed input shape.
// ---------------------------------------------------------------------------
/// A path is well formed when it has at least one segment and generic
/// arguments appear only on its final segment (and are themselves well
/// formed).  Generic arguments on a non-final segment are an unrecoverable
/// input-shape violation, excluded by precondition.
pub open spec fn typath_wf(p: TyPathV) -> bool
    decreases p,
{
    &&& p.segments.len() > 0
    &&& forall|i: int|
        0 <= i < p.segments.len() - 1 ==> (#[trigger] p.segments[i]).args.len() == 0
    &&& forall|i: int|
        0 <= i < p.segments.len() ==> tys_wf((#[trigger] p.segments[i]).args)
}

pub open spec fn tys_wf(s: Seq<TyV>) -> bool
    decreases s,
{
    forall|i: int| 0 <= i < s.len() ==> ty_wf(#[trigger] s[i])
}

pub open spec fn ty_wf(t: TyV) -> bool
    decreases t,
{
    match t {
        TyV::Path(p) => typath_wf(p),
        TyV::Reference { mutable: _, elem } => ty_wf(*elem),
        TyV::Pointer { mutable: _, elem } => ty_wf(*elem),
        TyV::Other => true,
    }
}

pub open spec fn opt_ty_wf(t: Option<TyV>) -> bool {
    match t {
        Option::None => true,
        Option::Some(t0) => ty_wf(t0),
    }
}

// ---------------------------------------------------------------------------
// Name extraction from type paths.
// ---------------------------------------------------------------------------
pub open spec fn seg_idents(s: Seq<TySegmentV>) -> Seq<Seq<char>>
    decreases s,
{
    if s.len() == 0 {
        Seq::empty()
    } else {
        seq![s[0].ident] + seg_idents(s.drop_first())
    }
}

pub broadcast proof fn lemma_seg_idents(s: Seq<TySegmentV>)
    ensures
        (#[trigger] seg_idents(s)).len() == s.len(),
        forall|i: int| 0 <= i < s.len() ==> seg_idents(s)[i] == s[i].ident,
    decreases s,
{
    if s.len() > 0 {
        lemma_seg_idents(s.drop_first());
    }
}

/// The qualified name denoted by a path as the raw generator spells it:
/// a leading `root` segment carries the namespace, a bare path is a name
/// in the root namespace.
pub open spec fn qn_from_raw_path(p: TyPathV) -> QnV
    recommends
        p.segments.len() > 0,
{
    if p.segments.len() > 1 && p.segments[0].ident == "root"@ {
        QnV {
            ns: seg_idents(p.segments.subrange(1, p.segments.len() - 1)),
            id: p.segments.last().ident,
        }
    } else {
        QnV { ns: Seq::empty(), id: p.segments.last().ident }
    }
}

/// The qualified name denoted by an already rewritten (root-stripped) path:
/// all but the last segment form the namespace.
pub open spec fn qn_from_cxx_path(p: TyPathV) -> QnV
    recommends
        p.segments.len() > 0,
{
    QnV { ns: seg_idents(p.segments.drop_last()), id: p.segments.last().ident }
}

// ---------------------------------------------------------------------------
// Declarations.
// ---------------------------------------------------------------------------
pub struct Field {
    pub name: String,
    pub ty: Ty,
}

pub struct StructDecl {
    pub name: String,
    pub fields: Vec<Field>,
}

pub struct EnumDecl {
    pub name: String,
}

pub struct TypedefDecl {
    pub name: String,
    pub target: Ty,
    /// Whether the alias declares lifetime, const or type parameters.
    pub has_generic_params: bool,
}

pub struct FnParam {
    pub name: String,
    pub ty: Ty,
}

pub struct ForeignFn {
    pub name: String,
    pub params: Vec<FnParam>,
    /// `None` models a declaration without a declared return value.
    pub ret: Option<Ty>,
}

pub enum ForeignDecl {
    Fn(ForeignFn),
    /// A declaration kind the engine does not understand.
    Other,
}

pub enum MethodParam {
    Receiver,
    Typed { name: String, ty: Ty },
}

pub struct MethodDecl {
    pub name: String,
    pub params: Vec<MethodParam>,
    pub ret: Option<Ty>,
}

pub struct ImplBlock {
    pub self_ty: Ty,
    pub methods: Vec<MethodDecl>,
}

pub struct ModDecl {
    pub name: String,
    pub content: Option<Vec<Decl>>,
}

pub enum Decl {
    Mod(ModDecl),
    ForeignMod(Vec<ForeignDecl>),
    Struct(StructDecl),
    Enum(EnumDecl),
    Typedef(TypedefDecl),
    Impl(ImplBlock),
    UseDecl,
    ConstDecl,
    Other,
}

pub struct FieldV {
    pub name: Seq<char>,
    pub ty: TyV,
}

pub struct StructDeclV {
    pub name: Seq<char>,
    pub fields: Seq<FieldV>,
}

pub struct TypedefDeclV {
    pub name: Seq<char>,
    pub target: TyV,
    pub has_generic_params: bool,
}

pub struct FnParamV {
    pub name: Seq<char>,
    pub ty: TyV,
}

pub struct ForeignFnV {
    pub name: Seq<char>,
    pub params: Seq<FnParamV>,
    pub ret: Option<TyV>,
}

pub enum ForeignDeclV {
    Fn(ForeignFnV),
    Other,
}

pub enum MethodParamV {
    Receiver,
    Typed { name: Seq<char>, ty: TyV },
}

pub struct MethodDeclV {
    pub name: Seq<char>,
    pub params: Seq<MethodParamV>,
    pub ret: Option<TyV>,
}

pub struct ImplBlockV {
    pub self_ty: TyV,
    pub methods: Seq<MethodDeclV>,
}

pub struct ModDeclV {
    pub name: Seq<char>,
    pub content: Option<Seq<DeclV>>,
}

pub enum DeclV {
    Mod(ModDeclV),
    ForeignMod(Seq<ForeignDeclV>),
    Struct(StructDeclV),
    Enum(Seq<char>),
    Typedef(TypedefDeclV),
    Impl(ImplBlockV),
    UseDecl,
    ConstDecl,
    Other,
}

pub open spec fn field_v(f: Field) -> FieldV {
    FieldV { name: f.name@, ty: ty_v(f.ty) }
}

pub open spec fn fields_v(s: Seq<Field>) -> Seq<FieldV>
    decreases s,
{
    if s.len() == 0 {
        Seq::empty()
    } else {
        seq![field_v(s[0])] + fields_v(s.drop_first())
    }
}

pub open spec fn struct_v(s: StructDecl) -> StructDeclV {
    StructDeclV { name: s.name@, fields: fields_v(s.fields@) }
}

pub open spec fn typedef_v(t: TypedefDecl) -> TypedefDeclV {
    TypedefDeclV {
        name: t.name@,
        target: ty_v(t.target),
        has_generic_params: t.has_generic_params,
    }
}

pub open spec fn fnparam_v(p: FnParam) -> FnParamV {
    FnParamV { name: p.name@, ty: ty_v(p.ty) }
}

pub open spec fn fnparams_v(s: Seq<FnParam>) -> Seq<FnParamV>
    decreases s,
{
    if s.len() == 0 {
        Seq::empty()
    } else {
        seq![fnparam_v(s[0])] + fnparams_v(s.drop_first())
    }
}

pub open spec fn foreignfn_v(f: ForeignFn) -> ForeignFnV {
    ForeignFnV { name: f.name@, params: fnparams_v(f.params@), ret: opt_ty_v(f.ret) }
}

pub open spec fn fdecl_v(d: ForeignDecl) -> ForeignDeclV {
    match d {
        ForeignDecl::Fn(f) => ForeignDeclV::Fn(foreignfn_v(f)),
        ForeignDecl::Other => ForeignDeclV::Other,
    }
}

pub open spec fn fdecls_v(s: Seq<ForeignDecl>) -> Seq<ForeignDeclV>
    decreases s,
{
    if s.len() == 0 {
        Seq::empty()
    } else {
        seq![fdecl_v(s[0])] + fdecls_v(s.drop_first())
    }
}

pub open spec fn mparam_v(p: MethodParam) -> MethodParamV {
    match p {
        MethodParam::Receiver => MethodParamV::Receiver,
        MethodParam::Typed { name, ty } => MethodParamV::Typed { name: name@, ty: ty_v(ty) },
    }
}

pub open spec fn mparams_v(s: Seq<MethodParam>) -> Seq<MethodParamV>
    decreases s,
{
    if s.len() == 0 {
        Seq::empty()
    } else {
        seq![mparam_v(s[0])] + mparams_v(s.drop_first())
    }
}

pub open spec fn method_v(m: MethodDecl) -> MethodDeclV {
    MethodDeclV { name: m.name@, params: mparams_v(m.params@), ret: opt_ty_v(m.ret) }
}

pub open spec fn methods_v(s: Seq<MethodDecl>) -> Seq<MethodDeclV>
    decreases s,
{
    if s.len() == 0 {
        Seq::empty()
    } else {
        seq![method_v(s[0])] + methods_v(s.drop_first())
    }
}

pub open spec fn impl_v(b: ImplBlock) -> ImplBlockV {
    ImplBlockV { self_ty: ty_v(b.self_ty), methods: methods_v(b.methods@) }
}

pub open spec fn decl_v(d: Decl) -> DeclV
    decreases d,
{
    match d {
        Decl::Mod(m) => DeclV::Mod(
            ModDeclV {
                name: m.name@,
                content: match m.content {
                    Option::None => Option::None,
                    Option::Some(items) => Option::Some(decls_v(items@)),
                },
            },
        ),
        Decl::ForeignMod(fs) => DeclV::ForeignMod(fdecls_v(fs@)),
        Decl::Struct(s) => DeclV::Struct(struct_v(s)),
        Decl::Enum(e) => DeclV::Enum(e.name@),
        Decl::Typedef(t) => DeclV::Typedef(typedef_v(t)),
        Decl::Impl(b) => DeclV::Impl(impl_v(b)),
        Decl::UseDecl => DeclV::UseDecl,
        Decl::ConstDecl => DeclV::ConstDecl,
        Decl::Other => DeclV::Other,
    }
}

pub open spec fn decls_v(s: Seq<Decl>) -> Seq<DeclV>
    decreases s,
{
    if s.len() == 0 {
        Seq::empty()
    } else {
        seq![decl_v(s[0])] + decls_v(s.drop_first())
    }
}

pub broadcast proof fn lemma_fields_v(s: Seq<Field>)
    ensures
        (#[trigger] fields_v(s)).len() == s.len(),
        forall|i: int| 0 <= i < s.len() ==> fields_v(s)[i] == field_v(s[i]),
    decreases s,
{
    if s.len() > 0 {
        lemma_fields_v(s.drop_first());
    }
}

pub broadcast proof fn lemma_fnparams_v(s: Seq<FnParam>)
    ensures
        (#[trigger] fnparams_v(s)).len() == s.len(),
        forall|i: int| 0 <= i < s.len() ==> fnparams_v(s)[i] == fnparam_v(s[i]),
    decreases s,
{
    if s.len() > 0 {
        lemma_fnparams_v(s.drop_first());
    }
}

pub broadcast proof fn lemma_fdecls_v(s: Seq<ForeignDecl>)
    ensures
        (#[trigger] fdecls_v(s)).len() == s.len(),
        forall|i: int| 0 <= i < s.len() ==> fdecls_v(s)[i] == fdecl_v(s[i]),
    decreases s,
{
    if s.len() > 0 {
        lemma_fdecls_v(s.drop_first());
    }
}

pub broadcast proof fn lemma_mparams_v(s: Seq<MethodParam>)
    ensures
        (#[trigger] mparams_v(s)).len() == s.len(),
        forall|i: int| 0 <= i < s.len() ==> mparams_v(s)[i] == mparam_v(s[i]),
    decreases s,
{
    if s.len() > 0 {
        lemma_mparams_v(s.drop_first());
    }
}

pub broadcast proof fn lemma_methods_v(s: Seq<MethodDecl>)
    ensures
        (#[trigger] methods_v(s)).len() == s.len(),
        forall|i: int| 0 <= i < s.len() ==> methods_v(s)[i] == method_v(s[i]),
    decreases s,
{
    if s.len() > 0 {
        lemma_methods_v(s.drop_first());
    }
}

pub broadcast proof fn lemma_decls_v(s: Seq<Decl>)
    ensures
        (#[trigger] decls_v(s)).len() == s.len(),
        forall|i: int| 0 <= i < s.len() ==> decls_v(s)[i] == decl_v(s[i]),
    decreases s,
{
    if s.len() > 0 {
        lemma_decls_v(s.drop_first());
    }
}

pub broadcast group group_ast_view_lemmas {
    lemma_tys_v,
    lemma_tysegs_v,
    lemma_fields_v,
    lemma_fnparams_v,
    lemma_fdecls_v,
    lemma_mparams_v,
    lemma_methods_v,
    lemma_decls_v,
}

// ---------------------------------------------------------------------------
// Well-formedness of whole declaration trees.
// ---------------------------------------------------------------------------
pub open spec fn foreignfn_wf(f: ForeignFnV) -> bool {
    &&& forall|i: int| 0 <= i < f.params.len() ==> ty_wf((#[trigger] f.params[i]).ty)
    &&& opt_ty_wf(f.ret)
}

pub open spec fn fdecl_wf(d: ForeignDeclV) -> bool {
    match d {
        ForeignDeclV::Fn(f) => foreignfn_wf(f),
        ForeignDeclV::Other => true,
    }
}

pub open spec fn method_wf(m: MethodDeclV) -> bool {
    &&& forall|i: int|
        0 <= i < m.params.len() ==> match #[trigger] m.params[i] {
            MethodParamV::Receiver => true,
            MethodParamV::Typed { name: _, ty } => ty_wf(ty),
        }
    &&& opt_ty_wf(m.ret)
}

pub open spec fn fdecls_wf(fs: Seq<ForeignDeclV>) -> bool {
    forall|i: int| 0 <= i < fs.len() ==> fdecl_wf(#[trigger] fs[i])
}

pub open spec fn struct_fields_wf(fields: Seq<FieldV>) -> bool {
    forall|i: int| 0 <= i < fields.len() ==> ty_wf((#[trigger] fields[i]).ty)
}

pub open spec fn methods_wf(ms: Seq<MethodDeclV>) -> bool {
    forall|i: int| 0 <= i < ms.len() ==> method_wf(#[trigger] ms[i])
}

pub open spec fn decl_wf(d: DeclV) -> bool
    decreases d,
{
    match d {
        DeclV::Mod(m) => match m.content {
            Option::None => true,
            Option::Some(items) => decls_wf(items),
        },
        DeclV::ForeignMod(fs) => fdecls_wf(fs),
        DeclV::Struct(s) => struct_fields_wf(s.fields),
        DeclV::Enum(_) => true,
        DeclV::Typedef(t) => ty_wf(t.target),
        DeclV::Impl(b) => ty_wf(b.self_ty) && methods_wf(b.methods),
        DeclV::UseDecl => true,
        DeclV::ConstDecl => true,
        DeclV::Other => true,
    }
}

pub open spec fn decls_wf(s: Seq<DeclV>) -> bool
    decreases s,
{
    forall|i: int| 0 <= i < s.len() ==> decl_wf(#[trigger] s[i])
}

// ---------------------------------------------------------------------------
// Cloning of types, preserving views.
// ---------------------------------------------------------------------------
/// Clones a type shape; the clone has the same view.
pub fn clone_ty(t: &Ty) -> (r: Ty)
    ensures
        ty_v(r) == ty_v(*t),
    decreases *t,
{
    match t {
        Ty::Path(p) => Ty::Path(clone_typath(p)),
        Ty::Reference { mutable, elem } => Ty::Reference {
            mutable: *mutable,
            elem: Box::new(clone_ty(&**elem)),
        },
        Ty::Pointer { mutable, elem } => Ty::Pointer {
            mutable: *mutable,
            elem: Box::new(clone_ty(&**elem)),
        },
        Ty::Other => Ty::Other,
    }
}

/// Clones a list of types; the clone has the same view.
pub fn clone_tys(v: &Vec<Ty>) -> (r: Vec<Ty>)
    ensures
        tys_v(r@) == tys_v(v@),
    decreases *v,
{
    broadcast use group_ast_view_lemmas;

    let mut r: Vec<Ty> = Vec::new();
    let n = v.len();
    let mut i: usize = 0;
    while i < n
        invariant
            n == v.len(),
            i <= n,
            r.len() == i,
            forall|j: int| 0 <= j < i ==> ty_v(r@[j]) == ty_v(v@[j]),
        decreases n - i,
    {
        r.push(clone_ty(&v[i]));
        i = i + 1;
    }
    proof {
        assert(tys_v(r@) =~= tys_v(v@));
    }
    r
}

/// Clones one path segment; the clone has the same view.
pub fn clone_tyseg(s: &TySegment) -> (r: TySegment)
    ensures
        tyseg_v(r) == tyseg_v(*s),
    decreases *s,
{
    TySegment { ident: s.ident.clone(), args: clone_tys(&s.args) }
}

/// Clones a type path; the clone has the same view.
pub fn clone_typath(p: &TyPath) -> (r: TyPath)
    ensures
        typath_v(r) == typath_v(*p),
    decreases *p,
{
    broadcast use group_ast_view_lemmas;

    let mut segments: Vec<TySegment> = Vec::new();
    let n = p.segments.len();
    let mut i: usize = 0;
    while i < n
        invariant
            n == p.segments.len(),
            i <= n,
            segments.len() == i,
            forall|j: int| 0 <= j < i ==> tyseg_v(segments@[j]) == tyseg_v(p.segments@[j]),
        decreases n - i,
    {
        segments.push(clone_tyseg(&p.segments[i]));
        i = i + 1;
    }
    proof {
        assert(tysegs_v(segments@) =~= tysegs_v(p.segments@));
    }
    TyPath { segments }
}

// ---------------------------------------------------------------------------
// Executable name extraction.
// ---------------------------------------------------------------------------
/// Extracts the qualified name a raw generator-spelled path denotes.
#[verifier::loop_isolation(false)]
pub fn qn_from_raw_path_exec(p: &TyPath) -> (r: QualifiedName)
    requires
        typath_v(*p).segments.len() > 0,
    ensures
        r@ == qn_from_raw_path(typath_v(*p)),
{
    proof {
        lemma_tysegs_v(p.segments@);
        lemma_seg_idents(typath_v(*p).segments);
    }
    let ghost segsv = typath_v(*p).segments;
    let n = p.segments.len();
    assert(n == segsv.len());
    if n > 1 && str_eq(p.segments[0].ident.as_str(), "root") {
        let mut segs: Vec<String> = Vec::new();
        let mut i: usize = 1;
        while i < n - 1
            invariant
                1 <= i <= n - 1,
                segs@.len() == i - 1,
                forall|j: int| 0 <= j < i - 1 ==> segs@[j]@ == segsv[j + 1].ident,
            decreases n - i,
        {
            segs.push(p.segments[i].ident.clone());
            i = i + 1;
        }
        let id = p.segments[n - 1].ident.clone();
        let r = QualifiedName { ns: Namespace { segments: segs }, id };
        proof {
            lemma_seg_idents(segsv.subrange(1, n - 1 as int));
            assert(r@.ns =~= seg_idents(segsv.subrange(1, n - 1 as int)));
            assert(segsv.last() == tyseg_v(p.segments@[n - 1 as int]));
        }
        r
    } else {
        let id = p.segments[n - 1].ident.clone();
        let r = QualifiedName { ns: Namespace::new(), id };
        proof {
            assert(segsv.last() == tyseg_v(p.segments@[n - 1 as int]));
        }
        r
    }
}

/// Extracts the qualified name of an already rewritten path: all but the
/// last segment form the namespace.
#[verifier::loop_isolation(false)]
pub fn qn_from_cxx_path_exec(p: &TyPath) -> (r: QualifiedName)
    requires
        typath_v(*p).segments.len() > 0,
    ensures
        r@ == qn_from_cxx_path(typath_v(*p)),
{
    proof {
        lemma_tysegs_v(p.segments@);
        lemma_seg_idents(typath_v(*p).segments);
    }
    let ghost segsv = typath_v(*p).segments;
    let n = p.segments.len();
    assert(n == segsv.len());
    let mut segs: Vec<String> = Vec::new();
    let mut i: usize = 0;
    while i < n - 1
        invariant
            0 <= i <= n - 1,
            segs@.len() == i,
            forall|j: int| 0 <= j < i ==> segs@[j]@ == segsv[j].ident,
        decreases n - i,
    {
        segs.push(p.segments[i].ident.clone());
        i = i + 1;
    }
    let id = p.segments[n - 1].ident.clone();
    let r = QualifiedName { ns: Namespace { segments: segs }, id };
    proof {
        lemma_seg_idents(segsv.drop_last());
        assert(segsv.drop_last().len() == n - 1);
        assert(r@.ns =~= seg_idents(segsv.drop_last()));
        assert(segsv.last() == tyseg_v(p.segments@[n - 1 as int]));
    }
    r
}

/// The name a type denotes, for types that are plain, non-empty named
/// paths.
pub open spec fn type_to_typename_spec(t: TyV) -> Option<QnV> {
    match t {
        TyV::Path(p) => if p.segments.len() > 0 {
            Option::Some(qn_from_raw_path(p))
        } else {
            Option::None
        },
        _ => Option::None,
    }
}

/// Extracts the name a type denotes, for plain named path types.
pub fn type_to_typename(t: &Ty) -> (r: Option<QualifiedName>)
    ensures
        match r {
            Option::Some(q) => type_to_typename_spec(ty_v(*t)) == Option::Some(q@),
            Option::None => type_to_typename_spec(ty_v(*t)) == Option::<QnV>::None,
        },
{
    match t {
        Ty::Path(p) => {
            proof {
                lemma_tysegs_v(p.segments@);
            }
            if p.segments.len() > 0 {
                Option::Some(qn_from_raw_path_exec(p))
            } else {
                Option::None
            }
        },
        _ => Option::None,
    }
}

} // verus!
