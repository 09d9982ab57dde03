use bridge_converter::ast::Decl;
use bridge_converter::ast::Field;
use bridge_converter::ast::FnParam;
use bridge_converter::ast::ForeignDecl;
use bridge_converter::ast::ForeignFn;
use bridge_converter::ast::ImplBlock;
use bridge_converter::ast::MethodDecl;
use bridge_converter::ast::MethodParam;
use bridge_converter::ast::ModDecl;
use bridge_converter::ast::StructDecl;
use bridge_converter::ast::Ty;
use bridge_converter::ast::TyPath;
use bridge_converter::ast::TySegment;
use bridge_converter::ast::TypedefDecl;
use bridge_converter::classify::Classification;
use bridge_converter::classify::Classifier;
use bridge_converter::convert::ConvertError;
use bridge_converter::emit::AuxiliaryNeed;
use bridge_converter::emit::BridgeItem;
use bridge_converter::emit::ExternCItem;
use bridge_converter::emit::NamespaceEmission;
use bridge_converter::emit::OutItem;
use bridge_converter::name::Namespace;
use bridge_converter::name::QualifiedName;
use bridge_converter::reexport::build_tree;
use bridge_converter::rvalue::RValueParamHandler;
use bridge_converter::rvalue::UniqueHandle;
use bridge_converter::tyconv::convert_ty_exec;
use bridge_converter::tyconv::TypedefMap;
use bridge_converter::BridgeConverter;

fn s(x: &str) -> String {
    String::from(x)
}

fn seg(id: &str) -> TySegment {
    TySegment { ident: s(id), args: Vec::new() }
}

fn path(ids: &[&str]) -> Ty {
    Ty::Path(TyPath { segments: ids.iter().map(|i| seg(i)).collect() })
}

fn root_ns() -> Namespace {
    Namespace { segments: Vec::new() }
}

fn qn(ids: &[&str], id: &str) -> QualifiedName {
    QualifiedName { ns: Namespace { segments: ids.iter().map(|i| s(i)).collect() }, id: s(id) }
}

fn bindings(items: Vec<Decl>) -> ModDecl {
    ModDecl {
        name: s("ffi"),
        content: Some(vec![Decl::Mod(ModDecl { name: s("root"), content: Some(items) })]),
    }
}

fn run(items: Vec<Decl>) -> bridge_converter::BridgeConversionResults {
    let mut conv = BridgeConverter::new(Vec::new(), Vec::new());
    conv.convert(bindings(items), false).expect("conversion should succeed")
}

fn extern_block(r: &bridge_converter::BridgeConversionResults) -> &Vec<ExternCItem> {
    match r.items.last().expect("bridge module expected") {
        OutItem::BridgeMod { items } => match items.last().expect("foreign block expected") {
            BridgeItem::ExternCBlock { items } => items,
            _ => panic!("last bridge item should be the foreign block"),
        },
        _ => panic!("last output item should be the bridge module"),
    }
}

// Classification: a struct of built-in trivially copyable fields is
// trivial; one pointer field anywhere makes the chain opaque.
#[test]
fn struct_of_builtins_is_trivial() {
    let mut c = Classifier::new();
    c.ingest_pod_type(qn(&[], "u8"));
    c.ingest_struct_deps(qn(&[], "A"), vec![Some(qn(&[], "u8"))]);
    c.ingest_struct_deps(qn(&[], "B"), vec![Some(qn(&[], "A"))]);
    assert!(c.satisfy_requests(&Vec::new()).is_ok());
    assert_eq!(c.classify(&qn(&[], "A")), Classification::Trivial);
    assert_eq!(c.classify(&qn(&[], "B")), Classification::Trivial);
}

#[test]
fn pointer_field_poisons_enclosing_structs() {
    let mut c = Classifier::new();
    c.ingest_pod_type(qn(&[], "u8"));
    // A pointer-bearing field is recorded as an unnamed dependency.
    c.ingest_struct_deps(qn(&[], "A"), vec![Some(qn(&[], "u8")), None]);
    c.ingest_struct_deps(qn(&[], "B"), vec![Some(qn(&[], "A"))]);
    assert!(c.satisfy_requests(&Vec::new()).is_ok());
    assert_eq!(c.classify(&qn(&[], "A")), Classification::Opaque);
    assert_eq!(c.classify(&qn(&[], "B")), Classification::Opaque);
}

// Typedef chains: the head classifies as the terminal does.
#[test]
fn typedef_chain_classifies_as_terminal() {
    let mut c = Classifier::new();
    c.ingest_pod_type(qn(&[], "D"));
    c.ingest_simple_typedef(qn(&[], "C"), qn(&[], "D"));
    c.ingest_simple_typedef(qn(&[], "B"), qn(&[], "C"));
    c.ingest_simple_typedef(qn(&[], "A"), qn(&[], "B"));
    assert!(c.satisfy_requests(&Vec::new()).is_ok());
    assert_eq!(c.classify(&qn(&[], "A")), Classification::Trivial);
    assert_eq!(c.classify(&qn(&[], "D")), Classification::Trivial);
}

#[test]
fn cyclic_typedef_chain_is_rejected_as_opaque() {
    let mut c = Classifier::new();
    c.ingest_simple_typedef(qn(&[], "A"), qn(&[], "B"));
    c.ingest_simple_typedef(qn(&[], "B"), qn(&[], "A"));
    assert!(c.satisfy_requests(&Vec::new()).is_ok());
    assert_eq!(c.classify(&qn(&[], "A")), Classification::Opaque);
    assert_eq!(c.classify(&qn(&[], "B")), Classification::Opaque);
}

// An unsafe trivial request yields exactly one error naming the type; a
// truly trivial request succeeds.
#[test]
fn unsafe_trivial_request_names_offender() {
    let mut c = Classifier::new();
    c.ingest_struct_deps(qn(&["outer"], "Res"), vec![None]);
    let reqs = vec![qn(&["outer"], "Res")];
    let err = c.satisfy_requests(&reqs);
    assert_eq!(err.unwrap_err(), s("outer::Res"));
}

#[test]
fn trivial_request_succeeds() {
    let mut c = Classifier::new();
    c.ingest_pod_type(qn(&[], "E"));
    let reqs = vec![qn(&[], "E")];
    assert!(c.satisfy_requests(&reqs).is_ok());
}

// A pointer parameter of mutability M to element E becomes a reference of
// mutability M to E; the same lowering applies everywhere a type is
// converted, returns included.
#[test]
fn pointer_lowering_to_reference() {
    let td = TypedefMap::new();
    let t = Ty::Pointer { mutable: true, elem: Box::new(path(&["A"])) };
    match convert_ty_exec(&td, &t) {
        Ty::Reference { mutable, elem } => {
            assert!(mutable);
            match *elem {
                Ty::Path(p) => assert_eq!(p.segments[0].ident, s("A")),
                _ => panic!("element should stay a named path"),
            }
        }
        _ => panic!("pointer should lower to a reference"),
    }
    let tc = Ty::Pointer { mutable: false, elem: Box::new(path(&["A"])) };
    assert!(matches!(convert_ty_exec(&td, &tc), Ty::Reference { mutable: false, .. }));
}

#[test]
fn string_view_becomes_borrowed_slice() {
    let td = TypedefMap::new();
    let t = path(&["root", "rust", "Str"]);
    match convert_ty_exec(&td, &t) {
        Ty::Reference { mutable, elem } => {
            assert!(!mutable);
            match *elem {
                Ty::Path(p) => assert_eq!(p.segments[0].ident, s("str")),
                _ => panic!("slice target expected"),
            }
        }
        _ => panic!("string view should become a borrowed slice"),
    }
}

#[test]
fn well_known_spellings_are_replaced() {
    let td = TypedefMap::new();
    match convert_ty_exec(&td, &path(&["std", "unique_ptr"])) {
        Ty::Path(p) => assert_eq!(p.segments[0].ident, s("UniquePtr")),
        _ => panic!("path expected"),
    }
    match convert_ty_exec(&td, &path(&["std", "string"])) {
        Ty::Path(p) => assert_eq!(p.segments[0].ident, s("CxxString")),
        _ => panic!("path expected"),
    }
}

#[test]
fn typedef_target_is_substituted() {
    let mut td = TypedefMap::new();
    td.record(
        qn(&[], "MyAlias"),
        bridge_converter::tyconv::TypedefTarget::AliasTo(qn(&[], "Concrete")),
    );
    match convert_ty_exec(&td, &path(&["root", "MyAlias"])) {
        Ty::Path(p) => assert_eq!(p.segments.last().unwrap().ident, s("Concrete")),
        _ => panic!("path expected"),
    }
}

// A function taking an opaque type by value produces exactly one
// value-crossing shim need; the emitted declaration's visible name equals
// the original name while its target name differs.
#[test]
fn opaque_by_value_produces_one_shim() {
    let items = vec![
        Decl::Struct(StructDecl {
            name: s("Blob"),
            fields: vec![Field { name: s("p"), ty: Ty::Pointer { mutable: false, elem: Box::new(path(&["u8"])) } }],
        }),
        Decl::ForeignMod(vec![ForeignDecl::Fn(ForeignFn {
            name: s("consume"),
            params: vec![FnParam { name: s("b"), ty: path(&["root", "Blob"]) }],
            ret: None,
        })]),
    ];
    let r = run(items);
    let shims: Vec<_> = r
        .additional_cpp_needs
        .iter()
        .filter(|n| matches!(n, AuxiliaryNeed::ValueCrossingShim(_)))
        .collect();
    assert_eq!(shims.len(), 1);
    match shims[0] {
        AuxiliaryNeed::ValueCrossingShim(sd) => {
            assert_eq!(sd.target, s("consume"));
            assert!(!sd.is_a_method);
        }
        _ => unreachable!(),
    }
    let decls = extern_block(&r);
    let fun = decls
        .iter()
        .find_map(|d| match d {
            ExternCItem::Fn(f) if f.name == s("consume_up_wrapper") => Some(f),
            _ => None,
        })
        .expect("wrapped declaration expected");
    assert_eq!(fun.alias.as_ref().unwrap(), &s("consume"));
}

#[test]
fn trivial_by_value_needs_no_shim() {
    let items = vec![
        Decl::Enum(bridge_converter::ast::EnumDecl { name: s("Color") }),
        Decl::ForeignMod(vec![ForeignDecl::Fn(ForeignFn {
            name: s("paint"),
            params: vec![FnParam { name: s("c"), ty: path(&["root", "Color"]) }],
            ret: None,
        })]),
    ];
    let r = run(items);
    assert!(r
        .additional_cpp_needs
        .iter()
        .all(|n| !matches!(n, AuxiliaryNeed::ValueCrossingShim(_))));
    let decls = extern_block(&r);
    assert!(decls.iter().any(|d| matches!(d, ExternCItem::Fn(f) if f.name == s("paint") && f.alias.is_none())));
}

// Constructor- and destructor-pattern functions never appear in the
// emitted set; one allocation method is emitted per constructor block.
#[test]
fn ctor_dtor_removed_and_alloc_method_emitted() {
    let items = vec![
        Decl::Struct(StructDecl { name: s("Bob"), fields: vec![] }),
        Decl::ForeignMod(vec![
            ForeignDecl::Fn(ForeignFn { name: s("Bob_Bob"), params: vec![], ret: None }),
            ForeignDecl::Fn(ForeignFn { name: s("Bob_Bob_destructor"), params: vec![], ret: None }),
        ]),
        Decl::Impl(ImplBlock {
            self_ty: path(&["root", "Bob"]),
            methods: vec![MethodDecl {
                name: s("new"),
                params: vec![MethodParam::Typed { name: s("x"), ty: path(&["u32"]) }],
                ret: Some(path(&["root", "Bob"])),
            }],
        }),
    ];
    let r = run(items);
    let decls = extern_block(&r);
    for d in decls {
        if let ExternCItem::Fn(f) = d {
            assert_ne!(f.name, s("Bob_Bob"));
            assert_ne!(f.name, s("Bob_Bob_destructor"));
        }
    }
    assert!(decls.iter().any(|d| matches!(d, ExternCItem::Fn(f) if f.name == s("Bob_make_unique"))));
    let factories: Vec<_> = r
        .additional_cpp_needs
        .iter()
        .filter(|n| matches!(n, AuxiliaryNeed::AllocationFactory { .. }))
        .collect();
    assert_eq!(factories.len(), 1);
    match factories[0] {
        AuxiliaryNeed::AllocationFactory { ty, arg_types } => {
            assert_eq!(ty.id, s("Bob"));
            assert_eq!(arg_types.len(), 1);
            assert_eq!(arg_types[0].id, s("u32"));
        }
        _ => unreachable!(),
    }
    // The rewritten tree holds exactly one allocation method for Bob,
    // returning a uniquely owned handle.
    fn find_alloc(items: &[OutItem]) -> usize {
        let mut found = 0;
        for it in items {
            match it {
                OutItem::AllocMethodImpl { method, .. } => {
                    assert_eq!(method.target, s("Bob_make_unique"));
                    match &method.ret {
                        Ty::Path(p) => assert_eq!(p.segments[0].ident, s("UniquePtr")),
                        _ => panic!("handle return expected"),
                    }
                    found += 1;
                }
                OutItem::Mod { items, .. } => found += find_alloc(items),
                _ => {}
            }
        }
        found
    }
    assert_eq!(find_alloc(&r.items), 1);
}

// Method names recover their short form; plain methods are not re-exported.
#[test]
fn method_prefix_stripped_and_namespaced() {
    let items = vec![Decl::Mod(ModDecl {
        name: s("outer"),
        content: Some(vec![
            Decl::Struct(StructDecl { name: s("Bob"), fields: vec![] }),
            Decl::ForeignMod(vec![ForeignDecl::Fn(ForeignFn {
                name: s("Bob_frob"),
                params: vec![FnParam {
                    name: s("this"),
                    ty: Ty::Pointer { mutable: true, elem: Box::new(path(&["root", "outer", "Bob"])) },
                }],
                ret: None,
            })]),
        ]),
    })];
    let r = run(items);
    let decls = extern_block(&r);
    let fun = decls
        .iter()
        .find_map(|d| match d {
            ExternCItem::Fn(f) if f.name == s("frob") => Some(f),
            _ => None,
        })
        .expect("stripped method name expected");
    let ns = fun.namespace.as_ref().expect("namespace annotation expected");
    assert_eq!(ns.segments, vec![s("outer")]);
    assert_eq!(fun.params[0].name, s("self"));
}

// The utilities and includes of the foreign block.
#[test]
fn utilities_and_includes() {
    let mut conv = BridgeConverter::new(vec![s("widget.h")], Vec::new());
    let r = conv.convert(bindings(vec![]), false).unwrap();
    let decls = extern_block(&r);
    assert!(matches!(&decls[0], ExternCItem::Fn(f) if f.name == s("make_string")));
    assert!(decls.iter().any(|d| matches!(d, ExternCItem::Include { header } if *header == s("widget.h"))));
    // The utility forces an auxiliary need, so the generated header is
    // included too.
    assert!(decls.iter().any(|d| matches!(d, ExternCItem::Include { header } if *header == s("bridgegen.h"))));
    assert!(matches!(r.additional_cpp_needs[0], AuxiliaryNeed::StringConstructorHelper));

    let mut conv2 = BridgeConverter::new(vec![s("widget.h")], Vec::new());
    let r2 = conv2.convert(bindings(vec![]), true).unwrap();
    assert!(r2.additional_cpp_needs.is_empty());
    let decls2 = extern_block(&r2);
    assert!(!decls2.iter().any(|d| matches!(d, ExternCItem::Include { header } if *header == s("bridgegen.h"))));
}

#[test]
fn no_content_is_reported() {
    let mut conv = BridgeConverter::new(Vec::new(), Vec::new());
    let r = conv.convert(ModDecl { name: s("ffi"), content: None }, false);
    assert!(matches!(r, Err(ConvertError::NoContent)));
}

#[test]
fn unknown_foreign_item_is_reported() {
    let mut conv = BridgeConverter::new(Vec::new(), Vec::new());
    let r = conv.convert(bindings(vec![Decl::ForeignMod(vec![ForeignDecl::Other])]), false);
    assert!(matches!(r, Err(ConvertError::UnknownForeignItem)));
}

#[test]
fn unsafe_request_fails_whole_conversion() {
    let items = vec![Decl::Struct(StructDecl {
        name: s("Res"),
        fields: vec![Field { name: s("h"), ty: Ty::Pointer { mutable: true, elem: Box::new(path(&["u8"])) } }],
    })];
    let mut conv = BridgeConverter::new(Vec::new(), vec![qn(&[], "Res")]);
    match conv.convert(bindings(items), false) {
        Err(ConvertError::UnsafePODType(name)) => assert_eq!(name, s("Res")),
        _ => panic!("the unsafe request must fail the run"),
    }
}

// Re-export tree: "g" directly under "a", "f" under nested "a"->"b", and
// no cross-leakage between siblings.
#[test]
fn reexport_tree_shape() {
    let es = vec![
        NamespaceEmission { ns: Namespace { segments: vec![s("a"), s("b")] }, id: s("f") },
        NamespaceEmission { ns: Namespace { segments: vec![s("a")] }, id: s("g") },
    ];
    let t = build_tree(&es);
    assert!(t.entries.is_empty());
    assert_eq!(t.children.len(), 1);
    let (a_name, a) = &t.children[0];
    assert_eq!(*a_name, s("a"));
    assert_eq!(a.entries, vec![s("g")]);
    assert_eq!(a.children.len(), 1);
    let (b_name, b) = &a.children[0];
    assert_eq!(*b_name, s("b"));
    assert_eq!(b.entries, vec![s("f")]);
    assert!(b.children.is_empty());
}

// The move-parameter protocol.
#[test]
fn populate_then_get_ptr_twice_same_target() {
    let mut h: RValueParamHandler<u64, UniqueHandle<u64>> = RValueParamHandler::new();
    h.populate(UniqueHandle::new(41u64));
    let a = *h.get_ptr();
    let b = *h.get_ptr();
    assert_eq!(a, 41u64);
    assert_eq!(a, b);
}

#[test]
fn finish_runs_cleanup_exactly_when_populated() {
    let h: RValueParamHandler<u64, UniqueHandle<u64>> = RValueParamHandler::default();
    assert!(!h.finish());
    let mut h2: RValueParamHandler<u64, UniqueHandle<u64>> = RValueParamHandler::new();
    h2.populate(UniqueHandle::new(7u64));
    assert!(h2.finish());
}

#[test]
fn null_handle_is_detected() {
    let h: UniqueHandle<u32> = UniqueHandle::null();
    assert!(h.is_null());
    let h2 = UniqueHandle::new(3u32);
    assert!(!h2.is_null());
}

// Generic typedefs are skipped entirely: neither emitted nor recorded.
#[test]
fn generic_typedef_skipped() {
    let items = vec![Decl::Typedef(TypedefDecl {
        name: s("G"),
        target: path(&["root", "A"]),
        has_generic_params: true,
    })];
    let r = run(items);
    fn find_typedef(items: &[OutItem]) -> bool {
        items.iter().any(|it| match it {
            OutItem::Typedef { .. } => true,
            OutItem::Mod { items, .. } => find_typedef(items),
            _ => false,
        })
    }
    assert!(!find_typedef(&r.items));
}

// An opaque struct's emitted binding carries no client-visible layout.
#[test]
fn opaque_struct_has_placeholder_layout() {
    let items = vec![Decl::Struct(StructDecl {
        name: s("Res"),
        fields: vec![Field { name: s("h"), ty: Ty::Pointer { mutable: true, elem: Box::new(path(&["u8"])) } }],
    })];
    let r = run(items);
    fn find_struct(items: &[OutItem]) -> Option<(usize, bool)> {
        for it in items {
            match it {
                OutItem::Struct { fields, opaque_layout, .. } => {
                    return Some((fields.len(), *opaque_layout))
                }
                OutItem::Mod { items, .. } => {
                    if let Some(x) = find_struct(items) {
                        return Some(x);
                    }
                }
                _ => {}
            }
        }
        None
    }
    let (nfields, opaque) = find_struct(&r.items).expect("struct emitted");
    assert!(opaque);
    assert_eq!(nfields, 0);
}
