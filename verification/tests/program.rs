use wasm_bindgen_backend::describe::DescriptorRegistry;
use wasm_bindgen_backend::diagnostic::{Diagnostic, ErrorLocation};
use wasm_bindgen_backend::model::{
    ArgPattern, Argument, Enum, Export, Function, Import, ImportFunction, ImportFunctionKind,
    ImportKind, ImportType, MethodKind, Program, RefInfo, TypeExpr, Variant,
};
use wasm_bindgen_backend::program::{plan_program, EncodedProgram, Step};

fn ty(text: &str) -> TypeExpr {
    TypeExpr { text: text.to_string(), reference: None }
}

fn function(name: &str, ret: Option<TypeExpr>) -> Function {
    Function {
        name: name.to_string(),
        arguments: vec![Argument {
            pat: ArgPattern::Ident { name: "x".to_string(), by_ref: false, has_subpat: false },
            ty: ty("u32"),
        }],
        ret,
        rust_attrs: Vec::new(),
        rust_vis: "pub".to_string(),
    }
}

fn export(name: &str, ret: Option<TypeExpr>) -> Export {
    Export {
        function: function(name, ret),
        method_self: None,
        rust_class: None,
        rust_name: name.to_string(),
        start: false,
        rust_symbol: format!("__wasm_bindgen_generated_{}", name),
        export_name: name.to_string(),
    }
}

fn import_type(name: &str) -> Import {
    Import {
        js_namespace: None,
        kind: ImportKind::Type(ImportType {
            vis: "pub".to_string(),
            rust_name: name.to_string(),
            attrs: Vec::new(),
            doc_comment: None,
            instanceof_shim: format!("__wbg_instanceof_{}", name),
            is_type_of: None,
            extends: Vec::new(),
        }),
    }
}

fn import_function(shim: &str, namespace: Option<&str>, js_ret: Option<TypeExpr>) -> Import {
    Import {
        js_namespace: namespace.map(|n| n.to_string()),
        kind: ImportKind::Function(ImportFunction {
            function: function(shim, None),
            rust_name: shim.to_string(),
            js_ret,
            catch: false,
            kind: ImportFunctionKind::Method {
                ty: ty("Foo"),
                kind: MethodKind::Operation { is_static: true },
            },
            shim: shim.to_string(),
            doc_comment: None,
        }),
    }
}

fn tags(steps: &[Step]) -> Vec<String> {
    steps
        .iter()
        .map(|s| match s {
            Step::Export { index, .. } => format!("export {}", index),
            Step::Struct { index, .. } => format!("struct {}", index),
            Step::ImportDescriptor { index, .. } => format!("describe import {}", index),
            Step::ImportInImpl { index, namespace, .. } => format!("import {} in {}", index, namespace),
            Step::Import { index, .. } => format!("import {}", index),
            Step::Enum { index, .. } => format!("enum {}", index),
            Step::Const { index, .. } => format!("const {}", index),
            Step::Dictionary { index, .. } => format!("dictionary {}", index),
            Step::CustomSection { .. } => "section".to_string(),
        })
        .collect()
}

fn program(exports: Vec<Export>, imports: Vec<Import>) -> Program {
    Program {
        exports,
        imports,
        enums: vec![Enum {
            name: "E".to_string(),
            variants: vec![Variant { name: "A".to_string(), value: 0 }],
            hole: 1,
        }],
        structs: Vec::new(),
        consts: Vec::new(),
        dictionaries: Vec::new(),
    }
}

fn encoded() -> Result<EncodedProgram, Diagnostic> {
    Ok(EncodedProgram { custom_section: vec![1, 2, 3], included_files: vec!["a.js".to_string()] })
}

#[test]
fn program_places_namespace_functions_in_impl() {
    let p = program(
        vec![export("f", None)],
        vec![
            import_type("Foo"),
            import_function("__wbg_bar", Some("Foo"), None),
            import_function("__wbg_baz", Some("Other"), None),
            import_function("__wbg_qux", None, None),
        ],
    );
    let mut reg = DescriptorRegistry::new();
    let mut out = Vec::new();
    let mut counter: usize = 7;
    assert!(plan_program(&p, &mut reg, &mut counter, encoded(), &mut out).is_ok());
    assert_eq!(counter, 8);
    assert_eq!(
        tags(&out),
        vec![
            "export 0",
            "import 0",
            "describe import 1",
            "import 1 in Foo",
            "describe import 2",
            "import 2",
            "describe import 3",
            "import 3",
            "enum 0",
            "section",
        ]
    );
    match out.last().unwrap() {
        Step::CustomSection { static_index, bytes, included_files } => {
            assert_eq!(*static_index, 7);
            assert_eq!(included_files, &vec!["a.js".to_string()]);
            let len = bytes[0] as usize;
            assert_eq!(&bytes[bytes.len() - 3..], &[1, 2, 3]);
            let json = std::str::from_utf8(&bytes[4..4 + len]).unwrap();
            assert!(json.starts_with(r#"{"schema_version":"0.2.47","version":"0.2.47"#));
            assert_eq!(bytes.len(), 4 + len + 3);
        }
        _ => panic!("the custom section comes last"),
    }
    // a second program with the same names emits no descriptor twice
    let mut out2 = Vec::new();
    assert!(plan_program(&p, &mut reg, &mut counter, encoded(), &mut out2).is_ok());
    assert_eq!(counter, 9);
    assert!(!tags(&out2).iter().any(|t| t.starts_with("describe")));
    match &out2[0] {
        Step::Export { plan, .. } => assert!(plan.descriptor.is_none()),
        _ => panic!("the export comes first"),
    }
}

#[test]
fn program_collects_errors_in_order() {
    let borrowed = TypeExpr {
        text: "&str".to_string(),
        reference: Some(RefInfo { mutable: false, elem: "str".to_string() }),
    };
    let p = program(
        vec![export("ok", None), export("bad", Some(borrowed.clone()))],
        vec![import_function("__wbg_bad", None, Some(borrowed)), import_function("__wbg_good", None, None)],
    );
    let mut reg = DescriptorRegistry::new();
    let mut out = Vec::new();
    let mut counter: usize = 3;
    let r = plan_program(&p, &mut reg, &mut counter, encoded(), &mut out);
    // a failing program draws no number for its static
    assert_eq!(counter, 3);
    match r {
        Err(Diagnostic::Multi { diagnostics }) => {
            let messages: Vec<String> = diagnostics
                .iter()
                .map(|d| match d {
                    Diagnostic::Error { message, .. } => message.clone(),
                    _ => panic!("single errors"),
                })
                .collect();
            assert_eq!(
                messages,
                vec![
                    "cannot return a borrowed ref with #[wasm_bindgen]",
                    "cannot return references in #[wasm_bindgen] imports yet",
                ]
            );
            let locations: Vec<ErrorLocation> = diagnostics
                .iter()
                .map(|d| match d {
                    Diagnostic::Error { location, .. } => *location,
                    _ => panic!("single errors"),
                })
                .collect();
            assert_eq!(locations, vec![ErrorLocation::ExportReturn, ErrorLocation::ImportReturn]);
        }
        _ => panic!("expected the errors together"),
    }
    // the items that succeeded were still generated, the section was not
    assert_eq!(
        tags(&out),
        vec!["export 0", "describe import 0", "describe import 1", "import 1", "enum 0"]
    );
}

#[test]
fn program_reports_encoding_error() {
    let p = program(vec![export("f", None)], Vec::new());
    let mut reg = DescriptorRegistry::new();
    let mut out = Vec::new();
    let mut counter: usize = usize::MAX;
    let r = plan_program(&p, &mut reg, &mut counter, Err(Diagnostic::error("encoding failed")), &mut out);
    // the number is drawn before the encoding is needed, and wraps
    assert_eq!(counter, 0);
    match r {
        Err(Diagnostic::Error { message, .. }) => assert_eq!(message, "encoding failed"),
        _ => panic!("expected the encoding error"),
    }
    assert_eq!(tags(&out), vec!["export 0", "enum 0"]);
}

#[test]
fn program_keeps_earlier_output() {
    let p = program(Vec::new(), Vec::new());
    let mut reg = DescriptorRegistry::new();
    let mut out = Vec::new();
    let mut counter: usize = 0;
    assert!(plan_program(&p, &mut reg, &mut counter, encoded(), &mut out).is_ok());
    assert!(plan_program(&p, &mut reg, &mut counter, encoded(), &mut out).is_ok());
    assert_eq!(counter, 2);
    assert_eq!(tags(&out), vec!["enum 0", "section", "enum 0", "section"]);
}
