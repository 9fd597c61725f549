use wasm_bindgen_backend::constant::{plan_const, ConstValuePlan};
use wasm_bindgen_backend::describe::{
    describe_shim, function_descriptor_steps, DescribeStep, DescribeTag, DescriptorRegistry,
};
use wasm_bindgen_backend::diagnostic::{Diagnostic, ErrorLocation};
use wasm_bindgen_backend::dictionary::plan_dictionary;
use wasm_bindgen_backend::enums::plan_enum;
use wasm_bindgen_backend::export::{plan_export, ArgAbi, Receiver};
use wasm_bindgen_backend::import::{
    plan_describe_import, plan_import_enum, plan_import_function, plan_import_kind,
    plan_import_type, ImportKindPlan,
};
use wasm_bindgen_backend::model::{
    ArgPattern, Argument, Const, ConstValue, Dictionary, DictionaryField, Enum, Export, Function,
    ImportEnum, ImportFunction, ImportFunctionKind, ImportKind, ImportStatic, ImportType,
    MethodKind, MethodSelf, RefInfo, Struct, StructField, TypeExpr, Variant,
};
use wasm_bindgen_backend::respan::respan_spans;
use wasm_bindgen_backend::section::{
    current_prefix_json, custom_section, generated_static_name, prefix_json,
};
use wasm_bindgen_backend::structs::{plan_struct, plan_struct_field};
use wasm_bindgen_backend::text::decimal_string;

fn ty(text: &str) -> TypeExpr {
    TypeExpr { text: text.to_string(), reference: None }
}

fn ref_ty(mutable: bool, elem: &str) -> TypeExpr {
    let text = if mutable { format!("&mut {}", elem) } else { format!("&{}", elem) };
    TypeExpr { text, reference: Some(RefInfo { mutable, elem: elem.to_string() }) }
}

fn named(name: &str, t: TypeExpr) -> Argument {
    Argument {
        pat: ArgPattern::Ident { name: name.to_string(), by_ref: false, has_subpat: false },
        ty: t,
    }
}

fn function(name: &str, arguments: Vec<Argument>, ret: Option<TypeExpr>) -> Function {
    Function {
        name: name.to_string(),
        arguments,
        ret,
        rust_attrs: Vec::new(),
        rust_vis: "pub".to_string(),
    }
}

fn export(
    name: &str,
    arguments: Vec<Argument>,
    ret: Option<TypeExpr>,
    method_self: Option<MethodSelf>,
    rust_class: Option<&str>,
) -> Export {
    Export {
        function: function(name, arguments, ret),
        method_self,
        rust_class: rust_class.map(|c| c.to_string()),
        rust_name: name.to_string(),
        start: false,
        rust_symbol: format!("__wasm_bindgen_generated_{}", name),
        export_name: name.to_string(),
    }
}

fn import_fn(shim: &str, arguments: Vec<Argument>, js_ret: Option<TypeExpr>) -> ImportFunction {
    ImportFunction {
        function: function(shim, arguments, js_ret.as_ref().map(|t| ty(&t.text))),
        rust_name: shim.to_string(),
        js_ret,
        catch: false,
        kind: ImportFunctionKind::Normal,
        shim: shim.to_string(),
        doc_comment: None,
    }
}

fn words(steps: &[DescribeStep]) -> Vec<String> {
    steps
        .iter()
        .map(|s| match s {
            DescribeStep::Inform(t) => format!("{:?}", t),
            DescribeStep::Word(w) => w.to_string(),
            DescribeStep::DescribeType(t) => format!("<{}>", t),
        })
        .collect()
}

fn location(d: &Diagnostic) -> ErrorLocation {
    match d {
        Diagnostic::Error { location, .. } => *location,
        Diagnostic::Multi { .. } => panic!("expected a single error"),
    }
}

fn message(d: &Diagnostic) -> String {
    match d {
        Diagnostic::Error { message, .. } => message.clone(),
        Diagnostic::Multi { .. } => panic!("expected a single error"),
    }
}

#[test]
fn decimal_renders_like_display() {
    assert_eq!(decimal_string(0), "0");
    assert_eq!(decimal_string(7), "7");
    assert_eq!(decimal_string(10), "10");
    assert_eq!(decimal_string(12345), "12345");
    assert_eq!(decimal_string(u64::MAX), u64::MAX.to_string());
}

#[test]
fn prefix_json_names_both_versions() {
    assert_eq!(prefix_json("7", "0.2.47"), r#"{"schema_version":"7","version":"0.2.47"}"#);
    let current = current_prefix_json();
    assert!(current.starts_with(r#"{"schema_version":"0.2.47","version":"0.2.47"#));
    assert!(current.ends_with(r#""}"#));
}

#[test]
fn custom_section_is_length_prefixed() {
    assert_eq!(custom_section("ab", &[1, 2]), vec![2, 0, 0, 0, b'a', b'b', 1, 2]);
    let long = "x".repeat(300);
    let bytes = custom_section(&long, &[]);
    assert_eq!(&bytes[..4], &[44, 1, 0, 0]);
    assert_eq!(bytes.len(), 304);
    // the length counts UTF-8 bytes, not characters
    let bytes = custom_section("é", &[9]);
    assert_eq!(bytes, vec![2, 0, 0, 0, 0xc3, 0xa9, 9]);
}

#[test]
fn custom_section_reads_back() {
    let prefix = current_prefix_json();
    let program = vec![5u8, 6, 7];
    let bytes = custom_section(&prefix, &program);
    let len = u32::from_le_bytes([bytes[0], bytes[1], bytes[2], bytes[3]]) as usize;
    assert_eq!(len, prefix.len());
    assert_eq!(&bytes[4..4 + len], prefix.as_bytes());
    assert_eq!(&bytes[4 + len..], &program[..]);
}

#[test]
fn static_name_has_prefix() {
    assert_eq!(generated_static_name("00ff"), "__WASM_BINDGEN_GENERATED_00ff");
}

#[test]
fn descriptor_emitted_once_per_name() {
    let mut reg = DescriptorRegistry::new();
    let name = "foo".to_string();
    assert!(!reg.contains(&name));
    assert!(reg.claim(&name));
    assert!(reg.contains(&name));
    assert!(!reg.claim(&name));
    let other = "bar".to_string();
    let e = describe_shim(&mut reg, &other, vec![DescribeStep::Word(3)]).unwrap();
    assert_eq!(e.symbol, "__wbindgen_describe_bar");
    assert_eq!(words(&e.steps), vec!["3"]);
    assert!(describe_shim(&mut reg, &other, Vec::new()).is_none());
    assert!(describe_shim(&mut reg, &name, Vec::new()).is_none());
}

#[test]
fn function_descriptor_lists_args_then_return() {
    let args = vec![named("a", ty("u32")), named("b", ref_ty(false, "str"))];
    let steps = function_descriptor_steps(&args, &None);
    assert_eq!(words(&steps), vec!["Function", "0", "2", "<u32>", "<&str>", "<()>"]);
    let steps = function_descriptor_steps(&Vec::new(), &Some(ty("String")));
    assert_eq!(words(&steps), vec!["Function", "0", "0", "<String>"]);
}

#[test]
fn export_method_names_args_after_receiver() {
    let e = export(
        "set",
        vec![named("x", ty("u32")), named("y", ref_ty(true, "Vec<u8>")), named("z", ref_ty(false, "str"))],
        Some(ty("bool")),
        Some(MethodSelf::RefMutable),
        Some("Counter"),
    );
    let mut reg = DescriptorRegistry::new();
    let plan = plan_export(&e, &mut reg).unwrap();
    assert!(plan.takes_me);
    assert_eq!(plan.receiver, Receiver::RefMutable);
    let idents: Vec<&str> = plan.args.iter().map(|a| a.ident.as_str()).collect();
    assert_eq!(idents, vec!["arg1", "arg2", "arg3"]);
    let abis: Vec<ArgAbi> = plan.args.iter().map(|a| a.abi).collect();
    assert_eq!(abis, vec![ArgAbi::Value, ArgAbi::RefMut, ArgAbi::Ref]);
    let convs: Vec<&str> = plan.args.iter().map(|a| a.conv_ty.as_str()).collect();
    assert_eq!(convs, vec!["u32", "Vec<u8>", "str"]);
    assert_eq!(plan.ret_ty, "bool");
    let d = plan.descriptor.unwrap();
    assert_eq!(d.symbol, "__wbindgen_describe_set");
    assert_eq!(words(&d.steps), vec!["Function", "0", "3", "<u32>", "<&mut Vec<u8>>", "<&str>", "<bool>"]);
    // the same export name again gets no second descriptor
    let plan = plan_export(&e, &mut reg).unwrap();
    assert!(plan.descriptor.is_none());
}

#[test]
fn export_free_and_associated_functions() {
    let mut reg = DescriptorRegistry::new();
    let free = export("f", vec![named("a", ty("u8"))], None, None, None);
    let plan = plan_export(&free, &mut reg).unwrap();
    assert!(!plan.takes_me);
    assert_eq!(plan.receiver, Receiver::Free);
    assert_eq!(plan.args[0].ident, "arg0");
    assert_eq!(plan.ret_ty, "()");
    let assoc = export("new", Vec::new(), Some(ty("Foo")), None, Some("Foo"));
    assert_eq!(plan_export(&assoc, &mut reg).unwrap().receiver, Receiver::Associated);
    let by_value = export("into", Vec::new(), None, Some(MethodSelf::ByValue), Some("Foo"));
    assert_eq!(plan_export(&by_value, &mut reg).unwrap().receiver, Receiver::ByValue);
    let shared = export("get", Vec::new(), None, Some(MethodSelf::RefShared), Some("Foo"));
    assert_eq!(plan_export(&shared, &mut reg).unwrap().receiver, Receiver::RefShared);
}

#[test]
fn export_many_args_have_distinct_names() {
    let args: Vec<Argument> = (0..12).map(|i| named(&format!("a{}", i), ty("u32"))).collect();
    let e = export("wide", args, None, None, None);
    let mut reg = DescriptorRegistry::new();
    let plan = plan_export(&e, &mut reg).unwrap();
    let idents: Vec<String> = plan.args.iter().map(|a| a.ident.clone()).collect();
    assert_eq!(idents[10], "arg10");
    assert_eq!(idents[11], "arg11");
    let mut sorted = idents.clone();
    sorted.sort();
    sorted.dedup();
    assert_eq!(sorted.len(), 12);
    assert!(!idents.contains(&"me".to_string()));
}

#[test]
fn export_returning_reference_is_refused() {
    let e = export("borrow", Vec::new(), Some(ref_ty(false, "str")), None, None);
    let mut reg = DescriptorRegistry::new();
    let err = plan_export(&e, &mut reg).err().unwrap();
    assert_eq!(message(&err), "cannot return a borrowed ref with #[wasm_bindgen]");
    assert_eq!(location(&err), ErrorLocation::ExportReturn);
    assert!(!reg.contains(&"borrow".to_string()));
}

#[test]
fn import_function_argument_names() {
    let mut f = import_fn(
        "__wbg_f",
        vec![
            named("x", ty("u32")),
            Argument { pat: ArgPattern::Wild, ty: ty("f64") },
            Argument { pat: ArgPattern::Wild, ty: ty("bool") },
        ],
        Some(ty("JsValue")),
    );
    f.catch = true;
    f.doc_comment = Some("docs".to_string());
    let plan = plan_import_function(&f).unwrap();
    assert!(!plan.is_method);
    assert!(plan.class_ty.is_none());
    let names: Vec<&str> = plan.args.iter().map(|a| a.name.as_str()).collect();
    assert_eq!(names, vec!["x", "__genarg_1", "__genarg_2"]);
    assert_eq!(plan.abi_arg_names, vec!["x", "__genarg_1", "__genarg_2", "exn_data_ptr"]);
    assert_eq!(plan.js_ret.as_deref(), Some("JsValue"));
    assert!(plan.catch);
    assert_eq!(plan.doc_comment, "docs");
}

#[test]
fn import_method_takes_self_first() {
    let mut f = import_fn("__wbg_len", vec![named("this", ty("&Foo")), named("n", ty("u32"))], None);
    f.kind = ImportFunctionKind::Method {
        ty: ty("Foo"),
        kind: MethodKind::Operation { is_static: false },
    };
    let plan = plan_import_function(&f).unwrap();
    assert!(plan.is_method);
    assert_eq!(plan.class_ty.as_deref(), Some("Foo"));
    let selfs: Vec<bool> = plan.args.iter().map(|a| a.is_self).collect();
    assert_eq!(selfs, vec![true, false]);
    assert_eq!(plan.abi_arg_names, vec!["this", "n"]);
    assert!(plan.js_ret.is_none());
    assert_eq!(plan.doc_comment, "");
    f.kind = ImportFunctionKind::Method { ty: ty("Foo"), kind: MethodKind::Operation { is_static: true } };
    let plan = plan_import_function(&f).unwrap();
    assert!(!plan.is_method);
    assert!(plan.args.iter().all(|a| !a.is_self));
    f.kind = ImportFunctionKind::Method { ty: ty("Foo"), kind: MethodKind::Constructor };
    assert!(!plan_import_function(&f).unwrap().is_method);
}

#[test]
fn import_unsupported_pattern_is_refused() {
    let f = import_fn("__wbg_g", vec![Argument { pat: ArgPattern::Other, ty: ty("(u8, u8)") }], None);
    let err = plan_import_function(&f).err().unwrap();
    assert_eq!(message(&err), "unsupported pattern in #[wasm_bindgen] imported function");
    assert_eq!(location(&err), ErrorLocation::ImportArgument { index: 0 });
    let by_ref = Argument {
        pat: ArgPattern::Ident { name: "x".to_string(), by_ref: true, has_subpat: false },
        ty: ty("u8"),
    };
    let f = import_fn("__wbg_h", vec![by_ref], Some(ref_ty(false, "str")));
    // the pattern is checked before the return type
    let err = plan_import_function(&f).err().unwrap();
    assert_eq!(message(&err), "unsupported pattern in #[wasm_bindgen] imported function");
    assert_eq!(location(&err), ErrorLocation::ImportArgument { index: 0 });
    // the error points at the first unsupported pattern
    let sub = Argument {
        pat: ArgPattern::Ident { name: "y".to_string(), by_ref: false, has_subpat: true },
        ty: ty("u8"),
    };
    let f = import_fn(
        "__wbg_i",
        vec![named("x", ty("u8")), sub, Argument { pat: ArgPattern::Other, ty: ty("(u8, u8)") }],
        None,
    );
    let err = plan_import_function(&f).err().unwrap();
    assert_eq!(location(&err), ErrorLocation::ImportArgument { index: 1 });
}

#[test]
fn import_returning_reference_is_refused() {
    let f = import_fn("__wbg_r", vec![named("x", ty("u8"))], Some(ref_ty(false, "str")));
    let err = plan_import_function(&f).err().unwrap();
    assert_eq!(message(&err), "cannot return references in #[wasm_bindgen] imports yet");
    assert_eq!(location(&err), ErrorLocation::ImportReturn);
    assert!(plan_import_kind(&ImportKind::Function(f)).is_err());
}

#[test]
fn import_descriptor_only_for_functions() {
    let mut reg = DescriptorRegistry::new();
    let f = import_fn("__wbg_d", vec![named("x", ty("u8"))], None);
    let d = plan_describe_import(&ImportKind::Function(f), &mut reg).unwrap();
    assert_eq!(d.symbol, "__wbindgen_describe___wbg_d");
    assert_eq!(words(&d.steps), vec!["Function", "0", "1", "<u8>", "<()>"]);
    let s = ImportStatic {
        vis: "pub".to_string(),
        ty: ty("JsValue"),
        shim: "__wbg_static".to_string(),
        rust_name: "WINDOW".to_string(),
    };
    assert!(plan_describe_import(&ImportKind::Static(s), &mut reg).is_none());
    assert!(!reg.contains(&"__wbg_static".to_string()));
}

#[test]
fn import_type_wraps_nearest_superclass() {
    let mut t = ImportType {
        vis: "pub".to_string(),
        rust_name: "Element".to_string(),
        attrs: Vec::new(),
        doc_comment: None,
        instanceof_shim: "__wbg_instanceof_Element".to_string(),
        is_type_of: None,
        extends: Vec::new(),
    };
    let plan = plan_import_type(&t);
    assert_eq!(plan.const_name, "__wbg_generated_const_Element");
    assert_eq!(plan.internal_obj, "wasm_bindgen::JsValue");
    assert!(plan.superclasses.is_empty());
    t.extends = vec!["Node".to_string(), "EventTarget".to_string()];
    let plan = plan_import_type(&t);
    assert_eq!(plan.internal_obj, "Node");
    assert_eq!(plan.superclasses, vec!["Node", "EventTarget"]);
}

#[test]
fn import_enum_numbers_variants() {
    let e = ImportEnum {
        vis: "pub".to_string(),
        name: "Mode".to_string(),
        variants: vec!["Open".to_string(), "Closed".to_string()],
        variant_values: vec!["open".to_string(), "closed".to_string()],
        rust_attrs: Vec::new(),
    };
    let plan = plan_import_enum(&e);
    assert_eq!(plan.variant_indexes, vec!["0", "1"]);
    assert_eq!(plan.expect_string, "attempted to convert invalid Mode into JSValue");
    assert!(matches!(plan_import_kind(&ImportKind::Enum(e)), Ok(ImportKindPlan::Enum(_))));
}

#[test]
fn struct_descriptor_and_function_names() {
    let s = Struct {
        rust_name: "Foo".to_string(),
        js_name: "Foo".to_string(),
        fields: vec![
            StructField {
                name: "a".to_string(),
                struct_name: "Foo".to_string(),
                readonly: false,
                ty: ty("u32"),
                getter: "__wbg_get_foo_a".to_string(),
                setter: "__wbg_set_foo_a".to_string(),
            },
            StructField {
                name: "b".to_string(),
                struct_name: "Foo".to_string(),
                readonly: true,
                ty: ty("f64"),
                getter: "__wbg_get_foo_b".to_string(),
                setter: "__wbg_set_foo_b".to_string(),
            },
        ],
    };
    let mut reg = DescriptorRegistry::new();
    let plan = plan_struct(&s, &mut reg);
    assert_eq!(words(&plan.describe), vec!["RustStruct", "3", "70", "111", "111"]);
    assert_eq!(plan.new_fn, "__wbg_foo_new");
    assert_eq!(plan.free_fn, "__wbg_foo_free");
    assert!(plan.fields[0].has_setter);
    assert!(!plan.fields[1].has_setter);
    let g = plan.fields[1].getter_descriptor.as_ref().unwrap();
    assert_eq!(g.symbol, "__wbindgen_describe___wbg_get_foo_b");
    assert_eq!(words(&g.steps), vec!["<f64>"]);
    // the getters were claimed
    assert!(plan_struct_field(&s.fields[0], &mut reg).getter_descriptor.is_none());
}

#[test]
fn struct_name_length_counts_bytes() {
    let s = Struct { rust_name: "E".to_string(), js_name: "Été".to_string(), fields: Vec::new() };
    let mut reg = DescriptorRegistry::new();
    let plan = plan_struct(&s, &mut reg);
    assert_eq!(words(&plan.describe), vec!["RustStruct", "5", "201", "116", "233"]);
    assert_eq!(plan.new_fn, "__wbg_été_new");
}

#[test]
fn exported_enum_describes_hole() {
    let e = Enum {
        name: "Color".to_string(),
        variants: vec![
            Variant { name: "Red".to_string(), value: 0 },
            Variant { name: "Green".to_string(), value: 5 },
        ],
        hole: 6,
    };
    let plan = plan_enum(&e);
    assert_eq!(words(&plan.describe), vec!["Enum", "6"]);
    assert_eq!(plan.cast_order, vec!["Red", "Green"]);
}

fn constant(value: ConstValue, class: Option<&str>) -> Const {
    Const {
        vis: "pub".to_string(),
        name: "C".to_string(),
        class: class.map(|c| c.to_string()),
        ty: ty("f64"),
        value,
    }
}

fn text(plan: ConstValuePlan) -> String {
    match plan {
        ConstValuePlan::Text(t) => t,
        ConstValuePlan::FiniteFloat { .. } => panic!("expected text"),
    }
}

#[test]
fn const_literals() {
    assert_eq!(text(plan_const(&constant(ConstValue::Boolean(true), None)).value), "true");
    assert_eq!(text(plan_const(&constant(ConstValue::Boolean(false), None)).value), "false");
    assert_eq!(text(plan_const(&constant(ConstValue::Signed(-5), None)).value), "-5i64");
    assert_eq!(text(plan_const(&constant(ConstValue::Signed(i64::MIN), None)).value), "-9223372036854775808i64");
    assert_eq!(text(plan_const(&constant(ConstValue::Signed(42), None)).value), "42i64");
    assert_eq!(text(plan_const(&constant(ConstValue::Unsigned(7), None)).value), "7u64");
    assert!(plan_const(&constant(ConstValue::Unsigned(7), Some("Foo"))).in_impl);
    assert!(!plan_const(&constant(ConstValue::Unsigned(7), None)).in_impl);
}

#[test]
fn const_floats() {
    let f = |x: f64| text(plan_const(&constant(ConstValue::Float { bits: x.to_bits() }, None)).value);
    assert_eq!(f(f64::INFINITY), "1.0 / 0.0");
    assert_eq!(f(f64::NEG_INFINITY), "-1.0 / 0.0");
    assert_eq!(f(f64::NAN), "0.0 / 0.0");
    assert_eq!(f(-f64::NAN), "0.0 / 0.0");
    let finite = plan_const(&constant(ConstValue::Float { bits: 1.5f64.to_bits() }, None)).value;
    assert!(matches!(finite, ConstValuePlan::FiniteFloat { bits } if bits == 1.5f64.to_bits()));
    let max = plan_const(&constant(ConstValue::Float { bits: f64::MAX.to_bits() }, None)).value;
    assert!(matches!(max, ConstValuePlan::FiniteFloat { .. }));
}

#[test]
fn dictionary_constructor_takes_required_fields() {
    let field = |name: &str, required: bool| DictionaryField {
        rust_name: name.to_string(),
        js_name: name.to_string(),
        required,
        ty: ty("u32"),
        doc_comment: None,
    };
    let d = Dictionary {
        name: "Options".to_string(),
        fields: vec![field("a", true), field("b", false), field("c", true)],
        ctor: true,
        doc_comment: Some("doc".to_string()),
        ctor_doc_comment: None,
    };
    let plan = plan_dictionary(&d);
    assert_eq!(plan.required, vec![0, 2]);
    assert_eq!(plan.ctor_doc.as_deref(), Some(""));
    assert_eq!(plan.doc_comment, "doc");
    assert_eq!(plan.field_docs, vec!["", "", ""]);
    assert_eq!(plan.const_name, "_CONST_Options");
    let no_ctor = Dictionary { ctor: false, ..d };
    assert!(plan_dictionary(&no_ctor).ctor_doc.is_none());
}

#[test]
fn respan_first_and_last() {
    assert_eq!(respan_spans(4, &vec![1u32, 2, 3], 0), vec![1, 3, 3, 3]);
    assert_eq!(respan_spans(2, &vec![7u32], 0), vec![7, 7]);
    assert_eq!(respan_spans(3, &Vec::<u32>::new(), 9), vec![9, 9, 9]);
    assert!(respan_spans(0, &vec![1u32], 0).is_empty());
}

#[test]
fn from_vec_collects() {
    assert!(Diagnostic::from_vec(Vec::new()).is_ok());
    let r = Diagnostic::from_vec(vec![Diagnostic::error("a"), Diagnostic::error("b")]);
    match r {
        Err(Diagnostic::Multi { diagnostics }) => {
            let m: Vec<String> = diagnostics.iter().map(message).collect();
            assert_eq!(m, vec!["a", "b"]);
        }
        _ => panic!("expected the errors together"),
    }
}

#[test]
fn fits_on_impl_only_functions() {
    assert!(ImportKind::Function(import_fn("f", Vec::new(), None)).fits_on_impl());
    let s = ImportStatic {
        vis: String::new(),
        ty: ty("JsValue"),
        shim: "s".to_string(),
        rust_name: "S".to_string(),
    };
    assert!(!ImportKind::Static(s).fits_on_impl());
}
