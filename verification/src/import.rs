//! Imports: the Rust items generated for JS functions, classes and string
//! enumerations imported into Rust.

use vstd::prelude::*;
use crate::describe::{
    self, DescriptorEmit, DescriptorRegistry, arg_type_texts, descriptor_symbol,
    function_descriptor, ret_type_text, steps_view,
};
use crate::diagnostic::{Diagnostic, ErrorLocation};
use crate::export::returns_reference;
use crate::model::{
    ArgPattern, Argument, Import, ImportEnum, ImportFunction, ImportFunctionKind, ImportKind,
    ImportType, MethodKind,
};
use crate::lookup::{distinct, first_index, lemma_first_index};
use crate::text::{decimal, decimal_string};

verus! {

/// The error for an argument bound by a pattern other than a plain identifier
/// or `_`.
pub open spec fn unsupported_pattern_message() -> Seq<char> {
    "unsupported pattern in #[wasm_bindgen] imported function"@
}

/// The error for an import that returns a reference.
pub open spec fn reference_return_message() -> Seq<char> {
    "cannot return references in #[wasm_bindgen] imports yet"@
}

/// The import is a method called on an instance: a non-static operation of a class.
pub open spec fn is_instance_method(f: ImportFunction) -> bool {
    f.kind matches ImportFunctionKind::Method { kind: MethodKind::Operation { is_static }, .. }
        && !is_static
}

/// The name an argument gets, or `None` when its pattern is not supported: a
/// plain identifier keeps its name (`mut` is allowed, `ref` and `@` are not),
/// `_` becomes `__genarg_` and the argument's position.
pub open spec fn import_arg_name(pat: ArgPattern, i: nat) -> Option<Seq<char>> {
    match pat {
        ArgPattern::Ident { name, by_ref, has_subpat } => if !by_ref && !has_subpat {
            Some(name@)
        } else {
            None
        },
        ArgPattern::Wild => Some("__genarg_"@ + decimal(i)),
        ArgPattern::Other => None,
    }
}

/// Every argument's pattern is supported.
pub open spec fn patterns_supported(args: Seq<Argument>) -> bool {
    forall|i: int| 0 <= i < args.len() ==> (#[trigger] import_arg_name(args[i].pat, i as nat)) is Some
}

/// The position of the first argument whose pattern is not supported, or the
/// number of arguments when every pattern is.
pub open spec fn first_unsupported(args: Seq<Argument>) -> int
    decreases args.len(),
{
    if args.len() == 0 {
        0
    } else {
        let r = first_unsupported(args.drop_last());
        if r < args.len() - 1 {
            r
        } else if import_arg_name(args.last().pat, (args.len() - 1) as nat) is None {
            args.len() - 1
        } else {
            args.len() as int
        }
    }
}

/// `first_unsupported` is the least position whose pattern is not supported.
pub proof fn lemma_first_unsupported(args: Seq<Argument>)
    ensures
        0 <= first_unsupported(args) <= args.len(),
        forall|k: int| 0 <= k < first_unsupported(args) ==> (#[trigger] import_arg_name(args[k].pat, k as nat)) is Some,
        first_unsupported(args) < args.len() ==> import_arg_name(
            args[first_unsupported(args)].pat,
            first_unsupported(args) as nat,
        ) is None,
        first_unsupported(args) == args.len() <==> patterns_supported(args),
    decreases args.len(),
{
    if args.len() > 0 {
        let init = args.drop_last();
        lemma_first_unsupported(init);
        assert forall|k: int| 0 <= k < init.len() implies init[k] == args[k] by {}
        if patterns_supported(args) {
            assert forall|k: int| 0 <= k < init.len() implies (#[trigger] import_arg_name(init[k].pat, k as nat)) is Some by {
                assert(import_arg_name(args[k].pat, k as nat) is Some);
            }
        }
    }
}

/// The first position whose pattern is not supported is `i` when every
/// earlier pattern is supported and the one at `i` is not.
pub proof fn lemma_first_unsupported_at(args: Seq<Argument>, i: int)
    requires
        0 <= i < args.len(),
        forall|k: int| 0 <= k < i ==> (#[trigger] import_arg_name(args[k].pat, k as nat)) is Some,
        import_arg_name(args[i].pat, i as nat) is None,
    ensures
        first_unsupported(args) == i,
{
    lemma_first_unsupported(args);
    let r = first_unsupported(args);
    if r < i {
        assert(import_arg_name(args[r].pat, r as nat) is Some);
    }
    if r > i {
        assert(import_arg_name(args[i].pat, i as nat) is Some);
    }
}

/// One argument of an imported function.
#[derive(Debug)]
pub struct ImportArg {
    /// Its name in the generated function and as an ABI argument.
    pub name: String,
    /// Source text of its type.
    pub ty: String,
    /// It is the receiver: the generated method takes `&self` in its place.
    pub is_self: bool,
}

/// What the Rust function for an imported JS function is made of.
#[derive(Debug)]
pub struct ImportFunctionPlan {
    /// It is a method on an instance (`&self`).
    pub is_method: bool,
    /// The type it is defined on, for methods and static methods of a class.
    pub class_ty: Option<String>,
    pub args: Vec<ImportArg>,
    /// Names of the arguments of the raw ABI import, in order: every argument,
    /// then `exn_data_ptr` when exceptions are caught.
    pub abi_arg_names: Vec<String>,
    /// The type JS returns, converted back through `FromWasmAbi`.
    pub js_ret: Option<String>,
    /// Exceptions are caught: the result is wrapped in `Ok` and a thrown
    /// exception comes back as `Err`.
    pub catch: bool,
    /// The doc comment, empty when there is none.
    pub doc_comment: String,
}

/// The arguments of the plan are those of the function with their supported names.
pub open spec fn import_args_ok(plan: Seq<ImportArg>, args: Seq<Argument>, is_method: bool) -> bool {
    &&& plan.len() == args.len()
    &&& forall|i: int|
        0 <= i < args.len() ==> {
            &&& Some((#[trigger] plan[i]).name@) == import_arg_name(args[i].pat, i as nat)
            &&& plan[i].ty@ == args[i].ty.text@
            &&& plan[i].is_self == (i == 0 && is_method)
        }
}

/// The names of the raw import's arguments.
pub open spec fn abi_names(plan: Seq<ImportArg>, catch: bool) -> Seq<Seq<char>> {
    let names = plan.map_values(|a: ImportArg| a.name@);
    if catch {
        names.push("exn_data_ptr"@)
    } else {
        names
    }
}

/// The text of an optional doc comment, empty when there is none.
pub open spec fn doc_text(doc: Option<String>) -> Seq<char> {
    match doc {
        Some(d) => d@,
        None => Seq::empty(),
    }
}

/// The plan of the function for an imported JS function follows the import:
/// its receiver, class, arguments with their supported names, the raw
/// import's arguments, the returned type and the catching of exceptions.
pub open spec fn import_function_plan_ok(f: ImportFunction, plan: ImportFunctionPlan) -> bool {
    &&& plan.is_method == is_instance_method(f)
    &&& (f.kind matches ImportFunctionKind::Method { ty, .. } ==> (plan.class_ty matches Some(c)
        && c@ == ty.text@))
    &&& (f.kind is Normal ==> plan.class_ty is None)
    &&& import_args_ok(plan.args@, f.function.arguments@, plan.is_method)
    &&& plan.abi_arg_names@.map_values(|n: String| n@) == abi_names(plan.args@, f.catch)
    &&& (plan.js_ret is Some <==> f.js_ret is Some)
    &&& (f.js_ret matches Some(t) ==> (plan.js_ret matches Some(j) && j@ == t.text@))
    &&& plan.catch == f.catch
    &&& plan.doc_comment@ == doc_text(f.doc_comment)
}

fn doc_string(doc: &Option<String>) -> (r: String)
    ensures
        r@ == doc_text(*doc),
{
    match doc {
        Some(d) => d.clone(),
        None => String::new(),
    }
}

fn arg_name(pat: &ArgPattern, i: usize) -> (r: Option<String>)
    ensures
        r is Some <==> import_arg_name(*pat, i as nat) is Some,
        r matches Some(n) ==> Some(n@) == import_arg_name(*pat, i as nat),
{
    match pat {
        ArgPattern::Ident { name, by_ref, has_subpat } => {
            if !*by_ref && !*has_subpat {
                Some(name.clone())
            } else {
                None
            }
        },
        ArgPattern::Wild => {
            let mut r = String::from_str("__genarg_");
            let n = decimal_string(i as u64);
            r.append(n.as_str());
            Some(r)
        },
        ArgPattern::Other => None,
    }
}

/// Plans the function generated for an imported JS function. An argument
/// bound by an unsupported pattern is refused first, then a returned
/// reference; otherwise the plan follows the import's signature.
pub fn plan_import_function(f: &ImportFunction) -> (r: Result<ImportFunctionPlan, Diagnostic>)
    ensures
        !patterns_supported(f.function.arguments@) ==> (r matches Err(d) && d == (
        Diagnostic::Error {
            message: d->message,
            location: ErrorLocation::ImportArgument {
                index: first_unsupported(f.function.arguments@) as usize,
            },
        }) && d->message@ == unsupported_pattern_message()),
        patterns_supported(f.function.arguments@) && returns_reference(f.js_ret) ==> (r matches Err(
            d,
        ) && d == (Diagnostic::Error { message: d->message, location: ErrorLocation::ImportReturn })
            && d->message@ == reference_return_message()),
        patterns_supported(f.function.arguments@) && !returns_reference(f.js_ret)
            ==> (r matches Ok(plan) && import_function_plan_ok(*f, plan)),
        r matches Ok(plan) ==> (plan.class_ty is Some <==> f.kind is Method) && (f.kind matches ImportFunctionKind::Method { ty, .. }
            ==> (plan.class_ty matches Some(c) && c@ == ty.text@)),
{
    let mut is_method = false;
    let mut class_ty: Option<String> = None;
    match &f.kind {
        ImportFunctionKind::Method { ty, kind } => {
            if let MethodKind::Operation { is_static } = kind {
                if !*is_static {
                    is_method = true;
                }
            }
            class_ty = Some(ty.text.clone());
        },
        ImportFunctionKind::Normal => {},
    }
    assert(is_method == is_instance_method(*f));
    let arguments = &f.function.arguments;
    let mut args: Vec<ImportArg> = Vec::new();
    let mut abi_arg_names: Vec<String> = Vec::new();
    let mut i: usize = 0;
    while i < arguments.len()
        invariant
            0 <= i <= arguments@.len(),
            arguments == &f.function.arguments,
            import_args_ok(args@, arguments@.take(i as int), is_method),
            abi_arg_names@.map_values(|n: String| n@) == abi_names(args@, false),
            forall|k: int| 0 <= k < i ==> (#[trigger] import_arg_name(arguments@[k].pat, k as nat)) is Some,
        decreases arguments@.len() - i,
    {
        let name = match arg_name(&arguments[i].pat, i) {
            Some(n) => n,
            None => {
                assert(import_arg_name(arguments@[i as int].pat, i as nat) is None);
                assert(!patterns_supported(f.function.arguments@)) by {
                    if patterns_supported(f.function.arguments@) {
                        let ii: int = i as int;
                        assert(import_arg_name(f.function.arguments@[ii].pat, ii as nat) is Some);
                    }
                }
                proof {
                    lemma_first_unsupported_at(f.function.arguments@, i as int);
                }
                return Err(
                    Diagnostic::spanned_error(
                        ErrorLocation::ImportArgument { index: i },
                        "unsupported pattern in #[wasm_bindgen] imported function",
                    ),
                );
            },
        };
        let ghost nm = name@;
        let ghost before_abi = abi_arg_names@;
        abi_arg_names.push(name.clone());
        let ghost before = args@;
        args.push(ImportArg { name, ty: arguments[i].ty.text.clone(), is_self: i == 0 && is_method });
        i = i + 1;
        assert(import_args_ok(args@, arguments@.take(i as int), is_method)) by {
            assert forall|k: int| 0 <= k < i implies {
                &&& Some((#[trigger] args@[k]).name@) == import_arg_name(arguments@.take(i as int)[k].pat, k as nat)
                &&& args@[k].ty@ == arguments@.take(i as int)[k].ty.text@
                &&& args@[k].is_self == (k == 0 && is_method)
            } by {
                if k < i - 1 {
                    assert(arguments@.take(i as int)[k] == arguments@.take(i - 1)[k]);
                    assert(args@[k] == before[k]);
                }
            }
        }
        assert(abi_arg_names@.map_values(|n: String| n@) =~= before_abi.map_values(|n: String| n@).push(nm));
        assert(args@.map_values(|a: ImportArg| a.name@) =~= before.map_values(|a: ImportArg| a.name@).push(nm));
        assert(abi_arg_names@.map_values(|n: String| n@) =~= abi_names(args@, false));
    }
    assert(arguments@.take(arguments@.len() as int) =~= arguments@);
    assert(patterns_supported(f.function.arguments@));
    if let Some(t) = &f.js_ret {
        if t.reference.is_some() {
            return Err(
                Diagnostic::spanned_error(
                    ErrorLocation::ImportReturn,
                    "cannot return references in #[wasm_bindgen] imports yet",
                ),
            );
        }
    }
    if f.catch {
        abi_arg_names.push(String::from_str("exn_data_ptr"));
        assert(abi_arg_names@.map_values(|n: String| n@) =~= abi_names(args@, true));
    }
    let js_ret = match &f.js_ret {
        Some(t) => Some(t.text.clone()),
        None => None,
    };
    Ok(ImportFunctionPlan {
        is_method,
        class_ty,
        args,
        abi_arg_names,
        js_ret,
        catch: f.catch,
        doc_comment: doc_string(&f.doc_comment),
    })
}


/// The descriptor of an imported function: named by its shim, it describes
/// the arguments and the type JS returns.
pub open spec fn import_descriptor_ok(f: ImportFunction, e: DescriptorEmit) -> bool {
    &&& e.symbol@ == descriptor_symbol(f.shim@)
    &&& steps_view(e.steps@) == function_descriptor(
        arg_type_texts(f.function.arguments@),
        ret_type_text(f.js_ret),
    )
}

/// Plans the descriptor of an import. Only imported functions have one; it is
/// named by the function's shim and describes the arguments and the type JS
/// returns. It is emitted unless one of the same name was emitted before.
pub fn plan_describe_import(kind: &ImportKind, registry: &mut DescriptorRegistry) -> (r: Option<
    DescriptorEmit,
>)
    ensures
        !(kind is Function) ==> r is None && final(registry)@ == old(registry)@,
        kind matches ImportKind::Function(f) ==> {
            &&& (r is Some <==> !old(registry)@.contains(f.shim@))
            &&& final(registry)@ == old(registry)@.insert(f.shim@)
            &&& (r matches Some(e) ==> import_descriptor_ok(*f, e))
        },
{
    match kind {
        ImportKind::Function(f) => {
            let steps = describe::function_descriptor_steps(&f.function.arguments, &f.js_ret);
            describe::describe_shim(registry, &f.shim, steps)
        },
        ImportKind::Static(_) => None,
        ImportKind::Type(_) => None,
        ImportKind::Enum(_) => None,
    }
}

/// What the Rust type for an imported JS class is made of.
#[derive(Debug)]
pub struct ImportTypePlan {
    /// Name of the constant that scopes the type's trait impls.
    pub const_name: String,
    /// The type the new type wraps and dereferences to: its nearest
    /// superclass, or `wasm_bindgen::JsValue` when it has none.
    pub internal_obj: String,
    /// The doc comment, empty when there is none.
    pub doc_comment: String,
    /// The superclasses, each of which gets a `From` and an `AsRef` impl.
    pub superclasses: Vec<String>,
}

/// The name of the constant that scopes an imported type's impls.
pub open spec fn type_const_name(rust_name: Seq<char>) -> Seq<char> {
    "__wbg_generated_const_"@ + rust_name
}

/// The type an imported type wraps.
pub open spec fn internal_obj(extends: Seq<String>) -> Seq<char> {
    if extends.len() > 0 {
        extends[0]@
    } else {
        "wasm_bindgen::JsValue"@
    }
}

/// The plan of the type for an imported JS class follows the import.
pub open spec fn import_type_plan_ok(t: ImportType, r: ImportTypePlan) -> bool {
    &&& r.const_name@ == type_const_name(t.rust_name@)
    &&& r.internal_obj@ == internal_obj(t.extends@)
    &&& r.doc_comment@ == doc_text(t.doc_comment)
    &&& r.superclasses@.map_values(|s: String| s@) == t.extends@.map_values(|s: String| s@)
}

/// Plans the type generated for an imported JS class.
pub fn plan_import_type(t: &ImportType) -> (r: ImportTypePlan)
    ensures
        import_type_plan_ok(*t, r),
{
    let mut const_name = String::from_str("__wbg_generated_const_");
    const_name.append(t.rust_name.as_str());
    let internal_obj = if t.extends.len() > 0 {
        t.extends[0].clone()
    } else {
        String::from_str("wasm_bindgen::JsValue")
    };
    let mut superclasses: Vec<String> = Vec::new();
    let mut i: usize = 0;
    while i < t.extends.len()
        invariant
            0 <= i <= t.extends@.len(),
            superclasses@.len() == i,
            forall|k: int| 0 <= k < i ==> (#[trigger] superclasses@[k])@ == t.extends@[k]@,
        decreases t.extends@.len() - i,
    {
        superclasses.push(t.extends[i].clone());
        i = i + 1;
    }
    assert(superclasses@.map_values(|s: String| s@) =~= t.extends@.map_values(|s: String| s@));
    ImportTypePlan { const_name, internal_obj, doc_comment: doc_string(&t.doc_comment), superclasses }
}

/// What the Rust enum for an imported JS string enumeration is made of.
#[derive(Debug)]
pub struct ImportEnumPlan {
    /// The discriminant literal of each variant: its position, in decimal.
    pub variant_indexes: Vec<String>,
    /// The panic message for converting the hidden non-exhaustive variant.
    pub expect_string: String,
}

/// The panic message for converting an invalid value of an imported enum.
pub open spec fn invalid_enum_message(name: Seq<char>) -> Seq<char> {
    "attempted to convert invalid "@ + name + " into JSValue"@
}

/// The plan of the enum for an imported string enumeration: variants
/// numbered from zero in order, and the message naming the enum.
pub open spec fn import_enum_plan_ok(e: ImportEnum, r: ImportEnumPlan) -> bool {
    &&& r.variant_indexes@.len() == e.variants@.len()
    &&& forall|i: int| 0 <= i < e.variants@.len() ==> (#[trigger] r.variant_indexes@[i])@ == decimal(i as nat)
    &&& r.expect_string@ == invalid_enum_message(e.name@)
}

/// Plans the enum generated for an imported JS string enumeration: variants
/// are numbered from zero in order.
pub fn plan_import_enum(e: &ImportEnum) -> (r: ImportEnumPlan)
    ensures
        import_enum_plan_ok(*e, r),
{
    let mut expect_string = String::from_str("attempted to convert invalid ");
    expect_string.append(e.name.as_str());
    expect_string.append(" into JSValue");
    let mut variant_indexes: Vec<String> = Vec::new();
    let mut i: usize = 0;
    while i < e.variants.len()
        invariant
            0 <= i <= e.variants@.len(),
            variant_indexes@.len() == i,
            forall|k: int| 0 <= k < i ==> (#[trigger] variant_indexes@[k])@ == decimal(k as nat),
        decreases e.variants@.len() - i,
    {
        variant_indexes.push(decimal_string(i as u64));
        i = i + 1;
    }
    ImportEnumPlan { variant_indexes, expect_string }
}

/// What `from_js_value` of a generated string enum gives for a JS string: the
/// first variant (in order) whose value is that string, or none.
pub open spec fn enum_from_js_str(values: Seq<Seq<char>>, s: Seq<char>) -> Option<int> {
    first_index(values, s)
}

/// Converting a variant of a generated string enum to its JS string and back
/// gives the same variant, provided the variants' strings are distinct; and a
/// string that is no variant's value converts to none.
pub proof fn lemma_import_enum_roundtrip(values: Seq<Seq<char>>, i: int, s: Seq<char>)
    requires
        distinct(values),
    ensures
        0 <= i < values.len() ==> enum_from_js_str(values, values[i]) == Some(i),
        (forall|k: int| 0 <= k < values.len() ==> values[k] != s) ==> enum_from_js_str(values, s) is None,
{
    lemma_first_index(values, i, s);
}

/// The error an imported function is refused with: an unsupported argument
/// pattern is found before a returned reference.
pub open spec fn import_function_error(f: ImportFunction) -> Seq<char> {
    if !patterns_supported(f.function.arguments@) {
        unsupported_pattern_message()
    } else {
        reference_return_message()
    }
}

/// The part of an imported function that its error points at: the first
/// argument with an unsupported pattern, else the returned type.
pub open spec fn import_function_error_location(f: ImportFunction) -> ErrorLocation {
    if !patterns_supported(f.function.arguments@) {
        ErrorLocation::ImportArgument { index: first_unsupported(f.function.arguments@) as usize }
    } else {
        ErrorLocation::ImportReturn
    }
}

/// The plan for one import.
#[derive(Debug)]
pub enum ImportKindPlan {
    Function(ImportFunctionPlan),
    /// A static is emitted as it is.
    Static,
    Type(ImportTypePlan),
    Enum(ImportEnumPlan),
}

/// The plan for an import is of the import's kind and follows it.
pub open spec fn import_kind_plan_ok(kind: ImportKind, plan: ImportKindPlan) -> bool {
    match (kind, plan) {
        (ImportKind::Function(f), ImportKindPlan::Function(p)) => import_function_plan_ok(f, p),
        (ImportKind::Static(_), ImportKindPlan::Static) => true,
        (ImportKind::Type(t), ImportKindPlan::Type(p)) => import_type_plan_ok(t, p),
        (ImportKind::Enum(e), ImportKindPlan::Enum(p)) => import_enum_plan_ok(e, p),
        _ => false,
    }
}

/// Plans the item generated for an import of any kind. Only functions can be
/// refused.
pub fn plan_import_kind(kind: &ImportKind) -> (r: Result<ImportKindPlan, Diagnostic>)
    ensures
        kind matches ImportKind::Function(f) ==> (r is Ok <==> patterns_supported(
            f.function.arguments@,
        ) && !returns_reference(f.js_ret)),
        r matches Err(d) ==> (kind matches ImportKind::Function(f) && d is Error && d->message@
            == import_function_error(*f) && d->location == import_function_error_location(*f)),
        !(kind is Function) ==> r is Ok,
        r matches Ok(plan) ==> import_kind_plan_ok(*kind, plan),
{
    match kind {
        ImportKind::Function(f) => {
            let p = plan_import_function(f)?;
            Ok(ImportKindPlan::Function(p))
        },
        ImportKind::Static(_) => Ok(ImportKindPlan::Static),
        ImportKind::Type(t) => Ok(ImportKindPlan::Type(plan_import_type(t))),
        ImportKind::Enum(e) => Ok(ImportKindPlan::Enum(plan_import_enum(e))),
    }
}

/// The function for an imported JS function is placed in an `impl` of the
/// class exactly when the import is a method of a class (a constructor, a
/// static or an instance method), and then in that class's `impl`; it takes
/// `&self` only as a method of a class; it has one argument per argument of
/// the import, only the first of which can stand for `self`, and the raw
/// import takes one more argument exactly when exceptions are caught.
pub proof fn lemma_import_function_plan_follows_import(f: ImportFunction, plan: ImportFunctionPlan)
    requires
        import_function_plan_ok(f, plan),
    ensures
        plan.class_ty is Some <==> f.kind is Method,
        f.kind matches ImportFunctionKind::Method { ty, .. } ==> (plan.class_ty matches Some(c) && c@
            == ty.text@),
        plan.is_method ==> plan.class_ty is Some,
        plan.args@.len() == f.function.arguments@.len(),
        plan.abi_arg_names@.len() == f.function.arguments@.len() + (if f.catch { 1int } else { 0int }),
        forall|i: int| 0 <= i < plan.args@.len() && (#[trigger] plan.args@[i]).is_self ==> i == 0 && plan.is_method,
        plan.catch == f.catch,
{
    assert(plan.abi_arg_names@.map_values(|n: String| n@).len() == plan.abi_arg_names@.len());
    assert forall|i: int| 0 <= i < plan.args@.len() && (#[trigger] plan.args@[i]).is_self implies i == 0
        && plan.is_method by {
        assert(plan.args@[i].is_self == (i == 0 && plan.is_method));
    }
}

} // verus!
