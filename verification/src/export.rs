//! Exports: the shim a JS caller invokes for an exported Rust function. The
//! shim takes every argument in its ABI form, converts it back (borrowing for
//! reference arguments), calls the function (on `me`, the converted receiver,
//! for methods), and converts the result for return.

use vstd::prelude::*;
use crate::describe::{
    self, DescribeStep, DescriptorEmit, DescriptorRegistry, arg_type_texts, descriptor_symbol,
    function_descriptor, ret_type_text, steps_view,
};
use crate::diagnostic::{Diagnostic, ErrorLocation};
use crate::model::{Argument, Export, MethodSelf, TypeExpr};
use crate::text::{decimal, decimal_string, lemma_decimal_injective, lemma_decimal_len};

verus! {

/// How an argument crosses the ABI.
#[derive(PartialEq, Eq, Structural, Clone, Copy, Debug)]
pub enum ArgAbi {
    /// `&mut T`: through `RefMutFromWasmAbi` on `T`.
    RefMut,
    /// `&T`: through `RefFromWasmAbi` on `T`.
    Ref,
    /// Any other type: through `FromWasmAbi` on the type.
    Value,
}

/// How the shim calls the exported function.
#[derive(PartialEq, Eq, Structural, Clone, Copy, Debug)]
pub enum Receiver {
    /// `me.name(..)`, `me` converted by value.
    ByValue,
    /// `me.name(..)`, `me` borrowed mutably.
    RefMutable,
    /// `me.name(..)`, `me` borrowed shared.
    RefShared,
    /// `Class::name(..)`
    Associated,
    /// `name(..)`
    Free,
}

/// One argument of the shim.
#[derive(Debug)]
pub struct ExportArg {
    /// The shim's name for it.
    pub ident: String,
    pub abi: ArgAbi,
    /// The type the conversion trait is taken on: the referent for a
    /// reference, else the type itself.
    pub conv_ty: String,
}

/// What the shim of an export is made of.
#[derive(Debug)]
pub struct ExportPlan {
    /// The shim takes the receiver `me: u32` before the arguments.
    pub takes_me: bool,
    pub receiver: Receiver,
    pub args: Vec<ExportArg>,
    /// Source text of the returned type, `()` when the function returns nothing.
    pub ret_ty: String,
    /// A start function: the shim checks at compile time that it returns `()`.
    pub start_check: bool,
    /// The descriptor of the shim, unless one of its name was emitted before.
    pub descriptor: Option<DescriptorEmit>,
}

/// The error for an export that returns a reference.
pub open spec fn borrowed_return_message() -> Seq<char> {
    "cannot return a borrowed ref with #[wasm_bindgen]"@
}

/// The shim's name for argument `i` when the receiver comes first (`offset` 1)
/// or not (`offset` 0).
pub open spec fn export_arg_ident(i: nat, offset: nat) -> Seq<char> {
    "arg"@ + decimal(i + offset)
}

/// How a value of type `ty` crosses the ABI.
pub open spec fn arg_abi(ty: TypeExpr) -> ArgAbi {
    match ty.reference {
        Some(r) => if r.mutable { ArgAbi::RefMut } else { ArgAbi::Ref },
        None => ArgAbi::Value,
    }
}

/// The type that the conversion of a value of type `ty` is taken on.
pub open spec fn conv_ty(ty: TypeExpr) -> Seq<char> {
    match ty.reference {
        Some(r) => r.elem@,
        None => ty.text@,
    }
}

/// How the shim calls the function.
pub open spec fn receiver_of(method_self: Option<MethodSelf>, rust_class: Option<String>) -> Receiver {
    match method_self {
        Some(MethodSelf::ByValue) => Receiver::ByValue,
        Some(MethodSelf::RefMutable) => Receiver::RefMutable,
        Some(MethodSelf::RefShared) => Receiver::RefShared,
        None => if rust_class is Some { Receiver::Associated } else { Receiver::Free },
    }
}

/// The export returns a reference, which a shim cannot hand to JS.
pub open spec fn returns_reference(ret: Option<TypeExpr>) -> bool {
    ret matches Some(t) && t.reference is Some
}

/// The arguments of the shim are those of the function, in order, each named
/// by its position (shifted by one after a receiver) and converted as its
/// type says.
pub open spec fn export_args_ok(plan_args: Seq<ExportArg>, args: Seq<Argument>, offset: nat) -> bool {
    &&& plan_args.len() == args.len()
    &&& forall|i: int|
        0 <= i < args.len() ==> {
            &&& (#[trigger] plan_args[i]).ident@ == export_arg_ident(i as nat, offset)
            &&& plan_args[i].abi == arg_abi(args[i].ty)
            &&& plan_args[i].conv_ty@ == conv_ty(args[i].ty)
        }
}

/// The plan of an export's shim, given the descriptors emitted before: the
/// receiver, arguments and return type follow the export's signature, and the
/// descriptor, named by the export name, is there unless one of that name was
/// emitted before.
pub open spec fn export_plan_ok(export: Export, emitted: Set<Seq<char>>, plan: ExportPlan) -> bool {
    let offset: nat = if export.method_self is Some { 1 } else { 0 };
    &&& plan.takes_me == export.method_self is Some
    &&& plan.receiver == receiver_of(export.method_self, export.rust_class)
    &&& export_args_ok(plan.args@, export.function.arguments@, offset)
    &&& plan.ret_ty@ == ret_type_text(export.function.ret)
    &&& plan.start_check == export.start
    &&& (plan.descriptor is Some <==> !emitted.contains(export.export_name@))
    &&& (plan.descriptor matches Some(e) ==> e.symbol@ == descriptor_symbol(export.export_name@)
        && steps_view(e.steps@) == function_descriptor(
        arg_type_texts(export.function.arguments@),
        ret_type_text(export.function.ret),
    ))
}

fn arg_ident(i: usize, offset: usize) -> (r: String)
    requires
        i + offset <= usize::MAX,
    ensures
        r@ == export_arg_ident(i as nat, offset as nat),
{
    let mut r = String::from_str("arg");
    let n = decimal_string((i + offset) as u64);
    r.append(n.as_str());
    r
}

fn plan_arg(ty: &TypeExpr) -> (r: (ArgAbi, String))
    ensures
        r.0 == arg_abi(*ty),
        r.1@ == conv_ty(*ty),
{
    match &ty.reference {
        Some(info) => {
            if info.mutable {
                (ArgAbi::RefMut, info.elem.clone())
            } else {
                (ArgAbi::Ref, info.elem.clone())
            }
        },
        None => (ArgAbi::Value, ty.text.clone()),
    }
}

/// Plans the shim of an export. An export that returns a reference is refused
/// with an error, before anything is emitted; otherwise the shim's receiver,
/// arguments and return type follow the export's signature, and its
/// descriptor (named by the export name) is emitted unless it was before.
pub fn plan_export(export: &Export, registry: &mut DescriptorRegistry) -> (r: Result<
    ExportPlan,
    Diagnostic,
>)
    requires
        export.method_self is Some ==> export.rust_class is Some,
    ensures
        returns_reference(export.function.ret) ==> {
            &&& (r matches Err(d) && d == (Diagnostic::Error {
                message: d->message,
                location: ErrorLocation::ExportReturn,
            }) && d->message@ == borrowed_return_message())
            &&& final(registry)@ == old(registry)@
        },
        !returns_reference(export.function.ret) ==> (r matches Ok(plan) && export_plan_ok(
            *export,
            old(registry)@,
            plan,
        )),
        r matches Ok(plan) ==> plan.start_check == export.start && plan.takes_me == export.method_self is Some
            && plan.args@.len() == export.function.arguments@.len(),
        !returns_reference(export.function.ret) ==> final(registry)@ == old(registry)@.insert(
            export.export_name@,
        ),
{
    let takes_me = export.method_self.is_some();
    let offset: usize = if takes_me { 1 } else { 0 };
    let receiver = match &export.method_self {
        Some(MethodSelf::ByValue) => Receiver::ByValue,
        Some(MethodSelf::RefMutable) => Receiver::RefMutable,
        Some(MethodSelf::RefShared) => Receiver::RefShared,
        None => if export.rust_class.is_some() { Receiver::Associated } else { Receiver::Free },
    };
    let arguments = &export.function.arguments;
    let mut args: Vec<ExportArg> = Vec::new();
    let mut i: usize = 0;
    while i < arguments.len()
        invariant
            0 <= i <= arguments@.len(),
            offset <= 1,
            offset == (if export.method_self is Some { 1nat } else { 0nat }),
            arguments == &export.function.arguments,
            export_args_ok(args@, arguments@.take(i as int), offset as nat),
        decreases arguments@.len() - i,
    {
        let (abi, conv) = plan_arg(&arguments[i].ty);
        let ident = arg_ident(i, offset);
        args.push(ExportArg { ident, abi, conv_ty: conv });
        i = i + 1;
        assert(export_args_ok(args@, arguments@.take(i as int), offset as nat)) by {
            assert forall|k: int| 0 <= k < i implies {
                &&& (#[trigger] args@[k]).ident@ == export_arg_ident(k as nat, offset as nat)
                &&& args@[k].abi == arg_abi(arguments@.take(i as int)[k].ty)
                &&& args@[k].conv_ty@ == conv_ty(arguments@.take(i as int)[k].ty)
            } by {
                if k < i - 1 {
                    assert(arguments@.take(i as int)[k] == arguments@.take(i - 1)[k]);
                }
            }
        }
    }
    assert(arguments@.take(arguments@.len() as int) =~= arguments@);
    if let Some(ret) = &export.function.ret {
        if ret.reference.is_some() {
            return Err(
                Diagnostic::spanned_error(
                    ErrorLocation::ExportReturn,
                    "cannot return a borrowed ref with #[wasm_bindgen]",
                ),
            );
        }
    }
    let ret_ty = match &export.function.ret {
        Some(t) => t.text.clone(),
        None => String::from_str("()"),
    };
    let steps = describe::function_descriptor_steps(arguments, &export.function.ret);
    let descriptor = describe::describe_shim(registry, &export.export_name, steps);
    Ok(ExportPlan { takes_me, receiver, args, ret_ty, start_check: export.start, descriptor })
}


/// The shim's arguments have pairwise distinct names, none of which is the
/// receiver's name `me`.
pub proof fn lemma_export_arg_idents_distinct(i: nat, j: nat, offset: nat)
    ensures
        i != j ==> export_arg_ident(i, offset) != export_arg_ident(j, offset),
        export_arg_ident(i, offset) != "me"@,
{
    reveal_strlit("arg");
    reveal_strlit("me");
    if i != j && export_arg_ident(i, offset) == export_arg_ident(j, offset) {
        let a = export_arg_ident(i, offset);
        let b = export_arg_ident(j, offset);
        assert(a.subrange(3, a.len() as int) =~= decimal(i + offset));
        assert(b.subrange(3, b.len() as int) =~= decimal(j + offset));
        lemma_decimal_injective(i + offset, j + offset);
    }
    lemma_decimal_len(i + offset);
    assert(export_arg_ident(i, offset).len() != "me"@.len());
}

/// The shim of an export follows the export's signature: it carries the
/// start check exactly when the export is a start function, takes the
/// receiver exactly when the export is a method, takes one argument per
/// argument of the function, each by value exactly when its type is not a
/// reference, calls a free function exactly when the export has neither
/// receiver nor class, and has its descriptor exactly when none of the
/// export's name was emitted before.
pub proof fn lemma_export_plan_follows_signature(export: Export, emitted: Set<Seq<char>>, plan: ExportPlan)
    requires
        export_plan_ok(export, emitted, plan),
    ensures
        plan.start_check == export.start,
        plan.takes_me == export.method_self is Some,
        plan.args@.len() == export.function.arguments@.len(),
        forall|i: int| 0 <= i < plan.args@.len() ==> ((#[trigger] plan.args@[i]).abi == ArgAbi::Value
            <==> export.function.arguments@[i].ty.reference is None),
        (plan.receiver == Receiver::Free) <==> (export.method_self is None && export.rust_class is None),
        plan.descriptor is Some <==> !emitted.contains(export.export_name@),
{
    let offset: nat = if export.method_self is Some { 1 } else { 0 };
    assert forall|i: int| 0 <= i < plan.args@.len() implies ((#[trigger] plan.args@[i]).abi == ArgAbi::Value
        <==> export.function.arguments@[i].ty.reference is None) by {
        assert(plan.args@[i].abi == arg_abi(export.function.arguments@[i].ty));
    }
}

} // verus!
