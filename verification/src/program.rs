//! A whole program: the order in which its items are generated, which
//! imports are placed inside an `impl` of their namespace, how errors are
//! collected, and the custom section that closes the generated code.
//!
//! Items are generated in this order: exports, structs, imports (each
//! preceded by its descriptor), enums, constants, dictionaries. An item that
//! is refused does not stop the others; its error is collected and, once
//! every item was tried, all errors are reported together. Only when there
//! is none is the custom section generated.

use vstd::prelude::*;
use vstd::string::StringSliceAdditionalSpecFns;
use vstd::utf8::encode_utf8;
use crate::constant::{self, ConstPlan, const_plan_ok};
use crate::describe::{DescriptorEmit, DescriptorRegistry};
use crate::diagnostic::{Diagnostic, ErrorLocation};
use crate::dictionary::{self, DictionaryPlan, dictionary_plan_ok};
use crate::enums::{self, EnumPlan, enum_plan_ok};
use crate::export::{self, ExportPlan, borrowed_return_message, export_plan_ok, returns_reference};
use crate::import::{
    self, ImportKindPlan, import_descriptor_ok, import_function_error, import_function_error_location,
    import_kind_plan_ok,
    patterns_supported,
};
use crate::model::{Export, Import, ImportKind, Program, Struct};
use crate::section::{self, prefix_json_text, section_bytes};
use crate::shared::is_tool_version;
use crate::structs::{self, StructPlan, after_getters, struct_plan_ok};
use crate::text::views;

verus! {

/// The compiled program, as the encoder produces it.
#[derive(Debug)]
pub struct EncodedProgram {
    /// The encoded program that follows the JSON prefix in the custom section.
    pub custom_section: Vec<u8>,
    /// Files whose contents went into the encoding; the generated code
    /// depends on them so that it is regenerated when they change.
    pub included_files: Vec<String>,
}

/// One piece of generated code, in the order it is emitted.
#[derive(Debug)]
#[allow(inconsistent_fields)]
pub enum Step {
    /// The shim of export `index`.
    Export { index: usize, plan: ExportPlan },
    /// The glue of struct `index`.
    Struct { index: usize, plan: StructPlan },
    /// The descriptor of import `index`.
    ImportDescriptor { index: usize, descriptor: DescriptorEmit },
    /// Import `index`, inside `impl Namespace { .. }`.
    ImportInImpl { index: usize, namespace: String, plan: ImportKindPlan },
    /// Import `index`, on its own.
    Import { index: usize, plan: ImportKindPlan },
    /// The glue of enum `index`.
    Enum { index: usize, plan: EnumPlan },
    /// Constant `index`.
    Const { index: usize, plan: ConstPlan },
    /// Dictionary `index`.
    Dictionary { index: usize, plan: DictionaryPlan },
    /// The static holding the custom section, and the file dependencies. The
    /// static is named after `static_index`, the program's number among those
    /// that reached this point.
    CustomSection { static_index: usize, bytes: Vec<u8>, included_files: Vec<String> },
}

/// Which piece a step is.
pub enum StepTag {
    Export(int),
    Struct(int),
    ImportDescriptor(int),
    ImportInImpl(int),
    Import(int),
    Enum(int),
    Const(int),
    Dictionary(int),
    CustomSection,
}

/// The tag of a step.
pub open spec fn step_tag(s: Step) -> StepTag {
    match s {
        Step::Export { index, .. } => StepTag::Export(index as int),
        Step::Struct { index, .. } => StepTag::Struct(index as int),
        Step::ImportDescriptor { index, .. } => StepTag::ImportDescriptor(index as int),
        Step::ImportInImpl { index, .. } => StepTag::ImportInImpl(index as int),
        Step::Import { index, .. } => StepTag::Import(index as int),
        Step::Enum { index, .. } => StepTag::Enum(index as int),
        Step::Const { index, .. } => StepTag::Const(index as int),
        Step::Dictionary { index, .. } => StepTag::Dictionary(index as int),
        Step::CustomSection { .. } => StepTag::CustomSection,
    }
}

/// The tags of a sequence of steps.
pub open spec fn tags_of(steps: Seq<Step>) -> Seq<StepTag> {
    steps.map_values(|st: Step| step_tag(st))
}

/// An import can be generated (only a function can be refused).
pub open spec fn import_ok(i: Import) -> bool {
    match i.kind {
        ImportKind::Function(f) => patterns_supported(f.function.arguments@) && !returns_reference(
            f.js_ret,
        ),
        _ => true,
    }
}

/// The names of the imported types among the imports.
pub open spec fn type_names(imports: Seq<Import>) -> Seq<Seq<char>>
    decreases imports.len(),
{
    if imports.len() == 0 {
        Seq::empty()
    } else {
        match imports.last().kind {
            ImportKind::Type(t) => type_names(imports.drop_last()).push(t.rust_name@),
            _ => type_names(imports.drop_last()),
        }
    }
}

/// An import goes inside an `impl` of its namespace: the namespace is one of
/// the imported types and the import is a function.
pub open spec fn goes_in_impl(i: Import, names: Seq<Seq<char>>) -> bool {
    &&& i.js_namespace matches Some(ns)
    &&& names.contains(ns@)
    &&& i.kind is Function
}

/// The items generated for the exports.
pub open spec fn export_items(exports: Seq<Export>) -> Seq<StepTag>
    decreases exports.len(),
{
    if exports.len() == 0 {
        Seq::empty()
    } else if !returns_reference(exports.last().function.ret) {
        export_items(exports.drop_last()).push(StepTag::Export(exports.len() - 1))
    } else {
        export_items(exports.drop_last())
    }
}

/// A descriptor is emitted for the import: it is a function whose shim
/// names no descriptor emitted before.
pub open spec fn fresh_import_descriptor(i: Import, emitted: Set<Seq<char>>) -> bool {
    match i.kind {
        ImportKind::Function(f) => !emitted.contains(f.shim@),
        _ => false,
    }
}

/// The pieces generated for the imports, given the descriptors emitted before them.
pub open spec fn import_tags(emitted: Set<Seq<char>>, imports: Seq<Import>, names: Seq<Seq<char>>) -> Seq<StepTag>
    decreases imports.len(),
{
    if imports.len() == 0 {
        Seq::empty()
    } else {
        let k = imports.len() - 1;
        let i = imports.last();
        let descriptor = if fresh_import_descriptor(i, import_claims(emitted, imports.drop_last())) {
            seq![StepTag::ImportDescriptor(k)]
        } else {
            Seq::empty()
        };
        let item = if !import_ok(i) {
            Seq::empty()
        } else if goes_in_impl(i, names) {
            seq![StepTag::ImportInImpl(k)]
        } else {
            seq![StepTag::Import(k)]
        };
        import_tags(emitted, imports.drop_last(), names) + descriptor + item
    }
}

/// The descriptors emitted before the structs' and before the imports'.
pub open spec fn emitted_before_structs(emitted: Set<Seq<char>>, p: Program) -> Set<Seq<char>> {
    export_claims(emitted, p.exports@)
}

/// The descriptors emitted before the imports'.
pub open spec fn emitted_before_imports(emitted: Set<Seq<char>>, p: Program) -> Set<Seq<char>> {
    struct_claims(emitted_before_structs(emitted, p), p.structs@)
}

/// The pieces generated for the exports, structs, imports, enums, constants
/// and dictionaries of a program, in order, given the descriptors emitted
/// before.
pub open spec fn program_items(p: Program, emitted: Set<Seq<char>>) -> Seq<StepTag> {
    export_items(p.exports@) + Seq::new(p.structs@.len(), |i: int| StepTag::Struct(i))
        + import_tags(emitted_before_imports(emitted, p), p.imports@, type_names(p.imports@)) + Seq::new(
        p.enums@.len(),
        |i: int| StepTag::Enum(i),
    ) + Seq::new(p.consts@.len(), |i: int| StepTag::Const(i)) + Seq::new(
        p.dictionaries@.len(),
        |i: int| StepTag::Dictionary(i),
    )
}

/// The errors of the exports (message and location), in order.
pub open spec fn export_errors(exports: Seq<Export>) -> Seq<(Seq<char>, ErrorLocation)>
    decreases exports.len(),
{
    if exports.len() == 0 {
        Seq::empty()
    } else if returns_reference(exports.last().function.ret) {
        export_errors(exports.drop_last()).push((borrowed_return_message(), ErrorLocation::ExportReturn))
    } else {
        export_errors(exports.drop_last())
    }
}

/// The error (message and location) of an import that is refused.
pub open spec fn import_error(i: Import) -> (Seq<char>, ErrorLocation) {
    match i.kind {
        ImportKind::Function(f) => (import_function_error(f), import_function_error_location(f)),
        _ => (Seq::empty(), ErrorLocation::Unspanned),
    }
}

/// The errors of the imports, in order.
pub open spec fn import_errors(imports: Seq<Import>) -> Seq<(Seq<char>, ErrorLocation)>
    decreases imports.len(),
{
    if imports.len() == 0 {
        Seq::empty()
    } else if !import_ok(imports.last()) {
        import_errors(imports.drop_last()).push(import_error(imports.last()))
    } else {
        import_errors(imports.drop_last())
    }
}

/// All errors of a program (message and location), in order.
pub open spec fn program_errors(p: Program) -> Seq<(Seq<char>, ErrorLocation)> {
    export_errors(p.exports@) + import_errors(p.imports@)
}

/// Each diagnostic is a single error, with the given message and location.
pub open spec fn errors_are(ds: Seq<Diagnostic>, errors: Seq<(Seq<char>, ErrorLocation)>) -> bool {
    &&& ds.len() == errors.len()
    &&& forall|k: int|
        0 <= k < ds.len() ==> (#[trigger] ds[k]) is Error && ds[k]->message@ == errors[k].0
            && ds[k]->location == errors[k].1
}

/// The counter of generated statics after one more is drawn (it wraps).
pub open spec fn next_static_index(c: usize) -> usize {
    if c == usize::MAX {
        0
    } else {
        (c + 1) as usize
    }
}

/// The descriptor names claimed by the exports that are generated.
pub open spec fn export_claims(start: Set<Seq<char>>, exports: Seq<Export>) -> Set<Seq<char>>
    decreases exports.len(),
{
    if exports.len() == 0 {
        start
    } else if !returns_reference(exports.last().function.ret) {
        export_claims(start, exports.drop_last()).insert(exports.last().export_name@)
    } else {
        export_claims(start, exports.drop_last())
    }
}

/// The descriptor names claimed by the getters of the structs' fields.
pub open spec fn struct_claims(start: Set<Seq<char>>, structs: Seq<Struct>) -> Set<Seq<char>>
    decreases structs.len(),
{
    if structs.len() == 0 {
        start
    } else {
        after_getters(struct_claims(start, structs.drop_last()), structs.last().fields@)
    }
}

/// The descriptor names claimed by the imported functions.
pub open spec fn import_claims(start: Set<Seq<char>>, imports: Seq<Import>) -> Set<Seq<char>>
    decreases imports.len(),
{
    if imports.len() == 0 {
        start
    } else {
        match imports.last().kind {
            ImportKind::Function(f) => import_claims(start, imports.drop_last()).insert(f.shim@),
            _ => import_claims(start, imports.drop_last()),
        }
    }
}

/// The descriptor names claimed by a program.
pub open spec fn program_claims(start: Set<Seq<char>>, p: Program) -> Set<Seq<char>> {
    import_claims(struct_claims(export_claims(start, p.exports@), p.structs@), p.imports@)
}

/// The program's items may be generated at all: a method's export knows its
/// class, and no constant is `null`.
pub open spec fn program_wf(p: Program) -> bool {
    &&& forall|i: int|
        0 <= i < p.exports@.len() ==> (#[trigger] p.exports@[i]).method_self is Some
            ==> p.exports@[i].rust_class is Some
    &&& forall|i: int| 0 <= i < p.consts@.len() ==> !((#[trigger] p.consts@[i]).value is Null)
}

/// A piece is the one its item calls for, given the descriptors emitted
/// before the program (`emitted`) and by the items before it.
pub open spec fn step_ok(p: Program, emitted: Set<Seq<char>>, s: Step) -> bool {
    match s {
        Step::Export { index, plan } => index < p.exports@.len() && export_plan_ok(
            p.exports@[index as int],
            export_claims(emitted, p.exports@.take(index as int)),
            plan,
        ),
        Step::Struct { index, plan } => index < p.structs@.len() && struct_plan_ok(
            p.structs@[index as int],
            struct_claims(emitted_before_structs(emitted, p), p.structs@.take(index as int)),
            plan,
        ),
        Step::ImportDescriptor { index, descriptor } => index < p.imports@.len() && (
        p.imports@[index as int].kind matches ImportKind::Function(f) && import_descriptor_ok(
            f,
            descriptor,
        )),
        Step::ImportInImpl { index, namespace, plan } => index < p.imports@.len() && (
        p.imports@[index as int].js_namespace matches Some(ns) && ns@ == namespace@)
            && import_kind_plan_ok(p.imports@[index as int].kind, plan),
        Step::Import { index, plan } => index < p.imports@.len() && import_kind_plan_ok(
            p.imports@[index as int].kind,
            plan,
        ),
        Step::Enum { index, plan } => index < p.enums@.len() && enum_plan_ok(p.enums@[index as int], plan),
        Step::Const { index, plan } => index < p.consts@.len() && const_plan_ok(p.consts@[index as int], plan),
        Step::Dictionary { index, plan } => index < p.dictionaries@.len() && dictionary_plan_ok(
            p.dictionaries@[index as int],
            plan,
        ),
        Step::CustomSection { .. } => true,
    }
}

/// Every piece from position `base` on is the one its item calls for.
pub open spec fn steps_ok(p: Program, emitted: Set<Seq<char>>, steps: Seq<Step>, base: int) -> bool {
    forall|n: int| base <= n < steps.len() ==> step_ok(p, emitted, #[trigger] steps[n])
}

proof fn lemma_errors_are_concat(
    a: Seq<Diagnostic>,
    b: Seq<Diagnostic>,
    x: Seq<(Seq<char>, ErrorLocation)>,
    y: Seq<(Seq<char>, ErrorLocation)>,
)
    requires
        errors_are(a, x),
        errors_are(b, y),
    ensures
        errors_are(a + b, x + y),
{
    assert forall|k: int| 0 <= k < (a + b).len() implies (#[trigger] (a + b)[k]) is Error && (a + b)[k]->message@ == (x + y)[k].0
        && (a + b)[k]->location == (x + y)[k].1 by {
        if k < a.len() {
            assert((a + b)[k] == a[k]);
        } else {
            assert((a + b)[k] == b[k - a.len()]);
        }
    }
}

fn push_step(out: &mut Vec<Step>, base: Ghost<int>, p: Ghost<Program>, emitted: Ghost<Set<Seq<char>>>, step: Step)
    requires
        0 <= base@ <= old(out)@.len(),
        step_ok(p@, emitted@, step),
        steps_ok(p@, emitted@, old(out)@, base@),
    ensures
        final(out)@ == old(out)@.push(step),
        final(out)@.take(base@) == old(out)@.take(base@),
        tags_of(final(out)@.skip(base@)) == tags_of(old(out)@.skip(base@)).push(step_tag(step)),
        steps_ok(p@, emitted@, final(out)@, base@),
{
    let ghost s = step;
    out.push(step);
    proof {
        assert(out@.skip(base@) =~= old(out)@.skip(base@).push(s));
        assert(tags_of(out@.skip(base@)) =~= tags_of(old(out)@.skip(base@)).push(step_tag(s)));
        assert(out@.take(base@) =~= old(out)@.take(base@));
        assert forall|n: int| base@ <= n < out@.len() implies step_ok(p@, emitted@, #[trigger] out@[n]) by {
            if n < old(out)@.len() {
                assert(out@[n] == old(out)@[n]);
            }
        }
    }
}

fn contains_name(names: &Vec<String>, name: &String) -> (b: bool)
    ensures
        b == views(names@).contains(name@),
{
    let mut i: usize = 0;
    while i < names.len()
        invariant
            0 <= i <= names@.len(),
            forall|j: int| 0 <= j < i ==> names@[j]@ != name@,
        decreases names@.len() - i,
    {
        if names[i] == *name {
            assert(views(names@)[i as int] == name@);
            return true;
        }
        i = i + 1;
    }
    assert forall|j: int| 0 <= j < names@.len() implies #[trigger] views(names@)[j] != name@ by {
        assert(names@[j]@ != name@);
    }
    false
}

/// Collects the names of the imported types.
fn collect_type_names(imports: &Vec<Import>) -> (r: Vec<String>)
    ensures
        views(r@) == type_names(imports@),
{
    let mut names: Vec<String> = Vec::new();
    let mut i: usize = 0;
    while i < imports.len()
        invariant
            0 <= i <= imports@.len(),
            views(names@) == type_names(imports@.take(i as int)),
        decreases imports@.len() - i,
    {
        let ghost before = names@;
        if let ImportKind::Type(t) = &imports[i].kind {
            names.push(t.rust_name.clone());
            assert(views(names@) =~= views(before).push(t.rust_name@));
        }
        i = i + 1;
        assert(imports@.take(i as int).drop_last() =~= imports@.take(i - 1));
    }
    assert(imports@.take(imports@.len() as int) =~= imports@);
    names
}


/// Plans the code generated for a whole program, appending it to `out`.
///
/// Every item is tried, in order; the pieces of the items that succeed are
/// appended (descriptors only when not emitted before), and the errors of
/// those that fail are collected. If there are errors, they are returned
/// together, in order, and the pieces appended so far stay. Else the
/// next number is drawn from `counter` for the static that will hold the
/// custom section, and the program's encoding is needed: its error is
/// returned if it failed, and otherwise the custom section is appended and
/// the result is `Ok`.
pub fn plan_program(
    program: &Program,
    registry: &mut DescriptorRegistry,
    counter: &mut usize,
    encoded: Result<EncodedProgram, Diagnostic>,
    out: &mut Vec<Step>,
) -> (r: Result<(), Diagnostic>)
    requires
        program_wf(*program),
    ensures
        final(out)@.len() >= old(out)@.len(),
        final(out)@.take(old(out)@.len() as int) == old(out)@,
        steps_ok(*program, old(registry)@, final(out)@, old(out)@.len() as int),
        final(registry)@ == program_claims(old(registry)@, *program),
        program_errors(*program).len() > 0 ==> (r matches Err(Diagnostic::Multi { diagnostics })
            && errors_are(diagnostics@, program_errors(*program))),
        program_errors(*program).len() > 0 ==> *final(counter) == *old(counter),
        program_errors(*program).len() == 0 ==> *final(counter) == next_static_index(*old(counter)),
        program_errors(*program).len() > 0 || encoded is Err ==> tags_of(
            final(out)@.skip(old(out)@.len() as int),
        ) == program_items(*program, old(registry)@),
        items_once_each(tags_of(final(out)@.skip(old(out)@.len() as int)), *program),
        program_errors(*program).len() == 0 ==> (encoded matches Err(e) ==> r == Err::<(), Diagnostic>(e)),
        program_errors(*program).len() == 0 && encoded is Ok ==> {
            &&& r is Ok
            &&& tags_of(final(out)@.skip(old(out)@.len() as int)) == program_items(*program, old(registry)@).push(StepTag::CustomSection)
            &&& final(out)@.last() matches Step::CustomSection { static_index, bytes, included_files }
            &&& static_index == *old(counter)
            &&& views(included_files@) == views(encoded->Ok_0.included_files@)
            &&& exists|v: Seq<char>| is_tool_version(v) && bytes@ == section_bytes(
                encode_utf8(prefix_json_text("0.2.47"@, v)),
                encoded->Ok_0.custom_section@,
            )
        },
{
    let ghost base: int = out@.len() as int;
    let ghost reg0 = registry@;
    let ghost p = *program;
    let mut errors: Vec<Diagnostic> = Vec::new();
    assert(tags_of(out@.skip(base)) =~= Seq::<StepTag>::empty());
    assert(out@.take(base) =~= old(out)@);

    let exports = &program.exports;
    let mut i: usize = 0;
    while i < exports.len()
        invariant
            0 <= i <= exports@.len(),
            exports == &program.exports,
            p == *program,
            program_wf(*program),
            0 <= base <= out@.len(),
            out@.take(base) == old(out)@,
            steps_ok(p, reg0, out@, base),
            tags_of(out@.skip(base)) == export_items(exports@.take(i as int)),
            errors_are(errors@, export_errors(exports@.take(i as int))),
            registry@ == export_claims(reg0, exports@.take(i as int)),
        decreases exports@.len() - i,
    {
        assert(exports@[i as int].method_self is Some ==> exports@[i as int].rust_class is Some);
        match export::plan_export(&exports[i], registry) {
            Ok(plan) => {
                push_step(out, Ghost(base), Ghost(p), Ghost(reg0), Step::Export { index: i, plan });
            },
            Err(e) => {
                errors.push(e);
            },
        }
        i = i + 1;
        assert(exports@.take(i as int).drop_last() =~= exports@.take(i - 1));
    }
    assert(exports@.take(exports@.len() as int) =~= exports@);

    let structs = &program.structs;
    let ghost after_exports = tags_of(out@.skip(base));
    let ghost reg1 = registry@;
    let mut j: usize = 0;
    while j < structs.len()
        invariant
            0 <= j <= structs@.len(),
            structs == &program.structs,
            p == *program,
            0 <= base <= out@.len(),
            out@.take(base) == old(out)@,
            steps_ok(p, reg0, out@, base),
            after_exports == export_items(p.exports@),
            reg1 == emitted_before_structs(reg0, p),
            tags_of(out@.skip(base)) == after_exports + Seq::new(j as nat, |k: int| StepTag::Struct(k)),
            registry@ == struct_claims(reg1, structs@.take(j as int)),
        decreases structs@.len() - j,
    {
        let plan = structs::plan_struct(&structs[j], registry);
        push_step(out, Ghost(base), Ghost(p), Ghost(reg0), Step::Struct { index: j, plan });
        j = j + 1;
        assert(after_exports + Seq::new(j as nat, |k: int| StepTag::Struct(k)) =~= (after_exports
            + Seq::new((j - 1) as nat, |k: int| StepTag::Struct(k))).push(StepTag::Struct(j - 1)));
        assert(structs@.take(j as int).drop_last() =~= structs@.take(j - 1));
    }
    assert(structs@.take(structs@.len() as int) =~= structs@);

    let imports = &program.imports;
    let names = collect_type_names(imports);
    let ghost before_imports = tags_of(out@.skip(base));
    let ghost errors_before_imports = errors@;
    let ghost reg2 = registry@;
    let mut k: usize = 0;
    while k < imports.len()
        invariant
            0 <= k <= imports@.len(),
            imports == &program.imports,
            p == *program,
            views(names@) == type_names(imports@),
            0 <= base <= out@.len(),
            out@.take(base) == old(out)@,
            steps_ok(p, reg0, out@, base),
            reg2 == emitted_before_imports(reg0, p),
            tags_of(out@.skip(base)) == before_imports + import_tags(reg2, imports@.take(k as int), views(names@)),
            errors_before_imports.len() <= errors@.len(),
            errors@.subrange(0, errors_before_imports.len() as int) == errors_before_imports,
            errors_are(errors@.skip(errors_before_imports.len() as int), import_errors(imports@.take(k as int))),
            registry@ == import_claims(reg2, imports@.take(k as int)),
        decreases imports@.len() - k,
    {
        let import = &imports[k];
        let ghost tags_before = tags_of(out@.skip(base));
        let ghost errs_before = errors@;
        let ghost reg_before = registry@;
        assert(imports@.take(k + 1).drop_last() =~= imports@.take(k as int));
        let described = import::plan_describe_import(&import.kind, registry);
        let ghost descriptor_tags = if described is Some { seq![StepTag::ImportDescriptor(k as int)] } else { Seq::empty() };
        assert(described is Some <==> fresh_import_descriptor(*import, reg_before));
        if let Some(d) = described {
            push_step(out, Ghost(base), Ghost(p), Ghost(reg0), Step::ImportDescriptor { index: k, descriptor: d });
        }
        assert(tags_of(out@.skip(base)) =~= tags_before + descriptor_tags);
        let ghost tags_mid = tags_of(out@.skip(base));
        let mut in_impl: Option<String> = None;
        if let Some(ns) = &import.js_namespace {
            if contains_name(&names, ns) && import.kind.fits_on_impl() {
                in_impl = Some(ns.clone());
            }
        }
        assert(in_impl is Some <==> goes_in_impl(*import, views(names@)));
        assert(in_impl matches Some(n) ==> (import.js_namespace matches Some(ns) && ns@ == n@));
        match import::plan_import_kind(&import.kind) {
            Ok(plan) => {
                match in_impl {
                    Some(namespace) => {
                        push_step(out, Ghost(base), Ghost(p), Ghost(reg0), Step::ImportInImpl { index: k, namespace, plan });
                    },
                    None => {
                        push_step(out, Ghost(base), Ghost(p), Ghost(reg0), Step::Import { index: k, plan });
                    },
                }
            },
            Err(e) => {
                errors.push(e);
            },
        }
        k = k + 1;
        assert(errors@.subrange(0, errors_before_imports.len() as int) =~= errors_before_imports);
        proof {
            if errors@.len() > errs_before.len() {
                assert(errors@.skip(errors_before_imports.len() as int) =~= errs_before.skip(errors_before_imports.len() as int).push(errors@.last()));
            } else {
                assert(errors@ == errs_before);
                assert(tags_of(out@.skip(base)).len() == tags_mid.len() + 1);
            }
        }
    }
    assert(imports@.take(imports@.len() as int) =~= imports@);
    assert(errors@ =~= errors_before_imports + errors@.skip(errors_before_imports.len() as int));

    let ghost before_enums = tags_of(out@.skip(base));
    let mut m: usize = 0;
    while m < program.enums.len()
        invariant
            0 <= m <= program.enums@.len(),
            p == *program,
            0 <= base <= out@.len(),
            out@.take(base) == old(out)@,
            steps_ok(p, reg0, out@, base),
            tags_of(out@.skip(base)) == before_enums + Seq::new(m as nat, |x: int| StepTag::Enum(x)),
        decreases program.enums@.len() - m,
    {
        let plan = enums::plan_enum(&program.enums[m]);
        push_step(out, Ghost(base), Ghost(p), Ghost(reg0), Step::Enum { index: m, plan });
        m = m + 1;
        assert(before_enums + Seq::new(m as nat, |x: int| StepTag::Enum(x)) =~= (before_enums
            + Seq::new((m - 1) as nat, |x: int| StepTag::Enum(x))).push(StepTag::Enum(m - 1)));
    }

    let ghost before_consts = tags_of(out@.skip(base));
    let mut c: usize = 0;
    while c < program.consts.len()
        invariant
            0 <= c <= program.consts@.len(),
            p == *program,
            program_wf(*program),
            0 <= base <= out@.len(),
            out@.take(base) == old(out)@,
            steps_ok(p, reg0, out@, base),
            tags_of(out@.skip(base)) == before_consts + Seq::new(c as nat, |x: int| StepTag::Const(x)),
        decreases program.consts@.len() - c,
    {
        assert(!(program.consts@[c as int].value is Null));
        let plan = constant::plan_const(&program.consts[c]);
        push_step(out, Ghost(base), Ghost(p), Ghost(reg0), Step::Const { index: c, plan });
        c = c + 1;
        assert(before_consts + Seq::new(c as nat, |x: int| StepTag::Const(x)) =~= (before_consts
            + Seq::new((c - 1) as nat, |x: int| StepTag::Const(x))).push(StepTag::Const(c - 1)));
    }

    let ghost before_dicts = tags_of(out@.skip(base));
    let mut d: usize = 0;
    while d < program.dictionaries.len()
        invariant
            0 <= d <= program.dictionaries@.len(),
            p == *program,
            0 <= base <= out@.len(),
            out@.take(base) == old(out)@,
            steps_ok(p, reg0, out@, base),
            tags_of(out@.skip(base)) == before_dicts + Seq::new(d as nat, |x: int| StepTag::Dictionary(x)),
        decreases program.dictionaries@.len() - d,
    {
        let plan = dictionary::plan_dictionary(&program.dictionaries[d]);
        push_step(out, Ghost(base), Ghost(p), Ghost(reg0), Step::Dictionary { index: d, plan });
        d = d + 1;
        assert(before_dicts + Seq::new(d as nat, |x: int| StepTag::Dictionary(x)) =~= (before_dicts
            + Seq::new((d - 1) as nat, |x: int| StepTag::Dictionary(x))).push(StepTag::Dictionary(d - 1)));
    }
    assert(tags_of(out@.skip(base)) =~= program_items(p, reg0));
    proof {
        lemma_program_items_once_each(p, reg0);
        lemma_errors_are_concat(
            errors_before_imports,
            errors@.skip(errors_before_imports.len() as int),
            export_errors(p.exports@),
            import_errors(p.imports@),
        );
    }

    Diagnostic::from_vec(errors)?;

    let static_index = *counter;
    *counter = if *counter == usize::MAX { 0 } else { *counter + 1 };
    let encoded = encoded?;
    let prefix = section::current_prefix_json();
    let bytes = section::custom_section(prefix.as_str(), encoded.custom_section.as_slice());
    push_step(
        out,
        Ghost(base),
        Ghost(p),
        Ghost(reg0),
        Step::CustomSection { static_index, bytes, included_files: encoded.included_files },
    );
    proof {
        let items = program_items(p, reg0);
        lemma_once_each_push_section(items, 1, p.structs@.len() as int);
        lemma_once_each_push_section(items, 5, p.enums@.len() as int);
        lemma_once_each_push_section(items, 6, p.consts@.len() as int);
        lemma_once_each_push_section(items, 7, p.dictionaries@.len() as int);
    }
    Ok(())
}

/// Which kind of piece a tag stands for.
pub open spec fn tag_kind(t: StepTag) -> int {
    match t {
        StepTag::Export(_) => 0,
        StepTag::Struct(_) => 1,
        StepTag::ImportDescriptor(_) => 2,
        StepTag::ImportInImpl(_) => 3,
        StepTag::Import(_) => 4,
        StepTag::Enum(_) => 5,
        StepTag::Const(_) => 6,
        StepTag::Dictionary(_) => 7,
        StepTag::CustomSection => 8,
    }
}

/// The position of the item a tag stands for (zero for the custom section).
pub open spec fn tag_index(t: StepTag) -> int {
    match t {
        StepTag::Export(i) => i,
        StepTag::Struct(i) => i,
        StepTag::ImportDescriptor(i) => i,
        StepTag::ImportInImpl(i) => i,
        StepTag::Import(i) => i,
        StepTag::Enum(i) => i,
        StepTag::Const(i) => i,
        StepTag::Dictionary(i) => i,
        StepTag::CustomSection => 0,
    }
}

/// The exports only produce export pieces.
proof fn lemma_export_items_kind(exports: Seq<Export>)
    ensures
        forall|k: int| 0 <= k < export_items(exports).len() ==> tag_kind(#[trigger] export_items(exports)[k]) == 0,
    decreases exports.len(),
{
    if exports.len() > 0 {
        lemma_export_items_kind(exports.drop_last());
        let prev = export_items(exports.drop_last());
        assert forall|k: int| 0 <= k < export_items(exports).len() implies tag_kind(#[trigger] export_items(exports)[k]) == 0 by {
            if k < prev.len() {
                assert(export_items(exports)[k] == prev[k]);
            }
        }
    }
}

/// The imports only produce import pieces and their descriptors.
proof fn lemma_import_tags_kind(emitted: Set<Seq<char>>, imports: Seq<Import>, names: Seq<Seq<char>>)
    ensures
        forall|k: int| 0 <= k < import_tags(emitted, imports, names).len() ==> 2 <= tag_kind(
            #[trigger] import_tags(emitted, imports, names)[k],
        ) <= 4,
    decreases imports.len(),
{
    if imports.len() > 0 {
        lemma_import_tags_kind(emitted, imports.drop_last(), names);
        let prev = import_tags(emitted, imports.drop_last(), names);
        let all = import_tags(emitted, imports, names);
        let k0 = imports.len() - 1;
        let i = imports.last();
        let descriptor = if fresh_import_descriptor(i, import_claims(emitted, imports.drop_last())) {
            seq![StepTag::ImportDescriptor(k0)]
        } else {
            Seq::empty()
        };
        let item = if !import_ok(i) {
            Seq::empty()
        } else if goes_in_impl(i, names) {
            seq![StepTag::ImportInImpl(k0)]
        } else {
            seq![StepTag::Import(k0)]
        };
        assert(all == prev + descriptor + item);
        assert forall|k: int| 0 <= k < all.len() implies 2 <= tag_kind(#[trigger] all[k]) <= 4 by {
            if k < prev.len() {
                assert(all[k] == prev[k]);
            } else if k < prev.len() + descriptor.len() {
                assert(all[k] == descriptor[k - prev.len()]);
            } else {
                assert(all[k] == item[k - prev.len() - descriptor.len()]);
            }
        }
    }
}

/// In `pre + blk + post`, where `blk` holds one piece of kind `kind` for each
/// position `0..blk.len()` in order and neither `pre` nor `post` holds any of
/// that kind, every piece of that kind is the block's piece of its position.
proof fn lemma_block(pre: Seq<StepTag>, blk: Seq<StepTag>, post: Seq<StepTag>, kind: int)
    requires
        forall|k: int| 0 <= k < pre.len() ==> tag_kind(#[trigger] pre[k]) != kind,
        forall|k: int| 0 <= k < post.len() ==> tag_kind(#[trigger] post[k]) != kind,
        forall|i: int| 0 <= i < blk.len() ==> tag_kind(#[trigger] blk[i]) == kind && tag_index(blk[i]) == i,
    ensures
        forall|i: int| 0 <= i < blk.len() ==> (pre + blk + post)[pre.len() + i] == blk[i],
        forall|k: int|
            0 <= k < (pre + blk + post).len() && tag_kind(#[trigger] (pre + blk + post)[k]) == kind
                ==> pre.len() <= k < pre.len() + blk.len() && tag_index((pre + blk + post)[k]) == k - pre.len(),
{
    let q = pre + blk + post;
    assert forall|k: int| 0 <= k < q.len() && tag_kind(#[trigger] q[k]) == kind implies pre.len() <= k
        < pre.len() + blk.len() && tag_index(q[k]) == k - pre.len() by {
        if k < pre.len() {
            assert(q[k] == pre[k]);
        } else if k >= pre.len() + blk.len() {
            assert(q[k] == post[k - pre.len() - blk.len()]);
        } else {
            assert(q[k] == blk[k - pre.len()]);
        }
    }
}

/// Some piece of kind `kind` in `items` stands for the item at position `i`.
pub open spec fn has_piece(items: Seq<StepTag>, kind: int, i: int) -> bool {
    exists|k: int| 0 <= k < items.len() && tag_kind(#[trigger] items[k]) == kind && tag_index(items[k]) == i
}

/// Every piece of kind `kind` in `items` stands for a position below `n`, each
/// position below `n` has one, and no two pieces of that kind stand for the
/// same position: the items of that kind are generated exactly once each.
pub open spec fn once_each(items: Seq<StepTag>, kind: int, n: int) -> bool {
    &&& forall|i: int| 0 <= i < n ==> #[trigger] has_piece(items, kind, i)
    &&& forall|k: int| 0 <= k < items.len() && tag_kind(#[trigger] items[k]) == kind ==> 0 <= tag_index(items[k]) < n
    &&& forall|a: int, b: int|
        0 <= a < b < items.len() && tag_kind(#[trigger] items[a]) == kind && tag_kind(#[trigger] items[b]) == kind
            ==> tag_index(items[a]) != tag_index(items[b])
}

/// A program generates each of its structs, enums, constants and
/// dictionaries exactly once: one struct piece for each struct, one enum
/// piece for each enum, one constant declaration for each constant and one
/// dictionary type for each dictionary, whatever else the program holds and
/// whatever descriptors were emitted before.
pub proof fn lemma_program_items_once_each(p: Program, emitted: Set<Seq<char>>)
    ensures
        once_each(program_items(p, emitted), 1, p.structs@.len() as int),
        once_each(program_items(p, emitted), 5, p.enums@.len() as int),
        once_each(program_items(p, emitted), 6, p.consts@.len() as int),
        once_each(program_items(p, emitted), 7, p.dictionaries@.len() as int),
        forall|i: int| 0 <= i < p.consts@.len() ==> program_items(p, emitted).contains(StepTag::Const(i)),
{
    let x = export_items(p.exports@);
    let st = Seq::new(p.structs@.len(), |i: int| StepTag::Struct(i));
    let im = import_tags(emitted_before_imports(emitted, p), p.imports@, type_names(p.imports@));
    let en = Seq::new(p.enums@.len(), |i: int| StepTag::Enum(i));
    let co = Seq::new(p.consts@.len(), |i: int| StepTag::Const(i));
    let di = Seq::new(p.dictionaries@.len(), |i: int| StepTag::Dictionary(i));
    let items = program_items(p, emitted);
    assert(items == x + st + im + en + co + di);
    lemma_export_items_kind(p.exports@);
    lemma_import_tags_kind(emitted_before_imports(emitted, p), p.imports@, type_names(p.imports@));

    // structs
    assert(items =~= x + st + (im + en + co + di));
    assert forall|k: int| 0 <= k < (im + en + co + di).len() implies tag_kind(#[trigger] (im + en + co + di)[k]) != 1 by {
        lemma_kind_in_tail(im, en, co, di, k);
    }
    lemma_block(x, st, im + en + co + di, 1);
    lemma_once_each_from_block(x, st, im + en + co + di, 1);

    // enums
    assert(items =~= (x + st + im) + en + (co + di));
    lemma_kind_in_head(x, st, im, 5);
    assert forall|k: int| 0 <= k < (co + di).len() implies tag_kind(#[trigger] (co + di)[k]) != 5 by {
        if k < co.len() {
            assert((co + di)[k] == co[k]);
        } else {
            assert((co + di)[k] == di[k - co.len()]);
        }
    }
    lemma_block(x + st + im, en, co + di, 5);
    lemma_once_each_from_block(x + st + im, en, co + di, 5);

    // constants
    assert(items =~= (x + st + im + en) + co + di);
    lemma_kind_in_head(x, st, im, 6);
    assert forall|k: int| 0 <= k < (x + st + im + en).len() implies tag_kind(#[trigger] (x + st + im + en)[k]) != 6 by {
        if k < (x + st + im).len() {
            assert((x + st + im + en)[k] == (x + st + im)[k]);
        } else {
            assert((x + st + im + en)[k] == en[k - (x + st + im).len()]);
        }
    }
    lemma_block(x + st + im + en, co, di, 6);
    lemma_once_each_from_block(x + st + im + en, co, di, 6);
    assert forall|i: int| 0 <= i < p.consts@.len() implies items.contains(StepTag::Const(i)) by {
        assert(items[(x + st + im + en).len() + i] == co[i]);
    }

    // dictionaries
    assert(items =~= (x + st + im + en + co) + di + Seq::<StepTag>::empty());
    lemma_kind_in_head(x, st, im, 7);
    assert forall|k: int| 0 <= k < (x + st + im + en + co).len() implies tag_kind(#[trigger] (x + st + im + en + co)[k]) != 7 by {
        if k < (x + st + im).len() {
            assert((x + st + im + en + co)[k] == (x + st + im)[k]);
        } else if k < (x + st + im + en).len() {
            assert((x + st + im + en + co)[k] == en[k - (x + st + im).len()]);
        } else {
            assert((x + st + im + en + co)[k] == co[k - (x + st + im + en).len()]);
        }
    }
    lemma_block(x + st + im + en + co, di, Seq::empty(), 7);
    lemma_once_each_from_block(x + st + im + en + co, di, Seq::empty(), 7);
}

/// Exports, structs and imports hold no enum, constant or dictionary piece.
proof fn lemma_kind_in_head(x: Seq<StepTag>, st: Seq<StepTag>, im: Seq<StepTag>, kind: int)
    requires
        kind >= 5,
        forall|k: int| 0 <= k < x.len() ==> tag_kind(#[trigger] x[k]) == 0,
        forall|k: int| 0 <= k < st.len() ==> tag_kind(#[trigger] st[k]) == 1,
        forall|k: int| 0 <= k < im.len() ==> 2 <= tag_kind(#[trigger] im[k]) <= 4,
    ensures
        forall|k: int| 0 <= k < (x + st + im).len() ==> tag_kind(#[trigger] (x + st + im)[k]) != kind,
{
    assert forall|k: int| 0 <= k < (x + st + im).len() implies tag_kind(#[trigger] (x + st + im)[k]) != kind by {
        if k < x.len() {
            assert((x + st + im)[k] == x[k]);
        } else if k < x.len() + st.len() {
            assert((x + st + im)[k] == st[k - x.len()]);
        } else {
            assert((x + st + im)[k] == im[k - x.len() - st.len()]);
        }
    }
}

/// Imports, enums, constants and dictionaries hold no struct piece.
proof fn lemma_kind_in_tail(im: Seq<StepTag>, en: Seq<StepTag>, co: Seq<StepTag>, di: Seq<StepTag>, k: int)
    requires
        0 <= k < (im + en + co + di).len(),
        forall|j: int| 0 <= j < im.len() ==> 2 <= tag_kind(#[trigger] im[j]) <= 4,
        forall|j: int| 0 <= j < en.len() ==> tag_kind(#[trigger] en[j]) == 5,
        forall|j: int| 0 <= j < co.len() ==> tag_kind(#[trigger] co[j]) == 6,
        forall|j: int| 0 <= j < di.len() ==> tag_kind(#[trigger] di[j]) == 7,
    ensures
        tag_kind((im + en + co + di)[k]) != 1,
{
    let q = im + en + co + di;
    if k < im.len() {
        assert(q[k] == im[k]);
    } else if k < im.len() + en.len() {
        assert(q[k] == en[k - im.len()]);
    } else if k < im.len() + en.len() + co.len() {
        assert(q[k] == co[k - im.len() - en.len()]);
    } else {
        assert(q[k] == di[k - im.len() - en.len() - co.len()]);
    }
}

/// A block as in `lemma_block` makes its kind generated once each.
proof fn lemma_once_each_from_block(pre: Seq<StepTag>, blk: Seq<StepTag>, post: Seq<StepTag>, kind: int)
    requires
        forall|k: int| 0 <= k < pre.len() ==> tag_kind(#[trigger] pre[k]) != kind,
        forall|k: int| 0 <= k < post.len() ==> tag_kind(#[trigger] post[k]) != kind,
        forall|i: int| 0 <= i < blk.len() ==> tag_kind(#[trigger] blk[i]) == kind && tag_index(blk[i]) == i,
    ensures
        once_each(pre + blk + post, kind, blk.len() as int),
{
    lemma_block(pre, blk, post, kind);
    let q = pre + blk + post;
    assert forall|i: int| 0 <= i < blk.len() implies #[trigger] has_piece(q, kind, i) by {
        assert(q[pre.len() + i] == blk[i]);
    }
}

/// Appending the custom section keeps every other kind generated once each.
proof fn lemma_once_each_push_section(items: Seq<StepTag>, kind: int, n: int)
    requires
        kind != 8,
        once_each(items, kind, n),
    ensures
        once_each(items.push(StepTag::CustomSection), kind, n),
{
    let q = items.push(StepTag::CustomSection);
    assert forall|i: int| 0 <= i < n implies #[trigger] has_piece(q, kind, i) by {
        assert(has_piece(items, kind, i));
        let k = choose|k: int| 0 <= k < items.len() && tag_kind(#[trigger] items[k]) == kind && tag_index(items[k]) == i;
        assert(q[k] == items[k]);
    }
    assert forall|k: int| 0 <= k < q.len() && tag_kind(#[trigger] q[k]) == kind implies 0 <= tag_index(q[k]) < n by {
        assert(k < items.len());
        assert(q[k] == items[k]);
    }
    assert forall|a: int, b: int|
        0 <= a < b < q.len() && tag_kind(#[trigger] q[a]) == kind && tag_kind(#[trigger] q[b]) == kind
            implies tag_index(q[a]) != tag_index(q[b]) by {
        assert(b < items.len());
        assert(q[a] == items[a] && q[b] == items[b]);
    }
}

/// The structs, enums, constants and dictionaries of a program are generated
/// exactly once each.
pub open spec fn items_once_each(items: Seq<StepTag>, p: Program) -> bool {
    &&& once_each(items, 1, p.structs@.len() as int)
    &&& once_each(items, 5, p.enums@.len() as int)
    &&& once_each(items, 6, p.consts@.len() as int)
    &&& once_each(items, 7, p.dictionaries@.len() as int)
}

} // verus!
