//! Exported structs: the JS class glue for a Rust struct and the accessor
//! shims of its public fields.

use vstd::prelude::*;
use vstd::utf8::{encode_utf8, is_ascii_chars};
use crate::describe::{
    self, DescribeStep, DescribeStepV, DescribeTag, DescriptorEmit, DescriptorRegistry,
    descriptor_symbol, steps_view,
};
use crate::model::{Struct, StructField};
use crate::shared;

verus! {

/// The words describing an exported struct: the `RUST_STRUCT` tag, the
/// length in bytes (UTF-8) of its JS name, and the code of each character of
/// that name.
pub open spec fn struct_descriptor(js_name: Seq<char>) -> Seq<DescribeStepV> {
    seq![
        DescribeStepV::Inform(DescribeTag::RustStruct),
        DescribeStepV::Word(#[verifier::truncate] ((encode_utf8(js_name).len() as usize) as u32)),
    ] + js_name.map_values(|c: char| DescribeStepV::Word(c as u32))
}

/// What the accessors of a field are made of.
#[derive(Debug)]
pub struct FieldPlan {
    /// The getter's descriptor, unless one of its name was emitted before.
    pub getter_descriptor: Option<DescriptorEmit>,
    /// A setter is generated (the field is not read-only).
    pub has_setter: bool,
}

/// What the glue of an exported struct is made of.
#[derive(Debug)]
pub struct StructPlan {
    /// The body of the struct's `WasmDescribe::describe`.
    pub describe: Vec<DescribeStep>,
    /// The JS import that wraps a new object into a JS object.
    pub new_fn: String,
    /// The export that frees an object.
    pub free_fn: String,
    /// One plan per field, in order.
    pub fields: Vec<FieldPlan>,
}

/// Plans the accessors of a field: a getter with its descriptor, which
/// describes the field's type and is named by the getter's symbol, and a
/// setter unless the field is read-only.
pub fn plan_struct_field(field: &StructField, registry: &mut DescriptorRegistry) -> (r: FieldPlan)
    ensures
        field_plan_ok(*field, old(registry)@, r),
        final(registry)@ == old(registry)@.insert(field.getter@),
{
    let mut steps: Vec<DescribeStep> = Vec::new();
    steps.push(DescribeStep::DescribeType(field.ty.text.clone()));
    assert(steps_view(steps@) =~= seq![DescribeStepV::DescribeType(field.ty.text@)]);
    let getter_descriptor = describe::describe_shim(registry, &field.getter, steps);
    FieldPlan { getter_descriptor, has_setter: !field.readonly }
}

/// The registry after the getters of `fields` are emitted, in order, starting from `start`.
pub open spec fn after_getters(start: Set<Seq<char>>, fields: Seq<StructField>) -> Set<Seq<char>>
    decreases fields.len(),
{
    if fields.len() == 0 {
        start
    } else {
        after_getters(start, fields.drop_last()).insert(fields.last().getter@)
    }
}

/// The plan of a struct's glue, given the descriptors emitted before: the
/// descriptor words and function names follow the struct's JS name, and each
/// field's accessors follow the field, its getter's descriptor being there
/// unless one of that name was emitted before (by an earlier getter too).
pub open spec fn struct_plan_ok(s: Struct, emitted: Set<Seq<char>>, r: StructPlan) -> bool {
    &&& steps_view(r.describe@) == struct_descriptor(s.js_name@)
    &&& r.new_fn@ == shared::shared_new_function(s.js_name@)
    &&& r.free_fn@ == shared::shared_free_function(s.js_name@)
    &&& r.fields@.len() == s.fields@.len()
    &&& forall|i: int| 0 <= i < s.fields@.len() ==> field_plan_ok(
        s.fields@[i],
        after_getters(emitted, s.fields@.take(i)),
        #[trigger] r.fields@[i],
    )
}

/// The plan of a field's accessors, given the descriptors emitted before.
pub open spec fn field_plan_ok(field: StructField, emitted: Set<Seq<char>>, r: FieldPlan) -> bool {
    &&& r.has_setter == !field.readonly
    &&& (r.getter_descriptor is Some <==> !emitted.contains(field.getter@))
    &&& (r.getter_descriptor matches Some(e) ==> e.symbol@ == descriptor_symbol(field.getter@)
        && steps_view(e.steps@) == seq![DescribeStepV::DescribeType(field.ty.text@)])
}

/// Plans the glue of an exported struct and of its fields, in order.
pub fn plan_struct(s: &Struct, registry: &mut DescriptorRegistry) -> (r: StructPlan)
    ensures
        struct_plan_ok(*s, old(registry)@, r),
        final(registry)@ == after_getters(old(registry)@, s.fields@),
        is_ascii_chars(s.js_name@) ==> r.new_fn@ == "__wbg_"@ + shared::ascii_lowercase(s.js_name@) + "_new"@
            && r.free_fn@ == "__wbg_"@ + shared::ascii_lowercase(s.js_name@) + "_free"@,
{
    let name = s.js_name.as_str();
    let mut describe: Vec<DescribeStep> = Vec::new();
    describe.push(DescribeStep::Inform(DescribeTag::RustStruct));
    describe.push(DescribeStep::Word(#[verifier::truncate] (name.len() as u32)));
    let n = name.unicode_len();
    let ghost head = steps_view(describe@);
    let mut i: usize = 0;
    while i < n
        invariant
            0 <= i <= n,
            n == name@.len(),
            name@ == s.js_name@,
            head.len() == 2,
            steps_view(describe@) == head + name@.take(i as int).map_values(|c: char| DescribeStepV::Word(c as u32)),
        decreases n - i,
    {
        let c = name.get_char(i);
        let ghost before = describe@;
        describe.push(DescribeStep::Word(c as u32));
        proof {
            assert(steps_view(describe@) =~= steps_view(before).push(DescribeStepV::Word(c as u32)));
            assert(name@.take(i + 1).map_values(|c: char| DescribeStepV::Word(c as u32)) =~= name@.take(
                i as int,
            ).map_values(|c: char| DescribeStepV::Word(c as u32)).push(DescribeStepV::Word(c as u32)));
        }
        i = i + 1;
    }
    assert(name@.take(n as int) =~= name@);
    assert(steps_view(describe@) =~= struct_descriptor(s.js_name@));
    let new_fn = shared::new_function_name(name);
    let free_fn = shared::free_function_name(name);
    let mut fields: Vec<FieldPlan> = Vec::new();
    let mut j: usize = 0;
    while j < s.fields.len()
        invariant
            0 <= j <= s.fields@.len(),
            fields@.len() == j,
            forall|k: int| 0 <= k < j ==> field_plan_ok(
                s.fields@[k],
                after_getters(old(registry)@, s.fields@.take(k)),
                #[trigger] fields@[k],
            ),
            registry@ == after_getters(old(registry)@, s.fields@.take(j as int)),
        decreases s.fields@.len() - j,
    {
        let f = plan_struct_field(&s.fields[j], registry);
        fields.push(f);
        j = j + 1;
        assert(s.fields@.take(j as int).drop_last() =~= s.fields@.take(j - 1));
    }
    assert(s.fields@.take(s.fields@.len() as int) =~= s.fields@);
    StructPlan { describe, new_fn, free_fn, fields }
}

/// The glue of a struct is named after its JS name, not its Rust name: the
/// function that wraps a new object and the one that frees it are the shared
/// crate's names for the JS name, the same for every struct of that JS name;
/// and each field gets accessors, a setter exactly when it is not read-only.
pub proof fn lemma_struct_plan_named_by_js_name(s: Struct, emitted: Set<Seq<char>>, r: StructPlan)
    requires
        struct_plan_ok(s, emitted, r),
    ensures
        r.new_fn@ == shared::shared_new_function(s.js_name@),
        r.free_fn@ == shared::shared_free_function(s.js_name@),
        forall|t: Struct, e: Set<Seq<char>>, q: StructPlan| struct_plan_ok(t, e, q) && t.js_name@ == s.js_name@
            ==> q.new_fn@ == r.new_fn@ && q.free_fn@ == r.free_fn@,
        r.fields@.len() == s.fields@.len(),
        forall|i: int| 0 <= i < s.fields@.len() ==> (#[trigger] r.fields@[i]).has_setter == !s.fields@[i].readonly,
{
    assert forall|i: int| 0 <= i < s.fields@.len() implies (#[trigger] r.fields@[i]).has_setter == !s.fields@[i].readonly by {
        assert(field_plan_ok(s.fields@[i], after_getters(emitted, s.fields@.take(i)), r.fields@[i]));
    }
}

} // verus!
