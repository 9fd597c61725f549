//! Exported C-style enums. A value crosses the ABI as its discriminant; the
//! generated `from_abi` compares the incoming word with each variant's
//! discriminant in order and takes the first that matches (throwing when none
//! does), and the enum's `hole`, a word that is no discriminant, stands for
//! `None` of `Option<Self>`.

use vstd::prelude::*;
use crate::describe::{DescribeStep, DescribeStepV, DescribeTag, steps_view};
use crate::lookup::{distinct, first_index, lemma_first_index};
use crate::model::{Enum, Variant};

verus! {

/// The discriminants of the variants, in order.
pub open spec fn discriminants(variants: Seq<Variant>) -> Seq<u32> {
    variants.map_values(|v: Variant| v.value)
}

/// What the generated `into_abi` gives for variant `i`.
pub open spec fn enum_into_abi(variants: Seq<Variant>, i: int) -> u32 {
    variants[i].value
}

/// What the generated `from_abi` gives for a word: the first variant whose
/// discriminant it is, or none (it then throws "invalid enum value passed").
pub open spec fn enum_from_abi(variants: Seq<Variant>, js: u32) -> Option<int> {
    first_index(discriminants(variants), js)
}

/// What the generated `OptionFromWasmAbi::is_none` says of a word.
pub open spec fn enum_is_none(hole: u32, js: u32) -> bool {
    js == hole
}

/// The words describing an exported enum: the `ENUM` tag and its hole.
pub open spec fn enum_descriptor(hole: u32) -> Seq<DescribeStepV> {
    seq![DescribeStepV::Inform(DescribeTag::Enum), DescribeStepV::Word(hole)]
}

/// What the glue of an exported enum is made of.
#[derive(Debug)]
pub struct EnumPlan {
    /// The body of the enum's `WasmDescribe::describe`.
    pub describe: Vec<DescribeStep>,
    /// The variants tried by `from_abi`, in the order they are tried.
    pub cast_order: Vec<String>,
}

/// The plan of an exported enum's glue: its descriptor, and its variants in
/// declaration order.
pub open spec fn enum_plan_ok(e: Enum, r: EnumPlan) -> bool {
    &&& steps_view(r.describe@) == enum_descriptor(e.hole)
    &&& r.cast_order@.map_values(|s: String| s@) == e.variants@.map_values(|v: Variant| v.name@)
}

/// Plans the glue of an exported enum.
pub fn plan_enum(e: &Enum) -> (r: EnumPlan)
    ensures
        enum_plan_ok(*e, r),
{
    let mut describe: Vec<DescribeStep> = Vec::new();
    describe.push(DescribeStep::Inform(DescribeTag::Enum));
    describe.push(DescribeStep::Word(e.hole));
    assert(steps_view(describe@) =~= enum_descriptor(e.hole));
    let mut cast_order: Vec<String> = Vec::new();
    let mut i: usize = 0;
    while i < e.variants.len()
        invariant
            0 <= i <= e.variants@.len(),
            cast_order@.len() == i,
            forall|k: int| 0 <= k < i ==> (#[trigger] cast_order@[k])@ == e.variants@[k].name@,
        decreases e.variants@.len() - i,
    {
        cast_order.push(e.variants[i].name.clone());
        i = i + 1;
    }
    assert(cast_order@.map_values(|s: String| s@) =~= e.variants@.map_values(|v: Variant| v.name@));
    EnumPlan { describe, cast_order }
}

/// A variant sent through the ABI comes back as itself when the
/// discriminants are distinct; the hole reads as `None` and, being no
/// discriminant, is refused by `from_abi`.
pub proof fn lemma_enum_abi_roundtrip(variants: Seq<Variant>, hole: u32, i: int)
    requires
        distinct(discriminants(variants)),
        forall|k: int| 0 <= k < variants.len() ==> variants[k].value != hole,
    ensures
        0 <= i < variants.len() ==> enum_from_abi(variants, enum_into_abi(variants, i)) == Some(i),
        enum_is_none(hole, hole),
        enum_from_abi(variants, hole) is None,
        0 <= i < variants.len() ==> !enum_is_none(hole, enum_into_abi(variants, i)),
{
    let d = discriminants(variants);
    lemma_first_index(d, i, hole);
    if 0 <= i < variants.len() {
        assert(d[i] == variants[i].value);
    }
    assert forall|k: int| 0 <= k < d.len() implies d[k] != hole by {
        assert(d[k] == variants[k].value);
    }
    lemma_first_index(d, i, hole);
}

} // verus!
