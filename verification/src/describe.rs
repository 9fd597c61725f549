//! Type descriptors. Every generated shim comes with a descriptor function
//! that reports the shim's signature as a sequence of words, which the CLI tool
//! reads back. This module computes those sequences and keeps track of which
//! descriptor functions were already emitted, so that none is emitted twice.

use vstd::prelude::*;
use vstd::hash_set::StringHashSet;
use crate::model::{Argument, TypeExpr};

verus! {

/// The named constants a descriptor informs.
#[derive(PartialEq, Eq, Structural, Clone, Copy, Debug)]
pub enum DescribeTag {
    /// `FUNCTION`
    Function,
    /// `RUST_STRUCT`
    RustStruct,
    /// `ENUM`
    Enum,
}

/// One statement of a descriptor body.
#[derive(Debug)]
pub enum DescribeStep {
    /// `inform(TAG)`
    Inform(DescribeTag),
    /// `inform(n)`
    Word(u32),
    /// `<ty as WasmDescribe>::describe()`, with the type's source text.
    DescribeType(String),
}

/// The value of a descriptor statement.
pub enum DescribeStepV {
    Inform(DescribeTag),
    Word(u32),
    DescribeType(Seq<char>),
}

impl View for DescribeStep {
    type V = DescribeStepV;

    open spec fn view(&self) -> DescribeStepV {
        match self {
            DescribeStep::Inform(t) => DescribeStepV::Inform(*t),
            DescribeStep::Word(w) => DescribeStepV::Word(*w),
            DescribeStep::DescribeType(t) => DescribeStepV::DescribeType(t@),
        }
    }
}

/// The values of a sequence of descriptor statements.
pub open spec fn steps_view(steps: Seq<DescribeStep>) -> Seq<DescribeStepV> {
    steps.map_values(|s: DescribeStep| s@)
}

/// The source text of the types of a list of arguments.
pub open spec fn arg_type_texts(args: Seq<Argument>) -> Seq<Seq<char>> {
    args.map_values(|a: Argument| a.ty.text@)
}

/// The text of a return type, `()` when there is none.
pub open spec fn ret_type_text(ret: Option<TypeExpr>) -> Seq<char> {
    match ret {
        Some(t) => t.text@,
        None => "()"@,
    }
}

/// The descriptor of a function: the `FUNCTION` tag, a zero word, the number
/// of arguments (as a 32-bit word), the description of each argument type
/// and that of the return type.
pub open spec fn function_descriptor(arg_tys: Seq<Seq<char>>, ret: Seq<char>) -> Seq<DescribeStepV> {
    seq![
        DescribeStepV::Inform(DescribeTag::Function),
        DescribeStepV::Word(0),
        DescribeStepV::Word(#[verifier::truncate] (arg_tys.len() as u32)),
    ] + arg_tys.map_values(|t: Seq<char>| DescribeStepV::DescribeType(t)) + seq![
        DescribeStepV::DescribeType(ret),
    ]
}

/// Builds the descriptor of a function with the given arguments and return type.
pub fn function_descriptor_steps(args: &Vec<Argument>, ret: &Option<TypeExpr>) -> (steps: Vec<
    DescribeStep,
>)
    ensures
        steps_view(steps@) == function_descriptor(arg_type_texts(args@), ret_type_text(*ret)),
{
    let mut steps: Vec<DescribeStep> = Vec::new();
    steps.push(DescribeStep::Inform(DescribeTag::Function));
    steps.push(DescribeStep::Word(0));
    steps.push(DescribeStep::Word(#[verifier::truncate] (args.len() as u32)));
    let ghost head = steps_view(steps@);
    let mut i: usize = 0;
    while i < args.len()
        invariant
            0 <= i <= args@.len(),
            head.len() == 3,
            steps_view(steps@) == head + arg_type_texts(args@).take(i as int).map_values(
                |t: Seq<char>| DescribeStepV::DescribeType(t),
            ),
        decreases args@.len() - i,
    {
        let ghost before = steps@;
        steps.push(DescribeStep::DescribeType(args[i].ty.text.clone()));
        proof {
            let tys = arg_type_texts(args@);
            assert(tys.take(i + 1) =~= tys.take(i as int).push(args@[i as int].ty.text@));
            assert(steps_view(steps@) =~= steps_view(before).push(
                DescribeStepV::DescribeType(args@[i as int].ty.text@),
            ));
            assert(tys.take(i + 1).map_values(|t: Seq<char>| DescribeStepV::DescribeType(t))
                =~= tys.take(i as int).map_values(|t: Seq<char>| DescribeStepV::DescribeType(t)).push(
                DescribeStepV::DescribeType(args@[i as int].ty.text@),
            ));
        }
        i = i + 1;
        assert(steps_view(steps@) =~= head + arg_type_texts(args@).take(i as int).map_values(
            |t: Seq<char>| DescribeStepV::DescribeType(t),
        ));
    }
    let ret_text = match ret {
        Some(t) => t.text.clone(),
        None => {
            proof {
                reveal_strlit("()");
            }
            String::from_str("()")
        },
    };
    let ghost before = steps@;
    steps.push(DescribeStep::DescribeType(ret_text));
    assert(steps_view(steps@) =~= steps_view(before).push(DescribeStepV::DescribeType(ret_type_text(*ret))));
    assert(arg_type_texts(args@).take(args@.len() as int) == arg_type_texts(args@));
    assert(head == seq![
        DescribeStepV::Inform(DescribeTag::Function),
        DescribeStepV::Word(0),
        DescribeStepV::Word(#[verifier::truncate] (arg_type_texts(args@).len() as u32)),
    ]);
    assert(steps_view(steps@) =~= function_descriptor(arg_type_texts(args@), ret_type_text(*ret)));
    steps
}


/// The names of the descriptors emitted so far. Two items imported twice (for
/// instance in two modules of one crate) produce descriptors of the same name;
/// only the first is emitted, since a second one would be a duplicate symbol.
pub struct DescriptorRegistry {
    emitted: StringHashSet,
}

impl View for DescriptorRegistry {
    type V = Set<Seq<char>>;

    closed spec fn view(&self) -> Set<Seq<char>> {
        self.emitted@
    }
}

impl DescriptorRegistry {
    /// A registry in which no descriptor was emitted yet.
    pub fn new() -> (r: DescriptorRegistry)
        ensures
            r@ == Set::<Seq<char>>::empty(),
    {
        DescriptorRegistry { emitted: StringHashSet::new() }
    }

    /// Whether a descriptor of this name was emitted already.
    pub fn contains(&self, name: &String) -> (b: bool)
        ensures
            b == self@.contains(name@),
    {
        self.emitted.contains(name.as_str())
    }

    /// Records that a descriptor of this name is emitted. Returns `true` when
    /// it was not emitted before, `false` when it was (and nothing changes).
    pub fn claim(&mut self, name: &String) -> (fresh: bool)
        ensures
            fresh == !old(self)@.contains(name@),
            final(self)@ == old(self)@.insert(name@),
    {
        self.emitted.insert(name.clone())
    }
}

/// The outcome of asking, in turn, to emit a descriptor for each of `names`,
/// starting from the set `emitted` of names already emitted: `true` for each
/// request that emits one.
pub open spec fn emissions(emitted: Set<Seq<char>>, names: Seq<Seq<char>>) -> Seq<bool>
    decreases names.len(),
{
    if names.len() == 0 {
        Seq::empty()
    } else {
        emissions(emitted, names.drop_last()).push(
            !(emitted.contains(names.last()) || names.drop_last().contains(names.last())),
        )
    }
}

/// The symbol of the descriptor function for a shim.
pub open spec fn descriptor_symbol(name: Seq<char>) -> Seq<char> {
    "__wbindgen_describe_"@ + name
}

/// A descriptor function to emit.
#[derive(Debug)]
pub struct DescriptorEmit {
    /// The symbol of the descriptor function.
    pub symbol: String,
    /// Its body.
    pub steps: Vec<DescribeStep>,
}

/// Plans the descriptor function of the shim `name`: it is emitted unless one
/// of the same name was emitted before, and its symbol is `name` with the
/// descriptor prefix.
pub fn describe_shim(registry: &mut DescriptorRegistry, name: &String, steps: Vec<DescribeStep>) -> (r:
    Option<DescriptorEmit>)
    ensures
        r is Some <==> !old(registry)@.contains(name@),
        final(registry)@ == old(registry)@.insert(name@),
        r matches Some(e) ==> e.symbol@ == descriptor_symbol(name@) && e.steps@ == steps@,
{
    if !registry.claim(name) {
        return None;
    }
    proof {
        reveal_strlit("__wbindgen_describe_");
    }
    let mut symbol = String::from_str("__wbindgen_describe_");
    symbol.append(name.as_str());
    Some(DescriptorEmit { symbol, steps })
}

/// A descriptor is emitted at most once for each name: of several requests for
/// the same name, only the first (and only if the name was not emitted before)
/// emits one.
pub proof fn lemma_descriptor_emitted_at_most_once(
    emitted: Set<Seq<char>>,
    names: Seq<Seq<char>>,
    i: int,
    j: int,
)
    requires
        0 <= i < j < names.len(),
        names[i] == names[j],
    ensures
        emissions(emitted, names).len() == names.len(),
        !emissions(emitted, names)[j],
    decreases names.len(),
{
    lemma_emissions_len(emitted, names);
    if j == names.len() - 1 {
        assert(names.drop_last()[i] == names.last());
        assert(names.drop_last().contains(names.last()));
    } else {
        lemma_descriptor_emitted_at_most_once(emitted, names.drop_last(), i, j);
        assert(emissions(emitted, names)[j] == emissions(emitted, names.drop_last())[j]);
    }
}

/// The registry after claiming each of `names` in turn, starting from `emitted`.
pub open spec fn claimed(emitted: Set<Seq<char>>, names: Seq<Seq<char>>) -> Set<Seq<char>>
    decreases names.len(),
{
    if names.len() == 0 {
        emitted
    } else {
        claimed(emitted, names.drop_last()).insert(names.last())
    }
}

/// After claiming some names, a name is in the registry when it was before
/// or is one of them.
pub proof fn lemma_claimed_contains(emitted: Set<Seq<char>>, names: Seq<Seq<char>>, x: Seq<char>)
    ensures
        claimed(emitted, names).contains(x) == (emitted.contains(x) || names.contains(x)),
    decreases names.len(),
{
    if names.len() > 0 {
        lemma_claimed_contains(emitted, names.drop_last(), x);
        if names.drop_last().contains(x) {
            let i = choose|i: int| 0 <= i < names.drop_last().len() && names.drop_last()[i] == x;
            assert(names[i] == x);
        }
        if names.contains(x) && x != names.last() {
            let i = choose|i: int| 0 <= i < names.len() && names[i] == x;
            assert(names.drop_last()[i] == x);
        }
    }
}

/// The decisions of `emissions` are those of `DescriptorRegistry::claim`
/// called on each name in turn: a request emits exactly when its name is not
/// yet in the registry.
pub proof fn lemma_emissions_are_claims(emitted: Set<Seq<char>>, names: Seq<Seq<char>>, k: int)
    requires
        0 <= k < names.len(),
    ensures
        emissions(emitted, names).len() == names.len(),
        emissions(emitted, names)[k] == !claimed(emitted, names.take(k)).contains(names[k]),
    decreases names.len(),
{
    lemma_emissions_len(emitted, names);
    lemma_claimed_contains(emitted, names.take(k), names[k]);
    if k == names.len() - 1 {
        assert(names.take(k) =~= names.drop_last());
    } else {
        lemma_emissions_are_claims(emitted, names.drop_last(), k);
        assert(names.drop_last().take(k) =~= names.take(k));
        assert(emissions(emitted, names)[k] == emissions(emitted, names.drop_last())[k]);
    }
}

/// One decision per request.
pub proof fn lemma_emissions_len(emitted: Set<Seq<char>>, names: Seq<Seq<char>>)
    ensures
        emissions(emitted, names).len() == names.len(),
    decreases names.len(),
{
    if names.len() > 0 {
        lemma_emissions_len(emitted, names.drop_last());
    }
}

} // verus!
