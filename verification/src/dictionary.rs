//! Imported dictionaries: a JS object type with a builder method per field
//! and, optionally, a constructor taking the required fields in order.

use vstd::prelude::*;
use crate::import::doc_text;
use crate::model::{Dictionary, DictionaryField};

verus! {

/// The positions of the required fields among the first `n` fields, in order.
pub open spec fn required_positions(fields: Seq<DictionaryField>, n: nat) -> Seq<int>
    decreases n,
{
    if n == 0 {
        Seq::empty()
    } else {
        let rest = required_positions(fields, (n - 1) as nat);
        if fields[n - 1].required {
            rest.push(n - 1)
        } else {
            rest
        }
    }
}

/// The constructor of a dictionary takes exactly its required fields, each
/// once, in the order the fields are declared.
pub proof fn lemma_required_positions(fields: Seq<DictionaryField>, n: nat)
    requires
        n <= fields.len(),
    ensures
        forall|k: int| 0 <= k < required_positions(fields, n).len() ==> {
            let i = #[trigger] required_positions(fields, n)[k];
            0 <= i < n && fields[i].required
        },
        forall|a: int, b: int| 0 <= a < b < required_positions(fields, n).len() ==>
            required_positions(fields, n)[a] < required_positions(fields, n)[b],
        forall|i: int| 0 <= i < n && (#[trigger] fields[i]).required ==> required_positions(fields, n).contains(i),
    decreases n,
{
    if n > 0 {
        lemma_required_positions(fields, (n - 1) as nat);
        let rest = required_positions(fields, (n - 1) as nat);
        if fields[n - 1].required {
            assert forall|i: int| 0 <= i < n && (#[trigger] fields[i]).required implies required_positions(fields, n).contains(i) by {
                if i < n - 1 {
                    let k = choose|k: int| 0 <= k < rest.len() && rest[k] == i;
                    assert(required_positions(fields, n)[k] == i);
                } else {
                    assert(required_positions(fields, n)[rest.len() as int] == i);
                }
            }
        }
    }
}

/// The name of the constant that scopes a dictionary's trait impls.
pub open spec fn dictionary_const_name(name: Seq<char>) -> Seq<char> {
    "_CONST_"@ + name
}

/// What the type generated for a dictionary is made of.
#[derive(Debug)]
pub struct DictionaryPlan {
    /// The positions of the required fields, in order: the constructor's
    /// parameters, each set through its field's builder method.
    pub required: Vec<usize>,
    /// The constructor's doc comment (empty when there is none), when a
    /// constructor is generated.
    pub ctor_doc: Option<String>,
    /// The type's doc comment, empty when there is none.
    pub doc_comment: String,
    /// The doc comment of each field's builder method, empty when there is none.
    pub field_docs: Vec<String>,
    /// Name of the constant that scopes the trait impls.
    pub const_name: String,
}

/// The plan of a dictionary's type: the required fields in order, the
/// constructor when asked for, the doc comments, and the scoping constant.
pub open spec fn dictionary_plan_ok(d: Dictionary, r: DictionaryPlan) -> bool {
    &&& r.required@.map_values(|i: usize| i as int) == required_positions(d.fields@, d.fields@.len())
    &&& (r.ctor_doc is Some == d.ctor)
    &&& (r.ctor_doc matches Some(doc) ==> doc@ == doc_text(d.ctor_doc_comment))
    &&& r.doc_comment@ == doc_text(d.doc_comment)
    &&& r.field_docs@.len() == d.fields@.len()
    &&& forall|i: int| 0 <= i < d.fields@.len() ==> (#[trigger] r.field_docs@[i])@ == doc_text(
        d.fields@[i].doc_comment,
    )
    &&& r.const_name@ == dictionary_const_name(d.name@)
}

/// Plans the type generated for a dictionary.
pub fn plan_dictionary(d: &Dictionary) -> (r: DictionaryPlan)
    ensures
        dictionary_plan_ok(*d, r),
        r.ctor_doc is Some <==> d.ctor,
{
    let mut required: Vec<usize> = Vec::new();
    let mut field_docs: Vec<String> = Vec::new();
    let mut i: usize = 0;
    while i < d.fields.len()
        invariant
            0 <= i <= d.fields@.len(),
            required@.map_values(|k: usize| k as int) == required_positions(d.fields@, i as nat),
            field_docs@.len() == i,
            forall|k: int| 0 <= k < i ==> (#[trigger] field_docs@[k])@ == doc_text(d.fields@[k].doc_comment),
        decreases d.fields@.len() - i,
    {
        let ghost before = required@;
        if d.fields[i].required {
            required.push(i);
            assert(required@.map_values(|k: usize| k as int) =~= before.map_values(|k: usize| k as int).push(i as int));
        }
        let doc = match &d.fields[i].doc_comment {
            Some(c) => c.clone(),
            None => String::new(),
        };
        field_docs.push(doc);
        i = i + 1;
    }
    let ctor_doc = if d.ctor {
        Some(match &d.ctor_doc_comment {
            Some(c) => c.clone(),
            None => String::new(),
        })
    } else {
        None
    };
    let doc_comment = match &d.doc_comment {
        Some(c) => c.clone(),
        None => String::new(),
    };
    let mut const_name = String::from_str("_CONST_");
    const_name.append(d.name.as_str());
    DictionaryPlan { required, ctor_doc, doc_comment, field_docs, const_name }
}

/// The type of a dictionary has a constructor exactly when the dictionary
/// asks for one, whichever fields are required; the constructor takes each
/// required field once, in declaration order, and nothing else; and each field
/// has its builder method.
pub proof fn lemma_dictionary_plan_follows_dictionary(d: Dictionary, r: DictionaryPlan)
    requires
        dictionary_plan_ok(d, r),
    ensures
        r.ctor_doc is Some <==> d.ctor,
        forall|k: int| 0 <= k < r.required@.len() ==> (#[trigger] r.required@[k]) < d.fields@.len()
            && d.fields@[r.required@[k] as int].required,
        forall|a: int, b: int| 0 <= a < b < r.required@.len() ==> #[trigger] r.required@[a] < #[trigger] r.required@[b],
        forall|i: int| 0 <= i < d.fields@.len() && (#[trigger] d.fields@[i]).required ==> r.required@.contains(i as usize),
        r.field_docs@.len() == d.fields@.len(),
{
    let pos = required_positions(d.fields@, d.fields@.len());
    lemma_required_positions(d.fields@, d.fields@.len());
    assert forall|k: int| 0 <= k < r.required@.len() implies (#[trigger] r.required@[k]) < d.fields@.len()
        && d.fields@[r.required@[k] as int].required by {
        assert(r.required@.map_values(|i: usize| i as int)[k] == pos[k]);
    }
    assert forall|a: int, b: int| 0 <= a < b < r.required@.len() implies #[trigger] r.required@[a] < #[trigger] r.required@[b] by {
        assert(r.required@.map_values(|i: usize| i as int)[a] == pos[a]);
        assert(r.required@.map_values(|i: usize| i as int)[b] == pos[b]);
    }
    assert forall|i: int| 0 <= i < d.fields@.len() && (#[trigger] d.fields@[i]).required implies r.required@.contains(i as usize) by {
        assert(pos.contains(i));
        let k = choose|k: int| 0 <= k < pos.len() && pos[k] == i;
        assert(r.required@.map_values(|j: usize| j as int)[k] == pos[k]);
        assert(r.required@[k] == i as usize);
    }
}

} // verus!
