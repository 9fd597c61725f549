//! The names and versions that the generated code shares with the CLI tool,
//! as `wasm-bindgen-shared` defines them. Each function here is a trusted
//! wrapper: its contract is taken from the crate's source and not proved.

use vstd::prelude::*;
use vstd::utf8::is_ascii_chars;

verus! {

/// ASCII lowercasing: `A`..`Z` become `a`..`z`, every other character stays.
pub open spec fn ascii_lowercase(s: Seq<char>) -> Seq<char> {
    s.map_values(
        |c: char|
            if 65 <= (c as u32) <= 90 {
                ((c as u32) + 32) as char
            } else {
                c
            },
    )
}

/// What `wasm_bindgen_shared::new_function` returns for a struct name.
pub uninterp spec fn shared_new_function(struct_name: Seq<char>) -> Seq<char>;

/// What `wasm_bindgen_shared::free_function` returns for a struct name.
pub uninterp spec fn shared_free_function(struct_name: Seq<char>) -> Seq<char>;

/// Calls `wasm_bindgen_shared::new_function`, the name of the JS import that
/// wraps a new Rust object of the struct into a JS object. Its source builds
/// `__wbg_`, the struct name lowercased char by char (`char::to_lowercase`),
/// and `_new`. The contract states the prefix and suffix for every name, and
/// the whole result for ASCII names, whose lowercasing is `A`..`Z` to
/// `a`..`z`; for other names the lowercased part is left unsaid.
#[verifier::external_body]
pub(crate) fn new_function_name(struct_name: &str) -> (r: String)
    ensures
        r@ == shared_new_function(struct_name@),
        r@.len() >= 10,
        r@.subrange(0, 6) == "__wbg_"@,
        r@.subrange(r@.len() - 4, r@.len() as int) == "_new"@,
        is_ascii_chars(struct_name@) ==> r@ == "__wbg_"@ + ascii_lowercase(struct_name@) + "_new"@,
{
    wasm_bindgen_shared::new_function(struct_name)
}

/// Calls `wasm_bindgen_shared::free_function`, the name of the export that
/// frees a Rust object of the struct. Its source builds `__wbg_`, the struct
/// name lowercased char by char, and `_free`; the contract states it as for
/// `new_function_name`.
#[verifier::external_body]
pub(crate) fn free_function_name(struct_name: &str) -> (r: String)
    ensures
        r@ == shared_free_function(struct_name@),
        r@.len() >= 11,
        r@.subrange(0, 6) == "__wbg_"@,
        r@.subrange(r@.len() - 5, r@.len() as int) == "_free"@,
        is_ascii_chars(struct_name@) ==> r@ == "__wbg_"@ + ascii_lowercase(struct_name@) + "_free"@,
{
    wasm_bindgen_shared::free_function(struct_name)
}

/// Reads `wasm_bindgen_shared::SCHEMA_VERSION`, which the crate defines as its
/// own package version, `0.2.47` in the version built here.
#[verifier::external_body]
pub(crate) fn schema_version() -> (r: &'static str)
    ensures
        r@ == "0.2.47"@,
{
    wasm_bindgen_shared::SCHEMA_VERSION
}

/// The text of a tool version of the crate built here: the package version
/// `0.2.47`, alone or followed by ` (`, a build description, and `)`.
pub open spec fn is_tool_version(v: Seq<char>) -> bool {
    v == "0.2.47"@ || exists|build: Seq<char>| v == "0.2.47 ("@ + build + ")"@
}

/// Calls `wasm_bindgen_shared::version`: the package version `0.2.47`,
/// followed by ` (`, the `WBG_VERSION` set when the crate was compiled, and
/// `)` when that variable was set. What it was set to is left unsaid.
#[verifier::external_body]
pub(crate) fn version() -> (r: String)
    ensures
        is_tool_version(r@),
{
    wasm_bindgen_shared::version()
}

} // verus!
