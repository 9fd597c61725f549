//! The custom section that carries a program to the CLI tool. Its bytes are
//! the length of a JSON prefix as four little-endian bytes, the JSON prefix
//! itself (`{"schema_version":"..","version":".."}`, in UTF-8), and the encoded
//! program. The section lives in a static whose name is unique per program.

use vstd::prelude::*;
use vstd::string::StringSliceAdditionalSpecFns;
use crate::shared;

verus! {

/// The JSON prefix naming the schema version and the version of the tool
/// that produced the section.
pub open spec fn prefix_json_text(schema_version: Seq<char>, version: Seq<char>) -> Seq<char> {
    "{\"schema_version\":\""@ + schema_version + "\",\"version\":\""@ + version + "\"}"@
}

/// Writes the JSON prefix for the given schema version and tool version.
pub fn prefix_json(schema_version: &str, version: &str) -> (r: String)
    ensures
        r@ == prefix_json_text(schema_version@, version@),
{
    let mut r = String::from_str("{\"schema_version\":\"");
    r.append(schema_version);
    r.append("\",\"version\":\"");
    r.append(version);
    r.append("\"}");
    r
}

/// The JSON prefix of the versions built here.
pub fn current_prefix_json() -> (r: String)
    ensures
        exists|v: Seq<char>| r@ == prefix_json_text("0.2.47"@, v) && shared::is_tool_version(v),
{
    let s = shared::schema_version();
    let v = shared::version();
    let r = prefix_json(s, v.as_str());
    assert(r@ == prefix_json_text("0.2.47"@, v@));
    r
}

/// The four bytes of `n` in little-endian order, each byte keeping the low
/// eight bits of `n` shifted right by 0, 8, 16 and 24 (so only `n` modulo
/// 2^32 is kept).
pub open spec fn le32_bytes(n: nat) -> Seq<u8> {
    seq![
        (n % 256) as u8,
        ((n / 256) % 256) as u8,
        ((n / 65536) % 256) as u8,
        ((n / 16777216) % 256) as u8,
    ]
}

/// The number that four little-endian bytes stand for.
pub open spec fn le32_value(b: Seq<u8>) -> nat {
    (b[0] + 256 * b[1] + 65536 * b[2] + 16777216 * b[3]) as nat
}

/// The bytes of the section: the length prefix, the JSON prefix, the program.
pub open spec fn section_bytes(prefix: Seq<u8>, program: Seq<u8>) -> Seq<u8> {
    le32_bytes(prefix.len()) + prefix + program
}

/// Lays out the section for a JSON prefix and an encoded program.
pub fn custom_section(prefix_json: &str, program: &[u8]) -> (r: Vec<u8>)
    ensures
        r@ == section_bytes(prefix_json.spec_bytes(), program@),
{
    let prefix = prefix_json.as_bytes();
    let len = prefix.len();
    let mut bytes: Vec<u8> = Vec::new();
    bytes.push((len % 256) as u8);
    bytes.push(((len / 256) % 256) as u8);
    bytes.push(((len / 65536) % 256) as u8);
    bytes.push(((len / 16777216) % 256) as u8);
    assert(bytes@ =~= le32_bytes(prefix_json.spec_bytes().len()));
    let ghost head = bytes@;
    let mut i: usize = 0;
    while i < prefix.len()
        invariant
            0 <= i <= prefix@.len(),
            bytes@ == head + prefix@.take(i as int),
        decreases prefix@.len() - i,
    {
        bytes.push(prefix[i]);
        i = i + 1;
        assert(bytes@ =~= head + prefix@.take(i as int));
    }
    assert(prefix@.take(prefix@.len() as int) =~= prefix@);
    let ghost middle = bytes@;
    let mut j: usize = 0;
    while j < program.len()
        invariant
            0 <= j <= program@.len(),
            bytes@ == middle + program@.take(j as int),
        decreases program@.len() - j,
    {
        bytes.push(program[j]);
        j = j + 1;
        assert(bytes@ =~= middle + program@.take(j as int));
    }
    assert(program@.take(program@.len() as int) =~= program@);
    bytes
}

/// The length prefix reads back, as a little-endian number, as the length of
/// the JSON prefix whenever that length fits in 32 bits; and the JSON prefix
/// and the program follow it unchanged.
pub proof fn lemma_section_reads_back(prefix: Seq<u8>, program: Seq<u8>)
    requires
        prefix.len() < 4294967296,
    ensures
        le32_value(section_bytes(prefix, program).subrange(0, 4)) == prefix.len(),
        section_bytes(prefix, program).subrange(4, 4 + prefix.len() as int) == prefix,
        section_bytes(prefix, program).subrange(4 + prefix.len() as int, section_bytes(prefix, program).len() as int) == program,
{
    let n = prefix.len();
    let b = le32_bytes(n);
    let s = section_bytes(prefix, program);
    assert(s.subrange(0, 4) =~= b);
    assert(s.subrange(4, 4 + n as int) =~= prefix);
    assert(s.subrange(4 + n as int, s.len() as int) =~= program);
    lemma_le32_reads_back(n);
}

/// Splitting a number below 2^32 into four little-endian bytes and reading
/// them back gives the number.
pub proof fn lemma_le32_reads_back(n: nat)
    requires
        n < 4294967296,
    ensures
        le32_value(le32_bytes(n)) == n,
{
    let b = le32_bytes(n);
    let q1 = n / 256;
    let q2 = q1 / 256;
    let q3 = q2 / 256;
    assert(n == 256 * q1 + n % 256);
    assert(q1 == 256 * q2 + q1 % 256);
    assert(q2 == 256 * q3 + q2 % 256);
    assert(q3 < 256) by (nonlinear_arith)
        requires
            n < 4294967296,
            q1 == n / 256,
            q2 == q1 / 256,
            q3 == q2 / 256,
    ;
    assert(n / 65536 == q2) by (nonlinear_arith)
        requires
            q1 == n / 256,
            q2 == q1 / 256,
    ;
    assert(n / 16777216 == q3) by (nonlinear_arith)
        requires
            q1 == n / 256,
            q2 == q1 / 256,
            q3 == q2 / 256,
    ;
    assert(b[0] == n % 256);
    assert(b[1] == q1 % 256);
    assert(b[2] == q2 % 256);
    assert(b[3] == q3 % 256);
    assert(q3 % 256 == q3);
    assert(le32_value(b) == n) by (nonlinear_arith)
        requires
            n == 256 * q1 + n % 256,
            q1 == 256 * q2 + q1 % 256,
            q2 == 256 * q3 + q2 % 256,
            b[0] == n % 256,
            b[1] == q1 % 256,
            b[2] == q2 % 256,
            b[3] == q3,
            le32_value(b) == (b[0] + 256 * b[1] + 65536 * b[2] + 16777216 * b[3]) as nat,
    ;
}

/// The name of the static that holds the section: a fixed prefix and the
/// hexadecimal hash that makes it unique to the program.
pub open spec fn static_name(hash: Seq<char>) -> Seq<char> {
    "__WASM_BINDGEN_GENERATED_"@ + hash
}

/// Names the static that holds the section, from the program's hash.
pub fn generated_static_name(hash: &str) -> (r: String)
    ensures
        r@ == static_name(hash@),
{
    let mut r = String::from_str("__WASM_BINDGEN_GENERATED_");
    r.append(hash);
    r
}

} // verus!
