//! The bindgen program that code is generated for, held as plain values: the
//! parts of each item that generation reads or emits. Rust types, paths,
//! attributes and expressions are kept as their source text; a type records
//! in addition whether it is a reference, which decides how a value of it
//! crosses the ABI.

use vstd::prelude::*;

verus! {

/// The referent of a reference type.
#[derive(Clone, Debug)]
pub struct RefInfo {
    /// `&mut T` rather than `&T`.
    pub mutable: bool,
    /// Source text of `T`.
    pub elem: String,
}

/// A Rust type.
#[derive(Clone, Debug)]
pub struct TypeExpr {
    /// Source text of the whole type.
    pub text: String,
    /// `Some` when the type is a reference.
    pub reference: Option<RefInfo>,
}

/// The pattern that binds a function argument.
#[derive(Clone, Debug)]
pub enum ArgPattern {
    /// An identifier pattern, possibly with `ref` or a `@` sub-pattern.
    Ident { name: String, by_ref: bool, has_subpat: bool },
    /// The wildcard `_`.
    Wild,
    /// Any other pattern (tuple, struct, ...).
    Other,
}

/// A captured argument `pat: ty`.
#[derive(Clone, Debug)]
pub struct Argument {
    pub pat: ArgPattern,
    pub ty: TypeExpr,
}

/// A function signature as written by the user.
#[derive(Clone, Debug)]
pub struct Function {
    pub name: String,
    pub arguments: Vec<Argument>,
    pub ret: Option<TypeExpr>,
    /// Source text of each attribute carried over to the generated item.
    pub rust_attrs: Vec<String>,
    /// Source text of the visibility.
    pub rust_vis: String,
}

/// How an exported method takes `self`.
#[derive(Clone, Debug)]
pub enum MethodSelf {
    ByValue,
    RefMutable,
    RefShared,
}

/// A Rust function (or method) exported to JS.
#[derive(Clone, Debug)]
pub struct Export {
    pub function: Function,
    pub method_self: Option<MethodSelf>,
    /// The Rust type the function is associated with, if any.
    pub rust_class: Option<String>,
    pub rust_name: String,
    /// Marked `#[wasm_bindgen(start)]`.
    pub start: bool,
    /// The symbol of the generated shim.
    pub rust_symbol: String,
    /// The name the shim is exported under.
    pub export_name: String,
}

/// The kind of an imported method.
#[derive(Clone, Debug)]
pub enum MethodKind {
    Constructor,
    Operation { is_static: bool },
}

/// Whether an imported function is a method of an imported type.
#[derive(Clone, Debug)]
pub enum ImportFunctionKind {
    Method { ty: TypeExpr, kind: MethodKind },
    Normal,
}

/// A JS function imported into Rust.
#[derive(Clone, Debug)]
pub struct ImportFunction {
    pub function: Function,
    pub rust_name: String,
    /// The type JS returns, when it returns anything.
    pub js_ret: Option<TypeExpr>,
    /// JS exceptions are caught and returned as `Err`.
    pub catch: bool,
    pub kind: ImportFunctionKind,
    /// Name of the raw ABI import.
    pub shim: String,
    pub doc_comment: Option<String>,
}

/// A JS global value imported into Rust.
#[derive(Clone, Debug)]
pub struct ImportStatic {
    pub vis: String,
    pub ty: TypeExpr,
    pub shim: String,
    pub rust_name: String,
}

/// A JS class imported into Rust as a type.
#[derive(Clone, Debug)]
pub struct ImportType {
    pub vis: String,
    pub rust_name: String,
    pub attrs: Vec<String>,
    pub doc_comment: Option<String>,
    pub instanceof_shim: String,
    /// Source text of the `is_type_of` function expression.
    pub is_type_of: Option<String>,
    /// Paths of the superclasses, nearest first.
    pub extends: Vec<String>,
}

/// A JS string enumeration imported into Rust.
#[derive(Clone, Debug)]
pub struct ImportEnum {
    pub vis: String,
    pub name: String,
    pub variants: Vec<String>,
    /// The JS string of each variant, in the order of `variants`.
    pub variant_values: Vec<String>,
    pub rust_attrs: Vec<String>,
}

/// The kinds of import.
#[derive(Clone, Debug)]
pub enum ImportKind {
    Function(ImportFunction),
    Static(ImportStatic),
    Type(ImportType),
    Enum(ImportEnum),
}

/// An import, possibly inside a JS namespace.
#[derive(Clone, Debug)]
pub struct Import {
    pub js_namespace: Option<String>,
    pub kind: ImportKind,
}

/// A field of an exported struct.
#[derive(Clone, Debug)]
pub struct StructField {
    pub name: String,
    pub struct_name: String,
    pub readonly: bool,
    pub ty: TypeExpr,
    /// Symbol of the generated getter.
    pub getter: String,
    /// Symbol of the generated setter.
    pub setter: String,
}

/// A Rust struct exported to JS as a class.
#[derive(Clone, Debug)]
pub struct Struct {
    pub rust_name: String,
    pub js_name: String,
    pub fields: Vec<StructField>,
}

/// A variant of an exported C-style enum and its discriminant.
#[derive(Clone, Debug)]
pub struct Variant {
    pub name: String,
    pub value: u32,
}

/// A C-style Rust enum exported to JS.
#[derive(Clone, Debug)]
pub struct Enum {
    pub name: String,
    pub variants: Vec<Variant>,
    /// The ABI value that stands for `None` of `Option<Self>`.
    pub hole: u32,
}

/// The value of a constant. A floating-point value is held by its IEEE 754
/// bit pattern (`f64::to_bits`).
#[derive(Clone, Debug)]
pub enum ConstValue {
    Boolean(bool),
    Float { bits: u64 },
    Signed(i64),
    Unsigned(u64),
    Null,
}

/// A constant of an imported interface.
#[derive(Clone, Debug)]
pub struct Const {
    pub vis: String,
    pub name: String,
    pub class: Option<String>,
    pub ty: TypeExpr,
    pub value: ConstValue,
}

/// A field of an imported dictionary.
#[derive(Clone, Debug)]
pub struct DictionaryField {
    pub rust_name: String,
    pub js_name: String,
    pub required: bool,
    pub ty: TypeExpr,
    pub doc_comment: Option<String>,
}

/// A JS dictionary (plain object with known fields) imported into Rust.
#[derive(Clone, Debug)]
pub struct Dictionary {
    pub name: String,
    pub fields: Vec<DictionaryField>,
    /// Generate a constructor taking the required fields.
    pub ctor: bool,
    pub doc_comment: Option<String>,
    pub ctor_doc_comment: Option<String>,
}

/// A whole bindgen program.
#[derive(Clone, Debug)]
pub struct Program {
    pub exports: Vec<Export>,
    pub imports: Vec<Import>,
    pub enums: Vec<Enum>,
    pub structs: Vec<Struct>,
    pub consts: Vec<Const>,
    pub dictionaries: Vec<Dictionary>,
}

impl ImportKind {
    /// Whether an import of this kind can be placed inside an `impl` block of
    /// its namespace type: only functions can.
    pub fn fits_on_impl(&self) -> (b: bool)
        ensures
            b == (self is Function),
    {
        match self {
            ImportKind::Function(_) => true,
            ImportKind::Static(_) => false,
            ImportKind::Type(_) => false,
            ImportKind::Enum(_) => false,
        }
    }
}

} // verus!
