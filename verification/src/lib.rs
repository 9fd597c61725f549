//! Planning and framing logic for the code that `#[wasm_bindgen]` emits:
//! which shims, descriptors and conversions are generated for each item of a
//! bindgen program, the names they get, the descriptor words they report and
//! the bytes of the custom section that carries the program's schema.

pub mod text;
pub mod model;
pub mod diagnostic;
pub mod describe;
pub mod shared;
pub mod section;
pub mod export;
pub mod lookup;
pub mod import;
pub mod structs;
pub mod enums;
pub mod constant;
pub mod dictionary;
pub mod respan;
pub mod program;
