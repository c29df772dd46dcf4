//! Conversion of textual character descriptions (hexadecimal or decimal code
//! points, hexadecimal UTF-8 byte strings, names looked up in `;`-separated
//! lists) into characters, with every rule stated and proved.

pub mod chybky;
pub mod hexa;
pub mod text;
pub mod mi;
pub mod prefixy;
