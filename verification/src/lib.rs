//! Random-access queries over waveform traces: symbolic enumeration tables
//! rebuilt from attribute strings, variable-name resolution, and decoding of
//! raw radix-2 signal values into integers or enum symbols.

pub mod tokens;
pub mod radix;
pub mod enum_table;
pub mod registry;
pub mod vars;
pub mod timeline;
pub mod facade;
pub mod laws;
