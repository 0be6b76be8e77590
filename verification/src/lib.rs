//! Verified core of the Basic Next toolchain: the BN IR model and its
//! validator, the function-name protocol, the argument handling of the
//! `BNCrypto` and `BNJson` library providers, and the decisions and text
//! emitters of the LLVM backend.
pub mod casts;
pub mod cfg;
pub mod checks;
pub mod codegen;
pub mod crypto;
pub mod dataframe;
pub mod emission;
pub mod fields;
pub mod hierarchy;
pub mod instructions;
pub mod json;
pub mod layout;
pub mod llvm;
pub mod model;
pub mod names;
pub mod print;
pub mod source;
pub mod symbols;
pub mod text;
pub mod types;
pub mod typing;
pub mod validate;
pub mod value;
