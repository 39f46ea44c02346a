//! An index of the classes, fields and methods of an obfuscated API under
//! their two names, read from a corpus of mapping files, and the generation
//! of one accessor type per class from it.

pub mod cache;
pub mod codegen;
pub mod emit;
pub mod enrich;
pub mod ident;
pub mod index;
pub mod model;
pub mod parser;
pub mod resolve;
pub mod sig;
pub mod table;
pub mod text;

pub use crate::cache::{decode_mappings, encode_mappings, load_mappings};
pub use crate::codegen::{
    auto_gen_impl, gen_class, DescriptorError, Dispatch, GenConfig, Operation, Package,
};
pub use crate::enrich::{ClassModifiers, MethodModifiers};
pub use crate::ident::{
    java_to_rust_class, java_to_rust_field, java_to_rust_method, java_to_rust_package,
    method_to_java_convention, normalize, rust_to_java_method, to_rust_convention,
};
pub use crate::index::{get_class, get_multiple_class, ClassGetter, Mappings};
pub use crate::model::{Arg, BareMethod, Class, Field, Method, Modifier};
pub use crate::parser::{
    parse_class_inner, parse_comments, parse_method_args, split_lines, try_parse_class_inner,
    try_parse_method_args, CorpusSyntaxError,
};
pub use crate::resolve::{
    convert_sig, parse_mappings, replace_mappings, resolve_signatures, try_parse_mappings,
};
pub use crate::sig::{
    parse_java_signature, parse_type, try_parse_java_signature, try_parse_type, SigType, Signature,
};
pub use crate::table::NameTable;
