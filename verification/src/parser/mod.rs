pub mod ast;
pub mod node;
pub mod tree;

pub use ast::{AttrSpec, AttrType, NixError, ParsedAttrs, StrPart, StringValue, TextRange};
pub use node::NixNode;
pub use tree::{NixFile, NixKind};
pub mod attrs;
