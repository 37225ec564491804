//! The markup language core: node model, concrete parse tree, grammar
//! (a recursive-descent PEG parser), and the AST builder.

pub mod ast;
pub mod builder;
pub mod errors;
pub mod grammar;
pub mod laws;
pub mod scan;
pub mod tree;

pub use ast::add_class;
pub use ast::comment;
pub use ast::desc;
pub use ast::elem;
pub use ast::heading;
pub use ast::text;
pub use ast::AttrMap;
pub use ast::Children;
pub use ast::ElementParams;
pub use ast::HeadingParams;
pub use ast::Node;
pub use ast::NodeType;
pub use builder::parse_nodes;
pub use builder::parse_nodes_with_limit;
pub use errors::BuildError;
pub use errors::ParseError;
pub use grammar::parse_html;
pub use grammar::parse_html_with_limit;
pub use grammar::DEFAULT_MAX_DEPTH;
pub use tree::ParseTree;
