//! A small inline markup notation for chat messages: text is split into
//! tokens, parsed into a tree of nodes, and rendered in a Markdown or an HTML
//! dialect, each with its own rules of escaping.
//!
//! Every function states what it returns over the mathematical view of its
//! arguments, and Verus proves that it does. What is taken on trust of other
//! crates and of the standard library is marked where it stands.

pub mod ast;
pub mod conditional;
pub mod error;
pub mod escape;
pub mod formatter;
pub mod generator;
pub mod parser;
pub mod table;
pub mod text;
pub mod theorems;
pub mod token;

pub use ast::{
    flatten, CellAlign, Condition, ConditionalFormat, Element, ListItem, ListNode, ListStyle,
    PreBlock, TableCell, TableNode, TableRow, TableStyle,
};
pub use error::Error;
pub use formatter::CustomFormatter;
pub use generator::{Generate, Generator, ParseMode};
pub use parser::{parse, Parse, ParseStream};
pub use token::Token;
