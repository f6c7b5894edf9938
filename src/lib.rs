//! A small dynamically typed scripting language: its lexer, its grammar and
//! parser (with loop desugaring), and the rules its evaluator runs on: scope
//! frames, control-flow signals, switch clause selection, the operator,
//! truthiness, equality and member-access tables; and the reading of a
//! project's start script.

pub mod error;
pub mod text;
pub mod lexer;
pub mod ast;
pub mod parser;
pub mod grammar;
pub mod environment;
pub mod flow;
pub mod operators;
pub mod cli;
pub mod config;

pub use error::{ErrorKind, Location, MewError, MewResult};
pub use lexer::{MewLexer, Token, TokenKind};
pub use parser::{Parser, parse_program};
pub use ast::{BinaryOp, Expr, Literal, Stmt, UnaryOp};
pub use environment::Environment;
pub use flow::{Completion, LoopStep};
pub use operators::{Action, Kind};
pub use cli::{Cli, Commands};
