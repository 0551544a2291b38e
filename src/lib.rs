//! A tree-walking evaluator for a small S-expression language, with lexical
//! closures whose free variables are captured when they are created.
pub mod ast;
pub mod builtins;
pub mod closures;
pub mod display;
pub mod eval;
pub mod laws;
pub mod namespace;
pub mod parser;
pub mod scope;
pub mod semantics;
pub mod token_handlers;
pub mod tokenizer;

pub use ast::{Arity, EvalError, Expr, Function, Scope, SpecialForm, Value};
pub use namespace::builtins;
pub use eval::{eval, eval_function, eval_sexpr};
pub use token_handlers::ParseError;
