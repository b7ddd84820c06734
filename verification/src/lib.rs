pub mod datum;
pub mod explain;
pub mod logictest;
pub mod symbols;
pub mod text;
pub mod keyword;
pub mod fault;
pub mod lexer;
pub mod ast;
pub mod parser;
pub mod fields;
pub mod relation;
pub mod catalog;
pub mod analyze;
pub mod strings;
pub mod eval;
pub mod portal;
pub mod txn;
pub mod dml;
pub mod notice;
pub mod upsert;
pub mod block;
pub mod defined;
pub mod returning;
pub mod security;
pub mod change;
pub mod settings;
pub mod supply;
pub mod session;
pub mod value;
pub mod auth;
pub mod hints;
pub mod prepared;
pub mod engine;
pub mod fixtures;
pub mod harness;
pub mod validity;
pub mod window;
pub mod meaning;
pub mod bindings;
pub mod clients;
pub mod conditions;
pub mod grammar;
pub mod kinds;
pub mod results;
pub mod objects;
pub mod programs;
pub mod rights;
pub mod scripts;
pub mod tokens;
pub mod turns;
pub mod wording;
pub mod writes;
pub mod laws;
