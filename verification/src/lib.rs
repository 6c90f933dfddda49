use vstd::prelude::*;

pub mod args;
pub mod ast;
pub mod asyncio;
pub mod attrgetter;
pub mod bytes;
pub mod bytes_call;
pub mod bytes_laws;
pub mod bytes_ops;
pub mod bytes_text;
pub mod candidates;
pub mod class;
pub mod code;
pub mod contextvar;
pub mod contextvars;
pub mod cwd;
pub mod deque;
pub mod deque_call;
pub mod deque_laws;
pub mod deque_ops;
pub mod dict;
pub mod dict_call;
pub mod dict_iter;
pub mod dict_laws;
pub mod dict_merge;
pub mod dict_ops;
pub mod dict_probe;
pub mod equality;
pub mod event_loop;
pub mod exceptions;
pub mod format_laws;
pub mod hash;
pub mod heap;
pub mod intern;
pub mod model;
pub mod name_map;
pub mod names;
pub mod object_laws;
pub mod parse;
pub mod prepare;
pub mod prepare_spec;
pub mod prepared;
pub mod program;
pub mod repl;
pub mod repl_continuation;
pub mod resource_checks;
pub mod scan;
pub mod scope;
pub mod session_laws;
pub mod shape;
pub mod shape_exprs;
pub mod shape_laws;
pub mod shape_lists;
pub mod shape_nodes;
pub mod shape_parts;
pub mod str_format;
pub mod text;
pub mod tstring;
pub mod value;

verus! {

} // verus!
