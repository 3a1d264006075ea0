pub mod round;
pub mod game;
pub mod text;
pub mod model;
pub mod options;
pub mod declare;
pub mod expand;
pub mod dynamic_fn;
pub mod tuples;
pub mod marker;
pub mod wrap;
pub mod script;
pub mod path;
pub mod statics;
pub mod rhai;
pub mod lua;
pub mod namespace;
pub mod ledger;
pub mod init;
