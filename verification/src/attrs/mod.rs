//! The arguments of the attributes that declare commands: what each item
//! means, and which combinations are refused.

pub mod syntax;
pub mod options;
pub mod command_spec;
pub mod command;
pub mod arg_spec;
pub mod arg;
pub mod param;
