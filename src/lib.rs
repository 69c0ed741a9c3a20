pub mod decimal;
pub mod instruction;
pub mod parser;
pub mod translator;
pub mod labels;
pub mod machine;
pub mod execution;
pub mod calls;
pub mod compare;

pub use instruction::{ArgsWithTwo, ArithmeticIns, FlowIns, Instruction, LogicalIns};
pub use parser::parse;
pub use translator::Translator;
