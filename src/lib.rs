//! Backend of the Microc compiler: three-address code, basic blocks,
//! control-flow graphs, liveness analysis and Tiny code generation.
pub mod ast;
pub mod codegen;
pub mod cfg;
pub mod symbol_table;
pub mod three_addr_code_ir;
