//! ScriptGo: a register-based virtual machine, its assembler, binary format,
//! the SGL compiler, the host services that scripts call and the UI engine,
//! with their behaviour stated and proved in Verus.
pub mod instruction;
pub mod assembler;
pub mod text;
pub mod vm;
pub mod binary;
pub mod compiler;
pub mod cli;
pub mod naming;
pub mod host_handlers;
pub mod ui_engine;
pub mod io;
pub mod net;
