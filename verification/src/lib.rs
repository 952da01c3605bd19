//! An interpreter core for Knuth's MIX computer.

pub mod address;
pub mod arithmetic;
pub mod codec;
pub mod comparison;
pub mod helper_functions;
pub mod jump;
pub mod load_store;
pub mod mix_machine;
pub mod mix_operations;
pub mod moving;
pub mod shift;
pub mod step;
pub mod text;
pub mod transfer;
pub mod word;
