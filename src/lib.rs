//! A small byte-code processor: 16 eight-bit registers, 4096 bytes of memory,
//! and a 16-entry call stack, driven by a fetch-decode-execute loop.

mod cpu;
mod decode;
mod machine;

pub use cpu::CPU;
pub use decode::{classify, decode, instruction_of, nibbles_of, Instruction, Nibbles};
pub use machine::{
    lemma_call_depth, lemma_call_then_return, lemma_halt_stops, lemma_return_on_empty_stack,
    lemma_return_undoes_call, lemma_run_for_extend, lemma_run_outcome_unique, outcome, word_at,
    add_registers, Fault, Machine, Status, CARRY_FLAG, MEMORY_SIZE, REGISTER_COUNT,
    STACK_CAPACITY,
};
