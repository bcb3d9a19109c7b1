use crate::decode::{classify, instruction_of, Instruction};
use crate::machine::{
    add_registers, lemma_run_for_extend, outcome, Status, word_at, Fault, Machine, CARRY_FLAG, MEMORY_SIZE, REGISTER_COUNT,
    STACK_CAPACITY,
};
use vstd::prelude::*;

verus! {

/// The processor: registers, memory, program counter and call stack.
///
/// A caller seeds `registers` and `memory` (and, if it wishes, the program
/// counter) and then calls [`CPU::run`].
pub struct CPU {
    pub registers: [u8; 16],
    pub position_in_memory: usize,
    pub memory: [u8; 4096],
    pub stack: [u16; 16],
    pub stack_pointer: usize,
}

impl View for CPU {
    type V = Machine;

    open spec fn view(&self) -> Machine {
        Machine {
            registers: self.registers@,
            memory: self.memory@,
            pc: self.position_in_memory as nat,
            stack: self.stack@.subrange(0, self.stack_pointer as int),
        }
    }
}

impl CPU {
    /// The stack pointer stays within the stack, and the program counter
    /// fits the 16-bit slots of the stack.
    pub open spec fn wf(&self) -> bool {
        &&& self.stack_pointer <= STACK_CAPACITY
        &&& self.position_in_memory <= u16::MAX
    }

    /// A processor with every register, byte, and stack slot zero.
    pub fn new() -> (r: CPU)
        ensures
            r.wf(),
            r@.registers == Seq::new(REGISTER_COUNT as nat, |i: int| 0u8),
            r@.memory == Seq::new(MEMORY_SIZE as nat, |i: int| 0u8),
            r@.pc == 0,
            r@.stack == Seq::<u16>::empty(),
    {
        let r = CPU {
            registers: [0u8; 16],
            position_in_memory: 0,
            memory: [0u8; 4096],
            stack: [0u16; 16],
            stack_pointer: 0,
        };
        assert(r@.registers =~= Seq::new(REGISTER_COUNT as nat, |i: int| 0u8));
        assert(r@.memory =~= Seq::new(MEMORY_SIZE as nat, |i: int| 0u8));
        assert(r@.stack =~= Seq::<u16>::empty());
        r
    }

    /// Reads the instruction word at the program counter: the byte there
    /// shifted into the high half, the next byte in the low half.
    pub fn read_opcode(&self) -> (r: Result<u16, Fault>)
        ensures
            self.position_in_memory + 1 < MEMORY_SIZE ==> r == Ok::<u16, Fault>(
                word_at(self@.memory, self.position_in_memory as int),
            ),
            self.position_in_memory + 1 >= MEMORY_SIZE ==> r == Err::<u16, Fault>(
                Fault::OutOfBounds(self.position_in_memory),
            ),
    {
        let p = self.position_in_memory;
        if p >= MEMORY_SIZE - 1 {
            return Err(Fault::OutOfBounds(p));
        }
        let op_byte1 = self.memory[p] as u16;
        let op_byte2 = self.memory[p + 1] as u16;
        let word = op_byte1 << 8 | op_byte2;
        assert(word == op_byte1 * 256 + op_byte2) by (bit_vector)
            requires
                word == op_byte1 << 8 | op_byte2,
                op_byte1 < 256,
                op_byte2 < 256,
        ;
        Ok(word)
    }

    /// Pushes the program counter as a return address and jumps to `addr`.
    /// A full stack is a fault, and leaves the processor as it was.
    pub fn call(&mut self, addr: u16) -> (r: Result<(), Fault>)
        requires
            old(self).wf(),
        ensures
            final(self).wf(),
            old(self)@.stack.len() < STACK_CAPACITY ==> r == Ok::<(), Fault>(())
                && final(self)@ == old(self)@.push_call(addr),
            old(self)@.stack.len() >= STACK_CAPACITY ==> r == Err::<(), Fault>(
                Fault::StackOverflow,
            ) && *final(self) == *old(self),
    {
        let sp = self.stack_pointer;
        if sp >= self.stack.len() {
            return Err(Fault::StackOverflow);
        }
        self.stack[sp] = self.position_in_memory as u16;
        self.stack_pointer += 1;
        self.position_in_memory = addr as usize;
        assert(self@.stack =~= old(self)@.stack.push(old(self).position_in_memory as u16));
        Ok(())
    }

    /// Pops the newest return address into the program counter. An empty
    /// stack is a fault, and leaves the processor as it was.
    pub fn ret(&mut self) -> (r: Result<(), Fault>)
        requires
            old(self).wf(),
        ensures
            final(self).wf(),
            old(self)@.stack.len() > 0 ==> r == Ok::<(), Fault>(())
                && final(self)@ == old(self)@.pop_return(),
            old(self)@.stack.len() == 0 ==> r == Err::<(), Fault>(Fault::StackUnderflow)
                && *final(self) == *old(self),
    {
        if self.stack_pointer == 0 {
            return Err(Fault::StackUnderflow);
        }
        self.stack_pointer -= 1;
        let addr = self.stack[self.stack_pointer];
        self.position_in_memory = addr as usize;
        assert(self@.stack =~= old(self)@.stack.drop_last());
        Ok(())
    }

    /// Adds register `y` into register `x` modulo 256, and sets the carry
    /// flag to 1 if the sum overflowed eight bits, to 0 otherwise.
    pub fn add_xy(&mut self, x: u8, y: u8)
        requires
            x < REGISTER_COUNT,
            y < REGISTER_COUNT,
        ensures
            final(self)@ == old(self)@.add_xy(x as int, y as int),
            final(self).stack == old(self).stack,
            final(self).stack_pointer == old(self).stack_pointer,
            x != CARRY_FLAG ==> final(self).registers[x as int] == (old(self).registers[x as int]
                + old(self).registers[y as int]) % 256,
            final(self).registers[CARRY_FLAG as int] == if old(self).registers[x as int] as int
                + old(self).registers[y as int] >= 256 {
                1u8
            } else {
                0u8
            },
    {
        let arg1 = self.registers[x as usize];
        let arg2 = self.registers[y as usize];
        let val = arg1.wrapping_add(arg2);
        let overflow_detected = arg1.checked_add(arg2).is_none();
        self.registers[x as usize] = val;
        if overflow_detected {
            self.registers[CARRY_FLAG] = 1;
        } else {
            self.registers[CARRY_FLAG] = 0;
        }
        assert(self@.registers =~= add_registers(old(self)@.registers, x as int, y as int));
    }

    /// Fetches, advances the program counter by two, decodes and executes,
    /// until a halt (`Ok`) or a fault (`Err`). The final state and result
    /// are those of the abstract machine run from the initial state.
    pub fn run(&mut self) -> (r: Result<(), Fault>)
        requires
            old(self).wf(),
        ensures
            final(self).wf(),
            exists|n: nat| old(self)@.run_for(n) == (final(self)@, outcome(r)),
    {
        let ghost start = self@;
        let ghost mut steps: nat = 0;
        loop
            invariant
                self.wf(),
                start == old(self)@,
                start.run_for(steps) == (self@, Status::Running),
            decreases
                self@.headroom(0), self@.headroom(1), self@.headroom(2), self@.headroom(3),
                self@.headroom(4), self@.headroom(5), self@.headroom(6), self@.headroom(7),
                self@.headroom(8), self@.headroom(9), self@.headroom(10), self@.headroom(11),
                self@.headroom(12), self@.headroom(13), self@.headroom(14), self@.headroom(15),
                self@.headroom(16),
        {
            proof {
                lemma_run_for_extend(start, steps);
                steps = steps + 1;
            }
            let opcode = match self.read_opcode() {
                Ok(w) => w,
                Err(f) => {
                    assert(start.run_for(steps) == (self@, outcome(Err(f))));
                    return Err(f);
                },
            };
            self.position_in_memory += 2;
            match classify(opcode) {
                Instruction::Halt => {
                    assert(start.run_for(steps) == (self@, outcome(Ok(()))));
                    return Ok(());
                },
                Instruction::Return => {
                    if let Err(f) = self.ret() {
                        assert(start.run_for(steps) == (self@, outcome(Err(f))));
                        return Err(f);
                    }
                },
                Instruction::Call(nnn) => {
                    if let Err(f) = self.call(nnn) {
                        assert(start.run_for(steps) == (self@, outcome(Err(f))));
                        return Err(f);
                    }
                },
                Instruction::AddXY(x, y) => {
                    self.add_xy(x, y);
                },
                Instruction::Unimplemented(w) => {
                    let f = Fault::UnimplementedOpcode(w);
                    assert(start.run_for(steps) == (self@, outcome(Err(f))));
                    return Err(f);
                },
            }
        }
    }
}

} // verus!
