use crate::decode::{instruction_of, Instruction};
use vstd::prelude::*;

verus! {

/// Number of general-purpose registers; the last one is the carry flag.
pub const REGISTER_COUNT: usize = 16;

/// Number of addressable bytes of memory.
pub const MEMORY_SIZE: usize = 4096;

/// Number of return addresses the call stack can hold.
pub const STACK_CAPACITY: usize = 16;

/// Index of the register that records the carry of the last addition.
pub const CARRY_FLAG: usize = 0xF;

/// A fatal condition: it ends the run.
#[derive(Clone, Copy, Debug, PartialEq, Eq, Structural)]
pub enum Fault {
    /// A call found every slot of the call stack taken.
    StackOverflow,
    /// A return found the call stack empty.
    StackUnderflow,
    /// The word fetched encodes no instruction of this processor.
    UnimplementedOpcode(u16),
    /// The two bytes at this address do not both lie in memory.
    OutOfBounds(usize),
}

/// Where a run stands after a step.
pub enum Status {
    Running,
    Halted,
    Faulted(Fault),
}

/// The abstract state of the processor. `stack` holds the live return
/// addresses only, oldest first.
pub struct Machine {
    pub registers: Seq<u8>,
    pub memory: Seq<u8>,
    pub pc: nat,
    pub stack: Seq<u16>,
}

/// The status that a run's result reports.
pub open spec fn outcome(r: Result<(), Fault>) -> Status {
    match r {
        Ok(()) => Status::Halted,
        Err(f) => Status::Faulted(f),
    }
}

/// The big-endian word formed by the bytes at `p` and `p + 1`.
pub open spec fn word_at(memory: Seq<u8>, p: int) -> u16 {
    (memory[p] as int * 256 + memory[p + 1] as int) as u16
}

/// The register file after `registers[x] += registers[y]` with wrapping,
/// followed by the carry flag being set to 1 on overflow and to 0 otherwise.
pub open spec fn add_registers(registers: Seq<u8>, x: int, y: int) -> Seq<u8> {
    let sum = registers[x] as int + registers[y] as int;
    registers.update(x, (sum % 256) as u8).update(
        CARRY_FLAG as int,
        if sum >= 256 { 1u8 } else { 0u8 },
    )
}

impl Machine {
    /// Sizes fixed by the hardware, and bounds that every state respects.
    pub open spec fn wf(self) -> bool {
        &&& self.registers.len() == REGISTER_COUNT
        &&& self.memory.len() == MEMORY_SIZE
        &&& self.stack.len() <= STACK_CAPACITY
        &&& self.pc <= u16::MAX
    }

    /// The program counter moved past the two bytes just fetched.
    pub open spec fn advance(self) -> Machine {
        Machine { pc: self.pc + 2, ..self }
    }

    /// The current program counter pushed as a return address, then a jump.
    pub open spec fn push_call(self, addr: u16) -> Machine {
        Machine { stack: self.stack.push(self.pc as u16), pc: addr as nat, ..self }
    }

    /// The newest return address popped into the program counter.
    pub open spec fn pop_return(self) -> Machine {
        Machine { stack: self.stack.drop_last(), pc: self.stack.last() as nat, ..self }
    }

    /// Register `y` added into register `x`, with the carry flag rewritten.
    pub open spec fn add_xy(self, x: int, y: int) -> Machine {
        Machine { registers: add_registers(self.registers, x, y), ..self }
    }

    /// One fetch, advance, decode and execute, and the status it leaves.
    pub open spec fn step(self) -> (Machine, Status) {
        if self.pc + 1 >= MEMORY_SIZE {
            (self, Status::Faulted(Fault::OutOfBounds(self.pc as usize)))
        } else {
            let word = word_at(self.memory, self.pc as int);
            let m = self.advance();
            match instruction_of(word) {
                Instruction::Halt => (m, Status::Halted),
                Instruction::Return => if m.stack.len() == 0 {
                    (m, Status::Faulted(Fault::StackUnderflow))
                } else {
                    (m.pop_return(), Status::Running)
                },
                Instruction::Call(addr) => if m.stack.len() >= STACK_CAPACITY {
                    (m, Status::Faulted(Fault::StackOverflow))
                } else {
                    (m.push_call(addr), Status::Running)
                },
                Instruction::AddXY(x, y) => (m.add_xy(x as int, y as int), Status::Running),
                Instruction::Unimplemented(w) => (m, Status::Faulted(Fault::UnimplementedOpcode(w))),
            }
        }
    }

    /// The state and status after at most `n` steps; the run stops early
    /// at a halt or a fault.
    pub open spec fn run_for(self, n: nat) -> (Machine, Status)
        decreases n,
    {
        if n == 0 {
            (self, Status::Running)
        } else {
            let (m, s) = self.step();
            match s {
                Status::Running => m.run_for((n - 1) as nat),
                _ => (m, s),
            }
        }
    }

    /// How far the frame at `depth` is from the top of the address space:
    /// a caller's frame is at its return address less two, the innermost
    /// frame at the program counter, and a frame not yet opened is farthest.
    pub open spec fn headroom(self, depth: int) -> int {
        if depth < self.stack.len() {
            0x10002 - self.stack[depth] as int
        } else if depth == self.stack.len() {
            0x10000 - self.pc
        } else {
            0x10003
        }
    }
}

/// A run that is still going after `n` steps takes its next step from where
/// it stands.
pub proof fn lemma_run_for_extend(m: Machine, n: nat)
    requires
        m.run_for(n).1 is Running,
    ensures
        m.run_for(n + 1) == m.run_for(n).0.step(),
    decreases n,
{
    if n == 0 {
        assert(m.step().0.run_for(0) == (m.step().0, Status::Running));
    } else {
        lemma_run_for_extend(m.step().0, (n - 1) as nat);
    }
}

/// A run that has stopped stays stopped: two step bounds that both end the
/// run end it in the same state with the same status. So a run's outcome is
/// determined by the state it starts from.
pub proof fn lemma_run_outcome_unique(m: Machine, n1: nat, n2: nat)
    requires
        !(m.run_for(n1).1 is Running),
        !(m.run_for(n2).1 is Running),
    ensures
        m.run_for(n1) == m.run_for(n2),
    decreases n1,
{
    if n1 > 0 && n2 > 0 && m.step().1 is Running {
        lemma_run_outcome_unique(m.step().0, (n1 - 1) as nat, (n2 - 1) as nat);
    }
}

/// A return right after a call pops the address that the call pushed: the
/// machine is back where it stood before the call.
pub proof fn lemma_return_undoes_call(m: Machine, addr: u16)
    requires
        m.pc <= u16::MAX,
    ensures
        m.push_call(addr).pop_return() == m,
{
    assert(m.push_call(addr).stack.drop_last() =~= m.stack);
}

/// A call whose target holds a return resumes, two steps later, at the
/// instruction after the call, with registers, memory and stack as before.
pub proof fn lemma_call_then_return(m: Machine, addr: u16)
    requires
        m.wf(),
        m.pc + 1 < MEMORY_SIZE,
        instruction_of(word_at(m.memory, m.pc as int)) == Instruction::Call(addr),
        addr + 1 < MEMORY_SIZE,
        instruction_of(word_at(m.memory, addr as int)) == Instruction::Return,
        m.stack.len() < STACK_CAPACITY,
    ensures
        m.run_for(2) == (m.advance(), Status::Running),
        m.run_for(2).0.pc == m.pc + 2,
{
    let m1 = m.advance().push_call(addr);
    assert(m.step() == (m1, Status::Running));
    lemma_return_undoes_call(m.advance(), addr);
    assert(m1.advance().pop_return() =~= m.advance()) by {
        assert(m1.advance().stack.drop_last() =~= m.advance().stack);
    }
    assert(m1.step() == (m.advance(), Status::Running));
    assert(m.advance().run_for(0) == (m.advance(), Status::Running));
    assert(m1.run_for(1) == (m.advance(), Status::Running));
    assert(m.run_for(2) == m1.run_for(1));
}

/// A call succeeds exactly while the stack has a free slot, so calls nest
/// to the stack's capacity and one more without a return is an overflow.
pub proof fn lemma_call_depth(m: Machine, addr: u16)
    requires
        m.wf(),
        m.pc + 1 < MEMORY_SIZE,
        instruction_of(word_at(m.memory, m.pc as int)) == Instruction::Call(addr),
    ensures
        m.stack.len() < STACK_CAPACITY ==> m.step() == (
            m.advance().push_call(addr),
            Status::Running,
        ) && m.step().0.stack.len() == m.stack.len() + 1,
        m.stack.len() == STACK_CAPACITY ==> m.step() == (
            m.advance(),
            Status::Faulted(Fault::StackOverflow),
        ),
{
}

/// A return with no call to come back to is a stack underflow.
pub proof fn lemma_return_on_empty_stack(m: Machine)
    requires
        m.wf(),
        m.pc + 1 < MEMORY_SIZE,
        instruction_of(word_at(m.memory, m.pc as int)) == Instruction::Return,
        m.stack.len() == 0,
    ensures
        m.step() == (m.advance(), Status::Faulted(Fault::StackUnderflow)),
{
}

/// A halt ends the run at once: however many more steps are allowed, none
/// is taken, and registers, memory and stack are left as they were.
pub proof fn lemma_halt_stops(m: Machine, n: nat)
    requires
        m.wf(),
        m.pc + 1 < MEMORY_SIZE,
        instruction_of(word_at(m.memory, m.pc as int)) == Instruction::Halt,
        n >= 1,
    ensures
        m.run_for(n) == (m.advance(), Status::Halted),
        m.run_for(n).0.registers == m.registers,
{
}

} // verus!
