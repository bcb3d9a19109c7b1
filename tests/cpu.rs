use tiny_cpu::{classify, decode, Fault, Instruction, CPU};

fn load(cpu: &mut CPU, at: usize, words: &[u16]) {
    for (i, w) in words.iter().enumerate() {
        cpu.memory[at + 2 * i] = (w >> 8) as u8;
        cpu.memory[at + 2 * i + 1] = (w & 0xFF) as u8;
    }
}

#[test]
fn new_processor_is_zeroed() {
    let cpu = CPU::new();
    assert!(cpu.registers.iter().all(|&r| r == 0));
    assert!(cpu.memory.iter().all(|&b| b == 0));
    assert_eq!(cpu.position_in_memory, 0);
    assert_eq!(cpu.stack_pointer, 0);
}

#[test]
fn decode_splits_nibbles_and_address() {
    let n = decode(0x8014);
    assert_eq!((n.c, n.x, n.y, n.d, n.nnn), (8, 0, 1, 4, 0x014));
    let n = decode(0x2ABC);
    assert_eq!((n.c, n.x, n.y, n.d, n.nnn), (2, 0xA, 0xB, 0xC, 0xABC));
}

#[test]
fn classify_recognises_each_instruction() {
    assert_eq!(classify(0x0000), Instruction::Halt);
    assert_eq!(classify(0x00EE), Instruction::Return);
    assert_eq!(classify(0x2100), Instruction::Call(0x100));
    assert_eq!(classify(0x8014), Instruction::AddXY(0, 1));
    assert_eq!(classify(0x8015), Instruction::Unimplemented(0x8015));
    assert_eq!(classify(0x00E0), Instruction::Unimplemented(0x00E0));
}

#[test]
fn read_opcode_is_big_endian() {
    let mut cpu = CPU::new();
    cpu.memory[0x10] = 0xAB;
    cpu.memory[0x11] = 0xCD;
    cpu.position_in_memory = 0x10;
    assert_eq!(cpu.read_opcode(), Ok(0xABCD));
    cpu.position_in_memory = 4095;
    assert_eq!(cpu.read_opcode(), Err(Fault::OutOfBounds(4095)));
}

#[test]
fn add_wraps_and_sets_carry_for_every_pair() {
    for a in 0..=255u16 {
        for b in 0..=255u16 {
            let mut cpu = CPU::new();
            cpu.registers[3] = a as u8;
            cpu.registers[7] = b as u8;
            cpu.registers[0xF] = 7;
            cpu.add_xy(3, 7);
            assert_eq!(cpu.registers[3] as u16, (a + b) % 256);
            assert_eq!(cpu.registers[7] as u16, b);
            assert_eq!(cpu.registers[0xF], if a + b >= 256 { 1 } else { 0 });
        }
    }
}

#[test]
fn add_exact_values() {
    let mut cpu = CPU::new();
    cpu.registers[0] = 200;
    cpu.registers[1] = 100;
    cpu.add_xy(0, 1);
    assert_eq!(cpu.registers[0], 44);
    assert_eq!(cpu.registers[0xF], 1);
    cpu.add_xy(0, 1);
    assert_eq!(cpu.registers[0], 144);
    assert_eq!(cpu.registers[0xF], 0);
}

#[test]
fn add_into_carry_register_keeps_the_flag() {
    let mut cpu = CPU::new();
    cpu.registers[0xF] = 200;
    cpu.registers[2] = 100;
    cpu.add_xy(0xF, 2);
    assert_eq!(cpu.registers[0xF], 1);
}

#[test]
fn call_then_ret_restores_position() {
    let mut cpu = CPU::new();
    cpu.position_in_memory = 0x22;
    assert_eq!(cpu.call(0x300), Ok(()));
    assert_eq!(cpu.position_in_memory, 0x300);
    assert_eq!(cpu.stack_pointer, 1);
    assert_eq!(cpu.ret(), Ok(()));
    assert_eq!(cpu.position_in_memory, 0x22);
    assert_eq!(cpu.stack_pointer, 0);
}

#[test]
fn run_call_then_return_resumes_after_call() {
    let mut cpu = CPU::new();
    load(&mut cpu, 0x000, &[0x2200, 0x8014, 0x0000]);
    load(&mut cpu, 0x200, &[0x00EE]);
    cpu.registers[0] = 1;
    cpu.registers[1] = 2;
    assert_eq!(cpu.run(), Ok(()));
    assert_eq!(cpu.registers[0], 3);
    assert_eq!(cpu.position_in_memory, 6);
    assert_eq!(cpu.stack_pointer, 0);
}

#[test]
fn sixteen_calls_nest_and_seventeenth_overflows() {
    let mut cpu = CPU::new();
    for i in 0..16u16 {
        assert_eq!(cpu.call(0x100 + 2 * i), Ok(()));
    }
    assert_eq!(cpu.stack_pointer, 16);
    let position = cpu.position_in_memory;
    assert_eq!(cpu.call(0x400), Err(Fault::StackOverflow));
    assert_eq!(cpu.stack_pointer, 16);
    assert_eq!(cpu.position_in_memory, position);
}

#[test]
fn run_nested_calls_overflow_on_the_seventeenth() {
    let mut cpu = CPU::new();
    let words: Vec<u16> = (0..17u16).map(|i| 0x2000 | (2 * (i + 1))).collect();
    load(&mut cpu, 0, &words);
    assert_eq!(cpu.run(), Err(Fault::StackOverflow));
    assert_eq!(cpu.stack_pointer, 16);
}

#[test]
fn run_sixteen_nested_calls_unwind_and_halt() {
    let mut cpu = CPU::new();
    // Each level calls the next and then returns; the deepest only returns.
    for level in 0..16u16 {
        let at = 0x80 * (level as usize + 1);
        if level < 15 {
            load(&mut cpu, at, &[0x2000 | (0x80 * (level + 2)), 0x00EE]);
        } else {
            load(&mut cpu, at, &[0x00EE]);
        }
    }
    load(&mut cpu, 0, &[0x2080, 0x0000]);
    assert_eq!(cpu.run(), Ok(()));
    assert_eq!(cpu.stack_pointer, 0);
    assert_eq!(cpu.position_in_memory, 4);
}

#[test]
fn ret_on_empty_stack_underflows() {
    let mut cpu = CPU::new();
    cpu.position_in_memory = 0x40;
    assert_eq!(cpu.ret(), Err(Fault::StackUnderflow));
    assert_eq!(cpu.position_in_memory, 0x40);
    assert_eq!(cpu.stack_pointer, 0);
}

#[test]
fn run_return_without_call_underflows() {
    let mut cpu = CPU::new();
    load(&mut cpu, 0, &[0x8014, 0x00EE, 0x8014]);
    cpu.registers[1] = 1;
    assert_eq!(cpu.run(), Err(Fault::StackUnderflow));
    assert_eq!(cpu.registers[0], 1);
}

#[test]
fn halt_stops_with_registers_unchanged() {
    let mut cpu = CPU::new();
    load(&mut cpu, 0, &[0x0000, 0x8014]);
    for i in 0..16 {
        cpu.registers[i] = i as u8 * 3;
    }
    let before = cpu.registers;
    assert_eq!(cpu.run(), Ok(()));
    assert_eq!(cpu.registers, before);
    assert_eq!(cpu.position_in_memory, 2);
}

#[test]
fn reference_program_adds_to_forty_five() {
    let mut cpu = CPU::new();
    cpu.registers[0] = 5;
    cpu.registers[1] = 10;
    let mem = &mut cpu.memory;
    mem[0x000] = 0x21;
    mem[0x001] = 0x00;
    mem[0x002] = 0x21;
    mem[0x003] = 0x00;
    mem[0x004] = 0x00;
    mem[0x005] = 0x00;
    mem[0x100] = 0x80;
    mem[0x101] = 0x14;
    mem[0x102] = 0x80;
    mem[0x103] = 0x14;
    mem[0x104] = 0x00;
    mem[0x105] = 0xEE;
    assert_eq!(cpu.run(), Ok(()));
    assert_eq!(cpu.registers[0], 45);
    assert_eq!(cpu.registers[0xF], 0);
    assert_eq!(cpu.position_in_memory, 6);
}

#[test]
fn unimplemented_opcode_names_the_word() {
    let mut cpu = CPU::new();
    load(&mut cpu, 0, &[0x8014, 0x1234]);
    assert_eq!(cpu.run(), Err(Fault::UnimplementedOpcode(0x1234)));
    assert_eq!(cpu.position_in_memory, 4);
}

#[test]
fn running_off_the_end_of_memory_is_out_of_bounds() {
    let mut cpu = CPU::new();
    cpu.position_in_memory = 4094;
    load(&mut cpu, 4094, &[0x8014]);
    assert_eq!(cpu.run(), Err(Fault::OutOfBounds(4096)));
    let mut cpu = CPU::new();
    load(&mut cpu, 0, &[0x2FFF]);
    assert_eq!(cpu.run(), Err(Fault::OutOfBounds(0xFFF)));
}
