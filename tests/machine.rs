use tta_machine::machine::{Machine, Step};
use tta_machine::memory::Memory;
use tta_machine::registers::{
    console_input_value, divide, Console, Fault, Op, Output, Phase, Registers, PC,
};
use tta_machine::MEMORY_SIZE;

fn wired() -> (Registers, Memory, Console) {
    let mut regs = Registers::new();
    regs.init_triggers();
    (regs, Memory::new(64), Console::new())
}

fn words_to_bytes(words: &[u32]) -> Vec<u8> {
    let mut bytes = Vec::new();
    for w in words {
        bytes.extend_from_slice(&w.to_be_bytes());
    }
    // the last complete group of a program image is not stored
    bytes.extend_from_slice(&[0, 0, 0, 0]);
    bytes
}

fn run(machine: &mut Machine) -> Vec<Output> {
    let mut out = Vec::new();
    loop {
        match machine.tick(None) {
            Ok(Step::Halted) => return out,
            Ok(Step::Executed(o)) => out.extend(o),
            Err(f) => panic!("fault {:?}", f),
        }
    }
}

#[test]
fn select_scenario() {
    let (mut regs, mut mem, mut con) = wired();
    regs.set(20, 2, &mut mem, &mut con).unwrap();
    regs.set(21, 5, &mut mem, &mut con).unwrap();
    regs.set(22, 6, &mut mem, &mut con).unwrap();
    assert_eq!(regs.get(23, &mut mem, &mut con), Ok(6));
}

#[test]
fn select_is_evaluated_on_every_read() {
    let (mut regs, mut mem, mut con) = wired();
    regs.set(21, 5, &mut mem, &mut con).unwrap();
    regs.set(22, 6, &mut mem, &mut con).unwrap();
    regs.set(20, 0, &mut mem, &mut con).unwrap();
    assert_eq!(regs.get(23, &mut mem, &mut con), Ok(5));
    regs.put(23, 99);
    assert_eq!(regs.get(23, &mut mem, &mut con), Ok(5));
    regs.put(20, 1);
    assert_eq!(regs.get(23, &mut mem, &mut con), Ok(6));
}

#[test]
fn add_program_scenario() {
    let mut machine = Machine::new(16);
    let program = words_to_bytes(&[0x8003_0000, 0x8004_0001, 0x0002_001C, 0xFFFF_001B]);
    machine.load_program(&program, 0);
    let out = run(&mut machine);
    assert!(out.is_empty());
    assert_eq!(machine.registers().value(28), 7);
    assert_eq!(machine.registers().value(2), 7);
    assert_eq!(machine.ticks(), 4);
    assert_eq!(machine.counter(), 0x7FFF);
}

#[test]
fn halt_reports_executed_ticks() {
    let mut machine = Machine::new(8);
    // jump to 5, then from 5 jump out of memory
    let words = [0x8005_001B, 0, 0, 0, 0, 0x8008_001B];
    machine.load_program(&words_to_bytes(&words), 0);
    run(&mut machine);
    assert_eq!(machine.ticks(), 2);
    assert_eq!(machine.counter(), 8);
    assert!(machine.halted());
    assert!(matches!(machine.tick(None), Ok(Step::Halted)));
    assert_eq!(machine.ticks(), 2);
}

#[test]
fn halt_on_negative_counter() {
    let mut machine = Machine::new(8);
    machine.set_register(PC, -1).unwrap();
    assert!(machine.halted());
    assert!(matches!(machine.tick(None), Ok(Step::Halted)));
    assert_eq!(machine.ticks(), 0);
}

#[test]
fn decode_register_source() {
    let mut mem = Memory::new(4);
    mem.store(&words_to_bytes(&[0x0003_0014]), 0);
    assert_eq!(mem.load32(0), 0x0003_0014);
    assert_eq!(mem.load_opcode(0), (0x0003, 0x0014));
}

#[test]
fn decode_immediate_source() {
    let mut mem = Memory::new(4);
    mem.store(&words_to_bytes(&[0x8003_0014]), 0);
    assert_eq!(mem.load_opcode(0), (0x8003, 0x0014));
    let mut machine = Machine::new(4);
    machine.load_program(&words_to_bytes(&[0x8003_0014]), 0);
    assert!(matches!(machine.tick(None), Ok(Step::Executed(_))));
    assert_eq!(machine.registers().value(0x14), 3);
    assert_eq!(machine.counter(), 1);
}

#[test]
fn register_source_runs_read_triggers() {
    let mut machine = Machine::new(8);
    machine.set_register(13, 1).unwrap();
    machine.set_register(14, 2).unwrap();
    // r15 (less-than) into r28
    machine.load_program(&words_to_bytes(&[0x000F_001C]), 0);
    machine.tick(None).unwrap();
    assert_eq!(machine.registers().value(28), 1);
}

#[test]
fn store_packs_big_endian_and_drops_last_group() {
    let mut mem = Memory::new(8);
    mem.store(&[1, 2, 3, 4, 5, 6, 7, 8, 9, 10, 11, 12, 13], 2);
    assert_eq!(mem.load32(2), 0x0102_0304);
    assert_eq!(mem.load32(3), 0x0506_0708);
    assert_eq!(mem.load32(4), 0);
    assert_eq!(mem.load32(1), 0);
}

#[test]
fn store_stops_at_capacity() {
    let mut mem = Memory::new(2);
    mem.store(&[1, 1, 1, 1, 2, 2, 2, 2, 3, 3, 3, 3, 4, 4, 4, 4], 0);
    assert_eq!(mem.load32(0), 0x0101_0101);
    assert_eq!(mem.load32(1), 0);
    let mut empty = Memory::new(2);
    empty.store(&[], 0);
    empty.store(&[9, 9, 9, 9], 5);
    assert_eq!(empty.load32(0), 0);
}

#[test]
fn double_word_round_trip() {
    let mut mem = Memory::new(8);
    for v in [0u64, 1, 0x1234_5678_9ABC_DEF0, u64::MAX] {
        mem.store64(3, v);
        assert_eq!(mem.load64(3), v);
    }
    mem.store64(1, 0x0000_0001_0000_0002);
    assert_eq!(mem.load32(2), 1);
    assert_eq!(mem.load32(3), 2);
}

#[test]
fn arithmetic_on_write() {
    let (mut regs, mut mem, mut con) = wired();
    regs.set(0, 3, &mut mem, &mut con).unwrap();
    regs.set(1, 4, &mut mem, &mut con).unwrap();
    assert_eq!(regs.value(2), 7);
    regs.set(3, 3, &mut mem, &mut con).unwrap();
    regs.set(4, 10, &mut mem, &mut con).unwrap();
    assert_eq!(regs.value(5), -7);
    regs.set(6, -6, &mut mem, &mut con).unwrap();
    regs.set(7, 7, &mut mem, &mut con).unwrap();
    assert_eq!(regs.value(8), -42);
    regs.set(13, 5, &mut mem, &mut con).unwrap();
    regs.set(14, 5, &mut mem, &mut con).unwrap();
    assert_eq!(regs.value(15), 0);
    regs.set(13, 4, &mut mem, &mut con).unwrap();
    assert_eq!(regs.value(15), 1);
}

#[test]
fn add_wraps() {
    let (mut regs, mut mem, mut con) = wired();
    regs.set(0, i64::MAX, &mut mem, &mut con).unwrap();
    regs.set(1, 1, &mut mem, &mut con).unwrap();
    assert_eq!(regs.value(2), i64::MIN);
}

#[test]
fn divide_values() {
    assert_eq!(divide(7, 2), (3, 1));
    assert_eq!(divide(-7, 2), (-3, -1));
    assert_eq!(divide(7, -2), (-3, 1));
    assert_eq!(divide(-7, -2), (3, -1));
    assert_eq!(divide(7, 0), (7, 0));
    assert_eq!(divide(i64::MIN, -1), (i64::MIN, 0));
    for (n, d) in [(17i64, 5i64), (-17, 5), (17, -5), (-17, -5), (0, 3)] {
        let (q, r) = divide(n, d);
        assert_eq!(q * d + r, n);
        assert!(r.abs() < d.abs());
    }
}

#[test]
fn divide_on_write() {
    let (mut regs, mut mem, mut con) = wired();
    regs.set(9, 17, &mut mem, &mut con).unwrap();
    regs.set(10, 5, &mut mem, &mut con).unwrap();
    assert_eq!(regs.get(11, &mut mem, &mut con), Ok(3));
    assert_eq!(regs.get(12, &mut mem, &mut con), Ok(2));
    regs.set(10, 0, &mut mem, &mut con).unwrap();
    assert_eq!(regs.value(11), 17);
    assert_eq!(regs.value(12), 0);
}

#[test]
fn console_output() {
    let mut machine = Machine::new(8);
    let out = machine.set_register(16, 'A' as i64).unwrap();
    assert_eq!(out, vec![Output::Char('A')]);
    let out = machine.set_register(16, 256).unwrap();
    assert_eq!(out, vec![Output::ClearScreen]);
    let out = machine.set_register(18, 'é' as i64).unwrap();
    assert_eq!(out, vec![Output::Char('é')]);
}

#[test]
fn invalid_char_faults() {
    let mut machine = Machine::new(8);
    assert_eq!(machine.set_register(16, 0xD800), Err(Fault::InvalidChar));
    assert_eq!(machine.set_register(16, -1), Err(Fault::InvalidChar));
    assert_eq!(machine.set_register(18, 0x110000), Err(Fault::InvalidChar));
}

#[test]
fn console_input() {
    let mut machine = Machine::new(8);
    assert_eq!(machine.get_register(16, Some(b'x')), Ok(120));
    assert_eq!(machine.get_register(16, None), Ok(-1));
    assert_eq!(machine.get_register(16, Some(0)), Ok(-1));
    assert_eq!(console_input_value(Some(200)), 200);
    assert_eq!(console_input_value(None), -1);
}

#[test]
fn input_is_taken_once_per_step() {
    let (mut regs, mut mem, _) = wired();
    regs.register_trigger(16, Phase::Read, Op::Console).unwrap();
    let mut con = Console { input: Some(b'q'), output: Vec::new() };
    assert_eq!(regs.get(16, &mut mem, &mut con), Ok(-1));
    assert_eq!(con.input, None);
}

#[test]
fn needs_input_before_console_read() {
    let mut machine = Machine::new(8);
    machine.load_program(&words_to_bytes(&[0x0010_001C, 0x0002_001C]), 0);
    assert!(machine.needs_input());
    match machine.tick(Some(b'k')) {
        Ok(Step::Executed(out)) => assert!(out.is_empty()),
        _ => panic!("step failed"),
    }
    assert_eq!(machine.registers().value(28), b'k' as i64);
    assert!(!machine.needs_input());
}

#[test]
fn newline_register() {
    let mut machine = Machine::new(8);
    assert_eq!(machine.get_register(19, None), Ok(10));
}

#[test]
fn memory_access_triggers() {
    let mut machine = Machine::new(16);
    machine.set_register(26, 3).unwrap();
    machine.set_register(24, 0x1_0000_0005).unwrap();
    assert_eq!(machine.memory().load64(3), 0x1_0000_0005);
    assert_eq!(machine.memory().load32(6), 1);
    assert_eq!(machine.memory().load32(7), 5);
    // writing the address register commits the data register there too
    machine.set_register(26, 2).unwrap();
    assert_eq!(machine.memory().load64(2), 0x1_0000_0005);
    let mut fresh = Machine::new(16);
    fresh.load_program(&words_to_bytes(&[0, 0, 0, 0, 0, 9]), 0);
    assert_eq!(fresh.get_register(24, None), Ok(0));
    fresh.set_register(26, 2).unwrap();
    assert_eq!(fresh.memory().load64(2), 0);
}

#[test]
fn memory_access_faults() {
    let mut machine = Machine::new(16);
    assert_eq!(machine.set_register(26, -1), Err(Fault::AddressOutOfRange));
    assert_eq!(machine.set_register(26, 8), Err(Fault::AddressOutOfRange));
    let mut machine = Machine::new(16);
    assert_eq!(machine.set_register(24, -5), Err(Fault::ValueOutOfRange));
    let mut too_large = Machine::new(16);
    too_large.load_program(&words_to_bytes(&[0xFFFF_FFFF, 0]), 0);
    assert_eq!(too_large.get_register(24, None), Err(Fault::ValueOutOfRange));
}

#[test]
fn register_out_of_range() {
    let (mut regs, mut mem, mut con) = wired();
    assert_eq!(regs.set(36, 1, &mut mem, &mut con), Err(Fault::RegisterOutOfRange));
    assert_eq!(regs.get(40, &mut mem, &mut con), Err(Fault::RegisterOutOfRange));
    assert_eq!(
        regs.register_trigger(36, Phase::Write, Op::Add),
        Err(Fault::RegisterOutOfRange)
    );
    let mut machine = Machine::new(4);
    machine.load_program(&words_to_bytes(&[0x8001_0030]), 0);
    assert!(matches!(machine.tick(None), Err(Fault::RegisterOutOfRange)));
}

#[test]
fn trigger_order_is_kept() {
    let (mut regs, mut mem, mut con) = wired();
    // a second read-trigger on r2 recomputes the sum after the first
    regs.register_trigger(2, Phase::Read, Op::Sub).unwrap();
    regs.put(0, 1);
    regs.put(1, 2);
    assert_eq!(regs.get(2, &mut mem, &mut con), Ok(3));
}

#[test]
fn full_size_machine() {
    let machine = Machine::new(MEMORY_SIZE);
    assert_eq!(machine.memory().capacity(), MEMORY_SIZE);
    assert!(!machine.halted());
}
