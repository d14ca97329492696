use jcpu::alu::ALU;
use jcpu::cpu::CPU;
use jcpu::error::MachineError;
use jcpu::lexer::assemble;
use jcpu::motherboard::{Motherboard, BOOT_ADDR, STACK_ADDR};
use jcpu::peripheral::{get_key_code, Keyboard, Peripheral, Screen};
use jcpu::ram::Ram;

fn board(text: &str) -> Motherboard {
    let a = assemble(text).expect("assembles");
    let mut mb = Motherboard::new(a.image, a.listing);
    mb.boot().expect("boots");
    mb
}

fn run(mb: &mut Motherboard) -> Result<usize, MachineError> {
    let mut n = 0;
    while mb.cycle()? {
        n += 1;
        assert!(n < 10_000, "program does not halt");
    }
    Ok(n)
}

#[test]
fn arithmetic_round_trip() {
    let mut mb = board("DATA R1,2\nDATA R2,3\nADD R1,R2\nHLT\n");
    run(&mut mb).unwrap();
    assert_eq!(mb.cpu.reg_2, 5);
    assert_eq!(mb.cpu.reg_1, 2);
    assert!(!mb.cpu.alu.carry);
    assert!(!mb.cpu.alu.sign);
}

#[test]
fn conditional_branch_taken_on_equal() {
    let mut mb = board("DATA R1,2\nDATA R2,2\nCMP R1,R2\nJMPIFZ $end\nDATA R3,9\nend:\nHLT\n");
    run(&mut mb).unwrap();
    assert_eq!(mb.cpu.reg_3, 0);
    assert!(mb.cpu.alu.zero);
}

#[test]
fn conditional_branch_not_taken_on_difference() {
    let mut mb = board("DATA R1,2\nDATA R2,3\nCMP R1,R2\nJMPIFZ $end\nDATA R3,9\nend:\nHLT\n");
    run(&mut mb).unwrap();
    assert_eq!(mb.cpu.reg_3, 9);
    let mut mb = board("DATA R1,3\nDATA R2,2\nCMP R1,R2\nJMPIFZ $end\nDATA R3,9\nend:\nHLT\n");
    run(&mut mb).unwrap();
    assert_eq!(mb.cpu.reg_3, 9);
}

#[test]
fn compare_with_immediate_branches() {
    let mut mb = board("DATA R1,7\nCMP R1,7\nJMPIFZ $end\nDATA R3,9\nend:\nHLT\n");
    run(&mut mb).unwrap();
    assert_eq!(mb.cpu.reg_3, 0);
    assert_eq!(mb.cpu.reg_1, 7);
}

#[test]
fn push_then_pop_restores_value_and_sp() {
    let mut mb = board("DATA R1,42\nPUSH R1\nPOP R2\nHLT\n");
    run(&mut mb).unwrap();
    assert_eq!(mb.cpu.reg_2, 42);
    assert_eq!(mb.cpu.reg_sp, STACK_ADDR);
    assert_eq!(mb.ram_info()[STACK_ADDR as usize + 1], 42);
}

#[test]
fn push_at_top_of_memory_overflows() {
    let mut mb = board("DATA R1,7\nloop:\nPUSH R1\nJMP $loop\n");
    let r = run(&mut mb);
    assert_eq!(r, Err(MachineError::StackOverflow { iar: BOOT_ADDR + 2 }));
    assert_eq!(mb.cpu.reg_sp, 255);
    assert_eq!(mb.ram_info()[255], 7);
}

#[test]
fn reset_reproduces_fresh_boot() {
    let text = "DATA R1,9\nDATA R4,1\nPUSH R1\nINC R4\nHLT\n";
    let fresh = board(text);
    let mut mb = board(text);
    run(&mut mb).unwrap();
    assert_ne!(mb.ram_info(), fresh.ram_info());
    mb.reset().unwrap();
    assert_eq!(mb.ram_info(), fresh.ram_info());
    assert_eq!(mb.cpu.reg_1, fresh.cpu.reg_1);
    assert_eq!(mb.cpu.reg_4, fresh.cpu.reg_4);
    assert_eq!(mb.cpu.reg_iar, fresh.cpu.reg_iar);
    assert_eq!(mb.cpu.reg_mar, fresh.cpu.reg_mar);
    assert_eq!(mb.cpu.reg_sp, fresh.cpu.reg_sp);
    assert_eq!(mb.cpu.alu, fresh.cpu.alu);
    assert_eq!(mb.cycle_count(), 0);
    let first = mb.ram_info();
    mb.reset().unwrap();
    assert_eq!(mb.ram_info(), first);
    assert_eq!(mb.cpu.reg_iar, BOOT_ADDR);
}

#[test]
fn keyboard_interrupt_delivers_keys() {
    let mut mb = board("INT 2\nHLT\n");
    mb.add_peripheral(Peripheral::Screen(Screen::new()));
    mb.add_peripheral(Peripheral::Keyboard(Keyboard::new()));
    mb.pass_to_peripheral("keyboard", get_key_code('h'));
    mb.pass_to_peripheral("keyboard", get_key_code('i'));
    assert_eq!(mb.cycle(), Ok(true));
    assert_eq!(mb.cpu.reg_int, 2);
    mb.process_peripherals();
    let ram = mb.ram_info();
    assert_eq!(&ram[0..2], &[72, 73]);
    assert_eq!(mb.cpu.reg_1, 0);
    assert_eq!(mb.cpu.reg_2, 2);
}

#[test]
fn keyboard_buffer_is_bounded() {
    let mut k = Keyboard::new();
    for v in 1..=12u8 {
        k.update(v);
    }
    assert_eq!(k.keys(), (1..=10u8).collect::<Vec<u8>>());
    let mut cpu = CPU::new();
    let mut ram = Ram::new();
    cpu.reg_int = 2;
    k.process(&mut cpu, &mut ram);
    assert_eq!(&ram.snapshot()[0..10], &(1..=10u8).collect::<Vec<u8>>()[..]);
    assert_eq!(cpu.reg_2, 10);
    assert!(k.keys().is_empty());
}

#[test]
fn keyboard_ignores_other_interrupts() {
    let mut k = Keyboard::new();
    k.update(5);
    let mut cpu = CPU::new();
    let mut ram = Ram::new();
    cpu.reg_int = 1;
    k.process(&mut cpu, &mut ram);
    assert_eq!(k.keys(), vec![5]);
    assert_eq!(ram.read(0), 0);
}

#[test]
fn screen_writes_pixel() {
    let mut mb = board("DATA R1,2\nDATA R2,3\nDATA R3,7\nINT 1\nHLT\n");
    let mut s = Screen::new();
    run(&mut mb).unwrap();
    s.process(&mut mb.cpu, &mut Ram::new());
    assert_eq!(s.pixels()[2 + 8 * 3], 7);
    mb.cpu.reg_1 = 200;
    let before = s.pixels();
    s.process(&mut mb.cpu, &mut Ram::new());
    assert_eq!(s.pixels(), before);
}

#[test]
fn peripheral_routing_and_reset() {
    let mut mb = board("CLI\nHLT\n");
    mb.add_peripheral(Peripheral::Keyboard(Keyboard::new()));
    mb.pass_to_peripheral("screen", 3);
    mb.cycle().unwrap();
    assert!(mb.cpu.clearing);
    mb.reset_peripherals();
    assert!(!mb.cpu.clearing);
    let k = Peripheral::Keyboard(Keyboard::new());
    assert_eq!(k.get_id(), "keyboard");
}

#[test]
fn image_too_large_is_refused() {
    let mut mb = Motherboard::new(vec![0x7F; 121], vec![]);
    assert_eq!(mb.boot(), Err(MachineError::ImageTooLarge { len: 121 }));
    let mut mb = Motherboard::new(vec![0x7F; 120], vec![]);
    assert_eq!(mb.boot(), Ok(()));
}

#[test]
fn unknown_opcode_faults() {
    let mut mb = Motherboard::new(vec![0xA0], vec![]);
    mb.boot().unwrap();
    assert_eq!(mb.cycle(), Err(MachineError::UnknownOpcode { iar: BOOT_ADDR, opcode: 0xA0 }));
    let mut mb = Motherboard::new(vec![0x72], vec![]);
    mb.boot().unwrap();
    assert_eq!(mb.cycle(), Err(MachineError::UnknownOpcode { iar: BOOT_ADDR, opcode: 0x72 }));
}

#[test]
fn jump_register_and_load_store() {
    let mut mb = board("DATA R1,200\nDATA R2,77\nST R1,R2\nLD R1,R3\nDATA R4,25\nJMPR R4\nHLT\nDATA R3,1\nHLT\n");
    run(&mut mb).unwrap();
    assert_eq!(mb.ram_info()[200], 77);
    assert_eq!(mb.cpu.reg_3, 1);
}

#[test]
fn alu_arithmetic_and_flags() {
    let mut alu = ALU::new();
    alu.set_a(200);
    alu.set_b(100);
    assert_eq!(alu.op_add(), 44);
    assert!(alu.carry);
    assert!(!alu.sign);
    assert_eq!(alu.sum, 44);
    alu.set_a(1);
    alu.set_b(2);
    assert_eq!(alu.op_sub(), 0);
    assert!(alu.sign);
    assert!(!alu.zero);
    assert!(alu.less);
    alu.set_a(0);
    assert_eq!(alu.op_dec(), 0);
    assert!(alu.sign);
    alu.set_a(255);
    assert_eq!(alu.op_inc(), 0);
    assert!(alu.carry);
    alu.set_a(5);
    alu.set_b(5);
    assert_eq!(alu.op_sub(), 0);
    assert!(alu.zero && alu.equal);
    assert!(alu.match_flags(1));
    assert!(!alu.match_flags(0));
    assert!(!alu.match_flags(2));
    assert_eq!(alu.flags_byte(), 0x0C);
    alu.set_a(0b1100);
    alu.set_b(2);
    alu.flags();
    assert_eq!((alu.or, alu.and, alu.not, alu.shl, alu.shr), (0b1110, 0, 0xF3, 0b110000, 0b11));
    alu.set_b(9);
    alu.flags();
    assert_eq!((alu.shl, alu.shr), (0, 0));
}

#[test]
fn key_codes() {
    assert_eq!(get_key_code('a'), 65);
    assert_eq!(get_key_code('z'), 90);
    assert_eq!(get_key_code('A'), 0);
    assert_eq!(get_key_code('1'), 0);
}

#[test]
fn ram_fill_read_write() {
    let mut ram = Ram::new();
    ram.fill(250, &vec![1, 2, 3]);
    assert_eq!(ram.read(251), 2);
    ram.write(255, 9);
    assert_eq!(ram.read(255), 9);
    ram.reset();
    assert_eq!(ram.snapshot(), vec![0; 256]);
}

#[test]
fn listing_is_kept_by_board() {
    let a = assemble("HLT\n").unwrap();
    let mb = Motherboard::new(a.image, a.listing);
    assert_eq!(mb.cpu_instructions(), vec!["0: HLT".to_string()]);
    assert_eq!(mb.image_len(), 1);
}
