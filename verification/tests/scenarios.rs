use hack_computer::arithmetic::{Add16, HalfAdder, Inc16, ALU};
use hack_computer::computer::{Computer, KeyboardBuiltIn, MemoryBuiltIn, ROM32KBuiltIn, ScreenBuiltIn, CPU};
use hack_computer::gate::{Bit, Bus, Gate, Nand, ParseBusStrError, SharedBus};
use hack_computer::rom_text::parse_line;
use hack_computer::sequential::{Register, DFF, PC, RAM16KBuiltIn, RAM8};
use hack_computer::wires::Wires;

fn word_bus<const N: usize>(x: u16, wires: &mut Wires) -> SharedBus<N> {
    let s = format!("{:0width$b}", x, width = N);
    Bus::<N>::from_str(&s, wires).unwrap().to_shared_bus()
}

fn set<const N: usize>(bus: &SharedBus<N>, x: u16, wires: &mut Wires) {
    let value = word_bus::<N>(x, wires);
    bus.overwrite(&value.0, wires);
}

fn run(code: &str, cycles: usize) -> Vec<(u16, u16, u16, u16)> {
    let mut wires = Wires::new();
    let address = Bus::<15>::all0(&mut wires).to_shared_bus();
    let rom = ROM32KBuiltIn::from_rom_str(code, address, &mut wires).unwrap();
    let reset = Bus::<1>::all0(&mut wires).to_shared_bus();
    let computer = Computer::new(reset, rom, &mut wires);
    let mut seen = vec![];
    for _ in 0..=cycles {
        seen.push((
            computer.get_r0(&wires),
            computer.cpu.get_a_register_value(&wires),
            computer.cpu.get_d_register_value(&wires),
            computer.cpu.pc.to_u16(&wires),
        ));
        computer.tick(&mut wires);
        computer.tock(&mut wires);
    }
    seen
}

#[test]
fn computer_adds_two_and_three() {
    let code = "0000000000000010\n1110110000010000\n0000000000000011\n1110000010010000\n0000000000000000\n1110001100001000";
    let seen = run(code, 6);
    assert_eq!(
        seen,
        vec![
            (0, 0, 0, 0),
            (0, 2, 0, 1),
            (0, 2, 2, 2),
            (0, 3, 2, 3),
            (0, 3, 5, 4),
            (0, 0, 5, 5),
            (5, 0, 5, 6),
        ]
    );
}

#[test]
fn computer_reads_indented_program() {
    let code = "0000000000000010
                      1110110000010000
                      0000000000000011
                      1110000010010000
                      0000000000000000
                      1110001100001000";
    let seen = run(code, 6);
    assert_eq!(seen[6], (5, 0, 5, 6));
}

#[test]
fn computer_jumps_unconditionally() {
    // @4, 0;JMP, then at 4: @7, D=A
    let code = "0000000000000100\n1110101010000111\n0000000000000000\n0000000000000000\n0000000000000111\n1110110000010000";
    let seen = run(code, 4);
    assert_eq!(seen[1].3, 1);
    assert_eq!(seen[2].3, 4);
    assert_eq!(seen[3], (0, 7, 0, 5));
    assert_eq!(seen[4], (0, 7, 7, 6));
}

#[test]
fn computer_reset_brings_counter_to_zero() {
    let mut wires = Wires::new();
    let address = Bus::<15>::all0(&mut wires).to_shared_bus();
    let rom = ROM32KBuiltIn::from_rom_str("0000000000000010\n0000000000000011", address, &mut wires).unwrap();
    let reset = Bus::<1>::all0(&mut wires).to_shared_bus();
    let computer = Computer::new(reset, rom, &mut wires);
    computer.tick(&mut wires);
    computer.tock(&mut wires);
    computer.tick(&mut wires);
    computer.tock(&mut wires);
    assert_eq!(computer.cpu.pc.to_u16(&wires), 2);
    wires.set(reset.get_shared_bit(0), Bit::I);
    computer.tick(&mut wires);
    computer.tock(&mut wires);
    assert_eq!(computer.cpu.pc.to_u16(&wires), 0);
}

#[test]
fn half_adder_one_plus_one() {
    let mut wires = Wires::new();
    let a = word_bus::<1>(1, &mut wires);
    let b = word_bus::<1>(1, &mut wires);
    let half_adder = HalfAdder::new(a, b, &mut wires);
    half_adder.re_compute(&mut wires);
    assert_eq!(half_adder.sum.to_u16(&wires), 0);
    assert_eq!(half_adder.carry.to_u16(&wires), 1);
}

#[test]
fn add16_wraps_around() {
    let mut wires = Wires::new();
    let a = word_bus::<16>(0xFFFF, &mut wires);
    let b = word_bus::<16>(0xFFFF, &mut wires);
    let add16 = Add16::new(a, b, &mut wires);
    add16.re_compute(&mut wires);
    assert_eq!(add16.out.to_u16(&wires), 0xFFFE);
}

#[test]
fn add16_is_addition_modulo_two_to_the_sixteen() {
    let samples: [u16; 7] = [0, 1, 2, 255, 256, 0x8000, 0xFFFF];
    for x in samples {
        for y in samples {
            let mut wires = Wires::new();
            let a = word_bus::<16>(x, &mut wires);
            let b = word_bus::<16>(y, &mut wires);
            let add16 = Add16::new(a, b, &mut wires);
            add16.re_compute(&mut wires);
            assert_eq!(add16.out.to_u16(&wires), x.wrapping_add(y));
        }
    }
}

#[test]
fn inc16_is_add16_of_one() {
    for x in [0u16, 1, 41, 0x7FFF, 0xFFFE, 0xFFFF] {
        let mut wires = Wires::new();
        let input = word_bus::<16>(x, &mut wires);
        let one = word_bus::<16>(1, &mut wires);
        let inc16 = Inc16::new(input, &mut wires);
        let add16 = Add16::new(input, one, &mut wires);
        inc16.re_compute(&mut wires);
        add16.re_compute(&mut wires);
        assert!(inc16.out.same_value(&add16.out, &wires));
        assert_eq!(inc16.out.to_u16(&wires), x.wrapping_add(1));
    }
}

fn alu(x: u16, y: u16, control: &str) -> (u16, u16, u16) {
    let mut wires = Wires::new();
    let xb = word_bus::<16>(x, &mut wires);
    let yb = word_bus::<16>(y, &mut wires);
    let c: Vec<SharedBus<1>> = control
        .chars()
        .map(|ch| word_bus::<1>(if ch == '1' { 1 } else { 0 }, &mut wires))
        .collect();
    let alu = ALU::new(xb, yb, c[0], c[1], c[2], c[3], c[4], c[5], &mut wires);
    alu.re_compute(&mut wires);
    (alu.out.to_u16(&wires), alu.zr.to_u16(&wires), alu.ng.to_u16(&wires))
}

#[test]
fn alu_zero_and_one() {
    assert_eq!(alu(0, 0xFFFF, "101010"), (0, 1, 0));
    assert_eq!(alu(0, 0xFFFF, "111111"), (1, 0, 0));
}

#[test]
fn alu_computes_its_eighteen_functions() {
    for (x, y) in [(17u16, 3u16), (0, 0), (0xFFFF, 1), (0x8000, 0x7FFF), (12345, 54321)] {
        let expect: Vec<(&str, u16)> = vec![
            ("101010", 0),
            ("111111", 1),
            ("111010", 0xFFFF),
            ("001100", x),
            ("110000", y),
            ("001101", !x),
            ("110001", !y),
            ("001111", x.wrapping_neg()),
            ("110011", y.wrapping_neg()),
            ("011111", x.wrapping_add(1)),
            ("110111", y.wrapping_add(1)),
            ("001110", x.wrapping_sub(1)),
            ("110010", y.wrapping_sub(1)),
            ("000010", x.wrapping_add(y)),
            ("010011", x.wrapping_sub(y)),
            ("000111", y.wrapping_sub(x)),
            ("000000", x & y),
            ("010101", x | y),
        ];
        for (control, out) in expect {
            let (got, zr, ng) = alu(x, y, control);
            assert_eq!(got, out, "x={} y={} control={}", x, y, control);
            assert_eq!(zr, if out == 0 { 1 } else { 0 });
            assert_eq!(ng, out >> 15);
        }
    }
}

#[test]
fn nand_is_zero_only_for_two_ones() {
    for (a, b, out) in [(0u16, 0u16, 1u16), (0, 1, 1), (1, 0, 1), (1, 1, 0)] {
        let mut wires = Wires::new();
        let a = word_bus::<1>(a, &mut wires);
        let b = word_bus::<1>(b, &mut wires);
        let nand = Nand::new(a, b, &mut wires);
        nand.re_compute(&mut wires);
        assert_eq!(nand.out.to_u16(&wires), out);
        nand.clock_up(&mut wires);
        nand.clock_down(&mut wires);
        assert_eq!(nand.out.to_u16(&wires), out);
    }
}

#[test]
fn dff_ignores_input_changes_between_the_edges() {
    let mut wires = Wires::new();
    let input = Bus::<1>::all1(&mut wires).to_shared_bus();
    let dff = DFF::new(input, &mut wires);
    dff.clock_up(&mut wires);
    wires.set(input.get_shared_bit(0), Bit::O);
    dff.re_compute(&mut wires);
    dff.clock_down(&mut wires);
    assert_eq!(dff.out.to_u16(&wires), 1);
}

#[test]
fn register_holds_while_load_is_off() {
    let mut wires = Wires::new();
    let input = word_bus::<16>(4242, &mut wires);
    let load = word_bus::<1>(1, &mut wires);
    let register = Register::new(input, load, &mut wires);
    register.re_compute(&mut wires);
    register.clock_up(&mut wires);
    assert_eq!(register.out.to_u16(&wires), 0);
    register.clock_down(&mut wires);
    register.re_compute(&mut wires);
    assert_eq!(register.out.to_u16(&wires), 4242);
    set(&load, 0, &mut wires);
    set(&input, 7, &mut wires);
    for _ in 0..5 {
        register.re_compute(&mut wires);
        register.clock_up(&mut wires);
        register.clock_down(&mut wires);
        register.re_compute(&mut wires);
        assert_eq!(register.out.to_u16(&wires), 4242);
    }
}

#[test]
fn ram8_write_leaves_other_words_alone() {
    let mut wires = Wires::new();
    let input = word_bus::<16>(0, &mut wires);
    let load = word_bus::<1>(0, &mut wires);
    let address = word_bus::<3>(0, &mut wires);
    let ram = RAM8::new(input, load, address, &mut wires);
    for k in 0..8u16 {
        set(&input, 100 + k, &mut wires);
        set(&address, k, &mut wires);
        set(&load, 1, &mut wires);
        ram.re_compute(&mut wires);
        ram.clock_up(&mut wires);
        ram.clock_down(&mut wires);
        ram.re_compute(&mut wires);
    }
    set(&input, 9999, &mut wires);
    set(&address, 5, &mut wires);
    ram.re_compute(&mut wires);
    ram.clock_up(&mut wires);
    ram.clock_down(&mut wires);
    ram.re_compute(&mut wires);
    set(&load, 0, &mut wires);
    for k in 0..8u16 {
        set(&address, k, &mut wires);
        ram.re_compute(&mut wires);
        assert_eq!(ram.out.to_u16(&wires), if k == 5 { 9999 } else { 100 + k });
    }
}

#[test]
fn ram16k_builtin_write_then_read() {
    let mut wires = Wires::new();
    let input = word_bus::<16>(12345, &mut wires);
    let load = word_bus::<1>(1, &mut wires);
    let address = word_bus::<14>(8192, &mut wires);
    let ram = RAM16KBuiltIn::new(input, load, address, &mut wires);
    ram.re_compute(&mut wires);
    ram.clock_up(&mut wires);
    ram.clock_down(&mut wires);
    ram.re_compute(&mut wires);
    assert_eq!(ram.out.to_u16(&wires), 12345);
    assert_eq!(ram.peek(8192, &wires), 12345);
    assert_eq!(ram.peek(8191, &wires), 0);
    set(&load, 0, &mut wires);
    ram.clock_down(&mut wires);
    ram.re_compute(&mut wires);
    assert_eq!(ram.out.to_u16(&wires), 12345);
}

#[test]
fn memory_maps_screen_and_keyboard() {
    let mut wires = Wires::new();
    let input = word_bus::<16>(777, &mut wires);
    let load = word_bus::<1>(1, &mut wires);
    let address = word_bus::<15>(0x4000 + 5, &mut wires);
    let memory = MemoryBuiltIn::new(input, load, address, &mut wires);
    memory.re_compute(&mut wires);
    memory.clock_up(&mut wires);
    memory.clock_down(&mut wires);
    memory.re_compute(&mut wires);
    assert_eq!(memory.out.to_u16(&wires), 777);
    assert_eq!(memory.peek_ram(5, &wires), 0);
    set(&address, 5, &mut wires);
    set(&load, 0, &mut wires);
    memory.re_compute(&mut wires);
    assert_eq!(memory.out.to_u16(&wires), 0);
    // the keyboard cannot be written
    set(&address, 0x6000, &mut wires);
    set(&load, 1, &mut wires);
    memory.re_compute(&mut wires);
    memory.clock_up(&mut wires);
    memory.clock_down(&mut wires);
    memory.re_compute(&mut wires);
    assert_eq!(memory.out.to_u16(&wires), 0);
}

#[test]
fn pc_reset_dominates_load_and_inc() {
    let mut wires = Wires::new();
    let input = word_bus::<16>(0x1234, &mut wires);
    let load = word_bus::<1>(1, &mut wires);
    let inc = word_bus::<1>(1, &mut wires);
    let reset = word_bus::<1>(0, &mut wires);
    let pc = PC::new(input, load, inc, reset, &mut wires);
    pc.re_compute(&mut wires);
    pc.clock_up(&mut wires);
    pc.clock_down(&mut wires);
    pc.re_compute(&mut wires);
    assert_eq!(pc.out.to_u16(&wires), 0x1234);
    set(&reset, 1, &mut wires);
    pc.re_compute(&mut wires);
    pc.clock_up(&mut wires);
    pc.clock_down(&mut wires);
    pc.re_compute(&mut wires);
    assert_eq!(pc.out.to_u16(&wires), 0);
}

#[test]
fn pc_counts_up_and_wraps() {
    let mut wires = Wires::new();
    let input = word_bus::<16>(0xFFFE, &mut wires);
    let load = word_bus::<1>(1, &mut wires);
    let inc = word_bus::<1>(1, &mut wires);
    let reset = word_bus::<1>(0, &mut wires);
    let pc = PC::new(input, load, inc, reset, &mut wires);
    let mut seen = vec![];
    for step in 0..4 {
        if step == 1 {
            set(&load, 0, &mut wires);
        }
        pc.re_compute(&mut wires);
        pc.clock_up(&mut wires);
        pc.clock_down(&mut wires);
        pc.re_compute(&mut wires);
        seen.push(pc.out.to_u16(&wires));
    }
    assert_eq!(seen, vec![0xFFFE, 0xFFFF, 0, 1]);
    set(&inc, 0, &mut wires);
    pc.re_compute(&mut wires);
    pc.clock_up(&mut wires);
    pc.clock_down(&mut wires);
    pc.re_compute(&mut wires);
    assert_eq!(pc.out.to_u16(&wires), 1);
}

#[test]
fn cpu_address_instruction_loads_a() {
    let mut wires = Wires::new();
    let in_m = Bus::<16>::all0(&mut wires).to_shared_bus();
    let instruction = word_bus::<16>(0x0002, &mut wires);
    let reset = Bus::<1>::all0(&mut wires).to_shared_bus();
    let cpu = CPU::new(in_m, instruction, reset, &mut wires);
    cpu.re_compute(&mut wires);
    cpu.clock_up(&mut wires);
    assert_eq!(cpu.get_a_register_value(&wires), 0);
    cpu.clock_down(&mut wires);
    cpu.re_compute(&mut wires);
    assert_eq!(cpu.get_a_register_value(&wires), 2);
    assert_eq!(cpu.write_m.to_u16(&wires), 0);
    // M=A+1 writes A+1 to memory and leaves A and D
    set(&instruction, 0b1110110111001000, &mut wires);
    cpu.re_compute(&mut wires);
    assert_eq!(cpu.write_m.to_u16(&wires), 1);
    assert_eq!(cpu.out_m.to_u16(&wires), 3);
    assert_eq!(cpu.address_m.to_u16(&wires), 2);
}

#[test]
fn bus_from_str_refuses_bad_text() {
    let mut wires = Wires::new();
    assert!(matches!(Bus::<4>::from_str("010", &mut wires), Err(ParseBusStrError)));
    assert!(matches!(Bus::<4>::from_str("01010", &mut wires), Err(ParseBusStrError)));
    assert!(matches!(Bus::<4>::from_str("01x0", &mut wires), Err(ParseBusStrError)));
    assert_eq!(wires.len(), 0);
    let b = Bus::<4>::from_str("0101", &mut wires).unwrap();
    assert_eq!(wires.len(), 4);
    assert_eq!(b.to_u16(&wires), 5);
}

#[test]
fn bus_to_u16_is_sum_of_powers_of_two() {
    let mut wires = Wires::new();
    let b = Bus::<16>::from_str("1000000000000101", &mut wires).unwrap();
    assert_eq!(b.to_u16(&wires), 32768 + 4 + 1);
    let c = b.to_shared_bus().reconnect([0, 0, 2, 15]);
    assert_eq!(c.to_u16(&wires), 1 + 2 + 4 + 8);
}

#[test]
fn overwrite_copies_values_and_keeps_wiring() {
    let mut wires = Wires::new();
    let a = word_bus::<4>(0b1010, &mut wires);
    let b = word_bus::<4>(0b0110, &mut wires);
    let alias = a.reconnect([3, 2, 1, 0]);
    a.overwrite(&b.0, &mut wires);
    assert_eq!(a.to_u16(&wires), 0b0110);
    assert_eq!(b.to_u16(&wires), 0b0110);
    assert_eq!(alias.to_u16(&wires), 0b0110);
}

#[test]
fn drive_and_put_set_whole_buses() {
    let mut wires = Wires::new();
    let a = Bus::<16>::all0(&mut wires).to_shared_bus();
    a.drive(Bit::I, &mut wires);
    assert_eq!(a.to_u16(&wires), 0xFFFF);
    a.put(0xA5C3, &mut wires);
    assert_eq!(a.to_u16(&wires), 0xA5C3);
    let wide: SharedBus<8> = a.reconnect([0]).widen();
    assert_eq!(wide.to_u16(&wires), 0xFF);
}

#[test]
fn rom_text_lines() {
    assert_eq!(parse_line(b"0101", 0, 4), Some(5));
    assert_eq!(parse_line(b"  \t0101", 0, 7), Some(5));
    assert_eq!(parse_line(b"", 0, 0), Some(0));
    assert_eq!(parse_line(b"1111111111111111", 0, 16), Some(0xFFFF));
    assert_eq!(parse_line(b"10000000000000000001", 0, 20), Some(1));
    assert_eq!(parse_line(b"01 01", 0, 5), None);
    assert_eq!(parse_line(b"0121", 0, 4), None);
    assert_eq!(parse_line(b"xx0101yy", 2, 6), Some(5));
}

#[test]
fn rom_refuses_text_that_is_no_numeral() {
    let mut wires = Wires::new();
    let address = Bus::<15>::all0(&mut wires).to_shared_bus();
    let before = wires.len();
    assert!(ROM32KBuiltIn::from_rom_str("0000000000000010\n00000000000000x0", address, &mut wires).is_err());
    assert_eq!(wires.len(), before);
    let rom = ROM32KBuiltIn::from_rom_str("11\n\n101\n", address, &mut wires).unwrap();
    assert_eq!(rom.rom[0], 3);
    assert_eq!(rom.rom[1], 0);
    assert_eq!(rom.rom[2], 5);
    assert_eq!(rom.rom[3], 0);
}

#[test]
fn rom_ignores_lines_after_the_last_word() {
    let mut text = String::new();
    for n in 0..32768 {
        text.push_str(if n % 2 == 0 { "1\n" } else { "10\n" });
    }
    text.push_str("this line is never read\n");
    let mut wires = Wires::new();
    let address = Bus::<15>::all0(&mut wires).to_shared_bus();
    let rom = ROM32KBuiltIn::from_rom_str(&text, address, &mut wires).unwrap();
    assert_eq!(rom.rom[0], 1);
    assert_eq!(rom.rom[1], 2);
    assert_eq!(rom.rom[32767], 2);
    set(&address, 32767, &mut wires);
    rom.re_compute(&mut wires);
    assert_eq!(rom.out.to_u16(&wires), 2);
}

#[test]
fn keyboard_shows_what_is_put_on_its_wires() {
    let mut wires = Wires::new();
    let keyboard = KeyboardBuiltIn::new(&mut wires);
    keyboard.re_compute(&mut wires);
    assert_eq!(keyboard.out.to_u16(&wires), 0);
    keyboard.out.put(65, &mut wires);
    keyboard.re_compute(&mut wires);
    keyboard.clock_up(&mut wires);
    keyboard.clock_down(&mut wires);
    assert_eq!(keyboard.out.to_u16(&wires), 65);
}

#[test]
fn screen_keeps_words_apart() {
    let mut wires = Wires::new();
    let input = word_bus::<16>(0xFFFF, &mut wires);
    let load = word_bus::<1>(1, &mut wires);
    let address = word_bus::<13>(8191, &mut wires);
    let screen = ScreenBuiltIn::new(input, load, address, &mut wires);
    screen.re_compute(&mut wires);
    screen.clock_up(&mut wires);
    // the word shows only after the falling edge and a new settling
    screen.re_compute(&mut wires);
    assert_eq!(screen.out.to_u16(&wires), 0);
    screen.clock_down(&mut wires);
    screen.re_compute(&mut wires);
    assert_eq!(screen.out.to_u16(&wires), 0xFFFF);
    assert_eq!(screen.peek(8191, &wires), 0xFFFF);
    assert_eq!(screen.peek(8190, &wires), 0);
    assert_eq!(screen.peek(0, &wires), 0);
}

#[test]
fn digits_are_read_back_by_from_str() {
    let mut wires = Wires::new();
    let a = Bus::<8>::from_str("10100110", &mut wires).unwrap();
    let text = a.digits(&wires);
    assert_eq!(text, b"10100110".to_vec());
    let again = Bus::<8>::from_str(std::str::from_utf8(&text).unwrap(), &mut wires).unwrap();
    assert!(a.to_shared_bus().same_value(&again.to_shared_bus(), &wires));
    assert_eq!(again.to_u16(&wires), 0xA6);
}

#[test]
fn wide_bus_with_low_value_has_a_number() {
    let mut wires = Wires::new();
    let a = Bus::<20>::from_str("00001000000000000011", &mut wires).unwrap();
    assert_eq!(a.to_u16(&wires), 32771);
}

#[test]
fn same_value_compares_values_not_wires() {
    let mut wires = Wires::new();
    let a = word_bus::<4>(9, &mut wires);
    let b = word_bus::<4>(9, &mut wires);
    let c = word_bus::<4>(8, &mut wires);
    assert!(a.same_value(&b, &wires));
    assert!(!a.same_value(&c, &wires));
    wires.set(c.get_shared_bit(0), Bit::I);
    assert!(a.same_value(&c, &wires));
}
