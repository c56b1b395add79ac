use hack_computer::computer::{MemoryBuiltIn, ROM32KBuiltIn, CPU};
use hack_computer::gate::{Bit, Bus, Gate, SharedBus};
use hack_computer::wires::Wires;



fn str_to_shared_bus<const N: usize>(s: &str, wires: &mut Wires) -> SharedBus<N> {
    let mut cells = [Bit::O; N];
    for (i, c) in s.chars().rev().enumerate() {
        let bit = match c {
            '0' => Bit::O,
            '1' => Bit::I,
            _ => Bit::O,
        };
        cells[i] = bit;
    }

    Bus::new(cells.map(|b| wires.add(b))).to_shared_bus()
}

#[test]
fn rom32k() {
    let mut wires = Wires::new();
    let rom_str = "0000000000000000\n\
                         1111110000010000\n\
                         0000000000010111\n\
                         1110001100000110";
    // 0
    let address = str_to_shared_bus::<15>("0", &mut wires);
    let rom = ROM32KBuiltIn::from_rom_str(rom_str, address, &mut wires).unwrap();
    rom.re_compute(&mut wires);
    assert_eq!(rom.out.to_u16(&wires), 0);

    // 1
    let address = str_to_shared_bus::<15>("1", &mut wires);
    let rom = ROM32KBuiltIn::from_rom_str(rom_str, address, &mut wires).unwrap();
    rom.re_compute(&mut wires);
    assert_eq!(rom.out.to_u16(&wires), 64528);

    // 2
    let address = str_to_shared_bus::<15>("10", &mut wires);
    let rom = ROM32KBuiltIn::from_rom_str(rom_str, address, &mut wires).unwrap();
    rom.re_compute(&mut wires);
    assert_eq!(rom.out.to_u16(&wires), 23);

    // 3
    let address = str_to_shared_bus::<15>("11", &mut wires);
    let rom = ROM32KBuiltIn::from_rom_str(rom_str, address, &mut wires).unwrap();
    rom.re_compute(&mut wires);
    assert_eq!(rom.out.to_u16(&wires), 58118);
}

#[test]
fn computer_ram16kbuiltin() {
    let mut wires = Wires::new();
    let cases: Vec<(i16, i16, i16, i16)> = vec![
        (12345, 1, 8192, 0),
        (12345, 1, 8192, 12345),
        (12345, 1, 16384, 0),
        (12345, 1, 16384, 12345),
    ];

    let input: SharedBus<16> = Bus::all0(&mut wires).to_shared_bus();
    let load: SharedBus<1> = Bus::all0(&mut wires).to_shared_bus();
    let address: SharedBus<15> = Bus::all0(&mut wires).to_shared_bus();
    let memory = MemoryBuiltIn::new(input, load, address, &mut wires);

    for case in cases {
        println!("{}, {}, {}, {}", &case.0, &case.1, &case.2, &case.3);
        let _input = i16_to_bus16(case.0, &mut wires);
        let _sel = i16_to_bus1(case.1, &mut wires);
        let _address = i16_to_bus15(case.2, &mut wires);

        let out = i16_to_bus16(case.3, &mut wires).to_shared_bus();

        input.overwrite(&_input, &mut wires);
        load.overwrite(&_sel, &mut wires);
        address.overwrite(&_address, &mut wires);

        memory.re_compute(&mut wires);
        memory.clock_up(&mut wires);
        assert!(memory.out.same_value(&out, &wires));

        // tock
        memory.clock_down(&mut wires);
        memory.re_compute(&mut wires);
    }
}

#[test]
fn cpu() {
    let mut wires = Wires::new();
    let in_m = Bus::<16>::all0(&mut wires).to_shared_bus();
    let instruction = i16_to_bus16(12345, &mut wires).to_shared_bus();
    let reset = Bus::<1>::all0(&mut wires).to_shared_bus();

    let cpu = CPU::new(in_m, instruction, reset, &mut wires);

    // 0+------------------
    instruction.overwrite(&u16_to_bus16(12345, &mut wires), &mut wires);

    cpu.re_compute(&mut wires);
    cpu.clock_up(&mut wires);

    assert_eq!(cpu.write_m.to_u16(&wires), 0);
    assert_eq!(cpu.address_m.to_u16(&wires), 0);
    assert_eq!(cpu.pc.to_u16(&wires), 0);

    // 1------------------

    cpu.clock_down(&mut wires);
    cpu.re_compute(&mut wires);

    assert_eq!(cpu.write_m.to_u16(&wires), 0);
    assert_eq!(cpu.address_m.to_u16(&wires), 12345);
    assert_eq!(cpu.pc.to_u16(&wires), 1);

    // 1+ ---------------------------
    instruction.overwrite(&u16_to_bus16(60432, &mut wires), &mut wires);
    cpu.re_compute(&mut wires);
    cpu.clock_up(&mut wires);

    assert_eq!(cpu.write_m.to_u16(&wires), 0);
    assert_eq!(cpu.address_m.to_u16(&wires), 12345);
    assert_eq!(cpu.pc.to_u16(&wires), 1);

    // 2------------------
    cpu.clock_down(&mut wires);
    cpu.re_compute(&mut wires);

    assert_eq!(cpu.pc.to_u16(&wires), 2);

    assert_eq!(cpu.get_d_register_value(&wires), 12345);
}

fn i16_to_bus1(x: i16, wires: &mut Wires) -> Bus<1> {
    let s = format!("{:01b}", x);
    Bus::<1>::from_str(&s, wires).unwrap()
}
fn i16_to_bus15(x: i16, wires: &mut Wires) -> Bus<15> {
    let s = format!("{:015b}", x);
    Bus::<15>::from_str(&s, wires).unwrap()
}
fn i16_to_bus16(x: i16, wires: &mut Wires) -> Bus<16> {
    let s = format!("{:016b}", x);
    Bus::<16>::from_str(&s, wires).unwrap()
}
fn u16_to_bus16(x: u16, wires: &mut Wires) -> Bus<16> {
    let s = format!("{:016b}", x);
    Bus::<16>::from_str(&s, wires).unwrap()
}
