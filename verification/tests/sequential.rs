use hack_computer::gate::{Bit, Bus, Gate, SharedBus};
use hack_computer::sequential::{OneBitRegister, RAM16KBuiltIn, Register, DFF, PC, RAM64, RAM8};
use hack_computer::wires::Wires;



#[test]
fn dff() {
    let mut wires = Wires::new();
    let zero = Bus::<1>::all0(&mut wires).to_shared_bus();
    let one = Bus::<1>::all1(&mut wires).to_shared_bus();
    let input = Bus::<1>::all0(&mut wires).to_shared_bus();
    let dff = DFF::new(input, &mut wires);

    assert!(dff.out.same_value(&zero, &wires));

    dff.clock_up(&mut wires);
    assert!(dff.out.same_value(&zero, &wires));

    dff.clock_down(&mut wires);
    assert!(dff.out.same_value(&zero, &wires));

    wires.set(input.get_shared_bit(0), Bit::I);

    dff.clock_up(&mut wires);
    assert!(dff.out.same_value(&zero, &wires));

    dff.clock_down(&mut wires);
    assert!(dff.out.same_value(&one, &wires));
}

#[test]
fn one_bit_register() {
    let mut wires = Wires::new();
    let zero = Bus::<1>::all0(&mut wires).to_shared_bus();
    let one = Bus::<1>::all1(&mut wires).to_shared_bus();
    let input = Bus::<1>::all0(&mut wires).to_shared_bus();
    let load = Bus::<1>::all0(&mut wires).to_shared_bus();
    let one_bit_register = OneBitRegister::new(input, load, &mut wires);

    assert!(one_bit_register.out.same_value(&zero, &wires));

    wires.set(input.get_shared_bit(0), Bit::I);
    wires.set(load.get_shared_bit(0), Bit::I);

    // tick
    one_bit_register.re_compute(&mut wires);
    one_bit_register.clock_up(&mut wires);
    assert!(one_bit_register.out.same_value(&zero, &wires));
    assert!(one_bit_register.get_next().same_value(&one, &wires));
    assert!(one_bit_register.get_out().same_value(&zero, &wires));

    // tock
    one_bit_register.clock_down(&mut wires);
    one_bit_register.re_compute(&mut wires);
    assert!(one_bit_register.out.same_value(&one, &wires));
    assert!(one_bit_register.get_out().same_value(&one, &wires));

    wires.set(input.get_shared_bit(0), Bit::O);
    wires.set(load.get_shared_bit(0), Bit::O);

    assert!(one_bit_register.get_out().same_value(&one, &wires));
    assert!(one_bit_register.get_next().same_value(&one, &wires));

    // tick
    one_bit_register.re_compute(&mut wires);
    one_bit_register.clock_up(&mut wires);
    assert!(one_bit_register.out.same_value(&one, &wires));
    // dff
    assert!(one_bit_register.get_out().same_value(&one, &wires));
    assert_eq!(wires.get(one_bit_register.get_out().get_shared_bit(0)), Bit::I);
    assert!(one_bit_register.get_next().same_value(&one, &wires));

    // tock
    one_bit_register.clock_down(&mut wires);
    one_bit_register.re_compute(&mut wires);
    assert!(one_bit_register.out.same_value(&one, &wires));

    // tick
    one_bit_register.re_compute(&mut wires);
    one_bit_register.clock_up(&mut wires);
    // tock
    one_bit_register.clock_down(&mut wires);
    one_bit_register.re_compute(&mut wires);
    assert!(one_bit_register.out.same_value(&one, &wires));

    wires.set(input.get_shared_bit(0), Bit::O);
    wires.set(load.get_shared_bit(0), Bit::I);

    // tick
    one_bit_register.re_compute(&mut wires);
    one_bit_register.clock_up(&mut wires);
    assert!(one_bit_register.out.same_value(&one, &wires));

    // tock
    one_bit_register.clock_down(&mut wires);
    one_bit_register.re_compute(&mut wires);
    assert!(one_bit_register.out.same_value(&zero, &wires));

    // tick
    one_bit_register.re_compute(&mut wires);
    one_bit_register.clock_up(&mut wires);
    // tock
    one_bit_register.clock_down(&mut wires);
    one_bit_register.re_compute(&mut wires);
    assert!(one_bit_register.out.same_value(&zero, &wires));
}

#[test]
fn register() {
    let mut wires = Wires::new();
    let cases: Vec<(i16, &str, i16)> = vec![
        // in, load, out
        (0, "0", 0),
        (0, "0", 0),
        (0, "1", 0),
        (0, "1", 0),
        (-32123, "0", 0),
        (-32123, "0", 0),
        (11111, "0", 0),
        (11111, "0", 0),
        (-32123, "1", 0),
        (-32123, "1", -32123),
        (-32123, "1", -32123),
        (-32123, "1", -32123),
        (-32123, "0", -32123),
        (-32123, "0", -32123),
        (12345, "1", -32123),
        (12345, "1", 12345),
        (0, "0", 12345),
        (0, "0", 12345),
        (0, "1", 12345),
        (0, "1", 0),
        (1, "0", 0),
        (1, "0", 0),
        (1, "1", 0),
        (1, "1", 1),
        (2, "0", 1),
        (2, "0", 1),
        (2, "1", 1),
        (2, "1", 2),
        (4, "0", 2),
        (4, "0", 2),
        (4, "1", 2),
        (4, "1", 4),
        (8, "0", 4),
        (8, "0", 4),
        (8, "1", 4),
        (8, "1", 8),
        (16, "0", 8),
        (16, "0", 8),
        (16, "1", 8),
        (16, "1", 16),
        (32, "0", 16),
        (32, "0", 16),
        (32, "1", 16),
        (32, "1", 32),
        (64, "0", 32),
        (64, "0", 32),
        (64, "1", 32),
        (64, "1", 64),
        (128, "0", 64),
        (128, "0", 64),
        (128, "1", 64),
        (128, "1", 128),
        (256, "0", 128),
        (256, "0", 128),
        (256, "1", 128),
        (256, "1", 256),
        (512, "0", 256),
        (512, "0", 256),
        (512, "1", 256),
        (512, "1", 512),
        (1024, "0", 512),
        (1024, "0", 512),
        (1024, "1", 512),
        (1024, "1", 1024),
        (2048, "0", 1024),
        (2048, "0", 1024),
        (2048, "1", 1024),
        (2048, "1", 2048),
        (4096, "0", 2048),
        (4096, "0", 2048),
        (4096, "1", 2048),
        (4096, "1", 4096),
        (8192, "0", 4096),
        (8192, "0", 4096),
        (8192, "1", 4096),
        (8192, "1", 8192),
        (16384, "0", 8192),
        (16384, "0", 8192),
        (16384, "1", 8192),
        (16384, "1", 16384),
        (-32768, "0", 16384),
        (-32768, "0", 16384),
        (-32768, "1", 16384),
        (-32768, "1", -32768),
        (-2, "0", -32768),
        (-2, "0", -32768),
        (-2, "1", -32768),
        (-2, "1", -2),
        (-3, "0", -2),
        (-3, "0", -2),
        (-3, "1", -2),
        (-3, "1", -3),
        (-5, "0", -3),
        (-5, "0", -3),
        (-5, "1", -3),
        (-5, "1", -5),
        (-9, "0", -5),
        (-9, "0", -5),
        (-9, "1", -5),
        (-9, "1", -9),
        (-17, "0", -9),
        (-17, "0", -9),
        (-17, "1", -9),
        (-17, "1", -17),
        (-33, "0", -17),
        (-33, "0", -17),
        (-33, "1", -17),
        (-33, "1", -33),
        (-65, "0", -33),
        (-65, "0", -33),
        (-65, "1", -33),
        (-65, "1", -65),
        (-129, "0", -65),
        (-129, "0", -65),
        (-129, "1", -65),
        (-129, "1", -129),
        (-257, "0", -129),
        (-257, "0", -129),
        (-257, "1", -129),
        (-257, "1", -257),
        (-513, "0", -257),
        (-513, "0", -257),
        (-513, "1", -257),
        (-513, "1", -513),
        (-1025, "0", -513),
        (-1025, "0", -513),
        (-1025, "1", -513),
        (-1025, "1", -1025),
        (-2049, "0", -1025),
        (-2049, "0", -1025),
        (-2049, "1", -1025),
        (-2049, "1", -2049),
        (-4097, "0", -2049),
        (-4097, "0", -2049),
        (-4097, "1", -2049),
        (-4097, "1", -4097),
        (-8193, "0", -4097),
        (-8193, "0", -4097),
        (-8193, "1", -4097),
        (-8193, "1", -8193),
        (-16385, "0", -8193),
        (-16385, "0", -8193),
        (-16385, "1", -8193),
        (-16385, "1", -16385),
        (32767, "0", -16385),
        (32767, "0", -16385),
        (32767, "1", -16385),
        (32767, "1", 32767),
    ];

    let input: SharedBus<16> = Bus::all0(&mut wires).to_shared_bus();
    let load: SharedBus<1> = Bus::all0(&mut wires).to_shared_bus();
    let register = Register::new(input, load, &mut wires);

    cases.chunks(2).for_each(|case| {
        let _input = i16_to_bus16(case[0].0, &mut wires);
        let _sel = Bus::<1>::from_str(case[0].1, &mut wires).unwrap();

        let out = i16_to_bus16(case[0].2, &mut wires).to_shared_bus();

        input.overwrite(&_input, &mut wires);
        load.overwrite(&_sel, &mut wires);

        // tick
        register.re_compute(&mut wires);
        register.clock_up(&mut wires);

        assert!(register.out.same_value(&out, &wires));

        // tock
        register.clock_down(&mut wires);
        register.re_compute(&mut wires);

        let out = i16_to_bus16(case[1].2, &mut wires).to_shared_bus();
        assert!(register.out.same_value(&out, &wires));
    });
}

#[test]
fn ram8() {
    let mut wires = Wires::new();
    let cases: Vec<(i16, i16, i16, i16, bool)> = vec![
        // in, load, address,  out, tick?
        (0, 0, 0, 0, true),
        (0, 0, 0, 0, false),
        (0, 1, 0, 0, true),
        (0, 1, 0, 0, false),
        (11111, 0, 0, 0, true),
        (11111, 0, 0, 0, false),
        (11111, 1, 1, 0, true),
        (11111, 1, 1, 11111, false),
        (11111, 0, 0, 0, true),
        (11111, 0, 0, 0, false),
        (3333, 0, 3, 0, true),
        (3333, 0, 3, 0, false),
        (3333, 1, 3, 0, true),
        (3333, 1, 3, 3333, false),
        (3333, 0, 3, 3333, true),
        (3333, 0, 3, 3333, false),
        (3333, 0, 1, 11111, false),
        (7777, 0, 1, 11111, true),
        (7777, 0, 1, 11111, false),
        (7777, 1, 7, 0, true),
        (7777, 1, 7, 7777, false),
        (7777, 0, 7, 7777, true),
        (7777, 0, 7, 7777, false),
        (7777, 0, 3, 3333, false),
        (7777, 0, 7, 7777, false),
        (7777, 0, 0, 0, true),
        (7777, 0, 0, 0, false),
        (7777, 0, 1, 11111, false),
        (7777, 0, 2, 0, false),
        (7777, 0, 3, 3333, false),
        (7777, 0, 4, 0, false),
        (7777, 0, 5, 0, false),
        (7777, 0, 6, 0, false),
        (7777, 0, 7, 7777, false),
        (21845, 1, 0, 0, true),
        (21845, 1, 0, 21845, false),
        (21845, 1, 1, 11111, true),
        (21845, 1, 1, 21845, false),
        (21845, 1, 2, 0, true),
        (21845, 1, 2, 21845, false),
        (21845, 1, 3, 3333, true),
        (21845, 1, 3, 21845, false),
        (21845, 1, 4, 0, true),
        (21845, 1, 4, 21845, false),
        (21845, 1, 5, 0, true),
        (21845, 1, 5, 21845, false),
        (21845, 1, 6, 0, true),
        (21845, 1, 6, 21845, false),
        (21845, 1, 7, 7777, true),
        (21845, 1, 7, 21845, false),
        (21845, 0, 0, 21845, true),
        (21845, 0, 0, 21845, false),
        (21845, 0, 1, 21845, false),
        (21845, 0, 2, 21845, false),
        (21845, 0, 3, 21845, false),
        (21845, 0, 4, 21845, false),
        (21845, 0, 5, 21845, false),
        (21845, 0, 6, 21845, false),
        (21845, 0, 7, 21845, false),
        (-21846, 1, 0, 21845, true),
        (-21846, 1, 0, -21846, false),
        (-21846, 0, 0, -21846, true),
        (-21846, 0, 0, -21846, false),
        (-21846, 0, 1, 21845, false),
        (-21846, 0, 2, 21845, false),
        (-21846, 0, 3, 21845, false),
        (-21846, 0, 4, 21845, false),
        (-21846, 0, 5, 21845, false),
        (-21846, 0, 6, 21845, false),
        (-21846, 0, 7, 21845, false),
        (21845, 1, 0, -21846, true),
        (21845, 1, 0, 21845, false),
        (-21846, 1, 1, 21845, true),
        (-21846, 1, 1, -21846, false),
        (-21846, 0, 0, 21845, true),
        (-21846, 0, 0, 21845, false),
        (-21846, 0, 1, -21846, false),
        (-21846, 0, 2, 21845, false),
        (-21846, 0, 3, 21845, false),
        (-21846, 0, 4, 21845, false),
        (-21846, 0, 5, 21845, false),
        (-21846, 0, 6, 21845, false),
        (-21846, 0, 7, 21845, false),
        (21845, 1, 1, -21846, true),
        (21845, 1, 1, 21845, false),
        (-21846, 1, 2, 21845, true),
        (-21846, 1, 2, -21846, false),
        (-21846, 0, 0, 21845, true),
        (-21846, 0, 0, 21845, false),
        (-21846, 0, 1, 21845, false),
        (-21846, 0, 2, -21846, false),
        (-21846, 0, 3, 21845, false),
        (-21846, 0, 4, 21845, false),
        (-21846, 0, 5, 21845, false),
        (-21846, 0, 6, 21845, false),
        (-21846, 0, 7, 21845, false),
        (21845, 1, 2, -21846, true),
        (21845, 1, 2, 21845, false),
        (-21846, 1, 3, 21845, true),
        (-21846, 1, 3, -21846, false),
        (-21846, 0, 0, 21845, true),
        (-21846, 0, 0, 21845, false),
        (-21846, 0, 1, 21845, false),
        (-21846, 0, 2, 21845, false),
        (-21846, 0, 3, -21846, false),
        (-21846, 0, 4, 21845, false),
        (-21846, 0, 5, 21845, false),
        (-21846, 0, 6, 21845, false),
        (-21846, 0, 7, 21845, false),
        (21845, 1, 3, -21846, true),
        (21845, 1, 3, 21845, false),
        (-21846, 1, 4, 21845, true),
        (-21846, 1, 4, -21846, false),
        (-21846, 0, 0, 21845, true),
        (-21846, 0, 0, 21845, false),
        (-21846, 0, 1, 21845, false),
        (-21846, 0, 2, 21845, false),
        (-21846, 0, 3, 21845, false),
        (-21846, 0, 4, -21846, false),
        (-21846, 0, 5, 21845, false),
        (-21846, 0, 6, 21845, false),
        (-21846, 0, 7, 21845, false),
        (21845, 1, 4, -21846, true),
        (21845, 1, 4, 21845, false),
        (-21846, 1, 5, 21845, true),
        (-21846, 1, 5, -21846, false),
        (-21846, 0, 0, 21845, true),
        (-21846, 0, 0, 21845, false),
        (-21846, 0, 1, 21845, false),
        (-21846, 0, 2, 21845, false),
        (-21846, 0, 3, 21845, false),
        (-21846, 0, 4, 21845, false),
        (-21846, 0, 5, -21846, false),
        (-21846, 0, 6, 21845, false),
        (-21846, 0, 7, 21845, false),
        (21845, 1, 5, -21846, true),
        (21845, 1, 5, 21845, false),
        (-21846, 1, 6, 21845, true),
        (-21846, 1, 6, -21846, false),
        (-21846, 0, 0, 21845, true),
        (-21846, 0, 0, 21845, false),
        (-21846, 0, 1, 21845, false),
        (-21846, 0, 2, 21845, false),
        (-21846, 0, 3, 21845, false),
        (-21846, 0, 4, 21845, false),
        (-21846, 0, 5, 21845, false),
        (-21846, 0, 6, -21846, false),
        (-21846, 0, 7, 21845, false),
        (21845, 1, 6, -21846, true),
        (21845, 1, 6, 21845, false),
        (-21846, 1, 7, 21845, true),
        (-21846, 1, 7, -21846, false),
        (-21846, 0, 0, 21845, true),
        (-21846, 0, 0, 21845, false),
        (-21846, 0, 1, 21845, false),
        (-21846, 0, 2, 21845, false),
        (-21846, 0, 3, 21845, false),
        (-21846, 0, 4, 21845, false),
        (-21846, 0, 5, 21845, false),
        (-21846, 0, 6, 21845, false),
        (-21846, 0, 7, -21846, false),
        (21845, 1, 7, -21846, true),
        (21845, 1, 7, 21845, false),
        (21845, 0, 0, 21845, true),
        (21845, 0, 0, 21845, false),
        (21845, 0, 1, 21845, false),
        (21845, 0, 2, 21845, false),
        (21845, 0, 3, 21845, false),
        (21845, 0, 4, 21845, false),
        (21845, 0, 5, 21845, false),
        (21845, 0, 6, 21845, false),
        (21845, 0, 7, 21845, false),
    ];

    let input: SharedBus<16> = Bus::all0(&mut wires).to_shared_bus();
    let load: SharedBus<1> = Bus::all0(&mut wires).to_shared_bus();
    let address: SharedBus<3> = Bus::all0(&mut wires).to_shared_bus();
    let ram8 = RAM8::new(input, load, address, &mut wires);

    for case in cases {
        let _input = i16_to_bus16(case.0, &mut wires);
        let _sel = i16_to_bus1(case.1, &mut wires);
        let _address = i16_to_bus3(case.2, &mut wires);

        let out = i16_to_bus16(case.3, &mut wires).to_shared_bus();

        input.overwrite(&_input, &mut wires);
        load.overwrite(&_sel, &mut wires);
        address.overwrite(&_address, &mut wires);

        // tick
        if case.4 {
            ram8.re_compute(&mut wires);
            ram8.clock_up(&mut wires);
            assert!(ram8.out.same_value(&out, &wires));
        } else {
            // tock
            ram8.clock_down(&mut wires);
            ram8.re_compute(&mut wires);
            assert!(ram8.out.same_value(&out, &wires));
        }
    }
}

#[test]
fn ram64() {
    let mut wires = Wires::new();
    let cases: Vec<(i16, i16, i16, i16, bool)> = vec![
        // in, load, address,  out, tick?
        (0, 0, 0, 0, true),
        (0, 0, 0, 0, false),
        (0, 1, 0, 0, true),
        (0, 1, 0, 0, false),
        (1313, 0, 0, 0, true),
        (1313, 0, 0, 0, false),
        (1313, 1, 13, 0, true),
        (1313, 1, 13, 1313, false),
        (1313, 0, 0, 0, true),
        (1313, 0, 0, 0, false),
        (4747, 0, 47, 0, true),
        (4747, 0, 47, 0, false),
        (4747, 1, 47, 0, true),
        (4747, 1, 47, 4747, false),
        (4747, 0, 47, 4747, true),
        (4747, 0, 47, 4747, false),
        (4747, 0, 13, 1313, false),
        (6363, 0, 13, 1313, true),
        (6363, 0, 13, 1313, false),
        (6363, 1, 63, 0, true),
        (6363, 1, 63, 6363, false),
        (6363, 0, 63, 6363, true),
        (6363, 0, 63, 6363, false),
        (6363, 0, 47, 4747, false),
        (6363, 0, 63, 6363, false),
        (6363, 0, 40, 0, true),
        (6363, 0, 40, 0, false),
        (6363, 0, 41, 0, false),
        (6363, 0, 42, 0, false),
        (6363, 0, 43, 0, false),
        (6363, 0, 44, 0, false),
        (6363, 0, 45, 0, false),
        (6363, 0, 46, 0, false),
        (6363, 0, 47, 4747, false),
        (21845, 1, 40, 0, true),
        (21845, 1, 40, 21845, false),
        (21845, 1, 41, 0, true),
        (21845, 1, 41, 21845, false),
        (21845, 1, 42, 0, true),
        (21845, 1, 42, 21845, false),
        (21845, 1, 43, 0, true),
        (21845, 1, 43, 21845, false),
        (21845, 1, 44, 0, true),
        (21845, 1, 44, 21845, false),
        (21845, 1, 45, 0, true),
        (21845, 1, 45, 21845, false),
        (21845, 1, 46, 0, true),
        (21845, 1, 46, 21845, false),
        (21845, 1, 47, 4747, true),
        (21845, 1, 47, 21845, false),
        (21845, 0, 40, 21845, true),
        (21845, 0, 40, 21845, false),
        (21845, 0, 41, 21845, false),
        (21845, 0, 42, 21845, false),
        (21845, 0, 43, 21845, false),
        (21845, 0, 44, 21845, false),
        (21845, 0, 45, 21845, false),
        (21845, 0, 46, 21845, false),
        (21845, 0, 47, 21845, false),
        (-21846, 1, 40, 21845, true),
        (-21846, 1, 40, -21846, false),
        (-21846, 0, 40, -21846, true),
        (-21846, 0, 40, -21846, false),
        (-21846, 0, 41, 21845, false),
        (-21846, 0, 42, 21845, false),
        (-21846, 0, 43, 21845, false),
        (-21846, 0, 44, 21845, false),
        (-21846, 0, 45, 21845, false),
        (-21846, 0, 46, 21845, false),
        (-21846, 0, 47, 21845, false),
        (21845, 1, 40, -21846, true),
        (21845, 1, 40, 21845, false),
        (-21846, 1, 41, 21845, true),
        (-21846, 1, 41, -21846, false),
        (-21846, 0, 40, 21845, true),
        (-21846, 0, 40, 21845, false),
        (-21846, 0, 41, -21846, false),
        (-21846, 0, 42, 21845, false),
        (-21846, 0, 43, 21845, false),
        (-21846, 0, 44, 21845, false),
        (-21846, 0, 45, 21845, false),
        (-21846, 0, 46, 21845, false),
        (-21846, 0, 47, 21845, false),
        (21845, 1, 41, -21846, true),
        (21845, 1, 41, 21845, false),
        (-21846, 1, 42, 21845, true),
        (-21846, 1, 42, -21846, false),
        (-21846, 0, 40, 21845, true),
        (-21846, 0, 40, 21845, false),
        (-21846, 0, 41, 21845, false),
        (-21846, 0, 42, -21846, false),
        (-21846, 0, 43, 21845, false),
        (-21846, 0, 44, 21845, false),
        (-21846, 0, 45, 21845, false),
        (-21846, 0, 46, 21845, false),
        (-21846, 0, 47, 21845, false),
        (21845, 1, 42, -21846, true),
        (21845, 1, 42, 21845, false),
        (-21846, 1, 43, 21845, true),
        (-21846, 1, 43, -21846, false),
        (-21846, 0, 40, 21845, true),
        (-21846, 0, 40, 21845, false),
        (-21846, 0, 41, 21845, false),
        (-21846, 0, 42, 21845, false),
        (-21846, 0, 43, -21846, false),
        (-21846, 0, 44, 21845, false),
        (-21846, 0, 45, 21845, false),
        (-21846, 0, 46, 21845, false),
        (-21846, 0, 47, 21845, false),
        (21845, 1, 43, -21846, true),
        (21845, 1, 43, 21845, false),
        (-21846, 1, 44, 21845, true),
        (-21846, 1, 44, -21846, false),
        (-21846, 0, 40, 21845, true),
        (-21846, 0, 40, 21845, false),
        (-21846, 0, 41, 21845, false),
        (-21846, 0, 42, 21845, false),
        (-21846, 0, 43, 21845, false),
        (-21846, 0, 44, -21846, false),
        (-21846, 0, 45, 21845, false),
        (-21846, 0, 46, 21845, false),
        (-21846, 0, 47, 21845, false),
        (21845, 1, 44, -21846, true),
        (21845, 1, 44, 21845, false),
        (-21846, 1, 45, 21845, true),
        (-21846, 1, 45, -21846, false),
        (-21846, 0, 40, 21845, true),
        (-21846, 0, 40, 21845, false),
        (-21846, 0, 41, 21845, false),
        (-21846, 0, 42, 21845, false),
        (-21846, 0, 43, 21845, false),
        (-21846, 0, 44, 21845, false),
        (-21846, 0, 45, -21846, false),
        (-21846, 0, 46, 21845, false),
        (-21846, 0, 47, 21845, false),
        (21845, 1, 45, -21846, true),
        (21845, 1, 45, 21845, false),
        (-21846, 1, 46, 21845, true),
        (-21846, 1, 46, -21846, false),
        (-21846, 0, 40, 21845, true),
        (-21846, 0, 40, 21845, false),
        (-21846, 0, 41, 21845, false),
        (-21846, 0, 42, 21845, false),
        (-21846, 0, 43, 21845, false),
        (-21846, 0, 44, 21845, false),
        (-21846, 0, 45, 21845, false),
        (-21846, 0, 46, -21846, false),
        (-21846, 0, 47, 21845, false),
        (21845, 1, 46, -21846, true),
        (21845, 1, 46, 21845, false),
        (-21846, 1, 47, 21845, true),
        (-21846, 1, 47, -21846, false),
        (-21846, 0, 40, 21845, true),
        (-21846, 0, 40, 21845, false),
        (-21846, 0, 41, 21845, false),
        (-21846, 0, 42, 21845, false),
        (-21846, 0, 43, 21845, false),
        (-21846, 0, 44, 21845, false),
        (-21846, 0, 45, 21845, false),
        (-21846, 0, 46, 21845, false),
        (-21846, 0, 47, -21846, false),
        (21845, 1, 47, -21846, true),
        (21845, 1, 47, 21845, false),
        (21845, 0, 40, 21845, true),
        (21845, 0, 40, 21845, false),
        (21845, 0, 41, 21845, false),
        (21845, 0, 42, 21845, false),
        (21845, 0, 43, 21845, false),
        (21845, 0, 44, 21845, false),
        (21845, 0, 45, 21845, false),
        (21845, 0, 46, 21845, false),
        (21845, 0, 47, 21845, false),
        (21845, 0, 5, 0, true),
        (21845, 0, 5, 0, false),
        (21845, 0, 13, 1313, false),
        (21845, 0, 21, 0, false),
        (21845, 0, 29, 0, false),
        (21845, 0, 37, 0, false),
        (21845, 0, 45, 21845, false),
        (21845, 0, 53, 0, false),
        (21845, 0, 61, 0, false),
        (21845, 1, 5, 0, true),
        (21845, 1, 5, 21845, false),
        (21845, 1, 13, 1313, true),
        (21845, 1, 13, 21845, false),
        (21845, 1, 21, 0, true),
        (21845, 1, 21, 21845, false),
        (21845, 1, 29, 0, true),
        (21845, 1, 29, 21845, false),
        (21845, 1, 37, 0, true),
        (21845, 1, 37, 21845, false),
        (21845, 1, 45, 21845, true),
        (21845, 1, 45, 21845, false),
        (21845, 1, 53, 0, true),
        (21845, 1, 53, 21845, false),
        (21845, 1, 61, 0, true),
        (21845, 1, 61, 21845, false),
        (21845, 0, 5, 21845, true),
        (21845, 0, 5, 21845, false),
        (21845, 0, 13, 21845, false),
        (21845, 0, 21, 21845, false),
        (21845, 0, 29, 21845, false),
        (21845, 0, 37, 21845, false),
        (21845, 0, 45, 21845, false),
        (21845, 0, 53, 21845, false),
        (21845, 0, 61, 21845, false),
        (-21846, 1, 5, 21845, true),
        (-21846, 1, 5, -21846, false),
        (-21846, 0, 5, -21846, true),
        (-21846, 0, 5, -21846, false),
        (-21846, 0, 13, 21845, false),
        (-21846, 0, 21, 21845, false),
        (-21846, 0, 29, 21845, false),
        (-21846, 0, 37, 21845, false),
        (-21846, 0, 45, 21845, false),
        (-21846, 0, 53, 21845, false),
        (-21846, 0, 61, 21845, false),
        (21845, 1, 5, -21846, true),
        (21845, 1, 5, 21845, false),
        (-21846, 1, 13, 21845, true),
        (-21846, 1, 13, -21846, false),
        (-21846, 0, 5, 21845, true),
        (-21846, 0, 5, 21845, false),
        (-21846, 0, 13, -21846, false),
        (-21846, 0, 21, 21845, false),
        (-21846, 0, 29, 21845, false),
        (-21846, 0, 37, 21845, false),
        (-21846, 0, 45, 21845, false),
        (-21846, 0, 53, 21845, false),
        (-21846, 0, 61, 21845, false),
        (21845, 1, 13, -21846, true),
        (21845, 1, 13, 21845, false),
        (-21846, 1, 21, 21845, true),
        (-21846, 1, 21, -21846, false),
        (-21846, 0, 5, 21845, true),
        (-21846, 0, 5, 21845, false),
        (-21846, 0, 13, 21845, false),
        (-21846, 0, 21, -21846, false),
        (-21846, 0, 29, 21845, false),
        (-21846, 0, 37, 21845, false),
        (-21846, 0, 45, 21845, false),
        (-21846, 0, 53, 21845, false),
        (-21846, 0, 61, 21845, false),
        (21845, 1, 21, -21846, true),
        (21845, 1, 21, 21845, false),
        (-21846, 1, 29, 21845, true),
        (-21846, 1, 29, -21846, false),
        (-21846, 0, 5, 21845, true),
        (-21846, 0, 5, 21845, false),
        (-21846, 0, 13, 21845, false),
        (-21846, 0, 21, 21845, false),
        (-21846, 0, 29, -21846, false),
        (-21846, 0, 37, 21845, false),
        (-21846, 0, 45, 21845, false),
        (-21846, 0, 53, 21845, false),
        (-21846, 0, 61, 21845, false),
        (21845, 1, 29, -21846, true),
        (21845, 1, 29, 21845, false),
        (-21846, 1, 37, 21845, true),
        (-21846, 1, 37, -21846, false),
        (-21846, 0, 5, 21845, true),
        (-21846, 0, 5, 21845, false),
        (-21846, 0, 13, 21845, false),
        (-21846, 0, 21, 21845, false),
        (-21846, 0, 29, 21845, false),
        (-21846, 0, 37, -21846, false),
        (-21846, 0, 45, 21845, false),
        (-21846, 0, 53, 21845, false),
        (-21846, 0, 61, 21845, false),
        (21845, 1, 37, -21846, true),
        (21845, 1, 37, 21845, false),
        (-21846, 1, 45, 21845, true),
        (-21846, 1, 45, -21846, false),
        (-21846, 0, 5, 21845, true),
        (-21846, 0, 5, 21845, false),
        (-21846, 0, 13, 21845, false),
        (-21846, 0, 21, 21845, false),
        (-21846, 0, 29, 21845, false),
        (-21846, 0, 37, 21845, false),
        (-21846, 0, 45, -21846, false),
        (-21846, 0, 53, 21845, false),
        (-21846, 0, 61, 21845, false),
        (21845, 1, 45, -21846, true),
        (21845, 1, 45, 21845, false),
        (-21846, 1, 53, 21845, true),
        (-21846, 1, 53, -21846, false),
        (-21846, 0, 5, 21845, true),
        (-21846, 0, 5, 21845, false),
        (-21846, 0, 13, 21845, false),
        (-21846, 0, 21, 21845, false),
        (-21846, 0, 29, 21845, false),
        (-21846, 0, 37, 21845, false),
        (-21846, 0, 45, 21845, false),
        (-21846, 0, 53, -21846, false),
        (-21846, 0, 61, 21845, false),
        (21845, 1, 53, -21846, true),
        (21845, 1, 53, 21845, false),
        (-21846, 1, 61, 21845, true),
        (-21846, 1, 61, -21846, false),
        (-21846, 0, 5, 21845, true),
        (-21846, 0, 5, 21845, false),
        (-21846, 0, 13, 21845, false),
        (-21846, 0, 21, 21845, false),
        (-21846, 0, 29, 21845, false),
        (-21846, 0, 37, 21845, false),
        (-21846, 0, 45, 21845, false),
        (-21846, 0, 53, 21845, false),
        (-21846, 0, 61, -21846, false),
        (21845, 1, 61, -21846, true),
        (21845, 1, 61, 21845, false),
        (21845, 0, 5, 21845, true),
        (21845, 0, 5, 21845, false),
        (21845, 0, 13, 21845, false),
        (21845, 0, 21, 21845, false),
        (21845, 0, 29, 21845, false),
        (21845, 0, 37, 21845, false),
        (21845, 0, 45, 21845, false),
        (21845, 0, 53, 21845, false),
        (21845, 0, 61, 21845, false),
    ];

    let input: SharedBus<16> = Bus::all0(&mut wires).to_shared_bus();
    let load: SharedBus<1> = Bus::all0(&mut wires).to_shared_bus();
    let address: SharedBus<6> = Bus::all0(&mut wires).to_shared_bus();
    let ram64 = RAM64::new(input, load, address, &mut wires);

    for case in cases {
        println!(
            "{}, {}, {}, {}, {}",
            &case.0, &case.1, &case.2, &case.3, &case.4
        );
        let _input = i16_to_bus16(case.0, &mut wires);
        let _sel = i16_to_bus1(case.1, &mut wires);
        let _address = i16_to_bus6(case.2, &mut wires);

        let out = i16_to_bus16(case.3, &mut wires).to_shared_bus();

        input.overwrite(&_input, &mut wires);
        load.overwrite(&_sel, &mut wires);
        address.overwrite(&_address, &mut wires);

        // tick
        if case.4 {
            ram64.re_compute(&mut wires);
            ram64.clock_up(&mut wires);

            assert!(ram64.out.same_value(&out, &wires));
        } else {
            // tock
            ram64.clock_down(&mut wires);
            ram64.re_compute(&mut wires);
            assert!(ram64.out.same_value(&out, &wires));
        }
    }
}

#[test]
fn pc() {
    let mut wires = Wires::new();
    let cases: Vec<(i16, i16, i16, i16, i16, bool)> = vec![
        // in, load, inc,  reset, out, tick?
        (0, 0, 0, 0, 0, true),
        (0, 0, 0, 0, 0, false),
        (0, 0, 0, 1, 0, true),
        (0, 0, 0, 1, 1, false),
        (-32123, 0, 0, 1, 1, true),
        (-32123, 0, 0, 1, 2, false),
        (-32123, 0, 1, 1, 2, true),
        (-32123, 0, 1, 1, -32123, false),
        (-32123, 0, 0, 1, -32123, true),
        (-32123, 0, 0, 1, -32122, false),
        (-32123, 0, 0, 1, -32122, true),
        (-32123, 0, 0, 1, -32121, false),
        (12345, 0, 1, 0, -32121, true),
        (12345, 0, 1, 0, 12345, false),
        (12345, 1, 1, 0, 12345, true),
        (12345, 1, 1, 0, 0, false),
        (12345, 0, 1, 1, 0, true),
        (12345, 0, 1, 1, 12345, false),
        (12345, 1, 1, 1, 12345, true),
        (12345, 1, 1, 1, 0, false),
        (12345, 0, 0, 1, 0, true),
        (12345, 0, 0, 1, 1, false),
        (12345, 1, 0, 1, 1, true),
        (12345, 1, 0, 1, 0, false),
        (0, 0, 1, 1, 0, true),
        (0, 0, 1, 1, 0, false),
        (0, 0, 0, 1, 0, true),
        (0, 0, 0, 1, 1, false),
        (22222, 1, 0, 0, 1, true),
        (22222, 1, 0, 0, 0, false),
    ];

    let input: SharedBus<16> = Bus::all0(&mut wires).to_shared_bus();
    let load: SharedBus<1> = Bus::all0(&mut wires).to_shared_bus();
    let inc: SharedBus<1> = Bus::all0(&mut wires).to_shared_bus();
    let reset: SharedBus<1> = Bus::all0(&mut wires).to_shared_bus();
    let pc = PC::new(input, load, inc, reset, &mut wires);

    for case in cases {
        println!(
            "{}, {}, {}, {}, {}, {}",
            &case.0, &case.1, &case.2, &case.3, &case.4, &case.5
        );
        let _input = i16_to_bus16(case.0, &mut wires);
        let _reset = i16_to_bus1(case.1, &mut wires);
        let _load = i16_to_bus1(case.2, &mut wires);
        let _inc = i16_to_bus1(case.3, &mut wires);

        let out = i16_to_bus16(case.4, &mut wires).to_shared_bus();

        input.overwrite(&_input, &mut wires);
        load.overwrite(&_load, &mut wires);
        inc.overwrite(&_inc, &mut wires);
        reset.overwrite(&_reset, &mut wires);

        // tick
        if case.5 {
            pc.re_compute(&mut wires);
            pc.clock_up(&mut wires);
            assert!(pc.out.same_value(&out, &wires));
        } else {
            // tock
            pc.clock_down(&mut wires);
            pc.re_compute(&mut wires);
            assert!(pc.out.same_value(&out, &wires));
        }
    }
}

#[test]
fn sequential_ram16kbuiltin() {
    let mut wires = Wires::new();
    let cases: Vec<(i16, i16, i16, i16, bool)> = vec![
        (0, 0, 0, 0, true),
        (0, 0, 0, 0, false),
        (0, 1, 0, 0, true),
        (0, 1, 0, 0, false),
        (4321, 0, 0, 0, true),
        (4321, 0, 0, 0, false),
        (4321, 1, 4321, 0, true),
        (4321, 1, 4321, 4321, false),
        (4321, 0, 0, 0, true),
        (4321, 0, 0, 0, false),
        (12345, 0, 12345, 0, true),
        (12345, 0, 12345, 0, false),
        (12345, 1, 12345, 0, true),
        (12345, 1, 12345, 12345, false),
        (12345, 0, 12345, 12345, true),
        (12345, 0, 12345, 12345, false),
        (12345, 0, 4321, 4321, false),
        (16383, 0, 4321, 4321, true),
        (16383, 0, 4321, 4321, false),
        (16383, 1, 16383, 0, true),
        (16383, 1, 16383, 16383, false),
        (16383, 0, 16383, 16383, true),
        (16383, 0, 16383, 16383, false),
        (16383, 0, 12345, 12345, false),
        (16383, 0, 16383, 16383, false),
        (16383, 0, 10920, 0, true),
        (16383, 0, 10920, 0, false),
        (16383, 0, 10921, 0, false),
        (16383, 0, 10922, 0, false),
        (16383, 0, 10923, 0, false),
        (16383, 0, 10924, 0, false),
        (16383, 0, 10925, 0, false),
        (16383, 0, 10926, 0, false),
        (16383, 0, 10927, 0, false),
        (21845, 1, 10920, 0, true),
        (21845, 1, 10920, 21845, false),
        (21845, 1, 10921, 0, true),
        (21845, 1, 10921, 21845, false),
        (21845, 1, 10922, 0, true),
        (21845, 1, 10922, 21845, false),
        (21845, 1, 10923, 0, true),
        (21845, 1, 10923, 21845, false),
        (21845, 1, 10924, 0, true),
        (21845, 1, 10924, 21845, false),
        (21845, 1, 10925, 0, true),
        (21845, 1, 10925, 21845, false),
        (21845, 1, 10926, 0, true),
        (21845, 1, 10926, 21845, false),
        (21845, 1, 10927, 0, true),
        (21845, 1, 10927, 21845, false),
        (21845, 0, 10920, 21845, true),
        (21845, 0, 10920, 21845, false),
        (21845, 0, 10921, 21845, false),
        (21845, 0, 10922, 21845, false),
        (21845, 0, 10923, 21845, false),
        (21845, 0, 10924, 21845, false),
        (21845, 0, 10925, 21845, false),
        (21845, 0, 10926, 21845, false),
        (21845, 0, 10927, 21845, false),
        (-21846, 1, 10920, 21845, true),
        (-21846, 1, 10920, -21846, false),
        (-21846, 0, 10920, -21846, true),
        (-21846, 0, 10920, -21846, false),
        (-21846, 0, 10921, 21845, false),
        (-21846, 0, 10922, 21845, false),
        (-21846, 0, 10923, 21845, false),
        (-21846, 0, 10924, 21845, false),
        (-21846, 0, 10925, 21845, false),
        (-21846, 0, 10926, 21845, false),
        (-21846, 0, 10927, 21845, false),
        (21845, 1, 10920, -21846, true),
        (21845, 1, 10920, 21845, false),
        (-21846, 1, 10921, 21845, true),
        (-21846, 1, 10921, -21846, false),
        (-21846, 0, 10920, 21845, true),
        (-21846, 0, 10920, 21845, false),
        (-21846, 0, 10921, -21846, false),
        (-21846, 0, 10922, 21845, false),
        (-21846, 0, 10923, 21845, false),
        (-21846, 0, 10924, 21845, false),
        (-21846, 0, 10925, 21845, false),
        (-21846, 0, 10926, 21845, false),
        (-21846, 0, 10927, 21845, false),
        (21845, 1, 10921, -21846, true),
        (21845, 1, 10921, 21845, false),
        (-21846, 1, 10922, 21845, true),
        (-21846, 1, 10922, -21846, false),
        (-21846, 0, 10920, 21845, true),
        (-21846, 0, 10920, 21845, false),
        (-21846, 0, 10921, 21845, false),
        (-21846, 0, 10922, -21846, false),
        (-21846, 0, 10923, 21845, false),
        (-21846, 0, 10924, 21845, false),
        (-21846, 0, 10925, 21845, false),
        (-21846, 0, 10926, 21845, false),
        (-21846, 0, 10927, 21845, false),
        (21845, 1, 10922, -21846, true),
        (21845, 1, 10922, 21845, false),
        (-21846, 1, 10923, 21845, true),
        (-21846, 1, 10923, -21846, false),
        (-21846, 0, 10920, 21845, true),
        (-21846, 0, 10920, 21845, false),
        (-21846, 0, 10921, 21845, false),
        (-21846, 0, 10922, 21845, false),
        (-21846, 0, 10923, -21846, false),
        (-21846, 0, 10924, 21845, false),
        (-21846, 0, 10925, 21845, false),
        (-21846, 0, 10926, 21845, false),
        (-21846, 0, 10927, 21845, false),
        (21845, 1, 10923, -21846, true),
        (21845, 1, 10923, 21845, false),
        (-21846, 1, 10924, 21845, true),
        (-21846, 1, 10924, -21846, false),
        (-21846, 0, 10920, 21845, true),
        (-21846, 0, 10920, 21845, false),
        (-21846, 0, 10921, 21845, false),
        (-21846, 0, 10922, 21845, false),
        (-21846, 0, 10923, 21845, false),
        (-21846, 0, 10924, -21846, false),
        (-21846, 0, 10925, 21845, false),
        (-21846, 0, 10926, 21845, false),
        (-21846, 0, 10927, 21845, false),
        (21845, 1, 10924, -21846, true),
        (21845, 1, 10924, 21845, false),
        (-21846, 1, 10925, 21845, true),
        (-21846, 1, 10925, -21846, false),
        (-21846, 0, 10920, 21845, true),
        (-21846, 0, 10920, 21845, false),
        (-21846, 0, 10921, 21845, false),
        (-21846, 0, 10922, 21845, false),
        (-21846, 0, 10923, 21845, false),
        (-21846, 0, 10924, 21845, false),
        (-21846, 0, 10925, -21846, false),
        (-21846, 0, 10926, 21845, false),
        (-21846, 0, 10927, 21845, false),
        (21845, 1, 10925, -21846, true),
        (21845, 1, 10925, 21845, false),
        (-21846, 1, 10926, 21845, true),
        (-21846, 1, 10926, -21846, false),
        (-21846, 0, 10920, 21845, true),
        (-21846, 0, 10920, 21845, false),
        (-21846, 0, 10921, 21845, false),
        (-21846, 0, 10922, 21845, false),
        (-21846, 0, 10923, 21845, false),
        (-21846, 0, 10924, 21845, false),
        (-21846, 0, 10925, 21845, false),
        (-21846, 0, 10926, -21846, false),
        (-21846, 0, 10927, 21845, false),
        (21845, 1, 10926, -21846, true),
        (21845, 1, 10926, 21845, false),
        (-21846, 1, 10927, 21845, true),
        (-21846, 1, 10927, -21846, false),
        (-21846, 0, 10920, 21845, true),
        (-21846, 0, 10920, 21845, false),
        (-21846, 0, 10921, 21845, false),
        (-21846, 0, 10922, 21845, false),
        (-21846, 0, 10923, 21845, false),
        (-21846, 0, 10924, 21845, false),
        (-21846, 0, 10925, 21845, false),
        (-21846, 0, 10926, 21845, false),
        (-21846, 0, 10927, -21846, false),
        (21845, 1, 10927, -21846, true),
        (21845, 1, 10927, 21845, false),
        (21845, 0, 10920, 21845, true),
        (21845, 0, 10920, 21845, false),
        (21845, 0, 10921, 21845, false),
        (21845, 0, 10922, 21845, false),
        (21845, 0, 10923, 21845, false),
        (21845, 0, 10924, 21845, false),
        (21845, 0, 10925, 21845, false),
        (21845, 0, 10926, 21845, false),
        (21845, 0, 10927, 21845, false),
        (21845, 0, 1365, 0, true),
        (21845, 0, 1365, 0, false),
        (21845, 0, 3413, 0, false),
        (21845, 0, 5461, 0, false),
        (21845, 0, 7509, 0, false),
        (21845, 0, 9557, 0, false),
        (21845, 0, 11605, 0, false),
        (21845, 0, 13653, 0, false),
        (21845, 0, 15701, 0, false),
        (21845, 1, 1365, 0, true),
        (21845, 1, 1365, 21845, false),
        (21845, 1, 3413, 0, true),
        (21845, 1, 3413, 21845, false),
        (21845, 1, 5461, 0, true),
        (21845, 1, 5461, 21845, false),
        (21845, 1, 7509, 0, true),
        (21845, 1, 7509, 21845, false),
        (21845, 1, 9557, 0, true),
        (21845, 1, 9557, 21845, false),
        (21845, 1, 11605, 0, true),
        (21845, 1, 11605, 21845, false),
        (21845, 1, 13653, 0, true),
        (21845, 1, 13653, 21845, false),
        (21845, 1, 15701, 0, true),
        (21845, 1, 15701, 21845, false),
        (21845, 0, 1365, 21845, true),
        (21845, 0, 1365, 21845, false),
        (21845, 0, 3413, 21845, false),
        (21845, 0, 5461, 21845, false),
        (21845, 0, 7509, 21845, false),
        (21845, 0, 9557, 21845, false),
        (21845, 0, 11605, 21845, false),
        (21845, 0, 13653, 21845, false),
        (21845, 0, 15701, 21845, false),
        (-21846, 1, 1365, 21845, true),
        (-21846, 1, 1365, -21846, false),
        (-21846, 0, 1365, -21846, true),
        (-21846, 0, 1365, -21846, false),
        (-21846, 0, 3413, 21845, false),
        (-21846, 0, 5461, 21845, false),
        (-21846, 0, 7509, 21845, false),
        (-21846, 0, 9557, 21845, false),
        (-21846, 0, 11605, 21845, false),
        (-21846, 0, 13653, 21845, false),
        (-21846, 0, 15701, 21845, false),
        (21845, 1, 1365, -21846, true),
        (21845, 1, 1365, 21845, false),
        (-21846, 1, 3413, 21845, true),
        (-21846, 1, 3413, -21846, false),
        (-21846, 0, 1365, 21845, true),
        (-21846, 0, 1365, 21845, false),
        (-21846, 0, 3413, -21846, false),
        (-21846, 0, 5461, 21845, false),
        (-21846, 0, 7509, 21845, false),
        (-21846, 0, 9557, 21845, false),
        (-21846, 0, 11605, 21845, false),
        (-21846, 0, 13653, 21845, false),
        (-21846, 0, 15701, 21845, false),
        (21845, 1, 3413, -21846, true),
        (21845, 1, 3413, 21845, false),
        (-21846, 1, 5461, 21845, true),
        (-21846, 1, 5461, -21846, false),
        (-21846, 0, 1365, 21845, true),
        (-21846, 0, 1365, 21845, false),
        (-21846, 0, 3413, 21845, false),
        (-21846, 0, 5461, -21846, false),
        (-21846, 0, 7509, 21845, false),
        (-21846, 0, 9557, 21845, false),
        (-21846, 0, 11605, 21845, false),
        (-21846, 0, 13653, 21845, false),
        (-21846, 0, 15701, 21845, false),
        (21845, 1, 5461, -21846, true),
        (21845, 1, 5461, 21845, false),
        (-21846, 1, 7509, 21845, true),
        (-21846, 1, 7509, -21846, false),
        (-21846, 0, 1365, 21845, true),
        (-21846, 0, 1365, 21845, false),
        (-21846, 0, 3413, 21845, false),
        (-21846, 0, 5461, 21845, false),
        (-21846, 0, 7509, -21846, false),
        (-21846, 0, 9557, 21845, false),
        (-21846, 0, 11605, 21845, false),
        (-21846, 0, 13653, 21845, false),
        (-21846, 0, 15701, 21845, false),
        (21845, 1, 7509, -21846, true),
        (21845, 1, 7509, 21845, false),
        (-21846, 1, 9557, 21845, true),
        (-21846, 1, 9557, -21846, false),
        (-21846, 0, 1365, 21845, true),
        (-21846, 0, 1365, 21845, false),
        (-21846, 0, 3413, 21845, false),
        (-21846, 0, 5461, 21845, false),
        (-21846, 0, 7509, 21845, false),
        (-21846, 0, 9557, -21846, false),
        (-21846, 0, 11605, 21845, false),
        (-21846, 0, 13653, 21845, false),
        (-21846, 0, 15701, 21845, false),
        (21845, 1, 9557, -21846, true),
        (21845, 1, 9557, 21845, false),
        (-21846, 1, 11605, 21845, true),
        (-21846, 1, 11605, -21846, false),
        (-21846, 0, 1365, 21845, true),
        (-21846, 0, 1365, 21845, false),
        (-21846, 0, 3413, 21845, false),
        (-21846, 0, 5461, 21845, false),
        (-21846, 0, 7509, 21845, false),
        (-21846, 0, 9557, 21845, false),
        (-21846, 0, 11605, -21846, false),
        (-21846, 0, 13653, 21845, false),
        (-21846, 0, 15701, 21845, false),
        (21845, 1, 11605, -21846, true),
        (21845, 1, 11605, 21845, false),
        (-21846, 1, 13653, 21845, true),
        (-21846, 1, 13653, -21846, false),
        (-21846, 0, 1365, 21845, true),
        (-21846, 0, 1365, 21845, false),
        (-21846, 0, 3413, 21845, false),
        (-21846, 0, 5461, 21845, false),
        (-21846, 0, 7509, 21845, false),
        (-21846, 0, 9557, 21845, false),
        (-21846, 0, 11605, 21845, false),
        (-21846, 0, 13653, -21846, false),
        (-21846, 0, 15701, 21845, false),
        (21845, 1, 13653, -21846, true),
        (21845, 1, 13653, 21845, false),
        (-21846, 1, 15701, 21845, true),
        (-21846, 1, 15701, -21846, false),
        (-21846, 0, 1365, 21845, true),
        (-21846, 0, 1365, 21845, false),
        (-21846, 0, 3413, 21845, false),
        (-21846, 0, 5461, 21845, false),
        (-21846, 0, 7509, 21845, false),
        (-21846, 0, 9557, 21845, false),
        (-21846, 0, 11605, 21845, false),
        (-21846, 0, 13653, 21845, false),
        (-21846, 0, 15701, -21846, false),
        (21845, 1, 15701, -21846, true),
        (21845, 1, 15701, 21845, false),
        (21845, 0, 1365, 21845, true),
        (21845, 0, 1365, 21845, false),
        (21845, 0, 3413, 21845, false),
        (21845, 0, 5461, 21845, false),
        (21845, 0, 7509, 21845, false),
        (21845, 0, 9557, 21845, false),
        (21845, 0, 11605, 21845, false),
        (21845, 0, 13653, 21845, false),
        (21845, 0, 15701, 21845, false),
    ];

    let input: SharedBus<16> = Bus::all0(&mut wires).to_shared_bus();
    let load: SharedBus<1> = Bus::all0(&mut wires).to_shared_bus();
    let address: SharedBus<14> = Bus::all0(&mut wires).to_shared_bus();
    let ram16k = RAM16KBuiltIn::new(input, load, address, &mut wires);

    for case in cases {
        println!(
            "{}, {}, {}, {}, {}",
            &case.0, &case.1, &case.2, &case.3, &case.4
        );
        let _input = i16_to_bus16(case.0, &mut wires);
        let _sel = i16_to_bus1(case.1, &mut wires);
        let _address = i16_to_bus14(case.2, &mut wires);

        let out = i16_to_bus16(case.3, &mut wires).to_shared_bus();

        input.overwrite(&_input, &mut wires);
        load.overwrite(&_sel, &mut wires);
        address.overwrite(&_address, &mut wires);

        // tick
        if case.4 {
            ram16k.re_compute(&mut wires);
            ram16k.clock_up(&mut wires);
            assert!(ram16k.out.same_value(&out, &wires));
        } else {
            // tock
            ram16k.clock_down(&mut wires);
            ram16k.re_compute(&mut wires);
            assert!(ram16k.out.same_value(&out, &wires));
        }
    }
}

fn i16_to_bus1(x: i16, wires: &mut Wires) -> Bus<1> {
    let s = format!("{:01b}", x);
    Bus::<1>::from_str(&s, wires).unwrap()
}
fn i16_to_bus3(x: i16, wires: &mut Wires) -> Bus<3> {
    let s = format!("{:03b}", x);
    Bus::<3>::from_str(&s, wires).unwrap()
}
fn i16_to_bus6(x: i16, wires: &mut Wires) -> Bus<6> {
    let s = format!("{:06b}", x);
    Bus::<6>::from_str(&s, wires).unwrap()
}
fn i16_to_bus14(x: i16, wires: &mut Wires) -> Bus<14> {
    let s = format!("{:014b}", x);
    Bus::<14>::from_str(&s, wires).unwrap()
}
fn i16_to_bus16(x: i16, wires: &mut Wires) -> Bus<16> {
    let s = format!("{:016b}", x);
    Bus::<16>::from_str(&s, wires).unwrap()
}
