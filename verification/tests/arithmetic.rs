use hack_computer::arithmetic::{Add16, FullAdder, HalfAdder, Inc16, ALU};
use hack_computer::gate::{Bus, Gate, SharedBus};
use hack_computer::wires::Wires;

fn bus<const N: usize>(s: &str, wires: &mut Wires) -> SharedBus<N> {
    Bus::<N>::from_str(s, wires).unwrap().to_shared_bus()
}


#[test]
fn half_adder_re_compute() {
    let mut wires = Wires::new();
    let cases = vec![
        // a, b, sum, carry
        ["0", "0", "0", "0"],
        ["0", "1", "1", "0"],
        ["1", "0", "1", "0"],
        ["1", "1", "0", "1"],
    ];
    for case in cases {
        let a = bus::<1>(case[0], &mut wires);
        let b = bus::<1>(case[1], &mut wires);
        let sum = bus::<1>(case[2], &mut wires);
        let carry = bus::<1>(case[3], &mut wires);

        let half_adder = HalfAdder::new(a, b, &mut wires);

        half_adder.re_compute(&mut wires);
        assert!(half_adder.carry.same_value(&carry, &wires));
        assert!(half_adder.sum.same_value(&sum, &wires));
    }
}

#[test]
fn full_adder_re_compute() {
    let mut wires = Wires::new();
    let cases = vec![
        // a, b, c, sum carry
        ["0", "0", "0", "0", "0"],
        ["0", "0", "1", "1", "0"],
        ["0", "1", "0", "1", "0"],
        ["0", "1", "1", "0", "1"],
        ["1", "0", "0", "1", "0"],
        ["1", "0", "1", "0", "1"],
        ["1", "1", "0", "0", "1"],
        ["1", "1", "1", "1", "1"],
    ];
    for case in cases {
        let a = bus::<1>(case[0], &mut wires);
        let b = bus::<1>(case[1], &mut wires);
        let c = bus::<1>(case[2], &mut wires);
        let sum = bus::<1>(case[3], &mut wires);
        let carry = bus::<1>(case[4], &mut wires);

        let full_adder = FullAdder::new(a, b, c, &mut wires);

        full_adder.re_compute(&mut wires);
        assert!(full_adder.sum.same_value(&sum, &wires));
        assert!(full_adder.carry.same_value(&carry, &wires));
    }
}

#[test]
fn add16_re_compute() {
    let mut wires = Wires::new();
    let cases = vec![
        // a, b, out
        ["0000000000000000", "0000000000000000", "0000000000000000"],
        ["0000000000000000", "1111111111111111", "1111111111111111"],
        ["1111111111111111", "1111111111111111", "1111111111111110"],
        ["1010101010101010", "0101010101010101", "1111111111111111"],
        ["0011110011000011", "0000111111110000", "0100110010110011"],
        ["0001001000110100", "1001100001110110", "1010101010101010"],
    ];
    for case in cases {
        let a = bus::<16>(case[0], &mut wires);
        let b = bus::<16>(case[1], &mut wires);
        let out = bus::<16>(case[2], &mut wires);

        let add16 = Add16::new(a, b, &mut wires);
        add16.re_compute(&mut wires);
        assert!(add16.out.same_value(&out, &wires));
    }
}

#[test]
fn inc16_re_compute() {
    let mut wires = Wires::new();
    let cases = vec![
        // input, out
        ["0000000000000000", "0000000000000001"],
        ["1111111111111111", "0000000000000000"],
        ["0000000000000101", "0000000000000110"],
        ["1111111111111011", "1111111111111100"],
    ];
    for case in cases {
        let input = bus::<16>(case[0], &mut wires);
        let out = bus::<16>(case[1], &mut wires);

        let inc16 = Inc16::new(input, &mut wires);
        inc16.re_compute(&mut wires);
        assert!(inc16.out.same_value(&out, &wires));
    }
}

#[test]
fn alu_re_compute() {
    let mut wires = Wires::new();
    let cases = vec![
        // x, y, zx, nx, zy, ny, f, no, out, zr, ng
        [
            "0000000000000000",
            "1111111111111111",
            "1",
            "0",
            "1",
            "0",
            "1",
            "0",
            "0000000000000000",
            "1",
            "0",
        ],
        [
            "0000000000000000",
            "1111111111111111",
            "1",
            "1",
            "1",
            "1",
            "1",
            "1",
            "0000000000000001",
            "0",
            "0",
        ],
        [
            "0000000000000000",
            "1111111111111111",
            "1",
            "1",
            "1",
            "0",
            "1",
            "0",
            "1111111111111111",
            "0",
            "1",
        ],
        [
            "0000000000000000",
            "1111111111111111",
            "0",
            "0",
            "1",
            "1",
            "0",
            "0",
            "0000000000000000",
            "1",
            "0",
        ],
        [
            "0000000000000000",
            "1111111111111111",
            "1",
            "1",
            "0",
            "0",
            "0",
            "0",
            "1111111111111111",
            "0",
            "1",
        ],
        [
            "0000000000000000",
            "1111111111111111",
            "0",
            "0",
            "1",
            "1",
            "0",
            "1",
            "1111111111111111",
            "0",
            "1",
        ],
        [
            "0000000000000000",
            "1111111111111111",
            "1",
            "1",
            "0",
            "0",
            "0",
            "1",
            "0000000000000000",
            "1",
            "0",
        ],
        [
            "0000000000000000",
            "1111111111111111",
            "0",
            "0",
            "1",
            "1",
            "1",
            "1",
            "0000000000000000",
            "1",
            "0",
        ],
        [
            "0000000000000000",
            "1111111111111111",
            "1",
            "1",
            "0",
            "0",
            "1",
            "1",
            "0000000000000001",
            "0",
            "0",
        ],
        [
            "0000000000000000",
            "1111111111111111",
            "0",
            "1",
            "1",
            "1",
            "1",
            "1",
            "0000000000000001",
            "0",
            "0",
        ],
        [
            "0000000000000000",
            "1111111111111111",
            "1",
            "1",
            "0",
            "1",
            "1",
            "1",
            "0000000000000000",
            "1",
            "0",
        ],
        [
            "0000000000000000",
            "1111111111111111",
            "0",
            "0",
            "1",
            "1",
            "1",
            "0",
            "1111111111111111",
            "0",
            "1",
        ],
        [
            "0000000000000000",
            "1111111111111111",
            "1",
            "1",
            "0",
            "0",
            "1",
            "0",
            "1111111111111110",
            "0",
            "1",
        ],
        [
            "0000000000000000",
            "1111111111111111",
            "0",
            "0",
            "0",
            "0",
            "1",
            "0",
            "1111111111111111",
            "0",
            "1",
        ],
        [
            "0000000000000000",
            "1111111111111111",
            "0",
            "1",
            "0",
            "0",
            "1",
            "1",
            "0000000000000001",
            "0",
            "0",
        ],
        [
            "0000000000000000",
            "1111111111111111",
            "0",
            "0",
            "0",
            "1",
            "1",
            "1",
            "1111111111111111",
            "0",
            "1",
        ],
        [
            "0000000000000000",
            "1111111111111111",
            "0",
            "0",
            "0",
            "0",
            "0",
            "0",
            "0000000000000000",
            "1",
            "0",
        ],
        [
            "0000000000000000",
            "1111111111111111",
            "0",
            "1",
            "0",
            "1",
            "0",
            "1",
            "1111111111111111",
            "0",
            "1",
        ],
        [
            "0000000000010001",
            "0000000000000011",
            "1",
            "0",
            "1",
            "0",
            "1",
            "0",
            "0000000000000000",
            "1",
            "0",
        ],
        [
            "0000000000010001",
            "0000000000000011",
            "1",
            "1",
            "1",
            "1",
            "1",
            "1",
            "0000000000000001",
            "0",
            "0",
        ],
        [
            "0000000000010001",
            "0000000000000011",
            "1",
            "1",
            "1",
            "0",
            "1",
            "0",
            "1111111111111111",
            "0",
            "1",
        ],
        [
            "0000000000010001",
            "0000000000000011",
            "0",
            "0",
            "1",
            "1",
            "0",
            "0",
            "0000000000010001",
            "0",
            "0",
        ],
        [
            "0000000000010001",
            "0000000000000011",
            "1",
            "1",
            "0",
            "0",
            "0",
            "0",
            "0000000000000011",
            "0",
            "0",
        ],
        [
            "0000000000010001",
            "0000000000000011",
            "0",
            "0",
            "1",
            "1",
            "0",
            "1",
            "1111111111101110",
            "0",
            "1",
        ],
        [
            "0000000000010001",
            "0000000000000011",
            "1",
            "1",
            "0",
            "0",
            "0",
            "1",
            "1111111111111100",
            "0",
            "1",
        ],
        [
            "0000000000010001",
            "0000000000000011",
            "0",
            "0",
            "1",
            "1",
            "1",
            "1",
            "1111111111101111",
            "0",
            "1",
        ],
        [
            "0000000000010001",
            "0000000000000011",
            "1",
            "1",
            "0",
            "0",
            "1",
            "1",
            "1111111111111101",
            "0",
            "1",
        ],
        [
            "0000000000010001",
            "0000000000000011",
            "0",
            "1",
            "1",
            "1",
            "1",
            "1",
            "0000000000010010",
            "0",
            "0",
        ],
        [
            "0000000000010001",
            "0000000000000011",
            "1",
            "1",
            "0",
            "1",
            "1",
            "1",
            "0000000000000100",
            "0",
            "0",
        ],
        [
            "0000000000010001",
            "0000000000000011",
            "0",
            "0",
            "1",
            "1",
            "1",
            "0",
            "0000000000010000",
            "0",
            "0",
        ],
        [
            "0000000000010001",
            "0000000000000011",
            "1",
            "1",
            "0",
            "0",
            "1",
            "0",
            "0000000000000010",
            "0",
            "0",
        ],
        [
            "0000000000010001",
            "0000000000000011",
            "0",
            "0",
            "0",
            "0",
            "1",
            "0",
            "0000000000010100",
            "0",
            "0",
        ],
        [
            "0000000000010001",
            "0000000000000011",
            "0",
            "1",
            "0",
            "0",
            "1",
            "1",
            "0000000000001110",
            "0",
            "0",
        ],
        [
            "0000000000010001",
            "0000000000000011",
            "0",
            "0",
            "0",
            "1",
            "1",
            "1",
            "1111111111110010",
            "0",
            "1",
        ],
        [
            "0000000000010001",
            "0000000000000011",
            "0",
            "0",
            "0",
            "0",
            "0",
            "0",
            "0000000000000001",
            "0",
            "0",
        ],
        [
            "0000000000010001",
            "0000000000000011",
            "0",
            "1",
            "0",
            "1",
            "0",
            "1",
            "0000000000010011",
            "0",
            "0",
        ],
    ];
    for case in cases {
        let x = bus::<16>(case[0], &mut wires);
        let y = bus::<16>(case[1], &mut wires);
        let zx = bus::<1>(case[2], &mut wires);
        let nx = bus::<1>(case[3], &mut wires);
        let zy = bus::<1>(case[4], &mut wires);
        let ny = bus::<1>(case[5], &mut wires);
        let f = bus::<1>(case[6], &mut wires);
        let no = bus::<1>(case[7], &mut wires);

        let out = bus::<16>(case[8], &mut wires);
        let zr = bus::<1>(case[9], &mut wires);
        let ng = bus::<1>(case[10], &mut wires);

        let alu = ALU::new(x, y, zx, nx, zy, ny, f, no, &mut wires);
        alu.re_compute(&mut wires);
        assert!(alu.out.same_value(&out, &wires));
        assert!(alu.zr.same_value(&zr, &wires));
        assert!(alu.ng.same_value(&ng, &wires));
    }
}
