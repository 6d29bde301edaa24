use hack::gates::adder::{add16, alu, inc16, AluControl};
use hack::gates::bit::{and, dmux, dmux4way, dmux8way, make_bit, mux, not, or, xor};
use hack::gates::bus16;
use hack::gates::bus16::{into_i32, make_bus16, mux4way16, mux8way16, or16way, Bus16};
use hack::gates::bus3::{make_bus3, Bus3};
use hack::gates::bus8::or8way;
use hack::primitive::{Bit, Pin};

fn bit_eq(a: Bit, b: Bit) -> bool {
    matches!(a, Bit::Positive) == matches!(b, Bit::Positive)
}

fn bus16_eq(a: &Bus16, b: &Bus16) -> bool {
    let mut ok = true;
    for i in 0..16 {
        ok = ok && bit_eq(a[i], b[i]);
    }
    ok
}

#[test]
fn nand_works() {
    assert!(bit_eq(Bit::Positive.nand(Bit::Positive), Bit::Negative));
    assert!(bit_eq(Bit::Positive.nand(Bit::Negative), Bit::Positive));
    assert!(bit_eq(Bit::Negative.nand(Bit::Positive), Bit::Positive));
    assert!(bit_eq(Bit::Negative.nand(Bit::Negative), Bit::Positive));
}

#[test]
fn bit_not_works() {
    assert!(matches!(not(Bit::Positive), Bit::Negative));
    assert!(matches!(not(Bit::Negative), Bit::Positive));
}

#[test]
fn bit_not_not_is_id() {
    for x in [Bit::Positive, Bit::Negative] {
        assert!(bit_eq(not(not(x)), x));
    }
}

#[test]
fn bit_and_works() {
    assert!(matches!(and(Bit::Positive, Bit::Positive), Bit::Positive));
    assert!(matches!(and(Bit::Positive, Bit::Negative), Bit::Negative));
    assert!(matches!(and(Bit::Negative, Bit::Positive), Bit::Negative));
    assert!(matches!(and(Bit::Negative, Bit::Negative), Bit::Negative));
}

#[test]
fn bit_or_works() {
    assert!(matches!(or(Bit::Positive, Bit::Positive), Bit::Positive));
    assert!(matches!(or(Bit::Positive, Bit::Negative), Bit::Positive));
    assert!(matches!(or(Bit::Negative, Bit::Positive), Bit::Positive));
    assert!(matches!(or(Bit::Negative, Bit::Negative), Bit::Negative));
}

#[test]
fn bit_xor_works() {
    assert!(matches!(xor(Bit::Positive, Bit::Positive), Bit::Negative));
    assert!(matches!(xor(Bit::Positive, Bit::Negative), Bit::Positive));
    assert!(matches!(xor(Bit::Negative, Bit::Positive), Bit::Positive));
    assert!(matches!(xor(Bit::Negative, Bit::Negative), Bit::Negative));
}

#[test]
fn bit_mux_work() {
    for b in [Bit::Positive, Bit::Negative] {
        assert!(matches!(mux(Bit::Positive, b, Bit::Negative), Bit::Positive));
        assert!(matches!(mux(Bit::Negative, b, Bit::Negative), Bit::Negative));
    }
    for a in [Bit::Positive, Bit::Negative] {
        assert!(matches!(mux(a, Bit::Positive, Bit::Positive), Bit::Positive));
        assert!(matches!(mux(a, Bit::Negative, Bit::Positive), Bit::Negative));
    }
}

#[test]
fn bit_dmux_work() {
    let r = dmux(Bit::Positive, Bit::Positive);
    assert!(matches!(r[0], Bit::Negative) && matches!(r[1], Bit::Positive));
    let r = dmux(Bit::Negative, Bit::Positive);
    assert!(matches!(r[0], Bit::Negative) && matches!(r[1], Bit::Negative));
    let r = dmux(Bit::Positive, Bit::Negative);
    assert!(matches!(r[0], Bit::Positive) && matches!(r[1], Bit::Negative));
    let r = dmux(Bit::Negative, Bit::Negative);
    assert!(matches!(r[0], Bit::Negative) && matches!(r[1], Bit::Negative));
}

#[test]
fn bit_dmux_mux_is_id() {
    for x in [Bit::Positive, Bit::Negative] {
        for sel in [Bit::Positive, Bit::Negative] {
            let r = dmux(x, sel);
            assert!(bit_eq(mux(r[0], r[1], sel), x));
        }
    }
}

fn make_bus2(i: usize) -> [Bit; 2] {
    [make_bit((i >> 1) % 2 == 1), make_bit(i % 2 == 1)]
}

#[test]
fn dmux4way_works() {
    for x in [Bit::Negative, Bit::Positive] {
        for i in 0..4 {
            let sel = make_bus2(i);
            let y = dmux4way(x, &sel);
            for j in 0..4 {
                if i == j {
                    assert!(bit_eq(y[j], x));
                } else {
                    assert!(bit_eq(y[j], Bit::Negative));
                }
            }
        }
    }
}

#[test]
fn dmux8way_works() {
    for x in [Bit::Negative, Bit::Positive] {
        for i in 0..8 {
            let sel = make_bus3(i as i32);
            let y = dmux8way(x, &sel);
            for j in 0..8 {
                if i == j {
                    assert!(bit_eq(y[j], x));
                } else {
                    assert!(bit_eq(y[j], Bit::Negative));
                }
            }
        }
    }
}

#[test]
fn mod_not_works() {
    assert!(matches!(hack::gates::not(Pin::Positive), Pin::Negative));
    assert!(matches!(hack::gates::not(Pin::Negative), Pin::Positive));
}

#[test]
fn mod_not_not_is_id() {
    for x in [Pin::Positive, Pin::Negative] {
        let r = hack::gates::not(hack::gates::not(x));
        assert!(matches!(r, Pin::Positive) == matches!(x, Pin::Positive));
    }
}

#[test]
fn mod_and_works() {
    assert!(matches!(hack::gates::and(Pin::Positive, Pin::Positive), Pin::Positive));
    assert!(matches!(hack::gates::and(Pin::Positive, Pin::Negative), Pin::Negative));
    assert!(matches!(hack::gates::and(Pin::Negative, Pin::Positive), Pin::Negative));
    assert!(matches!(hack::gates::and(Pin::Negative, Pin::Negative), Pin::Negative));
}

#[test]
fn mod_or_works() {
    assert!(matches!(hack::gates::or(Pin::Positive, Pin::Positive), Pin::Positive));
    assert!(matches!(hack::gates::or(Pin::Positive, Pin::Negative), Pin::Positive));
    assert!(matches!(hack::gates::or(Pin::Negative, Pin::Positive), Pin::Positive));
    assert!(matches!(hack::gates::or(Pin::Negative, Pin::Negative), Pin::Negative));
}

#[test]
fn mod_xor_works() {
    assert!(matches!(hack::gates::xor(Pin::Positive, Pin::Positive), Pin::Negative));
    assert!(matches!(hack::gates::xor(Pin::Positive, Pin::Negative), Pin::Positive));
    assert!(matches!(hack::gates::xor(Pin::Negative, Pin::Positive), Pin::Positive));
    assert!(matches!(hack::gates::xor(Pin::Negative, Pin::Negative), Pin::Negative));
}

#[test]
fn mod_mux_work() {
    for b in [Pin::Positive, Pin::Negative] {
        assert!(matches!(hack::gates::mux(Pin::Positive, b, Pin::Negative), Pin::Positive));
        assert!(matches!(hack::gates::mux(Pin::Negative, b, Pin::Negative), Pin::Negative));
    }
    for a in [Pin::Positive, Pin::Negative] {
        assert!(matches!(hack::gates::mux(a, Pin::Positive, Pin::Positive), Pin::Positive));
        assert!(matches!(hack::gates::mux(a, Pin::Negative, Pin::Positive), Pin::Negative));
    }
}

#[test]
fn mod_dmux_work() {
    let r = hack::gates::dmux(Pin::Positive, Pin::Positive);
    assert!(matches!(r.0, Pin::Negative) && matches!(r.1, Pin::Positive));
    let r = hack::gates::dmux(Pin::Negative, Pin::Positive);
    assert!(matches!(r.0, Pin::Negative) && matches!(r.1, Pin::Negative));
    let r = hack::gates::dmux(Pin::Positive, Pin::Negative);
    assert!(matches!(r.0, Pin::Positive) && matches!(r.1, Pin::Negative));
    let r = hack::gates::dmux(Pin::Negative, Pin::Negative);
    assert!(matches!(r.0, Pin::Negative) && matches!(r.1, Pin::Negative));
}

#[test]
fn mod_dmux_mux_is_id() {
    for x in [Pin::Positive, Pin::Negative] {
        for sel in [Pin::Positive, Pin::Negative] {
            let (a, b) = hack::gates::dmux(x, sel);
            let r = hack::gates::mux(a, b, sel);
            assert!(matches!(r, Pin::Positive) == matches!(x, Pin::Positive));
        }
    }
}

#[test]
fn assert_bus8_equals_works() {
    let p = [Bit::Positive; 8];
    let n = [Bit::Negative; 8];
    for i in 0..8 {
        assert!(bit_eq(p[i], Bit::Positive));
        assert!(bit_eq(n[i], Bit::Negative));
    }
}

#[test]
fn or8way_works() {
    assert!(matches!(or8way([Bit::Positive; 8]), Bit::Positive));
    assert!(matches!(or8way([Bit::Negative; 8]), Bit::Negative));
    let mut x = [Bit::Negative; 8];
    x[0] = Bit::Positive;
    assert!(matches!(or8way(x), Bit::Positive));
    let mut x = [Bit::Negative; 8];
    x[1] = Bit::Positive;
    assert!(matches!(or8way(x), Bit::Positive));
    let mut x = [Bit::Negative; 8];
    x[5] = Bit::Positive;
    assert!(matches!(or8way(x), Bit::Positive));
}

#[test]
fn make_bus3_works() {
    let a = make_bus3(3);
    assert!(bit_eq(a[0], Bit::Negative) && bit_eq(a[1], Bit::Positive) && bit_eq(a[2], Bit::Positive));
    let a = make_bus3(5);
    assert!(bit_eq(a[0], Bit::Positive) && bit_eq(a[1], Bit::Negative) && bit_eq(a[2], Bit::Positive));
    let a = make_bus3(6);
    assert!(bit_eq(a[0], Bit::Positive) && bit_eq(a[1], Bit::Positive) && bit_eq(a[2], Bit::Negative));
}

const FXT: Bus16 = [
    Bit::Negative,
    Bit::Positive,
    Bit::Negative,
    Bit::Negative,
    Bit::Positive,
    Bit::Positive,
    Bit::Negative,
    Bit::Negative,
    Bit::Negative,
    Bit::Positive,
    Bit::Positive,
    Bit::Positive,
    Bit::Negative,
    Bit::Negative,
    Bit::Positive,
    Bit::Positive,
];

#[test]
fn assert_bus16_equals_works() {
    assert!(bus16_eq(&[Bit::Positive; 16], &[Bit::Positive; 16]));
    assert!(bus16_eq(&[Bit::Negative; 16], &[Bit::Negative; 16]));
}

#[test]
fn bus16_not_works() {
    assert!(bus16_eq(&bus16::not(&[Bit::Positive; 16]), &[Bit::Negative; 16]));
    assert!(bus16_eq(&bus16::not(&[Bit::Negative; 16]), &[Bit::Positive; 16]));
    let expected = [
        Bit::Positive,
        Bit::Negative,
        Bit::Positive,
        Bit::Positive,
        Bit::Negative,
        Bit::Negative,
        Bit::Positive,
        Bit::Positive,
        Bit::Positive,
        Bit::Negative,
        Bit::Negative,
        Bit::Negative,
        Bit::Positive,
        Bit::Positive,
        Bit::Negative,
        Bit::Negative,
    ];
    assert!(bus16_eq(&bus16::not(&FXT), &expected));
}

#[test]
fn bus16_and_works() {
    assert!(bus16_eq(&bus16::and(&FXT, &[Bit::Positive; 16]), &FXT));
    assert!(bus16_eq(&bus16::and(&FXT, &[Bit::Negative; 16]), &[Bit::Negative; 16]));
}

#[test]
fn bus16_or_works() {
    assert!(bus16_eq(&bus16::or(&FXT, &[Bit::Positive; 16]), &[Bit::Positive; 16]));
    assert!(bus16_eq(&bus16::or(&FXT, &[Bit::Negative; 16]), &FXT));
}

#[test]
fn mux_works() {
    assert!(bus16_eq(&bus16::mux(&FXT, &[Bit::Positive; 16], Bit::Negative), &FXT));
    assert!(bus16_eq(&bus16::mux(&FXT, &[Bit::Positive; 16], Bit::Positive), &[Bit::Positive; 16]));
}

#[test]
fn dmux_works() {
    let r = bus16::dmux(&FXT, Bit::Negative);
    assert!(bus16_eq(&r[0], &FXT));
    assert!(bus16_eq(&r[1], &[Bit::Negative; 16]));
    let r = bus16::dmux(&FXT, Bit::Positive);
    assert!(bus16_eq(&r[0], &[Bit::Negative; 16]));
    assert!(bus16_eq(&r[1], &FXT));
}

#[test]
fn mux4way16_works() {
    let h = [
        Bit::Negative,
        Bit::Negative,
        Bit::Negative,
        Bit::Negative,
        Bit::Negative,
        Bit::Negative,
        Bit::Negative,
        Bit::Negative,
        Bit::Positive,
        Bit::Positive,
        Bit::Positive,
        Bit::Positive,
        Bit::Positive,
        Bit::Positive,
        Bit::Positive,
        Bit::Positive,
    ];
    let p = [Bit::Positive; 16];
    let n = [Bit::Negative; 16];
    assert!(bus16_eq(&mux4way16(&FXT, &h, &p, &n, &[Bit::Negative, Bit::Negative]), &FXT));
    assert!(bus16_eq(&mux4way16(&FXT, &h, &p, &n, &[Bit::Negative, Bit::Positive]), &h));
    assert!(bus16_eq(&mux4way16(&FXT, &h, &p, &n, &[Bit::Positive, Bit::Negative]), &p));
    assert!(bus16_eq(&mux4way16(&FXT, &h, &p, &n, &[Bit::Positive, Bit::Positive]), &n));
}

#[test]
fn mux8way16_works() {
    let h = [
        Bit::Negative,
        Bit::Negative,
        Bit::Negative,
        Bit::Negative,
        Bit::Negative,
        Bit::Negative,
        Bit::Negative,
        Bit::Negative,
        Bit::Positive,
        Bit::Positive,
        Bit::Positive,
        Bit::Positive,
        Bit::Positive,
        Bit::Positive,
        Bit::Positive,
        Bit::Positive,
    ];
    let p = [Bit::Positive; 16];
    let n = [Bit::Negative; 16];
    let r = mux8way16(&FXT, &h, &p, &n, &n, &n, &n, &n, &[Bit::Negative, Bit::Negative, Bit::Negative]);
    assert!(bus16_eq(&r, &FXT));
    let r = mux8way16(&FXT, &n, &p, &n, &n, &h, &n, &n, &[Bit::Positive, Bit::Negative, Bit::Positive]);
    assert!(bus16_eq(&r, &h));
    let r = mux8way16(&n, &h, &FXT, &n, &n, &n, &n, &n, &[Bit::Negative, Bit::Positive, Bit::Negative]);
    assert!(bus16_eq(&r, &FXT));
}

#[test]
fn dmux8way16_works() {
    let x = make_bus16(1010);
    for i in 0..8 {
        let sel: Bus3 = make_bus3(i as i32);
        let out = bus16::dmux8way16(&x, &sel);
        for j in 0..8 {
            if i == j {
                assert!(bus16_eq(&out[j], &x));
            } else {
                assert!(bus16_eq(&out[j], &make_bus16(0)));
            }
        }
    }
}

#[test]
fn or16way_works() {
    assert!(matches!(or16way(&[Bit::Negative; 16]), Bit::Negative));
    for i in 0..15 {
        let mut bits = [Bit::Negative; 16];
        bits[i] = Bit::Positive;
        assert!(matches!(or16way(&bits), Bit::Positive));
    }
}

#[test]
fn bus16_make_bus16_works() {
    let a = make_bus16(0);
    assert!(bus16_eq(&a, &[Bit::Negative; 16]));
}

#[test]
fn into_i32_works() {
    for i in 0..10 {
        assert_eq!(into_i32(&make_bus16(i)), i);
    }
}

#[test]
fn add16_works() {
    let fixtures = [0, 1, 2, 3, 100, 1000, 10000, -1, -10];
    for &x in &fixtures {
        for &y in &fixtures {
            let x16 = make_bus16(x);
            let y16 = make_bus16(y);
            let z16 = make_bus16(x + y);
            assert!(bus16_eq(&add16(&x16, &y16), &z16));
        }
    }
}

#[test]
fn inc16_works() {
    let fixtures = [0, 1, 2, 3, 100, 1000, 10000, -1, -10];
    for &x in &fixtures {
        for &y in &fixtures {
            let x16 = make_bus16(x);
            let y16 = make_bus16(1);
            let z16 = make_bus16(x + 1);
            assert!(bus16_eq(&add16(&x16, &y16), &z16));
            let _ = y;
        }
    }
    assert!(bus16_eq(&inc16(&make_bus16(41)), &make_bus16(42)));
}

#[test]
fn adder_make_bus16_works() {
    assert!(bus16_eq(&make_bus16(0), &[Bit::Negative; 16]));
    let mut one = [Bit::Negative; 16];
    one[15] = Bit::Positive;
    assert!(bus16_eq(&make_bus16(1), &one));
    assert!(bus16_eq(&make_bus16(-1), &[Bit::Positive; 16]));
    let hundred = [
        Bit::Negative,
        Bit::Negative,
        Bit::Negative,
        Bit::Negative,
        Bit::Negative,
        Bit::Negative,
        Bit::Negative,
        Bit::Negative,
        Bit::Negative,
        Bit::Positive,
        Bit::Positive,
        Bit::Negative,
        Bit::Negative,
        Bit::Positive,
        Bit::Negative,
        Bit::Negative,
    ];
    assert!(bus16_eq(&make_bus16(100), &hundred));
}

#[test]
fn alu_works() {
    let fixtures = [0, 1, 2, 10000, -1, -10];
    for &x in &fixtures {
        for &y in &fixtures {
            let x16 = make_bus16(x);
            let y16 = make_bus16(y);
            let cases: [([i32; 6], i32); 18] = [
                ([1, 0, 1, 0, 1, 0], 0),
                ([1, 1, 1, 1, 1, 1], 1),
                ([1, 1, 1, 0, 1, 0], -1),
                ([0, 0, 1, 1, 0, 0], x),
                ([1, 1, 0, 0, 0, 0], y),
                ([0, 0, 1, 1, 0, 1], !x),
                ([1, 1, 0, 0, 0, 1], !y),
                ([0, 0, 1, 1, 1, 1], -x),
                ([1, 1, 0, 0, 1, 1], -y),
                ([0, 1, 1, 1, 1, 1], x + 1),
                ([1, 1, 0, 1, 1, 1], y + 1),
                ([0, 0, 1, 1, 1, 0], x - 1),
                ([1, 1, 0, 0, 1, 0], y - 1),
                ([0, 0, 0, 0, 1, 0], x + y),
                ([0, 1, 0, 0, 1, 1], x - y),
                ([0, 0, 0, 1, 1, 1], y - x),
                ([0, 0, 0, 0, 0, 0], x & y),
                ([0, 1, 0, 1, 0, 1], x | y),
            ];
            for &([zx, nx, zy, ny, f, no], expected) in cases.iter() {
                let b = |i: i32| if i == 1 { Bit::Positive } else { Bit::Negative };
                let out = alu(
                    &x16,
                    &y16,
                    AluControl { zx: b(zx), nx: b(nx), zy: b(zy), ny: b(ny), f: b(f), no: b(no) },
                );
                assert!(bus16_eq(&out.out, &make_bus16(expected)));
            }
        }
    }
}
