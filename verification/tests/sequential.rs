use hack::gates::bus16::{make_bus16, Bus16};
use hack::gates::bus3::make_bus3;
use hack::infrastructure::{Dff, MutSC, SequentialCircuit, Zero};
use hack::primitive::Bit;
use hack::sequential::ram16k::{MutRam16k, Ram16kInput};
use hack::sequential::ram4k::{MutRam4k, Ram4k, Ram4kInput};
use hack::sequential::ram512::{MutRam512, Ram512, Ram512Input};
use hack::sequential::ram64::{MutRam64, Ram64, Ram64Input};
use hack::sequential::ram8::{Ram8, Ram8Input};
use hack::sequential::register::{Register, Register16, Register16Input, RegisterInput};

fn bit_eq(a: Bit, b: Bit) -> bool {
    matches!(a, Bit::Positive) == matches!(b, Bit::Positive)
}

fn bus16_eq(a: &Bus16, b: &Bus16) -> bool {
    let mut ok = true;
    for i in 0..16 {
        ok = ok && bit_eq(a[i], b[i]);
    }
    ok
}

#[test]
fn dff_works() {
    let dff = Dff::new();
    let (o, dff) = dff.tick(&Bit::Positive);
    assert!(bit_eq(o, Bit::Negative));
    let (o, dff) = dff.tick(&Bit::Negative);
    assert!(bit_eq(o, Bit::Positive));
    let (o, dff) = dff.tick(&Bit::Negative);
    assert!(bit_eq(o, Bit::Negative));
    let (o, dff) = dff.tick(&Bit::Negative);
    assert!(bit_eq(o, Bit::Negative));
    let (o, dff) = dff.tick(&Bit::Positive);
    assert!(bit_eq(o, Bit::Negative));
    let (o, _) = dff.tick(&Bit::Positive);
    assert!(bit_eq(o, Bit::Positive));
}

#[test]
fn register_works() {
    let r = Register::new();
    let (p, n) = (Bit::Positive, Bit::Negative);
    let (o, r) = r.tick(&RegisterInput { input: p, load: n });
    assert!(bit_eq(o, n));
    let (o, r) = r.tick(&RegisterInput { input: p, load: n });
    assert!(bit_eq(o, n));
    let (o, r) = r.tick(&RegisterInput { input: p, load: n });
    assert!(bit_eq(o, n));
    let (o, r) = r.tick(&RegisterInput { input: p, load: p });
    assert!(bit_eq(o, n));
    let (o, r) = r.tick(&RegisterInput { input: n, load: n });
    assert!(bit_eq(o, p));
    let (o, r) = r.tick(&RegisterInput { input: n, load: p });
    assert!(bit_eq(o, p));
    let (o, _) = r.tick(&RegisterInput { input: p, load: p });
    assert!(bit_eq(o, n));
}

#[test]
fn register16_works() {
    let (p, n) = (Bit::Positive, Bit::Negative);
    let fxt1 = [p; 16];
    let fxt2 = [n; 16];
    let fxt3 = [p, p, n, n, p, p, p, p, n, n, n, n, p, n, p, n];
    let fxt4 = [n, p, p, n, p, p, n, n, p, n, p, n, p, p, n, n];
    let r = Register16::new();
    let (o, r) = r.tick(&Register16Input { input: fxt1, load: Bit::Positive });
    assert!(bus16_eq(&fxt2, &o));
    let (o, r) = r.tick(&Register16Input { input: fxt2, load: Bit::Negative });
    assert!(bus16_eq(&fxt1, &o));
    let (o, r) = r.tick(&Register16Input { input: fxt2, load: Bit::Positive });
    assert!(bus16_eq(&fxt1, &o));
    let (o, r) = r.tick(&Register16Input { input: fxt3, load: Bit::Positive });
    assert!(bus16_eq(&fxt2, &o));
    let (o, r) = r.tick(&Register16Input { input: fxt4, load: Bit::Positive });
    assert!(bus16_eq(&fxt3, &o));
    let (o, _) = r.tick(&Register16Input { input: fxt1, load: Bit::Positive });
    assert!(bus16_eq(&fxt4, &o));
}

#[test]
fn ram8_works() {
    let mut r = Ram8::new();
    for i in 0..8 {
        let (o, rr) = r.tick(&Ram8Input {
            input: make_bus16(i),
            address: make_bus3(i),
            load: Bit::Positive,
        });
        r = rr;
        assert!(bus16_eq(&o, &make_bus16(0)));
    }
    for i in 0..8 {
        let (o, rr) = r.tick(&Ram8Input {
            input: make_bus16(-1),
            address: make_bus3(i),
            load: Bit::Negative,
        });
        r = rr;
        assert!(bus16_eq(&o, &make_bus16(i)));
    }
    for i in 0..8 {
        let (o, rr) = r.tick(&Ram8Input {
            input: make_bus16(-1),
            address: make_bus3(i),
            load: Bit::Positive,
        });
        r = rr;
        assert!(bus16_eq(&o, &make_bus16(i)));
    }
}

#[test]
fn ram64_works() {
    let mut r = Ram64::new();
    for i in 0..8 {
        let b3 = make_bus3(i);
        let (o, rr) = r.tick(&Ram64Input {
            input: make_bus16(i),
            address: [b3[0], b3[1], b3[2], b3[0], b3[1], b3[2]],
            load: Bit::Positive,
        });
        r = rr;
        assert!(bus16_eq(&o, &make_bus16(0)));
    }
    for i in 0..8 {
        let b3 = make_bus3(i);
        let (o, rr) = r.tick(&Ram64Input {
            input: make_bus16(i),
            address: [b3[0], b3[1], b3[2], b3[0], b3[1], b3[2]],
            load: Bit::Negative,
        });
        r = rr;
        assert!(bus16_eq(&o, &make_bus16(i)));
    }
    for i in 0..8 {
        let b3 = make_bus3(i);
        let (o, rr) = r.tick(&Ram64Input {
            input: make_bus16(-1),
            address: [b3[0], b3[1], b3[2], b3[0], b3[1], b3[2]],
            load: Bit::Positive,
        });
        r = rr;
        assert!(bus16_eq(&o, &make_bus16(i)));
    }
}

#[test]
fn mut_ram64_works() {
    let mut r = MutRam64::new();
    for i in 0..8 {
        let b3 = make_bus3(i);
        let o = r.tick(&Ram64Input {
            input: make_bus16(i),
            address: [b3[0], b3[1], b3[2], b3[0], b3[1], b3[2]],
            load: Bit::Positive,
        });
        assert!(bus16_eq(&o, &make_bus16(0)));
    }
    for i in 0..8 {
        let b3 = make_bus3(i);
        let o = r.tick(&Ram64Input {
            input: make_bus16(i),
            address: [b3[0], b3[1], b3[2], b3[0], b3[1], b3[2]],
            load: Bit::Negative,
        });
        assert!(bus16_eq(&o, &make_bus16(i)));
    }
    for i in 0..8 {
        let b3 = make_bus3(i);
        let o = r.tick(&Ram64Input {
            input: make_bus16(-1),
            address: [b3[0], b3[1], b3[2], b3[0], b3[1], b3[2]],
            load: Bit::Positive,
        });
        assert!(bus16_eq(&o, &make_bus16(i)));
    }
}

#[test]
fn ram512_works() {
    let mut r = Ram512::new();
    for i in 0..8 {
        let b3 = make_bus3(i);
        let a = [b3[0], b3[1], b3[2], b3[0], b3[1], b3[2], b3[0], b3[1], b3[2]];
        let (o, rr) = r.tick(&Ram512Input { input: make_bus16(i), address: a, load: Bit::Positive });
        r = rr;
        assert!(bus16_eq(&o, &make_bus16(0)));
    }
    for i in 0..8 {
        let b3 = make_bus3(i);
        let a = [b3[0], b3[1], b3[2], b3[0], b3[1], b3[2], b3[0], b3[1], b3[2]];
        let (o, rr) = r.tick(&Ram512Input { input: make_bus16(i), address: a, load: Bit::Negative });
        r = rr;
        assert!(bus16_eq(&o, &make_bus16(i)));
    }
    for i in 0..8 {
        let b3 = make_bus3(i);
        let a = [b3[0], b3[1], b3[2], b3[0], b3[1], b3[2], b3[0], b3[1], b3[2]];
        let (o, rr) = r.tick(&Ram512Input { input: make_bus16(-1), address: a, load: Bit::Positive });
        r = rr;
        assert!(bus16_eq(&o, &make_bus16(i)));
    }
}

#[test]
fn mut_ram512_works() {
    let mut r = MutRam512::new();
    for i in 0..8 {
        let b3 = make_bus3(i);
        let a = [b3[0], b3[1], b3[2], b3[0], b3[1], b3[2], b3[0], b3[1], b3[2]];
        let o = r.tick(&Ram512Input { input: make_bus16(i), address: a, load: Bit::Positive });
        assert!(bus16_eq(&o, &make_bus16(0)));
    }
    for i in 0..8 {
        let b3 = make_bus3(i);
        let a = [b3[0], b3[1], b3[2], b3[0], b3[1], b3[2], b3[0], b3[1], b3[2]];
        let o = r.tick(&Ram512Input { input: make_bus16(i), address: a, load: Bit::Negative });
        assert!(bus16_eq(&o, &make_bus16(i)));
    }
    for i in 0..8 {
        let b3 = make_bus3(i);
        let a = [b3[0], b3[1], b3[2], b3[0], b3[1], b3[2], b3[0], b3[1], b3[2]];
        let o = r.tick(&Ram512Input { input: make_bus16(-1), address: a, load: Bit::Positive });
        assert!(bus16_eq(&o, &make_bus16(i)));
    }
}

#[test]
fn ram4k_works() {
    let mut r = Ram4k::new();
    for i in 0..8 {
        let b3 = make_bus3(i);
        let a = [
            b3[0], b3[1], b3[2], b3[0], b3[1], b3[2], b3[0], b3[1], b3[2], b3[0], b3[1], b3[2],
        ];
        let (o, rr) = r.tick(&Ram4kInput { input: make_bus16(i), address: a, load: Bit::Positive });
        r = rr;
        assert!(bus16_eq(&o, &make_bus16(0)));
    }
    for i in 0..8 {
        let b3 = make_bus3(i);
        let a = [
            b3[0], b3[1], b3[2], b3[0], b3[1], b3[2], b3[0], b3[1], b3[2], b3[0], b3[1], b3[2],
        ];
        let (o, rr) = r.tick(&Ram4kInput { input: make_bus16(i), address: a, load: Bit::Negative });
        r = rr;
        assert!(bus16_eq(&o, &make_bus16(i)));
    }
    for i in 0..8 {
        let b3 = make_bus3(i);
        let a = [
            b3[0], b3[1], b3[2], b3[0], b3[1], b3[2], b3[0], b3[1], b3[2], b3[0], b3[1], b3[2],
        ];
        let (o, rr) = r.tick(&Ram4kInput { input: make_bus16(-1), address: a, load: Bit::Positive });
        r = rr;
        assert!(bus16_eq(&o, &make_bus16(i)));
    }
}

#[test]
fn mut_ram4k_works() {
    let mut r = MutRam4k::new();
    for i in 0..8 {
        let b3 = make_bus3(i);
        let a = [
            b3[0], b3[1], b3[2], b3[0], b3[1], b3[2], b3[0], b3[1], b3[2], b3[0], b3[1], b3[2],
        ];
        let o = r.tick(&Ram4kInput { input: make_bus16(i), address: a, load: Bit::Positive });
        assert!(bus16_eq(&o, &make_bus16(0)));
    }
    for i in 0..8 {
        let b3 = make_bus3(i);
        let a = [
            b3[0], b3[1], b3[2], b3[0], b3[1], b3[2], b3[0], b3[1], b3[2], b3[0], b3[1], b3[2],
        ];
        let o = r.tick(&Ram4kInput { input: make_bus16(i), address: a, load: Bit::Negative });
        assert!(bus16_eq(&o, &make_bus16(i)));
    }
    for i in 0..8 {
        let b3 = make_bus3(i);
        let a = [
            b3[0], b3[1], b3[2], b3[0], b3[1], b3[2], b3[0], b3[1], b3[2], b3[0], b3[1], b3[2],
        ];
        let o = r.tick(&Ram4kInput { input: make_bus16(-1), address: a, load: Bit::Positive });
        assert!(bus16_eq(&o, &make_bus16(i)));
    }
}

#[test]
fn mut_ram16k_works() {
    let mut r = MutRam16k::new();
    for i in 0..8 {
        let b3 = make_bus3(i);
        let a = [
            b3[0], b3[1], b3[2], b3[0], b3[1], b3[2], b3[0], b3[1], b3[2], b3[0], b3[1], b3[2],
            b3[0], b3[1],
        ];
        let o = r.tick(&Ram16kInput { input: make_bus16(i), address: a, load: Bit::Positive });
        assert!(bus16_eq(&o, &make_bus16(0)));
    }
    for i in 0..8 {
        let b3 = make_bus3(i);
        let a = [
            b3[0], b3[1], b3[2], b3[0], b3[1], b3[2], b3[0], b3[1], b3[2], b3[0], b3[1], b3[2],
            b3[0], b3[1],
        ];
        let o = r.tick(&Ram16kInput { input: make_bus16(i), address: a, load: Bit::Negative });
        assert!(bus16_eq(&o, &make_bus16(i)));
    }
    for i in 0..8 {
        let b3 = make_bus3(i);
        let a = [
            b3[0], b3[1], b3[2], b3[0], b3[1], b3[2], b3[0], b3[1], b3[2], b3[0], b3[1], b3[2],
            b3[0], b3[1],
        ];
        let o = r.tick(&Ram16kInput { input: make_bus16(-1), address: a, load: Bit::Positive });
        assert!(bus16_eq(&o, &make_bus16(i)));
    }
}
