use hack::computer::computer::MutComputer;
use hack::computer::cpu::{Cpu, CpuInput};
use hack::computer::instruction::{Comp, CompReg, Computation, Dest, Instruction, Jump};
use hack::gates::bus16::{into_i32, make_bus16, Bus16};
use hack::infrastructure::{MutSC, SequentialCircuit, Zero};
use hack::primitive::Bit;

fn zeros() -> Bus16 {
    [Bit::Negative; 16]
}

fn peek_pc_value(c: &Cpu) -> i32 {
    into_i32(&c.peek_pc())
}

#[test]
fn load_a_works() {
    let c = Cpu::new();
    for i in 0..10 {
        let (o, c2) = c.tick(&CpuInput {
            in_m: zeros(),
            instruction: Instruction::A(i).bus16(),
            reset: Bit::Negative,
        });
        assert_eq!(into_i32(&c2.peek_address()), i);
        assert!(matches!(o.write_m, Bit::Negative));
    }
}

#[test]
fn store_works() {
    let c = Cpu::new();
    let (_, c) = c.tick(&CpuInput {
        in_m: zeros(),
        instruction: Instruction::A(123).bus16(),
        reset: Bit::Negative,
    });
    let (o, _) = c.tick(&CpuInput {
        in_m: zeros(),
        instruction: Instruction::C(Computation {
            comp: (CompReg::A, Comp::A),
            dest: Dest::M,
            jump: Jump::NoJump,
        })
        .bus16(),
        reset: Bit::Negative,
    });
    assert_eq!(into_i32(&o.out_m), 123);
    assert!(matches!(o.write_m, Bit::Positive));
}

#[test]
fn a_plus_1_works() {
    let c = Cpu::new();
    let (_, c) = c.tick(&CpuInput {
        in_m: zeros(),
        instruction: Instruction::A(11).bus16(),
        reset: Bit::Negative,
    });
    let (o, c) = c.tick(&CpuInput {
        in_m: zeros(),
        instruction: Instruction::C(Computation {
            comp: (CompReg::A, Comp::APlus1),
            dest: Dest::A,
            jump: Jump::NoJump,
        })
        .bus16(),
        reset: Bit::Negative,
    });
    assert_eq!(into_i32(&o.out_m), 12);
    let (o, _) = c.tick(&CpuInput {
        in_m: zeros(),
        instruction: Instruction::C(Computation {
            comp: (CompReg::A, Comp::A),
            dest: Dest::NoDest,
            jump: Jump::NoJump,
        })
        .bus16(),
        reset: Bit::Negative,
    });
    assert_eq!(into_i32(&o.out_m), 12);
}

#[test]
fn d_minus_a_works() {
    let c = Cpu::new();
    let (_, c) = c.tick(&CpuInput {
        in_m: zeros(),
        instruction: Instruction::A(15).bus16(),
        reset: Bit::Negative,
    });
    let (_, c) = c.tick(&CpuInput {
        in_m: zeros(),
        instruction: Instruction::C(Computation {
            comp: (CompReg::A, Comp::A),
            dest: Dest::D,
            jump: Jump::NoJump,
        })
        .bus16(),
        reset: Bit::Negative,
    });
    let (_, c) = c.tick(&CpuInput {
        in_m: zeros(),
        instruction: Instruction::A(10).bus16(),
        reset: Bit::Negative,
    });
    let (o, c) = c.tick(&CpuInput {
        in_m: zeros(),
        instruction: Instruction::C(Computation {
            comp: (CompReg::A, Comp::DMinusA),
            dest: Dest::D,
            jump: Jump::NoJump,
        })
        .bus16(),
        reset: Bit::Negative,
    });
    assert_eq!(into_i32(&o.out_m), 5);
    let (o, _) = c.tick(&CpuInput {
        in_m: zeros(),
        instruction: Instruction::C(Computation {
            comp: (CompReg::A, Comp::D),
            dest: Dest::NoDest,
            jump: Jump::NoJump,
        })
        .bus16(),
        reset: Bit::Negative,
    });
    assert_eq!(into_i32(&o.out_m), 5);
}

#[test]
fn d_plus_m_works() {
    let c = Cpu::new();
    let (_, c) = c.tick(&CpuInput {
        in_m: zeros(),
        instruction: Instruction::A(7).bus16(),
        reset: Bit::Negative,
    });
    let (_, c) = c.tick(&CpuInput {
        in_m: zeros(),
        instruction: Instruction::C(Computation {
            comp: (CompReg::A, Comp::A),
            dest: Dest::D,
            jump: Jump::NoJump,
        })
        .bus16(),
        reset: Bit::Negative,
    });
    let (o, c) = c.tick(&CpuInput {
        in_m: make_bus16(13),
        instruction: Instruction::C(Computation {
            comp: (CompReg::M, Comp::DPlusA),
            dest: Dest::D,
            jump: Jump::NoJump,
        })
        .bus16(),
        reset: Bit::Negative,
    });
    assert_eq!(into_i32(&o.out_m), 20);
    let (o, _) = c.tick(&CpuInput {
        in_m: zeros(),
        instruction: Instruction::C(Computation {
            comp: (CompReg::A, Comp::D),
            dest: Dest::NoDest,
            jump: Jump::NoJump,
        })
        .bus16(),
        reset: Bit::Negative,
    });
    assert_eq!(into_i32(&o.out_m), 20);
}

#[test]
fn load_a() {
    let is = vec![Instruction::A(1000).bus16()];
    let mut c = MutComputer::of(&is);
    for _ in 0..is.len() {
        c.tick(&());
    }
    let a = c.cpu.peek_address();
    assert_eq!(into_i32(&a), 1000);
}

#[test]
fn load_d() {
    let is = vec![
        Instruction::A(999).bus16(),
        Instruction::C(Computation {
            comp: (CompReg::A, Comp::A),
            dest: Dest::D,
            jump: Jump::NoJump,
        })
        .bus16(),
    ];
    let mut c = MutComputer::of(&is);
    for _ in 0..is.len() {
        c.tick(&());
    }
    let d = c.cpu.peek_data();
    assert_eq!(into_i32(&d), 999);
}

#[test]
fn simple_store() {
    let is = vec![
        Instruction::A(100).bus16(),
        Instruction::C(Computation {
            comp: (CompReg::A, Comp::A),
            dest: Dest::D,
            jump: Jump::NoJump,
        })
        .bus16(),
        Instruction::A(0).bus16(),
        Instruction::C(Computation {
            comp: (CompReg::A, Comp::D),
            dest: Dest::M,
            jump: Jump::NoJump,
        })
        .bus16(),
    ];
    let mut c = MutComputer::of(&is);
    for _ in 0..is.len() {
        c.tick(&());
    }
    let ans = c.peek_ram(0);
    assert_eq!(ans, 100);
}

#[test]
fn a_to_memory_to_d() {
    let is = vec![
        Instruction::A(57).bus16(),
        Instruction::C(Computation {
            comp: (CompReg::A, Comp::A),
            dest: Dest::D,
            jump: Jump::NoJump,
        })
        .bus16(),
        Instruction::A(11).bus16(),
        Instruction::C(Computation {
            comp: (CompReg::A, Comp::D),
            dest: Dest::M,
            jump: Jump::NoJump,
        })
        .bus16(),
        Instruction::A(0).bus16(),
        Instruction::C(Computation {
            comp: (CompReg::A, Comp::A),
            dest: Dest::D,
            jump: Jump::NoJump,
        })
        .bus16(),
        Instruction::A(11).bus16(),
        Instruction::C(Computation {
            comp: (CompReg::M, Comp::A),
            dest: Dest::D,
            jump: Jump::NoJump,
        })
        .bus16(),
    ];
    let mut c = MutComputer::of(&is);
    for _ in 0..is.len() {
        c.tick(&());
    }
    assert_eq!(into_i32(&c.cpu.peek_data()), 57);
}

#[test]
fn simple_add() {
    let is = vec![
        Instruction::A(3).bus16(),
        Instruction::C(Computation {
            comp: (CompReg::A, Comp::A),
            dest: Dest::D,
            jump: Jump::NoJump,
        })
        .bus16(),
        Instruction::A(5).bus16(),
        Instruction::C(Computation {
            comp: (CompReg::A, Comp::DPlusA),
            dest: Dest::D,
            jump: Jump::NoJump,
        })
        .bus16(),
        Instruction::A(10).bus16(),
        Instruction::C(Computation {
            comp: (CompReg::A, Comp::D),
            dest: Dest::M,
            jump: Jump::NoJump,
        })
        .bus16(),
    ];
    let mut c = MutComputer::of(&is);
    for _ in 0..is.len() {
        c.tick(&());
    }
    let ans = c.peek_ram(10);
    assert_eq!(ans, 8);
}

#[test]
fn d_plus_m() {
    let is = vec![
        Instruction::A(5).bus16(),
        Instruction::C(Computation {
            comp: (CompReg::A, Comp::A),
            dest: Dest::D,
            jump: Jump::NoJump,
        })
        .bus16(),
        Instruction::A(0).bus16(),
        Instruction::C(Computation {
            comp: (CompReg::A, Comp::D),
            dest: Dest::M,
            jump: Jump::NoJump,
        })
        .bus16(),
        Instruction::A(9).bus16(),
        Instruction::C(Computation {
            comp: (CompReg::A, Comp::A),
            dest: Dest::D,
            jump: Jump::NoJump,
        })
        .bus16(),
        Instruction::A(0).bus16(),
        Instruction::C(Computation {
            comp: (CompReg::M, Comp::DPlusA),
            dest: Dest::M,
            jump: Jump::NoJump,
        })
        .bus16(),
    ];
    let mut c = MutComputer::of(&is);
    for _ in 0..is.len() {
        c.tick(&());
    }
    assert_eq!(c.peek_ram(0), 14);
}

#[test]
fn d_minus_m() {
    let is = vec![
        Instruction::A(5).bus16(),
        Instruction::C(Computation {
            comp: (CompReg::A, Comp::A),
            dest: Dest::D,
            jump: Jump::NoJump,
        })
        .bus16(),
        Instruction::A(0).bus16(),
        Instruction::C(Computation {
            comp: (CompReg::A, Comp::D),
            dest: Dest::M,
            jump: Jump::NoJump,
        })
        .bus16(),
        Instruction::A(9).bus16(),
        Instruction::C(Computation {
            comp: (CompReg::A, Comp::A),
            dest: Dest::D,
            jump: Jump::NoJump,
        })
        .bus16(),
        Instruction::A(0).bus16(),
        Instruction::C(Computation {
            comp: (CompReg::M, Comp::DMinusA),
            dest: Dest::D,
            jump: Jump::NoJump,
        })
        .bus16(),
        Instruction::C(Computation {
            comp: (CompReg::A, Comp::D),
            dest: Dest::M,
            jump: Jump::NoJump,
        })
        .bus16(),
    ];
    let mut c = MutComputer::of(&is);
    for _ in 0..is.len() {
        c.tick(&());
    }
    assert_eq!(c.peek_ram(0), 4);
}

#[test]
fn increment_address() {
    let inc_a = || {
        Instruction::C(Computation {
            comp: (CompReg::A, Comp::APlus1),
            dest: Dest::A,
            jump: Jump::NoJump,
        })
        .bus16()
    };
    let is = vec![inc_a(), inc_a(), inc_a()];
    let mut c = MutComputer::of(&is);
    for _ in 0..is.len() {
        c.tick(&());
    }
    assert_eq!(into_i32(&c.cpu.peek_address()), 3);
}

#[test]
fn jump_eq() {
    let is = vec![
        Instruction::A(100).bus16(),
        Instruction::C(Computation {
            comp: (CompReg::A, Comp::Zero),
            dest: Dest::NoDest,
            jump: Jump::Eq,
        })
        .bus16(),
    ];
    let mut c = MutComputer::of(&is);
    for _ in 0..is.len() {
        c.tick(&());
    }
    assert_eq!(peek_pc_value(&c.cpu), 100);
}

#[test]
fn no_jump_eq() {
    let is = vec![
        Instruction::A(100).bus16(),
        Instruction::C(Computation {
            comp: (CompReg::A, Comp::A),
            dest: Dest::NoDest,
            jump: Jump::Eq,
        })
        .bus16(),
    ];
    let mut c = MutComputer::of(&is);
    for _ in 0..is.len() {
        c.tick(&());
    }
    assert_eq!(peek_pc_value(&c.cpu), 2);
}

#[test]
fn no_jump_neq() {
    let is = vec![
        Instruction::A(100).bus16(),
        Instruction::C(Computation {
            comp: (CompReg::A, Comp::Zero),
            dest: Dest::NoDest,
            jump: Jump::NEq,
        })
        .bus16(),
    ];
    let mut c = MutComputer::of(&is);
    for _ in 0..is.len() {
        c.tick(&());
    }
    assert_eq!(peek_pc_value(&c.cpu), 2);
}

#[test]
fn increment_memory() {
    let bump = || {
        Instruction::C(Computation {
            comp: (CompReg::M, Comp::APlus1),
            dest: Dest::M,
            jump: Jump::NoJump,
        })
        .bus16()
    };
    let is = vec![Instruction::A(1).bus16(), bump(), bump(), bump(), bump()];
    let mut c = MutComputer::of(&is);
    for _ in 0..is.len() {
        c.tick(&());
    }
    assert_eq!(c.peek_ram(1), 4);
}

#[test]
fn increment_loop() {
    let end = 100;
    let is = vec![
        Instruction::A(10).bus16(),
        Instruction::C(Computation {
            comp: (CompReg::A, Comp::A),
            dest: Dest::D,
            jump: Jump::NoJump,
        })
        .bus16(),
        Instruction::A(0).bus16(),
        Instruction::C(Computation {
            comp: (CompReg::M, Comp::APlus1),
            dest: Dest::M,
            jump: Jump::NoJump,
        })
        .bus16(),
        Instruction::C(Computation {
            comp: (CompReg::M, Comp::DMinusA),
            dest: Dest::D,
            jump: Jump::NoJump,
        })
        .bus16(),
        Instruction::A(0).bus16(),
        Instruction::C(Computation {
            comp: (CompReg::A, Comp::D),
            dest: Dest::NoDest,
            jump: Jump::NEq,
        })
        .bus16(),
        Instruction::A(end).bus16(),
        Instruction::C(Computation {
            comp: (CompReg::A, Comp::Zero),
            dest: Dest::NoDest,
            jump: Jump::Always,
        })
        .bus16(),
    ];
    let mut c = MutComputer::of(&is);
    for _ in 0..100 {
        c.tick(&());
        let pc = peek_pc_value(&c.cpu);
        if pc >= end {
            break;
        }
    }
    assert_eq!(peek_pc_value(&c.cpu), end);
    assert_eq!(c.peek_ram(0), 10);
}

#[test]
fn sum_up() {
    let i = 0;
    let sum = 1;
    let end = 100;
    let is = vec![
        Instruction::A(1).bus16(),
        Instruction::C(Computation {
            comp: (CompReg::A, Comp::A),
            dest: Dest::D,
            jump: Jump::NoJump,
        })
        .bus16(),
        Instruction::A(i).bus16(),
        Instruction::C(Computation {
            comp: (CompReg::A, Comp::D),
            dest: Dest::M,
            jump: Jump::NoJump,
        })
        .bus16(),
        Instruction::A(0).bus16(),
        Instruction::C(Computation {
            comp: (CompReg::A, Comp::A),
            dest: Dest::D,
            jump: Jump::NoJump,
        })
        .bus16(),
        Instruction::A(sum).bus16(),
        Instruction::C(Computation {
            comp: (CompReg::A, Comp::D),
            dest: Dest::M,
            jump: Jump::NoJump,
        })
        .bus16(),
        Instruction::A(i).bus16(),
        Instruction::C(Computation {
            comp: (CompReg::M, Comp::A),
            dest: Dest::D,
            jump: Jump::NoJump,
        })
        .bus16(),
        Instruction::A(10).bus16(),
        Instruction::C(Computation {
            comp: (CompReg::A, Comp::DMinusA),
            dest: Dest::D,
            jump: Jump::NoJump,
        })
        .bus16(),
        Instruction::A(end).bus16(),
        Instruction::C(Computation {
            comp: (CompReg::A, Comp::D),
            dest: Dest::NoDest,
            jump: Jump::Gt,
        })
        .bus16(),
        Instruction::A(i).bus16(),
        Instruction::C(Computation {
            comp: (CompReg::M, Comp::A),
            dest: Dest::D,
            jump: Jump::NoJump,
        })
        .bus16(),
        Instruction::A(sum).bus16(),
        Instruction::C(Computation {
            comp: (CompReg::M, Comp::DPlusA),
            dest: Dest::M,
            jump: Jump::NoJump,
        })
        .bus16(),
        Instruction::A(i).bus16(),
        Instruction::C(Computation {
            comp: (CompReg::M, Comp::APlus1),
            dest: Dest::M,
            jump: Jump::NoJump,
        })
        .bus16(),
        Instruction::A(8).bus16(),
        Instruction::C(Computation {
            comp: (CompReg::A, Comp::Zero),
            dest: Dest::NoDest,
            jump: Jump::Always,
        })
        .bus16(),
    ];
    let mut c = MutComputer::of(&is);
    for _ in 0..300 {
        c.tick(&());
        let pc = peek_pc_value(&c.cpu);
        if pc >= end {
            break;
        }
    }
    assert_eq!(peek_pc_value(&c.cpu), end);
    assert_eq!(c.peek_ram(sum), 55);
}
