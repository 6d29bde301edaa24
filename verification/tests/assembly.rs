use hack::assembly::assemble::assemble;
use hack::assembly::parser::{chars_of, parse_a_instruction, parse_c_instruction, parse_line, E2};
use hack::assembly::symbolic::{A, AsmInst};
use hack::computer::computer::MutComputer;
use hack::computer::instruction::{Comp, CompReg, Dest, Jump};
use hack::gates::bus16::into_i32;
use hack::infrastructure::MutSC;

#[test]
fn add_works() {
    let code = "
        @2 \n\
        D=A \n\
        @3 \n\
        D=D+A \n\
        @0 \n\
        M=D \n\
        (END) \n\
        @END \n\
        0;JMP \n";
    let bin = assemble(&code).unwrap();
    let mut c = MutComputer::of(&bin);
    for _ in 0..10 {
        c.tick(&())
    }
    assert_eq!(c.peek_ram(0), 5)
}

#[test]
fn max_works() {
    let code = "
        @0
        D=M
        @1
        D=D-M
        @LESS
        D;JLT
        @0
        D=M
        @2
        M=D
        @END
        0;JMP
        (LESS)
        @1
        D=M
        @2
        M=D
        (END)
        @END
        0;JMP
        \
        \n";
    let prepare = |x: i32, y: i32| {
        format!(
            "
        @{}
        D=A
        @0
        M=D
        @{}
        D=A
        @1
        M=D
        ",
            x, y
        )
    };
    let test_cases = [(1, 0, 1), (10, 15, 15), (6, 8, 8), (100, 0, 100)];
    for &(x, y, ans) in test_cases.iter() {
        let bin = assemble(&(prepare(x, y) + code)).unwrap();
        let mut c = MutComputer::of(&bin);
        for _ in 0..bin.len() {
            c.tick(&())
        }
        assert_eq!(c.peek_ram(2), ans)
    }
}

#[test]
fn a_instruction_parser_works() {
    let text = "@123\n@45\nA=D\n";
    let tape = chars_of(text);
    let r = parse_a_instruction(text, &tape, 0);
    assert!(matches!(r, Some((A::Const(123), 4))));
    let r = parse_a_instruction(text, &tape, 5);
    assert!(matches!(r, Some((A::Const(45), 8))));
    let r = parse_a_instruction(text, &tape, 9);
    assert!(r.is_none());

    let text = "@VAR";
    let tape = chars_of(text);
    match parse_a_instruction(text, &tape, 0) {
        Some((A::Var(s), p)) => {
            assert_eq!(s, "VAR".to_string());
            assert_eq!(p, 4);
        },
        _ => panic!(),
    }
}

#[test]
fn c_instruction_parser_works() {
    let text = "A=D\nM=A+1\n!D;JGT\nAD=D-M";
    let tape = chars_of(text);
    let r = parse_c_instruction(&tape, 0).unwrap();
    assert!(matches!(r.0.dest, Dest::A));
    assert!(matches!(r.0.comp, (CompReg::A, Comp::D)));
    assert!(matches!(r.0.jump, Jump::NoJump));
    assert_eq!(r.1, 3);
    let r = parse_c_instruction(&tape, 4).unwrap();
    assert!(matches!(r.0.dest, Dest::M));
    assert!(matches!(r.0.comp, (CompReg::A, Comp::APlus1)));
    assert!(matches!(r.0.jump, Jump::NoJump));
    assert_eq!(r.1, 9);
    let r = parse_c_instruction(&tape, 10).unwrap();
    assert!(matches!(r.0.dest, Dest::NoDest));
    assert!(matches!(r.0.comp, (CompReg::A, Comp::NotD)));
    assert!(matches!(r.0.jump, Jump::Gt));
    assert_eq!(r.1, 16);
    let r = parse_c_instruction(&tape, 17).unwrap();
    assert!(matches!(r.0.dest, Dest::AD));
    assert!(matches!(r.0.comp, (CompReg::M, Comp::DMinusA)));
    assert!(matches!(r.0.jump, Jump::NoJump));
    assert_eq!(r.1, 23);
}

#[test]
fn line_parser_works() {
    let text = "A=D";
    let tape = chars_of(text);
    let r = parse_line(text, &tape, 0);
    match &r.0 {
        Some(E2::A(AsmInst::C(c))) => {
            assert!(matches!(c.dest, Dest::A));
            assert!(matches!(c.comp, (CompReg::A, Comp::D)));
            assert!(matches!(c.jump, Jump::NoJump));
        },
        _ => panic!(),
    }
    assert_eq!(r.1, 3);

    let text = "@100";
    let tape = chars_of(text);
    let r = parse_line(text, &tape, 0);
    assert!(matches!(r.0, Some(E2::A(AsmInst::A(A::Const(100))))));
    assert_eq!(r.1, 4);

    let text = "// comment";
    let tape = chars_of(text);
    let r = parse_line(text, &tape, 0);
    assert!(r.0.is_none());
    assert_eq!(r.1, 10);

    let text = "@57 // comment";
    let tape = chars_of(text);
    let r = parse_line(text, &tape, 0);
    assert!(matches!(r.0, Some(E2::A(AsmInst::A(A::Const(57))))));
    assert_eq!(r.1, 14);

    let text = "@SYMBOL";
    let tape = chars_of(text);
    let r = parse_line(text, &tape, 0);
    match r.0 {
        Some(E2::A(AsmInst::A(A::Var(s)))) => {
            assert_eq!(s, "SYMBOL".to_string());
        },
        _ => panic!(),
    }
    assert_eq!(r.1, 7);
}

#[test]
fn label_resolves_to_next_instruction() {
    let code = "@LOOP\n(LOOP)\n0;JMP\n";
    let bin = assemble(code).unwrap();
    assert_eq!(bin.len(), 2);
    assert_eq!(into_i32(&bin[0]), 1);
    assert_eq!(into_i32(&bin[1]), 0b1110101010000111);
}

#[test]
fn variables_allocate_from_sixteen() {
    let code = "@X\n@X\n@Y\n";
    let bin = assemble(code).unwrap();
    assert_eq!(bin.len(), 3);
    assert_eq!(into_i32(&bin[0]), 16);
    assert_eq!(into_i32(&bin[1]), 16);
    assert_eq!(into_i32(&bin[2]), 17);
}

#[test]
fn duplicate_label_is_reported() {
    let code = "(TWICE)\n@1\n(TWICE)\n@2\n";
    let r = assemble(code);
    assert_eq!(r.unwrap_err(), "TWICE".to_string());
}

#[test]
fn leftover_input_is_reported() {
    let code = "@1\n@2";
    let r = assemble(code);
    assert_eq!(r.unwrap_err(), "character remains".to_string());
}

#[test]
fn empty_source_assembles_to_nothing() {
    let bin = assemble("").unwrap();
    assert_eq!(bin.len(), 0);
}

#[test]
fn c_instruction_words_encode_fields() {
    let bin = assemble("D=A\nM=D+1;JGE\n0;JMP\n").unwrap();
    assert_eq!(bin.len(), 3);
    assert_eq!(into_i32(&bin[0]), 0b1110110000010000);
    assert_eq!(into_i32(&bin[1]), 0b1110011111001011);
    assert_eq!(into_i32(&bin[2]), 0b1110101010000111);
}

#[test]
fn bad_dest_order_is_rejected() {
    let r = assemble("DA=1\n");
    assert!(r.is_err());
}
