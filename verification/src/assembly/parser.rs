//! The assembly grammar, parsed by recursive descent over a character tape
//! with a position cursor. A failed production never consumes input;
//! alternatives try the left arm first.

use vstd::prelude::*;

use crate::assembly::symbolic::{A, AsmInst, Label};
use crate::computer::instruction::{Comp, CompReg, Computation, Dest, Jump};

verus! {

/// An ordered alternative of two differently typed productions.
pub enum E2<X, Y> {
    A(X),
    B(Y),
}

/// What one source line holds, as the specification sees it: nothing, a
/// label, an A-instruction with a literal or a symbol, or a C-instruction.
pub enum LineV {
    Blank,
    Mark(Seq<char>),
    AConst(int),
    AVar(Seq<char>),
    Compute(Computation),
}

/// What a parsed line holds, as the specification sees it.
pub open spec fn line_view(e: Option<E2<AsmInst, Label>>) -> LineV {
    match e {
        Option::None => LineV::Blank,
        Option::Some(E2::A(AsmInst::A(A::Const(i)))) => LineV::AConst(i as int),
        Option::Some(E2::A(AsmInst::A(A::Var(s)))) => LineV::AVar(s@),
        Option::Some(E2::A(AsmInst::C(c))) => LineV::Compute(c),
        Option::Some(E2::B(l)) => LineV::Mark(l.0@),
    }
}

/// The instruction-bearing lines, as the specification sees them.
pub open spec fn lines_view(v: Seq<E2<AsmInst, Label>>) -> Seq<LineV> {
    Seq::new(v.len(), |i: int| line_view(Option::Some(v[i])))
}

/// Whether a character may begin a symbol: an ASCII letter or `_ . $ :`.
pub open spec fn is_sym_start(c: char) -> bool {
    ('a' <= c && c <= 'z') || ('A' <= c && c <= 'Z') || c == '_' || c == '.' || c == '$' || c == ':'
}

/// Whether a character may continue a symbol: a starter or an ASCII digit.
pub open spec fn is_sym_char(c: char) -> bool {
    is_sym_start(c) || is_digit(c)
}

/// Whether a character is an ASCII decimal digit.
pub open spec fn is_digit(c: char) -> bool {
    '0' <= c && c <= '9'
}

/// Whether a character belongs to a computation mnemonic.
pub open spec fn is_comp_char(c: char) -> bool {
    c == '0' || c == '1' || c == '+' || c == '-' || c == '!' || c == '&' || c == '|' || c == 'A'
        || c == 'M' || c == 'D'
}

/// Whether a character names a destination register.
pub open spec fn is_dest_char(c: char) -> bool {
    c == 'A' || c == 'M' || c == 'D'
}

/// Whether a character is an ASCII letter.
pub open spec fn is_alpha(c: char) -> bool {
    ('a' <= c && c <= 'z') || ('A' <= c && c <= 'Z')
}

/// The position where a run of characters satisfying `kind` ends, scanning
/// from `p`. `kind` selects one of the character classes above.
pub open spec fn scan_end(t: Seq<char>, p: int, kind: int) -> int
    decreases t.len() - p,
{
    if 0 <= p < t.len() && char_in_class(t[p], kind) {
        scan_end(t, p + 1, kind)
    } else {
        p
    }
}

/// The character classes the scanner knows, numbered.
pub open spec fn char_in_class(c: char, kind: int) -> bool {
    if kind == 0 {
        is_sym_char(c)
    } else if kind == 1 {
        is_digit(c)
    } else if kind == 2 {
        is_comp_char(c)
    } else if kind == 3 {
        is_dest_char(c)
    } else if kind == 4 {
        is_alpha(c)
    } else if kind == 5 {
        c == ' '
    } else {
        c != '\n'
    }
}

/// Scans a run of one character class; never fails, never backtracks.
fn scan(t: &Vec<char>, p: usize, kind: usize) -> (r: usize)
    requires
        p <= t@.len(),
        kind <= 6,
    ensures
        r == scan_end(t@, p as int, kind as int),
        p <= r <= t@.len(),
    decreases t@.len() - p,
{
    if p < t.len() {
        let c = t[p];
        let hit = match kind {
            0 => is_sym_char_x(c),
            1 => is_digit_x(c),
            2 => is_comp_char_x(c),
            3 => is_dest_char_x(c),
            4 => is_alpha_x(c),
            5 => c == ' ',
            _ => c != '\n',
        };
        if hit {
            return scan(t, p + 1, kind);
        }
    }
    p
}

/// Whether a character may begin a symbol.
fn is_sym_start_x(c: char) -> (r: bool)
    ensures
        r == is_sym_start(c),
{
    (c >= 'a' && c <= 'z') || (c >= 'A' && c <= 'Z') || c == '_' || c == '.' || c == '$' || c == ':'
}

/// Whether a character may continue a symbol.
fn is_sym_char_x(c: char) -> (r: bool)
    ensures
        r == is_sym_char(c),
{
    is_sym_start_x(c) || is_digit_x(c)
}

/// Whether a character is an ASCII decimal digit.
fn is_digit_x(c: char) -> (r: bool)
    ensures
        r == is_digit(c),
{
    c >= '0' && c <= '9'
}

/// Whether a character belongs to a computation mnemonic.
fn is_comp_char_x(c: char) -> (r: bool)
    ensures
        r == is_comp_char(c),
{
    c == '0' || c == '1' || c == '+' || c == '-' || c == '!' || c == '&' || c == '|' || c == 'A'
        || c == 'M' || c == 'D'
}

/// Whether a character names a destination register.
fn is_dest_char_x(c: char) -> (r: bool)
    ensures
        r == is_dest_char(c),
{
    c == 'A' || c == 'M' || c == 'D'
}

/// Whether a character is an ASCII letter.
fn is_alpha_x(c: char) -> (r: bool)
    ensures
        r == is_alpha(c),
{
    (c >= 'a' && c <= 'z') || (c >= 'A' && c <= 'Z')
}


/// A run the scanner accepts never moves backward and stays on the tape.
pub proof fn lemma_scan_bounds(t: Seq<char>, p: int, kind: int)
    requires
        0 <= p <= t.len(),
    ensures
        p <= scan_end(t, p, kind) <= t.len(),
    decreases t.len() - p,
{
    if 0 <= p < t.len() && char_in_class(t[p], kind) {
        lemma_scan_bounds(t, p + 1, kind);
    }
}

/// The decimal value of the digits `t[p .. e)`, most significant first.
pub open spec fn digits_val(t: Seq<char>, p: int, e: int) -> int
    decreases e - p,
{
    if p >= e {
        0
    } else {
        10 * digits_val(t, p, e - 1) + ((t[e - 1] as u32) - 48)
    }
}

/// A decimal literal's value as the parser's 32-bit accumulator leaves it:
/// reduced modulo 2^32 and read back as two's complement.
pub open spec fn wrap_i32(v: int) -> int {
    let m = v % 0x100000000;
    if m < 0x80000000 {
        m
    } else {
        m - 0x100000000
    }
}

/// A decimal literal: one or more digits.
pub open spec fn spec_number(t: Seq<char>, p: int) -> Option<(int, int)> {
    let e = scan_end(t, p, 1);
    if e > p {
        Option::Some((wrap_i32(digits_val(t, p, e)), e))
    } else {
        Option::None
    }
}

/// A symbol: a starter character, then any run of symbol characters.
pub open spec fn spec_symbol(t: Seq<char>, p: int) -> Option<(Seq<char>, int)> {
    if 0 <= p < t.len() && is_sym_start(t[p]) {
        Option::Some((t.subrange(p, scan_end(t, p + 1, 0)), scan_end(t, p + 1, 0)))
    } else {
        Option::None
    }
}

/// The computation a mnemonic names, with its operand source; the M-sourced
/// spellings select the memory operand.
pub open spec fn comp_of(s: Seq<char>) -> Option<(CompReg, Comp)> {
    if s.len() == 1 {
        if s[0] == '0' {
            Option::Some((CompReg::A, Comp::Zero))
        } else if s[0] == '1' {
            Option::Some((CompReg::A, Comp::One))
        } else if s[0] == 'D' {
            Option::Some((CompReg::A, Comp::D))
        } else if s[0] == 'A' {
            Option::Some((CompReg::A, Comp::A))
        } else if s[0] == 'M' {
            Option::Some((CompReg::M, Comp::A))
        } else {
            Option::None
        }
    } else if s.len() == 2 {
        if s[0] == '-' && s[1] == '1' {
            Option::Some((CompReg::A, Comp::MinusOne))
        } else if s[0] == '!' && s[1] == 'D' {
            Option::Some((CompReg::A, Comp::NotD))
        } else if s[0] == '!' && s[1] == 'A' {
            Option::Some((CompReg::A, Comp::NotA))
        } else if s[0] == '!' && s[1] == 'M' {
            Option::Some((CompReg::M, Comp::NotA))
        } else if s[0] == '-' && s[1] == 'D' {
            Option::Some((CompReg::A, Comp::MinusD))
        } else if s[0] == '-' && s[1] == 'A' {
            Option::Some((CompReg::A, Comp::MinusA))
        } else if s[0] == '-' && s[1] == 'M' {
            Option::Some((CompReg::M, Comp::MinusA))
        } else {
            Option::None
        }
    } else if s.len() == 3 {
        if s[0] == 'D' && s[1] == '+' && s[2] == '1' {
            Option::Some((CompReg::A, Comp::DPlus1))
        } else if s[0] == 'A' && s[1] == '+' && s[2] == '1' {
            Option::Some((CompReg::A, Comp::APlus1))
        } else if s[0] == 'M' && s[1] == '+' && s[2] == '1' {
            Option::Some((CompReg::M, Comp::APlus1))
        } else if s[0] == 'D' && s[1] == '-' && s[2] == '1' {
            Option::Some((CompReg::A, Comp::DMinus1))
        } else if s[0] == 'A' && s[1] == '-' && s[2] == '1' {
            Option::Some((CompReg::A, Comp::AMinus1))
        } else if s[0] == 'M' && s[1] == '-' && s[2] == '1' {
            Option::Some((CompReg::M, Comp::AMinus1))
        } else if s[0] == 'D' && s[1] == '+' && s[2] == 'A' {
            Option::Some((CompReg::A, Comp::DPlusA))
        } else if s[0] == 'D' && s[1] == '+' && s[2] == 'M' {
            Option::Some((CompReg::M, Comp::DPlusA))
        } else if s[0] == 'D' && s[1] == '-' && s[2] == 'A' {
            Option::Some((CompReg::A, Comp::DMinusA))
        } else if s[0] == 'D' && s[1] == '-' && s[2] == 'M' {
            Option::Some((CompReg::M, Comp::DMinusA))
        } else if s[0] == 'A' && s[1] == '-' && s[2] == 'D' {
            Option::Some((CompReg::A, Comp::AMinusD))
        } else if s[0] == 'M' && s[1] == '-' && s[2] == 'D' {
            Option::Some((CompReg::M, Comp::AMinusD))
        } else if s[0] == 'D' && s[1] == '&' && s[2] == 'A' {
            Option::Some((CompReg::A, Comp::DAndA))
        } else if s[0] == 'D' && s[1] == '&' && s[2] == 'M' {
            Option::Some((CompReg::M, Comp::DAndA))
        } else if s[0] == 'D' && s[1] == '|' && s[2] == 'A' {
            Option::Some((CompReg::A, Comp::DOrA))
        } else if s[0] == 'D' && s[1] == '|' && s[2] == 'M' {
            Option::Some((CompReg::M, Comp::DOrA))
        } else {
            Option::None
        }
    } else {
        Option::None
    }
}

/// The destination mask a canonical spelling names; any other spelling is
/// rejected.
pub open spec fn dest_of(s: Seq<char>) -> Option<Dest> {
    if s.len() == 1 {
        if s[0] == 'A' {
            Option::Some(Dest::A)
        } else if s[0] == 'D' {
            Option::Some(Dest::D)
        } else if s[0] == 'M' {
            Option::Some(Dest::M)
        } else {
            Option::None
        }
    } else if s.len() == 2 {
        if s[0] == 'A' && s[1] == 'D' {
            Option::Some(Dest::AD)
        } else if s[0] == 'A' && s[1] == 'M' {
            Option::Some(Dest::AM)
        } else if s[0] == 'D' && s[1] == 'M' {
            Option::Some(Dest::DM)
        } else {
            Option::None
        }
    } else if s.len() == 3 {
        if s[0] == 'A' && s[1] == 'D' && s[2] == 'M' {
            Option::Some(Dest::ADM)
        } else {
            Option::None
        }
    } else {
        Option::None
    }
}

/// The jump condition a mnemonic names.
pub open spec fn jump_of(s: Seq<char>) -> Option<Jump> {
    if s.len() == 3 && s[0] == 'J' {
        if s[1] == 'G' && s[2] == 'T' {
            Option::Some(Jump::Gt)
        } else if s[1] == 'E' && s[2] == 'Q' {
            Option::Some(Jump::Eq)
        } else if s[1] == 'G' && s[2] == 'E' {
            Option::Some(Jump::Ge)
        } else if s[1] == 'L' && s[2] == 'T' {
            Option::Some(Jump::Lt)
        } else if s[1] == 'N' && s[2] == 'E' {
            Option::Some(Jump::Ne)
        } else if s[1] == 'L' && s[2] == 'E' {
            Option::Some(Jump::Le)
        } else if s[1] == 'M' && s[2] == 'P' {
            Option::Some(Jump::Always)
        } else {
            Option::None
        }
    } else {
        Option::None
    }
}

/// A destination field: a run of register letters ending in `=`, spelled
/// canonically.
pub open spec fn spec_dest(t: Seq<char>, p: int) -> Option<(Dest, int)> {
    let e = scan_end(t, p, 3);
    if e < t.len() && t[e] == '=' && dest_of(t.subrange(p, e)) is Some {
        Option::Some((dest_of(t.subrange(p, e))->Some_0, e + 1))
    } else {
        Option::None
    }
}

/// A jump field: a semicolon, then a jump mnemonic.
pub open spec fn spec_jump(t: Seq<char>, p: int) -> Option<(Jump, int)> {
    if 0 <= p < t.len() && t[p] == ';' {
        let e = scan_end(t, p + 1, 4);
        if jump_of(t.subrange(p + 1, e)) is Some {
            Option::Some((jump_of(t.subrange(p + 1, e))->Some_0, e))
        } else {
            Option::None
        }
    } else {
        Option::None
    }
}

/// A C-instruction: an optional destination, a computation, an optional jump.
pub open spec fn spec_c_inst(t: Seq<char>, p: int) -> Option<(Computation, int)> {
    let p1 = if spec_dest(t, p) is Some {
        spec_dest(t, p)->Some_0.1
    } else {
        p
    };
    let d = if spec_dest(t, p) is Some {
        spec_dest(t, p)->Some_0.0
    } else {
        Dest::NoDest
    };
    let e = scan_end(t, p1, 2);
    if comp_of(t.subrange(p1, e)) is Some {
        let j = if spec_jump(t, e) is Some {
            spec_jump(t, e)->Some_0.0
        } else {
            Jump::NoJump
        };
        let p2 = if spec_jump(t, e) is Some {
            spec_jump(t, e)->Some_0.1
        } else {
            e
        };
        Option::Some(
            (Computation { comp: comp_of(t.subrange(p1, e))->Some_0, dest: d, jump: j }, p2),
        )
    } else {
        Option::None
    }
}

/// An A-instruction: `@`, then a decimal literal, else a symbol.
pub open spec fn spec_a_inst(t: Seq<char>, p: int) -> Option<(LineV, int)> {
    if 0 <= p < t.len() && t[p] == '@' {
        if spec_number(t, p + 1) is Some {
            Option::Some(
                (LineV::AConst(spec_number(t, p + 1)->Some_0.0), spec_number(t, p + 1)->Some_0.1),
            )
        } else if spec_symbol(t, p + 1) is Some {
            Option::Some(
                (LineV::AVar(spec_symbol(t, p + 1)->Some_0.0), spec_symbol(t, p + 1)->Some_0.1),
            )
        } else {
            Option::None
        }
    } else {
        Option::None
    }
}

/// A label line: a symbol between parentheses.
pub open spec fn spec_label(t: Seq<char>, p: int) -> Option<(LineV, int)> {
    if 0 <= p < t.len() && t[p] == '(' && spec_symbol(t, p + 1) is Some {
        let e = spec_symbol(t, p + 1)->Some_0.1;
        if e < t.len() && t[e] == ')' {
            Option::Some((LineV::Mark(spec_symbol(t, p + 1)->Some_0.0), e + 1))
        } else {
            Option::None
        }
    } else {
        Option::None
    }
}

/// One line: leading spaces, then at most one instruction or label (an
/// A-instruction tried first, then a C-instruction, then a label), then
/// spaces and an optional comment. A line as a whole never fails.
pub open spec fn spec_line(t: Seq<char>, p: int) -> (LineV, int) {
    let p1 = scan_end(t, p, 5);
    let body = if spec_a_inst(t, p1) is Some {
        spec_a_inst(t, p1)->Some_0
    } else if spec_c_inst(t, p1) is Some {
        let ci = spec_c_inst(t, p1)->Some_0;
        (LineV::Compute(ci.0), ci.1)
    } else if spec_label(t, p1) is Some {
        spec_label(t, p1)->Some_0
    } else {
        (LineV::Blank, p1)
    };
    let p2 = scan_end(t, body.1, 5);
    let p3 = if p2 < t.len() && p2 + 1 < t.len() && t[p2] == '/' && t[p2 + 1] == '/' {
        scan_end(t, p2 + 2, 6)
    } else {
        p2
    };
    (body.0, p3)
}



/// A line never moves the cursor backward and stays on the tape.
pub proof fn lemma_line_advances(t: Seq<char>, p: int)
    requires
        0 <= p <= t.len(),
    ensures
        p <= spec_line(t, p).1 <= t.len(),
{
    let p1 = scan_end(t, p, 5);
    lemma_scan_bounds(t, p, 5);
    let body_end = if spec_a_inst(t, p1) is Some {
        spec_a_inst(t, p1)->Some_0.1
    } else if spec_c_inst(t, p1) is Some {
        spec_c_inst(t, p1)->Some_0.1
    } else if spec_label(t, p1) is Some {
        spec_label(t, p1)->Some_0.1
    } else {
        p1
    };
    if spec_a_inst(t, p1) is Some {
        lemma_scan_bounds(t, p1 + 1, 1);
        if !(spec_number(t, p1 + 1) is Some) {
            lemma_scan_bounds(t, p1 + 2, 0);
        }
    } else if spec_c_inst(t, p1) is Some {
        lemma_c_inst_advances(t, p1);
    } else if spec_label(t, p1) is Some {
        lemma_scan_bounds(t, p1 + 2, 0);
    }
    assert(p1 <= body_end <= t.len());
    lemma_scan_bounds(t, body_end, 5);
    let p2 = scan_end(t, body_end, 5);
    if p2 + 1 < t.len() && t[p2] == '/' && t[p2 + 1] == '/' {
        lemma_scan_bounds(t, p2 + 2, 6);
    }
}

/// A C-instruction never moves the cursor backward and stays on the tape.
pub proof fn lemma_c_inst_advances(t: Seq<char>, p: int)
    requires
        0 <= p <= t.len(),
        spec_c_inst(t, p) is Some,
    ensures
        p <= spec_c_inst(t, p)->Some_0.1 <= t.len(),
{
    lemma_scan_bounds(t, p, 3);
    let p1 = if spec_dest(t, p) is Some {
        spec_dest(t, p)->Some_0.1
    } else {
        p
    };
    assert(p <= p1 <= t.len());
    lemma_scan_bounds(t, p1, 2);
    let e = scan_end(t, p1, 2);
    if spec_jump(t, e) is Some {
        lemma_scan_bounds(t, e + 1, 4);
    }
}

/// The instruction-bearing lines of the source from `p` on: pairs of one
/// line and one newline, read greedily, with the position where reading
/// stopped. Blank lines are dropped.
pub open spec fn spec_lines(t: Seq<char>, p: int) -> (Seq<LineV>, int)
    decreases t.len() - p,
    when 0 <= p <= t.len()
    via spec_lines_advance
{
    let lq = spec_line(t, p);
    if lq.1 < t.len() && t[lq.1] == '\n' {
        let rest = spec_lines(t, lq.1 + 1);
        if lq.0 is Blank {
            (rest.0, rest.1)
        } else {
            (seq![lq.0] + rest.0, rest.1)
        }
    } else {
        (Seq::empty(), p)
    }
}

#[via_fn]
proof fn spec_lines_advance(t: Seq<char>, p: int) {
    if 0 <= p <= t.len() {
        lemma_line_advances(t, p);
    }
}

/// Reading lines never moves the cursor backward and stays on the tape.
pub proof fn lemma_lines_advance(t: Seq<char>, p: int)
    requires
        0 <= p <= t.len(),
    ensures
        p <= spec_lines(t, p).1 <= t.len(),
    decreases t.len() - p,
{
    lemma_line_advances(t, p);
    let lq = spec_line(t, p);
    if lq.1 < t.len() && t[lq.1] == '\n' {
        lemma_lines_advance(t, lq.1 + 1);
    }
}


/// Looks a computation mnemonic up in the eighteen-row table.
fn comp_lookup(t: &Vec<char>, p: usize, e: usize) -> (r: Option<(CompReg, Comp)>)
    requires
        p <= e <= t@.len(),
    ensures
        r == comp_of(t@.subrange(p as int, e as int)),
{
    proof {
        assert(t@.subrange(p as int, e as int).len() == e - p);
        if e - p >= 1 {
            assert(t@.subrange(p as int, e as int)[0] == t@[p as int]);
        }
        if e - p >= 2 {
            assert(t@.subrange(p as int, e as int)[1] == t@[p as int + 1]);
        }
        if e - p >= 3 {
            assert(t@.subrange(p as int, e as int)[2] == t@[p as int + 2]);
        }
    }
    let n = e - p;
    if n == 1 {
        if t[p] == '0' {
            Some((CompReg::A, Comp::Zero))
        } else if t[p] == '1' {
            Some((CompReg::A, Comp::One))
        } else if t[p] == 'D' {
            Some((CompReg::A, Comp::D))
        } else if t[p] == 'A' {
            Some((CompReg::A, Comp::A))
        } else if t[p] == 'M' {
            Some((CompReg::M, Comp::A))
        } else {
            None
        }
    } else if n == 2 {
        if t[p] == '-' && t[p + 1] == '1' {
            Some((CompReg::A, Comp::MinusOne))
        } else if t[p] == '!' && t[p + 1] == 'D' {
            Some((CompReg::A, Comp::NotD))
        } else if t[p] == '!' && t[p + 1] == 'A' {
            Some((CompReg::A, Comp::NotA))
        } else if t[p] == '!' && t[p + 1] == 'M' {
            Some((CompReg::M, Comp::NotA))
        } else if t[p] == '-' && t[p + 1] == 'D' {
            Some((CompReg::A, Comp::MinusD))
        } else if t[p] == '-' && t[p + 1] == 'A' {
            Some((CompReg::A, Comp::MinusA))
        } else if t[p] == '-' && t[p + 1] == 'M' {
            Some((CompReg::M, Comp::MinusA))
        } else {
            None
        }
    } else if n == 3 {
        if t[p] == 'D' && t[p + 1] == '+' && t[p + 2] == '1' {
            Some((CompReg::A, Comp::DPlus1))
        } else if t[p] == 'A' && t[p + 1] == '+' && t[p + 2] == '1' {
            Some((CompReg::A, Comp::APlus1))
        } else if t[p] == 'M' && t[p + 1] == '+' && t[p + 2] == '1' {
            Some((CompReg::M, Comp::APlus1))
        } else if t[p] == 'D' && t[p + 1] == '-' && t[p + 2] == '1' {
            Some((CompReg::A, Comp::DMinus1))
        } else if t[p] == 'A' && t[p + 1] == '-' && t[p + 2] == '1' {
            Some((CompReg::A, Comp::AMinus1))
        } else if t[p] == 'M' && t[p + 1] == '-' && t[p + 2] == '1' {
            Some((CompReg::M, Comp::AMinus1))
        } else if t[p] == 'D' && t[p + 1] == '+' && t[p + 2] == 'A' {
            Some((CompReg::A, Comp::DPlusA))
        } else if t[p] == 'D' && t[p + 1] == '+' && t[p + 2] == 'M' {
            Some((CompReg::M, Comp::DPlusA))
        } else if t[p] == 'D' && t[p + 1] == '-' && t[p + 2] == 'A' {
            Some((CompReg::A, Comp::DMinusA))
        } else if t[p] == 'D' && t[p + 1] == '-' && t[p + 2] == 'M' {
            Some((CompReg::M, Comp::DMinusA))
        } else if t[p] == 'A' && t[p + 1] == '-' && t[p + 2] == 'D' {
            Some((CompReg::A, Comp::AMinusD))
        } else if t[p] == 'M' && t[p + 1] == '-' && t[p + 2] == 'D' {
            Some((CompReg::M, Comp::AMinusD))
        } else if t[p] == 'D' && t[p + 1] == '&' && t[p + 2] == 'A' {
            Some((CompReg::A, Comp::DAndA))
        } else if t[p] == 'D' && t[p + 1] == '&' && t[p + 2] == 'M' {
            Some((CompReg::M, Comp::DAndA))
        } else if t[p] == 'D' && t[p + 1] == '|' && t[p + 2] == 'A' {
            Some((CompReg::A, Comp::DOrA))
        } else if t[p] == 'D' && t[p + 1] == '|' && t[p + 2] == 'M' {
            Some((CompReg::M, Comp::DOrA))
        } else {
            None
        }
    } else {
        None
    }
}

/// Looks a destination spelling up; only the canonical orders are accepted.
fn dest_lookup(t: &Vec<char>, p: usize, e: usize) -> (r: Option<Dest>)
    requires
        p <= e <= t@.len(),
    ensures
        r == dest_of(t@.subrange(p as int, e as int)),
{
    proof {
        assert(t@.subrange(p as int, e as int).len() == e - p);
        if e - p >= 1 {
            assert(t@.subrange(p as int, e as int)[0] == t@[p as int]);
        }
        if e - p >= 2 {
            assert(t@.subrange(p as int, e as int)[1] == t@[p as int + 1]);
        }
        if e - p >= 3 {
            assert(t@.subrange(p as int, e as int)[2] == t@[p as int + 2]);
        }
    }
    let n = e - p;
    if n == 1 {
        if t[p] == 'A' {
            Some(Dest::A)
        } else if t[p] == 'D' {
            Some(Dest::D)
        } else if t[p] == 'M' {
            Some(Dest::M)
        } else {
            None
        }
    } else if n == 2 {
        if t[p] == 'A' && t[p + 1] == 'D' {
            Some(Dest::AD)
        } else if t[p] == 'A' && t[p + 1] == 'M' {
            Some(Dest::AM)
        } else if t[p] == 'D' && t[p + 1] == 'M' {
            Some(Dest::DM)
        } else {
            None
        }
    } else if n == 3 {
        if t[p] == 'A' && t[p + 1] == 'D' && t[p + 2] == 'M' {
            Some(Dest::ADM)
        } else {
            None
        }
    } else {
        None
    }
}

/// Looks a jump mnemonic up in the seven-row table.
fn jump_lookup(t: &Vec<char>, p: usize, e: usize) -> (r: Option<Jump>)
    requires
        p <= e <= t@.len(),
    ensures
        r == jump_of(t@.subrange(p as int, e as int)),
{
    proof {
        assert(t@.subrange(p as int, e as int).len() == e - p);
        if e - p >= 3 {
            assert(t@.subrange(p as int, e as int)[0] == t@[p as int]);
            assert(t@.subrange(p as int, e as int)[1] == t@[p as int + 1]);
            assert(t@.subrange(p as int, e as int)[2] == t@[p as int + 2]);
        }
    }
    if e - p == 3 && t[p] == 'J' {
        if t[p + 1] == 'G' && t[p + 2] == 'T' {
            Some(Jump::Gt)
        } else if t[p + 1] == 'E' && t[p + 2] == 'Q' {
            Some(Jump::Eq)
        } else if t[p + 1] == 'G' && t[p + 2] == 'E' {
            Some(Jump::Ge)
        } else if t[p + 1] == 'L' && t[p + 2] == 'T' {
            Some(Jump::Lt)
        } else if t[p + 1] == 'N' && t[p + 2] == 'E' {
            Some(Jump::Ne)
        } else if t[p + 1] == 'L' && t[p + 2] == 'E' {
            Some(Jump::Le)
        } else if t[p + 1] == 'M' && t[p + 2] == 'P' {
            Some(Jump::Always)
        } else {
            None
        }
    } else {
        None
    }
}


/// Parses a decimal literal with a 32-bit accumulator.
fn parse_number(t: &Vec<char>, p: usize) -> (r: Option<(i32, usize)>)
    requires
        p <= t@.len(),
    ensures
        r is Some <==> spec_number(t@, p as int) is Some,
        r is Some ==> {
            &&& r->Some_0.0 as int == spec_number(t@, p as int)->Some_0.0
            &&& r->Some_0.1 as int == spec_number(t@, p as int)->Some_0.1
            &&& p < r->Some_0.1 <= t@.len()
        },
{
    let e = scan(t, p, 1);
    proof {
        lemma_scan_bounds(t@, p as int, 1);
    }
    if e == p {
        return None;
    }
    let mut acc: u64 = 0;
    let mut i: usize = p;
    while i < e
        invariant
            p <= i <= e <= t@.len(),
            acc == digits_val(t@, p as int, i as int) % 0x100000000,
            scan_end(t@, p as int, 1) == e,
        decreases e - i,
    {
        proof {
            lemma_scan_run(t@, p as int, i as int, 1);
        }
        let d = (t[i] as u32) - 48;
        proof {
            let dv = digits_val(t@, p as int, i as int);
            let dv1 = digits_val(t@, p as int, i + 1 as int);
            assert(dv1 == 10 * dv + d);
            assert((10 * (dv % 0x100000000) + d) % 0x100000000 == (10 * dv + d) % 0x100000000)
                by (nonlinear_arith);
        }
        acc = ((acc * 10) + (d as u64)) % 0x100000000;
        i = i + 1;
    }
    let v = #[verifier::truncate] (acc as i32);
    proof {
        let dv = digits_val(t@, p as int, e as int);
        assert(acc == dv % 0x100000000);
        if acc < 0x80000000 {
            assert(v as int == acc as int) by (bit_vector)
                requires
                    acc < 0x80000000,
                    v == #[verifier::truncate] (acc as i32),
            ;
        } else {
            assert(v as int == acc as int - 0x100000000) by (bit_vector)
                requires
                    0x80000000 <= acc < 0x100000000,
                    v == #[verifier::truncate] (acc as i32),
            ;
        }
    }
    Some((v, e))
}

/// Every position inside a scanned run satisfies the scanned class.
proof fn lemma_scan_run(t: Seq<char>, p: int, i: int, kind: int)
    requires
        0 <= p <= i < scan_end(t, p, kind),
    ensures
        i < t.len() && char_in_class(t[i], kind),
    decreases i - p,
{
    if 0 <= p < t.len() && char_in_class(t[p], kind) {
        if i > p {
            lemma_scan_run(t, p + 1, i, kind);
        }
    }
}

/// Parses a symbol out of the source text.
fn parse_symbol(src: &str, t: &Vec<char>, p: usize) -> (r: Option<(String, usize)>)
    requires
        t@ == src@,
        p <= t@.len(),
    ensures
        r is Some <==> spec_symbol(t@, p as int) is Some,
        r is Some ==> {
            &&& r->Some_0.0@ == spec_symbol(t@, p as int)->Some_0.0
            &&& r->Some_0.1 as int == spec_symbol(t@, p as int)->Some_0.1
            &&& p < r->Some_0.1 <= t@.len()
        },
{
    if p < t.len() && is_sym_start_x(t[p]) {
        let e = scan(t, p + 1, 0);
        proof {
            lemma_scan_bounds(t@, p + 1 as int, 0);
        }
        let sub = src.substring_char(p, e);
        Some((sub.to_owned(), e))
    } else {
        None
    }
}

/// Parses the destination field of a C-instruction.
fn parse_dest(t: &Vec<char>, p: usize) -> (r: Option<(Dest, usize)>)
    requires
        p <= t@.len(),
    ensures
        r is Some <==> spec_dest(t@, p as int) is Some,
        r is Some ==> {
            &&& r->Some_0.0 == spec_dest(t@, p as int)->Some_0.0
            &&& r->Some_0.1 as int == spec_dest(t@, p as int)->Some_0.1
            &&& p < r->Some_0.1 <= t@.len()
        },
{
    let e = scan(t, p, 3);
    proof {
        lemma_scan_bounds(t@, p as int, 3);
    }
    if e < t.len() && t[e] == '=' {
        match dest_lookup(t, p, e) {
            Some(d) => Some((d, e + 1)),
            None => None,
        }
    } else {
        None
    }
}

/// Parses the jump field of a C-instruction.
fn parse_jump(t: &Vec<char>, p: usize) -> (r: Option<(Jump, usize)>)
    requires
        p <= t@.len(),
    ensures
        r is Some <==> spec_jump(t@, p as int) is Some,
        r is Some ==> {
            &&& r->Some_0.0 == spec_jump(t@, p as int)->Some_0.0
            &&& r->Some_0.1 as int == spec_jump(t@, p as int)->Some_0.1
            &&& p < r->Some_0.1 <= t@.len()
        },
{
    if p < t.len() && t[p] == ';' {
        let e = scan(t, p + 1, 4);
        proof {
            lemma_scan_bounds(t@, p + 1 as int, 4);
        }
        match jump_lookup(t, p + 1, e) {
            Some(j) => Some((j, e)),
            None => None,
        }
    } else {
        None
    }
}

/// Parses a C-instruction: optional destination, computation, optional jump.
pub fn parse_c_instruction(t: &Vec<char>, p: usize) -> (r: Option<(Computation, usize)>)
    requires
        p <= t@.len(),
    ensures
        r is Some <==> spec_c_inst(t@, p as int) is Some,
        r is Some ==> {
            &&& r->Some_0.0 == spec_c_inst(t@, p as int)->Some_0.0
            &&& r->Some_0.1 as int == spec_c_inst(t@, p as int)->Some_0.1
            &&& p <= r->Some_0.1 <= t@.len()
        },
{
    let dest_r = parse_dest(t, p);
    let p1 = match &dest_r {
        Some(dp) => dp.1,
        None => p,
    };
    let dest = match dest_r {
        Some(dp) => dp.0,
        None => Dest::NoDest,
    };
    let e = scan(t, p1, 2);
    proof {
        lemma_scan_bounds(t@, p1 as int, 2);
    }
    match comp_lookup(t, p1, e) {
        Some(comp) => {
            let jump_r = parse_jump(t, e);
            let p2 = match &jump_r {
                Some(jp) => jp.1,
                None => e,
            };
            let jump = match jump_r {
                Some(jp) => jp.0,
                None => Jump::NoJump,
            };
            Some((Computation { comp, dest, jump }, p2))
        },
        None => None,
    }
}

/// Parses an A-instruction: `@`, then a literal, else a symbol.
pub fn parse_a_instruction(src: &str, t: &Vec<char>, p: usize) -> (r: Option<(A, usize)>)
    requires
        t@ == src@,
        p <= t@.len(),
    ensures
        r is Some <==> spec_a_inst(t@, p as int) is Some,
        r is Some ==> {
            &&& line_view(Option::Some(E2::A(AsmInst::A(r->Some_0.0)))) == spec_a_inst(
                t@,
                p as int,
            )->Some_0.0
            &&& r->Some_0.1 as int == spec_a_inst(t@, p as int)->Some_0.1
            &&& p < r->Some_0.1 <= t@.len()
        },
{
    if p < t.len() && t[p] == '@' {
        match parse_number(t, p + 1) {
            Some(np) => Some((A::Const(np.0), np.1)),
            None => match parse_symbol(src, t, p + 1) {
                Some(sp) => Some((A::Var(sp.0), sp.1)),
                None => None,
            },
        }
    } else {
        None
    }
}

/// Parses a label line: a symbol between parentheses.
pub fn parse_label(src: &str, t: &Vec<char>, p: usize) -> (r: Option<(Label, usize)>)
    requires
        t@ == src@,
        p <= t@.len(),
    ensures
        r is Some <==> spec_label(t@, p as int) is Some,
        r is Some ==> {
            &&& LineV::Mark(r->Some_0.0.0@) == spec_label(t@, p as int)->Some_0.0
            &&& r->Some_0.1 as int == spec_label(t@, p as int)->Some_0.1
            &&& p < r->Some_0.1 <= t@.len()
        },
{
    if p < t.len() && t[p] == '(' {
        match parse_symbol(src, t, p + 1) {
            Some(sp) => {
                let e = sp.1;
                if e < t.len() && t[e] == ')' {
                    Some((Label(sp.0), e + 1))
                } else {
                    None
                }
            },
            None => None,
        }
    } else {
        None
    }
}

/// Parses one line: spaces, at most one instruction or label, spaces, an
/// optional comment. Never fails.
pub fn parse_line(src: &str, t: &Vec<char>, p: usize) -> (r: (Option<E2<AsmInst, Label>>, usize))
    requires
        t@ == src@,
        p <= t@.len(),
    ensures
        line_view(r.0) == spec_line(t@, p as int).0,
        r.1 as int == spec_line(t@, p as int).1,
        p <= r.1 <= t@.len(),
{
    proof {
        lemma_line_advances(t@, p as int);
    }
    let p1 = scan(t, p, 5);
    proof {
        lemma_scan_bounds(t@, p as int, 5);
    }
    let body: (Option<E2<AsmInst, Label>>, usize) = match parse_a_instruction(src, t, p1) {
        Some(ap) => (Some(E2::A(AsmInst::A(ap.0))), ap.1),
        None => match parse_c_instruction(t, p1) {
            Some(cp) => (Some(E2::A(AsmInst::C(cp.0))), cp.1),
            None => match parse_label(src, t, p1) {
                Some(lp) => (Some(E2::B(lp.0)), lp.1),
                None => (None, p1),
            },
        },
    };
    let p2 = scan(t, body.1, 5);
    proof {
        lemma_scan_bounds(t@, body.1 as int, 5);
    }
    let p3 = if p2 < t.len() && p2 + 1 < t.len() && t[p2] == '/' && t[p2 + 1] == '/' {
        let q = scan(t, p2 + 2, 6);
        proof {
            lemma_scan_bounds(t@, p2 + 2 as int, 6);
        }
        q
    } else {
        p2
    };
    (body.0, p3)
}

/// Parses line after line, each closed by a newline, greedily; blank lines
/// are dropped from the result.
pub fn parse_lines(src: &str, t: &Vec<char>, p: usize) -> (r: (Vec<E2<AsmInst, Label>>, usize))
    requires
        t@ == src@,
        p <= t@.len(),
    ensures
        lines_view(r.0@) == spec_lines(t@, p as int).0,
        r.1 as int == spec_lines(t@, p as int).1,
        p <= r.1 <= t@.len(),
    decreases t@.len() - p,
{
    proof {
        lemma_line_advances(t@, p as int);
        lemma_lines_advance(t@, p as int);
    }
    let lq = parse_line(src, t, p);
    if lq.1 < t.len() && t[lq.1] == '\n' {
        let mut rest = parse_lines(src, t, lq.1 + 1);
        match lq.0 {
            Some(e) => {
                rest.0.insert(0, e);
                proof {
                    assert(lines_view(rest.0@) =~= spec_lines(t@, p as int).0);
                }
                (rest.0, rest.1)
            },
            None => (rest.0, rest.1),
        }
    } else {
        let empty: Vec<E2<AsmInst, Label>> = Vec::new();
        proof {
            assert(lines_view(empty@) =~= Seq::<LineV>::empty());
        }
        (empty, p)
    }
}

/// Turns the source text into its characters.
pub fn chars_of(s: &str) -> (r: Vec<char>)
    ensures
        r@ == s@,
{
    let n = s.unicode_len();
    let mut r: Vec<char> = Vec::new();
    let mut i: usize = 0;
    while i < n
        invariant
            0 <= i <= n,
            n == s@.len(),
            r@ == s@.subrange(0, i as int),
        decreases n - i,
    {
        let c = s.get_char(i);
        r.push(c);
        proof {
            assert(r@ =~= s@.subrange(0, i + 1 as int));
        }
        i = i + 1;
    }
    proof {
        assert(r@ =~= s@);
    }
    r
}

/// Parses a whole source: the instruction-bearing lines, in order. `Err`
/// names the failure: nothing parsed from the start, or input left over
/// after the last parsed line.
pub fn parse(code: &str) -> (r: Result<Vec<E2<AsmInst, Label>>, String>)
    ensures
        r is Ok <==> spec_lines(code@, 0).1 == code@.len(),
        r is Ok ==> lines_view(r->Ok_0@) == spec_lines(code@, 0).0,
        r is Err ==> r->Err_0@ == if spec_lines(code@, 0).1 == 0 {
            "failed to parse"@
        } else {
            "character remains"@
        },
{
    let t = chars_of(code);
    let vp = parse_lines(code, &t, 0);
    if vp.1 == t.len() {
        Ok(vp.0)
    } else if vp.1 == 0 {
        Err("failed to parse".to_owned())
    } else {
        Err("character remains".to_owned())
    }
}


/// No source yields more instruction lines than it has characters: each line
/// costs at least its newline.
pub proof fn lemma_lines_count(t: Seq<char>, p: int)
    requires
        0 <= p <= t.len(),
    ensures
        spec_lines(t, p).0.len() <= t.len() - p,
    decreases t.len() - p,
{
    lemma_line_advances(t, p);
    let lq = spec_line(t, p);
    if lq.1 < t.len() && t[lq.1] == '\n' {
        lemma_lines_count(t, lq.1 + 1);
    }
}

} // verus!
