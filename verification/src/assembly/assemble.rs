//! The assembler's passes: count labels, allocate variables, resolve symbols
//! and emit machine words.

use vstd::prelude::*;

use crate::assembly::parser;
use crate::assembly::parser::{lines_view, LineV, E2};
use crate::assembly::symbolic::{A, AsmInst, Label};
use crate::computer::instruction::{encodes, Instruction};
use crate::gates::bus16::Bus16;

verus! {

/// A symbol table as the specification sees it: names with their addresses,
/// in the order they were recorded.
pub open spec fn table_view(t: Seq<(String, usize)>) -> Seq<(Seq<char>, int)> {
    Seq::new(t.len(), |i: int| (t[i].0@, t[i].1 as int))
}

/// The address recorded for a name: the first entry that carries it.
pub open spec fn table_lookup(t: Seq<(Seq<char>, int)>, k: Seq<char>) -> Option<int>
    decreases t.len(),
{
    if t.len() == 0 {
        Option::None
    } else if t[0].0 == k {
        Option::Some(t[0].1)
    } else {
        table_lookup(t.drop_first(), k)
    }
}

/// The label pass from line `i` on, with `pc` instructions already counted
/// and `acc` labels already recorded: each label maps to the count of
/// instructions before it; a repeated label name is the error.
pub open spec fn spec_label_table(
    ls: Seq<LineV>,
    i: int,
    pc: int,
    acc: Seq<(Seq<char>, int)>,
) -> Result<Seq<(Seq<char>, int)>, Seq<char>>
    decreases ls.len() - i,
{
    if i < 0 || i >= ls.len() {
        Result::Ok(acc)
    } else if ls[i] is Mark {
        if table_lookup(acc, ls[i]->Mark_0) is Some {
            Result::Err(ls[i]->Mark_0)
        } else {
            spec_label_table(ls, i + 1, pc, acc.push((ls[i]->Mark_0, pc)))
        }
    } else {
        spec_label_table(ls, i + 1, pc + 1, acc)
    }
}

/// The variable pass from line `i` on: each symbol named by an
/// A-instruction that is neither a label nor already allocated gets the next
/// free address, starting at 16.
pub open spec fn spec_var_table(
    ls: Seq<LineV>,
    i: int,
    labels: Seq<(Seq<char>, int)>,
    next: int,
    acc: Seq<(Seq<char>, int)>,
) -> Seq<(Seq<char>, int)>
    decreases ls.len() - i,
{
    if i < 0 || i >= ls.len() {
        acc
    } else if ls[i] is AVar && table_lookup(labels, ls[i]->AVar_0) is None && table_lookup(
        acc,
        ls[i]->AVar_0,
    ) is None {
        spec_var_table(ls, i + 1, labels, next + 1, acc.push((ls[i]->AVar_0, next)))
    } else {
        spec_var_table(ls, i + 1, labels, next, acc)
    }
}

/// The emit pass from line `i` on: labels and blanks vanish, literals stay,
/// and a symbol is replaced by its address, the label table consulted first.
pub open spec fn spec_resolve(ls: Seq<LineV>, i: int, table: Seq<(Seq<char>, int)>) -> Seq<
    Instruction,
>
    decreases ls.len() - i,
{
    if i < 0 || i >= ls.len() {
        Seq::empty()
    } else {
        let rest = spec_resolve(ls, i + 1, table);
        if ls[i] is AConst {
            seq![Instruction::A(ls[i]->AConst_0 as i32)] + rest
        } else if ls[i] is AVar {
            if table_lookup(table, ls[i]->AVar_0) is Some {
                seq![Instruction::A(table_lookup(table, ls[i]->AVar_0)->Some_0 as i32)] + rest
            } else {
                rest
            }
        } else if ls[i] is Compute {
            seq![Instruction::C(ls[i]->Compute_0)] + rest
        } else {
            rest
        }
    }
}

/// Looks a name up in a table, first entry wins.
fn table_get(t: &Vec<(String, usize)>, k: &String) -> (r: Option<usize>)
    ensures
        match r {
            Option::Some(v) => table_lookup(table_view(t@), k@) == Option::Some(v as int),
            Option::None => table_lookup(table_view(t@), k@) is None,
        },
{
    proof {
        assert(table_view(t@).subrange(0, t@.len() as int) =~= table_view(t@));
    }
    let mut i: usize = 0;
    while i < t.len()
        invariant
            0 <= i <= t@.len(),
            forall|j: int| 0 <= j < i ==> t@[j].0@ != k@,
            table_lookup(table_view(t@), k@) == table_lookup(
                table_view(t@).subrange(i as int, t@.len() as int),
                k@,
            ),
        decreases t@.len() - i,
    {
        if t[i].0 == *k {
            proof {
                assert(table_view(t@).subrange(i as int, t@.len() as int)[0] == (t@[i as int].0@, t@[i as int].1 as int));
            }
            return Some(t[i].1);
        }
        proof {
            let tv = table_view(t@);
            assert(tv.subrange(i as int, tv.len() as int).drop_first() =~= tv.subrange(
                i + 1 as int,
                tv.len() as int,
            ));
        }
        i = i + 1;
    }
    proof {
        assert(table_view(t@).subrange(t@.len() as int, t@.len() as int) =~= Seq::empty());
    }
    None
}

/// The label pass: walks the lines once, counting instructions and recording
/// each label at the current count; a repeated label is the error.
fn label_table(lines: &Vec<E2<AsmInst, Label>>) -> (r: Result<Vec<(String, usize)>, String>)
    requires
        lines@.len() <= 0x10000000,
    ensures
        match r {
            Result::Ok(t) => spec_label_table(lines_view(lines@), 0, 0, Seq::empty())
                == Result::<_, Seq<char>>::Ok(table_view(t@)) && forall|j: int|
                0 <= j < t@.len() ==> #[trigger] t@[j].1 <= lines@.len(),
            Result::Err(e) => spec_label_table(lines_view(lines@), 0, 0, Seq::empty())
                == Result::<Seq<(Seq<char>, int)>, _>::Err(e@),
        },
{
    let ghost ls = lines_view(lines@);
    let mut table: Vec<(String, usize)> = Vec::new();
    proof {
        assert(table_view(table@) =~= Seq::<(Seq<char>, int)>::empty());
    }
    let mut pc: usize = 0;
    let mut i: usize = 0;
    while i < lines.len()
        invariant
            0 <= i <= lines@.len() <= 0x10000000,
            pc <= i,
            ls == lines_view(lines@),
            ls.len() == lines@.len(),
            spec_label_table(ls, 0, 0, Seq::empty()) == spec_label_table(
                ls,
                i as int,
                pc as int,
                table_view(table@),
            ),
            forall|j: int| 0 <= j < table@.len() ==> #[trigger] table@[j].1 <= pc,
        decreases lines@.len() - i,
    {
        proof {
            assert(ls[i as int] == line_view_of(lines@[i as int]));
        }
        match &lines[i] {
            E2::B(l) => {
                match table_get(&table, &l.0) {
                    Some(_) => {
                        let name = clone_string(&l.0);
                        return Err(name);
                    },
                    None => {
                        let ghost old_tv = table_view(table@);
                        let name = clone_string(&l.0);
                        table.push((name, pc));
                        proof {
                            assert(table_view(table@) =~= old_tv.push((l.0@, pc as int)));
                        }
                    },
                }
            },
            E2::A(_) => {
                pc = pc + 1;
            },
        }
        i = i + 1;
    }
    Ok(table)
}

/// What one parsed line holds; the view `lines_view` applies to each line.
pub open spec fn line_view_of(e: E2<AsmInst, Label>) -> LineV {
    parser::line_view(Option::Some(e))
}

/// Copies a string.
fn clone_string(s: &String) -> (r: String)
    ensures
        r@ == s@,
{
    s.clone()
}

/// The variable pass: allocates addresses from 16 up to the symbols that
/// name no label and were not seen before. Nothing is pre-seeded: the
/// conventional Hack register names are ordinary symbols here.
fn var_table(lines: &Vec<E2<AsmInst, Label>>, labels: &Vec<(String, usize)>) -> (r: Vec<
    (String, usize),
>)
    requires
        lines@.len() <= 0x10000000,
    ensures
        table_view(r@) == spec_var_table(
            lines_view(lines@),
            0,
            table_view(labels@),
            16,
            Seq::empty(),
        ),
        forall|j: int| 0 <= j < r@.len() ==> #[trigger] r@[j].1 <= 16 + lines@.len(),
{
    let ghost ls = lines_view(lines@);
    let mut table: Vec<(String, usize)> = Vec::new();
    proof {
        assert(table_view(table@) =~= Seq::<(Seq<char>, int)>::empty());
    }
    let mut next: usize = 16;
    let mut i: usize = 0;
    while i < lines.len()
        invariant
            0 <= i <= lines@.len() <= 0x10000000,
            next <= 16 + i,
            ls == lines_view(lines@),
            ls.len() == lines@.len(),
            spec_var_table(ls, 0, table_view(labels@), 16, Seq::empty()) == spec_var_table(
                ls,
                i as int,
                table_view(labels@),
                next as int,
                table_view(table@),
            ),
            forall|j: int| 0 <= j < table@.len() ==> #[trigger] table@[j].1 < next,
        decreases lines@.len() - i,
    {
        proof {
            assert(ls[i as int] == line_view_of(lines@[i as int]));
        }
        match &lines[i] {
            E2::A(AsmInst::A(A::Var(v))) => {
                let in_labels = table_get(labels, v);
                let in_table = table_get(&table, v);
                if in_labels.is_none() && in_table.is_none() {
                    let ghost old_tv = table_view(table@);
                    let name = clone_string(v);
                    table.push((name, next));
                    proof {
                        assert(table_view(table@) =~= old_tv.push((v@, next as int)));
                    }
                    next = next + 1;
                }
            },
            _ => {},
        }
        i = i + 1;
    }
    table
}

/// The emit pass: every instruction-bearing line becomes an instruction,
/// symbols replaced by their addresses.
fn resolve(lines: &Vec<E2<AsmInst, Label>>, table: &Vec<(String, usize)>) -> (r: Vec<Instruction>)
    requires
        forall|j: int|
            0 <= j < table@.len() ==> #[trigger] table@[j].1 <= 0x10000000 + 16 + 32768,
    ensures
        r@ == spec_resolve(lines_view(lines@), 0, table_view(table@)),
    decreases lines@.len(),
{
    let ghost ls = lines_view(lines@);
    let mut out: Vec<Instruction> = Vec::new();
    let mut i: usize = lines.len();
    while i > 0
        invariant
            0 <= i <= lines@.len(),
            ls == lines_view(lines@),
            ls.len() == lines@.len(),
            forall|j: int|
                0 <= j < table@.len() ==> #[trigger] table@[j].1 <= 0x10000000 + 16 + 32768,
            out@ == spec_resolve(ls, i as int, table_view(table@)),
        decreases i,
    {
        i = i - 1;
        proof {
            assert(ls[i as int] == line_view_of(lines@[i as int]));
        }
        match &lines[i] {
            E2::A(AsmInst::A(A::Const(c))) => {
                out.insert(0, Instruction::A(*c));
            },
            E2::A(AsmInst::A(A::Var(v))) => {
                match table_get(table, v) {
                    Some(addr) => {
                        proof {
                            lemma_lookup_bounded(table_view(table@), v@, table@);
                        }
                        out.insert(0, Instruction::A(addr as i32));
                    },
                    None => {},
                }
            },
            E2::A(AsmInst::C(c)) => {
                out.insert(0, Instruction::C(*c));
            },
            E2::B(_) => {},
        }
        proof {
            assert(out@ =~= spec_resolve(ls, i as int, table_view(table@)));
        }
    }
    out
}

/// Whatever the lookup returns was recorded, so it carries a recorded bound.
proof fn lemma_lookup_bounded(tv: Seq<(Seq<char>, int)>, k: Seq<char>, t: Seq<(String, usize)>)
    requires
        tv == table_view(t),
        forall|j: int| 0 <= j < t.len() ==> #[trigger] t[j].1 <= 0x10000000 + 16 + 32768,
        table_lookup(tv, k) is Some,
    ensures
        0 <= table_lookup(tv, k)->Some_0 <= 0x10000000 + 16 + 32768,
{
    lemma_lookup_in_range(tv, k);
    let j = choose|j: int|
        0 <= j < tv.len() && #[trigger] tv[j].1 == table_lookup(tv, k)->Some_0;
    assert(tv[j].1 == t[j].1 as int);
}

/// A found address is one of the table's entries.
proof fn lemma_lookup_in_range(tv: Seq<(Seq<char>, int)>, k: Seq<char>)
    requires
        table_lookup(tv, k) is Some,
    ensures
        exists|j: int|
            0 <= j < tv.len() && #[trigger] tv[j].1 == table_lookup(tv, k)->Some_0,
    decreases tv.len(),
{
    if tv.len() > 0 {
        if tv[0].0 == k {
            assert(tv[0].1 == table_lookup(tv, k)->Some_0);
        } else {
            lemma_lookup_in_range(tv.drop_first(), k);
            let j = choose|j: int|
                0 <= j < tv.drop_first().len() && #[trigger] tv.drop_first()[j].1 == table_lookup(
                    tv.drop_first(),
                    k,
                )->Some_0;
            assert(tv[j + 1].1 == table_lookup(tv, k)->Some_0);
        }
    }
}

/// Assembles a source text: parse it, build the label and variable tables,
/// resolve every symbol and encode every instruction as a machine word.
/// On failure the error is one of the parser's two strings, or the name of
/// a label that was defined twice; an unresolved symbol cannot occur, since
/// the variable pass allocates an address for every symbol that names no
/// label.
///
/// No symbol is predefined: the conventional Hack names (`SP`, `LCL`,
/// `ARG`, `THIS`, `THAT`, `R0` through `R15`, `SCREEN`, `KBD`) are not
/// seeded into any table, so a source that uses `SP` as a variable gets
/// address 16, not 0.
pub fn assemble(code: &str) -> (r: Result<Vec<Bus16>, String>)
    requires
        code@.len() <= 0x10000000,
    ensures
        r is Ok <==> (parser::spec_lines(code@, 0).1 == code@.len() && spec_label_table(
            parser::spec_lines(code@, 0).0,
            0,
            0,
            Seq::empty(),
        ) is Ok),
        r is Ok ==> {
            let ls = parser::spec_lines(code@, 0).0;
            let lt = spec_label_table(ls, 0, 0, Seq::empty())->Ok_0;
            let full = lt + spec_var_table(ls, 0, lt, 16, Seq::empty());
            let insts = spec_resolve(ls, 0, full);
            &&& r->Ok_0@.len() == insts.len()
            &&& forall|j: int| 0 <= j < insts.len() ==> encodes(#[trigger] r->Ok_0@[j], insts[j])
        },
        r is Err ==> r->Err_0@ == if parser::spec_lines(code@, 0).1 != code@.len() {
            if parser::spec_lines(code@, 0).1 == 0 {
                "failed to parse"@
            } else {
                "character remains"@
            }
        } else {
            spec_label_table(parser::spec_lines(code@, 0).0, 0, 0, Seq::empty())->Err_0
        },
{
    let lines = match parser::parse(code) {
        Ok(v) => v,
        Err(e) => {
            return Err(e);
        },
    };
    proof {
        parser::lemma_lines_count(code@, 0);
        assert(lines@.len() == lines_view(lines@).len());
    }
    let labels = match label_table(&lines) {
        Ok(t) => t,
        Err(e) => {
            return Err(e);
        },
    };
    let vars = var_table(&lines, &labels);
    let ghost labels0 = labels@;
    let mut full = labels;
    let mut k: usize = 0;
    let ghost tvt = table_view(labels0) + table_view(vars@);
    proof {
        assert(table_view(full@) =~= tvt.subrange(0, labels0.len() as int));
    }
    while k < vars.len()
        invariant
            0 <= k <= vars@.len(),
            full@.len() == labels0.len() + k,
            tvt == table_view(labels0) + table_view(vars@),
            tvt.len() == labels0.len() + vars@.len(),
            table_view(full@) == tvt.subrange(0, labels0.len() + k),
            lines@.len() <= 0x10000000,
            forall|q: int| 0 <= q < vars@.len() ==> #[trigger] vars@[q].1 <= 16 + lines@.len(),
            forall|q: int|
                0 <= q < full@.len() ==> #[trigger] full@[q].1 <= 0x10000000 + 16 + 32768,
        decreases vars@.len() - k,
    {
        let ghost old_tv = table_view(full@);
        let entry_name = clone_string(&vars[k].0);
        let entry_addr = vars[k].1;
        full.push((entry_name, entry_addr));
        proof {
            assert(table_view(full@) =~= old_tv.push((vars@[k as int].0@, vars@[k as int].1 as int)));
            assert(tvt[labels0.len() + k] == (vars@[k as int].0@, vars@[k as int].1 as int));
            assert(table_view(full@) =~= tvt.subrange(0, labels0.len() + k + 1));
        }
        k = k + 1;
    }
    proof {
        assert(table_view(full@) =~= tvt);
    }
    let insts = resolve(&lines, &full);
    let mut words: Vec<Bus16> = Vec::new();
    let mut j: usize = 0;
    while j < insts.len()
        invariant
            0 <= j <= insts@.len(),
            words@.len() == j,
            forall|q: int| 0 <= q < j ==> encodes(#[trigger] words@[q], insts@[q]),
        decreases insts@.len() - j,
    {
        let w = insts[j].bus16();
        words.push(w);
        j = j + 1;
    }
    Ok(words)
}


} // verus!
