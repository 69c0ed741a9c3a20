use vstd::prelude::*;

use crate::execution::{
    at, cm, lemma_run_pop_stack, lemma_run_push_stack, lemma_text_pop_stack,
    lemma_text_push_stack, lemma_word_id, pop_stack_code, push_stack_code,
};
use crate::instruction::LogicalIns;
use crate::machine::{
    AsmLine, Cmd, MState, Sym, lemma_render_append, lemma_run_append, render, run, word,
};
use crate::translator::{
    COMPARE_OPERANDS, cmp_jump, cmp_text, end_label, is_comparison,
    true_label,
};

verus! {

pub open spec fn jump_cmd(k: LogicalIns) -> Cmd {
    match k {
        LogicalIns::Eq => Cmd::JeqD,
        LogicalIns::Gt => Cmd::JgtD,
        _ => Cmd::JltD,
    }
}

/// Whether a comparison of kind `k` holds of the difference `below - top`.
pub open spec fn holds(k: LogicalIns, diff: int) -> bool {
    match k {
        LogicalIns::Eq => diff == 0,
        LogicalIns::Gt => diff > 0,
        _ => diff < 0,
    }
}

pub open spec fn compare_operands_code() -> Seq<AsmLine> {
    seq![at(Sym::SP), cm(Cmd::DecM), cm(Cmd::AFromM), cm(Cmd::DFromMMinusD)]
}

/// Pops both operands, leaves `below - top` in D and branches to `t` where
/// the comparison holds.
pub open spec fn cmp_head_code(k: LogicalIns, t: Seq<char>) -> Seq<AsmLine> {
    pop_stack_code() + compare_operands_code() + seq![at(Sym::Name(t)), cm(jump_cmd(k))]
}

/// Pushes false and jumps to `e`.
pub open spec fn cmp_false_code(e: Seq<char>) -> Seq<AsmLine> {
    seq![cm(Cmd::DZero)] + push_stack_code() + seq![at(Sym::Name(e)), cm(Cmd::Jmp)]
}

/// At `t`: pushes true, then reaches `e`.
pub open spec fn cmp_true_code(t: Seq<char>, e: Seq<char>) -> Seq<AsmLine> {
    seq![AsmLine::Label(t), cm(Cmd::DMinusOne)] + push_stack_code() + seq![AsmLine::Label(e)]
}

/// The machine reading of comparison number `n` of kind `k` in module `m`.
pub open spec fn cmp_code(m: Seq<char>, k: LogicalIns, n: nat) -> Seq<AsmLine> {
    cmp_head_code(k, true_label(m, k, n)) + cmp_false_code(end_label(m, k, n)) + cmp_true_code(
        true_label(m, k, n),
        end_label(m, k, n),
    )
}

proof fn lemma_text_compare_operands()
    ensures
        render(compare_operands_code()) == COMPARE_OPERANDS@,
{
    reveal_strlit("@SP\nM=M-1\nA=M\nD=M-D\n");
    reveal_strlit("@");
    reveal_strlit("\n");
    reveal_strlit("SP");
    reveal_strlit("M=M-1");
    reveal_strlit("A=M");
    reveal_strlit("D=M-D");
    reveal_with_fuel(render, 5);
    assert(render(compare_operands_code()) =~= COMPARE_OPERANDS@);
}

#[verifier::rlimit(60)]
proof fn lemma_text_cmp(m: Seq<char>, k: LogicalIns, n: nat)
    requires
        is_comparison(k),
    ensures
        render(cmp_code(m, k, n)) == cmp_text(m, k, n),
{
    let t = true_label(m, k, n);
    let e = end_label(m, k, n);
    let b0 = pop_stack_code();
    let b1 = compare_operands_code();
    let b2 = seq![at(Sym::Name(t)), cm(jump_cmd(k))];
    let b3 = seq![cm(Cmd::DZero)];
    let b4 = push_stack_code();
    let b5 = seq![at(Sym::Name(e)), cm(Cmd::Jmp)];
    let b6 = seq![AsmLine::Label(t), cm(Cmd::DMinusOne)];
    let b7 = push_stack_code();
    let b8 = seq![AsmLine::Label(e)];
    lemma_text_pop_stack();
    lemma_text_compare_operands();
    lemma_text_push_stack();
    reveal_strlit("\n");
    reveal_strlit("D;JEQ");
    reveal_strlit("D;JGT");
    reveal_strlit("D;JLT");
    reveal_strlit("D;JEQ\n");
    reveal_strlit("D;JGT\n");
    reveal_strlit("D;JLT\n");
    reveal_strlit("D=0");
    reveal_strlit("D=0\n");
    reveal_strlit("0;JMP");
    reveal_strlit("\n0;JMP\n");
    reveal_strlit("D=-1");
    reveal_strlit("D=-1\n");
    reveal_strlit("(");
    reveal_strlit(")\n");
    reveal_with_fuel(render, 3);
    assert(render(b2) =~= "@"@ + t + "\n"@ + cmp_jump(k));
    assert(render(b3) =~= "D=0\n"@);
    assert(render(b5) =~= "@"@ + e + "\n0;JMP\n"@);
    assert(render(b6) =~= "("@ + t + ")\n"@ + "D=-1\n"@);
    assert(render(b8) =~= "("@ + e + ")\n"@);
    lemma_render_append(b0, b1);
    lemma_render_append(b0 + b1, b2);
    lemma_render_append(b0 + b1 + b2, b3);
    lemma_render_append(b0 + b1 + b2 + b3, b4);
    lemma_render_append(b0 + b1 + b2 + b3 + b4, b5);
    lemma_render_append(b0 + b1 + b2 + b3 + b4 + b5, b6);
    lemma_render_append(b0 + b1 + b2 + b3 + b4 + b5 + b6, b7);
    lemma_render_append(b0 + b1 + b2 + b3 + b4 + b5 + b6 + b7, b8);
    assert(cmp_code(m, k, n) =~= b0 + b1 + b2 + b3 + b4 + b5 + b6 + b7 + b8);
    assert(render(cmp_code(m, k, n)) =~= cmp_text(m, k, n));
}

proof fn lemma_run_cmp_head(names: Map<Seq<char>, int>, s: MState, k: LogicalIns, t: Seq<char>)
    requires
        s.jumped is None,
        18 <= s.ram[0] <= 32767,
        is_comparison(k),
    ensures
        ({
            let r = run(names, cmp_head_code(k, t), s);
            let sp = s.ram[0];
            let diff = word(s.ram[sp - 2] - s.ram[sp - 1]);
            &&& r.ram[0] == sp - 2
            &&& r.d == diff
            &&& r.a == names[t]
            &&& r.jumped == (if holds(k, diff) { Some(names[t]) } else { None::<int> })
            &&& forall|x: int| x != 0 ==> #[trigger] r.ram[x] == s.ram[x]
        }),
{
    let sp = s.ram[0];
    lemma_run_pop_stack(names, s);
    let s1 = run(names, pop_stack_code(), s);
    lemma_word_id(sp - 2);
    reveal_with_fuel(run, 5);
    let s2 = run(names, compare_operands_code(), s1);
    assert(s2.ram[0] == sp - 2);
    assert(s2.d == word(s.ram[sp - 2] - s.ram[sp - 1]));
    let s3 = run(names, seq![at(Sym::Name(t)), cm(jump_cmd(k))], s2);
    lemma_run_append(names, pop_stack_code(), compare_operands_code(), s);
    lemma_run_append(
        names,
        pop_stack_code() + compare_operands_code(),
        seq![at(Sym::Name(t)), cm(jump_cmd(k))],
        s,
    );
}

/// Comparison: with operands `below` and `top` on the stack, the code of a
/// comparison either branches to its true label, from where it pushes -1
/// (all bits set), or pushes 0 and branches to its end label. It branches to
/// the true label exactly where the comparison holds of the machine word
/// `below - top`. Either way one cell replaces the two operands.
pub proof fn lemma_comparison_result(
    names: Map<Seq<char>, int>,
    s: MState,
    m: Seq<char>,
    k: LogicalIns,
    n: nat,
)
    requires
        s.jumped is None,
        18 <= s.ram[0] <= 32767,
        is_comparison(k),
    ensures
        ({
            let sp = s.ram[0];
            let t = true_label(m, k, n);
            let e = end_label(m, k, n);
            let diff = word(s.ram[sp - 2] - s.ram[sp - 1]);
            let head = run(names, cmp_head_code(k, t), s);
            let on_false = run(names, cmp_head_code(k, t) + cmp_false_code(e), s);
            let on_true = run(names, cmp_true_code(t, e), MState { jumped: None, ..head });
            &&& render(cmp_code(m, k, n)) == cmp_text(m, k, n)
            &&& holds(k, diff) ==> head.jumped == Some(names[t]) && on_true.jumped is None
                && on_true.ram[0] == sp - 1 && on_true.ram[sp - 2] == -1
            &&& !holds(k, diff) ==> on_false.jumped == Some(names[e]) && on_false.ram[0] == sp
                - 1 && on_false.ram[sp - 2] == 0
        }),
{
    let sp = s.ram[0];
    let t = true_label(m, k, n);
    let e = end_label(m, k, n);
    lemma_text_cmp(m, k, n);
    lemma_run_cmp_head(names, s, k, t);
    let head = run(names, cmp_head_code(k, t), s);
    let diff = word(s.ram[sp - 2] - s.ram[sp - 1]);
    if holds(k, diff) {
        let h = MState { jumped: None, ..head };
        let b0 = seq![AsmLine::Label(t), cm(Cmd::DMinusOne)];
        reveal_with_fuel(run, 3);
        let h1 = run(names, b0, h);
        assert(h1 == MState { d: -1, ..h });
        lemma_run_push_stack(names, h1);
        let h2 = run(names, push_stack_code(), h1);
        let h3 = run(names, seq![AsmLine::Label(e)], h2);
        assert(h3 == h2);
        lemma_run_append(names, b0, push_stack_code(), h);
        lemma_run_append(names, b0 + push_stack_code(), seq![AsmLine::Label(e)], h);
    } else {
        let f0 = seq![cm(Cmd::DZero)];
        let f2 = seq![at(Sym::Name(e)), cm(Cmd::Jmp)];
        reveal_with_fuel(run, 3);
        let g1 = run(names, f0, head);
        assert(g1 == MState { d: 0, ..head });
        lemma_run_push_stack(names, g1);
        let g2 = run(names, push_stack_code(), g1);
        let g3 = run(names, f2, g2);
        assert(g3.jumped == Some(names[e]));
        lemma_run_append(names, f0, push_stack_code(), head);
        lemma_run_append(names, f0 + push_stack_code(), f2, head);
        lemma_run_append(names, cmp_head_code(k, t), cmp_false_code(e), s);
    }
}

} // verus!
