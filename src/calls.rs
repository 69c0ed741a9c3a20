use vstd::prelude::*;

use crate::decimal::{int_text, nat_text};
use crate::execution::{
    at, cm, lemma_run_pop_stack, lemma_run_push_constant, lemma_run_push_stack,
    lemma_text_pop_stack, lemma_text_push_constant, lemma_text_push_stack, lemma_word_id,
    pop_stack_code, push_constant_code, push_stack_code, stack_ok,
};
use crate::machine::{
    AsmLine, Cmd, MState, Sym, lemma_render_append, lemma_run_append, render, run, sym_value,
};
use crate::translator::{
    FRAME_TO_R13, JUMP_TO_R14, LOAD_ARG, LOAD_LCL, LOAD_THAT, LOAD_THIS, PUSH_STACK, PUSH_ZERO,
    REPOSITION, RESTORE_ARG, RESTORE_LCL, RESTORE_THAT, RESTORE_THIS, RESULT_TO_ARG,
    RETURN_ADDRESS_TO_R14, call_text, def_func_text, label_text, push_zeros, return_label,
    return_text, save_frame_text,
};

verus! {

/// `@sym`, `D=M`.
pub open spec fn load_cell_code(r: Sym) -> Seq<AsmLine> {
    seq![at(r), cm(Cmd::DFromM)]
}

/// Pushes the value of register `r`.
pub open spec fn push_register_code(r: Sym) -> Seq<AsmLine> {
    load_cell_code(r) + push_stack_code()
}

pub open spec fn save_frame_code() -> Seq<AsmLine> {
    push_register_code(Sym::LCL) + push_register_code(Sym::ARG) + push_register_code(Sym::THIS)
        + push_register_code(Sym::THAT)
}

pub open spec fn reposition_code() -> Seq<AsmLine> {
    seq![
        at(Sym::SP),
        cm(Cmd::DFromMMinusD),
        at(Sym::ARG),
        cm(Cmd::MFromD),
        at(Sym::SP),
        cm(Cmd::DFromM),
        at(Sym::LCL),
        cm(Cmd::MFromD),
    ]
}

/// The machine reading of `call f n` as call site `c`.
pub open spec fn call_code(f: Seq<char>, n: nat, c: nat) -> Seq<AsmLine> {
    seq![at(Sym::Name(return_label(c))), cm(Cmd::DFromA)] + push_stack_code() + save_frame_code()
        + seq![at(Sym::Num(n + 5)), cm(Cmd::DFromA)] + reposition_code() + seq![
        at(Sym::Name(f)),
        cm(Cmd::Jmp),
    ] + seq![AsmLine::Label(return_label(c))]
}

pub open spec fn push_zeros_code(k: nat) -> Seq<AsmLine>
    decreases k,
{
    if k == 0 {
        seq![]
    } else {
        push_zeros_code((k - 1) as nat) + push_constant_code(0)
    }
}

/// The machine reading of `function f m`.
pub open spec fn function_code(f: Seq<char>, m: nat) -> Seq<AsmLine> {
    seq![AsmLine::Label(f)] + push_zeros_code(m)
}

/// Copies the frame cell `k` below the frame pointer in R13 to register `r`.
pub open spec fn restore_code(k: nat, r: Sym) -> Seq<AsmLine> {
    seq![
        at(Sym::Num(k)),
        cm(Cmd::DFromA),
        at(Sym::R13),
        cm(Cmd::AFromMMinusD),
        cm(Cmd::DFromM),
        at(r),
        cm(Cmd::MFromD),
    ]
}

pub open spec fn frame_to_r13_code() -> Seq<AsmLine> {
    seq![at(Sym::LCL), cm(Cmd::DFromM), at(Sym::R13), cm(Cmd::MFromD)]
}

pub open spec fn return_address_code() -> Seq<AsmLine> {
    seq![
        at(Sym::Num(5)),
        cm(Cmd::DFromA),
        at(Sym::R13),
        cm(Cmd::AFromMMinusD),
        cm(Cmd::DFromM),
        at(Sym::R14),
        cm(Cmd::MFromD),
    ]
}

pub open spec fn result_to_arg_code() -> Seq<AsmLine> {
    seq![
        at(Sym::ARG),
        cm(Cmd::AFromM),
        cm(Cmd::MFromD),
        cm(Cmd::DFromAPlusOne),
        at(Sym::SP),
        cm(Cmd::MFromD),
    ]
}

pub open spec fn jump_to_r14_code() -> Seq<AsmLine> {
    seq![at(Sym::R14), cm(Cmd::AFromM), cm(Cmd::Jmp)]
}

/// The machine reading of `return`.
pub open spec fn return_code() -> Seq<AsmLine> {
    frame_to_r13_code() + return_address_code() + pop_stack_code() + result_to_arg_code()
        + restore_code(1, Sym::THAT) + restore_code(2, Sym::THIS) + restore_code(3, Sym::ARG)
        + restore_code(4, Sym::LCL) + jump_to_r14_code()
}

// ----- the text of each block -----

proof fn lemma_text_save_frame()
    ensures
        render(save_frame_code()) == save_frame_text(),
{
    reveal_strlit("@LCL\nD=M\n");
    reveal_strlit("@ARG\nD=M\n");
    reveal_strlit("@THIS\nD=M\n");
    reveal_strlit("@THAT\nD=M\n");
    reveal_strlit("@");
    reveal_strlit("\n");
    reveal_strlit("LCL");
    reveal_strlit("ARG");
    reveal_strlit("THIS");
    reveal_strlit("THAT");
    reveal_strlit("D=M");
    reveal_with_fuel(render, 3);
    lemma_text_push_stack();
    assert(render(load_cell_code(Sym::LCL)) =~= LOAD_LCL@);
    assert(render(load_cell_code(Sym::ARG)) =~= LOAD_ARG@);
    assert(render(load_cell_code(Sym::THIS)) =~= LOAD_THIS@);
    assert(render(load_cell_code(Sym::THAT)) =~= LOAD_THAT@);
    lemma_render_append(load_cell_code(Sym::LCL), push_stack_code());
    lemma_render_append(load_cell_code(Sym::ARG), push_stack_code());
    lemma_render_append(load_cell_code(Sym::THIS), push_stack_code());
    lemma_render_append(load_cell_code(Sym::THAT), push_stack_code());
    let push_lcl = push_register_code(Sym::LCL);
    let push_arg = push_register_code(Sym::ARG);
    let push_this = push_register_code(Sym::THIS);
    let push_that = push_register_code(Sym::THAT);
    lemma_render_append(push_lcl, push_arg);
    lemma_render_append(push_lcl + push_arg, push_this);
    lemma_render_append(push_lcl + push_arg + push_this, push_that);
    assert(render(save_frame_code()) =~= save_frame_text());
}

proof fn lemma_text_reposition()
    ensures
        render(reposition_code()) == REPOSITION@,
{
    reveal_strlit("@SP\nD=M-D\n@ARG\nM=D\n@SP\nD=M\n@LCL\nM=D\n");
    reveal_strlit("@");
    reveal_strlit("\n");
    reveal_strlit("SP");
    reveal_strlit("ARG");
    reveal_strlit("LCL");
    reveal_strlit("D=M-D");
    reveal_strlit("M=D");
    reveal_strlit("D=M");
    reveal_with_fuel(render, 9);
    assert(render(reposition_code()) =~= REPOSITION@);
}

/// The text of `call f n` as call site `c` reads as `call_code`.
#[verifier::rlimit(60)]
pub proof fn lemma_text_call(f: Seq<char>, n: nat, c: nat)
    requires
        n + 5 <= 32767,
    ensures
        render(call_code(f, n, c)) == call_text(f, n as i16, c),
{
    let b0 = seq![at(Sym::Name(return_label(c))), cm(Cmd::DFromA)];
    let b1 = push_stack_code();
    let b2 = save_frame_code();
    let b3 = seq![at(Sym::Num(n + 5)), cm(Cmd::DFromA)];
    let b4 = reposition_code();
    let b5 = seq![at(Sym::Name(f)), cm(Cmd::Jmp)];
    let b6 = seq![AsmLine::Label(return_label(c))];
    lemma_text_push_stack();
    lemma_text_save_frame();
    lemma_text_reposition();
    reveal_strlit("\nD=A\n");
    reveal_strlit("\n0;JMP\n");
    reveal_strlit("\n");
    reveal_strlit("D=A");
    reveal_strlit("0;JMP");
    reveal_with_fuel(render, 3);
    assert(render(b0) =~= "@"@ + return_label(c) + "\nD=A\n"@);
    assert(render(b3) =~= "@"@ + nat_text(n + 5) + "\nD=A\n"@);
    assert(render(b5) =~= "@"@ + f + "\n0;JMP\n"@);
    assert(render(b6) =~= label_text(return_label(c)));
    lemma_render_append(b0, b1);
    lemma_render_append(b0 + b1, b2);
    lemma_render_append(b0 + b1 + b2, b3);
    lemma_render_append(b0 + b1 + b2 + b3, b4);
    lemma_render_append(b0 + b1 + b2 + b3 + b4, b5);
    lemma_render_append(b0 + b1 + b2 + b3 + b4 + b5, b6);
    assert(int_text((n as i16) + 5) == nat_text(n + 5));
    assert(render(call_code(f, n, c)) =~= call_text(f, n as i16, c));
}

proof fn lemma_text_push_zeros(k: nat)
    ensures
        render(push_zeros_code(k)) == push_zeros(k),
    decreases k,
{
    if k > 0 {
        lemma_text_push_zeros((k - 1) as nat);
        lemma_text_push_constant(0);
        lemma_render_append(push_zeros_code((k - 1) as nat), push_constant_code(0));
        reveal_strlit("@0\nD=A\n");
        reveal_strlit("\nD=A\n");
        reveal_strlit("0");
        reveal_strlit("@");
        assert(nat_text(0) =~= "0"@);
        assert("@"@ + nat_text(0) + "\nD=A\n"@ =~= PUSH_ZERO@);
        assert(push_zeros(k) =~= push_zeros((k - 1) as nat) + (PUSH_ZERO@ + PUSH_STACK@));
    }
}

/// The text of `function f m` reads as `function_code`.
pub proof fn lemma_text_function(f: Seq<char>, m: nat)
    requires
        m <= 32767,
    ensures
        render(function_code(f, m)) == def_func_text(f, m as i16),
{
    lemma_text_push_zeros(m);
    lemma_render_append(seq![AsmLine::Label(f)], push_zeros_code(m));
    reveal_with_fuel(render, 2);
    assert(render(seq![AsmLine::Label(f)]) =~= label_text(f));
}

proof fn lemma_text_frame_to_r13()
    ensures
        render(frame_to_r13_code()) == FRAME_TO_R13@,
{
    reveal_strlit("@LCL\nD=M\n@R13\nM=D\n");
    reveal_strlit("LCL");
    reveal_strlit("R13");
    reveal_strlit("D=M");
    reveal_strlit("M=D");
    reveal_strlit("@");
    reveal_strlit("\n");
    reveal_with_fuel(render, 8);
    assert(render(frame_to_r13_code()) =~= FRAME_TO_R13@);
}

proof fn lemma_text_return_address()
    ensures
        render(return_address_code()) == RETURN_ADDRESS_TO_R14@,
{
    reveal_strlit("@5\nD=A\n@R13\nA=M-D\nD=M\n@R14\nM=D\n");
    reveal_strlit("R13");
    reveal_strlit("R14");
    reveal_strlit("D=A");
    reveal_strlit("A=M-D");
    reveal_strlit("D=M");
    reveal_strlit("M=D");
    reveal_strlit("@");
    reveal_strlit("\n");
    reveal_with_fuel(render, 8);
    reveal_with_fuel(nat_text, 2);
    assert(render(return_address_code()) =~= RETURN_ADDRESS_TO_R14@);
}

proof fn lemma_text_result_to_arg()
    ensures
        render(result_to_arg_code()) == RESULT_TO_ARG@,
{
    reveal_strlit("@ARG\nA=M\nM=D\nD=A+1\n@SP\nM=D\n");
    reveal_strlit("ARG");
    reveal_strlit("SP");
    reveal_strlit("A=M");
    reveal_strlit("M=D");
    reveal_strlit("D=A+1");
    reveal_strlit("@");
    reveal_strlit("\n");
    reveal_with_fuel(render, 8);
    assert(render(result_to_arg_code()) =~= RESULT_TO_ARG@);
}

proof fn lemma_text_restore_that()
    ensures
        render(restore_code(1, Sym::THAT)) == RESTORE_THAT@,
{
    reveal_strlit("@1\nD=A\n@R13\nA=M-D\nD=M\n@THAT\nM=D\n");
    reveal_strlit("THAT");
    reveal_strlit("R13");
    reveal_strlit("D=A");
    reveal_strlit("A=M-D");
    reveal_strlit("D=M");
    reveal_strlit("M=D");
    reveal_strlit("@");
    reveal_strlit("\n");
    reveal_with_fuel(render, 8);
    reveal_with_fuel(nat_text, 2);
    assert(render(restore_code(1, Sym::THAT)) =~= RESTORE_THAT@);
}

proof fn lemma_text_restore_this()
    ensures
        render(restore_code(2, Sym::THIS)) == RESTORE_THIS@,
{
    reveal_strlit("@2\nD=A\n@R13\nA=M-D\nD=M\n@THIS\nM=D\n");
    reveal_strlit("THIS");
    reveal_strlit("R13");
    reveal_strlit("D=A");
    reveal_strlit("A=M-D");
    reveal_strlit("D=M");
    reveal_strlit("M=D");
    reveal_strlit("@");
    reveal_strlit("\n");
    reveal_with_fuel(render, 8);
    reveal_with_fuel(nat_text, 2);
    assert(render(restore_code(2, Sym::THIS)) =~= RESTORE_THIS@);
}

proof fn lemma_text_restore_arg()
    ensures
        render(restore_code(3, Sym::ARG)) == RESTORE_ARG@,
{
    reveal_strlit("@3\nD=A\n@R13\nA=M-D\nD=M\n@ARG\nM=D\n");
    reveal_strlit("ARG");
    reveal_strlit("R13");
    reveal_strlit("D=A");
    reveal_strlit("A=M-D");
    reveal_strlit("D=M");
    reveal_strlit("M=D");
    reveal_strlit("@");
    reveal_strlit("\n");
    reveal_with_fuel(render, 8);
    reveal_with_fuel(nat_text, 2);
    assert(render(restore_code(3, Sym::ARG)) =~= RESTORE_ARG@);
}

proof fn lemma_text_restore_lcl()
    ensures
        render(restore_code(4, Sym::LCL)) == RESTORE_LCL@,
{
    reveal_strlit("@4\nD=A\n@R13\nA=M-D\nD=M\n@LCL\nM=D\n");
    reveal_strlit("LCL");
    reveal_strlit("R13");
    reveal_strlit("D=A");
    reveal_strlit("A=M-D");
    reveal_strlit("D=M");
    reveal_strlit("M=D");
    reveal_strlit("@");
    reveal_strlit("\n");
    reveal_with_fuel(render, 8);
    reveal_with_fuel(nat_text, 2);
    assert(render(restore_code(4, Sym::LCL)) =~= RESTORE_LCL@);
}

proof fn lemma_text_jump_to_r14()
    ensures
        render(jump_to_r14_code()) == JUMP_TO_R14@,
{
    reveal_strlit("@R14\nA=M\n0;JMP\n");
    reveal_strlit("R14");
    reveal_strlit("A=M");
    reveal_strlit("0;JMP");
    reveal_strlit("@");
    reveal_strlit("\n");
    reveal_with_fuel(render, 8);
    assert(render(jump_to_r14_code()) =~= JUMP_TO_R14@);
}

/// The text of `return` reads as `return_code`.
pub proof fn lemma_text_return()
    ensures
        render(return_code()) == return_text(),
{
    lemma_text_frame_to_r13();
    lemma_text_return_address();
    lemma_text_result_to_arg();
    lemma_text_restore_that();
    lemma_text_restore_this();
    lemma_text_restore_arg();
    lemma_text_restore_lcl();
    lemma_text_jump_to_r14();
    lemma_text_pop_stack();
    let b0 = frame_to_r13_code();
    let b1 = return_address_code();
    let b2 = pop_stack_code();
    let b3 = result_to_arg_code();
    let b4 = restore_code(1, Sym::THAT);
    let b5 = restore_code(2, Sym::THIS);
    let b6 = restore_code(3, Sym::ARG);
    let b7 = restore_code(4, Sym::LCL);
    let b8 = jump_to_r14_code();
    lemma_render_append(b0, b1);
    lemma_render_append(b0 + b1, b2);
    lemma_render_append(b0 + b1 + b2, b3);
    lemma_render_append(b0 + b1 + b2 + b3, b4);
    lemma_render_append(b0 + b1 + b2 + b3 + b4, b5);
    lemma_render_append(b0 + b1 + b2 + b3 + b4 + b5, b6);
    lemma_render_append(b0 + b1 + b2 + b3 + b4 + b5 + b6, b7);
    lemma_render_append(b0 + b1 + b2 + b3 + b4 + b5 + b6 + b7, b8);
}

// ----- what each block does -----

/// A register that holds a pointer: SP, LCL, ARG, THIS or THAT.
pub open spec fn is_pointer_register(r: Sym) -> bool {
    r is SP || r is LCL || r is ARG || r is THIS || r is THAT
}

proof fn lemma_run_push_register(names: Map<Seq<char>, int>, s: MState, r: Sym)
    requires
        stack_ok(s, 1),
        is_pointer_register(r),
    ensures
        run(names, push_register_code(r), s) == (MState {
            ram: s.ram.insert(s.ram[0], s.ram[sym_value(names, r)]).insert(0, s.ram[0] + 1),
            a: 0,
            d: s.ram[sym_value(names, r)],
            jumped: None,
        }),
{
    reveal_with_fuel(run, 3);
    let s1 = run(names, load_cell_code(r), s);
    assert(s1 == MState { a: sym_value(names, r), d: s.ram[sym_value(names, r)], ..s });
    lemma_run_append(names, load_cell_code(r), push_stack_code(), s);
    lemma_run_push_stack(names, s1);
}

proof fn lemma_run_save_frame(names: Map<Seq<char>, int>, s: MState)
    requires
        stack_ok(s, 4),
    ensures
        ({
            let r = run(names, save_frame_code(), s);
            let sp = s.ram[0];
            &&& r.jumped is None
            &&& r.ram[0] == sp + 4
            &&& r.ram[sp] == s.ram[1]
            &&& r.ram[sp + 1] == s.ram[2]
            &&& r.ram[sp + 2] == s.ram[3]
            &&& r.ram[sp + 3] == s.ram[4]
            &&& forall|x: int| 0 < x < sp ==> #[trigger] r.ram[x] == s.ram[x]
        }),
{
    let push_lcl = push_register_code(Sym::LCL);
    let push_arg = push_register_code(Sym::ARG);
    let push_this = push_register_code(Sym::THIS);
    let push_that = push_register_code(Sym::THAT);
    lemma_run_push_register(names, s, Sym::LCL);
    let s1 = run(names, push_lcl, s);
    lemma_run_push_register(names, s1, Sym::ARG);
    let s2 = run(names, push_arg, s1);
    lemma_run_push_register(names, s2, Sym::THIS);
    let s3 = run(names, push_this, s2);
    lemma_run_push_register(names, s3, Sym::THAT);
    lemma_run_append(names, push_lcl, push_arg, s);
    lemma_run_append(names, push_lcl + push_arg, push_this, s);
    lemma_run_append(names, push_lcl + push_arg + push_this, push_that, s);
}

proof fn lemma_run_reposition(names: Map<Seq<char>, int>, s: MState)
    requires
        s.jumped is None,
        -32768 <= s.ram[0] - s.d <= 32767,
    ensures
        run(names, reposition_code(), s) == (MState {
            ram: s.ram.insert(2, s.ram[0] - s.d).insert(1, s.ram[0]),
            a: 1,
            d: s.ram[0],
            jumped: None,
        }),
{
    lemma_word_id(s.ram[0] - s.d);
    reveal_with_fuel(run, 9);
}

/// Running the call block: the frame is saved above the arguments, ARG and
/// LCL are moved, and control goes to the callee.
proof fn lemma_run_call(names: Map<Seq<char>, int>, s: MState, f: Seq<char>, n: nat, c: nat)
    requires
        stack_ok(s, 5),
        n <= s.ram[0],
        n + 5 <= 32767,
    ensures
        ({
            let r = run(names, call_code(f, n, c), s);
            let sp = s.ram[0];
            &&& r.jumped == Some(names[f])
            &&& r.ram[0] == sp + 5
            &&& r.ram[1] == sp + 5
            &&& r.ram[2] == sp - n
            &&& r.ram[3] == s.ram[3]
            &&& r.ram[4] == s.ram[4]
            &&& r.ram[sp] == names[return_label(c)]
            &&& r.ram[sp + 1] == s.ram[1]
            &&& r.ram[sp + 2] == s.ram[2]
            &&& r.ram[sp + 3] == s.ram[3]
            &&& r.ram[sp + 4] == s.ram[4]
        }),
{
    let sp = s.ram[0];
    let b0 = seq![at(Sym::Name(return_label(c))), cm(Cmd::DFromA)];
    let b1 = push_stack_code();
    let b2 = save_frame_code();
    let b3 = seq![at(Sym::Num(n + 5)), cm(Cmd::DFromA)];
    let b4 = reposition_code();
    let b5 = seq![at(Sym::Name(f)), cm(Cmd::Jmp)];
    let b6 = seq![AsmLine::Label(return_label(c))];
    reveal_with_fuel(run, 3);
    let s0 = run(names, b0, s);
    assert(s0 == MState { a: names[return_label(c)], d: names[return_label(c)], ..s });
    lemma_run_push_stack(names, s0);
    let s1 = run(names, b1, s0);
    lemma_run_save_frame(names, s1);
    let s2 = run(names, b2, s1);
    assert(s2.ram[sp] == s1.ram[sp]);
    let s3 = run(names, b3, s2);
    assert(s3 == MState { a: (n + 5) as int, d: (n + 5) as int, ..s2 });
    lemma_run_reposition(names, s3);
    let s4 = run(names, b4, s3);
    let s5 = run(names, b5, s4);
    assert(s5.jumped == Some(names[f]));
    let s6 = run(names, b6, s5);
    assert(s6 == s5);
    lemma_run_append(names, b0, b1, s);
    lemma_run_append(names, b0 + b1, b2, s);
    lemma_run_append(names, b0 + b1 + b2, b3, s);
    lemma_run_append(names, b0 + b1 + b2 + b3, b4, s);
    lemma_run_append(names, b0 + b1 + b2 + b3 + b4, b5, s);
    lemma_run_append(names, b0 + b1 + b2 + b3 + b4 + b5, b6, s);
}

/// Running `k` pushes of zero moves the stack pointer up by `k` and leaves
/// every cell below the stack untouched.
proof fn lemma_run_push_zeros(names: Map<Seq<char>, int>, s: MState, k: nat)
    requires
        stack_ok(s, k as int),
    ensures
        ({
            let r = run(names, push_zeros_code(k), s);
            &&& r.jumped is None
            &&& r.ram[0] == s.ram[0] + k
            &&& forall|x: int| 0 < x < s.ram[0] ==> #[trigger] r.ram[x] == s.ram[x]
        }),
    decreases k,
{
    if k == 0 {
        assert(run(names, push_zeros_code(0), s) == s);
    } else {
        let k1 = (k - 1) as nat;
        lemma_run_push_zeros(names, s, k1);
        let s1 = run(names, push_zeros_code(k1), s);
        lemma_run_push_constant(names, s1, 0);
        lemma_run_append(names, push_zeros_code(k1), push_constant_code(0), s);
        let r = run(names, push_zeros_code(k), s);
        assert forall|x: int| 0 < x < s.ram[0] implies #[trigger] r.ram[x] == s.ram[x] by {
            assert(r.ram[x] == s1.ram[x]);
        }
    }
}

proof fn lemma_run_restore(names: Map<Seq<char>, int>, s: MState, k: nat, r: Sym)
    requires
        s.jumped is None,
        k <= 5,
        -32768 <= s.ram[13] - k <= 32767,
    ensures
        run(names, restore_code(k, r), s) == (MState {
            ram: s.ram.insert(sym_value(names, r), s.ram[s.ram[13] - k]),
            a: sym_value(names, r),
            d: s.ram[s.ram[13] - k],
            jumped: None,
        }),
{
    lemma_word_id(s.ram[13] - k);
    reveal_with_fuel(run, 8);
}

proof fn lemma_run_frame_to_r13(names: Map<Seq<char>, int>, t: MState)
    requires
        t.jumped is None,
    ensures
        run(names, frame_to_r13_code(), t) == (MState {
            ram: t.ram.insert(13, t.ram[1]),
            a: 13,
            d: t.ram[1],
            jumped: None,
        }),
{
    reveal_with_fuel(run, 5);
}

proof fn lemma_run_result_to_arg(names: Map<Seq<char>, int>, t: MState)
    requires
        t.jumped is None,
        -32768 <= t.ram[2] + 1 <= 32767,
    ensures
        run(names, result_to_arg_code(), t) == (MState {
            ram: t.ram.insert(t.ram[2], t.d).insert(0, t.ram[2] + 1),
            a: 0,
            d: t.ram[2] + 1,
            jumped: None,
        }),
{
    lemma_word_id(t.ram[2] + 1);
    reveal_with_fuel(run, 7);
}

/// The first half of `return`: frame pointer and return address kept, result
/// stored, stack pointer set.
pub open spec fn return_first_code() -> Seq<AsmLine> {
    frame_to_r13_code() + return_address_code() + pop_stack_code() + result_to_arg_code()
}

/// The second half of `return`: registers restored, jump back.
pub open spec fn return_second_code() -> Seq<AsmLine> {
    restore_code(1, Sym::THAT) + restore_code(2, Sym::THIS) + restore_code(3, Sym::ARG)
        + restore_code(4, Sym::LCL) + jump_to_r14_code()
}

#[verifier::rlimit(50)]
proof fn lemma_run_return_first(names: Map<Seq<char>, int>, t: MState)
    requires
        t.jumped is None,
        21 <= t.ram[1] <= t.ram[0] <= 32767,
        16 <= t.ram[2] <= t.ram[1] - 5,
    ensures
        ({
            let r = run(names, return_first_code(), t);
            let l = t.ram[1];
            let arg = t.ram[2];
            &&& r.jumped is None
            &&& r.ram[0] == arg + 1
            &&& r.ram[arg] == t.ram[t.ram[0] - 1]
            &&& r.ram[13] == l
            &&& r.ram[14] == t.ram[l - 5]
            &&& r.ram[l - 1] == t.ram[l - 1]
            &&& r.ram[l - 2] == t.ram[l - 2]
            &&& r.ram[l - 3] == t.ram[l - 3]
            &&& r.ram[l - 4] == t.ram[l - 4]
        }),
{
    let l = t.ram[1];
    let b0 = frame_to_r13_code();
    let b1 = return_address_code();
    let b2 = pop_stack_code();
    let b3 = result_to_arg_code();
    lemma_run_frame_to_r13(names, t);
    let t0 = run(names, b0, t);
    assert(b1 == restore_code(5, Sym::R14));
    lemma_run_restore(names, t0, 5, Sym::R14);
    let t1 = run(names, b1, t0);
    lemma_run_pop_stack(names, t1);
    let t2 = run(names, b2, t1);
    lemma_run_result_to_arg(names, t2);
    lemma_run_append(names, b0, b1, t);
    lemma_run_append(names, b0 + b1, b2, t);
    lemma_run_append(names, b0 + b1 + b2, b3, t);
}

#[verifier::rlimit(50)]
proof fn lemma_run_return_second(names: Map<Seq<char>, int>, t: MState)
    requires
        t.jumped is None,
        21 <= t.ram[13] <= 32767,
    ensures
        ({
            let r = run(names, return_second_code(), t);
            let l = t.ram[13];
            &&& r.jumped == Some(t.ram[14])
            &&& r.ram[4] == t.ram[l - 1]
            &&& r.ram[3] == t.ram[l - 2]
            &&& r.ram[2] == t.ram[l - 3]
            &&& r.ram[1] == t.ram[l - 4]
            &&& forall|x: int| x == 0 || x > 4 ==> #[trigger] r.ram[x] == t.ram[x]
        }),
{
    let b4 = restore_code(1, Sym::THAT);
    let b5 = restore_code(2, Sym::THIS);
    let b6 = restore_code(3, Sym::ARG);
    let b7 = restore_code(4, Sym::LCL);
    let b8 = jump_to_r14_code();
    lemma_run_restore(names, t, 1, Sym::THAT);
    let t4 = run(names, b4, t);
    lemma_run_restore(names, t4, 2, Sym::THIS);
    let t5 = run(names, b5, t4);
    lemma_run_restore(names, t5, 3, Sym::ARG);
    let t6 = run(names, b6, t5);
    lemma_run_restore(names, t6, 4, Sym::LCL);
    let t7 = run(names, b7, t6);
    reveal_with_fuel(run, 4);
    let t8 = run(names, b8, t7);
    assert(t8.jumped == Some(t.ram[14]));
    assert(t8.ram == t7.ram);
    lemma_run_append(names, b4, b5, t);
    lemma_run_append(names, b4 + b5, b6, t);
    lemma_run_append(names, b4 + b5 + b6, b7, t);
    lemma_run_append(names, b4 + b5 + b6 + b7, b8, t);
}

/// Running the return block from inside a frame: the result goes where the
/// first argument was, the stack pointer lands just above it, the caller's
/// registers come back from the frame, and control goes to the saved return
/// address.
proof fn lemma_run_return(names: Map<Seq<char>, int>, t: MState)
    requires
        t.jumped is None,
        21 <= t.ram[1] <= t.ram[0] <= 32767,
        16 <= t.ram[2] <= t.ram[1] - 5,
    ensures
        ({
            let r = run(names, return_code(), t);
            let l = t.ram[1];
            let arg = t.ram[2];
            &&& r.jumped == Some(t.ram[l - 5])
            &&& r.ram[0] == arg + 1
            &&& r.ram[arg] == t.ram[t.ram[0] - 1]
            &&& r.ram[1] == t.ram[l - 4]
            &&& r.ram[2] == t.ram[l - 3]
            &&& r.ram[3] == t.ram[l - 2]
            &&& r.ram[4] == t.ram[l - 1]
        }),
{
    lemma_run_return_first(names, t);
    let t1 = run(names, return_first_code(), t);
    lemma_run_return_second(names, t1);
    let r = run(names, return_second_code(), t1);
    assert(r.ram[0] == t1.ram[0]);
    assert(r.ram[t.ram[2]] == t1.ram[t.ram[2]]);
    assert(return_first_code() + return_second_code() =~= return_code());
    lemma_run_append(names, return_first_code(), return_second_code(), t);
}

// ----- law -----

/// Calling convention: `call f n` into `function f m` that returns at once.
/// The emitted texts read as `call_code`, `function_code` and `return_code`.
/// Running the call jumps to `f`; running `f` from there and then its return
/// jumps back to the call's return-address label, with the caller's LCL, ARG,
/// THIS and THAT as they were before the call, the value that was on top of
/// the stack at the return stored where the first argument was (the old stack
/// top minus `n`), and the stack pointer just above it.
pub proof fn lemma_call_return_restores_frame(
    names: Map<Seq<char>, int>,
    s: MState,
    f: Seq<char>,
    n: nat,
    m: nat,
    c: nat,
)
    requires
        s.jumped is None,
        16 + n <= s.ram[0],
        s.ram[0] + 5 + m <= 32767,
        n + 5 <= 32767,
    ensures
        ({
            let sp = s.ram[0];
            let after_call = run(names, call_code(f, n, c), s);
            let entered = MState { jumped: None, ..after_call };
            let before_return = run(names, function_code(f, m), entered);
            let r = run(names, return_code(), before_return);
            &&& render(call_code(f, n, c)) == call_text(f, n as i16, c)
            &&& render(function_code(f, m)) == def_func_text(f, m as i16)
            &&& render(return_code()) == return_text()
            &&& after_call.jumped == Some(names[f])
            &&& r.jumped == Some(names[return_label(c)])
            &&& r.ram[1] == s.ram[1]
            &&& r.ram[2] == s.ram[2]
            &&& r.ram[3] == s.ram[3]
            &&& r.ram[4] == s.ram[4]
            &&& r.ram[0] == sp - n + 1
            &&& r.ram[sp - n] == before_return.ram[before_return.ram[0] - 1]
        }),
{
    let sp = s.ram[0];
    lemma_text_call(f, n, c);
    lemma_text_function(f, m);
    lemma_text_return();
    lemma_run_call(names, s, f, n, c);
    let after_call = run(names, call_code(f, n, c), s);
    let entered = MState { jumped: None, ..after_call };
    reveal_with_fuel(run, 2);
    let label = seq![AsmLine::Label(f)];
    assert(run(names, label, entered) == entered);
    lemma_run_push_zeros(names, entered, m);
    lemma_run_append(names, label, push_zeros_code(m), entered);
    let before_return = run(names, function_code(f, m), entered);
    assert(before_return.ram[1] == sp + 5);
    assert(before_return.ram[2] == sp - n);
    assert(before_return.ram[sp] == names[return_label(c)]);
    assert(before_return.ram[sp + 1] == s.ram[1]);
    assert(before_return.ram[sp + 2] == s.ram[2]);
    assert(before_return.ram[sp + 3] == s.ram[3]);
    assert(before_return.ram[sp + 4] == s.ram[4]);
    lemma_run_return(names, before_return);
}

} // verus!
