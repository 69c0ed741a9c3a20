use vstd::prelude::*;

use crate::decimal::nat_text;
use crate::instruction::ArithmeticIns;
use crate::machine::{
    AsmLine, Cmd, MState, Sym, lemma_render_append, lemma_run_append, render, run, sym_text,
    word,
};
use crate::labels::lemma_static_cells_distinct;
use crate::translator::{
    ADDRESSING_SP, DECREMENT_SP, INCREMENT_SP, POP_STACK, PUSH_STACK, SAVE_POPPED, STORE_POPPED,
    arith_text, module_of, pop_segment_text, pop_text, push_segment_text, push_text, static_symbol,
};

verus! {

pub open spec fn at(s: Sym) -> AsmLine {
    AsmLine::At(s)
}

pub open spec fn cm(c: Cmd) -> AsmLine {
    AsmLine::Cmd(c)
}

pub open spec fn pop_stack_code() -> Seq<AsmLine> {
    seq![at(Sym::SP), cm(Cmd::DecM), cm(Cmd::AFromM), cm(Cmd::DFromM)]
}

pub open spec fn push_stack_code() -> Seq<AsmLine> {
    seq![at(Sym::SP), cm(Cmd::AFromM), cm(Cmd::MFromD), at(Sym::SP), cm(Cmd::IncM)]
}

/// `@i`, `D=A`.
pub open spec fn load_num_code(i: nat) -> Seq<AsmLine> {
    seq![at(Sym::Num(i)), cm(Cmd::DFromA)]
}

pub open spec fn push_constant_code(k: nat) -> Seq<AsmLine> {
    load_num_code(k) + push_stack_code()
}

/// Points A at `base register + i`.
pub open spec fn segment_address_code(i: nat, seg: Sym) -> Seq<AsmLine> {
    load_num_code(i) + seq![at(seg), cm(Cmd::AFromDPlusM)]
}

pub open spec fn push_segment_code(i: nat, seg: Sym) -> Seq<AsmLine> {
    segment_address_code(i, seg) + seq![cm(Cmd::DFromM)] + push_stack_code()
}

pub open spec fn save_popped_code() -> Seq<AsmLine> {
    seq![at(Sym::R13), cm(Cmd::MFromD)]
}

pub open spec fn store_popped_code() -> Seq<AsmLine> {
    seq![
        cm(Cmd::DFromA),
        at(Sym::R14),
        cm(Cmd::MFromD),
        at(Sym::R13),
        cm(Cmd::DFromM),
        at(Sym::R14),
        cm(Cmd::AFromM),
        cm(Cmd::MFromD),
    ]
}

pub open spec fn pop_segment_code(i: nat, seg: Sym) -> Seq<AsmLine> {
    pop_stack_code() + save_popped_code() + segment_address_code(i, seg) + store_popped_code()
}

pub open spec fn sub_code() -> Seq<AsmLine> {
    pop_stack_code() + seq![at(Sym::SP), cm(Cmd::DecM)] + seq![at(Sym::SP), cm(Cmd::AFromM)]
        + seq![cm(Cmd::MFromMMinusD)] + seq![at(Sym::SP), cm(Cmd::IncM)]
}

// ----- the text of each block -----

pub(crate) proof fn lemma_text_pop_stack()
    ensures
        render(pop_stack_code()) == POP_STACK@,
{
    reveal_strlit("@SP\nM=M-1\nA=M\nD=M\n");
    reveal_strlit("@");
    reveal_strlit("\n");
    reveal_strlit("SP");
    reveal_strlit("M=M-1");
    reveal_strlit("A=M");
    reveal_strlit("D=M");
    reveal_with_fuel(render, 5);
    assert(render(pop_stack_code()) =~= POP_STACK@);
}

pub(crate) proof fn lemma_text_push_stack()
    ensures
        render(push_stack_code()) == PUSH_STACK@,
{
    reveal_strlit("@SP\nA=M\nM=D\n@SP\nM=M+1\n");
    reveal_strlit("@");
    reveal_strlit("\n");
    reveal_strlit("SP");
    reveal_strlit("A=M");
    reveal_strlit("M=D");
    reveal_strlit("M=M+1");
    reveal_with_fuel(render, 6);
    assert(render(push_stack_code()) =~= PUSH_STACK@);
}

pub(crate) proof fn lemma_text_save_popped()
    ensures
        render(save_popped_code()) == SAVE_POPPED@,
{
    reveal_strlit("@R13\nM=D\n");
    reveal_strlit("@");
    reveal_strlit("\n");
    reveal_strlit("R13");
    reveal_strlit("M=D");
    reveal_with_fuel(render, 3);
    assert(render(save_popped_code()) =~= SAVE_POPPED@);
}

pub(crate) proof fn lemma_text_store_popped()
    ensures
        render(store_popped_code()) == STORE_POPPED@,
{
    reveal_strlit("D=A\n@R14\nM=D\n@R13\nD=M\n@R14\nA=M\nM=D\n");
    reveal_strlit("@");
    reveal_strlit("\n");
    reveal_strlit("R13");
    reveal_strlit("R14");
    reveal_strlit("D=A");
    reveal_strlit("M=D");
    reveal_strlit("D=M");
    reveal_strlit("A=M");
    reveal_with_fuel(render, 9);
    assert(render(store_popped_code()) =~= STORE_POPPED@);
}

pub(crate) proof fn lemma_text_load_num(i: nat)
    ensures
        render(load_num_code(i)) == "@"@ + nat_text(i) + "\nD=A\n"@,
{
    reveal_strlit("\nD=A\n");
    reveal_strlit("\n");
    reveal_strlit("D=A");
    reveal_with_fuel(render, 3);
    assert(render(load_num_code(i)) =~= "@"@ + nat_text(i) + "\nD=A\n"@);
}

pub(crate) proof fn lemma_text_segment_address(i: nat, seg: Sym)
    ensures
        render(segment_address_code(i, seg)) == "@"@ + nat_text(i) + "\nD=A\n@"@ + sym_text(seg)
            + "\nA=D+M\n"@,
{
    lemma_text_load_num(i);
    let tail = seq![at(seg), cm(Cmd::AFromDPlusM)];
    lemma_render_append(load_num_code(i), tail);
    reveal_strlit("\nD=A\n@");
    reveal_strlit("\nD=A\n");
    reveal_strlit("\nA=D+M\n");
    reveal_strlit("@");
    reveal_strlit("\n");
    reveal_strlit("A=D+M");
    reveal_with_fuel(render, 3);
    assert(render(segment_address_code(i, seg)) =~= "@"@ + nat_text(i) + "\nD=A\n@"@ + sym_text(
        seg,
    ) + "\nA=D+M\n"@);
}

/// The machine reading of `push <seg> i` for a segment reached through a base register.
pub(crate) proof fn lemma_text_push_segment(i: nat, seg: Sym)
    ensures
        render(push_segment_code(i, seg)) == push_segment_text(nat_text(i), sym_text(seg)),
{
    lemma_text_segment_address(i, seg);
    lemma_text_push_stack();
    lemma_render_append(segment_address_code(i, seg), seq![cm(Cmd::DFromM)]);
    lemma_render_append(
        segment_address_code(i, seg) + seq![cm(Cmd::DFromM)],
        push_stack_code(),
    );
    reveal_strlit("\nD=A\n@");
    reveal_strlit("\nA=D+M\n");
    reveal_strlit("\nA=D+M\nD=M\n");
    reveal_strlit("D=M");
    reveal_strlit("\n");
    reveal_with_fuel(render, 2);
    assert(render(push_segment_code(i, seg)) =~= push_segment_text(nat_text(i), sym_text(seg)));
}

pub(crate) proof fn lemma_text_pop_segment(i: nat, seg: Sym)
    ensures
        render(pop_segment_code(i, seg)) == pop_segment_text(nat_text(i), sym_text(seg)),
{
    lemma_text_pop_stack();
    lemma_text_save_popped();
    lemma_text_segment_address(i, seg);
    lemma_text_store_popped();
    lemma_render_append(pop_stack_code(), save_popped_code());
    lemma_render_append(pop_stack_code() + save_popped_code(), segment_address_code(i, seg));
    lemma_render_append(
        pop_stack_code() + save_popped_code() + segment_address_code(i, seg),
        store_popped_code(),
    );
    reveal_strlit("\nD=A\n@");
    reveal_strlit("\nA=D+M\n");
    assert(render(pop_segment_code(i, seg)) =~= pop_segment_text(nat_text(i), sym_text(seg)));
}

pub(crate) proof fn lemma_text_push_constant(k: nat)
    ensures
        render(push_constant_code(k)) == "@"@ + nat_text(k) + "\nD=A\n"@ + PUSH_STACK@,
{
    lemma_text_load_num(k);
    lemma_text_push_stack();
    lemma_render_append(load_num_code(k), push_stack_code());
}

pub(crate) proof fn lemma_text_sub()
    ensures
        render(sub_code()) == arith_text(ArithmeticIns::Sub),
{
    lemma_text_pop_stack();
    let b1 = seq![at(Sym::SP), cm(Cmd::DecM)];
    let b2 = seq![at(Sym::SP), cm(Cmd::AFromM)];
    let b3 = seq![cm(Cmd::MFromMMinusD)];
    let b4 = seq![at(Sym::SP), cm(Cmd::IncM)];
    lemma_render_append(pop_stack_code(), b1);
    lemma_render_append(pop_stack_code() + b1, b2);
    lemma_render_append(pop_stack_code() + b1 + b2, b3);
    lemma_render_append(pop_stack_code() + b1 + b2 + b3, b4);
    reveal_strlit("@SP\nM=M-1\n");
    reveal_strlit("@SP\nA=M\n");
    reveal_strlit("M=M-D\n");
    reveal_strlit("@SP\nM=M+1\n");
    reveal_strlit("@");
    reveal_strlit("\n");
    reveal_strlit("SP");
    reveal_strlit("M=M-1");
    reveal_strlit("A=M");
    reveal_strlit("M=M-D");
    reveal_strlit("M=M+1");
    reveal_with_fuel(render, 3);
    assert(render(b1) =~= DECREMENT_SP@);
    assert(render(b2) =~= ADDRESSING_SP@);
    assert(render(b3) =~= "M=M-D\n"@);
    assert(render(b4) =~= INCREMENT_SP@);
}

// ----- what each block does -----

pub proof fn lemma_word_id(x: int)
    requires
        -32768 <= x <= 32767,
    ensures
        word(x) == x,
{
}

/// The stack pointer lies above the registers and leaves room for one more cell.
pub open spec fn stack_ok(s: MState, room: int) -> bool {
    s.jumped is None && 16 <= s.ram[0] && s.ram[0] + room <= 32767
}

pub(crate) proof fn lemma_run_push_stack(names: Map<Seq<char>, int>, s: MState)
    requires
        stack_ok(s, 1),
    ensures
        run(names, push_stack_code(), s) == (MState {
            ram: s.ram.insert(s.ram[0], s.d).insert(0, s.ram[0] + 1),
            a: 0,
            d: s.d,
            jumped: None,
        }),
{
    lemma_word_id(s.ram[0] + 1);
    reveal_with_fuel(run, 6);
}

pub(crate) proof fn lemma_run_pop_stack(names: Map<Seq<char>, int>, s: MState)
    requires
        s.jumped is None,
        17 <= s.ram[0] <= 32767,
    ensures
        run(names, pop_stack_code(), s) == (MState {
            ram: s.ram.insert(0, s.ram[0] - 1),
            a: s.ram[0] - 1,
            d: s.ram[s.ram[0] - 1],
            jumped: None,
        }),
{
    lemma_word_id(s.ram[0] - 1);
    reveal_with_fuel(run, 5);
}

pub(crate) proof fn lemma_run_push_constant(names: Map<Seq<char>, int>, s: MState, k: nat)
    requires
        stack_ok(s, 1),
        k <= 32767,
    ensures
        run(names, push_constant_code(k), s) == (MState {
            ram: s.ram.insert(s.ram[0], k as int).insert(0, s.ram[0] + 1),
            a: 0,
            d: k as int,
            jumped: None,
        }),
{
    reveal_with_fuel(run, 3);
    let s1 = run(names, load_num_code(k), s);
    assert(s1 == MState { a: k as int, d: k as int, ..s });
    lemma_run_append(names, load_num_code(k), push_stack_code(), s);
    lemma_run_push_stack(names, s1);
}

/// The base register of a segment, as a register number.
pub open spec fn base_register(seg: Sym) -> int {
    match seg {
        Sym::LCL => 1,
        Sym::ARG => 2,
        Sym::THIS => 3,
        _ => 4,
    }
}

pub open spec fn is_base_register(seg: Sym) -> bool {
    seg is LCL || seg is ARG || seg is THIS || seg is THAT
}

pub(crate) proof fn lemma_run_segment_address(names: Map<Seq<char>, int>, s: MState, i: nat, seg: Sym)
    requires
        s.jumped is None,
        is_base_register(seg),
        i <= 32767,
        -32768 <= i + s.ram[base_register(seg)] <= 32767,
    ensures
        run(names, segment_address_code(i, seg), s) == (MState {
            a: i + s.ram[base_register(seg)],
            d: i as int,
            ..s
        }),
{
    lemma_word_id(i + s.ram[base_register(seg)]);
    reveal_with_fuel(run, 5);
}

pub(crate) proof fn lemma_run_push_segment(names: Map<Seq<char>, int>, s: MState, i: nat, seg: Sym)
    requires
        stack_ok(s, 1),
        is_base_register(seg),
        i <= 32767,
        -32768 <= i + s.ram[base_register(seg)] <= 32767,
    ensures
        run(names, push_segment_code(i, seg), s) == (MState {
            ram: s.ram.insert(s.ram[0], s.ram[i + s.ram[base_register(seg)]]).insert(
                0,
                s.ram[0] + 1,
            ),
            a: 0,
            d: s.ram[i + s.ram[base_register(seg)]],
            jumped: None,
        }),
{
    let addr = i + s.ram[base_register(seg)];
    lemma_run_segment_address(names, s, i, seg);
    let s1 = run(names, segment_address_code(i, seg), s);
    reveal_with_fuel(run, 2);
    let s2 = run(names, seq![cm(Cmd::DFromM)], s1);
    assert(s2 == MState { d: s.ram[addr], ..s1 });
    lemma_run_append(names, segment_address_code(i, seg), seq![cm(Cmd::DFromM)], s);
    lemma_run_append(
        names,
        segment_address_code(i, seg) + seq![cm(Cmd::DFromM)],
        push_stack_code(),
        s,
    );
    lemma_run_push_stack(names, s2);
}

pub(crate) proof fn lemma_run_store_popped(names: Map<Seq<char>, int>, s: MState)
    requires
        s.jumped is None,
        s.a != 13,
        s.a != 14,
    ensures
        run(names, store_popped_code(), s) == (MState {
            ram: s.ram.insert(14, s.a).insert(s.a, s.ram[13]),
            a: s.a,
            d: s.ram[13],
            jumped: None,
        }),
{
    reveal_with_fuel(run, 9);
}

pub(crate) proof fn lemma_run_save_popped(names: Map<Seq<char>, int>, s: MState)
    requires
        s.jumped is None,
    ensures
        run(names, save_popped_code(), s) == (MState { ram: s.ram.insert(13, s.d), a: 13, ..s }),
{
    reveal_with_fuel(run, 3);
}

pub(crate) proof fn lemma_run_pop_segment(names: Map<Seq<char>, int>, s: MState, i: nat, seg: Sym)
    requires
        s.jumped is None,
        17 <= s.ram[0] <= 32767,
        is_base_register(seg),
        i <= 32767,
        -32768 <= i + s.ram[base_register(seg)] <= 32767,
        i + s.ram[base_register(seg)] != 13,
        i + s.ram[base_register(seg)] != 14,
    ensures
        run(names, pop_segment_code(i, seg), s) == (MState {
            ram: s.ram.insert(0, s.ram[0] - 1).insert(13, s.ram[s.ram[0] - 1]).insert(
                14,
                i + s.ram[base_register(seg)],
            ).insert(i + s.ram[base_register(seg)], s.ram[s.ram[0] - 1]),
            a: i + s.ram[base_register(seg)],
            d: s.ram[s.ram[0] - 1],
            jumped: None,
        }),
{
    let v = s.ram[s.ram[0] - 1];
    lemma_run_pop_stack(names, s);
    let s1 = run(names, pop_stack_code(), s);
    lemma_run_save_popped(names, s1);
    let s2 = run(names, save_popped_code(), s1);
    lemma_run_segment_address(names, s2, i, seg);
    let s3 = run(names, segment_address_code(i, seg), s2);
    lemma_run_store_popped(names, s3);
    lemma_run_append(names, pop_stack_code(), save_popped_code(), s);
    lemma_run_append(names, pop_stack_code() + save_popped_code(), segment_address_code(i, seg), s);
    lemma_run_append(
        names,
        pop_stack_code() + save_popped_code() + segment_address_code(i, seg),
        store_popped_code(),
        s,
    );
}

// ----- laws -----

/// Subtraction: after `push constant x`, `push constant y`, `sub`, the stack
/// holds `x - y` where the first operand was, and is one cell higher than at
/// the start.
pub proof fn lemma_sub_pushes_difference(
    names: Map<Seq<char>, int>,
    s: MState,
    m: Seq<char>,
    x: nat,
    y: nat,
)
    requires
        stack_ok(s, 2),
        x <= 32767,
        y <= 32767,
    ensures
        ({
            let code = push_constant_code(x) + push_constant_code(y) + sub_code();
            let r = run(names, code, s);
            &&& render(code) == push_text("constant"@, nat_text(x), m) + push_text(
                "constant"@,
                nat_text(y),
                m,
            ) + arith_text(ArithmeticIns::Sub)
            &&& r.jumped is None
            &&& r.ram[0] == s.ram[0] + 1
            &&& r.ram[s.ram[0]] == x - y
        }),
{
    let sp = s.ram[0];
    let cx = push_constant_code(x);
    let cy = push_constant_code(y);
    lemma_text_push_constant(x);
    lemma_text_push_constant(y);
    lemma_text_sub();
    lemma_render_append(cx, cy);
    lemma_render_append(cx + cy, sub_code());
    lemma_run_append(names, cx, cy, s);
    lemma_run_append(names, cx + cy, sub_code(), s);
    lemma_run_push_constant(names, s, x);
    let s1 = run(names, cx, s);
    lemma_run_push_constant(names, s1, y);
    let s2 = run(names, cy, s1);
    assert(s2.ram[0] == sp + 2);
    assert(s2.ram[sp] == x);
    assert(s2.ram[sp + 1] == y);
    lemma_run_pop_stack(names, s2);
    let s3 = run(names, pop_stack_code(), s2);
    let b1 = seq![at(Sym::SP), cm(Cmd::DecM)];
    let b2 = seq![at(Sym::SP), cm(Cmd::AFromM)];
    let b3 = seq![cm(Cmd::MFromMMinusD)];
    let b4 = seq![at(Sym::SP), cm(Cmd::IncM)];
    lemma_run_append(names, pop_stack_code(), b1, s2);
    lemma_run_append(names, pop_stack_code() + b1, b2, s2);
    lemma_run_append(names, pop_stack_code() + b1 + b2, b3, s2);
    lemma_run_append(names, pop_stack_code() + b1 + b2 + b3, b4, s2);
    lemma_word_id(sp);
    lemma_word_id(x - y);
    lemma_word_id(sp + 1);
    reveal_with_fuel(run, 3);
    let s4 = run(names, b1, s3);
    assert(s4.ram[0] == sp);
    let s5 = run(names, b2, s4);
    assert(s5.a == sp);
    let s6 = run(names, b3, s5);
    assert(s6.ram[sp] == x - y);
    let s7 = run(names, b4, s6);
    assert(s7.ram[0] == sp + 1);
    assert(pop_stack_code() + b1 + b2 + b3 + b4 == sub_code());
}

/// Round trip: `push constant k`, `pop local 0`, `push local 0` leave `k` on
/// top of the stack, one cell above where the stack started, and in the first
/// local.
pub proof fn lemma_constant_local_round_trip(
    names: Map<Seq<char>, int>,
    s: MState,
    m: Seq<char>,
    k: nat,
)
    requires
        stack_ok(s, 1),
        k <= 32767,
        16 <= s.ram[1] <= 32767,
    ensures
        ({
            let code = push_constant_code(k) + pop_segment_code(0, Sym::LCL) + push_segment_code(
                0,
                Sym::LCL,
            );
            let r = run(names, code, s);
            &&& render(code) == push_text("constant"@, nat_text(k), m) + pop_text(
                "local"@,
                "0"@,
                m,
            ) + push_text("local"@, "0"@, m)
            &&& r.jumped is None
            &&& r.ram[0] == s.ram[0] + 1
            &&& r.ram[s.ram[0]] == k
            &&& r.ram[s.ram[1]] == k
        }),
{
    let sp = s.ram[0];
    let lcl = s.ram[1];
    let c1 = push_constant_code(k);
    let c2 = pop_segment_code(0, Sym::LCL);
    let c3 = push_segment_code(0, Sym::LCL);
    // text
    lemma_text_push_constant(k);
    lemma_text_pop_segment(0, Sym::LCL);
    lemma_text_push_segment(0, Sym::LCL);
    lemma_render_append(c1, c2);
    lemma_render_append(c1 + c2, c3);
    reveal_strlit("0");
    reveal_strlit("local");
    reveal_strlit("constant");
    reveal_strlit("LCL");
    assert(nat_text(0) =~= "0"@);
    assert("local"@ != "constant"@) by {
        assert("local"@.len() != "constant"@.len());
    }
    // execution
    lemma_run_append(names, c1, c2, s);
    lemma_run_append(names, c1 + c2, c3, s);
    lemma_run_push_constant(names, s, k);
    let s1 = run(names, c1, s);
    assert(s1.ram[1] == lcl);
    lemma_run_pop_segment(names, s1, 0, Sym::LCL);
    let s2 = run(names, c2, s1);
    assert(s2.ram[0] == sp);
    assert(s2.ram[1] == lcl);
    assert(s2.ram[lcl] == k);
    lemma_run_push_segment(names, s2, 0, Sym::LCL);
}

/// `pop static` into the cell named `sym`.
pub open spec fn pop_static_code(sym: Seq<char>) -> Seq<AsmLine> {
    pop_stack_code() + seq![at(Sym::Name(sym)), cm(Cmd::MFromD)]
}

/// `push static` from the cell named `sym`.
pub open spec fn push_static_code(sym: Seq<char>) -> Seq<AsmLine> {
    seq![at(Sym::Name(sym)), cm(Cmd::DFromM)] + push_stack_code()
}

proof fn lemma_static_segment_name()
    ensures
        "static"@ != "constant"@,
        "static"@ != "local"@,
        "static"@ != "argument"@,
        "static"@ != "this"@,
        "static"@ != "that"@,
        "static"@ != "pointer"@,
        "static"@ != "temp"@,
{
    reveal_strlit("static");
    reveal_strlit("constant");
    reveal_strlit("local");
    reveal_strlit("argument");
    reveal_strlit("this");
    reveal_strlit("that");
    reveal_strlit("pointer");
    reveal_strlit("temp");
    assert("static"@.len() != "constant"@.len());
    assert("static"@.len() != "local"@.len());
    assert("static"@.len() != "argument"@.len());
    assert("static"@.len() != "this"@.len());
    assert("static"@.len() != "that"@.len());
    assert("static"@.len() != "pointer"@.len());
    assert("static"@.len() != "temp"@.len());
}

proof fn lemma_text_static(sym_a: Seq<char>, sym_b: Seq<char>)
    ensures
        render(pop_static_code(sym_a)) == POP_STACK@ + "@"@ + sym_a + "\nM=D\n"@,
        render(push_static_code(sym_b)) == "@"@ + sym_b + "\nD=M\n"@ + PUSH_STACK@,
{
    lemma_text_pop_stack();
    lemma_text_push_stack();
    let ta = seq![at(Sym::Name(sym_a)), cm(Cmd::MFromD)];
    let tb = seq![at(Sym::Name(sym_b)), cm(Cmd::DFromM)];
    lemma_render_append(pop_stack_code(), ta);
    lemma_render_append(tb, push_stack_code());
    reveal_strlit("\nM=D\n");
    reveal_strlit("\nD=M\n");
    reveal_strlit("\n");
    reveal_strlit("M=D");
    reveal_strlit("D=M");
    reveal_with_fuel(render, 3);
    assert(render(ta) =~= "@"@ + sym_a + "\nM=D\n"@);
    assert(render(tb) =~= "@"@ + sym_b + "\nD=M\n"@);
}

proof fn lemma_text_static_pair(ma: Seq<char>, mb: Seq<char>, index: Seq<char>)
    ensures
        render(pop_static_code(static_symbol(ma, index)) + push_static_code(
            static_symbol(mb, index),
        )) == pop_text("static"@, index, ma) + push_text("static"@, index, mb),
{
    let sym_a = static_symbol(ma, index);
    let sym_b = static_symbol(mb, index);
    lemma_static_segment_name();
    lemma_text_static(sym_a, sym_b);
    lemma_render_append(pop_static_code(sym_a), push_static_code(sym_b));
    assert(pop_text("static"@, index, ma) =~= POP_STACK@ + "@"@ + sym_a + "\nM=D\n"@);
    assert(push_text("static"@, index, mb) =~= "@"@ + sym_b + "\nD=M\n"@ + PUSH_STACK@);
}

/// The assembler gives different symbols different cells.
#[verifier::opaque]
pub open spec fn distinct_cells(names: Map<Seq<char>, int>) -> bool {
    forall|t1: Seq<char>, t2: Seq<char>| t1 != t2 ==> names[t1] != names[t2]
}

proof fn lemma_run_store_named(names: Map<Seq<char>, int>, s: MState, sym: Seq<char>)
    requires
        s.jumped is None,
    ensures
        run(names, seq![at(Sym::Name(sym)), cm(Cmd::MFromD)], s) == (MState {
            ram: s.ram.insert(names[sym], s.d),
            a: names[sym],
            ..s
        }),
{
    reveal_with_fuel(run, 3);
}

proof fn lemma_run_load_named(names: Map<Seq<char>, int>, s: MState, sym: Seq<char>)
    requires
        s.jumped is None,
    ensures
        run(names, seq![at(Sym::Name(sym)), cm(Cmd::DFromM)], s) == (MState {
            a: names[sym],
            d: s.ram[names[sym]],
            ..s
        }),
{
    reveal_with_fuel(run, 3);
}

proof fn lemma_run_static_pair(
    names: Map<Seq<char>, int>,
    s: MState,
    sym_a: Seq<char>,
    sym_b: Seq<char>,
)
    requires
        s.jumped is None,
        17 <= s.ram[0] <= 32767,
        names[sym_a] != names[sym_b],
        16 <= names[sym_a] < s.ram[0] - 1,
        16 <= names[sym_b] < s.ram[0] - 1,
    ensures
        ({
            let r = run(names, pop_static_code(sym_a) + push_static_code(sym_b), s);
            let sp = s.ram[0];
            &&& r.jumped is None
            &&& r.ram[0] == sp
            &&& r.ram[names[sym_a]] == s.ram[sp - 1]
            &&& r.ram[sp - 1] == s.ram[names[sym_b]]
        }),
{
    let sp = s.ram[0];
    let ta = seq![at(Sym::Name(sym_a)), cm(Cmd::MFromD)];
    let tb = seq![at(Sym::Name(sym_b)), cm(Cmd::DFromM)];
    lemma_run_pop_stack(names, s);
    let s1 = run(names, pop_stack_code(), s);
    lemma_run_store_named(names, s1, sym_a);
    let s2 = run(names, ta, s1);
    assert(s2.ram[names[sym_a]] == s.ram[sp - 1]);
    assert(s2.ram[names[sym_b]] == s.ram[names[sym_b]]);
    assert(s2.ram[0] == sp - 1);
    lemma_run_load_named(names, s2, sym_b);
    let s3 = run(names, tb, s2);
    assert(s3.d == s.ram[names[sym_b]]);
    lemma_run_push_stack(names, s3);
    lemma_run_append(names, pop_stack_code(), ta, s);
    lemma_run_append(names, tb, push_stack_code(), s2);
    lemma_run_append(names, pop_static_code(sym_a), push_static_code(sym_b), s);
}

/// Static isolation: `pop static i` in the module of file `fa`, then
/// `push static i` in the module of another file `fb`, pushes what `fb`'s
/// cell held before, not the popped value, when the assembler gives
/// different symbols different cells below the stack.
pub proof fn lemma_static_isolation(
    names: Map<Seq<char>, int>,
    s: MState,
    fa: Seq<char>,
    fb: Seq<char>,
    index: Seq<char>,
)
    requires
        s.jumped is None,
        17 <= s.ram[0] <= 32767,
        module_of(fa) != module_of(fb),
        distinct_cells(names),
        16 <= names[static_symbol(module_of(fa), index)] < s.ram[0] - 1,
        16 <= names[static_symbol(module_of(fb), index)] < s.ram[0] - 1,
    ensures
        ({
            let sym_a = static_symbol(module_of(fa), index);
            let sym_b = static_symbol(module_of(fb), index);
            let code = pop_static_code(sym_a) + push_static_code(sym_b);
            let r = run(names, code, s);
            let sp = s.ram[0];
            &&& render(code) == pop_text("static"@, index, module_of(fa)) + push_text(
                "static"@,
                index,
                module_of(fb),
            )
            &&& r.jumped is None
            &&& r.ram[0] == sp
            &&& r.ram[names[sym_a]] == s.ram[sp - 1]
            &&& r.ram[sp - 1] == s.ram[names[sym_b]]
        }),
{
    let sym_a = static_symbol(module_of(fa), index);
    let sym_b = static_symbol(module_of(fb), index);
    let sp = s.ram[0];
    lemma_static_cells_distinct(fa, fb, index, index);
    assert(names[sym_a] != names[sym_b]) by {
        reveal(distinct_cells);
    }
    lemma_text_static_pair(module_of(fa), module_of(fb), index);
    lemma_run_static_pair(names, s, sym_a, sym_b);
}

} // verus!
