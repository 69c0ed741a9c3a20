use vstd::prelude::*;

use crate::decimal::nat_text;

verus! {

/// The target of an address instruction `@...`.
pub enum Sym {
    SP,
    LCL,
    ARG,
    THIS,
    THAT,
    R13,
    R14,
    /// A decimal constant.
    Num(nat),
    /// A label or variable, placed by the assembler.
    Name(Seq<char>),
}

/// The computation instructions that the translator emits.
pub enum Cmd {
    DecM,
    IncM,
    AFromM,
    DFromM,
    MFromD,
    MFromDPlusM,
    MFromMMinusD,
    MFromNegD,
    DFromMMinusD,
    DFromA,
    DZero,
    DMinusOne,
    DFromDAndM,
    DFromDOrM,
    DFromNotD,
    AFromDPlusM,
    AFromDPlusA,
    AFromMMinusD,
    DFromAPlusOne,
    Jmp,
    JeqD,
    JgtD,
    JltD,
    JneD,
}

/// One line of assembly.
pub enum AsmLine {
    At(Sym),
    Cmd(Cmd),
    Label(Seq<char>),
}

pub open spec fn sym_text(s: Sym) -> Seq<char> {
    match s {
        Sym::SP => "SP"@,
        Sym::LCL => "LCL"@,
        Sym::ARG => "ARG"@,
        Sym::THIS => "THIS"@,
        Sym::THAT => "THAT"@,
        Sym::R13 => "R13"@,
        Sym::R14 => "R14"@,
        Sym::Num(n) => nat_text(n),
        Sym::Name(t) => t,
    }
}

pub open spec fn cmd_text(c: Cmd) -> Seq<char> {
    match c {
        Cmd::DecM => "M=M-1"@,
        Cmd::IncM => "M=M+1"@,
        Cmd::AFromM => "A=M"@,
        Cmd::DFromM => "D=M"@,
        Cmd::MFromD => "M=D"@,
        Cmd::MFromDPlusM => "M=D+M"@,
        Cmd::MFromMMinusD => "M=M-D"@,
        Cmd::MFromNegD => "M=-D"@,
        Cmd::DFromMMinusD => "D=M-D"@,
        Cmd::DFromA => "D=A"@,
        Cmd::DZero => "D=0"@,
        Cmd::DMinusOne => "D=-1"@,
        Cmd::DFromDAndM => "D=D&M"@,
        Cmd::DFromDOrM => "D=D|M"@,
        Cmd::DFromNotD => "D=!D"@,
        Cmd::AFromDPlusM => "A=D+M"@,
        Cmd::AFromDPlusA => "A=D+A"@,
        Cmd::AFromMMinusD => "A=M-D"@,
        Cmd::DFromAPlusOne => "D=A+1"@,
        Cmd::Jmp => "0;JMP"@,
        Cmd::JeqD => "D;JEQ"@,
        Cmd::JgtD => "D;JGT"@,
        Cmd::JltD => "D;JLT"@,
        Cmd::JneD => "D;JNE"@,
    }
}

pub open spec fn line_text(l: AsmLine) -> Seq<char> {
    match l {
        AsmLine::At(s) => "@"@ + sym_text(s) + "\n"@,
        AsmLine::Cmd(c) => cmd_text(c) + "\n"@,
        AsmLine::Label(t) => "("@ + t + ")\n"@,
    }
}

/// The text of a sequence of assembly lines.
pub open spec fn render(code: Seq<AsmLine>) -> Seq<char>
    decreases code.len(),
{
    if code.len() == 0 {
        seq![]
    } else {
        render(code.drop_last()) + line_text(code.last())
    }
}

pub proof fn lemma_render_append(a: Seq<AsmLine>, b: Seq<AsmLine>)
    ensures
        render(a + b) == render(a) + render(b),
    decreases b.len(),
{
    if b.len() == 0 {
        assert(a + b =~= a);
        assert(render(a) + render(b) =~= render(a));
    } else {
        assert((a + b).drop_last() =~= a + b.drop_last());
        lemma_render_append(a, b.drop_last());
        assert(render(a) + render(b.drop_last()) + line_text(b.last()) =~= render(a) + (render(
            b.drop_last(),
        ) + line_text(b.last())));
    }
}

/// A 16-bit machine word, as a signed value.
pub open spec fn word(x: int) -> int {
    let m = x % 65536;
    if m >= 32768 { m - 65536 } else { m }
}

/// The state of the machine: memory, the A and D registers, and where control
/// went if a jump was taken.
pub struct MState {
    pub ram: Map<int, int>,
    pub a: int,
    pub d: int,
    pub jumped: Option<int>,
}

/// Where a symbol points; `names` places labels and variables.
pub open spec fn sym_value(names: Map<Seq<char>, int>, s: Sym) -> int {
    match s {
        Sym::SP => 0,
        Sym::LCL => 1,
        Sym::ARG => 2,
        Sym::THIS => 3,
        Sym::THAT => 4,
        Sym::R13 => 13,
        Sym::R14 => 14,
        Sym::Num(n) => n as int,
        Sym::Name(t) => names[t],
    }
}

pub open spec fn with_m(s: MState, v: int) -> MState {
    MState { ram: s.ram.insert(s.a, v), ..s }
}

pub open spec fn with_a(s: MState, v: int) -> MState {
    MState { a: v, ..s }
}

pub open spec fn with_d(s: MState, v: int) -> MState {
    MState { d: v, ..s }
}

pub open spec fn jump_if(s: MState, taken: bool) -> MState {
    if taken { MState { jumped: Some(s.a), ..s } } else { s }
}

pub open spec fn exec_cmd(s: MState, c: Cmd) -> MState {
    let m = s.ram[s.a];
    match c {
        Cmd::DecM => with_m(s, word(m - 1)),
        Cmd::IncM => with_m(s, word(m + 1)),
        Cmd::AFromM => with_a(s, m),
        Cmd::DFromM => with_d(s, m),
        Cmd::MFromD => with_m(s, s.d),
        Cmd::MFromDPlusM => with_m(s, word(s.d + m)),
        Cmd::MFromMMinusD => with_m(s, word(m - s.d)),
        Cmd::MFromNegD => with_m(s, word(-s.d)),
        Cmd::DFromMMinusD => with_d(s, word(m - s.d)),
        Cmd::DFromA => with_d(s, s.a),
        Cmd::DZero => with_d(s, 0),
        Cmd::DMinusOne => with_d(s, -1),
        Cmd::DFromDAndM => with_d(s, ((s.d as i16) & (m as i16)) as int),
        Cmd::DFromDOrM => with_d(s, ((s.d as i16) | (m as i16)) as int),
        Cmd::DFromNotD => with_d(s, (!(s.d as i16)) as int),
        Cmd::AFromDPlusM => with_a(s, word(s.d + m)),
        Cmd::AFromDPlusA => with_a(s, word(s.d + s.a)),
        Cmd::AFromMMinusD => with_a(s, word(m - s.d)),
        Cmd::DFromAPlusOne => with_d(s, word(s.a + 1)),
        Cmd::Jmp => jump_if(s, true),
        Cmd::JeqD => jump_if(s, s.d == 0),
        Cmd::JgtD => jump_if(s, s.d > 0),
        Cmd::JltD => jump_if(s, s.d < 0),
        Cmd::JneD => jump_if(s, s.d != 0),
    }
}

pub open spec fn step(names: Map<Seq<char>, int>, s: MState, l: AsmLine) -> MState {
    match l {
        AsmLine::At(sym) => with_a(s, sym_value(names, sym)),
        AsmLine::Cmd(c) => exec_cmd(s, c),
        AsmLine::Label(_) => s,
    }
}

/// Runs straight-line code until its end, or until a jump is taken.
pub open spec fn run(names: Map<Seq<char>, int>, code: Seq<AsmLine>, s: MState) -> MState
    decreases code.len(),
{
    if code.len() == 0 {
        s
    } else {
        let before = run(names, code.drop_last(), s);
        if before.jumped is Some {
            before
        } else {
            step(names, before, code.last())
        }
    }
}

pub proof fn lemma_run_append(
    names: Map<Seq<char>, int>,
    a: Seq<AsmLine>,
    b: Seq<AsmLine>,
    s: MState,
)
    ensures
        run(names, a + b, s) == run(names, b, run(names, a, s)),
    decreases b.len(),
{
    if b.len() == 0 {
        assert(a + b =~= a);
    } else {
        assert((a + b).drop_last() =~= a + b.drop_last());
        lemma_run_append(names, a, b.drop_last(), s);
    }
}

} // verus!
