use vstd::prelude::*;

use crate::decimal::{i32_to_text, int_text, nat_text, u64_to_text};
use crate::parser::is_word;
use crate::instruction::{ArgsWithTwo, ArithmeticIns, FlowIns, InstrView, Instruction, LogicalIns};

verus! {

/// Pops the stack top into D; A is left at the popped cell.
pub const POP_STACK: &'static str = "@SP\nM=M-1\nA=M\nD=M\n";

/// Pushes D onto the stack; A is left at the stack pointer.
pub const PUSH_STACK: &'static str = "@SP\nA=M\nM=D\n@SP\nM=M+1\n";

pub const INCREMENT_SP: &'static str = "@SP\nM=M+1\n";

pub const DECREMENT_SP: &'static str = "@SP\nM=M-1\n";

/// Points A at the cell that the stack pointer holds.
pub const ADDRESSING_SP: &'static str = "@SP\nA=M\n";

/// Pushes the constant zero.
pub const PUSH_ZERO: &'static str = "@0\nD=A\n";

/// Sets the stack pointer to its base and jumps to `Sys.init`.
pub const BOOTSTRAP: &'static str = "@261\nD=A\n@SP\nM=D\n@Sys.init\n0;JMP\n";

/// Leaves the two comparison operands in D as `below - top`, with the stack
/// pointer at the lower operand.
pub const COMPARE_OPERANDS: &'static str = "@SP\nM=M-1\nA=M\nD=M-D\n";

/// Leaves A at the lower operand of a binary bitwise operation.
pub const SECOND_OPERAND: &'static str = "@SP\nM=M-1\nA=M\n";

/// Moves D to the scratch cell R13.
pub const SAVE_POPPED: &'static str = "@R13\nM=D\n";

/// Moves the address in A to the scratch cell R14, then stores R13 there.
pub const STORE_POPPED: &'static str = "D=A\n@R14\nM=D\n@R13\nD=M\n@R14\nA=M\nM=D\n";

/// Keeps the callee's frame pointer in R13.
pub const FRAME_TO_R13: &'static str = "@LCL\nD=M\n@R13\nM=D\n";

/// Keeps the return address, five cells below the frame pointer, in R14.
pub const RETURN_ADDRESS_TO_R14: &'static str = "@5\nD=A\n@R13\nA=M-D\nD=M\n@R14\nM=D\n";

/// Stores the popped return value where the first argument was, and sets the
/// stack pointer just above it.
pub const RESULT_TO_ARG: &'static str = "@ARG\nA=M\nM=D\nD=A+1\n@SP\nM=D\n";

pub const RESTORE_THAT: &'static str = "@1\nD=A\n@R13\nA=M-D\nD=M\n@THAT\nM=D\n";

pub const RESTORE_THIS: &'static str = "@2\nD=A\n@R13\nA=M-D\nD=M\n@THIS\nM=D\n";

pub const RESTORE_ARG: &'static str = "@3\nD=A\n@R13\nA=M-D\nD=M\n@ARG\nM=D\n";

pub const RESTORE_LCL: &'static str = "@4\nD=A\n@R13\nA=M-D\nD=M\n@LCL\nM=D\n";

/// Jumps to the address kept in R14.
pub const JUMP_TO_R14: &'static str = "@R14\nA=M\n0;JMP\n";

pub const LOAD_LCL: &'static str = "@LCL\nD=M\n";

pub const LOAD_ARG: &'static str = "@ARG\nD=M\n";

pub const LOAD_THIS: &'static str = "@THIS\nD=M\n";

pub const LOAD_THAT: &'static str = "@THAT\nD=M\n";

/// With the argument offset in D: points ARG below the saved frame and LCL at
/// the stack top.
pub const REPOSITION: &'static str = "@SP\nD=M-D\n@ARG\nM=D\n@SP\nD=M\n@LCL\nM=D\n";

/// Label counters of a translation run.
pub struct Counters {
    pub eq: nat,
    pub gt: nat,
    pub lt: nat,
    pub call: nat,
}

/// Code generator for the stack machine. It counts comparisons of each kind
/// and call sites, so that every label it makes is new in the run.
pub struct Translator {
    eq_count: u64,
    lt_count: u64,
    gt_count: u64,
    call_count: u64,
}

impl View for Translator {
    type V = Counters;

    closed spec fn view(&self) -> Counters {
        Counters {
            eq: self.eq_count as nat,
            gt: self.gt_count as nat,
            lt: self.lt_count as nat,
            call: self.call_count as nat,
        }
    }
}

/// Every counter can still be advanced once.
pub open spec fn has_room_spec(c: Counters) -> bool {
    c.eq < u64::MAX && c.gt < u64::MAX && c.lt < u64::MAX && c.call < u64::MAX
}

/// The part of a file name before its first dot, from position `i` on.
pub open spec fn dot_index(f: Seq<char>, i: int) -> int
    decreases f.len() - i,
{
    if i >= f.len() || f[i] == '.' {
        i
    } else {
        dot_index(f, i + 1)
    }
}

/// The module name of a file: its name up to the first dot.
pub open spec fn module_of(f: Seq<char>) -> Seq<char> {
    f.subrange(0, dot_index(f, 0))
}

pub open spec fn arith_text(a: ArithmeticIns) -> Seq<char> {
    match a {
        ArithmeticIns::Add => POP_STACK@ + DECREMENT_SP@ + ADDRESSING_SP@ + "M=D+M\n"@
            + INCREMENT_SP@,
        ArithmeticIns::Sub => POP_STACK@ + DECREMENT_SP@ + ADDRESSING_SP@ + "M=M-D\n"@
            + INCREMENT_SP@,
        ArithmeticIns::Neg => POP_STACK@ + "M=-D\n"@ + INCREMENT_SP@,
    }
}

/// The tag of a comparison in its labels.
pub open spec fn cmp_tag(k: LogicalIns) -> Seq<char> {
    match k {
        LogicalIns::Eq => ".EQ"@,
        LogicalIns::Gt => ".GT"@,
        _ => ".LT"@,
    }
}

pub open spec fn cmp_jump(k: LogicalIns) -> Seq<char> {
    match k {
        LogicalIns::Eq => "D;JEQ\n"@,
        LogicalIns::Gt => "D;JGT\n"@,
        _ => "D;JLT\n"@,
    }
}

/// Where a comparison's true branch starts: `TRUE.<module>.<OP><n>`.
pub open spec fn true_label(m: Seq<char>, k: LogicalIns, n: nat) -> Seq<char> {
    "TRUE."@ + m + cmp_tag(k) + nat_text(n)
}

/// Where a comparison's two branches meet: `END.<module>.<OP><n>`.
pub open spec fn end_label(m: Seq<char>, k: LogicalIns, n: nat) -> Seq<char> {
    "END."@ + m + cmp_tag(k) + nat_text(n)
}

/// A comparison numbered `n`: pushes -1 where it holds, else 0.
pub open spec fn cmp_text(m: Seq<char>, k: LogicalIns, n: nat) -> Seq<char> {
    POP_STACK@ + COMPARE_OPERANDS@ + "@"@ + true_label(m, k, n) + "\n"@ + cmp_jump(k)
        + "D=0\n"@ + PUSH_STACK@ + "@"@ + end_label(m, k, n) + "\n0;JMP\n"@ + "("@
        + true_label(m, k, n) + ")\n"@ + "D=-1\n"@ + PUSH_STACK@ + "("@ + end_label(m, k, n)
        + ")\n"@
}

/// The number that the next comparison of kind `k` gets.
pub open spec fn next_cmp_number(c: Counters, k: LogicalIns) -> nat {
    match k {
        LogicalIns::Eq => c.eq + 1,
        LogicalIns::Gt => c.gt + 1,
        _ => c.lt + 1,
    }
}

pub open spec fn is_comparison(k: LogicalIns) -> bool {
    k == LogicalIns::Eq || k == LogicalIns::Gt || k == LogicalIns::Lt
}

pub open spec fn logical_text(l: LogicalIns, m: Seq<char>, c: Counters) -> Seq<char> {
    match l {
        LogicalIns::And => POP_STACK@ + SECOND_OPERAND@ + "D=D&M\n"@ + PUSH_STACK@,
        LogicalIns::Or => POP_STACK@ + SECOND_OPERAND@ + "D=D|M\n"@ + PUSH_STACK@,
        LogicalIns::Not => POP_STACK@ + "D=!D\n"@ + PUSH_STACK@,
        _ => cmp_text(m, l, next_cmp_number(c, l)),
    }
}

/// Pushes the cell at `base register + index`.
pub open spec fn push_segment_text(index: Seq<char>, seg: Seq<char>) -> Seq<char> {
    "@"@ + index + "\nD=A\n@"@ + seg + "\nA=D+M\nD=M\n"@ + PUSH_STACK@
}

/// Pushes the cell at `fixed address + index`.
pub open spec fn push_reg_text(index: Seq<char>, addr: Seq<char>) -> Seq<char> {
    "@"@ + index + "\nD=A\n@"@ + addr + "\nA=D+A\nD=M\n"@ + PUSH_STACK@
}

/// The cell of static variable `index` of module `m`: `<m>.<index>`.
pub open spec fn static_symbol(m: Seq<char>, index: Seq<char>) -> Seq<char> {
    m + "."@ + index
}

pub open spec fn push_text(seg: Seq<char>, index: Seq<char>, m: Seq<char>) -> Seq<char> {
    if seg == "constant"@ {
        "@"@ + index + "\nD=A\n"@ + PUSH_STACK@
    } else if seg == "local"@ {
        push_segment_text(index, "LCL"@)
    } else if seg == "argument"@ {
        push_segment_text(index, "ARG"@)
    } else if seg == "this"@ {
        push_segment_text(index, "THIS"@)
    } else if seg == "that"@ {
        push_segment_text(index, "THAT"@)
    } else if seg == "pointer"@ {
        push_reg_text(index, "3"@)
    } else if seg == "temp"@ {
        push_reg_text(index, "5"@)
    } else if seg == "static"@ {
        "@"@ + static_symbol(m, index) + "\nD=M\n"@ + PUSH_STACK@
    } else {
        seq![]
    }
}

/// Pops into the cell at `base register + index`.
pub open spec fn pop_segment_text(index: Seq<char>, seg: Seq<char>) -> Seq<char> {
    POP_STACK@ + SAVE_POPPED@ + "@"@ + index + "\nD=A\n@"@ + seg + "\nA=D+M\n"@ + STORE_POPPED@
}

/// Pops into the cell at `fixed address + index`.
pub open spec fn pop_reg_text(index: Seq<char>, addr: Seq<char>) -> Seq<char> {
    POP_STACK@ + SAVE_POPPED@ + "@"@ + index + "\nD=A\n@"@ + addr + "\nA=D+A\n"@ + STORE_POPPED@
}

pub open spec fn pop_text(seg: Seq<char>, index: Seq<char>, m: Seq<char>) -> Seq<char> {
    if seg == "local"@ {
        pop_segment_text(index, "LCL"@)
    } else if seg == "argument"@ {
        pop_segment_text(index, "ARG"@)
    } else if seg == "this"@ {
        pop_segment_text(index, "THIS"@)
    } else if seg == "that"@ {
        pop_segment_text(index, "THAT"@)
    } else if seg == "pointer"@ {
        pop_reg_text(index, "3"@)
    } else if seg == "temp"@ {
        pop_reg_text(index, "5"@)
    } else if seg == "static"@ {
        POP_STACK@ + "@"@ + static_symbol(m, index) + "\nM=D\n"@
    } else {
        seq![]
    }
}

pub open spec fn label_text(sym: Seq<char>) -> Seq<char> {
    "("@ + sym + ")\n"@
}

pub open spec fn flow_text(f: FlowIns, sym: Seq<char>) -> Seq<char> {
    match f {
        FlowIns::Label => label_text(sym),
        FlowIns::Goto => "@"@ + sym + "\n0;JMP\n"@,
        FlowIns::IfGoto => POP_STACK@ + "@"@ + sym + "\nD;JNE\n"@,
    }
}

/// `k` pushes of zero.
pub open spec fn push_zeros(k: nat) -> Seq<char>
    decreases k,
{
    if k == 0 {
        seq![]
    } else {
        push_zeros((k - 1) as nat) + PUSH_ZERO@ + PUSH_STACK@
    }
}

pub open spec fn def_func_text(name: Seq<char>, n_local: i16) -> Seq<char> {
    label_text(name) + push_zeros(if n_local < 0 { 0 } else { n_local as nat })
}

/// The return-address label of call site `n`.
pub open spec fn return_label(n: nat) -> Seq<char> {
    "return_address."@ + nat_text(n)
}

/// Pushes the caller's LCL, ARG, THIS and THAT, in that order.
pub open spec fn save_frame_text() -> Seq<char> {
    LOAD_LCL@ + PUSH_STACK@ + LOAD_ARG@ + PUSH_STACK@ + LOAD_THIS@ + PUSH_STACK@ + LOAD_THAT@
        + PUSH_STACK@
}

/// The code of `return`.
pub open spec fn return_text() -> Seq<char> {
    FRAME_TO_R13@ + RETURN_ADDRESS_TO_R14@ + POP_STACK@ + RESULT_TO_ARG@ + RESTORE_THAT@
        + RESTORE_THIS@ + RESTORE_ARG@ + RESTORE_LCL@ + JUMP_TO_R14@
}

/// A call of `name` with `n_arg` arguments, as call site `n`.
pub open spec fn call_text(name: Seq<char>, n_arg: i16, n: nat) -> Seq<char> {
    "@"@ + return_label(n) + "\nD=A\n"@ + PUSH_STACK@ + save_frame_text() + "@"@ + int_text(
        n_arg + 5,
    ) + "\nD=A\n"@ + REPOSITION@ + "@"@ + name + "\n0;JMP\n"@ + label_text(return_label(n))
}

/// The code of one instruction, translated in module `m` with counters `c`.
pub open spec fn instr_text(ins: InstrView, m: Seq<char>, c: Counters) -> Seq<char> {
    match ins {
        InstrView::Arith(a) => arith_text(a),
        InstrView::Logic(l) => logical_text(l, m, c),
        InstrView::Push(seg, index) => push_text(seg, index, m),
        InstrView::Pop(seg, index) => pop_text(seg, index, m),
        InstrView::Flow(f, sym) => flow_text(f, sym),
        InstrView::DefFunc(name, n) => def_func_text(name, n),
        InstrView::CallFunc(name, n) => call_text(name, n, c.call + 1),
        InstrView::Ret => return_text(),
    }
}

/// The counters after translating `ins`: a comparison advances its own
/// counter, a call advances the call counter, nothing else changes them.
pub open spec fn counters_after(ins: InstrView, c: Counters) -> Counters {
    match ins {
        InstrView::Logic(LogicalIns::Eq) => Counters { eq: c.eq + 1, ..c },
        InstrView::Logic(LogicalIns::Gt) => Counters { gt: c.gt + 1, ..c },
        InstrView::Logic(LogicalIns::Lt) => Counters { lt: c.lt + 1, ..c },
        InstrView::CallFunc(_, _) => Counters { call: c.call + 1, ..c },
        _ => c,
    }
}

/// The module name of a file name: the part before the first dot.
pub fn module_name(filename: &str) -> (r: &str)
    ensures
        r@ == module_of(filename@),
{
    let n = filename.unicode_len();
    let mut i: usize = 0;
    while i < n && filename.get_char(i) != '.'
        invariant
            n == filename@.len(),
            i <= n,
            dot_index(filename@, 0) == dot_index(filename@, i as int),
        decreases n - i,
    {
        i = i + 1;
    }
    filename.substring_char(0, i)
}

impl Translator {
    pub fn new() -> (r: Translator)
        ensures
            r@ == (Counters { eq: 0, gt: 0, lt: 0, call: 0 }),
    {
        Translator { eq_count: 0, gt_count: 0, lt_count: 0, call_count: 0 }
    }

    /// Whether every counter can be advanced once more.
    pub fn has_room(&self) -> (r: bool)
        ensures
            r == has_room_spec(self@),
    {
        self.eq_count < u64::MAX && self.gt_count < u64::MAX && self.lt_count < u64::MAX
            && self.call_count < u64::MAX
    }

    /// The prologue of a program of several modules, emitted once before them.
    pub fn generate_boostrap(&self) -> (r: String)
        ensures
            r@ == BOOTSTRAP@,
    {
        String::from_str(BOOTSTRAP)
    }

    /// Translates one instruction of the file `filename`; the text is to be
    /// appended to the output in input order.
    pub fn translate(&mut self, instruction: Instruction, filename: &str) -> (r: String)
        requires
            has_room_spec(old(self)@),
        ensures
            r@ == instr_text(instruction@, module_of(filename@), old(self)@),
            final(self)@ == counters_after(instruction@, old(self)@),
    {
        let filename = module_name(filename);
        match instruction {
            Instruction::ArithmeticIns(a_ins) => Self::translate_arithmetic_ins(a_ins),
            Instruction::LogicalIns(l_ins) => self.translate_logical_ins(l_ins, filename),
            Instruction::Push(args) => Self::translate_push(args, filename),
            Instruction::Pop(args) => Self::translate_pop(args, filename),
            Instruction::FlowIns(ins, arg) => Self::translate_flow_ins(ins, arg),
            Instruction::DefFunc(name, n_local) => Self::translate_def_func(name, n_local),
            Instruction::CallFunc(name, n_arg) => self.translate_call_func(name, n_arg),
            Instruction::RetFunc => Self::translate_return_func(),
        }
    }

    fn translate_arithmetic_ins(ins: ArithmeticIns) -> (r: String)
        ensures
            r@ == arith_text(ins),
    {
        let mut ret = String::from_str(POP_STACK);
        match ins {
            ArithmeticIns::Add => {
                ret.append(DECREMENT_SP);
                ret.append(ADDRESSING_SP);
                ret.append("M=D+M\n");
            },
            ArithmeticIns::Sub => {
                ret.append(DECREMENT_SP);
                ret.append(ADDRESSING_SP);
                ret.append("M=M-D\n");
            },
            ArithmeticIns::Neg => {
                ret.append("M=-D\n");
            },
        }
        ret.append(INCREMENT_SP);
        ret
    }

    fn translate_logical_ins(&mut self, ins: LogicalIns, filename: &str) -> (r: String)
        requires
            has_room_spec(old(self)@),
        ensures
            r@ == logical_text(ins, filename@, old(self)@),
            final(self)@ == counters_after(InstrView::Logic(ins), old(self)@),
    {
        match ins {
            LogicalIns::And => {
                let mut ret = String::from_str(POP_STACK);
                ret.append(SECOND_OPERAND);
                ret.append("D=D&M\n");
                ret.append(PUSH_STACK);
                ret
            },
            LogicalIns::Or => {
                let mut ret = String::from_str(POP_STACK);
                ret.append(SECOND_OPERAND);
                ret.append("D=D|M\n");
                ret.append(PUSH_STACK);
                ret
            },
            LogicalIns::Not => {
                let mut ret = String::from_str(POP_STACK);
                ret.append("D=!D\n");
                ret.append(PUSH_STACK);
                ret
            },
            _ => {
                let (n, tag, jump) = match ins {
                    LogicalIns::Eq => {
                        self.eq_count = self.eq_count + 1;
                        (self.eq_count, ".EQ", "D;JEQ\n")
                    },
                    LogicalIns::Gt => {
                        self.gt_count = self.gt_count + 1;
                        (self.gt_count, ".GT", "D;JGT\n")
                    },
                    _ => {
                        self.lt_count = self.lt_count + 1;
                        (self.lt_count, ".LT", "D;JLT\n")
                    },
                };
                let number = u64_to_text(n);
                let mut true_label = String::from_str("TRUE.");
                true_label.append(filename);
                true_label.append(tag);
                true_label.append(number.as_str());
                let mut end_label = String::from_str("END.");
                end_label.append(filename);
                end_label.append(tag);
                end_label.append(number.as_str());
                let mut ret = String::from_str(POP_STACK);
                ret.append(COMPARE_OPERANDS);
                ret.append("@");
                ret.append(true_label.as_str());
                ret.append("\n");
                ret.append(jump);
                ret.append("D=0\n");
                ret.append(PUSH_STACK);
                ret.append("@");
                ret.append(end_label.as_str());
                ret.append("\n0;JMP\n");
                ret.append("(");
                ret.append(true_label.as_str());
                ret.append(")\n");
                ret.append("D=-1\n");
                ret.append(PUSH_STACK);
                ret.append("(");
                ret.append(end_label.as_str());
                ret.append(")\n");
                ret
            },
        }
    }

    fn translate_push(args: ArgsWithTwo, filename: &str) -> (r: String)
        ensures
            r@ == push_text(args.arg1@, args.arg2@, filename@),
    {
        let seg = &args.arg1;
        if is_word(seg, "constant") {
            let mut ret = String::from_str("@");
            ret.append(args.arg2.as_str());
            ret.append("\nD=A\n");
            ret.append(PUSH_STACK);
            ret
        } else if is_word(seg, "local") {
            Self::push_segment(args.arg2, "LCL")
        } else if is_word(seg, "argument") {
            Self::push_segment(args.arg2, "ARG")
        } else if is_word(seg, "this") {
            Self::push_segment(args.arg2, "THIS")
        } else if is_word(seg, "that") {
            Self::push_segment(args.arg2, "THAT")
        } else if is_word(seg, "pointer") {
            Self::push_reg(args.arg2, "3")
        } else if is_word(seg, "temp") {
            Self::push_reg(args.arg2, "5")
        } else if is_word(seg, "static") {
            let mut ret = String::from_str("@");
            ret.append(filename);
            ret.append(".");
            ret.append(args.arg2.as_str());
            ret.append("\nD=M\n");
            ret.append(PUSH_STACK);
            assert(ret@ =~= push_text(args.arg1@, args.arg2@, filename@));
            ret
        } else {
            String::new()
        }
    }

    fn push_segment(index: String, seg: &str) -> (r: String)
        ensures
            r@ == push_segment_text(index@, seg@),
    {
        let mut ret = String::from_str("@");
        ret.append(index.as_str());
        ret.append("\nD=A\n@");
        ret.append(seg);
        ret.append("\nA=D+M\nD=M\n");
        ret.append(PUSH_STACK);
        ret
    }

    fn push_reg(index: String, reg_addr: &str) -> (r: String)
        ensures
            r@ == push_reg_text(index@, reg_addr@),
    {
        let mut ret = String::from_str("@");
        ret.append(index.as_str());
        ret.append("\nD=A\n@");
        ret.append(reg_addr);
        ret.append("\nA=D+A\nD=M\n");
        ret.append(PUSH_STACK);
        ret
    }

    fn translate_pop(args: ArgsWithTwo, filename: &str) -> (r: String)
        ensures
            r@ == pop_text(args.arg1@, args.arg2@, filename@),
    {
        let seg = &args.arg1;
        if is_word(seg, "local") {
            Self::pop_segment(args.arg2, "LCL")
        } else if is_word(seg, "argument") {
            Self::pop_segment(args.arg2, "ARG")
        } else if is_word(seg, "this") {
            Self::pop_segment(args.arg2, "THIS")
        } else if is_word(seg, "that") {
            Self::pop_segment(args.arg2, "THAT")
        } else if is_word(seg, "pointer") {
            Self::pop_reg(args.arg2, "3")
        } else if is_word(seg, "temp") {
            Self::pop_reg(args.arg2, "5")
        } else if is_word(seg, "static") {
            let mut ret = String::from_str(POP_STACK);
            ret.append("@");
            ret.append(filename);
            ret.append(".");
            ret.append(args.arg2.as_str());
            ret.append("\nM=D\n");
            assert(ret@ =~= pop_text(args.arg1@, args.arg2@, filename@));
            ret
        } else {
            String::new()
        }
    }

    fn pop_segment(index: String, seg: &str) -> (r: String)
        ensures
            r@ == pop_segment_text(index@, seg@),
    {
        let mut ret = String::from_str(POP_STACK);
        ret.append(SAVE_POPPED);
        ret.append("@");
        ret.append(index.as_str());
        ret.append("\nD=A\n@");
        ret.append(seg);
        ret.append("\nA=D+M\n");
        ret.append(STORE_POPPED);
        ret
    }

    fn pop_reg(index: String, reg_addr: &str) -> (r: String)
        ensures
            r@ == pop_reg_text(index@, reg_addr@),
    {
        let mut ret = String::from_str(POP_STACK);
        ret.append(SAVE_POPPED);
        ret.append("@");
        ret.append(index.as_str());
        ret.append("\nD=A\n@");
        ret.append(reg_addr);
        ret.append("\nA=D+A\n");
        ret.append(STORE_POPPED);
        ret
    }

    fn translate_flow_ins(ins: FlowIns, arg: String) -> (r: String)
        ensures
            r@ == flow_text(ins, arg@),
    {
        match ins {
            FlowIns::Label => Self::translate_label(arg.as_str()),
            FlowIns::Goto => Self::translate_goto(arg),
            FlowIns::IfGoto => Self::translate_if_goto(arg),
        }
    }

    fn translate_label(sym: &str) -> (r: String)
        ensures
            r@ == label_text(sym@),
    {
        let mut ret = String::from_str("(");
        ret.append(sym);
        ret.append(")\n");
        ret
    }

    fn translate_goto(arg: String) -> (r: String)
        ensures
            r@ == flow_text(FlowIns::Goto, arg@),
    {
        let mut ret = String::from_str("@");
        ret.append(arg.as_str());
        ret.append("\n0;JMP\n");
        ret
    }

    fn translate_if_goto(arg: String) -> (r: String)
        ensures
            r@ == flow_text(FlowIns::IfGoto, arg@),
    {
        let mut ret = String::from_str(POP_STACK);
        ret.append("@");
        ret.append(arg.as_str());
        ret.append("\nD;JNE\n");
        ret
    }

    fn translate_def_func(name: String, n_local: i16) -> (r: String)
        ensures
            r@ == def_func_text(name@, n_local),
    {
        let mut ret = Self::translate_label(name.as_str());
        let ghost head = ret@;
        let mut i: i16 = 0;
        while i < n_local
            invariant
                0 <= i,
                n_local > 0 ==> i <= n_local,
                n_local <= 0 ==> i == 0,
                ret@ == head + push_zeros(i as nat),
            decreases n_local - i,
        {
            ret.append(PUSH_ZERO);
            ret.append(PUSH_STACK);
            i = i + 1;
            assert(ret@ =~= head + push_zeros(i as nat));
        }
        assert(ret@ =~= head + push_zeros(if n_local < 0 { 0 } else { n_local as nat }));
        ret
    }

    fn translate_call_func(&mut self, name: String, n_arg: i16) -> (r: String)
        requires
            old(self).call_count < u64::MAX,
        ensures
            r@ == call_text(name@, n_arg, old(self)@.call + 1),
            final(self)@ == counters_after(InstrView::CallFunc(name@, n_arg), old(self)@),
    {
        self.call_count = self.call_count + 1;
        let mut ret_addr = String::from_str("return_address.");
        let number = u64_to_text(self.call_count);
        ret_addr.append(number.as_str());
        let mut ret = String::from_str("@");
        ret.append(ret_addr.as_str());
        ret.append("\nD=A\n");
        ret.append(PUSH_STACK);
        let ghost head = ret@;
        ret.append(LOAD_LCL);
        ret.append(PUSH_STACK);
        ret.append(LOAD_ARG);
        ret.append(PUSH_STACK);
        ret.append(LOAD_THIS);
        ret.append(PUSH_STACK);
        ret.append(LOAD_THAT);
        ret.append(PUSH_STACK);
        assert(ret@ =~= head + save_frame_text());
        ret.append("@");
        let offset = i32_to_text(n_arg as i32 + 5);
        ret.append(offset.as_str());
        ret.append("\nD=A\n");
        ret.append(REPOSITION);
        ret.append("@");
        ret.append(name.as_str());
        ret.append("\n0;JMP\n");
        let landing = Self::translate_label(ret_addr.as_str());
        ret.append(landing.as_str());
        ret
    }

    fn translate_return_func() -> (r: String)
        ensures
            r@ == return_text(),
    {
        let mut ret = String::from_str(FRAME_TO_R13);
        ret.append(RETURN_ADDRESS_TO_R14);
        ret.append(POP_STACK);
        ret.append(RESULT_TO_ARG);
        ret.append(RESTORE_THAT);
        ret.append(RESTORE_THIS);
        ret.append(RESTORE_ARG);
        ret.append(RESTORE_LCL);
        ret.append(JUMP_TO_R14);
        ret
    }
}

} // verus!
