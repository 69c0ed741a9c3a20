use vstd::prelude::*;

use crate::decimal::{i16_of, parse_i16};
use crate::instruction::{
    ArgsWithTwo, ArithmeticIns, FlowIns, InstrView, Instruction, LogicalIns, view_opt,
};

verus! {

pub open spec fn is_space(c: char) -> bool {
    c == ' ' || c == '\t' || c == '\n' || c == '\r' || c == '\x0B' || c == '\x0C'
}

/// The words of `s` from position `i` on, where `start` is where the word being
/// read began, if one is.
pub open spec fn scan_words(s: Seq<char>, i: int, start: Option<int>) -> Seq<Seq<char>>
    decreases s.len() - i,
{
    if i >= s.len() {
        match start {
            Some(st) => seq![s.subrange(st, s.len() as int)],
            None => seq![],
        }
    } else if is_space(s[i]) {
        match start {
            Some(st) => seq![s.subrange(st, i)] + scan_words(s, i + 1, None),
            None => scan_words(s, i + 1, None),
        }
    } else {
        match start {
            Some(st) => scan_words(s, i + 1, Some(st)),
            None => scan_words(s, i + 1, Some(i)),
        }
    }
}

/// The maximal runs of non-whitespace characters of `s`, in order.
pub open spec fn words(s: Seq<char>) -> Seq<Seq<char>> {
    scan_words(s, 0, None)
}

/// An instruction with a count operand, or none where the count is not a
/// 16-bit signed integer.
pub open spec fn counted(w: Seq<Seq<char>>, call: bool) -> Option<InstrView> {
    if w.len() < 3 {
        None
    } else {
        match i16_of(w[2]) {
            Some(n) => if call {
                Some(InstrView::CallFunc(w[1], n))
            } else {
                Some(InstrView::DefFunc(w[1], n))
            },
            None => None,
        }
    }
}

/// The instruction that a line of words stands for; none for a blank line,
/// an unknown first word, or missing or malformed operands.
pub open spec fn parse_words(w: Seq<Seq<char>>) -> Option<InstrView> {
    if w.len() == 0 {
        None
    } else {
        let op = w[0];
        if op == "add"@ {
            Some(InstrView::Arith(ArithmeticIns::Add))
        } else if op == "sub"@ {
            Some(InstrView::Arith(ArithmeticIns::Sub))
        } else if op == "neg"@ {
            Some(InstrView::Arith(ArithmeticIns::Neg))
        } else if op == "eq"@ {
            Some(InstrView::Logic(LogicalIns::Eq))
        } else if op == "gt"@ {
            Some(InstrView::Logic(LogicalIns::Gt))
        } else if op == "lt"@ {
            Some(InstrView::Logic(LogicalIns::Lt))
        } else if op == "and"@ {
            Some(InstrView::Logic(LogicalIns::And))
        } else if op == "or"@ {
            Some(InstrView::Logic(LogicalIns::Or))
        } else if op == "not"@ {
            Some(InstrView::Logic(LogicalIns::Not))
        } else if op == "push"@ {
            if w.len() >= 3 { Some(InstrView::Push(w[1], w[2])) } else { None }
        } else if op == "pop"@ {
            if w.len() >= 3 { Some(InstrView::Pop(w[1], w[2])) } else { None }
        } else if op == "label"@ {
            if w.len() >= 2 { Some(InstrView::Flow(FlowIns::Label, w[1])) } else { None }
        } else if op == "goto"@ {
            if w.len() >= 2 { Some(InstrView::Flow(FlowIns::Goto, w[1])) } else { None }
        } else if op == "if-goto"@ {
            if w.len() >= 2 { Some(InstrView::Flow(FlowIns::IfGoto, w[1])) } else { None }
        } else if op == "function"@ {
            counted(w, false)
        } else if op == "call"@ {
            counted(w, true)
        } else if op == "return"@ {
            Some(InstrView::Ret)
        } else {
            None
        }
    }
}

pub open spec fn parse_line(line: Seq<char>) -> Option<InstrView> {
    parse_words(words(line))
}

fn is_space_char(c: char) -> (r: bool)
    ensures
        r == is_space(c),
{
    c == ' ' || c == '\t' || c == '\n' || c == '\r' || c == '\x0B' || c == '\x0C'
}

/// Splits `s` into its whitespace-separated words.
pub fn split_words(s: &str) -> (r: Vec<String>)
    ensures
        r@.len() == words(s@).len(),
        forall|k: int| 0 <= k < r@.len() ==> #[trigger] r@[k]@ == words(s@)[k],
{
    let n = s.unicode_len();
    let mut out: Vec<String> = Vec::new();
    let mut start: Option<usize> = None;
    let mut i: usize = 0;
    while i < n
        invariant
            n == s@.len(),
            i <= n,
            match start {
                Some(st) => st < i,
                None => true,
            },
            out@.map_values(|t: String| t@) + scan_words(
                s@,
                i as int,
                match start {
                    Some(st) => Some(st as int),
                    None => None,
                },
            ) == words(s@),
        decreases n - i,
    {
        let ghost before = out@.map_values(|t: String| t@);
        let c = s.get_char(i);
        if is_space_char(c) {
            match start {
                Some(st) => {
                    let w = String::from_str(s.substring_char(st, i));
                    out.push(w);
                    assert(out@.map_values(|t: String| t@) =~= before.push(
                        s@.subrange(st as int, i as int),
                    ));
                    assert(seq![s@.subrange(st as int, i as int)] + scan_words(
                        s@,
                        i + 1,
                        None,
                    ) == scan_words(s@, i as int, Some(st as int)));
                    assert(before + (seq![s@.subrange(st as int, i as int)] + scan_words(
                        s@,
                        i + 1,
                        None,
                    )) =~= before.push(s@.subrange(st as int, i as int)) + scan_words(
                        s@,
                        i + 1,
                        None,
                    ));
                },
                None => {},
            }
            start = None;
        } else {
            match start {
                Some(_) => {},
                None => {
                    start = Some(i);
                },
            }
        }
        i = i + 1;
    }
    let ghost before = out@.map_values(|t: String| t@);
    match start {
        Some(st) => {
            let w = String::from_str(s.substring_char(st, n));
            out.push(w);
            assert(out@.map_values(|t: String| t@) =~= before.push(
                s@.subrange(st as int, n as int),
            ));
            assert(before + seq![s@.subrange(st as int, n as int)] =~= before.push(
                s@.subrange(st as int, n as int),
            ));
        },
        None => {
            assert(before + seq![] =~= before);
        },
    }
    assert forall|k: int| 0 <= k < out@.len() implies #[trigger] out@[k]@ == words(s@)[k] by {
        assert(out@.map_values(|t: String| t@)[k] == out@[k]@);
    }
    out
}

/// Whether the word `w` is exactly `text`.
pub(crate) fn is_word(w: &String, text: &str) -> (r: bool)
    ensures
        r == (w@ == text@),
{
    let t = String::from_str(text);
    *w == t
}

fn counted_ins(w: &Vec<String>, call: bool) -> (r: Option<Instruction>)
    requires
        w@.len() >= 1,
    ensures
        view_opt(r) == counted(w@.map_values(|t: String| t@), call),
{
    let ghost ws = w@.map_values(|t: String| t@);
    if w.len() < 3 {
        return None;
    }
    assert(ws[2] == w@[2]@);
    assert(ws[1] == w@[1]@);
    match parse_i16(w[2].as_str()) {
        Some(n) => {
            let name = w[1].clone();
            if call {
                Some(Instruction::CallFunc(name, n))
            } else {
                Some(Instruction::DefFunc(name, n))
            }
        },
        None => None,
    }
}

/// Reads one line of stack-machine source. Blank lines, comments, unknown
/// instructions and malformed operands give `None`.
pub fn parse(line: String) -> (r: Option<Instruction>)
    ensures
        view_opt(r) == parse_line(line@),
{
    let w = split_words(line.as_str());
    let ghost ws = w@.map_values(|t: String| t@);
    assert(ws =~= words(line@));
    if w.len() == 0 {
        return None;
    }
    assert(ws[0] == w@[0]@);
    let op = &w[0];
    if is_word(op, "add") {
        Some(Instruction::ArithmeticIns(ArithmeticIns::Add))
    } else if is_word(op, "sub") {
        Some(Instruction::ArithmeticIns(ArithmeticIns::Sub))
    } else if is_word(op, "neg") {
        Some(Instruction::ArithmeticIns(ArithmeticIns::Neg))
    } else if is_word(op, "eq") {
        Some(Instruction::LogicalIns(LogicalIns::Eq))
    } else if is_word(op, "gt") {
        Some(Instruction::LogicalIns(LogicalIns::Gt))
    } else if is_word(op, "lt") {
        Some(Instruction::LogicalIns(LogicalIns::Lt))
    } else if is_word(op, "and") {
        Some(Instruction::LogicalIns(LogicalIns::And))
    } else if is_word(op, "or") {
        Some(Instruction::LogicalIns(LogicalIns::Or))
    } else if is_word(op, "not") {
        Some(Instruction::LogicalIns(LogicalIns::Not))
    } else if is_word(op, "push") || is_word(op, "pop") {
        if w.len() < 3 {
            return None;
        }
        assert(ws[1] == w@[1]@);
        assert(ws[2] == w@[2]@);
        let args = ArgsWithTwo { arg1: w[1].clone(), arg2: w[2].clone() };
        if is_word(op, "push") {
            Some(Instruction::Push(args))
        } else {
            Some(Instruction::Pop(args))
        }
    } else if is_word(op, "label") || is_word(op, "goto") || is_word(op, "if-goto") {
        if w.len() < 2 {
            return None;
        }
        assert(ws[1] == w@[1]@);
        let arg = w[1].clone();
        if is_word(op, "label") {
            Some(Instruction::FlowIns(FlowIns::Label, arg))
        } else if is_word(op, "goto") {
            Some(Instruction::FlowIns(FlowIns::Goto, arg))
        } else {
            Some(Instruction::FlowIns(FlowIns::IfGoto, arg))
        }
    } else if is_word(op, "function") {
        counted_ins(&w, false)
    } else if is_word(op, "call") {
        counted_ins(&w, true)
    } else if is_word(op, "return") {
        Some(Instruction::RetFunc)
    } else {
        None
    }
}

} // verus!
