use vm_translator::decimal::parse_i16;
use vm_translator::parser::split_words;
use vm_translator::{parse, ArithmeticIns, FlowIns, Instruction, LogicalIns};

fn p(line: &str) -> Option<Instruction> {
    parse(line.to_string())
}

#[test]
fn parses_arithmetic_and_logic() {
    assert!(matches!(p("add"), Some(Instruction::ArithmeticIns(ArithmeticIns::Add))));
    assert!(matches!(p("sub"), Some(Instruction::ArithmeticIns(ArithmeticIns::Sub))));
    assert!(matches!(p("neg"), Some(Instruction::ArithmeticIns(ArithmeticIns::Neg))));
    assert!(matches!(p("eq"), Some(Instruction::LogicalIns(LogicalIns::Eq))));
    assert!(matches!(p("gt"), Some(Instruction::LogicalIns(LogicalIns::Gt))));
    assert!(matches!(p("lt"), Some(Instruction::LogicalIns(LogicalIns::Lt))));
    assert!(matches!(p("and"), Some(Instruction::LogicalIns(LogicalIns::And))));
    assert!(matches!(p("or"), Some(Instruction::LogicalIns(LogicalIns::Or))));
    assert!(matches!(p("not"), Some(Instruction::LogicalIns(LogicalIns::Not))));
    assert!(matches!(p("return"), Some(Instruction::RetFunc)));
}

#[test]
fn parses_push_and_pop_verbatim() {
    match p("push constant 17") {
        Some(Instruction::Push(a)) => {
            assert_eq!(a.arg1, "constant");
            assert_eq!(a.arg2, "17");
        }
        other => panic!("unexpected {:?}", other),
    }
    match p("pop bogus x") {
        Some(Instruction::Pop(a)) => {
            assert_eq!(a.arg1, "bogus");
            assert_eq!(a.arg2, "x");
        }
        other => panic!("unexpected {:?}", other),
    }
}

#[test]
fn parses_flow() {
    match p("if-goto LOOP") {
        Some(Instruction::FlowIns(FlowIns::IfGoto, s)) => assert_eq!(s, "LOOP"),
        other => panic!("unexpected {:?}", other),
    }
    assert!(matches!(p("label X"), Some(Instruction::FlowIns(FlowIns::Label, _))));
    assert!(matches!(p("goto X"), Some(Instruction::FlowIns(FlowIns::Goto, _))));
}

#[test]
fn parses_function_and_call_counts() {
    match p("function Main.main 3") {
        Some(Instruction::DefFunc(name, n)) => {
            assert_eq!(name, "Main.main");
            assert_eq!(n, 3);
        }
        other => panic!("unexpected {:?}", other),
    }
    match p("call Math.multiply 2") {
        Some(Instruction::CallFunc(name, n)) => {
            assert_eq!(name, "Math.multiply");
            assert_eq!(n, 2);
        }
        other => panic!("unexpected {:?}", other),
    }
    assert!(matches!(p("call f 32767"), Some(Instruction::CallFunc(_, 32767))));
    assert!(matches!(p("call f -32768"), Some(Instruction::CallFunc(_, -32768))));
}

#[test]
fn malformed_function_count_is_dropped() {
    assert!(p("function foo notanumber").is_none());
    assert!(p("call foo 32768").is_none());
    assert!(p("function foo").is_none());
    assert!(p("call foo 1x").is_none());
}

#[test]
fn blank_comment_and_unknown_lines_are_dropped() {
    assert!(p("").is_none());
    assert!(p("   ").is_none());
    assert!(p("// push constant 1").is_none());
    assert!(p("mul").is_none());
    assert!(p("push constant").is_none());
    assert!(p("goto").is_none());
}

#[test]
fn splits_on_any_whitespace() {
    let w = split_words("  push\tlocal   2 \r");
    assert_eq!(w, vec!["push".to_string(), "local".to_string(), "2".to_string()]);
    assert!(split_words("").is_empty());
    match p("\tpush  argument 1\r") {
        Some(Instruction::Push(a)) => {
            assert_eq!(a.arg1, "argument");
            assert_eq!(a.arg2, "1");
        }
        other => panic!("unexpected {:?}", other),
    }
}

#[test]
fn reads_sixteen_bit_counts() {
    assert_eq!(parse_i16("0"), Some(0));
    assert_eq!(parse_i16("007"), Some(7));
    assert_eq!(parse_i16("+12"), Some(12));
    assert_eq!(parse_i16("-12"), Some(-12));
    assert_eq!(parse_i16("32767"), Some(32767));
    assert_eq!(parse_i16("-32768"), Some(-32768));
    assert_eq!(parse_i16("32768"), None);
    assert_eq!(parse_i16("99999999999999999999"), None);
    assert_eq!(parse_i16("-"), None);
    assert_eq!(parse_i16(""), None);
    assert_eq!(parse_i16("1a"), None);
}
