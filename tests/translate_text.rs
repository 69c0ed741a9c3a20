use vm_translator::decimal::{i32_to_text, u64_to_text};
use vm_translator::translator::module_name;
use vm_translator::{parse, Translator};

fn tr(t: &mut Translator, line: &str, file: &str) -> String {
    t.translate(parse(line.to_string()).unwrap(), file)
}

const POP: &str = "@SP\nM=M-1\nA=M\nD=M\n";
const PUSH: &str = "@SP\nA=M\nM=D\n@SP\nM=M+1\n";

#[test]
fn bootstrap_sets_stack_and_enters_sys_init() {
    let t = Translator::new();
    assert_eq!(t.generate_boostrap(), "@261\nD=A\n@SP\nM=D\n@Sys.init\n0;JMP\n");
}

#[test]
fn arithmetic_text() {
    let mut t = Translator::new();
    assert_eq!(
        tr(&mut t, "add", "Main.vm"),
        format!("{}@SP\nM=M-1\n@SP\nA=M\nM=D+M\n@SP\nM=M+1\n", POP)
    );
    assert_eq!(
        tr(&mut t, "sub", "Main.vm"),
        format!("{}@SP\nM=M-1\n@SP\nA=M\nM=M-D\n@SP\nM=M+1\n", POP)
    );
    assert_eq!(tr(&mut t, "neg", "Main.vm"), format!("{}M=-D\n@SP\nM=M+1\n", POP));
    assert_eq!(tr(&mut t, "not", "Main.vm"), format!("{}D=!D\n{}", POP, PUSH));
    assert_eq!(
        tr(&mut t, "and", "Main.vm"),
        format!("{}@SP\nM=M-1\nA=M\nD=D&M\n{}", POP, PUSH)
    );
}

#[test]
fn comparison_labels_are_numbered_per_kind() {
    let mut t = Translator::new();
    let a = tr(&mut t, "eq", "Foo.vm");
    assert!(a.contains("@TRUE.Foo.EQ1\nD;JEQ\n"));
    assert!(a.contains("(END.Foo.EQ1)\n"));
    let b = tr(&mut t, "eq", "Bar.vm");
    assert!(b.contains("(TRUE.Bar.EQ2)\n"));
    let c = tr(&mut t, "gt", "Foo.vm");
    assert!(c.contains("(TRUE.Foo.GT1)\n"));
    assert!(c.contains("D;JGT\n"));
    let d = tr(&mut t, "lt", "Foo.vm");
    assert!(d.contains("(END.Foo.LT1)\n"));
    let e = tr(&mut t, "eq", "Foo.vm");
    assert!(e.contains("(TRUE.Foo.EQ3)\n"));
    assert!(!a.contains("EQ3"));
}

#[test]
fn many_comparisons_have_distinct_labels() {
    let mut t = Translator::new();
    let mut seen = std::collections::HashSet::new();
    for i in 0..200 {
        let file = if i % 2 == 0 { "A.vm" } else { "B.vm" };
        let s = tr(&mut t, "lt", file);
        let label = s.lines().find(|l| l.starts_with("(TRUE.")).unwrap().to_string();
        assert!(seen.insert(label));
    }
}

#[test]
fn call_sites_have_distinct_return_labels() {
    let mut t = Translator::new();
    let a = tr(&mut t, "call f 0", "Main.vm");
    let b = tr(&mut t, "call f 0", "Main.vm");
    assert!(a.starts_with("@return_address.1\nD=A\n"));
    assert!(a.ends_with("@f\n0;JMP\n(return_address.1)\n"));
    assert!(b.ends_with("(return_address.2)\n"));
}

#[test]
fn call_sets_argument_base_below_frame() {
    let mut t = Translator::new();
    let a = tr(&mut t, "call g 3", "Main.vm");
    assert!(a.contains("@8\nD=A\n@SP\nD=M-D\n@ARG\nM=D\n@SP\nD=M\n@LCL\nM=D\n"));
}

#[test]
fn push_segments_text() {
    let mut t = Translator::new();
    assert_eq!(tr(&mut t, "push constant 7", "M.vm"), format!("@7\nD=A\n{}", PUSH));
    assert_eq!(
        tr(&mut t, "push local 2", "M.vm"),
        format!("@2\nD=A\n@LCL\nA=D+M\nD=M\n{}", PUSH)
    );
    assert_eq!(
        tr(&mut t, "push temp 1", "M.vm"),
        format!("@1\nD=A\n@5\nA=D+A\nD=M\n{}", PUSH)
    );
    assert_eq!(
        tr(&mut t, "push pointer 0", "M.vm"),
        format!("@0\nD=A\n@3\nA=D+A\nD=M\n{}", PUSH)
    );
    assert_eq!(tr(&mut t, "push static 4", "Mod.vm"), format!("@Mod.4\nD=M\n{}", PUSH));
    assert_eq!(tr(&mut t, "push nowhere 4", "Mod.vm"), "");
}

#[test]
fn pop_segments_text() {
    let mut t = Translator::new();
    assert_eq!(
        tr(&mut t, "pop that 3", "M.vm"),
        format!(
            "{}@R13\nM=D\n@3\nD=A\n@THAT\nA=D+M\nD=A\n@R14\nM=D\n@R13\nD=M\n@R14\nA=M\nM=D\n",
            POP
        )
    );
    assert_eq!(
        tr(&mut t, "pop temp 6", "M.vm"),
        format!(
            "{}@R13\nM=D\n@6\nD=A\n@5\nA=D+A\nD=A\n@R14\nM=D\n@R13\nD=M\n@R14\nA=M\nM=D\n",
            POP
        )
    );
    assert_eq!(tr(&mut t, "pop static 0", "Mod.x.vm"), format!("{}@Mod.0\nM=D\n", POP));
    assert_eq!(tr(&mut t, "pop constant 0", "M.vm"), "");
}

#[test]
fn flow_text() {
    let mut t = Translator::new();
    assert_eq!(tr(&mut t, "label LOOP", "M.vm"), "(LOOP)\n");
    assert_eq!(tr(&mut t, "goto LOOP", "M.vm"), "@LOOP\n0;JMP\n");
    assert_eq!(tr(&mut t, "if-goto LOOP", "M.vm"), format!("{}@LOOP\nD;JNE\n", POP));
}

#[test]
fn function_initialises_locals() {
    let mut t = Translator::new();
    let zero = format!("@0\nD=A\n{}", PUSH);
    assert_eq!(tr(&mut t, "function f 0", "M.vm"), "(f)\n");
    assert_eq!(tr(&mut t, "function f 2", "M.vm"), format!("(f)\n{}{}", zero, zero));
    assert_eq!(tr(&mut t, "function f -2", "M.vm"), "(f)\n");
}

#[test]
fn return_restores_frame() {
    let mut t = Translator::new();
    let r = tr(&mut t, "return", "M.vm");
    assert!(r.starts_with("@LCL\nD=M\n@R13\nM=D\n@5\nD=A\n@R13\nA=M-D\nD=M\n@R14\nM=D\n"));
    assert!(r.ends_with("@R14\nA=M\n0;JMP\n"));
}

#[test]
fn malformed_call_leaves_call_counter() {
    let mut t = Translator::new();
    assert!(parse("function foo notanumber".to_string()).is_none());
    let a = tr(&mut t, "call f 1", "Main.vm");
    assert!(a.ends_with("(return_address.1)\n"));
}

#[test]
fn module_names() {
    assert_eq!(module_name("Main.vm"), "Main");
    assert_eq!(module_name("a.b.vm"), "a");
    assert_eq!(module_name("noext"), "noext");
    assert_eq!(module_name(""), "");
}

#[test]
fn numbers_as_text() {
    assert_eq!(u64_to_text(0), "0");
    assert_eq!(u64_to_text(1907), "1907");
    assert_eq!(u64_to_text(u64::MAX), u64::MAX.to_string());
    assert_eq!(i32_to_text(-42), "-42");
    assert_eq!(i32_to_text(32772), "32772");
}

#[test]
fn counters_have_room_at_start() {
    assert!(Translator::new().has_room());
}
