use std::collections::HashMap;
use vm_translator::{parse, Translator};

enum Op {
    Load(u16),
    Compute(String, String, String),
}

struct Machine {
    prog: Vec<Op>,
    labels: HashMap<String, u16>,
    ram: Vec<i16>,
    a: i16,
    d: i16,
    pc: usize,
}

fn assemble(text: &str) -> (Vec<Op>, HashMap<String, u16>) {
    let lines: Vec<&str> = text.lines().map(|l| l.trim()).filter(|l| !l.is_empty()).collect();
    let mut labels = HashMap::new();
    let mut pc: u16 = 0;
    for l in &lines {
        if l.starts_with('(') {
            labels.insert(l[1..l.len() - 1].to_string(), pc);
        } else {
            pc += 1;
        }
    }
    let mut symbols: HashMap<String, u16> = HashMap::new();
    for (i, name) in ["SP", "LCL", "ARG", "THIS", "THAT"].iter().enumerate() {
        symbols.insert(name.to_string(), i as u16);
    }
    for i in 0..16u16 {
        symbols.insert(format!("R{}", i), i);
    }
    let mut next_var: u16 = 16;
    let mut prog = Vec::new();
    for l in &lines {
        if l.starts_with('(') {
            continue;
        }
        if let Some(sym) = l.strip_prefix('@') {
            let v = if let Ok(n) = sym.parse::<u16>() {
                n
            } else if let Some(&n) = symbols.get(sym) {
                n
            } else if let Some(&n) = labels.get(sym) {
                n
            } else {
                symbols.insert(sym.to_string(), next_var);
                next_var += 1;
                next_var - 1
            };
            prog.push(Op::Load(v));
        } else {
            let (dest, rest) = match l.find('=') {
                Some(i) => (&l[..i], &l[i + 1..]),
                None => ("", &l[..]),
            };
            let (comp, jump) = match rest.find(';') {
                Some(i) => (&rest[..i], &rest[i + 1..]),
                None => (rest, ""),
            };
            prog.push(Op::Compute(dest.to_string(), comp.to_string(), jump.to_string()));
        }
    }
    (prog, labels)
}

impl Machine {
    fn new(text: &str) -> Machine {
        let (prog, labels) = assemble(text);
        Machine { prog, labels, ram: vec![0; 32768], a: 0, d: 0, pc: 0 }
    }

    fn comp(&self, c: &str) -> i16 {
        let a = self.a;
        let d = self.d;
        let m = self.ram[a as u16 as usize];
        match c {
            "0" => 0,
            "1" => 1,
            "-1" => -1,
            "D" => d,
            "A" => a,
            "M" => m,
            "!D" => !d,
            "-D" => d.wrapping_neg(),
            "D+1" => d.wrapping_add(1),
            "A+1" => a.wrapping_add(1),
            "M+1" => m.wrapping_add(1),
            "M-1" => m.wrapping_sub(1),
            "D+A" => d.wrapping_add(a),
            "D+M" => d.wrapping_add(m),
            "M-D" => m.wrapping_sub(d),
            "D-M" => d.wrapping_sub(m),
            "D&M" => d & m,
            "D|M" => d | m,
            _ => panic!("unknown computation {}", c),
        }
    }

    /// Runs until the program counter reaches `stop` or leaves the program.
    fn run(&mut self, stop: &str, max_steps: usize) {
        let stop_at = self.labels.get(stop).map(|&p| p as usize);
        for _ in 0..max_steps {
            if Some(self.pc) == stop_at || self.pc >= self.prog.len() {
                return;
            }
            match &self.prog[self.pc] {
                Op::Load(v) => {
                    self.a = *v as i16;
                    self.pc += 1;
                }
                Op::Compute(dest, comp, jump) => {
                    let v = self.comp(comp);
                    let addr = self.a as u16 as usize;
                    if dest.contains('M') {
                        self.ram[addr] = v;
                    }
                    if dest.contains('A') {
                        self.a = v;
                    }
                    if dest.contains('D') {
                        self.d = v;
                    }
                    let taken = match jump.as_str() {
                        "" => false,
                        "JMP" => true,
                        "JEQ" => v == 0,
                        "JNE" => v != 0,
                        "JGT" => v > 0,
                        "JLT" => v < 0,
                        _ => panic!("unknown jump {}", jump),
                    };
                    self.pc = if taken { addr } else { self.pc + 1 };
                }
            }
        }
        panic!("did not stop");
    }

    fn top(&self) -> i16 {
        self.ram[self.ram[0] as usize - 1]
    }
}

fn translate_all(t: &mut Translator, lines: &[(&str, &str)]) -> String {
    let mut out = String::new();
    for (line, file) in lines {
        if let Some(ins) = parse(line.to_string()) {
            out += &t.translate(ins, file);
        }
    }
    out
}

fn setup(m: &mut Machine) {
    m.ram[0] = 256;
    m.ram[1] = 300;
    m.ram[2] = 400;
    m.ram[3] = 3000;
    m.ram[4] = 4000;
}

#[test]
fn sub_pushes_difference() {
    let mut t = Translator::new();
    let text = translate_all(
        &mut t,
        &[("push constant 7", "M.vm"), ("push constant 2", "M.vm"), ("sub", "M.vm")],
    );
    let mut m = Machine::new(&text);
    setup(&mut m);
    m.run("", 1000);
    assert_eq!(m.ram[0], 257);
    assert_eq!(m.top(), 5);
}

#[test]
fn constant_through_local_round_trip() {
    for k in [0i16, 1, 5, 17, 1000, 32767] {
        let mut t = Translator::new();
        let lit = k.to_string();
        let push = format!("push constant {}", lit);
        let text = translate_all(
            &mut t,
            &[(push.as_str(), "M.vm"), ("pop local 0", "M.vm"), ("push local 0", "M.vm")],
        );
        let mut m = Machine::new(&text);
        setup(&mut m);
        m.run("", 1000);
        assert_eq!(m.ram[0], 257);
        assert_eq!(m.top(), k);
        assert_eq!(m.ram[300], k);
    }
}

#[test]
fn comparisons_push_true_or_false() {
    for (a, b, op, want) in [
        (3, 3, "eq", -1i16),
        (3, 4, "eq", 0),
        (5, 4, "gt", -1),
        (4, 5, "gt", 0),
        (4, 5, "lt", -1),
        (5, 4, "lt", 0),
    ] {
        let pa = format!("push constant {}", a);
        let pb = format!("push constant {}", b);
        let text = translate_all(
            &mut Translator::new(),
            &[(pa.as_str(), "M.vm"), (pb.as_str(), "M.vm"), (op, "M.vm")],
        );
        let mut m = Machine::new(&text);
        setup(&mut m);
        m.run("", 1000);
        assert_eq!(m.ram[0], 257);
        assert_eq!(m.top(), want);
    }
}

#[test]
fn call_and_return_restore_caller_frame() {
    for (n, locals, body) in [(2, 3, true), (0, 0, false), (1, 2, false), (3, 0, true)] {
        let mut t = Translator::new();
        let mut lines: Vec<(String, &str)> = Vec::new();
        for i in 0..n {
            lines.push((format!("push constant {}", 10 + i), "Main.vm"));
        }
        lines.push((format!("call F.f {}", n), "Main.vm"));
        lines.push(("goto HALT".to_string(), "Main.vm"));
        lines.push((format!("function F.f {}", locals), "F.vm"));
        if body {
            lines.push(("push constant 99".to_string(), "F.vm"));
        }
        lines.push(("return".to_string(), "F.vm"));
        lines.push(("label HALT".to_string(), "Main.vm"));
        let refs: Vec<(&str, &str)> = lines.iter().map(|(l, f)| (l.as_str(), *f)).collect();
        let text = translate_all(&mut t, &refs);
        let mut m = Machine::new(&text);
        setup(&mut m);
        m.run("HALT", 10000);
        assert_eq!(m.ram[1], 300);
        assert_eq!(m.ram[2], 400);
        assert_eq!(m.ram[3], 3000);
        assert_eq!(m.ram[4], 4000);
        let pre_call_sp = 256 + n as i16;
        assert_eq!(m.ram[0], pre_call_sp - n as i16 + 1);
        let expected = if body {
            99
        } else if locals > 0 {
            0
        } else {
            4000
        };
        assert_eq!(m.ram[(pre_call_sp - n as i16) as usize], expected);
    }
}

#[test]
fn static_cells_of_modules_are_separate() {
    let mut t = Translator::new();
    let text = translate_all(
        &mut t,
        &[
            ("push constant 42", "A.vm"),
            ("pop static 0", "A.vm"),
            ("push static 0", "B.vm"),
            ("push static 0", "A.vm"),
        ],
    );
    let mut m = Machine::new(&text);
    setup(&mut m);
    m.run("", 1000);
    assert_eq!(m.ram[0], 258);
    assert_eq!(m.ram[256], 0);
    assert_eq!(m.ram[257], 42);
}
