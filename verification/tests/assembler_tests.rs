use lnc::assembler::{assemble, disassemble, AsmError};
use lnc::lex::tokenize;
use lnc::parse::Address::Numeric;
use lnc::parse::{parse, Instruction};

fn single(source: &str) -> usize {
    let tokens = tokenize(source).unwrap();
    let parse_info = parse(&tokens).unwrap();
    let mem = assemble(&parse_info).unwrap();
    mem[0]
}

#[test]
fn assemble_with_addr() {
    assert_eq!(single("lda 01"), 501);
    assert_eq!(single("sto 02"), 302);
    assert_eq!(single("add 03"), 103);
    assert_eq!(single("sub 04"), 204);
    assert_eq!(single("brz 99"), 799);
    assert_eq!(single("brp 98"), 898);
    assert_eq!(single("bra 97"), 697);
}

#[test]
fn assemble_without_addr() {
    assert_eq!(single("inp"), 901);
    assert_eq!(single("out"), 902);
    assert_eq!(single("hlt"), 000);
}

#[test]
fn assemble_data() {
    assert_eq!(single("dat 123"), 123);
}

#[test]
fn assemble_symbolic() {
    let tokens = tokenize("bra end\nend: hlt").unwrap();
    let parse_info = parse(&tokens).unwrap();
    let mem = assemble(&parse_info).unwrap();
    assert_eq!(mem[0], 601);
    assert_eq!(mem[1], 0);
    for cell in mem.iter().skip(2) {
        assert_eq!(*cell, 0);
    }
}

#[test]
fn assemble_undefined_label() {
    let tokens = tokenize("lda nowhere").unwrap();
    let parse_info = parse(&tokens).unwrap();
    let err = assemble(&parse_info).unwrap_err();
    assert_eq!(err, AsmError::UndefinedLabel("nowhere".into()));
    assert_eq!(err.message(), "Label 'nowhere' is not defined");
}

#[test]
fn decode_round_trip() {
    // Encoding each executable opcode and reading the word back by its
    // class/operand split recovers the mnemonic and operand exactly.
    let cases: Vec<(&str, Instruction)> = vec![
        ("lda 07", Instruction::Load(Numeric(7))),
        ("sto 08", Instruction::Store(Numeric(8))),
        ("add 09", Instruction::Add(Numeric(9))),
        ("sub 10", Instruction::Subtract(Numeric(10))),
        ("inp", Instruction::Input),
        ("out", Instruction::Output),
        ("hlt", Instruction::Halt),
        ("brz 11", Instruction::BranchZero(Numeric(11))),
        ("brp 12", Instruction::BranchPositive(Numeric(12))),
        ("bra 13", Instruction::BranchAlways(Numeric(13))),
    ];
    for (source, expected) in cases {
        let code = single(source);
        assert_eq!(disassemble(code), Some(expected));
    }

    // An undefined word decodes to nothing.
    assert_eq!(disassemble(401), None);
    assert_eq!(disassemble(903), None);
    assert_eq!(disassemble(42), None);
}
