//! The assembler: resolves every address operand against the label map
//! and encodes each instruction into a fixed-point numeric word,
//! producing the 100-word memory image.  It also offers the reverse
//! reading, from an encoded word back to the instruction it denotes.

use vstd::prelude::*;

use crate::parse::{
    address_wf, instruction_wf, parse_info_wf, Address, Instruction, LabelMap, ParseInfo,
    SpecAddress, SpecInstruction,
};
use crate::text::{push_decimal, spec_decimal};
use crate::MEMORY_SIZE;

verus! {

/// Why assembly failed.  The first failure ends assembly: later
/// addresses cannot be trusted once one is invalid.
#[derive(Debug, PartialEq, Eq, Clone)]
pub enum AsmError {
    /// The program has 100 or more instructions; carries the count.
    TooManyInstructions(usize),
    /// A symbolic address names a label the program never defines.
    UndefinedLabel(String),
}

/// The mathematical model of an [`AsmError`].
pub ghost enum SpecAsmError {
    /// The program has 100 or more instructions.
    TooManyInstructions(usize),
    /// A symbolic address names an undefined label.
    UndefinedLabel(Seq<char>),
}

impl View for AsmError {
    type V = SpecAsmError;

    open spec fn view(&self) -> SpecAsmError {
        match self {
            AsmError::TooManyInstructions(n) => SpecAsmError::TooManyInstructions(*n),
            AsmError::UndefinedLabel(s) => SpecAsmError::UndefinedLabel(s@),
        }
    }
}

/// The diagnostic line for an assembly error, exactly as the toolchain
/// prints it.
pub open spec fn spec_asm_message(e: SpecAsmError) -> Seq<char> {
    match e {
        SpecAsmError::TooManyInstructions(n) => "Too many instructions: "@ + spec_decimal(n as nat)
            + " > 100"@,
        SpecAsmError::UndefinedLabel(label) => "Label '"@ + label + "' is not defined"@,
    }
}

impl AsmError {
    /// The diagnostic line for this error, as the toolchain prints it.
    pub fn message(&self) -> (r: String)
        ensures
            r@ == spec_asm_message(self@),
    {
        let mut s = String::new();
        match self {
            AsmError::TooManyInstructions(n) => {
                s.append("Too many instructions: ");
                push_decimal(&mut s, *n);
                s.append(" > 100");
            }
            AsmError::UndefinedLabel(label) => {
                s.append("Label '");
                s.append(label.as_str());
                s.append("' is not defined");
            }
        }
        proof {
            assert(s@ =~= spec_asm_message(self@));
        }
        s
    }
}

/// An address operand's resolution: a numeric address is used as-is, a
/// symbolic one is looked up, failing with the label's name if absent.
pub open spec fn spec_resolve(a: SpecAddress, labels: Map<Seq<char>, usize>) -> Result<
    usize,
    Seq<char>,
> {
    match a {
        SpecAddress::Numeric(n) => Ok(n),
        SpecAddress::Symbolic(l) => if labels.contains_key(l) {
            Ok(labels[l])
        } else {
            Err(l)
        },
    }
}

/// An instruction's encoding: the operation class in the hundreds
/// digit, the resolved address in the last two; `Input` is 901,
/// `Output` 902, `Halt` 0, and a data word stands verbatim.
pub open spec fn spec_encode(ins: SpecInstruction, labels: Map<Seq<char>, usize>) -> Result<
    int,
    Seq<char>,
> {
    match ins {
        SpecInstruction::Load(a) => match spec_resolve(a, labels) {
            Ok(n) => Ok(500 + n),
            Err(l) => Err(l),
        },
        SpecInstruction::Store(a) => match spec_resolve(a, labels) {
            Ok(n) => Ok(300 + n),
            Err(l) => Err(l),
        },
        SpecInstruction::Add(a) => match spec_resolve(a, labels) {
            Ok(n) => Ok(100 + n),
            Err(l) => Err(l),
        },
        SpecInstruction::Subtract(a) => match spec_resolve(a, labels) {
            Ok(n) => Ok(200 + n),
            Err(l) => Err(l),
        },
        SpecInstruction::Input => Ok(901),
        SpecInstruction::Output => Ok(902),
        SpecInstruction::Halt => Ok(0),
        SpecInstruction::BranchZero(a) => match spec_resolve(a, labels) {
            Ok(n) => Ok(700 + n),
            Err(l) => Err(l),
        },
        SpecInstruction::BranchPositive(a) => match spec_resolve(a, labels) {
            Ok(n) => Ok(800 + n),
            Err(l) => Err(l),
        },
        SpecInstruction::BranchAlways(a) => match spec_resolve(a, labels) {
            Ok(n) => Ok(600 + n),
            Err(l) => Err(l),
        },
        SpecInstruction::Data(d) => Ok(d as int),
    }
}

/// Instruction `j` is the first whose encoding fails, on label `l`.
pub open spec fn first_undefined(
    instrs: Seq<SpecInstruction>,
    labels: Map<Seq<char>, usize>,
    j: int,
    l: Seq<char>,
) -> bool {
    &&& 0 <= j < instrs.len()
    &&& spec_encode(instrs[j], labels) == Err::<int, _>(l)
    &&& forall|k: int| 0 <= k < j ==> spec_encode(#[trigger] instrs[k], labels) is Ok
}

/// Resolve a symbolic address, failing when the label is not defined.
fn resolve_symb_addr(label: &str, labels: &LabelMap) -> (r: Result<usize, AsmError>)
    ensures
        match r {
            Ok(v) => labels@.contains_key(label@) && labels@[label@] == v,
            Err(e) => !labels@.contains_key(label@) && e@ == SpecAsmError::UndefinedLabel(label@),
        },
{
    match labels.get(label) {
        Some(addr) => Ok(addr),
        None => Err(AsmError::UndefinedLabel(label.to_owned())),
    }
}

/// Resolve any address operand.
fn resolve_addr(addr: &Address, labels: &LabelMap) -> (r: Result<usize, AsmError>)
    requires
        address_wf(addr@),
        forall|name: Seq<char>| labels@.contains_key(name) ==> labels@[name] < 100,
    ensures
        match r {
            Ok(v) => spec_resolve(addr@, labels@) == Ok::<usize, Seq<char>>(v) && v < 100,
            Err(e) => (spec_resolve(addr@, labels@) matches Err(l) && e@
                == SpecAsmError::UndefinedLabel(l)),
        },
{
    match addr {
        Address::Symbolic(label) => resolve_symb_addr(label.as_str(), labels),
        Address::Numeric(n) => Ok(*n),
    }
}

/// Encode one instruction against the label map.
fn encode_one(ins: &Instruction, labels: &LabelMap) -> (r: Result<usize, AsmError>)
    requires
        instruction_wf(ins@),
        forall|name: Seq<char>| labels@.contains_key(name) ==> labels@[name] < 100,
    ensures
        match r {
            Ok(c) => spec_encode(ins@, labels@) == Ok::<int, Seq<char>>(c as int) && c < 1000,
            Err(e) => (spec_encode(ins@, labels@) matches Err(l) && e@
                == SpecAsmError::UndefinedLabel(l)),
        },
{
    match ins {
        Instruction::Load(addr) => Ok(500 + resolve_addr(addr, labels)?),
        Instruction::Store(addr) => Ok(300 + resolve_addr(addr, labels)?),
        Instruction::Add(addr) => Ok(100 + resolve_addr(addr, labels)?),
        Instruction::Subtract(addr) => Ok(200 + resolve_addr(addr, labels)?),
        Instruction::Input => Ok(901),
        Instruction::Output => Ok(902),
        Instruction::Halt => Ok(0),
        Instruction::BranchZero(addr) => Ok(700 + resolve_addr(addr, labels)?),
        Instruction::BranchPositive(addr) => Ok(800 + resolve_addr(addr, labels)?),
        Instruction::BranchAlways(addr) => Ok(600 + resolve_addr(addr, labels)?),
        Instruction::Data(data) => Ok(*data),
    }
}

/// Assembly succeeds exactly when the program has fewer than 100
/// instructions and every address operand resolves.
pub open spec fn spec_assemble_succeeds(info: crate::parse::SpecParseInfo) -> bool {
    &&& info.instructions.len() < 100
    &&& forall|j: int| 0 <= j < info.instructions.len() ==> spec_encode(
        #[trigger] info.instructions[j],
        info.label_map,
    ) is Ok
}

/// Produce the 100-word memory image, or fail.
///
/// A program of 100 or more instructions is rejected before anything is
/// encoded.  Otherwise each instruction in program order is encoded at
/// its own index; the first unresolvable label ends assembly.  Every
/// cell past the instruction count is left at zero (a valid `Halt`
/// encoding); every cell of a produced image is below 1000.
///
/// Requires well-formed parse output: the assembler trusts the bounds
/// the parser enforced and does not re-check them.
#[verifier::spinoff_prover]
#[verifier::rlimit(100)]
pub fn assemble(parse_info: &ParseInfo) -> (r: Result<[usize; MEMORY_SIZE], AsmError>)
    requires
        parse_info_wf(parse_info@),
    ensures
        r is Ok <==> spec_assemble_succeeds(parse_info@),
        match r {
            Ok(mem) => {
                &&& mem@.len() == 100
                &&& forall|j: int| 0 <= j < parse_info@.instructions.len() ==> spec_encode(
                    #[trigger] parse_info@.instructions[j],
                    parse_info@.label_map,
                ) == Ok::<int, Seq<char>>(mem@[j] as int)
                &&& forall|j: int| parse_info@.instructions.len() <= j < 100 ==> mem@[j] == 0
                &&& forall|j: int| 0 <= j < 100 ==> mem@[j] < 1000
            },
            Err(e) => (e@ matches SpecAsmError::TooManyInstructions(c) ==> c
                == parse_info@.instructions.len() && parse_info@.instructions.len() >= 100) && (
            e@ matches SpecAsmError::UndefinedLabel(l) ==> parse_info@.instructions.len() < 100
                && exists|j: int|
                first_undefined(parse_info@.instructions, parse_info@.label_map, j, l)),
        },
{
    let count = parse_info.instructions.len();
    if count >= 100 {
        return Err(AsmError::TooManyInstructions(count));
    }

    let mut mem: [usize; MEMORY_SIZE] = [0; MEMORY_SIZE];
    let mut j: usize = 0;
    while j < count
        invariant
            parse_info_wf(parse_info@),
            j <= count == parse_info@.instructions.len() < 100,
            mem@.len() == 100,
            forall|k: int| 0 <= k < j ==> spec_encode(
                #[trigger] parse_info@.instructions[k],
                parse_info@.label_map,
            ) == Ok::<int, Seq<char>>(mem@[k] as int),
            forall|k: int| j <= k < 100 ==> mem@[k] == 0,
            forall|k: int| 0 <= k < 100 ==> mem@[k] < 1000,
        decreases count - j,
    {
        proof {
            assert(instruction_wf(parse_info@.instructions[j as int]));
        }
        let code = match encode_one(&parse_info.instructions[j], &parse_info.label_map) {
            Ok(c) => c,
            Err(e) => {
                proof {
                    assert(e@ matches SpecAsmError::UndefinedLabel(l) && first_undefined(
                        parse_info@.instructions,
                        parse_info@.label_map,
                        j as int,
                        l,
                    ));
                }
                return Err(e);
            }
        };
        mem[j] = code;
        j = j + 1;
    }
    Ok(mem)
}

/// The instruction an encoded word denotes, read purely from its
/// class/operand split, or `None` for an undefined word.  A data word
/// is indistinguishable from its encoding and never decoded as such.
pub open spec fn spec_decode(code: usize) -> Option<SpecInstruction> {
    let class = code / 100;
    let operand = code % 100;
    if class == 5 {
        Some(SpecInstruction::Load(SpecAddress::Numeric(operand)))
    } else if class == 3 {
        Some(SpecInstruction::Store(SpecAddress::Numeric(operand)))
    } else if class == 1 {
        Some(SpecInstruction::Add(SpecAddress::Numeric(operand)))
    } else if class == 2 {
        Some(SpecInstruction::Subtract(SpecAddress::Numeric(operand)))
    } else if class == 9 && operand == 1 {
        Some(SpecInstruction::Input)
    } else if class == 9 && operand == 2 {
        Some(SpecInstruction::Output)
    } else if class == 0 && operand == 0 {
        Some(SpecInstruction::Halt)
    } else if class == 7 {
        Some(SpecInstruction::BranchZero(SpecAddress::Numeric(operand)))
    } else if class == 8 {
        Some(SpecInstruction::BranchPositive(SpecAddress::Numeric(operand)))
    } else if class == 6 {
        Some(SpecInstruction::BranchAlways(SpecAddress::Numeric(operand)))
    } else {
        None
    }
}

/// Read an encoded word back as the instruction it denotes, for the
/// debugger's human-readable view of memory.
pub fn disassemble(code: usize) -> (r: Option<Instruction>)
    ensures
        match r {
            Some(ins) => spec_decode(code) == Some(ins@),
            None => spec_decode(code) is None,
        },
{
    let class = code / 100;
    let operand = code % 100;
    if class == 5 {
        Some(Instruction::Load(Address::Numeric(operand)))
    } else if class == 3 {
        Some(Instruction::Store(Address::Numeric(operand)))
    } else if class == 1 {
        Some(Instruction::Add(Address::Numeric(operand)))
    } else if class == 2 {
        Some(Instruction::Subtract(Address::Numeric(operand)))
    } else if class == 9 && operand == 1 {
        Some(Instruction::Input)
    } else if class == 9 && operand == 2 {
        Some(Instruction::Output)
    } else if class == 0 && operand == 0 {
        Some(Instruction::Halt)
    } else if class == 7 {
        Some(Instruction::BranchZero(Address::Numeric(operand)))
    } else if class == 8 {
        Some(Instruction::BranchPositive(Address::Numeric(operand)))
    } else if class == 6 {
        Some(Instruction::BranchAlways(Address::Numeric(operand)))
    } else {
        None
    }
}

/// An instruction of the executable set, with its operand already
/// numeric and in range: what the encode/decode round trip covers.
/// A data word is excluded — its encoding is the datum itself and
/// cannot be told apart from an instruction's.
pub open spec fn resolved_executable(ins: SpecInstruction) -> bool {
    match ins {
        SpecInstruction::Load(a) => a matches SpecAddress::Numeric(n) && n < 100,
        SpecInstruction::Store(a) => a matches SpecAddress::Numeric(n) && n < 100,
        SpecInstruction::Add(a) => a matches SpecAddress::Numeric(n) && n < 100,
        SpecInstruction::Subtract(a) => a matches SpecAddress::Numeric(n) && n < 100,
        SpecInstruction::Input => true,
        SpecInstruction::Output => true,
        SpecInstruction::Halt => true,
        SpecInstruction::BranchZero(a) => a matches SpecAddress::Numeric(n) && n < 100,
        SpecInstruction::BranchPositive(a) => a matches SpecAddress::Numeric(n) && n < 100,
        SpecInstruction::BranchAlways(a) => a matches SpecAddress::Numeric(n) && n < 100,
        SpecInstruction::Data(_) => false,
    }
}

/// Round trip: encoding any executable instruction with an in-range
/// numeric operand, then reading the word back by its class/operand
/// split, recovers the original mnemonic and operand exactly.
pub proof fn lemma_encode_decode_round_trip(ins: SpecInstruction, labels: Map<Seq<char>, usize>)
    requires
        resolved_executable(ins),
    ensures
        spec_encode(ins, labels) matches Ok(c) && 0 <= c < 1000 && spec_decode(c as usize)
            == Some(ins),
{
}

} // verus!
