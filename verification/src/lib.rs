//! A toolchain for a minimal assembly language targeting a 100-word
//! decimal accumulator machine: a lexer, a recovering parser, an
//! address-resolving assembler, and a stored-program interpreter,
//! together with a harness for the inline test declarations the source
//! language carries.

pub mod assembler;
pub mod harness;
pub mod interpreter;
pub mod lex;
pub mod parse;
pub mod text;
pub mod vec_io;

use vstd::prelude::*;

use crate::assembler::{
    assemble, spec_asm_message, spec_assemble_succeeds, AsmError, SpecAsmError,
};
use crate::lex::{
    lex_errors_view, spec_lex_message, spec_tokenize, tokenize, LexError, SpecLexError,
    SpecToken,
};
use crate::parse::{
    parse, parse_errors_view, parse_info_wf, spec_parse, spec_parse_message, ParseError,
    ParseInfo, SpecParseError, SpecParseInfo,
};
use crate::text::{join_lines, spec_join_newline, string_views};

verus! {

/// The number of memory cells in the machine.
pub const MEMORY_SIZE: usize = 100;

/// Every value held in a memory cell or the accumulator is below this bound.
pub const WORD_BOUND: usize = 1000;

/// The tokens compilation parses: the full stream when every line
/// lexed, otherwise the tokens of the lines that did.
pub open spec fn spec_compile_tokens(s: Seq<char>) -> Seq<SpecToken> {
    match spec_tokenize(s) {
        Ok(ts) => ts,
        Err(p) => p.0,
    }
}

/// The lexical errors compilation collects.
pub open spec fn spec_compile_lex_errors(s: Seq<char>) -> Seq<SpecLexError> {
    match spec_tokenize(s) {
        Ok(_) => Seq::empty(),
        Err(p) => p.1,
    }
}

/// The parse output compilation builds.
pub open spec fn spec_compile_info(s: Seq<char>) -> SpecParseInfo {
    spec_parse(spec_compile_tokens(s)).0
}

/// The syntax errors compilation collects.
pub open spec fn spec_compile_parse_errors(s: Seq<char>) -> Seq<SpecParseError> {
    spec_parse(spec_compile_tokens(s)).1
}

/// Every stage's errors from one compilation, kept apart by stage; the
/// stages always run in order and each works with what the stage before
/// produced, so all independent errors of a source file surface in one
/// pass.
#[derive(Debug)]
pub struct CompileErrors {
    /// The lexical errors, one per failed line.
    pub lex: Vec<LexError>,
    /// The syntax errors, one per failed statement.
    pub parse: Vec<ParseError>,
    /// The assembly error, if assembly failed; assembly stops at its
    /// first error.
    pub assembly: Option<AsmError>,
}

/// The diagnostic lines of a sequence of lexical errors.
pub open spec fn spec_lex_messages(es: Seq<SpecLexError>) -> Seq<Seq<char>> {
    es.map_values(|e: SpecLexError| spec_lex_message(e))
}

/// The diagnostic lines of a sequence of syntax errors.
pub open spec fn spec_parse_messages(es: Seq<SpecParseError>) -> Seq<Seq<char>> {
    es.map_values(|e: SpecParseError| spec_parse_message(e))
}

/// The model of an optional assembly error.
pub open spec fn assembly_error_view(o: Option<AsmError>) -> Option<SpecAsmError> {
    match o {
        Some(e) => Some(e@),
        None => None,
    }
}

/// Every error's diagnostic line, one per error, in stage order.
pub open spec fn spec_compile_messages(
    lex: Seq<SpecLexError>,
    parse: Seq<SpecParseError>,
    assembly: Option<SpecAsmError>,
) -> Seq<Seq<char>> {
    spec_lex_messages(lex) + spec_parse_messages(parse) + (match assembly {
        Some(e) => seq![spec_asm_message(e)],
        None => Seq::empty(),
    })
}

impl CompileErrors {
    /// The aggregate diagnostic: every error's line, in stage order,
    /// joined by newlines.
    pub fn message(&self) -> (r: String)
        ensures
            r@ == spec_join_newline(
                spec_compile_messages(
                    lex_errors_view(self.lex@),
                    parse_errors_view(self.parse@),
                    assembly_error_view(self.assembly),
                ),
            ),
    {
        let mut msgs: Vec<String> = Vec::new();
        let mut i: usize = 0;
        while i < self.lex.len()
            invariant
                i <= self.lex@.len(),
                string_views(msgs@) == spec_lex_messages(lex_errors_view(self.lex@).take(i as int)),
            decreases self.lex@.len() - i,
        {
            let ghost pre = msgs@;
            msgs.push(self.lex[i].message());
            proof {
                assert(lex_errors_view(self.lex@)[i as int] == self.lex@[i as int]@);
                assert(string_views(msgs@) =~= string_views(pre).push(msgs@[i as int]@));
                assert(spec_lex_messages(lex_errors_view(self.lex@).take(i as int + 1))
                    =~= spec_lex_messages(lex_errors_view(self.lex@).take(i as int)).push(
                    spec_lex_message(self.lex@[i as int]@),
                ));
                assert(string_views(msgs@) =~= spec_lex_messages(
                    lex_errors_view(self.lex@).take(i as int + 1),
                ));
            }
            i = i + 1;
        }
        proof {
            assert(lex_errors_view(self.lex@).take(self.lex@.len() as int) =~= lex_errors_view(
                self.lex@,
            ));
        }
        let ghost lex_part = string_views(msgs@);
        let mut j: usize = 0;
        while j < self.parse.len()
            invariant
                j <= self.parse@.len(),
                lex_part == spec_lex_messages(lex_errors_view(self.lex@)),
                string_views(msgs@) == lex_part + spec_parse_messages(
                    parse_errors_view(self.parse@).take(j as int),
                ),
            decreases self.parse@.len() - j,
        {
            let ghost pre = msgs@;
            msgs.push(self.parse[j].message());
            proof {
                assert(parse_errors_view(self.parse@)[j as int] == self.parse@[j as int]@);
                assert(string_views(msgs@) =~= string_views(pre).push(msgs@[j as int
                    + lex_part.len()]@));
                assert(spec_parse_messages(parse_errors_view(self.parse@).take(j as int + 1))
                    =~= spec_parse_messages(parse_errors_view(self.parse@).take(j as int)).push(
                    spec_parse_message(self.parse@[j as int]@),
                ));
                assert(string_views(msgs@) =~= lex_part + spec_parse_messages(
                    parse_errors_view(self.parse@).take(j as int + 1),
                ));
            }
            j = j + 1;
        }
        proof {
            assert(parse_errors_view(self.parse@).take(self.parse@.len() as int)
                =~= parse_errors_view(self.parse@));
        }
        match &self.assembly {
            Some(e) => {
                let ghost pre = msgs@;
                msgs.push(e.message());
                proof {
                    assert(string_views(msgs@) =~= spec_compile_messages(
                        lex_errors_view(self.lex@),
                        parse_errors_view(self.parse@),
                        assembly_error_view(self.assembly),
                    ));
                }
            }
            None => {
                proof {
                    assert(string_views(msgs@) =~= spec_compile_messages(
                        lex_errors_view(self.lex@),
                        parse_errors_view(self.parse@),
                        assembly_error_view(self.assembly),
                    ));
                }
            }
        }
        join_lines(&msgs)
    }
}

/// A compiled program: the 100-word memory image and the parse output
/// it was assembled from, whose test declarations the harness runs.
#[derive(Debug)]
pub struct LNCProgram {
    /// The memory image, every cell below [`WORD_BOUND`].
    pub mem: [usize; MEMORY_SIZE],
    /// The parse output: instructions, label map and test declarations.
    pub parse_info: ParseInfo,
}

/// Compile source text to a memory image and test list, or return every
/// stage's errors.
///
/// All four stages always run: the parser works with whatever tokens
/// lexed, and the assembler with whatever parsed, so every independent
/// error surfaces in one pass.  A program is returned only when no
/// stage failed.
pub fn make_program(source: &str) -> (r: Result<LNCProgram, CompileErrors>)
    ensures
        r is Ok <==> (spec_compile_lex_errors(source@).len() == 0 && spec_compile_parse_errors(
            source@,
        ).len() == 0 && spec_assemble_succeeds(spec_compile_info(source@))),
        match r {
            Ok(prog) => {
                &&& prog.parse_info@ == spec_compile_info(source@)
                &&& parse_info_wf(prog.parse_info@)
                &&& prog.mem@.len() == 100
                &&& forall|j: int| 0 <= j < prog.parse_info@.instructions.len()
                    ==> crate::assembler::spec_encode(
                    #[trigger] prog.parse_info@.instructions[j],
                    prog.parse_info@.label_map,
                ) == Ok::<int, Seq<char>>(prog.mem@[j] as int)
                &&& forall|j: int| prog.parse_info@.instructions.len() <= j < 100
                    ==> prog.mem@[j] == 0
                &&& forall|j: int| 0 <= j < 100 ==> prog.mem@[j] < WORD_BOUND
            },
            Err(errs) => {
                &&& lex_errors_view(errs.lex@) == spec_compile_lex_errors(source@)
                &&& parse_errors_view(errs.parse@) == spec_compile_parse_errors(source@)
                &&& (errs.assembly is Some <==> !spec_assemble_succeeds(spec_compile_info(source@)))
                &&& (errs.assembly matches Some(e) ==> ((e@
                    matches SpecAsmError::TooManyInstructions(c) ==> c == spec_compile_info(
                    source@,
                ).instructions.len() && spec_compile_info(source@).instructions.len() >= 100) && (
                e@ matches SpecAsmError::UndefinedLabel(l) ==> spec_compile_info(
                    source@,
                ).instructions.len() < 100 && exists|j: int|
                    crate::assembler::first_undefined(
                        spec_compile_info(source@).instructions,
                        spec_compile_info(source@).label_map,
                        j,
                        l,
                    ))))
            },
        },
{
    let (tokens, lex_errs): (Vec<crate::lex::Token>, Vec<LexError>) = match tokenize(source) {
        Ok(t) => {
            let es: Vec<LexError> = Vec::new();
            proof {
                assert(lex_errors_view(es@) =~= Seq::<SpecLexError>::empty());
            }
            (t, es)
        }
        Err((t, es)) => (t, es),
    };
    let (parse_info, parse_errs): (ParseInfo, Vec<ParseError>) = match parse(tokens.as_slice()) {
        Ok(pi) => {
            let es: Vec<ParseError> = Vec::new();
            proof {
                assert(parse_errors_view(es@) =~= Seq::<SpecParseError>::empty());
            }
            (pi, es)
        }
        Err((pi, es)) => (pi, es),
    };
    match assemble(&parse_info) {
        Ok(mem) => {
            if lex_errs.len() == 0 && parse_errs.len() == 0 {
                Ok(LNCProgram { mem, parse_info })
            } else {
                Err(CompileErrors { lex: lex_errs, parse: parse_errs, assembly: None })
            }
        }
        Err(e) => Err(CompileErrors { lex: lex_errs, parse: parse_errs, assembly: Some(e) }),
    }
}

} // verus!
