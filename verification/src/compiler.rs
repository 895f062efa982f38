//! The whole pipeline, from source text to assembly text.

use crate::generator::{generate, lemma_parsed_program_has_code, line_text, spec_generate_prog, LineView, Syntax};
use crate::lexer::{lex, spec_tokenize, token_views, LexError, LexErrorView};
use crate::parser::{parse, spec_parse, ParseError, ParseErrorView, ProgramView};
use vstd::pervasive::unreached;
use vstd::prelude::*;

verus! {

/// Why a source text does not compile. Code generation does not appear
/// here: it succeeds on every program that the parser builds.
#[derive(Debug, PartialEq, Eq)]
pub enum CompileError {
    Lex(LexError),
    Parse(ParseError),
}

/// The mathematical value of a [`CompileError`].
pub enum CompileErrorView {
    Lex(LexErrorView),
    Parse(ParseErrorView),
}

impl View for CompileError {
    type V = CompileErrorView;

    open spec fn view(&self) -> CompileErrorView {
        match *self {
            CompileError::Lex(e) => CompileErrorView::Lex(e@),
            CompileError::Parse(e) => CompileErrorView::Parse(e@),
        }
    }
}

/// The assembly text of a program, line by line; empty if the program has no
/// code.
pub open spec fn spec_assembly(prog: ProgramView, syntax: Syntax) -> Seq<Seq<char>> {
    match spec_generate_prog(prog) {
        Ok(lines) => lines.map_values(|l: LineView| line_text(l, syntax)),
        Err(_) => Seq::empty(),
    }
}

/// What a source text compiles to: the assembly text of the program that
/// its tokens denote, or the error of the first stage that fails.
pub open spec fn spec_compile(code: Seq<char>, syntax: Syntax) -> Result<
    Seq<Seq<char>>,
    CompileErrorView,
> {
    match spec_tokenize(code) {
        Err(e) => Err(CompileErrorView::Lex(e)),
        Ok(tokens) => match spec_parse(tokens) {
            Err(e) => Err(CompileErrorView::Parse(e)),
            Ok(prog) => Ok(spec_assembly(prog, syntax)),
        },
    }
}

/// The outcome of compiling, as a value.
pub open spec fn compile_outcome(r: Result<Vec<String>, CompileError>) -> Result<
    Seq<Seq<char>>,
    CompileErrorView,
> {
    match r {
        Ok(lines) => Ok(lines@.map_values(|s: String| s@)),
        Err(e) => Err(e@),
    }
}

/// Compiles a source text into assembly text, one string per line:
/// tokenizes it, parses the tokens and generates the code of the program.
/// Fails with the error of the tokenizer or of the parser.
pub fn compile(code: &String, syntax: &Syntax) -> (r: Result<Vec<String>, CompileError>)
    ensures
        compile_outcome(r) == spec_compile(code@, *syntax),
{
    let tokens = match lex(code) {
        Ok(tokens) => tokens,
        Err(e) => {
            return Err(CompileError::Lex(e));
        },
    };
    let ghost views = token_views(tokens@);
    let prog = match parse(tokens) {
        Ok(prog) => prog,
        Err(e) => {
            return Err(CompileError::Parse(e));
        },
    };
    proof {
        lemma_parsed_program_has_code(views);
    }
    match generate(&prog, syntax) {
        Ok(lines) => Ok(lines),
        Err(_) => unreached(),
    }
}

} // verus!
