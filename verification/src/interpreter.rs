//! The whole pipeline: a text is split into tokens when it is handed in, and
//! parsed and evaluated when it is run. The scope outlives the texts: what
//! one text declares, the next one sees.

use vstd::prelude::*;
use crate::context::{traceback, Context, Frame};
use crate::error::{RuntimeError, RuntimeErrorView};
use crate::float::{Facts, FloatFacts, FloatQuery, FloatQueryView};
use crate::lexer::{failure_at, lex, lex_spans, LexFailure, Lexer};
use crate::node::eval;
use crate::parser::{spec_parse, Parser, ParserError, ParserErrorView};
use crate::symbol_table::Scope;
use crate::text::push_text;
use crate::token::{lexemes, Lexeme, Token};
use crate::types::Type;

verus! {

/// Why a run gave no value.
#[derive(Clone, Debug, PartialEq, Eq)]
pub enum Failure {
    /// The tokens are no expression.
    Syntax(ParserError),
    /// The expression could not be evaluated, or its evaluation waits for a
    /// float fact.
    Runtime(RuntimeError),
}

pub enum FailureView {
    Syntax(ParserErrorView),
    Runtime(RuntimeErrorView),
}

impl View for Failure {
    type V = FailureView;

    open spec fn view(&self) -> FailureView {
        match self {
            Failure::Syntax(e) => FailureView::Syntax(e@),
            Failure::Runtime(e) => FailureView::Runtime(e@),
        }
    }
}

/// What a run gives: a value or a failure, and the scopes as it leaves them.
pub struct Ran {
    pub result: Result<Type, FailureView>,
    pub scopes: Seq<Scope>,
}

/// A run of `tokens` in `scopes`. Tokens that are no expression change
/// nothing. An evaluation that waits for a float fact changes nothing
/// either: it will be run again from the start. Any other evaluation leaves
/// the scopes as it left them, after an error too.
pub open spec fn run_of(tokens: Seq<Lexeme>, scopes: Seq<Scope>, facts: Facts) -> Ran {
    match spec_parse(tokens, 0) {
        Err((expected, at)) => Ran {
            result: Err(FailureView::Syntax(ParserErrorView { token: tokens[at], err: expected })),
            scopes,
        },
        Ok(tree) => {
            let evaluated = eval(tree, scopes, facts);
            match evaluated.result {
                Ok(value) => Ran { result: Ok(value), scopes: evaluated.scopes },
                Err(e) => Ran {
                    result: Err(FailureView::Runtime(e)),
                    scopes: if e is AskFloat {
                        scopes
                    } else {
                        evaluated.scopes
                    },
                },
            }
        },
    }
}

/// The message for a failure of a run of `text` in a context with `frames`:
/// a parse error with its line of the text, an evaluation error behind the
/// traceback.
pub open spec fn report_of(failure: FailureView, text: Seq<char>, frames: Seq<Frame>, facts: Facts)
    -> Result<Seq<char>, FloatQueryView> {
    match failure {
        FailureView::Syntax(e) => e.format(text, facts),
        FailureView::Runtime(e) => match e.message(facts) {
            Ok(message) => Ok("Traceback:\n"@ + traceback(frames) + message),
            Err(q) => Err(q),
        },
    }
}

/// A text, its tokens, and the context in which it is run.
pub struct Interpreter<'c> {
    text: String,
    context: Context<'c>,
    tokens: Vec<Token>,
}

impl<'c> Interpreter<'c> {
    /// The text that was handed in last.
    pub closed spec fn text(&self) -> Seq<char> {
        self.text@
    }

    /// The tokens of that text.
    pub closed spec fn tokens(&self) -> Seq<Lexeme> {
        lexemes(self.tokens@)
    }

    /// The context in which the texts are evaluated.
    pub closed spec fn context(&self) -> Context<'c> {
        self.context
    }

    /// The context is well formed, and there is at least one token.
    pub open spec fn wf(&self) -> bool {
        &&& self.context().wf()
        &&& self.tokens().len() > 0
    }

    /// Every token lies inside the text. It does where the tokens are those
    /// of the text: after `new` and after an `update` that met no error.
    pub open spec fn fits(&self) -> bool {
        forall|i: int|
            0 <= i < self.tokens().len() ==> (#[trigger] self.tokens()[i]).start
                <= self.tokens()[i].end <= self.text().len()
    }

    /// An interpreter for `text`, with an empty scope of its own.
    pub fn new(text: &str, facts: &FloatFacts) -> (r: Result<Self, LexFailure>)
        ensures
            match lex(text@, 0, facts@) {
                Ok(all) => r matches Ok(interpreter) && interpreter.wf() && interpreter.fits()
                    && interpreter.text() == text@ && interpreter.tokens() == all
                    && interpreter.context().scopes()
                    == seq![Map::<Seq<char>, Type>::empty()] && interpreter.context().frames()
                    == seq![Frame { line: 1, label: "<program>"@ }],
                Err((error, stop)) => r matches Err(failure) && failure@ == failure_at(
                    text@,
                    error,
                    stop,
                ),
            },
    {
        let mut lexer = Lexer::new(text);
        let context = Context::new("<program>", None, 1);
        proof {
            lex_spans(text@, 0, facts@);
        }
        match lexer.tokenize(facts) {
            Ok(tokens) => Ok(Self { text: String::from_str(text), tokens, context }),
            Err(failure) => Err(failure),
        }
    }

    /// Hands in the next text. Where it is no run of tokens, the interpreter
    /// has the new text but keeps the tokens that it had.
    pub fn update(&mut self, text: &str, facts: &FloatFacts) -> (r: Result<(), LexFailure>)
        requires
            old(self).wf(),
        ensures
            final(self).wf(),
            final(self).context() == old(self).context(),
            final(self).text() == text@,
            match lex(text@, 0, facts@) {
                Ok(all) => r is Ok && final(self).tokens() == all && final(self).fits(),
                Err((error, stop)) => r matches Err(failure) && failure@ == failure_at(
                    text@,
                    error,
                    stop,
                ) && final(self).tokens() == old(self).tokens(),
            },
    {
        self.text = String::from_str(text);
        let mut lexer = Lexer::new(text);
        proof {
            lex_spans(text@, 0, facts@);
        }
        match lexer.tokenize(facts) {
            Ok(tokens) => {
                self.tokens = tokens;
                Ok(())
            },
            Err(failure) => Err(failure),
        }
    }

    /// Parses the tokens and evaluates the tree in the interpreter's
    /// context.
    pub fn run(&mut self, facts: &FloatFacts) -> (r: Result<Type, Failure>)
        requires
            old(self).wf(),
        ensures
            final(self).wf(),
            final(self).text() == old(self).text(),
            final(self).tokens() == old(self).tokens(),
            final(self).context().frames() == old(self).context().frames(),
            final(self).context().scopes() == run_of(
                old(self).tokens(),
                old(self).context().scopes(),
                facts@,
            ).scopes,
            match run_of(old(self).tokens(), old(self).context().scopes(), facts@).result {
                Ok(value) => r == Ok::<Type, Failure>(value),
                Err(failure) => r matches Err(f) && f@ == failure,
            },
    {
        let mut parser = Parser::new(self.tokens.as_slice());
        let node = match parser.parse() {
            Ok(node) => node,
            Err(e) => {
                return Err(Failure::Syntax(e));
            },
        };
        let mut attempt = self.context.duplicate();
        match node.get_value(&mut attempt, facts) {
            Ok(value) => {
                self.context = attempt;
                Ok(value)
            },
            Err(e) => {
                match e {
                    RuntimeError::AskFloat(_, _, _) => {},
                    _ => {
                        self.context = attempt;
                    },
                }
                Err(Failure::Runtime(e))
            },
        }
    }

    /// The message for a failure of the last run.
    pub fn report(&self, failure: &Failure, facts: &FloatFacts) -> (r: Result<String, FloatQuery>)
        requires
            failure@ matches FailureView::Syntax(e) ==> e.token.start <= e.token.end
                <= self.text().len(),
        ensures
            match r {
                Ok(s) => report_of(failure@, self.text(), self.context().frames(), facts@) == Ok::<
                    Seq<char>,
                    FloatQueryView,
                >(s@),
                Err(q) => report_of(failure@, self.text(), self.context().frames(), facts@)
                    == Err::<Seq<char>, FloatQueryView>(q@),
            },
    {
        match failure {
            Failure::Syntax(e) => e.format(self.text.as_str(), facts),
            Failure::Runtime(e) => match e.message(facts) {
                Ok(message) => {
                    let mut s = String::from_str("Traceback:\n");
                    push_text(&mut s, self.context.generate_traceback().as_str());
                    push_text(&mut s, message.as_str());
                    Ok(s)
                },
                Err(q) => Err(q),
            },
        }
    }

    /// The context in which the texts are evaluated.
    pub fn get_context(&self) -> (context: &Context<'c>)
        ensures
            *context == self.context(),
    {
        &self.context
    }
}

} // verus!
