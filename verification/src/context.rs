//! Evaluation contexts: a scope with the label and line that a traceback
//! shows for it, inside the context around it.

use vstd::prelude::*;
use crate::symbol_table::{Scope, SymbolTable};
use crate::text::{numeral, push_numeral, push_text};
use crate::types::Type;

verus! {

/// What a traceback shows of one context.
pub struct Frame {
    pub line: usize,
    pub label: Seq<char>,
}

/// One line for each frame: `line <n>, in <label>`.
pub open spec fn traceback(frames: Seq<Frame>) -> Seq<char>
    decreases frames.len(),
{
    if frames.len() == 0 {
        Seq::empty()
    } else {
        "line "@ + numeral(frames[0].line as nat) + ", in "@ + frames[0].label + "\n"@ + traceback(
            frames.drop_first(),
        )
    }
}

/// One level of evaluation: a label and a line for tracebacks, a scope, and
/// a reference to the context around it.
#[derive(Clone, Debug)]
pub struct Context<'c> {
    pos: usize,
    name: String,
    parent: Option<&'c Context<'c>>,
    symbol_table: SymbolTable<'c>,
}

impl<'c> Context<'c> {
    /// The frame of this context.
    pub closed spec fn frame(&self) -> Frame {
        Frame { line: self.pos, label: self.name@ }
    }

    /// The context around this one.
    pub closed spec fn outer(&self) -> Option<&'c Context<'c>> {
        self.parent
    }

    /// The scope of this context, with the scopes around it.
    pub closed spec fn table(&self) -> SymbolTable<'c> {
        self.symbol_table
    }

    /// The frame of this context, then those of the contexts around it from
    /// the inside out.
    pub closed spec fn frames(&self) -> Seq<Frame>
        decreases self,
    {
        match self.parent {
            Some(parent) => seq![self.frame()] + parent.frames(),
            None => seq![self.frame()],
        }
    }

    /// The scopes in which names are looked up, innermost first.
    pub open spec fn scopes(&self) -> Seq<Scope> {
        self.table().scopes()
    }

    /// In every scope of the chain no name is bound twice.
    pub open spec fn wf(&self) -> bool {
        self.table().wf()
    }

    /// The frames are that of this context and those of the context around
    /// it.
    pub proof fn frames_unfold(&self)
        ensures
            self.frames() == (match self.outer() {
                Some(parent) => seq![self.frame()] + parent.frames(),
                None => seq![self.frame()],
            }),
    {
    }

    /// A context with a fresh scope: inside the scope of `parent`, or with
    /// nothing around it.
    pub fn new(name: &str, parent: Option<&'c Self>, pos: usize) -> (context: Self)
        ensures
            context.frame() == (Frame { line: pos, label: name@ }),
            context.outer() == parent,
            match parent {
                Some(p) => context.scopes() == seq![Map::<Seq<char>, Type>::empty()] + p.scopes()
                    && context.frames() == seq![context.frame()] + p.frames() && (p.wf()
                    ==> context.wf()),
                None => context.scopes() == seq![Map::<Seq<char>, Type>::empty()]
                    && context.frames() == seq![context.frame()] && context.wf(),
            },
    {
        let symbol_table = match parent {
            Some(p) => SymbolTable::new(p.get_symbol_table()),
            None => SymbolTable::default(),
        };
        Self { pos, name: String::from_str(name), parent, symbol_table }
    }

    /// The context around this one.
    pub fn step(self) -> (parent: Option<&'c Self>)
        ensures
            parent == self.outer(),
    {
        self.parent
    }

    /// Appends the traceback of this context and of those around it.
    fn write_traceback(&self, s: &mut String)
        ensures
            final(s)@ == old(s)@ + traceback(self.frames()),
        decreases self,
    {
        push_text(s, "line ");
        push_numeral(s, self.pos as u128);
        push_text(s, ", in ");
        push_text(s, self.name.as_str());
        push_text(s, "\n");
        let ghost line = "line "@ + numeral(self.pos as nat) + ", in "@ + self.name@ + "\n"@;
        assert(s@ =~= old(s)@ + line);
        assert(self.frames()[0] == self.frame());
        assert(traceback(self.frames()) == line + traceback(self.frames().drop_first()));
        match self.parent {
            Some(parent) => {
                parent.write_traceback(s);
                assert(self.frames().drop_first() =~= parent.frames());
                assert(s@ =~= old(s)@ + (line + traceback(parent.frames())));
            },
            None => {
                assert(self.frames().drop_first() =~= Seq::empty());
                assert(s@ =~= old(s)@ + (line + Seq::<char>::empty()));
            },
        }
    }

    /// The traceback: a line for this context and for each context around
    /// it, from the inside out.
    pub fn generate_traceback(&self) -> (s: String)
        ensures
            s@ == traceback(self.frames()),
    {
        let mut s = String::new();
        self.write_traceback(&mut s);
        assert(Seq::<char>::empty() + traceback(self.frames()) =~= traceback(self.frames()));
        s
    }

    /// The scope of this context.
    pub fn get_symbol_table(&self) -> (table: &SymbolTable<'c>)
        ensures
            *table == self.table(),
    {
        &self.symbol_table
    }

    /// The scope of this context, to declare or remove names in.
    pub fn get_symbol_table_mut(&mut self) -> (table: &mut SymbolTable<'c>)
        ensures
            *table == old(self).table(),
            final(self).table() == *final(table),
            final(self).frames() == old(self).frames(),
            final(self).frame() == old(self).frame(),
            final(self).outer() == old(self).outer(),
    {
        &mut self.symbol_table
    }

    /// A copy of this context, inside the same outer context.
    pub fn duplicate(&self) -> (copy: Self)
        requires
            self.wf(),
        ensures
            copy.wf(),
            copy.scopes() == self.scopes(),
            copy.frames() == self.frames(),
            copy.frame() == self.frame(),
            copy.outer() == self.outer(),
    {
        Self {
            pos: self.pos,
            name: self.name.clone(),
            parent: self.parent,
            symbol_table: self.symbol_table.duplicate(),
        }
    }
}

} // verus!
