//! An error that is a message and, where it has one, the error that caused
//! it.

use crate::result_ext::ErrorExt;
use vstd::prelude::*;
use vstd::string::StringExecFns;

verus! {

/// An error of any kind: its message, and the error that caused it, where
/// there is one.
#[derive(Debug, PartialEq, Eq)]
pub struct AnyErr {
    message: String,
    source: Option<Box<AnyErr>>,
}

impl AnyErr {
    /// The messages of the error and of its causes, from the error itself
    /// down to the innermost cause.
    pub closed spec fn trail(self) -> Seq<Seq<char>>
        decreases self,
    {
        match self.source {
            None => seq![self.message@],
            Some(source) => seq![self.message@] + source.trail(),
        }
    }

    /// An error has a message of its own.
    pub proof fn lemma_chain_not_empty(self)
        ensures
            self@.len() >= 1,
    {
    }

    /// An error with this message and no cause.
    pub fn new(message: &str) -> (error: AnyErr)
        ensures
            error@ == seq![message@],
    {
        AnyErr { message: String::from_str(message), source: None }
    }

    /// An error with this message that `source` caused.
    pub fn with_source<E: ErrorExt>(message: &str, source: E) -> (error: AnyErr)
        ensures
            error@ == seq![message@] + source.chain(),
    {
        AnyErr::caused_by(message, source.into_any())
    }

    /// An error with this message that `source` caused.
    pub fn caused_by(message: &str, source: AnyErr) -> (error: AnyErr)
        ensures
            error@ == seq![message@] + source@,
    {
        AnyErr { message: String::from_str(message), source: Some(Box::new(source)) }
    }

    /// The error that caused this one, where there is one.
    pub fn source(&self) -> (source: Option<&AnyErr>)
        ensures
            self@.len() >= 1,
            match source {
                Some(source) => self@ == seq![self@[0]] + source@,
                None => self@.len() == 1,
            },
    {
        match &self.source {
            Some(source) => Some(&**source),
            None => None,
        }
    }

    /// The error's own message.
    pub fn to_string(&self) -> (text: String)
        ensures
            self@.len() >= 1,
            text@ == self@[0],
    {
        self.message.clone()
    }

    /// Appends the messages of the error and of its causes to `out`.
    fn collect(&self, out: &mut Vec<String>)
        ensures
            final(out).deep_view() == old(out).deep_view() + self@,
        decreases self,
    {
        let ghost before = out.deep_view();
        out.push(self.message.clone());
        assert(out.deep_view() =~= before.push(self.message@));
        match &self.source {
            Some(source) => {
                source.collect(out);
                assert(out.deep_view() =~= before + self@);
            },
            None => {
                assert(out.deep_view() =~= before + self@);
            },
        }
    }
}

impl View for AnyErr {
    type V = Seq<Seq<char>>;

    closed spec fn view(&self) -> Seq<Seq<char>> {
        self.trail()
    }
}

impl ErrorExt for AnyErr {
    open spec fn chain(&self) -> Seq<Seq<char>> {
        self@
    }

    fn messages(&self) -> (chain: Vec<String>) {
        let mut chain: Vec<String> = Vec::new();
        self.collect(&mut chain);
        assert(chain.deep_view() =~= self@);
        chain
    }

    fn into_any(self) -> (any: AnyErr) {
        self
    }
}

} // verus!
