//! The argument vector of a command.

use vstd::prelude::*;
use vstd::string::*;

use crate::error::Error;
use crate::tokenizer::{lemma_tokens_hold_no_nul, tokenize, tokens};

verus! {

/// What an argument vector must be: at least the command's own name, and no
/// NUL character in any argument, since arguments reach a process as
/// NUL-terminated strings.
pub open spec fn is_argument_vector(words: Seq<Seq<char>>) -> bool {
    &&& words.len() > 0
    &&& forall|i: int| 0 <= i < words.len() ==> !(#[trigger] words[i]).contains('\0')
}

/// The arguments of one command, the command's name or path first.
#[derive(Debug, PartialEq, Eq)]
pub struct ArgumentVector {
    words: Vec<String>,
}

impl View for ArgumentVector {
    type V = Seq<Seq<char>>;

    closed spec fn view(&self) -> Seq<Seq<char>> {
        self.words.deep_view()
    }
}

/// Tells whether a NUL character stands in `text`.
pub fn holds_nul(text: &str) -> (found: bool)
    ensures
        found == text@.contains('\0'),
{
    for c in it: text.chars()
        invariant
            it.seq() == text@,
            forall|i: int| 0 <= i < it.index() ==> text@[i] != '\0',
    {
        if c == '\0' {
            return true;
        }
    }
    false
}

impl ArgumentVector {
    /// Every argument vector is one in the sense of [`is_argument_vector`].
    #[verifier::type_invariant]
    pub open spec fn well_formed(&self) -> bool {
        is_argument_vector(self@)
    }

    /// Makes an argument vector of `words`, or refuses them with
    /// `InvalidArgument` where there is no word or a word holds a NUL.
    pub fn new(words: Vec<String>) -> (result: Result<ArgumentVector, Error>)
        ensures
            match result {
                Ok(argv) => argv@ == words.deep_view() && is_argument_vector(argv@),
                Err(e) => e == Error::InvalidArgument && !is_argument_vector(words.deep_view()),
            },
    {
        if words.len() == 0 {
            return Err(Error::InvalidArgument);
        }
        let mut i: usize = 0;
        while i < words.len()
            invariant
                i <= words.len(),
                forall|k: int| 0 <= k < i ==> !(#[trigger] words.deep_view()[k]).contains('\0'),
            decreases words.len() - i,
        {
            if holds_nul(words[i].as_str()) {
                assert(words.deep_view()[i as int].contains('\0'));
                return Err(Error::InvalidArgument);
            }
            i = i + 1;
        }
        Ok(ArgumentVector { words })
    }

    /// Puts `path` in the place of argument 0, or refuses it with
    /// `InvalidArgument` where it holds a NUL.
    pub fn with_command(self, path: String) -> (result: Result<ArgumentVector, Error>)
        ensures
            match result {
                Ok(argv) => argv@ == self@.update(0, path@) && !path@.contains('\0'),
                Err(e) => e == Error::InvalidArgument && path@.contains('\0'),
            },
    {
        proof {
            use_type_invariant(&self);
        }
        if holds_nul(path.as_str()) {
            return Err(Error::InvalidArgument);
        }
        let ghost before = self@;
        let mut words = self.words;
        words.set(0, path);
        assert(words.deep_view() =~= before.update(0, path@));
        Ok(ArgumentVector { words })
    }

    /// The number of arguments, the command's name included.
    pub fn len(&self) -> (n: usize)
        ensures
            n == self@.len(),
            n > 0,
    {
        proof {
            use_type_invariant(self);
        }
        self.words.len()
    }

    /// The command's name or path: argument 0.
    pub fn command(&self) -> (name: &String)
        ensures
            name@ == self@[0],
    {
        proof {
            use_type_invariant(self);
        }
        &self.words[0]
    }

    /// The arguments in order.
    pub fn words(&self) -> (words: &Vec<String>)
        ensures
            words.deep_view() == self@,
            is_argument_vector(self@),
    {
        proof {
            use_type_invariant(self);
        }
        &self.words
    }
}

/// Makes the argument vector of a typed line: its words in order.
///
/// A blank line has no argument vector, and a line that holds a NUL is
/// refused with `InvalidArgument`.
pub fn prepare_argv(line: &str) -> (result: Result<Option<ArgumentVector>, Error>)
    ensures
        match result {
            Ok(Some(argv)) => !line@.contains('\0') && argv@ == tokens(line@) && is_argument_vector(
                argv@,
            ),
            Ok(None) => !line@.contains('\0') && tokens(line@).len() == 0,
            Err(e) => e == Error::InvalidArgument && line@.contains('\0'),
        },
{
    match tokenize(line) {
        Ok(words) => {
            if words.len() == 0 {
                Ok(None)
            } else {
                proof {
                    lemma_tokens_hold_no_nul(line@);
                }
                Ok(Some(ArgumentVector { words }))
            }
        },
        Err(e) => Err(e),
    }
}

} // verus!
