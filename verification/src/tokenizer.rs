//! Cutting a typed line into words.
//!
//! A line is cut at runs of whitespace and at nothing else: there is no
//! quoting, no escaping and no expansion, so every maximal run of other
//! characters is one word.

use vstd::prelude::*;
use vstd::string::*;

use crate::error::Error;

verus! {

/// The characters at which a line is cut: those with the Unicode property
/// `White_Space`.
pub open spec fn is_whitespace(c: char) -> bool {
    let u = c as u32;
    ||| 0x09 <= u <= 0x0D
    ||| u == 0x20
    ||| u == 0x85
    ||| u == 0xA0
    ||| u == 0x1680
    ||| 0x2000 <= u <= 0x200A
    ||| u == 0x2028
    ||| u == 0x2029
    ||| u == 0x202F
    ||| u == 0x205F
    ||| u == 0x3000
}

/// A line in which nothing but whitespace stands.
pub open spec fn is_blank(s: Seq<char>) -> bool {
    forall|i: int| 0 <= i < s.len() ==> is_whitespace(#[trigger] s[i])
}

/// A piece of text in which no whitespace stands.
pub open spec fn is_solid(s: Seq<char>) -> bool {
    forall|i: int| 0 <= i < s.len() ==> !is_whitespace(#[trigger] s[i])
}

/// The length of the longest prefix of `s` in which no whitespace stands.
pub open spec fn word_len(s: Seq<char>) -> nat
    decreases s.len(),
{
    if s.len() == 0 || is_whitespace(s[0]) {
        0
    } else {
        1 + word_len(s.drop_first())
    }
}

/// The words of `s`: its maximal runs of characters other than whitespace,
/// from left to right.
pub open spec fn tokens(s: Seq<char>) -> Seq<Seq<char>>
    decreases s.len(),
{
    if s.len() == 0 {
        Seq::empty()
    } else if is_whitespace(s[0]) {
        tokens(s.drop_first())
    } else {
        proof {
            lemma_word_len_bounds(s);
        }
        seq![s.take(word_len(s) as int)] + tokens(s.skip(word_len(s) as int))
    }
}

/// The longest prefix without whitespace is a prefix, and it is not empty
/// where the text starts with another character.
pub proof fn lemma_word_len_bounds(s: Seq<char>)
    ensures
        word_len(s) <= s.len(),
        s.len() > 0 && !is_whitespace(s[0]) ==> word_len(s) >= 1,
    decreases s.len(),
{
    if s.len() > 0 && !is_whitespace(s[0]) {
        lemma_word_len_bounds(s.drop_first());
    }
}

/// Tells whether a line is cut at `c`.
pub fn whitespace(c: char) -> (r: bool)
    ensures
        r == is_whitespace(c),
{
    let u: u32 = c as u32;
    (0x09 <= u && u <= 0x0D) || u == 0x20 || u == 0x85 || u == 0xA0 || u == 0x1680 || (0x2000 <= u
        && u <= 0x200A) || u == 0x2028 || u == 0x2029 || u == 0x202F || u == 0x205F || u == 0x3000
}

/// A word that starts at the front of `s` and runs for `n` characters, up to
/// whitespace or to the end, is the first word of `s`.
pub proof fn lemma_word_len_is(s: Seq<char>, n: int)
    requires
        0 <= n <= s.len(),
        is_solid(s.take(n)),
        n == s.len() || is_whitespace(s[n]),
    ensures
        word_len(s) == n,
    decreases n,
{
    if n > 0 {
        assert(s.take(n)[0] == s[0]);
        let rest = s.drop_first();
        assert forall|i: int| 0 <= i < n - 1 implies !is_whitespace(
            #[trigger] rest.take(n - 1)[i],
        ) by {
            assert(rest.take(n - 1)[i] == s.take(n)[i + 1]);
        }
        lemma_word_len_is(rest, n - 1);
    }
}

/// Every word of a text is a piece of it.
pub proof fn lemma_tokens_are_pieces(s: Seq<char>)
    ensures
        forall|k: int|
            0 <= k < tokens(s).len() ==> exists|i: int, j: int|
                0 <= i < j <= s.len() && #[trigger] tokens(s)[k] == s.subrange(i, j),
    decreases s.len(),
{
    if s.len() == 0 {
    } else if is_whitespace(s[0]) {
        let rest = s.drop_first();
        lemma_tokens_are_pieces(rest);
        assert forall|k: int| 0 <= k < tokens(s).len() implies exists|i: int, j: int|
            0 <= i < j <= s.len() && #[trigger] tokens(s)[k] == s.subrange(i, j) by {
            let (i, j) = choose|i: int, j: int|
                0 <= i < j <= rest.len() && tokens(rest)[k] == rest.subrange(i, j);
            assert(rest.subrange(i, j) =~= s.subrange(i + 1, j + 1));
        }
    } else {
        lemma_word_len_bounds(s);
        let n = word_len(s) as int;
        let rest = s.skip(n);
        lemma_tokens_are_pieces(rest);
        assert forall|k: int| 0 <= k < tokens(s).len() implies exists|i: int, j: int|
            0 <= i < j <= s.len() && #[trigger] tokens(s)[k] == s.subrange(i, j) by {
            if k == 0 {
                assert(tokens(s)[0] == s.subrange(0, n));
            } else {
                assert(tokens(s)[k] == tokens(rest)[k - 1]);
                let (i, j) = choose|i: int, j: int|
                    0 <= i < j <= rest.len() && tokens(rest)[k - 1] == rest.subrange(i, j);
                assert(rest.subrange(i, j) =~= s.subrange(i + n, j + n));
            }
        }
    }
}

/// The words of a text without a NUL hold none, and no word is empty.
pub proof fn lemma_tokens_hold_no_nul(s: Seq<char>)
    ensures
        forall|k: int| 0 <= k < tokens(s).len() ==> (#[trigger] tokens(s)[k]).len() > 0,
        !s.contains('\0') ==> forall|k: int|
            0 <= k < tokens(s).len() ==> !(#[trigger] tokens(s)[k]).contains('\0'),
{
    lemma_tokens_are_pieces(s);
    assert forall|k: int| 0 <= k < tokens(s).len() implies (#[trigger] tokens(s)[k]).len() > 0 by {
        let (i, j) = choose|i: int, j: int|
            0 <= i < j <= s.len() && tokens(s)[k] == s.subrange(i, j);
    }
    if !s.contains('\0') {
        assert forall|k: int| 0 <= k < tokens(s).len() implies !(#[trigger] tokens(s)[k]).contains(
            '\0',
        ) by {
            let (i, j) = choose|i: int, j: int|
                0 <= i < j <= s.len() && tokens(s)[k] == s.subrange(i, j);
            let word = tokens(s)[k];
            if word.contains('\0') {
                let m = choose|m: int| 0 <= m < word.len() && word[m] == '\0';
                assert(s[i + m] == '\0');
            }
        }
    }
}

/// Cuts `line` into its words.
///
/// A line that holds a NUL character is refused, since no argument of a
/// process can hold one; every other line is cut, and a blank one gives no
/// word at all.
pub fn tokenize(line: &str) -> (result: Result<Vec<String>, Error>)
    ensures
        match result {
            Ok(words) => !line@.contains('\0') && words.deep_view() == tokens(line@),
            Err(e) => e == Error::InvalidArgument && line@.contains('\0'),
        },
{
    let len = line.unicode_len();
    let mut words: Vec<String> = Vec::new();
    let mut start: Option<usize> = None;
    let mut at: usize = 0;
    assert(line@.skip(0) =~= line@);
    assert(words.deep_view() + tokens(line@) =~= tokens(line@));
    for c in it: line.chars()
        invariant
            it.seq() == line@,
            len == line@.len(),
            at == it.index(),
            forall|i: int| 0 <= i < at ==> line@[i] != '\0',
            match start {
                Some(from) => {
                    &&& from < at
                    &&& is_solid(line@.subrange(from as int, at as int))
                    &&& tokens(line@) == words.deep_view() + tokens(line@.skip(from as int))
                },
                None => tokens(line@) == words.deep_view() + tokens(line@.skip(at as int)),
            },
    {
        if c == '\0' {
            return Err(Error::InvalidArgument);
        }
        let ghost rest = line@.skip(at as int);
        if whitespace(c) {
            match start {
                Some(from) => {
                    proof {
                        lemma_cut(line@, from as int, at as int);
                    }
                    let ghost before = words.deep_view();
                    let ghost word = line@.subrange(from as int, at as int);
                    words.push(line.substring_char(from, at).to_owned());
                    assert(words.deep_view() =~= before.push(word));
                    start = None;
                },
                None => {},
            }
            assert(rest.drop_first() =~= line@.skip(at + 1));
        } else {
            match start {
                Some(from) => {
                    assert forall|i: int| 0 <= i < at + 1 - from implies !is_whitespace(
                        #[trigger] line@.subrange(from as int, at + 1)[i],
                    ) by {
                        if i < at - from {
                            assert(line@.subrange(from as int, at as int)[i] == line@[from + i]);
                        }
                    }
                },
                None => {
                    start = Some(at);
                },
            }
        }
        at = at + 1;
    }
    match start {
        Some(from) => {
            proof {
                lemma_cut(line@, from as int, len as int);
            }
            let ghost before = words.deep_view();
            words.push(line.substring_char(from, len).to_owned());
            assert(words.deep_view() =~= before.push(line@.subrange(from as int, len as int)));
        },
        None => {},
    }
    assert(line@.skip(len as int) =~= Seq::<char>::empty());
    assert(words.deep_view() =~= tokens(line@));
    assert(!line@.contains('\0'));
    Ok(words)
}

/// Where a word runs from `from` up to `at`, and whitespace or the end of the
/// text stands at `at`, the words from `from` on are that word and then the
/// words from `at` on.
proof fn lemma_cut(s: Seq<char>, from: int, at: int)
    requires
        0 <= from < at <= s.len(),
        is_solid(s.subrange(from, at)),
        at == s.len() || is_whitespace(s[at]),
    ensures
        tokens(s.skip(from)) == seq![s.subrange(from, at)] + tokens(s.skip(at)),
{
    let tail = s.skip(from);
    assert(tail.take(at - from) =~= s.subrange(from, at));
    lemma_word_len_is(tail, at - from);
    assert(tail[0] == s.subrange(from, at)[0]);
    assert(tail.skip(at - from) =~= s.skip(at));
}

} // verus!
