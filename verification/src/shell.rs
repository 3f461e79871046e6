//! Command lines as words, in the syntax of the POSIX shell.
use crate::text::{join_of, texts};
use vstd::prelude::*;

verus! {

/// The words that a text is split into, or nothing where a quote or an escape is left open: what
/// `shlex::split` returns.
pub uninterp spec fn shell_words(text: Seq<char>) -> Option<Seq<Seq<char>>>;

/// The words, quoted where necessary and with a single space between them, or nothing where they
/// cannot be quoted: what `shlex::try_join` returns.
pub uninterp spec fn shell_line(words: Seq<Seq<char>>) -> Option<Seq<char>>;

/// Whether a character ends a word, or quotes or escapes what follows it.
pub open spec fn is_syntax(c: char) -> bool {
    c == ' ' || c == '\t' || c == '\n' || c == '"' || c == '\'' || c == '\\'
}

/// A word that stands for itself where words are split: it starts no comment, and nothing in it
/// ends it, quotes or escapes.
pub open spec fn plain_word(word: Seq<char>) -> bool {
    word.len() > 0 && word[0] != '#' && forall|i: int|
        0 <= i < word.len() ==> !is_syntax(#[trigger] word[i])
}

pub open spec fn plain_words(words: Seq<Seq<char>>) -> bool {
    forall|i: int| 0 <= i < words.len() ==> plain_word(#[trigger] words[i])
}

/// Whether a character is written without quotes where words are joined.
pub open spec fn is_bare(c: char) -> bool {
    'a' <= c <= 'z' || 'A' <= c <= 'Z' || '0' <= c <= '9' || c == '+' || c == '-' || c == '.' || c
        == '/' || c == ':' || c == '@' || c == ']' || c == '_'
}

/// A word that is written without quotes where words are joined.
pub open spec fn bare_word(word: Seq<char>) -> bool {
    word.len() > 0 && forall|i: int| 0 <= i < word.len() ==> is_bare(#[trigger] word[i])
}

pub open spec fn bare_words(words: Seq<Seq<char>>) -> bool {
    forall|i: int| 0 <= i < words.len() ==> bare_word(#[trigger] words[i])
}

/// Splits a text into words with `shlex::split`, which reads nothing but the text. Words that
/// stand for themselves, with single spaces between them, are the words that come out. What comes
/// of quotes, escapes and comments is not described further.
#[verifier::external_body]
pub(crate) fn split_words(text: &str) -> (r: Option<Vec<String>>)
    ensures
        shell_words(text@) == (match r {
            Some(words) => Some(texts(words@)),
            None => None,
        }),
        forall|words: Seq<Seq<char>>| #[trigger]
            plain_words(words) && text@ == join_of(words, " "@) ==> r is Some && texts(r->0@)
                == words,
{
    shlex::split(text)
}

/// Joins words with `shlex::try_join`, which reads nothing but the words and refuses those that
/// hold a nul character, and no others. Words that are made of letters, digits and a few signs are
/// written as they are, with single spaces between them. How other words are quoted is not
/// described further.
#[verifier::external_body]
pub(crate) fn join_words(words: &Vec<String>) -> (r: Option<String>)
    ensures
        shell_line(texts(words@)) == (match r {
            Some(line) => Some(line@),
            None => None,
        }),
        r is Some <==> forall|i: int|
            0 <= i < words@.len() ==> !(#[trigger] words@[i])@.contains('\0'),
        bare_words(texts(words@)) ==> r is Some && r->0@ == join_of(texts(words@), " "@),
{
    shlex::try_join(words.iter().map(|word| word.as_str())).ok()
}

} // verus!
