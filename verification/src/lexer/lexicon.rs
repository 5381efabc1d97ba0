//! The lexicon: what the language, not the scanner, decides.

use vstd::prelude::*;
use crate::lexer::token::Keyword;

verus! {

/// The part of a language definition that the scanner is handed: the table of reserved
/// words and the character, if any, that opens a comment. A comment runs to the end of its
/// line. The marker should be a character that starts nothing else (such as `#`): one that
/// also starts a token is read as that token and never opens a comment.
#[derive(Clone, Debug, PartialEq, Eq)]
pub struct Lexicon {
    pub keywords: Vec<String>,
    pub comment: Option<char>,
}

/// The mathematical value of a [`Lexicon`].
pub struct LexiconView {
    pub keywords: Seq<Seq<char>>,
    pub comment: Option<char>,
}

impl View for Lexicon {
    type V = LexiconView;

    open spec fn view(&self) -> LexiconView {
        LexiconView {
            keywords: self.keywords@.map_values(|word: String| word@),
            comment: self.comment,
        }
    }
}

/// The keyword that `word` spells: the first entry of the table that equals it exactly.
pub open spec fn keyword_of(table: Seq<Seq<char>>, word: Seq<char>) -> Option<Keyword> {
    match table.index_of_first(word) {
        Some(k) => Some(Keyword::Entry(k as usize)),
        None => None,
    }
}

/// A word is a keyword exactly when the table holds it, and then it names the first entry
/// that spells it.
pub proof fn lemma_keyword_of(table: Seq<Seq<char>>, word: Seq<char>)
    requires
        table.len() <= usize::MAX,
    ensures
        keyword_of(table, word) is Some <==> table.contains(word),
        keyword_of(table, word) matches Some(Keyword::Entry(k)) ==> k < table.len() && table[k as int]
            == word && forall|j: int| 0 <= j < k ==> table[j] != word,
{
    table.index_of_first_ensures(word);
}

impl Lexicon {
    /// A lexicon with the given keyword table and comment marker.
    pub fn new(keywords: Vec<String>, comment: Option<char>) -> (lexicon: Lexicon)
        ensures
            lexicon.keywords == keywords,
            lexicon.comment == comment,
    {
        Lexicon { keywords, comment }
    }

    /// Looks `word` up in the keyword table.
    pub fn keyword(&self, word: &String) -> (found: Option<Keyword>)
        ensures
            found == keyword_of(self@.keywords, word@),
    {
        let ghost table = self@.keywords;
        let mut k: usize = 0;
        while k < self.keywords.len()
            invariant
                k <= self.keywords.len(),
                table == self@.keywords,
                forall|j: int| 0 <= j < k ==> table[j] != word@,
            decreases self.keywords.len() - k,
        {
            if self.keywords[k] == *word {
                proof {
                    table.index_of_first_ensures(word@);
                    assert(table[k as int] == word@);
                    assert(table.contains(word@));
                }
                return Some(Keyword::Entry(k));
            }
            k += 1;
        }
        proof {
            table.index_of_first_ensures(word@);
            assert(!table.contains(word@));
        }
        None
    }
}

} // verus!
