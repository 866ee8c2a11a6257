//! Passphrases made of three words of a word list.

use vstd::prelude::*;
use rand::seq::SliceRandom;
use crate::text::texts;

verus! {

/// Three words, joined by hyphens.
pub open spec fn passphrase_text(first: Seq<char>, second: Seq<char>, third: Seq<char>) -> Seq<
    char,
> {
    first + "-"@ + second + "-"@ + third
}

/// Whether `text` is made of three words of the list.
pub open spec fn is_passphrase(text: Seq<char>, words: Seq<Seq<char>>) -> bool {
    exists|first: Seq<char>, second: Seq<char>, third: Seq<char>|
        {
            &&& words.contains(first)
            &&& words.contains(second)
            &&& words.contains(third)
            &&& text == #[trigger] passphrase_text(first, second, third)
        }
}

/// Calls `rand::seq::SliceRandom::choose` with `rand::thread_rng`. Claimed:
/// the result is one of the words, and is missing only where there is none.
/// Which word it is, is left to chance.
#[verifier::external_body]
fn choose_word(wordlist: &Vec<String>) -> (res: Option<&String>)
    ensures
        match res {
            Some(word) => texts(wordlist@).contains(word@),
            None => wordlist@.len() == 0,
        },
{
    wordlist.choose(&mut rand::thread_rng())
}

/// Joins three words by hyphens.
pub fn join_words(first: &str, second: &str, third: &str) -> (res: String)
    ensures
        res@ == passphrase_text(first@, second@, third@),
{
    let mut res = first.to_owned();
    res.append("-");
    res.append(second);
    res.append("-");
    res.append(third);
    res
}

/// Makes a passphrase of three words, each drawn from the whole list.
pub fn generate_passphrase(wordlist: &Vec<String>) -> (res: String)
    requires
        wordlist@.len() > 0,
    ensures
        is_passphrase(res@, texts(wordlist@)),
{
    match (choose_word(wordlist), choose_word(wordlist), choose_word(wordlist)) {
        (Some(first), Some(second), Some(third)) => join_words(
            first.as_str(),
            second.as_str(),
            third.as_str(),
        ),
        _ => String::new(),
    }
}

/// A passphrase is a word of the list, a hyphen, a word, a hyphen and a word,
/// whichever words they are.
pub proof fn law_passphrases(text: Seq<char>, words: Seq<Seq<char>>)
    ensures
        is_passphrase(text, words) <==> exists|i: int, j: int, k: int|
            {
                &&& 0 <= i < words.len()
                &&& 0 <= j < words.len()
                &&& 0 <= k < words.len()
                &&& text == (#[trigger] words[i]).push('-') + (#[trigger] words[j]).push('-')
                    + #[trigger] words[k]
            },
{
    reveal_strlit("-");
    assert forall|a: Seq<char>, b: Seq<char>, c: Seq<char>| #[trigger]
        passphrase_text(a, b, c) == a.push('-') + b.push('-') + c by {}
    if is_passphrase(text, words) {
        let (a, b, c) = choose|a: Seq<char>, b: Seq<char>, c: Seq<char>|
            {
                &&& words.contains(a)
                &&& words.contains(b)
                &&& words.contains(c)
                &&& text == #[trigger] passphrase_text(a, b, c)
            };
        let i = choose|i: int| 0 <= i < words.len() && words[i] == a;
        let j = choose|j: int| 0 <= j < words.len() && words[j] == b;
        let k = choose|k: int| 0 <= k < words.len() && words[k] == c;
        assert(text == words[i].push('-') + words[j].push('-') + words[k]);
    }
    if exists|i: int, j: int, k: int|
        {
            &&& 0 <= i < words.len()
            &&& 0 <= j < words.len()
            &&& 0 <= k < words.len()
            &&& text == (#[trigger] words[i]).push('-') + (#[trigger] words[j]).push('-')
                + #[trigger] words[k]
        } {
        let (i, j, k) = choose|i: int, j: int, k: int|
            {
                &&& 0 <= i < words.len()
                &&& 0 <= j < words.len()
                &&& 0 <= k < words.len()
                &&& text == (#[trigger] words[i]).push('-') + (#[trigger] words[j]).push('-')
                    + #[trigger] words[k]
            };
        assert(words.contains(words[i]) && words.contains(words[j]) && words.contains(words[k]));
        assert(text == passphrase_text(words[i], words[j], words[k]));
    }
}

/// Joined by hyphens, three words stand in the order in which they were given.
pub proof fn law_joined_words(first: Seq<char>, second: Seq<char>, third: Seq<char>)
    ensures
        passphrase_text(first, second, third) == first.push('-') + second.push('-') + third,
{
    reveal_strlit("-");
}

} // verus!
