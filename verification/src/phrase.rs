//! Seed-phrase handling: sampling words from a word list and extracting the
//! words of a typed recovery phrase.

use vstd::prelude::*;
use vstd::seq_lib::*;

use rand::seq::SliceRandom;

verus! {

/// How many words a freshly generated seed phrase holds.
pub const PHRASE_LEN: usize = 24;

/// Whether no two entries of a word sequence are equal.
pub open spec fn all_distinct(ws: Seq<Seq<char>>) -> bool {
    forall|i: int, j: int| 0 <= i < j < ws.len() ==> ws[i] != ws[j]
}

/// Puts the words of a list into a fresh random order.
///
/// Relies on rand's `SliceRandom::shuffle` with `thread_rng`: it permutes the
/// slice in place by swaps, so the words and their number are unchanged; the
/// order that comes back depends on the random source, so nothing is said of it.
#[verifier::external_body]
fn shuffle_words(words: &mut Vec<String>)
    ensures
        final(words)@.len() == old(words)@.len(),
        final(words).deep_view().to_multiset() == old(words).deep_view().to_multiset(),
{
    let mut rng = rand::thread_rng();
    words.shuffle(&mut rng);
}

/// Draws a seed phrase from a word list: up to twenty-four words, sampled
/// without replacement, in a fresh random order.
///
/// Each chosen word occurs in the list, and a list without repeated words
/// yields a phrase without repeated words. The draw itself is random; only
/// the phrase fed into key derivation makes the keypair reproducible.
pub fn choose_words(words: Vec<String>) -> (r: Vec<String>)
    ensures
        r@.len() == if words@.len() < PHRASE_LEN {
            words@.len() as int
        } else {
            PHRASE_LEN as int
        },
        forall|k: int|
            0 <= k < r@.len() ==> words.deep_view().contains(#[trigger] r.deep_view()[k]),
        r.deep_view().to_multiset().subset_of(words.deep_view().to_multiset()),
        all_distinct(words.deep_view()) ==> all_distinct(r.deep_view()),
{
    let ghost orig = words.deep_view();
    let mut ws = words;
    shuffle_words(&mut ws);
    let ghost shuffled = ws.deep_view();
    ws.truncate(PHRASE_LEN);
    proof {
        broadcast use vstd::seq_lib::group_to_multiset_ensures;

        if orig.len() >= PHRASE_LEN {
            assert(ws.deep_view() =~= shuffled.take(PHRASE_LEN as int));
            assert(shuffled =~= shuffled.take(PHRASE_LEN as int) + shuffled.skip(
                PHRASE_LEN as int,
            ));
            vstd::seq_lib::lemma_multiset_commutative(
                shuffled.take(PHRASE_LEN as int),
                shuffled.skip(PHRASE_LEN as int),
            );
        } else {
            assert(ws.deep_view() =~= shuffled);
        }
        assert(ws.deep_view().to_multiset().subset_of(orig.to_multiset()));
        assert forall|k: int| 0 <= k < ws.deep_view().len() implies orig.contains(
            #[trigger] ws.deep_view()[k],
        ) by {
            let w = ws.deep_view()[k];
            assert(shuffled[k] == w);
            assert(shuffled.contains(w));
            assert(shuffled.to_multiset().count(w) > 0);
            assert(orig.to_multiset().count(w) > 0);
        }
        if all_distinct(orig) {
            assert(orig.no_duplicates());
            orig.lemma_multiset_has_no_duplicates();
            assert(forall|x: Seq<char>|
                shuffled.to_multiset().contains(x) ==> shuffled.to_multiset().count(x) == 1);
            shuffled.lemma_multiset_has_no_duplicates_conv();
            assert forall|i: int, j: int|
                0 <= i < j < ws.deep_view().len() implies ws.deep_view()[i]
                != ws.deep_view()[j] by {
                assert(shuffled[i] == ws.deep_view()[i]);
                assert(shuffled[j] == ws.deep_view()[j]);
            }
        }
    }
    ws
}

/// A word character of a typed recovery phrase: a letter, a digit or the
/// underscore.
pub open spec fn is_word_char(c: char) -> bool {
    ('a' <= c && c <= 'z') || ('A' <= c && c <= 'Z') || ('0' <= c && c <= '9') || c == '_'
}

/// The length of the longest run of word characters starting at `i`.
pub open spec fn word_run_len(t: Seq<char>, i: int) -> nat
    decreases t.len() - i,
{
    if i < 0 || i >= t.len() || !is_word_char(t[i]) {
        0
    } else {
        (1 + word_run_len(t, i + 1)) as nat
    }
}

/// A run of word characters stays inside the text.
pub proof fn lemma_word_run_len_bounds(t: Seq<char>, i: int)
    requires
        0 <= i <= t.len(),
    ensures
        i + word_run_len(t, i) <= t.len(),
    decreases t.len() - i,
{
    if i < t.len() && is_word_char(t[i]) {
        lemma_word_run_len_bounds(t, i + 1);
    }
}

/// The words of a text from position `i` on: the maximal runs of word
/// characters, in the order they appear, case preserved.
pub open spec fn tokens_of(t: Seq<char>, i: int) -> Seq<Seq<char>>
    decreases t.len() - i,
    via tokens_of_decreases
{
    if i < 0 || i >= t.len() {
        Seq::<Seq<char>>::empty()
    } else if !is_word_char(t[i]) {
        tokens_of(t, i + 1)
    } else {
        let run = word_run_len(t, i);
        seq![t.subrange(i, i + run)] + tokens_of(t, i + run)
    }
}

#[via_fn]
proof fn tokens_of_decreases(t: Seq<char>, i: int) {
    if 0 <= i && i < t.len() && is_word_char(t[i]) {
        lemma_word_run_len_bounds(t, i);
        assert(word_run_len(t, i) == 1 + word_run_len(t, i + 1));
    }
}

/// Whether a character is a word character.
fn is_word_char_exec(c: char) -> (r: bool)
    ensures
        r == is_word_char(c),
{
    (c >= 'a' && c <= 'z') || (c >= 'A' && c <= 'Z') || (c >= '0' && c <= '9') || c == '_'
}

/// Measures the run of word characters starting at `i`.
fn scan_word_run(s: &str, i: usize) -> (r: usize)
    requires
        i <= s@.len(),
    ensures
        r == word_run_len(s@, i as int),
        i + r <= s@.len(),
{
    let n = s.unicode_len();
    let mut k = i;
    while k < n && is_word_char_exec(s.get_char(k))
        invariant
            i <= k <= n,
            n == s@.len(),
            word_run_len(s@, i as int) == (k - i) + word_run_len(s@, k as int),
        decreases n - k,
    {
        assert(word_run_len(s@, k as int) == 1 + word_run_len(s@, k + 1));
        k = k + 1;
    }
    assert(word_run_len(s@, k as int) == 0);
    k - i
}

/// Extracts the word sequence of a typed recovery phrase: the maximal runs of
/// word characters, in the order they appear, case preserved. This
/// tokenization decides exactly which words feed key derivation.
pub fn extract_words(input: &str) -> (r: Vec<String>)
    ensures
        r.deep_view() == tokens_of(input@, 0),
{
    let n = input.unicode_len();
    let mut out: Vec<String> = Vec::new();
    let mut i: usize = 0;
    assert(out.deep_view() =~= Seq::<Seq<char>>::empty());
    while i < n
        invariant
            i <= n,
            n == input@.len(),
            tokens_of(input@, 0) == out.deep_view() + tokens_of(input@, i as int),
        decreases n - i,
    {
        if is_word_char_exec(input.get_char(i)) {
            let ghost old_deep = out.deep_view();
            let run = scan_word_run(input, i);
            assert(run >= 1);
            let w = input.substring_char(i, i + run).to_owned();
            out.push(w);
            proof {
                assert(out.deep_view() =~= old_deep + seq![input@.subrange(i as int, i + run)]);
                assert(tokens_of(input@, i as int) == seq![input@.subrange(i as int, i + run)]
                    + tokens_of(input@, i + run));
                assert(out.deep_view() + tokens_of(input@, i + run) =~= (old_deep + tokens_of(
                    input@,
                    i as int,
                )));
            }
            i = i + run;
        } else {
            assert(tokens_of(input@, i as int) == tokens_of(input@, i + 1));
            i = i + 1;
        }
    }
    assert(tokens_of(input@, n as int) =~= Seq::<Seq<char>>::empty());
    assert(out.deep_view() =~= out.deep_view() + tokens_of(input@, n as int));
    out
}

} // verus!
