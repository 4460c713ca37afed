//! Human-readable keys: words drawn at random from a word list, lowercased, with everything
//! but letters dropped, and joined by single spaces.
use rand::Rng;
use vstd::prelude::*;

verus! {

/// Relies on rand's `Rng::random_range` on the thread-local generator from `rand::rng()`:
/// the value is drawn from `0..n`; it panics on an empty range, which `requires` leaves out.
#[verifier::external_body]
fn random_index(n: usize) -> (r: usize)
    requires
        n > 0,
    ensures
        r < n,
{
    rand::rng().random_range(0..n)
}

/// What `str::to_lowercase` makes of a text.
pub uninterp spec fn lowercase_of(s: Seq<char>) -> Seq<char>;

/// Relies on `str::to_lowercase`: the lowercase form depends on the characters alone.
#[verifier::external_body]
fn lowercase(s: &str) -> (r: String)
    ensures
        r@ == lowercase_of(s@),
{
    s.to_lowercase()
}

/// Whether `char::is_alphabetic` holds of a character.
pub uninterp spec fn is_letter(c: char) -> bool;

/// Relies on `char::is_alphabetic`: whether the character has Unicode's `Alphabetic`
/// property, a function of the character alone.
#[verifier::external_body]
fn alphabetic(c: char) -> (r: bool)
    ensures
        r == is_letter(c),
{
    c.is_alphabetic()
}

/// The letters of `s`, in order.
pub open spec fn letters(s: Seq<char>) -> Seq<char>
    decreases s.len(),
{
    if s.len() == 0 {
        Seq::empty()
    } else if is_letter(s.last()) {
        letters(s.drop_last()).push(s.last())
    } else {
        letters(s.drop_last())
    }
}

/// The word that a list entry gives: its lowercase form, letters only.
pub open spec fn key_word(entry: Seq<char>) -> Seq<char> {
    letters(lowercase_of(entry))
}

/// The key made of the entries at `indices`, in order: each word follows the text so far
/// after a space, or without one while that text is still empty.
pub open spec fn key_text(list: Seq<String>, indices: Seq<usize>) -> Seq<char>
    decreases indices.len(),
{
    if indices.len() == 0 {
        Seq::empty()
    } else {
        let so_far = key_text(list, indices.drop_last());
        let word = key_word(list[indices.last() as int]@);
        if so_far.len() > 0 {
            so_far + seq![' '] + word
        } else {
            word
        }
    }
}

/// The word that a list entry gives.
pub fn key_word_of(entry: &str) -> (r: String)
    ensures
        r@ == key_word(entry@),
{
    let lower = lowercase(entry);
    let text = lower.as_str();
    let n = text.unicode_len();
    let mut word = String::new();
    let mut i: usize = 0;
    while i < n
        invariant
            n == text@.len(),
            text@ == lowercase_of(entry@),
            i <= n,
            word@ == letters(text@.subrange(0, i as int)),
        decreases n - i,
    {
        let c = text.get_char(i);
        let ghost upto = text@.subrange(0, i + 1);
        assert(upto.drop_last() =~= text@.subrange(0, i as int));
        assert(upto.last() == c);
        if alphabetic(c) {
            word.append(text.substring_char(i, i + 1));
            assert(text@.subrange(i as int, i + 1) =~= seq![c]);
        }
        i = i + 1;
    }
    assert(text@.subrange(0, i as int) =~= text@);
    word
}

/// Joins the words of the entries at `indices`, in order.
pub fn compose_key(word_list: &[String], indices: &[usize]) -> (r: String)
    requires
        forall|k: int| 0 <= k < indices@.len() ==> #[trigger] indices@[k] < word_list@.len(),
    ensures
        r@ == key_text(word_list@, indices@),
{
    let mut key = String::new();
    let mut k: usize = 0;
    while k < indices.len()
        invariant
            k <= indices@.len(),
            forall|j: int| 0 <= j < indices@.len() ==> #[trigger] indices@[j] < word_list@.len(),
            key@ == key_text(word_list@, indices@.subrange(0, k as int)),
        decreases indices@.len() - k,
    {
        let ghost upto = indices@.subrange(0, k + 1);
        assert(upto.drop_last() =~= indices@.subrange(0, k as int));
        assert(upto.last() == indices@[k as int]);
        let word = key_word_of(word_list[indices[k]].as_str());
        if key.unicode_len() > 0 {
            proof { reveal_strlit(" "); }
            key.append(" ");
        }
        key.append(word.as_str());
        k = k + 1;
    }
    assert(indices@.subrange(0, k as int) =~= indices@);
    key
}

/// A key of `word_count` words drawn at random from `word_list`.
pub fn get_random_key(word_list: &[String], word_count: u8) -> (r: String)
    requires
        word_list@.len() > 0,
    ensures
        exists|indices: Seq<usize>|
            indices.len() == word_count && (forall|k: int|
                0 <= k < indices.len() ==> #[trigger] indices[k] < word_list@.len()) && r@
                == key_text(word_list@, indices),
{
    let mut indices: Vec<usize> = Vec::new();
    let mut k: u8 = 0;
    while k < word_count
        invariant
            k <= word_count,
            word_list@.len() > 0,
            indices@.len() == k,
            forall|j: int| 0 <= j < indices@.len() ==> #[trigger] indices@[j] < word_list@.len(),
        decreases word_count - k,
    {
        let i = random_index(word_list.len());
        indices.push(i);
        k = k + 1;
    }
    compose_key(word_list, indices.as_slice())
}

} // verus!
