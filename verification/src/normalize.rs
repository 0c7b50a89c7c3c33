//! The identifier normalizer: free-text keys and path fragments become
//! identifier-safe PascalCase tokens.
//!
//! A string is split on a fixed delimiter set; every word is title-cased
//! (first character uppercased, the rest lowercased); the words are
//! concatenated with no separator. A public key identifier additionally
//! escapes a leading digit with the fixed letter `M`; the private
//! backing-field variant lowercases the first character and prefixes `_`.

use vstd::prelude::*;

use crate::chars::{spec_is_digit, spec_to_lower, spec_to_upper, is_digit, to_lower, to_upper, DelimSet};
use crate::split::{split_chars, split_on};
use crate::text::push_char;
use vstd::string::StrSliceExecFns;
use vstd::string::StringExecFns;

verus! {

/// One word, title-cased: the first character uppercased, the rest lowercased.
pub open spec fn spec_title_word(w: Seq<char>) -> Seq<char> {
    Seq::new(
        w.len(),
        |i: int|
            if i == 0 {
                spec_to_upper(w[i])
            } else {
                spec_to_lower(w[i])
            },
    )
}

/// Title-cased words concatenated with no separator.
pub open spec fn spec_pascal_words(ws: Seq<Seq<char>>) -> Seq<char>
    decreases ws.len(),
{
    if ws.len() == 0 {
        Seq::<char>::empty()
    } else {
        spec_title_word(ws[0]) + spec_pascal_words(ws.skip(1))
    }
}

pub proof fn lemma_pascal_words_push(ws: Seq<Seq<char>>, w: Seq<char>)
    ensures
        spec_pascal_words(ws.push(w)) == spec_pascal_words(ws) + spec_title_word(w),
    decreases ws.len(),
{
    if ws.len() == 0 {
        assert(ws.push(w)[0] == w);
        assert(ws.push(w).skip(1) =~= Seq::<Seq<char>>::empty());
        assert(spec_pascal_words(Seq::<Seq<char>>::empty()) == Seq::<char>::empty());
        assert(spec_pascal_words(ws.push(w)) == spec_title_word(w) + Seq::<char>::empty());
        assert(spec_pascal_words(ws.push(w)) =~= spec_pascal_words(ws) + spec_title_word(w));
    } else {
        assert(ws.push(w)[0] == ws[0]);
        assert(ws.push(w).skip(1) =~= ws.skip(1).push(w));
        lemma_pascal_words_push(ws.skip(1), w);
        assert(spec_pascal_words(ws.push(w)) =~= spec_pascal_words(ws) + spec_title_word(w));
    }
}

/// The normalizer's word-splitting and title-casing rule over a whole string.
pub open spec fn spec_pascal(s: Seq<char>, ds: DelimSet) -> Seq<char> {
    spec_pascal_words(split_chars(s, ds))
}

/// The normalized public identifier for a key: PascalCase over the key's
/// words, with a leading digit escaped by the fixed letter `M`.
pub open spec fn spec_camel_key(s: Seq<char>) -> Seq<char> {
    let p = spec_pascal(s, DelimSet::Word);
    if p.len() > 0 && spec_is_digit(p[0]) {
        seq!['M'] + p
    } else {
        p
    }
}

/// The private backing-field identifier for a key: the public identifier
/// with its first character lowercased, prefixed by the fixed sentinel `_`.
pub open spec fn spec_backing_key(s: Seq<char>) -> Seq<char> {
    let p = spec_camel_key(s);
    if p.len() == 0 {
        seq!['_']
    } else {
        seq!['_'] + seq![spec_to_lower(p[0])] + p.skip(1)
    }
}

/// The base type name for a qualified path: the title-casing rule over the
/// entire path, with no digit escaping.
pub open spec fn spec_path_name(s: Seq<char>) -> Seq<char> {
    spec_pascal(s, DelimSet::Path)
}

/// Uppercases the first character of a word and lowercases the rest.
pub fn uppercase_first_letter(w: &str) -> (r: String)
    ensures
        r@ == spec_title_word(w@),
{
    let n: usize = w.unicode_len();
    let mut r = String::new();
    let mut i: usize = 0;
    proof {
        assert(r@ =~= spec_title_word(w@).take(0));
    }
    while i < n
        invariant
            0 <= i <= n,
            n == w@.len(),
            r@ == spec_title_word(w@).take(i as int),
        decreases n - i,
    {
        let c = w.get_char(i);
        let m = if i == 0 {
            to_upper(c)
        } else {
            to_lower(c)
        };
        push_char(&mut r, m);
        proof {
            assert(r@ =~= spec_title_word(w@).take(i + 1));
        }
        i = i + 1;
    }
    proof {
        assert(spec_title_word(w@).take(n as int) =~= spec_title_word(w@));
    }
    r
}

/// Concatenates the title-cased form of each word.
fn pascal_of_words(words: &Vec<String>) -> (r: String)
    ensures
        r@ == spec_pascal_words(words.deep_view()),
{
    let mut r = String::new();
    let mut i: usize = 0;
    proof {
        assert(r@ =~= spec_pascal_words(words.deep_view().take(0)));
    }
    while i < words.len()
        invariant
            0 <= i <= words@.len(),
            r@ == spec_pascal_words(words.deep_view().take(i as int)),
        decreases words@.len() - i,
    {
        let t = uppercase_first_letter(words[i].as_str());
        r.append(t.as_str());
        proof {
            assert(words@[i as int]@ == words.deep_view()[i as int]);
            lemma_pascal_words_push(words.deep_view().take(i as int), words.deep_view()[i as int]);
            assert(words.deep_view().take(i + 1) =~= words.deep_view().take(i as int).push(
                words.deep_view()[i as int],
            ));
        }
        i = i + 1;
    }
    proof {
        assert(words.deep_view().take(words@.len() as int) =~= words.deep_view());
    }
    r
}

/// The normalized public identifier for a key.
pub fn key_to_camelcase(key: &str) -> (r: String)
    ensures
        r@ == spec_camel_key(key@),
{
    let words = split_on(key, DelimSet::Word);
    let camel = pascal_of_words(&words);
    if camel.as_str().unicode_len() > 0 {
        let c0 = camel.as_str().get_char(0);
        if is_digit(c0) {
            let mut escaped = String::new();
            push_char(&mut escaped, 'M');
            escaped.append(camel.as_str());
            proof {
                assert(escaped@ =~= seq!['M'] + camel@);
            }
            return escaped;
        }
    }
    camel
}

/// The private backing-field identifier for a key.
pub fn key_to_backing_field(key: &str) -> (r: String)
    ensures
        r@ == spec_backing_key(key@),
{
    let camel = key_to_camelcase(key);
    let mut r = String::new();
    push_char(&mut r, '_');
    let n: usize = camel.as_str().unicode_len();
    if n > 0 {
        let c0 = camel.as_str().get_char(0);
        push_char(&mut r, to_lower(c0));
        let tail = camel.as_str().substring_char(1, n);
        r.append(tail);
        proof {
            assert(camel@.subrange(1, camel@.len() as int) =~= camel@.skip(1));
            assert(r@ =~= seq!['_'] + seq![spec_to_lower(camel@[0])] + camel@.skip(1));
        }
    } else {
        proof {
            assert(r@ =~= seq!['_']);
        }
    }
    r
}

/// The base type name derived from a qualified path.
pub fn path_to_name(qualified_path: &str) -> (r: String)
    ensures
        r@ == spec_path_name(qualified_path@),
{
    let words = split_on(qualified_path, DelimSet::Path);
    pascal_of_words(&words)
}

} // verus!
