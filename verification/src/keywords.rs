//! Counting the words of a page.
//!
//! The words are taken from the raw HTML text, markup included: every
//! character that is neither alphanumeric nor whitespace is dropped, what is
//! left is split at whitespace, words of up to three characters are left out
//! and the others are put in lower case.

use vstd::prelude::*;
use vstd::hash_map::StringHashMap;
use crate::report::KeywordCount;
use crate::report::keyword_words;
use crate::report::string_views;

verus! {

/// Whether `c` is alphanumeric, as `char::is_alphanumeric` decides it.
pub uninterp spec fn is_alphanumeric_char(c: char) -> bool;

/// Whether `c` is whitespace, as `char::is_whitespace` decides it.
pub uninterp spec fn is_whitespace_char(c: char) -> bool;

/// `s` in lower case, as `str::to_lowercase` gives it.
pub uninterp spec fn lowercase_of(s: Seq<char>) -> Seq<char>;

/// `char::is_alphanumeric` of the standard library, which goes by the
/// Unicode tables. The result is named, not described.
pub assume_specification[ char::is_alphanumeric ](c: char) -> (b: bool)
    ensures
        b == is_alphanumeric_char(c),
;

/// `char::is_whitespace` of the standard library, which goes by the Unicode
/// property `White_Space`. The result is named, not described.
pub assume_specification[ char::is_whitespace ](c: char) -> (b: bool)
    ensures
        b == is_whitespace_char(c),
;

/// `str::to_lowercase` of the standard library. The result is named, not
/// described.
pub assume_specification[ str::to_lowercase ](s: &str) -> (lower: String)
    ensures
        lower@ == lowercase_of(s@),
;

/// `String::push` of the standard library, which appends one character.
pub assume_specification[ String::push ](s: &mut String, c: char)
    ensures
        final(s)@ == old(s)@.push(c),
;

/// The characters of `s` that are alphanumeric or whitespace, in order.
pub open spec fn kept_chars(s: Seq<char>) -> Seq<char>
    decreases s.len(),
{
    if s.len() == 0 {
        s
    } else if is_alphanumeric_char(s.last()) || is_whitespace_char(s.last()) {
        kept_chars(s.drop_last()).push(s.last())
    } else {
        kept_chars(s.drop_last())
    }
}

/// The maximal runs of characters of `s` that hold no whitespace, in order.
pub open spec fn words(s: Seq<char>) -> Seq<Seq<char>>
    decreases s.len(),
{
    if s.len() == 0 {
        Seq::empty()
    } else if is_whitespace_char(s.last()) {
        words(s.drop_last())
    } else if s.len() >= 2 && !is_whitespace_char(s[s.len() - 2]) {
        let before = words(s.drop_last());
        before.drop_last().push(before.last().push(s.last()))
    } else {
        words(s.drop_last()).push(seq![s.last()])
    }
}

/// Of `all`, the words of more than three characters, each in lower case.
pub open spec fn counted(all: Seq<Seq<char>>) -> Seq<Seq<char>>
    decreases all.len(),
{
    if all.len() == 0 {
        Seq::empty()
    } else if all.last().len() > 3 {
        counted(all.drop_last()).push(lowercase_of(all.last()))
    } else {
        counted(all.drop_last())
    }
}

/// The counted words of a page, in the order in which they occur.
pub open spec fn keyword_tokens(html: Seq<char>) -> Seq<Seq<char>> {
    counted(words(kept_chars(html)))
}

/// How often `word` occurs in `tokens`.
pub open spec fn occurrences(tokens: Seq<Seq<char>>, word: Seq<char>) -> nat
    decreases tokens.len(),
{
    if tokens.len() == 0 {
        0
    } else {
        occurrences(tokens.drop_last(), word) + if tokens.last() == word {
            1nat
        } else {
            0nat
        }
    }
}

/// The distinct words of `tokens`, each at the place of its first occurrence.
pub open spec fn first_seen(tokens: Seq<Seq<char>>) -> Seq<Seq<char>>
    decreases tokens.len(),
{
    if tokens.len() == 0 {
        Seq::empty()
    } else if first_seen(tokens.drop_last()).contains(tokens.last()) {
        first_seen(tokens.drop_last())
    } else {
        first_seen(tokens.drop_last()).push(tokens.last())
    }
}

/// The sum of the counts of `entries`.
pub open spec fn count_sum(entries: Seq<KeywordCount>) -> nat
    decreases entries.len(),
{
    if entries.len() == 0 {
        0
    } else {
        count_sum(entries.drop_last()) + entries.last().count as nat
    }
}

/// `entries` is the tally of `tokens`: no word stands twice, each entry
/// holds how often its word occurs, and every word that occurs has an entry.
pub open spec fn is_tally_of(entries: Seq<KeywordCount>, tokens: Seq<Seq<char>>) -> bool {
    &&& forall|i: int, j: int|
        0 <= i < j < entries.len() ==> (#[trigger] entries[i]).word@ != (#[trigger] entries[j]).word@
    &&& forall|i: int|
        0 <= i < entries.len() ==> (#[trigger] entries[i]).count > 0 && entries[i].count
            == occurrences(tokens, entries[i].word@)
    &&& forall|word: Seq<char>| #[trigger]
        occurrences(tokens, word) > 0 ==> exists|i: int|
            0 <= i < entries.len() && (#[trigger] entries[i]).word@ == word
}

/// A word occurs at most as often as there are tokens.
pub proof fn lemma_occurrences_bounded(tokens: Seq<Seq<char>>, word: Seq<char>)
    ensures
        occurrences(tokens, word) <= tokens.len(),
    decreases tokens.len(),
{
    if tokens.len() > 0 {
        lemma_occurrences_bounded(tokens.drop_last(), word);
    }
}

/// Raising the count of one entry by one raises the sum by one.
proof fn lemma_count_sum_update(entries: Seq<KeywordCount>, j: int, updated: KeywordCount)
    requires
        0 <= j < entries.len(),
        updated.count == entries[j].count + 1,
    ensures
        count_sum(entries.update(j, updated)) == count_sum(entries) + 1,
    decreases entries.len(),
{
    let after = entries.update(j, updated);
    if j == entries.len() - 1 {
        assert(after.drop_last() == entries.drop_last());
    } else {
        lemma_count_sum_update(entries.drop_last(), j, updated);
        assert(after.drop_last() == entries.drop_last().update(j, updated));
    }
}

/// `index` gives, for the word of each entry and for nothing else, the place
/// of that entry.
pub open spec fn is_index_of(index: Map<Seq<char>, usize>, entries: Seq<KeywordCount>) -> bool {
    &&& forall|k: int|
        0 <= k < entries.len() ==> index.contains_key((#[trigger] entries[k]).word@)
            && index[entries[k].word@] == k
    &&& forall|word: Seq<char>| #[trigger]
        index.contains_key(word) ==> index[word] < entries.len() && entries[index[word] as int].word@
            == word
}

/// The place of the entry for `word`, if there is one.
fn find_word(index: &StringHashMap<usize>, entries: &Vec<KeywordCount>, word: &String) -> (found:
    Option<usize>)
    requires
        is_index_of(index@, entries@),
    ensures
        match found {
            Some(j) => j < entries@.len() && entries@[j as int].word@ == word@,
            None => forall|i: int| 0 <= i < entries@.len() ==> (#[trigger] entries@[i]).word@ != word@,
        },
{
    match index.get(word.as_str()) {
        Some(place) => Some(*place),
        None => None,
    }
}

/// Counts how often each word occurs in `tokens`.
pub fn tally(tokens: &Vec<String>) -> (entries: Vec<KeywordCount>)
    ensures
        is_tally_of(entries@, string_views(tokens@)),
        keyword_words(entries@) == first_seen(string_views(tokens@)),
        count_sum(entries@) == tokens@.len(),
{
    let ghost all = string_views(tokens@);
    let mut entries: Vec<KeywordCount> = Vec::new();
    let mut index: StringHashMap<usize> = StringHashMap::new();
    let mut i: usize = 0;
    while i < tokens.len()
        invariant
            i <= tokens.len(),
            all == string_views(tokens@),
            is_index_of(index@, entries@),
            is_tally_of(entries@, all.take(i as int)),
            keyword_words(entries@) == first_seen(all.take(i as int)),
            count_sum(entries@) == i,
        decreases tokens.len() - i,
    {
        let ghost seen = all.take(i as int);
        let ghost next = all.take(i + 1);
        let ghost before = entries@;
        let token = &tokens[i];
        proof {
            assert(next.drop_last() == seen);
            assert(next.last() == token@);
            assert forall|word: Seq<char>|
                occurrences(next, word) == occurrences(seen, word) + if token@ == word {
                    1nat
                } else {
                    0nat
                } by {}
        }
        match find_word(&index, &entries, token) {
            Some(j) => {
                proof {
                    lemma_occurrences_bounded(seen, token@);
                }
                let updated = KeywordCount {
                    word: entries[j].word.clone(),
                    count: entries[j].count + 1,
                };
                entries.set(j, updated);
                proof {
                    lemma_count_sum_update(before, j as int, updated);
                    assert(keyword_words(before)[j as int] == token@);
                    assert(keyword_words(entries@) =~= keyword_words(before));
                    assert forall|k: int| 0 <= k < entries@.len() implies (#[trigger] entries@[k]).word@
                        == before[k].word@ by {}
                    assert forall|word: Seq<char>| #[trigger]
                        occurrences(next, word) > 0 implies exists|k: int|
                        0 <= k < entries@.len() && (#[trigger] entries@[k]).word@ == word by {
                        if word == token@ {
                            assert(entries@[j as int].word@ == word);
                        } else {
                            assert(occurrences(seen, word) > 0);
                            let k = choose|k: int|
                                0 <= k < before.len() && (#[trigger] before[k]).word@ == word;
                            assert(entries@[k].word@ == word);
                        }
                    }
                    assert forall|k: int| 0 <= k < entries@.len() implies (#[trigger] entries@[k]).count
                        > 0 && entries@[k].count == occurrences(next, entries@[k].word@) by {
                        if k != j {
                            assert(entries@[k] == before[k]);
                            if k < j {
                                assert(before[k].word@ != before[j as int].word@);
                            } else {
                                assert(before[j as int].word@ != before[k].word@);
                            }
                        }
                    }
                }
            },
            None => {
                let added = KeywordCount { word: token.clone(), count: 1 };
                let ghost places = index@;
                index.insert(token.clone(), entries.len());
                entries.push(added);
                proof {
                    assert(entries@.drop_last() == before);
                    assert forall|k: int| 0 <= k < entries@.len() implies index@.contains_key(
                        (#[trigger] entries@[k]).word@,
                    ) && index@[entries@[k].word@] == k by {
                        if k < before.len() {
                            assert(entries@[k] == before[k]);
                        }
                    }
                    assert forall|word: Seq<char>| #[trigger]
                        index@.contains_key(word) implies index@[word] < entries@.len()
                        && entries@[index@[word] as int].word@ == word by {
                        if word != token@ {
                            assert(places.contains_key(word));
                            assert(entries@[places[word] as int] == before[places[word] as int]);
                        }
                    }
                    if keyword_words(before).contains(token@) {
                        let k = choose|k: int|
                            0 <= k < keyword_words(before).len() && keyword_words(before)[k]
                                == token@;
                        assert(before[k].word@ == token@);
                    }
                    assert(keyword_words(entries@) =~= keyword_words(before).push(token@));
                    if occurrences(seen, token@) > 0 {
                        let k = choose|k: int|
                            0 <= k < before.len() && (#[trigger] before[k]).word@ == token@;
                        assert(false);
                    }
                    assert forall|word: Seq<char>| #[trigger]
                        occurrences(next, word) > 0 implies exists|k: int|
                        0 <= k < entries@.len() && (#[trigger] entries@[k]).word@ == word by {
                        if word == token@ {
                            assert(entries@[before.len() as int].word@ == word);
                        } else {
                            assert(occurrences(seen, word) > 0);
                            let k = choose|k: int|
                                0 <= k < before.len() && (#[trigger] before[k]).word@ == word;
                            assert(entries@[k].word@ == word);
                        }
                    }
                    assert forall|k: int| 0 <= k < entries@.len() implies (#[trigger] entries@[k]).count
                        > 0 && entries@[k].count == occurrences(next, entries@[k].word@) by {
                        if k < before.len() {
                            assert(entries@[k] == before[k]);
                        }
                    }
                    assert forall|a: int, b: int| 0 <= a < b < entries@.len() implies (
                    #[trigger] entries@[a]).word@ != (#[trigger] entries@[b]).word@ by {
                        assert(entries@[a] == before[a]);
                        if b < before.len() {
                            assert(entries@[b] == before[b]);
                        }
                    }
                }
            },
        }
        i = i + 1;
    }
    assert(all.take(tokens.len() as int) == all);
    entries
}

/// Closes the word in progress: it is counted if it has more than three
/// characters.
fn close_word(current: &String, length: usize, tokens: &mut Vec<String>, Ghost(done): Ghost<
    Seq<Seq<char>>,
>)
    requires
        length == current@.len(),
        string_views(old(tokens)@) == counted(done),
    ensures
        string_views(final(tokens)@) == counted(done.push(current@)),
{
    let ghost closed = done.push(current@);
    assert(closed.drop_last() == done);
    if length > 3 {
        let lower = current.as_str().to_lowercase();
        tokens.push(lower);
        assert(string_views(tokens@) =~= counted(done).push(lowercase_of(current@)));
    }
}

/// The counted words of a page, in the order in which they occur.
pub fn split_keywords(html: &str) -> (tokens: Vec<String>)
    ensures
        string_views(tokens@) == keyword_tokens(html@),
{
    let mut tokens: Vec<String> = Vec::new();
    let mut current = String::new();
    let mut length: usize = 0;
    let ghost mut done: Seq<Seq<char>> = Seq::empty();
    let bound: usize = html.unicode_len();
    assert(string_views(tokens@) =~= counted(done));
    for c in it: html.chars()
        invariant
            it.seq() == html@,
            bound == html@.len(),
            length == current@.len(),
            length <= it.index(),
            string_views(tokens@) == counted(done),
            ({
                let kept = kept_chars(html@.take(it.index() as int));
                if current@.len() > 0 {
                    words(kept) == done.push(current@) && kept.len() > 0 && !is_whitespace_char(
                        kept.last(),
                    )
                } else {
                    words(kept) == done && (kept.len() == 0 || is_whitespace_char(kept.last()))
                }
            }),
    {
        let ghost seen = html@.take(it.index() as int);
        let ghost next = html@.take(it.index() + 1);
        let ghost kept = kept_chars(seen);
        proof {
            assert(next.drop_last() == seen);
            assert(next.last() == c);
        }
        if c.is_whitespace() {
            proof {
                assert(kept_chars(next) == kept.push(c));
                assert(kept.push(c).drop_last() == kept);
                assert(words(kept.push(c)) == words(kept));
            }
            if length > 0 {
                close_word(&current, length, &mut tokens, Ghost(done));
                proof {
                    done = done.push(current@);
                }
                current = String::new();
                length = 0;
            }
        } else if c.is_alphanumeric() {
            proof {
                let grown = kept.push(c);
                assert(kept_chars(next) == grown);
                assert(grown.drop_last() == kept);
                assert(grown.last() == c);
                if current@.len() > 0 {
                    assert(grown[grown.len() - 2] == kept.last());
                    assert(done.push(current@).drop_last() == done);
                    assert(done.push(current@).last() == current@);
                    assert(words(grown) == done.push(current@.push(c)));
                } else {
                    if kept.len() > 0 {
                        assert(grown[grown.len() - 2] == kept.last());
                    }
                    assert(Seq::<char>::empty().push(c) =~= seq![c]);
                    assert(current@ =~= Seq::<char>::empty());
                    assert(words(grown) == done.push(seq![c]));
                }
            }
            current.push(c);
            length = length + 1;
        } else {
            proof {
                assert(kept_chars(next) == kept);
            }
        }
    }
    proof {
        assert(html@.take(html@.len() as int) == html@);
    }
    if length > 0 {
        close_word(&current, length, &mut tokens, Ghost(done));
    }
    tokens
}

/// Each distinct counted word of a page with the number of times it occurs,
/// and the number of counted words.
pub fn count_keywords(html: &str) -> (result: (Vec<KeywordCount>, usize))
    ensures
        is_tally_of(result.0@, keyword_tokens(html@)),
        keyword_words(result.0@) == first_seen(keyword_tokens(html@)),
        count_sum(result.0@) == result.1,
        result.1 == keyword_tokens(html@).len(),
{
    let tokens = split_keywords(html);
    let entries = tally(&tokens);
    (entries, tokens.len())
}

} // verus!
