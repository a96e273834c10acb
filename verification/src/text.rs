//! Small string utilities shared by the analysis: trimming of ASCII
//! whitespace, decimal rendering of counts and character lengths.

use vstd::prelude::*;

verus! {

/// The five ASCII whitespace characters: space, tab, line feed, form feed and
/// carriage return.
pub open spec fn is_ascii_space(c: char) -> bool {
    c == ' ' || c == '\t' || c == '\n' || c == '\u{0C}' || c == '\r'
}

/// `s` without its leading ASCII whitespace.
pub open spec fn trim_start(s: Seq<char>) -> Seq<char>
    decreases s.len(),
{
    if s.len() > 0 && is_ascii_space(s[0]) {
        trim_start(s.drop_first())
    } else {
        s
    }
}

/// `s` without its trailing ASCII whitespace.
pub open spec fn trim_end(s: Seq<char>) -> Seq<char>
    decreases s.len(),
{
    if s.len() > 0 && is_ascii_space(s.last()) {
        trim_end(s.drop_last())
    } else {
        s
    }
}

/// `s` without leading and trailing ASCII whitespace.
pub open spec fn trimmed(s: Seq<char>) -> Seq<char> {
    trim_end(trim_start(s))
}

/// If the first `k` characters of `s` are whitespace, trimming the start of
/// `s` is trimming the start of what follows them.
pub proof fn lemma_trim_start_skips(s: Seq<char>, k: int)
    requires
        0 <= k <= s.len(),
        forall|i: int| 0 <= i < k ==> is_ascii_space(#[trigger] s[i]),
    ensures
        trim_start(s) == trim_start(s.subrange(k, s.len() as int)),
    decreases k,
{
    if k == 0 {
        assert(s.subrange(0, s.len() as int) == s);
    } else {
        let t = s.drop_first();
        assert(is_ascii_space(s[0]));
        assert forall|i: int| 0 <= i < k - 1 implies is_ascii_space(#[trigger] t[i]) by {
            assert(t[i] == s[i + 1]);
        }
        lemma_trim_start_skips(t, k - 1);
        assert(t.subrange(k - 1, t.len() as int) == s.subrange(k, s.len() as int));
    }
}

/// If everything in `s` from index `k` on is whitespace, trimming the end of
/// `s` is trimming the end of its first `k` characters.
pub proof fn lemma_trim_end_skips(s: Seq<char>, k: int)
    requires
        0 <= k <= s.len(),
        forall|i: int| k <= i < s.len() ==> is_ascii_space(#[trigger] s[i]),
    ensures
        trim_end(s) == trim_end(s.subrange(0, k)),
    decreases s.len() - k,
{
    if k == s.len() {
        assert(s.subrange(0, k) == s);
    } else {
        let t = s.drop_last();
        assert(is_ascii_space(s[s.len() - 1]));
        assert forall|i: int| k <= i < t.len() implies is_ascii_space(#[trigger] t[i]) by {
            assert(t[i] == s[i]);
        }
        lemma_trim_end_skips(t, k);
        assert(t.subrange(0, k) == s.subrange(0, k));
    }
}

/// Whether `c` is one of the five ASCII whitespace characters.
pub fn char_is_ascii_space(c: char) -> (b: bool)
    ensures
        b == is_ascii_space(c),
{
    c == ' ' || c == '\t' || c == '\n' || c == '\u{0C}' || c == '\r'
}

/// A copy of `s` without leading and trailing ASCII whitespace.
pub fn trim_ascii(s: &str) -> (out: String)
    ensures
        out@ == trimmed(s@),
{
    // `start`: index of the first character that is no whitespace;
    // `end`: one past the last such character.
    let mut start: usize = 0;
    let mut end: usize = 0;
    let mut seen: bool = false;
    let mut i: usize = 0;
    let n: usize = s.unicode_len();
    for c in it: s.chars()
        invariant
            it.seq() == s@,
            n == s@.len(),
            i == it.index(),
            !seen ==> start == 0 && end == 0,
            !seen ==> forall|j: int| 0 <= j < i ==> is_ascii_space(#[trigger] s@[j]),
            seen ==> start < end <= i,
            seen ==> !is_ascii_space(s@[start as int]),
            seen ==> !is_ascii_space(s@[end - 1]),
            seen ==> forall|j: int| 0 <= j < start ==> is_ascii_space(#[trigger] s@[j]),
            seen ==> forall|j: int| end <= j < i ==> is_ascii_space(#[trigger] s@[j]),
    {
        if !char_is_ascii_space(c) {
            if !seen {
                start = i;
                seen = true;
            }
            end = i + 1;
        }
        i = i + 1;
    }
    proof {
        let full = s@;
        if seen {
            let tail = full.subrange(start as int, full.len() as int);
            lemma_trim_start_skips(full, start as int);
            assert(tail[0] == full[start as int]);
            assert(trim_start(tail) == tail);
            assert forall|j: int| end - start <= j < tail.len() implies is_ascii_space(
                #[trigger] tail[j],
            ) by {
                assert(tail[j] == full[j + start]);
            }
            lemma_trim_end_skips(tail, end - start);
            let core = tail.subrange(0, end - start);
            assert(core == full.subrange(start as int, end as int));
            assert(core.last() == full[end - 1]);
            assert(trim_end(core) == core);
        } else {
            lemma_trim_start_skips(full, full.len() as int);
            assert(full.subrange(full.len() as int, full.len() as int) == Seq::<char>::empty());
            assert(trim_start(Seq::<char>::empty()) == Seq::<char>::empty());
            assert(trim_end(Seq::<char>::empty()) == Seq::<char>::empty());
        }
    }
    let piece = s.substring_char(start, end);
    String::from_str(piece)
}

/// The character that writes the digit `d`.
pub open spec fn digit_char(d: nat) -> char {
    if d == 0 {
        '0'
    } else if d == 1 {
        '1'
    } else if d == 2 {
        '2'
    } else if d == 3 {
        '3'
    } else if d == 4 {
        '4'
    } else if d == 5 {
        '5'
    } else if d == 6 {
        '6'
    } else if d == 7 {
        '7'
    } else if d == 8 {
        '8'
    } else {
        '9'
    }
}

/// `n` written in base ten, without sign or leading zeros.
pub open spec fn decimal(n: nat) -> Seq<char>
    decreases n,
{
    if n < 10 {
        seq![digit_char(n)]
    } else {
        decimal(n / 10).push(digit_char(n % 10))
    }
}

fn digit_str(d: usize) -> (s: &'static str)
    requires
        d < 10,
    ensures
        s@ == seq![digit_char(d as nat)],
{
    proof {
        reveal_strlit("0");
        reveal_strlit("1");
        reveal_strlit("2");
        reveal_strlit("3");
        reveal_strlit("4");
        reveal_strlit("5");
        reveal_strlit("6");
        reveal_strlit("7");
        reveal_strlit("8");
        reveal_strlit("9");
    }
    let s = if d == 0 {
        "0"
    } else if d == 1 {
        "1"
    } else if d == 2 {
        "2"
    } else if d == 3 {
        "3"
    } else if d == 4 {
        "4"
    } else if d == 5 {
        "5"
    } else if d == 6 {
        "6"
    } else if d == 7 {
        "7"
    } else if d == 8 {
        "8"
    } else {
        "9"
    };
    assert(s@ =~= seq![digit_char(d as nat)]);
    s
}

/// `n` written in base ten.
pub fn decimal_string(n: usize) -> (out: String)
    ensures
        out@ == decimal(n as nat),
    decreases n,
{
    if n < 10 {
        String::from_str(digit_str(n))
    } else {
        let mut out = decimal_string(n / 10);
        out.append(digit_str(n % 10));
        assert(out@ =~= decimal((n / 10) as nat).push(digit_char((n % 10) as nat)));
        out
    }
}

/// The number of characters of `s`.
pub fn char_count(s: &String) -> (n: usize)
    ensures
        n == s@.len(),
{
    s.as_str().unicode_len()
}

/// Whether an occurrence of `pattern` in `s` ends just before position `end`.
pub open spec fn ends_at(s: Seq<char>, pattern: Seq<char>, end: int) -> bool {
    pattern.len() <= end <= s.len() && s.subrange(end - pattern.len(), end) == pattern
}

/// The number of occurrences of `pattern` in `s` that end at or before
/// position `end`.
pub open spec fn occurrences_upto(s: Seq<char>, pattern: Seq<char>, end: int) -> nat
    decreases end,
{
    if end <= 0 {
        0
    } else {
        occurrences_upto(s, pattern, end - 1) + if ends_at(s, pattern, end) {
            1nat
        } else {
            0nat
        }
    }
}

/// The number of occurrences of `pattern` in `s`, overlapping ones included.
pub open spec fn occurrences_in(s: Seq<char>, pattern: Seq<char>) -> nat {
    occurrences_upto(s, pattern, s.len() as int)
}

/// The occurrences that end within the first part of a text are those of the
/// first part.
pub proof fn lemma_occurrences_of_prefix(a: Seq<char>, b: Seq<char>, pattern: Seq<char>, end: int)
    requires
        end <= a.len(),
    ensures
        occurrences_upto(a + b, pattern, end) == occurrences_upto(a, pattern, end),
    decreases end,
{
    if end > 0 {
        lemma_occurrences_of_prefix(a, b, pattern, end - 1);
        if pattern.len() <= end {
            assert((a + b).subrange(end - pattern.len(), end) == a.subrange(
                end - pattern.len(),
                end,
            ));
        }
    }
}

/// Where no occurrence ends after `from` and up to `to`, the count up to
/// `to` is the count up to `from`.
pub proof fn lemma_no_occurrence_between(s: Seq<char>, pattern: Seq<char>, from: int, to: int)
    requires
        0 <= from <= to,
        forall|end: int| from < end <= to ==> !ends_at(s, pattern, end),
    ensures
        occurrences_upto(s, pattern, to) == occurrences_upto(s, pattern, from),
    decreases to - from,
{
    if from < to {
        lemma_no_occurrence_between(s, pattern, from, to - 1);
    }
}

/// Appending a piece within which no occurrence ends adds no occurrence.
pub proof fn lemma_append_adds_none(a: Seq<char>, b: Seq<char>, pattern: Seq<char>)
    requires
        forall|end: int| a.len() < end <= a.len() + b.len() ==> !ends_at(a + b, pattern, end),
    ensures
        occurrences_in(a + b, pattern) == occurrences_in(a, pattern),
{
    lemma_no_occurrence_between(a + b, pattern, a.len() as int, (a + b).len() as int);
    lemma_occurrences_of_prefix(a, b, pattern, a.len() as int);
}

/// Appending a piece within which one occurrence ends, at the end of the
/// piece, adds one occurrence.
pub proof fn lemma_append_adds_one(a: Seq<char>, b: Seq<char>, pattern: Seq<char>)
    requires
        b.len() > 0,
        ends_at(a + b, pattern, (a.len() + b.len()) as int),
        forall|end: int| a.len() < end < a.len() + b.len() ==> !ends_at(a + b, pattern, end),
    ensures
        occurrences_in(a + b, pattern) == occurrences_in(a, pattern) + 1,
{
    lemma_no_occurrence_between(a + b, pattern, a.len() as int, (a + b).len() - 1);
    lemma_occurrences_of_prefix(a, b, pattern, a.len() as int);
}

} // verus!
