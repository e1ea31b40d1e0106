//! Small helpers on text: the characters of a string, decimal numbers, and
//! words between white space.

use vstd::prelude::*;

verus! {

/// The characters of `s`, in order.
pub fn chars_of(s: &str) -> (v: Vec<char>)
    ensures
        v@ == s@,
{
    let mut v: Vec<char> = Vec::new();
    for c in it: s.chars()
        invariant
            it.seq() == s@,
            v@ == s@.take(it.index() as int),
    {
        v.push(c);
        assert(v@ =~= s@.take(it.index() as int + 1));
    }
    assert(v@ =~= s@);
    v
}

/// The character for a decimal digit.
pub open spec fn digit_char(d: nat) -> char
    recommends
        d < 10,
{
    if d == 0 {
        '0'
    } else if d == 1 {
        '1'
    } else if d == 2 {
        '2'
    } else if d == 3 {
        '3'
    } else if d == 4 {
        '4'
    } else if d == 5 {
        '5'
    } else if d == 6 {
        '6'
    } else if d == 7 {
        '7'
    } else if d == 8 {
        '8'
    } else {
        '9'
    }
}

/// The decimal digits of `n`, without leading zeros.
pub open spec fn decimal(n: nat) -> Seq<char>
    decreases n,
{
    if n < 10 {
        seq![digit_char(n)]
    } else {
        decimal(n / 10).push(digit_char(n % 10))
    }
}

/// One decimal digit as text.
fn digit_text(d: u32) -> (r: &'static str)
    requires
        d < 10,
    ensures
        r@ == seq![digit_char(d as nat)],
{
    proof {
        reveal_strlit("0");
        reveal_strlit("1");
        reveal_strlit("2");
        reveal_strlit("3");
        reveal_strlit("4");
        reveal_strlit("5");
        reveal_strlit("6");
        reveal_strlit("7");
        reveal_strlit("8");
        reveal_strlit("9");
    }
    let r = if d == 0 {
        "0"
    } else if d == 1 {
        "1"
    } else if d == 2 {
        "2"
    } else if d == 3 {
        "3"
    } else if d == 4 {
        "4"
    } else if d == 5 {
        "5"
    } else if d == 6 {
        "6"
    } else if d == 7 {
        "7"
    } else if d == 8 {
        "8"
    } else {
        "9"
    };
    assert(r@ =~= seq![digit_char(d as nat)]);
    r
}

/// Writes `n` in decimal.
pub fn decimal_text(n: u32) -> (r: String)
    ensures
        r@ == decimal(n as nat),
    decreases n,
{
    if n < 10 {
        String::from_str(digit_text(n))
    } else {
        let mut out = decimal_text(n / 10);
        out.append(digit_text(n % 10));
        assert(out@ =~= decimal(n as nat));
        out
    }
}

/// Whether `c` is one of the digits `0` to `9`.
pub open spec fn is_digit(c: char) -> bool {
    '0' <= c <= '9'
}

/// The number that the digit `c` stands for.
pub open spec fn digit_value(c: char) -> nat {
    (c as u32 - '0' as u32) as nat
}

/// The length of the longest run of digits at the start of `s`.
pub open spec fn digit_run(s: Seq<char>) -> nat
    decreases s.len(),
{
    if s.len() > 0 && is_digit(s[0]) {
        1 + digit_run(s.skip(1))
    } else {
        0
    }
}

/// The number that a sequence of digits stands for, read in decimal.
pub open spec fn digits_value(s: Seq<char>) -> nat
    decreases s.len(),
{
    if s.len() == 0 {
        0
    } else {
        digits_value(s.drop_last()) * 10 + digit_value(s.last())
    }
}

/// Whether `c` is one of the digits `0` to `9`.
pub fn char_is_digit(c: char) -> (r: bool)
    ensures
        r == is_digit(c),
{
    '0' <= c && c <= '9'
}

/// A run of digits is as long as the digits at its start are many.
pub proof fn lemma_digit_run(s: Seq<char>, n: nat)
    requires
        n <= s.len(),
        forall|i: int| 0 <= i < n ==> is_digit(#[trigger] s[i]),
        n == s.len() || !is_digit(s[n as int]),
    ensures
        digit_run(s) == n,
    decreases n,
{
    if n > 0 {
        let rest = s.skip(1);
        assert forall|i: int| 0 <= i < n - 1 implies is_digit(#[trigger] rest[i]) by {
            assert(rest[i] == s[i + 1]);
        }
        if n < s.len() {
            assert(rest[n - 1] == s[n as int]);
        }
        lemma_digit_run(rest, (n - 1) as nat);
    }
}

/// The first `digit_run` characters are digits, and the next one is not.
pub proof fn lemma_digit_run_is_digits(s: Seq<char>)
    ensures
        digit_run(s) <= s.len(),
        forall|i: int| 0 <= i < digit_run(s) ==> is_digit(#[trigger] s[i]),
        digit_run(s) == s.len() || !is_digit(s[digit_run(s) as int]),
    decreases s.len(),
{
    if s.len() > 0 && is_digit(s[0]) {
        let rest = s.skip(1);
        lemma_digit_run_is_digits(rest);
        assert forall|i: int| 0 <= i < digit_run(s) implies is_digit(#[trigger] s[i]) by {
            if i > 0 {
                assert(rest[i - 1] == s[i]);
            }
        }
        if digit_run(s) < s.len() {
            assert(rest[digit_run(rest) as int] == s[digit_run(s) as int]);
        }
    }
}

/// The end of the run of digits that starts at `from`.
pub fn scan_digits(chars: &Vec<char>, from: usize) -> (end: usize)
    requires
        from <= chars.len(),
    ensures
        from <= end <= chars.len(),
        end - from == digit_run(chars@.skip(from as int)),
{
    let mut end = from;
    while end < chars.len() && char_is_digit(chars[end])
        invariant
            from <= end <= chars.len(),
            forall|i: int| from <= i < end ==> is_digit(#[trigger] chars@[i]),
        decreases chars.len() - end,
    {
        end += 1;
    }
    proof {
        let rest = chars@.skip(from as int);
        assert forall|i: int| 0 <= i < end - from implies is_digit(#[trigger] rest[i]) by {
            assert(rest[i] == chars@[from + i]);
        }
        lemma_digit_run(rest, (end - from) as nat);
    }
    end
}

/// Whether `c` is ASCII white space: a space, a tab, a line feed, a form
/// feed or a carriage return.
pub open spec fn is_space(c: char) -> bool {
    c == ' ' || c == '\t' || c == '\n' || c == '\u{c}' || c == '\r'
}

/// Whether `c` is ASCII white space.
pub fn char_is_space(c: char) -> (r: bool)
    ensures
        r == is_space(c),
{
    c == ' ' || c == '\t' || c == '\n' || c == '\u{c}' || c == '\r'
}

/// Whether the characters of `s` from `start` to `end` are a word: a
/// longest run of characters that are no white space.
pub open spec fn word_at(s: Seq<char>, start: int, end: int) -> bool {
    &&& 0 <= start < end <= s.len()
    &&& start == 0 || is_space(s[start - 1])
    &&& end == s.len() || is_space(s[end])
    &&& forall|k: int| start <= k < end ==> !is_space(#[trigger] s[k])
}

/// Whether `word` is one of the words of `s`.
pub open spec fn has_word(s: Seq<char>, word: Seq<char>) -> bool {
    exists|start: int, end: int| #[trigger] word_at(s, start, end) && s.subrange(start, end) == word
}

/// Whether the characters of `s` from `start` to `end` are those of `word`.
fn range_equals(s: &Vec<char>, start: usize, end: usize, word: &Vec<char>) -> (r: bool)
    requires
        start <= end <= s.len(),
    ensures
        r == (s@.subrange(start as int, end as int) == word@),
{
    if end - start != word.len() {
        return false;
    }
    let mut k: usize = 0;
    while k < word.len()
        invariant
            start <= end <= s.len(),
            end - start == word.len(),
            0 <= k <= word.len(),
            forall|j: int| 0 <= j < k ==> s@[start + j] == word@[j],
        decreases word.len() - k,
    {
        if s[start + k] != word[k] {
            assert(s@.subrange(start as int, end as int)[k as int] != word@[k as int]);
            return false;
        }
        k += 1;
    }
    assert(s@.subrange(start as int, end as int) =~= word@);
    true
}

/// Whether `word` is one of the words of `s`, the words being what stands
/// between white space.
pub fn contains_word(s: &Vec<char>, word: &Vec<char>) -> (r: bool)
    ensures
        r == has_word(s@, word@),
{
    let mut i: usize = 0;
    while i < s.len()
        invariant
            0 <= i <= s.len(),
            i == 0 || i == s.len() || is_space(s@[i - 1]) || is_space(s@[i as int]),
            forall|start: int, end: int|
                #[trigger] word_at(s@, start, end) && start < i ==> s@.subrange(start, end)
                    != word@,
        decreases s.len() - i,
    {
        if char_is_space(s[i]) {
            assert forall|start: int, end: int| #[trigger]
                word_at(s@, start, end) && start < i + 1 implies s@.subrange(start, end)
                != word@ by {
                if start == i {
                    assert(!is_space(s@[start]));
                }
            }
            i += 1;
        } else {
            let start = i;
            let mut end = i + 1;
            while end < s.len() && !char_is_space(s[end])
                invariant
                    start < end <= s.len(),
                    forall|k: int| start <= k < end ==> !is_space(#[trigger] s@[k]),
                decreases s.len() - end,
            {
                end += 1;
            }
            assert(word_at(s@, start as int, end as int));
            if range_equals(s, start, end, word) {
                return true;
            }
            assert forall|a: int, b: int| #[trigger] word_at(s@, a, b) && a < end implies s@.subrange(
                a,
                b,
            ) != word@ by {
                if a >= start {
                    if a > start {
                        assert(!is_space(s@[a - 1]));
                    }
                    if b < end {
                        assert(!is_space(s@[b]));
                    }
                    if b > end {
                        assert(!is_space(s@[end as int]));
                    }
                }
            }
            i = end;
        }
    }
    assert forall|a: int, b: int| #[trigger] word_at(s@, a, b) implies s@.subrange(a, b)
        != word@ by {}
    false
}

} // verus!
