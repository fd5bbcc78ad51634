//! Character-level helpers on strings.

use vstd::prelude::*;
use vstd::string::{StrSliceExecFns, StringExecFns};

verus! {

broadcast use vstd::string::group_string_axioms;

/// Copies the characters of `s` into a vector.
pub fn to_chars(s: &str) -> (chars: Vec<char>)
    ensures
        chars@ == s@,
{
    let mut chars: Vec<char> = Vec::new();
    for c in it: s.chars()
        invariant
            chars@ == s@.take(it.index()),
            it.seq() == s@,
    {
        chars.push(c);
    }
    chars
}

/// Whether two strings hold the same characters.
pub fn str_equal(a: &str, b: &str) -> (same: bool)
    ensures
        same == (a@ == b@),
{
    let x = to_chars(a);
    let y = to_chars(b);
    if x.len() != y.len() {
        return false;
    }
    let mut i: usize = 0;
    while i < x.len()
        invariant
            x@ == a@,
            y@ == b@,
            x.len() == y.len(),
            i <= x.len(),
            x@.take(i as int) == y@.take(i as int),
        decreases x.len() - i,
    {
        if x[i] != y[i] {
            assert(a@[i as int] != b@[i as int]);
            return false;
        }
        assert(x@.take(i + 1) == x@.take(i as int).push(x@[i as int]));
        assert(y@.take(i + 1) == y@.take(i as int).push(y@[i as int]));
        i += 1;
    }
    assert(x@.take(x.len() as int) == x@);
    assert(y@.take(y.len() as int) == y@);
    true
}

/// How one value stands to another in a total order.
#[derive(Clone, Copy, Debug, PartialEq, Eq, Structural)]
pub enum Rank {
    Before,
    Same,
    After,
}

/// Strict lexicographic order on character sequences, by code point: `a` comes
/// before `b` when, at the first place where they part, `a` has ended or holds
/// the smaller character.
pub open spec fn lex_less(a: Seq<char>, b: Seq<char>) -> bool {
    exists|k: int| parts_at(a, b, k)
}

/// `a` and `b` agree on their first `k` characters, and there `a` ends or holds
/// the smaller character while `b` goes on.
pub open spec fn parts_at(a: Seq<char>, b: Seq<char>, k: int) -> bool {
    &&& 0 <= k <= a.len()
    &&& k < b.len()
    &&& a.take(k) == b.take(k)
    &&& (k < a.len() ==> a[k] < b[k])
}

/// The rank of `a` relative to `b` in lexicographic order.
pub open spec fn lex_rank(a: Seq<char>, b: Seq<char>) -> Rank {
    if a == b {
        Rank::Same
    } else if lex_less(a, b) {
        Rank::Before
    } else {
        Rank::After
    }
}

/// No sequence comes before itself, and of two sequences at most one comes
/// before the other.
pub proof fn lemma_lex_less_asymmetric(a: Seq<char>, b: Seq<char>)
    requires
        lex_less(a, b),
    ensures
        a != b,
        !lex_less(b, a),
{
    let k = choose|k: int| parts_at(a, b, k);
    if a == b {
        assert(k < a.len());
    }
    if lex_less(b, a) {
        let j = choose|j: int| parts_at(b, a, j);
        if j < k {
            assert(a.take(k)[j] == b.take(k)[j]);
        } else if k < j {
            assert(b.take(j)[k] == a.take(j)[k]);
        }
    }
}

/// Lexicographic order is transitive.
pub proof fn lemma_lex_less_transitive(a: Seq<char>, b: Seq<char>, c: Seq<char>)
    requires
        lex_less(a, b),
        lex_less(b, c),
    ensures
        lex_less(a, c),
{
    let i = choose|i: int| parts_at(a, b, i);
    let j = choose|j: int| parts_at(b, c, j);
    let k = if i <= j { i } else { j };
    assert(a.take(k) =~= a.take(i).take(k));
    assert(b.take(k) =~= b.take(i).take(k));
    assert(b.take(k) =~= b.take(j).take(k));
    assert(c.take(k) =~= c.take(j).take(k));
    if i < j {
        assert(b.take(j)[i] == c.take(j)[i]);
    } else if j < i {
        assert(a.take(i)[j] == b.take(i)[j]);
    }
    assert(parts_at(a, c, k));
}

/// Compares two strings in lexicographic order of their characters.
pub fn compare(a: &str, b: &str) -> (rank: Rank)
    ensures
        rank == lex_rank(a@, b@),
        rank == Rank::After ==> lex_less(b@, a@),
{
    let x = to_chars(a);
    let y = to_chars(b);
    let mut i: usize = 0;
    while i < x.len() && i < y.len()
        invariant
            x@ == a@,
            y@ == b@,
            i <= x.len(),
            i <= y.len(),
            x@.take(i as int) == y@.take(i as int),
        decreases x.len() - i,
    {
        let p = x[i];
        let q = y[i];
        if p != q {
            if p < q {
                assert(parts_at(a@, b@, i as int));
                proof {
                    lemma_lex_less_asymmetric(a@, b@);
                }
                return Rank::Before;
            } else {
                assert(parts_at(b@, a@, i as int));
                proof {
                    lemma_lex_less_asymmetric(b@, a@);
                }
                return Rank::After;
            }
        }
        assert(x@.take(i + 1) == x@.take(i as int).push(x@[i as int]));
        assert(y@.take(i + 1) == y@.take(i as int).push(y@[i as int]));
        i += 1;
    }
    if i < y.len() {
        assert(x@.take(i as int) == x@);
        assert(parts_at(a@, b@, i as int));
        proof {
            lemma_lex_less_asymmetric(a@, b@);
        }
        Rank::Before
    } else if i < x.len() {
        assert(y@.take(i as int) == y@);
        assert(parts_at(b@, a@, i as int));
        proof {
            lemma_lex_less_asymmetric(b@, a@);
        }
        Rank::After
    } else {
        assert(x@.take(i as int) == x@);
        assert(y@.take(i as int) == y@);
        Rank::Same
    }
}

/// The character that stands for the decimal digit `d`.
pub open spec fn digit_char(d: nat) -> char
    recommends
        d < 10,
{
    (('0' as u32) + d) as char
}

/// The decimal numeral of `n`, without sign or leading zeros.
pub open spec fn decimal(n: nat) -> Seq<char>
    decreases n,
{
    if n < 10 {
        seq![digit_char(n)]
    } else {
        decimal(n / 10).push(digit_char(n % 10))
    }
}

/// The one-character string of a decimal digit.
fn digit_str(d: u32) -> (s: &'static str)
    requires
        d < 10,
    ensures
        s@ == seq![digit_char(d as nat)],
{
    proof {
        reveal_strlit("0");
        reveal_strlit("1");
        reveal_strlit("2");
        reveal_strlit("3");
        reveal_strlit("4");
        reveal_strlit("5");
        reveal_strlit("6");
        reveal_strlit("7");
        reveal_strlit("8");
        reveal_strlit("9");
    }
    let s = match d {
        0 => "0",
        1 => "1",
        2 => "2",
        3 => "3",
        4 => "4",
        5 => "5",
        6 => "6",
        7 => "7",
        8 => "8",
        _ => "9",
    };
    assert(s@ =~= seq![digit_char(d as nat)]);
    s
}

/// Writes `n` as a decimal numeral.
pub fn decimal_string(n: u32) -> (s: String)
    ensures
        s@ == decimal(n as nat),
    decreases n,
{
    if n < 10 {
        digit_str(n).to_owned()
    } else {
        let mut s = decimal_string(n / 10);
        s.append(digit_str(n % 10));
        s
    }
}

/// The place of the first `c` in `s`, or the length of `s` where it holds none.
pub open spec fn first_index(s: Seq<char>, c: char) -> int
    decreases s.len(),
{
    if s.len() == 0 {
        0
    } else if s[0] == c {
        0
    } else {
        1 + first_index(s.drop_first(), c)
    }
}

/// What stands in `s` before the first `c`: all of `s` where it holds none.
pub open spec fn before_first(s: Seq<char>, c: char) -> Seq<char> {
    s.take(first_index(s, c))
}

/// What stands in `s` after the first `c`: nothing where it holds none.
pub open spec fn after_first(s: Seq<char>, c: char) -> Seq<char> {
    if s.contains(c) {
        s.skip(first_index(s, c) + 1)
    } else {
        Seq::empty()
    }
}

/// The first `c` of `s` stands at `i` when no earlier place holds `c` and
/// place `i` does, or `s` ends there.
pub proof fn lemma_first_index(s: Seq<char>, c: char, i: int)
    requires
        0 <= i <= s.len(),
        forall|j: int| 0 <= j < i ==> s[j] != c,
        i < s.len() ==> s[i] == c,
    ensures
        first_index(s, c) == i,
        s.contains(c) == (i < s.len()),
    decreases i,
{
    if i > 0 {
        let rest = s.drop_first();
        assert forall|j: int| 0 <= j < i - 1 implies rest[j] != c by {
            assert(rest[j] == s[j + 1]);
        }
        lemma_first_index(rest, c, i - 1);
    }
    if i < s.len() {
        assert(s.contains(c));
    } else {
        assert(!s.contains(c));
    }
}

/// The place of the first `c` in `chars` at or after `from`, or the length.
pub fn find_from(chars: &Vec<char>, from: usize, c: char) -> (at: usize)
    requires
        from <= chars.len(),
    ensures
        from <= at <= chars.len(),
        at == from + first_index(chars@.skip(from as int), c),
        forall|j: int| from <= j < at ==> chars[j] != c,
        at < chars.len() ==> chars[at as int] == c,
{
    let mut i: usize = from;
    while i < chars.len() && chars[i] != c
        invariant
            from <= i <= chars.len(),
            forall|j: int| from <= j < i ==> chars[j] != c,
        decreases chars.len() - i,
    {
        i += 1;
    }
    proof {
        let rest = chars@.skip(from as int);
        assert forall|j: int| 0 <= j < i - from implies rest[j] != c by {
            assert(rest[j] == chars[from + j]);
        }
        lemma_first_index(rest, c, i - from);
    }
    i
}

/// Parts `s` at its first `c`: what stands before it, and what stands after
/// it where `s` holds one.
pub fn split_first(s: &str, c: char) -> (parts: (String, Option<String>))
    ensures
        parts.0@ == before_first(s@, c),
        parts.1 is Some == s@.contains(c),
        parts.1 matches Some(rest) ==> rest@ == after_first(s@, c),
{
    let chars = to_chars(s);
    let at = find_from(&chars, 0, c);
    assert(chars@.skip(0) =~= chars@);
    proof {
        lemma_first_index(s@, c, at as int);
    }
    let head = s.substring_char(0, at).to_owned();
    assert(s@.subrange(0, at as int) =~= s@.take(at as int));
    if at < chars.len() {
        let rest = s.substring_char(at + 1, chars.len()).to_owned();
        assert(s@.subrange(at + 1, s@.len() as int) =~= s@.skip(at + 1));
        (head, Some(rest))
    } else {
        (head, None)
    }
}

/// Whether `c` is white space: a character with the Unicode property
/// `White_Space`.
pub open spec fn is_white(c: char) -> bool {
    ||| '\u{9}' <= c <= '\u{d}'
    ||| c == ' '
    ||| c == '\u{85}'
    ||| c == '\u{a0}'
    ||| c == '\u{1680}'
    ||| '\u{2000}' <= c <= '\u{200a}'
    ||| c == '\u{2028}'
    ||| c == '\u{2029}'
    ||| c == '\u{202f}'
    ||| c == '\u{205f}'
    ||| c == '\u{3000}'
}

/// Whether `c` is white space.
pub fn is_whitespace(c: char) -> (white: bool)
    ensures
        white == is_white(c),
{
    ('\u{9}' <= c && c <= '\u{d}') || c == ' ' || c == '\u{85}' || c == '\u{a0}' || c
        == '\u{1680}' || ('\u{2000}' <= c && c <= '\u{200a}') || c == '\u{2028}' || c
        == '\u{2029}' || c == '\u{202f}' || c == '\u{205f}' || c == '\u{3000}'
}

/// The words of `s` from place `from` on, behind the words in `done`, where
/// a word that began at `start` is being read.
pub open spec fn words_from(s: Seq<char>, from: int, start: int, done: Seq<Seq<char>>) -> Seq<
    Seq<char>,
>
    decreases s.len() - from,
{
    if from < 0 || from >= s.len() {
        if start < s.len() {
            done.push(s.subrange(start, s.len() as int))
        } else {
            done
        }
    } else if is_white(s[from]) {
        words_from(
            s,
            from + 1,
            from + 1,
            if start < from {
                done.push(s.subrange(start, from))
            } else {
                done
            },
        )
    } else {
        words_from(s, from + 1, start, done)
    }
}

/// The words of `s`: its longest runs of characters that are not white space,
/// in order.
pub open spec fn words(s: Seq<char>) -> Seq<Seq<char>> {
    words_from(s, 0, 0, Seq::empty())
}

/// Parts a string into its words.
pub fn split_whitespace(s: &str) -> (parts: Vec<String>)
    ensures
        parts@.map_values(|p: String| p@) == words(s@),
{
    let chars = to_chars(s);
    let mut parts: Vec<String> = Vec::new();
    let mut start: usize = 0;
    let mut i: usize = 0;
    assert(parts@.map_values(|p: String| p@) =~= Seq::<Seq<char>>::empty());
    while i < chars.len()
        invariant
            chars@ == s@,
            start <= i <= chars.len(),
            words_from(s@, i as int, start as int, parts@.map_values(|p: String| p@)) == words(
                s@,
            ),
        decreases chars.len() - i,
    {
        let ghost done = parts@.map_values(|p: String| p@);
        if is_whitespace(chars[i]) {
            if start < i {
                let word = s.substring_char(start, i).to_owned();
                parts.push(word);
                assert(parts@.map_values(|p: String| p@) =~= done.push(
                    s@.subrange(start as int, i as int),
                ));
            }
            start = i + 1;
        }
        i += 1;
    }
    if start < chars.len() {
        let ghost done = parts@.map_values(|p: String| p@);
        let word = s.substring_char(start, chars.len()).to_owned();
        parts.push(word);
        assert(parts@.map_values(|p: String| p@) =~= done.push(
            s@.subrange(start as int, s@.len() as int),
        ));
    }
    parts
}

/// `line` without the carriage return at its end, if it has one.
pub open spec fn strip_cr(line: Seq<char>) -> Seq<char> {
    if line.len() > 0 && line.last() == '\r' {
        line.drop_last()
    } else {
        line
    }
}

/// The lines of `s` from place `from` on, behind the lines in `done`, where
/// the line being read began at `start`.
pub open spec fn lines_from(s: Seq<char>, from: int, start: int, done: Seq<Seq<char>>) -> Seq<
    Seq<char>,
>
    decreases s.len() - from,
{
    if from < 0 || from >= s.len() {
        if start < s.len() {
            done.push(s.subrange(start, s.len() as int))
        } else {
            done
        }
    } else if s[from] == '\n' {
        lines_from(s, from + 1, from + 1, done.push(strip_cr(s.subrange(start, from))))
    } else {
        lines_from(s, from + 1, start, done)
    }
}

/// The lines of `s`. A line ends at a line feed, and a carriage return just
/// before that line feed belongs to the line ending too. The last line needs
/// no line ending, and then keeps a carriage return at its end.
pub open spec fn lines(s: Seq<char>) -> Seq<Seq<char>> {
    lines_from(s, 0, 0, Seq::empty())
}

/// Parts a string into its lines.
pub fn split_lines(s: &str) -> (parts: Vec<String>)
    ensures
        parts@.map_values(|p: String| p@) == lines(s@),
{
    let chars = to_chars(s);
    let mut parts: Vec<String> = Vec::new();
    let mut start: usize = 0;
    let mut i: usize = 0;
    assert(parts@.map_values(|p: String| p@) =~= Seq::<Seq<char>>::empty());
    while i < chars.len()
        invariant
            chars@ == s@,
            start <= i <= chars.len(),
            lines_from(s@, i as int, start as int, parts@.map_values(|p: String| p@)) == lines(
                s@,
            ),
        decreases chars.len() - i,
    {
        let ghost done = parts@.map_values(|p: String| p@);
        if chars[i] == '\n' {
            let end = if start < i && chars[i - 1] == '\r' {
                i - 1
            } else {
                i
            };
            let line = s.substring_char(start, end).to_owned();
            assert(line@ =~= strip_cr(s@.subrange(start as int, i as int)));
            parts.push(line);
            assert(parts@.map_values(|p: String| p@) =~= done.push(line@));
            start = i + 1;
        }
        i += 1;
    }
    if start < chars.len() {
        let ghost done = parts@.map_values(|p: String| p@);
        let line = s.substring_char(start, chars.len()).to_owned();
        parts.push(line);
        assert(parts@.map_values(|p: String| p@) =~= done.push(
            s@.subrange(start as int, s@.len() as int),
        ));
    }
    parts
}

/// Whether `s` ends with `suffix`.
pub open spec fn has_suffix(s: Seq<char>, suffix: Seq<char>) -> bool {
    suffix.len() <= s.len() && s.skip(s.len() - suffix.len()) == suffix
}

/// Whether `s` begins with `prefix`.
pub open spec fn has_prefix(s: Seq<char>, prefix: Seq<char>) -> bool {
    prefix.len() <= s.len() && s.take(prefix.len() as int) == prefix
}

/// Whether `s` ends with `suffix`.
pub fn ends_with(s: &str, suffix: &str) -> (found: bool)
    ensures
        found == has_suffix(s@, suffix@),
{
    let n = s.unicode_len();
    let m = suffix.unicode_len();
    if m > n {
        return false;
    }
    let tail = s.substring_char(n - m, n);
    assert(s@.subrange(n - m, n as int) =~= s@.skip(n - m));
    str_equal(tail, suffix)
}

/// Whether `s` begins with `prefix`.
pub fn starts_with(s: &str, prefix: &str) -> (found: bool)
    ensures
        found == has_prefix(s@, prefix@),
{
    let n = s.unicode_len();
    let m = prefix.unicode_len();
    if m > n {
        return false;
    }
    let head = s.substring_char(0, m);
    assert(s@.subrange(0, m as int) =~= s@.take(m as int));
    str_equal(head, prefix)
}

/// `s` without the white space at its end.
pub open spec fn trimmed_end(s: Seq<char>) -> Seq<char>
    decreases s.len(),
{
    if s.len() > 0 && is_white(s.last()) {
        trimmed_end(s.drop_last())
    } else {
        s
    }
}

/// Takes the white space off the end of a string.
pub fn trim_end(s: &str) -> (trimmed: String)
    ensures
        trimmed@ == trimmed_end(s@),
{
    let chars = to_chars(s);
    let mut n: usize = chars.len();
    assert(s@.take(n as int) =~= s@);
    while n > 0 && is_whitespace(chars[n - 1])
        invariant
            chars@ == s@,
            n <= chars.len(),
            trimmed_end(s@.take(n as int)) == trimmed_end(s@),
        decreases n,
    {
        assert(s@.take(n as int).drop_last() =~= s@.take(n - 1));
        n -= 1;
    }
    assert(s@.subrange(0, n as int) =~= s@.take(n as int));
    s.substring_char(0, n).to_owned()
}

} // verus!
