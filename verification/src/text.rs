//! Searching and cutting text by character position.
//!
//! Positions count characters, never bytes, so a cut can not fall inside a
//! multi-byte sequence.

use vstd::prelude::*;
use vstd::std_specs::iter::IteratorSpec;

verus! {

/// `i` is the position of the first `c` in `s`.
pub open spec fn first_at(s: Seq<char>, c: char, i: int) -> bool {
    &&& 0 <= i < s.len()
    &&& s[i] == c
    &&& forall|j: int| 0 <= j < i ==> s[j] != c
}

/// The position of the first `c` in `s`, or `s.len()` where `s` holds no `c`.
pub open spec fn first_index(s: Seq<char>, c: char) -> int {
    if exists|i: int| first_at(s, c, i) {
        choose|i: int| first_at(s, c, i)
    } else {
        s.len() as int
    }
}

/// A first occurrence is the only one: `first_index` is that position.
pub proof fn lemma_first_index_at(s: Seq<char>, c: char, i: int)
    requires
        first_at(s, c, i),
    ensures
        first_index(s, c) == i,
{
    let k = choose|k: int| first_at(s, c, k);
    assert(k == i);
}

/// `first_index` is in `0..=len`; it is below `len` exactly where `s` holds `c`,
/// and then it is the first occurrence.
pub proof fn lemma_first_index(s: Seq<char>, c: char)
    ensures
        0 <= first_index(s, c) <= s.len(),
        first_index(s, c) < s.len() <==> s.contains(c),
        first_index(s, c) < s.len() ==> first_at(s, c, first_index(s, c)),
{
    if s.contains(c) {
        let w = choose|w: int| 0 <= w < s.len() && s[w] == c;
        lemma_least_occurrence(s, c, w);
    }
}

/// Where `c` occurs at `w`, some position at or before `w` is its first occurrence.
proof fn lemma_least_occurrence(s: Seq<char>, c: char, w: int)
    requires
        0 <= w < s.len(),
        s[w] == c,
    ensures
        exists|i: int| first_at(s, c, i),
    decreases w,
{
    if forall|j: int| 0 <= j < w ==> s[j] != c {
        assert(first_at(s, c, w));
    } else {
        let j = choose|j: int| 0 <= j < w && s[j] == c;
        lemma_least_occurrence(s, c, j);
    }
}

/// Finds the first `c` in `s`.
pub fn find(s: &str, c: char) -> (found: Option<usize>)
    ensures
        match found {
            Some(i) => first_at(s@, c, i as int),
            None => !s@.contains(c),
        },
{
    broadcast use vstd::string::group_string_axioms;

    let n = s.unicode_len();
    let mut rest = s.chars();
    let mut i: usize = 0;
    loop
        invariant
            i <= n,
            n == s@.len(),
            rest.obeys_prophetic_iter_laws(),
            rest.remaining() == s@.skip(i as int),
            forall|j: int| 0 <= j < i ==> s@[j] != c,
        decreases n - i,
    {
        match rest.next() {
            Some(ch) => {
                if ch == c {
                    return Some(i);
                }
                i += 1;
            },
            None => {
                return None;
            },
        }
    }
}

/// Whether `s` opens with the character `c`.
pub fn starts_with_char(s: &str, c: char) -> (yes: bool)
    ensures
        yes == (s@.len() > 0 && s@[0] == c),
{
    !s.is_empty() && s.get_char(0) == c
}

/// The part of `s` from position `from` to the end.
pub fn tail_from(s: &str, from: usize) -> (tail: &str)
    requires
        from <= s@.len(),
    ensures
        tail@ == s@.skip(from as int),
{
    let n = s.unicode_len();
    s.substring_char(from, n)
}

/// Cuts `s` at its first `c`: what stands before it and what stands behind it.
/// `None` where `s` holds no `c`.
pub fn split_first(s: &str, c: char) -> (parts: Option<(&str, &str)>)
    ensures
        match parts {
            Some((head, tail)) => {
                &&& s@.contains(c)
                &&& head@ == s@.take(first_index(s@, c))
                &&& tail@ == s@.skip(first_index(s@, c) + 1)
            },
            None => !s@.contains(c),
        },
{
    let n = s.unicode_len();
    match find(s, c) {
        Some(i) => {
            proof {
                lemma_first_index_at(s@, c, i as int);
            }
            Some((s.substring_char(0, i), s.substring_char(i + 1, n)))
        },
        None => None,
    }
}

/// Whether two texts hold the same characters.
pub fn same_text(a: &str, b: &str) -> (same: bool)
    ensures
        same == (a@ == b@),
{
    broadcast use vstd::string::group_string_axioms;

    let mut left = a.chars();
    let mut right = b.chars();
    let ghost mut i: int = 0;
    loop
        invariant
            0 <= i <= a@.len(),
            i <= b@.len(),
            left.obeys_prophetic_iter_laws(),
            right.obeys_prophetic_iter_laws(),
            left.remaining() == a@.skip(i),
            right.remaining() == b@.skip(i),
            forall|j: int| 0 <= j < i ==> a@[j] == b@[j],
        decreases a@.len() - i,
    {
        match left.next() {
            Some(x) => {
                match right.next() {
                    Some(y) => {
                        if x != y {
                            return false;
                        }
                    },
                    None => {
                        return false;
                    },
                }
            },
            None => {
                let ended = right.next().is_none();
                proof {
                    if ended {
                        assert(a@ =~= b@);
                    }
                }
                return ended;
            },
        }
        proof {
            i = i + 1;
        }
    }
}

/// Whether `s` opens with the whole of `start`.
pub fn begins_with(s: &str, start: &str) -> (yes: bool)
    ensures
        yes == start@.is_prefix_of(s@),
{
    broadcast use vstd::string::group_string_axioms;

    let mut wanted = start.chars();
    let mut given = s.chars();
    let ghost mut i: int = 0;
    loop
        invariant
            0 <= i <= start@.len(),
            i <= s@.len(),
            wanted.obeys_prophetic_iter_laws(),
            given.obeys_prophetic_iter_laws(),
            wanted.remaining() == start@.skip(i),
            given.remaining() == s@.skip(i),
            forall|j: int| 0 <= j < i ==> start@[j] == s@[j],
        decreases start@.len() - i,
    {
        match wanted.next() {
            Some(x) => {
                match given.next() {
                    Some(y) => {
                        if x != y {
                            return false;
                        }
                    },
                    None => {
                        return false;
                    },
                }
            },
            None => {
                return true;
            },
        }
        proof {
            i = i + 1;
        }
    }
}

/// Whether `s` closes with the whole of `end`.
pub open spec fn ends_with(s: Seq<char>, end: Seq<char>) -> bool {
    end.len() <= s.len() && s.skip(s.len() - end.len()) == end
}

/// The parts in order with `sep` between each two neighbours.
pub open spec fn joined(parts: Seq<Seq<char>>, sep: Seq<char>) -> Seq<char>
    decreases parts.len(),
{
    if parts.len() == 0 {
        Seq::empty()
    } else if parts.len() == 1 {
        parts[0]
    } else {
        joined(parts.drop_last(), sep) + sep + parts.last()
    }
}

/// Joins the parts with `sep` between each two neighbours.
pub fn join(parts: &Vec<String>, sep: &str) -> (out: String)
    ensures
        out@ == joined(parts.deep_view(), sep@),
{
    let mut out = String::new();
    let mut k: usize = 0;
    while k < parts.len()
        invariant
            k <= parts.len(),
            out@ == joined(parts.deep_view().take(k as int), sep@),
        decreases parts.len() - k,
    {
        assert(parts.deep_view().take(k + 1).drop_last() =~= parts.deep_view().take(k as int));
        if k > 0 {
            out.append(sep);
        }
        out.append(parts[k].as_str());
        k += 1;
    }
    assert(parts.deep_view().take(k as int) =~= parts.deep_view());
    out
}

/// The character of one decimal digit.
pub open spec fn digit(d: int) -> char {
    if d == 0 {
        '0'
    } else if d == 1 {
        '1'
    } else if d == 2 {
        '2'
    } else if d == 3 {
        '3'
    } else if d == 4 {
        '4'
    } else if d == 5 {
        '5'
    } else if d == 6 {
        '6'
    } else if d == 7 {
        '7'
    } else if d == 8 {
        '8'
    } else {
        '9'
    }
}

/// A number in decimal, without sign and without leading zeros.
pub open spec fn decimal(n: nat) -> Seq<char>
    decreases n,
{
    if n < 10 {
        seq![digit(n as int)]
    } else {
        decimal(n / 10).push(digit((n % 10) as int))
    }
}

/// The text of one decimal digit.
fn digit_text(d: u16) -> (text: &'static str)
    requires
        d < 10,
    ensures
        text@ == seq![digit(d as int)],
{
    proof {
        reveal_strlit("0");
        reveal_strlit("1");
        reveal_strlit("2");
        reveal_strlit("3");
        reveal_strlit("4");
        reveal_strlit("5");
        reveal_strlit("6");
        reveal_strlit("7");
        reveal_strlit("8");
        reveal_strlit("9");
    }
    let text = if d == 0 {
        "0"
    } else if d == 1 {
        "1"
    } else if d == 2 {
        "2"
    } else if d == 3 {
        "3"
    } else if d == 4 {
        "4"
    } else if d == 5 {
        "5"
    } else if d == 6 {
        "6"
    } else if d == 7 {
        "7"
    } else if d == 8 {
        "8"
    } else {
        "9"
    };
    text
}

/// Appends `n` in decimal to `out`.
pub fn append_decimal(out: &mut String, n: u16)
    ensures
        final(out)@ == old(out)@ + decimal(n as nat),
    decreases n,
{
    if n >= 10 {
        append_decimal(out, n / 10);
    }
    out.append(digit_text(n % 10));
}

} // verus!

