//! Text as sequences of characters: lines, substrings and decimal numbers.

use vstd::prelude::*;
use vstd::string::StringExecFns;

verus! {

/// Whether `needle` stands in `hay` at position `at`.
pub open spec fn occurs_at(hay: Seq<char>, needle: Seq<char>, at: int) -> bool {
    0 <= at && at + needle.len() <= hay.len() && hay.subrange(at, at + needle.len()) == needle
}

/// Whether `needle` stands somewhere in `hay`. The empty text stands in
/// every text.
pub open spec fn contains(hay: Seq<char>, needle: Seq<char>) -> bool {
    exists|at: int| occurs_at(hay, needle, at)
}

/// The line of `s` that starts at `start` and is ended by the line feed at
/// `feed`: what stands between the two, without a carriage return that
/// stands directly before the line feed.
pub open spec fn ended_line(s: Seq<char>, start: int, feed: int) -> Seq<char> {
    if start < feed && s[feed - 1] == '\r' {
        s.subrange(start, feed - 1)
    } else {
        s.subrange(start, feed)
    }
}

/// The lines of `s` from the line that starts at `start`, of which the
/// characters before `at` are known to hold no line feed.
pub open spec fn lines_from(s: Seq<char>, start: int, at: int) -> Seq<Seq<char>>
    decreases s.len() - at,
{
    if at >= s.len() {
        if start < s.len() {
            seq![s.subrange(start, s.len() as int)]
        } else {
            Seq::empty()
        }
    } else if s[at] == '\n' {
        seq![ended_line(s, start, at)] + lines_from(s, at + 1, at + 1)
    } else {
        lines_from(s, start, at + 1)
    }
}

/// The lines of `s`. A line ends at a line feed, or at a carriage return
/// directly followed by one, or at the end of the text; the line endings
/// belong to no line, and a text that ends in a line ending has no empty
/// line after it.
pub open spec fn lines(s: Seq<char>) -> Seq<Seq<char>> {
    lines_from(s, 0, 0)
}

/// What each of the string slices of `slices` holds.
pub open spec fn views(slices: Seq<&str>) -> Seq<Seq<char>> {
    Seq::new(slices.len(), |i: int| slices[i]@)
}

/// The characters of `s`, in order.
pub fn chars_of(s: &str) -> (chars: Vec<char>)
    ensures
        chars@ == s@,
{
    let mut chars: Vec<char> = Vec::new();
    for c in it: s.chars()
        invariant
            it.seq() == s@,
            chars@ == it.seq().take(it.index() as int),
    {
        chars.push(c);
    }
    chars
}

/// Where each line of `text` starts and where it ends.
pub fn line_bounds(text: &Vec<char>) -> (bounds: Vec<(usize, usize)>)
    ensures
        bounds@.len() == lines(text@).len(),
        forall|k: int|
            0 <= k < bounds@.len() ==> (#[trigger] bounds@[k]).0 <= bounds@[k].1 <= text@.len()
                && lines(text@)[k] == text@.subrange(bounds@[k].0 as int, bounds@[k].1 as int),
{
    let mut bounds: Vec<(usize, usize)> = Vec::new();
    let mut start: usize = 0;
    let mut at: usize = 0;
    let ghost mut done: Seq<Seq<char>> = Seq::empty();
    while at < text.len()
        invariant
            start <= at <= text@.len(),
            lines(text@) == done + lines_from(text@, start as int, at as int),
            bounds@.len() == done.len(),
            forall|k: int|
                0 <= k < bounds@.len() ==> (#[trigger] bounds@[k]).0 <= bounds@[k].1 <= text@.len()
                    && done[k] == text@.subrange(bounds@[k].0 as int, bounds@[k].1 as int),
        decreases text@.len() - at,
    {
        if text[at] == '\n' {
            let end: usize = if start < at && text[at - 1] == '\r' {
                at - 1
            } else {
                at
            };
            bounds.push((start, end));
            proof {
                let line = ended_line(text@, start as int, at as int);
                assert(done + (seq![line] + lines_from(text@, at + 1, at + 1)) =~= done.push(line)
                    + lines_from(text@, at + 1, at + 1));
                done = done.push(line);
            }
            start = at + 1;
        }
        at = at + 1;
    }
    if start < text.len() {
        bounds.push((start, text.len()));
        proof {
            let line = text@.subrange(start as int, text@.len() as int);
            done = done.push(line);
        }
    } else {
    }
    bounds
}

/// Whether `needle` stands somewhere in the part of `hay` from `from` up to,
/// not including, `to`.
pub fn occurs_in(hay: &Vec<char>, from: usize, to: usize, needle: &Vec<char>) -> (found: bool)
    requires
        from <= to <= hay@.len(),
    ensures
        found == contains(hay@.subrange(from as int, to as int), needle@),
{
    let ghost part = hay@.subrange(from as int, to as int);
    if needle.len() > to - from {
        return false;
    }
    let last: usize = to - needle.len();
    let mut at: usize = from;
    while at <= last
        invariant
            from <= at <= last + 1,
            last == to - needle@.len(),
            from <= to <= hay@.len(),
            needle@.len() <= to - from,
            part == hay@.subrange(from as int, to as int),
            forall|k: int| 0 <= k < at - from ==> !occurs_at(part, needle@, k),
        decreases last + 1 - at,
    {
        let mut i: usize = 0;
        while i < needle.len() && hay[at + i] == needle[i]
            invariant
                i <= needle@.len(),
                at + needle@.len() <= to <= hay@.len(),
                forall|k: int| 0 <= k < i ==> hay@[at + k] == needle@[k],
            decreases needle@.len() - i,
        {
            i = i + 1;
        }
        if i == needle.len() {
            assert(part.subrange(at - from, at - from + needle@.len()) =~= needle@);
            assert(occurs_at(part, needle@, at - from));
            return true;
        }
        assert(!occurs_at(part, needle@, at - from)) by {
            if occurs_at(part, needle@, at - from) {
                assert(part.subrange(at - from, at - from + needle@.len())[i as int]
                    == needle@[i as int]);
            }
        }
        at = at + 1;
    }
    false
}

/// Whether `a` and `b` hold the same text.
pub fn same_text(a: &str, b: &str) -> (same: bool)
    ensures
        same == (a@ == b@),
{
    let left = chars_of(a);
    let right = chars_of(b);
    if left.len() != right.len() {
        return false;
    }
    let mut i: usize = 0;
    while i < left.len()
        invariant
            i <= left@.len(),
            left@ == a@,
            right@ == b@,
            left@.len() == right@.len(),
            forall|k: int| 0 <= k < i ==> left@[k] == right@[k],
        decreases left@.len() - i,
    {
        if left[i] != right[i] {
            return false;
        }
        i = i + 1;
    }
    assert(left@ =~= right@);
    true
}

/// The character of the decimal digit `d`.
pub open spec fn digit(d: nat) -> char
    recommends
        d < 10,
{
    if d == 0 {
        '0'
    } else if d == 1 {
        '1'
    } else if d == 2 {
        '2'
    } else if d == 3 {
        '3'
    } else if d == 4 {
        '4'
    } else if d == 5 {
        '5'
    } else if d == 6 {
        '6'
    } else if d == 7 {
        '7'
    } else if d == 8 {
        '8'
    } else {
        '9'
    }
}

/// The number `n` written in decimal digits, without leading zeros.
pub open spec fn decimal(n: nat) -> Seq<char>
    decreases n,
{
    if n < 10 {
        seq![digit(n)]
    } else {
        decimal(n / 10).push(digit(n % 10))
    }
}

fn digit_text(d: usize) -> (text: &'static str)
    requires
        d < 10,
    ensures
        text@ == seq![digit(d as nat)],
{
    proof {
        reveal_strlit("0");
        reveal_strlit("1");
        reveal_strlit("2");
        reveal_strlit("3");
        reveal_strlit("4");
        reveal_strlit("5");
        reveal_strlit("6");
        reveal_strlit("7");
        reveal_strlit("8");
        reveal_strlit("9");
    }
    let text = if d == 0 {
        "0"
    } else if d == 1 {
        "1"
    } else if d == 2 {
        "2"
    } else if d == 3 {
        "3"
    } else if d == 4 {
        "4"
    } else if d == 5 {
        "5"
    } else if d == 6 {
        "6"
    } else if d == 7 {
        "7"
    } else if d == 8 {
        "8"
    } else {
        "9"
    };
    text
}

/// Writes `n` in decimal digits.
pub fn to_decimal(n: usize) -> (text: String)
    ensures
        text@ == decimal(n as nat),
    decreases n,
{
    if n < 10 {
        String::from_str(digit_text(n))
    } else {
        let mut text = to_decimal(n / 10);
        text.append(digit_text(n % 10));
        text
    }
}

} // verus!
