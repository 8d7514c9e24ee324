//! Character-level text operations on manifest contents.
use vstd::prelude::*;
use vstd::string::*;

verus! {

/// Index of the first line feed at or after `start`, or the length of `s`.
pub open spec fn line_end(s: Seq<char>, start: int) -> int
    decreases s.len() - start,
{
    if start < 0 || start >= s.len() {
        s.len() as int
    } else if s[start] == '\n' {
        start
    } else {
        line_end(s, start + 1)
    }
}

/// The line that begins at `start`, without its line ending
/// (a line feed, or a carriage return followed by a line feed).
pub open spec fn line_at(s: Seq<char>, start: int) -> Seq<char> {
    let end = line_end(s, start);
    let raw = s.subrange(start, end);
    if end < s.len() && raw.len() > 0 && raw.last() == '\r' {
        raw.drop_last()
    } else {
        raw
    }
}

/// The lines of `s` from position `start` on.
pub open spec fn lines_from(s: Seq<char>, start: int) -> Seq<Seq<char>>
    decreases s.len() - start,
{
    if start < 0 || start >= s.len() {
        Seq::empty()
    } else {
        let end = line_end(s, start);
        if end < start || end >= s.len() {
            seq![line_at(s, start)]
        } else {
            seq![line_at(s, start)] + lines_from(s, end + 1)
        }
    }
}

proof fn lemma_line_end_bounds(s: Seq<char>, start: int)
    requires
        0 <= start <= s.len(),
    ensures
        start <= line_end(s, start) <= s.len(),
    decreases s.len() - start,
{
    if start < s.len() && s[start] != '\n' {
        lemma_line_end_bounds(s, start + 1);
    }
}


/// The lines of `s`: split at line feeds, a trailing carriage return dropped
/// from each line, and no empty line after a final line feed.
pub open spec fn lines(s: Seq<char>) -> Seq<Seq<char>> {
    lines_from(s, 0)
}

pub open spec fn starts_with(s: Seq<char>, prefix: Seq<char>) -> bool {
    prefix.len() <= s.len() && s.subrange(0, prefix.len() as int) == prefix
}

/// 1-based number of the first line of `s` that starts with `prefix`.
#[verifier::opaque]
pub open spec fn line_number_of(s: Seq<char>, prefix: Seq<char>) -> Option<nat> {
    let ls = lines(s);
    if exists|j: int| 0 <= j < ls.len() && starts_with(#[trigger] ls[j], prefix) {
        let j = choose|j: int|
            0 <= j < ls.len() && starts_with(#[trigger] ls[j], prefix) && forall|k: int|
                0 <= k < j ==> !starts_with(#[trigger] ls[k], prefix);
        Some((j + 1) as nat)
    } else {
        None
    }
}

/// `pattern` occurs in `s` at position `i`.
pub open spec fn occurs_at(s: Seq<char>, pattern: Seq<char>, i: int) -> bool {
    0 <= i && i + pattern.len() <= s.len() && s.subrange(i, i + pattern.len()) == pattern
}

/// `s` with the first occurrence of `from` replaced by `to`; `s` itself when
/// `from` does not occur.
#[verifier::opaque]
pub open spec fn replace_first(s: Seq<char>, from: Seq<char>, to: Seq<char>) -> Seq<char> {
    if exists|i: int| occurs_at(s, from, i) {
        let i = choose|i: int|
            occurs_at(s, from, i) && forall|k: int| 0 <= k < i ==> !occurs_at(s, from, k);
        s.subrange(0, i) + to + s.subrange(i + from.len(), s.len() as int)
    } else {
        s
    }
}

pub open spec fn unquoted(s: Seq<char>) -> Seq<char> {
    if s.len() >= 2 && ((s[0] == '"' && s.last() == '"') || (s[0] == '\'' && s.last() == '\'')) {
        s.subrange(1, s.len() - 1)
    } else {
        s
    }
}

/// The characters of `s`.
pub fn chars_of(s: &str) -> (r: Vec<char>)
    ensures
        r@ == s@,
{
    let n = s.unicode_len();
    let mut r: Vec<char> = Vec::new();
    let mut i: usize = 0;
    while i < n
        invariant
            n == s@.len(),
            i <= n,
            r@ == s@.subrange(0, i as int),
        decreases n - i,
    {
        r.push(s.get_char(i));
        i = i + 1;
    }
    assert(r@ =~= s@);
    r
}

/// Removes one pair of matching enclosing quotes (double or single), if present.
pub fn strip_quotes(s: &str) -> (r: &str)
    ensures
        r@ == unquoted(s@),
{
    let n = s.unicode_len();
    if n >= 2 {
        let first = s.get_char(0);
        let last = s.get_char(n - 1);
        if (first == '"' && last == '"') || (first == '\'' && last == '\'') {
            return s.substring_char(1, n - 1);
        }
    }
    s
}

/// Finds the end of the line that begins at `start`.
fn find_line_end(s: &Vec<char>, start: usize) -> (r: usize)
    requires
        start <= s@.len(),
    ensures
        r as int == line_end(s@, start as int),
        start <= r <= s@.len(),
{
    let mut i = start;
    while i < s.len() && s[i] != '\n'
        invariant
            start <= i <= s@.len(),
            line_end(s@, start as int) == line_end(s@, i as int),
        decreases s@.len() - i,
    {
        i = i + 1;
    }
    i
}

/// Whether the line spanning `start..end` (ending at a line feed or at the
/// end of `s`) starts with `prefix`.
fn line_starts_with(s: &Vec<char>, start: usize, end: usize, prefix: &Vec<char>) -> (r: bool)
    requires
        start <= end <= s@.len(),
        end as int == line_end(s@, start as int),
    ensures
        r == starts_with(line_at(s@, start as int), prefix@),
{
    let mut stop = end;
    if end < s.len() && end > start && s[end - 1] == '\r' {
        stop = end - 1;
    }
    let ghost line = line_at(s@, start as int);
    assert(line =~= s@.subrange(start as int, stop as int));
    if prefix.len() > stop - start {
        return false;
    }
    let mut k: usize = 0;
    while k < prefix.len()
        invariant
            start <= stop <= s@.len(),
            prefix@.len() <= stop - start,
            line == s@.subrange(start as int, stop as int),
            line == line_at(s@, start as int),
            k <= prefix@.len(),
            forall|m: int| 0 <= m < k ==> line[m] == prefix@[m],
        decreases prefix@.len() - k,
    {
        if s[start + k] != prefix[k] {
            assert(line[k as int] == s@[start + k]);
            assert(prefix@.len() <= line.len());
            assert(line.subrange(0, prefix@.len() as int)[k as int] != prefix@[k as int]);
            return false;
        }
        k = k + 1;
    }
    assert(line.subrange(0, prefix@.len() as int) =~= prefix@);
    true
}

/// Line feeds before `start` delimit lines.
proof fn lemma_lines_split(s: Seq<char>, start: int)
    requires
        0 <= start < s.len(),
    ensures
        lines_from(s, start) == seq![line_at(s, start)] + lines_from(s, line_end(s, start) + 1),
{
    lemma_line_end_bounds(s, start);
}

/// 1-based number of the first line of `content` that starts with `prefix`.
pub fn get_line_number(content: &str, prefix: &str) -> (r: Option<usize>)
    ensures
        r matches Some(n) ==> line_number_of(content@, prefix@) == Some(n as nat),
        r is None ==> line_number_of(content@, prefix@) is None,
{
    reveal(line_number_of);
    let s = chars_of(content);
    let p = chars_of(prefix);
    let ghost all = lines(s@);
    let ghost mut seen: Seq<Seq<char>> = Seq::empty();
    let mut start: usize = 0;
    let mut number: usize = 0;
    while start < s.len()
        invariant
            s@ == content@,
            p@ == prefix@,
            start <= s@.len(),
            all == lines(s@),
            all == seen + lines_from(s@, start as int),
            number == seen.len(),
            number <= start,
            forall|k: int| 0 <= k < seen.len() ==> !starts_with(#[trigger] seen[k], p@),
        decreases s@.len() - start,
    {
        let end = find_line_end(&s, start);
        proof {
            lemma_lines_split(s@, start as int);
        }
        let hit = line_starts_with(&s, start, end, &p);
        let ghost line = line_at(s@, start as int);
        if hit {
            proof {
                reveal(line_number_of);
                assert(all[seen.len() as int] == line);
                assert forall|k: int| 0 <= k < seen.len() implies !starts_with(#[trigger] all[k], p@) by {
                    assert(all[k] == seen[k]);
                }
            }
            return Some(number + 1);
        }
        proof {
            assert(seen.push(line) + lines_from(s@, end + 1) =~= seen + (seq![line] + lines_from(s@, end + 1)));
            seen = seen.push(line);
        }
        number = number + 1;
        if end < s.len() {
            start = end + 1;
        } else {
            assert(lines_from(s@, end + 1) =~= lines_from(s@, end as int));
            start = end;
        }
    }
    proof {
        assert(all =~= seen);
        assert forall|j: int| 0 <= j < all.len() implies !starts_with(#[trigger] all[j], p@) by {
            assert(all[j] == seen[j]);
        }
    }
    None
}

/// Position of the first occurrence of `pattern` in `s`.
fn find_first(s: &Vec<char>, pattern: &Vec<char>) -> (r: Option<usize>)
    ensures
        r matches Some(i) ==> occurs_at(s@, pattern@, i as int) && forall|k: int|
            0 <= k < i ==> !occurs_at(s@, pattern@, k),
        r is None ==> forall|k: int| !occurs_at(s@, pattern@, k),
{
    if pattern.len() > s.len() {
        return None;
    }
    if pattern.len() == 0 {
        assert(s@.subrange(0, 0) =~= pattern@);
        return Some(0);
    }
    let last = s.len() - pattern.len();
    let ghost n = s@.len();
    assert(n <= usize::MAX);
    let mut i: usize = 0;
    while i <= last
        invariant
            last == s@.len() - pattern@.len(),
            0 < pattern@.len() <= s@.len(),
            s@.len() <= usize::MAX,
            forall|k: int| 0 <= k < i ==> !occurs_at(s@, pattern@, k),
        decreases last + 1 - i,
    {
        let mut k: usize = 0;
        let mut same = true;
        while k < pattern.len()
            invariant
                i <= last,
                last == s@.len() - pattern@.len(),
                pattern@.len() <= s@.len(),
                s@.len() <= usize::MAX,
                k <= pattern@.len(),
                same ==> forall|m: int| 0 <= m < k ==> s@[i + m] == pattern@[m],
                !same ==> !occurs_at(s@, pattern@, i as int),
            decreases pattern@.len() - k,
        {
            if same && s[i + k] != pattern[k] {
                assert(s@.subrange(i as int, i + pattern@.len())[k as int] != pattern@[k as int]);
                same = false;
            }
            k = k + 1;
        }
        if same {
            assert(s@.subrange(i as int, i + pattern@.len()) =~= pattern@);
            return Some(i);
        }
        i = i + 1;
    }
    None
}

/// Replaces the first occurrence of `from` in `s` by `to`.
pub fn replace_first_in(s: &str, from: &str, to: &str) -> (r: String)
    ensures
        r@ == replace_first(s@, from@, to@),
{
    reveal(replace_first);
    let cs = chars_of(s);
    let cf = chars_of(from);
    match find_first(&cs, &cf) {
        None => String::from_str(s),
        Some(i) => {
            let head = String::from_str(s.substring_char(0, i));
            let n = cs.len();
            let flen = cf.len();
            assert(i + flen <= n);
            let tail = s.substring_char(i + flen, n);
            let r = head.concat(to).concat(tail);
            proof {
                let j = choose|j: int|
                    occurs_at(s@, from@, j) && forall|k: int| 0 <= k < j ==> !occurs_at(s@, from@, k);
                assert(j == i) by {
                    if j < i {
                    } else if j > i {
                    }
                }
            }
            r
        }
    }
}

} // verus!
