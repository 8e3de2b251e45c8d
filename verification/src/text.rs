//! Character-level helpers on strings.

use vstd::prelude::*;
use vstd::string::StrSliceExecFns;

verus! {

/// The characters of `s`, in order.
pub fn chars_of(s: &str) -> (chars: Vec<char>)
    ensures
        chars@ == s@,
{
    let mut chars: Vec<char> = Vec::new();
    for c in it: s.chars()
        invariant
            it.seq() == s@,
            chars@ == s@.take(it.index() as int),
    {
        chars.push(c);
        assert(s@.take(it.index() + 1) =~= s@.take(it.index() as int).push(c));
    }
    assert(s@.take(s@.len() as int) =~= s@);
    chars
}

/// Whether `text` reads `piece` from position `at` on.
pub open spec fn occurs_at(text: Seq<char>, piece: Seq<char>, at: int) -> bool {
    &&& 0 <= at
    &&& at + piece.len() <= text.len()
    &&& text.subrange(at, at + piece.len()) == piece
}

/// Tests whether `text` reads `piece` from character position `at` on.
pub fn reads_at(text: &str, piece: &str, at: usize) -> (found: bool)
    ensures
        found == occurs_at(text@, piece@, at as int),
{
    let whole = chars_of(text);
    let part = chars_of(piece);
    let n: usize = whole.len();
    let m: usize = part.len();
    if at > n || m > n - at {
        return false;
    }
    let mut i: usize = 0;
    while i < m
        invariant
            whole@ == text@,
            part@ == piece@,
            n == whole@.len(),
            m == part@.len(),
            at + m <= n,
            i <= m,
            forall|k: int| 0 <= k < i ==> text@[at + k] == piece@[k],
        decreases m - i,
    {
        if whole[at + i] != part[i] {
            assert(text@.subrange(at as int, at + m)[i as int] != piece@[i as int]);
            return false;
        }
        i += 1;
    }
    assert(text@.subrange(at as int, at + m) =~= piece@);
    true
}

/// Tests whether `name` begins with `prefix`.
pub fn starts_with(name: &str, prefix: &str) -> (found: bool)
    ensures
        found == prefix@.is_prefix_of(name@),
{
    reads_at(name, prefix, 0)
}

/// Tests whether `name` ends with `suffix`.
pub fn ends_with(name: &str, suffix: &str) -> (found: bool)
    ensures
        found == suffix@.is_suffix_of(name@),
{
    let n: usize = name.unicode_len();
    let m: usize = suffix.unicode_len();
    if m > n {
        return false;
    }
    reads_at(name, suffix, n - m)
}

/// Tests whether two strings hold the same characters: no folding of case,
/// no partial match.
pub fn same_text(left: &str, right: &str) -> (same: bool)
    ensures
        same == (left@ == right@),
{
    let n: usize = left.unicode_len();
    let m: usize = right.unicode_len();
    if n != m {
        return false;
    }
    let same = reads_at(left, right, 0);
    assert(left@.subrange(0, n as int) =~= left@);
    same
}

/// Whether `c` is white space: one of the code points with the Unicode
/// property `White_Space`.
pub open spec fn is_space(c: char) -> bool {
    let n = c as u32;
    ||| 0x09 <= n <= 0x0D
    ||| n == 0x20
    ||| n == 0x85
    ||| n == 0xA0
    ||| n == 0x1680
    ||| 0x2000 <= n <= 0x200A
    ||| n == 0x2028
    ||| n == 0x2029
    ||| n == 0x202F
    ||| n == 0x205F
    ||| n == 0x3000
}

/// Tests whether `c` is white space.
pub fn is_whitespace(c: char) -> (space: bool)
    ensures
        space == is_space(c),
{
    let n: u32 = c as u32;
    (0x09 <= n && n <= 0x0D) || n == 0x20 || n == 0x85 || n == 0xA0 || n == 0x1680 || (0x2000 <= n
        && n <= 0x200A) || n == 0x2028 || n == 0x2029 || n == 0x202F || n == 0x205F || n == 0x3000
}

/// `text` without the white space at its front and at its end.
pub open spec fn trimmed(text: Seq<char>) -> Seq<char>
    decreases text.len(),
{
    if text.len() == 0 {
        text
    } else if is_space(text.first()) {
        trimmed(text.drop_first())
    } else if is_space(text.last()) {
        trimmed(text.drop_last())
    } else {
        text
    }
}

/// Removes the white space at the front and at the end of `text`.
pub fn trim(text: &str) -> (rest: &str)
    ensures
        rest@ == trimmed(text@),
{
    let chars = chars_of(text);
    let n: usize = chars.len();
    let mut from: usize = 0;
    assert(text@.skip(0) =~= text@);
    while from < n && is_whitespace(chars[from])
        invariant
            chars@ == text@,
            n == chars@.len(),
            from <= n,
            trimmed(text@) == trimmed(text@.skip(from as int)),
        decreases n - from,
    {
        assert(text@.skip(from as int).drop_first() =~= text@.skip(from + 1));
        from += 1;
    }
    let mut to: usize = n;
    assert(text@.skip(from as int) =~= text@.subrange(from as int, to as int));
    while from < to && is_whitespace(chars[to - 1])
        invariant
            chars@ == text@,
            n == chars@.len(),
            from <= to <= n,
            from < n ==> !is_space(text@[from as int]),
            trimmed(text@) == trimmed(text@.subrange(from as int, to as int)),
        decreases to - from,
    {
        assert(text@.subrange(from as int, to as int).drop_last() =~= text@.subrange(
            from as int,
            to - 1,
        ));
        to -= 1;
    }
    text.substring_char(from, to)
}

/// The views of a sequence of strings, in order.
pub open spec fn string_views(strings: Seq<String>) -> Seq<Seq<char>> {
    strings.map_values(|s: String| s@)
}

/// A copy of `strings`, item by item.
pub fn copy_strings(strings: &Vec<String>) -> (copy: Vec<String>)
    ensures
        string_views(copy@) == string_views(strings@),
{
    let mut copy: Vec<String> = Vec::new();
    let mut i: usize = 0;
    while i < strings.len()
        invariant
            i <= strings.len(),
            copy@.len() == i,
            forall|k: int| 0 <= k < i ==> copy@[k]@ == strings@[k]@,
        decreases strings.len() - i,
    {
        copy.push(strings[i].clone());
        i += 1;
    }
    assert(string_views(copy@) =~= string_views(strings@));
    copy
}

} // verus!
