//! Looking entities up by id or name: ASCII case-insensitive equality, suffix
//! matching, and the first entry of a list that satisfies either.

use crate::text::chars_of;
use vstd::prelude::*;

verus! {

/// Whether `c` is an ASCII upper-case letter.
pub open spec fn is_ascii_upper(c: char) -> bool {
    0x41 <= (c as u32) <= 0x5a
}

/// Whether two characters are equal once ASCII letters are folded to lower case.
pub open spec fn char_eq_ignore_case(a: char, b: char) -> bool {
    a == b || (is_ascii_upper(a) && (a as u32) + 32 == (b as u32)) || (is_ascii_upper(b) && (
    b as u32) + 32 == (a as u32))
}

/// Whether two strings are equal once ASCII letters are folded to lower case,
/// as `str::eq_ignore_ascii_case` decides it.
pub open spec fn eq_ignore_case(a: Seq<char>, b: Seq<char>) -> bool {
    a.len() == b.len() && forall|i: int| 0 <= i < a.len() ==> char_eq_ignore_case(a[i], b[i])
}

/// Whether `s` ends with `suffix`.
pub open spec fn ends_with(s: Seq<char>, suffix: Seq<char>) -> bool {
    suffix.len() <= s.len() && s.subrange(s.len() - suffix.len(), s.len() as int) == suffix
}

/// Whether two characters are equal once ASCII letters are folded to lower case.
fn chars_eq_ignore_case(a: char, b: char) -> (r: bool)
    ensures
        r == char_eq_ignore_case(a, b),
{
    let x = a as u32;
    let y = b as u32;
    a == b || (0x41 <= x && x <= 0x5a && x + 32 == y) || (0x41 <= y && y <= 0x5a && y + 32 == x)
}

/// Whether `a` and `b` are equal once ASCII letters are folded to lower case.
pub fn eq_ignore_ascii_case(a: &str, b: &str) -> (r: bool)
    ensures
        r == eq_ignore_case(a@, b@),
{
    let x = chars_of(a);
    let y = chars_of(b);
    if x.len() != y.len() {
        return false;
    }
    let mut i: usize = 0;
    while i < x.len()
        invariant
            i <= x.len() == y.len(),
            x@ == a@,
            y@ == b@,
            forall|k: int| 0 <= k < i ==> char_eq_ignore_case(x@[k], y@[k]),
        decreases x.len() - i,
    {
        if !chars_eq_ignore_case(x[i], y[i]) {
            return false;
        }
        i = i + 1;
    }
    true
}

/// Whether `s` ends with `suffix`.
pub fn str_ends_with(s: &str, suffix: &str) -> (r: bool)
    ensures
        r == ends_with(s@, suffix@),
{
    let x = chars_of(s);
    let y = chars_of(suffix);
    if y.len() > x.len() {
        return false;
    }
    let off = x.len() - y.len();
    let mut i: usize = 0;
    while i < y.len()
        invariant
            i <= y.len(),
            off + y.len() == x.len(),
            x@ == s@,
            y@ == suffix@,
            forall|k: int| 0 <= k < i ==> x@[off + k] == y@[k],
        decreases y.len() - i,
    {
        if x[off + i] != y[i] {
            assert(x@.subrange(off as int, x@.len() as int)[i as int] != y@[i as int]);
            return false;
        }
        i = i + 1;
    }
    assert(x@.subrange(off as int, x@.len() as int) =~= y@);
    true
}

/// The position of the first of `keys` equal to `value` once ASCII letters are
/// folded to lower case.
pub fn find_ignore_case(keys: &Vec<String>, value: &str) -> (r: Option<usize>)
    ensures
        r matches Some(i) ==> i < keys@.len() && eq_ignore_case(keys@[i as int]@, value@),
        r matches Some(i) ==> forall|j: int|
            0 <= j < i ==> !eq_ignore_case(#[trigger] keys@[j]@, value@),
        r is None ==> forall|j: int|
            0 <= j < keys@.len() ==> !eq_ignore_case(#[trigger] keys@[j]@, value@),
{
    let mut i: usize = 0;
    while i < keys.len()
        invariant
            i <= keys.len(),
            forall|j: int| 0 <= j < i ==> !eq_ignore_case(#[trigger] keys@[j]@, value@),
        decreases keys.len() - i,
    {
        if eq_ignore_ascii_case(keys[i].as_str(), value) {
            return Some(i);
        }
        i = i + 1;
    }
    None
}

/// The position of the first of `keys` that ends with `suffix`.
pub fn find_ending_with(keys: &Vec<String>, suffix: &str) -> (r: Option<usize>)
    ensures
        r matches Some(i) ==> i < keys@.len() && ends_with(keys@[i as int]@, suffix@),
        r matches Some(i) ==> forall|j: int|
            0 <= j < i ==> !ends_with(#[trigger] keys@[j]@, suffix@),
        r is None ==> forall|j: int|
            0 <= j < keys@.len() ==> !ends_with(#[trigger] keys@[j]@, suffix@),
{
    let mut i: usize = 0;
    while i < keys.len()
        invariant
            i <= keys.len(),
            forall|j: int| 0 <= j < i ==> !ends_with(#[trigger] keys@[j]@, suffix@),
        decreases keys.len() - i,
    {
        if str_ends_with(keys[i].as_str(), suffix) {
            return Some(i);
        }
        i = i + 1;
    }
    None
}

} // verus!
