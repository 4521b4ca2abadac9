//! Text normalisation of cell contents: trimming, line handling, whitespace
//! collapsing and removal of bracketed citation markers.

use vstd::prelude::*;

verus! {

/// Relies on `str::chars` collected into a `Vec`: the characters of `s`, in order.
#[verifier::external_body]
pub(crate) fn chars_of(s: &str) -> (r: Vec<char>)
    ensures
        r@ == s@,
{
    s.chars().collect()
}

/// Relies on `String: FromIterator<&char>`: a string made of exactly the characters of `v`.
#[verifier::external_body]
pub(crate) fn string_of(v: &Vec<char>) -> (r: String)
    ensures
        r@ == v@,
{
    v.iter().collect()
}

/// Whitespace as `char::is_whitespace` defines it (the Unicode `White_Space` property).
pub open spec fn is_ws(c: char) -> bool {
    let u = c as u32;
    (0x9 <= u <= 0xd) || u == 0x20 || u == 0x85 || u == 0xa0 || u == 0x1680 || (0x2000 <= u
        <= 0x200a) || u == 0x2028 || u == 0x2029 || u == 0x202f || u == 0x205f || u == 0x3000
}

pub fn is_whitespace(c: char) -> (r: bool)
    ensures
        r == is_ws(c),
{
    let u = c as u32;
    (0x9 <= u && u <= 0xd) || u == 0x20 || u == 0x85 || u == 0xa0 || u == 0x1680 || (0x2000 <= u
        && u <= 0x200a) || u == 0x2028 || u == 0x2029 || u == 0x202f || u == 0x205f || u == 0x3000
}

/// `s` without its leading whitespace.
pub open spec fn trim_start(s: Seq<char>) -> Seq<char>
    decreases s.len(),
{
    if s.len() > 0 && is_ws(s[0]) {
        trim_start(s.drop_first())
    } else {
        s
    }
}

/// `s` without its trailing whitespace.
pub open spec fn trim_end(s: Seq<char>) -> Seq<char>
    decreases s.len(),
{
    if s.len() > 0 && is_ws(s.last()) {
        trim_end(s.drop_last())
    } else {
        s
    }
}

/// `s` without leading and trailing whitespace, as `str::trim` gives it.
pub open spec fn trimmed(s: Seq<char>) -> Seq<char> {
    trim_end(trim_start(s))
}

/// Appends the characters of `src` to `dst`.
pub fn push_all(dst: &mut Vec<char>, src: &Vec<char>)
    ensures
        final(dst)@ == old(dst)@ + src@,
{
    let mut i: usize = 0;
    while i < src.len()
        invariant
            i <= src.len(),
            dst@ == old(dst)@ + src@.subrange(0, i as int),
        decreases src.len() - i,
    {
        dst.push(src[i]);
        i = i + 1;
        proof {
            assert(src@.subrange(0, i as int) == src@.subrange(0, i - 1) + seq![src@[i - 1]]);
        }
    }
    proof {
        assert(src@.subrange(0, src@.len() as int) == src@);
    }
}

/// The characters of `s` from `from` up to `to`.
pub fn sub_chars(s: &Vec<char>, from: usize, to: usize) -> (r: Vec<char>)
    requires
        from <= to <= s.len(),
    ensures
        r@ == s@.subrange(from as int, to as int),
{
    let mut r: Vec<char> = Vec::new();
    let mut i: usize = from;
    while i < to
        invariant
            from <= i <= to <= s.len(),
            r@ == s@.subrange(from as int, i as int),
        decreases to - i,
    {
        r.push(s[i]);
        i = i + 1;
        proof {
            assert(s@.subrange(from as int, i as int) == s@.subrange(from as int, i - 1) + seq![
                s@[i - 1],
            ]);
        }
    }
    r
}

/// Removes leading and trailing whitespace.
pub fn trim_chars(s: &Vec<char>) -> (r: Vec<char>)
    ensures
        r@ == trimmed(s@),
{
    let n = s.len();
    let mut a: usize = 0;
    assert(s@.subrange(0, n as int) == s@);
    while a < n && is_whitespace(s[a])
        invariant
            a <= n == s.len(),
            trim_start(s@) == trim_start(s@.subrange(a as int, n as int)),
        decreases n - a,
    {
        proof {
            assert(s@.subrange(a + 1, n as int) == s@.subrange(a as int, n as int).drop_first());
        }
        a = a + 1;
    }
    let ghost t = s@.subrange(a as int, n as int);
    assert(trim_start(s@) == t);
    let mut b: usize = n;
    while b > a && is_whitespace(s[b - 1])
        invariant
            a <= b <= n == s.len(),
            t == s@.subrange(a as int, n as int),
            trim_end(t) == trim_end(s@.subrange(a as int, b as int)),
        decreases b,
    {
        proof {
            assert(s@.subrange(a as int, b - 1) == s@.subrange(a as int, b as int).drop_last());
        }
        b = b - 1;
    }
    sub_chars(s, a, b)
}

/// Trims a string, as `str::trim` does.
pub fn trim(s: &str) -> (r: String)
    ensures
        r@ == trimmed(s@),
{
    let cs = chars_of(s);
    let t = trim_chars(&cs);
    string_of(&t)
}

/// The views of a list of character vectors.
pub open spec fn views(v: Seq<Vec<char>>) -> Seq<Seq<char>> {
    v.map_values(|x: Vec<char>| x@)
}

/// Whether `sep` occurs in `s` starting at position `i`.
pub open spec fn occurs_at(s: Seq<char>, i: int, sep: Seq<char>) -> bool {
    0 <= i && i + sep.len() <= s.len() && s.subrange(i, i + sep.len()) == sep
}

/// The pieces of `s` between occurrences of the non-empty separator `sep`,
/// found from left to right without overlap, as `str::split` gives them.
pub open spec fn split_on(s: Seq<char>, sep: Seq<char>) -> Seq<Seq<char>>
    decreases s.len(),
{
    if s.len() == 0 {
        seq![seq![]]
    } else if sep.len() > 0 && occurs_at(s, 0, sep) {
        seq![seq![]] + split_on(s.subrange(sep.len() as int, s.len() as int), sep)
    } else {
        let rest = split_on(s.drop_first(), sep);
        rest.update(0, seq![s[0]] + rest[0])
    }
}

pub proof fn lemma_split_on_nonempty(s: Seq<char>, sep: Seq<char>)
    ensures
        split_on(s, sep).len() > 0,
    decreases s.len(),
{
    if s.len() == 0 {
    } else if sep.len() > 0 && occurs_at(s, 0, sep) {
        lemma_split_on_nonempty(s.subrange(sep.len() as int, s.len() as int), sep);
    } else {
        lemma_split_on_nonempty(s.drop_first(), sep);
    }
}

/// `parts` with `sep` between each two of them, as `join` on a slice gives it.
pub open spec fn join(parts: Seq<Seq<char>>, sep: Seq<char>) -> Seq<char>
    decreases parts.len(),
{
    if parts.len() == 0 {
        seq![]
    } else if parts.len() == 1 {
        parts[0]
    } else {
        join(parts.drop_last(), sep) + sep + parts.last()
    }
}

/// Whether `sep` occurs in `s` at position `i`.
pub fn occurs_at_exec(s: &Vec<char>, i: usize, sep: &Vec<char>) -> (r: bool)
    requires
        i <= s.len(),
    ensures
        r == occurs_at(s@, i as int, sep@),
{
    if sep.len() > s.len() - i {
        return false;
    }
    let mut j: usize = 0;
    while j < sep.len()
        invariant
            j <= sep.len(),
            i + sep.len() <= s.len(),
            forall|k: int| 0 <= k < j ==> s@[i + k] == sep@[k],
        decreases sep.len() - j,
    {
        if s[i + j] != sep[j] {
            assert(s@.subrange(i as int, i + sep.len())[j as int] != sep@[j as int]);
            return false;
        }
        j = j + 1;
    }
    assert(s@.subrange(i as int, i + sep.len()) == sep@);
    true
}

/// Splits `s` at each occurrence of `sep`.
pub fn split_chars(s: &Vec<char>, sep: &Vec<char>) -> (r: Vec<Vec<char>>)
    requires
        sep.len() > 0,
    ensures
        views(r@) == split_on(s@, sep@),
{
    let n = s.len();
    let mut parts: Vec<Vec<char>> = Vec::new();
    let mut cur: Vec<char> = Vec::new();
    let mut i: usize = 0;
    proof {
        assert(s@.subrange(0, n as int) == s@);
        lemma_split_on_nonempty(s@, sep@);
        let rest = split_on(s@, sep@);
        assert(rest == views(parts@) + seq![cur@ + rest[0]] + rest.drop_first());
    }
    while i < n
        invariant
            i <= n == s.len(),
            sep.len() > 0,
            split_on(s@, sep@) == views(parts@) + seq![
                cur@ + split_on(s@.subrange(i as int, n as int), sep@)[0],
            ] + split_on(s@.subrange(i as int, n as int), sep@).drop_first(),
        decreases n - i,
    {
        let ghost tail = s@.subrange(i as int, n as int);
        proof {
            lemma_split_on_nonempty(tail, sep@);
        }
        if occurs_at_exec(s, i, sep) {
            let ghost next = s@.subrange(i + sep.len(), n as int);
            proof {
                assert(tail.subrange(0, sep@.len() as int) == s@.subrange(
                    i as int,
                    i + sep.len(),
                ));
                assert(tail.subrange(sep@.len() as int, tail.len() as int) == next);
                lemma_split_on_nonempty(next, sep@);
                assert(views(parts@.push(cur)) == views(parts@).push(cur@));
                assert(cur@ + seq![] == cur@);
                assert(seq![] + split_on(next, sep@)[0] == split_on(next, sep@)[0]);
                assert(split_on(tail, sep@).drop_first() == split_on(next, sep@));
            }
            parts.push(cur);
            cur = Vec::new();
            i = i + sep.len();
        } else {
            let ghost next = s@.subrange(i + 1, n as int);
            proof {
                assert(tail.drop_first() == next);
                lemma_split_on_nonempty(next, sep@);
                if i + sep.len() <= n {
                    assert(tail.subrange(0, sep@.len() as int) == s@.subrange(
                        i as int,
                        i + sep.len(),
                    ));
                }
                assert(!occurs_at(tail, 0, sep@));
                assert(split_on(tail, sep@) == split_on(next, sep@).update(
                    0,
                    seq![tail[0]] + split_on(next, sep@)[0],
                ));
                assert(cur@.push(s@[i as int]) + split_on(next, sep@)[0] == cur@ + (seq![
                    tail[0],
                ] + split_on(next, sep@)[0]));
                assert(split_on(tail, sep@).drop_first() == split_on(next, sep@).drop_first());
            }
            cur.push(s[i]);
            i = i + 1;
        }
    }
    proof {
        assert(s@.subrange(n as int, n as int) == Seq::<char>::empty());
        assert(cur@ + seq![] == cur@);
        assert(views(parts@.push(cur)) == views(parts@).push(cur@));
    }
    parts.push(cur);
    proof {
        assert(views(parts@) == split_on(s@, sep@));
    }
    parts
}

/// Joins `parts` with `sep` between each two of them.
pub fn join_chars(parts: &Vec<Vec<char>>, sep: &Vec<char>) -> (r: Vec<char>)
    ensures
        r@ == join(views(parts@), sep@),
{
    let mut out: Vec<char> = Vec::new();
    let mut i: usize = 0;
    while i < parts.len()
        invariant
            i <= parts.len(),
            out@ == join(views(parts@.subrange(0, i as int)), sep@),
        decreases parts.len() - i,
    {
        let ghost done = views(parts@.subrange(0, i as int));
        let ghost next = views(parts@.subrange(0, i + 1));
        proof {
            assert(next.drop_last() == done);
            assert(next.last() == parts@[i as int]@);
        }
        if i > 0 {
            push_all(&mut out, sep);
        }
        push_all(&mut out, &parts[i]);
        proof {
            if i == 0 {
                assert(seq![] + parts@[0]@ == parts@[0]@);
            }
        }
        i = i + 1;
    }
    proof {
        assert(parts@.subrange(0, parts@.len() as int) == parts@);
    }
    out
}

/// Each line of `s` trimmed, the lines joined again with `'\n'`.
pub open spec fn lines_trimmed(s: Seq<char>) -> Seq<char> {
    join(split_on(s, seq!['\n']).map_values(|l: Seq<char>| trimmed(l)), seq!['\n'])
}

/// `s` with its lines trimmed where it holds a line break, else `s` itself.
pub open spec fn multiline(s: Seq<char>) -> Seq<char> {
    if s.contains('\n') {
        lines_trimmed(s)
    } else {
        s
    }
}

/// Trims each part.
pub fn trim_each(parts: &Vec<Vec<char>>) -> (r: Vec<Vec<char>>)
    ensures
        views(r@) == views(parts@).map_values(|l: Seq<char>| trimmed(l)),
{
    let mut out: Vec<Vec<char>> = Vec::new();
    let mut i: usize = 0;
    while i < parts.len()
        invariant
            i <= parts.len(),
            views(out@) == views(parts@.subrange(0, i as int)).map_values(
                |l: Seq<char>| trimmed(l),
            ),
        decreases parts.len() - i,
    {
        let t = trim_chars(&parts[i]);
        proof {
            assert(views(out@.push(t)) == views(out@).push(t@));
            assert(views(parts@.subrange(0, i + 1)).map_values(|l: Seq<char>| trimmed(l))
                == views(parts@.subrange(0, i as int)).map_values(|l: Seq<char>| trimmed(l)).push(
                trimmed(parts@[i as int]@),
            ));
        }
        out.push(t);
        i = i + 1;
    }
    proof {
        assert(parts@.subrange(0, parts@.len() as int) == parts@);
    }
    out
}

/// Trims every line of `s` and joins the lines with `'\n'`.
pub fn trim_lines(s: &Vec<char>) -> (r: Vec<char>)
    ensures
        r@ == lines_trimmed(s@),
{
    let nl: Vec<char> = vec!['\n'];
    proof {
        assert(nl@ == seq!['\n']);
    }
    let lines = split_chars(s, &nl);
    let trimmed_lines = trim_each(&lines);
    join_chars(&trimmed_lines, &nl)
}

/// Whether `s` holds the character `c`.
pub fn contains_char(s: &Vec<char>, c: char) -> (r: bool)
    ensures
        r == s@.contains(c),
{
    let mut i: usize = 0;
    while i < s.len()
        invariant
            i <= s.len(),
            forall|k: int| 0 <= k < i ==> s@[k] != c,
        decreases s.len() - i,
    {
        if s[i] == c {
            return true;
        }
        i = i + 1;
    }
    false
}

/// Trims each line of a field that spans several lines; a single-line field is
/// kept as it is.
pub fn normalize_multiline(s: &str) -> (r: String)
    ensures
        r@ == multiline(s@),
{
    let cs = chars_of(s);
    if contains_char(&cs, '\n') {
        let t = trim_lines(&cs);
        string_of(&t)
    } else {
        string_of(&cs)
    }
}

/// The pieces of `s` between whitespace characters, empty pieces included, as
/// `str::split(char::is_whitespace)` gives them.
pub open spec fn split_ws(s: Seq<char>) -> Seq<Seq<char>>
    decreases s.len(),
{
    if s.len() == 0 {
        seq![seq![]]
    } else {
        let rest = split_ws(s.drop_first());
        if is_ws(s[0]) {
            seq![seq![]] + rest
        } else {
            rest.update(0, seq![s[0]] + rest[0])
        }
    }
}

pub proof fn lemma_split_ws_nonempty(s: Seq<char>)
    ensures
        split_ws(s).len() > 0,
    decreases s.len(),
{
    if s.len() > 0 {
        lemma_split_ws_nonempty(s.drop_first());
    }
}

/// The non-empty pieces of `ps`, in order.
pub open spec fn nonempty(ps: Seq<Seq<char>>) -> Seq<Seq<char>>
    decreases ps.len(),
{
    if ps.len() == 0 {
        ps
    } else if ps[0].len() > 0 {
        seq![ps[0]] + nonempty(ps.drop_first())
    } else {
        nonempty(ps.drop_first())
    }
}

/// The words of `s`, as `str::split_whitespace` gives them.
pub open spec fn words(s: Seq<char>) -> Seq<Seq<char>> {
    nonempty(split_ws(s))
}

/// The words of `s` joined by single spaces.
pub open spec fn collapse_ws(s: Seq<char>) -> Seq<char> {
    join(words(s), seq![' '])
}

/// Splits `s` into its words.
pub fn words_of(s: &Vec<char>) -> (r: Vec<Vec<char>>)
    ensures
        views(r@) == words(s@),
{
    let n = s.len();
    let mut parts: Vec<Vec<char>> = Vec::new();
    let mut cur: Vec<char> = Vec::new();
    let mut i: usize = 0;
    proof {
        assert(s@.subrange(0, n as int) == s@);
        lemma_split_ws_nonempty(s@);
        let st = split_ws(s@);
        assert(st == seq![cur@ + st[0]] + st.drop_first());
    }
    while i < n
        invariant
            i <= n == s.len(),
            words(s@) == views(parts@) + nonempty(
                seq![cur@ + split_ws(s@.subrange(i as int, n as int))[0]] + split_ws(
                    s@.subrange(i as int, n as int),
                ).drop_first(),
            ),
        decreases n - i,
    {
        let ghost tail = s@.subrange(i as int, n as int);
        let ghost next = s@.subrange(i + 1, n as int);
        proof {
            assert(tail.drop_first() == next);
            lemma_split_ws_nonempty(next);
        }
        let ghost rest = split_ws(next);
        if is_whitespace(s[i]) {
            proof {
                let x = seq![cur@ + seq![]] + rest;
                assert(cur@ + seq![] == cur@);
                assert(split_ws(tail) == seq![seq![]] + rest);
                assert(split_ws(tail)[0] == Seq::<char>::empty());
                assert(split_ws(tail).drop_first() == rest);
                assert(x[0] == cur@);
                assert(x.drop_first() == rest);
                let y = seq![seq![] + rest[0]] + rest.drop_first();
                assert(seq![] + rest[0] == rest[0]);
                assert(y == rest);
                if cur@.len() > 0 {
                    assert(views(parts@.push(cur)) == views(parts@).push(cur@));
                    assert(views(parts@) + nonempty(x) == views(parts@).push(cur@) + nonempty(
                        rest,
                    ));
                }
            }
            if cur.len() > 0 {
                parts.push(cur);
            }
            cur = Vec::new();
        } else {
            proof {
                assert(split_ws(tail) == rest.update(0, seq![tail[0]] + rest[0]));
                assert(cur@.push(s@[i as int]) + rest[0] == cur@ + (seq![tail[0]] + rest[0]));
                assert(split_ws(tail).drop_first() == rest.drop_first());
            }
            cur.push(s[i]);
        }
        i = i + 1;
    }
    proof {
        assert(s@.subrange(n as int, n as int) == Seq::<char>::empty());
        let x = seq![cur@ + seq![]];
        assert(cur@ + seq![] == cur@);
        assert(x.drop_first() == Seq::<Seq<char>>::empty());
        assert(words(s@) == views(parts@) + nonempty(x));
        assert(x[0] == cur@);
        assert(nonempty(x.drop_first()) == Seq::<Seq<char>>::empty());
        if cur@.len() > 0 {
            assert(seq![cur@] + Seq::<Seq<char>>::empty() == seq![cur@]);
            assert(nonempty(x) == seq![cur@]);
            assert(views(parts@.push(cur)) == views(parts@).push(cur@));
        } else {
            assert(nonempty(x) == Seq::<Seq<char>>::empty());
            assert(views(parts@) + nonempty(x) == views(parts@));
        }
    }
    if cur.len() > 0 {
        parts.push(cur);
    }
    parts
}

/// Collapses each run of whitespace to a single space and drops it at both ends.
pub fn collapse_whitespace(s: &Vec<char>) -> (r: Vec<char>)
    ensures
        r@ == collapse_ws(s@),
{
    let ws = words_of(s);
    let space: Vec<char> = vec![' '];
    proof {
        assert(space@ == seq![' ']);
    }
    join_chars(&ws, &space)
}

/// Whether `c` is an ASCII digit.
pub open spec fn is_digit(c: char) -> bool {
    0x30 <= (c as u32) <= 0x39
}

/// How many ASCII digits `s` starts with.
pub open spec fn digit_run(s: Seq<char>) -> nat
    decreases s.len(),
{
    if s.len() > 0 && is_digit(s[0]) {
        1 + digit_run(s.drop_first())
    } else {
        0
    }
}

/// The length of the citation marker (`[`, one or more ASCII digits, `]`) that
/// `s` starts with, or 0 where none starts there.
pub open spec fn marker_len(s: Seq<char>) -> nat {
    let d = digit_run(s.drop_first());
    if s.len() > 0 && s[0] == '[' && d > 0 && d + 1 < s.len() && s[d + 1 as int] == ']' {
        d + 2
    } else {
        0
    }
}

/// `s` with every citation marker removed, markers found from left to right.
pub open spec fn drop_markers(s: Seq<char>) -> Seq<char>
    decreases s.len(),
{
    if s.len() == 0 {
        s
    } else if marker_len(s) > 0 {
        drop_markers(s.subrange(marker_len(s) as int, s.len() as int))
    } else {
        seq![s[0]] + drop_markers(s.drop_first())
    }
}

/// The regular expression `\[[0-9]+\]`, which matches one citation marker.
pub open spec fn marker_pattern() -> Seq<char> {
    seq!['\\', '[', '[', '0', '-', '9', ']', '+', '\\', ']']
}

/// Relies on `regex::Regex::new` and `Regex::replace_all` with an empty
/// replacement: every non-overlapping match, leftmost first, is removed. For the
/// marker pattern a match is a `[`, the digits that follow it and a `]`.
#[verifier::external_body]
fn regex_remove_all(pattern: &str, text: &str) -> (r: Option<String>)
    ensures
        r is Some || pattern@ != marker_pattern(),
        r is Some && pattern@ == marker_pattern() ==> r->0@ == drop_markers(text@),
{
    match regex::Regex::new(pattern) {
        Ok(re) => Some(re.replace_all(text, "").into_owned()),
        Err(_) => None,
    }
}

/// `s` without its citation markers, its words joined by single spaces.
pub open spec fn strip_refs(s: Seq<char>) -> Seq<char> {
    collapse_ws(drop_markers(s))
}

/// Removes the bracketed numeric citation markers (`[12]`) from `text` and
/// joins the remaining words with single spaces.
pub fn remove_ext_link_ref(text: &str) -> (r: String)
    ensures
        r@ == strip_refs(text@),
{
    let pattern = "\\[[0-9]+\\]";
    proof {
        reveal_strlit("\\[[0-9]+\\]");
        assert(pattern@ == marker_pattern());
    }
    let removed = match regex_remove_all(pattern, text) {
        Some(t) => t,
        None => String::new(),
    };
    let cs = chars_of(removed.as_str());
    let collapsed = collapse_whitespace(&cs);
    string_of(&collapsed)
}

/// `s` in upper case, as `str::to_uppercase` gives it.
pub uninterp spec fn upper_of(s: Seq<char>) -> Seq<char>;

/// Relies on `str::to_uppercase`: the result depends on the characters of `s` alone.
#[verifier::external_body]
pub(crate) fn to_upper(s: &str) -> (r: String)
    ensures
        r@ == upper_of(s@),
{
    s.to_uppercase()
}

/// `s` with every occurrence of the non-empty `from` replaced by `to`, as
/// `str::replace` gives it.
pub open spec fn replaced(s: Seq<char>, from: Seq<char>, to: Seq<char>) -> Seq<char> {
    join(split_on(s, from), to)
}

/// Replaces every occurrence of `from` in `s` by `to`.
pub fn replace_all(s: &str, from: &str, to: &str) -> (r: String)
    requires
        from@.len() > 0,
    ensures
        r@ == replaced(s@, from@, to@),
{
    let parts = split_chars(&chars_of(s), &chars_of(from));
    let joined = join_chars(&parts, &chars_of(to));
    string_of(&joined)
}

/// Each line of `s` trimmed and stripped of citation markers, the lines joined
/// again with `'\n'`.
pub open spec fn lines_stripped(s: Seq<char>) -> Seq<char> {
    join(split_on(s, seq!['\n']).map_values(|l: Seq<char>| strip_refs(trimmed(l))), seq!['\n'])
}

/// Trims each line of `s`, strips its citation markers, and joins the lines with `'\n'`.
pub fn strip_lines(s: &str) -> (r: String)
    ensures
        r@ == lines_stripped(s@),
{
    let nl: Vec<char> = vec!['\n'];
    proof {
        assert(nl@ == seq!['\n']);
    }
    let lines = split_chars(&chars_of(s), &nl);
    let mut out: Vec<Vec<char>> = Vec::new();
    let mut i: usize = 0;
    while i < lines.len()
        invariant
            i <= lines.len(),
            views(out@) == views(lines@.subrange(0, i as int)).map_values(
                |l: Seq<char>| strip_refs(trimmed(l)),
            ),
        decreases lines.len() - i,
    {
        let t = string_of(&trim_chars(&lines[i]));
        let st = chars_of(remove_ext_link_ref(t.as_str()).as_str());
        proof {
            assert(views(out@.push(st)) =~= views(out@).push(st@));
            assert(views(lines@.subrange(0, i + 1)).map_values(
                |l: Seq<char>| strip_refs(trimmed(l)),
            ) =~= views(lines@.subrange(0, i as int)).map_values(
                |l: Seq<char>| strip_refs(trimmed(l)),
            ).push(strip_refs(trimmed(lines@[i as int]@))));
        }
        out.push(st);
        i = i + 1;
    }
    proof {
        assert(lines@.subrange(0, lines@.len() as int) == lines@);
    }
    string_of(&join_chars(&out, &nl))
}

} // verus!
