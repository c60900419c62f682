//! Character-level text operations on `Seq<char>` models of strings.

use vstd::prelude::*;

verus! {

/// Unicode `White_Space` property (PropList.txt).
pub open spec fn is_ws(c: char) -> bool {
    ||| ('\u{9}' <= c && c <= '\u{d}')
    ||| c == ' '
    ||| c == '\u{85}'
    ||| c == '\u{a0}'
    ||| c == '\u{1680}'
    ||| ('\u{2000}' <= c && c <= '\u{200a}')
    ||| c == '\u{2028}'
    ||| c == '\u{2029}'
    ||| c == '\u{202f}'
    ||| c == '\u{205f}'
    ||| c == '\u{3000}'
}

/// Whether `c` has the Unicode `White_Space` property (the characters that
/// `char::is_whitespace` accepts).
pub fn char_is_whitespace(c: char) -> (r: bool)
    ensures
        r == is_ws(c),
{
    ('\u{9}' <= c && c <= '\u{d}') || c == ' ' || c == '\u{85}' || c == '\u{a0}' || c == '\u{1680}'
        || ('\u{2000}' <= c && c <= '\u{200a}') || c == '\u{2028}' || c == '\u{2029}'
        || c == '\u{202f}' || c == '\u{205f}' || c == '\u{3000}'
}

/// `String::push`: appends one character.
#[verifier::external_body]
pub fn push_char(s: &mut String, c: char)
    ensures
        final(s)@ == old(s)@.push(c),
{
    s.push(c)
}

/// The characters of a string slice, in order.
pub fn chars_of(s: &str) -> (v: Vec<char>)
    ensures
        v@ == s@,
{
    let mut v: Vec<char> = Vec::new();
    for c in it: s.chars()
        invariant
            it.seq() == s@,
            v@ == s@.take(it.index() as int),
    {
        v.push(c);
    }
    v
}


/// A string built from a sequence of characters.
pub fn string_of(v: &Vec<char>) -> (s: String)
    ensures
        s@ == v@,
{
    let mut s = String::new();
    let mut i: usize = 0;
    while i < v.len()
        invariant
            i <= v.len(),
            s@ == v@.take(i as int),
        decreases v.len() - i,
    {
        push_char(&mut s, v[i]);
        assert(v@.take(i + 1) == v@.take(i as int).push(v@[i as int]));
        i = i + 1;
    }
    assert(v@.take(v.len() as int) == v@);
    s
}

/// The characters `v[lo..hi]`.
pub fn subvec(v: &Vec<char>, lo: usize, hi: usize) -> (r: Vec<char>)
    requires
        lo <= hi <= v.len(),
    ensures
        r@ == v@.subrange(lo as int, hi as int),
{
    let mut r: Vec<char> = Vec::new();
    let mut i: usize = lo;
    while i < hi
        invariant
            lo <= i <= hi <= v.len(),
            r@ == v@.subrange(lo as int, i as int),
        decreases hi - i,
    {
        r.push(v[i]);
        assert(v@.subrange(lo as int, i + 1) == v@.subrange(lo as int, i as int).push(v@[i as int]));
        i = i + 1;
    }
    r
}

/// `s` without its leading whitespace (`str::trim_start`).
pub open spec fn trim_start_s(s: Seq<char>) -> Seq<char>
    decreases s.len(),
{
    if s.len() > 0 && is_ws(s[0]) {
        trim_start_s(s.drop_first())
    } else {
        s
    }
}

/// `s` without its trailing whitespace (`str::trim_end`).
pub open spec fn trim_end_s(s: Seq<char>) -> Seq<char>
    decreases s.len(),
{
    if s.len() > 0 && is_ws(s.last()) {
        trim_end_s(s.drop_last())
    } else {
        s
    }
}

/// `s` without whitespace at either end (`str::trim`).
pub open spec fn trim_s(s: Seq<char>) -> Seq<char> {
    trim_end_s(trim_start_s(s))
}

proof fn lemma_trim_start_shape(s: Seq<char>)
    ensures
        trim_start_s(s).len() == 0 <==> forall|i: int| 0 <= i < s.len() ==> is_ws(#[trigger] s[i]),
        trim_start_s(s).len() > 0 ==> !is_ws(trim_start_s(s)[0]),
    decreases s.len(),
{
    if s.len() > 0 && is_ws(s[0]) {
        lemma_trim_start_shape(s.drop_first());
        if forall|i: int| 0 <= i < s.drop_first().len() ==> is_ws(#[trigger] s.drop_first()[i]) {
            assert forall|i: int| 0 <= i < s.len() implies is_ws(#[trigger] s[i]) by {
                if i > 0 {
                    assert(s[i] == s.drop_first()[i - 1]);
                }
            }
        }
        if forall|i: int| 0 <= i < s.len() ==> is_ws(#[trigger] s[i]) {
            assert forall|i: int| 0 <= i < s.drop_first().len() implies is_ws(#[trigger] s.drop_first()[i]) by {
                assert(s.drop_first()[i] == s[i + 1]);
            }
        }
    } else if s.len() > 0 {
        assert(!is_ws(s[0]));
    }
}

proof fn lemma_trim_end_empty(s: Seq<char>)
    ensures
        trim_end_s(s).len() == 0 <==> forall|i: int| 0 <= i < s.len() ==> is_ws(#[trigger] s[i]),
    decreases s.len(),
{
    if s.len() > 0 && is_ws(s.last()) {
        lemma_trim_end_empty(s.drop_last());
        if forall|i: int| 0 <= i < s.drop_last().len() ==> is_ws(#[trigger] s.drop_last()[i]) {
            assert forall|i: int| 0 <= i < s.len() implies is_ws(#[trigger] s[i]) by {
                if i < s.len() - 1 {
                    assert(s[i] == s.drop_last()[i]);
                }
            }
        }
        if forall|i: int| 0 <= i < s.len() ==> is_ws(#[trigger] s[i]) {
            assert forall|i: int| 0 <= i < s.drop_last().len() implies is_ws(#[trigger] s.drop_last()[i]) by {
                assert(s.drop_last()[i] == s[i]);
            }
        }
    } else if s.len() > 0 {
        assert(!is_ws(s[s.len() - 1]));
    }
}

/// A text trims to nothing exactly when every character of it is whitespace.
pub proof fn lemma_trim_empty(s: Seq<char>)
    ensures
        trim_s(s).len() == 0 <==> forall|i: int| 0 <= i < s.len() ==> is_ws(#[trigger] s[i]),
{
    let t = trim_start_s(s);
    lemma_trim_start_shape(s);
    lemma_trim_end_empty(t);
    if t.len() > 0 {
        assert(!is_ws(t[0]));
    }
}

proof fn lemma_trim_start_skip(s: Seq<char>, k: int)
    requires
        0 <= k <= s.len(),
        forall|j: int| 0 <= j < k ==> is_ws(#[trigger] s[j]),
    ensures
        trim_start_s(s) == trim_start_s(s.skip(k)),
    decreases k,
{
    if k > 0 {
        assert(s.drop_first().skip(k - 1) == s.skip(k));
        lemma_trim_start_skip(s.drop_first(), k - 1);
    } else {
        assert(s.skip(0) == s);
    }
}

proof fn lemma_trim_end_take(s: Seq<char>, k: int)
    requires
        0 <= k <= s.len(),
        forall|j: int| k <= j < s.len() ==> is_ws(#[trigger] s[j]),
    ensures
        trim_end_s(s) == trim_end_s(s.take(k)),
    decreases s.len() - k,
{
    if k < s.len() {
        assert(s.drop_last().take(k) == s.take(k));
        lemma_trim_end_take(s.drop_last(), k);
    } else {
        assert(s.take(k) == s);
    }
}

/// The characters of `v` from the first non-whitespace one on.
pub fn trim_start(v: &Vec<char>) -> (r: Vec<char>)
    ensures
        r@ == trim_start_s(v@),
{
    let mut i: usize = 0;
    while i < v.len() && char_is_whitespace(v[i])
        invariant
            i <= v.len(),
            forall|j: int| 0 <= j < i ==> is_ws(#[trigger] v@[j]),
        decreases v.len() - i,
    {
        i = i + 1;
    }
    proof {
        lemma_trim_start_skip(v@, i as int);
    }
    subvec(v, i, v.len())
}

/// The characters of `v` up to and including the last non-whitespace one.
pub fn trim_end(v: &Vec<char>) -> (r: Vec<char>)
    ensures
        r@ == trim_end_s(v@),
{
    let mut i: usize = v.len();
    while i > 0 && char_is_whitespace(v[i - 1])
        invariant
            i <= v.len(),
            forall|j: int| i <= j < v.len() ==> is_ws(#[trigger] v@[j]),
        decreases i,
    {
        i = i - 1;
    }
    proof {
        lemma_trim_end_take(v@, i as int);
        assert(v@.take(i as int) == v@.subrange(0, i as int));
    }
    subvec(v, 0, i)
}

/// `v` without whitespace at either end.
pub fn trim(v: &Vec<char>) -> (r: Vec<char>)
    ensures
        r@ == trim_s(v@),
{
    let t = trim_start(v);
    trim_end(&t)
}

/// Whether `s` consists of whitespace only (`s.trim().is_empty()`).
pub fn is_blank(s: &str) -> (b: bool)
    ensures
        b == (trim_s(s@).len() == 0),
{
    let v = chars_of(s);
    let t = trim(&v);
    t.len() == 0
}

/// `needle` occurs in `hay` at position `j`.
pub open spec fn matches_at(hay: Seq<char>, needle: Seq<char>, j: int) -> bool {
    0 <= j && j + needle.len() <= hay.len() && hay.subrange(j, j + needle.len()) == needle
}

/// The first position at or after `i` where `needle` occurs in `hay`.
pub open spec fn find_from(hay: Seq<char>, needle: Seq<char>, i: int) -> Option<int>
    decreases hay.len() + 1 - i,
{
    if i < 0 || i + needle.len() > hay.len() {
        None
    } else if matches_at(hay, needle, i) {
        Some(i)
    } else {
        find_from(hay, needle, i + 1)
    }
}

/// The first position where `needle` occurs in `hay` (`str::find`).
pub open spec fn find_s(hay: Seq<char>, needle: Seq<char>) -> Option<int> {
    find_from(hay, needle, 0)
}

/// `needle` occurs somewhere in `hay` (`str::contains`).
pub open spec fn contains_s(hay: Seq<char>, needle: Seq<char>) -> bool {
    find_s(hay, needle) is Some
}

/// `s` begins with `p` (`str::starts_with`).
pub open spec fn starts_with_s(s: Seq<char>, p: Seq<char>) -> bool {
    p.len() <= s.len() && s.take(p.len() as int) == p
}

/// `s` ends with `p` (`str::ends_with`).
pub open spec fn ends_with_s(s: Seq<char>, p: Seq<char>) -> bool {
    p.len() <= s.len() && s.skip(s.len() - p.len()) == p
}

proof fn lemma_find_from_found(hay: Seq<char>, needle: Seq<char>, i: int)
    requires
        0 <= i,
        find_from(hay, needle, i) is Some,
    ensures
        matches_at(hay, needle, find_from(hay, needle, i)->0),
        i <= find_from(hay, needle, i)->0,
        forall|k: int| i <= k < find_from(hay, needle, i)->0 ==> !matches_at(hay, needle, k),
    decreases hay.len() + 1 - i,
{
    if !matches_at(hay, needle, i) {
        lemma_find_from_found(hay, needle, i + 1);
    }
}

proof fn lemma_find_from_none(hay: Seq<char>, needle: Seq<char>, i: int)
    requires
        0 <= i,
        find_from(hay, needle, i) is None,
    ensures
        forall|k: int| i <= k ==> !matches_at(hay, needle, k),
    decreases hay.len() + 1 - i,
{
    if i + needle.len() <= hay.len() {
        lemma_find_from_none(hay, needle, i + 1);
    }
}

/// A position `j` is where `needle` first occurs in `hay` exactly when
/// `find_s` gives `j`; `find_s` gives none exactly when `needle` never occurs.
pub proof fn lemma_find_s(hay: Seq<char>, needle: Seq<char>)
    ensures
        find_s(hay, needle) is Some ==> {
            let j = find_s(hay, needle)->0;
            &&& matches_at(hay, needle, j)
            &&& forall|k: int| 0 <= k < j ==> !matches_at(hay, needle, k)
        },
        find_s(hay, needle) is None ==> forall|k: int| !matches_at(hay, needle, k),
{
    if find_s(hay, needle) is Some {
        lemma_find_from_found(hay, needle, 0);
    } else {
        lemma_find_from_none(hay, needle, 0);
    }
}

/// Whether `hay[i..]` begins with `needle`.
fn matches_at_exec(hay: &Vec<char>, needle: &Vec<char>, i: usize) -> (b: bool)
    requires
        i + needle.len() <= hay.len(),
    ensures
        b == matches_at(hay@, needle@, i as int),
{
    let mut k: usize = 0;
    while k < needle.len()
        invariant
            k <= needle.len(),
            i + needle.len() <= hay.len(),
            forall|m: int| 0 <= m < k ==> hay@[i + m] == needle@[m],
        decreases needle.len() - k,
    {
        if hay[i + k] != needle[k] {
            assert(hay@.subrange(i as int, i + needle.len())[k as int] != needle@[k as int]);
            return false;
        }
        k = k + 1;
    }
    assert(hay@.subrange(i as int, i + needle.len()) == needle@);
    true
}

/// The first position where `needle` occurs in `hay`.
pub fn find(hay: &Vec<char>, needle: &Vec<char>) -> (r: Option<usize>)
    ensures
        r matches Some(i) ==> find_s(hay@, needle@) == Some(i as int),
        r is None ==> find_s(hay@, needle@) is None,
{
    if needle.len() > hay.len() {
        return None;
    }
    if needle.len() == 0 {
        assert(hay@.subrange(0, 0) == needle@);
        return Some(0);
    }
    let last: usize = hay.len() - needle.len();
    let mut i: usize = 0;
    while i <= last
        invariant
            0 < needle.len() <= hay.len(),
            last == hay.len() - needle.len(),
            i <= last + 1,
            find_s(hay@, needle@) == find_from(hay@, needle@, i as int),
        decreases last + 1 - i,
    {
        if matches_at_exec(hay, needle, i) {
            return Some(i);
        }
        i = i + 1;
    }
    None
}

/// Whether `needle` occurs in `hay`.
pub fn contains(hay: &Vec<char>, needle: &Vec<char>) -> (b: bool)
    ensures
        b == contains_s(hay@, needle@),
{
    find(hay, needle).is_some()
}

/// Whether `s` begins with `p`.
pub fn starts_with(s: &Vec<char>, p: &Vec<char>) -> (b: bool)
    ensures
        b == starts_with_s(s@, p@),
{
    if p.len() > s.len() {
        return false;
    }
    let b = matches_at_exec(s, p, 0);
    assert(s@.take(p.len() as int) == s@.subrange(0, p.len() as int));
    b
}

/// Whether `s` ends with `p`.
pub fn ends_with(s: &Vec<char>, p: &Vec<char>) -> (b: bool)
    ensures
        b == ends_with_s(s@, p@),
{
    if p.len() > s.len() {
        return false;
    }
    let b = matches_at_exec(s, p, s.len() - p.len());
    assert(s@.skip(s.len() - p.len()) == s@.subrange(s.len() - p.len(), s.len() as int));
    b
}


/// Appends the characters of `t` to `s`.
pub fn push_chars(s: &mut String, t: &Vec<char>)
    ensures
        final(s)@ == old(s)@ + t@,
{
    let mut i: usize = 0;
    while i < t.len()
        invariant
            i <= t.len(),
            s@ == old(s)@ + t@.take(i as int),
        decreases t.len() - i,
    {
        push_char(s, t[i]);
        assert(t@.take(i + 1) == t@.take(i as int).push(t@[i as int]));
        i = i + 1;
    }
    assert(t@.take(t.len() as int) == t@);
}

/// Appends the characters of `t` to `s` (`String::push_str`).
pub fn push_str(s: &mut String, t: &str)
    ensures
        final(s)@ == old(s)@ + t@,
{
    let v = chars_of(t);
    push_chars(s, &v);
}

/// The view of an optional string.
pub open spec fn opt_string_view(o: Option<String>) -> Option<Seq<char>> {
    match o {
        Some(s) => Some(s@),
        None => None,
    }
}

/// The full Unicode lower-case mapping of a string, as `str::to_lowercase`
/// computes it.
pub uninterp spec fn lowercase(s: Seq<char>) -> Seq<char>;

/// `str::to_lowercase`: its result is `lowercase` of the argument, a function
/// of the argument's characters alone.
#[verifier::external_body]
pub fn to_lowercase(s: &str) -> (r: String)
    ensures
        r@ == lowercase(s@),
{
    s.to_lowercase()
}

/// The views of a sequence of character vectors.
pub open spec fn char_views(vs: Seq<Vec<char>>) -> Seq<Seq<char>> {
    vs.map_values(|v: Vec<char>| v@)
}

/// The views of a sequence of strings.
pub open spec fn string_views(vs: Seq<String>) -> Seq<Seq<char>> {
    vs.map_values(|v: String| v@)
}

/// A line without the `'\r'` that ends it, if any.
pub open spec fn strip_cr(l: Seq<char>) -> Seq<char> {
    if l.len() > 0 && l.last() == '\r' {
        l.drop_last()
    } else {
        l
    }
}

/// Reading `s` from the start: the lines already ended by `'\n'`, and the
/// characters of the line still open.
pub open spec fn scan_lines(s: Seq<char>) -> (Seq<Seq<char>>, Seq<char>)
    decreases s.len(),
{
    if s.len() == 0 {
        (Seq::empty(), Seq::empty())
    } else {
        let (done, cur) = scan_lines(s.drop_last());
        if s.last() == '\n' {
            (done.push(strip_cr(cur)), Seq::empty())
        } else {
            (done, cur.push(s.last()))
        }
    }
}

/// The lines of `s` (`str::lines`): split at `'\n'`, each line without a
/// `'\r'` just before its `'\n'`; a final line ending adds no empty line.
pub open spec fn lines_s(s: Seq<char>) -> Seq<Seq<char>> {
    let (done, cur) = scan_lines(s);
    if cur.len() == 0 {
        done
    } else {
        done.push(cur)
    }
}

/// The lines of `v`.
pub fn lines(v: &Vec<char>) -> (r: Vec<Vec<char>>)
    ensures
        char_views(r@) == lines_s(v@),
{
    let mut done: Vec<Vec<char>> = Vec::new();
    let mut cur: Vec<char> = Vec::new();
    let mut i: usize = 0;
    while i < v.len()
        invariant
            i <= v.len(),
            (char_views(done@), cur@) == scan_lines(v@.take(i as int)),
        decreases v.len() - i,
    {
        let c = v[i];
        assert(v@.take(i + 1).drop_last() == v@.take(i as int));
        if c == '\n' {
            if cur.len() > 0 && cur[cur.len() - 1] == '\r' {
                cur.pop();
            }
            let line = cur;
            cur = Vec::new();
            let ghost before = done@;
            done.push(line);
            assert(char_views(done@) == char_views(before).push(line@));
        } else {
            cur.push(c);
        }
        i = i + 1;
    }
    assert(v@.take(v.len() as int) == v@);
    if cur.len() > 0 {
        let ghost before = done@;
        done.push(cur);
        assert(char_views(done@) == char_views(before).push(cur@));
    }
    done
}

/// ASCII lower-casing of one character (`char::to_ascii_lowercase`).
pub open spec fn ascii_lower_c(c: char) -> char {
    if 'A' <= c && c <= 'Z' {
        ((c as u32) + 32) as char
    } else {
        c
    }
}

/// ASCII lower-casing of a string (`str::to_ascii_lowercase`).
pub open spec fn ascii_lower_s(s: Seq<char>) -> Seq<char> {
    s.map_values(|c: char| ascii_lower_c(c))
}

/// ASCII lower-casing of `v`.
pub fn ascii_lower(v: &Vec<char>) -> (r: Vec<char>)
    ensures
        r@ == ascii_lower_s(v@),
{
    let mut r: Vec<char> = Vec::new();
    let mut i: usize = 0;
    while i < v.len()
        invariant
            i <= v.len(),
            r@ == ascii_lower_s(v@.take(i as int)),
        decreases v.len() - i,
    {
        let c = v[i];
        let l = if 'A' <= c && c <= 'Z' {
            ((c as u8) + 32) as char
        } else {
            c
        };
        assert(l == ascii_lower_c(c));
        r.push(l);
        assert(ascii_lower_s(v@.take(i + 1)) == ascii_lower_s(v@.take(i as int)).push(l));
        i = i + 1;
    }
    assert(v@.take(v.len() as int) == v@);
    r
}

/// The decimal digit `d` (`d < 10`).
pub open spec fn digit_c(d: nat) -> char {
    if d == 0 { '0' }
    else if d == 1 { '1' }
    else if d == 2 { '2' }
    else if d == 3 { '3' }
    else if d == 4 { '4' }
    else if d == 5 { '5' }
    else if d == 6 { '6' }
    else if d == 7 { '7' }
    else if d == 8 { '8' }
    else { '9' }
}

/// The decimal representation of `n`, without leading zeros.
pub open spec fn decimal_s(n: nat) -> Seq<char>
    decreases n,
{
    if n < 10 {
        seq![digit_c(n)]
    } else {
        decimal_s(n / 10).push(digit_c(n % 10))
    }
}

fn digit_char(d: u64) -> (c: char)
    requires
        d < 10,
    ensures
        c == digit_c(d as nat),
{
    if d == 0 { '0' }
    else if d == 1 { '1' }
    else if d == 2 { '2' }
    else if d == 3 { '3' }
    else if d == 4 { '4' }
    else if d == 5 { '5' }
    else if d == 6 { '6' }
    else if d == 7 { '7' }
    else if d == 8 { '8' }
    else { '9' }
}

/// Appends the decimal representation of `n` to `s`.
pub fn push_decimal(s: &mut String, n: u64)
    ensures
        final(s)@ == old(s)@ + decimal_s(n as nat),
    decreases n,
{
    if n >= 10 {
        push_decimal(s, n / 10);
    }
    let c = digit_char(n % 10);
    push_char(s, c);
}

/// The parts joined with `sep` between each two (`[String]::join`).
pub open spec fn join_s(parts: Seq<Seq<char>>, sep: Seq<char>) -> Seq<char>
    decreases parts.len(),
{
    if parts.len() == 0 {
        Seq::empty()
    } else if parts.len() == 1 {
        parts[0]
    } else {
        join_s(parts.drop_last(), sep) + sep + parts.last()
    }
}

/// The strings of `parts` joined with `sep` between each two.
pub fn join(parts: &Vec<String>, sep: &str) -> (r: String)
    ensures
        r@ == join_s(string_views(parts@), sep@),
{
    let mut r = String::new();
    let mut i: usize = 0;
    while i < parts.len()
        invariant
            i <= parts.len(),
            r@ == join_s(string_views(parts@.take(i as int)), sep@),
        decreases parts.len() - i,
    {
        let ghost prev = string_views(parts@.take(i as int));
        if i > 0 {
            push_str(&mut r, sep);
        }
        push_str(&mut r, parts[i].as_str());
        assert(string_views(parts@.take(i + 1)).drop_last() == prev);
        assert(string_views(parts@.take(i + 1)).last() == parts@[i as int]@);
        if i == 0 {
            assert(string_views(parts@.take(1)) == seq![parts@[0]@]);
        }
        i = i + 1;
    }
    assert(parts@.take(parts.len() as int) == parts@);
    r
}


/// `s` without the prefix `p`, when it begins with it (`str::strip_prefix`).
pub open spec fn strip_prefix_s(s: Seq<char>, p: Seq<char>) -> Option<Seq<char>> {
    if starts_with_s(s, p) {
        Some(s.skip(p.len() as int))
    } else {
        None
    }
}

/// `s` without the prefix `p`, when it begins with it.
pub fn strip_prefix(s: &Vec<char>, p: &str) -> (r: Option<Vec<char>>)
    ensures
        match r {
            Some(v) => strip_prefix_s(s@, p@) == Some(v@),
            None => strip_prefix_s(s@, p@) is None,
        },
{
    let pv = chars_of(p);
    if starts_with(s, &pv) {
        let v = subvec(s, pv.len(), s.len());
        assert(v@ == s@.skip(pv.len() as int));
        Some(v)
    } else {
        None
    }
}

/// The parts of `s` before and after the first occurrence of `pat`
/// (`str::split_once`).
pub open spec fn split_once_s(s: Seq<char>, pat: Seq<char>) -> Option<(Seq<char>, Seq<char>)> {
    match find_s(s, pat) {
        Some(i) => Some((s.take(i), s.skip(i + pat.len()))),
        None => None,
    }
}

/// The parts of `s` before and after the first occurrence of `pat`.
pub fn split_once(s: &Vec<char>, pat: &str) -> (r: Option<(Vec<char>, Vec<char>)>)
    ensures
        match r {
            Some((a, b)) => split_once_s(s@, pat@) == Some((a@, b@)),
            None => split_once_s(s@, pat@) is None,
        },
{
    let pv = chars_of(pat);
    match find(s, &pv) {
        Some(i) => {
            proof {
                lemma_find_s(s@, pv@);
            }
            assert(matches_at(s@, pv@, i as int));
            assert(i + pv@.len() <= s@.len());
            assert(i + pv.len() <= s.len());
            let a = subvec(s, 0, i);
            let b = subvec(s, i + pv.len(), s.len());
            assert(a@ == s@.take(i as int));
            assert(b@ == s@.skip(i + pv.len()));
            Some((a, b))
        },
        None => None,
    }
}

/// `s` without every trailing `c` (`str::trim_end_matches` with a character).
pub open spec fn trim_end_char_s(s: Seq<char>, c: char) -> Seq<char>
    decreases s.len(),
{
    if s.len() > 0 && s.last() == c {
        trim_end_char_s(s.drop_last(), c)
    } else {
        s
    }
}

/// `v` without every trailing `c`.
pub fn trim_end_char(v: &Vec<char>, c: char) -> (r: Vec<char>)
    ensures
        r@ == trim_end_char_s(v@, c),
{
    let mut r = subvec(v, 0, v.len());
    assert(v@.subrange(0, v.len() as int) == v@);
    while r.len() > 0 && r[r.len() - 1] == c
        invariant
            trim_end_char_s(r@, c) == trim_end_char_s(v@, c),
        decreases r.len(),
    {
        let ghost before = r@;
        r.pop();
        assert(r@ == before.drop_last());
    }
    r
}

/// Whether `v` holds exactly the characters of `s`.
pub fn eq_str(v: &Vec<char>, s: &str) -> (b: bool)
    ensures
        b == (v@ == s@),
{
    let w = chars_of(s);
    if v.len() != w.len() {
        return false;
    }
    let mut i: usize = 0;
    while i < v.len()
        invariant
            i <= v.len(),
            v.len() == w.len(),
            w@ == s@,
            forall|j: int| 0 <= j < i ==> v@[j] == w@[j],
        decreases v.len() - i,
    {
        if v[i] != w[i] {
            assert(v@[i as int] != w@[i as int]);
            return false;
        }
        i = i + 1;
    }
    assert(v@ == w@);
    true
}

/// The Unicode `Uppercase` property of a character, as `char::is_uppercase`
/// computes it.
pub uninterp spec fn is_upper(c: char) -> bool;

/// `char::is_uppercase`: its result is `is_upper` of the character.
#[verifier::external_body]
pub fn char_is_uppercase(c: char) -> (r: bool)
    ensures
        r == is_upper(c),
{
    c.is_uppercase()
}

} // verus!
