//! Character-level string model shared by the rest of the library.
use vstd::prelude::*;

verus! {

/// Unicode `White_Space` code points, as `char::is_whitespace` recognises them.
pub open spec fn is_white_space(c: char) -> bool {
    ||| ('\u{9}' <= c && c <= '\u{d}')
    ||| c == ' '
    ||| c == '\u{85}'
    ||| c == '\u{a0}'
    ||| c == '\u{1680}'
    ||| ('\u{2000}' <= c && c <= '\u{200a}')
    ||| c == '\u{2028}'
    ||| c == '\u{2029}'
    ||| c == '\u{202f}'
    ||| c == '\u{205f}'
    ||| c == '\u{3000}'
}

/// Whether `c` is Unicode white space, as `char::is_whitespace` decides it.
pub(crate) fn char_is_whitespace(c: char) -> (r: bool)
    ensures
        r == is_white_space(c),
{
    let tab_to_carriage_return = '\u{9}' <= c && c <= '\u{d}';
    let en_quad_to_hair_space = '\u{2000}' <= c && c <= '\u{200a}';
    tab_to_carriage_return || en_quad_to_hair_space || c == ' ' || c == '\u{85}' || c == '\u{a0}'
        || c == '\u{1680}' || c == '\u{2028}' || c == '\u{2029}' || c == '\u{202f}' || c == '\u{205f}'
        || c == '\u{3000}'
}

/// `String::push` from std: appends one character.
#[verifier::external_body]
pub(crate) fn push_char(s: &mut String, c: char)
    ensures
        final(s)@ == old(s)@.push(c),
{
    s.push(c)
}

/// The sequence without leading whitespace.
pub open spec fn trim_start(s: Seq<char>) -> Seq<char>
    decreases s.len(),
{
    if s.len() > 0 && is_white_space(s[0]) {
        trim_start(s.drop_first())
    } else {
        s
    }
}

/// The sequence without trailing whitespace.
pub open spec fn trim_end(s: Seq<char>) -> Seq<char>
    decreases s.len(),
{
    if s.len() > 0 && is_white_space(s.last()) {
        trim_end(s.drop_last())
    } else {
        s
    }
}

/// The sequence without leading and trailing whitespace (`str::trim`).
pub open spec fn trim(s: Seq<char>) -> Seq<char> {
    trim_end(trim_start(s))
}

/// The sequence without any trailing copy of `c` (`str::trim_end_matches` with a char).
pub open spec fn trim_end_char(s: Seq<char>, c: char) -> Seq<char>
    decreases s.len(),
{
    if s.len() > 0 && s.last() == c {
        trim_end_char(s.drop_last(), c)
    } else {
        s
    }
}

/// ASCII upper-case letters map to lower case; every other char is kept.
pub open spec fn ascii_lower_char(c: char) -> char {
    if 'A' <= c && c <= 'Z' {
        ((c as u32) + 32) as char
    } else {
        c
    }
}

/// `str::to_ascii_lowercase` on a character sequence.
pub open spec fn ascii_lower(s: Seq<char>) -> Seq<char> {
    s.map_values(|c: char| ascii_lower_char(c))
}

/// The character for a decimal digit.
pub open spec fn digit_char(d: nat) -> char {
    (('0' as u32) + d) as char
}

/// Decimal representation of a natural number.
pub open spec fn nat_decimal(n: nat) -> Seq<char>
    decreases n,
{
    if n < 10 {
        seq![digit_char(n)]
    } else {
        nat_decimal(n / 10).push(digit_char(n % 10))
    }
}

/// Decimal representation of an integer, as `Display` prints it.
pub open spec fn int_decimal(n: int) -> Seq<char> {
    if n < 0 {
        seq!['-'] + nat_decimal((-n) as nat)
    } else {
        nat_decimal(n as nat)
    }
}

/// Whether `needle` occurs in `hay` starting exactly at `i`.
pub open spec fn occurs_at(hay: Seq<char>, needle: Seq<char>, i: int) -> bool {
    0 <= i && i + needle.len() <= hay.len() && hay.subrange(i, i + needle.len()) == needle
}

/// The first position at or after `from` where `needle` occurs.
pub open spec fn find_from(hay: Seq<char>, needle: Seq<char>, from: int) -> Option<int>
    decreases hay.len() + 1 - from,
{
    if from < 0 || from > hay.len() || from + needle.len() > hay.len() {
        None
    } else if occurs_at(hay, needle, from) {
        Some(from)
    } else {
        find_from(hay, needle, from + 1)
    }
}

/// Whether `needle` occurs anywhere in `hay` (`str::contains`).
pub open spec fn contains_seq(hay: Seq<char>, needle: Seq<char>) -> bool {
    exists|i: int| occurs_at(hay, needle, i)
}

/// The last position strictly before `before` that holds `c` (`str::rfind` on a prefix).
pub open spec fn rfind_char(hay: Seq<char>, c: char, before: int) -> Option<int>
    decreases before,
{
    if before <= 0 || before > hay.len() {
        None
    } else if hay[before - 1] == c {
        Some(before - 1)
    } else {
        rfind_char(hay, c, before - 1)
    }
}

/// All characters of a string slice, in order.
pub fn chars_of(s: &str) -> (v: Vec<char>)
    ensures
        v@ == s@,
{
    let mut v: Vec<char> = Vec::new();
    for c in it: s.chars()
        invariant
            it.seq() == s@,
            v@ == it.seq().take(it.index()),
    {
        v.push(c);
    }
    v
}

/// A string holding the characters `v[from..to]`.
pub fn string_of_range(v: &[char], from: usize, to: usize) -> (s: String)
    requires
        from <= to <= v@.len(),
    ensures
        s@ == v@.subrange(from as int, to as int),
{
    let mut s = String::new();
    let mut i = from;
    while i < to
        invariant
            from <= i <= to <= v@.len(),
            s@ == v@.subrange(from as int, i as int),
        decreases to - i,
    {
        push_char(&mut s, v[i]);
        i += 1;
        assert(s@ =~= v@.subrange(from as int, i as int));
    }
    s
}

/// A string holding exactly the characters of `v`.
pub fn string_of(v: &[char]) -> (s: String)
    ensures
        s@ == v@,
{
    let s = string_of_range(v, 0, v.len());
    assert(v@.subrange(0, v@.len() as int) =~= v@);
    s
}

/// Appends every character of `extra` to `s`.
pub fn push_str(s: &mut String, extra: &str)
    ensures
        final(s)@ == old(s)@ + extra@,
{
    let cs = chars_of(extra);
    let ghost start = s@;
    let mut i: usize = 0;
    while i < cs.len()
        invariant
            cs@ == extra@,
            i <= cs@.len(),
            s@ == start + cs@.take(i as int),
        decreases cs.len() - i,
    {
        push_char(s, cs[i]);
        i += 1;
        assert(s@ =~= start + cs@.take(i as int));
    }
    assert(cs@.take(cs@.len() as int) =~= cs@);
}

/// Position range `[start, end)` of `v` that remains after trimming whitespace at both ends.
pub fn trim_bounds(v: &[char]) -> (r: (usize, usize))
    ensures
        r.0 <= r.1 <= v@.len(),
        v@.subrange(r.0 as int, r.1 as int) == trim(v@),
{
    let mut start: usize = 0;
    assert(v@.subrange(0, v@.len() as int) =~= v@);
    while start < v.len() && char_is_whitespace(v[start])
        invariant
            start <= v@.len(),
            trim_start(v@) == trim_start(v@.subrange(start as int, v@.len() as int)),
        decreases v.len() - start,
    {
        let ghost rest = v@.subrange(start as int, v@.len() as int);
        assert(rest.drop_first() =~= v@.subrange(start + 1, v@.len() as int));
        start += 1;
    }
    let ghost ts = v@.subrange(start as int, v@.len() as int);
    assert(trim_start(v@) == ts);
    let mut end: usize = v.len();
    while end > start && char_is_whitespace(v[end - 1])
        invariant
            start <= end <= v@.len(),
            trim_start(v@) == ts,
            ts == v@.subrange(start as int, v@.len() as int),
            trim_end(ts) == trim_end(v@.subrange(start as int, end as int)),
        decreases end - start,
    {
        let ghost cur = v@.subrange(start as int, end as int);
        assert(cur.drop_last() =~= v@.subrange(start as int, end - 1));
        end -= 1;
    }
    (start, end)
}

/// `str::trim` producing an owned string.
pub fn trim_str(s: &str) -> (r: String)
    ensures
        r@ == trim(s@),
{
    let v = chars_of(s);
    let (a, b) = trim_bounds(&v);
    string_of_range(&v, a, b)
}

/// Whether the trimmed string is empty, i.e. `s.trim().is_empty()`.
pub fn is_blank(s: &str) -> (r: bool)
    ensures
        r == (trim(s@).len() == 0),
{
    let v = chars_of(s);
    let (a, b) = trim_bounds(&v);
    a == b
}

/// `char::to_ascii_lowercase`.
pub fn lower_ascii_char(c: char) -> (r: char)
    ensures
        r == ascii_lower_char(c),
{
    if 'A' <= c && c <= 'Z' {
        let u: u32 = c as u32;
        let l: u8 = (u + 32) as u8;
        l as char
    } else {
        c
    }
}

/// `str::to_ascii_lowercase` over a character vector.
pub fn lower_ascii_chars(v: &[char]) -> (r: Vec<char>)
    ensures
        r@ == ascii_lower(v@),
{
    let mut r: Vec<char> = Vec::new();
    let mut i: usize = 0;
    while i < v.len()
        invariant
            i <= v@.len(),
            r@ == ascii_lower(v@.take(i as int)),
        decreases v.len() - i,
    {
        r.push(lower_ascii_char(v[i]));
        i += 1;
        assert(r@ =~= ascii_lower(v@.take(i as int)));
    }
    assert(v@.take(v@.len() as int) =~= v@);
    r
}

/// `str::to_ascii_lowercase` producing an owned string.
pub fn lower_ascii_str(s: &str) -> (r: String)
    ensures
        r@ == ascii_lower(s@),
{
    let v = chars_of(s);
    let l = lower_ascii_chars(&v);
    string_of(&l)
}

proof fn lemma_nat_decimal_len(n: nat)
    ensures
        nat_decimal(n).len() >= 1,
    decreases n,
{
    if n >= 10 {
        lemma_nat_decimal_len(n / 10);
    }
}

/// Appends the decimal digits of `n`.
pub fn push_decimal(out: &mut String, n: u64)
    ensures
        final(out)@ == old(out)@ + nat_decimal(n as nat),
    decreases n,
{
    if n >= 10 {
        push_decimal(out, n / 10);
    }
    let d: u8 = (n % 10) as u8;
    let c: char = (48u8 + d) as char;
    assert(c == digit_char((n % 10) as nat));
    push_char(out, c);
    proof {
        if n >= 10 {
            assert(out@ =~= old(out)@ + nat_decimal(n as nat));
        } else {
            assert(out@ =~= old(out)@ + nat_decimal(n as nat));
        }
    }
}

/// Appends `n` as `Display` prints an `i64`.
pub fn push_i64(out: &mut String, n: i64)
    ensures
        final(out)@ == old(out)@ + int_decimal(n as int),
{
    if n < 0 {
        push_char(out, '-');
        let m: u64 = (-(n as i128)) as u64;
        push_decimal(out, m);
        assert(out@ =~= old(out)@ + int_decimal(n as int));
    } else {
        push_decimal(out, n as u64);
    }
}

/// `i64::to_string`.
pub fn i64_string(n: i64) -> (r: String)
    ensures
        r@ == int_decimal(n as int),
{
    let mut s = String::new();
    push_i64(&mut s, n);
    assert(s@ =~= int_decimal(n as int));
    s
}

} // verus!

verus! {

/// The first position at or after `from` that holds `c` (`str::find` with a char).
pub open spec fn find_char(s: Seq<char>, c: char, from: int) -> Option<int>
    decreases s.len() - from,
{
    if from < 0 || from >= s.len() {
        None
    } else if s[from] == c {
        Some(from)
    } else {
        find_char(s, c, from + 1)
    }
}

/// Bounds of a `find_char` result.
pub proof fn lemma_find_char_bounds(s: Seq<char>, c: char, from: int)
    ensures
        find_char(s, c, from) matches Some(k) ==> from <= k < s.len() && s[k] == c,
    decreases s.len() - from,
{
    if 0 <= from < s.len() && s[from] != c {
        lemma_find_char_bounds(s, c, from + 1);
    }
}

/// Executable `find_char`.
pub fn find_char_in(v: &[char], c: char, from: usize) -> (r: Option<usize>)
    ensures
        match r {
            Some(k) => find_char(v@, c, from as int) == Some(k as int),
            None => find_char(v@, c, from as int) is None,
        },
{
    let mut i = from;
    while i < v.len()
        invariant
            from <= i,
            find_char(v@, c, from as int) == find_char(v@, c, i as int),
        decreases v.len() - i,
    {
        if v[i] == c {
            return Some(i);
        }
        i += 1;
    }
    None
}

/// Whether `v` holds exactly the characters of `lit`.
pub fn chars_eq_str(v: &[char], lit: &str) -> (r: bool)
    ensures
        r == (v@ == lit@),
{
    let w = chars_of(lit);
    if v.len() != w.len() {
        return false;
    }
    let mut i: usize = 0;
    while i < v.len()
        invariant
            v@.len() == w@.len(),
            w@ == lit@,
            i <= v@.len(),
            forall|j: int| 0 <= j < i ==> v@[j] == w@[j],
        decreases v.len() - i,
    {
        if v[i] != w[i] {
            return false;
        }
        i += 1;
    }
    assert(v@ =~= w@);
    true
}

} // verus!

verus! {

/// Whether `needle` occurs in `v` at position `i`.
pub fn occurs_at_exec(v: &[char], needle: &[char], i: usize) -> (r: bool)
    ensures
        r == occurs_at(v@, needle@, i as int),
{
    if i > v.len() || needle.len() > v.len() - i {
        return false;
    }
    let mut j: usize = 0;
    while j < needle.len()
        invariant
            i + needle.len() <= v.len(),
            j <= needle@.len(),
            forall|k: int| 0 <= k < j ==> v@[i + k] == needle@[k],
        decreases needle.len() - j,
    {
        if v[i + j] != needle[j] {
            assert(v@.subrange(i as int, i + needle@.len())[j as int] != needle@[j as int]);
            return false;
        }
        j += 1;
    }
    assert(v@.subrange(i as int, i + needle@.len()) =~= needle@);
    true
}

/// Executable `find_from`.
pub fn find_seq(v: &[char], needle: &[char], from: usize) -> (r: Option<usize>)
    ensures
        match r {
            Some(k) => find_from(v@, needle@, from as int) == Some(k as int),
            None => find_from(v@, needle@, from as int) is None,
        },
{
    let mut i = from;
    while i <= v.len() && needle.len() <= v.len() - i
        invariant
            from <= i,
            find_from(v@, needle@, from as int) == find_from(v@, needle@, i as int),
        decreases v.len() + 1 - i,
    {
        if occurs_at_exec(v, needle, i) {
            return Some(i);
        }
        if i == v.len() {
            proof {
                if needle@.len() == 0 {
                    assert(v@.subrange(i as int, i as int) =~= needle@);
                }
            }
            return None;
        }
        i += 1;
    }
    None
}

/// Bounds of a `find_from` result.
pub proof fn lemma_find_from_bounds(hay: Seq<char>, needle: Seq<char>, from: int)
    ensures
        find_from(hay, needle, from) matches Some(k) ==> from <= k && occurs_at(hay, needle, k),
    decreases hay.len() + 1 - from,
{
    if !(from < 0 || from > hay.len() || from + needle.len() > hay.len()) && !occurs_at(
        hay,
        needle,
        from,
    ) {
        lemma_find_from_bounds(hay, needle, from + 1);
    }
}

/// Bounds of a `rfind_char` result.
pub proof fn lemma_rfind_char_bounds(hay: Seq<char>, c: char, before: int)
    ensures
        rfind_char(hay, c, before) matches Some(k) ==> 0 <= k < before && hay[k] == c,
    decreases before,
{
    if 0 < before <= hay.len() && hay[before - 1] != c {
        lemma_rfind_char_bounds(hay, c, before - 1);
    }
}

/// Executable `rfind_char`.
pub fn rfind_char_in(v: &[char], c: char, before: usize) -> (r: Option<usize>)
    ensures
        match r {
            Some(k) => rfind_char(v@, c, before as int) == Some(k as int),
            None => rfind_char(v@, c, before as int) is None,
        },
{
    if before > v.len() {
        return None;
    }
    let mut i = before;
    while i > 0
        invariant
            i <= before <= v@.len(),
            rfind_char(v@, c, before as int) == rfind_char(v@, c, i as int),
        decreases i,
    {
        if v[i - 1] == c {
            return Some(i - 1);
        }
        i -= 1;
    }
    None
}

/// The last position `k <= upto` where `needle` occurs (`str::rfind` with a string).
pub open spec fn rfind_seq(hay: Seq<char>, needle: Seq<char>, upto: int) -> Option<int>
    decreases upto + 1,
{
    if upto < 0 {
        None
    } else if occurs_at(hay, needle, upto) {
        Some(upto)
    } else {
        rfind_seq(hay, needle, upto - 1)
    }
}

/// Executable `rfind_seq` over the whole of `v`.
pub fn rfind_seq_in(v: &[char], needle: &[char]) -> (r: Option<usize>)
    ensures
        match r {
            Some(k) => rfind_seq(v@, needle@, v@.len() as int) == Some(k as int),
            None => rfind_seq(v@, needle@, v@.len() as int) is None,
        },
{
    let mut i: usize = v.len();
    loop
        invariant
            i <= v@.len(),
            rfind_seq(v@, needle@, v@.len() as int) == rfind_seq(v@, needle@, i as int),
        decreases i,
    {
        if occurs_at_exec(v, needle, i) {
            return Some(i);
        }
        if i == 0 {
            assert(rfind_seq(v@, needle@, -1) is None);
            return None;
        }
        i -= 1;
    }
}

/// The first whitespace-separated word (`split_whitespace().next()`), if any.
pub open spec fn first_word(s: Seq<char>) -> Option<Seq<char>> {
    let t = trim_start(s);
    if t.len() == 0 {
        None
    } else {
        Some(t.take(word_end(t, 0)))
    }
}

/// The first position at or after `i` that holds whitespace, or the end.
pub open spec fn word_end(s: Seq<char>, i: int) -> int
    decreases s.len() - i,
{
    if i < 0 || i >= s.len() {
        s.len() as int
    } else if is_white_space(s[i]) {
        i
    } else {
        word_end(s, i + 1)
    }
}

/// `trim_matches(c)`: drops every leading and trailing `c`.
pub open spec fn trim_char(s: Seq<char>, c: char) -> Seq<char> {
    trim_end_char(trim_start_char(s, c), c)
}

/// Drops every leading `c`.
pub open spec fn trim_start_char(s: Seq<char>, c: char) -> Seq<char>
    decreases s.len(),
{
    if s.len() > 0 && s[0] == c {
        trim_start_char(s.drop_first(), c)
    } else {
        s
    }
}

/// Executable `first_word`, returned as a range of `v`.
pub fn first_word_bounds(v: &[char]) -> (r: Option<(usize, usize)>)
    ensures
        match r {
            Some((a, b)) => a <= b <= v@.len() && first_word(v@) == Some(
                v@.subrange(a as int, b as int),
            ),
            None => first_word(v@) is None,
        },
{
    let mut start: usize = 0;
    assert(v@.subrange(0, v@.len() as int) =~= v@);
    while start < v.len() && char_is_whitespace(v[start])
        invariant
            start <= v@.len(),
            trim_start(v@) == trim_start(v@.subrange(start as int, v@.len() as int)),
        decreases v.len() - start,
    {
        let ghost rest = v@.subrange(start as int, v@.len() as int);
        assert(rest.drop_first() =~= v@.subrange(start + 1, v@.len() as int));
        start += 1;
    }
    let ghost t = v@.subrange(start as int, v@.len() as int);
    assert(trim_start(v@) == t);
    if start == v.len() {
        return None;
    }
    let mut end = start;
    while end < v.len() && !char_is_whitespace(v[end])
        invariant
            start <= end <= v@.len(),
            t == v@.subrange(start as int, v@.len() as int),
            word_end(t, 0) == word_end(t, end - start),
        decreases v.len() - end,
    {
        end += 1;
    }
    assert(t.take(word_end(t, 0)) =~= v@.subrange(start as int, end as int));
    Some((start, end))
}

/// Executable `trim_char`, returned as a range of `v[a..b]`.
pub fn trim_char_bounds(v: &[char], a: usize, b: usize, c: char) -> (r: (usize, usize))
    requires
        a <= b <= v@.len(),
    ensures
        a <= r.0 <= r.1 <= b,
        v@.subrange(r.0 as int, r.1 as int) == trim_char(v@.subrange(a as int, b as int), c),
{
    let mut start = a;
    while start < b && v[start] == c
        invariant
            a <= start <= b <= v@.len(),
            trim_start_char(v@.subrange(a as int, b as int), c) == trim_start_char(
                v@.subrange(start as int, b as int),
                c,
            ),
        decreases b - start,
    {
        let ghost rest = v@.subrange(start as int, b as int);
        assert(rest.drop_first() =~= v@.subrange(start + 1, b as int));
        start += 1;
    }
    let ghost ts = v@.subrange(start as int, b as int);
    let mut end = b;
    while end > start && v[end - 1] == c
        invariant
            a <= start <= end <= b <= v@.len(),
            ts == v@.subrange(start as int, b as int),
            trim_end_char(ts, c) == trim_end_char(v@.subrange(start as int, end as int), c),
        decreases end - start,
    {
        let ghost cur = v@.subrange(start as int, end as int);
        assert(cur.drop_last() =~= v@.subrange(start as int, end - 1));
        end -= 1;
    }
    (start, end)
}

} // verus!

verus! {

/// Lexicographic order on characters, as `String` compares (UTF-8 preserves code point order).
pub open spec fn seq_lt(a: Seq<char>, b: Seq<char>) -> bool
    decreases a.len(),
{
    if a.len() == 0 {
        b.len() > 0
    } else if b.len() == 0 {
        false
    } else if a[0] != b[0] {
        a[0] < b[0]
    } else {
        seq_lt(a.drop_first(), b.drop_first())
    }
}

/// Exactly one of `a < b`, `a == b`, `b < a` holds.
pub proof fn lemma_seq_lt_trichotomy(a: Seq<char>, b: Seq<char>)
    ensures
        seq_lt(a, b) || a == b || seq_lt(b, a),
        !(seq_lt(a, b) && seq_lt(b, a)),
        !(seq_lt(a, b) && a == b),
    decreases a.len(),
{
    if a.len() > 0 && b.len() > 0 && a[0] == b[0] {
        lemma_seq_lt_trichotomy(a.drop_first(), b.drop_first());
        if a.drop_first() == b.drop_first() {
            assert(a =~= seq![a[0]] + a.drop_first());
            assert(b =~= seq![b[0]] + b.drop_first());
        }
    }
    if a.len() == 0 && b.len() == 0 {
        assert(a =~= b);
    }
}

/// `<` on character sequences is transitive.
pub proof fn lemma_seq_lt_transitive(a: Seq<char>, b: Seq<char>, c: Seq<char>)
    requires
        seq_lt(a, b),
        seq_lt(b, c),
    ensures
        seq_lt(a, c),
    decreases a.len(),
{
    if a.len() > 0 && b.len() > 0 && c.len() > 0 && a[0] == b[0] && b[0] == c[0] {
        lemma_seq_lt_transitive(a.drop_first(), b.drop_first(), c.drop_first());
    }
}

/// Executable `seq_lt`.
pub fn chars_lt(a: &[char], b: &[char]) -> (r: bool)
    ensures
        r == seq_lt(a@, b@),
{
    let mut i: usize = 0;
    assert(a@.subrange(0, a@.len() as int) =~= a@);
    assert(b@.subrange(0, b@.len() as int) =~= b@);
    while i < a.len() && i < b.len() && a[i] == b[i]
        invariant
            i <= a@.len(),
            i <= b@.len(),
            seq_lt(a@, b@) == seq_lt(a@.subrange(i as int, a@.len() as int), b@.subrange(i as int, b@.len() as int)),
        decreases a.len() - i,
    {
        let ghost sa = a@.subrange(i as int, a@.len() as int);
        let ghost sb = b@.subrange(i as int, b@.len() as int);
        assert(sa.drop_first() =~= a@.subrange(i + 1, a@.len() as int));
        assert(sb.drop_first() =~= b@.subrange(i + 1, b@.len() as int));
        i += 1;
    }
    proof {
        assert(a@.subrange(0, a@.len() as int) =~= a@);
        assert(b@.subrange(0, b@.len() as int) =~= b@);
    }
    if i == a.len() {
        i < b.len()
    } else if i == b.len() {
        false
    } else {
        a[i] < b[i]
    }
}

/// Executable equality of character sequences.
pub fn chars_eq(a: &[char], b: &[char]) -> (r: bool)
    ensures
        r == (a@ == b@),
{
    if a.len() != b.len() {
        return false;
    }
    let mut i: usize = 0;
    while i < a.len()
        invariant
            a@.len() == b@.len(),
            i <= a@.len(),
            forall|j: int| 0 <= j < i ==> a@[j] == b@[j],
        decreases a.len() - i,
    {
        if a[i] != b[i] {
            return false;
        }
        i += 1;
    }
    assert(a@ =~= b@);
    true
}

} // verus!

verus! {

/// No occurrence at or after `from` when `find_from` finds none.
pub proof fn lemma_find_from_none(hay: Seq<char>, needle: Seq<char>, from: int)
    requires
        0 <= from,
        find_from(hay, needle, from) is None,
    ensures
        forall|i: int| from <= i ==> !occurs_at(hay, needle, i),
    decreases hay.len() + 1 - from,
{
    if !(from > hay.len() || from + needle.len() > hay.len()) {
        lemma_find_from_none(hay, needle, from + 1);
    }
}

/// Executable `contains_seq` (`str::contains`).
pub fn contains_chars(hay: &[char], needle: &[char]) -> (r: bool)
    ensures
        r == contains_seq(hay@, needle@),
{
    match find_seq(hay, needle, 0) {
        Some(_) => {
            proof {
                lemma_find_from_bounds(hay@, needle@, 0);
            }
            true
        },
        None => {
            proof {
                lemma_find_from_none(hay@, needle@, 0);
            }
            false
        },
    }
}

} // verus!

verus! {

/// Bounds of a `rfind_seq` result.
pub proof fn lemma_rfind_seq_bounds(hay: Seq<char>, needle: Seq<char>, upto: int)
    ensures
        rfind_seq(hay, needle, upto) matches Some(k) ==> 0 <= k <= upto && occurs_at(hay, needle, k),
    decreases upto + 1,
{
    if upto >= 0 && !occurs_at(hay, needle, upto) {
        lemma_rfind_seq_bounds(hay, needle, upto - 1);
    }
}

} // verus!

verus! {

/// Unicode lower-casing of a string, as `str::to_lowercase` performs it.
pub uninterp spec fn lowercase(s: Seq<char>) -> Seq<char>;

/// `str::to_lowercase` from std.
#[verifier::external_body]
pub(crate) fn to_lowercase(s: &str) -> (r: String)
    ensures
        r@ == lowercase(s@),
{
    s.to_lowercase()
}

} // verus!

verus! {

/// Unicode upper-casing of one char, as `char::to_uppercase` yields it (one to three chars).
pub uninterp spec fn uppercase_char(c: char) -> Seq<char>;

/// `char::to_uppercase` from std, collected into a string.
#[verifier::external_body]
pub(crate) fn char_to_uppercase(c: char) -> (r: String)
    ensures
        r@ == uppercase_char(c),
{
    c.to_uppercase().to_string()
}

} // verus!
