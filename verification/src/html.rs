//! HTML entity decoding and tag stripping.
use vstd::prelude::*;
use crate::text::{
    ascii_lower, chars_eq_str, chars_of, find_char, find_char_in, lemma_find_char_bounds, lower_ascii_chars, push_char,
    string_of, string_of_range, char_is_whitespace, is_white_space, trim, trim_bounds,
};

verus! {

/// Value of an ASCII digit or letter as a digit, as `char::to_digit` reads it.
pub open spec fn digit_value(c: char) -> Option<nat> {
    if '0' <= c && c <= '9' {
        Some((c as u32 - '0' as u32) as nat)
    } else if 'a' <= c && c <= 'z' {
        Some((c as u32 - 'a' as u32 + 10) as nat)
    } else if 'A' <= c && c <= 'Z' {
        Some((c as u32 - 'A' as u32 + 10) as nat)
    } else {
        None
    }
}

/// The number written by `s` in `radix`, when every char is a digit below `radix`.
pub open spec fn digits_value(s: Seq<char>, radix: nat) -> Option<nat>
    decreases s.len(),
{
    if s.len() == 0 {
        Some(0)
    } else {
        match (digits_value(s.drop_last(), radix), digit_value(s.last())) {
            (Some(p), Some(d)) => if d < radix {
                Some(p * radix + d)
            } else {
                None
            },
            _ => None,
        }
    }
}

/// What `u32::from_str_radix` accepts: an optional `+`, then at least one digit,
/// with a value that fits in `u32`.
pub open spec fn parse_u32_radix(s: Seq<char>, radix: nat) -> Option<u32> {
    if s.len() == 0 || (s.len() == 1 && s[0] == '+') {
        None
    } else {
        let body = if s[0] == '+' { s.drop_first() } else { s };
        match digits_value(body, radix) {
            Some(v) => if v <= u32::MAX {
                Some(v as u32)
            } else {
                None
            },
            None => None,
        }
    }
}

/// `u32::from_str_radix` from std, with the error turned into `None`.
#[verifier::external_body]
fn u32_from_str_radix(s: &str, radix: u32) -> (r: Option<u32>)
    requires
        2 <= radix <= 36,
    ensures
        r == parse_u32_radix(s@, radix as nat),
{
    u32::from_str_radix(s, radix).ok()
}

/// Whether `code` is a Unicode scalar value.
pub open spec fn is_scalar(code: u32) -> bool {
    code < 0xD800 || (0xE000 <= code && code <= 0x10FFFF)
}

/// `char::from_u32` from std.
#[verifier::external_body]
fn char_from_u32(code: u32) -> (r: Option<char>)
    ensures
        r == (if is_scalar(code) {
            Some(code as char)
        } else {
            None
        }),
{
    char::from_u32(code)
}

/// The character a named entity stands for (`amp`, `lt`, `gt`, `quot`, `apos`, `nbsp`).
pub open spec fn named_entity(name: Seq<char>) -> Option<char> {
    if name == "amp"@ {
        Some('&')
    } else if name == "lt"@ {
        Some('<')
    } else if name == "gt"@ {
        Some('>')
    } else if name == "quot"@ {
        Some('"')
    } else if name == "apos"@ {
        Some('\'')
    } else if name == "nbsp"@ {
        Some(' ')
    } else {
        None
    }
}

/// The character a numeric entity body (after `#`) stands for; code 0 is refused.
pub open spec fn numeric_entity(rest: Seq<char>) -> Option<char> {
    let hex = rest.len() > 0 && (rest[0] == 'x' || rest[0] == 'X');
    let digits = if hex { rest.drop_first() } else { rest };
    let radix: nat = if hex { 16 } else { 10 };
    match parse_u32_radix(digits, radix) {
        Some(code) => if code != 0 && is_scalar(code) {
            Some(code as char)
        } else {
            None
        },
        None => None,
    }
}

/// The replacement for the text between `&` and `;`, if it is a known entity.
pub open spec fn entity_char(entity: Seq<char>) -> Option<char> {
    if entity.len() > 0 && entity[0] == '#' {
        numeric_entity(entity.drop_first())
    } else {
        named_entity(ascii_lower(entity))
    }
}

/// Decoding from position `i`: a known `&...;` entity becomes its character, all else is kept.
pub open spec fn decode_from(s: Seq<char>, i: int) -> Seq<char>
    decreases s.len() - i,
{
    if i < 0 || i >= s.len() {
        Seq::empty()
    } else if s[i] == '&' && find_char(s, ';', i + 1) is Some
        && entity_char(s.subrange(i + 1, find_char(s, ';', i + 1)->0)) is Some {
        let k = find_char(s, ';', i + 1)->0;
        proof {
            lemma_find_char_bounds(s, ';', i + 1);
        }
        seq![entity_char(s.subrange(i + 1, k))->0] + decode_from(s, k + 1)
    } else {
        seq![s[i]] + decode_from(s, i + 1)
    }
}

/// The decoded text of `s`.
pub open spec fn decode_entities(s: Seq<char>) -> Seq<char> {
    decode_from(s, 0)
}

/// Resolves the body of an entity (`amp`, `#65`, `#x4e2d`, ...) to its replacement text.
pub fn resolve_entity(entity: &[char]) -> (r: Option<String>)
    ensures
        match entity_char(entity@) {
            Some(c) => r matches Some(t) && t@ == seq![c],
            None => r is None,
        },
{
    if entity.len() > 0 && entity[0] == '#' {
        let hex = entity.len() > 1 && (entity[1] == 'x' || entity[1] == 'X');
        let start: usize = if hex { 2 } else { 1 };
        let radix: u32 = if hex { 16 } else { 10 };
        let digits = string_of_range(entity, start, entity.len());
        proof {
            let rest = entity@.drop_first();
            if hex {
                assert(digits@ =~= rest.drop_first());
            } else {
                assert(digits@ =~= rest);
            }
        }
        let code = match u32_from_str_radix(digits.as_str(), radix) {
            Some(code) => code,
            None => return None,
        };
        if code == 0 {
            return None;
        }
        match char_from_u32(code) {
            Some(c) => {
                let mut out = String::new();
                push_char(&mut out, c);
                Some(out)
            },
            None => None,
        }
    } else {
        let lower = lower_ascii_chars(entity);
        let c = if chars_eq_str(&lower, "amp") {
            '&'
        } else if chars_eq_str(&lower, "lt") {
            '<'
        } else if chars_eq_str(&lower, "gt") {
            '>'
        } else if chars_eq_str(&lower, "quot") {
            '"'
        } else if chars_eq_str(&lower, "apos") {
            '\''
        } else if chars_eq_str(&lower, "nbsp") {
            ' '
        } else {
            return None;
        };
        let mut out = String::new();
        push_char(&mut out, c);
        Some(out)
    }
}

/// Decodes character and named entities in a character vector.
pub fn decode_chars(v: &[char]) -> (r: Vec<char>)
    ensures
        r@ == decode_entities(v@),
{
    let mut out: Vec<char> = Vec::new();
    let mut i: usize = 0;
    while i < v.len()
        invariant
            i <= v@.len(),
            decode_entities(v@) == out@ + decode_from(v@, i as int),
        decreases v.len() - i,
    {
        let ghost before = out@;
        if v[i] == '&' {
            if let Some(end) = find_char_in(v, ';', i + 1) {
                proof {
                    lemma_find_char_bounds(v@, ';', i + 1);
                }
                let entity = slice_range(v, i + 1, end);
                if let Some(rep) = resolve_entity(&entity) {
                    let rc = chars_of(rep.as_str());
                    out.push(rc[0]);
                    assert(out@ + decode_from(v@, end + 1) =~= before + decode_from(v@, i as int));
                    i = end + 1;
                    continue;
                }
            }
        }
        out.push(v[i]);
        assert(out@ + decode_from(v@, i + 1) =~= before + decode_from(v@, i as int));
        i += 1;
    }
    assert(decode_from(v@, i as int) =~= Seq::<char>::empty());
    assert(out@ =~= out@ + decode_from(v@, i as int));
    out
}

/// Copies `v[from..to]` into a new vector.
pub fn slice_range(v: &[char], from: usize, to: usize) -> (r: Vec<char>)
    requires
        from <= to <= v@.len(),
    ensures
        r@ == v@.subrange(from as int, to as int),
{
    let mut r: Vec<char> = Vec::new();
    let mut i = from;
    while i < to
        invariant
            from <= i <= to <= v@.len(),
            r@ == v@.subrange(from as int, i as int),
        decreases to - i,
    {
        r.push(v[i]);
        i += 1;
        assert(r@ =~= v@.subrange(from as int, i as int));
    }
    r
}

/// Replaces HTML entities (`&amp;`, `&#65;`, `&#x4e2d;`, ...) with the characters they stand for.
pub fn decode_html_entities(value: &str) -> (r: String)
    ensures
        r@ == decode_entities(value@),
{
    let v = chars_of(value);
    let d = decode_chars(&v);
    string_of(&d)
}

/// Tag removal from position `i`: text between `<` and `>` is dropped and each closing `>`
/// leaves one space behind.
pub open spec fn strip_tags_from(s: Seq<char>, i: int, in_tag: bool) -> Seq<char>
    decreases s.len() - i,
{
    if i < 0 || i >= s.len() {
        Seq::empty()
    } else if !in_tag && s[i] == '<' {
        strip_tags_from(s, i + 1, true)
    } else if in_tag && s[i] == '>' {
        seq![' '] + strip_tags_from(s, i + 1, false)
    } else if !in_tag {
        seq![s[i]] + strip_tags_from(s, i + 1, false)
    } else {
        strip_tags_from(s, i + 1, true)
    }
}

/// Whitespace collapsing from position `i`: every run of whitespace becomes a single space.
pub open spec fn collapse_from(s: Seq<char>, i: int, prev_space: bool) -> Seq<char>
    decreases s.len() - i,
{
    if i < 0 || i >= s.len() {
        Seq::empty()
    } else if is_white_space(s[i]) {
        if prev_space {
            collapse_from(s, i + 1, true)
        } else {
            seq![' '] + collapse_from(s, i + 1, true)
        }
    } else {
        seq![s[i]] + collapse_from(s, i + 1, false)
    }
}

/// Plain text of an HTML fragment: entities decoded, tags replaced by a space, whitespace
/// runs collapsed to one space, and the ends trimmed.
pub open spec fn html_text(s: Seq<char>) -> Seq<char> {
    trim(collapse_from(strip_tags_from(decode_entities(s), 0, false), 0, false))
}

fn strip_tags_chars(v: &[char]) -> (r: Vec<char>)
    ensures
        r@ == strip_tags_from(v@, 0, false),
{
    let mut out: Vec<char> = Vec::new();
    let mut in_tag = false;
    let mut i: usize = 0;
    while i < v.len()
        invariant
            i <= v@.len(),
            strip_tags_from(v@, 0, false) == out@ + strip_tags_from(v@, i as int, in_tag),
        decreases v.len() - i,
    {
        let ghost before = out@;
        let ghost was = in_tag;
        let ch = v[i];
        if !in_tag && ch == '<' {
            in_tag = true;
        } else if in_tag && ch == '>' {
            in_tag = false;
            out.push(' ');
        } else if !in_tag {
            out.push(ch);
        }
        assert(out@ + strip_tags_from(v@, i + 1, in_tag) =~= before + strip_tags_from(v@, i as int, was));
        i += 1;
    }
    assert(out@ =~= out@ + strip_tags_from(v@, i as int, in_tag));
    out
}

fn collapse_chars(v: &[char]) -> (r: Vec<char>)
    ensures
        r@ == collapse_from(v@, 0, false),
{
    let mut out: Vec<char> = Vec::new();
    let mut prev_space = false;
    let mut i: usize = 0;
    while i < v.len()
        invariant
            i <= v@.len(),
            collapse_from(v@, 0, false) == out@ + collapse_from(v@, i as int, prev_space),
        decreases v.len() - i,
    {
        let ghost before = out@;
        let ghost was = prev_space;
        let ch = v[i];
        if char_is_whitespace(ch) {
            if !prev_space {
                out.push(' ');
                prev_space = true;
            }
        } else {
            out.push(ch);
            prev_space = false;
        }
        assert(out@ + collapse_from(v@, i + 1, prev_space) =~= before + collapse_from(v@, i as int, was));
        i += 1;
    }
    assert(out@ =~= out@ + collapse_from(v@, i as int, prev_space));
    out
}

/// Plain text of an HTML fragment held as characters.
pub fn strip_html_chars(v: &[char]) -> (r: Vec<char>)
    ensures
        r@ == html_text(v@),
{
    let decoded = decode_chars(v);
    let untagged = strip_tags_chars(&decoded);
    let collapsed = collapse_chars(&untagged);
    let (a, b) = trim_bounds(&collapsed);
    slice_range(&collapsed, a, b)
}

/// Plain text of an HTML fragment: entities decoded, tags dropped (each leaving a space),
/// whitespace collapsed and the ends trimmed.
pub fn strip_html(value: &str) -> (r: String)
    ensures
        r@ == html_text(value@),
{
    let v = chars_of(value);
    let t = strip_html_chars(&v);
    string_of(&t)
}

} // verus!
