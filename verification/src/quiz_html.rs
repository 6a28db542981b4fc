//! Extraction of quiz answer controls and question text from Moodle question HTML.
use vstd::prelude::*;
use crate::text::{ascii_lower, char_is_whitespace, is_white_space, lower_ascii_chars, string_of_range};
use crate::html::{decode_entities, decode_chars};
use crate::text::{
    string_of, chars_of, find_from, find_char, find_seq, find_char_in, rfind_char, rfind_char_in,
    first_word, first_word_bounds, trim_char, trim_char_bounds, trim, lemma_find_from_bounds,
    lemma_find_char_bounds, lemma_rfind_char_bounds,
};
use crate::html::{html_text, strip_html_chars, slice_range};
use crate::text::{
    rfind_seq, rfind_seq_in, contains_seq, seq_lt, chars_lt, chars_eq, trim_bounds, chars_eq_str,
    lemma_seq_lt_trichotomy, lemma_seq_lt_transitive, contains_chars,
};
use crate::models::{
    QuizAnswerKind, QuizAnswerOption, QuizAnswerControl, OptionView, ControlView, options_view,
    controls_view, opt_view,
};

verus! {

/// The first position at or after `j` whose char satisfies `stop`, or the end.
pub open spec fn scan(t: Seq<char>, j: int, stop: spec_fn(char) -> bool) -> int
    decreases t.len() - j,
{
    if j < 0 || j >= t.len() {
        t.len() as int
    } else if stop(t[j]) {
        j
    } else {
        scan(t, j + 1, stop)
    }
}

/// Chars that end an attribute name.
pub open spec fn name_stop() -> spec_fn(char) -> bool {
    |c: char| is_white_space(c) || c == '=' || c == '>' || c == '/'
}

/// Chars that end leading whitespace.
pub open spec fn non_space() -> spec_fn(char) -> bool {
    |c: char| !is_white_space(c)
}

/// Chars that end an unquoted attribute value.
pub open spec fn bare_stop() -> spec_fn(char) -> bool {
    |c: char| is_white_space(c) || c == '>'
}

/// The char that closes a quoted attribute value.
pub open spec fn quote_stop(q: char) -> spec_fn(char) -> bool {
    |c: char| c == q
}

pub proof fn lemma_scan_bounds(t: Seq<char>, j: int, stop: spec_fn(char) -> bool)
    requires
        0 <= j <= t.len(),
    ensures
        j <= scan(t, j, stop) <= t.len(),
        scan(t, j, stop) < t.len() ==> stop(t[scan(t, j, stop)]),
        forall|k: int| j <= k < scan(t, j, stop) ==> !stop(#[trigger] t[k]),
    decreases t.len() - j,
{
    if j < t.len() && !stop(t[j]) {
        lemma_scan_bounds(t, j + 1, stop);
    }
}

/// The attribute that starts at `p` (right after a whitespace char) and the position
/// where reading goes on. Names are lower-cased and values have their entities decoded.
pub open spec fn attr_at(t: Seq<char>, p: int) -> (Option<(Seq<char>, Seq<char>)>, int) {
    let ne = scan(t, p, name_stop());
    let name = t.subrange(p, ne);
    if name.len() == 0 {
        (None, p)
    } else {
        let a = scan(t, ne, non_space());
        if a < t.len() && t[a] == '=' {
            let b = scan(t, a + 1, non_space());
            if b < t.len() && (t[b] == '"' || t[b] == '\'') {
                let e = scan(t, b + 1, quote_stop(t[b]));
                (
                    Some((ascii_lower(name), decode_entities(t.subrange(b + 1, e)))),
                    if e < t.len() { e + 1 } else { e },
                )
            } else {
                let e = scan(t, b, bare_stop());
                (Some((ascii_lower(name), decode_entities(t.subrange(b, e)))), e)
            }
        } else {
            (Some((ascii_lower(name), Seq::empty())), a)
        }
    }
}

pub proof fn lemma_attr_at_progress(t: Seq<char>, p: int)
    requires
        0 <= p <= t.len(),
    ensures
        p <= attr_at(t, p).1 <= t.len(),
{
    let ne = scan(t, p, name_stop());
    lemma_scan_bounds(t, p, name_stop());
    if ne > p {
        let a = scan(t, ne, non_space());
        lemma_scan_bounds(t, ne, non_space());
        if a < t.len() && t[a] == '=' {
            let b = scan(t, a + 1, non_space());
            lemma_scan_bounds(t, a + 1, non_space());
            if b < t.len() && (t[b] == '"' || t[b] == '\'') {
                lemma_scan_bounds(t, b + 1, quote_stop(t[b]));
            } else {
                lemma_scan_bounds(t, b, bare_stop());
            }
        }
    }
}

/// Attributes written in a tag from position `i`, in the order they are written.
pub open spec fn attrs_from(t: Seq<char>, i: int) -> Seq<(Seq<char>, Seq<char>)>
    decreases t.len() - i,
{
    if i < 0 || i >= t.len() {
        Seq::empty()
    } else if is_white_space(t[i]) {
        let r = attr_at(t, i + 1);
        proof {
            lemma_attr_at_progress(t, i + 1);
        }
        match r.0 {
            Some(kv) => seq![kv] + attrs_from(t, r.1),
            None => attrs_from(t, r.1),
        }
    } else {
        attrs_from(t, i + 1)
    }
}

/// The attributes of an opening tag such as `<input type="radio" name="q1">`.
pub open spec fn tag_attrs(t: Seq<char>) -> Seq<(Seq<char>, Seq<char>)> {
    attrs_from(t, 0)
}

/// The value last written for `key`, as a map of attributes keeps it.
pub open spec fn lookup(attrs: Seq<(Seq<char>, Seq<char>)>, key: Seq<char>) -> Option<Seq<char>>
    decreases attrs.len(),
{
    if attrs.len() == 0 {
        None
    } else if attrs.last().0 == key {
        Some(attrs.last().1)
    } else {
        lookup(attrs.drop_last(), key)
    }
}

/// The view of a list of attributes.
pub open spec fn attrs_view(a: Seq<(String, String)>) -> Seq<(Seq<char>, Seq<char>)> {
    a.map_values(|p: (String, String)| (p.0@, p.1@))
}

fn scan_exec(t: &[char], j: usize, kind: u8, q: char) -> (r: usize)
    requires
        j <= t@.len(),
    ensures
        kind == 0 ==> r == scan(t@, j as int, name_stop()),
        kind == 1 ==> r == scan(t@, j as int, non_space()),
        kind == 2 ==> r == scan(t@, j as int, bare_stop()),
        kind == 3 ==> r == scan(t@, j as int, quote_stop(q)),
{
    let mut k = j;
    while k < t.len()
        invariant
            j <= k <= t@.len(),
            kind == 0 ==> scan(t@, j as int, name_stop()) == scan(t@, k as int, name_stop()),
            kind == 1 ==> scan(t@, j as int, non_space()) == scan(t@, k as int, non_space()),
            kind == 2 ==> scan(t@, j as int, bare_stop()) == scan(t@, k as int, bare_stop()),
            kind == 3 ==> scan(t@, j as int, quote_stop(q)) == scan(t@, k as int, quote_stop(q)),
        decreases t.len() - k,
    {
        let c = t[k];
        let ws = char_is_whitespace(c);
        let stop = if kind == 0 {
            ws || c == '=' || c == '>' || c == '/'
        } else if kind == 1 {
            !ws
        } else if kind == 2 {
            ws || c == '>'
        } else {
            c == q
        };
        if stop {
            return k;
        }
        k += 1;
    }
    k
}

fn attr_at_exec(t: &[char], p: usize) -> (r: (Option<(String, String)>, usize))
    requires
        p <= t@.len(),
    ensures
        r.1 == attr_at(t@, p as int).1,
        match attr_at(t@, p as int).0 {
            Some(kv) => r.0 matches Some(x) && x.0@ == kv.0 && x.1@ == kv.1,
            None => r.0 is None,
        },
{
    proof {
        lemma_scan_bounds(t@, p as int, name_stop());
    }
    let ne = scan_exec(t, p, 0, ' ');
    if ne == p {
        return (None, p);
    }
    let name_chars = crate::html::slice_range(t, p, ne);
    let lower = lower_ascii_chars(&name_chars);
    let name = string_of(&lower);
    proof {
        lemma_scan_bounds(t@, ne as int, non_space());
    }
    let a = scan_exec(t, ne, 1, ' ');
    if a < t.len() && t[a] == '=' {
        proof {
            lemma_scan_bounds(t@, a + 1, non_space());
        }
        let b = scan_exec(t, a + 1, 1, ' ');
        if b < t.len() && (t[b] == '"' || t[b] == '\'') {
            let q = t[b];
            proof {
                lemma_scan_bounds(t@, b + 1, quote_stop(q));
            }
            let e = scan_exec(t, b + 1, 3, q);
            let raw = crate::html::slice_range(t, b + 1, e);
            let value = string_of(&decode_chars(&raw));
            let next = if e < t.len() { e + 1 } else { e };
            (Some((name, value)), next)
        } else {
            proof {
                lemma_scan_bounds(t@, b as int, bare_stop());
            }
            let e = scan_exec(t, b, 2, ' ');
            let raw = crate::html::slice_range(t, b, e);
            let value = string_of(&decode_chars(&raw));
            (Some((name, value)), e)
        }
    } else {
        (Some((name, String::new())), a)
    }
}

/// Reads the attributes of an opening tag, lower-casing names and decoding values.
pub fn parse_attrs(tag: &[char]) -> (r: Vec<(String, String)>)
    ensures
        attrs_view(r@) == tag_attrs(tag@),
{
    let mut out: Vec<(String, String)> = Vec::new();
    let mut i: usize = 0;
    while i < tag.len()
        invariant
            i <= tag@.len(),
            tag_attrs(tag@) == attrs_view(out@) + attrs_from(tag@, i as int),
        decreases tag.len() - i,
    {
        let ghost before = attrs_view(out@);
        if char_is_whitespace(tag[i]) {
            proof {
                lemma_attr_at_progress(tag@, i + 1);
            }
            let (entry, next) = attr_at_exec(tag, i + 1);
            match entry {
                Some(kv) => {
                    out.push(kv);
                },
                None => {},
            }
            assert(attrs_view(out@) + attrs_from(tag@, next as int) =~= before + attrs_from(tag@, i as int));
            i = next;
        } else {
            i += 1;
        }
    }
    assert(attrs_view(out@) =~= attrs_view(out@) + attrs_from(tag@, i as int));
    out
}

/// The value last written for `key`.
pub fn attr_get(attrs: &Vec<(String, String)>, key: &str) -> (r: Option<String>)
    ensures
        crate::models::opt_view(r) == lookup(attrs_view(attrs@), key@),
{
    let mut i = attrs.len();
    assert(attrs@.take(i as int) =~= attrs@);
    while i > 0
        invariant
            i <= attrs@.len(),
            lookup(attrs_view(attrs@), key@) == lookup(attrs_view(attrs@.take(i as int)), key@),
        decreases i,
    {
        let ghost pre = attrs_view(attrs@.take(i as int));
        assert(pre.drop_last() =~= attrs_view(attrs@.take(i - 1)));
        if crate::text::chars_eq_str(&crate::text::chars_of(attrs[i - 1].0.as_str()), key) {
            return Some(attrs[i - 1].1.clone());
        }
        i -= 1;
    }
    assert(attrs_view(attrs@.take(0)) =~= Seq::empty());
    None
}

/// Number of bytes that UTF-8 needs for `c`.
pub open spec fn utf8_len(c: char) -> nat {
    if (c as u32) < 0x80 {
        1
    } else if (c as u32) < 0x800 {
        2
    } else if (c as u32) < 0x10000 {
        3
    } else {
        4
    }
}

/// End of the text window that starts at `j` and spans `budget` more bytes, or the end of
/// the text; `None` when the window would end inside a character (slicing panics there).
pub open spec fn window_end(h: Seq<char>, j: int, budget: nat) -> Option<int>
    decreases h.len() - j,
{
    if budget == 0 {
        Some(j)
    } else if j < 0 || j >= h.len() {
        Some(h.len() as int)
    } else if utf8_len(h[j]) > budget {
        None
    } else {
        window_end(h, j + 1, (budget - utf8_len(h[j])) as nat)
    }
}

pub proof fn lemma_window_end_bounds(h: Seq<char>, j: int, budget: nat)
    requires
        0 <= j <= h.len(),
    ensures
        window_end(h, j, budget) matches Some(w) ==> j <= w <= h.len(),
    decreases h.len() - j,
{
    if budget != 0 && j < h.len() && utf8_len(h[j]) <= budget {
        lemma_window_end_bounds(h, j + 1, (budget - utf8_len(h[j])) as nat);
    }
}

/// The text of the first `<label>...</label>` in `tail`, or empty.
pub open spec fn label_in(tail: Seq<char>) -> Seq<char> {
    match find_from(tail, "<label"@, 0) {
        None => Seq::empty(),
        Some(s) => match find_char(tail, '>', s) {
            None => Seq::empty(),
            Some(g) => match find_from(tail, "</label>"@, g + 1) {
                None => Seq::empty(),
                Some(c) => html_text(tail.subrange(g + 1, c)),
            },
        },
    }
}

/// The label that follows an input within the next 400 bytes; `None` when that window
/// would cut a character.
pub open spec fn nearby_label_spec(h: Seq<char>, after: int) -> Option<Seq<char>> {
    match window_end(h, after, 400) {
        None => None,
        Some(w) => Some(label_in(h.subrange(after, w))),
    }
}

/// The text of the element whose `id` attribute is `id`, when it is not blank.
pub open spec fn element_text_by_id_spec(h: Seq<char>, id: Seq<char>) -> Option<Seq<char>> {
    match find_from(h, "id=\""@ + id + "\""@, 0) {
        None => None,
        Some(start) => match rfind_char(h, '<', start) {
            None => None,
            Some(ts) => match find_char(h, '>', ts) {
                None => None,
                Some(oe) => match first_word(h.subrange(ts + 1, oe)) {
                    None => None,
                    Some(w) => match find_from(h, "</"@ + trim_char(w, '/') + ">"@, oe + 1) {
                        None => None,
                        Some(close) => {
                            let text = html_text(h.subrange(oe + 1, close));
                            if trim(text).len() == 0 {
                                None
                            } else {
                                Some(text)
                            }
                        },
                    },
                },
            },
        },
    }
}

/// The label of an input: the text of the element named by `aria-labelledby` (or else by
/// `id`) when there is one, otherwise the nearby `<label>`.
pub open spec fn input_label_spec(
    h: Seq<char>,
    after: int,
    attrs: Seq<(Seq<char>, Seq<char>)>,
) -> Option<Seq<char>> {
    let id = match lookup(attrs, "aria-labelledby"@) {
        Some(v) => Some(v),
        None => lookup(attrs, "id"@),
    };
    match id {
        Some(v) => match element_text_by_id_spec(h, v) {
            Some(t) => Some(t),
            None => nearby_label_spec(h, after),
        },
        None => nearby_label_spec(h, after),
    }
}

/// An `<input>` tag: its attributes and its label.
pub struct InputView {
    pub attrs: Seq<(Seq<char>, Seq<char>)>,
    pub label: Seq<char>,
}

/// The `<input>` tags from `offset` on; `None` when reading a label would panic.
pub open spec fn inputs_from(h: Seq<char>, offset: int) -> Option<Seq<InputView>>
    decreases h.len() - offset,
{
    match find_from(h, "<input"@, offset) {
        None => Some(Seq::empty()),
        Some(start) => match find_char(h, '>', start) {
            None => Some(Seq::empty()),
            Some(gt) => {
                proof {
                    lemma_find_from_bounds(h, "<input"@, offset);
                    lemma_find_char_bounds(h, '>', start);
                }
                let attrs = tag_attrs(h.subrange(start, gt + 1));
                match input_label_spec(h, gt + 1, attrs) {
                    None => None,
                    Some(label) => match inputs_from(h, gt + 1) {
                        None => None,
                        Some(rest) => Some(seq![InputView { attrs, label }] + rest),
                    },
                }
            },
        },
    }
}

/// Exec form of an input tag.
pub struct InputTag {
    pub attrs: Vec<(String, String)>,
    pub label: Vec<char>,
}

/// The view of an exec input tag.
pub open spec fn input_view(t: InputTag) -> InputView {
    InputView { attrs: attrs_view(t.attrs@), label: t.label@ }
}

fn concat3(a: &[char], b: &[char], c: &[char]) -> (r: Vec<char>)
    ensures
        r@ == a@ + b@ + c@,
{
    let mut r: Vec<char> = Vec::new();
    let mut i: usize = 0;
    while i < a.len()
        invariant
            i <= a@.len(),
            r@ == a@.take(i as int),
        decreases a.len() - i,
    {
        r.push(a[i]);
        i += 1;
        assert(r@ =~= a@.take(i as int));
    }
    let mut j: usize = 0;
    while j < b.len()
        invariant
            j <= b@.len(),
            r@ == a@ + b@.take(j as int),
        decreases b.len() - j,
    {
        r.push(b[j]);
        j += 1;
        assert(r@ =~= a@ + b@.take(j as int));
    }
    let mut k: usize = 0;
    while k < c.len()
        invariant
            k <= c@.len(),
            r@ == a@ + b@ + c@.take(k as int),
        decreases c.len() - k,
    {
        r.push(c[k]);
        k += 1;
        assert(r@ =~= a@ + b@ + c@.take(k as int));
    }
    assert(a@.take(a@.len() as int) =~= a@);
    assert(b@.take(b@.len() as int) =~= b@);
    assert(c@.take(c@.len() as int) =~= c@);
    r
}

fn window_end_exec(h: &[char], after: usize) -> (r: Option<usize>)
    requires
        after <= h@.len(),
    ensures
        match r {
            Some(w) => window_end(h@, after as int, 400) == Some(w as int),
            None => window_end(h@, after as int, 400) is None,
        },
{
    let mut j = after;
    let mut budget: u32 = 400;
    while budget > 0 && j < h.len()
        invariant
            after <= j <= h@.len(),
            budget <= 400,
            window_end(h@, after as int, 400) == window_end(h@, j as int, budget as nat),
        decreases h.len() - j,
    {
        let u = h[j] as u32;
        let n: u32 = if u < 0x80 {
            1
        } else if u < 0x800 {
            2
        } else if u < 0x10000 {
            3
        } else {
            4
        };
        if n > budget {
            return None;
        }
        budget -= n;
        j += 1;
    }
    if budget == 0 {
        Some(j)
    } else {
        Some(h.len())
    }
}

fn label_in_exec(tail: &[char]) -> (r: Vec<char>)
    ensures
        r@ == label_in(tail@),
{
    let open = chars_of("<label");
    let close = chars_of("</label>");
    match find_seq(tail, &open, 0) {
        None => Vec::new(),
        Some(s) => match find_char_in(tail, '>', s) {
            None => Vec::new(),
            Some(g) => {
                proof {
                    lemma_find_char_bounds(tail@, '>', s as int);
                }
                assert(g < tail.len());
                match find_seq(tail, &close, g + 1) {
                    None => Vec::new(),
                    Some(c) => {
                        proof {
                            lemma_find_from_bounds(tail@, close@, g + 1);
                        }
                        let inner = slice_range(tail, g + 1, c);
                        strip_html_chars(&inner)
                    },
                }
            },
        },
    }
}

/// The label text that follows an input tag ending at `after`.
pub fn nearby_label(html: &[char], after: usize) -> (r: Option<Vec<char>>)
    requires
        after <= html@.len(),
    ensures
        match nearby_label_spec(html@, after as int) {
            Some(l) => r matches Some(x) && x@ == l,
            None => r is None,
        },
{
    proof {
        lemma_window_end_bounds(html@, after as int, 400);
    }
    match window_end_exec(html, after) {
        None => None,
        Some(w) => {
            let tail = slice_range(html, after, w);
            Some(label_in_exec(&tail))
        },
    }
}

/// The text inside the element whose `id` is `id`, when it is not blank.
pub fn element_text_by_id(html: &[char], id: &[char]) -> (r: Option<Vec<char>>)
    ensures
        match element_text_by_id_spec(html@, id@) {
            Some(t) => r matches Some(x) && x@ == t,
            None => r is None,
        },
{
    let needle = concat3(&chars_of("id=\""), id, &chars_of("\""));
    let start = match find_seq(html, &needle, 0) {
        Some(s) => s,
        None => return None,
    };
    proof {
        lemma_find_from_bounds(html@, needle@, 0);
    }
    let ts = match rfind_char_in(html, '<', start) {
        Some(t) => t,
        None => return None,
    };
    proof {
        lemma_rfind_char_bounds(html@, '<', start as int);
    }
    let oe = match find_char_in(html, '>', ts) {
        Some(o) => o,
        None => return None,
    };
    proof {
        lemma_find_char_bounds(html@, '>', ts as int);
    }
    assert(oe < html.len());
    let tag = slice_range(html, ts + 1, oe);
    let (wa, wb) = match first_word_bounds(&tag) {
        Some(b) => b,
        None => return None,
    };
    let (na, nb) = trim_char_bounds(&tag, wa, wb, '/');
    let name = slice_range(&tag, na, nb);
    let close_tag = concat3(&chars_of("</"), &name, &chars_of(">"));
    let close = match find_seq(html, &close_tag, oe + 1) {
        Some(c) => c,
        None => return None,
    };
    proof {
        lemma_find_from_bounds(html@, close_tag@, oe + 1);
    }
    let inner = slice_range(html, oe + 1, close);
    let text = strip_html_chars(&inner);
    let (ta, tb) = crate::text::trim_bounds(&text);
    if ta == tb {
        None
    } else {
        Some(text)
    }
}

/// The label of an input tag that ends at `after`.
pub fn input_label(html: &[char], after: usize, attrs: &Vec<(String, String)>) -> (r: Option<Vec<char>>)
    requires
        after <= html@.len(),
    ensures
        match input_label_spec(html@, after as int, attrs_view(attrs@)) {
            Some(l) => r matches Some(x) && x@ == l,
            None => r is None,
        },
{
    let id = match attr_get(attrs, "aria-labelledby") {
        Some(v) => Some(v),
        None => attr_get(attrs, "id"),
    };
    if let Some(v) = id {
        let vc = chars_of(v.as_str());
        if let Some(t) = element_text_by_id(html, &vc) {
            return Some(t);
        }
    }
    nearby_label(html, after)
}

/// The `<input>` tags of a question with their attributes and labels.
pub fn parse_inputs(html: &[char]) -> (r: Option<Vec<InputTag>>)
    ensures
        match inputs_from(html@, 0) {
            Some(s) => r matches Some(v) && v@.map_values(|t: InputTag| input_view(t)) == s,
            None => r is None,
        },
{
    let open = chars_of("<input");
    let mut out: Vec<InputTag> = Vec::new();
    let mut offset: usize = 0;
    loop
        invariant
            offset <= html@.len(),
            open@ == "<input"@,
            inputs_from(html@, 0) == match inputs_from(html@, offset as int) {
                Some(rest) => Some(out@.map_values(|t: InputTag| input_view(t)) + rest),
                None => None::<Seq<InputView>>,
            },
        decreases html.len() - offset,
    {
        let ghost before = out@.map_values(|t: InputTag| input_view(t));
        let start = match find_seq(html, &open, offset) {
            Some(s) => s,
            None => {
                assert(before + Seq::<InputView>::empty() =~= before);
                return Some(out);
            },
        };
        proof {
            lemma_find_from_bounds(html@, open@, offset as int);
        }
        let gt = match find_char_in(html, '>', start) {
            Some(g) => g,
            None => {
                assert(before + Seq::<InputView>::empty() =~= before);
                return Some(out);
            },
        };
        proof {
            lemma_find_char_bounds(html@, '>', start as int);
        }
        let tag = slice_range(html, start, gt + 1);
        let attrs = parse_attrs(&tag);
        let label = match input_label(html, gt + 1, &attrs) {
            Some(l) => l,
            None => return None,
        };
        let ghost iv = InputView { attrs: attrs_view(attrs@), label: label@ };
        out.push(InputTag { attrs, label });
        proof {
            assert(out@.map_values(|t: InputTag| input_view(t)) =~= before.push(iv));
            match inputs_from(html@, gt + 1) {
                Some(rest) => {
                    assert(before + (seq![iv] + rest) =~= before.push(iv) + rest);
                },
                None => {},
            }
        }
        offset = gt + 1;
    }
}

/// The trimmed label, or the value when the label is blank.
pub open spec fn fallback_label_spec(label: Seq<char>, value: Seq<char>) -> Seq<char> {
    if trim(label).len() == 0 {
        value
    } else {
        trim(label)
    }
}

/// The option an input stands for; Moodle's "Clear my choice" radio gives none.
pub open spec fn option_from_input_spec(
    name: Seq<char>,
    label: Seq<char>,
    value: Seq<char>,
    selected: bool,
) -> Option<OptionView> {
    let l = fallback_label_spec(label, value);
    if ascii_lower(trim(l)) == "clear my choice"@ {
        None
    } else {
        Some(OptionView { name: Some(name), label: l, value, selected })
    }
}

/// Whether every char is an ASCII digit.
pub open spec fn all_ascii_digits(s: Seq<char>) -> bool {
    forall|k: int| 0 <= k < s.len() ==> '0' <= #[trigger] s[k] && s[k] <= '9'
}

/// The question a checkbox belongs to: `q7:4_choice1` groups under `q7:4`.
pub open spec fn checkbox_group_name_spec(name: Seq<char>) -> Seq<char> {
    match rfind_seq(name, "_choice"@, name.len() as int) {
        Some(idx) => {
            let suffix = name.subrange(idx + 7, name.len() as int);
            if suffix.len() > 0 && all_ascii_digits(suffix) {
                name.subrange(0, idx)
            } else {
                name
            }
        },
        None => name,
    }
}

/// The options of a `<select>` between `off` and `close`.
pub open spec fn options_between(h: Seq<char>, off: int, close: int) -> Seq<OptionView>
    decreases close - off,
{
    if off < 0 || off >= close || close > h.len() {
        Seq::empty()
    } else {
        let hs = h.subrange(0, close);
        match find_from(hs, "<option"@, off) {
            None => Seq::empty(),
            Some(os) => match find_char(hs, '>', os) {
                None => Seq::empty(),
                Some(g) => match find_from(hs, "</option>"@, g + 1) {
                    None => Seq::empty(),
                    Some(oc) => {
                        proof {
                            lemma_find_from_bounds(hs, "<option"@, off);
                            lemma_find_char_bounds(hs, '>', os);
                            lemma_find_from_bounds(hs, "</option>"@, g + 1);
                        }
                        let attrs = tag_attrs(h.subrange(os, g + 1));
                        let value = match lookup(attrs, "value"@) {
                            Some(v) => v,
                            None => Seq::empty(),
                        };
                        let opt = OptionView {
                            name: None,
                            label: fallback_label_spec(html_text(h.subrange(g + 1, oc)), value),
                            value,
                            selected: lookup(attrs, "selected"@) is Some,
                        };
                        seq![opt] + options_between(h, oc + "</option>"@.len(), close)
                    },
                },
            },
        }
    }
}

/// The `<select>` controls from `offset` on.
pub open spec fn selects_from(h: Seq<char>, offset: int) -> Seq<ControlView>
    decreases h.len() - offset,
{
    match find_from(h, "<select"@, offset) {
        None => Seq::empty(),
        Some(start) => match find_char(h, '>', start) {
            None => Seq::empty(),
            Some(g) => match find_from(h, "</select>"@, g + 1) {
                None => Seq::empty(),
                Some(close) => {
                    proof {
                        lemma_find_from_bounds(h, "<select"@, offset);
                        lemma_find_char_bounds(h, '>', start);
                        lemma_find_from_bounds(h, "</select>"@, g + 1);
                    }
                    let attrs = tag_attrs(h.subrange(start, g + 1));
                    match lookup(attrs, "name"@) {
                        Some(name) => if name.len() > 0 {
                            seq![
                                ControlView {
                                    name,
                                    kind: QuizAnswerKind::SingleChoice,
                                    options: options_between(h, g + 1, close),
                                    value: Seq::empty(),
                                },
                            ] + selects_from(h, close + "</select>"@.len())
                        } else {
                            selects_from(h, close + "</select>"@.len())
                        },
                        None => selects_from(h, close + "</select>"@.len()),
                    }
                },
            },
        },
    }
}

/// The `<textarea>` controls from `offset` on (tags matched without regard to ASCII case).
pub open spec fn textareas_from(h: Seq<char>, offset: int) -> Seq<ControlView>
    decreases h.len() - offset,
{
    let lower = ascii_lower(h);
    match find_from(lower, "<textarea"@, offset) {
        None => Seq::empty(),
        Some(start) => match find_char(lower, '>', start) {
            None => Seq::empty(),
            Some(g) => match find_from(lower, "</textarea>"@, g + 1) {
                None => Seq::empty(),
                Some(close) => {
                    proof {
                        lemma_find_from_bounds(lower, "<textarea"@, offset);
                        lemma_find_char_bounds(lower, '>', start);
                        lemma_find_from_bounds(lower, "</textarea>"@, g + 1);
                    }
                    let attrs = tag_attrs(h.subrange(start, g + 1));
                    match lookup(attrs, "name"@) {
                        Some(name) => if name.len() > 0 {
                            seq![
                                ControlView {
                                    name,
                                    kind: QuizAnswerKind::Text,
                                    options: Seq::empty(),
                                    value: html_text(h.subrange(g + 1, close)),
                                },
                            ] + textareas_from(h, close + "</textarea>"@.len())
                        } else {
                            textareas_from(h, close + "</textarea>"@.len())
                        },
                        None => textareas_from(h, close + "</textarea>"@.len()),
                    }
                },
            },
        },
    }
}

/// What one input contributes to the controls.
pub enum InputItem {
    Skip,
    Inline(ControlView),
    Radio(Seq<char>, Option<OptionView>),
    Check(Seq<char>, Option<OptionView>),
}

/// Classification of an input by its `type`: hidden, text and number inputs are controls of
/// their own, radios and checkboxes join groups, buttons and unnamed or flag inputs are skipped.
pub open spec fn classify(iv: InputView) -> InputItem {
    match lookup(iv.attrs, "name"@) {
        None => InputItem::Skip,
        Some(name) => if name.len() == 0 || contains_seq(name, ":flagged"@) {
            InputItem::Skip
        } else {
            let kind = match lookup(iv.attrs, "type"@) {
                Some(t) => ascii_lower(t),
                None => "text"@,
            };
            let value = match lookup(iv.attrs, "value"@) {
                Some(v) => v,
                None => Seq::empty(),
            };
            let selected = lookup(iv.attrs, "checked"@) is Some;
            if kind == "hidden"@ {
                InputItem::Inline(
                    ControlView { name, kind: QuizAnswerKind::Hidden, options: Seq::empty(), value },
                )
            } else if kind == "radio"@ {
                InputItem::Radio(name, option_from_input_spec(name, iv.label, value, selected))
            } else if kind == "checkbox"@ {
                InputItem::Check(
                    checkbox_group_name_spec(name),
                    option_from_input_spec(name, iv.label, value, selected),
                )
            } else if kind == "text"@ || kind == "number"@ {
                InputItem::Inline(
                    ControlView { name, kind: QuizAnswerKind::Text, options: Seq::empty(), value },
                )
            } else if kind == "submit"@ || kind == "button"@ {
                InputItem::Skip
            } else {
                InputItem::Inline(
                    ControlView {
                        name,
                        kind: QuizAnswerKind::Unsupported,
                        options: Seq::empty(),
                        value: kind,
                    },
                )
            }
        },
    }
}

/// A group of options under one name.
pub type GroupView = (Seq<char>, Seq<OptionView>);

/// Where `key` belongs in groups sorted by name.
pub open spec fn insert_pos(groups: Seq<GroupView>, key: Seq<char>, i: int) -> int
    decreases groups.len() - i,
{
    if i < 0 || i >= groups.len() {
        groups.len() as int
    } else if seq_lt(groups[i].0, key) {
        insert_pos(groups, key, i + 1)
    } else {
        i
    }
}

/// Adds an entry to groups kept sorted by name, as an ordered map's entry does:
/// an existing group gets the option appended, a new name gets a group of its own.
pub open spec fn group_add(groups: Seq<GroupView>, key: Seq<char>, opt: Option<OptionView>) -> Seq<GroupView> {
    let p = insert_pos(groups, key, 0);
    let extra = match opt {
        Some(o) => seq![o],
        None => Seq::empty(),
    };
    if p < groups.len() && groups[p].0 == key {
        groups.update(p, (key, groups[p].1 + extra))
    } else {
        groups.insert(p, (key, extra))
    }
}

/// The ordered map built from the radio entries of `items`.
pub open spec fn radio_groups(items: Seq<InputItem>) -> Seq<GroupView>
    decreases items.len(),
{
    if items.len() == 0 {
        Seq::empty()
    } else {
        let g = radio_groups(items.drop_last());
        match items.last() {
            InputItem::Radio(k, o) => group_add(g, k, o),
            _ => g,
        }
    }
}

/// The ordered map built from the checkbox entries of `items`.
pub open spec fn check_groups(items: Seq<InputItem>) -> Seq<GroupView>
    decreases items.len(),
{
    if items.len() == 0 {
        Seq::empty()
    } else {
        let g = check_groups(items.drop_last());
        match items.last() {
            InputItem::Check(k, o) => group_add(g, k, o),
            _ => g,
        }
    }
}

/// The controls that inputs form on their own, in document order.
pub open spec fn inline_controls(items: Seq<InputItem>) -> Seq<ControlView>
    decreases items.len(),
{
    if items.len() == 0 {
        Seq::empty()
    } else {
        let c = inline_controls(items.drop_last());
        match items.last() {
            InputItem::Inline(cv) => c.push(cv),
            _ => c,
        }
    }
}

/// Groups as controls of the given kind.
pub open spec fn group_controls(groups: Seq<GroupView>, kind: QuizAnswerKind) -> Seq<ControlView> {
    groups.map_values(
        |g: GroupView| ControlView { name: g.0, kind, options: g.1, value: Seq::empty() },
    )
}

/// All controls of a question: single inputs, then radio groups and checkbox groups by name,
/// then selects, then textareas.
pub open spec fn question_controls(h: Seq<char>) -> Seq<ControlView> {
    let items = inputs_from(h, 0)->0.map_values(|iv: InputView| classify(iv));
    inline_controls(items) + group_controls(radio_groups(items), QuizAnswerKind::SingleChoice)
        + group_controls(check_groups(items), QuizAnswerKind::MultiChoice) + selects_from(h, 0)
        + textareas_from(h, 0)
}

fn fallback_label(label: &[char], value: &[char]) -> (r: Vec<char>)
    ensures
        r@ == fallback_label_spec(label@, value@),
{
    let (a, b) = trim_bounds(label);
    if a == b {
        slice_range(value, 0, value.len())
    } else {
        slice_range(label, a, b)
    }
}

fn option_from_input(name: &[char], label: &[char], value: &[char], selected: bool) -> (r: Option<QuizAnswerOption>)
    ensures
        match option_from_input_spec(name@, label@, value@, selected) {
            Some(o) => r matches Some(x) && x@ == o,
            None => r is None,
        },
{
    assert(value@.subrange(0, value@.len() as int) =~= value@);
    assert(name@.subrange(0, name@.len() as int) =~= name@);
    let l = fallback_label(label, value);
    let (a, b) = trim_bounds(&l);
    let t = slice_range(&l, a, b);
    let lower = lower_ascii_chars(&t);
    if chars_eq_str(&lower, "clear my choice") {
        return None;
    }
    Some(QuizAnswerOption {
        name: Some(string_of_range(name, 0, name.len())),
        label: string_of(&l),
        value: string_of_range(value, 0, value.len()),
        selected,
    })
}

fn checkbox_group_name(name: &[char]) -> (r: Vec<char>)
    ensures
        r@ == checkbox_group_name_spec(name@),
{
    assert(name@.subrange(0, name@.len() as int) =~= name@);
    let marker = chars_of("_choice");
    match rfind_seq_in(name, &marker) {
        Some(idx) => {
            proof {
                reveal_strlit("_choice");
                crate::text::lemma_rfind_seq_bounds(name@, marker@, name@.len() as int);
            }
            assert(idx + 7 <= name.len());
            let suffix = slice_range(name, idx + 7, name.len());
            let mut all = suffix.len() > 0;
            let mut k: usize = 0;
            while k < suffix.len()
                invariant
                    k <= suffix@.len(),
                    all == (suffix@.len() > 0 && forall|j: int| 0 <= j < k ==> '0' <= #[trigger] suffix@[j] && suffix@[j] <= '9'),
                decreases suffix.len() - k,
            {
                if !('0' <= suffix[k] && suffix[k] <= '9') {
                    all = false;
                }
                k += 1;
            }
            if all {
                slice_range(name, 0, idx)
            } else {
                slice_range(name, 0, name.len())
            }
        },
        None => slice_range(name, 0, name.len()),
    }
}

fn options_between_exec(h: &[char], off0: usize, close: usize) -> (r: Vec<QuizAnswerOption>)
    requires
        close <= h@.len(),
    ensures
        options_view(r@) == options_between(h@, off0 as int, close as int),
{
    let hs = slice_range(h, 0, close);
    let open = chars_of("<option");
    let end_tag = chars_of("</option>");
    let mut out: Vec<QuizAnswerOption> = Vec::new();
    let mut off = off0;
    loop
        invariant
            close <= h@.len(),
            hs@ == h@.subrange(0, close as int),
            open@ == "<option"@,
            end_tag@ == "</option>"@,
            options_between(h@, off0 as int, close as int) == options_view(out@) + options_between(h@, off as int, close as int),
        decreases close - off,
    {
        let ghost before = options_view(out@);
        if off >= close {
            assert(options_view(out@) =~= before + options_between(h@, off as int, close as int));
            return out;
        }
        let os = match find_seq(&hs, &open, off) {
            Some(x) => x,
            None => {
                assert(options_view(out@) =~= before + options_between(h@, off as int, close as int));
                return out;
            },
        };
        proof {
            lemma_find_from_bounds(hs@, open@, off as int);
        }
        let g = match find_char_in(&hs, '>', os) {
            Some(x) => x,
            None => {
                assert(options_view(out@) =~= before + options_between(h@, off as int, close as int));
                return out;
            },
        };
        proof {
            lemma_find_char_bounds(hs@, '>', os as int);
        }
        assert(g < hs.len());
        let oc = match find_seq(&hs, &end_tag, g + 1) {
            Some(x) => x,
            None => {
                assert(options_view(out@) =~= before + options_between(h@, off as int, close as int));
                return out;
            },
        };
        proof {
            lemma_find_from_bounds(hs@, end_tag@, g + 1);
        }
        let tag = slice_range(h, os, g + 1);
        let attrs = parse_attrs(&tag);
        let value = match attr_get(&attrs, "value") {
            Some(v) => v,
            None => String::new(),
        };
        let vc = chars_of(value.as_str());
        let inner = slice_range(h, g + 1, oc);
        let text = strip_html_chars(&inner);
        let label = fallback_label(&text, &vc);
        let selected = attr_get(&attrs, "selected").is_some();
        let opt = QuizAnswerOption { name: None, label: string_of(&label), value, selected };
        out.push(opt);
        assert(options_view(out@) =~= before.push(opt@));
        off = oc + end_tag.len();
    }
}

/// The `<select>` controls of a question, each a single choice over its options.
pub fn parse_selects(h: &[char]) -> (r: Vec<QuizAnswerControl>)
    ensures
        controls_view(r@) == selects_from(h@, 0),
{
    let open = chars_of("<select");
    let end_tag = chars_of("</select>");
    let mut out: Vec<QuizAnswerControl> = Vec::new();
    let mut offset: usize = 0;
    loop
        invariant
            offset <= h@.len(),
            open@ == "<select"@,
            end_tag@ == "</select>"@,
            selects_from(h@, 0) == controls_view(out@) + selects_from(h@, offset as int),
        decreases h.len() - offset,
    {
        let ghost before = controls_view(out@);
        let start = match find_seq(h, &open, offset) {
            Some(x) => x,
            None => {
                assert(controls_view(out@) =~= before + selects_from(h@, offset as int));
                return out;
            },
        };
        proof {
            lemma_find_from_bounds(h@, open@, offset as int);
        }
        let g = match find_char_in(h, '>', start) {
            Some(x) => x,
            None => {
                assert(controls_view(out@) =~= before + selects_from(h@, offset as int));
                return out;
            },
        };
        proof {
            lemma_find_char_bounds(h@, '>', start as int);
        }
        assert(g < h.len());
        let close = match find_seq(h, &end_tag, g + 1) {
            Some(x) => x,
            None => {
                assert(controls_view(out@) =~= before + selects_from(h@, offset as int));
                return out;
            },
        };
        proof {
            lemma_find_from_bounds(h@, end_tag@, g + 1);
        }
        let tag = slice_range(h, start, g + 1);
        let attrs = parse_attrs(&tag);
        match attr_get(&attrs, "name") {
            Some(name) => {
                if !name.as_str().is_empty() {
                    let options = options_between_exec(h, g + 1, close);
                    let control = QuizAnswerControl {
                        name,
                        kind: QuizAnswerKind::SingleChoice,
                        options,
                        value: String::new(),
                    };
                    out.push(control);
                    assert(controls_view(out@) =~= before.push(control@));
                    assert(controls_view(out@) + selects_from(h@, (close + end_tag@.len()) as int) =~= before + selects_from(h@, offset as int));
                }
            },
            None => {},
        }
        offset = close + end_tag.len();
    }
}

/// The `<textarea>` controls of a question with their current text.
pub fn parse_textareas(h: &[char]) -> (r: Vec<QuizAnswerControl>)
    ensures
        controls_view(r@) == textareas_from(h@, 0),
{
    let lower = lower_ascii_chars(h);
    let open = chars_of("<textarea");
    let end_tag = chars_of("</textarea>");
    let mut out: Vec<QuizAnswerControl> = Vec::new();
    let mut offset: usize = 0;
    loop
        invariant
            offset <= h@.len(),
            lower@ == ascii_lower(h@),
            open@ == "<textarea"@,
            end_tag@ == "</textarea>"@,
            textareas_from(h@, 0) == controls_view(out@) + textareas_from(h@, offset as int),
        decreases h.len() - offset,
    {
        let ghost before = controls_view(out@);
        let start = match find_seq(&lower, &open, offset) {
            Some(x) => x,
            None => {
                assert(controls_view(out@) =~= before + textareas_from(h@, offset as int));
                return out;
            },
        };
        proof {
            lemma_find_from_bounds(lower@, open@, offset as int);
        }
        let g = match find_char_in(&lower, '>', start) {
            Some(x) => x,
            None => {
                assert(controls_view(out@) =~= before + textareas_from(h@, offset as int));
                return out;
            },
        };
        proof {
            lemma_find_char_bounds(lower@, '>', start as int);
        }
        assert(g < lower.len());
        let close = match find_seq(&lower, &end_tag, g + 1) {
            Some(x) => x,
            None => {
                assert(controls_view(out@) =~= before + textareas_from(h@, offset as int));
                return out;
            },
        };
        proof {
            lemma_find_from_bounds(lower@, end_tag@, g + 1);
        }
        let tag = slice_range(h, start, g + 1);
        let attrs = parse_attrs(&tag);
        match attr_get(&attrs, "name") {
            Some(name) => {
                if !name.as_str().is_empty() {
                    let inner = slice_range(h, g + 1, close);
                    let text = strip_html_chars(&inner);
                    let control = QuizAnswerControl {
                        name,
                        kind: QuizAnswerKind::Text,
                        options: Vec::new(),
                        value: string_of(&text),
                    };
                    out.push(control);
                    assert(options_view(control.options@) =~= Seq::empty());
                    assert(controls_view(out@) =~= before.push(control@));
                    assert(controls_view(out@) + textareas_from(h@, (close + end_tag@.len()) as int) =~= before + textareas_from(h@, offset as int));
                }
            },
            None => {},
        }
        offset = close + end_tag.len();
    }
}

/// The view of a list of groups.
pub open spec fn groups_view(g: Seq<(String, Vec<QuizAnswerOption>)>) -> Seq<GroupView> {
    g.map_values(|p: (String, Vec<QuizAnswerOption>)| (p.0@, options_view(p.1@)))
}

/// The view of an optional option.
pub open spec fn opt_option_view(o: Option<QuizAnswerOption>) -> Option<OptionView> {
    match o {
        Some(x) => Some(x@),
        None => None,
    }
}

fn group_add_exec(groups: &mut Vec<(String, Vec<QuizAnswerOption>)>, key: String, opt: Option<QuizAnswerOption>)
    ensures
        groups_view(final(groups)@) == group_add(groups_view(old(groups)@), key@, opt_option_view(opt)),
{
    let ghost g0 = groups_view(groups@);
    let kc = chars_of(key.as_str());
    let mut p: usize = 0;
    while p < groups.len() && chars_lt(&chars_of(groups[p].0.as_str()), &kc)
        invariant
            p <= groups@.len(),
            g0 == groups_view(groups@),
            kc@ == key@,
            insert_pos(g0, key@, 0) == insert_pos(g0, key@, p as int),
        decreases groups.len() - p,
    {
        p += 1;
    }
    assert(insert_pos(g0, key@, p as int) == p);
    let ghost extra = match opt_option_view(opt) {
        Some(o) => seq![o],
        None => Seq::<OptionView>::empty(),
    };
    if p < groups.len() && chars_eq(&chars_of(groups[p].0.as_str()), &kc) {
        let (name, mut opts) = groups.remove(p);
        let ghost old_opts = options_view(opts@);
        match opt {
            Some(o) => {
                opts.push(o);
            },
            None => {},
        }
        assert(options_view(opts@) =~= old_opts + extra);
        groups.insert(p, (name, opts));
        assert(groups_view(groups@) =~= g0.update(p as int, (key@, g0[p as int].1 + extra)));
    } else {
        let mut opts: Vec<QuizAnswerOption> = Vec::new();
        match opt {
            Some(o) => {
                opts.push(o);
            },
            None => {},
        }
        assert(options_view(opts@) =~= extra);
        groups.insert(p, (key, opts));
        assert(groups_view(groups@) =~= g0.insert(p as int, (key@, extra)));
    }
}

/// Exec form of an input's contribution.
pub enum InputEntry {
    Skip,
    Inline(QuizAnswerControl),
    Radio(String, Option<QuizAnswerOption>),
    Check(String, Option<QuizAnswerOption>),
}

/// The view of an input's contribution.
pub open spec fn entry_view(e: InputEntry) -> InputItem {
    match e {
        InputEntry::Skip => InputItem::Skip,
        InputEntry::Inline(c) => InputItem::Inline(c@),
        InputEntry::Radio(k, o) => InputItem::Radio(k@, opt_option_view(o)),
        InputEntry::Check(k, o) => InputItem::Check(k@, opt_option_view(o)),
    }
}

fn simple_control(name: String, kind: QuizAnswerKind, value: String) -> (r: QuizAnswerControl)
    ensures
        r@ == (ControlView { name: name@, kind, options: Seq::empty(), value: value@ }),
{
    let r = QuizAnswerControl { name, kind, options: Vec::new(), value };
    assert(options_view(r.options@) =~= Seq::empty());
    r
}

fn classify_exec(input: &InputTag) -> (r: InputEntry)
    ensures
        entry_view(r) == classify(input_view(*input)),
{
    let name = match attr_get(&input.attrs, "name") {
        Some(n) => n,
        None => return InputEntry::Skip,
    };
    let nc = chars_of(name.as_str());
    if nc.len() == 0 || contains_chars(&nc, &chars_of(":flagged")) {
        return InputEntry::Skip;
    }
    let kind: Vec<char> = match attr_get(&input.attrs, "type") {
        Some(t) => lower_ascii_chars(&chars_of(t.as_str())),
        None => chars_of("text"),
    };
    let value = match attr_get(&input.attrs, "value") {
        Some(v) => v,
        None => String::new(),
    };
    let selected = attr_get(&input.attrs, "checked").is_some();
    if chars_eq_str(&kind, "hidden") {
        InputEntry::Inline(simple_control(name, QuizAnswerKind::Hidden, value))
    } else if chars_eq_str(&kind, "radio") {
        let vc = chars_of(value.as_str());
        InputEntry::Radio(name, option_from_input(&nc, &input.label, &vc, selected))
    } else if chars_eq_str(&kind, "checkbox") {
        let vc = chars_of(value.as_str());
        let group = checkbox_group_name(&nc);
        InputEntry::Check(string_of(&group), option_from_input(&nc, &input.label, &vc, selected))
    } else if chars_eq_str(&kind, "text") || chars_eq_str(&kind, "number") {
        InputEntry::Inline(simple_control(name, QuizAnswerKind::Text, value))
    } else if chars_eq_str(&kind, "submit") || chars_eq_str(&kind, "button") {
        InputEntry::Skip
    } else {
        InputEntry::Inline(simple_control(name, QuizAnswerKind::Unsupported, string_of(&kind)))
    }
}

fn groups_into_controls(groups: Vec<(String, Vec<QuizAnswerOption>)>, kind: QuizAnswerKind) -> (r: Vec<QuizAnswerControl>)
    ensures
        controls_view(r@) == group_controls(groups_view(groups@), kind),
{
    let ghost all = groups_view(groups@);
    let mut rest = groups;
    let mut out: Vec<QuizAnswerControl> = Vec::new();
    while rest.len() > 0
        invariant
            all == group_controls_input(out@) + groups_view(rest@),
            controls_view(out@) == group_controls(group_controls_input(out@), kind),
            forall|i: int| 0 <= i < out@.len() ==> (#[trigger] out@[i]).kind == kind && out@[i].value@ == Seq::<char>::empty(),
        decreases rest.len(),
    {
        let ghost before = out@;
        let (name, options) = rest.remove(0);
        let c = QuizAnswerControl { name, kind, options, value: String::new() };
        out.push(c);
        proof {
            assert(group_controls_input(out@) =~= group_controls_input(before).push((c.name@, options_view(c.options@))));
            assert(controls_view(out@) =~= group_controls(group_controls_input(out@), kind));
        }
    }
    assert(groups_view(rest@) =~= Seq::empty());
    assert(all =~= group_controls_input(out@));
    out
}

/// The groups that controls stand for (name and options).
pub open spec fn group_controls_input(cs: Seq<QuizAnswerControl>) -> Seq<GroupView> {
    cs.map_values(|c: QuizAnswerControl| (c.name@, options_view(c.options@)))
}

/// Whether every `<input>` of `html` can have its label read without slicing inside a
/// character (otherwise reading the nearby label panics).
pub fn can_parse_question_controls(html: &str) -> (r: bool)
    ensures
        r == (inputs_from(html@, 0) is Some),
{
    let h = chars_of(html);
    parse_inputs(&h).is_some()
}

/// Every answer control of a question: hidden, text, number and other single inputs in
/// document order, then radio groups and checkbox groups ordered by name, then selects,
/// then textareas.
pub fn parse_question_controls(html: &str) -> (r: Vec<QuizAnswerControl>)
    requires
        inputs_from(html@, 0) is Some,
    ensures
        controls_view(r@) == question_controls(html@),
{
    let h = chars_of(html);
    let inputs = match parse_inputs(&h) {
        Some(v) => v,
        None => return Vec::new(),
    };
    let ghost ivs = inputs@.map_values(|t: InputTag| input_view(t));
    let mut inline: Vec<QuizAnswerControl> = Vec::new();
    let mut radio: Vec<(String, Vec<QuizAnswerOption>)> = Vec::new();
    let mut check: Vec<(String, Vec<QuizAnswerOption>)> = Vec::new();
    let mut k: usize = 0;
    while k < inputs.len()
        invariant
            k <= inputs@.len(),
            ivs == inputs@.map_values(|t: InputTag| input_view(t)),
            controls_view(inline@) == inline_controls(ivs.take(k as int).map_values(|iv: InputView| classify(iv))),
            groups_view(radio@) == radio_groups(ivs.take(k as int).map_values(|iv: InputView| classify(iv))),
            groups_view(check@) == check_groups(ivs.take(k as int).map_values(|iv: InputView| classify(iv))),
        decreases inputs.len() - k,
    {
        let ghost items0 = ivs.take(k as int).map_values(|iv: InputView| classify(iv));
        let ghost items1 = ivs.take(k + 1).map_values(|iv: InputView| classify(iv));
        let ghost inline0 = controls_view(inline@);
        assert(items1.drop_last() =~= items0);
        assert(items1.last() == classify(input_view(inputs@[k as int])));
        let entry = classify_exec(&inputs[k]);
        match entry {
            InputEntry::Skip => {},
            InputEntry::Inline(c) => {
                inline.push(c);
                assert(controls_view(inline@) =~= inline0.push(c@));
            },
            InputEntry::Radio(key, o) => {
                group_add_exec(&mut radio, key, o);
            },
            InputEntry::Check(key, o) => {
                group_add_exec(&mut check, key, o);
            },
        }
        k += 1;
    }
    let ghost items = ivs.map_values(|iv: InputView| classify(iv));
    assert(ivs.take(inputs@.len() as int) =~= ivs);
    let mut out = inline;
    let mut rc = groups_into_controls(radio, QuizAnswerKind::SingleChoice);
    let mut cc = groups_into_controls(check, QuizAnswerKind::MultiChoice);
    let mut sel = parse_selects(&h);
    let mut ta = parse_textareas(&h);
    let ghost a = controls_view(out@);
    let ghost b = controls_view(rc@);
    let ghost c = controls_view(cc@);
    let ghost d = controls_view(sel@);
    let ghost e = controls_view(ta@);
    let ghost s1 = out@;
    let ghost s2 = rc@;
    let ghost s3 = cc@;
    let ghost s4 = sel@;
    let ghost s5 = ta@;
    out.append(&mut rc);
    out.append(&mut cc);
    out.append(&mut sel);
    out.append(&mut ta);
    assert(out@ == s1 + s2 + s3 + s4 + s5);
    assert(controls_view(out@) =~= a + b + c + d + e);
    out
}

/// The inner HTML of the first element whose class attribute is exactly `class_name`
/// (the tag is looked up without regard to ASCII case).
pub open spec fn inner_html_by_class_spec(h: Seq<char>, class_name: Seq<char>) -> Option<Seq<char>> {
    let lower = ascii_lower(h);
    match find_from(lower, "class=\""@ + class_name + "\""@, 0) {
        None => None,
        Some(ci) => match rfind_char(lower, '<', ci) {
            None => None,
            Some(ts) => match find_char(lower, '>', ts) {
                None => None,
                Some(oe) => match first_word(lower.subrange(ts + 1, oe)) {
                    None => None,
                    Some(name) => match find_from(lower, "</"@ + name + ">"@, oe + 1) {
                        None => None,
                        Some(close) => Some(h.subrange(oe + 1, close)),
                    },
                },
            },
        },
    }
}

/// The earlier of two optional positions.
pub open spec fn min_pos(a: Option<int>, b: Option<int>) -> Option<int> {
    match (a, b) {
        (Some(x), Some(y)) => Some(if x <= y { x } else { y }),
        (Some(x), None) => Some(x),
        (None, y) => y,
    }
}

/// Where the first answer control of a question starts, if anywhere.
pub open spec fn first_answer_control(lower: Seq<char>) -> Option<int> {
    min_pos(
        min_pos(
            min_pos(
                min_pos(
                    find_from(lower, "<div class=\"answer\""@, 0),
                    find_from(lower, "<div class=\"ablock\""@, 0),
                ),
                find_from(lower, "<input"@, 0),
            ),
            find_from(lower, "<select"@, 0),
        ),
        find_from(lower, "<textarea"@, 0),
    )
}

/// The question text: the text of the `qtext` element when it has some, else the text
/// before the first answer control, else the text of the whole HTML.
pub open spec fn question_text(h: Seq<char>) -> Seq<char> {
    let from_qtext = match inner_html_by_class_spec(h, "qtext"@) {
        Some(q) => if trim(html_text(q)).len() > 0 {
            Some(html_text(q))
        } else {
            None
        },
        None => None,
    };
    match from_qtext {
        Some(t) => t,
        None => {
            let remaining = match first_answer_control(ascii_lower(h)) {
                Some(i) => h.subrange(0, i),
                None => h,
            };
            let text = html_text(remaining);
            if trim(text).len() == 0 {
                html_text(h)
            } else {
                text
            }
        },
    }
}

fn inner_html_by_class(h: &[char], class_name: &str) -> (r: Option<Vec<char>>)
    ensures
        match inner_html_by_class_spec(h@, class_name@) {
            Some(t) => r matches Some(x) && x@ == t,
            None => r is None,
        },
{
    let lower = lower_ascii_chars(h);
    let marker = concat3(&chars_of("class=\""), &chars_of(class_name), &chars_of("\""));
    let ci = match find_seq(&lower, &marker, 0) {
        Some(x) => x,
        None => return None,
    };
    proof {
        lemma_find_from_bounds(lower@, marker@, 0);
    }
    let ts = match rfind_char_in(&lower, '<', ci) {
        Some(x) => x,
        None => return None,
    };
    proof {
        lemma_rfind_char_bounds(lower@, '<', ci as int);
    }
    let oe = match find_char_in(&lower, '>', ts) {
        Some(x) => x,
        None => return None,
    };
    proof {
        lemma_find_char_bounds(lower@, '>', ts as int);
    }
    assert(oe < lower.len());
    let tag = slice_range(&lower, ts + 1, oe);
    let (wa, wb) = match first_word_bounds(&tag) {
        Some(b) => b,
        None => return None,
    };
    let name = slice_range(&tag, wa, wb);
    let close_tag = concat3(&chars_of("</"), &name, &chars_of(">"));
    let close = match find_seq(&lower, &close_tag, oe + 1) {
        Some(x) => x,
        None => return None,
    };
    proof {
        lemma_find_from_bounds(lower@, close_tag@, oe + 1);
    }
    Some(slice_range(h, oe + 1, close))
}

fn min_pos_exec(a: Option<usize>, b: Option<usize>) -> (r: Option<usize>)
    ensures
        match r {
            Some(x) => min_pos(opt_int(a), opt_int(b)) == Some(x as int),
            None => min_pos(opt_int(a), opt_int(b)) is None,
        },
{
    match (a, b) {
        (Some(x), Some(y)) => Some(if x <= y { x } else { y }),
        (Some(x), None) => Some(x),
        (None, y) => y,
    }
}

/// An optional position as an optional integer.
pub open spec fn opt_int(a: Option<usize>) -> Option<int> {
    match a {
        Some(x) => Some(x as int),
        None => None,
    }
}

fn find_opt(v: &[char], lit: &str) -> (r: Option<usize>)
    ensures
        opt_int(r) == find_from(v@, lit@, 0),
{
    let n = chars_of(lit);
    find_seq(v, &n, 0)
}

/// The readable text of a question, without its answer controls.
pub fn question_text_from_html(html: &str) -> (r: String)
    ensures
        r@ == question_text(html@),
{
    let h = chars_of(html);
    if let Some(q) = inner_html_by_class(&h, "qtext") {
        let text = strip_html_chars(&q);
        let (a, b) = trim_bounds(&text);
        if a < b {
            return string_of(&text);
        }
    }
    let lower = lower_ascii_chars(&h);
    let i1 = find_opt(&lower, "<div class=\"answer\"");
    let i2 = find_opt(&lower, "<div class=\"ablock\"");
    let i3 = find_opt(&lower, "<input");
    let i4 = find_opt(&lower, "<select");
    let i5 = find_opt(&lower, "<textarea");
    let m = min_pos_exec(min_pos_exec(min_pos_exec(min_pos_exec(i1, i2), i3), i4), i5);
    let remaining = match m {
        Some(i) => {
            proof {
                assert(i == i1.unwrap() || i == i2.unwrap() || i == i3.unwrap() || i == i4.unwrap() || i == i5.unwrap());
                lemma_find_from_bounds(lower@, "<div class=\"answer\""@, 0);
                lemma_find_from_bounds(lower@, "<div class=\"ablock\""@, 0);
                lemma_find_from_bounds(lower@, "<input"@, 0);
                lemma_find_from_bounds(lower@, "<select"@, 0);
                lemma_find_from_bounds(lower@, "<textarea"@, 0);
            }
            slice_range(&h, 0, i)
        },
        None => slice_range(&h, 0, h.len()),
    };
    assert(h@.subrange(0, h@.len() as int) =~= h@);
    let text = strip_html_chars(&remaining);
    let (a, b) = trim_bounds(&text);
    if a == b {
        let all = strip_html_chars(&h);
        string_of(&all)
    } else {
        string_of(&text)
    }
}

/// The answer fields that one control contributes.
pub open spec fn control_params(c: ControlView) -> Seq<(Seq<char>, Seq<char>)> {
    match c.kind {
        QuizAnswerKind::Hidden | QuizAnswerKind::Text => seq![(c.name, c.value)],
        QuizAnswerKind::SingleChoice => match first_selected(c.options, 0) {
            Some(i) => seq![(c.name, c.options[i].value)],
            None => Seq::empty(),
        },
        QuizAnswerKind::MultiChoice => multi_params(c.name, c.options),
        QuizAnswerKind::Unsupported => Seq::empty(),
    }
}

/// The first selected option at or after `i`.
pub open spec fn first_selected(os: Seq<OptionView>, i: int) -> Option<int>
    decreases os.len() - i,
{
    if i < 0 || i >= os.len() {
        None
    } else if os[i].selected {
        Some(i)
    } else {
        first_selected(os, i + 1)
    }
}

/// One field per selected option, named by the option (or else by the control).
pub open spec fn multi_params(name: Seq<char>, os: Seq<OptionView>) -> Seq<(Seq<char>, Seq<char>)>
    decreases os.len(),
{
    if os.len() == 0 {
        Seq::empty()
    } else {
        let rest = multi_params(name, os.drop_last());
        let o = os.last();
        if o.selected {
            rest.push(
                (
                    match o.name {
                        Some(n) => n,
                        None => name,
                    },
                    o.value,
                ),
            )
        } else {
            rest
        }
    }
}

/// The answer fields of all controls, in order.
pub open spec fn answer_params(cs: Seq<ControlView>) -> Seq<(Seq<char>, Seq<char>)>
    decreases cs.len(),
{
    if cs.len() == 0 {
        Seq::empty()
    } else {
        answer_params(cs.drop_last()) + control_params(cs.last())
    }
}

/// The view of a list of string pairs.
pub open spec fn pairs_view(p: Seq<(String, String)>) -> Seq<(Seq<char>, Seq<char>)> {
    p.map_values(|x: (String, String)| (x.0@, x.1@))
}

fn control_params_exec(control: &QuizAnswerControl, out: &mut Vec<(String, String)>)
    ensures
        pairs_view(final(out)@) == pairs_view(old(out)@) + control_params(control@),
{
    let ghost start = pairs_view(out@);
    match control.kind {
        QuizAnswerKind::Hidden | QuizAnswerKind::Text => {
            out.push((control.name.clone(), control.value.clone()));
            assert(pairs_view(out@) =~= start + control_params(control@));
        },
        QuizAnswerKind::SingleChoice => {
            let ghost ov = options_view(control.options@);
            let mut i: usize = 0;
            while i < control.options.len()
                invariant
                    i <= control.options@.len(),
                    ov == options_view(control.options@),
                    first_selected(ov, 0) == first_selected(ov, i as int),
                    pairs_view(out@) == start,
                    control.kind == QuizAnswerKind::SingleChoice,
                    start == pairs_view(old(out)@),
                decreases control.options.len() - i,
            {
                if control.options[i].selected {
                    assert(ov[i as int] == control.options@[i as int]@);
                    assert(first_selected(ov, i as int) == Some(i as int));
                    let pair = (control.name.clone(), control.options[i].value.clone());
                    out.push(pair);
                    assert(control@.options == ov);
                    assert(control_params(control@) == seq![(control@.name, ov[i as int].value)]);
                    assert(pairs_view(out@) =~= start.push((pair.0@, pair.1@)));
                    assert(pairs_view(out@) =~= start + control_params(control@));
                    return;
                }
                i += 1;
            }
            assert(pairs_view(out@) =~= start + control_params(control@));
        },
        QuizAnswerKind::MultiChoice => {
            let ghost ov = options_view(control.options@);
            let mut i: usize = 0;
            while i < control.options.len()
                invariant
                    i <= control.options@.len(),
                    ov == options_view(control.options@),
                    pairs_view(out@) == start + multi_params(control.name@, ov.take(i as int)),
                decreases control.options.len() - i,
            {
                let ghost before = pairs_view(out@);
                assert(ov.take(i + 1).drop_last() =~= ov.take(i as int));
                let option = &control.options[i];
                if option.selected {
                    let n = match &option.name {
                        Some(n) => n.clone(),
                        None => control.name.clone(),
                    };
                    out.push((n, option.value.clone()));
                    assert(pairs_view(out@) =~= before.push((n@, option.value@)));
                }
                i += 1;
            }
            assert(ov.take(ov.len() as int) =~= ov);
        },
        QuizAnswerKind::Unsupported => {
            assert(pairs_view(out@) =~= start + control_params(control@));
        },
    }
}

/// The `(name, value)` fields that submit the answers of `controls`: hidden and text
/// controls their value, a single choice its first selected option, a multiple choice one
/// field per selected option, unsupported controls nothing.
pub fn build_answer_params(controls: &[QuizAnswerControl]) -> (r: Vec<(String, String)>)
    ensures
        pairs_view(r@) == answer_params(controls_view(controls@)),
{
    let ghost cv = controls_view(controls@);
    let mut out: Vec<(String, String)> = Vec::new();
    let mut i: usize = 0;
    while i < controls.len()
        invariant
            i <= controls@.len(),
            cv == controls_view(controls@),
            pairs_view(out@) == answer_params(cv.take(i as int)),
        decreases controls.len() - i,
    {
        assert(cv.take(i + 1).drop_last() =~= cv.take(i as int));
        control_params_exec(&controls[i], &mut out);
        i += 1;
    }
    assert(cv.take(cv.len() as int) =~= cv);
    out
}


proof fn lemma_inline_controls_contain(items: Seq<InputItem>, i: int, cv: ControlView)
    requires
        0 <= i < items.len(),
        items[i] == InputItem::Inline(cv),
    ensures
        inline_controls(items).contains(cv),
    decreases items.len(),
{
    let c = inline_controls(items.drop_last());
    if i < items.len() - 1 {
        assert(items.drop_last()[i] == items[i]);
        lemma_inline_controls_contain(items.drop_last(), i, cv);
        let k = choose|k: int| 0 <= k < c.len() && c[k] == cv;
        match items.last() {
            InputItem::Inline(x) => {
                assert(inline_controls(items)[k] == c[k]);
            },
            _ => {},
        }
    } else {
        assert(inline_controls(items) == c.push(cv));
        assert(inline_controls(items)[c.len() as int] == cv);
    }
}

/// The value an `<input>` carries: its `value` attribute, or nothing when it has none.
pub open spec fn input_value(attrs: Seq<(Seq<char>, Seq<char>)>) -> Seq<char> {
    match lookup(attrs, "value"@) {
        Some(v) => v,
        None => Seq::empty(),
    }
}

/// Every named `<input>` of a question (other than a flag) whose type is `hidden` becomes a
/// hidden control under its name that keeps the input's value, which saving the answers has
/// to send back.
pub proof fn law_hidden_inputs_keep_their_value(h: Seq<char>, i: int, name: Seq<char>, input_type: Seq<char>)
    requires
        inputs_from(h, 0) is Some,
        0 <= i < inputs_from(h, 0)->0.len(),
        lookup(inputs_from(h, 0)->0[i].attrs, "name"@) == Some(name),
        name.len() > 0,
        !contains_seq(name, ":flagged"@),
        lookup(inputs_from(h, 0)->0[i].attrs, "type"@) == Some(input_type),
        ascii_lower(input_type) == "hidden"@,
    ensures
        question_controls(h).contains(
            ControlView {
                name,
                kind: QuizAnswerKind::Hidden,
                options: Seq::empty(),
                value: input_value(inputs_from(h, 0)->0[i].attrs),
            },
        ),
{
    let ivs = inputs_from(h, 0)->0;
    let items = ivs.map_values(|iv: InputView| classify(iv));
    let cv = ControlView {
        name,
        kind: QuizAnswerKind::Hidden,
        options: Seq::empty(),
        value: input_value(ivs[i].attrs),
    };
    assert(items[i] == classify(ivs[i]));
    assert(items[i] == InputItem::Inline(cv));
    lemma_inline_controls_contain(items, i, cv);
    let inline = inline_controls(items);
    let k = choose|k: int| 0 <= k < inline.len() && inline[k] == cv;
    assert(question_controls(h)[k] == inline[k]);
}

/// Every named `<input>` of a question (other than a flag) whose type is `text` or `number`,
/// or that has no type, becomes a text control under its name holding the input's value.
pub proof fn law_text_inputs_keep_their_value(h: Seq<char>, i: int, name: Seq<char>)
    requires
        inputs_from(h, 0) is Some,
        0 <= i < inputs_from(h, 0)->0.len(),
        lookup(inputs_from(h, 0)->0[i].attrs, "name"@) == Some(name),
        name.len() > 0,
        !contains_seq(name, ":flagged"@),
        match lookup(inputs_from(h, 0)->0[i].attrs, "type"@) {
            Some(t) => ascii_lower(t) == "text"@ || ascii_lower(t) == "number"@,
            None => true,
        },
    ensures
        question_controls(h).contains(
            ControlView {
                name,
                kind: QuizAnswerKind::Text,
                options: Seq::empty(),
                value: input_value(inputs_from(h, 0)->0[i].attrs),
            },
        ),
{
    let ivs = inputs_from(h, 0)->0;
    let items = ivs.map_values(|iv: InputView| classify(iv));
    let cv = ControlView {
        name,
        kind: QuizAnswerKind::Text,
        options: Seq::empty(),
        value: input_value(ivs[i].attrs),
    };
    reveal_strlit("text");
    reveal_strlit("number");
    reveal_strlit("hidden");
    reveal_strlit("radio");
    reveal_strlit("checkbox");
    assert("number"@[0] != "hidden"@[0] && "number"@[0] != "radio"@[0]);
    assert("text"@.len() != "hidden"@.len() && "text"@.len() != "radio"@.len() && "text"@.len() != "checkbox"@.len());
    assert("number"@.len() != "radio"@.len() && "number"@.len() != "checkbox"@.len());
    assert(items[i] == classify(ivs[i]));
    assert(items[i] == InputItem::Inline(cv));
    lemma_inline_controls_contain(items, i, cv);
    let inline = inline_controls(items);
    let k = choose|k: int| 0 <= k < inline.len() && inline[k] == cv;
    assert(question_controls(h)[k] == inline[k]);
}

} // verus!
