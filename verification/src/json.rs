use vstd::prelude::*;

verus! {

// A consensus decoder cannot borrow a JSON reader: duplicate-key resolution
// and strict typing must be bit-exact on every node, so the grammar is this
// library's own logic. The parser below validates a complete JSON text and
// keeps, for the one top-level object, every key/value pair in textual
// order (duplicates included). Values that no protocol field may carry
// (numbers, arrays, nested objects, null) are validated and kept by kind
// only. Each executable function returns exactly what its spec-level
// counterpart describes.

/// One JSON value as the decoder keeps it.
#[derive(Debug, Clone, PartialEq, Eq)]
pub enum JsonValue {
    Str(Vec<char>),
    Bool(bool),
    Number,
    Null,
    Array,
    Object,
}

/// Spec-level counterpart of `JsonValue`.
pub enum JsonVal {
    Str(Seq<char>),
    Bool(bool),
    Number,
    Null,
    Array,
    Object,
}

impl View for JsonValue {
    type V = JsonVal;

    open spec fn view(&self) -> JsonVal {
        match self {
            JsonValue::Str(s) => JsonVal::Str(s@),
            JsonValue::Bool(b) => JsonVal::Bool(*b),
            JsonValue::Number => JsonVal::Number,
            JsonValue::Null => JsonVal::Null,
            JsonValue::Array => JsonVal::Array,
            JsonValue::Object => JsonVal::Object,
        }
    }
}

/// The key/value pairs of an object, as the spec level sees them.
pub open spec fn entries_view(es: Seq<(Vec<char>, JsonValue)>) -> Seq<(Seq<char>, JsonVal)> {
    es.map_values(|p: (Vec<char>, JsonValue)| (p.0@, p.1@))
}

/// JSON insignificant whitespace.
pub open spec fn is_ws(c: char) -> bool {
    c == ' ' || c == '\t' || c == '\n' || c == '\r'
}

pub open spec fn is_digit(c: char) -> bool {
    '0' as u32 <= c as u32 && c as u32 <= '9' as u32
}

/// Value of a hexadecimal digit, or -1 when `c` is none.
pub open spec fn hex_digit_val(c: char) -> int {
    let u = c as u32;
    if '0' as u32 <= u && u <= '9' as u32 {
        u - '0' as u32
    } else if 'a' as u32 <= u && u <= 'f' as u32 {
        u - 'a' as u32 + 10
    } else if 'A' as u32 <= u && u <= 'F' as u32 {
        u - 'A' as u32 + 10
    } else {
        -1
    }
}

/// Code point of a unicode scalar.
pub open spec fn char_code(ch: char) -> int {
    ch as int
}

/// The unicode scalar with code point `c` (meaningful only when `c` is a
/// valid scalar value).
pub open spec fn char_from_code(c: int) -> char {
    choose|ch: char| char_code(ch) == c
}

/// First position at or after `i` holding no whitespace.
pub open spec fn spec_skip_ws(s: Seq<char>, i: int) -> int
    decreases s.len() - i,
{
    if 0 <= i < s.len() && is_ws(s[i]) {
        spec_skip_ws(s, i + 1)
    } else {
        i
    }
}

/// First position at or after `i` holding no decimal digit.
pub open spec fn spec_digits_end(s: Seq<char>, i: int) -> int
    decreases s.len() - i,
{
    if 0 <= i < s.len() && is_digit(s[i]) {
        spec_digits_end(s, i + 1)
    } else {
        i
    }
}

/// Four hexadecimal digits at `i`, combined; -1 when absent.
pub open spec fn spec_hex4(s: Seq<char>, i: int) -> int {
    if !(0 <= i && i + 4 <= s.len()) {
        -1
    } else {
        let a = hex_digit_val(s[i]);
        let b = hex_digit_val(s[i + 1]);
        let c = hex_digit_val(s[i + 2]);
        let d = hex_digit_val(s[i + 3]);
        if a < 0 || b < 0 || c < 0 || d < 0 {
            -1
        } else {
            4096 * a + 256 * b + 16 * c + d
        }
    }
}

/// A `\u` escape starting at `i` (after the `u`): either one scalar, or a
/// surrogate pair combined into one supplementary-plane scalar. A lone or
/// misordered surrogate is rejected.
pub open spec fn spec_scan_unicode(s: Seq<char>, i: int) -> Option<(char, int)> {
    let c1 = spec_hex4(s, i);
    if c1 < 0 {
        None
    } else if 0xD800 <= c1 < 0xDC00 {
        if !(i + 6 <= s.len() && s[i + 4] == '\\' && s[i + 5] == 'u') {
            None
        } else {
            let c2 = spec_hex4(s, i + 6);
            if 0xDC00 <= c2 < 0xE000 {
                Some((char_from_code(0x10000 + (c1 - 0xD800) * 0x400 + (c2 - 0xDC00)), i + 10))
            } else {
                None
            }
        }
    } else if 0xDC00 <= c1 < 0xE000 {
        None
    } else {
        Some((char_from_code(c1), i + 4))
    }
}

/// One escape sequence starting at `i` (after the backslash).
pub open spec fn spec_scan_escape(s: Seq<char>, i: int) -> Option<(char, int)> {
    if !(0 <= i < s.len()) {
        None
    } else {
        let c = s[i];
        if c == '"' {
            Some(('"', i + 1))
        } else if c == '\\' {
            Some(('\\', i + 1))
        } else if c == '/' {
            Some(('/', i + 1))
        } else if c == 'b' {
            Some(('\u{8}', i + 1))
        } else if c == 'f' {
            Some(('\u{c}', i + 1))
        } else if c == 'n' {
            Some(('\n', i + 1))
        } else if c == 'r' {
            Some(('\r', i + 1))
        } else if c == 't' {
            Some(('\t', i + 1))
        } else if c == 'u' {
            spec_scan_unicode(s, i + 1)
        } else {
            None
        }
    }
}

/// The rest of a string literal starting at `i` (after the opening quote):
/// the decoded content and the position after the closing quote. Unescaped
/// control characters are rejected.
pub open spec fn spec_scan_string(s: Seq<char>, i: int) -> Option<(Seq<char>, int)>
    decreases s.len() - i,
{
    if !(0 <= i < s.len()) {
        None
    } else {
        let c = s[i];
        if c == '"' {
            Some((Seq::empty(), i + 1))
        } else if c == '\\' {
            match spec_scan_escape(s, i + 1) {
                None => None,
                Some((ec, j)) => if !(i < j <= s.len()) {
                    None
                } else {
                    match spec_scan_string(s, j) {
                        None => None,
                        Some((rest, k)) => Some((seq![ec] + rest, k)),
                    }
                },
            }
        } else if (c as u32) < 0x20 {
            None
        } else {
            match spec_scan_string(s, i + 1) {
                None => None,
                Some((rest, k)) => Some((seq![c] + rest, k)),
            }
        }
    }
}

/// A number starting at `i`; returns the position after it.
pub open spec fn spec_scan_number(s: Seq<char>, i: int) -> Option<int> {
    if !(0 <= i < s.len()) {
        None
    } else {
        let j = if s[i] == '-' {
            i + 1
        } else {
            i
        };
        if !(j < s.len() && is_digit(s[j])) {
            None
        } else {
            let k = if s[j] == '0' {
                j + 1
            } else {
                spec_digits_end(s, j)
            };
            let f = if k < s.len() && s[k] == '.' {
                if k + 1 < s.len() && is_digit(s[k + 1]) {
                    spec_digits_end(s, k + 1)
                } else {
                    -1
                }
            } else {
                k
            };
            if f < 0 {
                None
            } else {
                let g = if f < s.len() && (s[f] == 'e' || s[f] == 'E') {
                    let m = if f + 1 < s.len() && (s[f + 1] == '+' || s[f + 1] == '-') {
                        f + 2
                    } else {
                        f + 1
                    };
                    if m < s.len() && is_digit(s[m]) {
                        spec_digits_end(s, m)
                    } else {
                        -1
                    }
                } else {
                    f
                };
                if g < 0 {
                    None
                } else {
                    Some(g)
                }
            }
        }
    }
}

/// One JSON value starting exactly at `i`.
pub open spec fn spec_parse_value(s: Seq<char>, i: int) -> Option<(JsonVal, int)>
    decreases s.len() - i, 2int,
{
    if !(0 <= i < s.len()) {
        None
    } else {
        let c = s[i];
        if c == '"' {
            match spec_scan_string(s, i + 1) {
                None => None,
                Some((cs, j)) => Some((JsonVal::Str(cs), j)),
            }
        } else if c == '{' {
            match spec_parse_members_first(s, i + 1) {
                None => None,
                Some((_es, j)) => Some((JsonVal::Object, j)),
            }
        } else if c == '[' {
            match spec_parse_items_first(s, i + 1) {
                None => None,
                Some(j) => Some((JsonVal::Array, j)),
            }
        } else if c == 't' {
            if i + 4 <= s.len() && s[i + 1] == 'r' && s[i + 2] == 'u' && s[i + 3] == 'e' {
                Some((JsonVal::Bool(true), i + 4))
            } else {
                None
            }
        } else if c == 'f' {
            if i + 5 <= s.len() && s[i + 1] == 'a' && s[i + 2] == 'l' && s[i + 3] == 's' && s[i + 4]
                == 'e' {
                Some((JsonVal::Bool(false), i + 5))
            } else {
                None
            }
        } else if c == 'n' {
            if i + 4 <= s.len() && s[i + 1] == 'u' && s[i + 2] == 'l' && s[i + 3] == 'l' {
                Some((JsonVal::Null, i + 4))
            } else {
                None
            }
        } else if c == '-' || is_digit(c) {
            match spec_scan_number(s, i) {
                None => None,
                Some(j) => Some((JsonVal::Number, j)),
            }
        } else {
            None
        }
    }
}

/// One `"key": value` member starting exactly at the opening quote.
pub open spec fn spec_parse_entry(s: Seq<char>, i: int) -> Option<((Seq<char>, JsonVal), int)>
    decreases s.len() - i, 0int,
{
    if !(0 <= i < s.len() && s[i] == '"') {
        None
    } else {
        match spec_scan_string(s, i + 1) {
            None => None,
            Some((key, j)) => {
                let m = spec_skip_ws(s, j);
                if !(0 <= m < s.len() && s[m] == ':') {
                    None
                } else {
                    let p = spec_skip_ws(s, m + 1);
                    if !(i < p <= s.len()) {
                        None
                    } else {
                        match spec_parse_value(s, p) {
                            None => None,
                            Some((v, q)) => Some(((key, v), q)),
                        }
                    }
                }
            },
        }
    }
}

/// Members of an object, starting right after the opening brace.
pub open spec fn spec_parse_members_first(s: Seq<char>, i: int) -> Option<
    (Seq<(Seq<char>, JsonVal)>, int),
>
    decreases s.len() - i, 3int,
{
    if !(0 <= i <= s.len()) {
        None
    } else {
        let j = spec_skip_ws(s, i);
        if j < s.len() && s[j] == '}' {
            Some((Seq::empty(), j + 1))
        } else if !(i <= j <= s.len()) {
            None
        } else {
            match spec_parse_entry(s, j) {
                None => None,
                Some((e, q)) => if !(i < q <= s.len()) {
                    None
                } else {
                    match spec_parse_members_rest(s, q) {
                        None => None,
                        Some((rest, r)) => Some((seq![e] + rest, r)),
                    }
                },
            }
        }
    }
}

/// Members of an object after the first, starting right after a member.
pub open spec fn spec_parse_members_rest(s: Seq<char>, i: int) -> Option<
    (Seq<(Seq<char>, JsonVal)>, int),
>
    decreases s.len() - i, 3int,
{
    if !(0 <= i <= s.len()) {
        None
    } else {
        let j = spec_skip_ws(s, i);
        if j < s.len() && s[j] == '}' {
            Some((Seq::empty(), j + 1))
        } else if j < s.len() && s[j] == ',' {
            let p = spec_skip_ws(s, j + 1);
            if !(i < p <= s.len()) {
                None
            } else {
                match spec_parse_entry(s, p) {
                    None => None,
                    Some((e, q)) => if !(i < q <= s.len()) {
                        None
                    } else {
                        match spec_parse_members_rest(s, q) {
                            None => None,
                            Some((rest, r)) => Some((seq![e] + rest, r)),
                        }
                    },
                }
            }
        } else {
            None
        }
    }
}

/// Items of an array, starting right after the opening bracket.
pub open spec fn spec_parse_items_first(s: Seq<char>, i: int) -> Option<int>
    decreases s.len() - i, 3int,
{
    if !(0 <= i <= s.len()) {
        None
    } else {
        let j = spec_skip_ws(s, i);
        if j < s.len() && s[j] == ']' {
            Some(j + 1)
        } else if !(i <= j <= s.len()) {
            None
        } else {
            match spec_parse_value(s, j) {
                None => None,
                Some((_v, q)) => if !(i < q <= s.len()) {
                    None
                } else {
                    spec_parse_items_rest(s, q)
                },
            }
        }
    }
}

/// Items of an array after the first, starting right after an item.
pub open spec fn spec_parse_items_rest(s: Seq<char>, i: int) -> Option<int>
    decreases s.len() - i, 3int,
{
    if !(0 <= i <= s.len()) {
        None
    } else {
        let j = spec_skip_ws(s, i);
        if j < s.len() && s[j] == ']' {
            Some(j + 1)
        } else if j < s.len() && s[j] == ',' {
            let p = spec_skip_ws(s, j + 1);
            if !(i < p <= s.len()) {
                None
            } else {
                match spec_parse_value(s, p) {
                    None => None,
                    Some((_v, q)) => if !(i < q <= s.len()) {
                        None
                    } else {
                        spec_parse_items_rest(s, q)
                    },
                }
            }
        } else {
            None
        }
    }
}

/// A complete payload: one JSON object with nothing but whitespace around
/// it. The result keeps every member in textual order, duplicates included.
pub open spec fn spec_parse_payload(s: Seq<char>) -> Option<Seq<(Seq<char>, JsonVal)>> {
    let i = spec_skip_ws(s, 0);
    if !(0 <= i < s.len() && s[i] == '{') {
        None
    } else {
        match spec_parse_members_first(s, i + 1) {
            None => None,
            Some((es, j)) => if spec_skip_ws(s, j) == s.len() {
                Some(es)
            } else {
                None
            },
        }
    }
}

/// Value of the last member with the given key, if any: the wire payload is
/// attacker-controlled, and on duplicate keys the last occurrence wins.
pub open spec fn last_entry(es: Seq<(Seq<char>, JsonVal)>, key: Seq<char>) -> Option<JsonVal>
    decreases es.len(),
{
    if es.len() == 0 {
        None
    } else if es.last().0 == key {
        Some(es.last().1)
    } else {
        last_entry(es.drop_last(), key)
    }
}

/// Duplicate-key resolution is "last occurrence wins": if member `i`
/// matches `key` and no later member does, the lookup yields member `i`'s
/// value — independently for each key.
pub proof fn lemma_last_entry_wins(es: Seq<(Seq<char>, JsonVal)>, key: Seq<char>, i: int)
    requires
        0 <= i < es.len(),
        es[i].0 == key,
        forall|j: int| i < j < es.len() ==> (#[trigger] es[j]).0 != key,
    ensures
        last_entry(es, key) == Some(es[i].1),
    decreases es.len(),
{
    if i < es.len() - 1 {
        lemma_last_entry_wins(es.drop_last(), key, i);
    }
}

/// Relies on char::from_u32: returns the scalar with the given code point,
/// and None exactly for surrogate code points and values above the Unicode
/// maximum.
#[verifier::external_body]
fn char_of_u32(c: u32) -> (r: Option<char>)
    ensures
        r is Some <==> (c < 0xD800 || (0xE000 <= c && c <= 0x10FFFF)),
        r is Some ==> r->0 as u32 == c && r->0 == char_from_code(c as int),
{
    char::from_u32(c)
}

fn is_ws_exec(c: char) -> (r: bool)
    ensures
        r == is_ws(c),
{
    c == ' ' || c == '\t' || c == '\n' || c == '\r'
}

fn is_digit_exec(c: char) -> (r: bool)
    ensures
        r == is_digit(c),
{
    let u = c as u32;
    48 <= u && u <= 57
}

fn hex_digit(c: char) -> (r: i32)
    ensures
        r as int == hex_digit_val(c),
{
    let u = c as u32;
    if 48 <= u && u <= 57 {
        (u - 48) as i32
    } else if 97 <= u && u <= 102 {
        (u - 97) as i32 + 10
    } else if 65 <= u && u <= 70 {
        (u - 65) as i32 + 10
    } else {
        -1
    }
}

fn skip_ws(s: &Vec<char>, i: usize) -> (r: usize)
    ensures
        r as int == spec_skip_ws(s@, i as int),
        i <= r,
        i <= s.len() ==> r <= s.len(),
{
    let mut j = i;
    while j < s.len() && is_ws_exec(s[j])
        invariant
            i <= j,
            i <= s@.len() ==> j <= s@.len(),
            spec_skip_ws(s@, i as int) == spec_skip_ws(s@, j as int),
        decreases s.len() - j,
    {
        j = j + 1;
    }
    j
}

fn digits_end(s: &Vec<char>, i: usize) -> (r: usize)
    ensures
        r as int == spec_digits_end(s@, i as int),
        i <= r,
        i <= s.len() ==> r <= s.len(),
{
    let mut j = i;
    while j < s.len() && is_digit_exec(s[j])
        invariant
            i <= j,
            i <= s@.len() ==> j <= s@.len(),
            spec_digits_end(s@, i as int) == spec_digits_end(s@, j as int),
        decreases s.len() - j,
    {
        j = j + 1;
    }
    j
}

fn hex4(s: &Vec<char>, i: usize) -> (r: i32)
    ensures
        r as int == spec_hex4(s@, i as int),
{
    if !(i <= s.len() && s.len() - i >= 4) {
        return -1;
    }
    let a = hex_digit(s[i]);
    let b = hex_digit(s[i + 1]);
    let c = hex_digit(s[i + 2]);
    let d = hex_digit(s[i + 3]);
    if a < 0 || b < 0 || c < 0 || d < 0 {
        -1
    } else {
        4096 * a + 256 * b + 16 * c + d
    }
}

fn scan_unicode(s: &Vec<char>, i: usize) -> (r: Option<(char, usize)>)
    requires
        i <= s.len(),
    ensures
        match (r, spec_scan_unicode(s@, i as int)) {
            (Some(p), Some(q)) => p.0 == q.0 && p.1 as int == q.1,
            (None, None) => true,
            _ => false,
        },
{
    let c1 = hex4(s, i);
    if c1 < 0 {
        None
    } else if 0xD800 <= c1 && c1 < 0xDC00 {
        if !(s.len() - i >= 6 && s[i + 4] == '\\' && s[i + 5] == 'u') {
            None
        } else {
            let c2 = hex4(s, i + 6);
            if 0xDC00 <= c2 && c2 < 0xE000 {
                let code: u32 = 0x10000 + (c1 as u32 - 0xD800) * 0x400 + (c2 as u32 - 0xDC00);
                match char_of_u32(code) {
                    Some(ch) => Some((ch, i + 10)),
                    None => {
                        proof {
                            assert(false);
                        }
                        None
                    },
                }
            } else {
                None
            }
        }
    } else if 0xDC00 <= c1 && c1 < 0xE000 {
        None
    } else {
        match char_of_u32(c1 as u32) {
            Some(ch) => Some((ch, i + 4)),
            None => {
                proof {
                    assert(false);
                }
                None
            },
        }
    }
}

fn scan_escape(s: &Vec<char>, i: usize) -> (r: Option<(char, usize)>)
    requires
        i <= s.len(),
    ensures
        match (r, spec_scan_escape(s@, i as int)) {
            (Some(p), Some(q)) => p.0 == q.0 && p.1 as int == q.1,
            (None, None) => true,
            _ => false,
        },
{
    if i >= s.len() {
        return None;
    }
    let c = s[i];
    if c == '"' {
        Some(('"', i + 1))
    } else if c == '\\' {
        Some(('\\', i + 1))
    } else if c == '/' {
        Some(('/', i + 1))
    } else if c == 'b' {
        Some(('\u{8}', i + 1))
    } else if c == 'f' {
        Some(('\u{c}', i + 1))
    } else if c == 'n' {
        Some(('\n', i + 1))
    } else if c == 'r' {
        Some(('\r', i + 1))
    } else if c == 't' {
        Some(('\t', i + 1))
    } else if c == 'u' {
        scan_unicode(s, i + 1)
    } else {
        None
    }
}

fn scan_string(s: &Vec<char>, i: usize) -> (r: Option<(Vec<char>, usize)>)
    requires
        i <= s.len(),
    ensures
        match (r, spec_scan_string(s@, i as int)) {
            (Some(p), Some(q)) => p.0@ == q.0 && p.1 as int == q.1 && p.1 <= s.len(),
            (None, None) => true,
            _ => false,
        },
{
    let mut out: Vec<char> = Vec::new();
    let mut j = i;
    loop
        invariant
            i <= j <= s.len(),
            (match spec_scan_string(s@, j as int) {
                Some((rest, k)) => spec_scan_string(s@, i as int) == Some((out@ + rest, k)),
                None => spec_scan_string(s@, i as int) is None,
            }),
        decreases s.len() - j,
    {
        if j >= s.len() {
            return None;
        }
        let c = s[j];
        if c == '"' {
            proof {
                assert(out@ + Seq::<char>::empty() =~= out@);
            }
            return Some((out, j + 1));
        } else if c == '\\' {
            match scan_escape(s, j + 1) {
                None => {
                    return None;
                },
                Some((ec, m)) => {
                    if !(j < m && m <= s.len()) {
                        return None;
                    }
                    proof {
                        match spec_scan_string(s@, m as int) {
                            Some((rest, _k)) => {
                                assert(out@ + (seq![ec] + rest) =~= out@.push(ec) + rest);
                            },
                            None => {},
                        }
                    }
                    out.push(ec);
                    j = m;
                },
            }
        } else if (c as u32) < 0x20 {
            return None;
        } else {
            proof {
                match spec_scan_string(s@, j + 1) {
                    Some((rest, _k)) => {
                        assert(out@ + (seq![c] + rest) =~= out@.push(c) + rest);
                    },
                    None => {},
                }
            }
            out.push(c);
            j = j + 1;
        }
    }
}

fn scan_number(s: &Vec<char>, i: usize) -> (r: Option<usize>)
    requires
        i <= s.len(),
    ensures
        match (r, spec_scan_number(s@, i as int)) {
            (Some(u), Some(v)) => u as int == v && u <= s.len(),
            (None, None) => true,
            _ => false,
        },
{
    if i >= s.len() {
        return None;
    }
    let j = if s[i] == '-' {
        i + 1
    } else {
        i
    };
    if !(j < s.len() && is_digit_exec(s[j])) {
        return None;
    }
    let k = if s[j] == '0' {
        j + 1
    } else {
        digits_end(s, j)
    };
    let mut f = k;
    if k < s.len() && s[k] == '.' {
        if k + 1 < s.len() && is_digit_exec(s[k + 1]) {
            f = digits_end(s, k + 1);
        } else {
            return None;
        }
    }
    let mut g = f;
    if f < s.len() && (s[f] == 'e' || s[f] == 'E') {
        let m = if f + 1 < s.len() && (s[f + 1] == '+' || s[f + 1] == '-') {
            f + 2
        } else {
            f + 1
        };
        if m < s.len() && is_digit_exec(s[m]) {
            g = digits_end(s, m);
        } else {
            return None;
        }
    }
    Some(g)
}

fn parse_value(s: &Vec<char>, i: usize) -> (r: Option<(JsonValue, usize)>)
    requires
        i <= s.len(),
    ensures
        match (r, spec_parse_value(s@, i as int)) {
            (Some(p), Some(q)) => p.0@ == q.0 && p.1 as int == q.1 && p.1 <= s.len(),
            (None, None) => true,
            _ => false,
        },
    decreases s.len() - i, 2int,
{
    if i >= s.len() {
        return None;
    }
    let c = s[i];
    if c == '"' {
        match scan_string(s, i + 1) {
            None => None,
            Some((cs, j)) => Some((JsonValue::Str(cs), j)),
        }
    } else if c == '{' {
        match parse_members_first(s, i + 1) {
            None => None,
            Some((_es, j)) => Some((JsonValue::Object, j)),
        }
    } else if c == '[' {
        match parse_items_first(s, i + 1) {
            None => None,
            Some(j) => Some((JsonValue::Array, j)),
        }
    } else if c == 't' {
        if s.len() - i >= 4 && s[i + 1] == 'r' && s[i + 2] == 'u' && s[i + 3] == 'e' {
            Some((JsonValue::Bool(true), i + 4))
        } else {
            None
        }
    } else if c == 'f' {
        if s.len() - i >= 5 && s[i + 1] == 'a' && s[i + 2] == 'l' && s[i + 3] == 's' && s[i + 4]
            == 'e' {
            Some((JsonValue::Bool(false), i + 5))
        } else {
            None
        }
    } else if c == 'n' {
        if s.len() - i >= 4 && s[i + 1] == 'u' && s[i + 2] == 'l' && s[i + 3] == 'l' {
            Some((JsonValue::Null, i + 4))
        } else {
            None
        }
    } else if c == '-' || is_digit_exec(c) {
        match scan_number(s, i) {
            None => None,
            Some(j) => Some((JsonValue::Number, j)),
        }
    } else {
        None
    }
}

fn parse_entry(s: &Vec<char>, i: usize) -> (r: Option<((Vec<char>, JsonValue), usize)>)
    requires
        i <= s.len(),
    ensures
        match (r, spec_parse_entry(s@, i as int)) {
            (Some(p), Some(q)) => p.0.0@ == q.0.0 && p.0.1@ == q.0.1 && p.1 as int == q.1 && p.1
                <= s.len(),
            (None, None) => true,
            _ => false,
        },
    decreases s.len() - i, 0int,
{
    if !(i < s.len() && s[i] == '"') {
        return None;
    }
    match scan_string(s, i + 1) {
        None => None,
        Some((key, j)) => {
            let m = skip_ws(s, j);
            if !(m < s.len() && s[m] == ':') {
                return None;
            }
            let p = skip_ws(s, m + 1);
            if !(i < p && p <= s.len()) {
                return None;
            }
            match parse_value(s, p) {
                None => None,
                Some((v, q)) => Some(((key, v), q)),
            }
        },
    }
}

fn parse_members_first(s: &Vec<char>, i: usize) -> (r: Option<
    (Vec<(Vec<char>, JsonValue)>, usize),
>)
    requires
        i <= s.len(),
    ensures
        match (r, spec_parse_members_first(s@, i as int)) {
            (Some(p), Some(q)) => entries_view(p.0@) == q.0 && p.1 as int == q.1 && p.1 <= s.len(),
            (None, None) => true,
            _ => false,
        },
    decreases s.len() - i, 3int,
{
    let j = skip_ws(s, i);
    if j < s.len() && s[j] == '}' {
        return Some((Vec::new(), j + 1));
    }
    match parse_entry(s, j) {
        None => None,
        Some((e, q)) => {
            if !(i < q && q <= s.len()) {
                return None;
            }
            match parse_members_rest(s, q) {
                None => None,
                Some((rest, r_pos)) => {
                    let mut out: Vec<(Vec<char>, JsonValue)> = Vec::new();
                    let ghost ev = (e.0@, e.1@);
                    out.push(e);
                    let mut rest = rest;
                    let ghost rest0 = rest@;
                    out.append(&mut rest);
                    proof {
                        assert(entries_view(out@) =~= seq![ev] + entries_view(rest0));
                    }
                    Some((out, r_pos))
                },
            }
        },
    }
}

fn parse_members_rest(s: &Vec<char>, i: usize) -> (r: Option<
    (Vec<(Vec<char>, JsonValue)>, usize),
>)
    requires
        i <= s.len(),
    ensures
        match (r, spec_parse_members_rest(s@, i as int)) {
            (Some(p), Some(q)) => entries_view(p.0@) == q.0 && p.1 as int == q.1 && p.1 <= s.len(),
            (None, None) => true,
            _ => false,
        },
    decreases s.len() - i, 3int,
{
    let j = skip_ws(s, i);
    if j < s.len() && s[j] == '}' {
        return Some((Vec::new(), j + 1));
    }
    if !(j < s.len() && s[j] == ',') {
        return None;
    }
    let p = skip_ws(s, j + 1);
    if !(i < p && p <= s.len()) {
        return None;
    }
    match parse_entry(s, p) {
        None => None,
        Some((e, q)) => {
            if !(i < q && q <= s.len()) {
                return None;
            }
            match parse_members_rest(s, q) {
                None => None,
                Some((rest, r_pos)) => {
                    let mut out: Vec<(Vec<char>, JsonValue)> = Vec::new();
                    let ghost ev = (e.0@, e.1@);
                    out.push(e);
                    let mut rest = rest;
                    let ghost rest0 = rest@;
                    out.append(&mut rest);
                    proof {
                        assert(entries_view(out@) =~= seq![ev] + entries_view(rest0));
                    }
                    Some((out, r_pos))
                },
            }
        },
    }
}

fn parse_items_first(s: &Vec<char>, i: usize) -> (r: Option<usize>)
    requires
        i <= s.len(),
    ensures
        match (r, spec_parse_items_first(s@, i as int)) {
            (Some(u), Some(v)) => u as int == v && u <= s.len(),
            (None, None) => true,
            _ => false,
        },
    decreases s.len() - i, 3int,
{
    let j = skip_ws(s, i);
    if j < s.len() && s[j] == ']' {
        return Some(j + 1);
    }
    match parse_value(s, j) {
        None => None,
        Some((_v, q)) => {
            if !(i < q && q <= s.len()) {
                return None;
            }
            parse_items_rest(s, q)
        },
    }
}

fn parse_items_rest(s: &Vec<char>, i: usize) -> (r: Option<usize>)
    requires
        i <= s.len(),
    ensures
        match (r, spec_parse_items_rest(s@, i as int)) {
            (Some(u), Some(v)) => u as int == v && u <= s.len(),
            (None, None) => true,
            _ => false,
        },
    decreases s.len() - i, 3int,
{
    let j = skip_ws(s, i);
    if j < s.len() && s[j] == ']' {
        return Some(j + 1);
    }
    if !(j < s.len() && s[j] == ',') {
        return None;
    }
    let p = skip_ws(s, j + 1);
    if !(i < p && p <= s.len()) {
        return None;
    }
    match parse_value(s, p) {
        None => None,
        Some((_v, q)) => {
            if !(i < q && q <= s.len()) {
                return None;
            }
            parse_items_rest(s, q)
        },
    }
}

/// Parse a complete payload into the members of its top-level object, in
/// textual order with duplicates kept; `None` when the text is not one
/// well-formed JSON object.
pub fn parse_payload(s: &Vec<char>) -> (r: Option<Vec<(Vec<char>, JsonValue)>>)
    ensures
        match (r, spec_parse_payload(s@)) {
            (Some(p), Some(q)) => entries_view(p@) == q,
            (None, None) => true,
            _ => false,
        },
{
    let i = skip_ws(s, 0);
    if !(i < s.len() && s[i] == '{') {
        return None;
    }
    match parse_members_first(s, i + 1) {
        None => None,
        Some((es, j)) => {
            if skip_ws(s, j) == s.len() {
                Some(es)
            } else {
                None
            }
        },
    }
}

} // verus!
