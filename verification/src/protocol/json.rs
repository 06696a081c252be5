//! Scanning a JSON object for one of its top-level string members.

use vstd::prelude::*;

use crate::text::same;

verus! {

/// The deepest nesting that is scanned.
pub const MAX_HEALTH_JSON_NESTING: usize = 64;

/// The byte at a position, if there is one.
pub open spec fn byte_at(b: Seq<u8>, i: int) -> Option<u8> {
    if 0 <= i < b.len() {
        Some(b[i])
    } else {
        None
    }
}

/// White space between the tokens.
pub open spec fn is_blank(c: u8) -> bool {
    c == 0x20 || c == 0x0a || c == 0x0d || c == 0x09
}

/// The position behind white space.
pub open spec fn past_blank(b: Seq<u8>, i: int) -> int
    decreases b.len() - i,
{
    if 0 <= i < b.len() && is_blank(b[i]) {
        past_blank(b, i + 1)
    } else {
        i
    }
}

/// What a character behind a backslash stands for.
pub open spec fn escape(c: u8) -> Option<char> {
    if c == 0x22 || c == 0x5c || c == 0x2f {
        Some(c as char)
    } else if c == 0x62 {
        Some('\u{8}')
    } else if c == 0x66 {
        Some('\u{c}')
    } else if c == 0x6e {
        Some('\n')
    } else if c == 0x72 {
        Some('\r')
    } else if c == 0x74 {
        Some('\t')
    } else {
        None
    }
}

/// A hexadecimal digit.
pub open spec fn is_hex(c: u8) -> bool {
    0x30 <= c <= 0x39 || 0x41 <= c <= 0x46 || 0x61 <= c <= 0x66
}

/// The rest of a string, behind its opening quote: the position behind the closing quote and
/// the characters. A `\u` escape stands for a question mark; control characters are refused.
pub open spec fn string_rest(b: Seq<u8>, i: int, value: Seq<char>) -> Option<(int, Seq<char>)>
    decreases b.len() - i,
{
    if !(0 <= i < b.len()) {
        None
    } else if b[i] == 0x22 {
        Some((i + 1, value))
    } else if b[i] == 0x5c {
        if i + 1 >= b.len() {
            None
        } else if b[i + 1] == 0x75 {
            if i + 6 <= b.len() && is_hex(b[i + 2]) && is_hex(b[i + 3]) && is_hex(b[i + 4])
                && is_hex(b[i + 5]) {
                string_rest(b, i + 6, value.push('?'))
            } else {
                None
            }
        } else {
            match escape(b[i + 1]) {
                Some(c) => string_rest(b, i + 2, value.push(c)),
                None => None,
            }
        }
    } else if b[i] < 0x20 {
        None
    } else {
        string_rest(b, i + 1, value.push(b[i] as char))
    }
}

/// A string: the position behind it and its characters.
pub open spec fn json_string(b: Seq<u8>, i: int) -> Option<(int, Seq<char>)> {
    if byte_at(b, i) == Some(0x22u8) {
        string_rest(b, i + 1, seq![])
    } else {
        None
    }
}

/// A character of a number.
pub open spec fn is_number_char(c: u8) -> bool {
    0x30 <= c <= 0x39 || c == 0x2b || c == 0x2d || c == 0x2e || c == 0x65 || c == 0x45
}

/// The position behind the characters of a number.
pub open spec fn past_number(b: Seq<u8>, i: int) -> int
    decreases b.len() - i,
{
    if 0 <= i < b.len() && is_number_char(b[i]) {
        past_number(b, i + 1)
    } else {
        i
    }
}

/// The position behind a word that must stand at `i`.
pub open spec fn past_word(b: Seq<u8>, i: int, word: Seq<u8>) -> Option<int> {
    if 0 <= i && i + word.len() <= b.len() && b.subrange(i, i + word.len()) == word {
        Some(i + word.len())
    } else {
        None
    }
}

/// The word `true`.
pub open spec fn true_word() -> Seq<u8> {
    seq![0x74, 0x72, 0x75, 0x65]
}

/// The word `false`.
pub open spec fn false_word() -> Seq<u8> {
    seq![0x66, 0x61, 0x6c, 0x73, 0x65]
}

/// The word `null`.
pub open spec fn null_word() -> Seq<u8> {
    seq![0x6e, 0x75, 0x6c, 0x6c]
}

/// The position behind a value. Objects and arrays nest at most `MAX_HEALTH_JSON_NESTING`
/// deep.
pub open spec fn past_value(b: Seq<u8>, i: int, depth: nat) -> Option<int>
    decreases b.len() - i, 1int,
    when 0 <= i <= b.len()
    via past_value_ends
{
    let at = past_blank(b, i);
    match byte_at(b, at) {
        None => None,
        Some(c) => if c == 0x22 {
            match json_string(b, at) {
                Some((j, _)) => Some(j),
                None => None,
            }
        } else if c == 0x7b {
            if depth >= MAX_HEALTH_JSON_NESTING {
                None
            } else {
                let j = past_blank(b, at + 1);
                if byte_at(b, j) == Some(0x7du8) {
                    Some(j + 1)
                } else {
                    past_members(b, j, depth)
                }
            }
        } else if c == 0x5b {
            if depth >= MAX_HEALTH_JSON_NESTING {
                None
            } else {
                let j = past_blank(b, at + 1);
                if byte_at(b, j) == Some(0x5du8) {
                    Some(j + 1)
                } else {
                    past_elements(b, j, depth)
                }
            }
        } else if c == 0x74 {
            past_word(b, at, true_word())
        } else if c == 0x66 {
            past_word(b, at, false_word())
        } else if c == 0x6e {
            past_word(b, at, null_word())
        } else if c == 0x2d || 0x30 <= c <= 0x39 {
            Some(past_number(b, at))
        } else {
            None
        },
    }
}

/// The position behind the members of an object, from a key on, and the closing bracket.
pub open spec fn past_members(b: Seq<u8>, i: int, depth: nat) -> Option<int>
    decreases b.len() - i, 0int,
    when 0 <= i <= b.len()
    via past_members_ends
{
    match json_string(b, i) {
        None => None,
        Some((k, _)) => {
            let colon = past_blank(b, k);
            if byte_at(b, colon) != Some(0x3au8) {
                None
            } else {
                match past_value(b, colon + 1, depth + 1) {
                    None => None,
                    Some(v) => {
                        let j = past_blank(b, v);
                        let next = past_blank(b, j + 1);
                        if byte_at(b, j) == Some(0x7du8) {
                            Some(j + 1)
                        } else if byte_at(b, j) == Some(0x2cu8) && i < next <= b.len() {
                            past_members(b, next, depth)
                        } else {
                            None
                        }
                    },
                }
            }
        },
    }
}

/// The position behind the elements of an array, and the closing bracket.
pub open spec fn past_elements(b: Seq<u8>, i: int, depth: nat) -> Option<int>
    decreases b.len() - i, 2int,
    when 0 <= i <= b.len()
{
    match past_value(b, i, depth + 1) {
        None => None,
        Some(v) => {
            let j = past_blank(b, v);
            let next = past_blank(b, j + 1);
            if byte_at(b, j) == Some(0x5du8) {
                Some(j + 1)
            } else if byte_at(b, j) == Some(0x2cu8) && i < next <= b.len() {
                past_elements(b, next, depth)
            } else {
                None
            }
        },
    }
}

proof fn past_blank_bounds(b: Seq<u8>, i: int)
    ensures
        i <= past_blank(b, i),
        0 <= i <= b.len() ==> past_blank(b, i) <= b.len(),
        byte_at(b, past_blank(b, i)) matches Some(c) ==> !is_blank(c),
    decreases b.len() - i,
{
    if 0 <= i < b.len() && is_blank(b[i]) {
        past_blank_bounds(b, i + 1);
    }
}

proof fn string_rest_bounds(b: Seq<u8>, i: int, value: Seq<char>)
    ensures
        string_rest(b, i, value) matches Some((j, _)) ==> i < j <= b.len(),
    decreases b.len() - i,
{
    if 0 <= i < b.len() {
        if b[i] == 0x22 {
        } else if b[i] == 0x5c {
            if i + 1 < b.len() {
                if b[i + 1] == 0x75 {
                    if i + 6 <= b.len() {
                        string_rest_bounds(b, i + 6, value.push('?'));
                    }
                } else if let Some(c) = escape(b[i + 1]) {
                    string_rest_bounds(b, i + 2, value.push(c));
                }
            }
        } else {
            string_rest_bounds(b, i + 1, value.push(b[i] as char));
        }
    }
}

proof fn json_string_bounds(b: Seq<u8>, i: int)
    ensures
        json_string(b, i) matches Some((j, _)) ==> i + 1 < j <= b.len(),
{
    string_rest_bounds(b, i + 1, seq![]);
}

proof fn past_number_bounds(b: Seq<u8>, i: int)
    ensures
        i <= past_number(b, i),
        0 <= i <= b.len() ==> past_number(b, i) <= b.len(),
    decreases b.len() - i,
{
    if 0 <= i < b.len() && is_number_char(b[i]) {
        past_number_bounds(b, i + 1);
    }
}

#[via_fn]
proof fn past_value_ends(b: Seq<u8>, i: int, depth: nat) {
    let at = past_blank(b, i);
    past_blank_bounds(b, i);
    past_blank_bounds(b, at + 1);
}

#[via_fn]
proof fn past_members_ends(b: Seq<u8>, i: int, depth: nat) {
    json_string_bounds(b, i);
    if let Some((k, _)) = json_string(b, i) {
        past_blank_bounds(b, k);
    }
}

proof fn past_value_bounds(b: Seq<u8>, i: int, depth: nat)
    requires
        0 <= i <= b.len(),
    ensures
        past_value(b, i, depth) matches Some(v) ==> i < v <= b.len(),
    decreases b.len() - i, 1int,
{
    let at = past_blank(b, i);
    past_blank_bounds(b, i);
    if let Some(c) = byte_at(b, at) {
        json_string_bounds(b, at);
        past_blank_bounds(b, at + 1);
        past_number_bounds(b, at);
        let j = past_blank(b, at + 1);
        if c == 0x7b && depth < MAX_HEALTH_JSON_NESTING {
            past_members_bounds(b, j, depth);
        }
        if c == 0x5b && depth < MAX_HEALTH_JSON_NESTING {
            past_elements_bounds(b, j, depth);
        }
        if c == 0x2d || 0x30 <= c <= 0x39 {
            past_number_bounds(b, at + 1);
            assert(is_number_char(b[at]));
        }
    }
}

proof fn past_members_bounds(b: Seq<u8>, i: int, depth: nat)
    requires
        0 <= i <= b.len(),
    ensures
        past_members(b, i, depth) matches Some(v) ==> i < v <= b.len(),
    decreases b.len() - i, 0int,
{
    json_string_bounds(b, i);
    if let Some((k, _)) = json_string(b, i) {
        past_blank_bounds(b, k);
        let colon = past_blank(b, k);
        if byte_at(b, colon) == Some(0x3au8) {
            past_value_bounds(b, colon + 1, depth + 1);
            if let Some(v) = past_value(b, colon + 1, depth + 1) {
                past_blank_bounds(b, v);
                let j = past_blank(b, v);
                past_blank_bounds(b, j + 1);
                if byte_at(b, j) == Some(0x2cu8) {
                    past_members_bounds(b, past_blank(b, j + 1), depth);
                }
            }
        }
    }
}

proof fn past_elements_bounds(b: Seq<u8>, i: int, depth: nat)
    requires
        0 <= i <= b.len(),
    ensures
        past_elements(b, i, depth) matches Some(v) ==> i < v <= b.len(),
    decreases b.len() - i, 2int,
{
    past_value_bounds(b, i, depth + 1);
    if let Some(v) = past_value(b, i, depth + 1) {
        past_blank_bounds(b, v);
        let j = past_blank(b, v);
        past_blank_bounds(b, j + 1);
        if byte_at(b, j) == Some(0x2cu8) {
            past_elements_bounds(b, past_blank(b, j + 1), depth);
        }
    }
}

/// Objects and arrays that nest deeper than the limit are refused.
pub proof fn excessive_nesting_is_refused(b: Seq<u8>, i: int, depth: nat)
    requires
        0 <= i <= b.len(),
        depth >= MAX_HEALTH_JSON_NESTING,
        byte_at(b, past_blank(b, i)) == Some(0x7bu8) || byte_at(b, past_blank(b, i)) == Some(
            0x5bu8,
        ),
    ensures
        past_value(b, i, depth) is None,
{
}

// ---------------------------------------------------------------------------
// Scanning
// ---------------------------------------------------------------------------

fn has_byte(bytes: &[u8], i: usize, c: u8) -> (r: bool)
    ensures
        r == (byte_at(bytes@, i as int) == Some(c)),
        r ==> i < bytes.len(),
{
    i < bytes.len() && bytes[i] == c
}

fn skip_json_whitespace(bytes: &[u8], from: usize) -> (r: usize)
    requires
        from <= bytes@.len(),
    ensures
        r == past_blank(bytes@, from as int),
        from <= r <= bytes@.len(),
{
    let mut i: usize = from;
    while i < bytes.len() && (bytes[i] == 0x20 || bytes[i] == 0x0a || bytes[i] == 0x0d || bytes[i]
        == 0x09)
        invariant
            from <= i <= bytes@.len(),
            past_blank(bytes@, from as int) == past_blank(bytes@, i as int),
        decreases bytes@.len() - i,
    {
        i += 1;
    }
    i
}

fn is_hex_digit(c: u8) -> (r: bool)
    ensures
        r == is_hex(c),
{
    (0x30 <= c && c <= 0x39) || (0x41 <= c && c <= 0x46) || (0x61 <= c && c <= 0x66)
}

fn unescape(c: u8) -> (r: Option<char>)
    ensures
        r == escape(c),
{
    if c == 0x22 || c == 0x5c || c == 0x2f {
        Some(c as char)
    } else if c == 0x62 {
        Some('\u{8}')
    } else if c == 0x66 {
        Some('\u{c}')
    } else if c == 0x6e {
        Some('\n')
    } else if c == 0x72 {
        Some('\r')
    } else if c == 0x74 {
        Some('\t')
    } else {
        None
    }
}

/// Reads a string: the position behind it and its characters.
pub fn parse_json_string(bytes: &[u8], at: usize) -> (r: Option<(usize, String)>)
    ensures
        match r {
            Some((j, s)) => json_string(bytes@, at as int) == Some((j as int, s@)) && at < j
                <= bytes@.len(),
            None => json_string(bytes@, at as int) is None,
        },
{
    proof {
        json_string_bounds(bytes@, at as int);
    }
    if !has_byte(bytes, at, 0x22) {
        return None;
    }
    let ghost b = bytes@;
    let mut i: usize = at + 1;
    let mut value = String::new();
    assert(value@ =~= seq![]);
    while i < bytes.len()
        invariant
            at < i <= bytes@.len(),
            b == bytes@,
            byte_at(b, at as int) == Some(0x22u8),
            json_string(b, at as int) == string_rest(b, i as int, value@),
            json_string(b, at as int) matches Some((j, _)) ==> at + 1 < j <= b.len(),
        decreases bytes@.len() - i,
    {
        let c = bytes[i];
        if c == 0x22 {
            return Some((i + 1, value));
        }
        if c == 0x5c {
            if i + 1 >= bytes.len() {
                return None;
            }
            let e = bytes[i + 1];
            if e == 0x75 {
                if bytes.len() - i < 6 || !is_hex_digit(bytes[i + 2]) || !is_hex_digit(
                    bytes[i + 3],
                ) || !is_hex_digit(bytes[i + 4]) || !is_hex_digit(bytes[i + 5]) {
                    return None;
                }
                value.push('?');
                i += 6;
            } else {
                match unescape(e) {
                    Some(decoded) => {
                        value.push(decoded);
                        i += 2;
                    },
                    None => {
                        return None;
                    },
                }
            }
        } else if c < 0x20 {
            return None;
        } else {
            value.push(c as char);
            i += 1;
        }
    }
    None
}

fn consume_json_literal(bytes: &[u8], at: usize, literal: &[u8]) -> (r: Option<usize>)
    requires
        at <= bytes@.len(),
    ensures
        match r {
            Some(j) => past_word(bytes@, at as int, literal@) == Some(j as int),
            None => past_word(bytes@, at as int, literal@) is None,
        },
{
    if literal.len() > bytes.len() - at {
        return None;
    }
    let mut k: usize = 0;
    while k < literal.len()
        invariant
            k <= literal@.len(),
            at + literal@.len() <= bytes.len(),
            forall|j: int| 0 <= j < k ==> bytes@[at + j] == literal@[j],
        decreases literal@.len() - k,
    {
        if bytes[at + k] != literal[k] {
            assert(bytes@.subrange(at as int, at + literal@.len())[k as int] != literal@[k as int]);
            return None;
        }
        k += 1;
    }
    assert(bytes@.subrange(at as int, at + literal@.len()) =~= literal@);
    Some(at + literal.len())
}

/// Skips a value.
pub fn skip_json_value(bytes: &[u8], from: usize, depth: usize) -> (r: Option<usize>)
    requires
        from <= bytes@.len(),
        depth <= MAX_HEALTH_JSON_NESTING,
    ensures
        match r {
            Some(j) => past_value(bytes@, from as int, depth as nat) == Some(j as int) && from < j
                <= bytes@.len(),
            None => past_value(bytes@, from as int, depth as nat) is None,
        },
    decreases MAX_HEALTH_JSON_NESTING - depth, 0int,
{
    let ghost b = bytes@;
    proof {
        past_value_bounds(b, from as int, depth as nat);
    }
    let at = skip_json_whitespace(bytes, from);
    if at >= bytes.len() {
        return None;
    }
    let c = bytes[at];
    if c == 0x22 {
        return match parse_json_string(bytes, at) {
            Some((j, _)) => Some(j),
            None => None,
        };
    }
    if c == 0x7b || c == 0x5b {
        if depth >= MAX_HEALTH_JSON_NESTING {
            return None;
        }
        let first = skip_json_whitespace(bytes, at + 1);
        return if c == 0x7b {
            if has_byte(bytes, first, 0x7d) {
                Some(first + 1)
            } else {
                skip_json_members(bytes, first, depth)
            }
        } else {
            if has_byte(bytes, first, 0x5d) {
                Some(first + 1)
            } else {
                skip_json_elements(bytes, first, depth)
            }
        };
    }
    if c == 0x74 {
        let word = [0x74u8, 0x72, 0x75, 0x65];
        assert(word@ =~= true_word());
        return consume_json_literal(bytes, at, &word);
    }
    if c == 0x66 {
        let word = [0x66u8, 0x61, 0x6c, 0x73, 0x65];
        assert(word@ =~= false_word());
        return consume_json_literal(bytes, at, &word);
    }
    if c == 0x6e {
        let word = [0x6eu8, 0x75, 0x6c, 0x6c];
        assert(word@ =~= null_word());
        return consume_json_literal(bytes, at, &word);
    }
    if c == 0x2d || (0x30 <= c && c <= 0x39) {
        let mut i: usize = at;
        while i < bytes.len() && ((0x30 <= bytes[i] && bytes[i] <= 0x39) || bytes[i] == 0x2b
            || bytes[i] == 0x2d || bytes[i] == 0x2e || bytes[i] == 0x65 || bytes[i] == 0x45)
            invariant
                at <= i <= bytes@.len(),
                b == bytes@,
                past_number(b, at as int) == past_number(b, i as int),
            decreases bytes@.len() - i,
        {
            i += 1;
        }
        return Some(i);
    }
    None
}

fn skip_json_members(bytes: &[u8], from: usize, depth: usize) -> (r: Option<usize>)
    requires
        from <= bytes@.len(),
        depth < MAX_HEALTH_JSON_NESTING,
    ensures
        match r {
            Some(j) => past_members(bytes@, from as int, depth as nat) == Some(j as int),
            None => past_members(bytes@, from as int, depth as nat) is None,
        },
    decreases MAX_HEALTH_JSON_NESTING - depth - 1, 1int,
{
    let ghost b = bytes@;
    let mut i: usize = from;
    loop
        invariant
            from <= i <= bytes@.len(),
            b == bytes@,
            depth < MAX_HEALTH_JSON_NESTING,
            past_members(b, from as int, depth as nat) == past_members(b, i as int, depth as nat),
        decreases bytes@.len() - i,
    {
        let key_end = match parse_json_string(bytes, i) {
            Some((j, _)) => j,
            None => {
                return None;
            },
        };
        let colon = skip_json_whitespace(bytes, key_end);
        if !has_byte(bytes, colon, 0x3a) {
            return None;
        }
        let value_end = match skip_json_value(bytes, colon + 1, depth + 1) {
            Some(j) => j,
            None => {
                return None;
            },
        };
        let j = skip_json_whitespace(bytes, value_end);
        if has_byte(bytes, j, 0x7d) {
            return Some(j + 1);
        }
        if !has_byte(bytes, j, 0x2c) {
            return None;
        }
        i = skip_json_whitespace(bytes, j + 1);
    }
}

fn skip_json_elements(bytes: &[u8], from: usize, depth: usize) -> (r: Option<usize>)
    requires
        from <= bytes@.len(),
        depth < MAX_HEALTH_JSON_NESTING,
    ensures
        match r {
            Some(j) => past_elements(bytes@, from as int, depth as nat) == Some(j as int),
            None => past_elements(bytes@, from as int, depth as nat) is None,
        },
    decreases MAX_HEALTH_JSON_NESTING - depth - 1, 1int,
{
    let ghost b = bytes@;
    let mut i: usize = from;
    loop
        invariant
            from <= i <= bytes@.len(),
            b == bytes@,
            depth < MAX_HEALTH_JSON_NESTING,
            past_elements(b, from as int, depth as nat) == past_elements(
                b,
                i as int,
                depth as nat,
            ),
        decreases bytes@.len() - i,
    {
        let value_end = match skip_json_value(bytes, i, depth + 1) {
            Some(j) => j,
            None => {
                return None;
            },
        };
        let j = skip_json_whitespace(bytes, value_end);
        if has_byte(bytes, j, 0x5d) {
            return Some(j + 1);
        }
        if !has_byte(bytes, j, 0x2c) {
            return None;
        }
        i = skip_json_whitespace(bytes, j + 1);
    }
}

// ---------------------------------------------------------------------------
// Top-level members
// ---------------------------------------------------------------------------

/// The end of an object at its closing bracket: nothing but white space may follow.
pub open spec fn object_ends(b: Seq<u8>, i: int, value: Option<Seq<char>>) -> Option<
    Option<Seq<char>>,
> {
    if past_blank(b, i + 1) == b.len() {
        Some(value)
    } else {
        None
    }
}

/// The members of an object from position `i` on: the string value of the last member with
/// the given name. No result where the text is not an object.
pub open spec fn member_value(
    b: Seq<u8>,
    i: int,
    field: Seq<char>,
    value: Option<Seq<char>>,
) -> Option<Option<Seq<char>>>
    decreases b.len() - i,
{
    let at = past_blank(b, i);
    if byte_at(b, at) == Some(0x7du8) {
        object_ends(b, at, value)
    } else {
        match json_string(b, at) {
            None => None,
            Some((k, key)) => {
                let colon = past_blank(b, k);
                if byte_at(b, colon) != Some(0x3au8) {
                    None
                } else {
                    let start = past_blank(b, colon + 1);
                    let read = if key == field {
                        match json_string(b, start) {
                            Some((j, s)) => Some((j, Some(s))),
                            None => None,
                        }
                    } else {
                        match past_value(b, start, 0) {
                            Some(j) => Some((j, value)),
                            None => None,
                        }
                    };
                    match read {
                        None => None,
                        Some((j, value1)) => {
                            let end = past_blank(b, j);
                            if byte_at(b, end) == Some(0x7du8) {
                                object_ends(b, end, value1)
                            } else if byte_at(b, end) == Some(0x2cu8) && i < end + 1 {
                                member_value(b, end + 1, field, value1)
                            } else {
                                None
                            }
                        },
                    }
                }
            },
        }
    }
}

/// The string value of a top-level member of the object that a text holds.
pub open spec fn top_level_field(b: Seq<u8>, field: Seq<char>) -> Option<Option<Seq<char>>> {
    let at = past_blank(b, 0);
    if byte_at(b, at) == Some(0x7bu8) {
        member_value(b, at + 1, field, None)
    } else {
        None
    }
}

fn end_of_object(bytes: &[u8], at: usize, value: Option<String>) -> (r: Option<Option<String>>)
    requires
        at < bytes.len(),
    ensures
        field_result(r) == object_ends(bytes@, at as int, optional_view(value)),
{
    let end = skip_json_whitespace(bytes, at + 1);
    if end == bytes.len() {
        Some(value)
    } else {
        None
    }
}

/// The characters of an optional string.
pub open spec fn optional_view(o: Option<String>) -> Option<Seq<char>> {
    match o {
        Some(s) => Some(s@),
        None => None,
    }
}

/// The result of looking for a member, as a value.
pub open spec fn field_result(r: Option<Option<String>>) -> Option<Option<Seq<char>>> {
    match r {
        Some(o) => Some(optional_view(o)),
        None => None,
    }
}

/// Finds the string value of a top-level member of the object that a text holds. No result
/// where the text is not an object, or the member is not a string.
pub fn top_level_json_string_field(bytes: &[u8], field: &str) -> (r: Option<Option<String>>)
    ensures
        field_result(r) == top_level_field(bytes@, field@),
{
    let ghost b = bytes@;
    let at = skip_json_whitespace(bytes, 0);
    if !has_byte(bytes, at, 0x7b) {
        return None;
    }
    let mut i: usize = at + 1;
    let mut value: Option<String> = None;
    loop
        invariant
            i <= bytes@.len(),
            b == bytes@,
            top_level_field(b, field@) == member_value(b, i as int, field@, optional_view(value)),
        decreases bytes@.len() - i,
    {
        let at = skip_json_whitespace(bytes, i);
        if has_byte(bytes, at, 0x7d) {
            return end_of_object(bytes, at, value);
        }
        let (key_end, key) = match parse_json_string(bytes, at) {
            Some(k) => k,
            None => {
                return None;
            },
        };
        let colon = skip_json_whitespace(bytes, key_end);
        if !has_byte(bytes, colon, 0x3a) {
            return None;
        }
        let start = skip_json_whitespace(bytes, colon + 1);
        let ghost before = optional_view(value);
        let value_end: usize;
        if same(key.as_str(), field) {
            match parse_json_string(bytes, start) {
                Some((j, s)) => {
                    value = Some(s);
                    value_end = j;
                },
                None => {
                    return None;
                },
            }
        } else {
            match skip_json_value(bytes, start, 0) {
                Some(j) => {
                    value_end = j;
                },
                None => {
                    return None;
                },
            }
        }
        let end = skip_json_whitespace(bytes, value_end);
        if has_byte(bytes, end, 0x7d) {
            return end_of_object(bytes, end, value);
        }
        if !has_byte(bytes, end, 0x2c) {
            return None;
        }
        i = end + 1;
    }
}

} // verus!
