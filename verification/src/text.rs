//! Text as sequences of characters: the scanning, splitting, number and joining
//! operations that the parsers and reports of this crate are specified with.

use vstd::prelude::*;
use vstd::string::*;
use vstd::utf8::*;

verus! {

broadcast use vstd::string::group_string_axioms;

/// `String::push`: appends one character.
pub assume_specification[ String::push ](s: &mut String, c: char)
    ensures
        final(s)@ == old(s)@.push(c),
;

/// The text of the error that `std::str::from_utf8` returns for some bytes.
pub uninterp spec fn utf8_error_text(bytes: Seq<u8>) -> Seq<char>;

/// `std::str::from_utf8`: the text that valid bytes encode, else the text of the error. What the
/// error's text says is not stated.
#[verifier::external_body]
fn from_utf8(bytes: &[u8]) -> (r: Result<String, String>)
    ensures
        match r {
            Ok(s) => valid_utf8(bytes@) && s@ == decode_utf8(bytes@),
            Err(e) => !valid_utf8(bytes@) && e@ == utf8_error_text(bytes@),
        },
{
    match std::str::from_utf8(bytes) {
        Ok(s) => Ok(String::from(s)),
        Err(e) => Err(e.to_string()),
    }
}

/// Reads bytes as text; the error says why they are none.
pub fn read_utf8(bytes: &[u8]) -> (r: Result<String, String>)
    ensures
        match r {
            Ok(s) => valid_utf8(bytes@) && s@ == decode_utf8(bytes@),
            Err(e) => !valid_utf8(bytes@) && e@ == utf8_error_text(bytes@),
        },
{
    from_utf8(bytes)
}

/// The text that `String::from_utf8_lossy` reads from bytes.
pub uninterp spec fn lossy_text(bytes: Seq<u8>) -> Seq<char>;

/// `String::from_utf8_lossy`: the text that valid bytes encode. What stands in the place of
/// bytes that encode nothing is not stated.
#[verifier::external_body]
fn from_utf8_lossy(bytes: &[u8]) -> (r: String)
    ensures
        r@ == lossy_text(bytes@),
        valid_utf8(bytes@) ==> r@ == decode_utf8(bytes@),
{
    String::from_utf8_lossy(bytes).into_owned()
}

/// Reads bytes as text, whatever they are.
pub fn lossy(bytes: &[u8]) -> (r: String)
    ensures
        r@ == lossy_text(bytes@),
        valid_utf8(bytes@) ==> r@ == decode_utf8(bytes@),
{
    from_utf8_lossy(bytes)
}

/// The bytes of a text.
pub fn bytes_of(s: &str) -> (r: Vec<u8>)
    ensures
        r@ == encode_utf8(s@),
{
    s.as_bytes_vec()
}

// ---------------------------------------------------------------------------
// Characters
// ---------------------------------------------------------------------------

/// The characters with the Unicode `White_Space` property.
pub open spec fn is_space(c: char) -> bool {
    ||| '\u{9}' <= c <= '\u{d}'
    ||| c == ' '
    ||| c == '\u{85}'
    ||| c == '\u{a0}'
    ||| c == '\u{1680}'
    ||| '\u{2000}' <= c <= '\u{200a}'
    ||| c == '\u{2028}'
    ||| c == '\u{2029}'
    ||| c == '\u{202f}'
    ||| c == '\u{205f}'
    ||| c == '\u{3000}'
}

/// True exactly on white space.
pub fn char_is_space(c: char) -> (r: bool)
    ensures
        r == is_space(c),
{
    ('\u{9}' <= c && c <= '\u{d}') || c == ' ' || c == '\u{85}' || c == '\u{a0}' || c == '\u{1680}'
        || ('\u{2000}' <= c && c <= '\u{200a}') || c == '\u{2028}' || c == '\u{2029}' || c
        == '\u{202f}' || c == '\u{205f}' || c == '\u{3000}'
}

/// An ASCII decimal digit.
pub open spec fn is_digit(c: char) -> bool {
    '0' <= c <= '9'
}

/// The value of a decimal digit.
pub open spec fn digit_value(c: char) -> nat {
    (c as u32 - '0' as u32) as nat
}

/// The ASCII lower-case form of a character; other characters are kept.
pub open spec fn lower_char(c: char) -> char {
    if 'A' <= c <= 'Z' {
        (c as u8 + 32) as char
    } else {
        c
    }
}

/// The ASCII lower-case form of one character.
pub fn to_lower_char(c: char) -> (r: char)
    ensures
        r == lower_char(c),
{
    if 'A' <= c && c <= 'Z' {
        (c as u8 + 32) as char
    } else {
        c
    }
}

/// The ASCII lower-case form of a text.
pub open spec fn lower(s: Seq<char>) -> Seq<char> {
    s.map_values(|c: char| lower_char(c))
}

// ---------------------------------------------------------------------------
// Strings and character vectors
// ---------------------------------------------------------------------------

/// The characters of a string.
pub fn chars_of(s: &str) -> (r: Vec<char>)
    ensures
        r@ == s@,
{
    let mut v: Vec<char> = Vec::new();
    for c in it: s.chars()
        invariant
            v@ == it.seq().take(it.index() as int),
            it.seq() == s@,
    {
        v.push(c);
    }
    v
}

/// The string made of the characters `from..to`.
pub fn string_range(c: &[char], from: usize, to: usize) -> (r: String)
    requires
        from <= to <= c@.len(),
    ensures
        r@ == c@.subrange(from as int, to as int),
{
    let mut out = String::new();
    let mut i: usize = from;
    while i < to
        invariant
            from <= i <= to <= c@.len(),
            out@ == c@.subrange(from as int, i as int),
        decreases to - i,
    {
        out.push(c[i]);
        i += 1;
    }
    out
}

/// The string made of these characters.
pub fn string_of(c: &[char]) -> (r: String)
    ensures
        r@ == c@,
{
    let r = string_range(c, 0, c.len());
    assert(c@.subrange(0, c@.len() as int) =~= c@);
    r
}

/// A copy of a string.
pub fn copy(s: &str) -> (r: String)
    ensures
        r@ == s@,
{
    let mut out = String::new();
    out.append(s);
    assert(out@ =~= s@);
    out
}

/// The text of a static string.
pub fn text(s: &str) -> (r: String)
    ensures
        r@ == s@,
{
    copy(s)
}

/// True when both strings have the same characters.
pub fn same(a: &str, b: &str) -> (r: bool)
    ensures
        r == (a@ == b@),
{
    let x = chars_of(a);
    let y = chars_of(b);
    if x.len() != y.len() {
        return false;
    }
    let mut i: usize = 0;
    while i < x.len()
        invariant
            i <= x@.len(),
            x@.len() == y@.len(),
            x@ == a@,
            y@ == b@,
            forall|k: int| 0 <= k < i ==> x@[k] == y@[k],
        decreases x@.len() - i,
    {
        if x[i] != y[i] {
            return false;
        }
        i += 1;
    }
    assert(a@ =~= b@);
    true
}

// ---------------------------------------------------------------------------
// Ordering of texts
// ---------------------------------------------------------------------------

/// `a` stands before `b` in the order of character values, a proper prefix first.
pub open spec fn before(a: Seq<char>, b: Seq<char>) -> bool
    decreases a.len(),
{
    if b.len() == 0 {
        false
    } else if a.len() == 0 {
        true
    } else if a[0] != b[0] {
        a[0] < b[0]
    } else {
        before(a.skip(1), b.skip(1))
    }
}

/// No text stands before itself.
pub proof fn before_irreflexive(a: Seq<char>)
    ensures
        !before(a, a),
    decreases a.len(),
{
    if a.len() > 0 {
        before_irreflexive(a.skip(1));
    }
}

/// The order of texts is transitive.
pub proof fn before_transitive(a: Seq<char>, b: Seq<char>, c: Seq<char>)
    requires
        before(a, b),
        before(b, c),
    ensures
        before(a, c),
    decreases a.len(),
{
    if a.len() > 0 && a[0] == b[0] && b[0] == c[0] {
        before_transitive(a.skip(1), b.skip(1), c.skip(1));
    }
}

/// Of two different texts one stands before the other.
pub proof fn before_total(a: Seq<char>, b: Seq<char>)
    ensures
        a == b || before(a, b) || before(b, a),
    decreases a.len(),
{
    if a.len() > 0 && b.len() > 0 && a[0] == b[0] {
        before_total(a.skip(1), b.skip(1));
        if a.skip(1) == b.skip(1) {
            assert(a =~= seq![a[0]] + a.skip(1));
            assert(b =~= seq![b[0]] + b.skip(1));
        }
    } else if a.len() == 0 && b.len() == 0 {
        assert(a =~= b);
    }
}

/// Decides whether `a` stands before `b`.
pub fn is_before(a: &str, b: &str) -> (r: bool)
    ensures
        r == before(a@, b@),
{
    let x = chars_of(a);
    let y = chars_of(b);
    let mut i: usize = 0;
    assert(x@.skip(0) =~= x@);
    assert(y@.skip(0) =~= y@);
    while i < x.len() && i < y.len()
        invariant
            i <= x@.len(),
            i <= y@.len(),
            x@ == a@,
            y@ == b@,
            before(a@, b@) == before(x@.skip(i as int), y@.skip(i as int)),
        decreases x@.len() - i,
    {
        if x[i] != y[i] {
            return x[i] < y[i];
        }
        assert(x@.skip(i as int).skip(1) =~= x@.skip(i + 1));
        assert(y@.skip(i as int).skip(1) =~= y@.skip(i + 1));
        i += 1;
    }
    i < y.len()
}

/// Writes a text in ASCII lower case.
pub fn lowered(s: &str) -> (r: String)
    ensures
        r@ == lower(s@),
{
    let x = chars_of(s);
    let mut out = String::new();
    let mut i: usize = 0;
    while i < x.len()
        invariant
            i <= x@.len(),
            x@ == s@,
            out@ == lower(x@).take(i as int),
        decreases x@.len() - i,
    {
        out.push(to_lower_char(x[i]));
        assert(lower(x@).take(i + 1) =~= lower(x@).take(i as int).push(lower(x@)[i as int]));
        i += 1;
    }
    assert(out@ =~= lower(s@));
    out
}

// ---------------------------------------------------------------------------
// Searching
// ---------------------------------------------------------------------------

/// `p` stands in `s` at position `i`.
pub open spec fn occurs_at(s: Seq<char>, p: Seq<char>, i: int) -> bool {
    0 <= i && i + p.len() <= s.len() && s.subrange(i, i + p.len()) == p
}

/// `s` contains `p`.
pub open spec fn contains(s: Seq<char>, p: Seq<char>) -> bool {
    exists|i: int| occurs_at(s, p, i)
}

/// `s` begins with `p`.
pub open spec fn starts_with(s: Seq<char>, p: Seq<char>) -> bool {
    occurs_at(s, p, 0)
}

/// `s` ends with `p`.
pub open spec fn ends_with(s: Seq<char>, p: Seq<char>) -> bool {
    occurs_at(s, p, s.len() - p.len())
}

/// Decides whether `p` stands in `s` at position `i`.
pub fn find_at(s: &[char], p: &[char], i: usize) -> (r: bool)
    ensures
        r == occurs_at(s@, p@, i as int),
{
    if i > s.len() || p.len() > s.len() - i {
        return false;
    }
    let mut k: usize = 0;
    while k < p.len()
        invariant
            k <= p@.len(),
            i + p@.len() <= s.len(),
            forall|j: int| 0 <= j < k ==> s@[i + j] == p@[j],
        decreases p@.len() - k,
    {
        if s[i + k] != p[k] {
            assert(s@.subrange(i as int, i + p@.len())[k as int] != p@[k as int]);
            return false;
        }
        k += 1;
    }
    assert(s@.subrange(i as int, i + p@.len()) =~= p@);
    true
}

/// Decides whether `s` contains `p`.
pub fn has(s: &str, p: &str) -> (r: bool)
    ensures
        r == contains(s@, p@),
{
    let x = chars_of(s);
    let y = chars_of(p);
    let mut i: usize = 0;
    while i <= x.len()
        invariant
            x@ == s@,
            y@ == p@,
            i <= x@.len() + 1,
            x@.len() == x.len(),
            forall|j: int| 0 <= j < i ==> !occurs_at(s@, p@, j),
        decreases x@.len() + 1 - i,
    {
        if find_at(&x, &y, i) {
            return true;
        }
        if i == x.len() {
            assert(forall|j: int| occurs_at(s@, p@, j) ==> 0 <= j <= s@.len());
            return false;
        }
        i += 1;
    }
    false
}

/// Decides whether `s` begins with `p`.
pub fn begins(s: &str, p: &str) -> (r: bool)
    ensures
        r == starts_with(s@, p@),
{
    let x = chars_of(s);
    let y = chars_of(p);
    find_at(&x, &y, 0)
}

/// Decides whether `s` ends with `p`.
pub fn ends(s: &str, p: &str) -> (r: bool)
    ensures
        r == ends_with(s@, p@),
{
    let x = chars_of(s);
    let y = chars_of(p);
    if y.len() > x.len() {
        return false;
    }
    find_at(&x, &y, x.len() - y.len())
}

/// The text behind the prefix `p`.
pub open spec fn strip_prefix(s: Seq<char>, p: Seq<char>) -> Option<Seq<char>> {
    if starts_with(s, p) {
        Some(s.skip(p.len() as int))
    } else {
        None
    }
}

/// The text behind the prefix `p`, if `s` begins with it.
pub fn after_prefix(s: &str, p: &str) -> (r: Option<String>)
    ensures
        match r {
            Some(rest) => strip_prefix(s@, p@) == Some(rest@),
            None => strip_prefix(s@, p@) is None,
        },
{
    let x = chars_of(s);
    let y = chars_of(p);
    if find_at(&x, &y, 0) {
        let rest = string_range(&x, y.len(), x.len());
        assert(rest@ =~= s@.skip(p@.len() as int));
        Some(rest)
    } else {
        None
    }
}

/// The position of the first `c` at or after `from`, or the length.
pub open spec fn index_from(s: Seq<char>, c: char, from: int) -> int
    decreases s.len() - from,
{
    if from >= s.len() {
        s.len() as int
    } else if from >= 0 && s[from] == c {
        from
    } else {
        index_from(s, c, from + 1)
    }
}

/// What the first position of `c` at or after `from` is.
pub proof fn index_from_facts(s: Seq<char>, c: char, from: int)
    requires
        0 <= from <= s.len(),
    ensures
        from <= index_from(s, c, from) <= s.len(),
        index_from(s, c, from) < s.len() ==> s[index_from(s, c, from)] == c,
        forall|k: int| from <= k < index_from(s, c, from) ==> s[k] != c,
    decreases s.len() - from,
{
    if from < s.len() && s[from] != c {
        index_from_facts(s, c, from + 1);
    }
}

/// The position of the first `c` at or after `from`, or the length.
pub fn find_char(s: &[char], c: char, from: usize) -> (r: usize)
    requires
        from <= s@.len(),
    ensures
        r == index_from(s@, c, from as int),
        from <= r <= s@.len(),
{
    let mut i: usize = from;
    while i < s.len()
        invariant
            from <= i <= s@.len(),
            index_from(s@, c, from as int) == index_from(s@, c, i as int),
        decreases s@.len() - i,
    {
        if s[i] == c {
            return i;
        }
        i += 1;
    }
    i
}

/// The parts before and after the first `c`.
pub open spec fn split_once(s: Seq<char>, c: char) -> Option<(Seq<char>, Seq<char>)> {
    let i = index_from(s, c, 0);
    if i < s.len() {
        Some((s.take(i), s.skip(i + 1)))
    } else {
        None
    }
}

/// The parts before and after the first `c`, if there is one.
pub fn split_at_char(s: &str, c: char) -> (r: Option<(String, String)>)
    ensures
        match r {
            Some((a, b)) => split_once(s@, c) == Some((a@, b@)),
            None => split_once(s@, c) is None,
        },
{
    let x = chars_of(s);
    let i = find_char(&x, c, 0);
    if i < x.len() {
        let a = string_range(&x, 0, i);
        let b = string_range(&x, i + 1, x.len());
        assert(a@ =~= s@.take(i as int));
        assert(b@ =~= s@.skip(i + 1));
        Some((a, b))
    } else {
        None
    }
}

/// The first position at or after `from` where `p` stands in `s`, or -1.
pub open spec fn find_from(s: Seq<char>, p: Seq<char>, from: int) -> int
    decreases s.len() - from,
{
    if from < 0 || from + p.len() > s.len() {
        -1
    } else if occurs_at(s, p, from) {
        from
    } else if from >= s.len() {
        -1
    } else {
        find_from(s, p, from + 1)
    }
}

/// The parts before and after the first `p`.
pub open spec fn split_text(s: Seq<char>, p: Seq<char>) -> Option<(Seq<char>, Seq<char>)> {
    let i = find_from(s, p, 0);
    if i < 0 {
        None
    } else {
        Some((s.take(i), s.skip(i + p.len())))
    }
}

/// The parts before and after the first `p`, if there is one.
pub fn split_at_text(s: &str, p: &str) -> (r: Option<(String, String)>)
    ensures
        match r {
            Some((a, b)) => split_text(s@, p@) == Some((a@, b@)),
            None => split_text(s@, p@) is None,
        },
{
    let x = chars_of(s);
    let y = chars_of(p);
    let mut i: usize = 0;
    while i <= x.len() && y.len() <= x.len() - i
        invariant
            i <= x@.len() + 1,
            i <= x.len() || i == x.len() + 1,
            x@ == s@,
            y@ == p@,
            x@.len() == x.len(),
            y@.len() == y.len(),
            find_from(s@, p@, 0) == find_from(s@, p@, i as int),
        decreases x@.len() + 1 - i,
    {
        if find_at(&x, &y, i) {
            let a = string_range(&x, 0, i);
            let b = string_range(&x, i + y.len(), x.len());
            assert(a@ =~= s@.take(i as int));
            assert(b@ =~= s@.skip(i + p@.len()));
            return Some((a, b));
        }
        if i == x.len() {
            return None;
        }
        i += 1;
    }
    None
}

// ---------------------------------------------------------------------------
// Trimming and splitting
// ---------------------------------------------------------------------------

/// The text without its leading white space.
pub open spec fn trim_start(s: Seq<char>) -> Seq<char>
    decreases s.len(),
{
    if s.len() > 0 && is_space(s[0]) {
        trim_start(s.skip(1))
    } else {
        s
    }
}

/// The text without its trailing white space.
pub open spec fn trim_end(s: Seq<char>) -> Seq<char>
    decreases s.len(),
{
    if s.len() > 0 && is_space(s.last()) {
        trim_end(s.drop_last())
    } else {
        s
    }
}

/// The text without the white space at both ends.
pub open spec fn trim(s: Seq<char>) -> Seq<char> {
    trim_end(trim_start(s))
}

/// Trimming leaves nothing to trim: neither end is white space.
pub proof fn trim_has_no_space_at_its_ends(s: Seq<char>)
    ensures
        trim(s).len() > 0 ==> !is_space(trim(s)[0]) && !is_space(trim(s).last()),
{
    trim_start_head(s);
    trim_end_ends(trim_start(s));
}

proof fn trim_start_head(s: Seq<char>)
    ensures
        trim_start(s).len() > 0 ==> !is_space(trim_start(s)[0]),
    decreases s.len(),
{
    if s.len() > 0 && is_space(s[0]) {
        trim_start_head(s.skip(1));
    }
}

proof fn trim_end_ends(s: Seq<char>)
    ensures
        trim_end(s).len() > 0 ==> !is_space(trim_end(s).last()),
        trim_end(s).len() > 0 ==> trim_end(s)[0] == s[0],
    decreases s.len(),
{
    if s.len() > 0 && is_space(s.last()) {
        trim_end_ends(s.drop_last());
    }
}

/// Trimming a trimmed text changes nothing.
pub proof fn trim_is_idempotent(s: Seq<char>)
    ensures
        trim(trim(s)) == trim(s),
{
    trim_has_no_space_at_its_ends(s);
}

/// The text without the white space at both ends.
pub fn trimmed(s: &str) -> (r: String)
    ensures
        r@ == trim(s@),
{
    let x = chars_of(s);
    let mut i: usize = 0;
    assert(x@.skip(0) =~= x@);
    while i < x.len() && char_is_space(x[i])
        invariant
            i <= x@.len(),
            x@ == s@,
            trim_start(s@) == trim_start(x@.skip(i as int)),
        decreases x@.len() - i,
    {
        assert(x@.skip(i as int).skip(1) =~= x@.skip(i + 1));
        i += 1;
    }
    let mut j: usize = x.len();
    let ghost base = x@.skip(i as int);
    assert(trim_start(s@) == base);
    assert(base.take(j - i) =~= base);
    while j > i && char_is_space(x[j - 1])
        invariant
            i <= j <= x@.len(),
            base == x@.skip(i as int),
            trim_end(base) == trim_end(base.take(j - i)),
        decreases j,
    {
        assert(base.take(j - i).drop_last() =~= base.take(j - i - 1));
        j -= 1;
    }
    assert(base.take(j - i) =~= x@.subrange(i as int, j as int));
    string_range(&x, i, j)
}

/// The length of the leading run without white space.
pub open spec fn word_len(s: Seq<char>) -> int
    decreases s.len(),
{
    if s.len() > 0 && !is_space(s[0]) {
        1 + word_len(s.skip(1))
    } else {
        0
    }
}

/// The maximal runs without white space, in order.
pub open spec fn words(s: Seq<char>) -> Seq<Seq<char>>
    decreases s.len(),
    via words_decreases
{
    if s.len() == 0 {
        seq![]
    } else if is_space(s[0]) {
        words(s.skip(1))
    } else {
        seq![s.take(word_len(s))] + words(s.skip(word_len(s)))
    }
}

/// The leading word lies within the text.
pub proof fn word_len_bounds(s: Seq<char>)
    ensures
        0 <= word_len(s) <= s.len(),
        s.len() > 0 && !is_space(s[0]) ==> word_len(s) > 0,
    decreases s.len(),
{
    if s.len() > 0 && !is_space(s[0]) {
        word_len_bounds(s.skip(1));
    }
}

#[via_fn]
proof fn words_decreases(s: Seq<char>) {
    word_len_bounds(s);
}

/// The views of a vector of strings.
pub open spec fn texts(v: Seq<String>) -> Seq<Seq<char>> {
    v.map_values(|s: String| s@)
}

/// The words of a text.
pub fn split_words(s: &str) -> (r: Vec<String>)
    ensures
        texts(r@) == words(s@),
{
    let x = chars_of(s);
    let mut out: Vec<String> = Vec::new();
    let mut i: usize = 0;
    assert(x@.skip(0) =~= x@);
    assert(texts(out@) + words(x@) =~= words(x@));
    while i < x.len()
        invariant
            i <= x@.len(),
            x@ == s@,
            words(s@) == texts(out@) + words(x@.skip(i as int)),
        decreases x@.len() - i,
    {
        let ghost rest = x@.skip(i as int);
        if char_is_space(x[i]) {
            assert(rest.skip(1) =~= x@.skip(i + 1));
            i += 1;
        } else {
            let start = i;
            assert(rest.skip(0) =~= rest);
            while i < x.len() && !char_is_space(x[i])
                invariant
                    start <= i <= x@.len(),
                    rest == x@.skip(start as int),
                    word_len(rest) == i - start + word_len(rest.skip(i - start)),
                decreases x@.len() - i,
            {
                assert(rest.skip(i - start).skip(1) =~= rest.skip(i - start + 1));
                i += 1;
            }
            assert(word_len(rest) == i - start);
            let w = string_range(&x, start, i);
            assert(w@ =~= rest.take(i - start));
            assert(rest.skip(i - start) =~= x@.skip(i as int));
            proof {
                word_len_bounds(rest);
            }
            let ghost before_push = texts(out@);
            out.push(w);
            assert(texts(out@) =~= before_push + seq![w@]);
        }
    }
    assert(x@.skip(i as int).len() == 0);
    assert(texts(out@) + words(x@.skip(i as int)) =~= texts(out@));
    out
}

/// A line without the carriage return that ends it.
pub open spec fn strip_return(s: Seq<char>) -> Seq<char> {
    if s.len() > 0 && s.last() == '\r' {
        s.drop_last()
    } else {
        s
    }
}

/// The lines of a text. A line ends at `\n` or `\r\n`; the last line end is optional.
pub open spec fn lines(s: Seq<char>) -> Seq<Seq<char>>
    decreases s.len(),
    via lines_decreases
{
    let i = index_from(s, '\n', 0);
    if s.len() == 0 {
        seq![]
    } else if i >= s.len() {
        seq![s]
    } else {
        seq![strip_return(s.take(i))] + lines(s.skip(i + 1))
    }
}

#[via_fn]
proof fn lines_decreases(s: Seq<char>) {
    index_from_facts(s, '\n', 0);
}

proof fn index_from_skip(s: Seq<char>, c: char, a: int, from: int)
    requires
        0 <= a <= from <= s.len(),
    ensures
        index_from(s, c, from) == a + index_from(s.skip(a), c, from - a),
    decreases s.len() - from,
{
    if from < s.len() && s[from] != c {
        index_from_skip(s, c, a, from + 1);
    }
}

/// The lines of a text.
pub fn split_lines(s: &str) -> (r: Vec<String>)
    ensures
        texts(r@) == lines(s@),
{
    let x = chars_of(s);
    let mut out: Vec<String> = Vec::new();
    let mut i: usize = 0;
    assert(x@.skip(0) =~= x@);
    assert(texts(out@) + lines(x@) =~= lines(x@));
    while i < x.len()
        invariant
            i <= x@.len(),
            x@ == s@,
            lines(s@) == texts(out@) + lines(x@.skip(i as int)),
        decreases x@.len() - i,
    {
        let ghost rest = x@.skip(i as int);
        let e = find_char(&x, '\n', i);
        proof {
            index_from_skip(x@, '\n', i as int, i as int);
        }
        let ghost before_push = texts(out@);
        if e >= x.len() {
            let line = string_range(&x, i, x.len());
            assert(line@ =~= rest);
            out.push(line);
            assert(texts(out@) =~= before_push + seq![line@]);
            return out;
        }
        let mut end: usize = e;
        if end > i && x[end - 1] == '\r' {
            end -= 1;
        }
        let line = string_range(&x, i, end);
        assert(line@ =~= strip_return(rest.take(e - i)));
        out.push(line);
        assert(texts(out@) =~= before_push + seq![line@]);
        assert(rest.skip(e - i + 1) =~= x@.skip(e + 1));
        i = e + 1;
    }
    assert(x@.skip(i as int).len() == 0);
    assert(texts(out@) + lines(x@.skip(i as int)) =~= texts(out@));
    out
}

/// The lines of a text with their ends.
pub open spec fn full_lines(s: Seq<char>) -> Seq<Seq<char>>
    decreases s.len(),
    via full_lines_decreases
{
    let i = index_from(s, '\n', 0);
    if s.len() == 0 {
        seq![]
    } else if i >= s.len() {
        seq![s]
    } else {
        seq![s.take(i + 1)] + full_lines(s.skip(i + 1))
    }
}

#[via_fn]
proof fn full_lines_decreases(s: Seq<char>) {
    index_from_facts(s, '\n', 0);
}

/// Splits a text into its lines with their ends.
pub fn split_full_lines(s: &str) -> (r: Vec<String>)
    ensures
        texts(r@) == full_lines(s@),
{
    let x = chars_of(s);
    let mut out: Vec<String> = Vec::new();
    let mut i: usize = 0;
    assert(x@.skip(0) =~= x@);
    assert(texts(out@) + full_lines(x@) =~= full_lines(x@));
    while i < x.len()
        invariant
            i <= x@.len(),
            x@ == s@,
            full_lines(s@) == texts(out@) + full_lines(x@.skip(i as int)),
        decreases x@.len() - i,
    {
        let ghost rest = x@.skip(i as int);
        let e = find_char(&x, '\n', i);
        proof {
            index_from_skip(x@, '\n', i as int, i as int);
        }
        let end: usize = if e >= x.len() { x.len() } else { e + 1 };
        let ghost before_push = texts(out@);
        let line = string_range(&x, i, end);
        assert(line@ =~= rest.take(end - i));
        out.push(line);
        assert(texts(out@) =~= before_push + seq![line@]);
        assert(rest.skip(end - i) =~= x@.skip(end as int));
        assert(e >= x@.len() ==> rest.take(end - i) =~= rest);
        assert(e >= x@.len() ==> full_lines(x@.skip(end as int)) =~= seq![]);
        i = end;
    }
    assert(x@.skip(i as int).len() == 0);
    assert(texts(out@) + full_lines(x@.skip(i as int)) =~= texts(out@));
    out
}

/// The parts between separators; always at least one part.
pub open spec fn split(s: Seq<char>, c: char) -> Seq<Seq<char>>
    decreases s.len(),
    via split_decreases
{
    let i = index_from(s, c, 0);
    if i >= s.len() {
        seq![s]
    } else {
        seq![s.take(i)] + split(s.skip(i + 1), c)
    }
}

#[via_fn]
proof fn split_decreases(s: Seq<char>, c: char) {
    index_from_facts(s, c, 0);
}

/// The parts of a text between separators.
pub fn split_char(s: &str, c: char) -> (r: Vec<String>)
    ensures
        texts(r@) == split(s@, c),
{
    let x = chars_of(s);
    let mut out: Vec<String> = Vec::new();
    let mut i: usize = 0;
    assert(x@.skip(0) =~= x@);
    assert(texts(out@) + split(x@, c) =~= split(x@, c));
    loop
        invariant
            i <= x@.len(),
            x@ == s@,
            split(s@, c) == texts(out@) + split(x@.skip(i as int), c),
        decreases x@.len() - i,
    {
        let ghost rest = x@.skip(i as int);
        let e = find_char(&x, c, i);
        proof {
            index_from_skip(x@, c, i as int, i as int);
        }
        let ghost before_push = texts(out@);
        let part = string_range(&x, i, e);
        out.push(part);
        assert(texts(out@) =~= before_push + seq![part@]);
        if e >= x.len() {
            assert(part@ =~= rest);
            return out;
        }
        assert(part@ =~= rest.take(e - i));
        assert(rest.skip(e - i + 1) =~= x@.skip(e + 1));
        i = e + 1;
    }
}

/// The parts joined by a separator.
pub open spec fn join(parts: Seq<Seq<char>>, sep: Seq<char>) -> Seq<char>
    decreases parts.len(),
{
    if parts.len() == 0 {
        seq![]
    } else if parts.len() == 1 {
        parts[0]
    } else {
        join(parts.drop_last(), sep) + sep + parts.last()
    }
}

/// The strings joined by a separator.
pub fn join_strings(parts: &[String], sep: &str) -> (r: String)
    ensures
        r@ == join(texts(parts@), sep@),
{
    let mut out = String::new();
    let mut i: usize = 0;
    while i < parts.len()
        invariant
            i <= parts@.len(),
            out@ == join(texts(parts@).take(i as int), sep@),
        decreases parts@.len() - i,
    {
        if i > 0 {
            out.append(sep);
        }
        out.append(parts[i].as_str());
        let ghost now = texts(parts@).take(i + 1);
        assert(now.drop_last() =~= texts(parts@).take(i as int));
        assert(now.last() == parts@[i as int]@);
        i += 1;
    }
    assert(texts(parts@).take(i as int) =~= texts(parts@));
    out
}

// ---------------------------------------------------------------------------
// Decimal numbers
// ---------------------------------------------------------------------------

/// The decimal digit of a value below ten.
pub open spec fn digit_char(d: nat) -> char {
    ('0' as u8 + d as u8) as char
}

/// The decimal representation of a number.
pub open spec fn decimal(n: nat) -> Seq<char>
    decreases n,
{
    if n < 10 {
        seq![digit_char(n)]
    } else {
        decimal(n / 10).push(digit_char(n % 10))
    }
}

/// The decimal representation of an integer, with a sign where it is negative.
pub open spec fn signed_decimal(n: int) -> Seq<char> {
    if n < 0 {
        seq!['-'] + decimal((-n) as nat)
    } else {
        decimal(n as nat)
    }
}

/// The value of a sequence of decimal digits.
pub open spec fn digits_value(s: Seq<char>) -> nat
    decreases s.len(),
{
    if s.len() == 0 {
        0
    } else {
        digits_value(s.drop_last()) * 10 + digit_value(s.last())
    }
}

/// Every character is a decimal digit.
pub open spec fn all_digits(s: Seq<char>) -> bool {
    forall|i: int| 0 <= i < s.len() ==> is_digit(#[trigger] s[i])
}

/// Decides whether a text holds nothing but digits.
pub fn only_digits(s: &str) -> (r: bool)
    ensures
        r == all_digits(s@),
{
    let x = chars_of(s);
    let mut i: usize = 0;
    while i < x.len()
        invariant
            i <= x@.len(),
            x@ == s@,
            forall|j: int| 0 <= j < i ==> is_digit(#[trigger] s@[j]),
        decreases x@.len() - i,
    {
        let c = x[i];
        if !('0' <= c && c <= '9') {
            assert(!is_digit(s@[i as int]));
            return false;
        }
        i += 1;
    }
    true
}

/// A decimal representation reads back as the number.
pub proof fn decimal_reads_back(n: nat)
    ensures
        all_digits(decimal(n)),
        decimal(n).len() > 0,
        digits_value(decimal(n)) == n,
    decreases n,
{
    if n < 10 {
        assert(decimal(n).drop_last() =~= seq![]);
        assert(digits_value(decimal(n).drop_last()) == 0);
        assert(digit_value(digit_char(n)) == n);
    } else {
        decimal_reads_back(n / 10);
        assert(decimal(n).drop_last() =~= decimal(n / 10));
        assert(digit_value(digit_char(n % 10)) == n % 10);
    }
}

/// The decimal representation of a number.
pub fn number(n: u128) -> (r: String)
    ensures
        r@ == decimal(n as nat),
    decreases n,
{
    let digit = ('0' as u8 + (n % 10) as u8) as char;
    if n < 10 {
        let mut out = String::new();
        out.push(digit);
        assert(out@ =~= seq![digit_char(n as nat)]);
        out
    } else {
        let mut out = number(n / 10);
        out.push(digit);
        out
    }
}

/// The decimal representation of an integer.
pub fn signed_number(n: i64) -> (r: String)
    ensures
        r@ == signed_decimal(n as int),
{
    if n < 0 {
        let magnitude: i128 = -(n as i128);
        let digits = number(magnitude as u128);
        let mut out = String::new();
        out.push('-');
        out.append(digits.as_str());
        assert(out@ =~= seq!['-'] + decimal((-n) as nat));
        out
    } else {
        number(n as u128)
    }
}

/// The number that a text of decimal digits stands for, up to `max`: an optional `+`, then
/// at least one digit and nothing else.
pub open spec fn parse_unsigned(s: Seq<char>, max: nat) -> Option<nat> {
    let digits = if s.len() > 0 && s[0] == '+' {
        s.skip(1)
    } else {
        s
    };
    if digits.len() > 0 && all_digits(digits) && digits_value(digits) <= max {
        Some(digits_value(digits))
    } else {
        None
    }
}

/// The number that a text with an optional sign stands for, between `min` and `max`.
pub open spec fn parse_signed(s: Seq<char>, min: int, max: int) -> Option<int> {
    if s.len() > 0 && s[0] == '-' {
        let digits = s.skip(1);
        if digits.len() > 0 && all_digits(digits) && -(digits_value(digits) as int) >= min {
            Some(-(digits_value(digits) as int))
        } else {
            None
        }
    } else {
        match parse_unsigned(s, max as nat) {
            Some(v) => Some(v as int),
            None => None,
        }
    }
}

proof fn digits_value_grows(s: Seq<char>, i: int)
    requires
        0 <= i <= s.len(),
        all_digits(s),
    ensures
        digits_value(s.take(i)) <= digits_value(s),
    decreases s.len() - i,
{
    if i < s.len() {
        assert(s.take(i + 1).drop_last() =~= s.take(i));
        digits_value_grows(s, i + 1);
    } else {
        assert(s.take(i) =~= s);
    }
}

/// The value of the digits at `from..`, up to `max`.
fn read_digits(x: &[char], from: usize, max: u128) -> (r: Option<u128>)
    requires
        from <= x@.len(),
    ensures
        ({
            let digits = x@.skip(from as int);
            match r {
                Some(v) => digits.len() > 0 && all_digits(digits) && digits_value(digits) == v && v
                    <= max,
                None => !(digits.len() > 0 && all_digits(digits) && digits_value(digits) <= max),
            }
        }),
{
    let ghost digits = x@.skip(from as int);
    if from >= x.len() {
        return None;
    }
    let mut value: u128 = 0;
    let mut i: usize = from;
    assert(digits.take(0) =~= seq![]);
    while i < x.len()
        invariant
            from <= i <= x@.len(),
            digits == x@.skip(from as int),
            all_digits(digits.take(i - from)),
            value == digits_value(digits.take(i - from)),
            value <= max,
        decreases x@.len() - i,
    {
        let c = x[i];
        if !('0' <= c && c <= '9') {
            assert(!is_digit(digits[i - from]));
            return None;
        }
        let d: u128 = (c as u32 - '0' as u32) as u128;
        let ghost next = digits.take(i - from + 1);
        assert(next.drop_last() =~= digits.take(i - from));
        assert(next.last() == c);
        assert(digits_value(next) == value * 10 + d);
        proof {
            if all_digits(digits) {
                digits_value_grows(digits, i - from + 1);
            }
        }
        if value > max / 10 {
            assert(value * 10 > max) by {
                assert(value >= max / 10 + 1);
            }
            return None;
        }
        let tens: u128 = value * 10;
        if d > max - tens {
            return None;
        }
        value = tens + d;
        assert forall|k: int| 0 <= k < next.len() implies is_digit(#[trigger] next[k]) by {
            if k < i - from {
                assert(next[k] == digits.take(i - from)[k]);
            }
        }
        i += 1;
    }
    assert(digits.take(i - from) =~= digits);
    Some(value)
}

fn parse_up_to(s: &str, max: u128) -> (r: Option<u128>)
    ensures
        match r {
            Some(v) => parse_unsigned(s@, max as nat) == Some(v as nat),
            None => parse_unsigned(s@, max as nat) is None,
        },
{
    let x = chars_of(s);
    if x.len() > 0 && x[0] == '+' {
        read_digits(&x, 1, max)
    } else {
        assert(x@.skip(0) =~= x@);
        read_digits(&x, 0, max)
    }
}

/// Reads an unsigned 32-bit number.
pub fn parse_u32(s: &str) -> (r: Option<u32>)
    ensures
        match r {
            Some(v) => parse_unsigned(s@, u32::MAX as nat) == Some(v as nat),
            None => parse_unsigned(s@, u32::MAX as nat) is None,
        },
{
    match parse_up_to(s, u32::MAX as u128) {
        Some(v) => Some(v as u32),
        None => None,
    }
}

/// Reads an unsigned 64-bit number.
pub fn parse_u64(s: &str) -> (r: Option<u64>)
    ensures
        match r {
            Some(v) => parse_unsigned(s@, u64::MAX as nat) == Some(v as nat),
            None => parse_unsigned(s@, u64::MAX as nat) is None,
        },
{
    match parse_up_to(s, u64::MAX as u128) {
        Some(v) => Some(v as u64),
        None => None,
    }
}

/// Reads a signed 64-bit number.
pub fn parse_i64(s: &str) -> (r: Option<i64>)
    ensures
        match r {
            Some(v) => parse_signed(s@, i64::MIN as int, i64::MAX as int) == Some(v as int),
            None => parse_signed(s@, i64::MIN as int, i64::MAX as int) is None,
        },
{
    let x = chars_of(s);
    if x.len() > 0 && x[0] == '-' {
        let limit: u128 = 0x8000_0000_0000_0000;
        match read_digits(&x, 1, limit) {
            Some(v) => Some((-(v as i128)) as i64),
            None => None,
        }
    } else {
        match parse_up_to(s, i64::MAX as u128) {
            Some(v) => Some(v as i64),
            None => None,
        }
    }
}

/// Reads a signed 32-bit number.
pub fn parse_i32(s: &str) -> (r: Option<i32>)
    ensures
        match r {
            Some(v) => parse_signed(s@, i32::MIN as int, i32::MAX as int) == Some(v as int),
            None => parse_signed(s@, i32::MIN as int, i32::MAX as int) is None,
        },
{
    let x = chars_of(s);
    if x.len() > 0 && x[0] == '-' {
        let limit: u128 = 0x8000_0000;
        match read_digits(&x, 1, limit) {
            Some(v) => Some((-(v as i128)) as i32),
            None => None,
        }
    } else {
        match parse_up_to(s, i32::MAX as u128) {
            Some(v) => Some(v as i32),
            None => None,
        }
    }
}

// ---------------------------------------------------------------------------
// Writing and reading back
// ---------------------------------------------------------------------------

/// Rows, each ended by a line end.
pub open spec fn line_block(rows: Seq<Seq<char>>) -> Seq<char>
    decreases rows.len(),
{
    if rows.len() == 0 {
        seq![]
    } else {
        rows[0] + "\n"@ + line_block(rows.skip(1))
    }
}

/// Writes rows, each ended by a line end.
pub fn write_lines(rows: &[String]) -> (r: String)
    ensures
        r@ == line_block(texts(rows@)),
{
    let ghost all = texts(rows@);
    let mut out = String::new();
    let mut i: usize = 0;
    assert(all.skip(0) =~= all);
    assert(out@ + line_block(all) =~= line_block(all));
    while i < rows.len()
        invariant
            i <= rows@.len(),
            all == texts(rows@),
            out@ + line_block(all.skip(i as int)) == line_block(all),
        decreases rows@.len() - i,
    {
        let ghost before = out@;
        let ghost rest = all.skip(i as int);
        out.append(rows[i].as_str());
        out.append("\n");
        assert(rest[0] == rows@[i as int]@);
        assert(rest.skip(1) =~= all.skip(i + 1));
        assert(out@ + line_block(all.skip(i + 1)) =~= before + line_block(rest));
        i += 1;
    }
    assert(all.skip(i as int).len() == 0);
    assert(out@ + line_block(all.skip(i as int)) =~= out@);
    out
}

/// A row that survives being written as a line.
pub open spec fn plain_row(row: Seq<char>) -> bool {
    &&& forall|i: int| 0 <= i < row.len() ==> #[trigger] row[i] != '\n'
    &&& row.len() > 0 ==> row.last() != '\r'
}

/// Rows written as lines are the lines that are read.
pub proof fn lines_read_back(rows: Seq<Seq<char>>)
    requires
        forall|i: int| 0 <= i < rows.len() ==> plain_row(#[trigger] rows[i]),
    ensures
        lines(line_block(rows)) == rows,
    decreases rows.len(),
{
    if rows.len() == 0 {
        assert(lines(line_block(rows)) =~= rows);
    } else {
        reveal_strlit("\n");
        let row = rows[0];
        let rest = rows.skip(1);
        let s = line_block(rows);
        assert(plain_row(row));
        assert(s =~= row + seq!['\n'] + line_block(rest));
        assert forall|i: int| 0 <= i < rest.len() implies plain_row(#[trigger] rest[i]) by {
            assert(rest[i] == rows[i + 1]);
        }
        lines_read_back(rest);
        let n = row.len() as int;
        index_is(s, '\n', 0, n);
        assert(s.take(n) =~= row);
        assert(s.skip(n + 1) =~= line_block(rest));
        assert(strip_return(row) == row);
        assert(rows =~= seq![row] + rest);
    }
}

/// The first position of a character, where it is known.
pub proof fn index_is(s: Seq<char>, c: char, from: int, at: int)
    requires
        0 <= from <= at < s.len(),
        s[at] == c,
        forall|k: int| from <= k < at ==> s[k] != c,
    ensures
        index_from(s, c, from) == at,
    decreases at - from,
{
    if from < at {
        index_is(s, c, from + 1, at);
    }
}

/// No position of a character that does not occur.
pub proof fn index_is_none(s: Seq<char>, c: char, from: int)
    requires
        0 <= from <= s.len(),
        forall|k: int| from <= k < s.len() ==> s[k] != c,
    ensures
        index_from(s, c, from) == s.len(),
    decreases s.len() - from,
{
    if from < s.len() {
        index_is_none(s, c, from + 1);
    }
}

/// A text that is one word.
pub open spec fn is_word(w: Seq<char>) -> bool {
    w.len() > 0 && forall|i: int| 0 <= i < w.len() ==> !is_space(#[trigger] w[i])
}

proof fn word_len_is(s: Seq<char>, n: int)
    requires
        0 <= n <= s.len(),
        forall|i: int| 0 <= i < n ==> !is_space(#[trigger] s[i]),
        n < s.len() ==> is_space(s[n]),
    ensures
        word_len(s) == n,
    decreases n,
{
    if n > 0 {
        let t = s.skip(1);
        assert forall|i: int| 0 <= i < n - 1 implies !is_space(#[trigger] t[i]) by {
            assert(t[i] == s[i + 1]);
        }
        word_len_is(t, n - 1);
    }
}

/// A word alone.
pub proof fn words_of_word(w: Seq<char>)
    requires
        is_word(w),
    ensures
        words(w) == seq![w],
{
    word_len_is(w, w.len() as int);
    assert(!is_space(w[0]));
    assert(w.take(w.len() as int) =~= w);
    assert(w.skip(w.len() as int) =~= seq![]);
    assert(words(w.skip(w.len() as int)) =~= seq![]);
    assert(words(w) =~= seq![w]);
}

/// A word, a space and the rest.
pub proof fn words_of_word_and_rest(w: Seq<char>, rest: Seq<char>)
    requires
        is_word(w),
    ensures
        words(w + " "@ + rest) == seq![w] + words(rest),
{
    reveal_strlit(" ");
    let s = w + " "@ + rest;
    let n = w.len() as int;
    assert(s[n] == ' ');
    assert forall|i: int| 0 <= i < n implies !is_space(#[trigger] s[i]) by {
        assert(s[i] == w[i]);
    }
    word_len_is(s, n);
    assert(!is_space(s[0]));
    assert(s.take(n) =~= w);
    let t = s.skip(n);
    assert(t[0] == ' ');
    assert(t.skip(1) =~= rest);
    assert(words(t) == words(rest));
}

/// The words of a text are words.
pub proof fn words_are_words(s: Seq<char>)
    ensures
        forall|i: int| 0 <= i < words(s).len() ==> is_word(#[trigger] words(s)[i]),
    decreases s.len(),
{
    if s.len() == 0 {
        assert(words(s) =~= seq![]);
    } else if is_space(s[0]) {
        words_are_words(s.skip(1));
        assert(words(s) == words(s.skip(1)));
    } else {
        word_len_bounds(s);
        word_has_no_space(s);
        let n = word_len(s);
        let w = s.take(n);
        let rest = words(s.skip(n));
        words_are_words(s.skip(n));
        assert(words(s) == seq![w] + rest);
        assert forall|i: int| 0 <= i < w.len() implies !is_space(#[trigger] w[i]) by {
            assert(w[i] == s[i]);
        }
        assert forall|i: int| 0 <= i < words(s).len() implies is_word(#[trigger] words(s)[i]) by {
            if i > 0 {
                assert(words(s)[i] == rest[i - 1]);
            }
        }
    }
}

proof fn word_has_no_space(s: Seq<char>)
    ensures
        0 <= word_len(s) <= s.len(),
        forall|i: int| 0 <= i < word_len(s) ==> !is_space(#[trigger] s[i]),
    decreases s.len(),
{
    if s.len() > 0 && !is_space(s[0]) {
        let t = s.skip(1);
        word_has_no_space(t);
        assert forall|i: int| 0 <= i < word_len(s) implies !is_space(#[trigger] s[i]) by {
            if i > 0 {
                assert(s[i] == t[i - 1]);
            }
        }
    }
}

/// White space at the end does not matter for a trimmed text.
pub proof fn trim_ignores_trailing_space(s: Seq<char>, c: char)
    requires
        is_space(c),
    ensures
        trim(s.push(c)) == trim(s),
{
    trim_start_of_push(s, c);
    let t = trim_start(s);
    if t.len() > 0 {
        assert(t.push(c).drop_last() =~= t);
    }
}

proof fn trim_start_of_push(s: Seq<char>, c: char)
    requires
        is_space(c),
    ensures
        trim_start(s.push(c)) == if trim_start(s).len() == 0 {
            seq![]
        } else {
            trim_start(s).push(c)
        },
        trim_start(s).len() == 0 ==> trim_start(s) == Seq::<char>::empty(),
    decreases s.len(),
{
    if s.len() == 0 {
        assert(s.push(c).skip(1) =~= seq![]);
        assert(s =~= seq![]);
    } else if is_space(s[0]) {
        assert(s.push(c).skip(1) =~= s.skip(1).push(c));
        trim_start_of_push(s.skip(1), c);
    }
}

/// A text without white space at its ends is trimmed.
pub proof fn trimmed_text_stays(s: Seq<char>)
    requires
        s.len() > 0,
        !is_space(s[0]),
        !is_space(s.last()),
    ensures
        trim(s) == s,
{
}

/// What follows an ended text starts a new line.
pub proof fn lines_after_an_end(s: Seq<char>, t: Seq<char>)
    requires
        s.len() == 0 || s.last() == '\n',
    ensures
        lines(s + t) == lines(s) + lines(t),
    decreases s.len(),
{
    if s.len() == 0 {
        assert(s + t =~= t);
        assert(lines(s) + lines(t) =~= lines(t));
    } else {
        index_from_facts(s, '\n', 0);
        let i = index_from(s, '\n', 0);
        if i >= s.len() {
            assert(s[s.len() - 1] != '\n');
        }
        let all = s + t;
        assert forall|k: int| 0 <= k < i implies all[k] != '\n' by {
            assert(all[k] == s[k]);
        }
        index_is(all, '\n', 0, i);
        assert(all.take(i) =~= s.take(i));
        assert(all.skip(i + 1) =~= s.skip(i + 1) + t);
        let rest = s.skip(i + 1);
        if rest.len() > 0 {
            assert(rest.last() == s.last());
        }
        lines_after_an_end(rest, t);
        assert(lines(all) =~= lines(s) + lines(t));
    }
}

/// A text without a line end is one line.
pub proof fn lines_of_an_open_row(row: Seq<char>)
    requires
        row.len() > 0,
        forall|k: int| 0 <= k < row.len() ==> row[k] != '\n',
    ensures
        lines(row) == seq![row],
{
    index_is_none(row, '\n', 0);
}

/// A row with its end is one line.
pub proof fn lines_of_an_ended_row(row: Seq<char>)
    requires
        forall|k: int| 0 <= k < row.len() ==> row[k] != '\n',
    ensures
        lines(row.push('\n')) == seq![strip_return(row)],
{
    let s = row.push('\n');
    let n = row.len() as int;
    index_is(s, '\n', 0, n);
    assert(s.take(n) =~= row);
    assert(s.skip(n + 1) =~= seq![]);
    assert(lines(s.skip(n + 1)) =~= seq![]);
    assert(lines(s) =~= seq![strip_return(row)]);
}

/// Ending a text ends its last line.
pub proof fn lines_of_an_ended_text(s: Seq<char>)
    requires
        s.len() > 0,
        s.last() != '\n',
    ensures
        lines(s).len() > 0,
        lines(s.push('\n')) == lines(s).drop_last().push(strip_return(lines(s).last())),
    decreases s.len(),
{
    index_from_facts(s, '\n', 0);
    let i = index_from(s, '\n', 0);
    let ended = s.push('\n');
    if i >= s.len() {
        lines_of_an_open_row(s);
        lines_of_an_ended_row(s);
        assert(lines(s).drop_last() =~= seq![]);
        assert(lines(ended) =~= lines(s).drop_last().push(strip_return(lines(s).last())));
    } else {
        let rest = s.skip(i + 1);
        assert(rest.len() > 0 && rest.last() == s.last());
        lines_of_an_ended_text(rest);
        assert forall|k: int| 0 <= k < i implies ended[k] != '\n' by {
            assert(ended[k] == s[k]);
        }
        index_is(ended, '\n', 0, i);
        assert(ended.take(i) =~= s.take(i));
        assert(ended.skip(i + 1) =~= rest.push('\n'));
        let first = seq![strip_return(s.take(i))];
        assert(lines(s) =~= first + lines(rest));
        assert(lines(s).last() == lines(rest).last());
        assert(lines(ended) =~= first + lines(rest).drop_last().push(
            strip_return(lines(rest).last()),
        ));
        assert(lines(ended) =~= lines(s).drop_last().push(strip_return(lines(s).last())));
    }
}

/// A text without the character.
pub open spec fn lacks(s: Seq<char>, c: char) -> bool {
    forall|k: int| 0 <= k < s.len() ==> #[trigger] s[k] != c
}

/// No line of a text holds a line end.
pub proof fn lines_hold_no_end(s: Seq<char>)
    ensures
        forall|i: int| 0 <= i < lines(s).len() ==> lacks(#[trigger] lines(s)[i], '\n'),
    decreases s.len(),
{
    index_from_facts(s, '\n', 0);
    let i = index_from(s, '\n', 0);
    if s.len() == 0 {
        assert(lines(s) =~= seq![]);
    } else if i >= s.len() {
        assert(lines(s) == seq![s]);
    } else {
        let first = strip_return(s.take(i));
        let rest = lines(s.skip(i + 1));
        lines_hold_no_end(s.skip(i + 1));
        assert(lines(s) == seq![first] + rest);
        assert(lacks(first, '\n')) by {
            assert forall|k: int| 0 <= k < first.len() implies #[trigger] first[k] != '\n' by {
                assert(first[k] == s[k]);
            }
        }
        assert forall|k: int| 0 <= k < lines(s).len() implies lacks(
            #[trigger] lines(s)[k],
            '\n',
        ) by {
            if k > 0 {
                assert(lines(s)[k] == rest[k - 1]);
            }
        }
    }
}

/// Trimming brings in no character.
pub proof fn trim_brings_in_nothing(s: Seq<char>, c: char)
    requires
        lacks(s, c),
    ensures
        lacks(trim(s), c),
{
    trim_start_brings_in_nothing(s, c);
    trim_end_brings_in_nothing(trim_start(s), c);
}

proof fn trim_start_brings_in_nothing(s: Seq<char>, c: char)
    requires
        lacks(s, c),
    ensures
        lacks(trim_start(s), c),
    decreases s.len(),
{
    if s.len() > 0 && is_space(s[0]) {
        trim_start_brings_in_nothing(s.skip(1), c);
    }
}

proof fn trim_end_brings_in_nothing(s: Seq<char>, c: char)
    requires
        lacks(s, c),
    ensures
        lacks(trim_end(s), c),
    decreases s.len(),
{
    if s.len() > 0 && is_space(s.last()) {
        trim_end_brings_in_nothing(s.drop_last(), c);
    }
}

/// Decimal digits make a word.
pub proof fn digits_are_a_word(s: Seq<char>)
    requires
        all_digits(s),
        s.len() > 0,
    ensures
        is_word(s),
        plain_row(s),
{
    assert forall|i: int| 0 <= i < s.len() implies !is_space(#[trigger] s[i]) && s[i] != '\n' by {
        assert(is_digit(s[i]));
    }
    assert(is_digit(s.last()));
}

/// An unsigned number reads back from its decimal form.
pub proof fn unsigned_reads_back(n: nat, max: nat)
    requires
        n <= max,
    ensures
        parse_unsigned(decimal(n), max) == Some(n),
        is_word(decimal(n)),
        plain_row(decimal(n)),
        all_digits(decimal(n)),
{
    decimal_reads_back(n);
    assert(is_digit(decimal(n)[0]));
    digits_are_a_word(decimal(n));
}

/// A signed number reads back from its decimal form.
pub proof fn signed_reads_back(n: int, min: int, max: int)
    requires
        min <= n <= max,
        0 <= max,
    ensures
        parse_signed(signed_decimal(n), min, max) == Some(n),
        is_word(signed_decimal(n)),
        plain_row(signed_decimal(n)),
{
    if n < 0 {
        let digits = decimal((-n) as nat);
        decimal_reads_back((-n) as nat);
        digits_are_a_word(digits);
        let s = signed_decimal(n);
        assert(s.skip(1) =~= digits);
        assert forall|i: int| 0 <= i < s.len() implies !is_space(#[trigger] s[i]) && s[i] != '\n' by {
            if i > 0 {
                assert(s[i] == digits[i - 1]);
            }
        }
        assert(s.last() == digits.last());
    } else {
        unsigned_reads_back(n as nat, max as nat);
        assert(is_digit(decimal(n as nat)[0]));
    }
}

} // verus!
