use crate::text::chars_of;
use vstd::prelude::*;

verus! {

/// Whether `c` is JSON whitespace: space, tab, line feed or carriage return.
pub open spec fn is_ws(c: char) -> bool {
    c == ' ' || c == '\t' || c == '\n' || c == '\r'
}

/// Whether `c` is one of the digits `0` to `9`.
pub open spec fn is_digit(c: char) -> bool {
    '0' <= c <= '9'
}

/// Whether `c` is a hexadecimal digit, in either case.
pub open spec fn is_hex(c: char) -> bool {
    is_digit(c) || 'a' <= c <= 'f' || 'A' <= c <= 'F'
}

/// Whether `c` may follow a backslash in a string on its own.
pub open spec fn is_escape(c: char) -> bool {
    c == '"' || c == '\\' || c == '/' || c == 'b' || c == 'f' || c == 'n' || c == 'r' || c == 't'
}

/// Whether `c` is a control character, which no string holds unescaped: one before the
/// space.
pub open spec fn is_control(c: char) -> bool {
    (c as u32) < 32
}

/// How many whitespace characters stand in `s` from position `i` on, without a break.
pub open spec fn ws_len(s: Seq<char>, i: int) -> nat
    decreases s.len() - i,
{
    if 0 <= i < s.len() && is_ws(s[i]) {
        1 + ws_len(s, i + 1)
    } else {
        0
    }
}

/// The first position from `i` on that holds no whitespace.
pub open spec fn after_ws(s: Seq<char>, i: int) -> int {
    i + ws_len(s, i)
}

/// How many digits stand in `s` from position `i` on, without a break.
pub open spec fn digits_len(s: Seq<char>, i: int) -> nat
    decreases s.len() - i,
{
    if 0 <= i < s.len() && is_digit(s[i]) {
        1 + digits_len(s, i + 1)
    } else {
        0
    }
}

/// The first position from `i` on that holds no digit.
pub open spec fn after_digits(s: Seq<char>, i: int) -> int {
    i + digits_len(s, i)
}

/// Where the string ends whose characters go on at position `i`: the position after its
/// closing quote. Inside a string stand characters from the space on, but for the quote
/// and the backslash; a backslash is followed by one of the escape characters or by `u`
/// and four hexadecimal digits.
pub open spec fn chars_end(s: Seq<char>, i: int) -> Option<int>
    decreases s.len() - i,
{
    if i < 0 || i >= s.len() {
        None
    } else if s[i] == '"' {
        Some(i + 1)
    } else if s[i] == '\\' {
        if i + 1 < s.len() && is_escape(s[i + 1]) {
            chars_end(s, i + 2)
        } else if i + 5 < s.len() && s[i + 1] == 'u' && is_hex(s[i + 2]) && is_hex(s[i + 3])
            && is_hex(s[i + 4]) && is_hex(s[i + 5]) {
            chars_end(s, i + 6)
        } else {
            None
        }
    } else if is_control(s[i]) {
        None
    } else {
        chars_end(s, i + 1)
    }
}

/// Where the string that starts at position `i` ends, if one starts there.
pub open spec fn string_end(s: Seq<char>, i: int) -> Option<int> {
    if 0 <= i < s.len() && s[i] == '"' {
        chars_end(s, i + 1)
    } else {
        None
    }
}

/// Where the fraction of a number ends whose integer part ends at `i`: a `.` has to be
/// followed by at least one digit; without a `.` there is no fraction.
pub open spec fn fraction_end(s: Seq<char>, i: int) -> Option<int> {
    if 0 <= i < s.len() && s[i] == '.' {
        if i + 1 < s.len() && is_digit(s[i + 1]) {
            Some(after_digits(s, i + 1))
        } else {
            None
        }
    } else {
        Some(i)
    }
}

/// Where the exponent of a number ends whose fraction ends at `i`: an `e` or `E`, with or
/// without a sign, has to be followed by at least one digit; without an `e` there is no
/// exponent.
pub open spec fn exponent_end(s: Seq<char>, i: int) -> Option<int> {
    if 0 <= i < s.len() && (s[i] == 'e' || s[i] == 'E') {
        let d = if i + 1 < s.len() && (s[i + 1] == '+' || s[i + 1] == '-') {
            i + 2
        } else {
            i + 1
        };
        if d < s.len() && is_digit(s[d]) {
            Some(after_digits(s, d))
        } else {
            None
        }
    } else {
        Some(i)
    }
}

/// Where the number that starts at position `i` ends, if one starts there: an optional
/// `-`, then `0` or a run of digits that does not begin with `0`, then an optional
/// fraction and an optional exponent.
pub open spec fn number_end(s: Seq<char>, i: int) -> Option<int> {
    let a = if 0 <= i < s.len() && s[i] == '-' {
        i + 1
    } else {
        i
    };
    if 0 <= a < s.len() && is_digit(s[a]) {
        let b = if s[a] == '0' {
            a + 1
        } else {
            after_digits(s, a)
        };
        match fraction_end(s, b) {
            Some(c) => exponent_end(s, c),
            None => None,
        }
    } else {
        None
    }
}

/// Whether `word` stands in `s` at position `i`.
pub open spec fn word_at(s: Seq<char>, i: int, word: Seq<char>) -> bool {
    0 <= i && i + word.len() <= s.len() && s.subrange(i, i + word.len()) == word
}

/// Where the literal that starts at position `i` ends, if `true`, `false` or `null`
/// starts there.
pub open spec fn literal_end(s: Seq<char>, i: int) -> Option<int> {
    if word_at(s, i, seq!['t', 'r', 'u', 'e']) {
        Some(i + 4)
    } else if word_at(s, i, seq!['f', 'a', 'l', 's', 'e']) {
        Some(i + 5)
    } else if word_at(s, i, seq!['n', 'u', 'l', 'l']) {
        Some(i + 4)
    } else {
        None
    }
}

/// Where the string, number or literal that starts at position `i` ends, if one starts
/// there.
pub open spec fn scalar_end(s: Seq<char>, i: int) -> Option<int> {
    if 0 <= i < s.len() && s[i] == '"' {
        string_end(s, i)
    } else if 0 <= i < s.len() && (s[i] == '-' || is_digit(s[i])) {
        number_end(s, i)
    } else {
        literal_end(s, i)
    }
}

/// Where the value of a member starts whose key starts at position `i`: after the key, a
/// string, and a `:`, with any whitespace around the `:`.
pub open spec fn member_value_start(s: Seq<char>, i: int) -> Option<int> {
    match string_end(s, i) {
        Some(q) => {
            let c = after_ws(s, q);
            if 0 <= c < s.len() && s[c] == ':' {
                Some(after_ws(s, c + 1))
            } else {
                None
            }
        },
        None => None,
    }
}

/// How far position `i` is from the end of `s`.
pub open spec fn left(s: Seq<char>, i: int) -> nat {
    if i <= s.len() {
        (s.len() - i) as nat
    } else {
        0
    }
}

/// Where the value that starts at position `i` ends, if one starts there: an array, an
/// object, a string, a number or a literal. An array is `[`, values with `,` between
/// them, and `]`; an object is `{`, members with `,` between them, and `}`; whitespace may
/// stand around each of these signs.
///
/// No value and no key is empty, so the comparisons of positions in the two functions for
/// lists hold whenever they are reached; they are what shows that the definition ends.
pub open spec fn value_end(s: Seq<char>, i: int) -> Option<int>
    decreases left(s, i), 0nat,
{
    if i < 0 || i >= s.len() {
        None
    } else if s[i] == '[' {
        let k = after_ws(s, i + 1);
        if k < s.len() && s[k] == ']' {
            Some(k + 1)
        } else {
            elements_end(s, k)
        }
    } else if s[i] == '{' {
        let k = after_ws(s, i + 1);
        if k < s.len() && s[k] == '}' {
            Some(k + 1)
        } else {
            members_end(s, k)
        }
    } else {
        scalar_end(s, i)
    }
}

/// Where the array ends of which an element starts at position `i`: after that value, what
/// is left of the array follows.
pub open spec fn elements_end(s: Seq<char>, i: int) -> Option<int>
    decreases left(s, i), 1nat,
{
    match value_end(s, i) {
        Some(j) => if i < j {
            elements_tail_end(s, j)
        } else {
            None
        },
        None => None,
    }
}

/// Where the array ends of which an element ended at position `i`: at the `]` that
/// follows, or, after a `,`, where the array ends with its next element.
pub open spec fn elements_tail_end(s: Seq<char>, i: int) -> Option<int>
    decreases left(s, i), 0nat,
{
    let k = after_ws(s, i);
    if i < 0 || k >= s.len() {
        None
    } else if s[k] == ']' {
        Some(k + 1)
    } else if s[k] == ',' {
        elements_end(s, after_ws(s, k + 1))
    } else {
        None
    }
}

/// Where the object ends of which a member starts at position `i`: after the key, the `:`
/// and the value of that member, what is left of the object follows.
pub open spec fn members_end(s: Seq<char>, i: int) -> Option<int>
    decreases left(s, i), 1nat,
{
    match member_value_start(s, i) {
        Some(v) => if i < v {
            match value_end(s, v) {
                Some(j) => if v < j {
                    members_tail_end(s, j)
                } else {
                    None
                },
                None => None,
            }
        } else {
            None
        },
        None => None,
    }
}

/// Where the object ends of which a member ended at position `i`: at the `}` that
/// follows, or, after a `,`, where the object ends with its next member.
pub open spec fn members_tail_end(s: Seq<char>, i: int) -> Option<int>
    decreases left(s, i), 0nat,
{
    let k = after_ws(s, i);
    if i < 0 || k >= s.len() {
        None
    } else if s[k] == '}' {
        Some(k + 1)
    } else if s[k] == ',' {
        members_end(s, after_ws(s, k + 1))
    } else {
        None
    }
}

/// Whether `s` is a JSON text: one value, with nothing but whitespace before and after
/// it.
pub open spec fn json_text(s: Seq<char>) -> bool {
    match value_end(s, after_ws(s, 0)) {
        Some(j) => after_ws(s, j) == s.len(),
        None => false,
    }
}

/// Whether `c` is JSON whitespace.
pub fn ws(c: char) -> (r: bool)
    ensures
        r == is_ws(c),
{
    c == ' ' || c == '\t' || c == '\n' || c == '\r'
}

/// Whether `c` is a digit.
pub fn digit(c: char) -> (r: bool)
    ensures
        r == is_digit(c),
{
    '0' <= c && c <= '9'
}

/// Whether `c` is a hexadecimal digit.
pub fn hex(c: char) -> (r: bool)
    ensures
        r == is_hex(c),
{
    digit(c) || ('a' <= c && c <= 'f') || ('A' <= c && c <= 'F')
}

/// Whether `c` may follow a backslash on its own.
pub fn escape(c: char) -> (r: bool)
    ensures
        r == is_escape(c),
{
    c == '"' || c == '\\' || c == '/' || c == 'b' || c == 'f' || c == 'n' || c == 'r' || c == 't'
}

/// Whether `c` is a control character.
pub fn control(c: char) -> (r: bool)
    ensures
        r == is_control(c),
{
    (c as u32) < 32
}

/// The first position from `i` on that holds no whitespace.
pub fn skip_ws(s: &Vec<char>, i: usize) -> (k: usize)
    ensures
        k == after_ws(s@, i as int),
        i <= k,
        i <= s.len() ==> k <= s.len(),
{
    let n = s.len();
    let mut k: usize = i;
    while k < n && ws(s[k])
        invariant
            n == s.len(),
            i <= k,
            i <= n ==> k <= n,
            after_ws(s@, i as int) == after_ws(s@, k as int),
        decreases n - k,
    {
        k = k + 1;
    }
    k
}

/// The first position from `i` on that holds no digit.
pub fn skip_digits(s: &Vec<char>, i: usize) -> (k: usize)
    ensures
        k == after_digits(s@, i as int),
        i <= k,
        i <= s.len() ==> k <= s.len(),
{
    let n = s.len();
    let mut k: usize = i;
    while k < n && digit(s[k])
        invariant
            n == s.len(),
            i <= k,
            i <= n ==> k <= n,
            after_digits(s@, i as int) == after_digits(s@, k as int),
        decreases n - k,
    {
        k = k + 1;
    }
    k
}

/// Whether `found` is the executable form of the position `expected`, which lies after
/// `from` and within the `len` characters of the text.
pub open spec fn is_end(found: Option<usize>, expected: Option<int>, from: int, len: int) -> bool {
    match found {
        Some(j) => expected == Some(j as int) && from < j <= len,
        None => expected is None,
    }
}

/// Where the string that starts at position `i` ends.
pub fn scan_string(s: &Vec<char>, i: usize) -> (end: Option<usize>)
    ensures
        is_end(end, string_end(s@, i as int), i as int, s.len() as int),
{
    let n = s.len();
    if i >= n || s[i] != '"' {
        return None;
    }
    let mut k: usize = i + 1;
    while k < n
        invariant
            n == s.len(),
            i < k <= n,
            string_end(s@, i as int) == chars_end(s@, k as int),
        decreases n - k,
    {
        let c = s[k];
        if c == '"' {
            return Some(k + 1);
        } else if c == '\\' {
            if k + 1 < n && escape(s[k + 1]) {
                k = k + 2;
            } else if n - k > 5 && s[k + 1] == 'u' && hex(s[k + 2]) && hex(s[k + 3]) && hex(
                s[k + 4],
            ) && hex(s[k + 5]) {
                k = k + 6;
            } else {
                return None;
            }
        } else if control(c) {
            return None;
        } else {
            k = k + 1;
        }
    }
    None
}

/// Where the number that starts at position `i` ends.
pub fn scan_number(s: &Vec<char>, i: usize) -> (end: Option<usize>)
    ensures
        is_end(end, number_end(s@, i as int), i as int, s.len() as int),
{
    let n = s.len();
    let a = if i < n && s[i] == '-' {
        i + 1
    } else {
        i
    };
    if a >= n || !digit(s[a]) {
        return None;
    }
    let b = if s[a] == '0' {
        a + 1
    } else {
        skip_digits(s, a)
    };
    let c = if b < n && s[b] == '.' {
        if b + 1 < n && digit(s[b + 1]) {
            skip_digits(s, b + 1)
        } else {
            return None;
        }
    } else {
        b
    };
    if c < n && (s[c] == 'e' || s[c] == 'E') {
        let d = if c + 1 < n && (s[c + 1] == '+' || s[c + 1] == '-') {
            c + 2
        } else {
            c + 1
        };
        if d < n && digit(s[d]) {
            Some(skip_digits(s, d))
        } else {
            None
        }
    } else {
        Some(c)
    }
}

/// Where the literal that starts at position `i` ends.
pub fn scan_literal(s: &Vec<char>, i: usize) -> (end: Option<usize>)
    ensures
        is_end(end, literal_end(s@, i as int), i as int, s.len() as int),
{
    let n = s.len();
    if i > n {
        return None;
    }
    if n - i >= 4 && s[i] == 't' && s[i + 1] == 'r' && s[i + 2] == 'u' && s[i + 3] == 'e' {
        assert(s@.subrange(i as int, i + 4) =~= seq!['t', 'r', 'u', 'e']);
        Some(i + 4)
    } else if n - i >= 5 && s[i] == 'f' && s[i + 1] == 'a' && s[i + 2] == 'l' && s[i + 3] == 's'
        && s[i + 4] == 'e' {
        assert(s@.subrange(i as int, i + 5) =~= seq!['f', 'a', 'l', 's', 'e']);
        assert(s@.subrange(i as int, i + 4)[0] != 't');
        Some(i + 5)
    } else if n - i >= 4 && s[i] == 'n' && s[i + 1] == 'u' && s[i + 2] == 'l' && s[i + 3]
        == 'l' {
        assert(s@.subrange(i as int, i + 4) =~= seq!['n', 'u', 'l', 'l']);
        assert(s@.subrange(i as int, i + 4)[0] != 't');
        if n - i >= 5 {
            assert(s@.subrange(i as int, i + 5)[0] != 'f');
        }
        Some(i + 4)
    } else {
        proof {
            let t = seq!['t', 'r', 'u', 'e'];
            let f = seq!['f', 'a', 'l', 's', 'e'];
            let u = seq!['n', 'u', 'l', 'l'];
            if word_at(s@, i as int, t) {
                let w = s@.subrange(i as int, i + 4);
                assert(w[0] == t[0] && w[1] == t[1] && w[2] == t[2] && w[3] == t[3]);
            }
            if word_at(s@, i as int, f) {
                let w = s@.subrange(i as int, i + 5);
                assert(w[0] == f[0] && w[1] == f[1] && w[2] == f[2] && w[3] == f[3] && w[4]
                    == f[4]);
            }
            if word_at(s@, i as int, u) {
                let w = s@.subrange(i as int, i + 4);
                assert(w[0] == u[0] && w[1] == u[1] && w[2] == u[2] && w[3] == u[3]);
            }
        }
        None
    }
}

/// Where the string, number or literal that starts at position `i` ends.
pub fn scan_scalar(s: &Vec<char>, i: usize) -> (end: Option<usize>)
    ensures
        is_end(end, scalar_end(s@, i as int), i as int, s.len() as int),
{
    if i < s.len() && s[i] == '"' {
        scan_string(s, i)
    } else if i < s.len() && (s[i] == '-' || digit(s[i])) {
        scan_number(s, i)
    } else {
        scan_literal(s, i)
    }
}

/// Where the value of the member starts whose key starts at position `i`.
pub fn scan_key(s: &Vec<char>, i: usize) -> (start: Option<usize>)
    ensures
        is_end(start, member_value_start(s@, i as int), i as int, s.len() as int),
{
    match scan_string(s, i) {
        Some(q) => {
            let c = skip_ws(s, q);
            if c < s.len() && s[c] == ':' {
                Some(skip_ws(s, c + 1))
            } else {
                None
            }
        },
        None => None,
    }
}

/// A string that goes on at position `i` ends after `i`.
proof fn lemma_chars_advance(s: Seq<char>, i: int)
    ensures
        chars_end(s, i) matches Some(j) ==> i < j,
    decreases s.len() - i,
{
    if 0 <= i < s.len() && s[i] != '"' {
        if s[i] == '\\' {
            if i + 1 < s.len() && is_escape(s[i + 1]) {
                lemma_chars_advance(s, i + 2);
            } else if i + 5 < s.len() {
                lemma_chars_advance(s, i + 6);
            }
        } else {
            lemma_chars_advance(s, i + 1);
        }
    }
}

/// A string, a number and a literal each end after the position at which they start.
proof fn lemma_scalar_advances(s: Seq<char>, i: int)
    ensures
        scalar_end(s, i) matches Some(j) ==> i < j,
{
    lemma_chars_advance(s, i + 1);
}

/// A value ends after the position at which it starts.
proof fn lemma_value_advances(s: Seq<char>, i: int)
    ensures
        value_end(s, i) matches Some(j) ==> i < j,
    decreases left(s, i), 0nat,
{
    if 0 <= i < s.len() {
        let k = after_ws(s, i + 1);
        if s[i] == '[' {
            if !(k < s.len() && s[k] == ']') {
                lemma_elements_advance(s, k);
            }
        } else if s[i] == '{' {
            if !(k < s.len() && s[k] == '}') {
                lemma_members_advance(s, k);
            }
        } else {
            lemma_scalar_advances(s, i);
        }
    }
}

/// An array ends after the position at which one of its elements starts.
proof fn lemma_elements_advance(s: Seq<char>, i: int)
    ensures
        elements_end(s, i) matches Some(j) ==> i < j,
    decreases left(s, i), 1nat,
{
    if let Some(j) = value_end(s, i) {
        if i < j {
            lemma_elements_tail_advances(s, j);
        }
    }
}

/// An array ends after the position at which one of its elements ends.
proof fn lemma_elements_tail_advances(s: Seq<char>, i: int)
    ensures
        elements_tail_end(s, i) matches Some(j) ==> i < j,
    decreases left(s, i), 0nat,
{
    let k = after_ws(s, i);
    if 0 <= i && k < s.len() && s[k] == ',' {
        lemma_elements_advance(s, after_ws(s, k + 1));
    }
}

/// An object ends after the position at which one of its members starts.
proof fn lemma_members_advance(s: Seq<char>, i: int)
    ensures
        members_end(s, i) matches Some(j) ==> i < j,
    decreases left(s, i), 1nat,
{
    if let Some(v) = member_value_start(s, i) {
        if i < v {
            if let Some(j) = value_end(s, v) {
                if v < j {
                    lemma_members_tail_advances(s, j);
                }
            }
        }
    }
}

/// An object ends after the position at which one of its members ends.
proof fn lemma_members_tail_advances(s: Seq<char>, i: int)
    ensures
        members_tail_end(s, i) matches Some(j) ==> i < j,
    decreases left(s, i), 0nat,
{
    let k = after_ws(s, i);
    if 0 <= i && k < s.len() && s[k] == ',' {
        lemma_members_advance(s, after_ws(s, k + 1));
    }
}

/// Whether `s` is a JSON text, given that a value has just ended at position `i` inside
/// the containers `open`, the innermost last (`true` for an object, `false` for an
/// array): each of them ends, from the innermost out, and only whitespace follows.
spec fn closes(s: Seq<char>, i: int, open: Seq<bool>) -> bool
    decreases open.len(),
{
    if open.len() == 0 {
        after_ws(s, i) == s.len()
    } else {
        let end = if open.last() {
            members_tail_end(s, i)
        } else {
            elements_tail_end(s, i)
        };
        match end {
            Some(j) => closes(s, j, open.drop_last()),
            None => false,
        }
    }
}

/// Whether `s` is a JSON text, given that a value has to start at position `i` inside
/// the containers `open`.
spec fn completes(s: Seq<char>, i: int, open: Seq<bool>) -> bool {
    match value_end(s, i) {
        Some(j) => closes(s, j, open),
        None => false,
    }
}

/// Whether `body` is a JSON text. The text is read once, from left to right, with a list
/// of the containers that are open in place of recursion, so that a deeply nested text
/// needs no deep stack.
pub fn is_json_text(body: &str) -> (valid: bool)
    ensures
        valid == json_text(body@),
{
    let s = chars_of(body);
    let n = s.len();
    let mut open: Vec<bool> = Vec::new();
    let mut i: usize = skip_ws(&s, 0);
    let mut at_value = true;
    loop
        invariant
            n == s.len(),
            s@ == body@,
            i <= n,
            json_text(body@) == if at_value {
                completes(s@, i as int, open@)
            } else {
                closes(s@, i as int, open@)
            },
        decreases n - i,
    {
        let ghost before = open@;
        if at_value {
            if i >= n {
                return false;
            }
            let c = s[i];
            if c == '[' {
                let k = skip_ws(&s, i + 1);
                if k < n && s[k] == ']' {
                    i = k + 1;
                    at_value = false;
                } else {
                    open.push(false);
                    proof {
                        lemma_value_advances(s@, k as int);
                        assert(open@.drop_last() =~= before);
                    }
                    i = k;
                }
            } else if c == '{' {
                let k = skip_ws(&s, i + 1);
                if k < n && s[k] == '}' {
                    i = k + 1;
                    at_value = false;
                } else {
                    match scan_key(&s, k) {
                        Some(v) => {
                            open.push(true);
                            proof {
                                lemma_value_advances(s@, v as int);
                                assert(open@.drop_last() =~= before);
                            }
                            i = v;
                        },
                        None => {
                            return false;
                        },
                    }
                }
            } else {
                match scan_scalar(&s, i) {
                    Some(j) => {
                        i = j;
                        at_value = false;
                    },
                    None => {
                        return false;
                    },
                }
            }
        } else {
            if open.len() == 0 {
                return skip_ws(&s, i) == n;
            }
            let k = skip_ws(&s, i);
            if k >= n {
                return false;
            }
            let c = s[k];
            let object = open[open.len() - 1];
            if (object && c == '}') || (!object && c == ']') {
                open.pop();
                proof {
                    assert(open@ =~= before.drop_last());
                }
                i = k + 1;
            } else if c == ',' {
                let p = skip_ws(&s, k + 1);
                if object {
                    match scan_key(&s, p) {
                        Some(v) => {
                            proof {
                                lemma_value_advances(s@, v as int);
                            }
                            i = v;
                            at_value = true;
                        },
                        None => {
                            return false;
                        },
                    }
                } else {
                    proof {
                        lemma_value_advances(s@, p as int);
                    }
                    i = p;
                    at_value = true;
                }
            } else {
                return false;
            }
        }
    }
}

} // verus!
