//! Interprets the text of a default value as an integer or boolean literal.

use vstd::prelude::*;
use crate::text::{
    chars_of, char_to_ascii_lowercase, ends_with, has_prefix, has_suffix, matches_at,
    starts_with, to_ascii_lowercase,
};

verus! {

/// Why a text is not an integer or boolean literal.
#[derive(Debug, Copy, Clone, PartialEq, Eq, Structural)]
pub enum NumberParseError {
    /// The text is a floating-point literal.
    FloatNotSupported,
    /// The text is neither an integer nor a boolean literal.
    InvalidNumberString,
}

/// A literal, split into magnitude, sign and whether it named its own type.
#[derive(Debug, Copy, Clone, PartialEq, Eq, Structural)]
pub struct ParsedNumber {
    pub number: u128,
    pub negative: bool,
    pub has_integer_suffix: bool,
}

/// Whether `c` is white space, as Unicode defines it.
pub open spec fn is_whitespace(c: char) -> bool {
    let n = c as u32;
    (0x09 <= n <= 0x0D) || n == 0x20 || n == 0x85 || n == 0xA0 || n == 0x1680 || (0x2000 <= n
        <= 0x200A) || n == 0x2028 || n == 0x2029 || n == 0x202F || n == 0x205F || n == 0x3000
}

/// `s` without its leading white space.
pub open spec fn trim_start(s: Seq<char>) -> Seq<char>
    decreases s.len(),
{
    if s.len() > 0 && is_whitespace(s[0]) {
        trim_start(s.subrange(1, s.len() as int))
    } else {
        s
    }
}

/// `s` without its trailing white space.
pub open spec fn trim_end(s: Seq<char>) -> Seq<char>
    decreases s.len(),
{
    if s.len() > 0 && is_whitespace(s.last()) {
        trim_end(s.drop_last())
    } else {
        s
    }
}

/// `s` without spaces and underscores, its ASCII letters in lower case.
pub open spec fn strip_separators(s: Seq<char>) -> Seq<char>
    decreases s.len(),
{
    if s.len() == 0 {
        s
    } else {
        let rest = strip_separators(s.drop_last());
        if s.last() == ' ' || s.last() == '_' {
            rest
        } else {
            rest.push(to_ascii_lowercase(s.last()))
        }
    }
}

/// The text that is analysed: trimmed, without separators, in lower case.
pub open spec fn normalize(s: Seq<char>) -> Seq<char> {
    strip_separators(trim_end(trim_start(s)))
}

/// `n` without its sign: one leading `-` or `+`.
pub open spec fn unsigned_part(n: Seq<char>) -> Seq<char> {
    if n.len() > 0 && (n[0] == '-' || n[0] == '+') {
        n.subrange(1, n.len() as int)
    } else {
        n
    }
}

/// Whether `n` begins with a minus sign.
pub open spec fn is_negative(n: Seq<char>) -> bool {
    n.len() > 0 && n[0] == '-'
}

/// The names of the integer types that can stand behind a literal.
pub open spec fn integer_identifiers() -> Seq<Seq<char>> {
    seq![
        seq!['u', '8'],
        seq!['u', '1', '6'],
        seq!['u', '3', '2'],
        seq!['u', '6', '4'],
        seq!['u', '1', '2', '8'],
        seq!['i', '8'],
        seq!['i', '1', '6'],
        seq!['i', '3', '2'],
        seq!['i', '6', '4'],
        seq!['i', '1', '2', '8'],
    ]
}

/// The length of the first of `identifiers`, from index `from` on, that `s` ends with; 0
/// if it ends with none.
pub open spec fn suffix_length(s: Seq<char>, identifiers: Seq<Seq<char>>, from: int) -> nat
    decreases identifiers.len() - from,
{
    if from < 0 || from >= identifiers.len() {
        0
    } else if ends_with(s, identifiers[from]) {
        identifiers[from].len()
    } else {
        suffix_length(s, identifiers, from + 1)
    }
}

/// `s` without the name of an integer type at its end.
pub open spec fn without_suffix(s: Seq<char>) -> Seq<char> {
    s.subrange(0, s.len() - suffix_length(s, integer_identifiers(), 0))
}

/// The value of a digit: 0 to 9 for `'0'` to `'9'`, 10 to 35 for a letter, and -1 otherwise.
pub open spec fn digit_of(c: char) -> int {
    if '0' <= c <= '9' {
        c as u32 - '0' as u32
    } else if 'a' <= c <= 'z' {
        c as u32 - 'a' as u32 + 10
    } else if 'A' <= c <= 'Z' {
        c as u32 - 'A' as u32 + 10
    } else {
        -1
    }
}

/// Whether every character of `s` is a digit in the given radix.
pub open spec fn all_digits(s: Seq<char>, radix: u32) -> bool {
    forall|i: int| 0 <= i < s.len() ==> 0 <= #[trigger] digit_of(s[i]) < radix
}

/// The number that the digits `s` denote in the given radix.
pub open spec fn digits_value(s: Seq<char>, radix: u32) -> int
    decreases s.len(),
{
    if s.len() == 0 {
        0
    } else {
        digits_value(s.drop_last(), radix) * radix + digit_of(s.last())
    }
}

/// The unsigned integer that the digits denote: at least one digit, with a value of at
/// most `u128::MAX`.
pub open spec fn digits_number(digits: Seq<char>, radix: u32) -> Option<u128> {
    if digits.len() > 0 && all_digits(digits, radix) && digits_value(digits, radix) <= u128::MAX {
        Some(digits_value(digits, radix) as u128)
    } else {
        None
    }
}

/// Whether the normalized text `n` is a floating-point literal: it is no hexadecimal
/// number, and it holds a decimal point or ends with the name of a floating-point type.
pub open spec fn is_float(n: Seq<char>) -> bool {
    !starts_with(unsigned_part(n), seq!['0', 'x']) && (n.contains('.') || ends_with(
        n,
        seq!['f', '3', '2'],
    ) || ends_with(n, seq!['f', '6', '4']))
}

/// The radix that the prefix of `core` selects.
pub open spec fn radix_of(core: Seq<char>) -> u32 {
    if starts_with(core, seq!['0', 'x']) {
        16
    } else if starts_with(core, seq!['0', 'b']) {
        2
    } else if starts_with(core, seq!['0', 'o']) {
        8
    } else {
        10
    }
}

/// The digits of `core`, after its radix prefix.
pub open spec fn digits_of(core: Seq<char>) -> Seq<char> {
    if radix_of(core) == 10 {
        core
    } else {
        core.subrange(2, core.len() as int)
    }
}

/// What a text denotes.
///
/// The text is normalized first. A floating-point literal is refused. `true` and `false`
/// are 1 and 0. Any other literal is made of one optional sign, one optional radix prefix
/// (`0x`, `0b` or `0o`), digits of that radix, and the optional name of an integer type
/// at its end.
pub open spec fn parse_number(s: Seq<char>) -> Result<ParsedNumber, NumberParseError> {
    let n = normalize(s);
    if is_float(n) {
        Err(NumberParseError::FloatNotSupported)
    } else if n == seq!['t', 'r', 'u', 'e'] {
        Ok(ParsedNumber { number: 1, negative: false, has_integer_suffix: false })
    } else if n == seq!['f', 'a', 'l', 's', 'e'] {
        Ok(ParsedNumber { number: 0, negative: false, has_integer_suffix: false })
    } else {
        let body = unsigned_part(n);
        let core = without_suffix(body);
        match digits_number(digits_of(core), radix_of(core)) {
            Some(number) => Ok(
                ParsedNumber {
                    number,
                    negative: is_negative(n),
                    has_integer_suffix: suffix_length(body, integer_identifiers(), 0) > 0,
                },
            ),
            None => Err(NumberParseError::InvalidNumberString),
        }
    }
}

fn char_is_whitespace(c: char) -> (r: bool)
    ensures
        r == is_whitespace(c),
{
    let n: u32 = c as u32;
    (0x09 <= n && n <= 0x0D) || n == 0x20 || n == 0x85 || n == 0xA0 || n == 0x1680 || (0x2000
        <= n && n <= 0x200A) || n == 0x2028 || n == 0x2029 || n == 0x202F || n == 0x205F || n
        == 0x3000
}

/// Computes [`normalize`].
fn normalize_chars(v: &Vec<char>) -> (out: Vec<char>)
    ensures
        out@ == normalize(v@),
{
    let mut start: usize = 0;
    assert(v@.subrange(0, v@.len() as int) == v@);
    while start < v.len() && char_is_whitespace(v[start])
        invariant
            start <= v.len(),
            trim_start(v@) == trim_start(v@.subrange(start as int, v@.len() as int)),
        decreases v.len() - start,
    {
        assert(v@.subrange(start as int, v@.len() as int).subrange(
            1,
            v@.len() - start,
        ) == v@.subrange(start + 1, v@.len() as int));
        start += 1;
    }
    let ghost left = v@.subrange(start as int, v@.len() as int);
    assert(trim_start(v@) == left);
    let mut end: usize = v.len();
    while end > start && char_is_whitespace(v[end - 1])
        invariant
            start <= end <= v.len(),
            left == v@.subrange(start as int, v@.len() as int),
            trim_end(left) == trim_end(v@.subrange(start as int, end as int)),
        decreases end - start,
    {
        assert(v@.subrange(start as int, end as int).drop_last() == v@.subrange(
            start as int,
            end - 1,
        ));
        end -= 1;
    }
    let ghost trimmed = v@.subrange(start as int, end as int);
    assert(trim_end(left) == trimmed);
    let mut out: Vec<char> = Vec::new();
    let mut i: usize = start;
    while i < end
        invariant
            start <= i <= end <= v.len(),
            out@ == strip_separators(v@.subrange(start as int, i as int)),
        decreases end - i,
    {
        let c = v[i];
        assert(v@.subrange(start as int, i + 1).drop_last() == v@.subrange(
            start as int,
            i as int,
        ));
        if c != ' ' && c != '_' {
            out.push(char_to_ascii_lowercase(c));
        }
        i += 1;
    }
    out
}

/// The characters of `v` from index `from` up to, but without, index `to`.
fn slice_of(v: &Vec<char>, from: usize, to: usize) -> (out: Vec<char>)
    requires
        from <= to <= v.len(),
    ensures
        out@ == v@.subrange(from as int, to as int),
{
    let mut out: Vec<char> = Vec::new();
    let mut k: usize = from;
    while k < to
        invariant
            from <= k <= to <= v.len(),
            out@ == v@.subrange(from as int, k as int),
        decreases to - k,
    {
        out.push(v[k]);
        k += 1;
    }
    out
}

/// Computes [`digit_of`]: `None` stands for -1.
fn char_digit(c: char) -> (d: Option<u32>)
    ensures
        match d {
            Some(v) => v == digit_of(c),
            None => digit_of(c) == -1,
        },
{
    if '0' <= c && c <= '9' {
        Some(c as u32 - '0' as u32)
    } else if 'a' <= c && c <= 'z' {
        Some(c as u32 - 'a' as u32 + 10)
    } else if 'A' <= c && c <= 'Z' {
        Some(c as u32 - 'A' as u32 + 10)
    } else {
        None
    }
}

/// The value of digits is at least the value of each of their prefixes.
proof fn lemma_digits_value_monotonic(s: Seq<char>, radix: u32, k: int)
    requires
        all_digits(s, radix),
        1 <= radix,
        0 <= k <= s.len(),
    ensures
        0 <= digits_value(s.subrange(0, k), radix) <= digits_value(s, radix),
    decreases s.len(),
{
    if s.len() == 0 {
        assert(s.subrange(0, k) == s);
    } else if k == s.len() {
        assert(s.subrange(0, k) == s);
        lemma_digits_value_monotonic(s.drop_last(), radix, 0);
        assert(s.drop_last().subrange(0, 0).len() == 0);
        let v = digits_value(s.drop_last(), radix);
        lemma_digits_value_monotonic(s.drop_last(), radix, s.len() - 1);
        assert(s.drop_last().subrange(0, s.len() - 1) == s.drop_last());
        assert(v * radix >= 0) by (nonlinear_arith)
            requires
                v >= 0,
                radix >= 1,
        ;
    } else {
        lemma_digits_value_monotonic(s.drop_last(), radix, k);
        assert(s.drop_last().subrange(0, k) == s.subrange(0, k));
        let v = digits_value(s.drop_last(), radix);
        assert(v * radix >= v) by (nonlinear_arith)
            requires
                v >= 0,
                radix >= 1,
        ;
    }
}

/// Computes [`digits_number`].
fn parse_unsigned(s: &Vec<char>, radix: u32) -> (r: Option<u128>)
    requires
        2 <= radix <= 36,
    ensures
        r == digits_number(s@, radix),
{
    if s.len() == 0 {
        return None;
    }
    let mut acc: u128 = 0;
    let mut i: usize = 0;
    assert(s@.subrange(0, 0).len() == 0);
    while i < s.len()
        invariant
            i <= s.len(),
            2 <= radix <= 36,
            all_digits(s@.subrange(0, i as int), radix),
            acc == digits_value(s@.subrange(0, i as int), radix),
        decreases s.len() - i,
    {
        let ghost prefix = s@.subrange(0, i as int);
        let ghost next = s@.subrange(0, i + 1);
        assert(next.drop_last() == prefix);
        assert(next.last() == s@[i as int]);
        let d = match char_digit(s[i]) {
            Some(d) => d,
            None => {
                assert(digit_of(s@[i as int]) == -1);
                return None;
            },
        };
        if d >= radix {
            assert(digit_of(s@[i as int]) >= radix);
            return None;
        }
        assert(all_digits(next, radix)) by {
            assert forall|k: int| 0 <= k < next.len() implies 0 <= #[trigger] digit_of(next[k])
                < radix by {
                if k < prefix.len() {
                    assert(next[k] == prefix[k]);
                }
            }
        }
        let shifted = match acc.checked_mul(radix as u128) {
            Some(v) => v,
            None => {
                proof {
                    if all_digits(s@, radix) {
                        lemma_digits_value_monotonic(s@, radix, i + 1);
                    }
                }
                return None;
            },
        };
        acc = match shifted.checked_add(d as u128) {
            Some(v) => v,
            None => {
                proof {
                    if all_digits(s@, radix) {
                        lemma_digits_value_monotonic(s@, radix, i + 1);
                    }
                }
                return None;
            },
        };
        i += 1;
    }
    assert(s@.subrange(0, s@.len() as int) == s@);
    Some(acc)
}

/// The names of the integer types, as [`integer_identifiers`] lists them.
fn integer_identifier_list() -> (list: Vec<Vec<char>>)
    ensures
        list@.len() == integer_identifiers().len(),
        forall|i: int| 0 <= i < list@.len() ==> (#[trigger] list@[i])@ == integer_identifiers()[i],
{
    let list = vec![
        vec!['u', '8'],
        vec!['u', '1', '6'],
        vec!['u', '3', '2'],
        vec!['u', '6', '4'],
        vec!['u', '1', '2', '8'],
        vec!['i', '8'],
        vec!['i', '1', '6'],
        vec!['i', '3', '2'],
        vec!['i', '6', '4'],
        vec!['i', '1', '2', '8'],
    ];
    assert(list@[0]@ =~= integer_identifiers()[0]);
    assert(list@[1]@ =~= integer_identifiers()[1]);
    assert(list@[2]@ =~= integer_identifiers()[2]);
    assert(list@[3]@ =~= integer_identifiers()[3]);
    assert(list@[4]@ =~= integer_identifiers()[4]);
    assert(list@[5]@ =~= integer_identifiers()[5]);
    assert(list@[6]@ =~= integer_identifiers()[6]);
    assert(list@[7]@ =~= integer_identifiers()[7]);
    assert(list@[8]@ =~= integer_identifiers()[8]);
    assert(list@[9]@ =~= integer_identifiers()[9]);
    list
}

/// Whether `c` occurs in `s`.
fn contains_char(s: &Vec<char>, c: char) -> (r: bool)
    ensures
        r == s@.contains(c),
{
    let mut i: usize = 0;
    while i < s.len()
        invariant
            i <= s.len(),
            forall|k: int| 0 <= k < i ==> s@[k] != c,
        decreases s.len() - i,
    {
        if s[i] == c {
            return true;
        }
        i += 1;
    }
    false
}

/// Parses a number string.
///
/// The result is what [`parse_number`] gives for the characters of `s`: a floating-point
/// literal is refused as such, any other text that is no integer or boolean literal is
/// reported as invalid, which a caller may take for the name of a constant or a call.
pub fn parse_number_string(s: &str) -> (r: Result<ParsedNumber, NumberParseError>)
    ensures
        r == parse_number(s@),
{
    let raw = chars_of(s);
    let n = normalize_chars(&raw);
    let hex = vec!['0', 'x'];
    let binary = vec!['0', 'b'];
    let octal = vec!['0', 'o'];
    let f32_name = vec!['f', '3', '2'];
    let f64_name = vec!['f', '6', '4'];
    let true_name = vec!['t', 'r', 'u', 'e'];
    let false_name = vec!['f', 'a', 'l', 's', 'e'];
    assert(hex@ =~= seq!['0', 'x']);
    assert(binary@ =~= seq!['0', 'b']);
    assert(octal@ =~= seq!['0', 'o']);
    assert(f32_name@ =~= seq!['f', '3', '2']);
    assert(f64_name@ =~= seq!['f', '6', '4']);
    assert(true_name@ =~= seq!['t', 'r', 'u', 'e']);
    assert(false_name@ =~= seq!['f', 'a', 'l', 's', 'e']);
    let hexadecimal = matches_at(&n, &hex, if n.len() > 0 && (n[0] == '-' || n[0] == '+') {
        1
    } else {
        0
    });
    proof {
        let body = unsigned_part(n@);
        if n@.len() > 0 && (n@[0] == '-' || n@[0] == '+') {
            if hexadecimal {
                assert(body.subrange(0, 2) == n@.subrange(1, 3));
            }
            if starts_with(body, hex@) {
                assert(body.subrange(0, 2) == n@.subrange(1, 3));
            }
        }
    }
    if !hexadecimal && (contains_char(&n, '.') || has_suffix(&n, &f32_name) || has_suffix(
        &n,
        &f64_name,
    )) {
        return Err(NumberParseError::FloatNotSupported);
    }
    if n.len() == true_name.len() && has_prefix(&n, &true_name) {
        assert(n@.subrange(0, n@.len() as int) == n@);
        return Ok(ParsedNumber { number: 1, negative: false, has_integer_suffix: false });
    }
    if n.len() == false_name.len() && has_prefix(&n, &false_name) {
        assert(n@.subrange(0, n@.len() as int) == n@);
        return Ok(ParsedNumber { number: 0, negative: false, has_integer_suffix: false });
    }
    assert(n@ != seq!['t', 'r', 'u', 'e']) by {
        if n@ == seq!['t', 'r', 'u', 'e'] {
            assert(n@.subrange(0, n@.len() as int) == n@);
        }
    }
    assert(n@ != seq!['f', 'a', 'l', 's', 'e']) by {
        if n@ == seq!['f', 'a', 'l', 's', 'e'] {
            assert(n@.subrange(0, n@.len() as int) == n@);
        }
    }
    let start: usize = if n.len() > 0 && (n[0] == '-' || n[0] == '+') {
        1
    } else {
        0
    };
    let negative = n.len() > 0 && n[0] == '-';
    let body = slice_of(&n, start, n.len());
    assert(n@.subrange(0, n@.len() as int) == n@);
    assert(body@ == unsigned_part(n@));
    let identifiers = integer_identifier_list();
    let mut length: usize = 0;
    let mut k: usize = 0;
    while k < identifiers.len() && length == 0
        invariant
            k <= identifiers.len(),
            identifiers@.len() == integer_identifiers().len(),
            forall|i: int|
                0 <= i < identifiers@.len() ==> (#[trigger] identifiers@[i])@
                    == integer_identifiers()[i],
            length <= body.len(),
            length == 0 ==> suffix_length(body@, integer_identifiers(), 0) == suffix_length(
                body@,
                integer_identifiers(),
                k as int,
            ),
            length != 0 ==> suffix_length(body@, integer_identifiers(), 0) == length,
        decreases identifiers.len() - k,
    {
        assert(identifiers@[k as int]@ == integer_identifiers()[k as int]);
        assert(integer_identifiers()[k as int].len() > 0);
        if has_suffix(&body, &identifiers[k]) {
            length = identifiers[k].len();
        }
        k += 1;
    }
    let core = slice_of(&body, 0, body.len() - length);
    assert(length == suffix_length(body@, integer_identifiers(), 0));
    assert(core@ == without_suffix(body@));
    let parsed = if has_prefix(&core, &hex) {
        parse_unsigned(&slice_of(&core, 2, core.len()), 16)
    } else if has_prefix(&core, &binary) {
        parse_unsigned(&slice_of(&core, 2, core.len()), 2)
    } else if has_prefix(&core, &octal) {
        parse_unsigned(&slice_of(&core, 2, core.len()), 8)
    } else {
        parse_unsigned(&core, 10)
    };
    match parsed {
        Some(number) => Ok(ParsedNumber { number, negative, has_integer_suffix: length != 0 }),
        None => Err(NumberParseError::InvalidNumberString),
    }
}

} // verus!
