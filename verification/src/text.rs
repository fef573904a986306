//! Text as sequences of characters: the conversions, character classes,
//! trimming, splitting and searching that the assembler and the expression
//! parser are built from.

use vstd::prelude::*;

verus! {

/// `String::push` appends one character to the string.
pub assume_specification[ String::push ](s: &mut String, c: char)
    ensures
        final(s)@ == old(s)@.push(c),
;

/// The characters of a string slice, in order.
pub fn chars_of(s: &str) -> (chars: Vec<char>)
    ensures
        chars@ == s@,
{
    let mut chars: Vec<char> = Vec::new();
    for c in it: s.chars()
        invariant
            it.seq() == s@,
            chars@ == s@.take(it.index() as int),
    {
        chars.push(c);
        assert(s@.take(it.index() + 1) =~= s@.take(it.index() as int).push(s@[it.index() as int]));
    }
    assert(chars@ =~= s@);
    chars
}

/// Appends `chars` to `s`.
pub fn push_chars(s: &mut String, chars: &[char])
    ensures
        final(s)@ == old(s)@ + chars@,
{
    let mut i: usize = 0;
    while i < chars.len()
        invariant
            i <= chars.len(),
            s@ == old(s)@ + chars@.take(i as int),
        decreases chars.len() - i,
    {
        s.push(chars[i]);
        i += 1;
        assert(old(s)@ + chars@.take(i as int) =~= (old(s)@ + chars@.take(i - 1)).push(
            chars@[i - 1],
        ));
    }
    assert(chars@.take(chars.len() as int) =~= chars@);
}

/// The string made of `chars`.
pub fn string_of(chars: &[char]) -> (s: String)
    ensures
        s@ == chars@,
{
    let mut s = String::new();
    push_chars(&mut s, chars);
    assert(Seq::<char>::empty() + chars@ =~= chars@);
    s
}

/// A copy of the characters of `chars` from `from` up to, not including, `to`.
pub fn copy_range(chars: &[char], from: usize, to: usize) -> (copy: Vec<char>)
    requires
        from <= to <= chars.len(),
    ensures
        copy@ == chars@.subrange(from as int, to as int),
{
    let mut copy: Vec<char> = Vec::new();
    let mut i: usize = from;
    while i < to
        invariant
            from <= i <= to <= chars.len(),
            copy@ == chars@.subrange(from as int, i as int),
        decreases to - i,
    {
        copy.push(chars[i]);
        i += 1;
        assert(chars@.subrange(from as int, i as int) =~= chars@.subrange(from as int, i - 1).push(
            chars@[i - 1],
        ));
    }
    copy
}

/// Whether two sequences of characters are the same.
pub fn same_chars(a: &[char], b: &[char]) -> (same: bool)
    ensures
        same == (a@ == b@),
{
    if a.len() != b.len() {
        return false;
    }
    let mut i: usize = 0;
    while i < a.len()
        invariant
            i <= a.len(),
            a.len() == b.len(),
            a@.take(i as int) == b@.take(i as int),
        decreases a.len() - i,
    {
        if a[i] != b[i] {
            return false;
        }
        i += 1;
        assert(a@.take(i as int) =~= a@.take(i - 1).push(a@[i - 1]));
        assert(b@.take(i as int) =~= b@.take(i - 1).push(b@[i - 1]));
    }
    assert(a@.take(a.len() as int) =~= a@);
    assert(b@.take(b.len() as int) =~= b@);
    true
}

/// Whether `c` is white space: a character with the Unicode property
/// `White_Space`.
pub open spec fn is_space(c: char) -> bool {
    let code = c as u32;
    ||| 0x0009 <= code <= 0x000D
    ||| code == 0x0020
    ||| code == 0x0085
    ||| code == 0x00A0
    ||| code == 0x1680
    ||| 0x2000 <= code <= 0x200A
    ||| code == 0x2028
    ||| code == 0x2029
    ||| code == 0x202F
    ||| code == 0x205F
    ||| code == 0x3000
}

/// Tells whether `c` is white space.
pub fn is_whitespace(c: char) -> (space: bool)
    ensures
        space == is_space(c),
{
    let code = c as u32;
    (0x0009 <= code && code <= 0x000D) || code == 0x0020 || code == 0x0085 || code == 0x00A0
        || code == 0x1680 || (0x2000 <= code && code <= 0x200A) || code == 0x2028 || code
        == 0x2029 || code == 0x202F || code == 0x205F || code == 0x3000
}

/// `s` without the white space at its start.
pub open spec fn trim_start(s: Seq<char>) -> Seq<char>
    decreases s.len(),
{
    if s.len() > 0 && is_space(s[0]) {
        trim_start(s.skip(1))
    } else {
        s
    }
}

/// `s` without the white space at its end.
pub open spec fn trim_end(s: Seq<char>) -> Seq<char>
    decreases s.len(),
{
    if s.len() > 0 && is_space(s.last()) {
        trim_end(s.drop_last())
    } else {
        s
    }
}

/// `s` without the white space at its start and at its end.
pub open spec fn trim(s: Seq<char>) -> Seq<char> {
    trim_end(trim_start(s))
}

/// Trimming does not lengthen a text.
pub proof fn lemma_trim_is_shorter(text: Seq<char>)
    ensures
        trim(text).len() <= text.len(),
{
    lemma_trim_start_is_shorter(text);
    lemma_trim_end_is_shorter(trim_start(text));
}

/// Trimming the start does not lengthen a text.
proof fn lemma_trim_start_is_shorter(text: Seq<char>)
    ensures
        trim_start(text).len() <= text.len(),
    decreases text.len(),
{
    if text.len() > 0 && is_space(text[0]) {
        lemma_trim_start_is_shorter(text.skip(1));
    }
}

/// Trimming the end does not lengthen a text.
proof fn lemma_trim_end_is_shorter(text: Seq<char>)
    ensures
        trim_end(text).len() <= text.len(),
    decreases text.len(),
{
    if text.len() > 0 && is_space(text.last()) {
        lemma_trim_end_is_shorter(text.drop_last());
    }
}

/// Removes the white space at both ends of `chars`.
pub fn trimmed(chars: &[char]) -> (out: Vec<char>)
    ensures
        out@ == trim(chars@),
{
    let mut start: usize = 0;
    assert(chars@.skip(0) =~= chars@);
    while start < chars.len() && is_whitespace(chars[start])
        invariant
            start <= chars.len(),
            trim_start(chars@) == trim_start(chars@.skip(start as int)),
        decreases chars.len() - start,
    {
        assert(chars@.skip(start as int).skip(1) =~= chars@.skip(start + 1));
        start += 1;
    }
    let mut end: usize = chars.len();
    assert(chars@.subrange(start as int, end as int) =~= chars@.skip(start as int));
    while end > start && is_whitespace(chars[end - 1])
        invariant
            start <= end <= chars.len(),
            trim(chars@) == trim_end(chars@.subrange(start as int, end as int)),
        decreases end - start,
    {
        assert(chars@.subrange(start as int, end as int).drop_last() =~= chars@.subrange(
            start as int,
            end - 1,
        ));
        end -= 1;
    }
    copy_range(chars, start, end)
}

/// Appends the characters of `piece` to `out`.
pub fn push_str(out: &mut Vec<char>, piece: &str)
    ensures
        final(out)@ == old(out)@ + piece@,
{
    for c in it: piece.chars()
        invariant
            it.seq() == piece@,
            out@ == old(out)@ + piece@.take(it.index() as int),
    {
        out.push(c);
        assert(old(out)@ + piece@.take(it.index() + 1) =~= (old(out)@ + piece@.take(
            it.index() as int,
        )).push(piece@[it.index() as int]));
    }
    assert(piece@.take(piece@.len() as int) =~= piece@);
}

/// Appends the characters of `piece` to `out`.
pub fn push_all(out: &mut Vec<char>, piece: &[char])
    ensures
        final(out)@ == old(out)@ + piece@,
{
    let mut i: usize = 0;
    while i < piece.len()
        invariant
            i <= piece.len(),
            out@ == old(out)@ + piece@.take(i as int),
        decreases piece.len() - i,
    {
        out.push(piece[i]);
        i += 1;
        assert(old(out)@ + piece@.take(i as int) =~= (old(out)@ + piece@.take(i - 1)).push(
            piece@[i - 1],
        ));
    }
    assert(piece@.take(piece.len() as int) =~= piece@);
}

/// The character for a digit from 0 to 15: `0` to `9`, then `A` to `F`.
pub open spec fn digit_char(digit: nat) -> char
    recommends
        digit < 16,
{
    if digit < 10 {
        (digit + 48) as char
    } else {
        (digit + 55) as char
    }
}

/// `n` in decimal, most significant digit first, without leading zeros; 0 is
/// written as one digit.
pub open spec fn decimal(n: nat) -> Seq<char>
    decreases n,
{
    if n < 10 {
        seq![digit_char(n)]
    } else {
        decimal(n / 10).push(digit_char(n % 10))
    }
}

/// `n` in hexadecimal with capital letters, most significant digit first,
/// without leading zeros; 0 is written as one digit.
pub open spec fn hex(n: nat) -> Seq<char>
    decreases n,
{
    if n < 16 {
        seq![digit_char(n)]
    } else {
        hex(n / 16).push(digit_char(n % 16))
    }
}

/// `n` in hexadecimal, with a leading zero if it has one digit only.
pub open spec fn hex_two(n: nat) -> Seq<char> {
    if n < 16 {
        seq!['0'] + hex(n)
    } else {
        hex(n)
    }
}

/// The character for a digit from 0 to 15.
pub fn digit_to_char(digit: u8) -> (c: char)
    requires
        digit < 16,
    ensures
        c == digit_char(digit as nat),
{
    if digit < 10 {
        (digit + 48) as char
    } else {
        (digit + 55) as char
    }
}

/// Appends `n` in decimal to `out`.
pub fn push_decimal(out: &mut Vec<char>, n: usize)
    ensures
        final(out)@ == old(out)@ + decimal(n as nat),
    decreases n,
{
    if n >= 10 {
        push_decimal(out, n / 10);
    }
    out.push(digit_to_char((n % 10) as u8));
    assert(out@ =~= old(out)@ + decimal(n as nat));
}

/// Appends `n` in hexadecimal to `out`.
pub fn push_hex(out: &mut Vec<char>, n: usize)
    ensures
        final(out)@ == old(out)@ + hex(n as nat),
    decreases n,
{
    if n >= 16 {
        push_hex(out, n / 16);
    }
    out.push(digit_to_char((n % 16) as u8));
    assert(out@ =~= old(out)@ + hex(n as nat));
}

/// Appends `n` in hexadecimal to `out`, in two digits at least.
pub fn push_hex_two(out: &mut Vec<char>, n: usize)
    ensures
        final(out)@ == old(out)@ + hex_two(n as nat),
{
    if n < 16 {
        out.push('0');
    }
    push_hex(out, n);
    assert(out@ =~= old(out)@ + hex_two(n as nat));
}

/// The value of `c` as a digit in base `radix`: `0` to `9` count 0 to 9, the
/// letters `a` to `z`, in either case, count 10 to 35, and only values below
/// the radix are digits.
pub open spec fn digit_value(c: char, radix: nat) -> Option<nat> {
    let code = c as u32;
    let value: nat = if 48 <= code <= 57 {
        (code - 48) as nat
    } else if 97 <= code <= 122 {
        (code - 97 + 10) as nat
    } else if 65 <= code <= 90 {
        (code - 65 + 10) as nat
    } else {
        36
    };
    if value < radix {
        Some(value)
    } else {
        None
    }
}

/// Whether every character of `s` is a digit in base `radix`.
pub open spec fn all_digits(s: Seq<char>, radix: nat) -> bool {
    forall|i: int| 0 <= i < s.len() ==> digit_value(#[trigger] s[i], radix) is Some
}

/// The number that the digits `s` stand for in base `radix`.
pub open spec fn number_value(s: Seq<char>, radix: nat) -> nat
    decreases s.len(),
{
    if s.len() == 0 {
        0
    } else {
        number_value(s.drop_last(), radix) * radix + match digit_value(s.last(), radix) {
            Some(value) => value,
            None => 0,
        }
    }
}

/// The byte that `s` stands for in base `radix`: an optional `+`, then at
/// least one digit and nothing else, with a value of at most 255. Any other
/// text stands for no byte.
pub open spec fn parse_byte(s: Seq<char>, radix: nat) -> Option<u8> {
    let body = if s.len() > 0 && s[0] == '+' {
        s.skip(1)
    } else {
        s
    };
    if body.len() > 0 && all_digits(body, radix) && number_value(body, radix) <= 255 {
        Some(number_value(body, radix) as u8)
    } else {
        None
    }
}

/// A number does not shrink when digits are appended to it.
proof fn lemma_number_value_grows(s: Seq<char>, radix: nat, i: int)
    requires
        0 <= i <= s.len(),
        radix >= 1,
    ensures
        number_value(s.take(i), radix) <= number_value(s, radix),
    decreases s.len(),
{
    if i < s.len() {
        lemma_number_value_grows(s.drop_last(), radix, i);
        assert(s.drop_last().take(i) =~= s.take(i));
        let shorter = number_value(s.drop_last(), radix);
        assert(shorter <= shorter * radix) by (nonlinear_arith)
            requires
                radix >= 1,
        ;
    } else {
        assert(s.take(i) =~= s);
    }
}

/// The value of `c` as a digit in base `radix`, if it is one.
pub fn to_digit(c: char, radix: u8) -> (digit: Option<u8>)
    requires
        2 <= radix <= 36,
    ensures
        digit is Some == digit_value(c, radix as nat) is Some,
        digit is Some ==> digit->0 == digit_value(c, radix as nat)->0,
{
    let code = c as u32;
    let value: u32 = if 48 <= code && code <= 57 {
        code - 48
    } else if 97 <= code && code <= 122 {
        code - 97 + 10
    } else if 65 <= code && code <= 90 {
        code - 65 + 10
    } else {
        36
    };
    if value < radix as u32 {
        Some(value as u8)
    } else {
        None
    }
}

/// Reads `chars` as a byte in base `radix`.
pub fn byte_from_digits(chars: &[char], radix: u8) -> (byte: Option<u8>)
    requires
        2 <= radix <= 36,
    ensures
        byte == parse_byte(chars@, radix as nat),
{
    let start: usize = if chars.len() > 0 && chars[0] == '+' {
        1
    } else {
        0
    };
    if start == chars.len() {
        return None;
    }
    let ghost body = chars@.skip(start as int);
    assert(chars@.skip(0) =~= chars@);
    let mut value: u16 = 0;
    let mut i: usize = start;
    assert(body.take(0) =~= Seq::<char>::empty());
    while i < chars.len()
        invariant
            start <= i <= chars.len(),
            2 <= radix <= 36,
            body == chars@.skip(start as int),
            body == if chars@.len() > 0 && chars@[0] == '+' {
                chars@.skip(1)
            } else {
                chars@
            },
            all_digits(body.take(i - start), radix as nat),
            value == number_value(body.take(i - start), radix as nat),
            value <= 255,
        decreases chars.len() - i,
    {
        let ghost shorter = body.take(i - start);
        let ghost longer = body.take(i - start + 1);
        assert(longer.drop_last() =~= shorter);
        assert(longer.last() == chars@[i as int]);
        match to_digit(chars[i], radix) {
            None => {
                assert(body[i - start] == chars@[i as int]);
                assert(digit_value(body[i - start], radix as nat) is None);
                assert(!all_digits(body, radix as nat));
                return None;
            },
            Some(digit) => {
                assert(value * radix <= 255 * 36) by (nonlinear_arith)
                    requires
                        value <= 255,
                        radix <= 36,
                ;
                let next: u16 = value * (radix as u16) + (digit as u16);
                assert(next == number_value(longer, radix as nat));
                if next > 255 {
                    proof {
                        lemma_number_value_grows(body, radix as nat, i - start + 1);
                    }
                    return None;
                }
                assert forall|j: int| 0 <= j < longer.len() implies digit_value(
                    #[trigger] longer[j],
                    radix as nat,
                ) is Some by {
                    if j < shorter.len() {
                        assert(longer[j] == shorter[j]);
                    }
                }
                value = next;
            },
        }
        i += 1;
    }
    assert(body.take(chars.len() - start) =~= body);
    Some(value as u8)
}

/// The first position at or after `from` where `s` holds `c`, or the length
/// of `s` if there is none.
pub open spec fn find_char(s: Seq<char>, c: char, from: int) -> int
    decreases s.len() - from,
{
    if from < 0 || from >= s.len() {
        s.len() as int
    } else if s[from] == c {
        from
    } else {
        find_char(s, c, from + 1)
    }
}

/// The first position at or after `from` where `s` holds white space, or the
/// length of `s` if there is none.
pub open spec fn find_space(s: Seq<char>, from: int) -> int
    decreases s.len() - from,
{
    if from < 0 || from >= s.len() {
        s.len() as int
    } else if is_space(s[from]) {
        from
    } else {
        find_space(s, from + 1)
    }
}

/// The first position at or after `from` where `s` holds something other
/// than white space, or the length of `s` if there is none.
pub open spec fn find_non_space(s: Seq<char>, from: int) -> int
    decreases s.len() - from,
{
    if from < 0 || from >= s.len() {
        s.len() as int
    } else if !is_space(s[from]) {
        from
    } else {
        find_non_space(s, from + 1)
    }
}

/// Whether `s` holds `pattern` at position `at`.
pub open spec fn occurs_at(s: Seq<char>, pattern: Seq<char>, at: int) -> bool {
    &&& 0 <= at
    &&& at + pattern.len() <= s.len()
    &&& s.subrange(at, at + pattern.len()) == pattern
}

/// The first position at or after `from`, and before the end of `s`, where
/// `s` holds `pattern`, if there is one.
pub open spec fn find_pattern(s: Seq<char>, pattern: Seq<char>, from: int) -> Option<int>
    decreases s.len() - from,
{
    if from < 0 || from >= s.len() || from + pattern.len() > s.len() {
        None
    } else if occurs_at(s, pattern, from) {
        Some(from)
    } else {
        find_pattern(s, pattern, from + 1)
    }
}

/// Whether `s` begins with `prefix`.
pub open spec fn starts_with(s: Seq<char>, prefix: Seq<char>) -> bool {
    occurs_at(s, prefix, 0)
}

/// Finds `c` in `chars`, from `from` on.
pub fn position_of(chars: &[char], c: char, from: usize) -> (at: usize)
    requires
        from <= chars.len(),
    ensures
        at == find_char(chars@, c, from as int),
        from <= at <= chars.len(),
        at < chars.len() ==> chars[at as int] == c,
{
    let mut i: usize = from;
    while i < chars.len() && chars[i] != c
        invariant
            from <= i <= chars.len(),
            find_char(chars@, c, from as int) == find_char(chars@, c, i as int),
        decreases chars.len() - i,
    {
        i += 1;
    }
    i
}

/// Finds white space in `chars`, from `from` on.
pub fn position_of_space(chars: &[char], from: usize) -> (at: usize)
    requires
        from <= chars.len(),
    ensures
        at == find_space(chars@, from as int),
        from <= at <= chars.len(),
{
    let mut i: usize = from;
    while i < chars.len() && !is_whitespace(chars[i])
        invariant
            from <= i <= chars.len(),
            find_space(chars@, from as int) == find_space(chars@, i as int),
        decreases chars.len() - i,
    {
        i += 1;
    }
    i
}

/// Finds something other than white space in `chars`, from `from` on.
pub fn position_of_non_space(chars: &[char], from: usize) -> (at: usize)
    requires
        from <= chars.len(),
    ensures
        at == find_non_space(chars@, from as int),
        from <= at <= chars.len(),
{
    let mut i: usize = from;
    while i < chars.len() && is_whitespace(chars[i])
        invariant
            from <= i <= chars.len(),
            find_non_space(chars@, from as int) == find_non_space(chars@, i as int),
        decreases chars.len() - i,
    {
        i += 1;
    }
    i
}

/// Tells whether `chars` holds `pattern` at position `at`.
pub fn holds_at(chars: &[char], pattern: &[char], at: usize) -> (holds: bool)
    ensures
        holds == occurs_at(chars@, pattern@, at as int),
{
    if pattern.len() > chars.len() || at > chars.len() - pattern.len() {
        return false;
    }
    let mut i: usize = 0;
    while i < pattern.len()
        invariant
            i <= pattern.len(),
            at + pattern.len() <= chars.len(),
            chars@.subrange(at as int, at + i) == pattern@.take(i as int),
        decreases pattern.len() - i,
    {
        if chars[at + i] != pattern[i] {
            assert(chars@.subrange(at as int, at + pattern.len())[i as int] != pattern@[i as int]);
            return false;
        }
        i += 1;
        assert(chars@.subrange(at as int, at + i) =~= chars@.subrange(at as int, at + i - 1).push(
            chars@[at + i - 1],
        ));
        assert(pattern@.take(i as int) =~= pattern@.take(i - 1).push(pattern@[i - 1]));
    }
    assert(pattern@.take(pattern.len() as int) =~= pattern@);
    true
}

/// Finds the first place where `chars` holds `pattern`, from `from` on.
pub fn position_of_pattern(chars: &[char], pattern: &[char], from: usize) -> (at: Option<usize>)
    ensures
        at is Some == find_pattern(chars@, pattern@, from as int) is Some,
        at is Some ==> at->0 == find_pattern(chars@, pattern@, from as int)->0,
        at is Some ==> occurs_at(chars@, pattern@, at->0 as int) && from <= at->0,
{
    if pattern.len() > chars.len() {
        return None;
    }
    let last: usize = chars.len() - pattern.len();
    let mut i: usize = from;
    while i <= last && i < chars.len()
        invariant
            from <= i,
            last == chars.len() - pattern.len(),
            find_pattern(chars@, pattern@, from as int) == find_pattern(
                chars@,
                pattern@,
                i as int,
            ),
        decreases last + 1 - i,
    {
        if holds_at(chars, pattern, i) {
            return Some(i);
        }
        i += 1;
    }
    None
}

/// Whether a result holds the value, or the message, that `expected` gives.
pub open spec fn agrees<T>(result: Result<T, String>, expected: Result<T, Seq<char>>) -> bool {
    match expected {
        Ok(value) => result == Ok::<T, String>(value),
        Err(message) => result is Err && result->Err_0@ == message,
    }
}

} // verus!
