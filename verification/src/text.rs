//! Text: decoding bytes, white space, joining, padding, numbers and escapes.

use vstd::prelude::*;
use vstd::string::*;
use vstd::utf8::*;

verus! {

/// `String::push`: appends one character and changes nothing else.
pub assume_specification[ String::push ](s: &mut String, c: char)
    ensures
        final(s)@ == old(s)@.push(c),
;

/// What `String::from_utf8_lossy` makes of bytes that are not UTF-8.
pub uninterp spec fn utf8_lossy(bytes: Seq<u8>) -> Seq<char>;

/// What the error of `String::from_utf8` says of bytes that are not UTF-8.
pub uninterp spec fn utf8_complaint(bytes: Seq<u8>) -> Seq<char>;

/// Bytes as they are shown to a person: decoded where they are UTF-8, repaired where they are not.
pub open spec fn shown(bytes: Seq<u8>) -> Seq<char> {
    if valid_utf8(bytes) {
        decode_utf8(bytes)
    } else {
        utf8_lossy(bytes)
    }
}

/// The contents of a list of strings.
pub open spec fn views(list: Seq<String>) -> Seq<Seq<char>> {
    Seq::new(list.len(), |i: int| list[i]@)
}

/// The contents of an optional string.
pub open spec fn optional(s: Option<String>) -> Option<Seq<char>> {
    match s {
        Some(t) => Some(t@),
        None => None,
    }
}

/// The characters with Unicode's `White_Space` property.
pub open spec fn is_space(c: char) -> bool {
    let n = c as u32;
    ||| 0x09 <= n <= 0x0d
    ||| n == 0x20
    ||| n == 0x85
    ||| n == 0xa0
    ||| n == 0x1680
    ||| 0x2000 <= n <= 0x200a
    ||| n == 0x2028
    ||| n == 0x2029
    ||| n == 0x202f
    ||| n == 0x205f
    ||| n == 0x3000
}

/// `s` without leading white space.
pub open spec fn trimmed_front(s: Seq<char>) -> Seq<char>
    decreases s.len(),
{
    if s.len() > 0 && is_space(s[0]) {
        trimmed_front(s.skip(1))
    } else {
        s
    }
}

/// `s` without trailing white space.
pub open spec fn trimmed_back(s: Seq<char>) -> Seq<char>
    decreases s.len(),
{
    if s.len() > 0 && is_space(s.last()) {
        trimmed_back(s.drop_last())
    } else {
        s
    }
}

/// `s` without white space at either end.
pub open spec fn trimmed(s: Seq<char>) -> Seq<char> {
    trimmed_back(trimmed_front(s))
}

/// The longest start of `s` that holds no white space.
pub open spec fn run(s: Seq<char>) -> Seq<char>
    decreases s.len(),
{
    if s.len() > 0 && !is_space(s[0]) {
        seq![s[0]] + run(s.skip(1))
    } else {
        Seq::empty()
    }
}

/// The strings of `list`, with `sep` between neighbours.
pub open spec fn joined(list: Seq<Seq<char>>, sep: Seq<char>) -> Seq<char>
    decreases list.len(),
{
    if list.len() == 0 {
        Seq::empty()
    } else if list.len() == 1 {
        list[0]
    } else {
        joined(list.drop_last(), sep) + sep + list.last()
    }
}

/// `s`, filled up with spaces on the right to `width` characters.
pub open spec fn padded(s: Seq<char>, width: nat) -> Seq<char>
    decreases width - s.len(),
{
    if s.len() < width {
        padded(s.push(' '), width)
    } else {
        s
    }
}

/// The character of a digit below sixteen.
pub open spec fn digit(d: int) -> char {
    if d < 10 {
        (48 + d) as char
    } else {
        (87 + d) as char
    }
}

/// `n` in decimal.
pub open spec fn decimal(n: nat) -> Seq<char>
    decreases n,
{
    if n < 10 {
        seq![digit(n as int)]
    } else {
        decimal(n / 10).push(digit((n % 10) as int))
    }
}

/// `n` in lower-case hexadecimal.
pub open spec fn hexadecimal(n: nat) -> Seq<char>
    decreases n,
{
    if n < 16 {
        seq![digit(n as int)]
    } else {
        hexadecimal(n / 16).push(digit((n % 16) as int))
    }
}

/// `s` is a row of decimal digits.
pub open spec fn all_digits(s: Seq<char>) -> bool {
    forall|i: int| 0 <= i < s.len() ==> '0' <= #[trigger] s[i] <= '9'
}

/// The number that a row of decimal digits stands for.
pub open spec fn value(s: Seq<char>) -> nat
    decreases s.len(),
{
    if s.len() == 0 {
        0
    } else {
        (10 * value(s.drop_last()) + (s.last() as u32 - 48)) as nat
    }
}

/// The digits of a written number: what follows an optional plus sign.
pub open spec fn numeral(s: Seq<char>) -> Seq<char> {
    if s.len() > 0 && s[0] == '+' {
        s.skip(1)
    } else {
        s
    }
}

/// The unsigned 64-bit number that `s` spells, if it spells one.
pub open spec fn number(s: Seq<char>) -> Option<u64> {
    let n = numeral(s);
    if n.len() > 0 && all_digits(n) && value(n) <= u64::MAX {
        Some(value(n) as u64)
    } else {
        None
    }
}

/// One character, escaped so that it is printable ASCII.
pub open spec fn escaped_char(c: char) -> Seq<char> {
    if c == '\t' {
        seq!['\\', 't']
    } else if c == '\r' {
        seq!['\\', 'r']
    } else if c == '\n' {
        seq!['\\', 'n']
    } else if c == '\'' || c == '"' || c == '\\' {
        seq!['\\', c]
    } else if 0x20 <= c as u32 <= 0x7e {
        seq![c]
    } else {
        seq!['\\', 'u', '{'] + hexadecimal(c as u32 as nat) + seq!['}']
    }
}

/// Every character of `s`, escaped.
pub open spec fn escaped(s: Seq<char>) -> Seq<char>
    decreases s.len(),
{
    if s.len() == 0 {
        Seq::empty()
    } else {
        escaped(s.drop_last()) + escaped_char(s.last())
    }
}

/// `String::from_utf8`: the decoded text of valid UTF-8, or the error's message for anything else.
#[verifier::external_body]
pub(crate) fn decode(bytes: Vec<u8>) -> (r: Result<String, String>)
    ensures
        r is Ok <==> valid_utf8(bytes@),
        r matches Ok(s) ==> s@ == decode_utf8(bytes@),
        r matches Err(m) ==> m@ == utf8_complaint(bytes@),
{
    match String::from_utf8(bytes) {
        Ok(s) => Ok(s),
        Err(e) => Err(e.to_string()),
    }
}

/// `String::from_utf8_lossy`: the decoded text of valid UTF-8, and a repaired text, a function of
/// the bytes alone, for anything else.
#[verifier::external_body]
pub(crate) fn show(bytes: &[u8]) -> (r: String)
    ensures
        valid_utf8(bytes@) ==> r@ == decode_utf8(bytes@),
        !valid_utf8(bytes@) ==> r@ == utf8_lossy(bytes@),
{
    String::from_utf8_lossy(bytes).into_owned()
}

/// The characters of `s`.
pub fn characters(s: &str) -> (r: Vec<char>)
    ensures
        r@ == s@,
{
    let mut out: Vec<char> = Vec::new();
    for c in it: s.chars()
        invariant
            it.seq() == s@,
            out@ == s@.take(it.index()),
    {
        assert(s@.take(it.index() + 1) =~= s@.take(it.index()).push(c));
        out.push(c);
    }
    assert(s@.take(s@.len() as int) =~= s@);
    out
}

/// The string made of `chars[from..to]`.
pub fn string_of(chars: &[char], from: usize, to: usize) -> (r: String)
    requires
        from <= to <= chars@.len(),
    ensures
        r@ == chars@.subrange(from as int, to as int),
{
    let mut out = String::new();
    let mut i: usize = from;
    assert(out@ =~= chars@.subrange(from as int, from as int));
    while i < to
        invariant
            from <= i <= to <= chars@.len(),
            out@ == chars@.subrange(from as int, i as int),
        decreases to - i,
    {
        out.push(chars[i]);
        assert(chars@.subrange(from as int, i + 1) =~= chars@.subrange(from as int, i as int).push(
            chars@[i as int],
        ));
        i += 1;
    }
    out
}

/// Tells whether `c` is white space.
pub fn is_white(c: char) -> (r: bool)
    ensures
        r == is_space(c),
{
    let n: u32 = c as u32;
    (0x09 <= n && n <= 0x0d) || n == 0x20 || n == 0x85 || n == 0xa0 || n == 0x1680 || (0x2000 <= n
        && n <= 0x200a) || n == 0x2028 || n == 0x2029 || n == 0x202f || n == 0x205f || n == 0x3000
}

/// Where the text of `chars` begins behind its leading white space.
fn front(chars: &[char]) -> (r: usize)
    ensures
        r <= chars@.len(),
        chars@.skip(r as int) == trimmed_front(chars@),
{
    let mut i: usize = 0;
    assert(chars@.skip(0) =~= chars@);
    while i < chars.len() && is_white(chars[i])
        invariant
            i <= chars@.len(),
            trimmed_front(chars@.skip(i as int)) == trimmed_front(chars@),
        decreases chars@.len() - i,
    {
        assert(chars@.skip(i as int).skip(1) =~= chars@.skip(i + 1));
        i += 1;
    }
    i
}

/// Removes white space from both ends of `s`.
pub fn trim(s: &str) -> (r: String)
    ensures
        r@ == trimmed(s@),
{
    let chars = characters(s);
    let from = front(&chars);
    let mut to: usize = chars.len();
    assert(chars@.subrange(from as int, to as int) =~= chars@.skip(from as int));
    while from < to && is_white(chars[to - 1])
        invariant
            from <= to <= chars@.len(),
            trimmed_back(chars@.subrange(from as int, to as int)) == trimmed(s@),
        decreases to,
    {
        assert(chars@.subrange(from as int, to as int).drop_last() =~= chars@.subrange(
            from as int,
            to - 1,
        ));
        to -= 1;
    }
    string_of(&chars, from, to)
}

/// The first word of `s`; empty where `s` holds none.
pub fn first_word(s: &str) -> (r: Vec<char>)
    ensures
        r@ == run(trimmed_front(s@)),
{
    let chars = characters(s);
    let from = front(&chars);
    let mut out: Vec<char> = Vec::new();
    let mut i: usize = from;
    assert(out@ + run(chars@.skip(i as int)) =~= run(chars@.skip(from as int)));
    while i < chars.len() && !is_white(chars[i])
        invariant
            from <= i <= chars@.len(),
            out@ + run(chars@.skip(i as int)) == run(chars@.skip(from as int)),
        decreases chars@.len() - i,
    {
        let ghost before = out@;
        out.push(chars[i]);
        assert(chars@.skip(i as int).skip(1) =~= chars@.skip(i + 1));
        assert(out@ + run(chars@.skip(i + 1)) =~= before + run(chars@.skip(i as int)));
        i += 1;
    }
    assert(out@ + run(chars@.skip(i as int)) =~= out@);
    out
}

/// Puts `sep` between the strings of `list`.
pub fn join(list: &[String], sep: &str) -> (r: String)
    ensures
        r@ == joined(views(list@), sep@),
{
    if list.len() == 0 {
        return String::new();
    }
    let mut out = list[0].clone();
    let mut i: usize = 1;
    assert(views(list@).take(1)[0] == out@);
    while i < list.len()
        invariant
            1 <= i <= list@.len(),
            out@ == joined(views(list@).take(i as int), sep@),
        decreases list@.len() - i,
    {
        out.append(sep);
        out.append(list[i].as_str());
        assert(views(list@).take(i + 1).drop_last() =~= views(list@).take(i as int));
        i += 1;
    }
    assert(views(list@).take(i as int) =~= views(list@));
    out
}

/// Fills `s` up with spaces to `width` characters.
pub fn pad(s: String, width: usize) -> (r: String)
    ensures
        r@ == padded(s@, width as nat),
{
    let mut out = s;
    let mut n: usize = out.as_str().unicode_len();
    while n < width
        invariant
            n == out@.len(),
            padded(out@, width as nat) == padded(s@, width as nat),
        decreases width - n,
    {
        out.push(' ');
        n += 1;
    }
    out
}

/// The character of a digit below sixteen.
fn digit_char(d: u8) -> (c: char)
    requires
        d < 16,
    ensures
        c == digit(d as int),
{
    if d < 10 {
        (48u8 + d) as char
    } else {
        (87u8 + d) as char
    }
}

/// Writes `n` in decimal.
pub fn to_decimal(n: u64) -> (r: String)
    ensures
        r@ == decimal(n as nat),
    decreases n,
{
    let mut out = if n < 10 {
        String::new()
    } else {
        to_decimal(n / 10)
    };
    out.push(digit_char((n % 10) as u8));
    assert(out@ =~= decimal(n as nat));
    out
}

/// Writes `n` in lower-case hexadecimal.
pub fn to_hexadecimal(n: u32) -> (r: String)
    ensures
        r@ == hexadecimal(n as nat),
    decreases n,
{
    let mut out = if n < 16 {
        String::new()
    } else {
        to_hexadecimal(n / 16)
    };
    out.push(digit_char((n % 16) as u8));
    assert(out@ =~= hexadecimal(n as nat));
    out
}

/// Reads an unsigned number: decimal digits, with at most a plus sign before them.
pub fn parse_number(s: &[char]) -> (r: Option<u64>)
    ensures
        r == number(s@),
{
    let from: usize = if s.len() > 0 && s[0] == '+' {
        1
    } else {
        0
    };
    let ghost digits = numeral(s@);
    assert(digits =~= s@.skip(from as int));
    if s.len() == from {
        return None;
    }
    let mut total: u64 = 0;
    let mut fits: bool = true;
    let mut i: usize = from;
    while i < s.len()
        invariant
            from <= i <= s@.len(),
            digits == numeral(s@),
            digits == s@.skip(from as int),
            all_digits(digits.take(i - from)),
            fits ==> total == value(digits.take(i - from)),
            !fits ==> value(digits.take(i - from)) > u64::MAX,
        decreases s@.len() - i,
    {
        let c: char = s[i];
        let ghost k = i - from;
        assert(digits[k] == c);
        if c < '0' || '9' < c {
            return None;
        }
        assert(digits.take(k + 1).drop_last() =~= digits.take(k));
        assert(all_digits(digits.take(k + 1)));
        let d: u64 = (c as u32 - 48) as u64;
        if fits {
            if total <= (u64::MAX - d) / 10 {
                total = total * 10 + d;
            } else {
                fits = false;
            }
        }
        i += 1;
    }
    assert(digits.take(digits.len() as int) =~= digits);
    if fits {
        Some(total)
    } else {
        None
    }
}

/// Escapes every character of `s`, so that the result is printable ASCII on one line.
pub fn escape(s: &str) -> (r: String)
    ensures
        r@ == escaped(s@),
{
    let chars = characters(s);
    let mut out = String::new();
    let mut i: usize = 0;
    assert(out@ =~= escaped(chars@.take(0)));
    while i < chars.len()
        invariant
            i <= chars@.len(),
            out@ == escaped(chars@.take(i as int)),
        decreases chars@.len() - i,
    {
        let c: char = chars[i];
        let ghost before = out@;
        assert(chars@.take(i + 1).drop_last() =~= chars@.take(i as int));
        if c == '\t' {
            out.push('\\');
            out.push('t');
        } else if c == '\r' {
            out.push('\\');
            out.push('r');
        } else if c == '\n' {
            out.push('\\');
            out.push('n');
        } else if c == '\'' || c == '"' || c == '\\' {
            out.push('\\');
            out.push(c);
        } else if 0x20 <= c as u32 && c as u32 <= 0x7e {
            out.push(c);
        } else {
            out.push('\\');
            out.push('u');
            out.push('{');
            let h = to_hexadecimal(c as u32);
            out.append(h.as_str());
            out.push('}');
        }
        assert(out@ =~= before + escaped_char(c));
        i += 1;
    }
    assert(chars@.take(i as int) =~= chars@);
    out
}

/// What follows the prefix `prefix` of `s`, where `s` begins with it.
pub fn strip(s: &str, prefix: &str) -> (r: Option<String>)
    ensures
        r is Some <==> prefix@.is_prefix_of(s@),
        r matches Some(t) ==> t@ == s@.skip(prefix@.len() as int),
{
    let whole = characters(s);
    let start = characters(prefix);
    if whole.len() < start.len() {
        return None;
    }
    let mut i: usize = 0;
    while i < start.len()
        invariant
            whole@ == s@,
            start@ == prefix@,
            start@.len() <= whole@.len(),
            i <= start@.len(),
            forall|j: int| 0 <= j < i ==> start@[j] == whole@[j],
        decreases start@.len() - i,
    {
        if whole[i] != start[i] {
            assert(s@.subrange(0, prefix@.len() as int)[i as int] == s@[i as int]);
            return None;
        }
        i += 1;
    }
    assert(prefix@ =~= s@.subrange(0, prefix@.len() as int));
    let out = string_of(&whole, start.len(), whole.len());
    assert(out@ =~= s@.skip(prefix@.len() as int));
    Some(out)
}

/// Tells whether two texts are the same.
pub fn same(a: &str, b: &str) -> (r: bool)
    ensures
        r == (a@ == b@),
{
    let x = a.to_owned();
    let y = b.to_owned();
    x == y
}

/// All of a text is white space.
pub open spec fn is_blank(s: Seq<char>) -> bool {
    forall|i: int| 0 <= i < s.len() ==> is_space(#[trigger] s[i])
}

/// What precedes a text without its leading white space is white space.
proof fn front_is_blank(s: Seq<char>) -> (a: Seq<char>)
    ensures
        is_blank(a),
        s == a + trimmed_front(s),
        trimmed_front(s).len() > 0 ==> !is_space(trimmed_front(s)[0]),
    decreases s.len(),
{
    if s.len() > 0 && is_space(s[0]) {
        let b = front_is_blank(s.skip(1));
        let a = seq![s[0]] + b;
        assert(s =~= seq![s[0]] + s.skip(1));
        assert(s =~= a + trimmed_front(s));
        assert forall|i: int| 0 <= i < a.len() implies is_space(#[trigger] a[i]) by {
            if i > 0 {
                assert(a[i] == b[i - 1]);
            }
        }
        a
    } else {
        assert(s =~= Seq::<char>::empty() + s);
        Seq::empty()
    }
}

/// What follows a text without its trailing white space is white space.
proof fn back_is_blank(s: Seq<char>) -> (b: Seq<char>)
    ensures
        is_blank(b),
        s == trimmed_back(s) + b,
        trimmed_back(s).len() > 0 ==> !is_space(trimmed_back(s).last()) && trimmed_back(s)[0] == s[0],
    decreases s.len(),
{
    if s.len() > 0 && is_space(s.last()) {
        let a = back_is_blank(s.drop_last());
        let b = a.push(s.last());
        assert(s =~= s.drop_last().push(s.last()));
        assert(s =~= trimmed_back(s) + b);
        b
    } else {
        assert(s =~= s + Seq::<char>::empty());
        Seq::empty()
    }
}

/// Trimming takes away white space at both ends, all of it, and nothing else.
pub proof fn trimming_takes_white_space_away(s: Seq<char>) -> (r: (Seq<char>, Seq<char>))
    ensures
        is_blank(r.0),
        is_blank(r.1),
        s == r.0 + trimmed(s) + r.1,
        trimmed(s).len() > 0 ==> !is_space(trimmed(s)[0]) && !is_space(trimmed(s).last()),
{
    let a = front_is_blank(s);
    let b = back_is_blank(trimmed_front(s));
    assert(s =~= a + trimmed(s) + b);
    (a, b)
}

/// A first word holds no white space, and white space or nothing follows it.
pub proof fn first_word_ends_at_white_space(s: Seq<char>)
    ensures
        run(s).len() <= s.len(),
        run(s) == s.take(run(s).len() as int),
        forall|i: int| 0 <= i < run(s).len() ==> !is_space(#[trigger] run(s)[i]),
        run(s).len() < s.len() ==> is_space(s[run(s).len() as int]),
    decreases s.len(),
{
    if s.len() > 0 && !is_space(s[0]) {
        let rest = s.skip(1);
        first_word_ends_at_white_space(rest);
        let r = run(s);
        assert(r =~= s.take(r.len() as int)) by {
            assert forall|i: int| 0 < i < r.len() implies r[i] == s[i] by {
                assert(run(rest)[i - 1] == rest.take(run(rest).len() as int)[i - 1]);
            }
        }
        assert forall|i: int| 0 <= i < r.len() implies !is_space(#[trigger] r[i]) by {
            if i > 0 {
                assert(r[i] == run(rest)[i - 1]);
            }
        }
        if r.len() < s.len() {
            assert(s[r.len() as int] == rest[run(rest).len() as int]);
        }
    } else {
        assert(run(s) =~= s.take(0));
    }
}

/// Filling up keeps the text and adds spaces, up to the width and no further.
pub proof fn filling_adds_spaces(s: Seq<char>, width: nat)
    ensures
        padded(s, width).len() == (if s.len() < width {
            width
        } else {
            s.len()
        }),
        padded(s, width).take(s.len() as int) == s,
        forall|i: int|
            s.len() <= i < padded(s, width).len() ==> #[trigger] padded(s, width)[i] == ' ',
    decreases width - s.len(),
{
    if s.len() < width {
        filling_adds_spaces(s.push(' '), width);
        let r = padded(s, width);
        assert(r.take(s.len() as int) =~= s) by {
            assert(r.take((s.len() + 1) as int) =~= s.push(' '));
            assert forall|i: int| 0 <= i < s.len() implies r[i] == s[i] by {
                assert(r.take((s.len() + 1) as int)[i] == s.push(' ')[i]);
            }
        }
        assert forall|i: int| s.len() <= i < r.len() implies #[trigger] r[i] == ' ' by {
            if i == s.len() {
                assert(r.take((s.len() + 1) as int)[i] == s.push(' ')[i]);
            }
        }
    } else {
        assert(s.take(s.len() as int) =~= s);
    }
}

/// A number that is written is read back.
pub proof fn written_number_reads_back(n: nat)
    ensures
        all_digits(decimal(n)),
        decimal(n).len() > 0,
        value(decimal(n)) == n,
        n > 0 ==> decimal(n)[0] != '0',
    decreases n,
{
    reveal_with_fuel(value, 2);
    if n < 10 {
        let s = decimal(n);
        assert(s.drop_last() =~= Seq::<char>::empty());
        assert(s.last() == digit(n as int));
    } else {
        written_number_reads_back(n / 10);
        let s = decimal(n);
        assert(s.drop_last() =~= decimal(n / 10));
        assert(n / 10 > 0);
        assert(s[0] == decimal(n / 10)[0]);
        assert forall|i: int| 0 <= i < s.len() implies '0' <= #[trigger] s[i] <= '9' by {
            if i < s.len() - 1 {
                assert(s[i] == decimal(n / 10)[i]);
            }
        }
    }
}

/// An unsigned number that is written, with or without a plus sign, is read back.
pub proof fn number_reads_what_was_written(n: u64)
    ensures
        number(decimal(n as nat)) == Some(n),
        number(seq!['+'] + decimal(n as nat)) == Some(n),
{
    written_number_reads_back(n as nat);
    let s = decimal(n as nat);
    assert(s[0] != '+') by {
        assert('0' <= s[0]);
    }
    assert((seq!['+'] + s).skip(1) =~= s);
}

/// Texts in a row are joined one by one.
pub proof fn joined_text_holds_each(list: Seq<Seq<char>>, sep: Seq<char>, k: int) -> (r: (
    Seq<char>,
    Seq<char>,
))
    requires
        0 <= k < list.len(),
    ensures
        joined(list, sep) == r.0 + list[k] + r.1,
        k == 0 ==> r.0.len() == 0,
        k > 0 ==> r.0 == joined(list.take(k), sep) + sep,
        k == list.len() - 1 ==> r.1.len() == 0,
    decreases list.len(),
{
    let none = Seq::<char>::empty();
    if list.len() == 1 {
        assert(joined(list, sep) =~= none + list[k] + none);
        (none, none)
    } else if k == list.len() - 1 {
        let a = joined(list.drop_last(), sep) + sep;
        assert(list.take(k) =~= list.drop_last());
        assert(joined(list, sep) =~= a + list[k] + none);
        (a, none)
    } else {
        let (a, b) = joined_text_holds_each(list.drop_last(), sep, k);
        assert(list.drop_last().take(k) =~= list.take(k));
        let c = b + sep + list.last();
        assert(joined(list, sep) =~= a + list[k] + c);
        (a, c)
    }
}

/// The length of texts in a row, with so much between neighbours.
pub open spec fn joined_length(list: Seq<Seq<char>>, gap: nat) -> nat
    decreases list.len(),
{
    if list.len() == 0 {
        0
    } else {
        joined_length(list.drop_last(), gap) + list.last().len() + if list.len() == 1 {
            0
        } else {
            gap
        }
    }
}

/// Joining adds nothing but the separators.
pub proof fn joining_adds_only_separators(list: Seq<Seq<char>>, sep: Seq<char>)
    ensures
        joined(list, sep).len() == joined_length(list, sep.len()),
    decreases list.len(),
{
    if list.len() > 1 {
        joining_adds_only_separators(list.drop_last(), sep);
    } else if list.len() == 1 {
        assert(list.last() == list[0]);
        assert(joined_length(list.drop_last(), sep.len()) == 0);
    }
}

/// Escaping goes character by character.
pub proof fn escaping_goes_one_by_one(a: Seq<char>, b: Seq<char>)
    ensures
        escaped(a + b) == escaped(a) + escaped(b),
    decreases b.len(),
{
    if b.len() == 0 {
        assert(a + b =~= a);
        assert(escaped(a) + escaped(b) =~= escaped(a));
    } else {
        escaping_goes_one_by_one(a, b.drop_last());
        assert((a + b).drop_last() =~= a + b.drop_last());
        assert(escaped(a + b) =~= escaped(a) + escaped(b));
    }
}

/// Hexadecimal digits are printable.
proof fn hexadecimal_is_printable(n: nat)
    ensures
        forall|i: int|
            0 <= i < hexadecimal(n).len() ==> 0x20 <= #[trigger] hexadecimal(n)[i] as u32 <= 0x7e,
    decreases n,
{
    if n >= 16 {
        hexadecimal_is_printable(n / 16);
        let s = hexadecimal(n);
        assert forall|i: int| 0 <= i < s.len() implies 0x20 <= #[trigger] s[i] as u32 <= 0x7e by {
            if i < s.len() - 1 {
                assert(s[i] == hexadecimal(n / 16)[i]);
            }
        }
    }
}

/// An escaped text is printable ASCII on one line, and a printable text without quotes and
/// backslashes stays as it is.
pub proof fn escaped_text_is_printable(s: Seq<char>)
    ensures
        forall|i: int|
            0 <= i < escaped(s).len() ==> 0x20 <= #[trigger] escaped(s)[i] as u32 <= 0x7e,
        (forall|i: int|
            0 <= i < s.len() ==> 0x20 <= #[trigger] s[i] as u32 <= 0x7e && s[i] != '\'' && s[i] != '"'
                && s[i] != '\\') ==> escaped(s) == s,
    decreases s.len(),
{
    if s.len() > 0 {
        let t = s.drop_last();
        escaped_text_is_printable(t);
        hexadecimal_is_printable(s.last() as u32 as nat);
        let e = escaped_char(s.last());
        let whole = escaped(s);
        assert forall|i: int| 0 <= i < whole.len() implies 0x20 <= #[trigger] whole[i] as u32 <= 0x7e by {
            if i < escaped(t).len() {
                assert(whole[i] == escaped(t)[i]);
            } else {
                assert(whole[i] == e[i - escaped(t).len()]);
            }
        }
        if forall|i: int|
            0 <= i < s.len() ==> 0x20 <= #[trigger] s[i] as u32 <= 0x7e && s[i] != '\'' && s[i] != '"'
                && s[i] != '\\' {
            assert forall|i: int| 0 <= i < t.len() implies 0x20 <= #[trigger] t[i] as u32 <= 0x7e
                && t[i] != '\'' && t[i] != '"' && t[i] != '\\' by {
                assert(t[i] == s[i]);
            }
            assert(s[s.len() - 1] == s.last());
            assert(escaped(s) =~= s);
        }
    } else {
        assert(escaped(s) =~= s);
    }
}

} // verus!
