//! Text building and scanning over `Seq<char>` models.

use vstd::prelude::*;
use vstd::string::*;

verus! {

// ---------------------------------------------------------------------------
// Models
// ---------------------------------------------------------------------------

/// The contents of a list of strings.
pub open spec fn texts(v: Seq<String>) -> Seq<Seq<char>> {
    v.map_values(|s: String| s@)
}

/// The contents of an optional string.
pub open spec fn opt_text(o: Option<String>) -> Option<Seq<char>> {
    match o {
        Some(s) => Some(s@),
        None => None,
    }
}

/// The parts with `sep` between each two neighbours.
pub open spec fn joined(parts: Seq<Seq<char>>, sep: Seq<char>) -> Seq<char>
    decreases parts.len(),
{
    if parts.len() == 0 {
        Seq::empty()
    } else if parts.len() == 1 {
        parts[0]
    } else {
        joined(parts.drop_last(), sep) + sep + parts.last()
    }
}

/// The character of the decimal digit `d`.
pub open spec fn digit_char(d: nat) -> char {
    (48 + d) as char
}

/// `n` in decimal, without leading zeros.
pub open spec fn dec(n: nat) -> Seq<char>
    decreases n,
{
    if n < 10 {
        seq![digit_char(n)]
    } else {
        dec(n / 10).push(digit_char(n % 10))
    }
}

/// `n` in decimal, padded on the left with zeros to at least `width`.
pub open spec fn padded(n: nat, width: nat) -> Seq<char> {
    if dec(n).len() >= width {
        dec(n)
    } else {
        Seq::new((width - dec(n).len()) as nat, |i: int| '0') + dec(n)
    }
}

/// The signed number `n` in decimal.
pub open spec fn signed_dec(n: int) -> Seq<char> {
    if n < 0 {
        seq!['-'] + dec((-n) as nat)
    } else {
        dec(n as nat)
    }
}

/// The character of the lower-case hexadecimal digit `d`.
pub open spec fn hex_char(d: nat) -> char {
    if d < 10 {
        (48 + d) as char
    } else {
        (87 + d) as char
    }
}

/// Two lower-case hexadecimal digits for each byte.
pub open spec fn hex(bytes: Seq<u8>) -> Seq<char>
    decreases bytes.len(),
{
    if bytes.len() == 0 {
        Seq::empty()
    } else {
        hex(bytes.drop_last()).push(hex_char(bytes.last() as nat / 16)).push(
            hex_char(bytes.last() as nat % 16),
        )
    }
}

/// `true` and `false` as they are written.
pub open spec fn bool_text(b: bool) -> Seq<char> {
    if b {
        "true"@
    } else {
        "false"@
    }
}

/// The characters with the Unicode property `White_Space`.
pub open spec fn is_space(c: char) -> bool {
    let u = c as u32;
    ||| 9 <= u <= 13
    ||| u == 0x20
    ||| u == 0x85
    ||| u == 0xA0
    ||| u == 0x1680
    ||| 0x2000 <= u <= 0x200A
    ||| u == 0x2028
    ||| u == 0x2029
    ||| u == 0x202F
    ||| u == 0x205F
    ||| u == 0x3000
}

/// `s` without its leading white space.
pub open spec fn trimmed_start(s: Seq<char>) -> Seq<char>
    decreases s.len(),
{
    if s.len() > 0 && is_space(s[0]) {
        trimmed_start(s.drop_first())
    } else {
        s
    }
}

/// `s` without its trailing white space.
pub open spec fn trimmed_end(s: Seq<char>) -> Seq<char>
    decreases s.len(),
{
    if s.len() > 0 && is_space(s.last()) {
        trimmed_end(s.drop_last())
    } else {
        s
    }
}

/// `s` without the white space at its two ends.
pub open spec fn trimmed(s: Seq<char>) -> Seq<char> {
    trimmed_end(trimmed_start(s))
}

/// The ASCII lower-case form of a character; other characters are kept.
pub open spec fn ascii_lower(c: char) -> char {
    if 'A' <= c <= 'Z' {
        (c as u32 + 32) as char
    } else {
        c
    }
}

/// `s` with its ASCII letters in lower case.
pub open spec fn lowered(s: Seq<char>) -> Seq<char> {
    s.map_values(|c: char| ascii_lower(c))
}

/// A decimal digit.
pub open spec fn is_digit(c: char) -> bool {
    '0' <= c <= '9'
}

/// A non-empty run of decimal digits.
pub open spec fn all_digits(s: Seq<char>) -> bool {
    s.len() > 0 && forall|i: int| 0 <= i < s.len() ==> is_digit(#[trigger] s[i])
}

/// The number that a run of decimal digits writes.
pub open spec fn digits_value(s: Seq<char>) -> nat
    decreases s.len(),
{
    if s.len() == 0 {
        0
    } else {
        digits_value(s.drop_last()) * 10 + (s.last() as nat - 48) as nat
    }
}

/// The digits of an unsigned number that may carry a plus sign.
pub open spec fn without_plus(s: Seq<char>) -> Seq<char> {
    if s.len() > 0 && s[0] == '+' {
        s.drop_first()
    } else {
        s
    }
}

/// The unsigned number at most `max` that `s` writes, if it writes one.
pub open spec fn unsigned_value(s: Seq<char>, max: nat) -> Option<nat> {
    let d = without_plus(s);
    if all_digits(d) && digits_value(d) <= max {
        Some(digits_value(d))
    } else {
        None
    }
}

/// The signed number from `min` to `max` that `s` writes, if it writes one.
pub open spec fn signed_value(s: Seq<char>, min: int, max: int) -> Option<int> {
    if s.len() > 0 && s[0] == '-' {
        let d = s.drop_first();
        if all_digits(d) && -(digits_value(d) as int) >= min {
            Some(-(digits_value(d) as int))
        } else {
            None
        }
    } else {
        let d = without_plus(s);
        if all_digits(d) && digits_value(d) <= max {
            Some(digits_value(d) as int)
        } else {
            None
        }
    }
}

/// The texts, each as `{:?}` prints it, between brackets and with commas.
pub open spec fn quoted_list_text(v: Seq<Seq<char>>) -> Seq<char> {
    "["@ + joined(v.map_values(|s: Seq<char>| quoted_text(s)), ", "@) + "]"@
}

// ---------------------------------------------------------------------------
// Building
// ---------------------------------------------------------------------------

/// `String::push` of std: appends one character.
pub assume_specification[ String::push ](s: &mut String, c: char)
    ensures
        final(s)@ == old(s)@.push(c),
;

/// What `{:?}` prints of a text.
pub uninterp spec fn quoted_text(s: Seq<char>) -> Seq<char>;

/// What `{:?}` prints of a path.
pub uninterp spec fn quoted_path_text(s: Seq<char>) -> Seq<char>;

/// `format!` of std with `{:?}` on a `str`: the text in double quotes with its special
/// characters escaped, line breaks among them. The result depends on the text alone and stays
/// on one line; which escapes are used is left unsaid.
#[verifier::external_body]
pub(crate) fn quoted(s: &str) -> (r: String)
    ensures
        r@ == quoted_text(s@),
        !r@.contains('\n'),
{
    format!("{:?}", s)
}

/// `format!` of std with `{:?}` on a `std::path::Path`: the path in double quotes with its
/// special characters escaped. The result depends on the text alone; which escapes
/// are used is left unsaid.
#[verifier::external_body]
pub(crate) fn quoted_path(s: &str) -> (r: String)
    ensures
        r@ == quoted_path_text(s@),
{
    format!("{:?}", std::path::Path::new(s))
}

/// The texts as `{:?}` prints a list of strings.
pub fn quoted_list(v: &Vec<String>) -> (r: String)
    ensures
        r@ == quoted_list_text(texts(v@)),
{
    let mut parts: Vec<String> = Vec::new();
    let mut i: usize = 0;
    while i < v.len()
        invariant
            i <= v@.len(),
            parts@.len() == i,
            forall|k: int| 0 <= k < i ==> #[trigger] parts@[k]@ == quoted_text(v@[k]@),
        decreases v@.len() - i,
    {
        parts.push(quoted(v[i].as_str()));
        i = i + 1;
    }
    assert(texts(parts@) =~= texts(v@).map_values(|s: Seq<char>| quoted_text(s)));
    let mut out = "[".to_owned();
    out.append(join(&parts, ", ").as_str());
    out.append("]");
    out
}

/// `head`, then `tail`.
pub fn two(head: &str, tail: &str) -> (r: String)
    ensures
        r@ == head@ + tail@,
{
    let mut s = head.to_owned();
    s.append(tail);
    s
}

/// `head`, `mid`, then `sep` and `tail`.
pub fn four(head: &str, mid: &str, sep: &str, tail: &str) -> (r: String)
    ensures
        r@ == head@ + mid@ + sep@ + tail@,
{
    let mut s = head.to_owned();
    s.append(mid);
    s.append(sep);
    s.append(tail);
    s
}

/// A copy of an optional string.
pub fn clone_opt(o: &Option<String>) -> (r: Option<String>)
    ensures
        opt_text(r) == opt_text(*o),
{
    match o {
        Some(s) => Some(s.clone()),
        None => None,
    }
}

/// A copy of a list of strings.
pub fn clone_texts(v: &Vec<String>) -> (r: Vec<String>)
    ensures
        texts(r@) == texts(v@),
        r@.len() == v@.len(),
{
    let mut out: Vec<String> = Vec::new();
    let mut i: usize = 0;
    while i < v.len()
        invariant
            i <= v@.len(),
            texts(out@) == texts(v@).take(i as int),
        decreases v@.len() - i,
    {
        let ghost before = out@;
        out.push(v[i].clone());
        proof {
            assert(texts(out@) =~= texts(before).push(v@[i as int]@));
            assert(texts(v@).take(i + 1) =~= texts(v@).take(i as int).push(texts(v@)[i as int]));
        }
        i = i + 1;
    }
    assert(texts(v@).take(v@.len() as int) =~= texts(v@));
    assert(out@.len() == texts(out@).len());
    out
}

/// The two texts hold the same characters.
pub fn same_text(a: &str, b: &str) -> (r: bool)
    ensures
        r == (a@ == b@),
{
    let n: usize = a.unicode_len();
    let m: usize = b.unicode_len();
    if n != m {
        return false;
    }
    let left = chars_of(a);
    let right = chars_of(b);
    let mut i: usize = 0;
    while i < left.len()
        invariant
            left@ == a@,
            right@ == b@,
            a@.len() == b@.len(),
            i <= left@.len(),
            forall|k: int| 0 <= k < i ==> left@[k] == right@[k],
        decreases left@.len() - i,
    {
        if left[i] != right[i] {
            return false;
        }
        i = i + 1;
    }
    assert(a@ =~= b@);
    true
}

/// The characters of a text as a list.
pub fn chars_of(s: &str) -> (r: Vec<char>)
    ensures
        r@ == s@,
{
    let mut out: Vec<char> = Vec::new();
    for c in it: s.chars()
        invariant
            out@ == s@.take(it.index() as int),
            it.seq() == s@,
    {
        proof {
            assert(s@.take(it.index() + 1) =~= s@.take(it.index() as int).push(
                s@[it.index() as int],
            ));
        }
        out.push(c);
    }
    assert(s@.take(s@.len() as int) =~= s@);
    out
}

/// The text that a list of characters spells.
pub fn text_of(chars: &Vec<char>, from: usize, to: usize) -> (r: String)
    requires
        from <= to <= chars@.len(),
    ensures
        r@ == chars@.subrange(from as int, to as int),
{
    let mut out = String::new();
    let mut i: usize = from;
    while i < to
        invariant
            from <= i <= to <= chars@.len(),
            out@ == chars@.subrange(from as int, i as int),
        decreases to - i,
    {
        proof {
            assert(chars@.subrange(from as int, i + 1) =~= chars@.subrange(
                from as int,
                i as int,
            ).push(chars@[i as int]));
        }
        out.push(chars[i]);
        i = i + 1;
    }
    out
}

/// The strings of `parts` with `sep` between each two neighbours.
pub fn join(parts: &Vec<String>, sep: &str) -> (r: String)
    ensures
        r@ == joined(texts(parts@), sep@),
{
    let mut out = String::new();
    let mut i: usize = 0;
    while i < parts.len()
        invariant
            i <= parts@.len(),
            out@ == joined(texts(parts@).take(i as int), sep@),
        decreases parts@.len() - i,
    {
        let ghost now = texts(parts@).take(i + 1);
        proof {
            assert(now.drop_last() =~= texts(parts@).take(i as int));
            assert(now.last() == parts@[i as int]@);
        }
        if i > 0 {
            out.append(sep);
        }
        out.append(parts[i].as_str());
        proof {
            if i == 0 {
                assert(out@ =~= now[0]);
            }
        }
        i = i + 1;
    }
    assert(texts(parts@).take(parts@.len() as int) =~= texts(parts@));
    out
}

/// The digit `d` of a decimal number.
fn digit(d: u8) -> (c: char)
    requires
        d < 10,
    ensures
        c == digit_char(d as nat),
{
    (48 + d) as char
}

/// `n` in decimal.
pub fn dec_u64(n: u64) -> (r: String)
    ensures
        r@ == dec(n as nat),
    decreases n,
{
    if n < 10 {
        let mut out = String::new();
        out.push(digit(n as u8));
        assert(out@ =~= seq![digit_char(n as nat)]);
        out
    } else {
        let mut out = dec_u64(n / 10);
        out.push(digit((n % 10) as u8));
        out
    }
}

/// `n` in decimal, padded with zeros to at least `width` characters.
pub fn padded_u64(n: u64, width: usize) -> (r: String)
    ensures
        r@ == padded(n as nat, width as nat),
{
    let digits = dec_u64(n);
    let len: usize = digits.as_str().unicode_len();
    let mut out = String::new();
    let mut i: usize = len;
    while i < width
        invariant
            len == dec(n as nat).len(),
            i >= len,
            i <= width || i == len,
            out@ == Seq::new((i - len) as nat, |k: int| '0'),
        decreases width - i,
    {
        out.push('0');
        i = i + 1;
        assert(out@ =~= Seq::new((i - len) as nat, |k: int| '0'));
    }
    out.append(digits.as_str());
    assert(len >= width ==> out@ =~= dec(n as nat));
    out
}

/// `n` in decimal, with a minus sign where it is negative.
pub fn dec_i64(n: i64) -> (r: String)
    ensures
        r@ == signed_dec(n as int),
{
    let mut out = String::new();
    if n < 0 {
        out.push('-');
        let m: u64 = if n == i64::MIN {
            0x8000_0000_0000_0000
        } else {
            (-n) as u64
        };
        out.append(dec_u64(m).as_str());
        assert(out@ =~= seq!['-'] + dec((-n) as nat));
    } else {
        out.append(dec_u64(n as u64).as_str());
        assert(out@ =~= dec(n as nat));
    }
    out
}

/// The lower-case hexadecimal digit `d`.
fn hex_digit(d: u8) -> (c: char)
    requires
        d < 16,
    ensures
        c == hex_char(d as nat),
{
    if d < 10 {
        (48 + d) as char
    } else {
        (87 + d) as char
    }
}

/// The bytes in lower-case hexadecimal.
pub fn hex_of(bytes: &Vec<u8>) -> (r: String)
    ensures
        r@ == hex(bytes@),
{
    let mut out = String::new();
    let mut i: usize = 0;
    while i < bytes.len()
        invariant
            i <= bytes@.len(),
            out@ == hex(bytes@.take(i as int)),
        decreases bytes@.len() - i,
    {
        let b: u8 = bytes[i];
        proof {
            assert(bytes@.take(i + 1).drop_last() =~= bytes@.take(i as int));
            assert(bytes@.take(i + 1).last() == b);
        }
        out.push(hex_digit(b / 16));
        out.push(hex_digit(b % 16));
        i = i + 1;
    }
    assert(bytes@.take(bytes@.len() as int) =~= bytes@);
    out
}

/// `true` or `false` as text.
pub fn bool_str(b: bool) -> (r: &'static str)
    ensures
        r@ == bool_text(b),
{
    if b {
        "true"
    } else {
        "false"
    }
}

// ---------------------------------------------------------------------------
// Scanning
// ---------------------------------------------------------------------------

/// Whether a character is white space.
pub fn space(c: char) -> (r: bool)
    ensures
        r == is_space(c),
{
    let u: u32 = c as u32;
    (9 <= u && u <= 13) || u == 0x20 || u == 0x85 || u == 0xA0 || u == 0x1680 || (0x2000 <= u && u
        <= 0x200A) || u == 0x2028 || u == 0x2029 || u == 0x202F || u == 0x205F || u == 0x3000
}

/// The text without the white space at its two ends.
pub fn trim(s: &str) -> (r: String)
    ensures
        r@ == trimmed(s@),
{
    let chars = chars_of(s);
    let n: usize = chars.len();
    let mut a: usize = 0;
    assert(s@.subrange(0, n as int) =~= s@);
    while a < n && space(chars[a])
        invariant
            chars@ == s@,
            n == s@.len(),
            a <= n,
            trimmed_start(s@) == trimmed_start(s@.subrange(a as int, n as int)),
        decreases n - a,
    {
        assert(s@.subrange(a as int, n as int).drop_first() =~= s@.subrange(a + 1, n as int));
        a = a + 1;
    }
    let ghost start = s@.subrange(a as int, n as int);
    assert(trimmed_start(s@) == start);
    let mut b: usize = n;
    while a < b && space(chars[b - 1])
        invariant
            chars@ == s@,
            n == s@.len(),
            a <= b <= n,
            trimmed_end(start) == trimmed_end(s@.subrange(a as int, b as int)),
        decreases b - a,
    {
        assert(s@.subrange(a as int, b as int).drop_last() =~= s@.subrange(a as int, b - 1));
        b = b - 1;
    }
    assert(trimmed_end(start) == s@.subrange(a as int, b as int));
    text_of(&chars, a, b)
}

/// Whether `s` begins with `prefix`.
pub fn starts_with(s: &str, prefix: &str) -> (r: bool)
    ensures
        r == prefix@.is_prefix_of(s@),
{
    let n: usize = s.unicode_len();
    let m: usize = prefix.unicode_len();
    if m > n {
        return false;
    }
    let head = s.substring_char(0, m);
    let r = same_text(head, prefix);
    assert(s@.subrange(0, m as int) == prefix@ <==> prefix@.is_prefix_of(s@)) by {
        if prefix@.is_prefix_of(s@) {
            assert(s@.subrange(0, m as int) =~= prefix@);
        }
    }
    r
}

/// The text after `prefix`, if `s` begins with it.
pub fn strip_prefix(s: &str, prefix: &str) -> (r: Option<String>)
    ensures
        match r {
            Some(rest) => prefix@.is_prefix_of(s@) && rest@ == s@.skip(prefix@.len() as int),
            None => !prefix@.is_prefix_of(s@),
        },
{
    if starts_with(s, prefix) {
        let n: usize = s.unicode_len();
        let m: usize = prefix.unicode_len();
        let rest = s.substring_char(m, n);
        assert(rest@ =~= s@.skip(prefix@.len() as int));
        Some(rest.to_owned())
    } else {
        None
    }
}

/// The ASCII lower-case form of a character.
pub fn lower_char(c: char) -> (r: char)
    ensures
        r == ascii_lower(c),
{
    let u: u32 = c as u32;
    if 65 <= u && u <= 90 {
        let low: u8 = u as u8 + 32;
        low as char
    } else {
        c
    }
}

/// The text with its ASCII letters in lower case.
pub fn lower(s: &str) -> (r: String)
    ensures
        r@ == lowered(s@),
{
    let chars = chars_of(s);
    let mut out = String::new();
    let mut i: usize = 0;
    while i < chars.len()
        invariant
            chars@ == s@,
            i <= chars@.len(),
            out@ == lowered(s@.take(i as int)),
        decreases chars@.len() - i,
    {
        out.push(lower_char(chars[i]));
        assert(out@ =~= lowered(s@.take(i + 1)));
        i = i + 1;
    }
    assert(s@.take(s@.len() as int) =~= s@);
    out
}

/// Whether the two texts are equal up to the case of ASCII letters.
pub fn same_ignoring_case(a: &str, b: &str) -> (r: bool)
    ensures
        r == (lowered(a@) == lowered(b@)),
{
    let x = lower(a);
    let y = lower(b);
    same_text(x.as_str(), y.as_str())
}

/// A longer run of digits never writes a smaller number.
pub proof fn digits_value_grows(s: Seq<char>, i: int)
    requires
        all_digits(s),
        0 <= i <= s.len(),
    ensures
        digits_value(s.take(i)) <= digits_value(s),
    decreases s.len() - i,
{
    if i < s.len() {
        digits_value_grows(s, i + 1);
        assert(s.take(i + 1).drop_last() =~= s.take(i));
    } else {
        assert(s.take(i) =~= s);
    }
}

/// The unsigned number at most `max` that the text writes, if it writes one.
///
/// A single leading plus sign is accepted; a minus sign, blanks and an empty
/// text are not.
pub fn parse_unsigned(s: &str, max: u64) -> (r: Option<u64>)
    ensures
        match r {
            Some(v) => unsigned_value(s@, max as nat) == Some(v as nat),
            None => unsigned_value(s@, max as nat) is None,
        },
{
    let chars = chars_of(s);
    let n: usize = chars.len();
    let start: usize = if n > 0 && chars[0] == '+' {
        1
    } else {
        0
    };
    let ghost d = without_plus(s@);
    assert(d =~= s@.subrange(start as int, n as int));
    if start == n {
        return None;
    }
    let mut k: usize = start;
    while k < n
        invariant
            chars@ == s@,
            n == s@.len(),
            start <= k <= n,
            d == s@.subrange(start as int, n as int),
            d == without_plus(s@),
            forall|j: int| 0 <= j < k - start ==> is_digit(#[trigger] d[j]),
        decreases n - k,
    {
        let c: char = chars[k];
        if !('0' <= c && c <= '9') {
            assert(d[k - start] == c);
            return None;
        }
        k = k + 1;
    }
    let mut i: usize = start;
    let mut value: u64 = 0;
    while i < n
        invariant
            chars@ == s@,
            n == s@.len(),
            start <= i <= n,
            d == s@.subrange(start as int, n as int),
            d == without_plus(s@),
            all_digits(d),
            value <= max,
            value == digits_value(d.take(i - start)),
        decreases n - i,
    {
        let c: char = chars[i];
        proof {
            assert(d[i - start] == c);
            assert(d.take(i - start + 1).drop_last() =~= d.take(i - start));
            assert(d.take(i - start + 1).last() == c);
            digits_value_grows(d, i - start + 1);
        }
        let next: u128 = value as u128 * 10 + (c as u32 - 48) as u128;
        if next > max as u128 {
            return None;
        }
        value = next as u64;
        i = i + 1;
    }
    assert(d.take(n - start) =~= d);
    Some(value)
}

/// The signed 32-bit number that the text writes, if it writes one.
pub fn parse_i32(s: &str) -> (r: Option<i32>)
    ensures
        match r {
            Some(v) => signed_value(s@, i32::MIN as int, i32::MAX as int) == Some(v as int),
            None => signed_value(s@, i32::MIN as int, i32::MAX as int) is None,
        },
{
    let n: usize = s.unicode_len();
    if n > 0 && s.get_char(0) == '-' {
        let digits = s.substring_char(1, n);
        assert(digits@ =~= s@.drop_first());
        if !digits.is_empty() && digits.get_char(0) == '+' {
            assert(!is_digit(digits@[0]));
            return None;
        }
        assert(without_plus(digits@) == digits@);
        match parse_unsigned(digits, 0x8000_0000) {
            Some(v) => Some((-(v as i64)) as i32),
            None => None,
        }
    } else {
        match parse_unsigned(s, 0x7fff_ffff) {
            Some(v) => Some(v as i32),
            None => None,
        }
    }
}

// ---------------------------------------------------------------------------
// Laws
// ---------------------------------------------------------------------------

/// A printed number is a run of digits that writes that number, so that reading it gives
/// it back.
pub proof fn printed_number_reads_back(n: nat)
    ensures
        all_digits(dec(n)),
        digits_value(dec(n)) == n,
        forall|max: nat| n <= max ==> #[trigger] unsigned_value(dec(n), max) == Some(n),
        trimmed(dec(n)) == dec(n),
    decreases n,
{
    reveal_with_fuel(digits_value, 2);
    if n < 10 {
        assert(dec(n).drop_last() =~= Seq::empty());
    } else {
        printed_number_reads_back(n / 10);
        assert(dec(n).drop_last() =~= dec(n / 10));
    }
    assert(is_digit(dec(n)[0]));
    assert(is_digit(dec(n).last()));
    assert(without_plus(dec(n)) == dec(n));
}

// ---------------------------------------------------------------------------
// The order of texts
// ---------------------------------------------------------------------------

/// Whether `s` comes before `t`: at the first character in which they differ, that of `s` is
/// less.
pub open spec fn comes_before(s: Seq<char>, t: Seq<char>) -> bool {
    exists|k: int| #[trigger] differ_first(s, t, k) && s[k] < t[k]
}

/// Whether the first character in which `s` and `t` differ is character `k`.
pub open spec fn differ_first(s: Seq<char>, t: Seq<char>, k: int) -> bool {
    0 <= k < s.len() && k < t.len() && s[k] != t[k] && forall|i: int| 0 <= i < k ==> s[i] == t[i]
}

/// Ten to the power of `w`.
pub open spec fn power_of_ten(w: nat) -> nat
    decreases w,
{
    if w == 0 {
        1
    } else {
        10 * power_of_ten((w - 1) as nat)
    }
}

/// What follows does not change the order.
pub proof fn order_is_decided_early(s: Seq<char>, t: Seq<char>, u: Seq<char>, v: Seq<char>)
    requires
        comes_before(s, t),
    ensures
        comes_before(s + u, t + v),
{
    let k = choose|k: int| #[trigger] differ_first(s, t, k) && s[k] < t[k];
    assert(differ_first(s + u, t + v, k));
}

/// A common beginning does not change the order.
pub proof fn order_after_a_beginning(p: Seq<char>, s: Seq<char>, t: Seq<char>)
    requires
        comes_before(s, t),
    ensures
        comes_before(p + s, p + t),
{
    let k = choose|k: int| #[trigger] differ_first(s, t, k) && s[k] < t[k];
    assert(differ_first(p + s, p + t, p.len() + k));
}

/// A padded number is the padded number of its tens, and its last digit.
proof fn padded_ends_in_a_digit(n: nat, w: nat)
    requires
        w >= 2,
    ensures
        padded(n, w) == padded(n / 10, (w - 1) as nat).push(digit_char(n % 10)),
{
    let tens = padded(n / 10, (w - 1) as nat);
    if n < 10 {
        assert(dec(n / 10) =~= seq![digit_char(0)]);
    }
    assert(padded(n, w) =~= tens.push(digit_char(n % 10)));
}

/// Numbers padded to the same width come in the order of their values.
pub proof fn padded_numbers_are_ordered(a: nat, b: nat, w: nat)
    requires
        w >= 1,
        a < b < power_of_ten(w),
    ensures
        comes_before(padded(a, w), padded(b, w)),
    decreases w,
{
    reveal_with_fuel(power_of_ten, 2);
    if w == 1 {
        assert(padded(a, w) =~= seq![digit_char(a)]);
        assert(padded(b, w) =~= seq![digit_char(b)]);
        assert(differ_first(padded(a, w), padded(b, w), 0));
    } else {
        let v = (w - 1) as nat;
        padded_ends_in_a_digit(a, w);
        padded_ends_in_a_digit(b, w);
        let (s, t) = (padded(a / 10, v), padded(b / 10, v));
        let (c, d) = (digit_char(a % 10), digit_char(b % 10));
        assert(padded(a, w) =~= s + seq![c]);
        assert(padded(b, w) =~= t + seq![d]);
        if a / 10 < b / 10 {
            padded_numbers_are_ordered(a / 10, b / 10, v);
            order_is_decided_early(s, t, seq![c], seq![d]);
        } else {
            assert(differ_first(padded(a, w), padded(b, w), s.len() as int));
        }
    }
}

// ---------------------------------------------------------------------------
// Laws of case and space
// ---------------------------------------------------------------------------

/// Whether `t` reads as the lower-case word `name`, in any case of its letters: every
/// character is that of the word or its capital.
pub open spec fn reads_as(t: Seq<char>, name: Seq<char>) -> bool {
    t.len() == name.len() && forall|k: int|
        0 <= k < t.len() ==> #[trigger] t[k] == name[k] || t[k] as u32 + 32 == name[k] as u32
}

/// Whether a text holds lower-case ASCII letters alone.
pub open spec fn is_lower_word(name: Seq<char>) -> bool {
    forall|k: int| 0 <= k < name.len() ==> 'a' <= #[trigger] name[k] <= 'z'
}

/// Texts that are equal up to case read alike, and others do not.
pub proof fn case_does_not_matter(t: Seq<char>, name: Seq<char>)
    requires
        is_lower_word(name),
    ensures
        lowered(t) == lowered(name) <==> reads_as(t, name),
        lowered(name) == name,
{
    assert forall|k: int| 0 <= k < name.len() implies ascii_lower(#[trigger] name[k]) == name[k] by {}
    assert(lowered(name) =~= name);
    if lowered(t) == lowered(name) {
        assert(t.len() == lowered(t).len());
        assert forall|k: int| 0 <= k < t.len() implies #[trigger] t[k] == name[k] || t[k] as u32 + 32
            == name[k] as u32 by {
            assert(lowered(t)[k] == ascii_lower(t[k]));
            assert(lowered(name)[k] == name[k]);
        }
    }
    if reads_as(t, name) {
        assert forall|k: int| 0 <= k < t.len() implies #[trigger] lowered(t)[k] == name[k] by {
            let c = t[k];
            let n = name[k];
            assert('a' <= n <= 'z');
            assert(lowered(t)[k] == ascii_lower(c));
        }
        assert(lowered(t) =~= name);
    }
}

/// A text that is trimmed keeps its inside: it is the text between the white space at its two
/// ends, and neither begins nor ends with any.
pub proof fn trimming_takes_only_the_ends(s: Seq<char>)
    ensures
        trimmed(s).len() > 0 ==> !is_space(trimmed(s)[0]) && !is_space(trimmed(s).last()),
        exists|i: int, j: int|
            0 <= i <= j <= s.len() && trimmed(s) == #[trigger] s.subrange(i, j) && (forall|k: int|
                0 <= k < i || j <= k < s.len() ==> is_space(#[trigger] s[k])),
        is_space(' ') && is_space('\n') && is_space('\t') && is_space('\r'),
        !is_space('a') && !is_space('0') && !is_space('-'),
{
    let i = start_is_space(s);
    let t = s.skip(i);
    let j = end_is_space(t);
    assert(trimmed(s) =~= s.subrange(i, i + j));
    assert forall|k: int| 0 <= k < i || i + j <= k < s.len() implies is_space(#[trigger] s[k]) by {
        if k >= i + j {
            assert(t[k - i] == s[k]);
        }
    }
    if trimmed(s).len() > 0 {
        assert(trimmed(s)[0] == t[0]);
    }
}

proof fn start_is_space(s: Seq<char>) -> (i: int)
    ensures
        0 <= i <= s.len(),
        trimmed_start(s) == s.skip(i),
        forall|k: int| 0 <= k < i ==> is_space(#[trigger] s[k]),
        i < s.len() ==> !is_space(s[i]),
    decreases s.len(),
{
    if s.len() > 0 && is_space(s[0]) {
        let r = s.drop_first();
        let i = start_is_space(r);
        assert(s.skip(i + 1) =~= r.skip(i));
        assert forall|k: int| 0 <= k < i + 1 implies is_space(#[trigger] s[k]) by {
            if k > 0 {
                assert(r[k - 1] == s[k]);
            }
        }
        i + 1
    } else {
        assert(s.skip(0) =~= s);
        0
    }
}

proof fn end_is_space(s: Seq<char>) -> (j: int)
    ensures
        0 <= j <= s.len(),
        trimmed_end(s) == s.take(j),
        forall|k: int| j <= k < s.len() ==> is_space(#[trigger] s[k]),
        j > 0 ==> !is_space(s[j - 1]),
    decreases s.len(),
{
    if s.len() > 0 && is_space(s.last()) {
        let r = s.drop_last();
        let j = end_is_space(r);
        assert(s.take(j) =~= r.take(j));
        assert forall|k: int| j <= k < s.len() implies is_space(#[trigger] s[k]) by {
            if k < r.len() {
                assert(r[k] == s[k]);
            }
        }
        if j > 0 {
            assert(r[j - 1] == s[j - 1]);
        }
        j
    } else {
        assert(s.take(s.len() as int) =~= s);
        s.len() as int
    }
}

/// Joined texts stand one behind the other with the separator between each two, and nowhere
/// else.
pub proof fn separators_stand_between(parts: Seq<Seq<char>>, last: Seq<char>, sep: Seq<char>)
    ensures
        joined(Seq::empty(), sep).len() == 0,
        joined(seq![last], sep) == last,
        parts.len() > 0 ==> joined(parts.push(last), sep) == joined(parts, sep) + sep + last,
{
    assert(parts.push(last).drop_last() =~= parts);
}

/// A padded number has the width that was asked for, where it fits, and is read back as the
/// number.
pub proof fn padded_number_reads_back(n: nat, w: nat)
    requires
        w >= 1,
        n < power_of_ten(w),
    ensures
        padded(n, w).len() == w,
        all_digits(padded(n, w)),
        digits_value(padded(n, w)) == n,
    decreases w,
{
    reveal_with_fuel(power_of_ten, 2);
    reveal_with_fuel(digits_value, 2);
    if w == 1 {
        assert(padded(n, w) =~= seq![digit_char(n)]);
        assert(padded(n, w).drop_last() =~= Seq::empty());
    } else {
        padded_ends_in_a_digit(n, w);
        padded_number_reads_back(n / 10, (w - 1) as nat);
        let tens = padded(n / 10, (w - 1) as nat);
        assert(padded(n, w).drop_last() =~= tens);
    }
}

/// The value of a hexadecimal digit.
pub open spec fn hex_value(c: char) -> int {
    if '0' <= c <= '9' {
        c as int - '0' as int
    } else {
        c as int - 'a' as int + 10
    }
}

/// Hexadecimal digits are read back as the bytes: two for each byte, the higher half first, in
/// lower case.
pub proof fn hexadecimal_reads_back(bytes: Seq<u8>)
    ensures
        hex(bytes).len() == 2 * bytes.len(),
        forall|k: int|
            0 <= k < bytes.len() ==> #[trigger] bytes[k] == 16 * hex_value(hex(bytes)[2 * k])
                + hex_value(hex(bytes)[2 * k + 1]),
        forall|k: int|
            0 <= k < hex(bytes).len() ==> ('0' <= #[trigger] hex(bytes)[k] <= '9' || 'a'
                <= hex(bytes)[k] <= 'f'),
    decreases bytes.len(),
{
    if bytes.len() > 0 {
        let rest = bytes.drop_last();
        hexadecimal_reads_back(rest);
        let h = hex(bytes);
        let r = hex(rest);
        assert forall|k: int| 0 <= k < bytes.len() implies #[trigger] bytes[k] == 16 * hex_value(
            h[2 * k],
        ) + hex_value(h[2 * k + 1]) by {
            if k < rest.len() {
                assert(rest[k] == bytes[k]);
                assert(h[2 * k] == r[2 * k] && h[2 * k + 1] == r[2 * k + 1]);
            }
        }
        assert forall|k: int| 0 <= k < h.len() implies ('0' <= #[trigger] h[k] <= '9' || 'a' <= h[k]
            <= 'f') by {
            if k < r.len() {
                assert(h[k] == r[k]);
            }
        }
    }
}

/// Signed numbers are written with a minus where they are negative, and are read back; a number
/// outside the range is not read.
pub proof fn signed_number_reads_back(n: int, min: int, max: int)
    requires
        min <= 0 <= max,
    ensures
        min <= n <= max ==> signed_value(signed_dec(n), min, max) == Some(n),
        n > max || n < min ==> signed_value(signed_dec(n), min, max) is None,
        n < 0 ==> signed_dec(n)[0] == '-',
{
    if n < 0 {
        printed_number_reads_back((-n) as nat);
        assert(signed_dec(n).drop_first() =~= dec((-n) as nat));
    } else {
        printed_number_reads_back(n as nat);
        let d = dec(n as nat);
        assert(is_digit(d[0]));
        assert(without_plus(d) == d);
    }
}

/// Only digits are read as a number: neither an empty text, nor one with any other character, a
/// leading plus aside, nor one beyond the greatest value.
pub proof fn only_digits_are_numbers(s: Seq<char>, max: nat)
    ensures
        s.len() == 0 ==> unsigned_value(s, max) is None,
        unsigned_value(s, max) matches Some(n) ==> n <= max,
        (exists|k: int| 0 < k < s.len() && !is_digit(#[trigger] s[k])) ==> unsigned_value(s, max) is None,
        s.len() > 0 && s[0] != '+' && !is_digit(s[0]) ==> unsigned_value(s, max) is None,
{
    if exists|k: int| 0 < k < s.len() && !is_digit(#[trigger] s[k]) {
        let k = choose|k: int| 0 < k < s.len() && !is_digit(#[trigger] s[k]);
        let d = without_plus(s);
        if s[0] == '+' {
            assert(d[k - 1] == s[k]);
        } else {
            assert(d[k] == s[k]);
        }
    }
}

/// Whether `t` is a beginning followed at once by an end.
pub open spec fn is_beginning_and_end(t: Seq<char>, beginning: Seq<char>, end: Seq<char>) -> bool {
    &&& beginning.is_prefix_of(t)
    &&& t.len() == beginning.len() + end.len()
    &&& t.skip(beginning.len() as int) == end
}

/// A text made of two parts begins with the first and ends with the second.
pub proof fn two_parts_are_beginning_and_end(beginning: Seq<char>, end: Seq<char>)
    ensures
        is_beginning_and_end(beginning + end, beginning, end),
{
    assert((beginning + end).skip(beginning.len() as int) =~= end);
}

} // verus!
