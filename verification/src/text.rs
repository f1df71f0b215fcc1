//! Text as sequences of characters: building, trimming, comparing and printing.
use vstd::prelude::*;

verus! {

/// `String::push`: one character is added at the end.
pub assume_specification[ String::push ](s: &mut String, c: char)
    ensures
        final(s)@ == old(s)@.push(c),
;

/// The decimal digit of a number below ten.
pub open spec fn digit(d: nat) -> char {
    (48 + d) as char
}

/// The decimal notation of a number, without leading zeros.
pub open spec fn decimal_of(n: nat) -> Seq<char>
    decreases n,
{
    if n < 10 {
        seq![digit(n)]
    } else {
        decimal_of(n / 10).push(digit(n % 10))
    }
}

/// The decimal notation of a number in exactly `width` digits, most significant first.
pub open spec fn padded_of(n: nat, width: nat) -> Seq<char>
    decreases width,
{
    if width == 0 {
        Seq::empty()
    } else {
        padded_of(n / 10, (width - 1) as nat).push(digit(n % 10))
    }
}

/// The lower-case hexadecimal digit of a number below sixteen.
pub open spec fn hex_digit(d: nat) -> char {
    if d < 10 {
        (48 + d) as char
    } else {
        (87 + d) as char
    }
}

/// Two lower-case hexadecimal digits for each byte.
pub open spec fn hex_of(bytes: Seq<u8>) -> Seq<char>
    decreases bytes.len(),
{
    if bytes.len() == 0 {
        Seq::empty()
    } else {
        hex_of(bytes.drop_last()).push(hex_digit((bytes.last() / 16) as nat)).push(
            hex_digit((bytes.last() % 16) as nat),
        )
    }
}

/// The characters with Unicode's `White_Space` property.
pub open spec fn is_white(c: char) -> bool {
    let n = c as u32;
    ||| 0x09 <= n <= 0x0d
    ||| n == 0x20
    ||| n == 0x85
    ||| n == 0xa0
    ||| n == 0x1680
    ||| 0x2000 <= n <= 0x200a
    ||| n == 0x2028
    ||| n == 0x2029
    ||| n == 0x202f
    ||| n == 0x205f
    ||| n == 0x3000
}

/// The control characters, Unicode's general category `Cc`.
pub open spec fn is_control_char(c: char) -> bool {
    let n = c as u32;
    ||| n <= 0x1f
    ||| 0x7f <= n <= 0x9f
}

/// `s` without the white space at its front.
pub open spec fn trim_front(s: Seq<char>) -> Seq<char>
    decreases s.len(),
{
    if s.len() > 0 && is_white(s[0]) {
        trim_front(s.drop_first())
    } else {
        s
    }
}

/// `s` without the white space at its end.
pub open spec fn trim_back(s: Seq<char>) -> Seq<char>
    decreases s.len(),
{
    if s.len() > 0 && is_white(s.last()) {
        trim_back(s.drop_last())
    } else {
        s
    }
}

/// `s` without the white space at both ends.
pub open spec fn trimmed(s: Seq<char>) -> Seq<char> {
    trim_back(trim_front(s))
}

/// `s` comes before `t` in the order of code points, position by position.
pub open spec fn before(s: Seq<char>, t: Seq<char>) -> bool
    decreases s.len(),
{
    if t.len() == 0 {
        false
    } else if s.len() == 0 {
        true
    } else if s[0] != t[0] {
        (s[0] as u32) < (t[0] as u32)
    } else {
        before(s.drop_first(), t.drop_first())
    }
}

/// The upper-case form of an ASCII letter; any other character stands for itself.
pub open spec fn ascii_upper(c: char) -> char {
    if 97 <= c as u32 <= 122 {
        (c as u32 - 32) as char
    } else {
        c
    }
}

/// The texts are the same but for the case of ASCII letters.
pub open spec fn same_ignoring_case(s: Seq<char>, t: Seq<char>) -> bool {
    &&& s.len() == t.len()
    &&& forall|i: int|
        0 <= i < s.len() ==> ascii_upper(#[trigger] s[i]) == ascii_upper(t[i])
}

/// `str::to_lowercase`, which follows Unicode's tables.
pub uninterp spec fn lowercase_of(s: Seq<char>) -> Seq<char>;

/// `str::to_lowercase`: the result is a function of the text alone and is known by its name.
#[verifier::external_body]
pub(crate) fn to_lowercase(s: &str) -> (r: String)
    ensures
        r@ == lowercase_of(s@),
{
    s.to_lowercase()
}

/// `String::from_utf8`: succeeds exactly on well-formed UTF-8, and then gives the text that
/// these bytes encode.
#[verifier::external_body]
pub(crate) fn from_utf8(bytes: Vec<u8>) -> (r: Option<String>)
    ensures
        r is Some <==> vstd::utf8::valid_utf8(bytes@),
        r matches Some(text) ==> vstd::utf8::encode_utf8(text@) == bytes@,
{
    String::from_utf8(bytes).ok()
}

/// The characters of a text.
pub fn chars_of(s: &str) -> (r: Vec<char>)
    ensures
        r@ == s@,
{
    let mut out: Vec<char> = Vec::new();
    for c in it: s.chars()
        invariant
            out@ == it.seq().take(it.index() as int),
            it.seq() == s@,
    {
        out.push(c);
    }
    out
}

/// The text made of these characters.
pub fn from_chars(v: &Vec<char>) -> (r: String)
    ensures
        r@ == v@,
{
    range_text(v, 0, v.len())
}

/// The text made of the characters from `from` up to `to`.
pub fn range_text(v: &Vec<char>, from: usize, to: usize) -> (r: String)
    requires
        from <= to <= v@.len(),
    ensures
        r@ == v@.subrange(from as int, to as int),
{
    let mut out = String::new();
    let mut i: usize = from;
    while i < to
        invariant
            from <= i <= to <= v@.len(),
            out@ == v@.subrange(from as int, i as int),
        decreases to - i,
    {
        out.push(v[i]);
        i = i + 1;
    }
    out
}

/// The text `a` followed by `b`.
pub fn joined(a: &str, b: &str) -> (r: String)
    ensures
        r@ == a@ + b@,
{
    let mut out = String::from_str(a);
    out.append(b);
    out
}

/// The text `a` followed by `b` and `c`.
pub fn joined3(a: &str, b: &str, c: &str) -> (r: String)
    ensures
        r@ == a@ + b@ + c@,
{
    let mut out = String::from_str(a);
    out.append(b);
    out.append(c);
    out
}

/// Whether two texts are equal.
pub fn same(a: &str, b: &str) -> (r: bool)
    ensures
        r == (a@ == b@),
{
    let x = String::from_str(a);
    let y = String::from_str(b);
    x == y
}

/// The decimal notation of `n`.
pub fn decimal(n: u128) -> (r: String)
    ensures
        r@ == decimal_of(n as nat),
    decreases n,
{
    let last: u8 = 48 + (n % 10) as u8;
    let mut out = if n < 10 {
        String::new()
    } else {
        decimal(n / 10)
    };
    out.push(last as char);
    proof {
        assert(last as char == digit((n % 10) as nat));
    }
    out
}

/// The decimal notation of `n` in exactly `width` digits.
pub fn padded(n: u64, width: usize) -> (r: String)
    ensures
        r@ == padded_of(n as nat, width as nat),
    decreases width,
{
    if width == 0 {
        String::new()
    } else {
        let last: u8 = 48 + (n % 10) as u8;
        let mut out = padded(n / 10, width - 1);
        out.push(last as char);
        out
    }
}

/// The two hexadecimal digits of each byte, in order.
pub fn hex(bytes: &Vec<u8>) -> (r: String)
    ensures
        r@ == hex_of(bytes@),
{
    let mut out = String::new();
    let mut i: usize = 0;
    while i < bytes.len()
        invariant
            i <= bytes@.len(),
            out@ == hex_of(bytes@.take(i as int)),
        decreases bytes@.len() - i,
    {
        let high: u8 = bytes[i] / 16;
        let low: u8 = bytes[i] % 16;
        out.push(hex_char(high));
        out.push(hex_char(low));
        proof {
            assert(bytes@.take(i + 1).drop_last() =~= bytes@.take(i as int));
        }
        i = i + 1;
    }
    proof {
        assert(bytes@.take(i as int) =~= bytes@);
    }
    out
}

fn hex_char(d: u8) -> (c: char)
    requires
        d < 16,
    ensures
        c == hex_digit(d as nat),
{
    if d < 10 {
        (48 + d) as char
    } else {
        (87 + d) as char
    }
}

/// A hexadecimal notation has two characters for each byte.
pub proof fn lemma_hex_length(bytes: Seq<u8>)
    ensures
        hex_of(bytes).len() == 2 * bytes.len(),
    decreases bytes.len(),
{
    if bytes.len() > 0 {
        lemma_hex_length(bytes.drop_last());
    }
}

/// A padded notation has as many characters as its width says.
pub proof fn lemma_padded_length(n: nat, width: nat)
    ensures
        padded_of(n, width).len() == width,
    decreases width,
{
    if width > 0 {
        lemma_padded_length(n / 10, (width - 1) as nat);
    }
}

/// Whether `c` is white space.
pub fn is_whitespace(c: char) -> (r: bool)
    ensures
        r == is_white(c),
{
    let n: u32 = c as u32;
    (0x09 <= n && n <= 0x0d) || n == 0x20 || n == 0x85 || n == 0xa0 || n == 0x1680 || (0x2000 <= n
        && n <= 0x200a) || n == 0x2028 || n == 0x2029 || n == 0x202f || n == 0x205f || n == 0x3000
}

/// Whether `c` is a control character.
pub fn is_control(c: char) -> (r: bool)
    ensures
        r == is_control_char(c),
{
    let n: u32 = c as u32;
    n <= 0x1f || (0x7f <= n && n <= 0x9f)
}

/// The text without the white space at its ends.
pub fn trim(s: &str) -> (r: String)
    ensures
        r@ == trimmed(s@),
{
    let v = chars_of(s);
    trim_chars(&v)
}

/// The characters without the white space at their ends, as a text.
pub fn trim_chars(v: &Vec<char>) -> (r: String)
    ensures
        r@ == trimmed(v@),
{
    let mut from: usize = 0;
    proof {
        assert(v@.subrange(0, v@.len() as int) =~= v@);
    }
    while from < v.len() && is_whitespace(v[from])
        invariant
            from <= v@.len(),
            trim_front(v@) == trim_front(v@.subrange(from as int, v@.len() as int)),
        decreases v@.len() - from,
    {
        proof {
            assert(v@.subrange(from as int, v@.len() as int).drop_first() =~= v@.subrange(
                from + 1,
                v@.len() as int,
            ));
        }
        from = from + 1;
    }
    let mut to: usize = v.len();
    while from < to && is_whitespace(v[to - 1])
        invariant
            from <= to <= v@.len(),
            trim_back(v@.subrange(from as int, v@.len() as int)) == trim_back(
                v@.subrange(from as int, to as int),
            ),
        decreases to - from,
    {
        proof {
            assert(v@.subrange(from as int, to as int).drop_last() =~= v@.subrange(
                from as int,
                to - 1,
            ));
        }
        to = to - 1;
    }
    range_text(v, from, to)
}

/// Whether `a` comes before `b` in the order of code points.
pub fn less(a: &str, b: &str) -> (r: bool)
    ensures
        r == before(a@, b@),
{
    let x = chars_of(a);
    let y = chars_of(b);
    let mut i: usize = 0;
    proof {
        assert(x@.skip(0) =~= x@);
        assert(y@.skip(0) =~= y@);
    }
    while i < x.len() && i < y.len() && x[i] == y[i]
        invariant
            i <= x@.len(),
            i <= y@.len(),
            before(x@, y@) == before(x@.skip(i as int), y@.skip(i as int)),
        decreases x@.len() - i,
    {
        proof {
            assert(x@.skip(i as int).drop_first() =~= x@.skip(i + 1));
            assert(y@.skip(i as int).drop_first() =~= y@.skip(i + 1));
        }
        i = i + 1;
    }
    if i >= y.len() {
        false
    } else if i >= x.len() {
        true
    } else {
        (x[i] as u32) < (y[i] as u32)
    }
}

/// Whether the character occurs in the text.
pub fn contains_char(s: &str, c: char) -> (r: bool)
    ensures
        r == s@.contains(c),
{
    let v = chars_of(s);
    let mut i: usize = 0;
    while i < v.len()
        invariant
            i <= v@.len(),
            v@ == s@,
            forall|j: int| 0 <= j < i ==> v@[j] != c,
        decreases v@.len() - i,
    {
        if v[i] == c {
            assert(s@[i as int] == c);
            return true;
        }
        i = i + 1;
    }
    false
}

/// The upper-case form of an ASCII letter; any other character stands for itself.
pub fn to_ascii_upper(c: char) -> (r: char)
    ensures
        r == ascii_upper(c),
{
    let n: u32 = c as u32;
    if 97 <= n && n <= 122 {
        let m: u8 = (n - 32) as u8;
        m as char
    } else {
        c
    }
}

/// Whether two texts are the same but for the case of ASCII letters.
pub fn equal_ignoring_case(a: &str, b: &str) -> (r: bool)
    ensures
        r == same_ignoring_case(a@, b@),
{
    let x = chars_of(a);
    let y = chars_of(b);
    if x.len() != y.len() {
        return false;
    }
    let mut i: usize = 0;
    while i < x.len()
        invariant
            i <= x@.len(),
            x@ == a@,
            y@ == b@,
            x@.len() == y@.len(),
            forall|j: int| 0 <= j < i ==> ascii_upper(#[trigger] x@[j]) == ascii_upper(y@[j]),
        decreases x@.len() - i,
    {
        if to_ascii_upper(x[i]) != to_ascii_upper(y[i]) {
            return false;
        }
        i = i + 1;
    }
    true
}

/// No text comes before itself.
pub proof fn lemma_before_irreflexive(s: Seq<char>)
    ensures
        !before(s, s),
    decreases s.len(),
{
    if s.len() > 0 {
        lemma_before_irreflexive(s.drop_first());
    }
}

/// The order of texts is transitive.
pub proof fn lemma_before_transitive(s: Seq<char>, t: Seq<char>, u: Seq<char>)
    requires
        before(s, t),
        before(t, u),
    ensures
        before(s, u),
    decreases s.len(),
{
    if s.len() > 0 && t.len() > 0 && u.len() > 0 {
        if s[0] == t[0] && t[0] == u[0] {
            lemma_before_transitive(s.drop_first(), t.drop_first(), u.drop_first());
        }
    }
}

/// Different characters have different code points.
proof fn lemma_codes_differ(c: char, d: char)
    requires
        c != d,
    ensures
        c as u32 != d as u32,
{
}

/// Of two texts one comes before the other, or they are equal.
pub proof fn lemma_before_total(s: Seq<char>, t: Seq<char>)
    ensures
        before(s, t) || before(t, s) || s == t,
    decreases s.len(),
{
    if s.len() > 0 && t.len() > 0 {
        if s[0] == t[0] {
            lemma_before_total(s.drop_first(), t.drop_first());
            if s.drop_first() == t.drop_first() {
                assert(s =~= seq![s[0]] + s.drop_first());
                assert(t =~= seq![t[0]] + t.drop_first());
            }
        } else {
            lemma_codes_differ(s[0], t[0]);
        }
    } else if s.len() == 0 && t.len() == 0 {
        assert(s =~= t);
    }
}

/// The low byte of each character: for ASCII text, the bytes of its encoding.
pub open spec fn low_bytes(s: Seq<char>) -> Seq<u8> {
    s.map_values(|c: char| ((c as u32) % 256) as u8)
}

/// The low byte of each character.
pub fn to_low_bytes(s: &str) -> (r: Vec<u8>)
    ensures
        r@ == low_bytes(s@),
{
    let chars = chars_of(s);
    let mut out: Vec<u8> = Vec::new();
    let mut i: usize = 0;
    while i < chars.len()
        invariant
            i <= chars@.len(),
            chars@ == s@,
            out@ == low_bytes(s@.take(i as int)),
        decreases chars@.len() - i,
    {
        out.push(((chars[i] as u32) % 256) as u8);
        proof {
            assert(out@ =~= low_bytes(s@.take(i + 1)));
        }
        i = i + 1;
    }
    proof {
        assert(s@.take(i as int) =~= s@);
    }
    out
}

/// The fields of a text between separators.
pub open spec fn split_of(s: Seq<char>, separator: char) -> Seq<Seq<char>>
    decreases s.len(),
{
    if s.len() == 0 {
        seq![s]
    } else {
        let front = split_of(s.drop_last(), separator);
        if s.last() == separator {
            front.push(Seq::empty())
        } else {
            front.drop_last().push(front.last().push(s.last()))
        }
    }
}

/// The fields of a text between separators.
pub fn split(s: &str, separator: char) -> (r: Vec<String>)
    ensures
        r@.map_values(|t: String| t@) == split_of(s@, separator),
{
    let chars = chars_of(s);
    let mut done: Vec<String> = Vec::new();
    let mut field = String::new();
    let mut i: usize = 0;
    let ghost view = |t: String| t@;
    proof {
        assert(s@.take(0) =~= Seq::<char>::empty());
        assert(field@ =~= Seq::<char>::empty());
        assert(done@.map_values(view).push(field@) =~= seq![Seq::<char>::empty()]);
    }
    while i < chars.len()
        invariant
            i <= chars@.len(),
            chars@ == s@,
            view == (|t: String| t@),
            done@.map_values(view).push(field@) == split_of(s@.take(i as int), separator),
        decreases chars@.len() - i,
    {
        let c: char = chars[i];
        let ghost front = split_of(s@.take(i as int), separator);
        let ghost before = done@;
        let ghost last = field@;
        proof {
            assert(s@.take(i + 1).drop_last() =~= s@.take(i as int));
            assert(s@.take(i + 1).last() == c);
            assert(front.drop_last() =~= before.map_values(view));
            assert(front.last() == last);
        }
        if c == separator {
            done.push(field);
            field = String::new();
            proof {
                assert(field@ =~= Seq::<char>::empty());
                assert(done@.map_values(view) =~= before.map_values(view).push(last));
            }
        } else {
            field.push(c);
        }
        i = i + 1;
    }
    proof {
        assert(s@.take(i as int) =~= s@);
    }
    let ghost before = done@;
    done.push(field);
    proof {
        assert(done@.map_values(view) =~= before.map_values(view).push(field@));
    }
    done
}

/// A decimal digit.
pub open spec fn is_digit(c: char) -> bool {
    '0' <= c <= '9'
}

/// The number that decimal digits denote.
pub open spec fn digits_value(s: Seq<char>) -> nat
    decreases s.len(),
{
    if s.len() == 0 {
        0
    } else {
        digits_value(s.drop_last()) * 10 + (s.last() as u32 - 48) as nat
    }
}

/// The digits of a number, behind the plus sign where there is one.
pub open spec fn unsigned_part(s: Seq<char>) -> Seq<char> {
    if s.len() > 0 && s[0] == '+' {
        s.skip(1)
    } else {
        s
    }
}

/// The text denotes a number that fits in 32 bits.
pub open spec fn is_u32(s: Seq<char>) -> bool {
    let digits = unsigned_part(s);
    &&& digits.len() > 0
    &&& forall|i: int| 0 <= i < digits.len() ==> is_digit(#[trigger] digits[i])
    &&& digits_value(digits) <= u32::MAX
}

proof fn lemma_digits_grow(s: Seq<char>, n: int)
    requires
        0 <= n <= s.len(),
        forall|i: int| 0 <= i < s.len() ==> is_digit(#[trigger] s[i]),
    ensures
        digits_value(s.take(n)) <= digits_value(s),
    decreases s.len() - n,
{
    if n == s.len() {
        assert(s.take(n) =~= s);
    } else {
        lemma_digits_grow(s, n + 1);
        assert(s.take(n + 1).drop_last() =~= s.take(n));
    }
}

/// The number that a text denotes: an optional plus sign, then decimal digits.
pub fn parse_u32(s: &str) -> (r: Option<u32>)
    ensures
        r is Some <==> is_u32(s@),
        r matches Some(n) ==> n == digits_value(unsigned_part(s@)),
{
    let chars = chars_of(s);
    let from: usize = if chars.len() > 0 && chars[0] == '+' {
        1
    } else {
        0
    };
    let ghost digits = unsigned_part(s@);
    proof {
        assert(digits =~= chars@.skip(from as int));
    }
    if chars.len() == from {
        return None;
    }
    let mut value: u64 = 0;
    let mut i: usize = from;
    while i < chars.len()
        invariant
            from <= i <= chars@.len(),
            digits == chars@.skip(from as int),
            forall|k: int| 0 <= k < i - from ==> is_digit(#[trigger] digits[k]),
            value == digits_value(digits.take(i - from)),
            value <= u32::MAX,
            digits == unsigned_part(s@),
        decreases chars@.len() - i,
    {
        let c: char = chars[i];
        proof {
            assert(digits[i - from] == c);
            assert(digits.take(i + 1 - from).drop_last() =~= digits.take(i - from));
            assert(digits.take(i + 1 - from).last() == c);
        }
        if !('0' <= c && c <= '9') {
            return None;
        }
        value = value * 10 + (c as u32 - 48) as u64;
        if value > u32::MAX as u64 {
            proof {
                if forall|k: int| 0 <= k < digits.len() ==> is_digit(#[trigger] digits[k]) {
                    lemma_digits_grow(digits, i + 1 - from);
                }
            }
            return None;
        }
        i = i + 1;
    }
    proof {
        assert(digits.take(i - from) =~= digits);
    }
    Some(value as u32)
}

proof fn lemma_digit_value(d: nat)
    requires
        d < 10,
    ensures
        is_digit(digit(d)),
        digit(d) as u32 == 48 + d,
{
}

/// A number in decimal notation has digits only, and no other number is written as it is.
pub proof fn lemma_decimal_value(n: nat)
    ensures
        digits_value(decimal_of(n)) == n,
        decimal_of(n).len() > 0,
        forall|i: int| 0 <= i < decimal_of(n).len() ==> is_digit(#[trigger] decimal_of(n)[i]),
    decreases n,
{
    reveal_with_fuel(digits_value, 2);
    let s = decimal_of(n);
    lemma_digit_value(n % 10);
    if n >= 10 {
        lemma_decimal_value(n / 10);
        let front = decimal_of(n / 10);
        assert(s.drop_last() =~= front);
        assert(s.last() == digit(n % 10));
        assert forall|i: int| 0 <= i < s.len() implies is_digit(#[trigger] s[i]) by {
            if i < front.len() {
                assert(s[i] == front[i]);
            }
        }
    } else {
        lemma_digit_value(n);
        assert(s.drop_last() =~= Seq::<char>::empty());
        assert(s.last() == digit(n));
    }
}

/// A number is read back from its notation.
pub proof fn law_number_is_read_back(n: u32, written: String, s: &str, r: Option<u32>)
    requires
        call_ensures(decimal, (n as u128,), written),
        s@ == written@,
        call_ensures(parse_u32, (s,), r),
    ensures
        r == Some(n),
        forall|i: int| 0 <= i < written@.len() ==> '0' <= #[trigger] written@[i] <= '9',
{
    lemma_decimal_value(n as nat);
    assert(is_digit(s@[0]));
    assert(unsigned_part(s@) == s@);
}

/// A number is filled up with zeros in front to its width, and is read back if it fits.
pub proof fn law_padded_number_is_read_back(n: u64, width: usize, r: String)
    requires
        call_ensures(padded, (n, width), r),
    ensures
        r@.len() == width,
        forall|i: int| 0 <= i < r@.len() ==> '0' <= #[trigger] r@[i] <= '9',
        n == 0 ==> digits_value(r@) == 0,
        n < 10 && width >= 1 ==> digits_value(r@) == n,
        n < 1_000_000 && width == 6 ==> digits_value(r@) == n,
{
    lemma_padded(n as nat, width as nat);
    if n < 1_000_000 && width == 6 {
        lemma_shift_down(n as nat);
    }
    if n < 10 && width >= 1 {
        lemma_padded_small(n as nat, width as nat);
    }
    if n == 0 && width == 0 {
        assert(r@ =~= Seq::<char>::empty());
    }
}

proof fn lemma_padded(n: nat, width: nat)
    ensures
        padded_of(n, width).len() == width,
        forall|i: int| 0 <= i < width ==> is_digit(#[trigger] padded_of(n, width)[i]),
    decreases width,
{
    if width > 0 {
        lemma_padded(n / 10, (width - 1) as nat);
        lemma_digit_value(n % 10);
        let front = padded_of(n / 10, (width - 1) as nat);
        let s = padded_of(n, width);
        assert forall|i: int| 0 <= i < width implies is_digit(#[trigger] s[i]) by {
            if i < width - 1 {
                assert(s[i] == front[i]);
            }
        }
    }
}

proof fn lemma_padded_small(n: nat, width: nat)
    requires
        n < 10,
        width >= 1,
    ensures
        digits_value(padded_of(n, width)) == n,
    decreases width,
{
    let s = padded_of(n, width);
    let front = padded_of(n / 10, (width - 1) as nat);
    lemma_digit_value(n % 10);
    assert(s.drop_last() =~= front);
    assert(s.last() == digit(n % 10));
    assert(n / 10 == 0 && n % 10 == n);
    if width > 1 {
        lemma_padded_small(0, (width - 1) as nat);
    } else {
        assert(front =~= Seq::<char>::empty());
    }
    assert(digits_value(front) == 0);
}

proof fn lemma_shift_down(n: nat)
    requires
        n < 1_000_000,
    ensures
        digits_value(padded_of(n, 6)) == n,
{
    lemma_padded_step(n, 6);
    lemma_padded_step(n / 10, 5);
    lemma_padded_step(n / 10 / 10, 4);
    lemma_padded_step(n / 10 / 10 / 10, 3);
    lemma_padded_step(n / 10 / 10 / 10 / 10, 2);
    lemma_padded_small(n / 10 / 10 / 10 / 10 / 10, 1);
}

proof fn lemma_padded_step(n: nat, width: nat)
    requires
        width > 0,
    ensures
        digits_value(padded_of(n, width)) == digits_value(padded_of(n / 10, (width - 1) as nat)) * 10
            + n % 10,
{
    lemma_digit_value(n % 10);
    let s = padded_of(n, width);
    assert(s.drop_last() =~= padded_of(n / 10, (width - 1) as nat));
    assert(s.last() == digit(n % 10));
}

/// The value of a digit of a notation to the base sixteen.
pub open spec fn hex_value(c: char) -> int {
    if '0' <= c <= '9' {
        c as u32 - 48
    } else {
        c as u32 - 87
    }
}

/// Each byte is read back from its two digits.
pub proof fn law_bytes_are_read_back(data: Vec<u8>, r: String)
    requires
        call_ensures(hex, (&data,), r),
    ensures
        r@.len() == 2 * data@.len(),
        forall|i: int|
            0 <= i < data@.len() ==> hex_value(r@[2 * i]) * 16 + hex_value(r@[2 * i + 1])
                == #[trigger] data@[i],
        forall|i: int|
            0 <= i < r@.len() ==> '0' <= #[trigger] r@[i] <= '9' || 'a' <= r@[i] <= 'f',
{
    lemma_hex(data@);
}

proof fn lemma_hex_digit(d: nat)
    requires
        d < 16,
    ensures
        hex_value(hex_digit(d)) == d,
        '0' <= hex_digit(d) <= '9' || 'a' <= hex_digit(d) <= 'f',
{
}

proof fn lemma_hex(data: Seq<u8>)
    ensures
        hex_of(data).len() == 2 * data.len(),
        forall|i: int|
            0 <= i < data.len() ==> hex_value(hex_of(data)[2 * i]) * 16 + hex_value(
                hex_of(data)[2 * i + 1],
            ) == #[trigger] data[i],
        forall|i: int|
            0 <= i < hex_of(data).len() ==> '0' <= #[trigger] hex_of(data)[i] <= '9' || 'a'
                <= hex_of(data)[i] <= 'f',
    decreases data.len(),
{
    if data.len() > 0 {
        let front = data.drop_last();
        lemma_hex(front);
        let b = data.last();
        lemma_hex_digit((b / 16) as nat);
        lemma_hex_digit((b % 16) as nat);
        let s = hex_of(data);
        let t = hex_of(front);
        assert forall|i: int| 0 <= i < data.len() implies hex_value(s[2 * i]) * 16 + hex_value(
            s[2 * i + 1],
        ) == #[trigger] data[i] by {
            if i < front.len() {
                assert(data[i] == front[i]);
                assert(s[2 * i] == t[2 * i] && s[2 * i + 1] == t[2 * i + 1]);
            }
        }
        assert forall|i: int| 0 <= i < s.len() implies '0' <= #[trigger] s[i] <= '9' || 'a' <= s[i]
            <= 'f' by {
            if i < t.len() {
                assert(s[i] == t[i]);
            }
        }
    }
}

/// What is left of a text without the white space at its ends stands in it in one piece, with white
/// space only before and behind it, and has none at its own ends.
pub proof fn law_only_outer_white_space_is_dropped(s: &str, r: String)
    requires
        call_ensures(trim, (s,), r),
    ensures
        exists|from: int, to: int|
            #![trigger s@.subrange(from, to)]
            0 <= from <= to <= s@.len() && r@ == s@.subrange(from, to) && (forall|i: int|
                0 <= i < from ==> is_white(#[trigger] s@[i])) && (forall|i: int|
                to <= i < s@.len() ==> is_white(#[trigger] s@[i])),
        r@.len() > 0 ==> !is_white(r@[0]) && !is_white(r@.last()),
{
    lemma_front_trimmed(s@);
    let t = trim_front(s@);
    let from = s@.len() - t.len();
    lemma_back_trimmed(t);
    let to = from + trim_back(t).len();
    assert(s@.subrange(from, to) =~= r@);
    assert forall|i: int| to <= i < s@.len() implies is_white(#[trigger] s@[i]) by {
        assert(t[i - from] == s@[i]);
    }
    if r@.len() > 0 {
        assert(r@[0] == t[0]);
    }
}

proof fn lemma_front_trimmed(s: Seq<char>)
    ensures
        trim_front(s).len() <= s.len(),
        trim_front(s) == s.skip(s.len() - trim_front(s).len()),
        forall|i: int| 0 <= i < s.len() - trim_front(s).len() ==> is_white(#[trigger] s[i]),
        trim_front(s).len() > 0 ==> !is_white(trim_front(s)[0]),
    decreases s.len(),
{
    if s.len() > 0 && is_white(s[0]) {
        let rest = s.drop_first();
        lemma_front_trimmed(rest);
        let n = trim_front(s).len();
        assert(rest.skip(rest.len() - n) =~= s.skip(s.len() - n));
        assert forall|i: int| 0 <= i < s.len() - n implies is_white(#[trigger] s[i]) by {
            if i > 0 {
                assert(rest[i - 1] == s[i]);
            }
        }
    } else {
        assert(s.skip(0) =~= s);
    }
}

proof fn lemma_back_trimmed(s: Seq<char>)
    ensures
        trim_back(s).len() <= s.len(),
        trim_back(s) == s.take(trim_back(s).len() as int),
        forall|i: int| trim_back(s).len() <= i < s.len() ==> is_white(#[trigger] s[i]),
        trim_back(s).len() > 0 ==> !is_white(trim_back(s).last()),
    decreases s.len(),
{
    if s.len() > 0 && is_white(s.last()) {
        let rest = s.drop_last();
        lemma_back_trimmed(rest);
        let n = trim_back(s).len() as int;
        assert(rest.take(n) =~= s.take(n));
        assert forall|i: int| n <= i < s.len() implies is_white(#[trigger] s[i]) by {
            if i < rest.len() {
                assert(rest[i] == s[i]);
            }
        }
    } else {
        assert(s.take(s.len() as int) =~= s);
    }
}

/// The pieces of a text hold no separator, and with one between each and the next they are the text
/// again.
pub proof fn law_pieces_make_the_text(s: &str, separator: char, r: Vec<String>)
    requires
        call_ensures(split, (s, separator), r),
    ensures
        r@.len() > 0,
        with_between(r@.map_values(|t: String| t@), separator) == s@,
        forall|i: int| 0 <= i < r@.len() ==> !(#[trigger] r@[i])@.contains(separator),
{
    let ps = r@.map_values(|t: String| t@);
    lemma_split(s@, separator);
    assert forall|i: int| 0 <= i < r@.len() implies !(#[trigger] r@[i])@.contains(separator) by {
        assert(ps[i] == r@[i]@);
    }
}

/// The pieces with a separator between each and the next.
pub open spec fn with_between(ps: Seq<Seq<char>>, separator: char) -> Seq<char>
    decreases ps.len(),
{
    if ps.len() == 0 {
        Seq::empty()
    } else if ps.len() == 1 {
        ps[0]
    } else {
        with_between(ps.drop_last(), separator).push(separator) + ps.last()
    }
}

proof fn lemma_split(s: Seq<char>, separator: char)
    ensures
        split_of(s, separator).len() > 0,
        with_between(split_of(s, separator), separator) == s,
        forall|i: int|
            0 <= i < split_of(s, separator).len() ==> !(#[trigger] split_of(
                s,
                separator,
            )[i]).contains(separator),
    decreases s.len(),
{
    let all = split_of(s, separator);
    if s.len() == 0 {
        assert(all[0] == s);
    } else {
        let front = split_of(s.drop_last(), separator);
        lemma_split(s.drop_last(), separator);
        assert(s.drop_last().push(s.last()) =~= s);
        if s.last() == separator {
            assert(all.drop_last() =~= front);
            assert(with_between(all, separator) =~= s);
        } else {
            let last = front.last();
            assert(all.drop_last() =~= front.drop_last());
            assert(all.last() == last.push(s.last()));
            if front.len() == 1 {
                assert(front[0] == last);
                assert(with_between(all, separator) =~= s);
            } else {
                let head = with_between(front.drop_last(), separator).push(separator);
                assert(with_between(front, separator) == head + last);
                assert(head + last.push(s.last()) =~= (head + last).push(s.last()));
            }
            assert forall|i: int| 0 <= i < all.len() implies !(#[trigger] all[i]).contains(
                separator,
            ) by {
                if i < all.len() - 1 {
                    assert(all[i] == front[i]);
                } else {
                    assert(!front[front.len() - 1].contains(separator));
                    if all[i].contains(separator) {
                        let k = all[i].index_of(separator);
                        assert(k == last.len() || last[k] == separator);
                    }
                }
            }
        }
    }
}

/// A number of up to six digits is read back from them.
pub proof fn lemma_padded_number(n: nat, width: nat)
    requires
        width == 6,
        n < 1_000_000,
    ensures
        digits_value(padded_of(n, width)) == n,
        padded_of(n, width).len() == width,
        forall|i: int| 0 <= i < width ==> is_digit(#[trigger] padded_of(n, width)[i]),
{
    lemma_padded(n, width);
    lemma_shift_down(n);
}

/// Nothing is left of a text without its outer white space where it has nothing else.
pub proof fn lemma_trimmed_is_blank(s: Seq<char>)
    ensures
        trimmed(s).len() > 0 <==> exists|i: int| 0 <= i < s.len() && !is_white(#[trigger] s[i]),
{
    lemma_front_trimmed(s);
    let t = trim_front(s);
    lemma_back_trimmed(t);
    let from = s.len() - t.len();
    if trimmed(s).len() > 0 {
        assert(t[0] == s[from]);
    } else {
        if t.len() > 0 {
            assert(is_white(t[0]));
        }
        assert forall|i: int| 0 <= i < s.len() implies is_white(#[trigger] s[i]) by {}
    }
}

/// A notation to the base sixteen has two digits for each byte.
pub proof fn lemma_hex_digits(data: Seq<u8>)
    ensures
        hex_of(data).len() == 2 * data.len(),
        forall|i: int|
            0 <= i < hex_of(data).len() ==> '0' <= #[trigger] hex_of(data)[i] <= '9' || 'a'
                <= hex_of(data)[i] <= 'f',
{
    lemma_hex(data);
}

/// Two texts are the same up to the case of their letters if they are of one length and each letter
/// is the same or the small one of a large one.
pub proof fn law_case_makes_no_difference(a: &str, b: &str, r: bool)
    requires
        call_ensures(equal_ignoring_case, (a, b), r),
    ensures
        a@ == b@ ==> r,
        r ==> a@.len() == b@.len(),
        r ==> forall|i: int|
            0 <= i < a@.len() ==> #[trigger] a@[i] == b@[i] || 'A' <= a@[i] <= 'Z' && b@[i] as u32
                == a@[i] as u32 + 32 || 'A' <= b@[i] <= 'Z' && a@[i] as u32 == b@[i] as u32 + 32,
        a@.len() == b@.len() && (forall|i: int|
            0 <= i < a@.len() ==> #[trigger] a@[i] == b@[i] || 'A' <= a@[i] <= 'Z' && b@[i] as u32
                == a@[i] as u32 + 32) ==> r,
{
    if r {
        assert forall|i: int| 0 <= i < a@.len() implies #[trigger] a@[i] == b@[i] || 'A' <= a@[i]
            <= 'Z' && b@[i] as u32 == a@[i] as u32 + 32 || 'A' <= b@[i] <= 'Z' && a@[i] as u32
            == b@[i] as u32 + 32 by {
            lemma_same_letter(a@[i], b@[i]);
        }
    }
    if a@.len() == b@.len() && (forall|i: int|
        0 <= i < a@.len() ==> #[trigger] a@[i] == b@[i] || 'A' <= a@[i] <= 'Z' && b@[i] as u32
            == a@[i] as u32 + 32) {
        assert forall|i: int| 0 <= i < a@.len() implies ascii_upper(#[trigger] a@[i])
            == ascii_upper(b@[i]) by {
            lemma_same_letter(a@[i], b@[i]);
        }
    }
}

proof fn lemma_same_letter(c: char, d: char)
    ensures
        ascii_upper(c) == ascii_upper(d) <==> c == d || 'A' <= c <= 'Z' && d as u32 == c as u32 + 32
            || 'A' <= d <= 'Z' && c as u32 == d as u32 + 32,
{
}

/// Of two texts, the one comes first that has the smaller character where they first differ, or that
/// the other goes on from.
pub proof fn law_texts_are_ordered(a: &str, b: &str, n: int, r: bool)
    requires
        call_ensures(less, (a, b), r),
        0 <= n <= a@.len(),
        n <= b@.len(),
        a@.take(n) == b@.take(n),
        n < a@.len() && n < b@.len() ==> a@[n] != b@[n],
    ensures
        n < a@.len() && n < b@.len() ==> (r <==> (a@[n] as u32) < (b@[n] as u32)),
        n == a@.len() && n < b@.len() ==> r,
        n == b@.len() ==> !r,
{
    lemma_before_at(a@, b@, n);
}

proof fn lemma_before_at(s: Seq<char>, t: Seq<char>, n: int)
    requires
        0 <= n <= s.len(),
        n <= t.len(),
        s.take(n) == t.take(n),
        n < s.len() && n < t.len() ==> s[n] != t[n],
    ensures
        n < s.len() && n < t.len() ==> (before(s, t) <==> (s[n] as u32) < (t[n] as u32)),
        n == s.len() && n < t.len() ==> before(s, t),
        n == t.len() ==> !before(s, t),
    decreases n,
{
    if n > 0 {
        let (a, b) = (s.drop_first(), t.drop_first());
        assert(s.take(n)[0] == s[0] && t.take(n)[0] == t[0]);
        assert(a.take(n - 1) =~= s.take(n).drop_first());
        assert(b.take(n - 1) =~= t.take(n).drop_first());
        assert(n < s.len() ==> a[n - 1] == s[n]);
        assert(n < t.len() ==> b[n - 1] == t[n]);
        lemma_before_at(a, b, n - 1);
    }
}

/// A text of plain characters is its bytes.
pub proof fn law_plain_text_is_its_bytes(s: &str, r: Vec<u8>)
    requires
        call_ensures(to_low_bytes, (s,), r),
    ensures
        r@.len() == s@.len(),
        forall|i: int| 0 <= i < s@.len() && (s@[i] as u32) < 128 ==> #[trigger] r@[i] == s@[i] as u32,
{
}

/// Spaces, tabs and ends of lines are white space, and nothing that is printed in ASCII is.
pub proof fn law_white_space(c: char, r: bool, control: bool)
    requires
        call_ensures(is_whitespace, (c,), r),
        call_ensures(is_control, (c,), control),
    ensures
        c == ' ' || c == '\t' || c == '\n' || c == '\r' || c == '\u{3000}' ==> r,
        '!' <= c <= '~' ==> !r && !control,
        (c as u32) < 32 || c as u32 == 127 ==> control,
        c == ' ' ==> !control,
{
}

} // verus!
