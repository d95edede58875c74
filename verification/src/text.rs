//! Rendering of integers as decimal and hexadecimal text.

use vstd::prelude::*;
use vstd::string::*;

verus! {

/// The character for a digit value below sixteen (lower-case for hex).
pub open spec fn digit_char(d: nat) -> char {
    if d < 10 {
        (48 + d) as char
    } else {
        (87 + d) as char
    }
}

/// Decimal digits of `n`, most significant first, without leading zeros.
pub open spec fn decimal(n: nat) -> Seq<char>
    decreases n,
{
    if n < 10 {
        seq![digit_char(n)]
    } else {
        decimal(n / 10).push(digit_char(n % 10))
    }
}

/// Lower-case hexadecimal digits of `n`, most significant first.
pub open spec fn hex(n: nat) -> Seq<char>
    decreases n,
{
    if n < 16 {
        seq![digit_char(n)]
    } else {
        hex(n / 16).push(digit_char(n % 16))
    }
}

/// `s` left-padded with `'0'` up to `width` characters (as `{:0width$}` does).
pub open spec fn zero_pad(s: Seq<char>, width: nat) -> Seq<char> {
    if s.len() < width {
        Seq::new((width - s.len()) as nat, |i: int| '0') + s
    } else {
        s
    }
}

fn digit(d: u64) -> (c: char)
    requires
        d < 16,
    ensures
        c == digit_char(d as nat),
{
    if d < 10 {
        ((48 + d) as u8) as char
    } else {
        ((87 + d) as u8) as char
    }
}

/// The decimal digits of `n`.
pub fn decimal_chars(n: u64) -> (out: Vec<char>)
    ensures
        out@ == decimal(n as nat),
{
    let mut rest = n;
    let mut acc: Vec<char> = Vec::new();
    while rest >= 10
        invariant
            decimal(n as nat) == decimal(rest as nat) + acc@,
        decreases rest,
    {
        let c = digit(rest % 10);
        proof {
            assert(decimal(rest as nat) == decimal((rest / 10) as nat).push(c));
            assert(decimal((rest / 10) as nat).push(c) + acc@ =~= decimal((rest / 10) as nat) + (
            seq![c] + acc@));
        }
        acc.insert(0, c);
        rest = rest / 10;
    }
    let c = digit(rest);
    acc.insert(0, c);
    proof {
        assert(decimal(rest as nat) == seq![c]);
    }
    acc
}

/// The lower-case hexadecimal digits of `n`.
pub fn hex_chars(n: u64) -> (out: Vec<char>)
    ensures
        out@ == hex(n as nat),
{
    let mut rest = n;
    let mut acc: Vec<char> = Vec::new();
    while rest >= 16
        invariant
            hex(n as nat) == hex(rest as nat) + acc@,
        decreases rest,
    {
        let c = digit(rest % 16);
        proof {
            assert(hex(rest as nat) == hex((rest / 16) as nat).push(c));
            assert(hex((rest / 16) as nat).push(c) + acc@ =~= hex((rest / 16) as nat) + (seq![c]
                + acc@));
        }
        acc.insert(0, c);
        rest = rest / 16;
    }
    let c = digit(rest);
    acc.insert(0, c);
    proof {
        assert(hex(rest as nat) == seq![c]);
    }
    acc
}


/// `String::push`: appends one character at the end of the string.
#[verifier::external_body]
pub(crate) fn push_char(s: &mut String, c: char)
    ensures
        final(s)@ == old(s)@.push(c),
{
    s.push(c);
}

/// A character of Unicode's `White_Space` property (what `char::is_whitespace` tests).
pub open spec fn is_white_space(c: char) -> bool {
    let n = c as int;
    ||| (0x9 <= n && n <= 0xD)
    ||| n == 0x20
    ||| n == 0x85
    ||| n == 0xA0
    ||| n == 0x1680
    ||| (0x2000 <= n && n <= 0x200A)
    ||| n == 0x2028
    ||| n == 0x2029
    ||| n == 0x202F
    ||| n == 0x205F
    ||| n == 0x3000
}

/// `s` without its leading white space.
pub open spec fn trim_start_text(s: Seq<char>) -> Seq<char>
    decreases s.len(),
{
    if s.len() > 0 && is_white_space(s[0]) {
        trim_start_text(s.skip(1))
    } else {
        s
    }
}

/// `s` without its trailing white space.
pub open spec fn trim_end_text(s: Seq<char>) -> Seq<char>
    decreases s.len(),
{
    if s.len() > 0 && is_white_space(s.last()) {
        trim_end_text(s.drop_last())
    } else {
        s
    }
}

/// `s` without leading or trailing white space.
pub open spec fn trimmed(s: Seq<char>) -> Seq<char> {
    trim_end_text(trim_start_text(s))
}

/// `str::trim`: `s` with leading and trailing white space removed, white
/// space being Unicode's `White_Space` property, as its documentation says.
#[verifier::external_body]
pub(crate) fn trim(s: &str) -> (r: &str)
    ensures
        r@ == trimmed(s@),
{
    s.trim()
}

/// Appends every character of `cs` to `s`.
pub fn push_chars(s: &mut String, cs: &Vec<char>)
    ensures
        final(s)@ == old(s)@ + cs@,
{
    let mut i: usize = 0;
    while i < cs.len()
        invariant
            i <= cs.len(),
            s@ == old(s)@ + cs@.take(i as int),
        decreases cs.len() - i,
    {
        push_char(s, cs[i]);
        assert(cs@.take(i as int).push(cs@[i as int]) =~= cs@.take(i + 1));
        i = i + 1;
    }
    assert(cs@.take(cs.len() as int) =~= cs@);
}

/// `cs` left-padded with zeros up to `width` characters.
pub fn zero_padded(cs: Vec<char>, width: usize) -> (out: Vec<char>)
    ensures
        out@ == zero_pad(cs@, width as nat),
{
    if cs.len() >= width {
        return cs;
    }
    let missing = width - cs.len();
    let mut out: Vec<char> = Vec::new();
    let mut i: usize = 0;
    while i < missing
        invariant
            i <= missing,
            out@ =~= Seq::new(i as nat, |k: int| '0'),
        decreases missing - i,
    {
        out.push('0');
        i = i + 1;
    }
    let ghost pad = out@;
    let mut j: usize = 0;
    while j < cs.len()
        invariant
            j <= cs.len(),
            out@ =~= pad + cs@.take(j as int),
        decreases cs.len() - j,
    {
        out.push(cs[j]);
        j = j + 1;
    }
    assert(cs@.take(cs.len() as int) =~= cs@);
    out
}

/// The decimal rendering of `n` (what `n.to_string()` gives).
pub fn decimal_string(n: u64) -> (s: String)
    ensures
        s@ == decimal(n as nat),
{
    let mut s = String::new();
    let cs = decimal_chars(n);
    push_chars(&mut s, &cs);
    s
}


/// Digit characters of distinct values below sixteen differ.
pub proof fn lemma_digit_char_injective(x: nat, y: nat)
    requires
        x < 16,
        y < 16,
        digit_char(x) == digit_char(y),
    ensures
        x == y,
{
    if x < 10 && y < 10 {
        assert((48 + x) as char == (48 + y) as char);
        assert(((48 + x) as char) as nat == 48 + x);
        assert(((48 + y) as char) as nat == 48 + y);
    } else if x >= 10 && y >= 10 {
        assert(((87 + x) as char) as nat == 87 + x);
        assert(((87 + y) as char) as nat == 87 + y);
    } else if x < 10 {
        assert(((48 + x) as char) as nat == 48 + x);
        assert(((87 + y) as char) as nat == 87 + y);
    } else {
        assert(((87 + x) as char) as nat == 87 + x);
        assert(((48 + y) as char) as nat == 48 + y);
    }
}

/// Every value has at least one decimal digit.
pub proof fn lemma_decimal_len(n: nat)
    ensures
        decimal(n).len() >= 1,
        n < 10 <==> decimal(n).len() == 1,
    decreases n,
{
    if n >= 10 {
        lemma_decimal_len(n / 10);
    }
}

/// Distinct values have distinct decimal renderings.
pub proof fn lemma_decimal_injective(n: nat, m: nat)
    requires
        decimal(n) == decimal(m),
    ensures
        n == m,
    decreases n,
{
    lemma_decimal_len(n);
    lemma_decimal_len(m);
    if n < 10 && m < 10 {
        assert(decimal(n)[0] == digit_char(n));
        assert(decimal(m)[0] == digit_char(m));
        lemma_digit_char_injective(n, m);
    } else if n >= 10 && m >= 10 {
        let dn = decimal(n);
        assert(dn.drop_last() == decimal(n / 10));
        assert(decimal(m).drop_last() == decimal(m / 10));
        assert(dn.last() == digit_char(n % 10));
        assert(decimal(m).last() == digit_char(m % 10));
        lemma_decimal_injective(n / 10, m / 10);
        lemma_digit_char_injective(n % 10, m % 10);
    }
}

/// Two hex digits of a byte are its high and low nibbles.
pub proof fn lemma_hex_byte(x: nat)
    requires
        x < 256,
    ensures
        zero_pad(hex(x), 2) == seq![digit_char(x / 16), digit_char(x % 16)],
{
    if x < 16 {
        assert(hex(x) == seq![digit_char(x)]);
        assert(x / 16 == 0);
        assert(digit_char(0) == '0');
        assert(zero_pad(hex(x), 2) =~= seq!['0', digit_char(x)]);
    } else {
        assert(x / 16 < 16);
        assert(hex(x / 16) == seq![digit_char(x / 16)]);
        assert(hex(x) =~= seq![digit_char(x / 16), digit_char(x % 16)]);
    }
}


/// The characters of `s`.
pub fn str_chars(s: &str) -> (out: Vec<char>)
    ensures
        out@ == s@,
{
    let n = s.unicode_len();
    let mut out: Vec<char> = Vec::new();
    let mut i: usize = 0;
    while i < n
        invariant
            n == s@.len(),
            i <= n,
            out@ =~= s@.take(i as int),
        decreases n - i,
    {
        out.push(s.get_char(i));
        i = i + 1;
    }
    out
}

/// A string holding exactly the characters of `cs`.
pub fn string_of(cs: &Vec<char>) -> (s: String)
    ensures
        s@ == cs@,
{
    let mut s = String::new();
    push_chars(&mut s, cs);
    s
}

/// Appends the characters of `cs` to the character vector `v`.
pub fn extend_chars(v: &mut Vec<char>, cs: &Vec<char>)
    ensures
        final(v)@ == old(v)@ + cs@,
{
    let mut i: usize = 0;
    while i < cs.len()
        invariant
            i <= cs.len(),
            v@ =~= old(v)@ + cs@.take(i as int),
        decreases cs.len() - i,
    {
        v.push(cs[i]);
        i = i + 1;
    }
    assert(cs@.take(cs.len() as int) =~= cs@);
}


/// Whether two strings hold the same characters.
pub fn same_text(a: &str, b: &str) -> (r: bool)
    ensures
        r == (a@ == b@),
{
    let x = str_chars(a);
    let y = str_chars(b);
    if x.len() != y.len() {
        return false;
    }
    let mut i: usize = 0;
    while i < x.len()
        invariant
            x@ == a@,
            y@ == b@,
            x.len() == y.len(),
            i <= x.len(),
            forall|k: int| 0 <= k < i ==> x@[k] == y@[k],
        decreases x.len() - i,
    {
        if x[i] != y[i] {
            return false;
        }
        i = i + 1;
    }
    assert(x@ =~= y@);
    true
}

/// The characters of each string.
pub open spec fn texts(v: Seq<String>) -> Seq<Seq<char>> {
    v.map_values(|s: String| s@)
}


/// Appends `s` to `v`, keeping track of the characters.
pub fn push_text(v: &mut Vec<String>, s: String)
    ensures
        texts(final(v)@) == texts(old(v)@).push(s@),
{
    v.push(s);
    assert(texts(v@) =~= texts(old(v)@).push(s@));
}


/// The character is an ASCII decimal digit.
pub open spec fn is_digit(c: char) -> bool {
    '0' <= c <= '9'
}

/// The value of a string of decimal digits (leading zeros allowed).
pub open spec fn digits_value(g: Seq<char>) -> nat
    decreases g.len(),
{
    if g.len() == 0 {
        0
    } else {
        digits_value(g.drop_last()) * 10 + (g.last() as nat - 48) as nat
    }
}

/// The decimal rendering is made of digits, and reads back as its value.
pub proof fn lemma_decimal_digits(n: nat)
    ensures
        forall|i: int| 0 <= i < decimal(n).len() ==> is_digit(#[trigger] decimal(n)[i]),
        digits_value(decimal(n)) == n,
        n < 100 ==> decimal(n).len() <= 2,
        n < 1000 ==> decimal(n).len() <= 3,
    decreases n,
{
    lemma_decimal_len(n);
    if n >= 10 {
        lemma_decimal_digits(n / 10);
        let d = decimal(n);
        assert(d.drop_last() == decimal(n / 10));
        assert(d.last() == digit_char(n % 10));
        assert(((48 + n % 10) as char) as nat == 48 + n % 10);
        assert(d.last() as nat - 48 == n % 10);
        assert(digits_value(d) == digits_value(decimal(n / 10)) * 10 + n % 10);
        assert((n / 10) * 10 + n % 10 == n);
    } else {
        assert(((48 + n) as char) as nat == 48 + n);
        assert(decimal(n).drop_last() =~= Seq::<char>::empty());
        assert(digits_value(decimal(n).drop_last()) == 0);
        assert(decimal(n).last() == digit_char(n));
        assert(digits_value(decimal(n)) == 0 * 10 + n);
    }
}

/// Reads a run of at most three decimal digits that is written exactly as
/// `decimal` writes its value, if that value is below 256.
pub fn parse_octet(g: &Vec<char>) -> (r: Option<u8>)
    ensures
        r matches Some(v) ==> g@ == decimal(v as nat),
        forall|v: u8| g@ == decimal(v as nat) ==> r == Some(v),
{
    if g.len() == 0 || g.len() > 3 {
        proof {
            assert forall|v: u8| g@ != decimal(v as nat) by {
                lemma_decimal_digits(v as nat);
                lemma_decimal_len(v as nat);
            }
        }
        return None;
    }
    let mut value: u32 = 0;
    let mut i: usize = 0;
    while i < g.len()
        invariant
            1 <= g.len() <= 3,
            i <= g.len(),
            value as nat == digits_value(g@.take(i as int)),
            value < 1000,
            i == 0 ==> value == 0,
            i == 1 ==> value < 10,
            i == 2 ==> value < 100,
            forall|k: int| 0 <= k < i ==> is_digit(#[trigger] g@[k]),
        decreases g.len() - i,
    {
        let c = g[i];
        if !('0' <= c && c <= '9') {
            proof {
                assert forall|v: u8| g@ != decimal(v as nat) by {
                    lemma_decimal_digits(v as nat);
                    if g@ == decimal(v as nat) {
                        assert(is_digit(decimal(v as nat)[i as int]));
                    }
                }
            }
            return None;
        }
        assert(g@.take(i + 1).drop_last() =~= g@.take(i as int));
        value = value * 10 + (c as u32 - 48);
        i = i + 1;
    }
    assert(g@.take(g.len() as int) =~= g@);
    if value > 255 {
        proof {
            assert forall|v: u8| g@ != decimal(v as nat) by {
                lemma_decimal_digits(v as nat);
            }
        }
        return None;
    }
    let canonical = decimal_chars(value as u64);
    if canonical.len() != g.len() {
        proof {
            assert forall|v: u8| g@ != decimal(v as nat) by {
                lemma_decimal_digits(v as nat);
            }
        }
        return None;
    }
    let mut k: usize = 0;
    while k < g.len()
        invariant
            canonical@ == decimal(value as nat),
            canonical.len() == g.len(),
            value as nat == digits_value(g@),
            value <= 255,
            k <= g.len(),
            forall|j: int| 0 <= j < k ==> canonical@[j] == g@[j],
        decreases g.len() - k,
    {
        if canonical[k] != g[k] {
            proof {
                assert forall|v: u8| g@ != decimal(v as nat) by {
                    lemma_decimal_digits(v as nat);
                }
            }
            return None;
        }
        k = k + 1;
    }
    assert(canonical@ =~= g@);
    proof {
        assert forall|v: u8| g@ == decimal(v as nat) implies v == value by {
            lemma_decimal_digits(v as nat);
        }
    }
    Some(value as u8)
}


/// The characters of `cs` from `lo` up to `hi`.
pub fn chars_between(cs: &Vec<char>, lo: usize, hi: usize) -> (out: Vec<char>)
    requires
        lo <= hi <= cs.len(),
    ensures
        out@ == cs@.subrange(lo as int, hi as int),
{
    let mut out: Vec<char> = Vec::new();
    let mut k = lo;
    while k < hi
        invariant
            lo <= k <= hi <= cs.len(),
            out@ =~= cs@.subrange(lo as int, k as int),
        decreases hi - k,
    {
        out.push(cs[k]);
        k = k + 1;
    }
    out
}


/// `dir` joined with the relative name `name`, as `Path::join` does: a `/`
/// goes between them unless `dir` is empty or already ends with one.
pub open spec fn join_path(dir: Seq<char>, name: Seq<char>) -> Seq<char> {
    if dir.len() == 0 {
        name
    } else if dir.last() == '/' {
        dir + name
    } else {
        dir + seq!['/'] + name
    }
}

/// `dir` joined with the relative name `name`.
pub fn join_relative(dir: &str, name: &str) -> (s: String)
    ensures
        s@ == join_path(dir@, name@),
{
    let cs = str_chars(dir);
    if cs.len() == 0 {
        return String::from_str(name);
    }
    let mut s = String::from_str(dir);
    if cs[cs.len() - 1] != '/' {
        push_char(&mut s, '/');
    }
    s.append(name);
    s
}

/// Whether `s` begins with `prefix`.
pub fn starts_with(s: &str, prefix: &str) -> (r: bool)
    ensures
        r == (prefix@.len() <= s@.len() && s@.subrange(0, prefix@.len() as int) == prefix@),
{
    let x = str_chars(s);
    let p = str_chars(prefix);
    if p.len() > x.len() {
        return false;
    }
    let mut i: usize = 0;
    while i < p.len()
        invariant
            x@ == s@,
            p@ == prefix@,
            p.len() <= x.len(),
            i <= p.len(),
            forall|k: int| 0 <= k < i ==> x@[k] == p@[k],
        decreases p.len() - i,
    {
        if x[i] != p[i] {
            assert(s@.subrange(0, prefix@.len() as int)[i as int] != prefix@[i as int]);
            return false;
        }
        i = i + 1;
    }
    assert(s@.subrange(0, prefix@.len() as int) =~= prefix@);
    true
}


/// The digits of an unsigned number as `str::parse` reads them: an optional
/// leading `+`, then at least one decimal digit and nothing else.
pub open spec fn unsigned_digits(t: Seq<char>) -> Seq<char> {
    if t.len() > 0 && t[0] == '+' {
        t.skip(1)
    } else {
        t
    }
}

/// The value `str::parse` reads from `t` for an unsigned integer type, before
/// the bound of the type is checked.
pub open spec fn unsigned_value(t: Seq<char>) -> Option<nat> {
    let d = unsigned_digits(t);
    if d.len() > 0 && (forall|i: int| 0 <= i < d.len() ==> is_digit(#[trigger] d[i])) {
        Some(digits_value(d))
    } else {
        None
    }
}

proof fn lemma_digits_value_grows(g: Seq<char>, i: int)
    requires
        0 <= i <= g.len(),
        forall|k: int| 0 <= k < g.len() ==> is_digit(#[trigger] g[k]),
    ensures
        digits_value(g.take(i)) <= digits_value(g),
    decreases g.len() - i,
{
    if i < g.len() {
        lemma_digits_value_grows(g, i + 1);
        assert(g.take(i + 1).drop_last() =~= g.take(i));
    } else {
        assert(g.take(i) =~= g);
    }
}

/// Reads an unsigned integer no larger than `max` as `str::parse` does.
pub fn parse_unsigned(s: &str, max: u64) -> (r: Option<u64>)
    ensures
        match unsigned_value(s@) {
            Some(v) => if v <= max {
                r == Some(v as u64)
            } else {
                r is None
            },
            None => r is None,
        },
{
    let cs = str_chars(s);
    let start: usize = if cs.len() > 0 && cs[0] == '+' {
        1
    } else {
        0
    };
    let ghost d = unsigned_digits(s@);
    assert(d =~= cs@.subrange(start as int, cs.len() as int));
    if start == cs.len() {
        return None;
    }
    let mut value: u64 = 0;
    let mut i = start;
    while i < cs.len()
        invariant
            cs@ == s@,
            start <= i <= cs.len(),
            d == cs@.subrange(start as int, cs.len() as int),
            d == unsigned_digits(s@),
            value as nat == digits_value(d.take(i - start)),
            value <= max,
            forall|k: int| 0 <= k < i - start ==> is_digit(#[trigger] d[k]),
        decreases cs.len() - i,
    {
        let c = cs[i];
        if !('0' <= c && c <= '9') {
            assert(d[i - start] == c);
            assert(!is_digit(d[i - start]));
            assert(unsigned_value(s@) is None);
            return None;
        }
        let digit = (c as u64) - 48;
        assert(d.take(i - start + 1).drop_last() =~= d.take(i - start));
        if digit > max || value > (max - digit) / 10 {
            proof {
                assert(value as nat * 10 + digit > max) by (nonlinear_arith)
                    requires
                        digit > max || value > (max - digit) / 10,
                        digit <= 9,
                ;
                assert(digits_value(d.take(i - start + 1)) == value as nat * 10 + digit);
                assert(digits_value(d.take(i - start + 1)) > max);
                if unsigned_value(s@) is Some {
                    assert(forall|k: int| 0 <= k < d.len() ==> is_digit(#[trigger] d[k]));
                    lemma_digits_value_grows(d, i - start + 1);
                    assert(digits_value(d) > max);
                }
            }
            return None;
        }
        value = value * 10 + digit;
        i = i + 1;
    }
    assert(d.take(d.len() as int) =~= d);
    Some(value)
}

} // verus!
