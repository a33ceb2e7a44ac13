//! Small text helpers: character sequences and decimal numbers.

use vstd::prelude::*;

verus! {

/// Appends `c` to `s` with `String::push` from std, which vstd does not
/// specify; std documents that it appends the character to the end.
#[verifier::external_body]
pub(crate) fn push_char(s: &mut String, c: char)
    ensures
        final(s)@ == old(s)@.push(c),
{
    s.push(c);
}

/// Appends the characters of `t` to `s`.
pub fn push_str(s: &mut String, t: &str)
    ensures
        final(s)@ == old(s)@ + t@,
{
    s.append(t);
}

/// The characters of `s`, one per element.
pub fn chars_of(s: &str) -> (chars: Vec<char>)
    ensures
        chars@ == s@,
{
    let n = s.unicode_len();
    let mut chars: Vec<char> = Vec::new();
    let mut i: usize = 0;
    while i < n
        invariant
            n == s@.len(),
            i <= n,
            chars@ == s@.subrange(0, i as int),
        decreases n - i,
    {
        chars.push(s.get_char(i));
        proof { assert(chars@ =~= s@.subrange(0, i + 1)); }
        i += 1;
    }
    proof { assert(chars@ =~= s@); }
    chars
}

/// A string holding exactly the characters `chars`.
pub fn string_of(chars: &[char]) -> (s: String)
    ensures
        s@ == chars@,
{
    let mut s = String::new();
    let mut i: usize = 0;
    while i < chars.len()
        invariant
            i <= chars@.len(),
            s@ == chars@.subrange(0, i as int),
        decreases chars@.len() - i,
    {
        push_char(&mut s, chars[i]);
        proof { assert(s@ =~= chars@.subrange(0, i + 1)); }
        i += 1;
    }
    proof { assert(s@ =~= chars@); }
    s
}

pub open spec fn digit_char(d: nat) -> char {
    ((48 + d) as u32) as char
}

/// Decimal digits of `n`, most significant first, no leading zeros.
pub open spec fn spec_decimal(n: nat) -> Seq<char>
    decreases n,
{
    if n < 10 {
        seq![digit_char(n)]
    } else {
        spec_decimal(n / 10).push(digit_char(n % 10))
    }
}

/// `digits` preceded by enough zeros to make it `width` long.
pub open spec fn spec_zero_padded(digits: Seq<char>, width: nat) -> Seq<char> {
    if digits.len() >= width {
        digits
    } else {
        Seq::new((width - digits.len()) as nat, |i: int| '0') + digits
    }
}

fn digit(d: usize) -> (c: char)
    requires
        d < 10,
    ensures
        c == digit_char(d as nat),
{
    match d {
        0 => '0',
        1 => '1',
        2 => '2',
        3 => '3',
        4 => '4',
        5 => '5',
        6 => '6',
        7 => '7',
        8 => '8',
        _ => '9',
    }
}

/// The decimal digits of `n`.
pub fn decimal_chars(n: usize) -> (digits: Vec<char>)
    ensures
        digits@ == spec_decimal(n as nat),
        digits@.len() >= 1,
    decreases n,
{
    if n < 10 {
        let mut digits: Vec<char> = Vec::new();
        digits.push(digit(n));
        proof { assert(digits@ =~= seq![digit_char(n as nat)]); }
        digits
    } else {
        let mut digits = decimal_chars(n / 10);
        digits.push(digit(n % 10));
        digits
    }
}

/// `n` in decimal, as for `format!("{n}")`.
pub fn decimal(n: usize) -> (s: String)
    ensures
        s@ == spec_decimal(n as nat),
{
    let digits = decimal_chars(n);
    string_of(&digits)
}

/// `n` in decimal, zero-padded to `width` digits, as for
/// `format!("{n:0width$}")`.
pub fn zero_padded_decimal(n: usize, width: usize) -> (s: String)
    ensures
        s@ == spec_zero_padded(spec_decimal(n as nat), width as nat),
{
    let digits = decimal_chars(n);
    let mut s = String::new();
    let mut k: usize = digits.len();
    let ghost pad: nat = if digits@.len() >= width { 0 } else { (width - digits@.len()) as nat };
    while k < width
        invariant
            digits@.len() <= k <= (if width >= digits@.len() { width as nat } else { digits@.len() }),
            pad == (if digits@.len() >= width { 0 } else { (width - digits@.len()) as nat }),
            s@ == Seq::new((k - digits@.len()) as nat, |i: int| '0'),
        decreases width - k,
    {
        push_char(&mut s, '0');
        proof { assert(s@ =~= Seq::new((k + 1 - digits@.len()) as nat, |i: int| '0')); }
        k += 1;
    }
    let mut i: usize = 0;
    while i < digits.len()
        invariant
            i <= digits@.len(),
            s@ == Seq::new(pad, |j: int| '0') + digits@.subrange(0, i as int),
        decreases digits@.len() - i,
    {
        push_char(&mut s, digits[i]);
        proof {
            assert(s@ =~= Seq::new(pad, |j: int| '0') + digits@.subrange(0, i + 1));
        }
        i += 1;
    }
    proof {
        assert(digits@.subrange(0, digits@.len() as int) =~= digits@);
        if digits@.len() >= width {
            assert(Seq::new(pad, |j: int| '0') + digits@ =~= digits@);
        }
    }
    s
}

/// `char::is_whitespace`: the Unicode `White_Space` characters.
pub open spec fn is_whitespace(c: char) -> bool {
    let u = c as u32;
    (0x09 <= u <= 0x0d) || u == 0x20 || u == 0x85 || u == 0xa0 || u == 0x1680
        || (0x2000 <= u <= 0x200a) || u == 0x2028 || u == 0x2029 || u == 0x202f || u == 0x205f || u == 0x3000
}

pub fn char_is_whitespace(c: char) -> (ws: bool)
    ensures
        ws == is_whitespace(c),
{
    let u = c as u32;
    (0x09 <= u && u <= 0x0d) || u == 0x20 || u == 0x85 || u == 0xa0 || u == 0x1680
        || (0x2000 <= u && u <= 0x200a) || u == 0x2028 || u == 0x2029 || u == 0x202f || u == 0x205f || u == 0x3000
}

/// Number of leading whitespace characters.
pub open spec fn leading_ws(s: Seq<char>) -> nat
    decreases s.len(),
{
    if s.len() > 0 && is_whitespace(s[0]) { 1 + leading_ws(s.drop_first()) } else { 0 }
}

/// Number of trailing whitespace characters.
pub open spec fn trailing_ws(s: Seq<char>) -> nat
    decreases s.len(),
{
    if s.len() > 0 && is_whitespace(s.last()) { 1 + trailing_ws(s.drop_last()) } else { 0 }
}

/// `str::trim_start`.
pub open spec fn trim_start(s: Seq<char>) -> Seq<char> {
    s.subrange(leading_ws(s) as int, s.len() as int)
}

/// `str::trim`.
pub open spec fn trim(s: Seq<char>) -> Seq<char> {
    let t = trim_start(s);
    t.subrange(0, t.len() - trailing_ws(t))
}

proof fn lemma_leading_ws_bound(s: Seq<char>)
    ensures
        leading_ws(s) <= s.len(),
        forall|k: int| 0 <= k < leading_ws(s) ==> is_whitespace(#[trigger] s[k]),
        leading_ws(s) < s.len() ==> !is_whitespace(s[leading_ws(s) as int]),
    decreases s.len(),
{
    if s.len() > 0 && is_whitespace(s[0]) {
        lemma_leading_ws_bound(s.drop_first());
        assert forall|k: int| 0 <= k < leading_ws(s) implies is_whitespace(#[trigger] s[k]) by {
            if k > 0 { assert(s[k] == s.drop_first()[k - 1]); }
        }
        if leading_ws(s) < s.len() {
            assert(s[leading_ws(s) as int] == s.drop_first()[leading_ws(s.drop_first()) as int]);
        }
    }
}

proof fn lemma_trailing_ws_bound(s: Seq<char>)
    ensures
        trailing_ws(s) <= s.len(),
    decreases s.len(),
{
    if s.len() > 0 && is_whitespace(s.last()) {
        lemma_trailing_ws_bound(s.drop_last());
    }
}

/// Number of leading whitespace characters of `chars`.
pub fn leading_whitespace(chars: &[char]) -> (n: usize)
    ensures
        n == leading_ws(chars@),
{
    let mut i: usize = 0;
    proof { assert(chars@.subrange(0, chars@.len() as int) =~= chars@); }
    while i < chars.len() && char_is_whitespace(chars[i])
        invariant
            i <= chars@.len(),
            leading_ws(chars@) == i + leading_ws(chars@.subrange(i as int, chars@.len() as int)),
        decreases chars@.len() - i,
    {
        proof {
            let rest = chars@.subrange(i as int, chars@.len() as int);
            assert(rest[0] == chars@[i as int]);
            assert(rest.drop_first() =~= chars@.subrange(i + 1, chars@.len() as int));
        }
        i += 1;
    }
    proof {
        let rest = chars@.subrange(i as int, chars@.len() as int);
        if i < chars@.len() { assert(rest[0] == chars@[i as int]); }
    }
    i
}

/// Number of trailing whitespace characters of `chars`.
pub fn trailing_whitespace(chars: &[char]) -> (n: usize)
    ensures
        n == trailing_ws(chars@),
{
    let mut i: usize = chars.len();
    proof { assert(chars@.subrange(0, chars@.len() as int) =~= chars@); }
    while i > 0 && char_is_whitespace(chars[i - 1])
        invariant
            i <= chars@.len(),
            trailing_ws(chars@) == (chars@.len() - i) + trailing_ws(chars@.subrange(0, i as int)),
        decreases i,
    {
        proof {
            let rest = chars@.subrange(0, i as int);
            assert(rest.last() == chars@[i - 1]);
            assert(rest.drop_last() =~= chars@.subrange(0, i - 1));
        }
        i -= 1;
    }
    proof {
        let rest = chars@.subrange(0, i as int);
        if i > 0 { assert(rest.last() == chars@[i - 1]); }
    }
    (chars.len() - i) as usize
}

/// A copy of `chars[lo..hi]`.
pub fn slice_chars(chars: &[char], lo: usize, hi: usize) -> (out: Vec<char>)
    requires
        lo <= hi <= chars@.len(),
    ensures
        out@ == chars@.subrange(lo as int, hi as int),
{
    let mut out: Vec<char> = Vec::new();
    let mut i: usize = lo;
    while i < hi
        invariant
            lo <= i <= hi <= chars@.len(),
            out@ == chars@.subrange(lo as int, i as int),
        decreases hi - i,
    {
        out.push(chars[i]);
        proof { assert(out@ =~= chars@.subrange(lo as int, i + 1)); }
        i += 1;
    }
    out
}

/// `chars` without leading whitespace.
pub fn trim_start_chars(chars: &[char]) -> (out: Vec<char>)
    ensures
        out@ == trim_start(chars@),
{
    proof { lemma_leading_ws_bound(chars@); }
    let lo = leading_whitespace(chars);
    slice_chars(chars, lo, chars.len())
}

/// `chars` without leading or trailing whitespace.
pub fn trim_chars(chars: &[char]) -> (out: Vec<char>)
    ensures
        out@ == trim(chars@),
{
    let start = trim_start_chars(chars);
    proof { lemma_trailing_ws_bound(start@); }
    let tail = trailing_whitespace(&start);
    slice_chars(&start, 0, start.len() - tail)
}

/// Whether `s` begins with `prefix`.
pub open spec fn starts_with(s: Seq<char>, prefix: Seq<char>) -> bool {
    s.len() >= prefix.len() && s.subrange(0, prefix.len() as int) == prefix
}

pub fn starts_with_chars(s: &[char], prefix: &[char]) -> (yes: bool)
    ensures
        yes == starts_with(s@, prefix@),
{
    if s.len() < prefix.len() {
        return false;
    }
    let mut i: usize = 0;
    while i < prefix.len()
        invariant
            prefix@.len() <= s@.len(),
            i <= prefix@.len(),
            forall|k: int| 0 <= k < i ==> s@[k] == prefix@[k],
        decreases prefix@.len() - i,
    {
        if s[i] != prefix[i] {
            proof {
                if starts_with(s@, prefix@) {
                    assert(s@.subrange(0, prefix@.len() as int)[i as int] == s@[i as int]);
                }
            }
            return false;
        }
        i += 1;
    }
    proof { assert(s@.subrange(0, prefix@.len() as int) =~= prefix@); }
    true
}

pub open spec fn is_digit(c: char) -> bool {
    '0' <= c <= '9'
}

/// Value of a run of decimal digits.
pub open spec fn digits_value(s: Seq<char>) -> nat
    decreases s.len(),
{
    if s.len() == 0 { 0 } else { digits_value(s.drop_last()) * 10 + ((s.last() as u32) - 48) as nat }
}

/// Unsigned `FromStr` for integers up to `max`: an optional `+`, then one
/// or more ASCII digits whose value is at most `max`.
pub open spec fn parse_unsigned(s: Seq<char>, max: nat) -> Option<nat> {
    let body = unsigned_body(s);
    if body.len() > 0 && all_digits(body) && digits_value(body) <= max {
        Some(digits_value(body))
    } else {
        None
    }
}

/// The text after an optional leading `+`.
pub open spec fn unsigned_body(s: Seq<char>) -> Seq<char> {
    if s.len() > 0 && s[0] == '+' { s.drop_first() } else { s }
}

pub open spec fn all_digits(s: Seq<char>) -> bool {
    forall|k: int| 0 <= k < s.len() ==> is_digit(#[trigger] s[k])
}

/// Parses an unsigned decimal number no larger than `max`, as
/// `u32::from_str` and `usize::from_str` do for their maximum.
pub fn parse_unsigned_chars(s: &[char], max: u64) -> (value: Option<u64>)
    ensures
        match (value, parse_unsigned(s@, max as nat)) {
            (Some(v), Some(w)) => v as nat == w,
            (None, None) => true,
            _ => false,
        },
{
    let start: usize = if s.len() > 0 && s[0] == '+' { 1 } else { 0 };
    let ghost body = unsigned_body(s@);
    proof { assert(body =~= s@.subrange(start as int, s@.len() as int)); }
    if start >= s.len() {
        return None;
    }
    let mut value: u64 = 0;
    let mut i: usize = start;
    while i < s.len()
        invariant
            start <= i <= s@.len(),
            body == s@.subrange(start as int, s@.len() as int),
            body == unsigned_body(s@),
            forall|k: int| start <= k < i ==> is_digit(#[trigger] s@[k]),
            value as nat == digits_value(s@.subrange(start as int, i as int)),
            value <= max,
        decreases s@.len() - i,
    {
        let c = s[i];
        proof { assert(s@.subrange(start as int, i + 1).drop_last() =~= s@.subrange(start as int, i as int)); }
        if !('0' <= c && c <= '9') {
            proof {
                assert(body[i - start] == c);
                assert(!is_digit(body[i - start]));
                assert(!all_digits(body));
                assert(parse_unsigned(s@, max as nat) is None);
            }
            return None;
        }
        let d = (c as u32 - 48) as u64;
        proof {
            let sub = s@.subrange(start as int, i + 1);
            assert(sub.last() == c);
            assert(digits_value(sub) == value * 10 + d);
        }
        if d > max || value > (max - d) / 10 {
            proof {
                assert(digits_value(s@.subrange(start as int, i + 1)) > max) by (nonlinear_arith)
                    requires
                        digits_value(s@.subrange(start as int, i + 1)) == value * 10 + d,
                        d > max || value > (max - d) / 10, d <= 9;
                assert(body.subrange(0, i - start + 1) =~= s@.subrange(start as int, i + 1));
                if all_digits(body) {
                    lemma_digits_monotone(body, (i - start + 1) as int);
                    assert(digits_value(body) > max);
                }
                assert(parse_unsigned(s@, max as nat) is None);
            }
            return None;
        }
        proof {
            assert(value * 10 + d <= max) by (nonlinear_arith)
                requires value <= (max - d) / 10, d <= max;
        }
        value = value * 10 + d;
        i += 1;
    }
    proof { assert(s@.subrange(start as int, s@.len() as int) == body); }
    Some(value)
}

proof fn lemma_digits_monotone(s: Seq<char>, n: int)
    requires
        0 <= n <= s.len(),
        all_digits(s),
    ensures
        digits_value(s.subrange(0, n)) <= digits_value(s),
    decreases s.len() - n,
{
    if n < s.len() {
        lemma_digits_monotone(s, n + 1);
        assert(s.subrange(0, n + 1).drop_last() =~= s.subrange(0, n));
    } else {
        assert(s.subrange(0, n) =~= s);
    }
}

/// The text split at each `\n`.
pub open spec fn line_pieces(s: Seq<char>) -> Seq<Seq<char>>
    decreases s.len(),
{
    if s.len() == 0 {
        seq![Seq::<char>::empty()]
    } else {
        let pieces = line_pieces(s.drop_last());
        if s.last() == '\n' {
            pieces.push(Seq::empty())
        } else {
            pieces.update(pieces.len() - 1, pieces.last().push(s.last()))
        }
    }
}

pub open spec fn strip_cr(line: Seq<char>) -> Seq<char> {
    if line.len() > 0 && line.last() == '\r' { line.drop_last() } else { line }
}

/// `str::lines`: the pieces between `\n`s, each ended one losing a final
/// `\r`, with no empty line after a final `\n`.
pub open spec fn spec_lines(s: Seq<char>) -> Seq<Seq<char>> {
    let pieces = line_pieces(s);
    let count = if pieces.last().len() == 0 { pieces.len() - 1 } else { pieces.len() as int };
    Seq::new(count as nat, |i: int| if i < pieces.len() - 1 { strip_cr(pieces[i]) } else { pieces[i] })
}

proof fn lemma_line_pieces_len(s: Seq<char>)
    ensures
        line_pieces(s).len() >= 1,
    decreases s.len(),
{
    if s.len() > 0 {
        lemma_line_pieces_len(s.drop_last());
    }
}

/// The lines of `chars`, as `str::lines` gives them.
pub fn lines_of(chars: &[char]) -> (lines: Vec<Vec<char>>)
    ensures
        lines@.len() == spec_lines(chars@).len(),
        forall|i: int| 0 <= i < lines@.len() ==> (#[trigger] lines@[i])@ == spec_lines(chars@)[i],
{
    let mut done: Vec<Vec<char>> = Vec::new();
    let mut current: Vec<char> = Vec::new();
    let mut i: usize = 0;
    proof { assert(chars@.subrange(0, 0) =~= Seq::<char>::empty()); }
    while i < chars.len()
        invariant
            i <= chars@.len(),
            done@.len() + current@.len() <= i,
            line_pieces(chars@.subrange(0, i as int)).len() == done@.len() + 1,
            forall|k: int| 0 <= k < done@.len() ==> (#[trigger] done@[k])@ == line_pieces(chars@.subrange(0, i as int))[k],
            current@ == line_pieces(chars@.subrange(0, i as int)).last(),
        decreases chars@.len() - i,
    {
        proof {
            let prefix = chars@.subrange(0, i + 1);
            assert(prefix.drop_last() =~= chars@.subrange(0, i as int));
            assert(prefix.last() == chars@[i as int]);
            lemma_line_pieces_len(chars@.subrange(0, i as int));
        }
        if chars[i] == '\n' {
            done.push(current);
            current = Vec::new();
            proof { assert(current@ =~= Seq::<char>::empty()); }
        } else {
            current.push(chars[i]);
        }
        i += 1;
    }
    proof { assert(chars@.subrange(0, chars@.len() as int) =~= chars@); }
    let ghost pieces = line_pieces(chars@);
    let count = if current.len() == 0 { done.len() } else { done.len() + 1 };
    let mut lines: Vec<Vec<char>> = Vec::new();
    let mut k: usize = 0;
    while k < count
        invariant
            pieces == line_pieces(chars@),
            pieces.len() == done@.len() + 1,
            forall|j: int| 0 <= j < done@.len() ==> (#[trigger] done@[j])@ == pieces[j],
            current@ == pieces.last(),
            count == if current@.len() == 0 { done@.len() } else { done@.len() + 1 },
            k <= count,
            lines@.len() == k,
            forall|j: int| 0 <= j < k ==> (#[trigger] lines@[j])@ == spec_lines(chars@)[j],
        decreases count - k,
    {
        if k < done.len() {
            let piece = &done[k];
            let n = piece.len();
            let line = if n > 0 && piece[n - 1] == '\r' {
                slice_chars(piece, 0, n - 1)
            } else {
                slice_chars(piece, 0, n)
            };
            proof {
                assert(piece@.subrange(0, n as int) =~= piece@);
                if n > 0 { assert(piece@.subrange(0, n - 1) =~= piece@.drop_last()); }
            }
            lines.push(line);
        } else {
            let line = slice_chars(&current, 0, current.len());
            proof { assert(current@.subrange(0, current@.len() as int) =~= current@); }
            lines.push(line);
        }
        k += 1;
    }
    lines
}


} // verus!
