//! Character-level text rules: ASCII case folding, suffixes, Unicode white
//! space, splitting on a separator or on white space, and decimal `u32`
//! parsing with the error kinds that `str::parse::<u32>` reports.

use vstd::prelude::*;

verus! {

broadcast use vstd::string::group_string_axioms;

// ---------------------------------------------------------------------------
// Specifications
// ---------------------------------------------------------------------------

/// `c` is one of `'0'..='9'`.
pub open spec fn is_ascii_digit(c: char) -> bool {
    '0' <= c && c <= '9'
}

/// The numeric value of an ASCII digit.
pub open spec fn digit_value(c: char) -> int {
    (c as int) - ('0' as int)
}

/// ASCII lowercase of one character: `'A'..='Z'` map to `'a'..='z'`, all
/// other characters stay as they are.
pub open spec fn lower_char(c: char) -> char {
    if 'A' <= c && c <= 'Z' {
        ((c as int) + 32) as char
    } else {
        c
    }
}

/// `str::to_ascii_lowercase` on a character sequence.
pub open spec fn ascii_lowercase(s: Seq<char>) -> Seq<char> {
    s.map_values(|c: char| lower_char(c))
}

/// `s` ends with `suffix`.
pub open spec fn has_suffix(s: Seq<char>, suffix: Seq<char>) -> bool {
    &&& suffix.len() <= s.len()
    &&& s.subrange(s.len() - suffix.len(), s.len() as int) == suffix
}

/// The Unicode `White_Space` property (what `char::is_whitespace` tests).
pub open spec fn is_white_space(c: char) -> bool {
    ||| ('\u{9}' <= c && c <= '\u{d}')
    ||| c == ' '
    ||| c == '\u{85}'
    ||| c == '\u{a0}'
    ||| c == '\u{1680}'
    ||| ('\u{2000}' <= c && c <= '\u{200a}')
    ||| c == '\u{2028}'
    ||| c == '\u{2029}'
    ||| c == '\u{202f}'
    ||| c == '\u{205f}'
    ||| c == '\u{3000}'
}

/// `s.trim().is_empty()`: every character of `s` is white space.
pub open spec fn is_blank(s: Seq<char>) -> bool {
    forall|i: int| 0 <= i < s.len() ==> is_white_space(#[trigger] s[i])
}

/// The pieces of `str::split(sep)`: the maximal runs between occurrences of
/// `sep`, empty runs included, so there is always at least one piece.
pub open spec fn split_on(s: Seq<char>, sep: char) -> Seq<Seq<char>>
    decreases s.len(),
{
    if s.len() == 0 {
        seq![Seq::<char>::empty()]
    } else {
        let pieces = split_on(s.drop_last(), sep);
        if s.last() == sep {
            pieces.push(Seq::<char>::empty())
        } else {
            pieces.update(pieces.len() - 1, pieces.last().push(s.last()))
        }
    }
}

/// The words of `str::split_whitespace`: the non-empty maximal runs of
/// characters that are not white space.
pub open spec fn words(s: Seq<char>) -> Seq<Seq<char>>
    decreases s.len(),
{
    if s.len() == 0 {
        Seq::<Seq<char>>::empty()
    } else {
        let prev = words(s.drop_last());
        let c = s.last();
        if is_white_space(c) {
            prev
        } else if s.len() >= 2 && !is_white_space(s[s.len() - 2]) {
            prev.update(prev.len() - 1, prev.last().push(c))
        } else {
            prev.push(seq![c])
        }
    }
}

/// Why a decimal number was refused; the kinds of `core::num::IntErrorKind`
/// that parsing a `u32` can report.
#[derive(Clone, Copy, Debug, PartialEq, Eq, Structural)]
pub enum NumberError {
    /// The text is empty.
    Empty,
    /// A character is not a decimal digit (a lone sign counts as one).
    InvalidDigit,
    /// The value does not fit in a `u32`.
    Overflow,
}

/// Left-to-right accumulation of decimal digits into a `u32`: at each
/// character a non-digit is reported before an overflow.
pub open spec fn digits_value(d: Seq<char>) -> Result<u32, NumberError>
    decreases d.len(),
{
    if d.len() == 0 {
        Ok(0u32)
    } else {
        match digits_value(d.drop_last()) {
            Err(e) => Err(e),
            Ok(v) => if !is_ascii_digit(d.last()) {
                Err(NumberError::InvalidDigit)
            } else if v * 10 + digit_value(d.last()) > u32::MAX {
                Err(NumberError::Overflow)
            } else {
                Ok((v * 10 + digit_value(d.last())) as u32)
            },
        }
    }
}

/// What `str::parse::<u32>` returns for `s`: an optional leading `+`, then
/// one or more decimal digits whose value fits in a `u32`.
pub open spec fn parse_u32_spec(s: Seq<char>) -> Result<u32, NumberError> {
    if s.len() == 0 {
        Err(NumberError::Empty)
    } else if s.len() == 1 && (s[0] == '+' || s[0] == '-') {
        Err(NumberError::InvalidDigit)
    } else if s[0] == '+' {
        digits_value(s.drop_first())
    } else {
        digits_value(s)
    }
}

/// The decimal numeral of `n`, without sign or leading zeros.
pub open spec fn decimal(n: nat) -> Seq<char>
    decreases n,
{
    if n < 10 {
        seq![(n + ('0' as int)) as char]
    } else {
        decimal(n / 10).push(((n % 10) + ('0' as int)) as char)
    }
}

/// `s` preceded by zeros up to `width` characters (as `{:0width$}` pads a
/// number); `s` itself when it is that long already.
pub open spec fn zero_padded(s: Seq<char>, width: nat) -> Seq<char> {
    if s.len() >= width {
        s
    } else {
        Seq::new((width - s.len()) as nat, |i: int| '0') + s
    }
}

// ---------------------------------------------------------------------------
// Lemmas
// ---------------------------------------------------------------------------

/// How many digits a small number's numeral has at most.
pub proof fn lemma_decimal_len(n: nat)
    ensures
        decimal(n).len() >= 1,
        n < 10 ==> decimal(n).len() == 1,
        n < 100 ==> decimal(n).len() <= 2,
        n < 1000 ==> decimal(n).len() <= 3,
        n < 10000 ==> decimal(n).len() <= 4,
        n >= 10 ==> decimal(n).len() >= 2,
        n >= 100 ==> decimal(n).len() >= 3,
        n >= 1000 ==> decimal(n).len() >= 4,
        1000 <= n < 10000 ==> decimal(n).len() == 4,
    decreases n,
{
    if n >= 10 {
        lemma_decimal_len(n / 10);
    }
}

/// After a character that is not white space the word list is not empty.
proof fn lemma_words_nonempty(s: Seq<char>)
    requires
        s.len() >= 1,
        !is_white_space(s.last()),
    ensures
        words(s).len() >= 1,
    decreases s.len(),
{
    if s.len() >= 2 && !is_white_space(s[s.len() - 2]) {
        lemma_words_nonempty(s.drop_last());
    }
}

/// Parsing the decimal numeral of a `u32` gives it back.
pub proof fn lemma_digits_value_decimal(n: u32)
    ensures
        digits_value(decimal(n as nat)) == Ok::<u32, NumberError>(n),
    decreases n,
{
    let d = decimal(n as nat);
    let c = ((n % 10) + ('0' as int)) as char;
    assert(c as int == (n % 10) + 48);
    assert(is_ascii_digit(c));
    assert(digit_value(c) == n % 10);
    if n < 10 {
        assert(d =~= seq![c]);
        assert(d.drop_last() =~= Seq::<char>::empty());
        assert(d.last() == c);
        assert(digits_value(d.drop_last()) == Ok::<u32, NumberError>(0u32));
        assert(digits_value(d) == Ok::<u32, NumberError>(n));
    } else {
        let q = (n / 10) as u32;
        lemma_digits_value_decimal(q);
        assert(d.drop_last() =~= decimal(q as nat));
        assert(d.last() == c);
        assert(q * 10 + n % 10 == n);
        assert(digits_value(d.drop_last()) == Ok::<u32, NumberError>(q));
        assert(digits_value(d) == Ok::<u32, NumberError>(n));
    }
}

/// The decimal numeral of a number never starts with a sign.
proof fn lemma_decimal_first_is_digit(n: nat)
    ensures
        decimal(n).len() >= 1,
        is_ascii_digit(decimal(n)[0]),
    decreases n,
{
    if n >= 10 {
        lemma_decimal_first_is_digit(n / 10);
    }
}

/// A leading zero does not change the value of a digit run.
pub proof fn lemma_leading_zero(s: Seq<char>)
    ensures
        digits_value(seq!['0'] + s) == digits_value(s),
    decreases s.len(),
{
    if s.len() == 0 {
        assert(s =~= Seq::<char>::empty());
        assert((seq!['0'] + s) =~= seq!['0']);
        assert(seq!['0'].drop_last() =~= Seq::<char>::empty());
        assert(digits_value(Seq::<char>::empty()) == Ok::<u32, NumberError>(0u32));
        assert(is_ascii_digit('0'));
        assert(digit_value('0') == 0);
        assert(digits_value(seq!['0']) == Ok::<u32, NumberError>(0u32));
    } else {
        lemma_leading_zero(s.drop_last());
        assert((seq!['0'] + s).drop_last() =~= seq!['0'] + s.drop_last());
        assert((seq!['0'] + s).last() == s.last());
    }
}

/// Every character of a decimal numeral is a digit.
pub proof fn lemma_decimal_digits(n: nat)
    ensures
        forall|i: int| 0 <= i < decimal(n).len() ==> is_ascii_digit(#[trigger] decimal(n)[i]),
    decreases n,
{
    if n >= 10 {
        lemma_decimal_digits(n / 10);
        let d = decimal(n);
        assert forall|i: int| 0 <= i < d.len() implies is_ascii_digit(#[trigger] d[i]) by {
            if i < d.len() - 1 {
                assert(d[i] == decimal(n / 10)[i]);
            } else {
                let c = ((n % 10) + ('0' as int)) as char;
                assert(c as int == (n % 10) + 48);
            }
        }
    } else {
        let c = (n + ('0' as int)) as char;
        assert(c as int == n + 48);
    }
}

/// Text without the separator splits into itself alone.
pub proof fn lemma_split_on_without_sep(s: Seq<char>, sep: char)
    requires
        forall|i: int| 0 <= i < s.len() ==> s[i] != sep,
    ensures
        split_on(s, sep) == seq![s],
    decreases s.len(),
{
    if s.len() > 0 {
        lemma_split_on_without_sep(s.drop_last(), sep);
        assert(s.drop_last().push(s.last()) =~= s);
        assert(seq![s.drop_last()].update(0, s.drop_last().push(s.last())) =~= seq![s]);
    } else {
        assert(s =~= Seq::<char>::empty());
    }
}

/// Two separator-free parts joined by one separator split back into them.
pub proof fn lemma_split_on_pair(a: Seq<char>, b: Seq<char>, sep: char)
    requires
        forall|i: int| 0 <= i < a.len() ==> a[i] != sep,
        forall|i: int| 0 <= i < b.len() ==> b[i] != sep,
    ensures
        split_on(a + seq![sep] + b, sep) == seq![a, b],
    decreases b.len(),
{
    let whole = a + seq![sep] + b;
    if b.len() == 0 {
        assert(whole.drop_last() =~= a);
        assert(whole.last() == sep);
        lemma_split_on_without_sep(a, sep);
        assert(b =~= Seq::<char>::empty());
        assert(seq![a].push(Seq::<char>::empty()) =~= seq![a, b]);
    } else {
        let b2 = b.drop_last();
        lemma_split_on_pair(a, b2, sep);
        assert(whole.drop_last() =~= a + seq![sep] + b2);
        assert(whole.last() == b.last());
        assert(b2.push(b.last()) =~= b);
        assert(seq![a, b2].update(1, b2.push(b.last())) =~= seq![a, b]);
    }
}

/// `str::parse::<u32>` accepts the canonical decimal numeral of every `u32`.
pub proof fn lemma_parse_decimal(n: u32)
    ensures
        parse_u32_spec(decimal(n as nat)) == Ok::<u32, NumberError>(n),
{
    lemma_digits_value_decimal(n);
    lemma_decimal_first_is_digit(n as nat);
}

// ---------------------------------------------------------------------------
// Executable functions
// ---------------------------------------------------------------------------

/// The characters of `s`, in order.
pub fn chars_of(s: &str) -> (v: Vec<char>)
    ensures
        v@ == s@,
{
    let mut v: Vec<char> = Vec::new();
    for c in it: s.chars()
        invariant
            it.seq() == s@,
            v@ == it.seq().take(it.index() as int),
    {
        v.push(c);
    }
    v
}

/// The decimal numeral of `n`.
pub fn decimal_chars(n: u32) -> (v: Vec<char>)
    ensures
        v@ == decimal(n as nat),
    decreases n,
{
    let digit: u8 = (n % 10) as u8 + 48;
    let c = digit as char;
    assert(c == ((n % 10) as nat + ('0' as int)) as char);
    if n < 10 {
        let v = vec![c];
        assert(v@ =~= decimal(n as nat));
        v
    } else {
        let mut v = decimal_chars(n / 10);
        v.push(c);
        v
    }
}

/// `v` preceded by zeros up to `width` characters.
pub fn zero_pad(v: Vec<char>, width: usize) -> (r: Vec<char>)
    ensures
        r@ == zero_padded(v@, width as nat),
{
    if v.len() >= width {
        return v;
    }
    let mut r: Vec<char> = Vec::new();
    let fill = width - v.len();
    let mut i: usize = 0;
    while i < fill
        invariant
            i <= fill,
            r@ == Seq::new(i as nat, |k: int| '0'),
        decreases fill - i,
    {
        r.push('0');
        i += 1;
        assert(r@ =~= Seq::new(i as nat, |k: int| '0'));
    }
    let mut j: usize = 0;
    let ghost zeros = r@;
    while j < v.len()
        invariant
            j <= v.len(),
            r@ == zeros + v@.take(j as int),
        decreases v.len() - j,
    {
        r.push(v[j]);
        j += 1;
        assert(r@ =~= zeros + v@.take(j as int));
    }
    assert(v@.take(v.len() as int) =~= v@);
    r
}

/// Appends `c` to `s` (std's `String::push`).
#[verifier::external_body]
fn push_char(s: &mut String, c: char)
    ensures
        final(s)@ == old(s)@.push(c),
{
    s.push(c);
}

/// The string made of the characters `v[from..to]`.
pub fn string_of_range(v: &Vec<char>, from: usize, to: usize) -> (s: String)
    requires
        from <= to <= v.len(),
    ensures
        s@ == v@.subrange(from as int, to as int),
{
    let mut s = String::new();
    let mut i: usize = from;
    while i < to
        invariant
            from <= i <= to <= v.len(),
            s@ == v@.subrange(from as int, i as int),
        decreases to - i,
    {
        push_char(&mut s, v[i]);
        i += 1;
        assert(s@ =~= v@.subrange(from as int, i as int));
    }
    s
}

/// The string made of the characters of `v`.
pub fn string_of(v: &Vec<char>) -> (s: String)
    ensures
        s@ == v@,
{
    let s = string_of_range(v, 0, v.len());
    assert(v@.subrange(0, v@.len() as int) =~= v@);
    s
}

/// `a` and `b` hold the same characters.
pub fn same_chars(a: &Vec<char>, b: &Vec<char>) -> (r: bool)
    ensures
        r == (a@ == b@),
{
    if a.len() != b.len() {
        return false;
    }
    let mut i: usize = 0;
    while i < a.len()
        invariant
            i <= a.len() == b.len(),
            forall|j: int| 0 <= j < i ==> a@[j] == b@[j],
        decreases a.len() - i,
    {
        if a[i] != b[i] {
            return false;
        }
        i += 1;
    }
    assert(a@ =~= b@);
    true
}

/// `a` and `b` are the same text.
pub fn same_text(a: &str, b: &str) -> (r: bool)
    ensures
        r == (a@ == b@),
{
    let va = chars_of(a);
    let vb = chars_of(b);
    same_chars(&va, &vb)
}

/// ASCII lowercase of `c`.
pub fn lower(c: char) -> (r: char)
    ensures
        r == lower_char(c),
{
    if 'A' <= c && c <= 'Z' {
        let code: u32 = c as u32;
        let low: u8 = (code + 32) as u8;
        assert(low as int == c as int + 32);
        low as char
    } else {
        c
    }
}

/// The ASCII lowercase of `s` ends with `suffix` (given in lowercase).
pub fn ends_with_ignore_ascii_case(s: &Vec<char>, suffix: &Vec<char>) -> (r: bool)
    ensures
        r == has_suffix(ascii_lowercase(s@), suffix@),
{
    if suffix.len() > s.len() {
        return false;
    }
    let start = s.len() - suffix.len();
    let ghost low = ascii_lowercase(s@);
    let mut i: usize = 0;
    while i < suffix.len()
        invariant
            start + suffix.len() == s.len(),
            i <= suffix.len(),
            low == ascii_lowercase(s@),
            forall|j: int| 0 <= j < i ==> low[start + j] == suffix@[j],
        decreases suffix.len() - i,
    {
        if lower(s[start + i]) != suffix[i] {
            assert(low.subrange(start as int, s.len() as int)[i as int] != suffix@[i as int]);
            return false;
        }
        i += 1;
    }
    assert(low.subrange(start as int, s.len() as int) =~= suffix@);
    true
}

/// The ASCII lowercase of `s` equals `lit`.
pub fn lowercase_equals(s: &Vec<char>, lit: &Vec<char>) -> (r: bool)
    ensures
        r == (ascii_lowercase(s@) == lit@),
{
    let ghost low = ascii_lowercase(s@);
    if s.len() != lit.len() {
        assert(low.len() != lit@.len());
        return false;
    }
    let mut i: usize = 0;
    while i < s.len()
        invariant
            i <= s.len() == lit.len(),
            low == ascii_lowercase(s@),
            forall|j: int| 0 <= j < i ==> low[j] == lit@[j],
        decreases s.len() - i,
    {
        if lower(s[i]) != lit[i] {
            assert(low[i as int] != lit@[i as int]);
            return false;
        }
        i += 1;
    }
    assert(low =~= lit@);
    true
}

/// `c` has the Unicode `White_Space` property.
pub fn white_space(c: char) -> (r: bool)
    ensures
        r == is_white_space(c),
{
    ('\u{9}' <= c && c <= '\u{d}') || c == ' ' || c == '\u{85}' || c == '\u{a0}' || c
        == '\u{1680}' || ('\u{2000}' <= c && c <= '\u{200a}') || c == '\u{2028}' || c
        == '\u{2029}' || c == '\u{202f}' || c == '\u{205f}' || c == '\u{3000}'
}

/// `s.trim().is_empty()`.
pub fn blank(s: &str) -> (r: bool)
    ensures
        r == is_blank(s@),
{
    let v = chars_of(s);
    let mut i: usize = 0;
    while i < v.len()
        invariant
            v@ == s@,
            i <= v.len(),
            forall|j: int| 0 <= j < i ==> is_white_space(#[trigger] v@[j]),
        decreases v.len() - i,
    {
        if !white_space(v[i]) {
            return false;
        }
        i += 1;
    }
    true
}

/// The pieces of `s` between occurrences of `sep` (`str::split`).
pub fn split_char(s: &Vec<char>, sep: char) -> (pieces: Vec<Vec<char>>)
    ensures
        pieces@.len() == split_on(s@, sep).len(),
        forall|k: int| 0 <= k < pieces@.len() ==> #[trigger] pieces@[k]@ == split_on(s@, sep)[k],
{
    let mut pieces: Vec<Vec<char>> = Vec::new();
    pieces.push(Vec::new());
    let mut i: usize = 0;
    assert(s@.take(0) =~= Seq::<char>::empty());
    while i < s.len()
        invariant
            i <= s.len(),
            pieces@.len() == split_on(s@.take(i as int), sep).len(),
            pieces@.len() >= 1,
            forall|k: int|
                0 <= k < pieces@.len() ==> #[trigger] pieces@[k]@ == split_on(
                    s@.take(i as int),
                    sep,
                )[k],
        decreases s.len() - i,
    {
        let ghost before = s@.take(i as int);
        let ghost old_pieces = pieces@;
        assert(s@.take(i + 1).drop_last() =~= before);
        assert(s@.take(i + 1).last() == s@[i as int]);
        if s[i] == sep {
            pieces.push(Vec::new());
        } else {
            let last = pieces.len() - 1;
            let mut piece = pieces.pop().unwrap();
            piece.push(s[i]);
            pieces.push(piece);
            assert forall|k: int| 0 <= k < pieces@.len() implies #[trigger] pieces@[k]@
                == split_on(s@.take(i + 1), sep)[k] by {
                if k < last {
                    assert(pieces@[k] == old_pieces[k]);
                }
            }
        }
        i += 1;
    }
    assert(s@.take(s.len() as int) =~= s@);
    pieces
}

/// The words of `s` (`str::split_whitespace`).
pub fn split_words(s: &Vec<char>) -> (ws: Vec<Vec<char>>)
    ensures
        ws@.len() == words(s@).len(),
        forall|k: int| 0 <= k < ws@.len() ==> #[trigger] ws@[k]@ == words(s@)[k],
{
    let mut ws: Vec<Vec<char>> = Vec::new();
    let mut i: usize = 0;
    assert(s@.take(0) =~= Seq::<char>::empty());
    while i < s.len()
        invariant
            i <= s.len(),
            ws@.len() == words(s@.take(i as int)).len(),
            forall|k: int|
                0 <= k < ws@.len() ==> #[trigger] ws@[k]@ == words(s@.take(i as int))[k],
        decreases s.len() - i,
    {
        let ghost before = s@.take(i as int);
        let ghost old_ws = ws@;
        let ghost now = s@.take(i + 1);
        assert(now.drop_last() =~= before);
        assert(now.last() == s@[i as int]);
        let c = s[i];
        if white_space(c) {
        } else if i >= 1 && !white_space(s[i - 1]) {
            assert(now[now.len() - 2] == s@[i - 1]);
            assert(before.last() == s@[i - 1]);
            proof {
                lemma_words_nonempty(before);
            }
            let last = ws.len() - 1;
            let mut w = ws.pop().unwrap();
            w.push(c);
            ws.push(w);
            assert forall|k: int| 0 <= k < ws@.len() implies #[trigger] ws@[k]@ == words(
                now,
            )[k] by {
                if k < last {
                    assert(ws@[k] == old_ws[k]);
                }
            }
        } else {
            if i >= 1 {
                assert(now[now.len() - 2] == s@[i - 1]);
            }
            let mut w: Vec<char> = Vec::new();
            w.push(c);
            assert(w@ =~= seq![c]);
            ws.push(w);
            assert forall|k: int| 0 <= k < ws@.len() implies #[trigger] ws@[k]@ == words(
                now,
            )[k] by {
                if k < old_ws.len() {
                    assert(ws@[k] == old_ws[k]);
                }
            }
        }
        i += 1;
    }
    assert(s@.take(s.len() as int) =~= s@);
    ws
}

/// The value of the digit run `d`, as `digits_value` describes it.
fn parse_digits(d: &Vec<char>, from: usize) -> (r: Result<u32, NumberError>)
    requires
        from <= d.len(),
    ensures
        r == digits_value(d@.subrange(from as int, d@.len() as int)),
{
    let ghost ds = d@.subrange(from as int, d@.len() as int);
    let mut value: u32 = 0;
    let mut i: usize = from;
    assert(ds.take(0) =~= Seq::<char>::empty());
    while i < d.len()
        invariant
            from <= i <= d.len(),
            ds == d@.subrange(from as int, d@.len() as int),
            digits_value(ds.take(i - from)) == Ok::<u32, NumberError>(value),
        decreases d.len() - i,
    {
        let ghost prefix = ds.take(i - from + 1);
        assert(prefix.drop_last() =~= ds.take(i - from));
        assert(prefix.last() == d@[i as int]);
        let c = d[i];
        if !('0' <= c && c <= '9') {
            // the first failure decides the result of the whole run
            proof {
                lemma_digits_value_err_extends(ds, (i - from + 1) as int);
            }
            return Err(NumberError::InvalidDigit);
        }
        let digit: u32 = (c as u32) - ('0' as u32);
        if value > 429496729 || (value == 429496729 && digit > 5) {
            proof {
                lemma_digits_value_err_extends(ds, (i - from + 1) as int);
            }
            return Err(NumberError::Overflow);
        }
        value = value * 10 + digit;
        i += 1;
    }
    assert(ds.take(d.len() - from) =~= ds);
    Ok(value)
}

/// Once a prefix of a digit run fails, the whole run fails the same way.
proof fn lemma_digits_value_err_extends(ds: Seq<char>, n: int)
    requires
        0 <= n <= ds.len(),
        digits_value(ds.take(n)) is Err,
    ensures
        digits_value(ds) == digits_value(ds.take(n)),
    decreases ds.len() - n,
{
    if n < ds.len() {
        assert(ds.take(n + 1).drop_last() =~= ds.take(n));
        lemma_digits_value_err_extends(ds, n + 1);
    } else {
        assert(ds.take(n) =~= ds);
    }
}

/// `str::parse::<u32>` on the characters `s`.
pub fn parse_u32(s: &Vec<char>) -> (r: Result<u32, NumberError>)
    ensures
        r == parse_u32_spec(s@),
{
    if s.len() == 0 {
        Err(NumberError::Empty)
    } else if s.len() == 1 && (s[0] == '+' || s[0] == '-') {
        Err(NumberError::InvalidDigit)
    } else if s[0] == '+' {
        let r = parse_digits(s, 1);
        assert(s@.subrange(1, s@.len() as int) =~= s@.drop_first());
        r
    } else {
        let r = parse_digits(s, 0);
        assert(s@.subrange(0, s@.len() as int) =~= s@);
        r
    }
}

} // verus!
