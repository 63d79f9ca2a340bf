//! Text scanning and number parsing helpers shared by the parser modules.

use vstd::prelude::*;

verus! {

/// First index `i >= from` with `s[i] == x`, or `s.len()` if there is none.
pub open spec fn seq_index_of_from<T>(s: Seq<T>, from: int, x: T) -> int
    decreases s.len() - from,
{
    if from < 0 {
        0
    } else if from >= s.len() {
        s.len() as int
    } else if s[from] == x {
        from
    } else {
        seq_index_of_from(s, from + 1, x)
    }
}

pub proof fn lemma_seq_index_of_from_props<T>(s: Seq<T>, from: int, x: T)
    requires
        0 <= from <= s.len(),
    ensures
        from <= seq_index_of_from(s, from, x) <= s.len(),
        seq_index_of_from(s, from, x) < s.len() ==> s[seq_index_of_from(s, from, x)] == x,
        forall|i: int| from <= i < seq_index_of_from(s, from, x) ==> s[i] != x,
    decreases s.len() - from,
{
    if from < s.len() && s[from] != x {
        lemma_seq_index_of_from_props(s, from + 1, x);
    }
}

/// Appends one character to a string.
/// Relies on `String::push`: appends the character to the end of the string.
#[verifier::external_body]
pub fn push_char(s: &mut String, c: char)
    ensures
        final(s)@ == old(s)@.push(c),
{
    s.push(c);
}

/// ASCII whitespace, the only whitespace the module descriptions use.
pub open spec fn is_space(c: char) -> bool {
    c == ' ' || c == '\t' || c == '\n' || c == '\r'
}

/// Tests a character for ASCII whitespace.
pub fn is_space_char(c: char) -> (r: bool)
    ensures
        r == is_space(c),
{
    c == ' ' || c == '\t' || c == '\n' || c == '\r'
}

pub open spec fn is_dec_digit(c: char) -> bool {
    '0' <= c && c <= '9'
}

pub open spec fn dec_val(c: char) -> int {
    c as int - '0' as int
}

pub open spec fn all_dec_digits(s: Seq<char>) -> bool {
    forall|i: int| 0 <= i < s.len() ==> is_dec_digit(#[trigger] s[i])
}

/// Numeric value of a most-significant-first decimal digit string.
pub open spec fn dec_value(s: Seq<char>) -> int
    decreases s.len(),
{
    if s.len() == 0 {
        0
    } else {
        dec_value(s.drop_last()) * 10 + dec_val(s.last())
    }
}

pub proof fn lemma_dec_value_nonneg(s: Seq<char>)
    requires
        all_dec_digits(s),
    ensures
        dec_value(s) >= 0,
    decreases s.len(),
{
    if s.len() > 0 {
        assert(all_dec_digits(s.drop_last()));
        lemma_dec_value_nonneg(s.drop_last());
    }
}

pub open spec fn is_hex_digit(c: char) -> bool {
    ('0' <= c && c <= '9') || ('a' <= c && c <= 'f') || ('A' <= c && c <= 'F')
}

pub open spec fn hex_val(c: char) -> int {
    if '0' <= c && c <= '9' {
        c as int - '0' as int
    } else if 'a' <= c && c <= 'f' {
        c as int - 'a' as int + 10
    } else {
        c as int - 'A' as int + 10
    }
}

pub open spec fn all_hex_digits(s: Seq<char>) -> bool {
    forall|i: int| 0 <= i < s.len() ==> is_hex_digit(#[trigger] s[i])
}

/// Numeric value of a most-significant-first hexadecimal digit string.
pub open spec fn hex_value(s: Seq<char>) -> int
    decreases s.len(),
{
    if s.len() == 0 {
        0
    } else {
        hex_value(s.drop_last()) * 16 + hex_val(s.last())
    }
}

pub proof fn lemma_hex_value_nonneg(s: Seq<char>)
    requires
        all_hex_digits(s),
    ensures
        hex_value(s) >= 0,
    decreases s.len(),
{
    if s.len() > 0 {
        assert(all_hex_digits(s.drop_last()));
        lemma_hex_value_nonneg(s.drop_last());
    }
}

/// Drops one leading `'+'` sign, as Rust's integer parsers do.
pub open spec fn strip_plus(s: Seq<char>) -> Seq<char> {
    if s.len() > 0 && s[0] == '+' {
        s.skip(1)
    } else {
        s
    }
}

/// Whether a decimal string parses to a value within `max`, and that value.
pub open spec fn spec_parse_dec(s: Seq<char>, max: int) -> Option<int> {
    let d = strip_plus(s);
    if d.len() > 0 && all_dec_digits(d) && dec_value(d) <= max {
        Some(dec_value(d))
    } else {
        None
    }
}

/// Whether a hexadecimal string parses to a value within `max`, and that value.
pub open spec fn spec_parse_hex(s: Seq<char>, max: int) -> Option<int> {
    let d = strip_plus(s);
    if d.len() > 0 && all_hex_digits(d) && hex_value(d) <= max {
        Some(hex_value(d))
    } else {
        None
    }
}

pub open spec fn starts_with(s: Seq<char>, prefix: Seq<char>) -> bool {
    prefix.len() <= s.len() && s.subrange(0, prefix.len() as int) == prefix
}

/// Decimal rendering of a non-negative integer, most significant digit first.
pub open spec fn spec_dec_digits(n: nat) -> Seq<char>
    decreases n,
{
    let last = (('0' as u8 + (n % 10) as u8) as char);
    if n < 10 {
        seq![last]
    } else {
        spec_dec_digits(n / 10).push(last)
    }
}

/// Finds the first occurrence of `c` in `s` at or after `from`.
pub fn find_char_from(s: &str, from: usize, c: char) -> (r: usize)
    requires
        from <= s@.len(),
    ensures
        r == seq_index_of_from(s@, from as int, c),
{
    proof {
        lemma_seq_index_of_from_props(s@, from as int, c);
    }
    let len = s.unicode_len();
    let mut i = from;
    while i < len
        invariant
            from <= i <= len,
            len == s@.len(),
            seq_index_of_from(s@, from as int, c) == seq_index_of_from(s@, i as int, c),
        decreases len - i,
    {
        if s.get_char(i) == c {
            return i;
        }
        i = i + 1;
    }
    i
}

/// Drops every leading `"0x"` prefix, as repeated prefix trimming does.
pub open spec fn strip_0x(s: Seq<char>) -> Seq<char>
    decreases s.len(),
{
    if s.len() >= 2 && s[0] == '0' && s[1] == 'x' {
        strip_0x(s.skip(2))
    } else {
        s
    }
}

/// Removes trailing ASCII whitespace.
pub open spec fn trim_end_ws(s: Seq<char>) -> Seq<char>
    decreases s.len(),
{
    if s.len() > 0 && is_space(s.last()) {
        trim_end_ws(s.drop_last())
    } else {
        s
    }
}

/// Whitespace-splitting, processing one character at a time while carrying
/// the token under construction and the tokens already produced.
pub open spec fn split_ws_rec(s: Seq<char>, i: int, cur: Seq<char>, acc: Seq<Seq<char>>) -> Seq<
    Seq<char>,
>
    decreases s.len() - i,
{
    if i < 0 {
        acc
    } else if i >= s.len() {
        if cur.len() > 0 {
            acc.push(cur)
        } else {
            acc
        }
    } else if is_space(s[i]) {
        if cur.len() > 0 {
            split_ws_rec(s, i + 1, Seq::empty(), acc.push(cur))
        } else {
            split_ws_rec(s, i + 1, cur, acc)
        }
    } else {
        split_ws_rec(s, i + 1, cur.push(s[i]), acc)
    }
}

/// The whitespace-separated tokens of `s`, in order.
pub open spec fn split_ws(s: Seq<char>) -> Seq<Seq<char>> {
    split_ws_rec(s, 0, Seq::empty(), Seq::empty())
}

/// Equality of two string slices, decided character by character.
pub fn str_eq(a: &str, b: &str) -> (r: bool)
    ensures
        r == (a@ == b@),
{
    let la = a.unicode_len();
    let lb = b.unicode_len();
    if la != lb {
        proof {
            if a@ == b@ {
                assert(a@.len() == b@.len());
            }
        }
        return false;
    }
    let mut i: usize = 0;
    while i < la
        invariant
            i <= la,
            la == a@.len(),
            la == b@.len(),
            forall|j: int| 0 <= j < i ==> a@[j] == b@[j],
        decreases la - i,
    {
        if a.get_char(i) != b.get_char(i) {
            proof {
                if a@ == b@ {
                    assert(a@[i as int] == b@[i as int]);
                }
            }
            return false;
        }
        i = i + 1;
    }
    proof {
        assert(a@ =~= b@);
    }
    true
}

/// Whether `s` begins with `prefix`.
pub fn str_starts_with(s: &str, prefix: &str) -> (r: bool)
    ensures
        r == starts_with(s@, prefix@),
{
    let ls = s.unicode_len();
    let lp = prefix.unicode_len();
    if lp > ls {
        return false;
    }
    let mut i: usize = 0;
    while i < lp
        invariant
            i <= lp,
            lp <= ls,
            ls == s@.len(),
            lp == prefix@.len(),
            forall|j: int| 0 <= j < i ==> s@[j] == prefix@[j],
        decreases lp - i,
    {
        if s.get_char(i) != prefix.get_char(i) {
            proof {
                if starts_with(s@, prefix@) {
                    assert(s@.subrange(0, lp as int)[i as int] == prefix@[i as int]);
                }
            }
            return false;
        }
        i = i + 1;
    }
    proof {
        assert(s@.subrange(0, lp as int) =~= prefix@);
    }
    true
}

/// Parses a decimal byte as Rust's `u8` parser would: an optional plus sign,
/// then decimal digits whose value must fit in a byte.
pub fn parse_dec_u8(s: &str) -> (r: Option<u8>)
    ensures
        match r {
            Some(v) => spec_parse_dec(s@, 255) == Some(v as int),
            None => spec_parse_dec(s@, 255) is None,
        },
{
    let len = s.unicode_len();
    let start: usize = if len > 0 && s.get_char(0) == '+' {
        1
    } else {
        0
    };
    let ghost d = strip_plus(s@);
    proof {
        assert(d =~= s@.skip(start as int));
    }
    if start >= len {
        return None;
    }
    let mut acc: u32 = 0;
    let mut overflow = false;
    let mut i: usize = start;
    while i < len
        invariant
            start <= i <= len,
            len == s@.len(),
            d == s@.skip(start as int),
            start <= 1,
            all_dec_digits(d.take(i - start)),
            overflow <==> dec_value(d.take(i - start)) > 255,
            !overflow ==> acc == dec_value(d.take(i - start)) && acc <= 255,
        decreases len - i,
    {
        let c = s.get_char(i);
        let cu = c as u32;
        proof {
            assert(d.len() == s@.len() - start);
            assert(d[i - start] == s@[i as int]);
            assert(d.take(i - start + 1).drop_last() =~= d.take(i - start));
            assert(d.take(i - start + 1).last() == d[i - start]);
        }
        if !(48 <= cu && cu <= 57) {
            proof {
                assert(!is_dec_digit(d[i - start]));
            }
            return None;
        }
        let dv: u32 = cu - 48;
        proof {
            lemma_dec_value_nonneg(d.take(i - start));
        }
        if !overflow {
            acc = acc * 10 + dv;
            if acc > 255 {
                overflow = true;
            }
        }
        i = i + 1;
    }
    proof {
        assert(d.take(i - start) =~= d);
    }
    if overflow {
        None
    } else {
        Some(acc as u8)
    }
}

/// Parses a decimal `usize` as Rust's parser would: an optional plus sign,
/// then decimal digits whose value must fit in the type.
pub fn parse_dec_usize(s: &str) -> (r: Option<usize>)
    ensures
        match r {
            Some(v) => spec_parse_dec(s@, usize::MAX as int) == Some(v as int),
            None => spec_parse_dec(s@, usize::MAX as int) is None,
        },
{
    let len = s.unicode_len();
    let start: usize = if len > 0 && s.get_char(0) == '+' {
        1
    } else {
        0
    };
    let ghost d = strip_plus(s@);
    proof {
        assert(d =~= s@.skip(start as int));
    }
    if start >= len {
        return None;
    }
    let mut acc: u128 = 0;
    let mut overflow = false;
    let mut i: usize = start;
    while i < len
        invariant
            start <= i <= len,
            all_dec_digits(d.take(i - start)),
            overflow <==> dec_value(d.take(i - start)) > usize::MAX as int,
            !overflow ==> acc == dec_value(d.take(i - start)) && acc <= usize::MAX as u128,
        decreases len - i,
    {
        let c = s.get_char(i);
        let cu = c as u32;
        proof {
            assert(d.len() == s@.len() - start);
            assert(d[i - start] == s@[i as int]);
            assert(d.take(i - start + 1).drop_last() =~= d.take(i - start));
            assert(d.take(i - start + 1).last() == d[i - start]);
        }
        if !(48 <= cu && cu <= 57) {
            proof {
                assert(!is_dec_digit(d[i - start]));
            }
            return None;
        }
        let dv: u128 = (cu - 48) as u128;
        proof {
            lemma_dec_value_nonneg(d.take(i - start));
        }
        if !overflow {
            acc = acc * 10 + dv;
            if acc > usize::MAX as u128 {
                overflow = true;
            }
        }
        i = i + 1;
    }
    proof {
        assert(d.take(i - start) =~= d);
    }
    if overflow {
        None
    } else {
        Some(acc as usize)
    }
}

/// Parses a hexadecimal `usize` as Rust's radix-16 parser would: an optional
/// plus sign, then hexadecimal digits whose value must fit in the type.
pub fn parse_hex_usize(s: &str) -> (r: Option<usize>)
    ensures
        match r {
            Some(v) => spec_parse_hex(s@, usize::MAX as int) == Some(v as int),
            None => spec_parse_hex(s@, usize::MAX as int) is None,
        },
{
    let len = s.unicode_len();
    let start: usize = if len > 0 && s.get_char(0) == '+' {
        1
    } else {
        0
    };
    let ghost d = strip_plus(s@);
    proof {
        assert(d =~= s@.skip(start as int));
    }
    if start >= len {
        return None;
    }
    let mut acc: u128 = 0;
    let mut overflow = false;
    let mut i: usize = start;
    while i < len
        invariant
            start <= i <= len,
            all_hex_digits(d.take(i - start)),
            overflow <==> hex_value(d.take(i - start)) > usize::MAX as int,
            !overflow ==> acc == hex_value(d.take(i - start)) && acc <= usize::MAX as u128,
        decreases len - i,
    {
        let c = s.get_char(i);
        let cu = c as u32;
        proof {
            assert(d.len() == s@.len() - start);
            assert(d[i - start] == s@[i as int]);
            assert(d.take(i - start + 1).drop_last() =~= d.take(i - start));
            assert(d.take(i - start + 1).last() == d[i - start]);
        }
        let dv: u128 = if 48 <= cu && cu <= 57 {
            (cu - 48) as u128
        } else if 97 <= cu && cu <= 102 {
            (cu - 87) as u128
        } else if 65 <= cu && cu <= 70 {
            (cu - 55) as u128
        } else {
            proof {
                assert(!is_hex_digit(d[i - start]));
            }
            return None;
        };
        proof {
            lemma_hex_value_nonneg(d.take(i - start));
            assert(dv == hex_val(d[i - start]));
        }
        if !overflow {
            acc = acc * 16 + dv;
            if acc > usize::MAX as u128 {
                overflow = true;
            }
        }
        i = i + 1;
    }
    proof {
        assert(d.take(i - start) =~= d);
    }
    if overflow {
        None
    } else {
        Some(acc as usize)
    }
}

/// Removes every leading `"0x"` prefix from a string slice.
pub fn strip_0x_prefixes(s: &str) -> (r: &str)
    ensures
        r@ == strip_0x(s@),
{
    let len = s.unicode_len();
    let mut start: usize = 0;
    proof {
        assert(s@.skip(0) =~= s@);
    }
    while len >= 2 && start <= len - 2 && s.get_char(start) == '0' && s.get_char(start + 1) == 'x'
        invariant
            start <= len,
            strip_0x(s@) == strip_0x(s@.skip(start as int)),
        decreases len - start,
    {
        proof {
            assert(s@.skip(start as int).skip(2) =~= s@.skip(start as int + 2));
        }
        start = start + 2;
    }
    proof {
        assert(strip_0x(s@.skip(start as int)) == s@.skip(start as int));
        assert(s@.subrange(start as int, len as int) =~= s@.skip(start as int));
    }
    s.substring_char(start, len)
}

/// Splits a string slice at ASCII whitespace into its tokens.
pub fn split_ws_str(s: &str) -> (r: Vec<String>)
    ensures
        r@.map_values(|t: String| t@) == split_ws(s@),
{
    let len = s.unicode_len();
    let mut acc: Vec<String> = Vec::new();
    let mut cur = String::new();
    let mut i: usize = 0;
    proof {
        assert(acc@.map_values(|t: String| t@) =~= Seq::<Seq<char>>::empty());
    }
    while i < len
        invariant
            i <= len,
            split_ws(s@) == split_ws_rec(
                s@,
                i as int,
                cur@,
                acc@.map_values(|t: String| t@),
            ),
        decreases len - i,
    {
        let c = s.get_char(i);
        if is_space_char(c) {
            if !cur.as_str().is_empty() {
                let ghost a0 = acc@.map_values(|t: String| t@);
                let ghost cur0 = cur@;
                acc.push(cur);
                cur = String::new();
                proof {
                    assert(acc@.map_values(|t: String| t@) =~= a0.push(cur0));
                }
            }
        } else {
            push_char(&mut cur, c);
        }
        i = i + 1;
    }
    if !cur.as_str().is_empty() {
        let ghost a0 = acc@.map_values(|t: String| t@);
        let ghost cur0 = cur@;
        acc.push(cur);
        proof {
            assert(acc@.map_values(|t: String| t@) =~= a0.push(cur0));
        }
    }
    acc
}

/// Copies a string slice with its trailing ASCII whitespace removed.
pub fn trim_end_ws_str(s: &str) -> (r: String)
    ensures
        r@ == trim_end_ws(s@),
{
    let len = s.unicode_len();
    let mut j = len;
    proof {
        assert(s@.take(len as int) =~= s@);
    }
    while j > 0 && is_space_char(s.get_char(j - 1))
        invariant
            j <= len,
            trim_end_ws(s@) == trim_end_ws(s@.take(j as int)),
        decreases j,
    {
        proof {
            assert(s@.take(j - 1) =~= s@.take(j as int).drop_last());
        }
        j = j - 1;
    }
    proof {
        assert(trim_end_ws(s@.take(j as int)) == s@.take(j as int));
        assert(s@.subrange(0, j as int) =~= s@.take(j as int));
    }
    let sub = s.substring_char(0, j);
    String::from_str(sub)
}

/// Renders a `usize` in decimal, most significant digit first.
pub fn usize_to_dec_string(n: usize) -> (r: String)
    ensures
        r@ == spec_dec_digits(n as nat),
{
    if n == 0 {
        proof {
            reveal_strlit("0");
        }
        return String::from_str("0");
    }
    let mut m = n;
    let mut digits: Vec<char> = Vec::new();
    while m > 0
        invariant
            m > 0 ==> spec_dec_digits(n as nat) == spec_dec_digits(m as nat) + digits@.reverse(),
            m == 0 ==> spec_dec_digits(n as nat) == digits@.reverse(),
        decreases m,
    {
        let ghost digits0 = digits@;
        let dch = (48 + (m % 10) as u8) as char;
        digits.push(dch);
        proof {
            assert(digits@.reverse() =~= seq![dch] + digits0.reverse());
            if m >= 10 {
                assert(spec_dec_digits(m as nat) == spec_dec_digits((m / 10) as nat).push(dch));
                assert(spec_dec_digits((m / 10) as nat) + (seq![dch] + digits0.reverse()) =~= (
                spec_dec_digits((m / 10) as nat).push(dch)) + digits0.reverse());
            } else {
                assert(spec_dec_digits(m as nat) == seq![dch]);
                assert(seq![dch] + digits0.reverse() =~= spec_dec_digits(m as nat)
                    + digits0.reverse());
            }
        }
        m = m / 10;
    }
    let dlen = digits.len();
    let mut r = String::new();
    let mut k = dlen;
    while k > 0
        invariant
            k <= dlen,
            dlen == digits@.len(),
            r@ == digits@.reverse().take(dlen - k),
        decreases k,
    {
        push_char(&mut r, digits[k - 1]);
        proof {
            assert(digits@.reverse()[dlen - k] == digits@[k - 1]);
            assert(digits@.reverse().take(dlen - k + 1) =~= digits@.reverse().take(dlen - k).push(
                digits@[k - 1],
            ));
        }
        k = k - 1;
    }
    proof {
        assert(digits@.reverse().take(dlen as int) =~= digits@.reverse());
    }
    r
}

/// First index `i >= from` with a non-ASCII byte `s[i] >= 128`, or `s.len()`.
pub open spec fn first_non_ascii_from(s: Seq<u8>, from: int) -> int
    decreases s.len() - from,
{
    if from < 0 {
        0
    } else if from >= s.len() {
        s.len() as int
    } else if s[from] >= 128 {
        from
    } else {
        first_non_ascii_from(s, from + 1)
    }
}

pub proof fn lemma_first_non_ascii_from_props(s: Seq<u8>, from: int)
    requires
        0 <= from <= s.len(),
    ensures
        from <= first_non_ascii_from(s, from) <= s.len(),
        first_non_ascii_from(s, from) < s.len() ==> s[first_non_ascii_from(s, from)] >= 128,
        forall|i: int| from <= i < first_non_ascii_from(s, from) ==> s[i] < 128,
    decreases s.len() - from,
{
    if from < s.len() && s[from] < 128 {
        lemma_first_non_ascii_from_props(s, from + 1);
    }
}

/// A position that holds `x`, with no earlier one from `from` on, is the
/// position the search finds.
pub proof fn lemma_seq_index_of_from_unique<T>(s: Seq<T>, from: int, x: T, p: int)
    requires
        0 <= from <= p < s.len(),
        s[p] == x,
        forall|i: int| from <= i < p ==> s[i] != x,
    ensures
        seq_index_of_from(s, from, x) == p,
    decreases p - from,
{
    if from < p {
        lemma_seq_index_of_from_unique(s, from + 1, x, p);
    }
}

/// A non-ASCII position, with only ASCII before it from `from` on, is the
/// position the search finds.
pub proof fn lemma_first_non_ascii_from_unique(s: Seq<u8>, from: int, p: int)
    requires
        0 <= from <= p < s.len(),
        s[p] >= 128,
        forall|i: int| from <= i < p ==> s[i] < 128,
    ensures
        first_non_ascii_from(s, from) == p,
    decreases p - from,
{
    if from < p {
        lemma_first_non_ascii_from_unique(s, from + 1, p);
    }
}

/// Finds the first occurrence of byte `b` in `data` at or after `from`.
pub fn find_byte_from(data: &[u8], from: usize, b: u8) -> (r: usize)
    requires
        from <= data@.len(),
    ensures
        r == seq_index_of_from(data@, from as int, b),
{
    proof {
        lemma_seq_index_of_from_props(data@, from as int, b);
    }
    let len = data.len();
    let mut i = from;
    while i < len
        invariant
            from <= i <= len,
            seq_index_of_from(data@, from as int, b) == seq_index_of_from(data@, i as int, b),
        decreases len - i,
    {
        if data[i] == b {
            return i;
        }
        i = i + 1;
    }
    i
}

/// Finds the first non-ASCII byte in `data` at or after `from`.
pub fn find_non_ascii_from(data: &[u8], from: usize) -> (r: usize)
    requires
        from <= data@.len(),
    ensures
        r == first_non_ascii_from(data@, from as int),
{
    proof {
        lemma_first_non_ascii_from_props(data@, from as int);
    }
    let len = data.len();
    let mut i = from;
    while i < len
        invariant
            from <= i <= len,
            first_non_ascii_from(data@, from as int) == first_non_ascii_from(data@, i as int),
        decreases len - i,
    {
        if data[i] >= 128 {
            return i;
        }
        i = i + 1;
    }
    i
}

} // verus!
