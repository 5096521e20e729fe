//! String helpers shared by the lexer, the parsers and the code generator.
//!
//! Text is modelled as `Seq<char>`; every helper has an exact functional
//! specification stated over that model.

use vstd::prelude::*;

verus! {

/// The whitespace characters that `trim` strips.
pub open spec fn is_space(c: char) -> bool {
    c == ' ' || c == '\t' || c == '\r' || c == '\n'
}

/// `trim` as a mathematical function: drop leading and trailing whitespace.
pub open spec fn spec_trim(s: Seq<char>) -> Seq<char>
    decreases s.len(),
{
    if s.len() == 0 {
        s
    } else if is_space(s[0]) {
        spec_trim(s.drop_first())
    } else if is_space(s[s.len() - 1]) {
        spec_trim(s.drop_last())
    } else {
        s
    }
}

/// Splitting on a separator string, leftmost-first and non-overlapping,
/// as `str::split` does: the result always has at least one element, and
/// the separators themselves are not part of any element.
pub open spec fn spec_split(s: Seq<char>, sep: Seq<char>) -> Seq<Seq<char>>
    decreases s.len(),
{
    if sep.len() == 0 || s.len() < sep.len() {
        seq![s]
    } else if s.subrange(0, sep.len() as int) == sep {
        seq![Seq::<char>::empty()] + spec_split(s.skip(sep.len() as int), sep)
    } else {
        let rest = spec_split(s.drop_first(), sep);
        seq![seq![s[0]] + rest.first()] + rest.drop_first()
    }
}

pub proof fn lemma_split_len(s: Seq<char>, sep: Seq<char>)
    ensures
        spec_split(s, sep).len() >= 1,
    decreases s.len(),
{
    if sep.len() == 0 || s.len() < sep.len() {
    } else if s.subrange(0, sep.len() as int) == sep {
        lemma_split_len(s.skip(sep.len() as int), sep);
    } else {
        lemma_split_len(s.drop_first(), sep);
    }
}

/// The views of a sequence of owned strings.
pub open spec fn str_views(v: Seq<String>) -> Seq<Seq<char>> {
    v.map_values(|x: String| x@)
}

/// Compares two string slices character by character.
pub fn eq_str(a: &str, b: &str) -> (r: bool)
    ensures
        r == (a@ == b@),
{
    let alen = a.unicode_len();
    let blen = b.unicode_len();
    if alen != blen {
        return false;
    }
    let mut i: usize = 0;
    while i < alen
        invariant
            0 <= i <= alen,
            alen == a@.len(),
            alen == b@.len(),
            forall|j: int| 0 <= j < i ==> a@[j] == b@[j],
        decreases alen - i,
    {
        if a.get_char(i) != b.get_char(i) {
            return false;
        }
        i += 1;
    }
    proof {
        assert(a@ =~= b@);
    }
    true
}

/// Does `s` start with `p` at position `at`?
pub fn matches_at(s: &str, at: usize, p: &str) -> (r: bool)
    requires
        at <= s@.len(),
    ensures
        r == (at + p@.len() <= s@.len() && s@.subrange(at as int, at + p@.len()) == p@),
{
    let slen = s.unicode_len();
    let plen = p.unicode_len();
    if slen - at < plen {
        return false;
    }
    let mut i: usize = 0;
    while i < plen
        invariant
            0 <= i <= plen,
            plen == p@.len(),
            slen == s@.len(),
            at + plen <= slen,
            forall|j: int| 0 <= j < i ==> s@[at + j] == p@[j],
        decreases plen - i,
    {
        if s.get_char(at + i) != p.get_char(i) {
            return false;
        }
        i += 1;
    }
    proof {
        assert(s@.subrange(at as int, at + p@.len()) =~= p@);
    }
    true
}

/// Does `s` start with `p`?
pub fn starts_with(s: &str, p: &str) -> (r: bool)
    ensures
        r == (p@.len() <= s@.len() && s@.subrange(0, p@.len() as int) == p@),
{
    matches_at(s, 0, p)
}

proof fn lemma_trim_all_spaces(s: Seq<char>)
    requires
        forall|j: int| 0 <= j < s.len() ==> is_space(s[j]),
    ensures
        spec_trim(s) == Seq::<char>::empty(),
    decreases s.len(),
{
    if s.len() == 0 {
        assert(spec_trim(s) =~= Seq::<char>::empty());
    } else {
        lemma_trim_all_spaces(s.drop_first());
    }
}

proof fn lemma_trim_inner(s: Seq<char>, from: int, to: int)
    requires
        0 <= from <= to <= s.len(),
        forall|j: int| 0 <= j < from ==> is_space(s[j]),
        forall|j: int| to <= j < s.len() ==> is_space(s[j]),
        from < to ==> !is_space(s[from]) && !is_space(s[to - 1]),
    ensures
        spec_trim(s) == s.subrange(from, to),
    decreases s.len(),
{
    if from == to {
        lemma_trim_all_spaces(s);
        assert(s.subrange(from, to) =~= Seq::<char>::empty());
    } else if is_space(s[0]) {
        let t = s.drop_first();
        lemma_trim_inner(t, from - 1, to - 1);
        assert(t.subrange(from - 1, to - 1) =~= s.subrange(from, to));
    } else if is_space(s[s.len() - 1]) {
        let t = s.drop_last();
        assert(to <= s.len() - 1);
        lemma_trim_inner(t, from, to);
        assert(t.subrange(from, to) =~= s.subrange(from, to));
    } else {
        assert(from == 0 && to == s.len());
        assert(spec_trim(s) =~= s.subrange(from, to));
    }
}

fn is_space_char(c: char) -> (r: bool)
    ensures
        r == is_space(c),
{
    c == ' ' || c == '\t' || c == '\r' || c == '\n'
}

/// `str::trim` over the whitespace set of `is_space`.
pub fn trim_str(s: &str) -> (r: &str)
    ensures
        r@ == spec_trim(s@),
{
    let len = s.unicode_len();
    let mut from: usize = 0;
    while from < len && is_space_char(s.get_char(from))
        invariant
            0 <= from <= len,
            len == s@.len(),
            forall|j: int| 0 <= j < from ==> is_space(s@[j]),
        decreases len - from,
    {
        from += 1;
    }
    let mut to: usize = len;
    while to > from && is_space_char(s.get_char(to - 1))
        invariant
            from <= to <= len,
            len == s@.len(),
            forall|j: int| to <= j < len ==> is_space(s@[j]),
        decreases to,
    {
        to -= 1;
    }
    proof {
        lemma_trim_inner(s@, from as int, to as int);
    }
    s.substring_char(from, to)
}

/// `str::split` with a non-empty separator, as owned segments.
pub fn split_str(s: &str, sep: &str) -> (r: Vec<String>)
    requires
        sep@.len() >= 1,
    ensures
        str_views(r@) == spec_split(s@, sep@),
    decreases s@.len(),
{
    let slen = s.unicode_len();
    let seplen = sep.unicode_len();
    if slen < seplen {
        let mut v: Vec<String> = Vec::new();
        v.push(String::from_str(s));
        proof {
            assert(str_views(v@) =~= spec_split(s@, sep@));
        }
        v
    } else if matches_at(s, 0, sep) {
        let rest = split_str(s.substring_char(seplen, slen), sep);
        let mut v: Vec<String> = Vec::new();
        v.push(String::new());
        let mut tail = rest;
        v.append(&mut tail);
        proof {
            assert(str_views(v@) =~= spec_split(s@, sep@));
        }
        v
    } else {
        let mut rest = split_str(s.substring_char(1, slen), sep);
        proof {
            lemma_split_len(s@.drop_first(), sep@);
        }
        let mut first = String::from_str(s.substring_char(0, 1));
        first.append(rest[0].as_str());
        let ghost old_rest = rest@;
        rest[0] = first;
        proof {
            assert(s@.subrange(0, 1) + str_views(old_rest).first() =~= seq![s@[0]]
                + spec_split(s@.drop_first(), sep@).first());
            assert(str_views(rest@) =~= spec_split(s@, sep@));
        }
        rest
    }
}

/// `str::replace`: every non-overlapping occurrence of `from`, found left to
/// right, replaced by `to`.
pub open spec fn spec_replace(s: Seq<char>, from: Seq<char>, to: Seq<char>) -> Seq<char>
    decreases s.len(),
{
    if from.len() == 0 || s.len() < from.len() {
        s
    } else if s.subrange(0, from.len() as int) == from {
        to + spec_replace(s.skip(from.len() as int), from, to)
    } else {
        seq![s[0]] + spec_replace(s.drop_first(), from, to)
    }
}

/// `str::replace` with a non-empty needle.
pub fn replace_str(s: &str, from: &str, to: &str) -> (r: String)
    requires
        from@.len() >= 1,
    ensures
        r@ == spec_replace(s@, from@, to@),
    decreases s@.len(),
{
    let slen = s.unicode_len();
    let fromlen = from.unicode_len();
    if slen < fromlen {
        String::from_str(s)
    } else if matches_at(s, 0, from) {
        let rest = replace_str(s.substring_char(fromlen, slen), from, to);
        let mut out = String::from_str(to);
        out.append(rest.as_str());
        proof {
            assert(out@ =~= spec_replace(s@, from@, to@));
        }
        out
    } else {
        let rest = replace_str(s.substring_char(1, slen), from, to);
        let mut out = String::from_str(s.substring_char(0, 1));
        out.append(rest.as_str());
        proof {
            assert(s@.subrange(0, 1) =~= seq![s@[0]]);
            assert(out@ =~= spec_replace(s@, from@, to@));
        }
        out
    }
}

/// A line with a trailing carriage return stripped.
pub open spec fn strip_cr(l: Seq<char>) -> Seq<char> {
    if l.len() > 0 && l.last() == '\r' {
        l.drop_last()
    } else {
        l
    }
}

/// `str::lines`: split on `\n`, drop a final empty segment, strip a trailing
/// `\r` from each line.
pub open spec fn spec_lines(s: Seq<char>) -> Seq<Seq<char>> {
    let parts = spec_split(s, "\n"@);
    let kept = if parts.len() > 0 && parts.last().len() == 0 {
        parts.drop_last()
    } else {
        parts
    };
    kept.map_values(|l: Seq<char>| strip_cr(l))
}

/// `str::lines` as owned lines.
pub fn split_lines(s: &str) -> (r: Vec<String>)
    ensures
        str_views(r@) == spec_lines(s@),
{
    proof {
        reveal_strlit("\n");
    }
    let mut parts = split_str(s, "\n");
    proof {
        lemma_split_len(s@, "\n"@);
    }
    let last_empty = parts[parts.len() - 1].as_str().unicode_len() == 0;
    if last_empty {
        parts.pop();
    }
    let ghost kept = if spec_split(s@, "\n"@).last().len() == 0 {
        spec_split(s@, "\n"@).drop_last()
    } else {
        spec_split(s@, "\n"@)
    };
    proof {
        assert(str_views(parts@) =~= kept);
    }
    let mut out: Vec<String> = Vec::new();
    let mut i: usize = 0;
    while i < parts.len()
        invariant
            0 <= i <= parts.len(),
            str_views(parts@) == kept,
            out@.len() == i,
            forall|j: int| 0 <= j < i ==> (#[trigger] out@[j])@ == strip_cr(kept[j]),
        decreases parts.len() - i,
    {
        let line = &parts[i];
        let n = line.as_str().unicode_len();
        if n > 0 && line.as_str().get_char(n - 1) == '\r' {
            let cut = line.as_str().substring_char(0, n - 1);
            proof {
                assert(cut@ =~= kept[i as int].drop_last());
            }
            out.push(String::from_str(cut));
        } else {
            out.push(line.clone());
        }
        i += 1;
    }
    proof {
        assert(str_views(out@) =~= spec_lines(s@));
    }
    out
}

/// The leftmost position where `sep` occurs in `s`, if any.
pub open spec fn find_sub(s: Seq<char>, sep: Seq<char>) -> Option<int>
    decreases s.len(),
{
    if sep.len() == 0 || s.len() < sep.len() {
        None
    } else if s.subrange(0, sep.len() as int) == sep {
        Some(0)
    } else {
        match find_sub(s.drop_first(), sep) {
            None => None,
            Some(i) => Some(i + 1),
        }
    }
}

proof fn lemma_find_sub_found(s: Seq<char>, sep: Seq<char>, i: int)
    requires
        sep.len() >= 1,
        0 <= i,
        i + sep.len() <= s.len(),
        s.subrange(i, i + sep.len()) == sep,
        forall|j: int| 0 <= j < i ==> #[trigger] s.subrange(j, j + sep.len()) != sep,
    ensures
        find_sub(s, sep) == Some(i),
    decreases i,
{
    if i > 0 {
        let z: int = 0;
        assert(s.subrange(z, z + sep.len()) != sep);
        assert(s.subrange(0, sep.len() as int) != sep);
        let t = s.drop_first();
        assert(t.subrange(i - 1, i - 1 + sep.len()) =~= s.subrange(i, i + sep.len()));
        assert forall|j: int| 0 <= j < i - 1 implies #[trigger] t.subrange(j, j + sep.len())
            != sep by {
            assert(t.subrange(j, j + sep.len()) =~= s.subrange(j + 1, j + 1 + sep.len()));
        }
        lemma_find_sub_found(t, sep, i - 1);
    }
}

proof fn lemma_find_sub_absent(s: Seq<char>, sep: Seq<char>)
    requires
        sep.len() >= 1,
        forall|j: int|
            0 <= j && j + sep.len() <= s.len() ==> #[trigger] s.subrange(j, j + sep.len()) != sep,
    ensures
        find_sub(s, sep) is None,
    decreases s.len(),
{
    if s.len() >= sep.len() {
        let z: int = 0;
        assert(s.subrange(z, z + sep.len()) != sep);
        assert(s.subrange(0, sep.len() as int) != sep);
        let t = s.drop_first();
        assert forall|j: int| 0 <= j && j + sep.len() <= t.len() implies #[trigger] t.subrange(
            j,
            j + sep.len(),
        ) != sep by {
            assert(t.subrange(j, j + sep.len()) =~= s.subrange(j + 1, j + 1 + sep.len()));
        }
        lemma_find_sub_absent(t, sep);
    }
}

/// Finds the leftmost occurrence of `sep` in `s`.
pub fn find_first(s: &str, sep: &str) -> (r: Option<usize>)
    requires
        sep@.len() >= 1,
    ensures
        (match r {
            Some(i) => find_sub(s@, sep@) == Some(i as int) && i + sep@.len() <= s@.len(),
            None => find_sub(s@, sep@) is None,
        }),
{
    let slen = s.unicode_len();
    let seplen = sep.unicode_len();
    if seplen > slen {
        proof {
            lemma_find_sub_absent(s@, sep@);
        }
        return None;
    }
    let mut i: usize = 0;
    while i <= slen - seplen
        invariant
            0 <= i <= slen - seplen + 1,
            seplen <= slen,
            slen == s@.len(),
            seplen == sep@.len(),
            seplen >= 1,
            forall|j: int| 0 <= j < i ==> #[trigger] s@.subrange(j, j + sep@.len()) != sep@,
        decreases slen - seplen + 1 - i,
    {
        if matches_at(s, i, sep) {
            proof {
                lemma_find_sub_found(s@, sep@, i as int);
            }
            return Some(i);
        }
        proof {
            assert(s@.subrange(i as int, i + sep@.len()) != sep@);
        }
        i += 1;
    }
    proof {
        lemma_find_sub_absent(s@, sep@);
    }
    None
}

/// The decimal digit character for `n` in `0 ..= 9`.
pub open spec fn dec_digit(n: int) -> char {
    if n == 0 {
        '0'
    } else if n == 1 {
        '1'
    } else if n == 2 {
        '2'
    } else if n == 3 {
        '3'
    } else if n == 4 {
        '4'
    } else if n == 5 {
        '5'
    } else if n == 6 {
        '6'
    } else if n == 7 {
        '7'
    } else if n == 8 {
        '8'
    } else {
        '9'
    }
}

/// The decimal rendering of a non-negative integer, most significant digit first.
pub open spec fn spec_nat_string(n: int) -> Seq<char>
    decreases n,
{
    if n < 10 {
        seq![dec_digit(n)]
    } else {
        spec_nat_string(n / 10).push(dec_digit(n % 10))
    }
}

/// The decimal rendering of a signed integer, with a leading `-` when negative.
pub open spec fn spec_int_string(n: int) -> Seq<char> {
    if n < 0 {
        seq!['-'] + spec_nat_string(-n)
    } else {
        spec_nat_string(n)
    }
}

fn digit_str(d: u64) -> (r: &'static str)
    requires
        d < 10,
    ensures
        r@ == seq![dec_digit(d as int)],
{
    proof {
        reveal_strlit("0");
        reveal_strlit("1");
        reveal_strlit("2");
        reveal_strlit("3");
        reveal_strlit("4");
        reveal_strlit("5");
        reveal_strlit("6");
        reveal_strlit("7");
        reveal_strlit("8");
        reveal_strlit("9");
    }
    let r = if d == 0 {
        "0"
    } else if d == 1 {
        "1"
    } else if d == 2 {
        "2"
    } else if d == 3 {
        "3"
    } else if d == 4 {
        "4"
    } else if d == 5 {
        "5"
    } else if d == 6 {
        "6"
    } else if d == 7 {
        "7"
    } else if d == 8 {
        "8"
    } else {
        "9"
    };
    proof {
        assert(r@ =~= seq![dec_digit(d as int)]);
    }
    r
}

/// Decimal rendering of a `u64`.
pub fn u64_string(n: u64) -> (r: String)
    ensures
        r@ == spec_nat_string(n as int),
    decreases n,
{
    if n < 10 {
        String::from_str(digit_str(n))
    } else {
        let mut s = u64_string(n / 10);
        s.append(digit_str(n % 10));
        proof {
            assert(s@ =~= spec_nat_string(n as int));
        }
        s
    }
}

/// Decimal rendering of a `usize`.
pub fn usize_string(n: usize) -> (r: String)
    ensures
        r@ == spec_nat_string(n as int),
{
    u64_string(n as u64)
}

/// Decimal rendering of an `i64`, with a leading `-` when negative.
pub fn i64_string(n: i64) -> (r: String)
    ensures
        r@ == spec_int_string(n as int),
{
    if n >= 0 {
        u64_string(n as u64)
    } else {
        let magnitude: u64 = ((-(n + 1)) as u64) + 1;
        let mut s = String::from_str("-");
        s.append(u64_string(magnitude).as_str());
        proof {
            reveal_strlit("-");
            assert(magnitude as int == -(n as int));
            assert(s@ =~= spec_int_string(n as int));
        }
        s
    }
}

/// Is `s` a well-formed decimal integer literal: an optional sign followed by
/// at least one digit?
pub open spec fn is_digit(c: char) -> bool {
    '0' as u32 <= c as u32 && c as u32 <= '9' as u32
}

pub open spec fn digit_val(c: char) -> int {
    c as u32 - '0' as u32
}

pub open spec fn all_digits(s: Seq<char>) -> bool {
    forall|j: int| 0 <= j < s.len() ==> is_digit(#[trigger] s[j])
}

/// The digit part of a literal: what follows the optional sign.
pub open spec fn int_literal_digits(s: Seq<char>) -> Seq<char> {
    if s.len() > 0 && (s[0] == '-' || s[0] == '+') {
        s.drop_first()
    } else {
        s
    }
}

pub open spec fn is_int_literal(s: Seq<char>) -> bool {
    int_literal_digits(s).len() > 0 && all_digits(int_literal_digits(s))
}

/// The value of a digit string, most significant digit first.
pub open spec fn digits_value(s: Seq<char>) -> int
    decreases s.len(),
{
    if s.len() == 0 {
        0
    } else {
        digits_value(s.drop_last()) * 10 + digit_val(s.last())
    }
}

/// The value of a decimal integer literal, sign included.
pub open spec fn int_literal_value(s: Seq<char>) -> int {
    if s.len() > 0 && s[0] == '-' {
        -digits_value(int_literal_digits(s))
    } else {
        digits_value(int_literal_digits(s))
    }
}

/// `str::parse::<i64>` on `s`: `Some` exactly on well-formed literals whose
/// value fits an `i64`.
pub fn parse_i64(s: &str) -> (r: Option<i64>)
    ensures
        r is Some <==> is_int_literal(s@) && i64::MIN <= int_literal_value(s@) <= i64::MAX,
        r is Some ==> r->0 == int_literal_value(s@),
{
    let len = s.unicode_len();
    if len == 0 {
        return None;
    }
    let first = s.get_char(0);
    let negative = first == '-';
    let has_sign = negative || first == '+';
    let start: usize = if has_sign {
        1
    } else {
        0
    };
    if len == start {
        return None;
    }
    let ghost digits = if has_sign {
        s@.drop_first()
    } else {
        s@
    };
    // Accumulate the magnitude as a non-positive number: the magnitude of
    // `i64::MIN` does not fit an `i64`, its negation does.
    let mut acc: i64 = 0;
    let mut i: usize = start;
    while i < len
        invariant
            start <= i <= len,
            len == s@.len(),
            len > 0,
            start == if has_sign { 1int } else { 0int },
            has_sign == (s@[0] == '-' || s@[0] == '+'),
            digits == if has_sign { s@.drop_first() } else { s@ },
            forall|j: int| 0 <= j < i - start ==> is_digit(#[trigger] digits[j]),
            acc == -digits_value(digits.take(i - start)),
            i64::MIN <= acc <= 0,
        decreases len - i,
    {
        let c = s.get_char(i);
        let cu = c as u32;
        if cu < '0' as u32 || cu > '9' as u32 {
            proof {
                assert(int_literal_digits(s@) =~= digits);
                assert(!is_digit(digits[i - start]));
                assert(!is_int_literal(s@));
            }
            return None;
        }
        let d = cu - ('0' as u32);
        proof {
            assert(digits.take(i + 1 - start).drop_last() =~= digits.take(i - start));
            assert(digits_value(digits.take(i + 1 - start)) == digits_value(
                digits.take(i - start),
            ) * 10 + digit_val(digits[i - start]));
        }
        let stepped = match acc.checked_mul(10) {
            Some(x) => x.checked_sub(d as i64),
            None => None,
        };
        match stepped {
            Some(x) => {
                acc = x;
            },
            None => {
                // The magnitude no longer fits an `i64` even when negated, so
                // the value is out of range whatever follows.
                proof {
                    let k = i + 1 - start;
                    assert(digits_value(digits.take(k)) > (i64::MAX as int) + 1);
                    assert(int_literal_digits(s@) =~= digits);
                    if is_int_literal(s@) {
                        lemma_digits_value_grows(digits, k);
                        assert(digits_value(digits) > (i64::MAX as int) + 1);
                        assert(int_literal_value(s@) < i64::MIN || int_literal_value(s@)
                            > i64::MAX);
                    }
                }
                return None;
            },
        }
        i += 1;
    }
    proof {
        assert(digits.take(len - start) =~= digits);
    }
    if negative {
        Some(acc)
    } else {
        if acc == i64::MIN {
            proof {
                assert(int_literal_value(s@) == -(i64::MIN as int));
            }
            return None;
        }
        Some(-acc)
    }
}

/// A digit string's value only grows as digits are appended.
proof fn lemma_digits_value_grows(digits: Seq<char>, k: int)
    requires
        0 <= k <= digits.len(),
        all_digits(digits),
    ensures
        digits_value(digits) >= digits_value(digits.take(k)),
    decreases digits.len() - k,
{
    if k < digits.len() {
        assert(digits.take(k + 1).drop_last() =~= digits.take(k));
        assert(digits_value(digits.take(k + 1)) == digits_value(digits.take(k)) * 10 + digit_val(
            digits[k],
        ));
        assert(digits_value(digits.take(k)) >= 0) by {
            lemma_digits_value_nonneg(digits.take(k));
        }
        lemma_digits_value_grows(digits, k + 1);
    } else {
        assert(digits.take(k) =~= digits);
    }
}

proof fn lemma_digits_value_nonneg(s: Seq<char>)
    requires
        all_digits(s),
    ensures
        digits_value(s) >= 0,
    decreases s.len(),
{
    if s.len() > 0 {
        lemma_digits_value_nonneg(s.drop_last());
    }
}

} // verus!
