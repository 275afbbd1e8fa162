//! Character-level helpers over `str` and `String`, with their models as
//! `Seq<char>`.
use vstd::prelude::*;

verus! {

/// `String::push` appends one character.
pub assume_specification[ String::push ](s: &mut String, ch: char)
    ensures
        final(s)@ == old(s)@.push(ch),
;

/// ASCII lowercase of one character; every other character is unchanged.
pub open spec fn ascii_lower(c: char) -> char {
    if 'A' <= c && c <= 'Z' {
        ((c as u32) + 32) as char
    } else {
        c
    }
}

/// ASCII lowercase of a character sequence.
pub open spec fn lower_seq(s: Seq<char>) -> Seq<char> {
    s.map_values(|c: char| ascii_lower(c))
}

/// ASCII case-insensitive equality of two character sequences.
pub open spec fn eq_ignore_case(a: Seq<char>, b: Seq<char>) -> bool {
    lower_seq(a) == lower_seq(b)
}

/// True when `c` is an ASCII decimal digit.
pub open spec fn is_digit(c: char) -> bool {
    '0' <= c && c <= '9'
}

/// True when the sequence holds `c`.
pub open spec fn has_char(s: Seq<char>, c: char) -> bool {
    exists|i: int| 0 <= i < s.len() && s[i] == c
}

/// Index of the first occurrence of `c` in `s`, if any.
pub closed spec fn first_index_of(s: Seq<char>, c: char) -> Option<int> {
    if has_char(s, c) {
        Some(choose|i: int| 0 <= i < s.len() && s[i] == c && forall|j: int| 0 <= j < i ==> s[j] != c)
    } else {
        None
    }
}

/// True when `pre` is a prefix of `s`.
pub open spec fn starts_with(s: Seq<char>, pre: Seq<char>) -> bool {
    pre.len() <= s.len() && s.subrange(0, pre.len() as int) == pre
}

/// True when `suf` is a suffix of `s`.
pub open spec fn ends_with(s: Seq<char>, suf: Seq<char>) -> bool {
    suf.len() <= s.len() && s.subrange(s.len() - suf.len(), s.len() as int) == suf
}

/// The characters of `s`, in order.
pub fn str_chars(s: &str) -> (out: Vec<char>)
    ensures
        out@ == s@,
{
    let mut out: Vec<char> = Vec::new();
    for c in it: s.chars()
        invariant
            out@ == it.seq().take(it.index() as int),
            it.seq() == s@,
    {
        out.push(c);
    }
    out
}

/// A `String` holding exactly the characters `cs`.
pub fn string_from_chars(cs: &[char]) -> (out: String)
    ensures
        out@ == cs@,
{
    let mut out = String::new();
    let mut i: usize = 0;
    while i < cs.len()
        invariant
            i <= cs@.len(),
            out@ == cs@.take(i as int),
        decreases cs@.len() - i,
    {
        out.push(cs[i]);
        i = i + 1;
        assert(cs@.take(i as int) == cs@.take((i - 1) as int).push(cs@[i - 1]));
    }
    assert(cs@.take(cs@.len() as int) == cs@);
    out
}

/// A `String` holding the characters of `cs` in the range `[start, end)`.
pub fn string_from_range(cs: &[char], start: usize, end: usize) -> (out: String)
    requires
        start <= end <= cs@.len(),
    ensures
        out@ == cs@.subrange(start as int, end as int),
{
    let mut out = String::new();
    let mut i: usize = start;
    while i < end
        invariant
            start <= i <= end <= cs@.len(),
            out@ == cs@.subrange(start as int, i as int),
        decreases end - i,
    {
        out.push(cs[i]);
        i = i + 1;
        assert(cs@.subrange(start as int, i as int) == cs@.subrange(start as int, (i - 1) as int).push(cs@[i - 1]));
    }
    out
}

/// A copy of `s`.
pub fn copy_str(s: &str) -> (out: String)
    ensures
        out@ == s@,
{
    s.to_owned()
}

/// Appends the characters of `s` to `out`.
pub fn push_chars(out: &mut String, s: &[char])
    ensures
        final(out)@ == old(out)@ + s@,
{
    let mut i: usize = 0;
    while i < s.len()
        invariant
            i <= s@.len(),
            out@ == old(out)@ + s@.take(i as int),
        decreases s@.len() - i,
    {
        out.push(s[i]);
        i = i + 1;
        assert(s@.take(i as int) == s@.take((i - 1) as int).push(s@[i - 1]));
    }
    assert(s@.take(s@.len() as int) == s@);
}

/// Appends the characters of `s` to `out`.
pub fn push_str_chars(out: &mut String, s: &str)
    ensures
        final(out)@ == old(out)@ + s@,
{
    let cs = str_chars(s);
    push_chars(out, cs.as_slice());
}

/// ASCII lowercase of one character.
pub fn lower_char(c: char) -> (out: char)
    ensures
        out == ascii_lower(c),
{
    if 'A' <= c && c <= 'Z' {
        let b: u8 = c as u8;
        assert(b as u32 == c as u32);
        ((b + 32) as char)
    } else {
        c
    }
}

/// Equality of two character slices.
pub fn chars_eq(a: &[char], b: &[char]) -> (out: bool)
    ensures
        out == (a@ == b@),
{
    if a.len() != b.len() {
        return false;
    }
    let mut i: usize = 0;
    while i < a.len()
        invariant
            a@.len() == b@.len(),
            i <= a@.len(),
            forall|j: int| 0 <= j < i ==> a@[j] == b@[j],
        decreases a@.len() - i,
    {
        if a[i] != b[i] {
            return false;
        }
        i = i + 1;
    }
    assert(a@ =~= b@);
    true
}

/// ASCII case-insensitive equality of two character slices.
pub fn chars_eq_ignore_case(a: &[char], b: &[char]) -> (out: bool)
    ensures
        out == eq_ignore_case(a@, b@),
{
    if a.len() != b.len() {
        assert(lower_seq(a@).len() != lower_seq(b@).len());
        return false;
    }
    let mut i: usize = 0;
    while i < a.len()
        invariant
            a@.len() == b@.len(),
            i <= a@.len(),
            forall|j: int| 0 <= j < i ==> ascii_lower(a@[j]) == ascii_lower(b@[j]),
        decreases a@.len() - i,
    {
        if lower_char(a[i]) != lower_char(b[i]) {
            assert(lower_seq(a@)[i as int] != lower_seq(b@)[i as int]);
            return false;
        }
        i = i + 1;
    }
    assert(lower_seq(a@) =~= lower_seq(b@));
    true
}

/// Equality of two strings.
pub fn str_eq(a: &str, b: &str) -> (out: bool)
    ensures
        out == (a@ == b@),
{
    let ca = str_chars(a);
    let cb = str_chars(b);
    chars_eq(ca.as_slice(), cb.as_slice())
}

/// ASCII case-insensitive equality of two strings.
pub fn str_eq_ignore_case(a: &str, b: &str) -> (out: bool)
    ensures
        out == eq_ignore_case(a@, b@),
{
    let ca = str_chars(a);
    let cb = str_chars(b);
    chars_eq_ignore_case(ca.as_slice(), cb.as_slice())
}

/// ASCII lowercase of a character slice.
pub fn lower_chars(s: &[char]) -> (out: Vec<char>)
    ensures
        out@ == lower_seq(s@),
{
    let mut out: Vec<char> = Vec::new();
    let mut i: usize = 0;
    while i < s.len()
        invariant
            i <= s@.len(),
            out@ == lower_seq(s@.take(i as int)),
        decreases s@.len() - i,
    {
        out.push(lower_char(s[i]));
        i = i + 1;
        assert(lower_seq(s@.take(i as int)) =~= lower_seq(s@.take((i - 1) as int)).push(ascii_lower(s@[i - 1])));
    }
    assert(s@.take(s@.len() as int) == s@);
    out
}

/// ASCII lowercase of a string.
pub fn lower_string(s: &str) -> (out: String)
    ensures
        out@ == lower_seq(s@),
{
    let cs = str_chars(s);
    let lower = lower_chars(cs.as_slice());
    string_from_chars(lower.as_slice())
}

/// Index of the first occurrence of `c` in `s`.
pub fn find_char(s: &[char], c: char) -> (out: Option<usize>)
    ensures
        match out {
            Some(i) => i < s@.len() && s@[i as int] == c && forall|j: int| 0 <= j < i ==> s@[j] != c,
            None => !has_char(s@, c),
        },
{
    let mut i: usize = 0;
    while i < s.len()
        invariant
            i <= s@.len(),
            forall|j: int| 0 <= j < i ==> s@[j] != c,
        decreases s@.len() - i,
    {
        if s[i] == c {
            return Some(i);
        }
        i = i + 1;
    }
    None
}

/// Index of the last occurrence of `c` in `s`.
pub fn rfind_char(s: &[char], c: char) -> (out: Option<usize>)
    ensures
        match out {
            Some(i) => i < s@.len() && s@[i as int] == c && forall|j: int| i < j < s@.len() ==> s@[j] != c,
            None => !has_char(s@, c),
        },
{
    let mut i: usize = s.len();
    while i > 0
        invariant
            i <= s@.len(),
            forall|j: int| i <= j < s@.len() ==> s@[j] != c,
        decreases i,
    {
        if s[i - 1] == c {
            return Some(i - 1);
        }
        i = i - 1;
    }
    None
}

/// True when `pre` is a prefix of `s`.
pub fn chars_starts_with(s: &[char], pre: &[char]) -> (out: bool)
    ensures
        out == starts_with(s@, pre@),
{
    if pre.len() > s.len() {
        return false;
    }
    let mut i: usize = 0;
    while i < pre.len()
        invariant
            pre@.len() <= s@.len(),
            i <= pre@.len(),
            forall|j: int| 0 <= j < i ==> s@[j] == pre@[j],
        decreases pre@.len() - i,
    {
        if s[i] != pre[i] {
            assert(s@.subrange(0, pre@.len() as int)[i as int] != pre@[i as int]);
            return false;
        }
        i = i + 1;
    }
    assert(s@.subrange(0, pre@.len() as int) =~= pre@);
    true
}

/// True when `suf` is a suffix of `s`.
pub fn chars_ends_with(s: &[char], suf: &[char]) -> (out: bool)
    ensures
        out == ends_with(s@, suf@),
{
    if suf.len() > s.len() {
        return false;
    }
    let off = s.len() - suf.len();
    let mut i: usize = 0;
    while i < suf.len()
        invariant
            suf@.len() <= s@.len(),
            off + suf@.len() == s@.len(),
            s@.len() <= usize::MAX,
            i <= suf@.len(),
            forall|j: int| 0 <= j < i ==> s@[off + j] == suf@[j],
        decreases suf@.len() - i,
    {
        assert(off + i < s@.len());
        if s[off + i] != suf[i] {
            assert(s@.subrange(off as int, s@.len() as int)[i as int] != suf@[i as int]);
            return false;
        }
        i = i + 1;
    }
    assert(s@.subrange(off as int, s@.len() as int) =~= suf@);
    true
}

/// A vector holding the characters of `s` in the range `[start, end)`.
pub fn chars_range(s: &[char], start: usize, end: usize) -> (out: Vec<char>)
    requires
        start <= end <= s@.len(),
    ensures
        out@ == s@.subrange(start as int, end as int),
{
    let mut out: Vec<char> = Vec::new();
    let mut i: usize = start;
    while i < end
        invariant
            start <= i <= end <= s@.len(),
            out@ == s@.subrange(start as int, i as int),
        decreases end - i,
    {
        out.push(s[i]);
        i = i + 1;
        assert(s@.subrange(start as int, i as int) =~= s@.subrange(start as int, (i - 1) as int).push(s@[i - 1]));
    }
    out
}

/// The characters of a string literal, as a vector.
pub fn lit(s: &str) -> (out: Vec<char>)
    ensures
        out@ == s@,
{
    str_chars(s)
}

/// True when `pat` occurs in `s` at index `i`.
pub open spec fn occurs_at(s: Seq<char>, pat: Seq<char>, i: int) -> bool {
    0 <= i && i + pat.len() <= s.len() && s.subrange(i, i + pat.len()) == pat
}

/// Index of the first occurrence of `pat` in `s`, if any.
pub closed spec fn first_occurrence(s: Seq<char>, pat: Seq<char>) -> Option<int> {
    if exists|i: int| occurs_at(s, pat, i) {
        Some(
            choose|i: int|
                occurs_at(s, pat, i) && forall|j: int| 0 <= j < i ==> !occurs_at(s, pat, j),
        )
    } else {
        None
    }
}

/// Index of the last occurrence of `c` in `s`, if any.
pub closed spec fn last_index_of(s: Seq<char>, c: char) -> Option<int> {
    if has_char(s, c) {
        Some(choose|i: int| 0 <= i < s.len() && s[i] == c && forall|j: int| i < j < s.len() ==> s[j] != c)
    } else {
        None
    }
}

/// True when every character of `s` is an ASCII digit.
pub open spec fn all_digits(s: Seq<char>) -> bool {
    forall|i: int| 0 <= i < s.len() ==> is_digit(#[trigger] s[i])
}

/// The value of a sequence of decimal digits.
pub open spec fn digits_value(s: Seq<char>) -> nat
    decreases s.len(),
{
    if s.len() == 0 {
        0
    } else {
        digits_value(s.drop_last()) * 10 + ((s.last() as nat) - ('0' as nat)) as nat
    }
}

/// The decimal digit of a value below ten.
pub open spec fn digit_char(d: nat) -> char {
    ((d + ('0' as nat)) as u32) as char
}

/// The decimal representation of `n`, without leading zeros ("0" for zero).
pub open spec fn decimal(n: nat) -> Seq<char>
    decreases n,
{
    if n < 10 {
        seq![digit_char(n)]
    } else {
        decimal(n / 10).push(digit_char(n % 10))
    }
}

/// The elements of `list` joined by `sep`.
pub open spec fn seq_join(list: Seq<Seq<char>>, sep: Seq<char>) -> Seq<char>
    decreases list.len(),
{
    if list.len() == 0 {
        seq![]
    } else if list.len() == 1 {
        list[0]
    } else {
        seq_join(list.drop_last(), sep) + sep + list.last()
    }
}

/// Index of the first occurrence of `pat` in `s`.
pub fn find_sub(s: &[char], pat: &[char]) -> (out: Option<usize>)
    ensures
        match out {
            Some(i) => first_occurrence(s@, pat@) == Some(i as int) && occurs_at(s@, pat@, i as int),
            None => first_occurrence(s@, pat@) is None,
        },
{
    if pat.len() > s.len() {
        assert(forall|i: int| !occurs_at(s@, pat@, i));
        return None;
    }
    let last = s.len() - pat.len();
    let mut i: usize = 0;
    while i <= last
        invariant
            pat@.len() <= s@.len(),
            last + pat@.len() == s@.len(),
            s@.len() <= usize::MAX,
            i <= last + 1,
            forall|j: int| 0 <= j < i ==> !occurs_at(s@, pat@, j),
        decreases last + 1 - i,
    {
        let mut k: usize = 0;
        let mut ok = true;
        while k < pat.len()
            invariant
                pat@.len() <= s@.len(),
                last + pat@.len() == s@.len(),
                s@.len() <= usize::MAX,
                i <= last,
                k <= pat@.len(),
                ok ==> forall|m: int| 0 <= m < k ==> s@[i + m] == pat@[m],
                !ok ==> !occurs_at(s@, pat@, i as int),
            decreases pat@.len() - k,
        {
            assert(i + k < s@.len());
            if s[i + k] != pat[k] {
                assert(s@.subrange(i as int, i + pat@.len())[k as int] != pat@[k as int]);
                ok = false;
            }
            k = k + 1;
        }
        if ok {
            assert(s@.subrange(i as int, i + pat@.len()) =~= pat@);
            assert(occurs_at(s@, pat@, i as int));
            let ghost m = choose|m: int|
                occurs_at(s@, pat@, m) && forall|j: int| 0 <= j < m ==> !occurs_at(s@, pat@, j);
            assert(occurs_at(s@, pat@, m) && forall|j: int| 0 <= j < m ==> !occurs_at(s@, pat@, j));
            assert(!(m < i) && !(i < m));
            return Some(i);
        }
        if i == last {
            assert(forall|j: int| !occurs_at(s@, pat@, j));
            return None;
        }
        i = i + 1;
    }
    None
}

/// Index of the last occurrence of `c` in `s`, specified by `last_index_of`.
pub fn last_index(s: &[char], c: char) -> (out: Option<usize>)
    ensures
        match out {
            Some(i) => last_index_of(s@, c) == Some(i as int) && i < s@.len() && s@[i as int] == c,
            None => last_index_of(s@, c) is None && !has_char(s@, c),
        },
{
    let r = rfind_char(s, c);
    match r {
        Some(i) => {
            let ghost m = choose|m: int|
                0 <= m < s@.len() && s@[m] == c && forall|j: int| m < j < s@.len() ==> s@[j] != c;
            assert(0 <= m < s@.len() && s@[m] == c && forall|j: int| m < j < s@.len() ==> s@[j] != c);
            assert(!(m < i) && !(i < m));
            Some(i)
        },
        None => None,
    }
}

/// Index of the first occurrence of `c` in `s`, specified by `first_index_of`.
pub fn first_index(s: &[char], c: char) -> (out: Option<usize>)
    ensures
        match out {
            Some(i) => first_index_of(s@, c) == Some(i as int) && i < s@.len() && s@[i as int] == c,
            None => first_index_of(s@, c) is None && !has_char(s@, c),
        },
{
    let r = find_char(s, c);
    match r {
        Some(i) => {
            let ghost m = choose|m: int|
                0 <= m < s@.len() && s@[m] == c && forall|j: int| 0 <= j < m ==> s@[j] != c;
            assert(0 <= m < s@.len() && s@[m] == c && forall|j: int| 0 <= j < m ==> s@[j] != c);
            assert(!(m < i) && !(i < m));
            Some(i)
        },
        None => None,
    }
}

/// True when every character of `s` is an ASCII digit.
pub fn chars_all_digits(s: &[char]) -> (out: bool)
    ensures
        out == all_digits(s@),
{
    let mut i: usize = 0;
    while i < s.len()
        invariant
            i <= s@.len(),
            forall|j: int| 0 <= j < i ==> is_digit(s@[j]),
        decreases s@.len() - i,
    {
        if !('0' <= s[i] && s[i] <= '9') {
            return false;
        }
        i = i + 1;
    }
    true
}

/// `digits_value` of a prefix extended by one digit.
proof fn lemma_digits_value_step(s: Seq<char>, i: int)
    requires
        0 <= i < s.len(),
    ensures
        digits_value(s.take(i + 1)) == digits_value(s.take(i)) * 10 + ((s[i] as nat) - ('0' as nat)) as nat,
{
    assert(s.take(i + 1).drop_last() =~= s.take(i));
}

/// `digits_value` never decreases when a digit is appended.
proof fn lemma_digits_value_grows(s: Seq<char>, i: int, j: int)
    requires
        0 <= i <= j <= s.len(),
        all_digits(s),
    ensures
        digits_value(s.take(i)) <= digits_value(s.take(j)),
    decreases j - i,
{
    if i < j {
        lemma_digits_value_grows(s, i, j - 1);
        lemma_digits_value_step(s, j - 1);
        assert(is_digit(s[j - 1]));
    }
}

/// The value of a sequence of decimal digits when it is at most `limit`.
pub fn parse_digits_bounded(s: &[char], limit: u64) -> (out: Option<u64>)
    requires
        all_digits(s@),
    ensures
        match out {
            Some(v) => v == digits_value(s@) && v <= limit,
            None => digits_value(s@) > limit,
        },
{
    let mut acc: u64 = 0;
    let mut i: usize = 0;
    while i < s.len()
        invariant
            i <= s@.len(),
            all_digits(s@),
            acc == digits_value(s@.take(i as int)),
            acc <= limit,
        decreases s@.len() - i,
    {
        let d = (s[i] as u32 - '0' as u32) as u64;
        proof {
            lemma_digits_value_step(s@, i as int);
            assert(is_digit(s@[i as int]));
        }
        if acc > limit / 10 {
            proof {
                assert(acc * 10 + d > limit) by (nonlinear_arith)
                    requires acc > limit / 10;
                lemma_digits_value_grows(s@, i + 1, s@.len() as int);
                assert(s@.take(s@.len() as int) =~= s@);
            }
            return None;
        }
        assert(acc * 10 <= limit) by (nonlinear_arith)
            requires acc <= limit / 10;
        let t = acc * 10;
        if d > limit - t {
            proof {
                lemma_digits_value_grows(s@, i + 1, s@.len() as int);
                assert(s@.take(s@.len() as int) =~= s@);
            }
            return None;
        }
        acc = t + d;
        i = i + 1;
    }
    assert(s@.take(s@.len() as int) =~= s@);
    Some(acc)
}

/// The decimal digit character of a value below ten.
pub fn digit(d: u64) -> (out: char)
    requires
        d < 10,
    ensures
        out == digit_char(d as nat),
{
    let b: u8 = (d as u8) + 48;
    b as char
}

/// Appends the decimal representation of `n` to `out`.
pub fn push_decimal(out: &mut String, n: u64)
    ensures
        final(out)@ == old(out)@ + decimal(n as nat),
    decreases n,
{
    if n < 10 {
        out.push(digit(n));
        assert(decimal(n as nat) == seq![digit_char(n as nat)]);
        assert(old(out)@.push(digit_char(n as nat)) =~= old(out)@ + seq![digit_char(n as nat)]);
    } else {
        push_decimal(out, n / 10);
        out.push(digit(n % 10));
        assert(decimal(n as nat) == decimal((n / 10) as nat).push(digit_char((n % 10) as nat)));
        assert(old(out)@ + decimal((n / 10) as nat).push(digit_char((n % 10) as nat)) =~= (old(out)@
            + decimal((n / 10) as nat)).push(digit_char((n % 10) as nat)));
    }
}

/// The decimal representation of `n`.
pub fn decimal_string(n: u64) -> (out: String)
    ensures
        out@ == decimal(n as nat),
{
    let mut out = String::new();
    push_decimal(&mut out, n);
    assert(Seq::<char>::empty() + decimal(n as nat) =~= decimal(n as nat));
    out
}

/// The elements of `values` joined by `sep`.
pub fn join_strings(values: &[String], sep: &str) -> (out: String)
    ensures
        out@ == seq_join(values@.map_values(|s: String| s@), sep@),
{
    let mut out = String::new();
    let ghost list = values@.map_values(|s: String| s@);
    let mut i: usize = 0;
    while i < values.len()
        invariant
            i <= values@.len(),
            list == values@.map_values(|s: String| s@),
            out@ == seq_join(list.take(i as int), sep@),
        decreases values@.len() - i,
    {
        assert(list.take(i + 1).drop_last() =~= list.take(i as int));
        if i == 0 {
            assert(list.take(1).len() == 1);
            assert(seq_join(list.take(0), sep@) =~= Seq::<char>::empty());
            push_str_chars(&mut out, values[i].as_str());
            assert(out@ =~= list.take(1)[0]);
        } else {
            push_str_chars(&mut out, sep);
            push_str_chars(&mut out, values[i].as_str());
            assert(list.take(i + 1).last() == list[i as int]);
        }
        i = i + 1;
    }
    assert(list.take(values@.len() as int) =~= list);
    out
}


/// Unicode `White_Space`, the set that `char::is_whitespace` tests.
pub open spec fn is_unicode_whitespace(c: char) -> bool {
    ('\u{9}' <= c && c <= '\u{d}') || c == ' ' || c == '\u{85}' || c == '\u{a0}' || c == '\u{1680}'
        || ('\u{2000}' <= c && c <= '\u{200a}') || c == '\u{2028}' || c == '\u{2029}' || c
        == '\u{202f}' || c == '\u{205f}' || c == '\u{3000}'
}

/// `s` without its leading whitespace.
pub open spec fn trim_start_ws(s: Seq<char>) -> Seq<char>
    decreases s.len(),
{
    if s.len() > 0 && is_unicode_whitespace(s[0]) {
        trim_start_ws(s.drop_first())
    } else {
        s
    }
}

/// `s` without its trailing whitespace.
pub open spec fn trim_end_ws(s: Seq<char>) -> Seq<char>
    decreases s.len(),
{
    if s.len() > 0 && is_unicode_whitespace(s.last()) {
        trim_end_ws(s.drop_last())
    } else {
        s
    }
}

/// `s` without leading and trailing whitespace, as `str::trim` gives it.
pub open spec fn trim_ws(s: Seq<char>) -> Seq<char> {
    trim_end_ws(trim_start_ws(s))
}

/// `s` without any trailing `c`, as `str::trim_end_matches` gives it.
pub open spec fn trim_end_char(s: Seq<char>, c: char) -> Seq<char>
    decreases s.len(),
{
    if s.len() > 0 && s.last() == c {
        trim_end_char(s.drop_last(), c)
    } else {
        s
    }
}

/// Whether `c` is Unicode whitespace.
pub fn is_whitespace_char(c: char) -> (out: bool)
    ensures
        out == is_unicode_whitespace(c),
{
    ('\u{9}' <= c && c <= '\u{d}') || c == ' ' || c == '\u{85}' || c == '\u{a0}' || c == '\u{1680}'
        || ('\u{2000}' <= c && c <= '\u{200a}') || c == '\u{2028}' || c == '\u{2029}' || c
        == '\u{202f}' || c == '\u{205f}' || c == '\u{3000}'
}

/// The characters of `s` without leading and trailing whitespace.
pub fn trim_chars(s: &[char]) -> (out: Vec<char>)
    ensures
        out@ == trim_ws(s@),
{
    let n = s.len();
    let mut start: usize = 0;
    assert(s@.subrange(0, n as int) =~= s@);
    while start < n && is_whitespace_char(s[start])
        invariant
            start <= n == s@.len(),
            trim_start_ws(s@) == trim_start_ws(s@.subrange(start as int, n as int)),
        decreases n - start,
    {
        assert(s@.subrange(start as int, n as int).drop_first() =~= s@.subrange(start + 1, n as int));
        start = start + 1;
    }
    let ghost rest = s@.subrange(start as int, n as int);
    assert(trim_start_ws(rest) == rest);
    let mut end: usize = n;
    while end > start && is_whitespace_char(s[end - 1])
        invariant
            start <= end <= n == s@.len(),
            rest == s@.subrange(start as int, n as int),
            trim_end_ws(rest) == trim_end_ws(s@.subrange(start as int, end as int)),
        decreases end,
    {
        assert(s@.subrange(start as int, end as int).drop_last() =~= s@.subrange(start as int, end - 1));
        end = end - 1;
    }
    chars_range(s, start, end)
}

/// The characters of `s` without any trailing `c`.
pub fn trim_end_matching(s: &[char], c: char) -> (out: Vec<char>)
    ensures
        out@ == trim_end_char(s@, c),
{
    let mut end: usize = s.len();
    assert(s@.subrange(0, end as int) =~= s@);
    while end > 0 && s[end - 1] == c
        invariant
            end <= s@.len(),
            trim_end_char(s@, c) == trim_end_char(s@.subrange(0, end as int), c),
        decreases end,
    {
        assert(s@.subrange(0, end as int).drop_last() =~= s@.subrange(0, end - 1));
        end = end - 1;
    }
    chars_range(s, 0, end)
}

/// The pieces of `s` between occurrences of `sep`, the first one starting
/// with `current`, as `str::split` gives them.
pub open spec fn spec_split_from(s: Seq<char>, sep: char, current: Seq<char>) -> Seq<Seq<char>>
    decreases s.len(),
{
    if s.len() == 0 {
        seq![current]
    } else if s[0] == sep {
        seq![current] + spec_split_from(s.drop_first(), sep, Seq::empty())
    } else {
        spec_split_from(s.drop_first(), sep, current.push(s[0]))
    }
}

/// `s` split at every `sep`.
pub open spec fn spec_split(s: Seq<char>, sep: char) -> Seq<Seq<char>> {
    spec_split_from(s, sep, Seq::empty())
}

/// The pieces of `text` between occurrences of `sep`.
pub fn split_on(text: &str, sep: char) -> (pieces: Vec<Vec<char>>)
    ensures
        pieces@.map_values(|l: Vec<char>| l@) == spec_split(text@, sep),
        pieces@.len() >= 1,
{
    let chars = str_chars(text);
    let n = chars.len();
    let mut pieces: Vec<Vec<char>> = Vec::new();
    let mut current: Vec<char> = Vec::new();
    let mut i: usize = 0;
    assert(chars@.subrange(0, n as int) =~= chars@);
    assert(current@ =~= Seq::<char>::empty());
    assert(pieces@.map_values(|l: Vec<char>| l@) + spec_split(text@, sep) =~= spec_split(text@, sep));
    while i < n
        invariant
            i <= n == chars@.len(),
            chars@ == text@,
            pieces@.map_values(|l: Vec<char>| l@) + spec_split_from(
                chars@.subrange(i as int, n as int),
                sep,
                current@,
            ) == spec_split(text@, sep),
        decreases n - i,
    {
        let ghost rest = chars@.subrange(i as int, n as int);
        assert(rest.drop_first() =~= chars@.subrange(i + 1, n as int));
        let ghost before = pieces@.map_values(|l: Vec<char>| l@);
        if chars[i] == sep {
            let done = current;
            pieces.push(done);
            current = Vec::new();
            assert(pieces@.map_values(|l: Vec<char>| l@) =~= before.push(done@));
            assert(before + (seq![done@] + spec_split_from(rest.drop_first(), sep, Seq::empty()))
                =~= before.push(done@) + spec_split_from(rest.drop_first(), sep, Seq::empty()));
        } else {
            current.push(chars[i]);
        }
        i = i + 1;
    }
    let ghost before = pieces@.map_values(|l: Vec<char>| l@);
    let last = current;
    pieces.push(last);
    assert(chars@.subrange(n as int, n as int).len() == 0);
    assert(pieces@.map_values(|l: Vec<char>| l@) =~= before + seq![last@]);
    pieces
}

/// Splits `s` at its first `sep`.
pub open spec fn spec_split_once(s: Seq<char>, sep: char) -> Option<(Seq<char>, Seq<char>)> {
    match first_index_of(s, sep) {
        Some(i) => Some((s.subrange(0, i), s.subrange(i + 1, s.len() as int))),
        None => None,
    }
}

pub fn split_once_chars(s: &[char], sep: char) -> (out: Option<(Vec<char>, Vec<char>)>)
    ensures
        match out {
            Some((a, b)) => spec_split_once(s@, sep) == Some((a@, b@)),
            None => spec_split_once(s@, sep) is None,
        },
{
    match first_index(s, sep) {
        Some(i) => {
            let n = s.len();
            assert(i < n);
            Some((chars_range(s, 0, i), chars_range(s, i + 1, n)))
        },
        None => None,
    }
}

/// The first `c` of `a + [c] + b`, when `a` holds none, is right after `a`.
pub proof fn lemma_first_index_after_prefix(a: Seq<char>, c: char, b: Seq<char>)
    requires
        !has_char(a, c),
    ensures
        first_index_of(a + seq![c] + b, c) == Some(a.len() as int),
{
    let s = a + seq![c] + b;
    assert(s[a.len() as int] == c);
    assert(has_char(s, c));
    let i = choose|i: int| 0 <= i < s.len() && s[i] == c && forall|j: int| 0 <= j < i ==> s[j] != c;
    if i < a.len() {
        assert(a[i] == s[i]);
        assert(has_char(a, c));
    }
    if i > a.len() {
        assert(s[a.len() as int] != c);
    }
}

/// A sequence without `c` has no last `c`.
pub proof fn lemma_last_index_of_absent(s: Seq<char>, c: char)
    requires
        !has_char(s, c),
    ensures
        last_index_of(s, c) is None,
{
}

/// Splitting across one separator splits both sides.
pub proof fn lemma_split_across(x: Seq<char>, sep: char, y: Seq<char>, current: Seq<char>)
    ensures
        spec_split_from(x + seq![sep] + y, sep, current) == spec_split_from(x, sep, current)
            + spec_split_from(y, sep, Seq::empty()),
    decreases x.len(),
{
    let whole = x + seq![sep] + y;
    if x.len() == 0 {
        assert(whole =~= seq![sep] + y);
        assert(whole.drop_first() =~= y);
    } else {
        assert(whole.drop_first() =~= x.drop_first() + seq![sep] + y);
        if x[0] == sep {
            lemma_split_across(x.drop_first(), sep, y, Seq::empty());
            assert(seq![current] + (spec_split_from(x.drop_first(), sep, Seq::empty())
                + spec_split_from(y, sep, Seq::empty())) =~= seq![current] + spec_split_from(
                x.drop_first(),
                sep,
                Seq::empty(),
            ) + spec_split_from(y, sep, Seq::empty()));
        } else {
            lemma_split_across(x.drop_first(), sep, y, current.push(x[0]));
        }
    }
}

/// A text without the separator is one piece.
pub proof fn lemma_split_single(t: Seq<char>, sep: char, current: Seq<char>)
    requires
        !has_char(t, sep),
    ensures
        spec_split_from(t, sep, current) == seq![current + t],
    decreases t.len(),
{
    if t.len() == 0 {
        assert(current + t =~= current);
    } else {
        assert(t[0] != sep);
        assert(!has_char(t.drop_first(), sep)) by {
            if has_char(t.drop_first(), sep) {
                let i = choose|i: int| 0 <= i < t.drop_first().len() && t.drop_first()[i] == sep;
                assert(t[i + 1] == sep);
            }
        }
        lemma_split_single(t.drop_first(), sep, current.push(t[0]));
        assert(current.push(t[0]) + t.drop_first() =~= current + t);
    }
}

/// Every piece of a split, and its start, holds no separator.
pub proof fn lemma_split_pieces_lack_sep(s: Seq<char>, sep: char, current: Seq<char>)
    requires
        !has_char(current, sep),
    ensures
        forall|k: int|
            0 <= k < spec_split_from(s, sep, current).len() ==> !has_char(
                #[trigger] spec_split_from(s, sep, current)[k],
                sep,
            ),
    decreases s.len(),
{
    let whole = spec_split_from(s, sep, current);
    if s.len() == 0 {
        assert(whole =~= seq![current]);
        assert forall|k: int| 0 <= k < whole.len() implies !has_char(#[trigger] whole[k], sep) by {
            assert(whole[k] == current);
        }
    } else if s[0] == sep {
        lemma_split_pieces_lack_sep(s.drop_first(), sep, Seq::empty());
        let rest = spec_split_from(s.drop_first(), sep, Seq::empty());
        assert(whole =~= seq![current] + rest);
        assert forall|k: int| 0 <= k < whole.len() implies !has_char(#[trigger] whole[k], sep) by {
            if k > 0 {
                assert(whole[k] == rest[k - 1]);
            } else {
                assert(whole[k] == current);
            }
        }
    } else {
        let next = current.push(s[0]);
        assert(!has_char(next, sep)) by {
            if has_char(next, sep) {
                let i = choose|i: int| 0 <= i < next.len() && next[i] == sep;
                if i < current.len() {
                    assert(current[i] == sep);
                }
            }
        }
        lemma_split_pieces_lack_sep(s.drop_first(), sep, next);
        assert(whole == spec_split_from(s.drop_first(), sep, next));
    }
}

/// Trimming removes at the ends only: what it keeps is a stretch of the text.
pub proof fn lemma_trim_is_stretch(s: Seq<char>)
    ensures
        exists|a: int, b: int| 0 <= a <= b <= s.len() && trim_ws(s) == s.subrange(a, b),
{
    lemma_trim_start_stretch(s);
    let a = choose|a: int| 0 <= a <= s.len() && trim_start_ws(s) == s.subrange(a, s.len() as int);
    let t = trim_start_ws(s);
    lemma_trim_end_stretch(t);
    let b = choose|b: int| 0 <= b <= t.len() && trim_end_ws(t) == t.subrange(0, b);
    assert(t.subrange(0, b) =~= s.subrange(a, a + b));
}

proof fn lemma_trim_start_stretch(s: Seq<char>)
    ensures
        exists|a: int| 0 <= a <= s.len() && trim_start_ws(s) == s.subrange(a, s.len() as int),
    decreases s.len(),
{
    if s.len() > 0 && is_unicode_whitespace(s[0]) {
        lemma_trim_start_stretch(s.drop_first());
        let a = choose|a: int|
            0 <= a <= s.drop_first().len() && trim_start_ws(s.drop_first()) == s.drop_first().subrange(
                a,
                s.drop_first().len() as int,
            );
        assert(s.drop_first().subrange(a, s.drop_first().len() as int) =~= s.subrange(
            a + 1,
            s.len() as int,
        ));
    } else {
        assert(s.subrange(0, s.len() as int) =~= s);
    }
}

proof fn lemma_trim_end_stretch(s: Seq<char>)
    ensures
        exists|b: int| 0 <= b <= s.len() && trim_end_ws(s) == s.subrange(0, b),
    decreases s.len(),
{
    if s.len() > 0 && is_unicode_whitespace(s.last()) {
        lemma_trim_end_stretch(s.drop_last());
        let b = choose|b: int|
            0 <= b <= s.drop_last().len() && trim_end_ws(s.drop_last()) == s.drop_last().subrange(0, b);
        assert(s.drop_last().subrange(0, b) =~= s.subrange(0, b));
    } else {
        assert(s.subrange(0, s.len() as int) =~= s);
    }
}

/// A trimmed, non-empty text after a space trims back to itself.
pub proof fn lemma_trim_space_prefix(t: Seq<char>)
    requires
        trim_ws(t) == t,
    ensures
        trim_ws(seq![' '] + t) == t,
{
    let s = seq![' '] + t;
    assert(is_unicode_whitespace(' '));
    assert(s.drop_first() =~= t);
    assert(trim_start_ws(s) == trim_start_ws(t));
}

/// Trimming twice is trimming once.
pub proof fn lemma_trim_idempotent(s: Seq<char>)
    ensures
        trim_ws(trim_ws(s)) == trim_ws(s),
{
    let t = trim_start_ws(s);
    lemma_trim_start_fixed(s);
    lemma_trim_end_keeps_start(t);
    lemma_trim_end_fixed(t);
}

proof fn lemma_trim_start_fixed(s: Seq<char>)
    ensures
        trim_start_ws(trim_start_ws(s)) == trim_start_ws(s),
        trim_start_ws(s).len() == 0 || !is_unicode_whitespace(trim_start_ws(s)[0]),
    decreases s.len(),
{
    if s.len() > 0 && is_unicode_whitespace(s[0]) {
        lemma_trim_start_fixed(s.drop_first());
    }
}

proof fn lemma_trim_end_fixed(s: Seq<char>)
    ensures
        trim_end_ws(trim_end_ws(s)) == trim_end_ws(s),
        trim_end_ws(s).len() == 0 || !is_unicode_whitespace(trim_end_ws(s).last()),
    decreases s.len(),
{
    if s.len() > 0 && is_unicode_whitespace(s.last()) {
        lemma_trim_end_fixed(s.drop_last());
    }
}

/// Trimming the end keeps a start that is not whitespace.
proof fn lemma_trim_end_keeps_start(t: Seq<char>)
    requires
        t.len() == 0 || !is_unicode_whitespace(t[0]),
    ensures
        trim_end_ws(t).len() == 0 || !is_unicode_whitespace(trim_end_ws(t)[0]),
        trim_start_ws(trim_end_ws(t)) == trim_end_ws(t),
    decreases t.len(),
{
    if t.len() > 0 && is_unicode_whitespace(t.last()) {
        if t.len() > 1 {
            assert(t.drop_last()[0] == t[0]);
        }
        lemma_trim_end_keeps_start(t.drop_last());
    }
}

/// What trimming keeps holds no character that the text did not hold.
pub proof fn lemma_trim_keeps_absent(s: Seq<char>, c: char)
    requires
        !has_char(s, c),
    ensures
        !has_char(trim_ws(s), c),
{
    lemma_trim_is_stretch(s);
    let (a, b) = choose|a: int, b: int| 0 <= a <= b <= s.len() && trim_ws(s) == s.subrange(a, b);
    if has_char(trim_ws(s), c) {
        let i = choose|i: int| 0 <= i < trim_ws(s).len() && trim_ws(s)[i] == c;
        assert(s[a + i] == c);
    }
}

/// Splitting at `,` what was joined with `, ` and trimming each piece gives
/// back the list, when its items are trimmed and hold no `,`.
pub proof fn lemma_split_join_comma(list: Seq<Seq<char>>)
    requires
        list.len() > 0,
        forall|k: int|
            0 <= k < list.len() ==> !has_char(#[trigger] list[k], ',') && trim_ws(list[k])
                == list[k],
    ensures
        spec_split(seq_join(list, ", "@), ',').map_values(|t: Seq<char>| trim_ws(t)) == list,
    decreases list.len(),
{
    reveal_strlit(", ");
    let last = list.last();
    assert(!has_char(last, ',') && trim_ws(last) == last) by {
        assert(last == list[list.len() - 1]);
    }
    if list.len() == 1 {
        lemma_split_single(list[0], ',', Seq::empty());
        assert(Seq::<char>::empty() + list[0] =~= list[0]);
        assert(seq_join(list, ", "@) == list[0]);
    } else {
        let init = list.drop_last();
        assert forall|k: int| 0 <= k < init.len() implies !has_char(#[trigger] init[k], ',')
            && trim_ws(init[k]) == init[k] by {
            assert(init[k] == list[k]);
        }
        lemma_split_join_comma(init);
        let head = seq_join(init, ", "@);
        let tail = seq![' '] + last;
        assert(seq_join(list, ", "@) =~= head + seq![','] + tail);
        lemma_split_across(head, ',', tail, Seq::empty());
        assert(!has_char(tail, ',')) by {
            if has_char(tail, ',') {
                let i = choose|i: int| 0 <= i < tail.len() && tail[i] == ',';
                assert(last[i - 1] == ',');
            }
        }
        lemma_split_single(tail, ',', Seq::empty());
        assert(Seq::<char>::empty() + tail =~= tail);
        lemma_trim_space_prefix(last);
        let f = |t: Seq<char>| trim_ws(t);
        let left = spec_split(head, ',');
        let right = spec_split_from(tail, ',', Seq::empty());
        assert((left + right).map_values(f) =~= left.map_values(f) + right.map_values(f));
        assert(right.map_values(f) =~= seq![last]);
        assert(init.push(last) =~= list);
    }
}

} // verus!
