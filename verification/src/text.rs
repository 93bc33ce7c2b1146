//! Text of integers and small searches in character sequences.

use vstd::prelude::*;

verus! {

/// The character that stands for the digit `d` in bases up to sixteen.
pub open spec fn digit_char(d: int) -> char {
    if d == 0 {
        '0'
    } else if d == 1 {
        '1'
    } else if d == 2 {
        '2'
    } else if d == 3 {
        '3'
    } else if d == 4 {
        '4'
    } else if d == 5 {
        '5'
    } else if d == 6 {
        '6'
    } else if d == 7 {
        '7'
    } else if d == 8 {
        '8'
    } else if d == 9 {
        '9'
    } else if d == 10 {
        'a'
    } else if d == 11 {
        'b'
    } else if d == 12 {
        'c'
    } else if d == 13 {
        'd'
    } else if d == 14 {
        'e'
    } else {
        'f'
    }
}

/// The digits of `n` in `base`, most significant first, without leading
/// zeros; zero is the single digit `0`.
pub open spec fn digits(n: nat, base: nat) -> Seq<char>
    recommends
        2 <= base <= 16,
    decreases n,
{
    if base < 2 || n < base {
        seq![digit_char(n as int)]
    } else {
        proof {
            lemma_quotient_smaller(n, base);
        }
        digits(n / base, base).push(digit_char((n % base) as int))
    }
}

/// Dividing by two or more makes a positive number smaller.
pub proof fn lemma_quotient_smaller(n: nat, base: nat)
    requires
        base >= 2,
        n >= base,
    ensures
        n / base < n,
{
    assert(n / base < n) by (nonlinear_arith)
        requires
            base >= 2,
            n >= base,
    ;
}

/// `n` in lower-case hexadecimal, as `{:x}` prints it.
pub open spec fn lower_hex(n: nat) -> Seq<char> {
    digits(n, 16)
}

/// The magnitude of `n`.
pub open spec fn magnitude(n: int) -> nat {
    if n < 0 {
        (-n) as nat
    } else {
        n as nat
    }
}

/// `n` in decimal, with a leading `-` when negative, as `{}` prints it.
pub open spec fn decimal(n: int) -> Seq<char> {
    if n < 0 {
        seq!['-'] + digits(magnitude(n), 10)
    } else {
        digits(magnitude(n), 10)
    }
}

/// `count` zeros.
pub open spec fn zeros(count: nat) -> Seq<char> {
    Seq::new(count, |i: int| '0')
}

/// `n` in decimal, filled with zeros after the sign up to `width`
/// characters, as `{:0width}` prints it.
pub open spec fn decimal_padded(n: int, width: nat) -> Seq<char> {
    let body = digits(magnitude(n), 10);
    let sign = if n < 0 {
        seq!['-']
    } else {
        Seq::<char>::empty()
    };
    let used = sign.len() + body.len();
    let fill = if used < width {
        (width - used) as nat
    } else {
        0nat
    };
    sign + zeros(fill) + body
}

/// A number has at least one digit.
pub proof fn lemma_digits_nonempty(n: nat, base: nat)
    ensures
        digits(n, base).len() >= 1,
    decreases n,
{
    if !(base < 2 || n < base) {
        lemma_quotient_smaller(n, base);
        lemma_digits_nonempty(n / base, base);
    }
}

/// Appends the character of one digit.
pub fn append_digit(out: &mut String, d: u8)
    requires
        d < 16,
    ensures
        final(out)@ == old(out)@.push(digit_char(d as int)),
{
    proof {
        reveal_strlit("0");
        reveal_strlit("1");
        reveal_strlit("2");
        reveal_strlit("3");
        reveal_strlit("4");
        reveal_strlit("5");
        reveal_strlit("6");
        reveal_strlit("7");
        reveal_strlit("8");
        reveal_strlit("9");
        reveal_strlit("a");
        reveal_strlit("b");
        reveal_strlit("c");
        reveal_strlit("d");
        reveal_strlit("e");
        reveal_strlit("f");
    }
    let lit: &str = if d == 0 {
        "0"
    } else if d == 1 {
        "1"
    } else if d == 2 {
        "2"
    } else if d == 3 {
        "3"
    } else if d == 4 {
        "4"
    } else if d == 5 {
        "5"
    } else if d == 6 {
        "6"
    } else if d == 7 {
        "7"
    } else if d == 8 {
        "8"
    } else if d == 9 {
        "9"
    } else if d == 10 {
        "a"
    } else if d == 11 {
        "b"
    } else if d == 12 {
        "c"
    } else if d == 13 {
        "d"
    } else if d == 14 {
        "e"
    } else {
        "f"
    };
    assert(lit@ =~= seq![digit_char(d as int)]);
    out.append(lit);
    assert(out@ =~= old(out)@.push(digit_char(d as int)));
}

/// Appends the digits of `n` in `base`.
pub fn append_digits(out: &mut String, n: u64, base: u64)
    requires
        2 <= base <= 16,
    ensures
        final(out)@ == old(out)@ + digits(n as nat, base as nat),
    decreases n,
{
    if n >= base {
        proof {
            lemma_quotient_smaller(n as nat, base as nat);
        }
        append_digits(out, n / base, base);
        append_digit(out, (n % base) as u8);
        assert(out@ =~= old(out)@ + digits(n as nat, base as nat));
    } else {
        append_digit(out, n as u8);
        assert(out@ =~= old(out)@ + digits(n as nat, base as nat));
    }
}

/// How many digits `n` has in decimal.
pub fn decimal_len(n: u64) -> (len: usize)
    ensures
        len == digits(n as nat, 10).len(),
        1 <= len <= 20,
{
    let mut rest: u64 = n;
    let mut len: usize = 1;
    proof {
        lemma_digits_bound(n as nat);
    }
    while rest >= 10
        invariant
            1 <= len,
            digits(n as nat, 10).len() == digits(rest as nat, 10).len() + len - 1,
            digits(n as nat, 10).len() <= 20,
        decreases rest,
    {
        proof {
            lemma_digits_nonempty((rest / 10) as nat, 10);
        }
        rest = rest / 10;
        len = len + 1;
    }
    len
}

/// A number below 2^64 has at most twenty decimal digits.
pub proof fn lemma_digits_bound(n: nat)
    requires
        n <= u64::MAX,
    ensures
        digits(n, 10).len() <= 20,
{
    assert(pow10(20) == 100_000_000_000_000_000_000nat) by {
        reveal_with_fuel(pow10, 21);
    }
    lemma_digits_len(n, 20);
}

/// A number below 10^k, for k at least one, has at most k decimal digits.
pub proof fn lemma_digits_len(n: nat, k: nat)
    requires
        k >= 1,
        n < pow10(k),
    ensures
        digits(n, 10).len() <= k,
    decreases k,
{
    if n >= 10 {
        assert(k >= 2) by {
            if k == 1 {
                assert(pow10(1) == 10) by {
                    reveal_with_fuel(pow10, 2);
                }
            }
        }
        assert(pow10(k) == 10 * pow10((k - 1) as nat));
        lemma_digits_len(n / 10, (k - 1) as nat);
    }
}

/// Ten to the power `k`.
pub open spec fn pow10(k: nat) -> nat
    decreases k,
{
    if k == 0 {
        1
    } else {
        10 * pow10((k - 1) as nat)
    }
}

/// The magnitude of a signed number as an unsigned one.
pub fn magnitude_of(n: i64) -> (m: u64)
    ensures
        m == magnitude(n as int),
{
    if n < 0 {
        let up: i64 = n + 1;
        let pos: i64 = -up;
        pos as u64 + 1
    } else {
        n as u64
    }
}

/// Appends `n` in decimal.
pub fn append_decimal(out: &mut String, n: i64)
    ensures
        final(out)@ == old(out)@ + decimal(n as int),
{
    if n < 0 {
        proof {
            reveal_strlit("-");
        }
        out.append("-");
        assert(out@ =~= old(out)@ + seq!['-']);
    }
    append_digits(out, magnitude_of(n), 10);
    assert(out@ =~= old(out)@ + decimal(n as int));
}

/// Appends `n` in decimal, filled with zeros up to `width` characters.
pub fn append_decimal_padded(out: &mut String, n: i64, width: usize)
    ensures
        final(out)@ == old(out)@ + decimal_padded(n as int, width as nat),
{
    let m: u64 = magnitude_of(n);
    let mut used: usize = decimal_len(m);
    if n < 0 {
        proof {
            reveal_strlit("-");
        }
        out.append("-");
        used = used + 1;
    }
    let ghost sign = if n < 0 {
        seq!['-']
    } else {
        Seq::<char>::empty()
    };
    let ghost start = used;
    assert(out@ =~= old(out)@ + sign);
    while used < width
        invariant
            start <= used,
            used == start || used <= width,
            start == digits(m as nat, 10).len() + sign.len(),
            out@ == old(out)@ + sign + zeros((used - start) as nat),
        decreases width - used,
    {
        proof {
            reveal_strlit("0");
        }
        out.append("0");
        used = used + 1;
        assert(out@ =~= old(out)@ + sign + zeros((used - start) as nat));
    }
    append_digits(out, m, 10);
    assert(out@ =~= old(out)@ + decimal_padded(n as int, width as nat));
}

/// `n` in lower-case hexadecimal.
pub fn to_lower_hex(n: u64) -> (text: String)
    ensures
        text@ == lower_hex(n as nat),
{
    let mut text = String::new();
    append_digits(&mut text, n, 16);
    assert(text@ =~= lower_hex(n as nat));
    text
}

/// Whether two strings hold the same text.
pub fn same_text(a: &str, b: &str) -> (same: bool)
    ensures
        same == (a@ == b@),
{
    let x: String = a.to_owned();
    let y: String = b.to_owned();
    x == y
}

/// The texts of a list of strings.
pub open spec fn texts_of(strings: Seq<String>) -> Seq<Seq<char>> {
    Seq::new(strings.len(), |i: int| strings[i]@)
}

/// The text of an optional string.
pub open spec fn text_of_option(s: Option<String>) -> Option<Seq<char>> {
    match s {
        Some(s) => Some(s@),
        None => None,
    }
}

/// The characters of a string, in a vector.
pub fn chars_of(s: &str) -> (chars: Vec<char>)
    ensures
        chars@ == s@,
{
    let mut chars: Vec<char> = Vec::new();
    for c in it: s.chars()
        invariant
            chars@ == it.seq().take(it.index() as int),
            it.seq() == s@,
    {
        chars.push(c);
    }
    chars
}

/// The index of the first `c` in `s`, or the length of `s` where there is
/// none.
pub open spec fn index_of(s: Seq<char>, c: char) -> int
    decreases s.len(),
{
    if s.len() == 0 {
        0
    } else if s[0] == c {
        0
    } else {
        1 + index_of(s.drop_first(), c)
    }
}

/// `index_of` is the one index that holds `c` with no `c` before it.
pub proof fn lemma_index_of(s: Seq<char>, c: char, i: int)
    requires
        0 <= i <= s.len(),
        forall|j: int| 0 <= j < i ==> s[j] != c,
        i == s.len() || s[i] == c,
    ensures
        index_of(s, c) == i,
    decreases s.len(),
{
    if s.len() > 0 && i > 0 {
        let rest = s.drop_first();
        assert forall|j: int| 0 <= j < i - 1 implies rest[j] != c by {
            assert(rest[j] == s[j + 1]);
        }
        lemma_index_of(rest, c, i - 1);
    }
}

/// `index_of` lies within the sequence or at its end, and no `c` comes
/// before it.
pub proof fn lemma_index_of_bounds(s: Seq<char>, c: char)
    ensures
        0 <= index_of(s, c) <= s.len(),
        index_of(s, c) < s.len() ==> s[index_of(s, c)] == c,
        forall|j: int| 0 <= j < index_of(s, c) ==> s[j] != c,
        index_of(s, c) == s.len() <==> !s.contains(c),
    decreases s.len(),
{
    if s.len() > 0 && s[0] != c {
        let rest = s.drop_first();
        lemma_index_of_bounds(rest, c);
        assert forall|j: int| 0 <= j < index_of(s, c) implies s[j] != c by {
            if j > 0 {
                assert(rest[j - 1] == s[j]);
            }
        }
        if index_of(s, c) < s.len() {
            assert(rest[index_of(rest, c)] == s[index_of(s, c)]);
        }
        if s.contains(c) {
            let k = choose|k: int| 0 <= k < s.len() && s[k] == c;
            assert(rest[k - 1] == c);
            assert(rest.contains(c));
        }
    } else if s.len() > 0 {
        assert(s.contains(c));
    }
}

/// The index of the last `c` in `s`, or -1 where there is none.
pub open spec fn last_index_of(s: Seq<char>, c: char) -> int
    decreases s.len(),
{
    if s.len() == 0 {
        -1
    } else if s.last() == c {
        s.len() - 1
    } else {
        last_index_of(s.drop_last(), c)
    }
}

/// `last_index_of` is the one index that holds `c` with no `c` after it.
pub proof fn lemma_last_index_of(s: Seq<char>, c: char, i: int)
    requires
        -1 <= i < s.len(),
        forall|j: int| i < j < s.len() ==> s[j] != c,
        i == -1 || s[i] == c,
    ensures
        last_index_of(s, c) == i,
    decreases s.len(),
{
    if s.len() > 0 && i < s.len() - 1 {
        lemma_last_index_of(s.drop_last(), c, i);
    }
}

/// Finds the first `c`.
pub fn find_first(chars: &Vec<char>, c: char) -> (at: usize)
    ensures
        at == index_of(chars@, c),
        at <= chars.len(),
{
    let mut i: usize = 0;
    while i < chars.len() && chars[i] != c
        invariant
            i <= chars.len(),
            forall|j: int| 0 <= j < i ==> chars@[j] != c,
        decreases chars.len() - i,
    {
        i = i + 1;
    }
    proof {
        lemma_index_of(chars@, c, i as int);
    }
    i
}

/// Finds the last `c`: its index, or none.
pub fn find_last(chars: &Vec<char>, c: char) -> (at: Option<usize>)
    ensures
        match at {
            Some(i) => i == last_index_of(chars@, c) && i < chars.len(),
            None => last_index_of(chars@, c) == -1,
        },
{
    let mut i: usize = chars.len();
    while i > 0 && chars[i - 1] != c
        invariant
            i <= chars.len(),
            forall|j: int| i <= j < chars.len() ==> chars@[j] != c,
        decreases i,
    {
        i = i - 1;
    }
    proof {
        lemma_last_index_of(chars@, c, i as int - 1);
    }
    if i == 0 {
        None
    } else {
        Some(i - 1)
    }
}

/// Whether a character is white space, by the Unicode property of that name.
pub open spec fn is_space(c: char) -> bool {
    let v = c as u32;
    (0x9 <= v <= 0xd) || v == 0x20 || v == 0x85 || v == 0xa0 || v == 0x1680 || (0x2000 <= v
        <= 0x200a) || v == 0x2028 || v == 0x2029 || v == 0x202f || v == 0x205f || v == 0x3000
}

/// How many characters at the start of `s` are white space.
pub open spec fn leading_space(s: Seq<char>) -> int
    decreases s.len(),
{
    if s.len() == 0 || !is_space(s[0]) {
        0
    } else {
        1 + leading_space(s.drop_first())
    }
}

/// How many characters at the end of `s` are white space.
pub open spec fn trailing_space(s: Seq<char>) -> int
    decreases s.len(),
{
    if s.len() == 0 || !is_space(s.last()) {
        0
    } else {
        1 + trailing_space(s.drop_last())
    }
}

/// `s` without the white space at its two ends.
pub open spec fn trimmed(s: Seq<char>) -> Seq<char> {
    if leading_space(s) >= s.len() {
        Seq::empty()
    } else {
        s.subrange(leading_space(s), s.len() - trailing_space(s))
    }
}

/// `leading_space` is the length of the longest prefix of white space.
pub proof fn lemma_leading_space(s: Seq<char>, i: int)
    requires
        0 <= i <= s.len(),
        forall|j: int| 0 <= j < i ==> is_space(s[j]),
        i == s.len() || !is_space(s[i]),
    ensures
        leading_space(s) == i,
    decreases s.len(),
{
    if s.len() > 0 && i > 0 {
        let rest = s.drop_first();
        assert forall|j: int| 0 <= j < i - 1 implies is_space(rest[j]) by {
            assert(rest[j] == s[j + 1]);
        }
        lemma_leading_space(rest, i - 1);
    }
}

/// `trailing_space` is the length of the longest suffix of white space.
pub proof fn lemma_trailing_space(s: Seq<char>, i: int)
    requires
        0 <= i <= s.len(),
        forall|j: int| s.len() - i <= j < s.len() ==> is_space(s[j]),
        i == s.len() || !is_space(s[s.len() - i - 1]),
    ensures
        trailing_space(s) == i,
    decreases s.len(),
{
    if s.len() > 0 && i > 0 {
        lemma_trailing_space(s.drop_last(), i - 1);
    }
}

/// Whether a character is white space.
pub fn char_is_space(c: char) -> (space: bool)
    ensures
        space == is_space(c),
{
    let v: u32 = c as u32;
    (0x9 <= v && v <= 0xd) || v == 0x20 || v == 0x85 || v == 0xa0 || v == 0x1680 || (0x2000 <= v
        && v <= 0x200a) || v == 0x2028 || v == 0x2029 || v == 0x202f || v == 0x205f || v
        == 0x3000
}

/// The bounds of the trimmed part of `chars[from..to]`: a start and an end
/// with `chars[start..end]` the trimmed text.
pub fn trim_bounds(chars: &Vec<char>, from: usize, to: usize) -> (bounds: (usize, usize))
    requires
        from <= to <= chars.len(),
    ensures
        from <= bounds.0 <= bounds.1 <= to,
        chars@.subrange(bounds.0 as int, bounds.1 as int) == trimmed(
            chars@.subrange(from as int, to as int),
        ),
{
    let ghost part = chars@.subrange(from as int, to as int);
    let mut start: usize = from;
    while start < to && char_is_space(chars[start])
        invariant
            from <= start <= to <= chars.len(),
            part == chars@.subrange(from as int, to as int),
            forall|j: int| 0 <= j < start - from ==> is_space(part[j]),
        decreases to - start,
    {
        start = start + 1;
    }
    proof {
        lemma_leading_space(part, start - from);
    }
    if start == to {
        assert(chars@.subrange(start as int, start as int) =~= Seq::<char>::empty());
        return (start, start);
    }
    let mut end: usize = to;
    while end > start && char_is_space(chars[end - 1])
        invariant
            from <= start < to <= chars.len(),
            start <= end <= to,
            !is_space(chars@[start as int]),
            part == chars@.subrange(from as int, to as int),
            forall|j: int| end - from <= j < part.len() ==> is_space(part[j]),
        decreases end,
    {
        end = end - 1;
    }
    proof {
        if end == start {
            assert(part[start - from] == chars@[start as int]);
        }
        assert(part[end - from - 1] == chars@[end - 1]);
        lemma_trailing_space(part, to - end);
        assert(chars@.subrange(start as int, end as int) =~= part.subrange(
            start - from,
            part.len() - (to - end),
        ));
    }
    (start, end)
}

/// The text of `s` from character `from` up to character `to`.
pub fn slice_text(s: &str, from: usize, to: usize) -> (part: String)
    requires
        from <= to <= s@.len(),
    ensures
        part@ == s@.subrange(from as int, to as int),
{
    s.substring_char(from, to).to_owned()
}

/// The parts of a text between the occurrences of a separator, in order. A
/// text without the separator is its own single part; two separators in a
/// row hold an empty part between them.
pub open spec fn parts(text: Seq<char>, sep: char) -> Seq<Seq<char>>
    decreases text.len(),
{
    let cut = index_of(text, sep);
    if 0 <= cut < text.len() {
        seq![text.subrange(0, cut)] + parts(text.subrange(cut + 1, text.len() as int), sep)
    } else {
        seq![text]
    }
}

/// Splits a text at every occurrence of a separator.
pub fn split_text(text: &str, sep: char) -> (list: Vec<String>)
    ensures
        texts_of(list@) == parts(text@, sep),
{
    let chars = chars_of(text);
    let mut list: Vec<String> = Vec::new();
    let mut start: usize = 0;
    let mut done: bool = false;
    proof {
        assert(chars@.subrange(0, chars.len() as int) =~= text@);
        assert(texts_of(list@) + parts(text@, sep) =~= parts(text@, sep));
    }
    while !done
        invariant
            start <= chars.len(),
            chars@ == text@,
            !done ==> texts_of(list@) + parts(
                chars@.subrange(start as int, chars.len() as int),
                sep,
            ) == parts(text@, sep),
            done ==> texts_of(list@) == parts(text@, sep),
        decreases chars.len() - start + if done { 0int } else { 1int },
    {
        let ghost rest = chars@.subrange(start as int, chars.len() as int);
        let ghost before = texts_of(list@);
        let mut end: usize = start;
        while end < chars.len() && chars[end] != sep
            invariant
                start <= end <= chars.len(),
                rest == chars@.subrange(start as int, chars.len() as int),
                forall|j: int| 0 <= j < end - start ==> rest[j] != sep,
            decreases chars.len() - end,
        {
            end = end + 1;
        }
        proof {
            lemma_index_of(rest, sep, end - start);
            assert(rest.subrange(0, end - start) =~= text@.subrange(start as int, end as int));
        }
        list.push(slice_text(text, start, end));
        assert(texts_of(list@) =~= before.push(
            text@.subrange(start as int, end as int),
        ));
        if end < chars.len() {
            proof {
                assert(rest.subrange(end - start + 1, rest.len() as int) =~= chars@.subrange(
                    end + 1,
                    chars.len() as int,
                ));
                assert(before + (seq![rest.subrange(0, end - start)] + parts(
                    chars@.subrange(end + 1, chars.len() as int),
                    sep,
                )) =~= before.push(rest.subrange(0, end - start)) + parts(
                    chars@.subrange(end + 1, chars.len() as int),
                    sep,
                ));
            }
            start = end + 1;
        } else {
            proof {
                assert(rest.subrange(0, end - start) =~= rest);
                assert(before + seq![rest] =~= before.push(rest));
            }
            done = true;
        }
    }
    list
}

} // verus!
