//! Text as sequences of characters.
//!
//! Every contract in this crate that speaks of a string speaks of its view, a
//! `Seq<char>`.  This module holds the vocabulary those contracts share
//! (searching, trimming, padding, decimal numerals) together with executable
//! counterparts that work on `Vec<char>`.

use vstd::prelude::*;

verus! {

/// `String::push` of the standard library: the character is appended to the
/// end of the string and nothing else changes.
pub assume_specification[ String::push ](s: &mut String, c: char)
    ensures
        final(s)@ == old(s)@.push(c),
;

/// The characters of `s`, in order.
pub fn chars_of(s: &str) -> (v: Vec<char>)
    ensures
        v@ == s@,
{
    let mut v: Vec<char> = Vec::new();
    for c in it: s.chars()
        invariant
            it.seq() == s@,
            v@ == it.seq().subrange(0, it.index() as int),
    {
        v.push(c);
    }
    proof {
        assert(s@.subrange(0, s@.len() as int) =~= s@);
    }
    v
}

/// The string made of the characters `v[from..to]`.
pub fn text_of(v: &Vec<char>, from: usize, to: usize) -> (s: String)
    requires
        from <= to <= v.len(),
    ensures
        s@ == v@.subrange(from as int, to as int),
{
    let mut s = String::new();
    let mut i: usize = from;
    while i < to
        invariant
            from <= i <= to <= v.len(),
            s@ == v@.subrange(from as int, i as int),
        decreases to - i,
    {
        s.push(v[i]);
        proof {
            assert(v@.subrange(from as int, i + 1) =~= v@.subrange(from as int, i as int).push(
                v@[i as int],
            ));
        }
        i = i + 1;
    }
    s
}

/// The decimal digit that stands for `d`, for `d < 10`.
pub open spec fn digit_char(d: nat) -> char {
    if d == 0 {
        '0'
    } else if d == 1 {
        '1'
    } else if d == 2 {
        '2'
    } else if d == 3 {
        '3'
    } else if d == 4 {
        '4'
    } else if d == 5 {
        '5'
    } else if d == 6 {
        '6'
    } else if d == 7 {
        '7'
    } else if d == 8 {
        '8'
    } else {
        '9'
    }
}

/// The decimal numeral of `n`: no sign, no leading zero, `"0"` for zero.
pub open spec fn decimal(n: nat) -> Seq<char>
    decreases n,
{
    if n < 10 {
        seq![digit_char(n)]
    } else {
        decimal(n / 10).push(digit_char(n % 10))
    }
}

fn digit(d: u64) -> (c: char)
    requires
        d < 10,
    ensures
        c == digit_char(d as nat),
{
    if d == 0 {
        '0'
    } else if d == 1 {
        '1'
    } else if d == 2 {
        '2'
    } else if d == 3 {
        '3'
    } else if d == 4 {
        '4'
    } else if d == 5 {
        '5'
    } else if d == 6 {
        '6'
    } else if d == 7 {
        '7'
    } else if d == 8 {
        '8'
    } else {
        '9'
    }
}

/// Appends the decimal numeral of `n` to `out`.
pub fn push_decimal(out: &mut String, n: u64)
    ensures
        final(out)@ == old(out)@ + decimal(n as nat),
    decreases n,
{
    if n >= 10 {
        push_decimal(out, n / 10);
    }
    out.push(digit(n % 10));
    proof {
        if n >= 10 {
            assert(final(out)@ =~= old(out)@ + decimal(n as nat));
        } else {
            assert(final(out)@ =~= old(out)@ + decimal(n as nat));
        }
    }
}

/// The items of `items` written one after another with `sep` between each
/// two neighbours.
pub open spec fn joined(items: Seq<Seq<char>>, sep: Seq<char>) -> Seq<char>
    decreases items.len(),
{
    if items.len() == 0 {
        Seq::empty()
    } else if items.len() == 1 {
        items[0]
    } else {
        joined(items.drop_last(), sep) + sep + items.last()
    }
}

/// Joining one item more appends the separator and the item, or the item
/// alone where it is the first.
pub proof fn lemma_joined_step(items: Seq<Seq<char>>, sep: Seq<char>, i: int)
    requires
        0 <= i < items.len(),
    ensures
        joined(items.subrange(0, i + 1), sep) == if i == 0 {
            items[0]
        } else {
            joined(items.subrange(0, i), sep) + sep + items[i]
        },
{
    let head = items.subrange(0, i + 1);
    assert(head.last() == items[i]);
    assert(head.drop_last() =~= items.subrange(0, i));
    if i == 0 {
        assert(head[0] == items[0]);
    }
}

/// The index of the first character of `s`, at or after `i`, that is in
/// `set`; the length of `s` where there is none.
pub open spec fn first_in(s: Seq<char>, set: Seq<char>, i: int) -> int
    decreases s.len() - i,
{
    if i >= s.len() {
        s.len() as int
    } else if set.contains(s[i]) {
        i
    } else {
        first_in(s, set, i + 1)
    }
}

/// The index of the first character of `s`, at or after `i`, that is not in
/// `set`; the length of `s` where there is none.
pub open spec fn first_outside(s: Seq<char>, set: Seq<char>, i: int) -> int
    decreases s.len() - i,
{
    if i >= s.len() {
        s.len() as int
    } else if !set.contains(s[i]) {
        i
    } else {
        first_outside(s, set, i + 1)
    }
}

/// The length of the longest prefix of `s[..n]` that does not end in a
/// character of `set`.
pub open spec fn last_outside(s: Seq<char>, set: Seq<char>, n: int) -> int
    decreases n,
{
    if n <= 0 {
        0
    } else if !set.contains(s[n - 1]) {
        n
    } else {
        last_outside(s, set, n - 1)
    }
}

/// `s` without its leading characters from `set`.
pub open spec fn trim_start(s: Seq<char>, set: Seq<char>) -> Seq<char> {
    s.subrange(first_outside(s, set, 0), s.len() as int)
}

/// `s` without its trailing characters from `set`.
pub open spec fn trim_end(s: Seq<char>, set: Seq<char>) -> Seq<char> {
    s.subrange(0, last_outside(s, set, s.len() as int))
}

/// Whether `pat` stands in `s` at index `i`.
pub open spec fn occurs_at(s: Seq<char>, pat: Seq<char>, i: int) -> bool {
    &&& 0 <= i
    &&& i + pat.len() <= s.len()
    &&& s.subrange(i, i + pat.len()) == pat
}

/// Whether `pat` stands somewhere in `s`.
pub open spec fn contains_text(s: Seq<char>, pat: Seq<char>) -> bool {
    exists|i: int| occurs_at(s, pat, i)
}

/// The largest index at or below `i` at which `pat` stands in `s`.
pub open spec fn last_occurrence(s: Seq<char>, pat: Seq<char>, i: int) -> Option<int>
    decreases i + 1,
{
    if i < 0 {
        None
    } else if occurs_at(s, pat, i) {
        Some(i)
    } else {
        last_occurrence(s, pat, i - 1)
    }
}

/// The index of the last occurrence of `pat` in `s`.
pub open spec fn rfind(s: Seq<char>, pat: Seq<char>) -> Option<int> {
    last_occurrence(s, pat, s.len() - pat.len())
}

/// The last occurrence of a pattern lies inside the text.
pub proof fn lemma_rfind_bound(s: Seq<char>, pat: Seq<char>)
    ensures
        rfind(s, pat) is Some ==> 0 <= rfind(s, pat)->0 <= s.len() - pat.len(),
{
    lemma_last_occurrence_bound(s, pat, s.len() - pat.len());
}

proof fn lemma_last_occurrence_bound(s: Seq<char>, pat: Seq<char>, i: int)
    ensures
        last_occurrence(s, pat, i) is Some ==> 0 <= last_occurrence(s, pat, i)->0 <= i,
    decreases i + 1,
{
    if i >= 0 && !occurs_at(s, pat, i) {
        lemma_last_occurrence_bound(s, pat, i - 1);
    }
}

/// `s` up to the last occurrence of `pat`; all of `s` where `pat` does not
/// occur.
pub open spec fn until_last(s: Seq<char>, pat: Seq<char>) -> Seq<char> {
    match rfind(s, pat) {
        Some(i) => s.subrange(0, i),
        None => s,
    }
}

/// `s` followed by as many spaces as it lacks to be `width` characters long.
pub open spec fn padded(s: Seq<char>, width: nat) -> Seq<char> {
    if s.len() >= width {
        s
    } else {
        s + Seq::new((width - s.len()) as nat, |i: int| ' ')
    }
}

/// Whether `c` is one of `set`.
pub fn member(set: &Vec<char>, c: char) -> (found: bool)
    ensures
        found == set@.contains(c),
{
    let mut i: usize = 0;
    while i < set.len()
        invariant
            i <= set.len(),
            forall|k: int| 0 <= k < i ==> set@[k] != c,
        decreases set.len() - i,
    {
        if set[i] == c {
            return true;
        }
        i = i + 1;
    }
    false
}

/// The index of the first character of `s` that is in `set`; the length
/// of `s` where there is none.
pub fn find_member(s: &Vec<char>, set: &Vec<char>) -> (at: usize)
    ensures
        at == first_in(s@, set@, 0),
        at <= s.len(),
{
    let mut i: usize = 0;
    while i < s.len() && !member(set, s[i])
        invariant
            i <= s.len(),
            first_in(s@, set@, 0) == first_in(s@, set@, i as int),
        decreases s.len() - i,
    {
        i = i + 1;
    }
    i
}

/// The number of characters from `set` that `s` begins with.
pub fn skip_leading(s: &Vec<char>, set: &Vec<char>) -> (at: usize)
    ensures
        at == first_outside(s@, set@, 0),
        at <= s.len(),
{
    let mut i: usize = 0;
    while i < s.len() && member(set, s[i])
        invariant
            i <= s.len(),
            first_outside(s@, set@, 0) == first_outside(s@, set@, i as int),
        decreases s.len() - i,
    {
        i = i + 1;
    }
    i
}

/// The length of `s` without the characters from `set` that it ends in.
pub fn cut_trailing(s: &Vec<char>, set: &Vec<char>) -> (end: usize)
    ensures
        end == last_outside(s@, set@, s.len() as int),
        end <= s.len(),
{
    let mut n: usize = s.len();
    while n > 0 && member(set, s[n - 1])
        invariant
            n <= s.len(),
            last_outside(s@, set@, s.len() as int) == last_outside(s@, set@, n as int),
        decreases n,
    {
        n = n - 1;
    }
    n
}

/// Whether `pat` stands in `s` at index `i`.
pub fn matches_at(s: &Vec<char>, pat: &Vec<char>, i: usize) -> (found: bool)
    ensures
        found == occurs_at(s@, pat@, i as int),
{
    if pat.len() > s.len() || i > s.len() - pat.len() {
        return false;
    }
    let mut k: usize = 0;
    while k < pat.len()
        invariant
            k <= pat.len(),
            i + pat.len() <= s.len(),
            forall|j: int| 0 <= j < k ==> s@[i + j] == pat@[j],
        decreases pat.len() - k,
    {
        if s[i + k] != pat[k] {
            proof {
                assert(s@.subrange(i as int, i + pat.len())[k as int] == s@[i + k]);
            }
            return false;
        }
        k = k + 1;
    }
    proof {
        assert(s@.subrange(i as int, i + pat.len()) =~= pat@);
    }
    true
}

/// The index of the last occurrence of `pat` in `s`.
pub fn rfind_text(s: &Vec<char>, pat: &Vec<char>) -> (at: Option<usize>)
    ensures
        match at {
            Some(i) => rfind(s@, pat@) == Some(i as int),
            None => rfind(s@, pat@) is None,
        },
{
    if pat.len() > s.len() {
        return None;
    }
    let mut i: usize = s.len() - pat.len();
    loop
        invariant
            pat.len() <= s.len(),
            i <= s.len() - pat.len(),
            rfind(s@, pat@) == last_occurrence(s@, pat@, i as int),
        decreases i,
    {
        if matches_at(s, pat, i) {
            return Some(i);
        }
        if i == 0 {
            assert(last_occurrence(s@, pat@, -1) is None);
            return None;
        }
        i = i - 1;
    }
}

/// Whether `pat` stands somewhere in `s`.
pub fn contains(s: &Vec<char>, pat: &Vec<char>) -> (found: bool)
    ensures
        found == contains_text(s@, pat@),
{
    if pat.len() > s.len() {
        return false;
    }
    let last: usize = s.len() - pat.len();
    let mut i: usize = 0;
    loop
        invariant
            pat.len() <= s.len(),
            last == s.len() - pat.len(),
            i <= last,
            forall|k: int| 0 <= k < i ==> !occurs_at(s@, pat@, k),
        decreases last - i,
    {
        if matches_at(s, pat, i) {
            return true;
        }
        if i == last {
            return false;
        }
        i = i + 1;
    }
}

/// The characters `s[from..to]`.
pub fn slice_of(s: &Vec<char>, from: usize, to: usize) -> (part: Vec<char>)
    requires
        from <= to <= s.len(),
    ensures
        part@ == s@.subrange(from as int, to as int),
{
    let mut part: Vec<char> = Vec::new();
    let mut i: usize = from;
    while i < to
        invariant
            from <= i <= to <= s.len(),
            part@ == s@.subrange(from as int, i as int),
        decreases to - i,
    {
        part.push(s[i]);
        proof {
            assert(part@ =~= s@.subrange(from as int, i + 1));
        }
        i = i + 1;
    }
    part
}

/// Appends `s`, and spaces after it until `width` characters are written.
pub fn push_padded(out: &mut String, s: &Vec<char>, width: usize)
    ensures
        final(out)@ == old(out)@ + padded(s@, width as nat),
{
    let ghost start = out@;
    let mut i: usize = 0;
    while i < s.len()
        invariant
            i <= s.len(),
            out@ == start + s@.subrange(0, i as int),
        decreases s.len() - i,
    {
        out.push(s[i]);
        proof {
            assert(out@ =~= start + s@.subrange(0, i + 1));
        }
        i = i + 1;
    }
    proof {
        assert(s@.subrange(0, s.len() as int) =~= s@);
        assert(out@ =~= start + s@ + Seq::new(0, |k: int| ' '));
    }
    while i < width
        invariant
            s.len() <= i,
            i <= width || s.len() >= width,
            s.len() >= width ==> i == s.len(),
            out@ == start + s@ + Seq::new((i - s.len()) as nat, |k: int| ' '),
        decreases width - i,
    {
        out.push(' ');
        proof {
            assert(out@ =~= start + s@ + Seq::new((i + 1 - s.len()) as nat, |k: int| ' '));
        }
        i = i + 1;
    }
    proof {
        if s.len() >= width {
            assert(out@ =~= start + padded(s@, width as nat));
        } else {
            assert(out@ =~= start + padded(s@, width as nat));
        }
    }
}

/// Whether two strings hold the same characters.
pub fn same_text(a: &str, b: &str) -> (same: bool)
    ensures
        same == (a@ == b@),
{
    let left = chars_of(a);
    let right = chars_of(b);
    if left.len() != right.len() {
        return false;
    }
    let mut i: usize = 0;
    while i < left.len()
        invariant
            left@ == a@,
            right@ == b@,
            left.len() == right.len(),
            i <= left.len(),
            forall|k: int| 0 <= k < i ==> left@[k] == right@[k],
        decreases left.len() - i,
    {
        if left[i] != right[i] {
            assert(a@[i as int] != b@[i as int]);
            return false;
        }
        i = i + 1;
    }
    proof {
        assert(left@ =~= right@);
    }
    true
}

/// The order of two texts from index `i` on, given that they agree before
/// it: negative where `a` comes first, positive where `b` does, zero where
/// they are equal.  Texts are ordered character by character, by code point,
/// and a text comes before every text that it is a proper prefix of.
pub open spec fn lex_from(a: Seq<char>, b: Seq<char>, i: int) -> int
    decreases a.len() - i,
{
    if i >= a.len() {
        if i >= b.len() {
            0
        } else {
            -1
        }
    } else if i >= b.len() {
        1
    } else if a[i] < b[i] {
        -1
    } else if a[i] > b[i] {
        1
    } else {
        lex_from(a, b, i + 1)
    }
}

/// The order of two texts: -1, 0 or 1.
pub open spec fn lex(a: Seq<char>, b: Seq<char>) -> int {
    lex_from(a, b, 0)
}

/// Orders two texts.
pub fn lex_sign(a: &Vec<char>, b: &Vec<char>) -> (sign: i8)
    ensures
        sign == lex(a@, b@),
{
    let mut i: usize = 0;
    while i < a.len() && i < b.len()
        invariant
            i <= a.len(),
            i <= b.len(),
            lex(a@, b@) == lex_from(a@, b@, i as int),
        decreases a.len() - i,
    {
        if a[i] < b[i] {
            return -1;
        }
        if a[i] > b[i] {
            return 1;
        }
        i = i + 1;
    }
    if i < b.len() {
        -1
    } else if i < a.len() {
        1
    } else {
        0
    }
}

/// Two texts are in no order exactly when they are the same text.
pub proof fn lemma_lex_zero(a: Seq<char>, b: Seq<char>)
    ensures
        lex(a, b) == 0 <==> a == b,
{
    lemma_lex_from_zero(a, b, 0);
    if lex(a, b) == 0 {
        assert(a =~= b);
    }
}

proof fn lemma_lex_from_zero(a: Seq<char>, b: Seq<char>, i: int)
    requires
        0 <= i,
    ensures
        lex_from(a, b, i) == 0 <==> a.len() <= i && b.len() <= i || a.len() == b.len()
            && forall|k: int| i <= k < a.len() ==> a[k] == b[k],
    decreases a.len() - i,
{
    if i < a.len() && i < b.len() {
        lemma_lex_from_zero(a, b, i + 1);
        if lex_from(a, b, i) == 0 {
            assert(!(a[i] < b[i]) && !(a[i] > b[i]));
            assert(a[i] == b[i]);
            assert forall|k: int| i <= k < a.len() implies a[k] == b[k] by {
                if k > i {
                    assert(i + 1 <= k);
                }
            }
        }
        if a.len() == b.len() && forall|k: int| i <= k < a.len() ==> a[k] == b[k] {
            assert(a[i] == b[i]);
            assert(lex_from(a, b, i) == lex_from(a, b, i + 1));
        }
    }
}

/// What a decimal digit stands for.
pub open spec fn digit_value(c: char) -> Option<nat> {
    if '0' <= c <= '9' {
        Some((c as u32 - '0' as u32) as nat)
    } else {
        None
    }
}

/// The number that `s[..n]` is the decimal numeral of, where all of it is
/// digits.  No digits at all stand for nothing.
pub open spec fn digits_value(s: Seq<char>, n: int) -> Option<nat>
    decreases n,
{
    if n <= 0 {
        None
    } else {
        match digit_value(s[n - 1]) {
            None => None,
            Some(d) => if n == 1 {
                Some(d)
            } else {
                match digits_value(s, n - 1) {
                    Some(v) => Some(v * 10 + d),
                    None => None,
                }
            },
        }
    }
}

/// The number written in `s`: digits, with nothing before them but at most
/// one `+` and nothing behind them, that stand for a number a `u32` can hold.
pub open spec fn parsed_u32(s: Seq<char>) -> Option<u32> {
    let digits = if s.len() > 0 && s[0] == '+' {
        s.subrange(1, s.len() as int)
    } else {
        s
    };
    match digits_value(digits, digits.len() as int) {
        Some(v) => if v <= u32::MAX {
            Some(v as u32)
        } else {
            None
        },
        None => None,
    }
}

proof fn lemma_digits_grow(s: Seq<char>, m: int, n: int)
    requires
        1 <= m <= n <= s.len(),
        digits_value(s, m) is Some,
    ensures
        digits_value(s, n) is Some ==> digits_value(s, n)->0 >= digits_value(s, m)->0,
    decreases n - m,
{
    if m < n {
        lemma_digits_grow(s, m, n - 1);
        if digits_value(s, n) is Some {
            let v = digits_value(s, n - 1)->0;
            let d = digit_value(s[n - 1])->0;
            assert(v * 10 + d >= v) by (nonlinear_arith)
                requires
                    v >= 0,
                    d >= 0,
            ;
        }
    }
}

proof fn lemma_digits_stop(s: Seq<char>, m: int, n: int)
    requires
        1 <= m <= n <= s.len(),
        digits_value(s, m) is None,
    ensures
        digits_value(s, n) is None,
    decreases n - m,
{
    if m < n {
        lemma_digits_stop(s, m, n - 1);
    }
}

fn digit_of(c: char) -> (d: Option<u64>)
    ensures
        match d {
            Some(v) => digit_value(c) == Some(v as nat) && v < 10,
            None => digit_value(c) is None,
        },
{
    if '0' <= c && c <= '9' {
        Some((c as u32 - '0' as u32) as u64)
    } else {
        None
    }
}

/// Reads a number as `u32::from_str_radix(_, 10)` does.
pub fn parse_u32(s: &Vec<char>) -> (r: Option<u32>)
    ensures
        r == parsed_u32(s@),
{
    let start: usize = if s.len() > 0 && s[0] == '+' {
        1
    } else {
        0
    };
    let ghost digits = s@.subrange(start as int, s.len() as int);
    proof {
        if start == 0 {
            assert(digits =~= s@);
        }
    }
    if start == s.len() {
        return None;
    }
    let mut value: u64 = 0;
    let mut i: usize = start;
    while i < s.len()
        invariant
            start <= i <= s.len(),
            start < s.len(),
            digits == s@.subrange(start as int, s.len() as int),
            parsed_u32(s@) == match digits_value(digits, digits.len() as int) {
                Some(v) => if v <= u32::MAX {
                    Some(v as u32)
                } else {
                    None
                },
                None => None,
            },
            value <= u32::MAX,
            i > start ==> digits_value(digits, i - start) == Some(value as nat),
            i == start ==> value == 0,
        decreases s.len() - i,
    {
        proof {
            assert(digits[i - start] == s@[i as int]);
        }
        match digit_of(s[i]) {
            None => {
                proof {
                    assert(digits_value(digits, i - start + 1) is None);
                    lemma_digits_stop(digits, i - start + 1, digits.len() as int);
                }
                return None;
            },
            Some(d) => {
                let next: u64 = value * 10 + d;
                proof {
                    if i > start {
                        assert(digits_value(digits, i - start + 1) == Some(next as nat));
                    } else {
                        assert(digits_value(digits, 1) == Some(next as nat));
                    }
                }
                if next > 0xffff_ffff {
                    proof {
                        lemma_digits_grow(digits, i - start + 1, digits.len() as int);
                    }
                    return None;
                }
                value = next;
            },
        }
        i = i + 1;
    }
    Some(value as u32)
}

/// The decimal numeral of `n`, with a minus sign in front of it where `n`
/// is negative.
pub open spec fn decimal_int(n: int) -> Seq<char> {
    if n < 0 {
        seq!['-'] + decimal((-n) as nat)
    } else {
        decimal(n as nat)
    }
}

/// `s` with as many spaces in front of it as it lacks to be `width`
/// characters long.
pub open spec fn padded_left(s: Seq<char>, width: nat) -> Seq<char> {
    if s.len() >= width {
        s
    } else {
        Seq::new((width - s.len()) as nat, |i: int| ' ') + s
    }
}

/// The decimal numeral of `n`.
pub fn numeral(n: i64) -> (digits: Vec<char>)
    ensures
        digits@ == decimal_int(n as int),
{
    let mut out = String::new();
    if n < 0 {
        out.push('-');
        if n == i64::MIN {
            push_decimal(&mut out, 9223372036854775808u64);
        } else {
            push_decimal(&mut out, (-n) as u64);
        }
    } else {
        push_decimal(&mut out, n as u64);
    }
    proof {
        assert(out@ =~= decimal_int(n as int));
    }
    chars_of(out.as_str())
}

/// Appends spaces until `s` would end at `width` characters, and then `s`.
pub fn push_padded_left(out: &mut String, s: &Vec<char>, width: usize)
    ensures
        final(out)@ == old(out)@ + padded_left(s@, width as nat),
{
    let ghost start = out@;
    let mut i: usize = s.len();
    proof {
        assert(out@ =~= start + Seq::new(0, |k: int| ' '));
    }
    while i < width
        invariant
            s.len() <= i,
            i <= width || s.len() >= width,
            s.len() >= width ==> i == s.len(),
            out@ == start + Seq::new((i - s.len()) as nat, |k: int| ' '),
        decreases width - i,
    {
        out.push(' ');
        proof {
            assert(out@ =~= start + Seq::new((i + 1 - s.len()) as nat, |k: int| ' '));
        }
        i = i + 1;
    }
    let ghost filled = out@;
    let mut k: usize = 0;
    while k < s.len()
        invariant
            k <= s.len(),
            out@ == filled + s@.subrange(0, k as int),
        decreases s.len() - k,
    {
        out.push(s[k]);
        proof {
            assert(out@ =~= filled + s@.subrange(0, k + 1));
        }
        k = k + 1;
    }
    proof {
        assert(s@.subrange(0, s.len() as int) =~= s@);
        assert(out@ =~= start + padded_left(s@, width as nat));
    }
}

} // verus!
