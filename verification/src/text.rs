//! Text helpers: splitting, joining, trimming, searching and decimal numbers.

use vstd::prelude::*;
use vstd::utf8::*;

verus! {

/// `String::push` appends one character to the end of the string.
pub assume_specification[ String::push ](s: &mut String, c: char)
    ensures
        final(s)@ == old(s)@.push(c),
;

// ---- characters of a string ----

/// The characters of `s`, in order.
pub fn chars_of(s: &str) -> (out: Vec<char>)
    ensures
        out@ == s@,
{
    let mut out: Vec<char> = Vec::new();
    for c in it: s.chars()
        invariant
            it.seq() == s@,
            out@ == s@.take(it.index()),
    {
        out.push(c);
    }
    out
}

/// The string whose characters are `chars`.
pub fn string_of(chars: &Vec<char>) -> (out: String)
    ensures
        out@ == chars@,
{
    let mut out = String::new();
    for i in 0..chars.len()
        invariant
            out@ == chars@.take(i as int),
    {
        out.push(chars[i]);
    }
    out
}

/// Whether two strings hold the same characters.
pub fn str_eq(a: &str, b: &str) -> (r: bool)
    ensures
        r == (a@ == b@),
{
    let x = chars_of(a);
    let y = chars_of(b);
    if x.len() != y.len() {
        return false;
    }
    for i in 0..x.len()
        invariant
            x@ == a@,
            y@ == b@,
            x.len() == y.len(),
            forall|j: int| 0 <= j < i ==> x@[j] == y@[j],
    {
        if x[i] != y[i] {
            return false;
        }
    }
    assert(a@ =~= b@);
    true
}

// ---- splitting and joining ----

/// The pieces of `s` between occurrences of `sep`; always at least one piece.
pub open spec fn split(s: Seq<char>, sep: char) -> Seq<Seq<char>>
    decreases s.len(),
{
    if s.len() == 0 {
        seq![seq![]]
    } else {
        let init = split(s.drop_last(), sep);
        if s.last() == sep {
            init.push(seq![])
        } else {
            init.drop_last().push(init.last().push(s.last()))
        }
    }
}

/// The parts with one `sep` between each two neighbours.
pub open spec fn join(parts: Seq<Seq<char>>, sep: char) -> Seq<char>
    decreases parts.len(),
{
    if parts.len() == 0 {
        seq![]
    } else if parts.len() == 1 {
        parts[0]
    } else {
        join(parts.drop_last(), sep).push(sep) + parts.last()
    }
}

/// `s` without the run of `c` at its end.
pub open spec fn trim_end(s: Seq<char>, c: char) -> Seq<char>
    decreases s.len(),
{
    if s.len() > 0 && s.last() == c {
        trim_end(s.drop_last(), c)
    } else {
        s
    }
}

/// The views of a vector of strings.
pub open spec fn views(v: Seq<String>) -> Seq<Seq<char>> {
    Seq::new(v.len(), |i: int| v[i]@)
}

/// Splitting never yields an empty list.
pub proof fn lemma_split_nonempty(s: Seq<char>, sep: char)
    ensures
        split(s, sep).len() >= 1,
    decreases s.len(),
{
    if s.len() > 0 {
        lemma_split_nonempty(s.drop_last(), sep);
    }
}

/// No piece of a split text holds the separator.
pub proof fn lemma_split_pieces(s: Seq<char>, sep: char)
    ensures
        forall|i: int| 0 <= i < split(s, sep).len() ==> !(#[trigger] split(s, sep)[i]).contains(sep),
    decreases s.len(),
{
    lemma_split_nonempty(s, sep);
    if s.len() > 0 {
        let init = split(s.drop_last(), sep);
        lemma_split_pieces(s.drop_last(), sep);
        lemma_split_nonempty(s.drop_last(), sep);
        if s.last() != sep {
            let piece = init.last();
            assert(!init[init.len() - 1].contains(sep));
            assert(!piece.push(s.last()).contains(sep)) by {
                assert forall|k: int| 0 <= k < piece.len() + 1 implies piece.push(s.last())[k]
                    != sep by {
                    if k < piece.len() {
                        assert(piece.contains(piece[k]));
                    }
                }
            }
        }
    }
}

/// A separator at the end adds one empty piece.
pub proof fn lemma_split_push_sep(s: Seq<char>, sep: char)
    ensures
        split(s.push(sep), sep) == split(s, sep).push(seq![]),
{
    assert(s.push(sep).drop_last() =~= s);
}

/// A separator and a text that holds none add that text as one piece.
pub proof fn lemma_split_append(s: Seq<char>, t: Seq<char>, sep: char)
    requires
        !t.contains(sep),
    ensures
        split(s.push(sep) + t, sep) == split(s, sep).push(t),
    decreases t.len(),
{
    let whole = s.push(sep) + t;
    if t.len() == 0 {
        assert(whole =~= s.push(sep));
        lemma_split_push_sep(s, sep);
        assert(t =~= seq![]);
    } else {
        let shorter = t.drop_last();
        assert(!shorter.contains(sep)) by {
            assert forall|k: int| 0 <= k < shorter.len() implies shorter[k] != sep by {
                assert(t.contains(t[k]));
            }
        }
        lemma_split_append(s, shorter, sep);
        assert(whole.drop_last() =~= s.push(sep) + shorter);
        assert(t.contains(t.last()));
        assert(split(s, sep).push(shorter).drop_last() =~= split(s, sep));
        assert(shorter.push(t.last()) =~= t);
    }
}

/// A text without the separator is one piece.
pub proof fn lemma_split_single(t: Seq<char>, sep: char)
    requires
        !t.contains(sep),
    ensures
        split(t, sep) == seq![t],
    decreases t.len(),
{
    if t.len() == 0 {
        assert(t =~= seq![]);
        assert(split(t, sep) =~= seq![t]);
    } else {
        let shorter = t.drop_last();
        assert(!shorter.contains(sep)) by {
            assert forall|k: int| 0 <= k < shorter.len() implies shorter[k] != sep by {
                assert(t.contains(t[k]));
            }
        }
        lemma_split_single(shorter, sep);
        assert(t.contains(t.last()));
        assert(shorter.push(t.last()) =~= t);
        assert(split(t, sep) =~= seq![t]);
    }
}

/// Splitting undoes joining, for parts that do not hold the separator.
pub proof fn lemma_split_join(parts: Seq<Seq<char>>, sep: char)
    requires
        parts.len() > 0,
        forall|i: int| 0 <= i < parts.len() ==> !(#[trigger] parts[i]).contains(sep),
    ensures
        split(join(parts, sep), sep) == parts,
    decreases parts.len(),
{
    assert(!parts[parts.len() - 1].contains(sep));
    if parts.len() == 1 {
        lemma_split_single(parts[0], sep);
        assert(seq![parts[0]] =~= parts);
    } else {
        lemma_split_join(parts.drop_last(), sep);
        lemma_split_append(join(parts.drop_last(), sep), parts.last(), sep);
        assert(parts.drop_last().push(parts.last()) =~= parts);
    }
}

/// The length of a joined text, from a bound on the length of its parts.
pub proof fn lemma_join_len(parts: Seq<Seq<char>>, sep: char, bound: nat)
    requires
        forall|i: int| 0 <= i < parts.len() ==> (#[trigger] parts[i]).len() <= bound,
    ensures
        join(parts, sep).len() <= parts.len() * (bound + 1),
    decreases parts.len(),
{
    if parts.len() > 0 {
        assert(parts[parts.len() - 1].len() <= bound);
        assert(parts.len() * (bound + 1) == (parts.len() - 1) * (bound + 1) + (bound + 1))
            by (nonlinear_arith);
        assert(parts.drop_last().len() == parts.len() - 1);
        if parts.len() > 1 {
            lemma_join_len(parts.drop_last(), sep, bound);
        } else {
            assert((parts.len() - 1) * (bound + 1) == 0) by (nonlinear_arith)
                requires
                    parts.len() == 1,
            ;
        }
    }
}

/// The number of characters in all parts together.
pub open spec fn total(parts: Seq<Seq<char>>) -> nat
    decreases parts.len(),
{
    if parts.len() == 0 {
        0
    } else {
        total(parts.drop_last()) + parts.last().len()
    }
}

/// One more part adds its length.
pub proof fn lemma_total_push(parts: Seq<Seq<char>>, part: Seq<char>)
    ensures
        total(parts.push(part)) == total(parts) + part.len(),
{
    assert(parts.push(part).drop_last() =~= parts);
}

/// A part in another's place adds at most its own length.
pub proof fn lemma_total_update(parts: Seq<Seq<char>>, i: int, part: Seq<char>)
    requires
        0 <= i < parts.len(),
    ensures
        total(parts.update(i, part)) <= total(parts) + part.len(),
    decreases parts.len(),
{
    let next = parts.update(i, part);
    if i == parts.len() - 1 {
        assert(next.drop_last() =~= parts.drop_last());
    } else {
        lemma_total_update(parts.drop_last(), i, part);
        assert(next.drop_last() =~= parts.drop_last().update(i, part));
    }
}

/// The first parts hold no more than all of them.
pub proof fn lemma_total_take(parts: Seq<Seq<char>>, k: int)
    requires
        0 <= k <= parts.len(),
    ensures
        total(parts.take(k)) <= total(parts),
    decreases parts.len(),
{
    if k == parts.len() {
        assert(parts.take(k) =~= parts);
    } else {
        lemma_total_take(parts.drop_last(), k);
        assert(parts.drop_last().take(k) =~= parts.take(k));
    }
}

/// The pieces of a text hold no more characters than the text.
pub proof fn lemma_split_total(s: Seq<char>, sep: char)
    ensures
        total(split(s, sep)) <= s.len(),
    decreases s.len(),
{
    if s.len() == 0 {
        assert(split(s, sep).drop_last() =~= seq![]);
        assert(total(split(s, sep).drop_last()) == 0);
    } else {
        let init = split(s.drop_last(), sep);
        lemma_split_total(s.drop_last(), sep);
        lemma_split_nonempty(s.drop_last(), sep);
        if s.last() == sep {
            lemma_total_push(init, seq![]);
        } else {
            lemma_total_push(init.drop_last(), init.last().push(s.last()));
        }
    }
}

/// A joined text holds its parts and fewer separators than parts.
pub proof fn lemma_join_total(parts: Seq<Seq<char>>, sep: char)
    ensures
        join(parts, sep).len() <= total(parts) + parts.len(),
    decreases parts.len(),
{
    if parts.len() == 1 {
        assert(parts.drop_last() =~= seq![]);
    } else if parts.len() > 1 {
        lemma_join_total(parts.drop_last(), sep);
    }
}

/// Trimming only shortens.
pub proof fn lemma_trim_end_len(s: Seq<char>, c: char)
    ensures
        trim_end(s, c).len() <= s.len(),
    decreases s.len(),
{
    if s.len() > 0 && s.last() == c {
        lemma_trim_end_len(s.drop_last(), c);
    }
}

/// A character takes from one to four bytes.
pub proof fn lemma_encode_utf8_len(s: Seq<char>)
    ensures
        s.len() <= encode_utf8(s).len() <= 4 * s.len(),
    decreases s.len(),
{
    if s.len() > 0 {
        lemma_encode_utf8_len(s.drop_first());
    }
}

/// The pieces of `s` between occurrences of `sep`.
pub fn split_str(s: &str, sep: char) -> (out: Vec<String>)
    ensures
        views(out@) == split(s@, sep),
{
    let chars = chars_of(s);
    let mut out: Vec<String> = Vec::new();
    let mut cur = String::new();
    assert(views(out@).push(cur@) =~= split(chars@.take(0), sep));
    for i in 0..chars.len()
        invariant
            views(out@).push(cur@) == split(chars@.take(i as int), sep),
    {
        let c = chars[i];
        let ghost before = views(out@);
        let ghost piece = cur@;
        proof {
            assert(chars@.take(i + 1).drop_last() =~= chars@.take(i as int));
            assert(before.push(piece).drop_last() =~= before);
        }
        if c == sep {
            out.push(cur);
            cur = String::new();
            assert(views(out@) =~= before.push(piece));
        } else {
            cur.push(c);
        }
    }
    assert(chars@.take(chars.len() as int) =~= s@);
    let ghost before = views(out@);
    let ghost piece = cur@;
    out.push(cur);
    assert(views(out@) =~= before.push(piece));
    out
}

/// The parts with one `sep` between each two neighbours.
pub fn join_strings(parts: &Vec<String>, sep: char) -> (out: String)
    ensures
        out@ == join(views(parts@), sep),
{
    let mut out = String::new();
    for i in 0..parts.len()
        invariant
            out@ == join(views(parts@).take(i as int), sep),
    {
        if i > 0 {
            out.push(sep);
        }
        out.append(parts[i].as_str());
        proof {
            let all = views(parts@);
            assert(all.take(i + 1).drop_last() =~= all.take(i as int));
            assert(Seq::<char>::empty() + all[i as int] =~= all[i as int]);
        }
    }
    assert(views(parts@).take(parts.len() as int) =~= views(parts@));
    out
}

/// `s` without the run of `c` at its end.
pub fn trim_end_char(s: &str, c: char) -> (out: String)
    ensures
        out@ == trim_end(s@, c),
{
    let mut chars = chars_of(s);
    while chars.len() > 0 && chars[chars.len() - 1] == c
        invariant
            trim_end(chars@, c) == trim_end(s@, c),
        decreases chars.len(),
    {
        let ghost before = chars@;
        chars.pop();
        assert(chars@ =~= before.drop_last());
    }
    string_of(&chars)
}

// ---- searching ----

/// `pat` stands in `s` at index `i`.
pub open spec fn occurs_at(s: Seq<char>, pat: Seq<char>, i: int) -> bool {
    0 <= i && i + pat.len() <= s.len() && s.subrange(i, i + pat.len()) == pat
}

/// `pat` stands somewhere in `s`.
pub open spec fn contains_text(s: Seq<char>, pat: Seq<char>) -> bool {
    exists|i: int| occurs_at(s, pat, i)
}

fn matches_at(s: &Vec<char>, pat: &Vec<char>, i: usize) -> (r: bool)
    requires
        i + pat.len() <= s.len(),
    ensures
        r == occurs_at(s@, pat@, i as int),
{
    let ghost window = s@.subrange(i as int, i + pat@.len());
    for j in 0..pat.len()
        invariant
            i + pat.len() <= s.len(),
            window == s@.subrange(i as int, i + pat@.len()),
            forall|k: int| 0 <= k < j ==> window[k] == pat@[k],
    {
        if s[i + j] != pat[j] {
            assert(window[j as int] != pat@[j as int]);
            return false;
        }
    }
    assert(window =~= pat@);
    true
}

/// The first index at which `pat` stands in `s`.
pub fn find_chars(s: &Vec<char>, pat: &Vec<char>) -> (r: Option<usize>)
    ensures
        match r {
            Some(i) => occurs_at(s@, pat@, i as int) && forall|j: int|
                0 <= j < i ==> !#[trigger] occurs_at(s@, pat@, j),
            None => !contains_text(s@, pat@),
        },
{
    if pat.len() > s.len() {
        return None;
    }
    let last = s.len() - pat.len();
    let mut i: usize = 0;
    while i < last
        invariant
            i <= last,
            last + pat.len() == s.len(),
            forall|j: int| 0 <= j < i ==> !#[trigger] occurs_at(s@, pat@, j),
        decreases last - i,
    {
        if matches_at(s, pat, i) {
            return Some(i);
        }
        i += 1;
    }
    if matches_at(s, pat, i) {
        return Some(i);
    }
    None
}

/// Whether `pat` stands somewhere in `s`.
pub fn str_contains(s: &str, pat: &str) -> (r: bool)
    ensures
        r == contains_text(s@, pat@),
{
    let x = chars_of(s);
    let y = chars_of(pat);
    match find_chars(&x, &y) {
        Some(_) => true,
        None => false,
    }
}

/// Whether the character `c` stands somewhere in `s`.
pub fn str_contains_char(s: &str, c: char) -> (r: bool)
    ensures
        r == s@.contains(c),
{
    let chars = chars_of(s);
    for i in 0..chars.len()
        invariant
            chars@ == s@,
            forall|j: int| 0 <= j < i ==> chars@[j] != c,
    {
        if chars[i] == c {
            return true;
        }
    }
    false
}

// ---- letter case and white space ----

/// An ASCII capital letter becomes its small letter; every other character stays.
pub open spec fn ascii_lower(c: char) -> char {
    if 'A' <= c && c <= 'Z' {
        ((c as u32) + 32) as char
    } else {
        c
    }
}

/// `s` with every ASCII capital letter made small.
pub open spec fn ascii_lowercase(s: Seq<char>) -> Seq<char> {
    s.map_values(|c: char| ascii_lower(c))
}

/// `s` with every ASCII capital letter made small.
pub fn to_ascii_lowercase(s: &str) -> (out: String)
    ensures
        out@ == ascii_lowercase(s@),
{
    let chars = chars_of(s);
    let mut out = String::new();
    for i in 0..chars.len()
        invariant
            chars@ == s@,
            out@ == ascii_lowercase(s@).take(i as int),
    {
        let c = chars[i];
        let lower = if 'A' <= c && c <= 'Z' {
            ((c as u8) + 32) as char
        } else {
            c
        };
        assert(lower == ascii_lowercase(s@)[i as int]);
        out.push(lower);
        assert(ascii_lowercase(s@).take(i + 1) =~= ascii_lowercase(s@).take(i as int).push(lower));
    }
    assert(ascii_lowercase(s@).take(chars.len() as int) =~= ascii_lowercase(s@));
    out
}

/// The characters with the Unicode property `White_Space`.
pub open spec fn is_white_space(c: char) -> bool {
    let u = c as u32;
    ||| 0x9 <= u <= 0xd
    ||| u == 0x20
    ||| u == 0x85
    ||| u == 0xa0
    ||| u == 0x1680
    ||| 0x2000 <= u <= 0x200a
    ||| u == 0x2028
    ||| u == 0x2029
    ||| u == 0x202f
    ||| u == 0x205f
    ||| u == 0x3000
}

/// `s` holds nothing but white space.
pub open spec fn is_blank(s: Seq<char>) -> bool {
    forall|i: int| 0 <= i < s.len() ==> is_white_space(#[trigger] s[i])
}

/// Whether `s` holds nothing but white space.
pub fn str_is_blank(s: &str) -> (r: bool)
    ensures
        r == is_blank(s@),
{
    let chars = chars_of(s);
    for i in 0..chars.len()
        invariant
            chars@ == s@,
            forall|j: int| 0 <= j < i ==> is_white_space(#[trigger] s@[j]),
    {
        let u: u32 = chars[i] as u32;
        let white = (0x9 <= u && u <= 0xd) || u == 0x20 || u == 0x85 || u == 0xa0 || u == 0x1680
            || (0x2000 <= u && u <= 0x200a) || u == 0x2028 || u == 0x2029 || u == 0x202f
            || u == 0x205f || u == 0x3000;
        if !white {
            assert(!is_white_space(s@[i as int]));
            return false;
        }
    }
    true
}

// ---- decimal numbers ----

/// The character of a decimal digit.
pub open spec fn digit_char(d: nat) -> char {
    (0x30 + d) as char
}

/// The decimal digits of `n`, without leading zeros.
pub open spec fn decimal(n: nat) -> Seq<char>
    decreases n,
{
    if n < 10 {
        seq![digit_char(n)]
    } else {
        decimal(n / 10).push(digit_char(n % 10))
    }
}

/// `c` is a decimal digit.
pub open spec fn is_digit(c: char) -> bool {
    '0' <= c && c <= '9'
}

/// `s` holds nothing but decimal digits.
pub open spec fn all_digits(s: Seq<char>) -> bool {
    forall|i: int| 0 <= i < s.len() ==> is_digit(#[trigger] s[i])
}

/// The number that a run of decimal digits denotes.
pub open spec fn digits_value(s: Seq<char>) -> nat
    decreases s.len(),
{
    if s.len() == 0 {
        0
    } else {
        digits_value(s.drop_last()) * 10 + (s.last() as nat - 0x30) as nat
    }
}

fn push_decimal(out: &mut String, n: u64)
    ensures
        final(out)@ == old(out)@ + decimal(n as nat),
    decreases n,
{
    if n >= 10 {
        push_decimal(out, n / 10);
    }
    let d: u8 = (n % 10) as u8;
    out.push((0x30u8 + d) as char);
    assert(out@ =~= old(out)@ + decimal(n as nat));
}

/// The decimal text of `n`.
pub fn decimal_string(n: u64) -> (out: String)
    ensures
        out@ == decimal(n as nat),
{
    let mut out = String::new();
    push_decimal(&mut out, n);
    assert(out@ =~= decimal(n as nat));
    out
}

/// The integer that `s` denotes: an optional `+` (or, where `signed`, `-`), then at least one
/// decimal digit and nothing else.
pub open spec fn integer_text(s: Seq<char>, signed: bool) -> Option<int> {
    let negative = signed && s.len() > 0 && s[0] == '-';
    let digits = if s.len() > 0 && (s[0] == '+' || negative) {
        s.drop_first()
    } else {
        s
    };
    if digits.len() > 0 && all_digits(digits) {
        Some(if negative { -digits_value(digits) } else { digits_value(digits) as int })
    } else {
        None
    }
}

/// The `i32` that `s` denotes, if it denotes one.
pub open spec fn i32_text(s: Seq<char>) -> Option<i32> {
    match integer_text(s, true) {
        Some(v) => if i32::MIN <= v <= i32::MAX { Some(v as i32) } else { None },
        None => None,
    }
}

/// The `u8` that `s` denotes, if it denotes one.
pub open spec fn u8_text(s: Seq<char>) -> Option<u8> {
    match integer_text(s, false) {
        Some(v) => if v <= u8::MAX { Some(v as u8) } else { None },
        None => None,
    }
}

/// Values above this are told apart from those below it, not from each other.
const DIGITS_CAP: u64 = 0x1_0000_0000;

/// The value of the digits from index `from` on, cut off above `DIGITS_CAP`; `None` where there
/// is no digit or a character that is none.
fn read_digits(chars: &Vec<char>, from: usize) -> (r: Option<u64>)
    requires
        from <= chars.len(),
    ensures
        ({
            let digits = chars@.skip(from as int);
            match r {
                Some(v) => {
                    &&& digits.len() > 0 && all_digits(digits)
                    &&& v < DIGITS_CAP ==> digits_value(digits) == v
                    &&& v >= DIGITS_CAP ==> digits_value(digits) >= DIGITS_CAP
                },
                None => digits.len() == 0 || !all_digits(digits),
            }
        }),
{
    let ghost digits = chars@.skip(from as int);
    if from == chars.len() {
        return None;
    }
    let mut v: u64 = 0;
    let mut i: usize = from;
    while i < chars.len()
        invariant
            from <= i <= chars.len(),
            digits == chars@.skip(from as int),
            all_digits(digits.take(i - from)),
            v < DIGITS_CAP ==> digits_value(digits.take(i - from)) == v,
            v >= DIGITS_CAP ==> digits_value(digits.take(i - from)) >= DIGITS_CAP,
        decreases chars.len() - i,
    {
        let c = chars[i];
        assert(digits[i - from] == c);
        if !('0' <= c && c <= '9') {
            assert(!all_digits(digits));
            return None;
        }
        let d: u64 = ((c as u8) - 0x30) as u64;
        proof {
            let longer = digits.take(i + 1 - from);
            assert(longer.drop_last() =~= digits.take(i - from));
            assert(longer.last() == c);
            assert forall|k: int| 0 <= k < longer.len() implies is_digit(#[trigger] longer[k]) by {
                if k < i - from {
                    assert(longer[k] == digits.take(i - from)[k]);
                }
            }
        }
        v = if v >= DIGITS_CAP { DIGITS_CAP } else { v * 10 + d };
        i += 1;
    }
    assert(digits.take(i - from) =~= digits);
    Some(v)
}

/// Reads an `i32`.
pub fn parse_i32(s: &str) -> (r: Option<i32>)
    ensures
        r == i32_text(s@),
{
    let chars = chars_of(s);
    if chars.len() == 0 {
        return None;
    }
    let negative = chars[0] == '-';
    let from: usize = if chars[0] == '+' || negative { 1 } else { 0 };
    proof {
        assert(chars@.skip(0) =~= chars@);
        assert(chars@.skip(1) =~= chars@.drop_first());
    }
    match read_digits(&chars, from) {
        None => None,
        Some(v) => {
            if negative {
                if v <= 0x8000_0000 {
                    Some((0 - (v as i64)) as i32)
                } else {
                    None
                }
            } else if v <= 0x7fff_ffff {
                Some(v as i32)
            } else {
                None
            }
        },
    }
}

/// Reads a `u8`.
pub fn parse_u8(s: &str) -> (r: Option<u8>)
    ensures
        r == u8_text(s@),
{
    let chars = chars_of(s);
    if chars.len() == 0 {
        return None;
    }
    let from: usize = if chars[0] == '+' { 1 } else { 0 };
    proof {
        assert(chars@.skip(0) =~= chars@);
        assert(chars@.skip(1) =~= chars@.drop_first());
    }
    match read_digits(&chars, from) {
        None => None,
        Some(v) => {
            if v <= 0xff {
                Some(v as u8)
            } else {
                None
            }
        },
    }
}

// ---- laws ----

/// Ten to the power of `k`.
pub open spec fn power_of_ten(k: nat) -> nat
    decreases k,
{
    if k == 0 {
        1
    } else {
        10 * power_of_ten((k - 1) as nat)
    }
}

/// A decimal text is a run of digits that denotes its number.
pub proof fn law_decimal_denotes_its_number(n: nat)
    ensures
        decimal(n).len() > 0,
        all_digits(decimal(n)),
        digits_value(decimal(n)) == n,
    decreases n,
{
    if n < 10 {
        assert(decimal(n).drop_last() =~= seq![]);
        assert(digits_value(decimal(n).drop_last()) == 0);
        assert(decimal(n).last() == digit_char(n));
    } else {
        let shorter = decimal(n / 10);
        law_decimal_denotes_its_number(n / 10);
        assert(decimal(n).drop_last() =~= shorter);
        assert(decimal(n).last() == digit_char(n % 10));
        assert forall|i: int| 0 <= i < decimal(n).len() implies is_digit(
            #[trigger] decimal(n)[i],
        ) by {
            if i < shorter.len() {
                assert(is_digit(shorter[i]));
            }
        }
    }
}

/// A number below ten to the power of `k` has at most `k` digits.
pub proof fn law_decimal_length(n: nat, k: nat)
    requires
        k > 0,
        n < power_of_ten(k),
    ensures
        decimal(n).len() <= k,
    decreases k,
{
    if n >= 10 {
        assert(k > 1) by {
            if k == 1 {
                assert(power_of_ten(1) == 10 * power_of_ten(0));
            }
        }
        law_decimal_length(n / 10, (k - 1) as nat);
    }
}

/// Reading the decimal text of a number gives back the number.
pub proof fn law_read_of_decimal(n: nat)
    ensures
        integer_text(decimal(n), true) == Some(n as int),
        integer_text(decimal(n), false) == Some(n as int),
        n <= i32::MAX ==> i32_text(decimal(n)) == Some(n as i32),
        n <= u8::MAX ==> u8_text(decimal(n)) == Some(n as u8),
{
    law_decimal_denotes_its_number(n);
    assert(is_digit(decimal(n)[0]));
}

/// A decimal text does not hold a character that is no digit.
pub proof fn lemma_decimal_free_of(n: nat, c: char)
    requires
        !is_digit(c),
    ensures
        !decimal(n).contains(c),
{
    law_decimal_denotes_its_number(n);
    assert forall|i: int| 0 <= i < decimal(n).len() implies decimal(n)[i] != c by {
        assert(is_digit(decimal(n)[i]));
    }
}

/// The decimal text of a 64-bit number has at most twenty digits.
pub proof fn lemma_decimal_u64_len(n: u64)
    ensures
        decimal(n as nat).len() <= 20,
{
    reveal_with_fuel(power_of_ten, 21);
    assert(power_of_ten(20) == 100_000_000_000_000_000_000);
    law_decimal_length(n as nat, 20);
}

/// Joining the pieces of a text gives back the text, and no piece holds the separator.
pub proof fn law_pieces_make_up_the_text(s: Seq<char>, sep: char)
    ensures
        join(split(s, sep), sep) == s,
        split(s, sep).len() >= 1,
        forall|i: int, k: int|
            0 <= i < split(s, sep).len() && 0 <= k < split(s, sep)[i].len() ==> #[trigger] split(
                s,
                sep,
            )[i][k] != sep,
    decreases s.len(),
{
    lemma_split_nonempty(s, sep);
    lemma_split_pieces(s, sep);
    assert forall|i: int, k: int|
        0 <= i < split(s, sep).len() && 0 <= k < split(s, sep)[i].len() implies #[trigger] split(
        s,
        sep,
    )[i][k] != sep by {
        assert(!split(s, sep)[i].contains(sep));
        assert(split(s, sep)[i].contains(split(s, sep)[i][k]));
    }
    if s.len() == 0 {
        assert(join(split(s, sep), sep) =~= s);
    } else {
        let shorter = s.drop_last();
        let init = split(shorter, sep);
        law_pieces_make_up_the_text(shorter, sep);
        lemma_split_nonempty(shorter, sep);
        if s.last() == sep {
            assert(init.push(seq![]).drop_last() =~= init);
            assert(join(split(s, sep), sep) =~= s);
        } else {
            let grown = init.last().push(s.last());
            assert(init.drop_last().push(grown).drop_last() =~= init.drop_last());
            if init.len() == 1 {
                assert(split(s, sep)[0] == grown);
                assert(init[0] == init.last());
            }
            assert(join(split(s, sep), sep) =~= join(init, sep).push(s.last()));
            assert(shorter.push(s.last()) =~= s);
        }
    }
}

/// One part joined is that part; two runs of parts are joined with one separator between them.
pub proof fn law_join_of_runs(a: Seq<Seq<char>>, b: Seq<Seq<char>>, part: Seq<char>, sep: char)
    requires
        a.len() > 0,
        b.len() > 0,
    ensures
        join(seq![part], sep) == part,
        join(a + b, sep) == join(a, sep) + seq![sep] + join(b, sep),
    decreases b.len(),
{
    let whole = a + b;
    if b.len() == 1 {
        assert(whole.drop_last() =~= a);
        assert(whole.last() == b[0]);
        assert(join(whole, sep) =~= join(a, sep) + seq![sep] + join(b, sep));
    } else {
        law_join_of_runs(a, b.drop_last(), part, sep);
        assert(whole.drop_last() =~= a + b.drop_last());
        assert(whole.last() == b.last());
        assert(join(whole, sep) =~= join(a, sep) + seq![sep] + join(b, sep));
    }
}

/// Trimming cuts off the longest run of the character at the end, and nothing else.
pub proof fn law_trim_end_cuts_the_whole_run(s: Seq<char>, c: char)
    ensures
        trim_end(s, c).len() <= s.len(),
        forall|i: int| 0 <= i < trim_end(s, c).len() ==> #[trigger] trim_end(s, c)[i] == s[i],
        forall|i: int| trim_end(s, c).len() <= i < s.len() ==> #[trigger] s[i] == c,
        trim_end(s, c).len() > 0 ==> trim_end(s, c)[trim_end(s, c).len() - 1] != c,
    decreases s.len(),
{
    if s.len() > 0 && s.last() == c {
        let shorter = s.drop_last();
        law_trim_end_cuts_the_whole_run(shorter, c);
        assert forall|i: int| trim_end(s, c).len() <= i < s.len() implies #[trigger] s[i] == c by {
            if i < shorter.len() {
                assert(shorter[i] == c);
            }
        }
    }
}

/// Small letters take the place of ASCII capitals, one for one; every other character stays.
pub proof fn law_ascii_lowercase_of_each_character(s: Seq<char>, i: int)
    requires
        0 <= i < s.len(),
    ensures
        ascii_lowercase(s).len() == s.len(),
        0x41 <= s[i] as u32 <= 0x5a ==> ascii_lowercase(s)[i] as u32 == s[i] as u32 + 32,
        !(0x41 <= s[i] as u32 <= 0x5a) ==> ascii_lowercase(s)[i] == s[i],
{
}

/// A text stands in every text around it, and a text that it stands in holds its characters in a
/// row.
pub proof fn law_contained_text_stands_in_a_row(
    a: Seq<char>,
    pat: Seq<char>,
    b: Seq<char>,
    s: Seq<char>,
)
    ensures
        contains_text(a + pat + b, pat),
        contains_text(s, pat) ==> exists|i: int|
            0 <= i && i + pat.len() <= s.len() && #[trigger] s.subrange(i, i + pat.len()) == pat,
{
    let whole = a + pat + b;
    let n = a.len() as int;
    assert(whole.subrange(n, n + pat.len()) =~= pat);
    assert(occurs_at(whole, pat, n));
    if contains_text(s, pat) {
        let i = choose|i: int| occurs_at(s, pat, i);
        assert(s.subrange(i, i + pat.len()) == pat);
    }
}

/// No text is blank, and two texts together are blank exactly where both are.
pub proof fn law_blank_texts(a: Seq<char>, b: Seq<char>)
    ensures
        is_blank(Seq::<char>::empty()),
        is_blank(a + b) <==> is_blank(a) && is_blank(b),
        a.len() == 1 && a[0] == 'a' ==> !is_blank(a),
        a.len() == 1 && a[0] == ' ' ==> is_blank(a),
{
    let whole = a + b;
    if is_blank(whole) {
        assert forall|i: int| 0 <= i < a.len() implies is_white_space(#[trigger] a[i]) by {
            assert(is_white_space(whole[i]));
        }
        assert forall|i: int| 0 <= i < b.len() implies is_white_space(#[trigger] b[i]) by {
            assert(is_white_space(whole[a.len() + i]));
        }
    }
    if a.len() == 1 && a[0] == 'a' {
        assert(!is_white_space(a[0]));
    }
}

/// A digit behind a run of digits counts once, and what stood before it ten times.
pub proof fn law_value_of_one_more_digit(s: Seq<char>, c: char)
    requires
        '0' <= c && c <= '9',
    ensures
        digits_value(Seq::<char>::empty()) == 0,
        digits_value(s.push(c)) == 10 * digits_value(s) + (c as int - 48),
{
    assert(s.push(c).drop_last() =~= s);
}

/// A decimal text has no digit to spare: it starts with a zero only where it is just that.
pub proof fn law_decimal_has_no_leading_zero(n: nat)
    ensures
        decimal(n).len() > 1 ==> decimal(n)[0] != '0',
        n == 0 ==> decimal(n) == seq!['0'],
    decreases n,
{
    if n >= 10 {
        law_decimal_has_no_leading_zero(n / 10);
        law_decimal_denotes_its_number(n / 10);
        assert(decimal(n)[0] == decimal(n / 10)[0]);
        if n / 10 < 10 {
            assert(decimal(n / 10)[0] == digit_char(n / 10));
        } else {
            law_decimal_denotes_its_number(n / 10 / 10);
            assert(decimal(n / 10).len() > 1);
        }
    }
}

/// A number is read from digits, with a `+` before them or not, or, where numbers may be negative,
/// with a `-` before them. Nothing else denotes a number.
pub proof fn law_texts_of_numbers(d: Seq<char>, s: Seq<char>, signed: bool)
    requires
        d.len() > 0,
        forall|i: int| 0 <= i < d.len() ==> '0' <= #[trigger] d[i] && d[i] <= '9',
    ensures
        integer_text(d, signed) == Some(digits_value(d) as int),
        integer_text(seq!['+'] + d, signed) == Some(digits_value(d) as int),
        integer_text(seq!['-'] + d, true) == Some(-digits_value(d)),
        integer_text(seq!['-'] + d, false) is None,
        integer_text(s, signed) is Some ==> s.len() > 0 && '0' <= s.last() && s.last() <= '9'
            && forall|i: int| 0 < i < s.len() ==> '0' <= #[trigger] s[i] && s[i] <= '9',
        integer_text(s, signed) is Some ==> ('0' <= s[0] && s[0] <= '9') || (s[0] == '+' && s.len()
            > 1) || (signed && s[0] == '-' && s.len() > 1),
{
    assert(all_digits(d));
    assert(is_digit(d[0]));
    let plus = seq!['+'] + d;
    let minus = seq!['-'] + d;
    assert(plus.drop_first() =~= d);
    assert(minus.drop_first() =~= d);
    assert(!is_digit(minus[0]));
    if integer_text(s, signed) is Some {
        let lead = s[0] == '+' || (signed && s[0] == '-');
        assert(s.len() > 0);
        if lead {
            let rest = s.drop_first();
            assert(all_digits(rest));
            assert forall|i: int| 0 < i < s.len() implies '0' <= #[trigger] s[i] && s[i] <= '9' by {
                assert(is_digit(rest[i - 1]));
            }
        } else {
            assert(is_digit(s[0]));
            assert forall|i: int| 0 < i < s.len() implies '0' <= #[trigger] s[i] && s[i] <= '9' by {
                assert(is_digit(s[i]));
            }
            assert(is_digit(s[s.len() - 1]));
        }
    }
}

/// A text denotes an `i32` or a `u8` exactly where it denotes a number in range, and then that
/// number.
pub proof fn law_numbers_in_range(s: Seq<char>)
    ensures
        i32_text(s) is Some <==> integer_text(s, true) is Some && -2147483648 <= integer_text(
            s,
            true,
        )->0 <= 2147483647,
        i32_text(s) is Some ==> i32_text(s)->0 == integer_text(s, true)->0,
        u8_text(s) is Some <==> integer_text(s, false) is Some && integer_text(s, false)->0 <= 255,
        u8_text(s) is Some ==> u8_text(s)->0 == integer_text(s, false)->0,
{
}

/// Unicode has twenty-five characters of white space. Six of them are ASCII: the tab, the four that
/// end or feed a line or page, and the space.
pub proof fn law_characters_of_white_space(c: char)
    ensures
        is_white_space(c) <==> seq![
            9u32,
            10,
            11,
            12,
            13,
            32,
            133,
            160,
            5760,
            8192,
            8193,
            8194,
            8195,
            8196,
            8197,
            8198,
            8199,
            8200,
            8201,
            8202,
            8232,
            8233,
            8239,
            8287,
            12288,
        ].contains(c as u32),
{
    let all = seq![
        9u32,
        10,
        11,
        12,
        13,
        32,
        133,
        160,
        5760,
        8192,
        8193,
        8194,
        8195,
        8196,
        8197,
        8198,
        8199,
        8200,
        8201,
        8202,
        8232,
        8233,
        8239,
        8287,
        12288,
    ];
    let u = c as u32;
    if is_white_space(c) {
        let at: int = if 9 <= u <= 13 {
            u - 9
        } else if u == 32 {
            5
        } else if u == 133 {
            6
        } else if u == 160 {
            7
        } else if u == 5760 {
            8
        } else if u <= 8202 {
            9 + (u - 8192)
        } else if u == 8232 {
            20
        } else if u == 8233 {
            21
        } else if u == 8239 {
            22
        } else if u == 8287 {
            23
        } else {
            24
        };
        assert(all[at] == u);
    }
}

} // verus!
