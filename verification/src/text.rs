//! Reading the text that the kernel and the environment hand over: lines, fields and numbers.

use vstd::prelude::*;
use vstd::slice::slice_subrange;
use vstd::string::*;

verus! {

/// The characters of a string.
pub fn chars_of(s: &str) -> (v: Vec<char>)
    ensures
        v@ == s@,
{
    let mut v: Vec<char> = Vec::new();
    for c in iter: s.chars()
        invariant
            v@ == iter.seq().take(iter.index() as int),
            iter.seq() == s@,
    {
        v.push(c);
    }
    v
}

/// The same characters.
pub fn same(a: &[char], b: &[char]) -> (r: bool)
    ensures
        r == (a@ == b@),
{
    if a.len() != b.len() {
        return false;
    }
    let mut i: usize = 0;
    while i < a.len()
        invariant
            i <= a@.len(),
            a@.len() == b@.len(),
            forall|j: int| 0 <= j < i ==> a@[j] == b@[j],
        decreases a@.len() - i,
    {
        if a[i] != b[i] {
            return false;
        }
        i += 1;
    }
    assert(a@ =~= b@);
    true
}

/// `s` opens with `prefix`.
pub open spec fn opens_with(s: Seq<char>, prefix: Seq<char>) -> bool {
    prefix.len() <= s.len() && s.take(prefix.len() as int) == prefix
}

pub fn starts_with(s: &[char], prefix: &[char]) -> (r: bool)
    ensures
        r == opens_with(s@, prefix@),
{
    if prefix.len() > s.len() {
        return false;
    }
    same(slice_subrange(s, 0, prefix.len()), prefix)
}

/// `part` stands in `s` at `at`.
pub open spec fn stands_at(s: Seq<char>, part: Seq<char>, at: int) -> bool {
    0 <= at && at + part.len() <= s.len() && s.subrange(at, at + part.len()) == part
}

/// `part` stands somewhere in `s`.
pub open spec fn holds(s: Seq<char>, part: Seq<char>) -> bool {
    exists|at: int| stands_at(s, part, at)
}

pub fn contains(s: &[char], part: &[char]) -> (r: bool)
    ensures
        r == holds(s@, part@),
{
    if part.len() > s.len() {
        return false;
    }
    let last: usize = s.len() - part.len();
    let mut at: usize = 0;
    while at < last
        invariant
            forall|j: int| 0 <= j < at ==> !stands_at(s@, part@, j),
            at <= last,
            last + part.len() == s.len(),
        decreases last - at,
    {
        if same(slice_subrange(s, at, at + part.len()), part) {
            assert(stands_at(s@, part@, at as int));
            return true;
        }
        at += 1;
    }
    let found = same(slice_subrange(s, at, at + part.len()), part);
    assert(found == stands_at(s@, part@, at as int));
    found
}

/// White space, as Unicode has it.
pub open spec fn white(c: char) -> bool {
    ||| '\u{9}' <= c <= '\u{d}'
    ||| c == '\u{20}'
    ||| c == '\u{85}'
    ||| c == '\u{a0}'
    ||| c == '\u{1680}'
    ||| '\u{2000}' <= c <= '\u{200a}'
    ||| c == '\u{2028}'
    ||| c == '\u{2029}'
    ||| c == '\u{202f}'
    ||| c == '\u{205f}'
    ||| c == '\u{3000}'
}

pub fn is_white(c: char) -> (r: bool)
    ensures
        r == white(c),
{
    let n: u32 = c as u32;
    (9 <= n && n <= 13) || n == 0x20 || n == 0x85 || n == 0xa0 || n == 0x1680 || (0x2000 <= n && n
        <= 0x200a) || n == 0x2028 || n == 0x2029 || n == 0x202f || n == 0x205f || n == 0x3000
}

/// A string without the white space at its start.
pub open spec fn trimmed_start(s: Seq<char>) -> Seq<char>
    decreases s.len(),
{
    if s.len() > 0 && white(s[0]) {
        trimmed_start(s.skip(1))
    } else {
        s
    }
}

/// A string without the white space at its end.
pub open spec fn trimmed_end(s: Seq<char>) -> Seq<char>
    decreases s.len(),
{
    if s.len() > 0 && white(s.last()) {
        trimmed_end(s.drop_last())
    } else {
        s
    }
}

/// A string without the white space around it.
pub open spec fn trimmed(s: Seq<char>) -> Seq<char> {
    trimmed_end(trimmed_start(s))
}

pub fn trim(s: &[char]) -> (r: &[char])
    ensures
        r@ == trimmed(s@),
{
    let mut a: usize = 0;
    assert(s@.skip(0) =~= s@);
    while a < s.len() && is_white(s[a])
        invariant
            a <= s@.len(),
            trimmed_start(s@.skip(a as int)) == trimmed_start(s@),
        decreases s@.len() - a,
    {
        assert(s@.skip(a as int).skip(1) =~= s@.skip(a + 1));
        a += 1;
    }
    let ghost from = s@.skip(a as int);
    assert(trimmed_start(s@) == from);
    let mut b: usize = s.len();
    assert(s@.subrange(a as int, b as int) =~= from);
    while a < b && is_white(s[b - 1])
        invariant
            a <= b <= s@.len(),
            trimmed_end(s@.subrange(a as int, b as int)) == trimmed_end(from),
        decreases b,
    {
        assert(s@.subrange(a as int, b as int).drop_last() =~= s@.subrange(a as int, b - 1));
        b -= 1;
    }
    slice_subrange(s, a, b)
}

/// A string without the copies of `0x` at its start.
pub open spec fn without_0x(s: Seq<char>) -> Seq<char>
    decreases s.len(),
{
    if s.len() >= 2 && s[0] == '0' && s[1] == 'x' {
        without_0x(s.skip(2))
    } else {
        s
    }
}

pub fn strip_0x(s: &[char]) -> (r: &[char])
    ensures
        r@ == without_0x(s@),
{
    let mut a: usize = 0;
    assert(s@.skip(0) =~= s@);
    while s.len() - a >= 2 && s[a] == '0' && s[a + 1] == 'x'
        invariant
            a <= s@.len(),
            without_0x(s@.skip(a as int)) == without_0x(s@),
        decreases s@.len() - a,
    {
        assert(s@.skip(a as int).skip(2) =~= s@.skip(a + 2));
        a += 2;
    }
    assert(without_0x(s@.skip(a as int)) == s@.skip(a as int));
    slice_subrange(s, a, s.len())
}

/// The value of a digit of a radix up to sixteen.
pub open spec fn digit(c: char, radix: int) -> Option<nat> {
    let v = if '0' <= c <= '9' {
        c as int - '0' as int
    } else if 'a' <= c <= 'f' {
        c as int - 'a' as int + 10
    } else if 'A' <= c <= 'F' {
        c as int - 'A' as int + 10
    } else {
        16
    };
    if v < radix && v < 16 {
        Some(v as nat)
    } else {
        None
    }
}

fn digit_of(c: char, radix: u32) -> (r: Option<u32>)
    requires
        radix <= 16,
    ensures
        digit(c, radix as int) is Some <==> r is Some,
        r matches Some(v) ==> digit(c, radix as int) == Some(v as nat),
{
    let n: u32 = c as u32;
    let v: u32 = if 0x30 <= n && n <= 0x39 {
        n - 0x30
    } else if 0x61 <= n && n <= 0x66 {
        n - 0x61 + 10
    } else if 0x41 <= n && n <= 0x46 {
        n - 0x41 + 10
    } else {
        16
    };
    if v < radix {
        Some(v)
    } else {
        None
    }
}

/// The number that a string of digits writes.
pub open spec fn number(s: Seq<char>, radix: int) -> Option<nat>
    decreases s.len(),
{
    if s.len() == 0 {
        Some(0)
    } else {
        match (number(s.drop_last(), radix), digit(s.last(), radix)) {
            (Some(v), Some(d)) => Some((v * radix + d) as nat),
            _ => None,
        }
    }
}

/// The number of at most `max` that a string writes: digits, perhaps behind a plus.
pub open spec fn unsigned(s: Seq<char>, radix: int, max: nat) -> Option<nat> {
    let digits = if s.len() > 0 && s[0] == '+' {
        s.skip(1)
    } else {
        s
    };
    if digits.len() == 0 {
        None
    } else {
        match number(digits, radix) {
            Some(v) if v <= max => Some(v),
            _ => None,
        }
    }
}

proof fn longer_numbers_are_no_smaller(s: Seq<char>, n: int, radix: int)
    requires
        0 <= n <= s.len(),
        radix >= 1,
        number(s, radix) is Some,
    ensures
        number(s.take(n), radix) is Some,
        number(s.take(n), radix)->0 <= number(s, radix)->0,
    decreases s.len(),
{
    if n == s.len() {
        assert(s.take(n) =~= s);
    } else {
        longer_numbers_are_no_smaller(s.drop_last(), n, radix);
        assert(s.drop_last().take(n) =~= s.take(n));
        let v = number(s.drop_last(), radix)->0;
        let d = digit(s.last(), radix)->0;
        assert(v * radix + d >= v) by (nonlinear_arith)
            requires
                radix >= 1,
                v >= 0,
                d >= 0,
        ;
    }
}

/// The digits of a number of at most `max`.
fn parse_digits(s: &[char], radix: u32, max: u64) -> (r: Option<u64>)
    requires
        1 <= radix <= 16,
    ensures
        match r {
            Some(v) => number(s@, radix as int) == Some(v as nat) && v <= max,
            None => number(s@, radix as int) matches Some(v) ==> v > max,
        },
{
    let mut v: u64 = 0;
    let mut i: usize = 0;
    assert(s@.take(0) =~= Seq::<char>::empty());
    while i < s.len()
        invariant
            i <= s@.len(),
            v <= max,
            1 <= radix <= 16,
            number(s@.take(i as int), radix as int) == Some(v as nat),
        decreases s@.len() - i,
    {
        assert(s@.take(i + 1).drop_last() =~= s@.take(i as int));
        assert(s@.take(i + 1).last() == s@[i as int]);
        match digit_of(s[i], radix) {
            None => {
                proof {
                    if number(s@, radix as int) is Some {
                        longer_numbers_are_no_smaller(s@, i + 1, radix as int);
                    }
                }
                return None;
            },
            Some(d) => {
                assert(v * radix <= 0xffff_ffff_ffff_ffff * 16) by (nonlinear_arith)
                    requires
                        v <= 0xffff_ffff_ffff_ffff,
                        radix <= 16,
                ;
                let next: u128 = v as u128 * radix as u128 + d as u128;
                assert(number(s@.take(i + 1), radix as int) == Some(next as nat));
                if next > max as u128 {
                    proof {
                        if number(s@, radix as int) is Some {
                            longer_numbers_are_no_smaller(s@, i + 1, radix as int);
                        }
                    }
                    return None;
                }
                v = next as u64;
            },
        }
        i += 1;
    }
    assert(s@.take(i as int) =~= s@);
    Some(v)
}

/// The number of at most `max` that a string writes, if it does.
pub fn parse_unsigned(s: &[char], radix: u32, max: u64) -> (r: Option<u64>)
    requires
        1 <= radix <= 16,
    ensures
        match r {
            Some(v) => unsigned(s@, radix as int, max as nat) == Some(v as nat) && v <= max,
            None => unsigned(s@, radix as int, max as nat) is None,
        },
{
    let a: usize = if s.len() > 0 && s[0] == '+' {
        1
    } else {
        0
    };
    let digits = slice_subrange(s, a, s.len());
    assert(a == 1 ==> digits@ =~= s@.skip(1));
    assert(a == 0 ==> digits@ =~= s@);
    if digits.len() == 0 {
        return None;
    }
    parse_digits(digits, radix, max)
}

/// The 32-bit number that a string writes in base ten: digits, perhaps behind a sign.
pub open spec fn signed32(s: Seq<char>) -> Option<int> {
    if s.len() > 0 && s[0] == '-' {
        if s.len() == 1 {
            None
        } else {
            match number(s.skip(1), 10) {
                Some(v) if v <= 0x8000_0000 => Some(-(v as int)),
                _ => None,
            }
        }
    } else {
        match unsigned(s, 10, 0x7fff_ffff) {
            Some(v) => Some(v as int),
            None => None,
        }
    }
}

/// The 32-bit number that a string writes, if it does.
pub fn parse_signed32(s: &[char]) -> (r: Option<i32>)
    ensures
        match r {
            Some(v) => signed32(s@) == Some(v as int),
            None => signed32(s@) is None,
        },
{
    if s.len() > 0 && s[0] == '-' {
        let digits = slice_subrange(s, 1, s.len());
        assert(digits@ =~= s@.skip(1));
        if digits.len() == 0 {
            return None;
        }
        match parse_digits(digits, 10, 0x8000_0000) {
            Some(v) => Some((-(v as i64)) as i32),
            None => None,
        }
    } else {
        match parse_unsigned(s, 10, 0x7fff_ffff) {
            Some(v) => Some(v as i32),
            None => None,
        }
    }
}

/// The position of the first separator from `from` on, or the end.
pub open spec fn next_separator(s: Seq<char>, seps: Seq<char>, from: int) -> int
    decreases s.len() - from,
{
    if from >= s.len() {
        s.len() as int
    } else if seps.contains(s[from]) {
        from
    } else {
        next_separator(s, seps, from + 1)
    }
}

proof fn separator_is_ahead(s: Seq<char>, seps: Seq<char>, from: int)
    requires
        0 <= from <= s.len(),
    ensures
        from <= next_separator(s, seps, from) <= s.len(),
    decreases s.len() - from,
{
    if from < s.len() && !seps.contains(s[from]) {
        separator_is_ahead(s, seps, from + 1);
    }
}

/// The parts of a string from `from` on that stand between separators.
pub open spec fn parts_from(s: Seq<char>, seps: Seq<char>, from: int) -> Seq<Seq<char>>
    decreases s.len() + 1 - from,
    when 0 <= from <= s.len()
    via parts_come_to_an_end
{
    let at = next_separator(s, seps, from);
    if at >= s.len() {
        seq![s.subrange(from, s.len() as int)]
    } else {
        seq![s.subrange(from, at)] + parts_from(s, seps, at + 1)
    }
}

#[via_fn]
proof fn parts_come_to_an_end(s: Seq<char>, seps: Seq<char>, from: int) {
    separator_is_ahead(s, seps, from);
}

/// The parts of a string that stand between separators.
pub open spec fn parts(s: Seq<char>, seps: Seq<char>) -> Seq<Seq<char>> {
    parts_from(s, seps, 0)
}

/// The views of a list of slices.
pub open spec fn slice_views(v: Seq<&[char]>) -> Seq<Seq<char>> {
    v.map(|_i: int, p: &[char]| p@)
}

fn is_separator(seps: &[char], c: char) -> (r: bool)
    ensures
        r == seps@.contains(c),
{
    let mut i: usize = 0;
    while i < seps.len()
        invariant
            i <= seps@.len(),
            forall|j: int| 0 <= j < i ==> seps@[j] != c,
        decreases seps@.len() - i,
    {
        if seps[i] == c {
            return true;
        }
        i += 1;
    }
    false
}

/// The position of the first separator from `from` on, or the end.
pub fn find_separator(s: &[char], seps: &[char], from: usize) -> (at: usize)
    requires
        from <= s@.len(),
    ensures
        at == next_separator(s@, seps@, from as int),
        from <= at <= s@.len(),
{
    let mut at: usize = from;
    while at < s.len() && !is_separator(seps, s[at])
        invariant
            from <= at <= s@.len(),
            next_separator(s@, seps@, at as int) == next_separator(s@, seps@, from as int),
        decreases s@.len() - at,
    {
        at += 1;
    }
    at
}

/// The parts of a string that stand between separators.
pub fn split<'a>(s: &'a [char], seps: &[char]) -> (r: Vec<&'a [char]>)
    ensures
        slice_views(r@) == parts(s@, seps@),
        r@.len() >= 1,
{
    let mut r: Vec<&'a [char]> = Vec::new();
    let mut from: usize = 0;
    assert(slice_views(r@) + parts_from(s@, seps@, 0) =~= parts(s@, seps@));
    loop
        invariant_except_break
            from <= s@.len(),
            slice_views(r@) + parts_from(s@, seps@, from as int) == parts(s@, seps@),
        ensures
            slice_views(r@) == parts(s@, seps@),
            r@.len() >= 1,
        decreases s@.len() + 1 - from,
    {
        let at: usize = find_separator(s, seps, from);
        let ghost before = slice_views(r@);
        r.push(slice_subrange(s, from, at));
        assert(slice_views(r@) =~= before.push(s@.subrange(from as int, at as int)));
        if at >= s.len() {
            assert(slice_views(r@) =~= before + parts_from(s@, seps@, from as int));
            break;
        }
        assert(before + parts_from(s@, seps@, from as int) =~= slice_views(r@) + parts_from(
            s@,
            seps@,
            at + 1,
        ));
        from = at + 1;
    }
    r
}

/// A line without the carriage return at its end.
pub open spec fn without_cr(s: Seq<char>) -> Seq<char> {
    if s.len() > 0 && s.last() == '\r' {
        s.drop_last()
    } else {
        s
    }
}

/// The lines of a text from `from` on: each ends with a line feed, or a carriage return and a
/// line feed; the last may have no end.
pub open spec fn lines_from(s: Seq<char>, from: int) -> Seq<Seq<char>>
    decreases s.len() + 1 - from,
    when 0 <= from <= s.len()
    via lines_come_to_an_end
{
    let at = next_separator(s, seq!['\n'], from);
    if from >= s.len() {
        Seq::empty()
    } else if at >= s.len() {
        seq![s.subrange(from, s.len() as int)]
    } else {
        seq![without_cr(s.subrange(from, at))] + lines_from(s, at + 1)
    }
}

#[via_fn]
proof fn lines_come_to_an_end(s: Seq<char>, from: int) {
    separator_is_ahead(s, seq!['\n'], from);
}

/// The lines of a text.
pub open spec fn lines_of(s: Seq<char>) -> Seq<Seq<char>> {
    lines_from(s, 0)
}

/// The lines of a text.
pub fn lines<'a>(s: &'a [char]) -> (r: Vec<&'a [char]>)
    ensures
        slice_views(r@) == lines_of(s@),
{
    let mut r: Vec<&'a [char]> = Vec::new();
    let mut from: usize = 0;
    let feed: [char; 1] = ['\n'];
    assert(feed@ =~= seq!['\n']);
    assert(slice_views(r@) + lines_from(s@, 0) =~= lines_of(s@));
    while from < s.len()
        invariant
            from <= s@.len(),
            feed@ == seq!['\n'],
            slice_views(r@) + lines_from(s@, from as int) == lines_of(s@),
        decreases s@.len() + 1 - from,
    {
        let at: usize = find_separator(s, feed.as_slice(), from);
        let ghost before = slice_views(r@);
        if at >= s.len() {
            r.push(slice_subrange(s, from, s.len()));
            assert(slice_views(r@) =~= before.push(s@.subrange(from as int, s@.len() as int)));
            assert(lines_from(s@, s@.len() as int) =~= Seq::<Seq<char>>::empty());
            assert(slice_views(r@) + lines_from(s@, s@.len() as int) =~= before + lines_from(
                s@,
                from as int,
            ));
            from = s.len();
        } else {
            let ghost line = s@.subrange(from as int, at as int);
            let end: usize = if from < at && s[at - 1] == '\r' {
                at - 1
            } else {
                at
            };
            r.push(slice_subrange(s, from, end));
            assert(s@.subrange(from as int, end as int) =~= without_cr(line));
            assert(slice_views(r@) =~= before.push(without_cr(line)));
            assert(before + lines_from(s@, from as int) =~= slice_views(r@) + lines_from(
                s@,
                at + 1,
            ));
            from = at + 1;
        }
    }
    assert(lines_from(s@, from as int) =~= Seq::<Seq<char>>::empty());
    assert(slice_views(r@) =~= lines_of(s@));
    r
}

/// The end of the run of black characters at the start of a string.
pub open spec fn word_end(s: Seq<char>) -> int
    decreases s.len(),
{
    if s.len() == 0 || white(s[0]) {
        0
    } else {
        1 + word_end(s.skip(1))
    }
}

proof fn word_end_is_inside(s: Seq<char>)
    ensures
        0 <= word_end(s) <= s.len(),
    decreases s.len(),
{
    if s.len() > 0 && !white(s[0]) {
        word_end_is_inside(s.skip(1));
    }
}

/// The first word of a string and what is behind it; `None` where there is none.
pub open spec fn first_word(s: Seq<char>) -> Option<(Seq<char>, Seq<char>)> {
    let t = trimmed_start(s);
    if t.len() == 0 {
        None
    } else {
        Some((t.take(word_end(t)), t.skip(word_end(t))))
    }
}

/// The first word of a string and what is behind it.
pub fn next_word<'a>(s: &'a [char]) -> (r: Option<(&'a [char], &'a [char])>)
    ensures
        match r {
            Some((word, rest)) => first_word(s@) == Some((word@, rest@)),
            None => first_word(s@) is None,
        },
{
    let mut a: usize = 0;
    assert(s@.skip(0) =~= s@);
    while a < s.len() && is_white(s[a])
        invariant
            a <= s@.len(),
            trimmed_start(s@.skip(a as int)) == trimmed_start(s@),
        decreases s@.len() - a,
    {
        assert(s@.skip(a as int).skip(1) =~= s@.skip(a + 1));
        a += 1;
    }
    let ghost t = s@.skip(a as int);
    assert(trimmed_start(s@) == t);
    if a == s.len() {
        return None;
    }
    let mut b: usize = a;
    assert(s@.skip(b as int) =~= t);
    while b < s.len() && !is_white(s[b])
        invariant
            a <= b <= s@.len(),
            word_end(t) == (b - a) + word_end(s@.skip(b as int)),
        decreases s@.len() - b,
    {
        assert(s@.skip(b as int).skip(1) =~= s@.skip(b + 1));
        b += 1;
    }
    assert(word_end(s@.skip(b as int)) == 0);
    let word = slice_subrange(s, a, b);
    let rest = slice_subrange(s, b, s.len());
    assert(word@ =~= t.take(word_end(t)));
    assert(rest@ =~= t.skip(word_end(t)));
    Some((word, rest))
}

/// The character of a decimal digit.
pub open spec fn digit_char(d: nat) -> char {
    if d == 0 {
        '0'
    } else if d == 1 {
        '1'
    } else if d == 2 {
        '2'
    } else if d == 3 {
        '3'
    } else if d == 4 {
        '4'
    } else if d == 5 {
        '5'
    } else if d == 6 {
        '6'
    } else if d == 7 {
        '7'
    } else if d == 8 {
        '8'
    } else {
        '9'
    }
}

/// A number in decimal.
pub open spec fn decimal(n: nat) -> Seq<char>
    decreases n,
{
    if n < 10 {
        seq![digit_char(n)]
    } else {
        decimal(n / 10).push(digit_char(n % 10))
    }
}

/// A signed number in decimal.
pub open spec fn signed_decimal(n: int) -> Seq<char> {
    if n < 0 {
        seq!['-'] + decimal((-n) as nat)
    } else {
        decimal(n as nat)
    }
}

/// Reading a number's decimal gives the number.
pub proof fn decimals_read_back(n: nat)
    ensures
        decimal(n).len() > 0,
        number(decimal(n), 10) == Some(n),
    decreases n,
{
    reveal_with_fuel(number, 2);
    if n < 10 {
        assert(decimal(n).drop_last() =~= Seq::<char>::empty());
        assert(decimal(n).last() == digit_char(n));
    } else {
        decimals_read_back(n / 10);
        assert(decimal(n).drop_last() =~= decimal(n / 10));
        assert(decimal(n).last() == digit_char(n % 10));
        assert(digit(digit_char(n % 10), 10) == Some(n % 10));
    }
}

fn digit_text(d: u64) -> (s: &'static str)
    requires
        d < 10,
    ensures
        s@ == seq![digit_char(d as nat)],
{
    proof {
        reveal_strlit("0");
        reveal_strlit("1");
        reveal_strlit("2");
        reveal_strlit("3");
        reveal_strlit("4");
        reveal_strlit("5");
        reveal_strlit("6");
        reveal_strlit("7");
        reveal_strlit("8");
        reveal_strlit("9");
    }
    let s: &'static str = if d == 0 {
        "0"
    } else if d == 1 {
        "1"
    } else if d == 2 {
        "2"
    } else if d == 3 {
        "3"
    } else if d == 4 {
        "4"
    } else if d == 5 {
        "5"
    } else if d == 6 {
        "6"
    } else if d == 7 {
        "7"
    } else if d == 8 {
        "8"
    } else {
        "9"
    };
    assert(s@ =~= seq![digit_char(d as nat)]);
    s
}

/// Append a number in decimal.
pub fn append_unsigned(s: &mut String, n: u64)
    ensures
        final(s)@ == old(s)@ + decimal(n as nat),
    decreases n,
{
    if n >= 10 {
        append_unsigned(s, n / 10);
    }
    s.append(digit_text(n % 10));
    assert(s@ =~= old(s)@ + decimal(n as nat));
}

/// Append a signed number in decimal.
pub fn append_signed(s: &mut String, n: i64)
    ensures
        final(s)@ == old(s)@ + signed_decimal(n as int),
{
    if n < 0 {
        proof {
            reveal_strlit("-");
        }
        s.append("-");
        append_unsigned(s, (-(n as i128)) as u64);
        assert(s@ =~= old(s)@ + signed_decimal(n as int));
    } else {
        append_unsigned(s, n as u64);
    }
}

} // verus!
