//! Small string-building helpers shared by the rest of the library.
use vstd::prelude::*;

verus! {

/// Relies on `String::push`: the character is appended at the end.
pub assume_specification[ String::push ](s: &mut String, ch: char)
    ensures
        final(s)@ == old(s)@.push(ch),
;

/// `s` with every occurrence of `from` replaced by `to`.
pub open spec fn replace_char(s: Seq<char>, from: char, to: char) -> Seq<char> {
    Seq::new(s.len(), |i: int| if s[i] == from { to } else { s[i] })
}

pub open spec fn digit_char(d: nat) -> char {
    if d == 0 {
        '0'
    } else if d == 1 {
        '1'
    } else if d == 2 {
        '2'
    } else if d == 3 {
        '3'
    } else if d == 4 {
        '4'
    } else if d == 5 {
        '5'
    } else if d == 6 {
        '6'
    } else if d == 7 {
        '7'
    } else if d == 8 {
        '8'
    } else {
        '9'
    }
}

/// Decimal notation of a natural number, without leading zeros.
pub open spec fn dec(n: nat) -> Seq<char>
    decreases n,
{
    if n < 10 {
        seq![digit_char(n)]
    } else {
        dec(n / 10).push(digit_char(n % 10))
    }
}

/// Decimal notation of an integer, with a leading `-` when negative.
pub open spec fn dec_signed(i: int) -> Seq<char> {
    if i < 0 {
        seq!['-'] + dec((-i) as nat)
    } else {
        dec(i as nat)
    }
}

pub fn digit(d: u64) -> (c: char)
    requires
        d < 10,
    ensures
        c == digit_char(d as nat),
{
    if d == 0 {
        '0'
    } else if d == 1 {
        '1'
    } else if d == 2 {
        '2'
    } else if d == 3 {
        '3'
    } else if d == 4 {
        '4'
    } else if d == 5 {
        '5'
    } else if d == 6 {
        '6'
    } else if d == 7 {
        '7'
    } else if d == 8 {
        '8'
    } else {
        '9'
    }
}

/// Appends the decimal notation of `n`.
pub fn push_decimal(s: &mut String, n: u64)
    ensures
        final(s)@ == old(s)@ + dec(n as nat),
    decreases n,
{
    if n >= 10 {
        push_decimal(s, n / 10);
    }
    s.push(digit(n % 10));
    assert(s@ =~= old(s)@ + dec(n as nat));
}

/// Appends the decimal notation of a signed number.
pub fn push_signed(s: &mut String, i: i64)
    ensures
        final(s)@ == old(s)@ + dec_signed(i as int),
{
    if i < 0 {
        s.push('-');
        let m: u64 = (-(i as i128)) as u64;
        push_decimal(s, m);
        assert(s@ =~= old(s)@ + dec_signed(i as int));
    } else {
        push_decimal(s, i as u64);
    }
}

/// Appends every character of `t`, with each `from` written as `to`.
pub fn push_replacing(s: &mut String, t: &str, from: char, to: char)
    ensures
        final(s)@ == old(s)@ + replace_char(t@, from, to),
{
    let n = t.unicode_len();
    let mut i: usize = 0;
    while i < n
        invariant
            n == t@.len(),
            i <= n,
            s@ == old(s)@ + replace_char(t@.subrange(0, i as int), from, to),
        decreases n - i,
    {
        let c = t.get_char(i);
        if c == from {
            s.push(to);
        } else {
            s.push(c);
        }
        assert(replace_char(t@.subrange(0, i + 1), from, to) =~= replace_char(
            t@.subrange(0, i as int),
            from,
            to,
        ).push(if c == from { to } else { c }));
        assert(s@ =~= old(s)@ + replace_char(t@.subrange(0, i + 1), from, to));
        i = i + 1;
    }
    assert(t@.subrange(0, n as int) =~= t@);
}

/// Appends the characters of `t` from position `from` up to, not including, `to`.
pub fn push_range(s: &mut String, t: &str, from: usize, to: usize)
    requires
        from <= to <= t@.len(),
    ensures
        final(s)@ == old(s)@ + t@.subrange(from as int, to as int),
{
    let mut i: usize = from;
    while i < to
        invariant
            from <= i <= to,
            to <= t@.len(),
            s@ == old(s)@ + t@.subrange(from as int, i as int),
        decreases to - i,
    {
        let c = t.get_char(i);
        s.push(c);
        assert(s@ =~= old(s)@ + t@.subrange(from as int, i + 1));
        i = i + 1;
    }
}

/// Appends all of `t`.
pub fn push_all(s: &mut String, t: &str)
    ensures
        final(s)@ == old(s)@ + t@,
{
    s.append(t);
}

/// Whether two strings hold the same characters.
pub fn str_eq(a: &str, b: &str) -> (r: bool)
    ensures
        r == (a@ == b@),
{
    let n = a.unicode_len();
    if n != b.unicode_len() {
        return false;
    }
    let mut i: usize = 0;
    while i < n
        invariant
            n == a@.len(),
            n == b@.len(),
            i <= n,
            forall|j: int| 0 <= j < i ==> a@[j] == b@[j],
        decreases n - i,
    {
        if a.get_char(i) != b.get_char(i) {
            return false;
        }
        i = i + 1;
    }
    assert(a@ =~= b@);
    true
}

} // verus!
