//! Decimal rendering of counters and positions, and the `String` operations
//! the rest of the library builds its output with.
use vstd::prelude::*;

verus! {

/// `String::push` appends one character to the end of the string.
pub assume_specification[ String::push ](s: &mut String, ch: char)
    ensures
        final(s)@ == old(s)@.push(ch),
;

/// The character of a decimal digit.
pub open spec fn digit_char(d: nat) -> char {
    if d == 0 { '0' }
    else if d == 1 { '1' }
    else if d == 2 { '2' }
    else if d == 3 { '3' }
    else if d == 4 { '4' }
    else if d == 5 { '5' }
    else if d == 6 { '6' }
    else if d == 7 { '7' }
    else if d == 8 { '8' }
    else { '9' }
}

/// The decimal digits of `n`, most significant first, with no leading zeros.
pub open spec fn decimal(n: nat) -> Seq<char>
    decreases n,
{
    if n < 10 {
        seq![digit_char(n)]
    } else {
        decimal(n / 10).push(digit_char(n % 10))
    }
}

/// `s` right-aligned in a field of `width` characters, padded with spaces on
/// the left; a longer `s` is left as it is.
pub open spec fn right_aligned(s: Seq<char>, width: nat) -> Seq<char> {
    if s.len() < width {
        Seq::new((width - s.len()) as nat, |_i: int| ' ') + s
    } else {
        s
    }
}

fn digit(d: usize) -> (c: char)
    requires
        d < 10,
    ensures
        c == digit_char(d as nat),
{
    match d {
        0 => '0',
        1 => '1',
        2 => '2',
        3 => '3',
        4 => '4',
        5 => '5',
        6 => '6',
        7 => '7',
        8 => '8',
        _ => '9',
    }
}

/// Appends the decimal digits of `n` to `out`.
pub fn push_decimal(out: &mut String, n: usize)
    ensures
        final(out)@ == old(out)@ + decimal(n as nat),
    decreases n,
{
    if n >= 10 {
        push_decimal(out, n / 10);
    }
    out.push(digit(n % 10));
    assert(out@ =~= old(out)@ + decimal(n as nat));
}

/// The number of decimal digits of `n`.
pub fn decimal_len(n: usize) -> (r: usize)
    ensures
        r as nat == decimal(n as nat).len(),
        1 <= r <= n as nat + 1,
    decreases n,
{
    if n < 10 {
        1
    } else {
        decimal_len(n / 10) + 1
    }
}

/// Appends `n` in decimal, right-aligned in a field of `width` characters.
pub fn push_decimal_aligned(out: &mut String, n: usize, width: usize)
    ensures
        final(out)@ == old(out)@ + right_aligned(decimal(n as nat), width as nat),
{
    let len = decimal_len(n);
    let pad: usize = if len < width {
        width - len
    } else {
        0
    };
    let ghost start = out@;
    let ghost spaces = Seq::new(pad as nat, |_i: int| ' ');
    let mut i: usize = 0;
    while i < pad
        invariant
            i <= pad,
            spaces == Seq::new(pad as nat, |_i: int| ' '),
            out@ == start + spaces.take(i as int),
        decreases pad - i,
    {
        out.push(' ');
        assert(spaces.take(i as int + 1) =~= spaces.take(i as int).push(' '));
        i = i + 1;
    }
    assert(spaces.take(pad as int) =~= spaces);
    push_decimal(out, n);
    if len < width {
        assert(out@ =~= old(out)@ + right_aligned(decimal(n as nat), width as nat));
    } else {
        assert(spaces =~= Seq::<char>::empty());
        assert(out@ =~= old(out)@ + right_aligned(decimal(n as nat), width as nat));
    }
}

} // verus!
