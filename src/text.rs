use vstd::prelude::*;

verus! {

/// `n` copies of `c`.
pub open spec fn repeat(c: char, n: nat) -> Seq<char> {
    Seq::new(n, |_i: int| c)
}

/// `s` left-justified in a field of `w` characters, filled with `fill`;
/// longer text is kept whole.
pub open spec fn pad(s: Seq<char>, w: nat, fill: char) -> Seq<char> {
    if s.len() >= w {
        s
    } else {
        s + repeat(fill, (w - s.len()) as nat)
    }
}

pub open spec fn digit(d: nat) -> char {
    if d == 0 { '0' }
    else if d == 1 { '1' }
    else if d == 2 { '2' }
    else if d == 3 { '3' }
    else if d == 4 { '4' }
    else if d == 5 { '5' }
    else if d == 6 { '6' }
    else if d == 7 { '7' }
    else if d == 8 { '8' }
    else { '9' }
}

/// The decimal digits of `n`, without leading zeros.
pub open spec fn decimal(n: nat) -> Seq<char>
    decreases n,
{
    if n < 10 {
        seq![digit(n)]
    } else {
        decimal(n / 10) + seq![digit(n % 10)]
    }
}

/// Appends `n` copies of the one character of `fill`.
pub fn append_fill(out: &mut String, fill: &str, n: usize)
    requires
        fill@.len() == 1,
    ensures
        final(out)@ == old(out)@ + repeat(fill@[0], n as nat),
{
    let ghost start = out@;
    let mut i: usize = 0;
    while i < n
        invariant
            fill@.len() == 1,
            i <= n,
            out@ == start + repeat(fill@[0], i as nat),
        decreases n - i,
    {
        out.append(fill);
        assert(start + repeat(fill@[0], (i + 1) as nat) =~= start + repeat(fill@[0], i as nat) + fill@);
        i = i + 1;
    }
}

/// Appends `s` left-justified in a field of `w` characters, filled with `fill`.
pub fn append_padded(out: &mut String, s: &str, w: usize, fill: &str)
    requires
        fill@.len() == 1,
    ensures
        final(out)@ == old(out)@ + pad(s@, w as nat, fill@[0]),
{
    out.append(s);
    let n = s.unicode_len();
    if n < w {
        append_fill(out, fill, w - n);
        assert(old(out)@ + s@ + repeat(fill@[0], (w - n) as nat) =~= old(out)@ + pad(s@, w as nat, fill@[0]));
    }
}

fn digit_text(d: usize) -> (r: &'static str)
    requires
        d < 10,
    ensures
        r@ == seq![digit(d as nat)],
{
    proof {
        reveal_strlit("0");
        reveal_strlit("1");
        reveal_strlit("2");
        reveal_strlit("3");
        reveal_strlit("4");
        reveal_strlit("5");
        reveal_strlit("6");
        reveal_strlit("7");
        reveal_strlit("8");
        reveal_strlit("9");
    }
    if d == 0 { "0" }
    else if d == 1 { "1" }
    else if d == 2 { "2" }
    else if d == 3 { "3" }
    else if d == 4 { "4" }
    else if d == 5 { "5" }
    else if d == 6 { "6" }
    else if d == 7 { "7" }
    else if d == 8 { "8" }
    else { "9" }
}

/// Appends the decimal digits of `n`.
pub fn append_decimal(out: &mut String, n: usize)
    ensures
        final(out)@ == old(out)@ + decimal(n as nat),
    decreases n,
{
    if n >= 10 {
        append_decimal(out, n / 10);
    }
    out.append(digit_text(n % 10));
    if n >= 10 {
        assert(old(out)@ + decimal((n / 10) as nat) + seq![digit((n % 10) as nat)]
            =~= old(out)@ + decimal(n as nat));
    }
}

/// The concatenation of three texts.
pub fn concat3(a: &str, b: &str, c: &str) -> (r: String)
    ensures
        r@ == a@ + b@ + c@,
{
    let mut s = String::from_str(a);
    s.append(b);
    s.append(c);
    s
}

} // verus!
