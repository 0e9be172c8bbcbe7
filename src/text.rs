//! Decimal text of integers, as the sitemap writes dates and priorities.
use vstd::prelude::*;

verus! {

/// The digit character for `d`.
pub open spec fn digit_char(d: nat) -> char
    recommends
        d < 10,
{
    "0123456789"@[d as int]
}

/// The decimal digits of `n`, without leading zeros.
pub open spec fn dec_of(n: nat) -> Seq<char>
    decreases n,
{
    if n < 10 {
        seq![digit_char(n)]
    } else {
        dec_of(n / 10).push(digit_char(n % 10))
    }
}

/// `s` with zeros in front, up to `w` characters.
pub open spec fn pad_to(s: Seq<char>, w: nat) -> Seq<char>
    decreases w - s.len(),
{
    if s.len() >= w {
        s
    } else {
        pad_to(seq!['0'] + s, w)
    }
}

fn digit(d: u32) -> (r: &'static str)
    requires
        d < 10,
    ensures
        r@ == seq![digit_char(d as nat)],
{
    proof { reveal_strlit("0123456789"); }
    let all = "0123456789";
    let r = all.substring_char(d as usize, d as usize + 1);
    assert(r@ =~= seq![digit_char(d as nat)]);
    r
}

/// The decimal text of `n`, left-padded with zeros to `width` characters.
pub fn decimal(n: u32, width: usize) -> (r: String)
    ensures
        r@ == pad_to(dec_of(n as nat), width as nat),
{
    let mut m = n;
    let mut s = String::new();
    while m >= 10
        invariant
            dec_of(n as nat) == dec_of(m as nat) + s@,
        decreases m,
    {
        let mut d = digit(m % 10).to_string();
        d.append(s.as_str());
        assert(dec_of(m as nat) == dec_of((m / 10) as nat).push(digit_char((m % 10) as nat)));
        assert(dec_of(m as nat) + s@ =~= dec_of((m / 10) as nat) + d@);
        s = d;
        m = m / 10;
    }
    let mut d = digit(m).to_string();
    d.append(s.as_str());
    assert(dec_of(n as nat) =~= d@);
    let mut s = d;
    while s.unicode_len() < width
        invariant
            pad_to(dec_of(n as nat), width as nat) == pad_to(s@, width as nat),
        decreases width - s@.len(),
    {
        proof { reveal_strlit("0"); }
        let mut z = "0".to_string();
        z.append(s.as_str());
        assert(z@ =~= seq!['0'] + s@);
        assert(pad_to(s@, width as nat) == pad_to(seq!['0'] + s@, width as nat));
        s = z;
    }
    s
}

} // verus!
