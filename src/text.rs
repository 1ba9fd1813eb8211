//! Text building blocks: zero-padded decimals and the search for a line by its start.
use vstd::prelude::*;
use vstd::std_specs::iter::IteratorSpec;

verus! {

broadcast use vstd::string::group_string_axioms;

pub open spec fn digit_char(d: int) -> char {
    if d == 0 { '0' }
    else if d == 1 { '1' }
    else if d == 2 { '2' }
    else if d == 3 { '3' }
    else if d == 4 { '4' }
    else if d == 5 { '5' }
    else if d == 6 { '6' }
    else if d == 7 { '7' }
    else if d == 8 { '8' }
    else { '9' }
}

/// The decimal digits of `n`, without leading zeros.
pub open spec fn decimal(n: nat) -> Seq<char>
    decreases n,
{
    if n < 10 {
        seq![digit_char(n as int)]
    } else {
        decimal(n / 10).push(digit_char((n % 10) as int))
    }
}

/// `n` in decimal, with zeros in front up to `width` characters.
pub open spec fn padded(n: nat, width: nat) -> Seq<char> {
    let s = decimal(n);
    if s.len() < width {
        Seq::new((width - s.len()) as nat, |i: int| '0') + s
    } else {
        s
    }
}

/// `v` in decimal, the sign counted in `width`, as Rust's `{:0w}` writes it.
pub open spec fn signed_padded(v: int, width: nat) -> Seq<char> {
    if v >= 0 {
        padded(v as nat, width)
    } else {
        seq!['-'] + padded((-v) as nat, if width > 0 { (width - 1) as nat } else { 0 })
    }
}

/// A line of `t` begins at index `i` and starts with `p`.
pub open spec fn line_starts_with_at(t: Seq<char>, i: int, p: Seq<char>) -> bool {
    &&& 0 <= i < t.len()
    &&& i == 0 || t[i - 1] == '\n'
    &&& i + p.len() <= t.len()
    &&& t.subrange(i, i + p.len()) == p
    &&& !p.contains('\n')
}

/// Some line of `t` (lines end at `'\n'`) starts with `p`.
pub open spec fn has_line_with_prefix(t: Seq<char>, p: Seq<char>) -> bool {
    exists|i: int| line_starts_with_at(t, i, p)
}

fn digit_str(d: u32) -> (r: &'static str)
    requires
        d < 10,
    ensures
        r@ == seq![digit_char(d as int)],
{
    proof {
        reveal_strlit("0");
        reveal_strlit("1");
        reveal_strlit("2");
        reveal_strlit("3");
        reveal_strlit("4");
        reveal_strlit("5");
        reveal_strlit("6");
        reveal_strlit("7");
        reveal_strlit("8");
        reveal_strlit("9");
    }
    if d == 0 { "0" }
    else if d == 1 { "1" }
    else if d == 2 { "2" }
    else if d == 3 { "3" }
    else if d == 4 { "4" }
    else if d == 5 { "5" }
    else if d == 6 { "6" }
    else if d == 7 { "7" }
    else if d == 8 { "8" }
    else { "9" }
}

fn append_decimal(out: &mut String, n: u32)
    ensures
        final(out)@ == old(out)@ + decimal(n as nat),
    decreases n,
{
    if n >= 10 {
        append_decimal(out, n / 10);
    }
    out.append(digit_str(n % 10));
    proof {
        if n >= 10 {
            assert(decimal(n as nat) == decimal((n / 10) as nat).push(digit_char((n % 10) as int)));
        }
    }
    assert(final(out)@ =~= old(out)@ + decimal(n as nat));
}

/// Appends `n` in decimal, with zeros in front up to `width` characters.
pub fn append_padded(out: &mut String, n: u32, width: usize)
    ensures
        final(out)@ == old(out)@ + padded(n as nat, width as nat),
{
    let mut digits = String::new();
    append_decimal(&mut digits, n);
    assert(digits@ =~= decimal(n as nat));
    let len = digits.as_str().unicode_len();
    let ghost start = out@;
    if len < width {
        let mut k: usize = len;
        while k < width
            invariant
                len <= k <= width,
                out@ == start + Seq::new((k - len) as nat, |i: int| '0'),
            decreases width - k,
        {
            proof {
                reveal_strlit("0");
            }
            out.append("0");
            k = k + 1;
            assert(out@ =~= start + Seq::new((k - len) as nat, |i: int| '0'));
        }
    }
    out.append(digits.as_str());
    assert(out@ =~= start + padded(n as nat, width as nat));
}

/// Appends `v` in decimal, with zeros in front up to `width` characters, the
/// sign counted among them.
pub fn append_signed_padded(out: &mut String, v: i32, width: usize)
    ensures
        final(out)@ == old(out)@ + signed_padded(v as int, width as nat),
{
    let ghost start = out@;
    if v >= 0 {
        append_padded(out, v as u32, width);
    } else {
        proof {
            reveal_strlit("-");
        }
        out.append("-");
        let w: usize = if width > 0 { width - 1 } else { 0 };
        let a: u32 = (-(v as i64)) as u32;
        append_padded(out, a, w);
        assert(out@ =~= start + signed_padded(v as int, width as nat));
    }
}

/// The characters of `s`, one by one.
pub fn chars_of(s: &str) -> (r: Vec<char>)
    ensures
        r@ == s@,
{
    let mut it = s.chars();
    let mut v: Vec<char> = Vec::new();
    loop
        invariant
            it.obeys_prophetic_iter_laws(),
            v@ + it.remaining() == s@,
            it.decrease() is Some,
        decreases it.decrease()->0,
    {
        match it.next() {
            Some(c) => {
                v.push(c);
                assert(v@ + it.remaining() =~= s@);
            },
            None => {
                assert(v@ =~= s@);
                return v;
            },
        }
    }
}

fn line_prefix_at(t: &Vec<char>, i: usize, p: &Vec<char>) -> (r: bool)
    requires
        i < t@.len(),
        !p@.contains('\n'),
    ensures
        r == line_starts_with_at(t@, i as int, p@),
{
    if i > 0 && t[i - 1] != '\n' {
        return false;
    }
    if p.len() > t.len() - i {
        return false;
    }
    let end: usize = i + p.len();
    let mut j: usize = 0;
    while j < p.len()
        invariant
            end == i + p@.len(),
            end <= t@.len(),
            j <= p@.len(),
            forall|k: int| 0 <= k < j ==> t@[i + k] == p@[k],
        decreases p@.len() - j,
    {
        if t[i + j] != p[j] {
            assert(t@.subrange(i as int, i + p@.len())[j as int] != p@[j as int]);
            return false;
        }
        j = j + 1;
    }
    assert(t@.subrange(i as int, i + p@.len()) =~= p@);
    true
}

fn contains_newline(p: &Vec<char>) -> (r: bool)
    ensures
        r == p@.contains('\n'),
{
    let mut j: usize = 0;
    while j < p.len()
        invariant
            j <= p@.len(),
            forall|k: int| 0 <= k < j ==> p@[k] != '\n',
        decreases p@.len() - j,
    {
        if p[j] == '\n' {
            return true;
        }
        j = j + 1;
    }
    false
}

/// Whether some line of `text` starts with `prefix`.
pub fn has_line_starting_with(text: &str, prefix: &str) -> (r: bool)
    ensures
        r == has_line_with_prefix(text@, prefix@),
{
    let t = chars_of(text);
    let p = chars_of(prefix);
    if contains_newline(&p) {
        return false;
    }
    let mut i: usize = 0;
    while i < t.len()
        invariant
            t@ == text@,
            p@ == prefix@,
            !p@.contains('\n'),
            i <= t@.len(),
            forall|k: int| 0 <= k < i ==> !line_starts_with_at(t@, k, p@),
        decreases t@.len() - i,
    {
        if line_prefix_at(&t, i, &p) {
            return true;
        }
        i = i + 1;
    }
    assert forall|k: int| !line_starts_with_at(text@, k, prefix@) by {
        if 0 <= k < i {
        }
    }
    false
}

} // verus!
