//! Small text utilities shared by the document model and the renderer:
//! moving characters between `String` and `Vec<char>`, and rendering
//! numbers in decimal for the status bar.

use vstd::prelude::*;

verus! {

/// The whitespace characters that can occur inside a single line of text.
pub open spec fn is_space(c: char) -> bool {
    c == ' ' || c == '\t'
}

/// Exec twin of [`is_space`].
pub fn space_char(c: char) -> (r: bool)
    ensures
        r == is_space(c),
{
    c == ' ' || c == '\t'
}

/// Appends every character of `s` to `buf`.
pub fn push_str_chars(buf: &mut Vec<char>, s: &str)
    ensures
        final(buf)@ == old(buf)@ + s@,
{
    let n = s.unicode_len();
    let mut i: usize = 0;
    while i < n
        invariant
            n == s@.len(),
            i <= n,
            buf@ == old(buf)@ + s@.subrange(0, i as int),
        decreases n - i,
    {
        let c = s.get_char(i);
        buf.push(c);
        i = i + 1;
        assert(old(buf)@ + s@.subrange(0, i - 1) + seq![s@[i - 1]] =~= old(buf)@ + s@.subrange(
            0,
            i as int,
        ));
    }
    assert(s@.subrange(0, n as int) =~= s@);
}

/// Appends `src[from..to]` to `dst`.
pub fn push_range(dst: &mut Vec<char>, src: &Vec<char>, from: usize, to: usize)
    requires
        from <= to,
        to <= src@.len(),
    ensures
        final(dst)@ == old(dst)@ + src@.subrange(from as int, to as int),
{
    assert(old(dst)@ + src@.subrange(from as int, from as int) =~= old(dst)@);
    let mut i = from;
    while i < to
        invariant
            from <= i <= to,
            to <= src@.len(),
            dst@ == old(dst)@ + src@.subrange(from as int, i as int),
        decreases to - i,
    {
        dst.push(src[i]);
        i = i + 1;
        assert(old(dst)@ + src@.subrange(from as int, i - 1) + seq![src@[i - 1]] =~= old(dst)@
            + src@.subrange(from as int, i as int));
    }
}

/// A fresh copy of a character vector.
pub fn copy_chars(src: &Vec<char>) -> (r: Vec<char>)
    ensures
        r@ == src@,
{
    let mut r: Vec<char> = Vec::new();
    push_range(&mut r, src, 0, src.len());
    assert(src@.subrange(0, src@.len() as int) =~= src@);
    r
}

/// The characters of `s` as a vector.
pub fn str_to_chars(s: &str) -> (v: Vec<char>)
    ensures
        v@ == s@,
{
    let mut v: Vec<char> = Vec::new();
    push_str_chars(&mut v, s);
    v
}

/// Collects a character vector back into a `String`.
///
/// Relies on `String: FromIterator<char>`: collecting an iterator of
/// characters builds the string holding exactly those characters in order.
#[verifier::external_body]
pub fn chars_to_string(v: &Vec<char>) -> (s: String)
    ensures
        s@ == v@,
{
    v.iter().collect()
}

/// `n` space characters.
pub open spec fn spec_spaces(n: int) -> Seq<char>
    decreases n,
{
    if n <= 0 {
        Seq::empty()
    } else {
        seq![' '] + spec_spaces(n - 1)
    }
}

/// One more space extends the run at its end as well.
proof fn lemma_spaces_snoc(n: int)
    requires
        n >= 0,
    ensures
        spec_spaces(n + 1) == spec_spaces(n) + seq![' '],
    decreases n,
{
    if n == 0 {
        assert(spec_spaces(1) =~= spec_spaces(0) + seq![' ']);
    } else {
        lemma_spaces_snoc(n - 1);
        assert(seq![' '] + (spec_spaces(n - 1) + seq![' ']) =~= (seq![' '] + spec_spaces(n - 1))
            + seq![' ']);
    }
}

/// Appends `n` spaces to `buf`.
pub fn push_spaces(buf: &mut Vec<char>, n: usize)
    ensures
        final(buf)@ == old(buf)@ + spec_spaces(n as int),
{
    let mut k: usize = 0;
    assert(old(buf)@ + spec_spaces(0) =~= old(buf)@);
    while k < n
        invariant
            k <= n,
            buf@ == old(buf)@ + spec_spaces(k as int),
        decreases n - k,
    {
        buf.push(' ');
        proof {
            lemma_spaces_snoc(k as int);
        }
        k = k + 1;
    }
}

/// The decimal digit character for `d`.
pub open spec fn spec_digit(d: int) -> char {
    if d == 0 {
        '0'
    } else if d == 1 {
        '1'
    } else if d == 2 {
        '2'
    } else if d == 3 {
        '3'
    } else if d == 4 {
        '4'
    } else if d == 5 {
        '5'
    } else if d == 6 {
        '6'
    } else if d == 7 {
        '7'
    } else if d == 8 {
        '8'
    } else {
        '9'
    }
}

/// The decimal representation of `n`, most significant digit first.
pub open spec fn spec_dec(n: int) -> Seq<char>
    decreases n,
{
    if n < 10 {
        seq![spec_digit(n)]
    } else {
        spec_dec(n / 10).push(spec_digit(n % 10))
    }
}

/// Exec digit for a value below ten.
fn digit_char(d: usize) -> (c: char)
    requires
        d < 10,
    ensures
        c == spec_digit(d as int),
{
    if d == 0 {
        '0'
    } else if d == 1 {
        '1'
    } else if d == 2 {
        '2'
    } else if d == 3 {
        '3'
    } else if d == 4 {
        '4'
    } else if d == 5 {
        '5'
    } else if d == 6 {
        '6'
    } else if d == 7 {
        '7'
    } else if d == 8 {
        '8'
    } else {
        '9'
    }
}

/// Appends the decimal representation of `n` to `buf`.
pub fn push_dec(buf: &mut Vec<char>, n: usize)
    ensures
        final(buf)@ == old(buf)@ + spec_dec(n as int),
    decreases n,
{
    if n < 10 {
        buf.push(digit_char(n));
    } else {
        push_dec(buf, n / 10);
        buf.push(digit_char(n % 10));
    }
}

} // verus!
