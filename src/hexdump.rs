//! The hex dump of a frame: sixteen bytes per line, each as two upper-case
//! hexadecimal digits and a space, the line padded to a fixed width and
//! closed by an ASCII gutter between bars. Lines are separated by `\n`.
//! The reader recovers the bytes from the hexadecimal pairs of each line.

use crate::text::{chars_of, hex_digit, hex_digit_char, push_spaces, spaces};
use vstd::prelude::*;

verus! {

/// Bytes shown on one line.
pub const BYTES_PER_LINE: usize = 16;

/// The gutter character of a byte: printable ASCII as itself, else `.`.
pub open spec fn gutter_char(b: u8) -> char {
    if 32 <= b < 127 {
        b as char
    } else {
        '.'
    }
}

/// Character `i` of the hexadecimal cells of a line's bytes `c`: three
/// characters per byte, two digits and a space.
pub open spec fn cell_char(c: Seq<u8>, i: int) -> char {
    let b = c[i / 3];
    if i % 3 == 0 {
        hex_digit(b as int / 16)
    } else if i % 3 == 1 {
        hex_digit(b as int % 16)
    } else {
        ' '
    }
}

/// The hexadecimal cells of a line's bytes.
pub open spec fn hex_cells(c: Seq<u8>) -> Seq<char> {
    Seq::new(3 * c.len(), |i: int| cell_char(c, i))
}

/// The ASCII gutter of a line's bytes.
pub open spec fn gutter(c: Seq<u8>) -> Seq<char> {
    Seq::new(c.len(), |i: int| gutter_char(c[i]))
}

/// One line of the dump, for at most sixteen bytes.
pub open spec fn dump_line(c: Seq<u8>) -> Seq<char> {
    hex_cells(c) + spaces((3 * (16 - c.len())) as nat) + seq!['|'] + gutter(c) + seq!['|']
}

/// The hex dump of a byte sequence.
pub open spec fn hex_dump(b: Seq<u8>) -> Seq<char>
    decreases b.len(),
{
    if b.len() == 0 {
        Seq::empty()
    } else if b.len() <= 16 {
        dump_line(b)
    } else {
        dump_line(b.take(16)) + seq!['\n'] + hex_dump(b.skip(16))
    }
}

/// The value of a hexadecimal digit of either case.
pub open spec fn hex_value(c: char) -> Option<u8> {
    let v = c as u32;
    if 48 <= v <= 57 {
        Some((v - 48) as u8)
    } else if 65 <= v <= 70 {
        Some((v - 55) as u8)
    } else if 97 <= v <= 102 {
        Some((v - 87) as u8)
    } else {
        None
    }
}

/// The index of the first `\n` at or after `i`, or the length of `t`.
pub open spec fn line_end(t: Seq<char>, i: int) -> int
    decreases t.len() - i,
{
    if i < 0 || i >= t.len() {
        t.len() as int
    } else if t[i] == '\n' {
        i
    } else {
        line_end(t, i + 1)
    }
}

/// The bytes of the hexadecimal pairs of the line `t[start..end]`, from pair
/// `j` on: pair `j` stands at `start + 3 * j`, and the pairs end at the first
/// position that does not hold two hexadecimal digits, or after sixteen.
pub open spec fn line_pairs(t: Seq<char>, start: int, end: int, j: int) -> Seq<u8>
    decreases 16 - j,
{
    if 0 <= j < 16 && 0 <= start && start + 3 * j + 1 < end && end <= t.len() && hex_value(
        t[start + 3 * j],
    ) is Some && hex_value(t[start + 3 * j + 1]) is Some {
        seq![
            (hex_value(t[start + 3 * j])->0 * 16 + hex_value(t[start + 3 * j + 1])->0) as u8,
        ] + line_pairs(t, start, end, j + 1)
    } else {
        Seq::empty()
    }
}

/// The bytes that reading recovers from the lines of `t` that start at or
/// after `i`.
pub open spec fn parse_from(t: Seq<char>, i: int) -> Seq<u8>
    decreases t.len() + 1 - i,
    via parse_from_decreases
{
    if 0 <= i < t.len() {
        line_pairs(t, i, line_end(t, i), 0) + parse_from(t, line_end(t, i) + 1)
    } else {
        Seq::empty()
    }
}

proof fn lemma_line_end_bounds(t: Seq<char>, i: int)
    requires
        0 <= i <= t.len(),
    ensures
        i <= line_end(t, i) <= t.len(),
        line_end(t, i) < t.len() ==> t[line_end(t, i)] == '\n',
        forall|k: int| i <= k < line_end(t, i) ==> t[k] != '\n',
    decreases t.len() - i,
{
    if i < t.len() && t[i] != '\n' {
        lemma_line_end_bounds(t, i + 1);
    }
}

#[via_fn]
proof fn parse_from_decreases(t: Seq<char>, i: int) {
    if 0 <= i < t.len() {
        lemma_line_end_bounds(t, i);
    }
}

/// The bytes that reading a hex dump text recovers.
pub open spec fn parse_dump(t: Seq<char>) -> Seq<u8> {
    parse_from(t, 0)
}

/// The gutter character of a byte.
fn gutter_char_of(b: u8) -> (c: char)
    ensures
        c == gutter_char(b),
{
    if 32 <= b && b < 127 {
        b as char
    } else {
        '.'
    }
}

/// Appends the dump line of `b[lo..hi]`.
fn push_dump_line(s: &mut String, b: &[u8], lo: usize, hi: usize)
    requires
        lo < hi <= b@.len(),
        hi - lo <= 16,
    ensures
        final(s)@ == old(s)@ + dump_line(b@.subrange(lo as int, hi as int)),
{
    let ghost c = b@.subrange(lo as int, hi as int);
    let n = hi - lo;
    let mut k: usize = 0;
    while k < n
        invariant
            lo < hi <= b@.len(),
            n == hi - lo,
            c == b@.subrange(lo as int, hi as int),
            n == c.len(),
            k <= n,
            s@ == old(s)@ + Seq::new(3 * k as nat, |i: int| cell_char(c, i)),
        decreases n - k,
    {
        let x = b[lo + k];
        s.push(hex_digit_char(x / 16));
        s.push(hex_digit_char(x % 16));
        s.push(' ');
        proof {
            let kk = k as int;
            assert((3 * kk) / 3 == kk && (3 * kk) % 3 == 0) by (nonlinear_arith);
            assert((3 * kk + 1) / 3 == kk && (3 * kk + 1) % 3 == 1) by (nonlinear_arith);
            assert((3 * kk + 2) / 3 == kk && (3 * kk + 2) % 3 == 2) by (nonlinear_arith);
            assert(c[kk] == x);
            assert(s@ =~= old(s)@ + Seq::new(3 * (k + 1) as nat, |i: int| cell_char(c, i)));
        }
        k = k + 1;
    }
    push_spaces(s, 3 * (16 - n));
    s.push('|');
    let mut g: usize = 0;
    while g < n
        invariant
            lo < hi <= b@.len(),
            n == hi - lo,
            c == b@.subrange(lo as int, hi as int),
            n == c.len(),
            g <= n,
            s@ == old(s)@ + hex_cells(c) + spaces((3 * (16 - n)) as nat) + seq!['|'] + Seq::new(
                g as nat,
                |i: int| gutter_char(c[i]),
            ),
        decreases n - g,
    {
        s.push(gutter_char_of(b[lo + g]));
        g = g + 1;
        assert(s@ =~= old(s)@ + hex_cells(c) + spaces((3 * (16 - n)) as nat) + seq!['|'] + Seq::new(
            g as nat,
            |i: int| gutter_char(c[i]),
        ));
    }
    s.push('|');
    assert(s@ =~= old(s)@ + dump_line(c));
}

/// Renders bytes as a hex dump: sixteen bytes per line, each as two
/// upper-case hexadecimal digits, followed by an ASCII gutter.
pub fn to_hex_string(bytes: &[u8]) -> (r: String)
    ensures
        r@ == hex_dump(bytes@),
{
    let n = bytes.len();
    let mut s = String::new();
    let mut i: usize = 0;
    assert(bytes@.skip(0) =~= bytes@);
    while i < n
        invariant
            n == bytes@.len(),
            i <= n,
            hex_dump(bytes@) == s@ + hex_dump(bytes@.skip(i as int)),
        decreases n - i,
    {
        let ghost rest = bytes@.skip(i as int);
        let end = if n - i > BYTES_PER_LINE {
            i + BYTES_PER_LINE
        } else {
            n
        };
        push_dump_line(&mut s, bytes, i, end);
        if end < n {
            s.push('\n');
            assert(rest.skip(16) =~= bytes@.skip(end as int));
            assert(rest.take(16) =~= bytes@.subrange(i as int, end as int));
        } else {
            assert(rest =~= bytes@.subrange(i as int, end as int));
            assert(bytes@.skip(end as int) =~= Seq::<u8>::empty());
        }
        i = end;
    }
    assert(bytes@.skip(n as int) =~= Seq::<u8>::empty());
    s
}

/// The value of a hexadecimal digit of either case.
fn hex_value_of(c: char) -> (r: Option<u8>)
    ensures
        r == hex_value(c),
        r is Some ==> r->0 < 16,
{
    let v = c as u32;
    if 48 <= v && v <= 57 {
        Some((v - 48) as u8)
    } else if 65 <= v && v <= 70 {
        Some((v - 55) as u8)
    } else if 97 <= v && v <= 102 {
        Some((v - 87) as u8)
    } else {
        None
    }
}

/// Reads the bytes back out of a hex dump text: on each line, the
/// hexadecimal pairs at every third column from the start, up to sixteen.
pub fn parse_hex_dump(text: &str) -> (r: Vec<u8>)
    ensures
        r@ == parse_dump(text@),
{
    let t = chars_of(text);
    let n = t.len();
    let mut out: Vec<u8> = Vec::new();
    let mut i: usize = 0;
    while i < n
        invariant
            n == t@.len(),
            t@ == text@,
            i <= n,
            out@ + parse_from(t@, i as int) == parse_from(t@, 0),
        decreases n - i,
    {
        let mut e = i;
        while e < n && t[e] != '\n'
            invariant
                i <= e <= n,
                n == t@.len(),
                line_end(t@, i as int) == line_end(t@, e as int),
            decreases n - e,
        {
            e = e + 1;
        }
        let ghost before = out@;
        let mut j: usize = 0;
        while j < BYTES_PER_LINE
            invariant
                j <= 16,
                i < n,
                i <= e <= n,
                n == t@.len(),
                e == line_end(t@, i as int),
                out@ + line_pairs(t@, i as int, e as int, j as int) == before + line_pairs(
                    t@,
                    i as int,
                    e as int,
                    0,
                ),
            ensures
                out@ == before + line_pairs(t@, i as int, e as int, 0),
            decreases 16 - j,
        {
            if 3 * j + 1 < e - i {
                let hi = hex_value_of(t[i + 3 * j]);
                let lo = hex_value_of(t[i + 3 * j + 1]);
                match (hi, lo) {
                    (Some(h), Some(l)) => {
                        let ghost prev = out@;
                        let v: u8 = h * 16 + l;
                        out.push(v);
                        assert(out@ =~= prev + seq![v]);
                        j = j + 1;
                    },
                    _ => {
                        assert(out@ =~= out@ + line_pairs(t@, i as int, e as int, j as int));
                        break ;
                    },
                }
            } else {
                assert(out@ =~= out@ + line_pairs(t@, i as int, e as int, j as int));
                break ;
            }
        }
        assert(parse_from(t@, i as int) == line_pairs(t@, i as int, e as int, 0) + parse_from(
            t@,
            e + 1,
        ));
        if e < n {
            i = e + 1;
        } else {
            i = n;
        }
    }
    out
}

proof fn lemma_hex_value_of_digit(d: int)
    requires
        0 <= d < 16,
    ensures
        hex_value(hex_digit(d)) == Some(d as u8),
{
}

proof fn lemma_line_end_at(t: Seq<char>, i: int, k: int)
    requires
        0 <= i <= k <= t.len(),
        forall|m: int| i <= m < k ==> t[m] != '\n',
        k == t.len() || t[k] == '\n',
    ensures
        line_end(t, i) == k,
    decreases k - i,
{
    if i < k {
        lemma_line_end_at(t, i + 1, k);
    }
}

proof fn lemma_line_pairs_of_line(t: Seq<char>, p: int, c: Seq<u8>, j: int)
    requires
        1 <= c.len() <= 16,
        0 <= j <= c.len(),
        0 <= p,
        p + dump_line(c).len() <= t.len(),
        t.subrange(p, p + dump_line(c).len()) == dump_line(c),
    ensures
        line_pairs(t, p, p + dump_line(c).len(), j) == c.skip(j),
    decreases c.len() - j,
{
    let line = dump_line(c);
    let e = p + line.len();
    let n = c.len() as int;
    assert(line.len() == 50 + n);
    if j < n {
        assert((3 * j) / 3 == j && (3 * j) % 3 == 0) by (nonlinear_arith);
        assert((3 * j + 1) / 3 == j && (3 * j + 1) % 3 == 1) by (nonlinear_arith);
        assert(t[p + 3 * j] == line[3 * j]);
        assert(t[p + 3 * j + 1] == line[3 * j + 1]);
        assert(line[3 * j] == hex_digit(c[j] as int / 16));
        assert(line[3 * j + 1] == hex_digit(c[j] as int % 16));
        lemma_hex_value_of_digit(c[j] as int / 16);
        lemma_hex_value_of_digit(c[j] as int % 16);
        lemma_line_pairs_of_line(t, p, c, j + 1);
        assert(c.skip(j) =~= seq![c[j]] + c.skip(j + 1));
    } else {
        if j < 16 {
            assert(t[p + 3 * j] == line[3 * j]);
            assert(line[3 * j] == ' ');
        }
        assert(c.skip(j) =~= Seq::<u8>::empty());
    }
}

proof fn lemma_dump_line_has_no_newline(c: Seq<u8>)
    requires
        c.len() <= 16,
    ensures
        forall|m: int| 0 <= m < dump_line(c).len() ==> dump_line(c)[m] != '\n',
{
    let line = dump_line(c);
    let n = c.len() as int;
    assert forall|m: int| 0 <= m < line.len() implies line[m] != '\n' by {
        if m < 3 * n {
            assert(line[m] == cell_char(c, m));
            let d = c[m / 3];
            if m % 3 == 0 {
                lemma_hex_value_of_digit(d as int / 16);
            } else if m % 3 == 1 {
                lemma_hex_value_of_digit(d as int % 16);
            }
        }
    }
}

proof fn lemma_parse_from_dump(pre: Seq<char>, b: Seq<u8>)
    ensures
        parse_from(pre + hex_dump(b), pre.len() as int) == b,
    decreases b.len(),
{
    let t = pre + hex_dump(b);
    let p = pre.len() as int;
    if b.len() == 0 {
        assert(t.len() == p);
    } else if b.len() <= 16 {
        let line = dump_line(b);
        assert(t.subrange(p, p + line.len()) =~= line);
        lemma_dump_line_has_no_newline(b);
        lemma_line_end_at(t, p, p + line.len());
        lemma_line_pairs_of_line(t, p, b, 0);
        assert(b.skip(0) =~= b);
        assert(parse_from(t, p + line.len() + 1) == Seq::<u8>::empty());
        assert(parse_from(t, p) == line_pairs(t, p, p + line.len(), 0) + parse_from(
            t,
            p + line.len() + 1,
        ));
        assert(parse_from(t, p) =~= b);
    } else {
        let c = b.take(16);
        let rest = b.skip(16);
        let line = dump_line(c);
        let pre2 = pre + line + seq!['\n'];
        assert(t =~= pre2 + hex_dump(rest));
        assert(t.subrange(p, p + line.len()) =~= line);
        assert(t[p + line.len()] == '\n');
        lemma_dump_line_has_no_newline(c);
        lemma_line_end_at(t, p, p + line.len());
        lemma_line_pairs_of_line(t, p, c, 0);
        assert(c.skip(0) =~= c);
        lemma_parse_from_dump(pre2, rest);
        assert(pre2.len() == p + line.len() + 1);
        assert(parse_from(t, p) == line_pairs(t, p, p + line.len(), 0) + parse_from(
            t,
            p + line.len() + 1,
        ));
        assert(b =~= c + rest);
    }
}

/// Reading a hex dump back gives exactly the bytes it was made from.
pub proof fn lemma_hex_dump_round_trip(b: Seq<u8>)
    ensures
        parse_dump(hex_dump(b)) == b,
{
    lemma_parse_from_dump(Seq::empty(), b);
    assert(Seq::<char>::empty() + hex_dump(b) =~= hex_dump(b));
}

} // verus!
