//! Splitting text into lines, and rows of hexadecimal digits.

use vstd::prelude::*;
use crate::hex::{hex_value, to_nybble};

verus! {

/// The position of the first newline at or after `from`, or the length.
pub open spec fn next_newline(s: Seq<u8>, from: int) -> int
    decreases s.len() - from,
{
    if from < 0 || from >= s.len() {
        s.len() as int
    } else if s[from] == 10 {
        from
    } else {
        next_newline(s, from + 1)
    }
}

/// A line ended by a newline loses a carriage return before it.
pub open spec fn strip_cr(line: Seq<u8>) -> Seq<u8> {
    if line.len() > 0 && line.last() == 13 {
        line.drop_last()
    } else {
        line
    }
}

/// The lines of `s` from position `from` on, as `str::lines` yields them:
/// split at `\n` or `\r\n`, with no empty line after a final line ending.
pub open spec fn lines_from(s: Seq<u8>, from: int) -> Seq<Seq<u8>>
    decreases s.len() - from,
{
    if from < 0 || from >= s.len() {
        seq![]
    } else {
        let n = next_newline(s, from);
        proof {
            lemma_next_newline_bounds(s, from);
        }
        if n < s.len() {
            seq![strip_cr(s.subrange(from, n))] + lines_from(s, n + 1)
        } else {
            seq![s.subrange(from, s.len() as int)]
        }
    }
}

/// The lines of `s`.
pub open spec fn lines(s: Seq<u8>) -> Seq<Seq<u8>> {
    lines_from(s, 0)
}

pub proof fn lemma_next_newline_bounds(s: Seq<u8>, from: int)
    requires
        0 <= from <= s.len(),
    ensures
        from <= next_newline(s, from) <= s.len(),
        next_newline(s, from) < s.len() ==> s[next_newline(s, from)] == 10,
    decreases s.len() - from,
{
    if from < s.len() && s[from] != 10 {
        lemma_next_newline_bounds(s, from + 1);
    }
}

/// A copy of `bytes[a..b]`.
pub fn copy_range(bytes: &[u8], a: usize, b: usize) -> (r: Vec<u8>)
    requires
        a <= b <= bytes@.len(),
    ensures
        r@ == bytes@.subrange(a as int, b as int),
{
    let mut out: Vec<u8> = Vec::new();
    let mut i = a;
    while i < b
        invariant
            a <= i <= b <= bytes@.len(),
            out@ == bytes@.subrange(a as int, i as int),
        decreases b - i,
    {
        out.push(bytes[i]);
        assert(out@ =~= bytes@.subrange(a as int, i + 1));
        i = i + 1;
    }
    out
}

/// The lines of `s`, each copied out.
pub fn split_lines(s: &[u8]) -> (r: Vec<Vec<u8>>)
    ensures
        r@.len() == lines(s@).len(),
        forall|k: int| 0 <= k < r@.len() ==> #[trigger] r@[k]@ == lines(s@)[k],
{
    let len = s.len();
    let mut out: Vec<Vec<u8>> = Vec::new();
    let mut from: usize = 0;
    let ghost views: Seq<Seq<u8>> = seq![];
    while from < len
        invariant
            from <= len,
            len == s@.len(),
            out@.len() == views.len(),
            forall|k: int| 0 <= k < out@.len() ==> #[trigger] out@[k]@ == views[k],
            lines(s@) == views + lines_from(s@, from as int),
        decreases len - from,
    {
        let mut n = from;
        while n < len && s[n] != 10
            invariant
                from <= n <= len,
                len == s@.len(),
                next_newline(s@, from as int) == next_newline(s@, n as int),
            decreases len - n,
        {
            n = n + 1;
        }
        proof {
            lemma_next_newline_bounds(s@, n as int);
        }
        if n < len {
            let mut end = n;
            if end > from && s[end - 1] == 13 {
                end = end - 1;
            }
            let line = copy_range(s, from, end);
            assert(line@ == strip_cr(s@.subrange(from as int, n as int))) by {
                let l = s@.subrange(from as int, n as int);
                if l.len() > 0 && l.last() == 13 {
                    assert(l.drop_last() =~= s@.subrange(from as int, end as int));
                } else {
                    assert(l =~= s@.subrange(from as int, end as int));
                }
            }
            proof {
                views = views.push(line@);
            }
            out.push(line);
            assert(lines(s@) == views + lines_from(s@, n + 1));
            from = n + 1;
        } else {
            let line = copy_range(s, from, len);
            proof {
                views = views.push(line@);
            }
            out.push(line);
            assert(lines(s@) == views + lines_from(s@, len as int));
            from = len;
        }
    }
    assert(views + seq![] =~= views);
    out
}

/// How a row of hex pairs ends: the bytes, a byte that is no hex digit, or
/// `None` where a pair is cut short.
pub type HexOutcome = Option<Result<Seq<u8>, u8>>;

/// The byte of a hex pair: `first` is the high nybble, or the low one when `swap`.
pub open spec fn pair_byte(first: u8, second: u8, swap: bool) -> u8 {
    if swap {
        (second * 16 + first) as u8
    } else {
        (first * 16 + second) as u8
    }
}

/// The bytes of the hex pairs of `line` from position `j` on.
pub open spec fn hex_pairs(line: Seq<u8>, j: int, swap: bool) -> HexOutcome
    decreases line.len() - j,
{
    if j < 0 || j >= line.len() {
        Some(Ok(seq![]))
    } else {
        match hex_value(line[j]) {
            None => Some(Err(line[j])),
            Some(a) => if j + 1 >= line.len() {
                None
            } else {
                match hex_value(line[j + 1]) {
                    None => Some(Err(line[j + 1])),
                    Some(b) => match hex_pairs(line, j + 2, swap) {
                        None => None,
                        Some(Err(c)) => Some(Err(c)),
                        Some(Ok(rest)) => Some(Ok(seq![pair_byte(a, b, swap)] + rest)),
                    },
                }
            },
        }
    }
}

/// The bytes of rows `k..` of `ls`, each of which must be `columns` long.
pub open spec fn hex_rows(ls: Seq<Seq<u8>>, k: int, columns: int, swap: bool) -> HexOutcome
    decreases ls.len() - k,
{
    if k < 0 || k >= ls.len() {
        Some(Ok(seq![]))
    } else if ls[k].len() != columns {
        None
    } else {
        match hex_pairs(ls[k], 0, swap) {
            None => None,
            Some(Err(c)) => Some(Err(c)),
            Some(Ok(row)) => match hex_rows(ls, k + 1, columns, swap) {
                None => None,
                Some(Err(c)) => Some(Err(c)),
                Some(Ok(rest)) => Some(Ok(row + rest)),
            },
        }
    }
}

/// Put `prefix` before the bytes of an outcome.
pub open spec fn prepend_bytes(prefix: Seq<u8>, r: HexOutcome) -> HexOutcome {
    match r {
        None => None,
        Some(Err(c)) => Some(Err(c)),
        Some(Ok(rest)) => Some(Ok(prefix + rest)),
    }
}

pub proof fn lemma_hex_pairs_len(line: Seq<u8>, j: int, swap: bool)
    requires
        0 <= j,
        hex_pairs(line, j, swap) matches Some(Ok(_)),
    ensures
        hex_pairs(line, j, swap) matches Some(Ok(b)) && (j < line.len() ==> 2 * b.len()
            == line.len() - j) && (j >= line.len() ==> b.len() == 0),
    decreases line.len() - j,
{
    if j < line.len() {
        lemma_hex_pairs_len(line, j + 2, swap);
    }
}

/// Decode the hex pairs of `line` onto the end of `out`.
pub fn push_hex_pairs(line: &Vec<u8>, swap: bool, out: &mut Vec<u8>) -> (r: Option<Result<(), u8>>)
    ensures
        match hex_pairs(line@, 0, swap) {
            None => r is None,
            Some(Err(c)) => r == Some(Err::<(), u8>(c)),
            Some(Ok(b)) => r == Some(Ok::<(), u8>(())) && final(out)@ == old(out)@ + b,
        },
{
    let len = line.len();
    let mut j: usize = 0;
    let ghost start = out@;
    while j < len
        invariant
            len == line@.len(),
            j <= len + 1,
            hex_pairs(line@, 0, swap) == prepend_bytes(
                out@.subrange(start.len() as int, out@.len() as int),
                hex_pairs(line@, j as int, swap),
            ),
            out@.len() >= start.len(),
            out@.subrange(0, start.len() as int) == start,
            start == old(out)@,
        decreases len - j,
    {
        let a = match to_nybble(line[j]) {
            Some(x) => x,
            None => {
                return Some(Err(line[j]));
            },
        };
        if j + 1 >= len {
            return None;
        }
        let b = match to_nybble(line[j + 1]) {
            Some(x) => x,
            None => {
                return Some(Err(line[j + 1]));
            },
        };
        let byte = if swap {
            assert((b << 4u8) | a == b * 16 + a) by (bit_vector)
                requires
                    a < 16,
                    b < 16,
            ;
            (b << 4) | a
        } else {
            assert((a << 4u8) | b == a * 16 + b) by (bit_vector)
                requires
                    a < 16,
                    b < 16,
            ;
            (a << 4) | b
        };
        let ghost before = out@;
        out.push(byte);
        proof {
            let pre = before.subrange(start.len() as int, before.len() as int);
            let post = out@.subrange(start.len() as int, out@.len() as int);
            assert(post =~= pre + seq![byte]);
            match hex_pairs(line@, j + 2, swap) {
                Some(Ok(rest)) => {
                    assert(pre + (seq![byte] + rest) =~= post + rest);
                },
                _ => {},
            }
            assert(out@.subrange(0, start.len() as int) =~= start);
        }
        j = j + 2;
    }
    proof {
        assert(out@ =~= start + out@.subrange(start.len() as int, out@.len() as int));
        assert(out@.subrange(start.len() as int, out@.len() as int) + seq![] =~= out@.subrange(
            start.len() as int,
            out@.len() as int,
        ));
    }
    Some(Ok(()))
}

/// Decode rows of hex pairs, each `columns` long, into one byte vector.
pub fn decode_hex_rows(ls: &Vec<Vec<u8>>, columns: usize, swap: bool) -> (r: Option<
    Result<Vec<u8>, u8>,
>)
    ensures
        match hex_rows(ls@.map_values(|l: Vec<u8>| l@), 0, columns as int, swap) {
            None => r is None,
            Some(Err(c)) => r == Some(Err::<Vec<u8>, u8>(c)),
            Some(Ok(b)) => r matches Some(Ok(v)) && v@ == b,
        },
{
    let ghost views = ls@.map_values(|l: Vec<u8>| l@);
    let mut out: Vec<u8> = Vec::new();
    let mut k: usize = 0;
    while k < ls.len()
        invariant
            k <= ls@.len(),
            views == ls@.map_values(|l: Vec<u8>| l@),
            hex_rows(views, 0, columns as int, swap) == prepend_bytes(
                out@,
                hex_rows(views, k as int, columns as int, swap),
            ),
        decreases ls@.len() - k,
    {
        assert(views[k as int] == ls@[k as int]@);
        if ls[k].len() != columns {
            return None;
        }
        let ghost before = out@;
        match push_hex_pairs(&ls[k], swap, &mut out) {
            None => {
                return None;
            },
            Some(Err(c)) => {
                return Some(Err(c));
            },
            Some(Ok(())) => {},
        }
        proof {
            match hex_rows(views, k + 1, columns as int, swap) {
                Some(Ok(rest)) => {
                    let row = out@.subrange(before.len() as int, out@.len() as int);
                    assert(before + (row + rest) =~= out@ + rest);
                },
                _ => {},
            }
            match hex_pairs(views[k as int], 0, swap) {
                Some(Ok(row)) => {
                    assert(out@.subrange(before.len() as int, out@.len() as int) =~= row);
                    match hex_rows(views, k + 1, columns as int, swap) {
                        Some(Ok(rest)) => {
                            assert(before + (row + rest) =~= out@ + rest);
                        },
                        _ => {},
                    }
                },
                _ => {},
            }
        }
        k = k + 1;
    }
    assert(out@ + seq![] =~= out@);
    Some(Ok(out))
}

/// There are no more lines than bytes.
pub proof fn lemma_lines_len(s: Seq<u8>, from: int)
    requires
        0 <= from <= s.len(),
    ensures
        lines_from(s, from).len() <= s.len() - from,
    decreases s.len() - from,
{
    if from < s.len() {
        lemma_next_newline_bounds(s, from);
        let n = next_newline(s, from);
        if n < s.len() {
            lemma_lines_len(s, n + 1);
        }
    }
}

/// Rows that decode give half a byte per digit.
pub proof fn lemma_hex_rows_len(ls: Seq<Seq<u8>>, k: int, columns: int, swap: bool)
    requires
        0 <= k <= ls.len(),
        0 <= columns,
        hex_rows(ls, k, columns, swap) matches Some(Ok(_)),
    ensures
        hex_rows(ls, k, columns, swap) matches Some(Ok(b)) && 2 * b.len() == (ls.len() - k)
            * columns,
    decreases ls.len() - k,
{
    let n = ls.len() - k;
    if k < ls.len() {
        lemma_hex_pairs_len(ls[k], 0, swap);
        lemma_hex_rows_len(ls, k + 1, columns, swap);
        let row = hex_pairs(ls[k], 0, swap)->Some_0->Ok_0;
        let rest = hex_rows(ls, k + 1, columns, swap)->Some_0->Ok_0;
        assert(ls[k].len() == columns);
        assert(2 * row.len() == columns);
        assert(2 * rest.len() == (n - 1) * columns);
        assert(n * columns == (n - 1) * columns + columns) by (nonlinear_arith);
        assert(hex_rows(ls, k, columns, swap) == Some(Ok::<Seq<u8>, u8>(row + rest)));
        assert((row + rest).len() == row.len() + rest.len());
    } else {
        assert(n * columns == 0) by (nonlinear_arith)
            requires
                n == 0,
        ;
    }
}

} // verus!
