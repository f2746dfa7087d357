//! Picks the value part out of each `key: value` line of a text.
use vstd::prelude::*;
use crate::text::{chars_of, line_len, substring, trim, trim_bounds};

verus! {

/// A line that a newline ended, without a `'\r'` just before that newline.
pub open spec fn strip_cr(l: Seq<char>) -> Seq<char> {
    if l.len() > 0 && l.last() == '\r' {
        l.drop_last()
    } else {
        l
    }
}

/// The lines of `s` from index `start` on, as `str::lines` gives them: split
/// at each `'\n'`, a `'\r'` before it dropped, no line after a final newline.
pub open spec fn lines_from(s: Seq<char>, start: int) -> Seq<Seq<char>>
    decreases s.len() - start,
{
    if start < 0 || start >= s.len() {
        Seq::empty()
    } else if start + line_len(s, start) >= s.len() {
        seq![s.subrange(start, s.len() as int)]
    } else {
        seq![strip_cr(s.subrange(start, start + line_len(s, start)))] + lines_from(
            s,
            start + line_len(s, start) + 1,
        )
    }
}

/// Index of the first `':'` in `s` at or after `i`, if any.
pub open spec fn colon_at(s: Seq<char>, i: int) -> Option<int>
    decreases s.len() - i,
{
    if i < 0 || i >= s.len() {
        None
    } else if s[i] == ':' {
        Some(i)
    } else {
        colon_at(s, i + 1)
    }
}

/// The value that a line holds: after the first colon of the trimmed line,
/// trimmed. Lines that are empty or have no colon hold none.
pub open spec fn line_value(l: Seq<char>) -> Option<Seq<char>> {
    if l.len() == 0 {
        None
    } else {
        match colon_at(trim(l), 0) {
            Some(k) => Some(trim(trim(l).subrange(k + 1, trim(l).len() as int))),
            None => None,
        }
    }
}

/// The values of the lines, in order.
pub open spec fn values(ls: Seq<Seq<char>>) -> Seq<Seq<char>>
    decreases ls.len(),
{
    if ls.len() == 0 {
        Seq::empty()
    } else {
        match line_value(ls.last()) {
            Some(v) => values(ls.drop_last()).push(v),
            None => values(ls.drop_last()),
        }
    }
}

/// The value held by the line `v[a..b]`, as `line_value` gives it.
fn value_of_line(text: &str, v: &Vec<char>, a: usize, b: usize) -> (r: Option<String>)
    requires
        a <= b <= v@.len(),
        v@ == text@,
    ensures
        r matches Some(x) ==> line_value(v@.subrange(a as int, b as int)) == Some(x@),
        r is None ==> line_value(v@.subrange(a as int, b as int)) is None,
{
    let ghost s = v@;
    let ghost l = s.subrange(a as int, b as int);
    if a == b {
        return None;
    }
    let (ts, te) = trim_bounds(v, a, b);
    let ghost t = s.subrange(ts as int, te as int);
    let mut k = ts;
    while k < te && v[k] != ':'
        invariant
            ts <= k <= te <= s.len(),
            s == v@,
            t == s.subrange(ts as int, te as int),
            colon_at(t, 0) == colon_at(t, k - ts),
        decreases te - k,
    {
        k = k + 1;
    }
    if k == te {
        return None;
    }
    assert(colon_at(t, k - ts) == Some((k - ts) as int));
    let (vs, ve) = trim_bounds(v, k + 1, te);
    assert(t.subrange(k + 1 - ts, t.len() as int) =~= s.subrange(k + 1, te as int));
    Some(substring(text, v, vs, ve))
}

/// The value of every line of `text` that holds one, in order. A line holds
/// a value when, trimmed, it has a colon: the value is what follows the first
/// colon, trimmed.
pub fn splitter(text: &str) -> (r: Vec<String>)
    ensures
        r@.map_values(|x: String| x@) == values(lines_from(text@, 0)),
{
    let v = chars_of(text);
    let ghost s = text@;
    let n = v.len();
    let mut out: Vec<String> = Vec::new();
    let ghost mut done: Seq<Seq<char>> = Seq::empty();
    let mut start: usize = 0;
    while start < n
        invariant
            s == v@,
            s == text@,
            n == s.len(),
            start <= n,
            lines_from(s, 0) == done + lines_from(s, start as int),
            out@.map_values(|x: String| x@) == values(done),
        decreases n - start,
    {
        let mut e = start;
        while e < n && v[e] != '\n'
            invariant
                start <= e <= n,
                s == v@,
                n == s.len(),
                line_len(s, start as int) == (e - start) + line_len(s, e as int),
            decreases n - e,
        {
            e = e + 1;
        }
        assert(line_len(s, e as int) == 0);
        let ghost line: Seq<char>;
        let mut le = e;
        let next: usize;
        if e < n {
            if le > start && v[le - 1] == '\r' {
                le = le - 1;
            }
            proof {
                line = strip_cr(s.subrange(start as int, e as int));
                assert(line =~= s.subrange(start as int, le as int));
            }
            next = e + 1;
        } else {
            proof {
                line = s.subrange(start as int, n as int);
            }
            next = n;
        }
        assert(lines_from(s, start as int) == seq![line] + lines_from(s, next as int));
        let val = value_of_line(text, &v, start, le);
        proof {
            assert(done.push(line).drop_last() =~= done);
            assert(lines_from(s, 0) =~= done.push(line) + lines_from(s, next as int));
        }
        match val {
            Some(x) => {
                out.push(x);
            },
            None => {},
        }
        proof {
            done = done.push(line);
            assert(out@.map_values(|x: String| x@) =~= values(done));
        }
        start = next;
    }
    assert(done =~= lines_from(s, 0));
    out
}

} // verus!
