//! Two operations on text: trimming white space, and splitting into lines.

use vstd::prelude::*;
use vstd::string::{StrSliceExecFns, StringExecFns};

verus! {

/// The characters with the Unicode property White_Space.
pub open spec fn spec_is_white_space(c: char) -> bool {
    let x = c as u32;
    (0x09 <= x && x <= 0x0D) || x == 0x20 || x == 0x85 || x == 0xA0 || x == 0x1680 || (0x2000 <= x
        && x <= 0x200A) || x == 0x2028 || x == 0x2029 || x == 0x202F || x == 0x205F || x == 0x3000
}

#[verifier::when_used_as_spec(spec_is_white_space)]
pub fn is_white_space(c: char) -> (b: bool)
    ensures
        b == spec_is_white_space(c),
{
    let x: u32 = c as u32;
    (0x09 <= x && x <= 0x0D) || x == 0x20 || x == 0x85 || x == 0xA0 || x == 0x1680 || (0x2000 <= x
        && x <= 0x200A) || x == 0x2028 || x == 0x2029 || x == 0x202F || x == 0x205F || x == 0x3000
}

/// A string without the white space at its start.
pub open spec fn trimmed_start(s: Seq<char>) -> Seq<char>
    decreases s.len(),
{
    if s.len() > 0 && spec_is_white_space(s[0]) {
        trimmed_start(s.drop_first())
    } else {
        s
    }
}

/// A string without the white space at its end.
pub open spec fn trimmed_end(s: Seq<char>) -> Seq<char>
    decreases s.len(),
{
    if s.len() > 0 && spec_is_white_space(s.last()) {
        trimmed_end(s.drop_last())
    } else {
        s
    }
}

/// A string without the white space at its start and at its end.
pub open spec fn trimmed(s: Seq<char>) -> Seq<char> {
    trimmed_end(trimmed_start(s))
}

/// The string without the white space at its start and at its end.
pub fn trim(s: &str) -> (r: &str)
    ensures
        r@ == trimmed(s@),
{
    let n: usize = s.unicode_len();
    let mut lo: usize = 0;
    proof {
        assert(s@.skip(0) =~= s@);
    }
    while lo < n && is_white_space(s.get_char(lo))
        invariant
            lo <= n,
            n == s@.len(),
            trimmed_start(s@) == trimmed_start(s@.skip(lo as int)),
        decreases n - lo,
    {
        proof {
            assert(s@.skip(lo as int).drop_first() =~= s@.skip(lo + 1));
        }
        lo += 1;
    }
    let mut hi: usize = n;
    proof {
        assert(s@.subrange(lo as int, n as int) =~= s@.skip(lo as int));
    }
    while hi > lo && is_white_space(s.get_char(hi - 1))
        invariant
            lo <= hi <= n,
            n == s@.len(),
            trimmed(s@) == trimmed_end(s@.subrange(lo as int, hi as int)),
            trimmed_start(s@) == s@.skip(lo as int),
        decreases hi,
    {
        proof {
            assert(s@.subrange(lo as int, hi as int).drop_last() =~= s@.subrange(
                lo as int,
                hi - 1,
            ));
        }
        hi -= 1;
    }
    s.substring_char(lo, hi)
}

/// The place of the first line feed of a string, or its length where it
/// has none.
pub open spec fn first_line_feed(s: Seq<char>) -> int
    decreases s.len(),
{
    if s.len() == 0 || s[0] == '\n' {
        0
    } else {
        1 + first_line_feed(s.drop_first())
    }
}

/// A line without the carriage return at its end, if it has one.
pub open spec fn strip_cr(line: Seq<char>) -> Seq<char> {
    if line.len() > 0 && line.last() == '\r' {
        line.drop_last()
    } else {
        line
    }
}

/// The lines of a text. A line ends with a line feed, or with a carriage
/// return and a line feed; neither belongs to the line. What follows the
/// last line feed is a line too, unless it is empty.
pub open spec fn lines(s: Seq<char>) -> Seq<Seq<char>>
    decreases s.len(),
{
    if s.len() == 0 {
        Seq::empty()
    } else {
        let i = first_line_feed(s);
        if i < 0 || i >= s.len() {
            seq![s]
        } else {
            seq![strip_cr(s.take(i))] + lines(s.skip(i + 1))
        }
    }
}

/// Lines that hold something.
pub open spec fn holds_text() -> spec_fn(Seq<char>) -> bool {
    |l: Seq<char>| l.len() > 0
}

/// The lines of a text that are not empty.
pub open spec fn nonempty_lines(s: Seq<char>) -> Seq<Seq<char>> {
    lines(s).filter(holds_text())
}

/// The first line feed lies within the string, and nothing before it is a
/// line feed.
pub proof fn lemma_first_line_feed(s: Seq<char>)
    ensures
        0 <= first_line_feed(s) <= s.len(),
        forall|j: int| 0 <= j < first_line_feed(s) ==> s[j] != '\n',
        first_line_feed(s) < s.len() ==> s[first_line_feed(s)] == '\n',
    decreases s.len(),
{
    if s.len() == 0 || s[0] == '\n' {
    } else {
        lemma_first_line_feed(s.drop_first());
        assert forall|j: int| 0 <= j < first_line_feed(s) implies s[j] != '\n' by {
            if j > 0 {
                assert(s[j] == s.drop_first()[j - 1]);
            }
        }
    }
}

/// A place is the first line feed when a line feed stands there, or the
/// string ends there, and none stands before.
pub proof fn lemma_first_line_feed_is(s: Seq<char>, i: int)
    requires
        0 <= i <= s.len(),
        forall|j: int| 0 <= j < i ==> s[j] != '\n',
        i < s.len() ==> s[i] == '\n',
    ensures
        first_line_feed(s) == i,
{
    lemma_first_line_feed(s);
    let f = first_line_feed(s);
    if f < i {
        assert(s[f] != '\n');
    } else if i < f {
        assert(s[i] != '\n');
    }
}

/// The lines that are not empty, of a text that begins with a line that
/// ends at `i`.
pub proof fn lemma_nonempty_lines_after_line(s: Seq<char>, i: int)
    requires
        0 <= i <= s.len(),
        s.len() > 0,
        first_line_feed(s) == i,
    ensures
        i < s.len() ==> nonempty_lines(s) == if strip_cr(s.take(i)).len() > 0 {
            seq![strip_cr(s.take(i))] + nonempty_lines(s.skip(i + 1))
        } else {
            nonempty_lines(s.skip(i + 1))
        },
        i == s.len() ==> nonempty_lines(s) == seq![s],
{
    reveal(Seq::filter);
    let p = holds_text();
    if i < s.len() {
        let first = seq![strip_cr(s.take(i))];
        Seq::filter_distributes_over_add(first, lines(s.skip(i + 1)), p);
        assert(first.drop_last() =~= Seq::<Seq<char>>::empty());
        assert(first.drop_last().filter(p) =~= Seq::<Seq<char>>::empty());
        if p(first.last()) {
            assert(first.filter(p) =~= first);
        } else {
            assert(first.filter(p) =~= Seq::<Seq<char>>::empty());
            assert(first.filter(p) + lines(s.skip(i + 1)).filter(p) =~= lines(s.skip(i + 1)).filter(
                p,
            ));
        }
    } else {
        let only = seq![s];
        assert(only.drop_last() =~= Seq::<Seq<char>>::empty());
        assert(only.drop_last().filter(p) =~= Seq::<Seq<char>>::empty());
        assert(p(only.last()));
        assert(only.filter(p) =~= only);
    }
}

/// A text that holds neither a line feed nor a carriage return: it is one
/// line, or empty.
pub open spec fn is_plain(s: Seq<char>) -> bool {
    forall|j: int| 0 <= j < s.len() ==> s[j] != '\n' && s[j] != '\r'
}

/// Two plain texts make a plain text.
pub proof fn lemma_plain_add(a: Seq<char>, b: Seq<char>)
    requires
        is_plain(a),
        is_plain(b),
    ensures
        is_plain(a + b),
{
    assert forall|j: int| 0 <= j < (a + b).len() implies (a + b)[j] != '\n' && (a + b)[j]
        != '\r' by {
        if j < a.len() {
            assert((a + b)[j] == a[j]);
        } else {
            assert((a + b)[j] == b[j - a.len()]);
        }
    }
}

/// A text without lines: what begins with a line feed has the nonempty
/// lines of what follows the line feed.
proof fn lemma_skip_line_feed(s: Seq<char>)
    requires
        s.len() == 0 || s[0] == '\n',
    ensures
        s.len() == 0 ==> nonempty_lines(s) == Seq::<Seq<char>>::empty(),
        s.len() > 0 ==> nonempty_lines(s) == nonempty_lines(s.skip(1)),
{
    reveal(Seq::filter);
    if s.len() > 0 {
        lemma_first_line_feed_is(s, 0);
        lemma_nonempty_lines_after_line(s, 0);
        assert(s.take(0) =~= Seq::<char>::empty());
    } else {
        assert(lines(s) =~= Seq::<Seq<char>>::empty());
    }
}

/// A line feed, then a plain line that is not empty, then a text that is
/// empty or begins with a line feed: the line is the first of the nonempty
/// lines of the whole, and the nonempty lines of the text follow.
pub proof fn lemma_line_heads_text(line: Seq<char>, rest: Seq<char>)
    requires
        line.len() > 0,
        is_plain(line),
        rest.len() == 0 || rest[0] == '\n',
    ensures
        nonempty_lines(seq!['\n'] + line + rest) == seq![line] + nonempty_lines(rest),
{
    let s = seq!['\n'] + line + rest;
    let u = line + rest;
    let n = line.len() as int;
    lemma_skip_line_feed(s);
    assert(s.skip(1) =~= u);
    assert forall|j: int| 0 <= j < n implies u[j] != '\n' by {
        assert(u[j] == line[j]);
    }
    if rest.len() > 0 {
        assert(u[n] == rest[0]);
    }
    lemma_first_line_feed_is(u, n);
    lemma_nonempty_lines_after_line(u, n);
    lemma_skip_line_feed(rest);
    if rest.len() > 0 {
        assert(u.take(n) =~= line);
        assert(line.last() != '\r');
        assert(u.skip(n + 1) =~= rest.skip(1));
    } else {
        assert(u =~= line);
        assert(seq![line] + Seq::<Seq<char>>::empty() =~= seq![line]);
    }
}

/// The text in which each of the lines from place `k` on stands behind a
/// line feed.
pub open spec fn framed_from(items: Seq<Seq<char>>, k: int) -> Seq<char>
    decreases items.len() - k,
{
    if k < 0 || k >= items.len() {
        Seq::empty()
    } else {
        seq!['\n'] + items[k] + framed_from(items, k + 1)
    }
}

/// Plain lines that are not empty, each written behind a line feed, are
/// read back as they were written.
pub proof fn lemma_framed_lines(items: Seq<Seq<char>>, k: int)
    requires
        0 <= k <= items.len(),
        forall|j: int| 0 <= j < items.len() ==> is_plain(#[trigger] items[j]) && items[j].len() > 0,
    ensures
        nonempty_lines(framed_from(items, k)) == items.skip(k),
        framed_from(items, k).len() == 0 || framed_from(items, k)[0] == '\n',
    decreases items.len() - k,
{
    if k < items.len() {
        lemma_framed_lines(items, k + 1);
        lemma_line_heads_text(items[k], framed_from(items, k + 1));
        assert(items.skip(k) =~= seq![items[k]] + items.skip(k + 1));
    } else {
        lemma_skip_line_feed(framed_from(items, k));
        assert(items.skip(k) =~= Seq::<Seq<char>>::empty());
    }
}

/// A text that ends with a label and a value, the label behind a line
/// feed, ends with a framed line.
pub proof fn lemma_frame_step(
    head: Seq<char>,
    fed_label: Seq<char>,
    label: Seq<char>,
    value: Seq<char>,
    rest: Seq<char>,
)
    requires
        fed_label == seq!['\n'] + label,
    ensures
        (head + fed_label + value) + rest == head + (seq!['\n'] + (label + value) + rest),
        (fed_label + value) + rest == seq!['\n'] + (label + value) + rest,
{
    assert((head + fed_label + value) + rest =~= head + (seq!['\n'] + (label + value) + rest));
    assert((fed_label + value) + rest =~= seq!['\n'] + (label + value) + rest);
}

/// The lines of `s` that are not empty, in order.
pub fn split_nonempty_lines(s: &str) -> (out: Vec<String>)
    ensures
        out@.map_values(|l: String| l@) == nonempty_lines(s@),
{
    let n: usize = s.unicode_len();
    let mut out: Vec<String> = Vec::new();
    let mut start: usize = 0;
    proof {
        assert(s@.skip(0) =~= s@);
        assert(out@.map_values(|l: String| l@) =~= Seq::<Seq<char>>::empty());
    }
    while start < n
        invariant
            start <= n,
            n == s@.len(),
            out@.map_values(|l: String| l@) + nonempty_lines(s@.skip(start as int))
                == nonempty_lines(s@),
        decreases n - start,
    {
        let ghost rest = s@.skip(start as int);
        let mut end: usize = start;
        while end < n && s.get_char(end) != '\n'
            invariant
                start <= end <= n,
                n == s@.len(),
                forall|j: int| start <= j < end ==> s@[j] != '\n',
            decreases n - end,
        {
            end += 1;
        }
        proof {
            lemma_first_line_feed_is(rest, end - start);
            lemma_nonempty_lines_after_line(rest, end - start);
            assert(rest.take(end - start) =~= s@.subrange(start as int, end as int));
            if end < n {
                assert(rest.skip(end - start + 1) =~= s@.skip(end + 1));
            }
        }
        let ghost before = out@.map_values(|l: String| l@);
        if end == n {
            let line = s.substring_char(start, end);
            assert(line@ =~= rest);
            out.push(String::from_str(line));
            proof {
                assert(out@.map_values(|l: String| l@) =~= before.push(rest));
                assert(s@.skip(n as int) =~= Seq::<char>::empty());
                assert(nonempty_lines(Seq::<char>::empty()) =~= Seq::<Seq<char>>::empty()) by {
                    reveal(Seq::filter);
                }
                assert(before.push(rest) + Seq::<Seq<char>>::empty() =~= before + seq![rest]);
            }
            start = n;
        } else {
            let mut stop: usize = end;
            if stop > start && s.get_char(stop - 1) == '\r' {
                stop -= 1;
            }
            let ghost text = strip_cr(rest.take(end - start));
            assert(s@.subrange(start as int, stop as int) =~= text);
            if stop > start {
                let line = s.substring_char(start, stop);
                out.push(String::from_str(line));
                proof {
                    assert(out@.map_values(|l: String| l@) =~= before.push(text));
                    assert(before.push(text) + nonempty_lines(s@.skip(end + 1)) =~= before + (
                    seq![text] + nonempty_lines(s@.skip(end + 1))));
                }
            }
            start = end + 1;
        }
    }
    proof {
        assert(s@.skip(n as int) =~= Seq::<char>::empty());
        assert(nonempty_lines(Seq::<char>::empty()) =~= Seq::<Seq<char>>::empty()) by {
            reveal(Seq::filter);
        }
        assert(out@.map_values(|l: String| l@) + Seq::<Seq<char>>::empty() =~= out@.map_values(
            |l: String| l@,
        ));
    }
    out
}

} // verus!
