//! Identity of one snapshot instance, and the names of its files.
//!
//! The files of a snapshot are found again by their names alone:
//! `<region>_<term>_<index>.meta` for the description, and
//! `<region>_<term>_<index>_<range>.sst` for each range. Numbers are written
//! in decimal without leading zeros.

use vstd::prelude::*;
use vstd::string::{StrSliceExecFns, StringExecFns};

verus! {

/// Identifies one snapshot of one region at one log position.
#[derive(Clone, Copy, Debug, PartialEq, Eq, Structural, Hash)]
pub struct SnapKey {
    pub region_id: u64,
    pub term: u64,
    pub idx: u64,
}

impl SnapKey {
    /// Builds the key of the snapshot of `region_id` taken at log position
    /// (`term`, `idx`).
    pub fn new(region_id: u64, term: u64, idx: u64) -> (key: SnapKey)
        ensures
            key == (SnapKey { region_id, term, idx }),
    {
        SnapKey { region_id, term, idx }
    }
}

/// Which file of a snapshot a name stands for.
#[derive(Clone, Debug, PartialEq, Eq)]
pub enum FileKind {
    /// The description of the snapshot.
    Meta,
    /// The file of the range with this name.
    Range(String),
}

pub enum FileKindView {
    Meta,
    Range(Seq<char>),
}

impl View for FileKind {
    type V = FileKindView;

    open spec fn view(&self) -> FileKindView {
        match self {
            FileKind::Meta => FileKindView::Meta,
            FileKind::Range(name) => FileKindView::Range(name@),
        }
    }
}

impl FileKindView {
    /// A range has a name.
    pub open spec fn valid(self) -> bool {
        match self {
            FileKindView::Meta => true,
            FileKindView::Range(name) => name.len() > 0,
        }
    }
}

/// The character of a decimal digit.
pub open spec fn digit_char(d: int) -> char {
    ((48 + d) as u8) as char
}

pub open spec fn spec_is_digit(c: char) -> bool {
    48 <= c as u32 && c as u32 <= 57
}

/// The value of a decimal digit.
pub open spec fn digit_value(c: char) -> nat {
    (c as u32 - 48) as nat
}

/// A number in decimal, without leading zeros.
pub open spec fn decimal(n: nat) -> Seq<char>
    decreases n,
{
    if n < 10 {
        seq![digit_char(n as int)]
    } else {
        decimal(n / 10).push(digit_char((n % 10) as int))
    }
}

/// The number that a string of digits stands for.
pub open spec fn digits_value(d: Seq<char>) -> nat
    decreases d.len(),
{
    if d.len() == 0 {
        0
    } else {
        digits_value(d.drop_last()) * 10 + digit_value(d.last())
    }
}

/// A string of digits as `decimal` writes it: not empty, and with a zero in
/// front only where it is the number zero.
pub open spec fn canonical(d: Seq<char>) -> bool {
    &&& d.len() > 0
    &&& forall|j: int| 0 <= j < d.len() ==> spec_is_digit(#[trigger] d[j])
    &&& d[0] == '0' ==> d.len() == 1
}

pub open spec fn meta_suffix() -> Seq<char> {
    seq!['.', 'm', 'e', 't', 'a']
}

pub open spec fn range_suffix() -> Seq<char> {
    seq!['.', 's', 's', 't']
}

/// What the names of all files of a snapshot begin with.
pub open spec fn stem(key: SnapKey) -> Seq<char> {
    decimal(key.region_id as nat) + seq!['_'] + decimal(key.term as nat) + seq!['_'] + decimal(
        key.idx as nat,
    )
}

/// The name of a file of a snapshot.
pub open spec fn file_name(key: SnapKey, kind: FileKindView) -> Seq<char> {
    match kind {
        FileKindView::Meta => stem(key) + meta_suffix(),
        FileKindView::Range(name) => stem(key) + seq!['_'] + name + range_suffix(),
    }
}

/// The end of the digits that begin at `p`.
pub open spec fn digits_end(s: Seq<char>, p: int) -> int
    decreases s.len() - p,
{
    if 0 <= p < s.len() && spec_is_digit(s[p]) {
        digits_end(s, p + 1)
    } else {
        p
    }
}

/// The number written at `p`, with the place where it ends; `None` where
/// no number in decimal without leading zeros stands there, or where it
/// does not fit in 64 bits.
pub open spec fn number_at(s: Seq<char>, p: int) -> Option<(u64, int)> {
    let e = digits_end(s, p);
    let d = s.subrange(p, e);
    if 0 <= p <= e <= s.len() && canonical(d) && digits_value(d) <= u64::MAX {
        Some((digits_value(d) as u64, e))
    } else {
        None
    }
}

/// What follows the three numbers of a name says which file it is.
pub open spec fn kind_of_tail(tail: Seq<char>) -> Option<FileKindView> {
    if tail == meta_suffix() {
        Some(FileKindView::Meta)
    } else if tail.len() > 5 && tail[0] == '_' && tail.skip(tail.len() - 4) == range_suffix() {
        Some(FileKindView::Range(tail.subrange(1, tail.len() - 4)))
    } else {
        None
    }
}

/// The key and the kind that a name is read as.
pub open spec fn parsed(s: Seq<char>) -> Option<(SnapKey, FileKindView)> {
    match number_at(s, 0) {
        None => None,
        Some((region_id, e1)) => if !(e1 < s.len() && s[e1] == '_') {
            None
        } else {
            match number_at(s, e1 + 1) {
                None => None,
                Some((term, e2)) => if !(e2 < s.len() && s[e2] == '_') {
                    None
                } else {
                    match number_at(s, e2 + 1) {
                        None => None,
                        Some((idx, e3)) => match kind_of_tail(s.skip(e3)) {
                            None => None,
                            Some(kind) => Some((SnapKey { region_id, term, idx }, kind)),
                        },
                    }
                },
            }
        },
    }
}

/// `decimal` writes digits only, and what it writes stands for the number.
pub proof fn lemma_decimal(n: nat)
    ensures
        canonical(decimal(n)),
        digits_value(decimal(n)) == n,
    decreases n,
{
    let d = decimal(n);
    if n < 10 {
        assert(d.drop_last() =~= Seq::<char>::empty());
        assert(digits_value(d.drop_last()) == 0);
    } else {
        lemma_decimal(n / 10);
        let h = decimal(n / 10);
        assert(d.drop_last() =~= h);
        assert(d[0] == h[0]);
        assert(d[0] != '0') by {
            if h[0] == '0' {
                assert(h.len() == 1);
                assert(h.drop_last() =~= Seq::<char>::empty());
                assert(digits_value(h.drop_last()) == 0);
            }
        }
        assert forall|j: int| 0 <= j < d.len() implies spec_is_digit(#[trigger] d[j]) by {
            if j < h.len() {
                assert(d[j] == h[j]);
            }
        }
    }
}

/// The character of the value of a digit is the digit.
pub proof fn lemma_digit_round_trip(c: char)
    requires
        spec_is_digit(c),
    ensures
        digit_value(c) < 10,
        digit_char(digit_value(c) as int) == c,
{
    let x = c as u32;
    assert(x as char == c);
    assert((x as u8) as char == c);
    assert(((48 + (x - 48)) as u8) == x as u8);
}

/// A string of digits that `decimal` could have written is what `decimal`
/// writes of the number it stands for.
pub proof fn lemma_canonical(d: Seq<char>)
    requires
        canonical(d),
    ensures
        decimal(digits_value(d)) == d,
        d[0] != '0' ==> digits_value(d) > 0,
    decreases d.len(),
{
    let h = d.drop_last();
    let c = d.last();
    assert(spec_is_digit(c));
    if d.len() == 1 {
        assert(h =~= Seq::<char>::empty());
        assert(digits_value(h) == 0);
        assert(digits_value(d) == digit_value(c));
        lemma_digit_round_trip(c);
        assert(decimal(digit_value(c)) =~= seq![c]);
        assert(seq![c] =~= d);
    } else {
        assert(canonical(h)) by {
            assert forall|j: int| 0 <= j < h.len() implies spec_is_digit(#[trigger] h[j]) by {
                assert(h[j] == d[j]);
            }
            assert(h[0] == d[0]);
        }
        lemma_canonical(h);
        let v = digits_value(h);
        assert(v > 0);
        assert(digits_value(d) == v * 10 + digit_value(c));
        assert((v * 10 + digit_value(c)) / 10 == v);
        assert((v * 10 + digit_value(c)) % 10 == digit_value(c));
        let n = digits_value(d);
        assert(n >= 10 && n / 10 == v && n % 10 == digit_value(c));
        lemma_digit_round_trip(c);
        assert(decimal(n) == decimal(n / 10).push(digit_char((n % 10) as int)));
        assert(decimal(n) =~= h.push(c));
        assert(h.push(c) =~= d);
    }
}

/// The digits that begin at `p` end at `e` when digits stand from `p` to
/// `e` and none stands at `e`.
pub proof fn lemma_digits_end(s: Seq<char>, p: int, e: int)
    requires
        0 <= p <= e <= s.len(),
        forall|j: int| p <= j < e ==> spec_is_digit(#[trigger] s[j]),
        e < s.len() ==> !spec_is_digit(s[e]),
    ensures
        digits_end(s, p) == e,
    decreases e - p,
{
    if p < e {
        assert(spec_is_digit(s[p]));
        lemma_digits_end(s, p + 1, e);
    }
}

/// A longer string of digits stands for no smaller number.
pub proof fn lemma_digits_value_grows(d: Seq<char>, k: int)
    requires
        0 <= k <= d.len(),
    ensures
        digits_value(d.take(k)) <= digits_value(d),
    decreases d.len() - k,
{
    if k < d.len() {
        lemma_digits_value_grows(d.drop_last(), k);
        assert(d.drop_last().take(k) =~= d.take(k));
    } else {
        assert(d.take(k) =~= d);
    }
}

/// The number `n` is read at `p` where its decimal digits stand from `p`
/// to `e` and no digit follows.
pub proof fn lemma_number_at(s: Seq<char>, p: int, e: int, n: u64)
    requires
        0 <= p <= e <= s.len(),
        s.subrange(p, e) == decimal(n as nat),
        e < s.len() ==> !spec_is_digit(s[e]),
    ensures
        number_at(s, p) == Some((n, e)),
{
    lemma_decimal(n as nat);
    let d = decimal(n as nat);
    assert forall|j: int| p <= j < e implies spec_is_digit(#[trigger] s[j]) by {
        assert(s[j] == s.subrange(p, e)[j - p]);
    }
    lemma_digits_end(s, p, e);
}

/// A name that is read as a key and a kind is the name of that file.
pub proof fn lemma_parsed_is_sound(s: Seq<char>)
    requires
        parsed(s) is Some,
    ensures
        ({
            let (key, kind) = parsed(s)->0;
            s == file_name(key, kind) && kind.valid()
        }),
{
    let (key, kind) = parsed(s)->0;
    let (n1, e1) = number_at(s, 0)->0;
    let (n2, e2) = number_at(s, e1 + 1)->0;
    let (n3, e3) = number_at(s, e2 + 1)->0;
    lemma_canonical(s.subrange(0, e1));
    lemma_canonical(s.subrange(e1 + 1, e2));
    lemma_canonical(s.subrange(e2 + 1, e3));
    let tail = s.skip(e3);
    assert(stem(key) =~= s.subrange(0, e3));
    match kind {
        FileKindView::Meta => {
            assert(s =~= s.subrange(0, e3) + tail);
        },
        FileKindView::Range(name) => {
            assert(tail =~= seq!['_'] + name + tail.skip(tail.len() - 4));
            assert(s =~= s.subrange(0, e3) + tail);
            assert(s =~= stem(key) + seq!['_'] + name + range_suffix());
        },
    }
}

/// The name of a file is read as the key and the kind of that file.
pub proof fn lemma_parsed_is_complete(key: SnapKey, kind: FileKindView)
    requires
        kind.valid(),
    ensures
        parsed(file_name(key, kind)) == Some((key, kind)),
{
    let s = file_name(key, kind);
    let a = decimal(key.region_id as nat);
    let b = decimal(key.term as nat);
    let c = decimal(key.idx as nat);
    lemma_decimal(key.region_id as nat);
    lemma_decimal(key.term as nat);
    lemma_decimal(key.idx as nat);
    let e1 = a.len() as int;
    let e2 = e1 + 1 + b.len();
    let e3 = e2 + 1 + c.len();
    let tail = match kind {
        FileKindView::Meta => meta_suffix(),
        FileKindView::Range(name) => seq!['_'] + name + range_suffix(),
    };
    assert(s =~= a + seq!['_'] + b + seq!['_'] + c + tail);
    assert(s.len() == e3 + tail.len());
    assert(s.subrange(0, e1) =~= a);
    assert(s[e1] == '_');
    assert(s.subrange(e1 + 1, e2) =~= b);
    assert(s[e2] == '_');
    assert(s.subrange(e2 + 1, e3) =~= c);
    assert(s.skip(e3) =~= tail);
    assert(!spec_is_digit(tail[0]));
    assert(s[e3] == tail[0]);
    lemma_number_at(s, 0, e1, key.region_id);
    lemma_number_at(s, e1 + 1, e2, key.term);
    lemma_number_at(s, e2 + 1, e3, key.idx);
    match kind {
        FileKindView::Meta => {},
        FileKindView::Range(name) => {
            assert(tail != meta_suffix()) by {
                assert(tail[0] == '_');
                assert(meta_suffix()[0] == '.');
            }
            assert(tail.skip(tail.len() - 4) =~= range_suffix());
            assert(tail.subrange(1, tail.len() - 4) =~= name);
        },
    }
}

/// Two files have the same name only if they are the same file of the same
/// snapshot, and a name is read back as the file it was written for.
pub proof fn law_file_names_round_trip(
    key: SnapKey,
    kind: FileKindView,
    other_key: SnapKey,
    other_kind: FileKindView,
)
    requires
        kind.valid(),
        other_kind.valid(),
    ensures
        parsed(file_name(key, kind)) == Some((key, kind)),
        file_name(key, kind) == file_name(other_key, other_kind) ==> key == other_key && kind
            == other_kind,
{
    lemma_parsed_is_complete(key, kind);
    lemma_parsed_is_complete(other_key, other_kind);
}

fn is_digit(c: char) -> (b: bool)
    ensures
        b == spec_is_digit(c),
{
    let x: u32 = c as u32;
    48 <= x && x <= 57
}

fn digit_text(d: u64) -> (r: &'static str)
    requires
        d < 10,
    ensures
        r@ == seq![digit_char(d as int)],
{
    proof {
        reveal_strlit("0");
        reveal_strlit("1");
        reveal_strlit("2");
        reveal_strlit("3");
        reveal_strlit("4");
        reveal_strlit("5");
        reveal_strlit("6");
        reveal_strlit("7");
        reveal_strlit("8");
        reveal_strlit("9");
    }
    let r = if d == 0 {
        "0"
    } else if d == 1 {
        "1"
    } else if d == 2 {
        "2"
    } else if d == 3 {
        "3"
    } else if d == 4 {
        "4"
    } else if d == 5 {
        "5"
    } else if d == 6 {
        "6"
    } else if d == 7 {
        "7"
    } else if d == 8 {
        "8"
    } else {
        "9"
    };
    assert(r@ =~= seq![digit_char(d as int)]);
    r
}

/// Writes `n` in decimal at the end of `out`.
fn push_decimal(out: &mut String, n: u64)
    ensures
        final(out)@ == old(out)@ + decimal(n as nat),
    decreases n,
{
    if n >= 10 {
        push_decimal(out, n / 10);
    }
    out.append(digit_text(n % 10));
    proof {
        if n >= 10 {
            assert(old(out)@ + decimal((n / 10) as nat) + seq![digit_char((n % 10) as int)] =~= old(
                out,
            )@ + decimal(n as nat));
        }
    }
}

fn push_stem(out: &mut String, key: SnapKey)
    ensures
        final(out)@ == old(out)@ + stem(key),
{
    proof {
        reveal_strlit("_");
    }
    push_decimal(out, key.region_id);
    out.append("_");
    push_decimal(out, key.term);
    out.append("_");
    push_decimal(out, key.idx);
    assert(out@ =~= old(out)@ + stem(key)) by {
        assert("_"@ =~= seq!['_']);
    }
}

impl SnapKey {
    /// The name of the file that holds the description of the snapshot.
    pub fn meta_file_name(&self) -> (name: String)
        ensures
            name@ == file_name(*self, FileKindView::Meta),
    {
        proof {
            reveal_strlit(".meta");
        }
        let mut name = String::new();
        push_stem(&mut name, *self);
        name.append(".meta");
        assert(name@ =~= file_name(*self, FileKindView::Meta)) by {
            assert(".meta"@ =~= meta_suffix());
        }
        name
    }

    /// The name of the file that holds the range `range` of the snapshot.
    pub fn range_file_name(&self, range: &str) -> (name: String)
        ensures
            name@ == file_name(*self, FileKindView::Range(range@)),
    {
        proof {
            reveal_strlit("_");
            reveal_strlit(".sst");
        }
        let mut name = String::new();
        push_stem(&mut name, *self);
        name.append("_");
        name.append(range);
        name.append(".sst");
        assert(name@ =~= file_name(*self, FileKindView::Range(range@))) by {
            assert("_"@ =~= seq!['_']);
            assert(".sst"@ =~= range_suffix());
        }
        name
    }
}

fn chars_of(s: &str) -> (v: Vec<char>)
    ensures
        v@ == s@,
{
    let n: usize = s.unicode_len();
    let mut v: Vec<char> = Vec::new();
    let mut i: usize = 0;
    while i < n
        invariant
            i <= n,
            n == s@.len(),
            v@ == s@.take(i as int),
        decreases n - i,
    {
        v.push(s.get_char(i));
        proof {
            assert(s@.take(i + 1) =~= s@.take(i as int).push(s@[i as int]));
        }
        i += 1;
    }
    proof {
        assert(s@.take(n as int) =~= s@);
    }
    v
}

fn read_number(s: &Vec<char>, p: usize) -> (r: Option<(u64, usize)>)
    requires
        p <= s.len(),
    ensures
        match number_at(s@, p as int) {
            Some((n, e)) => r == Some((n, e as usize)) && e <= s.len(),
            None => r is None,
        },
{
    let len: usize = s.len();
    let mut e: usize = p;
    while e < len && is_digit(s[e])
        invariant
            p <= e <= len,
            len == s@.len(),
            forall|j: int| p <= j < e ==> spec_is_digit(#[trigger] s@[j]),
        decreases len - e,
    {
        e += 1;
    }
    proof {
        lemma_digits_end(s@, p as int, e as int);
    }
    let ghost d = s@.subrange(p as int, e as int);
    if e == p {
        return None;
    }
    if s[p] == '0' && e - p > 1 {
        assert(d[0] == '0');
        return None;
    }
    assert(canonical(d)) by {
        assert forall|j: int| 0 <= j < d.len() implies spec_is_digit(#[trigger] d[j]) by {
            assert(d[j] == s@[p + j]);
        }
        assert(d[0] == s@[p as int]);
    }
    let mut n: u64 = 0;
    let mut i: usize = p;
    proof {
        assert(d.take(0) =~= Seq::<char>::empty());
    }
    while i < e
        invariant
            p <= i <= e <= len,
            len == s@.len(),
            d == s@.subrange(p as int, e as int),
            digits_end(s@, p as int) == e,
            canonical(d),
            forall|j: int| p <= j < e ==> spec_is_digit(#[trigger] s@[j]),
            n == digits_value(d.take(i - p)),
        decreases e - i,
    {
        let c = s[i];
        assert(spec_is_digit(s@[i as int]));
        let v: u64 = (c as u32 - 48) as u64;
        proof {
            assert(d.take(i - p + 1).drop_last() =~= d.take(i - p));
            assert(d.take(i - p + 1).last() == c);
            lemma_digits_value_grows(d, i - p + 1);
        }
        if n > (u64::MAX - v) / 10 {
            proof {
                assert(digits_value(d.take(i - p + 1)) == n * 10 + v);
                assert(n * 10 + v > u64::MAX);
                assert(digits_value(d) > u64::MAX);
            }
            return None;
        }
        n = n * 10 + v;
        i += 1;
    }
    proof {
        assert(d.take(e - p) =~= d);
    }
    Some((n, e))
}

fn tail_is(s: &Vec<char>, from: usize, a: char, b: char, c: char, d: char) -> (r: bool)
    requires
        from <= s.len(),
    ensures
        r == (s.len() - from >= 4 && s@.skip(s.len() - 4) == seq![a, b, c, d]),
{
    let len: usize = s.len();
    if len - from < 4 {
        return false;
    }
    let r = s[len - 4] == a && s[len - 3] == b && s[len - 2] == c && s[len - 1] == d;
    proof {
        let t = s@.skip(len - 4);
        if r {
            assert(t =~= seq![a, b, c, d]);
        } else {
            assert(t[0] == s@[len - 4] && t[1] == s@[len - 3] && t[2] == s@[len - 2] && t[3]
                == s@[len - 1]);
            let w = seq![a, b, c, d];
            assert(w[0] == a && w[1] == b && w[2] == c && w[3] == d);
        }
    }
    r
}

/// Reads a file name: the snapshot it belongs to and which of its files it
/// is. `None` exactly for the names that no file of any snapshot has.
pub fn parse_file_name(name: &str) -> (res: Option<(SnapKey, FileKind)>)
    ensures
        res matches Some((key, kind)) ==> name@ == file_name(key, kind@) && kind@.valid(),
        res is None ==> forall|key: SnapKey, kind: FileKindView|
            kind.valid() ==> name@ != #[trigger] file_name(key, kind),
{
    let s = chars_of(name);
    let res = parse_chars(&s, name);
    proof {
        if res is Some {
            lemma_parsed_is_sound(s@);
        } else {
            assert forall|key: SnapKey, kind: FileKindView| kind.valid() implies name@
                != #[trigger] file_name(key, kind) by {
                lemma_parsed_is_complete(key, kind);
            }
        }
    }
    res
}

fn parse_chars(s: &Vec<char>, name: &str) -> (res: Option<(SnapKey, FileKind)>)
    requires
        s@ == name@,
    ensures
        match parsed(s@) {
            Some((key, kind)) => res matches Some((k, got)) && k == key && got@ == kind,
            None => res is None,
        },
{
    let len: usize = s.len();
    let (region_id, e1) = match read_number(s, 0) {
        Some(r) => r,
        None => {
            return None;
        },
    };
    if !(e1 < len && s[e1] == '_') {
        return None;
    }
    let (term, e2) = match read_number(s, e1 + 1) {
        Some(r) => r,
        None => {
            return None;
        },
    };
    if !(e2 < len && s[e2] == '_') {
        return None;
    }
    let (idx, e3) = match read_number(s, e2 + 1) {
        Some(r) => r,
        None => {
            return None;
        },
    };
    let key = SnapKey { region_id, term, idx };
    let ghost tail = s@.skip(e3 as int);
    if len - e3 == 5 && s[e3] == '.' && s[e3 + 1] == 'm' && s[e3 + 2] == 'e' && s[e3 + 3] == 't'
        && s[e3 + 4] == 'a' {
        assert(tail =~= meta_suffix());
        return Some((key, FileKind::Meta));
    }
    assert(tail != meta_suffix()) by {
        if tail == meta_suffix() {
            assert(tail.len() == 5);
            assert(tail[0] == '.' && tail[1] == 'm' && tail[2] == 'e' && tail[3] == 't' && tail[4]
                == 'a');
        }
    }
    if len - e3 > 5 && s[e3] == '_' && tail_is(s, e3, '.', 's', 's', 't') {
        assert(tail.skip(tail.len() - 4) =~= s@.skip(len - 4));
        let range = name.substring_char(e3 + 1, len - 4);
        assert(range@ =~= tail.subrange(1, tail.len() - 4));
        return Some((key, FileKind::Range(String::from_str(range))));
    }
    proof {
        if tail.len() > 5 {
            assert(tail[0] == s@[e3 as int]);
            assert(tail.skip(tail.len() - 4) =~= s@.skip(len - 4));
        }
    }
    None
}

} // verus!
