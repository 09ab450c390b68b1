//! Reading seeds from text: one decimal integer per line; blank lines are
//! skipped, and lines that do not hold a `u64` are set aside.
use vstd::prelude::*;
use vstd::std_specs::iter::IteratorSpec;

verus! {

/// Whitespace as `char::is_whitespace` defines it: the characters with the
/// Unicode `White_Space` property.
pub open spec fn is_whitespace(c: char) -> bool {
    ('\u{9}' <= c && c <= '\u{d}') || c == ' ' || c == '\u{85}' || c == '\u{a0}' || c
        == '\u{1680}' || ('\u{2000}' <= c && c <= '\u{200a}') || c == '\u{2028}' || c
        == '\u{2029}' || c == '\u{202f}' || c == '\u{205f}' || c == '\u{3000}'
}

fn whitespace(c: char) -> (r: bool)
    ensures
        r == is_whitespace(c),
{
    ('\u{9}' <= c && c <= '\u{d}') || c == ' ' || c == '\u{85}' || c == '\u{a0}' || c
        == '\u{1680}' || ('\u{2000}' <= c && c <= '\u{200a}') || c == '\u{2028}' || c
        == '\u{2029}' || c == '\u{202f}' || c == '\u{205f}' || c == '\u{3000}'
}

/// `s` without its leading whitespace.
pub open spec fn trim_start(s: Seq<char>) -> Seq<char>
    decreases s.len(),
{
    if s.len() > 0 && is_whitespace(s[0]) {
        trim_start(s.skip(1))
    } else {
        s
    }
}

/// `s` without its trailing whitespace.
pub open spec fn trim_end(s: Seq<char>) -> Seq<char>
    decreases s.len(),
{
    if s.len() > 0 && is_whitespace(s.last()) {
        trim_end(s.drop_last())
    } else {
        s
    }
}

/// `s` without leading and trailing whitespace, as `str::trim` cuts it.
pub open spec fn trimmed(s: Seq<char>) -> Seq<char> {
    trim_end(trim_start(s))
}

/// The pieces of `s` between newlines, in order: one more than the newlines
/// of `s`.
pub open spec fn segments(s: Seq<char>) -> Seq<Seq<char>>
    decreases s.len(),
{
    if s.len() == 0 {
        seq![Seq::empty()]
    } else {
        let before = segments(s.drop_last());
        if s.last() == '\n' {
            before.push(Seq::empty())
        } else {
            before.update(before.len() - 1, before.last().push(s.last()))
        }
    }
}

/// The characters of `s`, in order.
fn chars_of(s: &str) -> (r: Vec<char>)
    ensures
        r@ == s@,
{
    broadcast use vstd::string::axiom_spec_iter, vstd::string::next_postcondition;

    let mut it = s.chars();
    let mut out: Vec<char> = Vec::new();
    loop
        invariant
            out@ + it.remaining() == s@,
            it.decrease() is Some,
        ensures
            out@ == s@,
        decreases it.decrease()->0,
    {
        match it.next() {
            Some(c) => {
                out.push(c);
            },
            None => {
                assert(it.remaining().len() == 0);
                assert(out@ + it.remaining() =~= out@);
                break;
            },
        }
    }
    out
}

pub open spec fn is_digit(c: char) -> bool {
    '0' <= c && c <= '9'
}

pub open spec fn digit_value(c: char) -> nat {
    (c as u32 - '0' as u32) as nat
}

/// The value of a sequence of decimal digits, most significant first.
pub open spec fn digits_value(d: Seq<char>) -> nat
    decreases d.len(),
{
    if d.len() == 0 {
        0
    } else {
        digits_value(d.drop_last()) * 10 + digit_value(d.last())
    }
}

/// Every character of `d` is a decimal digit.
pub open spec fn all_digits(d: Seq<char>) -> bool {
    forall|i: int| 0 <= i < d.len() ==> is_digit(#[trigger] d[i])
}

/// The digits of `s`: `s` without one leading `+`.
pub open spec fn unsigned_digits(s: Seq<char>) -> Seq<char> {
    if s.len() > 0 && s[0] == '+' {
        s.skip(1)
    } else {
        s
    }
}

/// The `u64` that `s` spells as `str::parse::<u64>` reads it: an optional
/// `+`, then one or more decimal digits whose value fits in 64 bits.
pub open spec fn decimal_value(s: Seq<char>) -> Option<u64> {
    if unsigned_digits(s).len() > 0 && all_digits(unsigned_digits(s)) && digits_value(
        unsigned_digits(s),
    ) <= u64::MAX {
        Some(digits_value(unsigned_digits(s)) as u64)
    } else {
        None
    }
}

proof fn lemma_digits_value_grows(d: Seq<char>, k: nat, n: nat)
    requires
        k <= n <= d.len(),
    ensures
        digits_value(d.take(k as int)) <= digits_value(d.take(n as int)),
    decreases n - k,
{
    if k < n {
        lemma_digits_value_grows(d, k, (n - 1) as nat);
        assert(d.take(n as int).drop_last() =~= d.take(n - 1));
    }
}

/// Reads a `u64` from `chars` as `str::parse::<u64>` does.
pub fn parse_decimal(chars: &Vec<char>) -> (r: Option<u64>)
    ensures
        r == decimal_value(chars@),
{
    let n = chars.len();
    let start: usize = if n > 0 && chars[0] == '+' {
        1
    } else {
        0
    };
    let ghost d = unsigned_digits(chars@);
    assert(d =~= chars@.skip(start as int));
    if start == n {
        return None;
    }
    let mut value: u64 = 0;
    let mut i: usize = start;
    while i < n
        invariant
            n == chars@.len(),
            start <= i <= n,
            start < n,
            d == chars@.skip(start as int),
            d == unsigned_digits(chars@),
            forall|k: int| 0 <= k < i - start ==> is_digit(#[trigger] d[k]),
            value == digits_value(d.take(i - start)),
        decreases n - i,
    {
        let c = chars[i];
        assert(d[i - start] == c);
        if c < '0' || c > '9' {
            assert(!is_digit(d[i - start]));
            assert(!all_digits(d));
            assert(decimal_value(chars@) is None);
            return None;
        }
        let digit = (c as u32 - '0' as u32) as u64;
        proof {
            assert(d.take(i - start + 1).drop_last() =~= d.take(i - start));
        }
        if value > (u64::MAX - digit) / 10 {
            proof {
                assert(value * 10 + digit > u64::MAX) by (nonlinear_arith)
                    requires
                        value > (u64::MAX - digit) / 10,
                        digit <= 9,
                ;
                let k = i - start;
                assert(digits_value(d.take(k + 1)) == digits_value(d.take(k)) * 10 + digit_value(
                    d.take(k + 1).last(),
                ));
                assert(d.take(k + 1).last() == c);
                assert(digits_value(d.take(k + 1)) == value * 10 + digit);
                lemma_digits_value_grows(d, (k + 1) as nat, d.len());
                assert(d.take(d.len() as int) =~= d);
                assert(digits_value(d) > u64::MAX);
                assert(decimal_value(chars@) is None);
            }
            return None;
        }
        proof {
            assert(value * 10 + digit <= u64::MAX) by (nonlinear_arith)
                requires
                    value <= (u64::MAX - digit) / 10,
                    digit <= 9,
            ;
        }
        value = value * 10 + digit;
        i = i + 1;
    }
    assert(d.take(d.len() as int) =~= d);
    Some(value)
}

/// The seeds of a text, and the lines that were set aside.
pub struct ParsedSeeds {
    pub values: Vec<u64>,
    /// Non-blank lines, trimmed, that do not hold a `u64`.
    pub rejected: Vec<Vec<char>>,
}

/// The texts of a sequence of character vectors.
pub open spec fn texts(v: Seq<Vec<char>>) -> Seq<Seq<char>> {
    v.map_values(|l: Vec<char>| l@)
}

/// The values of the lines that hold a `u64`, in order.
pub open spec fn parsed_values(lines: Seq<Seq<char>>) -> Seq<u64>
    decreases lines.len(),
{
    if lines.len() == 0 {
        Seq::empty()
    } else {
        let before = parsed_values(lines.drop_last());
        match decimal_value(trimmed(lines.last())) {
            Some(v) => before.push(v),
            None => before,
        }
    }
}

/// The trimmed lines that are neither blank nor a `u64`, in order.
pub open spec fn rejected_lines(lines: Seq<Seq<char>>) -> Seq<Seq<char>>
    decreases lines.len(),
{
    if lines.len() == 0 {
        Seq::empty()
    } else {
        let before = rejected_lines(lines.drop_last());
        let t = trimmed(lines.last());
        if t.len() > 0 && decimal_value(t) is None {
            before.push(t)
        } else {
            before
        }
    }
}

/// The bounds of `text[start .. end]` without its leading and trailing
/// whitespace.
fn trimmed_range(text: &Vec<char>, start: usize, end: usize) -> (r: (usize, usize))
    requires
        start <= end <= text@.len(),
    ensures
        start <= r.0 <= r.1 <= end,
        text@.subrange(r.0 as int, r.1 as int) == trimmed(text@.subrange(start as int, end as int)),
{
    let ghost piece = text@.subrange(start as int, end as int);
    let mut lo = start;
    while lo < end && whitespace(text[lo])
        invariant
            start <= lo <= end <= text@.len(),
            trim_start(piece) == trim_start(text@.subrange(lo as int, end as int)),
        decreases end - lo,
    {
        assert(text@.subrange(lo as int, end as int).skip(1) =~= text@.subrange(
            lo + 1,
            end as int,
        ));
        lo = lo + 1;
    }
    let ghost front = text@.subrange(lo as int, end as int);
    assert(trim_start(piece) == front);
    let mut hi = end;
    while hi > lo && whitespace(text[hi - 1])
        invariant
            start <= lo <= hi <= end <= text@.len(),
            trim_start(piece) == front,
            front == text@.subrange(lo as int, end as int),
            trim_end(front) == trim_end(text@.subrange(lo as int, hi as int)),
        decreases hi - lo,
    {
        assert(text@.subrange(lo as int, hi as int).drop_last() =~= text@.subrange(
            lo as int,
            hi - 1,
        ));
        hi = hi - 1;
    }
    (lo, hi)
}

/// A copy of `text[lo .. hi]`.
fn copy_range(text: &Vec<char>, lo: usize, hi: usize) -> (r: Vec<char>)
    requires
        lo <= hi <= text@.len(),
    ensures
        r@ == text@.subrange(lo as int, hi as int),
{
    let mut r: Vec<char> = Vec::new();
    let mut i = lo;
    while i < hi
        invariant
            lo <= i <= hi <= text@.len(),
            r@ == text@.subrange(lo as int, i as int),
        decreases hi - i,
    {
        r.push(text[i]);
        proof {
            assert(r@ =~= text@.subrange(lo as int, i + 1));
        }
        i = i + 1;
    }
    r
}

/// Reads the line `text[start .. end]` into `values` or `rejected`.
fn take_line(
    text: &Vec<char>,
    start: usize,
    end: usize,
    values: &mut Vec<u64>,
    rejected: &mut Vec<Vec<char>>,
)
    requires
        start <= end <= text@.len(),
    ensures
        final(values)@ == match decimal_value(trimmed(text@.subrange(start as int, end as int))) {
            Some(v) => old(values)@.push(v),
            None => old(values)@,
        },
        texts(final(rejected)@) == if trimmed(text@.subrange(start as int, end as int)).len() > 0
            && decimal_value(trimmed(text@.subrange(start as int, end as int))) is None {
            texts(old(rejected)@).push(trimmed(text@.subrange(start as int, end as int)))
        } else {
            texts(old(rejected)@)
        },
{
    let (lo, hi) = trimmed_range(text, start, end);
    let line = copy_range(text, lo, hi);
    match parse_decimal(&line) {
        Some(v) => values.push(v),
        None => {
            if line.len() > 0 {
                let ghost before = rejected@;
                let ghost l = line@;
                rejected.push(line);
                assert(texts(rejected@) =~= texts(before).push(l));
            }
        },
    }
}

/// Parses newline-delimited decimal integers: every line is trimmed of
/// whitespace, blank lines are skipped, and every other line that does not
/// hold a `u64` is set aside.
pub fn parse_csv(file_content: &str) -> (r: ParsedSeeds)
    ensures
        r.values@ == parsed_values(segments(file_content@)),
        texts(r.rejected@) == rejected_lines(segments(file_content@)),
{
    let text = chars_of(file_content);
    let n = text.len();
    let mut values: Vec<u64> = Vec::new();
    let mut rejected: Vec<Vec<char>> = Vec::new();
    let ghost mut closed: Seq<Seq<char>> = Seq::empty();
    let mut start: usize = 0;
    let mut i: usize = 0;
    assert(text@.take(0) =~= Seq::<char>::empty());
    assert(text@.subrange(0, 0) =~= Seq::<char>::empty());
    while i < n
        invariant
            n == text@.len(),
            start <= i <= n,
            segments(text@.take(i as int)) == closed.push(text@.subrange(start as int, i as int)),
            values@ == parsed_values(closed),
            texts(rejected@) == rejected_lines(closed),
        decreases n - i,
    {
        let c = text[i];
        proof {
            assert(text@.take(i + 1).drop_last() =~= text@.take(i as int));
            assert(text@.take(i + 1).last() == c);
        }
        if c == '\n' {
            let ghost line = text@.subrange(start as int, i as int);
            take_line(&text, start, i, &mut values, &mut rejected);
            proof {
                assert(closed.push(line).drop_last() =~= closed);
                closed = closed.push(line);
                assert(text@.subrange(i + 1, i + 1) =~= Seq::<char>::empty());
            }
            start = i + 1;
        } else {
            proof {
                assert(text@.subrange(start as int, i + 1) =~= text@.subrange(
                    start as int,
                    i as int,
                ).push(c));
                assert(closed.push(text@.subrange(start as int, i as int)).update(
                    closed.len() as int,
                    text@.subrange(start as int, i + 1),
                ) =~= closed.push(text@.subrange(start as int, i + 1)));
            }
        }
        i = i + 1;
    }
    let ghost line = text@.subrange(start as int, n as int);
    take_line(&text, start, n, &mut values, &mut rejected);
    proof {
        assert(text@.take(n as int) =~= text@);
        assert(closed.push(line).drop_last() =~= closed);
    }
    ParsedSeeds { values, rejected }
}

/// The integers of a text that holds a JSON array of unsigned 64-bit
/// integers, as `serde_json` reads it; `None` when the text holds no such
/// array.
pub uninterp spec fn json_seeds(s: Seq<char>) -> Option<Seq<u64>>;

/// Relies on `serde_json::from_str::<Vec<u64>>`: the array of integers that
/// `text` holds, or `None` where it fails on the text.
#[verifier::external_body]
fn read_json_seeds(text: &str) -> (r: Option<Vec<u64>>)
    ensures
        match r {
            Some(v) => json_seeds(text@) == Some(v@),
            None => json_seeds(text@) is None,
        },
{
    serde_json::from_str::<Vec<u64>>(text).ok()
}

/// The seeds of a JSON text: its array, or no seed when it holds none.
pub open spec fn json_seeds_or_empty(s: Seq<char>) -> Seq<u64> {
    match json_seeds(s) {
        Some(v) => v,
        None => Seq::empty(),
    }
}

/// Reads a JSON array of seeds; a text that holds none gives no seed.
pub fn parse_json(file_content: &str) -> (r: Vec<u64>)
    ensures
        r@ == json_seeds_or_empty(file_content@),
{
    match read_json_seeds(file_content) {
        Some(v) => v,
        None => Vec::new(),
    }
}

} // verus!
