use vstd::prelude::*;
use vstd::std_specs::iter::IteratorSpec;

verus! {

broadcast use {vstd::string::axiom_spec_iter, vstd::string::next_postcondition};

/// The characters of a string, in order.
pub fn chars_of(s: &str) -> (r: Vec<char>)
    ensures
        r@ == s@,
{
    let mut it = s.chars();
    let mut out: Vec<char> = Vec::new();
    loop
        invariant
            out@ + it.remaining() == s@,
            it.obeys_prophetic_iter_laws(),
            it.decrease() is Some,
        decreases it.decrease()->0,
    {
        let ghost before = it.remaining();
        match it.next() {
            Some(c) => {
                out.push(c);
                assert(out@ + it.remaining() =~= s@);
            },
            None => {
                assert(before.len() == 0);
                assert(out@ =~= s@);
                return out;
            },
        }
    }
}

/// Copies `s[lo..hi]` into a vector of its own.
pub fn sub_vec(s: &Vec<char>, lo: usize, hi: usize) -> (r: Vec<char>)
    requires
        lo <= hi <= s@.len(),
    ensures
        r@ == s@.subrange(lo as int, hi as int),
{
    let mut out: Vec<char> = Vec::new();
    let mut i: usize = lo;
    while i < hi
        invariant
            lo <= i <= hi <= s@.len(),
            out@ == s@.subrange(lo as int, i as int),
        decreases hi - i,
    {
        out.push(s[i]);
        i = i + 1;
        assert(out@ =~= s@.subrange(lo as int, i as int));
    }
    out
}

/// The characters that `char::is_whitespace` accepts: Unicode's `White_Space`.
pub open spec fn is_white(c: char) -> bool {
    let n = c as u32;
    (0x9 <= n <= 0xd) || n == 0x20 || n == 0x85 || n == 0xa0 || n == 0x1680 || (0x2000 <= n
        <= 0x200a) || n == 0x2028 || n == 0x2029 || n == 0x202f || n == 0x205f || n == 0x3000
}

/// Whether `c` is whitespace.
pub fn white(c: char) -> (r: bool)
    ensures
        r == is_white(c),
{
    let n = c as u32;
    (0x9 <= n && n <= 0xd) || n == 0x20 || n == 0x85 || n == 0xa0 || n == 0x1680 || (0x2000 <= n
        && n <= 0x200a) || n == 0x2028 || n == 0x2029 || n == 0x202f || n == 0x205f || n == 0x3000
}

pub open spec fn trim_start(s: Seq<char>) -> Seq<char>
    decreases s.len(),
{
    if s.len() > 0 && is_white(s[0]) {
        trim_start(s.drop_first())
    } else {
        s
    }
}

pub open spec fn trim_end(s: Seq<char>) -> Seq<char>
    decreases s.len(),
{
    if s.len() > 0 && is_white(s.last()) {
        trim_end(s.drop_last())
    } else {
        s
    }
}

/// `s` without its leading and trailing whitespace.
pub open spec fn trim(s: Seq<char>) -> Seq<char> {
    trim_end(trim_start(s))
}

/// `s` with leading and trailing whitespace removed, as `str::trim` does.
pub fn trimmed(s: &Vec<char>) -> (r: Vec<char>)
    ensures
        r@ == trim(s@),
{
    let n = s.len();
    let mut a: usize = 0;
    assert(s@.subrange(0, n as int) =~= s@);
    while a < n && white(s[a])
        invariant
            a <= n == s@.len(),
            trim_start(s@) == trim_start(s@.subrange(a as int, n as int)),
        decreases n - a,
    {
        assert(s@.subrange(a as int, n as int).drop_first() =~= s@.subrange(a + 1, n as int));
        a = a + 1;
    }
    let mut b: usize = n;
    while b > a && white(s[b - 1])
        invariant
            a <= b <= n == s@.len(),
            trim(s@) == trim_end(s@.subrange(a as int, b as int)),
        decreases b - a,
    {
        assert(s@.subrange(a as int, b as int).drop_last() =~= s@.subrange(a as int, b - 1));
        b = b - 1;
    }
    sub_vec(s, a, b)
}

/// The pieces of `s` between non-overlapping occurrences of `d`, found from the left
/// while scanning from position `i`, the current piece having begun at `start`.
pub open spec fn split_scan(s: Seq<char>, d: Seq<char>, start: int, i: int) -> Seq<Seq<char>>
    decreases s.len() - i,
{
    if d.len() == 0 || i < 0 || i + d.len() > s.len() {
        seq![s.subrange(start, s.len() as int)]
    } else if s.subrange(i, i + d.len()) == d {
        seq![s.subrange(start, i)] + split_scan(s, d, i + d.len(), i + d.len())
    } else {
        split_scan(s, d, start, i + 1)
    }
}

/// The pieces of `s` between occurrences of `d`, as `str::split` gives them.
pub open spec fn split(s: Seq<char>, d: Seq<char>) -> Seq<Seq<char>> {
    split_scan(s, d, 0, 0)
}

/// No occurrence of `d` in `s` starts before position `n`.
pub open spec fn no_match_before(s: Seq<char>, d: Seq<char>, n: int) -> bool {
    forall|k: int| 0 <= k < n && k + d.len() <= s.len() ==> #[trigger] s.subrange(k, k + d.len()) != d
}

proof fn lemma_scan_skip(s: Seq<char>, d: Seq<char>, start: int, i: int, j: int)
    requires
        d.len() > 0,
        0 <= i <= j,
        j + d.len() <= s.len() + 1,
        no_match_before(s, d, j),
    ensures
        split_scan(s, d, start, i) == split_scan(s, d, start, j),
    decreases j - i,
{
    if i < j {
        if i + d.len() <= s.len() {
            assert(s.subrange(i, i + d.len()) != d);
        }
        lemma_scan_skip(s, d, start, i + 1, j);
    }
}

proof fn lemma_scan_shift(q: Seq<char>, r: Seq<char>, d: Seq<char>, a: int, b: int)
    requires
        0 <= a <= b <= r.len(),
    ensures
        split_scan(q + r, d, q.len() + a, q.len() + b) == split_scan(r, d, a, b),
    decreases r.len() - b,
{
    let s = q + r;
    if d.len() == 0 || b + d.len() > r.len() {
        assert(s.subrange(q.len() + a, s.len() as int) =~= r.subrange(a, r.len() as int));
    } else {
        assert(s.subrange(q.len() + b, q.len() + b + d.len()) =~= r.subrange(b, b + d.len()));
        if r.subrange(b, b + d.len()) == d {
            assert(s.subrange(q.len() + a, q.len() + b) =~= r.subrange(a, b));
            lemma_scan_shift(q, r, d, b + d.len(), b + d.len());
        } else {
            lemma_scan_shift(q, r, d, a, b + 1);
        }
    }
}

/// Splitting `p + d + r` at `d`, where no occurrence of `d` starts inside `p`, gives
/// `p` and then the pieces of `r`.
pub proof fn lemma_split_cons(p: Seq<char>, d: Seq<char>, r: Seq<char>)
    requires
        d.len() > 0,
        no_match_before(p + d + r, d, p.len() as int),
    ensures
        split(p + d + r, d) == seq![p] + split(r, d),
{
    let s = p + d + r;
    lemma_scan_skip(s, d, 0, 0, p.len() as int);
    assert(s.subrange(p.len() as int, (p.len() + d.len()) as int) =~= d);
    assert(s.subrange(0, p.len() as int) =~= p);
    assert(s =~= (p + d) + r);
    lemma_scan_shift(p + d, r, d, 0, 0);
}

/// Splitting text in which `d` never occurs gives the text alone.
pub proof fn lemma_split_none(s: Seq<char>, d: Seq<char>)
    requires
        d.len() > 0,
        no_match_before(s, d, s.len() as int),
    ensures
        split(s, d) == seq![s],
{
    if d.len() <= s.len() + 1 {
        lemma_scan_skip(s, d, 0, 0, s.len() - d.len() + 1);
    }
    assert(s.subrange(0, s.len() as int) =~= s);
}

/// The texts of a sequence of character vectors.
pub open spec fn views(v: Seq<Vec<char>>) -> Seq<Seq<char>> {
    v.map_values(|p: Vec<char>| p@)
}

/// Whether `d` occurs in `s` at position `i`.
pub fn occurs_at(s: &Vec<char>, i: usize, d: &Vec<char>) -> (r: bool)
    requires
        i + d@.len() <= s@.len(),
    ensures
        r == (s@.subrange(i as int, i + d@.len()) == d@),
{
    let n: usize = s.len();
    let mut j: usize = 0;
    while j < d.len()
        invariant
            j <= d@.len(),
            n == s@.len(),
            i + d@.len() <= s@.len(),
            forall|k: int| 0 <= k < j ==> s@[i + k] == d@[k],
        decreases d@.len() - j,
    {
        assert(i + j < s@.len());
        if s[i + j] != d[j] {
            assert(s@.subrange(i as int, i + d@.len())[j as int] != d@[j as int]);
            return false;
        }
        j = j + 1;
    }
    assert(s@.subrange(i as int, i + d@.len()) =~= d@);
    true
}

/// Splits `s` at each occurrence of the non-empty delimiter `d`.
pub fn split_on(s: &Vec<char>, d: &Vec<char>) -> (r: Vec<Vec<char>>)
    requires
        d@.len() > 0,
    ensures
        views(r@) == split(s@, d@),
{
    let mut out: Vec<Vec<char>> = Vec::new();
    let mut start: usize = 0;
    let mut i: usize = 0;
    while d.len() <= s.len() - i
        invariant
            start <= i <= s@.len(),
            d@.len() > 0,
            views(out@) + split_scan(s@, d@, start as int, i as int) == split(s@, d@),
        decreases s@.len() - i,
    {
        if occurs_at(s, i, d) {
            let piece = sub_vec(s, start, i);
            let ghost before = out@;
            let ghost rest = split_scan(s@, d@, i + d@.len(), i + d@.len());
            assert(split_scan(s@, d@, start as int, i as int) == seq![piece@] + rest);
            out.push(piece);
            assert(views(out@) =~= views(before) + seq![piece@]);
            assert(views(before) + (seq![piece@] + rest) =~= views(before) + seq![piece@] + rest);
            i = i + d.len();
            start = i;
        } else {
            i = i + 1;
        }
    }
    let last = sub_vec(s, start, s.len());
    let ghost before = out@;
    out.push(last);
    assert(views(out@) =~= views(before) + seq![last@]);
    out
}

/// An ASCII decimal digit.
pub open spec fn is_digit(c: char) -> bool {
    '0' <= c <= '9'
}

/// The number that the decimal digits `s` spell.
pub open spec fn digits_value(s: Seq<char>) -> nat
    decreases s.len(),
{
    if s.len() == 0 {
        0
    } else {
        digits_value(s.drop_last()) * 10 + (s.last() as nat - '0' as nat) as nat
    }
}

pub open spec fn all_digits(s: Seq<char>) -> bool {
    forall|k: int| 0 <= k < s.len() ==> is_digit(#[trigger] s[k])
}

/// `s` without one leading `+`, if it has one.
pub open spec fn unsigned_digits(s: Seq<char>) -> Seq<char> {
    if s.len() > 0 && s[0] == '+' {
        s.drop_first()
    } else {
        s
    }
}

/// What `u64::from_str` reads: an optional `+`, then at least one decimal digit,
/// the value not above `u64::MAX`.
pub open spec fn decimal_u64(s: Seq<char>) -> Option<u64> {
    let d = unsigned_digits(s);
    if d.len() > 0 && all_digits(d) && digits_value(d) <= u64::MAX {
        Some(digits_value(d) as u64)
    } else {
        None
    }
}

proof fn lemma_prefix_value_le(s: Seq<char>, j: int)
    requires
        0 <= j <= s.len(),
        all_digits(s),
    ensures
        digits_value(s.subrange(0, j)) <= digits_value(s),
    decreases s.len() - j,
{
    if j < s.len() {
        lemma_prefix_value_le(s, j + 1);
        assert(s.subrange(0, j + 1).drop_last() =~= s.subrange(0, j));
    } else {
        assert(s.subrange(0, j) =~= s);
    }
}

pub open spec fn digit_char(d: nat) -> char {
    ('0' as nat + d) as char
}

/// The decimal digits of `n`, without leading zeros.
pub open spec fn decimal(n: nat) -> Seq<char>
    decreases n,
{
    if n < 10 {
        seq![digit_char(n)]
    } else {
        decimal(n / 10) + seq![digit_char(n % 10)]
    }
}

/// Reads an unsigned 64-bit decimal number as `u64::from_str` does.
pub fn parse_u64(s: &Vec<char>) -> (r: Option<u64>)
    ensures
        r == decimal_u64(s@),
{
    let n: usize = s.len();
    let k: usize = if n > 0 && s[0] == '+' {
        1
    } else {
        0
    };
    let ghost d = s@.subrange(k as int, n as int);
    assert(d =~= unsigned_digits(s@));
    if k == n {
        return None;
    }
    let mut acc: u64 = 0;
    let mut i: usize = k;
    while i < n
        invariant
            k <= i <= n == s@.len(),
            d == s@.subrange(k as int, n as int),
            d == unsigned_digits(s@),
            forall|j: int| 0 <= j < i - k ==> is_digit(#[trigger] d[j]),
            acc as nat == digits_value(d.subrange(0, i - k)),
        decreases n - i,
    {
        let c = s[i];
        if !('0' <= c && c <= '9') {
            assert(!is_digit(d[i - k]));
            assert(!all_digits(d));
            return None;
        }
        assert(d.subrange(0, i + 1 - k).drop_last() =~= d.subrange(0, i - k));
        let digit: u64 = (c as u32 - '0' as u32) as u64;
        let next = match acc.checked_mul(10) {
            Some(m) => m.checked_add(digit),
            None => None,
        };
        match next {
            Some(v) => {
                acc = v;
            },
            None => {
                proof {
                    if all_digits(d) {
                        lemma_prefix_value_le(d, i + 1 - k);
                        assert(digits_value(d) > u64::MAX);
                    }
                }
                return None;
            },
        }
        i = i + 1;
    }
    assert(d.subrange(0, n - k) =~= d);
    Some(acc)
}

} // verus!
