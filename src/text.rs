use vstd::prelude::*;
use vstd::string::StrSliceExecFns;

verus! {

/// Whether `c` is white space in the sense of Unicode's `White_Space`
/// property, the set that `char::is_whitespace` tests.
pub open spec fn is_blank(c: char) -> bool {
    let u = c as u32;
    ||| (0x09 <= u && u <= 0x0d)
    ||| u == 0x20
    ||| u == 0x85
    ||| u == 0xa0
    ||| u == 0x1680
    ||| (0x2000 <= u && u <= 0x200a)
    ||| u == 0x2028
    ||| u == 0x2029
    ||| u == 0x202f
    ||| u == 0x205f
    ||| u == 0x3000
}

/// Tests `c` for white space.
pub fn blank(c: char) -> (r: bool)
    ensures
        r == is_blank(c),
{
    let u = c as u32;
    (0x09 <= u && u <= 0x0d) || u == 0x20 || u == 0x85 || u == 0xa0 || u == 0x1680 || (0x2000
        <= u && u <= 0x200a) || u == 0x2028 || u == 0x2029 || u == 0x202f || u == 0x205f || u
        == 0x3000
}

/// Whether the two characters `a`, `b` stand in `s` at `i`.
pub open spec fn pair_at(s: Seq<char>, i: int, a: char, b: char) -> bool {
    0 <= i && i + 2 <= s.len() && s[i] == a && s[i + 1] == b
}

/// The first position at or after `i` where `a`, `b` stand in `s`.
pub open spec fn find_pair(s: Seq<char>, i: int, a: char, b: char) -> Option<int>
    decreases s.len() - i,
{
    if i < 0 || i + 2 > s.len() {
        None
    } else if pair_at(s, i, a, b) {
        Some(i)
    } else {
        find_pair(s, i + 1, a, b)
    }
}

/// The pieces of `s` from `start` on, cut at every occurrence of `a`, `b`
/// found scanning from `i` on, leftmost first, the way `str::split` cuts.
pub open spec fn split_from(s: Seq<char>, start: int, i: int, a: char, b: char) -> Seq<Seq<char>>
    decreases s.len() - i,
{
    if i < 0 || i + 2 > s.len() {
        seq![s.subrange(start, s.len() as int)]
    } else if pair_at(s, i, a, b) {
        seq![s.subrange(start, i)] + split_from(s, i + 2, i + 2, a, b)
    } else {
        split_from(s, start, i + 1, a, b)
    }
}

/// The pieces of `s` cut at every occurrence of the separator `a`, `b`.
pub open spec fn split_pair(s: Seq<char>, a: char, b: char) -> Seq<Seq<char>> {
    split_from(s, 0, 0, a, b)
}

/// The texts that a vector of strings holds.
pub open spec fn texts(v: Seq<String>) -> Seq<Seq<char>> {
    v.map_values(|x: String| x@)
}

/// The characters of `s`, one by one.
pub fn chars_of(s: &str) -> (r: Vec<char>)
    ensures
        r@ == s@,
{
    let n = s.unicode_len();
    let mut out: Vec<char> = Vec::new();
    let mut i: usize = 0;
    while i < n
        invariant
            n == s@.len(),
            i <= n,
            out@ == s@.subrange(0, i as int),
        decreases n - i,
    {
        out.push(s.get_char(i));
        i = i + 1;
    }
    assert(out@ =~= s@);
    out
}

/// The first position where `a`, `b` stand in `s`.
pub fn find(s: &str, a: char, b: char) -> (r: Option<usize>)
    ensures
        r matches Some(i) ==> find_pair(s@, 0, a, b) == Some(i as int) && i + 2 <= s@.len(),
        r is None ==> find_pair(s@, 0, a, b) is None,
{
    let cs = chars_of(s);
    let n = cs.len();
    let mut i: usize = 0;
    while n - i >= 2
        invariant
            cs@ == s@,
            n == cs@.len(),
            i <= n,
            find_pair(s@, 0, a, b) == find_pair(s@, i as int, a, b),
        decreases n - i,
    {
        if cs[i] == a && cs[i + 1] == b {
            return Some(i);
        }
        i = i + 1;
    }
    None
}

/// Cuts `s` at every occurrence of the separator `a`, `b`.
pub fn split(s: &str, a: char, b: char) -> (r: Vec<String>)
    ensures
        texts(r@) == split_pair(s@, a, b),
{
    let cs = chars_of(s);
    let n = cs.len();
    let mut out: Vec<String> = Vec::new();
    let mut start: usize = 0;
    let mut i: usize = 0;
    while n - i >= 2
        invariant
            cs@ == s@,
            n == cs@.len(),
            start <= i <= n,
            texts(out@) + split_from(s@, start as int, i as int, a, b) == split_pair(s@, a, b),
        decreases n - i,
    {
        if cs[i] == a && cs[i + 1] == b {
            let piece = s.substring_char(start, i).to_owned();
            proof {
                let old_texts = texts(out@);
                assert(split_from(s@, start as int, i as int, a, b) == seq![piece@] + split_from(
                    s@,
                    i + 2,
                    i + 2,
                    a,
                    b,
                ));
                assert(texts(out@.push(piece)) =~= old_texts.push(piece@));
                assert(old_texts + (seq![piece@] + split_from(s@, i + 2, i + 2, a, b)) =~= old_texts.push(piece@) + split_from(s@, i + 2, i + 2, a, b));
            }
            out.push(piece);
            i = i + 2;
            start = i;
        } else {
            i = i + 1;
        }
    }
    let last = s.substring_char(start, n).to_owned();
    proof {
        let old_texts = texts(out@);
        assert(split_from(s@, start as int, i as int, a, b) == seq![last@]);
        assert(texts(out@.push(last)) =~= old_texts + seq![last@]);
    }
    out.push(last);
    out
}

/// Whether `w` ends in the unit suffix `ms`.
pub open spec fn ends_in_ms(w: Seq<char>) -> bool {
    w.len() >= 2 && w[w.len() - 2] == 'm' && w[w.len() - 1] == 's'
}

/// Characters that separate the words of a timing report: white space and
/// the punctuation `:` `,` `(` `)`.
pub open spec fn is_gap(c: char) -> bool {
    is_blank(c) || c == ':' || c == ',' || c == '(' || c == ')'
}

/// The word `s[start .. end]` if it is a timing, else nothing.
pub open spec fn timing_word(s: Seq<char>, start: int, end: int) -> Seq<Seq<char>> {
    let w = s.subrange(start, end);
    if ends_in_ms(w) {
        seq![w]
    } else {
        Seq::empty()
    }
}

/// The timings of `s` from `start` on, scanning from `i` on: the words
/// (maximal runs of characters that are no gap) that end in `ms`, in order.
pub open spec fn timings_from(s: Seq<char>, start: int, i: int) -> Seq<Seq<char>>
    decreases s.len() - i,
{
    if i < 0 || i >= s.len() {
        timing_word(s, start, s.len() as int)
    } else if is_gap(s[i]) {
        timing_word(s, start, i) + timings_from(s, i + 1, i + 1)
    } else {
        timings_from(s, start, i + 1)
    }
}

/// The timings of `s`.
pub open spec fn timings_of(s: Seq<char>) -> Seq<Seq<char>> {
    timings_from(s, 0, 0)
}

fn gap(c: char) -> (r: bool)
    ensures
        r == is_gap(c),
{
    blank(c) || c == ':' || c == ',' || c == '(' || c == ')'
}

/// Keeps `s[start .. end]` in `out` when it ends in `ms`.
fn keep_timing(s: &str, cs: &Vec<char>, start: usize, end: usize, out: &mut Vec<String>)
    requires
        cs@ == s@,
        start <= end <= cs@.len(),
    ensures
        texts(final(out)@) == texts(old(out)@) + timing_word(s@, start as int, end as int),
{
    let ghost w = s@.subrange(start as int, end as int);
    if end - start >= 2 && cs[end - 2] == 'm' && cs[end - 1] == 's' {
        let word = s.substring_char(start, end).to_owned();
        assert(texts(out@.push(word)) =~= texts(out@) + seq![word@]);
        out.push(word);
    } else {
        assert(texts(out@) =~= texts(out@) + Seq::<Seq<char>>::empty());
    }
}

/// The words of `s` that end in `ms`, in order.
pub fn timings(s: &str) -> (r: Vec<String>)
    ensures
        texts(r@) == timings_of(s@),
{
    let cs = chars_of(s);
    let n = cs.len();
    let mut out: Vec<String> = Vec::new();
    let mut start: usize = 0;
    let mut i: usize = 0;
    while i < n
        invariant
            cs@ == s@,
            n == cs@.len(),
            start <= i <= n,
            texts(out@) + timings_from(s@, start as int, i as int) == timings_of(s@),
        decreases n - i,
    {
        if gap(cs[i]) {
            let ghost before = texts(out@);
            keep_timing(s, &cs, start, i, &mut out);
            assert(before + timings_from(s@, start as int, i as int) =~= texts(out@)
                + timings_from(s@, i + 1, i + 1));
            i = i + 1;
            start = i;
        } else {
            i = i + 1;
        }
    }
    let ghost before = texts(out@);
    keep_timing(s, &cs, start, n, &mut out);
    assert(texts(out@) =~= before + timings_from(s@, start as int, i as int));
    out
}

/// Number of white-space characters at the start of `s`.
pub open spec fn blank_prefix(s: Seq<char>) -> nat
    decreases s.len(),
{
    if s.len() > 0 && is_blank(s[0]) {
        1 + blank_prefix(s.drop_first())
    } else {
        0
    }
}

/// Number of white-space characters at the end of `s`.
pub open spec fn blank_suffix(s: Seq<char>) -> nat
    decreases s.len(),
{
    if s.len() > 0 && is_blank(s.last()) {
        1 + blank_suffix(s.drop_last())
    } else {
        0
    }
}

/// `s` without leading and trailing white space, as `str::trim` gives it.
pub open spec fn trim_spec(s: Seq<char>) -> Seq<char> {
    let head = s.subrange(blank_prefix(s) as int, s.len() as int);
    head.subrange(0, head.len() - blank_suffix(head))
}

proof fn lemma_blank_prefix_bound(s: Seq<char>)
    ensures
        blank_prefix(s) <= s.len(),
    decreases s.len(),
{
    if s.len() > 0 && is_blank(s[0]) {
        lemma_blank_prefix_bound(s.drop_first());
    }
}

proof fn lemma_blank_suffix_bound(s: Seq<char>)
    ensures
        blank_suffix(s) <= s.len(),
    decreases s.len(),
{
    if s.len() > 0 && is_blank(s.last()) {
        lemma_blank_suffix_bound(s.drop_last());
    }
}

/// Removes leading and trailing white space.
pub fn trim(s: &str) -> (r: String)
    ensures
        r@ == trim_spec(s@),
{
    let cs = chars_of(s);
    let n = cs.len();
    let mut lo: usize = 0;
    assert(s@.subrange(0, n as int) =~= s@);
    while lo < n && blank(cs[lo])
        invariant
            cs@ == s@,
            n == cs@.len(),
            lo <= n,
            blank_prefix(s@) == lo + blank_prefix(s@.subrange(lo as int, n as int)),
        decreases n - lo,
    {
        assert(s@.subrange(lo as int, n as int).drop_first() =~= s@.subrange(lo + 1, n as int));
        lo = lo + 1;
    }
    proof {
        if lo < n {
            assert(s@.subrange(lo as int, n as int)[0] == cs@[lo as int]);
        }
    }
    let ghost head = s@.subrange(lo as int, n as int);
    let mut hi: usize = n;
    while hi > lo && blank(cs[hi - 1])
        invariant
            cs@ == s@,
            n == cs@.len(),
            head == s@.subrange(lo as int, n as int),
            lo <= hi <= n,
            blank_suffix(head) == (n - hi) + blank_suffix(s@.subrange(lo as int, hi as int)),
        decreases hi - lo,
    {
        assert(s@.subrange(lo as int, hi as int).drop_last() =~= s@.subrange(lo as int, hi - 1));
        hi = hi - 1;
    }
    proof {
        if hi > lo {
            assert(s@.subrange(lo as int, hi as int).last() == cs@[hi - 1]);
        }
        assert(head.subrange(0, head.len() - blank_suffix(head)) =~= s@.subrange(lo as int, hi as int));
    }
    s.substring_char(lo, hi).to_owned()
}

/// The first position at or after `i` where `c` stands in `s`.
pub open spec fn find_char_from(s: Seq<char>, i: int, c: char) -> Option<int>
    decreases s.len() - i,
{
    if i < 0 || i >= s.len() {
        None
    } else if s[i] == c {
        Some(i)
    } else {
        find_char_from(s, i + 1, c)
    }
}

/// The first position where `c` stands in `s`.
pub fn find_char(s: &str, c: char) -> (r: Option<usize>)
    ensures
        r matches Some(i) ==> find_char_from(s@, 0, c) == Some(i as int) && i < s@.len(),
        r is None ==> find_char_from(s@, 0, c) is None,
{
    let cs = chars_of(s);
    let n = cs.len();
    let mut i: usize = 0;
    while i < n
        invariant
            cs@ == s@,
            n == cs@.len(),
            i <= n,
            find_char_from(s@, 0, c) == find_char_from(s@, i as int, c),
        decreases n - i,
    {
        if cs[i] == c {
            return Some(i);
        }
        i = i + 1;
    }
    None
}

/// The value of the decimal digits `d`.
pub open spec fn digits_value(d: Seq<char>) -> nat
    decreases d.len(),
{
    if d.len() == 0 {
        0
    } else {
        (digits_value(d.drop_last()) * 10 + (d.last() as int - '0' as int)) as nat
    }
}

/// Whether every character of `d` is an ASCII digit.
pub open spec fn all_digits(d: Seq<char>) -> bool {
    forall|i: int| 0 <= i < d.len() ==> '0' <= #[trigger] d[i] <= '9'
}

/// The number that `s` spells as `u16::from_str` reads it: an optional `+`,
/// then one or more ASCII digits, with a value below 65536.
pub open spec fn u16_spec(s: Seq<char>) -> Option<u16> {
    let d = if s.len() > 0 && s[0] == '+' {
        s.drop_first()
    } else {
        s
    };
    if d.len() > 0 && all_digits(d) && digits_value(d) <= u16::MAX {
        Some(digits_value(d) as u16)
    } else {
        None
    }
}

proof fn lemma_digits_value_grows(d: Seq<char>, k: int)
    requires
        0 <= k <= d.len(),
        all_digits(d),
    ensures
        digits_value(d.subrange(0, k)) <= digits_value(d),
    decreases d.len() - k,
{
    if k < d.len() {
        lemma_digits_value_grows(d, k + 1);
        assert(d.subrange(0, k + 1).drop_last() =~= d.subrange(0, k));
    } else {
        assert(d.subrange(0, k) =~= d);
    }
}

/// Reads a decimal `u16`, as `u16::from_str` does.
pub fn parse_u16(s: &str) -> (r: Option<u16>)
    ensures
        r == u16_spec(s@),
{
    let cs = chars_of(s);
    let n = cs.len();
    let start: usize = if n > 0 && cs[0] == '+' {
        1
    } else {
        0
    };
    let ghost d = if s@.len() > 0 && s@[0] == '+' {
        s@.drop_first()
    } else {
        s@
    };
    assert(d =~= s@.subrange(start as int, n as int));
    if start == n {
        return None;
    }
    let mut value: u32 = 0;
    let mut i: usize = start;
    while i < n
        invariant
            cs@ == s@,
            n == cs@.len(),
            start < n,
            start <= i <= n,
            d =~= s@.subrange(start as int, n as int),
            u16_spec(s@) == (if d.len() > 0 && all_digits(d) && digits_value(d) <= u16::MAX {
                Some(digits_value(d) as u16)
            } else {
                None
            }),
            all_digits(d.subrange(0, i - start)),
            value == digits_value(d.subrange(0, i - start)),
            value <= u16::MAX,
        decreases n - i,
    {
        let c = cs[i];
        if c < '0' || c > '9' {
            proof {
                assert(d[i - start] == c);
                assert(!('0' <= d[i - start] <= '9'));
                assert(!all_digits(d));
            }
            return None;
        }
        let digit = (c as u32) - ('0' as u32);
        proof {
            assert(d.subrange(0, i + 1 - start).drop_last() =~= d.subrange(0, i - start));
            assert(d.subrange(0, i + 1 - start).last() == c);
        }
        let next = value * 10 + digit;
        if next > 65535 {
            proof {
                let sub = d.subrange(0, i + 1 - start);
                assert(digits_value(sub) == digits_value(sub.drop_last()) * 10 + (c as int - '0' as int));
                if all_digits(d) {
                    lemma_digits_value_grows(d, i + 1 - start);
                    assert(digits_value(d) > u16::MAX);
                }
            }
            return None;
        }
        value = next;
        i = i + 1;
    }
    assert(d.subrange(0, n - start) =~= d);
    Some(value as u16)
}

/// The pieces of `s` from `start` on, cut at every `c` found scanning from
/// `i` on.
pub open spec fn split_char_from(s: Seq<char>, start: int, i: int, c: char) -> Seq<Seq<char>>
    decreases s.len() - i,
{
    if i < 0 || i >= s.len() {
        seq![s.subrange(start, s.len() as int)]
    } else if s[i] == c {
        seq![s.subrange(start, i)] + split_char_from(s, i + 1, i + 1, c)
    } else {
        split_char_from(s, start, i + 1, c)
    }
}

/// The pieces of `s` cut at every `c`, as `str::split` gives them.
pub open spec fn split_char_spec(s: Seq<char>, c: char) -> Seq<Seq<char>> {
    split_char_from(s, 0, 0, c)
}

/// Cuts `s` at every `c`.
pub fn split_char(s: &str, c: char) -> (r: Vec<String>)
    ensures
        texts(r@) == split_char_spec(s@, c),
{
    let cs = chars_of(s);
    let n = cs.len();
    let mut out: Vec<String> = Vec::new();
    let mut start: usize = 0;
    let mut i: usize = 0;
    while i < n
        invariant
            cs@ == s@,
            n == cs@.len(),
            start <= i <= n,
            texts(out@) + split_char_from(s@, start as int, i as int, c) == split_char_spec(s@, c),
        decreases n - i,
    {
        if cs[i] == c {
            let piece = s.substring_char(start, i).to_owned();
            proof {
                let old_texts = texts(out@);
                assert(texts(out@.push(piece)) =~= old_texts.push(piece@));
                assert(old_texts + (seq![piece@] + split_char_from(s@, i + 1, i + 1, c)) =~= old_texts.push(piece@) + split_char_from(s@, i + 1, i + 1, c));
            }
            out.push(piece);
            i = i + 1;
            start = i;
        } else {
            i = i + 1;
        }
    }
    let last = s.substring_char(start, n).to_owned();
    proof {
        let old_texts = texts(out@);
        assert(texts(out@.push(last)) =~= old_texts + seq![last@]);
    }
    out.push(last);
    out
}

/// `words` joined, with `sep` between each two.
pub open spec fn join_spec(words: Seq<Seq<char>>, sep: Seq<char>) -> Seq<char>
    decreases words.len(),
{
    if words.len() == 0 {
        Seq::empty()
    } else if words.len() == 1 {
        words[0]
    } else {
        join_spec(words.drop_last(), sep) + sep + words.last()
    }
}

} // verus!
