//! Character classes, whitespace trimming, and decimal text.
//!
//! The player's console protocol is plain text: single-value responses carry
//! a decimal number or a title padded with whitespace, and commands embed
//! decimal arguments. This module holds the character-level vocabulary the
//! rest of the crate states its contracts with.

use vstd::prelude::*;

verus! {

/// Whitespace as it appears around values in console responses.
pub open spec fn is_ws_char(c: char) -> bool {
    c == ' ' || c == '\t' || c == '\r' || c == '\n'
}

/// Decimal digit.
pub open spec fn is_digit_char(c: char) -> bool {
    '0' <= c && c <= '9'
}

/// Numeric value of a decimal digit.
pub open spec fn digit_val(c: char) -> int {
    c as int - '0' as int
}

/// The digit character for a value in `0..=9`.
pub open spec fn digit_of(d: int) -> char {
    (('0' as int + d) as char)
}

/// Every character of `s` is a decimal digit.
pub open spec fn all_digits(s: Seq<char>) -> bool {
    forall|i: int| 0 <= i < s.len() ==> is_digit_char(#[trigger] s[i])
}

/// Value of a run of decimal digits, most significant first.
pub open spec fn dec_val(s: Seq<char>) -> int
    decreases s.len(),
{
    if s.len() == 0 {
        0
    } else {
        dec_val(s.drop_last()) * 10 + digit_val(s.last())
    }
}

/// Decimal text of a non-negative value, most significant digit first.
pub open spec fn dec_rep(n: int) -> Seq<char>
    decreases n,
{
    if n < 10 {
        seq![digit_of(n)]
    } else {
        dec_rep(n / 10).push(digit_of(n % 10))
    }
}

/// `s` with its leading whitespace removed.
pub open spec fn trim_start_spec(s: Seq<char>) -> Seq<char>
    decreases s.len(),
{
    if s.len() > 0 && is_ws_char(s[0]) {
        trim_start_spec(s.drop_first())
    } else {
        s
    }
}

/// `s` with its trailing whitespace removed.
pub open spec fn trim_end_spec(s: Seq<char>) -> Seq<char>
    decreases s.len(),
{
    if s.len() > 0 && is_ws_char(s.last()) {
        trim_end_spec(s.drop_last())
    } else {
        s
    }
}

/// `s` with whitespace removed from both ends, the shape in which
/// single-value responses are interpreted.
pub open spec fn trim_spec(s: Seq<char>) -> Seq<char> {
    trim_end_spec(trim_start_spec(s))
}

/// What unsigned decimal text denotes: an optional `+` sign, then one or
/// more digits, with a value of at most `max`; anything else denotes nothing.
pub open spec fn parse_uint_spec(s: Seq<char>, max: int) -> Option<int> {
    let body = if s.len() > 0 && s[0] == '+' {
        s.drop_first()
    } else {
        s
    };
    if body.len() > 0 && all_digits(body) && dec_val(body) <= max {
        Some(dec_val(body))
    } else {
        None
    }
}

/// First position at or after `i` that does not hold whitespace.
pub open spec fn ws_end(s: Seq<char>, i: int) -> int
    decreases s.len() - i,
{
    if i < s.len() && is_ws_char(s[i]) {
        ws_end(s, i + 1)
    } else {
        i
    }
}

/// First position at or after `i` that does not hold a decimal digit.
pub open spec fn digits_end(s: Seq<char>, i: int) -> int
    decreases s.len() - i,
{
    if i < s.len() && is_digit_char(s[i]) {
        digits_end(s, i + 1)
    } else {
        i
    }
}

/// First position at or after `i` holding a line terminator.
pub open spec fn non_nl_end(s: Seq<char>, i: int) -> int
    decreases s.len() - i,
{
    if i < s.len() && s[i] != '\n' {
        non_nl_end(s, i + 1)
    } else {
        i
    }
}

/// One trailing carriage return removed, as a line terminator pair leaves it.
pub open spec fn strip_cr(l: Seq<char>) -> Seq<char> {
    if l.len() > 0 && l.last() == '\r' {
        l.drop_last()
    } else {
        l
    }
}

/// The lines of a block: split at line terminators, one trailing carriage
/// return removed from each line, and no empty final line for a block that
/// ends in a terminator.
pub open spec fn split_lines(s: Seq<char>) -> Seq<Seq<char>>
    decreases s.len(),
{
    if s.len() == 0 {
        Seq::empty()
    } else {
        let k = non_nl_end(s, 0);
        if 0 <= k < s.len() {
            seq![strip_cr(s.subrange(0, k))] + split_lines(s.subrange(k + 1, s.len() as int))
        } else {
            seq![strip_cr(s)]
        }
    }
}

/// The views of a vector of lines.
pub open spec fn line_views(ls: Seq<String>) -> Seq<Seq<char>> {
    ls.map_values(|l: String| l@)
}

pub proof fn lemma_digits_end_range(s: Seq<char>, i: int)
    requires
        0 <= i <= s.len(),
    ensures
        i <= digits_end(s, i) <= s.len(),
        forall|k: int| i <= k < digits_end(s, i) ==> is_digit_char(#[trigger] s[k]),
        digits_end(s, i) < s.len() ==> !is_digit_char(s[digits_end(s, i)]),
    decreases s.len() - i,
{
    if i < s.len() && is_digit_char(s[i]) {
        lemma_digits_end_range(s, i + 1);
    }
}

pub proof fn lemma_non_nl_end_range(s: Seq<char>, i: int)
    requires
        0 <= i <= s.len(),
    ensures
        i <= non_nl_end(s, i) <= s.len(),
        forall|k: int| i <= k < non_nl_end(s, i) ==> #[trigger] s[k] != '\n',
        non_nl_end(s, i) < s.len() ==> s[non_nl_end(s, i)] == '\n',
    decreases s.len() - i,
{
    if i < s.len() && s[i] != '\n' {
        lemma_non_nl_end_range(s, i + 1);
    }
}

proof fn lemma_non_nl_end_from_chars(s: Seq<char>, i: int)
    requires
        0 <= i <= s.len(),
        forall|k: int| 0 <= k < i ==> #[trigger] s[k] != '\n',
        i == s.len() || s[i] == '\n',
    ensures
        non_nl_end(s, 0) == i,
    decreases i,
{
    lemma_non_nl_end_range(s, 0);
    if non_nl_end(s, 0) < i {
        assert(s[non_nl_end(s, 0)] != '\n');
    }
    if non_nl_end(s, 0) > i {
        assert(s[i] != '\n');
    }
}

/// Splits a response block into its lines.
pub fn split_into_lines(block: &str) -> (r: Vec<String>)
    ensures
        line_views(r@) == split_lines(block@),
{
    let n = block.unicode_len();
    let mut r: Vec<String> = Vec::new();
    let mut pos: usize = 0;
    proof {
        assert(block@.subrange(0, n as int) =~= block@);
        assert(line_views(r@) + split_lines(block@) =~= split_lines(block@));
    }
    while pos < n
        invariant
            0 <= pos <= n,
            n == block@.len(),
            line_views(r@) + split_lines(block@.subrange(pos as int, n as int)) == split_lines(
                block@,
            ),
        decreases n - pos,
    {
        let ghost rem = block@.subrange(pos as int, n as int);
        let k = scan_to_nl(block, pos);
        proof {
            lemma_non_nl_end_range(block@, pos as int);
            assert(forall|q: int| 0 <= q < k - pos ==> #[trigger] rem[q] != '\n');
            lemma_non_nl_end_from_chars(rem, k - pos);
        }
        let e: usize = if k > pos && block.get_char(k - 1) == '\r' {
            k - 1
        } else {
            k
        };
        proof {
            assert(strip_cr(rem.subrange(0, k - pos)) =~= block@.subrange(pos as int, e as int));
            if k < n {
                assert(rem.subrange(k - pos + 1, rem.len() as int) =~= block@.subrange(
                    k + 1,
                    n as int,
                ));
            } else {
                assert(rem.subrange(0, k - pos) =~= rem);
            }
        }
        let line = String::from_str(block.substring_char(pos, e));
        proof {
            assert(line_views(r@.push(line)) =~= line_views(r@).push(line@));
            assert(line_views(r@).push(line@) =~= line_views(r@) + seq![line@]);
            assert((line_views(r@) + seq![line@]) + split_lines(
                block@.subrange(if k < n { k + 1 } else { n as int }, n as int),
            ) =~= line_views(r@) + (seq![line@] + split_lines(
                block@.subrange(if k < n { k + 1 } else { n as int }, n as int),
            )));
            if k >= n {
                assert(block@.subrange(n as int, n as int) =~= Seq::<char>::empty());
                assert(seq![line@] + Seq::<Seq<char>>::empty() =~= seq![line@]);
            }
        }
        r.push(line);
        pos = if k < n {
            k + 1
        } else {
            n
        };
    }
    proof {
        assert(block@.subrange(n as int, n as int) =~= Seq::<char>::empty());
        assert(line_views(r@) + Seq::<Seq<char>>::empty() =~= line_views(r@));
    }
    r
}

pub fn ws_char(c: char) -> (b: bool)
    ensures
        b == is_ws_char(c),
{
    c == ' ' || c == '\t' || c == '\r' || c == '\n'
}

pub fn digit_char(c: char) -> (b: bool)
    ensures
        b == is_digit_char(c),
{
    '0' <= c && c <= '9'
}

/// Advances over whitespace, returning where the run ends.
pub fn scan_ws(s: &str, from: usize) -> (r: usize)
    requires
        from as int <= s@.len(),
    ensures
        r as int == ws_end(s@, from as int),
        from <= r <= s@.len(),
{
    let n = s.unicode_len();
    let mut i: usize = from;
    while i < n && ws_char(s.get_char(i))
        invariant
            from <= i <= n,
            n == s@.len(),
            ws_end(s@, from as int) == ws_end(s@, i as int),
        decreases n - i,
    {
        i = i + 1;
    }
    i
}

/// Advances over decimal digits, returning where the run ends.
pub fn scan_digits(s: &str, from: usize) -> (r: usize)
    requires
        from as int <= s@.len(),
    ensures
        r as int == digits_end(s@, from as int),
        from <= r <= s@.len(),
{
    let n = s.unicode_len();
    let mut i: usize = from;
    while i < n && digit_char(s.get_char(i))
        invariant
            from <= i <= n,
            n == s@.len(),
            digits_end(s@, from as int) == digits_end(s@, i as int),
        decreases n - i,
    {
        i = i + 1;
    }
    i
}

/// Advances to the next line terminator, returning its position or the end.
pub fn scan_to_nl(s: &str, from: usize) -> (r: usize)
    requires
        from as int <= s@.len(),
    ensures
        r as int == non_nl_end(s@, from as int),
        from <= r <= s@.len(),
{
    let n = s.unicode_len();
    let mut i: usize = from;
    while i < n && s.get_char(i) != '\n'
        invariant
            from <= i <= n,
            n == s@.len(),
            non_nl_end(s@, from as int) == non_nl_end(s@, i as int),
        decreases n - i,
    {
        i = i + 1;
    }
    i
}

proof fn lemma_trim_start_at(s: Seq<char>, i: int)
    requires
        0 <= i <= s.len(),
        forall|k: int| 0 <= k < i ==> is_ws_char(#[trigger] s[k]),
        i == s.len() || !is_ws_char(s[i]),
    ensures
        trim_start_spec(s) == s.subrange(i, s.len() as int),
    decreases i,
{
    if i == 0 {
        assert(s.subrange(0, s.len() as int) =~= s);
    } else {
        lemma_trim_start_at(s.drop_first(), i - 1);
        assert(s.drop_first().subrange(i - 1, s.drop_first().len() as int) =~= s.subrange(
            i,
            s.len() as int,
        ));
    }
}

proof fn lemma_trim_end_at(s: Seq<char>, i: int)
    requires
        0 <= i <= s.len(),
        forall|k: int| i <= k < s.len() ==> is_ws_char(#[trigger] s[k]),
        i == 0 || !is_ws_char(s[i - 1]),
    ensures
        trim_end_spec(s) == s.subrange(0, i),
    decreases s.len(),
{
    if i == s.len() {
        if s.len() > 0 && is_ws_char(s.last()) {
            assert(false);
        }
        assert(s.subrange(0, s.len() as int) =~= s);
    } else {
        lemma_trim_end_at(s.drop_last(), i);
        assert(s.drop_last().subrange(0, i) =~= s.subrange(0, i));
    }
}

/// `line` with whitespace removed from both ends.
pub fn trim_line(line: &str) -> (r: String)
    ensures
        r@ == trim_spec(line@),
{
    let n = line.unicode_len();
    let mut a: usize = 0;
    while a < n && ws_char(line.get_char(a))
        invariant
            n == line@.len(),
            0 <= a <= n,
            forall|k: int| 0 <= k < a ==> is_ws_char(#[trigger] line@[k]),
        decreases n - a,
    {
        a = a + 1;
    }
    let mut b: usize = n;
    while b > a && ws_char(line.get_char(b - 1))
        invariant
            n == line@.len(),
            a <= b <= n,
            forall|k: int| b <= k < n ==> is_ws_char(#[trigger] line@[k]),
        decreases b,
    {
        b = b - 1;
    }
    let mid = line.substring_char(a, b);
    proof {
        lemma_trim_start_at(line@, a as int);
        let t = line@.subrange(a as int, n as int);
        lemma_trim_end_at(t, b - a);
        assert(t.subrange(0, b - a) =~= line@.subrange(a as int, b as int));
    }
    String::from_str(mid)
}

pub proof fn lemma_dec_val_bounds(s: Seq<char>)
    requires
        all_digits(s),
    ensures
        0 <= dec_val(s),
        s.len() > 0 ==> dec_val(s) >= digit_val(s[0]),
    decreases s.len(),
{
    if s.len() > 0 {
        assert(all_digits(s.drop_last())) by {
            assert(forall|i: int|
                0 <= i < s.len() - 1 ==> #[trigger] s.drop_last()[i] == s[i]);
        }
        lemma_dec_val_bounds(s.drop_last());
        if s.len() > 1 {
            assert(s.drop_last()[0] == s[0]);
        }
    }
}

proof fn lemma_dec_val_prefix(s: Seq<char>, j: int)
    requires
        all_digits(s),
        0 <= j <= s.len(),
    ensures
        dec_val(s) >= dec_val(s.subrange(0, j)),
    decreases s.len(),
{
    lemma_dec_val_bounds(s);
    if j == s.len() {
        assert(s.subrange(0, j) =~= s);
    } else {
        assert(all_digits(s.drop_last())) by {
            assert(forall|i: int|
                0 <= i < s.len() - 1 ==> #[trigger] s.drop_last()[i] == s[i]);
        }
        lemma_dec_val_prefix(s.drop_last(), j);
        assert(s.drop_last().subrange(0, j) =~= s.subrange(0, j));
        assert(dec_val(s) >= dec_val(s.drop_last())) by {
            lemma_dec_val_bounds(s.drop_last());
        }
    }
}

/// Value of the digit run `s[from..to]`, or `None` where it exceeds `max`.
pub fn digit_run_val(s: &str, from: usize, to: usize, max: u64) -> (r: Option<u64>)
    requires
        from <= to <= s@.len(),
        all_digits(s@.subrange(from as int, to as int)),
        max <= 0xFFFF_FFFFu64,
    ensures
        ({
            let v = dec_val(s@.subrange(from as int, to as int));
            if v <= max as int {
                r == Some(v as u64)
            } else {
                r is None
            }
        }),
{
    let ghost run = s@.subrange(from as int, to as int);
    proof {
        lemma_dec_val_bounds(run);
    }
    let mut i: usize = from;
    let mut acc: u64 = 0;
    while i < to
        invariant
            from <= i <= to <= s@.len(),
            run == s@.subrange(from as int, to as int),
            all_digits(run),
            max <= 0xFFFF_FFFFu64,
            acc as int == dec_val(run.subrange(0, i - from)),
            acc <= max,
        decreases to - i,
    {
        let c = s.get_char(i);
        proof {
            assert(run[i - from] == s@[i as int]);
        }
        let d: u64 = (c as u32 - 48) as u64;
        let next: u64 = acc * 10 + d;
        proof {
            assert(run.subrange(0, i + 1 - from).drop_last() =~= run.subrange(0, i - from));
            assert(run.subrange(0, i + 1 - from).last() == run[i - from]);
        }
        if next > max {
            proof {
                lemma_dec_val_prefix(run, i + 1 - from);
            }
            return None;
        }
        acc = next;
        i = i + 1;
    }
    proof {
        assert(run.subrange(0, to - from) =~= run);
    }
    Some(acc)
}

/// Interprets `s` as unsigned decimal text with a value of at most `max`.
pub fn parse_uint(s: &str, max: u64) -> (r: Option<u64>)
    requires
        max <= 0xFFFF_FFFFu64,
    ensures
        match r {
            Some(v) => parse_uint_spec(s@, max as int) == Some(v as int),
            None => parse_uint_spec(s@, max as int) is None,
        },
{
    let n = s.unicode_len();
    let start: usize = if n > 0 && s.get_char(0) == '+' {
        1
    } else {
        0
    };
    let ghost body = if s@.len() > 0 && s@[0] == '+' {
        s@.drop_first()
    } else {
        s@
    };
    proof {
        assert(body =~= s@.subrange(start as int, n as int));
    }
    if start == n {
        return None;
    }
    let mut i: usize = start;
    while i < n
        invariant
            start <= i <= n,
            n == s@.len(),
            (if s@.len() > 0 && s@[0] == '+' {
                start == 1
            } else {
                start == 0
            }),
            body == s@.subrange(start as int, n as int),
            forall|k: int| start <= k < i ==> is_digit_char(#[trigger] s@[k]),
        decreases n - i,
    {
        if !digit_char(s.get_char(i)) {
            proof {
                assert(0 <= i - start < body.len());
                assert(body[i - start] == s@[i as int]);
                assert(!is_digit_char(body[i - start]));
                assert(!all_digits(body));
            }
            return None;
        }
        i = i + 1;
    }
    proof {
        assert(all_digits(body)) by {
            assert(forall|k: int|
                0 <= k < body.len() ==> #[trigger] body[k] == s@[k + start]);
        }
        lemma_dec_val_bounds(body);
    }
    digit_run_val(s, start, n, max)
}

proof fn lemma_dec_rep_digits(n: int)
    requires
        n >= 0,
    ensures
        all_digits(dec_rep(n)),
        dec_rep(n).len() > 0,
    decreases n,
{
    if n >= 10 {
        lemma_dec_rep_digits(n / 10);
    }
}

fn digit_str(d: u64) -> (r: &'static str)
    requires
        d < 10,
    ensures
        r@ == seq![digit_of(d as int)],
{
    proof {
        reveal_strlit("0");
        reveal_strlit("1");
        reveal_strlit("2");
        reveal_strlit("3");
        reveal_strlit("4");
        reveal_strlit("5");
        reveal_strlit("6");
        reveal_strlit("7");
        reveal_strlit("8");
        reveal_strlit("9");
    }
    match d {
        0 => {
            proof {
                assert("0"@ =~= seq![digit_of(0)]);
            }
            "0"
        },
        1 => {
            proof {
                assert("1"@ =~= seq![digit_of(1)]);
            }
            "1"
        },
        2 => {
            proof {
                assert("2"@ =~= seq![digit_of(2)]);
            }
            "2"
        },
        3 => {
            proof {
                assert("3"@ =~= seq![digit_of(3)]);
            }
            "3"
        },
        4 => {
            proof {
                assert("4"@ =~= seq![digit_of(4)]);
            }
            "4"
        },
        5 => {
            proof {
                assert("5"@ =~= seq![digit_of(5)]);
            }
            "5"
        },
        6 => {
            proof {
                assert("6"@ =~= seq![digit_of(6)]);
            }
            "6"
        },
        7 => {
            proof {
                assert("7"@ =~= seq![digit_of(7)]);
            }
            "7"
        },
        8 => {
            proof {
                assert("8"@ =~= seq![digit_of(8)]);
            }
            "8"
        },
        _ => {
            proof {
                assert("9"@ =~= seq![digit_of(9)]);
            }
            "9"
        },
    }
}

/// Decimal text of `n`.
pub fn format_u64(n: u64) -> (r: String)
    ensures
        r@ == dec_rep(n as int),
    decreases n,
{
    if n < 10 {
        let mut r = String::new();
        r.append(digit_str(n));
        proof {
            assert(r@ =~= dec_rep(n as int));
        }
        r
    } else {
        let mut r = format_u64(n / 10);
        r.append(digit_str(n % 10));
        proof {
            assert(r@ =~= dec_rep(n as int));
        }
        r
    }
}

} // verus!
