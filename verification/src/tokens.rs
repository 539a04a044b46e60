//! Tokenization and numeric literals.
//!
//! A line of input is split on single-space boundaries; consecutive spaces
//! yield empty tokens, which the evaluator skips.  A token is an integer
//! literal when it consists of an optional sign followed by one or more
//! decimal digits and its value fits in an `i32`.

use vstd::prelude::*;

verus! {

/// Is `c` a decimal digit?
pub open spec fn is_digit(c: char) -> bool {
    48 <= c as int <= 57
}

/// The numeric value of the digit `c`.
pub open spec fn digit_val(c: char) -> int {
    c as int - 48
}

/// Does `s` consist of digits only?
pub open spec fn all_digits(s: Seq<char>) -> bool {
    forall|i: int| 0 <= i < s.len() ==> is_digit(#[trigger] s[i])
}

/// The value of the digit string `s` appended to an accumulated value.
pub open spec fn digits_val_from(s: Seq<char>, acc: int) -> int
    decreases s.len(),
{
    if s.len() == 0 {
        acc
    } else {
        digits_val_from(s.drop_first(), acc * 10 + digit_val(s.first()))
    }
}

/// The value of the digit string `s`.
pub open spec fn digits_val(s: Seq<char>) -> int {
    digits_val_from(s, 0)
}

/// The meaning of a token as a 32-bit integer literal: an optional sign,
/// one or more digits, and a value in range; anything else is `None`.
pub open spec fn parse_i32_spec(s: Seq<char>) -> Option<i32> {
    let neg = s.len() > 0 && s.first() == '-';
    let ds = if s.len() > 0 && (s.first() == '-' || s.first() == '+') {
        s.drop_first()
    } else {
        s
    };
    if ds.len() == 0 || !all_digits(ds) {
        None
    } else {
        let v = digits_val(ds);
        if neg {
            if v <= 0x8000_0000 {
                Some((-v) as i32)
            } else {
                None
            }
        } else {
            if v <= 0x7fff_ffff {
                Some(v as i32)
            } else {
                None
            }
        }
    }
}

/// Appending digits never lowers an accumulated nonnegative value.
proof fn lemma_digits_val_from_lb(s: Seq<char>, acc: int)
    requires
        all_digits(s),
        acc >= 0,
    ensures
        digits_val_from(s, acc) >= acc,
    decreases s.len(),
{
    if s.len() > 0 {
        assert(is_digit(s[0]));
        assert(forall|i: int|
            0 <= i < s.len() - 1 ==> #[trigger] s.drop_first()[i] == s[i + 1]);
        lemma_digits_val_from_lb(s.drop_first(), acc * 10 + digit_val(s.first()));
    }
}

/// Parses `s` as a 32-bit integer literal, exactly as
/// [`parse_i32_spec`] describes.
#[verifier::loop_isolation(false)]
pub fn parse_i32(s: &str) -> (r: Option<i32>)
    ensures
        r == parse_i32_spec(s@),
{
    let n = s.unicode_len();
    if n == 0 {
        return None;
    }
    let c0 = s.get_char(0);
    let neg = c0 == '-';
    let start: usize = if c0 == '-' || c0 == '+' {
        1
    } else {
        0
    };
    let ghost ds = if start == 1 {
        s@.drop_first()
    } else {
        s@
    };
    proof {
        assert(forall|i: int| 0 <= i < ds.len() ==> ds[i] == s@[i + start]);
    }
    if n == start {
        return None;
    }
    proof {
        assert(ds.skip(0) =~= ds);
    }
    let mut acc: u64 = 0;
    let mut i: usize = start;
    while i < n
        invariant
            start <= i <= n,
            n == s@.len(),
            start == 0 || start == 1,
            ds.len() == n - start,
            forall|j: int| 0 <= j < ds.len() ==> ds[j] == s@[j + start],
            all_digits(ds.take(i - start)),
            acc <= 0x8000_0000,
            digits_val_from(ds.skip(i - start), acc as int) == digits_val(ds),
        decreases n - i,
    {
        let c = s.get_char(i);
        let code = c as u32;
        proof {
            assert(c as int == code as int);
            assert(ds[i - start] == c);
        }
        if code < 48 || code > 57 {
            proof {
                assert(!is_digit(ds[i - start]));
            }
            return None;
        }
        proof {
            assert(ds.skip(i - start).first() == ds[i - start]);
            assert(ds.skip(i - start).drop_first() =~= ds.skip(i + 1 - start));
            assert(all_digits(ds.take(i + 1 - start)));
        }
        acc = acc * 10 + ((code - 48) as u64);
        i = i + 1;
        if acc > 0x8000_0000 {
            proof {
                if all_digits(ds) {
                    assert(ds.skip(i - start).skip(0) =~= ds.skip(i - start));
                    assert(all_digits(ds.skip(i - start))) by {
                        assert(forall|j: int|
                            0 <= j < ds.skip(i - start).len() ==> #[trigger] ds.skip(
                                i - start,
                            )[j] == ds[j + i - start]);
                    }
                    lemma_digits_val_from_lb(ds.skip(i - start), acc as int);
                }
            }
            return None;
        }
    }
    proof {
        assert(ds.take(ds.len() as int) =~= ds);
        assert(ds.skip(ds.len() as int) =~= Seq::<char>::empty());
        assert(digits_val(ds) == acc as int);
    }
    if neg {
        if acc == 0x8000_0000 {
            Some(i32::MIN)
        } else {
            Some(-(acc as i32))
        }
    } else {
        if acc <= 0x7fff_ffff {
            Some(acc as i32)
        } else {
            None
        }
    }
}

/// The tokens of a line: split on every single space character; splitting
/// the empty line yields one empty token.
pub open spec fn split_line(s: Seq<char>) -> Seq<Seq<char>>
    decreases s.len(),
{
    if s.len() == 0 {
        seq![Seq::<char>::empty()]
    } else if s.first() == ' ' {
        seq![Seq::<char>::empty()] + split_line(s.drop_first())
    } else {
        let r = split_line(s.drop_first());
        seq![seq![s.first()] + r.first()] + r.drop_first()
    }
}

/// Splitting yields at least one token.
pub proof fn lemma_split_line_len(s: Seq<char>)
    ensures
        split_line(s).len() >= 1,
    decreases s.len(),
{
    if s.len() > 0 {
        lemma_split_line_len(s.drop_first());
    }
}

/// If the first `k` characters hold no space and position `k` is a space
/// (or the end), the first token is exactly those `k` characters.
proof fn lemma_split_line_boundary(s: Seq<char>, k: int)
    requires
        0 <= k <= s.len(),
        forall|j: int| 0 <= j < k ==> s[j] != ' ',
        k == s.len() || s[k] == ' ',
    ensures
        k == s.len() ==> split_line(s) =~~= seq![s],
        k < s.len() ==> split_line(s) =~~= seq![s.take(k)] + split_line(s.skip(k + 1)),
    decreases k,
{
    if k == 0 {
        if s.len() == 0 {
            assert(split_line(s) =~~= seq![s]);
        } else {
            assert(s[0] == ' ');
            assert(s.drop_first() =~= s.skip(1));
            assert(s.take(0) =~= Seq::<char>::empty());
        }
    } else {
        assert(s[0] != ' ');
        assert(s.len() > 0);
        let t = s.drop_first();
        assert(forall|j: int| 0 <= j < k - 1 ==> #[trigger] t[j] == s[j + 1]);
        lemma_split_line_boundary(t, k - 1);
        lemma_split_line_len(t.skip(k));
        if k == s.len() {
            assert(split_line(t) =~~= seq![t]);
            assert(seq![s.first()] + t =~= s);
        } else {
            assert(split_line(t) =~~= seq![t.take(k - 1)] + split_line(t.skip(k)));
            assert(seq![s.first()] + t.take(k - 1) =~= s.take(k));
            assert(t.skip(k) =~= s.skip(k + 1));
            assert((seq![t.take(k - 1)] + split_line(t.skip(k))).first() == t.take(k - 1));
            assert((seq![t.take(k - 1)] + split_line(t.skip(k))).drop_first() =~= split_line(
                t.skip(k),
            ));
        }
    }
}

/// Splits a line into its tokens, exactly as [`split_line`] describes.
pub fn tokenize(line: &str) -> (r: Vec<String>)
    ensures
        r.deep_view() == split_line(line@),
{
    let n = line.unicode_len();
    let mut toks: Vec<String> = Vec::new();
    proof {
        assert(line@.skip(0) =~= line@);
        assert(toks.deep_view() =~~= Seq::<Seq<char>>::empty());
        assert(Seq::<Seq<char>>::empty() + split_line(line@) =~= split_line(line@));
    }
    let mut start: usize = 0;
    loop
        invariant_except_break
            split_line(line@) =~~= toks.deep_view() + split_line(line@.skip(start as int)),
        invariant
            start <= n,
            n == line@.len(),
        ensures
            toks.deep_view() == split_line(line@),
        decreases n - start,
    {
        let mut end: usize = start;
        while end < n && line.get_char(end) != ' '
            invariant
                start <= end <= n,
                n == line@.len(),
                forall|j: int| start <= j < end ==> line@[j] != ' ',
            decreases n - end,
        {
            end = end + 1;
        }
        let t = line.substring_char(start, end).to_owned();
        let ghost tds = toks.deep_view();
        toks.push(t);
        proof {
            assert(toks.deep_view() =~~= tds.push(t@));
            let rest = line@.skip(start as int);
            assert(forall|j: int|
                0 <= j < rest.len() ==> #[trigger] rest[j] == line@[j + start]);
            lemma_split_line_boundary(rest, end - start);
            assert(rest.take(end - start) =~= line@.subrange(start as int, end as int));
            if end < n {
                assert(rest.skip(end - start + 1) =~= line@.skip(end + 1));
            }
        }
        if end == n {
            break;
        }
        start = end + 1;
    }
    toks
}

} // verus!
