//! The builtin arithmetic, unary and stack-shuffling operators.
//!
//! Every operator pops its operands one at a time and reports a
//! [`ForthError::StackUnderflow`] naming the missing operand; pops that
//! succeeded before a failing pop stay popped.  Arithmetic wraps around
//! the `i32` range; `/` and `mod` truncate toward zero and report
//! [`ForthError::DivisionByZero`] on a zero divisor.
//!
//! Each operator's effect on the stack is given by a `step_*`
//! specification function returning an [`OpOut`], and the executable
//! operator is proved to realize it exactly.

use vstd::prelude::*;

use crate::forth::ErrView;
use crate::forth::Forth;
use crate::forth::ForthResult;
use crate::forth::ForthVw;

verus! {

/// The outcome of one builtin operator: the resulting stack and the
/// error, if any.
pub struct OpOut {
    pub stack: Seq<i32>,
    pub err: Option<ErrView>,
}

/// Magnitude of a mathematical integer.
pub open spec fn int_abs(a: int) -> int {
    if a < 0 {
        -a
    } else {
        a
    }
}

/// Division truncated toward zero, as the `/` operator computes it.
pub open spec fn tdiv(a: int, b: int) -> int
    recommends
        b != 0,
{
    if (a < 0) != (b < 0) {
        -(int_abs(a) / int_abs(b))
    } else {
        int_abs(a) / int_abs(b)
    }
}

/// Remainder with the sign of the dividend, as `mod` computes it.
pub open spec fn tmod(a: int, b: int) -> int
    recommends
        b != 0,
{
    if a < 0 {
        -(int_abs(a) % int_abs(b))
    } else {
        int_abs(a) % int_abs(b)
    }
}

/// Wraps a quotient into the `i32` range; only `i32::MIN / -1` needs it.
pub open spec fn wrap_i32(q: int) -> i32 {
    if q > 0x7fff_ffff {
        (q - 0x1_0000_0000) as i32
    } else {
        q as i32
    }
}

/// What holds after an operator ran: the tables are untouched, the stack
/// and the result are exactly what the step specification `o` says.
pub open spec fn op_post(pre: ForthVw, post: ForthVw, r: ForthResult<()>, o: OpOut) -> bool {
    &&& post.words == pre.words
    &&& post.constants == pre.constants
    &&& post.stack == o.stack
    &&& match o.err {
        None => r is Ok,
        Some(e) => r matches Err(x) && x@ == e,
    }
}

/// Pops `x` then `y` and pushes `f(x, y)`.
pub open spec fn step_binary(
    s: Seq<i32>,
    f: spec_fn(i32, i32) -> i32,
    m1: Seq<char>,
    m2: Seq<char>,
) -> OpOut {
    if s.len() == 0 {
        OpOut { stack: s, err: Some(ErrView::Underflow(m1)) }
    } else if s.len() == 1 {
        OpOut { stack: s.drop_last(), err: Some(ErrView::Underflow(m2)) }
    } else {
        OpOut {
            stack: s.drop_last().drop_last().push(f(s.last(), s[s.len() - 2])),
            err: None,
        }
    }
}

/// Pops `a` and pushes `f(a)`.
pub open spec fn step_unary(s: Seq<i32>, f: spec_fn(i32) -> i32, m: Seq<char>) -> OpOut {
    if s.len() == 0 {
        OpOut { stack: s, err: Some(ErrView::Underflow(m)) }
    } else {
        OpOut { stack: s.drop_last().push(f(s.last())), err: None }
    }
}

pub open spec fn step_add(s: Seq<i32>) -> OpOut {
    step_binary(
        s,
        |x: i32, y: i32| x.wrapping_add(y),
        "Empty stack: for first argument for +"@,
        "Empty stack: for second argument for +"@,
    )
}

pub open spec fn step_sub(s: Seq<i32>) -> OpOut {
    step_binary(
        s,
        |x: i32, y: i32| y.wrapping_sub(x),
        "Empty stack: for first argument for -"@,
        "Empty stack: for second argument for -"@,
    )
}

pub open spec fn step_mul(s: Seq<i32>) -> OpOut {
    step_binary(
        s,
        |x: i32, y: i32| x.wrapping_mul(y),
        "Empty stack: for first argument for *"@,
        "Empty stack: for second argument for *"@,
    )
}

pub open spec fn step_max(s: Seq<i32>) -> OpOut {
    step_binary(
        s,
        |x: i32, y: i32| if x > y { x } else { y },
        "Empty stack: for first argument for max"@,
        "Empty stack: for second argument for max"@,
    )
}

pub open spec fn step_min(s: Seq<i32>) -> OpOut {
    step_binary(
        s,
        |x: i32, y: i32| if x < y { x } else { y },
        "Empty stack: for first argument for min"@,
        "Empty stack: for second argument for min"@,
    )
}

/// Pops `x` then `y`; a zero `x` is a division error, otherwise pushes
/// the truncated quotient `y / x`, wrapped into range.
pub open spec fn step_div(s: Seq<i32>) -> OpOut {
    if s.len() == 0 {
        OpOut { stack: s, err: Some(ErrView::Underflow("Empty stack: for first argument for /"@)) }
    } else if s.len() == 1 {
        OpOut {
            stack: s.drop_last(),
            err: Some(ErrView::Underflow("Empty stack: for second argument for /"@)),
        }
    } else if s.last() == 0 {
        OpOut { stack: s.drop_last().drop_last(), err: Some(ErrView::DivByZero) }
    } else {
        OpOut {
            stack: s.drop_last().drop_last().push(
                wrap_i32(tdiv(s[s.len() - 2] as int, s.last() as int)),
            ),
            err: None,
        }
    }
}

/// Pops `x` then `y`; a zero `x` is a division error, otherwise pushes
/// the remainder `y mod x` with the sign of `y`.
pub open spec fn step_mod(s: Seq<i32>) -> OpOut {
    if s.len() == 0 {
        OpOut {
            stack: s,
            err: Some(ErrView::Underflow("Empty stack: for first argument for mod"@)),
        }
    } else if s.len() == 1 {
        OpOut {
            stack: s.drop_last(),
            err: Some(ErrView::Underflow("Empty stack: for second argument for mod"@)),
        }
    } else if s.last() == 0 {
        OpOut { stack: s.drop_last().drop_last(), err: Some(ErrView::DivByZero) }
    } else {
        OpOut {
            stack: s.drop_last().drop_last().push(
                wrap_i32(tmod(s[s.len() - 2] as int, s.last() as int)),
            ),
            err: None,
        }
    }
}

pub open spec fn step_negate(s: Seq<i32>) -> OpOut {
    step_unary(
        s,
        |a: i32| if a == i32::MIN { i32::MIN } else { (-(a as int)) as i32 },
        "Empty stack for negate"@,
    )
}

pub open spec fn step_abs(s: Seq<i32>) -> OpOut {
    step_unary(
        s,
        |a: i32| if a == i32::MIN { i32::MIN } else if a < 0 { (-(a as int)) as i32 } else { a },
        "Empty stack for abs"@,
    )
}

/// Pops `v` and pushes the flipped truth value: `-1` for zero, `0` for
/// anything else.
pub open spec fn step_invert(s: Seq<i32>) -> OpOut {
    step_unary(s, |a: i32| if a == 0 { -1 as i32 } else { 0 as i32 }, "Empty stack for invert"@)
}

pub open spec fn step_dup(s: Seq<i32>) -> OpOut {
    if s.len() == 0 {
        OpOut { stack: s, err: Some(ErrView::Underflow("Empty stack for dup"@)) }
    } else {
        OpOut { stack: s.push(s.last()), err: None }
    }
}

pub open spec fn step_swap(s: Seq<i32>) -> OpOut {
    if s.len() == 0 {
        OpOut {
            stack: s,
            err: Some(ErrView::Underflow("Empty stack for first element in swap"@)),
        }
    } else if s.len() == 1 {
        OpOut {
            stack: s.drop_last(),
            err: Some(ErrView::Underflow("Empty stack for second element in swap"@)),
        }
    } else {
        OpOut {
            stack: s.drop_last().drop_last().push(s.last()).push(s[s.len() - 2]),
            err: None,
        }
    }
}

/// Brings the third element to the top: `... c b a` becomes `... b a c`.
pub open spec fn step_rot(s: Seq<i32>) -> OpOut {
    if s.len() == 0 {
        OpOut { stack: s, err: Some(ErrView::Underflow("Empty stack for first element in rot"@)) }
    } else if s.len() == 1 {
        OpOut {
            stack: s.drop_last(),
            err: Some(ErrView::Underflow("Empty stack for second element in rot"@)),
        }
    } else if s.len() == 2 {
        OpOut {
            stack: s.drop_last().drop_last(),
            err: Some(ErrView::Underflow("Empty stack for third element in rot"@)),
        }
    } else {
        OpOut {
            stack: s.drop_last().drop_last().drop_last().push(s[s.len() - 2]).push(s.last()).push(
                s[s.len() - 3],
            ),
            err: None,
        }
    }
}

pub open spec fn step_drop(s: Seq<i32>) -> OpOut {
    if s.len() == 0 {
        OpOut { stack: s, err: Some(ErrView::Underflow("Empty stack for drop"@)) }
    } else {
        OpOut { stack: s.drop_last(), err: None }
    }
}

/// Removes the second element, keeping the top.
pub open spec fn step_nip(s: Seq<i32>) -> OpOut {
    if s.len() == 0 {
        OpOut { stack: s, err: Some(ErrView::Underflow("Empty stack for first element in nip"@)) }
    } else if s.len() == 1 {
        OpOut {
            stack: s.drop_last(),
            err: Some(ErrView::Underflow("Empty stack for second element in nip"@)),
        }
    } else {
        OpOut { stack: s.drop_last().drop_last().push(s.last()), err: None }
    }
}

/// Duplicates the top beneath the second element: `... b a` becomes
/// `... a b a`.
pub open spec fn step_tuck(s: Seq<i32>) -> OpOut {
    if s.len() == 0 {
        OpOut { stack: s, err: Some(ErrView::Underflow("Empty stack for first element in tuck"@)) }
    } else if s.len() == 1 {
        OpOut {
            stack: s.drop_last(),
            err: Some(ErrView::Underflow("Empty stack for second element in tuck"@)),
        }
    } else {
        OpOut {
            stack: s.drop_last().drop_last().push(s.last()).push(s[s.len() - 2]).push(s.last()),
            err: None,
        }
    }
}

/// Copies the second element onto the top.
pub open spec fn step_over(s: Seq<i32>) -> OpOut {
    if s.len() == 0 {
        OpOut { stack: s, err: Some(ErrView::Underflow("Empty stack for first element in over"@)) }
    } else if s.len() == 1 {
        OpOut {
            stack: s.drop_last(),
            err: Some(ErrView::Underflow("Empty stack for second element in over"@)),
        }
    } else {
        OpOut { stack: s.push(s[s.len() - 2]), err: None }
    }
}

pub open spec fn step_clearstack(s: Seq<i32>) -> OpOut {
    OpOut { stack: Seq::<i32>::empty(), err: None }
}

/// Pushes the sum of the top two values, wrapping on overflow.
pub fn add(forth: &mut Forth) -> (r: ForthResult<()>)
    ensures
        op_post(old(forth)@, final(forth)@, r, step_add(old(forth)@.stack)),
{
    let x = forth.pop(String::from_str("Empty stack: for first argument for +"))?;
    let y = forth.pop(String::from_str("Empty stack: for second argument for +"))?;
    forth.push(x.wrapping_add(y));
    Ok(())
}

/// Pushes the difference `y - x` of the top two values (`x` popped
/// first), wrapping on overflow.
pub fn sub(forth: &mut Forth) -> (r: ForthResult<()>)
    ensures
        op_post(old(forth)@, final(forth)@, r, step_sub(old(forth)@.stack)),
{
    let x = forth.pop(String::from_str("Empty stack: for first argument for -"))?;
    let y = forth.pop(String::from_str("Empty stack: for second argument for -"))?;
    forth.push(y.wrapping_sub(x));
    Ok(())
}

/// Pushes the product of the top two values, wrapping on overflow.
pub fn mul(forth: &mut Forth) -> (r: ForthResult<()>)
    ensures
        op_post(old(forth)@, final(forth)@, r, step_mul(old(forth)@.stack)),
{
    let x = forth.pop(String::from_str("Empty stack: for first argument for *"))?;
    let y = forth.pop(String::from_str("Empty stack: for second argument for *"))?;
    forth.push(x.wrapping_mul(y));
    Ok(())
}

/// Pushes the greater of the top two values.
pub fn max(forth: &mut Forth) -> (r: ForthResult<()>)
    ensures
        op_post(old(forth)@, final(forth)@, r, step_max(old(forth)@.stack)),
{
    let x = forth.pop(String::from_str("Empty stack: for first argument for max"))?;
    let y = forth.pop(String::from_str("Empty stack: for second argument for max"))?;
    forth.push(if x > y { x } else { y });
    Ok(())
}

/// Pushes the lesser of the top two values.
pub fn min(forth: &mut Forth) -> (r: ForthResult<()>)
    ensures
        op_post(old(forth)@, final(forth)@, r, step_min(old(forth)@.stack)),
{
    let x = forth.pop(String::from_str("Empty stack: for first argument for min"))?;
    let y = forth.pop(String::from_str("Empty stack: for second argument for min"))?;
    forth.push(if x < y { x } else { y });
    Ok(())
}

/// The magnitude of `v` as an unsigned value.
fn magnitude(v: i32) -> (r: u32)
    ensures
        r as int == int_abs(v as int),
{
    if v == i32::MIN {
        0x8000_0000u32
    } else if v < 0 {
        (-v) as u32
    } else {
        v as u32
    }
}

/// Pushes the truncated quotient `y / x` of the top two values (`x`
/// popped first); `i32::MIN / -1` wraps to `i32::MIN`.
pub fn div(forth: &mut Forth) -> (r: ForthResult<()>)
    ensures
        op_post(old(forth)@, final(forth)@, r, step_div(old(forth)@.stack)),
{
    let x = forth.pop(String::from_str("Empty stack: for first argument for /"))?;
    let y = forth.pop(String::from_str("Empty stack: for second argument for /"))?;
    if x == 0 {
        return Err(crate::forth::ForthError::DivisionByZero);
    }
    let xa = magnitude(x);
    let ya = magnitude(y);
    let q = ya / xa;
    let neg = (x < 0) != (y < 0);
    let res: i32 = if neg {
        if q >= 0x8000_0000u32 {
            i32::MIN
        } else {
            -(q as i32)
        }
    } else {
        if q >= 0x8000_0000u32 {
            i32::MIN
        } else {
            q as i32
        }
    };
    proof {
        assert(q as int == int_abs(y as int) / int_abs(x as int));
        assert((q as int) <= int_abs(y as int)) by {
            vstd::arithmetic::div_mod::lemma_div_is_ordered_by_denominator(
                int_abs(y as int),
                1,
                int_abs(x as int),
            );
        }
        assert(res == wrap_i32(tdiv(y as int, x as int)));
    }
    forth.push(res);
    Ok(())
}

/// Pushes the remainder `y mod x` of the top two values (`x` popped
/// first), with the sign of `y`.
pub fn modulus(forth: &mut Forth) -> (r: ForthResult<()>)
    ensures
        op_post(old(forth)@, final(forth)@, r, step_mod(old(forth)@.stack)),
{
    let x = forth.pop(String::from_str("Empty stack: for first argument for mod"))?;
    let y = forth.pop(String::from_str("Empty stack: for second argument for mod"))?;
    if x == 0 {
        return Err(crate::forth::ForthError::DivisionByZero);
    }
    let xa = magnitude(x);
    let ya = magnitude(y);
    let m = ya % xa;
    let res: i32 = if y < 0 {
        -(m as i32)
    } else {
        m as i32
    };
    proof {
        assert(m as int == int_abs(y as int) % int_abs(x as int));
        assert((m as int) < int_abs(x as int)) by {
            vstd::arithmetic::div_mod::lemma_mod_bound(int_abs(y as int), int_abs(x as int));
        }
        assert(res == wrap_i32(tmod(y as int, x as int)));
    }
    forth.push(res);
    Ok(())
}

/// Replaces the top value by its arithmetic negation; `i32::MIN` wraps
/// to itself.
pub fn negate(forth: &mut Forth) -> (r: ForthResult<()>)
    ensures
        op_post(old(forth)@, final(forth)@, r, step_negate(old(forth)@.stack)),
{
    let a = forth.pop(String::from_str("Empty stack for negate"))?;
    if a == i32::MIN {
        forth.push(a);
    } else {
        forth.push(-a);
    }
    Ok(())
}

/// Replaces the top value by its absolute value; `i32::MIN` wraps to
/// itself.
pub fn abs(forth: &mut Forth) -> (r: ForthResult<()>)
    ensures
        op_post(old(forth)@, final(forth)@, r, step_abs(old(forth)@.stack)),
{
    let a = forth.pop(String::from_str("Empty stack for abs"))?;
    if a == i32::MIN {
        forth.push(a);
    } else if a < 0 {
        forth.push(-a);
    } else {
        forth.push(a);
    }
    Ok(())
}

/// Replaces the top value by its flipped truth value: zero becomes `-1`,
/// anything else becomes `0`.
pub fn invert(forth: &mut Forth) -> (r: ForthResult<()>)
    ensures
        op_post(old(forth)@, final(forth)@, r, step_invert(old(forth)@.stack)),
{
    let a = forth.pop(String::from_str("Empty stack for invert"))?;
    if a == 0 {
        forth.push(-1);
    } else {
        forth.push(0);
    }
    Ok(())
}

/// Duplicates the top value.
pub fn dup(forth: &mut Forth) -> (r: ForthResult<()>)
    ensures
        op_post(old(forth)@, final(forth)@, r, step_dup(old(forth)@.stack)),
{
    let a = forth.pop(String::from_str("Empty stack for dup"))?;
    forth.push(a);
    forth.push(a);
    proof {
        assert(old(forth)@.stack.drop_last().push(old(forth)@.stack.last()) =~= old(
            forth,
        )@.stack);
    }
    Ok(())
}

/// Exchanges the top two values.
pub fn swap(forth: &mut Forth) -> (r: ForthResult<()>)
    ensures
        op_post(old(forth)@, final(forth)@, r, step_swap(old(forth)@.stack)),
{
    let a = forth.pop(String::from_str("Empty stack for first element in swap"))?;
    let b = forth.pop(String::from_str("Empty stack for second element in swap"))?;
    forth.push(a);
    forth.push(b);
    Ok(())
}

/// Brings the third element to the top, shifting the top two down.
pub fn rot(forth: &mut Forth) -> (r: ForthResult<()>)
    ensures
        op_post(old(forth)@, final(forth)@, r, step_rot(old(forth)@.stack)),
{
    let a = forth.pop(String::from_str("Empty stack for first element in rot"))?;
    let b = forth.pop(String::from_str("Empty stack for second element in rot"))?;
    let c = forth.pop(String::from_str("Empty stack for third element in rot"))?;
    forth.push(b);
    forth.push(a);
    forth.push(c);
    Ok(())
}

/// Discards the top value.
pub fn drop(forth: &mut Forth) -> (r: ForthResult<()>)
    ensures
        op_post(old(forth)@, final(forth)@, r, step_drop(old(forth)@.stack)),
{
    forth.pop(String::from_str("Empty stack for drop"))?;
    Ok(())
}

/// Removes the second element, keeping the top.
pub fn nip(forth: &mut Forth) -> (r: ForthResult<()>)
    ensures
        op_post(old(forth)@, final(forth)@, r, step_nip(old(forth)@.stack)),
{
    let a = forth.pop(String::from_str("Empty stack for first element in nip"))?;
    forth.pop(String::from_str("Empty stack for second element in nip"))?;
    forth.push(a);
    Ok(())
}

/// Duplicates the top value beneath the second element.
pub fn tuck(forth: &mut Forth) -> (r: ForthResult<()>)
    ensures
        op_post(old(forth)@, final(forth)@, r, step_tuck(old(forth)@.stack)),
{
    let a = forth.pop(String::from_str("Empty stack for first element in tuck"))?;
    let b = forth.pop(String::from_str("Empty stack for second element in tuck"))?;
    forth.push(a);
    forth.push(b);
    forth.push(a);
    Ok(())
}

/// Copies the second element onto the top.
pub fn over(forth: &mut Forth) -> (r: ForthResult<()>)
    ensures
        op_post(old(forth)@, final(forth)@, r, step_over(old(forth)@.stack)),
{
    let a = forth.pop(String::from_str("Empty stack for first element in over"))?;
    let b = forth.pop(String::from_str("Empty stack for second element in over"))?;
    forth.push(b);
    forth.push(a);
    forth.push(b);
    proof {
        let s = old(forth)@.stack;
        if s.len() >= 2 {
            assert(s.drop_last().drop_last().push(s[s.len() - 2]).push(s.last()) =~= s);
        }
    }
    Ok(())
}

/// Empties the stack.
pub fn clearstack(forth: &mut Forth) -> (r: ForthResult<()>)
    ensures
        op_post(old(forth)@, final(forth)@, r, step_clearstack(old(forth)@.stack)),
{
    forth.clear();
    Ok(())
}

} // verus!
