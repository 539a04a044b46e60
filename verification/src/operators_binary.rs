//! The builtin comparison operators.
//!
//! Each pops `a` then `b` and pushes the Forth truth value of
//! `b <relation> a`: `-1` for true, `0` for false.  As with the other
//! operators, a pop that succeeded before a failing pop stays popped.

use vstd::prelude::*;

use crate::forth::ErrView;
use crate::forth::Forth;
use crate::forth::ForthResult;
use crate::operators::op_post;
use crate::operators::OpOut;

verus! {

/// Pops `a` then `b` and pushes `-1` when `rel(a, b)` holds, else `0`.
pub open spec fn step_compare(
    s: Seq<i32>,
    rel: spec_fn(i32, i32) -> bool,
    m1: Seq<char>,
    m2: Seq<char>,
) -> OpOut {
    if s.len() == 0 {
        OpOut { stack: s, err: Some(ErrView::Underflow(m1)) }
    } else if s.len() == 1 {
        OpOut { stack: s.drop_last(), err: Some(ErrView::Underflow(m2)) }
    } else {
        OpOut {
            stack: s.drop_last().drop_last().push(
                if rel(s.last(), s[s.len() - 2]) {
                    -1 as i32
                } else {
                    0 as i32
                },
            ),
            err: None,
        }
    }
}

pub open spec fn step_equals(s: Seq<i32>) -> OpOut {
    step_compare(
        s,
        |a: i32, b: i32| a == b,
        "Empty stack: for first argument for ="@,
        "Empty stack: for second argument for ="@,
    )
}

pub open spec fn step_not_equals(s: Seq<i32>) -> OpOut {
    step_compare(
        s,
        |a: i32, b: i32| a != b,
        "Empty stack: for first argument for ="@,
        "Empty stack: for second argument for ="@,
    )
}

pub open spec fn step_greater_than(s: Seq<i32>) -> OpOut {
    step_compare(
        s,
        |a: i32, b: i32| b > a,
        "Empty stack: for first argument for >"@,
        "Empty stack: for second argument for >"@,
    )
}

pub open spec fn step_less_than(s: Seq<i32>) -> OpOut {
    step_compare(
        s,
        |a: i32, b: i32| b < a,
        "Empty stack: for first argument for <"@,
        "Empty stack: for second argument for <"@,
    )
}

pub open spec fn step_greater_than_equals(s: Seq<i32>) -> OpOut {
    step_compare(
        s,
        |a: i32, b: i32| b >= a,
        "Empty stack: for first argument for >="@,
        "Empty stack: for second argument for >="@,
    )
}

pub open spec fn step_less_than_equals(s: Seq<i32>) -> OpOut {
    step_compare(
        s,
        |a: i32, b: i32| b <= a,
        "Empty stack: for first argument for <="@,
        "Empty stack: for second argument for <="@,
    )
}

/// Pushes `-1` when the top two values are equal, else `0`.
pub fn equals(forth: &mut Forth) -> (r: ForthResult<()>)
    ensures
        op_post(old(forth)@, final(forth)@, r, step_equals(old(forth)@.stack)),
{
    let a = forth.pop(String::from_str("Empty stack: for first argument for ="))?;
    let b = forth.pop(String::from_str("Empty stack: for second argument for ="))?;
    forth.push(if a == b { -1 } else { 0 });
    Ok(())
}

/// Pushes `-1` when the top two values differ, else `0`.
pub fn not_equals(forth: &mut Forth) -> (r: ForthResult<()>)
    ensures
        op_post(old(forth)@, final(forth)@, r, step_not_equals(old(forth)@.stack)),
{
    let a = forth.pop(String::from_str("Empty stack: for first argument for ="))?;
    let b = forth.pop(String::from_str("Empty stack: for second argument for ="))?;
    forth.push(if a != b { -1 } else { 0 });
    Ok(())
}

/// Pushes `-1` when the second value exceeds the top, else `0`.
pub fn greater_than(forth: &mut Forth) -> (r: ForthResult<()>)
    ensures
        op_post(old(forth)@, final(forth)@, r, step_greater_than(old(forth)@.stack)),
{
    let a = forth.pop(String::from_str("Empty stack: for first argument for >"))?;
    let b = forth.pop(String::from_str("Empty stack: for second argument for >"))?;
    forth.push(if b > a { -1 } else { 0 });
    Ok(())
}

/// Pushes `-1` when the second value is below the top, else `0`.
pub fn less_than(forth: &mut Forth) -> (r: ForthResult<()>)
    ensures
        op_post(old(forth)@, final(forth)@, r, step_less_than(old(forth)@.stack)),
{
    let a = forth.pop(String::from_str("Empty stack: for first argument for <"))?;
    let b = forth.pop(String::from_str("Empty stack: for second argument for <"))?;
    forth.push(if b < a { -1 } else { 0 });
    Ok(())
}

/// Pushes `-1` when the second value is at least the top, else `0`.
pub fn greater_than_equals(forth: &mut Forth) -> (r: ForthResult<()>)
    ensures
        op_post(old(forth)@, final(forth)@, r, step_greater_than_equals(old(forth)@.stack)),
{
    let a = forth.pop(String::from_str("Empty stack: for first argument for >="))?;
    let b = forth.pop(String::from_str("Empty stack: for second argument for >="))?;
    forth.push(if b >= a { -1 } else { 0 });
    Ok(())
}

/// Pushes `-1` when the second value is at most the top, else `0`.
pub fn less_than_equals(forth: &mut Forth) -> (r: ForthResult<()>)
    ensures
        op_post(old(forth)@, final(forth)@, r, step_less_than_equals(old(forth)@.stack)),
{
    let a = forth.pop(String::from_str("Empty stack: for first argument for <="))?;
    let b = forth.pop(String::from_str("Empty stack: for second argument for <="))?;
    forth.push(if b <= a { -1 } else { 0 });
    Ok(())
}

} // verus!
