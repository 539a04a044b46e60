//! General laws of the evaluator, proved once for all inputs.
//!
//! Each law is stated over [`eval_tokens_spec`], the specification that
//! [`crate::interpreter::Interpreter::eval`] is proved to realize, so it
//! holds of every run of the executable interpreter as well.

use vstd::prelude::*;

use crate::forth::tbl_lookup;
use crate::forth::ErrView;
use crate::forth::ForthVw;
use crate::interpreter::builtin_step;
use crate::interpreter::eval_tokens_spec;
use crate::interpreter::is_builtin;
use crate::tokens::all_digits;
use crate::tokens::is_digit;
use crate::tokens::parse_i32_spec;

verus! {

/// A fresh session: empty stack, no words, no constants.
pub open spec fn initial_state() -> ForthVw {
    ForthVw {
        stack: Seq::<i32>::empty(),
        words: Seq::<(Seq<char>, Seq<Seq<char>>)>::empty(),
        constants: Seq::<(Seq<char>, i32)>::empty(),
    }
}

/// Is `t` claimed by a dispatch rule that precedes builtins and literals?
pub open spec fn special_or_builtin(t: Seq<char>) -> bool {
    ||| t == ":"@
    ||| t == "."@
    ||| t == "words"@
    ||| t == "constant"@
    ||| t == ".\""@
    ||| is_builtin(t)
}

/// A token that starts with neither a digit nor a sign is no integer
/// literal.
proof fn lemma_not_numeric_nonsign(t: Seq<char>)
    requires
        t.len() > 0,
        !is_digit(t[0]),
        t[0] != '-',
        t[0] != '+',
    ensures
        parse_i32_spec(t) is None,
{
    if all_digits(t) {
        assert(is_digit(t[0]));
    }
}

/// A lone sign is no integer literal.
proof fn lemma_not_numeric_sign_only(t: Seq<char>)
    requires
        t.len() == 1,
        t[0] == '-' || t[0] == '+',
    ensures
        parse_i32_spec(t) is None,
{
    assert(t.drop_first().len() == 0);
}

/// An integer literal is claimed by no earlier dispatch rule: it is not
/// blank, none of the five special openers, and no builtin name.
pub proof fn lemma_numeric_token_is_plain(t: Seq<char>)
    requires
        parse_i32_spec(t) is Some,
    ensures
        t.len() > 0,
        !special_or_builtin(t),
{
    reveal_strlit(":");
    reveal_strlit(".");
    reveal_strlit("words");
    reveal_strlit("constant");
    reveal_strlit(".\"");
    reveal_strlit("+");
    reveal_strlit("-");
    reveal_strlit("*");
    reveal_strlit("/");
    reveal_strlit("mod");
    reveal_strlit("negate");
    reveal_strlit("abs");
    reveal_strlit("max");
    reveal_strlit("min");
    reveal_strlit("dup");
    reveal_strlit("swap");
    reveal_strlit("rot");
    reveal_strlit("drop");
    reveal_strlit("nip");
    reveal_strlit("tuck");
    reveal_strlit("over");
    reveal_strlit("clearstack");
    reveal_strlit("invert");
    reveal_strlit("=");
    reveal_strlit("!=");
    reveal_strlit(">");
    reveal_strlit("<");
    reveal_strlit(">=");
    reveal_strlit("<=");
    if t == ":"@ {
        lemma_not_numeric_nonsign(t);
    }
    if t == "."@ {
        lemma_not_numeric_nonsign(t);
    }
    if t == "words"@ {
        lemma_not_numeric_nonsign(t);
    }
    if t == "constant"@ {
        lemma_not_numeric_nonsign(t);
    }
    if t == ".\""@ {
        lemma_not_numeric_nonsign(t);
    }
    if t == "+"@ {
        lemma_not_numeric_sign_only(t);
    }
    if t == "-"@ {
        lemma_not_numeric_sign_only(t);
    }
    if t == "*"@ {
        lemma_not_numeric_nonsign(t);
    }
    if t == "/"@ {
        lemma_not_numeric_nonsign(t);
    }
    if t == "mod"@ {
        lemma_not_numeric_nonsign(t);
    }
    if t == "negate"@ {
        lemma_not_numeric_nonsign(t);
    }
    if t == "abs"@ {
        lemma_not_numeric_nonsign(t);
    }
    if t == "max"@ {
        lemma_not_numeric_nonsign(t);
    }
    if t == "min"@ {
        lemma_not_numeric_nonsign(t);
    }
    if t == "dup"@ {
        lemma_not_numeric_nonsign(t);
    }
    if t == "swap"@ {
        lemma_not_numeric_nonsign(t);
    }
    if t == "rot"@ {
        lemma_not_numeric_nonsign(t);
    }
    if t == "drop"@ {
        lemma_not_numeric_nonsign(t);
    }
    if t == "nip"@ {
        lemma_not_numeric_nonsign(t);
    }
    if t == "tuck"@ {
        lemma_not_numeric_nonsign(t);
    }
    if t == "over"@ {
        lemma_not_numeric_nonsign(t);
    }
    if t == "clearstack"@ {
        lemma_not_numeric_nonsign(t);
    }
    if t == "invert"@ {
        lemma_not_numeric_nonsign(t);
    }
    if t == "="@ {
        lemma_not_numeric_nonsign(t);
    }
    if t == "!="@ {
        lemma_not_numeric_nonsign(t);
    }
    if t == ">"@ {
        lemma_not_numeric_nonsign(t);
    }
    if t == "<"@ {
        lemma_not_numeric_nonsign(t);
    }
    if t == ">="@ {
        lemma_not_numeric_nonsign(t);
    }
    if t == "<="@ {
        lemma_not_numeric_nonsign(t);
    }
}

/// Evaluating an integer literal that names no word and no constant
/// pushes its value and moves on.
pub proof fn lemma_numeric_step(st: ForthVw, toks: Seq<Seq<char>>, depth: nat, n: i32)
    requires
        toks.len() > 0,
        parse_i32_spec(toks.first()) == Some(n),
        tbl_lookup(st.words, toks.first()) is None,
        tbl_lookup(st.constants, toks.first()) is None,
    ensures
        eval_tokens_spec(st, toks, depth) == eval_tokens_spec(
            ForthVw { stack: st.stack.push(n), ..st },
            toks.drop_first(),
            depth,
        ),
{
    lemma_numeric_token_is_plain(toks.first());
}

/// Two character sequences differing in length or at index `i` differ.
proof fn lemma_seq_neq_at(a: Seq<char>, b: Seq<char>, i: int)
    requires
        a.len() != b.len() || (0 <= i < a.len() && i < b.len() && a[i] != b[i]),
    ensures
        a != b,
{
    if a == b {
        assert(a.len() == b.len());
        if 0 <= i < a.len() {
            assert(a[i] == b[i]);
        }
    }
}

/// A builtin operator name is claimed by none of the five special
/// openers, and the operators the laws below use dispatch to their step
/// specifications.
pub proof fn lemma_dispatch()
    ensures
        "+"@.len() == 1,
        "-"@.len() == 1,
        "swap"@.len() == 4,
        "rot"@.len() == 3,
        "dup"@.len() == 3,
        "drop"@.len() == 4,
        "+"@ != ":"@,
        "+"@ != "."@,
        "+"@ != "words"@,
        "+"@ != "constant"@,
        "+"@ != ".\""@,
        "-"@ != ":"@,
        "-"@ != "."@,
        "-"@ != "words"@,
        "-"@ != "constant"@,
        "-"@ != ".\""@,
        "swap"@ != ":"@,
        "swap"@ != "."@,
        "swap"@ != "words"@,
        "swap"@ != "constant"@,
        "swap"@ != ".\""@,
        "rot"@ != ":"@,
        "rot"@ != "."@,
        "rot"@ != "words"@,
        "rot"@ != "constant"@,
        "rot"@ != ".\""@,
        "dup"@ != ":"@,
        "dup"@ != "."@,
        "dup"@ != "words"@,
        "dup"@ != "constant"@,
        "dup"@ != ".\""@,
        "drop"@ != ":"@,
        "drop"@ != "."@,
        "drop"@ != "words"@,
        "drop"@ != "constant"@,
        "drop"@ != ".\""@,
        forall|s: Seq<i32>| (#[trigger] builtin_step("+"@, s)) == Some(
            crate::operators::step_add(s),
        ),
        forall|s: Seq<i32>| (#[trigger] builtin_step("-"@, s)) == Some(
            crate::operators::step_sub(s),
        ),
        forall|s: Seq<i32>| (#[trigger] builtin_step("swap"@, s)) == Some(
            crate::operators::step_swap(s),
        ),
        forall|s: Seq<i32>| (#[trigger] builtin_step("rot"@, s)) == Some(
            crate::operators::step_rot(s),
        ),
        forall|s: Seq<i32>| (#[trigger] builtin_step("dup"@, s)) == Some(
            crate::operators::step_dup(s),
        ),
        forall|s: Seq<i32>| (#[trigger] builtin_step("drop"@, s)) == Some(
            crate::operators::step_drop(s),
        ),
{
    reveal_strlit(":");
    reveal_strlit(".");
    reveal_strlit("words");
    reveal_strlit("constant");
    reveal_strlit(".\"");
    reveal_strlit("+");
    reveal_strlit("-");
    reveal_strlit("*");
    reveal_strlit("/");
    reveal_strlit("mod");
    reveal_strlit("negate");
    reveal_strlit("abs");
    reveal_strlit("max");
    reveal_strlit("min");
    reveal_strlit("dup");
    reveal_strlit("swap");
    reveal_strlit("rot");
    reveal_strlit("drop");
    reveal_strlit("nip");
    reveal_strlit("tuck");
    reveal_strlit("over");
    reveal_strlit("clearstack");
    reveal_strlit("invert");
    reveal_strlit("=");
    reveal_strlit("!=");
    reveal_strlit(">");
    reveal_strlit("<");
    reveal_strlit(">=");
    reveal_strlit("<=");
    lemma_seq_neq_at("+"@, ":"@, 0);
    lemma_seq_neq_at("+"@, "."@, 0);
    lemma_seq_neq_at("+"@, "words"@, 0);
    lemma_seq_neq_at("+"@, "constant"@, 0);
    lemma_seq_neq_at("+"@, ".\""@, 0);
    lemma_seq_neq_at("-"@, ":"@, 0);
    lemma_seq_neq_at("-"@, "."@, 0);
    lemma_seq_neq_at("-"@, "words"@, 0);
    lemma_seq_neq_at("-"@, "constant"@, 0);
    lemma_seq_neq_at("-"@, ".\""@, 0);
    lemma_seq_neq_at("swap"@, ":"@, 0);
    lemma_seq_neq_at("swap"@, "."@, 0);
    lemma_seq_neq_at("swap"@, "words"@, 0);
    lemma_seq_neq_at("swap"@, "constant"@, 0);
    lemma_seq_neq_at("swap"@, ".\""@, 0);
    lemma_seq_neq_at("rot"@, ":"@, 0);
    lemma_seq_neq_at("rot"@, "."@, 0);
    lemma_seq_neq_at("rot"@, "words"@, 0);
    lemma_seq_neq_at("rot"@, "constant"@, 0);
    lemma_seq_neq_at("rot"@, ".\""@, 0);
    lemma_seq_neq_at("dup"@, ":"@, 0);
    lemma_seq_neq_at("dup"@, "."@, 0);
    lemma_seq_neq_at("dup"@, "words"@, 0);
    lemma_seq_neq_at("dup"@, "constant"@, 0);
    lemma_seq_neq_at("dup"@, ".\""@, 0);
    lemma_seq_neq_at("drop"@, ":"@, 0);
    lemma_seq_neq_at("drop"@, "."@, 0);
    lemma_seq_neq_at("drop"@, "words"@, 0);
    lemma_seq_neq_at("drop"@, "constant"@, 0);
    lemma_seq_neq_at("drop"@, ".\""@, 0);
    lemma_seq_neq_at("-"@, "+"@, 0);
    lemma_seq_neq_at("swap"@, "+"@, 0);
    lemma_seq_neq_at("swap"@, "-"@, 0);
    lemma_seq_neq_at("swap"@, "*"@, 0);
    lemma_seq_neq_at("swap"@, "/"@, 0);
    lemma_seq_neq_at("swap"@, "mod"@, 0);
    lemma_seq_neq_at("swap"@, "negate"@, 0);
    lemma_seq_neq_at("swap"@, "abs"@, 0);
    lemma_seq_neq_at("swap"@, "max"@, 0);
    lemma_seq_neq_at("swap"@, "min"@, 0);
    lemma_seq_neq_at("swap"@, "dup"@, 0);
    lemma_seq_neq_at("rot"@, "+"@, 0);
    lemma_seq_neq_at("rot"@, "-"@, 0);
    lemma_seq_neq_at("rot"@, "*"@, 0);
    lemma_seq_neq_at("rot"@, "/"@, 0);
    lemma_seq_neq_at("rot"@, "mod"@, 0);
    lemma_seq_neq_at("rot"@, "negate"@, 0);
    lemma_seq_neq_at("rot"@, "abs"@, 0);
    lemma_seq_neq_at("rot"@, "max"@, 0);
    lemma_seq_neq_at("rot"@, "min"@, 0);
    lemma_seq_neq_at("rot"@, "dup"@, 0);
    lemma_seq_neq_at("rot"@, "swap"@, 0);
    lemma_seq_neq_at("dup"@, "+"@, 0);
    lemma_seq_neq_at("dup"@, "-"@, 0);
    lemma_seq_neq_at("dup"@, "*"@, 0);
    lemma_seq_neq_at("dup"@, "/"@, 0);
    lemma_seq_neq_at("dup"@, "mod"@, 0);
    lemma_seq_neq_at("dup"@, "negate"@, 0);
    lemma_seq_neq_at("dup"@, "abs"@, 0);
    lemma_seq_neq_at("dup"@, "max"@, 0);
    lemma_seq_neq_at("dup"@, "min"@, 0);
    lemma_seq_neq_at("drop"@, "+"@, 0);
    lemma_seq_neq_at("drop"@, "-"@, 0);
    lemma_seq_neq_at("drop"@, "*"@, 0);
    lemma_seq_neq_at("drop"@, "/"@, 0);
    lemma_seq_neq_at("drop"@, "mod"@, 0);
    lemma_seq_neq_at("drop"@, "negate"@, 0);
    lemma_seq_neq_at("drop"@, "abs"@, 0);
    lemma_seq_neq_at("drop"@, "max"@, 0);
    lemma_seq_neq_at("drop"@, "min"@, 0);
    lemma_seq_neq_at("drop"@, "dup"@, 0);
    lemma_seq_neq_at("drop"@, "swap"@, 0);
    lemma_seq_neq_at("drop"@, "rot"@, 0);
}

/// Law: for all integers `a` and `b`, evaluating the line `a b +` in a
/// fresh session succeeds and leaves the one-element stack holding
/// `a + b` (wrapping on overflow).
#[verifier::rlimit(60)]
pub proof fn law_add_line(ta: Seq<char>, tb: Seq<char>, a: i32, b: i32, depth: nat)
    requires
        parse_i32_spec(ta) == Some(a),
        parse_i32_spec(tb) == Some(b),
    ensures
        ({
            let res = eval_tokens_spec(initial_state(), seq![ta, tb, "+"@], depth);
            &&& res.st.stack == seq![a.wrapping_add(b)]
            &&& res.err is None
        }),
{
    reveal_with_fuel(eval_tokens_spec, 3);
    lemma_dispatch();
    let toks = seq![ta, tb, "+"@];
    lemma_numeric_step(initial_state(), toks, depth, a);
    let st1 = ForthVw { stack: initial_state().stack.push(a), ..initial_state() };
    assert(toks.drop_first() =~= seq![tb, "+"@]);
    lemma_numeric_step(st1, seq![tb, "+"@], depth, b);
    let st2 = ForthVw { stack: st1.stack.push(b), ..st1 };
    assert(seq![tb, "+"@].drop_first() =~= seq!["+"@]);
    lemma_numeric_token_is_plain(ta);
    lemma_numeric_token_is_plain(tb);
    assert(seq!["+"@].first() == "+"@);
    assert(builtin_step("+"@, st2.stack) == Some(crate::operators::step_add(st2.stack)));
    assert(st2.stack.len() == 2);
    let sum = st2.stack.last().wrapping_add(st2.stack[0]);
    assert(st2.stack.drop_last().drop_last().push(sum) =~= seq![sum]);
    assert(seq!["+"@].drop_first() =~= Seq::<Seq<char>>::empty());
    assert(sum == a.wrapping_add(b));
}

/// Law: for all integers `a` and `b`, evaluating the line `a b -` in a
/// fresh session succeeds and leaves the one-element stack holding
/// `a - b` (wrapping on overflow): the value popped second is the
/// minuend.
#[verifier::rlimit(60)]
pub proof fn law_sub_line(ta: Seq<char>, tb: Seq<char>, a: i32, b: i32, depth: nat)
    requires
        parse_i32_spec(ta) == Some(a),
        parse_i32_spec(tb) == Some(b),
    ensures
        ({
            let res = eval_tokens_spec(initial_state(), seq![ta, tb, "-"@], depth);
            &&& res.st.stack == seq![a.wrapping_sub(b)]
            &&& res.err is None
        }),
{
    reveal_with_fuel(eval_tokens_spec, 3);
    lemma_dispatch();
    let toks = seq![ta, tb, "-"@];
    lemma_numeric_step(initial_state(), toks, depth, a);
    let st1 = ForthVw { stack: initial_state().stack.push(a), ..initial_state() };
    assert(toks.drop_first() =~= seq![tb, "-"@]);
    lemma_numeric_step(st1, seq![tb, "-"@], depth, b);
    let st2 = ForthVw { stack: st1.stack.push(b), ..st1 };
    assert(seq![tb, "-"@].drop_first() =~= seq!["-"@]);
    lemma_numeric_token_is_plain(ta);
    lemma_numeric_token_is_plain(tb);
    assert(seq!["-"@].first() == "-"@);
    assert(builtin_step("-"@, st2.stack) == Some(crate::operators::step_sub(st2.stack)));
    assert(st2.stack.len() == 2);
    let d = st2.stack[0].wrapping_sub(st2.stack.last());
    assert(st2.stack.drop_last().drop_last().push(d) =~= seq![d]);
    assert(seq!["-"@].drop_first() =~= Seq::<Seq<char>>::empty());
    assert(d == a.wrapping_sub(b));
}

/// Law: for all integers `a` and `b`, evaluating the line `a b swap` in
/// a fresh session succeeds and leaves the stack `[b, a]`.
#[verifier::rlimit(60)]
pub proof fn law_swap_line(ta: Seq<char>, tb: Seq<char>, a: i32, b: i32, depth: nat)
    requires
        parse_i32_spec(ta) == Some(a),
        parse_i32_spec(tb) == Some(b),
    ensures
        ({
            let res = eval_tokens_spec(initial_state(), seq![ta, tb, "swap"@], depth);
            &&& res.st.stack == seq![b, a]
            &&& res.err is None
        }),
{
    reveal_with_fuel(eval_tokens_spec, 3);
    lemma_dispatch();
    let toks = seq![ta, tb, "swap"@];
    lemma_numeric_step(initial_state(), toks, depth, a);
    let st1 = ForthVw { stack: initial_state().stack.push(a), ..initial_state() };
    assert(toks.drop_first() =~= seq![tb, "swap"@]);
    lemma_numeric_step(st1, seq![tb, "swap"@], depth, b);
    let st2 = ForthVw { stack: st1.stack.push(b), ..st1 };
    assert(seq![tb, "swap"@].drop_first() =~= seq!["swap"@]);
    lemma_numeric_token_is_plain(ta);
    lemma_numeric_token_is_plain(tb);
    assert(seq!["swap"@].first() == "swap"@);
    assert(builtin_step("swap"@, st2.stack) == Some(crate::operators::step_swap(st2.stack)));
    assert(st2.stack.len() == 2);
    assert(st2.stack.drop_last().drop_last().push(st2.stack.last()).push(st2.stack[0]) =~= seq![
        b,
        a,
    ]);
    assert(seq!["swap"@].drop_first() =~= Seq::<Seq<char>>::empty());
}

/// Law: for all integers `a`, `b` and `c`, evaluating the line
/// `a b c rot` in a fresh session succeeds and leaves the stack
/// `[b, c, a]`: the third element comes to the top.
#[verifier::rlimit(60)]
pub proof fn law_rot_line(
    ta: Seq<char>,
    tb: Seq<char>,
    tc: Seq<char>,
    a: i32,
    b: i32,
    c: i32,
    depth: nat,
)
    requires
        parse_i32_spec(ta) == Some(a),
        parse_i32_spec(tb) == Some(b),
        parse_i32_spec(tc) == Some(c),
    ensures
        ({
            let res = eval_tokens_spec(initial_state(), seq![ta, tb, tc, "rot"@], depth);
            &&& res.st.stack == seq![b, c, a]
            &&& res.err is None
        }),
{
    reveal_with_fuel(eval_tokens_spec, 3);
    lemma_dispatch();
    let toks = seq![ta, tb, tc, "rot"@];
    lemma_numeric_step(initial_state(), toks, depth, a);
    let st1 = ForthVw { stack: initial_state().stack.push(a), ..initial_state() };
    assert(toks.drop_first() =~= seq![tb, tc, "rot"@]);
    lemma_numeric_step(st1, seq![tb, tc, "rot"@], depth, b);
    let st2 = ForthVw { stack: st1.stack.push(b), ..st1 };
    assert(seq![tb, tc, "rot"@].drop_first() =~= seq![tc, "rot"@]);
    lemma_numeric_step(st2, seq![tc, "rot"@], depth, c);
    let st3 = ForthVw { stack: st2.stack.push(c), ..st2 };
    assert(seq![tc, "rot"@].drop_first() =~= seq!["rot"@]);
    lemma_numeric_token_is_plain(ta);
    lemma_numeric_token_is_plain(tb);
    lemma_numeric_token_is_plain(tc);
    assert(seq!["rot"@].first() == "rot"@);
    assert(builtin_step("rot"@, st3.stack) == Some(crate::operators::step_rot(st3.stack)));
    assert(st3.stack.len() == 3);
    assert(st3.stack.drop_last().drop_last().drop_last().push(st3.stack[1]).push(
        st3.stack.last(),
    ).push(st3.stack[0]) =~= seq![b, c, a]);
    assert(seq!["rot"@].drop_first() =~= Seq::<Seq<char>>::empty());
}

/// Law: on any state whose stack is nonempty and whose word table binds
/// neither `dup` nor `drop`, evaluating `dup drop` changes nothing: the
/// stack, both tables and the output are exactly as before, with no
/// error.
pub proof fn law_dup_drop(st: ForthVw, depth: nat)
    requires
        st.stack.len() > 0,
        tbl_lookup(st.words, "dup"@) is None,
        tbl_lookup(st.words, "drop"@) is None,
    ensures
        ({
            let res = eval_tokens_spec(st, seq!["dup"@, "drop"@], depth);
            &&& res.st.stack == st.stack
            &&& res.st.words == st.words
            &&& res.st.constants == st.constants
            &&& res.out == Seq::<crate::interpreter::OutView>::empty()
            &&& res.err is None
        }),
{
    reveal_with_fuel(eval_tokens_spec, 3);
    lemma_dispatch();
    let toks = seq!["dup"@, "drop"@];
    assert(toks.first() == "dup"@);
    assert(builtin_step("dup"@, st.stack) == Some(crate::operators::step_dup(st.stack)));
    let st1 = ForthVw { stack: st.stack.push(st.stack.last()), ..st };
    assert(toks.drop_first() =~= seq!["drop"@]);
    assert(seq!["drop"@].first() == "drop"@);
    assert(builtin_step("drop"@, st1.stack) == Some(crate::operators::step_drop(st1.stack)));
    assert(st1.stack.len() > 0);
    assert(st1.stack.drop_last() =~= st.stack);
    assert(seq!["drop"@].drop_first() =~= Seq::<Seq<char>>::empty());
}

/// Law: for any integer `a`, evaluating the line `a +` in a fresh
/// session fails with a stack underflow for the second operand, and the
/// stack ends empty: the single pushed value was consumed by the first
/// successful pop and is not restored.
pub proof fn law_underflow_add(ta: Seq<char>, a: i32, depth: nat)
    requires
        parse_i32_spec(ta) == Some(a),
    ensures
        ({
            let res = eval_tokens_spec(initial_state(), seq![ta, "+"@], depth);
            &&& res.st.stack == Seq::<i32>::empty()
            &&& res.err == Some(
                ErrView::Underflow("Empty stack: for second argument for +"@),
            )
        }),
{
    reveal_with_fuel(eval_tokens_spec, 3);
    lemma_dispatch();
    let toks = seq![ta, "+"@];
    lemma_numeric_step(initial_state(), toks, depth, a);
    let st1 = ForthVw { stack: initial_state().stack.push(a), ..initial_state() };
    assert(toks.drop_first() =~= seq!["+"@]);
    lemma_numeric_token_is_plain(ta);
    assert(seq!["+"@].first() == "+"@);
    assert(builtin_step("+"@, st1.stack) == Some(crate::operators::step_add(st1.stack)));
    assert(st1.stack.len() == 1);
    assert(st1.stack.drop_last() =~= Seq::<i32>::empty());
}

/// Law: a user word shadows the builtin of the same name.  When the word
/// table binds `dup`, evaluating the single token `dup` runs the stored
/// body — its state, output and error are those of evaluating the body —
/// and never the builtin `dup`.
pub proof fn law_word_shadows_builtin(st: ForthVw, body: Seq<Seq<char>>, depth: nat)
    requires
        tbl_lookup(st.words, "dup"@) == Some(body),
        depth > 0,
    ensures
        ({
            let res = eval_tokens_spec(st, seq!["dup"@], depth);
            let inner = eval_tokens_spec(st, body, (depth - 1) as nat);
            &&& res.st == inner.st
            &&& res.out == inner.out
            &&& res.err == inner.err
        }),
{
    reveal_with_fuel(eval_tokens_spec, 3);
    lemma_dispatch();
    let toks = seq!["dup"@];
    assert(toks.first() == "dup"@);
    let inner = eval_tokens_spec(st, body, (depth - 1) as nat);
    if inner.err is None {
        assert(toks.drop_first() =~= Seq::<Seq<char>>::empty());
        assert(inner.out + Seq::<crate::interpreter::OutView>::empty() =~= inner.out);
    }
}

} // verus!
