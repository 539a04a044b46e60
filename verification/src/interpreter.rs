//! The evaluator: the token-dispatch loop that classifies each token and
//! executes it against the stack and the symbol tables.
//!
//! For each non-blank token, in strict priority order: the word-definition
//! opener `:`, the stack print `.`, the directory request `words`, the
//! constant-definition opener `constant`, the string-literal opener `."`,
//! a user-defined word (expanded recursively against the same state), a
//! builtin operator, a defined constant, and finally a numeric literal.
//! Earlier matches shadow later ones, so a user word named `dup` overrides
//! the builtin.  Evaluation halts at the first error; mutations that
//! happened before the failing token are kept.
//!
//! The whole loop is mirrored by the specification function
//! [`eval_tokens_spec`], and every executable piece is proved against it.
//! Output is collected as [`OutEvent`] values rather than printed, so a
//! caller owns the channel.

use vstd::prelude::*;

use crate::forth::tbl_lookup;
use crate::forth::tbl_names;
use crate::forth::tbl_update;
use crate::forth::ErrView;
use crate::forth::Forth;
use crate::forth::ForthError;
use crate::forth::ForthResult;
use crate::forth::ForthVw;
use crate::forth::ForthWord;
use crate::operators::OpOut;
use crate::tokens::parse_i32;
use crate::tokens::parse_i32_spec;
use crate::tokens::split_line;
use crate::tokens::tokenize;

verus! {

/// How deep word expansion may nest before the evaluator reports
/// [`ForthError::RecursionLimitExceeded`]; a word defined in terms of
/// itself fails instead of exhausting the machine.
pub const MAX_EXPANSION_DEPTH: u32 = 64;

/// One piece of output the evaluator emitted, in order.
pub enum OutEvent {
    /// The stack contents, bottom to top, printed by `.`.
    StackDump(Vec<i32>),
    /// The directory printed by `words`: builtin names, then the
    /// user-defined word names in definition order.
    Listing(Vec<String>),
    /// The text of a `."` string literal.
    Text(String),
    /// A word definition was registered, by name.
    Defined(String),
}

/// The specification-level image of an [`OutEvent`].
pub enum OutView {
    Dump(Seq<i32>),
    Names(Seq<Seq<char>>),
    Line(Seq<char>),
    Defined(Seq<char>),
}

impl View for OutEvent {
    type V = OutView;

    open spec fn view(&self) -> OutView {
        match self {
            OutEvent::StackDump(s) => OutView::Dump(s@),
            OutEvent::Listing(ns) => OutView::Names(ns.deep_view()),
            OutEvent::Text(t) => OutView::Line(t@),
            OutEvent::Defined(n) => OutView::Defined(n@),
        }
    }
}

impl DeepView for OutEvent {
    type V = OutView;

    open spec fn deep_view(&self) -> OutView {
        self.view()
    }
}

/// What evaluating a token sequence yields: the final state, the output
/// events in order, and the error that stopped evaluation, if any.
pub struct EvalView {
    pub st: ForthVw,
    pub out: Seq<OutView>,
    pub err: Option<ErrView>,
}

/// The builtin operator names, in directory order.
pub open spec fn builtin_names() -> Seq<Seq<char>> {
    seq![
        "+"@,
        "-"@,
        "*"@,
        "/"@,
        "mod"@,
        "negate"@,
        "abs"@,
        "max"@,
        "min"@,
        "dup"@,
        "swap"@,
        "rot"@,
        "drop"@,
        "nip"@,
        "tuck"@,
        "over"@,
        "clearstack"@,
        "invert"@,
        "="@,
        "!="@,
        ">"@,
        "<"@,
        ">="@,
        "<="@,
    ]
}

/// Dispatches a builtin operator by name: `Some` of its effect on the
/// stack, or `None` when the name is no builtin.
pub open spec fn builtin_step(t: Seq<char>, s: Seq<i32>) -> Option<OpOut> {
    if t == "+"@ {
        Some(crate::operators::step_add(s))
    } else if t == "-"@ {
        Some(crate::operators::step_sub(s))
    } else if t == "*"@ {
        Some(crate::operators::step_mul(s))
    } else if t == "/"@ {
        Some(crate::operators::step_div(s))
    } else if t == "mod"@ {
        Some(crate::operators::step_mod(s))
    } else if t == "negate"@ {
        Some(crate::operators::step_negate(s))
    } else if t == "abs"@ {
        Some(crate::operators::step_abs(s))
    } else if t == "max"@ {
        Some(crate::operators::step_max(s))
    } else if t == "min"@ {
        Some(crate::operators::step_min(s))
    } else if t == "dup"@ {
        Some(crate::operators::step_dup(s))
    } else if t == "swap"@ {
        Some(crate::operators::step_swap(s))
    } else if t == "rot"@ {
        Some(crate::operators::step_rot(s))
    } else if t == "drop"@ {
        Some(crate::operators::step_drop(s))
    } else if t == "nip"@ {
        Some(crate::operators::step_nip(s))
    } else if t == "tuck"@ {
        Some(crate::operators::step_tuck(s))
    } else if t == "over"@ {
        Some(crate::operators::step_over(s))
    } else if t == "clearstack"@ {
        Some(crate::operators::step_clearstack(s))
    } else if t == "invert"@ {
        Some(crate::operators::step_invert(s))
    } else if t == "="@ {
        Some(crate::operators_binary::step_equals(s))
    } else if t == "!="@ {
        Some(crate::operators_binary::step_not_equals(s))
    } else if t == ">"@ {
        Some(crate::operators_binary::step_greater_than(s))
    } else if t == "<"@ {
        Some(crate::operators_binary::step_less_than(s))
    } else if t == ">="@ {
        Some(crate::operators_binary::step_greater_than_equals(s))
    } else if t == "<="@ {
        Some(crate::operators_binary::step_less_than_equals(s))
    } else {
        None
    }
}

/// Is `t` the name of a builtin operator?
pub open spec fn is_builtin(t: Seq<char>) -> bool {
    builtin_step(t, Seq::<i32>::empty()) is Some
}

/// Collects a definition body: the tokens before the first `;`, and how
/// many tokens were consumed including the closer.  `None` when no closer
/// follows.
pub open spec fn def_scan(toks: Seq<Seq<char>>) -> Option<(Seq<Seq<char>>, int)>
    decreases toks.len(),
{
    if toks.len() == 0 {
        None
    } else if toks.first() == ";"@ {
        Some((Seq::<Seq<char>>::empty(), 1))
    } else {
        match def_scan(toks.drop_first()) {
            None => None,
            Some((body, c)) => Some((seq![toks.first()] + body, c + 1)),
        }
    }
}

/// A successful scan consumes between one token and the whole input, and
/// the body is one token shorter than what was consumed.
pub proof fn lemma_def_scan_bounds(toks: Seq<Seq<char>>)
    ensures
        def_scan(toks) matches Some(p) ==> 1 <= p.1 <= toks.len() && p.0.len() == p.1 - 1,
    decreases toks.len(),
{
    if toks.len() > 0 && toks.first() != ";"@ {
        lemma_def_scan_bounds(toks.drop_first());
    }
}

/// Collects a `."` string literal: the text and how many tokens were
/// consumed including the closer.  Middle tokens are joined by single
/// spaces and keep a trailing space; a token ending in `"` closes the
/// literal with its quote stripped.  `None` when no closer follows.
pub open spec fn str_scan(toks: Seq<Seq<char>>) -> Option<(Seq<char>, int)>
    decreases toks.len(),
{
    if toks.len() == 0 {
        None
    } else if toks.first() == "\""@ {
        Some((Seq::<char>::empty(), 1))
    } else if toks.first().len() > 0 && toks.first().last() == '"' {
        Some((toks.first().drop_last(), 1))
    } else {
        match str_scan(toks.drop_first()) {
            None => None,
            Some((txt, c)) => Some((toks.first() + seq![' '] + txt, c + 1)),
        }
    }
}

/// A successful scan consumes between one token and the whole input.
pub proof fn lemma_str_scan_bounds(toks: Seq<Seq<char>>)
    ensures
        str_scan(toks) matches Some(p) ==> 1 <= p.1 <= toks.len(),
    decreases toks.len(),
{
    if toks.len() > 0 && toks.first() != "\""@ && !(toks.first().len() > 0 && toks.first().last()
        == '"') {
        lemma_str_scan_bounds(toks.drop_first());
    }
}

/// Clamps a token advance into `[0, n]` so that sequence arithmetic stays
/// in range; a successful scan is already there.
pub open spec fn clamp_adv(c: int, n: int) -> int {
    if c < 0 {
        0
    } else if c > n {
        n
    } else {
        c
    }
}

/// The meaning of evaluating `toks` against the state `st` with `depth`
/// levels of word expansion left: the final state, the output events, and
/// the first error, exactly in the priority order of the dispatch loop.
pub open spec fn eval_tokens_spec(st: ForthVw, toks: Seq<Seq<char>>, depth: nat) -> EvalView
    decreases depth, toks.len(),
{
    if toks.len() == 0 {
        EvalView { st, out: Seq::<OutView>::empty(), err: None }
    } else {
        let t = toks.first();
        let rest = toks.drop_first();
        if t.len() == 0 {
            eval_tokens_spec(st, rest, depth)
        } else if t == ":"@ {
            if rest.len() == 0 {
                EvalView { st, out: Seq::<OutView>::empty(), err: Some(ErrView::UnterminatedDef) }
            } else {
                let name = rest.first();
                let after_name = rest.drop_first();
                if parse_i32_spec(name) is Some {
                    EvalView {
                        st,
                        out: Seq::<OutView>::empty(),
                        err: Some(ErrView::BadWordName(name)),
                    }
                } else {
                    match def_scan(after_name) {
                        None => EvalView {
                            st,
                            out: Seq::<OutView>::empty(),
                            err: Some(ErrView::UnterminatedDef),
                        },
                        Some((body, c)) => {
                            let cc = clamp_adv(c, after_name.len() as int);
                            let st2 = ForthVw {
                                words: tbl_update(st.words, name, body),
                                ..st
                            };
                            let cont = eval_tokens_spec(st2, after_name.skip(cc), depth);
                            EvalView {
                                st: cont.st,
                                out: seq![OutView::Defined(name)] + cont.out,
                                err: cont.err,
                            }
                        },
                    }
                }
            }
        } else if t == "."@ {
            let cont = eval_tokens_spec(st, rest, depth);
            EvalView { st: cont.st, out: seq![OutView::Dump(st.stack)] + cont.out, err: cont.err }
        } else if t == "words"@ {
            let cont = eval_tokens_spec(st, rest, depth);
            EvalView {
                st: cont.st,
                out: seq![OutView::Names(builtin_names() + tbl_names(st.words))] + cont.out,
                err: cont.err,
            }
        } else if t == "constant"@ {
            if rest.len() == 0 {
                EvalView { st, out: Seq::<OutView>::empty(), err: Some(ErrView::UnterminatedDef) }
            } else {
                let name = rest.first();
                if st.stack.len() == 0 {
                    EvalView {
                        st,
                        out: Seq::<OutView>::empty(),
                        err: Some(
                            ErrView::Underflow("Stack empty to set constant "@ + name),
                        ),
                    }
                } else {
                    let st2 = ForthVw {
                        stack: st.stack.drop_last(),
                        constants: tbl_update(st.constants, name, st.stack.last()),
                        ..st
                    };
                    eval_tokens_spec(st2, rest.drop_first(), depth)
                }
            }
        } else if t == ".\""@ {
            match str_scan(rest) {
                None => EvalView {
                    st,
                    out: Seq::<OutView>::empty(),
                    err: Some(ErrView::UnterminatedStr),
                },
                Some((txt, c)) => {
                    let cc = clamp_adv(c, rest.len() as int);
                    let cont = eval_tokens_spec(st, rest.skip(cc), depth);
                    EvalView {
                        st: cont.st,
                        out: seq![OutView::Line(txt)] + cont.out,
                        err: cont.err,
                    }
                },
            }
        } else {
            match tbl_lookup(st.words, t) {
                Some(body) => {
                    if depth == 0 {
                        EvalView {
                            st,
                            out: Seq::<OutView>::empty(),
                            err: Some(ErrView::TooDeep),
                        }
                    } else {
                        let inner = eval_tokens_spec(st, body, (depth - 1) as nat);
                        if inner.err is Some {
                            inner
                        } else {
                            let cont = eval_tokens_spec(inner.st, rest, depth);
                            EvalView { st: cont.st, out: inner.out + cont.out, err: cont.err }
                        }
                    }
                },
                None => match builtin_step(t, st.stack) {
                    Some(o) => {
                        let st2 = ForthVw { stack: o.stack, ..st };
                        match o.err {
                            Some(e) => EvalView {
                                st: st2,
                                out: Seq::<OutView>::empty(),
                                err: Some(e),
                            },
                            None => eval_tokens_spec(st2, rest, depth),
                        }
                    },
                    None => match tbl_lookup(st.constants, t) {
                        Some(v) => eval_tokens_spec(
                            ForthVw { stack: st.stack.push(v), ..st },
                            rest,
                            depth,
                        ),
                        None => match parse_i32_spec(t) {
                            Some(n) => eval_tokens_spec(
                                ForthVw { stack: st.stack.push(n), ..st },
                                rest,
                                depth,
                            ),
                            None => EvalView {
                                st,
                                out: Seq::<OutView>::empty(),
                                err: Some(ErrView::Unknown(t)),
                            },
                        },
                    },
                },
            }
        }
    }
}

/// What one call of [`Interpreter::eval`] produced: the output events in
/// order, and the error that stopped the line, if any.
pub struct EvalOutcome {
    pub outputs: Vec<OutEvent>,
    pub error: Option<ForthError>,
}

/// Should the driver loop exit?  True exactly for the literal `exit`.
pub fn exit_ruforth(cmd: &str) -> (b: bool)
    ensures
        b == (cmd@ == "exit"@),
{
    let c = cmd.to_owned();
    let l = String::from_str("exit");
    c == l
}

/// Does `t` equal the literal `lit`?
fn tok_is(t: &String, lit: &str) -> (b: bool)
    ensures
        b == (t@ == lit@),
{
    let l = lit.to_owned();
    *t == l
}

/// May `name` be used as a word name?  Integer-shaped names are rejected
/// to keep literal pushes unambiguous.
pub fn valid_word_name(name: &str) -> (b: bool)
    ensures
        b == (parse_i32_spec(name@) is None),
{
    parse_i32(name).is_none()
}

/// The interpreter: the directory of builtin operator names, in the order
/// the `words` command lists them.
pub struct Interpreter {
    pub commands: Vec<String>,
}

impl Interpreter {
    /// The directory holds exactly the builtin names.
    pub open spec fn wf(&self) -> bool {
        self.commands.deep_view() == builtin_names()
    }

    /// A fresh interpreter with its builtin directory filled in.
    pub fn new() -> (r: Interpreter)
        ensures
            r.wf(),
    {
        let mut intr = Interpreter { commands: Vec::new() };
        intr.init();
        intr
    }

    /// Registers the builtin operator names.
    fn init(&mut self)
        requires
            old(self).commands@.len() == 0,
        ensures
            final(self).wf(),
    {
        self.commands.push(String::from_str("+"));
        self.commands.push(String::from_str("-"));
        self.commands.push(String::from_str("*"));
        self.commands.push(String::from_str("/"));
        self.commands.push(String::from_str("mod"));
        self.commands.push(String::from_str("negate"));
        self.commands.push(String::from_str("abs"));
        self.commands.push(String::from_str("max"));
        self.commands.push(String::from_str("min"));
        self.commands.push(String::from_str("dup"));
        self.commands.push(String::from_str("swap"));
        self.commands.push(String::from_str("rot"));
        self.commands.push(String::from_str("drop"));
        self.commands.push(String::from_str("nip"));
        self.commands.push(String::from_str("tuck"));
        self.commands.push(String::from_str("over"));
        self.commands.push(String::from_str("clearstack"));
        self.commands.push(String::from_str("invert"));
        self.commands.push(String::from_str("="));
        self.commands.push(String::from_str("!="));
        self.commands.push(String::from_str(">"));
        self.commands.push(String::from_str("<"));
        self.commands.push(String::from_str(">="));
        self.commands.push(String::from_str("<="));
        proof {
            assert(self.commands.deep_view() =~~= builtin_names());
        }
    }

    /// Runs the builtin operator named by `op`, or reports that there is
    /// none.  The dispatch agrees exactly with [`builtin_step`].
    fn eval_commands(&self, op: &String, forth: &mut Forth) -> (r: Option<ForthResult<()>>)
        ensures
            match builtin_step(op@, old(forth)@.stack) {
                Some(o) => r matches Some(res) && crate::operators::op_post(
                    old(forth)@,
                    final(forth)@,
                    res,
                    o,
                ),
                None => r is None && final(forth)@ == old(forth)@,
            },
    {
        if tok_is(op, "+") {
            Some(crate::operators::add(forth))
        } else if tok_is(op, "-") {
            Some(crate::operators::sub(forth))
        } else if tok_is(op, "*") {
            Some(crate::operators::mul(forth))
        } else if tok_is(op, "/") {
            Some(crate::operators::div(forth))
        } else if tok_is(op, "mod") {
            Some(crate::operators::modulus(forth))
        } else if tok_is(op, "negate") {
            Some(crate::operators::negate(forth))
        } else if tok_is(op, "abs") {
            Some(crate::operators::abs(forth))
        } else if tok_is(op, "max") {
            Some(crate::operators::max(forth))
        } else if tok_is(op, "min") {
            Some(crate::operators::min(forth))
        } else if tok_is(op, "dup") {
            Some(crate::operators::dup(forth))
        } else if tok_is(op, "swap") {
            Some(crate::operators::swap(forth))
        } else if tok_is(op, "rot") {
            Some(crate::operators::rot(forth))
        } else if tok_is(op, "drop") {
            Some(crate::operators::drop(forth))
        } else if tok_is(op, "nip") {
            Some(crate::operators::nip(forth))
        } else if tok_is(op, "tuck") {
            Some(crate::operators::tuck(forth))
        } else if tok_is(op, "over") {
            Some(crate::operators::over(forth))
        } else if tok_is(op, "clearstack") {
            Some(crate::operators::clearstack(forth))
        } else if tok_is(op, "invert") {
            Some(crate::operators::invert(forth))
        } else if tok_is(op, "=") {
            Some(crate::operators_binary::equals(forth))
        } else if tok_is(op, "!=") {
            Some(crate::operators_binary::not_equals(forth))
        } else if tok_is(op, ">") {
            Some(crate::operators_binary::greater_than(forth))
        } else if tok_is(op, "<") {
            Some(crate::operators_binary::less_than(forth))
        } else if tok_is(op, ">=") {
            Some(crate::operators_binary::greater_than_equals(forth))
        } else if tok_is(op, "<=") {
            Some(crate::operators_binary::less_than_equals(forth))
        } else {
            None
        }
    }

    /// Collects a word definition opened by `:`: the token at `i` is the
    /// new word's name, the following tokens up to the first `;` are its
    /// body.  Returns the word and the index just past the closer.
    #[verifier::loop_isolation(false)]
    fn check_new_word(&self, toks: &Vec<String>, i: usize) -> (r: Result<
        (ForthWord, usize),
        ForthError,
    >)
        requires
            i <= toks.len(),
        ensures
            ({
                let rest = toks.deep_view().skip(i as int);
                &&& (rest.len() == 0 ==> (r matches Err(e) && e@ == ErrView::UnterminatedDef))
                &&& (rest.len() > 0 && parse_i32_spec(rest.first()) is Some ==> (r matches Err(e)
                    && e@ == ErrView::BadWordName(rest.first())))
                &&& (rest.len() > 0 && parse_i32_spec(rest.first()) is None ==> match def_scan(
                    rest.drop_first(),
                ) {
                    None => r matches Err(e) && e@ == ErrView::UnterminatedDef,
                    Some((body, c)) => {
                        &&& r matches Ok(p)
                        &&& p.0.0@ == rest.first()
                        &&& p.0.1.deep_view() == body
                        &&& p.1 == i + 1 + c
                    },
                })
            }),
    {
        let ghost dv = toks.deep_view();
        if i == toks.len() {
            return Err(ForthError::UnterminatedDefinition);
        }
        proof {
            assert(dv.skip(i as int).first() == dv[i as int]);
            assert(dv.skip(i as int).drop_first() =~= dv.skip(i as int + 1));
        }
        let name = toks[i].clone();
        if !valid_word_name(name.as_str()) {
            return Err(ForthError::InvalidWordName(name));
        }
        let mut body: Vec<String> = Vec::new();
        let mut j: usize = i + 1;
        proof {
            assert(body.deep_view() =~= Seq::<Seq<char>>::empty());
        }
        while j < toks.len()
            invariant
                i + 1 <= j <= toks.len(),
                def_scan(dv.skip(i as int + 1)) == match def_scan(dv.skip(j as int)) {
                    None => None::<(Seq<Seq<char>>, int)>,
                    Some((b, c)) => Some((body.deep_view() + b, j - i - 1 + c)),
                },
            decreases toks.len() - j,
        {
            proof {
                assert(dv.skip(j as int).first() == dv[j as int]);
                assert(dv.skip(j as int).drop_first() =~= dv.skip(j as int + 1));
            }
            if tok_is(&toks[j], ";") {
                proof {
                    assert(body.deep_view() + Seq::<Seq<char>>::empty() =~= body.deep_view());
                }
                return Ok(((name, body), j + 1));
            }
            let ghost bprev = body.deep_view();
            body.push(toks[j].clone());
            proof {
                assert(body.deep_view() =~~= bprev.push(dv[j as int]));
                match def_scan(dv.skip(j as int + 1)) {
                    None => {},
                    Some((b2, c2)) => {
                        assert(bprev.push(dv[j as int]) + b2 =~= bprev + (seq![dv[j as int]]
                            + b2));
                    },
                }
            }
            j = j + 1;
        }
        proof {
            assert(dv.skip(toks.len() as int) =~= Seq::<Seq<char>>::empty());
        }
        Err(ForthError::UnterminatedDefinition)
    }

    /// Collects a `."` string literal starting at token `i`.  Returns the
    /// text and the index just past the closing quote.
    #[verifier::loop_isolation(false)]
    fn check_string(&self, toks: &Vec<String>, i: usize) -> (r: Result<(String, usize), ForthError>)
        requires
            i <= toks.len(),
        ensures
            ({
                let rest = toks.deep_view().skip(i as int);
                match str_scan(rest) {
                    None => r matches Err(e) && e@ == ErrView::UnterminatedStr,
                    Some((txt, c)) => r matches Ok(p) && p.0@ == txt && p.1 == i + c,
                }
            }),
    {
        let ghost dv = toks.deep_view();
        let mut acc = String::new();
        let mut j: usize = i;
        while j < toks.len()
            invariant
                i <= j <= toks.len(),
                str_scan(dv.skip(i as int)) == match str_scan(dv.skip(j as int)) {
                    None => None::<(Seq<char>, int)>,
                    Some((t, c)) => Some((acc@ + t, j - i + c)),
                },
            decreases toks.len() - j,
        {
            proof {
                assert(dv.skip(j as int).first() == dv[j as int]);
                assert(dv.skip(j as int).drop_first() =~= dv.skip(j as int + 1));
            }
            let tok = &toks[j];
            if tok_is(tok, "\"") {
                proof {
                    assert(acc@ + Seq::<char>::empty() =~= acc@);
                }
                return Ok((acc, j + 1));
            }
            let n = tok.as_str().unicode_len();
            if n > 0 && tok.as_str().get_char(n - 1) == '"' {
                let stripped = tok.as_str().substring_char(0, n - 1);
                acc.append(stripped);
                proof {
                    assert(tok@.subrange(0, n - 1) =~= tok@.drop_last());
                }
                return Ok((acc, j + 1));
            }
            acc.append(tok.as_str());
            acc.append(" ");
            proof {
                reveal_strlit(" ");
                assert(" "@ =~= seq![' ']);
            }
            j = j + 1;
        }
        proof {
            assert(dv.skip(toks.len() as int) =~= Seq::<Seq<char>>::empty());
        }
        Err(ForthError::UnterminatedString)
    }

    /// Binds the token at `i` as a constant name to the popped stack top.
    /// Returns the index just past the name.
    fn create_constant(&self, forth: &mut Forth, toks: &Vec<String>, i: usize) -> (r: Result<
        usize,
        ForthError,
    >)
        requires
            i <= toks.len(),
        ensures
            ({
                let rest = toks.deep_view().skip(i as int);
                if rest.len() == 0 {
                    &&& r matches Err(e) && e@ == ErrView::UnterminatedDef
                    &&& final(forth)@ == old(forth)@
                } else if old(forth)@.stack.len() == 0 {
                    &&& r matches Err(e) && e@ == ErrView::Underflow(
                        "Stack empty to set constant "@ + rest.first(),
                    )
                    &&& final(forth)@ == old(forth)@
                } else {
                    &&& r matches Ok(n) && n == i + 1
                    &&& final(forth)@.stack == old(forth)@.stack.drop_last()
                    &&& final(forth)@.constants == tbl_update(
                        old(forth)@.constants,
                        rest.first(),
                        old(forth)@.stack.last(),
                    )
                    &&& final(forth)@.words == old(forth)@.words
                }
            }),
    {
        let ghost dv = toks.deep_view();
        if i == toks.len() {
            return Err(ForthError::UnterminatedDefinition);
        }
        proof {
            assert(dv.skip(i as int).first() == dv[i as int]);
        }
        let name = &toks[i];
        let mut msg = String::from_str("Stack empty to set constant ");
        msg.append(name.as_str());
        let a = forth.pop(msg)?;
        forth.add_constant(name.as_str(), a);
        Ok(i + 1)
    }

    /// Pushes the value of the constant named by `name`, or reports that
    /// there is none.
    fn eval_constants(&self, name: &String, forth: &mut Forth) -> (r: Option<ForthResult<()>>)
        ensures
            match tbl_lookup(old(forth)@.constants, name@) {
                Some(v) => {
                    &&& r matches Some(res) && res is Ok
                    &&& final(forth)@.stack == old(forth)@.stack.push(v)
                    &&& final(forth)@.words == old(forth)@.words
                    &&& final(forth)@.constants == old(forth)@.constants
                },
                None => r is None && final(forth)@ == old(forth)@,
            },
    {
        match forth.get_constant(name.as_str()) {
            Some(a) => {
                forth.push(a);
                Some(Ok(()))
            },
            None => None,
        }
    }

    /// Evaluates the tokens of `toks` from index `i` on, with `depth`
    /// levels of word expansion left, appending output to `out`.
    /// Realizes [`eval_tokens_spec`] exactly.
    #[verifier::rlimit(100)]
    fn eval_at(
        &self,
        forth: &mut Forth,
        toks: &Vec<String>,
        i: usize,
        depth: u32,
        out: &mut Vec<OutEvent>,
    ) -> (r: Option<ForthError>)
        requires
            self.wf(),
            i <= toks.len(),
        ensures
            ({
                let res = eval_tokens_spec(
                    old(forth)@,
                    toks.deep_view().skip(i as int),
                    depth as nat,
                );
                &&& final(forth)@ == res.st
                &&& final(out).deep_view() == old(out).deep_view() + res.out
                &&& r.deep_view() == res.err
            }),
        decreases depth, toks.len() - i,
    {
        let ghost full = toks.deep_view().skip(i as int);
        let ghost out0 = out.deep_view();
        if i == toks.len() {
            proof {
                assert(full.len() == 0);
                assert(out0 + Seq::<OutView>::empty() =~= out0);
            }
            return None;
        }
        proof {
            assert(full.first() == toks.deep_view()[i as int]);
            assert(full.drop_first() =~= toks.deep_view().skip(i as int + 1));
        }
        let t = &toks[i];
        if t.as_str().unicode_len() == 0 {
            return self.eval_at(forth, toks, i + 1, depth, out);
        }
        if tok_is(t, ":") {
            proof {
                if i + 1 < toks.len() {
                    assert(full.drop_first().first() == toks.deep_view()[i as int + 1]);
                    assert(full.drop_first().drop_first() =~= toks.deep_view().skip(
                        i as int + 2,
                    ));
                }
                lemma_def_scan_bounds(toks.deep_view().skip(i as int + 2));
            }
            match self.check_new_word(toks, i + 1) {
                Ok((word, next)) => {
                    let nm = word.0.clone();
                    let ghost c = next - i - 2;
                    proof {
                        let after_name = full.drop_first().drop_first();
                        assert(clamp_adv(c, after_name.len() as int) == c);
                        assert(after_name.skip(c) =~= toks.deep_view().skip(next as int));
                    }
                    let _prev = forth.add_word(nm.as_str(), word);
                    out.push(OutEvent::Defined(nm));
                    let ghost out1 = out.deep_view();
                    proof {
                        assert(out1 =~~= out0.push(OutView::Defined(full.drop_first().first())));
                    }
                    let e = self.eval_at(forth, toks, next, depth, out);
                    proof {
                        let cont = eval_tokens_spec(
                            forth@,
                            toks.deep_view().skip(next as int),
                            depth as nat,
                        );
                        assert(out1 + cont.out =~= out0 + (seq![
                            OutView::Defined(full.drop_first().first()),
                        ] + cont.out));
                    }
                    return e;
                },
                Err(e) => {
                    proof {
                        assert(out0 + Seq::<OutView>::empty() =~= out0);
                    }
                    return Some(e);
                },
            }
        }
        if tok_is(t, ".") {
            let snap = forth.get_stack();
            out.push(OutEvent::StackDump(snap));
            let ghost out1 = out.deep_view();
            proof {
                assert(out1 =~~= out0.push(OutView::Dump(forth@.stack)));
            }
            let e = self.eval_at(forth, toks, i + 1, depth, out);
            proof {
                let cont = eval_tokens_spec(
                    old(forth)@,
                    toks.deep_view().skip(i as int + 1),
                    depth as nat,
                );
                assert(out1 + cont.out =~= out0 + (seq![OutView::Dump(old(forth)@.stack)]
                    + cont.out));
            }
            return e;
        }
        if tok_is(t, "words") {
            let mut names: Vec<String> = Vec::new();
            let mut j: usize = 0;
            proof {
                assert(names.deep_view() =~= builtin_names().take(0));
            }
            while j < self.commands.len()
                invariant
                    self.wf(),
                    j <= self.commands.len(),
                    names.deep_view() == builtin_names().take(j as int),
                decreases self.commands.len() - j,
            {
                let ghost nprev = names.deep_view();
                names.push(self.commands[j].clone());
                proof {
                    assert(names.deep_view() =~~= nprev.push(builtin_names()[j as int]));
                    assert(builtin_names().take(j as int + 1) =~= builtin_names().take(
                        j as int,
                    ).push(builtin_names()[j as int]));
                }
                j = j + 1;
            }
            proof {
                assert(builtin_names().take(24) =~= builtin_names());
            }
            let ws = forth.get_words();
            let ghost wnames = tbl_names(forth@.words);
            let mut k: usize = 0;
            proof {
                assert(names.deep_view() =~= builtin_names() + wnames.take(0));
            }
            while k < ws.len()
                invariant
                    k <= ws.len(),
                    ws.deep_view() == forth@.words,
                    wnames == tbl_names(forth@.words),
                    names.deep_view() == builtin_names() + wnames.take(k as int),
                decreases ws.len() - k,
            {
                let ghost nprev = names.deep_view();
                names.push(ws[k].0.clone());
                proof {
                    assert(names.deep_view() =~~= nprev.push(wnames[k as int]));
                    assert(builtin_names() + wnames.take(k as int + 1) =~= (builtin_names()
                        + wnames.take(k as int)).push(wnames[k as int]));
                }
                k = k + 1;
            }
            proof {
                assert(wnames.take(ws.len() as int) =~= wnames);
            }
            out.push(OutEvent::Listing(names));
            let ghost out1 = out.deep_view();
            proof {
                assert(out1 =~~= out0.push(OutView::Names(builtin_names() + wnames)));
            }
            let e = self.eval_at(forth, toks, i + 1, depth, out);
            proof {
                let cont = eval_tokens_spec(
                    old(forth)@,
                    toks.deep_view().skip(i as int + 1),
                    depth as nat,
                );
                assert(out1 + cont.out =~= out0 + (seq![
                    OutView::Names(builtin_names() + tbl_names(old(forth)@.words)),
                ] + cont.out));
            }
            return e;
        }
        if tok_is(t, "constant") {
            proof {
                if i + 1 < toks.len() {
                    assert(full.drop_first().first() == toks.deep_view()[i as int + 1]);
                }
            }
            match self.create_constant(forth, toks, i + 1) {
                Ok(next) => {
                    proof {
                        assert(toks.deep_view().skip(next as int) =~= full.drop_first()
                            .drop_first());
                    }
                    return self.eval_at(forth, toks, next, depth, out);
                },
                Err(e) => {
                    proof {
                        assert(out0 + Seq::<OutView>::empty() =~= out0);
                    }
                    return Some(e);
                },
            }
        }
        if tok_is(t, ".\"") {
            proof {
                lemma_str_scan_bounds(toks.deep_view().skip(i as int + 1));
            }
            match self.check_string(toks, i + 1) {
                Ok((text, next)) => {
                    let ghost c = next - i - 1;
                    proof {
                        assert(clamp_adv(c, full.drop_first().len() as int) == c);
                        assert(full.drop_first().skip(c) =~= toks.deep_view().skip(next as int));
                    }
                    out.push(OutEvent::Text(text));
                    let ghost out1 = out.deep_view();
                    proof {
                        assert(out1 =~~= out0.push(OutView::Line(text@)));
                    }
                    let e = self.eval_at(forth, toks, next, depth, out);
                    proof {
                        let cont = eval_tokens_spec(
                            forth@,
                            toks.deep_view().skip(next as int),
                            depth as nat,
                        );
                        assert(out1 + cont.out =~= out0 + (seq![OutView::Line(text@)]
                            + cont.out));
                    }
                    return e;
                },
                Err(e) => {
                    proof {
                        assert(out0 + Seq::<OutView>::empty() =~= out0);
                    }
                    return Some(e);
                },
            }
        }
        let looked = forth.get_word(t.as_str());
        match looked {
            Some(word) => {
                if depth == 0 {
                    proof {
                        assert(out0 + Seq::<OutView>::empty() =~= out0);
                    }
                    return Some(ForthError::RecursionLimitExceeded);
                }
                let body = word.1;
                proof {
                    assert(body.deep_view().skip(0) =~= body.deep_view());
                }
                let e = self.eval_at(forth, &body, 0, depth - 1, out);
                let ghost out1 = out.deep_view();
                match e {
                    Some(err) => {
                        return Some(err);
                    },
                    None => {
                        let e2 = self.eval_at(forth, toks, i + 1, depth, out);
                        proof {
                            let inner = eval_tokens_spec(
                                old(forth)@,
                                body.deep_view(),
                                (depth - 1) as nat,
                            );
                            let cont = eval_tokens_spec(
                                forth@,
                                toks.deep_view().skip(i as int + 1),
                                depth as nat,
                            );
                            assert(out1 + cont.out =~= out0 + (inner.out + cont.out));
                        }
                        return e2;
                    },
                }
            },
            None => {},
        }
        match self.eval_commands(t, forth) {
            Some(res) => {
                match res {
                    Ok(()) => {
                        return self.eval_at(forth, toks, i + 1, depth, out);
                    },
                    Err(e) => {
                        proof {
                            assert(out0 + Seq::<OutView>::empty() =~= out0);
                        }
                        return Some(e);
                    },
                }
            },
            None => {},
        }
        match self.eval_constants(t, forth) {
            Some(res) => {
                match res {
                    Ok(()) => {
                        return self.eval_at(forth, toks, i + 1, depth, out);
                    },
                    Err(e) => {
                        proof {
                            assert(out0 + Seq::<OutView>::empty() =~= out0);
                        }
                        return Some(e);
                    },
                }
            },
            None => {},
        }
        match parse_i32(t.as_str()) {
            Some(num) => {
                forth.push(num);
                self.eval_at(forth, toks, i + 1, depth, out)
            },
            None => {
                proof {
                    assert(out0 + Seq::<OutView>::empty() =~= out0);
                }
                Some(ForthError::UnknownToken(t.clone()))
            },
        }
    }

    /// Evaluates a whole token sequence against `forth`, appending output
    /// to `out` and returning the error that stopped it, if any.
    pub fn eval_tokens(
        &self,
        forth: &mut Forth,
        toks: &Vec<String>,
        out: &mut Vec<OutEvent>,
    ) -> (r: Option<ForthError>)
        requires
            self.wf(),
        ensures
            ({
                let res = eval_tokens_spec(
                    old(forth)@,
                    toks.deep_view(),
                    MAX_EXPANSION_DEPTH as nat,
                );
                &&& final(forth)@ == res.st
                &&& final(out).deep_view() == old(out).deep_view() + res.out
                &&& r.deep_view() == res.err
            }),
    {
        proof {
            assert(toks.deep_view().skip(0) =~= toks.deep_view());
        }
        self.eval_at(forth, toks, 0, MAX_EXPANSION_DEPTH, out)
    }

    /// Evaluates one line of input: splits it into tokens and runs the
    /// dispatch loop, returning the collected output and the error that
    /// stopped the line, if any.
    pub fn eval(&self, forth: &mut Forth, instruction: &str) -> (r: EvalOutcome)
        requires
            self.wf(),
        ensures
            ({
                let res = eval_tokens_spec(
                    old(forth)@,
                    split_line(instruction@),
                    MAX_EXPANSION_DEPTH as nat,
                );
                &&& final(forth)@ == res.st
                &&& r.outputs.deep_view() == res.out
                &&& r.error.deep_view() == res.err
            }),
    {
        let toks = tokenize(instruction);
        let mut out: Vec<OutEvent> = Vec::new();
        proof {
            assert(out.deep_view() =~= Seq::<OutView>::empty());
        }
        let error = self.eval_tokens(forth, &toks, &mut out);
        proof {
            assert(Seq::<OutView>::empty() + eval_tokens_spec(
                old(forth)@,
                split_line(instruction@),
                MAX_EXPANSION_DEPTH as nat,
            ).out =~= eval_tokens_spec(
                old(forth)@,
                split_line(instruction@),
                MAX_EXPANSION_DEPTH as nat,
            ).out);
        }
        EvalOutcome { outputs: out, error }
    }
}

} // verus!
