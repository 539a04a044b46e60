//! The runtime state of one interpreter session: the operand stack and the
//! two symbol tables (user-defined words and named constants).
//!
//! The tables are association lists kept in insertion order; a name occurs
//! at most once because [`Forth::add_word`] and [`Forth::add_constant`]
//! replace an existing binding in place.  At the specification level a
//! table is a `Seq` of `(name, value)` pairs and the first binding wins,
//! which agrees with the executable code whether or not names repeat.

use vstd::prelude::*;

verus! {

/// A user-defined word: its name and the tokens of its body.
pub type ForthWord = (String, Vec<String>);

/// Everything that can go wrong while evaluating input.
#[derive(Debug)]
pub enum ForthError {
    /// An operation needed a stack value that was not there; the string
    /// names the operation and the argument position that was missing.
    StackUnderflow(String),
    /// `/` or `mod` was asked to divide by zero.
    DivisionByZero,
    /// A word definition used an integer-shaped name; the string is the
    /// offending name.
    InvalidWordName(String),
    /// A `:` definition was not closed by `;` before input ran out.
    UnterminatedDefinition,
    /// A `."` literal was not closed by `"` before input ran out.
    UnterminatedString,
    /// The token matched no definition rule and is not an integer literal.
    UnknownToken(String),
    /// Word expansion nested deeper than the fixed limit.
    RecursionLimitExceeded,
}

pub type ForthResult<T> = Result<T, ForthError>;

/// The specification-level image of a [`ForthError`], with character
/// sequences in place of the owned strings.
pub enum ErrView {
    Underflow(Seq<char>),
    DivByZero,
    BadWordName(Seq<char>),
    UnterminatedDef,
    UnterminatedStr,
    Unknown(Seq<char>),
    TooDeep,
}

impl View for ForthError {
    type V = ErrView;

    open spec fn view(&self) -> ErrView {
        match self {
            ForthError::StackUnderflow(m) => ErrView::Underflow(m@),
            ForthError::DivisionByZero => ErrView::DivByZero,
            ForthError::InvalidWordName(t) => ErrView::BadWordName(t@),
            ForthError::UnterminatedDefinition => ErrView::UnterminatedDef,
            ForthError::UnterminatedString => ErrView::UnterminatedStr,
            ForthError::UnknownToken(t) => ErrView::Unknown(t@),
            ForthError::RecursionLimitExceeded => ErrView::TooDeep,
        }
    }
}

impl DeepView for ForthError {
    type V = ErrView;

    open spec fn deep_view(&self) -> ErrView {
        self.view()
    }
}

/// Looks `name` up in an association table; the first binding wins.
pub open spec fn tbl_lookup<V>(tbl: Seq<(Seq<char>, V)>, name: Seq<char>) -> Option<V>
    decreases tbl.len(),
{
    if tbl.len() == 0 {
        None
    } else if tbl.first().0 == name {
        Some(tbl.first().1)
    } else {
        tbl_lookup(tbl.drop_first(), name)
    }
}

/// Replaces the first binding of `name`, or appends one if none exists.
pub open spec fn tbl_update<V>(
    tbl: Seq<(Seq<char>, V)>,
    name: Seq<char>,
    val: V,
) -> Seq<(Seq<char>, V)>
    decreases tbl.len(),
{
    if tbl.len() == 0 {
        seq![(name, val)]
    } else if tbl.first().0 == name {
        seq![(name, val)] + tbl.drop_first()
    } else {
        seq![tbl.first()] + tbl_update(tbl.drop_first(), name, val)
    }
}

/// The names bound by a table, in table order.
pub open spec fn tbl_names<V>(tbl: Seq<(Seq<char>, V)>) -> Seq<Seq<char>> {
    tbl.map_values(|b: (Seq<char>, V)| b.0)
}

/// A lookup skips over any prefix whose keys all differ from `name`.
pub proof fn lemma_tbl_lookup_skip<V>(tbl: Seq<(Seq<char>, V)>, name: Seq<char>, i: int)
    requires
        0 <= i <= tbl.len(),
        forall|j: int| 0 <= j < i ==> (#[trigger] tbl[j]).0 != name,
    ensures
        tbl_lookup(tbl, name) == tbl_lookup(tbl.skip(i), name),
    decreases i,
{
    if i > 0 {
        assert(tbl[0].0 != name);
        assert(forall|j: int|
            0 <= j < i - 1 ==> (#[trigger] tbl.drop_first()[j]).0 == tbl[j + 1].0);
        lemma_tbl_lookup_skip(tbl.drop_first(), name, i - 1);
        assert(tbl.drop_first().skip(i - 1) =~= tbl.skip(i));
        assert(tbl.skip(0) =~= tbl);
    } else {
        assert(tbl.skip(0) =~= tbl);
    }
}

/// If `tbl[i]` is the first binding of `name`, the lookup returns it.
pub proof fn lemma_tbl_lookup_found<V>(tbl: Seq<(Seq<char>, V)>, name: Seq<char>, i: int)
    requires
        0 <= i < tbl.len(),
        tbl[i].0 == name,
        forall|j: int| 0 <= j < i ==> (#[trigger] tbl[j]).0 != name,
    ensures
        tbl_lookup(tbl, name) == Some(tbl[i].1),
{
    lemma_tbl_lookup_skip(tbl, name, i);
    assert(tbl.skip(i).first() == tbl[i]);
}

/// If no binding of `name` exists, the lookup fails.
pub proof fn lemma_tbl_lookup_none<V>(tbl: Seq<(Seq<char>, V)>, name: Seq<char>)
    requires
        forall|j: int| 0 <= j < tbl.len() ==> (#[trigger] tbl[j]).0 != name,
    ensures
        tbl_lookup(tbl, name) is None,
{
    lemma_tbl_lookup_skip(tbl, name, tbl.len() as int);
    assert(tbl.skip(tbl.len() as int) =~= Seq::<(Seq<char>, V)>::empty());
}

/// Updating at the first index bound to `name` is a pointwise update.
pub proof fn lemma_tbl_update_at<V>(tbl: Seq<(Seq<char>, V)>, name: Seq<char>, val: V, i: int)
    requires
        0 <= i < tbl.len(),
        tbl[i].0 == name,
        forall|j: int| 0 <= j < i ==> (#[trigger] tbl[j]).0 != name,
    ensures
        tbl_update(tbl, name, val) =~= tbl.update(i, (name, val)),
    decreases i,
{
    if i == 0 {
        assert(tbl_update(tbl, name, val) =~= seq![(name, val)] + tbl.drop_first());
    } else {
        assert(tbl[0].0 != name);
        assert(forall|j: int|
            0 <= j < i - 1 ==> (#[trigger] tbl.drop_first()[j]).0 == tbl[j + 1].0);
        lemma_tbl_update_at(tbl.drop_first(), name, val, i - 1);
    }
}

/// Updating a name with no binding appends one.
pub proof fn lemma_tbl_update_missing<V>(tbl: Seq<(Seq<char>, V)>, name: Seq<char>, val: V)
    requires
        forall|j: int| 0 <= j < tbl.len() ==> (#[trigger] tbl[j]).0 != name,
    ensures
        tbl_update(tbl, name, val) =~= tbl.push((name, val)),
    decreases tbl.len(),
{
    if tbl.len() > 0 {
        assert(tbl[0].0 != name);
        assert(forall|j: int|
            0 <= j < tbl.len() - 1 ==> (#[trigger] tbl.drop_first()[j]).0 == tbl[j + 1].0);
        lemma_tbl_update_missing(tbl.drop_first(), name, val);
    }
}

/// The mathematical model of a session: the stack bottom-to-top, and the
/// two symbol tables as association lists.
pub struct ForthVw {
    pub stack: Seq<i32>,
    pub words: Seq<(Seq<char>, Seq<Seq<char>>)>,
    pub constants: Seq<(Seq<char>, i32)>,
}

/// One interpreter session: an operand stack of `i32` values plus the word
/// and constant tables.
pub struct Forth {
    stack: Vec<i32>,
    words: Vec<(String, Vec<String>)>,
    constants: Vec<(String, i32)>,
}

impl View for Forth {
    type V = ForthVw;

    closed spec fn view(&self) -> ForthVw {
        ForthVw {
            stack: self.stack@,
            words: self.words.deep_view(),
            constants: self.constants.deep_view(),
        }
    }
}

impl Forth {
    /// A fresh session: empty stack, no words, no constants.
    pub fn empty() -> (r: Forth)
        ensures
            r@.stack == Seq::<i32>::empty(),
            r@.words == Seq::<(Seq<char>, Seq<Seq<char>>)>::empty(),
            r@.constants == Seq::<(Seq<char>, i32)>::empty(),
    {
        let r = Forth { stack: Vec::new(), words: Vec::new(), constants: Vec::new() };
        proof {
            assert(r@.words =~= Seq::<(Seq<char>, Seq<Seq<char>>)>::empty());
            assert(r@.constants =~= Seq::<(Seq<char>, i32)>::empty());
        }
        r
    }

    /// Removes and returns the top of the stack; fails with `msg` as the
    /// underflow context when the stack is empty.
    pub fn pop(&mut self, msg: String) -> (r: ForthResult<i32>)
        ensures
            old(self)@.stack.len() > 0 ==> {
                &&& r == Ok::<i32, ForthError>(old(self)@.stack.last())
                &&& final(self)@.stack == old(self)@.stack.drop_last()
            },
            old(self)@.stack.len() == 0 ==> {
                &&& r matches Err(e) && e@ == ErrView::Underflow(msg@)
                &&& final(self)@.stack == old(self)@.stack
            },
            final(self)@.words == old(self)@.words,
            final(self)@.constants == old(self)@.constants,
    {
        match self.stack.pop() {
            Some(n) => Ok(n),
            None => Err(ForthError::StackUnderflow(msg)),
        }
    }

    /// Appends `val` to the stack; always succeeds.
    pub fn push(&mut self, val: i32)
        ensures
            final(self)@.stack == old(self)@.stack.push(val),
            final(self)@.words == old(self)@.words,
            final(self)@.constants == old(self)@.constants,
    {
        self.stack.push(val);
    }

    /// Empties the stack unconditionally.
    pub fn clear(&mut self)
        ensures
            final(self)@.stack == Seq::<i32>::empty(),
            final(self)@.words == old(self)@.words,
            final(self)@.constants == old(self)@.constants,
    {
        self.stack.clear();
    }

    /// The stack contents, bottom to top; does not mutate.
    pub fn get_stack(&self) -> (r: Vec<i32>)
        ensures
            r@ == self@.stack,
    {
        let mut r: Vec<i32> = Vec::new();
        let mut i: usize = 0;
        while i < self.stack.len()
            invariant
                i <= self.stack.len(),
                r@ == self@.stack.take(i as int),
            decreases self.stack.len() - i,
        {
            r.push(self.stack[i]);
            proof {
                assert(self@.stack.take(i + 1 as int) =~= self@.stack.take(i as int).push(
                    self@.stack[i as int],
                ));
            }
            i = i + 1;
        }
        proof {
            assert(self@.stack.take(self.stack.len() as int) =~= self@.stack);
        }
        r
    }

    /// The number of values on the stack.
    pub fn depth(&self) -> (r: usize)
        ensures
            r == self@.stack.len(),
    {
        self.stack.len()
    }

    /// Inserts or overwrites the word named `name`; the body of `word` is
    /// stored under that name.  Returns the previous definition, if any.
    pub fn add_word(&mut self, name: &str, word: ForthWord) -> (r: Option<ForthWord>)
        ensures
            final(self)@.words == tbl_update(old(self)@.words, name@, word.1.deep_view()),
            final(self)@.stack == old(self)@.stack,
            final(self)@.constants == old(self)@.constants,
            r.deep_view() == match tbl_lookup(old(self)@.words, name@) {
                Some(b) => Some((name@, b)),
                None => None::<(Seq<char>, Seq<Seq<char>>)>,
            },
    {
        let key = name.to_owned();
        let mut i: usize = 0;
        while i < self.words.len()
            invariant
                i <= self.words.len(),
                key@ == name@,
                self@ == old(self)@,
                forall|j: int| 0 <= j < i ==> (#[trigger] self@.words[j]).0 != name@,
            decreases self.words.len() - i,
        {
            if self.words[i].0 == key {
                proof {
                    lemma_tbl_lookup_found(self@.words, name@, i as int);
                    lemma_tbl_update_at(self@.words, name@, word.1.deep_view(), i as int);
                }
                let prev = self.words.remove(i);
                self.words.insert(i, (key, word.1));
                proof {
                    assert(self@.words =~~= old(self)@.words.update(
                        i as int,
                        (name@, word.1.deep_view()),
                    ));
                }
                return Some(prev);
            }
            i = i + 1;
        }
        proof {
            lemma_tbl_lookup_none(self@.words, name@);
            lemma_tbl_update_missing(self@.words, name@, word.1.deep_view());
        }
        self.words.push((key, word.1));
        proof {
            assert(self@.words =~~= old(self)@.words.push((name@, word.1.deep_view())));
        }
        None
    }

    /// The definition of the word named `name`, if one exists.
    pub fn get_word(&self, name: &str) -> (r: Option<ForthWord>)
        ensures
            r.deep_view() == match tbl_lookup(self@.words, name@) {
                Some(b) => Some((name@, b)),
                None => None::<(Seq<char>, Seq<Seq<char>>)>,
            },
    {
        let key = name.to_owned();
        let mut i: usize = 0;
        while i < self.words.len()
            invariant
                i <= self.words.len(),
                key@ == name@,
                forall|j: int| 0 <= j < i ==> (#[trigger] self@.words[j]).0 != name@,
            decreases self.words.len() - i,
        {
            if self.words[i].0 == key {
                proof {
                    lemma_tbl_lookup_found(self@.words, name@, i as int);
                }
                let body = clone_string_vec(&self.words[i].1);
                return Some((key, body));
            }
            i = i + 1;
        }
        proof {
            lemma_tbl_lookup_none(self@.words, name@);
        }
        None
    }

    /// Inserts or overwrites the constant named `name`.  Returns the
    /// previous value, if any.
    pub fn add_constant(&mut self, name: &str, value: i32) -> (r: Option<i32>)
        ensures
            final(self)@.constants == tbl_update(old(self)@.constants, name@, value),
            final(self)@.stack == old(self)@.stack,
            final(self)@.words == old(self)@.words,
            r == tbl_lookup(old(self)@.constants, name@),
    {
        let key = name.to_owned();
        let mut i: usize = 0;
        while i < self.constants.len()
            invariant
                i <= self.constants.len(),
                key@ == name@,
                self@ == old(self)@,
                forall|j: int| 0 <= j < i ==> (#[trigger] self@.constants[j]).0 != name@,
            decreases self.constants.len() - i,
        {
            if self.constants[i].0 == key {
                proof {
                    lemma_tbl_lookup_found(self@.constants, name@, i as int);
                    lemma_tbl_update_at(self@.constants, name@, value, i as int);
                }
                let prev = self.constants.remove(i);
                self.constants.insert(i, (key, value));
                proof {
                    assert(self@.constants =~~= old(self)@.constants.update(
                        i as int,
                        (name@, value),
                    ));
                }
                return Some(prev.1);
            }
            i = i + 1;
        }
        proof {
            lemma_tbl_lookup_none(self@.constants, name@);
            lemma_tbl_update_missing(self@.constants, name@, value);
        }
        self.constants.push((key, value));
        proof {
            assert(self@.constants =~~= old(self)@.constants.push((name@, value)));
        }
        None
    }

    /// The value of the constant named `name`, if one exists.
    pub fn get_constant(&self, name: &str) -> (r: Option<i32>)
        ensures
            r == tbl_lookup(self@.constants, name@),
    {
        let key = name.to_owned();
        let mut i: usize = 0;
        while i < self.constants.len()
            invariant
                i <= self.constants.len(),
                key@ == name@,
                forall|j: int| 0 <= j < i ==> (#[trigger] self@.constants[j]).0 != name@,
            decreases self.constants.len() - i,
        {
            if self.constants[i].0 == key {
                proof {
                    lemma_tbl_lookup_found(self@.constants, name@, i as int);
                }
                return Some(self.constants[i].1);
            }
            i = i + 1;
        }
        proof {
            lemma_tbl_lookup_none(self@.constants, name@);
        }
        None
    }

    /// Every user-defined word, as `(name, body)` pairs in table order.
    pub fn get_words(&self) -> (r: Vec<ForthWord>)
        ensures
            r.deep_view() == self@.words,
    {
        let mut r: Vec<ForthWord> = Vec::new();
        let mut i: usize = 0;
        while i < self.words.len()
            invariant
                i <= self.words.len(),
                r.deep_view() == self@.words.take(i as int),
            decreases self.words.len() - i,
        {
            let nm = self.words[i].0.clone();
            let body = clone_string_vec(&self.words[i].1);
            r.push((nm, body));
            proof {
                assert(self@.words.take(i + 1 as int) =~= self@.words.take(i as int).push(
                    self@.words[i as int],
                ));
                assert(r.deep_view() =~= self@.words.take(i + 1 as int));
            }
            i = i + 1;
        }
        proof {
            assert(self@.words.take(self.words.len() as int) =~= self@.words);
        }
        r
    }
}

/// An element-by-element copy of a vector of strings.
fn clone_string_vec(v: &Vec<String>) -> (r: Vec<String>)
    ensures
        r.deep_view() == v.deep_view(),
{
    let mut r: Vec<String> = Vec::new();
    let mut i: usize = 0;
    while i < v.len()
        invariant
            i <= v.len(),
            r.deep_view() == v.deep_view().take(i as int),
        decreases v.len() - i,
    {
        r.push(v[i].clone());
        proof {
            assert(v.deep_view().take(i + 1 as int) =~= v.deep_view().take(i as int).push(
                v.deep_view()[i as int],
            ));
            assert(r.deep_view() =~= v.deep_view().take(i + 1 as int));
        }
        i = i + 1;
    }
    proof {
        assert(v.deep_view().take(v.len() as int) =~= v.deep_view());
    }
    r
}

} // verus!
