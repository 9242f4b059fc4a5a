use vstd::prelude::*;
use crate::env::Env;
use crate::err::MatrixError;
use crate::matrix::{chunked, is_positive_square, transposed, Matrix};
use crate::text::{split_words, texts, words};

verus! {

pub open spec fn det_word() -> Seq<char> {
    seq!['d', 'e', 't']
}

pub open spec fn inv_word() -> Seq<char> {
    seq!['i', 'n', 'v']
}

pub open spec fn tr_word() -> Seq<char> {
    seq!['t', 'r']
}

pub open spec fn eig_word() -> Seq<char> {
    seq!['e', 'i', 'g']
}

pub open spec fn eigvec_word() -> Seq<char> {
    seq!['e', 'i', 'g', 'v', 'e', 'c']
}

/// A single word naming the transpose of a variable: the name, then an apostrophe.
pub open spec fn is_transpose_word(w: Seq<Seq<char>>) -> bool {
    w.len() == 1 && w[0].len() >= 1 && w[0].last() == '\''
}

/// Two words, the first one of the operation keywords.
pub open spec fn is_unary(w: Seq<Seq<char>>) -> bool {
    w.len() == 2 && (w[0] == det_word() || w[0] == inv_word() || w[0] == tr_word() || w[0]
        == eig_word() || w[0] == eigvec_word())
}

/// `a = b`.
pub open spec fn is_assign(w: Seq<Seq<char>>) -> bool {
    w.len() == 3 && w[1] == seq!['=']
}

/// `c = a * b`.
pub open spec fn is_product(w: Seq<Seq<char>>) -> bool {
    w.len() == 5 && w[1] == seq!['='] && w[3] == seq!['*']
}

/// As many rows as columns.
pub open spec fn is_square_grid<T>(g: Seq<Seq<T>>) -> bool {
    g.len() == g[0].len()
}

/// A name followed by the words of its values.
pub open spec fn is_definition(w: Seq<Seq<char>>) -> bool {
    w.len() >= 2 && !is_unary(w) && !is_assign(w) && !is_product(w)
}

/// What a line asks for once its variables have been looked up, and what is left to
/// compute on the values.
pub enum Step<T> {
    /// Nothing to show.
    Silent,
    /// Show the determinant of the named square matrix.
    Determinant(String, Matrix<T>),
    /// Show the inverse of the square matrix.
    Inverse(Matrix<T>),
    /// Show the matrix as it is.
    Show(Matrix<T>),
    /// Show the trace of the named square matrix.
    Trace(String, Matrix<T>),
    /// Show the eigenvalues of the named square matrix.
    Eigenvalues(String, Matrix<T>),
    /// Show the eigenvectors of the named square matrix.
    Eigenvectors(String, Matrix<T>),
    /// Bind the name to the product of the two matrices, whose shapes conform, and show it.
    Product(String, Matrix<T>, Matrix<T>),
    /// Bind the name to the square matrix made of these values, if each is a number.
    Define(String, Vec<String>),
}

/// What a `Step` says, over the views of its parts.
pub enum Reply<T> {
    Silent,
    Determinant(Seq<char>, Seq<Seq<T>>),
    Inverse(Seq<Seq<T>>),
    Show(Seq<Seq<T>>),
    Trace(Seq<char>, Seq<Seq<T>>),
    Eigenvalues(Seq<char>, Seq<Seq<T>>),
    Eigenvectors(Seq<char>, Seq<Seq<T>>),
    Product(Seq<char>, Seq<Seq<T>>, Seq<Seq<T>>),
    Define(Seq<char>, Seq<Seq<char>>),
}

impl<T> View for Step<T> {
    type V = Reply<T>;

    open spec fn view(&self) -> Reply<T> {
        match self {
            Step::Silent => Reply::Silent,
            Step::Determinant(n, m) => Reply::Determinant(n@, m@),
            Step::Inverse(m) => Reply::Inverse(m@),
            Step::Show(m) => Reply::Show(m@),
            Step::Trace(n, m) => Reply::Trace(n@, m@),
            Step::Eigenvalues(n, m) => Reply::Eigenvalues(n@, m@),
            Step::Eigenvectors(n, m) => Reply::Eigenvectors(n@, m@),
            Step::Product(n, a, b) => Reply::Product(n@, a@, b@),
            Step::Define(n, v) => Reply::Define(n@, texts(v@)),
        }
    }
}

/// The view of a step, or its error.
pub open spec fn reply_of<T>(r: Result<Step<T>, MatrixError>) -> Result<Reply<T>, MatrixError> {
    match r {
        Ok(s) => Ok(s@),
        Err(e) => Err(e),
    }
}

/// The matrix bound to `name`, which must be square.
pub open spec fn square_lookup<T>(env: Map<Seq<char>, Seq<Seq<T>>>, name: Seq<char>) -> Result<
    Seq<Seq<T>>,
    MatrixError,
> {
    if !env.contains_key(name) {
        Err(MatrixError::UndefinedVariable)
    } else if !is_square_grid(env[name]) {
        Err(MatrixError::NotSquare)
    } else {
        Ok(env[name])
    }
}

/// What a line of words asks for in `env`, by the first form that the words match.
pub open spec fn outcome<T>(env: Map<Seq<char>, Seq<Seq<T>>>, w: Seq<Seq<char>>) -> Result<
    Reply<T>,
    MatrixError,
> {
    if w.len() == 0 {
        Ok(Reply::Silent)
    } else if is_unary(w) {
        match square_lookup(env, w[1]) {
            Err(e) => Err(e),
            Ok(g) => if w[0] == det_word() {
                Ok(Reply::Determinant(w[1], g))
            } else if w[0] == inv_word() {
                Ok(Reply::Inverse(g))
            } else if w[0] == tr_word() {
                Ok(Reply::Trace(w[1], g))
            } else if w[0] == eig_word() {
                Ok(Reply::Eigenvalues(w[1], g))
            } else {
                Ok(Reply::Eigenvectors(w[1], g))
            },
        }
    } else if w.len() == 1 {
        if !is_transpose_word(w) {
            Err(MatrixError::ParseError)
        } else if !env.contains_key(w[0].drop_last()) {
            Err(MatrixError::UndefinedVariable)
        } else {
            Ok(Reply::Show(transposed(env[w[0].drop_last()])))
        }
    } else if is_assign(w) {
        if env.contains_key(w[2]) {
            Ok(Reply::Silent)
        } else {
            Err(MatrixError::UndefinedVariable)
        }
    } else if is_product(w) {
        if !env.contains_key(w[2]) || !env.contains_key(w[4]) {
            Err(MatrixError::UndefinedVariable)
        } else if env[w[2]][0].len() != env[w[4]].len() {
            Err(MatrixError::ShapeMismatch)
        } else {
            Ok(Reply::Product(w[0], env[w[2]], env[w[4]]))
        }
    } else {
        Ok(Reply::Define(w[0], w.drop_first()))
    }
}

/// The environment after a line of words: only a copy `a = b` of a bound `b` changes it.
pub open spec fn next_env<T>(env: Map<Seq<char>, Seq<Seq<T>>>, w: Seq<Seq<char>>) -> Map<
    Seq<char>,
    Seq<Seq<T>>,
> {
    if is_assign(w) && env.contains_key(w[2]) {
        env.insert(w[0], env[w[2]])
    } else {
        env
    }
}

/// The variable names that a line of words reads, by the form it matches.
pub open spec fn operands(w: Seq<Seq<char>>) -> Seq<Seq<char>> {
    if is_unary(w) {
        seq![w[1]]
    } else if is_transpose_word(w) {
        seq![w[0].drop_last()]
    } else if is_assign(w) {
        seq![w[2]]
    } else if is_product(w) {
        seq![w[2], w[4]]
    } else {
        seq![]
    }
}

/// A line that reads a name with no binding fails with `UndefinedVariable`, and the
/// environment stays as it was.
pub proof fn lemma_unbound_name_fails<T>(env: Map<Seq<char>, Seq<Seq<T>>>, w: Seq<Seq<char>>, i: int)
    requires
        0 <= i < operands(w).len(),
        !env.contains_key(operands(w)[i]),
    ensures
        outcome(env, w) == Err::<Reply<T>, MatrixError>(MatrixError::UndefinedVariable),
        next_env(env, w) == env,
{
}

/// Whether `w` holds exactly the characters of `lit`.
fn is_word(w: &String, lit: &str) -> (r: bool)
    ensures
        r == (w@ == lit@),
{
    let s = w.as_str();
    let n = s.unicode_len();
    if n != lit.unicode_len() {
        return false;
    }
    let mut i: usize = 0;
    while i < n
        invariant
            n == s@.len(),
            n == lit@.len(),
            s@ == w@,
            i <= n,
            forall|k: int| 0 <= k < i ==> s@[k] == lit@[k],
        decreases n - i,
    {
        if s.get_char(i) != lit.get_char(i) {
            return false;
        }
        i = i + 1;
    }
    proof {
        assert(s@ =~= lit@);
    }
    true
}

/// A variable environment, and the rules by which a line of input reads and changes it.
pub struct Evaluator<T> {
    vars: Env<T>,
}

impl<T> View for Evaluator<T> {
    type V = Map<Seq<char>, Seq<Seq<T>>>;

    closed spec fn view(&self) -> Map<Seq<char>, Seq<Seq<T>>> {
        self.vars@
    }
}

impl<T: Copy> Evaluator<T> {
    /// The environment is well formed.
    pub closed spec fn wf(&self) -> bool {
        self.vars.wf()
    }

    /// An evaluator with no variables.
    pub fn new() -> (r: Self)
        ensures
            r.wf(),
            r@ == Map::<Seq<char>, Seq<Seq<T>>>::empty(),
    {
        Evaluator { vars: Env::new() }
    }

    /// The matrix bound to `name`; `UndefinedVariable` when there is none.
    pub fn get(&self, name: &str) -> (r: Result<&Matrix<T>, MatrixError>)
        requires
            self.wf(),
        ensures
            match r {
                Ok(m) => self@.contains_key(name@) && m@ == self@[name@],
                Err(e) => e == MatrixError::UndefinedVariable && !self@.contains_key(name@),
            },
    {
        self.vars.get(name)
    }

    /// Binds `name` to `m`, replacing what it was bound to.
    pub fn store(&mut self, name: &str, m: Matrix<T>)
        requires
            old(self).wf(),
        ensures
            final(self).wf(),
            final(self)@ == old(self)@.insert(name@, m@),
    {
        self.vars.bind(name, m);
    }

    /// Binds `name` to the square matrix filled row by row from `values`, and returns
    /// it; `NotPerfectSquare`, with nothing bound, when their number is not the square
    /// of a positive integer.
    pub fn define(&mut self, name: &str, values: Vec<T>) -> (r: Result<Matrix<T>, MatrixError>)
        requires
            old(self).wf(),
        ensures
            final(self).wf(),
            match r {
                Ok(m) => m@.len() * m@.len() == values@.len() && m@ == chunked(values@, m@.len())
                    && final(self)@ == old(self)@.insert(name@, m@),
                Err(e) => e == MatrixError::NotPerfectSquare && !is_positive_square(values@.len())
                    && final(self)@ == old(self)@,
            },
    {
        let m = Matrix::from_flat(values)?;
        self.vars.bind(name, m.duplicate());
        Ok(m)
    }

    /// A copy of the matrix bound to `name`; `UndefinedVariable` when there is none.
    fn copy_of(&self, name: &str) -> (r: Result<Matrix<T>, MatrixError>)
        requires
            self.wf(),
        ensures
            match r {
                Ok(m) => self@.contains_key(name@) && m@ == self@[name@],
                Err(e) => e == MatrixError::UndefinedVariable && !self@.contains_key(name@),
            },
    {
        let m = self.vars.get(name)?;
        Ok(m.duplicate())
    }

    /// A copy of the square matrix bound to `name`; `UndefinedVariable` when there is
    /// none, `NotSquare` when it is not square.
    fn square_of(&self, name: &str) -> (r: Result<Matrix<T>, MatrixError>)
        requires
            self.wf(),
        ensures
            match r {
                Ok(m) => self@.contains_key(name@) && is_square_grid(self@[name@]) && m@ == self@[name@],
                Err(e) => if self@.contains_key(name@) {
                    e == MatrixError::NotSquare && !is_square_grid(self@[name@])
                } else {
                    e == MatrixError::UndefinedVariable
                },
            },
    {
        let m = self.vars.get(name)?;
        if !m.is_square() {
            return Err(MatrixError::NotSquare);
        }
        Ok(m.duplicate())
    }

    /// Reads one line: splits it into words and evaluates them as `eval_words` does.
    pub fn eval_line(&mut self, line: &str) -> (r: Result<Step<T>, MatrixError>)
        requires
            old(self).wf(),
        ensures
            final(self).wf(),
            reply_of(r) == outcome(old(self)@, words(line@)),
            final(self)@ == next_env(old(self)@, words(line@)),
    {
        let ws = split_words(line);
        self.eval_words(ws)
    }

    /// Evaluates the words of a line: picks the first form that they match, looks up
    /// the variables it names and checks their shapes. A copy `a = b` is carried out
    /// here; the work on the values is handed back as a `Step`. On an error nothing is
    /// bound.
    pub fn eval_words(&mut self, ws: Vec<String>) -> (r: Result<Step<T>, MatrixError>)
        requires
            old(self).wf(),
        ensures
            final(self).wf(),
            reply_of(r) == outcome(old(self)@, texts(ws@)),
            final(self)@ == next_env(old(self)@, texts(ws@)),
    {
        let ghost w = texts(ws@);
        let n = ws.len();
        proof {
            assert forall|k: int| 0 <= k < n implies #[trigger] ws@[k]@ == w[k] by {
                assert(texts(ws@)[k] == ws@[k]@);
            }
            reveal_strlit("det");
            reveal_strlit("inv");
            reveal_strlit("tr");
            reveal_strlit("eig");
            reveal_strlit("eigvec");
            reveal_strlit("=");
            reveal_strlit("*");
            assert(w.len() == n);
            assert("det"@ =~= det_word());
            assert("inv"@ =~= inv_word());
            assert("tr"@ =~= tr_word());
            assert("eig"@ =~= eig_word());
            assert("eigvec"@ =~= eigvec_word());
            assert("="@ =~= seq!['=']);
            assert("*"@ =~= seq!['*']);
            assert(inv_word()[0] != det_word()[0]);
            assert(tr_word()[1] != det_word()[1]);
            assert(eig_word()[0] != det_word()[0]);
            assert(eigvec_word().len() != det_word().len());
            assert(tr_word()[0] != inv_word()[0]);
            assert(eig_word()[0] != inv_word()[0]);
            assert(eigvec_word().len() != inv_word().len());
            assert(eig_word().len() != tr_word().len());
            assert(eigvec_word().len() != tr_word().len());
            assert(eigvec_word().len() != eig_word().len());
        }
        if n == 0 {
            return Ok(Step::Silent);
        }
        if n == 2 && is_word(&ws[0], "det") {
            let m = self.square_of(ws[1].as_str())?;
            return Ok(Step::Determinant(ws[1].clone(), m));
        }
        if n == 2 && is_word(&ws[0], "inv") {
            let m = self.square_of(ws[1].as_str())?;
            return Ok(Step::Inverse(m));
        }
        if n == 1 {
            let s = ws[0].as_str();
            let len = s.unicode_len();
            if len >= 1 && s.get_char(len - 1) == '\'' {
                let name = s.substring_char(0, len - 1);
                proof {
                    assert(name@ =~= w[0].drop_last());
                }
                let m = self.vars.get(name)?;
                return Ok(Step::Show(m.transpose()));
            }
            return Err(MatrixError::ParseError);
        }
        if n == 2 && is_word(&ws[0], "tr") {
            let m = self.square_of(ws[1].as_str())?;
            return Ok(Step::Trace(ws[1].clone(), m));
        }
        if n == 2 && is_word(&ws[0], "eig") {
            let m = self.square_of(ws[1].as_str())?;
            return Ok(Step::Eigenvalues(ws[1].clone(), m));
        }
        if n == 2 && is_word(&ws[0], "eigvec") {
            let m = self.square_of(ws[1].as_str())?;
            return Ok(Step::Eigenvectors(ws[1].clone(), m));
        }
        if n == 3 && is_word(&ws[1], "=") {
            let m = self.copy_of(ws[2].as_str())?;
            self.vars.bind(ws[0].as_str(), m);
            return Ok(Step::Silent);
        }
        if n == 5 && is_word(&ws[1], "=") && is_word(&ws[3], "*") {
            let a = self.copy_of(ws[2].as_str())?;
            let b = self.copy_of(ws[4].as_str())?;
            if a.mul_shape(&b).is_err() {
                return Err(MatrixError::ShapeMismatch);
            }
            return Ok(Step::Product(ws[0].clone(), a, b));
        }
        let mut vals: Vec<String> = Vec::new();
        let mut k: usize = 1;
        while k < n
            invariant
                n == ws@.len(),
                n == w.len(),
                1 <= k <= n,
                forall|j: int| 0 <= j < n ==> #[trigger] ws@[j]@ == w[j],
                texts(vals@) == w.subrange(1, k as int),
            decreases n - k,
        {
            let ghost before = vals@;
            vals.push(ws[k].clone());
            proof {
                assert(vals@ == before.push(ws@[k as int]));
                assert(texts(vals@) =~= texts(before).push(w[k as int]));
                assert(texts(vals@) =~= w.subrange(1, k + 1));
            }
            k = k + 1;
        }
        proof {
            assert(w.subrange(1, n as int) =~= w.drop_first());
        }
        Ok(Step::Define(ws[0].clone(), vals))
    }
}

} // verus!
