//! The result of a static evaluation, read off the tail of the text that the
//! engine prints for it.
//!
//! The dump has no stable layout, so the parser anchors on the end: it skips
//! the last line, a summary, and takes the third field of each of the three
//! lines before it, the latest line first. Each field must be a numeral. The
//! fields are kept as written; turning a numeral into a number is left to the
//! caller.

use crate::numeral::{is_numeral, is_numeral_text};
use crate::text::{lines, split_lines, split_whitespace, texts, tokens};
use vstd::prelude::*;

verus! {

/// Why an evaluation dump was rejected.
#[derive(Debug, Clone, Copy, PartialEq, Eq, Structural)]
pub enum EvalError {
    /// The dump has fewer than four lines.
    TooFewLines,
    /// One of the three score lines has fewer than three fields.
    FieldMissing,
    /// One of the three score fields is no numeral.
    NotNumeric,
}

/// The outcome of one evaluation request.
#[derive(Debug, Clone, PartialEq, Eq)]
pub struct Eval {
    /// How many lines the dump had.
    pub length: usize,
    /// The three scores as the engine wrote them, numerals all three, the
    /// latest line first.
    pub evals: [String; 3],
}

/// What an `Eval` holds, as mathematical values.
pub struct EvalView {
    pub length: nat,
    pub evals: Seq<Seq<char>>,
}

impl View for Eval {
    type V = EvalView;

    open spec fn view(&self) -> EvalView {
        EvalView { length: self.length as nat, evals: texts(self.evals@) }
    }
}

/// The third whitespace-separated field of `line`, if it has one.
pub open spec fn score_field(line: Seq<char>) -> Option<Seq<char>> {
    let t = tokens(line);
    if t.len() >= 3 {
        Some(t[2])
    } else {
        None
    }
}

/// The evaluation that the dump `data` holds: with `n` lines, the scores are
/// the third fields of lines `n - 2`, `n - 3` and `n - 4`, in that order.
pub open spec fn eval_of_block(data: Seq<char>) -> Result<EvalView, EvalError> {
    let ls = lines(data);
    let n = ls.len() as int;
    if n < 4 {
        Err(EvalError::TooFewLines)
    } else {
        match (score_field(ls[n - 2]), score_field(ls[n - 3]), score_field(ls[n - 4])) {
            (Some(a), Some(b), Some(c)) => if is_numeral(a) && is_numeral(b) && is_numeral(c) {
                Ok(EvalView { length: n as nat, evals: seq![a, b, c] })
            } else {
                Err(EvalError::NotNumeric)
            },
            _ => Err(EvalError::FieldMissing),
        }
    }
}

impl EvalView {
    /// An evaluation holds three scores, each a numeral.
    pub open spec fn well_formed(self) -> bool {
        self.evals.len() == 3 && forall|i: int| 0 <= i < 3 ==> is_numeral(#[trigger] self.evals[i])
    }
}

/// The mathematical value of a parsed evaluation, or the error.
pub open spec fn eval_result_view(r: Result<Eval, EvalError>) -> Result<EvalView, EvalError> {
    match r {
        Ok(e) => Ok(e@),
        Err(e) => Err(e),
    }
}

/// Takes the third field of `line`.
fn third_field(line: &String) -> (r: Option<String>)
    ensures
        match r {
            Some(f) => score_field(line@) == Some(f@),
            None => score_field(line@) is None,
        },
{
    let mut fields = split_whitespace(line.as_str());
    if fields.len() >= 3 {
        Some(fields.swap_remove(2))
    } else {
        None
    }
}

impl Eval {
    /// Reads the evaluation off the dump `data`.
    pub fn parse(data: &str) -> (r: Result<Eval, EvalError>)
        ensures
            eval_result_view(r) == eval_of_block(data@),
            r matches Ok(e) ==> e@.well_formed(),
    {
        let all = split_lines(data);
        let n = all.len();
        if n < 4 {
            return Err(EvalError::TooFewLines);
        }
        let a = third_field(&all[n - 2]);
        let b = third_field(&all[n - 3]);
        let c = third_field(&all[n - 4]);
        match (a, b, c) {
            (Some(a), Some(b), Some(c)) => {
                if !(is_numeral_text(a.as_str()) && is_numeral_text(b.as_str()) && is_numeral_text(
                    c.as_str(),
                )) {
                    return Err(EvalError::NotNumeric);
                }
                let evals = [a, b, c];
                assert(texts(evals@) =~= seq![a@, b@, c@]);
                Ok(Eval { length: n, evals })
            },
            _ => Err(EvalError::FieldMissing),
        }
    }
}

/// A dump is read if and only if it has the shape: four lines at least, and
/// in each of the three lines before the last a third field that is a
/// numeral. The scores are then exactly those three fields, the latest line
/// first, and the length is the number of lines. Any other dump is rejected.
pub proof fn law_eval_shape(data: Seq<char>)
    ensures
        ({
            let ls = lines(data);
            let n = ls.len() as int;
            let shaped = n >= 4 && forall|k: int|
                2 <= k <= 4 ==> tokens(#[trigger] ls[n - k]).len() >= 3 && is_numeral(
                    tokens(ls[n - k])[2],
                );
            &&& eval_of_block(data) is Ok <==> shaped
            &&& shaped ==> eval_of_block(data) == Ok::<EvalView, EvalError>(
                EvalView {
                    length: n as nat,
                    evals: seq![
                        tokens(ls[n - 2])[2],
                        tokens(ls[n - 3])[2],
                        tokens(ls[n - 4])[2],
                    ],
                },
            )
            &&& eval_of_block(data) matches Ok(e) ==> e.well_formed()
        }),
{
    let ls = lines(data);
    let n = ls.len() as int;
    if n >= 4 {
        assert(ls[n - 2] == ls[n - 2] && ls[n - 3] == ls[n - 3] && ls[n - 4] == ls[n - 4]);
    }
}

} // verus!
