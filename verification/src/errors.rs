//! Accumulated lexical diagnostics.
//!
//! A scan never aborts on a bad lexeme: every problem is recorded here, in
//! insertion order, and the caller decides after the scan what to do with
//! them.

use crate::text::{dec_str, usize_to_string};
use vstd::prelude::*;
use vstd::string::StringExecFns;

verus! {

/// The mathematical content of one diagnostic.
#[verifier::ext_equal]
pub struct ErrorValue {
    pub msg: Seq<char>,
    pub line: int,
}

/// One lexical diagnostic: a message and the line it was raised on.
#[derive(Debug)]
struct LoxError {
    error_msg: String,
    line_num: usize,
}

/// The ordered collection of diagnostics of one scan.
#[derive(Debug)]
pub struct ErrorHandler {
    errors: Vec<LoxError>,
}

impl View for ErrorHandler {
    type V = Seq<ErrorValue>;

    closed spec fn view(&self) -> Seq<ErrorValue> {
        self.errors@.map_values(
            |e: LoxError| ErrorValue { msg: e.error_msg@, line: e.line_num as int },
        )
    }
}

/// One rendered diagnostic line.
pub open spec fn error_line(e: ErrorValue) -> Seq<char>
    recommends
        e.line >= 0,
{
    "[line "@ + dec_str(e.line as nat) + "] Error: "@ + e.msg + "\n"@
}

/// The whole rendered report, one line per diagnostic, in insertion order.
pub open spec fn error_report(errs: Seq<ErrorValue>) -> Seq<char>
    decreases errs.len(),
{
    if errs.len() == 0 {
        Seq::empty()
    } else {
        error_report(errs.drop_last()) + error_line(errs.last())
    }
}

impl Default for ErrorHandler {
    fn default() -> (r: ErrorHandler)
        ensures
            r@ == Seq::<ErrorValue>::empty(),
    {
        ErrorHandler::new()
    }
}

impl ErrorHandler {
    pub fn new() -> (r: ErrorHandler)
        ensures
            r@ == Seq::<ErrorValue>::empty(),
    {
        let r = ErrorHandler { errors: Vec::new() };
        proof {
            assert(r@ =~= Seq::<ErrorValue>::empty());
        }
        r
    }

    /// Whether any diagnostic has been recorded.
    pub fn has_error(&self) -> (r: bool)
        ensures
            r == (self@.len() > 0),
    {
        !self.errors.is_empty()
    }

    /// Records one diagnostic at the end of the collection.
    pub fn report(&mut self, error_msg: String, line_num: usize)
        ensures
            final(self)@ == old(self)@.push(
                ErrorValue { msg: error_msg@, line: line_num as int },
            ),
    {
        let ghost pre = self@;
        let ghost m = error_msg@;
        let lox_error = LoxError { error_msg, line_num };
        self.errors.push(lox_error);
        proof {
            assert(self@ =~= pre.push(ErrorValue { msg: m, line: line_num as int }));
        }
    }

    /// Renders every diagnostic, in insertion order, one line of the form
    /// `[line N] Error: message` per entry.
    pub fn display_errors(&self, _source_code: &str) -> (r: String)
        ensures
            r@ == error_report(self@),
    {
        let mut r = String::new();
        let mut i: usize = 0;
        proof {
            assert(self@.subrange(0, 0) =~= Seq::<ErrorValue>::empty());
        }
        while i < self.errors.len()
            invariant
                i <= self.errors@.len(),
                self@.len() == self.errors@.len(),
                r@ == error_report(self@.subrange(0, i as int)),
            decreases self.errors@.len() - i,
        {
            r.append("[line ");
            let l = usize_to_string(self.errors[i].line_num);
            r.append(l.as_str());
            r.append("] Error: ");
            r.append(self.errors[i].error_msg.as_str());
            r.append("\n");
            proof {
                assert(self@.subrange(0, i + 1 as int).drop_last() =~= self@.subrange(0, i as int));
                assert(self@.subrange(0, i + 1 as int).last() == self@[i as int]);
                assert(r@ =~= error_report(self@.subrange(0, i + 1 as int)));
            }
            i = i + 1;
        }
        proof {
            assert(self@.subrange(0, self@.len() as int) =~= self@);
        }
        r
    }
}

} // verus!
