//! The diagnostics that evaluating a ledger can raise.

use vstd::prelude::*;
use vstd::string::*;
use crate::data::{DebugLine, Directive, DirectiveView};
use crate::render::line_text;

verus! {

/// The kinds of diagnostic.
#[derive(Clone, Copy, Debug, PartialEq, Eq, Hash, Structural)]
pub enum ErrorType {
    /// A line of the source that is no directive.
    Badline,
    /// A transaction with more than one posting without an amount.
    MultipleEmptyPostings,
    /// A transaction whose postings of some currency do not sum to zero.
    UnbalancedTransaction,
    /// A posting to an account that was never opened.
    NoAccount,
    /// A posting to an account that was closed.
    ClosedAccount,
    /// An open of an account that is open.
    DuplicateOpen,
    /// A close of an account that is closed.
    DuplicateClose,
    /// A balance assertion that the running balance does not meet.
    BalanceAssertion,
    /// A pad that was replaced before any assertion drew on it.
    UnusedPad,
    /// A posting in a currency that the account was not opened for.
    InvalidCcy,
}

/// The view of a `BeanError`.
pub struct ErrorView {
    pub ty: ErrorType,
    pub line: nat,
    pub msg: Seq<char>,
}

/// A diagnostic: its kind, the line it is about and a message.
#[derive(Debug)]
pub struct BeanError {
    pub ty: ErrorType,
    pub debug: DebugLine,
    pub msg: String,
}

impl View for BeanError {
    type V = ErrorView;

    open spec fn view(&self) -> ErrorView {
        ErrorView { ty: self.ty, line: self.debug.line as nat, msg: self.msg@ }
    }
}

impl Clone for BeanError {
    fn clone(&self) -> (r: Self)
        ensures
            r@ == self@,
    {
        BeanError { ty: self.ty, debug: self.debug, msg: self.msg.clone() }
    }
}

/// The view of a list of diagnostics.
pub open spec fn errors_view(v: Seq<BeanError>) -> Seq<ErrorView> {
    v.map_values(|e: BeanError| e@)
}

/// The diagnostic of the given kind and line whose message is `msg`,
/// followed, where a directive is given, by its written form on a new line.
pub open spec fn diagnostic(
    ty: ErrorType,
    line: nat,
    msg: Seq<char>,
    dir: Option<DirectiveView>,
) -> ErrorView {
    ErrorView {
        ty,
        line,
        msg: match dir {
            Some(d) => msg + "\n"@ + d.text(),
            None => msg,
        },
    }
}

impl ErrorView {
    /// The written form of a diagnostic.
    pub open spec fn text(self) -> Seq<char> {
        "line:"@ + line_text(self.line) + ":  "@ + self.msg
    }
}

impl BeanError {
    /// The diagnostic of the given kind and line. Its message is `msg`,
    /// followed, where a directive is given, by its written form on a new line.
    pub fn new(ty: ErrorType, debug: &DebugLine, msg: &str, dir: Option<&Directive>) -> (r: Self)
        ensures
            r@ == diagnostic(
                ty,
                debug.line as nat,
                msg@,
                match dir {
                    Some(d) => Some(d@),
                    None => None,
                },
            ),
    {
        let mut msg = String::from_str(msg);
        match dir {
            Some(d) => {
                msg.append("\n");
                msg.append(d.to_text().as_str());
            },
            None => {},
        }
        BeanError { ty, debug: *debug, msg }
    }

    /// Writes the diagnostic: its line, then its message.
    pub fn to_text(&self) -> (r: String)
        ensures
            r@ == self@.text(),
    {
        let mut s = String::from_str("line:");
        s.append(self.debug.to_text().as_str());
        s.append(":  ");
        s.append(self.msg.as_str());
        s
    }
}

} // verus!
