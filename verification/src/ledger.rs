//! A ledger: its directives, the diagnostics raised so far and its options.

use vstd::prelude::*;
use crate::data::{Directive, DirectiveView, Options, directives_view};
use crate::error::{BeanError, ErrorView, errors_view};

verus! {

/// The view of a `Ledger`.
pub struct LedgerView {
    pub dirs: Seq<DirectiveView>,
    pub errs: Seq<ErrorView>,
    pub title: Seq<char>,
    pub operating_currency: Seq<char>,
}

/// The directives of a ledger, the diagnostics raised so far and the
/// options.
pub struct Ledger {
    pub dirs: Vec<Directive>,
    pub errs: Vec<BeanError>,
    pub opts: Options,
}

impl View for Ledger {
    type V = LedgerView;

    open spec fn view(&self) -> LedgerView {
        LedgerView {
            dirs: directives_view(self.dirs@),
            errs: errors_view(self.errs@),
            title: self.opts.title@,
            operating_currency: self.opts.operating_currency@,
        }
    }
}

} // verus!
