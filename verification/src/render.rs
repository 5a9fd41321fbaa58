//! The written form of each record, as it appears in diagnostics and in
//! listings.

use vstd::prelude::*;
use vstd::string::*;
use crate::data::{
    Amount, AmountView, Balance, BalanceView, Close, CloseView, Commodity, CommodityView,
    ConfigCustom, ConfigCustomView, ConfigOption, ConfigOptionView, DebugLine, Directive,
    DirectiveView, Document, DocumentView,
    Metadata, MetadataView, Note, NoteView, Open, OpenView, Pad, PadView, Posting, PostingView,
    Price, PriceView, Query, QueryView, Transaction, TransactionView, meta_view, postings_view,
};
use crate::date::{Date, date_text};
use crate::decimal::decimal_text;
use crate::text::{nat_text, usize_text};

verus! {

/// The written form of a day.
pub open spec fn day_text(d: Date) -> Seq<char> {
    date_text(d.year as int, d.month as int, d.day as int)
}

/// The written form of a line number.
pub open spec fn line_text(line: nat) -> Seq<char> {
    "line:"@ + nat_text(line)
}

/// The written forms of the metadata, each on a line of its own.
pub open spec fn meta_text(ms: Seq<MetadataView>) -> Seq<char>
    decreases ms.len(),
{
    if ms.len() == 0 {
        Seq::empty()
    } else {
        meta_text(ms.drop_last()) + "\n"@ + ms.last().text()
    }
}

/// The written forms of the postings, each on a line of its own.
pub open spec fn postings_text(ps: Seq<PostingView>) -> Seq<char>
    decreases ps.len(),
{
    if ps.len() == 0 {
        Seq::empty()
    } else {
        postings_text(ps.drop_last()) + "\n"@ + ps.last().text()
    }
}

impl AmountView {
    /// The number and the currency.
    pub open spec fn text(self) -> Seq<char> {
        decimal_text(self.number.0, self.number.1) + " "@ + self.ccy
    }
}

impl MetadataView {
    /// Key and value behind two blanks.
    pub open spec fn text(self) -> Seq<char> {
        "  "@ + self.key + ":"@ + self.val
    }
}

impl PostingView {
    /// The account behind two blanks, and the amount if there is one.
    pub open spec fn text(self) -> Seq<char> {
        "  "@ + self.account + " "@ + match self.amount {
            Some(a) => a.text(),
            None => Seq::empty(),
        }
    }
}

impl ConfigCustomView {
    /// A custom directive is not written out.
    pub open spec fn text(self) -> Seq<char> {
        "-- ignore custom"@
    }
}

impl ConfigOptionView {
    /// Key and value.
    pub open spec fn text(self) -> Seq<char> {
        self.key + " "@ + self.val
    }
}

impl CommodityView {
    /// The day, the word `commodity`, the currency, and the metadata on lines of
    /// their own.
    pub open spec fn text(self) -> Seq<char> {
        day_text(self.date) + " commodity "@ + self.ccy + meta_text(self.meta)
    }
}

impl OpenView {
    /// The day and the account.
    pub open spec fn text(self) -> Seq<char> {
        day_text(self.date) + " "@ + self.account
    }
}

impl CloseView {
    /// The day and the account.
    pub open spec fn text(self) -> Seq<char> {
        day_text(self.date) + " "@ + self.account
    }
}

impl BalanceView {
    /// The day, the account and the amount.
    pub open spec fn text(self) -> Seq<char> {
        day_text(self.date) + " "@ + self.account + " "@ + self.amount.text()
    }
}

impl PadView {
    /// The day and the two accounts.
    pub open spec fn text(self) -> Seq<char> {
        day_text(self.date) + " "@ + self.account_to + " "@ + self.account_from
    }
}

impl PriceView {
    /// The day, the commodity and the amount.
    pub open spec fn text(self) -> Seq<char> {
        day_text(self.date) + " "@ + self.commodity + " "@ + self.amount.text()
    }
}

impl DocumentView {
    /// The day, the word `document`, the account and the path.
    pub open spec fn text(self) -> Seq<char> {
        day_text(self.date) + " document "@ + self.account + " "@ + self.path
    }
}

impl NoteView {
    /// The day, the word `note`, the account and the note.
    pub open spec fn text(self) -> Seq<char> {
        day_text(self.date) + " note "@ + self.account + " "@ + self.note
    }
}

impl QueryView {
    /// The day, the word `query`, the name and the query.
    pub open spec fn text(self) -> Seq<char> {
        day_text(self.date) + " query "@ + self.name + " "@ + self.query
    }
}

impl TransactionView {
    /// The day, the type, the payee if there is one, the narration, and then
    /// metadata and postings on lines of their own.
    pub open spec fn text(self) -> Seq<char> {
        day_text(self.date) + " "@ + self.ty + " "@ + match self.payee {
            Some(p) => p,
            None => Seq::empty(),
        } + " "@ + self.narration + meta_text(self.meta) + postings_text(self.postings)
    }
}

impl DirectiveView {
    /// The written form of the record that the directive holds.
    pub open spec fn text(self) -> Seq<char> {
        match self {
            DirectiveView::ConfigCustom(d) => d.text(),
            DirectiveView::ConfigOption(d) => d.text(),
            DirectiveView::Commodity(d) => d.text(),
            DirectiveView::Open(d) => d.text(),
            DirectiveView::Close(d) => d.text(),
            DirectiveView::Balance(d) => d.text(),
            DirectiveView::Pad(d) => d.text(),
            DirectiveView::Price(d) => d.text(),
            DirectiveView::Document(d) => d.text(),
            DirectiveView::Note(d) => d.text(),
            DirectiveView::Query(d) => d.text(),
            DirectiveView::Transaction(d) => d.text(),
        }
    }
}

impl DebugLine {
    /// Writes the line number behind the word `line`.
    pub fn to_text(&self) -> (r: String)
        ensures
            r@ == line_text(self.line as nat),
    {
        let mut s = String::from_str("line:");
        s.append(usize_text(self.line).as_str());
        s
    }
}

impl Amount {
    /// Writes the record as its view describes it.
    pub fn to_text(&self) -> (r: String)
        ensures
            r@ == self@.text(),
    {
        let mut s = self.number.to_text();
        s.append(" ");
        s.append(self.ccy.as_str());
        s
    }
}

impl Metadata {
    /// Writes the record as its view describes it.
    pub fn to_text(&self) -> (r: String)
        ensures
            r@ == self@.text(),
    {
        let mut s = String::from_str("  ");
        s.append(self.key.as_str());
        s.append(":");
        s.append(self.val.as_str());
        s
    }
}

impl Posting {
    /// Writes the record as its view describes it.
    pub fn to_text(&self) -> (r: String)
        ensures
            r@ == self@.text(),
    {
        let mut s = String::from_str("  ");
        s.append(self.account.as_str());
        s.append(" ");
        match &self.amount {
            Some(a) => {
                s.append(a.to_text().as_str());
            },
            None => {
                assert(s@ + Seq::<char>::empty() =~= s@);
            },
        }
        s
    }
}

/// Writes the metadata, each on a line of its own.
pub fn meta_to_text(ms: &Vec<Metadata>) -> (r: String)
    ensures
        r@ == meta_text(meta_view(ms@)),
{
    let mut s = String::new();
    let mut i: usize = 0;
    while i < ms.len()
        invariant
            i <= ms.len(),
            s@ == meta_text(meta_view(ms@).take(i as int)),
        decreases ms.len() - i,
    {
        proof {
            let next = meta_view(ms@).take(i + 1);
            assert(next.drop_last() =~= meta_view(ms@).take(i as int));
            assert(next.last() == ms@[i as int]@);
        }
        s.append("\n");
        s.append(ms[i].to_text().as_str());
        i += 1;
    }
    assert(meta_view(ms@).take(i as int) =~= meta_view(ms@));
    s
}

/// Writes the postings, each on a line of its own.
pub fn postings_to_text(ps: &Vec<Posting>) -> (r: String)
    ensures
        r@ == postings_text(postings_view(ps@)),
{
    let mut s = String::new();
    let mut i: usize = 0;
    while i < ps.len()
        invariant
            i <= ps.len(),
            s@ == postings_text(postings_view(ps@).take(i as int)),
        decreases ps.len() - i,
    {
        proof {
            let next = postings_view(ps@).take(i + 1);
            assert(next.drop_last() =~= postings_view(ps@).take(i as int));
            assert(next.last() == ps@[i as int]@);
        }
        s.append("\n");
        s.append(ps[i].to_text().as_str());
        i += 1;
    }
    assert(postings_view(ps@).take(i as int) =~= postings_view(ps@));
    s
}

impl ConfigCustom {
    /// Writes the record as its view describes it.
    pub fn to_text(&self) -> (r: String)
        ensures
            r@ == self@.text(),
    {
        String::from_str("-- ignore custom")
    }
}

impl ConfigOption {
    /// Writes the record as its view describes it.
    pub fn to_text(&self) -> (r: String)
        ensures
            r@ == self@.text(),
    {
        let mut s = self.key.clone();
        s.append(" ");
        s.append(self.val.as_str());
        s
    }
}

impl Commodity {
    /// Writes the record as its view describes it.
    pub fn to_text(&self) -> (r: String)
        ensures
            r@ == self@.text(),
    {
        let mut s = self.date.to_text();
        s.append(" commodity ");
        s.append(self.ccy.as_str());
        s.append(meta_to_text(&self.meta).as_str());
        s
    }
}

impl Open {
    /// Writes the record as its view describes it.
    pub fn to_text(&self) -> (r: String)
        ensures
            r@ == self@.text(),
    {
        let mut s = self.date.to_text();
        s.append(" ");
        s.append(self.account.as_str());
        s
    }
}

impl Close {
    /// Writes the record as its view describes it.
    pub fn to_text(&self) -> (r: String)
        ensures
            r@ == self@.text(),
    {
        let mut s = self.date.to_text();
        s.append(" ");
        s.append(self.account.as_str());
        s
    }
}

impl Balance {
    /// Writes the record as its view describes it.
    pub fn to_text(&self) -> (r: String)
        ensures
            r@ == self@.text(),
    {
        let mut s = self.date.to_text();
        s.append(" ");
        s.append(self.account.as_str());
        s.append(" ");
        s.append(self.amount.to_text().as_str());
        s
    }
}

impl Pad {
    /// Writes the record as its view describes it.
    pub fn to_text(&self) -> (r: String)
        ensures
            r@ == self@.text(),
    {
        let mut s = self.date.to_text();
        s.append(" ");
        s.append(self.account_to.as_str());
        s.append(" ");
        s.append(self.account_from.as_str());
        s
    }
}

impl Price {
    /// Writes the record as its view describes it.
    pub fn to_text(&self) -> (r: String)
        ensures
            r@ == self@.text(),
    {
        let mut s = self.date.to_text();
        s.append(" ");
        s.append(self.commodity.as_str());
        s.append(" ");
        s.append(self.amount.to_text().as_str());
        s
    }
}

impl Document {
    /// Writes the record as its view describes it.
    pub fn to_text(&self) -> (r: String)
        ensures
            r@ == self@.text(),
    {
        let mut s = self.date.to_text();
        s.append(" document ");
        s.append(self.account.as_str());
        s.append(" ");
        s.append(self.path.as_str());
        s
    }
}

impl Note {
    /// Writes the record as its view describes it.
    pub fn to_text(&self) -> (r: String)
        ensures
            r@ == self@.text(),
    {
        let mut s = self.date.to_text();
        s.append(" note ");
        s.append(self.account.as_str());
        s.append(" ");
        s.append(self.note.as_str());
        s
    }
}

impl Query {
    /// Writes the record as its view describes it.
    pub fn to_text(&self) -> (r: String)
        ensures
            r@ == self@.text(),
    {
        let mut s = self.date.to_text();
        s.append(" query ");
        s.append(self.name.as_str());
        s.append(" ");
        s.append(self.query.as_str());
        s
    }
}

impl Transaction {
    /// Writes the record as its view describes it.
    pub fn to_text(&self) -> (r: String)
        ensures
            r@ == self@.text(),
    {
        let mut s = self.date.to_text();
        s.append(" ");
        s.append(self.ty.as_str());
        s.append(" ");
        match &self.payee {
            Some(p) => {
                s.append(p.as_str());
            },
            None => {
                assert(s@ + Seq::<char>::empty() =~= s@);
            },
        }
        s.append(" ");
        s.append(self.narration.as_str());
        s.append(meta_to_text(&self.meta).as_str());
        s.append(postings_to_text(&self.postings).as_str());
        s
    }
}

impl Directive {
    /// Writes the record as its view describes it.
    pub fn to_text(&self) -> (r: String)
        ensures
            r@ == self@.text(),
    {
        match self {
            Directive::ConfigCustom(d) => d.to_text(),
            Directive::ConfigOption(d) => d.to_text(),
            Directive::Commodity(d) => d.to_text(),
            Directive::Open(d) => d.to_text(),
            Directive::Close(d) => d.to_text(),
            Directive::Balance(d) => d.to_text(),
            Directive::Pad(d) => d.to_text(),
            Directive::Price(d) => d.to_text(),
            Directive::Document(d) => d.to_text(),
            Directive::Note(d) => d.to_text(),
            Directive::Query(d) => d.to_text(),
            Directive::Transaction(d) => d.to_text(),
        }
    }
}

} // verus!
