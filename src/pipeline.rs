//! A batch of transaction rows, from text to ledger: the rows are read, each
//! is decoded and applied in order, and every failure is collected without
//! stopping the batch.

use crate::account::{Account, AccountView};
use crate::codec::{
    account_of_row, decode_account, decode_transaction, layout_of_header, texts, transaction_of_row,
    DecodeError, RecordLayout,
};
use crate::engine::{after, reloaded, run, views, Engine, LedgerView};
use crate::transaction::{ClientId, EngineError, Transaction, TxView};
use vstd::prelude::*;

verus! {

/// What the `csv` reader makes of a text whose first line is a header: the
/// header's fields, and each following record's fields, or `None` for a
/// record it could not read.
pub uninterp spec fn csv_table_of(s: Seq<char>) -> (Seq<Seq<char>>, Seq<Option<Seq<Seq<char>>>>);

/// The texts of the rows of a table.
pub open spec fn row_texts(rows: Seq<Option<Vec<String>>>) -> Seq<Option<Seq<Seq<char>>>> {
    rows.map_values(|r: Option<Vec<String>>| row_text(r))
}

/// Relies on `csv::ReaderBuilder` with headers on, `Reader::headers` and
/// `Reader::records`: the fields of the header and of every record, as the
/// reader splits them; the result depends on the text alone.
#[verifier::external_body]
fn read_csv_table(text: &str) -> (r: (Vec<String>, Vec<Option<Vec<String>>>))
    ensures
        (texts(r.0@), row_texts(r.1@)) == csv_table_of(text@),
{
    let mut reader = csv::ReaderBuilder::new().has_headers(true).from_reader(text.as_bytes());
    let header: Vec<String> = match reader.headers() {
        Ok(h) => h.iter().map(|f| f.to_string()).collect(),
        Err(_) => Vec::new(),
    };
    let rows: Vec<Option<Vec<String>>> = reader
        .records()
        .map(|r| r.ok().map(|rec| rec.iter().map(|f| f.to_string()).collect()))
        .collect();
    (header, rows)
}

/// Why one row of a batch failed.
#[derive(Clone, Debug, PartialEq)]
pub enum RowError {
    /// The header lacks the `type`, `client` or `tx` column.
    MissingColumns,
    /// The row at this position could not be read as fields.
    Unreadable(usize),
    /// The row at this position could not be read as a record.
    Undecodable(usize, DecodeError),
    /// The record at this position was rejected by the ledger.
    Rejected(usize, Transaction, EngineError),
}

pub ghost enum RowErrorView {
    MissingColumns,
    Unreadable(usize),
    Undecodable(usize, DecodeError),
    Rejected(usize, TxView, EngineError),
}

impl View for RowError {
    type V = RowErrorView;

    open spec fn view(&self) -> RowErrorView {
        match self {
            RowError::MissingColumns => RowErrorView::MissingColumns,
            RowError::Unreadable(i) => RowErrorView::Unreadable(*i),
            RowError::Undecodable(i, e) => RowErrorView::Undecodable(*i, *e),
            RowError::Rejected(i, t, e) => RowErrorView::Rejected(*i, t@, *e),
        }
    }
}

/// The views of a sequence of row errors.
pub open spec fn error_views(es: Seq<RowError>) -> Seq<RowErrorView> {
    es.map_values(|e: RowError| e@)
}

/// The ledger after one row is decoded under `l` and, if it decodes,
/// applied.
pub open spec fn row_after(s: LedgerView, row: Option<Seq<Seq<char>>>, l: RecordLayout) -> LedgerView {
    match row {
        Some(f) => match transaction_of_row(f, l) {
            Ok(t) => after(s, t),
            Err(_) => s,
        },
        None => s,
    }
}

/// How the row at position `i` fails on ledger `s`, if it does.
pub open spec fn row_failure(s: LedgerView, i: usize, row: Option<Seq<Seq<char>>>, l: RecordLayout) -> Option<RowErrorView> {
    match row {
        None => Some(RowErrorView::Unreadable(i)),
        Some(f) => match transaction_of_row(f, l) {
            Err(e) => Some(RowErrorView::Undecodable(i, e)),
            Ok(t) => match crate::engine::step(s, t) {
                Ok(_) => None,
                Err(e) => Some(RowErrorView::Rejected(i, t, e)),
            },
        },
    }
}

/// The ledger after each row is decoded under `l` and, if it decodes,
/// applied, in order.
pub open spec fn table_run(s: LedgerView, rows: Seq<Option<Seq<Seq<char>>>>, l: RecordLayout) -> LedgerView
    decreases rows.len(),
{
    if rows.len() == 0 {
        s
    } else {
        row_after(table_run(s, rows.drop_last(), l), rows.last(), l)
    }
}

/// The failures of `table_run(s, rows, l)`, in the order of the rows.
pub open spec fn table_errors(s: LedgerView, rows: Seq<Option<Seq<Seq<char>>>>, l: RecordLayout) -> Seq<RowErrorView>
    decreases rows.len(),
{
    if rows.len() == 0 {
        Seq::empty()
    } else {
        let prev = table_errors(s, rows.drop_last(), l);
        match row_failure(table_run(s, rows.drop_last(), l), (rows.len() - 1) as usize, rows.last(), l) {
            Some(e) => prev.push(e),
            None => prev,
        }
    }
}

/// The records among the rows that can be read and decode under `l`, in
/// order.
pub open spec fn decoded_records(rows: Seq<Option<Seq<Seq<char>>>>, l: RecordLayout) -> Seq<TxView>
    decreases rows.len(),
{
    if rows.len() == 0 {
        Seq::empty()
    } else {
        let prev = decoded_records(rows.drop_last(), l);
        match rows.last() {
            Some(f) => match transaction_of_row(f, l) {
                Ok(t) => prev.push(t),
                Err(_) => prev,
            },
            None => prev,
        }
    }
}

/// Running a table is running the records that decode from it, so every
/// law about `run` holds of a batch of rows.
pub proof fn lemma_table_run_is_run(s: LedgerView, rows: Seq<Option<Seq<Seq<char>>>>, l: RecordLayout)
    ensures
        table_run(s, rows, l) == run(s, decoded_records(rows, l)),
    decreases rows.len(),
{
    if rows.len() > 0 {
        lemma_table_run_is_run(s, rows.drop_last(), l);
        let prev = decoded_records(rows.drop_last(), l);
        if let Some(f) = rows.last() {
            if let Ok(t) = transaction_of_row(f, l) {
                assert(prev.push(t).drop_last() =~= prev);
            }
        }
    }
}

/// The text view of one row.
pub open spec fn row_text(row: Option<Vec<String>>) -> Option<Seq<Seq<char>>> {
    match row {
        Some(v) => Some(texts(v@)),
        None => None,
    }
}

impl Engine {
    /// Decodes the row at position `index` under `layout` and applies it;
    /// returns how it failed, if it did.
    pub fn process_row(&mut self, layout: &RecordLayout, index: usize, row: &Option<Vec<String>>) -> (r:
        Option<RowError>)
        requires
            old(self).wf(),
        ensures
            final(self).wf(),
            final(self).ledger() == row_after(old(self).ledger(), row_text(*row), *layout),
            match r {
                Some(e) => row_failure(old(self).ledger(), index, row_text(*row), *layout) == Some(e@),
                None => row_failure(old(self).ledger(), index, row_text(*row), *layout) is None,
            },
    {
        match row {
            None => Some(RowError::Unreadable(index)),
            Some(fields) => match decode_transaction(fields, layout) {
                Err(e) => Some(RowError::Undecodable(index, e)),
                Ok(t) => match self.process_transaction(&t) {
                    Ok(()) => None,
                    Err(e) => Some(RowError::Rejected(index, t, e)),
                },
            },
        }
    }
}

impl Engine {
    /// Decodes each row under `layout` and applies it, in order; a row that
    /// fails is recorded and skipped. Returns the failures in row order.
    pub fn process_rows(&mut self, layout: &RecordLayout, rows: &Vec<Option<Vec<String>>>) -> (r: Vec<
        RowError,
    >)
        requires
            old(self).wf(),
        ensures
            final(self).wf(),
            final(self).ledger() == table_run(old(self).ledger(), row_texts(rows@), *layout),
            error_views(r@) == table_errors(old(self).ledger(), row_texts(rows@), *layout),
    {
        let ghost start = self.ledger();
        let ghost all = row_texts(rows@);
        let mut errors: Vec<RowError> = Vec::new();
        let mut i: usize = 0;
        while i < rows.len()
            invariant
                i <= rows@.len(),
                all == row_texts(rows@),
                self.wf(),
                self.ledger() == table_run(start, all.take(i as int), *layout),
                error_views(errors@) == table_errors(start, all.take(i as int), *layout),
            decreases rows@.len() - i,
        {
            let ghost prefix = all.take(i as int);
            proof {
                assert(all.take(i + 1).drop_last() =~= prefix);
            }
            proof {
                assert(all[i as int] == row_text(rows@[i as int]));
            }
            match self.process_row(layout, i, &rows[i]) {
                Some(e) => errors.push(e),
                None => {},
            }
            proof {
                assert(error_views(errors@) =~= table_errors(start, all.take(i + 1), *layout));
            }
            i = i + 1;
        }
        proof {
            assert(all.take(i as int) =~= all);
        }
        errors
    }

    /// Reads a batch of rows, header first, and applies them in order.
    /// `Ok` when every row applied; otherwise every failure, in row order.
    pub fn read_and_process_transactions(&mut self, text: &str) -> (r: Result<(), Vec<RowError>>)
        requires
            old(self).wf(),
        ensures
            final(self).wf(),
            match layout_of_header(csv_table_of(text@).0) {
                None => {
                    &&& final(self).ledger() == old(self).ledger()
                    &&& r matches Err(es) && error_views(es@) == seq![RowErrorView::MissingColumns]
                },
                Some(l) => {
                    &&& final(self).ledger() == table_run(old(self).ledger(), csv_table_of(text@).1, l)
                    &&& final(self).ledger() == run(
                        old(self).ledger(),
                        decoded_records(csv_table_of(text@).1, l),
                    )
                    &&& match r {
                        Ok(()) => table_errors(old(self).ledger(), csv_table_of(text@).1, l).len() == 0,
                        Err(es) => {
                            &&& error_views(es@) == table_errors(old(self).ledger(), csv_table_of(text@).1, l)
                            &&& es@.len() > 0
                        },
                    }
                },
            },
    {
        let (header, rows) = read_csv_table(text);
        match RecordLayout::from_header(&header) {
            None => {
                let mut errors: Vec<RowError> = Vec::new();
                errors.push(RowError::MissingColumns);
                proof {
                    assert(error_views(errors@) =~= seq![RowErrorView::MissingColumns]);
                }
                Err(errors)
            },
            Some(layout) => {
                proof {
                    lemma_table_run_is_run(self.ledger(), row_texts(rows@), layout);
                }
                let errors = self.process_rows(&layout, &rows);
                if errors.len() == 0 {
                    Ok(())
                } else {
                    Err(errors)
                }
            },
        }
    }
}

/// Why a snapshot could not be read in.
#[derive(Clone, Copy, Debug, PartialEq, Eq, Structural)]
pub enum EngineSerDeserError {
    /// A row could not be read as fields, or lacks one, or the log's
    /// header lacks a needed column.
    Csv,
    InvalidClientId,
    InvalidDecimal,
    InvalidBool,
}

/// The snapshot error for a row that did not decode.
pub open spec fn snapshot_error(e: DecodeError) -> EngineSerDeserError {
    match e {
        DecodeError::InvalidClientId => EngineSerDeserError::InvalidClientId,
        DecodeError::InvalidDecimal => EngineSerDeserError::InvalidDecimal,
        DecodeError::InvalidBool => EngineSerDeserError::InvalidBool,
        _ => EngineSerDeserError::Csv,
    }
}

fn to_snapshot_error(e: DecodeError) -> (r: EngineSerDeserError)
    ensures
        r == snapshot_error(e),
{
    match e {
        DecodeError::InvalidClientId => EngineSerDeserError::InvalidClientId,
        DecodeError::InvalidDecimal => EngineSerDeserError::InvalidDecimal,
        DecodeError::InvalidBool => EngineSerDeserError::InvalidBool,
        _ => EngineSerDeserError::Csv,
    }
}

/// The logged records of a snapshot's rows, in order, or the error of the
/// first row that cannot be read or does not decode under `l`.
pub open spec fn decoded_log(rows: Seq<Option<Seq<Seq<char>>>>, l: RecordLayout) -> Result<
    Seq<TxView>,
    EngineSerDeserError,
>
    decreases rows.len(),
{
    if rows.len() == 0 {
        Ok(Seq::empty())
    } else {
        match decoded_log(rows.drop_last(), l) {
            Err(e) => Err(e),
            Ok(prev) => match rows.last() {
                None => Err(EngineSerDeserError::Csv),
                Some(f) => match transaction_of_row(f, l) {
                    Ok(t) => Ok(prev.push(t)),
                    Err(e) => Err(snapshot_error(e)),
                },
            },
        }
    }
}

/// The accounts of a snapshot's rows, in order, or the error of the first
/// row that does not decode.
pub open spec fn decoded_accounts(rows: Seq<Option<Seq<Seq<char>>>>) -> Result<
    Seq<(ClientId, AccountView)>,
    EngineSerDeserError,
>
    decreases rows.len(),
{
    if rows.len() == 0 {
        Ok(Seq::empty())
    } else {
        match decoded_accounts(rows.drop_last()) {
            Err(e) => Err(e),
            Ok(prev) => match rows.last() {
                None => Err(EngineSerDeserError::Csv),
                Some(f) => match account_of_row(f) {
                    Ok(a) => Ok(prev.push(a)),
                    Err(e) => Err(snapshot_error(e)),
                },
            },
        }
    }
}

/// The records of a transaction log dump, or the first row's error.
fn decode_log_rows(rows: &Vec<Option<Vec<String>>>, layout: &RecordLayout) -> (r: Result<
    Vec<Transaction>,
    EngineSerDeserError,
>)
    ensures
        match decoded_log(row_texts(rows@), *layout) {
            Ok(v) => r matches Ok(ts) && views(ts@) == v,
            Err(e) => r == Err::<Vec<Transaction>, EngineSerDeserError>(e),
        },
{
    let ghost all = row_texts(rows@);
    let mut out: Vec<Transaction> = Vec::new();
    let mut i: usize = 0;
    proof {
        assert(all.take(0) =~= Seq::<Option<Seq<Seq<char>>>>::empty());
        assert(views(out@) =~= Seq::<TxView>::empty());
    }
    while i < rows.len()
        invariant
            i <= rows@.len(),
            all == row_texts(rows@),
            decoded_log(all.take(i as int), *layout) == Ok::<Seq<TxView>, EngineSerDeserError>(
                views(out@),
            ),
        decreases rows@.len() - i,
    {
        proof {
            assert(all.take(i + 1).drop_last() =~= all.take(i as int));
        }
        match &rows[i] {
            None => {
                proof {
                    lemma_decoded_log_stops(all, i as int + 1, *layout);
                }
                return Err(EngineSerDeserError::Csv);
            },
            Some(fields) => {
                match decode_transaction(fields, layout) {
                    Ok(t) => {
                        out.push(t);
                        proof {
                            assert(views(out@) =~= (decoded_log(all.take(i as int), *layout)->Ok_0).push(
                                t@,
                            ));
                        }
                    },
                    Err(e) => {
                        proof {
                            lemma_decoded_log_stops(all, i as int + 1, *layout);
                        }
                        return Err(to_snapshot_error(e));
                    },
                }
            },
        }
        i = i + 1;
    }
    proof {
        assert(all.take(i as int) =~= all);
    }
    Ok(out)
}

/// Once a prefix of the log rows fails, so do the rows.
proof fn lemma_decoded_log_stops(rows: Seq<Option<Seq<Seq<char>>>>, n: int, l: RecordLayout)
    requires
        0 <= n <= rows.len(),
        decoded_log(rows.take(n), l) is Err,
    ensures
        decoded_log(rows, l) == decoded_log(rows.take(n), l),
    decreases rows.len() - n,
{
    if n < rows.len() {
        assert(rows.take(n + 1).drop_last() =~= rows.take(n));
        lemma_decoded_log_stops(rows, n + 1, l);
    } else {
        assert(rows.take(n) =~= rows);
    }
}

/// The accounts of an account dump, or the first row's error.
fn decode_account_rows(rows: &Vec<Option<Vec<String>>>) -> (r: Result<
    Vec<(ClientId, Account)>,
    EngineSerDeserError,
>)
    ensures
        match decoded_accounts(row_texts(rows@)) {
            Ok(v) => r matches Ok(a) && a@.map_values(|p: (ClientId, Account)| (p.0, p.1@)) == v,
            Err(e) => r == Err::<Vec<(ClientId, Account)>, EngineSerDeserError>(e),
        },
{
    let ghost all = row_texts(rows@);
    let mut out: Vec<(ClientId, Account)> = Vec::new();
    let mut i: usize = 0;
    proof {
        assert(all.take(0) =~= Seq::<Option<Seq<Seq<char>>>>::empty());
        assert(out@.map_values(|p: (ClientId, Account)| (p.0, p.1@)) =~= Seq::<
            (ClientId, AccountView),
        >::empty());
    }
    while i < rows.len()
        invariant
            i <= rows@.len(),
            all == row_texts(rows@),
            decoded_accounts(all.take(i as int)) == Ok::<Seq<(ClientId, AccountView)>, EngineSerDeserError>(
                out@.map_values(|p: (ClientId, Account)| (p.0, p.1@)),
            ),
        decreases rows@.len() - i,
    {
        proof {
            assert(all.take(i + 1).drop_last() =~= all.take(i as int));
        }
        match &rows[i] {
            None => {
                proof {
                    lemma_decoded_accounts_stops(all, i as int + 1);
                }
                return Err(EngineSerDeserError::Csv);
            },
            Some(fields) => {
                match decode_account(fields) {
                    Ok(a) => {
                        out.push(a);
                        proof {
                            assert(out@.map_values(|p: (ClientId, Account)| (p.0, p.1@)) =~= (
                            decoded_accounts(all.take(i as int))->Ok_0).push((a.0, a.1@)));
                        }
                    },
                    Err(e) => {
                        proof {
                            lemma_decoded_accounts_stops(all, i as int + 1);
                        }
                        return Err(to_snapshot_error(e));
                    },
                }
            },
        }
        i = i + 1;
    }
    proof {
        assert(all.take(i as int) =~= all);
    }
    Ok(out)
}

/// Once a prefix of the rows fails, so do the rows.
proof fn lemma_decoded_accounts_stops(rows: Seq<Option<Seq<Seq<char>>>>, n: int)
    requires
        0 <= n <= rows.len(),
        decoded_accounts(rows.take(n)) is Err,
    ensures
        decoded_accounts(rows) == decoded_accounts(rows.take(n)),
    decreases rows.len() - n,
{
    if n < rows.len() {
        assert(rows.take(n + 1).drop_last() =~= rows.take(n));
        lemma_decoded_accounts_stops(rows, n + 1);
    } else {
        assert(rows.take(n) =~= rows);
    }
}

impl Engine {
    /// Reads in the dumps of a previous session, a transaction log and an
    /// account table, each header first, without checking them against each
    /// other. A log header without the needed columns, or a row of either
    /// dump that cannot be read or does not decode, fails the whole reload
    /// (log rows are read first) and leaves the ledger as it was.
    pub fn load_from_previous_session_csvs(&mut self, transactions_text: &str, accounts_text: &str) -> (r:
        Result<(), EngineSerDeserError>)
        requires
            old(self).wf(),
        ensures
            final(self).wf(),
            match layout_of_header(csv_table_of(transactions_text@).0) {
                None => {
                    &&& r == Err::<(), EngineSerDeserError>(EngineSerDeserError::Csv)
                    &&& final(self).ledger() == old(self).ledger()
                },
                Some(l) => match decoded_log(csv_table_of(transactions_text@).1, l) {
                    Err(e) => {
                        &&& r == Err::<(), EngineSerDeserError>(e)
                        &&& final(self).ledger() == old(self).ledger()
                    },
                    Ok(log) => match decoded_accounts(csv_table_of(accounts_text@).1) {
                        Err(e) => {
                            &&& r == Err::<(), EngineSerDeserError>(e)
                            &&& final(self).ledger() == old(self).ledger()
                        },
                        Ok(accounts) => {
                            &&& r is Ok
                            &&& final(self).ledger() == reloaded(old(self).ledger(), log, accounts)
                        },
                    },
                },
            },
    {
        let (tx_header, tx_rows) = read_csv_table(transactions_text);
        let layout = match RecordLayout::from_header(&tx_header) {
            Some(l) => l,
            None => return Err(EngineSerDeserError::Csv),
        };
        let log = match decode_log_rows(&tx_rows, &layout) {
            Ok(l) => l,
            Err(e) => return Err(e),
        };
        let (_account_header, account_rows) = read_csv_table(accounts_text);
        let accounts = match decode_account_rows(&account_rows) {
            Ok(a) => a,
            Err(e) => return Err(e),
        };
        self.load_from_previous_session(&log, &accounts);
        Ok(())
    }
}

} // verus!
