//! Capabilities: the reads that planners may make of the store.
//!
//! A planner sees the store through these traits alone. Nothing is assumed
//! of an implementation; what a planner returns is stated for every answer
//! that a capability may give.

use crate::entity::{DomainStored, TableStored};
use crate::error::{result_view, DbErrorView, DbResult};
use crate::key::{KeyPartView, OndoKey};
use crate::reference::column_value_reference::{ColumnValueReference, ColumnValueReferenceView};
use crate::reference::effect::Effects;
use crate::reference::table_value_reference::{TableValueReference, TableValueReferenceView};
use crate::value::{TableValue, TableValueView};
use vstd::prelude::*;

verus! {

/// Point lookup of a domain record.
pub trait DomainStoredRequests {
    fn get_domain_stored(&self, cf_name: &str, key: &String) -> DbResult<Option<DomainStored>>;
}

/// Point lookup of a table record.
pub trait TableStoredRequests {
    fn get_table_stored(&self, cf_name: &str, key: &String) -> DbResult<Option<TableStored>>;
}

/// Point lookup of a row.
pub trait TableValueRequests {
    fn get_table_value(&self, cf_name: &str, key: &TableValueReference) -> DbResult<
        Option<TableValue>,
    >;
}

/// Increment of a stored counter: the new value, and the effects that
/// persist it.
pub trait ColumnValueRequests {
    fn increment_column_value(&self, reference: &ColumnValueReference) -> DbResult<(u64, Effects)>;
}

/// Scans of the rows of a table, in ascending order of the encoded key. An
/// item is a row or the error met in reading it.
pub trait TableStoredIteratorRequests {
    fn all_values(&self, value_cf_name: &str) -> DbResult<Vec<DbResult<TableValue>>>;

    fn all_values_with_key_prefix(&self, value_cf_name: &str, key_prefix: OndoKey) -> DbResult<
        Vec<DbResult<TableValue>>,
    >;

    fn all_values_with_key_range(
        &self,
        value_cf_name: &str,
        start_key: OndoKey,
        end_key: OndoKey,
    ) -> DbResult<Vec<DbResult<TableValue>>>;
}

/// Scans of the entries of an index, in ascending order of the encoded key.
/// An item is the payload of an entry or the error met in reading it.
pub trait IndexIteratorRequests {
    fn all_values(&self, value_cf_name: &str) -> DbResult<Vec<DbResult<TableValue>>>;

    fn all_values_with_key_prefix(&self, value_cf_name: &str, key_prefix: OndoKey) -> DbResult<
        Vec<DbResult<TableValue>>,
    >;

    fn all_values_with_key_range(
        &self,
        value_cf_name: &str,
        start_key: OndoKey,
        end_key: OndoKey,
    ) -> DbResult<Vec<DbResult<TableValue>>>;
}

/// `response` is an answer that `requests` may give when asked for the
/// domain record `key` of the column family `cf_name`.
pub open spec fn domain_stored_answer<R: DomainStoredRequests + ?Sized>(
    requests: &R,
    cf_name: Seq<char>,
    key: Seq<char>,
    response: DbResult<Option<DomainStored>>,
) -> bool {
    exists|cf: &str, k: &String|
        cf@ == cf_name && k@ == key && call_ensures(
            R::get_domain_stored,
            (requests, cf, k),
            response,
        )
}

/// `response` is an answer that `requests` may give when asked for the
/// table record `key` of the column family `cf_name`.
pub open spec fn table_stored_answer<R: TableStoredRequests + ?Sized>(
    requests: &R,
    cf_name: Seq<char>,
    key: Seq<char>,
    response: DbResult<Option<TableStored>>,
) -> bool {
    exists|cf: &str, k: &String|
        cf@ == cf_name && k@ == key && call_ensures(
            R::get_table_stored,
            (requests, cf, k),
            response,
        )
}

/// `response` is an answer that `requests` may give when asked for the row
/// `key` of the column family `cf_name`.
pub open spec fn table_value_answer<R: TableValueRequests + ?Sized>(
    requests: &R,
    cf_name: Seq<char>,
    key: TableValueReferenceView,
    response: DbResult<Option<TableValue>>,
) -> bool {
    exists|cf: &str, k: &TableValueReference|
        cf@ == cf_name && k@ == key && call_ensures(
            R::get_table_value,
            (requests, cf, k),
            response,
        )
}

/// `response` is an answer that `requests` may give when asked to increment
/// the counter `reference`.
pub open spec fn increment_answer<R: ColumnValueRequests + ?Sized>(
    requests: &R,
    reference: ColumnValueReferenceView,
    response: DbResult<(u64, Effects)>,
) -> bool {
    exists|k: &ColumnValueReference|
        k@ == reference && call_ensures(R::increment_column_value, (requests, k), response)
}

/// What a scan is asked for: everything, the keys that start with a prefix,
/// or the keys from a start (inclusive) up to an end (exclusive).
pub enum ScanView {
    All,
    Prefix(Seq<KeyPartView>),
    Range(Seq<KeyPartView>, Seq<KeyPartView>),
}

/// `response` is an answer that `requests` may give when asked to scan the
/// rows of the column family `cf_name`.
pub open spec fn table_scan_answer<R: TableStoredIteratorRequests + ?Sized>(
    requests: &R,
    cf_name: Seq<char>,
    scan: ScanView,
    response: DbResult<Vec<DbResult<TableValue>>>,
) -> bool {
    match scan {
        ScanView::All => exists|cf: &str|
            cf@ == cf_name && call_ensures(R::all_values, (requests, cf), response),
        ScanView::Prefix(prefix) => exists|cf: &str, p: OndoKey|
            cf@ == cf_name && p@ == prefix && call_ensures(
                R::all_values_with_key_prefix,
                (requests, cf, p),
                response,
            ),
        ScanView::Range(start, end) => exists|cf: &str, s: OndoKey, e: OndoKey|
            cf@ == cf_name && s@ == start && e@ == end && call_ensures(
                R::all_values_with_key_range,
                (requests, cf, s, e),
                response,
            ),
    }
}

/// `response` is an answer that `requests` may give when asked to scan the
/// entries of the index column family `cf_name`.
pub open spec fn index_scan_answer<R: IndexIteratorRequests + ?Sized>(
    requests: &R,
    cf_name: Seq<char>,
    scan: ScanView,
    response: DbResult<Vec<DbResult<TableValue>>>,
) -> bool {
    match scan {
        ScanView::All => exists|cf: &str|
            cf@ == cf_name && call_ensures(R::all_values, (requests, cf), response),
        ScanView::Prefix(prefix) => exists|cf: &str, p: OndoKey|
            cf@ == cf_name && p@ == prefix && call_ensures(
                R::all_values_with_key_prefix,
                (requests, cf, p),
                response,
            ),
        ScanView::Range(start, end) => exists|cf: &str, s: OndoKey, e: OndoKey|
            cf@ == cf_name && s@ == start && e@ == end && call_ensures(
                R::all_values_with_key_range,
                (requests, cf, s, e),
                response,
            ),
    }
}

/// The value of what a scan hands back: each item a row or an error.
pub open spec fn scan_view(response: DbResult<Vec<DbResult<TableValue>>>) -> Result<
    Seq<Result<TableValueView, DbErrorView>>,
    DbErrorView,
> {
    match response {
        Ok(items) => Ok(items_view(items@)),
        Err(e) => Err(e@),
    }
}

/// The values of the items of a scan.
pub open spec fn items_view(items: Seq<DbResult<TableValue>>) -> Seq<
    Result<TableValueView, DbErrorView>,
> {
    Seq::new(items.len(), |i: int| result_view(items[i]))
}

/// A scan that hands out the rows `rows` without an error.
pub open spec fn scanned(rows: Seq<TableValueView>) -> Seq<Result<TableValueView, DbErrorView>> {
    Seq::new(rows.len(), |i: int| Ok(rows[i]))
}

} // verus!
