//! The names of the column families that hold what references address.

use crate::reference::domain_reference::{DomainReference, DomainReferenceView};
use crate::reference::index_reference::{IndexReference, IndexReferenceView};
use crate::reference::table_reference::{TableReference, TableReferenceView};
use vstd::prelude::*;

verus! {

/// Derives column-family names from references.
pub struct CfNameMaker {}

impl CfNameMaker {
    /// The column family of the domain records.
    pub open spec fn spec_for_domains() -> Seq<char> {
        "/domains"@
    }

    /// The column family of a domain's table records: `/domains/<domain>/tables`.
    pub open spec fn spec_for_tables(domain: DomainReferenceView) -> Seq<char> {
        "/domains/"@ + domain.domain_name + "/tables"@
    }

    /// The column family of a domain's table counters:
    /// `/domains/<domain>/counters`.
    pub open spec fn spec_for_table_counters(domain: DomainReferenceView) -> Seq<char> {
        "/domains/"@ + domain.domain_name + "/counters"@
    }

    /// The column family of a table's rows: `<domain>::/<table>`.
    pub open spec fn spec_for_table_values(table: TableReferenceView) -> Seq<char> {
        table.domain_reference.domain_name + "::/"@ + table.table_name
    }

    /// The column family of an index's entries:
    /// `<domain>::/<table>/indexes/<index>`.
    pub open spec fn spec_for_index_values(index: IndexReferenceView) -> Seq<char> {
        Self::spec_for_table_values(index.table_reference) + "/indexes/"@ + index.index_name
    }

    /// The column family of the domain records.
    pub fn for_domains() -> (r: String)
        ensures
            r@ == Self::spec_for_domains(),
    {
        String::from_str("/domains")
    }

    /// The column family of a domain's table records.
    pub fn for_tables(domain_reference: &DomainReference) -> (r: String)
        ensures
            r@ == Self::spec_for_tables(domain_reference@),
    {
        String::from_str("/domains/").concat(domain_reference.domain_name.as_str()).concat(
            "/tables",
        )
    }

    /// The column family of a domain's table counters.
    pub fn for_table_counters(domain_reference: &DomainReference) -> (r: String)
        ensures
            r@ == Self::spec_for_table_counters(domain_reference@),
    {
        String::from_str("/domains/").concat(domain_reference.domain_name.as_str()).concat(
            "/counters",
        )
    }

    /// The column family of a table's rows.
    pub fn for_table_values(table_reference: &TableReference) -> (r: String)
        ensures
            r@ == Self::spec_for_table_values(table_reference@),
    {
        table_reference.domain_reference.domain_name.clone().concat("::/").concat(
            table_reference.table_name.as_str(),
        )
    }

    /// The column family of an index's entries.
    pub fn for_index_values(index_reference: &IndexReference) -> (r: String)
        ensures
            r@ == Self::spec_for_index_values(index_reference@),
    {
        Self::for_table_values(&index_reference.table_reference).concat("/indexes/").concat(
            index_reference.index_name.as_str(),
        )
    }
}

} // verus!
