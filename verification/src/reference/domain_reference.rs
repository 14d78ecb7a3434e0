//! The address of a domain.

use crate::entity::{clone_names, Domain, DomainStored, DomainStoredView, DomainView, TableStored};
use crate::error::{found, result_view, DbError, DbErrorView, DbResult};
use crate::reference::cf_name_maker::CfNameMaker;
use crate::reference::effect::{
    extend_effects, push_effect, DomainStoredEffect, DomainStoredEffectView, Effect, EffectView,
    Effects,
};
use crate::reference::requests::{
    domain_stored_answer, table_stored_answer, DomainStoredRequests, TableStoredRequests,
};
use crate::reference::table_reference::{
    DomainStoredAnswer, Plan, TableReference, TableReferenceView, TableStoredAnswer,
};
use vstd::prelude::*;

verus! {

/// The name of a domain.
pub type DomainName = String;

/// Identifies a namespace of tables.
#[derive(Debug, PartialEq, Eq)]
pub struct DomainReference {
    pub domain_name: DomainName,
}

/// The mathematical value of a [`DomainReference`].
pub struct DomainReferenceView {
    pub domain_name: Seq<char>,
}

impl DeepView for DomainReference {
    type V = DomainReferenceView;

    open spec fn deep_view(&self) -> DomainReferenceView {
        DomainReferenceView { domain_name: self.domain_name@ }
    }
}

impl View for DomainReference {
    type V = DomainReferenceView;

    open spec fn view(&self) -> DomainReferenceView {
        self.deep_view()
    }
}

impl Clone for DomainReference {
    fn clone(&self) -> (r: Self)
        ensures
            r@ == self@,
    {
        DomainReference { domain_name: self.domain_name.clone() }
    }
}

impl DomainReference {
    /// The address of the domain called `domain_name`.
    pub fn build(domain_name: &str) -> (r: Self)
        ensures
            r@.domain_name == domain_name@,
    {
        DomainReference { domain_name: String::from_str(domain_name) }
    }

    /// The address of the domain called `domain_name`.
    pub fn new(domain_name: &str) -> (r: Self)
        ensures
            r@.domain_name == domain_name@,
    {
        DomainReference { domain_name: String::from_str(domain_name) }
    }
}

impl DomainReferenceView {
    /// The column family that holds the records of this domain's tables.
    pub open spec fn tables_cf(self) -> Seq<char> {
        CfNameMaker::spec_for_tables(self)
    }

    /// The column family that holds the counters of this domain's tables.
    pub open spec fn counters_cf(self) -> Seq<char> {
        CfNameMaker::spec_for_table_counters(self)
    }

    /// The address of the table `name` of this domain.
    pub open spec fn table(self, name: Seq<char>) -> TableReferenceView {
        TableReferenceView { domain_reference: self, table_name: name }
    }

    /// The effect that writes `stored` as the record of this domain.
    pub open spec fn put_stored(self, stored: DomainStoredView) -> EffectView {
        EffectView::DomainStoredEffect(
            DomainStoredEffectView::Put(CfNameMaker::spec_for_domains(), self.domain_name, stored),
        )
    }

    /// The domain of the record, if there is a record.
    pub open spec fn get_domain_plan(self, response: DomainStoredAnswer) -> Result<
        Option<DomainView>,
        DbErrorView,
    > {
        match response {
            Err(e) => Err(e),
            Ok(None) => Ok(None),
            Ok(Some(stored)) => Ok(Some(stored.domain)),
        }
    }

    /// Replaces the domain of an existing record and leaves its tables.
    pub open spec fn put_domain_plan(
        self,
        domain: DomainView,
        response: DomainStoredAnswer,
    ) -> Plan {
        match response {
            Err(e) => Err(e),
            Ok(None) => Err(DbErrorView::DomainNotInitialized),
            Ok(Some(stored)) => Ok(seq![self.put_stored(stored.with_domain(domain))]),
        }
    }

    /// Creates the domain: the column family of its tables' records, then
    /// its own record without tables.
    pub open spec fn post_domain_plan(
        self,
        domain: DomainView,
        response: DomainStoredAnswer,
    ) -> Plan {
        match response {
            Err(e) => Err(e),
            Ok(Some(_)) => Err(DbErrorView::AlreadyExists),
            Ok(None) => Ok(
                seq![
                    EffectView::CreateCf(self.tables_cf()),
                    self.put_stored(DomainStoredView { domain, tables: Seq::empty() }),
                ],
            ),
        }
    }

    /// The effects that delete the first `count` tables of `stored`, each
    /// planned against its own record and against `stored` as it was read;
    /// the first table whose deletion fails stops the plan. A table without
    /// an answer counts as a table without a record.
    pub open spec fn delete_tables_plan(
        self,
        stored: DomainStoredView,
        tables: Seq<TableStoredAnswer>,
        count: nat,
    ) -> Plan
        decreases count,
    {
        if count == 0 {
            Ok(Seq::empty())
        } else {
            match self.delete_tables_plan(stored, tables, (count - 1) as nat) {
                Err(e) => Err(e),
                Ok(effects) => match self.table(stored.tables[count - 1]).delete_table_plan(
                    answer_at(tables, count - 1),
                    Ok(Some(stored)),
                ) {
                    Err(e) => Err(e),
                    Ok(more) => Ok(effects + more),
                },
            }
        }
    }

    /// Deletes the domain: each of its tables, its record, the column
    /// family of its tables' records and that of its counters.
    pub open spec fn delete_domain_plan(
        self,
        response: DomainStoredAnswer,
        tables: Seq<TableStoredAnswer>,
    ) -> Plan {
        match response {
            Err(e) => Err(e),
            Ok(None) => Err(DbErrorView::DomainNotInitialized),
            Ok(Some(stored)) => match self.delete_tables_plan(stored, tables, stored.tables.len()) {
                Err(e) => Err(e),
                Ok(effects) => Ok(
                    effects + seq![
                        EffectView::DomainStoredEffect(
                            DomainStoredEffectView::Delete(
                                CfNameMaker::spec_for_domains(),
                                self.domain_name,
                            ),
                        ),
                        EffectView::DeleteCf(self.tables_cf()),
                        EffectView::DeleteCf(self.counters_cf()),
                    ],
                ),
            },
        }
    }

    /// The names of the domain's tables, in stored order.
    pub open spec fn list_table_names_plan(self, response: DomainStoredAnswer) -> Result<
        Seq<Seq<char>>,
        DbErrorView,
    > {
        match response {
            Err(e) => Err(e),
            Ok(None) => Err(DbErrorView::DomainNotInitialized),
            Ok(Some(stored)) => Ok(stored.tables),
        }
    }
}

/// The answer for the table at position `at`; none found, where the
/// answers do not reach so far.
pub open spec fn answer_at(tables: Seq<TableStoredAnswer>, at: int) -> TableStoredAnswer {
    if 0 <= at < tables.len() {
        tables[at]
    } else {
        Ok(None)
    }
}

/// The values of the answers that lookups of table records gave.
pub open spec fn table_answers_view(answers: Seq<DbResult<Option<TableStored>>>) -> Seq<
    TableStoredAnswer,
> {
    Seq::new(answers.len(), |i: int| result_view(answers[i]))
}

/// The reads that `delete_domain` makes: the domain's record; then, for a
/// domain that has one, the record of each of its tables in stored order.
pub open spec fn delete_domain_reads<
    R: DomainStoredRequests + ?Sized,
    T: TableStoredRequests + ?Sized,
>(
    reference: DomainReferenceView,
    requests: &R,
    table_requests: &T,
    response: DbResult<Option<DomainStored>>,
    tables: Seq<DbResult<Option<TableStored>>>,
) -> bool {
    &&& domain_stored_answer(
        requests,
        CfNameMaker::spec_for_domains(),
        reference.domain_name,
        response,
    )
    &&& found(response) ==> {
        let stored = response->Ok_0->Some_0@;
        &&& tables.len() == stored.tables.len()
        &&& forall|i: int|
            0 <= i < stored.tables.len() ==> table_stored_answer(
                table_requests,
                reference.tables_cf(),
                stored.tables[i],
                #[trigger] tables[i],
            )
    }
}

impl DomainReference {
    /// The column family that holds the counters of this domain's tables.
    pub fn cf_name_for_table_counters(&self) -> (r: String)
        ensures
            r@ == self@.counters_cf(),
    {
        CfNameMaker::for_table_counters(self)
    }

    /// Reads the record of this domain.
    pub fn get_domain_stored<R: DomainStoredRequests + ?Sized>(&self, requests: &R) -> (response:
        DbResult<Option<DomainStored>>)
        ensures
            domain_stored_answer(
                requests,
                CfNameMaker::spec_for_domains(),
                self@.domain_name,
                response,
            ),
    {
        let cf_name = CfNameMaker::for_domains();
        requests.get_domain_stored(cf_name.as_str(), &self.domain_name)
    }

    /// The effect that writes `stored` as the record of this domain.
    pub fn put_domain_stored(&self, stored: DomainStored) -> (r: Effect)
        ensures
            r@ == self@.put_stored(stored@),
    {
        Effect::DomainStoredEffect(
            DomainStoredEffect::Put(CfNameMaker::for_domains(), self.domain_name.clone(), stored),
        )
    }

    /// The domain, once its record has been read.
    pub fn plan_get_domain(&self, response: DbResult<Option<DomainStored>>) -> (r: DbResult<
        Option<Domain>,
    >)
        ensures
            result_view(r) == self@.get_domain_plan(result_view(response)),
    {
        match response {
            Err(e) => Err(e),
            Ok(None) => Ok(None),
            Ok(Some(stored)) => Ok(Some(stored.domain)),
        }
    }

    /// The domain, if it exists.
    pub fn get_domain<R: DomainStoredRequests + ?Sized>(&self, requests: &R) -> (r: DbResult<
        Option<Domain>,
    >)
        ensures
            exists|response: DbResult<Option<DomainStored>>|
                #[trigger] domain_stored_answer(
                    requests,
                    CfNameMaker::spec_for_domains(),
                    self@.domain_name,
                    response,
                ) && result_view(r) == self@.get_domain_plan(result_view(response)),
    {
        let response = self.get_domain_stored(requests);
        self.plan_get_domain(response)
    }

    /// The update of the domain, once its record has been read.
    pub fn plan_put_domain(&self, domain: &Domain, response: DbResult<Option<DomainStored>>) -> (r:
        DbResult<Effects>)
        ensures
            result_view(r) == self@.put_domain_plan(domain@, result_view(response)),
    {
        match response {
            Err(e) => Err(e),
            Ok(None) => Err(DbError::DomainNotInitialized),
            Ok(Some(stored)) => {
                let mut new_stored = stored;
                new_stored.domain = domain.clone();
                let mut effects: Effects = Vec::new();
                push_effect(&mut effects, self.put_domain_stored(new_stored));
                assert(effects.deep_view() =~= seq![
                    self@.put_stored(stored@.with_domain(domain@)),
                ]);
                Ok(effects)
            },
        }
    }

    /// Replaces the domain of an existing record; fails with
    /// `DomainNotInitialized` if there is none.
    pub fn put_domain<R: DomainStoredRequests + ?Sized>(&self, domain: &Domain, requests: &R) -> (r:
        DbResult<Effects>)
        ensures
            exists|response: DbResult<Option<DomainStored>>|
                #[trigger] domain_stored_answer(
                    requests,
                    CfNameMaker::spec_for_domains(),
                    self@.domain_name,
                    response,
                ) && result_view(r) == self@.put_domain_plan(domain@, result_view(response)),
    {
        let response = self.get_domain_stored(requests);
        self.plan_put_domain(domain, response)
    }

    /// The creation of the domain, once its record has been read.
    pub fn plan_post_domain(&self, domain: &Domain, response: DbResult<Option<DomainStored>>) -> (r:
        DbResult<Effects>)
        ensures
            result_view(r) == self@.post_domain_plan(domain@, result_view(response)),
    {
        match response {
            Err(e) => Err(e),
            Ok(Some(_)) => Err(DbError::AlreadyExists),
            Ok(None) => {
                let new_stored = DomainStored { domain: domain.clone(), tables: Vec::new() };
                assert(new_stored@.tables =~= Seq::empty());
                let mut effects: Effects = Vec::new();
                push_effect(&mut effects, Effect::CreateCf(CfNameMaker::for_tables(self)));
                push_effect(&mut effects, self.put_domain_stored(new_stored));
                assert(effects.deep_view() =~= self@.post_domain_plan(
                    domain@,
                    result_view(response),
                )->Ok_0);
                Ok(effects)
            },
        }
    }

    /// Creates the domain; fails with `AlreadyExists` if it has a record.
    pub fn post_domain<R: DomainStoredRequests + ?Sized>(
        &self,
        domain: &Domain,
        requests: &R,
    ) -> (r: DbResult<Effects>)
        ensures
            exists|response: DbResult<Option<DomainStored>>|
                #[trigger] domain_stored_answer(
                    requests,
                    CfNameMaker::spec_for_domains(),
                    self@.domain_name,
                    response,
                ) && result_view(r) == self@.post_domain_plan(domain@, result_view(response)),
    {
        let response = self.get_domain_stored(requests);
        self.plan_post_domain(domain, response)
    }

    /// The table names, once the domain's record has been read.
    pub fn plan_list_table_names(&self, response: DbResult<Option<DomainStored>>) -> (r: DbResult<
        Vec<String>,
    >)
        ensures
            result_view(r) == self@.list_table_names_plan(result_view(response)),
    {
        match response {
            Err(e) => Err(e),
            Ok(None) => Err(DbError::DomainNotInitialized),
            Ok(Some(stored)) => Ok(clone_names(&stored.tables)),
        }
    }

    /// The names of the domain's tables, in stored order; fails with
    /// `DomainNotInitialized` if the domain has no record.
    pub fn list_table_names<R: DomainStoredRequests + ?Sized>(&self, requests: &R) -> (r: DbResult<
        Vec<String>,
    >)
        ensures
            exists|response: DbResult<Option<DomainStored>>|
                #[trigger] domain_stored_answer(
                    requests,
                    CfNameMaker::spec_for_domains(),
                    self@.domain_name,
                    response,
                ) && result_view(r) == self@.list_table_names_plan(result_view(response)),
    {
        let response = self.get_domain_stored(requests);
        self.plan_list_table_names(response)
    }

    /// The effects that delete the tables of `stored`, once the record of
    /// each has been read.
    fn plan_delete_tables(
        &self,
        stored: &DomainStored,
        tables: &Vec<DbResult<Option<TableStored>>>,
    ) -> (r: DbResult<Effects>)
        ensures
            result_view(r) == self@.delete_tables_plan(
                stored@,
                table_answers_view(tables@),
                stored@.tables.len(),
            ),
    {
        let mut effects: Effects = Vec::new();
        let n = stored.tables.len();
        let mut i: usize = 0;
        assert(effects.deep_view() =~= Seq::empty());
        while i < n
            invariant
                i <= n,
                n == stored.tables.len(),
                self@.delete_tables_plan(stored@, table_answers_view(tables@), i as nat) == Ok::<
                    Seq<EffectView>,
                    DbErrorView,
                >(effects.deep_view()),
            decreases n - i,
        {
            let table_reference = TableReference {
                domain_reference: self.clone(),
                table_name: stored.tables[i].clone(),
            };
            let answer: DbResult<Option<TableStored>> = if i < tables.len() {
                match &tables[i] {
                    Ok(Some(record)) => Ok(Some(record.clone())),
                    Ok(None) => Ok(None),
                    Err(e) => Err(e.clone()),
                }
            } else {
                Ok(None)
            };
            assert(result_view(answer) == answer_at(table_answers_view(tables@), i as int));
            match table_reference.plan_delete_table(answer, Ok(Some(stored.clone()))) {
                Err(e) => {
                    proof {
                        lemma_delete_tables_error(
                            self@,
                            stored@,
                            table_answers_view(tables@),
                            (i + 1) as nat,
                            n as nat,
                        );
                    }
                    return Err(e);
                },
                Ok(more) => {
                    extend_effects(&mut effects, more);
                },
            }
            i += 1;
        }
        Ok(effects)
    }

    /// The deletion of the domain, once its record and the record of each
    /// of its tables have been read. `tables` holds the answers for the
    /// tables of the domain's record, in stored order; a table without an
    /// answer counts as a table without a record.
    pub fn plan_delete_domain(
        &self,
        response: DbResult<Option<DomainStored>>,
        tables: Vec<DbResult<Option<TableStored>>>,
    ) -> (r: DbResult<Effects>)
        ensures
            result_view(r) == self@.delete_domain_plan(
                result_view(response),
                table_answers_view(tables@),
            ),
    {
        match response {
            Err(e) => Err(e),
            Ok(None) => Err(DbError::DomainNotInitialized),
            Ok(Some(stored)) => match self.plan_delete_tables(&stored, &tables) {
                Err(e) => Err(e),
                Ok(planned) => {
                    let mut effects = planned;
                    push_effect(
                        &mut effects,
                        Effect::DomainStoredEffect(
                            DomainStoredEffect::Delete(
                                CfNameMaker::for_domains(),
                                self.domain_name.clone(),
                            ),
                        ),
                    );
                    push_effect(&mut effects, Effect::DeleteCf(CfNameMaker::for_tables(self)));
                    push_effect(
                        &mut effects,
                        Effect::DeleteCf(CfNameMaker::for_table_counters(self)),
                    );
                    assert(effects.deep_view() =~= self@.delete_domain_plan(
                        result_view(response),
                        table_answers_view(tables@),
                    )->Ok_0);
                    Ok(effects)
                },
            },
        }
    }

    /// Reads the record of each table that `stored` names, in stored order.
    fn read_tables<T: TableStoredRequests + ?Sized>(
        &self,
        stored: &DomainStored,
        table_requests: &T,
    ) -> (tables: Vec<DbResult<Option<TableStored>>>)
        ensures
            tables.len() == stored@.tables.len(),
            forall|i: int|
                0 <= i < stored@.tables.len() ==> table_stored_answer(
                    table_requests,
                    self@.tables_cf(),
                    stored@.tables[i],
                    #[trigger] tables@[i],
                ),
    {
        let mut tables: Vec<DbResult<Option<TableStored>>> = Vec::new();
        let mut i: usize = 0;
        while i < stored.tables.len()
            invariant
                i <= stored.tables.len(),
                tables.len() == i,
                forall|j: int|
                    0 <= j < i ==> table_stored_answer(
                        table_requests,
                        self@.tables_cf(),
                        stored@.tables[j],
                        #[trigger] tables@[j],
                    ),
            decreases stored.tables.len() - i,
        {
            let table_reference = TableReference {
                domain_reference: self.clone(),
                table_name: stored.tables[i].clone(),
            };
            let answer = table_reference.get_table_stored(table_requests);
            assert(table_stored_answer(
                table_requests,
                self@.tables_cf(),
                stored@.tables[i as int],
                answer,
            ));
            tables.push(answer);
            i += 1;
        }
        tables
    }

    /// Deletes the domain: each of its tables as `delete_table` plans it,
    /// then its record and its column families. Fails with
    /// `DomainNotInitialized` if the domain has no record, and with the
    /// error of the first table whose deletion cannot be planned.
    pub fn delete_domain<R: DomainStoredRequests + ?Sized, T: TableStoredRequests + ?Sized>(
        &self,
        requests: &R,
        table_requests: &T,
    ) -> (r: DbResult<Effects>)
        ensures
            exists|
                response: DbResult<Option<DomainStored>>,
                tables: Seq<DbResult<Option<TableStored>>>,
            |
                #[trigger] delete_domain_reads(self@, requests, table_requests, response, tables)
                    && result_view(r) == self@.delete_domain_plan(
                    result_view(response),
                    table_answers_view(tables),
                ),
    {
        let response = self.get_domain_stored(requests);
        let ghost asked = response;
        let tables = match &response {
            Ok(Some(stored)) => self.read_tables(stored, table_requests),
            _ => Vec::new(),
        };
        let ghost answers = tables@;
        let r = self.plan_delete_domain(response, tables);
        assert(delete_domain_reads(self@, requests, table_requests, asked, answers));
        r
    }
}

/// Once the plan for some tables is an error, so is the plan for more of
/// them, and it is the same error.
pub proof fn lemma_delete_tables_error(
    reference: DomainReferenceView,
    stored: DomainStoredView,
    tables: Seq<TableStoredAnswer>,
    failed: nat,
    count: nat,
)
    requires
        failed <= count,
        reference.delete_tables_plan(stored, tables, failed) is Err,
    ensures
        reference.delete_tables_plan(stored, tables, count) == reference.delete_tables_plan(
            stored,
            tables,
            failed,
        ),
    decreases count,
{
    if count > failed {
        lemma_delete_tables_error(reference, stored, tables, failed, (count - 1) as nat);
    }
}

} // verus!
