//! The address of a single stored value, such as a table's counter.

use crate::error::{result_view, DbError, DbErrorView, DbResult};
use crate::key::{KeyPartView, OndoKey};
use crate::reference::effect::{
    push_effect, Effect, EffectView, Effects, TableValueEffect, TableValueEffectView,
};
use crate::reference::requests::{increment_answer, ColumnValueRequests};
use crate::value::{Number, TableValue, TableValueView};
use vstd::prelude::*;

verus! {

/// The name of a column family.
pub type CfName = String;

/// Identifies one value of a column family by its key.
#[derive(Debug, PartialEq, Eq)]
pub struct ColumnValueReference {
    pub column_reference: CfName,
    pub id: OndoKey,
}

/// The mathematical value of a [`ColumnValueReference`].
pub struct ColumnValueReferenceView {
    pub column_reference: Seq<char>,
    pub id: Seq<KeyPartView>,
}

impl DeepView for ColumnValueReference {
    type V = ColumnValueReferenceView;

    open spec fn deep_view(&self) -> ColumnValueReferenceView {
        ColumnValueReferenceView { column_reference: self.column_reference@, id: self.id@ }
    }
}

impl View for ColumnValueReference {
    type V = ColumnValueReferenceView;

    open spec fn view(&self) -> ColumnValueReferenceView {
        self.deep_view()
    }
}

impl Clone for ColumnValueReference {
    fn clone(&self) -> (r: Self)
        ensures
            r@ == self@,
    {
        ColumnValueReference {
            column_reference: self.column_reference.clone(),
            id: self.id.clone(),
        }
    }
}

impl ColumnValueReference {
    /// Increments the counter that this reference addresses: the new count,
    /// and the effects that persist it, as the capability hands them out.
    pub fn increment_column_value<R: ColumnValueRequests + ?Sized>(
        &self,
        requests: &R,
    ) -> (response: DbResult<(u64, Effects)>)
        ensures
            increment_answer(requests, self@, response),
    {
        requests.increment_column_value(self)
    }
}

/// The error of a counter that holds something other than a count.
pub open spec fn not_a_counter() -> DbErrorView {
    DbErrorView::Other("counter does not hold a count"@)
}

/// The error of a counter that cannot count further.
pub open spec fn counter_exhausted() -> DbErrorView {
    DbErrorView::Other("counter is exhausted"@)
}

impl ColumnValueReferenceView {
    /// The effect that writes `count` as the value of the counter.
    pub open spec fn write(self, count: u64) -> EffectView {
        EffectView::TableValueEffect(
            TableValueEffectView::Put(
                self.column_reference,
                self.id,
                TableValueView::Number(Number::PosInt(count)),
            ),
        )
    }

    /// The increment of the counter, given what it holds: the count after
    /// the one it holds, or 1 where it holds none, and the effect that
    /// writes it.
    pub open spec fn increment_plan(
        self,
        current: Result<Option<TableValueView>, DbErrorView>,
    ) -> Result<(u64, Seq<EffectView>), DbErrorView> {
        match current {
            Err(e) => Err(e),
            Ok(None) => Ok((1, seq![self.write(1)])),
            Ok(Some(TableValueView::Number(Number::PosInt(n)))) => if n < u64::MAX {
                Ok(((n + 1) as u64, seq![self.write((n + 1) as u64)]))
            } else {
                Err(counter_exhausted())
            },
            Ok(Some(_)) => Err(not_a_counter()),
        }
    }
}

/// The value of what an increment hands back.
pub open spec fn counted_view(response: DbResult<(u64, Effects)>) -> Result<
    (u64, Seq<EffectView>),
    DbErrorView,
> {
    match response {
        Ok((n, effects)) => Ok((n, effects.deep_view())),
        Err(e) => Err(e@),
    }
}

impl ColumnValueReference {
    /// The increment of the counter, once what it holds has been read.
    /// Fails if it holds something other than a count, or the largest
    /// count.
    pub fn plan_increment(&self, current: DbResult<Option<TableValue>>) -> (r: DbResult<
        (u64, Effects),
    >)
        ensures
            counted_view(r) == self@.increment_plan(result_view(current)),
    {
        let count = match current {
            Err(e) => {
                return Err(e);
            },
            Ok(None) => 0u64,
            Ok(Some(TableValue::Number(Number::PosInt(n)))) => n,
            Ok(Some(_)) => {
                return Err(DbError::Other(String::from_str("counter does not hold a count")));
            },
        };
        if count == u64::MAX {
            return Err(DbError::Other(String::from_str("counter is exhausted")));
        }
        let next = count + 1;
        let mut effects: Effects = Vec::new();
        push_effect(
            &mut effects,
            Effect::TableValueEffect(
                TableValueEffect::Put(
                    self.column_reference.clone(),
                    self.id.clone(),
                    TableValue::Number(Number::PosInt(next)),
                ),
            ),
        );
        assert(effects.deep_view() =~= seq![self@.write(next)]);
        Ok((next, effects))
    }
}

} // verus!
