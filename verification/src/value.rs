//! Table values: JSON-shaped trees.
//!
//! A number is an unsigned integer, a signed integer, or a double held by its
//! IEEE-754 bit pattern. An object is an ordered list of named members; a
//! lookup by name finds the first member of that name.

use crate::lookup::{index_in, lemma_index_in};
use vstd::prelude::*;

verus! {

/// A JSON number.
#[derive(Debug, Clone, Copy, PartialEq, Eq)]
pub enum Number {
    /// A non-negative integer.
    PosInt(u64),
    /// A signed integer; by convention a negative one.
    NegInt(i64),
    /// A double, by its IEEE-754 bits.
    Float(u64),
}

/// A JSON-shaped value stored in a table.
#[derive(Debug, PartialEq, Eq)]
pub enum TableValue {
    Null,
    Bool(bool),
    Number(Number),
    String(String),
    Array(Vec<TableValue>),
    Object(Vec<(String, TableValue)>),
}

/// The mathematical value of a [`TableValue`].
pub enum TableValueView {
    Null,
    Bool(bool),
    Number(Number),
    String(Seq<char>),
    Array(Seq<TableValueView>),
    Object(Seq<(Seq<char>, TableValueView)>),
}

/// The name of the member that carries a row's primary key.
pub open spec fn id_field() -> Seq<char> {
    "_id"@
}

/// The names of the members, in order.
pub open spec fn member_names(members: Seq<(Seq<char>, TableValueView)>) -> Seq<Seq<char>> {
    Seq::new(members.len(), |i: int| members[i].0)
}

/// The position of the first member called `name`, or the length of
/// `members` if there is none.
pub open spec fn member_position(
    members: Seq<(Seq<char>, TableValueView)>,
    name: Seq<char>,
) -> nat {
    index_in(member_names(members), name)
}

/// The position of the first `.` in `path`, or the length of `path` if it
/// holds none.
pub open spec fn first_dot(path: Seq<char>) -> nat
    decreases path.len(),
{
    if path.len() == 0 {
        0
    } else if path[0] == '.' {
        0
    } else {
        1 + first_dot(path.skip(1))
    }
}

impl TableValueView {
    /// The member called `name` of an object; `None` for a missing member and
    /// for a value that is no object.
    pub open spec fn member(self, name: Seq<char>) -> Option<TableValueView> {
        match self {
            TableValueView::Object(members) => {
                let at = member_position(members, name);
                if at < members.len() {
                    Some(members[at as int].1)
                } else {
                    None
                }
            },
            _ => None,
        }
    }

    /// The value reached by a dotted path: each name between dots steps into
    /// the member of that name.
    pub open spec fn at_path(self, path: Seq<char>) -> Option<TableValueView>
        decreases path.len(),
    {
        let dot = first_dot(path);
        if dot >= path.len() {
            self.member(path)
        } else {
            match self.member(path.subrange(0, dot as int)) {
                Some(inner) => inner.at_path(path.subrange(dot as int + 1, path.len() as int)),
                None => None,
            }
        }
    }

    /// This value with its member `name` set to `value`: an existing member
    /// is replaced where it stands, a new one goes in front. Null counts as
    /// the empty object; any other value that is no object stays as it is.
    pub open spec fn with_member(self, name: Seq<char>, value: TableValueView) -> TableValueView {
        match self {
            TableValueView::Object(members) => {
                let at = member_position(members, name);
                if at < members.len() {
                    TableValueView::Object(members.update(at as int, (name, value)))
                } else {
                    TableValueView::Object(seq![(name, value)] + members)
                }
            },
            TableValueView::Null => TableValueView::Object(seq![(name, value)]),
            _ => self,
        }
    }

    /// Null, a boolean, a number or a string.
    pub open spec fn is_scalar(self) -> bool {
        !(self is Array) && !(self is Object)
    }
}

/// The mathematical value of a table value: the same tree over sequences.
pub open spec fn value_view(value: TableValue) -> TableValueView
    decreases value,
{
    match value {
        TableValue::Null => TableValueView::Null,
        TableValue::Bool(b) => TableValueView::Bool(b),
        TableValue::Number(n) => TableValueView::Number(n),
        TableValue::String(s) => TableValueView::String(s@),
        TableValue::Array(items) => TableValueView::Array(
            Seq::new(
                items@.len(),
                |i: int|
                    if 0 <= i < items@.len() {
                        value_view(items@[i])
                    } else {
                        TableValueView::Null
                    },
            ),
        ),
        TableValue::Object(members) => TableValueView::Object(
            Seq::new(
                members@.len(),
                |i: int|
                    if 0 <= i < members@.len() {
                        (members@[i].0@, value_view(members@[i].1))
                    } else {
                        (Seq::empty(), TableValueView::Null)
                    },
            ),
        ),
    }
}

impl DeepView for TableValue {
    type V = TableValueView;

    open spec fn deep_view(&self) -> TableValueView {
        value_view(*self)
    }
}

impl View for TableValue {
    type V = TableValueView;

    open spec fn view(&self) -> TableValueView {
        self.deep_view()
    }
}

/// The items of an array, as the view of the array holds them.
pub proof fn lemma_array_view(items: Vec<TableValue>)
    ensures
        TableValue::Array(items)@ == TableValueView::Array(items.deep_view()),
{
    assert(value_view(TableValue::Array(items))->Array_0 =~= items.deep_view());
}

/// The members of an object, as the view of the object holds them.
pub proof fn lemma_object_view(members: Vec<(String, TableValue)>)
    ensures
        TableValue::Object(members)@ == TableValueView::Object(members.deep_view()),
{
    assert(value_view(TableValue::Object(members))->Object_0 =~= members.deep_view());
}

/// What the exec members say of names carries over to their views.
proof fn lemma_members_before(members: Vec<(String, TableValue)>, name: Seq<char>, at: int)
    requires
        0 <= at <= members.len(),
        forall|k: int| 0 <= k < at ==> members@[k].0@ != name,
    ensures
        forall|k: int| 0 <= k < at ==> (#[trigger] members.deep_view()[k]).0 != name,
        forall|k: int|
            0 <= k < members.len() ==> #[trigger] members.deep_view()[k] == (
                members@[k].0@,
                members@[k].1@,
            ),
{
}

/// A path without a dot before `at` and with one at `at` has its first dot
/// there; a path without any dot has none.
pub proof fn lemma_first_dot(path: Seq<char>, at: int)
    requires
        0 <= at <= path.len(),
        forall|k: int| 0 <= k < at ==> path[k] != '.',
        at < path.len() ==> path[at] == '.',
    ensures
        first_dot(path) == at,
    decreases path.len(),
{
    if path.len() == 0 {
    } else if at == 0 {
    } else {
        let rest = path.skip(1);
        assert forall|k: int| 0 <= k < at - 1 implies rest[k] != '.' by {
            assert(rest[k] == path[k + 1]);
        }
        lemma_first_dot(rest, at - 1);
    }
}

impl Clone for TableValue {
    fn clone(&self) -> (r: Self)
        ensures
            r@ == self@,
        decreases self,
    {
        match self {
            TableValue::Null => TableValue::Null,
            TableValue::Bool(b) => TableValue::Bool(*b),
            TableValue::Number(n) => TableValue::Number(*n),
            TableValue::String(s) => TableValue::String(s.clone()),
            TableValue::Array(items) => {
                let mut out: Vec<TableValue> = Vec::new();
                let mut i: usize = 0;
                while i < items.len()
                    invariant
                        i <= items.len(),
                        out.len() == i,
                        forall|j: int| 0 <= j < i ==> out@[j]@ == items@[j]@,
                        decreases_to!(*self => *items),
                    decreases items.len() - i,
                {
                    proof {
                        vstd::std_specs::vec::axiom_vec_index_decreases(*items, i as int);
                    }
                    let item = items[i].clone();
                    out.push(item);
                    i += 1;
                }
                let r = TableValue::Array(out);
                assert(r@->Array_0 =~= self@->Array_0);
                r
            },
            TableValue::Object(members) => {
                let mut out: Vec<(String, TableValue)> = Vec::new();
                let mut i: usize = 0;
                while i < members.len()
                    invariant
                        i <= members.len(),
                        out.len() == i,
                        forall|j: int|
                            0 <= j < i ==> out@[j].0@ == members@[j].0@ && out@[j].1@
                                == members@[j].1@,
                        decreases_to!(*self => *members),
                    decreases members.len() - i,
                {
                    proof {
                        vstd::std_specs::vec::axiom_vec_index_decreases(*members, i as int);
                    }
                    let value = members[i].1.clone();
                    out.push((members[i].0.clone(), value));
                    i += 1;
                }
                let r = TableValue::Object(out);
                assert(r@->Object_0 =~= self@->Object_0);
                r
            },
        }
    }
}

/// The position of the first member called `name`, or the number of members
/// if there is none.
fn member_index(members: &Vec<(String, TableValue)>, name: &str) -> (r: usize)
    ensures
        r == member_position(members.deep_view(), name@),
        r <= members.len(),
{
    let wanted = String::from_str(name);
    let mut i: usize = 0;
    while i < members.len()
        invariant
            i <= members.len(),
            wanted@ == name@,
            forall|k: int| 0 <= k < i ==> members@[k].0@ != name@,
        decreases members.len() - i,
    {
        if members[i].0 == wanted {
            proof {
                lemma_members_before(*members, name@, i as int);
                lemma_index_in(member_names(members.deep_view()), name@, i as int);
            }
            return i;
        }
        i += 1;
    }
    proof {
        lemma_members_before(*members, name@, members.len() as int);
        lemma_index_in(member_names(members.deep_view()), name@, members.len() as int);
    }
    i
}

impl TableValue {
    /// The member called `name`, if this is an object that has one.
    pub fn get(&self, name: &str) -> (r: Option<&TableValue>)
        ensures
            r.deep_view() == self@.member(name@),
    {
        match self {
            TableValue::Object(members) => {
                let at = member_index(members, name);
                proof {
                    lemma_object_view(*members);
                    lemma_members_before(*members, name@, 0);
                }
                if at < members.len() {
                    Some(&members[at].1)
                } else {
                    None
                }
            },
            _ => None,
        }
    }

    /// The value reached by the dotted path `path`, if every step finds its
    /// member.
    pub fn at_path(&self, path: &str) -> (r: Option<&TableValue>)
        ensures
            r.deep_view() == self@.at_path(path@),
    {
        let n = path.unicode_len();
        let mut current: &TableValue = self;
        let mut start: usize = 0;
        let mut i: usize = 0;
        assert(path@.subrange(0, n as int) =~= path@);
        while i < n
            invariant
                n == path@.len(),
                start <= i <= n,
                forall|k: int| start <= k < i ==> path@[k] != '.',
                self@.at_path(path@) == current@.at_path(path@.subrange(start as int, n as int)),
            decreases n - i,
        {
            if path.get_char(i) == '.' {
                let ghost rest = path@.subrange(start as int, n as int);
                proof {
                    lemma_first_dot(rest, i - start);
                    assert(rest.subrange(0, i - start) =~= path@.subrange(start as int, i as int));
                    assert(rest.subrange(i - start + 1, rest.len() as int) =~= path@.subrange(
                        i + 1,
                        n as int,
                    ));
                }
                let name = path.substring_char(start, i);
                match current.get(name) {
                    Some(inner) => {
                        current = inner;
                    },
                    None => {
                        return None;
                    },
                }
                start = i + 1;
            }
            i += 1;
        }
        proof {
            lemma_first_dot(path@.subrange(start as int, n as int), n - start);
        }
        let name = path.substring_char(start, n);
        current.get(name)
    }

    /// Sets the member `name` to `value`: an existing member is replaced
    /// where it stands, a new one goes in front. Null becomes an object with
    /// that one member; any other value that is no object is left as it is.
    pub fn set_member(&mut self, name: &str, value: TableValue)
        ensures
            final(self)@ == old(self)@.with_member(name@, value@),
    {
        let wanted = String::from_str(name);
        match self {
            TableValue::Object(members) => {
                let ghost before = members.deep_view();
                proof {
                    lemma_object_view(*members);
                }
                let at = member_index(members, name);
                if at < members.len() {
                    members[at] = (wanted, value);
                    proof {
                        assert(members.deep_view() =~= before.update(at as int, (name@, value@)));
                        lemma_object_view(*members);
                    }
                } else {
                    members.insert(0, (wanted, value));
                    proof {
                        assert(members.deep_view() =~= seq![(name@, value@)] + before);
                        lemma_object_view(*members);
                    }
                }
            },
            TableValue::Null => {
                let mut members: Vec<(String, TableValue)> = Vec::new();
                members.push((wanted, value));
                proof {
                    assert(members.deep_view() =~= seq![(name@, value@)]);
                    lemma_object_view(members);
                }
                *self = TableValue::Object(members);
            },
            _ => {},
        }
    }
}

} // verus!
