//! Statements for the database: their text and the values bound to it.
use vstd::prelude::*;
use crate::text::{decimal, join, joined, push_decimal, views};

verus! {

/// A value bound to a statement.
#[derive(Debug, Clone)]
pub enum SqlValue {
    Null,
    Integer(i64),
    Text(String),
}

/// What a bound value is.
pub enum SqlView {
    Null,
    Integer(i64),
    Text(Seq<char>),
}

impl View for SqlValue {
    type V = SqlView;

    open spec fn view(&self) -> SqlView {
        match self {
            SqlValue::Null => SqlView::Null,
            SqlValue::Integer(n) => SqlView::Integer(*n),
            SqlValue::Text(s) => SqlView::Text(s@),
        }
    }
}

/// What the bound values are.
pub open spec fn value_views(v: Seq<SqlValue>) -> Seq<SqlView> {
    v.map_values(|x: SqlValue| x@)
}

/// A statement with the values bound to it, the first of them to `?1`.
#[derive(Debug, Clone)]
pub struct Statement {
    pub sql: String,
    pub params: Vec<SqlValue>,
}

/// Conditions under which rows are taken, all of which must hold, with the values bound to them.
#[derive(Debug, Clone)]
pub struct Conditions {
    pub clauses: Vec<String>,
    pub params: Vec<SqlValue>,
}

/// What conditions say.
#[verifier::ext_equal]
pub struct ConditionsView {
    pub clauses: Seq<Seq<char>>,
    pub params: Seq<SqlView>,
}

/// The placeholder of the `n`-th bound value.
pub open spec fn placeholder(n: nat) -> Seq<char> {
    "?"@ + decimal(n)
}

/// The placeholders from the `first` on, each between `before` and `after`.
pub open spec fn placeholders(first: nat, count: nat, before: Seq<char>, after: Seq<char>) -> Seq<
    Seq<char>,
> {
    Seq::new(count, |i: int| before + placeholder((first + i) as nat) + after)
}

impl ConditionsView {
    /// These conditions and one more on a bound value.
    pub open spec fn and_value(self, before: Seq<char>, value: SqlView) -> ConditionsView {
        ConditionsView {
            clauses: self.clauses.push(before + placeholder(self.params.len() + 1)),
            params: self.params.push(value),
        }
    }

    /// These conditions and, where there is a number, one more on it.
    pub open spec fn and_number(self, before: Seq<char>, value: Option<i64>) -> ConditionsView {
        match value {
            Some(n) => self.and_value(before, SqlView::Integer(n)),
            None => self,
        }
    }

    /// These conditions and, where there are values, one more on all of them.
    pub open spec fn and_list(
        self,
        open: Seq<char>,
        before: Seq<char>,
        after: Seq<char>,
        sep: Seq<char>,
        close: Seq<char>,
        values: Seq<SqlView>,
    ) -> ConditionsView {
        if values.len() == 0 {
            self
        } else {
            ConditionsView {
                clauses: self.clauses.push(
                    open + joined(
                        placeholders(self.params.len() + 1, values.len(), before, after),
                        sep,
                    ) + close,
                ),
                params: self.params + values,
            }
        }
    }
}

impl View for Conditions {
    type V = ConditionsView;

    open spec fn view(&self) -> ConditionsView {
        ConditionsView { clauses: views(self.clauses@), params: value_views(self.params@) }
    }
}

/// Appends the placeholder of the `n`-th bound value.
pub fn push_placeholder(s: &mut String, n: usize)
    ensures
        final(s)@ == old(s)@ + placeholder(n as nat),
{
    s.push_str("?");
    push_decimal(s, n as u64);
    assert(s@ =~= old(s)@ + placeholder(n as nat));
}

/// The placeholders from the `first` on, each between `before` and `after`.
pub fn numbered_placeholders(first: usize, count: usize, before: &str, after: &str) -> (r: Vec<
    String,
>)
    requires
        first + count <= usize::MAX,
    ensures
        views(r@) == placeholders(first as nat, count as nat, before@, after@),
{
    let mut r: Vec<String> = Vec::new();
    let mut i: usize = 0;
    while i < count
        invariant
            i <= count,
            first + count <= usize::MAX,
            r@.len() == i,
            forall|k: int|
                0 <= k < i ==> (#[trigger] r@[k])@ == before@ + placeholder((first + k) as nat)
                    + after@,
        decreases count - i,
    {
        let mut s = before.to_owned();
        push_placeholder(&mut s, first + i);
        s.push_str(after);
        r.push(s);
        i += 1;
    }
    assert(views(r@) =~= placeholders(first as nat, count as nat, before@, after@));
    r
}

impl Conditions {
    /// One condition on one bound value.
    pub fn new(clause: &str, value: SqlValue) -> (r: Conditions)
        ensures
            r@ == (ConditionsView { clauses: seq![clause@], params: seq![value@] }),
            r.params@.len() == 1,
    {
        let mut clauses: Vec<String> = Vec::new();
        clauses.push(clause.to_owned());
        let mut params: Vec<SqlValue> = Vec::new();
        params.push(value);
        let r = Conditions { clauses, params };
        assert(r@.clauses =~= seq![clause@]);
        assert(r@.params =~= seq![value@]);
        r
    }

    /// Adds a condition on a bound value.
    pub fn and_value(&mut self, before: &str, value: SqlValue)
        requires
            old(self).params@.len() < usize::MAX,
        ensures
            final(self)@ == old(self)@.and_value(before@, value@),
            final(self).params@.len() == old(self).params@.len() + 1,
    {
        let mut clause = before.to_owned();
        push_placeholder(&mut clause, self.params.len() + 1);
        self.clauses.push(clause);
        self.params.push(value);
        assert(self@.clauses =~= old(self)@.and_value(before@, value@).clauses);
        assert(self@.params =~= old(self)@.and_value(before@, value@).params);
    }

    /// Adds a condition on a number, where there is one.
    pub fn and_number(&mut self, before: &str, value: Option<i64>)
        requires
            old(self).params@.len() < usize::MAX,
        ensures
            final(self)@ == old(self)@.and_number(before@, value),
            final(self).params@.len() <= old(self).params@.len() + 1,
            final(self).params@.len() >= old(self).params@.len(),
    {
        match value {
            Some(n) => {
                self.and_value(before, SqlValue::Integer(n));
            },
            None => {},
        }
    }

    /// Adds a condition on all the values, where there are any.
    pub fn and_list(
        &mut self,
        open: &str,
        before: &str,
        after: &str,
        sep: &str,
        close: &str,
        values: Vec<SqlValue>,
    )
        requires
            old(self).params@.len() + values@.len() < usize::MAX,
        ensures
            final(self)@ == old(self)@.and_list(
                open@,
                before@,
                after@,
                sep@,
                close@,
                value_views(values@),
            ),
            final(self).params@.len() == old(self).params@.len() + values@.len(),
    {
        if values.len() > 0 {
            let list = numbered_placeholders(
                self.params.len() + 1,
                values.len(),
                before,
                after,
            );
            let mut clause = open.to_owned();
            clause.push_str(join(&list, sep).as_str());
            clause.push_str(close);
            self.clauses.push(clause);
            let ghost more = values@;
            let mut rest = values;
            self.params.append(&mut rest);
            let ghost wanted = old(self)@.and_list(
                open@,
                before@,
                after@,
                sep@,
                close@,
                value_views(more),
            );
            assert(self@.clauses =~= wanted.clauses);
            assert(self@.params =~= wanted.params);
        } else {
            assert(value_views(values@).len() == 0);
        }
    }
}

/// The integers as bound values.
pub fn integer_values(ids: &Vec<i64>) -> (r: Vec<SqlValue>)
    ensures
        value_views(r@) == ids@.map_values(|n: i64| SqlView::Integer(n)),
{
    let mut r: Vec<SqlValue> = Vec::new();
    let mut i: usize = 0;
    while i < ids.len()
        invariant
            i <= ids@.len(),
            r@.len() == i,
            forall|k: int| 0 <= k < i ==> (#[trigger] r@[k])@ == SqlView::Integer(ids@[k]),
        decreases ids@.len() - i,
    {
        r.push(SqlValue::Integer(ids[i]));
        i += 1;
    }
    assert(value_views(r@) =~= ids@.map_values(|n: i64| SqlView::Integer(n)));
    r
}

/// An optional text as a bound value.
pub open spec fn text_or_null(o: Option<String>) -> SqlView {
    match o {
        Some(s) => SqlView::Text(s@),
        None => SqlView::Null,
    }
}

/// An optional integer as a bound value.
pub open spec fn integer_or_null(o: Option<i64>) -> SqlView {
    match o {
        Some(n) => SqlView::Integer(n),
        None => SqlView::Null,
    }
}

/// A text as a bound value.
pub fn text(s: &str) -> (r: SqlValue)
    ensures
        r@ == SqlView::Text(s@),
{
    SqlValue::Text(s.to_owned())
}

/// An optional text as a bound value.
pub fn opt_text(o: &Option<String>) -> (r: SqlValue)
    ensures
        r@ == text_or_null(*o),
{
    match o {
        Some(s) => SqlValue::Text(s.clone()),
        None => SqlValue::Null,
    }
}

/// An optional integer as a bound value.
pub fn opt_integer(o: Option<i64>) -> (r: SqlValue)
    ensures
        r@ == integer_or_null(o),
{
    match o {
        Some(n) => SqlValue::Integer(n),
        None => SqlValue::Null,
    }
}

} // verus!
