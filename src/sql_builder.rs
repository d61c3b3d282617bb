//! Parameterised SQL construction: values always travel as `?` parameters.

use vstd::prelude::*;
use vstd::string::*;
use crate::text::{texts, str_texts, join_seq, decimal, owned, join_strings, extend_owned, push_decimal};

verus! {

/// What a builder holds, as text.
pub ghost struct SqlModel {
    pub select_cols: Seq<Seq<char>>,
    pub is_distinct: bool,
    pub from_table: Seq<char>,
    pub joins: Seq<Seq<char>>,
    pub where_clauses: Seq<Seq<char>>,
    pub params: Seq<Seq<char>>,
    pub group_by_cols: Seq<Seq<char>>,
    pub having_clauses: Seq<Seq<char>>,
    pub order_by_cols: Seq<Seq<char>>,
    pub limit_val: Option<usize>,
    pub offset_val: Option<usize>,
}


/// `head` followed by `items` joined with `sep`, as one line; no line when
/// `items` is empty.
pub open spec fn clause_line(items: Seq<Seq<char>>, head: Seq<char>, sep: Seq<char>) -> Seq<Seq<char>> {
    if items.len() == 0 {
        Seq::empty()
    } else {
        seq![head + join_seq(items, sep)]
    }
}

/// `n` question marks separated by `", "`.
pub open spec fn placeholders(n: nat) -> Seq<char> {
    join_seq(Seq::new(n, |i: int| "?"@), ", "@)
}

/// The optional `LIMIT` / `OFFSET` line.
pub open spec fn count_line(head: Seq<char>, v: Option<usize>) -> Seq<Seq<char>> {
    match v {
        Some(n) => seq![head + decimal(n as nat)],
        None => Seq::empty(),
    }
}

/// The lines of the query that a builder describes, in order.
pub open spec fn sql_lines(m: SqlModel) -> Seq<Seq<char>> {
    seq![
        "SELECT "@ + (if m.is_distinct { "DISTINCT "@ } else { Seq::empty() }) + join_seq(m.select_cols, ", "@),
        "FROM "@ + m.from_table,
    ] + m.joins
        + clause_line(m.where_clauses, "WHERE "@, " AND "@)
        + clause_line(m.group_by_cols, "GROUP BY "@, ", "@)
        + clause_line(m.having_clauses, "HAVING "@, " AND "@)
        + clause_line(m.order_by_cols, "ORDER BY "@, ", "@)
        + count_line("LIMIT "@, m.limit_val)
        + count_line("OFFSET "@, m.offset_val)
}

/// The SQL text of a builder: its lines joined by newlines.
pub open spec fn sql_text(m: SqlModel) -> Seq<char> {
    join_seq(sql_lines(m), "\n"@)
}

/// The first element of each pair.
pub open spec fn firsts(v: Seq<(&str, &str)>) -> Seq<Seq<char>> {
    v.map_values(|c: (&str, &str)| c.0@)
}

/// The second element of each pair.
pub open spec fn seconds(v: Seq<(&str, &str)>) -> Seq<Seq<char>> {
    v.map_values(|c: (&str, &str)| c.1@)
}

/// `head + text + tail` as a new string.
fn framed(head: &str, text: &str, tail: &str) -> (r: String)
    ensures
        r@ == head@ + text@ + tail@,
{
    let mut r = owned(head);
    r.append(text);
    r.append(tail);
    r
}

/// `head` followed by `items` joined with `sep`.
fn clause_text(items: &Vec<String>, head: &str, sep: &str) -> (r: String)
    requires
        items.len() > 0,
    ensures
        seq![r@] == clause_line(texts(items@), head@, sep@),
{
    let joined = join_strings(items, sep);
    let mut r = owned(head);
    r.append(joined.as_str());
    r
}

/// `n` question marks separated by `", "`.
pub fn placeholder_list(n: usize) -> (r: String)
    ensures
        r@ == placeholders(n as nat),
{
    let mut marks: Vec<String> = Vec::new();
    let mut i: usize = 0;
    while i < n
        invariant
            i <= n,
            texts(marks@) =~= Seq::new(i as nat, |k: int| "?"@),
        decreases n - i,
    {
        let ghost before = marks@;
        marks.push(owned("?"));
        proof {
            assert(texts(marks@) =~= texts(before).push("?"@));
        }
        i += 1;
    }
    join_strings(&marks, ", ")
}

/// `head` followed by the decimal rendering of `n`.
fn count_text(head: &str, n: usize) -> (r: String)
    ensures
        seq![r@] == count_line(head@, Some(n)),
{
    let mut r = owned(head);
    push_decimal(&mut r, n as u128);
    r
}

#[derive(Clone, Debug)]
/// Builds parameterised SQL queries; every user value is bound through a `?`.
pub struct SqlBuilder {
    select_cols: Vec<String>,
    is_distinct: bool,
    from_table: String,
    joins: Vec<String>,
    where_clauses: Vec<String>,
    params: Vec<String>,
    group_by_cols: Vec<String>,
    having_clauses: Vec<String>,
    order_by_cols: Vec<String>,
    limit_val: Option<usize>,
    offset_val: Option<usize>,
}

impl View for SqlBuilder {
    type V = SqlModel;

    closed spec fn view(&self) -> SqlModel {
        SqlModel {
            select_cols: texts(self.select_cols@),
            is_distinct: self.is_distinct,
            from_table: self.from_table@,
            joins: texts(self.joins@),
            where_clauses: texts(self.where_clauses@),
            params: texts(self.params@),
            group_by_cols: texts(self.group_by_cols@),
            having_clauses: texts(self.having_clauses@),
            order_by_cols: texts(self.order_by_cols@),
            limit_val: self.limit_val,
            offset_val: self.offset_val,
        }
    }
}

impl SqlBuilder {
    /// A builder that selects `*` from `table`.
    pub fn new(table: &str) -> (r: SqlBuilder)
        ensures
            r@ == (SqlModel {
                select_cols: seq![seq!['*']],
                is_distinct: false,
                from_table: table@,
                joins: Seq::empty(),
                where_clauses: Seq::empty(),
                params: Seq::empty(),
                group_by_cols: Seq::empty(),
                having_clauses: Seq::empty(),
                order_by_cols: Seq::empty(),
                limit_val: None,
                offset_val: None,
            }),
    {
        let mut star = String::new();
        crate::text::push_char(&mut star, '*');
        let select_cols = vec![star];
        let r = SqlBuilder {
            select_cols,
            is_distinct: false,
            from_table: owned(table),
            joins: Vec::new(),
            where_clauses: Vec::new(),
            params: Vec::new(),
            group_by_cols: Vec::new(),
            having_clauses: Vec::new(),
            order_by_cols: Vec::new(),
            limit_val: None,
            offset_val: None,
        };
        assert(r@.select_cols =~= seq![seq!['*']]);
        assert(r@.joins =~= Seq::empty());
        assert(r@.where_clauses =~= Seq::empty());
        assert(r@.params =~= Seq::empty());
        assert(r@.group_by_cols =~= Seq::empty());
        assert(r@.having_clauses =~= Seq::empty());
        assert(r@.order_by_cols =~= Seq::empty());
        r
    }

    /// Adds `DISTINCT` to the select clause.
    pub fn distinct(&mut self) -> (r: &mut Self)
        ensures
            r@ == (SqlModel { is_distinct: true, ..old(self)@ }),
            *final(self) == *final(r),
    {
        self.is_distinct = true;
        self
    }

    /// Replaces the selected columns (initially `*`).
    pub fn select(&mut self, cols: &[&str]) -> (r: &mut Self)
        ensures
            r@ == (SqlModel { select_cols: str_texts(cols@), ..old(self)@ }),
            *final(self) == *final(r),
    {
        let mut v: Vec<String> = Vec::new();
        extend_owned(&mut v, cols);
        assert(texts(v@) =~= str_texts(cols@));
        self.select_cols = v;
        self
    }

    /// Adds a full join clause, such as `JOIN sets s ON cards.setCode = s.code`.
    pub fn join(&mut self, clause: &str) -> (r: &mut Self)
        ensures
            r@ == (SqlModel { joins: old(self)@.joins.push(clause@), ..old(self)@ }),
            *final(self) == *final(r),
    {
        let ghost before = self.joins@;
        self.joins.push(owned(clause));
        assert(texts(self.joins@) =~= texts(before).push(clause@));
        self
    }

    /// Adds a condition whose `?` placeholders take `params`, in order.
    pub fn where_clause(&mut self, condition: &str, params: &[&str]) -> (r: &mut Self)
        ensures
            r@ == (SqlModel {
                where_clauses: old(self)@.where_clauses.push(condition@),
                params: old(self)@.params + str_texts(params@),
                ..old(self)@
            }),
            *final(self) == *final(r),
    {
        self.push_where(owned(condition));
        extend_owned(&mut self.params, params);
        self
    }

    /// Adds `LOWER(column) LIKE LOWER(?)` bound to `value`.
    pub fn where_like(&mut self, column: &str, value: &str) -> (r: &mut Self)
        ensures
            r@ == (SqlModel {
                where_clauses: old(self)@.where_clauses.push("LOWER("@ + column@ + ") LIKE LOWER(?)"@),
                params: old(self)@.params.push(value@),
                ..old(self)@
            }),
            *final(self) == *final(r),
    {
        self.push_where(framed("LOWER(", column, ") LIKE LOWER(?)"));
        self.push_param(value);
        self
    }

    /// Adds `column IN (?, ..)` bound to `values`; no values gives `FALSE`.
    pub fn where_in(&mut self, column: &str, values: &[&str]) -> (r: &mut Self)
        ensures
            values@.len() == 0 ==> r@ == (SqlModel {
                where_clauses: old(self)@.where_clauses.push("FALSE"@),
                ..old(self)@
            }),
            values@.len() > 0 ==> r@ == (SqlModel {
                where_clauses: old(self)@.where_clauses.push(
                    column@ + " IN ("@ + placeholders(values@.len()) + ")"@,
                ),
                params: old(self)@.params + str_texts(values@),
                ..old(self)@
            }),
            *final(self) == *final(r),
    {
        if values.len() == 0 {
            self.push_where(owned("FALSE"));
            return self;
        }
        let marks = placeholder_list(values.len());
        self.push_where(framed(column, " IN (", marks.as_str()).concat(")"));
        extend_owned(&mut self.params, values);
        self
    }

    /// Adds `column = ?` bound to `value`.
    pub fn where_eq(&mut self, column: &str, value: &str) -> (r: &mut Self)
        ensures
            r@ == (SqlModel {
                where_clauses: old(self)@.where_clauses.push(column@ + " = ?"@),
                params: old(self)@.params.push(value@),
                ..old(self)@
            }),
            *final(self) == *final(r),
    {
        self.push_where(owned(column).concat(" = ?"));
        self.push_param(value);
        self
    }

    /// Adds `column >= ?` bound to `value`.
    pub fn where_gte(&mut self, column: &str, value: &str) -> (r: &mut Self)
        ensures
            r@ == (SqlModel {
                where_clauses: old(self)@.where_clauses.push(column@ + " >= ?"@),
                params: old(self)@.params.push(value@),
                ..old(self)@
            }),
            *final(self) == *final(r),
    {
        self.push_where(owned(column).concat(" >= ?"));
        self.push_param(value);
        self
    }

    /// Adds `column <= ?` bound to `value`.
    pub fn where_lte(&mut self, column: &str, value: &str) -> (r: &mut Self)
        ensures
            r@ == (SqlModel {
                where_clauses: old(self)@.where_clauses.push(column@ + " <= ?"@),
                params: old(self)@.params.push(value@),
                ..old(self)@
            }),
            *final(self) == *final(r),
    {
        self.push_where(owned(column).concat(" <= ?"));
        self.push_param(value);
        self
    }

    /// Adds `regexp_matches(column, ?)` bound to `pattern`.
    pub fn where_regex(&mut self, column: &str, pattern: &str) -> (r: &mut Self)
        ensures
            r@ == (SqlModel {
                where_clauses: old(self)@.where_clauses.push("regexp_matches("@ + column@ + ", ?)"@),
                params: old(self)@.params.push(pattern@),
                ..old(self)@
            }),
            *final(self) == *final(r),
    {
        self.push_where(framed("regexp_matches(", column, ", ?)"));
        self.push_param(pattern);
        self
    }

    /// Adds the OR of `conditions`, each a fragment with one `?` and its
    /// value; no conditions leaves the builder as it was.
    pub fn where_or(&mut self, conditions: &[(&str, &str)]) -> (r: &mut Self)
        ensures
            conditions@.len() == 0 ==> r@ == old(self)@,
            conditions@.len() > 0 ==> r@ == (SqlModel {
                where_clauses: old(self)@.where_clauses.push(
                    "("@ + join_seq(firsts(conditions@), " OR "@) + ")"@,
                ),
                params: old(self)@.params + seconds(conditions@),
                ..old(self)@
            }),
            *final(self) == *final(r),
    {
        if conditions.len() == 0 {
            return self;
        }
        let mut parts: Vec<String> = Vec::new();
        let mut i: usize = 0;
        while i < conditions.len()
            invariant
                i <= conditions.len(),
                texts(parts@) =~= firsts(conditions@).take(i as int),
                self@ == (SqlModel { params: old(self)@.params + seconds(conditions@).take(i as int), ..old(self)@ }),
            decreases conditions.len() - i,
        {
            let (cond, param) = conditions[i];
            let ghost before = parts@;
            parts.push(owned(cond));
            self.push_param(param);
            proof {
                assert(texts(parts@) =~= texts(before).push(cond@));
                assert(seconds(conditions@).take(i + 1) =~= seconds(conditions@).take(i as int).push(param@));
            }
            i += 1;
        }
        assert(texts(parts@) =~= firsts(conditions@));
        assert(seconds(conditions@).take(conditions@.len() as int) =~= seconds(conditions@));
        let joined = join_strings(&parts, " OR ");
        self.push_where(framed("(", joined.as_str(), ")"));
        self
    }

    /// Adds `GROUP BY` columns.
    pub fn group_by(&mut self, cols: &[&str]) -> (r: &mut Self)
        ensures
            r@ == (SqlModel { group_by_cols: old(self)@.group_by_cols + str_texts(cols@), ..old(self)@ }),
            *final(self) == *final(r),
    {
        extend_owned(&mut self.group_by_cols, cols);
        self
    }

    /// Adds a `HAVING` condition whose `?` placeholders take `params`.
    pub fn having(&mut self, condition: &str, params: &[&str]) -> (r: &mut Self)
        ensures
            r@ == (SqlModel {
                having_clauses: old(self)@.having_clauses.push(condition@),
                params: old(self)@.params + str_texts(params@),
                ..old(self)@
            }),
            *final(self) == *final(r),
    {
        let ghost before = self.having_clauses@;
        self.having_clauses.push(owned(condition));
        assert(texts(self.having_clauses@) =~= texts(before).push(condition@));
        extend_owned(&mut self.params, params);
        self
    }

    /// Adds `ORDER BY` clauses such as `name ASC`.
    pub fn order_by(&mut self, clauses: &[&str]) -> (r: &mut Self)
        ensures
            r@ == (SqlModel { order_by_cols: old(self)@.order_by_cols + str_texts(clauses@), ..old(self)@ }),
            *final(self) == *final(r),
    {
        extend_owned(&mut self.order_by_cols, clauses);
        self
    }

    /// Caps the number of rows returned.
    pub fn limit(&mut self, n: usize) -> (r: &mut Self)
        ensures
            r@ == (SqlModel { limit_val: Some(n), ..old(self)@ }),
            *final(self) == *final(r),
    {
        self.limit_val = Some(n);
        self
    }

    /// Skips the first `n` rows.
    pub fn offset(&mut self, n: usize) -> (r: &mut Self)
        ensures
            r@ == (SqlModel { offset_val: Some(n), ..old(self)@ }),
            *final(self) == *final(r),
    {
        self.offset_val = Some(n);
        self
    }

    fn push_where(&mut self, clause: String)
        ensures
            final(self)@ == (SqlModel { where_clauses: old(self)@.where_clauses.push(clause@), ..old(self)@ }),
    {
        let ghost before = self.where_clauses@;
        self.where_clauses.push(clause);
        assert(texts(self.where_clauses@) =~= texts(before).push(clause@));
    }

    fn push_param(&mut self, value: &str)
        ensures
            final(self)@ == (SqlModel { params: old(self)@.params.push(value@), ..old(self)@ }),
    {
        let ghost before = self.params@;
        self.params.push(owned(value));
        assert(texts(self.params@) =~= texts(before).push(value@));
    }

    /// The `SELECT` and `FROM` lines followed by the join clauses.
    fn head_lines(&self) -> (parts: Vec<String>)
        ensures
            texts(parts@) == sql_lines(self@).take(2 + self@.joins.len() as int),
    {
        let ghost m = self@;
        let mut parts: Vec<String> = Vec::new();
        let mut head = owned("SELECT ");
        if self.is_distinct {
            head.append("DISTINCT ");
        }
        let cols = join_strings(&self.select_cols, ", ");
        head.append(cols.as_str());
        parts.push(head);
        parts.push(owned("FROM ").concat(self.from_table.as_str()));
        let ghost first = texts(parts@);
        assert(first =~= sql_lines(m).take(2));
        let mut i: usize = 0;
        while i < self.joins.len()
            invariant
                i <= self.joins.len(),
                m == self@,
                texts(parts@) =~= first + m.joins.take(i as int),
            decreases self.joins.len() - i,
        {
            let ghost before = parts@;
            parts.push(self.joins[i].clone());
            proof {
                assert(texts(parts@) =~= texts(before).push(m.joins[i as int]));
                assert(m.joins.take(i + 1) =~= m.joins.take(i as int).push(m.joins[i as int]));
            }
            i += 1;
        }
        assert(m.joins.take(m.joins.len() as int) =~= m.joins);
        assert(texts(parts@) =~= sql_lines(m).take(2 + m.joins.len() as int));
        parts
    }

    /// The SQL text, one clause per line, and the parameters in order.
    pub fn build(&self) -> (r: (String, Vec<String>))
        ensures
            r.0@ == sql_text(self@),
            texts(r.1@) == self@.params,
    {
        let ghost m = self@;
        let mut parts = self.head_lines();
        push_clause(&mut parts, &self.where_clauses, "WHERE ", " AND ");
        push_clause(&mut parts, &self.group_by_cols, "GROUP BY ", ", ");
        push_clause(&mut parts, &self.having_clauses, "HAVING ", " AND ");
        push_clause(&mut parts, &self.order_by_cols, "ORDER BY ", ", ");
        push_count(&mut parts, "LIMIT ", self.limit_val);
        push_count(&mut parts, "OFFSET ", self.offset_val);
        assert(texts(parts@) =~= sql_lines(m));
        (join_strings(&parts, "\n"), clone_strings(&self.params))
    }
}

/// Appends the clause line of `items`, if there is one.
fn push_clause(parts: &mut Vec<String>, items: &Vec<String>, head: &str, sep: &str)
    ensures
        texts(final(parts)@) == texts(old(parts)@) + clause_line(texts(items@), head@, sep@),
{
    let ghost before = parts@;
    if items.len() > 0 {
        let line = clause_text(items, head, sep);
        parts.push(line);
        assert(texts(parts@) =~= texts(before) + seq![line@]);
    } else {
        assert(texts(parts@) =~= texts(before) + clause_line(texts(items@), head@, sep@));
    }
}

/// Appends the `LIMIT` / `OFFSET` line, if the value is set.
fn push_count(parts: &mut Vec<String>, head: &str, v: Option<usize>)
    ensures
        texts(final(parts)@) == texts(old(parts)@) + count_line(head@, v),
{
    let ghost before = parts@;
    if let Some(n) = v {
        let line = count_text(head, n);
        parts.push(line);
        assert(texts(parts@) =~= texts(before) + seq![line@]);
    } else {
        assert(texts(parts@) =~= texts(before) + count_line(head@, v));
    }
}

/// A copy of each string.
fn clone_strings(v: &Vec<String>) -> (r: Vec<String>)
    ensures
        texts(r@) == texts(v@),
{
    let mut r: Vec<String> = Vec::new();
    let mut i: usize = 0;
    while i < v.len()
        invariant
            i <= v.len(),
            texts(r@) =~= texts(v@).take(i as int),
        decreases v.len() - i,
    {
        let ghost before = r@;
        r.push(v[i].clone());
        assert(texts(r@) =~= texts(before).push(v@[i as int]@));
        i += 1;
    }
    assert(texts(v@).take(v.len() as int) =~= texts(v@));
    r
}

} // verus!
