//! Search parameters for sets and tokens, and the query each describes.

use vstd::prelude::*;
use vstd::string::*;
use crate::sql_builder::{SqlBuilder, SqlModel};
use crate::text::{owned, push_char, texts};
use crate::value::{huge_int_text, signed_decimal};

verus! {

/// Rows returned when no limit is given.
pub const DEFAULT_SEARCH_LIMIT: usize = 100;

/// Filters of a set search; each absent filter is skipped.
#[derive(Clone, Debug)]
pub struct SearchSetsParams {
    pub name: Option<String>,
    pub set_type: Option<String>,
    pub block: Option<String>,
    pub release_year: Option<i32>,
    pub limit: Option<usize>,
    pub offset: Option<usize>,
}

/// Filters of a token search; each absent filter is skipped.
#[derive(Clone, Debug)]
pub struct SearchTokensParams {
    pub name: Option<String>,
    pub set_code: Option<String>,
    pub colors: Option<Vec<String>>,
    pub types: Option<String>,
    pub artist: Option<String>,
    pub limit: Option<usize>,
    pub offset: Option<usize>,
}

impl Default for SearchSetsParams {
    fn default() -> (r: Self)
        ensures
            r.name is None && r.set_type is None && r.block is None && r.release_year is None,
            r.limit is None && r.offset is None,
    {
        SearchSetsParams { name: None, set_type: None, block: None, release_year: None, limit: None, offset: None }
    }
}

impl Default for SearchTokensParams {
    fn default() -> (r: Self)
        ensures
            r.name is None && r.set_code is None && r.colors is None && r.types is None && r.artist is None,
            r.limit is None && r.offset is None,
    {
        SearchTokensParams { name: None, set_code: None, colors: None, types: None, artist: None, limit: None, offset: None }
    }
}

/// `%text%`: a pattern matching any text that contains `t`.
pub open spec fn containing(t: Seq<char>) -> Seq<char> {
    seq!['%'] + t + seq!['%']
}

/// `m` with one more condition and its parameters.
pub open spec fn with_condition(m: SqlModel, clause: Seq<char>, params: Seq<Seq<char>>) -> SqlModel {
    SqlModel { where_clauses: m.where_clauses.push(clause), params: m.params + params, ..m }
}

/// `m` with an optional condition: skipped when `v` is absent.
pub open spec fn with_optional(m: SqlModel, v: Option<String>, clause: Seq<char>, value: spec_fn(Seq<char>) -> Seq<char>) -> SqlModel {
    match v {
        Some(s) => with_condition(m, clause, seq![value(s@)]),
        None => m,
    }
}

/// `m` with its row window: the limit (100 when absent) and the offset
/// (0 when absent).
pub open spec fn with_window(m: SqlModel, limit: Option<usize>, offset: Option<usize>) -> SqlModel {
    SqlModel {
        limit_val: Some(limit.unwrap_or(DEFAULT_SEARCH_LIMIT)),
        offset_val: Some(offset.unwrap_or(0)),
        ..m
    }
}

/// A builder over `table` with nothing added.
pub open spec fn fresh(table: Seq<char>) -> SqlModel {
    SqlModel {
        select_cols: seq![seq!['*']],
        is_distinct: false,
        from_table: table,
        joins: Seq::empty(),
        where_clauses: Seq::empty(),
        params: Seq::empty(),
        group_by_cols: Seq::empty(),
        having_clauses: Seq::empty(),
        order_by_cols: Seq::empty(),
        limit_val: None,
        offset_val: None,
    }
}

/// The set search: newest first; name as a case-insensitive substring,
/// type and block exactly, release year against the year of the release
/// date.
pub open spec fn sets_query(p: SearchSetsParams) -> SqlModel {
    let m0 = SqlModel { order_by_cols: seq!["releaseDate DESC"@], ..fresh("sets"@) };
    let m1 = with_optional(m0, p.name, "LOWER("@ + "name"@ + ") LIKE LOWER(?)"@, |t: Seq<char>| containing(t));
    let m2 = with_optional(m1, p.set_type, "type"@ + " = ?"@, |t: Seq<char>| t);
    let m3 = with_optional(m2, p.block, "block"@ + " = ?"@, |t: Seq<char>| t);
    let m4 = match p.release_year {
        Some(y) => with_condition(m3, "EXTRACT(YEAR FROM CAST(releaseDate AS DATE)) = ?"@, seq![signed_decimal(y as int)]),
        None => m3,
    };
    with_window(m4, p.limit, p.offset)
}

/// One `list_contains` condition per color, in order.
pub open spec fn with_colors(m: SqlModel, colors: Seq<Seq<char>>) -> SqlModel
    decreases colors.len(),
{
    if colors.len() == 0 {
        m
    } else {
        with_condition(with_colors(m, colors.drop_last()), "list_contains(tokens.colors, ?)"@, seq![colors.last()])
    }
}

/// The token search: a name holding `%` is a case-insensitive pattern,
/// another name matches exactly; set code exactly; every color listed;
/// type and artist as case-insensitive substrings.
pub open spec fn tokens_query(p: SearchTokensParams) -> SqlModel {
    let m0 = fresh("tokens"@);
    let m1 = match p.name {
        Some(n) => if n@.contains('%') {
            with_condition(m0, "LOWER("@ + "tokens.name"@ + ") LIKE LOWER(?)"@, seq![n@])
        } else {
            with_condition(m0, "tokens.name"@ + " = ?"@, seq![n@])
        },
        None => m0,
    };
    let m2 = with_optional(m1, p.set_code, "tokens.setCode"@ + " = ?"@, |t: Seq<char>| t);
    let m3 = match p.colors {
        Some(c) => with_colors(m2, texts(c@)),
        None => m2,
    };
    let m4 = with_optional(m3, p.types, "LOWER("@ + "tokens.type"@ + ") LIKE LOWER(?)"@, |t: Seq<char>| containing(t));
    let m5 = with_optional(m4, p.artist, "LOWER("@ + "tokens.artist"@ + ") LIKE LOWER(?)"@, |t: Seq<char>| containing(t));
    with_window(m5, p.limit, p.offset)
}

/// `%text%`.
fn containing_pattern(t: &str) -> (r: String)
    ensures
        r@ == containing(t@),
{
    let mut r = String::new();
    push_char(&mut r, '%');
    r.append(t);
    push_char(&mut r, '%');
    assert(r@ =~= containing(t@));
    r
}

/// Whether `s` holds the character `c`.
pub fn has_char(s: &str, c: char) -> (r: bool)
    ensures
        r == s@.contains(c),
{
    let n = s.unicode_len();
    let mut i: usize = 0;
    while i < n
        invariant
            i <= n,
            n == s@.len(),
            forall|k: int| 0 <= k < i ==> s@[k] != c,
        decreases n - i,
    {
        if s.get_char(i) == c {
            return true;
        }
        i += 1;
    }
    false
}

impl SearchSetsParams {
    /// The query of this search.
    pub fn search_query(&self) -> (r: SqlBuilder)
        ensures
            r@ == sets_query(*self),
    {
        let mut qb = SqlBuilder::new("sets");
        let order: [&str; 1] = ["releaseDate DESC"];
        assert(crate::text::str_texts(order@) =~= seq!["releaseDate DESC"@]);
        qb.order_by(&order);
        assert(Seq::<Seq<char>>::empty() + seq!["releaseDate DESC"@] =~= seq!["releaseDate DESC"@]);
        let ghost m0 = qb@;
        assert(m0 == (SqlModel { order_by_cols: seq!["releaseDate DESC"@], ..fresh("sets"@) }));
        if let Some(name) = &self.name {
            let pattern = containing_pattern(name.as_str());
            qb.where_like("name", pattern.as_str());
            assert(m0.params.push(pattern@) =~= m0.params + seq![pattern@]);
        }
        let ghost m1 = qb@;
        if let Some(st) = &self.set_type {
            qb.where_eq("type", st.as_str());
            assert(m1.params.push(st@) =~= m1.params + seq![st@]);
        }
        let ghost m2 = qb@;
        if let Some(block) = &self.block {
            qb.where_eq("block", block.as_str());
            assert(m2.params.push(block@) =~= m2.params + seq![block@]);
        }
        if let Some(year) = self.release_year {
            let y = huge_int_text(year as i128);
            let args: [&str; 1] = [y.as_str()];
            assert(crate::text::str_texts(args@) =~= seq![y@]);
            qb.where_clause("EXTRACT(YEAR FROM CAST(releaseDate AS DATE)) = ?", &args);
        }
        let limit = match self.limit { Some(l) => l, None => DEFAULT_SEARCH_LIMIT };
        let offset = match self.offset { Some(o) => o, None => 0 };
        qb.limit(limit);
        qb.offset(offset);
        qb
    }
}

impl SearchTokensParams {
    /// The query of this search.
    pub fn search_query(&self) -> (r: SqlBuilder)
        ensures
            r@ == tokens_query(*self),
    {
        let mut qb = SqlBuilder::new("tokens");
        let ghost m0 = qb@;
        if let Some(name) = &self.name {
            if has_char(name.as_str(), '%') {
                qb.where_like("tokens.name", name.as_str());
            } else {
                qb.where_eq("tokens.name", name.as_str());
            }
            assert(m0.params.push(name@) =~= m0.params + seq![name@]);
        }
        let ghost m1 = qb@;
        if let Some(sc) = &self.set_code {
            qb.where_eq("tokens.setCode", sc.as_str());
            assert(m1.params.push(sc@) =~= m1.params + seq![sc@]);
        }
        if let Some(colors) = &self.colors {
            let ghost start = qb@;
            let mut i: usize = 0;
            while i < colors.len()
                invariant
                    i <= colors.len(),
                    qb@ == with_colors(start, texts(colors@).take(i as int)),
                decreases colors.len() - i,
            {
                assert(texts(colors@).take(i + 1).drop_last() =~= texts(colors@).take(i as int));
                assert(texts(colors@).take(i + 1).last() == colors@[i as int]@);
                let args: [&str; 1] = [colors[i].as_str()];
                assert(crate::text::str_texts(args@) =~= seq![colors@[i as int]@]);
                qb.where_clause("list_contains(tokens.colors, ?)", &args);
                i += 1;
            }
            assert(texts(colors@).take(colors.len() as int) =~= texts(colors@));
        }
        let ghost m3 = qb@;
        if let Some(types) = &self.types {
            let pattern = containing_pattern(types.as_str());
            qb.where_like("tokens.type", pattern.as_str());
            assert(m3.params.push(pattern@) =~= m3.params + seq![pattern@]);
        }
        let ghost m4 = qb@;
        if let Some(artist) = &self.artist {
            let pattern = containing_pattern(artist.as_str());
            qb.where_like("tokens.artist", pattern.as_str());
            assert(m4.params.push(pattern@) =~= m4.params + seq![pattern@]);
        }
        let limit = match self.limit { Some(l) => l, None => DEFAULT_SEARCH_LIMIT };
        let offset = match self.offset { Some(o) => o, None => 0 };
        qb.limit(limit);
        qb.offset(offset);
        qb
    }
}

} // verus!
