//! Column-adaptation planning: which text columns of a snapshot are really
//! lists or JSON objects, and the SQL that registers a view over the file.

use vstd::prelude::*;
use vstd::string::*;
use crate::config::same_text;
use crate::order::{insert_sorted, lemma_sorted_unique, strictly_sorted};
use crate::text::{texts, str_texts, join_seq, owned, join_strings, push_char};

verus! {

/// A schema as (column name, declared type) pairs, as text.
pub open spec fn schema_view(s: Seq<(String, String)>) -> Seq<(Seq<char>, Seq<char>)> {
    s.map_values(|e: (String, String)| (e.0@, e.1@))
}

/// Known list columns of `view` whose names do not end in `s` or that must
/// be lists whatever the heuristic says.
pub open spec fn static_lists(view: Seq<char>) -> Seq<Seq<char>> {
    if view == "cards"@ {
        seq!["artistIds"@, "attractionLights"@, "availability"@, "boosterTypes"@, "cardParts"@, "colorIdentity"@, "colorIndicator"@, "colors"@, "finishes"@, "frameEffects"@, "keywords"@, "originalPrintings"@, "otherFaceIds"@, "printings"@, "producedMana"@, "promoTypes"@, "rebalancedPrintings"@, "subsets"@, "subtypes"@, "supertypes"@, "types"@, "variations"@]
    } else if view == "tokens"@ {
        seq!["artistIds"@, "availability"@, "boosterTypes"@, "colorIdentity"@, "colorIndicator"@, "colors"@, "finishes"@, "frameEffects"@, "keywords"@, "otherFaceIds"@, "producedMana"@, "promoTypes"@, "reverseRelated"@, "subtypes"@, "supertypes"@, "types"@]
    } else {
        Seq::empty()
    }
}

/// Text columns that are never lists: prose, JSON objects and scalars.
pub open spec fn ignored() -> Seq<Seq<char>> {
    seq!["text"@, "originalText"@, "flavorText"@, "printedText"@, "identifiers"@, "legalities"@, "leadershipSkills"@, "purchaseUrls"@, "relatedCards"@, "rulings"@, "sourceProducts"@, "foreignData"@, "translations"@, "toughness"@, "status"@, "format"@, "uris"@, "scryfallUri"@]
}

/// Text columns that hold JSON objects, in name order.
pub open spec fn json_casts() -> Seq<Seq<char>> {
    seq!["foreignData"@, "identifiers"@, "leadershipSkills"@, "legalities"@, "purchaseUrls"@, "relatedCards"@, "rulings"@, "sourceProducts"@, "translations"@]
}

/// The naming heuristic: a plural-looking name.
pub open spec fn ends_in_s(c: Seq<char>) -> bool {
    c.len() > 0 && c.last() == 's'
}

/// Whether a schema entry is a text column to split into a list.
pub open spec fn is_list_column(view: Seq<char>, e: (Seq<char>, Seq<char>)) -> bool {
    e.1 == "VARCHAR"@ && (static_lists(view).contains(e.0) || (!ignored().contains(e.0) && ends_in_s(e.0)))
}

/// Whether `schema` declares `col` as a text column.
pub open spec fn is_text_column(schema: Seq<(Seq<char>, Seq<char>)>, col: Seq<char>) -> bool {
    exists|i: int| 0 <= i < schema.len() && schema[i].0 == col && schema[i].1 == "VARCHAR"@
}

/// The names that are list columns of `schema`: text columns that are
/// known list columns of `view`, or whose plural-looking names are not
/// blocked.
pub open spec fn list_candidates(view: Seq<char>, schema: Seq<(Seq<char>, Seq<char>)>) -> Set<Seq<char>> {
    Set::new(|c: Seq<char>| is_text_column(schema, c) && (static_lists(view).contains(c) || (!ignored().contains(c) && ends_in_s(c))))
}

/// The list columns of `schema`, each once, sorted by name.
pub open spec fn list_columns(view: Seq<char>, schema: Seq<(Seq<char>, Seq<char>)>) -> Seq<Seq<char>> {
    choose|s: Seq<Seq<char>>| strictly_sorted(s) && s.to_set() == list_candidates(view, schema)
}

/// The entries of `cols` that `schema` declares as text columns.
pub open spec fn present_text(cols: Seq<Seq<char>>, schema: Seq<(Seq<char>, Seq<char>)>) -> Seq<Seq<char>>
    decreases cols.len(),
{
    if cols.len() == 0 {
        Seq::empty()
    } else if is_text_column(schema, cols.last()) {
        present_text(cols.drop_last(), schema).push(cols.last())
    } else {
        present_text(cols.drop_last(), schema)
    }
}

/// The JSON columns of `schema`, in name order.
pub open spec fn json_columns(schema: Seq<(Seq<char>, Seq<char>)>) -> Seq<Seq<char>> {
    present_text(json_casts(), schema)
}

/// `"c"`: a quoted column name.
pub open spec fn quoted(c: Seq<char>) -> Seq<char> {
    seq!['"'] + c + seq!['"']
}

/// Empty or blank text becomes an empty list; other text is split on `", "`.
pub open spec fn list_expr(c: Seq<char>) -> Seq<char> {
    "CASE WHEN "@ + quoted(c) + " IS NULL OR TRIM("@ + quoted(c) + ") = '' THEN []::VARCHAR[] ELSE string_split("@
        + quoted(c) + ", ', ') END AS "@ + quoted(c)
}

/// Text becomes JSON where it parses, null where it does not.
pub open spec fn json_expr(c: Seq<char>) -> Seq<char> {
    "TRY_CAST("@ + quoted(c) + " AS JSON) AS "@ + quoted(c)
}

/// The rewrite expressions for a snapshot: list columns sorted by name,
/// then JSON columns in name order.
pub open spec fn rewrite_exprs(view: Seq<char>, schema: Seq<(Seq<char>, Seq<char>)>) -> Seq<Seq<char>> {
    list_columns(view, schema).map_values(|c: Seq<char>| list_expr(c))
        + json_columns(schema).map_values(|c: Seq<char>| json_expr(c))
}

/// The `REPLACE (...)` part of the view's select list; empty when nothing is rewritten.
pub open spec fn replace_clause(view: Seq<char>, schema: Seq<(Seq<char>, Seq<char>)>) -> Seq<char> {
    let exprs = rewrite_exprs(view, schema);
    if exprs.len() == 0 {
        Seq::empty()
    } else {
        " REPLACE ("@ + join_seq(exprs, ", "@) + ")"@
    }
}

/// Known list columns of `view` (see `static_lists`).
pub fn static_list_columns(view: &str) -> (r: Vec<&'static str>)
    ensures
        str_texts(r@) == static_lists(view@),
{
    if same_text(view, "cards") {
        let r = vec!["artistIds", "attractionLights", "availability", "boosterTypes", "cardParts", "colorIdentity", "colorIndicator", "colors", "finishes", "frameEffects", "keywords", "originalPrintings", "otherFaceIds", "printings", "producedMana", "promoTypes", "rebalancedPrintings", "subsets", "subtypes", "supertypes", "types", "variations"];
        assert(str_texts(r@) =~= static_lists(view@));
        r
    } else if same_text(view, "tokens") {
        let r = vec!["artistIds", "availability", "boosterTypes", "colorIdentity", "colorIndicator", "colors", "finishes", "frameEffects", "keywords", "otherFaceIds", "producedMana", "promoTypes", "reverseRelated", "subtypes", "supertypes", "types"];
        assert(str_texts(r@) =~= static_lists(view@));
        r
    } else {
        let r: Vec<&'static str> = Vec::new();
        assert(str_texts(r@) =~= static_lists(view@));
        r
    }
}

/// Text columns that are never lists (see `ignored`).
pub fn ignored_columns() -> (r: Vec<&'static str>)
    ensures
        str_texts(r@) == ignored(),
{
    let r = vec!["text", "originalText", "flavorText", "printedText", "identifiers", "legalities", "leadershipSkills", "purchaseUrls", "relatedCards", "rulings", "sourceProducts", "foreignData", "translations", "toughness", "status", "format", "uris", "scryfallUri"];
    assert(str_texts(r@) =~= ignored());
    r
}

/// Text columns that hold JSON objects (see `json_casts`).
pub fn json_cast_columns() -> (r: Vec<&'static str>)
    ensures
        str_texts(r@) == json_casts(),
{
    let r = vec!["foreignData", "identifiers", "leadershipSkills", "legalities", "purchaseUrls", "relatedCards", "rulings", "sourceProducts", "translations"];
    assert(str_texts(r@) =~= json_casts());
    r
}

/// Whether `list` holds `s`.
pub fn contains_text(list: &Vec<&'static str>, s: &str) -> (r: bool)
    ensures
        r == str_texts(list@).contains(s@),
{
    let mut i: usize = 0;
    while i < list.len()
        invariant
            i <= list.len(),
            forall|k: int| 0 <= k < i ==> str_texts(list@)[k] != s@,
        decreases list.len() - i,
    {
        if same_text(list[i], s) {
            assert(str_texts(list@)[i as int] == s@);
            return true;
        }
        i += 1;
    }
    false
}

/// Whether the last character of `s` is `s`.
pub fn ends_with_s(s: &str) -> (r: bool)
    ensures
        r == ends_in_s(s@),
{
    let n = s.unicode_len();
    if n == 0 {
        false
    } else {
        s.get_char(n - 1) == 's'
    }
}


/// Whether `schema` declares `col` as a text column.
pub fn has_text_column(schema: &Vec<(String, String)>, col: &str) -> (r: bool)
    ensures
        r == is_text_column(schema_view(schema@), col@),
{
    let ghost sv = schema_view(schema@);
    let mut i: usize = 0;
    while i < schema.len()
        invariant
            i <= schema.len(),
            sv == schema_view(schema@),
            forall|k: int| 0 <= k < i ==> !(sv[k].0 == col@ && sv[k].1 == "VARCHAR"@),
        decreases schema.len() - i,
    {
        if same_text(schema[i].0.as_str(), col) && same_text(schema[i].1.as_str(), "VARCHAR") {
            assert(sv[i as int].0 == col@ && sv[i as int].1 == "VARCHAR"@);
            return true;
        }
        i += 1;
    }
    false
}

/// The columns of `schema` to split into lists when registering `view`,
/// each once, sorted by name.
pub fn list_columns_of(view: &str, schema: &Vec<(String, String)>) -> (r: Vec<String>)
    ensures
        strictly_sorted(texts(r@)),
        texts(r@).to_set() == list_candidates(view@, schema_view(schema@)),
        texts(r@) == list_columns(view@, schema_view(schema@)),
{
    let statics = static_list_columns(view);
    let blocked = ignored_columns();
    let ghost sv = schema_view(schema@);
    let mut out: Vec<String> = Vec::new();
    let mut i: usize = 0;
    assert(texts(out@).to_set() =~= Set::<Seq<char>>::empty());
    while i < schema.len()
        invariant
            i <= schema.len(),
            sv == schema_view(schema@),
            str_texts(statics@) == static_lists(view@),
            str_texts(blocked@) == ignored(),
            strictly_sorted(texts(out@)),
            texts(out@).to_set() == Set::new(|c: Seq<char>| exists|k: int| 0 <= k < i && sv[k].0 == c && #[trigger] is_list_column(view@, sv[k])),
        decreases schema.len() - i,
    {
        let name = schema[i].0.as_str();
        let is_list = same_text(schema[i].1.as_str(), "VARCHAR") && (contains_text(&statics, name) || (
        !contains_text(&blocked, name) && ends_with_s(name)));
        assert(is_list == is_list_column(view@, sv[i as int]));
        let ghost before = texts(out@).to_set();
        if is_list {
            insert_sorted(&mut out, owned(name));
        }
        assert(texts(out@).to_set() =~= Set::new(|c: Seq<char>| exists|k: int| 0 <= k < i + 1 && sv[k].0 == c && #[trigger] is_list_column(view@, sv[k]))) by {
            assert forall|c: Seq<char>| texts(out@).to_set().contains(c) <==> (exists|k: int| 0 <= k < i + 1 && sv[k].0 == c && #[trigger] is_list_column(view@, sv[k])) by {
                if exists|k: int| 0 <= k < i + 1 && sv[k].0 == c && #[trigger] is_list_column(view@, sv[k]) {
                    let k = choose|k: int| 0 <= k < i + 1 && sv[k].0 == c && #[trigger] is_list_column(view@, sv[k]);
                    if k < i {
                        assert(before.contains(c));
                    }
                }
            }
        }
        i += 1;
    }
    let ghost cands = list_candidates(view@, sv);
    assert(texts(out@).to_set() =~= cands) by {
        assert forall|c: Seq<char>| texts(out@).to_set().contains(c) <==> cands.contains(c) by {
            if exists|k: int| 0 <= k < schema.len() && sv[k].0 == c && #[trigger] is_list_column(view@, sv[k]) {
                let k = choose|k: int| 0 <= k < schema.len() && sv[k].0 == c && #[trigger] is_list_column(view@, sv[k]);
                assert(is_text_column(sv, c));
            }
            if cands.contains(c) {
                let k = choose|k: int| 0 <= k < sv.len() && sv[k].0 == c && sv[k].1 == "VARCHAR"@;
                assert(is_list_column(view@, sv[k]));
            }
        }
    }
    proof {
        let chosen = list_columns(view@, sv);
        assert(strictly_sorted(chosen) && chosen.to_set() == cands);
        lemma_sorted_unique(texts(out@), chosen);
    }
    out
}

/// The JSON columns of `schema`, in name order.
pub fn json_columns_of(schema: &Vec<(String, String)>) -> (r: Vec<String>)
    ensures
        texts(r@) == json_columns(schema_view(schema@)),
{
    let casts = json_cast_columns();
    let ghost cv = str_texts(casts@);
    let mut out: Vec<String> = Vec::new();
    let mut i: usize = 0;
    while i < casts.len()
        invariant
            i <= casts.len(),
            cv == str_texts(casts@),
            cv == json_casts(),
            texts(out@) == present_text(cv.take(i as int), schema_view(schema@)),
        decreases casts.len() - i,
    {
        let ghost before = out@;
        assert(cv.take(i + 1).drop_last() =~= cv.take(i as int));
        assert(cv.take(i + 1).last() == casts@[i as int]@);
        if has_text_column(schema, casts[i]) {
            out.push(owned(casts[i]));
            assert(texts(out@) =~= texts(before).push(casts@[i as int]@));
        }
        i += 1;
    }
    assert(cv.take(casts.len() as int) =~= cv);
    out
}

/// `"c"`: a quoted column name.
fn quote(c: &str) -> (r: String)
    ensures
        r@ == quoted(c@),
{
    let mut r = String::new();
    push_char(&mut r, '"');
    r.append(c);
    push_char(&mut r, '"');
    assert(r@ =~= quoted(c@));
    r
}

/// The list rewrite of column `c`.
pub fn list_rewrite(c: &str) -> (r: String)
    ensures
        r@ == list_expr(c@),
{
    let q = quote(c);
    let mut r = owned("CASE WHEN ");
    r.append(q.as_str());
    r.append(" IS NULL OR TRIM(");
    r.append(q.as_str());
    r.append(") = '' THEN []::VARCHAR[] ELSE string_split(");
    r.append(q.as_str());
    r.append(", ', ') END AS ");
    r.append(q.as_str());
    r
}

/// The JSON rewrite of column `c`.
pub fn json_rewrite(c: &str) -> (r: String)
    ensures
        r@ == json_expr(c@),
{
    let q = quote(c);
    let mut r = owned("TRY_CAST(");
    r.append(q.as_str());
    r.append(" AS JSON) AS ");
    r.append(q.as_str());
    r
}

/// The `REPLACE (...)` part that adapts a snapshot registered as `view`.
pub fn build_replace(view: &str, schema: &Vec<(String, String)>) -> (r: String)
    ensures
        r@ == replace_clause(view@, schema_view(schema@)),
{
    let lists = list_columns_of(view, schema);
    let jsons = json_columns_of(schema);
    let ghost lv = texts(lists@);
    let ghost jv = texts(jsons@);
    let mut exprs: Vec<String> = Vec::new();
    let mut i: usize = 0;
    while i < lists.len()
        invariant
            i <= lists.len(),
            lv == texts(lists@),
            texts(exprs@) =~= lv.take(i as int).map_values(|c: Seq<char>| list_expr(c)),
        decreases lists.len() - i,
    {
        let ghost before = exprs@;
        exprs.push(list_rewrite(lists[i].as_str()));
        assert(lv.take(i + 1) =~= lv.take(i as int).push(lv[i as int]));
        assert(texts(exprs@) =~= texts(before).push(list_expr(lv[i as int])));
        i += 1;
    }
    assert(lv.take(lists.len() as int) =~= lv);
    let ghost mid = texts(exprs@);
    let mut j: usize = 0;
    while j < jsons.len()
        invariant
            j <= jsons.len(),
            jv == texts(jsons@),
            texts(exprs@) =~= mid + jv.take(j as int).map_values(|c: Seq<char>| json_expr(c)),
        decreases jsons.len() - j,
    {
        let ghost before = exprs@;
        exprs.push(json_rewrite(jsons[j].as_str()));
        assert(jv.take(j + 1) =~= jv.take(j as int).push(jv[j as int]));
        assert(texts(exprs@) =~= texts(before).push(json_expr(jv[j as int])));
        j += 1;
    }
    assert(jv.take(jsons.len() as int) =~= jv);
    assert(texts(exprs@) =~= rewrite_exprs(view@, schema_view(schema@)));
    if exprs.len() == 0 {
        String::new()
    } else {
        let mut r = owned(" REPLACE (");
        let joined = join_strings(&exprs, ", ");
        r.append(joined.as_str());
        r.append(")");
        r
    }
}


/// The dataset whose wide format columns are reshaped into rows.
pub open spec fn is_legalities(view: Seq<char>) -> bool {
    view == "card_legalities"@
}

/// A path with every backslash turned into a forward slash.
pub open spec fn forward_slashes(p: Seq<char>) -> Seq<char> {
    p.map_values(|c: char| if c == '\\' { '/' } else { c })
}

/// The table function that reads a snapshot file.
pub open spec fn parquet_source(path: Seq<char>) -> Seq<char> {
    "read_parquet('"@ + path + "')"@
}

/// The query for a snapshot's column names and declared types (no row scan).
pub open spec fn describe_sql(path: Seq<char>) -> Seq<char> {
    "SELECT column_name, column_type FROM (DESCRIBE SELECT * FROM "@ + parquet_source(path) + ")"@
}

/// The statement that registers `view` over the snapshot at `path`.
pub open spec fn view_sql(view: Seq<char>, replace: Seq<char>, path: Seq<char>) -> Seq<char> {
    "CREATE OR REPLACE VIEW "@ + view + " AS SELECT *"@ + replace + " FROM "@ + parquet_source(path)
}

/// Every column but the identifier: one per format.
pub open spec fn format_columns(cols: Seq<Seq<char>>) -> Seq<Seq<char>>
    decreases cols.len(),
{
    if cols.len() == 0 {
        Seq::empty()
    } else if cols.last() != "uuid"@ {
        format_columns(cols.drop_last()).push(cols.last())
    } else {
        format_columns(cols.drop_last())
    }
}

/// The statement that registers the legalities view: with format columns,
/// one `(uuid, format, status)` row per card and format with a status;
/// without, the file as it is.
pub open spec fn legalities_sql(cols: Seq<Seq<char>>, path: Seq<char>) -> Seq<char> {
    let formats = format_columns(cols);
    if formats.len() == 0 {
        "CREATE OR REPLACE VIEW card_legalities AS SELECT * FROM "@ + parquet_source(path)
    } else {
        "CREATE OR REPLACE VIEW card_legalities AS SELECT uuid, format, status FROM (UNPIVOT (SELECT * FROM "@
            + parquet_source(path) + ") ON "@ + join_seq(formats.map_values(|c: Seq<char>| quoted(c)), ", "@)
            + " INTO NAME format VALUE status) WHERE status IS NOT NULL"@
    }
}

/// Whether `view` is the legalities dataset, registered by reshaping.
pub fn is_legalities_view(view: &str) -> (r: bool)
    ensures
        r == is_legalities(view@),
{
    same_text(view, "card_legalities")
}

/// `path` with forward slashes only, as the query engine expects.
pub fn normalize_path(path: &str) -> (r: String)
    ensures
        r@ == forward_slashes(path@),
{
    let n = path.unicode_len();
    let mut r = String::new();
    let mut i: usize = 0;
    while i < n
        invariant
            i <= n,
            n == path@.len(),
            r@ =~= forward_slashes(path@).take(i as int),
        decreases n - i,
    {
        let c = path.get_char(i);
        if c == '\\' {
            push_char(&mut r, '/');
        } else {
            push_char(&mut r, c);
        }
        i += 1;
    }
    assert(forward_slashes(path@).take(n as int) =~= forward_slashes(path@));
    r
}

/// `read_parquet('path')`.
fn source_of(path: &str) -> (r: String)
    ensures
        r@ == parquet_source(path@),
{
    let mut r = owned("read_parquet('");
    r.append(path);
    r.append("')");
    r
}

/// The query for a snapshot's column names and declared types.
pub fn describe_query(path: &str) -> (r: String)
    ensures
        r@ == describe_sql(path@),
{
    let mut r = owned("SELECT column_name, column_type FROM (DESCRIBE SELECT * FROM ");
    r.append(source_of(path).as_str());
    r.append(")");
    r
}

/// The statement that registers `view` over the snapshot at `path`, with
/// the list and JSON columns of `schema` rewritten.
pub fn create_view_statement(view: &str, path: &str, schema: &Vec<(String, String)>) -> (r: String)
    ensures
        r@ == view_sql(view@, replace_clause(view@, schema_view(schema@)), path@),
{
    let replace = build_replace(view, schema);
    let mut r = owned("CREATE OR REPLACE VIEW ");
    r.append(view);
    r.append(" AS SELECT *");
    r.append(replace.as_str());
    r.append(" FROM ");
    r.append(source_of(path).as_str());
    r
}

/// The statement that registers the legalities view over the snapshot at
/// `path`, whose columns are `cols`.
pub fn legalities_statement(cols: &Vec<String>, path: &str) -> (r: String)
    ensures
        r@ == legalities_sql(texts(cols@), path@),
{
    let ghost cv = texts(cols@);
    let mut quoted_cols: Vec<String> = Vec::new();
    let ghost fs: Seq<Seq<char>> = Seq::empty();
    let mut i: usize = 0;
    while i < cols.len()
        invariant
            i <= cols.len(),
            cv == texts(cols@),
            fs == format_columns(cv.take(i as int)),
            texts(quoted_cols@) =~= fs.map_values(|c: Seq<char>| quoted(c)),
        decreases cols.len() - i,
    {
        assert(cv.take(i + 1).drop_last() =~= cv.take(i as int));
        assert(cv.take(i + 1).last() == cols@[i as int]@);
        if !same_text(cols[i].as_str(), "uuid") {
            let ghost before = quoted_cols@;
            quoted_cols.push(quote(cols[i].as_str()));
            proof {
                fs = fs.push(cols@[i as int]@);
            }
            assert(texts(quoted_cols@) =~= texts(before).push(quoted(cols@[i as int]@)));
        }
        i += 1;
    }
    assert(cv.take(cols.len() as int) =~= cv);
    if quoted_cols.len() == 0 {
        let mut r = owned("CREATE OR REPLACE VIEW card_legalities AS SELECT * FROM ");
        r.append(source_of(path).as_str());
        r
    } else {
        let mut r = owned("CREATE OR REPLACE VIEW card_legalities AS SELECT uuid, format, status FROM (UNPIVOT (SELECT * FROM ");
        r.append(source_of(path).as_str());
        r.append(") ON ");
        r.append(join_strings(&quoted_cols, ", ").as_str());
        r.append(" INTO NAME format VALUE status) WHERE status IS NOT NULL");
        r
    }
}

} // verus!
