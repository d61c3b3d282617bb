//! Booster-pack simulation over the booster configuration tables: pack
//! templates, sheets, template choice, per-sheet draws and the order of the
//! fetched cards.

use vstd::prelude::*;
use vstd::string::*;
use crate::error::MtgjsonError;
use crate::sampling::{
    all_positive, choose_template, drawn_from, none_positive, sample_with_replacement, stops_when_spent,
    sample_without_replacement, weight_sum,
};
use crate::text::{owned, texts};
use crate::sql_builder::{placeholders, placeholder_list};
use vstd::multiset::Multiset;

verus! {

#[derive(Clone, Debug)]
/// One possible layout of a pack: its weight among the layouts of its set
/// and booster type, and the number of cards each sheet contributes, in the
/// order the configuration lists them.
pub struct BoosterPack {
    pub contents: Vec<(String, i64)>,
    pub weight: i64,
}

#[derive(Clone, Debug)]
/// A pool of cards with per-card draw weights.
pub struct BoosterSheet {
    pub allow_duplicates: Option<bool>,
    pub balance_colors: Option<bool>,
    pub cards: Vec<(String, i64)>,
    pub foil: bool,
    pub fixed: Option<bool>,
    pub total_weight: i64,
}

/// The booster configuration of one booster type: its templates, their
/// total weight, and its sheets by name.
#[derive(Clone, Debug)]
pub struct BoosterConfig {
    pub boosters: Vec<BoosterPack>,
    pub boosters_total_weight: i64,
    pub name: Option<String>,
    pub sheets: Vec<(String, BoosterSheet)>,
    pub source_set_codes: Vec<String>,
}

/// The text of an optional string, empty when absent.
pub open spec fn text_or_empty(o: Option<String>) -> Seq<char> {
    match o {
        Some(s) => s@,
        None => Seq::empty(),
    }
}

/// An optional integer, `d` when absent.
pub open spec fn int_or(o: Option<i64>, d: i64) -> i64 {
    match o {
        Some(v) => v,
        None => d,
    }
}

/// (name, count) pairs as text.
pub open spec fn entries_view(v: Seq<(String, i64)>) -> Seq<(Seq<char>, i64)> {
    v.map_values(|e: (String, i64)| (e.0@, e.1))
}

/// The position of the last entry named `k`, or -1 when there is none.
pub open spec fn key_index(s: Seq<(Seq<char>, i64)>, k: Seq<char>) -> int
    decreases s.len(),
{
    if s.len() == 0 {
        -1
    } else if s.last().0 == k {
        s.len() - 1
    } else {
        key_index(s.drop_last(), k)
    }
}

/// `s` with `e` in place of the entry of the same name, or `e` added at the
/// end when there is none: a map from names to values that keeps the order
/// in which names first came.
pub open spec fn upsert(s: Seq<(Seq<char>, i64)>, e: (Seq<char>, i64)) -> Seq<(Seq<char>, i64)> {
    let k = key_index(s, e.0);
    if k >= 0 { s.update(k, e) } else { s.push(e) }
}

/// No name occurs twice.
pub open spec fn names_unique(s: Seq<(Seq<char>, i64)>) -> bool {
    forall|i: int, j: int| 0 <= i < j < s.len() ==> (#[trigger] s[i]).0 != (#[trigger] s[j]).0
}

/// What `key_index` finds.
proof fn lemma_key_index(s: Seq<(Seq<char>, i64)>, k: Seq<char>)
    ensures
        key_index(s, k) >= 0 ==> key_index(s, k) < s.len() && s[key_index(s, k)].0 == k,
        key_index(s, k) < 0 ==> key_index(s, k) == -1 && forall|i: int| 0 <= i < s.len() ==> (#[trigger] s[i]).0 != k,
    decreases s.len(),
{
    if s.len() > 0 && s.last().0 != k {
        lemma_key_index(s.drop_last(), k);
        assert forall|i: int| 0 <= i < s.len() - 1 implies (#[trigger] s[i]).0 == s.drop_last()[i].0 by {}
    }
}

/// Upserting keeps names unique.
proof fn lemma_upsert_unique(s: Seq<(Seq<char>, i64)>, e: (Seq<char>, i64))
    requires
        names_unique(s),
    ensures
        names_unique(upsert(s, e)),
        key_index(s, e.0) < 0 ==> upsert(s, e).len() == s.len() + 1,
{
    lemma_key_index(s, e.0);
    let u = upsert(s, e);
    assert forall|i: int, j: int| 0 <= i < j < u.len() implies (#[trigger] u[i]).0 != (#[trigger] u[j]).0 by {
        let k = key_index(s, e.0);
        if k >= 0 {
            if i == k {
                assert(s[j].0 != s[k].0);
            } else if j == k {
                assert(s[i].0 != s[k].0);
            } else {
                assert(u[i] == s[i] && u[j] == s[j]);
            }
        } else if j == s.len() {
            assert(u[i] == s[i]);
        } else {
            assert(u[i] == s[i] && u[j] == s[j]);
        }
    }
}

/// The position of the last entry of `v` named `name`.
fn key_position(v: &Vec<(String, i64)>, name: &String) -> (r: Option<usize>)
    ensures
        match r {
            Some(j) => key_index(entries_view(v@), name@) == j,
            None => key_index(entries_view(v@), name@) == -1,
        },
{
    let ghost ev = entries_view(v@);
    proof {
        lemma_key_index(ev, name@);
    }
    let mut i: usize = v.len();
    assert(ev.take(v.len() as int) =~= ev);
    while i > 0
        invariant
            i <= v.len(),
            ev == entries_view(v@),
            key_index(ev, name@) == key_index(ev.take(i as int), name@),
        decreases i,
    {
        assert(ev.take(i as int).drop_last() =~= ev.take(i - 1));
        assert(ev.take(i as int).last() == ev[i - 1]);
        if v[i - 1].0 == *name {
            return Some(i - 1);
        }
        i -= 1;
    }
    assert(ev.take(0) =~= Seq::<(Seq<char>, i64)>::empty());
    None
}

/// Sets the value of `name` in `v`, or adds it at the end.
fn upsert_entry(v: &mut Vec<(String, i64)>, name: String, value: i64)
    requires
        names_unique(entries_view(old(v)@)),
    ensures
        entries_view(final(v)@) == upsert(entries_view(old(v)@), (name@, value)),
        names_unique(entries_view(final(v)@)),
{
    let ghost ev = entries_view(v@);
    proof {
        lemma_upsert_unique(ev, (name@, value));
        lemma_key_index(ev, name@);
    }
    match key_position(v, &name) {
        Some(j) => {
            v.set(j, (name, value));
            assert(entries_view(v@) =~= ev.update(j as int, (name@, value)));
        }
        None => {
            v.push((name, value));
            assert(entries_view(v@) =~= ev.push((name@, value)));
        }
    }
}

/// The sheets of the template numbered `idx`: each contents row of that
/// template gives its sheet name (empty when absent) and pick count (one
/// when absent), a later row for the same sheet replacing the earlier; a
/// row without a template number belongs to template 0.
pub open spec fn sheets_of(rows: Seq<(Option<i64>, Option<String>, Option<i64>)>, idx: i64) -> Seq<(Seq<char>, i64)>
    decreases rows.len(),
{
    if rows.len() == 0 {
        Seq::empty()
    } else if int_or(rows.last().0, 0) == idx {
        upsert(sheets_of(rows.drop_last(), idx), (text_or_empty(rows.last().1), int_or(rows.last().2, 1)))
    } else {
        sheets_of(rows.drop_last(), idx)
    }
}

/// The cards of a sheet: rows with an identifier, each with its weight (one
/// when absent), a later row for the same identifier replacing the earlier.
pub open spec fn card_entries(rows: Seq<(Option<String>, Option<i64>)>) -> Seq<(Seq<char>, i64)>
    decreases rows.len(),
{
    if rows.len() == 0 {
        Seq::empty()
    } else if text_or_empty(rows.last().0).len() > 0 {
        upsert(card_entries(rows.drop_last()), (text_or_empty(rows.last().0), int_or(rows.last().1, 1)))
    } else {
        card_entries(rows.drop_last())
    }
}

/// The identifiers of (name, weight) entries.
pub open spec fn entry_names(v: Seq<(Seq<char>, i64)>) -> Seq<Seq<char>> {
    v.map_values(|e: (Seq<char>, i64)| e.0)
}

/// The weights of (name, weight) entries.
pub open spec fn entry_weights(v: Seq<(Seq<char>, i64)>) -> Seq<i64> {
    v.map_values(|e: (Seq<char>, i64)| e.1)
}

/// A pick count as a draw count; beyond the address space it is capped.
pub open spec fn draw_count(picks: i64) -> int {
    if picks > usize::MAX { usize::MAX as int } else { picks as int }
}

/// The sheets a template draws from: those with a positive pick count.
pub open spec fn requested(contents: Seq<(Seq<char>, i64)>) -> Seq<(Seq<char>, int)>
    decreases contents.len(),
{
    if contents.len() == 0 {
        Seq::empty()
    } else if contents.last().1 > 0 {
        requested(contents.drop_last()).push((contents.last().0, draw_count(contents.last().1)))
    } else {
        requested(contents.drop_last())
    }
}

/// The row of the last fetched record whose identifier is `id`.
pub open spec fn last_row(rows: Seq<Option<String>>, id: Seq<char>) -> Option<int>
    decreases rows.len(),
{
    if rows.len() == 0 {
        None
    } else if rows.last() is Some && rows.last()->Some_0@ == id {
        Some(rows.len() - 1)
    } else {
        last_row(rows.drop_last(), id)
    }
}

/// For each drawn identifier in draw order, the row of its record;
/// identifiers without a record are left out.
pub open spec fn arrangement(ids: Seq<Seq<char>>, rows: Seq<Option<String>>) -> Seq<int>
    decreases ids.len(),
{
    if ids.len() == 0 {
        Seq::empty()
    } else {
        match last_row(rows, ids.last()) {
            Some(k) => arrangement(ids.drop_last(), rows).push(k),
            None => arrangement(ids.drop_last(), rows),
        }
    }
}

/// The message of the error for a set and booster type with no template.
pub open spec fn no_config_message(set_code: Seq<char>, booster_type: Seq<char>) -> Seq<char> {
    "No booster configuration found for set '"@ + set_code + "' type '"@ + booster_type + "'"@
}

/// Builds the templates of a set and booster type from the weight rows
/// (template number, weight; absent values read as 0 and 1) and the
/// contents rows (template number, sheet name, pick count), one template
/// per weight row, in row order.
pub fn build_templates(
    weight_rows: &Vec<(Option<i64>, Option<i64>)>,
    content_rows: &Vec<(Option<i64>, Option<String>, Option<i64>)>,
) -> (r: Vec<BoosterPack>)
    ensures
        r.len() == weight_rows.len(),
        forall|i: int| 0 <= i < r.len() ==> {
            &&& (#[trigger] r@[i]).weight == int_or(weight_rows@[i].1, 1)
            &&& entries_view(r@[i].contents@) == sheets_of(content_rows@, int_or(weight_rows@[i].0, 0))
            &&& names_unique(entries_view(r@[i].contents@))
        },
{
    let mut out: Vec<BoosterPack> = Vec::new();
    let mut i: usize = 0;
    while i < weight_rows.len()
        invariant
            i <= weight_rows.len(),
            out.len() == i,
            forall|k: int| 0 <= k < i ==> {
                &&& (#[trigger] out@[k]).weight == int_or(weight_rows@[k].1, 1)
                &&& entries_view(out@[k].contents@) == sheets_of(content_rows@, int_or(weight_rows@[k].0, 0))
                &&& names_unique(entries_view(out@[k].contents@))
            },
        decreases weight_rows.len() - i,
    {
        let idx = match weight_rows[i].0 { Some(v) => v, None => 0 };
        let weight = match weight_rows[i].1 { Some(v) => v, None => 1 };
        let contents = sheets_for(content_rows, idx);
        out.push(BoosterPack { contents, weight });
        i += 1;
    }
    out
}

/// The (sheet name, pick count) entries of template `idx`.
fn sheets_for(rows: &Vec<(Option<i64>, Option<String>, Option<i64>)>, idx: i64) -> (r: Vec<(String, i64)>)
    ensures
        entries_view(r@) == sheets_of(rows@, idx),
        names_unique(entries_view(r@)),
{
    let mut out: Vec<(String, i64)> = Vec::new();
    let mut i: usize = 0;
    while i < rows.len()
        invariant
            i <= rows.len(),
            entries_view(out@) == sheets_of(rows@.take(i as int), idx),
            names_unique(entries_view(out@)),
        decreases rows.len() - i,
    {
        assert(rows@.take(i + 1).drop_last() =~= rows@.take(i as int));
        assert(rows@.take(i + 1).last() == rows@[i as int]);
        let row_idx = match rows[i].0 { Some(v) => v, None => 0 };
        if row_idx == idx {
            let name = match &rows[i].1 { Some(s) => s.clone(), None => String::new() };
            let picks = match rows[i].2 { Some(v) => v, None => 1 };
            upsert_entry(&mut out, name, picks);
        }
        i += 1;
    }
    assert(rows@.take(rows.len() as int) =~= rows@);
    out
}

/// Builds a sheet from its properties row (balance colors, foil, fixed,
/// allow duplicates, declared total weight; absent when the sheet has no
/// properties row) and its card rows (identifier, weight). A sheet without
/// card rows does not exist.
pub fn build_sheet(
    balance_colors: Option<bool>,
    foil: Option<bool>,
    fixed: Option<bool>,
    allow_duplicates: Option<bool>,
    total_weight: Option<i64>,
    card_rows: &Vec<(Option<String>, Option<i64>)>,
) -> (r: Option<BoosterSheet>)
    ensures
        card_rows.len() == 0 <==> r is None,
        r matches Some(s) ==> {
            &&& entries_view(s.cards@) == card_entries(card_rows@)
            &&& names_unique(entries_view(s.cards@))
            &&& s.allow_duplicates == Some(allow_duplicates.unwrap_or(false))
            &&& s.total_weight == int_or(total_weight, 0)
            &&& s.balance_colors == balance_colors
            &&& s.foil == foil.unwrap_or(false)
            &&& s.fixed == fixed
        },
{
    if card_rows.len() == 0 {
        return None;
    }
    let mut cards: Vec<(String, i64)> = Vec::new();
    let mut i: usize = 0;
    while i < card_rows.len()
        invariant
            i <= card_rows.len(),
            entries_view(cards@) == card_entries(card_rows@.take(i as int)),
            names_unique(entries_view(cards@)),
        decreases card_rows.len() - i,
    {
        assert(card_rows@.take(i + 1).drop_last() =~= card_rows@.take(i as int));
        assert(card_rows@.take(i + 1).last() == card_rows@[i as int]);
        let id = match &card_rows[i].0 { Some(s) => s.clone(), None => String::new() };
        if id.as_str().unicode_len() > 0 {
            let weight = match card_rows[i].1 { Some(v) => v, None => 1 };
            upsert_entry(&mut cards, id, weight);
        }
        i += 1;
    }
    assert(card_rows@.take(card_rows.len() as int) =~= card_rows@);
    Some(BoosterSheet {
        allow_duplicates: Some(match allow_duplicates { Some(b) => b, None => false }),
        balance_colors,
        cards,
        foil: match foil { Some(b) => b, None => false },
        fixed,
        total_weight: match total_weight { Some(v) => v, None => 0 },
    })
}

/// The weights of the templates, in order.
pub open spec fn pack_weights(packs: Seq<BoosterPack>) -> Seq<i64> {
    packs.map_values(|p: BoosterPack| p.weight)
}

/// Selects the template of a pack: weighted by template weight, uniformly
/// when the weights do not sum to a positive total. No template at all is a
/// not-found error naming the set and booster type.
pub fn select_template(packs: &Vec<BoosterPack>, set_code: &str, booster_type: &str) -> (r: Result<usize, MtgjsonError>)
    ensures
        packs.len() == 0 <==> r is Err,
        r matches Ok(i) ==> i < packs.len(),
        r matches Ok(i) ==> (weight_sum(pack_weights(packs@)) > 0 ==> packs@[i as int].weight > 0),
        r matches Err(e) ==> e matches MtgjsonError::NotFound(m) && m@ == no_config_message(set_code@, booster_type@),
{
    if packs.len() == 0 {
        let mut m = owned("No booster configuration found for set '");
        m.append(set_code);
        m.append("' type '");
        m.append(booster_type);
        m.append("'");
        return Err(MtgjsonError::NotFound(m));
    }
    let mut weights: Vec<i64> = Vec::new();
    let mut i: usize = 0;
    while i < packs.len()
        invariant
            i <= packs.len(),
            weights@ =~= pack_weights(packs@).take(i as int),
        decreases packs.len() - i,
    {
        weights.push(packs[i].weight);
        i += 1;
    }
    assert(weights@ =~= pack_weights(packs@));
    Ok(choose_template(&weights))
}


/// Whether a sheet is drawn with replacement.
pub open spec fn with_duplicates(s: BoosterSheet) -> bool {
    s.allow_duplicates == Some(true)
}

/// The card identifiers of a sheet, in order.
pub open spec fn sheet_ids(s: BoosterSheet) -> Seq<Seq<char>> {
    entry_names(entries_view(s.cards@))
}

/// The card weights of a sheet, in order.
pub open spec fn sheet_weights(s: BoosterSheet) -> Seq<i64> {
    entry_weights(entries_view(s.cards@))
}

/// How many cards a draw of `count` from a sheet yields, where that does not
/// depend on chance: `None` for a sheet without replacement whose weights
/// are partly positive.
pub open spec fn draw_size(sheet: Option<BoosterSheet>, count: nat) -> Option<nat> {
    match sheet {
        None => Some(0),
        Some(s) => if with_duplicates(s) {
            if weight_sum(sheet_weights(s)) > 0 { Some(count) } else { Some(0) }
        } else if all_positive(sheet_weights(s)) {
            Some(if count < s.cards@.len() { count } else { s.cards@.len() })
        } else if none_positive(sheet_weights(s)) {
            Some(0)
        } else {
            None
        },
    }
}

/// The size of a pack drawn from `sheets` with the given counts, where no
/// sheet leaves it to chance.
pub open spec fn pack_size(counts: Seq<usize>, sheets: Seq<Option<BoosterSheet>>) -> Option<nat>
    decreases counts.len(),
{
    if counts.len() == 0 || sheets.len() == 0 {
        Some(0)
    } else {
        match (pack_size(counts.drop_last(), sheets.drop_last()), draw_size(sheets.last(), counts.last() as nat)) {
            (Some(a), Some(b)) => Some(a + b),
            _ => None,
        }
    }
}

/// The sum of the requested counts.
pub open spec fn count_sum(counts: Seq<usize>) -> int
    decreases counts.len(),
{
    if counts.len() == 0 { 0 } else { count_sum(counts.drop_last()) + counts.last() }
}

/// The concatenation of `parts`, in order.
pub open spec fn concat_all(parts: Seq<Seq<Seq<char>>>) -> Seq<Seq<char>>
    decreases parts.len(),
{
    if parts.len() == 0 { Seq::empty() } else { concat_all(parts.drop_last()) + parts.last() }
}

/// `d` is what a draw of `count` cards from `sheet` may give: nothing from a
/// sheet that does not exist; otherwise at most `count` cards, each a
/// positive-weight card of the sheet, exactly as many as `draw_size` says
/// where chance does not decide.
pub open spec fn valid_draw(sheet: Option<BoosterSheet>, count: nat, d: Seq<Seq<char>>) -> bool {
    match sheet {
        None => d.len() == 0,
        Some(s) => {
            &&& d.len() <= count
            &&& drawn_from(d, sheet_ids(s), sheet_weights(s))
            &&& (draw_size(sheet, count) matches Some(n) ==> d.len() == n)
        },
    }
}

/// The sheets a template draws from and how many cards each gives: every
/// sheet with a positive pick count, in template order.
pub fn sheet_requests(pack: &BoosterPack) -> (r: Vec<(String, usize)>)
    ensures
        r@.map_values(|e: (String, usize)| (e.0@, e.1 as int)) == requested(entries_view(pack.contents@)),
{
    let ghost cv = entries_view(pack.contents@);
    let mut out: Vec<(String, usize)> = Vec::new();
    let mut i: usize = 0;
    while i < pack.contents.len()
        invariant
            i <= pack.contents.len(),
            cv == entries_view(pack.contents@),
            out@.map_values(|e: (String, usize)| (e.0@, e.1 as int)) == requested(cv.take(i as int)),
        decreases pack.contents.len() - i,
    {
        assert(cv.take(i + 1).drop_last() =~= cv.take(i as int));
        assert(cv.take(i + 1).last() == cv[i as int]);
        let picks = pack.contents[i].1;
        if picks > 0 {
            let ghost before = out@;
            let count: usize = if picks as u128 > usize::MAX as u128 { usize::MAX } else { picks as usize };
            out.push((pack.contents[i].0.clone(), count));
            assert(out@.map_values(|e: (String, usize)| (e.0@, e.1 as int))
                =~= before.map_values(|e: (String, usize)| (e.0@, e.1 as int)).push((cv[i as int].0, draw_count(picks))));
        }
        i += 1;
    }
    assert(cv.take(pack.contents.len() as int) =~= cv);
    out
}

/// Draws `count` cards from a sheet: with replacement when the sheet allows
/// duplicates, otherwise without.
pub fn draw_from_sheet(sheet: &BoosterSheet, count: usize) -> (r: Vec<String>)
    ensures
        with_duplicates(*sheet) && weight_sum(sheet_weights(*sheet)) > 0 ==> r.len() == count,
        with_duplicates(*sheet) && weight_sum(sheet_weights(*sheet)) <= 0 ==> r.len() == 0,
        !with_duplicates(*sheet) ==> r.len() <= count && r.len() <= sheet.cards.len(),
        !with_duplicates(*sheet) ==> texts(r@).to_multiset().subset_of(sheet_ids(*sheet).to_multiset()),
        !with_duplicates(*sheet) && count >= sheet.cards.len() && all_positive(sheet_weights(*sheet))
            ==> texts(r@).to_multiset() == sheet_ids(*sheet).to_multiset(),
        draw_size(Some(*sheet), count as nat) matches Some(n) ==> r.len() == n,
        drawn_from(texts(r@), sheet_ids(*sheet), sheet_weights(*sheet)),
        !with_duplicates(*sheet) ==> stops_when_spent(texts(r@), sheet_ids(*sheet), sheet_weights(*sheet),
            if count < sheet.cards.len() { count as int } else { sheet.cards.len() as int }),
{
    let ghost cv = entries_view(sheet.cards@);
    let mut ids: Vec<String> = Vec::new();
    let mut weights: Vec<i64> = Vec::new();
    let mut i: usize = 0;
    while i < sheet.cards.len()
        invariant
            i <= sheet.cards.len(),
            cv == entries_view(sheet.cards@),
            ids.len() == i,
            weights.len() == i,
            texts(ids@) =~= entry_names(cv).take(i as int),
            weights@ =~= entry_weights(cv).take(i as int),
        decreases sheet.cards.len() - i,
    {
        let ghost before = ids@;
        ids.push(sheet.cards[i].0.clone());
        weights.push(sheet.cards[i].1);
        assert(texts(ids@) =~= texts(before).push(cv[i as int].0));
        i += 1;
    }
    assert(entry_names(cv).take(sheet.cards.len() as int) =~= entry_names(cv));
    assert(entry_weights(cv).take(sheet.cards.len() as int) =~= entry_weights(cv));
    let dup = match sheet.allow_duplicates { Some(b) => b, None => false };
    if dup {
        sample_with_replacement(&ids, &weights, count)
    } else {
        sample_without_replacement(&ids, &weights, count)
    }
}

/// Draws every requested sheet in order and concatenates the identifiers;
/// a sheet that does not exist contributes nothing. `sheets[i]` is the sheet
/// named by `requests[i]`.
pub fn draw_sheets(requests: &Vec<(String, usize)>, sheets: &Vec<Option<BoosterSheet>>) -> (r: Vec<String>)
    requires
        requests.len() == sheets.len(),
    ensures
        exists|parts: Seq<Seq<Seq<char>>>| {
            &&& parts.len() == requests.len()
            &&& concat_all(parts) == texts(r@)
            &&& forall|i: int| 0 <= i < parts.len() ==> valid_draw(sheets@[i], requests@[i].1 as nat, #[trigger] parts[i])
        },
        r.len() <= count_sum(requests@.map_values(|e: (String, usize)| e.1)),
        pack_size(requests@.map_values(|e: (String, usize)| e.1), sheets@) matches Some(n) ==> r.len() == n,
{
    let ghost counts = requests@.map_values(|e: (String, usize)| e.1);
    let mut out: Vec<String> = Vec::new();
    let ghost mut parts: Seq<Seq<Seq<char>>> = Seq::empty();
    let mut i: usize = 0;
    while i < requests.len()
        invariant
            i <= requests.len(),
            requests.len() == sheets.len(),
            counts == requests@.map_values(|e: (String, usize)| e.1),
            parts.len() == i,
            concat_all(parts) == texts(out@),
            forall|k: int| 0 <= k < i ==> valid_draw(sheets@[k], requests@[k].1 as nat, #[trigger] parts[k]),
            out.len() <= count_sum(counts.take(i as int)),
            pack_size(counts.take(i as int), sheets@.take(i as int)) matches Some(n) ==> out.len() == n,
        decreases requests.len() - i,
    {
        assert(counts.take(i + 1).drop_last() =~= counts.take(i as int));
        assert(sheets@.take(i + 1).drop_last() =~= sheets@.take(i as int));
        assert(counts.take(i + 1).last() == requests@[i as int].1);
        assert(sheets@.take(i + 1).last() == sheets@[i as int]);
        let ghost start = texts(out@);
        let ghost part: Seq<Seq<char>> = Seq::empty();
        match &sheets[i] {
            Some(sheet) => {
                let drawn = draw_from_sheet(sheet, requests[i].1);
                let mut j: usize = 0;
                while j < drawn.len()
                    invariant
                        j <= drawn.len(),
                        texts(out@) == start + texts(drawn@).take(j as int),
                    decreases drawn.len() - j,
                {
                    let ghost before = out@;
                    out.push(drawn[j].clone());
                    assert(texts(out@) =~= texts(before).push(texts(drawn@)[j as int]));
                    assert(texts(drawn@).take(j + 1) =~= texts(drawn@).take(j as int).push(texts(drawn@)[j as int]));
                    j += 1;
                }
                assert(texts(drawn@).take(drawn.len() as int) =~= texts(drawn@));
                proof {
                    part = texts(drawn@);
                }
            }
            None => {
                assert(texts(out@) =~= start + Seq::<Seq<char>>::empty());
            }
        }
        proof {
            assert(valid_draw(sheets@[i as int], requests@[i as int].1 as nat, part));
            let old_parts = parts;
            parts = parts.push(part);
            assert(parts.drop_last() =~= old_parts);
            assert forall|k: int| 0 <= k < i + 1 implies valid_draw(sheets@[k], requests@[k].1 as nat, #[trigger] parts[k]) by {
                if k < i {
                    assert(parts[k] == old_parts[k]);
                }
            }
        }
        i += 1;
    }
    assert(counts.take(requests.len() as int) =~= counts);
    assert(sheets@.take(requests.len() as int) =~= sheets@);
    out
}

/// The row of the last fetched record whose identifier is `id`.
pub fn last_row_of(rows: &Vec<Option<String>>, id: &str) -> (r: Option<usize>)
    ensures
        match r {
            Some(k) => last_row(rows@, id@) == Some(k as int),
            None => last_row(rows@, id@) is None,
        },
{
    let target = owned(id);
    let mut i: usize = rows.len();
    assert(rows@.take(rows.len() as int) =~= rows@);
    while i > 0
        invariant
            i <= rows.len(),
            target@ == id@,
            last_row(rows@, id@) == last_row(rows@.take(i as int), id@),
        decreases i,
    {
        assert(rows@.take(i as int).drop_last() =~= rows@.take(i - 1));
        assert(rows@.take(i as int).last() == rows@[i - 1]);
        let hit = match &rows[i - 1] {
            Some(s) => *s == target,
            None => false,
        };
        if hit {
            return Some(i - 1);
        }
        i -= 1;
    }
    assert(rows@.take(0) =~= Seq::<Option<String>>::empty());
    None
}

/// For each drawn identifier in draw order, the row of the fetched record
/// that carries it (the last such row), so that a card drawn twice appears
/// twice; identifiers without a record are left out.
pub fn arrange_by_ids(ids: &Vec<String>, rows: &Vec<Option<String>>) -> (r: Vec<usize>)
    ensures
        r@.map_values(|k: usize| k as int) == arrangement(texts(ids@), rows@),
{
    let ghost iv = texts(ids@);
    let mut out: Vec<usize> = Vec::new();
    let mut i: usize = 0;
    while i < ids.len()
        invariant
            i <= ids.len(),
            iv == texts(ids@),
            out@.map_values(|k: usize| k as int) == arrangement(iv.take(i as int), rows@),
        decreases ids.len() - i,
    {
        assert(iv.take(i + 1).drop_last() =~= iv.take(i as int));
        assert(iv.take(i + 1).last() == ids@[i as int]@);
        let ghost before = out@;
        match last_row_of(rows, ids[i].as_str()) {
            Some(k) => {
                out.push(k);
                assert(out@.map_values(|k: usize| k as int) =~= before.map_values(|k: usize| k as int).push(k as int));
            }
            None => {}
        }
        i += 1;
    }
    assert(iv.take(ids.len() as int) =~= iv);
    out
}

/// The query for the card records of `n` identifiers, bound in order.
pub fn cards_by_uuid_query(n: usize) -> (r: String)
    ensures
        r@ == "SELECT * FROM cards WHERE uuid IN ("@ + placeholders(n as nat) + ")"@,
{
    let mut r = owned("SELECT * FROM cards WHERE uuid IN (");
    r.append(placeholder_list(n).as_str());
    r.append(")");
    r
}

} // verus!
