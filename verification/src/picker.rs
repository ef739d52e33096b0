//! The interactive provider picker as a state machine: ranking providers
//! against a query, moving the selection, and laying out the list.
use vstd::prelude::*;
use crate::text::{
    pop_char, push_char,
    ascii_lower, ascii_lower_chars, bytes_lt, chars_of, contains_chars, contains_seq, lemma_lex_lt_asymmetric,
    lemma_lex_lt_irreflexive, lemma_lex_lt_total, lemma_lex_lt_transitive, lex_lt, utf8,
};

verus! {

/// One row of the provider picker: a provider id and its display name.
#[derive(Debug, PartialEq, Eq)]
pub struct ProviderEntry {
    pub id: String,
    pub name: String,
}

impl ProviderEntry {
    pub fn new(id: &str, name: &str) -> (r: ProviderEntry)
        ensures
            r.id@ == id@,
            r.name@ == name@,
    {
        ProviderEntry { id: id.to_owned(), name: name.to_owned() }
    }
}

/// The score of one entry against a query, from the fuzzy-match scores of its
/// id and name (lower is better).  With neither fuzzy match, an entry whose id
/// or name contains the query (ASCII case-insensitively) scores `0`.
pub open spec fn match_score(
    id: Seq<char>,
    name: Seq<char>,
    query: Seq<char>,
    id_match: Option<i32>,
    name_match: Option<i32>,
) -> Option<i32> {
    if query.len() == 0 {
        Some(i32::MAX)
    } else {
        match (id_match, name_match) {
            (Some(a), Some(b)) => Some(if a <= b { a } else { b }),
            (Some(a), None) => Some(a),
            (None, Some(b)) => Some(b),
            (None, None) => if contains_seq(ascii_lower(id), ascii_lower(query)) || contains_seq(
                ascii_lower(name),
                ascii_lower(query),
            ) {
                Some(0)
            } else {
                None
            },
        }
    }
}

/// Scores one entry against `query`, given the fuzzy-match scores of its id and
/// of its name (`None` where the fuzzy matcher found no match).
pub fn provider_entry_match_score(
    entry: &ProviderEntry,
    query: &str,
    id_match: Option<i32>,
    name_match: Option<i32>,
) -> (r: Option<i32>)
    ensures
        r == match_score(entry.id@, entry.name@, query@, id_match, name_match),
{
    if query.is_empty() {
        return Some(i32::MAX);
    }
    match (id_match, name_match) {
        (Some(a), Some(b)) => Some(if a <= b { a } else { b }),
        (Some(a), None) => Some(a),
        (None, Some(b)) => Some(b),
        (None, None) => {
            let query_lower = ascii_lower_chars(&chars_of(query));
            let id_lower = ascii_lower_chars(&chars_of(entry.id.as_str()));
            if contains_chars(&id_lower, &query_lower) {
                return Some(0);
            }
            let name_lower = ascii_lower_chars(&chars_of(entry.name.as_str()));
            if contains_chars(&name_lower, &query_lower) {
                Some(0)
            } else {
                None
            }
        },
    }
}

/// The order in which ranked entries are listed: by score, then by id as
/// Rust orders strings, then by position (a stable sort keeps positions).
pub open spec fn rank_lt(s1: int, id1: Seq<u8>, i1: int, s2: int, id2: Seq<u8>, i2: int) -> bool {
    ||| s1 < s2
    ||| s1 == s2 && lex_lt(id1, id2)
    ||| s1 == s2 && id1 == id2 && i1 < i2
}

/// The ranking order is transitive.
pub proof fn lemma_rank_lt_transitive(
    s1: int,
    id1: Seq<u8>,
    i1: int,
    s2: int,
    id2: Seq<u8>,
    i2: int,
    s3: int,
    id3: Seq<u8>,
    i3: int,
)
    requires
        rank_lt(s1, id1, i1, s2, id2, i2),
        rank_lt(s2, id2, i2, s3, id3, i3),
    ensures
        rank_lt(s1, id1, i1, s3, id3, i3),
{
    if s1 == s2 && s2 == s3 {
        if lex_lt(id1, id2) && lex_lt(id2, id3) {
            lemma_lex_lt_transitive(id1, id2, id3);
        }
    }
}

/// Of two entries at different positions, one is ranked before the other.
pub proof fn lemma_rank_lt_total(s1: int, id1: Seq<u8>, i1: int, s2: int, id2: Seq<u8>, i2: int)
    requires
        i1 != i2,
    ensures
        rank_lt(s1, id1, i1, s2, id2, i2) || rank_lt(s2, id2, i2, s1, id1, i1),
{
    lemma_lex_lt_total(id1, id2);
}

/// No two entries are each ranked before the other.
pub proof fn lemma_rank_lt_asymmetric(
    s1: int,
    id1: Seq<u8>,
    i1: int,
    s2: int,
    id2: Seq<u8>,
    i2: int,
)
    requires
        rank_lt(s1, id1, i1, s2, id2, i2),
    ensures
        !rank_lt(s2, id2, i2, s1, id1, i1),
{
    if s1 == s2 && lex_lt(id1, id2) {
        lemma_lex_lt_asymmetric(id1, id2);
    }
    if s1 == s2 && lex_lt(id2, id1) {
        lemma_lex_lt_asymmetric(id2, id1);
    }
    if lex_lt(id1, id1) {
        lemma_lex_lt_irreflexive(id1);
    }
}

/// Entry `i` is listed before entry `j` under the given scores.
pub open spec fn ranked_before(entries: Seq<ProviderEntry>, scores: Seq<i32>, i: int, j: int) -> bool {
    rank_lt(scores[i] as int, utf8(entries[i].id@), i, scores[j] as int, utf8(entries[j].id@), j)
}

/// `order` lists distinct valid positions, each strictly before the next.
pub open spec fn strictly_ranked(
    entries: Seq<ProviderEntry>,
    scores: Seq<i32>,
    order: Seq<usize>,
) -> bool {
    &&& forall|k: int| 0 <= k < order.len() ==> (order[k] as int) < entries.len()
    &&& forall|k1: int, k2: int|
        0 <= k1 < k2 < order.len() ==> #[trigger] ranked_before(
            entries,
            scores,
            order[k1] as int,
            order[k2] as int,
        ) && order[k1] != order[k2]
}

fn ranked_before_exec(entries: &Vec<ProviderEntry>, scores: &Vec<i32>, i: usize, j: usize) -> (r:
    bool)
    requires
        i < entries@.len(),
        j < entries@.len(),
        scores@.len() == entries@.len(),
    ensures
        r == ranked_before(entries@, scores@, i as int, j as int),
{
    let si = scores[i];
    let sj = scores[j];
    if si < sj {
        return true;
    }
    if si > sj {
        return false;
    }
    let bi = entries[i].id.as_str().as_bytes();
    let bj = entries[j].id.as_str().as_bytes();
    if bytes_lt(bi, bj) {
        return true;
    }
    if bytes_lt(bj, bi) {
        proof {
            lemma_lex_lt_asymmetric(bj@, bi@);
            lemma_lex_lt_irreflexive(bi@);
        }
        return false;
    }
    proof {
        lemma_lex_lt_total(bi@, bj@);
    }
    i < j
}

/// Sorts the positions in `candidates` by rank (insertion sort).
fn sort_ranked(entries: &Vec<ProviderEntry>, scores: &Vec<i32>, candidates: &Vec<usize>) -> (r: Vec<
    usize,
>)
    requires
        scores@.len() == entries@.len(),
        forall|k: int| 0 <= k < candidates@.len() ==> (candidates[k] as int) < entries@.len(),
        forall|k1: int, k2: int|
            0 <= k1 < k2 < candidates@.len() ==> candidates[k1] != candidates[k2],
    ensures
        strictly_ranked(entries@, scores@, r@),
        r@.len() == candidates@.len(),
        r@.to_set() == candidates@.to_set(),
{
    let mut out: Vec<usize> = Vec::new();
    let mut c: usize = 0;
    while c < candidates.len()
        invariant
            scores@.len() == entries@.len(),
            forall|k: int| 0 <= k < candidates@.len() ==> (candidates[k] as int) < entries@.len(),
            forall|k1: int, k2: int|
                0 <= k1 < k2 < candidates@.len() ==> candidates[k1] != candidates[k2],
            c <= candidates@.len(),
            strictly_ranked(entries@, scores@, out@),
            out@.len() == c,
            out@.to_set() == candidates@.take(c as int).to_set(),
        decreases candidates@.len() - c,
    {
        let x = candidates[c];
        proof {
            assert(!out@.to_set().contains(x)) by {
                if out@.to_set().contains(x) {
                    assert(candidates@.take(c as int).to_set().contains(x));
                    assert(candidates@.take(c as int).contains(x));
                    let k = choose|k: int| 0 <= k < c && candidates@.take(c as int)[k] == x;
                    assert(candidates[k] == candidates[c as int]);
                }
            }
        }
        let mut p: usize = 0;
        while p < out.len()
            invariant
                scores@.len() == entries@.len(),
                (x as int) < entries@.len(),
                p <= out@.len(),
                strictly_ranked(entries@, scores@, out@),
                !out@.contains(x),
                forall|k: int| 0 <= k < p ==> ranked_before(entries@, scores@, out[k] as int, x as int),
            ensures
                p <= out@.len(),
                forall|k: int| 0 <= k < p ==> ranked_before(entries@, scores@, out[k] as int, x as int),
                p < out@.len() ==> ranked_before(entries@, scores@, x as int, out[p as int] as int),
            decreases out@.len() - p,
        {
            if ranked_before_exec(entries, scores, x, out[p]) {
                break;
            }
            proof {
                assert(out@.contains(out[p as int]));
                lemma_rank_lt_total(
                    scores@[x as int] as int,
                    utf8(entries@[x as int].id@),
                    x as int,
                    scores@[out[p as int] as int] as int,
                    utf8(entries@[out[p as int] as int].id@),
                    out[p as int] as int,
                );
            }
            p = p + 1;
        }
        let ghost old_out = out@;
        proof {
            if p < out@.len() {
                assert forall|k: int| p <= k < old_out.len() implies ranked_before(
                    entries@,
                    scores@,
                    x as int,
                    old_out[k] as int,
                ) by {
                    if k > p {
                        assert(ranked_before(entries@, scores@, old_out[p as int] as int, old_out[k] as int));
                        lemma_rank_lt_transitive(
                            scores@[x as int] as int,
                            utf8(entries@[x as int].id@),
                            x as int,
                            scores@[old_out[p as int] as int] as int,
                            utf8(entries@[old_out[p as int] as int].id@),
                            old_out[p as int] as int,
                            scores@[old_out[k] as int] as int,
                            utf8(entries@[old_out[k] as int].id@),
                            old_out[k] as int,
                        );
                    }
                }
            }
        }
        out.insert(p, x);
        proof {
            assert(out@ =~= old_out.take(p as int).push(x) + old_out.skip(p as int));
            assert forall|k1: int, k2: int| 0 <= k1 < k2 < out@.len() implies #[trigger] ranked_before(
                entries@,
                scores@,
                out@[k1] as int,
                out@[k2] as int,
            ) && out@[k1] != out@[k2] by {
                if k1 < p && k2 < p {
                    assert(out@[k1] == old_out[k1] && out@[k2] == old_out[k2]);
                } else if k1 < p && k2 == p {
                    assert(out@[k1] == old_out[k1]);
                    assert(old_out.contains(old_out[k1]));
                } else if k1 < p && k2 > p {
                    assert(out@[k1] == old_out[k1] && out@[k2] == old_out[k2 - 1]);
                } else if k1 == p {
                    assert(out@[k2] == old_out[k2 - 1]);
                    assert(old_out.contains(old_out[k2 - 1]));
                } else {
                    assert(out@[k1] == old_out[k1 - 1] && out@[k2] == old_out[k2 - 1]);
                }
            }
            assert(candidates@.take(c + 1) =~= candidates@.take(c as int).push(x));
            assert(out@.to_set() =~= old_out.to_set().insert(x)) by {
                assert forall|y: usize| out@.to_set().contains(y) implies old_out.to_set().insert(x).contains(y) by {
                    let k = choose|k: int| 0 <= k < out@.len() && out@[k] == y;
                    if k < p {
                        assert(old_out[k] == y);
                    } else if k > p {
                        assert(old_out[k - 1] == y);
                    }
                }
                assert forall|y: usize| old_out.to_set().insert(x).contains(y) implies out@.to_set().contains(y) by {
                    if y == x {
                        assert(out@[p as int] == x);
                    } else {
                        let k = choose|k: int| 0 <= k < old_out.len() && old_out[k] == y;
                        if k < p {
                            assert(out@[k] == y);
                        } else {
                            assert(out@[k + 1] == y);
                        }
                    }
                }
            }
            candidates@.take(c as int).lemma_push_to_set_commute(x);
        }
        c = c + 1;
    }
    assert(candidates@.take(candidates@.len() as int) =~= candidates@);
    out
}


/// The score of entry `i` for `query`, from its fuzzy-match results.
pub open spec fn entry_score(
    entries: Seq<ProviderEntry>,
    query: Seq<char>,
    matches: Seq<(Option<i32>, Option<i32>)>,
    i: int,
) -> Option<i32> {
    match_score(entries[i].id@, entries[i].name@, query, matches[i].0, matches[i].1)
}

/// The scores used for ranking (`0` stands in for entries that do not match).
pub open spec fn ranking_scores(
    entries: Seq<ProviderEntry>,
    query: Seq<char>,
    matches: Seq<(Option<i32>, Option<i32>)>,
) -> Seq<i32> {
    Seq::new(
        entries.len(),
        |i: int|
            match entry_score(entries, query, matches, i) {
                Some(s) => s,
                None => 0,
            },
    )
}

/// `order` lists exactly the matching entries, best first: by score, then id,
/// then position.
pub open spec fn is_match_ranking(
    entries: Seq<ProviderEntry>,
    query: Seq<char>,
    matches: Seq<(Option<i32>, Option<i32>)>,
    order: Seq<usize>,
) -> bool {
    &&& forall|k: int|
        0 <= k < order.len() ==> (order[k] as int) < entries.len() && #[trigger] entry_score(
            entries,
            query,
            matches,
            order[k] as int,
        ) is Some
    &&& forall|i: int|
        0 <= i < entries.len() && #[trigger] entry_score(entries, query, matches, i) is Some
            ==> order.contains(i as usize)
    &&& strictly_ranked(entries, ranking_scores(entries, query, matches), order)
}

/// The positions `0, 1, ..., n - 1`.
pub open spec fn all_positions(n: nat) -> Seq<usize> {
    Seq::new(n, |i: int| i as usize)
}

/// Lists the entries that match `query`, best first.  An empty query lists
/// every entry in the given order.  `matches[i]` holds the fuzzy-match
/// scores of entry `i`'s id and name for this query.
pub fn filter_provider_indices(
    entries: &Vec<ProviderEntry>,
    query: &str,
    matches: &Vec<(Option<i32>, Option<i32>)>,
) -> (r: Vec<usize>)
    requires
        matches@.len() == entries@.len(),
    ensures
        query@.len() == 0 ==> r@ == all_positions(entries@.len()),
        query@.len() > 0 ==> is_match_ranking(entries@, query@, matches@, r@),
{
    let n = entries.len();
    if query.is_empty() {
        let mut all: Vec<usize> = Vec::new();
        let mut i: usize = 0;
        while i < n
            invariant
                n == entries@.len(),
                i <= n,
                all@ =~= all_positions(i as nat),
            decreases n - i,
        {
            all.push(i);
            i = i + 1;
        }
        return all;
    }
    let ghost sc = ranking_scores(entries@, query@, matches@);
    let mut scores: Vec<i32> = Vec::new();
    let mut candidates: Vec<usize> = Vec::new();
    let mut i: usize = 0;
    while i < n
        invariant
            n == entries@.len(),
            n == matches@.len(),
            query@.len() > 0,
            sc == ranking_scores(entries@, query@, matches@),
            i <= n,
            scores@ =~= sc.take(i as int),
            forall|k: int| 0 <= k < candidates@.len() ==> (candidates[k] as int) < i,
            forall|k: int|
                0 <= k < candidates@.len() ==> #[trigger] entry_score(
                    entries@,
                    query@,
                    matches@,
                    candidates[k] as int,
                ) is Some,
            forall|k1: int, k2: int|
                0 <= k1 < k2 < candidates@.len() ==> candidates[k1] < candidates[k2],
            forall|j: int|
                0 <= j < i && #[trigger] entry_score(entries@, query@, matches@, j) is Some
                    ==> candidates@.contains(j as usize),
        decreases n - i,
    {
        let (id_match, name_match) = matches[i];
        let score = provider_entry_match_score(&entries[i], query, id_match, name_match);
        let ghost old_c = candidates@;
        match score {
            Some(s) => {
                scores.push(s);
                candidates.push(i);
                proof {
                    assert(candidates@ == old_c.push(i));
                    assert forall|j: int| 0 <= j < i && #[trigger] entry_score(entries@, query@, matches@, j) is Some
                        implies candidates@.contains(j as usize) by {
                        assert(old_c.contains(j as usize));
                        let k = choose|k: int| 0 <= k < old_c.len() && old_c[k] == j as usize;
                        assert(candidates@[k] == j as usize);
                    }
                }
            },
            None => {
                scores.push(0);
            },
        }
        proof {
            assert forall|j: int|
                0 <= j < i + 1 && #[trigger] entry_score(entries@, query@, matches@, j) is Some
                    implies candidates@.contains(j as usize) by {
                if j == i {
                    assert(candidates@[candidates@.len() - 1] == i);
                } else {
                    assert(candidates@.contains(j as usize));
                }
            }
        }
        i = i + 1;
    }
    assert(scores@ =~= sc);
    let ranked = sort_ranked(entries, &scores, &candidates);
    proof {
        assert forall|k: int| 0 <= k < ranked@.len() implies (ranked[k] as int) < entries@.len()
            && #[trigger] entry_score(entries@, query@, matches@, ranked[k] as int) is Some by {
            assert(ranked@.to_set().contains(ranked[k]));
            assert(candidates@.to_set().contains(ranked[k]));
            let c = choose|c: int| 0 <= c < candidates@.len() && candidates@[c] == ranked[k];
        }
        assert forall|j: int|
            0 <= j < entries@.len() && #[trigger] entry_score(entries@, query@, matches@, j) is Some
                implies ranked@.contains(j as usize) by {
            assert(candidates@.contains(j as usize));
            assert(candidates@.to_set().contains(j as usize));
            assert(ranked@.to_set().contains(j as usize));
        }
    }
    ranked
}


/// The filtered list that a query yields: every position for an empty query,
/// otherwise the matching entries ranked best first.
pub open spec fn is_filter_result(
    entries: Seq<ProviderEntry>,
    query: Seq<char>,
    matches: Seq<(Option<i32>, Option<i32>)>,
    filtered: Seq<usize>,
) -> bool {
    &&& query.len() == 0 ==> filtered == all_positions(entries.len())
    &&& query.len() > 0 ==> is_match_ranking(entries, query, matches, filtered)
}

/// The rows the list can show: one row fewer than the viewport when the list
/// overflows it (that row holds the position indicator), never fewer than one.
pub open spec fn item_rows(viewport_rows: int, filtered_len: int) -> int {
    if filtered_len > viewport_rows {
        if viewport_rows - 1 >= 1 {
            viewport_rows - 1
        } else {
            1
        }
    } else {
        if viewport_rows >= 1 {
            viewport_rows
        } else {
            1
        }
    }
}

pub fn effective_viewport_rows(viewport_rows: usize, filtered_len: usize) -> (r: usize)
    ensures
        r == item_rows(viewport_rows as int, filtered_len as int),
{
    if filtered_len > viewport_rows {
        let rows = viewport_rows.saturating_sub(1);
        if rows >= 1 {
            rows
        } else {
            1
        }
    } else {
        if viewport_rows >= 1 {
            viewport_rows
        } else {
            1
        }
    }
}

/// A key as the picker reads it.
#[derive(Debug, Clone, Copy, PartialEq, Eq)]
pub enum PickerKeyCode {
    Char(char),
    Esc,
    Enter,
    Up,
    Down,
    PageUp,
    PageDown,
    Home,
    End,
    Backspace,
    Other,
}

/// A key event: its code, whether Control was held, and whether it was a
/// press (releases and repeats are ignored).
#[derive(Debug, Clone, Copy, PartialEq, Eq)]
pub struct PickerKey {
    pub code: PickerKeyCode,
    pub control: bool,
    pub press: bool,
}

/// What a key asks of the picker.
pub enum KeyAction {
    Ignore,
    Cancel,
    Accept,
    Move(int),
    Page(int),
    Home,
    End,
    DeleteChar,
    TypeChar(char),
}

/// The picker's key bindings: Ctrl-C, Esc and `q` cancel; Enter accepts;
/// Up/`k` and Down/`j` move; PageUp/PageDown page; Home/End jump; Backspace
/// deletes a query character; other characters typed without Control extend
/// the query.
pub open spec fn key_action(key: PickerKey) -> KeyAction {
    if !key.press {
        KeyAction::Ignore
    } else {
        match key.code {
            PickerKeyCode::Char(c) => if c == 'c' && key.control {
                KeyAction::Cancel
            } else if c == 'q' {
                KeyAction::Cancel
            } else if c == 'k' {
                KeyAction::Move(-1)
            } else if c == 'j' {
                KeyAction::Move(1)
            } else if !key.control {
                KeyAction::TypeChar(c)
            } else {
                KeyAction::Ignore
            },
            PickerKeyCode::Esc => KeyAction::Cancel,
            PickerKeyCode::Enter => KeyAction::Accept,
            PickerKeyCode::Up => KeyAction::Move(-1),
            PickerKeyCode::Down => KeyAction::Move(1),
            PickerKeyCode::PageUp => KeyAction::Page(-1),
            PickerKeyCode::PageDown => KeyAction::Page(1),
            PickerKeyCode::Home => KeyAction::Home,
            PickerKeyCode::End => KeyAction::End,
            PickerKeyCode::Backspace => KeyAction::DeleteChar,
            PickerKeyCode::Other => KeyAction::Ignore,
        }
    }
}

/// The query after a key: a typed character is appended, Backspace removes
/// the last character (if any), and other keys leave it.
pub open spec fn edited_query(query: Seq<char>, action: KeyAction) -> Seq<char> {
    match action {
        KeyAction::TypeChar(c) => query.push(c),
        KeyAction::DeleteChar => if query.len() > 0 {
            query.drop_last()
        } else {
            query
        },
        _ => query,
    }
}

/// Typing a character into the query and deleting it again gives back the
/// query.
pub proof fn lemma_type_then_delete_restores_query(query: Seq<char>, c: char)
    ensures
        edited_query(edited_query(query, KeyAction::TypeChar(c)), KeyAction::DeleteChar) == query,
{
    assert(query.push(c).drop_last() =~= query);
}

/// What the caller must do after a key.
#[derive(Debug, Clone, Copy, PartialEq, Eq)]
pub enum KeyOutcome {
    /// Nothing more to do.
    Handled,
    /// The query changed: fuzzy-match the entries against the new query and
    /// hand the results to `apply_filter`.
    QueryChanged,
}

pub open spec fn sat_add(a: int, b: int) -> int {
    if a + b > usize::MAX {
        usize::MAX as int
    } else {
        a + b
    }
}

pub open spec fn sat_sub(a: int, b: int) -> int {
    if a - b < 0 {
        0
    } else {
        a - b
    }
}

/// The scroll offset that keeps the selected row inside a viewport of
/// `viewport_rows` rows, moving the offset as little as possible.
pub open spec fn visible_scroll(len: int, selected: int, scroll_top: int, viewport_rows: int) -> int {
    if len == 0 {
        0
    } else if selected < scroll_top {
        selected
    } else if selected >= sat_add(scroll_top, viewport_rows) {
        sat_sub(sat_add(selected, 1), viewport_rows)
    } else {
        scroll_top
    }
}

/// The selection after moving by `delta` rows, wrapping around the list.
pub open spec fn wrapped_selection(len: int, selected: int, delta: int) -> int {
    (selected + delta) % len
}

/// Moving the selection by `delta` rows and back by `delta` rows returns to
/// the row it started on, wrapping around the list either way.
pub proof fn lemma_move_and_back_restores_selection(len: int, selected: int, delta: int)
    requires
        0 < len,
        0 <= selected < len,
    ensures
        wrapped_selection(len, wrapped_selection(len, selected, delta), -delta) == selected,
{
    let q = (selected + delta) / len;
    vstd::arithmetic::div_mod::lemma_fundamental_div_mod(selected + delta, len);
    assert((selected + delta) % len - delta == len * (-q) + selected) by (nonlinear_arith)
        requires
            selected + delta == len * q + (selected + delta) % len,
    ;
    vstd::arithmetic::div_mod::lemma_mod_multiples_vanish(-q, selected, len);
    vstd::arithmetic::div_mod::lemma_small_mod(selected as nat, len as nat);
}

/// `order` is the permutation of the providers' positions that sorts them by
/// id (as Rust orders strings), keeping the given order among equal ids.
pub open spec fn is_id_order(providers: Seq<ProviderEntry>, order: Seq<usize>) -> bool {
    &&& order.len() == providers.len()
    &&& order.to_set() == all_positions(providers.len()).to_set()
    &&& strictly_ranked(providers, Seq::new(providers.len(), |i: int| 0i32), order)
}

/// `entries` are the providers taken in `order`.
pub open spec fn lists_in_order(
    entries: Seq<ProviderEntry>,
    providers: Seq<ProviderEntry>,
    order: Seq<usize>,
) -> bool {
    &&& entries.len() == order.len()
    &&& forall|k: int| 0 <= k < order.len() ==> #[trigger] entries[k] == providers[order[k] as int]
}

/// An interactive, filterable list of providers.
#[derive(Debug)]
pub struct ProviderPicker {
    pub entries: Vec<ProviderEntry>,
    pub filtered: Vec<usize>,
    pub selected: usize,
    pub scroll_top: usize,
    pub query: String,
    pub done: bool,
    pub cancelled: bool,
    pub selection: Option<String>,
}

impl ProviderPicker {
    /// Every filtered position names an entry, the selection is a filtered row
    /// (or `0` on an empty list) and the list is scrolled no further than just
    /// past the selection (a zero-row viewport scrolls one past it).
    pub open spec fn wf(&self) -> bool {
        &&& self.filtered@.len() <= isize::MAX
        &&& forall|k: int|
            0 <= k < self.filtered@.len() ==> (#[trigger] self.filtered@[k] as int)
                < self.entries@.len()
        &&& self.filtered@.len() == 0 ==> self.selected == 0
        &&& self.filtered@.len() > 0 ==> self.selected < self.filtered@.len()
        &&& self.scroll_top <= self.selected + 1
    }

    /// A picker over `providers` (id and name of each), listed by id.
    pub fn new(providers: &Vec<ProviderEntry>) -> (r: Self)
        requires
            providers@.len() <= isize::MAX,
        ensures
            r.wf(),
            r.entries@.len() == providers@.len(),
            exists|order: Seq<usize>| #[trigger] is_id_order(providers@, order) && lists_in_order(r.entries@, providers@, order),
            r.filtered@ == all_positions(providers@.len()),
            r.selected == 0,
            r.scroll_top == 0,
            r.query@.len() == 0,
            !r.done,
            !r.cancelled,
            r.selection is None,
    {
        let n = providers.len();
        let mut zeros: Vec<i32> = Vec::new();
        let mut positions: Vec<usize> = Vec::new();
        let mut i: usize = 0;
        while i < n
            invariant
                n == providers@.len(),
                i <= n,
                zeros@ =~= Seq::new(i as nat, |k: int| 0i32),
                positions@ =~= all_positions(i as nat),
            decreases n - i,
        {
            zeros.push(0);
            positions.push(i);
            i = i + 1;
        }
        let order = sort_ranked(providers, &zeros, &positions);
        let mut entries: Vec<ProviderEntry> = Vec::new();
        let mut k: usize = 0;
        while k < order.len()
            invariant
                n == providers@.len(),
                order@.len() == n,
                forall|j: int| 0 <= j < order@.len() ==> (order[j] as int) < n,
                k <= order@.len(),
                entries@.len() == k,
                forall|j: int| 0 <= j < k ==> #[trigger] entries@[j] == providers@[order[j] as int],
            decreases order@.len() - k,
        {
            let e = &providers[order[k]];
            entries.push(ProviderEntry { id: e.id.clone(), name: e.name.clone() });
            k = k + 1;
        }
        assert(zeros@ =~= Seq::new(providers@.len(), |i: int| 0i32));
        assert(is_id_order(providers@, order@));
        assert(lists_in_order(entries@, providers@, order@));
        ProviderPicker {
            entries,
            filtered: positions,
            selected: 0,
            scroll_top: 0,
            query: String::new(),
            done: false,
            cancelled: false,
            selection: None,
        }
    }

    pub fn filtered_len(&self) -> (r: usize)
        ensures
            r == self.filtered@.len(),
    {
        self.filtered.len()
    }

    /// Refilters the list for the current query; `matches[i]` holds the
    /// fuzzy-match scores of entry `i`'s id and name against the query.  The
    /// selection is clamped to the new list and the view scrolls to the top.
    pub fn apply_filter(&mut self, matches: &Vec<(Option<i32>, Option<i32>)>)
        requires
            old(self).wf(),
            matches@.len() == old(self).entries@.len(),
            old(self).entries@.len() <= isize::MAX,
        ensures
            final(self).wf(),
            is_filter_result(final(self).entries@, final(self).query@, matches@, final(self).filtered@),
            final(self).selected == if old(self).selected >= final(self).filtered@.len() {
                sat_sub(final(self).filtered@.len() as int, 1)
            } else {
                old(self).selected as int
            },
            final(self).scroll_top == 0,
            final(self).entries@ == old(self).entries@,
            final(self).query@ == old(self).query@,
            final(self).done == old(self).done,
            final(self).cancelled == old(self).cancelled,
            final(self).selection == old(self).selection,
    {
        let filtered = filter_provider_indices(&self.entries, self.query.as_str(), matches);
        proof {
            if self.query@.len() > 0 {
                assert forall|k: int| 0 <= k < filtered@.len() implies (#[trigger] filtered@[k] as int)
                    < self.entries@.len() by {
                    assert(entry_score(self.entries@, self.query@, matches@, filtered@[k] as int) is Some
                        || true);
                }
                assert(filtered@.len() <= self.entries@.len()) by {
                    assert(filtered@.no_duplicates()) by {
                        assert forall|a: int, b: int| 0 <= a < filtered@.len() && 0 <= b < filtered@.len() && a != b
                            implies filtered@[a] != filtered@[b] by {
                            if a < b {
                                assert(ranked_before(self.entries@, ranking_scores(self.entries@, self.query@, matches@), filtered@[a] as int, filtered@[b] as int));
                            } else {
                                assert(ranked_before(self.entries@, ranking_scores(self.entries@, self.query@, matches@), filtered@[b] as int, filtered@[a] as int));
                            }
                        }
                    }
                    lemma_positions_bounded(filtered@, self.entries@.len());
                }
            }
        }
        self.filtered = filtered;
        if self.selected >= self.filtered.len() {
            self.selected = self.filtered.len().saturating_sub(1);
        }
        self.scroll_top = 0;
    }

    /// Scrolls so that the selected row is visible in `viewport_rows` rows.
    pub fn ensure_selected_visible(&mut self, viewport_rows: usize)
        requires
            old(self).wf(),
        ensures
            final(self).wf(),
            final(self).scroll_top == visible_scroll(
                old(self).filtered@.len() as int,
                old(self).selected as int,
                old(self).scroll_top as int,
                viewport_rows as int,
            ),
            final(self).selected == old(self).selected,
            final(self).filtered@ == old(self).filtered@,
            final(self).entries@ == old(self).entries@,
            final(self).query@ == old(self).query@,
            final(self).done == old(self).done,
            final(self).cancelled == old(self).cancelled,
            final(self).selection == old(self).selection,
    {
        if self.filtered.len() == 0 {
            self.scroll_top = 0;
            return;
        }
        if self.selected < self.scroll_top {
            self.scroll_top = self.selected;
        } else if self.selected >= self.scroll_top.saturating_add(viewport_rows) {
            self.scroll_top = self.selected.saturating_add(1).saturating_sub(viewport_rows);
        }
    }

    /// Moves the selection by `delta` rows, wrapping around the list, and
    /// scrolls it into view.  Does nothing on an empty list.
    pub fn move_selection(&mut self, delta: isize, viewport_rows: usize)
        requires
            old(self).wf(),
            isize::MIN <= old(self).selected + delta <= isize::MAX,
        ensures
            final(self).wf(),
            old(self).filtered@.len() == 0 ==> final(self).selected == old(self).selected
                && final(self).scroll_top == old(self).scroll_top,
            old(self).filtered@.len() > 0 ==> final(self).selected == wrapped_selection(
                old(self).filtered@.len() as int,
                old(self).selected as int,
                delta as int,
            ) && final(self).scroll_top == visible_scroll(
                old(self).filtered@.len() as int,
                final(self).selected as int,
                old(self).scroll_top as int,
                viewport_rows as int,
            ),
            final(self).filtered@ == old(self).filtered@,
            final(self).entries@ == old(self).entries@,
            final(self).query@ == old(self).query@,
            final(self).done == old(self).done,
            final(self).cancelled == old(self).cancelled,
            final(self).selection == old(self).selection,
    {
        if self.filtered.len() == 0 {
            return;
        }
        let len = self.filtered.len() as isize;
        let next = (self.selected as isize + delta).checked_rem_euclid(len).unwrap();
        self.selected = next as usize;
        self.ensure_selected_visible_after_move(viewport_rows);
    }

    /// `ensure_selected_visible` for a selection that may now sit above the
    /// scroll offset.
    fn ensure_selected_visible_after_move(&mut self, viewport_rows: usize)
        requires
            old(self).filtered@.len() > 0,
            old(self).selected < old(self).filtered@.len(),
            old(self).filtered@.len() <= isize::MAX,
            forall|k: int|
                0 <= k < old(self).filtered@.len() ==> (#[trigger] old(self).filtered@[k] as int)
                    < old(self).entries@.len(),
        ensures
            final(self).wf(),
            final(self).scroll_top == visible_scroll(
                old(self).filtered@.len() as int,
                old(self).selected as int,
                old(self).scroll_top as int,
                viewport_rows as int,
            ),
            final(self).selected == old(self).selected,
            final(self).filtered@ == old(self).filtered@,
            final(self).entries@ == old(self).entries@,
            final(self).query@ == old(self).query@,
            final(self).done == old(self).done,
            final(self).cancelled == old(self).cancelled,
            final(self).selection == old(self).selection,
    {
        if self.selected < self.scroll_top {
            self.scroll_top = self.selected;
        } else if self.selected >= self.scroll_top.saturating_add(viewport_rows) {
            self.scroll_top = self.selected.saturating_add(1).saturating_sub(viewport_rows);
        }
    }

    /// Moves a page of `viewport_rows` rows up (`direction < 0`) or down.
    pub fn page(&mut self, direction: isize, viewport_rows: usize)
        requires
            old(self).wf(),
            viewport_rows <= isize::MAX,
            isize::MIN <= direction * viewport_rows <= isize::MAX,
            isize::MIN <= old(self).selected + direction * viewport_rows <= isize::MAX,
        ensures
            final(self).wf(),
            viewport_rows == 0 || old(self).filtered@.len() == 0 ==> final(self).selected
                == old(self).selected && final(self).scroll_top == old(self).scroll_top,
            viewport_rows > 0 && old(self).filtered@.len() > 0 ==> final(self).selected
                == wrapped_selection(
                old(self).filtered@.len() as int,
                old(self).selected as int,
                direction * viewport_rows,
            ) && final(self).scroll_top == visible_scroll(
                old(self).filtered@.len() as int,
                final(self).selected as int,
                old(self).scroll_top as int,
                viewport_rows as int,
            ),
            final(self).filtered@ == old(self).filtered@,
            final(self).entries@ == old(self).entries@,
            final(self).query@ == old(self).query@,
            final(self).done == old(self).done,
            final(self).cancelled == old(self).cancelled,
            final(self).selection == old(self).selection,
    {
        if viewport_rows == 0 {
            return;
        }
        self.move_selection(direction * viewport_rows as isize, viewport_rows);
    }

    /// Records the highlighted provider as the selection and finishes; does
    /// nothing when no row is highlighted.
    pub fn accept_selection(&mut self)
        requires
            old(self).wf(),
        ensures
            final(self).wf(),
            old(self).filtered@.len() == 0 ==> *final(self) == *old(self),
            old(self).filtered@.len() > 0 ==> {
                &&& final(self).done
                &&& final(self).selection == Some(
                    old(self).entries@[old(self).filtered@[old(self).selected as int] as int].id,
                )
                &&& final(self).cancelled == old(self).cancelled
            },
            final(self).selected == old(self).selected,
            final(self).scroll_top == old(self).scroll_top,
            final(self).filtered@ == old(self).filtered@,
            final(self).entries@ == old(self).entries@,
            final(self).query@ == old(self).query@,
    {
        if self.selected >= self.filtered.len() {
            return;
        }
        let entry_index = self.filtered[self.selected];
        self.selection = Some(self.entries[entry_index].id.clone());
        self.done = true;
    }

    /// Finishes without a selection.
    pub fn cancel(&mut self)
        requires
            old(self).wf(),
        ensures
            final(self).wf(),
            final(self).cancelled,
            final(self).done,
            final(self).selection == old(self).selection,
            final(self).selected == old(self).selected,
            final(self).scroll_top == old(self).scroll_top,
            final(self).filtered@ == old(self).filtered@,
            final(self).entries@ == old(self).entries@,
            final(self).query@ == old(self).query@,
    {
        self.cancelled = true;
        self.done = true;
    }
}

impl ProviderPicker {
    /// Same entries, filtered list, query and completion state.
    pub open spec fn same_content(&self, other: &ProviderPicker) -> bool {
        &&& self.entries@ == other.entries@
        &&& self.filtered@ == other.filtered@
        &&& self.query@ == other.query@
        &&& self.done == other.done
        &&& self.cancelled == other.cancelled
        &&& self.selection == other.selection
    }

    /// Applies one key.  Keys that edit the query report `QueryChanged`: the
    /// caller then fuzzy-matches the entries against the new query and calls
    /// `apply_filter` with the results.
    pub fn handle_key(&mut self, key: PickerKey, viewport_rows: usize) -> (r: KeyOutcome)
        requires
            old(self).wf(),
            old(self).selected + viewport_rows <= isize::MAX,
        ensures
            final(self).wf(),
            r == match key_action(key) {
                KeyAction::DeleteChar | KeyAction::TypeChar(_) => KeyOutcome::QueryChanged,
                _ => KeyOutcome::Handled,
            },
            match key_action(key) {
                KeyAction::Ignore => *final(self) == *old(self),
                KeyAction::Cancel => {
                    &&& final(self).cancelled
                    &&& final(self).done
                    &&& final(self).selection == old(self).selection
                    &&& final(self).entries@ == old(self).entries@
                    &&& final(self).filtered@ == old(self).filtered@
                    &&& final(self).query@ == old(self).query@
                    &&& final(self).selected == old(self).selected
                    &&& final(self).scroll_top == old(self).scroll_top
                },
                KeyAction::Accept => {
                    &&& old(self).filtered@.len() == 0 ==> *final(self) == *old(self)
                    &&& old(self).filtered@.len() > 0 ==> {
                        &&& final(self).done
                        &&& final(self).selection == Some(
                            old(self).entries@[old(self).filtered@[old(self).selected as int] as int].id,
                        )
                        &&& final(self).cancelled == old(self).cancelled
                    }
                    &&& final(self).entries@ == old(self).entries@
                    &&& final(self).filtered@ == old(self).filtered@
                    &&& final(self).query@ == old(self).query@
                    &&& final(self).selected == old(self).selected
                    &&& final(self).scroll_top == old(self).scroll_top
                },
                KeyAction::Move(d) => {
                    &&& final(self).same_content(old(self))
                    &&& old(self).filtered@.len() == 0 ==> final(self).selected == old(self).selected
                        && final(self).scroll_top == old(self).scroll_top
                    &&& old(self).filtered@.len() > 0 ==> final(self).selected == wrapped_selection(
                        old(self).filtered@.len() as int,
                        old(self).selected as int,
                        d,
                    ) && final(self).scroll_top == visible_scroll(
                        old(self).filtered@.len() as int,
                        final(self).selected as int,
                        old(self).scroll_top as int,
                        viewport_rows as int,
                    )
                },
                KeyAction::Page(d) => {
                    &&& final(self).same_content(old(self))
                    &&& viewport_rows == 0 || old(self).filtered@.len() == 0 ==> final(self).selected
                        == old(self).selected && final(self).scroll_top == old(self).scroll_top
                    &&& viewport_rows > 0 && old(self).filtered@.len() > 0 ==> final(self).selected
                        == wrapped_selection(
                        old(self).filtered@.len() as int,
                        old(self).selected as int,
                        d * viewport_rows,
                    ) && final(self).scroll_top == visible_scroll(
                        old(self).filtered@.len() as int,
                        final(self).selected as int,
                        old(self).scroll_top as int,
                        viewport_rows as int,
                    )
                },
                KeyAction::Home => {
                    &&& final(self).same_content(old(self))
                    &&& final(self).selected == 0
                    &&& final(self).scroll_top == visible_scroll(
                        old(self).filtered@.len() as int,
                        0,
                        old(self).scroll_top as int,
                        viewport_rows as int,
                    )
                },
                KeyAction::End => {
                    &&& final(self).same_content(old(self))
                    &&& final(self).selected == sat_sub(old(self).filtered@.len() as int, 1)
                    &&& final(self).scroll_top == visible_scroll(
                        old(self).filtered@.len() as int,
                        final(self).selected as int,
                        old(self).scroll_top as int,
                        viewport_rows as int,
                    )
                },
                KeyAction::DeleteChar => {
                    &&& final(self).query@ == edited_query(old(self).query@, key_action(key))
                    &&& final(self).entries@ == old(self).entries@
                    &&& final(self).filtered@ == old(self).filtered@
                    &&& final(self).selected == old(self).selected
                    &&& final(self).scroll_top == old(self).scroll_top
                    &&& final(self).done == old(self).done
                    &&& final(self).cancelled == old(self).cancelled
                    &&& final(self).selection == old(self).selection
                },
                KeyAction::TypeChar(c) => {
                    &&& final(self).query@ == edited_query(old(self).query@, key_action(key))
                    &&& final(self).entries@ == old(self).entries@
                    &&& final(self).filtered@ == old(self).filtered@
                    &&& final(self).selected == old(self).selected
                    &&& final(self).scroll_top == old(self).scroll_top
                    &&& final(self).done == old(self).done
                    &&& final(self).cancelled == old(self).cancelled
                    &&& final(self).selection == old(self).selection
                },
            },
    {
        if !key.press {
            return KeyOutcome::Handled;
        }
        match key.code {
            PickerKeyCode::Char(c) => {
                if c == 'c' && key.control {
                    self.cancel();
                    KeyOutcome::Handled
                } else if c == 'q' {
                    self.cancel();
                    KeyOutcome::Handled
                } else if c == 'k' {
                    self.move_selection(-1, viewport_rows);
                    KeyOutcome::Handled
                } else if c == 'j' {
                    self.move_selection(1, viewport_rows);
                    KeyOutcome::Handled
                } else if !key.control {
                    push_char(&mut self.query, c);
                    KeyOutcome::QueryChanged
                } else {
                    KeyOutcome::Handled
                }
            },
            PickerKeyCode::Esc => {
                self.cancel();
                KeyOutcome::Handled
            },
            PickerKeyCode::Enter => {
                self.accept_selection();
                KeyOutcome::Handled
            },
            PickerKeyCode::Up => {
                self.move_selection(-1, viewport_rows);
                KeyOutcome::Handled
            },
            PickerKeyCode::Down => {
                self.move_selection(1, viewport_rows);
                KeyOutcome::Handled
            },
            PickerKeyCode::PageUp => {
                self.page(-1, viewport_rows);
                KeyOutcome::Handled
            },
            PickerKeyCode::PageDown => {
                self.page(1, viewport_rows);
                KeyOutcome::Handled
            },
            PickerKeyCode::Home => {
                self.selected = 0;
                self.ensure_selected_visible_after_move_or_empty(viewport_rows);
                KeyOutcome::Handled
            },
            PickerKeyCode::End => {
                self.selected = self.filtered.len().saturating_sub(1);
                self.ensure_selected_visible_after_move_or_empty(viewport_rows);
                KeyOutcome::Handled
            },
            PickerKeyCode::Backspace => {
                let _ = pop_char(&mut self.query);
                KeyOutcome::QueryChanged
            },
            PickerKeyCode::Other => KeyOutcome::Handled,
        }
    }

    /// `ensure_selected_visible` after the selection was set directly to a row
    /// of the list (or to `0` on an empty list).
    fn ensure_selected_visible_after_move_or_empty(&mut self, viewport_rows: usize)
        requires
            old(self).filtered@.len() == 0 ==> old(self).selected == 0,
            old(self).filtered@.len() > 0 ==> old(self).selected < old(self).filtered@.len(),
            old(self).filtered@.len() <= isize::MAX,
            forall|k: int|
                0 <= k < old(self).filtered@.len() ==> (#[trigger] old(self).filtered@[k] as int)
                    < old(self).entries@.len(),
        ensures
            final(self).wf(),
            final(self).scroll_top == visible_scroll(
                old(self).filtered@.len() as int,
                old(self).selected as int,
                old(self).scroll_top as int,
                viewport_rows as int,
            ),
            final(self).selected == old(self).selected,
            final(self).same_content(old(self)),
    {
        if self.filtered.len() == 0 {
            self.scroll_top = 0;
            return;
        }
        self.ensure_selected_visible_after_move(viewport_rows);
    }
}

proof fn lemma_positions_bounded(s: Seq<usize>, n: nat)
    requires
        s.no_duplicates(),
        forall|k: int| 0 <= k < s.len() ==> (s[k] as int) < n,
    ensures
        s.len() <= n,
{
    let full = Set::new(|x: usize| (x as int) < n);
    assert(full =~= all_positions(n).to_set()) by {
        assert forall|x: usize| full.contains(x) implies all_positions(n).to_set().contains(x) by {
            assert(all_positions(n)[x as int] == x);
        }
    }
    all_positions(n).lemma_cardinality_of_set();
    assert(s.to_set().subset_of(full));
    vstd::set_lib::lemma_len_subset(s.to_set(), full);
    s.unique_seq_to_set();
}


/// One visible row of the list: its row in the filtered list, the entry it
/// shows and whether it is drawn highlighted: the row whose position plus the
/// scroll offset equals the selection (the selected row itself while the list
/// is not scrolled).
#[derive(Debug, Clone, Copy, PartialEq, Eq)]
pub struct RenderRow {
    pub position: usize,
    pub entry_index: usize,
    pub selected: bool,
}

/// What the list area shows: the visible rows, and the `first–last of total`
/// indicator when the list overflows the viewport.
#[derive(Debug, PartialEq, Eq)]
pub struct RenderPlan {
    pub rows: Vec<RenderRow>,
    pub indicator: Option<(usize, usize, usize)>,
}

/// After the list is scrolled to the selection, the selected row lies inside
/// the viewport; when the selection was above the old offset the offset
/// becomes the selection, when it was below the viewport the selection
/// becomes the last visible row, and when it was already visible the offset
/// stays.
pub proof fn lemma_scroll_keeps_selection_visible(
    len: int,
    selected: int,
    scroll_top: int,
    viewport_rows: int,
)
    requires
        0 <= selected < len <= usize::MAX,
        0 <= scroll_top,
        1 <= viewport_rows,
        scroll_top + viewport_rows <= usize::MAX,
    ensures
        ({
            let t = visible_scroll(len, selected, scroll_top, viewport_rows);
            &&& 0 <= t <= selected < t + viewport_rows
            &&& selected < scroll_top ==> t == selected
            &&& selected >= scroll_top + viewport_rows ==> t + viewport_rows == selected + 1
            &&& scroll_top <= selected < scroll_top + viewport_rows ==> t == scroll_top
        }),
{
}

/// The end (exclusive) of the visible rows.
pub open spec fn visible_end(scroll_top: int, rows: int, len: int) -> int {
    if scroll_top + rows < len {
        scroll_top + rows
    } else {
        len
    }
}

/// On a non-empty list scrolled no further than its last row, the list area
/// shows at least one row and exactly as many as fit: the item rows, or the
/// rows left below the offset when fewer; the indicator's last row is the
/// offset plus that count.
pub proof fn lemma_visible_rows_fill_the_viewport(scroll_top: int, viewport_rows: int, len: int)
    requires
        0 <= scroll_top < len,
        0 <= viewport_rows,
    ensures
        ({
            let rows = item_rows(viewport_rows, len);
            let end = visible_end(scroll_top, rows, len);
            &&& 1 <= rows
            &&& len > viewport_rows ==> rows == if viewport_rows >= 2 {
                viewport_rows - 1
            } else {
                1
            }
            &&& len <= viewport_rows ==> rows == if viewport_rows >= 1 {
                viewport_rows
            } else {
                1
            }
            &&& scroll_top + 1 <= end <= len
            &&& end - scroll_top == if rows < len - scroll_top {
                rows
            } else {
                len - scroll_top
            }
        }),
{
}

impl ProviderPicker {
    /// Lays out the list for a viewport of `viewport_rows` rows.
    pub fn render_plan(&self, viewport_rows: usize) -> (r: RenderPlan)
        requires
            self.wf(),
            self.scroll_top + viewport_rows + 1 <= usize::MAX,
        ensures
            self.filtered@.len() == 0 ==> r.rows@.len() == 0 && r.indicator is None,
            self.filtered@.len() > 0 ==> {
                let len = self.filtered@.len() as int;
                let end = visible_end(
                    self.scroll_top as int,
                    item_rows(viewport_rows as int, len),
                    len,
                );
                &&& r.rows@.len() == if end > self.scroll_top {
                    end - self.scroll_top
                } else {
                    0
                }
                &&& forall|k: int|
                    0 <= k < r.rows@.len() ==> {
                        &&& (#[trigger] r.rows@[k]).position == self.scroll_top + k
                        &&& r.rows@[k].entry_index == self.filtered@[self.scroll_top + k]
                        &&& r.rows@[k].selected == ((self.scroll_top + k) + self.scroll_top == self.selected)
                    }
                &&& r.indicator == if len > viewport_rows {
                    Some(((self.scroll_top + 1) as usize, end as usize, len as usize))
                } else {
                    None::<(usize, usize, usize)>
                }
            },
    {
        let len = self.filtered.len();
        if len == 0 {
            return RenderPlan { rows: Vec::new(), indicator: None };
        }
        let rows_shown = effective_viewport_rows(viewport_rows, len);
        let end = if self.scroll_top + rows_shown < len {
            self.scroll_top + rows_shown
        } else {
            len
        };
        let mut rows: Vec<RenderRow> = Vec::new();
        let mut k: usize = self.scroll_top;
        while k < end
            invariant
                self.wf(),
                len == self.filtered@.len(),
                end <= len,
                self.scroll_top <= k,
                k <= end || k == self.scroll_top,
                rows@.len() == k - self.scroll_top,
                forall|j: int|
                    0 <= j < rows@.len() ==> {
                        &&& (#[trigger] rows@[j]).position == self.scroll_top + j
                        &&& rows@[j].entry_index == self.filtered@[self.scroll_top + j]
                        &&& rows@[j].selected == ((self.scroll_top + j) + self.scroll_top == self.selected)
                    },
            decreases end - k,
        {
            rows.push(
                RenderRow {
                    position: k,
                    entry_index: self.filtered[k],
                    selected: self.selected >= self.scroll_top && k == self.selected - self.scroll_top,
                },
            );
            k = k + 1;
        }
        let indicator = if len > viewport_rows {
            Some((self.scroll_top + 1, end, len))
        } else {
            None
        };
        RenderPlan { rows, indicator }
    }
}

/// The error kinds that the library reports, as `std::io::ErrorKind` names them.
#[derive(Debug, Clone, Copy, PartialEq, Eq)]
pub enum ErrorKind {
    NotFound,
    Interrupted,
    InvalidInput,
    InvalidData,
    NotConnected,
}

/// Why no provider was picked.
#[derive(Debug, Clone, Copy, PartialEq, Eq)]
pub enum PickError {
    NoProviders,
    Cancelled,
    NoSelection,
}

impl PickError {
    pub fn kind(&self) -> (r: ErrorKind)
        ensures
            r == match self {
                PickError::NoProviders => ErrorKind::NotFound,
                PickError::Cancelled => ErrorKind::Interrupted,
                PickError::NoSelection => ErrorKind::InvalidInput,
            },
    {
        match self {
            PickError::NoProviders => ErrorKind::NotFound,
            PickError::Cancelled => ErrorKind::Interrupted,
            PickError::NoSelection => ErrorKind::InvalidInput,
        }
    }

    pub fn message(&self) -> (r: String)
        ensures
            r@ == match self {
                PickError::NoProviders => "no providers available"@,
                PickError::Cancelled => "provider selection cancelled"@,
                PickError::NoSelection => "no provider selected"@,
            },
    {
        match self {
            PickError::NoProviders => "no providers available".to_owned(),
            PickError::Cancelled => "provider selection cancelled".to_owned(),
            PickError::NoSelection => "no provider selected".to_owned(),
        }
    }
}

/// Picking needs at least one provider.
pub fn check_providers_available(count: usize) -> (r: Result<(), PickError>)
    ensures
        r == if count == 0 {
            Err::<(), PickError>(PickError::NoProviders)
        } else {
            Ok(())
        },
{
    if count == 0 {
        Err(PickError::NoProviders)
    } else {
        Ok(())
    }
}

impl ProviderPicker {
    /// The result of the picker once it is done: the chosen provider id, or
    /// why there is none.  `None` while the picker is still running.
    pub fn outcome(&self) -> (r: Option<Result<String, PickError>>)
        ensures
            !self.done ==> r is None,
            self.done && self.cancelled ==> r == Some(Err::<String, PickError>(PickError::Cancelled)),
            self.done && !self.cancelled ==> match self.selection {
                Some(id) => r == Some(Ok::<String, PickError>(id)),
                None => r == Some(Err::<String, PickError>(PickError::NoSelection)),
            },
    {
        if !self.done {
            return None;
        }
        if self.cancelled {
            return Some(Err(PickError::Cancelled));
        }
        match &self.selection {
            Some(id) => Some(Ok(id.clone())),
            None => Some(Err(PickError::NoSelection)),
        }
    }
}

/// How a piece of highlighted text is drawn, relative to the row's style.
#[derive(Debug, Clone, Copy, PartialEq, Eq, Structural)]
pub enum SegmentStyle {
    Base,
    Matched,
    Dimmed,
}

/// A run of text drawn in one style.
#[derive(Debug, PartialEq, Eq)]
pub struct StyledSegment {
    pub text: String,
    pub style: SegmentStyle,
}

/// The maximal runs of equally flagged characters, in order.
pub open spec fn runs(chars: Seq<char>, flags: Seq<bool>) -> Seq<(Seq<char>, bool)>
    decreases chars.len(),
{
    if chars.len() == 0 {
        seq![]
    } else {
        let prev = runs(chars.drop_last(), flags);
        let c = chars.last();
        let f = flags[chars.len() - 1];
        if prev.len() > 0 && prev.last().1 == f {
            prev.update(prev.len() - 1, (prev.last().0.push(c), f))
        } else {
            prev.push((seq![c], f))
        }
    }
}

/// The texts of runs, one after another.
pub open spec fn joined_runs(rs: Seq<(Seq<char>, bool)>) -> Seq<char>
    decreases rs.len(),
{
    if rs.len() == 0 {
        seq![]
    } else {
        joined_runs(rs.drop_last()) + rs.last().0
    }
}

/// The runs of a text put back together give the text; no run is empty, and
/// neighbouring runs differ in style.
pub proof fn lemma_runs_rebuild_text(chars: Seq<char>, flags: Seq<bool>)
    ensures
        joined_runs(runs(chars, flags)) == chars,
        forall|k: int| 0 <= k < runs(chars, flags).len() ==> (#[trigger] runs(chars, flags)[k]).0.len() > 0,
        forall|k: int|
            0 <= k < runs(chars, flags).len() - 1 ==> (#[trigger] runs(chars, flags)[k]).1 != runs(
                chars,
                flags,
            )[k + 1].1,
    decreases chars.len(),
{
    if chars.len() > 0 {
        let prev = runs(chars.drop_last(), flags);
        lemma_runs_rebuild_text(chars.drop_last(), flags);
        let c = chars.last();
        let f = flags[chars.len() - 1];
        let r = runs(chars, flags);
        if prev.len() > 0 && prev.last().1 == f {
            let n = prev.len() - 1;
            assert(r == prev.update(n, (prev.last().0.push(c), f)));
            assert(r.drop_last() =~= prev.drop_last());
            assert(joined_runs(prev) == joined_runs(prev.drop_last()) + prev.last().0);
            assert(r.last() == (prev.last().0.push(c), f));
            assert(joined_runs(r) == joined_runs(prev.drop_last()) + prev.last().0.push(c));
            assert(joined_runs(prev.drop_last()) + prev.last().0.push(c) =~= (joined_runs(
                prev.drop_last(),
            ) + prev.last().0).push(c));
            assert(chars =~= chars.drop_last().push(c));
            assert forall|k: int| 0 <= k < r.len() implies (#[trigger] r[k]).0.len() > 0 by {
                if k < n {
                    assert(r[k] == prev[k]);
                }
            }
            assert forall|k: int| 0 <= k < r.len() - 1 implies (#[trigger] r[k]).1 != r[k + 1].1 by {
                assert(r[k] == prev[k]);
                if k + 1 < n {
                    assert(r[k + 1] == prev[k + 1]);
                }
            }
        } else {
            assert(r == prev.push((seq![c], f)));
            assert(r.drop_last() =~= prev);
            assert(joined_runs(r) =~= chars);
            assert forall|k: int| 0 <= k < r.len() implies (#[trigger] r[k]).0.len() > 0 by {
                if k < prev.len() {
                    assert(r[k] == prev[k]);
                }
            }
            assert forall|k: int| 0 <= k < r.len() - 1 implies (#[trigger] r[k]).1 != r[k + 1].1 by {
                assert(r[k] == prev[k]);
                if k + 1 < prev.len() {
                    assert(r[k + 1] == prev[k + 1]);
                }
            }
        }
    } else {
        assert(chars =~= Seq::<char>::empty());
    }
}

/// Which characters are drawn as matched: those at matched positions, except
/// the first character, which always takes the row's base style.
pub open spec fn drawn_matched(len: nat, matched: Seq<usize>) -> Seq<bool> {
    Seq::new(len, |i: int| i > 0 && matched.contains(i as usize))
}

pub open spec fn segment_view(s: StyledSegment) -> (Seq<char>, bool) {
    (s.text@, s.style == SegmentStyle::Matched)
}

fn contains_position(v: &Vec<usize>, x: usize) -> (r: bool)
    ensures
        r == v@.contains(x),
{
    let mut i: usize = 0;
    while i < v.len()
        invariant
            i <= v@.len(),
            forall|j: int| 0 <= j < i ==> v@[j] != x,
        decreases v@.len() - i,
    {
        if v[i] == x {
            assert(v@[i as int] == x);
            return true;
        }
        i = i + 1;
    }
    false
}

/// Splits `text` into styled runs for display: the whole text in the base
/// style for an empty query, dimmed when the fuzzy matcher found no match,
/// otherwise runs alternating between base and matched style at the matched
/// character positions `matched` (positions count characters).
pub fn highlight_fuzzy_match(text: &str, query: &str, matched: &Option<Vec<usize>>) -> (r: Vec<
    StyledSegment,
>)
    ensures
        query@.len() == 0 ==> r@.len() == 1 && r@[0].text@ == text@ && r@[0].style
            == SegmentStyle::Base,
        query@.len() > 0 && matched is None ==> r@.len() == 1 && r@[0].text@ == text@
            && r@[0].style == SegmentStyle::Dimmed,
        query@.len() > 0 && matched is Some ==> {
            &&& r@.map_values(|s: StyledSegment| segment_view(s)) == runs(
                text@,
                drawn_matched(text@.len(), matched->0@),
            )
            &&& forall|k: int| 0 <= k < r@.len() ==> (#[trigger] r@[k]).style != SegmentStyle::Dimmed
        },
{
    if query.is_empty() {
        let mut out: Vec<StyledSegment> = Vec::new();
        out.push(StyledSegment { text: text.to_owned(), style: SegmentStyle::Base });
        return out;
    }
    let indices = match matched {
        None => {
            let mut out: Vec<StyledSegment> = Vec::new();
            out.push(StyledSegment { text: text.to_owned(), style: SegmentStyle::Dimmed });
            return out;
        },
        Some(indices) => indices,
    };
    let ghost flags = drawn_matched(text@.len(), indices@);
    let chars = chars_of(text);
    let mut spans: Vec<StyledSegment> = Vec::new();
    let mut current = String::new();
    let mut current_style = SegmentStyle::Base;
    let mut idx: usize = 0;
    while idx < chars.len()
        invariant
            chars@ == text@,
            flags == drawn_matched(text@.len(), indices@),
            idx <= chars@.len(),
            current_style != SegmentStyle::Dimmed,
            forall|k: int| 0 <= k < spans@.len() ==> (#[trigger] spans@[k]).style != SegmentStyle::Dimmed,
            idx == 0 ==> current@.len() == 0 && spans@.len() == 0 && current_style == SegmentStyle::Base,
            idx > 0 ==> current@.len() > 0 && spans@.map_values(|s: StyledSegment| segment_view(s)).push(
                (current@, current_style == SegmentStyle::Matched),
            ) == runs(chars@.take(idx as int), flags),
        decreases chars@.len() - idx,
    {
        let ch = chars[idx];
        let is_match = contains_position(indices, idx);
        let style = if is_match { SegmentStyle::Matched } else { SegmentStyle::Base };
        let ghost prev_map = spans@.map_values(|s: StyledSegment| segment_view(s));
        let ghost prev_current = current@;
        let ghost prev_style = current_style;
        let ghost t = chars@.take(idx + 1);
        assert(t.drop_last() =~= chars@.take(idx as int));
        assert(t.last() == ch);
        assert(flags[idx as int] == (idx > 0 && is_match)) by {
            if is_match {
                assert(indices@.contains(idx));
            }
        }
        if style != current_style && !current.as_str().is_empty() {
            let finished = current;
            current = String::new();
            spans.push(StyledSegment { text: finished, style: current_style });
            proof {
                assert(spans@.map_values(|s: StyledSegment| segment_view(s)) =~= prev_map.push(
                    (prev_current, prev_style == SegmentStyle::Matched),
                ));
            }
            current_style = style;
        }
        push_char(&mut current, ch);
        proof {
            if idx == 0 {
                assert(chars@.take(idx as int) =~= Seq::<char>::empty());
                assert(runs(chars@.take(idx as int), flags) =~= Seq::<(Seq<char>, bool)>::empty());
                assert(current@ =~= seq![ch]);
                assert(spans@.map_values(|s: StyledSegment| segment_view(s)) =~= Seq::<(Seq<char>, bool)>::empty());
                assert(runs(t, flags) =~= seq![(seq![ch], false)]);
            } else {
                let prev_runs = runs(chars@.take(idx as int), flags);
                assert(prev_runs =~= prev_map.push((prev_current, prev_style == SegmentStyle::Matched)));
                assert(prev_runs.len() > 0);
                assert(prev_runs.last() == (prev_current, prev_style == SegmentStyle::Matched));
                if style == prev_style {
                    assert(prev_runs.last().1 == flags[idx as int]);
                    assert(current@ == prev_current.push(ch));
                    assert(runs(t, flags) == prev_runs.update(prev_runs.len() - 1, (prev_runs.last().0.push(ch), flags[idx as int])));
                } else {
                    assert(prev_runs.last().1 != flags[idx as int]);
                    assert(current@ =~= seq![ch]);
                    assert(runs(t, flags) == prev_runs.push((seq![ch], flags[idx as int])));
                }
                assert(spans@.map_values(|s: StyledSegment| segment_view(s)).push(
                    (current@, current_style == SegmentStyle::Matched),
                ) =~= runs(t, flags));
            }
        }
        idx = idx + 1;
    }
    assert(chars@.take(chars@.len() as int) =~= chars@);
    if !current.as_str().is_empty() {
        spans.push(StyledSegment { text: current, style: current_style });
    }
    proof {
        if chars@.len() == 0 {
            assert(runs(chars@, flags) =~= Seq::<(Seq<char>, bool)>::empty());
            assert(spans@.map_values(|s: StyledSegment| segment_view(s)) =~= Seq::<(Seq<char>, bool)>::empty());
        } else {
            assert(spans@.map_values(|s: StyledSegment| segment_view(s)) =~= runs(chars@, flags));
        }
    }
    spans
}

} // verus!
