//! The compose skills embedded in the binary: their fingerprint, the marker
//! that records which fingerprint was installed, and when to reinstall them.
use std::collections::hash_map::DefaultHasher;
use std::hash::Hash;
use std::hash::Hasher;
use vstd::prelude::*;
use vstd::std_specs::hash::DefaultHasherAdditionalSpecFns;
use crate::paths::{join_path, joined_path};
use crate::text::{
    is_white_space, lemma_lex_lt_asymmetric, lemma_lex_lt_transitive, str_lt, string_lt, trim_end,
    trim_start, trim_whitespace, trimmed, utf8,
};

verus! {

/// A file of the embedded tree: its path relative to the tree's root, and its
/// bytes.
#[derive(Debug, PartialEq, Eq)]
pub struct EmbeddedFile {
    pub path: String,
    pub contents: Vec<u8>,
}

/// A directory of the embedded tree: its path relative to the tree's root,
/// and its entries in the order the tree lists them.
#[derive(Debug, PartialEq, Eq)]
pub struct EmbeddedDir {
    pub path: String,
    pub entries: Vec<EmbeddedEntry>,
}

#[derive(Debug, PartialEq, Eq)]
pub enum EmbeddedEntry {
    Dir(EmbeddedDir),
    File(EmbeddedFile),
}

/// What `<[u8] as Hash>::hash` feeds a hasher for these bytes, as the
/// writes of vstd's `DefaultHasher` model (for the target the crate is built
/// for).
pub uninterp spec fn bytes_hash_writes(bytes: Seq<u8>) -> Seq<Seq<u8>>;

/// What `<str as Hash>::hash` feeds a hasher for this text.
pub uninterp spec fn str_hash_writes(text: Seq<char>) -> Seq<Seq<u8>>;

/// What `<Option<u64> as Hash>::hash` feeds a hasher for this value.
pub uninterp spec fn optional_u64_hash_writes(value: Option<u64>) -> Seq<Seq<u8>>;

/// The hash of a file's contents: a fresh `DefaultHasher` fed the bytes.
pub open spec fn content_digest(contents: Seq<u8>) -> u64 {
    DefaultHasher::spec_finish(bytes_hash_writes(contents))
}

/// The fingerprint items under an entry, the entry first and then, for a
/// directory, what lies under each of its entries in turn: each path with the
/// hash of the file's contents, or none for a directory.
pub open spec fn entry_items(e: EmbeddedEntry) -> Seq<(Seq<char>, Option<u64>)>
    decreases e,
{
    match e {
        EmbeddedEntry::File(f) => seq![(f.path@, Some(content_digest(f.contents@)))],
        EmbeddedEntry::Dir(d) => seq![(d.path@, None)] + entries_items(d.entries@),
    }
}

/// The fingerprint items under a list of entries, in order.
pub open spec fn entries_items(entries: Seq<EmbeddedEntry>) -> Seq<(Seq<char>, Option<u64>)>
    decreases entries,
{
    if entries.len() == 0 {
        seq![]
    } else {
        entries_items(entries.drop_last()) + entry_items(entries.last())
    }
}

/// A fingerprint item: a path, with the hash of the file's contents for a
/// file and none for a directory.
pub type FingerprintItem = (String, Option<u64>);

/// Fingerprint items as paths and hashes.
pub open spec fn item_views(items: Seq<FingerprintItem>) -> Seq<(Seq<char>, Option<u64>)> {
    Seq::new(items.len(), |i: int| (items[i].0@, items[i].1))
}

/// Items in the order of their paths, as Rust orders strings.
pub open spec fn sorted_by_path(items: Seq<FingerprintItem>) -> bool {
    forall|i: int, j: int| 0 <= i < j < items.len() ==> !str_lt(items[j].0@, items[i].0@)
}

/// `sorted` with `x` put before the first item whose path comes after its
/// own.
pub open spec fn insert_by_path(
    sorted: Seq<(Seq<char>, Option<u64>)>,
    x: (Seq<char>, Option<u64>),
) -> Seq<(Seq<char>, Option<u64>)>
    decreases sorted.len(),
{
    if sorted.len() == 0 {
        seq![x]
    } else if str_lt(x.0, sorted[0].0) {
        seq![x] + sorted
    } else {
        seq![sorted[0]] + insert_by_path(sorted.drop_first(), x)
    }
}

/// Items sorted by path, by inserting each item, from the last to the first,
/// into the items sorted so far.
pub open spec fn sort_by_path(items: Seq<(Seq<char>, Option<u64>)>) -> Seq<(Seq<char>, Option<u64>)>
    decreases items.len(),
{
    if items.len() == 0 {
        seq![]
    } else {
        insert_by_path(sort_by_path(items.drop_first()), items[0])
    }
}

/// Calls `<[u8] as Hash>::hash`: feeds the hasher the named writes for the
/// bytes.
#[verifier::external_body]
fn hash_bytes_into(bytes: &[u8], state: &mut DefaultHasher)
    ensures
        final(state)@ == old(state)@ + bytes_hash_writes(bytes@),
{
    bytes.hash(state);
}

/// Calls `<str as Hash>::hash` (which `String` shares): feeds the hasher the
/// named writes for the text.
#[verifier::external_body]
fn hash_str_into(s: &str, state: &mut DefaultHasher)
    ensures
        final(state)@ == old(state)@ + str_hash_writes(s@),
{
    s.hash(state);
}

/// Calls `<Option<u64> as Hash>::hash`: feeds the hasher the named writes for
/// the value.
#[verifier::external_body]
fn hash_optional_u64_into(value: &Option<u64>, state: &mut DefaultHasher)
    ensures
        final(state)@ == old(state)@ + optional_u64_hash_writes(*value),
{
    value.hash(state);
}

proof fn lemma_entries_items_push(entries: Seq<EmbeddedEntry>, i: int)
    requires
        0 <= i < entries.len(),
    ensures
        entries_items(entries.take(i + 1)) == entries_items(entries.take(i)) + entry_items(
            entries[i],
        ),
{
    assert(entries.take(i + 1).drop_last() =~= entries.take(i));
}

/// The hash of a file's contents.
fn file_digest(contents: &Vec<u8>) -> (r: u64)
    ensures
        r == content_digest(contents@),
{
    let mut file_hasher = DefaultHasher::new();
    hash_bytes_into(contents.as_slice(), &mut file_hasher);
    proof {
        assert(Seq::<Seq<u8>>::empty() + bytes_hash_writes(contents@) =~= bytes_hash_writes(contents@));
    }
    file_hasher.finish()
}

/// Appends the fingerprint items of everything under `dir` to `items`.
fn collect_fingerprint_items(dir: &EmbeddedDir, items: &mut Vec<FingerprintItem>)
    ensures
        item_views(final(items)@) == item_views(old(items)@) + entries_items(dir.entries@),
    decreases dir,
{
    let ghost start = item_views(items@);
    let mut i: usize = 0;
    while i < dir.entries.len()
        invariant
            i <= dir.entries@.len(),
            item_views(items@) == start + entries_items(dir.entries@.take(i as int)),
        decreases dir.entries@.len() - i,
    {
        let ghost before = item_views(items@);
        proof {
            lemma_entries_items_push(dir.entries@, i as int);
        }
        match &dir.entries[i] {
            EmbeddedEntry::Dir(subdir) => {
                items.push((subdir.path.clone(), None));
                assert(item_views(items@) =~= before + seq![(subdir.path@, None::<u64>)]);
                collect_fingerprint_items(subdir, items);
            },
            EmbeddedEntry::File(file) => {
                let digest = file_digest(&file.contents);
                items.push((file.path.clone(), Some(digest)));
                assert(item_views(items@) =~= before + seq![(file.path@, Some(content_digest(file.contents@)))]);
            },
        }
        i = i + 1;
    }
    assert(dir.entries@.take(dir.entries@.len() as int) =~= dir.entries@);
}

proof fn lemma_insert_at_first_later_path(
    sorted: Seq<(Seq<char>, Option<u64>)>,
    x: (Seq<char>, Option<u64>),
    p: int,
)
    requires
        0 <= p <= sorted.len(),
        forall|k: int| 0 <= k < p ==> !str_lt(x.0, #[trigger] sorted[k].0),
        p < sorted.len() ==> str_lt(x.0, sorted[p].0),
    ensures
        sorted.insert(p, x) == insert_by_path(sorted, x),
    decreases p,
{
    if sorted.len() == 0 {
        assert(sorted.insert(p, x) =~= seq![x]);
    } else if p == 0 {
        assert(sorted.insert(p, x) =~= seq![x] + sorted);
    } else {
        let rest = sorted.drop_first();
        assert forall|k: int| 0 <= k < p - 1 implies !str_lt(x.0, #[trigger] rest[k].0) by {
            assert(rest[k] == sorted[k + 1]);
        }
        assert(!str_lt(x.0, sorted[0].0));
        lemma_insert_at_first_later_path(rest, x, p - 1);
        assert(sorted.insert(p, x) =~= seq![sorted[0]] + rest.insert(p - 1, x));
    }
}

/// Sorts fingerprint items by path (insertion sort).
fn sort_fingerprint_items(items: Vec<FingerprintItem>) -> (r: Vec<FingerprintItem>)
    ensures
        item_views(r@) == sort_by_path(item_views(items@)),
        sorted_by_path(r@),
{
    let ghost all = item_views(items@);
    let ghost n = items@.len();
    let mut rest = items;
    let mut out: Vec<FingerprintItem> = Vec::new();
    proof {
        assert(all.subrange(n as int, n as int) =~= Seq::<(Seq<char>, Option<u64>)>::empty());
        assert(item_views(out@) =~= Seq::<(Seq<char>, Option<u64>)>::empty());
    }
    while rest.len() > 0
        invariant
            n == all.len(),
            rest@.len() <= n,
            item_views(rest@) == all.take(rest@.len() as int),
            item_views(out@) == sort_by_path(all.subrange(rest@.len() as int, n as int)),
            sorted_by_path(out@),
        decreases rest@.len(),
    {
        let ghost j = rest@.len() as int;
        let ghost before_rest = rest@;
        let x = rest.pop().unwrap();
        proof {
            assert(before_rest =~= rest@.push(x));
            assert(item_views(before_rest)[j - 1] == (x.0@, x.1));
            assert(all[j - 1] == (x.0@, x.1));
            assert(item_views(rest@) =~= all.take(j - 1));
        }
        let mut p: usize = 0;
        while p < out.len()
            invariant
                p <= out@.len(),
                sorted_by_path(out@),
                forall|k: int| 0 <= k < p ==> !str_lt(x.0@, #[trigger] out@[k].0@),
            ensures
                p <= out@.len(),
                forall|k: int| 0 <= k < p ==> !str_lt(x.0@, #[trigger] out@[k].0@),
                p < out@.len() ==> str_lt(x.0@, out@[p as int].0@),
            decreases out@.len() - p,
        {
            if string_lt(x.0.as_str(), out[p].0.as_str()) {
                break;
            }
            p = p + 1;
        }
        let ghost old_out = out@;
        proof {
            assert forall|k: int| p <= k < old_out.len() implies !str_lt(old_out[k].0@, x.0@) by {
                let a = utf8(x.0@);
                let b = utf8(old_out[p as int].0@);
                let c = utf8(old_out[k].0@);
                assert(crate::text::lex_lt(a, b));
                if k > p {
                    assert(!str_lt(old_out[k].0@, old_out[p as int].0@));
                }
                if crate::text::lex_lt(c, a) {
                    if k > p {
                        lemma_lex_lt_transitive(c, a, b);
                    } else {
                        lemma_lex_lt_asymmetric(a, b);
                    }
                }
            }
        }
        let ghost x_view = x;
        out.insert(p, x);
        proof {
            assert(out@ =~= old_out.insert(p as int, x_view));
            let ov = item_views(old_out);
            assert forall|k: int| 0 <= k < p implies !str_lt(x_view.0@, #[trigger] ov[k].0) by {
                assert(ov[k].0 == old_out[k].0@);
            }
            lemma_insert_at_first_later_path(ov, (x_view.0@, x_view.1), p as int);
            assert(item_views(out@) =~= ov.insert(p as int, (x_view.0@, x_view.1)));
            let tail = all.subrange(j - 1, n as int);
            assert(tail.drop_first() =~= all.subrange(j, n as int));
            assert(tail[0] == (x_view.0@, x_view.1));
            assert forall|i: int, k: int| 0 <= i < k < out@.len() implies !str_lt(
                out@[k].0@,
                out@[i].0@,
            ) by {
                if k < p {
                    assert(out@[i] == old_out[i] && out@[k] == old_out[k]);
                } else if k == p {
                    assert(out@[i] == old_out[i]);
                } else if i < p {
                    assert(out@[i] == old_out[i] && out@[k] == old_out[k - 1]);
                } else if i == p {
                    assert(out@[k] == old_out[k - 1]);
                } else {
                    assert(out@[i] == old_out[i - 1] && out@[k] == old_out[k - 1]);
                }
            }
        }
    }
    proof {
        assert(all.subrange(0, n as int) =~= all);
    }
    out
}

/// A digit of a lower-case hexadecimal numeral.
pub open spec fn hex_digit(d: nat) -> char {
    if d < 10 {
        (48 + d) as char
    } else {
        (87 + d) as char
    }
}

/// The lower-case hexadecimal numeral of a number, without leading zeros
/// (`format!("{:x}", n)`).
pub open spec fn lower_hex(n: nat) -> Seq<char>
    decreases n,
{
    if n < 16 {
        seq![hex_digit(n)]
    } else {
        lower_hex(n / 16).push(hex_digit(n % 16))
    }
}

fn hex_digit_exec(d: u64) -> (r: char)
    requires
        d < 16,
    ensures
        r == hex_digit(d as nat),
{
    if d < 10 {
        ((48 + d) as u8) as char
    } else {
        ((87 + d) as u8) as char
    }
}

/// Formats a number as a lower-case hexadecimal numeral.
pub fn lower_hex_exec(n: u64) -> (r: String)
    ensures
        r@ == lower_hex(n as nat),
    decreases n,
{
    if n < 16 {
        let mut s = String::new();
        crate::text::push_char(&mut s, hex_digit_exec(n));
        s
    } else {
        let mut s = lower_hex_exec(n / 16);
        crate::text::push_char(&mut s, hex_digit_exec(n % 16));
        s
    }
}

/// Salt mixed into the fingerprint, so that a change of its recipe changes it.
pub const COMPOSE_SKILLS_MARKER_SALT: &'static str = "v1";

/// The fingerprint items of an embedded tree, sorted by path.
pub open spec fn tree_fingerprint_items(dir: EmbeddedDir) -> Seq<(Seq<char>, Option<u64>)> {
    sort_by_path(entries_items(dir.entries@))
}

/// The fingerprint items of an embedded tree: one per directory and file
/// under its root, with the hash of each file's contents, sorted by path.
pub fn fingerprint_items(dir: &EmbeddedDir) -> (r: Vec<FingerprintItem>)
    ensures
        item_views(r@) == tree_fingerprint_items(*dir),
        sorted_by_path(r@),
{
    let mut items: Vec<FingerprintItem> = Vec::new();
    proof {
        assert(item_views(items@) =~= Seq::<(Seq<char>, Option<u64>)>::empty());
    }
    collect_fingerprint_items(dir, &mut items);
    proof {
        assert(item_views(items@) =~= entries_items(dir.entries@));
    }
    sort_fingerprint_items(items)
}

/// What the fingerprint feeds its hasher: the salt, then each item's path and
/// content hash in turn.
pub open spec fn fingerprint_writes(items: Seq<(Seq<char>, Option<u64>)>) -> Seq<Seq<u8>>
    decreases items.len(),
{
    if items.len() == 0 {
        str_hash_writes(COMPOSE_SKILLS_MARKER_SALT@)
    } else {
        fingerprint_writes(items.drop_last()) + str_hash_writes(items.last().0)
            + optional_u64_hash_writes(items.last().1)
    }
}

/// The fingerprint of an embedded tree, in lower-case hexadecimal.
pub open spec fn compose_skills_fingerprint(dir: EmbeddedDir) -> Seq<char> {
    lower_hex(DefaultHasher::spec_finish(fingerprint_writes(tree_fingerprint_items(dir))) as nat)
}

/// The fingerprint of the embedded compose skills: a hash of the salt and of
/// each path under the tree's root, in path order, with the hash of each
/// file's contents; written in lower-case hexadecimal.
pub fn embedded_compose_skills_fingerprint(dir: &EmbeddedDir) -> (r: String)
    ensures
        r@ == compose_skills_fingerprint(*dir),
{
    let items = fingerprint_items(dir);
    let ghost views = item_views(items@);
    let mut hasher = DefaultHasher::new();
    hash_str_into(COMPOSE_SKILLS_MARKER_SALT, &mut hasher);
    proof {
        assert(Seq::<Seq<u8>>::empty() + str_hash_writes(COMPOSE_SKILLS_MARKER_SALT@)
            =~= str_hash_writes(COMPOSE_SKILLS_MARKER_SALT@));
        assert(views.take(0) =~= Seq::<(Seq<char>, Option<u64>)>::empty());
    }
    let mut i: usize = 0;
    while i < items.len()
        invariant
            i <= items@.len(),
            views == item_views(items@),
            hasher@ == fingerprint_writes(views.take(i as int)),
        decreases items@.len() - i,
    {
        let (path, contents_hash) = &items[i];
        hash_str_into(path.as_str(), &mut hasher);
        hash_optional_u64_into(contents_hash, &mut hasher);
        proof {
            assert(views.take(i + 1).drop_last() =~= views.take(i as int));
            assert(views.take(i + 1).last() == (path@, *contents_hash));
        }
        i = i + 1;
    }
    proof {
        assert(views.take(items@.len() as int) =~= views);
    }
    let digest = hasher.finish();
    lower_hex_exec(digest)
}

/// The name of the marker file that records the installed fingerprint.
pub const COMPOSE_SKILLS_MARKER_FILENAME: &'static str = ".codex-compose-skills.marker";

/// What the marker file holds for a fingerprint: the fingerprint and a
/// newline.
pub open spec fn marker_contents(fingerprint: Seq<char>) -> Seq<char> {
    fingerprint + "\n"@
}

pub fn marker_contents_exec(fingerprint: &str) -> (r: String)
    ensures
        r@ == marker_contents(fingerprint@),
{
    let mut out = String::new();
    out.append(fingerprint);
    out.append("\n");
    out
}

/// The fingerprint a marker file's text records: the text, trimmed.
pub fn marker_from_file_text(text: &str) -> (r: String)
    ensures
        r@ == trimmed(text@),
{
    trim_whitespace(text)
}

/// What installing the compose skills has to do.
#[derive(Debug, PartialEq, Eq)]
pub enum ComposeInstallAction {
    /// The installed skills carry the expected fingerprint: nothing to do.
    UpToDate,
    /// Write the embedded skills afresh, removing what stands at the
    /// destination first, and then write `marker` to the marker file.
    Install { remove_existing: bool, marker: String },
}

/// Whether the installed skills are up to date: the destination is a
/// directory whose marker file could be read and records the expected
/// fingerprint.
pub open spec fn install_is_current(
    dest_is_dir: bool,
    marker_file: Option<Seq<char>>,
    expected_fingerprint: Seq<char>,
) -> bool {
    dest_is_dir && (marker_file matches Some(text) && trimmed(text) == expected_fingerprint)
}

/// Decides how to install the compose skills, from what stands at the
/// destination (whether it is a directory, whether anything is there, and
/// the text of its marker file if it could be read) and the fingerprint of
/// the embedded skills.
pub fn compose_install_action(
    dest_is_dir: bool,
    dest_exists: bool,
    marker_file: Option<&str>,
    expected_fingerprint: &str,
) -> (r: ComposeInstallAction)
    ensures
        install_is_current(
            dest_is_dir,
            match marker_file {
                Some(t) => Some(t@),
                None => None,
            },
            expected_fingerprint@,
        ) ==> r == ComposeInstallAction::UpToDate,
        !install_is_current(
            dest_is_dir,
            match marker_file {
                Some(t) => Some(t@),
                None => None,
            },
            expected_fingerprint@,
        ) ==> (r matches ComposeInstallAction::Install { remove_existing, marker } && remove_existing
            == dest_exists && marker@ == marker_contents(expected_fingerprint@)),
{
    if dest_is_dir {
        if let Some(text) = marker_file {
            let marker = marker_from_file_text(text);
            if crate::text::str_eq(marker.as_str(), expected_fingerprint) {
                return ComposeInstallAction::UpToDate;
            }
        }
    }
    ComposeInstallAction::Install {
        remove_existing: dest_exists,
        marker: marker_contents_exec(expected_fingerprint),
    }
}

/// Where the embedded compose skills are cached under CODEX_HOME:
/// `skills/.compose`.
pub fn compose_cache_root_dir(codex_home: &str) -> (r: String)
    ensures
        r@ == joined_path(joined_path(codex_home@, "skills"@), ".compose"@),
{
    let skills = join_path(codex_home, "skills");
    join_path(skills.as_str(), ".compose")
}

/// The marker file under the compose skills cache.
pub fn compose_marker_path(codex_home: &str) -> (r: String)
    ensures
        r@ == joined_path(
            joined_path(joined_path(codex_home@, "skills"@), ".compose"@),
            COMPOSE_SKILLS_MARKER_FILENAME@,
        ),
{
    let root = compose_cache_root_dir(codex_home);
    join_path(root.as_str(), COMPOSE_SKILLS_MARKER_FILENAME)
}

proof fn lemma_lower_hex_has_no_white_space(n: nat)
    ensures
        lower_hex(n).len() > 0,
        forall|i: int| 0 <= i < lower_hex(n).len() ==> !is_white_space(#[trigger] lower_hex(n)[i]),
    decreases n,
{
    if n >= 16 {
        lemma_lower_hex_has_no_white_space(n / 16);
    }
}

/// The marker written for a fingerprint reads back as that fingerprint, so a
/// check right after an install finds the install current.
pub proof fn lemma_marker_records_fingerprint(digest: u64)
    ensures
        trimmed(marker_contents(lower_hex(digest as nat))) == lower_hex(digest as nat),
        install_is_current(
            true,
            Some(marker_contents(lower_hex(digest as nat))),
            lower_hex(digest as nat),
        ),
{
    let h = lower_hex(digest as nat);
    lemma_lower_hex_has_no_white_space(digest as nat);
    reveal_strlit("\n");
    let m = marker_contents(h);
    assert(m[0] == h[0]);
    assert(trim_start(m) == m);
    assert(m.last() == '\n');
    assert(m.drop_last() =~= h);
    assert(trim_end(h) == h);
    assert(trim_end(m) == h);
}

/// The fingerprint of a tree does not change between calls, and the marker an
/// install writes for it makes the next check find the skills current, so a
/// second install right after a first one does nothing.
pub proof fn lemma_second_install_finds_skills_current(dir: EmbeddedDir)
    ensures
        install_is_current(
            true,
            Some(marker_contents(compose_skills_fingerprint(dir))),
            compose_skills_fingerprint(dir),
        ),
{
    lemma_marker_records_fingerprint(
        DefaultHasher::spec_finish(fingerprint_writes(tree_fingerprint_items(dir))),
    );
}

/// A lower-case hexadecimal digit.
pub open spec fn is_lower_hex_digit(c: char) -> bool {
    ('0' <= c && c <= '9') || ('a' <= c && c <= 'f')
}

/// `16` to the power `k`.
pub open spec fn pow16(k: nat) -> nat
    decreases k,
{
    if k == 0 {
        1
    } else {
        16 * pow16((k - 1) as nat)
    }
}

proof fn lemma_lower_hex_digits(n: nat, k: nat)
    requires
        1 <= k,
        n < pow16(k),
    ensures
        1 <= lower_hex(n).len() <= k,
        forall|i: int| 0 <= i < lower_hex(n).len() ==> is_lower_hex_digit(#[trigger] lower_hex(n)[i]),
        n > 0 ==> lower_hex(n)[0] != '0',
    decreases n,
{
    if n >= 16 {
        let p = pow16((k - 1) as nat);
        assert(k >= 2) by {
            if k == 1 {
                assert(pow16(1) == 16 * pow16(0));
            }
        }
        assert(pow16(k) == 16 * p);
        assert(n / 16 < p) by (nonlinear_arith)
            requires
                n < 16 * p,
        ;
        assert(n / 16 >= 1) by (nonlinear_arith)
            requires
                n >= 16,
        ;
        lemma_lower_hex_digits(n / 16, (k - 1) as nat);
        let prefix = lower_hex(n / 16);
        assert(lower_hex(n) == prefix.push(hex_digit(n % 16)));
        assert(lower_hex(n)[0] == prefix[0]);
        assert forall|i: int| 0 <= i < lower_hex(n).len() implies is_lower_hex_digit(
            #[trigger] lower_hex(n)[i],
        ) by {
            if i < prefix.len() {
                assert(lower_hex(n)[i] == prefix[i]);
            }
        }
    }
}

/// The fingerprint's numeral has the shape of a `u64` in lower-case
/// hexadecimal: one to sixteen digits `0`-`9` and `a`-`f`, with no leading
/// zero unless it is `0` itself.
pub proof fn lemma_lower_hex_shape(n: u64)
    ensures
        1 <= lower_hex(n as nat).len() <= 16,
        forall|i: int|
            0 <= i < lower_hex(n as nat).len() ==> is_lower_hex_digit(#[trigger] lower_hex(n as nat)[i]),
        lower_hex(n as nat)[0] == '0' ==> lower_hex(n as nat) == seq!['0'],
{
    reveal_with_fuel(pow16, 17);
    assert(pow16(16) == 0x1_0000_0000_0000_0000);
    lemma_lower_hex_digits(n as nat, 16);
    if n == 0 {
        assert(lower_hex(0) =~= seq!['0']);
    }
}

/// The fingerprint of a tree is one to sixteen lower-case hexadecimal
/// digits, with no leading zero unless it is `0`.
pub proof fn lemma_fingerprint_shape(dir: EmbeddedDir)
    ensures
        1 <= compose_skills_fingerprint(dir).len() <= 16,
        forall|i: int|
            0 <= i < compose_skills_fingerprint(dir).len() ==> is_lower_hex_digit(
                #[trigger] compose_skills_fingerprint(dir)[i],
            ),
        compose_skills_fingerprint(dir)[0] == '0' ==> compose_skills_fingerprint(dir) == seq!['0'],
{
    lemma_lower_hex_shape(DefaultHasher::spec_finish(fingerprint_writes(tree_fingerprint_items(dir))));
}

} // verus!
