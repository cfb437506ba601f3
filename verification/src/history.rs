//! The record of downloaded wallpapers: newest first, at most one entry
//! per wallpaper of a source, so that the same id may be kept once for
//! Wallhaven and once for Konachan.
use vstd::prelude::*;
use crate::paths::{data_dir, join_path, path_join};
use crate::sources::{Wallpaper, WallpaperView};
use crate::text::{
    contains_str, decimal, has_infix, lemma_filter_all, owned, push_char, push_decimal, push_str,
    string_views,
};

verus! {

/// One downloaded wallpaper, as kept in the history file.
#[derive(Debug, Clone, PartialEq)]
pub struct HistoryEntry {
    pub id: String,
    pub source: String,
    pub url: String,
    pub path: String,
    pub width: u32,
    pub height: u32,
    pub file_type: String,
}

/// The text of a history entry.
pub struct HistoryRecord {
    pub id: Seq<char>,
    pub source: Seq<char>,
    pub url: Seq<char>,
    pub path: Seq<char>,
    pub width: u32,
    pub height: u32,
    pub file_type: Seq<char>,
}

impl View for HistoryEntry {
    type V = HistoryRecord;

    open spec fn view(&self) -> HistoryRecord {
        HistoryRecord {
            id: self.id@,
            source: self.source@,
            url: self.url@,
            path: self.path@,
            width: self.width,
            height: self.height,
            file_type: self.file_type@,
        }
    }
}

/// The records of a list of entries, in order.
pub open spec fn records(entries: Seq<HistoryEntry>) -> Seq<HistoryRecord> {
    entries.map_values(|e: HistoryEntry| e@)
}

/// The source a wallpaper page address belongs to.
pub open spec fn source_key(url: Seq<char>) -> Seq<char> {
    if has_infix(url, "wallhaven.cc"@) {
        "wallhaven"@
    } else if has_infix(url, "konachan.com"@) || has_infix(url, "konachan.net"@) {
        "konachan"@
    } else {
        "unknown"@
    }
}

/// The record kept for `w` downloaded to `path`.
pub open spec fn record_of(w: WallpaperView, path: Seq<char>) -> HistoryRecord {
    HistoryRecord {
        id: w.id,
        source: source_key(w.url),
        url: w.url,
        path: path,
        width: w.dimension_x,
        height: w.dimension_y,
        file_type: w.file_type,
    }
}

/// `r` records the wallpaper `w`: same id, same source.
pub open spec fn is_record_of(r: HistoryRecord, w: WallpaperView) -> bool {
    r.id == w.id && r.source == source_key(w.url)
}

/// The history `h` holds the wallpaper `w`.
pub open spec fn has_item(h: Seq<HistoryRecord>, w: WallpaperView) -> bool {
    exists|i: int| 0 <= i < h.len() && #[trigger] is_record_of(h[i], w)
}

/// `h` after `w` was downloaded to `path`: the new record first, then
/// every other record of `h` in its order.
pub open spec fn with_added(h: Seq<HistoryRecord>, w: WallpaperView, path: Seq<char>) -> Seq<
    HistoryRecord,
> {
    seq![record_of(w, path)] + h.filter(other_than(w))
}

/// Holds of the records that are not of the wallpaper `w`.
pub open spec fn other_than(w: WallpaperView) -> spec_fn(HistoryRecord) -> bool {
    |r: HistoryRecord| !is_record_of(r, w)
}

/// Holds of the records whose id is not `id`.
pub open spec fn id_is_not(id: Seq<char>) -> spec_fn(HistoryRecord) -> bool {
    |r: HistoryRecord| r.id != id
}

/// `h` without the records of id `id`, whatever their source.
pub open spec fn without_id(h: Seq<HistoryRecord>, id: Seq<char>) -> Seq<HistoryRecord> {
    h.filter(id_is_not(id))
}

/// A record read from an older history file, which had no source: the
/// source is then taken from its page address.
pub open spec fn normalized(r: HistoryRecord) -> HistoryRecord {
    if r.source.len() == 0 {
        HistoryRecord { source: source_key(r.url), ..r }
    } else {
        r
    }
}

/// The history as loaded from what the file held: nothing when the file
/// could not be read or parsed, else its records normalized.
pub open spec fn loaded(parsed: Option<Seq<HistoryRecord>>) -> Seq<HistoryRecord> {
    match parsed {
        None => Seq::empty(),
        Some(h) => h.map_values(|r: HistoryRecord| normalized(r)),
    }
}

/// No two records of `h` are of the same wallpaper of the same source.
pub open spec fn distinct_items(h: Seq<HistoryRecord>) -> bool {
    forall|i: int, j: int|
        0 <= i < h.len() && 0 <= j < h.len() && i != j ==> !(#[trigger] h[i].id == #[trigger] h[j].id
            && h[i].source == h[j].source)
}

/// The history file's path inside the data directory `data_dir`.
pub open spec fn history_file_in(data_dir: Seq<char>) -> Seq<char> {
    path_join(path_join(data_dir, "wally"@), "history.json"@)
}

/// Appending an entry appends its record.
proof fn lemma_records_push(s: Seq<HistoryEntry>, e: HistoryEntry)
    ensures
        records(s.push(e)) == records(s).push(e@),
{
    assert(records(s.push(e)) =~= records(s).push(e@));
}

/// The source name of a wallpaper page address.
fn source_from_url(url: &str) -> (res: String)
    ensures
        res@ == source_key(url@),
{
    if contains_str(url, "wallhaven.cc") {
        owned("wallhaven")
    } else if contains_str(url, "konachan.com") || contains_str(url, "konachan.net") {
        owned("konachan")
    } else {
        owned("unknown")
    }
}

/// The source name of a wallpaper, from its page address.
pub fn source_from_wallpaper(wallpaper: &Wallpaper) -> (res: String)
    ensures
        res@ == source_key(wallpaper.url@),
{
    source_from_url(wallpaper.url.as_str())
}

/// A copy of `e`.
fn copy_entry(e: &HistoryEntry) -> (res: HistoryEntry)
    ensures
        res@ == e@,
{
    HistoryEntry {
        id: e.id.clone(),
        source: e.source.clone(),
        url: e.url.clone(),
        path: e.path.clone(),
        width: e.width,
        height: e.height,
        file_type: e.file_type.clone(),
    }
}

/// Where the history file lies, given the user's data directory.
pub fn history_path_in(data_dir: Option<String>) -> (res: Option<String>)
    ensures
        match data_dir {
            None => res is None,
            Some(d) => res is Some && res->0@ == history_file_in(d@),
        },
{
    match data_dir {
        None => None,
        Some(d) => {
            let dir = join_path(d.as_str(), "wally");
            Some(join_path(dir.as_str(), "history.json"))
        },
    }
}

/// Where the history file lies: `wally/history.json` in the user's data
/// directory, if there is one.
pub fn history_path() -> (res: Option<String>)
    ensures
        res is Some ==> exists|d: Seq<char>| res->0@ == history_file_in(d),
{
    let dir = data_dir();
    let res = history_path_in(dir);
    proof {
        if res is Some {
            let d = dir->0@;
            assert(res->0@ == history_file_in(d));
        }
    }
    res
}

/// The history given what its file held (`None` when it could not be
/// read or parsed): entries without a source get one from their address.
pub fn load(parsed: Option<Vec<HistoryEntry>>) -> (res: Vec<HistoryEntry>)
    ensures
        records(res@) == loaded(
            match parsed {
                None => None,
                Some(v) => Some(records(v@)),
            },
        ),
{
    match parsed {
        None => Vec::new(),
        Some(entries) => {
            let mut res: Vec<HistoryEntry> = Vec::new();
            let mut i: usize = 0;
            while i < entries.len()
                invariant
                    i <= entries.len(),
                    records(res@) == records(entries@).take(i as int).map_values(
                        |r: HistoryRecord| normalized(r),
                    ),
                decreases entries.len() - i,
            {
                let e = &entries[i];
                let source = if e.source.as_str().is_empty() {
                    source_from_url(e.url.as_str())
                } else {
                    e.source.clone()
                };
                let fixed = HistoryEntry {
                    id: e.id.clone(),
                    source,
                    url: e.url.clone(),
                    path: e.path.clone(),
                    width: e.width,
                    height: e.height,
                    file_type: e.file_type.clone(),
                };
                assert(fixed@ == normalized(e@));
                let ghost before = res@;
                res.push(fixed);
                proof {
                    lemma_records_push(before, fixed);
                    let t = records(entries@).take(i as int);
                    assert(records(entries@).take(i + 1) =~= t.push(entries@[i as int]@));
                    assert(t.push(entries@[i as int]@).map_values(|r: HistoryRecord| normalized(r))
                        =~= t.map_values(|r: HistoryRecord| normalized(r)).push(
                        normalized(entries@[i as int]@),
                    ));
                }
                i = i + 1;
            }
            assert(records(entries@).take(entries.len() as int) =~= records(entries@));
            res
        },
    }
}

/// Records that `wallpaper` was downloaded to `path`: its new entry goes
/// first and replaces any older entry of the same wallpaper of the same
/// source; every other entry keeps its place.
pub fn add(entries: &mut Vec<HistoryEntry>, wallpaper: &Wallpaper, path: &str)
    ensures
        records(final(entries)@) == with_added(records(old(entries)@), wallpaper@, path@),
{
    let source = source_from_wallpaper(wallpaper);
    let entry = HistoryEntry {
        id: wallpaper.id.clone(),
        source: source.clone(),
        url: wallpaper.url.clone(),
        path: owned(path),
        width: wallpaper.dimension_x,
        height: wallpaper.dimension_y,
        file_type: wallpaper.file_type.clone(),
    };
    let ghost old_records = records(entries@);

    let mut kept: Vec<HistoryEntry> = Vec::new();
    kept.push(entry);
    let mut i: usize = 0;
    while i < entries.len()
        invariant
            i <= entries.len(),
            old_records == records(entries@),
            source@ == source_key(wallpaper.url@),
            records(kept@) == seq![record_of(wallpaper@, path@)] + old_records.take(i as int).filter(
                other_than(wallpaper@),
            ),
        decreases entries.len() - i,
    {
        let e = &entries[i];
        let same = e.id == wallpaper.id && e.source == source;
        proof {
            assert(old_records.take(i + 1) =~= old_records.take(i as int).push(old_records[i as int]));
            old_records.take(i as int).lemma_filter_push(old_records[i as int], other_than(wallpaper@));
        }
        assert(old_records[i as int] == e@);
        assert(same == is_record_of(e@, wallpaper@));
        assert(other_than(wallpaper@)(old_records[i as int]) == !same);
        assert(old_records.take(i + 1).filter(other_than(wallpaper@)) == if !same {
            old_records.take(i as int).filter(other_than(wallpaper@)).push(e@)
        } else {
            old_records.take(i as int).filter(other_than(wallpaper@))
        });
        if !same {
            let c = copy_entry(e);
            let ghost before = kept@;
            kept.push(c);
            proof {
                lemma_records_push(before, c);
                assert(records(kept@) =~= seq![record_of(wallpaper@, path@)] + old_records.take(
                    i as int,
                ).filter(other_than(wallpaper@)).push(c@));
            }
        }
        assert(records(kept@) =~= seq![record_of(wallpaper@, path@)] + old_records.take(
            i + 1,
        ).filter(other_than(wallpaper@)));
        i = i + 1;
    }
    assert(old_records.take(entries.len() as int) =~= old_records);
    *entries = kept;
}

/// Whether the history holds `wallpaper`: an entry of its id and source.
pub fn contains(entries: &Vec<HistoryEntry>, wallpaper: &Wallpaper) -> (res: bool)
    ensures
        res == has_item(records(entries@), wallpaper@),
{
    let source = source_from_wallpaper(wallpaper);
    let mut i: usize = 0;
    while i < entries.len()
        invariant
            i <= entries.len(),
            source@ == source_key(wallpaper.url@),
            forall|j: int| 0 <= j < i ==> !is_record_of(#[trigger] records(entries@)[j], wallpaper@),
        decreases entries.len() - i,
    {
        if entries[i].id == wallpaper.id && entries[i].source == source {
            assert(is_record_of(records(entries@)[i as int], wallpaper@));
            return true;
        }
        i = i + 1;
    }
    false
}

/// Records a wallpaper found already downloaded at `path`: the history is
/// left as it is when it holds the wallpaper, and gets the new entry
/// otherwise. Returns whether the history changed.
pub fn add_if_missing(entries: &mut Vec<HistoryEntry>, wallpaper: &Wallpaper, path: &str) -> (added:
    bool)
    ensures
        added == !has_item(records(old(entries)@), wallpaper@),
        added ==> records(final(entries)@) == with_added(
            records(old(entries)@),
            wallpaper@,
            path@,
        ),
        !added ==> final(entries)@ == old(entries)@,
{
    if contains(entries, wallpaper) {
        false
    } else {
        self::add(entries, wallpaper, path);
        true
    }
}

/// Drops every entry of id `id`, whatever its source; the others keep
/// their order.
pub fn remove(entries: &mut Vec<HistoryEntry>, id: &str)
    ensures
        records(final(entries)@) == without_id(records(old(entries)@), id@),
{
    let ghost old_records = records(entries@);

    let target = owned(id);
    let mut kept: Vec<HistoryEntry> = Vec::new();
    let mut i: usize = 0;
    while i < entries.len()
        invariant
            i <= entries.len(),
            old_records == records(entries@),
            target@ == id@,
            records(kept@) == old_records.take(i as int).filter(id_is_not(id@)),
        decreases entries.len() - i,
    {
        let e = &entries[i];
        proof {
            assert(old_records.take(i + 1) =~= old_records.take(i as int).push(old_records[i as int]));
            old_records.take(i as int).lemma_filter_push(old_records[i as int], id_is_not(id@));
        }
        assert(old_records[i as int] == e@);
        if !(e.id == target) {
            let c = copy_entry(e);
            let ghost before = kept@;
            kept.push(c);
            proof {
                lemma_records_push(before, c);
            }
        }
        assert(records(kept@) =~= old_records.take(i + 1).filter(id_is_not(id@)));
        i = i + 1;
    }
    assert(old_records.take(entries.len() as int) =~= old_records);
    *entries = kept;
}

/// Drops every entry of id `id` when there is one; the history is left as
/// it is otherwise. Returns whether anything was dropped.
pub fn remove_if_present(entries: &mut Vec<HistoryEntry>, id: &str) -> (removed: bool)
    ensures
        removed == (records(old(entries)@).filter(id_is(id@)).len() > 0),
        removed ==> records(final(entries)@) == without_id(records(old(entries)@), id@),
        !removed ==> final(entries)@ == old(entries)@,
{
    let matches = matching_entries(entries, id);
    if matches.len() == 0 {
        false
    } else {
        self::remove(entries, id);
        true
    }
}

/// Empties the history.
pub fn clear(entries: &mut Vec<HistoryEntry>)
    ensures
        records(final(entries)@) == Seq::<HistoryRecord>::empty(),
{
    *entries = Vec::new();
    assert(records(entries@) =~= Seq::<HistoryRecord>::empty());
}


/// Holds of the records whose id is `id`.
pub open spec fn id_is(id: Seq<char>) -> spec_fn(HistoryRecord) -> bool {
    |r: HistoryRecord| r.id == id
}

/// The entries of id `id`, whatever their source, in order.
pub fn matching_entries(entries: &Vec<HistoryEntry>, id: &str) -> (res: Vec<HistoryEntry>)
    ensures
        records(res@) == records(entries@).filter(id_is(id@)),
{
    let ghost all = records(entries@);
    let target = owned(id);
    let mut res: Vec<HistoryEntry> = Vec::new();
    let mut i: usize = 0;
    while i < entries.len()
        invariant
            i <= entries.len(),
            all == records(entries@),
            target@ == id@,
            records(res@) == all.take(i as int).filter(id_is(id@)),
        decreases entries.len() - i,
    {
        let e = &entries[i];
        proof {
            assert(all.take(i + 1) =~= all.take(i as int).push(all[i as int]));
            all.take(i as int).lemma_filter_push(all[i as int], id_is(id@));
        }
        assert(all[i as int] == e@);
        if e.id == target {
            let c = copy_entry(e);
            let ghost before = res@;
            res.push(c);
            proof {
                lemma_records_push(before, c);
            }
        }
        i = i + 1;
    }
    assert(all.take(entries.len() as int) =~= all);
    res
}

/// `text` padded on the left with spaces to `width` characters, as the
/// format `{:>width}` does.
pub open spec fn padded_left(text: Seq<char>, width: nat) -> Seq<char> {
    if text.len() >= width {
        text
    } else {
        Seq::new((width - text.len()) as nat, |i: int| ' ') + text
    }
}

/// The lines that show an entry at list position `position` (from 1):
/// the position right-aligned to three places with source and id, then
/// size and media type, then the file.
pub open spec fn entry_lines_of(position: nat, r: HistoryRecord) -> Seq<Seq<char>> {
    seq![
        padded_left(decimal(position), 3) + ". "@ + r.source + ":"@ + r.id,
        "     "@ + decimal(r.width as nat) + "x"@ + decimal(r.height as nat) + " • "@ + r.file_type,
        "     "@ + r.path,
    ]
}

/// The lines that show entry `entry` at list position `position`.
pub fn entry_lines(position: usize, entry: &HistoryEntry) -> (res: Vec<String>)
    ensures
        string_views(res@) == entry_lines_of(position as nat, entry@),
{
    let mut number = String::new();
    push_decimal(&mut number, position as u64);
    assert(number@ =~= decimal(position as nat));
    let mut first = String::new();
    let len = number.as_str().unicode_len();
    let mut k: usize = len;
    while k < 3
        invariant
            len <= k <= 3 || (len > 3 && k == len),
            len == decimal(position as nat).len(),
            first@ == Seq::new((k - len) as nat, |i: int| ' '),
        decreases 3 - k,
    {
        push_char(&mut first, ' ');
        assert(first@ =~= Seq::new((k + 1 - len) as nat, |i: int| ' '));
        k = k + 1;
    }
    push_str(&mut first, number.as_str());
    push_str(&mut first, ". ");
    push_str(&mut first, entry.source.as_str());
    push_str(&mut first, ":");
    push_str(&mut first, entry.id.as_str());
    proof {
        if len >= 3 {
            assert(first@ =~= padded_left(decimal(position as nat), 3) + ". "@ + entry.source@
                + ":"@ + entry.id@);
        } else {
            assert(first@ =~= padded_left(decimal(position as nat), 3) + ". "@ + entry.source@
                + ":"@ + entry.id@);
        }
    }
    let mut second = owned("     ");
    push_decimal(&mut second, entry.width as u64);
    push_str(&mut second, "x");
    push_decimal(&mut second, entry.height as u64);
    push_str(&mut second, " • ");
    push_str(&mut second, entry.file_type.as_str());
    let mut third = owned("     ");
    push_str(&mut third, entry.path.as_str());
    let res = vec![first, second, third];
    assert(string_views(res@) =~= entry_lines_of(position as nat, entry@));
    res
}

// ───────────────────────── laws ─────────────────────────

/// Filtering keeps records distinct.
proof fn lemma_filter_distinct(h: Seq<HistoryRecord>, p: spec_fn(HistoryRecord) -> bool)
    requires
        distinct_items(h),
    ensures
        distinct_items(h.filter(p)),
    decreases h.len(),
{
    reveal(Seq::filter);
    if h.len() > 0 {
        let rest = h.drop_last();
        let x = h.last();
        assert(distinct_items(rest));
        lemma_filter_distinct(rest, p);
        let f = rest.filter(p);
        if p(x) {
            assert forall|i: int, j: int|
                0 <= i < f.push(x).len() && 0 <= j < f.push(x).len() && i != j implies !(
            #[trigger] f.push(x)[i].id == #[trigger] f.push(x)[j].id && f.push(x)[i].source == f.push(
                x,
            )[j].source) by {
                if i == f.len() || j == f.len() {
                    let k = if i == f.len() {
                        j
                    } else {
                        i
                    };
                    assert(f.contains(f[k]));
                    rest.lemma_filter_contains_rev(p, f[k]);
                    let m = choose|m: int| 0 <= m < rest.len() && rest[m] == f[k];
                    assert(h[m] == f[k]);
                    assert(h[h.len() - 1] == x);
                }
            }
        }
    }
}

/// What is added is found: after `w` is added, the history holds it.
pub proof fn law_added_is_found(h: Seq<HistoryRecord>, w: WallpaperView, path: Seq<char>)
    ensures
        has_item(with_added(h, w, path), w),
{
    let a = with_added(h, w, path);
    assert(is_record_of(a[0], w));
}

/// Adding the same download twice gives the history that adding it once
/// gives.
pub proof fn law_add_is_idempotent(h: Seq<HistoryRecord>, w: WallpaperView, path: Seq<char>)
    ensures
        with_added(with_added(h, w, path), w, path) == with_added(h, w, path),
{
    broadcast use vstd::seq_lib::group_filter_ensures;

    let f = h.filter(other_than(w));
    f.lemma_filter_prepend(record_of(w, path), other_than(w));
    lemma_filter_all(f, other_than(w));
    assert((seq![record_of(w, path)] + f).filter(other_than(w)) =~= f);
}

/// Adding a wallpaper keeps every record of another wallpaper, such as
/// the record of the same id from the other source.
pub proof fn law_add_keeps_others(
    h: Seq<HistoryRecord>,
    w: WallpaperView,
    path: Seq<char>,
    r: HistoryRecord,
)
    requires
        h.contains(r),
        !is_record_of(r, w),
    ensures
        with_added(h, w, path).contains(r),
{
    let i = choose|i: int| 0 <= i < h.len() && h[i] == r;
    h.lemma_filter_contains(other_than(w), i);
    let f = h.filter(other_than(w));
    let k = choose|k: int| 0 <= k < f.len() && f[k] == r;
    assert(with_added(h, w, path)[k + 1] == r);
}

/// Adding keeps the history free of two records of one wallpaper of one
/// source.
pub proof fn law_add_keeps_items_distinct(h: Seq<HistoryRecord>, w: WallpaperView, path: Seq<char>)
    requires
        distinct_items(h),
    ensures
        distinct_items(with_added(h, w, path)),
{
    broadcast use vstd::seq_lib::group_filter_ensures;

    let f = h.filter(other_than(w));
    lemma_filter_distinct(h, other_than(w));
    let a = with_added(h, w, path);
    assert forall|i: int, j: int|
        0 <= i < a.len() && 0 <= j < a.len() && i != j implies !(#[trigger] a[i].id
        == #[trigger] a[j].id && a[i].source == a[j].source) by {
        if i == 0 || j == 0 {
            let k = if i == 0 {
                j
            } else {
                i
            };
            assert(a[k] == f[k - 1]);
            assert(other_than(w)(f[k - 1]));
        } else {
            assert(a[i] == f[i - 1]);
            assert(a[j] == f[j - 1]);
        }
    }
}

/// After the entries of an id are removed, no wallpaper of that id is
/// held, from either source.
pub proof fn law_removed_is_gone(h: Seq<HistoryRecord>, id: Seq<char>, w: WallpaperView)
    requires
        w.id == id,
    ensures
        !has_item(without_id(h, id), w),
{
    broadcast use vstd::seq_lib::group_filter_ensures;

    let g = without_id(h, id);
    assert forall|i: int| 0 <= i < g.len() implies !#[trigger] is_record_of(g[i], w) by {
        assert(id_is_not(id)(g[i]));
    }
}

/// Removing an id keeps every record of another id.
pub proof fn law_remove_keeps_others(h: Seq<HistoryRecord>, id: Seq<char>, r: HistoryRecord)
    requires
        h.contains(r),
        r.id != id,
    ensures
        without_id(h, id).contains(r),
{
    let i = choose|i: int| 0 <= i < h.len() && h[i] == r;
    h.lemma_filter_contains(id_is_not(id), i);
}

/// Every loaded record names its source.
pub proof fn law_loaded_records_have_source(parsed: Option<Seq<HistoryRecord>>)
    ensures
        forall|i: int|
            0 <= i < loaded(parsed).len() ==> (#[trigger] loaded(parsed)[i]).source.len() > 0,
{
    reveal_strlit("wallhaven");
    reveal_strlit("konachan");
    reveal_strlit("unknown");
}

} // verus!
