//! Saved download directories: one per line in a small text file, the
//! most recently chosen first, at most ten.
use vstd::prelude::*;
use crate::paths::{config_dir, join_path, path_join};
use crate::text::{
    chars_of, join, join_strings, lemma_filter_all, lemma_filter_no_duplicates,
    lemma_split_append_sep, lemma_split_join, lemma_split_pieces_lack_sep, lemma_trim_empty,
    lemma_trim_idempotent, lemma_trim_is_infix, owned, push_char, split, split_chars, string_of,
    string_views, trim, trim_chars, views,
};

verus! {

/// How many locations are kept.
pub const MAX_LOCATIONS: usize = 10;

/// Holds of non-empty lines.
pub open spec fn is_nonempty() -> spec_fn(Seq<char>) -> bool {
    |l: Seq<char>| l.len() > 0
}

/// Maps a line to its trimmed text.
pub open spec fn trimmed() -> spec_fn(Seq<char>) -> Seq<char> {
    |l: Seq<char>| trim(l)
}

/// Holds of the locations other than `location`.
pub open spec fn differs_from(location: Seq<char>) -> spec_fn(Seq<char>) -> bool {
    |l: Seq<char>| l != location
}

/// The locations a file holding `content` gives: its lines, trimmed, the
/// empty ones left out. (`str::lines` splits at `\n` and drops one `\r`
/// before it and a last empty line; after trimming and dropping empty
/// lines, splitting at `\n` gives the same.)
pub open spec fn parsed_locations(content: Seq<char>) -> Seq<Seq<char>> {
    split(content, '\n').map_values(trimmed()).filter(is_nonempty())
}

/// The list after `location` was saved: it goes first, any earlier copy
/// of it is dropped, and only the first `MAX_LOCATIONS` are kept.
pub open spec fn saved_list(list: Seq<Seq<char>>, location: Seq<char>) -> Seq<Seq<char>> {
    let s = seq![location] + list.filter(differs_from(location));
    if s.len() > MAX_LOCATIONS {
        s.take(MAX_LOCATIONS as int)
    } else {
        s
    }
}

/// The list after `location` was removed.
pub open spec fn removed_list(list: Seq<Seq<char>>, location: Seq<char>) -> Seq<Seq<char>> {
    list.filter(differs_from(location))
}

/// The file text written after a save: one location per line, each line
/// ended by `\n`.
pub open spec fn text_after_save(list: Seq<Seq<char>>) -> Seq<char> {
    join(list, seq!['\n']) + seq!['\n']
}

/// The file text written after a removal: as after a save, but empty when
/// nothing is left.
pub open spec fn text_after_remove(list: Seq<Seq<char>>) -> Seq<char> {
    if join(list, seq!['\n']).len() == 0 {
        Seq::empty()
    } else {
        join(list, seq!['\n']) + seq!['\n']
    }
}

/// A location that a line of the file keeps as it is: not empty, no line
/// break, no whitespace at either end.
pub open spec fn storable(l: Seq<char>) -> bool {
    &&& l.len() > 0
    &&& !l.contains('\n')
    &&& trim(l) == l
}

/// The locations file inside the configuration directory `config_dir`.
pub open spec fn locations_file_in(config_dir: Seq<char>) -> Seq<char> {
    path_join(path_join(config_dir, "wally"@), "locations"@)
}

/// Where the locations file lies, given the user's configuration
/// directory.
pub fn locations_file_from(config_dir: Option<String>) -> (res: Option<String>)
    ensures
        match config_dir {
            None => res is None,
            Some(d) => res is Some && res->0@ == locations_file_in(d@),
        },
{
    match config_dir {
        None => None,
        Some(d) => {
            let dir = join_path(d.as_str(), "wally");
            Some(join_path(dir.as_str(), "locations"))
        },
    }
}

/// Where the locations file lies: `wally/locations` in the user's
/// configuration directory, if there is one.
pub fn locations_file() -> (res: Option<String>)
    ensures
        res is Some ==> exists|d: Seq<char>| res->0@ == locations_file_in(d),
{
    let dir = config_dir();
    let res = locations_file_from(dir);
    proof {
        if res is Some {
            let d = dir->0@;
            assert(res->0@ == locations_file_in(d));
        }
    }
    res
}

/// The saved locations in a file holding `content`.
pub fn load(content: &str) -> (res: Vec<String>)
    ensures
        string_views(res@) == parsed_locations(content@),
{
    let cs = chars_of(content);
    let lines = split_chars(&cs, '\n');
    let ghost pieces = split(content@, '\n');
    let mut res: Vec<String> = Vec::new();
    let mut i: usize = 0;
    while i < lines.len()
        invariant
            i <= lines.len(),
            views(lines@) == pieces,
            string_views(res@) == pieces.take(i as int).map_values(trimmed()).filter(is_nonempty()),
        decreases lines.len() - i,
    {
        let t = trim_chars(&lines[i]);
        let ghost before = pieces.take(i as int).map_values(trimmed());
        proof {
            assert(pieces[i as int] == lines@[i as int]@);
            assert(pieces.take(i + 1).map_values(trimmed()) =~= before.push(t@));
            before.lemma_filter_push(t@, is_nonempty());
        }
        if t.len() > 0 {
            let line = string_of(&t);
            let ghost old_res = res@;
            res.push(line);
            assert(string_views(res@) =~= string_views(old_res).push(line@));
        }
        i = i + 1;
    }
    assert(pieces.take(lines.len() as int) =~= pieces);
    res
}

/// Saves `location` first in the list, drops any earlier copy of it and
/// keeps the first `MAX_LOCATIONS` locations.
pub fn save(locations: &mut Vec<String>, location: &str)
    ensures
        string_views(final(locations)@) == saved_list(string_views(old(locations)@), location@),
{
    let ghost old_list = string_views(locations@);
    let mut kept: Vec<String> = Vec::new();
    kept.push(owned(location));
    let target = owned(location);
    let mut i: usize = 0;
    while i < locations.len()
        invariant
            i <= locations.len(),
            old_list == string_views(locations@),
            target@ == location@,
            string_views(kept@) == seq![location@] + old_list.take(i as int).filter(
                differs_from(location@),
            ),
        decreases locations.len() - i,
    {
        proof {
            assert(old_list.take(i + 1) =~= old_list.take(i as int).push(old_list[i as int]));
            old_list.take(i as int).lemma_filter_push(old_list[i as int], differs_from(location@));
        }
        if !(locations[i] == target) {
            let c = locations[i].clone();
            let ghost before = kept@;
            kept.push(c);
            assert(string_views(kept@) =~= string_views(before).push(c@));
        }
        assert(string_views(kept@) =~= seq![location@] + old_list.take(i + 1).filter(
            differs_from(location@),
        ));
        i = i + 1;
    }
    assert(old_list.take(locations.len() as int) =~= old_list);
    kept.truncate(MAX_LOCATIONS);
    assert(string_views(kept@) =~= saved_list(old_list, location@));
    *locations = kept;
}

/// Drops `location` from the list; the others keep their order.
pub fn remove(locations: &mut Vec<String>, location: &str)
    ensures
        string_views(final(locations)@) == removed_list(string_views(old(locations)@), location@),
{
    let ghost old_list = string_views(locations@);
    let mut kept: Vec<String> = Vec::new();
    let target = owned(location);
    let mut i: usize = 0;
    while i < locations.len()
        invariant
            i <= locations.len(),
            old_list == string_views(locations@),
            target@ == location@,
            string_views(kept@) == old_list.take(i as int).filter(differs_from(location@)),
        decreases locations.len() - i,
    {
        proof {
            assert(old_list.take(i + 1) =~= old_list.take(i as int).push(old_list[i as int]));
            old_list.take(i as int).lemma_filter_push(old_list[i as int], differs_from(location@));
        }
        if !(locations[i] == target) {
            let c = locations[i].clone();
            let ghost before = kept@;
            kept.push(c);
            assert(string_views(kept@) =~= string_views(before).push(c@));
        }
        i = i + 1;
    }
    assert(old_list.take(locations.len() as int) =~= old_list);
    *locations = kept;
}

/// The file text to write after a save.
pub fn text_for_save(locations: &Vec<String>) -> (res: String)
    ensures
        res@ == text_after_save(string_views(locations@)),
{
    let mut s = join_strings(locations, "\n");
    proof {
        reveal_strlit("\n");
        assert("\n"@ =~= seq!['\n']);
    }
    push_char(&mut s, '\n');
    s
}

/// The file text to write after a removal.
pub fn text_for_remove(locations: &Vec<String>) -> (res: String)
    ensures
        res@ == text_after_remove(string_views(locations@)),
{
    let mut s = join_strings(locations, "\n");
    proof {
        reveal_strlit("\n");
        assert("\n"@ =~= seq!['\n']);
    }
    if s.as_str().is_empty() {
        s
    } else {
        push_char(&mut s, '\n');
        s
    }
}

// ───────────────────────── laws ─────────────────────────

/// Joined text of non-empty pieces is not empty.
proof fn lemma_join_nonempty(parts: Seq<Seq<char>>, sep: Seq<char>)
    requires
        parts.len() > 0,
        parts.last().len() > 0,
    ensures
        join(parts, sep).len() > 0,
{
}

/// The pieces of a saved file, before trimming and dropping empty lines.
proof fn lemma_saved_text_pieces(list: Seq<Seq<char>>)
    requires
        list.len() > 0,
        forall|i: int| 0 <= i < list.len() ==> storable(#[trigger] list[i]),
    ensures
        split(text_after_save(list), '\n') == list.push(Seq::<char>::empty()),
{
    let j = join(list, seq!['\n']);
    {
        assert forall|i: int| 0 <= i < list.len() implies !(#[trigger] list[i]).contains('\n') by {
            assert(storable(list[i]));
        }
        lemma_split_join(list, '\n');
        lemma_split_append_sep(j, '\n');
    }
}

/// Reading back what a save wrote gives the saved list.
proof fn lemma_reads_back_pieces(list: Seq<Seq<char>>)
    requires
        forall|i: int| 0 <= i < list.len() ==> storable(#[trigger] list[i]),
    ensures
        list.push(Seq::<char>::empty()).map_values(trimmed()).filter(is_nonempty()) == list,
{
    lemma_trim_empty();
    assert(list.push(Seq::<char>::empty()).map_values(trimmed()) =~= list.push(
        Seq::<char>::empty(),
    ));
    list.lemma_filter_push(Seq::<char>::empty(), is_nonempty());
    lemma_filter_all(list, is_nonempty());
}

/// What is written after a save reads back as the list that was saved,
/// when every location is storable.
pub proof fn law_saved_text_reads_back(list: Seq<Seq<char>>)
    requires
        forall|i: int| 0 <= i < list.len() ==> storable(#[trigger] list[i]),
    ensures
        parsed_locations(text_after_save(list)) == list,
{
    if list.len() == 0 {
        let e = Seq::<char>::empty();
        assert(text_after_save(list) =~= e + seq!['\n']);
        lemma_split_append_sep(e, '\n');
        assert(split(e, '\n') =~= seq![e]);
        lemma_trim_empty();
        assert(split(text_after_save(list), '\n').map_values(trimmed()) =~= seq![e].push(e));
        reveal_with_fuel(Seq::filter, 3);
        assert(seq![e].push(e).drop_last() =~= seq![e]);
        assert(seq![e].drop_last() =~= Seq::<Seq<char>>::empty());
        assert(seq![e].push(e).filter(is_nonempty()) =~= list);
    } else {
        lemma_saved_text_pieces(list);
        lemma_reads_back_pieces(list);
    }
}

/// What is written after a removal reads back as the list that is left,
/// when every location is storable.
pub proof fn law_removed_text_reads_back(list: Seq<Seq<char>>)
    requires
        forall|i: int| 0 <= i < list.len() ==> storable(#[trigger] list[i]),
    ensures
        parsed_locations(text_after_remove(list)) == list,
{
    if join(list, seq!['\n']).len() == 0 {
        if list.len() > 0 {
            assert(storable(list[list.len() - 1]));
            lemma_join_nonempty(list, seq!['\n']);
        }
        lemma_trim_empty();
        assert(split(Seq::<char>::empty(), '\n').map_values(trimmed()) =~= seq![
            Seq::<char>::empty(),
        ]);
        Seq::<Seq<char>>::empty().lemma_filter_push(Seq::<char>::empty(), is_nonempty());
        assert(seq![Seq::<char>::empty()] =~= Seq::<Seq<char>>::empty().push(Seq::<char>::empty()));
        reveal(Seq::filter);
        assert(list =~= Seq::<Seq<char>>::empty());
    } else {
        law_saved_text_reads_back(list);
    }
}

/// Every location read from a file is storable: not empty, on one line,
/// trimmed.
pub proof fn law_loaded_are_storable(content: Seq<char>)
    ensures
        forall|i: int|
            0 <= i < parsed_locations(content).len() ==> storable(
                #[trigger] parsed_locations(content)[i],
            ),
{
    broadcast use vstd::seq_lib::group_filter_ensures;

    let pieces = split(content, '\n');
    let m = pieces.map_values(trimmed());
    lemma_split_pieces_lack_sep(content, '\n');
    assert forall|i: int| 0 <= i < parsed_locations(content).len() implies storable(
        #[trigger] parsed_locations(content)[i],
    ) by {
        let x = parsed_locations(content)[i];
        assert(parsed_locations(content).contains(x));
        m.lemma_filter_contains_rev(is_nonempty(), x);
        let k = choose|k: int| 0 <= k < m.len() && m[k] == x;
        let piece = pieces[k];
        assert(x == trim(piece));
        lemma_trim_idempotent(piece);
        lemma_trim_is_infix(piece);
        let (a, b) = choose|a: int, b: int|
            0 <= a <= b <= piece.len() && trim(piece) == piece.subrange(a, b);
        assert(!x.contains('\n')) by {
            if x.contains('\n') {
                let q = choose|q: int| 0 <= q < x.len() && x[q] == '\n';
                assert(piece[a + q] == '\n');
                assert(piece.contains('\n'));
            }
        }
    }
}

/// After a save the saved location comes first, appears once, and at
/// most `MAX_LOCATIONS` locations are kept.
pub proof fn law_saved_location_first(list: Seq<Seq<char>>, location: Seq<char>)
    ensures
        saved_list(list, location).len() >= 1,
        saved_list(list, location)[0] == location,
        saved_list(list, location).len() <= MAX_LOCATIONS,
        forall|i: int|
            0 < i < saved_list(list, location).len() ==> #[trigger] saved_list(list, location)[i]
                != location,
{
    broadcast use vstd::seq_lib::group_filter_ensures;

    let f = list.filter(differs_from(location));
    let s = seq![location] + f;
    assert forall|i: int| 0 < i < saved_list(list, location).len() implies #[trigger] saved_list(
        list,
        location,
    )[i] != location by {
        assert(saved_list(list, location)[i] == f[i - 1]);
        assert(differs_from(location)(f[i - 1]));
    }
}

/// A save keeps the list free of duplicates.
pub proof fn law_save_keeps_no_duplicates(list: Seq<Seq<char>>, location: Seq<char>)
    requires
        list.no_duplicates(),
    ensures
        saved_list(list, location).no_duplicates(),
{
    broadcast use vstd::seq_lib::group_filter_ensures;

    let f = list.filter(differs_from(location));
    lemma_filter_no_duplicates(list, differs_from(location));
    let s = seq![location] + f;
    assert(s.no_duplicates()) by {
        assert forall|i: int, j: int| 0 <= i < s.len() && 0 <= j < s.len() && i != j implies s[i]
            != s[j] by {
            if i == 0 {
                assert(differs_from(location)(f[j - 1]));
            } else if j == 0 {
                assert(differs_from(location)(f[i - 1]));
            } else {
                assert(s[i] == f[i - 1] && s[j] == f[j - 1]);
            }
        }
    }
    let r = saved_list(list, location);
    assert forall|i: int, j: int| 0 <= i < r.len() && 0 <= j < r.len() && i != j implies r[i]
        != r[j] by {
        assert(r[i] == s[i] && r[j] == s[j]);
    }
}

/// Saving a storable location into a list of storable locations leaves
/// only storable locations.
pub proof fn law_save_keeps_storable(list: Seq<Seq<char>>, location: Seq<char>)
    requires
        storable(location),
        forall|i: int| 0 <= i < list.len() ==> storable(#[trigger] list[i]),
    ensures
        forall|i: int|
            0 <= i < saved_list(list, location).len() ==> storable(
                #[trigger] saved_list(list, location)[i],
            ),
{
    broadcast use vstd::seq_lib::group_filter_ensures;

    let f = list.filter(differs_from(location));
    assert forall|i: int| 0 <= i < saved_list(list, location).len() implies storable(
        #[trigger] saved_list(list, location)[i],
    ) by {
        if i > 0 {
            let x = f[i - 1];
            assert(f.contains(x));
            list.lemma_filter_contains_rev(differs_from(location), x);
        }
    }
}

/// After a removal the location is no longer in the list.
pub proof fn law_removed_is_gone(list: Seq<Seq<char>>, location: Seq<char>)
    ensures
        !removed_list(list, location).contains(location),
{
    broadcast use vstd::seq_lib::group_filter_ensures;

    let r = removed_list(list, location);
    if r.contains(location) {
        let k = choose|k: int| 0 <= k < r.len() && r[k] == location;
        assert(differs_from(location)(r[k]));
    }
}

} // verus!
