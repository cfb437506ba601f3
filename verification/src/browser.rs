//! The wallpaper browser: which wallpaper is shown, which are selected,
//! what a key press does, and the text around the preview.
use vstd::prelude::*;
use crate::sources::{Wallpaper, WallpaperView, wallpaper_views};
use crate::text::{decimal, owned, push_decimal, push_str};

verus! {

/// A key the browser reacts to.
#[derive(Debug, Clone, Copy, PartialEq, Eq, Structural)]
pub enum Key {
    Left,
    Right,
    Enter,
    Esc,
    Char(char),
    Other,
}

/// What the program does after a key press in the browser.
#[derive(Debug, Clone, Copy, PartialEq, Eq, Structural)]
pub enum KeyOutcome {
    /// Nothing beyond redrawing.
    Redraw,
    /// Download the selected wallpapers, or the shown one when none is
    /// selected.
    DownloadSelected,
    /// Download the shown wallpaper.
    DownloadCurrent,
    /// Download the shown wallpaper and make it the desktop background.
    SetWallpaper,
    /// Leave the browser.
    Quit,
}

/// What the program does after a key press in the random view.
#[derive(Debug, Clone, Copy, PartialEq, Eq, Structural)]
pub enum RandomAction {
    /// Fetch another random wallpaper.
    NextRandom,
    /// Download the shown wallpaper.
    Download,
    /// Download the shown wallpaper and make it the desktop background.
    SetWallpaper,
    /// Leave the random view.
    Quit,
    /// Nothing.
    Ignore,
}

/// The state of the browser.
pub struct AppView {
    pub wallpapers: Seq<WallpaperView>,
    pub current: nat,
    pub selected: Seq<bool>,
    pub directory: Seq<char>,
}

/// How many wallpapers are selected.
pub open spec fn count_selected(sel: Seq<bool>) -> nat
    decreases sel.len(),
{
    if sel.len() == 0 {
        0
    } else {
        count_selected(sel.drop_last()) + if sel.last() {
            1nat
        } else {
            0nat
        }
    }
}

/// The selected wallpapers, in order.
pub open spec fn selected_of(ws: Seq<WallpaperView>, sel: Seq<bool>) -> Seq<WallpaperView>
    decreases sel.len(),
{
    if sel.len() == 0 || ws.len() == 0 {
        Seq::empty()
    } else {
        let before = selected_of(ws.drop_last(), sel.drop_last());
        if sel.last() {
            before.push(ws.last())
        } else {
            before
        }
    }
}

/// The position after moving right: the next one, wrapping around.
pub open spec fn next_index(current: nat, len: nat) -> nat {
    if len == 0 {
        current
    } else {
        (current + 1) % len
    }
}

/// The position after moving left: the previous one, wrapping around.
pub open spec fn previous_index(current: nat, len: nat) -> nat {
    if len == 0 {
        current
    } else if current == 0 {
        (len - 1) as nat
    } else {
        (current - 1) as nat
    }
}

/// The selection with the mark at `current` flipped.
pub open spec fn toggled(sel: Seq<bool>, current: nat) -> Seq<bool> {
    if current < sel.len() {
        sel.update(current as int, !sel[current as int])
    } else {
        sel
    }
}

/// What a download takes: the selected wallpapers, or the shown one when
/// none is selected.
pub open spec fn targets_of(v: AppView) -> Seq<WallpaperView> {
    if count_selected(v.selected) == 0 {
        if v.current < v.wallpapers.len() {
            seq![v.wallpapers[v.current as int]]
        } else {
            Seq::empty()
        }
    } else {
        selected_of(v.wallpapers, v.selected)
    }
}

/// The browser after a key press, and what the program does next.
pub open spec fn key_step(v: AppView, key: Key) -> (AppView, KeyOutcome) {
    match key {
        Key::Left | Key::Char('a') => (
            AppView { current: previous_index(v.current, v.wallpapers.len()), ..v },
            KeyOutcome::Redraw,
        ),
        Key::Right => (
            AppView { current: next_index(v.current, v.wallpapers.len()), ..v },
            KeyOutcome::Redraw,
        ),
        Key::Char(' ') => (AppView { selected: toggled(v.selected, v.current), ..v }, KeyOutcome::Redraw),
        Key::Enter => (v, KeyOutcome::DownloadSelected),
        Key::Char('D') | Key::Char('d') => (v, KeyOutcome::DownloadCurrent),
        Key::Char('S') | Key::Char('s') => (v, KeyOutcome::SetWallpaper),
        Key::Char('q') | Key::Char('Q') | Key::Esc => (v, KeyOutcome::Quit),
        _ => (v, KeyOutcome::Redraw),
    }
}

/// What a key press in the random view asks for.
pub open spec fn random_step(key: Key) -> RandomAction {
    match key {
        Key::Char('n') | Key::Char('N') | Key::Right => RandomAction::NextRandom,
        Key::Enter | Key::Char('d') | Key::Char('D') => RandomAction::Download,
        Key::Char('s') | Key::Char('S') => RandomAction::SetWallpaper,
        Key::Char('q') | Key::Char('Q') | Key::Esc => RandomAction::Quit,
        _ => RandomAction::Ignore,
    }
}

/// The position shown in the header: `CURRENT / COUNT`, counted from 1.
pub open spec fn position_of(v: AppView) -> Seq<char> {
    if v.wallpapers.len() == 0 {
        "0 / 0"@
    } else {
        decimal(v.current + 1) + " / "@ + decimal(v.wallpapers.len())
    }
}

/// The header line of the browser.
pub open spec fn header_of(v: AppView) -> Seq<char> {
    " WALLY  •  Wallhaven                         "@ + position_of(v) + " "@
}

/// The line describing a wallpaper: id, size and media type.
pub open spec fn description_of(w: WallpaperView) -> Seq<char> {
    " ID: "@ + w.id + "    "@ + decimal(w.dimension_x as nat) + " × "@ + decimal(
        w.dimension_y as nat,
    ) + "    "@ + w.file_type
}

/// The controls text of the browser.
pub open spec fn footer_of(v: AppView) -> Seq<char> {
    if v.current < v.wallpapers.len() {
        description_of(v.wallpapers[v.current as int]) + "\nStatus: "@ + (if v.selected[v.current as int] {
            "✓ SELECTED"@
        } else {
            "Not selected"@
        }) + "    Selected: "@ + decimal(count_selected(v.selected))
            + "\n\n← → Navigate    SPACE Select    ENTER Download    D Download current    S Set wallpaper    Q Quit"@
    } else {
        "No wallpapers found."@
    }
}

/// The controls text of the random view.
pub open spec fn random_footer_of(w: Option<WallpaperView>) -> Seq<char> {
    match w {
        Some(w) => description_of(w)
            + "\n\nN / → Next random    ENTER Download    D Download    S Set wallpaper    Q Quit"@,
        None => "No wallpaper found."@,
    }
}

/// The browser: the wallpapers found, the one shown, the selected ones,
/// and the directory downloads go to.
pub struct App {
    wallpapers: Vec<Wallpaper>,
    current: usize,
    selected: Vec<bool>,
    directory: String,
}

impl View for App {
    type V = AppView;

    closed spec fn view(&self) -> AppView {
        AppView {
            wallpapers: wallpaper_views(self.wallpapers@),
            current: self.current as nat,
            selected: self.selected@,
            directory: self.directory@,
        }
    }
}

/// The state holds together: one mark per wallpaper, and the shown
/// wallpaper exists (position 0 when there is none).
pub open spec fn app_wf(v: AppView) -> bool {
    &&& v.selected.len() == v.wallpapers.len()
    &&& v.wallpapers.len() > 0 ==> v.current < v.wallpapers.len()
    &&& v.wallpapers.len() == 0 ==> v.current == 0
}

/// The number of marks counted is at most the number of marks.
proof fn lemma_count_selected_bound(sel: Seq<bool>)
    ensures
        count_selected(sel) <= sel.len(),
    decreases sel.len(),
{
    if sel.len() > 0 {
        lemma_count_selected_bound(sel.drop_last());
    }
}

/// The description of `w`.
fn describe(w: &Wallpaper) -> (res: String)
    ensures
        res@ == description_of(w@),
{
    let mut s = owned(" ID: ");
    push_str(&mut s, w.id.as_str());
    push_str(&mut s, "    ");
    push_decimal(&mut s, w.dimension_x as u64);
    push_str(&mut s, " × ");
    push_decimal(&mut s, w.dimension_y as u64);
    push_str(&mut s, "    ");
    push_str(&mut s, w.file_type.as_str());
    assert(s@ =~= description_of(w@));
    s
}

impl App {
    /// The browser over `wallpapers`, showing the first, none selected.
    pub fn new(wallpapers: Vec<Wallpaper>, directory: String) -> (res: Self)
        ensures
            app_wf(res@),
            res@ == (AppView {
                wallpapers: wallpaper_views(wallpapers@),
                current: 0,
                selected: Seq::new(wallpapers@.len(), |i: int| false),
                directory: directory@,
            }),
    {
        let n = wallpapers.len();
        let mut selected: Vec<bool> = Vec::new();
        let mut i: usize = 0;
        while i < n
            invariant
                i <= n,
                selected@ == Seq::new(i as nat, |k: int| false),
            decreases n - i,
        {
            selected.push(false);
            assert(selected@ =~= Seq::new((i + 1) as nat, |k: int| false));
            i = i + 1;
        }
        App { wallpapers, current: 0, selected, directory }
    }

    /// Shows the next wallpaper, wrapping around after the last.
    pub fn next(&mut self)
        requires
            app_wf(old(self)@),
        ensures
            app_wf(final(self)@),
            final(self)@ == (AppView {
                current: next_index(old(self)@.current, old(self)@.wallpapers.len()),
                ..old(self)@
            }),
    {
        if self.wallpapers.len() == 0 {
            return;
        }
        self.current = (self.current + 1) % self.wallpapers.len();
    }

    /// Shows the previous wallpaper, wrapping around before the first.
    pub fn previous(&mut self)
        requires
            app_wf(old(self)@),
        ensures
            app_wf(final(self)@),
            final(self)@ == (AppView {
                current: previous_index(old(self)@.current, old(self)@.wallpapers.len()),
                ..old(self)@
            }),
    {
        if self.wallpapers.len() == 0 {
            return;
        }
        if self.current == 0 {
            self.current = self.wallpapers.len() - 1;
        } else {
            self.current = self.current - 1;
        }
    }

    /// Selects the shown wallpaper, or unselects it if it was selected.
    pub fn toggle_selected(&mut self)
        requires
            app_wf(old(self)@),
        ensures
            app_wf(final(self)@),
            final(self)@ == (AppView {
                selected: toggled(old(self)@.selected, old(self)@.current),
                ..old(self)@
            }),
    {
        if self.current < self.selected.len() {
            let value = self.selected[self.current];
            let c = self.current;
            self.selected.set(c, !value);
        }
    }

    /// How many wallpapers are selected.
    pub fn selected_count(&self) -> (res: usize)
        requires
            app_wf(self@),
        ensures
            res == count_selected(self@.selected),
    {
        let mut count: usize = 0;
        let mut i: usize = 0;
        while i < self.selected.len()
            invariant
                i <= self.selected@.len(),
                count == count_selected(self.selected@.take(i as int)),
                count <= i,
            decreases self.selected@.len() - i,
        {
            assert(self.selected@.take(i + 1).drop_last() =~= self.selected@.take(i as int));
            if self.selected[i] {
                count = count + 1;
            }
            i = i + 1;
        }
        assert(self.selected@.take(self.selected@.len() as int) =~= self.selected@);
        count
    }

    /// The wallpaper shown, if there is one.
    pub fn current_wallpaper(&self) -> (res: Option<&Wallpaper>)
        requires
            app_wf(self@),
        ensures
            match res {
                Some(w) => self@.current < self@.wallpapers.len() && w@
                    == self@.wallpapers[self@.current as int],
                None => self@.wallpapers.len() == 0,
            },
    {
        if self.current < self.wallpapers.len() {
            Some(&self.wallpapers[self.current])
        } else {
            None
        }
    }

    /// The wallpapers a download takes: the selected ones in order, or
    /// the shown one when none is selected.
    pub fn download_targets(&self) -> (res: Vec<&Wallpaper>)
        requires
            app_wf(self@),
        ensures
            res@.map_values(|w: &Wallpaper| w@) == targets_of(self@),
    {
        let mut res: Vec<&Wallpaper> = Vec::new();
        if self.selected_count() == 0 {
            match self.current_wallpaper() {
                Some(w) => res.push(w),
                None => {},
            }
            assert(res@.map_values(|w: &Wallpaper| w@) =~= targets_of(self@));
            return res;
        }
        let ghost ws = wallpaper_views(self.wallpapers@);
        let mut i: usize = 0;
        while i < self.wallpapers.len()
            invariant
                i <= self.wallpapers@.len() == self.selected@.len(),
                ws == wallpaper_views(self.wallpapers@),
                res@.map_values(|w: &Wallpaper| w@) == selected_of(
                    ws.take(i as int),
                    self.selected@.take(i as int),
                ),
            decreases self.wallpapers@.len() - i,
        {
            assert(ws.take(i + 1).drop_last() =~= ws.take(i as int));
            assert(self.selected@.take(i + 1).drop_last() =~= self.selected@.take(i as int));
            let ghost before = res@;
            if self.selected[i] {
                res.push(&self.wallpapers[i]);
                assert(res@.map_values(|w: &Wallpaper| w@) =~= before.map_values(
                    |w: &Wallpaper| w@,
                ).push(ws[i as int]));
            }
            i = i + 1;
        }
        assert(ws.take(self.wallpapers.len() as int) =~= ws);
        assert(self.selected@.take(self.selected@.len() as int) =~= self.selected@);
        res
    }

    /// The directory downloads go to.
    pub fn directory(&self) -> (res: &str)
        ensures
            res@ == self@.directory,
    {
        self.directory.as_str()
    }

    /// The position of the shown wallpaper, counted from 0.
    pub fn current(&self) -> (res: usize)
        ensures
            res == self@.current,
    {
        self.current
    }

    /// How many wallpapers there are.
    pub fn len(&self) -> (res: usize)
        ensures
            res == self@.wallpapers.len(),
    {
        self.wallpapers.len()
    }

    /// Acts on a key press and says what the program does next.
    pub fn handle_key(&mut self, key: Key) -> (res: KeyOutcome)
        requires
            app_wf(old(self)@),
        ensures
            app_wf(final(self)@),
            (final(self)@, res) == key_step(old(self)@, key),
    {
        match key {
            Key::Left | Key::Char('a') => {
                self.previous();
                KeyOutcome::Redraw
            },
            Key::Right => {
                self.next();
                KeyOutcome::Redraw
            },
            Key::Char(' ') => {
                self.toggle_selected();
                KeyOutcome::Redraw
            },
            Key::Enter => KeyOutcome::DownloadSelected,
            Key::Char('D') | Key::Char('d') => KeyOutcome::DownloadCurrent,
            Key::Char('S') | Key::Char('s') => KeyOutcome::SetWallpaper,
            Key::Char('q') | Key::Char('Q') | Key::Esc => KeyOutcome::Quit,
            _ => KeyOutcome::Redraw,
        }
    }

    /// The header line.
    pub fn header_text(&self) -> (res: String)
        requires
            app_wf(self@),
        ensures
            res@ == header_of(self@),
    {
        let mut s = owned(" WALLY  •  Wallhaven                         ");
        let ghost head = s@;
        if self.wallpapers.len() == 0 {
            push_str(&mut s, "0 / 0");
        } else {
            push_decimal(&mut s, self.current as u64 + 1);
            push_str(&mut s, " / ");
            push_decimal(&mut s, self.wallpapers.len() as u64);
        }
        assert(s@ =~= head + position_of(self@));
        push_str(&mut s, " ");
        s
    }

    /// The controls text.
    pub fn footer_text(&self) -> (res: String)
        requires
            app_wf(self@),
        ensures
            res@ == footer_of(self@),
    {
        if self.current >= self.wallpapers.len() {
            return owned("No wallpapers found.");
        }
        let w = &self.wallpapers[self.current];
        let mut s = describe(w);
        let ghost d = s@;
        push_str(&mut s, "\nStatus: ");
        if self.selected[self.current] {
            push_str(&mut s, "✓ SELECTED");
        } else {
            push_str(&mut s, "Not selected");
        }
        push_str(&mut s, "    Selected: ");
        let count = self.selected_count();
        push_decimal(&mut s, count as u64);
        push_str(
            &mut s,
            "\n\n← → Navigate    SPACE Select    ENTER Download    D Download current    S Set wallpaper    Q Quit",
        );
        assert(s@ =~= footer_of(self@));
        s
    }
}

/// What a key press in the random view asks for.
pub fn random_key_action(key: Key) -> (res: RandomAction)
    ensures
        res == random_step(key),
{
    match key {
        Key::Char('n') | Key::Char('N') | Key::Right => RandomAction::NextRandom,
        Key::Enter | Key::Char('d') | Key::Char('D') => RandomAction::Download,
        Key::Char('s') | Key::Char('S') => RandomAction::SetWallpaper,
        Key::Char('q') | Key::Char('Q') | Key::Esc => RandomAction::Quit,
        _ => RandomAction::Ignore,
    }
}

/// The controls text of the random view for the wallpaper shown.
pub fn random_footer_text(wallpaper: Option<&Wallpaper>) -> (res: String)
    ensures
        res@ == random_footer_of(
            match wallpaper {
                Some(w) => Some(w@),
                None => None,
            },
        ),
{
    match wallpaper {
        Some(w) => {
            let mut s = describe(w);
            push_str(
                &mut s,
                "\n\nN / → Next random    ENTER Download    D Download    S Set wallpaper    Q Quit",
            );
            s
        },
        None => owned("No wallpaper found."),
    }
}

// ───────────────────────── laws ─────────────────────────

/// Moving right, then left, shows the same wallpaper again.
pub proof fn law_previous_undoes_next(current: nat, len: nat)
    requires
        current < len,
    ensures
        previous_index(next_index(current, len), len) == current,
{
    if current + 1 == len {
        assert((current + 1) % len == 0) by (nonlinear_arith)
            requires
                current + 1 == len,
                len > 0,
        ;
    } else {
        assert((current + 1) % len == current + 1) by (nonlinear_arith)
            requires
                current + 1 < len,
        ;
    }
}

/// Moving left, then right, shows the same wallpaper again.
pub proof fn law_next_undoes_previous(current: nat, len: nat)
    requires
        current < len,
    ensures
        next_index(previous_index(current, len), len) == current,
{
    if current == 0 {
        assert((((len - 1) as nat) + 1) % len == 0) by (nonlinear_arith)
            requires
                len > 0,
        ;
    } else {
        assert(current % len == current) by (nonlinear_arith)
            requires
                0 < current < len,
        ;
    }
}

/// Moving keeps the shown position inside the list.
pub proof fn law_moves_stay_inside(current: nat, len: nat)
    requires
        current < len,
    ensures
        next_index(current, len) < len,
        previous_index(current, len) < len,
{
    assert((current + 1) % len < len) by (nonlinear_arith)
        requires
            len > 0,
    ;
}

/// Selecting twice leaves the selection as it was.
pub proof fn law_toggle_twice_is_identity(sel: Seq<bool>, current: nat)
    ensures
        toggled(toggled(sel, current), current) == sel,
{
    if current < sel.len() {
        assert(toggled(toggled(sel, current), current) =~= sel);
    }
}

/// A download of a non-empty list always takes something.
pub proof fn law_targets_nonempty(v: AppView)
    requires
        app_wf(v),
        v.wallpapers.len() > 0,
    ensures
        targets_of(v).len() > 0,
{
    if count_selected(v.selected) > 0 {
        lemma_selected_of_len(v.wallpapers, v.selected);
    }
}

/// There are as many selected wallpapers as marks set.
proof fn lemma_selected_of_len(ws: Seq<WallpaperView>, sel: Seq<bool>)
    requires
        ws.len() == sel.len(),
    ensures
        selected_of(ws, sel).len() == count_selected(sel),
    decreases sel.len(),
{
    if sel.len() > 0 {
        lemma_selected_of_len(ws.drop_last(), sel.drop_last());
    }
}

/// Every key keeps the browser state whole.
pub proof fn law_key_keeps_wf(v: AppView, key: Key)
    requires
        app_wf(v),
    ensures
        app_wf(key_step(v, key).0),
{
    if v.wallpapers.len() > 0 {
        law_moves_stay_inside(v.current, v.wallpapers.len());
    }
}


/// `t` is made of wallpapers of `ws` picked at the increasing positions
/// `idx`, each of them marked in `sel`.
pub open spec fn picked_in_order(
    t: Seq<WallpaperView>,
    ws: Seq<WallpaperView>,
    sel: Seq<bool>,
    idx: Seq<int>,
) -> bool {
    &&& idx.len() == t.len()
    &&& forall|k: int|
        0 <= k < idx.len() ==> 0 <= #[trigger] idx[k] < ws.len() && idx[k] < sel.len() && sel[idx[k]]
            && t[k] == ws[idx[k]]
    &&& forall|j: int, k: int| 0 <= j < k < idx.len() ==> #[trigger] idx[j] < #[trigger] idx[k]
}

/// The selected wallpapers are those of `ws` at the marked positions, in
/// order.
proof fn lemma_selected_of_positions(ws: Seq<WallpaperView>, sel: Seq<bool>) -> (idx: Seq<int>)
    requires
        ws.len() == sel.len(),
    ensures
        picked_in_order(selected_of(ws, sel), ws, sel, idx),
        forall|k: int| 0 <= k < idx.len() ==> #[trigger] idx[k] < sel.len(),
    decreases sel.len(),
{
    if sel.len() == 0 {
        Seq::empty()
    } else {
        let prev = lemma_selected_of_positions(ws.drop_last(), sel.drop_last());
        let before = selected_of(ws.drop_last(), sel.drop_last());
        if sel.last() {
            let idx = prev.push(sel.len() - 1);
            assert forall|k: int| 0 <= k < idx.len() implies 0 <= #[trigger] idx[k] < ws.len()
                && idx[k] < sel.len() && sel[idx[k]] && selected_of(ws, sel)[k] == ws[idx[k]] by {
                if k < prev.len() {
                    assert(prev[k] < sel.len() - 1);
                    assert(sel.drop_last()[prev[k]] == sel[prev[k]]);
                    assert(ws.drop_last()[prev[k]] == ws[prev[k]]);
                    assert(before[k] == ws.drop_last()[prev[k]]);
                }
            }
            assert forall|j: int, k: int| 0 <= j < k < idx.len() implies #[trigger] idx[j]
                < #[trigger] idx[k] by {
                if k < prev.len() {
                    assert(prev[j] < prev[k]);
                } else {
                    assert(prev[j] < sel.len() - 1);
                }
            }
            idx
        } else {
            assert forall|k: int| 0 <= k < prev.len() implies 0 <= #[trigger] prev[k] < ws.len()
                && prev[k] < sel.len() && sel[prev[k]] && selected_of(ws, sel)[k] == ws[prev[k]] by {
                assert(sel.drop_last()[prev[k]] == sel[prev[k]]);
                assert(ws.drop_last()[prev[k]] == ws[prev[k]]);
            }
            prev
        }
    }
}

/// When some wallpapers are selected, a download takes exactly those, in
/// list order: as many as are selected, each of them selected, none
/// twice, and the shown one only if it is selected; when none is
/// selected, it takes the shown wallpaper.
pub proof fn law_download_takes_the_selection(v: AppView)
    requires
        app_wf(v),
    ensures
        count_selected(v.selected) > 0 ==> targets_of(v).len() == count_selected(v.selected),
        count_selected(v.selected) > 0 ==> exists|idx: Seq<int>|
            picked_in_order(targets_of(v), v.wallpapers, v.selected, idx),
        count_selected(v.selected) == 0 && v.wallpapers.len() > 0 ==> targets_of(v) == seq![
            v.wallpapers[v.current as int],
        ],
{
    if count_selected(v.selected) > 0 {
        lemma_selected_of_len(v.wallpapers, v.selected);
        let idx = lemma_selected_of_positions(v.wallpapers, v.selected);
        assert(picked_in_order(targets_of(v), v.wallpapers, v.selected, idx));
    }
}

/// In the random view a lower-case letter does what its capital does,
/// and the keys named in its footer do what the footer says: N and →
/// fetch another wallpaper, ENTER and D download, S sets the wallpaper,
/// Q and Esc quit; ← does nothing.
pub proof fn law_random_keys(c: char)
    ensures
        'a' <= c <= 'z' ==> random_step(Key::Char(c)) == random_step(
            Key::Char(((c as int) - 32) as char),
        ),
        random_step(Key::Char('n')) == RandomAction::NextRandom,
        random_step(Key::Right) == RandomAction::NextRandom,
        random_step(Key::Enter) == RandomAction::Download,
        random_step(Key::Char('d')) == RandomAction::Download,
        random_step(Key::Char('s')) == RandomAction::SetWallpaper,
        random_step(Key::Char('q')) == RandomAction::Quit,
        random_step(Key::Esc) == RandomAction::Quit,
        random_step(Key::Left) == RandomAction::Ignore,
{
}


/// In the browser → shows the next wallpaper and ← or `a` the previous
/// one, wrapping around at the ends; SPACE flips the mark of the shown
/// wallpaper and no other; ENTER downloads the selection, D the shown
/// wallpaper, S sets it as background, and Q or Esc quits, in either
/// case of the letter, without changing what is shown or selected.
pub proof fn law_browser_keys(v: AppView)
    requires
        app_wf(v),
        v.wallpapers.len() > 0,
    ensures
        key_step(v, Key::Right).0.current == if v.current + 1 == v.wallpapers.len() {
            0
        } else {
            v.current + 1
        },
        key_step(v, Key::Left).0.current == if v.current == 0 {
            (v.wallpapers.len() - 1) as nat
        } else {
            (v.current - 1) as nat
        },
        key_step(v, Key::Char('a')).0.current == key_step(v, Key::Left).0.current,
        key_step(v, Key::Char(' ')).0.selected[v.current as int] == !v.selected[v.current as int],
        forall|i: int|
            0 <= i < v.selected.len() && i != v.current ==> #[trigger] key_step(
                v,
                Key::Char(' '),
            ).0.selected[i] == v.selected[i],
        key_step(v, Key::Char(' ')).0.selected.len() == v.selected.len(),
        key_step(v, Key::Enter) == (v, KeyOutcome::DownloadSelected),
        key_step(v, Key::Char('d')) == (v, KeyOutcome::DownloadCurrent),
        key_step(v, Key::Char('D')) == (v, KeyOutcome::DownloadCurrent),
        key_step(v, Key::Char('s')) == (v, KeyOutcome::SetWallpaper),
        key_step(v, Key::Char('S')) == (v, KeyOutcome::SetWallpaper),
        key_step(v, Key::Char('q')) == (v, KeyOutcome::Quit),
        key_step(v, Key::Char('Q')) == (v, KeyOutcome::Quit),
        key_step(v, Key::Esc) == (v, KeyOutcome::Quit),
{
    let n = v.wallpapers.len();
    let c = v.current;
    if c + 1 < n {
        assert((c + 1) % n == c + 1) by (nonlinear_arith)
            requires
                c + 1 < n,
        ;
    } else {
        assert((c + 1) % n == 0) by (nonlinear_arith)
            requires
                c + 1 == n,
                n > 0,
        ;
    }
}

} // verus!
