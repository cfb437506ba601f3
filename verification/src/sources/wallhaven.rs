//! Wallhaven: the parameters of a page request, when a failed request is
//! tried again, and the search that collects new wallpapers page after
//! page.
use vstd::prelude::*;
use crate::cli::{Rating, Resolution, WallyConfig};
use crate::history::{contains, has_item, records, HistoryEntry, HistoryRecord};
use crate::sources::{SearchError, Thumbnails, Wallpaper, WallpaperView, wallpaper_views};
use crate::sources::konachan::{nonempty_tag, pair_views, trimmed_tag};
use crate::text::{
    chars_of, decimal, join, join_strings, owned, push_decimal, push_str, split, split_chars,
    string_of, string_views, trim, trim_chars, trim_str, views,
};

verus! {

/// The address of Wallhaven's search.
pub const API_URL: &'static str = "https://wallhaven.cc/api/v1/search";

/// How many times one page is asked for before the search gives up.
pub const MAX_RETRIES: u32 = 5;

/// One wallpaper as Wallhaven's search returns it.
#[derive(Debug, Clone, PartialEq)]
pub struct WallhavenWallpaper {
    pub id: String,
    pub url: String,
    pub purity: String,
    pub category: String,
    pub dimension_x: u32,
    pub dimension_y: u32,
    pub resolution: String,
    pub path: String,
    pub file_type: String,
    pub thumbs: Thumbnails,
}

impl View for WallhavenWallpaper {
    type V = WallpaperView;

    open spec fn view(&self) -> WallpaperView {
        WallpaperView {
            id: self.id@,
            url: self.url@,
            purity: self.purity@,
            category: self.category@,
            dimension_x: self.dimension_x,
            dimension_y: self.dimension_y,
            resolution: self.resolution@,
            path: self.path@,
            file_type: self.file_type@,
            thumbs: self.thumbs@,
        }
    }
}

/// Paging information of a search answer.
#[derive(Debug, Clone, Copy, PartialEq, Eq, Structural)]
pub struct Meta {
    pub current_page: u32,
    pub last_page: u32,
    pub total: u32,
}

/// One page of Wallhaven's search answer.
#[derive(Debug, Clone, PartialEq)]
pub struct WallhavenApiResponse {
    pub data: Vec<WallhavenWallpaper>,
    pub meta: Meta,
}

/// What a Wallhaven search gives: the new wallpapers found, the page it
/// stopped at and the last page, and how many were found.
#[derive(Debug, Clone, PartialEq)]
pub struct WallhavenResponse {
    pub data: Vec<Wallpaper>,
    pub meta: Meta,
}

/// The texts of a page of Wallhaven wallpapers.
pub open spec fn api_views(ws: Seq<WallhavenWallpaper>) -> Seq<WallpaperView> {
    ws.map_values(|w: WallhavenWallpaper| w@)
}

/// The wallpaper in the common shape.
pub fn convert_wallpaper(wallpaper: WallhavenWallpaper) -> (res: Wallpaper)
    ensures
        res@ == wallpaper@,
{
    Wallpaper {
        id: wallpaper.id,
        url: wallpaper.url,
        purity: wallpaper.purity,
        category: wallpaper.category,
        dimension_x: wallpaper.dimension_x,
        dimension_y: wallpaper.dimension_y,
        resolution: wallpaper.resolution,
        path: wallpaper.path,
        file_type: wallpaper.file_type,
        thumbs: wallpaper.thumbs,
    }
}

// ───────────────────────── the page request ─────────────────────────

/// The user's comma-separated tags, trimmed, empty ones left out, joined
/// with `+`.
pub open spec fn query_tags(tags: Seq<char>) -> Seq<char> {
    join(split(tags, ',').map_values(trimmed_tag()).filter(nonempty_tag()), "+"@)
}

/// The purity code of a rating: which of general, sketchy and adult
/// content is shown.
pub open spec fn purity_code(r: Rating) -> Seq<char> {
    match r {
        Rating::Sfw => "100"@,
        Rating::Sketchy => "110"@,
        Rating::Nsfw => "111"@,
    }
}

/// The parameter that selects a resolution.
pub open spec fn resolution_param(r: Resolution) -> (Seq<char>, Seq<char>) {
    match r {
        Resolution::Exact(w, h) => ("resolutions"@, decimal(w as nat) + "x"@ + decimal(h as nat)),
        Resolution::Minimum(w, h) => ("atleast"@, decimal(w as nat) + "x"@ + decimal(h as nat)),
        Resolution::Ratio(w, h) => ("ratios"@, decimal(w as nat) + "x"@ + decimal(h as nat)),
    }
}

/// The parameters of the request for `page`: the tags when any were
/// given, purity, all categories, resolution, random sorting, the page,
/// and the API key when there is one.
pub open spec fn query_params_text(
    tags: Seq<char>,
    rating: Rating,
    resolution: Resolution,
    page: u32,
    api_key: Option<Seq<char>>,
) -> Seq<(Seq<char>, Seq<char>)> {
    let q = if trim(tags).len() > 0 {
        seq![("q"@, query_tags(tags))]
    } else {
        Seq::empty()
    };
    let key = match api_key {
        Some(k) => seq![("apikey"@, k)],
        None => Seq::empty(),
    };
    q + seq![
        ("purity"@, purity_code(rating)),
        ("categories"@, "111"@),
        resolution_param(resolution),
        ("sorting"@, "random"@),
        ("page"@, decimal(page as nat)),
    ] + key
}

/// The user's tags joined with `+`.
fn tags_param(tags: &str) -> (res: String)
    ensures
        res@ == query_tags(tags@),
{
    let cs = chars_of(tags);
    let pieces = split_chars(&cs, ',');
    let ghost all = split(tags@, ',');
    let mut kept: Vec<String> = Vec::new();
    let mut i: usize = 0;
    while i < pieces.len()
        invariant
            i <= pieces.len(),
            views(pieces@) == all,
            string_views(kept@) == all.take(i as int).map_values(trimmed_tag()).filter(
                nonempty_tag(),
            ),
        decreases pieces.len() - i,
    {
        let tag = trim_chars(&pieces[i]);
        proof {
            let before = all.take(i as int).map_values(trimmed_tag());
            assert(all[i as int] == pieces@[i as int]@);
            assert(all.take(i + 1).map_values(trimmed_tag()) =~= before.push(tag@));
            before.lemma_filter_push(tag@, nonempty_tag());
        }
        if tag.len() > 0 {
            let s = string_of(&tag);
            let ghost old_kept = kept@;
            kept.push(s);
            assert(string_views(kept@) =~= string_views(old_kept).push(s@));
        }
        i = i + 1;
    }
    assert(all.take(pieces.len() as int) =~= all);
    join_strings(&kept, "+")
}

/// `w`, `x`, `h` as text.
fn size_text(w: u32, h: u32) -> (res: String)
    ensures
        res@ == decimal(w as nat) + "x"@ + decimal(h as nat),
{
    let mut s = String::new();
    push_decimal(&mut s, w as u64);
    push_str(&mut s, "x");
    push_decimal(&mut s, h as u64);
    assert(s@ =~= decimal(w as nat) + "x"@ + decimal(h as nat));
    s
}

/// Appends a parameter.
fn push_pair(v: &mut Vec<(String, String)>, name: String, value: String)
    ensures
        pair_views(final(v)@) == pair_views(old(v)@).push((name@, value@)),
{
    let ghost before = v@;
    v.push((name, value));
    assert(pair_views(v@) =~= pair_views(before).push((name@, value@)));
}

/// The parameters of the request for `page`; `api_key` is the user's
/// Wallhaven key, if one is set.
pub fn query_params(config: &WallyConfig, page: u32, api_key: Option<String>) -> (res: Vec<
    (String, String),
>)
    ensures
        pair_views(res@) == query_params_text(
            config.tags@,
            config.rating,
            config.resolution,
            page,
            match api_key {
                Some(k) => Some(k@),
                None => None,
            },
        ),
{
    let mut params: Vec<(String, String)> = Vec::new();
    let t = trim_str(config.tags.as_str());
    if !t.as_str().is_empty() {
        push_pair(&mut params, owned("q"), tags_param(config.tags.as_str()));
    }
    let ghost q = pair_views(params@);
    let purity = match config.rating {
        Rating::Sfw => owned("100"),
        Rating::Sketchy => owned("110"),
        Rating::Nsfw => owned("111"),
    };
    push_pair(&mut params, owned("purity"), purity);
    push_pair(&mut params, owned("categories"), owned("111"));
    match config.resolution {
        Resolution::Exact(w, h) => push_pair(&mut params, owned("resolutions"), size_text(w, h)),
        Resolution::Minimum(w, h) => push_pair(&mut params, owned("atleast"), size_text(w, h)),
        Resolution::Ratio(w, h) => push_pair(&mut params, owned("ratios"), size_text(w, h)),
    }
    push_pair(&mut params, owned("sorting"), owned("random"));
    let mut p = String::new();
    push_decimal(&mut p, page as u64);
    assert(p@ =~= decimal(page as nat));
    push_pair(&mut params, owned("page"), p);
    let ghost before_key = pair_views(params@);
    match api_key {
        Some(k) => push_pair(&mut params, owned("apikey"), k),
        None => {},
    }
    assert(pair_views(params@) =~= query_params_text(
        config.tags@,
        config.rating,
        config.resolution,
        page,
        match api_key {
            Some(k) => Some(k@),
            None => None,
        },
    ));
    params
}

// ───────────────────────── retrying a page ─────────────────────────

/// `2` to the power `n`.
pub open spec fn pow2(n: nat) -> nat
    decreases n,
{
    if n == 0 {
        1
    } else {
        2 * pow2((n - 1) as nat)
    }
}

/// Seconds to wait before trying again after attempt `attempt` failed:
/// doubling from one second, at most eight.
pub open spec fn delay_after(attempt: u32) -> nat {
    let n: nat = if attempt >= 1 {
        (attempt - 1) as nat
    } else {
        0
    };
    if pow2(n) < 8 {
        pow2(n)
    } else {
        8
    }
}

/// Powers of two from the third on are at least eight.
proof fn lemma_pow2_at_least_8(n: nat)
    requires
        n >= 3,
    ensures
        pow2(n) >= 8,
    decreases n,
{
    if n > 3 {
        lemma_pow2_at_least_8((n - 1) as nat);
    } else {
        reveal_with_fuel(pow2, 4);
    }
}

/// Seconds to wait after attempt `attempt` failed: 1, 2, 4, then 8.
pub fn retry_delay(attempt: u32) -> (secs: u64)
    requires
        attempt <= 64,
    ensures
        secs == delay_after(attempt),
{
    reveal_with_fuel(pow2, 3);
    if attempt <= 1 {
        1
    } else if attempt == 2 {
        2
    } else if attempt == 3 {
        4
    } else {
        proof {
            lemma_pow2_at_least_8((attempt - 1) as nat);
        }
        8
    }
}

/// What came of one request for a page.
#[derive(Debug, Clone, Copy, PartialEq, Eq, Structural)]
pub enum PageOutcome {
    /// No answer: the connection failed.
    ConnectionFailed,
    /// An answer with this HTTP status code.
    Responded(u16),
}

/// Why a page could not be had.
#[derive(Debug, Clone, Copy, PartialEq, Eq, Structural)]
pub enum PageFailure {
    /// The connection failed on every attempt.
    Connection,
    /// The server was unavailable (502, 503, 504) on every attempt.
    Unavailable(u16),
    /// The server answered with this error status.
    Status(u16),
}

/// What to do after a request for a page.
#[derive(Debug, Clone, Copy, PartialEq, Eq, Structural)]
pub enum PageAction {
    /// Wait this many seconds, then ask again.
    Retry(u64),
    /// Give up the search.
    Fail(PageFailure),
    /// Read the answer.
    Read,
}

/// Statuses that mean the server is unavailable for a while.
pub open spec fn is_temporary(code: u16) -> bool {
    code == 502 || code == 503 || code == 504
}

/// Statuses of success.
pub open spec fn is_success(code: u16) -> bool {
    200 <= code < 300
}

/// What to do after attempt `attempt` at a page came to `outcome`: a
/// failed connection or an unavailable server is tried again after a
/// delay until `MAX_RETRIES` attempts were made; any other error status
/// ends the search; success is read.
pub open spec fn next_action(attempt: u32, outcome: PageOutcome) -> PageAction {
    match outcome {
        PageOutcome::ConnectionFailed => if attempt >= MAX_RETRIES {
            PageAction::Fail(PageFailure::Connection)
        } else {
            PageAction::Retry(delay_after(attempt) as u64)
        },
        PageOutcome::Responded(code) => if is_temporary(code) {
            if attempt >= MAX_RETRIES {
                PageAction::Fail(PageFailure::Unavailable(code))
            } else {
                PageAction::Retry(delay_after(attempt) as u64)
            }
        } else if !is_success(code) {
            PageAction::Fail(PageFailure::Status(code))
        } else {
            PageAction::Read
        },
    }
}

/// What to do after attempt `attempt` (counted from 1) at a page came to
/// `outcome`.
pub fn page_action(attempt: u32, outcome: PageOutcome) -> (res: PageAction)
    requires
        attempt <= 64,
    ensures
        res == next_action(attempt, outcome),
{
    match outcome {
        PageOutcome::ConnectionFailed => {
            if attempt >= MAX_RETRIES {
                PageAction::Fail(PageFailure::Connection)
            } else {
                PageAction::Retry(retry_delay(attempt))
            }
        },
        PageOutcome::Responded(code) => {
            if code == 502 || code == 503 || code == 504 {
                if attempt >= MAX_RETRIES {
                    PageAction::Fail(PageFailure::Unavailable(code))
                } else {
                    PageAction::Retry(retry_delay(attempt))
                }
            } else if !(200 <= code && code < 300) {
                PageAction::Fail(PageFailure::Status(code))
            } else {
                PageAction::Read
            }
        },
    }
}

// ───────────────────────── the search ─────────────────────────

/// Where a search stands: how many wallpapers are wanted, those
/// collected, the page asked for last and the last page there is, how
/// many were skipped as already downloaded, and whether no further page
/// is to be asked for.
pub struct WallhavenSearchView {
    pub requested: nat,
    pub collected: Seq<WallpaperView>,
    pub current_page: u32,
    pub last_page: u32,
    pub skipped: nat,
    pub finished: bool,
}

/// The wallpapers of one page, in order, taken into a search: one
/// already in the history is counted as skipped; the others are
/// collected until enough are.
pub open spec fn scan_wallpapers(
    collected: Seq<WallpaperView>,
    skipped: nat,
    requested: nat,
    data: Seq<WallpaperView>,
    history: Seq<HistoryRecord>,
) -> (Seq<WallpaperView>, nat)
    decreases data.len(),
{
    if data.len() == 0 {
        (collected, skipped)
    } else {
        let w = data[0];
        let rest = data.drop_first();
        if has_item(history, w) {
            scan_wallpapers(collected, skipped + 1, requested, rest, history)
        } else if collected.len() + 1 >= requested {
            (collected.push(w), skipped)
        } else {
            scan_wallpapers(collected.push(w), skipped, requested, rest, history)
        }
    }
}

/// The search after one page: its wallpapers are taken in, its last page
/// is remembered, and the search ends on the last page or goes on to the
/// next.
pub open spec fn wallhaven_step(
    s: WallhavenSearchView,
    data: Seq<WallpaperView>,
    last_page: u32,
    history: Seq<HistoryRecord>,
) -> WallhavenSearchView {
    let (collected, skipped) = scan_wallpapers(
        s.collected,
        s.skipped,
        s.requested,
        data,
        history,
    );
    if s.current_page >= last_page {
        WallhavenSearchView {
            requested: s.requested,
            collected,
            current_page: s.current_page,
            last_page,
            skipped,
            finished: true,
        }
    } else {
        WallhavenSearchView {
            requested: s.requested,
            collected,
            current_page: (s.current_page + 1) as u32,
            last_page,
            skipped,
            finished: false,
        }
    }
}

/// A search on Wallhaven, driven page by page by its caller.
pub struct WallhavenSearch {
    requested: usize,
    collected: Vec<Wallpaper>,
    current_page: u32,
    last_page: u32,
    skipped: usize,
    finished: bool,
}

impl View for WallhavenSearch {
    type V = WallhavenSearchView;

    closed spec fn view(&self) -> WallhavenSearchView {
        WallhavenSearchView {
            requested: self.requested as nat,
            collected: wallpaper_views(self.collected@),
            current_page: self.current_page,
            last_page: self.last_page,
            skipped: self.skipped as nat,
            finished: self.finished,
        }
    }
}

impl WallhavenSearch {
    /// The search state holds together: it never holds more than asked
    /// for, and it asks for pages from 1 on.
    pub closed spec fn wf(&self) -> bool {
        &&& self.collected@.len() <= self.requested
        &&& self.requested <= u32::MAX
        &&& self.current_page >= 1
    }

    /// The page to ask for next, if any: none once the last page was
    /// read or enough wallpapers are collected.
    pub open spec fn next_page_spec(&self) -> Option<u32> {
        if !self@.finished && self@.collected.len() < self@.requested {
            Some(self@.current_page)
        } else {
            None
        }
    }

    /// A search for `amount` new wallpapers, starting at page 1.
    pub fn new(amount: u32) -> (res: Self)
        ensures
            res.wf(),
            res@ == (WallhavenSearchView {
                requested: amount as nat,
                collected: Seq::empty(),
                current_page: 1,
                last_page: 1,
                skipped: 0,
                finished: false,
            }),
    {
        let res = WallhavenSearch {
            requested: amount as usize,
            collected: Vec::new(),
            current_page: 1,
            last_page: 1,
            skipped: 0,
            finished: false,
        };
        assert(wallpaper_views(res.collected@) =~= Seq::<WallpaperView>::empty());
        res
    }

    /// The page to ask for next, if any.
    pub fn next_page(&self) -> (res: Option<u32>)
        ensures
            res == self.next_page_spec(),
            !self@.finished && self@.collected.len() < self@.requested ==> res == Some(
                self@.current_page,
            ),
            self@.finished || self@.collected.len() >= self@.requested ==> res is None,
    {
        if !self.finished && self.collected.len() < self.requested {
            Some(self.current_page)
        } else {
            None
        }
    }

    /// How many wallpapers were passed over as already downloaded.
    pub fn skipped(&self) -> (res: usize)
        ensures
            res == self@.skipped,
    {
        self.skipped
    }

    /// Takes in the answer for the page that `next_page` asked for.
    pub fn receive_page(&mut self, response: WallhavenApiResponse, history: &Vec<HistoryEntry>)
        requires
            old(self).wf(),
            old(self).next_page_spec() is Some,
            old(self)@.skipped + response.data.len() <= usize::MAX,
        ensures
            final(self).wf(),
            final(self)@ == wallhaven_step(
                old(self)@,
                api_views(response.data@),
                response.meta.last_page,
                records(history@),
            ),
    {
        let ghost data = api_views(response.data@);
        let ghost h = records(history@);
        let ghost start = self@;
        let ghost lp = response.meta.last_page;
        let WallhavenApiResponse { data: mut remaining, meta } = response;
        self.last_page = meta.last_page;
        let n = remaining.len();
        let mut i: usize = 0;
        let ghost target = scan_wallpapers(start.collected, start.skipped, start.requested, data, h);
        assert(data.skip(0) =~= data);
        while i < n && self.collected.len() < self.requested
            invariant
                0 <= i <= n == data.len(),
                remaining@.len() == n - i,
                forall|k: int| 0 <= k < n - i ==> (#[trigger] remaining@[k])@ == data[i + k],
                self.requested == start.requested,
                self.current_page == start.current_page,
                self.finished == start.finished,
                self.last_page == lp,
                self.requested <= u32::MAX,
                self.current_page >= 1,
                self.skipped + (n - i) <= usize::MAX,
                self.collected@.len() <= self.requested,
                h == records(history@),
                target == if self.collected@.len() >= self.requested {
                    (wallpaper_views(self.collected@), self.skipped as nat)
                } else {
                    scan_wallpapers(
                        wallpaper_views(self.collected@),
                        self.skipped as nat,
                        self.requested as nat,
                        data.skip(i as int),
                        h,
                    )
                },
            decreases n - i,
        {
            let ghost rest = data.skip(i as int);
            assert(remaining@[0]@ == data[i as int]);
            let ghost before_removal = remaining@;
            let item = remaining.remove(0);
            assert(rest[0] == item@);
            assert(rest.drop_first() =~= data.skip(i + 1));
            assert forall|k: int| 0 <= k < n - (i + 1) implies (#[trigger] remaining@[k])@ == data[(i
                + 1) + k] by {
                assert(remaining@[k] == before_removal[k + 1]);
            }
            i = i + 1;
            let w = convert_wallpaper(item);
            if contains(history, &w) {
                self.skipped = self.skipped + 1;
            } else {
                let ghost before = self.collected@;
                self.collected.push(w);
                assert(wallpaper_views(self.collected@) =~= wallpaper_views(before).push(w@));
            }
        }
        assert(data.skip(n as int) =~= Seq::<WallpaperView>::empty());
        assert(target == (wallpaper_views(self.collected@), self.skipped as nat));
        if self.current_page >= self.last_page {
            self.finished = true;
        } else {
            self.current_page = self.current_page + 1;
            self.finished = false;
        }
    }

    /// The new wallpapers found with the paging information, or why there
    /// are none.
    pub fn finish(self) -> (res: Result<WallhavenResponse, SearchError>)
        requires
            self.wf(),
        ensures
            match res {
                Ok(r) => {
                    &&& wallpaper_views(r.data@) == self@.collected
                    &&& r.data@.len() > 0
                    &&& r.meta == Meta {
                        current_page: self@.current_page,
                        last_page: self@.last_page,
                        total: self@.collected.len() as u32,
                    }
                },
                Err(e) => self@.collected.len() == 0 && e == SearchError::NothingNewOnWallhaven,
            },
    {
        if self.collected.len() == 0 {
            return Err(SearchError::NothingNewOnWallhaven);
        }
        let total = self.collected.len() as u32;
        let meta = Meta { current_page: self.current_page, last_page: self.last_page, total };
        Ok(WallhavenResponse { data: self.collected, meta })
    }
}

// ───────────────────────── laws ─────────────────────────

/// Taking in a page keeps what was collected, adds only wallpapers that
/// are not in the history, and never goes past the number wanted.
proof fn lemma_scan_wallpapers(
    collected: Seq<WallpaperView>,
    skipped: nat,
    requested: nat,
    data: Seq<WallpaperView>,
    history: Seq<HistoryRecord>,
)
    requires
        collected.len() < requested,
    ensures
        ({
            let (c, _) = scan_wallpapers(collected, skipped, requested, data, history);
            &&& collected.len() <= c.len() <= requested
            &&& c.subrange(0, collected.len() as int) == collected
            &&& forall|i: int| collected.len() <= i < c.len() ==> !has_item(history, #[trigger] c[i])
        }),
    decreases data.len(),
{
    let (c, _) = scan_wallpapers(collected, skipped, requested, data, history);
    if data.len() == 0 {
        assert(c.subrange(0, collected.len() as int) =~= collected);
    } else {
        let w = data[0];
        let rest = data.drop_first();
        if has_item(history, w) {
            lemma_scan_wallpapers(collected, skipped + 1, requested, rest, history);
        } else if collected.len() + 1 >= requested {
            assert(c.subrange(0, collected.len() as int) =~= collected);
        } else {
            let c1 = collected.push(w);
            lemma_scan_wallpapers(c1, skipped, requested, rest, history);
            assert(c.subrange(0, c1.len() as int) == c1);
            assert(c.subrange(0, collected.len() as int) =~= c1.subrange(
                0,
                collected.len() as int,
            ));
            assert(c[collected.len() as int] == c1[collected.len() as int]);
        }
    }
}

/// A page taken into a search keeps the wallpapers collected before,
/// adds only wallpapers that are not in the history, and never collects
/// more than were asked for.
pub proof fn law_wallhaven_step_collects_new(
    s: WallhavenSearchView,
    data: Seq<WallpaperView>,
    last_page: u32,
    history: Seq<HistoryRecord>,
)
    requires
        s.collected.len() < s.requested,
        forall|i: int| 0 <= i < s.collected.len() ==> !has_item(history, #[trigger] s.collected[i]),
    ensures
        ({
            let t = wallhaven_step(s, data, last_page, history);
            &&& t.collected.len() <= s.requested
            &&& t.collected.subrange(0, s.collected.len() as int) == s.collected
            &&& forall|i: int| 0 <= i < t.collected.len() ==> !has_item(history, #[trigger] t.collected[i])
        }),
{
    let t = wallhaven_step(s, data, last_page, history);
    lemma_scan_wallpapers(s.collected, s.skipped, s.requested, data, history);
    assert forall|i: int| 0 <= i < t.collected.len() implies !has_item(
        history,
        #[trigger] t.collected[i],
    ) by {
        if i < s.collected.len() {
            assert(t.collected.subrange(0, s.collected.len() as int)[i] == t.collected[i]);
        }
    }
}

/// The search goes on to the next page until it reads the last page
/// there is, and then ends.
pub proof fn law_wallhaven_pages_advance(
    s: WallhavenSearchView,
    data: Seq<WallpaperView>,
    last_page: u32,
    history: Seq<HistoryRecord>,
)
    ensures
        s.current_page >= last_page ==> wallhaven_step(s, data, last_page, history).finished,
        s.current_page < last_page ==> wallhaven_step(s, data, last_page, history).current_page
            == s.current_page + 1,
{
}

/// A page is asked for again only while fewer than `MAX_RETRIES`
/// attempts were made, and never after success or an error status.
pub proof fn law_retries_are_bounded(attempt: u32, outcome: PageOutcome)
    ensures
        next_action(attempt, outcome) is Retry ==> attempt < MAX_RETRIES,
        (outcome matches PageOutcome::Responded(code) && !is_temporary(code)) ==> !(next_action(
            attempt,
            outcome,
        ) is Retry),
{
}

/// The waits between attempts double from one second up to eight.
pub proof fn law_delays_double_up_to_eight(attempt: u32)
    requires
        1 <= attempt < u32::MAX,
    ensures
        delay_after(attempt) <= 8,
        delay_after((attempt + 1) as u32) == if 2 * delay_after(attempt) < 8 {
            2 * delay_after(attempt)
        } else {
            8
        },
{
    let n = (attempt - 1) as nat;
    assert(((attempt + 1) as u32 - 1) as nat == n + 1);
    assert(pow2(n + 1) == 2 * pow2(n));
    if n >= 3 {
        lemma_pow2_at_least_8(n);
    }
}


/// A search asks for its current page as long as it has not ended and
/// holds fewer wallpapers than were asked for, and for no page once it
/// has ended or holds enough: a fresh search for at least one wallpaper
/// asks for page 1.
pub proof fn law_wallhaven_asks_until_enough(s: WallhavenSearch)
    ensures
        !s@.finished && s@.collected.len() < s@.requested ==> s.next_page_spec() == Some(
            s@.current_page,
        ),
        s@.finished || s@.collected.len() >= s@.requested ==> s.next_page_spec() is None,
        s@.requested >= 1 && s@.collected.len() == 0 && !s@.finished && s@.current_page == 1
            ==> s.next_page_spec() == Some(1u32),
{
}

/// A failed connection or a server answering 502, 503 or 504 is tried
/// again, after the delay for that attempt, on every attempt before the
/// `MAX_RETRIES`th, and the search gives up on that attempt and later
/// ones; a success status is read, and any other status ends the search
/// at once.
pub proof fn law_retry_until_limit(attempt: u32, code: u16)
    ensures
        attempt < MAX_RETRIES ==> next_action(attempt, PageOutcome::ConnectionFailed)
            == PageAction::Retry(delay_after(attempt) as u64),
        attempt >= MAX_RETRIES ==> next_action(attempt, PageOutcome::ConnectionFailed)
            == PageAction::Fail(PageFailure::Connection),
        (code == 502 || code == 503 || code == 504) && attempt < MAX_RETRIES ==> next_action(
            attempt,
            PageOutcome::Responded(code),
        ) == PageAction::Retry(delay_after(attempt) as u64),
        (code == 502 || code == 503 || code == 504) && attempt >= MAX_RETRIES ==> next_action(
            attempt,
            PageOutcome::Responded(code),
        ) == PageAction::Fail(PageFailure::Unavailable(code)),
        200 <= code < 300 ==> next_action(attempt, PageOutcome::Responded(code)) == PageAction::Read,
        !(200 <= code < 300) && code != 502 && code != 503 && code != 504 ==> next_action(
            attempt,
            PageOutcome::Responded(code),
        ) == PageAction::Fail(PageFailure::Status(code)),
        MAX_RETRIES == 5,
{
}

/// The waits after the first attempts are 1, 2, 4 and 8 seconds, and 8
/// seconds after any later attempt.
pub proof fn law_delay_schedule(attempt: u32)
    ensures
        attempt <= 1 ==> delay_after(attempt) == 1,
        attempt == 2 ==> delay_after(attempt) == 2,
        attempt == 3 ==> delay_after(attempt) == 4,
        attempt >= 4 ==> delay_after(attempt) == 8,
{
    reveal_with_fuel(pow2, 4);
    if attempt >= 4 {
        lemma_pow2_at_least_8((attempt - 1) as nat);
    }
}

} // verus!
