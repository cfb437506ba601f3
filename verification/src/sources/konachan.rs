//! Konachan: the tag query of a page request, the posts it returns, and
//! the search that collects new wallpapers page after page.
use vstd::prelude::*;
use crate::cli::{Rating, Resolution, WallyConfig};
use crate::history::{contains, has_item, records, source_key, HistoryEntry, HistoryRecord};
use crate::sources::{SearchError, Thumbnails, Wallpaper, WallpaperView, ThumbnailsView, wallpaper_views};
use crate::text::{
    chars_of, decimal, ends_with, has_infix, is_digit, occurs_at, opt_view, ends_with_chars, join, join_strings, owned, push_decimal,
    push_str, replace_char, replace_char_chars, split, split_chars, string_of, string_views, trim,
    trim_chars, trim_str, views,
};

verus! {

/// The address of Konachan's post listing.
pub const API_URL: &'static str = "https://konachan.com/post.json";

/// The last page a search asks for.
pub const LAST_PAGE: u32 = 100;

/// One post as Konachan's listing returns it.
#[derive(Debug, Clone, PartialEq)]
pub struct KonachanPost {
    pub id: u64,
    pub rating: String,
    pub width: u32,
    pub height: u32,
    pub file_url: Option<String>,
    pub preview_url: Option<String>,
    pub sample_url: Option<String>,
    pub jpeg_url: Option<String>,
}

/// The text of a post.
pub struct PostView {
    pub id: u64,
    pub rating: Seq<char>,
    pub width: u32,
    pub height: u32,
    pub file_url: Option<Seq<char>>,
    pub preview_url: Option<Seq<char>>,
    pub sample_url: Option<Seq<char>>,
    pub jpeg_url: Option<Seq<char>>,
}

impl View for KonachanPost {
    type V = PostView;

    open spec fn view(&self) -> PostView {
        PostView {
            id: self.id,
            rating: self.rating@,
            width: self.width,
            height: self.height,
            file_url: opt_view(self.file_url),
            preview_url: opt_view(self.preview_url),
            sample_url: opt_view(self.sample_url),
            jpeg_url: opt_view(self.jpeg_url),
        }
    }
}

/// The texts of a list of posts.
pub open spec fn post_views(ps: Seq<KonachanPost>) -> Seq<PostView> {
    ps.map_values(|p: KonachanPost| p@)
}

// ───────────────────────── the page request ─────────────────────────

/// Maps a tag to Konachan's spelling: spaces become underscores.
pub open spec fn underscored() -> spec_fn(Seq<char>) -> Seq<char> {
    |t: Seq<char>| replace_char(t, ' ', '_')
}

/// Maps a piece of the tag list to its trimmed text.
pub open spec fn trimmed_tag() -> spec_fn(Seq<char>) -> Seq<char> {
    |t: Seq<char>| trim(t)
}

/// Holds of non-empty tags.
pub open spec fn nonempty_tag() -> spec_fn(Seq<char>) -> bool {
    |t: Seq<char>| t.len() > 0
}

/// The user's comma-separated tags in Konachan's spelling, empty ones
/// left out.
pub open spec fn user_tags(tags: Seq<char>) -> Seq<Seq<char>> {
    if trim(tags).len() == 0 {
        Seq::empty()
    } else {
        split(tags, ',').map_values(trimmed_tag()).filter(nonempty_tag()).map_values(underscored())
    }
}

/// The tags that select a rating.
pub open spec fn rating_tags(r: Rating) -> Seq<Seq<char>> {
    match r {
        Rating::Sfw => seq!["rating:s"@],
        Rating::Sketchy => seq!["rating:s"@, "rating:q"@],
        Rating::Nsfw => seq!["rating:e"@],
    }
}

/// The tags that select a resolution; a ratio is checked on the posts
/// instead.
pub open spec fn resolution_tags(r: Resolution) -> Seq<Seq<char>> {
    match r {
        Resolution::Exact(w, h) => seq![
            "width:"@ + decimal(w as nat),
            "height:"@ + decimal(h as nat),
        ],
        Resolution::Minimum(w, h) => seq![
            "width:>="@ + decimal(w as nat),
            "height:>="@ + decimal(h as nat),
        ],
        Resolution::Ratio(_, _) => Seq::empty(),
    }
}

/// The `tags` parameter of a page request: user tags, rating tags and
/// resolution tags, separated by spaces.
pub open spec fn tag_query_text(tags: Seq<char>, rating: Rating, resolution: Resolution) -> Seq<
    char,
> {
    join(user_tags(tags) + rating_tags(rating) + resolution_tags(resolution), " "@)
}

/// The query of the request for `page`: `limit`, `page` and `tags`.
pub open spec fn page_query_text(
    tags: Seq<char>,
    rating: Rating,
    resolution: Resolution,
    page: u32,
) -> Seq<(Seq<char>, Seq<char>)> {
    seq![
        ("limit"@, "100"@),
        ("page"@, decimal(page as nat)),
        ("tags"@, tag_query_text(tags, rating, resolution)),
    ]
}

/// The texts of a list of query parameters.
pub open spec fn pair_views(ps: Seq<(String, String)>) -> Seq<(Seq<char>, Seq<char>)> {
    ps.map_values(|p: (String, String)| (p.0@, p.1@))
}

/// Appends `s` to `v`.
fn push_string(v: &mut Vec<String>, s: String)
    ensures
        string_views(final(v)@) == string_views(old(v)@).push(s@),
{
    let ghost before = v@;
    v.push(s);
    assert(string_views(v@) =~= string_views(before).push(s@));
}

/// The user's tags in Konachan's spelling.
fn user_tag_list(tags: &str) -> (res: Vec<String>)
    ensures
        string_views(res@) == user_tags(tags@),
{
    let mut res: Vec<String> = Vec::new();
    let t = trim_str(tags);
    if t.as_str().is_empty() {
        assert(string_views(res@) =~= Seq::<Seq<char>>::empty());
        return res;
    }
    let cs = chars_of(tags);
    let pieces = split_chars(&cs, ',');
    let ghost all = split(tags@, ',');
    let mut i: usize = 0;
    while i < pieces.len()
        invariant
            i <= pieces.len(),
            views(pieces@) == all,
            string_views(res@) == all.take(i as int).map_values(trimmed_tag()).filter(
                nonempty_tag(),
            ).map_values(underscored()),
        decreases pieces.len() - i,
    {
        let tag = trim_chars(&pieces[i]);
        proof {
            let before = all.take(i as int).map_values(trimmed_tag());
            assert(all[i as int] == pieces@[i as int]@);
            assert(all.take(i + 1).map_values(trimmed_tag()) =~= before.push(tag@));
            before.lemma_filter_push(tag@, nonempty_tag());
        }
        if tag.len() > 0 {
            let fixed = replace_char_chars(&tag, ' ', '_');
            let s = string_of(&fixed);
            let ghost before = all.take(i as int).map_values(trimmed_tag()).filter(nonempty_tag());
            push_string(&mut res, s);
            assert(before.push(tag@).map_values(underscored()) =~= before.map_values(
                underscored(),
            ).push(fixed@));
        }
        i = i + 1;
    }
    assert(all.take(pieces.len() as int) =~= all);
    res
}

/// `prefix` followed by the decimal notation of `n`.
fn prefixed_number(prefix: &str, n: u32) -> (res: String)
    ensures
        res@ == prefix@ + decimal(n as nat),
{
    let mut s = owned(prefix);
    push_decimal(&mut s, n as u64);
    s
}

/// The `tags` parameter of a page request for `config`.
pub fn tag_query(config: &WallyConfig) -> (res: String)
    ensures
        res@ == tag_query_text(config.tags@, config.rating, config.resolution),
{
    let mut tags = user_tag_list(config.tags.as_str());
    let ghost user = string_views(tags@);
    match config.rating {
        Rating::Sfw => {
            push_string(&mut tags, owned("rating:s"));
        },
        Rating::Sketchy => {
            push_string(&mut tags, owned("rating:s"));
            push_string(&mut tags, owned("rating:q"));
        },
        Rating::Nsfw => {
            push_string(&mut tags, owned("rating:e"));
        },
    }
    assert(string_views(tags@) =~= user + rating_tags(config.rating));
    let ghost with_rating = string_views(tags@);
    match config.resolution {
        Resolution::Exact(width, height) => {
            push_string(&mut tags, prefixed_number("width:", width));
            push_string(&mut tags, prefixed_number("height:", height));
        },
        Resolution::Minimum(width, height) => {
            push_string(&mut tags, prefixed_number("width:>=", width));
            push_string(&mut tags, prefixed_number("height:>=", height));
        },
        Resolution::Ratio(_, _) => {},
    }
    assert(string_views(tags@) =~= with_rating + resolution_tags(config.resolution));
    join_strings(&tags, " ")
}

/// The query of the request for `page`.
pub fn page_query(config: &WallyConfig, page: u32) -> (res: Vec<(String, String)>)
    ensures
        pair_views(res@) == page_query_text(config.tags@, config.rating, config.resolution, page),
{
    let mut pairs: Vec<(String, String)> = Vec::new();
    pairs.push((owned("limit"), owned("100")));
    let mut p = String::new();
    push_decimal(&mut p, page as u64);
    assert(p@ =~= decimal(page as nat));
    pairs.push((owned("page"), p));
    pairs.push((owned("tags"), tag_query(config)));
    assert(pair_views(pairs@) =~= page_query_text(
        config.tags@,
        config.rating,
        config.resolution,
        page,
    ));
    pairs
}

// ───────────────────────── posts ─────────────────────────

/// Whether a post has the wanted size: exact and minimum sizes are
/// decided here; for an aspect ratio the answer is `None`, and the caller
/// compares the two ratios with floating-point arithmetic.
pub open spec fn size_fits(width: u32, height: u32, r: Resolution) -> Option<bool> {
    match r {
        Resolution::Exact(w, h) => Some(width == w && height == h),
        Resolution::Minimum(w, h) => Some(width >= w && height >= h),
        Resolution::Ratio(_, _) => None,
    }
}

/// Whether `post` has the size `resolution` asks for, where that does
/// not take floating-point arithmetic (see `size_fits`).
pub fn matches_resolution(post: &KonachanPost, resolution: &Resolution) -> (res: Option<bool>)
    ensures
        res == size_fits(post.width, post.height, *resolution),
{
    match resolution {
        Resolution::Exact(width, height) => Some(post.width == *width && post.height == *height),
        Resolution::Minimum(width, height) => Some(post.width >= *width && post.height >= *height),
        Resolution::Ratio(_, _) => None,
    }
}

/// The address up to its first `?`.
pub open spec fn without_query(path: Seq<char>) -> Seq<char> {
    split(path, '?')[0]
}

/// The media type of a file, from the extension of its address.
pub open spec fn file_type_of(path: Seq<char>) -> Seq<char> {
    let p = without_query(path);
    if ends_with(p, ".png"@) {
        "image/png"@
    } else if ends_with(p, ".webp"@) {
        "image/webp"@
    } else if ends_with(p, ".gif"@) {
        "image/gif"@
    } else {
        "image/jpeg"@
    }
}

/// The media type of the file at `path`: PNG, WebP and GIF by their
/// extension, JPEG otherwise.
pub fn detect_file_type(path: &str) -> (res: String)
    ensures
        res@ == file_type_of(path@),
{
    let cs = chars_of(path);
    let parts = split_chars(&cs, '?');
    proof {
        crate::text::lemma_split_nonempty(path@, '?');
    }
    assert(views(parts@)[0] == parts@[0]@);
    let p = &parts[0];
    if ends_with_chars(p, &chars_of(".png")) {
        owned("image/png")
    } else if ends_with_chars(p, &chars_of(".webp")) {
        owned("image/webp")
    } else if ends_with_chars(p, &chars_of(".gif")) {
        owned("image/gif")
    } else {
        owned("image/jpeg")
    }
}

/// The file of a post: its full file, else its JPEG version.
pub open spec fn post_file(p: PostView) -> Option<Seq<char>> {
    match p.file_url {
        Some(u) => Some(u),
        None => p.jpeg_url,
    }
}

/// The preview of a post: its sample, else its preview image, else its
/// file.
pub open spec fn post_preview(p: PostView, file: Seq<char>) -> Seq<char> {
    match p.sample_url {
        Some(u) => u,
        None => match p.preview_url {
            Some(u) => u,
            None => file,
        },
    }
}

/// The wallpaper made of a post, or `None` when it has no file to
/// download.
pub open spec fn converted_post(p: PostView) -> Option<WallpaperView> {
    match post_file(p) {
        None => None,
        Some(file) => {
            let preview = post_preview(p, file);
            Some(
                WallpaperView {
                    id: decimal(p.id as nat),
                    url: "https://konachan.com/post/show/"@ + decimal(p.id as nat),
                    purity: p.rating,
                    category: "anime"@,
                    dimension_x: p.width,
                    dimension_y: p.height,
                    resolution: decimal(p.width as nat) + "x"@ + decimal(p.height as nat),
                    path: file,
                    file_type: file_type_of(file),
                    thumbs: ThumbnailsView { large: preview, original: preview, small: preview },
                },
            )
        },
    }
}

/// The wallpaper made of `post`, or `None` when it has no file to
/// download.
pub fn convert_post(post: KonachanPost) -> (res: Option<Wallpaper>)
    ensures
        match res {
            None => converted_post(post@) is None,
            Some(w) => converted_post(post@) == Some(w@),
        },
        post.file_url is Some ==> res is Some && res->0.path == post.file_url->0,
        post.file_url is None && post.jpeg_url is Some ==> res is Some && res->0.path
            == post.jpeg_url->0,
        post.file_url is None && post.jpeg_url is None ==> res is None,
{
    let ghost pv = post@;
    let path = match post.file_url {
        Some(u) => u,
        None => match post.jpeg_url {
            Some(u) => u,
            None => {
                return None;
            },
        },
    };
    let preview = match post.sample_url {
        Some(u) => u,
        None => match post.preview_url {
            Some(u) => u,
            None => path.clone(),
        },
    };
    let file_type = detect_file_type(path.as_str());
    let mut id = String::new();
    push_decimal(&mut id, post.id);
    assert(id@ =~= decimal(post.id as nat));
    let mut url = owned("https://konachan.com/post/show/");
    push_str(&mut url, id.as_str());
    let mut resolution = String::new();
    push_decimal(&mut resolution, post.width as u64);
    push_str(&mut resolution, "x");
    push_decimal(&mut resolution, post.height as u64);
    assert(resolution@ =~= decimal(post.width as nat) + "x"@ + decimal(post.height as nat));
    let w = Wallpaper {
        id,
        url,
        purity: post.rating,
        category: owned("anime"),
        dimension_x: post.width,
        dimension_y: post.height,
        resolution,
        path,
        file_type,
        thumbs: Thumbnails { large: preview.clone(), original: preview.clone(), small: preview },
    };
    assert(converted_post(pv) == Some(w@));
    Some(w)
}

// ───────────────────────── the search ─────────────────────────

/// Where a search stands: how many wallpapers are wanted, those
/// collected, the next page, how many were skipped as already
/// downloaded, and whether no further page is to be asked for.
pub struct KonachanSearchView {
    pub requested: nat,
    pub collected: Seq<WallpaperView>,
    pub page: u32,
    pub skipped: nat,
    pub finished: bool,
}

/// The posts of one page, in order, taken into a search: a post that
/// does not fit the size or has no file is passed over; one already in
/// the history is counted as skipped; the others are collected until
/// enough are.
pub open spec fn scan_posts(
    collected: Seq<WallpaperView>,
    skipped: nat,
    requested: nat,
    posts: Seq<PostView>,
    fits: Seq<bool>,
    history: Seq<HistoryRecord>,
) -> (Seq<WallpaperView>, nat)
    decreases posts.len(),
{
    if posts.len() == 0 {
        (collected, skipped)
    } else {
        let rest = posts.drop_first();
        let rest_fits = fits.drop_first();
        if !fits[0] {
            scan_posts(collected, skipped, requested, rest, rest_fits, history)
        } else {
            match converted_post(posts[0]) {
                None => scan_posts(collected, skipped, requested, rest, rest_fits, history),
                Some(w) => if has_item(history, w) {
                    scan_posts(collected, skipped + 1, requested, rest, rest_fits, history)
                } else if collected.len() + 1 >= requested {
                    (collected.push(w), skipped)
                } else {
                    scan_posts(collected.push(w), skipped, requested, rest, rest_fits, history)
                },
            }
        }
    }
}

/// Whether a post has the wanted size, the caller's floating-point
/// answer standing in for an aspect ratio.
pub open spec fn post_fits(p: PostView, r: Resolution, ratio_fits: bool) -> bool {
    match size_fits(p.width, p.height, r) {
        Some(b) => b,
        None => ratio_fits,
    }
}

/// Whether each post has the wanted size.
pub open spec fn fits_of(posts: Seq<PostView>, r: Resolution, ratio_fits: Seq<bool>) -> Seq<bool> {
    Seq::new(posts.len(), |i: int| post_fits(posts[i], r, ratio_fits[i]))
}

/// The search after one page of posts: an empty page ends it; otherwise
/// its posts are taken in and the next page is the one after, up to
/// `LAST_PAGE`.
pub open spec fn konachan_step(
    s: KonachanSearchView,
    posts: Seq<PostView>,
    fits: Seq<bool>,
    history: Seq<HistoryRecord>,
) -> KonachanSearchView {
    if posts.len() == 0 {
        KonachanSearchView { finished: true, ..s }
    } else {
        let (collected, skipped) = scan_posts(
            s.collected,
            s.skipped,
            s.requested,
            posts,
            fits,
            history,
        );
        KonachanSearchView {
            requested: s.requested,
            collected,
            page: (s.page + 1) as u32,
            skipped,
            finished: s.page + 1 > LAST_PAGE,
        }
    }
}

/// A search on Konachan, driven page by page by its caller.
pub struct KonachanSearch {
    requested: usize,
    collected: Vec<Wallpaper>,
    page: u32,
    skipped: usize,
    finished: bool,
}

impl View for KonachanSearch {
    type V = KonachanSearchView;

    closed spec fn view(&self) -> KonachanSearchView {
        KonachanSearchView {
            requested: self.requested as nat,
            collected: wallpaper_views(self.collected@),
            page: self.page,
            skipped: self.skipped as nat,
            finished: self.finished,
        }
    }
}

impl KonachanSearch {
    /// The search state holds together: the next page lies between the
    /// first and one past the last.
    pub closed spec fn wf(&self) -> bool {
        &&& 1 <= self.page <= LAST_PAGE + 1
        &&& self.page > LAST_PAGE ==> self.finished
        &&& self.collected@.len() <= self.requested
    }

    /// The page to ask for next, if any: none once the search has ended
    /// or enough wallpapers are collected.
    pub open spec fn next_page_spec(&self) -> Option<u32> {
        if !self@.finished && self@.collected.len() < self@.requested {
            Some(self@.page)
        } else {
            None
        }
    }

    /// A search for `amount` new wallpapers, starting at page 1.
    pub fn new(amount: u32) -> (res: Self)
        ensures
            res.wf(),
            res@ == (KonachanSearchView {
                requested: amount as nat,
                collected: Seq::empty(),
                page: 1,
                skipped: 0,
                finished: false,
            }),
    {
        let res = KonachanSearch {
            requested: amount as usize,
            collected: Vec::new(),
            page: 1,
            skipped: 0,
            finished: false,
        };
        assert(wallpaper_views(res.collected@) =~= Seq::<WallpaperView>::empty());
        res
    }

    /// The page to ask for next, if any.
    pub fn next_page(&self) -> (res: Option<u32>)
        ensures
            res == self.next_page_spec(),
            !self@.finished && self@.collected.len() < self@.requested ==> res == Some(self@.page),
            self@.finished || self@.collected.len() >= self@.requested ==> res is None,
    {
        if !self.finished && self.collected.len() < self.requested {
            Some(self.page)
        } else {
            None
        }
    }

    /// How many posts were passed over as already downloaded.
    pub fn skipped(&self) -> (res: usize)
        ensures
            res == self@.skipped,
    {
        self.skipped
    }

    /// Takes in the posts of the page that `next_page` asked for.
    /// `ratio_fits[i]` is the caller's answer for post `i` when the wanted
    /// size is an aspect ratio; it is not read otherwise.
    pub fn receive_page(
        &mut self,
        posts: Vec<KonachanPost>,
        ratio_fits: &Vec<bool>,
        resolution: &Resolution,
        history: &Vec<HistoryEntry>,
    )
        requires
            old(self).wf(),
            old(self).next_page_spec() is Some,
            ratio_fits.len() == posts.len(),
            old(self)@.skipped + posts.len() <= usize::MAX,
        ensures
            final(self).wf(),
            final(self)@ == konachan_step(
                old(self)@,
                post_views(posts@),
                fits_of(post_views(posts@), *resolution, ratio_fits@),
                records(history@),
            ),
    {
        let ghost pv = post_views(posts@);
        let ghost fits = fits_of(pv, *resolution, ratio_fits@);
        let ghost h = records(history@);
        let ghost start = self@;
        if posts.len() == 0 {
            self.finished = true;
            return;
        }
        let n = posts.len();
        let mut i: usize = 0;
        let mut remaining = posts;
        let ghost target = scan_posts(start.collected, start.skipped, start.requested, pv, fits, h);
        assert(pv.skip(0) =~= pv);
        assert(fits.skip(0) =~= fits);
        while i < n && self.collected.len() < self.requested
            invariant
                0 <= i <= n == pv.len() == fits.len(),
                remaining@.len() == n - i,
                forall|k: int| 0 <= k < n - i ==> (#[trigger] remaining@[k])@ == pv[i + k],
                self.requested == start.requested,
                self.page == start.page,
                !self.finished,
                self.skipped + (n - i) <= usize::MAX,
                self.skipped >= start.skipped,
                self.collected@.len() <= self.requested,
                h == records(history@),
                fits == fits_of(pv, *resolution, ratio_fits@),
                ratio_fits@.len() == n,
                target == if self.collected@.len() >= self.requested {
                    (wallpaper_views(self.collected@), self.skipped as nat)
                } else {
                    scan_posts(
                        wallpaper_views(self.collected@),
                        self.skipped as nat,
                        self.requested as nat,
                        pv.skip(i as int),
                        fits.skip(i as int),
                        h,
                    )
                },
            decreases n - i,
        {
            let ghost rest = pv.skip(i as int);
            let ghost rest_fits = fits.skip(i as int);
            let ghost cur = wallpaper_views(self.collected@);
            assert(remaining@[0]@ == pv[i as int]);
            let ghost before_removal = remaining@;
            let post = remaining.remove(0);
            assert(rest[0] == post@);
            assert(rest.drop_first() =~= pv.skip(i + 1));
            assert(rest_fits.drop_first() =~= fits.skip(i + 1));
            assert(rest_fits[0] == fits[i as int]);
            assert forall|k: int| 0 <= k < n - (i + 1) implies (#[trigger] remaining@[k])@ == pv[(i
                + 1) + k] by {
                assert(remaining@[k] == before_removal[k + 1]);
            }
            let fit = match matches_resolution(&post, resolution) {
                Some(b) => b,
                None => ratio_fits[i],
            };
            assert(fit == fits[i as int]);
            i = i + 1;
            if fit {
                let converted = convert_post(post);
                match converted {
                    None => {},
                    Some(w) => {
                        if contains(history, &w) {
                            self.skipped = self.skipped + 1;
                        } else {
                            let ghost before = self.collected@;
                            self.collected.push(w);
                            assert(wallpaper_views(self.collected@) =~= wallpaper_views(before).push(
                                w@,
                            ));
                        }
                    },
                }
            }
        }
        assert(pv.skip(n as int) =~= Seq::<PostView>::empty());
        assert(target == (wallpaper_views(self.collected@), self.skipped as nat));
        self.page = self.page + 1;
        if self.page > LAST_PAGE {
            self.finished = true;
        }
    }

    /// The wallpapers collected, or why there are none.
    pub fn finish(self) -> (res: Result<Vec<Wallpaper>, SearchError>)
        ensures
            match res {
                Ok(ws) => wallpaper_views(ws@) == self@.collected && ws@.len() > 0,
                Err(e) => self@.collected.len() == 0 && e == SearchError::NothingNewOnKonachan,
            },
    {
        if self.collected.len() == 0 {
            Err(SearchError::NothingNewOnKonachan)
        } else {
            Ok(self.collected)
        }
    }
}

// ───────────────────────── laws ─────────────────────────

/// Taking in posts keeps what was collected, adds only wallpapers that
/// are not in the history, and never goes past the number wanted.
proof fn lemma_scan_posts(
    collected: Seq<WallpaperView>,
    skipped: nat,
    requested: nat,
    posts: Seq<PostView>,
    fits: Seq<bool>,
    history: Seq<HistoryRecord>,
)
    requires
        collected.len() < requested,
    ensures
        ({
            let (c, _) = scan_posts(collected, skipped, requested, posts, fits, history);
            &&& collected.len() <= c.len() <= requested
            &&& c.subrange(0, collected.len() as int) == collected
            &&& forall|i: int| collected.len() <= i < c.len() ==> !has_item(history, #[trigger] c[i])
        }),
    decreases posts.len(),
{
    let (c, _) = scan_posts(collected, skipped, requested, posts, fits, history);
    if posts.len() == 0 {
        assert(c.subrange(0, collected.len() as int) =~= collected);
    } else {
        let rest = posts.drop_first();
        let rest_fits = fits.drop_first();
        if !fits[0] {
            lemma_scan_posts(collected, skipped, requested, rest, rest_fits, history);
        } else {
            match converted_post(posts[0]) {
                None => lemma_scan_posts(collected, skipped, requested, rest, rest_fits, history),
                Some(w) => {
                    if has_item(history, w) {
                        lemma_scan_posts(collected, skipped + 1, requested, rest, rest_fits, history);
                    } else if collected.len() + 1 >= requested {
                        assert(c.subrange(0, collected.len() as int) =~= collected);
                    } else {
                        let c1 = collected.push(w);
                        lemma_scan_posts(c1, skipped, requested, rest, rest_fits, history);
                        assert(c.subrange(0, c1.len() as int) == c1);
                        assert(c.subrange(0, collected.len() as int) =~= c1.subrange(
                            0,
                            collected.len() as int,
                        ));
                        assert(c[collected.len() as int] == c1[collected.len() as int]);
                    }
                },
            }
        }
    }
}

/// A page taken into a search keeps the wallpapers collected before,
/// adds only wallpapers that are not in the history, and never collects
/// more than were asked for.
pub proof fn law_konachan_step_collects_new(
    s: KonachanSearchView,
    posts: Seq<PostView>,
    fits: Seq<bool>,
    history: Seq<HistoryRecord>,
)
    requires
        s.collected.len() < s.requested,
        forall|i: int| 0 <= i < s.collected.len() ==> !has_item(history, #[trigger] s.collected[i]),
    ensures
        ({
            let t = konachan_step(s, posts, fits, history);
            &&& t.collected.len() <= s.requested
            &&& t.collected.subrange(0, s.collected.len() as int) == s.collected
            &&& forall|i: int| 0 <= i < t.collected.len() ==> !has_item(history, #[trigger] t.collected[i])
        }),
{
    let t = konachan_step(s, posts, fits, history);
    if posts.len() == 0 {
        assert(t.collected.subrange(0, s.collected.len() as int) =~= s.collected);
    } else {
        lemma_scan_posts(s.collected, s.skipped, s.requested, posts, fits, history);
        assert forall|i: int| 0 <= i < t.collected.len() implies !has_item(
            history,
            #[trigger] t.collected[i],
        ) by {
            if i < s.collected.len() {
                assert(t.collected.subrange(0, s.collected.len() as int)[i] == t.collected[i]);
            }
        }
    }
}

/// The search asks for pages in order, one at a time, and ends after
/// the last page or on an empty page.
pub proof fn law_konachan_pages_advance(
    s: KonachanSearchView,
    posts: Seq<PostView>,
    fits: Seq<bool>,
    history: Seq<HistoryRecord>,
)
    requires
        1 <= s.page <= LAST_PAGE,
    ensures
        posts.len() == 0 ==> konachan_step(s, posts, fits, history).finished,
        posts.len() > 0 ==> konachan_step(s, posts, fits, history).page == s.page + 1,
        konachan_step(s, posts, fits, history).page > LAST_PAGE ==> konachan_step(
            s,
            posts,
            fits,
            history,
        ).finished,
{
}


/// The address of a post's page holds no `l`: neither its fixed start
/// nor the digits of the id do.
proof fn lemma_post_address_lacks_l(id: nat)
    ensures
        !("https://konachan.com/post/show/"@ + decimal(id)).contains('l'),
{
    reveal_strlit("https://konachan.com/post/show/");
    crate::text::lemma_decimal_digits(id);
    let pre = "https://konachan.com/post/show/"@;
    let u = pre + decimal(id);
    assert forall|k: int| 0 <= k < u.len() implies u[k] != 'l' by {
        if k < pre.len() {
            assert(pre[k] != 'l');
        } else {
            assert(is_digit(decimal(id)[k - pre.len()]));
        }
    }
}

/// A wallpaper made of a Konachan post is recorded in the history under
/// the source `konachan` and the post's id: its page address names
/// Konachan and not Wallhaven, its id is the decimal id, and its media
/// type is the one its file's address shows.
pub proof fn law_converted_post_is_konachan(p: PostView)
    requires
        converted_post(p) is Some,
    ensures
        source_key(converted_post(p)->0.url) == "konachan"@,
        converted_post(p)->0.id == decimal(p.id as nat),
        converted_post(p)->0.file_type == file_type_of(converted_post(p)->0.path),
{
    reveal_strlit("https://konachan.com/post/show/");
    reveal_strlit("wallhaven.cc");
    reveal_strlit("konachan.com");
    reveal_strlit("konachan");
    let w = converted_post(p)->0;
    let u = w.url;
    lemma_post_address_lacks_l(p.id as nat);
    if has_infix(u, "wallhaven.cc"@) {
        let i = choose|i: int| occurs_at(u, "wallhaven.cc"@, i);
        assert(u.subrange(i, i + 12)[2] == 'l');
        assert(u[i + 2] == 'l');
        assert(false);
    }
    assert(u.subrange(8, 20) =~= "konachan.com"@);
    assert(occurs_at(u, "konachan.com"@, 8));
}


/// A search asks for its next page as long as it has not ended and holds
/// fewer wallpapers than were asked for, and for no page once it has
/// ended or holds enough.
pub proof fn law_konachan_asks_until_enough(s: KonachanSearch)
    ensures
        !s@.finished && s@.collected.len() < s@.requested ==> s.next_page_spec() == Some(s@.page),
        s@.finished || s@.collected.len() >= s@.requested ==> s.next_page_spec() is None,
{
}

/// A post's file is its full file when it has one, and its JPEG version
/// only when it has none; a post with neither gives no wallpaper. The
/// wallpaper's media type is that of the file chosen.
pub proof fn law_converted_post_prefers_full_file(p: PostView)
    ensures
        p.file_url is Some ==> converted_post(p) is Some && converted_post(p)->0.path
            == p.file_url->0,
        p.file_url is None && p.jpeg_url is Some ==> converted_post(p) is Some && converted_post(
            p,
        )->0.path == p.jpeg_url->0,
        p.file_url is None && p.jpeg_url is None ==> converted_post(p) is None,
        converted_post(p) is Some ==> converted_post(p)->0.file_type == file_type_of(
            converted_post(p)->0.path,
        ),
{
}

} // verus!
