//! Searching both sources at once, and the one-wallpaper random search.
use vstd::prelude::*;
use crate::cli::WallyConfig;
use crate::sources::{SearchError, Wallpaper, WallpaperView, wallpaper_views};

verus! {

/// How many of `requested` wallpapers are asked of Wallhaven: half,
/// rounded down, but at least one.
pub open spec fn wallhaven_share(requested: u32) -> u32 {
    if requested <= 1 {
        1
    } else {
        requested / 2
    }
}

/// How many are asked of Konachan: the rest, never below zero.
pub open spec fn konachan_share(requested: u32) -> u32 {
    if requested >= wallhaven_share(requested) {
        (requested - wallhaven_share(requested)) as u32
    } else {
        0
    }
}

/// `a` has the choices of `b`, except the amount, which is `amount`.
pub open spec fn same_choices(a: WallyConfig, b: WallyConfig, amount: u32) -> bool {
    &&& a.directory == b.directory
    &&& a.source == b.source
    &&& a.rating == b.rating
    &&& a.resolution == b.resolution
    &&& a.tags == b.tags
    &&& a.amount == amount
}

/// The choices of `config` with another amount.
pub fn clone_config_with_amount(config: &WallyConfig, amount: u32) -> (res: WallyConfig)
    ensures
        same_choices(res, *config, amount),
{
    WallyConfig {
        directory: config.directory.clone(),
        source: config.source,
        rating: config.rating,
        resolution: config.resolution,
        tags: config.tags.clone(),
        amount,
    }
}

/// The searches run for a search of both sources: Wallhaven's, and
/// Konachan's when its share is not zero.
pub struct BothPlan {
    pub wallhaven: Option<WallyConfig>,
    pub konachan: Option<WallyConfig>,
}

/// The two searches that make up a search of both sources.
pub fn plan_both(config: &WallyConfig) -> (res: BothPlan)
    ensures
        res.wallhaven matches Some(c) && same_choices(c, *config, wallhaven_share(config.amount)),
        wallhaven_share(config.amount) > 0,
        konachan_share(config.amount) > 0 <==> res.konachan is Some,
        res.konachan matches Some(c) ==> same_choices(c, *config, konachan_share(config.amount)),
{
    let requested = config.amount;
    let wallhaven_amount: u32 = if requested <= 1 {
        1
    } else {
        requested / 2
    };
    let konachan_amount: u32 = requested.saturating_sub(wallhaven_amount);
    let wallhaven = if wallhaven_amount > 0 {
        Some(clone_config_with_amount(config, wallhaven_amount))
    } else {
        None
    };
    let konachan = if konachan_amount > 0 {
        Some(clone_config_with_amount(config, konachan_amount))
    } else {
        None
    };
    BothPlan { wallhaven, konachan }
}

/// The wallpapers of a search, or none when it failed or was not run.
pub open spec fn found(r: Option<Seq<WallpaperView>>) -> Seq<WallpaperView> {
    match r {
        Some(s) => s,
        None => Seq::empty(),
    }
}

/// The combined result: Wallhaven's wallpapers, then Konachan's, cut to
/// `requested`.
pub open spec fn combined(
    wallhaven: Option<Seq<WallpaperView>>,
    konachan: Option<Seq<WallpaperView>>,
    requested: u32,
) -> Seq<WallpaperView> {
    let all = found(wallhaven) + found(konachan);
    if all.len() > requested {
        all.take(requested as int)
    } else {
        all
    }
}

/// The texts of an optional list of wallpapers.
pub open spec fn opt_views(r: Option<Vec<Wallpaper>>) -> Option<Seq<WallpaperView>> {
    match r {
        Some(v) => Some(wallpaper_views(v@)),
        None => None,
    }
}

/// Appends the wallpapers of `extra` to `all`.
fn extend_wallpapers(all: &mut Vec<Wallpaper>, extra: Vec<Wallpaper>)
    ensures
        wallpaper_views(final(all)@) == wallpaper_views(old(all)@) + wallpaper_views(extra@),
{
    let ghost start = wallpaper_views(all@);
    let mut rest = extra;
    let ghost whole = wallpaper_views(rest@);
    let mut i: usize = 0;
    let n = rest.len();
    while rest.len() > 0
        invariant
            n == whole.len(),
            rest@.len() + i == n,
            forall|k: int| 0 <= k < rest@.len() ==> (#[trigger] rest@[k])@ == whole[i + k],
            wallpaper_views(all@) == start + whole.take(i as int),
        decreases rest@.len(),
    {
        let ghost before_removal = rest@;
        let w = rest.remove(0);
        assert(w@ == whole[i as int]);
        assert forall|k: int| 0 <= k < rest@.len() implies (#[trigger] rest@[k])@ == whole[(i + 1)
            + k] by {
            assert(rest@[k] == before_removal[k + 1]);
        }
        let ghost before = all@;
        all.push(w);
        assert(wallpaper_views(all@) =~= wallpaper_views(before).push(w@));
        assert(whole.take(i + 1) =~= whole.take(i as int).push(whole[i as int]));
        i = i + 1;
    }
    assert(whole.take(n as int) =~= whole);
}

/// The result of a search of both sources, from what each search gave
/// (`None` when it failed or was not run): Wallhaven's wallpapers first,
/// then Konachan's, at most `requested`; an error when there are none.
pub fn combine_results(
    wallhaven: Option<Vec<Wallpaper>>,
    konachan: Option<Vec<Wallpaper>>,
    requested: u32,
) -> (res: Result<Vec<Wallpaper>, SearchError>)
    ensures
        match res {
            Ok(ws) => {
                &&& wallpaper_views(ws@) == combined(
                    opt_views(wallhaven),
                    opt_views(konachan),
                    requested,
                )
                &&& ws@.len() > 0
            },
            Err(e) => {
                &&& combined(opt_views(wallhaven), opt_views(konachan), requested).len() == 0
                &&& e == SearchError::NothingFromEitherSource
            },
        },
{
    let mut results: Vec<Wallpaper> = Vec::new();
    assert(wallpaper_views(results@) =~= Seq::<WallpaperView>::empty());
    match wallhaven {
        Some(ws) => extend_wallpapers(&mut results, ws),
        None => {},
    }
    assert(wallpaper_views(results@) =~= found(opt_views(wallhaven)));
    match konachan {
        Some(ws) => extend_wallpapers(&mut results, ws),
        None => {},
    }
    assert(wallpaper_views(results@) =~= found(opt_views(wallhaven)) + found(opt_views(konachan)));
    let ghost all = wallpaper_views(results@);
    results.truncate(requested as usize);
    assert(wallpaper_views(results@) =~= combined(
        opt_views(wallhaven),
        opt_views(konachan),
        requested,
    ));
    if results.len() == 0 {
        Err(SearchError::NothingFromEitherSource)
    } else {
        Ok(results)
    }
}

/// The choices of a random search: those of `config`, for one wallpaper.
pub fn random_config(config: &WallyConfig) -> (res: WallyConfig)
    ensures
        same_choices(res, *config, 1),
{
    clone_config_with_amount(config, 1)
}

/// The wallpaper a random search shows: the first found, or an error
/// when there is none.
pub fn first_random(wallpapers: Vec<Wallpaper>) -> (res: Result<Wallpaper, SearchError>)
    ensures
        match res {
            Ok(w) => wallpapers@.len() > 0 && w@ == wallpapers@[0]@,
            Err(e) => wallpapers@.len() == 0 && e == SearchError::NoRandomWallpaper,
        },
{
    let mut ws = wallpapers;
    if ws.len() == 0 {
        Err(SearchError::NoRandomWallpaper)
    } else {
        Ok(ws.remove(0))
    }
}

// ───────────────────────── laws ─────────────────────────

/// For one wallpaper or more, the two shares add up to what was asked
/// for.
pub proof fn law_shares_add_up(requested: u32)
    requires
        requested >= 1,
    ensures
        wallhaven_share(requested) + konachan_share(requested) == requested,
{
}

/// A combined result never holds more than was asked for.
pub proof fn law_combined_within_request(
    wallhaven: Option<Seq<WallpaperView>>,
    konachan: Option<Seq<WallpaperView>>,
    requested: u32,
)
    ensures
        combined(wallhaven, konachan, requested).len() <= requested,
{
}

} // verus!
