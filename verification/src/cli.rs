//! What the user chooses before a search: where to save, which source,
//! which rating, which resolution, which tags and how many wallpapers.
use vstd::prelude::*;
use crate::text::{
    all_digits, chars_of, decimal, is_digit, join, lemma_decimal_digits, lemma_parse_decimal,
    lemma_split_join, owned, parse_u32, parse_u32_str, push_decimal, push_str, split,
    split_chars, string_of, string_views, views,
};

verus! {

/// The choices of one search.
#[derive(Debug, Clone)]
pub struct WallyConfig {
    pub directory: String,
    pub source: Source,
    pub rating: Rating,
    pub resolution: Resolution,
    pub tags: String,
    pub amount: u32,
}

/// Where wallpapers are searched.
#[derive(Debug, Clone, Copy, PartialEq, Eq, Structural)]
pub enum Source {
    Wallhaven,
    Konachan,
    Both,
}

/// Which content ratings are accepted.
#[derive(Debug, Clone, Copy, PartialEq, Eq, Structural)]
pub enum Rating {
    Sfw,
    Sketchy,
    Nsfw,
}

/// Which image sizes are accepted: exactly a size, at least a size, or
/// an aspect ratio.
#[derive(Debug, Clone, Copy, PartialEq, Eq, Structural)]
pub enum Resolution {
    Exact(u32, u32),
    Minimum(u32, u32),
    Ratio(u32, u32),
}

/// The name shown for a source.
pub open spec fn source_label(s: Source) -> Seq<char> {
    match s {
        Source::Wallhaven => "Wallhaven"@,
        Source::Konachan => "Konachan"@,
        Source::Both => "Both"@,
    }
}

/// The name shown for a rating.
pub open spec fn rating_label(r: Rating) -> Seq<char> {
    match r {
        Rating::Sfw => "SFW"@,
        Rating::Sketchy => "SFW + Sketchy"@,
        Rating::Nsfw => "NSFW"@,
    }
}

/// `w` and `h` written with `sep` between them.
pub open spec fn pair_text(w: u32, sep: Seq<char>, h: u32) -> Seq<char> {
    decimal(w as nat) + sep + decimal(h as nat)
}

/// The text shown for a resolution: `1920x1080`, `Minimum 1920x1080` or
/// `16:9`.
pub open spec fn resolution_label(r: Resolution) -> Seq<char> {
    match r {
        Resolution::Exact(w, h) => pair_text(w, "x"@, h),
        Resolution::Minimum(w, h) => "Minimum "@ + pair_text(w, "x"@, h),
        Resolution::Ratio(w, h) => pair_text(w, ":"@, h),
    }
}

/// The resolution typed as `WIDTHxHEIGHT`: a width or height that does
/// not parse falls back to 1920 or 1080, and text that is not two parts
/// around one `x` gives 1920x1080.
pub open spec fn parsed_resolution(value: Seq<char>) -> Resolution {
    let parts = split(value, 'x');
    if parts.len() != 2 {
        Resolution::Exact(1920, 1080)
    } else {
        Resolution::Exact(
            match parse_u32(parts[0]) {
                Some(w) => w,
                None => 1920,
            },
            match parse_u32(parts[1]) {
                Some(h) => h,
                None => 1080,
            },
        )
    }
}

/// The menu entries for the source, in menu order.
pub open spec fn source_menu() -> Seq<Seq<char>> {
    seq!["Wallhaven"@, "Konachan"@, "Both"@]
}

/// The menu entries for the rating, in menu order.
pub open spec fn rating_menu() -> Seq<Seq<char>> {
    seq!["SFW"@, "SFW + Sketchy"@, "NSFW"@]
}

/// The menu entries for the resolution, in menu order; the last asks
/// for a typed resolution.
pub open spec fn resolution_menu() -> Seq<Seq<char>> {
    seq![
        "1920x1080"@,
        "2560x1440"@,
        "3840x2160"@,
        "Minimum 1920x1080"@,
        "16:9"@,
        "Custom"@,
    ]
}

/// The entry that asks for a new save location.
pub open spec fn new_location_entry() -> Seq<char> {
    "+ New location"@
}

impl Source {
    /// The name shown for this source.
    pub fn label(&self) -> (res: String)
        ensures
            res@ == source_label(*self),
    {
        match self {
            Source::Wallhaven => owned("Wallhaven"),
            Source::Konachan => owned("Konachan"),
            Source::Both => owned("Both"),
        }
    }
}

impl Rating {
    /// The name shown for this rating.
    pub fn label(&self) -> (res: String)
        ensures
            res@ == rating_label(*self),
    {
        match self {
            Rating::Sfw => owned("SFW"),
            Rating::Sketchy => owned("SFW + Sketchy"),
            Rating::Nsfw => owned("NSFW"),
        }
    }
}

/// `w`, `sep`, `h` as text.
fn pair_string(w: u32, sep: &str, h: u32) -> (res: String)
    ensures
        res@ == pair_text(w, sep@, h),
{
    let mut s = String::new();
    push_decimal(&mut s, w as u64);
    push_str(&mut s, sep);
    push_decimal(&mut s, h as u64);
    assert(s@ =~= pair_text(w, sep@, h));
    s
}

impl Resolution {
    /// The text shown for this resolution.
    pub fn label(&self) -> (res: String)
        ensures
            res@ == resolution_label(*self),
    {
        match self {
            Resolution::Exact(w, h) => pair_string(*w, "x", *h),
            Resolution::Minimum(w, h) => {
                let mut s = owned("Minimum ");
                let p = pair_string(*w, "x", *h);
                push_str(&mut s, p.as_str());
                s
            },
            Resolution::Ratio(w, h) => pair_string(*w, ":", *h),
        }
    }
}

/// The resolution typed by the user as `WIDTHxHEIGHT`.
pub fn parse_resolution(value: &str) -> (res: Resolution)
    ensures
        res == parsed_resolution(value@),
{
    let cs = chars_of(value);
    let parts = split_chars(&cs, 'x');
    if parts.len() != 2 {
        return Resolution::Exact(1920, 1080);
    }
    let first = string_of(&parts[0]);
    let second = string_of(&parts[1]);
    assert(views(parts@)[0] == parts@[0]@);
    assert(views(parts@)[1] == parts@[1]@);
    let width = match parse_u32_str(first.as_str()) {
        Some(w) => w,
        None => 1920,
    };
    let height = match parse_u32_str(second.as_str()) {
        Some(h) => h,
        None => 1080,
    };
    Resolution::Exact(width, height)
}

/// The source chosen at menu position `index`; any position past the
/// second means both.
pub fn source_from_index(index: usize) -> (res: Source)
    ensures
        res == (if index == 0 {
            Source::Wallhaven
        } else if index == 1 {
            Source::Konachan
        } else {
            Source::Both
        }),
{
    match index {
        0 => Source::Wallhaven,
        1 => Source::Konachan,
        _ => Source::Both,
    }
}

/// The rating chosen at menu position `index`; any position past the
/// second means NSFW.
pub fn rating_from_index(index: usize) -> (res: Rating)
    ensures
        res == (if index == 0 {
            Rating::Sfw
        } else if index == 1 {
            Rating::Sketchy
        } else {
            Rating::Nsfw
        }),
{
    match index {
        0 => Rating::Sfw,
        1 => Rating::Sketchy,
        _ => Rating::Nsfw,
    }
}

/// The resolution at menu position `index`, or `None` for the last
/// entry, which asks for a typed resolution.
pub fn preset_resolution(index: usize) -> (res: Option<Resolution>)
    requires
        index < 6,
    ensures
        index == 0 ==> res == Some(Resolution::Exact(1920, 1080)),
        index == 1 ==> res == Some(Resolution::Exact(2560, 1440)),
        index == 2 ==> res == Some(Resolution::Exact(3840, 2160)),
        index == 3 ==> res == Some(Resolution::Minimum(1920, 1080)),
        index == 4 ==> res == Some(Resolution::Ratio(16, 9)),
        index == 5 ==> res is None,
{
    match index {
        0 => Some(Resolution::Exact(1920, 1080)),
        1 => Some(Resolution::Exact(2560, 1440)),
        2 => Some(Resolution::Exact(3840, 2160)),
        3 => Some(Resolution::Minimum(1920, 1080)),
        4 => Some(Resolution::Ratio(16, 9)),
        _ => None,
    }
}

/// The source menu entries.
pub fn source_options() -> (res: Vec<String>)
    ensures
        string_views(res@) == source_menu(),
{
    let res = vec![owned("Wallhaven"), owned("Konachan"), owned("Both")];
    assert(string_views(res@) =~= source_menu());
    res
}

/// The rating menu entries.
pub fn rating_options() -> (res: Vec<String>)
    ensures
        string_views(res@) == rating_menu(),
{
    let res = vec![owned("SFW"), owned("SFW + Sketchy"), owned("NSFW")];
    assert(string_views(res@) =~= rating_menu());
    res
}

/// The resolution menu entries.
pub fn resolution_options() -> (res: Vec<String>)
    ensures
        string_views(res@) == resolution_menu(),
{
    let res = vec![
        owned("1920x1080"),
        owned("2560x1440"),
        owned("3840x2160"),
        owned("Minimum 1920x1080"),
        owned("16:9"),
        owned("Custom"),
    ];
    assert(string_views(res@) =~= resolution_menu());
    res
}

/// Whether an amount may be asked for: it must be above zero; the
/// error is the message shown otherwise.
pub fn validate_amount(value: u32) -> (res: Result<(), String>)
    ensures
        res is Ok <==> value > 0,
        res matches Err(m) ==> m@ == "Amount must be greater than 0"@,
{
    if value == 0 {
        Err(owned("Amount must be greater than 0"))
    } else {
        Ok(())
    }
}

/// The save-location menu: the saved locations, then the entry that asks
/// for a new one.
pub fn directory_options(saved: &Vec<String>) -> (res: Vec<String>)
    ensures
        string_views(res@) == string_views(saved@).push(new_location_entry()),
{
    let mut res: Vec<String> = Vec::new();
    let mut i: usize = 0;
    while i < saved.len()
        invariant
            i <= saved.len(),
            string_views(res@) == string_views(saved@).take(i as int),
        decreases saved.len() - i,
    {
        let c = saved[i].clone();
        let ghost before = res@;
        res.push(c);
        assert(string_views(res@) =~= string_views(before).push(c@));
        assert(string_views(res@) =~= string_views(saved@).take(i + 1));
        i = i + 1;
    }
    let entry = owned("+ New location");
    let ghost before = res@;
    res.push(entry);
    assert(string_views(res@) =~= string_views(before).push(entry@));
    assert(string_views(saved@).take(saved.len() as int) =~= string_views(saved@));
    assert(string_views(res@) =~= string_views(saved@).push(new_location_entry()));
    res
}

/// The saved location at menu position `index`, or `None` when the entry
/// asking for a new location was chosen.
pub fn chosen_directory(saved: &Vec<String>, index: usize) -> (res: Option<String>)
    ensures
        index < saved.len() ==> res is Some && res->0@ == saved@[index as int]@,
        index >= saved.len() ==> res is None,
{
    if index < saved.len() {
        Some(saved[index].clone())
    } else {
        None
    }
}


// ───────────────────────── laws ─────────────────────────

/// An exact resolution written as its label (`WIDTHxHEIGHT`) reads back
/// as the same resolution.
pub proof fn law_resolution_label_parses_back(w: u32, h: u32)
    ensures
        parsed_resolution(resolution_label(Resolution::Exact(w, h))) == Resolution::Exact(w, h),
{
    reveal_strlit("x");
    let parts = seq![decimal(w as nat), decimal(h as nat)];
    lemma_decimal_digits(w as nat);
    lemma_decimal_digits(h as nat);
    assert forall|i: int| 0 <= i < parts.len() implies !(#[trigger] parts[i]).contains('x') by {
        if parts[i].contains('x') {
            let k = choose|k: int| 0 <= k < parts[i].len() && parts[i][k] == 'x';
            assert(all_digits(parts[i]));
            assert(is_digit(parts[i][k]));
        }
    }
    lemma_split_join(parts, 'x');
    assert(parts.drop_last() =~= seq![decimal(w as nat)]);
    assert(join(seq![decimal(w as nat)], seq!['x']) == decimal(w as nat));
    assert(join(parts, seq!['x']) == decimal(w as nat) + seq!['x'] + decimal(h as nat));
    assert("x"@ =~= seq!['x']);
    assert(join(parts, seq!['x']) =~= resolution_label(Resolution::Exact(w, h)));
    lemma_parse_decimal(w);
    lemma_parse_decimal(h);
}

} // verus!
