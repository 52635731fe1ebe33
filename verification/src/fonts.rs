//! Monospace font selection for grid views (SQL editor, table preview,
//! terminal): fonts that only serve as CJK or emoji fallbacks are refused as a
//! primary family, and a family that is not installed is replaced by the
//! first installed candidate of the platform.
use vstd::prelude::*;

use crate::text::{
    eq_ignore_ascii_case, eq_ignore_ascii_case_spec, lemma_trim_idempotent, trim, trim_spec,
};

verus! {

/// The operating system whose font conventions apply.
#[derive(Debug, Clone, Copy, PartialEq, Eq, Structural)]
pub enum Platform {
    MacOs,
    Windows,
    Other,
}

/// The platform's default monospace family for grid views.
pub open spec fn default_grid_font(p: Platform) -> Seq<char> {
    match p {
        Platform::MacOs => "Menlo"@,
        Platform::Windows => "Consolas"@,
        Platform::Other => "DejaVu Sans Mono"@,
    }
}

/// Families that exist to supply CJK or emoji glyphs and make poor primary
/// grid fonts.
pub open spec fn fallback_only_fonts() -> Seq<Seq<char>> {
    seq![
        "Apple Color Emoji"@,
        "Apple Symbols"@,
        "Heiti SC"@,
        "Hiragino Sans GB"@,
        "Kaiti SC"@,
        "Microsoft YaHei"@,
        "Noto Color Emoji"@,
        "Noto Sans CJK SC"@,
        "Noto Sans Mono CJK SC"@,
        "Noto Sans SC"@,
        "Noto Serif CJK SC"@,
        "PingFang SC"@,
        "PingFang TC"@,
        "Segoe UI Emoji"@,
        "SimSun"@,
        "Songti SC"@,
        "Source Han Mono SC"@,
        "Source Han Sans SC"@,
        "WenQuanYi Micro Hei"@,
    ]
}

/// The families tried, in order, when the requested one is not installed.
pub open spec fn grid_candidates(p: Platform) -> Seq<Seq<char>> {
    match p {
        Platform::MacOs => seq![
            "Menlo"@,
            "Monaco"@,
            "SF Mono"@,
            "Courier New"@,
            "Fira Code"@,
            "JetBrains Mono"@,
            "Source Code Pro"@,
            "Cascadia Code"@,
            "Hack"@,
            "IBM Plex Mono"@,
        ],
        Platform::Windows => seq![
            "Consolas"@,
            "Cascadia Mono"@,
            "Cascadia Code"@,
            "Courier New"@,
            "Lucida Console"@,
            "Fira Code"@,
            "JetBrains Mono"@,
            "Source Code Pro"@,
            "Hack"@,
            "IBM Plex Mono"@,
        ],
        Platform::Other => seq![
            "DejaVu Sans Mono"@,
            "Ubuntu Mono"@,
            "Liberation Mono"@,
            "Courier New"@,
            "Fira Code"@,
            "JetBrains Mono"@,
            "Source Code Pro"@,
            "Cascadia Code"@,
            "Hack"@,
            "IBM Plex Mono"@,
        ],
    }
}

/// The fallback chain attached to grid fonts, CJK families before symbol fonts.
pub open spec fn grid_fallback_families(p: Platform) -> Seq<Seq<char>> {
    match p {
        Platform::MacOs => seq![
            "PingFang SC"@,
            "PingFang TC"@,
            "Hiragino Sans GB"@,
            "Noto Sans CJK SC"@,
            "Noto Sans Mono CJK SC"@,
            "Source Han Sans SC"@,
            "Source Han Mono SC"@,
            "Apple Color Emoji"@,
            "Apple Symbols"@,
        ],
        Platform::Windows => seq![
            "Microsoft YaHei"@,
            "SimSun"@,
            "Noto Sans CJK SC"@,
            "Noto Sans Mono CJK SC"@,
            "Source Han Sans SC"@,
            "Source Han Mono SC"@,
            "Segoe UI Emoji"@,
        ],
        Platform::Other => seq![
            "Noto Sans CJK SC"@,
            "Noto Sans Mono CJK SC"@,
            "Source Han Sans SC"@,
            "Source Han Mono SC"@,
            "WenQuanYi Micro Hei"@,
            "Noto Color Emoji"@,
        ],
    }
}

/// The trimmed family names a fallback-only font under ASCII case folding.
pub open spec fn is_fallback_only(font: Seq<char>) -> bool {
    exists|i: int|
        0 <= i < fallback_only_fonts().len() && eq_ignore_ascii_case_spec(
            #[trigger] fallback_only_fonts()[i],
            trim_spec(font),
        )
}

/// A family is usable in a grid when, trimmed, it is not empty and not a
/// fallback-only font.
pub open spec fn is_supported_grid_font(font: Seq<char>) -> bool {
    trim_spec(font).len() > 0 && !is_fallback_only(trim_spec(font))
}

/// The trimmed family when it is usable, else the platform default.
pub open spec fn normalized_grid_font(font: Seq<char>, p: Platform) -> Seq<char> {
    if is_supported_grid_font(trim_spec(font)) {
        trim_spec(font)
    } else {
        default_grid_font(p)
    }
}

/// The trimmed family is not empty and matches, ignoring ASCII case, some
/// trimmed installed family.
pub open spec fn is_installed(font: Seq<char>, installed: Seq<Seq<char>>) -> bool {
    &&& trim_spec(font).len() > 0
    &&& exists|i: int|
        0 <= i < installed.len() && eq_ignore_ascii_case_spec(
            trim_spec(#[trigger] installed[i]),
            trim_spec(font),
        )
}

/// The first candidate that is installed.
pub open spec fn first_installed(cands: Seq<Seq<char>>, installed: Seq<Seq<char>>) -> Option<
    Seq<char>,
>
    decreases cands.len(),
{
    if cands.len() == 0 {
        None
    } else if is_installed(cands[0], installed) {
        Some(cands[0])
    } else {
        first_installed(cands.subrange(1, cands.len() as int), installed)
    }
}

/// The family a grid view actually uses: the normalized request when it is
/// installed, else the first installed candidate of the platform, else the
/// platform default.
pub open spec fn resolved_grid_font(font: Seq<char>, installed: Seq<Seq<char>>, p: Platform) -> Seq<
    char,
> {
    let n = normalized_grid_font(font, p);
    if is_installed(n, installed) {
        n
    } else {
        match first_installed(grid_candidates(p), installed) {
            Some(c) => c,
            None => default_grid_font(p),
        }
    }
}

proof fn lemma_first_installed(cands: Seq<Seq<char>>, installed: Seq<Seq<char>>)
    ensures
        match first_installed(cands, installed) {
            Some(c) => is_installed(c, installed) && exists|i: int|
                0 <= i < cands.len() && #[trigger] cands[i] == c && forall|j: int|
                    0 <= j < i ==> !is_installed(#[trigger] cands[j], installed),
            None => forall|j: int| 0 <= j < cands.len() ==> !is_installed(#[trigger] cands[j], installed),
        },
    decreases cands.len(),
{
    if cands.len() > 0 && !is_installed(cands[0], installed) {
        let rest = cands.subrange(1, cands.len() as int);
        lemma_first_installed(rest, installed);
        match first_installed(rest, installed) {
            Some(c) => {
                let i = choose|i: int|
                    0 <= i < rest.len() && #[trigger] rest[i] == c && forall|j: int|
                        0 <= j < i ==> !is_installed(#[trigger] rest[j], installed);
                assert(cands[i + 1] == c);
                assert forall|j: int| 0 <= j < i + 1 implies !is_installed(#[trigger] cands[j], installed) by {
                    if j > 0 {
                        assert(cands[j] == rest[j - 1]);
                    }
                }
            },
            None => {
                assert forall|j: int| 0 <= j < cands.len() implies !is_installed(#[trigger] cands[j], installed) by {
                    if j > 0 {
                        assert(cands[j] == rest[j - 1]);
                    }
                }
            },
        }
    } else if cands.len() > 0 {
        assert(cands[0] == cands[0]);
    }
}

/// The font a grid view uses is the requested one (normalized) when that is
/// installed; otherwise the first of the platform's candidates that is
/// installed; and the platform default only when none of them is.
pub proof fn lemma_resolved_font_is_installed(font: Seq<char>, installed: Seq<Seq<char>>, p: Platform)
    ensures
        is_installed(normalized_grid_font(font, p), installed) ==> resolved_grid_font(font, installed, p)
            == normalized_grid_font(font, p),
        is_installed(resolved_grid_font(font, installed, p), installed) || (resolved_grid_font(
            font,
            installed,
            p,
        ) == default_grid_font(p) && forall|j: int|
            0 <= j < grid_candidates(p).len() ==> !is_installed(
                #[trigger] grid_candidates(p)[j],
                installed,
            )),
        !is_installed(normalized_grid_font(font, p), installed) && is_installed(
            resolved_grid_font(font, installed, p),
            installed,
        ) ==> exists|i: int|
            0 <= i < grid_candidates(p).len() && #[trigger] grid_candidates(p)[i]
                == resolved_grid_font(font, installed, p) && forall|j: int|
                0 <= j < i ==> !is_installed(#[trigger] grid_candidates(p)[j], installed),
{
    lemma_first_installed(grid_candidates(p), installed);
}

pub open spec fn string_views(s: Seq<String>) -> Seq<Seq<char>> {
    s.map_values(|x: String| x@)
}

pub open spec fn str_views(s: Seq<&str>) -> Seq<Seq<char>> {
    s.map_values(|x: &str| x@)
}

pub fn default_grid_monospace_font_family(platform: Platform) -> (r: &'static str)
    ensures
        r@ == default_grid_font(platform),
{
    match platform {
        Platform::MacOs => "Menlo",
        Platform::Windows => "Consolas",
        Platform::Other => "DejaVu Sans Mono",
    }
}

fn fallback_only_font_list() -> (r: Vec<&'static str>)
    ensures
        str_views(r@) == fallback_only_fonts(),
{
    let mut v: Vec<&'static str> = Vec::new();
    v.push("Apple Color Emoji");
    v.push("Apple Symbols");
    v.push("Heiti SC");
    v.push("Hiragino Sans GB");
    v.push("Kaiti SC");
    v.push("Microsoft YaHei");
    v.push("Noto Color Emoji");
    v.push("Noto Sans CJK SC");
    v.push("Noto Sans Mono CJK SC");
    v.push("Noto Sans SC");
    v.push("Noto Serif CJK SC");
    v.push("PingFang SC");
    v.push("PingFang TC");
    v.push("Segoe UI Emoji");
    v.push("SimSun");
    v.push("Songti SC");
    v.push("Source Han Mono SC");
    v.push("Source Han Sans SC");
    v.push("WenQuanYi Micro Hei");
    proof {
        assert(str_views(v@) =~= fallback_only_fonts());
    }
    v
}

fn grid_monospace_resolution_candidates(platform: Platform) -> (r: Vec<&'static str>)
    ensures
        str_views(r@) == grid_candidates(platform),
{
    let mut v: Vec<&'static str> = Vec::new();
    match platform {
        Platform::MacOs => {
            v.push("Menlo");
            v.push("Monaco");
            v.push("SF Mono");
            v.push("Courier New");
            v.push("Fira Code");
            v.push("JetBrains Mono");
            v.push("Source Code Pro");
            v.push("Cascadia Code");
            v.push("Hack");
            v.push("IBM Plex Mono");
        },
        Platform::Windows => {
            v.push("Consolas");
            v.push("Cascadia Mono");
            v.push("Cascadia Code");
            v.push("Courier New");
            v.push("Lucida Console");
            v.push("Fira Code");
            v.push("JetBrains Mono");
            v.push("Source Code Pro");
            v.push("Hack");
            v.push("IBM Plex Mono");
        },
        Platform::Other => {
            v.push("DejaVu Sans Mono");
            v.push("Ubuntu Mono");
            v.push("Liberation Mono");
            v.push("Courier New");
            v.push("Fira Code");
            v.push("JetBrains Mono");
            v.push("Source Code Pro");
            v.push("Cascadia Code");
            v.push("Hack");
            v.push("IBM Plex Mono");
        },
    }
    proof {
        assert(str_views(v@) =~= grid_candidates(platform));
    }
    v
}

/// The fallback families attached to every grid font of the platform.
pub fn default_grid_font_fallback_families(platform: Platform) -> (r: Vec<String>)
    ensures
        string_views(r@) == grid_fallback_families(platform),
{
    let mut v: Vec<String> = Vec::new();
    match platform {
        Platform::MacOs => {
            v.push(String::from_str("PingFang SC"));
            v.push(String::from_str("PingFang TC"));
            v.push(String::from_str("Hiragino Sans GB"));
            v.push(String::from_str("Noto Sans CJK SC"));
            v.push(String::from_str("Noto Sans Mono CJK SC"));
            v.push(String::from_str("Source Han Sans SC"));
            v.push(String::from_str("Source Han Mono SC"));
            v.push(String::from_str("Apple Color Emoji"));
            v.push(String::from_str("Apple Symbols"));
        },
        Platform::Windows => {
            v.push(String::from_str("Microsoft YaHei"));
            v.push(String::from_str("SimSun"));
            v.push(String::from_str("Noto Sans CJK SC"));
            v.push(String::from_str("Noto Sans Mono CJK SC"));
            v.push(String::from_str("Source Han Sans SC"));
            v.push(String::from_str("Source Han Mono SC"));
            v.push(String::from_str("Segoe UI Emoji"));
        },
        Platform::Other => {
            v.push(String::from_str("Noto Sans CJK SC"));
            v.push(String::from_str("Noto Sans Mono CJK SC"));
            v.push(String::from_str("Source Han Sans SC"));
            v.push(String::from_str("Source Han Mono SC"));
            v.push(String::from_str("WenQuanYi Micro Hei"));
            v.push(String::from_str("Noto Color Emoji"));
        },
    }
    proof {
        assert(string_views(v@) =~= grid_fallback_families(platform));
    }
    v
}

fn is_fallback_only_grid_font(font: &str) -> (r: bool)
    ensures
        r == is_fallback_only(font@),
{
    let list = fallback_only_font_list();
    let ghost orig = font@;
    let trimmed = trim(font);
    let n = list.len();
    let mut i: usize = 0;
    while i < n
        invariant
            n == list@.len(),
            str_views(list@) == fallback_only_fonts(),
            trimmed@ == trim_spec(orig),
            orig == font@,
            i <= n,
            forall|k: int|
                0 <= k < i ==> !eq_ignore_ascii_case_spec(
                    #[trigger] fallback_only_fonts()[k],
                    trimmed@,
                ),
        decreases n - i,
    {
        if eq_ignore_ascii_case(list[i], trimmed) {
            proof {
                assert(fallback_only_fonts()[i as int] == list@[i as int]@);
                assert(eq_ignore_ascii_case_spec(fallback_only_fonts()[i as int], trim_spec(orig)));
                assert(is_fallback_only(orig));
            }
            return true;
        }
        proof {
            assert(fallback_only_fonts()[i as int] == list@[i as int]@);
        }
        i = i + 1;
    }
    false
}

pub fn is_supported_grid_monospace_font(font: &str) -> (r: bool)
    ensures
        r == is_supported_grid_font(font@),
{
    let font = trim(font);
    !font.is_empty() && !is_fallback_only_grid_font(font)
}

pub fn normalize_grid_monospace_font_family(font: &str, platform: Platform) -> (r: String)
    ensures
        r@ == normalized_grid_font(font@, platform),
{
    let font = trim(font);
    if is_supported_grid_monospace_font(font) {
        return String::from_str(font);
    }
    String::from_str(default_grid_monospace_font_family(platform))
}

pub fn is_installed_font_family(font: &str, installed_font_names: &[String]) -> (r: bool)
    ensures
        r == is_installed(font@, string_views(installed_font_names@)),
{
    let ghost inst = string_views(installed_font_names@);
    let ghost orig = font@;
    let trimmed = trim(font);
    proof {
        lemma_trim_idempotent(orig);
    }
    if trimmed.is_empty() {
        return false;
    }
    let n = installed_font_names.len();
    let mut i: usize = 0;
    while i < n
        invariant
            n == installed_font_names@.len(),
            inst == string_views(installed_font_names@),
            trim_spec(trimmed@) == trimmed@,
            trimmed@ == trim_spec(orig),
            trimmed@.len() > 0,
            orig == font@,
            i <= n,
            forall|k: int|
                0 <= k < i ==> !eq_ignore_ascii_case_spec(trim_spec(#[trigger] inst[k]), trimmed@),
        decreases n - i,
    {
        let name = trim(installed_font_names[i].as_str());
        if eq_ignore_ascii_case(name, trimmed) {
            proof {
                assert(inst[i as int] == installed_font_names@[i as int]@);
                assert(eq_ignore_ascii_case_spec(trim_spec(inst[i as int]), trim_spec(orig)));
                assert(is_installed(orig, inst));
            }
            return true;
        }
        proof {
            assert(inst[i as int] == installed_font_names@[i as int]@);
        }
        i = i + 1;
    }
    false
}

pub fn resolve_installed_grid_monospace_font_family(
    font_family: &str,
    installed_font_names: &[String],
    platform: Platform,
) -> (r: String)
    ensures
        r@ == resolved_grid_font(font_family@, string_views(installed_font_names@), platform),
{
    let ghost inst = string_views(installed_font_names@);
    let normalized = normalize_grid_monospace_font_family(font_family, platform);
    if is_installed_font_family(normalized.as_str(), installed_font_names) {
        return normalized;
    }
    let cands = grid_monospace_resolution_candidates(platform);
    let ghost cs = str_views(cands@);
    let n = cands.len();
    let mut i: usize = 0;
    proof {
        assert(cs.subrange(0, n as int) =~= cs);
    }
    while i < n
        invariant
            n == cands@.len(),
            cs == str_views(cands@),
            cs == grid_candidates(platform),
            inst == string_views(installed_font_names@),
            !is_installed(normalized@, inst),
            normalized@ == normalized_grid_font(font_family@, platform),
            i <= n,
            first_installed(cs, inst) == first_installed(cs.subrange(i as int, n as int), inst),
        decreases n - i,
    {
        let ghost rest = cs.subrange(i as int, n as int);
        proof {
            assert(rest[0] == cands@[i as int]@);
        }
        if is_installed_font_family(cands[i], installed_font_names) {
            proof {
                assert(first_installed(rest, inst) == Some(rest[0]));
            }
            return String::from_str(cands[i]);
        }
        proof {
            assert(rest.subrange(1, rest.len() as int) =~= cs.subrange(i + 1, n as int));
        }
        i = i + 1;
    }
    proof {
        assert(cs.subrange(n as int, n as int).len() == 0);
    }
    String::from_str(default_grid_monospace_font_family(platform))
}

/// A grid font: the family to draw with and the families to fall back on.
#[derive(Debug)]
pub struct GridFont {
    pub family: String,
    pub fallbacks: Vec<String>,
}

/// The grid font for a configured family: the family normalized for grid
/// use, with the platform's fallback families.
pub fn grid_monospace_font(font_family: &str, platform: Platform) -> (r: GridFont)
    ensures
        r.family@ == normalized_grid_font(font_family@, platform),
        string_views(r.fallbacks@) == grid_fallback_families(platform),
{
    GridFont {
        family: normalize_grid_monospace_font_family(font_family, platform),
        fallbacks: default_grid_font_fallback_families(platform),
    }
}

/// The grid font for a configured family resolved against the installed
/// fonts, with the platform's fallback families.
pub fn installed_grid_monospace_font(
    font_family: &str,
    installed_font_names: &[String],
    platform: Platform,
) -> (r: GridFont)
    ensures
        r.family@ == resolved_grid_font(font_family@, string_views(installed_font_names@), platform),
        string_views(r.fallbacks@) == grid_fallback_families(platform),
{
    GridFont {
        family: resolve_installed_grid_monospace_font_family(font_family, installed_font_names, platform),
        fallbacks: default_grid_font_fallback_families(platform),
    }
}

} // verus!
