use vstd::prelude::*;

use crate::text::{chars_of, string_of};

verus! {

/// The operating systems whose paths and user data directories differ.
#[derive(Clone, Copy, Debug, PartialEq, Eq)]
pub enum Platform {
    Windows,
    MacOs,
    Other,
}

/// Whether `c` separates path components: `/` everywhere, and `\` as well on
/// Windows.
pub open spec fn is_separator(platform: Platform, c: char) -> bool {
    c == '/' || (platform is Windows && c == '\\')
}

/// The separator that joining inserts: `\` on Windows, `/` elsewhere.
pub open spec fn main_separator(platform: Platform) -> char {
    if platform is Windows {
        '\\'
    } else {
        '/'
    }
}

/// An ASCII letter.
pub open spec fn is_ascii_letter(c: char) -> bool {
    ('a' <= c && c <= 'z') || ('A' <= c && c <= 'Z')
}

/// A bare Windows drive, `X:`, after which joining adds no separator.
pub open spec fn is_bare_drive(s: Seq<char>) -> bool {
    s.len() == 2 && is_ascii_letter(s[0]) && s[1] == ':'
}

/// `base` joined with `name` as `Path::join` does it for a relative `name` that
/// holds no separator and a `base` that is not a verbatim (`\\?\`) path: `name`
/// alone for an empty base; no separator added after a base that ends in one or,
/// on Windows, after a bare drive; otherwise the platform's separator between them.
pub open spec fn spec_join_path(platform: Platform, base: Seq<char>, name: Seq<char>) -> Seq<char> {
    if base.len() == 0 || is_separator(platform, base.last()) || (platform is Windows
        && is_bare_drive(base)) {
        base + name
    } else {
        base + seq![main_separator(platform)] + name
    }
}

/// Joins `name` to `base` on `platform` (`spec_join_path`).
pub fn join_path(platform: Platform, base: &str, name: &str) -> (r: String)
    ensures
        r@ == spec_join_path(platform, base@, name@),
{
    let windows = match platform {
        Platform::Windows => true,
        _ => false,
    };
    let mut v = chars_of(base);
    let n = chars_of(name);
    if v.len() > 0 {
        let last = v[v.len() - 1];
        let ends_in_separator = last == '/' || (windows && last == '\\');
        let bare_drive = windows && v.len() == 2 && (('a' <= v[0] && v[0] <= 'z') || ('A' <= v[0]
            && v[0] <= 'Z')) && v[1] == ':';
        if !ends_in_separator && !bare_drive {
            v.push(
                if windows {
                    '\\'
                } else {
                    '/'
                },
            );
        }
    }
    let ghost before = v@;
    let mut i: usize = 0;
    while i < n.len()
        invariant
            i <= n@.len(),
            v@ == before + n@.take(i as int),
        decreases n@.len() - i,
    {
        assert(n@.take(i + 1) =~= n@.take(i as int).push(n@[i as int]));
        v.push(n[i]);
        i = i + 1;
    }
    assert(n@.take(n@.len() as int) =~= n@);
    assert(v@ =~= spec_join_path(platform, base@, name@));
    string_of(&v)
}

/// The path of the presenter's own database, `data.sqlite` in the saves directory.
pub fn get_data_db_path(platform: Platform, saves_dir: &str) -> (r: String)
    ensures
        r@ == spec_join_path(platform, saves_dir@, "data.sqlite"@),
{
    join_path(platform, saves_dir, "data.sqlite")
}

/// The saves directories to try, in order: `saves` beside the program, then
/// `church-presenter/saves` in the user's data directory.  Where neither is
/// writable, `saves` in the working directory (`saves_fallback`).
pub fn saves_dir_candidates(platform: Platform, exe_dir: Option<&str>, user_data_dir: Option<&str>) -> (r:
    Vec<String>)
    ensures
        r@.len() == (if exe_dir is Some { 1int } else { 0 }) + (if user_data_dir is Some {
            1int
        } else {
            0
        }),
        exe_dir matches Some(d) ==> r@[0]@ == spec_join_path(platform, d@, "saves"@),
        user_data_dir matches Some(u) ==> r@.last()@ == spec_join_path(
            platform,
            spec_join_path(platform, u@, "church-presenter"@),
            "saves"@,
        ),
{
    let mut r: Vec<String> = Vec::new();
    if let Some(d) = exe_dir {
        r.push(join_path(platform, d, "saves"));
    }
    if let Some(u) = user_data_dir {
        let base = join_path(platform, u, "church-presenter");
        r.push(join_path(platform, base.as_str(), "saves"));
    }
    r
}

/// The saves directory used where no other is writable: `saves`.
pub fn saves_fallback() -> (r: String)
    ensures
        r@ == "saves"@,
{
    string_of(&chars_of("saves"))
}

/// The user's data directory from the environment: `LOCALAPPDATA`, else `APPDATA`, on
/// Windows; `HOME/Library/Application Support` on macOS; elsewhere `XDG_DATA_HOME`,
/// else `HOME/.local/share`.
pub open spec fn spec_user_data_dir(
    platform: Platform,
    local_appdata: Option<Seq<char>>,
    appdata: Option<Seq<char>>,
    home: Option<Seq<char>>,
    xdg_data_home: Option<Seq<char>>,
) -> Option<Seq<char>> {
    match platform {
        Platform::Windows => match local_appdata {
            Some(d) => Some(d),
            None => appdata,
        },
        Platform::MacOs => match home {
            Some(h) => Some(
                spec_join_path(platform, spec_join_path(platform, h, "Library"@), "Application Support"@),
            ),
            None => None,
        },
        Platform::Other => match xdg_data_home {
            Some(d) => Some(d),
            None => match home {
                Some(h) => Some(spec_join_path(platform, spec_join_path(platform, h, ".local"@), "share"@)),
                None => None,
            },
        },
    }
}

/// The view of an optional string.
pub open spec fn opt_str(o: Option<&str>) -> Option<Seq<char>> {
    match o {
        Some(s) => Some(s@),
        None => None,
    }
}

/// The user's data directory from the environment's values (`spec_user_data_dir`).
pub fn user_data_dir(
    platform: Platform,
    local_appdata: Option<&str>,
    appdata: Option<&str>,
    home: Option<&str>,
    xdg_data_home: Option<&str>,
) -> (r: Option<String>)
    ensures
        match spec_user_data_dir(
            platform,
            opt_str(local_appdata),
            opt_str(appdata),
            opt_str(home),
            opt_str(xdg_data_home),
        ) {
            Some(d) => r matches Some(s) && s@ == d,
            None => r is None,
        },
{
    match platform {
        Platform::Windows => match local_appdata {
            Some(d) => Some(string_of(&chars_of(d))),
            None => match appdata {
                Some(d) => Some(string_of(&chars_of(d))),
                None => None,
            },
        },
        Platform::MacOs => match home {
            Some(h) => {
                let lib = join_path(platform, h, "Library");
                Some(join_path(platform, lib.as_str(), "Application Support"))
            },
            None => None,
        },
        Platform::Other => match xdg_data_home {
            Some(d) => Some(string_of(&chars_of(d))),
            None => match home {
                Some(h) => {
                    let local = join_path(platform, h, ".local");
                    Some(join_path(platform, local.as_str(), "share"))
                },
                None => None,
            },
        },
    }
}

/// The places to look for the Bible database, in order: `KJV.sqlite` in the saves
/// directory; beside the program and in `saves` beside it; then the platform's
/// further places.  The first is also where the bundled copy is written.
pub fn kjv_db_candidates(
    platform: Platform,
    saves_dir: &str,
    exe_dir: Option<&str>,
    platform_places: Vec<String>,
) -> (r: Vec<String>)
    ensures
        r@.len() == 1 + (if exe_dir is Some { 2int } else { 0 }) + platform_places@.len(),
        r@[0]@ == spec_join_path(platform, saves_dir@, "KJV.sqlite"@),
        exe_dir matches Some(d) ==> r@[1]@ == spec_join_path(platform, d@, "KJV.sqlite"@) && r@[2]@
            == spec_join_path(platform, spec_join_path(platform, d@, "saves"@), "KJV.sqlite"@),
        forall|i: int|
            0 <= i < platform_places@.len() ==> #[trigger] r@[r@.len() - platform_places@.len()
                + i] == platform_places@[i],
{
    let mut r: Vec<String> = Vec::new();
    r.push(join_path(platform, saves_dir, "KJV.sqlite"));
    if let Some(d) = exe_dir {
        r.push(join_path(platform, d, "KJV.sqlite"));
        let s = join_path(platform, d, "saves");
        r.push(join_path(platform, s.as_str(), "KJV.sqlite"));
    }
    let ghost start = r@.len();
    let mut places = platform_places;
    let ghost ps = places@;
    let mut rest: Vec<String> = Vec::new();
    std::mem::swap(&mut rest, &mut places);
    r.append(&mut rest);
    assert forall|i: int| 0 <= i < ps.len() implies #[trigger] r@[r@.len() - ps.len() + i]
        == ps[i] by {
        assert(r@[start + i] == ps[i]);
    }
    r
}

/// The position of the first `true`.
pub open spec fn first_true(s: Seq<bool>) -> Option<int>
    decreases s.len(),
{
    if s.len() == 0 {
        None
    } else if s[0] {
        Some(0)
    } else {
        match first_true(s.drop_first()) {
            Some(i) => Some(i + 1),
            None => None,
        }
    }
}

/// The first `true` is at `i` when it is `true` and none before it is.
pub proof fn lemma_first_true(s: Seq<bool>, i: int)
    requires
        0 <= i <= s.len(),
        forall|j: int| 0 <= j < i ==> !s[j],
    ensures
        i < s.len() && s[i] ==> first_true(s) == Some(i),
        i == s.len() ==> first_true(s) is None,
    decreases i,
{
    if i > 0 {
        lemma_first_true(s.drop_first(), i - 1);
    }
}

/// The first place found, by the answers `found[i]` for `candidates[i]`; where none
/// is, the first place, to which the bundled database is written (`true`).
pub fn choose_kjv_db_path(candidates: &Vec<String>, found: &Vec<bool>) -> (r: (String, bool))
    requires
        candidates@.len() > 0,
        found@.len() == candidates@.len(),
    ensures
        match first_true(found@) {
            Some(i) => r.0@ == candidates@[i]@ && !r.1,
            None => r.0@ == candidates@[0]@ && r.1,
        },
{
    let mut i: usize = 0;
    while i < found.len()
        invariant
            i <= found@.len() == candidates@.len(),
            forall|j: int| 0 <= j < i ==> !found@[j],
        decreases found@.len() - i,
    {
        if found[i] {
            proof {
                lemma_first_true(found@, i as int);
            }
            return (candidates[i].clone(), false);
        }
        i = i + 1;
    }
    proof {
        lemma_first_true(found@, i as int);
    }
    (candidates[0].clone(), true)
}

} // verus!
