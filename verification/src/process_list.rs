//! Process classification: which running processes are system or background
//! services, which windows belong to shell infrastructure, and how an
//! application's audio track is named and rooted.
use vstd::prelude::*;
use crate::editor::slice_range;
use crate::sorting::{key_order, spec_char_vecs, spec_is_key_order};
use crate::paths::{file_name, spec_file_name};
use crate::text::{
    chars_of, to_lowercase, is_one_of, starts_with_one_of, contains_one_of, ends_with,
    string_from_chars, spec_lowercase, spec_strs, spec_is_ascii, spec_ascii_lowercase,
    spec_eq_ignore_ascii_case, spec_starts_with, spec_contains, spec_ends_with,
    owned,
};

verus! {

/// A running process offered to the user.
#[derive(Clone, Debug)]
pub struct ProcessInfo {
    pub pid: u32,
    pub name: String,
    pub exe: String,
}

/// An application owning a visible window, captured on its own audio track.
#[derive(Clone, Debug)]
pub struct VisibleApp {
    /// Root process id of the application's process tree.
    pub pid: u32,
    /// Track label derived from the executable file name.
    pub name: String,
}

/// Windows system directories (lowercase).
pub open spec fn spec_system_dirs() -> Seq<Seq<char>> {
    seq![
        "c:\\windows\\system32\\"@,
        "c:\\windows\\syswow64\\"@,
        "c:\\windows\\winsxs\\"@,
        "c:\\windows\\systemapps\\"@,
    ]
}

/// Core Windows processes, by exact lowercase name.
pub open spec fn spec_system_process_names() -> Seq<Seq<char>> {
    seq![
        "svchost.exe"@, "conhost.exe"@, "runtimebroker.exe"@, "searchindexer.exe"@,
        "searchhost.exe"@, "backgroundtaskhost.exe"@, "dwm.exe"@, "winlogon.exe"@, "csrss.exe"@,
        "lsass.exe"@, "smss.exe"@, "wininit.exe"@, "spoolsv.exe"@, "taskhostw.exe"@,
        "taskeng.exe"@, "services.exe"@, "registry"@, "system"@, "idle"@, "fontdrvhost.exe"@,
        "sihost.exe"@, "ctfmon.exe"@, "dllhost.exe"@, "msdtc.exe"@, "lsm.exe"@, "wermgr.exe"@,
        "werfault.exe"@, "vssvc.exe"@, "audiodg.exe"@, "wmiprvse.exe"@, "wbengine.exe"@,
        "securityhealthservice.exe"@, "securityhealthsystray.exe"@, "wsappx"@, "mssense.exe"@,
        "sensorservice.exe"@, "unsecapp.exe"@, "ipfsvc.exe"@,
    ]
}

/// Name prefixes of background updaters and helpers.
pub open spec fn spec_background_prefixes() -> Seq<Seq<char>> {
    seq!["microsoft."@, "windows."@, "msedgeupdate"@, "msedgewebview2"@]
}

/// Name fragments of crash handlers and installers.
pub open spec fn spec_background_keywords() -> Seq<Seq<char>> {
    seq!["crashhandler"@, "uninstall"@, "installer"@]
}

/// Background classification of a lowercase process name and executable
/// path: anything under a system directory, a core Windows process, a known
/// background prefix or keyword, or a name without `.exe`.
pub open spec fn spec_is_background_lower(name: Seq<char>, exe: Seq<char>) -> bool {
    ||| (exists|i: int| 0 <= i < 4 && spec_starts_with(exe, #[trigger] spec_system_dirs()[i]))
    ||| spec_system_process_names().contains(name)
    ||| (exists|i: int|
        0 <= i < 4 && spec_starts_with(name, #[trigger] spec_background_prefixes()[i]))
    ||| (exists|i: int|
        0 <= i < 3 && spec_contains(name, #[trigger] spec_background_keywords()[i]))
    ||| !spec_ends_with(name, ".exe"@)
}

/// For ASCII names and paths the background classification ignores case:
/// names and paths equal up to ASCII case are classified alike.
pub proof fn lemma_background_ignores_ascii_case(n1: Seq<char>, e1: Seq<char>, n2: Seq<char>, e2: Seq<char>)
    requires
        spec_eq_ignore_ascii_case(n1, n2),
        spec_eq_ignore_ascii_case(e1, e2),
    ensures
        spec_is_background_lower(spec_ascii_lowercase(n1), spec_ascii_lowercase(e1))
            == spec_is_background_lower(spec_ascii_lowercase(n2), spec_ascii_lowercase(e2)),
{
    assert(spec_ascii_lowercase(n1) =~= spec_ascii_lowercase(n2));
    assert(spec_ascii_lowercase(e1) =~= spec_ascii_lowercase(e2));
}

/// Whether a process is a background or system service that the user would
/// never want to mute or capture separately (compared case-insensitively).
pub fn is_background_process(name: &str, exe: &str) -> (r: bool)
    ensures
        r == spec_is_background_lower(spec_lowercase(name@), spec_lowercase(exe@)),
        spec_is_ascii(name@) && spec_is_ascii(exe@) ==> r == spec_is_background_lower(
            spec_ascii_lowercase(name@),
            spec_ascii_lowercase(exe@),
        ),
{
    let name_lower = to_lowercase(name);
    let exe_lower = to_lowercase(exe);
    let n = chars_of(name_lower.as_str());
    let e = chars_of(exe_lower.as_str());

    let dirs = vec![
        "c:\\windows\\system32\\",
        "c:\\windows\\syswow64\\",
        "c:\\windows\\winsxs\\",
        "c:\\windows\\systemapps\\",
    ];
    assert(spec_strs(dirs@) =~= spec_system_dirs());
    let in_system_dir = starts_with_one_of(e.as_slice(), dirs.as_slice());
    proof {
        if in_system_dir {
            let j = choose|j: int| 0 <= j < dirs@.len() && spec_starts_with(e@, #[trigger] dirs@[j]@);
            assert(spec_system_dirs()[j] == dirs@[j]@);
        } else {
            assert forall|i: int| 0 <= i < 4 implies !spec_starts_with(e@, #[trigger] spec_system_dirs()[i]) by {
                assert(spec_system_dirs()[i] == dirs@[i]@);
            }
        }
    }
    if in_system_dir {
        return true;
    }

    let names = vec![
        "svchost.exe", "conhost.exe", "runtimebroker.exe", "searchindexer.exe",
        "searchhost.exe", "backgroundtaskhost.exe", "dwm.exe", "winlogon.exe", "csrss.exe",
        "lsass.exe", "smss.exe", "wininit.exe", "spoolsv.exe", "taskhostw.exe",
        "taskeng.exe", "services.exe", "registry", "system", "idle", "fontdrvhost.exe",
        "sihost.exe", "ctfmon.exe", "dllhost.exe", "msdtc.exe", "lsm.exe", "wermgr.exe",
        "werfault.exe", "vssvc.exe", "audiodg.exe", "wmiprvse.exe", "wbengine.exe",
        "securityhealthservice.exe", "securityhealthsystray.exe", "wsappx", "mssense.exe",
        "sensorservice.exe", "unsecapp.exe", "ipfsvc.exe",
    ];
    assert(spec_strs(names@) =~= spec_system_process_names());
    if is_one_of(n.as_slice(), names.as_slice()) {
        return true;
    }

    let prefixes = vec!["microsoft.", "windows.", "msedgeupdate", "msedgewebview2"];
    assert(spec_strs(prefixes@) =~= spec_background_prefixes());
    let has_prefix = starts_with_one_of(n.as_slice(), prefixes.as_slice());
    proof {
        if has_prefix {
            let j = choose|j: int|
                0 <= j < prefixes@.len() && spec_starts_with(n@, #[trigger] prefixes@[j]@);
            assert(spec_background_prefixes()[j] == prefixes@[j]@);
        } else {
            assert forall|i: int| 0 <= i < 4 implies !spec_starts_with(n@, #[trigger] spec_background_prefixes()[i]) by {
                assert(spec_background_prefixes()[i] == prefixes@[i]@);
            }
        }
    }
    if has_prefix {
        return true;
    }

    let keywords = vec!["crashhandler", "uninstall", "installer"];
    assert(spec_strs(keywords@) =~= spec_background_keywords());
    let has_keyword = contains_one_of(n.as_slice(), keywords.as_slice());
    proof {
        if has_keyword {
            let j = choose|j: int|
                0 <= j < keywords@.len() && spec_contains(n@, #[trigger] keywords@[j]@);
            assert(spec_background_keywords()[j] == keywords@[j]@);
        } else {
            assert forall|i: int| 0 <= i < 3 implies !spec_contains(n@, #[trigger] spec_background_keywords()[i]) by {
                assert(spec_background_keywords()[i] == keywords@[i]@);
            }
        }
    }
    if has_keyword {
        return true;
    }

    !ends_with(n.as_slice(), chars_of(".exe").as_slice())
}

/// Whether a lowercase executable path lies in a Windows system directory
/// (`system32`, `syswow64` or `winsxs`).
pub open spec fn spec_is_windows_dir(exe_lower: Seq<char>) -> bool {
    ||| spec_starts_with(exe_lower, "c:\\windows\\system32\\"@)
    ||| spec_starts_with(exe_lower, "c:\\windows\\syswow64\\"@)
    ||| spec_starts_with(exe_lower, "c:\\windows\\winsxs\\"@)
}

/// Whether a lowercase executable path lies in a Windows system directory.
pub fn is_windows_dir(exe_lower: &str) -> (r: bool)
    ensures
        r == spec_is_windows_dir(exe_lower@),
{
    let e = chars_of(exe_lower);
    let dirs = vec!["c:\\windows\\system32\\", "c:\\windows\\syswow64\\", "c:\\windows\\winsxs\\"];
    let r = starts_with_one_of(e.as_slice(), dirs.as_slice());
    proof {
        if r {
            let j = choose|j: int| 0 <= j < dirs@.len() && spec_starts_with(e@, #[trigger] dirs@[j]@);
            assert(j == 0 || j == 1 || j == 2);
        } else {
            assert(!spec_starts_with(e@, dirs@[0]@));
            assert(!spec_starts_with(e@, dirs@[1]@));
            assert(!spec_starts_with(e@, dirs@[2]@));
        }
    }
    r
}

/// Executables of Windows shell infrastructure and embedded web-view hosts
/// (and this tool itself), without `.exe`.
pub open spec fn spec_shell_denylist() -> Seq<Seq<char>> {
    seq![
        "applicationframehost"@, "textinputhost"@, "searchhost"@, "shellexperiencehost"@,
        "startmenuexperiencehost"@, "runtimebroker"@, "widgets"@, "widgetservice"@,
        "msedgewebview2"@, "systemsettings"@, "lockapp"@, "explorer"@, "clip-tool"@,
    ]
}

/// Whether a lowercase executable file name is shell infrastructure: a
/// denylisted name, with or without `.exe`.
pub open spec fn spec_is_shell_executable(fname: Seq<char>) -> bool {
    exists|i: int|
        0 <= i < spec_shell_denylist().len() && (fname == #[trigger] spec_shell_denylist()[i]
            || fname == spec_shell_denylist()[i] + ".exe"@)
}

/// Whether a lowercase executable file name is shell infrastructure.
pub fn is_shell_executable(fname: &str) -> (r: bool)
    ensures
        r == spec_is_shell_executable(fname@),
{
    let f = chars_of(fname);
    let list = vec![
        "applicationframehost", "textinputhost", "searchhost", "shellexperiencehost",
        "startmenuexperiencehost", "runtimebroker", "widgets", "widgetservice",
        "msedgewebview2", "systemsettings", "lockapp", "explorer", "clip-tool",
    ];
    assert(spec_strs(list@) =~= spec_shell_denylist());
    let mut i: usize = 0;
    while i < list.len()
        invariant
            i <= list@.len(),
            spec_strs(list@) == spec_shell_denylist(),
            f@ == fname@,
            forall|j: int|
                0 <= j < i ==> !(f@ == #[trigger] spec_shell_denylist()[j] || f@
                    == spec_shell_denylist()[j] + ".exe"@),
        decreases list@.len() - i,
    {
        assert(spec_shell_denylist()[i as int] == list@[i as int]@);
        let w = chars_of(list[i]);
        let mut w_exe = w.clone();
        let ghost before = w_exe@;
        let suffix = chars_of(".exe");
        let mut k: usize = 0;
        while k < suffix.len()
            invariant
                k <= suffix@.len(),
                w_exe@ == before + suffix@.subrange(0, k as int),
            decreases suffix@.len() - k,
        {
            w_exe.push(suffix[k]);
            assert(suffix@.subrange(0, k + 1) == suffix@.subrange(0, k as int).push(suffix@[k as int]));
            k = k + 1;
        }
        assert(suffix@.subrange(0, suffix@.len() as int) == suffix@);
        if crate::text::chars_eq(f.as_slice(), w.as_slice()) || crate::text::chars_eq(
            f.as_slice(),
            w_exe.as_slice(),
        ) {
            return true;
        }
        i = i + 1;
    }
    false
}

/// `s` with every trailing `.exe` removed.
pub open spec fn spec_trim_exe(s: Seq<char>) -> Seq<char>
    decreases s.len(),
{
    if s.len() >= 4 && spec_ends_with(s, ".exe"@) {
        spec_trim_exe(s.subrange(0, s.len() - 4))
    } else {
        s
    }
}

/// The audio-track label of an executable file name: the name with every
/// trailing `.exe` removed.
pub fn track_name_for_executable(fname: &str) -> (r: String)
    ensures
        r@ == spec_trim_exe(fname@),
{
    let f = chars_of(fname);
    let suffix = chars_of(".exe");
    proof {
        reveal_strlit(".exe");
    }
    let mut n = f.len();
    assert(f@.subrange(0, n as int) == f@);
    loop
        invariant
            n <= f@.len(),
            suffix@ == ".exe"@,
            suffix@.len() == 4,
            spec_trim_exe(fname@) == spec_trim_exe(f@.subrange(0, n as int)),
        ensures
            n <= f@.len(),
            spec_trim_exe(fname@) == f@.subrange(0, n as int),
        decreases n,
    {
        let ghost cur = f@.subrange(0, n as int);
        if n < 4 {
            assert(spec_trim_exe(cur) == cur);
            break;
        }
        let mut matches = true;
        let mut k: usize = 0;
        while k < 4
            invariant
                4 <= n <= f@.len(),
                suffix@ == ".exe"@,
                suffix@.len() == 4,
                k <= 4,
                matches == (forall|m: int| 0 <= m < k ==> f@[n - 4 + m] == suffix@[m]),
            decreases 4 - k,
        {
            if f[n - 4 + k] != suffix[k] {
                matches = false;
            }
            k = k + 1;
        }
        proof {
            assert(cur.subrange(cur.len() - 4, cur.len() as int) =~= f@.subrange(n - 4, n as int));
            if matches {
                assert(f@.subrange(n - 4, n as int) =~= suffix@);
            } else {
                assert(f@.subrange(n - 4, n as int) != suffix@) by {
                    let m = choose|m: int| 0 <= m < 4 && f@[n - 4 + m] != suffix@[m];
                    assert(f@.subrange(n - 4, n as int)[m] != suffix@[m]);
                }
            }
        }
        if !matches {
            assert(spec_trim_exe(cur) == cur);
            break;
        }
        assert(cur.subrange(0, cur.len() - 4) == f@.subrange(0, n - 4));
        n = n - 4;
    }
    let mut out: Vec<char> = Vec::new();
    let mut i: usize = 0;
    while i < n
        invariant
            n <= f@.len(),
            i <= n,
            out@ == f@.subrange(0, i as int),
        decreases n - i,
    {
        out.push(f[i]);
        i = i + 1;
    }
    string_from_chars(out.as_slice())
}

/// The root of an application's process tree among candidate processes
/// (process id, parent id): the first candidate whose parent is not itself a
/// candidate, else the first candidate; `None` without candidates.
pub open spec fn spec_root_candidate(c: Seq<(u32, Option<u32>)>) -> Option<u32> {
    if c.len() == 0 {
        None
    } else if exists|i: int| 0 <= i < c.len() && #[trigger] spec_parent_outside(c, i) {
        Some(c[spec_first_parent_outside(c, 0)].0)
    } else {
        Some(c[0].0)
    }
}

/// Whether the parent of candidate `i` is not among the candidates.
pub open spec fn spec_parent_outside(c: Seq<(u32, Option<u32>)>, i: int) -> bool {
    match c[i].1 {
        Some(pp) => !(exists|j: int| 0 <= j < c.len() && #[trigger] c[j].0 == pp),
        None => true,
    }
}

/// Index of the first candidate at or after `i` whose parent is outside.
pub open spec fn spec_first_parent_outside(c: Seq<(u32, Option<u32>)>, i: int) -> int
    decreases c.len() - i,
{
    if i < 0 || i >= c.len() {
        c.len() as int
    } else if spec_parent_outside(c, i) {
        i
    } else {
        spec_first_parent_outside(c, i + 1)
    }
}

/// Picks the root process among the processes of one application.
pub fn pick_root_pid(candidates: &[(u32, Option<u32>)]) -> (r: Option<u32>)
    ensures
        r == spec_root_candidate(candidates@),
{
    let ghost c = candidates@;
    if candidates.len() == 0 {
        return None;
    }
    let mut i: usize = 0;
    while i < candidates.len()
        invariant
            c == candidates@,
            c.len() > 0,
            i <= c.len(),
            spec_first_parent_outside(c, 0) == spec_first_parent_outside(c, i as int),
            forall|m: int| 0 <= m < i ==> !#[trigger] spec_parent_outside(c, m),
        decreases c.len() - i,
    {
        let (_, parent) = candidates[i];
        let outside = match parent {
            Some(pp) => {
                let mut found = false;
                let mut j: usize = 0;
                while j < candidates.len()
                    invariant
                        c == candidates@,
                        j <= c.len(),
                        found == (exists|m: int| 0 <= m < j && #[trigger] c[m].0 == pp),
                    decreases c.len() - j,
                {
                    if candidates[j].0 == pp {
                        found = true;
                    }
                    j = j + 1;
                }
                !found
            },
            None => true,
        };
        assert(outside == spec_parent_outside(c, i as int));
        if outside {
            return Some(candidates[i].0);
        }
        i = i + 1;
    }
    proof {
        assert forall|m: int| 0 <= m < c.len() implies !#[trigger] spec_parent_outside(c, m) by {}
    }
    Some(candidates[0].0)
}

/// A file name without one trailing `.exe` (or, failing that, `.EXE`).
pub open spec fn spec_strip_exe_once(n: Seq<char>) -> Seq<char> {
    if spec_ends_with(n, ".exe"@) || spec_ends_with(n, ".EXE"@) {
        n.subrange(0, n.len() - 4)
    } else {
        n
    }
}

/// The game name shown for the foreground application whose executable
/// image is at `image_path`: the image's file name without its `.exe`
/// suffix; `Desktop` when there is no foreground process or no file name.
pub open spec fn spec_game_name(image_path: Option<Seq<char>>) -> Seq<char> {
    match image_path {
        Some(p) => match spec_file_name(p) {
            Some(n) => spec_strip_exe_once(n),
            None => "Desktop"@,
        },
        None => "Desktop"@,
    }
}

/// The game name for the foreground application's executable image (see
/// `spec_game_name`).
pub fn game_name_from_image_path(image_path: Option<&str>) -> (r: String)
    ensures
        r@ == spec_game_name(match image_path {
            Some(p) => Some(p@),
            None => None,
        }),
{
    proof {
        reveal_strlit(".exe");
        reveal_strlit(".EXE");
    }
    match image_path {
        None => owned("Desktop"),
        Some(p) => match file_name(p) {
            None => owned("Desktop"),
            Some(n) => {
                let cs = chars_of(n.as_str());
                if ends_with(cs.as_slice(), chars_of(".exe").as_slice()) || ends_with(
                    cs.as_slice(),
                    chars_of(".EXE").as_slice(),
                ) {
                    let k = cs.len() - 4;
                    string_from_chars(slice_range(cs.as_slice(), 0, k).as_slice())
                } else {
                    n
                }
            },
        },
    }
}

// ─── Application lists ──────────────────────────────────────────────────────

/// Whether a process of a snapshot is offered to the user: it has a name and
/// is not a background process (the name and path are lowercased before the
/// classification, which lowercases them again).
pub open spec fn spec_offered(p: ProcessInfo) -> bool {
    p.name@.len() > 0 && !spec_is_background_lower(
        spec_lowercase(spec_lowercase(p.name@)),
        spec_lowercase(spec_lowercase(p.exe@)),
    )
}

/// Whether one of the entries at `kept` has the name `name`.
pub open spec fn spec_name_taken(s: Seq<ProcessInfo>, kept: Seq<usize>, name: Seq<char>) -> bool {
    exists|k: int| 0 <= k < kept.len() && #[trigger] s[kept[k] as int].name@ == name
}

/// Positions, among the first `n` snapshot entries, of the offered processes,
/// keeping only the first process of each name.
pub open spec fn spec_offered_indices(s: Seq<ProcessInfo>, n: int) -> Seq<usize>
    decreases n,
{
    if n <= 0 {
        Seq::empty()
    } else {
        let prev = spec_offered_indices(s, n - 1);
        let p = s[n - 1];
        if spec_offered(p) && !spec_name_taken(s, prev, p.name@) {
            prev.push((n - 1) as usize)
        } else {
            prev
        }
    }
}

/// The sort keys (lowercase names) of the entries at `kept`.
pub open spec fn spec_lower_names(s: Seq<ProcessInfo>, kept: Seq<usize>) -> Seq<Seq<char>> {
    kept.map_values(|i: usize| spec_lowercase(s[i as int].name@))
}

/// Whether two process records hold the same values.
pub open spec fn spec_same_process(a: ProcessInfo, b: ProcessInfo) -> bool {
    a.pid == b.pid && a.name@ == b.name@ && a.exe@ == b.exe@
}

/// The applications offered from a process snapshot (walked in the order
/// given): processes with a name that are not background processes, one per
/// name (the first met), ordered by lowercase name with ties in snapshot
/// order. The order is unique (see `lemma_key_order_unique`).
pub fn get_running_applications(snapshot: &Vec<ProcessInfo>) -> (r: Vec<ProcessInfo>)
    ensures
        ({
            let kept = spec_offered_indices(snapshot@, snapshot@.len() as int);
            &&& r@.len() == kept.len()
            &&& exists|o: Seq<usize>|
                spec_is_key_order(spec_lower_names(snapshot@, kept), o) && forall|j: int|
                    0 <= j < r@.len() ==> spec_same_process(
                        #[trigger] r@[j],
                        snapshot@[kept[o[j] as int] as int],
                    )
        }),
{
    let ghost s = snapshot@;
    let mut kept: Vec<usize> = Vec::new();
    let mut i: usize = 0;
    while i < snapshot.len()
        invariant
            s == snapshot@,
            i <= s.len(),
            kept@ == spec_offered_indices(s, i as int),
            forall|k: int| 0 <= k < kept@.len() ==> (#[trigger] kept@[k] as int) < i,
        decreases s.len() - i,
    {
        let p = &snapshot[i];
        let named = !p.name.as_str().is_empty();
        let mut take = false;
        if named {
            let name_lower = to_lowercase(p.name.as_str());
            let exe_lower = to_lowercase(p.exe.as_str());
            if !is_background_process(name_lower.as_str(), exe_lower.as_str()) {
                let mut seen = false;
                let mut k: usize = 0;
                while k < kept.len()
                    invariant
                        s == snapshot@,
                        i < s.len(),
                        p == s[i as int],
                        k <= kept@.len(),
                        forall|m: int| 0 <= m < kept@.len() ==> (#[trigger] kept@[m] as int) < i,
                        seen == (exists|m: int|
                            0 <= m < k && #[trigger] s[kept@[m] as int].name@ == p.name@),
                    decreases kept@.len() - k,
                {
                    if snapshot[kept[k]].name == p.name {
                        seen = true;
                    }
                    k = k + 1;
                }
                take = !seen;
            }
        }
        proof {
            assert(take == (spec_offered(s[i as int]) && !spec_name_taken(s, kept@, s[i as int].name@)));
        }
        if take {
            kept.push(i);
        }
        i = i + 1;
    }
    let mut keys: Vec<Vec<char>> = Vec::new();
    let mut j: usize = 0;
    while j < kept.len()
        invariant
            s == snapshot@,
            j <= kept@.len(),
            keys@.len() == j,
            forall|k: int| 0 <= k < kept@.len() ==> (#[trigger] kept@[k] as int) < s.len(),
            forall|m: int| 0 <= m < j ==> #[trigger] keys@[m]@ == spec_lowercase(s[kept@[m] as int].name@),
        decreases kept@.len() - j,
    {
        let lower = to_lowercase(snapshot[kept[j]].name.as_str());
        keys.push(chars_of(lower.as_str()));
        j = j + 1;
    }
    assert(spec_char_vecs(keys@) =~= spec_lower_names(s, kept@));
    let order = key_order(&keys);
    let mut out: Vec<ProcessInfo> = Vec::new();
    let mut t: usize = 0;
    while t < order.len()
        invariant
            s == snapshot@,
            spec_is_key_order(spec_lower_names(s, kept@), order@),
            order@.len() == kept@.len(),
            forall|k: int| 0 <= k < kept@.len() ==> (#[trigger] kept@[k] as int) < s.len(),
            t <= order@.len(),
            out@.len() == t,
            forall|m: int|
                0 <= m < t ==> spec_same_process(#[trigger] out@[m], s[kept@[order@[m] as int] as int]),
        decreases order@.len() - t,
    {
        let src = &snapshot[kept[order[t]]];
        out.push(ProcessInfo { pid: src.pid, name: src.name.clone(), exe: src.exe.clone() });
        t = t + 1;
    }
    out
}

/// A process of a snapshot as the window scan sees it: its id, its parent's
/// id and its executable path, where known.
#[derive(Clone, Debug)]
pub struct ProcessEntry {
    pub pid: u32,
    pub parent: Option<u32>,
    pub exe: Option<String>,
}

/// Index of the first entry at or after `i` with process id `pid`.
pub open spec fn spec_find_pid(t: Seq<ProcessEntry>, pid: u32, i: int) -> Option<int>
    decreases t.len() - i,
{
    if i < 0 || i >= t.len() {
        None
    } else if t[i].pid == pid {
        Some(i)
    } else {
        spec_find_pid(t, pid, i + 1)
    }
}

/// The lowercase executable path of an entry; empty when unknown.
pub open spec fn spec_exe_lower(e: ProcessEntry) -> Seq<char> {
    match e.exe {
        Some(p) => spec_lowercase(p@),
        None => Seq::empty(),
    }
}

/// Hops up the process tree from a window's process.
pub const ROLL_UP_HOPS: u64 = 16;

/// The root of a window's application: starting at entry `idx`, follow the
/// parent as long as it runs the same executable (`exe_lower`), for at most
/// `hops` steps, and take the process reached.
pub open spec fn spec_roll_up(t: Seq<ProcessEntry>, idx: int, exe_lower: Seq<char>, hops: nat) -> u32
    decreases hops,
{
    if hops == 0 {
        t[idx].pid
    } else {
        match t[idx].parent {
            None => t[idx].pid,
            Some(pp) => match spec_find_pid(t, pp, 0) {
                None => t[idx].pid,
                Some(j) => if spec_exe_lower(t[j]) == exe_lower {
                    spec_roll_up(t, j, exe_lower, (hops - 1) as nat)
                } else {
                    t[idx].pid
                },
            },
        }
    }
}

/// The application a window's process stands for, as (root process id,
/// track name): none for this tool's own process, an unknown process or
/// one without an executable path, a process under a Windows system
/// directory, one without a file name or of shell infrastructure.
pub open spec fn spec_window_app(t: Seq<ProcessEntry>, me: u32, w: u32) -> Option<(u32, Seq<char>)> {
    if w == me {
        None
    } else {
        match spec_find_pid(t, w, 0) {
            None => None,
            Some(idx) => match t[idx].exe {
                None => None,
                Some(path) => if path@.len() == 0 {
                    None
                } else {
                    let el = spec_lowercase(path@);
                    if spec_is_windows_dir(el) {
                        None
                    } else {
                        match spec_file_name(el) {
                            None => None,
                            Some(f) => if spec_is_shell_executable(f) {
                                None
                            } else {
                                Some((spec_roll_up(t, idx, el, ROLL_UP_HOPS as nat), spec_trim_exe(f)))
                            },
                        }
                    }
                },
            },
        }
    }
}

/// Whether one of the applications has the track name `name`.
pub open spec fn spec_track_taken(apps: Seq<(u32, Seq<char>)>, name: Seq<char>) -> bool {
    exists|k: int| 0 <= k < apps.len() && #[trigger] apps[k].1 == name
}

/// The applications of the first `n` window processes, in window order,
/// keeping the first application of each track name.
pub open spec fn spec_window_apps(
    wp: Seq<u32>,
    me: u32,
    t: Seq<ProcessEntry>,
    n: int,
) -> Seq<(u32, Seq<char>)>
    decreases n,
{
    if n <= 0 {
        Seq::empty()
    } else {
        let prev = spec_window_apps(wp, me, t, n - 1);
        match spec_window_app(t, me, wp[n - 1]) {
            Some(a) => if spec_track_taken(prev, a.1) {
                prev
            } else {
                prev.push(a)
            },
            None => prev,
        }
    }
}

/// The values of a list of applications.
pub open spec fn spec_app_views(v: Seq<VisibleApp>) -> Seq<(u32, Seq<char>)> {
    v.map_values(|a: VisibleApp| (a.pid, a.name@))
}

/// The sort keys (lowercase track names) of applications.
pub open spec fn spec_app_keys(apps: Seq<(u32, Seq<char>)>) -> Seq<Seq<char>> {
    apps.map_values(|a: (u32, Seq<char>)| spec_lowercase(a.1))
}

/// Index of the first entry with process id `pid`.
fn find_pid(table: &Vec<ProcessEntry>, pid: u32) -> (r: Option<usize>)
    ensures
        r is None <==> spec_find_pid(table@, pid, 0) is None,
        r matches Some(i) ==> spec_find_pid(table@, pid, 0) == Some(i as int) && i < table@.len()
            && table@[i as int].pid == pid,
{
    let mut i: usize = 0;
    while i < table.len()
        invariant
            i <= table@.len(),
            spec_find_pid(table@, pid, 0) == spec_find_pid(table@, pid, i as int),
        decreases table@.len() - i,
    {
        if table[i].pid == pid {
            return Some(i);
        }
        i = i + 1;
    }
    None
}

/// The lowercase executable path of an entry; empty when unknown.
fn exe_lower_of(e: &ProcessEntry) -> (r: Vec<char>)
    ensures
        r@ == spec_exe_lower(*e),
{
    match &e.exe {
        Some(p) => chars_of(to_lowercase(p.as_str()).as_str()),
        None => Vec::new(),
    }
}

/// The root of a window's application (see `spec_roll_up`).
fn roll_up_root(table: &Vec<ProcessEntry>, start: usize, exe_lower: &Vec<char>) -> (r: u32)
    requires
        start < table@.len(),
    ensures
        r == spec_roll_up(table@, start as int, exe_lower@, ROLL_UP_HOPS as nat),
{
    let mut cur = start;
    let mut hops: u64 = ROLL_UP_HOPS;
    loop
        invariant
            cur < table@.len(),
            hops <= ROLL_UP_HOPS,
            spec_roll_up(table@, start as int, exe_lower@, ROLL_UP_HOPS as nat) == spec_roll_up(
                table@,
                cur as int,
                exe_lower@,
                hops as nat,
            ),
        decreases hops,
    {
        if hops == 0 {
            return table[cur].pid;
        }
        match table[cur].parent {
            None => {
                return table[cur].pid;
            },
            Some(pp) => match find_pid(table, pp) {
                None => {
                    return table[cur].pid;
                },
                Some(j) => {
                    let pe = exe_lower_of(&table[j]);
                    if crate::text::chars_eq(pe.as_slice(), exe_lower.as_slice()) {
                        cur = j;
                        hops = hops - 1;
                    } else {
                        return table[cur].pid;
                    }
                },
            },
        }
    }
}

/// The application of one window's process (see `spec_window_app`).
fn window_app(table: &Vec<ProcessEntry>, me: u32, w: u32) -> (r: Option<VisibleApp>)
    ensures
        match spec_window_app(table@, me, w) {
            Some(a) => r matches Some(v) && v.pid == a.0 && v.name@ == a.1,
            None => r is None,
        },
{
    if w == me {
        return None;
    }
    let idx = match find_pid(table, w) {
        Some(i) => i,
        None => {
            return None;
        },
    };
    let path = match &table[idx].exe {
        Some(p) => p,
        None => {
            return None;
        },
    };
    if path.as_str().is_empty() {
        return None;
    }
    let el = to_lowercase(path.as_str());
    if is_windows_dir(el.as_str()) {
        return None;
    }
    let f = match file_name(el.as_str()) {
        Some(f) => f,
        None => {
            return None;
        },
    };
    if is_shell_executable(f.as_str()) {
        return None;
    }
    let el_chars = chars_of(el.as_str());
    let root = roll_up_root(table, idx, &el_chars);
    Some(VisibleApp { pid: root, name: track_name_for_executable(f.as_str()) })
}

/// The applications owning the visible windows whose processes are
/// `window_pids` (in window order), looked up in a process snapshot: one per
/// track name (the first met), each rooted at the top of its same-executable
/// process chain (see `spec_window_app`), ordered by lowercase track name
/// with ties in window order.
pub fn visible_user_apps(window_pids: &Vec<u32>, me: u32, table: &Vec<ProcessEntry>) -> (r: Vec<VisibleApp>)
    ensures
        ({
            let apps = spec_window_apps(window_pids@, me, table@, window_pids@.len() as int);
            &&& r@.len() == apps.len()
            &&& exists|o: Seq<usize>|
                spec_is_key_order(spec_app_keys(apps), o) && forall|j: int|
                    0 <= j < r@.len() ==> (#[trigger] r@[j]).pid == apps[o[j] as int].0
                        && r@[j].name@ == apps[o[j] as int].1
        }),
{
    let ghost wp = window_pids@;
    let mut cands: Vec<VisibleApp> = Vec::new();
    let mut i: usize = 0;
    while i < window_pids.len()
        invariant
            wp == window_pids@,
            i <= wp.len(),
            spec_app_views(cands@) == spec_window_apps(wp, me, table@, i as int),
        decreases wp.len() - i,
    {
        let ghost prev = spec_app_views(cands@);
        match window_app(table, me, window_pids[i]) {
            Some(app) => {
                let mut seen = false;
                let mut k: usize = 0;
                while k < cands.len()
                    invariant
                        k <= cands@.len(),
                        prev == spec_app_views(cands@),
                        seen == (exists|m: int| 0 <= m < k && #[trigger] prev[m].1 == app.name@),
                    decreases cands@.len() - k,
                {
                    assert(prev[k as int].1 == cands@[k as int].name@);
                    if cands[k].name == app.name {
                        seen = true;
                    }
                    k = k + 1;
                }
                if !seen {
                    cands.push(app);
                    assert(spec_app_views(cands@) =~= prev.push((app.pid, app.name@)));
                }
            },
            None => {},
        }
        i = i + 1;
    }
    let ghost apps = spec_app_views(cands@);
    let mut keys: Vec<Vec<char>> = Vec::new();
    let mut j: usize = 0;
    while j < cands.len()
        invariant
            apps == spec_app_views(cands@),
            j <= cands@.len(),
            keys@.len() == j,
            forall|m: int| 0 <= m < j ==> #[trigger] keys@[m]@ == spec_lowercase(apps[m].1),
        decreases cands@.len() - j,
    {
        let lower = to_lowercase(cands[j].name.as_str());
        keys.push(chars_of(lower.as_str()));
        j = j + 1;
    }
    assert(spec_char_vecs(keys@) =~= spec_app_keys(apps));
    let order = key_order(&keys);
    let mut out: Vec<VisibleApp> = Vec::new();
    let mut t: usize = 0;
    while t < order.len()
        invariant
            apps == spec_app_views(cands@),
            spec_is_key_order(spec_app_keys(apps), order@),
            order@.len() == apps.len(),
            t <= order@.len(),
            out@.len() == t,
            forall|m: int|
                0 <= m < t ==> (#[trigger] out@[m]).pid == apps[order@[m] as int].0 && out@[m].name@
                    == apps[order@[m] as int].1,
        decreases order@.len() - t,
    {
        let src = &cands[order[t]];
        out.push(VisibleApp { pid: src.pid, name: src.name.clone() });
        t = t + 1;
    }
    out
}

} // verus!
