//! The clip library: which files belong to a clip and go to the Recycle Bin
//! with it, the favourites list, the track list stored beside each clip, and
//! the automatic cleanup's decisions.
use vstd::prelude::*;
use crate::paths::{
    dir_prefix, file_name, path_stem, spec_dir_prefix, spec_extension, spec_file_name,
    spec_path_stem, stem_and_extension,
};
use crate::text::{
    chars_eq, chars_of, eq_ignore_ascii_case, owned, push_str, spec_eq_ignore_ascii_case,
    spec_starts_with, spec_strings, starts_with, string_from_chars,
};

verus! {

// ─── Track list ─────────────────────────────────────────────────────────────

/// An audio track saved beside a clip.
#[derive(Debug)]
pub struct AudioTrackInfo {
    pub track_index: usize,
    pub process_name: String,
    pub wav_filename: String,
}

impl Clone for AudioTrackInfo {
    fn clone(&self) -> (r: Self)
        ensures
            r == *self,
    {
        AudioTrackInfo {
            track_index: self.track_index,
            process_name: self.process_name.clone(),
            wav_filename: self.wav_filename.clone(),
        }
    }
}

/// The track list stored for saved audio files `(path, track name)`: the
/// position, the track name and the file name of each.
pub open spec fn spec_track_infos_match(saved: Seq<(String, String)>, infos: Seq<AudioTrackInfo>) -> bool {
    &&& infos.len() == saved.len()
    &&& forall|i: int|
        0 <= i < saved.len() ==> {
            &&& (#[trigger] infos[i]).track_index == i
            &&& infos[i].process_name@ == saved[i].1@
            &&& infos[i].wav_filename@ == (match spec_file_name(saved[i].0@) {
                Some(n) => n,
                None => Seq::empty(),
            })
        }
}

/// The track list stored for saved audio files (see
/// `spec_track_infos_match`).
pub fn track_infos(saved: &Vec<(String, String)>) -> (r: Vec<AudioTrackInfo>)
    ensures
        spec_track_infos_match(saved@, r@),
{
    let mut out: Vec<AudioTrackInfo> = Vec::new();
    let mut i: usize = 0;
    while i < saved.len()
        invariant
            i <= saved@.len(),
            out@.len() == i,
            forall|k: int|
                0 <= k < i ==> {
                    &&& (#[trigger] out@[k]).track_index == k
                    &&& out@[k].process_name@ == saved@[k].1@
                    &&& out@[k].wav_filename@ == (match spec_file_name(saved@[k].0@) {
                        Some(n) => n,
                        None => Seq::empty(),
                    })
                },
        decreases saved@.len() - i,
    {
        let wav = match file_name(saved[i].0.as_str()) {
            Some(n) => n,
            None => String::new(),
        };
        out.push(AudioTrackInfo { track_index: i, process_name: saved[i].1.clone(), wav_filename: wav });
        i = i + 1;
    }
    out
}

/// The file holding a clip's track list: `<stem>_tracks.json` beside it.
pub fn tracks_file_for(clip_path: &str) -> (r: String)
    ensures
        r@ == spec_dir_prefix(clip_path@) + spec_path_stem(clip_path@) + "_tracks.json"@,
{
    let mut r = dir_prefix(clip_path);
    let stem = path_stem(clip_path);
    push_str(&mut r, stem.as_str());
    push_str(&mut r, "_tracks.json");
    r
}

// ─── Sidecar files ──────────────────────────────────────────────────────────

/// Whether a file's extension is `ext` (ASCII letters, compared without
/// regard to case).
pub open spec fn spec_has_extension(fname: Seq<char>, ext: Seq<char>) -> bool {
    spec_extension(fname) matches Some(e) && spec_eq_ignore_ascii_case(e, ext)
}

/// Whether `fname`, in the folder of a clip with stem `stem`, belongs to
/// that clip and goes with it: its preview `<stem>.jpg`, its track list
/// `<stem>_tracks.json`, or one of its audio tracks `<stem>_<track>.wav` —
/// never the files of an edited version (`<stem>_edited...`).
pub open spec fn spec_is_sidecar(stem: Seq<char>, fname: Seq<char>) -> bool {
    ||| spec_has_extension(fname, "jpg"@) && fname == stem + ".jpg"@
    ||| spec_has_extension(fname, "json"@) && fname == stem + "_tracks.json"@
    ||| spec_has_extension(fname, "wav"@) && spec_starts_with(fname, stem + "_"@) && !spec_starts_with(
        fname,
        stem + "_edited"@,
    )
}

fn has_extension(fname: &[char], ext: &str) -> (r: bool)
    ensures
        r == spec_has_extension(fname@, ext@),
{
    let (_, e) = stem_and_extension(fname);
    match e {
        Some(ev) => {
            let x = chars_of(ext);
            eq_ignore_ascii_case(ev.as_slice(), x.as_slice())
        },
        None => false,
    }
}

fn concat_chars(a: &str, b: &str) -> (r: Vec<char>)
    ensures
        r@ == a@ + b@,
{
    let mut s = owned(a);
    push_str(&mut s, b);
    chars_of(s.as_str())
}

/// Whether a file belongs to the clip with stem `stem` (see
/// `spec_is_sidecar`).
pub fn is_sidecar(stem: &str, fname: &str) -> (r: bool)
    ensures
        r == spec_is_sidecar(stem@, fname@),
{
    let f = chars_of(fname);
    let fs = f.as_slice();
    let jpg = concat_chars(stem, ".jpg");
    let json = concat_chars(stem, "_tracks.json");
    let prefix = concat_chars(stem, "_");
    let edited = concat_chars(stem, "_edited");
    (has_extension(fs, "jpg") && chars_eq(fs, jpg.as_slice())) || (has_extension(fs, "json")
        && chars_eq(fs, json.as_slice())) || (has_extension(fs, "wav") && starts_with(
        fs,
        prefix.as_slice(),
    ) && !starts_with(fs, edited.as_slice()))
}

/// The files of a folder that go to the Recycle Bin with a clip, other than
/// the clip itself, in the folder's order.
pub open spec fn spec_sidecars(clip_file: Seq<char>, stem: Seq<char>, names: Seq<Seq<char>>) -> Seq<Seq<char>>
    decreases names.len(),
{
    if names.len() == 0 {
        Seq::empty()
    } else {
        let prev = spec_sidecars(clip_file, stem, names.drop_last());
        let n = names.last();
        if n != clip_file && spec_is_sidecar(stem, n) {
            prev.push(n)
        } else {
            prev
        }
    }
}

/// The files of a folder that go to the Recycle Bin with the clip named
/// `clip_file` (see `spec_sidecars`).
pub fn sidecar_files(clip_file: &str, names: &Vec<String>) -> (r: Vec<String>)
    ensures
        spec_strings(r@) == spec_sidecars(
            clip_file@,
            match spec_file_name(clip_file@) {
                Some(n) => crate::paths::spec_stem(n),
                None => Seq::empty(),
            },
            spec_strings(names@),
        ),
{
    let stem = path_stem(clip_file);
    let ghost st = stem@;
    let ghost ns = spec_strings(names@);
    let cf = chars_of(clip_file);
    let mut out: Vec<String> = Vec::new();
    let mut i: usize = 0;
    while i < names.len()
        invariant
            i <= names@.len(),
            ns == spec_strings(names@),
            st == stem@,
            cf@ == clip_file@,
            spec_strings(out@) == spec_sidecars(clip_file@, st, ns.subrange(0, i as int)),
        decreases names@.len() - i,
    {
        let n = chars_of(names[i].as_str());
        let ghost before = out@;
        if !chars_eq(n.as_slice(), cf.as_slice()) && is_sidecar(stem.as_str(), names[i].as_str()) {
            out.push(names[i].clone());
            assert(spec_strings(out@) =~= spec_strings(before).push(names@[i as int]@));
        }
        assert(ns.subrange(0, i + 1).drop_last() =~= ns.subrange(0, i as int));
        i = i + 1;
    }
    assert(ns.subrange(0, names@.len() as int) =~= ns);
    out
}

/// The verbatim prefix `\\?\` that canonical Windows paths carry.
pub open spec fn spec_verbatim_prefix() -> Seq<char> {
    seq!['\\', '\\', '?', '\\']
}

/// A path without any leading repetitions of the verbatim prefix.
pub open spec fn spec_strip_verbatim(p: Seq<char>) -> Seq<char>
    decreases p.len(),
{
    if p.len() >= 4 && spec_starts_with(p, spec_verbatim_prefix()) {
        spec_strip_verbatim(p.subrange(4, p.len() as int))
    } else {
        p
    }
}

/// A path as the shell and the Recycle Bin expect it: without the verbatim
/// prefix (see `spec_strip_verbatim`).
pub fn strip_verbatim_prefix(p: &str) -> (r: String)
    ensures
        r@ == spec_strip_verbatim(p@),
{
    let mut rest = chars_of(p);
    let prefix: Vec<char> = vec!['\\', '\\', '?', '\\'];
    assert(prefix@ =~= spec_verbatim_prefix());
    while rest.len() >= 4 && starts_with(rest.as_slice(), prefix.as_slice())
        invariant
            prefix@ == spec_verbatim_prefix(),
            spec_strip_verbatim(p@) == spec_strip_verbatim(rest@),
        decreases rest@.len(),
    {
        let mut next: Vec<char> = Vec::new();
        let mut k: usize = 4;
        while k < rest.len()
            invariant
                4 <= k <= rest@.len(),
                next@ == rest@.subrange(4, k as int),
            decreases rest@.len() - k,
        {
            next.push(rest[k]);
            k = k + 1;
        }
        rest = next;
    }
    string_from_chars(rest.as_slice())
}

// ─── Favourites ─────────────────────────────────────────────────────────────

/// Name for what `serde_json::from_str::<Vec<String>>` reads from a text:
/// the list of strings of a JSON array of strings, or nothing.
pub uninterp spec fn spec_json_string_list(text: Seq<char>) -> Option<Seq<Seq<char>>>;

/// Name for what `serde_json::to_string` writes for a list of strings.
pub uninterp spec fn spec_json_of_string_list(items: Seq<Seq<char>>) -> Seq<char>;

/// `serde_json::from_str::<Vec<String>>`: the strings of a JSON array of
/// strings, `None` for any other text. The result depends on the text
/// alone and is named `spec_json_string_list`.
#[verifier::external_body]
fn parse_string_list(text: &str) -> (r: Option<Vec<String>>)
    ensures
        match r {
            Some(v) => spec_json_string_list(text@) == Some(spec_strings(v@)),
            None => spec_json_string_list(text@) is None,
        },
{
    serde_json::from_str::<Vec<String>>(text).ok()
}

/// `serde_json::to_string` of a list of strings (the empty text should it
/// fail). The result depends on the list alone and is named
/// `spec_json_of_string_list`.
#[verifier::external_body]
fn string_list_json(items: &Vec<String>) -> (r: String)
    ensures
        r@ == spec_json_of_string_list(spec_strings(items@)),
{
    serde_json::to_string(items).unwrap_or_default()
}

/// `<[String]>::sort`: the same strings, in ascending order.
#[verifier::external_body]
fn sort_strings(v: &mut Vec<String>)
    ensures
        spec_strings(final(v)@).to_multiset() == spec_strings(old(v)@).to_multiset(),
        forall|i: int, j: int|
            0 <= i < j < final(v)@.len() ==> spec_chars_le(final(v)@[i]@, final(v)@[j]@),
{
    v.sort();
}

/// Lexicographic order of texts by character codes (the order of their
/// UTF-8 bytes).
pub open spec fn spec_chars_le(a: Seq<char>, b: Seq<char>) -> bool
    decreases a.len(),
{
    if a.len() == 0 {
        true
    } else if b.len() == 0 {
        false
    } else if a[0] != b[0] {
        a[0] < b[0]
    } else {
        spec_chars_le(a.subrange(1, a.len() as int), b.subrange(1, b.len() as int))
    }
}

/// The favourites stored in a file's text: its JSON list, or none when the
/// text is not a JSON list of strings.
pub fn favorites_from_json(text: &str) -> (r: Vec<String>)
    ensures
        match spec_json_string_list(text@) {
            Some(l) => spec_strings(r@) == l,
            None => r@.len() == 0,
        },
{
    match parse_string_list(text) {
        Some(v) => v,
        None => Vec::new(),
    }
}

/// The text a favourites list is stored as: the JSON list of its paths in
/// ascending order.
pub fn favorites_to_json(favs: &Vec<String>) -> (r: String)
    ensures
        exists|sorted: Seq<Seq<char>>|
            {
                &&& sorted.to_multiset() == spec_strings(favs@).to_multiset()
                &&& forall|i: int, j: int| 0 <= i < j < sorted.len() ==> spec_chars_le(#[trigger] sorted[i], #[trigger] sorted[j])
                &&& r@ == spec_json_of_string_list(sorted)
            },
{
    let mut v = favs.clone();
    assert(v@ == favs@);
    sort_strings(&mut v);
    let r = string_list_json(&v);
    assert(forall|i: int, j: int|
        0 <= i < j < spec_strings(v@).len() ==> spec_chars_le(
            #[trigger] spec_strings(v@)[i],
            #[trigger] spec_strings(v@)[j],
        ));
    r
}

/// Every text other than `path`.
pub open spec fn spec_other_than(path: Seq<char>) -> spec_fn(Seq<char>) -> bool {
    |s: Seq<char>| s != path
}

/// Whether a path is among the favourites.
pub fn is_favorite(favs: &Vec<String>, path: &str) -> (r: bool)
    ensures
        r == spec_strings(favs@).contains(path@),
{
    let p = chars_of(path);
    let mut i: usize = 0;
    while i < favs.len()
        invariant
            i <= favs@.len(),
            p@ == path@,
            forall|k: int| 0 <= k < i ==> favs@[k]@ != path@,
        decreases favs@.len() - i,
    {
        let f = chars_of(favs[i].as_str());
        if chars_eq(f.as_slice(), p.as_slice()) {
            assert(spec_strings(favs@)[i as int] == path@);
            return true;
        }
        i = i + 1;
    }
    proof {
        if spec_strings(favs@).contains(path@) {
            let k = choose|k: int| 0 <= k < spec_strings(favs@).len() && spec_strings(favs@)[k] == path@;
            assert(favs@[k]@ == path@);
        }
    }
    false
}

/// Toggles a path in the favourites: removes every copy when it is there
/// (returning `false`), adds it at the end otherwise (returning `true`).
pub fn toggle_favorite(favs: Vec<String>, path: String) -> (r: (Vec<String>, bool))
    ensures
        r.1 == !spec_strings(favs@).contains(path@),
        r.1 ==> spec_strings(r.0@) == spec_strings(favs@).push(path@),
        !r.1 ==> spec_strings(r.0@) == spec_strings(favs@).filter(spec_other_than(path@)),
{
    if is_favorite(&favs, path.as_str()) {
        let ghost fs = spec_strings(favs@);
        let p = chars_of(path.as_str());
        let mut out: Vec<String> = Vec::new();
        let mut i: usize = 0;
        while i < favs.len()
            invariant
                i <= favs@.len(),
                fs == spec_strings(favs@),
                p@ == path@,
                spec_strings(out@) == fs.subrange(0, i as int).filter(spec_other_than(path@)),
            decreases favs@.len() - i,
        {
            let f = chars_of(favs[i].as_str());
            let ghost before = out@;
            proof {
                assert(fs.subrange(0, i + 1) == fs.subrange(0, i as int).push(fs[i as int]));
                fs.subrange(0, i as int).lemma_filter_push(fs[i as int], spec_other_than(path@));
            }
            if !chars_eq(f.as_slice(), p.as_slice()) {
                out.push(favs[i].clone());
                assert(spec_strings(out@) =~= spec_strings(before).push(favs@[i as int]@));
            }
            i = i + 1;
        }
        assert(fs.subrange(0, favs@.len() as int) =~= fs);
        (out, false)
    } else {
        let mut out = favs;
        let ghost before = out@;
        out.push(path);
        assert(spec_strings(out@) =~= spec_strings(before).push(out@.last()@));
        (out, true)
    }
}

/// Toggling the same path twice in a list without it gives back the list.
pub proof fn lemma_toggle_twice(favs: Seq<Seq<char>>, path: Seq<char>)
    requires
        !favs.contains(path),
    ensures
        favs.push(path).filter(spec_other_than(path)) == favs,
{
    favs.lemma_filter_push(path, spec_other_than(path));
    lemma_filter_keeps_all(favs, path);
}

proof fn lemma_filter_keeps_all(favs: Seq<Seq<char>>, path: Seq<char>)
    requires
        !favs.contains(path),
    ensures
        favs.filter(spec_other_than(path)) == favs,
    decreases favs.len(),
{
    if favs.len() > 0 {
        let init = favs.drop_last();
        assert(!init.contains(path)) by {
            if init.contains(path) {
                let k = choose|k: int| 0 <= k < init.len() && init[k] == path;
                assert(favs[k] == path);
            }
        }
        lemma_filter_keeps_all(init, path);
        assert(favs == init.push(favs.last()));
        assert(favs.last() != path) by {
            if favs.last() == path {
                assert(favs[favs.len() - 1] == path);
            }
        }
        init.lemma_filter_push(favs.last(), spec_other_than(path));
    } else {
        assert(favs.filter(spec_other_than(path)) =~= favs) by {
            reveal(Seq::filter);
        }
    }
}


// ─── Automatic cleanup ──────────────────────────────────────────────────────

/// Seconds per day.
pub const SECS_PER_DAY: u64 = 86400;

/// Whether candidate `a` comes before candidate `b` in cleanup order: older
/// first, and in listing order among clips of the same age.
pub open spec fn spec_cleanup_before(created: Seq<u64>, a: usize, b: usize) -> bool {
    created[a as int] < created[b as int] || (created[a as int] == created[b as int] && a < b)
}

/// The cleanup order of candidates created at `created` (one entry per
/// candidate): every candidate once, oldest first, ties in listing order.
pub open spec fn spec_is_cleanup_order(created: Seq<u64>, order: Seq<usize>) -> bool {
    &&& order.len() == created.len()
    &&& forall|k: int| 0 <= k < order.len() ==> (#[trigger] order[k] as int) < created.len()
    &&& forall|i: int, j: int|
        0 <= i < j < order.len() ==> spec_cleanup_before(created, #[trigger] order[i], #[trigger] order[j])
    &&& forall|c: usize| (c as int) < created.len() ==> order.contains(c)
}

/// The cleanup order of the candidates (see `spec_is_cleanup_order`): a
/// stable sort by creation time.
pub fn cleanup_order(created: &Vec<u64>) -> (r: Vec<usize>)
    ensures
        spec_is_cleanup_order(created@, r@),
{
    let n = created.len();
    let mut out: Vec<usize> = Vec::new();
    let mut i: usize = 0;
    while i < n
        invariant
            n == created@.len(),
            i <= n,
            out@.len() == i,
            forall|k: int| 0 <= k < out@.len() ==> (#[trigger] out@[k] as int) < i,
            forall|a: int, b: int|
                0 <= a < b < out@.len() ==> spec_cleanup_before(created@, #[trigger] out@[a], #[trigger] out@[b]),
            forall|c: usize| (c as int) < i ==> out@.contains(c),
        decreases n - i,
    {
        let key = created[i];
        let mut p: usize = 0;
        while p < out.len() && created[out[p]] <= key
            invariant
                p <= out@.len(),
                n == created@.len(),
                forall|k: int| 0 <= k < out@.len() ==> (#[trigger] out@[k] as int) < i,
                i < n,
                key == created@[i as int],
                forall|k: int| 0 <= k < p ==> created@[#[trigger] out@[k] as int] <= key,
            decreases out@.len() - p,
        {
            p = p + 1;
        }
        let ghost old_out = out@;
        proof {
            assert forall|k: int| p <= k < old_out.len() implies key < created@[#[trigger] old_out[k] as int] by {
                if p < old_out.len() {
                    assert(key < created@[old_out[p as int] as int]);
                    if k > p {
                        assert(spec_cleanup_before(created@, old_out[p as int], old_out[k]));
                    }
                }
            }
        }
        out.insert(p, i);
        proof {
            assert(out@ == old_out.subrange(0, p as int).push(i).add(old_out.subrange(p as int, old_out.len() as int)));
            assert forall|k: int| 0 <= k < out@.len() implies (#[trigger] out@[k] as int) < i + 1 by {
                if k < p {
                    assert(out@[k] == old_out[k]);
                } else if k > p {
                    assert(out@[k] == old_out[k - 1]);
                }
            }
            assert forall|a: int, b: int|
                0 <= a < b < out@.len() implies spec_cleanup_before(created@, #[trigger] out@[a], #[trigger] out@[b]) by {
                if b < p {
                    assert(out@[a] == old_out[a] && out@[b] == old_out[b]);
                } else if b == p {
                    assert(out@[a] == old_out[a]);
                } else if a < p {
                    assert(out@[a] == old_out[a] && out@[b] == old_out[b - 1]);
                } else if a == p {
                    assert(out@[b] == old_out[b - 1]);
                } else {
                    assert(out@[a] == old_out[a - 1] && out@[b] == old_out[b - 1]);
                }
            }
            assert forall|c: usize| (c as int) < i + 1 implies out@.contains(c) by {
                if (c as int) == i {
                    assert(out@[p as int] == c);
                } else {
                    assert(old_out.contains(c));
                    let k = choose|k: int| 0 <= k < old_out.len() && old_out[k] == c;
                    if k < p {
                        assert(out@[k] == c);
                    } else {
                        assert(out@[k + 1] == c);
                    }
                }
            }
        }
        i = i + 1;
    }
    out
}

/// Which limit a cleanup deletion serves.
#[derive(Clone, Copy, Debug, PartialEq, Eq, Structural)]
pub enum CleanupPhase {
    /// Clips older than the maximum age.
    Age,
    /// Oldest clips while the library exceeds its size limit.
    Storage,
}

/// Whether the cleanup deletes a candidate of age `age_secs` or, in the
/// storage phase, while the library holds `total_bytes`: in the age phase
/// when an age limit is set and the clip is older; in the storage phase
/// when the library exceeds the size limit `max_bytes` (whether a size
/// limit is set at all is the caller's to decide; a set limit may be 0).
pub open spec fn spec_should_delete(
    phase: CleanupPhase,
    age_secs: u64,
    max_age_days: u32,
    total_bytes: u64,
    max_bytes: u64,
) -> bool {
    match phase {
        CleanupPhase::Age => max_age_days > 0 && age_secs > max_age_days * SECS_PER_DAY,
        CleanupPhase::Storage => total_bytes > max_bytes,
    }
}

/// Whether the cleanup deletes a candidate (see `spec_should_delete`).
pub fn should_delete(
    phase: CleanupPhase,
    age_secs: u64,
    max_age_days: u32,
    total_bytes: u64,
    max_bytes: u64,
) -> (r: bool)
    ensures
        r == spec_should_delete(phase, age_secs, max_age_days, total_bytes, max_bytes),
{
    match phase {
        CleanupPhase::Age => max_age_days > 0 && age_secs > (max_age_days as u64) * SECS_PER_DAY,
        CleanupPhase::Storage => total_bytes > max_bytes,
    }
}

/// What a cleanup run has done so far.
#[derive(Clone, Copy, Debug)]
pub struct CleanupTally {
    pub clips_deleted: usize,
    pub freed_bytes: u64,
    /// Size of the library's clips still on disk.
    pub total_bytes: u64,
}

impl CleanupTally {
    /// A run that has deleted nothing, over a library of `total_bytes`.
    pub fn new(total_bytes: u64) -> (r: Self)
        ensures
            r.clips_deleted == 0,
            r.freed_bytes == 0,
            r.total_bytes == total_bytes,
    {
        CleanupTally { clips_deleted: 0, freed_bytes: 0, total_bytes }
    }

    /// Records the outcome of deleting a clip of `size_bytes`: a deletion
    /// counts, frees its size and shrinks the library (never below zero); a
    /// failed one changes nothing.
    pub fn record(&mut self, size_bytes: u64, deleted: bool)
        requires
            old(self).clips_deleted < usize::MAX,
            old(self).freed_bytes + size_bytes <= u64::MAX,
        ensures
            deleted ==> final(self).clips_deleted == old(self).clips_deleted + 1 && final(self).freed_bytes
                == old(self).freed_bytes + size_bytes && final(self).total_bytes == (if old(
                self,
            ).total_bytes >= size_bytes {
                (old(self).total_bytes - size_bytes) as u64
            } else {
                0u64
            }),
            !deleted ==> *final(self) == *old(self),
    {
        if deleted {
            self.clips_deleted = self.clips_deleted + 1;
            self.freed_bytes = self.freed_bytes + size_bytes;
            self.total_bytes = self.total_bytes.saturating_sub(size_bytes);
        }
    }
}

/// The age limit in days: with no limit (0 days) nothing is deleted for its
/// age; with a limit of `d` days a clip is deleted exactly when it is older
/// than `d` whole days (more than `d * 86400` seconds), so a clip of at most
/// `d` days is always kept. The library's size plays no part.
pub proof fn lemma_age_limit(age_secs: u64, max_age_days: u32, total_bytes: u64, max_bytes: u64)
    ensures
        max_age_days == 0 ==> !spec_should_delete(CleanupPhase::Age, age_secs, max_age_days, total_bytes, max_bytes),
        max_age_days > 0 && age_secs <= (max_age_days as int) * 86400 ==> !spec_should_delete(
            CleanupPhase::Age,
            age_secs,
            max_age_days,
            total_bytes,
            max_bytes,
        ),
        max_age_days > 0 && age_secs > (max_age_days as int) * 86400 ==> spec_should_delete(
            CleanupPhase::Age,
            age_secs,
            max_age_days,
            total_bytes,
            max_bytes,
        ),
{
}

/// The size limit: in the storage phase a clip is deleted exactly while the
/// library holds more bytes than the limit; the clip's age plays no part.
pub proof fn lemma_storage_limit(age_secs: u64, max_age_days: u32, total_bytes: u64, max_bytes: u64)
    ensures
        spec_should_delete(CleanupPhase::Storage, age_secs, max_age_days, total_bytes, max_bytes) <==> total_bytes
            > max_bytes,
{
}

} // verus!
