//! Gallery file names: which names may address a gallery file, which files
//! a listing shows, how saved outputs are named, and which MIME type image
//! bytes carry.
use vstd::prelude::*;
use crate::text::{
    chars_of, decimal, decimal_of, ends, ends_with, has, is_alnum, is_digit, lower_chars,
    lower_seq, push_all, push_str, replace_all, replace_chars, same_chars, seq_contains,
    spells, strip_char, strip_chars, string_of, trim, trim_chars,
};

verus! {

/// Why a gallery file name could not be resolved to one file.
#[derive(Debug, Clone, Copy, PartialEq, Eq, Structural)]
pub enum GalleryPathResolveError {
    InvalidFilename,
    NotFound,
    Ambiguous,
}

impl GalleryPathResolveError {
    /// The user-facing text of the error.
    pub fn message(&self) -> (r: &'static str)
        ensures
            r@ == match self {
                GalleryPathResolveError::InvalidFilename => "Invalid filename"@,
                GalleryPathResolveError::NotFound => "Gallery image not found"@,
                GalleryPathResolveError::Ambiguous => "Ambiguous gallery filename"@,
            },
    {
        match self {
            GalleryPathResolveError::InvalidFilename => "Invalid filename",
            GalleryPathResolveError::NotFound => "Gallery image not found",
            GalleryPathResolveError::Ambiguous => "Ambiguous gallery filename",
        }
    }
}

/// A gallery file name may not hold a path separator or `..`.
pub open spec fn valid_gallery_filename(filename: Seq<char>) -> bool {
    !filename.contains('/') && !filename.contains('\\') && !seq_contains(filename, ".."@)
}

pub fn validate_gallery_filename(filename: &str) -> (r: Result<(), GalleryPathResolveError>)
    ensures
        r is Ok <==> valid_gallery_filename(filename@),
        r is Err ==> r == Err::<(), GalleryPathResolveError>(GalleryPathResolveError::InvalidFilename),
{
    let f = chars_of(filename);
    let slash = vec!['/'];
    let backslash = vec!['\\'];
    let has_slash = crate::text::contains(&f, &slash);
    let has_backslash = crate::text::contains(&f, &backslash);
    proof {
        lemma_char_contains(f@, '/');
        lemma_char_contains(f@, '\\');
        assert(slash@ =~= seq!['/']);
        assert(backslash@ =~= seq!['\\']);
    }
    if has_slash || has_backslash || has(&f, "..") {
        return Err(GalleryPathResolveError::InvalidFilename);
    }
    Ok(())
}

/// Which file a gallery name addresses, given the files of that name found
/// under the gallery root and then each `users/{name}/` folder: a desktop
/// request names no user, so a name found twice is refused rather than
/// guessed.
pub open spec fn gallery_resolution(filename: Seq<char>, found: Seq<Seq<char>>) -> Result<Seq<char>, GalleryPathResolveError> {
    if !valid_gallery_filename(filename) {
        Err(GalleryPathResolveError::InvalidFilename)
    } else if found.len() == 0 {
        Err(GalleryPathResolveError::NotFound)
    } else if found.len() == 1 {
        Ok(found[0])
    } else {
        Err(GalleryPathResolveError::Ambiguous)
    }
}

/// Resolve a gallery file name to the one file it addresses. `found` holds
/// the existing files of that name, the root's first and then those of the
/// user folders in sorted order; it is only consulted for a valid name.
pub fn resolve_gallery_image_path(filename: &str, found: Vec<String>) -> (r: Result<String, GalleryPathResolveError>)
    ensures
        match r {
            Ok(p) => gallery_resolution(filename@, crate::text::string_views(found@)) == Ok::<Seq<char>, GalleryPathResolveError>(p@),
            Err(e) => gallery_resolution(filename@, crate::text::string_views(found@)) == Err::<Seq<char>, GalleryPathResolveError>(e),
        },
{
    if validate_gallery_filename(filename).is_err() {
        return Err(GalleryPathResolveError::InvalidFilename);
    }
    let mut found = found;
    if found.len() == 0 {
        Err(GalleryPathResolveError::NotFound)
    } else if found.len() == 1 {
        Ok(found.remove(0))
    } else {
        Err(GalleryPathResolveError::Ambiguous)
    }
}

/// A text holds a character exactly when the one-character text occurs in it.
pub proof fn lemma_char_contains(s: Seq<char>, c: char)
    ensures
        s.contains(c) <==> seq_contains(s, seq![c]),
{
    if s.contains(c) {
        let k = choose|k: int| 0 <= k < s.len() && s[k] == c;
        assert(s.subrange(k, k + 1) =~= seq![c]);
        assert(crate::text::occurs_at(s, seq![c], k));
    }
    if seq_contains(s, seq![c]) {
        let k = choose|k: int| crate::text::occurs_at(s, seq![c], k);
        assert(s.subrange(k, k + 1)[0] == s[k]);
    }
}

/// Gallery listings show images and mp4 videos, never the poster sidecars
/// (`{stem}_poster.webp`) that belong to a video. Extensions compare without
/// ASCII case.
pub open spec fn listable_gallery_file(name: Seq<char>) -> bool {
    let lower = lower_seq(name);
    !ends_with(lower, "_poster.webp"@) && (
        ends_with(lower, ".png"@) || ends_with(lower, ".jpg"@) || ends_with(lower, ".jpeg"@)
            || ends_with(lower, ".webp"@) || ends_with(lower, ".jxl"@) || ends_with(lower, ".mp4"@))
}

/// Whether a gallery directory entry appears in listings and counts toward
/// storage quotas.
pub fn is_listable_gallery_file(name: &str) -> (r: bool)
    ensures
        r == listable_gallery_file(name@),
{
    let n = chars_of(name);
    let lower = lower_chars(&n);
    if ends(&lower, "_poster.webp") {
        return false;
    }
    ends(&lower, ".png") || ends(&lower, ".jpg") || ends(&lower, ".jpeg") || ends(&lower, ".webp")
        || ends(&lower, ".jxl") || ends(&lower, ".mp4")
}

/// Which gallery clip a caller-supplied name may stand for: the trimmed name,
/// when it is a bare file name (no separator, no `..`, and its own file name)
/// of an mp4 the gallery lists; else the user-facing reason it is refused.
pub open spec fn gallery_video_verdict(filename: Seq<char>) -> Result<Seq<char>, Seq<char>> {
    let name = trim(filename);
    if name.len() == 0 || !valid_gallery_filename(name)
        || crate::paths::file_name_of(name) != Some(name) {
        Err("Invalid filename"@)
    } else if !ends_with(lower_seq(name), ".mp4"@) {
        Err("Only mp4 clips can be interpolated"@)
    } else if !listable_gallery_file(name) {
        Err("Not a gallery file"@)
    } else {
        Ok(name)
    }
}

/// The gallery-membership check on a clip name never refuses one: every
/// name that passes the mp4 check is a listable gallery file.
pub proof fn mp4_names_are_gallery_files(filename: Seq<char>)
    ensures
        gallery_video_verdict(filename) != Err::<Seq<char>, Seq<char>>("Not a gallery file"@),
{
    let name = trim(filename);
    let lower = lower_seq(name);
    if ends_with(lower, ".mp4"@) {
        reveal_strlit(".mp4");
        reveal_strlit("_poster.webp");
        assert(lower.subrange(lower.len() - 4, lower.len() as int) == ".mp4"@);
        assert(lower.subrange(lower.len() - 4, lower.len() as int)[3] == lower[lower.len() - 1]);
        assert(lower[lower.len() - 1] == '4');
        if ends_with(lower, "_poster.webp"@) {
            assert(lower.subrange(lower.len() - 12, lower.len() as int)[11] == lower[lower.len() - 1]);
        }
        assert(listable_gallery_file(name));
    }
    if gallery_video_verdict(filename) == Err::<Seq<char>, Seq<char>>("Not a gallery file"@) {
        reveal_strlit("Not a gallery file");
        reveal_strlit("Invalid filename");
        reveal_strlit("Only mp4 clips can be interpolated");
        assert("Not a gallery file"@[0] != "Invalid filename"@[0]);
        assert("Not a gallery file"@.len() != "Only mp4 clips can be interpolated"@.len());
    }
}

/// Check the name of a gallery clip to interpolate; the caller then resolves
/// it inside the gallery folder.
pub fn validate_gallery_video_name(filename: &str) -> (r: Result<String, String>)
    ensures
        match r {
            Ok(n) => gallery_video_verdict(filename@) == Ok::<Seq<char>, Seq<char>>(n@),
            Err(e) => gallery_video_verdict(filename@) == Err::<Seq<char>, Seq<char>>(e@),
        },
{
    let t = trim_chars(&chars_of(filename));
    let name = string_of(&t);
    let invalid = string_of(&chars_of("Invalid filename"));
    if t.len() == 0 {
        return Err(invalid);
    }
    if validate_gallery_filename(name.as_str()).is_err() {
        return Err(invalid);
    }
    let bare = match crate::paths::path_file_name(name.as_str()) {
        Some(f) => same_chars(&chars_of(f.as_str()), &t),
        None => false,
    };
    if !bare {
        return Err(invalid);
    }
    if !ends(&lower_chars(&t), ".mp4") {
        return Err(string_of(&chars_of("Only mp4 clips can be interpolated")));
    }
    if !is_listable_gallery_file(name.as_str()) {
        return Err(string_of(&chars_of("Not a gallery file")));
    }
    Ok(name)
}

/// Where a checked clip name leads once the file system has resolved it:
/// `resolved` is the canonical path of the clip inside the gallery folder
/// (`None` when it could not be resolved) and `root` the canonical gallery
/// folder or the error resolving it. The clip must lie under the folder.
pub open spec fn gallery_video_location_spec(
    name: Seq<char>,
    resolved: Option<Seq<char>>,
    root: Result<Seq<char>, Seq<char>>,
) -> Result<Seq<char>, Seq<char>> {
    match resolved {
        None => Err("Video not found: "@ + name),
        Some(p) => match root {
            Err(e) => Err("Gallery unavailable: "@ + e),
            Ok(r) => if crate::paths::stripped_path(p, r) is Some { Ok(p) } else { Err("Not a gallery file"@) },
        },
    }
}

/// Decide where a checked clip name leads, from what resolving it and the
/// gallery folder gave.
pub fn gallery_video_location(name: &str, resolved: Option<String>, root: Result<String, String>) -> (r: Result<String, String>)
    ensures
        match r {
            Ok(p) => gallery_video_location_spec(name@, match resolved { Some(x) => Some(x@), None => None }, match root { Ok(x) => Ok(x@), Err(e) => Err(e@) }) == Ok::<Seq<char>, Seq<char>>(p@),
            Err(e) => gallery_video_location_spec(name@, match resolved { Some(x) => Some(x@), None => None }, match root { Ok(x) => Ok(x@), Err(e) => Err(e@) }) == Err::<Seq<char>, Seq<char>>(e@),
        },
{
    let p = match resolved {
        None => {
            let mut t = chars_of("Video not found: ");
            push_str(&mut t, name);
            return Err(string_of(&t));
        },
        Some(p) => p,
    };
    let r = match root {
        Err(e) => {
            let mut t = chars_of("Gallery unavailable: ");
            push_str(&mut t, e.as_str());
            return Err(string_of(&t));
        },
        Ok(r) => r,
    };
    if crate::paths::path_strip_prefix(p.as_str(), r.as_str()).is_some() {
        Ok(p)
    } else {
        Err(string_of(&chars_of("Not a gallery file")))
    }
}

/// A video's stem: the name without an exact `.mp4` ending.
pub open spec fn video_stem(name: Seq<char>) -> Seq<char> {
    if ends_with(name, ".mp4"@) { name.take(name.len() - 4) } else { name }
}

/// Whether a gallery rename may go ahead: the new name must be a valid
/// gallery file name made of exactly one path component that is its own file
/// name, and a video must stay an mp4. When the renamed file is a video, the
/// result names its poster sidecar before and after.
pub open spec fn rename_verdict(old: Seq<char>, new: Seq<char>) -> Result<Option<(Seq<char>, Seq<char>)>, Seq<char>> {
    let old_video = ends_with(lower_seq(old), ".mp4"@);
    if !valid_gallery_filename(new) {
        Err("Invalid filename: "@ + new)
    } else if trim(new).len() == 0 || crate::paths::path_parts(new).len() != 1
        || crate::paths::file_name_of(new) != Some(new) {
        Err("Invalid gallery filename for rename: "@ + new)
    } else if old_video && !ends_with(lower_seq(new), ".mp4"@) {
        Err("Videos must keep the .mp4 extension"@)
    } else if old_video {
        Ok(Some((video_stem(old) + "_poster.webp"@, video_stem(new) + "_poster.webp"@)))
    } else {
        Ok(None)
    }
}

fn stem_of_video(name: &[char]) -> (r: Vec<char>)
    ensures
        r@ == video_stem(name@),
{
    if ends(name, ".mp4") {
        proof { reveal_strlit(".mp4"); }
        crate::text::copy_range(name, 0, name.len() - 4)
    } else {
        crate::text::copy_range(name, 0, name.len())
    }
}

/// Check a gallery rename (the old name already resolved to a file); for a
/// video, the poster sidecar names to carry along.
pub fn check_gallery_rename(old_filename: &str, new_filename: &str) -> (r: Result<Option<(String, String)>, String>)
    ensures
        match r {
            Ok(None) => rename_verdict(old_filename@, new_filename@) == Ok::<Option<(Seq<char>, Seq<char>)>, Seq<char>>(None),
            Ok(Some((a, b))) => rename_verdict(old_filename@, new_filename@) == Ok::<Option<(Seq<char>, Seq<char>)>, Seq<char>>(Some((a@, b@))),
            Err(e) => rename_verdict(old_filename@, new_filename@) == Err::<Option<(Seq<char>, Seq<char>)>, Seq<char>>(e@),
        },
{
    let old = chars_of(old_filename);
    let new = chars_of(new_filename);
    if validate_gallery_filename(new_filename).is_err() {
        let mut v = chars_of("Invalid filename: ");
        push_all(&mut v, &new);
        return Err(string_of(&v));
    }
    let parts = crate::paths::path_components(new_filename);
    proof {
        assert(parts@.len() == crate::paths::path_parts(new_filename@).len());
    }
    let exact = match crate::paths::path_file_name(new_filename) {
        Some(f) => same_chars(&chars_of(f.as_str()), &new),
        None => false,
    };
    if trim_chars(&new).len() == 0 || parts.len() != 1 || !exact {
        let mut v = chars_of("Invalid gallery filename for rename: ");
        push_all(&mut v, &new);
        return Err(string_of(&v));
    }
    let old_video = ends(&lower_chars(&old), ".mp4");
    if old_video && !ends(&lower_chars(&new), ".mp4") {
        return Err(string_of(&chars_of("Videos must keep the .mp4 extension")));
    }
    if old_video {
        let mut a = stem_of_video(&old);
        push_str(&mut a, "_poster.webp");
        let mut b = stem_of_video(&new);
        push_str(&mut b, "_poster.webp");
        Ok(Some((string_of(&a), string_of(&b))))
    } else {
        Ok(None)
    }
}

/// The generation modes a saved image records; anything else is `unknown`.
pub open spec fn mode_label_spec(mode: Option<Seq<char>>) -> Seq<char> {
    match mode {
        Some(m) => if m == "txt2img"@ || m == "img2img"@ || m == "inpainting"@ || m == "image_edit"@ {
            m
        } else {
            "unknown"@
        },
        None => "unknown"@,
    }
}

/// The generation mode recorded for a saved image.
pub fn generation_mode_label(mode: Option<&str>) -> (r: &'static str)
    ensures
        r@ == mode_label_spec(match mode { Some(m) => Some(m@), None => None }),
{
    match mode {
        Some(m) => {
            let c = chars_of(m);
            if spells(&c, "txt2img") {
                "txt2img"
            } else if spells(&c, "img2img") {
                "img2img"
            } else if spells(&c, "inpainting") {
                "inpainting"
            } else if spells(&c, "image_edit") {
                "image_edit"
            } else {
                "unknown"
            }
        },
        None => "unknown",
    }
}

/// The stem of a file name: everything before its last `.` (the whole name
/// when it has none).
pub open spec fn name_stem_spec(name: Seq<char>) -> Seq<char> {
    if name.contains('.') {
        name.take(choose|i: int| 0 <= i < name.len() && name[i] == '.' && forall|j: int| i < j < name.len() ==> name[j] != '.')
    } else {
        name
    }
}

/// The stem of the file name a caller proposed for a saved image.
pub fn file_name_stem(name: &str) -> (r: String)
    ensures
        r@ == name_stem_spec(name@),
{
    let c = chars_of(name);
    let mut i: usize = c.len();
    while i > 0
        invariant
            i <= c.len(),
            c@ == name@,
            forall|j: int| i <= j < c.len() ==> c@[j] != '.',
        decreases i,
    {
        if c[i - 1] == '.' {
            let k = i - 1;
            proof {
                assert(name@.contains('.'));
                let w = choose|w: int| 0 <= w < name@.len() && name@[w] == '.' && forall|j: int| w < j < name@.len() ==> name@[j] != '.';
                if w < k {
                    assert(name@[k as int] == '.');
                }
                if w > k {
                    assert(name@[w] != '.');
                }
                assert(w == k);
            }
            return string_of(&crate::text::copy_range(&c, 0, k));
        }
        i -= 1;
    }
    proof {
        assert(!name@.contains('.'));
    }
    string_of(&c)
}

// ---------------------------------------------------------------------------
// Saved videos
// ---------------------------------------------------------------------------

/// The gallery file name tried for a saved video on attempt `n`: the
/// rendered name, then `_1`, `_2`, ... until one is free.
pub open spec fn numbered_video_name_spec(rendered: Seq<char>, n: nat) -> Seq<char> {
    if n == 0 {
        rendered + ".mp4"@
    } else {
        rendered + "_"@ + decimal(n) + ".mp4"@
    }
}

/// The file name of attempt `n` for a saved video.
pub fn numbered_video_name(rendered: &str, n: u32) -> (r: String)
    ensures
        r@ == numbered_video_name_spec(rendered@, n as nat),
{
    let mut v = chars_of(rendered);
    if n > 0 {
        push_str(&mut v, "_");
        push_all(&mut v, &decimal_of(n as u64));
    }
    push_str(&mut v, ".mp4");
    string_of(&v)
}

/// A name with every trailing `.mp4` removed (`str::trim_end_matches`).
pub open spec fn strip_mp4s(s: Seq<char>) -> Seq<char>
    decreases s.len(),
{
    if s.len() >= 4 && ends_with(s, ".mp4"@) {
        strip_mp4s(s.take(s.len() - 4))
    } else {
        s
    }
}

/// The poster sidecar that goes with a gallery video.
pub open spec fn poster_name_spec(video_filename: Seq<char>) -> Seq<char> {
    strip_mp4s(video_filename) + "_poster.webp"@
}

/// The poster sidecar name of a gallery video.
pub fn poster_name_for_video(video_filename: &str) -> (r: String)
    ensures
        r@ == poster_name_spec(video_filename@),
{
    let c = chars_of(video_filename);
    let mut end: usize = c.len();
    proof { reveal_strlit(".mp4"); }
    assert(c@.take(end as int) =~= c@);
    while end >= 4 && ends(&crate::text::copy_range(&c, 0, end), ".mp4")
        invariant
            end <= c.len(),
            c@ == video_filename@,
            strip_mp4s(video_filename@) == strip_mp4s(c@.take(end as int)),
        decreases end,
    {
        assert(c@.take(end as int).take(end - 4) =~= c@.take(end - 4));
        end -= 4;
    }
    let mut v = crate::text::copy_range(&c, 0, end);
    assert(v@ =~= c@.take(end as int));
    push_str(&mut v, "_poster.webp");
    string_of(&v)
}

/// Where a saved video landed in the gallery.
pub struct SavedVideo {
    pub video_filename: String,
    pub poster_filename: Option<String>,
}

/// The record of a saved video: its file name, and its poster's when the
/// poster was moved along.
pub fn saved_video(video_filename: String, poster_saved: bool) -> (r: SavedVideo)
    ensures
        r.video_filename@ == video_filename@,
        match r.poster_filename {
            Some(p) => poster_saved && p@ == poster_name_spec(video_filename@),
            None => !poster_saved,
        },
{
    let poster = if poster_saved { Some(poster_name_for_video(video_filename.as_str())) } else { None };
    SavedVideo { video_filename, poster_filename: poster }
}

// ---------------------------------------------------------------------------
// Importing a folder of images
// ---------------------------------------------------------------------------

/// How many images an import copied, skipped and failed on.
pub struct ImportResult {
    pub imported: u32,
    pub skipped: u32,
    pub failed: u32,
}

/// The gallery name of an imported image.
pub open spec fn import_name_spec(original: Seq<char>) -> Seq<char> {
    "imported__"@ + original
}

/// What to do with one image of an imported folder.
#[derive(Debug, PartialEq, Eq)]
pub enum ImportStep {
    /// Its name is not valid text: count it as failed.
    Fail,
    /// The gallery already holds it (under any `…__{name}` name): skip it.
    Skip,
    /// Copy it into the gallery under this name.
    Copy(String),
}

/// Whether some existing gallery file carries the image's name after `__`.
pub open spec fn already_imported(existing: Seq<Seq<char>>, original: Seq<char>) -> bool {
    exists|i: int| 0 <= i < existing.len() && ends_with(#[trigger] existing[i], "__"@ + original)
}

pub open spec fn import_step_spec(existing: Seq<Seq<char>>, original: Option<Seq<char>>) -> (int, Seq<char>) {
    match original {
        None => (0, Seq::<char>::empty()),
        Some(name) => if existing.contains(import_name_spec(name)) || already_imported(existing, name) {
            (1, Seq::<char>::empty())
        } else {
            (2, import_name_spec(name))
        },
    }
}

/// Importing a folder a second time copies nothing: an image the gallery
/// already received under its imported name is skipped, whatever else the
/// gallery holds.
pub proof fn importing_again_skips(existing: Seq<Seq<char>>, name: Seq<char>)
    ensures
        import_step_spec(existing.push(import_name_spec(name)), Some(name)).0 == 1,
{
    let e2 = existing.push(import_name_spec(name));
    assert(e2[existing.len() as int] == import_name_spec(name));
    assert(e2.contains(import_name_spec(name)));
}

pub open spec fn import_step_view(s: ImportStep) -> (int, Seq<char>) {
    match s {
        ImportStep::Fail => (0, Seq::<char>::empty()),
        ImportStep::Skip => (1, Seq::<char>::empty()),
        ImportStep::Copy(n) => (2, n@),
    }
}

/// Decide about one image of an imported folder, given the gallery's file
/// names and the image's own file name (`None` when it is not valid text).
pub fn import_step(existing: &Vec<String>, original: Option<&str>) -> (r: ImportStep)
    ensures
        import_step_view(r) == import_step_spec(crate::text::string_views(existing@), match original {
            Some(o) => Some(o@),
            None => None,
        }),
{
    let name = match original {
        Some(o) => o,
        None => return ImportStep::Fail,
    };
    let mut target = chars_of("imported__");
    push_str(&mut target, name);
    let mut suffix = chars_of("__");
    push_str(&mut suffix, name);
    let ghost ev = crate::text::string_views(existing@);
    let mut i: usize = 0;
    while i < existing.len()
        invariant
            i <= existing.len(),
            ev == crate::text::string_views(existing@),
            original == Some(name),
            target@ == import_name_spec(name@),
            suffix@ == "__"@ + name@,
            forall|k: int| 0 <= k < i ==> ev[k] != target@ && !ends_with(#[trigger] ev[k], suffix@),
        decreases existing.len() - i,
    {
        let e = chars_of(existing[i].as_str());
        assert(ev[i as int] == e@);
        if same_chars(&e, &target) || crate::text::ends_with_chars(&e, &suffix) {
            proof {
                if e@ == target@ {
                    assert(ev.contains(target@));
                } else {
                    assert(ends_with(ev[i as int], "__"@ + name@));
                    assert(already_imported(ev, name@));
                }
            }
            return ImportStep::Skip;
        }
        i += 1;
    }
    proof {
        if ev.contains(target@) {
            let k = choose|k: int| 0 <= k < ev.len() && ev[k] == target@;
            assert(ev[k] != target@);
        }
        if already_imported(ev, name@) {
            let k = choose|k: int| 0 <= k < ev.len() && ends_with(#[trigger] ev[k], "__"@ + name@);
            assert(!ends_with(ev[k], suffix@));
        }
    }
    ImportStep::Copy(string_of(&target))
}

/// The outcome of one image, counted.
pub fn count_import(result: &mut ImportResult, step_taken: u8)
    requires
        old(result).imported < u32::MAX,
        old(result).skipped < u32::MAX,
        old(result).failed < u32::MAX,
    ensures
        final(result).imported == old(result).imported + (if step_taken == 2 { 1int } else { 0 }),
        final(result).skipped == old(result).skipped + (if step_taken == 1 { 1int } else { 0 }),
        final(result).failed == old(result).failed + (if step_taken == 0 || step_taken > 2 { 1int } else { 0 }),
{
    if step_taken == 2 {
        result.imported = result.imported + 1;
    } else if step_taken == 1 {
        result.skipped = result.skipped + 1;
    } else {
        result.failed = result.failed + 1;
    }
}

/// Whether the import reports progress after image `index` (counted from
/// zero) of `total`: every 50 imports, and after the last image.
pub fn import_progress_due(imported: u32, index: u32, total: u32) -> (r: bool)
    ensures
        r == (imported % 50 == 0 || index + 1 == total),
{
    imported % 50 == 0 || (index as u64) + 1 == total as u64
}

// ---------------------------------------------------------------------------
// Image MIME types
// ---------------------------------------------------------------------------

/// The MIME type of image bytes: JPEG (JFIF or Exif) and RIFF (WebP) are
/// recognised by their first four bytes; otherwise the extension hint
/// decides, and PNG is the default.
pub open spec fn image_mime_spec(bytes: Seq<u8>, ext_hint: Option<Seq<char>>) -> Seq<char> {
    if bytes.len() >= 4 && bytes[0] == 0xFF && bytes[1] == 0xD8 && bytes[2] == 0xFF
        && (bytes[3] == 0xE0 || bytes[3] == 0xE1) {
        "image/jpeg"@
    } else if bytes.len() >= 4 && bytes[0] == 0x52 && bytes[1] == 0x49 && bytes[2] == 0x46
        && bytes[3] == 0x46 {
        "image/webp"@
    } else {
        match ext_hint {
            Some(e) => if e == "jpg"@ || e == "jpeg"@ {
                "image/jpeg"@
            } else if e == "webp"@ {
                "image/webp"@
            } else {
                "image/png"@
            },
            None => "image/png"@,
        }
    }
}

/// Infer the MIME type from image bytes (magic bytes) or the file extension.
pub fn infer_image_mime(bytes: &[u8], ext_hint: Option<&str>) -> (r: &'static str)
    ensures
        r@ == image_mime_spec(bytes@, match ext_hint {
            Some(e) => Some(e@),
            None => None,
        }),
{
    if bytes.len() >= 4 {
        if bytes[0] == 0xFF && bytes[1] == 0xD8 && bytes[2] == 0xFF && (bytes[3] == 0xE0 || bytes[3] == 0xE1) {
            return "image/jpeg";
        }
        if bytes[0] == 0x52 && bytes[1] == 0x49 && bytes[2] == 0x46 && bytes[3] == 0x46 {
            return "image/webp";
        }
    }
    match ext_hint {
        Some(e) => {
            let c = chars_of(e);
            if spells(&c, "jpg") || spells(&c, "jpeg") {
                "image/jpeg"
            } else if spells(&c, "webp") {
                "image/webp"
            } else {
                "image/png"
            }
        },
        None => "image/png",
    }
}

/// Public accessor for `infer_image_mime`.
pub fn infer_image_mime_pub(bytes: &[u8], ext_hint: Option<&str>) -> (r: &'static str)
    ensures
        r@ == image_mime_spec(bytes@, match ext_hint {
            Some(e) => Some(e@),
            None => None,
        }),
{
    infer_image_mime(bytes, ext_hint)
}

/// The MIME type of fetched image bytes by their magic bytes: PNG, JPEG,
/// GIF, or WebP (a RIFF container whose form type is `WEBP`); JPEG when none
/// matches.
pub open spec fn detected_mime_spec(b: Seq<u8>) -> Seq<char> {
    if b.len() >= 4 && b[0] == 0x89 && b[1] == 0x50 && b[2] == 0x4E && b[3] == 0x47 {
        "image/png"@
    } else if b.len() >= 2 && b[0] == 0xFF && b[1] == 0xD8 {
        "image/jpeg"@
    } else if b.len() >= 3 && b[0] == 0x47 && b[1] == 0x49 && b[2] == 0x46 {
        "image/gif"@
    } else if b.len() >= 12 && b[0] == 0x52 && b[1] == 0x49 && b[2] == 0x46 && b[3] == 0x46
        && b[8] == 0x57 && b[9] == 0x45 && b[10] == 0x42 && b[11] == 0x50 {
        "image/webp"@
    } else {
        "image/jpeg"@
    }
}

/// Detect the MIME type of image bytes from their magic bytes.
pub fn detect_image_mime(bytes: &[u8]) -> (r: &'static str)
    ensures
        r@ == detected_mime_spec(bytes@),
{
    let n = bytes.len();
    if n >= 4 && bytes[0] == 0x89 && bytes[1] == 0x50 && bytes[2] == 0x4E && bytes[3] == 0x47 {
        "image/png"
    } else if n >= 2 && bytes[0] == 0xFF && bytes[1] == 0xD8 {
        "image/jpeg"
    } else if n >= 3 && bytes[0] == 0x47 && bytes[1] == 0x49 && bytes[2] == 0x46 {
        "image/gif"
    } else if n >= 12 && bytes[0] == 0x52 && bytes[1] == 0x49 && bytes[2] == 0x46 && bytes[3] == 0x46
        && bytes[8] == 0x57 && bytes[9] == 0x45 && bytes[10] == 0x42 && bytes[11] == 0x50 {
        "image/webp"
    } else {
        "image/jpeg"
    }
}

// ---------------------------------------------------------------------------
// Output file names
// ---------------------------------------------------------------------------

/// ASCII letters, digits, `-`, `_` and `.` are kept; anything else becomes `_`.
pub open spec fn filename_safe_char(c: char) -> char {
    if is_alnum(c) || c == '-' || c == '_' || c == '.' { c } else { '_' }
}

/// A file name component: trimmed, unsafe characters replaced by `_`, every
/// `..` replaced by `_`, and leading and trailing `_` removed.
pub open spec fn sanitized_component(value: Seq<char>) -> Seq<char> {
    strip_char(replace_all(trim(value).map_values(|c: char| filename_safe_char(c)), ".."@, "_"@), '_')
}

fn sanitize_chars(v: &[char]) -> (r: Vec<char>)
    ensures
        r@ == sanitized_component(v@),
{
    let t = trim_chars(v);
    let mut mapped: Vec<char> = Vec::new();
    let mut i: usize = 0;
    while i < t.len()
        invariant
            i <= t.len(),
            mapped@ =~= t@.take(i as int).map_values(|c: char| filename_safe_char(c)),
        decreases t.len() - i,
    {
        let c = t[i];
        let keep = crate::text::char_is_alnum(c) || c == '-' || c == '_' || c == '.';
        mapped.push(if keep { c } else { '_' });
        i += 1;
    }
    assert(t@.take(t.len() as int) =~= t@);
    let dots = chars_of("..");
    let under = chars_of("_");
    proof { reveal_strlit(".."); }
    let replaced = replace_chars(&mapped, &dots, &under);
    strip_chars(&replaced, '_')
}

pub fn sanitize_filename_component(value: &str) -> (r: String)
    ensures
        r@ == sanitized_component(value@),
{
    let v = chars_of(value);
    string_of(&sanitize_chars(&v))
}

/// The run of ASCII digits that ends `base`, or `0` when it ends otherwise.
pub open spec fn trailing_digits(base: Seq<char>) -> Seq<char>
    decreases base.len(),
{
    if base.len() > 0 && is_digit(base.last()) {
        trailing_digits(base.drop_last()).push(base.last())
    } else {
        Seq::<char>::empty()
    }
}

pub open spec fn index_from_base(base: Seq<char>) -> Seq<char> {
    if trailing_digits(base).len() == 0 { "0"@ } else { trailing_digits(base) }
}

/// The output index a base name ends with.
pub fn parse_index_from_base(base: &str) -> (r: String)
    ensures
        r@ == index_from_base(base@),
{
    proof { reveal_strlit("0"); }
    let b = chars_of(base);
    let n = b.len();
    let mut k: usize = n;
    assert(b@.take(n as int) =~= b@);
    assert(b@.subrange(n as int, n as int) =~= Seq::<char>::empty());
    assert(trailing_digits(b@) =~= trailing_digits(b@.take(n as int)) + b@.subrange(n as int, n as int));
    while k > 0 && crate::text::char_is_digit(b[k - 1])
        invariant
            k <= n == b.len(),
            trailing_digits(b@) == trailing_digits(b@.take(k as int)) + b@.subrange(k as int, n as int),
        decreases k,
    {
        let ghost t = b@.take(k as int);
        assert(t.drop_last() =~= b@.take(k - 1));
        assert(t.last() == b@[k - 1]);
        assert(b@.subrange(k - 1, n as int) =~= seq![b@[k - 1]] + b@.subrange(k as int, n as int));
        assert(trailing_digits(t) == trailing_digits(b@.take(k - 1)).push(b@[k - 1]));
        assert(trailing_digits(b@.take(k - 1)).push(b@[k - 1]) + b@.subrange(k as int, n as int)
            =~= trailing_digits(b@.take(k - 1)) + b@.subrange(k - 1, n as int));
        k -= 1;
    }
    assert(trailing_digits(b@.take(k as int)) =~= Seq::<char>::empty());
    assert(b@.take(n as int) =~= b@);
    let digits = crate::text::copy_range(&b, k, n);
    assert(trailing_digits(b@) =~= digits@);
    if digits.len() == 0 {
        let mut z: Vec<char> = Vec::new();
        push_str(&mut z, "0");
        string_of(&z)
    } else {
        string_of(&digits)
    }
}

/// The character views of metadata key/value pairs.
pub open spec fn pair_views(m: Seq<(String, String)>) -> Seq<(Seq<char>, Seq<char>)> {
    m.map_values(|p: (String, String)| (p.0@, p.1@))
}

/// The value of the first pair with key `key`.
pub open spec fn meta_lookup(m: Seq<(Seq<char>, Seq<char>)>, key: Seq<char>) -> Option<Seq<char>>
    decreases m.len(),
{
    if m.len() == 0 {
        None
    } else if m[0].0 == key {
        Some(m[0].1)
    } else {
        meta_lookup(m.skip(1), key)
    }
}

/// The text a `{key}` token of an output file name template stands for.
/// `date` and `time` are the Unix time in seconds; `model` is the first of
/// the `checkpoint`, `model` and `model_name` metadata; an unknown key is
/// empty.
pub open spec fn template_value_spec(
    key: Seq<char>,
    prompt_id: Seq<char>,
    mode: Seq<char>,
    base: Seq<char>,
    meta: Option<Seq<(Seq<char>, Seq<char>)>>,
    now_secs: nat,
) -> Seq<char> {
    if key == "prompt_id"@ {
        prompt_id
    } else if key == "mode"@ {
        mode
    } else if key == "index"@ {
        index_from_base(base)
    } else if key == "date"@ || key == "time"@ {
        decimal(now_secs)
    } else if key == "model"@ {
        match meta {
            Some(m) => match meta_lookup(m, "checkpoint"@) {
                Some(v) => v,
                None => match meta_lookup(m, "model"@) {
                    Some(v) => v,
                    None => match meta_lookup(m, "model_name"@) {
                        Some(v) => v,
                        None => "unknown-model"@,
                    },
                },
            },
            None => "unknown-model"@,
        }
    } else if key == "seed"@ {
        match meta {
            Some(m) => match meta_lookup(m, "seed"@) {
                Some(v) => v,
                None => "0"@,
            },
            None => "0"@,
        }
    } else {
        Seq::<char>::empty()
    }
}

fn meta_get(m: &[(String, String)], key: &str) -> (r: Option<Vec<char>>)
    ensures
        match r {
            Some(v) => meta_lookup(pair_views(m@), key@) == Some(v@),
            None => meta_lookup(pair_views(m@), key@) is None,
        },
{
    let k = chars_of(key);
    let mut i: usize = 0;
    assert(pair_views(m@).skip(0) =~= pair_views(m@));
    while i < m.len()
        invariant
            i <= m.len(),
            k@ == key@,
            meta_lookup(pair_views(m@), key@) == meta_lookup(pair_views(m@).skip(i as int), key@),
        decreases m.len() - i,
    {
        let ghost rest = pair_views(m@).skip(i as int);
        assert(rest.len() > 0);
        assert(rest[0] == (m@[i as int].0@, m@[i as int].1@));
        assert(rest.skip(1) =~= pair_views(m@).skip(i + 1));
        let mk = chars_of(m[i].0.as_str());
        if same_chars(&mk, &k) {
            return Some(chars_of(m[i].1.as_str()));
        }
        i += 1;
    }
    assert(pair_views(m@).skip(m.len() as int) =~= Seq::<(Seq<char>, Seq<char>)>::empty());
    None
}

fn text_of(lit: &str) -> (r: Vec<char>)
    ensures
        r@ == lit@,
{
    chars_of(lit)
}

/// The text a template token stands for, given the Unix time now.
pub fn template_value(
    key: &str,
    prompt_id: &str,
    mode: &str,
    base: &str,
    metadata: Option<&[(String, String)]>,
    now_secs: u64,
) -> (r: String)
    ensures
        r@ == template_value_spec(key@, prompt_id@, mode@, base@, match metadata {
            Some(m) => Some(pair_views(m@)),
            None => None,
        }, now_secs as nat),
{
    let k = chars_of(key);
    let v: Vec<char> = if spells(&k, "prompt_id") {
        chars_of(prompt_id)
    } else if spells(&k, "mode") {
        chars_of(mode)
    } else if spells(&k, "index") {
        let s = parse_index_from_base(base);
        chars_of(s.as_str())
    } else if spells(&k, "date") || spells(&k, "time") {
        decimal_of(now_secs)
    } else if spells(&k, "model") {
        match metadata {
            Some(m) => match meta_get(m, "checkpoint") {
                Some(v) => v,
                None => match meta_get(m, "model") {
                    Some(v) => v,
                    None => match meta_get(m, "model_name") {
                        Some(v) => v,
                        None => text_of("unknown-model"),
                    },
                },
            },
            None => text_of("unknown-model"),
        }
    } else if spells(&k, "seed") {
        match metadata {
            Some(m) => match meta_get(m, "seed") {
                Some(v) => v,
                None => text_of("0"),
            },
            None => text_of("0"),
        }
    } else {
        Vec::new()
    };
    string_of(&v)
}

/// The tokens an output file name template may hold, in the order they are
/// filled.
pub open spec fn template_keys() -> Seq<Seq<char>> {
    seq!["prompt_id"@, "mode"@, "index"@, "date"@, "time"@, "model"@, "seed"@]
}

/// `tpl` with the first `n` template tokens filled in, each with its value
/// made a safe file name component.
pub open spec fn filled_template(
    tpl: Seq<char>,
    n: int,
    prompt_id: Seq<char>,
    mode: Seq<char>,
    base: Seq<char>,
    meta: Option<Seq<(Seq<char>, Seq<char>)>>,
    now_secs: nat,
) -> Seq<char>
    decreases n,
{
    if n <= 0 {
        tpl
    } else {
        let key = template_keys()[n - 1];
        replace_all(
            filled_template(tpl, n - 1, prompt_id, mode, base, meta, now_secs),
            "{"@ + key + "}"@,
            sanitized_component(template_value_spec(key, prompt_id, mode, base, meta, now_secs)),
        )
    }
}

/// The base name of a saved output: the user's template with its tokens
/// filled in and made a safe file name, or `{prompt_id}__{mode}__{base}`
/// made safe when there is no template or it leaves nothing.
pub open spec fn output_filename_base_spec(
    template: Option<Seq<char>>,
    prompt_id: Seq<char>,
    mode: Seq<char>,
    base: Seq<char>,
    meta: Option<Seq<(Seq<char>, Seq<char>)>>,
    now_secs: nat,
) -> Seq<char> {
    let fallback = sanitized_component(prompt_id + "__"@ + mode + "__"@ + base);
    match template {
        Some(t) => if trim(t).len() > 0 {
            let c = sanitized_component(filled_template(trim(t), 7, prompt_id, mode, base, meta, now_secs));
            if c.len() > 0 { c } else { fallback }
        } else {
            fallback
        },
        None => fallback,
    }
}

fn template_key_str(i: usize) -> (r: &'static str)
    requires
        i < 7,
    ensures
        r@ == template_keys()[i as int],
{
    if i == 0 {
        "prompt_id"
    } else if i == 1 {
        "mode"
    } else if i == 2 {
        "index"
    } else if i == 3 {
        "date"
    } else if i == 4 {
        "time"
    } else if i == 5 {
        "model"
    } else {
        "seed"
    }
}

/// The base name of a saved output, given the Unix time now.
pub fn render_output_filename_base(
    template: Option<&str>,
    prompt_id: &str,
    mode: &str,
    base: &str,
    metadata: Option<&[(String, String)]>,
    now_secs: u64,
) -> (r: String)
    ensures
        r@ == output_filename_base_spec(
            match template {
                Some(t) => Some(t@),
                None => None,
            },
            prompt_id@,
            mode@,
            base@,
            match metadata {
                Some(m) => Some(pair_views(m@)),
                None => None,
            },
            now_secs as nat,
        ),
{
    let ghost meta = match metadata {
        Some(m) => Some(pair_views(m@)),
        None => None,
    };
    match template {
        Some(tpl) => {
            let raw = chars_of(tpl);
            let t = trim_chars(&raw);
            if t.len() > 0 {
                let mut out = t;
                let mut i: usize = 0;
                while i < 7
                    invariant
                        i <= 7,
                        meta == (match metadata {
                            Some(m) => Some(pair_views(m@)),
                            None => None::<Seq<(Seq<char>, Seq<char>)>>,
                        }),
                        out@ == filled_template(trim(tpl@), i as int, prompt_id@, mode@, base@, meta, now_secs as nat),
                    decreases 7 - i,
                {
                    let key = template_key_str(i);
                    let mut token: Vec<char> = Vec::new();
                    push_str(&mut token, "{");
                    push_str(&mut token, key);
                    push_str(&mut token, "}");
                    proof { reveal_strlit("{"); }
                    let value = template_value(key, prompt_id, mode, base, metadata, now_secs);
                    let vc = chars_of(value.as_str());
                    let safe = sanitize_chars(&vc);
                    out = replace_chars(&out, &token, &safe);
                    i += 1;
                }
                let cleaned = sanitize_chars(&out);
                if cleaned.len() > 0 {
                    return string_of(&cleaned);
                }
            }
        },
        None => {},
    }
    let mut fb: Vec<char> = Vec::new();
    push_str(&mut fb, prompt_id);
    push_str(&mut fb, "__");
    push_str(&mut fb, mode);
    push_str(&mut fb, "__");
    push_str(&mut fb, base);
    string_of(&sanitize_chars(&fb))
}

/// Pixel dimensions of an indexed video, from the width and height stored
/// in its index row (`None` when it has no row). The stored integers are
/// cut to 32 bits, and a size that is not positive counts as unknown.
pub fn video_dimensions(row: Option<(i64, i64)>) -> (r: Option<(u32, u32)>)
    ensures
        r == (match row {
            Some((w, h)) => if (w as u32) > 0 && (h as u32) > 0 {
                Some(((w as u32), (h as u32)))
            } else {
                None::<(u32, u32)>
            },
            None => None::<(u32, u32)>,
        }),
{
    match row {
        Some((w, h)) => {
            let wu = w as u32;
            let hu = h as u32;
            if wu > 0 && hu > 0 {
                Some((wu, hu))
            } else {
                None
            }
        },
        None => None,
    }
}

/// The container of a gallery file, as the gallery index records it.
#[derive(Debug, Clone, Copy, PartialEq, Eq, Structural)]
pub enum ImageFormat {
    Png,
    Jxl,
    WebP,
    Mp4,
    Avif,
    Gif,
    Unknown,
}

/// The label the gallery index stores for a format.
pub fn format_label(fmt: ImageFormat) -> (r: &'static str)
    ensures
        r@ == match fmt {
            ImageFormat::Png => "png"@,
            ImageFormat::Jxl => "jxl"@,
            ImageFormat::WebP => "webp"@,
            ImageFormat::Mp4 => "mp4"@,
            ImageFormat::Avif => "avif"@,
            ImageFormat::Gif => "gif"@,
            ImageFormat::Unknown => "unknown"@,
        },
{
    match fmt {
        ImageFormat::Png => "png",
        ImageFormat::Jxl => "jxl",
        ImageFormat::WebP => "webp",
        ImageFormat::Mp4 => "mp4",
        ImageFormat::Avif => "avif",
        ImageFormat::Gif => "gif",
        ImageFormat::Unknown => "unknown",
    }
}

} // verus!
