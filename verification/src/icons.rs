//! Icon resolution: from a logical name such as `"en"` to a file or a
//! builtin flag.
//!
//! Search paths are tried in order. Each is a directory (`~/` at its
//! start stands for the home directory), the token `"system"` for
//! `/usr/share/xxkb/icons`, or the token `"builtin"` for the flags in
//! [`crate::bundle`]. In a directory the extensions are tried in order
//! of preference: SVG first unless raster is preferred.
//!
//! Whether a candidate file exists is a question for the file system:
//! [`icon_candidates`] lists the files to ask about, and
//! [`resolve_icon`] decides from the answers.

use vstd::prelude::*;

use crate::border::BorderStyle;
use crate::bundle::{builtin_bytes, builtin_id, lookup};
use crate::config::strings_view;
use crate::paths::{join_path, path_join};
use crate::text::{chars_of, ends_with_lit, eq_lit, starts_with_lit, subvec, string_of, ends_with};

verus! {

/// Errors from icon resolution and rendering.
#[derive(Debug, Clone)]
pub enum IconsError {
    /// No icon of that name in any search path.
    NotFound {
        /// Logical icon name.
        name: String,
    },
    /// I/O error reading an icon file, with the system's message.
    Io(String),
    /// The icon file could not be decoded.
    Decode(String),
    /// The requested size is invalid.
    InvalidSize(u32),
}

/// Where an icon's bytes come from.
#[derive(Debug, Clone)]
pub enum IconSource {
    /// A file on disk.
    File(String),
    /// Bytes compiled into the binary.
    Embedded {
        /// Stable identifier (e.g. `"en.svg"`).
        id: &'static str,
        /// Raw file bytes.
        bytes: &'static [u8],
    },
}

/// Abstract value of an [`IconSource`].
pub enum SourceView {
    /// A file path.
    File(Seq<char>),
    /// A builtin icon.
    Embedded { id: Seq<char>, bytes: Seq<u8> },
}

impl View for IconSource {
    type V = SourceView;

    open spec fn view(&self) -> SourceView {
        match self {
            IconSource::File(p) => SourceView::File(p@),
            IconSource::Embedded { id, bytes } => SourceView::Embedded { id: id@, bytes: bytes@ },
        }
    }
}

/// The cache key of a source: `file:<path>` or `builtin:<id>`.
pub open spec fn source_key(s: SourceView) -> Seq<char> {
    match s {
        SourceView::File(p) => "file:"@ + p,
        SourceView::Embedded { id, .. } => "builtin:"@ + id,
    }
}

impl IconSource {
    /// Stable text identifying this source, used as a cache key.
    pub fn cache_id(&self) -> (r: String)
        ensures
            r@ == source_key(self@),
    {
        match self {
            IconSource::File(p) => {
                let mut s = "file:".to_owned();
                s.append(p.as_str());
                s
            },
            IconSource::Embedded { id, .. } => {
                let mut s = "builtin:".to_owned();
                s.append(id);
                s
            },
        }
    }
}

/// A resolved icon.
#[derive(Debug, Clone)]
pub struct ResolvedIcon {
    /// Where to read the bytes.
    pub source: IconSource,
    /// Whether it is an SVG, which decides the renderer.
    pub is_svg: bool,
}

/// Abstract value of a [`ResolvedIcon`].
pub struct ResolvedView {
    /// Source.
    pub source: SourceView,
    /// Whether it is an SVG.
    pub is_svg: bool,
}

impl View for ResolvedIcon {
    type V = ResolvedView;

    open spec fn view(&self) -> ResolvedView {
        ResolvedView { source: self.source@, is_svg: self.is_svg }
    }
}

/// What identifies a rendered, bordered icon in a cache.
#[derive(Debug, Clone, Hash)]
pub struct CacheKey {
    /// Stable id of the source.
    pub source_id: String,
    /// Whether the source is an SVG.
    pub is_svg: bool,
    /// Side length in pixels.
    pub size_px: u32,
    /// Border drawn on top.
    pub border: BorderStyle,
}

impl PartialEq for CacheKey {
    fn eq(&self, other: &Self) -> (r: bool) {
        self.source_id == other.source_id && self.is_svg == other.is_svg && self.size_px
            == other.size_px && self.border == other.border
    }
}

impl vstd::std_specs::cmp::PartialEqSpecImpl for CacheKey {
    open spec fn obeys_eq_spec() -> bool {
        true
    }

    open spec fn eq_spec(&self, other: &Self) -> bool {
        &&& self.source_id@ == other.source_id@
        &&& self.is_svg == other.is_svg
        &&& self.size_px == other.size_px
        &&& self.border == other.border
    }
}

impl Eq for CacheKey {}

impl CacheKey {
    /// The key of `icon` rendered at `size_px` with `border`.
    pub fn new(icon: &ResolvedIcon, size_px: u32, border: BorderStyle) -> (r: Self)
        ensures
            r.source_id@ == source_key(icon@.source),
            r.is_svg == icon.is_svg,
            r.size_px == size_px,
            r.border == border,
    {
        CacheKey { source_id: icon.source.cache_id(), is_svg: icon.is_svg, size_px, border }
    }
}

/// The file extensions tried, most preferred first.
pub open spec fn extensions(prefer_svg: bool) -> Seq<Seq<char>> {
    if prefer_svg {
        seq!["svg"@, "png"@, "jpg"@, "jpeg"@, "bmp"@]
    } else {
        seq!["png"@, "jpg"@, "jpeg"@, "bmp"@, "svg"@]
    }
}

/// The directory a search-path entry stands for: `~/` expanded against
/// `home` when it is known, `"system"` for the system-wide directory.
pub open spec fn search_dir(entry: Seq<char>, home: Option<Seq<char>>) -> Seq<char> {
    if entry == "system"@ {
        "/usr/share/xxkb/icons"@
    } else if entry.len() >= 2 && entry[0] == '~' && entry[1] == '/' && home is Some {
        path_join(home->0, entry.skip(2))
    } else {
        entry
    }
}

/// The file `<dir>/<name>.<ext>`.
pub open spec fn candidate(dir: Seq<char>, name: Seq<char>, ext: Seq<char>) -> Seq<char> {
    path_join(dir, name + "."@ + ext)
}

/// The first of `exts` for which `<dir>/<name>.<ext>` exists, as an icon.
pub open spec fn try_dir(
    dir: Seq<char>,
    name: Seq<char>,
    exts: Seq<Seq<char>>,
    existing: Seq<Seq<char>>,
) -> Option<ResolvedView>
    decreases exts.len(),
{
    if exts.len() == 0 {
        None
    } else {
        let p = candidate(dir, name, exts[0]);
        if existing.contains(p) {
            Some(ResolvedView { source: SourceView::File(p), is_svg: exts[0] == "svg"@ })
        } else {
            try_dir(dir, name, exts.drop_first(), existing)
        }
    }
}

/// The icon found by trying the search paths from index `i` on.
pub open spec fn resolve_from(
    name: Seq<char>,
    paths: Seq<Seq<char>>,
    i: int,
    prefer_svg: bool,
    home: Option<Seq<char>>,
    existing: Seq<Seq<char>>,
) -> Option<ResolvedView>
    decreases paths.len() - i,
{
    if i < 0 || i >= paths.len() {
        None
    } else if paths[i] == "builtin"@ {
        match builtin_id(name) {
            Some(id) => Some(
                ResolvedView {
                    source: SourceView::Embedded { id, bytes: builtin_bytes(name) },
                    is_svg: ends_with(id, ".svg"@),
                },
            ),
            None => resolve_from(name, paths, i + 1, prefer_svg, home, existing),
        }
    } else {
        match try_dir(search_dir(paths[i], home), name, extensions(prefer_svg), existing) {
            Some(found) => Some(found),
            None => resolve_from(name, paths, i + 1, prefer_svg, home, existing),
        }
    }
}

/// The files to probe, in order, for the directory entries from index `i`.
pub open spec fn candidates_from(
    name: Seq<char>,
    paths: Seq<Seq<char>>,
    i: int,
    prefer_svg: bool,
    home: Option<Seq<char>>,
) -> Seq<Seq<char>>
    decreases paths.len() - i,
{
    if i < 0 || i >= paths.len() {
        Seq::empty()
    } else if paths[i] == "builtin"@ {
        candidates_from(name, paths, i + 1, prefer_svg, home)
    } else {
        extensions(prefer_svg).map_values(
            |e: Seq<char>| candidate(search_dir(paths[i], home), name, e),
        ) + candidates_from(name, paths, i + 1, prefer_svg, home)
    }
}

/// The extensions tried, in order of preference.
fn extension_list(prefer_svg: bool) -> (r: Vec<&'static str>)
    ensures
        r@.len() == 5,
        forall|k: int| 0 <= k < 5 ==> (#[trigger] r@[k])@ == extensions(prefer_svg)[k],
{
    let mut v: Vec<&'static str> = Vec::new();
    if prefer_svg {
        v.push("svg");
        v.push("png");
        v.push("jpg");
        v.push("jpeg");
        v.push("bmp");
    } else {
        v.push("png");
        v.push("jpg");
        v.push("jpeg");
        v.push("bmp");
        v.push("svg");
    }
    v
}

/// The directory a search-path entry stands for.
fn search_dir_of(entry: &str, home: &Option<String>) -> (r: String)
    ensures
        r@ == search_dir(
            entry@,
            match home {
                Some(h) => Some(h@),
                None => None,
            },
        ),
{
    let e = chars_of(entry);
    if eq_lit(&e, "system") {
        return "/usr/share/xxkb/icons".to_owned();
    }
    if e.len() >= 2 && e[0] == '~' && e[1] == '/' {
        if let Some(h) = home {
            let rest = subvec(&e, 2, e.len());
            let rest_s = string_of(&rest);
            proof {
                assert(rest@ =~= entry@.skip(2));
            }
            return join_path(h.as_str(), rest_s.as_str());
        }
    }
    entry.to_owned()
}

/// The file `<dir>/<name>.<ext>`.
fn candidate_of(dir: &str, name: &str, ext: &str) -> (r: String)
    ensures
        r@ == candidate(dir@, name@, ext@),
{
    let mut file = name.to_owned();
    file.append(".");
    file.append(ext);
    join_path(dir, file.as_str())
}

/// Whether `p` is one of `existing`.
fn contains_string(existing: &[String], p: &String) -> (r: bool)
    ensures
        r == strings_view(existing@).contains(p@),
{
    for i in 0..existing.len()
        invariant
            forall|j: int| 0 <= j < i ==> existing@[j]@ != p@,
    {
        if existing[i] == *p {
            proof {
                assert(strings_view(existing@)[i as int] == p@);
            }
            return true;
        }
    }
    proof {
        if strings_view(existing@).contains(p@) {
            let j = choose|j: int| 0 <= j < strings_view(existing@).len() && strings_view(
                existing@,
            )[j] == p@;
            assert(existing@[j]@ == p@);
        }
    }
    false
}

/// The home directory, as an optional sequence.
pub open spec fn home_view(home: Option<String>) -> Option<Seq<char>> {
    match home {
        Some(h) => Some(h@),
        None => None,
    }
}

/// The files whose existence decides [`resolve_icon`], in the order they
/// are tried: for each directory entry of `search_paths`, the candidate
/// `<dir>/<name>.<ext>` for each extension in order of preference.
pub fn icon_candidates(name: &str, search_paths: &[String], prefer_svg: bool, home: Option<String>) -> (r: Vec<String>)
    ensures
        strings_view(r@) == candidates_from(name@, strings_view(search_paths@), 0, prefer_svg, home_view(home)),
{
    let ghost paths = strings_view(search_paths@);
    let ghost hv = home_view(home);
    let exts = extension_list(prefer_svg);
    let mut out: Vec<String> = Vec::new();
    let n = search_paths.len();
    let mut i: usize = 0;
    while i < n
        invariant
            n == search_paths@.len() == paths.len(),
            paths == strings_view(search_paths@),
            hv == home_view(home),
            exts@.len() == 5,
            forall|k: int| 0 <= k < 5 ==> (#[trigger] exts@[k])@ == extensions(prefer_svg)[k],
            i <= n,
            strings_view(out@) + candidates_from(name@, paths, i as int, prefer_svg, hv)
                == candidates_from(name@, paths, 0, prefer_svg, hv),
        decreases n - i,
    {
        let entry = search_paths[i].as_str();
        let e = chars_of(entry);
        if !eq_lit(&e, "builtin") {
            let dir = search_dir_of(entry, &home);
            let ghost before = out@;
            let ghost dview = search_dir(paths[i as int], hv);
            for k in 0..5usize
                invariant
                    exts@.len() == 5,
                    forall|k2: int| 0 <= k2 < 5 ==> (#[trigger] exts@[k2])@ == extensions(
                        prefer_svg,
                    )[k2],
                    dir@ == dview,
                    strings_view(out@) == strings_view(before) + extensions(prefer_svg).take(
                        k as int,
                    ).map_values(|x: Seq<char>| candidate(dview, name@, x)),
            {
                let c = candidate_of(dir.as_str(), name, exts[k]);
                let ghost mid = out@;
                out.push(c);
                proof {
                    assert(extensions(prefer_svg).take(k + 1) =~= extensions(prefer_svg).take(
                        k as int,
                    ).push(extensions(prefer_svg)[k as int]));
                    assert(strings_view(out@) =~= strings_view(mid).push(c@));
                    assert(strings_view(out@) =~= strings_view(before) + extensions(
                        prefer_svg,
                    ).take(k + 1).map_values(|x: Seq<char>| candidate(dview, name@, x)));
                }
            }
            proof {
                assert(extensions(prefer_svg).take(5) =~= extensions(prefer_svg));
                assert(strings_view(out@) + candidates_from(name@, paths, i + 1, prefer_svg, hv)
                    =~= strings_view(before) + candidates_from(
                    name@,
                    paths,
                    i as int,
                    prefer_svg,
                    hv,
                ));
            }
        }
        i += 1;
    }
    proof {
        assert(strings_view(out@) + candidates_from(name@, paths, n as int, prefer_svg, hv)
            =~= strings_view(out@));
    }
    out
}

/// Resolves `name` against `search_paths` (see the module text), given
/// which candidate files exist: `existing` holds the paths found to be
/// files. Returns `NotFound` when no entry yields an icon.
pub fn resolve_icon(
    name: &str,
    search_paths: &[String],
    prefer_svg: bool,
    home: Option<String>,
    existing: &[String],
) -> (r: Result<ResolvedIcon, IconsError>)
    ensures
        match resolve_from(
            name@,
            strings_view(search_paths@),
            0,
            prefer_svg,
            home_view(home),
            strings_view(existing@),
        ) {
            Some(found) => r matches Ok(icon) && icon@ == found,
            None => r matches Err(IconsError::NotFound { name: n }) && n@ == name@,
        },
{
    let ghost paths = strings_view(search_paths@);
    let ghost hv = home_view(home);
    let ghost ex = strings_view(existing@);
    let exts = extension_list(prefer_svg);
    let n = search_paths.len();
    let mut i: usize = 0;
    while i < n
        invariant
            n == search_paths@.len() == paths.len(),
            paths == strings_view(search_paths@),
            hv == home_view(home),
            ex == strings_view(existing@),
            exts@.len() == 5,
            forall|k: int| 0 <= k < 5 ==> (#[trigger] exts@[k])@ == extensions(prefer_svg)[k],
            i <= n,
            resolve_from(name@, paths, 0, prefer_svg, hv, ex) == resolve_from(
                name@,
                paths,
                i as int,
                prefer_svg,
                hv,
                ex,
            ),
        decreases n - i,
    {
        let entry = search_paths[i].as_str();
        let e = chars_of(entry);
        if eq_lit(&e, "builtin") {
            if let Some((id, bytes)) = lookup(name) {
                let is_svg = ends_with_lit(&chars_of(id), ".svg");
                return Ok(ResolvedIcon { source: IconSource::Embedded { id, bytes }, is_svg });
            }
        } else {
            let dir = search_dir_of(entry, &home);
            let ghost dview = search_dir(paths[i as int], hv);
            proof {
                assert(extensions(prefer_svg).skip(0) =~= extensions(prefer_svg));
            }
            for k in 0..5usize
                invariant
                    exts@.len() == 5,
                    forall|k2: int| 0 <= k2 < 5 ==> (#[trigger] exts@[k2])@ == extensions(
                        prefer_svg,
                    )[k2],
                    dir@ == dview,
                    ex == strings_view(existing@),
                    paths == strings_view(search_paths@),
                    hv == home_view(home),
                    i < paths.len(),
                    paths[i as int] != "builtin"@,
                    dview == search_dir(paths[i as int], hv),
                    resolve_from(name@, paths, 0, prefer_svg, hv, ex) == resolve_from(
                        name@,
                        paths,
                        i as int,
                        prefer_svg,
                        hv,
                        ex,
                    ),
                    try_dir(dview, name@, extensions(prefer_svg), ex) == try_dir(
                        dview,
                        name@,
                        extensions(prefer_svg).skip(k as int),
                        ex,
                    ),
            {
                let c = candidate_of(dir.as_str(), name, exts[k]);
                proof {
                    let rest = extensions(prefer_svg).skip(k as int);
                    assert(rest[0] == extensions(prefer_svg)[k as int]);
                    assert(rest.drop_first() =~= extensions(prefer_svg).skip(k + 1));
                }
                if contains_string(existing, &c) {
                    let is_svg = eq_lit(&chars_of(exts[k]), "svg");
                    return Ok(ResolvedIcon { source: IconSource::File(c), is_svg });
                }
            }
            proof {
                assert(extensions(prefer_svg).skip(5) =~= Seq::<Seq<char>>::empty());
                assert(extensions(prefer_svg).skip(0) =~= extensions(prefer_svg));
            }
        }
        i += 1;
    }
    Err(IconsError::NotFound { name: name.to_owned() })
}


/// Whatever the preference, the extensions tried are exactly `svg`,
/// `png`, `jpg`, `jpeg` and `bmp`, each once; the preference only puts
/// `svg` first or last.
pub proof fn lemma_extensions_are_the_five_image_types(prefer_svg: bool)
    ensures
        extensions(prefer_svg).len() == 5,
        extensions(prefer_svg).no_duplicates(),
        extensions(prefer_svg).contains("svg"@),
        extensions(prefer_svg).contains("png"@),
        extensions(prefer_svg).contains("jpg"@),
        extensions(prefer_svg).contains("jpeg"@),
        extensions(prefer_svg).contains("bmp"@),
        prefer_svg ==> extensions(prefer_svg)[0] == "svg"@,
        !prefer_svg ==> extensions(prefer_svg)[4] == "svg"@,
{
    reveal_strlit("svg");
    reveal_strlit("png");
    reveal_strlit("jpg");
    reveal_strlit("jpeg");
    reveal_strlit("bmp");
    let e = extensions(prefer_svg);
    if prefer_svg {
        assert(e[0] == "svg"@ && e[1] == "png"@ && e[2] == "jpg"@ && e[3] == "jpeg"@ && e[4] == "bmp"@);
    } else {
        assert(e[4] == "svg"@ && e[0] == "png"@ && e[1] == "jpg"@ && e[2] == "jpeg"@ && e[3] == "bmp"@);
    }
    assert forall|i: int, j: int| 0 <= i < 5 && 0 <= j < 5 && i != j implies e[i] != e[j] by {
        assert(e[i].len() != e[j].len() || e[i][0] != e[j][0] || e[i][1] != e[j][1]);
    }
}

/// A directory holding `<name>.<ext>` for one of the extensions tried
/// yields an icon: the first extension, in order, whose file exists,
/// giving that file, an SVG exactly when its extension is `svg`.
pub proof fn lemma_try_dir_finds_existing(
    dir: Seq<char>,
    name: Seq<char>,
    exts: Seq<Seq<char>>,
    existing: Seq<Seq<char>>,
    e: Seq<char>,
)
    requires
        exts.contains(e),
        existing.contains(candidate(dir, name, e)),
    ensures
        try_dir(dir, name, exts, existing) matches Some(found) && exists|k: int|
            0 <= k < exts.len() && found == (ResolvedView {
                source: SourceView::File(candidate(dir, name, #[trigger] exts[k])),
                is_svg: exts[k] == "svg"@,
            }) && existing.contains(candidate(dir, name, exts[k])),
    decreases exts.len(),
{
    if !existing.contains(candidate(dir, name, exts[0])) {
        let k = choose|k: int| 0 <= k < exts.len() && exts[k] == e;
        assert(k != 0);
        assert(exts.drop_first()[k - 1] == e);
        lemma_try_dir_finds_existing(dir, name, exts.drop_first(), existing, e);
        let found = try_dir(dir, name, exts.drop_first(), existing)->0;
        let j = choose|j: int|
            0 <= j < exts.drop_first().len() && found == (ResolvedView {
                source: SourceView::File(candidate(dir, name, #[trigger] exts.drop_first()[j])),
                is_svg: exts.drop_first()[j] == "svg"@,
            }) && existing.contains(candidate(dir, name, exts.drop_first()[j]));
        assert(exts[j + 1] == exts.drop_first()[j]);
    }
}

/// A search-path entry that names a directory holding `<name>.<ext>`,
/// for any of `svg`, `png`, `jpg`, `jpeg` and `bmp` and either
/// preference, yields a file icon: resolution from that entry on never
/// fails, and a `.jpg` is found as readily as an `.svg`.
pub proof fn lemma_existing_image_is_found(
    name: Seq<char>,
    paths: Seq<Seq<char>>,
    i: int,
    prefer_svg: bool,
    home: Option<Seq<char>>,
    existing: Seq<Seq<char>>,
    e: Seq<char>,
)
    requires
        0 <= i < paths.len(),
        paths[i] != "builtin"@,
        e == "svg"@ || e == "png"@ || e == "jpg"@ || e == "jpeg"@ || e == "bmp"@,
        existing.contains(candidate(search_dir(paths[i], home), name, e)),
    ensures
        resolve_from(name, paths, i, prefer_svg, home, existing) matches Some(found)
            && found.source is File,
{
    lemma_extensions_are_the_five_image_types(prefer_svg);
    lemma_try_dir_finds_existing(search_dir(paths[i], home), name, extensions(prefer_svg), existing, e);
}

} // verus!
