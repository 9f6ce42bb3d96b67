//! Bundle inspection: signature detection, identifier derivation and icon
//! selection.
//!
//! Detection works on the header bytes that the caller has read from the
//! file; a missing header (an I/O failure or an unreadable file) never
//! detects as a bundle. The file's extension plays no part.

use vstd::prelude::*;
use crate::paths;
use crate::text;

verus! {

/// Failures of bundle inspection and extraction.
#[derive(Debug, Clone, PartialEq, Eq)]
pub enum AppImageError {
    /// An I/O failure, with a short description.
    Io(String),
    /// The named file is not a bundle.
    NotAppImage(String),
    /// The bundle's self-extraction failed, with its diagnostic output.
    ExtractionFailed(String),
    /// No menu-entry file was found in the extracted contents.
    NoDesktopFile,
    /// The menu-entry file could not be parsed.
    DesktopParseError(String),
}

/// The two accepted sub-format tags.
#[derive(Debug, Clone, Copy, PartialEq, Eq, Structural)]
pub enum AppImageType {
    Type1,
    Type2,
}

/// What inspection of one bundle yields.
#[derive(Debug, Clone)]
pub struct AppImageInfo {
    pub path: String,
    pub appimage_type: AppImageType,
    pub desktop_file: Option<String>,
    pub icon_files: Vec<String>,
    pub name: Option<String>,
}

/// The first four header bytes carry the native-executable signature.
pub open spec fn has_elf_magic(h: Seq<u8>) -> bool {
    h.len() >= 4 && h[0] == 0x7fu8 && h[1] == 0x45u8 && h[2] == 0x4cu8 && h[3] == 0x46u8
}

/// Bytes 8..11 carry the first sub-format signature.
pub open spec fn has_type1_magic(h: Seq<u8>) -> bool {
    h.len() >= 11 && h[8] == 0x41u8 && h[9] == 0x49u8 && h[10] == 0x01u8
}

/// Bytes 8..11 carry the second sub-format signature.
pub open spec fn has_type2_magic(h: Seq<u8>) -> bool {
    h.len() >= 11 && h[8] == 0x41u8 && h[9] == 0x49u8 && h[10] == 0x02u8
}

/// The sub-format a header detects as, if any.
pub open spec fn spec_bundle_type(h: Seq<u8>) -> Option<AppImageType> {
    if h.len() < 11 || !has_elf_magic(h) {
        None
    } else if has_type1_magic(h) {
        Some(AppImageType::Type1)
    } else if has_type2_magic(h) {
        Some(AppImageType::Type2)
    } else {
        None
    }
}

/// Classify a header read from a file. A short read (fewer than 11 bytes)
/// never matches.
pub fn check_magic_bytes(header: &Vec<u8>) -> (r: Option<AppImageType>)
    ensures
        r == spec_bundle_type(header@),
{
    if header.len() < 11 {
        return None;
    }
    if !(header[0] == 0x7f && header[1] == 0x45 && header[2] == 0x4c && header[3] == 0x46) {
        return None;
    }
    if header[8] == 0x41 && header[9] == 0x49 && header[10] == 0x01 {
        return Some(AppImageType::Type1);
    }
    if header[8] == 0x41 && header[9] == 0x49 && header[10] == 0x02 {
        return Some(AppImageType::Type2);
    }
    None
}

/// Whether a header read from a file detects as a bundle. `None` stands for
/// an I/O failure or unreadable file and never detects. The signature alone
/// decides: a header whose first four bytes are not the native-executable
/// magic is refused whatever the file is called.
pub fn is_appimage(header: &Option<Vec<u8>>) -> (r: bool)
    ensures
        r == match header {
            Some(h) => spec_bundle_type(h@) is Some,
            None => false,
        },
        r ==> (header matches Some(h) && has_elf_magic(h@)),
{
    match header {
        Some(h) => check_magic_bytes(h).is_some(),
        None => false,
    }
}

/// The sub-format of a bundle, or a typed failure: `Io` when the header
/// could not be read, `NotAppImage` naming the path when the signature does
/// not match.
pub fn get_appimage_type(path: &String, header: &Option<Vec<u8>>) -> (r: Result<
    AppImageType,
    AppImageError,
>)
    ensures
        match header {
            Some(h) => match spec_bundle_type(h@) {
                Some(t) => r == Result::<AppImageType, AppImageError>::Ok(t),
                None => r matches Result::<AppImageType, AppImageError>::Err(
                    AppImageError::NotAppImage(p),
                ) && p@ == path@,
            },
            None => r matches Result::<AppImageType, AppImageError>::Err(AppImageError::Io(_)),
        },
{
    match header {
        Some(h) => match check_magic_bytes(h) {
            Some(t) => Ok(t),
            None => Err(AppImageError::NotAppImage(path.clone())),
        },
        None => Err(AppImageError::Io(path.clone())),
    }
}

/// The execute bits mirroring the read bits of a permission mode word.
pub open spec fn spec_executable_mode(mode: u32) -> u32 {
    mode | ((mode & 0o444) / 4)
}

/// The mode a file gets when its execute bits are made to mirror its read
/// bits; unchanged when it is already executable that way.
pub fn executable_mode(mode: u32) -> (r: u32)
    ensures
        r == spec_executable_mode(mode),
{
    proof {
        assert((mode & 0o444) >> 2u32 == (mode & 0o444) / 4) by (bit_vector);
    }
    mode | ((mode & 0o444) >> 2)
}

/// Name for the digest that `md5_hex` computes: a function of the path
/// string alone.
pub uninterp spec fn md5_hex_of(s: Seq<char>) -> Seq<char>;

/// A lowercase hexadecimal digit.
pub open spec fn is_hex_lower(c: char) -> bool {
    (48 <= c as u32 <= 57) || (97 <= c as u32 <= 102)
}

/// Relies on `md5::compute` and the `LowerHex` impl of `md5::Digest`: the
/// 16-byte digest of the UTF-8 bytes of `s`, printed as exactly 32 lowercase
/// hexadecimal digits, depending on `s` alone.
#[verifier::external_body]
fn md5_hex(s: &str) -> (r: String)
    ensures
        r@ == md5_hex_of(s@),
        r@.len() == 32,
        forall|i: int| 0 <= i < r@.len() ==> is_hex_lower(#[trigger] r@[i]),
{
    format!("{:x}", md5::compute(s.as_bytes()))
}

/// The store identifier of a bundle: a digest of its path string, stable
/// across runs of the process.
pub fn generate_identifier(path: &str) -> (r: String)
    ensures
        r@ == md5_hex_of(path@),
        r@.len() == 32,
        forall|i: int| 0 <= i < r@.len() ==> is_hex_lower(#[trigger] r@[i]),
{
    md5_hex(path)
}

/// Law: the identifier is a pure function of the path string. Two equal
/// path strings always derive the identical identifier, in any run.
/// (That distinct paths collide only with negligible probability is a
/// property of the digest and is not provable here.)
pub proof fn lemma_generate_identifier_deterministic(p1: Seq<char>, p2: Seq<char>)
    requires
        p1 == p2,
    ensures
        md5_hex_of(p1) == md5_hex_of(p2),
{
}

/// The path has an extension that lower-cases to `ext`.
pub open spec fn has_ext(p: Seq<char>, ext: Seq<char>) -> bool {
    paths::extension_sp(p) matches Some(e) && text::lower_seq(e) == ext
}

/// Whether a path's extension lower-cases to `ext` (given as chars).
pub fn path_has_ext(p: &Vec<char>, ext: &Vec<char>) -> (r: bool)
    ensures
        r == has_ext(p@, ext@),
{
    match paths::extension_lower(p) {
        Some(e) => text::chars_eq(&e, ext),
        None => false,
    }
}

/// The numeric size a path component of the shape `NxN` encodes: the
/// decimal value of what precedes the component's first `x`, when that
/// prefix is all digits and fits.
pub open spec fn component_size(comp: Seq<char>) -> Option<int> {
    let pre = comp.subrange(0, text::first_index_of(comp, 'x') as int);
    if pre.len() > 0 && text::all_digits(pre) && text::dec_value(pre) <= u32::MAX as int {
        Some(text::dec_value(pre))
    } else {
        None
    }
}

/// The first component that encodes a size decides.
pub open spec fn size_from_components(comps: Seq<Seq<char>>) -> Option<int>
    decreases comps.len(),
{
    if comps.len() == 0 {
        None
    } else if component_size(comps[0]) is Some {
        component_size(comps[0])
    } else {
        size_from_components(comps.drop_first())
    }
}

/// The pixel size a path encodes in one of its `/`-separated components.
pub open spec fn icon_size_sp(p: Seq<char>) -> Option<int> {
    size_from_components(text::split_on(p, '/'))
}

proof fn lemma_size_from_at(comps: Seq<Seq<char>>, k: int)
    requires
        0 <= k <= comps.len(),
        forall|j: int| 0 <= j < k ==> component_size(#[trigger] comps[j]) is None,
        k < comps.len() ==> component_size(comps[k]) is Some,
    ensures
        size_from_components(comps) == if k < comps.len() {
            component_size(comps[k])
        } else {
            Option::<int>::None
        },
    decreases comps.len(),
{
    if comps.len() > 0 && k > 0 {
        assert(component_size(comps[0]) is None);
        lemma_size_from_at(comps.drop_first(), k - 1);
        assert(k < comps.len() ==> comps.drop_first()[k - 1] == comps[k]);
    }
}

/// The size encoded in an icon path, read from its first `NxN`-shaped
/// component.
pub fn extract_icon_size(path: &str) -> (r: Option<u32>)
    ensures
        match r {
            Some(x) => icon_size_sp(path@) == Some(x as int),
            None => icon_size_sp(path@) is None,
        },
{
    let chars = text::to_chars(path);
    let comps = text::split_on_char(&chars, '/');
    let ghost cv = comps@.map_values(|x: Vec<char>| x@);
    let n = comps.len();
    let mut k: usize = 0;
    while k < n
        invariant
            k <= n,
            n == comps@.len(),
            cv == comps@.map_values(|x: Vec<char>| x@),
            cv == text::split_on(path@, '/'),
            forall|j: int| 0 <= j < k ==> component_size(#[trigger] cv[j]) is None,
        decreases n - k,
    {
        let comp = &comps[k];
        let xi = match text::find_char(comp, 'x') {
            Some(i) => i,
            None => comp.len(),
        };
        let pre = text::subvec(comp, 0, xi);
        proof {
            assert(cv[k as int] == comp@);
        }
        match text::parse_u32(&pre) {
            Some(v) => {
                proof {
                    lemma_size_from_at(cv, k as int);
                }
                return Some(v);
            },
            None => {
                proof {
                    assert(component_size(comp@) is None);
                }
            },
        }
        k += 1;
    }
    proof {
        lemma_size_from_at(cv, n as int);
    }
    None
}

/// The size used to rank a PNG candidate; an untagged path ranks as zero.
pub open spec fn png_size_sp(p: Seq<char>) -> int {
    match icon_size_sp(p) {
        Some(v) => v,
        None => 0,
    }
}

/// The best PNG among the first `n` candidates: the largest ranked size,
/// the earliest of equals.
pub open spec fn best_png_upto(icons: Seq<Seq<char>>, n: int) -> Option<int>
    decreases n,
{
    if n <= 0 {
        None
    } else {
        let prev = best_png_upto(icons, n - 1);
        if has_ext(icons[n - 1], "png"@) {
            match prev {
                None => Some(n - 1),
                Some(b) => if png_size_sp(icons[n - 1]) > png_size_sp(icons[b]) {
                    Some(n - 1)
                } else {
                    Some(b)
                },
            }
        } else {
            prev
        }
    }
}

/// The first SVG among the first `n` candidates.
pub open spec fn first_svg_upto(icons: Seq<Seq<char>>, n: int) -> Option<int>
    decreases n,
{
    if n <= 0 {
        None
    } else {
        match first_svg_upto(icons, n - 1) {
            Some(i) => Some(i),
            None => if has_ext(icons[n - 1], "svg"@) {
                Some(n - 1)
            } else {
                None
            },
        }
    }
}

/// The index `select_best_icon` picks: the best PNG, else the first SVG,
/// else the first candidate of any kind; nothing from an empty list.
pub open spec fn select_best_icon_sp(icons: Seq<Seq<char>>) -> Option<int> {
    if best_png_upto(icons, icons.len() as int) is Some {
        best_png_upto(icons, icons.len() as int)
    } else if first_svg_upto(icons, icons.len() as int) is Some {
        first_svg_upto(icons, icons.len() as int)
    } else if icons.len() > 0 {
        Some(0)
    } else {
        None
    }
}

/// Pick the preferred icon among the candidates: the PNG with the largest
/// size read from an `NxN` path segment (earliest wins ties, untagged PNGs
/// rank as size zero), else any SVG, else the first candidate.
pub fn select_best_icon(icons: &Vec<String>) -> (r: Option<String>)
    ensures
        ({
            let iv = icons@.map_values(|s: String| s@);
            match r {
                Some(p) => select_best_icon_sp(iv) matches Some(i) && 0 <= i < iv.len() && p@
                    == iv[i],
                None => select_best_icon_sp(iv) is None && icons@.len() == 0,
            }
        }),
{
    let ghost iv = icons@.map_values(|s: String| s@);
    let n = icons.len();
    let png_lit = text::to_chars("png");
    let svg_lit = text::to_chars("svg");
    let mut best: Option<usize> = None;
    let mut best_size: u32 = 0;
    let mut k: usize = 0;
    while k < n
        invariant
            k <= n,
            n == icons@.len(),
            iv == icons@.map_values(|s: String| s@),
            png_lit@ == "png"@,
            match best {
                Some(b) => best_png_upto(iv, k as int) == Some(b as int) && b < n && best_size
                    as int == png_size_sp(iv[b as int]),
                None => best_png_upto(iv, k as int) is None,
            },
        decreases n - k,
    {
        let pc = text::to_chars(icons[k].as_str());
        proof {
            assert(iv[k as int] == icons@[k as int]@);
        }
        if path_has_ext(&pc, &png_lit) {
            let size = match extract_icon_size(icons[k].as_str()) {
                Some(s) => s,
                None => 0,
            };
            match best {
                None => {
                    best = Some(k);
                    best_size = size;
                },
                Some(_) => {
                    if size > best_size {
                        best = Some(k);
                        best_size = size;
                    }
                },
            }
        }
        k += 1;
    }
    if let Some(b) = best {
        return Some(icons[b].clone());
    }
    // no PNG: fall back to the first SVG
    let mut k: usize = 0;
    while k < n
        invariant
            k <= n,
            n == icons@.len(),
            iv == icons@.map_values(|s: String| s@),
            svg_lit@ == "svg"@,
            best_png_upto(iv, iv.len() as int) is None,
            first_svg_upto(iv, k as int) is None,
        decreases n - k,
    {
        let pc = text::to_chars(icons[k].as_str());
        proof {
            assert(iv[k as int] == icons@[k as int]@);
        }
        if path_has_ext(&pc, &svg_lit) {
            proof {
                lemma_first_svg_stable(iv, k as int + 1, iv.len() as int);
            }
            return Some(icons[k].clone());
        }
        k += 1;
    }
    // no SVG either: the first candidate of any kind
    if n > 0 {
        Some(icons[0].clone())
    } else {
        None
    }
}

/// How one walked path changes the classification: a file literally named
/// `.DirIcon` is an icon; a menu-entry file is kept, a later one only when
/// it sits directly at the extraction root; icon-shaped extensions collect.
pub open spec fn classify_step(
    acc: (Option<Seq<char>>, Seq<Seq<char>>),
    p: Seq<char>,
    root: Seq<char>,
) -> (Option<Seq<char>>, Seq<Seq<char>>) {
    if paths::file_name_sp(p) == ".DirIcon"@ {
        (acc.0, acc.1.push(p))
    } else if has_ext(p, "desktop"@) {
        if acc.0 is None || paths::is_direct_child_of(p, root) {
            (Some(p), acc.1)
        } else {
            acc
        }
    } else if has_ext(p, "png"@) || has_ext(p, "svg"@) || has_ext(p, "xpm"@) {
        (acc.0, acc.1.push(p))
    } else {
        acc
    }
}

/// Classification of the first `n` walked paths, in order.
pub open spec fn classify_upto(files: Seq<Seq<char>>, root: Seq<char>, n: int) -> (
    Option<Seq<char>>,
    Seq<Seq<char>>,
)
    decreases n,
{
    if n <= 0 {
        (None, Seq::empty())
    } else {
        classify_step(classify_upto(files, root, n - 1), files[n - 1], root)
    }
}

/// Sort the walked extraction contents into the menu-entry file and the
/// icon candidates. `search_dir` is the extraction root the caller walked;
/// `files` are the file paths found under it, in walk order.
pub fn find_extracted_files(search_dir: &String, files: &Vec<String>) -> (r: (
    Option<String>,
    Vec<String>,
))
    ensures
        ({
            let fv = files@.map_values(|s: String| s@);
            let c = classify_upto(fv, search_dir@, fv.len() as int);
            &&& match r.0 {
                Some(d) => c.0 matches Some(x) && d@ == x,
                None => c.0 is None,
            }
            &&& r.1@.map_values(|s: String| s@) == c.1
        }),
{
    let ghost fv = files@.map_values(|s: String| s@);
    let root_chars = text::to_chars(search_dir.as_str());
    let diricon_lit = text::to_chars(".DirIcon");
    let desktop_lit = text::to_chars("desktop");
    let png_lit = text::to_chars("png");
    let svg_lit = text::to_chars("svg");
    let xpm_lit = text::to_chars("xpm");
    let mut desktop_file: Option<String> = None;
    let mut icon_files: Vec<String> = Vec::new();
    let n = files.len();
    let mut k: usize = 0;
    proof {
        assert(icon_files@.map_values(|s: String| s@) =~= Seq::<Seq<char>>::empty());
    }
    while k < n
        invariant
            k <= n,
            n == files@.len(),
            fv == files@.map_values(|s: String| s@),
            root_chars@ == search_dir@,
            diricon_lit@ == ".DirIcon"@,
            desktop_lit@ == "desktop"@,
            png_lit@ == "png"@,
            svg_lit@ == "svg"@,
            xpm_lit@ == "xpm"@,
            ({
                let c = classify_upto(fv, search_dir@, k as int);
                &&& match desktop_file {
                    Some(d) => c.0 matches Some(x) && d@ == x,
                    None => c.0 is None,
                }
                &&& icon_files@.map_values(|s: String| s@) == c.1
            }),
        decreases n - k,
    {
        let pc = text::to_chars(files[k].as_str());
        proof {
            assert(fv[k as int] == files@[k as int]@);
        }
        let name = paths::file_name(&pc);
        let ghost pre_icons = icon_files@.map_values(|s: String| s@);
        if text::chars_eq(&name, &diricon_lit) {
            icon_files.push(files[k].clone());
            proof {
                assert(icon_files@.map_values(|s: String| s@) =~= pre_icons.push(fv[k as int]));
            }
        } else if path_has_ext(&pc, &desktop_lit) {
            let take = match &desktop_file {
                None => true,
                Some(_) => paths::is_direct_child(&pc, &root_chars),
            };
            if take {
                desktop_file = Some(files[k].clone());
            }
        } else if path_has_ext(&pc, &png_lit) || path_has_ext(&pc, &svg_lit) || path_has_ext(
            &pc,
            &xpm_lit,
        ) {
            icon_files.push(files[k].clone());
            proof {
                assert(icon_files@.map_values(|s: String| s@) =~= pre_icons.push(fv[k as int]));
            }
        }
        k += 1;
    }
    (desktop_file, icon_files)
}

/// Bundle a finished inspection: the display name is the menu-entry file's
/// base name, when one was found.
pub fn assemble_info(
    path: &String,
    appimage_type: AppImageType,
    desktop_file: Option<String>,
    icon_files: Vec<String>,
) -> (r: AppImageInfo)
    ensures
        r.path@ == path@,
        r.appimage_type == appimage_type,
        r.desktop_file == desktop_file,
        r.icon_files == icon_files,
        match r.desktop_file {
            Some(d) => r.name matches Some(nm) && nm@ == paths::file_stem_sp(d@),
            None => r.name is None,
        },
{
    let name = match &desktop_file {
        Some(d) => {
            let dc = text::to_chars(d.as_str());
            let st = paths::file_stem(&dc);
            Some(text::from_chars(&st))
        },
        None => None,
    };
    AppImageInfo { path: path.clone(), appimage_type, desktop_file, icon_files, name }
}

proof fn lemma_first_svg_stable(icons: Seq<Seq<char>>, m: int, n: int)
    requires
        0 < m <= n <= icons.len(),
        first_svg_upto(icons, m) is Some,
    ensures
        first_svg_upto(icons, n) == first_svg_upto(icons, m),
    decreases n - m,
{
    if m < n {
        lemma_first_svg_stable(icons, m + 1, n);
    }
}

} // verus!
