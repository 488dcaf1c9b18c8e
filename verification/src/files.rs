//! Which files an operation applies to, judged by extension.

use vstd::prelude::*;

verus! {

/// The operations that pick files by extension.
#[derive(Clone, Copy, Debug, PartialEq, Eq, Structural)]
pub enum FileKind {
    /// Rasters that can be converted to cloud-optimized GeoTIFF.
    RasterSource,
    /// Vector files that can be converted to GeoParquet.
    VectorSource,
    /// Rasters that statistics are computed for.
    QaqcRaster,
}

/// An ASCII capital as its small letter; any other character unchanged.
pub open spec fn lower_char(c: char) -> char {
    if 'A' <= c && c <= 'Z' {
        ((c as u32) + 32) as char
    } else {
        c
    }
}

/// A text with its ASCII capitals made small.
pub open spec fn lowered(s: Seq<char>) -> Seq<char> {
    Seq::new(s.len(), |i: int| lower_char(s[i]))
}

/// The extensions of a kind, in small letters.
pub open spec fn allow_list(kind: FileKind) -> Seq<Seq<char>> {
    match kind {
        FileKind::RasterSource => seq!["tif"@, "tiff"@, "tff"@, "asc"@, "img"@],
        FileKind::VectorSource => seq![
            "gpkg"@,
            "json"@,
            "geojson"@,
            "fgb"@,
            "kml"@,
            "gpx"@,
            "shp"@,
        ],
        FileKind::QaqcRaster => seq!["tif"@, "tiff"@, "asc"@, "img"@, "vrt"@],
    }
}

pub fn to_lower(c: char) -> (l: char)
    ensures
        l == lower_char(c),
{
    if 'A' <= c && c <= 'Z' {
        ((c as u32) + 32) as u8 as char
    } else {
        c
    }
}

/// Whether two texts are the same, character by character.
pub fn same_text(a: &str, b: &str) -> (same: bool)
    ensures
        same == (a@ == b@),
{
    let n: usize = a.unicode_len();
    if n != b.unicode_len() {
        return false;
    }
    let mut i: usize = 0;
    while i < n
        invariant
            i <= n,
            n == a@.len(),
            n == b@.len(),
            forall|k: int| 0 <= k < i ==> a@[k] == b@[k],
        decreases n - i,
    {
        if a.get_char(i) != b.get_char(i) {
            return false;
        }
        i = i + 1;
    }
    proof {
        assert(a@ =~= b@);
    }
    true
}

/// Whether `text`, capitals made small, reads as `word`.
pub fn matches_ignoring_case(text: &str, word: &str) -> (same: bool)
    ensures
        same == (lowered(text@) == word@),
{
    let n: usize = text.unicode_len();
    if n != word.unicode_len() {
        return false;
    }
    let mut i: usize = 0;
    while i < n
        invariant
            i <= n,
            n == text@.len(),
            n == word@.len(),
            forall|k: int| 0 <= k < i ==> lower_char(text@[k]) == word@[k],
        decreases n - i,
    {
        if to_lower(text.get_char(i)) != word.get_char(i) {
            proof {
                assert(lowered(text@)[i as int] != word@[i as int]);
            }
            return false;
        }
        i = i + 1;
    }
    proof {
        assert(lowered(text@) =~= word@);
    }
    true
}

/// Whether a file with this extension belongs to the kind. Capitals in the
/// extension count as small letters.
pub fn extension_allowed(kind: FileKind, ext: &str) -> (allowed: bool)
    ensures
        allowed == allow_list(kind).contains(lowered(ext@)),
{
    let found: bool = match kind {
        FileKind::RasterSource => {
            matches_ignoring_case(ext, "tif") || matches_ignoring_case(ext, "tiff")
                || matches_ignoring_case(ext, "tff") || matches_ignoring_case(ext, "asc")
                || matches_ignoring_case(ext, "img")
        },
        FileKind::VectorSource => {
            matches_ignoring_case(ext, "gpkg") || matches_ignoring_case(ext, "json")
                || matches_ignoring_case(ext, "geojson") || matches_ignoring_case(ext, "fgb")
                || matches_ignoring_case(ext, "kml") || matches_ignoring_case(ext, "gpx")
                || matches_ignoring_case(ext, "shp")
        },
        FileKind::QaqcRaster => {
            matches_ignoring_case(ext, "tif") || matches_ignoring_case(ext, "tiff")
                || matches_ignoring_case(ext, "asc") || matches_ignoring_case(ext, "img")
                || matches_ignoring_case(ext, "vrt")
        },
    };
    proof {
        let list = allow_list(kind);
        let low = lowered(ext@);
        if found {
            let k = choose|k: int| 0 <= k < list.len() && list[k] == low;
            assert(list.contains(low));
        } else {
            assert forall|k: int| 0 <= k < list.len() implies list[k] != low by {}
        }
    }
    found
}

/// The positions of the entries whose extension belongs to the kind, in
/// ascending order. An entry without extension is given as `None`.
pub fn matching_entries(kind: FileKind, extensions: &Vec<Option<String>>) -> (hits: Vec<usize>)
    ensures
        forall|k: int| 0 <= k < hits@.len() ==> (#[trigger] hits@[k]) < extensions@.len(),
        forall|k: int, l: int| 0 <= k < l < hits@.len() ==> hits@[k] < hits@[l],
        forall|p: int|
            0 <= p < extensions@.len() ==> (hits@.contains(p as usize) <==> entry_allowed(
                kind,
                #[trigger] extensions@[p],
            )),
{
    let mut hits: Vec<usize> = Vec::new();
    let mut i: usize = 0;
    while i < extensions.len()
        invariant
            i <= extensions@.len(),
            forall|k: int| 0 <= k < hits@.len() ==> (#[trigger] hits@[k]) < i,
            forall|k: int, l: int| 0 <= k < l < hits@.len() ==> hits@[k] < hits@[l],
            forall|p: int|
                0 <= p < i ==> (hits@.contains(p as usize) <==> entry_allowed(
                    kind,
                    #[trigger] extensions@[p],
                )),
        decreases extensions@.len() - i,
    {
        let ghost before = hits@;
        let hit: bool = match &extensions[i] {
            Some(ext) => extension_allowed(kind, ext.as_str()),
            None => false,
        };
        if hit {
            hits.push(i);
        }
        proof {
            assert forall|p: int| 0 <= p < i + 1 implies (hits@.contains(p as usize)
                <==> entry_allowed(kind, #[trigger] extensions@[p])) by {
                if hit {
                    assert(hits@[before.len() as int] == i);
                    if p < i && before.contains(p as usize) {
                        let k = choose|k: int| 0 <= k < before.len() && before[k] == p as usize;
                        assert(hits@[k] == p as usize);
                    }
                    if hits@.contains(p as usize) && p < i {
                        let k = choose|k: int| 0 <= k < hits@.len() && hits@[k] == p as usize;
                        assert(before[k] == p as usize);
                    }
                } else {
                    if hits@.contains(p as usize) {
                        let k = choose|k: int| 0 <= k < hits@.len() && hits@[k] == p as usize;
                        assert(p < i);
                    }
                }
            }
        }
        i = i + 1;
    }
    hits
}

/// Whether an entry's extension, if it has one, belongs to the kind.
pub open spec fn entry_allowed(kind: FileKind, ext: Option<String>) -> bool {
    match ext {
        Some(e) => allow_list(kind).contains(lowered(e@)),
        None => false,
    }
}

} // verus!
