//! Media types by file extension.

use vstd::prelude::*;
use crate::text::{chars_of, slice_is, string_of};

verus! {

/// Lower-case mapping of a string, as the standard library defines it for
/// all of Unicode.
pub uninterp spec fn lowercase_of(s: Seq<char>) -> Seq<char>;

/// Relies on `str::to_lowercase`: the Unicode lower-case mapping, which
/// depends on the characters alone and keeps an empty string empty.
#[verifier::external_body]
pub(crate) fn to_lowercase(s: &str) -> (r: String)
    ensures
        r@ == lowercase_of(s@),
        s@.len() == 0 ==> r@.len() == 0,
{
    s.to_lowercase()
}

/// The media type served for a lower-case extension (with its dot).
pub open spec fn content_type_of(ext: Seq<char>) -> &'static str {
    if ext == ".html"@ {
        "text/html"
    } else if ext == ".css"@ {
        "text/css"
    } else if ext == ".js"@ {
        "application/javascript"
    } else if ext == ".ico"@ {
        "image/x-icon"
    } else if ext == ".jpg"@ {
        "image/jpeg"
    } else if ext == ".jpeg"@ {
        "image/jpeg"
    } else if ext == ".png"@ {
        "image/png"
    } else if ext == ".gif"@ {
        "image/gif"
    } else if ext == ".mp4"@ {
        "video/mp4"
    } else if ext == ".mov"@ {
        "video/quicktime"
    } else if ext == ".pdf"@ {
        "application/pdf"
    } else if ext == ".txt"@ {
        "text/plain"
    } else if ext == ".xml"@ {
        "application/xml"
    } else if ext == ".json"@ {
        "application/json"
    } else if ext == ".csv"@ {
        "text/csv"
    } else if ext == ".svg"@ {
        "image/svg+xml"
    } else if ext == ".mp3"@ {
        "audio/mpeg"
    } else if ext == ".wav"@ {
        "audio/wav"
    } else if ext == ".zip"@ {
        "application/zip"
    } else if ext == ".tar"@ {
        "application/x-tar"
    } else if ext == ".gz"@ {
        "application/gzip"
    } else if ext == ".gzip"@ {
        "application/gzip"
    } else if ext == ".ogg"@ {
        "audio/ogg"
    } else if ext == ".woff"@ {
        "font/woff"
    } else if ext == ".woff2"@ {
        "font/woff2"
    } else if ext == ".eot"@ {
        "application/vnd.ms-fontobject"
    } else if ext == ".ttf"@ {
        "font/ttf"
    } else if ext == ".otf"@ {
        "font/otf"
    } else if ext == ".webp"@ {
        "image/webp"
    } else if ext == ".avi"@ {
        "video/x-msvideo"
    } else if ext == ".flv"@ {
        "video/x-flv"
    } else if ext == ".wmv"@ {
        "video/x-ms-wmv"
    } else if ext == ".mkv"@ {
        "video/x-matroska"
    } else if ext == ".3gp"@ {
        "video/3gpp"
    } else if ext == ".3g2"@ {
        "video/3gpp2"
    } else if ext == ".ogv"@ {
        "video/ogg"
    } else if ext == ".webm"@ {
        "video/webm"
    } else if ext == ".mpg"@ {
        "video/mpeg"
    } else if ext == ".mpeg"@ {
        "video/mpeg"
    } else if ext == ".m4v"@ {
        "video/x-m4v"
    } else if ext == ".mng"@ {
        "video/x-mng"
    } else if ext == ".mpv"@ {
        "video/x-matroska"
    } else if ext == ".ts"@ {
        "video/mp2t"
    } else if ext == ".asf"@ {
        "video/x-ms-asf"
    } else if ext == ".asx"@ {
        "video/x-ms-asf"
    } else if ext == ".vob"@ {
        "video/dvd"
    } else if ext == ".m2ts"@ {
        "video/MP2T"
    } else if ext == ".divx"@ {
        "video/divx"
    } else if ext == ".xvid"@ {
        "video/x-xvid"
    } else if ext == ".rm"@ {
        "application/vnd.rn-realmedia"
    } else if ext == ".rmvb"@ {
        "application/vnd.rn-realmedia-vbr"
    } else if ext == ".f4v"@ {
        "video/x-f4v"
    } else if ext == ".mpeg4"@ {
        "video/mp4"
    } else if ext == ".mp4v"@ {
        "video/mp4"
    } else if ext == ".3gpp"@ {
        "video/3gpp"
    } else if ext == ".mj2"@ {
        "video/mj2"
    } else if ext == ".mk3d"@ {
        "video/x-matroska-3d"
    } else if ext == ".mks"@ {
        "video/x-matroska"
    } else if ext == ".h264"@ {
        "video/h264"
    } else if ext == ".h265"@ {
        "video/h265"
    } else {
        "application/octet-stream"
    }
}

/// The media type for an extension already in lower case (with its dot);
/// `application/octet-stream` for an unknown one.
pub fn content_type_for_extension(ext: &str) -> (r: &'static str)
    ensures
        r@ == content_type_of(ext@)@,
{
    let c = chars_of(ext);
    let n = c.len();
    assert(c@.subrange(0, n as int) == ext@);
    if slice_is(&c, 0, n, ".html") {
        "text/html"
    } else if slice_is(&c, 0, n, ".css") {
        "text/css"
    } else if slice_is(&c, 0, n, ".js") {
        "application/javascript"
    } else if slice_is(&c, 0, n, ".ico") {
        "image/x-icon"
    } else if slice_is(&c, 0, n, ".jpg") {
        "image/jpeg"
    } else if slice_is(&c, 0, n, ".jpeg") {
        "image/jpeg"
    } else if slice_is(&c, 0, n, ".png") {
        "image/png"
    } else if slice_is(&c, 0, n, ".gif") {
        "image/gif"
    } else if slice_is(&c, 0, n, ".mp4") {
        "video/mp4"
    } else if slice_is(&c, 0, n, ".mov") {
        "video/quicktime"
    } else if slice_is(&c, 0, n, ".pdf") {
        "application/pdf"
    } else if slice_is(&c, 0, n, ".txt") {
        "text/plain"
    } else if slice_is(&c, 0, n, ".xml") {
        "application/xml"
    } else if slice_is(&c, 0, n, ".json") {
        "application/json"
    } else if slice_is(&c, 0, n, ".csv") {
        "text/csv"
    } else if slice_is(&c, 0, n, ".svg") {
        "image/svg+xml"
    } else if slice_is(&c, 0, n, ".mp3") {
        "audio/mpeg"
    } else if slice_is(&c, 0, n, ".wav") {
        "audio/wav"
    } else if slice_is(&c, 0, n, ".zip") {
        "application/zip"
    } else if slice_is(&c, 0, n, ".tar") {
        "application/x-tar"
    } else if slice_is(&c, 0, n, ".gz") {
        "application/gzip"
    } else if slice_is(&c, 0, n, ".gzip") {
        "application/gzip"
    } else if slice_is(&c, 0, n, ".ogg") {
        "audio/ogg"
    } else if slice_is(&c, 0, n, ".woff") {
        "font/woff"
    } else if slice_is(&c, 0, n, ".woff2") {
        "font/woff2"
    } else if slice_is(&c, 0, n, ".eot") {
        "application/vnd.ms-fontobject"
    } else if slice_is(&c, 0, n, ".ttf") {
        "font/ttf"
    } else if slice_is(&c, 0, n, ".otf") {
        "font/otf"
    } else if slice_is(&c, 0, n, ".webp") {
        "image/webp"
    } else if slice_is(&c, 0, n, ".avi") {
        "video/x-msvideo"
    } else if slice_is(&c, 0, n, ".flv") {
        "video/x-flv"
    } else if slice_is(&c, 0, n, ".wmv") {
        "video/x-ms-wmv"
    } else if slice_is(&c, 0, n, ".mkv") {
        "video/x-matroska"
    } else if slice_is(&c, 0, n, ".3gp") {
        "video/3gpp"
    } else if slice_is(&c, 0, n, ".3g2") {
        "video/3gpp2"
    } else if slice_is(&c, 0, n, ".ogv") {
        "video/ogg"
    } else if slice_is(&c, 0, n, ".webm") {
        "video/webm"
    } else if slice_is(&c, 0, n, ".mpg") {
        "video/mpeg"
    } else if slice_is(&c, 0, n, ".mpeg") {
        "video/mpeg"
    } else if slice_is(&c, 0, n, ".m4v") {
        "video/x-m4v"
    } else if slice_is(&c, 0, n, ".mng") {
        "video/x-mng"
    } else if slice_is(&c, 0, n, ".mpv") {
        "video/x-matroska"
    } else if slice_is(&c, 0, n, ".ts") {
        "video/mp2t"
    } else if slice_is(&c, 0, n, ".asf") {
        "video/x-ms-asf"
    } else if slice_is(&c, 0, n, ".asx") {
        "video/x-ms-asf"
    } else if slice_is(&c, 0, n, ".vob") {
        "video/dvd"
    } else if slice_is(&c, 0, n, ".m2ts") {
        "video/MP2T"
    } else if slice_is(&c, 0, n, ".divx") {
        "video/divx"
    } else if slice_is(&c, 0, n, ".xvid") {
        "video/x-xvid"
    } else if slice_is(&c, 0, n, ".rm") {
        "application/vnd.rn-realmedia"
    } else if slice_is(&c, 0, n, ".rmvb") {
        "application/vnd.rn-realmedia-vbr"
    } else if slice_is(&c, 0, n, ".f4v") {
        "video/x-f4v"
    } else if slice_is(&c, 0, n, ".mpeg4") {
        "video/mp4"
    } else if slice_is(&c, 0, n, ".mp4v") {
        "video/mp4"
    } else if slice_is(&c, 0, n, ".3gpp") {
        "video/3gpp"
    } else if slice_is(&c, 0, n, ".mj2") {
        "video/mj2"
    } else if slice_is(&c, 0, n, ".mk3d") {
        "video/x-matroska-3d"
    } else if slice_is(&c, 0, n, ".mks") {
        "video/x-matroska"
    } else if slice_is(&c, 0, n, ".h264") {
        "video/h264"
    } else if slice_is(&c, 0, n, ".h265") {
        "video/h265"
    } else {
        "application/octet-stream"
    }
}

/// The index of the last `.` in `s`, if any.
pub open spec fn last_dot(s: Seq<char>) -> Option<int>
    decreases s.len(),
{
    if s.len() == 0 {
        None
    } else if s.last() == '.' {
        Some(s.len() - 1)
    } else {
        last_dot(s.drop_last())
    }
}

fn find_last_dot(c: &Vec<char>) -> (r: Option<usize>)
    ensures
        r matches Some(i) ==> last_dot(c@) == Some(i as int) && i < c@.len(),
        r is None ==> last_dot(c@) is None,
{
    let mut i = c.len();
    assert(c@.subrange(0, i as int) == c@);
    while i > 0
        invariant
            i <= c@.len(),
            last_dot(c@) == last_dot(c@.subrange(0, i as int)),
        decreases i,
    {
        assert(c@.subrange(0, i as int).drop_last() == c@.subrange(0, i - 1));
        if c[i - 1] == '.' {
            return Some(i - 1);
        }
        i -= 1;
    }
    None
}

/// The media type of a file by its extension, the part from the last `.`,
/// compared in lower case; `application/octet-stream` where there is no
/// extension or it is not known.
pub fn get_content_type(filepath: &str) -> (r: &'static str)
    ensures
        last_dot(filepath@) matches Some(i) ==> r@ == content_type_of(
            lowercase_of(filepath@.subrange(i, filepath@.len() as int)),
        )@,
        last_dot(filepath@) is None ==> r@ == "application/octet-stream"@,
{
    let c = chars_of(filepath);
    match find_last_dot(&c) {
        Some(i) => {
            let ext = string_of(&c, i, c.len());
            let lower = to_lowercase(ext.as_str());
            content_type_for_extension(lower.as_str())
        },
        None => "application/octet-stream",
    }
}

} // verus!
