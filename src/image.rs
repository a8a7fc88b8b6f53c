//! Image files in diffs: recognising them by extension, naming their MIME
//! type and format, and reading width and height from the headers of PNG,
//! JPEG, GIF and WebP data.

use vstd::prelude::*;
use base64::Engine;
use crate::models::{ImageData, ImageDiffResult};
use crate::scan::{ends_with, find_chars, find_first, has_suffix, tail_from, take_chars};
use crate::text::{chars_of, string_from_chars};

verus! {

/// The lowercase mapping of a character sequence (`str::to_lowercase`).
pub uninterp spec fn lower_of(s: Seq<char>) -> Seq<char>;

/// The uppercase mapping of a character sequence (`str::to_uppercase`).
pub uninterp spec fn upper_of(s: Seq<char>) -> Seq<char>;

/// The standard, padded Base64 encoding of a byte sequence.
pub uninterp spec fn base64_of(b: Seq<u8>) -> Seq<char>;

/// Relies on `str::to_lowercase`: the result depends on the characters alone.
#[verifier::external_body]
fn lowercase(s: &str) -> (r: String)
    ensures
        r@ == lower_of(s@),
{
    s.to_lowercase()
}

/// Relies on `str::to_uppercase`: the result depends on the characters alone.
#[verifier::external_body]
fn uppercase(s: &str) -> (r: String)
    ensures
        r@ == upper_of(s@),
{
    s.to_uppercase()
}

/// Relies on `base64::engine::general_purpose::STANDARD.encode`: padded
/// standard Base64, four characters for each started group of three bytes.
/// It panics when that length does not fit in a `usize`.
#[verifier::external_body]
fn base64_encode(b: &[u8]) -> (r: String)
    requires
        4 * ((b@.len() + 2) / 3) <= usize::MAX,
    ensures
        r@ == base64_of(b@),
        r@.len() == 4 * ((b@.len() + 2) / 3),
{
    base64::engine::general_purpose::STANDARD.encode(b)
}

/// Whether a lowercased path ends in one of the known image extensions.
pub open spec fn has_image_suffix(s: Seq<char>) -> bool {
    has_suffix(s, ".png"@) || has_suffix(s, ".jpg"@) || has_suffix(s, ".jpeg"@) || has_suffix(
        s,
        ".gif"@,
    ) || has_suffix(s, ".svg"@) || has_suffix(s, ".webp"@) || has_suffix(s, ".bmp"@)
        || has_suffix(s, ".ico"@) || has_suffix(s, ".tiff"@) || has_suffix(s, ".tif"@)
}

/// Whether an already lowercased path names an image file.
pub fn has_image_extension(lowered: &str) -> (r: bool)
    ensures
        r == has_image_suffix(lowered@),
{
    let s = chars_of(lowered);
    ends_with(&s, &chars_of(".png")) || ends_with(&s, &chars_of(".jpg")) || ends_with(
        &s,
        &chars_of(".jpeg"),
    ) || ends_with(&s, &chars_of(".gif")) || ends_with(&s, &chars_of(".svg")) || ends_with(
        &s,
        &chars_of(".webp"),
    ) || ends_with(&s, &chars_of(".bmp")) || ends_with(&s, &chars_of(".ico")) || ends_with(
        &s,
        &chars_of(".tiff"),
    ) || ends_with(&s, &chars_of(".tif"))
}

/// Whether a path names an image file, by its extension in any case.
pub fn is_image_file(path: &str) -> (r: bool)
    ensures
        r == has_image_suffix(lower_of(path@)),
{
    let lowered = lowercase(path);
    has_image_extension(lowered.as_str())
}

/// The pieces of a path between `/` separators that name something: empty
/// pieces and `.` are skipped, as `Path::components` does.
pub open spec fn named_components(p: Seq<char>) -> Seq<Seq<char>> {
    crate::scan::split_on(p, '/').filter(|c: Seq<char>| c.len() > 0 && c != seq!['.'])
}

/// `Path::file_name`: the last component, unless there is none or it is `..`.
pub open spec fn file_name_of(p: Seq<char>) -> Option<Seq<char>> {
    let cs = named_components(p);
    if cs.len() == 0 || cs.last() == seq!['.', '.'] {
        None
    } else {
        Some(cs.last())
    }
}

/// Index of the last `.` in `s`, if there is one.
pub open spec fn last_dot(s: Seq<char>) -> Option<int> {
    if exists|i: int| 0 <= i < s.len() && s[i] == '.' {
        Some(
            choose|i: int|
                0 <= i < s.len() && s[i] == '.' && forall|j: int| i < j < s.len() ==> s[j] != '.',
        )
    } else {
        None
    }
}

/// `Path::extension`: what follows the last `.` of the file name, when that
/// `.` is not its first character.
pub open spec fn extension_of(p: Seq<char>) -> Option<Seq<char>> {
    match file_name_of(p) {
        Some(name) => match last_dot(name) {
            Some(i) => if i > 0 {
                Some(name.skip(i + 1))
            } else {
                None
            },
            None => None,
        },
        None => None,
    }
}

/// The lowercased extension of a path, empty where it has none or it is
/// empty.
pub open spec fn lower_extension(p: Seq<char>) -> Seq<char> {
    match extension_of(p) {
        Some(e) => if e.len() > 0 {
            lower_of(e)
        } else {
            seq![]
        },
        None => seq![],
    }
}

/// The last named component of a path, as `Path::file_name` gives it.
pub(crate) fn file_name(p: &Vec<char>) -> (r: Option<Vec<char>>)
    ensures
        match r {
            Some(v) => file_name_of(p@) == Some(v@),
            None => file_name_of(p@) is None,
        },
{
    let pieces = crate::scan::split_chars(p, '/');
    let ghost all = crate::scan::split_on(p@, '/');
    let ghost keep = |c: Seq<char>| c.len() > 0 && c != seq!['.'];
    let mut last: Option<Vec<char>> = None;
    let mut i: usize = 0;
    while i < pieces.len()
        invariant
            crate::scan::seqs_of(pieces@) == all,
            i <= pieces.len(),
            keep == (|c: Seq<char>| c.len() > 0 && c != seq!['.']),
            match last {
                Some(v) => all.take(i as int).filter(keep).len() > 0 && all.take(
                    i as int,
                ).filter(keep).last() == v@,
                None => all.take(i as int).filter(keep).len() == 0,
            },
        decreases pieces.len() - i,
    {
        let piece = &pieces[i];
        proof {
            assert(piece@ == all[i as int]);
            assert(all.take(i + 1).drop_last() =~= all.take(i as int));
            reveal(Seq::filter);
        }
        if piece.len() > 0 && !(piece.len() == 1 && piece[0] == '.') {
            proof {
                assert(piece@ != seq!['.']);
            }
            last = Some(piece.clone());
        } else {
            proof {
                if piece.len() == 1 {
                    assert(piece@ =~= seq!['.']);
                }
            }
        }
        i = i + 1;
    }
    proof {
        assert(all.take(pieces.len() as int) =~= all);
    }
    match last {
        Some(v) => {
            if v.len() == 2 && v[0] == '.' && v[1] == '.' {
                proof {
                    assert(v@ =~= seq!['.', '.']);
                }
                None
            } else {
                proof {
                    assert(v@ != seq!['.', '.']);
                }
                Some(v)
            }
        },
        None => None,
    }
}

/// The extension of a path, as `Path::extension` gives it.
fn extension(p: &Vec<char>) -> (r: Vec<char>)
    ensures
        r@ == match extension_of(p@) {
            Some(e) => e,
            None => seq![],
        },
{
    match file_name(p) {
        None => Vec::new(),
        Some(name) => {
            let mut k: usize = name.len();
            while k > 0
                invariant
                    k <= name.len(),
                    forall|j: int| k <= j < name.len() ==> name@[j] != '.',
                ensures
                    k <= name.len(),
                    forall|j: int| k <= j < name.len() ==> name@[j] != '.',
                    k == 0 || name@[k - 1] == '.',
                decreases k,
            {
                if name[k - 1] == '.' {
                    break;
                }
                k = k - 1;
            }
            if k == 0 {
                proof {
                    assert(!exists|i: int| 0 <= i < name@.len() && name@[i] == '.');
                }
                Vec::new()
            } else {
                let ghost i = (k - 1) as int;
                proof {
                    assert(0 <= i < name@.len() && name@[i] == '.' && forall|j: int|
                        i < j < name@.len() ==> name@[j] != '.');
                    let c = choose|c: int|
                        0 <= c < name@.len() && name@[c] == '.' && forall|j: int|
                            c < j < name@.len() ==> name@[j] != '.';
                    assert(c == i);
                }
                if k == 1 {
                    Vec::new()
                } else {
                    tail_from(&name, k)
                }
            }
        },
    }
}

/// The lowercased extension of a path.
fn lower_extension_exec(path: &str) -> (r: String)
    ensures
        r@ == lower_extension(path@),
{
    let ext = extension(&chars_of(path));
    let s = string_from_chars(ext.as_slice());
    if ext.len() == 0 {
        s
    } else {
        lowercase(s.as_str())
    }
}

/// The MIME type for a lowercased extension.
pub open spec fn mime_for(ext: Seq<char>) -> Seq<char> {
    if ext == "png"@ {
        "image/png"@
    } else if ext == "jpg"@ || ext == "jpeg"@ {
        "image/jpeg"@
    } else if ext == "gif"@ {
        "image/gif"@
    } else if ext == "svg"@ {
        "image/svg+xml"@
    } else if ext == "webp"@ {
        "image/webp"@
    } else if ext == "bmp"@ {
        "image/bmp"@
    } else if ext == "ico"@ {
        "image/x-icon"@
    } else if ext == "tiff"@ || ext == "tif"@ {
        "image/tiff"@
    } else {
        "application/octet-stream"@
    }
}

/// The format name for a lowercased extension; an unknown one is named by
/// its uppercase form, and no extension gives an empty name.
pub open spec fn format_for(ext: Seq<char>) -> Seq<char> {
    if ext == "png"@ {
        "PNG"@
    } else if ext == "jpg"@ || ext == "jpeg"@ {
        "JPEG"@
    } else if ext == "gif"@ {
        "GIF"@
    } else if ext == "svg"@ {
        "SVG"@
    } else if ext == "webp"@ {
        "WebP"@
    } else if ext == "bmp"@ {
        "BMP"@
    } else if ext == "ico"@ {
        "ICO"@
    } else if ext == "tiff"@ || ext == "tif"@ {
        "TIFF"@
    } else if ext.len() == 0 {
        seq![]
    } else {
        upper_of(ext)
    }
}

fn is(s: &String, lit: &str) -> (r: bool)
    ensures
        r == (s@ == lit@),
{
    *s == String::from_str(lit)
}

/// The MIME type for an extension that is already lowercase.
pub fn mime_type_for_extension(ext: &String) -> (r: String)
    ensures
        r@ == mime_for(ext@),
{
    let m = if is(ext, "png") {
        "image/png"
    } else if is(ext, "jpg") || is(ext, "jpeg") {
        "image/jpeg"
    } else if is(ext, "gif") {
        "image/gif"
    } else if is(ext, "svg") {
        "image/svg+xml"
    } else if is(ext, "webp") {
        "image/webp"
    } else if is(ext, "bmp") {
        "image/bmp"
    } else if is(ext, "ico") {
        "image/x-icon"
    } else if is(ext, "tiff") || is(ext, "tif") {
        "image/tiff"
    } else {
        "application/octet-stream"
    };
    String::from_str(m)
}

/// The format name for an extension that is already lowercase.
pub fn format_name_for_extension(ext: &String) -> (r: String)
    ensures
        r@ == format_for(ext@),
{
    let f = if is(ext, "png") {
        "PNG"
    } else if is(ext, "jpg") || is(ext, "jpeg") {
        "JPEG"
    } else if is(ext, "gif") {
        "GIF"
    } else if is(ext, "svg") {
        "SVG"
    } else if is(ext, "webp") {
        "WebP"
    } else if is(ext, "bmp") {
        "BMP"
    } else if is(ext, "ico") {
        "ICO"
    } else if is(ext, "tiff") || is(ext, "tif") {
        "TIFF"
    } else if ext.unicode_len() == 0 {
        return String::new();
    } else {
        return uppercase(ext.as_str());
    };
    String::from_str(f)
}

/// The MIME type of a file, from its extension in any case.
pub fn get_mime_type(path: &str) -> (r: String)
    ensures
        r@ == mime_for(lower_extension(path@)),
{
    mime_type_for_extension(&lower_extension_exec(path))
}

/// The format name of a file ("PNG", "JPEG", ...), from its extension in
/// any case.
pub fn get_format_name(path: &str) -> (r: String)
    ensures
        r@ == format_for(lower_extension(path@)),
{
    format_name_for_extension(&lower_extension_exec(path))
}

/// A big-endian 16-bit number.
pub open spec fn be16(a: u8, b: u8) -> u32 {
    (a as int * 256 + b as int) as u32
}

/// A little-endian 16-bit number.
pub open spec fn le16(a: u8, b: u8) -> u32 {
    (b as int * 256 + a as int) as u32
}

/// A big-endian 32-bit number.
pub open spec fn be32(a: u8, b: u8, c: u8, d: u8) -> u32 {
    (a as int * 16777216 + b as int * 65536 + c as int * 256 + d as int) as u32
}

/// A little-endian 32-bit number.
pub open spec fn le32(a: u8, b: u8, c: u8, d: u8) -> u32 {
    be32(d, c, b, a)
}

fn be16_exec(a: u8, b: u8) -> (r: u32)
    ensures
        r == be16(a, b),
{
    a as u32 * 256 + b as u32
}

fn be32_exec(a: u8, b: u8, c: u8, d: u8) -> (r: u32)
    ensures
        r == be32(a, b, c, d),
{
    a as u32 * 16777216 + b as u32 * 65536 + c as u32 * 256 + d as u32
}

/// Width and height of PNG data: the IHDR chunk that follows the signature
/// holds them at bytes 16 and 20, big-endian. Other data gives (0, 0).
pub open spec fn png_size(d: Seq<u8>) -> (u32, u32) {
    if d.len() >= 24 && d[0] == 0x89 && d[1] == 0x50 && d[2] == 0x4e && d[3] == 0x47 && d[4]
        == 0x0d && d[5] == 0x0a && d[6] == 0x1a && d[7] == 0x0a {
        (be32(d[16], d[17], d[18], d[19]), be32(d[20], d[21], d[22], d[23]))
    } else {
        (0, 0)
    }
}

/// Width and height of PNG data, or (0, 0).
pub fn parse_png_dimensions(data: &[u8]) -> (r: (u32, u32))
    ensures
        r == png_size(data@),
{
    if data.len() >= 24 && data[0] == 0x89 && data[1] == 0x50 && data[2] == 0x4e && data[3]
        == 0x47 && data[4] == 0x0d && data[5] == 0x0a && data[6] == 0x1a && data[7] == 0x0a {
        (
            be32_exec(data[16], data[17], data[18], data[19]),
            be32_exec(data[20], data[21], data[22], data[23]),
        )
    } else {
        (0, 0)
    }
}

/// The walk over JPEG segments from byte `i`: a start-of-frame marker
/// (0xC0 or 0xC2) with its fields in reach gives (width, height); another
/// marker is skipped by its length; a byte that is not 0xFF is stepped over.
pub open spec fn jpeg_walk(d: Seq<u8>, i: int) -> (u32, u32)
    decreases d.len() - i,
{
    if i < 0 || i + 1 >= d.len() {
        (0, 0)
    } else if d[i] != 0xff {
        jpeg_walk(d, i + 1)
    } else if (d[i + 1] == 0xc0 || d[i + 1] == 0xc2) && i + 9 < d.len() {
        (be16(d[i + 7], d[i + 8]), be16(d[i + 5], d[i + 6]))
    } else if i + 3 < d.len() {
        let next = i + 2 + be16(d[i + 2], d[i + 3]);
        if next < d.len() {
            jpeg_walk(d, next)
        } else {
            (0, 0)
        }
    } else {
        (0, 0)
    }
}

/// Width and height of JPEG data (it starts with 0xFF 0xD8), or (0, 0).
pub open spec fn jpeg_size(d: Seq<u8>) -> (u32, u32) {
    if d.len() < 4 || d[0] != 0xff || d[1] != 0xd8 {
        (0, 0)
    } else {
        jpeg_walk(d, 2)
    }
}

/// Width and height of JPEG data, or (0, 0).
pub fn parse_jpeg_dimensions(data: &[u8]) -> (r: (u32, u32))
    ensures
        r == jpeg_size(data@),
{
    if data.len() < 4 || data[0] != 0xff || data[1] != 0xd8 {
        return (0, 0);
    }
    let mut i: usize = 2;
    while i < data.len() - 1
        invariant
            2 <= i <= data.len(),
            data.len() >= 4,
            jpeg_walk(data@, i as int) == jpeg_size(data@),
        decreases data.len() - i,
    {
        if data[i] != 0xff {
            i = i + 1;
            continue;
        }
        let marker = data[i + 1];
        if (marker == 0xc0 || marker == 0xc2) && 9 < data.len() - i {
            let height = be16_exec(data[i + 5], data[i + 6]);
            let width = be16_exec(data[i + 7], data[i + 8]);
            return (width, height);
        }
        if 3 < data.len() - i {
            let len = be16_exec(data[i + 2], data[i + 3]) as usize;
            if len + 2 >= data.len() - i {
                return (0, 0);
            }
            i = i + 2 + len;
        } else {
            return (0, 0);
        }
    }
    (0, 0)
}

/// Width and height of GIF data (signature GIF87a or GIF89a), or (0, 0).
pub open spec fn gif_size(d: Seq<u8>) -> (u32, u32) {
    if d.len() >= 10 && d[0] == 0x47 && d[1] == 0x49 && d[2] == 0x46 && d[3] == 0x38 && (d[4]
        == 0x37 || d[4] == 0x39) && d[5] == 0x61 {
        (le16(d[6], d[7]), le16(d[8], d[9]))
    } else {
        (0, 0)
    }
}

/// Width and height of GIF data, or (0, 0).
pub fn parse_gif_dimensions(data: &[u8]) -> (r: (u32, u32))
    ensures
        r == gif_size(data@),
{
    if data.len() >= 10 && data[0] == 0x47 && data[1] == 0x49 && data[2] == 0x46 && data[3]
        == 0x38 && (data[4] == 0x37 || data[4] == 0x39) && data[5] == 0x61 {
        (be16_exec(data[7], data[6]), be16_exec(data[9], data[8]))
    } else {
        (0, 0)
    }
}

/// Width and height of WebP data (a RIFF container of type WEBP). A lossy
/// `VP8 ` frame with its start code holds them as 14-bit little-endian
/// numbers at bytes 26 and 28; a lossless `VP8L` frame packs both, less one,
/// into the 28 low bits of the little-endian word at byte 21. Otherwise
/// (0, 0).
pub open spec fn webp_size(d: Seq<u8>) -> (u32, u32) {
    if d.len() >= 30 && d[0] == 0x52 && d[1] == 0x49 && d[2] == 0x46 && d[3] == 0x46 && d[8]
        == 0x57 && d[9] == 0x45 && d[10] == 0x42 && d[11] == 0x50 {
        if d[12] == 0x56 && d[13] == 0x50 && d[14] == 0x38 && d[15] == 0x20 && d[23] == 0x9d
            && d[24] == 0x01 && d[25] == 0x2a {
            ((le16(d[26], d[27]) % 16384) as u32, (le16(d[28], d[29]) % 16384) as u32)
        } else if d[12] == 0x56 && d[13] == 0x50 && d[14] == 0x38 && d[15] == 0x4c {
            let bits = le32(d[21], d[22], d[23], d[24]);
            ((bits % 16384 + 1) as u32, ((bits / 16384) % 16384 + 1) as u32)
        } else {
            (0, 0)
        }
    } else {
        (0, 0)
    }
}

/// Width and height of WebP data, or (0, 0).
pub fn parse_webp_dimensions(data: &[u8]) -> (r: (u32, u32))
    ensures
        r == webp_size(data@),
{
    if data.len() >= 30 && data[0] == 0x52 && data[1] == 0x49 && data[2] == 0x46 && data[3]
        == 0x46 && data[8] == 0x57 && data[9] == 0x45 && data[10] == 0x42 && data[11] == 0x50 {
        let vp8 = data[12] == 0x56 && data[13] == 0x50 && data[14] == 0x38;
        if vp8 && data[15] == 0x20 && data[23] == 0x9d && data[24] == 0x01 && data[25] == 0x2a {
            let width = be16_exec(data[27], data[26]) % 16384;
            let height = be16_exec(data[29], data[28]) % 16384;
            return (width, height);
        }
        if vp8 && data[15] == 0x4c {
            let bits = be32_exec(data[24], data[23], data[22], data[21]);
            let width = bits % 16384 + 1;
            let height = (bits / 16384) % 16384 + 1;
            return (width, height);
        }
    }
    (0, 0)
}

/// Width and height read from the header of data in the named format
/// ("PNG", "JPEG", "GIF" or "WebP"); any other format gives (0, 0).
pub open spec fn image_size(d: Seq<u8>, format: Seq<char>) -> (u32, u32) {
    if format == "PNG"@ {
        png_size(d)
    } else if format == "JPEG"@ {
        jpeg_size(d)
    } else if format == "GIF"@ {
        gif_size(d)
    } else if format == "WebP"@ {
        webp_size(d)
    } else {
        (0, 0)
    }
}

/// Width and height of image data in the named format, or (0, 0).
pub fn parse_image_dimensions(data: &[u8], format: &String) -> (r: (u32, u32))
    ensures
        r == image_size(data@, format@),
{
    if is(format, "PNG") {
        parse_png_dimensions(data)
    } else if is(format, "JPEG") {
        parse_jpeg_dimensions(data)
    } else if is(format, "GIF") {
        parse_gif_dimensions(data)
    } else if is(format, "WebP") {
        parse_webp_dimensions(data)
    } else {
        (0, 0)
    }
}

/// The leading run of digits and dots of `s`.
pub open spec fn numeric_prefix(s: Seq<char>) -> Seq<char>
    decreases s.len(),
{
    if s.len() > 0 && (('0' <= s[0] && s[0] <= '9') || s[0] == '.') {
        seq![s[0]] + numeric_prefix(s.drop_first())
    } else {
        seq![]
    }
}

/// The opening `<svg ...>` tag of SVG markup: from the first `<svg` to the
/// first `>` after it, or to the end.
pub open spec fn svg_tag(content: Seq<char>) -> Option<Seq<char>> {
    match find_first(content, "<svg"@) {
        Some(st) => {
            let rest = content.skip(st);
            match find_first(rest, ">"@) {
                Some(e) => Some(rest.take(e + 1)),
                None => Some(rest),
            }
        },
        None => None,
    }
}

/// The numeric text of an attribute of a tag: after the first occurrence
/// of `key` (such as `width="`), the digits and dots that begin the value,
/// provided the value is closed by a `"`.
pub open spec fn attribute_number(tag: Seq<char>, key: Seq<char>) -> Option<Seq<char>> {
    match find_first(tag, key) {
        Some(a) => {
            let v = tag.skip(a + key.len());
            match find_first(v, "\""@) {
                Some(e) => Some(numeric_prefix(v.take(e))),
                None => None,
            }
        },
        None => None,
    }
}

/// The numeric texts of the `width` and `height` attributes of the `<svg>`
/// tag of some markup, where they can be found.
pub open spec fn svg_size_spec(content: Seq<char>) -> (Option<Seq<char>>, Option<Seq<char>>) {
    match svg_tag(content) {
        Some(tag) => (attribute_number(tag, "width=\""@), attribute_number(tag, "height=\""@)),
        None => (None, None),
    }
}

fn numeric_prefix_exec(s: &Vec<char>) -> (r: Vec<char>)
    ensures
        r@ == numeric_prefix(s@),
{
    let mut k: usize = 0;
    proof {
        assert(s@.skip(0) =~= s@);
        assert(s@.take(0) + numeric_prefix(s@) =~= numeric_prefix(s@));
    }
    while k < s.len() && (('0' <= s[k] && s[k] <= '9') || s[k] == '.')
        invariant
            k <= s.len(),
            numeric_prefix(s@) == s@.take(k as int) + numeric_prefix(s@.skip(k as int)),
        decreases s.len() - k,
    {
        proof {
            let t = s@.skip(k as int);
            assert(t.drop_first() =~= s@.skip(k + 1));
            assert(s@.take(k as int) + seq![t[0]] =~= s@.take(k + 1));
        }
        k = k + 1;
    }
    proof {
        assert(s@.take(0) + s@.skip(0) =~= s@);
        assert(numeric_prefix(s@.skip(k as int)) =~= seq![]);
        assert(s@.take(k as int) + seq![] =~= s@.take(k as int));
    }
    take_chars(s, k)
}

fn attribute_number_exec(tag: &Vec<char>, key: &Vec<char>) -> (r: Option<String>)
    ensures
        match r {
            Some(v) => attribute_number(tag@, key@) == Some(v@),
            None => attribute_number(tag@, key@) is None,
        },
{
    let tag_len = tag.len();
    match find_chars(tag, key) {
        Some(a) => {
            assert(a + key@.len() <= tag_len);
            let v = tail_from(tag, a + key.len());
            match find_chars(&v, &chars_of("\"")) {
                Some(e) => {
                    let n = numeric_prefix_exec(&take_chars(&v, e));
                    Some(string_from_chars(n.as_slice()))
                },
                None => None,
            }
        },
        None => None,
    }
}

/// The numeric texts of the `width` and `height` attributes of the `<svg>`
/// tag of SVG markup (`"100"` for `width="100px"`), where they can be found.
/// Reading them as numbers is left to the caller.
pub fn svg_size_texts(content: &str) -> (r: (Option<String>, Option<String>))
    ensures
        ({
            let (w, h) = svg_size_spec(content@);
            &&& match r.0 {
                Some(v) => w == Some(v@),
                None => w is None,
            }
            &&& match r.1 {
                Some(v) => h == Some(v@),
                None => h is None,
            }
        }),
{
    let c = chars_of(content);
    match find_chars(&c, &chars_of("<svg")) {
        Some(st) => {
            let rest = tail_from(&c, st);
            let rest_len = rest.len();
            let tag = match find_chars(&rest, &chars_of(">")) {
                Some(e) => {
                    proof {
                        reveal_strlit(">");
                        assert(e < rest_len);
                    }
                    take_chars(&rest, e + 1)
                },
                None => rest,
            };
            (
                attribute_number_exec(&tag, &chars_of("width=\"")),
                attribute_number_exec(&tag, &chars_of("height=\"")),
            )
        },
        None => (None, None),
    }
}

/// Builds the record of an image file from its bytes and path. The MIME
/// type and format come from the extension, width and height from the
/// header; for an SVG file, whose header holds no size, they are `svg_size`,
/// which the caller reads from the file's markup.
pub fn build_image_data(data: &[u8], file_path: &str, svg_size: (u32, u32)) -> (r: ImageData)
    requires
        4 * ((data@.len() + 2) / 3) <= usize::MAX,
    ensures
        r.data@ == base64_of(data@),
        r.mime_type@ == mime_for(lower_extension(file_path@)),
        r.format@ == format_for(lower_extension(file_path@)),
        r.size == data@.len(),
        ({
            let (w, h) = image_size(data@, r.format@);
            if r.format@ == "SVG"@ && w == 0 && h == 0 {
                r.width == svg_size.0 && r.height == svg_size.1
            } else {
                r.width == w && r.height == h
            }
        }),
{
    let mime_type = get_mime_type(file_path);
    let format = get_format_name(file_path);
    let (mut width, mut height) = parse_image_dimensions(data, &format);
    if is(&format, "SVG") && width == 0 && height == 0 {
        width = svg_size.0;
        height = svg_size.1;
    }
    ImageData {
        data: base64_encode(data),
        mime_type,
        size: data.len() as u64,
        width,
        height,
        format,
    }
}

/// The image comparison of a file: `versions` holds its old and new
/// image, each where it exists, when the file is an image, and is `None`
/// when it is not.
pub fn image_diff_result(file_path: String, versions: Option<(Option<ImageData>, Option<ImageData>)>) -> (r:
    ImageDiffResult)
    ensures
        r.file_path@ == file_path@,
        r.is_image == versions is Some,
        match versions {
            Some((old_image, new_image)) => r.old_image == old_image && r.new_image == new_image,
            None => r.old_image is None && r.new_image is None,
        },
{
    match versions {
        Some((old_image, new_image)) => ImageDiffResult { old_image, new_image, is_image: true, file_path },
        None => ImageDiffResult { old_image: None, new_image: None, is_image: false, file_path },
    }
}

} // verus!
