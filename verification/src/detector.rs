//! Classification of a buffer, optionally paired with a file name, into a
//! [`FileFormat`].
//!
//! Content is classified by a fixed, ordered list of tests on its leading
//! bytes; the first test that matches decides. A file name is classified
//! by its extension. Where both are at hand, content that names a format
//! other than plain text overrides the file name.
//!
//! Every marker is ASCII. A byte of ASCII stands for its character
//! wherever it occurs in a buffer, well-formed or not, so a marker occurs
//! in the bytes exactly where it occurs in any reading of them as text.

use vstd::prelude::*;
use crate::bytes::{
    contains, folded, has_prefix, head, lowered, opens_json, starts_json, starts_with,
    window_contains,
};
use crate::extension::{extension_bounds, extension_format, spells};
use crate::format::FileFormat;
use crate::text::chars_of;

verus! {

/// `%PDF`
pub const PDF_MAGIC: [u8; 4] = [0x25, 0x50, 0x44, 0x46];

/// The eight bytes that open a PNG stream.
pub const PNG_MAGIC: [u8; 8] = [0x89, 0x50, 0x4e, 0x47, 0x0d, 0x0a, 0x1a, 0x0a];

/// The JPEG start-of-image marker and the first byte of the next marker.
pub const JPEG_MAGIC: [u8; 3] = [0xff, 0xd8, 0xff];

/// `BM`
pub const BMP_MAGIC: [u8; 2] = [0x42, 0x4d];

/// `II`, then 42 in little-endian byte order.
pub const TIFF_LE_MAGIC: [u8; 4] = [0x49, 0x49, 0x2a, 0x00];

/// `MM`, then 42 in big-endian byte order.
pub const TIFF_BE_MAGIC: [u8; 4] = [0x4d, 0x4d, 0x00, 0x2a];

/// The first four bytes of an OLE compound document.
pub const OLE_MAGIC: [u8; 4] = [0xd0, 0xcf, 0x11, 0xe0];

/// `PK`, which opens a ZIP local file header.
pub const ZIP_MAGIC: [u8; 2] = [0x50, 0x4b];

/// `<?xml`
pub const XML_DECLARATION: [u8; 5] = [0x3c, 0x3f, 0x78, 0x6d, 0x6c];

/// `<!`
pub const MARKUP_DECLARATION: [u8; 2] = [0x3c, 0x21];

/// `<!doctype`
pub const DOCTYPE_MARKER: [u8; 9] = [0x3c, 0x21, 0x64, 0x6f, 0x63, 0x74, 0x79, 0x70, 0x65];

/// `<html`
pub const HTML_MARKER: [u8; 5] = [0x3c, 0x68, 0x74, 0x6d, 0x6c];

/// `word/`
pub const WORD_MARKER: [u8; 5] = [0x77, 0x6f, 0x72, 0x64, 0x2f];

/// `xl/`
pub const SHEET_MARKER: [u8; 3] = [0x78, 0x6c, 0x2f];

/// `ppt/`
pub const SLIDE_MARKER: [u8; 4] = [0x70, 0x70, 0x74, 0x2f];

/// How many leading bytes of a ZIP archive are searched for a marker.
pub const OFFICE_WINDOW: usize = 2000;

/// How many bytes a buffer needs before it is tested for XML.
pub const XML_WINDOW: usize = 5;

/// How many leading bytes are searched for an HTML marker, and how many a
/// buffer needs before it is searched.
pub const HTML_WINDOW: usize = 14;

/// The Office format of a ZIP archive, by the first marker among `word/`,
/// `xl/` and `ppt/`, in this order of precedence, that occurs in its first
/// 2000 bytes. An archive without a marker counts as a spreadsheet.
pub open spec fn office_format(data: Seq<u8>) -> FileFormat {
    let window = head(data, OFFICE_WINDOW as int);
    if contains(window, WORD_MARKER@) {
        FileFormat::Docx
    } else if contains(window, SHEET_MARKER@) {
        FileFormat::Xlsx
    } else if contains(window, SLIDE_MARKER@) {
        FileFormat::Pptx
    } else {
        FileFormat::Xlsx
    }
}

/// `data` has at least five bytes and opens with `<?xml` or `<!`.
pub open spec fn opens_xml(data: Seq<u8>) -> bool {
    data.len() >= XML_WINDOW && (starts_with(data, XML_DECLARATION@) || starts_with(
        data,
        MARKUP_DECLARATION@,
    ))
}

/// `data` has at least fourteen bytes, and the first fourteen hold
/// `<!doctype` or `<html` in either case of each letter.
pub open spec fn mentions_html(data: Seq<u8>) -> bool {
    let window = lowered(head(data, HTML_WINDOW as int));
    data.len() >= HTML_WINDOW && (contains(window, DOCTYPE_MARKER@) || contains(
        window,
        HTML_MARKER@,
    ))
}

/// The format that the leading bytes of `data` stand for.
pub open spec fn content_format(data: Seq<u8>) -> FileFormat {
    if data.len() == 0 {
        FileFormat::Text
    } else if starts_with(data, PDF_MAGIC@) {
        FileFormat::Pdf
    } else if starts_with(data, PNG_MAGIC@) {
        FileFormat::Png
    } else if starts_with(data, JPEG_MAGIC@) {
        FileFormat::Jpeg
    } else if starts_with(data, BMP_MAGIC@) {
        FileFormat::Bmp
    } else if starts_with(data, TIFF_LE_MAGIC@) || starts_with(data, TIFF_BE_MAGIC@) {
        FileFormat::Tiff
    } else if starts_with(data, OLE_MAGIC@) {
        FileFormat::Xls
    } else if starts_with(data, ZIP_MAGIC@) {
        office_format(data)
    } else if opens_xml(data) {
        FileFormat::Xml
    } else if mentions_html(data) {
        FileFormat::Html
    } else if opens_json(data) {
        FileFormat::Json
    } else {
        FileFormat::Text
    }
}

/// A format that settles the classification by itself: any but `Text` and
/// `Unknown`.
pub open spec fn is_definitive(format: FileFormat) -> bool {
    format != FileFormat::Text && format != FileFormat::Unknown
}

/// The format of a buffer that may come with a file name.
///
/// Content that names a definitive format decides. Otherwise the extension
/// decides where the table knows it. Otherwise content that reads as text
/// is `Text`, and everything else is `Unknown`.
pub open spec fn detect_format(filename: Option<Seq<char>>, content: Option<Seq<u8>>) -> FileFormat {
    if content is Some && is_definitive(content_format(content->0)) {
        content_format(content->0)
    } else if filename is Some && extension_format(filename->0) != FileFormat::Unknown {
        extension_format(filename->0)
    } else if content is Some && content_format(content->0) == FileFormat::Text {
        FileFormat::Text
    } else {
        FileFormat::Unknown
    }
}

/// The characters of a file name that may be absent.
pub open spec fn name_view(filename: Option<&str>) -> Option<Seq<char>> {
    match filename {
        Some(name) => Some(name@),
        None => None,
    }
}

/// The bytes of a buffer that may be absent.
pub open spec fn content_view(content: Option<&[u8]>) -> Option<Seq<u8>> {
    match content {
        Some(data) => Some(data@),
        None => None,
    }
}

/// The extensions that the table knows, in the order in which they are
/// advertised.
pub open spec fn supported_extension_names() -> Seq<Seq<char>> {
    seq![
        "pdf"@,
        "docx"@,
        "xlsx"@,
        "xls"@,
        "pptx"@,
        "png"@,
        "jpg"@,
        "jpeg"@,
        "tiff"@,
        "tif"@,
        "bmp"@,
        "json"@,
        "xml"@,
        "html"@,
        "htm"@,
        "txt"@,
        "text"@,
        "md"@,
        "markdown"@,
        "csv"@,
    ]
}

/// The views of a list of strings.
pub open spec fn names_of(list: Seq<&'static str>) -> Seq<Seq<char>> {
    Seq::new(list.len(), |i: int| list[i]@)
}

/// Central format detection.
pub struct FormatDetector;

impl FormatDetector {
    /// Classifies a buffer that may come with a file name.
    pub fn detect(filename: Option<&str>, content: Option<&[u8]>) -> (format: FileFormat)
        ensures
            format == detect_format(name_view(filename), content_view(content)),
    {
        let by_content = match content {
            Some(data) => Some(Self::detect_from_content(data)),
            None => None,
        };
        if let Some(format) = by_content {
            if format != FileFormat::Text && format != FileFormat::Unknown {
                return format;
            }
        }
        if let Some(name) = filename {
            let by_extension = Self::detect_from_extension(name);
            if by_extension != FileFormat::Unknown {
                return by_extension;
            }
        }
        if let Some(format) = by_content {
            if format == FileFormat::Text {
                return FileFormat::Text;
            }
        }
        FileFormat::Unknown
    }

    /// Classifies a file name by its extension.
    pub fn detect_from_extension(filename: &str) -> (format: FileFormat)
        ensures
            format == extension_format(filename@),
    {
        let chars = chars_of(filename);
        let (from, to) = match extension_bounds(&chars) {
            Some(bounds) => bounds,
            None => {
                return FileFormat::Unknown;
            },
        };
        if spells(&chars, from, to, "pdf") {
            FileFormat::Pdf
        } else if spells(&chars, from, to, "docx") {
            FileFormat::Docx
        } else if spells(&chars, from, to, "xlsx") {
            FileFormat::Xlsx
        } else if spells(&chars, from, to, "xls") {
            FileFormat::Xls
        } else if spells(&chars, from, to, "pptx") {
            FileFormat::Pptx
        } else if spells(&chars, from, to, "png") {
            FileFormat::Png
        } else if spells(&chars, from, to, "jpg") || spells(&chars, from, to, "jpeg") {
            FileFormat::Jpeg
        } else if spells(&chars, from, to, "tiff") || spells(&chars, from, to, "tif") {
            FileFormat::Tiff
        } else if spells(&chars, from, to, "bmp") {
            FileFormat::Bmp
        } else if spells(&chars, from, to, "json") {
            FileFormat::Json
        } else if spells(&chars, from, to, "xml") {
            FileFormat::Xml
        } else if spells(&chars, from, to, "html") || spells(&chars, from, to, "htm") {
            FileFormat::Html
        } else if spells(&chars, from, to, "txt") || spells(&chars, from, to, "text") || spells(
            &chars,
            from,
            to,
            "md",
        ) || spells(&chars, from, to, "markdown") || spells(&chars, from, to, "csv") {
            FileFormat::Text
        } else {
            FileFormat::Unknown
        }
    }

    /// Classifies a buffer by its leading bytes.
    pub fn detect_from_content(data: &[u8]) -> (format: FileFormat)
        ensures
            format == content_format(data@),
    {
        if data.len() == 0 {
            return FileFormat::Text;
        }
        if has_prefix(data, &PDF_MAGIC) {
            return FileFormat::Pdf;
        }
        if has_prefix(data, &PNG_MAGIC) {
            return FileFormat::Png;
        }
        if has_prefix(data, &JPEG_MAGIC) {
            return FileFormat::Jpeg;
        }
        if has_prefix(data, &BMP_MAGIC) {
            return FileFormat::Bmp;
        }
        if has_prefix(data, &TIFF_LE_MAGIC) || has_prefix(data, &TIFF_BE_MAGIC) {
            return FileFormat::Tiff;
        }
        if has_prefix(data, &OLE_MAGIC) {
            return FileFormat::Xls;
        }
        if has_prefix(data, &ZIP_MAGIC) {
            return Self::detect_office_format(data);
        }
        if data.len() >= XML_WINDOW && (has_prefix(data, &XML_DECLARATION) || has_prefix(
            data,
            &MARKUP_DECLARATION,
        )) {
            return FileFormat::Xml;
        }
        if data.len() >= HTML_WINDOW && (window_contains(data, HTML_WINDOW, &DOCTYPE_MARKER, true)
            || window_contains(data, HTML_WINDOW, &HTML_MARKER, true)) {
            return FileFormat::Html;
        }
        if starts_json(data) {
            return FileFormat::Json;
        }
        FileFormat::Text
    }

    /// Tells the Office formats apart that share the ZIP container.
    pub fn detect_office_format(data: &[u8]) -> (format: FileFormat)
        ensures
            format == office_format(data@),
    {
        if window_contains(data, OFFICE_WINDOW, &WORD_MARKER, false) {
            FileFormat::Docx
        } else if window_contains(data, OFFICE_WINDOW, &SHEET_MARKER, false) {
            FileFormat::Xlsx
        } else if window_contains(data, OFFICE_WINDOW, &SLIDE_MARKER, false) {
            FileFormat::Pptx
        } else {
            FileFormat::Xlsx
        }
    }

    /// The extensions that the table knows.
    pub fn supported_extensions() -> (list: Vec<&'static str>)
        ensures
            names_of(list@) == supported_extension_names(),
    {
        let list = vec![
            "pdf",
            "docx",
            "xlsx",
            "xls",
            "pptx",
            "png",
            "jpg",
            "jpeg",
            "tiff",
            "tif",
            "bmp",
            "json",
            "xml",
            "html",
            "htm",
            "txt",
            "text",
            "md",
            "markdown",
            "csv",
        ];
        assert(names_of(list@) =~= supported_extension_names());
        list
    }
}

/// A buffer that opens with a magic number has the format of that magic
/// number, whatever follows it. The two markup openers decide as well, once
/// the buffer has the five bytes that the markup test asks for.
pub proof fn lemma_magic_decides(data: Seq<u8>)
    ensures
        starts_with(data, PDF_MAGIC@) ==> content_format(data) == FileFormat::Pdf,
        starts_with(data, PNG_MAGIC@) ==> content_format(data) == FileFormat::Png,
        starts_with(data, JPEG_MAGIC@) ==> content_format(data) == FileFormat::Jpeg,
        starts_with(data, BMP_MAGIC@) ==> content_format(data) == FileFormat::Bmp,
        starts_with(data, TIFF_LE_MAGIC@) ==> content_format(data) == FileFormat::Tiff,
        starts_with(data, TIFF_BE_MAGIC@) ==> content_format(data) == FileFormat::Tiff,
        starts_with(data, OLE_MAGIC@) ==> content_format(data) == FileFormat::Xls,
        starts_with(data, ZIP_MAGIC@) ==> content_format(data) == office_format(data),
        starts_with(data, XML_DECLARATION@) ==> content_format(data) == FileFormat::Xml,
        starts_with(data, MARKUP_DECLARATION@) && data.len() >= XML_WINDOW ==> content_format(data)
            == FileFormat::Xml,
{
    if data.len() > 0 {
        let first = data[0];
        assert(starts_with(data, PDF_MAGIC@) ==> first == PDF_MAGIC@[0]);
        assert(starts_with(data, PNG_MAGIC@) ==> first == PNG_MAGIC@[0]);
        assert(starts_with(data, JPEG_MAGIC@) ==> first == JPEG_MAGIC@[0]);
        assert(starts_with(data, BMP_MAGIC@) ==> first == BMP_MAGIC@[0]);
        assert(starts_with(data, TIFF_LE_MAGIC@) ==> first == TIFF_LE_MAGIC@[0]);
        assert(starts_with(data, TIFF_BE_MAGIC@) ==> first == TIFF_BE_MAGIC@[0]);
        assert(starts_with(data, OLE_MAGIC@) ==> first == OLE_MAGIC@[0]);
        assert(starts_with(data, ZIP_MAGIC@) ==> first == ZIP_MAGIC@[0]);
        assert(starts_with(data, XML_DECLARATION@) ==> first == XML_DECLARATION@[0]);
        assert(starts_with(data, MARKUP_DECLARATION@) ==> first == MARKUP_DECLARATION@[0]);
    }
}

/// Content is never classified as `Unknown`, and an empty buffer is text.
pub proof fn lemma_content_is_known(data: Seq<u8>)
    ensures
        content_format(data) != FileFormat::Unknown,
        data.len() == 0 ==> content_format(data) == FileFormat::Text,
{
}

/// Content evidence overrides extension evidence: where the content names
/// a definitive format, the file name has no say.
pub proof fn lemma_content_overrides_name(filename: Option<Seq<char>>, data: Seq<u8>)
    requires
        is_definitive(content_format(data)),
    ensures
        detect_format(filename, Some(data)) == content_format(data),
{
}

/// Content that reads as text leaves the decision to a known extension,
/// and is `Text` without one. A file name alone is classified by its
/// extension.
pub proof fn lemma_text_defers_to_name(filename: Option<Seq<char>>, data: Seq<u8>)
    ensures
        content_format(data) == FileFormat::Text ==> detect_format(filename, Some(data)) == (
        match filename {
            Some(name) if extension_format(name) != FileFormat::Unknown => extension_format(name),
            _ => FileFormat::Text,
        }),
        detect_format(filename, None) == (match filename {
            Some(name) => extension_format(name),
            None => FileFormat::Unknown,
        }),
{
}

/// A ZIP archive is a document where `word/` occurs in its first 2000
/// bytes; a presentation where `ppt/` occurs there and neither `word/` nor
/// `xl/` does; and a spreadsheet in every other case.
pub proof fn lemma_zip_markers(data: Seq<u8>)
    requires
        starts_with(data, ZIP_MAGIC@),
    ensures
        ({
            let window = head(data, OFFICE_WINDOW as int);
            let word = contains(window, WORD_MARKER@);
            let sheet = contains(window, SHEET_MARKER@);
            let slide = contains(window, SLIDE_MARKER@);
            &&& word ==> content_format(data) == FileFormat::Docx
            &&& slide && !word && !sheet ==> content_format(data) == FileFormat::Pptx
            &&& !word && (sheet || !slide) ==> content_format(data) == FileFormat::Xlsx
        }),
{
    lemma_magic_decides(data);
}

/// The advertised extensions are exactly those that the table knows.
pub proof fn lemma_supported_is_known(ext: Seq<char>)
    ensures
        supported_extension_names().contains(ext) <==> crate::extension::table_format(ext)
            != FileFormat::Unknown,
{
    let names = supported_extension_names();
    if names.contains(ext) {
        let i = choose|i: int| 0 <= i < names.len() && names[i] == ext;
        assert(crate::extension::table_format(names[i]) != FileFormat::Unknown);
    }
    if crate::extension::table_format(ext) != FileFormat::Unknown {
        assert(names[0] == "pdf"@);
        assert(names[1] == "docx"@);
        assert(names[2] == "xlsx"@);
        assert(names[3] == "xls"@);
        assert(names[4] == "pptx"@);
        assert(names[5] == "png"@);
        assert(names[6] == "jpg"@);
        assert(names[7] == "jpeg"@);
        assert(names[8] == "tiff"@);
        assert(names[9] == "tif"@);
        assert(names[10] == "bmp"@);
        assert(names[11] == "json"@);
        assert(names[12] == "xml"@);
        assert(names[13] == "html"@);
        assert(names[14] == "htm"@);
        assert(names[15] == "txt"@);
        assert(names[16] == "text"@);
        assert(names[17] == "md"@);
        assert(names[18] == "markdown"@);
        assert(names[19] == "csv"@);
    }
}

} // verus!
