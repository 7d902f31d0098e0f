//! The closed set of formats a buffer can be classified as, and the
//! lowercase tag each one carries at the system boundary.

use vstd::prelude::*;

verus! {

/// A detected file format.
#[derive(Debug, Clone, Copy, PartialEq, Eq, Structural)]
pub enum FileFormat {
    Pdf,
    Docx,
    Xlsx,
    Xls,
    Pptx,
    Png,
    Jpeg,
    Tiff,
    Bmp,
    Json,
    Xml,
    Html,
    Text,
    Unknown,
}

impl FileFormat {
    /// The canonical tag of a format. `Html` carries the tag of `Xml`:
    /// consumers at the boundary treat HTML as XML.
    pub open spec fn tag(self) -> Seq<char> {
        match self {
            FileFormat::Pdf => "pdf"@,
            FileFormat::Docx => "docx"@,
            FileFormat::Xlsx => "xlsx"@,
            FileFormat::Xls => "xls"@,
            FileFormat::Pptx => "pptx"@,
            FileFormat::Png => "png"@,
            FileFormat::Jpeg => "jpeg"@,
            FileFormat::Tiff => "tiff"@,
            FileFormat::Bmp => "bmp"@,
            FileFormat::Json => "json"@,
            FileFormat::Xml => "xml"@,
            FileFormat::Html => "xml"@,
            FileFormat::Text => "text"@,
            FileFormat::Unknown => "unknown"@,
        }
    }

    /// The canonical tag as a string.
    pub fn to_symbol(&self) -> (tag: &'static str)
        ensures
            tag@ == self.tag(),
    {
        match self {
            FileFormat::Pdf => "pdf",
            FileFormat::Docx => "docx",
            FileFormat::Xlsx => "xlsx",
            FileFormat::Xls => "xls",
            FileFormat::Pptx => "pptx",
            FileFormat::Png => "png",
            FileFormat::Jpeg => "jpeg",
            FileFormat::Tiff => "tiff",
            FileFormat::Bmp => "bmp",
            FileFormat::Json => "json",
            FileFormat::Xml => "xml",
            FileFormat::Html => "xml",
            FileFormat::Text => "text",
            FileFormat::Unknown => "unknown",
        }
    }
}

/// `Html` and `Xml` carry one tag, and no other two formats do.
pub proof fn lemma_tags_tell_formats_apart(a: FileFormat, b: FileFormat)
    ensures
        FileFormat::Html.tag() == FileFormat::Xml.tag(),
        a.tag() == b.tag() <==> a == b || (a == FileFormat::Html && b == FileFormat::Xml) || (a
            == FileFormat::Xml && b == FileFormat::Html),
{
    reveal_strlit("pdf");
    reveal_strlit("docx");
    reveal_strlit("xlsx");
    reveal_strlit("xls");
    reveal_strlit("pptx");
    reveal_strlit("png");
    reveal_strlit("jpeg");
    reveal_strlit("tiff");
    reveal_strlit("bmp");
    reveal_strlit("json");
    reveal_strlit("xml");
    reveal_strlit("text");
    reveal_strlit("unknown");
    if a.tag() == b.tag() {
        assert(a.tag().len() == b.tag().len());
        assert(a.tag()[0] == b.tag()[0]);
        assert(a.tag()[1] == b.tag()[1]);
        assert(a.tag()[2] == b.tag()[2]);
    }
}

} // verus!
