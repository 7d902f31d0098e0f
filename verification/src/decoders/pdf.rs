//! The PDF decoder, as far as it is independent of the engine that reads
//! the pages: how the text of the pages becomes the text of the document.

use vstd::prelude::*;
use vstd::string::StringExecFns;
use crate::text::{trim, trimmed};

verus! {

/// What stands for a document without text.
pub open spec fn no_text_notice() -> Seq<char> {
    "PDF contains no extractable text (might be scanned/image-based)"@
}

/// The pages of a document one after the other, each followed by a line
/// break. A page without text, `None`, leaves no trace.
pub open spec fn pages_text(pages: Seq<Option<Seq<char>>>) -> Seq<char>
    decreases pages.len(),
{
    if pages.len() == 0 {
        Seq::empty()
    } else {
        match pages.last() {
            Some(page) => pages_text(pages.drop_last()) + page + "\n"@,
            None => pages_text(pages.drop_last()),
        }
    }
}

/// The text of a document, from the text of its pages: the pages one
/// after the other, trimmed as a whole; a notice where no page has text.
pub open spec fn document_text(pages: Seq<Option<Seq<char>>>) -> Seq<char> {
    if pages_text(pages).len() == 0 {
        no_text_notice()
    } else {
        trimmed(pages_text(pages))
    }
}

/// The views of the pages of a document.
pub open spec fn pages_of(pages: Seq<Option<String>>) -> Seq<Option<Seq<char>>> {
    Seq::new(
        pages.len(),
        |i: int|
            match pages[i] {
                Some(page) => Some(page@),
                None => None,
            },
    )
}

/// The text of a document, from the text of its pages. A page that could
/// not be loaded or read is `None`.
pub fn assemble_pages(pages: &Vec<Option<String>>) -> (text: String)
    ensures
        text@ == document_text(pages_of(pages@)),
{
    let ghost all = pages_of(pages@);
    let mut text = String::new();
    let mut i: usize = 0;
    assert(all.take(0) =~= Seq::<Option<Seq<char>>>::empty());
    while i < pages.len()
        invariant
            i <= pages.len(),
            all == pages_of(pages@),
            text@ == pages_text(all.take(i as int)),
        decreases pages.len() - i,
    {
        proof {
            let next = all.take(i + 1);
            assert(next.drop_last() =~= all.take(i as int));
            assert(next.last() == all[i as int]);
        }
        match &pages[i] {
            Some(page) => {
                text.append(page.as_str());
                text.append("\n");
                assert(text@ =~= pages_text(all.take(i as int)) + page@ + "\n"@);
            },
            None => {},
        }
        i += 1;
    }
    assert(all.take(pages.len() as int) =~= all);
    if text.as_str().unicode_len() == 0 {
        String::from_str("PDF contains no extractable text (might be scanned/image-based)")
    } else {
        String::from_str(trim(text.as_str()))
    }
}

} // verus!
