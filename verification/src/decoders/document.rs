//! The document decoder, as far as it is independent of the reader of
//! DOCX files: how the body of a document becomes its text, one line for
//! each paragraph.

use vstd::prelude::*;
use vstd::string::StringExecFns;
use crate::text::{trim, trimmed};

verus! {

/// A child of a run.
#[derive(Debug)]
pub enum RunPiece {
    /// A piece of text.
    Text(String),
    /// Anything else: a tab, a break, a drawing and the like.
    Other,
}

/// A child of a paragraph.
#[derive(Debug)]
pub enum ParagraphPart {
    /// A run: a stretch of the paragraph in one formatting, with its
    /// children.
    Run(Vec<RunPiece>),
    /// Anything else: a bookmark, a hyperlink, a comment mark and the
    /// like.
    Other,
}

/// A child of the body of a document.
#[derive(Debug)]
pub enum BodyPart {
    /// A paragraph, with its children.
    Paragraph(Vec<ParagraphPart>),
    /// Anything else: a table, a section and the like.
    Other,
}

/// The text of a run: its pieces of text, one after the other.
pub open spec fn run_text(pieces: Seq<RunPiece>) -> Seq<char>
    decreases pieces.len(),
{
    if pieces.len() == 0 {
        Seq::empty()
    } else {
        match pieces.last() {
            RunPiece::Text(text) => run_text(pieces.drop_last()) + text@,
            RunPiece::Other => run_text(pieces.drop_last()),
        }
    }
}

/// The text of a paragraph: the text of its runs, one after the other.
pub open spec fn paragraph_text(parts: Seq<ParagraphPart>) -> Seq<char>
    decreases parts.len(),
{
    if parts.len() == 0 {
        Seq::empty()
    } else {
        match parts.last() {
            ParagraphPart::Run(pieces) => paragraph_text(parts.drop_last()) + run_text(pieces@),
            ParagraphPart::Other => paragraph_text(parts.drop_last()),
        }
    }
}

/// The paragraphs of a body, each as its text followed by a line break.
/// Other children of the body leave no trace.
pub open spec fn body_text(body: Seq<BodyPart>) -> Seq<char>
    decreases body.len(),
{
    if body.len() == 0 {
        Seq::empty()
    } else {
        match body.last() {
            BodyPart::Paragraph(parts) => body_text(body.drop_last()) + paragraph_text(parts@)
                + "\n"@,
            BodyPart::Other => body_text(body.drop_last()),
        }
    }
}

/// Appends the text of a run.
pub fn push_run(out: &mut String, pieces: &Vec<RunPiece>)
    ensures
        final(out)@ == old(out)@ + run_text(pieces@),
{
    let mut i: usize = 0;
    assert(pieces@.take(0) =~= Seq::<RunPiece>::empty());
    assert(out@ =~= old(out)@ + run_text(pieces@.take(0)));
    while i < pieces.len()
        invariant
            i <= pieces.len(),
            out@ == old(out)@ + run_text(pieces@.take(i as int)),
        decreases pieces.len() - i,
    {
        proof {
            let next = pieces@.take(i + 1);
            assert(next.drop_last() =~= pieces@.take(i as int));
            assert(next.last() == pieces@[i as int]);
        }
        match &pieces[i] {
            RunPiece::Text(text) => {
                out.append(text.as_str());
                assert(out@ =~= old(out)@ + run_text(pieces@.take(i + 1)));
            },
            RunPiece::Other => {},
        }
        i += 1;
    }
    assert(pieces@.take(pieces.len() as int) =~= pieces@);
}

/// Appends the text of a paragraph.
pub fn push_paragraph(out: &mut String, parts: &Vec<ParagraphPart>)
    ensures
        final(out)@ == old(out)@ + paragraph_text(parts@),
{
    let mut i: usize = 0;
    assert(parts@.take(0) =~= Seq::<ParagraphPart>::empty());
    assert(out@ =~= old(out)@ + paragraph_text(parts@.take(0)));
    while i < parts.len()
        invariant
            i <= parts.len(),
            out@ == old(out)@ + paragraph_text(parts@.take(i as int)),
        decreases parts.len() - i,
    {
        proof {
            let next = parts@.take(i + 1);
            assert(next.drop_last() =~= parts@.take(i as int));
            assert(next.last() == parts@[i as int]);
        }
        match &parts[i] {
            ParagraphPart::Run(pieces) => {
                push_run(out, pieces);
                assert(out@ =~= old(out)@ + paragraph_text(parts@.take(i + 1)));
            },
            ParagraphPart::Other => {},
        }
        i += 1;
    }
    assert(parts@.take(parts.len() as int) =~= parts@);
}

/// The text of a document, from its body: the text of each paragraph
/// followed by a line break, trimmed as a whole. Tables and other
/// children of the body are passed over.
pub fn document_text(body: &Vec<BodyPart>) -> (text: String)
    ensures
        text@ == trimmed(body_text(body@)),
{
    let mut out = String::new();
    let mut i: usize = 0;
    assert(body@.take(0) =~= Seq::<BodyPart>::empty());
    while i < body.len()
        invariant
            i <= body.len(),
            out@ == body_text(body@.take(i as int)),
        decreases body.len() - i,
    {
        proof {
            let next = body@.take(i + 1);
            assert(next.drop_last() =~= body@.take(i as int));
            assert(next.last() == body@[i as int]);
        }
        match &body[i] {
            BodyPart::Paragraph(parts) => {
                push_paragraph(&mut out, parts);
                out.append("\n");
                assert(out@ =~= body_text(body@.take(i + 1)));
            },
            BodyPart::Other => {},
        }
        i += 1;
    }
    assert(body@.take(body.len() as int) =~= body@);
    String::from_str(trim(out.as_str()))
}

} // verus!
