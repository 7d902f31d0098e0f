//! The markup decoders: the text of an XML or HTML document, and the text
//! of one slide of a presentation.
//!
//! Both read the document as a series of events and keep a small state
//! from one event to the next. What the state becomes with each event is
//! stated exactly; the events themselves are what the reader has in
//! store for the document, which is named and not written out.

use vstd::prelude::*;
use vstd::string::StringExecFns;
use vstd::utf8::encode_utf8;
use crate::text::{describe, described, join, joined, outcome_view, texts_of, trim, trimmed};

verus! {

/// A streaming XML reader of `quick_xml`.
#[verifier::external_type_specification]
#[verifier::external_body]
#[verifier::reject_recursive_types(R)]
pub struct ExReader<R>(quick_xml::Reader<R>);

/// What the reader met, as far as the decoders look at it.
#[derive(Debug)]
pub enum MarkupEvent {
    /// A start tag, with the bytes of its name after the namespace prefix.
    Start(Vec<u8>),
    /// An end tag, with the bytes of its name after the namespace prefix.
    End(Vec<u8>),
    /// Character data, decoded; `None` where it could not be decoded.
    Text(Option<String>),
    /// The end of the document.
    Eof,
    /// Anything else: a comment, a declaration, a reference and the like.
    Other,
}

/// A [`MarkupEvent`] with its contents as sequences.
pub enum MarkupEventModel {
    Start(Seq<u8>),
    End(Seq<u8>),
    Text(Option<Seq<char>>),
    Eof,
    Other,
}

impl View for MarkupEvent {
    type V = MarkupEventModel;

    open spec fn view(&self) -> MarkupEventModel {
        match self {
            MarkupEvent::Start(name) => MarkupEventModel::Start(name@),
            MarkupEvent::End(name) => MarkupEventModel::End(name@),
            MarkupEvent::Text(Some(text)) => MarkupEventModel::Text(Some(text@)),
            MarkupEvent::Text(None) => MarkupEventModel::Text(None),
            MarkupEvent::Eof => MarkupEventModel::Eof,
            MarkupEvent::Other => MarkupEventModel::Other,
        }
    }
}

/// The name of the element that holds text in a slide: `t`.
pub const TEXT_ELEMENT: [u8; 1] = [0x74];

/// The text gathered from a document, with one more event taken in: the
/// content of character data is appended, followed by a space.
pub open spec fn absorbed(text: Seq<char>, event: MarkupEventModel) -> Seq<char> {
    match event {
        MarkupEventModel::Text(Some(content)) => text + content + " "@,
        MarkupEventModel::Text(None) => text + " "@,
        _ => text,
    }
}

/// What is kept from one event of a slide to the next.
pub struct SlideState {
    /// Whether the reader stands inside a text element.
    pub in_text: bool,
    /// The pieces of text gathered so far.
    pub parts: Seq<Seq<char>>,
}

/// The state of a slide with one more event taken in. A start tag `t`
/// opens a text element and an end tag `t` closes it. Character data
/// inside a text element is trimmed and kept unless nothing remains.
pub open spec fn slide_step(state: SlideState, event: MarkupEventModel) -> SlideState {
    match event {
        MarkupEventModel::Start(name) => SlideState {
            in_text: state.in_text || name == TEXT_ELEMENT@,
            parts: state.parts,
        },
        MarkupEventModel::End(name) => SlideState {
            in_text: state.in_text && name != TEXT_ELEMENT@,
            parts: state.parts,
        },
        MarkupEventModel::Text(Some(content)) => if state.in_text && trimmed(content).len() > 0 {
            SlideState { in_text: state.in_text, parts: state.parts.push(trimmed(content)) }
        } else {
            state
        },
        _ => state,
    }
}

/// The most events that are read from a document of `len` bytes. Every
/// event stands for at least one byte of a document, so a reader that
/// goes on past this bound has stopped advancing.
pub open spec fn event_budget(len: nat) -> nat {
    if len <= (usize::MAX - 16) / 2 {
        2 * len + 16
    } else {
        usize::MAX as nat
    }
}

/// Calls `quick_xml::Reader::from_reader` on a byte slice. What the
/// reader has in store is a function of the bytes alone, named
/// [`byte_steps`].
#[verifier::external_body]
fn open_reader<'a>(data: &'a [u8]) -> (reader: quick_xml::Reader<&'a [u8]>)
    ensures
        upcoming(reader) == byte_steps(data@),
{
    quick_xml::Reader::from_reader(data)
}

/// What a reader has in store, at every number: at 0 what its next call
/// comes to, at 1 what the call after that comes to, and so on; each an
/// event, or the message of an error.
pub uninterp spec fn upcoming(reader: quick_xml::Reader<&[u8]>) -> Map<
    nat,
    Result<MarkupEventModel, Seq<char>>,
>;

/// What a reader that `quick_xml::Reader::from_reader` makes from a
/// buffer has in store.
pub uninterp spec fn byte_steps(bytes: Seq<u8>) -> Map<nat, Result<MarkupEventModel, Seq<char>>>;

/// What a reader that `quick_xml::Reader::from_str` makes from a text has
/// in store.
pub uninterp spec fn text_steps(text: Seq<char>) -> Map<nat, Result<MarkupEventModel, Seq<char>>>;

/// The views of what a call of the reader came to.
pub open spec fn step_view(step: Result<MarkupEvent, String>) -> Result<
    MarkupEventModel,
    Seq<char>,
> {
    match step {
        Ok(event) => Ok(event@),
        Err(message) => Err(message@),
    }
}

/// Calls `quick_xml::Reader::from_str`. What the reader has in store is a
/// function of the text alone, named [`text_steps`].
#[verifier::external_body]
fn open_text_reader<'a>(text: &'a str) -> (reader: quick_xml::Reader<&'a [u8]>)
    ensures
        upcoming(reader) == text_steps(text@),
{
    quick_xml::Reader::from_str(text)
}

/// Calls `quick_xml::Reader::read_event_into` and hands the event on as a
/// [`MarkupEvent`], or the reader's error as its message. Tag names come
/// from `local_name`, character data from `BytesText::decode`. The call
/// comes to what the reader had in store first, and leaves the reader
/// with the rest. Nothing is claimed of what that is.
#[verifier::external_body]
fn next_event(reader: &mut quick_xml::Reader<&[u8]>) -> (step: Result<MarkupEvent, String>)
    ensures
        step_view(step) == upcoming(*old(reader))[0],
        forall|k: nat| #[trigger] upcoming(*final(reader))[k] == upcoming(*old(reader))[k + 1],
{
    let mut buf = Vec::new();
    match reader.read_event_into(&mut buf) {
        Ok(quick_xml::events::Event::Start(e)) => Ok(
            MarkupEvent::Start(e.local_name().as_ref().to_vec()),
        ),
        Ok(quick_xml::events::Event::End(e)) => Ok(
            MarkupEvent::End(e.local_name().as_ref().to_vec()),
        ),
        Ok(quick_xml::events::Event::Text(e)) => Ok(
            MarkupEvent::Text(e.decode().ok().map(|text| text.into_owned())),
        ),
        Ok(quick_xml::events::Event::Eof) => Ok(MarkupEvent::Eof),
        Ok(_) => Ok(MarkupEvent::Other),
        Err(e) => Err(e.to_string()),
    }
}

/// How many events are read from a document of `len` bytes at most.
pub fn budget(len: usize) -> (n: usize)
    ensures
        n == event_budget(len as nat),
        n > 0,
{
    if len <= (usize::MAX - 16) / 2 {
        2 * len + 16
    } else {
        usize::MAX
    }
}

/// Takes one event into the text gathered from a document.
pub fn absorb(text: &mut String, event: &MarkupEvent)
    ensures
        final(text)@ == absorbed(old(text)@, event@),
{
    match event {
        MarkupEvent::Text(Some(content)) => {
            text.append(content.as_str());
            text.append(" ");
            assert(final(text)@ =~= old(text)@ + content@ + " "@);
        },
        MarkupEvent::Text(None) => {
            text.append(" ");
        },
        _ => {},
    }
}

/// Tells whether a tag name is that of the text element.
fn is_text_element(name: &Vec<u8>) -> (same: bool)
    ensures
        same == (name@ == TEXT_ELEMENT@),
{
    let same = name.len() == 1 && name[0] == 0x74;
    if same {
        assert(name@ =~= TEXT_ELEMENT@);
    } else if name.len() == 1 {
        assert(TEXT_ELEMENT@[0] == 0x74);
    } else {
        assert(TEXT_ELEMENT@.len() == 1);
    }
    same
}

/// Takes one event into the state of a slide.
pub fn step_slide(in_text: &mut bool, parts: &mut Vec<String>, event: &MarkupEvent)
    ensures
        (SlideState { in_text: *final(in_text), parts: texts_of(final(parts)@) }) == slide_step(
            SlideState { in_text: *old(in_text), parts: texts_of(old(parts)@) },
            event@,
        ),
{
    match event {
        MarkupEvent::Start(name) => {
            if is_text_element(name) {
                *in_text = true;
            }
        },
        MarkupEvent::End(name) => {
            if is_text_element(name) {
                *in_text = false;
            }
        },
        MarkupEvent::Text(Some(content)) => {
            if *in_text {
                let piece = trim(content.as_str());
                if piece.unicode_len() > 0 {
                    parts.push(String::from_str(piece));
                    assert(texts_of(final(parts)@) =~= texts_of(old(parts)@).push(
                        trimmed(content@),
                    ));
                }
            }
        },
        _ => {},
    }
}

/// The failure of the markup decoder with the given cause.
pub open spec fn markup_failure(cause: Seq<char>) -> Seq<char> {
    described("XML parse error"@, cause)
}

/// What reading a document comes to when the reader is called until the
/// end of the document, and `fuel` times at most, beginning with the call
/// at `at` and with the text `text` gathered: the trimmed text at the
/// end, the failure with the reader's message at its first error, and
/// the failure to come to an end where the fuel runs out.
pub open spec fn markup_run(
    steps: Map<nat, Result<MarkupEventModel, Seq<char>>>,
    at: nat,
    fuel: nat,
    text: Seq<char>,
) -> Result<Seq<char>, Seq<char>>
    decreases fuel,
{
    if fuel == 0 {
        Err(markup_failure("the document does not end"@))
    } else {
        match steps[at] {
            Err(cause) => Err(markup_failure(cause)),
            Ok(MarkupEventModel::Eof) => Ok(trimmed(text)),
            Ok(event) => markup_run(steps, at + 1, (fuel - 1) as nat, absorbed(text, event)),
        }
    }
}

/// What the markup decoder returns for a buffer: what reading it from its
/// first event comes to, within the budget of its length.
pub open spec fn markup_outcome(data: Seq<u8>) -> Result<Seq<char>, Seq<char>> {
    markup_run(byte_steps(data), 0, event_budget(data.len()), Seq::empty())
}

/// Decodes an XML or HTML document: the character data of the document,
/// each piece followed by a space, trimmed at the end. It fails with the
/// reader's message at the first error of the reader, and where the
/// reader does not come to the end within [`event_budget`].
pub fn parse_xml(data: &[u8]) -> (outcome: Result<String, String>)
    ensures
        outcome_view(outcome) == markup_outcome(data@),
{
    let mut reader = open_reader(data);
    let mut text = String::new();
    let mut fuel = budget(data.len());
    let ghost steps = byte_steps(data@);
    let ghost total = markup_outcome(data@);
    let ghost mut at: nat = 0;
    while fuel > 0
        invariant
            steps == byte_steps(data@),
            total == markup_outcome(data@),
            forall|k: nat| #[trigger] upcoming(reader)[k] == steps[at + k],
            total == markup_run(steps, at, fuel as nat, text@),
        decreases fuel,
    {
        let ghost before = reader;
        assert(upcoming(before)[0] == steps[at + 0]);
        let ghost left = fuel as nat;
        fuel -= 1;
        let step = next_event(&mut reader);
        proof {
            assert forall|k: nat| #[trigger] upcoming(reader)[k] == steps[at + 1 + k] by {
                assert(upcoming(reader)[k] == upcoming(before)[k + 1]);
                assert(upcoming(before)[(k + 1) as nat] == steps[at + (k + 1) as nat]);
            }
            assert(step_view(step) == steps[at as nat]);
            at = at + 1;
        }
        match step {
            Err(cause) => {
                let message = describe("XML parse error", cause.as_str());
                assert(message@ == markup_failure(cause@));
                return Err(message);
            },
            Ok(MarkupEvent::Eof) => {
                let trimmed_text = String::from_str(trim(text.as_str()));
                return Ok(trimmed_text);
            },
            Ok(event) => {
                absorb(&mut text, &event);
            },
        }
    }
    let message = describe("XML parse error", "the document does not end");
    assert(message@ == markup_failure("the document does not end"@));
    Err(message)
}

/// The state of a slide before any event.
pub open spec fn blank_slide() -> SlideState {
    SlideState { in_text: false, parts: Seq::empty() }
}

/// The state of a slide after the reader has been called until the end of
/// the document, and `fuel` times at most, beginning with the call at
/// `at` and in the state `state`. An error leaves the state as it is.
pub open spec fn slide_run(
    steps: Map<nat, Result<MarkupEventModel, Seq<char>>>,
    at: nat,
    fuel: nat,
    state: SlideState,
) -> SlideState
    decreases fuel,
{
    if fuel == 0 {
        state
    } else {
        match steps[at] {
            Ok(MarkupEventModel::Eof) => state,
            Ok(event) => slide_run(steps, at + 1, (fuel - 1) as nat, slide_step(state, event)),
            Err(_) => slide_run(steps, at + 1, (fuel - 1) as nat, state),
        }
    }
}

/// The text of a slide: the pieces that are kept when its document is
/// read to its end, within the budget of its length, joined by single
/// spaces.
pub open spec fn slide_text(document: Seq<char>) -> Seq<char> {
    joined(
        slide_run(
            text_steps(document),
            0,
            event_budget(encode_utf8(document).len()),
            blank_slide(),
        ).parts,
        " "@,
    )
}

/// The text of one slide: the trimmed pieces of character data inside its
/// text elements, joined by single spaces. Errors of the reader are
/// passed over.
pub fn extract_text_from_slide_xml(xml_content: &str) -> (text: String)
    ensures
        text@ == slide_text(xml_content@),
{
    let mut reader = open_text_reader(xml_content);
    let mut in_text = false;
    let mut parts: Vec<String> = Vec::new();
    let mut fuel = budget(xml_content.as_bytes().len());
    let mut open = true;
    let ghost steps = text_steps(xml_content@);
    let ghost total = slide_run(
        steps,
        0,
        event_budget(encode_utf8(xml_content@).len()),
        blank_slide(),
    );
    let ghost mut at: nat = 0;
    assert(texts_of(parts@) =~= Seq::<Seq<char>>::empty());
    while open && fuel > 0
        invariant
            forall|k: nat| #[trigger] upcoming(reader)[k] == steps[at + k],
            total == if open {
                slide_run(steps, at, fuel as nat, SlideState { in_text, parts: texts_of(parts@) })
            } else {
                SlideState { in_text, parts: texts_of(parts@) }
            },
        decreases fuel,
    {
        let ghost before = reader;
        assert(upcoming(before)[0] == steps[at + 0]);
        fuel -= 1;
        let step = next_event(&mut reader);
        proof {
            assert forall|k: nat| #[trigger] upcoming(reader)[k] == steps[at + 1 + k] by {
                assert(upcoming(reader)[k] == upcoming(before)[k + 1]);
                assert(upcoming(before)[(k + 1) as nat] == steps[at + (k + 1) as nat]);
            }
            at = at + 1;
        }
        match step {
            Err(_) => {},
            Ok(MarkupEvent::Eof) => {
                open = false;
            },
            Ok(event) => {
                step_slide(&mut in_text, &mut parts, &event);
            },
        }
    }
    join(&parts, " ")
}

} // verus!
