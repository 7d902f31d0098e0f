//! The presentation decoder: the text of the slides of a PPTX archive, in
//! the order of their numbers, followed by the text of its notes.

use vstd::prelude::*;
use vstd::string::{StringExecFns, StringSliceAdditionalSpecFns};
use vstd::utf8::encode_utf8;
use crate::bytes::{
    contains, ends_with, folded, has_prefix, has_suffix, head, parse_number, parsed_number,
    starts_with, window_contains,
};
use crate::decoders::markup::{extract_text_from_slide_xml, slide_text};
use crate::text::{describe, described, join, joined, outcome_view, texts_of};

verus! {

/// A ZIP archive of `zip`.
#[verifier::external_type_specification]
#[verifier::external_body]
#[verifier::reject_recursive_types(R)]
pub struct ExZipArchive<R>(zip::ZipArchive<R>);

/// An in-memory reader of the standard library.
#[verifier::external_type_specification]
#[verifier::external_body]
#[verifier::reject_recursive_types(T)]
pub struct ExCursor<T>(std::io::Cursor<T>);

/// `ppt/slides/slide`
pub const SLIDE_PREFIX: [u8; 16] = [
    0x70, 0x70, 0x74, 0x2f, 0x73, 0x6c, 0x69, 0x64, 0x65, 0x73, 0x2f, 0x73, 0x6c, 0x69, 0x64, 0x65,
];

/// `ppt/notesSlides/notesSlide`
pub const NOTES_PREFIX: [u8; 26] = [
    0x70, 0x70, 0x74, 0x2f, 0x6e, 0x6f, 0x74, 0x65, 0x73, 0x53, 0x6c, 0x69, 0x64, 0x65, 0x73, 0x2f,
    0x6e, 0x6f, 0x74, 0x65, 0x73, 0x53, 0x6c, 0x69, 0x64, 0x65,
];

/// `.xml`
pub const XML_SUFFIX: [u8; 4] = [0x2e, 0x78, 0x6d, 0x6c];

/// `_rels`
pub const RELS_MARKER: [u8; 5] = [0x5f, 0x72, 0x65, 0x6c, 0x73];

/// An entry whose name opens with `prefix`, ends with `.xml` and holds no
/// `_rels`.
pub open spec fn is_part_name(name: Seq<u8>, prefix: Seq<u8>) -> bool {
    starts_with(name, prefix) && ends_with(name, XML_SUFFIX@) && !contains(name, RELS_MARKER@)
}

/// The number of the slide that an entry of this name holds: what stands
/// between `ppt/slides/slide` and `.xml`, read as a number.
pub open spec fn slide_number_of(name: Seq<u8>) -> Option<nat> {
    if is_part_name(name, SLIDE_PREFIX@) && name.len() >= SLIDE_PREFIX@.len() + XML_SUFFIX@.len() {
        parsed_number(name.subrange(SLIDE_PREFIX@.len() as int, name.len() - XML_SUFFIX@.len()))
    } else {
        None
    }
}

/// A slide by its number and the position of its entry in the archive.
pub type SlideEntry = (usize, usize);

/// The order of slides: by number, and by position where numbers agree.
pub open spec fn slide_leq(a: SlideEntry, b: SlideEntry) -> bool {
    a.0 < b.0 || (a.0 == b.0 && a.1 <= b.1)
}

/// The order of slides as a relation.
pub open spec fn slide_order() -> spec_fn(SlideEntry, SlideEntry) -> bool {
    |a: SlideEntry, b: SlideEntry| slide_leq(a, b)
}

/// Every slide of the list stands before those that follow it.
pub open spec fn in_slide_order(list: Seq<SlideEntry>) -> bool {
    forall|i: int, j: int| 0 <= i < j < list.len() ==> slide_leq(list[i], list[j])
}

/// The text of a note as it appears in the output.
pub open spec fn note_text(text: Seq<char>) -> Seq<char> {
    "[Notes: "@ + text + "]"@
}

/// The failure of the presentation decoder with the given cause.
pub open spec fn presentation_failure(cause: Seq<char>) -> Seq<char> {
    described("Failed to open PPTX as ZIP"@, cause)
}

/// What `zip::ZipArchive::new` returns for a buffer: the archive, by the
/// names of its entries and by what they hold as text, or the error by
/// its message.
pub uninterp spec fn archive_reading(data: Seq<u8>) -> Result<
    (Seq<Option<Seq<char>>>, Seq<Option<Seq<char>>>),
    Seq<char>,
>;

/// Calls `zip::ZipArchive::new` on a copy of the buffer and hands on the
/// archive, or the error as its message. The result is a function of the
/// buffer alone, named [`archive_reading`]. An archive holds a text, or
/// none, for each of its names.
#[verifier::external_body]
fn open_archive(data: &[u8]) -> (opened: Result<zip::ZipArchive<std::io::Cursor<Vec<u8>>>, String>)
    ensures
        match opened {
            Ok(archive) => archive_reading(data@) == Ok::<
                (Seq<Option<Seq<char>>>, Seq<Option<Seq<char>>>),
                Seq<char>,
            >((archive_names(archive), archive_texts(archive))) && archive_texts(archive).len()
                == archive_names(archive).len(),
            Err(cause) => archive_reading(data@) == Err::<
                (Seq<Option<Seq<char>>>, Seq<Option<Seq<char>>>),
                Seq<char>,
            >(cause@),
        },
{
    zip::ZipArchive::new(std::io::Cursor::new(data.to_vec())).map_err(|e| e.to_string())
}

/// The names of the entries that an archive holds, in its order; `None`
/// for a name that cannot be decoded.
pub uninterp spec fn archive_names(archive: zip::ZipArchive<std::io::Cursor<Vec<u8>>>) -> Seq<
    Option<Seq<char>>,
>;

/// What the entries of an archive hold as text, in its order; `None` for
/// an entry that cannot be opened or does not hold UTF-8 text.
pub uninterp spec fn archive_texts(archive: zip::ZipArchive<std::io::Cursor<Vec<u8>>>) -> Seq<
    Option<Seq<char>>,
>;

/// The view of a string that may be missing.
pub open spec fn text_view(text: Option<String>) -> Option<Seq<char>> {
    match text {
        Some(text) => Some(text@),
        None => None,
    }
}

/// Calls `zip::ZipArchive::len`: the number of entries that the archive
/// holds.
#[verifier::external_body]
fn entry_count(archive: &zip::ZipArchive<std::io::Cursor<Vec<u8>>>) -> (count: usize)
    ensures
        count == archive_names(*archive).len(),
{
    archive.len()
}

/// Calls `zip::ZipArchive::name_for_index`: the name of the entry at
/// `index` as the archive holds it, and `None` where the archive has no
/// such entry.
#[verifier::external_body]
fn entry_name(archive: &zip::ZipArchive<std::io::Cursor<Vec<u8>>>, index: usize) -> (name: Option<
    String,
>)
    ensures
        index < archive_names(*archive).len() ==> text_view(name) == archive_names(
            *archive,
        )[index as int],
        index >= archive_names(*archive).len() ==> name is None,
{
    archive.name_for_index(index).and_then(|name| name.ok()).map(|name| name.into_owned())
}

/// Calls `zip::ZipArchive::by_index` and reads the entry to its end as
/// UTF-8 text: what the entry at `index` holds as text, and `None` where
/// the archive has no such entry. Every entry is looked up from the start
/// of the buffer, so a read leaves what the archive holds as it was. A
/// read that fails for want of memory is left aside.
#[verifier::external_body]
fn entry_text(archive: &mut zip::ZipArchive<std::io::Cursor<Vec<u8>>>, index: usize) -> (text:
    Option<String>)
    ensures
        archive_names(*final(archive)) == archive_names(*old(archive)),
        archive_texts(*final(archive)) == archive_texts(*old(archive)),
        archive_texts(*final(archive)).len() == archive_names(*final(archive)).len(),
        index < archive_texts(*old(archive)).len() ==> text_view(text) == archive_texts(
            *old(archive),
        )[index as int],
        index >= archive_texts(*old(archive)).len() ==> text is None,
{
    let mut file = archive.by_index(index).ok()?;
    let mut text = String::new();
    std::io::Read::read_to_string(&mut file, &mut text).ok().map(|_| text)
}

/// Tells whether an entry name opens with `prefix`, ends with `.xml` and
/// holds no `_rels`.
pub fn names_part(name: &[u8], prefix: &[u8]) -> (found: bool)
    ensures
        found == is_part_name(name@, prefix@),
{
    assert(folded(head(name@, name@.len() as int), false) == name@);
    has_prefix(name, prefix) && has_suffix(name, &XML_SUFFIX) && !window_contains(
        name,
        name.len(),
        &RELS_MARKER,
        false,
    )
}

/// The number of the slide that an entry of this name holds.
pub fn slide_number(name: &str) -> (number: Option<usize>)
    ensures
        match number {
            Some(n) => slide_number_of(name.spec_bytes()) == Some(n as nat),
            None => slide_number_of(name.spec_bytes()) is None,
        },
{
    let bytes = name.as_bytes();
    if names_part(bytes, &SLIDE_PREFIX) && bytes.len() >= 20 {
        parse_number(bytes, 16, bytes.len() - 4)
    } else {
        None
    }
}

/// Tells whether an entry of this name holds the notes of a slide.
pub fn is_notes_name(name: &str) -> (found: bool)
    ensures
        found == is_part_name(name.spec_bytes(), NOTES_PREFIX@),
{
    names_part(name.as_bytes(), &NOTES_PREFIX)
}

proof fn lemma_insert_to_multiset(list: Seq<SlideEntry>, at: int, entry: SlideEntry)
    requires
        0 <= at <= list.len(),
    ensures
        list.insert(at, entry).to_multiset() == list.to_multiset().insert(entry),
{
    broadcast use vstd::seq_lib::group_to_multiset_ensures;

    let longer = list.insert(at, entry);
    assert(longer.remove(at) =~= list);
    assert(longer[at] == entry);
    assert(longer.to_multiset().remove(entry) =~= list.to_multiset());
    assert(longer.contains(entry));
    assert(longer.to_multiset() =~= list.to_multiset().insert(entry));
}

/// The order of slides is a total order.
pub proof fn lemma_slide_order_is_total()
    ensures
        vstd::relations::total_ordering(slide_order()),
{
    let leq = slide_order();
    assert(vstd::relations::reflexive(leq));
    assert(vstd::relations::antisymmetric(leq));
    assert(vstd::relations::transitive(leq));
    assert(vstd::relations::strongly_connected(leq));
}

/// There is one way to put a list of slides in order: two lists in slide
/// order that hold the same slides, each as often as the other, are one
/// list.
pub proof fn lemma_slide_order_is_unique(a: Seq<SlideEntry>, b: Seq<SlideEntry>)
    requires
        in_slide_order(a),
        in_slide_order(b),
        a.to_multiset() == b.to_multiset(),
    ensures
        a == b,
{
    let leq = slide_order();
    lemma_slide_order_is_total();
    assert(vstd::relations::sorted_by(a, leq));
    assert(vstd::relations::sorted_by(b, leq));
    vstd::seq_lib::lemma_sorted_unique(a, b, leq);
}

/// Puts slides in order: by number, and by position where numbers agree.
/// For entries that are listed in the order of the archive, this is the
/// order of their numbers with ties left as they stand.
pub fn sort_slides(list: &Vec<SlideEntry>) -> (sorted: Vec<SlideEntry>)
    ensures
        in_slide_order(sorted@),
        sorted@.to_multiset() == list@.to_multiset(),
        sorted@ == list@.sort_by(slide_order()),
{
    let mut sorted: Vec<SlideEntry> = Vec::new();
    let mut i: usize = 0;
    assert(list@.take(0) =~= Seq::<SlideEntry>::empty());
    while i < list.len()
        invariant
            i <= list.len(),
            sorted@.len() == i,
            in_slide_order(sorted@),
            sorted@.to_multiset() == list@.take(i as int).to_multiset(),
        decreases list.len() - i,
    {
        let entry = list[i];
        let mut at: usize = sorted.len();
        while at > 0 && (entry.0 < sorted[at - 1].0 || (entry.0 == sorted[at - 1].0 && entry.1
            < sorted[at - 1].1))
            invariant
                at <= sorted.len(),
                forall|k: int| at <= k < sorted.len() ==> slide_leq(entry, sorted@[k]),
            decreases at,
        {
            at -= 1;
        }
        proof {
            let before = sorted@;
            let after = before.insert(at as int, entry);
            lemma_insert_to_multiset(before, at as int, entry);
            assert(list@.take(i + 1) =~= list@.take(i as int).push(entry));
            broadcast use vstd::seq_lib::group_to_multiset_ensures;

            assert forall|a: int, b: int| 0 <= a < b < after.len() implies slide_leq(
                after[a],
                after[b],
            ) by {
                if at > 0 {
                    assert(slide_leq(before[at - 1], entry));
                }
                if a < at && b > at {
                    assert(slide_leq(before[a], before[b - 1]));
                } else if a < at && b == at {
                    if a < at - 1 {
                        assert(slide_leq(before[a], before[at - 1]));
                    }
                } else if a < at && b < at {
                    assert(slide_leq(before[a], before[b]));
                } else if a == at {
                    assert(slide_leq(entry, before[b - 1]));
                } else {
                    assert(slide_leq(before[a - 1], before[b - 1]));
                }
            }
        }
        sorted.insert(at, entry);
        i += 1;
    }
    assert(list@.take(list.len() as int) =~= list@);
    proof {
        lemma_slide_order_is_total();
        list@.lemma_sort_by_ensures(slide_order());
        let ordered = list@.sort_by(slide_order());
        assert(in_slide_order(ordered)) by {
            assert forall|i: int, j: int| 0 <= i < j < ordered.len() implies slide_leq(
                ordered[i],
                ordered[j],
            ) by {
                assert(slide_order()(ordered[i], ordered[j]));
            }
        }
        lemma_slide_order_is_unique(sorted@, ordered);
    }
    sorted
}

/// The form in which the text of a note appears in the output.
pub fn format_note(text: &str) -> (note: String)
    ensures
        note@ == note_text(text@),
{
    let mut note = String::from_str("[Notes: ");
    note.append(text);
    note.append("]");
    note
}

/// The names of the entries of an archive, as bytes.
pub open spec fn entry_names_of(names: Seq<Option<String>>) -> Seq<Option<Seq<u8>>> {
    Seq::new(
        names.len(),
        |i: int|
            match names[i] {
                Some(name) => Some(encode_utf8(name@)),
                None => None,
            },
    )
}

/// The texts of a list of entries. An entry that could not be read is
/// `None`.
pub open spec fn entry_texts_of(texts: Seq<Option<String>>) -> Seq<Option<Seq<char>>> {
    Seq::new(
        texts.len(),
        |i: int|
            match texts[i] {
                Some(text) => Some(text@),
                None => None,
            },
    )
}

/// The slides among the entries of an archive, each by its number and
/// position, in the order of the archive.
pub open spec fn slides_among(names: Seq<Option<Seq<u8>>>) -> Seq<SlideEntry>
    decreases names.len(),
{
    if names.len() == 0 {
        Seq::empty()
    } else {
        let before = slides_among(names.drop_last());
        match names.last() {
            Some(name) => match slide_number_of(name) {
                Some(number) => before.push((number as usize, (names.len() - 1) as usize)),
                None => before,
            },
            None => before,
        }
    }
}

/// The positions of the notes among the entries of an archive, in the
/// order of the archive.
pub open spec fn notes_among(names: Seq<Option<Seq<u8>>>) -> Seq<usize>
    decreases names.len(),
{
    if names.len() == 0 {
        Seq::empty()
    } else {
        let before = notes_among(names.drop_last());
        match names.last() {
            Some(name) => if is_part_name(name, NOTES_PREFIX@) {
                before.push((names.len() - 1) as usize)
            } else {
                before
            },
            None => before,
        }
    }
}

/// The texts that are kept: those of the entries that could be read and
/// hold any text.
pub open spec fn kept_texts(texts: Seq<Option<Seq<char>>>) -> Seq<Seq<char>>
    decreases texts.len(),
{
    if texts.len() == 0 {
        Seq::empty()
    } else {
        let before = kept_texts(texts.drop_last());
        match texts.last() {
            Some(text) => if text.len() > 0 {
                before.push(text)
            } else {
                before
            },
            None => before,
        }
    }
}

/// Each text of a list as a note.
pub open spec fn as_notes(texts: Seq<Seq<char>>) -> Seq<Seq<char>> {
    Seq::new(texts.len(), |i: int| note_text(texts[i]))
}

/// The text of a presentation, from the texts of its slides in order and
/// the texts of its notes: what is kept of the slides, then what is kept
/// of the notes, each note in brackets, parted by empty lines.
pub open spec fn presentation_text(
    slides: Seq<Option<Seq<char>>>,
    notes: Seq<Option<Seq<char>>>,
) -> Seq<char> {
    joined(kept_texts(slides) + as_notes(kept_texts(notes)), "\n\n"@)
}

/// The names of the entries of an archive as bytes.
pub open spec fn names_as_bytes(names: Seq<Option<Seq<char>>>) -> Seq<Option<Seq<u8>>> {
    Seq::new(
        names.len(),
        |i: int|
            match names[i] {
                Some(name) => Some(encode_utf8(name)),
                None => None,
            },
    )
}

/// The positions of a list of slides.
pub open spec fn positions_of(slides: Seq<SlideEntry>) -> Seq<usize> {
    Seq::new(slides.len(), |i: int| slides[i].1)
}

/// The text of the part at `position` of an archive, given what its
/// entries hold as text: the text of the slide that the entry at
/// `position` holds, and none where the archive has no such entry or the
/// entry holds no text.
pub open spec fn part_reading(texts: Seq<Option<Seq<char>>>, position: int) -> Option<Seq<char>> {
    if 0 <= position < texts.len() {
        match texts[position] {
            Some(contents) => Some(slide_text(contents)),
            None => None,
        }
    } else {
        None
    }
}

/// The texts of the parts at the given positions of an archive.
pub open spec fn part_readings(texts: Seq<Option<Seq<char>>>, positions: Seq<usize>) -> Seq<
    Option<Seq<char>>,
> {
    Seq::new(positions.len(), |i: int| part_reading(texts, positions[i] as int))
}

/// The text of an archive with the given names and texts: its slides in
/// the order of their numbers, then its notes in the order of the
/// archive.
pub open spec fn archive_text(names: Seq<Option<Seq<char>>>, texts: Seq<Option<Seq<char>>>) -> Seq<
    char,
> {
    presentation_text(
        part_readings(
            texts,
            positions_of(slides_among(names_as_bytes(names)).sort_by(slide_order())),
        ),
        part_readings(texts, notes_among(names_as_bytes(names))),
    )
}

/// What the presentation decoder returns for a buffer: the text of the
/// archive that the buffer opens as, or the failure to open it with the
/// cause that the reading gives.
pub open spec fn presentation_outcome(data: Seq<u8>) -> Result<Seq<char>, Seq<char>> {
    match archive_reading(data) {
        Ok((names, texts)) => Ok(archive_text(names, texts)),
        Err(cause) => Err(presentation_failure(cause)),
    }
}

/// The slides among the entries of an archive, each by its number and
/// position, in the order of the archive.
pub fn select_slides(names: &Vec<Option<String>>) -> (slides: Vec<SlideEntry>)
    ensures
        slides@ == slides_among(entry_names_of(names@)),
{
    let ghost all = entry_names_of(names@);
    let mut slides: Vec<SlideEntry> = Vec::new();
    let mut index: usize = 0;
    assert(all.take(0) =~= Seq::<Option<Seq<u8>>>::empty());
    while index < names.len()
        invariant
            index <= names.len(),
            all == entry_names_of(names@),
            slides@ == slides_among(all.take(index as int)),
        decreases names.len() - index,
    {
        proof {
            let next = all.take(index + 1);
            assert(next.drop_last() =~= all.take(index as int));
            assert(next.last() == all[index as int]);
        }
        if let Some(name) = &names[index] {
            if let Some(number) = slide_number(name.as_str()) {
                slides.push((number, index));
            }
        }
        index += 1;
    }
    assert(all.take(names.len() as int) =~= all);
    slides
}

/// The positions of the notes among the entries of an archive, in the
/// order of the archive.
pub fn select_notes(names: &Vec<Option<String>>) -> (notes: Vec<usize>)
    ensures
        notes@ == notes_among(entry_names_of(names@)),
{
    let ghost all = entry_names_of(names@);
    let mut notes: Vec<usize> = Vec::new();
    let mut index: usize = 0;
    assert(all.take(0) =~= Seq::<Option<Seq<u8>>>::empty());
    while index < names.len()
        invariant
            index <= names.len(),
            all == entry_names_of(names@),
            notes@ == notes_among(all.take(index as int)),
        decreases names.len() - index,
    {
        proof {
            let next = all.take(index + 1);
            assert(next.drop_last() =~= all.take(index as int));
            assert(next.last() == all[index as int]);
        }
        if let Some(name) = &names[index] {
            if is_notes_name(name.as_str()) {
                notes.push(index);
            }
        }
        index += 1;
    }
    assert(all.take(names.len() as int) =~= all);
    notes
}

/// Appends to `pieces` what is kept of `texts`, each as a note where
/// `bracketed` is set.
fn keep_texts(pieces: &mut Vec<String>, texts: &Vec<Option<String>>, bracketed: bool)
    ensures
        texts_of(final(pieces)@) == texts_of(old(pieces)@) + if bracketed {
            as_notes(kept_texts(entry_texts_of(texts@)))
        } else {
            kept_texts(entry_texts_of(texts@))
        },
{
    let ghost all = entry_texts_of(texts@);
    let ghost start = texts_of(pieces@);
    let mut i: usize = 0;
    assert(all.take(0) =~= Seq::<Option<Seq<char>>>::empty());
    assert(texts_of(pieces@) =~= start + as_notes(kept_texts(all.take(0))));
    assert(texts_of(pieces@) =~= start + kept_texts(all.take(0)));
    while i < texts.len()
        invariant
            i <= texts.len(),
            all == entry_texts_of(texts@),
            texts_of(pieces@) == start + if bracketed {
                as_notes(kept_texts(all.take(i as int)))
            } else {
                kept_texts(all.take(i as int))
            },
        decreases texts.len() - i,
    {
        let ghost before = texts_of(pieces@);
        proof {
            let next = all.take(i + 1);
            assert(next.drop_last() =~= all.take(i as int));
            assert(next.last() == all[i as int]);
        }
        if let Some(text) = &texts[i] {
            if text.as_str().unicode_len() > 0 {
                if bracketed {
                    pieces.push(format_note(text.as_str()));
                    assert(texts_of(pieces@) =~= before.push(note_text(text@)));
                    assert(as_notes(kept_texts(all.take(i + 1))) =~= as_notes(
                        kept_texts(all.take(i as int)),
                    ).push(note_text(text@)));
                } else {
                    pieces.push(text.clone());
                    assert(texts_of(pieces@) =~= before.push(text@));
                }
            }
        }
        assert(texts_of(pieces@) =~= start + if bracketed {
            as_notes(kept_texts(all.take(i + 1)))
        } else {
            kept_texts(all.take(i + 1))
        });
        i += 1;
    }
    assert(all.take(texts.len() as int) =~= all);
}

/// The text of a presentation, from the texts of its slides in order and
/// the texts of its notes.
pub fn compose_presentation(slides: &Vec<Option<String>>, notes: &Vec<Option<String>>) -> (text:
    String)
    ensures
        text@ == presentation_text(entry_texts_of(slides@), entry_texts_of(notes@)),
{
    let mut pieces: Vec<String> = Vec::new();
    assert(texts_of(pieces@) =~= Seq::<Seq<char>>::empty());
    keep_texts(&mut pieces, slides, false);
    keep_texts(&mut pieces, notes, true);
    assert(texts_of(pieces@) =~= kept_texts(entry_texts_of(slides@)) + as_notes(
        kept_texts(entry_texts_of(notes@)),
    ));
    join(&pieces, "\n\n")
}

/// The names of the entries of an archive, in its order; `None` for a
/// name that cannot be read.
fn list_names(archive: &zip::ZipArchive<std::io::Cursor<Vec<u8>>>) -> (names: Vec<Option<String>>)
    ensures
        entry_texts_of(names@) == archive_names(*archive),
{
    let count = entry_count(archive);
    let mut names: Vec<Option<String>> = Vec::new();
    let mut index: usize = 0;
    while index < count
        invariant
            index <= count,
            count == archive_names(*archive).len(),
            names@.len() == index,
            forall|k: int|
                0 <= k < index ==> text_view(#[trigger] names@[k]) == archive_names(*archive)[k],
        decreases count - index,
    {
        names.push(entry_name(archive, index));
        index += 1;
    }
    assert(entry_texts_of(names@) =~= archive_names(*archive)) by {
        assert forall|k: int| 0 <= k < names@.len() implies entry_texts_of(names@)[k]
            == archive_names(*archive)[k] by {
            assert(text_view(names@[k]) == archive_names(*archive)[k]);
        }
    }
    names
}

/// The text of the slide or note in the entry at `position`; `None` where
/// the entry cannot be read. What the archive holds stays as it was.
fn part_text(archive: &mut zip::ZipArchive<std::io::Cursor<Vec<u8>>>, position: usize) -> (text:
    Option<String>)
    ensures
        archive_names(*final(archive)) == archive_names(*old(archive)),
        archive_texts(*final(archive)) == archive_texts(*old(archive)),
        text_view(text) == part_reading(archive_texts(*old(archive)), position as int),
{
    match entry_text(archive, position) {
        Some(contents) => Some(extract_text_from_slide_xml(contents.as_str())),
        None => None,
    }
}

/// The positions of a list of slides.
pub fn slide_positions(slides: &Vec<SlideEntry>) -> (positions: Vec<usize>)
    ensures
        positions@ == positions_of(slides@),
{
    let mut positions: Vec<usize> = Vec::new();
    let mut i: usize = 0;
    while i < slides.len()
        invariant
            i <= slides.len(),
            positions@.len() == i,
            forall|k: int| 0 <= k < i ==> positions@[k] == slides@[k].1,
        decreases slides.len() - i,
    {
        positions.push(slides[i].1);
        i += 1;
    }
    assert(positions@ =~= positions_of(slides@));
    positions
}

/// The texts of the parts at the given positions of an archive, in the
/// order of the positions. What the archive holds stays as it was.
fn read_parts(archive: &mut zip::ZipArchive<std::io::Cursor<Vec<u8>>>, positions: &Vec<usize>) -> (texts:
    Vec<Option<String>>)
    ensures
        archive_names(*final(archive)) == archive_names(*old(archive)),
        archive_texts(*final(archive)) == archive_texts(*old(archive)),
        entry_texts_of(texts@) == part_readings(archive_texts(*old(archive)), positions@),
{
    let ghost held = archive_texts(*archive);
    let ghost named = archive_names(*archive);
    let mut texts: Vec<Option<String>> = Vec::new();
    let mut i: usize = 0;
    while i < positions.len()
        invariant
            i <= positions.len(),
            archive_texts(*archive) == held,
            archive_names(*archive) == named,
            texts@.len() == i,
            forall|k: int|
                0 <= k < i ==> text_view(#[trigger] texts@[k]) == part_reading(
                    held,
                    positions@[k] as int,
                ),
        decreases positions.len() - i,
    {
        texts.push(part_text(archive, positions[i]));
        i += 1;
    }
    assert(entry_texts_of(texts@) =~= part_readings(held, positions@)) by {
        assert forall|k: int| 0 <= k < texts@.len() implies entry_texts_of(texts@)[k]
            == part_readings(held, positions@)[k] by {
            assert(text_view(texts@[k]) == part_reading(held, positions@[k] as int));
        }
    }
    texts
}

/// Decodes a PPTX archive. The slides are the entries that
/// [`slides_among`] finds, in the order of their numbers; the notes are
/// those that [`notes_among`] finds, in the order of the archive. The
/// text of each is what [`extract_text_from_slide_xml`] finds in it, and
/// [`presentation_text`] is what becomes of these texts. It fails exactly
/// where the buffer cannot be opened as an archive.
pub fn parse_pptx(data: &[u8]) -> (outcome: Result<String, String>)
    ensures
        outcome_view(outcome) == presentation_outcome(data@),
{
    let mut archive = match open_archive(data) {
        Ok(archive) => archive,
        Err(cause) => {
            let message = describe("Failed to open PPTX as ZIP", cause.as_str());
            assert(message@ == presentation_failure(cause@));
            return Err(message);
        },
    };
    let ghost named = archive_names(archive);
    let ghost held = archive_texts(archive);
    let names = list_names(&archive);
    assert(entry_names_of(names@) =~= names_as_bytes(named)) by {
        assert forall|k: int| 0 <= k < names@.len() implies entry_names_of(names@)[k]
            == names_as_bytes(named)[k] by {
            assert(entry_texts_of(names@)[k] == named[k]);
        }
    }
    let slides = slide_positions(&sort_slides(&select_slides(&names)));
    let notes = select_notes(&names);
    let slide_texts = read_parts(&mut archive, &slides);
    let note_texts = read_parts(&mut archive, &notes);
    let text = compose_presentation(&slide_texts, &note_texts);
    assert(text@ == archive_text(named, held));
    Ok(text)
}

} // verus!
