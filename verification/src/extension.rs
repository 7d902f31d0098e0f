//! The extension of a path and the fixed table that maps extensions to
//! formats.
//!
//! A path is a sequence of segments separated by `/`. Empty segments and
//! segments that are a single `.` name nothing. The file name is the last
//! segment that remains, unless that segment is `..`. The extension is what
//! follows the last `.` of the file name, provided that `.` is not the
//! first character of the name.

use vstd::prelude::*;
use vstd::std_specs::iter::IteratorSpec;
use crate::format::FileFormat;
use crate::text::{chars_of, lower_char, lowercase, to_lower_char};

verus! {

/// The length of the part of `path` that ends with its last naming segment:
/// trailing separators and trailing `.` segments are left out.
pub open spec fn named_len(path: Seq<char>) -> nat
    decreases path.len(),
{
    if path.len() == 0 {
        0
    } else if path.last() == '/' {
        named_len(path.drop_last())
    } else if path.last() == '.' && (path.len() == 1 || path[path.len() - 2] == '/') {
        named_len(path.drop_last())
    } else {
        path.len()
    }
}

/// The index of the last occurrence of `c` in `s`, or -1 where there is
/// none.
pub open spec fn last_index_of(s: Seq<char>, c: char) -> int
    decreases s.len(),
{
    if s.len() == 0 {
        -1
    } else if s.last() == c {
        s.len() - 1
    } else {
        last_index_of(s.drop_last(), c)
    }
}

/// The last naming segment of `path`; empty where no segment names
/// anything.
pub open spec fn file_name(path: Seq<char>) -> Seq<char> {
    let named = path.take(named_len(path) as int);
    named.skip(last_index_of(named, '/') + 1)
}

/// The extension of `path`, without its dot.
pub open spec fn extension(path: Seq<char>) -> Option<Seq<char>> {
    let name = file_name(path);
    let dot = last_index_of(name, '.');
    if dot <= 0 || name == seq!['.', '.'] {
        None
    } else {
        Some(name.skip(dot + 1))
    }
}

/// The format that the table gives to a lowercase extension.
pub open spec fn table_format(ext: Seq<char>) -> FileFormat {
    if ext == "pdf"@ {
        FileFormat::Pdf
    } else if ext == "docx"@ {
        FileFormat::Docx
    } else if ext == "xlsx"@ {
        FileFormat::Xlsx
    } else if ext == "xls"@ {
        FileFormat::Xls
    } else if ext == "pptx"@ {
        FileFormat::Pptx
    } else if ext == "png"@ {
        FileFormat::Png
    } else if ext == "jpg"@ || ext == "jpeg"@ {
        FileFormat::Jpeg
    } else if ext == "tiff"@ || ext == "tif"@ {
        FileFormat::Tiff
    } else if ext == "bmp"@ {
        FileFormat::Bmp
    } else if ext == "json"@ {
        FileFormat::Json
    } else if ext == "xml"@ {
        FileFormat::Xml
    } else if ext == "html"@ || ext == "htm"@ {
        FileFormat::Html
    } else if ext == "txt"@ || ext == "text"@ || ext == "md"@ || ext == "markdown"@ || ext
        == "csv"@ {
        FileFormat::Text
    } else {
        FileFormat::Unknown
    }
}

/// The format that the extension of `path` stands for: the table entry of
/// the lowercase extension, `Unknown` where the path has no extension or
/// the table has no entry for it.
pub open spec fn extension_format(path: Seq<char>) -> FileFormat {
    match extension(path) {
        Some(ext) => table_format(lowercase(ext)),
        None => FileFormat::Unknown,
    }
}

proof fn lemma_take_drop_last(s: Seq<char>, n: int)
    requires
        0 < n <= s.len(),
    ensures
        s.take(n).drop_last() == s.take(n - 1),
        s.take(n).last() == s[n - 1],
{
    assert(s.take(n).drop_last() =~= s.take(n - 1));
}

/// The bounds of the extension within `chars`.
pub fn extension_bounds(chars: &Vec<char>) -> (bounds: Option<(usize, usize)>)
    ensures
        match bounds {
            Some((from, to)) => from <= to <= chars.len() && extension(chars@) == Some(
                chars@.subrange(from as int, to as int),
            ),
            None => extension(chars@) is None,
        },
{
    let ghost path = chars@;
    let mut to: usize = chars.len();
    assert(path.take(to as int) =~= path);
    while to > 0 && (chars[to - 1] == '/' || (chars[to - 1] == '.' && (to == 1 || chars[to - 2]
        == '/')))
        invariant
            to <= chars.len(),
            path == chars@,
            named_len(path) == named_len(path.take(to as int)),
        decreases to,
    {
        proof {
            lemma_take_drop_last(path, to as int);
        }
        to -= 1;
    }
    proof {
        if to > 0 {
            lemma_take_drop_last(path, to as int);
        }
    }
    assert(named_len(path) == to);
    let ghost named = path.take(to as int);
    let mut start: usize = to;
    assert(named.take(start as int) =~= named);
    while start > 0 && chars[start - 1] != '/'
        invariant
            start <= to <= chars.len(),
            path == chars@,
            named == path.take(to as int),
            last_index_of(named, '/') == last_index_of(named.take(start as int), '/'),
        decreases start,
    {
        proof {
            lemma_take_drop_last(named, start as int);
        }
        start -= 1;
    }
    proof {
        if start > 0 {
            lemma_take_drop_last(named, start as int);
        }
    }
    assert(last_index_of(named, '/') + 1 == start);
    let ghost name = file_name(path);
    assert(name =~= path.subrange(start as int, to as int));
    let mut from: usize = to;
    assert(name.take(from - start) =~= name);
    while from > start && chars[from - 1] != '.'
        invariant
            start <= from <= to <= chars.len(),
            path == chars@,
            name == path.subrange(start as int, to as int),
            last_index_of(name, '.') == last_index_of(name.take(from - start), '.'),
        decreases from,
    {
        proof {
            lemma_take_drop_last(name, from - start);
        }
        from -= 1;
    }
    proof {
        if from > start {
            lemma_take_drop_last(name, from - start);
        }
    }
    assert(last_index_of(name, '.') == from - start - 1);
    if from <= start + 1 {
        return None;
    }
    if to - start == 2 && chars[start] == '.' {
        assert(name =~= seq!['.', '.']);
        return None;
    }
    assert(name != seq!['.', '.']) by {
        if name.len() == 2 {
            assert(name[0] != '.');
            assert(seq!['.', '.'][0] == '.');
        } else {
            assert(seq!['.', '.'].len() == 2);
        }
    }
    assert(name.skip(from - start) =~= path.subrange(from as int, to as int));
    Some((from, to))
}

/// Tells whether the characters of `chars` between `from` and `to`, in
/// lowercase, spell `word`.
pub fn spells(chars: &Vec<char>, from: usize, to: usize, word: &str) -> (same: bool)
    requires
        from <= to <= chars.len(),
    ensures
        same == (lowercase(chars@.subrange(from as int, to as int)) == word@),
{
    let ghost part = lowercase(chars@.subrange(from as int, to as int));
    let mut i: usize = from;
    for c in it: word.chars()
        invariant
            it.seq() == word@,
            i == from + it.index(),
            from <= to <= chars.len(),
            i <= to,
            part == lowercase(chars@.subrange(from as int, to as int)),
            forall|k: int| 0 <= k < it.index() ==> part[k] == word@[k],
    {
        if i >= to {
            assert(part.len() < word@.len());
            return false;
        }
        if to_lower_char(chars[i]) != c {
            assert(part[i - from] != word@[i - from]);
            return false;
        }
        i += 1;
    }
    if i == to {
        assert(part =~= word@);
        true
    } else {
        assert(part.len() > word@.len());
        false
    }
}

/// A character is a separator or a dot exactly when its lowercase form is.
proof fn lemma_lower_char_keeps_marks(c: char)
    ensures
        (lower_char(c) == '/') == (c == '/'),
        (lower_char(c) == '.') == (c == '.'),
        lower_char(lower_char(c)) == lower_char(c),
{
}

proof fn lemma_lowercase_drop_last(s: Seq<char>)
    requires
        s.len() > 0,
    ensures
        lowercase(s).drop_last() == lowercase(s.drop_last()),
        lowercase(s).last() == lower_char(s.last()),
{
    assert(lowercase(s).drop_last() =~= lowercase(s.drop_last()));
}

proof fn lemma_named_len_ignores_case(path: Seq<char>)
    ensures
        named_len(lowercase(path)) == named_len(path),
    decreases path.len(),
{
    if path.len() > 0 {
        lemma_lowercase_drop_last(path);
        lemma_lower_char_keeps_marks(path.last());
        lemma_named_len_ignores_case(path.drop_last());
        if path.len() > 1 {
            lemma_lower_char_keeps_marks(path[path.len() - 2]);
        }
    }
}

proof fn lemma_last_index_ignores_case(s: Seq<char>, c: char)
    requires
        c == '/' || c == '.',
    ensures
        last_index_of(lowercase(s), c) == last_index_of(s, c),
        -1 <= last_index_of(s, c) < s.len(),
    decreases s.len(),
{
    if s.len() > 0 {
        lemma_lowercase_drop_last(s);
        lemma_lower_char_keeps_marks(s.last());
        lemma_last_index_ignores_case(s.drop_last(), c);
    }
}

proof fn lemma_named_len_bound(path: Seq<char>)
    ensures
        named_len(path) <= path.len(),
    decreases path.len(),
{
    if path.len() > 0 {
        lemma_named_len_bound(path.drop_last());
    }
}

proof fn lemma_file_name_ignores_case(path: Seq<char>)
    ensures
        file_name(lowercase(path)) == lowercase(file_name(path)),
{
    lemma_named_len_ignores_case(path);
    lemma_named_len_bound(path);
    let n = named_len(path) as int;
    assert(lowercase(path).take(n) =~= lowercase(path.take(n)));
    lemma_last_index_ignores_case(path.take(n), '/');
    let from = last_index_of(path.take(n), '/') + 1;
    assert(lowercase(path.take(n)).skip(from) =~= lowercase(path.take(n).skip(from)));
}

proof fn lemma_extension_ignores_case(path: Seq<char>)
    ensures
        extension(lowercase(path)) == match extension(path) {
            Some(ext) => Some(lowercase(ext)),
            None => None,
        },
{
    lemma_file_name_ignores_case(path);
    let name = file_name(path);
    lemma_last_index_ignores_case(name, '.');
    let dot = last_index_of(name, '.');
    let dots = seq!['.', '.'];
    assert((lowercase(name) == dots) == (name == dots)) by {
        if name.len() == 2 {
            lemma_lower_char_keeps_marks(name[0]);
            lemma_lower_char_keeps_marks(name[1]);
            assert(lowercase(name)[0] == lower_char(name[0]));
            assert(lowercase(name)[1] == lower_char(name[1]));
            if name[0] == '.' && name[1] == '.' {
                assert(name =~= dots);
                assert(lowercase(name) =~= dots);
            } else {
                assert(dots[0] == '.' && dots[1] == '.');
            }
        } else {
            assert(dots.len() == 2);
        }
    }
    if dot > 0 {
        assert(lowercase(name).skip(dot + 1) =~= lowercase(name.skip(dot + 1)));
    }
}

/// The last occurrence of a character is an occurrence, and none follows
/// it.
pub proof fn lemma_last_index_of(s: Seq<char>, c: char)
    ensures
        -1 <= last_index_of(s, c) < s.len(),
        last_index_of(s, c) >= 0 ==> s[last_index_of(s, c)] == c,
        forall|i: int| last_index_of(s, c) < i < s.len() ==> s[i] != c,
    decreases s.len(),
{
    if s.len() > 0 && s.last() != c {
        lemma_last_index_of(s.drop_last(), c);
        assert forall|i: int| last_index_of(s, c) < i < s.len() implies s[i] != c by {
            if i < s.len() - 1 {
                assert(s[i] == s.drop_last()[i]);
            }
        }
    }
}

/// The extension is a stretch at the end of the file name, the file name
/// a stretch of the path; the file name holds no separator, and the
/// extension neither a separator nor a dot.
pub proof fn lemma_extension_is_final(path: Seq<char>)
    ensures
        !file_name(path).contains('/'),
        match extension(path) {
            Some(ext) => {
                &&& !ext.contains('/')
                &&& !ext.contains('.')
                &&& ext.len() < file_name(path).len()
                &&& ext == file_name(path).skip(file_name(path).len() - ext.len())
                &&& file_name(path)[file_name(path).len() - ext.len() - 1] == '.'
            },
            None => true,
        },
{
    lemma_named_len_bound(path);
    let named = path.take(named_len(path) as int);
    lemma_last_index_of(named, '/');
    let name = file_name(path);
    let from = last_index_of(named, '/') + 1;
    assert forall|i: int| 0 <= i < name.len() implies name[i] != '/' by {
        assert(name[i] == named[from + i]);
    }
    lemma_last_index_of(name, '.');
    match extension(path) {
        Some(ext) => {
            let dot = last_index_of(name, '.');
            assert forall|i: int| 0 <= i < ext.len() implies ext[i] != '/' && ext[i] != '.' by {
                assert(ext[i] == name[dot + 1 + i]);
            }
        },
        None => {},
    }
}

/// Classification by extension sees a file name only through its
/// lowercase form.
pub proof fn lemma_format_of_lowercase_name(path: Seq<char>)
    ensures
        extension_format(lowercase(path)) == extension_format(path),
{
    lemma_extension_ignores_case(path);
    match extension(path) {
        Some(ext) => {
            assert(lowercase(lowercase(ext)) =~= lowercase(ext)) by {
                assert forall|i: int| 0 <= i < ext.len() implies lower_char(lower_char(ext[i]))
                    == lower_char(ext[i]) by {
                    lemma_lower_char_keeps_marks(ext[i]);
                }
            }
        },
        None => {},
    }
}

/// Classification by extension is case-insensitive: two file names that
/// differ only in the case of their letters classify identically.
pub proof fn lemma_extension_case_insensitive(a: Seq<char>, b: Seq<char>)
    requires
        lowercase(a) == lowercase(b),
    ensures
        extension_format(a) == extension_format(b),
{
    lemma_format_of_lowercase_name(a);
    lemma_format_of_lowercase_name(b);
}

} // verus!
