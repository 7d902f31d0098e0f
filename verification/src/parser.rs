//! The dispatcher: it enforces the size ceiling, classifies the buffer,
//! and hands it to the decoder of its format.

use vstd::prelude::*;
use vstd::string::StringExecFns;
use crate::decoders::json::{json_outcome, parse_json};
use crate::decoders::markup::{markup_outcome, parse_xml};
use crate::decoders::presentation::{parse_pptx, presentation_outcome};
use crate::detector::{
    content_format, content_view, detect_format, lemma_supported_is_known, name_view, names_of,
    supported_extension_names, FormatDetector,
};
use crate::error::{ErrorKind, ErrorModel};
use crate::extension::{extension, extension_format};
use crate::format::FileFormat;
use crate::normalizer::{normalize, normalized_text, windows_1252_char, MAX_DECODABLE};
use vstd::utf8::{decode_utf8, valid_utf8};
use crate::text::{lowercase, outcome_view, texts_of, trim, trimmed};

verus! {

/// The inert default of `max_depth`.
pub const DEFAULT_MAX_DEPTH: usize = 100;

/// The default ceiling on a buffer's length: 100 MiB.
pub const DEFAULT_MAX_SIZE: usize = 104857600;

/// What closes the output of [`Parser::parse_string`] in strict mode.
pub open spec fn strict_marker() -> Seq<char> {
    " strict=true"@
}

/// The configuration of a parser. It is fixed when the parser is made.
#[derive(Debug, Clone)]
pub struct ParserConfig {
    /// Marks the output of [`Parser::parse_string`].
    pub strict_mode: bool,
    /// Reserved; nothing consults it.
    pub max_depth: usize,
    /// The declared encoding. It informs only: plain text is always read
    /// as UTF-8 first.
    pub encoding: String,
    /// The longest buffer, in bytes, that the parser accepts.
    pub max_size: usize,
}

/// A [`ParserConfig`] with its encoding as a character sequence.
pub struct ConfigModel {
    pub strict_mode: bool,
    pub max_depth: nat,
    pub encoding: Seq<char>,
    pub max_size: nat,
}

impl View for ParserConfig {
    type V = ConfigModel;

    open spec fn view(&self) -> ConfigModel {
        ConfigModel {
            strict_mode: self.strict_mode,
            max_depth: self.max_depth as nat,
            encoding: self.encoding@,
            max_size: self.max_size as nat,
        }
    }
}

/// The configuration that a parser has where the caller names no other.
pub open spec fn default_config() -> ConfigModel {
    ConfigModel {
        strict_mode: false,
        max_depth: DEFAULT_MAX_DEPTH as nat,
        encoding: "UTF-8"@,
        max_size: DEFAULT_MAX_SIZE as nat,
    }
}

impl Default for ParserConfig {
    fn default() -> (config: Self)
        ensures
            config@ == default_config(),
    {
        ParserConfig {
            strict_mode: false,
            max_depth: DEFAULT_MAX_DEPTH,
            encoding: String::from_str("UTF-8"),
            max_size: DEFAULT_MAX_SIZE,
        }
    }
}

/// The options that a caller may set; what is left out keeps its default.
#[derive(Debug, Clone)]
pub struct ParserOptions {
    pub strict_mode: Option<bool>,
    pub max_depth: Option<usize>,
    pub encoding: Option<String>,
    pub max_size: Option<usize>,
}

/// The configuration that the options give: each option where it is set,
/// the default where it is not.
pub open spec fn merged_config(options: ParserOptions) -> ConfigModel {
    ConfigModel {
        strict_mode: match options.strict_mode {
            Some(strict) => strict,
            None => default_config().strict_mode,
        },
        max_depth: match options.max_depth {
            Some(depth) => depth as nat,
            None => default_config().max_depth,
        },
        encoding: match options.encoding {
            Some(encoding) => encoding@,
            None => default_config().encoding,
        },
        max_size: match options.max_size {
            Some(size) => size as nat,
            None => default_config().max_size,
        },
    }
}

/// A decoder family. Each format is bound to one.
#[derive(Debug, Clone, Copy, PartialEq, Eq, Structural)]
pub enum Capability {
    Pdf,
    Docx,
    Pptx,
    Spreadsheet,
    Json,
    Markup,
    Ocr,
    Text,
}

/// The decoder family that a format is bound to.
pub open spec fn capability_for(format: FileFormat) -> Capability {
    match format {
        FileFormat::Pdf => Capability::Pdf,
        FileFormat::Docx => Capability::Docx,
        FileFormat::Pptx => Capability::Pptx,
        FileFormat::Xlsx | FileFormat::Xls => Capability::Spreadsheet,
        FileFormat::Json => Capability::Json,
        FileFormat::Xml | FileFormat::Html => Capability::Markup,
        FileFormat::Png | FileFormat::Jpeg | FileFormat::Tiff | FileFormat::Bmp => Capability::Ocr,
        FileFormat::Text | FileFormat::Unknown => Capability::Text,
    }
}

/// A decoder family that rests on an engine or a reader outside this
/// library: the caller supplies it.
pub open spec fn is_supplied(capability: Capability) -> bool {
    capability == Capability::Pdf || capability == Capability::Docx || capability
        == Capability::Spreadsheet || capability == Capability::Ocr
}

/// What the decoder of this library for `capability` may return for
/// `data`.
pub open spec fn builtin_yields(
    capability: Capability,
    data: Seq<u8>,
    outcome: Result<Seq<char>, Seq<char>>,
) -> bool {
    match capability {
        Capability::Text => outcome == Ok::<Seq<char>, Seq<char>>(normalized_text(data)),
        Capability::Json => outcome == json_outcome(data),
        Capability::Markup => outcome == markup_outcome(data),
        Capability::Pptx => outcome == presentation_outcome(data),
        Capability::Pdf | Capability::Docx | Capability::Spreadsheet | Capability::Ocr => false,
    }
}

/// The result of a parse, given what the decoder returned: its text, or
/// its message wrapped as a failure to decode `format`.
pub open spec fn concluded(format: FileFormat, outcome: Result<Seq<char>, Seq<char>>) -> Result<
    Seq<char>,
    ErrorModel,
> {
    match outcome {
        Ok(text) => Ok(text),
        Err(message) => Err(ErrorModel::DecodeFailure { format, message }),
    }
}

/// The views of a parse result.
pub open spec fn result_view(result: Result<String, ErrorKind>) -> Result<Seq<char>, ErrorModel> {
    match result {
        Ok(text) => Ok(text@),
        Err(error) => Err(error@),
    }
}

/// `result` is what dispatching a buffer of the given format comes to:
/// the conclusion of some outcome of the decoder that the format is bound
/// to, the caller's `decode` for a supplied family and this library's
/// decoder for any other.
pub open spec fn dispatched<D: Fn(Capability, &[u8]) -> Result<String, String>>(
    decode: D,
    format: FileFormat,
    data: Seq<u8>,
    result: Result<Seq<char>, ErrorModel>,
) -> bool {
    let capability = capability_for(format);
    if is_supplied(capability) {
        exists|bytes: &[u8], outcome: Result<String, String>|
            bytes@ == data && call_ensures(decode, (capability, bytes), outcome) && result
                == concluded(format, outcome_view(outcome))
    } else {
        exists|outcome: Result<Seq<char>, Seq<char>>|
            builtin_yields(capability, data, outcome) && result == concluded(format, outcome)
    }
}

/// `decode` can be called for every supplied family on a buffer that
/// holds `data`.
pub open spec fn accepts<D: Fn(Capability, &[u8]) -> Result<String, String>>(
    decode: D,
    data: Seq<u8>,
) -> bool {
    forall|capability: Capability, bytes: &[u8]|
        is_supplied(capability) && bytes@ == data ==> call_requires(decode, (capability, bytes))
}

/// A buffer of the given format can be dispatched: the decoder that the
/// caller supplies may be called on it, and a buffer of plain text is no
/// longer than the text decoder can take.
pub open spec fn dispatchable<D: Fn(Capability, &[u8]) -> Result<String, String>>(
    decode: D,
    format: FileFormat,
    data: Seq<u8>,
) -> bool {
    &&& accepts(decode, data)
    &&& capability_for(format) == Capability::Text ==> data.len() <= MAX_DECODABLE
}

/// What parsing a buffer of the given length comes to under a ceiling,
/// given what dispatching the buffer comes to: the refusal of a buffer
/// over the ceiling, whatever it holds, and what dispatching any other
/// buffer comes to.
pub open spec fn under_ceiling(
    limit: nat,
    length: nat,
    routed: Result<Seq<char>, ErrorModel>,
) -> Result<Seq<char>, ErrorModel> {
    if length > limit {
        Err(ErrorModel::SizeLimitExceeded { actual: length, limit })
    } else {
        routed
    }
}

/// The size check comes first: a buffer over the ceiling is refused as
/// such, whatever classifying and decoding it would come to, and never as
/// a failure to decode.
pub proof fn lemma_size_check_comes_first(
    limit: nat,
    length: nat,
    routed: Result<Seq<char>, ErrorModel>,
)
    requires
        length > limit,
    ensures
        under_ceiling(limit, length, routed) == Err::<Seq<char>, ErrorModel>(
            ErrorModel::SizeLimitExceeded { actual: length, limit },
        ),
        !(under_ceiling(limit, length, routed) matches Err(ErrorModel::DecodeFailure { .. })),
{
}

/// The result of parsing a string: nothing is parsed from an empty one;
/// any other is trimmed, and marked in strict mode.
pub open spec fn parsed_string(strict: bool, input: Seq<char>) -> Result<Seq<char>, ErrorModel> {
    if input.len() == 0 {
        Err(ErrorModel::EmptyInput)
    } else if strict {
        Ok(trimmed(input) + strict_marker())
    } else {
        Ok(trimmed(input))
    }
}

/// The format that is reported for a buffer: the tag of its content's
/// format, with a legacy Office container reported as `xlsx`.
pub open spec fn reported_tag(data: Seq<u8>) -> Seq<char> {
    if content_format(data) == FileFormat::Xls {
        FileFormat::Xlsx.tag()
    } else {
        content_format(data).tag()
    }
}

/// Whether the extension of a path is among the advertised ones.
pub open spec fn is_supported_path(path: Seq<char>) -> bool {
    match extension(path) {
        Some(ext) => supported_extension_names().contains(lowercase(ext)),
        None => false,
    }
}

/// A parser: a configuration, fixed for the parser's lifetime.
#[derive(Debug, Clone)]
pub struct Parser {
    config: ParserConfig,
}

impl View for Parser {
    type V = ConfigModel;

    closed spec fn view(&self) -> ConfigModel {
        self.config@
    }
}

impl Default for Parser {
    fn default() -> (parser: Self)
        ensures
            parser@ == default_config(),
    {
        Parser { config: ParserConfig::default() }
    }
}

impl Parser {
    /// A parser with the caller's options merged over the defaults.
    pub fn new(options: ParserOptions) -> (parser: Parser)
        ensures
            parser@ == merged_config(options),
    {
        let defaults = ParserConfig::default();
        Parser {
            config: ParserConfig {
                strict_mode: match options.strict_mode {
                    Some(strict) => strict,
                    None => defaults.strict_mode,
                },
                max_depth: match options.max_depth {
                    Some(depth) => depth,
                    None => defaults.max_depth,
                },
                encoding: match options.encoding {
                    Some(encoding) => encoding,
                    None => defaults.encoding,
                },
                max_size: match options.max_size {
                    Some(size) => size,
                    None => defaults.max_size,
                },
            },
        }
    }

    /// A parser with the given configuration.
    pub fn with_config(config: ParserConfig) -> (parser: Parser)
        ensures
            parser@ == config@,
    {
        Parser { config }
    }

    /// The configuration of this parser.
    pub fn config(&self) -> (config: &ParserConfig)
        ensures
            config@ == self@,
    {
        &self.config
    }

    /// Whether this parser is in strict mode.
    pub fn strict_mode(&self) -> (strict: bool)
        ensures
            strict == self@.strict_mode,
    {
        self.config.strict_mode
    }

    /// The decoder family that a format is bound to.
    pub fn capability(format: FileFormat) -> (capability: Capability)
        ensures
            capability == capability_for(format),
    {
        match format {
            FileFormat::Pdf => Capability::Pdf,
            FileFormat::Docx => Capability::Docx,
            FileFormat::Pptx => Capability::Pptx,
            FileFormat::Xlsx | FileFormat::Xls => Capability::Spreadsheet,
            FileFormat::Json => Capability::Json,
            FileFormat::Xml | FileFormat::Html => Capability::Markup,
            FileFormat::Png | FileFormat::Jpeg | FileFormat::Tiff | FileFormat::Bmp => {
                Capability::Ocr
            },
            FileFormat::Text | FileFormat::Unknown => Capability::Text,
        }
    }

    /// Surfaces what a decoder returned for a buffer of the given format:
    /// its text as it is, its failure wrapped with the message untouched.
    pub fn conclude(format: FileFormat, outcome: Result<String, String>) -> (result: Result<
        String,
        ErrorKind,
    >)
        ensures
            result_view(result) == concluded(format, outcome_view(outcome)),
    {
        match outcome {
            Ok(text) => Ok(text),
            Err(message) => Err(ErrorKind::DecodeFailure { format, message }),
        }
    }

    /// Decodes a buffer of plain text: as UTF-8 where it is valid UTF-8,
    /// else byte by byte as Windows-1252.
    pub fn parse_text(data: &[u8]) -> (text: String)
        requires
            data@.len() <= MAX_DECODABLE,
        ensures
            text@ == normalized_text(data@),
            valid_utf8(data@) ==> text@ == decode_utf8(data@),
            !valid_utf8(data@) ==> text@.len() == data@.len() && forall|i: int|
                0 <= i < data@.len() ==> #[trigger] text@[i] == windows_1252_char(data@[i]),
    {
        normalize(data)
    }

    /// Hands a buffer of the given format to the decoder that the format
    /// is bound to, and surfaces what the decoder returns.
    pub fn dispatch_to_parser<D>(format: FileFormat, data: &[u8], decode: D) -> (result: Result<
        String,
        ErrorKind,
    >) where D: Fn(Capability, &[u8]) -> Result<String, String>
        requires
            dispatchable(decode, format, data@),
        ensures
            dispatched(decode, format, data@, result_view(result)),
            capability_for(format) == Capability::Text ==> result_view(result) == Ok::<
                Seq<char>,
                ErrorModel,
            >(normalized_text(data@)),
    {
        let capability = Self::capability(format);
        let outcome = match capability {
            Capability::Pdf | Capability::Docx | Capability::Spreadsheet | Capability::Ocr => {
                assert(is_supplied(capability));
                let outcome = decode(capability, data);
                let result = Self::conclude(format, outcome);
                assert(call_ensures(decode, (capability, data), outcome));
                return result;
            },
            Capability::Pptx => parse_pptx(data),
            Capability::Json => Ok(parse_json(data)),
            Capability::Markup => parse_xml(data),
            Capability::Text => Ok(Self::parse_text(data)),
        };
        assert(builtin_yields(capability, data@, outcome_view(outcome)));
        Self::conclude(format, outcome)
    }

    /// Parses a buffer that may come with a file name.
    ///
    /// A buffer longer than the ceiling is refused before anything else
    /// is done with it. Any other buffer is classified, by its content
    /// and its file name, and dispatched by its format.
    pub fn parse_bytes<D>(&self, data: &[u8], filename: Option<&str>, decode: D) -> (result: Result<
        String,
        ErrorKind,
    >) where D: Fn(Capability, &[u8]) -> Result<String, String>
        requires
            data@.len() <= self@.max_size ==> dispatchable(
                decode,
                detect_format(name_view(filename), Some(data@)),
                data@,
            ),
        ensures
            data@.len() > self@.max_size ==> result_view(result) == Err::<Seq<char>, ErrorModel>(
                ErrorModel::SizeLimitExceeded { actual: data@.len(), limit: self@.max_size },
            ),
            data@.len() <= self@.max_size ==> dispatched(
                decode,
                detect_format(name_view(filename), Some(data@)),
                data@,
                result_view(result),
            ),
            data@.len() <= self@.max_size && capability_for(
                detect_format(name_view(filename), Some(data@)),
            ) == Capability::Text ==> result_view(result) == Ok::<Seq<char>, ErrorModel>(
                normalized_text(data@),
            ),
            exists|routed: Result<Seq<char>, ErrorModel>|
                result_view(result) == under_ceiling(self@.max_size, data@.len(), routed) && (
                data@.len() <= self@.max_size ==> dispatched(
                    decode,
                    detect_format(name_view(filename), Some(data@)),
                    data@,
                    routed,
                )),
    {
        if data.len() > self.config.max_size {
            let refusal = Err(
                ErrorKind::SizeLimitExceeded { actual: data.len(), limit: self.config.max_size },
            );
            assert(result_view(refusal) == under_ceiling(
                self@.max_size,
                data@.len(),
                result_view(refusal),
            ));
            return refusal;
        }
        let format = FormatDetector::detect(filename, Some(data));
        let result = Self::dispatch_to_parser(format, data, decode);
        assert(result_view(result) == under_ceiling(
            self@.max_size,
            data@.len(),
            result_view(result),
        ));
        result
    }

    /// Parses what was read from the file at `path`: the buffer with the
    /// path as its file name, or the failure of the read.
    pub fn parse_file_contents<D>(
        &self,
        path: &str,
        contents: Result<Vec<u8>, String>,
        decode: D,
    ) -> (result: Result<String, ErrorKind>) where D: Fn(Capability, &[u8]) -> Result<String, String>
        requires
            contents matches Ok(data) ==> (data@.len() <= self@.max_size ==> dispatchable(
                decode,
                detect_format(Some(path@), Some(data@)),
                data@,
            )),
        ensures
            match contents {
                Err(cause) => result_view(result) == Err::<Seq<char>, ErrorModel>(
                    ErrorModel::IoFailure { context: cause@ },
                ),
                Ok(data) => {
                    &&& data@.len() > self@.max_size ==> result_view(result) == Err::<
                        Seq<char>,
                        ErrorModel,
                    >(
                        ErrorModel::SizeLimitExceeded {
                            actual: data@.len(),
                            limit: self@.max_size,
                        },
                    )
                    &&& data@.len() <= self@.max_size ==> dispatched(
                        decode,
                        detect_format(Some(path@), Some(data@)),
                        data@,
                        result_view(result),
                    )
                },
            },
    {
        match contents {
            Err(cause) => Err(ErrorKind::IoFailure { context: cause }),
            Ok(data) => self.parse_bytes(data.as_slice(), Some(path), decode),
        }
    }

    /// Parses a buffer that must not be empty and comes without a file
    /// name.
    pub fn parse_buffer<D>(&self, data: &[u8], decode: D) -> (result: Result<String, ErrorKind>) where
        D: Fn(Capability, &[u8]) -> Result<String, String>,

        requires
            0 < data@.len() <= self@.max_size ==> dispatchable(
                decode,
                detect_format(None, Some(data@)),
                data@,
            ),
        ensures
            data@.len() == 0 ==> result_view(result) == Err::<Seq<char>, ErrorModel>(
                ErrorModel::EmptyInput,
            ),
            data@.len() > self@.max_size ==> result_view(result) == Err::<Seq<char>, ErrorModel>(
                ErrorModel::SizeLimitExceeded { actual: data@.len(), limit: self@.max_size },
            ),
            0 < data@.len() <= self@.max_size ==> dispatched(
                decode,
                detect_format(None, Some(data@)),
                data@,
                result_view(result),
            ),
    {
        if data.len() == 0 {
            return Err(ErrorKind::EmptyInput);
        }
        self.parse_bytes(data, None, decode)
    }

    /// Parses a string: it is trimmed, and in strict mode the marker is
    /// appended. An empty string is refused.
    pub fn parse_string(&self, input: &str) -> (result: Result<String, ErrorKind>)
        ensures
            result_view(result) == parsed_string(self@.strict_mode, input@),
    {
        if input.unicode_len() == 0 {
            return Err(ErrorKind::EmptyInput);
        }
        let text = String::from_str(trim(input));
        if self.config.strict_mode {
            Ok(text.concat(" strict=true"))
        } else {
            Ok(text)
        }
    }

    /// The tag that is reported for a buffer.
    pub fn detect_format_from_bytes(data: &[u8]) -> (tag: String)
        ensures
            tag@ == reported_tag(data@),
    {
        let format = FormatDetector::detect_from_content(data);
        match format {
            FileFormat::Xls => String::from_str("xlsx"),
            _ => String::from_str(format.to_symbol()),
        }
    }

    /// The tag that is reported for a file name.
    pub fn detect_format_from_filename(filename: &str) -> (tag: String)
        ensures
            tag@ == extension_format(filename@).tag(),
    {
        String::from_str(FormatDetector::detect_from_extension(filename).to_symbol())
    }

    /// The extensions that this library advertises.
    pub fn supported_formats() -> (list: Vec<String>)
        ensures
            texts_of(list@) == supported_extension_names(),
    {
        let names = FormatDetector::supported_extensions();
        let mut list: Vec<String> = Vec::new();
        let mut i: usize = 0;
        while i < names.len()
            invariant
                i <= names.len(),
                list@.len() == i,
                forall|k: int| 0 <= k < i ==> list@[k]@ == names@[k]@,
            decreases names.len() - i,
        {
            list.push(String::from_str(names[i]));
            i += 1;
        }
        assert(texts_of(list@) =~= names_of(names@));
        list
    }

    /// Tells whether the extension of a path is among the advertised
    /// ones, in either case of each letter.
    pub fn supports_file(path: &str) -> (supported: bool)
        ensures
            supported == is_supported_path(path@),
            supported == (extension_format(path@) != FileFormat::Unknown),
    {
        proof {
            match extension(path@) {
                Some(ext) => {
                    lemma_supported_is_known(lowercase(ext));
                },
                None => {},
            }
        }
        FormatDetector::detect_from_extension(path) != FileFormat::Unknown
    }
}

/// Parses a buffer with the default configuration and without a file
/// name.
pub fn parse_bytes_direct<D>(data: &[u8], decode: D) -> (result: Result<String, ErrorKind>) where
    D: Fn(Capability, &[u8]) -> Result<String, String>,

    requires
        data@.len() <= DEFAULT_MAX_SIZE ==> accepts(decode, data@),
    ensures
        data@.len() > DEFAULT_MAX_SIZE ==> result_view(result) == Err::<Seq<char>, ErrorModel>(
            ErrorModel::SizeLimitExceeded {
                actual: data@.len(),
                limit: DEFAULT_MAX_SIZE as nat,
            },
        ),
        data@.len() <= DEFAULT_MAX_SIZE ==> dispatched(
            decode,
            detect_format(None, Some(data@)),
            data@,
            result_view(result),
        ),
{
    let parser = Parser::default();
    parser.parse_bytes(data, None, decode)
}

} // verus!
