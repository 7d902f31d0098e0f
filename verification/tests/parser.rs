use parsekit::error::{ErrorKind, ParserError};
use parsekit::format::FileFormat;
use parsekit::parser::{
    parse_bytes_direct, Capability, Parser, ParserConfig, ParserOptions, DEFAULT_MAX_DEPTH,
    DEFAULT_MAX_SIZE,
};

fn no_engine(_capability: Capability, _data: &[u8]) -> Result<String, String> {
    Err("no engine".to_string())
}

fn must_not_run(_capability: Capability, _data: &[u8]) -> Result<String, String> {
    panic!("the decoder was reached");
}

fn options() -> ParserOptions {
    ParserOptions { strict_mode: None, max_depth: None, encoding: None, max_size: None }
}

fn strict_parser() -> Parser {
    Parser::new(ParserOptions { strict_mode: Some(true), ..options() })
}

fn parser_with_limit(limit: usize) -> Parser {
    Parser::new(ParserOptions { max_size: Some(limit), ..options() })
}

#[test]
fn defaults_of_the_configuration() {
    let config = ParserConfig::default();
    assert!(!config.strict_mode);
    assert_eq!(config.max_depth, 100);
    assert_eq!(config.encoding, "UTF-8");
    assert_eq!(config.max_size, 104857600);
    assert_eq!(DEFAULT_MAX_DEPTH, 100);
    assert_eq!(DEFAULT_MAX_SIZE, 100 * 1024 * 1024);
    let parser = Parser::default();
    assert_eq!(parser.config().max_size, 104857600);
    assert!(!parser.strict_mode());
}

#[test]
fn options_are_merged_over_the_defaults() {
    let parser = Parser::new(options());
    assert!(!parser.config().strict_mode);
    assert_eq!(parser.config().max_depth, 100);
    assert_eq!(parser.config().encoding, "UTF-8");
    assert_eq!(parser.config().max_size, 104857600);
    let parser = Parser::new(ParserOptions {
        strict_mode: Some(true),
        max_depth: Some(3),
        encoding: Some("latin1".to_string()),
        max_size: Some(10),
    });
    assert!(parser.strict_mode());
    assert_eq!(parser.config().max_depth, 3);
    assert_eq!(parser.config().encoding, "latin1");
    assert_eq!(parser.config().max_size, 10);
    let parser = Parser::new(ParserOptions { max_depth: Some(7), ..options() });
    assert_eq!(parser.config().max_depth, 7);
    assert_eq!(parser.config().max_size, 104857600);
    let parser = Parser::with_config(ParserConfig {
        strict_mode: true,
        max_depth: 1,
        encoding: "x".to_string(),
        max_size: 2,
    });
    assert_eq!(parser.config().max_size, 2);
}

#[test]
fn an_empty_string_is_refused() {
    assert!(matches!(Parser::default().parse_string(""), Err(ErrorKind::EmptyInput)));
    assert!(matches!(strict_parser().parse_string(""), Err(ErrorKind::EmptyInput)));
}

#[test]
fn a_string_is_trimmed() {
    assert_eq!(Parser::default().parse_string("  hi  ").unwrap(), "hi");
    assert_eq!(Parser::default().parse_string("   ").unwrap(), "");
    assert_eq!(Parser::default().parse_string("\u{a0}a b\n").unwrap(), "a b");
}

#[test]
fn strict_mode_marks_the_output() {
    assert_eq!(strict_parser().parse_string("  hi  ").unwrap(), "hi strict=true");
    assert_eq!(strict_parser().parse_string(" ").unwrap(), " strict=true");
}

#[test]
fn an_oversized_buffer_is_refused() {
    let data = vec![0u8; 101 * 1024 * 1024];
    match Parser::default().parse_bytes(&data, None, must_not_run) {
        Err(ErrorKind::SizeLimitExceeded { actual, limit }) => {
            assert_eq!(actual, 105906176);
            assert_eq!(limit, 104857600);
        }
        other => panic!("unexpected result: {:?}", other.map(|text| text.len())),
    }
}

#[test]
fn the_size_check_comes_before_decoding() {
    let parser = parser_with_limit(8);
    let broken_pdf = b"%PDF-1.4 this is not a document";
    match parser.parse_bytes(broken_pdf, Some("broken.pdf"), must_not_run) {
        Err(ErrorKind::SizeLimitExceeded { actual, limit }) => {
            assert_eq!(actual, broken_pdf.len());
            assert_eq!(limit, 8);
        }
        other => panic!("unexpected result: {:?}", other),
    }
    let broken_zip = b"PK\x03\x04 word/ not an archive";
    assert!(matches!(
        parser.parse_bytes(broken_zip, None, must_not_run),
        Err(ErrorKind::SizeLimitExceeded { actual: 25, limit: 8 })
    ));
}

#[test]
fn a_buffer_at_the_limit_is_accepted() {
    let parser = parser_with_limit(5);
    assert_eq!(parser.parse_bytes(b"12345", None, must_not_run).unwrap(), "12345");
    assert!(matches!(
        parser.parse_bytes(b"123456", None, must_not_run),
        Err(ErrorKind::SizeLimitExceeded { actual: 6, limit: 5 })
    ));
    let parser = parser_with_limit(0);
    assert_eq!(parser.parse_bytes(b"", None, must_not_run).unwrap(), "");
}

#[test]
fn plain_text_is_decoded() {
    let parser = Parser::default();
    assert_eq!(parser.parse_bytes(b"hello world", None, must_not_run).unwrap(), "hello world");
    assert_eq!(parser.parse_bytes(b"", None, must_not_run).unwrap(), "");
    assert_eq!(
        parser.parse_bytes("gr\u{fc}\u{df}e \u{2013} ok".as_bytes(), None, must_not_run).unwrap(),
        "gr\u{fc}\u{df}e \u{2013} ok"
    );
    assert_eq!(
        parser.parse_bytes(b"a,b\n1,2\n", Some("table.csv"), must_not_run).unwrap(),
        "a,b\n1,2\n"
    );
    assert_eq!(parser.parse_bytes(b"  keep  ", Some("x.bin"), must_not_run).unwrap(), "  keep  ");
}

#[test]
fn malformed_utf8_falls_back_to_windows_1252() {
    let parser = Parser::default();
    assert_eq!(parser.parse_bytes(b"caf\xe9", None, must_not_run).unwrap(), "caf\u{e9}");
    assert_eq!(
        parser.parse_bytes(b"price: 5\x80 \x93ok\x94", None, must_not_run).unwrap(),
        "price: 5\u{20ac} \u{201c}ok\u{201d}"
    );
    assert_eq!(Parser::parse_text(b"\xc3\x28"), "\u{c3}(");
    assert_eq!(Parser::parse_text(b"\x81\x8d"), "\u{81}\u{8d}");
}

#[test]
fn byte_order_marks_are_not_sniffed() {
    assert_eq!(Parser::parse_text(b"\xef\xbb\xbfhello"), "\u{feff}hello");
    assert_eq!(Parser::parse_text(b"\xff\xfeh\x00i\x00"), "\u{ff}\u{fe}h\0i\0");
    assert_eq!(Parser::parse_text(b"\xfe\xff\x00h\x00i"), "\u{fe}\u{ff}\0h\0i");
}

#[test]
fn only_well_formed_utf8_is_read_as_utf8() {
    let well_formed: [&[u8]; 6] = [
        b"",
        b"plain",
        "\u{7f}\u{80}\u{7ff}\u{800}\u{ffff}".as_bytes(),
        "\u{10000}\u{10ffff}".as_bytes(),
        "\u{d7ff}\u{e000}".as_bytes(),
        b"\xef\xbb\xbf",
    ];
    for data in well_formed {
        assert_eq!(Parser::parse_text(data), std::str::from_utf8(data).unwrap());
    }
    let malformed: [&[u8]; 9] = [
        b"\x80",
        b"\xc0\x80",
        b"\xc1\xbf",
        b"\xe0\x80\x80",
        b"\xed\xa0\x80",
        b"\xed\xbf\xbf",
        b"\xf0\x80\x80\x80",
        b"\xf4\x90\x80\x80",
        b"abc\xe2\x82",
    ];
    for data in malformed {
        assert!(std::str::from_utf8(data).is_err());
        assert_eq!(Parser::parse_text(data).chars().count(), data.len(), "{:?}", data);
    }
    let mut seed: u32 = 12345;
    for _ in 0..2000 {
        let mut data = Vec::new();
        for _ in 0..6 {
            seed = seed.wrapping_mul(1664525).wrapping_add(1013904223);
            let pick = (seed >> 24) as u8;
            data.push(if pick % 3 == 0 { pick } else { 0x80 | (pick % 0x80) });
        }
        let text = Parser::parse_text(&data);
        match std::str::from_utf8(&data) {
            Ok(valid) => assert_eq!(text, valid),
            Err(_) => assert_eq!(text.chars().count(), data.len(), "{:?}", data),
        }
    }
}

#[test]
fn windows_1252_is_read_byte_by_byte() {
    let mut data: Vec<u8> = (0u8..=255).collect();
    data.push(0xff);
    let text: Vec<char> = Parser::parse_text(&data).chars().collect();
    assert_eq!(text.len(), data.len());
    for (byte, c) in data.iter().zip(text.iter()) {
        if *byte < 0x80 || *byte >= 0xa0 {
            assert_eq!(*c as u32, *byte as u32);
        }
    }
    let upper: String = text[0x80..0xa0].iter().collect();
    assert_eq!(
        upper,
        "\u{20ac}\u{81}\u{201a}\u{192}\u{201e}\u{2026}\u{2020}\u{2021}\u{2c6}\u{2030}\u{160}\u{2039}\u{152}\u{8d}\u{17d}\u{8f}\u{90}\u{2018}\u{2019}\u{201c}\u{201d}\u{2022}\u{2013}\u{2014}\u{2dc}\u{2122}\u{161}\u{203a}\u{153}\u{9d}\u{17e}\u{178}"
    );
}

#[test]
fn a_supplied_decoder_is_called_for_its_family() {
    let parser = Parser::default();
    let echo = |capability: Capability, data: &[u8]| -> Result<String, String> {
        Ok(format!("{:?}:{}", capability, data.len()))
    };
    assert_eq!(parser.parse_bytes(b"%PDF-1.4\n", None, echo).unwrap(), "Pdf:9");
    assert_eq!(parser.parse_bytes(b"%PDF-1.4\n", Some("scan.txt"), echo).unwrap(), "Pdf:9");
    assert_eq!(parser.parse_bytes(b"not a pdf", Some("scan.pdf"), echo).unwrap(), "Pdf:9");
    assert_eq!(parser.parse_bytes(b"BM....", None, echo).unwrap(), "Ocr:6");
    assert_eq!(parser.parse_bytes(b"\xff\xd8\xff\xe0", None, echo).unwrap(), "Ocr:4");
    assert_eq!(parser.parse_bytes(b"II\x2a\x00", None, echo).unwrap(), "Ocr:4");
    assert_eq!(parser.parse_bytes(b"text", Some("photo.PNG"), echo).unwrap(), "Ocr:4");
    assert_eq!(parser.parse_bytes(b"", None, echo).unwrap(), "");
}

#[test]
fn an_empty_text_from_a_decoder_is_a_success() {
    let silent = |_: Capability, _: &[u8]| -> Result<String, String> { Ok(String::new()) };
    assert_eq!(Parser::default().parse_bytes(b"%PDF-1.4\n", None, silent).unwrap(), "");
}

#[test]
fn a_failure_of_a_decoder_keeps_its_message() {
    let parser = Parser::default();
    match parser.parse_bytes(b"%PDF-1.4\n", None, no_engine) {
        Err(ErrorKind::DecodeFailure { format, message }) => {
            assert_eq!(format, FileFormat::Pdf);
            assert_eq!(message, "no engine");
        }
        other => panic!("unexpected result: {:?}", other),
    }
    match parser.parse_bytes(b"x", Some("scan.tif"), no_engine) {
        Err(ErrorKind::DecodeFailure { format, message }) => {
            assert_eq!(format, FileFormat::Tiff);
            assert_eq!(message, "no engine");
        }
        other => panic!("unexpected result: {:?}", other),
    }
    match Parser::conclude(FileFormat::Docx, Err("  odd: message \n".to_string())) {
        Err(ErrorKind::DecodeFailure { format, message }) => {
            assert_eq!(format, FileFormat::Docx);
            assert_eq!(message, "  odd: message \n");
        }
        other => panic!("unexpected result: {:?}", other),
    }
    assert_eq!(Parser::conclude(FileFormat::Pdf, Ok("text".to_string())).unwrap(), "text");
}

#[test]
fn formats_are_bound_to_decoder_families() {
    let bound = [
        (FileFormat::Pdf, Capability::Pdf),
        (FileFormat::Docx, Capability::Docx),
        (FileFormat::Pptx, Capability::Pptx),
        (FileFormat::Xlsx, Capability::Spreadsheet),
        (FileFormat::Xls, Capability::Spreadsheet),
        (FileFormat::Json, Capability::Json),
        (FileFormat::Xml, Capability::Markup),
        (FileFormat::Html, Capability::Markup),
        (FileFormat::Png, Capability::Ocr),
        (FileFormat::Jpeg, Capability::Ocr),
        (FileFormat::Tiff, Capability::Ocr),
        (FileFormat::Bmp, Capability::Ocr),
        (FileFormat::Text, Capability::Text),
        (FileFormat::Unknown, Capability::Text),
    ];
    for (format, capability) in bound {
        assert_eq!(Parser::capability(format), capability);
    }
}

#[test]
fn dispatch_goes_by_the_format_given() {
    let echo = |capability: Capability, _: &[u8]| -> Result<String, String> {
        Ok(format!("{:?}", capability))
    };
    assert_eq!(Parser::dispatch_to_parser(FileFormat::Pdf, b"plain", echo).unwrap(), "Pdf");
    assert_eq!(Parser::dispatch_to_parser(FileFormat::Bmp, b"plain", echo).unwrap(), "Ocr");
    assert_eq!(Parser::dispatch_to_parser(FileFormat::Text, b"plain", echo).unwrap(), "plain");
    assert_eq!(Parser::dispatch_to_parser(FileFormat::Unknown, b"plain", echo).unwrap(), "plain");
    assert_eq!(Parser::dispatch_to_parser(FileFormat::Json, b"[1,2]", echo).unwrap(), "[\n  1,\n  2\n]");
    assert_eq!(Parser::dispatch_to_parser(FileFormat::Html, b"<p>hi</p>", echo).unwrap(), "hi");
    assert_eq!(Parser::dispatch_to_parser(FileFormat::Xls, b"plain", echo).unwrap(), "Spreadsheet");
    assert_eq!(Parser::dispatch_to_parser(FileFormat::Xlsx, b"plain", echo).unwrap(), "Spreadsheet");
    assert_eq!(Parser::dispatch_to_parser(FileFormat::Docx, b"plain", echo).unwrap(), "Docx");
    assert!(matches!(
        Parser::dispatch_to_parser(FileFormat::Pptx, b"plain", echo),
        Err(ErrorKind::DecodeFailure { format: FileFormat::Pptx, .. })
    ));
}

#[test]
fn an_empty_buffer_is_refused_where_content_is_required() {
    let parser = Parser::default();
    assert!(matches!(parser.parse_buffer(b"", must_not_run), Err(ErrorKind::EmptyInput)));
    assert_eq!(parser.parse_buffer(b"words", must_not_run).unwrap(), "words");
    assert!(matches!(
        parser_with_limit(2).parse_buffer(b"words", must_not_run),
        Err(ErrorKind::SizeLimitExceeded { actual: 5, limit: 2 })
    ));
    assert!(matches!(
        parser.parse_buffer(b"%PDF-", no_engine),
        Err(ErrorKind::DecodeFailure { format: FileFormat::Pdf, .. })
    ));
}

#[test]
fn what_was_read_from_a_file_is_parsed_under_its_name() {
    let parser = Parser::default();
    let echo = |capability: Capability, data: &[u8]| -> Result<String, String> {
        Ok(format!("{:?}:{}", capability, data.len()))
    };
    assert_eq!(
        parser.parse_file_contents("dir/notes.txt", Ok(b"some notes".to_vec()), echo).unwrap(),
        "some notes"
    );
    assert_eq!(
        parser.parse_file_contents("dir/scan.pdf", Ok(b"no magic".to_vec()), echo).unwrap(),
        "Pdf:8"
    );
    assert_eq!(
        parser.parse_file_contents("dir/scan.txt", Ok(b"%PDF-1.4".to_vec()), echo).unwrap(),
        "Pdf:8"
    );
    match parser.parse_file_contents("gone.pdf", Err("No such file".to_string()), must_not_run) {
        Err(ErrorKind::IoFailure { context }) => assert_eq!(context, "No such file"),
        other => panic!("unexpected result: {:?}", other),
    }
    assert!(matches!(
        parser_with_limit(3).parse_file_contents("a.txt", Ok(b"long".to_vec()), must_not_run),
        Err(ErrorKind::SizeLimitExceeded { actual: 4, limit: 3 })
    ));
}

#[test]
fn direct_parsing_uses_the_defaults() {
    assert_eq!(parse_bytes_direct(b"words", must_not_run).unwrap(), "words");
    assert_eq!(parse_bytes_direct(b"", must_not_run).unwrap(), "");
    let data = vec![b'a'; DEFAULT_MAX_SIZE + 1];
    assert!(matches!(
        parse_bytes_direct(&data, must_not_run),
        Err(ErrorKind::SizeLimitExceeded { actual: 104857601, limit: 104857600 })
    ));
}

#[test]
fn reported_tags() {
    assert_eq!(Parser::detect_format_from_bytes(b"%PDF-1.4"), "pdf");
    assert_eq!(Parser::detect_format_from_bytes(&[0xd0, 0xcf, 0x11, 0xe0, 0xa1]), "xlsx");
    assert_eq!(Parser::detect_format_from_bytes(b"<html><body>text"), "xml");
    assert_eq!(Parser::detect_format_from_bytes(b""), "text");
    assert_eq!(Parser::detect_format_from_bytes(b"PK\x03\x04ppt/"), "pptx");
    assert_eq!(Parser::detect_format_from_filename("old.XLS"), "xls");
    assert_eq!(Parser::detect_format_from_filename("page.htm"), "xml");
    assert_eq!(Parser::detect_format_from_filename("photo.jpg"), "jpeg");
    assert_eq!(Parser::detect_format_from_filename("README"), "unknown");
}

#[test]
fn advertised_formats() {
    assert_eq!(
        Parser::supported_formats(),
        vec![
            "pdf", "docx", "xlsx", "xls", "pptx", "png", "jpg", "jpeg", "tiff", "tif", "bmp", "json",
            "xml", "html", "htm", "txt", "text", "md", "markdown", "csv"
        ]
    );
    assert!(Parser::supports_file("a/b/report.PDF"));
    assert!(Parser::supports_file("notes.md"));
    assert!(!Parser::supports_file("archive.zip"));
    assert!(!Parser::supports_file("pdf"));
    assert!(!Parser::supports_file(".pdf"));
    for name in ["x.csv", "x.CsV", "x.rs", "x", "x.", "dir.txt/x"] {
        let known = parsekit::detector::FormatDetector::detect_from_extension(name)
            != FileFormat::Unknown;
        assert_eq!(Parser::supports_file(name), known, "{:?}", name);
    }
}

#[test]
fn messages_of_failures() {
    let error = ErrorKind::SizeLimitExceeded { actual: 105906176, limit: 104857600 };
    assert_eq!(
        error.message(),
        "File size exceeds limit: 105906176 bytes exceeds maximum allowed size of 104857600 bytes"
    );
    assert_eq!(ErrorKind::EmptyInput.message(), "Input cannot be empty");
    let error = ErrorKind::IoFailure { context: "No such file or directory".to_string() };
    assert_eq!(error.message(), "Failed to read file: No such file or directory");
    let error = ErrorKind::DecodeFailure {
        format: FileFormat::Pdf,
        message: "Failed to parse PDF: bad".to_string(),
    };
    assert_eq!(error.message(), "Failed to parse PDF: bad");
}

#[test]
fn failures_are_reported_by_class() {
    let error = ErrorKind::SizeLimitExceeded { actual: 9, limit: 8 };
    match error.to_parser_error() {
        ParserError::ParseError(message) => assert_eq!(
            message,
            "File size exceeds limit: 9 bytes exceeds maximum allowed size of 8 bytes"
        ),
        other => panic!("unexpected report: {:?}", other),
    }
    match ErrorKind::EmptyInput.to_parser_error() {
        ParserError::ConfigError(message) => assert_eq!(message, "Input cannot be empty"),
        other => panic!("unexpected report: {:?}", other),
    }
    match (ErrorKind::IoFailure { context: "denied".to_string() }).to_parser_error() {
        ParserError::IoError(message) => assert_eq!(message, "Failed to read file: denied"),
        other => panic!("unexpected report: {:?}", other),
    }
    let error = ErrorKind::DecodeFailure { format: FileFormat::Xml, message: "m".to_string() };
    let report = error.to_parser_error();
    assert!(matches!(report, ParserError::ParseError(_)));
    assert_eq!(report.message(), "m");
    assert_eq!(ParserError::IoError("io".to_string()).message(), "io");
    assert_eq!(ParserError::ConfigError("config".to_string()).message(), "config");
}
