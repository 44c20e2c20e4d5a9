use proj2_serv::command::{parse_command, Command};

/// What the grammar says in terms of text: decode leniently, trim, match
/// the start.
fn by_text(bytes: &[u8]) -> Command {
    let text = String::from_utf8_lossy(bytes);
    let text = text.trim();
    if text.starts_with("START_DOWNLOAD") {
        Command::Download
    } else if text.starts_with("START_UPLOAD") {
        Command::Upload
    } else {
        Command::Unknown
    }
}

fn joined(parts: &[&[u8]]) -> Vec<u8> {
    let mut out = Vec::new();
    for part in parts {
        out.extend_from_slice(part);
    }
    out
}

#[test]
fn bare_keywords_are_commands() {
    assert_eq!(parse_command(b"START_DOWNLOAD"), Command::Download);
    assert_eq!(parse_command(b"START_UPLOAD"), Command::Upload);
}

#[test]
fn text_after_the_keyword_is_ignored() {
    assert_eq!(parse_command(b"START_DOWNLOAD\n"), Command::Download);
    assert_eq!(parse_command(b"START_DOWNLOAD now, please"), Command::Download);
    assert_eq!(parse_command(b"START_DOWNLOADS"), Command::Download);
    assert_eq!(parse_command(b"START_UPLOAD\r\n"), Command::Upload);
    assert_eq!(parse_command(b"START_UPLOAD_AND_MORE"), Command::Upload);
    assert_eq!(parse_command(b"START_UPLOAD\xff\xfe"), Command::Upload);
}

#[test]
fn leading_ascii_white_space_is_skipped() {
    assert_eq!(parse_command(b" START_DOWNLOAD"), Command::Download);
    assert_eq!(parse_command(b"\t\n\x0b\x0c\r START_UPLOAD"), Command::Upload);
    assert_eq!(parse_command(b"   \n\n  START_DOWNLOAD  "), Command::Download);
}

#[test]
fn leading_unicode_white_space_is_skipped() {
    let spaces = [
        '\u{0085}', '\u{00A0}', '\u{1680}', '\u{2000}', '\u{2001}', '\u{2002}', '\u{2003}',
        '\u{2004}', '\u{2005}', '\u{2006}', '\u{2007}', '\u{2008}', '\u{2009}', '\u{200A}',
        '\u{2028}', '\u{2029}', '\u{202F}', '\u{205F}', '\u{3000}',
    ];
    for space in spaces {
        let text = format!("{}START_UPLOAD", space);
        assert_eq!(parse_command(text.as_bytes()), Command::Upload, "U+{:04X}", space as u32);
        let text = format!(" {}{} START_DOWNLOAD", space, space);
        assert_eq!(parse_command(text.as_bytes()), Command::Download, "U+{:04X}", space as u32);
    }
}

#[test]
fn characters_that_only_look_blank_are_not_skipped() {
    for odd in ['\u{200B}', '\u{180E}', '\u{FEFF}', '\u{2060}', '\u{00AD}', '\u{001F}', '\u{0000}'] {
        let text = format!("{}START_UPLOAD", odd);
        assert_eq!(parse_command(text.as_bytes()), Command::Unknown, "U+{:04X}", odd as u32);
    }
}

#[test]
fn anything_else_is_unknown() {
    assert_eq!(parse_command(b""), Command::Unknown);
    assert_eq!(parse_command(b"   "), Command::Unknown);
    assert_eq!(parse_command(b"HELLO"), Command::Unknown);
    assert_eq!(parse_command(b"start_download"), Command::Unknown);
    assert_eq!(parse_command(b"START_DOWNLOA"), Command::Unknown);
    assert_eq!(parse_command(b"START_UPLOA"), Command::Unknown);
    assert_eq!(parse_command(b"START_"), Command::Unknown);
    assert_eq!(parse_command(b"START DOWNLOAD"), Command::Unknown);
    assert_eq!(parse_command(b"START_ UPLOAD"), Command::Unknown);
    assert_eq!(parse_command(b"XSTART_UPLOAD"), Command::Unknown);
    assert_eq!(parse_command(b"ACK_UPLOAD"), Command::Unknown);
    assert_eq!(parse_command(b"P"), Command::Unknown);
    assert_eq!(parse_command(&[0u8; 1000]), Command::Unknown);
}

#[test]
fn bytes_that_are_not_text_hide_a_keyword_behind_them() {
    assert_eq!(parse_command(b"\xffSTART_DOWNLOAD"), Command::Unknown);
    assert_eq!(parse_command(b"\xc2START_DOWNLOAD"), Command::Unknown);
    assert_eq!(parse_command(b"\xe2\x80START_UPLOAD"), Command::Unknown);
    assert_eq!(parse_command(b" \x80 START_UPLOAD"), Command::Unknown);
    assert_eq!(parse_command(b"\xc2\x85\xc2START_UPLOAD"), Command::Unknown);
}

#[test]
fn a_truncated_white_space_character_at_the_end_is_harmless() {
    assert_eq!(parse_command(b" \xc2"), Command::Unknown);
    assert_eq!(parse_command(b"\xe2\x80"), Command::Unknown);
    assert_eq!(parse_command(b"\xe3"), Command::Unknown);
}

#[test]
fn agrees_with_the_text_reading_on_a_mixed_corpus() {
    let fronts: [&[u8]; 14] = [
        b"", b" ", b"\n", b"\t \r\n", b"\xc2\x85", b"\xc2\xa0", b"\xe2\x80\xa8", b"\xe3\x80\x80",
        b"\xe2\x80\x8b", b"\xff", b"\xc2", b"\xe2\x80", b"x", b"\xe1\x9a\x80 \xe2\x81\x9f",
    ];
    let bodies: [&[u8]; 12] = [
        b"START_DOWNLOAD", b"START_UPLOAD", b"START_DOWNLOA", b"START_UPLOA", b"START_",
        b"start_upload", b"", b"START_UPLOADSTART_DOWNLOAD", b"START_DOWNLOAD START_UPLOAD",
        b"S", b"\x00START_UPLOAD", b"START_UPLOAD\xc2",
    ];
    let backs: [&[u8]; 6] = [b"", b" ", b"\n", b"tail", b"\xff", b"\xe2\x80\x80"];
    for front in fronts {
        for second in fronts {
            for body in bodies {
                for back in backs {
                    let request = joined(&[front, second, body, back]);
                    assert_eq!(parse_command(&request), by_text(&request), "{:?}", request);
                }
            }
        }
    }
}

#[test]
fn agrees_with_the_text_reading_behind_every_single_byte() {
    for first in 0..=255u8 {
        for body in [&b"START_DOWNLOAD"[..], &b"START_UPLOAD"[..], &b""[..]] {
            let request = joined(&[&[first], body]);
            assert_eq!(parse_command(&request), by_text(&request), "{:?}", request);
        }
    }
}

#[test]
fn agrees_with_the_text_reading_behind_every_pair_of_bytes() {
    for first in 0..=255u8 {
        for second in 0..=255u8 {
            let request = joined(&[&[first, second], b"START_UPLOAD"]);
            assert_eq!(parse_command(&request), by_text(&request), "{:?}", request);
        }
    }
}

#[test]
fn agrees_with_the_text_reading_behind_three_byte_characters() {
    for first in [0xe0u8, 0xe1, 0xe2, 0xe3, 0xef] {
        for second in 0x80..=0xbfu8 {
            for third in 0..=255u8 {
                let request = joined(&[&[first, second, third], b"START_DOWNLOAD"]);
                assert_eq!(parse_command(&request), by_text(&request), "{:?}", request);
            }
        }
    }
}
