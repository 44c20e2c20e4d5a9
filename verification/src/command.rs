//! The text grammar shared by both transports.
//!
//! A request is a run of bytes. Read as UTF-8 text, with white space trimmed
//! from its start, it is a command when it begins with one of two keywords;
//! whatever follows the keyword is ignored. Bytes that are not valid UTF-8
//! never form white space and never match a keyword, so the grammar is stated
//! on the bytes themselves.

use vstd::prelude::*;

verus! {

/// What a request asks the server to do.
#[derive(Clone, Copy, Debug, PartialEq, Eq, Structural)]
pub enum Command {
    /// The peer wants filler bytes streamed to it for one window.
    Download,
    /// The peer will send bytes for one window and wants them counted.
    Upload,
    /// Anything else, payload data included.
    Unknown,
}

/// The keyword `START_DOWNLOAD`.
pub open spec fn download_keyword() -> Seq<u8> {
    seq![
        'S' as u8, 'T' as u8, 'A' as u8, 'R' as u8, 'T' as u8, '_' as u8, 'D' as u8, 'O' as u8,
        'W' as u8, 'N' as u8, 'L' as u8, 'O' as u8, 'A' as u8, 'D' as u8,
    ]
}

/// The keyword `START_UPLOAD`.
pub open spec fn upload_keyword() -> Seq<u8> {
    seq![
        'S' as u8, 'T' as u8, 'A' as u8, 'R' as u8, 'T' as u8, '_' as u8, 'U' as u8, 'P' as u8,
        'L' as u8, 'O' as u8, 'A' as u8, 'D' as u8,
    ]
}

/// Number of bytes that the white-space character at the start of `s`
/// occupies in UTF-8, or zero where `s` does not start with one.
///
/// White space is what Unicode marks `White_Space`: U+0009 to U+000D, U+0020,
/// U+0085, U+00A0, U+1680, U+2000 to U+200A, U+2028, U+2029, U+202F, U+205F
/// and U+3000.
pub open spec fn whitespace_len(s: Seq<u8>) -> nat {
    if s.len() >= 1 && (0x09 <= s[0] <= 0x0D || s[0] == 0x20) {
        1
    } else if s.len() >= 2 && s[0] == 0xC2 && (s[1] == 0x85 || s[1] == 0xA0) {
        2
    } else if s.len() >= 3 && s[0] == 0xE1 && s[1] == 0x9A && s[2] == 0x80 {
        3
    } else if s.len() >= 3 && s[0] == 0xE2 && s[1] == 0x80 && (0x80 <= s[2] <= 0x8A || s[2]
        == 0xA8 || s[2] == 0xA9 || s[2] == 0xAF) {
        3
    } else if s.len() >= 3 && s[0] == 0xE2 && s[1] == 0x81 && s[2] == 0x9F {
        3
    } else if s.len() >= 3 && s[0] == 0xE3 && s[1] == 0x80 && s[2] == 0x80 {
        3
    } else {
        0
    }
}

/// `s` without the white space it starts with.
pub open spec fn trim_start(s: Seq<u8>) -> Seq<u8>
    decreases s.len(),
{
    let k = whitespace_len(s);
    if k == 0 {
        s
    } else {
        trim_start(s.skip(k as int))
    }
}

/// The command that a request of these bytes stands for.
pub open spec fn command_of(bytes: Seq<u8>) -> Command {
    let text = trim_start(bytes);
    if download_keyword().is_prefix_of(text) {
        Command::Download
    } else if upload_keyword().is_prefix_of(text) {
        Command::Upload
    } else {
        Command::Unknown
    }
}

/// Length of the white-space character that starts at `bytes[at]`, or zero.
fn whitespace_len_at(bytes: &[u8], at: usize) -> (k: usize)
    requires
        at <= bytes.len(),
    ensures
        k == whitespace_len(bytes@.skip(at as int)),
        at + k <= bytes.len(),
{
    let left: usize = bytes.len() - at;
    if left == 0 {
        return 0;
    }
    let b0: u8 = bytes[at];
    if (0x09 <= b0 && b0 <= 0x0D) || b0 == 0x20 {
        return 1;
    }
    if left < 2 {
        return 0;
    }
    let b1: u8 = bytes[at + 1];
    if b0 == 0xC2 && (b1 == 0x85 || b1 == 0xA0) {
        return 2;
    }
    if left < 3 {
        return 0;
    }
    let b2: u8 = bytes[at + 2];
    if b0 == 0xE1 && b1 == 0x9A && b2 == 0x80 {
        3
    } else if b0 == 0xE2 && b1 == 0x80 && ((0x80 <= b2 && b2 <= 0x8A) || b2 == 0xA8 || b2 == 0xA9
        || b2 == 0xAF) {
        3
    } else if b0 == 0xE2 && b1 == 0x81 && b2 == 0x9F {
        3
    } else if b0 == 0xE3 && b1 == 0x80 && b2 == 0x80 {
        3
    } else {
        0
    }
}

/// Whether `keyword` stands at `bytes[at..]`.
fn keyword_at(bytes: &[u8], at: usize, keyword: &[u8]) -> (found: bool)
    requires
        at <= bytes.len(),
    ensures
        found == keyword@.is_prefix_of(bytes@.skip(at as int)),
{
    let ghost rest = bytes@.skip(at as int);
    if bytes.len() - at < keyword.len() {
        return false;
    }
    let mut i: usize = 0;
    while i < keyword.len()
        invariant
            i <= keyword.len(),
            at + keyword.len() <= bytes.len(),
            rest == bytes@.skip(at as int),
            forall|j: int| 0 <= j < i ==> keyword@[j] == rest[j],
        decreases keyword.len() - i,
    {
        if bytes[at + i] != keyword[i] {
            assert(rest[i as int] != keyword@[i as int]);
            return false;
        }
        i += 1;
    }
    assert(rest.subrange(0, keyword@.len() as int) =~= keyword@);
    true
}

/// Reads a request and says which command it is.
///
/// White space before the keyword is skipped; the keyword need not be
/// followed by anything in particular.
pub fn parse_command(bytes: &[u8]) -> (command: Command)
    ensures
        command == command_of(bytes@),
{
    let mut at: usize = 0;
    assert(bytes@.skip(0) =~= bytes@);
    loop
        invariant
            at <= bytes.len(),
            trim_start(bytes@) == trim_start(bytes@.skip(at as int)),
        ensures
            at <= bytes.len(),
            trim_start(bytes@) == bytes@.skip(at as int),
        decreases bytes.len() - at,
    {
        let k = whitespace_len_at(bytes, at);
        if k == 0 {
            break;
        }
        assert(bytes@.skip(at as int).skip(k as int) =~= bytes@.skip(at + k));
        at += k;
    }
    let download: [u8; 14] = [
        'S' as u8, 'T' as u8, 'A' as u8, 'R' as u8, 'T' as u8, '_' as u8, 'D' as u8, 'O' as u8,
        'W' as u8, 'N' as u8, 'L' as u8, 'O' as u8, 'A' as u8, 'D' as u8,
    ];
    let upload: [u8; 12] = [
        'S' as u8, 'T' as u8, 'A' as u8, 'R' as u8, 'T' as u8, '_' as u8, 'U' as u8, 'P' as u8,
        'L' as u8, 'O' as u8, 'A' as u8, 'D' as u8,
    ];
    assert(download@ =~= download_keyword());
    assert(upload@ =~= upload_keyword());
    if keyword_at(bytes, at, download.as_slice()) {
        Command::Download
    } else if keyword_at(bytes, at, upload.as_slice()) {
        Command::Upload
    } else {
        Command::Unknown
    }
}

/// White space before a request does not change what it asks for.
pub proof fn lemma_leading_whitespace_is_skipped(space: Seq<u8>, request: Seq<u8>)
    requires
        space.len() > 0,
        whitespace_len(space) == space.len(),
    ensures
        trim_start(space + request) == trim_start(request),
        command_of(space + request) == command_of(request),
{
    let whole = space + request;
    assert(whitespace_len(whole) == space.len());
    assert(whole.skip(space.len() as int) =~= request);
}

/// Trimming a request that ends in white space: the white space stays
/// behind what is left, unless nothing is left.
proof fn lemma_trim_before_whitespace(request: Seq<u8>, space: Seq<u8>)
    requires
        space.len() > 0,
        whitespace_len(space) == space.len(),
    ensures
        trim_start(request + space) == if trim_start(request).len() == 0 {
            Seq::<u8>::empty()
        } else {
            trim_start(request) + space
        },
    decreases request.len(),
{
    let whole = request + space;
    let k = whitespace_len(request);
    if k > 0 {
        assert(whitespace_len(whole) == k);
        assert(whole.skip(k as int) =~= request.skip(k as int) + space);
        lemma_trim_before_whitespace(request.skip(k as int), space);
    } else if request.len() == 0 {
        let nothing = Seq::<u8>::empty();
        assert(whole =~= space);
        assert(space.skip(space.len() as int) =~= nothing);
        assert(trim_start(nothing) == nothing);
        assert(trim_start(space) == trim_start(space.skip(space.len() as int)));
        assert(request =~= nothing);
    } else {
        assert(whole[0] == request[0]);
        if request.len() >= 2 {
            assert(whole[1] == request[1]);
        } else {
            assert(whole[1] == space[0]);
        }
        if request.len() >= 3 {
            assert(whole[2] == request[2]);
        } else if request.len() == 2 {
            assert(whole[2] == space[0]);
        }
        assert(whitespace_len(whole) == 0);
    }
}

/// Every byte of a keyword is a capital letter or an underscore.
proof fn lemma_keyword_bytes(i: int)
    ensures
        0 <= i < download_keyword().len() ==> 0x41 <= download_keyword()[i] <= 0x5F,
        0 <= i < upload_keyword().len() ==> 0x41 <= upload_keyword()[i] <= 0x5F,
{
}

/// White space behind a request does not change what it asks for: the
/// grammar need not trim the end.
pub proof fn lemma_trailing_whitespace_is_ignored(request: Seq<u8>, space: Seq<u8>)
    requires
        space.len() > 0,
        whitespace_len(space) == space.len(),
    ensures
        command_of(request + space) == command_of(request),
{
    lemma_trim_before_whitespace(request, space);
    let text = trim_start(request);
    let longer = text + space;
    if text.len() > 0 {
        assert forall|keyword: Seq<u8>|
            keyword == download_keyword() || keyword == upload_keyword() implies (
        keyword.is_prefix_of(longer) <==> keyword.is_prefix_of(text)) by {
            if keyword.len() <= text.len() {
                assert(longer.subrange(0, keyword.len() as int) =~= text.subrange(
                    0,
                    keyword.len() as int,
                ));
            } else if keyword.is_prefix_of(longer) {
                lemma_keyword_bytes(text.len() as int);
                assert(longer.subrange(0, keyword.len() as int)[text.len() as int]
                    == space[0]);
            }
        }
    }
}

/// A request that begins with a keyword is that command, whatever follows
/// the keyword.
pub proof fn lemma_keyword_decides(rest: Seq<u8>)
    ensures
        command_of(download_keyword() + rest) == Command::Download,
        command_of(upload_keyword() + rest) == Command::Upload,
{
    let down = download_keyword() + rest;
    let up = upload_keyword() + rest;
    assert(whitespace_len(down) == 0);
    assert(whitespace_len(up) == 0);
    assert(down.subrange(0, download_keyword().len() as int) =~= download_keyword());
    assert(up.subrange(0, upload_keyword().len() as int) =~= upload_keyword());
    assert(up[6] != download_keyword()[6]);
    assert(!download_keyword().is_prefix_of(up));
}

/// What is left after trimming does not start with white space.
pub proof fn lemma_trimmed(s: Seq<u8>)
    ensures
        whitespace_len(trim_start(s)) == 0,
        trim_start(s).len() <= s.len(),
        trim_start(s) == s.skip(s.len() - trim_start(s).len()),
    decreases s.len(),
{
    let k = whitespace_len(s);
    if k == 0 {
        assert(s.skip(0) =~= s);
    } else {
        let rest = s.skip(k as int);
        lemma_trimmed(rest);
        assert(rest.skip(rest.len() - trim_start(rest).len()) =~= s.skip(
            s.len() - trim_start(rest).len(),
        ));
    }
}

} // verus!
