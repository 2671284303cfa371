//! What a request asks for: the dump to write and the command that writes
//! it, and the settings read from the environment.

use vstd::prelude::*;
use crate::numbers::{parse_unsigned, parse_unsigned_text};
use crate::paths::{join, path_join, path_with_extension, with_extension};
use crate::status::Error;
use crate::text::{append_chars, chars_of, replace_all, replaced, string_of};
use crate::urlcode::{percent_decode, url_decode, url_decoded, utf8_error_message};
use vstd::utf8::encode_utf8;

verus! {

/// The program that writes a dump to a tag.
pub open spec fn writer_program() -> Seq<char> {
    seq!['p', 'i', 'm', 'i', 'i', 'b', 'o']
}

/// The key file that the writer program needs.
pub open spec fn key_file() -> Seq<char> {
    seq![
        'p', 'u', 'b', 'l', 'i', 'c', '/', 'k', 'e', 'y', '_', 'r', 'e', 't', 'a', 'i', 'l', '.',
        'b', 'i', 'n',
    ]
}

/// `Amiibo not found: `, the start of the error for a missing dump.
pub open spec fn missing_dump_prefix() -> Seq<char> {
    seq![
        'A', 'm', 'i', 'i', 'b', 'o', ' ', 'n', 'o', 't', ' ', 'f', 'o', 'u', 'n', 'd', ':', ' ',
    ]
}

/// The port the service listens on when none is configured.
pub const DEFAULT_PORT: u16 = 80;

/// The seconds a write may take when no limit is configured.
pub const DEFAULT_TIMEOUT_SECS: u64 = 120;

/// The command that writes a dump to a tag: a program and its arguments.
pub struct WriterCommand {
    pub program: String,
    pub args: Vec<String>,
}

/// The command that writes the dump at `path`: the writer program, given the
/// key file and the path.
pub fn writer_command(path: &str) -> (c: WriterCommand)
    ensures
        c.program@ == writer_program(),
        c.args@.len() == 2,
        c.args@[0]@ == key_file(),
        c.args@[1]@ == path@,
{
    let program: Vec<char> = vec!['p', 'i', 'm', 'i', 'i', 'b', 'o'];
    assert(program@ =~= writer_program());
    let key: Vec<char> = vec![
        'p', 'u', 'b', 'l', 'i', 'c', '/', 'k', 'e', 'y', '_', 'r', 'e', 't', 'a', 'i', 'l', '.',
        'b', 'i', 'n',
    ];
    assert(key@ =~= key_file());
    let mut args: Vec<String> = Vec::new();
    args.push(string_of(&key));
    args.push(string_of(&chars_of(path)));
    WriterCommand { program: string_of(&program), args }
}

/// The dump path of a write request, decoded from its percent-encoding; when
/// the decoded bytes are not UTF-8, a missing-dump error whose text is the
/// request's path, `: ` and the decoding error.
pub fn decode_request_path(path: &str) -> (r: Result<String, Error>)
    ensures
        match url_decoded(path@) {
            Some(t) => r matches Ok(x) && x@ == t,
            None => r matches Err(Error::NotFound(m)) && m@ == path@ + seq![':', ' ']
                + utf8_error_message(percent_decode(encode_utf8(path@))),
        },
{
    match url_decode(path) {
        Ok(t) => Ok(t),
        Err(e) => {
            let mut m = string_of(&chars_of(path));
            let sep: Vec<char> = vec![':', ' '];
            assert(sep@ =~= seq![':', ' ']);
            append_chars(&mut m, &sep);
            append_chars(&mut m, &chars_of(e.as_str()));
            Err(Error::NotFound(m))
        },
    }
}

/// The name of a game in a page request, decoded from its percent-encoding;
/// `None` when the decoded bytes are not UTF-8.
pub fn decode_game_name(name: &str) -> (r: Option<String>)
    ensures
        match url_decoded(name@) {
            Some(t) => r matches Some(x) && x@ == t,
            None => r is None,
        },
{
    match url_decode(name) {
        Ok(t) => Some(t),
        Err(_) => None,
    }
}

/// The error for a dump that does not exist at `path`.
pub fn missing_dump(path: &str) -> (e: Error)
    ensures
        e@ == crate::status::ErrorView::NotFound(missing_dump_prefix() + path@),
{
    let v: Vec<char> = vec![
        'A', 'm', 'i', 'i', 'b', 'o', ' ', 'n', 'o', 't', ' ', 'f', 'o', 'u', 'n', 'd', ':', ' ',
    ];
    assert(v@ =~= missing_dump_prefix());
    let mut m = string_of(&v);
    append_chars(&mut m, &chars_of(path));
    Error::NotFound(m)
}

/// The value of a numeric setting: the number its text denotes, when it is
/// set and denotes one no larger than `max`, else `default`.
pub open spec fn setting_value(setting: Option<Seq<char>>, max: nat, default: nat) -> nat {
    match setting {
        Some(s) => match parse_unsigned(s, max) {
            Some(n) => n,
            None => default,
        },
        None => default,
    }
}

/// The port to listen on, given the text of its setting: the port the text
/// denotes, else [`DEFAULT_PORT`].
pub fn port_from_setting(setting: Option<String>) -> (p: u16)
    ensures
        p as nat == setting_value(
            match setting {
                Some(s) => Some(s@),
                None => None,
            },
            u16::MAX as nat,
            DEFAULT_PORT as nat,
        ),
{
    match setting {
        Some(s) => match parse_unsigned_text(s.as_str(), u16::MAX as u64) {
            Some(n) => n as u16,
            None => DEFAULT_PORT,
        },
        None => DEFAULT_PORT,
    }
}

/// The seconds a write may take, given the text of its setting: the number
/// the text denotes, else [`DEFAULT_TIMEOUT_SECS`].
pub fn timeout_from_setting(setting: Option<String>) -> (t: u64)
    ensures
        t as nat == setting_value(
            match setting {
                Some(s) => Some(s@),
                None => None,
            },
            u64::MAX as nat,
            DEFAULT_TIMEOUT_SECS as nat,
        ),
{
    match setting {
        Some(s) => match parse_unsigned_text(s.as_str(), u64::MAX) {
            Some(n) => n,
            None => DEFAULT_TIMEOUT_SECS,
        },
        None => DEFAULT_TIMEOUT_SECS,
    }
}

/// `%20`, the encoded space that dump names in stream requests may hold.
pub open spec fn encoded_space() -> Seq<char> {
    seq!['%', '2', '0']
}

/// The path of the dump named `name` in the set `set`: under `public/amiibo`,
/// in the set's directory, the name with each `%20` made a space, and the
/// extension made `bin`.
pub open spec fn dump_path(set: Seq<char>, name: Seq<char>) -> Seq<char> {
    with_extension(
        join(
            join(join(seq!['p', 'u', 'b', 'l', 'i', 'c'], seq!['a', 'm', 'i', 'i', 'b', 'o']), set),
            replace_all(name, encoded_space(), seq![' ']),
        ),
        seq!['b', 'i', 'n'],
    )
}

/// The path of the dump named `name` in the set `set`, as [`dump_path`] says.
pub fn dump_path_of(set: &str, name: &str) -> (p: String)
    ensures
        p@ == dump_path(set@, name@),
{
    let public: Vec<char> = vec!['p', 'u', 'b', 'l', 'i', 'c'];
    let amiibo: Vec<char> = vec!['a', 'm', 'i', 'i', 'b', 'o'];
    let space_code: Vec<char> = vec!['%', '2', '0'];
    let space: Vec<char> = vec![' '];
    let bin: Vec<char> = vec!['b', 'i', 'n'];
    assert(public@ =~= seq!['p', 'u', 'b', 'l', 'i', 'c']);
    assert(amiibo@ =~= seq!['a', 'm', 'i', 'i', 'b', 'o']);
    assert(space_code@ =~= encoded_space());
    assert(space@ =~= seq![' ']);
    assert(bin@ =~= seq!['b', 'i', 'n']);
    let base = path_join(&public, &amiibo);
    let in_set = path_join(&base, &chars_of(set));
    let file = replaced(&chars_of(name), &space_code, &space);
    let full = path_join(&in_set, &file);
    string_of(&path_with_extension(&full, &bin))
}

} // verus!
