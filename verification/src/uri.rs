//! The `ndnd://` URI scheme: the command registered for it, and reading the
//! authorisation code out of the URI it is called with.

use vstd::prelude::*;

use crate::text::{find_from, law_split_first_pieces, piece_end, push_char, split_nth, split_on};

verus! {

broadcast use vstd::string::group_string_axioms;

/// The scheme, also the registry key under the classes root.
pub const SCHEME: &'static str = "ndnd";

/// The value that marks the key as a URL protocol.
pub const URL_PROTOCOL: &'static str = "URL Protocol";

/// The drive the executable path is cut at.
pub const DRIVE: &'static str = "C:";

/// What precedes the code in the redirect URI.
pub const CODE_MARK: &'static str = "?code=";

/// The executable path as registered: `C:` and what follows the first `C:`
/// of the path up to the next one; nothing when the path has no `C:`.
pub open spec fn launcher_of(exe: Seq<char>) -> Option<Seq<char>> {
    let pieces = split_on(exe, DRIVE@);
    if pieces.len() > 1 {
        Some(DRIVE@ + pieces[1])
    } else {
        None
    }
}

/// See `launcher_of`.
pub fn launcher_path(exe: &str) -> (r: Option<String>)
    ensures
        r is Some <==> launcher_of(exe@) is Some,
        r matches Some(p) ==> launcher_of(exe@) == Some(p@),
{
    proof {
        reveal_strlit("C:");
    }
    match split_nth(exe, DRIVE, 1) {
        Some(rest) => {
            let mut p = String::from_str(DRIVE);
            p.append(rest.as_str());
            Some(p)
        },
        None => None,
    }
}

/// The command run for a `ndnd://` URI: the quoted path, then the quoted
/// URI placeholder.
pub open spec fn command_of(path: Seq<char>) -> Seq<char> {
    seq!['"'] + path + "\" \"%1\""@
}

/// See `command_of`.
pub fn open_command(path: &str) -> (r: String)
    ensures
        r@ == command_of(path@),
{
    let mut r = String::new();
    push_char(&mut r, '"');
    r.append(path);
    r.append("\" \"%1\"");
    r
}

/// The authorisation code in the redirect URI: what follows the first
/// `?code=` up to the next one; nothing when there is none.
pub open spec fn code_of(uri: Seq<char>) -> Option<Seq<char>> {
    let pieces = split_on(uri, CODE_MARK@);
    if pieces.len() > 1 {
        Some(pieces[1])
    } else {
        None
    }
}

/// The code is the text after the first `?code=`, up to the next one or
/// the end; there is none when the URI has no `?code=`.
pub proof fn law_code_after_mark(uri: Seq<char>)
    ensures
        code_of(uri) is Some <==> find_from(uri, CODE_MARK@, 0) is Some,
        find_from(uri, CODE_MARK@, 0) matches Some(i) ==> code_of(uri) == Some(
            uri.subrange(i + CODE_MARK@.len(), piece_end(uri, CODE_MARK@, i + CODE_MARK@.len())),
        ),
{
    reveal_strlit("?code=");
    law_split_first_pieces(uri, CODE_MARK@);
}

/// The registered path is `C:` and the text after the first `C:` of the
/// executable path, up to the next one or the end; there is none when the
/// path has no `C:`.
pub proof fn law_launcher_after_drive(exe: Seq<char>)
    ensures
        launcher_of(exe) is Some <==> find_from(exe, DRIVE@, 0) is Some,
        find_from(exe, DRIVE@, 0) matches Some(i) ==> launcher_of(exe) == Some(
            DRIVE@ + exe.subrange(i + DRIVE@.len(), piece_end(exe, DRIVE@, i + DRIVE@.len())),
        ),
{
    reveal_strlit("C:");
    law_split_first_pieces(exe, DRIVE@);
}

/// The command is the path between double quotes, a space, and `"%1"`.
pub proof fn law_command_quotes_path(path: Seq<char>)
    ensures
        command_of(path)[0] == '"',
        command_of(path).subrange(1, path.len() as int + 1) == path,
        command_of(path).subrange(path.len() as int + 1, command_of(path).len() as int) == seq![
            '"',
            ' ',
            '"',
            '%',
            '1',
            '"',
        ],
{
    reveal_strlit("\" \"%1\"");
    let c = command_of(path);
    assert(c.subrange(1, path.len() as int + 1) =~= path);
    assert(c.subrange(path.len() as int + 1, c.len() as int) =~= seq!['"', ' ', '"', '%', '1', '"']);
}

/// See `code_of`.
pub fn auth_code(uri: &str) -> (r: Option<String>)
    ensures
        r is Some <==> code_of(uri@) is Some,
        r matches Some(c) ==> code_of(uri@) == Some(c@),
{
    proof {
        reveal_strlit("?code=");
    }
    split_nth(uri, CODE_MARK, 1)
}

} // verus!
