//! The key under which a program is remembered.

use crate::reducer;
use crate::text;
use vstd::prelude::*;
use vstd::string::*;

verus! {

/// What `std`'s `str::to_lowercase` makes of a text.
pub uninterp spec fn lowercase(text: Seq<char>) -> Seq<char>;

/// The lower case of an ASCII character.
pub open spec fn ascii_lowercase(c: char) -> char {
    if 'A' <= c && c <= 'Z' {
        (c as int + 32) as char
    } else {
        c
    }
}

/// The lower case of a text, letter by letter; that of an ASCII text.
pub open spec fn ascii_lowered(text: Seq<char>) -> Seq<char> {
    text.map_values(|c: char| ascii_lowercase(c))
}

/// Whether every character is ASCII.
pub open spec fn all_ascii(text: Seq<char>) -> bool {
    forall|i: int| 0 <= i < text.len() ==> (#[trigger] text[i] as int) < 128
}

/// `std`'s `str::to_lowercase`: the lower case by the rules of Unicode, which
/// change the letters A to Z of an ASCII text and nothing else in it.
#[verifier::external_body]
fn to_lowercase(text: &str) -> (lower: String)
    ensures
        lower@ == lowercase(text@),
        all_ascii(text@) ==> lower@ == ascii_lowered(text@),
{
    text.to_lowercase()
}

/// What stands behind the last character of `text` for which `stop` holds; all
/// of it where there is none.
pub open spec fn behind_last(text: Seq<char>, stop: spec_fn(char) -> bool) -> Seq<char>
    decreases text.len(),
{
    if text.len() == 0 || stop(text.last()) {
        Seq::empty()
    } else {
        behind_last(text.drop_last(), stop).push(text.last())
    }
}

/// What stands before the first `%b`; all of it where there is none.
pub open spec fn before_mark(text: Seq<char>) -> Seq<char>
    decreases text.len(),
{
    if text.len() < 2 {
        text
    } else if text[0] == '%' && text[1] == 'b' {
        Seq::empty()
    } else {
        seq![text[0]] + before_mark(text.drop_first())
    }
}

/// The last component of a path.
pub open spec fn file_name(path: Seq<char>) -> Seq<char> {
    behind_last(path, |c: char| c == '\\' || c == '/')
}

/// The image path in a session identifier: the last field, up to the mark that
/// ends it.
pub open spec fn image_path(identifier: Seq<char>) -> Seq<char> {
    before_mark(behind_last(identifier, |c: char| c == '|'))
}

/// Whether a text ends in `.exe`.
pub open spec fn is_executable(name: Seq<char>) -> bool {
    ".exe"@.is_suffix_of(name)
}

proof fn behind_last_is_a_suffix(text: Seq<char>, stop: spec_fn(char) -> bool, start: int)
    requires
        0 <= start <= text.len(),
        start == 0 || stop(text[start - 1]),
        forall|i: int| start <= i < text.len() ==> !stop(#[trigger] text[i]),
    ensures
        behind_last(text, stop) == text.skip(start),
    decreases text.len(),
{
    if text.len() == 0 || start == text.len() {
        assert(text.skip(start) =~= Seq::<char>::empty());
    } else {
        assert(!stop(text[text.len() - 1]));
        behind_last_is_a_suffix(text.drop_last(), stop, start);
        assert(text.skip(start) =~= text.drop_last().skip(start).push(text.last()));
    }
}

/// The last component of a path in lower case; `None` for a path that ends in a
/// separator, and for an empty one.
pub fn file_name_lowercase(path: &str) -> (name: Option<String>)
    ensures
        match name {
            Some(n) => {
                &&& file_name(path@).len() > 0
                &&& n@ == lowercase(file_name(path@))
                &&& all_ascii(file_name(path@)) ==> n@ == ascii_lowered(file_name(path@))
            },
            None => file_name(path@).len() == 0,
        },
{
    let chars = text::chars_of(path);
    let ghost stop = |c: char| c == '\\' || c == '/';
    let mut start: usize = chars.len();
    while start > 0 && !(chars[start - 1] == '\\' || chars[start - 1] == '/')
        invariant
            start <= chars@.len(),
            chars@ == path@,
            stop == (|c: char| c == '\\' || c == '/'),
            forall|i: int| start <= i < path@.len() ==> !stop(#[trigger] path@[i]),
        decreases start,
    {
        start -= 1;
    }
    proof {
        behind_last_is_a_suffix(path@, stop, start as int);
        assert(path@.skip(start as int) =~= path@.subrange(start as int, path@.len() as int));
    }
    if start == chars.len() {
        None
    } else {
        let name = text::string_of(&chars, start, chars.len());
        Some(to_lowercase(name.as_str()))
    }
}

/// The name itself when it is that of an executable.
pub fn executable_key(name: String) -> (key: Option<String>)
    ensures
        key == if is_executable(name@) {
            Some(name)
        } else {
            None
        },
{
    let chars = text::chars_of(name.as_str());
    let n: usize = chars.len();
    proof {
        reveal_strlit(".exe");
    }
    let ghost tail = ".exe"@;
    if n >= 4 && chars[n - 4] == '.' && chars[n - 3] == 'e' && chars[n - 2] == 'x' && chars[n - 1]
        == 'e' {
        assert(tail =~= name@.subrange(n - 4, n as int));
        Some(name)
    } else {
        proof {
            if is_executable(name@) {
                let end = name@.subrange(n - 4, n as int);
                assert(tail == end);
                assert(end[0] == tail[0] && end[1] == tail[1] && end[2] == tail[2] && end[3]
                    == tail[3]);
            }
        }
        None
    }
}

/// The image path in a session identifier, such as
/// `{0.0.0.0000}.{guid}|\Device\HarddiskVolume4\app.exe%b{guid}`.
pub fn image_path_of(identifier: &str) -> (path: String)
    ensures
        path@ == image_path(identifier@),
{
    let chars = text::chars_of(identifier);
    let ghost stop = |c: char| c == '|';
    let mut start: usize = chars.len();
    while start > 0 && chars[start - 1] != '|'
        invariant
            start <= chars@.len(),
            chars@ == identifier@,
            stop == (|c: char| c == '|'),
            forall|i: int| start <= i < identifier@.len() ==> !stop(#[trigger] identifier@[i]),
        decreases start,
    {
        start -= 1;
    }
    proof {
        behind_last_is_a_suffix(identifier@, stop, start as int);
    }
    let ghost field = identifier@.skip(start as int);
    let mut end: usize = start;
    assert(identifier@.subrange(start as int, end as int) + field =~= field);
    while end < chars.len() && !(chars.len() - end >= 2 && chars[end] == '%' && chars[end + 1]
        == 'b')
        invariant
            start <= end <= chars@.len(),
            chars@ == identifier@,
            field == identifier@.skip(start as int),
            before_mark(field) == identifier@.subrange(start as int, end as int) + before_mark(
                identifier@.skip(end as int),
            ),
        decreases chars@.len() - end,
    {
        proof {
            let rest = identifier@.skip(end as int);
            let before = identifier@.subrange(start as int, end as int);
            assert(rest.drop_first() =~= identifier@.skip(end + 1));
            assert(identifier@.subrange(start as int, end + 1) =~= before.push(rest[0]));
            if rest.len() < 2 {
                assert(rest =~= seq![rest[0]]);
                assert(identifier@.skip(end + 1) =~= Seq::<char>::empty());
                assert(before_mark(identifier@.skip(end + 1)) =~= Seq::<char>::empty());
                assert(before + rest =~= before.push(rest[0]) + Seq::<char>::empty());
            } else {
                assert(before + (seq![rest[0]] + before_mark(rest.drop_first())) =~= before.push(
                    rest[0],
                ) + before_mark(rest.drop_first()));
            }
        }
        end += 1;
    }
    proof {
        let rest = identifier@.skip(end as int);
        assert(before_mark(rest) =~= Seq::<char>::empty());
        assert(before_mark(field) =~= identifier@.subrange(start as int, end as int));
    }
    text::string_of(&chars, start, end)
}

/// The name of the executable in a session identifier; `None` when what stands
/// there is no executable.
pub open spec fn identified(identifier: Seq<char>) -> Option<Seq<char>> {
    let name = file_name(image_path(identifier));
    if name.len() > 0 && is_executable(lowercase(name)) {
        Some(lowercase(name))
    } else {
        None
    }
}

/// The name of the executable in a session identifier that writes it in ASCII.
pub open spec fn identified_in_ascii(identifier: Seq<char>) -> Option<Seq<char>> {
    let name = ascii_lowered(file_name(image_path(identifier)));
    if is_executable(name) {
        Some(name)
    } else {
        None
    }
}

/// The name of the executable in a session identifier.
pub fn exe_name_from_session_identifier(identifier: &str) -> (name: Option<String>)
    ensures
        match name {
            Some(n) => identified(identifier@) == Some(n@),
            None => identified(identifier@) is None,
        },
        all_ascii(file_name(image_path(identifier@))) ==> match name {
            Some(n) => identified_in_ascii(identifier@) == Some(n@),
            None => identified_in_ascii(identifier@) is None,
        },
{
    proof {
        reveal_strlit(".exe");
    }
    let path = image_path_of(identifier);
    match file_name_lowercase(path.as_str()) {
        Some(name) => executable_key(name),
        None => None,
    }
}

/// The name of the image behind a process; `None` when the system idle process
/// is meant, or the path could not be read.
pub open spec fn image_name(pid: u32, path: Option<Seq<char>>) -> Option<Seq<char>> {
    match path {
        Some(p) => if pid != 0 && file_name(p).len() > 0 {
            Some(lowercase(file_name(p)))
        } else {
            None
        },
        None => None,
    }
}

/// The name of the image behind a process, from the path that was read of it.
pub fn process_image_name(pid: u32, path: Option<&str>) -> (name: Option<String>)
    ensures
        match name {
            Some(n) => image_name(pid, optional_str(path)) == Some(n@),
            None => image_name(pid, optional_str(path)) is None,
        },
        name matches Some(n) ==> path matches Some(p) && (all_ascii(file_name(p@)) ==> n@
            == ascii_lowered(file_name(p@))),
{
    if pid == 0 {
        return None;
    }
    match path {
        Some(p) => file_name_lowercase(p),
        None => None,
    }
}

/// The text that an optional string slice holds.
pub open spec fn optional_str(text: Option<&str>) -> Option<Seq<char>> {
    match text {
        Some(t) => Some(t@),
        None => None,
    }
}

/// The key of a program of which only the process id is known.
pub open spec fn pid_key(pid: u32) -> Seq<char> {
    "pid:"@ + text::decimal(pid as nat)
}

/// The key of a process: the name of its image, else the name in the session
/// identifier, else its process id.
pub open spec fn process_key(
    pid: u32,
    path: Option<Seq<char>>,
    identifier: Option<Seq<char>>,
) -> Seq<char> {
    match image_name(pid, path) {
        Some(name) => name,
        None => match identifier {
            Some(text) => match identified(text) {
                Some(name) => name,
                None => pid_key(pid),
            },
            None => pid_key(pid),
        },
    }
}

/// The key under which a process is remembered. `path` is the path of its image,
/// which a protected process does not give.
pub fn resolve_process_key(pid: u32, path: Option<&str>, identifier: Option<&str>) -> (key: String)
    ensures
        key@ == process_key(pid, optional_str(path), optional_str(identifier)),
        match (image_name(pid, optional_str(path)), path, identifier) {
            (Some(_), Some(p), _) => all_ascii(file_name(p@)) ==> key@ == ascii_lowered(
                file_name(p@),
            ),
            (_, _, Some(i)) => all_ascii(file_name(image_path(i@))) ==> key@ == (
            match identified_in_ascii(i@) {
                Some(name) => name,
                None => pid_key(pid),
            }),
            _ => key@ == pid_key(pid),
        },
{
    if let Some(name) = process_image_name(pid, path) {
        return name;
    }
    if let Some(text) = identifier {
        if let Some(name) = exe_name_from_session_identifier(text) {
            return name;
        }
    }
    let mut key = String::from_str("pid:");
    let number = text::decimal_of(pid as u64);
    key.append(number.as_str());
    key
}

/// A program that could not be identified gets a key under which nothing is
/// remembered.
pub proof fn unidentified_process_is_not_remembered(pid: u32)
    ensures
        reducer::is_pid_keyed(pid_key(pid)),
        process_key(pid, None, None) == pid_key(pid),
{
    reveal_strlit("pid:");
    assert("pid:"@ =~= reducer::pid_prefix());
    assert(reducer::pid_prefix() =~= pid_key(pid).subrange(0, 4));
}

/// Two programs of which only the process id is known have different keys.
pub proof fn pid_keys_differ(a: u32, b: u32)
    requires
        a != b,
    ensures
        pid_key(a) != pid_key(b),
{
    reveal_strlit("pid:");
    text::decimal_reads_back(a as nat);
    text::decimal_reads_back(b as nat);
    if pid_key(a) == pid_key(b) {
        assert(pid_key(a).skip(4) =~= text::decimal(a as nat));
        assert(pid_key(b).skip(4) =~= text::decimal(b as nat));
    }
}

proof fn behind_last_is_found(text: Seq<char>, stop: spec_fn(char) -> bool)
    ensures
        ({
            let part = behind_last(text, stop);
            let start = text.len() - part.len();
            &&& 0 <= start
            &&& part == text.skip(start)
            &&& forall|i: int| start <= i < text.len() ==> !stop(#[trigger] text[i])
            &&& start > 0 ==> stop(text[start - 1])
        }),
    decreases text.len(),
{
    if text.len() == 0 || stop(text.last()) {
        assert(text.skip(text.len() as int) =~= Seq::<char>::empty());
    } else {
        let rest = text.drop_last();
        behind_last_is_found(rest, stop);
        let part = behind_last(text, stop);
        let start = text.len() - part.len();
        assert(part =~= text.skip(start));
        assert forall|i: int| start <= i < text.len() implies !stop(#[trigger] text[i]) by {
            if i < rest.len() {
                assert(rest[i] == text[i]);
            }
        }
    }
}

/// The file name of a path is what stands behind its last slash or backslash; all of
/// it where there is none.
pub proof fn file_name_is_behind_the_last_separator(path: Seq<char>)
    ensures
        ({
            let name = file_name(path);
            let start = path.len() - name.len();
            &&& 0 <= start
            &&& name == path.skip(start)
            &&& forall|i: int| start <= i < path.len() ==> path[i] != '\\' && path[i] != '/'
            &&& start > 0 ==> path[start - 1] == '\\' || path[start - 1] == '/'
        }),
{
    behind_last_is_found(path, |c: char| c == '\\' || c == '/');
}

proof fn mark_is_found(text: Seq<char>)
    ensures
        ({
            let part = before_mark(text);
            let end = part.len() as int;
            &&& end <= text.len()
            &&& part == text.take(end)
            &&& end < text.len() ==> end + 1 < text.len() && text[end] == '%' && text[end + 1]
                == 'b'
            &&& forall|i: int|
                0 <= i < end && i + 1 < text.len() ==> !(#[trigger] text[i] == '%' && text[i + 1]
                    == 'b')
        }),
    decreases text.len(),
{
    if text.len() < 2 {
        assert(text =~= text.take(text.len() as int));
    } else if text[0] == '%' && text[1] == 'b' {
        assert(text.take(0) =~= Seq::<char>::empty());
    } else {
        let rest = text.drop_first();
        mark_is_found(rest);
        let part = before_mark(text);
        let end = part.len() as int;
        assert(part =~= text.take(end));
        if end < text.len() {
            assert(rest[end - 1] == text[end] && rest[end] == text[end + 1]);
        }
        assert forall|i: int| 0 <= i < end && i + 1 < text.len() implies !(#[trigger] text[i] == '%'
            && text[i + 1] == 'b') by {
            if i > 0 {
                assert(rest[i - 1] == text[i] && rest[i] == text[i + 1]);
            }
        }
    }
}

/// The image path in a session identifier starts behind its last bar and ends at the
/// first `%b` behind that, or with the identifier.
pub proof fn image_path_is_the_last_field(identifier: Seq<char>)
    ensures
        exists|start: int, end: int|
            {
                &&& 0 <= start <= end <= identifier.len()
                &&& image_path(identifier) == #[trigger] identifier.subrange(start, end)
                &&& start > 0 ==> identifier[start - 1] == '|'
                &&& forall|i: int| start <= i < identifier.len() ==> identifier[i] != '|'
                &&& end < identifier.len() ==> end + 1 < identifier.len() && identifier[end] == '%'
                    && identifier[end + 1] == 'b'
                &&& forall|i: int|
                    start <= i < end && i + 1 < identifier.len() ==> !(#[trigger] identifier[i]
                        == '%' && identifier[i + 1] == 'b')
            },
{
    let stop = |c: char| c == '|';
    let field = behind_last(identifier, stop);
    behind_last_is_found(identifier, stop);
    mark_is_found(field);
    let start = identifier.len() - field.len();
    let end = start + image_path(identifier).len();
    assert forall|i: int| 0 <= i < field.len() implies field[i] == identifier[start + i] by {}
    assert(image_path(identifier) =~= identifier.subrange(start, end));
    assert forall|i: int| start <= i < end && i + 1 < identifier.len() implies !(
    #[trigger] identifier[i] == '%' && identifier[i + 1] == 'b') by {
        assert(field[i - start] == identifier[i] && field[i + 1 - start] == identifier[i + 1]);
    }
}

/// A process is remembered under the name of its image, where it has an id other than
/// zero and the path names a file. Otherwise the session identifier counts, where its
/// file name ends in `.exe` in lower case. Otherwise it is the process id, as a decimal
/// number behind `pid:`.
pub proof fn image_comes_before_identifier_before_id(
    pid: u32,
    path: Option<Seq<char>>,
    identifier: Option<Seq<char>>,
)
    ensures
        ({
            let key = process_key(pid, path, identifier);
            let has_image = pid != 0 && path is Some && file_name(path->0).len() > 0;
            let name = lowercase(file_name(image_path(identifier->0)));
            let has_name = identifier is Some && file_name(image_path(identifier->0)).len() > 0
                && name.len() >= 4 && name[name.len() - 4] == '.' && name[name.len() - 3] == 'e'
                && name[name.len() - 2] == 'x' && name[name.len() - 1] == 'e';
            &&& has_image ==> key == lowercase(file_name(path->0))
            &&& !has_image && has_name ==> key == name
            &&& !has_image && !has_name ==> key == seq!['p', 'i', 'd', ':'] + text::decimal(
                pid as nat,
            )
        }),
{
    reveal_strlit(".exe");
    reveal_strlit("pid:");
    assert("pid:"@ =~= seq!['p', 'i', 'd', ':']);
    if identifier is Some {
        let name = lowercase(file_name(image_path(identifier->0)));
        let tail = ".exe"@;
        if is_executable(name) {
            let end = name.subrange(name.len() - 4, name.len() as int);
            assert(end == tail);
            assert(end[0] == tail[0] && end[1] == tail[1] && end[2] == tail[2] && end[3]
                == tail[3]);
        } else if name.len() >= 4 && name[name.len() - 4] == '.' && name[name.len() - 3] == 'e'
            && name[name.len() - 2] == 'x' && name[name.len() - 1] == 'e' {
            assert(tail =~= name.subrange(name.len() - 4, name.len() as int));
        }
    }
}

/// In ASCII, each capital letter becomes its small letter and no other character
/// changes.
pub proof fn ascii_letters_become_small(text: Seq<char>, i: int)
    requires
        0 <= i < text.len(),
    ensures
        ascii_lowered(text).len() == text.len(),
        'A' <= text[i] <= 'Z' ==> ascii_lowered(text)[i] as int == text[i] as int - 'A' as int
            + 'a' as int,
        !('A' <= text[i] <= 'Z') ==> ascii_lowered(text)[i] == text[i],
{
}

/// A text is ASCII exactly where each of its characters has one of the first 128 codes.
pub proof fn ascii_has_the_first_codes(text: Seq<char>, c: char)
    ensures
        all_ascii(text.push(c)) <==> all_ascii(text) && c as int <= 127,
        all_ascii(Seq::empty()),
{
    let more = text.push(c);
    if all_ascii(more) {
        assert((more[text.len() as int] as int) < 128);
        assert forall|i: int| 0 <= i < text.len() implies (#[trigger] text[i] as int) < 128 by {
            assert((more[i] as int) < 128);
        }
    }
}

} // verus!
