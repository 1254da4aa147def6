//! File paths as text, by the rules of Windows.

use crate::text;
use vstd::prelude::*;
use vstd::string::*;

verus! {

/// Both slashes separate the components of a path.
pub open spec fn is_slash(c: char) -> bool {
    c == '\\' || c == '/'
}

/// Whether a character separates components: in a verbatim path, only the
/// backslash does.
pub open spec fn is_separator(verbatim: bool, c: char) -> bool {
    c == '\\' || (!verbatim && c == '/')
}

/// Whether a path is verbatim: it starts with `\\?\`, written with backslashes.
pub open spec fn is_verbatim(path: Seq<char>) -> bool {
    path.len() >= 4 && path[0] == '\\' && path[1] == '\\' && path[2] == '?' && path[3] == '\\'
}

/// Whether a path starts with two slashes.
pub open spec fn has_two_slashes(path: Seq<char>) -> bool {
    path.len() >= 2 && is_slash(path[0]) && is_slash(path[1])
}

/// Whether a drive, such as `C:`, stands at a place of a path.
pub open spec fn has_drive(path: Seq<char>, at: int) -> bool {
    at + 2 <= path.len() && path[at + 1] == ':' && (('a' <= path[at] && path[at] <= 'z') || ('A'
        <= path[at] && path[at] <= 'Z'))
}

/// Where the part of a path that starts at `from` ends: at the next separator, or
/// with the path.
pub open spec fn part_end(path: Seq<char>, from: int, verbatim: bool) -> int
    decreases path.len() - from,
{
    if from >= path.len() || is_separator(verbatim, path[from]) {
        from
    } else {
        part_end(path, from + 1, verbatim)
    }
}

/// Where a server and the share behind it end; where the share is empty, where the
/// server ends.
pub open spec fn share_end(path: Seq<char>, from: int, verbatim: bool) -> int {
    let server = part_end(path, from, verbatim);
    if server < path.len() && server + 1 < part_end(path, server + 1, verbatim) {
        part_end(path, server + 1, verbatim)
    } else {
        server
    }
}

/// Whether a verbatim path names a network share: `\\?\UNC\server\share`.
pub open spec fn is_verbatim_share(path: Seq<char>) -> bool {
    path.len() >= 8 && path[4] == 'U' && path[5] == 'N' && path[6] == 'C' && is_slash(path[7])
}

/// Whether a verbatim path names a drive and nothing else before its root:
/// `\\?\C:`.
pub open spec fn is_verbatim_drive(path: Seq<char>) -> bool {
    has_drive(path, 4) && (path.len() == 6 || is_slash(path[6]))
}

/// Where the prefix of a path ends: `\\?\UNC\server\share`, `\\?\C:`, `\\?\name`,
/// `\\.\name`, `\\server\share` or a drive; 0 where there is none.
pub open spec fn prefix_end(path: Seq<char>) -> int {
    if is_verbatim(path) {
        if is_verbatim_share(path) {
            share_end(path, 8, true)
        } else if is_verbatim_drive(path) {
            6
        } else {
            part_end(path, 4, true)
        }
    } else if has_two_slashes(path) {
        if path.len() >= 4 && path[2] == '.' && is_slash(path[3]) {
            part_end(path, 4, false)
        } else if 2 < part_end(path, 2, false) < share_end(path, 2, false) {
            share_end(path, 2, false)
        } else {
            0
        }
    } else if has_drive(path, 0) {
        2
    } else {
        0
    }
}

/// Whether the root is written behind the prefix.
pub open spec fn is_rooted(path: Seq<char>) -> bool {
    prefix_end(path) < path.len() && is_slash(path[prefix_end(path)])
}

/// Whether a path starts in the current directory, written as a dot. A prefix
/// other than a drive has a root, also where none is written.
pub open spec fn starts_here(path: Seq<char>) -> bool {
    let at = prefix_end(path);
    &&& !is_rooted(path)
    &&& at == 0 || has_drive(path, 0)
    &&& at < path.len() && path[at] == '.'
    &&& at + 1 == path.len() || is_slash(path[at + 1])
}

/// Where the components behind the prefix, the root and a leading dot start.
pub open spec fn body_start(path: Seq<char>) -> int {
    if is_rooted(path) || starts_here(path) {
        prefix_end(path) + 1
    } else {
        prefix_end(path)
    }
}

/// Where a path ends without the separators at its end, and without components of
/// a single dot there. In a verbatim path such a component counts.
pub open spec fn trimmed(path: Seq<char>, start: int, verbatim: bool, end: int) -> int
    decreases end,
{
    if end <= start || end <= 0 {
        start
    } else if is_separator(verbatim, path[end - 1]) || (!verbatim && path[end - 1] == '.' && (end
        - 1 == start || is_slash(path[end - 2]))) {
        trimmed(path, start, verbatim, end - 1)
    } else {
        end
    }
}

/// Where the component that ends at `end` starts: behind the last separator
/// before it.
pub open spec fn component_start(path: Seq<char>, start: int, verbatim: bool, end: int) -> int
    decreases end,
{
    if end <= start || end <= 0 {
        start
    } else if is_separator(verbatim, path[end - 1]) {
        end
    } else {
        component_start(path, start, verbatim, end - 1)
    }
}

/// Where the last component of a path ends.
pub open spec fn name_end(path: Seq<char>) -> int {
    trimmed(path, body_start(path), is_verbatim(path), path.len() as int)
}

/// Where the last component of a path starts.
pub open spec fn name_start(path: Seq<char>) -> int {
    component_start(path, body_start(path), is_verbatim(path), name_end(path))
}

/// The last component of a path; empty where nothing stands behind the prefix and
/// the root.
pub open spec fn last_component(path: Seq<char>) -> Seq<char> {
    path.subrange(name_start(path), name_end(path))
}

/// Whether the last component names a file: it is neither empty nor one or two
/// dots.
pub open spec fn names_a_file(path: Seq<char>) -> bool {
    let name = last_component(path);
    name.len() > 0 && name != seq!['.'] && name != seq!['.', '.']
}

/// The path with `suffix` behind its file name.
pub open spec fn suffixed(path: Seq<char>, suffix: Seq<char>) -> Seq<char> {
    path.take(name_end(path)) + suffix
}

/// Where the directory of a path ends.
pub open spec fn directory_end(path: Seq<char>) -> int {
    if body_start(path) < name_end(path) {
        trimmed(path, body_start(path), is_verbatim(path), name_start(path))
    } else if starts_here(path) {
        prefix_end(path)
    } else {
        0
    }
}

/// The directory that holds what a path names; empty when the path gives none.
pub open spec fn directory(path: Seq<char>) -> Seq<char> {
    path.take(directory_end(path))
}

/// Whether a text is a name of one component.
pub open spec fn is_plain_name(name: Seq<char>) -> bool {
    &&& name.len() > 0 && name != seq!['.'] && name != seq!['.', '.']
    &&& forall|i: int| 0 <= i < name.len() ==> !is_slash(#[trigger] name[i]) && name[i] != ':'
}

/// Whether a place of a verbatim path holds a separator; that of the root may be
/// either slash.
pub open spec fn divides(path: Seq<char>, at: int) -> bool {
    path[at] == '\\' || (at == prefix_end(path) && path[at] == '/')
}

/// A verbatim path up to `end`, with one backslash wherever its components are
/// divided.
pub open spec fn tidied(path: Seq<char>, end: int) -> Seq<char>
    decreases end,
{
    if end <= prefix_end(path) || end <= 0 {
        path.take(prefix_end(path))
    } else if !divides(path, end - 1) {
        tidied(path, end - 1).push(path[end - 1])
    } else if prefix_end(path) < end - 1 && divides(path, end - 2) {
        tidied(path, end - 1)
    } else {
        tidied(path, end - 1).push('\\')
    }
}

/// `name` inside the directory `base`.
pub open spec fn joined(base: Seq<char>, name: Seq<char>) -> Seq<char> {
    if is_verbatim(base) {
        let tidy = tidied(base, base.len() as int);
        if prefix_end(base) < base.len() && divides(base, base.len() - 1) {
            tidy + name
        } else {
            tidy.push('\\') + name
        }
    } else if base.len() == 0 || is_slash(base.last()) || (base.len() == 2 && has_drive(base, 0)) {
        base + name
    } else {
        base.push('\\') + name
    }
}

proof fn part_bounds(path: Seq<char>, from: int, verbatim: bool)
    requires
        0 <= from <= path.len(),
    ensures
        from <= part_end(path, from, verbatim) <= path.len(),
        part_end(path, from, verbatim) < path.len() ==> is_separator(
            verbatim,
            path[part_end(path, from, verbatim)],
        ),
        forall|i: int|
            from <= i < part_end(path, from, verbatim) ==> !is_separator(
                verbatim,
                #[trigger] path[i],
            ),
    decreases path.len() - from,
{
    if from < path.len() {
        part_bounds(path, from + 1, verbatim);
    }
}

proof fn share_bounds(path: Seq<char>, from: int, verbatim: bool)
    requires
        0 <= from <= path.len(),
    ensures
        from <= part_end(path, from, verbatim) <= share_end(path, from, verbatim) <= path.len(),
        share_end(path, from, verbatim) < path.len() ==> is_separator(
            verbatim,
            path[share_end(path, from, verbatim)],
        ),
{
    part_bounds(path, from, verbatim);
    let server = part_end(path, from, verbatim);
    if server < path.len() {
        part_bounds(path, server + 1, verbatim);
    }
}

/// The prefix lies inside the path. A prefix other than a drive is followed by a
/// slash, or by nothing.
pub proof fn prefix_bounds(path: Seq<char>)
    ensures
        0 <= prefix_end(path) <= path.len(),
        is_verbatim(path) ==> 4 <= prefix_end(path),
        0 < prefix_end(path) && !has_drive(path, 0) && prefix_end(path) < path.len() ==> is_rooted(
            path,
        ),
        prefix_end(path) <= body_start(path) <= path.len(),
{
    if is_verbatim(path) {
        part_bounds(path, 4, true);
        if is_verbatim_share(path) {
            share_bounds(path, 8, true);
        }
    } else if has_two_slashes(path) {
        share_bounds(path, 2, false);
        if path.len() >= 4 {
            part_bounds(path, 4, false);
        }
    }
}

proof fn trim_bounds(path: Seq<char>, start: int, verbatim: bool, end: int)
    requires
        0 <= start <= end <= path.len(),
    ensures
        start <= trimmed(path, start, verbatim, end) <= end,
        ({
            let stop = trimmed(path, start, verbatim, end);
            start < stop ==> !is_separator(verbatim, path[stop - 1]) && (verbatim || path[stop - 1]
                != '.' || (stop - 1 != start && !is_slash(path[stop - 2])))
        }),
        ({
            let stop = trimmed(path, start, verbatim, end);
            start < stop < end ==> is_separator(verbatim, path[stop])
        }),
    decreases end,
{
    if start < end {
        trim_bounds(path, start, verbatim, end - 1);
    }
}

proof fn component_bounds(path: Seq<char>, start: int, verbatim: bool, end: int)
    requires
        0 <= start <= end,
    ensures
        start <= component_start(path, start, verbatim, end) <= end,
    decreases end,
{
    if start < end {
        component_bounds(path, start, verbatim, end - 1);
    }
}

/// The file name and the directory of a path lie inside it, and the name lies
/// behind the prefix.
pub proof fn name_bounds(path: Seq<char>)
    ensures
        0 <= prefix_end(path) <= body_start(path) <= name_start(path) <= name_end(path)
            <= path.len(),
        0 <= directory_end(path) <= name_start(path),
{
    prefix_bounds(path);
    let start = body_start(path);
    trim_bounds(path, start, is_verbatim(path), path.len() as int);
    component_bounds(path, start, is_verbatim(path), name_end(path));
    trim_bounds(path, start, is_verbatim(path), name_start(path));
}

fn slash(c: char) -> (yes: bool)
    ensures
        yes == is_slash(c),
{
    c == '\\' || c == '/'
}

fn separates(verbatim: bool, c: char) -> (yes: bool)
    ensures
        yes == is_separator(verbatim, c),
{
    c == '\\' || (!verbatim && c == '/')
}

fn verbatim(path: &Vec<char>) -> (yes: bool)
    ensures
        yes == is_verbatim(path@),
{
    path.len() >= 4 && path[0] == '\\' && path[1] == '\\' && path[2] == '?' && path[3] == '\\'
}

fn drive_at(path: &Vec<char>, at: usize) -> (yes: bool)
    requires
        at <= 4,
    ensures
        yes == has_drive(path@, at as int),
{
    path.len() >= at + 2 && path[at + 1] == ':' && (('a' <= path[at] && path[at] <= 'z') || ('A'
        <= path[at] && path[at] <= 'Z'))
}

fn find_part_end(path: &Vec<char>, from: usize, verbatim: bool) -> (end: usize)
    requires
        from <= path@.len(),
    ensures
        end == part_end(path@, from as int, verbatim),
        from <= end <= path@.len(),
{
    let mut end: usize = from;
    while end < path.len() && !separates(verbatim, path[end])
        invariant
            from <= end <= path@.len(),
            part_end(path@, end as int, verbatim) == part_end(path@, from as int, verbatim),
        decreases path@.len() - end,
    {
        end += 1;
    }
    end
}

fn find_share_end(path: &Vec<char>, from: usize, verbatim: bool) -> (ends: (usize, usize))
    requires
        from <= path@.len(),
    ensures
        ends.0 == part_end(path@, from as int, verbatim),
        ends.1 == share_end(path@, from as int, verbatim),
        from <= ends.0 <= ends.1 <= path@.len(),
{
    let server = find_part_end(path, from, verbatim);
    if server < path.len() {
        let share = find_part_end(path, server + 1, verbatim);
        if server + 1 < share {
            return (server, share);
        }
    }
    (server, server)
}

fn find_prefix_end(path: &Vec<char>) -> (end: usize)
    ensures
        end == prefix_end(path@),
        end <= path@.len(),
{
    let n: usize = path.len();
    if verbatim(path) {
        if n >= 8 && path[4] == 'U' && path[5] == 'N' && path[6] == 'C' && slash(path[7]) {
            let (_, share) = find_share_end(path, 8, true);
            share
        } else if drive_at(path, 4) && (n == 6 || slash(path[6])) {
            6
        } else {
            find_part_end(path, 4, true)
        }
    } else if n >= 2 && slash(path[0]) && slash(path[1]) {
        if n >= 4 && path[2] == '.' && slash(path[3]) {
            find_part_end(path, 4, false)
        } else {
            let (server, share) = find_share_end(path, 2, false);
            if 2 < server && server < share {
                share
            } else {
                0
            }
        }
    } else if drive_at(path, 0) {
        2
    } else {
        0
    }
}

/// The parts of a path that its components lie between.
struct Layout {
    prefix: usize,
    here: bool,
    start: usize,
    verbatim: bool,
}

fn layout(path: &Vec<char>) -> (parts: Layout)
    ensures
        parts.prefix == prefix_end(path@),
        parts.here == starts_here(path@),
        parts.start == body_start(path@),
        parts.verbatim == is_verbatim(path@),
        parts.prefix <= parts.start <= path@.len(),
{
    let n: usize = path.len();
    let prefix = find_prefix_end(path);
    let rooted = prefix < n && slash(path[prefix]);
    let here = !rooted && (prefix == 0 || drive_at(path, 0)) && prefix < n && path[prefix] == '.'
        && (n - prefix == 1 || slash(path[prefix + 1]));
    let start: usize = if rooted || here {
        prefix + 1
    } else {
        prefix
    };
    Layout { prefix, here, start, verbatim: verbatim(path) }
}

fn trim(path: &Vec<char>, start: usize, verbatim: bool, end: usize) -> (stop: usize)
    requires
        start <= end <= path@.len(),
    ensures
        stop == trimmed(path@, start as int, verbatim, end as int),
        start <= stop <= end,
{
    let mut stop: usize = end;
    while start < stop && (separates(verbatim, path[stop - 1]) || (!verbatim && path[stop - 1]
        == '.' && (stop - 1 == start || slash(path[stop - 2]))))
        invariant
            start <= stop <= end <= path@.len(),
            trimmed(path@, start as int, verbatim, stop as int) == trimmed(
                path@,
                start as int,
                verbatim,
                end as int,
            ),
        decreases stop,
    {
        stop -= 1;
    }
    stop
}

fn find_component_start(path: &Vec<char>, start: usize, verbatim: bool, end: usize) -> (first:
    usize)
    requires
        start <= end <= path@.len(),
    ensures
        first == component_start(path@, start as int, verbatim, end as int),
        start <= first <= end,
{
    let mut first: usize = end;
    while start < first && !separates(verbatim, path[first - 1])
        invariant
            start <= first <= end <= path@.len(),
            component_start(path@, start as int, verbatim, first as int) == component_start(
                path@,
                start as int,
                verbatim,
                end as int,
            ),
        decreases first,
    {
        first -= 1;
    }
    first
}

/// The path with `suffix` behind its file name, such as `profiles.json.tmp`.
/// `None` when the path names no file.
pub fn with_suffix(path: &str, suffix: &str) -> (result: Option<String>)
    ensures
        match result {
            Some(p) => names_a_file(path@) && p@ == suffixed(path@, suffix@),
            None => !names_a_file(path@),
        },
{
    let chars = text::chars_of(path);
    let parts = layout(&chars);
    let end = trim(&chars, parts.start, parts.verbatim, chars.len());
    let start = find_component_start(&chars, parts.start, parts.verbatim, end);
    let ghost name = last_component(path@);
    if start == end {
        assert(name.len() == 0);
        return None;
    }
    if end - start == 1 && chars[start] == '.' {
        assert(name =~= seq!['.']);
        return None;
    }
    if end - start == 2 && chars[start] == '.' && chars[start + 1] == '.' {
        assert(name =~= seq!['.', '.']);
        return None;
    }
    proof {
        if name == seq!['.'] {
            assert(name[0] == '.');
            assert(name.len() == 1);
        }
        if name == seq!['.', '.'] {
            assert(name[0] == '.' && name[1] == '.');
            assert(name.len() == 2);
        }
    }
    let mut result = text::string_of(&chars, 0, end);
    assert(path@.subrange(0, end as int) =~= path@.take(end as int));
    result.append(suffix);
    Some(result)
}

/// The directory that holds what a path names; `None` when the path gives none.
pub fn parent(path: &str) -> (result: Option<String>)
    ensures
        match result {
            Some(p) => p@ == directory(path@) && directory(path@).len() > 0,
            None => directory(path@).len() == 0,
        },
{
    let chars = text::chars_of(path);
    let parts = layout(&chars);
    let end = trim(&chars, parts.start, parts.verbatim, chars.len());
    let stop: usize = if parts.start < end {
        let start = find_component_start(&chars, parts.start, parts.verbatim, end);
        trim(&chars, parts.start, parts.verbatim, start)
    } else if parts.here {
        parts.prefix
    } else {
        0
    };
    if stop == 0 {
        return None;
    }
    assert(path@.subrange(0, stop as int) =~= path@.take(stop as int));
    Some(text::string_of(&chars, 0, stop))
}

fn divided(path: &Vec<char>, prefix: usize, at: usize) -> (yes: bool)
    requires
        at < path@.len(),
        prefix == prefix_end(path@),
    ensures
        yes == divides(path@, at as int),
{
    path[at] == '\\' || (at == prefix && path[at] == '/')
}

/// `name`, a name of one component, inside the directory `base`.
pub fn join(base: &str, name: &str) -> (path: String)
    requires
        is_plain_name(name@),
    ensures
        path@ == joined(base@, name@),
{
    let chars = text::chars_of(base);
    let n: usize = chars.len();
    if verbatim(&chars) {
        let prefix = find_prefix_end(&chars);
        let mut path = text::string_of(&chars, 0, prefix);
        assert(base@.subrange(0, prefix as int) =~= base@.take(prefix as int));
        let mut end: usize = prefix;
        while end < n
            invariant
                prefix <= end <= n,
                n == chars@.len(),
                chars@ == base@,
                prefix == prefix_end(base@),
                path@ == tidied(base@, end as int),
            decreases n - end,
        {
            if !divided(&chars, prefix, end) {
                path.push(chars[end]);
            } else if !(prefix < end && divided(&chars, prefix, end - 1)) {
                path.push('\\');
            }
            end += 1;
        }
        if !(prefix < n && divided(&chars, prefix, n - 1)) {
            path.push('\\');
        }
        path.append(name);
        return path;
    }
    let mut path = base.to_owned();
    if !(n == 0 || slash(chars[n - 1]) || (n == 2 && drive_at(&chars, 0))) {
        path.push('\\');
    }
    path.append(name);
    path
}

/// A path with nothing behind its prefix and its root names no file, such as
/// `\\server\share` and `\\?\C:\`.
pub proof fn prefix_alone_names_no_file(path: Seq<char>)
    requires
        body_start(path) == path.len(),
    ensures
        !names_a_file(path),
{
    name_bounds(path);
}

/// A file named with a suffix is another file in the same directory, and its name
/// is the file's name followed by the suffix. The suffix holds no separator, and
/// does not make a name of one letter a drive.
pub proof fn suffix_extends_the_name(path: Seq<char>, suffix: Seq<char>)
    requires
        names_a_file(path),
        has_drive(suffixed(path, suffix), 0) ==> name_end(path) >= 2,
        forall|i: int|
            0 <= i < suffix.len() ==> !is_separator(is_verbatim(path), #[trigger] suffix[i]),
    ensures
        names_a_file(suffixed(path, suffix)),
        last_component(suffixed(path, suffix)) == last_component(path) + suffix,
        directory(suffixed(path, suffix)) == directory(path),
        suffix.len() > 0 ==> suffixed(path, suffix) != path,
{
    name_bounds(path);
    let verbatim = is_verbatim(path);
    let start = body_start(path);
    let end = name_end(path);
    let long = suffixed(path, suffix);
    trim_bounds(path, start, verbatim, path.len() as int);
    assert forall|i: int| 0 <= i < end implies long[i] == path[i] by {}
    assert forall|i: int| end <= i < long.len() implies long[i] == suffix[i - end] by {}
    prefix_is_kept(path, suffix);
    if suffix.len() > 0 && end < path.len() {
        assert(long[end] == suffix[0]);
    }
    let name = last_component(path);
    assert(start < end);
    assert(name_end(long) == long.len());
    start_through_suffix(path, suffix, long.len() as int);
    assert(last_component(long) =~= name + suffix);
    same_trimming(path, long, start, verbatim, name_start(path));
    assert(directory(long) =~= directory(path));
    let longer = last_component(long);
    if longer == seq!['.'] {
        assert(longer.len() == 1 && longer[0] == '.' && name[0] == longer[0]);
        assert(name =~= seq!['.']);
    }
    if longer == seq!['.', '.'] {
        assert(longer.len() == 2 && longer[0] == '.' && longer[1] == '.' && name[0] == longer[0]);
        if name.len() == 1 {
            assert(name =~= seq!['.']);
        } else {
            assert(name[1] == longer[1]);
            assert(name =~= seq!['.', '.']);
        }
    }
}

/// Files named with different suffixes are different files.
pub proof fn suffixes_tell_files_apart(path: Seq<char>, first: Seq<char>, second: Seq<char>)
    requires
        first != second,
    ensures
        suffixed(path, first) != suffixed(path, second),
{
    name_bounds(path);
    if suffixed(path, first) == suffixed(path, second) {
        assert(suffixed(path, first).skip(name_end(path)) =~= first);
        assert(suffixed(path, second).skip(name_end(path)) =~= second);
    }
}

/// The part of a path that ends before `k` ends there in every path that starts
/// with the same `k` characters.
proof fn same_part(a: Seq<char>, b: Seq<char>, from: int, verbatim: bool, k: int)
    requires
        0 <= from <= part_end(a, from, verbatim) < k <= a.len(),
        k <= b.len(),
        forall|i: int| 0 <= i < k ==> a[i] == b[i],
    ensures
        part_end(b, from, verbatim) == part_end(a, from, verbatim),
    decreases k - from,
{
    if !is_separator(verbatim, a[from]) {
        part_bounds(a, from + 1, verbatim);
        same_part(a, b, from + 1, verbatim, k);
    }
}

proof fn undivided_part(path: Seq<char>, from: int, verbatim: bool)
    requires
        0 <= from <= path.len(),
        forall|i: int| from <= i < path.len() ==> !is_separator(verbatim, #[trigger] path[i]),
    ensures
        part_end(path, from, verbatim) == path.len(),
    decreases path.len() - from,
{
    if from < path.len() {
        undivided_part(path, from + 1, verbatim);
    }
}

/// A suffix without separators leaves the prefix as it is.
proof fn prefix_is_kept(path: Seq<char>, suffix: Seq<char>)
    requires
        names_a_file(path),
        has_drive(suffixed(path, suffix), 0) ==> name_end(path) >= 2,
        forall|i: int|
            0 <= i < suffix.len() ==> !is_separator(is_verbatim(path), #[trigger] suffix[i]),
    ensures
        is_verbatim(suffixed(path, suffix)) == is_verbatim(path),
        prefix_end(suffixed(path, suffix)) == prefix_end(path),
        body_start(suffixed(path, suffix)) == body_start(path),
{
    name_bounds(path);
    prefix_bounds(path);
    let verbatim = is_verbatim(path);
    let end = name_end(path);
    let long = suffixed(path, suffix);
    trim_bounds(path, body_start(path), verbatim, path.len() as int);
    assert(!is_separator(verbatim, path[end - 1]));
    assert forall|i: int| 0 <= i < end implies long[i] == path[i] by {}
    assert forall|i: int| end <= i < long.len() implies !is_separator(verbatim, long[i]) by {
        assert(long[i] == suffix[i - end]);
    }
    if verbatim {
        verbatim_prefix_is_kept(path, long, end);
    } else {
        if is_verbatim(long) {
            assert(3 < end);
        }
        if has_two_slashes(path) {
            assert(has_two_slashes(long));
            if path.len() >= 4 && path[2] == '.' && is_slash(path[3]) {
                part_bounds(path, 4, false);
                same_part(path, long, 4, false, end);
            } else {
                share_is_kept(path, long, end);
            }
        } else {
            assert(!has_two_slashes(long));
        }
    }
}

proof fn verbatim_prefix_is_kept(path: Seq<char>, long: Seq<char>, end: int)
    requires
        is_verbatim(path),
        body_start(path) < end <= path.len(),
        end <= long.len(),
        !is_separator(true, path[end - 1]),
        forall|i: int| 0 <= i < end ==> path[i] == long[i],
    ensures
        is_verbatim(long),
        prefix_end(long) == prefix_end(path),
{
    prefix_bounds(path);
    let at = prefix_end(path);
    assert(long[at] == path[at]);
    if is_verbatim_share(path) {
        share_bounds(path, 8, true);
        part_bounds(path, 8, true);
        let server = part_end(path, 8, true);
        same_part(path, long, 8, true, end);
        part_bounds(path, server + 1, true);
        assert(part_end(path, server + 1, true) < end);
        same_part(path, long, server + 1, true, end);
    } else if is_verbatim_drive(path) {
        assert(!is_verbatim_share(long));
    } else {
        part_bounds(path, 4, true);
        same_part(path, long, 4, true, end);
        assert(!is_verbatim_share(long));
        assert(!is_verbatim_drive(long));
    }
}

proof fn share_is_kept(path: Seq<char>, long: Seq<char>, end: int)
    requires
        !is_verbatim(path),
        !is_verbatim(long),
        has_two_slashes(path),
        !(path.len() >= 4 && path[2] == '.' && is_slash(path[3])),
        body_start(path) < end <= path.len(),
        end <= long.len(),
        !is_slash(path[end - 1]),
        forall|i: int| 0 <= i < end ==> path[i] == long[i],
        forall|i: int| end <= i < long.len() ==> !is_slash(#[trigger] long[i]),
    ensures
        prefix_end(long) == prefix_end(path),
{
    prefix_bounds(path);
    assert(2 < end);
    part_bounds(path, 2, false);
    share_bounds(path, 2, false);
    let server = part_end(path, 2, false);
    if server < end {
        same_part(path, long, 2, false, end);
        part_bounds(path, server + 1, false);
        let share = part_end(path, server + 1, false);
        if share < end {
            same_part(path, long, server + 1, false, end);
        } else {
            assert(server + 1 < share);
            assert(server == 2);
        }
    } else {
        assert forall|i: int| 2 <= i < long.len() implies !is_separator(
            false,
            #[trigger] long[i],
        ) by {
            if i < end {
                assert(path[i] == long[i]);
            }
        }
        undivided_part(long, 2, false);
    }
}

proof fn start_through_suffix(path: Seq<char>, suffix: Seq<char>, end: int)
    requires
        names_a_file(path),
        forall|i: int|
            0 <= i < suffix.len() ==> !is_separator(is_verbatim(path), #[trigger] suffix[i]),
        name_end(path) <= end <= suffixed(path, suffix).len(),
    ensures
        component_start(suffixed(path, suffix), body_start(path), is_verbatim(path), end)
            == name_start(path),
    decreases end,
{
    name_bounds(path);
    let long = suffixed(path, suffix);
    if end > name_end(path) {
        assert(long[end - 1] == suffix[end - 1 - name_end(path)]);
        start_through_suffix(path, suffix, end - 1);
    } else {
        same_start(path, long, body_start(path), is_verbatim(path), end);
    }
}

proof fn same_start(a: Seq<char>, b: Seq<char>, start: int, verbatim: bool, end: int)
    requires
        0 <= end <= a.len(),
        end <= b.len(),
        forall|i: int| 0 <= i < end ==> a[i] == b[i],
    ensures
        component_start(a, start, verbatim, end) == component_start(b, start, verbatim, end),
    decreases end,
{
    if end > 0 {
        same_start(a, b, start, verbatim, end - 1);
    }
}

proof fn same_trimming(a: Seq<char>, b: Seq<char>, start: int, verbatim: bool, end: int)
    requires
        0 <= start,
        0 <= end <= a.len(),
        end <= b.len(),
        forall|i: int| 0 <= i < end ==> a[i] == b[i],
    ensures
        trimmed(a, start, verbatim, end) == trimmed(b, start, verbatim, end),
    decreases end,
{
    if end > 0 {
        same_trimming(a, b, start, verbatim, end - 1);
    }
}

proof fn plain_name_is_the_component(path: Seq<char>, start: int, at: int, end: int)
    requires
        0 <= start <= at <= end <= path.len(),
        at == start || is_separator(false, path[at - 1]),
        forall|i: int| at <= i < end ==> !is_slash(#[trigger] path[i]),
    ensures
        component_start(path, start, false, end) == at,
    decreases end,
{
    if at < end {
        assert(!is_slash(path[end - 1]));
        plain_name_is_the_component(path, start, at, end - 1);
    }
}

/// A file of a plain name inside a directory that is no share has that name as its last
/// component, and begins with the directory; where the directory does not end in a slash
/// or a dot, it is the directory of the file.
pub proof fn joined_file_has_its_name(base: Seq<char>, name: Seq<char>)
    requires
        is_plain_name(name),
        !has_two_slashes(base),
    ensures
        last_component(joined(base, name)) == name,
        names_a_file(joined(base, name)),
        joined(base, name).take(base.len() as int) == base,
        base.len() > 2 && !is_slash(base.last()) && base.last() != '.' ==> directory(
            joined(base, name),
        ) == base,
{
    let path = joined(base, name);
    assert(!is_verbatim(base));
    let at = path.len() - name.len();
    assert forall|i: int| at <= i < path.len() implies !is_slash(#[trigger] path[i]) && path[i]
        != ':' by {
        assert(path[i] == name[i - at]);
        assert(!is_slash(name[i - at]));
    }
    assert(path.take(base.len() as int) =~= base);
    assert(base.len() <= at <= base.len() + 1);
    assert(forall|i: int| 0 <= i < base.len() ==> path[i] == base[i]);
    assert(!has_two_slashes(path)) by {
        if path.len() >= 2 && is_slash(path[0]) && is_slash(path[1]) {
            if at <= 1 {
                assert(!is_slash(path[1]));
            } else {
                assert(base.len() == 1);
                assert(base.last() == path[0]);
            }
        }
    }
    assert(!is_verbatim(path));
    assert(has_drive(path, 0) == has_drive(base, 0)) by {
        if has_drive(path, 0) && at <= 1 {
            assert(path[1] != ':');
        }
    }
    let start = body_start(path);
    assert(prefix_end(path) <= base.len());
    let p = prefix_end(path);
    assert(is_rooted(path) ==> p < at) by {
        if is_rooted(path) && at <= p {
            assert(!is_slash(path[p]));
        }
    }
    assert(starts_here(path) ==> p < at) by {
        if starts_here(path) && at <= p {
            assert(p == at);
            if at + 1 == path.len() {
                assert(name =~= seq!['.']) by {
                    assert(name[0] == path[at]);
                }
            } else {
                assert(!is_slash(path[at + 1]));
            }
        }
    }
    assert(start <= at);
    assert(at == start || is_separator(false, path[at - 1])) by {
        if at == base.len() && base.len() > 0 && is_slash(base.last()) {
            assert(path[at - 1] == base.last());
        }
    }
    let end = path.len() as int;
    assert(!is_slash(path[end - 1]));
    assert(trimmed(path, start, false, end) == end) by {
        if path[end - 1] == '.' && (end - 1 == start || is_slash(path[end - 2])) {
            if name.len() >= 2 {
                assert(!is_slash(path[end - 2]));
                assert(end - 1 > at);
            } else {
                assert(name =~= seq!['.']) by {
                    assert(name[0] == path[at]);
                }
            }
        }
    }
    assert(name_end(path) == end);
    plain_name_is_the_component(path, start, at, end);
    assert(last_component(path) =~= name);
    if base.len() > 2 && !is_slash(base.last()) && base.last() != '.' {
        let n = base.len() as int;
        assert(path[n] == '\\');
        assert(path[n - 1] == base.last());
        assert(at == n + 1);
        assert(start < n) by {
            if is_rooted(path) {
                assert(is_slash(path[p]));
            }
        }
        assert(trimmed(path, start, false, n) == n);
        assert(trimmed(path, start, false, at) == n);
        assert(directory(path) =~= base);
    }
}

/// Wherever a file is put, its path ends in its name, and a separator stands before the
/// name unless the directory is empty or is a drive alone.
pub proof fn joined_path_ends_in_the_name(base: Seq<char>, name: Seq<char>)
    requires
        base.len() > 0,
        !(base.len() == 2 && has_drive(base, 0)),
    ensures
        ({
            let path = joined(base, name);
            &&& path.len() > name.len()
            &&& path.skip(path.len() - name.len()) == name
            &&& is_slash(path[path.len() - name.len() - 1])
            &&& is_verbatim(base) ==> path[path.len() - name.len() - 1] == '\\'
        }),
{
    let path = joined(base, name);
    assert(path.skip(path.len() - name.len()) =~= name);
    if is_verbatim(base) {
        prefix_bounds(base);
        if prefix_end(base) < base.len() && divides(base, base.len() - 1) {
            tidy_divider(base, base.len() as int);
        }
    }
}

proof fn tidy_divider(path: Seq<char>, end: int)
    requires
        0 <= prefix_end(path) < end <= path.len(),
        divides(path, end - 1),
    ensures
        tidied(path, end).len() > 0,
        tidied(path, end).last() == '\\',
    decreases end,
{
    if prefix_end(path) < end - 1 && divides(path, end - 2) {
        tidy_divider(path, end - 1);
    }
}

proof fn part_ends_at(path: Seq<char>, from: int, to: int, verbatim: bool)
    requires
        0 <= from <= to <= path.len(),
        forall|i: int| from <= i < to ==> !is_separator(verbatim, #[trigger] path[i]),
        to == path.len() || is_separator(verbatim, path[to]),
    ensures
        part_end(path, from, verbatim) == to,
    decreases to - from,
{
    if from < to {
        assert(!is_separator(verbatim, path[from]));
        part_ends_at(path, from + 1, to, verbatim);
    }
}

/// A letter and a colon at the start of a path are a drive, and nothing else before a
/// colon is.
pub proof fn drive_is_a_letter_and_a_colon(letter: char, rest: Seq<char>)
    ensures
        ('a' <= letter && letter <= 'z') || ('A' <= letter && letter <= 'Z') ==> prefix_end(
            seq![letter, ':'] + rest,
        ) == 2 && has_drive(seq![letter, ':'] + rest, 0),
        !(('a' <= letter && letter <= 'z') || ('A' <= letter && letter <= 'Z')) ==> prefix_end(
            seq![letter, ':'] + rest,
        ) == 0,
        prefix_end(Seq::empty()) == 0,
        rest.len() > 0 && rest[0] != ':' && !is_slash(letter) ==> prefix_end(seq![letter] + rest)
            == 0,
{
    let path = seq![letter, ':'] + rest;
    assert(path[0] == letter && path[1] == ':');
    let other = seq![letter] + rest;
    assert(other[0] == letter);
    if rest.len() > 0 {
        assert(other[1] == rest[0]);
    }
}

/// A path that begins with two slashes, a server and a share has them as its prefix; one
/// that begins with two slashes, a dot and a name has that.
pub proof fn share_is_a_prefix(server: Seq<char>, share: Seq<char>)
    requires
        server.len() > 0,
        share.len() > 0,
        forall|i: int| 0 <= i < server.len() ==> !is_slash(#[trigger] server[i]),
        forall|i: int| 0 <= i < share.len() ==> !is_slash(#[trigger] share[i]),
    ensures
        ({
            let path = seq!['\\', '\\'] + server + seq!['\\'] + share;
            server != seq!['?'] ==> prefix_end(path) == path.len()
        }),
{
    let path = seq!['\\', '\\'] + server + seq!['\\'] + share;
    let end = 2 + server.len() as int;
    assert(path[0] == '\\' && path[1] == '\\');
    assert(path[end] == '\\');
    assert forall|i: int| 2 <= i < end implies !is_slash(#[trigger] path[i]) by {
        assert(path[i] == server[i - 2]);
    }
    assert forall|i: int| end < i < path.len() implies !is_slash(#[trigger] path[i]) by {
        assert(path[i] == share[i - end - 1]);
    }
    if server != seq!['?'] {
        if is_verbatim(path) {
            assert(is_slash(path[3]));
            assert(end == 3);
            assert(server[0] == path[2]);
            assert(server =~= seq!['?']);
        }
        part_ends_at(path, 2, end, false);
        part_ends_at(path, end + 1, path.len() as int, false);
        if path.len() >= 4 && path[2] == '.' && is_slash(path[3]) {
            assert(end == 3);
            part_ends_at(path, 4, path.len() as int, false);
        }
    }
}

/// A path that begins with two backslashes, a question mark and a backslash is verbatim.
/// What names its prefix there is a drive, a share behind the word for it, or one name;
/// slashes that are not backslashes part nothing in it.
pub proof fn verbatim_path_has_its_prefix(letter: char, name: Seq<char>, rest: Seq<char>)
    requires
        ('a' <= letter && letter <= 'z') || ('A' <= letter && letter <= 'Z'),
        forall|i: int| 0 <= i < name.len() ==> #[trigger] name[i] != '\\',
    ensures
        ({
            let start = seq!['\\', '\\', '?', '\\'];
            &&& is_verbatim(start + rest)
            &&& prefix_end(start + seq![letter, ':']) == 6
            &&& prefix_end(start + seq![letter, ':', '\\'] + rest) == 6
            &&& (name.len() != 2 || name[1] != ':') && (name.len() < 3 || name[1] != ':' || name[2]
                != '/') && (name.len() < 4 || name[3] != '/') && name != seq!['U', 'N', 'C']
                ==> prefix_end(start + name) == 4 + name.len() && prefix_end(
                start + name + seq!['\\'] + rest,
            ) == 4 + name.len()
        }),
{
    let start = seq!['\\', '\\', '?', '\\'];
    let with_rest = start + rest;
    assert(with_rest[0] == '\\' && with_rest[1] == '\\' && with_rest[2] == '?' && with_rest[3]
        == '\\');
    let drive = start + seq![letter, ':'];
    assert(drive[4] == letter && drive[5] == ':' && drive.len() == 6);
    assert(is_verbatim(drive));
    let rooted = start + seq![letter, ':', '\\'] + rest;
    assert(rooted[4] == letter && rooted[5] == ':' && rooted[6] == '\\');
    assert(is_verbatim(rooted));
    let named = start + name;
    let end = 4 + name.len() as int;
    assert(is_verbatim(named));
    assert forall|i: int| 4 <= i < end implies #[trigger] named[i] != '\\' by {
        assert(named[i] == name[i - 4]);
    }
    let longer = start + name + seq!['\\'] + rest;
    assert(is_verbatim(longer));
    assert(longer[end] == '\\');
    assert forall|i: int| 4 <= i < end implies #[trigger] longer[i] != '\\' by {
        assert(longer[i] == name[i - 4]);
    }
    if (name.len() != 2 || name[1] != ':') && (name.len() < 3 || name[1] != ':' || name[2] != '/')
        && (name.len() < 4 || name[3] != '/') && name != seq!['U', 'N', 'C'] {
        if is_verbatim_share(named) {
            assert(named[7] == name[3]);
        }
        if is_verbatim_share(longer) {
            if name.len() >= 4 {
                assert(longer[7] == name[3]);
            } else if name.len() == 3 {
                assert(longer[4] == name[0] && longer[5] == name[1] && longer[6] == name[2]);
                assert(name =~= seq!['U', 'N', 'C']);
            } else {
                assert(longer[end] == '\\');
                assert(end < 7);
            }
        }
        if is_verbatim_drive(named) {
            assert(named[5] == name[1]);
            if name.len() > 2 {
                assert(named[6] == name[2]);
            }
        }
        if is_verbatim_drive(longer) {
            if name.len() >= 2 {
                assert(longer[5] == name[1]);
                if name.len() > 2 {
                    assert(longer[6] == name[2]);
                }
            } else {
                assert(longer[end] == '\\');
            }
        }
        part_ends_at(named, 4, end, true);
        part_ends_at(longer, 4, end, true);
    }
}

/// A file put below a verbatim prefix alone is divided from it by a backslash.
pub proof fn verbatim_prefix_is_divided_from_the_name(base: Seq<char>, name: Seq<char>)
    requires
        is_verbatim(base),
        prefix_end(base) == base.len(),
    ensures
        joined(base, name) == base.push('\\') + name,
{
    assert(base.take(base.len() as int) =~= base);
}

} // verus!
