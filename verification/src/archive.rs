//! Where the entries of a downloaded archive are written.
use vstd::prelude::*;

verus! {

/// A path separator of either convention.
pub open spec fn is_separator(c: char) -> bool {
    c == '/' || c == '\\'
}

/// The components of a path whose separators are `/` or `\`, as
/// `path.replace('\\', "/").split('/')` yields them: empty components included,
/// and always at least one.
pub open spec fn split_path(s: Seq<char>) -> Seq<Seq<char>>
    decreases s.len(),
{
    if s.len() == 0 {
        seq![Seq::<char>::empty()]
    } else {
        let parts = split_path(s.drop_last());
        if is_separator(s.last()) {
            parts.push(Seq::<char>::empty())
        } else {
            parts.update(parts.len() - 1, parts.last().push(s.last()))
        }
    }
}

proof fn lemma_split_path_nonempty(s: Seq<char>)
    ensures
        split_path(s).len() >= 1,
    decreases s.len(),
{
    if s.len() > 0 {
        lemma_split_path_nonempty(s.drop_last());
    }
}

/// What `sanitize_filename::sanitize_with_options` makes of one file name with the
/// options `windows`, truncation to 255 bytes and the empty replacement.
pub uninterp spec fn sanitized_name(name: Seq<char>, windows: bool) -> Seq<char>;

/// The number of bytes that UTF-8 takes for `c`.
pub open spec fn utf8_width(c: char) -> nat {
    if c <= '\u{7f}' {
        1
    } else if c <= '\u{7ff}' {
        2
    } else if c <= '\u{ffff}' {
        3
    } else {
        4
    }
}

/// The number of bytes that UTF-8 takes for `s`, as `str::len` counts them.
pub open spec fn utf8_len(s: Seq<char>) -> nat
    decreases s.len(),
{
    if s.len() == 0 {
        0
    } else {
        utf8_len(s.drop_last()) + utf8_width(s.last())
    }
}

/// A character that a sanitized file name never holds: `/ ? < > \ : * | "` and the
/// control characters U+0000 to U+001F and U+0080 to U+009F.
pub open spec fn is_illegal_name_char(c: char) -> bool {
    ||| c == '/'
    ||| c == '?'
    ||| c == '<'
    ||| c == '>'
    ||| c == '\\'
    ||| c == ':'
    ||| c == '*'
    ||| c == '|'
    ||| c == '"'
    ||| ('\u{0}' <= c && c <= '\u{1f}')
    ||| ('\u{80}' <= c && c <= '\u{9f}')
}

/// A name that can stand as one path component below a directory on every
/// platform: it holds no separator, no drive colon and no illegal or control
/// character, it is neither `.` nor `..`, and it takes at most 255 bytes.
pub open spec fn is_clean_name(s: Seq<char>) -> bool {
    &&& forall|i: int| 0 <= i < s.len() ==> !is_illegal_name_char(#[trigger] s[i])
    &&& s != "."@
    &&& s != ".."@
    &&& utf8_len(s) <= 255
}

/// Calls `sanitize_filename::sanitize_with_options` with `windows`, `truncate: true`
/// and `replacement: ""`, the options that `sanitize` uses on the platform that
/// `windows` describes. The contract claims that the result is
/// `sanitized_name(name, windows)` and what the crate's source shows of every
/// result (`is_clean_name`): the first pattern removes `/ ? < > \ : * | "`, the
/// second the control characters U+0000 to U+001F and U+0080 to U+009F, and the
/// later steps only remove or cut, with the empty replacement; a name of dots only
/// becomes empty, on Windows trailing dots are removed, and a name of more than 255
/// bytes is cut at a character boundary at or below 255 bytes, so it keeps at least
/// 252 and is neither `.` nor `..`. Which reserved names it removes on Windows is
/// not stated.
#[verifier::external_body]
fn sanitize_name(name: &str, windows: bool) -> (r: String)
    ensures
        r@ == sanitized_name(name@, windows),
        is_clean_name(r@),
{
    let options = sanitize_filename::Options { windows, truncate: true, replacement: "" };
    sanitize_filename::sanitize_with_options(name, options)
}

/// The components of `path`, split at `/` and `\`.
pub fn split_components(path: &str) -> (parts: Vec<String>)
    ensures
        parts@.map_values(|p: String| p@) == split_path(path@),
{
    let n = path.unicode_len();
    let mut parts: Vec<String> = Vec::new();
    let mut start: usize = 0;
    let mut i: usize = 0;
    assert(path@.take(0) =~= Seq::<char>::empty());
    assert(path@.subrange(0, 0) =~= Seq::<char>::empty());
    while i < n
        invariant
            n == path@.len(),
            start <= i <= n,
            parts@.map_values(|p: String| p@).push(path@.subrange(start as int, i as int))
                == split_path(path@.take(i as int)),
        decreases n - i,
    {
        let ghost before = parts@.map_values(|p: String| p@);
        proof {
            lemma_split_path_nonempty(path@.take(i as int));
        }
        assert(path@.take(i + 1).drop_last() =~= path@.take(i as int));
        let c = path.get_char(i);
        if c == '/' || c == '\\' {
            parts.push(String::from_str(path.substring_char(start, i)));
            assert(parts@.map_values(|p: String| p@) =~= before.push(
                path@.subrange(start as int, i as int),
            ));
            start = i + 1;
            i += 1;
            assert(path@.subrange(start as int, i as int) =~= Seq::<char>::empty());
        } else {
            assert(path@.subrange(start as int, i + 1) =~= path@.subrange(
                start as int,
                i as int,
            ).push(c));
            assert(before.push(path@.subrange(start as int, i + 1)) =~= before.push(
                path@.subrange(start as int, i as int),
            ).update(before.len() as int, path@.subrange(start as int, i as int).push(c)));
            i += 1;
        }
    }
    parts.push(String::from_str(path.substring_char(start, n)));
    assert(path@.take(n as int) =~= path@);
    parts
}

/// The components under which an archive entry named `path` is written: `path`
/// split at `/` and `\`, each component sanitized as a file name. Every component
/// is a clean name: no separator, no drive colon, no illegal or control character,
/// neither `.` nor `..`, at most 255 bytes; so the path that the components make
/// is relative and stays below the directory that it is joined to, on Windows too.
pub fn sanitize_file_path(path: &str, windows: bool) -> (components: Vec<String>)
    ensures
        components@.map_values(|c: String| c@) == split_path(path@).map_values(
            |c: Seq<char>| sanitized_name(c, windows),
        ),
        forall|i: int| 0 <= i < components.len() ==> is_clean_name(#[trigger] components[i]@),
{
    let parts = split_components(path);
    let mut components: Vec<String> = Vec::new();
    let mut i: usize = 0;
    while i < parts.len()
        invariant
            i <= parts.len(),
            components.len() == i,
            forall|j: int|
                0 <= j < i ==> (#[trigger] components[j])@ == sanitized_name(parts[j]@, windows),
            forall|j: int| 0 <= j < i ==> is_clean_name(#[trigger] components[j]@),
        decreases parts.len() - i,
    {
        components.push(sanitize_name(parts[i].as_str(), windows));
        i += 1;
    }
    assert(components@.map_values(|c: String| c@) =~= split_path(path@).map_values(
        |c: Seq<char>| sanitized_name(c, windows),
    )) by {
        assert(parts@.map_values(|p: String| p@) == split_path(path@));
        assert forall|j: int| 0 <= j < parts.len() implies parts[j]@ == split_path(path@)[j] by {
            assert(parts@.map_values(|p: String| p@)[j] == parts[j]@);
        }
    }
    components
}

/// What to do with one entry of a zip archive.
#[derive(Debug, Clone, Copy, PartialEq, Eq, Structural)]
pub enum ZipEntryAction {
    /// Create the entry's directory.
    CreateDir,
    /// The directory is there already: nothing to do.
    Skip,
    /// Write the entry's file, creating its parent directories first where they
    /// are missing.
    WriteFile { create_parent: bool },
}

/// What to do with a zip entry: a directory entry is created unless its path
/// exists; a file entry is written, after its parent directories where the parent
/// is not a directory yet.
pub fn zip_entry_action(entry_is_dir: bool, path_exists: bool, parent_is_dir: bool) -> (action:
    ZipEntryAction)
    ensures
        action == (if entry_is_dir {
            if path_exists {
                ZipEntryAction::Skip
            } else {
                ZipEntryAction::CreateDir
            }
        } else {
            ZipEntryAction::WriteFile { create_parent: !parent_is_dir }
        }),
{
    if entry_is_dir {
        if path_exists {
            ZipEntryAction::Skip
        } else {
            ZipEntryAction::CreateDir
        }
    } else {
        ZipEntryAction::WriteFile { create_parent: !parent_is_dir }
    }
}

} // verus!
