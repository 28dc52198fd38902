//! Paths of files. Which characters have a meaning in a path, and which separator is written,
//! differs from machine to machine; a path of names that hold none of them, which may lead through
//! folders above, is taken apart and put together in the same way on all.
use crate::copying::optional;
use crate::text::ends_in;
use vstd::prelude::*;

verus! {

/// A character without a meaning of its own in a path, on any machine.
pub open spec fn plain_char(c: char) -> bool {
    c != '/' && c != '\\' && c != ':'
}

/// The name of a file or a folder: of characters without a meaning in a path, and neither the one
/// for the folder itself nor the one for the folder above.
pub open spec fn plain_name(name: Seq<char>) -> bool {
    &&& name.len() > 0
    &&& name != seq!['.']
    &&& name != seq!['.', '.']
    &&& forall|i: int| 0 <= i < name.len() ==> plain_char(#[trigger] name[i])
}

/// Where the text behind the last of a character begins; at the start where there is none.
pub open spec fn behind_last(text: Seq<char>, c: char) -> int
    decreases text.len(),
{
    if text.len() == 0 {
        0
    } else if text.last() == c {
        text.len() as int
    } else {
        behind_last(text.drop_last(), c)
    }
}

/// The last name in a path.
pub open spec fn last_name(path: Seq<char>) -> Seq<char> {
    path.skip(behind_last(path, '/'))
}

/// The folder of a path: what stands in front of the last name and its separator, or the root.
pub open spec fn folder(path: Seq<char>) -> Seq<char> {
    let at = behind_last(path, '/');
    if at <= 1 {
        path.take(at)
    } else {
        path.take(at - 1)
    }
}

/// A path of a folder by names: each part of it is a name or leads to the folder above, but for the
/// first, which may be the folder itself.
pub open spec fn plain_folder(path: Seq<char>) -> bool
    decreases path.len(),
{
    let at = behind_last(path, '/');
    &&& plain_name(last_name(path)) || last_name(path) == seq!['.', '.'] || path == seq!['.']
    &&& 1 < at <= path.len() ==> plain_folder(path.take(at - 1))
}

/// A path by names: a name, a name in the root, or a name in a folder by names.
pub open spec fn plain_path(path: Seq<char>) -> bool {
    let at = behind_last(path, '/');
    &&& plain_name(last_name(path))
    &&& 1 < at ==> plain_folder(path.take(at - 1))
}

/// A name without its extension.
pub open spec fn stem(name: Seq<char>) -> Seq<char> {
    let at = behind_last(name, '.');
    if at <= 1 {
        name
    } else {
        name.take(at - 1)
    }
}

/// What stands behind the last dot of a name.
pub open spec fn name_extension(name: Seq<char>) -> Option<Seq<char>> {
    let at = behind_last(name, '.');
    if at <= 1 {
        None
    } else {
        Some(name.skip(at))
    }
}

/// Whether a path is that of a name in a folder. Behind a folder that does not end in a separator
/// one is written, and machines write one or the other. What begins with a backslash is taken
/// apart anew on some machines.
pub open spec fn is_joined(base: Seq<char>, name: Seq<char>, path: Seq<char>) -> bool {
    &&& ends_in(path, name)
    &&& base.len() == 0 ==> path == name
    &&& base.len() > 0 && base[0] != '\\' && base.last() == '/' ==> path == base + name
    &&& base.len() > 0 && base[0] != '\\' ==> path == base + name || path == base.push('/') + name
        || path == base.push('\\') + name
    &&& plain_folder(base) ==> path == base.push('/') + name || path == base.push('\\') + name
}

/// Whether a path is that of a name beside a file: in the same folder, or the name alone.
pub open spec fn is_beside(file: Seq<char>, name: Seq<char>, path: Seq<char>) -> bool {
    &&& ends_in(path, name)
    &&& plain_path(file) ==> is_joined(folder(file), name, path)
}

/// What the last name in a path may be.
pub open spec fn is_file_name(path: Seq<char>, name: Option<Seq<char>>) -> bool {
    plain_path(path) ==> name == Some(last_name(path))
}

/// What the folder of a path may be: what the path begins with, on every machine.
pub open spec fn is_parent(path: Seq<char>, dir: Option<Seq<char>>) -> bool {
    &&& plain_path(path) ==> dir == Some(folder(path))
    &&& dir matches Some(d) ==> d.len() < path.len() && d == path.take(d.len() as int)
}

/// Whether a character parts names on some machine.
pub open spec fn parts_names(c: char) -> bool {
    c == '/' || c == '\\' || c == ':'
}

/// Whether a text is nothing, or a dot and an extension.
pub open spec fn is_dotted(text: Seq<char>) -> bool {
    text.len() > 0 ==> text[0] == '.' && forall|i: int|
        1 <= i < text.len() ==> #[trigger] text[i] != '.'
}

/// Whether a text behind the last name of a path is no name: separators, and dots for the same
/// folder.
pub open spec fn is_trail(text: Seq<char>) -> bool {
    text.len() > 0 ==> text[0] != '.' && forall|i: int|
        0 <= i < text.len() ==> #[trigger] text[i] == '/' || text[i] == '\\' || text[i] == '.'
}

/// Whether a text is what stands in a path from one place on, behind what parts names, with no more
/// than an extension up to another place, and with no name behind it.
pub open spec fn stands_last(path: Seq<char>, text: Seq<char>, at: int, to: int) -> bool {
    &&& 0 <= at <= at + text.len() <= to <= path.len()
    &&& path.subrange(at, at + text.len()) == text
    &&& at > 0 ==> parts_names(path[at - 1])
    &&& is_dotted(path.subrange(at + text.len(), to))
    &&& is_trail(path.skip(to))
}

/// What the last name in a path without its extension may be: it stands last in the path, on every
/// machine.
pub open spec fn is_file_stem(path: Seq<char>, name: Option<Seq<char>>) -> bool {
    &&& plain_path(path) ==> name == Some(stem(last_name(path)))
    &&& name matches Some(n) ==> exists|at: int, to: int| stands_last(path, n, at, to)
}

/// What the extension of the last name in a path may be: it holds no dot, on every machine.
pub open spec fn is_extension(path: Seq<char>, name: Option<Seq<char>>) -> bool {
    &&& plain_path(path) ==> name == name_extension(last_name(path))
    &&& name matches Some(e) ==> forall|i: int| 0 <= i < e.len() ==> #[trigger] e[i] != '.'
}

/// `Path::file_name`: the last name in a path, which stands behind the last separator. Of a path
/// that is not by names nothing is said: a backslash separates on some machines and is part
/// of a name on others, a colon ends the name of a drive on some, and a path can end in a
/// separator or lead to the folder above.
#[verifier::external_body]
pub(crate) fn file_name(path: &str) -> (name: Option<String>)
    ensures
        is_file_name(path@, optional(name)),
{
    match std::path::Path::new(path).file_name() {
        Some(name) => Some(name.to_string_lossy().to_string()),
        None => None,
    }
}

/// `Path::file_stem`: the last name in a path up to its last dot, or the whole of it where that
/// dot is its first character or there is none. Which name is the last is said of paths by names;
/// of every path, that the stem stands in it with no other name behind it.
#[verifier::external_body]
pub(crate) fn file_stem(path: &str) -> (name: Option<String>)
    ensures
        is_file_stem(path@, optional(name)),
{
    match std::path::Path::new(path).file_stem() {
        Some(name) => Some(name.to_string_lossy().to_string()),
        None => None,
    }
}

/// `Path::extension`: what stands behind the last dot of the last name in a path, unless that dot
/// is its first character. Which name is the last is said of paths by names; of every path, that
/// the extension holds no dot.
#[verifier::external_body]
pub(crate) fn extension(path: &str) -> (name: Option<String>)
    ensures
        is_extension(path@, optional(name)),
{
    match std::path::Path::new(path).extension() {
        Some(name) => Some(name.to_string_lossy().to_string()),
        None => None,
    }
}

/// `Path::parent`: the path without its last name; nothing is left of a name alone. Which name is
/// the last is said of paths by names; of every path, that what is left is its beginning.
#[verifier::external_body]
pub(crate) fn parent(path: &str) -> (dir: Option<String>)
    ensures
        is_parent(path@, optional(dir)),
{
    match std::path::Path::new(path).parent() {
        Some(dir) => Some(dir.to_string_lossy().to_string()),
        None => None,
    }
}

/// `Path::join`: a path with a name adjoined to it, with a separator between them where one is
/// needed. Said of names that have no meaning of their own in a path.
#[verifier::external_body]
pub(crate) fn join(base: &str, name: &str) -> (path: String)
    ensures
        plain_name(name@) ==> is_joined(base@, name@, path@),
{
    std::path::Path::new(base).join(name).to_string_lossy().to_string()
}

/// `Path::with_file_name`: the path with another last name, which is then beside the one that it
/// had. Said of names that have no meaning of their own in a path; where they stand, of paths by
/// names.
#[verifier::external_body]
pub(crate) fn with_file_name(path: &str, name: &str) -> (other: String)
    ensures
        plain_name(name@) ==> is_beside(path@, name@, other@),
{
    std::path::Path::new(path).with_file_name(name).to_string_lossy().to_string()
}

/// A path by names is its last name in its folder, which is one by names, the root, or none at all.
pub proof fn plain_path_is_folder_and_name(path: Seq<char>)
    requires
        plain_path(path),
    ensures
        plain_name(last_name(path)),
        folder(path).len() == 0 || folder(path) == seq!['/'] || plain_folder(folder(path)),
        is_joined(folder(path), last_name(path), path),
{
    lemma_behind_last(path, '/');
    let at = behind_last(path, '/');
    let name = last_name(path);
    let dir = folder(path);
    assert(ends_in(path, name)) by {
        assert(path.skip(path.len() - name.len()) =~= name);
    }
    if at == 0 {
        assert(path =~= name);
        lemma_no_plain_folder(dir);
    } else if at == 1 {
        assert(dir =~= seq!['/']);
        assert(path =~= dir + name);
        lemma_no_plain_folder(dir);
    } else {
        assert(path =~= dir.push('/') + name);
        lemma_last_of_plain(dir);
    }
}

proof fn lemma_no_plain_folder(dir: Seq<char>)
    requires
        dir.len() == 0 || dir == seq!['/'],
    ensures
        !plain_folder(dir),
{
    if dir.len() > 0 {
        assert(dir.last() == '/');
    }
    assert(last_name(dir).len() == 0);
    assert(seq!['.', '.'].len() == 2 && seq!['.'][0] == '.' && seq!['.'].len() == 1);
}

/// A folder by names does not end in a separator.
proof fn lemma_last_of_plain(path: Seq<char>)
    requires
        plain_folder(path),
    ensures
        path.len() > 0,
        path.last() != '/',
{
    lemma_behind_last(path, '/');
    let at = behind_last(path, '/');
    assert(last_name(path).len() > 0);
    assert(path[path.len() - 1] != '/');
}

/// A path beside another under a longer name is another path.
pub proof fn longer_name_is_elsewhere(path: Seq<char>, name: Seq<char>, other: Seq<char>)
    requires
        plain_path(path),
        name.len() > last_name(path).len(),
        is_joined(folder(path), name, other),
    ensures
        other.len() > path.len(),
        other != path,
{
    plain_path_is_folder_and_name(path);
    lemma_behind_last(path, '/');
}

/// A path that ends in a longer name of the same stem, which ends in an extension, is not the path
/// that the stem stands in.
pub proof fn longer_name_is_another(
    path: Seq<char>,
    stem: Seq<char>,
    middle: Seq<char>,
    extension: Seq<char>,
    other: Seq<char>,
)
    requires
        is_file_stem(path, Some(stem)),
        plain_name(stem + middle + seq!['.'] + extension),
        middle.len() > 0,
        extension.len() > 0,
        forall|i: int| 0 <= i < extension.len() ==> #[trigger] extension[i] != '.',
        ends_in(other, stem + middle + seq!['.'] + extension),
    ensures
        other != path,
{
    let name = stem + middle + seq!['.'] + extension;
    let (at, to) = choose|at: int, to: int| stands_last(path, stem, at, to);
    if other == path {
        let n = path.len() as int;
        let from = n - name.len();
        assert(path.skip(from) =~= name);
        assert forall|j: int| from <= j < n implies #[trigger] path[j] == name[j - from] by {
            assert(path.skip(from)[j - from] == path[j]);
        }
        assert forall|j: int| from <= j < n implies plain_char(#[trigger] path[j]) by {
            assert(path[j] == name[j - from]);
        }
        // Nothing follows the name, since the extension ends in no separator and no dot.
        assert(path[n - 1] == extension[extension.len() - 1]);
        if to < n {
            let trail = path.skip(to);
            assert(trail[n - 1 - to] == path[n - 1]);
            assert(plain_char(path[n - 1]));
        }
        assert(to == n);
        let rest = path.subrange(at + stem.len(), to);
        let dot = n - extension.len() - 1;
        assert(path[dot] == name[dot - from]);
        assert(name[dot - from] == '.');
        // What follows the stem is no longer than a dot and the extension.
        if rest.len() > extension.len() + 1 {
            let k = dot - (at + stem.len());
            assert(rest[k] == path[dot]);
            assert(k >= 1);
        }
        assert(at > from);
        assert(plain_char(path[at - 1]));
    }
}

/// The stem of a plain name is not empty, and it and the extension are of plain characters and
/// together no longer than the name.
pub proof fn lemma_name_parts_plain(name: Seq<char>)
    requires
        plain_name(name),
    ensures
        0 < stem(name).len(),
        forall|i: int| 0 <= i < stem(name).len() ==> plain_char(#[trigger] stem(name)[i]),
        name_extension(name) matches Some(e) ==> stem(name).len() + 1 + e.len() == name.len()
            && forall|i: int| 0 <= i < e.len() ==> plain_char(#[trigger] e[i]),
        name_extension(name) is None ==> stem(name) == name,
{
    lemma_behind_last(name, '.');
    let at = behind_last(name, '.');
    let a = stem(name);
    assert forall|i: int| 0 <= i < a.len() implies plain_char(#[trigger] a[i]) by {
        assert(a[i] == name[i]);
    }
    if let Some(e) = name_extension(name) {
        assert forall|i: int| 0 <= i < e.len() implies plain_char(#[trigger] e[i]) by {
            assert(e[i] == name[at + i]);
        }
    }
}

proof fn lemma_behind_last(text: Seq<char>, c: char)
    ensures
        0 <= behind_last(text, c) <= text.len(),
        behind_last(text, c) > 0 ==> text[behind_last(text, c) - 1] == c,
        forall|i: int| behind_last(text, c) <= i < text.len() ==> #[trigger] text[i] != c,
    decreases text.len(),
{
    if text.len() > 0 && text.last() != c {
        let front = text.drop_last();
        lemma_behind_last(front, c);
        assert forall|i: int| behind_last(text, c) <= i < text.len() implies #[trigger] text[i]
            != c by {
            if i < text.len() - 1 {
                assert(front[i] == text[i]);
            }
        }
    }
}

} // verus!
