//! Slash-separated file paths as text.
use crate::text::{
    chars_of, concat2, concat3, lemma_pieces_append, lemma_pieces_push, lemma_rfind, opt_str, pieces, push_text, rfind, rsplit_once,
    same_text, slices, split_all, texts,
};
use vstd::prelude::*;

verus! {

/// `path` extended by `tail`: an absolute tail replaces the path, and a
/// separator is put between where the path does not end in one.
pub open spec fn joined_path(path: Seq<char>, tail: Seq<char>) -> Seq<char> {
    if tail.len() > 0 && tail[0] == '/' {
        tail
    } else if path.len() == 0 || path.last() == '/' {
        path + tail
    } else {
        path + "/"@ + tail
    }
}

/// `path` extended by `tail`.
pub fn join_path(path: &str, tail: &str) -> (r: String)
    ensures
        r@ == joined_path(path@, tail@),
{
    let tail_len: usize = tail.unicode_len();
    let path_len: usize = path.unicode_len();
    if tail_len > 0 && tail.get_char(0) == '/' {
        tail.to_owned()
    } else if path_len == 0 || path.get_char(path_len - 1) == '/' {
        concat2(path, tail)
    } else {
        concat3(path, "/", tail)
    }
}

/// `path` without trailing separators and trailing current-directory steps.
pub open spec fn path_trimmed(path: Seq<char>) -> Seq<char>
    decreases path.len(),
{
    if path.len() > 1 && path.last() == '/' {
        path_trimmed(path.drop_last())
    } else if path.len() >= 2 && path.last() == '.' && path[path.len() - 2] == '/' {
        path_trimmed(path.drop_last())
    } else {
        path
    }
}

fn trim_path<'a>(path: &'a str) -> (r: &'a str)
    ensures
        r@ == path_trimmed(path@),
{
    let chars: Vec<char> = chars_of(path);
    let mut end: usize = chars.len();
    assert(path@.take(end as int) =~= path@);
    while end > 1 && (chars[end - 1] == '/' || (chars[end - 1] == '.' && chars[end - 2] == '/'))
        invariant
            end <= chars.len(),
            chars@ == path@,
            path_trimmed(path@) == path_trimmed(path@.take(end as int)),
        decreases end,
    {
        assert(path@.take(end as int).drop_last() =~= path@.take(end - 1));
        end = end - 1;
    }
    let r: &'a str = path.substring_char(0, end);
    assert(r@ =~= path@.take(end as int));
    r
}

/// The last component of a path, where that is a name.
pub open spec fn file_name_of(path: Seq<char>) -> Option<Seq<char>> {
    let trimmed = path_trimmed(path);
    let name = trimmed.skip(rfind(trimmed, '/') + 1);
    if name.len() == 0 || name == "."@ || name == ".."@ {
        None
    } else {
        Some(name)
    }
}

/// The path without its last component; nothing for the root and for the
/// empty path.
pub open spec fn parent_of(path: Seq<char>) -> Option<Seq<char>> {
    let trimmed = path_trimmed(path);
    if trimmed.len() == 0 || trimmed == "/"@ {
        None
    } else {
        Some(path_trimmed(trimmed.take(rfind(trimmed, '/') + 1)))
    }
}

/// The position after the last separator of a text.
fn after_last_slash(path: &str) -> (r: usize)
    ensures
        r == rfind(path@, '/') + 1,
        r <= path@.len(),
{
    let chars: Vec<char> = chars_of(path);
    proof {
        lemma_rfind(path@, '/');
    }
    let mut i: usize = chars.len();
    while i > 0 && chars[i - 1] != '/'
        invariant
            i <= chars.len(),
            chars@ == path@,
            forall|j: int| i <= j < chars.len() ==> path@[j] != '/',
        decreases i,
    {
        i = i - 1;
    }
    i
}

/// The last component of a path, where that is a name.
pub fn file_name<'a>(path: &'a str) -> (r: Option<&'a str>)
    ensures
        opt_str(r) == file_name_of(path@),
{
    let trimmed: &'a str = trim_path(path);
    let start: usize = after_last_slash(trimmed);
    let name: &'a str = trimmed.substring_char(start, trimmed.unicode_len());
    assert(name@ =~= trimmed@.skip(start as int));
    if name.is_empty() || same_text(name, ".") || same_text(name, "..") {
        None
    } else {
        Some(name)
    }
}

/// The path without its last component.
pub fn parent<'a>(path: &'a str) -> (r: Option<&'a str>)
    ensures
        opt_str(r) == parent_of(path@),
{
    let trimmed: &'a str = trim_path(path);
    if trimmed.is_empty() || same_text(trimmed, "/") {
        return None;
    }
    let end: usize = after_last_slash(trimmed);
    let directory: &'a str = trimmed.substring_char(0, end);
    assert(directory@ =~= trimmed@.take(end as int));
    Some(trim_path(directory))
}

/// A file name without its extension: what stands before the last dot, unless
/// that dot is the first character.
pub open spec fn stem_of(name: Seq<char>) -> Seq<char> {
    let i = rfind(name, '.');
    if i <= 0 {
        name
    } else {
        name.take(i)
    }
}

/// The extension of a file name: what stands after the last dot, unless that
/// dot is the first character.
pub open spec fn extension_of(name: Seq<char>) -> Option<Seq<char>> {
    let i = rfind(name, '.');
    if i <= 0 {
        None
    } else {
        Some(name.skip(i + 1))
    }
}

/// A file name without its extension.
pub fn file_stem<'a>(name: &'a str) -> (r: &'a str)
    ensures
        r@ == stem_of(name@),
{
    proof {
        lemma_rfind(name@, '.');
    }
    match rsplit_once(name, '.') {
        Some((before, _)) => {
            assert(before@ == name@.take(rfind(name@, '.')));
            if before.is_empty() {
                name
            } else {
                before
            }
        },
        None => name,
    }
}

/// The extension of a file name.
pub fn extension<'a>(name: &'a str) -> (r: Option<&'a str>)
    ensures
        opt_str(r) == extension_of(name@),
{
    proof {
        lemma_rfind(name@, '.');
    }
    match rsplit_once(name, '.') {
        Some((before, after)) => {
            assert(before@ == name@.take(rfind(name@, '.')));
            if before.is_empty() {
                None
            } else {
                Some(after)
            }
        },
        None => None,
    }
}

/// Whether the `i`-th piece of a path between separators is a component:
/// neither empty nor a current-directory step after the start.
pub open spec fn is_component(piece: Seq<char>, i: int) -> bool {
    piece.len() > 0 && (piece != "."@ || i == 0)
}

/// The components among the first `n` pieces of a path.
pub open spec fn components_upto(list: Seq<Seq<char>>, n: int) -> Seq<Seq<char>>
    decreases n,
{
    if n <= 0 {
        seq![]
    } else if is_component(list[n - 1], n - 1) {
        components_upto(list, n - 1).push(list[n - 1])
    } else {
        components_upto(list, n - 1)
    }
}

/// The components of a path: the root where it is absolute, then the names.
pub open spec fn components_of(path: Seq<char>) -> Seq<Seq<char>> {
    let list = pieces(path, '/');
    let names = components_upto(list, list.len() as int);
    if path.len() > 0 && path[0] == '/' {
        seq!["/"@] + names
    } else {
        names
    }
}

/// The components of a path.
pub fn components(path: &str) -> (r: Vec<String>)
    ensures
        texts(r@) == components_of(path@),
{
    let list: Vec<&str> = split_all(path, '/');
    let mut r: Vec<String> = Vec::new();
    let absolute: bool = path.unicode_len() > 0 && path.get_char(0) == '/';
    let ghost root: Seq<Seq<char>> = if absolute { seq!["/"@] } else { seq![] };
    assert(texts(r@) =~= seq![]);
    if absolute {
        push_text(&mut r, "/");
        assert(texts(r@) =~= root);
    }
    let mut i: usize = 0;
    assert(texts(r@) =~= root + components_upto(slices(list@), 0));
    while i < list.len()
        invariant
            i <= list.len(),
            texts(r@) == root + components_upto(slices(list@), i as int),
        decreases list.len() - i,
    {
        let piece: &str = list[i];
        assert(slices(list@)[i as int] == piece@);
        if !piece.is_empty() && (i == 0 || !same_text(piece, ".")) {
            push_text(&mut r, piece);
            assert(texts(r@) =~= root + components_upto(slices(list@), i + 1));
        }
        i = i + 1;
    }
    assert(seq![] + components_of(path@) =~= components_of(path@));
    assert(root + components_upto(slices(list@), list.len() as int) =~= components_of(path@));
    r
}

/// Whether a text is the name of a file or directory: not empty, without a separator
/// and no directory step.
pub open spec fn is_plain_name(name: Seq<char>) -> bool {
    name.len() > 0 && !name.contains('/') && name != "."@ && name != ".."@
}

/// Joining a relative path to a path keeps both, with one separator between them
/// where the path is not empty; an absolute path replaces the other.
pub proof fn law_joining_keeps_both(path: Seq<char>, tail: Seq<char>)
    ensures
        tail.len() > 0 && tail[0] == '/' ==> joined_path(path, tail) == tail,
        !(tail.len() > 0 && tail[0] == '/') ==> {
            &&& path.is_prefix_of(joined_path(path, tail))
            &&& tail.is_suffix_of(joined_path(path, tail))
            &&& path.len() == 0 ==> joined_path(path, tail) == tail
            &&& path.len() > 0 ==> joined_path(path, tail)[joined_path(path, tail).len()
                - tail.len() - 1] == '/'
            &&& joined_path(path, tail).len() <= path.len() + tail.len() + 1
        },
{
    reveal_strlit("/");
    if !(tail.len() > 0 && tail[0] == '/') {
        let whole = joined_path(path, tail);
        assert(whole.take(path.len() as int) =~= path);
        assert(path.is_prefix_of(whole));
        assert(whole.skip(whole.len() - tail.len()) =~= tail);
        if path.len() == 0 {
            assert(whole =~= tail);
        }
    }
}

proof fn lemma_name_ends_path(dir: Seq<char>, name: Seq<char>)
    requires
        is_plain_name(name),
        dir.len() == 0 || dir.last() == '/',
    ensures
        path_trimmed(dir + name) == dir + name,
        rfind(dir + name, '/') == dir.len() - 1,
{
    let path = dir + name;
    reveal_strlit(".");
    lemma_rfind(path, '/');
    assert(path.last() == name.last());
    assert(name.contains(name.last()));
    if path.len() >= 2 && path.last() == '.' && path[path.len() - 2] == '/' {
        if name.len() >= 2 {
            assert(name[name.len() - 2] == '/');
            assert(name.contains(name[name.len() - 2]));
        } else {
            assert(name =~= "."@);
        }
    }
    let i = rfind(path, '/');
    if i >= dir.len() {
        assert(name[i - dir.len()] == '/');
        assert(name.contains(name[i - dir.len()]));
    }
    if dir.len() > 0 {
        assert(path[dir.len() - 1] == '/');
    }
}

/// The file name of a path is the name that was joined to its directory, and the
/// parent of that path is the directory.
pub proof fn law_name_and_parent_undo_joining(dir: Seq<char>, name: Seq<char>)
    requires
        is_plain_name(name),
    ensures
        file_name_of(joined_path(dir, name)) == Some(name),
        parent_of(joined_path(dir, name)) == Some(path_trimmed(joined_path(dir, seq![]))),
        dir.len() > 0 && path_trimmed(dir) == dir ==> parent_of(joined_path(dir, name)) == Some(dir),
{
    reveal_strlit("/");
    reveal_strlit(".");
    assert(name.contains(name[0]));
    let head = joined_path(dir, seq![]);
    let path = joined_path(dir, name);
    assert(path =~= head + name);
    assert(head.len() == 0 || head.last() == '/');
    lemma_name_ends_path(head, name);
    assert(path.skip(head.len() as int) =~= name);
    assert(path.take(head.len() as int) =~= head);
    if path == "/"@ {
        assert(path.last() == name.last());
        assert(name.contains(name.last()));
    }
    if dir.len() > 0 && path_trimmed(dir) == dir {
        if dir.last() == '/' {
            if dir.len() > 1 {
                lemma_trimmed_is_shorter(dir.drop_last());
            }
            assert(head =~= dir);
        } else {
            assert(head =~= dir.push('/'));
            assert(head.drop_last() =~= dir);
        }
    }
}

proof fn lemma_trimmed_is_shorter(path: Seq<char>)
    ensures
        path_trimmed(path).len() <= path.len(),
    decreases path.len(),
{
    if path.len() > 1 && path.last() == '/' {
        lemma_trimmed_is_shorter(path.drop_last());
    } else if path.len() >= 2 && path.last() == '.' && path[path.len() - 2] == '/' {
        lemma_trimmed_is_shorter(path.drop_last());
    }
}

/// A name is its stem, or its stem, a dot and its extension. The extension holds no
/// dot, and the stem is not empty unless the name is.
pub proof fn law_stem_and_extension_make_up_the_name(name: Seq<char>)
    ensures
        extension_of(name) is None ==> stem_of(name) == name,
        extension_of(name) matches Some(extension) ==> name == stem_of(name) + seq!['.'] + extension
            && !extension.contains('.') && stem_of(name).len() > 0,
        extension_of(name) is None <==> !name.skip(1).contains('.') || name.len() == 0,
{
    lemma_rfind(name, '.');
    let i = rfind(name, '.');
    if i > 0 {
        assert(name =~= name.take(i) + seq!['.'] + name.skip(i + 1));
        assert(name.skip(1)[i - 1] == '.');
    } else if name.len() > 0 && name.skip(1).contains('.') {
        let k = name.skip(1).index_of('.');
        assert(name[k + 1] == '.');
    }
}

proof fn lemma_components_prefix(a: Seq<Seq<char>>, b: Seq<Seq<char>>, n: int)
    requires
        0 <= n <= a.len(),
        n <= b.len(),
        forall|i: int| 0 <= i < n ==> a[i] == b[i],
    ensures
        components_upto(a, n) == components_upto(b, n),
    decreases n,
{
    if n > 0 {
        lemma_components_prefix(a, b, n - 1);
    }
}

/// A step behind a path is one more component, unless it is one to the current
/// directory.
pub proof fn lemma_components_grow_by_a_step(path: Seq<char>, name: Seq<char>)
    requires
        path.len() > 0,
        name.len() > 0,
        !name.contains('/'),
        name != "."@,
    ensures
        components_of(path + seq!['/'] + name) == components_of(path).push(name),
{
    let none = Seq::<char>::empty();
    let whole = path + seq!['/'] + name;
    let stem = path.push('/');
    assert(whole =~= stem + name);
    lemma_pieces_push(path, '/');
    lemma_pieces_append(stem, name, '/');
    let list = pieces(path, '/');
    let longer = pieces(whole, '/');
    assert(none + name =~= name);
    assert(longer =~= list.push(name));
    lemma_components_prefix(longer, list, list.len() as int);
    assert(is_component(name, list.len() as int));
    assert(components_upto(longer, longer.len() as int) == components_upto(
        list,
        list.len() as int,
    ).push(name));
    assert(whole[0] == path[0]);
    assert(components_of(whole) =~= components_of(path).push(name));
}

/// The components of a path with a name behind it are those of the path and the
/// name; a plain name is its own only component.
pub proof fn law_components_grow_by_a_name(path: Seq<char>, name: Seq<char>)
    requires
        is_plain_name(name),
    ensures
        components_of(name) == seq![name],
        path.len() > 0 ==> components_of(path + seq!['/'] + name) == components_of(path).push(name),
{
    assert(name.contains(name[0]));
    lemma_pieces_append(Seq::<char>::empty(), name, '/');
    let none = Seq::<char>::empty();
    assert(pieces(none, '/') =~= seq![none]);
    assert(none + name =~= name);
    assert(pieces(name, '/') =~= seq![name]);
    reveal_with_fuel(components_upto, 2);
    assert(components_upto(seq![name], 1) =~= seq![name]);
    if path.len() > 0 {
        lemma_components_grow_by_a_step(path, name);
    }
}

} // verus!
