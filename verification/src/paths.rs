//! Paths: their components, how they are joined and how they are normalized.

use std::path::{Path, PathBuf};
use vstd::prelude::*;
use vstd::utf8::{encode_utf8, is_ascii_chars, is_ascii_chars_encode_utf8};

verus! {

broadcast use vstd::string::group_string_axioms;

/// `std::path::Path`, whose components are named by `path_parts`.
#[verifier::external_type_specification]
#[verifier::external_body]
pub struct ExPath(Path);

/// `std::path::PathBuf`, which stands for the path `path_of` it.
#[verifier::external_type_specification]
#[verifier::external_body]
pub struct ExPathBuf(PathBuf);

/// A component of a path. The text of a name is its encoding in bytes, which
/// on valid Unicode is UTF-8.
pub enum PartV {
    Prefix(Seq<u8>),
    RootDir,
    CurDir,
    ParentDir,
    Normal(Seq<u8>),
}

/// The components of a path.
pub uninterp spec fn path_parts(p: &Path) -> Seq<PartV>;

/// The path that a path buffer holds.
pub uninterp spec fn path_of(p: &PathBuf) -> &Path;

/// The components of the path that a path buffer holds.
pub open spec fn buf_parts(p: PathBuf) -> Seq<PartV> {
    path_parts(path_of(&p))
}

/// `PathBuf::as_path`: the path that the buffer holds.
#[verifier::external_body]
pub(crate) fn as_path(p: &PathBuf) -> (r: &Path)
    ensures
        r == path_of(p),
{
    p.as_path()
}

/// `PathBuf::clone`: the same path.
pub assume_specification[ <PathBuf as Clone>::clone ](p: &PathBuf) -> (r: PathBuf)
    ensures
        r == *p,
;

/// `Path::to_path_buf`: a buffer that holds the path.
#[verifier::external_body]
pub(crate) fn to_buf(p: &Path) -> (r: PathBuf)
    ensures
        path_of(&r) == p,
{
    p.to_path_buf()
}

/// A name that no platform could read differently on its own: it has no colon
/// behind its first byte, which would look like a drive, and no slash, which a
/// name may hold behind some Windows prefixes.
pub open spec fn unmistakable(name: Seq<u8>) -> bool {
    !(name.len() >= 2 && name[1] == 58u8) && !name.contains(47u8)
}

/// The component is no Windows prefix, and where it is a name its text is, on its
/// own, a path with this one component. On Unix every component is steady; an
/// unmistakable name is steady everywhere.
pub open spec fn steady(part: PartV) -> bool {
    match part {
        PartV::Prefix(_) => false,
        PartV::Normal(name) => unmistakable(name) || path_parts(part_path(part)) == seq![part],
        _ => true,
    }
}

/// All components are steady: none is a Windows prefix or could be taken for one.
pub open spec fn prefix_free(parts: Seq<PartV>) -> bool {
    forall|i: int| 0 <= i < parts.len() ==> steady(#[trigger] parts[i])
}

/// All components are steady, and the root directory is not among them.
pub open spec fn rootless(parts: Seq<PartV>) -> bool {
    forall|i: int| 0 <= i < parts.len() ==> steady(#[trigger] parts[i]) && !(parts[i] is RootDir)
}

/// The path that the text of a component spells.
pub uninterp spec fn part_path(part: PartV) -> &'static Path;

/// Whether a path is absolute, by the rules of the platform.
pub uninterp spec fn path_absolute(p: &Path) -> bool;

/// One component, with its text as a path of its own.
pub(crate) enum Part {
    Prefix(PathBuf),
    RootDir(PathBuf),
    CurDir,
    ParentDir,
    Normal(PathBuf),
}

impl Part {
    /// The component that `self` stands for.
    pub(crate) closed spec fn is(self, part: PartV) -> bool {
        match self {
            Part::Prefix(p) => part is Prefix && path_of(&p) == part_path(part),
            Part::RootDir(p) => {
                &&& part is RootDir
                &&& path_of(&p) == part_path(part)
                &&& buf_parts(p) == seq![part]
            },
            Part::CurDir => part is CurDir,
            Part::ParentDir => part is ParentDir,
            Part::Normal(p) => {
                &&& part is Normal
                &&& path_of(&p) == part_path(part)
                &&& unmistakable(part->Normal_0) ==> buf_parts(p) == seq![part]
            },
        }
    }
}

/// `Path::components`: the components, one by one, each with its text, which
/// `Component::as_os_str` gives. The root directory comes before anything but a
/// prefix. The text of the root directory, and that of an unmistakable name, is a
/// path with this one component. A path without prefix is absolute where it begins
/// with a root directory that is absolute by itself.
#[verifier::external_body]
pub(crate) fn components(path: &Path) -> (r: Vec<Part>)
    ensures
        r@.len() == path_parts(path).len(),
        forall|i: int|
            0 <= i < r@.len() ==> (#[trigger] r@[i]).is(path_parts(path)[i]),
        forall|i: int, j: int|
            #![trigger r@[i], r@[j]]
            0 <= i < j < r@.len() && r@[j] is RootDir ==> r@[i] is Prefix,
        prefix_free(path_parts(path)) ==> path_absolute(path) == (r@.len() > 0 && r@[0] is RootDir
            && path_absolute(part_path(PartV::RootDir))),
{
    path.components().map(|component| match component {
        std::path::Component::Prefix(prefix) => Part::Prefix(PathBuf::from(prefix.as_os_str())),
        std::path::Component::RootDir => Part::RootDir(PathBuf::from(component.as_os_str())),
        std::path::Component::CurDir => Part::CurDir,
        std::path::Component::ParentDir => Part::ParentDir,
        std::path::Component::Normal(part) => Part::Normal(PathBuf::from(part)),
    }).collect()
}

/// The path that is there when one path is pushed behind another.
pub uninterp spec fn path_pushed(path: &Path, part: &Path) -> &'static Path;

/// `PathBuf::push`: a function of the two paths alone. Of a single component it
/// says more, as on Unix: a name goes behind what is there, which stays absolute
/// where it is, and the root directory on an empty path is the root directory.
#[verifier::external_body]
pub(crate) fn push(path: &mut PathBuf, part: &PathBuf)
    ensures
        path_of(final(path)) == path_pushed(path_of(old(path)), path_of(part)),
        buf_parts(*part).len() == 1 && buf_parts(*part)[0] is Normal ==> {
            &&& buf_parts(*final(path)) == buf_parts(*old(path)) + buf_parts(*part)
            &&& path_absolute(path_of(final(path))) == path_absolute(path_of(old(path)))
        },
        buf_parts(*part).len() == 1 && buf_parts(*part)[0] is RootDir && buf_parts(
            *old(path),
        ).len() == 0 ==> path_of(final(path)) == path_of(part),
{
    path.push(part)
}

/// The components without the last one, unless that is a prefix or the root
/// directory.
pub open spec fn parent_parts(parts: Seq<PartV>) -> Seq<PartV> {
    if parts.len() > 0 && !(parts.last() is Prefix) && !(parts.last() is RootDir) {
        parts.drop_last()
    } else {
        parts
    }
}

/// The path without its last component.
pub uninterp spec fn path_popped(path: &Path) -> &'static Path;

/// `PathBuf::pop`: a function of the path alone. It drops the last component, but
/// for a prefix, the root directory and the empty path, which stay. What is
/// absolute stays so.
#[verifier::external_body]
pub(crate) fn pop(path: &mut PathBuf)
    ensures
        path_of(final(path)) == path_popped(path_of(old(path))),
        buf_parts(*final(path)) == parent_parts(buf_parts(*old(path))),
        path_absolute(path_of(final(path))) == path_absolute(path_of(old(path))),
{
    path.pop();
}

/// The components with every `.` dropped and every `..` taken together with the
/// name in front of it; a `..` with nothing to go up from is dropped.
pub open spec fn normalized(parts: Seq<PartV>) -> Seq<PartV>
    decreases parts.len(),
{
    if parts.len() == 0 {
        Seq::empty()
    } else {
        let before = normalized(parts.drop_last());
        match parts.last() {
            PartV::CurDir => before,
            PartV::ParentDir => parent_parts(before),
            part => before.push(part),
        }
    }
}

/// The normal form of a path with these components: they are pushed one by one
/// onto an empty path, but for every `.`, and a `..` pops what is there.
pub open spec fn normal_path(parts: Seq<PartV>) -> &'static Path
    decreases parts.len(),
{
    if parts.len() == 0 {
        text_path(Seq::empty())
    } else {
        let before = normal_path(parts.drop_last());
        match parts.last() {
            PartV::CurDir => before,
            PartV::ParentDir => path_popped(before),
            part => path_pushed(before, part_path(part)),
        }
    }
}

/// Normalizes a path by its components alone, without looking at the disk. What
/// the components of the normal form are, and that it is absolute where the path
/// is, is said of every path whose components are steady, which on Unix is every
/// path.
pub fn normalize_components(path: &Path) -> (r: PathBuf)
    ensures
        path_of(&r) == normal_path(path_parts(path)),
        prefix_free(path_parts(path)) ==> {
            &&& buf_parts(r) == normalized(path_parts(path))
            &&& path_absolute(path_of(&r)) == path_absolute(path)
        },
{
    let ghost all = path_parts(path);
    let ghost rooted = all.len() > 0 && all[0] is RootDir && path_absolute(
        part_path(PartV::RootDir),
    );
    let parts = components(path);
    assert(parts@.len() > 0 ==> parts@[0].is(all[0]));
    let mut result = path_from_text("");
    let mut i: usize = 0;
    proof {
        reveal_strlit("");
        assert(""@ =~= Seq::<char>::empty());
        assert(all.take(0) == Seq::<PartV>::empty());
    }
    while i < parts.len()
        invariant
            i <= parts@.len(),
            all == path_parts(path),
            rooted == (all.len() > 0 && all[0] is RootDir && path_absolute(
                part_path(PartV::RootDir),
            )),
            parts@.len() == all.len(),
            forall|k: int| 0 <= k < parts@.len() ==> (#[trigger] parts@[k]).is(all[k]),
            forall|k: int, j: int|
                #![trigger parts@[k], parts@[j]]
                0 <= k < j < parts@.len() && parts@[j] is RootDir ==> parts@[k] is Prefix,
            path_of(&result) == normal_path(all.take(i as int)),
            prefix_free(all) ==> buf_parts(result) == normalized(all.take(i as int)),
            prefix_free(all) ==> path_absolute(path_of(&result)) == (i > 0 && rooted),
        decreases parts@.len() - i,
    {
        assert(all.take(i + 1).drop_last() == all.take(i as int));
        assert(parts@[i as int].is(all[i as int]));
        match &parts[i] {
            Part::Prefix(text) => push(&mut result, text),
            Part::RootDir(text) => {
                assert(prefix_free(all) ==> i == 0) by {
                    if prefix_free(all) && i > 0 {
                        assert(parts@[0].is(all[0]));
                        assert(parts@[0] is Prefix);
                    }
                }
                push(&mut result, text);
                assert(prefix_free(all) ==> buf_parts(result) =~= normalized(all.take(i + 1)));
            },
            Part::CurDir => {},
            Part::ParentDir => pop(&mut result),
            Part::Normal(text) => push(&mut result, text),
        }
        i += 1;
    }
    assert(all.take(all.len() as int) == all);
    result
}

/// The first components of `path` are those of `base`.
pub open spec fn starts_with_parts(path: Seq<PartV>, base: Seq<PartV>) -> bool {
    base.len() <= path.len() && path.take(base.len() as int) == base
}

/// Whether one path begins with another, by the rules of the platform.
pub uninterp spec fn path_starts(path: &Path, base: &Path) -> bool;

/// `Path::starts_with`: a function of the two paths alone, which compares whole
/// components: a path starts with every path that has the same components, and of
/// paths without prefix the first components decide.
#[verifier::external_body]
pub(crate) fn path_starts_with(path: &PathBuf, base: &PathBuf) -> (r: bool)
    ensures
        r == path_starts(path_of(path), path_of(base)),
        buf_parts(*path) == buf_parts(*base) ==> r,
        prefix_free(buf_parts(*path)) && prefix_free(buf_parts(*base)) ==> r == starts_with_parts(
            buf_parts(*path),
            buf_parts(*base),
        ),
{
    path.starts_with(base)
}

/// Each of the two paths begins with the other.
pub open spec fn same_place(a: &Path, b: &Path) -> bool {
    path_starts(a, b) && path_starts(b, a)
}

/// Whether the two paths have the same components.
pub(crate) fn same_path(a: &PathBuf, b: &PathBuf) -> (r: bool)
    ensures
        r == same_place(path_of(a), path_of(b)),
        buf_parts(*a) == buf_parts(*b) ==> r,
        prefix_free(buf_parts(*a)) && prefix_free(buf_parts(*b)) ==> r == (buf_parts(*a)
            == buf_parts(*b)),
{
    let forth = path_starts_with(a, b);
    let back = path_starts_with(b, a);
    proof {
        let x = buf_parts(*a);
        let y = buf_parts(*b);
        assert(x.take(x.len() as int) == x);
        assert(y.take(y.len() as int) == y);
    }
    forth && back
}

/// `Path::is_absolute`: a function of the path alone. An absolute path has a
/// root.
#[verifier::external_body]
pub(crate) fn is_absolute(p: &Path) -> (r: bool)
    ensures
        r == path_absolute(p),
        r ==> !rootless(path_parts(p)),
{
    p.is_absolute()
}

/// The components without `.`.
pub open spec fn without_dots(parts: Seq<PartV>) -> Seq<PartV>
    decreases parts.len(),
{
    if parts.len() == 0 {
        Seq::empty()
    } else if parts.last() is CurDir {
        without_dots(parts.drop_last())
    } else {
        without_dots(parts.drop_last()).push(parts.last())
    }
}

/// The components of a path without root behind those of `base`: a `.` counts
/// only at the very beginning.
pub open spec fn joined_parts(base: Seq<PartV>, parts: Seq<PartV>) -> Seq<PartV> {
    if base.len() == 0 {
        parts
    } else {
        base + without_dots(parts)
    }
}

/// The path that is there when one path is joined to another.
pub uninterp spec fn path_joined(base: &Path, p: &Path) -> &'static Path;

/// `Path::join`: a function of the two paths alone. An absolute path takes the
/// place of `base`. One without root and prefix goes behind it, as on Unix, and
/// the result is absolute where `base` is.
#[verifier::external_body]
pub(crate) fn join(base: &Path, p: &Path) -> (r: PathBuf)
    ensures
        path_of(&r) == path_joined(base, p),
        path_absolute(p) ==> path_of(&r) == p,
        rootless(path_parts(p)) && prefix_free(path_parts(base)) ==> {
            &&& buf_parts(r) == joined_parts(path_parts(base), path_parts(p))
            &&& path_absolute(path_of(&r)) == path_absolute(base)
        },
{
    base.join(p)
}

/// The characters that a workspace key may hold.
pub open spec fn key_char(c: char) -> bool {
    crate::text::ascii_letter(c) || crate::text::ascii_digit(c) || c == '.' || c == '_' || c == '-'
}

/// The component that a text of key characters spells.
pub open spec fn key_part(s: Seq<char>) -> PartV {
    if s == seq!['.'] {
        PartV::CurDir
    } else if s == seq!['.', '.'] {
        PartV::ParentDir
    } else {
        PartV::Normal(encode_utf8(s))
    }
}

/// A text of key characters spells a component that is no Windows prefix and
/// could not be taken for one.
pub proof fn key_part_is_steady(s: Seq<char>)
    requires
        forall|i: int| 0 <= i < s.len() ==> key_char(#[trigger] s[i]),
    ensures
        steady(key_part(s)),
        prefix_free(seq![key_part(s)]),
        rootless(seq![key_part(s)]),
{
    let name = encode_utf8(s);
    assert(is_ascii_chars(s)) by {
        assert forall|i: int| 0 <= i < s.len() implies '\0' <= #[trigger] s[i] && s[i]
            <= '\u{7f}' by {
            assert(key_char(s[i]));
        }
    }
    is_ascii_chars_encode_utf8(s);
    assert(name.len() >= 2 ==> name[1] != 58u8) by {
        if name.len() >= 2 {
            assert(key_char(s[1]));
            assert(s[1] as u8 == name[1]);
        }
    }
    assert(!name.contains(47u8)) by {
        if name.contains(47u8) {
            let i = choose|i: int| 0 <= i < name.len() && name[i] == 47u8;
            assert(key_char(s[i]));
            assert(s[i] as u8 == name[i]);
        }
    }
}

/// The path that a text spells.
pub uninterp spec fn text_path(s: Seq<char>) -> &'static Path;

/// `PathBuf::from`: the path that the text spells. A text of ASCII letters,
/// digits, `.`, `_` and `-` spells a single component: `.` the current
/// directory, `..` the parent directory, any other a name. An empty text spells
/// the empty path, which has no components and is not absolute.
#[verifier::external_body]
pub(crate) fn path_from_text(s: &str) -> (r: PathBuf)
    ensures
        path_of(&r) == text_path(s@),
        s@.len() > 0 && (forall|i: int| 0 <= i < s@.len() ==> key_char(#[trigger] s@[i]))
            ==> buf_parts(r) == seq![key_part(s@)],
        s@.len() == 0 ==> buf_parts(r) == Seq::<PartV>::empty() && !path_absolute(path_of(&r)),
{
    PathBuf::from(s)
}

/// A path in words; what is not Unicode in it is replaced.
pub uninterp spec fn path_words(p: &Path) -> Seq<char>;

/// `Path::to_string_lossy`: a function of the path alone.
#[verifier::external_body]
pub(crate) fn path_text(p: &Path) -> (r: String)
    ensures
        r@ == path_words(p),
{
    p.to_string_lossy().into_owned()
}

/// A path in words, where all of it is Unicode.
pub uninterp spec fn path_unicode(p: &Path) -> Option<Seq<char>>;

/// `Path::to_str`: a function of the path alone.
#[verifier::external_body]
pub(crate) fn path_str(p: &Path) -> (r: Option<&str>)
    ensures
        match r {
            Some(s) => path_unicode(p) == Some(s@),
            None => path_unicode(p) is None,
        },
{
    p.to_str()
}

/// The parent of a path, where it has one.
pub uninterp spec fn path_parent(p: &Path) -> Option<&'static Path>;

/// `Path::parent`: a function of the path alone. It is the path without its last
/// component, absolute where the path is; none for the empty path and for one
/// that ends in the root directory or a prefix.
#[verifier::external_body]
pub(crate) fn parent(p: &Path) -> (r: Option<&Path>)
    ensures
        match r {
            Some(q) => {
                &&& path_parent(p) == Some(q)
                &&& path_parts(q) == parent_parts(path_parts(p))
                &&& path_parts(q).len() < path_parts(p).len()
                &&& path_absolute(q) == path_absolute(p)
            },
            None => path_parent(p) is None && parent_parts(path_parts(p)) == path_parts(p),
        },
{
    p.parent()
}

/// Neither `.` nor `..` is among the components.
pub open spec fn plain_parts(parts: Seq<PartV>) -> bool {
    forall|i: int|
        0 <= i < parts.len() ==> !((#[trigger] parts[i]) is CurDir) && !(parts[i] is ParentDir)
}

/// A normalized path holds neither `.` nor `..`.
pub proof fn normalized_is_plain(parts: Seq<PartV>)
    ensures
        plain_parts(normalized(parts)),
        prefix_free(parts) ==> prefix_free(normalized(parts)),
    decreases parts.len(),
{
    if parts.len() > 0 {
        normalized_is_plain(parts.drop_last());
    }
}

/// A path without `.` and `..` is its own normal form.
pub proof fn plain_is_normalized(parts: Seq<PartV>)
    requires
        plain_parts(parts),
    ensures
        normalized(parts) == parts,
    decreases parts.len(),
{
    if parts.len() > 0 {
        plain_is_normalized(parts.drop_last());
        assert(parts == parts.drop_last().push(parts.last()));
    }
}

/// Normalizing twice is normalizing once.
pub proof fn normalized_idempotent(parts: Seq<PartV>)
    ensures
        normalized(normalized(parts)) == normalized(parts),
{
    normalized_is_plain(parts);
    plain_is_normalized(normalized(parts));
}

/// The names among the components.
pub open spec fn names_of(parts: Seq<PartV>) -> Seq<Seq<u8>>
    decreases parts.len(),
{
    if parts.len() == 0 {
        Seq::empty()
    } else {
        match parts.last() {
            PartV::Normal(name) => names_of(parts.drop_last()).push(name),
            _ => names_of(parts.drop_last()),
        }
    }
}

/// The items of `part` stand in `whole` at these places, one after the other.
pub open spec fn stands_at<T>(part: Seq<T>, whole: Seq<T>, places: Seq<int>) -> bool {
    &&& places.len() == part.len()
    &&& forall|i: int|
        0 <= i < places.len() ==> 0 <= #[trigger] places[i] < whole.len() && whole[places[i]]
            == part[i]
    &&& forall|i: int, j: int|
        0 <= i < j < places.len() ==> #[trigger] places[i] < #[trigger] places[j]
}

/// What is left of `whole` when some of its items are taken out.
pub open spec fn is_subsequence<T>(part: Seq<T>, whole: Seq<T>) -> bool {
    exists|places: Seq<int>| #[trigger] stands_at(part, whole, places)
}

/// The root directory is among the components.
pub open spec fn has_root(parts: Seq<PartV>) -> bool {
    exists|i: int| 0 <= i < parts.len() && (#[trigger] parts[i]) is RootDir
}

/// Normalizing keeps the names in their order and adds none. It drops a name only
/// where there is a `..`, and it keeps the root directory.
pub proof fn normalized_keeps_names(parts: Seq<PartV>)
    ensures
        is_subsequence(names_of(normalized(parts)), names_of(parts)),
        (forall|i: int| 0 <= i < parts.len() ==> !((#[trigger] parts[i]) is ParentDir)) ==> names_of(
            normalized(parts),
        ) == names_of(parts),
        has_root(normalized(parts)) == has_root(parts),
    decreases parts.len(),
{
    if parts.len() == 0 {
        let none = Seq::<int>::empty();
        assert(stands_at(names_of(normalized(parts)), names_of(parts), none));
    } else {
        let front = parts.drop_last();
        let before = normalized(front);
        let after = normalized(parts);
        normalized_keeps_names(front);
        normalized_is_plain(front);
        let places = choose|places: Seq<int>| #[trigger]
            stands_at(names_of(before), names_of(front), places);
        match parts.last() {
            PartV::Normal(name) => {
                assert(after.drop_last() == before);
                let more = places.push(names_of(front).len() as int);
                assert(stands_at(names_of(after), names_of(parts), more));
            },
            PartV::ParentDir => {
                if before.len() > 0 && before.last() is Normal {
                    let fewer = places.drop_last();
                    assert(stands_at(names_of(after), names_of(parts), fewer));
                } else {
                    assert(after == before);
                    assert(stands_at(names_of(after), names_of(parts), places));
                }
            },
            PartV::CurDir => {
                assert(stands_at(names_of(after), names_of(parts), places));
            },
            _ => {
                assert(after.drop_last() == before);
                assert(stands_at(names_of(after), names_of(parts), places));
            },
        }
        root_is_kept(parts);
    }
}

proof fn root_is_kept(parts: Seq<PartV>)
    requires
        parts.len() > 0,
        has_root(normalized(parts.drop_last())) == has_root(parts.drop_last()),
    ensures
        has_root(normalized(parts)) == has_root(parts),
{
    let front = parts.drop_last();
    let before = normalized(front);
    let after = normalized(parts);
    assert(has_root(parts) == (has_root(front) || parts.last() is RootDir)) by {
        if has_root(front) {
            let i = choose|i: int| 0 <= i < front.len() && (#[trigger] front[i]) is RootDir;
            assert(parts[i] is RootDir);
        }
        if has_root(parts) && !(parts.last() is RootDir) {
            let i = choose|i: int| 0 <= i < parts.len() && (#[trigger] parts[i]) is RootDir;
            assert(front[i] is RootDir);
        }
    }
    assert(has_root(after) == (has_root(before) || parts.last() is RootDir)) by {
        if has_root(before) {
            let i = choose|i: int| 0 <= i < before.len() && (#[trigger] before[i]) is RootDir;
            assert(after[i] is RootDir);
        }
        if parts.last() is RootDir {
            assert(after[before.len() as int] is RootDir);
        }
        if has_root(after) && !(parts.last() is RootDir) {
            let i = choose|i: int| 0 <= i < after.len() && (#[trigger] after[i]) is RootDir;
            assert(before[i] is RootDir);
        }
    }
}

/// Normalizing the front of a path first changes nothing.
pub proof fn normalized_append(front: Seq<PartV>, back: Seq<PartV>)
    ensures
        normalized(normalized(front) + back) == normalized(front + back),
    decreases back.len(),
{
    if back.len() == 0 {
        normalized_idempotent(front);
        assert(front + back == front);
        assert(normalized(front) + back == normalized(front));
    } else {
        normalized_append(front, back.drop_last());
        assert((front + back).drop_last() == front + back.drop_last());
        assert((normalized(front) + back).drop_last() == normalized(front) + back.drop_last());
    }
}

/// Normalizing drops every `.` by itself.
pub proof fn without_dots_normalized(front: Seq<PartV>, parts: Seq<PartV>)
    ensures
        normalized(front + without_dots(parts)) == normalized(front + parts),
        prefix_free(parts) ==> prefix_free(without_dots(parts)),
        rootless(parts) ==> rootless(without_dots(parts)),
    decreases parts.len(),
{
    if parts.len() == 0 {
        assert(front + parts == front + without_dots(parts));
    } else {
        without_dots_normalized(front, parts.drop_last());
        assert((front + parts).drop_last() == front + parts.drop_last());
        if !(parts.last() is CurDir) {
            let kept = without_dots(parts.drop_last());
            assert((front + without_dots(parts)).drop_last() == front + kept);
        }
    }
}

/// A path behind another, normalized, is the two lists of components behind
/// each other, normalized.
pub proof fn joined_normalized(base: Seq<PartV>, parts: Seq<PartV>)
    ensures
        normalized(joined_parts(base, parts)) == normalized(base + parts),
        prefix_free(base) && prefix_free(parts) ==> prefix_free(joined_parts(base, parts)),
        rootless(base) && rootless(parts) ==> rootless(joined_parts(base, parts)),
{
    if base.len() == 0 {
        assert(base + parts == parts);
    } else {
        without_dots_normalized(base, parts);
    }
}

/// A path in front of one path behind another.
pub proof fn joined_twice_normalized(front: Seq<PartV>, base: Seq<PartV>, parts: Seq<PartV>)
    ensures
        normalized(front + joined_parts(base, parts)) == normalized(front + base + parts),
{
    if base.len() == 0 {
        assert(front + base + parts == front + parts);
    } else {
        without_dots_normalized(front + base, parts);
        assert(front + (base + without_dots(parts)) == front + base + without_dots(parts));
    }
}

}
