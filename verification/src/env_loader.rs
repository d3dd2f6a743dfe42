//! The `.env` files: where they are looked for, and what became of them.

use std::path::{Path, PathBuf};
use vstd::prelude::*;
use vstd::utf8::encode_utf8;

use crate::paths::{
    as_path, buf_parts, components, is_absolute, join, joined_normalized, key_char, key_part,
    key_part_is_steady, normal_path, normalize_components, normalized, normalized_idempotent,
    normalized_is_plain, parent, parent_parts, path_absolute, path_from_text, path_joined, path_of,
    path_parent, path_parts, path_text, path_words, prefix_free, rootless, same_path, same_place,
    text_path, to_buf, without_dots, PartV,
};

verus! {

broadcast use vstd::string::group_string_axioms;

/// Why the `.env` files could not be loaded.
#[derive(Debug)]
pub enum EnvLoadError {
    CurrentDir(String),
    Parse { path: PathBuf, reason: String },
}

impl EnvLoadError {
    /// The message of the error.
    pub open spec fn words(self) -> Seq<char> {
        match self {
            EnvLoadError::CurrentDir(reason) => "env_current_dir reason="@ + reason@,
            EnvLoadError::Parse { path, reason } => "env_file_parse path="@ + path_words(
                path_of(&path),
            ) + " reason="@ + reason@,
        }
    }

    /// The message of the error.
    pub fn to_text(&self) -> (r: String)
        ensures
            r@ == self.words(),
    {
        match self {
            EnvLoadError::CurrentDir(reason) => {
                let mut text = "env_current_dir reason=".to_owned();
                text.append(reason.as_str());
                text
            },
            EnvLoadError::Parse { path, reason } => {
                let mut text = "env_file_parse path=".to_owned();
                text.append(path_text(as_path(path)).as_str());
                text.append(" reason=");
                text.append(reason.as_str());
                text
            },
        }
    }
}

/// The components of each of the paths.
pub open spec fn parts_of(dirs: Seq<PathBuf>) -> Seq<Seq<PartV>> {
    dirs.map_values(|p: PathBuf| buf_parts(p))
}

/// All components of all paths are steady.
pub open spec fn all_prefix_free(dirs: Seq<Seq<PartV>>) -> bool {
    forall|i: int| 0 <= i < dirs.len() ==> prefix_free(#[trigger] dirs[i])
}

/// One of the paths is the same directory, once normalized.
pub open spec fn listed_dir(dirs: Seq<Seq<PartV>>, dir: Seq<PartV>) -> bool {
    exists|i: int| 0 <= i < dirs.len() && normalized(#[trigger] dirs[i]) == dir
}

/// The directories with one more, unless it is there already.
pub open spec fn with_dir(dirs: Seq<Seq<PartV>>, dir: Seq<PartV>) -> Seq<Seq<PartV>> {
    if listed_dir(dirs, dir) {
        dirs
    } else {
        dirs.push(dir)
    }
}

/// The components of a path as seen from the current directory, normalized.
pub open spec fn seen_from(cwd: &Path, path: &Path) -> Seq<PartV> {
    if path_absolute(path) {
        normalized(path_parts(path))
    } else {
        normalized(path_parts(cwd) + path_parts(path))
    }
}

/// All components are steady, and the path is absolute or can be taken below the
/// current directory.
pub open spec fn seen_plainly(cwd: &Path, path: &Path) -> bool {
    &&& prefix_free(path_parts(path))
    &&& prefix_free(path_parts(cwd))
    &&& path_absolute(path) || rootless(path_parts(path))
}

/// Each of the directories as a path.
pub open spec fn places_of(dirs: Seq<PathBuf>) -> Seq<&'static Path> {
    dirs.map_values(|p: PathBuf| path_of(&p))
}

/// The path as seen from the current directory.
pub open spec fn from_here(cwd: &Path, path: &Path) -> &'static Path {
    if path_absolute(path) {
        path
    } else {
        path_joined(cwd, path)
    }
}

/// One of the directories is at that place, once normalized.
pub open spec fn listed_place(dirs: Seq<&'static Path>, place: &Path) -> bool {
    exists|i: int|
        0 <= i < dirs.len() && same_place(
            normal_path(path_parts(#[trigger] dirs[i])),
            place,
        )
}

/// The directories with one more, normalized, unless it is there already.
pub open spec fn with_place(dirs: Seq<&'static Path>, path: &Path) -> Seq<&'static Path> {
    let place = normal_path(path_parts(path));
    if listed_place(dirs, place) {
        dirs
    } else {
        dirs.push(place)
    }
}

/// Adds a directory, normalized, unless it is among the directories already.
/// Where all components are steady, these decide.
pub fn push_unique_dir(dirs: &mut Vec<PathBuf>, cwd: &Path, path: PathBuf)
    ensures
        places_of(final(dirs)@) == with_place(
            places_of(old(dirs)@),
            from_here(cwd, path_of(&path)),
        ),
        seen_plainly(cwd, path_of(&path)) && all_prefix_free(parts_of(old(dirs)@)) ==> parts_of(
            final(dirs)@,
        ) == with_dir(parts_of(old(dirs)@), seen_from(cwd, path_of(&path))),
{
    let ghost plain = seen_plainly(cwd, path_of(&path)) && all_prefix_free(parts_of(dirs@));
    let ghost target = seen_from(cwd, path_of(&path));
    let ghost place = normal_path(path_parts(from_here(cwd, path_of(&path))));
    let ghost start = dirs@;
    proof {
        joined_normalized(path_parts(cwd), buf_parts(path));
    }
    let absolute = if is_absolute(as_path(&path)) {
        path
    } else {
        join(cwd, as_path(&path))
    };
    let dir = normalize_components(as_path(&absolute));
    proof {
        normalized_is_plain(buf_parts(absolute));
    }
    let mut i: usize = 0;
    while i < dirs.len()
        invariant
            i <= dirs@.len(),
            dirs@ == start,
            start == old(dirs)@,
            plain == (seen_plainly(cwd, path_of(&path)) && all_prefix_free(parts_of(start))),
            target == seen_from(cwd, path_of(&path)),
            place == normal_path(path_parts(from_here(cwd, path_of(&path)))),
            path_of(&dir) == place,
            plain ==> buf_parts(dir) == target && prefix_free(target) && all_prefix_free(
                parts_of(start),
            ),
            plain ==> forall|k: int|
                0 <= k < i ==> normalized(#[trigger] parts_of(start)[k]) != target,
            forall|k: int|
                0 <= k < i ==> !same_place(
                    normal_path(path_parts(#[trigger] places_of(start)[k])),
                    place,
                ),
        decreases dirs@.len() - i,
    {
        proof {
            assert(parts_of(start)[i as int] == buf_parts(start[i as int]));
            assert(places_of(start)[i as int] == path_of(&start[i as int]));
            normalized_is_plain(buf_parts(start[i as int]));
        }
        let seen = normalize_components(as_path(&dirs[i]));
        if same_path(&seen, &dir) {
            return;
        }
        i += 1;
    }
    dirs.push(dir);
    assert(plain ==> parts_of(dirs@) =~= parts_of(start).push(target));
    assert(places_of(dirs@) =~= places_of(start).push(place));
}

/// No directory is listed twice.
pub open spec fn dirs_distinct(dirs: Seq<Seq<PartV>>) -> bool {
    forall|i: int, j: int|
        0 <= i < j < dirs.len() ==> normalized(#[trigger] dirs[i]) != normalized(
            #[trigger] dirs[j],
        )
}

/// Adding a directory lists none twice.
pub proof fn with_dir_keeps_distinct(dirs: Seq<Seq<PartV>>, parts: Seq<PartV>)
    requires
        dirs_distinct(dirs),
    ensures
        dirs_distinct(with_dir(dirs, normalized(parts))),
        listed_dir(with_dir(dirs, normalized(parts)), normalized(parts)),
{
    normalized_idempotent(parts);
    let after = with_dir(dirs, normalized(parts));
    if !listed_dir(dirs, normalized(parts)) {
        assert(after[dirs.len() as int] == normalized(parts));
    }
}

/// Adding a directory a second time changes nothing.
pub proof fn with_dir_twice(dirs: Seq<Seq<PartV>>, parts: Seq<PartV>)
    requires
        dirs_distinct(dirs),
    ensures
        with_dir(with_dir(dirs, normalized(parts)), normalized(parts)) == with_dir(
            dirs,
            normalized(parts),
        ),
{
    with_dir_keeps_distinct(dirs, parts);
}

/// The components of the directory of the workflow file, as seen from the
/// current directory.
pub open spec fn workflow_dir_parts(cwd: &Path, workflow_path: &Path) -> Seq<PartV> {
    let up = parent_parts(path_parts(workflow_path));
    if up.len() == 0 || up == path_parts(workflow_path) {
        normalized(path_parts(cwd))
    } else if path_absolute(workflow_path) {
        normalized(up)
    } else {
        normalized(path_parts(cwd) + up)
    }
}

/// The directory of the workflow file, as it is given: its parent, or the current
/// directory where there is none or an empty one.
pub open spec fn workflow_dir(workflow_path: &Path) -> &'static Path {
    match path_parent(workflow_path) {
        Some(up) => if path_parts(up).len() > 0 {
            up
        } else {
            text_path("."@)
        },
        None => text_path("."@),
    }
}

/// The directories in which `.env` files are looked for: the current one, then
/// that of the workflow file unless it is the same.
pub open spec fn dotenv_places(cwd: &Path, workflow_path: &Path) -> Seq<&'static Path> {
    with_place(
        with_place(Seq::empty(), from_here(cwd, cwd)),
        from_here(cwd, from_here(cwd, workflow_dir(workflow_path))),
    )
}

/// The directories in which `.env` files are looked for: the current one, then
/// that of the workflow file unless it is the same. Where all components are
/// steady, these decide.
pub fn dotenv_dirs(cwd: &PathBuf, workflow_path: &Path) -> (r: Vec<PathBuf>)
    ensures
        places_of(r@) == dotenv_places(path_of(cwd), workflow_path),
        seen_plainly(path_of(cwd), path_of(cwd)) && seen_plainly(path_of(cwd), workflow_path)
            && path_absolute(path_of(cwd)) ==> parts_of(r@) == with_dir(
            seq![normalized(buf_parts(*cwd))],
            workflow_dir_parts(path_of(cwd), workflow_path),
        ),
{
    let ghost plain = seen_plainly(path_of(cwd), path_of(cwd)) && seen_plainly(
        path_of(cwd),
        workflow_path,
    ) && path_absolute(path_of(cwd));
    let mut dirs: Vec<PathBuf> = Vec::new();
    assert(parts_of(dirs@) =~= Seq::<Seq<PartV>>::empty());
    assert(places_of(dirs@) =~= Seq::<&'static Path>::empty());
    push_unique_dir(&mut dirs, as_path(cwd), cwd.clone());
    let ghost first = normalized(buf_parts(*cwd));
    assert(plain ==> parts_of(dirs@) =~= seq![first]);
    proof {
        normalized_is_plain(buf_parts(*cwd));
    }
    let found = match parent(workflow_path) {
        Some(dir) => if components(dir).len() == 0 {
            None
        } else {
            Some(dir)
        },
        None => None,
    };
    let ghost up = parent_parts(path_parts(workflow_path));
    let dir = match found {
        Some(dir) => to_buf(dir),
        None => path_from_text("."),
    };
    proof {
        reveal_strlit(".");
        assert("."@ =~= seq!['.']);
        if found is None {
            assert(buf_parts(dir) == seq![PartV::CurDir]);
            let cwd_parts = buf_parts(*cwd);
            assert((cwd_parts + seq![PartV::CurDir]).drop_last() == cwd_parts);
        }
        joined_normalized(buf_parts(*cwd), buf_parts(dir));
    }
    let workflow_dir = if is_absolute(as_path(&dir)) {
        dir
    } else {
        join(as_path(cwd), as_path(&dir))
    };
    push_unique_dir(&mut dirs, as_path(cwd), workflow_dir);
    dirs
}

/// The `.env` files of a directory, in the order in which they are loaded.
pub open spec fn dotenv_parts(dir: Seq<PartV>) -> Seq<Seq<PartV>> {
    seq![
        dir.push(PartV::Normal(encode_utf8(".env"@))),
        dir.push(PartV::Normal(encode_utf8(".env.local"@))),
    ]
}

/// The `.env` files of the directories, in the order in which they are loaded.
pub open spec fn dotenv_list(dirs: Seq<Seq<PartV>>) -> Seq<Seq<PartV>>
    decreases dirs.len(),
{
    if dirs.len() == 0 {
        Seq::empty()
    } else {
        dotenv_list(dirs.drop_last()) + dotenv_parts(dirs.last())
    }
}

/// The `.env` files of the directories, in the order in which they are loaded.
pub open spec fn dotenv_file_places(dirs: Seq<&'static Path>) -> Seq<&'static Path>
    decreases dirs.len(),
{
    if dirs.len() == 0 {
        Seq::empty()
    } else {
        dotenv_file_places(dirs.drop_last()) + seq![
            path_joined(dirs.last(), text_path(".env"@)),
            path_joined(dirs.last(), text_path(".env.local"@)),
        ]
    }
}

fn file_in(dir: &PathBuf, name: &str) -> (r: PathBuf)
    requires
        name@.len() > 2,
        forall|i: int| 0 <= i < name@.len() ==> key_char(#[trigger] name@[i]),
    ensures
        path_of(&r) == path_joined(path_of(dir), text_path(name@)),
        prefix_free(buf_parts(*dir)) ==> buf_parts(r) == buf_parts(*dir).push(
            PartV::Normal(encode_utf8(name@)),
        ),
{
    let file = path_from_text(name);
    let ghost part = PartV::Normal(encode_utf8(name@));
    proof {
        assert(key_part(name@) == part);
        key_part_is_steady(name@);
        assert(seq![part].drop_last() == Seq::<PartV>::empty());
        assert(without_dots(Seq::<PartV>::empty()) == Seq::<PartV>::empty());
        assert(without_dots(seq![part]) == seq![part]);
        assert(Seq::<PartV>::empty().push(part) == seq![part]);
        assert(buf_parts(*dir) + seq![part] == buf_parts(*dir).push(part));
    }
    join(as_path(dir), as_path(&file))
}

/// The `.env` files of the directories, in the order in which they are loaded:
/// in each directory `.env` comes before `.env.local`.
pub fn dotenv_paths(dirs: &Vec<PathBuf>) -> (r: Vec<PathBuf>)
    ensures
        places_of(r@) == dotenv_file_places(places_of(dirs@)),
        all_prefix_free(parts_of(dirs@)) ==> parts_of(r@) == dotenv_list(parts_of(dirs@)),
{
    let ghost all = parts_of(dirs@);
    let ghost places = places_of(dirs@);
    let mut files: Vec<PathBuf> = Vec::new();
    let mut i: usize = 0;
    assert(parts_of(files@) =~= dotenv_list(all.take(0)));
    assert(places_of(files@) =~= dotenv_file_places(places.take(0)));
    while i < dirs.len()
        invariant
            i <= dirs@.len(),
            all == parts_of(dirs@),
            places == places_of(dirs@),
            places_of(files@) == dotenv_file_places(places.take(i as int)),
            all_prefix_free(all) ==> parts_of(files@) == dotenv_list(all.take(i as int)),
        decreases dirs@.len() - i,
    {
        proof {
            reveal_strlit(".env");
            reveal_strlit(".env.local");
            assert(all.take(i + 1).drop_last() == all.take(i as int));
            assert(all[i as int] == buf_parts(dirs@[i as int]));
            assert(places.take(i + 1).drop_last() == places.take(i as int));
            assert(places[i as int] == path_of(&dirs@[i as int]));
        }
        let ghost before = files@;
        files.push(file_in(&dirs[i], ".env"));
        files.push(file_in(&dirs[i], ".env.local"));
        assert(all_prefix_free(all) ==> parts_of(files@) =~= parts_of(before) + dotenv_parts(
            all[i as int],
        ));
        assert(places_of(files@) =~= dotenv_file_places(places.take(i + 1)));
        i += 1;
    }
    assert(all.take(all.len() as int) == all);
    assert(places.take(places.len() as int) == places);
    files
}

/// The files to load, in order, when the program is in that current directory;
/// without one there is an error.
pub fn dotenv_files(cwd: Result<PathBuf, String>, workflow_path: &Path) -> (r: Result<
    Vec<PathBuf>,
    EnvLoadError,
>)
    ensures
        match cwd {
            Ok(dir) => match r {
                Ok(files) => {
                    &&& places_of(files@) == dotenv_file_places(
                        dotenv_places(path_of(&dir), workflow_path),
                    )
                    &&& seen_plainly(path_of(&dir), path_of(&dir)) && seen_plainly(
                        path_of(&dir),
                        workflow_path,
                    ) && path_absolute(path_of(&dir)) ==> parts_of(files@) == dotenv_list(
                        with_dir(
                            seq![normalized(buf_parts(dir))],
                            workflow_dir_parts(path_of(&dir), workflow_path),
                        ),
                    )
                },
                Err(_) => false,
            },
            Err(reason) => r == Err::<Vec<PathBuf>, EnvLoadError>(EnvLoadError::CurrentDir(reason)),
        },
{
    match cwd {
        Ok(dir) => {
            let dirs = dotenv_dirs(&dir, workflow_path);
            proof {
                let first = buf_parts(dir);
                let up = parent_parts(path_parts(workflow_path));
                normalized_is_plain(first);
                normalized_is_plain(up);
                normalized_is_plain(first + up);
            }
            Ok(dotenv_paths(&dirs))
        },
        Err(reason) => Err(EnvLoadError::CurrentDir(reason)),
    }
}

/// What became of one `.env` file.
pub enum DotenvOutcome {
    /// There is no such file.
    Absent,
    Loaded,
    /// It could not be parsed, for that reason.
    Failed(String),
}

/// That is what becomes of the list of the files that were loaded, and whether the
/// loading goes on.
pub open spec fn notes(
    before: Seq<PathBuf>,
    path: PathBuf,
    outcome: DotenvOutcome,
    after: Seq<PathBuf>,
    r: Result<(), EnvLoadError>,
) -> bool {
    match outcome {
        DotenvOutcome::Absent => r is Ok && after == before,
        DotenvOutcome::Loaded => r is Ok && after == before.push(path),
        DotenvOutcome::Failed(reason) => {
            &&& r == Err::<(), EnvLoadError>(EnvLoadError::Parse { path, reason })
            &&& after == before
        },
    }
}

/// Keeps the file among those that were loaded, where it was; a file that cannot
/// be parsed ends the loading.
pub fn note_dotenv(loaded: &mut Vec<PathBuf>, path: PathBuf, outcome: DotenvOutcome) -> (r: Result<
    (),
    EnvLoadError,
>)
    ensures
        notes(old(loaded)@, path, outcome, final(loaded)@, r),
{
    match outcome {
        DotenvOutcome::Absent => Ok(()),
        DotenvOutcome::Loaded => {
            loaded.push(path);
            Ok(())
        },
        DotenvOutcome::Failed(reason) => Err(EnvLoadError::Parse { path, reason }),
    }
}

/// The files of each directory come right behind each other, `.env` before
/// `.env.local`, and the directories come in their order.
pub proof fn env_files_come_in_pairs(dirs: Seq<Seq<PartV>>, i: int)
    ensures
        dotenv_list(dirs).len() == 2 * dirs.len(),
        0 <= i < dirs.len() ==> {
            &&& dotenv_list(dirs)[2 * i] == dirs[i].push(PartV::Normal(encode_utf8(".env"@)))
            &&& dotenv_list(dirs)[2 * i + 1] == dirs[i].push(
                PartV::Normal(encode_utf8(".env.local"@)),
            )
        },
    decreases dirs.len(),
{
    if dirs.len() > 0 {
        let front = dirs.drop_last();
        env_files_come_in_pairs(front, i);
        let before = dotenv_list(front);
        let all = dotenv_list(dirs);
        if 0 <= i < front.len() {
            assert(all[2 * i] == before[2 * i]);
            assert(all[2 * i + 1] == before[2 * i + 1]);
        }
    }
}

/// The same holds of the paths of the files, whatever their components are.
pub proof fn env_paths_come_in_pairs(dirs: Seq<&'static Path>, i: int)
    ensures
        dotenv_file_places(dirs).len() == 2 * dirs.len(),
        0 <= i < dirs.len() ==> {
            &&& dotenv_file_places(dirs)[2 * i] == path_joined(dirs[i], text_path(".env"@))
            &&& dotenv_file_places(dirs)[2 * i + 1] == path_joined(
                dirs[i],
                text_path(".env.local"@),
            )
        },
    decreases dirs.len(),
{
    if dirs.len() > 0 {
        let front = dirs.drop_last();
        env_paths_come_in_pairs(front, i);
        let before = dotenv_file_places(front);
        let all = dotenv_file_places(dirs);
        if 0 <= i < front.len() {
            assert(all[2 * i] == before[2 * i]);
            assert(all[2 * i + 1] == before[2 * i + 1]);
        }
    }
}

/// The current directory comes first and the directory of the workflow file, taken
/// below the current one where its path is not absolute, comes last; they are listed
/// once where they are the same.
pub proof fn current_directory_comes_first(cwd: &Path, workflow_path: &Path)
    requires
        path_parts(workflow_path).len() >= 2,
        path_parts(workflow_path).last() is Normal,
    ensures
        ({
            let dirs = with_dir(
                seq![normalized(path_parts(cwd))],
                workflow_dir_parts(cwd, workflow_path),
            );
            let up = path_parts(workflow_path).drop_last();
            let last = if path_absolute(workflow_path) {
                normalized(up)
            } else {
                normalized(path_parts(cwd) + up)
            };
            &&& dirs[0] == normalized(path_parts(cwd))
            &&& dirs.last() == last
            &&& dirs.len() == (if last == dirs[0] {
                1int
            } else {
                2int
            })
        }),
{
    let first = seq![normalized(path_parts(cwd))];
    normalized_idempotent(path_parts(cwd));
    let target = workflow_dir_parts(cwd, workflow_path);
    assert(parent_parts(path_parts(workflow_path)) != path_parts(workflow_path)) by {
        assert(path_parts(workflow_path).drop_last().len() != path_parts(workflow_path).len());
    }
    if listed_dir(first, target) {
        let i = choose|i: int| 0 <= i < first.len() && normalized(#[trigger] first[i]) == target;
        assert(first[i] == first[0]);
    } else {
        assert(normalized(first[0]) != target);
    }
}

/// A workflow file that is named without a directory lies in the current one, and
/// there is no other to look in.
pub proof fn workflow_file_may_lie_here(cwd: &Path, workflow_path: &Path)
    requires
        path_parts(workflow_path).len() <= 1,
    ensures
        with_dir(seq![normalized(path_parts(cwd))], workflow_dir_parts(cwd, workflow_path))
            == seq![normalized(path_parts(cwd))],
{
    let first = seq![normalized(path_parts(cwd))];
    normalized_idempotent(path_parts(cwd));
    assert(normalized(first[0]) == normalized(path_parts(cwd)));
}

/// A file counts as loaded just where it was there and could be parsed. One that could
/// not be parsed ends the loading, with its path and the reason; one that is not there
/// does not.
pub proof fn files_that_were_loaded_are_listed(
    before: Seq<PathBuf>,
    path: PathBuf,
    outcome: DotenvOutcome,
    after: Seq<PathBuf>,
    r: Result<(), EnvLoadError>,
)
    requires
        notes(before, path, outcome, after, r),
    ensures
        before.is_prefix_of(after),
        after.len() == before.len() + (if outcome is Loaded {
            1int
        } else {
            0int
        }),
        outcome is Loaded ==> after.last() == path,
        r is Err <==> outcome is Failed,
        outcome matches DotenvOutcome::Failed(why) ==> (r matches Err(
            EnvLoadError::Parse { path: p, reason },
        ) && p == path && reason@ == why@),
{
    if outcome is Loaded {
        assert(after.take(before.len() as int) =~= before);
    }
}

}
