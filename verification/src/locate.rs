//! Where the database lives, and where sibling programs are.

use vstd::prelude::*;
use vstd::string::*;
use crate::path_model::{
    cut_behind, is_absolute, is_name, joined_name_parts, joined_path, name_of, parent_parts, parent_path, parts,
    parts_of, spans, spans_from, spans_from_parts, Part,
};
use crate::paths::{file_name, join, parent, with_file_name, with_name_text, PathError};
use crate::text::same;

verus! {

/// The directory that holds a library's database.
pub open spec fn imgfind_dir(root: Seq<char>) -> Seq<char> {
    joined_path(root, ".imgfind"@)
}

/// The database file of the library at `root`.
pub open spec fn db_file(root: Seq<char>) -> Seq<char> {
    joined_path(imgfind_dir(root), "imgfind.db"@)
}

/// A directory followed by its ancestors, nearest first.
pub open spec fn ancestors(dir: Seq<char>) -> Seq<Seq<char>>
    decreases dir.len(),
{
    match parent_path(dir) {
        Some(p) => if p.len() < dir.len() {
            seq![dir] + ancestors(p)
        } else {
            seq![dir]
        },
        None => seq![dir],
    }
}

proof fn parent_is_shorter(dir: Seq<char>)
    ensures
        parent_path(dir) matches Some(p) ==> p.len() < dir.len(),
{
    let sp = spans(dir);
    if parent_path(dir) is Some {
        cut_behind(dir, sp.len() - 1);
        if sp.len() >= 2 {
            cut_behind(dir, sp.len() - 2);
            let t = dir.take(sp[sp.len() - 2].end);
            if t.len() == dir.len() {
                assert(t == dir);
                assert(spans(t).len() == sp.len() - 1);
            }
        }
    }
}

/// `is_there` can be asked about any path.
pub open spec fn can_probe<F: Fn(&str) -> bool>(is_there: F) -> bool {
    forall|p: &str| call_requires(is_there, (p,))
}

/// `is_there` has answered `b` about the path with the text `path`.
pub open spec fn answered<F: Fn(&str) -> bool>(is_there: F, path: Seq<char>, b: bool) -> bool {
    exists|p: &str| p@ == path && call_ensures(is_there, (p,), b)
}

/// The database file of the library at `root`.
pub fn db_file_in(root: &str) -> (r: String)
    ensures
        r@ == db_file(root@),
{
    join(join(root, ".imgfind").as_str(), "imgfind.db")
}

/// Walk up from `start` (inclusive) and return the first directory that
/// contains a `.imgfind/imgfind.db`, or `None` if no ancestor does. Pure
/// lookup: never creates anything and never falls back to `~/.imgfind`.
pub fn find_db_root_upward<F: Fn(&str) -> bool>(start: &str, is_there: F) -> (r: Option<String>)
    requires
        can_probe(is_there),
    ensures
        r matches Some(root) ==> exists|k: int|
            {
                &&& 0 <= k < ancestors(start@).len()
                &&& root@ == #[trigger] ancestors(start@)[k]
                &&& answered(is_there, db_file(root@), true)
                &&& forall|m: int|
                    0 <= m < k ==> answered(
                        is_there,
                        db_file(#[trigger] ancestors(start@)[m]),
                        false,
                    )
            },
        r is None ==> forall|m: int|
            0 <= m < ancestors(start@).len() ==> answered(
                is_there,
                db_file(#[trigger] ancestors(start@)[m]),
                false,
            ),
{
    let mut dir: String = start.to_owned();
    let ghost mut k: int = 0;
    assert(ancestors(start@).skip(0) == ancestors(start@));
    loop
        invariant
            can_probe(is_there),
            0 <= k < ancestors(start@).len(),
            ancestors(start@).skip(k) == ancestors(dir@),
            forall|m: int|
                0 <= m < k ==> answered(is_there, db_file(#[trigger] ancestors(start@)[m]), false),
        decreases dir@.len(),
    {
        assert(ancestors(dir@)[0] == dir@);
        assert(ancestors(start@)[k] == dir@) by {
            assert(ancestors(start@).skip(k)[0] == ancestors(start@)[k]);
        }
        let candidate: String = db_file_in(dir.as_str());
        if is_there(candidate.as_str()) {
            return Some(dir);
        }
        assert(answered(is_there, db_file(dir@), false));
        proof {
            parent_is_shorter(dir@);
        }
        match parent(dir.as_str()) {
            Some(up) => {
                proof {
                    assert(ancestors(dir@) == seq![dir@] + ancestors(up@));
                    assert(ancestors(start@).skip(k + 1) == ancestors(start@).skip(k).skip(1));
                    assert((seq![dir@] + ancestors(up@)).skip(1) == ancestors(up@));
                    assert(ancestors(up@).len() > 0);
                    k = k + 1;
                }
                dir = up;
            },
            None => {
                proof {
                    assert(ancestors(dir@) == seq![dir@]);
                    assert(ancestors(start@).skip(k).len() == 1);
                }
                return None;
            },
        }
    }
}

/// Where the database was found, or is to be created.
#[derive(Debug, Clone)]
pub enum DbPlace {
    /// An existing database file.
    Existing(String),
    /// The default location; the directory may have to be created first.
    Default { dir: String, file: String },
}

/// The database that a command works on: the one in `dir` where a directory
/// is given, else the nearest one from the current directory upwards, else
/// the one in the home directory. `is_there` says whether a file is there.
pub fn get_db_path<F: Fn(&str) -> bool>(
    dir: Option<&str>,
    current_dir: Option<&str>,
    home: Option<&str>,
    is_there: F,
) -> (r: Result<DbPlace, PathError>)
    requires
        can_probe(is_there),
    ensures
        dir matches Some(d) ==> match r {
            Ok(DbPlace::Existing(p)) => p@ == db_file(d@) && answered(is_there, p@, true),
            Ok(DbPlace::Default { .. }) => false,
            Err(e) => e == PathError::NoDatabase && answered(is_there, db_file(d@), false),
        },
        dir is None && current_dir is None ==> r == Err::<DbPlace, PathError>(
            PathError::NoCurrentDir,
        ),
        dir is None ==> (current_dir matches Some(c) ==> match r {
            Ok(DbPlace::Existing(p)) => exists|k: int|
                {
                    &&& 0 <= k < ancestors(c@).len()
                    &&& p@ == db_file(#[trigger] ancestors(c@)[k])
                    &&& answered(is_there, p@, true)
                    &&& forall|m: int|
                        0 <= m < k ==> answered(is_there, db_file(#[trigger] ancestors(c@)[m]), false)
                },
            Ok(DbPlace::Default { dir: d, file }) => {
                &&& home matches Some(h) && d@ == imgfind_dir(h@) && file@ == db_file(h@)
                &&& forall|m: int|
                    0 <= m < ancestors(c@).len() ==> answered(
                        is_there,
                        db_file(#[trigger] ancestors(c@)[m]),
                        false,
                    )
            },
            Err(e) => {
                &&& e == PathError::NoHomeDir && home is None
                &&& forall|m: int|
                    0 <= m < ancestors(c@).len() ==> answered(
                        is_there,
                        db_file(#[trigger] ancestors(c@)[m]),
                        false,
                    )
            },
        }),
{
    if let Some(d) = dir {
        let potential: String = db_file_in(d);
        if is_there(potential.as_str()) {
            return Ok(DbPlace::Existing(potential));
        } else {
            return Err(PathError::NoDatabase);
        }
    }
    let current: &str = match current_dir {
        Some(c) => c,
        None => {
            return Err(PathError::NoCurrentDir);
        },
    };
    if let Some(root) = find_db_root_upward(current, is_there) {
        return Ok(DbPlace::Existing(db_file_in(root.as_str())));
    }
    match home {
        Some(h) => Ok(DbPlace::Default { dir: join(h, ".imgfind"), file: db_file_in(h) }),
        None => Err(PathError::NoHomeDir),
    }
}

/// The database that `--root` creates in the current directory: its
/// directory and its file.
pub fn get_local_db_path(current_dir: &str) -> (r: (String, String))
    ensures
        r.0@ == imgfind_dir(current_dir@),
        r.1@ == db_file(current_dir@),
{
    (join(current_dir, ".imgfind"), db_file_in(current_dir))
}

/// Get the parent directory where the database is located.
/// This is the directory that contains the .imgfind folder: for a database
/// path like `/path/to/parent/.imgfind/imgfind.db` it is `/path/to/parent`.
pub fn get_db_parent_dir(db_path: &str) -> (r: Result<String, PathError>)
    ensures
        match parent_path(db_path@) {
            None => r == Err::<String, PathError>(PathError::NoParent),
            Some(dir) => if name_of(dir) != Some(".imgfind"@) {
                r == Err::<String, PathError>(PathError::NotInImgfindDir)
            } else {
                match parent_path(dir) {
                    None => r == Err::<String, PathError>(PathError::ImgfindDirHasNoParent),
                    Some(up) => r matches Ok(p) && p@ == up,
                }
            },
        },
{
    let dir: String = match parent(db_path) {
        Some(p) => p,
        None => {
            return Err(PathError::NoParent);
        },
    };
    match file_name(dir.as_str()) {
        Some(n) => {
            if !same(n.as_str(), ".imgfind") {
                return Err(PathError::NotInImgfindDir);
            }
        },
        None => {
            return Err(PathError::NotInImgfindDir);
        },
    }
    match parent(dir.as_str()) {
        Some(up) => Ok(up),
        None => Err(PathError::ImgfindDirHasNoParent),
    }
}

/// The database of a library leads back to it: the directory that is found
/// from the path of its database file is the library's own, whatever the
/// process was started with.
pub proof fn a_database_leads_back_to_its_library(root: Seq<char>)
    ensures
        parent_path(db_file(root)) matches Some(dir) && name_of(dir) == Some(".imgfind"@) && (
        parent_path(dir) matches Some(up) && parts(up) == parts(root)),
{
    reveal_strlit(".imgfind");
    reveal_strlit("imgfind.db");
    assert(".imgfind"@[1] == 'i');
    assert("imgfind.db"@[0] == 'i');
    assert(is_name(".imgfind"@));
    assert(is_name("imgfind.db"@));
    joined_name_parts(root, ".imgfind"@);
    joined_name_parts(imgfind_dir(root), "imgfind.db"@);
    let file = db_file(root);
    assert(parts(file).last() == Part::Normal("imgfind.db"@));
    parent_parts(file);
    let dir = parent_path(file)->0;
    assert(parts(file).drop_last() == parts(root).push(Part::Normal(".imgfind"@)));
    assert(parts(dir) == parts(root).push(Part::Normal(".imgfind"@)));
    parent_parts(dir);
    assert(parts(dir).last() == Part::Normal(".imgfind"@));
    assert(parts_of(spans(dir)).last() == spans(dir).last().part);
    assert(parts(root).push(Part::Normal(".imgfind"@)).drop_last() == parts(root));
}

/// Resolve a sibling executable: prefer one next to the current executable,
/// else fall back to the bare name for a `PATH` lookup. `suffix` is what the
/// platform puts behind the name of an executable.
pub fn sibling_binary_from<F: Fn(&str) -> bool>(
    current_exe: Option<&str>,
    name: &str,
    suffix: &str,
    is_there: F,
) -> (r: String)
    requires
        can_probe(is_there),
    ensures
        current_exe is None ==> r@ == name@,
        current_exe matches Some(exe) ==> ({
            let sibling = with_name_text(exe@, name@ + suffix@);
            ||| r@ == sibling && answered(is_there, sibling, true)
            ||| r@ == name@ && answered(is_there, sibling, false)
        }),
{
    if let Some(exe) = current_exe {
        let mut file: String = name.to_owned();
        file.append(suffix);
        let candidate: String = with_file_name(exe, file.as_str());
        if is_there(candidate.as_str()) {
            return candidate;
        }
    }
    name.to_owned()
}

/// Looking upwards misses no directory: it begins with the directory itself,
/// goes up by one component at a time, and ends at the root, or, from a
/// relative path, at the place that the path starts from.
pub proof fn looking_upwards_misses_no_directory(dir: Seq<char>)
    ensures
        ancestors(dir).len() == parts(dir).len() + (if parts(dir).len() > 0 && parts(dir)[0]
            == Part::Root {
            0int
        } else {
            1int
        }),
        ancestors(dir)[0] == dir,
        forall|k: int|
            0 <= k < ancestors(dir).len() ==> parts(#[trigger] ancestors(dir)[k]) == parts(
                dir,
            ).take(parts(dir).len() - k),
    decreases dir.len(),
{
    parent_parts(dir);
    parent_is_shorter(dir);
    root_comes_first(dir);
    let n = parts(dir).len() as int;
    assert(parts(dir).take(n) == parts(dir));
    match parent_path(dir) {
        Some(p) => {
            looking_upwards_misses_no_directory(p);
            assert(ancestors(dir) == seq![dir] + ancestors(p));
            assert forall|k: int| 0 <= k < ancestors(dir).len() implies parts(
                #[trigger] ancestors(dir)[k],
            ) == parts(dir).take(n - k) by {
                if k > 0 {
                    assert(ancestors(dir)[k] == ancestors(p)[k - 1]);
                    assert(parts(p).take(n - 1 - (k - 1)) == parts(dir).take(n - k));
                }
            }
        },
        None => {
            assert(ancestors(dir) == seq![dir]);
        },
    }
}

/// The root is only ever the first component.
proof fn root_comes_first(s: Seq<char>)
    ensures
        forall|k: int| 0 < k < parts(s).len() ==> parts(s)[k] != Part::Root,
        is_absolute(s) <==> parts(s).len() > 0 && parts(s)[0] == Part::Root,
{
    let i0: int = if is_absolute(s) {
        1
    } else {
        0
    };
    spans_from_parts(s, i0);
    assert forall|k: int| i0 <= k < parts(s).len() implies parts(s)[k] != Part::Root by {
        assert(spans(s)[k] == spans_from(s, i0)[k - i0]);
    }
}

} // verus!
