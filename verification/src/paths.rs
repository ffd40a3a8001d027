//! Paths as text: the parts of a path the library reads, and where the files
//! of a search lie on disk.
//!
//! `std::path` reads a path differently on each platform (which characters
//! separate components, what a prefix is), so what is stated here of its
//! answers is what holds on every platform: for paths written with `/` alone
//! and in a plain shape.

use vstd::prelude::*;
use crate::text::{track_export_file_name, tracks_export_file_name};
use crate::waypoint::opt_str_view;

verus! {

/// A piece of text that is a file name on every platform: not empty, not
/// `.` or `..`, and free of the separators `/` and `\` and of `:`.
pub open spec fn plain_name(s: Seq<char>) -> bool {
    &&& s.len() > 0
    &&& s != "."@
    &&& s != ".."@
    &&& !s.contains('/')
    &&& !s.contains('\\')
    &&& !s.contains(':')
}

/// A path that every platform splits at `/` alone: it holds no `\` and no
/// `:`, and does not begin with `//`.
pub open spec fn portable_path(p: Seq<char>) -> bool {
    &&& !p.contains('\\')
    &&& !p.contains(':')
    &&& !(p.len() >= 2 && p[0] == '/' && p[1] == '/')
}

/// `p` has a component that is `.` or `..`.
pub open spec fn has_dot_component(p: Seq<char>) -> bool {
    exists|i: int|
        0 <= i < p.len() && #[trigger] p[i] == '.' && (i == 0 || p[i - 1] == '/') && (i + 1 == p.len()
            || p[i + 1] == '/' || (p[i + 1] == '.' && (i + 2 == p.len() || p[i + 2] == '/')))
}

/// A path in its plainest shape: empty, the root `/`, or portable names
/// joined by single `/`, with no `.` or `..` among them, an optional `/` in
/// front and none at the end.
pub open spec fn simple_path(p: Seq<char>) -> bool {
    ||| p.len() == 0
    ||| p == seq!['/']
    ||| {
        &&& portable_path(p)
        &&& p.last() != '/'
        &&& forall|i: int| 0 <= i < p.len() - 1 && #[trigger] p[i] == '/' ==> p[i + 1] != '/'
        &&& !has_dot_component(p)
    }
}

/// Where the last `/` of `p` stands; -1 when there is none.
pub open spec fn last_slash(p: Seq<char>) -> int
    decreases p.len(),
{
    if p.len() == 0 {
        -1
    } else if p.last() == '/' {
        p.len() - 1
    } else {
        last_slash(p.drop_last())
    }
}

/// The path without its final component: none for the empty path and the
/// root, the empty path for a single relative name, the root for a name
/// right under it, and otherwise what stands before the last `/`.
pub open spec fn parent_of(p: Seq<char>) -> Option<Seq<char>> {
    let k = last_slash(p);
    if p.len() == 0 || p == seq!['/'] {
        None
    } else if k < 0 {
        Some(Seq::empty())
    } else if k == 0 {
        Some(seq!['/'])
    } else {
        Some(p.take(k))
    }
}

/// The final component of a path; empty for the empty path and the root.
pub open spec fn last_component(p: Seq<char>) -> Seq<char> {
    if p.len() == 0 || p == seq!['/'] {
        Seq::empty()
    } else {
        p.skip(last_slash(p) + 1)
    }
}

/// What the file name of `path` is known to be: none for the empty path
/// and the root; and for a portable path, no name holds `/`, a plain name
/// given alone is itself, and a path ending in `/` and a plain name has that
/// name.
pub open spec fn file_name_of(path: Seq<char>, name: Seq<char>) -> bool {
    &&& (path.len() == 0 || path == seq!['/']) ==> name.len() == 0
    &&& portable_path(path) ==> {
        &&& !name.contains('/')
        &&& plain_name(path) ==> name == path
        &&& forall|j: int|
            1 <= j <= path.len() && path[j - 1] == '/' && plain_name(#[trigger] path.subrange(j, path.len() as int))
                ==> name == path.subrange(j, path.len() as int)
    }
}

pub open spec fn is_separator(c: char) -> bool {
    c == '/' || c == '\\'
}

/// A directory path that a name can be joined to on every platform with one
/// separator: not empty, no `:`, not ending in a separator, and not
/// beginning with two.
pub open spec fn joinable_dir(d: Seq<char>) -> bool {
    &&& d.len() > 0
    &&& !d.contains(':')
    &&& !is_separator(d.last())
    &&& !(d.len() >= 2 && is_separator(d[0]) && is_separator(d[1]))
}

/// `p` is `dir` and `name` joined by one separator, `/` or `\`.
pub open spec fn joined(dir: Seq<char>, name: Seq<char>, p: Seq<char>) -> bool {
    p == dir + seq!['/'] + name || p == dir + seq!['\\'] + name
}

/// `p` is `file` in the tracks folder of `bundle`.
pub open spec fn in_tracks_folder(p: Seq<char>, bundle: Seq<char>, file: Seq<char>) -> bool {
    exists|d: Seq<char>| #[trigger] joined(bundle, tracks_folder(), d) && joined(d, file, p)
}

/// The folder the phone maps of a bundle are kept in.
pub open spec fn phone_maps_folder() -> Seq<char> {
    "8-Android&iOS"@
}

/// The folder of a bundle that track exports go to.
pub open spec fn tracks_folder() -> Seq<char> {
    "10-Tracks"@
}

pub proof fn lemma_last_slash(p: Seq<char>)
    ensures
        -1 <= last_slash(p) < p.len(),
        last_slash(p) >= 0 ==> p[last_slash(p)] == '/',
        forall|j: int| last_slash(p) < j < p.len() ==> p[j] != '/',
    decreases p.len(),
{
    if p.len() > 0 && p.last() != '/' {
        lemma_last_slash(p.drop_last());
        assert forall|j: int| last_slash(p) < j < p.len() implies p[j] != '/' by {
            if j < p.len() - 1 {
                assert(p.drop_last()[j] == p[j]);
            }
        }
    }
}

pub proof fn lemma_parent_shorter(p: Seq<char>)
    ensures
        parent_of(p) matches Some(q) ==> q.len() < p.len(),
{
    lemma_last_slash(p);
    if p.len() == 1 && last_slash(p) == 0 {
        assert(p =~= seq!['/']);
    }
}

/// The first of `a` and its ancestors whose parent is `root`.
pub open spec fn child_of_root(a: Seq<char>, root: Seq<char>) -> Option<Seq<char>>
    decreases a.len(),
{
    match parent_of(a) {
        None => None,
        Some(q) => if q == root {
            Some(a)
        } else {
            proof {
                lemma_parent_shorter(a);
            }
            child_of_root(q, root)
        },
    }
}

/// The bundle directory a map file belongs to: the ancestor of the file
/// that stands directly under the bundles root; failing that, for the
/// phone layout, the folder that holds the phone maps folder; else the
/// folder the file is in.
pub open spec fn bundle_dir_of_map(map_path: Seq<char>, root: Seq<char>) -> Option<Seq<char>> {
    match child_of_root(map_path, root) {
        Some(a) => Some(a),
        None => match parent_of(map_path) {
            None => None,
            Some(q) => if last_component(q) == phone_maps_folder() {
                parent_of(q)
            } else {
                Some(q)
            },
        },
    }
}

proof fn lemma_parent_simple(p: Seq<char>)
    requires
        simple_path(p),
    ensures
        parent_of(p) matches Some(q) ==> simple_path(q) && q.len() < p.len(),
{
    lemma_parent_shorter(p);
    lemma_last_slash(p);
    let k = last_slash(p);
    if p.len() > 0 && p != seq!['/'] && k > 0 {
        let q = p.take(k);
        assert(q.last() == p[k - 1]);
        assert(p[k - 1] != '/') by {
            if p[k - 1] == '/' {
                assert(p[k - 1] == '/' && 0 <= k - 1 < p.len() - 1);
            }
        }
        assert(!q.contains('\\')) by {
            if q.contains('\\') {
                let i = choose|i: int| 0 <= i < q.len() && q[i] == '\\';
                assert(p[i] == '\\');
            }
        }
        assert(!q.contains(':')) by {
            if q.contains(':') {
                let i = choose|i: int| 0 <= i < q.len() && q[i] == ':';
                assert(p[i] == ':');
            }
        }
        assert forall|i: int| 0 <= i < q.len() - 1 && #[trigger] q[i] == '/' implies q[i + 1] != '/' by {
            assert(p[i] == '/');
        }
        assert(!has_dot_component(q)) by {
            if has_dot_component(q) {
                let i = choose|i: int|
                    0 <= i < q.len() && #[trigger] q[i] == '.' && (i == 0 || q[i - 1] == '/') && (i + 1 == q.len()
                        || q[i + 1] == '/' || (q[i + 1] == '.' && (i + 2 == q.len() || q[i + 2] == '/')));
                assert(p[i] == '.');
                assert(has_dot_component(p));
            }
        }
    }
}

proof fn lemma_last_component_plain(p: Seq<char>)
    requires
        simple_path(p),
        p.len() > 0,
        p != seq!['/'],
    ensures
        plain_name(last_component(p)),
        last_slash(p) < 0 ==> last_component(p) == p,
        last_slash(p) >= 0 ==> p[last_slash(p)] == '/' && last_component(p) == p.subrange(
            last_slash(p) + 1,
            p.len() as int,
        ),
{
    lemma_last_slash(p);
    let k = last_slash(p);
    let c = last_component(p);
    assert(c =~= p.subrange(k + 1, p.len() as int));
    if k < 0 {
        assert(c =~= p);
    }
    assert(k < p.len() - 1);
    assert(!c.contains('/')) by {
        if c.contains('/') {
            let i = choose|i: int| 0 <= i < c.len() && c[i] == '/';
            assert(p[k + 1 + i] == '/');
        }
    }
    assert(!c.contains('\\')) by {
        if c.contains('\\') {
            let i = choose|i: int| 0 <= i < c.len() && c[i] == '\\';
            assert(p[k + 1 + i] == '\\');
        }
    }
    assert(!c.contains(':')) by {
        if c.contains(':') {
            let i = choose|i: int| 0 <= i < c.len() && c[i] == ':';
            assert(p[k + 1 + i] == ':');
        }
    }
    assert(c != "."@) by {
        reveal_strlit(".");
        if c == "."@ {
            assert(c[0] == '.');
            assert(p[k + 1] == '.');
            assert(has_dot_component(p));
        }
    }
    assert(c != ".."@) by {
        reveal_strlit("..");
        if c == ".."@ {
            assert(c[0] == '.' && c[1] == '.');
            assert(p[k + 1] == '.' && p[k + 2] == '.');
            assert(has_dot_component(p));
        }
    }
}

/// What the file name of a simple path is known to be.
proof fn lemma_file_name_of_simple(p: Seq<char>, name: Seq<char>)
    requires
        simple_path(p),
        file_name_of(p, name),
    ensures
        name == last_component(p),
{
    if p.len() > 0 && p != seq!['/'] {
        lemma_last_component_plain(p);
        lemma_last_slash(p);
        let k = last_slash(p);
        assert(portable_path(p));
        if k >= 0 {
            let j = k + 1;
            assert(1 <= j <= p.len() && p[j - 1] == '/' && plain_name(p.subrange(j, p.len() as int)));
            assert(name == p.subrange(j, p.len() as int));
        } else {
            assert(plain_name(p));
        }
    } else {
        assert(name =~= last_component(p));
    }
}

/// The final component of a path, as `std::path::Path::file_name` reads it,
/// as text; empty when the path has none. The contract says what holds on
/// every platform: the empty path and the root have none, and for a
/// portable path a plain name is its own file name, a path ending in `/` and
/// a plain name has that name, and no file name holds `/`. What is read from
/// paths with `\` or `:` or a leading `//` depends on the platform (a prefix
/// on Windows) and is left unsaid.
#[verifier::external_body]
pub(crate) fn path_file_name(path: &str) -> (name: String)
    ensures
        file_name_of(path@, name@),
{
    match std::path::Path::new(path).file_name() {
        Some(n) => n.to_string_lossy().into_owned(),
        None => String::new(),
    }
}

/// The path without its final component, as `std::path::Path::parent` gives
/// it, as text. The contract says that a parent is shorter than the path,
/// and for a simple path that it is `parent_of`, as the documentation's
/// examples show (`/foo/bar` to `/foo`, `/foo` to `/`, `foo` to the empty
/// path, none for the root and the empty path). What is read from paths of
/// other shapes depends on the platform and is left unsaid.
#[verifier::external_body]
fn path_parent(path: &str) -> (parent: Option<String>)
    ensures
        parent matches Some(q) ==> q@.len() < path@.len(),
        simple_path(path@) ==> opt_str_view(parent) == parent_of(path@),
{
    match std::path::Path::new(path).parent() {
        Some(p) => Some(p.to_string_lossy().into_owned()),
        None => None,
    }
}

/// Whether two paths are equal as `std::path::Path` compares them, by their
/// components. The contract says that two simple paths are equal exactly
/// when their texts are; paths of other shapes can be equal with different
/// texts (`a//b` and `a/b`), which is left unsaid.
#[verifier::external_body]
fn paths_equal(a: &str, b: &str) -> (same: bool)
    ensures
        simple_path(a@) && simple_path(b@) ==> (same == (a@ == b@)),
{
    std::path::Path::new(a) == std::path::Path::new(b)
}

/// `std::path::Path::join` of a directory and a name, as text. The contract
/// says that a plain name joined to a joinable directory follows it after
/// one separator; which one (`/`, or `\` on Windows) is the platform's and
/// is left open.
#[verifier::external_body]
fn path_join(dir: &str, name: &str) -> (p: String)
    ensures
        joinable_dir(dir@) && plain_name(name@) ==> joined(dir@, name@, p@),
{
    std::path::Path::new(dir).join(name).to_string_lossy().into_owned()
}

/// The bundle directory a map file belongs to, found from the file's path:
/// the first of the file and its ancestors whose parent is the bundles
/// root; failing that, the folder above `8-Android&iOS` when the file lies
/// in such a folder; else the folder the file lies in. None when the path
/// has no parent. Exact for simple paths.
pub fn infer_bundle_dir_from_map_path(map_path: &str, bundles_root: &str) -> (dir: Option<String>)
    ensures
        simple_path(map_path@) && simple_path(bundles_root@) ==> opt_str_view(dir) == bundle_dir_of_map(
            map_path@,
            bundles_root@,
        ),
{
    let ghost simple = simple_path(map_path@) && simple_path(bundles_root@);
    let mut a = String::from_str(map_path);
    loop
        invariant
            simple ==> simple_path(a@) && child_of_root(a@, bundles_root@) == child_of_root(
                map_path@,
                bundles_root@,
            ),
            simple == (simple_path(map_path@) && simple_path(bundles_root@)),
        ensures
            simple ==> child_of_root(map_path@, bundles_root@) is None,
        decreases a@.len(),
    {
        match path_parent(a.as_str()) {
            None => {
                break;
            },
            Some(q) => {
                proof {
                    if simple {
                        lemma_parent_simple(a@);
                    }
                }
                if paths_equal(q.as_str(), bundles_root) {
                    return Some(a);
                }
                a = q;
            },
        }
    }
    let parent = match path_parent(map_path) {
        None => {
            return None;
        },
        Some(q) => q,
    };
    proof {
        if simple {
            lemma_parent_simple(map_path@);
        }
    }
    let name = path_file_name(parent.as_str());
    let phone = String::from_str("8-Android&iOS");
    proof {
        if simple {
            lemma_file_name_of_simple(parent@, name@);
        }
    }
    if name == phone {
        path_parent(parent.as_str())
    } else {
        Some(parent)
    }
}

/// Where a track export is suggested to go: the `10-Tracks` folder of the
/// bundle in use, under the track's name and the extension; none without a
/// bundle, or when the extension is nothing but dots.
pub fn export_default_tracks_dir_path(bundle_dir: Option<&str>, track_name: &str, extension: &str) -> (path:
    Option<String>)
    ensures
        path is None <==> (bundle_dir is None || track_export_file_name(track_name@, extension@) is None),
        match (path, bundle_dir, track_export_file_name(track_name@, extension@)) {
            (Some(p), Some(b), Some(file)) => joinable_dir(b@) && plain_name(file) ==> in_tracks_folder(p@, b@, file),
            _ => true,
        },
{
    let file = match tracks_export_file_name(track_name, extension) {
        None => {
            return None;
        },
        Some(f) => f,
    };
    let bundle = match bundle_dir {
        None => {
            return None;
        },
        Some(b) => b,
    };
    let folder = path_join(bundle, "10-Tracks");
    let p = path_join(folder.as_str(), file.as_str());
    proof {
        reveal_strlit("10-Tracks");
        reveal_strlit(".");
        reveal_strlit("..");
        if joinable_dir(bundle@) && plain_name(file@) {
            let t = tracks_folder();
            assert(plain_name(t)) by {
                assert(t.len() == 9);
                assert(t[0] == '1' && t[1] == '0' && t[2] == '-' && t[3] == 'T' && t[4] == 'r' && t[5] == 'a'
                    && t[6] == 'c' && t[7] == 'k' && t[8] == 's');
            }
            let d = folder@;
            assert(d.last() == 's');
            assert(!d.contains(':')) by {
                if d.contains(':') {
                    let i = choose|i: int| 0 <= i < d.len() && d[i] == ':';
                    if i < bundle@.len() {
                        assert(bundle@[i] == ':');
                    } else if i > bundle@.len() {
                        assert(t[i - bundle@.len() - 1] == ':');
                    }
                }
            }
            if bundle@.len() >= 2 {
                assert(d[0] == bundle@[0] && d[1] == bundle@[1]);
            } else {
                assert(d[0] == bundle@[0]);
            }
            assert(joined(bundle@, t, d));
        }
    }
    Some(p)
}

} // verus!
