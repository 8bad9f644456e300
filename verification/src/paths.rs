//! The paths under `<home>/immutag` that the subcommands read and write,
//! with Unix path rules (the tool runs on Unix only). Taking a path apart by
//! components is left to `std::path::Path`, behind two small trusted
//! wrappers; joining paths, and what the library does with the parts, is
//! verified.

use vstd::prelude::*;

verus! {

/// `Path::new(path).file_name()`, as text.
pub uninterp spec fn path_file_name(path: Seq<char>) -> Option<Seq<char>>;

/// `Path::new(path).strip_prefix(base)`, as text; `None` where `base` is not
/// a prefix of `path`, component by component.
pub uninterp spec fn path_strip_prefix(path: Seq<char>, base: Seq<char>) -> Option<Seq<char>>;

/// What `Path::new(base).join(tail)` gives on Unix, as text: an absolute tail
/// replaces the base; otherwise the tail follows the base, with a `/`
/// between them unless the base is empty or already ends in `/`.
pub open spec fn path_join(base: Seq<char>, tail: Seq<char>) -> Seq<char> {
    if tail.len() > 0 && tail[0] == '/' {
        tail
    } else if base.len() == 0 || base.last() == '/' {
        base + tail
    } else {
        base + "/"@ + tail
    }
}

pub open spec fn opt_string_text(o: Option<String>) -> Option<Seq<char>> {
    match o {
        Some(s) => Some(s@),
        None => None,
    }
}

/// A plain file name: not empty, no `/`, and neither `.` nor `..`.
pub open spec fn plain_name(s: Seq<char>) -> bool {
    single_component(s) && s != ".."@
}

/// What follows position `k` of `path`.
pub open spec fn after(path: Seq<char>, k: int) -> Seq<char> {
    path.subrange(k + 1, path.len() as int)
}

/// Calls `std::path::Path::file_name` on `path` (Unix). Trusted: the result
/// is named by `path_file_name`; one short fact is stated: a path that ends
/// in `/` and then a plain name has that name as its file name. The other
/// component rules are not stated.
#[verifier::external_body]
fn file_name_of(path: &str) -> (r: Option<String>)
    ensures
        opt_string_text(r) == path_file_name(path@),
        forall|k: int|
            0 <= k < path@.len() && #[trigger] path@[k] == '/' && plain_name(after(path@, k))
                ==> opt_string_text(r) == Some(after(path@, k)),
{
    std::path::Path::new(path).file_name().map(|n| n.to_string_lossy().into_owned())
}

/// `/<dir>/` where `<dir>` is one plain component: not empty, no `/`, and
/// neither `.` nor `..`.
pub open spec fn simple_dir_base(base: Seq<char>) -> bool {
    &&& base.len() >= 3
    &&& base[0] == '/'
    &&& base.last() == '/'
    &&& single_component(base.subrange(1, base.len() - 1))
    &&& base.subrange(1, base.len() - 1) != ".."@
}

pub open spec fn starts_with_slash(s: Seq<char>) -> bool {
    s.len() > 0 && s[0] == '/'
}

/// One component: not empty, no `/`, not `.`.
pub open spec fn single_component(s: Seq<char>) -> bool {
    s.len() > 0 && !s.contains('/') && s != "."@
}

/// A relative path whose first and last components are plain: it does not
/// start or end with `/`, does not start with a `.` component and does not
/// end with one.
pub open spec fn clean_relative(s: Seq<char>) -> bool {
    &&& s.len() > 0
    &&& s[0] != '/'
    &&& s.last() != '/'
    &&& !(s[0] == '.' && (s.len() == 1 || s[1] == '/'))
    &&& !(s.len() >= 2 && s.last() == '.' && s[s.len() - 2] == '/')
}

/// What follows `base` in `path`, by length.
pub open spec fn last_component(path: Seq<char>, base: Seq<char>) -> Seq<char> {
    path.subrange(base.len() as int, path.len() as int)
}

/// Calls `std::path::Path::strip_prefix` (Unix). Trusted: the result is
/// named by `path_strip_prefix`, with `None` for the `StripPrefixError`
/// case. Two short facts are stated, for a base `/<dir>/` whose `<dir>` is
/// one plain component: a relative path (one that does not start with `/`)
/// does not start with it, since only whole components match; and a path
/// that is the base followed by a clean relative path leaves that relative
/// path as written. The general component rules are not stated.
#[verifier::external_body]
fn strip_prefix_of(path: &str, base: &str) -> (r: Option<String>)
    ensures
        opt_string_text(r) == path_strip_prefix(path@, base@),
        (simple_dir_base(base@) && !starts_with_slash(path@)) ==> r is None,
        (simple_dir_base(base@) && path@ == base@ + last_component(path@, base@)
            && clean_relative(last_component(path@, base@))) ==> opt_string_text(r) == Some(
            last_component(path@, base@),
        ),
{
    std::path::Path::new(path).strip_prefix(base).ok().map(|p| p.to_string_lossy().into_owned())
}

/// Joins two paths as `Path::join` does on Unix.
pub fn join_path(base: &str, tail: &str) -> (r: String)
    ensures
        r@ == path_join(base@, tail@),
{
    let tail_len = tail.unicode_len();
    if tail_len > 0 && tail.get_char(0) == '/' {
        return tail.to_owned();
    }
    let base_len = base.unicode_len();
    let mut r = base.to_owned();
    if base_len > 0 && base.get_char(base_len - 1) != '/' {
        r.append("/");
    }
    r.append(tail);
    r
}

/// Where a file is staged before the store takes it in.
pub open spec fn stage_text(home: Seq<char>, name: Seq<char>) -> Seq<char> {
    home + "/immutag/stage/"@ + name
}

/// `<home>/immutag/stage/<name>`.
pub fn stage_path(home: &str, name: &str) -> (r: String)
    ensures
        r@ == stage_text(home@, name@),
{
    let mut r = home.to_owned();
    r.append("/immutag/stage/");
    r.append(name);
    r
}

/// A file's staging: the name it keeps and the path it is copied to.
pub struct Staging {
    pub name: String,
    pub path: String,
}

/// A (canonical) file path is staged under its final component; `None`
/// where the path has none.
pub open spec fn staging_text(home: Seq<char>, canonical: Seq<char>) -> Option<(Seq<char>, Seq<char>)> {
    match path_file_name(canonical) {
        Some(n) => Some((n, stage_text(home, n))),
        None => None,
    }
}

pub fn staging(home: &str, canonical: &str) -> (r: Option<Staging>)
    ensures
        match staging_text(home@, canonical@) {
            Some(v) => r matches Some(st) && st.name@ == v.0 && st.path@ == v.1,
            None => r is None,
        },
        forall|k: int|
            0 <= k < canonical@.len() && #[trigger] canonical@[k] == '/' && plain_name(
                after(canonical@, k),
            ) ==> (r matches Some(st) && st.name@ == after(canonical@, k) && st.path@ == stage_text(
                home@,
                after(canonical@, k),
            )),
{
    match file_name_of(canonical) {
        Some(name) => {
            let path = stage_path(home, name.as_str());
            Some(Staging { name, path })
        },
        None => None,
    }
}

/// Where the store writes the path that `find` chose.
pub open spec fn find_output_text(home: Seq<char>) -> Seq<char> {
    home + "/immutag/.find_output"@
}

/// `<home>/immutag/.find_output`.
pub fn find_output_path(home: &str) -> (r: String)
    ensures
        r@ == find_output_text(home@),
{
    let mut r = home.to_owned();
    r.append("/immutag/.find_output");
    r
}

/// A text without its last character (unchanged if empty), as
/// `String::pop` leaves it.
pub open spec fn without_last(s: Seq<char>) -> Seq<char> {
    if s.len() == 0 {
        s
    } else {
        s.drop_last()
    }
}

/// Drops the last character: the line end that follows the path the store
/// wrote.
pub fn link_target(joined: &str) -> (r: String)
    ensures
        r@ == without_last(joined@),
{
    let n = joined.unicode_len();
    if n == 0 {
        joined.to_owned()
    } else {
        let r = joined.substring_char(0, n - 1).to_owned();
        assert(r@ =~= without_last(joined@));
        r
    }
}

/// The symbolic link `find` makes, and the file it points to.
pub struct FileLink {
    pub target: String,
    pub link: String,
}

/// The link for what the store wrote to `.find_output`: the path there has
/// its `/root/` container prefix replaced by the home directory and its
/// trailing line end dropped; the link is `<home>/immutag/file`. `None`
/// where the written path does not start with `/root/`.
pub open spec fn find_link_text(home: Seq<char>, output: Seq<char>) -> Option<(Seq<char>, Seq<char>)> {
    match path_strip_prefix(output, "/root/"@) {
        None => None,
        Some(rel) => Some(
            (without_last(path_join(home, rel)), path_join(home, "immutag/file"@)),
        ),
    }
}

pub fn find_link(home: &str, find_output: &str) -> (r: Option<FileLink>)
    ensures
        match find_link_text(home@, find_output@) {
            Some(v) => r matches Some(l) && l.target@ == v.0 && l.link@ == v.1,
            None => r is None,
        },
        !starts_with_slash(find_output@) ==> r is None,
        find_output@ == "/root/"@ + last_component(find_output@, "/root/"@) && clean_relative(
            last_component(find_output@, "/root/"@),
        ) ==> (r matches Some(l) && l.target@ == without_last(
            path_join(home@, last_component(find_output@, "/root/"@)),
        )),
{
    proof {
        reveal_strlit("/root/");
        reveal_strlit("root");
        reveal_strlit(".");
        reveal_strlit("..");
        let base = "/root/"@;
        assert(base.subrange(1, base.len() - 1) =~= "root"@);
        assert(!"root"@.contains('/')) by {
            if "root"@.contains('/') {
                let i = choose|i: int| 0 <= i < "root"@.len() && "root"@[i] == '/';
            }
        }
        assert("root"@ != "."@ && "root"@ != ".."@) by {
            assert("root"@.len() != "."@.len() && "root"@.len() != ".."@.len());
        }
        assert(simple_dir_base(base));
    }
    match strip_prefix_of(find_output, "/root/") {
        None => None,
        Some(rel) => {
            let joined = join_path(home, rel.as_str());
            let target = link_target(joined.as_str());
            let link = join_path(home, "immutag/file");
            Some(FileLink { target, link })
        },
    }
}

/// Dropping the line end keeps every character before it and only those;
/// an empty text stays empty.
pub proof fn dropping_the_line_end_keeps_the_rest(s: Seq<char>)
    ensures
        s.len() == 0 ==> without_last(s).len() == 0,
        s.len() > 0 ==> without_last(s).len() == s.len() - 1 && without_last(s).push(s.last()) == s,
{
    if s.len() > 0 {
        assert(without_last(s).push(s.last()) =~= s);
    }
}

/// Joining an absolute tail gives the tail. Joining a relative tail keeps
/// the base as it is, then the tail as it is, with exactly one `/` between
/// them when the base is not empty.
pub proof fn joining_keeps_base_then_tail(base: Seq<char>, tail: Seq<char>)
    ensures
        (tail.len() > 0 && tail[0] == '/') ==> path_join(base, tail) == tail,
        !(tail.len() > 0 && tail[0] == '/') ==> {
            let j = path_join(base, tail);
            &&& j.subrange(0, base.len() as int) == base
            &&& j.subrange(j.len() - tail.len(), j.len() as int) == tail
            &&& (base.len() == 0 ==> j == tail)
            &&& (base.len() > 0 ==> j[j.len() - tail.len() - 1] == '/' && j.len() - tail.len() - 1
                <= base.len())
        },
{
    reveal_strlit("/");
    let j = path_join(base, tail);
    if !(tail.len() > 0 && tail[0] == '/') {
        assert(j.subrange(0, base.len() as int) =~= base);
        assert(j.subrange(j.len() - tail.len(), j.len() as int) =~= tail);
        if base.len() == 0 {
            assert(j =~= tail);
        }
    }
}

} // verus!
