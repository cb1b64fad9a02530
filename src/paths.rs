use vstd::prelude::*;
use vstd::string::*;
use crate::output::views;
use crate::text::{concat, push_char, str_eq};

verus! {

/// Whether the directory `d` is `/usr` or lies below it, as written: the
/// path is read character by character, not normalised, so `//usr` or
/// `/./usr` are not taken to be below `/usr`.
pub open spec fn under_usr(d: Seq<char>) -> bool {
    d.len() >= 4 && d[0] == '/' && d[1] == 'u' && d[2] == 's' && d[3] == 'r' && (d.len() == 4
        || d[4] == '/')
}

/// Whether the directory `d` is `/usr/local` or lies below it, as written.
pub open spec fn under_usr_local(d: Seq<char>) -> bool {
    d.len() >= 10 && under_usr(d) && d[5] == 'l' && d[6] == 'o' && d[7] == 'c' && d[8] == 'a'
        && d[9] == 'l' && (d.len() == 10 || d[10] == '/')
}

/// Whether the directory `d` lies in the trusted system root: `/usr` and
/// below, where the base system installs its libraries, but not
/// `/usr/local` and below, where libraries are installed locally. Libraries
/// found only in the system root are never linked statically.
pub open spec fn under_system_root(d: Seq<char>) -> bool {
    under_usr(d) && !under_usr_local(d)
}

/// The path of the file `f` inside the directory `d`: a separator is put
/// between them unless `d` is empty or already ends in one.
pub open spec fn join_path(d: Seq<char>, f: Seq<char>) -> Seq<char> {
    if d.len() == 0 || d.last() == '/' {
        d + f
    } else {
        d.push('/') + f
    }
}

/// The file name of the static archive of the library `lib`.
pub open spec fn lib_file(lib: Seq<char>) -> Seq<char> {
    "lib"@ + lib + ".a"@
}

/// Whether a static archive of `lib` stands among `existing` in one of
/// `dirs` that is not under the system root.
pub open spec fn archive_found(dirs: Seq<Seq<char>>, existing: Seq<Seq<char>>, lib: Seq<char>) -> bool {
    exists|i: int|
        0 <= i < dirs.len() && !under_system_root(#[trigger] dirs[i]) && existing.contains(
            join_path(dirs[i], lib_file(lib)),
        )
}

/// Whether the directory `d` lies in the trusted system root: `/usr` and
/// below, but not `/usr/local` and below.
pub fn is_under_system_root(d: &str) -> (r: bool)
    ensures
        r == under_system_root(d@),
{
    let n = d.unicode_len();
    if n < 4 {
        return false;
    }
    let usr = d.get_char(0) == '/' && d.get_char(1) == 'u' && d.get_char(2) == 's' && d.get_char(3)
        == 'r' && (n == 4 || d.get_char(4) == '/');
    if !usr {
        return false;
    }
    let local = n >= 10 && d.get_char(5) == 'l' && d.get_char(6) == 'o' && d.get_char(7) == 'c'
        && d.get_char(8) == 'a' && d.get_char(9) == 'l' && (n == 10 || d.get_char(10) == '/');
    !local
}

/// The path of the file `f` inside the directory `d`.
pub fn join(d: &str, f: &str) -> (r: String)
    ensures
        r@ == join_path(d@, f@),
{
    let n = d.unicode_len();
    if n == 0 || d.get_char(n - 1) == '/' {
        concat(d, f)
    } else {
        let mut s = String::from_str(d);
        push_char(&mut s, '/');
        s.append(f);
        s
    }
}

/// The file name of the static archive of the library `lib`.
pub fn archive_name(lib: &str) -> (r: String)
    ensures
        r@ == lib_file(lib@),
{
    let s = concat("lib", lib);
    concat(s.as_str(), ".a")
}

/// Whether `s` is among `v`.
pub fn contains_str(v: &Vec<String>, s: &str) -> (r: bool)
    ensures
        r == views(v@).contains(s@),
{
    let mut i: usize = 0;
    while i < v.len()
        invariant
            i <= v.len(),
            forall|k: int| 0 <= k < i ==> v@[k]@ != s@,
        decreases v.len() - i,
    {
        if str_eq(v[i].as_str(), s) {
            assert(views(v@)[i as int] == s@);
            return true;
        }
        i = i + 1;
    }
    assert forall|k: int| 0 <= k < views(v@).len() implies views(v@)[k] != s@ by {
        assert(views(v@)[k] == v@[k]@);
    }
    false
}

/// Whether a static archive of `lib` was found in one of `dirs` outside the
/// system root, `existing` being the archive paths that exist.
pub fn static_archive_found(dirs: &Vec<String>, existing: &Vec<String>, lib: &str) -> (r: bool)
    ensures
        r == archive_found(views(dirs@), views(existing@), lib@),
{
    let file = archive_name(lib);
    let ghost ds = views(dirs@);
    let mut i: usize = 0;
    while i < dirs.len()
        invariant
            ds == views(dirs@),
            file@ == lib_file(lib@),
            i <= dirs.len(),
            forall|k: int|
                0 <= k < i ==> !(!under_system_root(#[trigger] ds[k]) && views(existing@).contains(
                    join_path(ds[k], lib_file(lib@)),
                )),
        decreases dirs.len() - i,
    {
        assert(ds[i as int] == dirs@[i as int]@);
        if !is_under_system_root(dirs[i].as_str()) {
            let p = join(dirs[i].as_str(), file.as_str());
            if contains_str(existing, p.as_str()) {
                return true;
            }
        }
        i = i + 1;
    }
    false
}

} // verus!
