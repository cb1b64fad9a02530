use vstd::prelude::*;
use vstd::string::*;
use crate::output::{frameworks_of, pair_views, parse_flags, parse_spec, scan_frameworks, views, words};
use crate::paths::{archive_found, archive_name, is_under_system_root, join, join_path, lib_file, static_archive_found, under_system_root};
use crate::text::concat;
use crate::text::str_eq;

verus! {

/// What a build directive asks of the build system.
#[derive(PartialEq, Eq, Structural, Clone, Copy, Debug)]
pub enum DirectiveKind {
    /// Search a directory for native libraries.
    SearchNative,
    /// Search a directory for frameworks.
    SearchFramework,
    /// Link a library statically.
    LinkStatic,
    /// Link a library dynamically.
    LinkDynamic,
    /// Link a framework.
    LinkFramework,
}

/// A build directive: what is asked, and of which directory or library.
#[derive(Debug)]
pub struct Directive {
    pub kind: DirectiveKind,
    pub value: String,
}

pub open spec fn directive_views(v: Seq<Directive>) -> Seq<(DirectiveKind, Seq<char>)> {
    v.map_values(|d: Directive| (d.kind, d.value@))
}

/// The line that hands a directive of kind `kind` to the build system.
pub open spec fn directive_prefix(kind: DirectiveKind) -> Seq<char> {
    match kind {
        DirectiveKind::SearchNative => "cargo:rustc-link-search=native="@,
        DirectiveKind::SearchFramework => "cargo:rustc-link-search=framework="@,
        DirectiveKind::LinkStatic => "cargo:rustc-link-lib=static="@,
        DirectiveKind::LinkDynamic => "cargo:rustc-link-lib="@,
        DirectiveKind::LinkFramework => "cargo:rustc-link-lib=framework="@,
    }
}

impl Directive {
    /// The line, printed on standard output, that hands this directive to
    /// the build system.
    pub fn line(&self) -> (r: String)
        ensures
            r@ == directive_prefix(self.kind) + self.value@,
    {
        let prefix = match self.kind {
            DirectiveKind::SearchNative => "cargo:rustc-link-search=native=",
            DirectiveKind::SearchFramework => "cargo:rustc-link-search=framework=",
            DirectiveKind::LinkStatic => "cargo:rustc-link-lib=static=",
            DirectiveKind::LinkDynamic => "cargo:rustc-link-lib=",
            DirectiveKind::LinkFramework => "cargo:rustc-link-lib=framework=",
        };
        concat(prefix, self.value.as_str())
    }
}

/// What `pkg-config` reported for a library.
#[derive(Debug)]
pub struct Library {
    pub libs: Vec<String>,
    pub link_paths: Vec<String>,
    pub frameworks: Vec<String>,
    pub framework_paths: Vec<String>,
    pub include_paths: Vec<String>,
}

/// The values of the tokens whose flag is `flag`, in order.
pub open spec fn values_with(toks: Seq<(Seq<char>, Seq<char>)>, flag: Seq<char>) -> Seq<Seq<char>>
    decreases toks.len(),
{
    if toks.len() == 0 {
        Seq::empty()
    } else if toks.last().0 == flag {
        values_with(toks.drop_last(), flag).push(toks.last().1)
    } else {
        values_with(toks.drop_last(), flag)
    }
}

/// The search directives of the tokens, in order: one for each `-L` and
/// each `-F`.
pub open spec fn search_directives(toks: Seq<(Seq<char>, Seq<char>)>) -> Seq<
    (DirectiveKind, Seq<char>),
>
    decreases toks.len(),
{
    if toks.len() == 0 {
        Seq::empty()
    } else {
        let d = search_directives(toks.drop_last());
        let t = toks.last();
        if t.0 == "-L"@ {
            d.push((DirectiveKind::SearchNative, t.1))
        } else if t.0 == "-F"@ {
            d.push((DirectiveKind::SearchFramework, t.1))
        } else {
            d
        }
    }
}

/// Whether the library `lib` is linked statically: static mode was asked
/// for and a static archive of it stands outside the system root.
pub open spec fn links_statically(
    statik: bool,
    dirs: Seq<Seq<char>>,
    existing: Seq<Seq<char>>,
    lib: Seq<char>,
) -> bool {
    statik && archive_found(dirs, existing, lib)
}

pub open spec fn link_kind(
    statik: bool,
    dirs: Seq<Seq<char>>,
    existing: Seq<Seq<char>>,
    lib: Seq<char>,
) -> DirectiveKind {
    if links_statically(statik, dirs, existing, lib) {
        DirectiveKind::LinkStatic
    } else {
        DirectiveKind::LinkDynamic
    }
}

/// One link directive for each library, in order.
pub open spec fn link_directives(
    statik: bool,
    dirs: Seq<Seq<char>>,
    existing: Seq<Seq<char>>,
    libs: Seq<Seq<char>>,
) -> Seq<(DirectiveKind, Seq<char>)> {
    libs.map_values(|l: Seq<char>| (link_kind(statik, dirs, existing, l), l))
}

/// One link directive for each framework, in order.
pub open spec fn framework_directives(fws: Seq<Seq<char>>) -> Seq<(DirectiveKind, Seq<char>)> {
    fws.map_values(|f: Seq<char>| (DirectiveKind::LinkFramework, f))
}

/// The directives for the tool's output `output`, in the order in which they
/// are emitted: search paths, then libraries, then frameworks.
pub open spec fn output_directives(
    statik: bool,
    output: Seq<char>,
    existing: Seq<Seq<char>>,
) -> Seq<(DirectiveKind, Seq<char>)> {
    let toks = parse_spec(output);
    search_directives(toks) + link_directives(
        statik,
        values_with(toks, "-L"@),
        existing,
        values_with(toks, "-l"@),
    ) + framework_directives(frameworks_of(words(output)))
}

/// The library that the tool's output `output` describes.
pub open spec fn output_library(lib: Library, output: Seq<char>) -> bool {
    let toks = parse_spec(output);
    &&& views(lib.libs@) == values_with(toks, "-l"@)
    &&& views(lib.link_paths@) == values_with(toks, "-L"@)
    &&& views(lib.framework_paths@) == values_with(toks, "-F"@)
    &&& views(lib.include_paths@) == values_with(toks, "-I"@)
    &&& views(lib.frameworks@) == frameworks_of(words(output))
}

proof fn lemma_values_step(toks: Seq<(Seq<char>, Seq<char>)>, i: int, flag: Seq<char>)
    requires
        0 <= i < toks.len(),
    ensures
        values_with(toks.subrange(0, i + 1), flag) == if toks[i].0 == flag {
            values_with(toks.subrange(0, i), flag).push(toks[i].1)
        } else {
            values_with(toks.subrange(0, i), flag)
        },
{
    assert(toks.subrange(0, i + 1).drop_last() =~= toks.subrange(0, i));
}

proof fn lemma_flags_distinct()
    ensures
        "-L"@ != "-F"@,
        "-L"@ != "-I"@,
        "-L"@ != "-l"@,
        "-F"@ != "-I"@,
        "-F"@ != "-l"@,
        "-I"@ != "-l"@,
{
    reveal_strlit("-L");
    reveal_strlit("-F");
    reveal_strlit("-I");
    reveal_strlit("-l");
    assert("-L"@[1] != "-F"@[1]);
    assert("-L"@[1] != "-I"@[1]);
    assert("-L"@[1] != "-l"@[1]);
    assert("-F"@[1] != "-I"@[1]);
    assert("-F"@[1] != "-l"@[1]);
    assert("-I"@[1] != "-l"@[1]);
}

/// The library and the build directives for the output of a successful run
/// of the tool. A library is linked statically only where `statik` holds and
/// one of the output's `-L` directories outside the system root holds its
/// static archive; `existing` lists the archive paths that exist.
pub fn resolve_output(statik: bool, output: &str, existing: &Vec<String>) -> (r: (
    Library,
    Vec<Directive>,
))
    ensures
        output_library(r.0, output@),
        directive_views(r.1@) == output_directives(statik, output@, views(existing@)),
{
    let parts = parse_flags(output);
    let ghost toks = pair_views(parts@);
    let mut libs: Vec<String> = Vec::new();
    let mut link_paths: Vec<String> = Vec::new();
    let mut framework_paths: Vec<String> = Vec::new();
    let mut include_paths: Vec<String> = Vec::new();
    let mut directives: Vec<Directive> = Vec::new();
    let mut i: usize = 0;
    assert(toks.subrange(0, 0) =~= Seq::<(Seq<char>, Seq<char>)>::empty());
    assert(views(libs@) =~= Seq::<Seq<char>>::empty());
    assert(directive_views(directives@) =~= Seq::<(DirectiveKind, Seq<char>)>::empty());
    while i < parts.len()
        invariant
            toks == pair_views(parts@),
            i <= parts.len(),
            views(libs@) == values_with(toks.subrange(0, i as int), "-l"@),
            views(link_paths@) == values_with(toks.subrange(0, i as int), "-L"@),
            views(framework_paths@) == values_with(toks.subrange(0, i as int), "-F"@),
            views(include_paths@) == values_with(toks.subrange(0, i as int), "-I"@),
            directive_views(directives@) == search_directives(toks.subrange(0, i as int)),
        decreases parts.len() - i,
    {
        let ghost pre = toks.subrange(0, i as int);
        assert(toks.subrange(0, i + 1).drop_last() =~= pre);
        proof {
            lemma_values_step(toks, i as int, "-l"@);
            lemma_values_step(toks, i as int, "-L"@);
            lemma_values_step(toks, i as int, "-F"@);
            lemma_values_step(toks, i as int, "-I"@);
            lemma_flags_distinct();
        }
        assert(toks[i as int] == (parts@[i as int].0@, parts@[i as int].1@));
        let ghost (l0, d0, f0, i0, dv0) = (libs@, link_paths@, framework_paths@, include_paths@, directives@);
        let flag = parts[i].0.as_str();
        let value = &parts[i].1;
        if str_eq(flag, "-L") {
            directives.push(Directive { kind: DirectiveKind::SearchNative, value: value.clone() });
            link_paths.push(value.clone());
            assert(views(link_paths@) =~= views(d0).push(value@));
            assert(directive_views(directives@) =~= directive_views(dv0).push((DirectiveKind::SearchNative, value@)));
        } else if str_eq(flag, "-F") {
            directives.push(Directive { kind: DirectiveKind::SearchFramework, value: value.clone() });
            framework_paths.push(value.clone());
            assert(views(framework_paths@) =~= views(f0).push(value@));
            assert(directive_views(directives@) =~= directive_views(dv0).push((DirectiveKind::SearchFramework, value@)));
        } else if str_eq(flag, "-I") {
            include_paths.push(value.clone());
            assert(views(include_paths@) =~= views(i0).push(value@));
        } else if str_eq(flag, "-l") {
            libs.push(value.clone());
            assert(views(libs@) =~= views(l0).push(value@));
        }
        i = i + 1;
    }
    assert(toks.subrange(0, parts.len() as int) =~= toks);
    let ghost searches = directives@;
    let ghost dirs = views(link_paths@);
    let mut j: usize = 0;
    while j < libs.len()
        invariant
            j <= libs.len(),
            dirs == views(link_paths@),
            directive_views(directives@) == directive_views(searches) + link_directives(
                statik,
                dirs,
                views(existing@),
                views(libs@).subrange(0, j as int),
            ),
        decreases libs.len() - j,
    {
        let ghost dv0 = directives@;
        let lib = &libs[j];
        let kind = if statik && static_archive_found(&link_paths, existing, lib.as_str()) {
            DirectiveKind::LinkStatic
        } else {
            DirectiveKind::LinkDynamic
        };
        directives.push(Directive { kind, value: lib.clone() });
        assert(views(libs@).subrange(0, j + 1) =~= views(libs@).subrange(0, j as int).push(lib@));
        assert(directive_views(directives@) =~= directive_views(dv0).push((kind, lib@)));
        assert(link_directives(statik, dirs, views(existing@), views(libs@).subrange(0, j + 1))
            =~= link_directives(statik, dirs, views(existing@), views(libs@).subrange(0, j as int)).push((kind, lib@)));
        j = j + 1;
    }
    assert(views(libs@).subrange(0, libs.len() as int) =~= views(libs@));
    let ghost linked = directives@;
    let frameworks = scan_frameworks(output);
    let mut k: usize = 0;
    while k < frameworks.len()
        invariant
            k <= frameworks.len(),
            directive_views(directives@) == directive_views(linked) + framework_directives(
                views(frameworks@).subrange(0, k as int),
            ),
        decreases frameworks.len() - k,
    {
        let ghost dv0 = directives@;
        let f = frameworks[k].clone();
        directives.push(Directive { kind: DirectiveKind::LinkFramework, value: f });
        assert(directive_views(directives@) =~= directive_views(dv0).push((DirectiveKind::LinkFramework, frameworks@[k as int]@)));
        assert(framework_directives(views(frameworks@).subrange(0, k + 1)) =~= framework_directives(
            views(frameworks@).subrange(0, k as int),
        ).push((DirectiveKind::LinkFramework, frameworks@[k as int]@)));
        k = k + 1;
    }
    assert(views(frameworks@).subrange(0, frameworks.len() as int) =~= views(frameworks@));
    let lib = Library { libs, link_paths, frameworks, framework_paths, include_paths };
    (lib, directives)
}

/// A library whose static archives all lie under the system root is linked
/// dynamically, even in static mode; in static mode, one with an archive in a
/// directory outside the system root is linked statically.
pub proof fn lemma_system_root_never_static(
    statik: bool,
    dirs: Seq<Seq<char>>,
    existing: Seq<Seq<char>>,
    lib: Seq<char>,
)
    ensures
        (forall|i: int|
            0 <= i < dirs.len() && existing.contains(join_path(dirs[i], lib_file(lib)))
                ==> under_system_root(#[trigger] dirs[i])) ==> link_kind(statik, dirs, existing, lib)
            == DirectiveKind::LinkDynamic,
        (statik && exists|i: int|
            0 <= i < dirs.len() && !under_system_root(#[trigger] dirs[i]) && existing.contains(
                join_path(dirs[i], lib_file(lib)),
            )) ==> link_kind(statik, dirs, existing, lib) == DirectiveKind::LinkStatic,
{
}

/// The static archive paths of `lib` in those of `dirs` that are not under
/// the system root, in the order of `dirs`.
pub open spec fn dir_candidates(dirs: Seq<Seq<char>>, lib: Seq<char>) -> Seq<Seq<char>>
    decreases dirs.len(),
{
    if dirs.len() == 0 {
        Seq::empty()
    } else if under_system_root(dirs.last()) {
        dir_candidates(dirs.drop_last(), lib)
    } else {
        dir_candidates(dirs.drop_last(), lib).push(join_path(dirs.last(), lib_file(lib)))
    }
}

/// The static archive paths of each of `libs` in turn.
pub open spec fn candidates(dirs: Seq<Seq<char>>, libs: Seq<Seq<char>>) -> Seq<Seq<char>>
    decreases libs.len(),
{
    if libs.len() == 0 {
        Seq::empty()
    } else {
        candidates(dirs, libs.drop_last()) + dir_candidates(dirs, libs.last())
    }
}

/// The static archive paths whose presence decides how the libraries of
/// `output` are linked: none in dynamic mode.
pub open spec fn archive_queries(statik: bool, output: Seq<char>) -> Seq<Seq<char>> {
    let toks = parse_spec(output);
    if statik {
        candidates(values_with(toks, "-L"@), values_with(toks, "-l"@))
    } else {
        Seq::empty()
    }
}

/// The static archive paths that must be looked up on disk before the
/// output `output` can be resolved: those of each library of the output in
/// each of its `-L` directories outside the system root.
pub fn archive_paths(statik: bool, output: &str) -> (r: Vec<String>)
    ensures
        views(r@) == archive_queries(statik, output@),
{
    let mut out: Vec<String> = Vec::new();
    if !statik {
        assert(views(out@) =~= Seq::<Seq<char>>::empty());
        return out;
    }
    let none: Vec<String> = Vec::new();
    let (lib, _) = resolve_output(statik, output, &none);
    let ghost dirs = views(lib.link_paths@);
    let ghost libs = views(lib.libs@);
    let mut i: usize = 0;
    assert(views(out@) =~= Seq::<Seq<char>>::empty());
    assert(libs.subrange(0, 0) =~= Seq::<Seq<char>>::empty());
    while i < lib.libs.len()
        invariant
            dirs == views(lib.link_paths@),
            libs == views(lib.libs@),
            i <= lib.libs.len(),
            views(out@) == candidates(dirs, libs.subrange(0, i as int)),
        decreases lib.libs.len() - i,
    {
        let name = lib.libs[i].as_str();
        let file = archive_name(name);
        let ghost base = views(out@);
        let mut j: usize = 0;
        assert(dirs.subrange(0, 0) =~= Seq::<Seq<char>>::empty());
        assert(base + Seq::<Seq<char>>::empty() =~= base);
        while j < lib.link_paths.len()
            invariant
                dirs == views(lib.link_paths@),
                libs == views(lib.libs@),
                i < lib.libs.len(),
                name@ == libs[i as int],
                file@ == lib_file(name@),
                j <= lib.link_paths.len(),
                views(out@) == base + dir_candidates(dirs.subrange(0, j as int), name@),
            decreases lib.link_paths.len() - j,
        {
            let d = lib.link_paths[j].as_str();
            assert(dirs.subrange(0, j + 1).drop_last() =~= dirs.subrange(0, j as int));
            assert(dirs[j as int] == d@);
            if !is_under_system_root(d) {
                let ghost before = views(out@);
                out.push(join(d, file.as_str()));
                assert(views(out@) =~= before.push(join_path(d@, lib_file(name@))));
                assert(views(out@) =~= base + dir_candidates(dirs.subrange(0, j + 1), name@));
            }
            j = j + 1;
        }
        assert(dirs.subrange(0, lib.link_paths.len() as int) =~= dirs);
        assert(libs.subrange(0, i + 1).drop_last() =~= libs.subrange(0, i as int));
        i = i + 1;
    }
    assert(libs.subrange(0, lib.libs.len() as int) =~= libs);
    out
}

} // verus!
