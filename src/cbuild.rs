use vstd::prelude::*;
use crate::ibht::header_suffix;
use crate::manifest::{ProjectManifest, directive_values};
use crate::table::TextMap;
use crate::text::{concat, same_text, ends_with, has_prefix, has_suffix, replace_char, replace_char_spec, slice, split_char, split_on, starts_with, views};

verus! {

/// The kind of artifact a C project emits.
#[derive(Clone, Copy, PartialEq, Eq, Structural, Debug)]
pub enum Emit {
    Binary,
    Dylib,
    Staticlib,
}

pub open spec fn emit_spec(t: Seq<char>) -> (Emit, bool) {
    if t == "binary"@ || t == "executable"@ {
        (Emit::Binary, true)
    } else if t == "shared"@ || t == "dylib"@ {
        (Emit::Dylib, true)
    } else if t == "staticlib"@ {
        (Emit::Staticlib, true)
    } else {
        (Emit::Binary, false)
    }
}

/// The artifact kind that an `Emit` property names, and whether it was recognised:
/// `binary`/`executable`, `shared`/`dylib`, `staticlib`; anything else falls back to a
/// binary.
pub fn emit_of(text: &str) -> (r: (Emit, bool))
    ensures
        r == emit_spec(text@),
{
    if same_text(text, "binary") || same_text(text, "executable") {
        (Emit::Binary, true)
    } else if same_text(text, "shared") || same_text(text, "dylib") {
        (Emit::Dylib, true)
    } else if same_text(text, "staticlib") {
        (Emit::Staticlib, true)
    } else {
        (Emit::Binary, false)
    }
}

/// The settings of a C build, read from the manifest.
pub struct CSettings {
    pub cc: String,
    pub ld: String,
    pub opt: String,
    pub artifact: String,
    pub cflags: Vec<String>,
    pub ldflags: Vec<String>,
    pub emit: Emit,
    pub emit_recognized: bool,
    pub debug_info: bool,
    pub force_full_rebuild: bool,
}

/// A comma-separated list property, empty where the property is absent.
pub open spec fn list_prop(m: &ProjectManifest, key: Seq<char>) -> Seq<Seq<char>> {
    match m.prop(key) {
        Some(t) => split_on(t, ','),
        None => Seq::empty(),
    }
}

fn list_property(m: &ProjectManifest, key: &str) -> (r: Vec<String>)
    ensures
        views(r@) == list_prop(m, key@),
{
    match m.properties.get(key) {
        Some(t) => split_char(t.as_str(), ','),
        None => {
            let r: Vec<String> = Vec::new();
            assert(views(r@) =~= Seq::<Seq<char>>::empty());
            r
        },
    }
}

pub open spec fn string_prop(m: &ProjectManifest, key: Seq<char>, default: Seq<char>) -> Seq<char> {
    match m.prop(key) {
        Some(t) => t,
        None => default,
    }
}

pub open spec fn bool_prop(m: &ProjectManifest, key: Seq<char>, default: bool) -> bool {
    match m.prop(key) {
        Some(t) => match crate::number::bool_value(t) {
            Some(b) => b,
            None => default,
        },
        None => default,
    }
}

impl CSettings {
    /// The C settings of a manifest: compiler, linker, optimisation level, artifact name,
    /// extra flags (comma-separated), artifact kind, debug information and whether to
    /// rebuild everything.
    pub fn from_manifest(m: &ProjectManifest) -> (r: CSettings)
        ensures
            r.cc@ == string_prop(m, "Override-C-Compiler"@, "cc"@),
            r.ld@ == string_prop(m, "Override-C-Linker"@, "cc"@),
            r.opt@ == string_prop(m, "Compiler-Opt-Level"@, "2"@),
            r.artifact@ == string_prop(m, "Executable-Name"@, "binary"@),
            views(r.cflags@) == list_prop(m, "Additional-CC-Flags"@),
            views(r.ldflags@) == list_prop(m, "Additional-LD-Flags"@),
            (r.emit, r.emit_recognized) == emit_spec(string_prop(m, "Emit"@, "binary"@)),
            r.debug_info == bool_prop(m, "debug-info"@, false),
            r.force_full_rebuild == bool_prop(m, "force-full-rebuild"@, false),
    {
        let emit_text = m.get_string_property("Emit", "binary");
        let (emit, emit_recognized) = emit_of(emit_text.as_str());
        CSettings {
            cc: m.get_string_property("Override-C-Compiler", "cc"),
            ld: m.get_string_property("Override-C-Linker", "cc"),
            opt: m.get_string_property("Compiler-Opt-Level", "2"),
            artifact: m.get_string_property("Executable-Name", "binary"),
            cflags: list_property(m, "Additional-CC-Flags"),
            ldflags: list_property(m, "Additional-LD-Flags"),
            emit,
            emit_recognized,
            debug_info: m.get_bool_property("debug-info", false),
            force_full_rebuild: m.get_bool_property("force-full-rebuild", false),
        }
    }
}

/// The object file of a source file: `build/<path with / as _>-<hash>.o`.
pub open spec fn object_spec(path: Seq<char>, hash: Seq<char>) -> Seq<char> {
    "build/"@ + replace_char_spec(path, '/', '_') + seq!['-'] + hash + ".o"@
}

/// The object file that compiling source `path` at content hash `hash` gives.
pub fn object_path(path: &str, hash: &str) -> (r: String)
    ensures
        r@ == object_spec(path@, hash@),
{
    proof {
        reveal_strlit("_");
        reveal_strlit("-");
        assert("-"@ =~= seq!['-']);
    }
    let flat = replace_char(path, '/', "_");
    let a = concat("build/", flat.as_str());
    let b = concat(a.as_str(), "-");
    let c = concat(b.as_str(), hash);
    let r = concat(c.as_str(), ".o");
    assert(r@ =~= object_spec(path@, hash@));
    r
}

/// The objects to link: one per source file that is not a header, in table order.
pub open spec fn objects_spec(recs: Seq<(Seq<char>, Seq<char>)>) -> Seq<Seq<char>>
    decreases recs.len(),
{
    if recs.len() == 0 {
        Seq::empty()
    } else {
        let r = objects_spec(recs.drop_last());
        if has_suffix(recs.last().0, header_suffix()) {
            r
        } else {
            r.push(object_spec(recs.last().0, recs.last().1))
        }
    }
}

/// The object files of every source file of the tree's hash table (headers excepted).
pub fn link_objects(hashes: &TextMap) -> (r: Vec<String>)
    ensures
        views(r@) == objects_spec(hashes.records()),
{
    proof {
        reveal_strlit(".h");
        assert(".h"@ =~= header_suffix());
    }
    let mut r: Vec<String> = Vec::new();
    let mut i: usize = 0;
    assert(views(r@) =~= Seq::<Seq<char>>::empty());
    while i < hashes.len()
        invariant
            i <= hashes.records().len(),
            views(r@) == objects_spec(hashes.records().subrange(0, i as int)),
            ".h"@ == header_suffix(),
        decreases hashes.records().len() - i,
    {
        let ghost before = r@;
        assert(hashes.records().subrange(0, i + 1).drop_last() =~= hashes.records().subrange(0, i as int));
        assert(hashes.records().subrange(0, i + 1).last() == hashes.records()[i as int]);
        let k = hashes.key_at(i);
        if !ends_with(k.as_str(), ".h") {
            let o = object_path(k.as_str(), hashes.value_at(i).as_str());
            r.push(o);
            assert(views(r@) =~= views(before).push(o@));
        }
        i = i + 1;
    }
    assert(hashes.records().subrange(0, hashes.records().len() as int) =~= hashes.records());
    r
}

/// How a `@Dependency` entry is provided.
pub enum DependencyKind {
    /// `raw/<name>`: the object file `lib/obj/<name>.o`.
    Raw(String),
    /// `sys/<name>`: a system package looked up with pkgconf.
    System(String),
    /// `provided/<name>`: a library the system provides, linked as `-l<name>`.
    Provided(String),
    /// Anything else: dependency notation resolved through the store.
    Store(String),
}

pub open spec fn dependency_spec_matches(d: Seq<char>, k: DependencyKind) -> bool {
    match k {
        DependencyKind::Raw(n) => has_prefix(d, "raw/"@) && n@ == d.subrange(4, d.len() as int),
        DependencyKind::System(n) => !has_prefix(d, "raw/"@) && has_prefix(d, "sys/"@) && n@ == d.subrange(4, d.len() as int),
        DependencyKind::Provided(n) => !has_prefix(d, "raw/"@) && !has_prefix(d, "sys/"@) && has_prefix(d, "provided/"@)
            && n@ == d.subrange(9, d.len() as int),
        DependencyKind::Store(n) => !has_prefix(d, "raw/"@) && !has_prefix(d, "sys/"@) && !has_prefix(d, "provided/"@)
            && n@ == d,
    }
}

/// Classifies a `@Dependency` entry by its prefix.
pub fn classify_dependency(dep: &str) -> (r: DependencyKind)
    ensures
        dependency_spec_matches(dep@, r),
{
    proof {
        reveal_strlit("raw/");
        reveal_strlit("sys/");
        reveal_strlit("provided/");
    }
    let n = dep.unicode_len();
    if starts_with(dep, "raw/") {
        DependencyKind::Raw(slice(dep, 4, n))
    } else if starts_with(dep, "sys/") {
        DependencyKind::System(slice(dep, 4, n))
    } else if starts_with(dep, "provided/") {
        DependencyKind::Provided(slice(dep, 9, n))
    } else {
        DependencyKind::Store(dep.to_string())
    }
}

/// The object file of a raw dependency: `lib/obj/<name>.o`.
pub fn raw_object(name: &str) -> (r: String)
    ensures
        r@ == "lib/obj/"@ + name@ + ".o"@,
{
    let a = concat("lib/obj/", name);
    concat(a.as_str(), ".o")
}

/// A flag `prefix` + `value`.
pub fn flag(prefix: &str, value: &str) -> (r: String)
    ensures
        r@ == prefix@ + value@,
{
    concat(prefix, value)
}

/// The flags that pkgconf printed: its output split at spaces, without pieces that are
/// a lone space or a lone newline.
pub open spec fn pkgconf_words(ws: Seq<Seq<char>>) -> Seq<Seq<char>>
    decreases ws.len(),
{
    if ws.len() == 0 {
        Seq::empty()
    } else {
        let r = pkgconf_words(ws.drop_last());
        if ws.last() == " "@ || ws.last() == "\n"@ {
            r
        } else {
            r.push(ws.last())
        }
    }
}

pub open spec fn pkgconf_link_spec(out: Seq<char>) -> Seq<Seq<char>> {
    pkgconf_words(split_on(out, ' '))
}

/// The flags among `words` that the compiler needs too: those that start with `-I`.
pub open spec fn pkgconf_cc_spec(words: Seq<Seq<char>>) -> Seq<Seq<char>>
    decreases words.len(),
{
    if words.len() == 0 {
        Seq::empty()
    } else {
        let r = pkgconf_cc_spec(words.drop_last());
        if has_prefix(words.last(), "-I"@) {
            r.push(words.last())
        } else {
            r
        }
    }
}

/// Splits pkgconf's output into linker flags (all of them) and compiler flags.
pub fn pkgconf_flags(output: &str) -> (r: (Vec<String>, Vec<String>))
    ensures
        views(r.0@) == pkgconf_link_spec(output@),
        views(r.1@) == pkgconf_cc_spec(pkgconf_link_spec(output@)),
{
    let words = split_char(output, ' ');
    let ghost ws = views(words@);
    let mut link: Vec<String> = Vec::new();
    let mut cc: Vec<String> = Vec::new();
    let mut i: usize = 0;
    assert(views(link@) =~= Seq::<Seq<char>>::empty());
    assert(views(cc@) =~= Seq::<Seq<char>>::empty());
    assert(ws.subrange(0, 0) =~= Seq::<Seq<char>>::empty());
    while i < words.len()
        invariant
            i <= words.len(),
            ws == views(words@),
            views(link@) == pkgconf_words(ws.subrange(0, i as int)),
            views(cc@) == pkgconf_cc_spec(pkgconf_words(ws.subrange(0, i as int))),
        decreases words.len() - i,
    {
        let ghost before_link = link@;
        let ghost before_cc = cc@;
        assert(ws.subrange(0, i + 1).drop_last() =~= ws.subrange(0, i as int));
        assert(ws.subrange(0, i + 1).last() == words@[i as int]@);
        let w = words[i].as_str();
        if !same_text(w, " ") && !same_text(w, "\n") {
            link.push(words[i].clone());
            assert(views(link@) =~= views(before_link).push(words@[i as int]@));
            let ghost kept = pkgconf_words(ws.subrange(0, i + 1));
            assert(kept.drop_last() =~= pkgconf_words(ws.subrange(0, i as int)));
            assert(kept.last() == words@[i as int]@);
            if starts_with(w, "-I") {
                cc.push(words[i].clone());
                assert(views(cc@) =~= views(before_cc).push(words@[i as int]@));
            }
        }
        i = i + 1;
    }
    assert(ws.subrange(0, words@.len() as int) =~= ws);
    (link, cc)
}

/// Adds `xs` to the end of `r`.
pub fn append_all(r: &mut Vec<String>, xs: &Vec<String>)
    ensures
        views(final(r)@) == views(old(r)@) + views(xs@),
{
    let ghost start = views(r@);
    let mut i: usize = 0;
    while i < xs.len()
        invariant
            i <= xs.len(),
            views(r@) == start + views(xs@).subrange(0, i as int),
        decreases xs.len() - i,
    {
        let ghost before = r@;
        r.push(xs[i].clone());
        assert(views(r@) =~= views(before).push(xs@[i as int]@));
        assert(views(xs@).subrange(0, i + 1) =~= views(xs@).subrange(0, i as int).push(xs@[i as int]@));
        i = i + 1;
    }
    assert(views(xs@).subrange(0, xs@.len() as int) =~= views(xs@));
}

/// The flags of a dependency built in the store at `path`: linker flags
/// `-L<path>/build`, `-I<path>/export` and `-l<its Executable-Name>`, and compiler flag
/// `-I<path>/export`.
pub fn store_dependency_flags(path: &str, dep_manifest: &ProjectManifest) -> (r: (Vec<String>, Vec<String>))
    ensures
        views(r.0@) == seq![
            "-L"@ + path@ + "/build"@,
            "-I"@ + path@ + "/export"@,
            "-l"@ + string_prop(dep_manifest, "Executable-Name"@, "LIBRESOLVEERROR"@),
        ],
        views(r.1@) == seq!["-I"@ + path@ + "/export"@],
{
    let lib = concat(flag("-L", path).as_str(), "/build");
    let inc = concat(flag("-I", path).as_str(), "/export");
    let name = dep_manifest.get_string_property("Executable-Name", "LIBRESOLVEERROR");
    let mut link: Vec<String> = Vec::new();
    link.push(lib);
    link.push(inc.clone());
    link.push(flag("-l", name.as_str()));
    let mut cc: Vec<String> = Vec::new();
    cc.push(inc);
    assert(views(link@) =~= seq![
        "-L"@ + path@ + "/build"@,
        "-I"@ + path@ + "/export"@,
        "-l"@ + string_prop(dep_manifest, "Executable-Name"@, "LIBRESOLVEERROR"@),
    ]);
    assert(views(cc@) =~= seq!["-I"@ + path@ + "/export"@]);
    (link, cc)
}

/// The compiler arguments for one source file: `-c -o <object> -O<opt> -Wall`, the
/// extra compiler flags, the dependencies' compiler flags, the file, and `-g` where debug
/// information is asked for.
pub open spec fn compile_spec(s: &CSettings, file: Seq<char>, hash: Seq<char>, dep_cc: Seq<Seq<char>>) -> Seq<Seq<char>> {
    seq!["-c"@, "-o"@, object_spec(file, hash), "-O"@ + s.opt@, "-Wall"@] + views(s.cflags@) + dep_cc + seq![file]
        + if s.debug_info { seq!["-g"@] } else { Seq::empty() }
}

pub fn compile_args(s: &CSettings, file: &str, hash: &str, dep_cc: &Vec<String>) -> (r: Vec<String>)
    ensures
        views(r@) == compile_spec(s, file@, hash@, views(dep_cc@)),
{
    let mut r: Vec<String> = Vec::new();
    r.push("-c".to_string());
    r.push("-o".to_string());
    r.push(object_path(file, hash));
    r.push(flag("-O", s.opt.as_str()));
    r.push("-Wall".to_string());
    assert(views(r@) =~= seq!["-c"@, "-o"@, object_spec(file@, hash@), "-O"@ + s.opt@, "-Wall"@]);
    append_all(&mut r, &s.cflags);
    append_all(&mut r, dep_cc);
    let ghost before = views(r@);
    r.push(file.to_string());
    assert(views(r@) =~= before + seq![file@]);
    if s.debug_info {
        let ghost b2 = views(r@);
        r.push("-g".to_string());
        assert(views(r@) =~= b2 + seq!["-g"@]);
    } else {
        assert(views(r@) =~= views(r@) + Seq::<Seq<char>>::empty());
    }
    r
}

pub open spec fn artifact_spec(s: &CSettings) -> Seq<char> {
    "build/"@ + (match s.emit {
        Emit::Binary => Seq::<char>::empty(),
        _ => "lib"@,
    }) + s.artifact@ + (match s.emit {
        Emit::Binary => Seq::<char>::empty(),
        Emit::Dylib => ".so"@,
        Emit::Staticlib => ".a"@,
    })
}

/// The artifact a C build writes: `build/<name>`, `build/lib<name>.so` or
/// `build/lib<name>.a`.
pub fn artifact_path(s: &CSettings) -> (r: String)
    ensures
        r@ == artifact_spec(s),
{
    proof {
        reveal_strlit("");
    }
    let (prefix, suffix) = match s.emit {
        Emit::Binary => ("", ""),
        Emit::Dylib => ("lib", ".so"),
        Emit::Staticlib => ("lib", ".a"),
    };
    let a = concat("build/", prefix);
    let b = concat(a.as_str(), s.artifact.as_str());
    let r = concat(b.as_str(), suffix);
    assert(r@ =~= artifact_spec(s));
    r
}

/// The archiver arguments for a static library: `rcs <artifact>` and the objects.
pub fn archive_args(s: &CSettings, objects: &Vec<String>) -> (r: Vec<String>)
    ensures
        views(r@) == seq!["rcs"@, artifact_spec(s)] + views(objects@),
{
    let mut r: Vec<String> = Vec::new();
    r.push("rcs".to_string());
    r.push(artifact_path(s));
    assert(views(r@) =~= seq!["rcs"@, artifact_spec(s)]);
    append_all(&mut r, objects);
    r
}

/// The linker arguments: `-o <artifact>`, the extra linker flags, the objects, the local
/// library directories, the dependencies' linker flags, then `-shared` for a dynamic
/// library, `-nostdlib` and `-ffreestanding` where the `Directive` directive asks for
/// `no-link-libc` and `ffreestanding`, and `-T <script>` where `C-Linker-Script` is set.
pub open spec fn link_spec(s: &CSettings, objects: Seq<Seq<char>>, dep_link: Seq<Seq<char>>, m: &ProjectManifest) -> Seq<Seq<char>> {
    seq!["-o"@, artifact_spec(s)] + views(s.ldflags@) + objects + seq!["-I./lib/include"@, "-L./lib/shared"@]
        + dep_link
        + (if s.emit == Emit::Dylib { seq!["-shared"@] } else { Seq::empty() })
        + (if directive_values(m.log(), "Directive"@).contains("no-link-libc"@) { seq!["-nostdlib"@] } else { Seq::empty() })
        + (if directive_values(m.log(), "Directive"@).contains("ffreestanding"@) { seq!["-ffreestanding"@] } else { Seq::empty() })
        + (match m.prop("C-Linker-Script"@) { Some(t) => seq!["-T"@, t], None => Seq::empty() })
}

fn push_one(r: &mut Vec<String>, x: String)
    ensures
        views(final(r)@) == views(old(r)@) + seq![x@],
{
    let ghost before = views(r@);
    r.push(x);
    assert(views(r@) =~= before + seq![x@]);
}

pub fn link_args(s: &CSettings, objects: &Vec<String>, dep_link: &Vec<String>, m: &ProjectManifest) -> (r: Vec<String>)
    ensures
        views(r@) == link_spec(s, views(objects@), views(dep_link@), m),
{
    let mut r: Vec<String> = Vec::new();
    r.push("-o".to_string());
    r.push(artifact_path(s));
    assert(views(r@) =~= seq!["-o"@, artifact_spec(s)]);
    append_all(&mut r, &s.ldflags);
    append_all(&mut r, objects);
    push_one(&mut r, "-I./lib/include".to_string());
    push_one(&mut r, "-L./lib/shared".to_string());
    assert(views(r@) =~= seq!["-o"@, artifact_spec(s)] + views(s.ldflags@) + views(objects@) + seq!["-I./lib/include"@, "-L./lib/shared"@]);
    append_all(&mut r, dep_link);
    let ghost a = views(r@);
    if s.emit == Emit::Dylib {
        push_one(&mut r, "-shared".to_string());
    }
    let ghost b = views(r@);
    assert(b =~= a + (if s.emit == Emit::Dylib { seq!["-shared"@] } else { Seq::<Seq<char>>::empty() }));
    if m.has_directive_value("Directive", "no-link-libc") {
        push_one(&mut r, "-nostdlib".to_string());
    }
    let ghost c = views(r@);
    assert(c =~= b + (if directive_values(m.log(), "Directive"@).contains("no-link-libc"@) { seq!["-nostdlib"@] } else { Seq::<Seq<char>>::empty() }));
    if m.has_directive_value("Directive", "ffreestanding") {
        push_one(&mut r, "-ffreestanding".to_string());
    }
    let ghost d = views(r@);
    assert(d =~= c + (if directive_values(m.log(), "Directive"@).contains("ffreestanding"@) { seq!["-ffreestanding"@] } else { Seq::<Seq<char>>::empty() }));
    match m.properties.get("C-Linker-Script") {
        Some(t) => {
            push_one(&mut r, "-T".to_string());
            push_one(&mut r, t.clone());
            assert(views(r@) =~= d + seq!["-T"@, t@]);
        },
        None => {
            assert(views(r@) =~= d + Seq::<Seq<char>>::empty());
        },
    }
    r
}

} // verus!
