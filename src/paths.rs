use vstd::prelude::*;
use crate::identify::NamespacedIdentifier;
use crate::manifest::ProjectManifest;
use crate::store::{entry_path_spec, get_path};
use crate::table::TextMap;
use crate::text::{concat, ends_with, has_suffix, has_infix, contains_str, find_char, lacks, replace_char, replace_char_spec, rsplit_once, rsplit_once_spec, slice, split_char, split_on, split_once, split_once_spec, views, lemma_split_on_nonempty};
use crate::version::{Version, parse_spec, version_text};
use crate::cbuild::string_prop;

verus! {

/// The home directory to use: `$HOME` where it is set and not empty, else `~`.
pub open spec fn home_spec(home: Option<Seq<char>>) -> Seq<char> {
    match home {
        Some(h) => if h.len() > 0 { h } else { "~"@ },
        None => "~"@,
    }
}

fn home_dir(home: &Option<String>) -> (r: String)
    ensures
        r@ == home_spec(match home { Some(h) => Some(h@), None => None }),
{
    match home {
        Some(h) => if h.unicode_len() > 0 { h.clone() } else { "~".to_string() },
        None => "~".to_string(),
    }
}

/// The configuration directory: `$XDG_CONFIG_HOME/greathelm` where that is set and not
/// empty, else `<home>/.config/greathelm`. The caller reads the two variables.
pub fn get_config_base_dir(home: &Option<String>, xdg_config_home: &Option<String>) -> (r: String)
    ensures
        r@ == (match xdg_config_home {
            Some(x) => if x@.len() > 0 { x@ } else { home_spec(match home { Some(h) => Some(h@), None => None }) + "/.config"@ },
            None => home_spec(match home { Some(h) => Some(h@), None => None }) + "/.config"@,
        }) + "/greathelm"@,
{
    let base = match xdg_config_home {
        Some(x) => if x.unicode_len() > 0 {
            x.clone()
        } else {
            concat(home_dir(home).as_str(), "/.config")
        },
        None => concat(home_dir(home).as_str(), "/.config"),
    };
    concat(base.as_str(), "/greathelm")
}

/// The data directory: `<home>/.local/share/greathelm`.
pub fn get_data_base_dir(home: &Option<String>) -> (r: String)
    ensures
        r@ == home_spec(match home { Some(h) => Some(h@), None => None }) + "/.local/share/greathelm"@,
{
    concat(home_dir(home).as_str(), "/.local/share/greathelm")
}

/// The directories that must exist at startup: the configuration directory with its
/// `plugins` and `scripts`, the data directory, and the store.
pub fn ensure_config_dirs(config_base: &str, data_base: &str) -> (r: Vec<String>)
    ensures
        r@.len() == 5,
        r@[0]@ == config_base@,
        r@[1]@ == config_base@ + "/plugins"@,
        r@[2]@ == config_base@ + "/scripts"@,
        r@[3]@ == data_base@,
        r@[4]@ == data_base@ + "/store"@,
{
    let mut r: Vec<String> = Vec::new();
    r.push(config_base.to_string());
    r.push(concat(config_base, "/plugins"));
    r.push(concat(config_base, "/scripts"));
    r.push(data_base.to_string());
    r.push(concat(data_base, "/store"));
    r
}

/// The templates directory under the data directory.
pub fn get_templates_path(data_base: &str) -> (r: String)
    ensures
        r@ == data_base@ + "/templates"@,
{
    concat(data_base, "/templates")
}

/// Where template `template` lives: `<templates>/<namespace with . as />/<identifier>`.
pub fn get_template_path(templates: &str, template: &NamespacedIdentifier) -> (r: String)
    ensures
        r@ == templates@ + "/"@ + replace_char_spec(template.namespace@, '.', '/') + "/"@ + template.identifier@,
{
    proof {
        reveal_strlit("/");
    }
    let ns = replace_char(template.namespace.as_str(), '.', "/");
    let a = concat(templates, "/");
    let b = concat(a.as_str(), ns.as_str());
    let c = concat(b.as_str(), "/");
    concat(c.as_str(), template.identifier.as_str())
}

/// The identifier a requested template names: the text itself where it holds both `.`
/// and `:`, else the target of the alias of that name (where that target is an
/// identifier).
pub open spec fn template_identifier_spec(t: Seq<char>, aliases: Map<Seq<char>, Seq<char>>) -> Option<(Seq<char>, Seq<char>)> {
    if has_infix(t, "."@) && has_infix(t, ":"@) {
        split_once_spec(t, ':')
    } else if aliases.contains_key(t) {
        split_once_spec(aliases[t], ':')
    } else {
        None
    }
}

pub fn template_identifier(template: &String, aliases: &TextMap) -> (r: Option<NamespacedIdentifier>)
    ensures
        match r {
            Some(n) => template_identifier_spec(template@, aliases@) == Some(n@),
            None => template_identifier_spec(template@, aliases@) is None,
        },
{
    if contains_str(template.as_str(), ".") && contains_str(template.as_str(), ":") {
        NamespacedIdentifier::parse_text(template)
    } else {
        match aliases.get(template.as_str()) {
            Some(target) => NamespacedIdentifier::parse_text(target),
            None => None,
        }
    }
}

/// The project's own script `name`: `scripts/<name>.sh`.
pub fn project_script_path(name: &str) -> (r: String)
    ensures
        r@ == "scripts/"@ + name@ + ".sh"@,
{
    let a = concat("scripts/", name);
    concat(a.as_str(), ".sh")
}

/// The user's script `name` under the configuration directory:
/// `<config>/scripts/<name>.sh`.
pub fn user_script_path(config_base: &str, name: &str) -> (r: String)
    ensures
        r@ == config_base@ + "/scripts/"@ + name@ + ".sh"@,
{
    let a = concat(config_base, "/scripts/");
    let b = concat(a.as_str(), name);
    concat(b.as_str(), ".sh")
}

/// The text of a list of arguments, each preceded by a space.
pub open spec fn spaced_spec(args: Seq<Seq<char>>) -> Seq<char>
    decreases args.len(),
{
    if args.len() == 0 {
        Seq::empty()
    } else {
        spaced_spec(args.drop_last()) + " "@ + args.last()
    }
}

/// A shell command line: the program followed by its arguments, separated by spaces.
pub fn command_line(program: &str, args: &Vec<String>) -> (r: String)
    ensures
        r@ == program@ + spaced_spec(crate::text::views(args@)),
{
    let mut r = program.to_string();
    let mut i: usize = 0;
    assert(crate::text::views(args@).subrange(0, 0) =~= Seq::<Seq<char>>::empty());
    assert(r@ =~= program@ + spaced_spec(Seq::<Seq<char>>::empty()));
    while i < args.len()
        invariant
            i <= args.len(),
            r@ == program@ + spaced_spec(crate::text::views(args@).subrange(0, i as int)),
        decreases args.len() - i,
    {
        let ghost pre = crate::text::views(args@).subrange(0, i as int);
        let ghost next = crate::text::views(args@).subrange(0, i + 1);
        assert(next.drop_last() =~= pre);
        assert(next.last() == args@[i as int]@);
        r = concat(r.as_str(), " ");
        r = concat(r.as_str(), args[i].as_str());
        assert(r@ =~= program@ + spaced_spec(next));
        i = i + 1;
    }
    assert(crate::text::views(args@).subrange(0, args@.len() as int) =~= crate::text::views(args@));
    r
}

/// The directory of module `name`: `modules/<name>`.
pub fn module_root(name: &str) -> (r: String)
    ensures
        r@ == "modules/"@ + name@,
{
    concat("modules/", name)
}

/// A file within module `name`: `modules/<name>/<file>`.
pub fn module_file(name: &str, file: &str) -> (r: String)
    ensures
        r@ == "modules/"@ + name@ + "/"@ + file@,
{
    let a = concat("modules/", name);
    let b = concat(a.as_str(), "/");
    concat(b.as_str(), file)
}

/// What an `@Export <path> [<destination>]` entry copies where: the path, and
/// `export/<destination>`, the destination being the path's last component where none
/// is given.
pub open spec fn export_spec(e: Seq<char>) -> (Seq<char>, Seq<char>) {
    let (src, to) = match split_once_spec(e, ' ') {
        Some((a, b)) => (a, b),
        None => (e, Seq::<char>::empty()),
    };
    let name = match rsplit_once_spec(src, '/') {
        Some((_, b)) => b,
        None => src,
    };
    (src, "export/"@ + if to.len() == 0 { name } else { to })
}

pub fn export_target(entry: &str) -> (r: (String, String))
    ensures
        (r.0@, r.1@) == export_spec(entry@),
{
    let (src, to) = match split_once(entry, ' ') {
        Some((a, b)) => (a, b),
        None => (entry.to_string(), String::new()),
    };
    let name = match rsplit_once(src.as_str(), '/') {
        Some((_, b)) => b,
        None => src.clone(),
    };
    let dest = if to.unicode_len() == 0 {
        concat("export/", name.as_str())
    } else {
        concat("export/", to.as_str())
    };
    (src, dest)
}

/// Whether a path is left out of a copy: it ends with one of the `ignore` entries.
pub fn is_ignored(path: &str, ignore: &Vec<String>) -> (r: bool)
    ensures
        r == exists|i: int| 0 <= i < ignore@.len() && has_suffix(path@, #[trigger] ignore@[i]@),
{
    let mut i: usize = 0;
    while i < ignore.len()
        invariant
            i <= ignore.len(),
            forall|j: int| 0 <= j < i ==> !has_suffix(path@, #[trigger] ignore@[j]@),
        decreases ignore.len() - i,
    {
        if ends_with(path, ignore[i].as_str()) {
            return true;
        }
        i = i + 1;
    }
    false
}

/// Why a project cannot be copied into the store.
#[derive(Clone, Copy, PartialEq, Eq, Structural, Debug)]
pub enum ImportError {
    /// The manifest sets no `Project-Namespace`.
    NoNamespace,
    /// The manifest sets no `Project-Name`.
    NoName,
}

/// The store directory that a project is imported into:
/// `<store entry of Project-Namespace:Project-Name>/@<Project-Version>`.
pub open spec fn import_spec(m: &ProjectManifest, store: Seq<char>) -> Result<Seq<char>, ImportError> {
    let ns = string_prop(m, "Project-Namespace"@, "unnamespaced"@);
    let name = string_prop(m, "Project-Name"@, "unnamed"@);
    let version = string_prop(m, "Project-Version"@, "unversioned"@);
    if ns == "unnamespaced"@ {
        Err(ImportError::NoNamespace)
    } else if name == "unnamed"@ {
        Err(ImportError::NoName)
    } else {
        Ok(entry_path_spec(store, ns, name) + "/@"@ + version_text(parse_spec(version)))
    }
}

pub fn import_target(m: &ProjectManifest, store: &str) -> (r: Result<String, ImportError>)
    ensures
        match r {
            Ok(p) => import_spec(m, store@) == Ok::<Seq<char>, ImportError>(p@),
            Err(e) => import_spec(m, store@) == Err::<Seq<char>, ImportError>(e),
        },
{
    let namespace = m.get_string_property("Project-Namespace", "unnamespaced");
    if namespace == "unnamespaced".to_string() {
        return Err(ImportError::NoNamespace);
    }
    let name = m.get_string_property("Project-Name", "unnamed");
    if name == "unnamed".to_string() {
        return Err(ImportError::NoName);
    }
    let version = Version::parse(m.get_string_property("Project-Version", "unversioned"));
    let id = NamespacedIdentifier { namespace, identifier: name };
    let entry = get_path(store, &id);
    let a = concat(entry.as_str(), "/@");
    Ok(concat(a.as_str(), version.as_text().as_str()))
}

/// The words of a text, each followed by a space.
pub open spec fn trailing_spaced(ws: Seq<Seq<char>>) -> Seq<char>
    decreases ws.len(),
{
    if ws.len() == 0 {
        Seq::empty()
    } else {
        trailing_spaced(ws.drop_last()) + ws.last() + " "@
    }
}

/// What a template's `@Prompt key question words` entry asks: the key (its first word)
/// and the question (the other words, each followed by a space). Entries without a
/// space ask nothing.
pub fn prompt_entry(p: &str) -> (r: Option<(String, String)>)
    ensures
        match r {
            Some((k, q)) => !lacks(p@, ' ') && k@ == split_on(p@, ' ')[0] && q@ == trailing_spaced(
                split_on(p@, ' ').subrange(1, split_on(p@, ' ').len() as int)),
            None => lacks(p@, ' '),
        },
{
    if find_char(p, ' ').is_none() {
        return None;
    }
    let words = split_char(p, ' ');
    proof {
        lemma_split_on_nonempty(p@, ' ');
    }
    let ghost ws = views(words@);
    let mut q = String::new();
    let mut i: usize = 1;
    assert(ws.subrange(1, 1) =~= Seq::<Seq<char>>::empty());
    while i < words.len()
        invariant
            1 <= i <= words.len(),
            ws == views(words@),
            q@ == trailing_spaced(ws.subrange(1, i as int)),
        decreases words.len() - i,
    {
        assert(ws.subrange(1, i + 1).drop_last() =~= ws.subrange(1, i as int));
        assert(ws.subrange(1, i + 1).last() == words@[i as int]@);
        q = concat(q.as_str(), words[i].as_str());
        q = concat(q.as_str(), " ");
        i = i + 1;
    }
    assert(ws[0] == words@[0]@);
    Some((words[0].clone(), q))
}

/// `s` with every occurrence of `from` replaced by `to`, scanning from the left; a
/// replaced occurrence is not scanned again. An empty `from` occurs before every
/// character and at the end, as `str::replace` has it.
pub open spec fn replace_spec(s: Seq<char>, from: Seq<char>, to: Seq<char>) -> Seq<char>
    decreases s.len(),
{
    if from.len() == 0 {
        if s.len() == 0 {
            to
        } else {
            to + seq![s[0]] + replace_spec(s.drop_first(), from, to)
        }
    } else if s.len() == 0 {
        s
    } else if from.len() <= s.len() && s.subrange(0, from.len() as int) == from {
        to + replace_spec(s.subrange(from.len() as int, s.len() as int), from, to)
    } else {
        seq![s[0]] + replace_spec(s.drop_first(), from, to)
    }
}

/// Replaces every occurrence of `from` in `s` by `to`.
pub fn replace_text(s: &str, from: &str, to: &str) -> (r: String)
    ensures
        r@ == replace_spec(s@, from@, to@),
{
    let n = s.unicode_len();
    let m = from.unicode_len();
    let pat = from.to_string();
    let mut r = String::new();
    let mut i: usize = 0;
    assert(s@.subrange(0, n as int) =~= s@);
    while i < n
        invariant
            n == s@.len(),
            m == from@.len(),
            pat@ == from@,
            i <= n,
            r@ + replace_spec(s@.subrange(i as int, n as int), from@, to@) == replace_spec(s@, from@, to@),
        decreases n - i,
    {
        let ghost rest = s@.subrange(i as int, n as int);
        if m > 0 && m <= n - i && slice(s, i, i + m) == pat {
            assert(rest.subrange(0, m as int) =~= s@.subrange(i as int, i + m));
            assert(rest.subrange(m as int, rest.len() as int) =~= s@.subrange(i + m, n as int));
            let ghost before = r@;
            r = concat(r.as_str(), to);
            assert(r@ + replace_spec(s@.subrange(i + m, n as int), from@, to@) =~= before + replace_spec(rest, from@, to@));
            i = i + m;
        } else {
            if m > 0 && m <= n - i {
                assert(rest.subrange(0, m as int) =~= s@.subrange(i as int, i + m));
            }
            assert(rest.drop_first() =~= s@.subrange(i + 1, n as int));
            let ghost before = r@;
            if m == 0 {
                r = concat(r.as_str(), to);
            }
            let one = s.substring_char(i, i + 1);
            r.append(one);
            assert(r@ + replace_spec(s@.subrange(i + 1, n as int), from@, to@) =~= before + replace_spec(rest, from@, to@));
            i = i + 1;
        }
    }
    assert(s@.subrange(n as int, n as int) =~= Seq::<char>::empty());
    if m == 0 {
        let ghost before = r@;
        r = concat(r.as_str(), to);
        assert(r@ =~= before + replace_spec(Seq::<char>::empty(), from@, to@));
    } else {
        assert(r@ + Seq::<char>::empty() =~= r@);
    }
    r
}

} // verus!
