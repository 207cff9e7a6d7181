use vstd::prelude::*;
use crate::module::Module;
use crate::number::{bool_value, parse_bool, parse_i32, parse_i64, parse_u32, parse_u64, parse_usize, signed_value, unsigned_value};
use crate::table::{TextMap, pairs_of};
use crate::text::{has_prefix, lacks, slice, split_char, split_on, split_once, split_once_spec, starts_with, views, lemma_split_on_nonempty};

verus! {

/// The values recorded for directive `name`, in the order they were added.
pub open spec fn directive_values(log: Seq<(Seq<char>, Seq<char>)>, name: Seq<char>) -> Seq<Seq<char>>
    decreases log.len(),
{
    if log.len() == 0 {
        Seq::empty()
    } else {
        let r = directive_values(log.drop_last(), name);
        if log.last().0 == name {
            r.push(log.last().1)
        } else {
            r
        }
    }
}

pub open spec fn import_prefix() -> Seq<char> {
    seq!['@', 'I', 'm', 'p', 'o', 'r', 't', ' ']
}

pub open spec fn is_comment(l: Seq<char>) -> bool {
    has_prefix(l, seq!['#'])
}

pub open spec fn is_import(l: Seq<char>) -> bool {
    !is_comment(l) && has_prefix(l, import_prefix())
}

pub open spec fn is_directive(l: Seq<char>) -> bool {
    !is_comment(l) && !is_import(l) && l.len() > 0 && l[0] == '@' && !lacks(l, ' ')
}

/// A `key=value` line: not a comment, and not a line that starts with `@` (such lines
/// are directives, and set no property even where they hold `=`).
pub open spec fn is_property(l: Seq<char>) -> bool {
    !is_comment(l) && !(l.len() > 0 && l[0] == '@') && !lacks(l, '=')
}

/// The (name, value) of a directive line `@Name value`: split at the first space.
pub open spec fn directive_of(l: Seq<char>) -> (Seq<char>, Seq<char>) {
    split_once_spec(l.drop_first(), ' ')->0
}

/// What one manifest line does to the properties and the directive log.
pub open spec fn line_effect(
    props: Map<Seq<char>, Seq<char>>,
    log: Seq<(Seq<char>, Seq<char>)>,
    l: Seq<char>,
) -> (Map<Seq<char>, Seq<char>>, Seq<(Seq<char>, Seq<char>)>) {
    if is_directive(l) {
        (props, log.push(directive_of(l)))
    } else if is_property(l) {
        let (k, v) = split_once_spec(l, '=')->0;
        (props.insert(k, v), log)
    } else {
        (props, log)
    }
}

pub open spec fn true_text() -> Seq<char> {
    seq!['t', 'r', 'u', 'e']
}

/// What one command-line token does: `--Key=Value` and `--Key` (which means `true`) set
/// a property, `@Directive:value` adds a directive value, anything else is passed over.
pub open spec fn arg_effect(
    props: Map<Seq<char>, Seq<char>>,
    log: Seq<(Seq<char>, Seq<char>)>,
    a: Seq<char>,
) -> (Map<Seq<char>, Seq<char>>, Seq<(Seq<char>, Seq<char>)>) {
    if has_prefix(a, seq!['-', '-']) {
        let body = a.subrange(2, a.len() as int);
        match split_once_spec(body, '=') {
            Some((k, v)) => (props.insert(k, v), log),
            None => (props.insert(body, true_text()), log),
        }
    } else if a.len() > 0 && a[0] == '@' && !lacks(a, ':') {
        (props, log.push(split_once_spec(a.drop_first(), ':')->0))
    } else {
        (props, log)
    }
}

/// The effect of a whole list of command-line tokens, in order.
pub open spec fn args_effect(
    props: Map<Seq<char>, Seq<char>>,
    log: Seq<(Seq<char>, Seq<char>)>,
    args: Seq<Seq<char>>,
) -> (Map<Seq<char>, Seq<char>>, Seq<(Seq<char>, Seq<char>)>)
    decreases args.len(),
{
    if args.len() == 0 {
        (props, log)
    } else {
        let (p, l) = args_effect(props, log, args.drop_last());
        arg_effect(p, l, args.last())
    }
}

/// The name of the module that an `@Module` value declares: its first word.
pub open spec fn module_name_of(v: Seq<char>) -> Seq<char> {
    match split_once_spec(v, ' ') {
        Some((a, _)) => a,
        None => v,
    }
}

/// The files of the module that an `@Module` value declares: from its third word on,
/// each `parent-path:module-path` word.
pub open spec fn module_files_of(v: Seq<char>) -> Map<Seq<char>, Seq<char>> {
    let words = split_on(v, ' ');
    if words.len() <= 2 {
        Map::empty()
    } else {
        pairs_of(words.subrange(2, words.len() as int), ':')
    }
}

/// One line of a manifest file, classified.
pub enum ManifestLine {
    /// `# ...`
    Comment,
    /// `@Import path`: merge another manifest here.
    Import(String),
    /// `@Name value`: add `value` to directive `Name`.
    Directive(String, String),
    /// `key=value`: set a property.
    Property(String, String),
    /// Anything else.
    Ignored,
}

/// Classifies one manifest line.
pub fn classify_line(line: &str) -> (r: ManifestLine)
    ensures
        match r {
            ManifestLine::Comment => is_comment(line@),
            ManifestLine::Import(p) => is_import(line@) && p@ == line@.subrange(8, line@.len() as int),
            ManifestLine::Directive(n, v) => is_directive(line@) && directive_of(line@) == (n@, v@),
            ManifestLine::Property(k, v) => is_property(line@) && split_once_spec(line@, '=') == Some((k@, v@)),
            ManifestLine::Ignored => !is_comment(line@) && !is_import(line@) && !is_directive(line@)
                && !is_property(line@),
        },
{
    proof {
        reveal_strlit("#");
        reveal_strlit("@Import ");
        assert("#"@ =~= seq!['#']);
        assert("@Import "@ =~= import_prefix());
    }
    let n = line.unicode_len();
    if starts_with(line, "#") {
        return ManifestLine::Comment;
    }
    if starts_with(line, "@Import ") {
        return ManifestLine::Import(slice(line, 8, n));
    }
    if n > 0 && line.get_char(0) == '@' {
        let rest = slice(line, 1, n);
        assert(!is_property(line@));
        assert(rest@ =~= line@.drop_first());
        match split_once(rest.as_str(), ' ') {
            Some((name, value)) => {
                return ManifestLine::Directive(name, value);
            },
            None => {
                assert(lacks(line@, ' ')) by {
                    assert forall|j: int| 0 <= j < line@.len() implies line@[j] != ' ' by {
                        if j > 0 {
                            assert(line@[j] == rest@[j - 1]);
                        }
                    }
                }
                return ManifestLine::Ignored;
            },
        }
    }
    match split_once(line, '=') {
        Some((k, v)) => ManifestLine::Property(k, v),
        None => ManifestLine::Ignored,
    }
}

/// The typed reading of a property: its parsed value, or `default` where the property is
/// absent or does not parse.
pub open spec fn or_default(parsed: Option<int>, default: int) -> int {
    match parsed {
        Some(v) => v,
        None => default,
    }
}

/// A project's combined configuration: properties (one value per key, later settings
/// win) and directives (each name holds an ordered list of values), merged from manifest
/// files and command-line tokens.
pub struct ProjectManifest {
    pub properties: TextMap,
    /// The directive values as (name, value) records, in the order they were added.
    pub directives: Vec<(String, String)>,
}

impl ProjectManifest {
    /// The directive records, in order.
    pub open spec fn log(&self) -> Seq<(Seq<char>, Seq<char>)> {
        self.directives@.map_values(|p: (String, String)| (p.0@, p.1@))
    }

    /// The text of property `key` as a spec value, if set.
    pub open spec fn prop(&self, key: Seq<char>) -> Option<Seq<char>> {
        if self.properties@.contains_key(key) {
            Some(self.properties@[key])
        } else {
            None
        }
    }

    /// An empty manifest. Every directive name, `Dependency`, `Alias`, `Module` and
    /// `Directive` included, starts with no values.
    pub fn new() -> (r: ProjectManifest)
        ensures
            r.properties@ == Map::<Seq<char>, Seq<char>>::empty(),
            r.log() == Seq::<(Seq<char>, Seq<char>)>::empty(),
    {
        let r = ProjectManifest { properties: TextMap::new(), directives: Vec::new() };
        assert(r.log() =~= Seq::<(Seq<char>, Seq<char>)>::empty());
        r
    }

    /// Property `key`, or `default` where it is not set.
    pub fn get_string_property(&self, key: &str, default: &str) -> (r: String)
        ensures
            r@ == match self.prop(key@) {
                Some(v) => v,
                None => default@,
            },
    {
        match self.properties.get(key) {
            Some(v) => v.clone(),
            None => default.to_string(),
        }
    }

    /// Property `key` as an `i32`, or `default` where it is absent or not an `i32`.
    pub fn get_i32_property(&self, key: &str, default: i32) -> (r: i32)
        ensures
            r as int == or_default(
                match self.prop(key@) { Some(t) => signed_value(t, i32::MAX as int), None => None },
                default as int,
            ),
    {
        match self.properties.get(key) {
            Some(v) => match parse_i32(v.as_str()) {
                Some(x) => x,
                None => default,
            },
            None => default,
        }
    }

    /// Property `key` as a `u32`, or `default` where it is absent or not a `u32`.
    pub fn get_u32_property(&self, key: &str, default: u32) -> (r: u32)
        ensures
            r as int == or_default(
                match self.prop(key@) { Some(t) => unsigned_value(t, u32::MAX as int), None => None },
                default as int,
            ),
    {
        match self.properties.get(key) {
            Some(v) => match parse_u32(v.as_str()) {
                Some(x) => x,
                None => default,
            },
            None => default,
        }
    }

    /// Property `key` as an `i64`, or `default` where it is absent or not an `i64`.
    pub fn get_i64_property(&self, key: &str, default: i64) -> (r: i64)
        ensures
            r as int == or_default(
                match self.prop(key@) { Some(t) => signed_value(t, i64::MAX as int), None => None },
                default as int,
            ),
    {
        match self.properties.get(key) {
            Some(v) => match parse_i64(v.as_str()) {
                Some(x) => x,
                None => default,
            },
            None => default,
        }
    }

    /// Property `key` as a `u64`, or `default` where it is absent or not a `u64`.
    pub fn get_u64_property(&self, key: &str, default: u64) -> (r: u64)
        ensures
            r as int == or_default(
                match self.prop(key@) { Some(t) => unsigned_value(t, u64::MAX as int), None => None },
                default as int,
            ),
    {
        match self.properties.get(key) {
            Some(v) => match parse_u64(v.as_str()) {
                Some(x) => x,
                None => default,
            },
            None => default,
        }
    }

    /// Property `key` as a `usize`, or `default` where it is absent or not a `usize`.
    pub fn get_usize_property(&self, key: &str, default: usize) -> (r: usize)
        ensures
            r as int == or_default(
                match self.prop(key@) { Some(t) => unsigned_value(t, usize::MAX as int), None => None },
                default as int,
            ),
    {
        match self.properties.get(key) {
            Some(v) => match parse_usize(v.as_str()) {
                Some(x) => x,
                None => default,
            },
            None => default,
        }
    }

    /// Property `key` as a `bool` (`true` or `false`), or `default` where it is absent or
    /// neither.
    pub fn get_bool_property(&self, key: &str, default: bool) -> (r: bool)
        ensures
            r == match self.prop(key@) {
                Some(t) => match bool_value(t) {
                    Some(b) => b,
                    None => default,
                },
                None => default,
            },
    {
        match self.properties.get(key) {
            Some(v) => match parse_bool(v.as_str()) {
                Some(x) => x,
                None => default,
            },
            None => default,
        }
    }

    /// The values of directive `name`, in the order they were added.
    pub fn get_directive(&self, name: &str) -> (r: Vec<String>)
        ensures
            views(r@) == directive_values(self.log(), name@),
    {
        let mut r: Vec<String> = Vec::new();
        let target = name.to_string();
        let mut i: usize = 0;
        while i < self.directives.len()
            invariant
                i <= self.directives.len(),
                target@ == name@,
                views(r@) == directive_values(self.log().subrange(0, i as int), name@),
            decreases self.directives.len() - i,
        {
            let ghost before = r@;
            assert(self.log().subrange(0, i + 1).drop_last() =~= self.log().subrange(0, i as int));
            if self.directives[i].0 == target {
                r.push(self.directives[i].1.clone());
                assert(views(r@) =~= views(before).push(self.directives@[i as int].1@));
            }
            i = i + 1;
        }
        assert(self.log().subrange(0, self.directives@.len() as int) =~= self.log());
        r
    }

    /// Whether directive `name` holds `value`.
    pub fn has_directive_value(&self, name: &str, value: &str) -> (r: bool)
        ensures
            r == directive_values(self.log(), name@).contains(value@),
    {
        let vals = self.get_directive(name);
        let want = value.to_string();
        let mut i: usize = 0;
        while i < vals.len()
            invariant
                i <= vals.len(),
                want@ == value@,
                views(vals@) == directive_values(self.log(), name@),
                forall|j: int| 0 <= j < i ==> vals@[j]@ != value@,
            decreases vals.len() - i,
        {
            if vals[i] == want {
                assert(views(vals@)[i as int] == value@);
                return true;
            }
            i = i + 1;
        }
        assert forall|j: int| 0 <= j < views(vals@).len() implies views(vals@)[j] != value@ by {
            assert(views(vals@)[j] == vals@[j]@);
        }
        false
    }

    /// Adds `value` to directive `name`.
    pub fn add_directive(&mut self, name: String, value: String)
        ensures
            final(self).properties@ == old(self).properties@,
            final(self).log() == old(self).log().push((name@, value@)),
    {
        let ghost before = self.log();
        self.directives.push((name, value));
        assert(self.log() =~= before.push((name@, value@)));
    }

    /// Merges one manifest line: a directive line adds to its directive, a property line
    /// sets its property. For an `@Import` line, the path to merge is returned, and the
    /// caller merges that file before the next line.
    pub fn apply_line(&mut self, line: &str) -> (r: Option<String>)
        ensures
            (final(self).properties@, final(self).log()) == line_effect(old(self).properties@, old(self).log(), line@),
            match r {
                Some(p) => is_import(line@) && p@ == line@.subrange(8, line@.len() as int),
                None => !is_import(line@),
            },
    {
        match classify_line(line) {
            ManifestLine::Import(p) => Some(p),
            ManifestLine::Directive(n, v) => {
                self.add_directive(n, v);
                None
            },
            ManifestLine::Property(k, v) => {
                self.properties.insert(k, v);
                None
            },
            _ => None,
        }
    }

    /// Applies one command-line token.
    fn apply_arg(&mut self, arg: &str)
        ensures
            (final(self).properties@, final(self).log()) == arg_effect(old(self).properties@, old(self).log(), arg@),
    {
        proof {
            reveal_strlit("--");
            reveal_strlit("true");
            assert("--"@ =~= seq!['-', '-']);
            assert("true"@ =~= true_text());
        }
        let n = arg.unicode_len();
        if starts_with(arg, "--") {
            let body = slice(arg, 2, n);
            match split_once(body.as_str(), '=') {
                Some((k, v)) => self.properties.insert(k, v),
                None => self.properties.insert(body, "true".to_string()),
            }
        } else if n > 0 && arg.get_char(0) == '@' {
            let rest = slice(arg, 1, n);
            assert(rest@ =~= arg@.drop_first());
            match split_once(rest.as_str(), ':') {
                Some((d, v)) => self.add_directive(d, v),
                None => {
                    assert(lacks(arg@, ':')) by {
                        assert forall|j: int| 0 <= j < arg@.len() implies arg@[j] != ':' by {
                            if j > 0 {
                                assert(arg@[j] == rest@[j - 1]);
                            }
                        }
                    }
                },
            }
        }
    }

    /// Applies command-line tokens, in order: `--Key=Value` and `--Key` (meaning `true`)
    /// set properties, `@Directive:value` adds a directive value.
    pub fn append_from_cli_args(&mut self, args: Vec<String>)
        ensures
            (final(self).properties@, final(self).log()) == args_effect(old(self).properties@, old(self).log(), views(args@)),
    {
        let mut i: usize = 0;
        while i < args.len()
            invariant
                i <= args.len(),
                (self.properties@, self.log()) == args_effect(
                    old(self).properties@, old(self).log(), views(args@).subrange(0, i as int)),
            decreases args.len() - i,
        {
            assert(views(args@).subrange(0, i + 1).drop_last() =~= views(args@).subrange(0, i as int));
            self.apply_arg(args[i].as_str());
            i = i + 1;
        }
        assert(views(args@).subrange(0, args@.len() as int) =~= views(args@));
    }

    /// The modules that the `@Module` directives declare, in order.
    pub fn get_modules(&self) -> (r: Vec<Module>)
        ensures
            r@.len() == directive_values(self.log(), "Module"@).len(),
            forall|i: int| 0 <= i < r@.len() ==> (#[trigger] r@[i]).module_name@ == module_name_of(
                directive_values(self.log(), "Module"@)[i]) && r@[i].files@ == module_files_of(
                directive_values(self.log(), "Module"@)[i]),
    {
        let values = self.get_directive("Module");
        let mut r: Vec<Module> = Vec::new();
        let mut i: usize = 0;
        while i < values.len()
            invariant
                i <= values.len(),
                views(values@) == directive_values(self.log(), "Module"@),
                r@.len() == i,
                forall|j: int| 0 <= j < i ==> (#[trigger] r@[j]).module_name@ == module_name_of(
                    views(values@)[j]) && r@[j].files@ == module_files_of(views(values@)[j]),
            decreases values.len() - i,
        {
            let v = values[i].as_str();
            assert(views(values@)[i as int] == v@);
            let module_name = match split_once(v, ' ') {
                Some((a, _)) => a,
                None => v.to_string(),
            };
            let words = split_char(v, ' ');
            proof {
                lemma_split_on_nonempty(v@, ' ');
            }
            let files = if words.len() <= 2 {
                TextMap::new()
            } else {
                let t = TextMap::from_pairs(&words, 2, ':');
                assert(views(words@).subrange(2, words@.len() as int) =~= split_on(v@, ' ').subrange(2, split_on(v@, ' ').len() as int));
                t
            };
            r.push(Module { module_name, files });
            i = i + 1;
        }
        r
    }

    /// The aliases that the `@Alias name target` directives define (later ones win).
    pub fn get_aliases_map(&self) -> (r: TextMap)
        ensures
            r@ == pairs_of(directive_values(self.log(), "Alias"@), ' '),
    {
        let values = self.get_directive("Alias");
        let r = TextMap::from_pairs(&values, 0, ' ');
        assert(views(values@).subrange(0, values@.len() as int) =~= views(values@));
        r
    }
}

} // verus!
