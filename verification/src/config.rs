//! The configuration of a header: who the author is, what the project is
//! called, and which template a file of a given extension gets.

use crate::path::{lowercase, to_lowercase};
use crate::text::{chars_of, same_chars, string_of};
use vstd::prelude::*;

verus! {

/// The author that headers name.
#[derive(Debug)]
pub struct AuthorConfig {
    pub name: String,
    pub email: String,
}

/// The project that headers name. An empty copyright holder stands for the
/// author.
#[derive(Debug)]
pub struct ProjectConfig {
    pub name: String,
    pub copyright_holder: String,
}

/// The template of one file extension.
#[derive(Debug)]
pub struct ExtensionHeaderConfig {
    pub extension: String,
    pub template: String,
}

/// The templates: one for every file, and one for each extension that has a
/// template of its own. Extensions are kept in small letters, and no
/// extension is kept twice.
#[derive(Debug)]
pub struct HeaderConfig {
    template: String,
    by_extension: Vec<ExtensionHeaderConfig>,
}

/// A whole configuration.
#[derive(Debug)]
pub struct Config {
    pub author: AuthorConfig,
    pub project: ProjectConfig,
    pub header: HeaderConfig,
}

/// The templates as a mathematical value.
pub struct HeaderView {
    pub template: Seq<char>,
    pub by_extension: Map<Seq<char>, Seq<char>>,
}

/// A configuration as a mathematical value.
pub struct ConfigView {
    pub author_name: Seq<char>,
    pub author_email: Seq<char>,
    pub project_name: Seq<char>,
    pub copyright_holder: Seq<char>,
    pub header: HeaderView,
}

/// The mapping that a list of entries stands for.
pub open spec fn entries_map(entries: Seq<ExtensionHeaderConfig>) -> Map<Seq<char>, Seq<char>>
    decreases entries.len(),
{
    if entries.len() == 0 {
        Map::empty()
    } else {
        entries_map(entries.drop_last()).insert(entries.last().extension@, entries.last().template@)
    }
}

/// An extension that stands in the list at `i` is mapped to the template there,
/// when it stands nowhere behind `i`.
proof fn lemma_entries_map_at(entries: Seq<ExtensionHeaderConfig>, i: int)
    requires
        0 <= i < entries.len(),
        forall|j: int| i < j < entries.len() ==> entries[j].extension@ != entries[i].extension@,
    ensures
        entries_map(entries).contains_key(entries[i].extension@),
        entries_map(entries)[entries[i].extension@] == entries[i].template@,
    decreases entries.len(),
{
    if i < entries.len() - 1 {
        lemma_entries_map_at(entries.drop_last(), i);
    }
}

/// An extension that stands nowhere in the list is not mapped.
proof fn lemma_entries_map_absent(entries: Seq<ExtensionHeaderConfig>, key: Seq<char>)
    requires
        forall|j: int| 0 <= j < entries.len() ==> entries[j].extension@ != key,
    ensures
        !entries_map(entries).contains_key(key),
    decreases entries.len(),
{
    if entries.len() > 0 {
        lemma_entries_map_absent(entries.drop_last(), key);
    }
}

/// Putting another template at `i` maps the extension there to it and leaves
/// the rest, when the extension stands nowhere else in the list.
proof fn lemma_entries_map_update(
    entries: Seq<ExtensionHeaderConfig>,
    i: int,
    entry: ExtensionHeaderConfig,
)
    requires
        0 <= i < entries.len(),
        entry.extension@ == entries[i].extension@,
        forall|j: int|
            0 <= j < entries.len() && j != i ==> entries[j].extension@ != entry.extension@,
    ensures
        entries_map(entries.update(i, entry)) == entries_map(entries).insert(
            entry.extension@,
            entry.template@,
        ),
    decreases entries.len(),
{
    let updated = entries.update(i, entry);
    if i == entries.len() - 1 {
        assert(updated.drop_last() =~= entries.drop_last());
    } else {
        lemma_entries_map_update(entries.drop_last(), i, entry);
        assert(updated.drop_last() =~= entries.drop_last().update(i, entry));
    }
}

impl View for HeaderConfig {
    type V = HeaderView;

    closed spec fn view(&self) -> HeaderView {
        HeaderView { template: self.template@, by_extension: entries_map(self.by_extension@) }
    }
}

impl HeaderConfig {
    /// Extensions are in small letters, and none stands twice.
    #[verifier::type_invariant]
    spec fn well_formed(self) -> bool {
        &&& forall|i: int|
            0 <= i < self.by_extension.len() ==> lowercase(
                (#[trigger] self.by_extension[i]).extension@,
            ) == self.by_extension[i].extension@
        &&& forall|i: int, j: int|
            0 <= i < j < self.by_extension.len() ==> (#[trigger] self.by_extension[i]).extension@
                != (#[trigger] self.by_extension[j]).extension@
    }

    /// Templates with `template` for every file and none for any extension.
    pub fn new(template: String) -> (header: HeaderConfig)
        ensures
            header@ == (HeaderView { template: template@, by_extension: Map::empty() }),
    {
        HeaderConfig { template, by_extension: Vec::new() }
    }

    /// The template for files whose extension has none of its own.
    pub fn template(&self) -> (template: &String)
        ensures
            template@ == self@.template,
    {
        &self.template
    }

    /// The index at which `key` is kept, if it is kept.
    fn position(&self, key: &Vec<char>) -> (at: Option<usize>)
        ensures
            match at {
                Some(i) => i < self.by_extension.len() && self.by_extension[i as int].extension@
                    == key@,
                None => forall|j: int|
                    0 <= j < self.by_extension.len() ==> self.by_extension[j].extension@ != key@,
            },
    {
        let mut i: usize = 0;
        while i < self.by_extension.len()
            invariant
                i <= self.by_extension.len(),
                forall|j: int| 0 <= j < i ==> self.by_extension[j].extension@ != key@,
            decreases self.by_extension.len() - i,
        {
            let e = chars_of(self.by_extension[i].extension.as_str());
            if same_chars(&e, key) {
                return Some(i);
            }
            i += 1;
        }
        None
    }

    /// These templates, with the template `template` for files of the
    /// extension `extension`. The extension is taken in small letters; a
    /// template that it had before is replaced.
    pub fn with_extension_template(self, extension: &str, template: String) -> (header:
        HeaderConfig)
        ensures
            header@ == (HeaderView {
                template: self@.template,
                by_extension: self@.by_extension.insert(lowercase(extension@), template@),
            }),
    {
        proof {
            use_type_invariant(&self);
        }
        let key = to_lowercase(&chars_of(extension));
        assert(lowercase(key@) =~= key@);
        let at = self.position(&key);
        let HeaderConfig { template: own, by_extension: mut entries } = self;
        let ghost before = entries@;
        let entry = ExtensionHeaderConfig { extension: string_of(&key), template };
        match at {
            Some(i) => {
                proof {
                    lemma_entries_map_update(before, i as int, entry);
                }
                entries.set(i, entry);
            },
            None => {
                entries.push(entry);
                assert(entries@.drop_last() =~= before);
            },
        }
        HeaderConfig { template: own, by_extension: entries }
    }

    /// The template that files of the extension `extension` have of their
    /// own, if they have one. The extension is looked up in small letters.
    pub fn extension_template(&self, extension: &str) -> (template: Option<&String>)
        ensures
            match template {
                Some(t) => self@.by_extension.contains_key(lowercase(extension@)) && t@
                    == self@.by_extension[lowercase(extension@)],
                None => !self@.by_extension.contains_key(lowercase(extension@)),
            },
    {
        proof {
            use_type_invariant(self);
        }
        let key = to_lowercase(&chars_of(extension));
        match self.position(&key) {
            Some(i) => {
                proof {
                    lemma_entries_map_at(self.by_extension@, i as int);
                }
                Some(&self.by_extension[i].template)
            },
            None => {
                proof {
                    lemma_entries_map_absent(self.by_extension@, key@);
                }
                None
            },
        }
    }

    /// A copy of the list of entries.
    fn copied_entries(&self) -> (entries: Vec<ExtensionHeaderConfig>)
        ensures
            entries.len() == self.by_extension.len(),
            forall|j: int|
                0 <= j < entries.len() ==> (#[trigger] entries[j]).extension@
                    == self.by_extension[j].extension@ && entries[j].template@
                    == self.by_extension[j].template@,
    {
        let mut entries: Vec<ExtensionHeaderConfig> = Vec::new();
        let mut i: usize = 0;
        while i < self.by_extension.len()
            invariant
                i <= self.by_extension.len(),
                entries.len() == i,
                forall|j: int|
                    0 <= j < i ==> (#[trigger] entries[j]).extension@
                        == self.by_extension[j].extension@ && entries[j].template@
                        == self.by_extension[j].template@,
            decreases self.by_extension.len() - i,
        {
            entries.push(self.by_extension[i].clone());
            i += 1;
        }
        entries
    }

    /// The extensions that have a template of their own, each once and with
    /// its template.
    pub fn entries(&self) -> (entries: Vec<ExtensionHeaderConfig>)
        ensures
            entries_map(entries@) == self@.by_extension,
            self@.by_extension.dom().finite(),
            entries.len() == self@.by_extension.len(),
    {
        proof {
            use_type_invariant(self);
            lemma_entries_map_len(self.by_extension@);
        }
        let entries = self.copied_entries();
        proof {
            lemma_entries_map_same(entries@, self.by_extension@);
        }
        entries
    }
}

/// A list in which no extension stands twice maps as many extensions as it
/// has entries.
proof fn lemma_entries_map_len(entries: Seq<ExtensionHeaderConfig>)
    requires
        forall|i: int, j: int|
            0 <= i < j < entries.len() ==> (#[trigger] entries[i]).extension@
                != (#[trigger] entries[j]).extension@,
    ensures
        entries_map(entries).dom().finite(),
        entries_map(entries).len() == entries.len(),
    decreases entries.len(),
{
    if entries.len() > 0 {
        let init = entries.drop_last();
        lemma_entries_map_len(init);
        lemma_entries_map_absent(init, entries.last().extension@);
    }
}

impl View for Config {
    type V = ConfigView;

    open spec fn view(&self) -> ConfigView {
        ConfigView {
            author_name: self.author.name@,
            author_email: self.author.email@,
            project_name: self.project.name@,
            copyright_holder: self.project.copyright_holder@,
            header: self.header@,
        }
    }
}

/// The template of the configuration that is built in.
pub open spec fn default_template() -> Seq<char> {
    "File: {filename}\nAuthor: {author}\nDate: {date}\nCopyright (c) {year} {copyright_holder}"@
}

/// The configuration that is built in.
pub open spec fn default_config() -> ConfigView {
    ConfigView {
        author_name: "Auto Header"@,
        author_email: "auto@header.dev"@,
        project_name: "My Project"@,
        copyright_holder: Seq::empty(),
        header: HeaderView { template: default_template(), by_extension: Map::empty() },
    }
}

impl Default for Config {
    fn default() -> (config: Config)
        ensures
            config@ == default_config(),
    {
        Config {
            author: AuthorConfig {
                name: "Auto Header".to_owned(),
                email: "auto@header.dev".to_owned(),
            },
            project: ProjectConfig {
                name: "My Project".to_owned(),
                copyright_holder: String::new(),
            },
            header: HeaderConfig::new(
                "File: {filename}\nAuthor: {author}\nDate: {date}\nCopyright (c) {year} {copyright_holder}".to_owned(),
            ),
        }
    }
}

impl Clone for ExtensionHeaderConfig {
    fn clone(&self) -> (copy: ExtensionHeaderConfig)
        ensures
            copy.extension@ == self.extension@,
            copy.template@ == self.template@,
    {
        ExtensionHeaderConfig { extension: self.extension.clone(), template: self.template.clone() }
    }
}

impl Clone for HeaderConfig {
    fn clone(&self) -> (copy: HeaderConfig)
        ensures
            copy@ == self@,
    {
        proof {
            use_type_invariant(self);
        }
        let entries = self.copied_entries();
        proof {
            lemma_entries_map_same(entries@, self.by_extension@);
        }
        HeaderConfig { template: self.template.clone(), by_extension: entries }
    }
}

/// Two lists that hold the same texts stand for the same mapping.
proof fn lemma_entries_map_same(a: Seq<ExtensionHeaderConfig>, b: Seq<ExtensionHeaderConfig>)
    requires
        a.len() == b.len(),
        forall|j: int|
            0 <= j < a.len() ==> (#[trigger] a[j]).extension@ == b[j].extension@ && a[j].template@
                == b[j].template@,
    ensures
        entries_map(a) == entries_map(b),
    decreases a.len(),
{
    if a.len() > 0 {
        lemma_entries_map_same(a.drop_last(), b.drop_last());
    }
}

impl Clone for Config {
    fn clone(&self) -> (copy: Config)
        ensures
            copy@ == self@,
    {
        Config {
            author: AuthorConfig {
                name: self.author.name.clone(),
                email: self.author.email.clone(),
            },
            project: ProjectConfig {
                name: self.project.name.clone(),
                copyright_holder: self.project.copyright_holder.clone(),
            },
            header: self.header.clone(),
        }
    }
}

} // verus!
