//! The diary's configuration: the database URL, read from the `url` key of
//! the `[Database]` section of an INI document.
use crate::text::{decimal, push_decimal};
use ini::{Ini, Properties};
use vstd::prelude::*;

verus! {

/// The URL used when no configuration can be read.
pub const DEFAULT_DB_URL: &'static str = "sqlite:diary.db";

#[verifier::external_type_specification]
#[verifier::external_body]
pub struct ExIni(ini::Ini);

#[verifier::external_type_specification]
#[verifier::external_body]
pub struct ExProperties(ini::Properties);

/// The sections of a parsed INI document in the order they were read: the
/// section's name (`None` for keys before any header) and its key/value pairs
/// in the order they were read.
pub uninterp spec fn ini_sections(ini: Ini) -> Seq<(Option<Seq<char>>, Seq<(Seq<char>, Seq<char>)>)>;

/// The key/value pairs of one INI section, in the order they were read.
pub uninterp spec fn ini_properties(props: Properties) -> Seq<(Seq<char>, Seq<char>)>;

/// What the INI parser makes of a text: its sections, or the line, the
/// column and the message of the first syntax error.
pub uninterp spec fn ini_parse(text: Seq<char>) -> Result<
    Seq<(Option<Seq<char>>, Seq<(Seq<char>, Seq<char>)>)>,
    (int, int, Seq<char>),
>;

/// The value of the first pair whose key is `key`.
pub open spec fn lookup_first<K, V>(entries: Seq<(K, V)>, key: K) -> Option<V>
    decreases entries.len(),
{
    if entries.len() == 0 {
        None
    } else if entries[0].0 == key {
        Some(entries[0].1)
    } else {
        lookup_first(entries.drop_first(), key)
    }
}

/// A syntax error in an INI document.
#[derive(Debug)]
pub struct IniSyntaxError {
    pub line: usize,
    pub col: usize,
    pub msg: String,
}

/// Parses an INI document with `ini::Ini::load_from_str` (backslash escapes
/// on, the crate's default options). Claimed: on success the sections of the
/// result are `ini_parse(text)`'s, on failure the error's line, column and
/// message are `ini_parse(text)`'s.
#[verifier::external_body]
fn ini_load(text: &str) -> (r: Result<Ini, IniSyntaxError>)
    ensures
        match r {
            Ok(ini) => ini_parse(text@) == Ok::<
                Seq<(Option<Seq<char>>, Seq<(Seq<char>, Seq<char>)>)>,
                (int, int, Seq<char>),
            >(ini_sections(ini)),
            Err(e) => ini_parse(text@) == Err::<
                Seq<(Option<Seq<char>>, Seq<(Seq<char>, Seq<char>)>)>,
                (int, int, Seq<char>),
            >((e.line as int, e.col as int, e.msg@)),
        },
{
    match Ini::load_from_str(text) {
        Ok(ini) => Ok(ini),
        Err(e) => Err(IniSyntaxError { line: e.line, col: e.col, msg: e.msg.into_owned() }),
    }
}

/// `ini::Ini::section(Some(name))`. Claimed: it gives the first section of
/// that name, in the order the sections were read, or none.
#[verifier::external_body]
fn ini_section<'a>(ini: &'a Ini, name: &str) -> (r: Option<&'a Properties>)
    ensures
        match lookup_first(ini_sections(*ini), Some(name@)) {
            Some(props) => r matches Some(p) && ini_properties(*p) == props,
            None => r is None,
        },
{
    ini.section(Some(name))
}

/// `ini::Properties::get(key)`. Claimed: it gives the value of the first
/// pair with that key, in the order the pairs were read, or none.
#[verifier::external_body]
fn ini_get<'a>(props: &'a Properties, key: &str) -> (r: Option<&'a str>)
    ensures
        match lookup_first(ini_properties(*props), key@) {
            Some(v) => r matches Some(s) && s@ == v,
            None => r is None,
        },
{
    props.get(key)
}

/// The diary's configuration.
#[derive(Debug)]
pub struct Config {
    pub db_url: String,
}

/// Why a configuration text is refused.
#[derive(Debug)]
pub enum ConfigError {
    /// The text is not an INI document.
    Syntax(IniSyntaxError),
    /// It has no `[Database]` section.
    MissingSection,
    /// Its `[Database]` section has no `url` key.
    MissingUrl,
}

/// The mathematical value of a configuration error.
pub enum ConfigErrorView {
    Syntax(int, int, Seq<char>),
    MissingSection,
    MissingUrl,
}

impl View for ConfigError {
    type V = ConfigErrorView;

    open spec fn view(&self) -> ConfigErrorView {
        match self {
            ConfigError::Syntax(e) => ConfigErrorView::Syntax(e.line as int, e.col as int, e.msg@),
            ConfigError::MissingSection => ConfigErrorView::MissingSection,
            ConfigError::MissingUrl => ConfigErrorView::MissingUrl,
        }
    }
}

/// The database URL a configuration text gives: the first `url` of the first
/// `[Database]` section, or why there is none.
pub open spec fn config_spec(text: Seq<char>) -> Result<Seq<char>, ConfigErrorView> {
    match ini_parse(text) {
        Err(e) => Err(ConfigErrorView::Syntax(e.0, e.1, e.2)),
        Ok(sections) => match lookup_first(sections, Some("Database"@)) {
            None => Err(ConfigErrorView::MissingSection),
            Some(props) => match lookup_first(props, "url"@) {
                None => Err(ConfigErrorView::MissingUrl),
                Some(url) => Ok(url),
            },
        },
    }
}

/// The message a configuration error is reported with.
pub open spec fn config_error_message(e: ConfigErrorView) -> Seq<char> {
    match e {
        ConfigErrorView::Syntax(line, col, msg) => decimal(line as nat) + ":"@ + decimal(
            col as nat,
        ) + " "@ + msg,
        ConfigErrorView::MissingSection => "Database section not found"@,
        ConfigErrorView::MissingUrl => "Database URL not found"@,
    }
}

impl ConfigError {
    /// The message this error is reported with.
    pub fn message(&self) -> (r: String)
        ensures
            r@ == config_error_message(self@),
    {
        match self {
            ConfigError::Syntax(e) => {
                let mut s = String::new();
                push_decimal(&mut s, e.line as u64);
                s.append(":");
                push_decimal(&mut s, e.col as u64);
                s.append(" ");
                s.append(e.msg.as_str());
                assert(s@ =~= config_error_message(self@));
                s
            },
            ConfigError::MissingSection => String::from_str("Database section not found"),
            ConfigError::MissingUrl => String::from_str("Database URL not found"),
        }
    }
}

impl Config {
    /// Reads the configuration from the text of an INI document.
    pub fn from_ini_text(text: &str) -> (r: Result<Config, ConfigError>)
        ensures
            match r {
                Ok(c) => config_spec(text@) == Ok::<Seq<char>, ConfigErrorView>(c.db_url@),
                Err(e) => config_spec(text@) == Err::<Seq<char>, ConfigErrorView>(e@),
            },
    {
        let ini = match ini_load(text) {
            Ok(ini) => ini,
            Err(e) => return Err(ConfigError::Syntax(e)),
        };
        let section = match ini_section(&ini, "Database") {
            Some(p) => p,
            None => return Err(ConfigError::MissingSection),
        };
        match ini_get(section, "url") {
            Some(url) => Ok(Config { db_url: String::from_str(url) }),
            None => Err(ConfigError::MissingUrl),
        }
    }
}

/// The database URL is read from the first `[Database]` section, and there
/// from its first `url` key: a document whose first section is `[Database]`
/// and whose first pair there is `url = u` gives `u`, whatever follows; a
/// document with no `[Database]` section is refused as such; one whose
/// `[Database]` section comes first but has no `url` key is refused as such.
pub proof fn lemma_url_from_first_database_section(
    text: Seq<char>,
    sections: Seq<(Option<Seq<char>>, Seq<(Seq<char>, Seq<char>)>)>,
    u: Seq<char>,
)
    requires
        ini_parse(text) == Ok::<
            Seq<(Option<Seq<char>>, Seq<(Seq<char>, Seq<char>)>)>,
            (int, int, Seq<char>),
        >(sections),
    ensures
        sections.len() > 0 && sections[0].0 == Some("Database"@) && sections[0].1.len() > 0
            && sections[0].1[0] == ("url"@, u) ==> config_spec(text) == Ok::<
            Seq<char>,
            ConfigErrorView,
        >(u),
        (forall|i: int| 0 <= i < sections.len() ==> sections[i].0 != Some("Database"@))
            ==> config_spec(text) == Err::<Seq<char>, ConfigErrorView>(
            ConfigErrorView::MissingSection,
        ),
        sections.len() > 0 && sections[0].0 == Some("Database"@) && (forall|j: int|
            0 <= j < sections[0].1.len() ==> sections[0].1[j].0 != "url"@) ==> config_spec(text)
            == Err::<Seq<char>, ConfigErrorView>(ConfigErrorView::MissingUrl),
{
    lemma_lookup_absent(sections, Some("Database"@));
    if sections.len() > 0 {
        lemma_lookup_absent(sections[0].1, "url"@);
    }
}

/// A key that no pair has is not found.
pub proof fn lemma_lookup_absent<K, V>(entries: Seq<(K, V)>, key: K)
    ensures
        (forall|i: int| 0 <= i < entries.len() ==> entries[i].0 != key) ==> lookup_first(
            entries,
            key,
        ) is None,
    decreases entries.len(),
{
    if entries.len() > 0 {
        lemma_lookup_absent(entries.drop_first(), key);
        if forall|i: int| 0 <= i < entries.len() ==> entries[i].0 != key {
            assert forall|i: int| 0 <= i < entries.drop_first().len() implies entries.drop_first()[i].0
                != key by {
                assert(entries.drop_first()[i] == entries[i + 1]);
            }
        }
    }
}

} // verus!
