use vstd::prelude::*;

verus! {

/// The persisted-configuration layer: every option is optional, and an
/// absent file reads as all `None`.
pub struct Config {
    pub ignore_case: Option<bool>,
    pub hidden: Option<bool>,
    pub follow: Option<bool>,
    pub no_ignore: Option<bool>,
    pub multi: Option<bool>,
    pub no_preview: Option<bool>,
    pub open: Option<String>,
    pub preview_width: Option<String>,
    pub preview_context: Option<usize>,
}

impl Config {
    /// A configuration with nothing set.
    pub fn empty() -> (r: Config)
        ensures
            r.is_empty(),
    {
        Config {
            ignore_case: None,
            hidden: None,
            follow: None,
            no_ignore: None,
            multi: None,
            no_preview: None,
            open: None,
            preview_width: None,
            preview_context: None,
        }
    }

    pub open spec fn is_empty(&self) -> bool {
        &&& self.ignore_case is None
        &&& self.hidden is None
        &&& self.follow is None
        &&& self.no_ignore is None
        &&& self.multi is None
        &&& self.no_preview is None
        &&& self.open is None
        &&& self.preview_width is None
        &&& self.preview_context is None
    }
}

/// The syntax a configuration file is written in.
#[derive(PartialEq, Eq, Structural, Clone, Copy, Debug)]
pub enum ConfigFormat {
    Toml,
    Yaml,
    Unknown,
}

pub open spec fn ends_with(s: Seq<char>, suffix: Seq<char>) -> bool {
    s.len() >= suffix.len() && s.subrange(s.len() - suffix.len(), s.len() as int) == suffix
}

pub open spec fn format_of_spec(name: Seq<char>) -> ConfigFormat {
    if ends_with(name, ".toml"@) {
        ConfigFormat::Toml
    } else if ends_with(name, ".yaml"@) || ends_with(name, ".yml"@) {
        ConfigFormat::Yaml
    } else {
        ConfigFormat::Unknown
    }
}

fn has_suffix(s: &str, suffix: &str) -> (r: bool)
    ensures
        r == ends_with(s@, suffix@),
{
    let n = s.unicode_len();
    let m = suffix.unicode_len();
    if n < m {
        return false;
    }
    let mut i: usize = 0;
    while i < m
        invariant
            n == s@.len(),
            m == suffix@.len(),
            m <= n,
            i <= m,
            forall|j: int| 0 <= j < i ==> s@[n - m + j] == suffix@[j],
        decreases m - i,
    {
        if s.get_char(n - m + i) != suffix.get_char(i) {
            assert(s@.subrange(n - m, n as int)[i as int] != suffix@[i as int]);
            return false;
        }
        i = i + 1;
    }
    assert(s@.subrange(n - m, n as int) =~= suffix@);
    true
}

/// Which parser reads a configuration file, by the file's extension.
pub fn config_format(file_name: &str) -> (r: ConfigFormat)
    ensures
        r == format_of_spec(file_name@),
{
    if has_suffix(file_name, ".toml") {
        ConfigFormat::Toml
    } else if has_suffix(file_name, ".yaml") || has_suffix(file_name, ".yml") {
        ConfigFormat::Yaml
    } else {
        ConfigFormat::Unknown
    }
}

/// The places a configuration file is looked for, relative to the home
/// directory, in order of preference.
pub open spec fn config_candidates_spec() -> Seq<Seq<char>> {
    seq![
        ".config/rgopen/config.toml"@,
        ".config/rgopen/config.yaml"@,
        ".config/rgopen/config.yml"@,
        ".rgopen/config.toml"@,
        ".rgopen/config.yaml"@,
        ".rgopen/config.yml"@,
    ]
}

pub fn config_candidates() -> (r: Vec<String>)
    ensures
        r@.map_values(|s: String| s@) == config_candidates_spec(),
{
    let mut v: Vec<String> = Vec::new();
    v.push(String::from_str(".config/rgopen/config.toml"));
    v.push(String::from_str(".config/rgopen/config.yaml"));
    v.push(String::from_str(".config/rgopen/config.yml"));
    v.push(String::from_str(".rgopen/config.toml"));
    v.push(String::from_str(".rgopen/config.yaml"));
    v.push(String::from_str(".rgopen/config.yml"));
    assert(v@.map_values(|s: String| s@) =~= config_candidates_spec());
    v
}

} // verus!
