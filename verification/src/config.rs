//! The wizard's configuration: the commit type list, the scope list, and
//! the subject-line rules. Reading and parsing configuration files happens
//! outside the library; the library only consumes the plain values.

use vstd::prelude::*;

verus! {

/// The abstract content of a [`Config`]: every text as a sequence of
/// characters.
pub ghost struct ConfigView {
    pub types: Seq<Seq<char>>,
    pub scopes: Seq<Seq<char>>,
    pub subject_max_length: usize,
    pub subject_start_lowercase: bool,
    pub subject_no_ending_period: bool,
}

impl ConfigView {
    /// What every configuration handed to the wizard must satisfy: at least
    /// one commit type to pick from, and a positive subject length limit.
    pub open spec fn wf(self) -> bool {
        &&& self.types.len() > 0
        &&& self.subject_max_length > 0
    }
}

/// The settings the wizard runs under.
#[derive(Debug, Clone)]
pub struct Config {
    /// The commit type labels offered on the first step, in display order.
    pub types: Vec<String>,
    /// The scope labels offered on the second step, in display order;
    /// entries starting with a box-drawing dash are visual separators.
    pub scopes: Vec<String>,
    /// The longest subject line that passes validation.
    pub subject_max_length: usize,
    /// Whether the subject must start with a non-uppercase character.
    pub subject_start_lowercase: bool,
    /// Whether a subject ending in a period is rejected.
    pub subject_no_ending_period: bool,
}

impl View for Config {
    type V = ConfigView;

    open spec fn view(&self) -> ConfigView {
        ConfigView {
            types: self.types.deep_view(),
            scopes: self.scopes.deep_view(),
            subject_max_length: self.subject_max_length,
            subject_start_lowercase: self.subject_start_lowercase,
            subject_no_ending_period: self.subject_no_ending_period,
        }
    }
}

/// The built-in commit type labels.
pub open spec fn default_types_view() -> Seq<Seq<char>> {
    seq![
        "feat"@,
        "fix"@,
        "docs"@,
        "style"@,
        "refactor"@,
        "perf"@,
        "test"@,
        "build"@,
        "ci"@,
        "chore"@,
        "revert"@,
    ]
}

/// The built-in commit types offered when no configuration file names any.
pub fn default_types() -> (r: Vec<String>)
    ensures
        r.deep_view() == default_types_view(),
{
    let mut v: Vec<String> = Vec::new();
    v.push("feat".to_owned());
    v.push("fix".to_owned());
    v.push("docs".to_owned());
    v.push("style".to_owned());
    v.push("refactor".to_owned());
    v.push("perf".to_owned());
    v.push("test".to_owned());
    v.push("build".to_owned());
    v.push("ci".to_owned());
    v.push("chore".to_owned());
    v.push("revert".to_owned());
    proof {
        assert(v.deep_view() =~= default_types_view());
    }
    v
}

/// The built-in scope labels: a leading "no scope" sentinel, a first group,
/// a separator entry, and a second group.
pub open spec fn default_scopes_view() -> Seq<Seq<char>> {
    seq![
        "no scope"@,
        "core"@,
        "api"@,
        "ui"@,
        "auth"@,
        "db"@,
        "test"@,
        "build"@,
        "deps"@,
        "ci"@,
        "────────────"@,
        "config"@,
        "infra"@,
        "release"@,
        "chore"@,
        "perf"@,
        "style"@,
        "lint"@,
        "i18n"@,
        "analytics"@,
        "security"@,
        "logging"@,
        "devops"@,
        "deploy"@,
        "assets"@,
        "mock"@,
        "example"@,
    ]
}

/// The built-in scope list offered when no configuration file names any.
pub fn default_scopes() -> (r: Vec<String>)
    ensures
        r.deep_view() == default_scopes_view(),
{
    let mut v: Vec<String> = Vec::new();
    v.push("no scope".to_owned());
    v.push("core".to_owned());
    v.push("api".to_owned());
    v.push("ui".to_owned());
    v.push("auth".to_owned());
    v.push("db".to_owned());
    v.push("test".to_owned());
    v.push("build".to_owned());
    v.push("deps".to_owned());
    v.push("ci".to_owned());
    v.push("────────────".to_owned());
    v.push("config".to_owned());
    v.push("infra".to_owned());
    v.push("release".to_owned());
    v.push("chore".to_owned());
    v.push("perf".to_owned());
    v.push("style".to_owned());
    v.push("lint".to_owned());
    v.push("i18n".to_owned());
    v.push("analytics".to_owned());
    v.push("security".to_owned());
    v.push("logging".to_owned());
    v.push("devops".to_owned());
    v.push("deploy".to_owned());
    v.push("assets".to_owned());
    v.push("mock".to_owned());
    v.push("example".to_owned());
    proof {
        assert(v.deep_view() =~= default_scopes_view());
    }
    v
}

/// The built-in subject length limit.
pub fn default_subject_max_length() -> (r: usize)
    ensures
        r == 72,
{
    72
}

/// Whether the lowercase-start rule is on by default.
pub fn default_subject_start_lowercase() -> (r: bool)
    ensures
        r,
{
    true
}

/// Whether the no-trailing-period rule is on by default.
pub fn default_subject_no_ending_period() -> (r: bool)
    ensures
        r,
{
    true
}

/// Overlaying one configuration with another.
pub trait MergeConfig: Sized {
    fn merge(&mut self, other: Self);
}

impl MergeConfig for Config {
    /// Every field of `other` replaces the corresponding field of `self`.
    fn merge(&mut self, other: Config)
        ensures
            *final(self) == other,
    {
        self.types = other.types;
        self.scopes = other.scopes;
        self.subject_max_length = other.subject_max_length;
        self.subject_start_lowercase = other.subject_start_lowercase;
        self.subject_no_ending_period = other.subject_no_ending_period;
    }
}

impl Default for Config {
    /// The built-in configuration used when no file provides one.
    fn default() -> (r: Config)
        ensures
            r@.types == default_types_view(),
            r@.scopes == default_scopes_view(),
            r@.subject_max_length == 72,
            r@.subject_start_lowercase,
            r@.subject_no_ending_period,
            r@.wf(),
    {
        Config {
            types: default_types(),
            scopes: default_scopes(),
            subject_max_length: default_subject_max_length(),
            subject_start_lowercase: default_subject_start_lowercase(),
            subject_no_ending_period: default_subject_no_ending_period(),
        }
    }
}

/// Whether `config` satisfies the well-formedness the wizard requires;
/// unverified callers test this before starting a run.
pub fn config_ok(config: &Config) -> (r: bool)
    ensures
        r == config@.wf(),
{
    config.types.len() > 0 && config.subject_max_length > 0
}

} // verus!
