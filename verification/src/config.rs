//! Configuration: output options, rule selection and severity overrides.
use vstd::prelude::*;

use crate::report::severity::{parsed_severity, severity_from_name, Severity};
use crate::text::{copy_str, join_with, joined, split_chars, split_spec, string_of, trim_chars, trim_spec};

verus! {

/// How a report is printed.
#[derive(Debug, Clone, Copy, PartialEq, Eq, Structural)]
pub enum OutputFormat {
    Human,
    Json,
    Sarif,
}

/// The least severe findings a report keeps.
#[derive(Debug, Clone, Copy, PartialEq, Eq, Structural)]
pub enum MinSeverity {
    Critical,
    High,
    Medium,
    Low,
    Info,
}

/// The threshold of the source-level runner.
#[derive(Debug, Clone, Copy, PartialEq, Eq, Structural)]
pub enum SeverityLevel {
    Warn,
    Error,
}

impl MinSeverity {
    /// The severity of the same name.
    pub open spec fn severity(self) -> Severity {
        match self {
            MinSeverity::Critical => Severity::Critical,
            MinSeverity::High => Severity::High,
            MinSeverity::Medium => Severity::Medium,
            MinSeverity::Low => Severity::Low,
            MinSeverity::Info => Severity::Info,
        }
    }

    /// The severity of the same name.
    pub fn to_severity(&self) -> (r: Severity)
        ensures
            r == self.severity(),
    {
        match self {
            MinSeverity::Critical => Severity::Critical,
            MinSeverity::High => Severity::High,
            MinSeverity::Medium => Severity::Medium,
            MinSeverity::Low => Severity::Low,
            MinSeverity::Info => Severity::Info,
        }
    }
}

/// The settings of one run of the source-level runner.
pub struct Config {
    pub paths: Vec<String>,
    pub format: OutputFormat,
    pub severity: SeverityLevel,
    pub output: Option<String>,
    pub exclude: Option<String>,
    pub jobs: usize,
}

/// A configuration file.
pub struct ConfigFile {
    pub general: GeneralConfig,
    pub rules: RulesConfig,
    pub output: OutputConfig,
}

/// The `[general]` table.
pub struct GeneralConfig {
    pub exclude: Vec<String>,
    pub jobs: Option<usize>,
}

impl Default for GeneralConfig {
    fn default() -> (r: Self)
        ensures
            r.exclude@.len() == 0,
            r.jobs == Some(4usize),
    {
        GeneralConfig { exclude: Vec::new(), jobs: Some(4) }
    }
}

/// The `[rules]` table: one entry per rule family.
pub struct RulesConfig {
    pub reentrancy: RuleOverride,
    pub overflow: RuleOverride,
    pub access_control: RuleOverride,
    pub storage: RuleOverride,
}

impl Default for RulesConfig {
    fn default() -> (r: Self)
        ensures
            r.reentrancy.is_default(),
            r.overflow.is_default(),
            r.access_control.is_default(),
            r.storage.is_default(),
    {
        RulesConfig {
            reentrancy: RuleOverride::default(),
            overflow: RuleOverride::default(),
            access_control: RuleOverride::default(),
            storage: RuleOverride::default(),
        }
    }
}

/// Whether a rule family runs, and at which severity its findings are reported.
pub struct RuleOverride {
    pub enabled: Option<bool>,
    pub severity: Option<String>,
}

impl RuleOverride {
    /// Enabled, severity unchanged.
    pub open spec fn is_default(self) -> bool {
        self.enabled == Some(true) && self.severity is None
    }

    /// The family runs (it does unless disabled explicitly).
    pub open spec fn is_enabled(self) -> bool {
        match self.enabled {
            Some(b) => b,
            None => true,
        }
    }

    /// The severity this override imposes, if it names one.
    pub open spec fn imposed(self) -> Option<Severity> {
        match self.severity {
            Some(s) => parsed_severity(s@),
            None => None,
        }
    }

    /// The severity this override imposes, if it names one (case-insensitively).
    pub fn to_severity(&self) -> (r: Option<Severity>)
        ensures
            r == self.imposed(),
    {
        match &self.severity {
            Some(s) => severity_from_name(s.as_str()),
            None => None,
        }
    }
}

impl Default for RuleOverride {
    fn default() -> (r: Self)
        ensures
            r.is_default(),
    {
        RuleOverride { enabled: Some(true), severity: None }
    }
}

/// The `[output]` table.
pub struct OutputConfig {
    pub format: Option<OutputFormat>,
    pub min_severity: Option<MinSeverity>,
}

impl Default for OutputConfig {
    fn default() -> (r: Self)
        ensures
            r.format is None,
            r.min_severity is None,
    {
        OutputConfig { format: None, min_severity: None }
    }
}

/// The ids of the enabled rule families, in the order reentrancy, overflow,
/// access control, storage.
pub open spec fn enabled_ids_spec(r: RulesConfig) -> Seq<Seq<char>> {
    (if r.reentrancy.is_enabled() { seq!["reentrancy"@] } else { seq![] })
        + (if r.overflow.is_enabled() { seq!["overflow"@] } else { seq![] })
        + (if r.access_control.is_enabled() { seq!["access_control"@] } else { seq![] })
        + (if r.storage.is_enabled() { seq!["storage"@] } else { seq![] })
}

impl RulesConfig {
    /// The ids of the enabled rule families.
    pub fn enabled_rule_ids(&self) -> (r: Vec<&'static str>)
        ensures
            r@.map_values(|s: &str| s@) == enabled_ids_spec(*self),
    {
        let mut ids: Vec<&'static str> = Vec::new();
        let e1 = match self.reentrancy.enabled { Some(b) => b, None => true };
        let e2 = match self.overflow.enabled { Some(b) => b, None => true };
        let e3 = match self.access_control.enabled { Some(b) => b, None => true };
        let e4 = match self.storage.enabled { Some(b) => b, None => true };
        if e1 {
            ids.push("reentrancy");
        }
        let ghost v1 = ids@;
        if e2 {
            ids.push("overflow");
        }
        let ghost v2 = ids@;
        if e3 {
            ids.push("access_control");
        }
        let ghost v3 = ids@;
        if e4 {
            ids.push("storage");
        }
        assert(ids@.map_values(|s: &str| s@) =~= enabled_ids_spec(*self));
        ids
    }
}

/// The non-empty pieces among `ps`.
pub open spec fn nonempty_pieces(ps: Seq<Seq<char>>) -> Seq<Seq<char>>
    decreases ps.len(),
{
    if ps.len() == 0 {
        seq![]
    } else if ps.last().len() > 0 {
        nonempty_pieces(ps.drop_last()).push(ps.last())
    } else {
        nonempty_pieces(ps.drop_last())
    }
}

/// The rule ids of a comma-separated list, trimmed, empty ones dropped.
pub open spec fn rule_list_spec(s: Seq<char>) -> Seq<Seq<char>> {
    nonempty_pieces(split_spec(s, ',').map_values(|p: Seq<char>| trim_spec(p)))
}

/// The rule ids listed in a comma-separated string.
pub fn parse_rule_list(s: &str) -> (r: Vec<String>)
    ensures
        r.deep_view() == rule_list_spec(s@),
{
    let pieces = split_chars(s, ',');
    let ghost ps = pieces@.map_values(|v: Vec<char>| v@);
    let ghost ts = ps.map_values(|p: Seq<char>| trim_spec(p));
    let mut out: Vec<String> = Vec::new();
    let mut i: usize = 0;
    assert(ts.take(0) =~= Seq::<Seq<char>>::empty());
    while i < pieces.len()
        invariant
            i <= pieces@.len(),
            ps == pieces@.map_values(|v: Vec<char>| v@),
            ts == ps.map_values(|p: Seq<char>| trim_spec(p)),
            out.deep_view() == nonempty_pieces(ts.take(i as int)),
        decreases pieces@.len() - i,
    {
        let t = trim_chars(pieces[i].as_slice());
        assert(ts.take(i + 1).drop_last() =~= ts.take(i as int));
        assert(ts.take(i + 1).last() == t@);
        if t.len() > 0 {
            let ghost before = out.deep_view();
            out.push(string_of(t.as_slice()));
            assert(out.deep_view() =~= before.push(t@));
        }
        i = i + 1;
    }
    assert(ts.take(i as int) =~= ts);
    out
}

/// Which rule families to run: an explicit list wins; without `all` none;
/// otherwise the families a configuration file enables; otherwise all (`None`).
pub open spec fn resolved_ids_spec(rules: Option<Seq<char>>, all: bool, cfg: Option<RulesConfig>) -> Option<Seq<Seq<char>>> {
    match rules {
        Some(s) => Some(rule_list_spec(s)),
        None => if !all {
            Some(seq![])
        } else {
            match cfg {
                Some(r) => Some(enabled_ids_spec(r)),
                None => None,
            }
        },
    }
}

/// Resolves which rule families to run; `None` means all of them.
pub fn resolve_rule_ids(rules: Option<&str>, all: bool, cfg: Option<&ConfigFile>) -> (r: Option<Vec<String>>)
    ensures
        (match r { Some(v) => Some(v.deep_view()), None => None }) == resolved_ids_spec(
            match rules { Some(s) => Some(s@), None => None },
            all,
            match cfg { Some(c) => Some(c.rules), None => None },
        ),
{
    match rules {
        Some(s) => {
            return Some(parse_rule_list(s));
        },
        None => {},
    }
    if !all {
        let v: Vec<String> = Vec::new();
        assert(v.deep_view() =~= Seq::<Seq<char>>::empty());
        return Some(v);
    }
    match cfg {
        Some(c) => {
            let ids = c.rules.enabled_rule_ids();
            let mut out: Vec<String> = Vec::new();
            let mut i: usize = 0;
            while i < ids.len()
                invariant
                    i <= ids@.len(),
                    out.deep_view() == ids@.take(i as int).map_values(|s: &str| s@),
                decreases ids@.len() - i,
            {
                let ghost before = out.deep_view();
                let piece = copy_str(ids[i]);
                out.push(piece);
                assert(out.deep_view() =~= before.push(ids@[i as int]@));
                assert(ids@.take(i + 1).map_values(|s: &str| s@) =~= ids@.take(i as int).map_values(|s: &str| s@).push(ids@[i as int]@));
                i = i + 1;
            }
            assert(ids@.take(i as int) =~= ids@);
            Some(out)
        },
        None => None,
    }
}

/// The severity overrides a configuration asks for: one `(prefix, override)`
/// per family that names a severity, in the order `R-`, `O-`, `A-`, `S-`.
pub open spec fn overrides_spec(r: RulesConfig) -> Seq<(Seq<char>, RuleOverride)> {
    (if r.reentrancy.severity is Some { seq![("R-"@, r.reentrancy)] } else { seq![] })
        + (if r.overflow.severity is Some { seq![("O-"@, r.overflow)] } else { seq![] })
        + (if r.access_control.severity is Some { seq![("A-"@, r.access_control)] } else { seq![] })
        + (if r.storage.severity is Some { seq![("S-"@, r.storage)] } else { seq![] })
}

/// The severity overrides of a configuration file.
pub fn build_severity_overrides<'a>(cfg: Option<&'a ConfigFile>) -> (r: Vec<(&'static str, &'a RuleOverride)>)
    ensures
        r@.map_values(|p: (&str, &RuleOverride)| (p.0@, *p.1)) == match cfg {
            Some(c) => overrides_spec(c.rules),
            None => seq![],
        },
{
    let mut overrides: Vec<(&'static str, &'a RuleOverride)> = Vec::new();
    match cfg {
        None => {
            assert(overrides@.map_values(|p: (&str, &RuleOverride)| (p.0@, *p.1)) =~= Seq::<(Seq<char>, RuleOverride)>::empty());
            overrides
        },
        Some(cfg) => {
            if cfg.rules.reentrancy.severity.is_some() {
                overrides.push(("R-", &cfg.rules.reentrancy));
            }
            if cfg.rules.overflow.severity.is_some() {
                overrides.push(("O-", &cfg.rules.overflow));
            }
            if cfg.rules.access_control.severity.is_some() {
                overrides.push(("A-", &cfg.rules.access_control));
            }
            if cfg.rules.storage.severity.is_some() {
                overrides.push(("S-", &cfg.rules.storage));
            }
            assert(overrides@.map_values(|p: (&str, &RuleOverride)| (p.0@, *p.1)) =~= overrides_spec(cfg.rules));
            overrides
        },
    }
}

/// The options of one run of the command line.
pub struct RunOptions {
    pub format: OutputFormat,
    pub min_severity: MinSeverity,
    /// Comma-separated glob patterns of files to leave out.
    pub exclude: Option<String>,
    pub jobs: usize,
}

/// The exclusion list a configuration gives: its patterns joined by commas,
/// when the command line gives none and the configuration has some.
pub open spec fn merged_exclude(cli: Option<Seq<char>>, cfg_exclude: Seq<Seq<char>>) -> Option<Seq<char>> {
    if cli is None && cfg_exclude.len() > 0 {
        Some(joined(cfg_exclude, ","@))
    } else {
        cli
    }
}

/// Applies a configuration file to the command line's options: its output
/// format, minimum severity and job count replace those given; its
/// exclusions apply when the command line gives none.
pub fn merge_config(opts: RunOptions, cfg: Option<&ConfigFile>) -> (r: RunOptions)
    ensures
        match cfg {
            None => r.format == opts.format && r.min_severity == opts.min_severity && r.jobs == opts.jobs
                && r.exclude == opts.exclude,
            Some(c) => {
                &&& r.format == match c.output.format { Some(f) => f, None => opts.format }
                &&& r.min_severity == match c.output.min_severity { Some(m) => m, None => opts.min_severity }
                &&& r.jobs == match c.general.jobs { Some(j) => j, None => opts.jobs }
                &&& (match r.exclude { Some(e) => Some(e@), None => None }) == merged_exclude(
                    match opts.exclude { Some(e) => Some(e@), None => None },
                    c.general.exclude.deep_view(),
                )
            },
        },
{
    match cfg {
        None => opts,
        Some(c) => {
            let format = match c.output.format {
                Some(f) => f,
                None => opts.format,
            };
            let min_severity = match c.output.min_severity {
                Some(m) => m,
                None => opts.min_severity,
            };
            let jobs = match c.general.jobs {
                Some(j) => j,
                None => opts.jobs,
            };
            let exclude = match opts.exclude {
                Some(e) => Some(e),
                None => if c.general.exclude.len() > 0 {
                    Some(join_with(&c.general.exclude, ","))
                } else {
                    None
                },
            };
            RunOptions { format, min_severity, exclude, jobs }
        },
    }
}

/// The format a run prints in: SARIF when asked for with its own flag.
pub fn output_format(sarif: bool, format: OutputFormat) -> (r: OutputFormat)
    ensures
        r == if sarif { OutputFormat::Sarif } else { format },
{
    if sarif { OutputFormat::Sarif } else { format }
}

/// The number of workers: as many as asked for, but at least one.
pub fn worker_count(jobs: usize) -> (r: usize)
    ensures
        r == if jobs == 0 { 1 } else { jobs },
{
    if jobs == 0 { 1 } else { jobs }
}

} // verus!
