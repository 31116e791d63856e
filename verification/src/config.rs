//! Configuration: the `tierfs.conf` INI file, size strings and quotas.

use vstd::prelude::*;
use crate::decimal::{parse_decimal_spec, Decimal};
use crate::text::{
    chars_eq_str, fold_char, join_path, join_path_spec, lower_eq, nat_to_digits, u64_to_chars, lower_eq_str, parse_u64, parse_u64_spec, split_whitespace,
    str_to_chars, string_from_chars, sub_chars, trim_chars, trim_spec, words,
};
use std::collections::hash_map::DefaultHasher;
use std::hash::Hasher;
use vstd::std_specs::hash::DefaultHasherAdditionalSpecFns;

verus! {

/// The multiplier that a unit name selects, compared without regard to case;
/// an unknown unit counts single bytes.
pub open spec fn unit_multiplier(u: Seq<char>) -> nat {
    if lower_eq(u, "kb"@) || lower_eq(u, "k"@) {
        1000
    } else if lower_eq(u, "kib"@) {
        1024
    } else if lower_eq(u, "mb"@) || lower_eq(u, "m"@) {
        1000 * 1000
    } else if lower_eq(u, "mib"@) {
        1024 * 1024
    } else if lower_eq(u, "gb"@) || lower_eq(u, "g"@) {
        1000 * 1000 * 1000
    } else if lower_eq(u, "gib"@) {
        1024 * 1024 * 1024
    } else if lower_eq(u, "tb"@) || lower_eq(u, "t"@) {
        1000 * 1000 * 1000 * 1000
    } else if lower_eq(u, "tib"@) {
        1024 * 1024 * 1024 * 1024
    } else {
        1
    }
}

/// A size string such as `"1 MiB"` or `"5.3 TiB"`, taken apart: the first
/// word, which must be a number that `f64::from_str` reads, and the
/// multiplier of the unit that the second word (if any) names; further words
/// are ignored. The size in bytes is the number times the multiplier.
pub open spec fn size_parts_spec(val: Seq<char>) -> Option<(Seq<char>, nat)> {
    let parts = words(trim_spec(val));
    if parts.len() == 0 || parse_decimal_spec(parts[0]) is None {
        None
    } else {
        Some(
            (
                parts[0],
                if parts.len() < 2 {
                    1
                } else {
                    unit_multiplier(parts[1])
                },
            ),
        )
    }
}

/// A size in bytes as written: `number` times `multiplier` bytes. The
/// product is floating-point arithmetic (`number` as an `f64`, the product
/// rounded and cast to an integer), which the library leaves to its caller.
#[derive(Debug)]
pub struct ByteSize {
    /// A number that `f64::from_str` reads.
    pub number: String,
    pub multiplier: u64,
}

/// Whether `b` is the size that `parts` describes.
pub open spec fn size_is(b: Option<ByteSize>, parts: Option<(Seq<char>, nat)>) -> bool {
    match parts {
        Some((n, m)) => b matches Some(x) && x.number@ == n && x.multiplier == m,
        None => b is None,
    }
}

/// The unit names and what each multiplies by, without regard to case:
/// `k`/`kb` 10^3, `kib` 2^10, `m`/`mb` 10^6, `mib` 2^20, `g`/`gb` 10^9,
/// `gib` 2^30, `t`/`tb` 10^12, `tib` 2^40; any other unit counts single
/// bytes.
pub proof fn lemma_unit_multiplier_table(u: Seq<char>)
    ensures
        lower_eq(u, "kb"@) || lower_eq(u, "k"@) ==> unit_multiplier(u) == 1_000,
        lower_eq(u, "kib"@) ==> unit_multiplier(u) == 1_024,
        lower_eq(u, "mb"@) || lower_eq(u, "m"@) ==> unit_multiplier(u) == 1_000_000,
        lower_eq(u, "mib"@) ==> unit_multiplier(u) == 1_048_576,
        lower_eq(u, "gb"@) || lower_eq(u, "g"@) ==> unit_multiplier(u) == 1_000_000_000,
        lower_eq(u, "gib"@) ==> unit_multiplier(u) == 1_073_741_824,
        lower_eq(u, "tb"@) || lower_eq(u, "t"@) ==> unit_multiplier(u) == 1_000_000_000_000,
        lower_eq(u, "tib"@) ==> unit_multiplier(u) == 1_099_511_627_776,
        !(lower_eq(u, "kb"@) || lower_eq(u, "k"@) || lower_eq(u, "kib"@) || lower_eq(u, "mb"@)
            || lower_eq(u, "m"@) || lower_eq(u, "mib"@) || lower_eq(u, "gb"@) || lower_eq(u, "g"@)
            || lower_eq(u, "gib"@) || lower_eq(u, "tb"@) || lower_eq(u, "t"@) || lower_eq(u, "tib"@))
            ==> unit_multiplier(u) == 1,
{
    reveal_strlit("kb");
    reveal_strlit("k");
    reveal_strlit("kib");
    reveal_strlit("mb");
    reveal_strlit("m");
    reveal_strlit("mib");
    reveal_strlit("gb");
    reveal_strlit("g");
    reveal_strlit("gib");
    reveal_strlit("tb");
    reveal_strlit("t");
    reveal_strlit("tib");
    if u.len() > 0 {
        assert(lower_eq(u, "kb"@) || lower_eq(u, "k"@) || lower_eq(u, "kib"@) ==> fold_char(u[0]) == 'k');
        assert(lower_eq(u, "mb"@) || lower_eq(u, "m"@) || lower_eq(u, "mib"@) ==> fold_char(u[0]) == 'm');
        assert(lower_eq(u, "gb"@) || lower_eq(u, "g"@) || lower_eq(u, "gib"@) ==> fold_char(u[0]) == 'g');
        assert(lower_eq(u, "tb"@) || lower_eq(u, "t"@) || lower_eq(u, "tib"@) ==> fold_char(u[0]) == 't');
    }
}

fn unit_multiplier_exec(u: &[char]) -> (m: u64)
    ensures
        m == unit_multiplier(u@),
{
    if lower_eq_str(u, "kb") || lower_eq_str(u, "k") {
        1000
    } else if lower_eq_str(u, "kib") {
        1024
    } else if lower_eq_str(u, "mb") || lower_eq_str(u, "m") {
        1000 * 1000
    } else if lower_eq_str(u, "mib") {
        1024 * 1024
    } else if lower_eq_str(u, "gb") || lower_eq_str(u, "g") {
        1000 * 1000 * 1000
    } else if lower_eq_str(u, "gib") {
        1024 * 1024 * 1024
    } else if lower_eq_str(u, "tb") || lower_eq_str(u, "t") {
        1000 * 1000 * 1000 * 1000
    } else if lower_eq_str(u, "tib") {
        1024 * 1024 * 1024 * 1024
    } else {
        1
    }
}

/// Reads a size string such as `"1 MiB"` or `"5.3 TiB"`: its number and
/// the multiplier of its unit; `None` when it has no words or its first word
/// is not a number.
pub fn parse_size(val: &str) -> (r: Option<ByteSize>)
    ensures
        size_is(r, size_parts_spec(val@)),
{
    let chars = str_to_chars(val);
    let trimmed = trim_chars(&chars);
    let parts = split_whitespace(&trimmed);
    proof {
        let ghost pv = parts@.map_values(|w: Vec<char>| w@);
        assert(pv.len() == parts@.len());
    }
    if parts.len() == 0 {
        return None;
    }
    assert(parts@[0]@ == words(trim_spec(val@))[0]);
    match Decimal::parse(parts[0].as_slice()) {
        Some(_) => {},
        None => {
            return None;
        },
    }
    let mult: u64 = if parts.len() < 2 {
        1
    } else {
        assert(parts@[1]@ == words(trim_spec(val@))[1]);
        unit_multiplier_exec(parts[1].as_slice())
    };
    Some(ByteSize { number: string_from_chars(parts[0].as_slice()), multiplier: mult })
}

/// The percentage that a quota string ending in `%` gives: the text before
/// the `%`, trimmed, when it is a number.
pub open spec fn quota_percent_spec(val: Seq<char>) -> Option<Seq<char>> {
    if val.len() > 0 && val.last() == '%' && parse_decimal_spec(trim_spec(val.drop_last())) is Some {
        Some(trim_spec(val.drop_last()))
    } else {
        None
    }
}

/// A tier's quota as written.
#[derive(Debug)]
pub enum Quota {
    /// A percentage of the tier's filesystem: a number that `f64::from_str`
    /// reads.
    Percent(String),
    /// A size in bytes; `None` when the text is no size, which counts as 0.
    Bytes(Option<ByteSize>),
}

/// Whether `q` is the quota that the text `val` gives: a percentage when it
/// ends in `%` after a number, otherwise a size string.
pub open spec fn quota_is(q: Quota, val: Seq<char>) -> bool {
    match quota_percent_spec(val) {
        Some(p) => q matches Quota::Percent(t) && t@ == p,
        None => q matches Quota::Bytes(b) && size_is(b, size_parts_spec(val)),
    }
}

/// Reads a quota string: `"80%"` is a percentage of the tier's filesystem;
/// anything else is a size string.
pub fn parse_quota(val: &str) -> (r: Quota)
    ensures
        quota_is(r, val@),
{
    let chars = str_to_chars(val);
    let n = chars.len();
    if n > 0 && chars[n - 1] == '%' {
        let body = sub_chars(chars.as_slice(), 0, n - 1);
        assert(body@ == val@.drop_last());
        let trimmed = trim_chars(&body);
        match Decimal::parse(trimmed.as_slice()) {
            Some(_) => {
                return Quota::Percent(string_from_chars(trimmed.as_slice()));
            },
            None => {},
        }
    }
    Quota::Bytes(parse_size(val))
}

/// How much the daemon logs.
#[derive(Debug, Clone, Copy, PartialEq, Eq, PartialOrd, Ord, Structural)]
pub enum LogLevel {
    Quiet,
    Normal,
    Debug,
}

/// Settings given on the command line that take precedence over the file.
#[derive(Debug, Clone, Copy)]
pub struct ConfigOverrides {
    pub log_level_override: Option<LogLevel>,
}

impl Default for ConfigOverrides {
    fn default() -> (o: Self)
        ensures
            o.log_level_override is None,
    {
        ConfigOverrides { log_level_override: None }
    }
}

impl ConfigOverrides {
    /// The overrides that the daemon's `--verbose` and `--quiet` flags ask
    /// for; `--verbose` wins when both are given.
    pub fn from_flags(verbose: bool, quiet: bool) -> (o: Self)
        ensures
            o.log_level_override == if verbose {
                Some(LogLevel::Debug)
            } else if quiet {
                Some(LogLevel::Quiet)
            } else {
                None
            },
    {
        if verbose {
            ConfigOverrides { log_level_override: Some(LogLevel::Debug) }
        } else if quiet {
            ConfigOverrides { log_level_override: Some(LogLevel::Quiet) }
        } else {
            ConfigOverrides { log_level_override: None }
        }
    }
}

impl LogLevel {
    /// The logger filter that the level stands for.
    pub fn log_filter(&self) -> (f: &'static str)
        ensures
            f@ == match *self {
                LogLevel::Quiet => "error"@,
                LogLevel::Normal => "info"@,
                LogLevel::Debug => "trace"@,
            },
    {
        match self {
            LogLevel::Quiet => "error",
            LogLevel::Normal => "info",
            LogLevel::Debug => "trace",
        }
    }
}

/// The global settings of `tierfs.conf`.
#[derive(Debug)]
pub struct Config {
    pub log_level: LogLevel,
    /// The size of the copy buffer, as written (its byte count is
    /// floating-point arithmetic, done by the owner of the configuration).
    pub copy_buff_sz: ByteSize,
    /// Seconds between tiering runs.
    pub tier_period_s: u64,
    pub strict_period: bool,
    pub crawler_threads: usize,
    pub run_path: String,
    pub log_file: Option<String>,
}

impl Default for Config {
    fn default() -> (c: Self)
        ensures
            c.log_level == LogLevel::Normal,
            c.copy_buff_sz.number@ == "1"@,
            c.copy_buff_sz.multiplier == 1024 * 1024,
            c.tier_period_s == 1000,
            !c.strict_period,
            c.crawler_threads == 4,
            c.run_path@ == "/var/lib/tierfs"@,
            c.log_file is None,
    {
        Config {
            log_level: LogLevel::Normal,
            copy_buff_sz: ByteSize { number: "1".to_owned(), multiplier: 1024 * 1024 },
            tier_period_s: 1000,
            strict_period: false,
            crawler_threads: 4,
            run_path: "/var/lib/tierfs".to_owned(),
            log_file: None,
        }
    }
}

impl Clone for Config {
    fn clone(&self) -> (c: Self)
        ensures
            c == *self,
    {
        Config {
            log_level: self.log_level,
            copy_buff_sz: ByteSize {
                number: self.copy_buff_sz.number.clone(),
                multiplier: self.copy_buff_sz.multiplier,
            },
            tier_period_s: self.tier_period_s,
            strict_period: self.strict_period,
            crawler_threads: self.crawler_threads,
            run_path: self.run_path.clone(),
            log_file: match &self.log_file {
                Some(f) => Some(f.clone()),
                None => None,
            },
        }
    }
}

/// The key/value pairs of an INI section, in file order.
pub type IniProps = Seq<(Seq<char>, Seq<char>)>;

/// The sections of an INI document, in file order.
pub type IniDoc = Seq<(Option<Seq<char>>, IniProps)>;

/// What `ini::Ini::load_from_str` makes of a text: the document's sections
/// or the error's message.
pub uninterp spec fn ini_document(text: Seq<char>) -> Result<IniDoc, Seq<char>>;

/// `ini::Ini::load_from_str` (rust-ini), with each section handed out as its
/// name and its key/value pairs, in the order in which `Ini::iter` and
/// `Properties::iter` give them; a parse error is handed out as its
/// `Display` text. The contract only names the outcome: what rust-ini's
/// parser makes of a text is not restated here.
#[verifier::external_body]
fn ini_load_from_str(text: &str) -> (r: Result<Vec<(Option<String>, Vec<(String, String)>)>, String>)
    ensures
        match r {
            Ok(v) => ini_document(text@) == Ok::<IniDoc, Seq<char>>(v.deep_view()),
            Err(e) => ini_document(text@) == Err::<IniDoc, Seq<char>>(e@),
        },
{
    match ini::Ini::load_from_str(text) {
        Ok(doc) => Ok(
            doc.iter().map(
                |(name, props)|
                    (
                        name.map(|n| n.to_string()),
                        props.iter().map(|(k, v)| (k.to_string(), v.to_string())).collect(),
                    ),
            ).collect(),
        ),
        Err(e) => Err(e.to_string()),
    }
}

/// `Properties::get`: the first value given for `key`.
pub open spec fn prop_get(props: IniProps, key: Seq<char>) -> Option<Seq<char>>
    decreases props.len(),
{
    if props.len() == 0 {
        None
    } else if props[0].0 == key {
        Some(props[0].1)
    } else {
        prop_get(props.drop_first(), key)
    }
}

/// `Ini::section`: the first section with the name `name`.
pub open spec fn section_get(doc: IniDoc, name: Option<Seq<char>>) -> Option<IniProps>
    decreases doc.len(),
{
    if doc.len() == 0 {
        None
    } else if doc[0].0 == name {
        Some(doc[0].1)
    } else {
        section_get(doc.drop_first(), name)
    }
}

/// A value of the `[Global]` section.
pub open spec fn global_value(doc: IniDoc, key: Seq<char>) -> Option<Seq<char>> {
    match section_get(doc, Some("Global"@)) {
        Some(props) => prop_get(props, key),
        None => None,
    }
}

pub open spec fn spec_log_level(doc: IniDoc, overrides: ConfigOverrides) -> LogLevel {
    match overrides.log_level_override {
        Some(level) => level,
        None => match global_value(doc, "Log Level"@) {
            Some(v) => if trim_spec(v) == "0"@ {
                LogLevel::Quiet
            } else if trim_spec(v) == "2"@ {
                LogLevel::Debug
            } else {
                LogLevel::Normal
            },
            None => LogLevel::Normal,
        },
    }
}

pub open spec fn spec_tier_period(doc: IniDoc) -> u64 {
    match global_value(doc, "Tier Period"@) {
        Some(v) => match parse_u64_spec(trim_spec(v)) {
            Some(secs) => secs,
            None => 1000,
        },
        None => 1000,
    }
}

/// The copy buffer size that the file gives, when it gives one that reads
/// as a size.
pub open spec fn spec_copy_buffer(doc: IniDoc) -> Option<(Seq<char>, nat)> {
    match global_value(doc, "Copy Buffer Size"@) {
        Some(v) => size_parts_spec(v),
        None => None,
    }
}

/// The copy buffer size of a document, as its number and unit multiplier:
/// the one that the file gives, else 1 MiB.
pub open spec fn spec_copy_buff_sz(doc: IniDoc) -> (Seq<char>, nat) {
    match spec_copy_buffer(doc) {
        Some(p) => p,
        None => ("1"@, 1024 * 1024),
    }
}

pub open spec fn spec_run_path(doc: IniDoc) -> Seq<char> {
    match global_value(doc, "Run Path"@) {
        Some(v) => trim_spec(v),
        None => "/var/lib/tierfs"@,
    }
}

pub open spec fn spec_log_file(doc: IniDoc) -> Option<Seq<char>> {
    match global_value(doc, "Log File"@) {
        Some(v) => Some(trim_spec(v)),
        None => None,
    }
}

/// The quota text of a tier section (`"80%"` when it gives none).
pub open spec fn quota_text(props: IniProps) -> Seq<char> {
    match prop_get(props, "Quota"@) {
        Some(q) => trim_spec(q),
        None => "80%"@,
    }
}

/// The tiers that a document defines, in file order: every named section
/// other than `Global` that has a `Path`, as (name, path, quota text).
pub open spec fn tier_entries(doc: IniDoc) -> Seq<(Seq<char>, Seq<char>, Seq<char>)>
    decreases doc.len(),
{
    if doc.len() == 0 {
        Seq::empty()
    } else {
        let prev = tier_entries(doc.drop_last());
        let sec = doc.last();
        match sec.0 {
            Some(name) => if name != "Global"@ {
                match prop_get(sec.1, "Path"@) {
                    Some(p) => prev.push((name, trim_spec(p), quota_text(sec.1))),
                    None => prev,
                }
            } else {
                prev
            },
            None => prev,
        }
    }
}

/// Whether `a` holds the same text as `b`.
pub fn string_eq_str(a: &String, b: &str) -> (r: bool)
    ensures
        r == (a@ == b@),
{
    let ac = str_to_chars(a.as_str());
    chars_eq_str(ac.as_slice(), b)
}

/// The first value for `key` among `props`.
fn props_get<'a>(props: &'a Vec<(String, String)>, key: &str) -> (r: Option<&'a String>)
    ensures
        match r {
            Some(v) => prop_get(props.deep_view(), key@) == Some(v@),
            None => prop_get(props.deep_view(), key@) is None,
        },
{
    let mut i: usize = 0;
    assert(props.deep_view().skip(0) == props.deep_view());
    while i < props.len()
        invariant
            i <= props@.len(),
            prop_get(props.deep_view(), key@) == prop_get(props.deep_view().skip(i as int), key@),
        decreases props.len() - i,
    {
        let ghost rest = props.deep_view().skip(i as int);
        assert(rest[0] == props.deep_view()[i as int]);
        if string_eq_str(&props[i].0, key) {
            return Some(&props[i].1);
        }
        assert(rest.drop_first() == props.deep_view().skip(i + 1));
        i = i + 1;
    }
    None
}

/// The index of the first section named `name`.
fn find_section(doc: &Vec<(Option<String>, Vec<(String, String)>)>, name: &str) -> (r: Option<usize>)
    ensures
        match r {
            Some(k) => k < doc@.len() && section_get(doc.deep_view(), Some(name@)) == Some(
                doc.deep_view()[k as int].1,
            ),
            None => section_get(doc.deep_view(), Some(name@)) is None,
        },
{
    let mut i: usize = 0;
    assert(doc.deep_view().skip(0) == doc.deep_view());
    while i < doc.len()
        invariant
            i <= doc@.len(),
            section_get(doc.deep_view(), Some(name@)) == section_get(
                doc.deep_view().skip(i as int),
                Some(name@),
            ),
        decreases doc.len() - i,
    {
        let ghost rest = doc.deep_view().skip(i as int);
        assert(rest[0] == doc.deep_view()[i as int]);
        match &doc[i].0 {
            Some(n) => {
                if string_eq_str(n, name) {
                    return Some(i);
                }
            },
            None => {},
        }
        assert(rest.drop_first() == doc.deep_view().skip(i + 1));
        i = i + 1;
    }
    None
}

/// `config` and `tiers` are what the document `doc` gives, with `overrides`.
pub open spec fn is_loaded(config: Config, tiers: Seq<TierDef>, doc: IniDoc, overrides: ConfigOverrides) -> bool {
    &&& config.log_level == spec_log_level(doc, overrides)
    &&& config.tier_period_s == spec_tier_period(doc)
    &&& (config.copy_buff_sz.number@, config.copy_buff_sz.multiplier as nat) == spec_copy_buff_sz(doc)
    &&& config.run_path@ == spec_run_path(doc)
    &&& config.log_file.deep_view() == spec_log_file(doc)
    &&& !config.strict_period
    &&& config.crawler_threads == 4
    &&& tiers_match(tiers, tier_entries(doc))
}

/// A tier as the configuration file defines it.
#[derive(Debug)]
pub struct TierDef {
    pub id: String,
    pub path: String,
    pub quota: Quota,
}

/// Each definition stands for the entry at its place: its name, its path
/// and its quota as `parse_quota` reads the quota text.
pub open spec fn tiers_match(tiers: Seq<TierDef>, entries: Seq<(Seq<char>, Seq<char>, Seq<char>)>) -> bool {
    &&& tiers.len() == entries.len()
    &&& forall|k: int|
        0 <= k < tiers.len() ==> {
            let t = #[trigger] tiers[k];
            &&& t.id@ == entries[k].0
            &&& t.path@ == entries[k].1
            &&& quota_is(t.quota, entries[k].2)
        }
}

fn trimmed_string(s: &String) -> (r: String)
    ensures
        r@ == trim_spec(s@),
{
    let chars = str_to_chars(s.as_str());
    let t = trim_chars(&chars);
    string_from_chars(t.as_slice())
}

impl Config {
    /// Reads the global settings (from the `[Global]` section) and the tier
    /// definitions (every other named section with a `Path`) from the text of
    /// a configuration file; settings that are absent or unreadable keep
    /// their defaults, and `overrides` take precedence over the file.
    pub fn load(config_text: &str, overrides: &ConfigOverrides) -> (r: Result<(Config, Vec<TierDef>), String>)
        ensures
            match r {
                Ok((config, tiers)) => match ini_document(config_text@) {
                    Ok(doc) => is_loaded(config, tiers@, doc, *overrides),
                    Err(_) => false,
                },
                Err(e) => match ini_document(config_text@) {
                    Err(m) => e@ == "Failed to parse INI config: "@ + m,
                    Ok(_) => false,
                },
            },
    {
        match ini_load_from_str(config_text) {
            Ok(d) => Ok(Self::from_document(&d, overrides)),
            Err(e) => {
                let mut msg = "Failed to parse INI config: ".to_owned();
                msg.append(e.as_str());
                Err(msg)
            },
        }
    }

    /// The settings and tier definitions of a parsed configuration document
    /// (its sections, in file order, each with its key/value pairs in file
    /// order); settings that are absent or unreadable keep their defaults,
    /// and `overrides` take precedence over the document.
    pub fn from_document(doc: &Vec<(Option<String>, Vec<(String, String)>)>, overrides: &ConfigOverrides) -> (r: (Config, Vec<TierDef>))
        ensures
            is_loaded(r.0, r.1@, doc.deep_view(), *overrides),
    {
        let ghost dv = doc.deep_view();
        let mut config = Config::default();
        match find_section(&doc, "Global") {
            Some(gi) => {
                let props = &doc[gi].1;
                assert(props.deep_view() == dv[gi as int].1);
                match props_get(props, "Log Level") {
                    Some(v) => {
                        let chars = str_to_chars(v.as_str());
                        let t = trim_chars(&chars);
                        config.log_level = if chars_eq_str(t.as_slice(), "0") {
                            LogLevel::Quiet
                        } else if chars_eq_str(t.as_slice(), "2") {
                            LogLevel::Debug
                        } else {
                            LogLevel::Normal
                        };
                    },
                    None => {},
                }
                match props_get(props, "Tier Period") {
                    Some(v) => {
                        let chars = str_to_chars(v.as_str());
                        let t = trim_chars(&chars);
                        match parse_u64(t.as_slice()) {
                            Some(secs) => {
                                config.tier_period_s = secs;
                            },
                            None => {},
                        }
                    },
                    None => {},
                }
                match props_get(props, "Copy Buffer Size") {
                    Some(v) => match parse_size(v.as_str()) {
                        Some(size) => {
                            config.copy_buff_sz = size;
                        },
                        None => {},
                    },
                    None => {},
                }
                match props_get(props, "Run Path") {
                    Some(v) => {
                        config.run_path = trimmed_string(v);
                    },
                    None => {},
                }
                match props_get(props, "Log File") {
                    Some(v) => {
                        config.log_file = Some(trimmed_string(v));
                    },
                    None => {},
                }
            },
            None => {},
        }
        match overrides.log_level_override {
            Some(level) => {
                config.log_level = level;
            },
            None => {},
        }
        let mut tiers: Vec<TierDef> = Vec::new();
        let mut i: usize = 0;
        assert(dv.subrange(0, 0) == Seq::<(Option<Seq<char>>, IniProps)>::empty());
        while i < doc.len()
            invariant
                i <= doc@.len(),
                dv == doc.deep_view(),
                tiers_match(tiers@, tier_entries(dv.subrange(0, i as int))),
            decreases doc.len() - i,
        {
            let ghost pre = dv.subrange(0, i as int);
            assert(dv.subrange(0, i + 1).drop_last() == pre);
            assert(dv.subrange(0, i + 1).last() == dv[i as int]);
            let props = &doc[i].1;
            assert(props.deep_view() == dv[i as int].1);
            match &doc[i].0 {
                Some(name) => {
                    if !string_eq_str(name, "Global") {
                        match props_get(props, "Path") {
                            Some(pv) => {
                                let path = trimmed_string(pv);
                                let qtext = match props_get(props, "Quota") {
                                    Some(q) => trimmed_string(q),
                                    None => "80%".to_owned(),
                                };
                                assert(qtext@ == quota_text(dv[i as int].1));
                                let quota = parse_quota(qtext.as_str());
                                let tier = TierDef { id: name.clone(), path, quota };
                                let ghost old_tiers = tiers@;
                                tiers.push(tier);
                                assert(tiers@ == old_tiers.push(tier));
                            },
                            None => {},
                        }
                    }
                },
                None => {},
            }
            i = i + 1;
        }
        assert(dv.subrange(0, doc@.len() as int) == dv);
        (config, tiers)
    }
}

/// The hash of a path as `String::hash` feeds it to a fresh `DefaultHasher`:
/// the UTF-8 bytes of the text, then the byte `0xff`.
pub open spec fn path_hash(path: Seq<char>) -> u64 {
    DefaultHasher::spec_finish(seq![vstd::utf8::encode_utf8(path), seq![0xffu8]])
}

/// The run directory of the daemon serving the configuration at
/// `config_path`: the configuration's `Run Path` (or `default_run_path` when
/// the file could not be read, `config_text` being `None`, or parsed), joined
/// with the decimal hash of `config_path`.
pub fn get_run_path(config_path: &str, config_text: Option<&str>, default_run_path: &str) -> (r: String)
    ensures
        r@ == join_path_spec(
            match config_text {
                Some(t) => match ini_document(t@) {
                    Ok(doc) => spec_run_path(doc),
                    Err(_) => default_run_path@,
                },
                None => default_run_path@,
            },
            nat_to_digits(path_hash(config_path@) as nat),
        ),
{
    let overrides = ConfigOverrides::default();
    let base_run_path: String = match config_text {
        Some(t) => match Config::load(t, &overrides) {
            Ok((cfg, _tiers)) => cfg.run_path,
            Err(_) => default_run_path.to_owned(),
        },
        None => default_run_path.to_owned(),
    };
    let mut hasher = DefaultHasher::new();
    hasher.write(config_path.as_bytes());
    let mut end_mark: Vec<u8> = Vec::new();
    end_mark.push(0xffu8);
    hasher.write(end_mark.as_slice());
    let hash_val = hasher.finish();
    assert(end_mark@ =~= seq![0xffu8]);
    assert(hasher@ =~= seq![vstd::utf8::encode_utf8(config_path@), seq![0xffu8]]);
    let base = str_to_chars(base_run_path.as_str());
    let digits = u64_to_chars(hash_val);
    let joined = join_path(base.as_slice(), digits.as_slice());
    string_from_chars(joined.as_slice())
}

/// A log level given on the command line wins over whatever the file says.
pub proof fn lemma_override_wins(doc: IniDoc, level: LogLevel)
    ensures
        spec_log_level(doc, ConfigOverrides { log_level_override: Some(level) }) == level,
{
}

/// A file without a `[Global]` section leaves every global setting at its
/// default.
pub proof fn lemma_defaults_without_global(doc: IniDoc)
    requires
        section_get(doc, Some("Global"@)) is None,
    ensures
        spec_log_level(doc, ConfigOverrides { log_level_override: None }) == LogLevel::Normal,
        spec_tier_period(doc) == 1000,
        spec_copy_buff_sz(doc) == ("1"@, 1024nat * 1024),
        spec_run_path(doc) == "/var/lib/tierfs"@,
        spec_log_file(doc) is None,
{
}

} // verus!
