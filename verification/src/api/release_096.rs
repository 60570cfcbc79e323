//! What the extension makes of the machine it runs on.
//!
//! Reports of the limits that were found and what follows from them, forecasts
//! of disk use, and a catalog of errors.

use vstd::prelude::*;
use vstd::string::*;

use crate::lexical;
use crate::lexical::{find_line, parse_i32, parse_u64, split_whitespace, trim};
use crate::text;
use crate::text::{i64_text, text_eq, u64_text, usize_text};

verus! {

// ── Settings ───────────────────────────────────────────────────────────

/// A setting of the server.
#[derive(Debug)]
pub struct Setting {
    pub value: String,
    /// Where the value comes from.
    pub source: String,
}

/// A setting of the server.
pub struct SettingView {
    pub value: Seq<char>,
    pub source: Seq<char>,
}

impl View for Setting {
    type V = SettingView;

    open spec fn view(&self) -> SettingView {
        SettingView { value: self.value@, source: self.source@ }
    }
}

/// Named settings.
pub open spec fn setting_views(v: Seq<(String, Setting)>) -> Seq<(Seq<char>, SettingView)> {
    Seq::new(v.len(), |i: int| (v[i].0@, v[i].1@))
}

/// The setting with a name.
pub open spec fn setting(v: Seq<(Seq<char>, SettingView)>, name: Seq<char>) -> Option<SettingView>
    decreases v.len(),
{
    if v.len() == 0 {
        None
    } else if v.last().0 == name {
        Some(v.last().1)
    } else {
        setting(v.drop_last(), name)
    }
}

/// The settings of rows.  A row that lacks its name, its value or where that
/// comes from is passed over.
pub open spec fn row_settings(
    rows: Seq<(Option<String>, Option<String>, Option<String>)>,
) -> Seq<(Seq<char>, SettingView)>
    decreases rows.len(),
{
    if rows.len() == 0 {
        Seq::empty()
    } else {
        let before = row_settings(rows.drop_last());
        match rows.last() {
            (Some(name), Some(value), Some(source)) => before.push(
                (name@, SettingView { value: value@, source: source@ }),
            ),
            _ => before,
        }
    }
}

/// The settings of rows.
pub fn settings(rows: &Vec<(Option<String>, Option<String>, Option<String>)>) -> (r: Vec<
    (String, Setting),
>)
    ensures
        setting_views(r@) == row_settings(rows@),
{
    let mut r: Vec<(String, Setting)> = Vec::new();
    let mut i: usize = 0;
    assert(setting_views(r@) =~= Seq::empty());
    while i < rows.len()
        invariant
            i <= rows.len(),
            setting_views(r@) == row_settings(rows@.take(i as int)),
        decreases rows.len() - i,
    {
        assert(rows@.take(i + 1).drop_last() =~= rows@.take(i as int));
        assert(rows@.take(i + 1).last() == rows@[i as int]);
        let ghost before = r@;
        match &rows[i] {
            (Some(name), Some(value), Some(source)) => {
                r.push(
                    (name.clone(), Setting { value: value.clone(), source: source.clone() }),
                );
                assert(setting_views(r@) =~= setting_views(before).push(
                    (name@, SettingView { value: value@, source: source@ }),
                ));
            },
            _ => {},
        }
        i += 1;
    }
    assert(rows@.take(i as int) =~= rows@);
    r
}

/// The setting with a name.
fn find_setting<'a>(v: &'a Vec<(String, Setting)>, name: &str) -> (r: Option<&'a Setting>)
    ensures
        match r {
            Some(s) => setting(setting_views(v@), name@) == Some(s@),
            None => setting(setting_views(v@), name@) is None,
        },
{
    let ghost all = setting_views(v@);
    let mut i: usize = v.len();
    assert(all.take(i as int) =~= all);
    while i > 0
        invariant
            i <= v.len(),
            all == setting_views(v@),
            setting(all, name@) == setting(all.take(i as int), name@),
        decreases i,
    {
        assert(all.take(i as int).drop_last() =~= all.take(i - 1));
        assert(all.take(i as int).last() == all[i - 1]);
        if text_eq(v[i - 1].0.as_str(), name) {
            return Some(&v[i - 1].1);
        }
        i -= 1;
    }
    None
}

// ── Memory ─────────────────────────────────────────────────────────────

/// The limit that the text of a control group file gives, if it gives one.
pub open spec fn cgroup_limit(content: Seq<char>) -> Option<u64> {
    let value = lexical::trimmed(content);
    if value == "max"@ {
        None
    } else {
        match lexical::parsed_u64(value) {
            Some(n) => if n > 0 {
                Some(n)
            } else {
                None
            },
            None => None,
        }
    }
}

/// The first limit that some files give.
pub open spec fn first_limit(files: Seq<Option<String>>) -> Option<u64>
    decreases files.len(),
{
    if files.len() == 0 {
        None
    } else {
        match files.first() {
            Some(t) => match cgroup_limit(t@) {
                Some(n) => Some(n),
                None => first_limit(files.drop_first()),
            },
            None => first_limit(files.drop_first()),
        }
    }
}

/// The memory that the memory report of the system gives, in bytes.
pub open spec fn total_memory(report: Seq<char>) -> Option<u64> {
    match lexical::line_with(report, "MemTotal:"@) {
        Some(line) => {
            let words = lexical::words(line);
            if words.len() > 1 {
                match lexical::parsed_u64(words[1]) {
                    Some(kb) => Some(
                        if kb * 1024 <= u64::MAX {
                            (kb * 1024) as u64
                        } else {
                            u64::MAX
                        },
                    ),
                    None => None,
                }
            } else {
                None
            }
        },
        None => None,
    }
}

/// The memory that can be used: the first limit of a control group, or else
/// that of the system.
pub open spec fn visible_memory(files: Seq<Option<String>>, report: Option<String>) -> Option<u64> {
    match first_limit(files) {
        Some(n) => Some(n),
        None => match report {
            Some(t) => total_memory(t@),
            None => None,
        },
    }
}

/// The limit that the text of a control group file gives.
fn parse_limit(content: &str) -> (r: Option<u64>)
    ensures
        r == cgroup_limit(content@),
{
    let value = trim(content);
    if text_eq(value.as_str(), "max") {
        return None;
    }
    match parse_u64(value.as_str()) {
        Some(n) => if n > 0 {
            Some(n)
        } else {
            None
        },
        None => None,
    }
}

/// The memory that the memory report of the system gives, in bytes.
fn parse_total(report: &str) -> (r: Option<u64>)
    ensures
        r == total_memory(report@),
{
    match find_line(report, "MemTotal:") {
        Some(line) => {
            let words = split_whitespace(&line);
            if words.len() > 1 {
                assert(text::texts(words@)[1] == words@[1]@);
                match parse_u64(words[1].as_str()) {
                    Some(kb) => match kb.checked_mul(1024) {
                        Some(n) => Some(n),
                        None => Some(u64::MAX),
                    },
                    None => None,
                }
            } else {
                None
            }
        },
        None => None,
    }
}

/// The memory that can be used, from the control group files and the memory
/// report, each where it could be read.
pub fn visible_memory_bytes(cgroup_files: &Vec<Option<String>>, meminfo: &Option<String>) -> (r:
    Option<u64>)
    ensures
        r == visible_memory(cgroup_files@, *meminfo),
{
    let mut i: usize = 0;
    assert(cgroup_files@.skip(0) =~= cgroup_files@);
    while i < cgroup_files.len()
        invariant
            i <= cgroup_files.len(),
            first_limit(cgroup_files@) == first_limit(cgroup_files@.skip(i as int)),
        decreases cgroup_files.len() - i,
    {
        assert(cgroup_files@.skip(i as int).drop_first() =~= cgroup_files@.skip(i + 1));
        assert(cgroup_files@.skip(i as int).first() == cgroup_files@[i as int]);
        match &cgroup_files[i] {
            Some(content) => match parse_limit(content.as_str()) {
                Some(n) => {
                    return Some(n);
                },
                None => {},
            },
            None => {},
        }
        i += 1;
    }
    match meminfo {
        Some(report) => parse_total(report.as_str()),
        None => None,
    }
}

/// Bytes in units of 2^20.
pub open spec fn mebibytes(bytes: Option<u64>) -> Option<u64> {
    match bytes {
        Some(n) => Some(n / 1048576),
        None => None,
    }
}

/// Bytes in units of 2^20.
pub fn memory_mb(bytes: Option<u64>) -> (r: Option<u64>)
    ensures
        r == mebibytes(bytes),
{
    match bytes {
        Some(n) => Some(n / 1048576),
        None => None,
    }
}

// ── Workers ────────────────────────────────────────────────────────────

/// The number of processors, one where it is not known.
pub open spec fn processors(parallelism: Option<usize>) -> i32 {
    match parallelism {
        Some(n) => n as i32,
        None => 1,
    }
}

/// A number brought between two others.
pub open spec fn clamped(n: int, low: int, high: int) -> int {
    if n < low {
        low
    } else if n > high {
        high
    } else {
        n
    }
}

/// The number of workers: no more than there are processors or the server
/// allows, and between 1 and 32.
pub open spec fn worker_count(max_worker_processes: Option<i32>, cpu: i32) -> i32 {
    let allowed = match max_worker_processes {
        Some(n) => n,
        None => cpu,
    };
    let postgres = if allowed < 1 {
        1
    } else {
        allowed
    };
    clamped(
        if cpu < postgres {
            cpu as int
        } else {
            postgres as int
        },
        1,
        32,
    ) as i32
}

/// The number of workers.
pub fn auto_workers(max_worker_processes: Option<i32>, cpu: i32) -> (r: i32)
    ensures
        r == worker_count(max_worker_processes, cpu),
        1 <= r <= 32,
{
    let allowed: i32 = match max_worker_processes {
        Some(n) => n,
        None => cpu,
    };
    let postgres: i32 = if allowed < 1 {
        1
    } else {
        allowed
    };
    let least: i32 = if cpu < postgres {
        cpu
    } else {
        postgres
    };
    if least < 1 {
        1
    } else if least > 32 {
        32
    } else {
        least
    }
}

// ── Profile ────────────────────────────────────────────────────────────

/// A limit that was found and what follows from it.
#[derive(Debug)]
pub struct ProfileRow {
    pub constraint_name: String,
    pub detected_value: Option<String>,
    pub source: String,
    pub selected_value: String,
    /// Whether the setting was changed from its default.
    pub overridden: bool,
    /// Whether the limit could be found.
    pub available: bool,
    pub detail: String,
}

/// A limit that was found and what follows from it.
pub struct ProfileView {
    pub constraint_name: Seq<char>,
    pub detected_value: Option<Seq<char>>,
    pub source: Seq<char>,
    pub selected_value: Seq<char>,
    pub overridden: bool,
    pub available: bool,
    pub detail: Seq<char>,
}

impl View for ProfileRow {
    type V = ProfileView;

    open spec fn view(&self) -> ProfileView {
        ProfileView {
            constraint_name: self.constraint_name@,
            detected_value: text::opt_text(self.detected_value),
            source: self.source@,
            selected_value: self.selected_value@,
            overridden: self.overridden,
            available: self.available,
            detail: self.detail@,
        }
    }
}

/// The rows of a profile.
pub open spec fn profile_views(rows: Seq<ProfileRow>) -> Seq<ProfileView> {
    Seq::new(rows.len(), |i: int| rows[i]@)
}

/// The value of a setting.
pub open spec fn value_of(s: Option<SettingView>) -> Option<Seq<char>> {
    match s {
        Some(v) => Some(v.value),
        None => None,
    }
}

/// The value of a setting, or `unknown`.
pub open spec fn value_or_unknown(s: Option<SettingView>) -> Seq<char> {
    match s {
        Some(v) => v.value,
        None => "unknown"@,
    }
}

/// Where a setting comes from, `default` where it is not known.
pub open spec fn source_of(s: Option<SettingView>) -> Seq<char> {
    match s {
        Some(v) => v.source,
        None => "default"@,
    }
}

/// Whether a setting was changed from its default.
pub open spec fn overridden(s: Option<SettingView>) -> bool {
    match s {
        Some(v) => v.source != "default"@,
        None => false,
    }
}

/// The number that a setting holds, or another where it holds none.
pub open spec fn u64_of(s: Option<SettingView>, default: u64) -> u64 {
    match s {
        Some(v) => match lexical::parsed_u64(v.value) {
            Some(n) => n,
            None => default,
        },
        None => default,
    }
}

/// The number that a setting holds, if it holds one.
pub open spec fn i32_of(s: Option<SettingView>) -> Option<i32> {
    match s {
        Some(v) => lexical::parsed_i32(v.value),
        None => None,
    }
}

/// The memory budget: a tenth of the memory that can be used, between 16 and
/// 1048576 MiB, or the configured budget where the memory is not known.
pub open spec fn budget(host_memory: Option<u64>, configured: u64) -> u64 {
    match mebibytes(host_memory) {
        Some(mb) => clamped(mb as int / 10, 16, 1_048_576) as u64,
        None => configured,
    }
}

/// What follows from the memory that can be used.
pub open spec fn host_memory_row(memory: Option<SettingView>, host_memory: Option<u64>) -> ProfileView {
    ProfileView {
        constraint_name: "host_memory"@,
        detected_value: match mebibytes(host_memory) {
            Some(mb) => Some(text::decimal(mb as nat) + " MiB"@),
            None => None,
        },
        source: "cgroup/procfs"@,
        selected_value: text::decimal(budget(host_memory, u64_of(memory, 256)) as nat)
            + " MiB budget"@,
        overridden: overridden(memory),
        available: host_memory is Some,
        detail: "The selected extension memory budget is capped at 10% of visible memory unless the GUC is overridden."@,
    }
}

/// What follows from the worker limit of the server.
pub open spec fn worker_row(workers: Option<SettingView>, count: Seq<char>) -> ProfileView {
    ProfileView {
        constraint_name: "max_worker_processes"@,
        detected_value: match i32_of(workers) {
            Some(n) => Some(text::decimal_int(n as int)),
            None => None,
        },
        source: "pg_settings"@,
        selected_value: count,
        overridden: overridden(workers),
        available: i32_of(workers) is Some,
        detail: "Worker admission is throttled; PostgreSQL's global worker limit remains authoritative."@,
    }
}

/// What follows from the number of processors.
pub open spec fn cpu_row(
    refreshes: Option<SettingView>,
    parallelism: Option<usize>,
    count: Seq<char>,
) -> ProfileView {
    ProfileView {
        constraint_name: "cpu_parallelism"@,
        detected_value: match parallelism {
            Some(n) => Some(text::decimal(n as nat)),
            None => None,
        },
        source: "host"@,
        selected_value: count,
        overridden: overridden(refreshes),
        available: parallelism is Some,
        detail: "CPU is used as an admission hint; committed changes are never discarded."@,
    }
}

/// A setting of the server that is reported as it is.
pub open spec fn plain_row(
    name: Seq<char>,
    s: Option<SettingView>,
    detail: Seq<char>,
) -> ProfileView {
    ProfileView {
        constraint_name: name,
        detected_value: value_of(s),
        source: "pg_settings"@,
        selected_value: value_or_unknown(s),
        overridden: overridden(s),
        available: s is Some,
        detail,
    }
}

/// A setting of the extension and what takes its place.
pub open spec fn own_row(
    name: Seq<char>,
    s: Option<SettingView>,
    configured: Seq<char>,
    selected: Seq<char>,
    detail: Seq<char>,
) -> ProfileView {
    ProfileView {
        constraint_name: name,
        detected_value: Some(configured),
        source: source_of(s),
        selected_value: selected,
        overridden: overridden(s),
        available: true,
        detail,
    }
}

/// The limits that were found and what follows from them.
pub open spec fn profile(
    settings: Seq<(Seq<char>, SettingView)>,
    host_memory: Option<u64>,
    parallelism: Option<usize>,
) -> Seq<ProfileView> {
    let workers = setting(settings, "max_worker_processes"@);
    let connections = setting(settings, "max_connections"@);
    let buffers = setting(settings, "shared_buffers"@);
    let memory = setting(settings, "pg_trickle.memory_budget_mb"@);
    let refreshes = setting(settings, "pg_trickle.max_concurrent_refreshes"@);
    let configured_budget = u64_of(memory, 256);
    let configured_workers = match i32_of(refreshes) {
        Some(n) => n,
        None => 4i32,
    };
    let count = text::decimal_int(worker_count(i32_of(workers), processors(parallelism)) as int);
    seq![
        host_memory_row(memory, host_memory),
        worker_row(workers, count),
        cpu_row(refreshes, parallelism, count),
        plain_row(
            "max_connections"@,
            connections,
            "Connection pressure is forecast from PostgreSQL's configured limit."@,
        ),
        plain_row(
            "shared_buffers"@,
            buffers,
            "Shared buffers are evidence only; PostgreSQL owns their enforcement."@,
        ),
        own_row(
            "pg_trickle_memory_budget_mb"@,
            memory,
            text::decimal(configured_budget as nat),
            text::decimal(budget(host_memory, configured_budget) as nat),
            "Hard bound for extension-managed in-process state; storage growth is reported separately."@,
        ),
        own_row(
            "pg_trickle_max_concurrent_refreshes"@,
            refreshes,
            text::decimal_int(configured_workers as int),
            count,
            "Throttled admission limit for per-database refresh concurrency."@,
        ),
    ]
}

/// The view of a setting that was looked up.
pub open spec fn found(s: Option<&Setting>) -> Option<SettingView> {
    match s {
        Some(v) => Some(v@),
        None => None,
    }
}

/// The value of a setting.
fn build_value(s: Option<&Setting>) -> (r: Option<String>)
    ensures
        text::opt_text(r) == value_of(found(s)),
{
    match s {
        Some(v) => Some(v.value.clone()),
        None => None,
    }
}

/// The value of a setting, or `unknown`.
fn build_value_or_unknown(s: Option<&Setting>) -> (r: String)
    ensures
        r@ == value_or_unknown(found(s)),
{
    match s {
        Some(v) => v.value.clone(),
        None => "unknown".to_string(),
    }
}

/// Where a setting comes from.
fn build_source(s: Option<&Setting>) -> (r: String)
    ensures
        r@ == source_of(found(s)),
{
    match s {
        Some(v) => v.source.clone(),
        None => "default".to_string(),
    }
}

/// Whether a setting was changed from its default.
fn is_overridden(s: Option<&Setting>) -> (r: bool)
    ensures
        r == overridden(found(s)),
{
    match s {
        Some(v) => !text_eq(v.source.as_str(), "default"),
        None => false,
    }
}

/// The number that a setting holds, or another where it holds none.
fn read_u64(s: Option<&Setting>, default: u64) -> (r: u64)
    ensures
        r == u64_of(found(s), default),
{
    match s {
        Some(v) => match parse_u64(v.value.as_str()) {
            Some(n) => n,
            None => default,
        },
        None => default,
    }
}

/// The number that a setting holds, if it holds one.
fn read_i32(s: Option<&Setting>) -> (r: Option<i32>)
    ensures
        r == i32_of(found(s)),
{
    match s {
        Some(v) => parse_i32(v.value.as_str()),
        None => None,
    }
}

/// The memory budget.
fn auto_budget_mb(host_memory: Option<u64>, configured: u64) -> (r: u64)
    ensures
        r == budget(host_memory, configured),
{
    match memory_mb(host_memory) {
        Some(mb) => {
            let tenth: u64 = mb / 10;
            if tenth < 16 {
                16
            } else if tenth > 1_048_576 {
                1_048_576
            } else {
                tenth
            }
        },
        None => configured,
    }
}

/// A number with a unit.
fn with_unit(n: u64, unit: &str) -> (r: String)
    ensures
        r@ == text::decimal(n as nat) + unit@,
{
    let mut r = u64_text(n);
    r.append(unit);
    r
}

/// What follows from the memory that can be used.
fn build_host_memory_row(memory: Option<&Setting>, host_memory: Option<u64>) -> (r: ProfileRow)
    ensures
        r@ == host_memory_row(found(memory), host_memory),
{
    let auto_budget: u64 = auto_budget_mb(host_memory, read_u64(memory, 256));
    ProfileRow {
        constraint_name: "host_memory".to_string(),
        detected_value: match memory_mb(host_memory) {
            Some(mb) => Some(with_unit(mb, " MiB")),
            None => None,
        },
        source: "cgroup/procfs".to_string(),
        selected_value: with_unit(auto_budget, " MiB budget"),
        overridden: is_overridden(memory),
        available: host_memory.is_some(),
        detail: "The selected extension memory budget is capped at 10% of visible memory unless the GUC is overridden.".to_string(),
    }
}

/// What follows from the worker limit of the server.
fn build_worker_row(workers: Option<&Setting>, count: &str) -> (r: ProfileRow)
    ensures
        r@ == worker_row(found(workers), count@),
{
    let max_workers = read_i32(workers);
    ProfileRow {
        constraint_name: "max_worker_processes".to_string(),
        detected_value: match max_workers {
            Some(n) => Some(i64_text(n as i64)),
            None => None,
        },
        source: "pg_settings".to_string(),
        selected_value: count.to_string(),
        overridden: is_overridden(workers),
        available: max_workers.is_some(),
        detail: "Worker admission is throttled; PostgreSQL's global worker limit remains authoritative.".to_string(),
    }
}

/// What follows from the number of processors.
fn build_cpu_row(refreshes: Option<&Setting>, parallelism: Option<usize>, count: &str) -> (r:
    ProfileRow)
    ensures
        r@ == cpu_row(found(refreshes), parallelism, count@),
{
    ProfileRow {
        constraint_name: "cpu_parallelism".to_string(),
        detected_value: match parallelism {
            Some(n) => Some(usize_text(n)),
            None => None,
        },
        source: "host".to_string(),
        selected_value: count.to_string(),
        overridden: is_overridden(refreshes),
        available: parallelism.is_some(),
        detail: "CPU is used as an admission hint; committed changes are never discarded.".to_string(),
    }
}

/// A setting of the server that is reported as it is.
fn build_plain_row(name: &str, s: Option<&Setting>, detail: &str) -> (r: ProfileRow)
    ensures
        r@ == plain_row(name@, found(s), detail@),
{
    ProfileRow {
        constraint_name: name.to_string(),
        detected_value: build_value(s),
        source: "pg_settings".to_string(),
        selected_value: build_value_or_unknown(s),
        overridden: is_overridden(s),
        available: s.is_some(),
        detail: detail.to_string(),
    }
}

/// A setting of the extension and what takes its place.
fn build_own_row(
    name: &str,
    s: Option<&Setting>,
    configured: String,
    selected: String,
    detail: &str,
) -> (r: ProfileRow)
    ensures
        r@ == own_row(name@, found(s), configured@, selected@, detail@),
{
    ProfileRow {
        constraint_name: name.to_string(),
        detected_value: Some(configured),
        source: build_source(s),
        selected_value: selected,
        overridden: is_overridden(s),
        available: true,
        detail: detail.to_string(),
    }
}

/// Adds a row to a profile.
fn push_row(rows: &mut Vec<ProfileRow>, row: ProfileRow)
    ensures
        profile_views(final(rows)@) == profile_views(old(rows)@).push(row@),
{
    let ghost before = rows@;
    let ghost added = row@;
    rows.push(row);
    assert(profile_views(rows@) =~= profile_views(before).push(added));
}

/// The limits that were found and what follows from them.
///
/// They come from the settings of the server, the memory that can be used and
/// the number of processors, each where it is known.
pub fn active_profile(
    current: &Vec<(String, Setting)>,
    host_memory: Option<u64>,
    parallelism: Option<usize>,
) -> (r: Vec<ProfileRow>)
    ensures
        profile_views(r@) == profile(setting_views(current@), host_memory, parallelism),
{
    let workers = find_setting(current, "max_worker_processes");
    let connections = find_setting(current, "max_connections");
    let buffers = find_setting(current, "shared_buffers");
    let memory = find_setting(current, "pg_trickle.memory_budget_mb");
    let refreshes = find_setting(current, "pg_trickle.max_concurrent_refreshes");
    let configured_budget: u64 = read_u64(memory, 256);
    let auto_budget: u64 = auto_budget_mb(host_memory, configured_budget);
    let configured_workers: i32 = match read_i32(refreshes) {
        Some(n) => n,
        None => 4,
    };
    let cpu: i32 = match parallelism {
        Some(n) => #[verifier::truncate] (n as i32),
        None => 1,
    };
    let count = i64_text(auto_workers(read_i32(workers), cpu) as i64);

    let mut rows: Vec<ProfileRow> = Vec::new();
    push_row(&mut rows, build_host_memory_row(memory, host_memory));
    push_row(&mut rows, build_worker_row(workers, count.as_str()));
    push_row(&mut rows, build_cpu_row(refreshes, parallelism, count.as_str()));
    push_row(
        &mut rows,
        build_plain_row(
            "max_connections",
            connections,
            "Connection pressure is forecast from PostgreSQL's configured limit.",
        ),
    );
    push_row(
        &mut rows,
        build_plain_row(
            "shared_buffers",
            buffers,
            "Shared buffers are evidence only; PostgreSQL owns their enforcement.",
        ),
    );
    push_row(
        &mut rows,
        build_own_row(
            "pg_trickle_memory_budget_mb",
            memory,
            u64_text(configured_budget),
            u64_text(auto_budget),
            "Hard bound for extension-managed in-process state; storage growth is reported separately.",
        ),
    );
    push_row(
        &mut rows,
        build_own_row(
            "pg_trickle_max_concurrent_refreshes",
            refreshes,
            i64_text(configured_workers as i64),
            count,
            "Throttled admission limit for per-database refresh concurrency.",
        ),
    );
    assert(profile_views(rows@) =~= profile(setting_views(current@), host_memory, parallelism));
    rows
}

// ── Disk use ───────────────────────────────────────────────────────────

/// The disk use of a stream table.
#[derive(Debug)]
pub struct DiskUsageRow {
    pub stream_table: String,
    pub relation_bytes: i64,
    pub change_buffer_bytes: i64,
    pub projected_bytes: i64,
    pub headroom_bytes: i64,
    pub pressure_state: String,
}

/// The disk use of a stream table.
pub struct DiskUsageView {
    pub stream_table: Seq<char>,
    pub relation_bytes: i64,
    pub change_buffer_bytes: i64,
    pub projected_bytes: i64,
    pub headroom_bytes: i64,
    pub pressure_state: Seq<char>,
}

impl View for DiskUsageRow {
    type V = DiskUsageView;

    open spec fn view(&self) -> DiskUsageView {
        DiskUsageView {
            stream_table: self.stream_table@,
            relation_bytes: self.relation_bytes,
            change_buffer_bytes: self.change_buffer_bytes,
            projected_bytes: self.projected_bytes,
            headroom_bytes: self.headroom_bytes,
            pressure_state: self.pressure_state@,
        }
    }
}

/// The views of disk use.
pub open spec fn usage_views(rows: Seq<DiskUsageRow>) -> Seq<DiskUsageView> {
    Seq::new(rows.len(), |i: int| rows[i]@)
}

/// A size: none and negative ones count as zero.
pub open spec fn size(bytes: Option<i64>) -> i64 {
    match bytes {
        Some(n) => if n < 0 {
            0
        } else {
            n
        },
        None => 0,
    }
}

/// A number brought into 64 bits.
pub open spec fn saturated(n: int) -> i64 {
    clamped(n, i64::MIN as int, i64::MAX as int) as i64
}

/// The size that a stream table may take: that of its table and of the change
/// buffers of its sources.
pub open spec fn projected(relation: Option<i64>, buffers: Option<i64>) -> i64 {
    saturated(size(relation) + size(buffers))
}

/// How close a size is to the headroom.
pub open spec fn pressure(projected: i64, headroom: i64) -> Seq<char> {
    if headroom == 0 {
        "DISABLED"@
    } else if projected >= headroom {
        "OVER_HEADROOM"@
    } else if saturated(projected * 100) >= saturated(headroom * 80) {
        "WARN"@
    } else {
        "OK"@
    }
}

/// The disk use that rows tell of.  A row without a stream table is passed
/// over.
pub open spec fn usage(
    rows: Seq<(Option<String>, Option<i64>, Option<i64>)>,
    headroom: i64,
) -> Seq<DiskUsageView>
    decreases rows.len(),
{
    if rows.len() == 0 {
        Seq::empty()
    } else {
        let before = usage(rows.drop_last(), headroom);
        let (table, relation, buffers) = rows.last();
        let total = projected(relation, buffers);
        match table {
            Some(name) => before.push(
                DiskUsageView {
                    stream_table: name@,
                    relation_bytes: size(relation),
                    change_buffer_bytes: size(buffers),
                    projected_bytes: total,
                    headroom_bytes: if headroom > total {
                        (headroom - total) as i64
                    } else {
                        0
                    },
                    pressure_state: pressure(total, headroom),
                },
            ),
            None => before,
        }
    }
}

/// A size: none and negative ones count as zero.
fn size_of(bytes: Option<i64>) -> (r: i64)
    ensures
        r == size(bytes),
        r >= 0,
{
    match bytes {
        Some(n) => if n < 0 {
            0
        } else {
            n
        },
        None => 0,
    }
}

/// How close a size is to the headroom.
fn pressure_of(total: i64, headroom: i64) -> (r: &'static str)
    requires
        total >= 0,
    ensures
        r@ == pressure(total, headroom),
{
    if headroom == 0 {
        "DISABLED"
    } else if total >= headroom {
        "OVER_HEADROOM"
    } else {
        let used: i128 = total as i128 * 100;
        let limit: i128 = headroom as i128 * 80;
        let most: i128 = i64::MAX as i128;
        let used_kept: i128 = if used > most {
            most
        } else {
            used
        };
        let limit_kept: i128 = if limit > most {
            most
        } else {
            limit
        };
        if used_kept >= limit_kept {
            "WARN"
        } else {
            "OK"
        }
    }
}

/// The disk use of stream tables and how close it is to the headroom.
///
/// A forecast tells what may come; nothing is refused on account of it.  A
/// headroom below zero is not provided for where a size takes the difference
/// out of range.
pub fn disk_usage(rows: &Vec<(Option<String>, Option<i64>, Option<i64>)>, headroom: i64) -> (r: Vec<
    DiskUsageRow,
>)
    requires
        forall|i: int|
            0 <= i < rows@.len() && (#[trigger] rows@[i]).0 is Some ==> headroom - projected(
                rows@[i].1,
                rows@[i].2,
            ) >= i64::MIN,
    ensures
        usage_views(r@) == usage(rows@, headroom),
{
    let mut r: Vec<DiskUsageRow> = Vec::new();
    let mut i: usize = 0;
    assert(usage_views(r@) =~= Seq::empty());
    while i < rows.len()
        invariant
            i <= rows.len(),
            forall|k: int|
                0 <= k < rows@.len() && (#[trigger] rows@[k]).0 is Some ==> headroom - projected(
                    rows@[k].1,
                    rows@[k].2,
                ) >= i64::MIN,
            usage_views(r@) == usage(rows@.take(i as int), headroom),
        decreases rows.len() - i,
    {
        assert(rows@.take(i + 1).drop_last() =~= rows@.take(i as int));
        assert(rows@.take(i + 1).last() == rows@[i as int]);
        let ghost before = r@;
        match &rows[i].0 {
            Some(name) => {
                let relation_bytes: i64 = size_of(rows[i].1);
                let change_buffer_bytes: i64 = size_of(rows[i].2);
                let total: i64 = if change_buffer_bytes > i64::MAX - relation_bytes {
                    i64::MAX
                } else {
                    relation_bytes + change_buffer_bytes
                };
                let left: i64 = headroom - total;
                let row = DiskUsageRow {
                    stream_table: name.clone(),
                    relation_bytes,
                    change_buffer_bytes,
                    projected_bytes: total,
                    headroom_bytes: if left < 0 {
                        0
                    } else {
                        left
                    },
                    pressure_state: pressure_of(total, headroom).to_string(),
                };
                let ghost added = row@;
                r.push(row);
                assert(usage_views(r@) =~= usage_views(before).push(added));
            },
            None => {},
        }
        i += 1;
    }
    assert(rows@.take(i as int) =~= rows@);
    r
}

/// A stream table is over its headroom if and only if it has none left, while
/// forecasts are made.
pub proof fn over_means_nothing_left(total: i64, headroom: i64)
    requires
        headroom > 0,
    ensures
        pressure(total, headroom) == "OVER_HEADROOM"@ <==> total >= headroom,
{
    reveal_strlit("OVER_HEADROOM");
    reveal_strlit("WARN");
    reveal_strlit("OK");
    assert("OVER_HEADROOM"@.len() == 13 && "WARN"@.len() == 4 && "OK"@.len() == 2);
}

/// The forecast of disk use.
pub open spec fn forecast_text(projected: Seq<char>, headroom: Seq<char>) -> Seq<char> {
    "maximum projected stream-table footprint="@ + projected + " bytes; configured headroom="@
        + headroom + " bytes; enforcement=FORECAST_AND_REACT"@
}

/// The forecast of disk use.
fn build_forecast(projected: &str, headroom: &str) -> (r: String)
    ensures
        r@ == forecast_text(projected@, headroom@),
{
    let mut r = "maximum projected stream-table footprint=".to_string();
    r.append(projected);
    r.append(" bytes; configured headroom=");
    r.append(headroom);
    r.append(" bytes; enforcement=FORECAST_AND_REACT");
    r
}

/// A check, how it came out, and details.
pub open spec fn health_view(row: (String, String, String)) -> (Seq<char>, Seq<char>, Seq<char>) {
    (row.0@, row.1@, row.2@)
}

/// The forecast of disk use as a health check, given the largest size that a
/// stream table may take.
pub fn disk_health_rows(headroom: i64, max_projected: Option<i64>) -> (r: Vec<
    (String, String, String),
>)
    ensures
        r@.len() == 1,
        health_view(r@[0]) == if headroom == 0 {
            (
                "disk_forecast"@,
                "OK"@,
                "Disk forecast is disabled by pg_trickle.disk_headroom_mb = 0."@,
            )
        } else {
            (
                "disk_forecast"@,
                if size(max_projected) >= headroom {
                    "WARN"@
                } else {
                    "OK"@
                },
                forecast_text(
                    text::decimal_int(size(max_projected) as int),
                    text::decimal_int(headroom as int),
                ),
            )
        },
{
    let mut r: Vec<(String, String, String)> = Vec::new();
    if headroom == 0 {
        r.push(
            (
                "disk_forecast".to_string(),
                "OK".to_string(),
                "Disk forecast is disabled by pg_trickle.disk_headroom_mb = 0.".to_string(),
            ),
        );
        return r;
    }
    let most: i64 = size_of(max_projected);
    let severity = if most >= headroom {
        "WARN"
    } else {
        "OK"
    };
    r.push(
        (
            "disk_forecast".to_string(),
            severity.to_string(),
            build_forecast(i64_text(most).as_str(), i64_text(headroom).as_str()),
        ),
    );
    r
}

// ── Errors ─────────────────────────────────────────────────────────────

/// An error that operations may end with.
#[derive(Debug)]
pub struct ErrorCatalogRow {
    pub error_id: String,
    pub sqlstate: String,
    pub detail: String,
    pub hint: String,
}

/// The texts of an entry: id, state, detail and hint.
pub open spec fn entry_view(row: ErrorCatalogRow) -> (Seq<char>, Seq<char>, Seq<char>, Seq<char>) {
    (row.error_id@, row.sqlstate@, row.detail@, row.hint@)
}

/// The texts of entries.
pub open spec fn entry_views(rows: Seq<ErrorCatalogRow>) -> Seq<
    (Seq<char>, Seq<char>, Seq<char>, Seq<char>),
> {
    Seq::new(rows.len(), |i: int| entry_view(rows[i]))
}

/// The errors that operations may end with.
pub open spec fn catalog_entries() -> Seq<(Seq<char>, Seq<char>, Seq<char>, Seq<char>)> {
    seq![
        (
            "LOCK_TIMEOUT"@,
            "55P03"@,
            "A refresh could not acquire its required lock before the deadline."@,
            "Retry after the competing transaction finishes or increase lock_timeout."@,
        ),
        (
            "STATEMENT_TIMEOUT"@,
            "57014"@,
            "A refresh exceeded its transaction-local statement deadline."@,
            "Reduce the refresh scope or raise statement_timeout for the operation."@,
        ),
        (
            "DEADLOCK"@,
            "40P01"@,
            "PostgreSQL aborted the refresh because it detected a deadlock."@,
            "Retry the operation and inspect concurrent lock ordering."@,
        ),
        (
            "SERIALIZATION"@,
            "40001"@,
            "PostgreSQL aborted the refresh to preserve serializable correctness."@,
            "Retry the operation; committed changes are retained."@,
        ),
        (
            "OUT_OF_MEMORY"@,
            "53200"@,
            "The refresh exceeded available PostgreSQL memory."@,
            "Lower the pg_trickle memory budget or reduce the refresh workload."@,
        ),
        (
            "PERMANENT"@,
            "XX000"@,
            "The refresh failed for a non-retryable operational condition."@,
            "Inspect the stream-table error detail and apply its remediation."@,
        ),
    ]
}

/// Adds an entry to the catalog.
fn push_entry(
    rows: &mut Vec<ErrorCatalogRow>,
    error_id: &str,
    sqlstate: &str,
    detail: &str,
    hint: &str,
)
    ensures
        entry_views(final(rows)@) == entry_views(old(rows)@).push(
            (error_id@, sqlstate@, detail@, hint@),
        ),
{
    let ghost before = rows@;
    rows.push(
        ErrorCatalogRow {
            error_id: error_id.to_string(),
            sqlstate: sqlstate.to_string(),
            detail: detail.to_string(),
            hint: hint.to_string(),
        },
    );
    assert(entry_views(rows@) =~= entry_views(before).push(
        (error_id@, sqlstate@, detail@, hint@),
    ));
}

/// The errors that operations may end with, and the states of the server that
/// go with them.
pub fn error_catalog() -> (r: Vec<ErrorCatalogRow>)
    ensures
        entry_views(r@) == catalog_entries(),
{
    let mut r: Vec<ErrorCatalogRow> = Vec::new();
    push_entry(
        &mut r,
        "LOCK_TIMEOUT",
        "55P03",
        "A refresh could not acquire its required lock before the deadline.",
        "Retry after the competing transaction finishes or increase lock_timeout.",
    );
    push_entry(
        &mut r,
        "STATEMENT_TIMEOUT",
        "57014",
        "A refresh exceeded its transaction-local statement deadline.",
        "Reduce the refresh scope or raise statement_timeout for the operation.",
    );
    push_entry(
        &mut r,
        "DEADLOCK",
        "40P01",
        "PostgreSQL aborted the refresh because it detected a deadlock.",
        "Retry the operation and inspect concurrent lock ordering.",
    );
    push_entry(
        &mut r,
        "SERIALIZATION",
        "40001",
        "PostgreSQL aborted the refresh to preserve serializable correctness.",
        "Retry the operation; committed changes are retained.",
    );
    push_entry(
        &mut r,
        "OUT_OF_MEMORY",
        "53200",
        "The refresh exceeded available PostgreSQL memory.",
        "Lower the pg_trickle memory budget or reduce the refresh workload.",
    );
    push_entry(
        &mut r,
        "PERMANENT",
        "XX000",
        "The refresh failed for a non-retryable operational condition.",
        "Inspect the stream-table error detail and apply its remediation.",
    );
    assert(entry_views(r@) =~= catalog_entries());
    r
}

// ── What the texts say ─────────────────────────────────────────────────

/// The forecast tells the largest size that is expected, and the headroom.
pub proof fn the_forecast_tells_size_and_headroom(
    projected: Seq<char>,
    headroom: Seq<char>,
)
    ensures
        ({
            let t = forecast_text(projected, headroom);
            &&& text::occurs(
                t,
                "footprint="@ + projected + " bytes; configured headroom="@ + headroom + " bytes"@,
            )
        }),
{
    reveal_strlit(" bytes");
    reveal_strlit("footprint=");
    reveal_strlit(" bytes; configured headroom=");
    reveal_strlit(" bytes; enforcement=FORECAST_AND_REACT");
    reveal_strlit("maximum projected stream-table footprint=");
    let t = forecast_text(projected, headroom);
    let f0 = "footprint="@ + projected + " bytes; configured headroom="@ + headroom + " bytes"@;
    let k0 = 31int;
    assert(t.subrange(k0, k0 + f0.len()) =~= f0);
    assert(text::occurs_at(t, f0, k0));
}

} // verus!
