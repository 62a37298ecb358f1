//! Risk classification of scanned directories.
//!
//! Every top-level directory of a scan is given a risk level, a category, an
//! explanation and a safe-to-delete flag by the first rule of an ordered rule
//! set that matches its name or path; active developer projects and unmatched
//! directories are medium risk and never safe to delete.
use vstd::prelude::*;
use crate::order::{is_stable_order, stable_order};
use crate::fileclass::{category_id, category_name, FileCategory};
use crate::scanner::{DirInfo, DriveInfo};
use crate::text::{chars_of, contains_chars, str_eq, has_sub, owned, replace, replace_char, string_of, to_lowercase, trim, trimmed, unicode_lower};

verus! {

/// Risk level for cleanup safety.
#[derive(Debug, Clone, Copy, PartialEq, Eq, Structural)]
pub enum RiskLevel {
    Low,
    Medium,
    High,
}

impl RiskLevel {
    /// The lower-case name used in reports and settings ("low", "medium", "high").
    pub fn as_str(&self) -> (r: &'static str)
        ensures
            r@ == level_name(*self),
    {
        match self {
            RiskLevel::Low => "low",
            RiskLevel::Medium => "medium",
            RiskLevel::High => "high",
        }
    }
}

pub open spec fn level_name(l: RiskLevel) -> Seq<char> {
    match l {
        RiskLevel::Low => "low"@,
        RiskLevel::Medium => "medium"@,
        RiskLevel::High => "high"@,
    }
}

/// A classified item in the risk report.
#[derive(Debug, Clone)]
pub struct RiskItem {
    pub name: String,
    pub path: String,
    pub size_bytes: u64,
    pub file_count: u64,
    pub dir_count: u64,
    pub risk_level: RiskLevel,
    pub category: String,
    pub explanation: String,
    pub safe_to_delete: bool,
}

/// Summary statistics for a risk report.
#[derive(Debug, Clone, PartialEq, Eq, Structural)]
pub struct RiskSummary {
    pub total_items: usize,
    pub low_risk_count: usize,
    pub medium_risk_count: usize,
    pub high_risk_count: usize,
    pub low_risk_bytes: u64,
    pub medium_risk_bytes: u64,
    pub high_risk_bytes: u64,
    pub safe_deletable_bytes: u64,
}

/// Complete risk report.
#[derive(Debug, Clone)]
pub struct RiskReport {
    pub drive_letter: String,
    pub items: Vec<RiskItem>,
    pub summary: RiskSummary,
}

/// A risk classification rule.
#[derive(Debug, Clone)]
pub struct RiskRule {
    pub id: String,
    pub patterns: Vec<String>,
    pub risk_level: RiskLevel,
    pub category: String,
    pub explanation: String,
    pub safe_to_delete: bool,
    pub name_match: Option<String>,
    /// The file category (its identifier, such as `dev_cache`) that the rule
    /// matches, for rules that match files by category rather than by path.
    pub file_category: Option<String>,
}

/// A rule as plain values.
pub struct RuleView {
    pub id: Seq<char>,
    pub patterns: Seq<Seq<char>>,
    pub risk_level: RiskLevel,
    pub category: Seq<char>,
    pub explanation: Seq<char>,
    pub safe_to_delete: bool,
    pub name_match: Option<Seq<char>>,
    pub file_category: Option<Seq<char>>,
}

impl View for RiskRule {
    type V = RuleView;

    open spec fn view(&self) -> RuleView {
        RuleView {
            id: self.id@,
            patterns: self.patterns@.map_values(|p: String| p@),
            risk_level: self.risk_level,
            category: self.category@,
            explanation: self.explanation@,
            safe_to_delete: self.safe_to_delete,
            name_match: match self.name_match {
                Some(n) => Some(n@),
                None => None,
            },
            file_category: match self.file_category {
                Some(c) => Some(c@),
                None => None,
            },
        }
    }
}

pub open spec fn rule_views(rules: Seq<RiskRule>) -> Seq<RuleView> {
    rules.map_values(|r: RiskRule| r@)
}

/// The text that rules are matched against: back slashes become forward
/// slashes, letters become lower case, and surrounding white space is dropped.
pub open spec fn match_text(s: Seq<char>) -> Seq<char> {
    trimmed(unicode_lower(replace_char(s, '\\', '/')))
}

/// A rule matches a directory when its name pattern occurs in the directory's
/// name, or one of its path patterns occurs in the directory's path or name.
pub open spec fn rule_matches(r: RuleView, name: Seq<char>, path: Seq<char>) -> bool {
    let ln = match_text(name);
    let lp = match_text(path);
    ||| (r.name_match matches Some(nm) && has_sub(ln, match_text(nm)))
    ||| exists|k: int|
        0 <= k < r.patterns.len() && (has_sub(lp, match_text(#[trigger] r.patterns[k])) || has_sub(
            ln,
            match_text(r.patterns[k]),
        ))
}

/// Markers of an active developer project in a path.
pub open spec fn developer_project(path: Seq<char>) -> bool {
    let l = match_text(path);
    ||| has_sub(l, "/.git"@)
    ||| has_sub(l, "/cargo.toml"@)
    ||| has_sub(l, "/package.json"@)
    ||| has_sub(l, "/pyproject.toml"@)
    ||| has_sub(l, "/go.mod"@)
    ||| has_sub(l, "/node_modules"@)
    ||| has_sub(l, "/target"@)
}

/// Index of the first rule that matches, if any.
pub open spec fn first_match(rules: Seq<RuleView>, name: Seq<char>, path: Seq<char>) -> Option<int>
    decreases rules.len(),
{
    if rules.len() == 0 {
        None
    } else if rule_matches(rules[0], name, path) {
        Some(0)
    } else {
        match first_match(rules.drop_first(), name, path) {
            Some(i) => Some(i + 1),
            None => None,
        }
    }
}

/// The outcome of classifying one directory.
pub struct Verdict {
    pub level: RiskLevel,
    pub category: Seq<char>,
    pub explanation: Seq<char>,
    pub safe: bool,
}

pub open spec fn developer_verdict() -> Verdict {
    Verdict {
        level: RiskLevel::Medium,
        category: "developer_project"@,
        explanation: "Active developer project detected — contains .git or package files"@,
        safe: false,
    }
}

pub open spec fn unknown_verdict() -> Verdict {
    Verdict {
        level: RiskLevel::Medium,
        category: "unknown"@,
        explanation: "Unknown directory — review before taking action"@,
        safe: false,
    }
}

/// How a directory with this name and path is classified under `rules`.
pub open spec fn verdict_for(rules: Seq<RuleView>, name: Seq<char>, path: Seq<char>) -> Verdict {
    if developer_project(path) {
        developer_verdict()
    } else {
        match first_match(rules, name, path) {
            Some(i) => Verdict {
                level: rules[i].risk_level,
                category: rules[i].category,
                explanation: rules[i].explanation,
                safe: rules[i].safe_to_delete,
            },
            None => unknown_verdict(),
        }
    }
}

/// The text a rule or directory is matched as.
pub fn normalize_match_text(input: &str) -> (r: Vec<char>)
    ensures
        r@ == match_text(input@),
{
    let cs = chars_of(input);
    let replaced = replace(cs.as_slice(), '\\', '/');
    let s = string_of(replaced.as_slice());
    let lower = to_lowercase(s.as_str());
    let lc = chars_of(lower.as_str());
    trim(lc.as_slice())
}

fn contains_lit(hay: &[char], pat: &str) -> (r: bool)
    ensures
        r == has_sub(hay@, pat@),
{
    let p = chars_of(pat);
    contains_chars(hay, p.as_slice())
}

/// Whether a path looks like an active developer project.
pub fn is_developer_project(path: &str) -> (r: bool)
    ensures
        r == developer_project(path@),
{
    let lower = normalize_match_text(path);
    let l = lower.as_slice();
    contains_lit(l, "/.git") || contains_lit(l, "/cargo.toml") || contains_lit(l, "/package.json")
        || contains_lit(l, "/pyproject.toml") || contains_lit(l, "/go.mod") || contains_lit(
        l,
        "/node_modules",
    ) || contains_lit(l, "/target")
}

impl RiskRule {
    /// Whether this rule matches the directory.
    pub fn matches(&self, dir: &DirInfo) -> (r: bool)
        ensures
            r == rule_matches(self@, dir.name@, dir.path@),
    {
        let lower_name = normalize_match_text(&dir.name);
        let lower_path = normalize_match_text(&dir.path);
        if let Some(name_pat) = &self.name_match {
            let pat = normalize_match_text(name_pat);
            if contains_chars(lower_name.as_slice(), pat.as_slice()) {
                return true;
            }
        }
        let mut k: usize = 0;
        while k < self.patterns.len()
            invariant
                k <= self.patterns@.len(),
                lower_name@ == match_text(dir.name@),
                lower_path@ == match_text(dir.path@),
                !(self@.name_match matches Some(nm) && has_sub(lower_name@, match_text(nm))),
                forall|j: int|
                    0 <= j < k ==> !(has_sub(lower_path@, match_text(#[trigger] self@.patterns[j]))
                        || has_sub(lower_name@, match_text(self@.patterns[j]))),
            decreases self.patterns.len() - k,
        {
            let pat = normalize_match_text(&self.patterns[k]);
            assert(self@.patterns[k as int] == self.patterns@[k as int]@);
            if contains_chars(lower_path.as_slice(), pat.as_slice()) || contains_chars(
                lower_name.as_slice(),
                pat.as_slice(),
            ) {
                return true;
            }
            k = k + 1;
        }
        false
    }
}

/// The classification of one directory under `rules`: level, category,
/// explanation and whether it is safe to delete.
pub fn match_rule(dir: &DirInfo, rules: &Vec<RiskRule>) -> (r: (RiskLevel, String, String, bool))
    ensures
        ({
            let v = verdict_for(rule_views(rules@), dir.name@, dir.path@);
            r.0 == v.level && r.1@ == v.category && r.2@ == v.explanation && r.3 == v.safe
        }),
{
    if is_developer_project(&dir.path) {
        return (
            RiskLevel::Medium,
            owned("developer_project"),
            owned("Active developer project detected — contains .git or package files"),
            false,
        );
    }
    let ghost views = rule_views(rules@);
    assert(views.subrange(0, views.len() as int) =~= views);
    let mut i: usize = 0;
    while i < rules.len()
        invariant
            i <= rules@.len(),
            views == rule_views(rules@),
            !developer_project(dir.path@),
            first_match(views, dir.name@, dir.path@) == (match first_match(
                views.subrange(i as int, views.len() as int),
                dir.name@,
                dir.path@,
            ) {
                Some(j) => Some(j + i),
                None => None,
            }),
        decreases rules.len() - i,
    {
        let rule = &rules[i];
        let ghost rest = views.subrange(i as int, views.len() as int);
        proof {
            assert(rest[0] == rule@);
            assert(rest.drop_first() =~= views.subrange(i + 1, views.len() as int));
        }
        if rule.matches(dir) {
            assert(first_match(rest, dir.name@, dir.path@) == Some(0int));
            assert(views[i as int] == rule@);
            return (rule.risk_level, rule.category.clone(), rule.explanation.clone(), rule.safe_to_delete);
        }
        assert(first_match(rest, dir.name@, dir.path@) == (match first_match(
            rest.drop_first(),
            dir.name@,
            dir.path@,
        ) {
            Some(j) => Some(j + 1),
            None => None,
        }));
        i = i + 1;
    }
    proof {
        assert(views.subrange(i as int, views.len() as int).len() == 0);
    }
    (
        RiskLevel::Medium,
        owned("unknown"),
        owned("Unknown directory — review before taking action"),
        false,
    )
}


// ── The built-in rule set ──────────────────────────────────

pub open spec fn rule_view(
    id: Seq<char>,
    patterns: Seq<Seq<char>>,
    risk_level: RiskLevel,
    category: Seq<char>,
    explanation: Seq<char>,
    safe_to_delete: bool,
    name_match: Option<Seq<char>>,
) -> RuleView {
    RuleView { id, patterns, risk_level, category, explanation, safe_to_delete, name_match, file_category: None }
}

/// A rule that matches files of one category: it has no path or name pattern,
/// so it matches no directory, and it never marks anything safe to delete.
pub open spec fn category_rule_view(
    id: Seq<char>,
    risk_level: RiskLevel,
    category: Seq<char>,
    explanation: Seq<char>,
    file_category: Seq<char>,
) -> RuleView {
    RuleView {
        id,
        patterns: Seq::empty(),
        risk_level,
        category,
        explanation,
        safe_to_delete: false,
        name_match: None,
        file_category: Some(file_category),
    }
}

/// The nineteen built-in rules, in the order in which they are tried; three
/// of them match the file categories `dev_cache`, `build` and `dependency`.
pub open spec fn default_rule_views() -> Seq<RuleView> {
    seq![
        rule_view("temp-files"@, seq!["temp"@, "tmp"@], RiskLevel::Low, "temporary_files"@,
            "Temporary files — safe to delete, automatically recreated as needed"@, true, None),
        rule_view("browser-cache"@, seq!["chrome/user data"@, "firefox/profiles"@, "edge/user data"@],
            RiskLevel::Low, "browser_cache"@,
            "Browser cache files — safe to delete, will be re-downloaded"@, true, Some("/cache"@)),
        rule_view("nvidia-dx-cache"@, seq!["nvidia/dxcache"@, "amd/dxcache"@], RiskLevel::Low,
            "gpu_cache"@, "GPU shader cache — safe to delete, rebuilt on next game launch"@, true,
            Some("/dxcache"@)),
        rule_view("npm-cache"@, seq![".npm"@, "npm-cache"@], RiskLevel::Low, "developer_cache"@,
            "npm package cache — safe to delete, re-downloaded on next install"@, true,
            Some("npm-cache"@)),
        rule_view("pip-cache"@, seq!["pip/cache"@, ".cache/pip"@], RiskLevel::Low, "developer_cache"@,
            "pip package cache — safe to delete, re-downloaded on next install"@, true, Some("pip"@)),
        rule_view("cargo-cache"@, seq![".cargo/registry"@, ".cargo/git"@], RiskLevel::Low,
            "developer_cache"@,
            "Cargo registry cache — safe to delete, re-downloaded on next build"@, true,
            Some(".cargo"@)),
        category_rule_view("dev-cache"@, RiskLevel::Medium, "dev_cache"@,
            "Developer tool cache files — rebuilt on demand; review before deleting"@, "dev_cache"@),
        category_rule_view("build-output"@, RiskLevel::Medium, "build"@,
            "Build output files — regenerated by rebuilding the project; review before deleting"@,
            "build"@),
        category_rule_view("dependency-packages"@, RiskLevel::Medium, "dependency"@,
            "Installed dependency files — reinstalled by the package manager; review before deleting"@,
            "dependency"@),
        rule_view("delivery-optimization"@, seq!["deliveryoptimization"@], RiskLevel::Low,
            "windows_cache"@, "Windows Delivery Optimization files — safe to delete"@, true,
            Some("deliveryoptimization"@)),
        rule_view("recycle-bin"@, seq!["$recycle.bin"@], RiskLevel::Low, "recycle_bin"@,
            "Recycle Bin contents — already marked for deletion by user"@, true,
            Some("$recycle.bin"@)),
        rule_view("downloads-old"@, seq!["downloads"@, "download"@], RiskLevel::Medium, "downloads"@,
            "Downloads folder — review contents before deleting"@, false, Some("downloads"@)),
        rule_view("large-logs"@, seq!["/logs"@, "\\logs"@, "logs"@], RiskLevel::Medium, "log_files"@,
            "Log files — review before deleting, may be needed for debugging"@, false, Some("log"@)),
        rule_view("winsxs"@, seq!["winsxs"@], RiskLevel::Medium, "windows_components"@,
            "Windows component store — use DISM cleanup, not manual deletion"@, false,
            Some("winsxs"@)),
        rule_view("windows-installer"@, seq!["windows/installer"@], RiskLevel::High,
            "system_installer"@,
            "Windows Installer database — DO NOT DELETE, required for uninstalls"@, false,
            Some("installer"@)),
        rule_view("windows-system"@, seq!["windows/system32"@, "windows/syswow64"@], RiskLevel::High,
            "system_critical"@, "Windows system directory — NEVER delete, OS will break"@, false,
            None),
        rule_view("program-files"@, seq!["program files (x86)"@, "program files"@], RiskLevel::High,
            "installed_applications"@, "Installed applications — only remove via Settings > Apps"@,
            false, None),
        rule_view("wechat-qq-data"@, seq!["wechat files"@, "tencent files"@, "qq files"@],
            RiskLevel::High, "chat_user_data"@,
            "Chat application user data — contains personal files and history"@, false, None),
        rule_view("appdata-config"@, seq!["appdata/roaming"@, "appdata/local"@], RiskLevel::High,
            "user_config"@, "Application configuration — contains user settings and data"@, false,
            None),
    ]
}

pub open spec fn string_views(v: Seq<String>) -> Seq<Seq<char>> {
    v.map_values(|p: String| p@)
}

fn pats(a: &str) -> (r: Vec<String>)
    ensures
        string_views(r@) == seq![a@],
{
    let r = vec![owned(a)];
    assert(string_views(r@) =~= seq![a@]);
    r
}

fn pats2(a: &str, b: &str) -> (r: Vec<String>)
    ensures
        string_views(r@) == seq![a@, b@],
{
    let r = vec![owned(a), owned(b)];
    assert(string_views(r@) =~= seq![a@, b@]);
    r
}

fn pats3(a: &str, b: &str, c: &str) -> (r: Vec<String>)
    ensures
        string_views(r@) == seq![a@, b@, c@],
{
    let r = vec![owned(a), owned(b), owned(c)];
    assert(string_views(r@) =~= seq![a@, b@, c@]);
    r
}

fn make_rule(
    id: &str,
    patterns: Vec<String>,
    risk_level: RiskLevel,
    category: &str,
    explanation: &str,
    safe_to_delete: bool,
    name_match: Option<&str>,
) -> (r: RiskRule)
    ensures
        r@ == rule_view(
            id@,
            string_views(patterns@),
            risk_level,
            category@,
            explanation@,
            safe_to_delete,
            match name_match {
                Some(n) => Some(n@),
                None => None,
            },
        ),
{
    RiskRule {
        id: owned(id),
        patterns,
        risk_level,
        category: owned(category),
        explanation: owned(explanation),
        safe_to_delete,
        name_match: match name_match {
            Some(n) => Some(owned(n)),
            None => None,
        },
        file_category: None,
    }
}

fn make_category_rule(id: &str, risk_level: RiskLevel, category: &str, explanation: &str, file_category: &str) -> (r: RiskRule)
    ensures
        r@ == category_rule_view(id@, risk_level, category@, explanation@, file_category@),
{
    let patterns: Vec<String> = Vec::new();
    let r = RiskRule {
        id: owned(id),
        patterns,
        risk_level,
        category: owned(category),
        explanation: owned(explanation),
        safe_to_delete: false,
        name_match: None,
        file_category: Some(owned(file_category)),
    };
    assert(r@.patterns =~= Seq::<Seq<char>>::empty());
    r
}

/// A rule matches a file of category `c` when its file-category condition
/// names `c`.
pub open spec fn category_rule_matches(r: RuleView, c: FileCategory) -> bool {
    r.file_category == Some(category_name(c))
}

/// Index of the first rule whose file-category condition names `c`.
pub open spec fn first_category_match(rules: Seq<RuleView>, c: FileCategory) -> Option<int>
    decreases rules.len(),
{
    if rules.len() == 0 {
        None
    } else if category_rule_matches(rules[0], c) {
        Some(0)
    } else {
        match first_category_match(rules.drop_first(), c) {
            Some(i) => Some(i + 1),
            None => None,
        }
    }
}

impl RiskRule {
    /// Whether this rule's file-category condition names the category.
    pub fn matches_file_category(&self, category: &FileCategory) -> (r: bool)
        ensures
            r == category_rule_matches(self@, *category),
    {
        match &self.file_category {
            Some(c) => str_eq(c.as_str(), category_id(category)),
            None => false,
        }
    }
}

/// The first rule, in order, that matches files of the category.
pub fn rule_for_file_category(rules: &Vec<RiskRule>, category: &FileCategory) -> (r: Option<usize>)
    ensures
        match first_category_match(rule_views(rules@), *category) {
            Some(i) => r == Some(i as usize),
            None => r is None,
        },
{
    let ghost all = rule_views(rules@);
    let mut k: usize = 0;
    assert(all.skip(0) =~= all);
    while k < rules.len()
        invariant
            k <= rules@.len(),
            all == rule_views(rules@),
            first_category_match(all, *category) == (match first_category_match(all.skip(k as int), *category) {
                Some(i) => Some(i + k),
                None => None::<int>,
            }),
        decreases rules.len() - k,
    {
        assert(all.skip(k as int)[0] == rules@[k as int]@);
        if rules[k].matches_file_category(category) {
            return Some(k);
        }
        assert(all.skip(k as int).drop_first() =~= all.skip(k + 1));
        k = k + 1;
    }
    assert(all.skip(k as int).len() == 0);
    None
}

/// The built-in rule set, embedded in the library.
pub fn default_rules() -> (r: Vec<RiskRule>)
    ensures
        rule_views(r@) == default_rule_views(),
{
    let r = vec![
        make_rule("temp-files", pats2("temp", "tmp"), RiskLevel::Low, "temporary_files",
            "Temporary files — safe to delete, automatically recreated as needed", true, None),
        make_rule("browser-cache", pats3("chrome/user data", "firefox/profiles", "edge/user data"),
            RiskLevel::Low, "browser_cache",
            "Browser cache files — safe to delete, will be re-downloaded", true, Some("/cache")),
        make_rule("nvidia-dx-cache", pats2("nvidia/dxcache", "amd/dxcache"), RiskLevel::Low,
            "gpu_cache", "GPU shader cache — safe to delete, rebuilt on next game launch", true,
            Some("/dxcache")),
        make_rule("npm-cache", pats2(".npm", "npm-cache"), RiskLevel::Low, "developer_cache",
            "npm package cache — safe to delete, re-downloaded on next install", true,
            Some("npm-cache")),
        make_rule("pip-cache", pats2("pip/cache", ".cache/pip"), RiskLevel::Low, "developer_cache",
            "pip package cache — safe to delete, re-downloaded on next install", true, Some("pip")),
        make_rule("cargo-cache", pats2(".cargo/registry", ".cargo/git"), RiskLevel::Low,
            "developer_cache",
            "Cargo registry cache — safe to delete, re-downloaded on next build", true,
            Some(".cargo")),
        make_category_rule("dev-cache", RiskLevel::Medium, "dev_cache",
            "Developer tool cache files — rebuilt on demand; review before deleting", "dev_cache"),
        make_category_rule("build-output", RiskLevel::Medium, "build",
            "Build output files — regenerated by rebuilding the project; review before deleting",
            "build"),
        make_category_rule("dependency-packages", RiskLevel::Medium, "dependency",
            "Installed dependency files — reinstalled by the package manager; review before deleting",
            "dependency"),
        make_rule("delivery-optimization", pats("deliveryoptimization"), RiskLevel::Low,
            "windows_cache", "Windows Delivery Optimization files — safe to delete", true,
            Some("deliveryoptimization")),
        make_rule("recycle-bin", pats("$recycle.bin"), RiskLevel::Low, "recycle_bin",
            "Recycle Bin contents — already marked for deletion by user", true,
            Some("$recycle.bin")),
        make_rule("downloads-old", pats2("downloads", "download"), RiskLevel::Medium, "downloads",
            "Downloads folder — review contents before deleting", false, Some("downloads")),
        make_rule("large-logs", pats3("/logs", "\\logs", "logs"), RiskLevel::Medium, "log_files",
            "Log files — review before deleting, may be needed for debugging", false, Some("log")),
        make_rule("winsxs", pats("winsxs"), RiskLevel::Medium, "windows_components",
            "Windows component store — use DISM cleanup, not manual deletion", false,
            Some("winsxs")),
        make_rule("windows-installer", pats("windows/installer"), RiskLevel::High,
            "system_installer",
            "Windows Installer database — DO NOT DELETE, required for uninstalls", false,
            Some("installer")),
        make_rule("windows-system", pats2("windows/system32", "windows/syswow64"), RiskLevel::High,
            "system_critical", "Windows system directory — NEVER delete, OS will break", false,
            None),
        make_rule("program-files", pats2("program files (x86)", "program files"), RiskLevel::High,
            "installed_applications", "Installed applications — only remove via Settings > Apps",
            false, None),
        make_rule("wechat-qq-data", pats3("wechat files", "tencent files", "qq files"),
            RiskLevel::High, "chat_user_data",
            "Chat application user data — contains personal files and history", false, None),
        make_rule("appdata-config", pats2("appdata/roaming", "appdata/local"), RiskLevel::High,
            "user_config", "Application configuration — contains user settings and data", false,
            None),
    ];
    assert(rule_views(r@) =~= default_rule_views());
    r
}


// ── Classifying a scan ─────────────────────────────────────

/// `it` is the classification of directory `d` under `rules`.
pub open spec fn item_agrees(it: RiskItem, d: DirInfo, rules: Seq<RuleView>) -> bool {
    let v = verdict_for(rules, d.name@, d.path@);
    &&& it.name@ == d.name@
    &&& it.path@ == d.path@
    &&& it.size_bytes == d.size_bytes
    &&& it.file_count == d.file_count
    &&& it.dir_count == d.dir_count
    &&& it.risk_level == v.level
    &&& it.category@ == v.category
    &&& it.explanation@ == v.explanation
    &&& it.safe_to_delete == v.safe
}

/// High risk is listed first, then medium, then low.
pub open spec fn level_rank(l: RiskLevel) -> nat {
    match l {
        RiskLevel::High => 0,
        RiskLevel::Medium => 1,
        RiskLevel::Low => 2,
    }
}

/// Report order: by risk rank, then by descending size.
pub open spec fn report_key(l: RiskLevel, size: u64) -> u128 {
    (level_rank(l) * 0x1_0000_0000_0000_0000 + (u64::MAX - size)) as u128
}

pub open spec fn report_keys(dirs: Seq<DirInfo>, rules: Seq<RuleView>) -> Seq<u128> {
    Seq::new(
        dirs.len(),
        |i: int| report_key(verdict_for(rules, dirs[i].name@, dirs[i].path@).level, dirs[i].size_bytes),
    )
}

/// Number of directories classified at level `l`.
pub open spec fn level_count(dirs: Seq<DirInfo>, rules: Seq<RuleView>, l: RiskLevel) -> nat
    decreases dirs.len(),
{
    if dirs.len() == 0 {
        0
    } else {
        level_count(dirs.drop_last(), rules, l) + if verdict_for(
            rules,
            dirs.last().name@,
            dirs.last().path@,
        ).level == l {
            1nat
        } else {
            0nat
        }
    }
}

/// Total size of the directories classified at level `l`.
pub open spec fn level_bytes(dirs: Seq<DirInfo>, rules: Seq<RuleView>, l: RiskLevel) -> nat
    decreases dirs.len(),
{
    if dirs.len() == 0 {
        0
    } else {
        level_bytes(dirs.drop_last(), rules, l) + if verdict_for(
            rules,
            dirs.last().name@,
            dirs.last().path@,
        ).level == l {
            dirs.last().size_bytes as nat
        } else {
            0nat
        }
    }
}

/// Total size of the directories classified as safe to delete.
pub open spec fn safe_bytes(dirs: Seq<DirInfo>, rules: Seq<RuleView>) -> nat
    decreases dirs.len(),
{
    if dirs.len() == 0 {
        0
    } else {
        safe_bytes(dirs.drop_last(), rules) + if verdict_for(
            rules,
            dirs.last().name@,
            dirs.last().path@,
        ).safe {
            dirs.last().size_bytes as nat
        } else {
            0nat
        }
    }
}

/// Total size of all directories.
pub open spec fn total_size(dirs: Seq<DirInfo>) -> nat
    decreases dirs.len(),
{
    if dirs.len() == 0 {
        0
    } else {
        total_size(dirs.drop_last()) + dirs.last().size_bytes as nat
    }
}

pub open spec fn summary_of(dirs: Seq<DirInfo>, rules: Seq<RuleView>) -> RiskSummary {
    RiskSummary {
        total_items: dirs.len() as usize,
        low_risk_count: level_count(dirs, rules, RiskLevel::Low) as usize,
        medium_risk_count: level_count(dirs, rules, RiskLevel::Medium) as usize,
        high_risk_count: level_count(dirs, rules, RiskLevel::High) as usize,
        low_risk_bytes: level_bytes(dirs, rules, RiskLevel::Low) as u64,
        medium_risk_bytes: level_bytes(dirs, rules, RiskLevel::Medium) as u64,
        high_risk_bytes: level_bytes(dirs, rules, RiskLevel::High) as u64,
        safe_deletable_bytes: safe_bytes(dirs, rules) as u64,
    }
}

/// `report` classifies the directories of `drive` under `rules`: one item per
/// directory, high risk first, then by descending size (a stable order), and a
/// summary of the counts and bytes per level.
pub open spec fn is_report_for(report: RiskReport, drive: DriveInfo, rules: Seq<RuleView>) -> bool {
    let dirs = drive.top_dirs@;
    &&& report.drive_letter@ == drive.drive_letter@
    &&& report.summary == summary_of(dirs, rules)
    &&& exists|p: Seq<usize>|
        #![trigger is_stable_order(report_keys(dirs, rules), p)]
        is_stable_order(report_keys(dirs, rules), p) && report.items@.len() == p.len() && forall|k: int|
            0 <= k < p.len() ==> item_agrees(#[trigger] report.items@[k], dirs[p[k] as int], rules)
}

proof fn lemma_sums_bounded(dirs: Seq<DirInfo>, rules: Seq<RuleView>)
    ensures
        level_count(dirs, rules, RiskLevel::Low) <= dirs.len(),
        level_count(dirs, rules, RiskLevel::Medium) <= dirs.len(),
        level_count(dirs, rules, RiskLevel::High) <= dirs.len(),
        level_bytes(dirs, rules, RiskLevel::Low) <= total_size(dirs),
        level_bytes(dirs, rules, RiskLevel::Medium) <= total_size(dirs),
        level_bytes(dirs, rules, RiskLevel::High) <= total_size(dirs),
        safe_bytes(dirs, rules) <= total_size(dirs),
    decreases dirs.len(),
{
    if dirs.len() > 0 {
        lemma_sums_bounded(dirs.drop_last(), rules);
    }
}

impl RiskItem {
    /// A field-by-field copy.
    pub fn copied(&self) -> (r: RiskItem)
        ensures
            r.name@ == self.name@,
            r.path@ == self.path@,
            r.size_bytes == self.size_bytes,
            r.file_count == self.file_count,
            r.dir_count == self.dir_count,
            r.risk_level == self.risk_level,
            r.category@ == self.category@,
            r.explanation@ == self.explanation@,
            r.safe_to_delete == self.safe_to_delete,
    {
        RiskItem {
            name: self.name.clone(),
            path: self.path.clone(),
            size_bytes: self.size_bytes,
            file_count: self.file_count,
            dir_count: self.dir_count,
            risk_level: self.risk_level,
            category: self.category.clone(),
            explanation: self.explanation.clone(),
            safe_to_delete: self.safe_to_delete,
        }
    }
}

fn rank_of(l: RiskLevel) -> (r: u128)
    ensures
        r == level_rank(l),
{
    match l {
        RiskLevel::High => 0,
        RiskLevel::Medium => 1,
        RiskLevel::Low => 2,
    }
}

/// Classify the directories of a scan under a given rule set.
pub fn classify_risks_with(drive_info: &DriveInfo, rules: &Vec<RiskRule>) -> (res: RiskReport)
    requires
        total_size(drive_info.top_dirs@) <= u64::MAX,
    ensures
        is_report_for(res, *drive_info, rule_views(rules@)),
{
    let ghost rv = rule_views(rules@);
    let ghost dirs = drive_info.top_dirs@;
    let n = drive_info.top_dirs.len();
    let mut items: Vec<RiskItem> = Vec::new();
    let mut keys: Vec<u128> = Vec::new();
    let mut low_count: usize = 0;
    let mut medium_count: usize = 0;
    let mut high_count: usize = 0;
    let mut low_bytes: u64 = 0;
    let mut medium_bytes: u64 = 0;
    let mut high_bytes: u64 = 0;
    let mut safe_total: u64 = 0;
    let mut i: usize = 0;
    while i < n
        invariant
            n == dirs.len(),
            dirs == drive_info.top_dirs@,
            rv == rule_views(rules@),
            total_size(dirs) <= u64::MAX,
            i <= n,
            items@.len() == i,
            keys@ == report_keys(dirs, rv).take(i as int),
            forall|k: int| 0 <= k < i ==> item_agrees(#[trigger] items@[k], dirs[k], rv),
            low_count == level_count(dirs.take(i as int), rv, RiskLevel::Low),
            medium_count == level_count(dirs.take(i as int), rv, RiskLevel::Medium),
            high_count == level_count(dirs.take(i as int), rv, RiskLevel::High),
            low_bytes == level_bytes(dirs.take(i as int), rv, RiskLevel::Low),
            medium_bytes == level_bytes(dirs.take(i as int), rv, RiskLevel::Medium),
            high_bytes == level_bytes(dirs.take(i as int), rv, RiskLevel::High),
            safe_total == safe_bytes(dirs.take(i as int), rv),
        decreases n - i,
    {
        let dir = &drive_info.top_dirs[i];
        let (risk_level, category, explanation, safe_to_delete) = match_rule(dir, rules);
        let ghost t = dirs.take(i + 1);
        proof {
            assert(t.drop_last() =~= dirs.take(i as int));
            assert(t.last() == dirs[i as int]);
            lemma_sums_bounded(t, rv);
            lemma_total_prefix(dirs, i + 1);
        }
        match risk_level {
            RiskLevel::Low => {
                low_count = low_count + 1;
                low_bytes = low_bytes + dir.size_bytes;
            },
            RiskLevel::Medium => {
                medium_count = medium_count + 1;
                medium_bytes = medium_bytes + dir.size_bytes;
            },
            RiskLevel::High => {
                high_count = high_count + 1;
                high_bytes = high_bytes + dir.size_bytes;
            },
        }
        if safe_to_delete {
            safe_total = safe_total + dir.size_bytes;
        }
        let key: u128 = rank_of(risk_level) * 0x1_0000_0000_0000_0000u128 + ((u64::MAX
            - dir.size_bytes) as u128);
        keys.push(key);
        assert(report_keys(dirs, rv).take(i + 1) == report_keys(dirs, rv).take(i as int).push(key));
        items.push(
            RiskItem {
                name: dir.name.clone(),
                path: dir.path.clone(),
                size_bytes: dir.size_bytes,
                file_count: dir.file_count,
                dir_count: dir.dir_count,
                risk_level,
                category,
                explanation,
                safe_to_delete,
            },
        );
        i = i + 1;
    }
    proof {
        assert(dirs.take(n as int) =~= dirs);
        assert(keys@ =~= report_keys(dirs, rv));
    }
    let p = stable_order(&keys);
    let mut sorted: Vec<RiskItem> = Vec::new();
    let mut k: usize = 0;
    while k < p.len()
        invariant
            n == dirs.len(),
            items@.len() == n,
            is_stable_order(report_keys(dirs, rv), p@),
            forall|j: int| 0 <= j < n ==> item_agrees(#[trigger] items@[j], dirs[j], rv),
            k <= p@.len(),
            sorted@.len() == k,
            forall|j: int| 0 <= j < k ==> item_agrees(#[trigger] sorted@[j], dirs[p@[j] as int], rv),
        decreases p.len() - k,
    {
        let idx = p[k];
        assert(item_agrees(items@[idx as int], dirs[idx as int], rv));
        sorted.push(items[idx].copied());
        k = k + 1;
    }
    let summary = RiskSummary {
        total_items: n,
        low_risk_count: low_count,
        medium_risk_count: medium_count,
        high_risk_count: high_count,
        low_risk_bytes: low_bytes,
        medium_risk_bytes: medium_bytes,
        high_risk_bytes: high_bytes,
        safe_deletable_bytes: safe_total,
    };
    RiskReport { drive_letter: drive_info.drive_letter.clone(), items: sorted, summary }
}

proof fn lemma_total_prefix(dirs: Seq<DirInfo>, i: int)
    requires
        0 <= i <= dirs.len(),
    ensures
        total_size(dirs.take(i)) <= total_size(dirs),
    decreases dirs.len() - i,
{
    if i < dirs.len() {
        lemma_total_prefix(dirs, i + 1);
        let t = dirs.take(i + 1);
        assert(t.drop_last() =~= dirs.take(i));
    } else {
        assert(dirs.take(i) =~= dirs);
    }
}

/// Classify a scan result into risk levels with the built-in rules.
pub fn classify_risks(drive_info: &DriveInfo) -> (res: RiskReport)
    requires
        total_size(drive_info.top_dirs@) <= u64::MAX,
    ensures
        is_report_for(res, *drive_info, default_rule_views()),
{
    let rules = default_rules();
    classify_risks_with(drive_info, &rules)
}


// ── User overrides ─────────────────────────────────────────

/// The safe-to-delete override recorded for rule `id`: the last entry for
/// that id wins, as when the entries are inserted into a map in order.
pub open spec fn override_for(ov: Seq<(Seq<char>, bool)>, id: Seq<char>) -> Option<bool>
    decreases ov.len(),
{
    if ov.len() == 0 {
        None
    } else if ov.last().0 == id {
        Some(ov.last().1)
    } else {
        override_for(ov.drop_last(), id)
    }
}

pub open spec fn override_views(ov: Seq<(String, bool)>) -> Seq<(Seq<char>, bool)> {
    ov.map_values(|e: (String, bool)| (e.0@, e.1))
}

/// `rule` with its safe-to-delete flag replaced when an override names it.
pub open spec fn with_override(rule: RuleView, ov: Seq<(Seq<char>, bool)>) -> RuleView {
    match override_for(ov, rule.id) {
        Some(safe) => RuleView { safe_to_delete: safe, ..rule },
        None => rule,
    }
}

fn lookup_override(overrides: &Vec<(String, bool)>, id: &String) -> (r: Option<bool>)
    ensures
        r == override_for(override_views(overrides@), id@),
{
    let ghost ov = override_views(overrides@);
    assert(ov.take(overrides@.len() as int) =~= ov);
    let mut i: usize = overrides.len();
    while i > 0
        invariant
            i <= overrides@.len(),
            ov == override_views(overrides@),
            override_for(ov, id@) == override_for(ov.take(i as int), id@),
        decreases i,
    {
        let ghost t = ov.take(i as int);
        assert(t.last() == (overrides@[i - 1].0@, overrides@[i - 1].1));
        assert(t.drop_last() =~= ov.take(i - 1));
        if overrides[i - 1].0 == *id {
            return Some(overrides[i - 1].1);
        }
        i = i - 1;
    }
    None
}

/// All built-in rules with the user's safe-to-delete overrides applied.
///
/// `overrides` lists (rule id, safe to delete) pairs as they were stored.
pub fn get_rules_with_overrides(overrides: &Vec<(String, bool)>) -> (res: Vec<RiskRule>)
    ensures
        res@.len() == default_rule_views().len(),
        forall|k: int|
            0 <= k < res@.len() ==> #[trigger] res@[k]@ == with_override(
                default_rule_views()[k],
                override_views(overrides@),
            ),
{
    let mut rules = default_rules();
    let ghost base = rule_views(rules@);
    let mut taken: Vec<RiskRule> = Vec::new();
    while rules.len() > 0
        invariant
            base == default_rule_views(),
            taken@.len() + rules@.len() == base.len(),
            forall|k: int| 0 <= k < rules@.len() ==> #[trigger] rules@[k]@ == base[k + taken@.len()],
            forall|k: int|
                0 <= k < taken@.len() ==> #[trigger] taken@[k]@ == with_override(
                    base[k],
                    override_views(overrides@),
                ),
        decreases rules.len(),
    {
        let ghost old_rules = rules@;
        let mut rule = rules.remove(0);
        let ghost k = taken@.len() as int;
        assert(rule@ == base[k]);
        let ov = lookup_override(overrides, &rule.id);
        if let Some(safe) = ov {
            rule.safe_to_delete = safe;
        }
        assert(rule@ == with_override(base[k], override_views(overrides@)));
        taken.push(rule);
        assert forall|j: int| 0 <= j < rules@.len() implies #[trigger] rules@[j]@ == base[j + taken@.len()] by {
            assert(rules@[j] == old_rules[j + 1]);
        }
    }
    taken
}


/// The built-in rules never call anything safe that is not low risk, and the
/// rules for system and user-data locations (Windows Installer, the Windows
/// system folders, installed programs, chat application data and application
/// configuration) are high risk and never safe to delete.
pub proof fn law_builtin_protected_rules_are_high_risk()
    ensures
        forall|k: int|
            0 <= k < default_rule_views().len() && (#[trigger] default_rule_views()[k]).safe_to_delete
                ==> default_rule_views()[k].risk_level == RiskLevel::Low,
        default_rule_views()[14].id == "windows-installer"@,
        default_rule_views()[15].id == "windows-system"@,
        default_rule_views()[16].id == "program-files"@,
        default_rule_views()[17].id == "wechat-qq-data"@,
        default_rule_views()[18].id == "appdata-config"@,
        forall|k: int|
            14 <= k < 19 ==> (#[trigger] default_rule_views()[k]).risk_level == RiskLevel::High
                && !default_rule_views()[k].safe_to_delete,
{
}

proof fn lemma_first_match_at(rules: Seq<RuleView>, name: Seq<char>, path: Seq<char>, i: int)
    requires
        0 <= i < rules.len(),
        forall|k: int| 0 <= k < i ==> !rule_matches(#[trigger] rules[k], name, path),
        rule_matches(rules[i], name, path),
    ensures
        first_match(rules, name, path) == Some(i),
    decreases i,
{
    if i > 0 {
        assert(!rule_matches(rules[0], name, path));
        let rest = rules.drop_first();
        assert forall|k: int| 0 <= k < i - 1 implies !rule_matches(#[trigger] rest[k], name, path) by {
            assert(rest[k] == rules[k + 1]);
        }
        assert(rest[i - 1] == rules[i]);
        lemma_first_match_at(rest, name, path, i - 1);
    }
}

/// A chat application's data folder (a name or path holding `WeChat Files`,
/// `Tencent Files` or `QQ Files`, compared as rules compare) that is not an
/// active project and that no earlier rule claims is high risk, filed as
/// chat user data, and never safe to delete.
pub proof fn law_chat_data_is_high_risk(name: Seq<char>, path: Seq<char>)
    requires
        !developer_project(path),
        forall|k: int| 0 <= k < 17 ==> !rule_matches(#[trigger] default_rule_views()[k], name, path),
        has_sub(match_text(path), match_text("wechat files"@)) || has_sub(match_text(name), match_text("wechat files"@))
            || has_sub(match_text(path), match_text("tencent files"@)) || has_sub(
            match_text(name),
            match_text("tencent files"@),
        ) || has_sub(match_text(path), match_text("qq files"@)) || has_sub(match_text(name), match_text("qq files"@)),
    ensures
        verdict_for(default_rule_views(), name, path).level == RiskLevel::High,
        !verdict_for(default_rule_views(), name, path).safe,
        verdict_for(default_rule_views(), name, path).category == "chat_user_data"@,
{
    let rules = default_rule_views();
    let r = rules[17];
    assert(r.patterns[0] == "wechat files"@);
    assert(r.patterns[1] == "tencent files"@);
    assert(r.patterns[2] == "qq files"@);
    assert(rule_matches(r, name, path));
    lemma_first_match_at(rules, name, path, 17);
}


proof fn lemma_default_safe_is_low(name: Seq<char>, path: Seq<char>)
    ensures
        verdict_for(default_rule_views(), name, path).safe ==> verdict_for(default_rule_views(), name, path).level
            == RiskLevel::Low,
{
    law_builtin_protected_rules_are_high_risk();
    let rules = default_rule_views();
    if !developer_project(path) {
        match first_match(rules, name, path) {
            Some(i) => {
                lemma_first_match_in_range(rules, name, path);
                assert(rules[i].safe_to_delete ==> rules[i].risk_level == RiskLevel::Low);
            },
            None => {},
        }
    }
}

proof fn lemma_first_match_in_range(rules: Seq<RuleView>, name: Seq<char>, path: Seq<char>)
    ensures
        first_match(rules, name, path) matches Some(i) ==> 0 <= i < rules.len(),
    decreases rules.len(),
{
    if rules.len() > 0 {
        lemma_first_match_in_range(rules.drop_first(), name, path);
    }
}

proof fn lemma_summary_sums(dirs: Seq<DirInfo>)
    ensures
        level_count(dirs, default_rule_views(), RiskLevel::Low) + level_count(dirs, default_rule_views(), RiskLevel::Medium)
            + level_count(dirs, default_rule_views(), RiskLevel::High) == dirs.len(),
        level_bytes(dirs, default_rule_views(), RiskLevel::Low) + level_bytes(dirs, default_rule_views(), RiskLevel::Medium)
            + level_bytes(dirs, default_rule_views(), RiskLevel::High) == total_size(dirs),
        safe_bytes(dirs, default_rule_views()) <= level_bytes(dirs, default_rule_views(), RiskLevel::Low),
    decreases dirs.len(),
{
    if dirs.len() > 0 {
        lemma_summary_sums(dirs.drop_last());
        lemma_default_safe_is_low(dirs.last().name@, dirs.last().path@);
    }
}

/// The built-in classification accounts for every directory once: the
/// directories at the three levels number all of them and their bytes add up
/// to the total, and the bytes called safe to delete are among the low-risk
/// bytes.
pub proof fn law_risk_summary_accounts_for_every_directory(report: RiskReport, drive: DriveInfo)
    requires
        is_report_for(report, drive, default_rule_views()),
        total_size(drive.top_dirs@) <= u64::MAX,
    ensures
        report.summary.low_risk_count + report.summary.medium_risk_count + report.summary.high_risk_count
            == report.summary.total_items,
        report.summary.total_items == drive.top_dirs@.len(),
        report.summary.low_risk_bytes + report.summary.medium_risk_bytes + report.summary.high_risk_bytes
            == total_size(drive.top_dirs@),
        report.summary.safe_deletable_bytes <= report.summary.low_risk_bytes,
{
    let dirs = drive.top_dirs@;
    assert(dirs.len() == drive.top_dirs.len());
    lemma_summary_sums(dirs);
    lemma_sums_bounded(dirs, default_rule_views());
}

} // verus!
