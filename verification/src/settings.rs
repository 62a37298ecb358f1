//! The application settings as they are stored: one `key = value` text row
//! per setting. This module holds every setting that is not a fraction, how
//! a stored row updates it, and the rows it is stored under; the thresholds
//! and scoring weights are fractions and are kept by the caller, under the
//! keys `is_fraction_key` names.
use vstd::prelude::*;
use crate::report::bool_text;
use crate::text::{
    all_digits, chars_of, decimal, digit_char, digits_value, is_digit, owned, parse_u64, parses_as_u64, str_eq, u64_digits, u64_to_string, lemma_digits_value_push,
};

verus! {

/// The settings that are not fractions.
#[derive(Debug, Clone)]
pub struct BaseSettings {
    pub default_drive: String,
    pub scan_mode: String,
    pub auto_scan_on_startup: bool,
    pub auto_monitor_on_startup: bool,
    pub watcher_poll_interval_ms: u64,
    pub watcher_debounce_ms: u64,
    pub alert_enabled: bool,
    pub alert_threshold_type: String,
    pub alert_growth_enabled: bool,
    pub alert_growth_minutes: u64,
    pub auto_cleanup_enabled: bool,
    pub auto_cleanup_frequency: String,
    pub auto_cleanup_time: String,
    pub auto_cleanup_risk_levels: String,
    pub language: String,
    pub theme: String,
    pub update_check_enabled: bool,
    pub duplicate_min_size_bytes: u64,
    pub aging_zombie_days: u64,
}

/// The settings as values: the texts as character sequences.
pub struct SettingsView {
    pub default_drive: Seq<char>,
    pub scan_mode: Seq<char>,
    pub auto_scan_on_startup: bool,
    pub auto_monitor_on_startup: bool,
    pub watcher_poll_interval_ms: u64,
    pub watcher_debounce_ms: u64,
    pub alert_enabled: bool,
    pub alert_threshold_type: Seq<char>,
    pub alert_growth_enabled: bool,
    pub alert_growth_minutes: u64,
    pub auto_cleanup_enabled: bool,
    pub auto_cleanup_frequency: Seq<char>,
    pub auto_cleanup_time: Seq<char>,
    pub auto_cleanup_risk_levels: Seq<char>,
    pub language: Seq<char>,
    pub theme: Seq<char>,
    pub update_check_enabled: bool,
    pub duplicate_min_size_bytes: u64,
    pub aging_zombie_days: u64,
}

impl View for BaseSettings {
    type V = SettingsView;

    open spec fn view(&self) -> SettingsView {
        SettingsView {
            default_drive: self.default_drive@,
            scan_mode: self.scan_mode@,
            auto_scan_on_startup: self.auto_scan_on_startup,
            auto_monitor_on_startup: self.auto_monitor_on_startup,
            watcher_poll_interval_ms: self.watcher_poll_interval_ms,
            watcher_debounce_ms: self.watcher_debounce_ms,
            alert_enabled: self.alert_enabled,
            alert_threshold_type: self.alert_threshold_type@,
            alert_growth_enabled: self.alert_growth_enabled,
            alert_growth_minutes: self.alert_growth_minutes,
            auto_cleanup_enabled: self.auto_cleanup_enabled,
            auto_cleanup_frequency: self.auto_cleanup_frequency@,
            auto_cleanup_time: self.auto_cleanup_time@,
            auto_cleanup_risk_levels: self.auto_cleanup_risk_levels@,
            language: self.language@,
            theme: self.theme@,
            update_check_enabled: self.update_check_enabled,
            duplicate_min_size_bytes: self.duplicate_min_size_bytes,
            aging_zombie_days: self.aging_zombie_days,
        }
    }
}

/// The settings of a fresh installation.
pub open spec fn default_settings() -> SettingsView {
    SettingsView {
        default_drive: "C"@,
        scan_mode: "exact"@,
        auto_scan_on_startup: false,
        auto_monitor_on_startup: false,
        watcher_poll_interval_ms: 2000,
        watcher_debounce_ms: 1500,
        alert_enabled: false,
        alert_threshold_type: "percentage"@,
        alert_growth_enabled: false,
        alert_growth_minutes: 15,
        auto_cleanup_enabled: false,
        auto_cleanup_frequency: "weekly"@,
        auto_cleanup_time: "03:00"@,
        auto_cleanup_risk_levels: "low"@,
        language: "auto"@,
        theme: "auto"@,
        update_check_enabled: true,
        duplicate_min_size_bytes: 1048576,
        aging_zombie_days: 180,
    }
}

impl Default for BaseSettings {
    fn default() -> (r: BaseSettings)
        ensures
            r@ == default_settings(),
    {
        BaseSettings {
            default_drive: owned("C"),
            scan_mode: owned("exact"),
            auto_scan_on_startup: false,
            auto_monitor_on_startup: false,
            watcher_poll_interval_ms: 2000,
            watcher_debounce_ms: 1500,
            alert_enabled: false,
            alert_threshold_type: owned("percentage"),
            alert_growth_enabled: false,
            alert_growth_minutes: 15,
            auto_cleanup_enabled: false,
            auto_cleanup_frequency: owned("weekly"),
            auto_cleanup_time: owned("03:00"),
            auto_cleanup_risk_levels: owned("low"),
            language: owned("auto"),
            theme: owned("auto"),
            update_check_enabled: true,
            duplicate_min_size_bytes: 1048576,
            aging_zombie_days: 180,
        }
    }
}

/// The keys of the settings held as fractions.
pub open spec fn fraction_key(key: Seq<char>) -> bool {
    ||| key == "alert_threshold_value"@
    ||| key == "alert_growth_percent"@
    ||| key == "auto_cleanup_min_free_gb"@
    ||| key == "scoring_weight_risk"@
    ||| key == "scoring_weight_age"@
    ||| key == "scoring_weight_duplicate"@
    ||| key == "scoring_weight_size"@
    ||| key == "scoring_weight_safety"@
    ||| key == "scoring_weight_urgency"@
    ||| key == "scoring_weight_pattern"@
}

/// Whether `key` names a setting held as a fraction.
pub fn is_fraction_key(key: &str) -> (r: bool)
    ensures
        r == fraction_key(key@),
{
    str_eq(key, "alert_threshold_value") || str_eq(key, "alert_growth_percent") || str_eq(
        key,
        "auto_cleanup_min_free_gb",
    ) || str_eq(key, "scoring_weight_risk") || str_eq(key, "scoring_weight_age") || str_eq(
        key,
        "scoring_weight_duplicate",
    ) || str_eq(key, "scoring_weight_size") || str_eq(key, "scoring_weight_safety") || str_eq(
        key,
        "scoring_weight_urgency",
    ) || str_eq(key, "scoring_weight_pattern")
}

/// The keys of the settings held here.
pub open spec fn base_key(key: Seq<char>) -> bool {
    ||| key == "default_drive"@
    ||| key == "scan_mode"@
    ||| key == "auto_scan_on_startup"@
    ||| key == "auto_monitor_on_startup"@
    ||| key == "watcher_poll_interval_ms"@
    ||| key == "watcher_debounce_ms"@
    ||| key == "alert_enabled"@
    ||| key == "alert_threshold_type"@
    ||| key == "alert_growth_enabled"@
    ||| key == "alert_growth_minutes"@
    ||| key == "auto_cleanup_enabled"@
    ||| key == "auto_cleanup_frequency"@
    ||| key == "auto_cleanup_time"@
    ||| key == "auto_cleanup_risk_levels"@
    ||| key == "language"@
    ||| key == "theme"@
    ||| key == "update_check_enabled"@
    ||| key == "duplicate_min_size_bytes"@
    ||| key == "aging_zombie_days"@
}

/// A stored number: its value where the text parses as a `u64`, else the
/// setting's present value.
pub open spec fn parsed_or(value: Seq<char>, present: u64) -> u64 {
    if parses_as_u64(value) {
        digits_value(u64_digits(value)) as u64
    } else {
        present
    }
}

/// A stored scan mode: `speed`, or `exact` for any other text.
pub open spec fn scan_mode_of(value: Seq<char>) -> Seq<char> {
    if value == "speed"@ {
        "speed"@
    } else {
        "exact"@
    }
}

/// The settings after the stored row `key = value`: text settings take the
/// text, switches are on exactly for `true`, numbers take the value where it
/// parses, the scan mode is `speed` or `exact`; any other key changes nothing.
pub open spec fn applied(v: SettingsView, key: Seq<char>, value: Seq<char>) -> SettingsView {
    if key == "default_drive"@ {
        SettingsView { default_drive: value, ..v }
    } else if key == "scan_mode"@ {
        SettingsView { scan_mode: scan_mode_of(value), ..v }
    } else if key == "auto_scan_on_startup"@ {
        SettingsView { auto_scan_on_startup: value == "true"@, ..v }
    } else if key == "auto_monitor_on_startup"@ {
        SettingsView { auto_monitor_on_startup: value == "true"@, ..v }
    } else if key == "watcher_poll_interval_ms"@ {
        SettingsView { watcher_poll_interval_ms: parsed_or(value, v.watcher_poll_interval_ms), ..v }
    } else if key == "watcher_debounce_ms"@ {
        SettingsView { watcher_debounce_ms: parsed_or(value, v.watcher_debounce_ms), ..v }
    } else if key == "alert_enabled"@ {
        SettingsView { alert_enabled: value == "true"@, ..v }
    } else if key == "alert_threshold_type"@ {
        SettingsView { alert_threshold_type: value, ..v }
    } else if key == "alert_growth_enabled"@ {
        SettingsView { alert_growth_enabled: value == "true"@, ..v }
    } else if key == "alert_growth_minutes"@ {
        SettingsView { alert_growth_minutes: parsed_or(value, v.alert_growth_minutes), ..v }
    } else if key == "auto_cleanup_enabled"@ {
        SettingsView { auto_cleanup_enabled: value == "true"@, ..v }
    } else if key == "auto_cleanup_frequency"@ {
        SettingsView { auto_cleanup_frequency: value, ..v }
    } else if key == "auto_cleanup_time"@ {
        SettingsView { auto_cleanup_time: value, ..v }
    } else if key == "auto_cleanup_risk_levels"@ {
        SettingsView { auto_cleanup_risk_levels: value, ..v }
    } else if key == "language"@ {
        SettingsView { language: value, ..v }
    } else if key == "theme"@ {
        SettingsView { theme: value, ..v }
    } else if key == "update_check_enabled"@ {
        SettingsView { update_check_enabled: value == "true"@, ..v }
    } else if key == "duplicate_min_size_bytes"@ {
        SettingsView { duplicate_min_size_bytes: parsed_or(value, v.duplicate_min_size_bytes), ..v }
    } else if key == "aging_zombie_days"@ {
        SettingsView { aging_zombie_days: parsed_or(value, v.aging_zombie_days), ..v }
    } else {
        v
    }
}

fn parsed_u64_or(value: &str, present: u64) -> (r: u64)
    ensures
        r == parsed_or(value@, present),
{
    let cs = chars_of(value);
    match parse_u64(cs.as_slice()) {
        Some(n) => n,
        None => present,
    }
}

/// Apply one stored settings row; tells whether the key is one of the
/// settings held here (a fraction key or an unknown key changes nothing).
pub fn apply_setting(settings: &mut BaseSettings, key: &str, value: String) -> (handled: bool)
    ensures
        final(settings)@ == applied(old(settings)@, key@, value@),
        handled == base_key(key@),
{
    let on = str_eq(value.as_str(), "true");
    if str_eq(key, "default_drive") {
        settings.default_drive = value;
    } else if str_eq(key, "scan_mode") {
        settings.scan_mode = if str_eq(value.as_str(), "speed") {
            owned("speed")
        } else {
            owned("exact")
        };
    } else if str_eq(key, "auto_scan_on_startup") {
        settings.auto_scan_on_startup = on;
    } else if str_eq(key, "auto_monitor_on_startup") {
        settings.auto_monitor_on_startup = on;
    } else if str_eq(key, "watcher_poll_interval_ms") {
        settings.watcher_poll_interval_ms = parsed_u64_or(value.as_str(), settings.watcher_poll_interval_ms);
    } else if str_eq(key, "watcher_debounce_ms") {
        settings.watcher_debounce_ms = parsed_u64_or(value.as_str(), settings.watcher_debounce_ms);
    } else if str_eq(key, "alert_enabled") {
        settings.alert_enabled = on;
    } else if str_eq(key, "alert_threshold_type") {
        settings.alert_threshold_type = value;
    } else if str_eq(key, "alert_growth_enabled") {
        settings.alert_growth_enabled = on;
    } else if str_eq(key, "alert_growth_minutes") {
        settings.alert_growth_minutes = parsed_u64_or(value.as_str(), settings.alert_growth_minutes);
    } else if str_eq(key, "auto_cleanup_enabled") {
        settings.auto_cleanup_enabled = on;
    } else if str_eq(key, "auto_cleanup_frequency") {
        settings.auto_cleanup_frequency = value;
    } else if str_eq(key, "auto_cleanup_time") {
        settings.auto_cleanup_time = value;
    } else if str_eq(key, "auto_cleanup_risk_levels") {
        settings.auto_cleanup_risk_levels = value;
    } else if str_eq(key, "language") {
        settings.language = value;
    } else if str_eq(key, "theme") {
        settings.theme = value;
    } else if str_eq(key, "update_check_enabled") {
        settings.update_check_enabled = on;
    } else if str_eq(key, "duplicate_min_size_bytes") {
        settings.duplicate_min_size_bytes = parsed_u64_or(value.as_str(), settings.duplicate_min_size_bytes);
    } else if str_eq(key, "aging_zombie_days") {
        settings.aging_zombie_days = parsed_u64_or(value.as_str(), settings.aging_zombie_days);
    } else {
        return false;
    }
    true
}

/// The rows the settings are stored under, in order.
pub open spec fn rows_of(v: SettingsView) -> Seq<(Seq<char>, Seq<char>)> {
    seq![
        ("default_drive"@, v.default_drive),
        ("scan_mode"@, v.scan_mode),
        ("auto_scan_on_startup"@, bool_text(v.auto_scan_on_startup)),
        ("auto_monitor_on_startup"@, bool_text(v.auto_monitor_on_startup)),
        ("watcher_poll_interval_ms"@, decimal(v.watcher_poll_interval_ms as nat)),
        ("watcher_debounce_ms"@, decimal(v.watcher_debounce_ms as nat)),
        ("alert_enabled"@, bool_text(v.alert_enabled)),
        ("alert_threshold_type"@, v.alert_threshold_type),
        ("alert_growth_enabled"@, bool_text(v.alert_growth_enabled)),
        ("alert_growth_minutes"@, decimal(v.alert_growth_minutes as nat)),
        ("auto_cleanup_enabled"@, bool_text(v.auto_cleanup_enabled)),
        ("auto_cleanup_frequency"@, v.auto_cleanup_frequency),
        ("auto_cleanup_time"@, v.auto_cleanup_time),
        ("auto_cleanup_risk_levels"@, v.auto_cleanup_risk_levels),
        ("language"@, v.language),
        ("theme"@, v.theme),
        ("update_check_enabled"@, bool_text(v.update_check_enabled)),
        ("duplicate_min_size_bytes"@, decimal(v.duplicate_min_size_bytes as nat)),
        ("aging_zombie_days"@, decimal(v.aging_zombie_days as nat)),
    ]
}

pub open spec fn row_views(rows: Seq<(String, String)>) -> Seq<(Seq<char>, Seq<char>)> {
    rows.map_values(|r: (String, String)| (r.0@, r.1@))
}

fn bool_string(b: bool) -> (r: String)
    ensures
        r@ == bool_text(b),
{
    if b {
        owned("true")
    } else {
        owned("false")
    }
}

fn push_row(rows: &mut Vec<(String, String)>, key: &str, value: String)
    ensures
        row_views(final(rows)@) == row_views(old(rows)@).push((key@, value@)),
{
    rows.push((owned(key), value));
    assert(row_views(final(rows)@) =~= row_views(old(rows)@).push((key@, value@)));
}

/// The rows under which the settings held here are stored.
pub fn base_rows(settings: &BaseSettings) -> (r: Vec<(String, String)>)
    ensures
        row_views(r@) == rows_of(settings@),
{
    let mut rows: Vec<(String, String)> = Vec::new();
    assert(row_views(rows@) =~= Seq::<(Seq<char>, Seq<char>)>::empty());
    push_row(&mut rows, "default_drive", settings.default_drive.clone());
    push_row(&mut rows, "scan_mode", settings.scan_mode.clone());
    push_row(&mut rows, "auto_scan_on_startup", bool_string(settings.auto_scan_on_startup));
    push_row(&mut rows, "auto_monitor_on_startup", bool_string(settings.auto_monitor_on_startup));
    push_row(&mut rows, "watcher_poll_interval_ms", u64_to_string(settings.watcher_poll_interval_ms));
    push_row(&mut rows, "watcher_debounce_ms", u64_to_string(settings.watcher_debounce_ms));
    push_row(&mut rows, "alert_enabled", bool_string(settings.alert_enabled));
    push_row(&mut rows, "alert_threshold_type", settings.alert_threshold_type.clone());
    push_row(&mut rows, "alert_growth_enabled", bool_string(settings.alert_growth_enabled));
    push_row(&mut rows, "alert_growth_minutes", u64_to_string(settings.alert_growth_minutes));
    push_row(&mut rows, "auto_cleanup_enabled", bool_string(settings.auto_cleanup_enabled));
    push_row(&mut rows, "auto_cleanup_frequency", settings.auto_cleanup_frequency.clone());
    push_row(&mut rows, "auto_cleanup_time", settings.auto_cleanup_time.clone());
    push_row(&mut rows, "auto_cleanup_risk_levels", settings.auto_cleanup_risk_levels.clone());
    push_row(&mut rows, "language", settings.language.clone());
    push_row(&mut rows, "theme", settings.theme.clone());
    push_row(&mut rows, "update_check_enabled", bool_string(settings.update_check_enabled));
    push_row(&mut rows, "duplicate_min_size_bytes", u64_to_string(settings.duplicate_min_size_bytes));
    push_row(&mut rows, "aging_zombie_days", u64_to_string(settings.aging_zombie_days));
    assert(row_views(rows@) =~= rows_of(settings@));
    rows
}

/// The settings after the stored rows, in order.
pub open spec fn apply_rows(v: SettingsView, rows: Seq<(Seq<char>, Seq<char>)>) -> SettingsView
    decreases rows.len(),
{
    if rows.len() == 0 {
        v
    } else {
        let before = apply_rows(v, rows.drop_last());
        applied(before, rows.last().0, rows.last().1)
    }
}

proof fn lemma_decimal_parses(n: nat)
    ensures
        all_digits(decimal(n)),
        decimal(n).len() > 0,
        decimal(n)[0] != '+',
        digits_value(decimal(n)) == n,
    decreases n,
{
    let c = digit_char(n % 10);
    assert((c as u32) as int - 48 == n % 10);
    if n < 10 {
        assert(decimal(n) =~= Seq::<char>::empty().push(c));
        lemma_digits_value_push(Seq::<char>::empty(), c);
    } else {
        lemma_decimal_parses(n / 10);
        let d = decimal(n / 10);
        assert(decimal(n) == d.push(c));
        lemma_digits_value_push(d, c);
        assert forall|i: int| 0 <= i < decimal(n).len() implies is_digit(#[trigger] decimal(n)[i]) by {
            if i < d.len() {
                assert(decimal(n)[i] == d[i]);
            }
        }
    }
}

proof fn lemma_decimal_row(n: u64)
    ensures
        forall|present: u64| #[trigger] parsed_or(decimal(n as nat), present) == n,
{
    lemma_decimal_parses(n as nat);
}

proof fn lemma_bool_row(b: bool)
    ensures
        (bool_text(b) == "true"@) == b,
{
    reveal_strlit("true");
    reveal_strlit("false");
    assert("true"@.len() == 4);
    assert("false"@.len() == 5);
}

proof fn lemma_row_default_drive(x: SettingsView, value: Seq<char>)
    ensures
        applied(x, "default_drive"@, value) == (SettingsView { default_drive: value, ..x }),
{
    reveal_strlit("default_drive");
}

proof fn lemma_row_scan_mode(x: SettingsView, value: Seq<char>)
    ensures
        applied(x, "scan_mode"@, value) == (SettingsView { scan_mode: scan_mode_of(value), ..x }),
{
    reveal_strlit("default_drive");
    reveal_strlit("scan_mode");
    assert("default_drive"@.len() == 13);
    assert("scan_mode"@.len() == 9);
}

proof fn lemma_row_auto_scan_on_startup(x: SettingsView, value: Seq<char>)
    ensures
        applied(x, "auto_scan_on_startup"@, value) == (SettingsView { auto_scan_on_startup: value == "true"@, ..x }),
{
    reveal_strlit("default_drive");
    reveal_strlit("scan_mode");
    reveal_strlit("auto_scan_on_startup");
    assert("default_drive"@.len() == 13);
    assert("auto_scan_on_startup"@.len() == 20);
    assert("scan_mode"@.len() == 9);
}

proof fn lemma_row_auto_monitor_on_startup(x: SettingsView, value: Seq<char>)
    ensures
        applied(x, "auto_monitor_on_startup"@, value) == (SettingsView { auto_monitor_on_startup: value == "true"@, ..x }),
{
    reveal_strlit("default_drive");
    reveal_strlit("scan_mode");
    reveal_strlit("auto_scan_on_startup");
    reveal_strlit("auto_monitor_on_startup");
    assert("default_drive"@.len() == 13);
    assert("auto_monitor_on_startup"@.len() == 23);
    assert("scan_mode"@.len() == 9);
    assert("auto_scan_on_startup"@.len() == 20);
}

proof fn lemma_row_watcher_poll_interval_ms(x: SettingsView, value: Seq<char>)
    ensures
        applied(x, "watcher_poll_interval_ms"@, value) == (SettingsView { watcher_poll_interval_ms: parsed_or(value, x.watcher_poll_interval_ms), ..x }),
{
    reveal_strlit("default_drive");
    reveal_strlit("scan_mode");
    reveal_strlit("auto_scan_on_startup");
    reveal_strlit("auto_monitor_on_startup");
    reveal_strlit("watcher_poll_interval_ms");
    assert("default_drive"@.len() == 13);
    assert("watcher_poll_interval_ms"@.len() == 24);
    assert("scan_mode"@.len() == 9);
    assert("auto_scan_on_startup"@.len() == 20);
    assert("auto_monitor_on_startup"@.len() == 23);
}

proof fn lemma_row_watcher_debounce_ms(x: SettingsView, value: Seq<char>)
    ensures
        applied(x, "watcher_debounce_ms"@, value) == (SettingsView { watcher_debounce_ms: parsed_or(value, x.watcher_debounce_ms), ..x }),
{
    reveal_strlit("default_drive");
    reveal_strlit("scan_mode");
    reveal_strlit("auto_scan_on_startup");
    reveal_strlit("auto_monitor_on_startup");
    reveal_strlit("watcher_poll_interval_ms");
    reveal_strlit("watcher_debounce_ms");
    assert("default_drive"@.len() == 13);
    assert("watcher_debounce_ms"@.len() == 19);
    assert("scan_mode"@.len() == 9);
    assert("auto_scan_on_startup"@.len() == 20);
    assert("auto_monitor_on_startup"@.len() == 23);
    assert("watcher_poll_interval_ms"@.len() == 24);
}

proof fn lemma_row_alert_enabled(x: SettingsView, value: Seq<char>)
    ensures
        applied(x, "alert_enabled"@, value) == (SettingsView { alert_enabled: value == "true"@, ..x }),
{
    reveal_strlit("default_drive");
    reveal_strlit("scan_mode");
    reveal_strlit("auto_scan_on_startup");
    reveal_strlit("auto_monitor_on_startup");
    reveal_strlit("watcher_poll_interval_ms");
    reveal_strlit("watcher_debounce_ms");
    reveal_strlit("alert_enabled");
    assert("default_drive"@[0] == 'd');
    assert("alert_enabled"@[0] == 'a');
    assert("scan_mode"@.len() == 9);
    assert("alert_enabled"@.len() == 13);
    assert("auto_scan_on_startup"@.len() == 20);
    assert("auto_monitor_on_startup"@.len() == 23);
    assert("watcher_poll_interval_ms"@.len() == 24);
    assert("watcher_debounce_ms"@.len() == 19);
}

proof fn lemma_row_alert_threshold_type(x: SettingsView, value: Seq<char>)
    ensures
        applied(x, "alert_threshold_type"@, value) == (SettingsView { alert_threshold_type: value, ..x }),
{
    reveal_strlit("default_drive");
    reveal_strlit("scan_mode");
    reveal_strlit("auto_scan_on_startup");
    reveal_strlit("auto_monitor_on_startup");
    reveal_strlit("watcher_poll_interval_ms");
    reveal_strlit("watcher_debounce_ms");
    reveal_strlit("alert_enabled");
    reveal_strlit("alert_threshold_type");
    assert("default_drive"@.len() == 13);
    assert("alert_threshold_type"@.len() == 20);
    assert("scan_mode"@.len() == 9);
    assert("auto_scan_on_startup"@[1] == 'u');
    assert("alert_threshold_type"@[1] == 'l');
    assert("auto_monitor_on_startup"@.len() == 23);
    assert("watcher_poll_interval_ms"@.len() == 24);
    assert("watcher_debounce_ms"@.len() == 19);
    assert("alert_enabled"@.len() == 13);
}

proof fn lemma_row_alert_growth_enabled(x: SettingsView, value: Seq<char>)
    ensures
        applied(x, "alert_growth_enabled"@, value) == (SettingsView { alert_growth_enabled: value == "true"@, ..x }),
{
    reveal_strlit("default_drive");
    reveal_strlit("scan_mode");
    reveal_strlit("auto_scan_on_startup");
    reveal_strlit("auto_monitor_on_startup");
    reveal_strlit("watcher_poll_interval_ms");
    reveal_strlit("watcher_debounce_ms");
    reveal_strlit("alert_enabled");
    reveal_strlit("alert_threshold_type");
    reveal_strlit("alert_growth_enabled");
    assert("default_drive"@.len() == 13);
    assert("alert_growth_enabled"@.len() == 20);
    assert("scan_mode"@.len() == 9);
    assert("auto_scan_on_startup"@[1] == 'u');
    assert("alert_growth_enabled"@[1] == 'l');
    assert("auto_monitor_on_startup"@.len() == 23);
    assert("watcher_poll_interval_ms"@.len() == 24);
    assert("watcher_debounce_ms"@.len() == 19);
    assert("alert_enabled"@.len() == 13);
    assert("alert_threshold_type"@[6] == 't');
    assert("alert_growth_enabled"@[6] == 'g');
}

proof fn lemma_row_alert_growth_minutes(x: SettingsView, value: Seq<char>)
    ensures
        applied(x, "alert_growth_minutes"@, value) == (SettingsView { alert_growth_minutes: parsed_or(value, x.alert_growth_minutes), ..x }),
{
    reveal_strlit("default_drive");
    reveal_strlit("scan_mode");
    reveal_strlit("auto_scan_on_startup");
    reveal_strlit("auto_monitor_on_startup");
    reveal_strlit("watcher_poll_interval_ms");
    reveal_strlit("watcher_debounce_ms");
    reveal_strlit("alert_enabled");
    reveal_strlit("alert_threshold_type");
    reveal_strlit("alert_growth_enabled");
    reveal_strlit("alert_growth_minutes");
    assert("default_drive"@.len() == 13);
    assert("alert_growth_minutes"@.len() == 20);
    assert("scan_mode"@.len() == 9);
    assert("auto_scan_on_startup"@[1] == 'u');
    assert("alert_growth_minutes"@[1] == 'l');
    assert("auto_monitor_on_startup"@.len() == 23);
    assert("watcher_poll_interval_ms"@.len() == 24);
    assert("watcher_debounce_ms"@.len() == 19);
    assert("alert_enabled"@.len() == 13);
    assert("alert_threshold_type"@[6] == 't');
    assert("alert_growth_minutes"@[6] == 'g');
    assert("alert_growth_enabled"@[13] == 'e');
    assert("alert_growth_minutes"@[13] == 'm');
}

proof fn lemma_row_auto_cleanup_enabled(x: SettingsView, value: Seq<char>)
    ensures
        applied(x, "auto_cleanup_enabled"@, value) == (SettingsView { auto_cleanup_enabled: value == "true"@, ..x }),
{
    reveal_strlit("default_drive");
    reveal_strlit("scan_mode");
    reveal_strlit("auto_scan_on_startup");
    reveal_strlit("auto_monitor_on_startup");
    reveal_strlit("watcher_poll_interval_ms");
    reveal_strlit("watcher_debounce_ms");
    reveal_strlit("alert_enabled");
    reveal_strlit("alert_threshold_type");
    reveal_strlit("alert_growth_enabled");
    reveal_strlit("alert_growth_minutes");
    reveal_strlit("auto_cleanup_enabled");
    assert("default_drive"@.len() == 13);
    assert("auto_cleanup_enabled"@.len() == 20);
    assert("scan_mode"@.len() == 9);
    assert("auto_scan_on_startup"@[5] == 's');
    assert("auto_cleanup_enabled"@[5] == 'c');
    assert("auto_monitor_on_startup"@.len() == 23);
    assert("watcher_poll_interval_ms"@.len() == 24);
    assert("watcher_debounce_ms"@.len() == 19);
    assert("alert_enabled"@.len() == 13);
    assert("alert_threshold_type"@[1] == 'l');
    assert("auto_cleanup_enabled"@[1] == 'u');
    assert("alert_growth_enabled"@[1] == 'l');
    assert("alert_growth_minutes"@[1] == 'l');
}

proof fn lemma_row_auto_cleanup_frequency(x: SettingsView, value: Seq<char>)
    ensures
        applied(x, "auto_cleanup_frequency"@, value) == (SettingsView { auto_cleanup_frequency: value, ..x }),
{
    reveal_strlit("default_drive");
    reveal_strlit("scan_mode");
    reveal_strlit("auto_scan_on_startup");
    reveal_strlit("auto_monitor_on_startup");
    reveal_strlit("watcher_poll_interval_ms");
    reveal_strlit("watcher_debounce_ms");
    reveal_strlit("alert_enabled");
    reveal_strlit("alert_threshold_type");
    reveal_strlit("alert_growth_enabled");
    reveal_strlit("alert_growth_minutes");
    reveal_strlit("auto_cleanup_enabled");
    reveal_strlit("auto_cleanup_frequency");
    assert("default_drive"@.len() == 13);
    assert("auto_cleanup_frequency"@.len() == 22);
    assert("scan_mode"@.len() == 9);
    assert("auto_scan_on_startup"@.len() == 20);
    assert("auto_monitor_on_startup"@.len() == 23);
    assert("watcher_poll_interval_ms"@.len() == 24);
    assert("watcher_debounce_ms"@.len() == 19);
    assert("alert_enabled"@.len() == 13);
    assert("alert_threshold_type"@.len() == 20);
    assert("alert_growth_enabled"@.len() == 20);
    assert("alert_growth_minutes"@.len() == 20);
    assert("auto_cleanup_enabled"@.len() == 20);
}

proof fn lemma_row_auto_cleanup_time(x: SettingsView, value: Seq<char>)
    ensures
        applied(x, "auto_cleanup_time"@, value) == (SettingsView { auto_cleanup_time: value, ..x }),
{
    reveal_strlit("default_drive");
    reveal_strlit("scan_mode");
    reveal_strlit("auto_scan_on_startup");
    reveal_strlit("auto_monitor_on_startup");
    reveal_strlit("watcher_poll_interval_ms");
    reveal_strlit("watcher_debounce_ms");
    reveal_strlit("alert_enabled");
    reveal_strlit("alert_threshold_type");
    reveal_strlit("alert_growth_enabled");
    reveal_strlit("alert_growth_minutes");
    reveal_strlit("auto_cleanup_enabled");
    reveal_strlit("auto_cleanup_frequency");
    reveal_strlit("auto_cleanup_time");
    assert("default_drive"@.len() == 13);
    assert("auto_cleanup_time"@.len() == 17);
    assert("scan_mode"@.len() == 9);
    assert("auto_scan_on_startup"@.len() == 20);
    assert("auto_monitor_on_startup"@.len() == 23);
    assert("watcher_poll_interval_ms"@.len() == 24);
    assert("watcher_debounce_ms"@.len() == 19);
    assert("alert_enabled"@.len() == 13);
    assert("alert_threshold_type"@.len() == 20);
    assert("alert_growth_enabled"@.len() == 20);
    assert("alert_growth_minutes"@.len() == 20);
    assert("auto_cleanup_enabled"@.len() == 20);
    assert("auto_cleanup_frequency"@.len() == 22);
}

proof fn lemma_row_auto_cleanup_risk_levels(x: SettingsView, value: Seq<char>)
    ensures
        applied(x, "auto_cleanup_risk_levels"@, value) == (SettingsView { auto_cleanup_risk_levels: value, ..x }),
{
    reveal_strlit("default_drive");
    reveal_strlit("scan_mode");
    reveal_strlit("auto_scan_on_startup");
    reveal_strlit("auto_monitor_on_startup");
    reveal_strlit("watcher_poll_interval_ms");
    reveal_strlit("watcher_debounce_ms");
    reveal_strlit("alert_enabled");
    reveal_strlit("alert_threshold_type");
    reveal_strlit("alert_growth_enabled");
    reveal_strlit("alert_growth_minutes");
    reveal_strlit("auto_cleanup_enabled");
    reveal_strlit("auto_cleanup_frequency");
    reveal_strlit("auto_cleanup_time");
    reveal_strlit("auto_cleanup_risk_levels");
    assert("default_drive"@.len() == 13);
    assert("auto_cleanup_risk_levels"@.len() == 24);
    assert("scan_mode"@.len() == 9);
    assert("auto_scan_on_startup"@.len() == 20);
    assert("auto_monitor_on_startup"@.len() == 23);
    assert("watcher_poll_interval_ms"@[0] == 'w');
    assert("auto_cleanup_risk_levels"@[0] == 'a');
    assert("watcher_debounce_ms"@.len() == 19);
    assert("alert_enabled"@.len() == 13);
    assert("alert_threshold_type"@.len() == 20);
    assert("alert_growth_enabled"@.len() == 20);
    assert("alert_growth_minutes"@.len() == 20);
    assert("auto_cleanup_enabled"@.len() == 20);
    assert("auto_cleanup_frequency"@.len() == 22);
    assert("auto_cleanup_time"@.len() == 17);
}

proof fn lemma_row_language(x: SettingsView, value: Seq<char>)
    ensures
        applied(x, "language"@, value) == (SettingsView { language: value, ..x }),
{
    reveal_strlit("default_drive");
    reveal_strlit("scan_mode");
    reveal_strlit("auto_scan_on_startup");
    reveal_strlit("auto_monitor_on_startup");
    reveal_strlit("watcher_poll_interval_ms");
    reveal_strlit("watcher_debounce_ms");
    reveal_strlit("alert_enabled");
    reveal_strlit("alert_threshold_type");
    reveal_strlit("alert_growth_enabled");
    reveal_strlit("alert_growth_minutes");
    reveal_strlit("auto_cleanup_enabled");
    reveal_strlit("auto_cleanup_frequency");
    reveal_strlit("auto_cleanup_time");
    reveal_strlit("auto_cleanup_risk_levels");
    reveal_strlit("language");
    assert("default_drive"@.len() == 13);
    assert("language"@.len() == 8);
    assert("scan_mode"@.len() == 9);
    assert("auto_scan_on_startup"@.len() == 20);
    assert("auto_monitor_on_startup"@.len() == 23);
    assert("watcher_poll_interval_ms"@.len() == 24);
    assert("watcher_debounce_ms"@.len() == 19);
    assert("alert_enabled"@.len() == 13);
    assert("alert_threshold_type"@.len() == 20);
    assert("alert_growth_enabled"@.len() == 20);
    assert("alert_growth_minutes"@.len() == 20);
    assert("auto_cleanup_enabled"@.len() == 20);
    assert("auto_cleanup_frequency"@.len() == 22);
    assert("auto_cleanup_time"@.len() == 17);
    assert("auto_cleanup_risk_levels"@.len() == 24);
}

proof fn lemma_row_theme(x: SettingsView, value: Seq<char>)
    ensures
        applied(x, "theme"@, value) == (SettingsView { theme: value, ..x }),
{
    reveal_strlit("default_drive");
    reveal_strlit("scan_mode");
    reveal_strlit("auto_scan_on_startup");
    reveal_strlit("auto_monitor_on_startup");
    reveal_strlit("watcher_poll_interval_ms");
    reveal_strlit("watcher_debounce_ms");
    reveal_strlit("alert_enabled");
    reveal_strlit("alert_threshold_type");
    reveal_strlit("alert_growth_enabled");
    reveal_strlit("alert_growth_minutes");
    reveal_strlit("auto_cleanup_enabled");
    reveal_strlit("auto_cleanup_frequency");
    reveal_strlit("auto_cleanup_time");
    reveal_strlit("auto_cleanup_risk_levels");
    reveal_strlit("language");
    reveal_strlit("theme");
    assert("default_drive"@.len() == 13);
    assert("theme"@.len() == 5);
    assert("scan_mode"@.len() == 9);
    assert("auto_scan_on_startup"@.len() == 20);
    assert("auto_monitor_on_startup"@.len() == 23);
    assert("watcher_poll_interval_ms"@.len() == 24);
    assert("watcher_debounce_ms"@.len() == 19);
    assert("alert_enabled"@.len() == 13);
    assert("alert_threshold_type"@.len() == 20);
    assert("alert_growth_enabled"@.len() == 20);
    assert("alert_growth_minutes"@.len() == 20);
    assert("auto_cleanup_enabled"@.len() == 20);
    assert("auto_cleanup_frequency"@.len() == 22);
    assert("auto_cleanup_time"@.len() == 17);
    assert("auto_cleanup_risk_levels"@.len() == 24);
    assert("language"@.len() == 8);
}

proof fn lemma_row_update_check_enabled(x: SettingsView, value: Seq<char>)
    ensures
        applied(x, "update_check_enabled"@, value) == (SettingsView { update_check_enabled: value == "true"@, ..x }),
{
    reveal_strlit("default_drive");
    reveal_strlit("scan_mode");
    reveal_strlit("auto_scan_on_startup");
    reveal_strlit("auto_monitor_on_startup");
    reveal_strlit("watcher_poll_interval_ms");
    reveal_strlit("watcher_debounce_ms");
    reveal_strlit("alert_enabled");
    reveal_strlit("alert_threshold_type");
    reveal_strlit("alert_growth_enabled");
    reveal_strlit("alert_growth_minutes");
    reveal_strlit("auto_cleanup_enabled");
    reveal_strlit("auto_cleanup_frequency");
    reveal_strlit("auto_cleanup_time");
    reveal_strlit("auto_cleanup_risk_levels");
    reveal_strlit("language");
    reveal_strlit("theme");
    reveal_strlit("update_check_enabled");
    assert("default_drive"@.len() == 13);
    assert("update_check_enabled"@.len() == 20);
    assert("scan_mode"@.len() == 9);
    assert("auto_scan_on_startup"@[0] == 'a');
    assert("update_check_enabled"@[0] == 'u');
    assert("auto_monitor_on_startup"@.len() == 23);
    assert("watcher_poll_interval_ms"@.len() == 24);
    assert("watcher_debounce_ms"@.len() == 19);
    assert("alert_enabled"@.len() == 13);
    assert("alert_threshold_type"@[0] == 'a');
    assert("alert_growth_enabled"@[0] == 'a');
    assert("alert_growth_minutes"@[0] == 'a');
    assert("auto_cleanup_enabled"@[0] == 'a');
    assert("auto_cleanup_frequency"@.len() == 22);
    assert("auto_cleanup_time"@.len() == 17);
    assert("auto_cleanup_risk_levels"@.len() == 24);
    assert("language"@.len() == 8);
    assert("theme"@.len() == 5);
}

proof fn lemma_row_duplicate_min_size_bytes(x: SettingsView, value: Seq<char>)
    ensures
        applied(x, "duplicate_min_size_bytes"@, value) == (SettingsView { duplicate_min_size_bytes: parsed_or(value, x.duplicate_min_size_bytes), ..x }),
{
    reveal_strlit("default_drive");
    reveal_strlit("scan_mode");
    reveal_strlit("auto_scan_on_startup");
    reveal_strlit("auto_monitor_on_startup");
    reveal_strlit("watcher_poll_interval_ms");
    reveal_strlit("watcher_debounce_ms");
    reveal_strlit("alert_enabled");
    reveal_strlit("alert_threshold_type");
    reveal_strlit("alert_growth_enabled");
    reveal_strlit("alert_growth_minutes");
    reveal_strlit("auto_cleanup_enabled");
    reveal_strlit("auto_cleanup_frequency");
    reveal_strlit("auto_cleanup_time");
    reveal_strlit("auto_cleanup_risk_levels");
    reveal_strlit("language");
    reveal_strlit("theme");
    reveal_strlit("update_check_enabled");
    reveal_strlit("duplicate_min_size_bytes");
    assert("default_drive"@.len() == 13);
    assert("duplicate_min_size_bytes"@.len() == 24);
    assert("scan_mode"@.len() == 9);
    assert("auto_scan_on_startup"@.len() == 20);
    assert("auto_monitor_on_startup"@.len() == 23);
    assert("watcher_poll_interval_ms"@[0] == 'w');
    assert("duplicate_min_size_bytes"@[0] == 'd');
    assert("watcher_debounce_ms"@.len() == 19);
    assert("alert_enabled"@.len() == 13);
    assert("alert_threshold_type"@.len() == 20);
    assert("alert_growth_enabled"@.len() == 20);
    assert("alert_growth_minutes"@.len() == 20);
    assert("auto_cleanup_enabled"@.len() == 20);
    assert("auto_cleanup_frequency"@.len() == 22);
    assert("auto_cleanup_time"@.len() == 17);
    assert("auto_cleanup_risk_levels"@[0] == 'a');
    assert("language"@.len() == 8);
    assert("theme"@.len() == 5);
    assert("update_check_enabled"@.len() == 20);
}

proof fn lemma_row_aging_zombie_days(x: SettingsView, value: Seq<char>)
    ensures
        applied(x, "aging_zombie_days"@, value) == (SettingsView { aging_zombie_days: parsed_or(value, x.aging_zombie_days), ..x }),
{
    reveal_strlit("default_drive");
    reveal_strlit("scan_mode");
    reveal_strlit("auto_scan_on_startup");
    reveal_strlit("auto_monitor_on_startup");
    reveal_strlit("watcher_poll_interval_ms");
    reveal_strlit("watcher_debounce_ms");
    reveal_strlit("alert_enabled");
    reveal_strlit("alert_threshold_type");
    reveal_strlit("alert_growth_enabled");
    reveal_strlit("alert_growth_minutes");
    reveal_strlit("auto_cleanup_enabled");
    reveal_strlit("auto_cleanup_frequency");
    reveal_strlit("auto_cleanup_time");
    reveal_strlit("auto_cleanup_risk_levels");
    reveal_strlit("language");
    reveal_strlit("theme");
    reveal_strlit("update_check_enabled");
    reveal_strlit("duplicate_min_size_bytes");
    reveal_strlit("aging_zombie_days");
    assert("default_drive"@.len() == 13);
    assert("aging_zombie_days"@.len() == 17);
    assert("scan_mode"@.len() == 9);
    assert("auto_scan_on_startup"@.len() == 20);
    assert("auto_monitor_on_startup"@.len() == 23);
    assert("watcher_poll_interval_ms"@.len() == 24);
    assert("watcher_debounce_ms"@.len() == 19);
    assert("alert_enabled"@.len() == 13);
    assert("alert_threshold_type"@.len() == 20);
    assert("alert_growth_enabled"@.len() == 20);
    assert("alert_growth_minutes"@.len() == 20);
    assert("auto_cleanup_enabled"@.len() == 20);
    assert("auto_cleanup_frequency"@.len() == 22);
    assert("auto_cleanup_time"@[1] == 'u');
    assert("aging_zombie_days"@[1] == 'g');
    assert("auto_cleanup_risk_levels"@.len() == 24);
    assert("language"@.len() == 8);
    assert("theme"@.len() == 5);
    assert("update_check_enabled"@.len() == 20);
    assert("duplicate_min_size_bytes"@.len() == 24);
}

/// Settings written to the store are read back as they were: applying, to
/// any settings, the rows that `base_rows` gives for `v` yields `v`. The scan
/// mode is read back as `speed` or `exact` only, so it holds for settings
/// whose scan mode is one of the two.
pub proof fn law_stored_settings_read_back(v: SettingsView, w: SettingsView)
    requires
        v.scan_mode == "speed"@ || v.scan_mode == "exact"@,
    ensures
        apply_rows(w, rows_of(v)) == v,
{
    let r = rows_of(v);
    assert(r.take(0) =~= Seq::<(Seq<char>, Seq<char>)>::empty());
    assert(r.take(1).drop_last() =~= r.take(0));
    assert(r.take(1).last() == r[0]);
    assert(r[0].0 == "default_drive"@);
    lemma_row_default_drive(apply_rows(w, r.take(0)), r[0].1);
    assert(apply_rows(w, r.take(1)) == applied(apply_rows(w, r.take(0)), "default_drive"@, r[0].1));
    assert(r.take(2).drop_last() =~= r.take(1));
    assert(r.take(2).last() == r[1]);
    assert(r[1].0 == "scan_mode"@);
    lemma_row_scan_mode(apply_rows(w, r.take(1)), r[1].1);
    assert(apply_rows(w, r.take(2)) == applied(apply_rows(w, r.take(1)), "scan_mode"@, r[1].1));
    assert(r.take(3).drop_last() =~= r.take(2));
    assert(r.take(3).last() == r[2]);
    assert(r[2].0 == "auto_scan_on_startup"@);
    lemma_row_auto_scan_on_startup(apply_rows(w, r.take(2)), r[2].1);
    assert(apply_rows(w, r.take(3)) == applied(apply_rows(w, r.take(2)), "auto_scan_on_startup"@, r[2].1));
    assert(r.take(4).drop_last() =~= r.take(3));
    assert(r.take(4).last() == r[3]);
    assert(r[3].0 == "auto_monitor_on_startup"@);
    lemma_row_auto_monitor_on_startup(apply_rows(w, r.take(3)), r[3].1);
    assert(apply_rows(w, r.take(4)) == applied(apply_rows(w, r.take(3)), "auto_monitor_on_startup"@, r[3].1));
    assert(r.take(5).drop_last() =~= r.take(4));
    assert(r.take(5).last() == r[4]);
    assert(r[4].0 == "watcher_poll_interval_ms"@);
    lemma_row_watcher_poll_interval_ms(apply_rows(w, r.take(4)), r[4].1);
    assert(apply_rows(w, r.take(5)) == applied(apply_rows(w, r.take(4)), "watcher_poll_interval_ms"@, r[4].1));
    assert(r.take(6).drop_last() =~= r.take(5));
    assert(r.take(6).last() == r[5]);
    assert(r[5].0 == "watcher_debounce_ms"@);
    lemma_row_watcher_debounce_ms(apply_rows(w, r.take(5)), r[5].1);
    assert(apply_rows(w, r.take(6)) == applied(apply_rows(w, r.take(5)), "watcher_debounce_ms"@, r[5].1));
    assert(r.take(7).drop_last() =~= r.take(6));
    assert(r.take(7).last() == r[6]);
    assert(r[6].0 == "alert_enabled"@);
    lemma_row_alert_enabled(apply_rows(w, r.take(6)), r[6].1);
    assert(apply_rows(w, r.take(7)) == applied(apply_rows(w, r.take(6)), "alert_enabled"@, r[6].1));
    assert(r.take(8).drop_last() =~= r.take(7));
    assert(r.take(8).last() == r[7]);
    assert(r[7].0 == "alert_threshold_type"@);
    lemma_row_alert_threshold_type(apply_rows(w, r.take(7)), r[7].1);
    assert(apply_rows(w, r.take(8)) == applied(apply_rows(w, r.take(7)), "alert_threshold_type"@, r[7].1));
    assert(r.take(9).drop_last() =~= r.take(8));
    assert(r.take(9).last() == r[8]);
    assert(r[8].0 == "alert_growth_enabled"@);
    lemma_row_alert_growth_enabled(apply_rows(w, r.take(8)), r[8].1);
    assert(apply_rows(w, r.take(9)) == applied(apply_rows(w, r.take(8)), "alert_growth_enabled"@, r[8].1));
    assert(r.take(10).drop_last() =~= r.take(9));
    assert(r.take(10).last() == r[9]);
    assert(r[9].0 == "alert_growth_minutes"@);
    lemma_row_alert_growth_minutes(apply_rows(w, r.take(9)), r[9].1);
    assert(apply_rows(w, r.take(10)) == applied(apply_rows(w, r.take(9)), "alert_growth_minutes"@, r[9].1));
    assert(r.take(11).drop_last() =~= r.take(10));
    assert(r.take(11).last() == r[10]);
    assert(r[10].0 == "auto_cleanup_enabled"@);
    lemma_row_auto_cleanup_enabled(apply_rows(w, r.take(10)), r[10].1);
    assert(apply_rows(w, r.take(11)) == applied(apply_rows(w, r.take(10)), "auto_cleanup_enabled"@, r[10].1));
    assert(r.take(12).drop_last() =~= r.take(11));
    assert(r.take(12).last() == r[11]);
    assert(r[11].0 == "auto_cleanup_frequency"@);
    lemma_row_auto_cleanup_frequency(apply_rows(w, r.take(11)), r[11].1);
    assert(apply_rows(w, r.take(12)) == applied(apply_rows(w, r.take(11)), "auto_cleanup_frequency"@, r[11].1));
    assert(r.take(13).drop_last() =~= r.take(12));
    assert(r.take(13).last() == r[12]);
    assert(r[12].0 == "auto_cleanup_time"@);
    lemma_row_auto_cleanup_time(apply_rows(w, r.take(12)), r[12].1);
    assert(apply_rows(w, r.take(13)) == applied(apply_rows(w, r.take(12)), "auto_cleanup_time"@, r[12].1));
    assert(r.take(14).drop_last() =~= r.take(13));
    assert(r.take(14).last() == r[13]);
    assert(r[13].0 == "auto_cleanup_risk_levels"@);
    lemma_row_auto_cleanup_risk_levels(apply_rows(w, r.take(13)), r[13].1);
    assert(apply_rows(w, r.take(14)) == applied(apply_rows(w, r.take(13)), "auto_cleanup_risk_levels"@, r[13].1));
    assert(r.take(15).drop_last() =~= r.take(14));
    assert(r.take(15).last() == r[14]);
    assert(r[14].0 == "language"@);
    lemma_row_language(apply_rows(w, r.take(14)), r[14].1);
    assert(apply_rows(w, r.take(15)) == applied(apply_rows(w, r.take(14)), "language"@, r[14].1));
    assert(r.take(16).drop_last() =~= r.take(15));
    assert(r.take(16).last() == r[15]);
    assert(r[15].0 == "theme"@);
    lemma_row_theme(apply_rows(w, r.take(15)), r[15].1);
    assert(apply_rows(w, r.take(16)) == applied(apply_rows(w, r.take(15)), "theme"@, r[15].1));
    assert(r.take(17).drop_last() =~= r.take(16));
    assert(r.take(17).last() == r[16]);
    assert(r[16].0 == "update_check_enabled"@);
    lemma_row_update_check_enabled(apply_rows(w, r.take(16)), r[16].1);
    assert(apply_rows(w, r.take(17)) == applied(apply_rows(w, r.take(16)), "update_check_enabled"@, r[16].1));
    assert(r.take(18).drop_last() =~= r.take(17));
    assert(r.take(18).last() == r[17]);
    assert(r[17].0 == "duplicate_min_size_bytes"@);
    lemma_row_duplicate_min_size_bytes(apply_rows(w, r.take(17)), r[17].1);
    assert(apply_rows(w, r.take(18)) == applied(apply_rows(w, r.take(17)), "duplicate_min_size_bytes"@, r[17].1));
    assert(r.take(19).drop_last() =~= r.take(18));
    assert(r.take(19).last() == r[18]);
    assert(r[18].0 == "aging_zombie_days"@);
    lemma_row_aging_zombie_days(apply_rows(w, r.take(18)), r[18].1);
    assert(apply_rows(w, r.take(19)) == applied(apply_rows(w, r.take(18)), "aging_zombie_days"@, r[18].1));
    assert(r.take(19) =~= r);
    reveal_strlit("speed");
    reveal_strlit("exact");
    assert("speed"@[0] == 's');
    assert("exact"@[0] == 'e');
    lemma_decimal_row(v.watcher_poll_interval_ms);
    lemma_decimal_row(v.watcher_debounce_ms);
    lemma_decimal_row(v.alert_growth_minutes);
    lemma_decimal_row(v.duplicate_min_size_bytes);
    lemma_decimal_row(v.aging_zombie_days);
    lemma_bool_row(v.auto_scan_on_startup);
    lemma_bool_row(v.auto_monitor_on_startup);
    lemma_bool_row(v.alert_enabled);
    lemma_bool_row(v.alert_growth_enabled);
    lemma_bool_row(v.auto_cleanup_enabled);
    lemma_bool_row(v.update_check_enabled);
}

} // verus!
