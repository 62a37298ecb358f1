//! Automatic cleanup: when it next runs, and which items it may touch.
//! Automatic cleanup only ever removes low-risk items marked safe to delete.
use vstd::prelude::*;
use crate::cleaner::{CleanItem, CleanResult};
use crate::db::AutoCleanupReport;
use crate::risk::{RiskItem, RiskLevel, RiskReport};
use crate::text::{ascii_lower, chars_of, concat, decimal, digits_value, u64_to_string, first_index_of, owned, parse_u64, parses_as_u64, pieces_view, split_chars, split_on, str_eq, string_of, to_ascii_lower, trim, trimmed, u64_digits};

verus! {

pub const AUTO_CLEANUP_COMPLETE_EVENT: &'static str = "auto-cleanup-complete";

pub const AUTO_CLEANUP_SCHEDULED_EVENT: &'static str = "auto-cleanup-scheduled";

pub const DAY_SECS: u64 = 86400;

pub const WEEK_SECS: u64 = 604800;

pub const MONTH_SECS: u64 = 2592000;

/// What the scheduler reports about automatic cleanup.
#[derive(Debug, Clone)]
pub struct AutoCleanupStatus {
    pub enabled: bool,
    pub running: bool,
    pub drive_letter: String,
    pub frequency: String,
    pub next_run_epoch_ms: Option<u64>,
    pub last_run_at: Option<String>,
    pub last_freed_bytes: u64,
    pub message: String,
}

/// The schedule part of the settings.
#[derive(Debug, Clone)]
pub struct ScheduleSettings {
    pub enabled: bool,
    pub frequency: String,
    pub time: String,
    pub drive_letter: String,
}

pub open spec fn no_colon_message() -> Seq<char> {
    "Auto-cleanup time must use HH:MM"@
}

pub open spec fn bad_hour_message() -> Seq<char> {
    "Auto-cleanup hour must be numeric"@
}

pub open spec fn bad_minute_message() -> Seq<char> {
    "Auto-cleanup minute must be numeric"@
}

pub open spec fn out_of_range_message() -> Seq<char> {
    "Auto-cleanup time is out of range"@
}

/// Seconds after midnight for a `HH:MM` time, or the reason it is refused.
pub open spec fn time_of_day(t: Seq<char>) -> Result<nat, Seq<char>> {
    match first_index_of(t, ':') {
        None => Err(no_colon_message()),
        Some(i) => {
            let h = t.take(i);
            let m = t.skip(i + 1);
            if !parses_as_u64(h) {
                Err(bad_hour_message())
            } else if !parses_as_u64(m) {
                Err(bad_minute_message())
            } else {
                let hv = digits_value(u64_digits(h));
                let mv = digits_value(u64_digits(m));
                if hv > 23 || mv > 59 {
                    Err(out_of_range_message())
                } else {
                    Ok(hv * 3600 + mv * 60)
                }
            }
        },
    }
}

pub open spec fn unsupported_frequency_message(f: Seq<char>) -> Seq<char> {
    "Unsupported auto-cleanup frequency: "@ + f
}

/// The period of a frequency, in seconds.
pub open spec fn period_of(frequency: Seq<char>) -> Option<nat> {
    if frequency == "daily"@ {
        Some(DAY_SECS as nat)
    } else if frequency == "weekly"@ {
        Some(WEEK_SECS as nat)
    } else if frequency == "monthly"@ {
        Some(MONTH_SECS as nat)
    } else {
        None
    }
}

/// The next run: today at the given time if that is still ahead, else that
/// time one period later.
pub open spec fn next_run(frequency: Seq<char>, time: Seq<char>, now: nat) -> Result<nat, Seq<char>> {
    match time_of_day(time) {
        Err(e) => Err(e),
        Ok(target) => {
            let today_target = now - now % (DAY_SECS as nat) + target;
            match period_of(frequency) {
                None => Err(unsupported_frequency_message(frequency)),
                Some(p) => Ok(if today_target > now { today_target as nat } else { (today_target + p) as nat }),
            }
        },
    }
}

fn find_char(s: &[char], c: char) -> (r: Option<usize>)
    ensures
        match r {
            Some(i) => first_index_of(s@, c) == Some(i as int),
            None => first_index_of(s@, c) is None,
        },
{
    let mut i: usize = 0;
    assert(s@.skip(0) =~= s@);
    while i < s.len()
        invariant
            i <= s@.len(),
            forall|k: int| 0 <= k < i ==> s@[k] != c,
            first_index_of(s@, c) == match first_index_of(s@.skip(i as int), c) {
                Some(j) => Some(j + i),
                None => None,
            },
        decreases s.len() - i,
    {
        assert(s@.skip(i as int)[0] == s@[i as int]);
        if s[i] == c {
            return Some(i);
        }
        assert(s@.skip(i as int).drop_first() =~= s@.skip(i + 1));
        i = i + 1;
    }
    assert(s@.skip(i as int) =~= Seq::<char>::empty());
    None
}

fn parse_time_secs(time: &str) -> (r: Result<u64, String>)
    ensures
        match time_of_day(time@) {
            Ok(v) => r matches Ok(x) && x == v,
            Err(e) => r matches Err(x) && x@ == e,
        },
{
    let cs = chars_of(time);
    let colon = match find_char(cs.as_slice(), ':') {
        Some(i) => i,
        None => {
            return Err(owned("Auto-cleanup time must use HH:MM"));
        },
    };
    proof {
        lemma_first_index(cs@, ':');
    }
    let h = slice_chars(cs.as_slice(), 0, colon);
    let m = slice_chars(cs.as_slice(), colon + 1, cs.len());
    assert(h@ =~= cs@.take(colon as int));
    assert(m@ =~= cs@.skip(colon + 1));
    let hour = match parse_u64(h.as_slice()) {
        Some(v) => v,
        None => {
            return Err(owned("Auto-cleanup hour must be numeric"));
        },
    };
    let minute = match parse_u64(m.as_slice()) {
        Some(v) => v,
        None => {
            return Err(owned("Auto-cleanup minute must be numeric"));
        },
    };
    if hour > 23 || minute > 59 {
        return Err(owned("Auto-cleanup time is out of range"));
    }
    Ok(hour * 3600 + minute * 60)
}

proof fn lemma_first_index(s: Seq<char>, c: char)
    ensures
        first_index_of(s, c) matches Some(i) ==> 0 <= i < s.len() && s[i] == c,
    decreases s.len(),
{
    if s.len() > 0 && s[0] != c {
        lemma_first_index(s.drop_first(), c);
    }
}

fn slice_chars(s: &[char], from: usize, to: usize) -> (r: Vec<char>)
    requires
        from <= to <= s.len(),
    ensures
        r@ == s@.subrange(from as int, to as int),
{
    let mut out: Vec<char> = Vec::new();
    let mut k = from;
    while k < to
        invariant
            from <= k <= to <= s.len(),
            out@ == s@.subrange(from as int, k as int),
        decreases to - k,
    {
        out.push(s[k]);
        assert(s@.subrange(from as int, k + 1) =~= s@.subrange(from as int, k as int).push(s@[k as int]));
        k = k + 1;
    }
    out
}

/// The next time, in seconds since the epoch, at which automatic cleanup
/// runs, for a `daily`, `weekly` or `monthly` frequency and a `HH:MM` time.
pub fn calculate_next_run(frequency: &str, time: &str, now_epoch_secs: u64) -> (r: Result<u64, String>)
    requires
        time_of_day(time@) matches Ok(t) ==> now_epoch_secs - now_epoch_secs % DAY_SECS + t <= u64::MAX,
        next_run(frequency@, time@, now_epoch_secs as nat) matches Ok(v) ==> v <= u64::MAX,
    ensures
        match next_run(frequency@, time@, now_epoch_secs as nat) {
            Ok(v) => r matches Ok(x) && x == v,
            Err(e) => r matches Err(x) && x@ == e,
        },
{
    let target = parse_time_secs(time)?;
    let today_start = now_epoch_secs - now_epoch_secs % DAY_SECS;
    let today_target = today_start + target;
    proof {
        reveal_strlit("daily");
        reveal_strlit("weekly");
        reveal_strlit("monthly");
    }
    let period = if str_eq(frequency, "daily") {
        DAY_SECS
    } else if str_eq(frequency, "weekly") {
        WEEK_SECS
    } else if str_eq(frequency, "monthly") {
        MONTH_SECS
    } else {
        return Err(concat("Unsupported auto-cleanup frequency: ", frequency));
    };
    if today_target > now_epoch_secs {
        Ok(today_target)
    } else {
        Ok(today_target + period)
    }
}

/// Whether a comma-separated list of risk levels names `low`, ignoring
/// white space around names and ASCII case.
pub open spec fn allows_low(levels: Seq<char>) -> bool {
    exists|k: int|
        0 <= k < split_on(levels, ',').len() && ascii_lower(trimmed(#[trigger] split_on(levels, ',')[k])) == "low"@
}

/// The low-risk items marked safe to delete, in order.
pub open spec fn low_safe_of(items: Seq<CleanItem>) -> Seq<CleanItem>
    decreases items.len(),
{
    if items.len() == 0 {
        Seq::empty()
    } else if items.last().safe_to_delete && items.last().risk_level == RiskLevel::Low {
        low_safe_of(items.drop_last()).push(items.last())
    } else {
        low_safe_of(items.drop_last())
    }
}

fn names_low(levels: &str) -> (r: bool)
    ensures
        r == allows_low(levels@),
{
    let cs = chars_of(levels);
    let pieces = split_chars(cs.as_slice(), ',');
    let ghost ps = split_on(levels@, ',');
    assert(pieces_view(pieces@) == ps);
    let mut i: usize = 0;
    while i < pieces.len()
        invariant
            pieces_view(pieces@) == ps,
            ps == split_on(levels@, ','),
            i <= pieces@.len(),
            forall|k: int| 0 <= k < i ==> ascii_lower(trimmed(#[trigger] ps[k])) != "low"@,
        decreases pieces.len() - i,
    {
        let t = trim(pieces[i].as_slice());
        let l = to_ascii_lower(t.as_slice());
        let s = string_of(l.as_slice());
        assert(ps[i as int] == pieces@[i as int]@);
        if str_eq(s.as_str(), "low") {
            proof {
                reveal_strlit("low");
                assert(ascii_lower(trimmed(split_on(levels@, ',')[i as int])) == "low"@);
            }
            return true;
        }
        proof {
            reveal_strlit("low");
        }
        i = i + 1;
    }
    false
}

/// The items automatic cleanup may remove: only when the configured levels
/// name `low`, and then only low-risk items marked safe to delete.
pub fn filter_auto_cleanup_candidates(items: Vec<CleanItem>, risk_levels: &str) -> (r: Vec<CleanItem>)
    ensures
        r@ == if allows_low(risk_levels@) {
            low_safe_of(items@)
        } else {
            Seq::empty()
        },
{
    if !names_low(risk_levels) {
        return Vec::new();
    }
    let ghost all = items@;
    let mut rest = items;
    let n0 = rest.len();
    let mut out: Vec<CleanItem> = Vec::new();
    let mut k: usize = 0;
    while rest.len() > 0
        invariant
            k + rest@.len() == all.len(),
            all.len() <= usize::MAX,
            rest@ == all.subrange(k as int, all.len() as int),
            out@ == low_safe_of(all.take(k as int)),
        decreases rest.len(),
    {
        assert(all.take(k + 1).drop_last() =~= all.take(k as int));
        let item = rest.remove(0);
        let keep = item.safe_to_delete && match item.risk_level {
            RiskLevel::Low => true,
            _ => false,
        };
        if keep {
            out.push(item);
        }
        k = k + 1;
        assert(rest@ =~= all.subrange(k as int, all.len() as int));
    }
    assert(all.take(k as int) =~= all);
    out
}

/// The cleanup candidates of a risk report for automatic cleanup.
pub fn auto_cleanup_candidates(report: &RiskReport, risk_levels: &str) -> (r: Vec<CleanItem>)
    ensures
        r@ == if allows_low(risk_levels@) {
            low_safe_of(report.items@.map_values(|it: RiskItem| CleanItem::from_risk(it)))
        } else {
            Seq::empty()
        },
{
    let mut items: Vec<CleanItem> = Vec::new();
    let mut i: usize = 0;
    let ghost mapped = report.items@.map_values(|it: RiskItem| CleanItem::from_risk(it));
    while i < report.items.len()
        invariant
            i <= report.items@.len(),
            mapped == report.items@.map_values(|it: RiskItem| CleanItem::from_risk(it)),
            items@ == mapped.take(i as int),
        decreases report.items.len() - i,
    {
        items.push(CleanItem::from(&report.items[i]));
        assert(mapped.take(i + 1) =~= mapped.take(i as int).push(mapped[i as int]));
        i = i + 1;
    }
    assert(mapped.take(i as int) =~= mapped);
    filter_auto_cleanup_candidates(items, risk_levels)
}

pub open spec fn opt_string_view(o: Option<String>) -> Option<Seq<char>> {
    match o {
        Some(s) => Some(s@),
        None => None,
    }
}

/// The status for a schedule: the next run in milliseconds while enabled,
/// and the time and freed bytes of the latest report, if any.
pub fn status_from_settings(
    settings: &ScheduleSettings,
    running: bool,
    message: &str,
    now_epoch_secs: u64,
    last: Option<&AutoCleanupReport>,
) -> (r: Result<AutoCleanupStatus, String>)
    requires
        (now_epoch_secs + DAY_SECS + MONTH_SECS) * 1000 <= u64::MAX,
    ensures
        settings.enabled && next_run(settings.frequency@, settings.time@, now_epoch_secs as nat) is Err
            <==> r is Err,
        r matches Err(e) ==> next_run(settings.frequency@, settings.time@, now_epoch_secs as nat) == Err::<nat, Seq<char>>(e@),
        r matches Ok(s) ==> {
            &&& s.enabled == settings.enabled
            &&& s.running == running
            &&& s.drive_letter@ == settings.drive_letter@
            &&& s.frequency@ == settings.frequency@
            &&& s.message@ == message@
            &&& (settings.enabled ==> (s.next_run_epoch_ms matches Some(ms) && next_run(
                settings.frequency@,
                settings.time@,
                now_epoch_secs as nat,
            ) == Ok::<nat, Seq<char>>((ms / 1000) as nat) && ms % 1000 == 0))
            &&& (!settings.enabled ==> s.next_run_epoch_ms is None)
            &&& match last {
                Some(rep) => opt_string_view(s.last_run_at) == Some(rep.created_at@) && s.last_freed_bytes
                    == rep.freed_bytes,
                None => s.last_run_at is None && s.last_freed_bytes == 0,
            }
        },
{
    let next_run_epoch_ms = if settings.enabled {
        let next = calculate_next_run(settings.frequency.as_str(), settings.time.as_str(), now_epoch_secs)?;
        assert(next <= now_epoch_secs + DAY_SECS + MONTH_SECS);
        Some(next * 1000)
    } else {
        None
    };
    let (last_run_at, last_freed_bytes) = match last {
        Some(rep) => (Some(rep.created_at.clone()), rep.freed_bytes),
        None => (None, 0),
    };
    Ok(AutoCleanupStatus {
        enabled: settings.enabled,
        running,
        drive_letter: settings.drive_letter.clone(),
        frequency: settings.frequency.clone(),
        next_run_epoch_ms,
        last_run_at,
        last_freed_bytes,
        message: owned(message),
    })
}

/// The automatic cleanup status: the status last recorded by a run, else
/// the idle status of the current settings.
pub fn get_auto_cleanup_status(
    recorded: Option<AutoCleanupStatus>,
    settings: &ScheduleSettings,
    now_epoch_secs: u64,
    last: Option<&AutoCleanupReport>,
) -> (r: Result<AutoCleanupStatus, String>)
    requires
        (now_epoch_secs + DAY_SECS + MONTH_SECS) * 1000 <= u64::MAX,
    ensures
        recorded matches Some(s) ==> r == Ok::<AutoCleanupStatus, String>(s),
        recorded is None ==> (r is Err <==> settings.enabled && next_run(
            settings.frequency@,
            settings.time@,
            now_epoch_secs as nat,
        ) is Err),
        recorded is None ==> (r matches Ok(s) ==> !s.running && s.message@ == "auto-cleanup idle"@ && s.enabled
            == settings.enabled && s.drive_letter@ == settings.drive_letter@),
{
    match recorded {
        Some(s) => Ok(s),
        None => {
            let r = status_from_settings(settings, false, "auto-cleanup idle", now_epoch_secs, last);
            r
        },
    }
}

pub open spec fn stopped_message() -> Seq<char> {
    "auto-cleanup scheduler stopped"@
}

pub open spec fn not_running_message() -> Seq<char> {
    "auto-cleanup scheduler not running"@
}

/// What stopping answers when `slot` holds the registered scheduler's token,
/// or nothing.
pub open spec fn stop_answer<T>(slot: Option<T>) -> Seq<char> {
    if slot is Some {
        stopped_message()
    } else {
        not_running_message()
    }
}

/// The registration after a stop: nothing is registered.
pub open spec fn slot_after_stop<T>(slot: Option<T>) -> Option<T> {
    None
}

/// Stop the scheduler registered in `slot`: its token is taken out and handed
/// back for the caller to signal, and the answer says whether one was
/// registered.
pub fn stop_auto_cleanup_scheduler<T>(slot: &mut Option<T>) -> (r: (Result<String, String>, Option<T>))
    ensures
        *final(slot) == slot_after_stop(*old(slot)),
        r.1 == *old(slot),
        r.0 matches Ok(m) && m@ == stop_answer(*old(slot)),
{
    let token = slot.take();
    let answer = if token.is_some() {
        owned("auto-cleanup scheduler stopped")
    } else {
        owned("auto-cleanup scheduler not running")
    };
    (Ok(answer), token)
}

/// Stopping is idempotent: after one stop nothing is registered, so a second
/// stop answers that the scheduler is not running and changes nothing.
pub proof fn law_stop_is_idempotent<T>(slot: Option<T>)
    ensures
        stop_answer(slot_after_stop(slot)) == not_running_message(),
        slot_after_stop(slot_after_stop(slot)) == slot_after_stop(slot),
{
}

/// Automatic cleanup never takes an item that is not low risk and marked
/// safe to delete, whatever the configured levels.
pub proof fn law_auto_cleanup_only_low_safe(items: Seq<CleanItem>, k: int)
    requires
        0 <= k < low_safe_of(items).len(),
    ensures
        low_safe_of(items)[k].safe_to_delete,
        low_safe_of(items)[k].risk_level == RiskLevel::Low,
    decreases items.len(),
{
    let d = items.drop_last();
    if items.last().safe_to_delete && items.last().risk_level == RiskLevel::Low {
        if k < low_safe_of(d).len() {
            law_auto_cleanup_only_low_safe(d, k);
        }
    } else {
        law_auto_cleanup_only_low_safe(d, k);
    }
}

/// The status message of a finished automatic cleanup.
pub open spec fn completed_message(succeeded: nat, skipped: nat, failed: nat) -> Seq<char> {
    "auto-cleanup completed: "@ + decimal(succeeded) + " succeeded, "@ + decimal(skipped)
        + " skipped, "@ + decimal(failed) + " failed"@
}

/// The status message of a finished automatic cleanup, from its counts.
pub fn auto_cleanup_completed_message(result: &CleanResult) -> (r: String)
    ensures
        r@ == completed_message(result.succeeded as nat, result.skipped as nat, result.failed as nat),
{
    let a = u64_to_string(result.succeeded as u64);
    let b = u64_to_string(result.skipped as u64);
    let c = u64_to_string(result.failed as u64);
    let mut out = concat("auto-cleanup completed: ", a.as_str());
    out = concat(out.as_str(), " succeeded, ");
    out = concat(out.as_str(), b.as_str());
    out = concat(out.as_str(), " skipped, ");
    out = concat(out.as_str(), c.as_str());
    out = concat(out.as_str(), " failed");
    out
}

/// The status message of an automatic cleanup that could not run.
pub open spec fn failed_message(err: Seq<char>) -> Seq<char> {
    "auto-cleanup failed: "@ + err
}

/// The status message of an automatic cleanup that could not run.
pub fn auto_cleanup_failed_message(err: &str) -> (r: String)
    ensures
        r@ == failed_message(err@),
{
    concat("auto-cleanup failed: ", err)
}

} // verus!
