//! The records kept in the history database, and the rules on what may be
//! stored in it. The database itself is driven by the application.
use vstd::prelude::*;
use crate::risk::{RiskLevel, RiskRule};
use crate::text::{
    ascii_lower, chars_of, concat, is_ascii_alnum, owned, str_eq, string_of, to_ascii_lower,
    trim_end_char, trim_start_char,
};

verus! {

/// A stored disk usage snapshot.
#[derive(Debug, Clone)]
pub struct Snapshot {
    pub id: i64,
    pub drive_letter: String,
    pub total_bytes: u64,
    pub used_bytes: u64,
    pub free_bytes: u64,
    pub snapshot_json: String,
    pub created_at: String,
}

/// Latest cached snapshot with its age.
#[derive(Debug, Clone)]
pub struct CachedSnapshot {
    pub snapshot: Snapshot,
    pub cache_age_ms: u64,
}

/// A stored cleanup operation log.
#[derive(Debug, Clone)]
pub struct CleanupLog {
    pub id: i64,
    pub item_count: usize,
    pub freed_bytes: u64,
    pub succeeded: usize,
    pub skipped: usize,
    pub failed: usize,
    pub items_json: String,
    pub created_at: String,
}

/// Stored scheduled or manual auto-cleanup execution report.
#[derive(Debug, Clone)]
pub struct AutoCleanupReport {
    pub id: i64,
    pub drive_letter: String,
    pub freed_bytes: u64,
    pub succeeded: usize,
    pub skipped: usize,
    pub failed: usize,
    pub status: String,
    pub message: String,
    pub items_json: String,
    pub created_at: String,
}

/// Input used to persist an auto-cleanup report.
#[derive(Debug, Clone)]
pub struct AutoCleanupReportInput {
    pub drive_letter: String,
    pub freed_bytes: u64,
    pub succeeded: usize,
    pub skipped: usize,
    pub failed: usize,
    pub status: String,
    pub message: String,
    pub items_json: String,
}

#[derive(Debug, Clone)]
pub struct NotificationRecord {
    pub id: i64,
    pub notification_type: String,
    pub title: String,
    pub message: String,
    pub read: bool,
    pub created_at: String,
}

#[derive(Debug, Clone)]
pub struct NotificationInput {
    pub notification_type: String,
    pub title: String,
    pub message: String,
}

#[derive(Debug, Clone)]
pub struct HealthSnapshot {
    pub id: i64,
    pub drive_letter: String,
    pub score: u8,
    pub space_score: u8,
    pub waste_score: u8,
    pub trend_score: u8,
    pub age_score: u8,
    pub frag_score: u8,
    pub anomaly_score: u8,
    pub created_at: String,
}

#[derive(Debug, Clone)]
pub struct HealthSnapshotInput {
    pub drive_letter: String,
    pub score: u8,
    pub space_score: u8,
    pub waste_score: u8,
    pub trend_score: u8,
    pub age_score: u8,
    pub frag_score: u8,
    pub anomaly_score: u8,
}

/// The risk level a stored text names, ignoring ASCII case.
pub open spec fn level_named(text: Seq<char>) -> Option<RiskLevel> {
    let t = ascii_lower(text);
    if t == "low"@ {
        Some(RiskLevel::Low)
    } else if t == "medium"@ {
        Some(RiskLevel::Medium)
    } else if t == "high"@ {
        Some(RiskLevel::High)
    } else {
        None
    }
}

pub fn risk_level_from_str(text: &str) -> (r: Option<RiskLevel>)
    ensures
        r == level_named(text@),
{
    let cs = chars_of(text);
    let lower = to_ascii_lower(cs.as_slice());
    let t = string_of(lower.as_slice());
    if str_eq(t.as_str(), "low") {
        Some(RiskLevel::Low)
    } else if str_eq(t.as_str(), "medium") {
        Some(RiskLevel::Medium)
    } else if str_eq(t.as_str(), "high") {
        Some(RiskLevel::High)
    } else {
        None
    }
}

/// The id of a custom rule: `custom-` and the name in lower case, with
/// every character other than an ASCII letter or digit turned into `-`,
/// and dashes trimmed from both ends.
pub open spec fn custom_rule_id(name: Seq<char>) -> Seq<char> {
    let mapped = ascii_lower(name).map_values(|c: char| if is_ascii_alnum(c) { c } else { '-' });
    "custom-"@ + trim_end_char(trim_start_char(mapped, '-'), '-')
}

fn rule_id_of(name: &str) -> (r: String)
    ensures
        r@ == custom_rule_id(name@),
{
    let cs = chars_of(name);
    let lower = to_ascii_lower(cs.as_slice());
    let ghost mapped = ascii_lower(name@).map_values(|c: char| if is_ascii_alnum(c) { c } else { '-' });
    let mut m: Vec<char> = Vec::new();
    let mut i: usize = 0;
    while i < lower.len()
        invariant
            lower@ == ascii_lower(name@),
            mapped.len() == lower@.len(),
            forall|k: int| 0 <= k < mapped.len() ==> #[trigger] mapped[k] == (if is_ascii_alnum(lower@[k]) { lower@[k] } else { '-' }),
            i <= lower@.len(),
            m@ == mapped.take(i as int),
        decreases lower.len() - i,
    {
        let c = lower[i];
        let alnum = ('a' <= c && c <= 'z') || ('A' <= c && c <= 'Z') || ('0' <= c && c <= '9');
        m.push(if alnum { c } else { '-' });
        assert(mapped.take(i + 1) =~= mapped.take(i as int).push(mapped[i as int]));
        i = i + 1;
    }
    assert(mapped.take(i as int) =~= mapped);
    let mut start: usize = 0;
    while start < m.len() && m[start] == '-'
        invariant
            m@ == mapped,
            start <= m@.len(),
            trim_start_char(mapped, '-') == trim_start_char(mapped.skip(start as int), '-'),
        decreases m.len() - start,
    {
        assert(mapped.skip(start as int).drop_first() =~= mapped.skip(start + 1));
        start = start + 1;
    }
    let ghost front = mapped.skip(start as int);
    proof {
        if start == m.len() {
            assert(front =~= Seq::<char>::empty());
        }
    }
    let mut end: usize = m.len();
    assert(front.take((end - start) as int) =~= front);
    while end > start && m[end - 1] == '-'
        invariant
            m@ == mapped,
            start <= end <= m@.len(),
            front == mapped.skip(start as int),
            trim_end_char(front, '-') == trim_end_char(front.take((end - start) as int), '-'),
        decreases end,
    {
        assert(front.take((end - start) as int).drop_last() =~= front.take((end - 1 - start) as int));
        end = end - 1;
    }
    proof {
        if end > start {
            assert(front.take((end - start) as int).last() == m@[end - 1]);
        }
    }
    let mut out: Vec<char> = Vec::new();
    let mut k: usize = start;
    while k < end
        invariant
            m@ == mapped,
            start <= k <= end,
            end <= m@.len(),
            front == mapped.skip(start as int),
            out@ == front.take((k - start) as int),
        decreases end - k,
    {
        out.push(m[k]);
        assert(front.take((k + 1 - start) as int) =~= front.take((k - start) as int).push(front[(k - start) as int]));
        k = k + 1;
    }
    let tail = string_of(out.as_slice());
    let r = concat("custom-", tail.as_str());
    proof {
        reveal_strlit("custom-");
    }
    r
}

pub open spec fn invalid_level_message(text: Seq<char>) -> Seq<char> {
    "Invalid risk level: "@ + text
}

pub open spec fn high_custom_message() -> Seq<char> {
    "Custom rules can only use low or medium risk levels"@
}

/// The custom rule made from a name, a pattern and a risk level: only low
/// and medium levels are accepted, and custom rules are never marked safe
/// to delete.
pub fn custom_rule(name: &str, pattern: &str, risk_level: &str) -> (r: Result<RiskRule, String>)
    ensures
        match level_named(risk_level@) {
            None => r matches Err(e) && e@ == invalid_level_message(risk_level@),
            Some(RiskLevel::High) => r matches Err(e) && e@ == high_custom_message(),
            Some(level) => r matches Ok(rule) && {
                &&& rule.id@ == custom_rule_id(name@)
                &&& rule.patterns@.len() == 1 && rule.patterns@[0]@ == pattern@
                &&& rule.risk_level == level
                &&& rule.category@ == "custom"@
                &&& rule.explanation@ == "Custom rule: "@ + name@
                &&& !rule.safe_to_delete
                &&& rule.name_match is None
            },
        },
{
    let level = match risk_level_from_str(risk_level) {
        Some(l) => l,
        None => {
            return Err(concat("Invalid risk level: ", risk_level));
        },
    };
    match level {
        RiskLevel::High => {
            return Err(owned("Custom rules can only use low or medium risk levels"));
        },
        _ => {},
    }
    let id = rule_id_of(name);
    let mut patterns: Vec<String> = Vec::new();
    patterns.push(owned(pattern));
    Ok(RiskRule {
        id,
        patterns,
        risk_level: level,
        category: owned("custom"),
        explanation: concat("Custom rule: ", name),
        safe_to_delete: false,
        name_match: None,
        file_category: None,
    })
}

} // verus!
