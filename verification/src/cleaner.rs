//! Cleanup safety rules, preview and the bookkeeping of a cleanup run.
//!
//! A path may only be cleaned when it lies under a known-safe location
//! (temp, cache, downloads, logs and a few caches) and under no system
//! location; only low or medium risk items marked safe to delete pass the
//! preview. Deleting and restoring are done by the caller, which reports the
//! outcome of each attempt back here.
use vstd::prelude::*;
use crate::risk::{RiskItem, RiskLevel};
use crate::text::{
    chars_of, concat3, contains_chars, decimal, from_utf16, has_sub, owned, replace, replace_char,
    str_eq, string_of, to_lowercase, u64_to_string, unicode_lower, utf16_decode,
};

verus! {

/// A cleanup candidate validated for preview and execution.
#[derive(Debug, Clone)]
pub struct CleanItem {
    pub name: String,
    pub path: String,
    pub size_bytes: u64,
    pub risk_level: RiskLevel,
    pub safe_to_delete: bool,
}

/// Per-item cleanup status.
#[derive(Debug, Clone, Copy, PartialEq, Eq, Structural)]
pub enum CleanItemStatus {
    /// Successfully moved to the recycle bin.
    Success,
    /// Skipped: no error, but blocked by safety rules or cancelled.
    Skipped,
    /// Failed with an error reason.
    Failed,
}

/// Detailed result for a single cleaned item.
#[derive(Debug, Clone)]
pub struct CleanItemResult {
    pub path: String,
    pub name: String,
    pub size_bytes: u64,
    pub status: CleanItemStatus,
    pub reason: Option<String>,
    /// Original path before deletion (for undo reference).
    pub original_path: Option<String>,
}

/// Result of a restore operation.
#[derive(Debug, Clone)]
pub struct RestoreResult {
    pub attempted: usize,
    pub restored: usize,
    pub failed: usize,
    pub items: Vec<RestoreItemResult>,
}

#[derive(Debug, Clone)]
pub struct RestoreItemResult {
    pub original_path: String,
    pub restored: bool,
    pub reason: Option<String>,
}

/// Validation result before any cleanup action is allowed.
#[derive(Debug, Clone)]
pub struct CleanValidationResult {
    pub allowed: bool,
    pub valid_items: usize,
    pub blocked_items: usize,
    pub total_bytes: u64,
    pub blocked_reason: Option<String>,
}

/// Cleanup preview payload.
#[derive(Debug, Clone)]
pub struct CleanPreview {
    pub accepted: Vec<CleanItem>,
    pub blocked: Vec<CleanItem>,
    pub validation: CleanValidationResult,
    /// Items that failed pre-delete safety checks.
    pub unsafe_items: Vec<CleanItemResult>,
}

/// Cleanup execution result with per-item tracking.
#[derive(Debug, Clone)]
pub struct CleanResult {
    pub total_attempted: usize,
    pub succeeded: usize,
    pub skipped: usize,
    pub failed: usize,
    pub freed_bytes: u64,
    pub items: Vec<CleanItemResult>,
}

/// Progress event emitted during batch cleanup.
#[derive(Debug, Clone)]
pub struct CleanProgress {
    pub current: usize,
    pub total: usize,
    pub current_item: Option<String>,
    pub status: Option<String>,
}

impl CleanItem {
    /// The cleanup candidate for a classified item.
    pub open spec fn from_risk(item: RiskItem) -> CleanItem {
        CleanItem {
            name: item.name,
            path: item.path,
            size_bytes: item.size_bytes,
            risk_level: item.risk_level,
            safe_to_delete: item.safe_to_delete,
        }
    }
}

impl<'a> From<&'a RiskItem> for CleanItem {
    fn from(item: &'a RiskItem) -> (r: CleanItem) {
        CleanItem {
            name: item.name.clone(),
            path: item.path.clone(),
            size_bytes: item.size_bytes,
            risk_level: item.risk_level,
            safe_to_delete: item.safe_to_delete,
        }
    }
}

impl<'a> vstd::std_specs::convert::FromSpecImpl<&'a RiskItem> for CleanItem {
    open spec fn obeys_from_spec() -> bool {
        true
    }

    open spec fn from_spec(item: &'a RiskItem) -> CleanItem {
        CleanItem::from_risk(*item)
    }
}

// ── Safety validation ──────────────────────────────────────

/// The path as the safety rules read it: forward slashes, lower case, and
/// wrapped in slashes so that whole components can be matched.
pub open spec fn cleanup_text(path: Seq<char>) -> Seq<char> {
    seq!['/'] + unicode_lower(replace_char(path, '\\', '/')) + seq!['/']
}

/// The path lies under a known-safe location.
pub open spec fn path_allowed(path: Seq<char>) -> bool {
    let n = cleanup_text(path);
    ||| has_sub(n, "/temp/"@)
    ||| has_sub(n, "/tmp/"@)
    ||| has_sub(n, "/cache/"@)
    ||| has_sub(n, "npm-cache"@)
    ||| has_sub(n, ".npm"@)
    ||| has_sub(n, "/dxcache/"@)
    ||| has_sub(n, "/deliveryoptimization/"@)
    ||| has_sub(n, "/downloads/"@)
    ||| has_sub(n, "/logs/"@)
}

/// The path lies under no system-protected location.
pub open spec fn path_safe(path: Seq<char>) -> bool {
    let n = cleanup_text(path);
    !(has_sub(n, "/windows/"@) || has_sub(n, "/program files/"@) || has_sub(
        n,
        "/program files (x86)/"@,
    ) || has_sub(n, "/system volume information/"@) || has_sub(n, "/$recycle.bin/"@) || has_sub(
        n,
        "/windows/installer/"@,
    ))
}

fn cleanup_text_of(path: &str) -> (r: Vec<char>)
    ensures
        r@ == cleanup_text(path@),
{
    let cs = chars_of(path);
    let replaced = replace(cs.as_slice(), '\\', '/');
    let s = string_of(replaced.as_slice());
    let lower = to_lowercase(s.as_str());
    let wrapped = concat3("/", lower.as_str(), "/");
    proof {
        reveal_strlit("/");
    }
    let r = chars_of(wrapped.as_str());
    assert(r@ =~= cleanup_text(path@));
    r
}

fn has(hay: &[char], pat: &str) -> (r: bool)
    ensures
        r == has_sub(hay@, pat@),
{
    let p = chars_of(pat);
    contains_chars(hay, p.as_slice())
}

/// Whether the path lies under a known-safe location.
pub fn is_path_allowed(path: &str) -> (r: bool)
    ensures
        r == path_allowed(path@),
{
    let n = cleanup_text_of(path);
    let n = n.as_slice();
    has(n, "/temp/") || has(n, "/tmp/") || has(n, "/cache/") || has(n, "npm-cache") || has(n, ".npm")
        || has(n, "/dxcache/") || has(n, "/deliveryoptimization/") || has(n, "/downloads/") || has(
        n,
        "/logs/",
    )
}

/// Whether the path lies under no system-protected location.
pub fn is_path_safe_for_cleanup(path: &str) -> (r: bool)
    ensures
        r == path_safe(path@),
{
    let n = cleanup_text_of(path);
    let n = n.as_slice();
    !(has(n, "/windows/") || has(n, "/program files/") || has(n, "/program files (x86)/") || has(
        n,
        "/system volume information/",
    ) || has(n, "/$recycle.bin/") || has(n, "/windows/installer/"))
}

pub open spec fn protected_message() -> Seq<char> {
    "Path is in a system-protected location"@
}

pub open spec fn not_whitelisted_message() -> Seq<char> {
    "Path does not match whitelist pattern"@
}

pub open spec fn missing_message() -> Seq<char> {
    "Path no longer exists"@
}

pub open spec fn locked_message() -> Seq<char> {
    "File is locked or in use by another process"@
}

/// What the rule-based check (no file system access) decides for a path.
pub open spec fn rule_verdict(path: Seq<char>) -> Result<(), Seq<char>> {
    if !path_safe(path) {
        Err(protected_message())
    } else if !path_allowed(path) {
        Err(not_whitelisted_message())
    } else {
        Ok(())
    }
}

pub open spec fn err_view(r: Result<(), String>) -> Result<(), Seq<char>> {
    match r {
        Ok(()) => Ok(()),
        Err(e) => Err(e@),
    }
}

/// Rule-based checks only; used during preview.
pub fn rule_check(item: &CleanItem) -> (r: Result<(), String>)
    ensures
        err_view(r) == rule_verdict(item.path@),
{
    if !is_path_safe_for_cleanup(&item.path) {
        return Err(owned("Path is in a system-protected location"));
    }
    if !is_path_allowed(&item.path) {
        return Err(owned("Path does not match whitelist pattern"));
    }
    Ok(())
}

/// What the file system check decides, from whether the path exists and
/// whether it is held open by another process.
pub open spec fn runtime_verdict(exists: bool, locked: bool) -> Result<(), Seq<char>> {
    if !exists {
        Err(missing_message())
    } else if locked {
        Err(locked_message())
    } else {
        Ok(())
    }
}

/// File system checks, run right before deletion. `exists` and `locked` are
/// what the file system reported for the item's path.
pub fn runtime_check(item: &CleanItem, exists: bool, locked: bool) -> (r: Result<(), String>)
    ensures
        err_view(r) == runtime_verdict(exists, locked),
{
    if !exists {
        return Err(owned("Path no longer exists"));
    }
    if locked {
        return Err(owned("File is locked or in use by another process"));
    }
    Ok(())
}

/// All pre-delete checks (rules first, then the file system report).
pub fn safety_check(item: &CleanItem, exists: bool, locked: bool) -> (r: Result<(), String>)
    ensures
        err_view(r) == (match rule_verdict(item.path@) {
            Err(e) => Err(e),
            Ok(()) => runtime_verdict(exists, locked),
        }),
{
    rule_check(item)?;
    runtime_check(item, exists, locked)?;
    Ok(())
}

// ── Preview ────────────────────────────────────────────────

/// An item passes the preview: marked safe, low or medium risk, and its
/// path is whitelisted and not protected.
pub open spec fn preview_allows(item: CleanItem) -> bool {
    &&& item.safe_to_delete
    &&& (item.risk_level == RiskLevel::Low || item.risk_level == RiskLevel::Medium)
    &&& path_allowed(item.path@)
    &&& path_safe(item.path@)
}

/// The items that pass the preview, in order.
pub open spec fn accepted_of(items: Seq<CleanItem>) -> Seq<CleanItem>
    decreases items.len(),
{
    if items.len() == 0 {
        Seq::empty()
    } else if preview_allows(items.last()) {
        accepted_of(items.drop_last()).push(items.last())
    } else {
        accepted_of(items.drop_last())
    }
}

/// The items that the preview blocks, in order.
pub open spec fn blocked_of(items: Seq<CleanItem>) -> Seq<CleanItem>
    decreases items.len(),
{
    if items.len() == 0 {
        Seq::empty()
    } else if !preview_allows(items.last()) {
        blocked_of(items.drop_last()).push(items.last())
    } else {
        blocked_of(items.drop_last())
    }
}

/// Total size of a list of items.
pub open spec fn items_bytes(items: Seq<CleanItem>) -> nat
    decreases items.len(),
{
    if items.len() == 0 {
        0
    } else {
        items_bytes(items.drop_last()) + items.last().size_bytes as nat
    }
}

pub open spec fn blocked_message(blocked: nat, with_issues: nat) -> Seq<char> {
    decimal(blocked) + " item(s) blocked by safety rules (including "@ + decimal(with_issues)
        + " with pre-delete issues)"@
}

/// `p` is the preview of `items`.
pub open spec fn is_preview_of(p: CleanPreview, items: Seq<CleanItem>) -> bool {
    let acc = accepted_of(items);
    let blk = blocked_of(items);
    &&& p.accepted@ == acc
    &&& p.blocked@ == blk
    &&& p.unsafe_items@.len() == 0
    &&& p.validation.allowed == (acc.len() > 0)
    &&& p.validation.valid_items == acc.len()
    &&& p.validation.blocked_items == blk.len()
    &&& p.validation.total_bytes == items_bytes(acc)
    &&& (blk.len() == 0 ==> p.validation.blocked_reason is None)
    &&& (blk.len() > 0 ==> (p.validation.blocked_reason matches Some(r) && r@ == blocked_message(
        blk.len(),
        0,
    )))
}

proof fn lemma_partition_len(items: Seq<CleanItem>)
    ensures
        accepted_of(items).len() + blocked_of(items).len() == items.len(),
    decreases items.len(),
{
    if items.len() > 0 {
        lemma_partition_len(items.drop_last());
    }
}

/// Validate cleanup candidates and separate allowed from blocked items, by
/// the rules alone (no file system access). The existence and lock checks run
/// for each item right before its deletion, in `clean_step`.
pub fn preview_cleanup(items: Vec<CleanItem>) -> (res: CleanPreview)
    requires
        items_bytes(accepted_of(items@)) <= u64::MAX,
    ensures
        is_preview_of(res, items@),
{
    let ghost all = items@;
    let n_items = items.len();
    let mut rest = items;
    let mut accepted: Vec<CleanItem> = Vec::new();
    let mut blocked: Vec<CleanItem> = Vec::new();
    let unsafe_items: Vec<CleanItemResult> = Vec::new();
    let mut total_bytes: u64 = 0;
    let mut k: usize = 0;
    proof {
        lemma_partition_len(all);
    }
    while rest.len() > 0
        invariant
            k + rest@.len() == all.len(),
            rest@ == all.subrange(k as int, all.len() as int),
            accepted@ == accepted_of(all.take(k as int)),
            blocked@ == blocked_of(all.take(k as int)),
            total_bytes == items_bytes(accepted_of(all.take(k as int))),
            items_bytes(accepted_of(all)) <= u64::MAX,
            all.len() <= usize::MAX,
        decreases rest.len(),
    {
        let ghost t = all.take(k + 1);
        proof {
            assert(t.drop_last() =~= all.take(k as int));
            assert(t.last() == rest@[0]);
            lemma_accepted_bytes_prefix(all, k + 1);
            lemma_items_bytes_push(accepted_of(all.take(k as int)), rest@[0]);
        }
        let item = rest.remove(0);
        let allowed = item.safe_to_delete && (match item.risk_level {
            RiskLevel::Low => true,
            RiskLevel::Medium => true,
            RiskLevel::High => false,
        }) && is_path_allowed(&item.path) && is_path_safe_for_cleanup(&item.path);
        if !allowed {
            blocked.push(item);
        } else {
            total_bytes = total_bytes + item.size_bytes;
            accepted.push(item);
        }
        k = k + 1;
        assert(rest@ =~= all.subrange(k as int, all.len() as int));
    }
    assert(all.take(k as int) =~= all);
    let n_blocked = blocked.len();
    let blocked_reason = if n_blocked == 0 {
        None
    } else {
        let mut msg = u64_to_string(n_blocked as u64);
        msg.append(" item(s) blocked by safety rules (including ");
        let zero = u64_to_string(0);
        msg.append(zero.as_str());
        msg.append(" with pre-delete issues)");
        Some(msg)
    };
    let validation = CleanValidationResult {
        allowed: accepted.len() > 0,
        valid_items: accepted.len(),
        blocked_items: n_blocked,
        total_bytes,
        blocked_reason,
    };
    CleanPreview { accepted, blocked, validation, unsafe_items }
}

proof fn lemma_items_bytes_push(s: Seq<CleanItem>, x: CleanItem)
    ensures
        items_bytes(s.push(x)) == items_bytes(s) + x.size_bytes,
{
    assert(s.push(x).drop_last() =~= s);
}

proof fn lemma_accepted_bytes_prefix(items: Seq<CleanItem>, k: int)
    requires
        0 <= k <= items.len(),
    ensures
        items_bytes(accepted_of(items.take(k))) <= items_bytes(accepted_of(items)),
    decreases items.len() - k,
{
    if k < items.len() {
        lemma_accepted_bytes_prefix(items, k + 1);
        let t = items.take(k + 1);
        assert(t.drop_last() =~= items.take(k));
        lemma_items_bytes_push(accepted_of(items.take(k)), t.last());
    } else {
        assert(items.take(k) =~= items);
    }
}


// ── A cleanup run ──────────────────────────────────────────

/// What happened to one accepted item when the run reached it, as reported
/// by the caller that performs the deletion.
#[derive(Debug, Clone)]
pub enum CleanOutcome {
    /// The user cancelled before this item; the run stops here.
    Cancelled,
    /// The pre-delete safety check refused the item with this reason.
    CheckFailed(String),
    /// The item was moved to the recycle bin.
    Deleted,
    /// Moving the item to the recycle bin failed.
    DeleteFailed,
}

pub open spec fn cancelled_reason() -> Seq<char> {
    "Cancelled by user"@
}

pub open spec fn delete_failed_reason() -> Seq<char> {
    "SHFileOperationW failed — file may be in use"@
}

/// `r` records what `o` says happened to `item`.
pub open spec fn result_agrees(r: CleanItemResult, item: CleanItem, o: CleanOutcome) -> bool {
    &&& r.path@ == item.path@
    &&& r.name@ == item.name@
    &&& r.size_bytes == item.size_bytes
    &&& (r.original_path matches Some(p) && p@ == item.path@)
    &&& match o {
        CleanOutcome::Cancelled => r.status == CleanItemStatus::Skipped && (r.reason matches Some(
            m,
        ) && m@ == cancelled_reason()),
        CleanOutcome::CheckFailed(reason) => r.status == CleanItemStatus::Skipped && (
        r.reason matches Some(m) && m@ == reason@),
        CleanOutcome::Deleted => r.status == CleanItemStatus::Success && r.reason is None,
        CleanOutcome::DeleteFailed => r.status == CleanItemStatus::Failed && (r.reason matches Some(
            m,
        ) && m@ == delete_failed_reason()),
    }
}

/// How many outcomes the run consumes: up to and including the first
/// cancellation, or all of them.
pub open spec fn processed_count(outcomes: Seq<CleanOutcome>) -> nat
    decreases outcomes.len(),
{
    if outcomes.len() == 0 {
        0
    } else if outcomes[0] is Cancelled {
        1
    } else {
        1 + processed_count(outcomes.drop_first())
    }
}

/// Number of outcomes of the given kind among the first `n`.
pub open spec fn deleted_count(outcomes: Seq<CleanOutcome>, n: int) -> nat
    decreases n,
{
    if n <= 0 {
        0
    } else {
        deleted_count(outcomes, n - 1) + if outcomes[n - 1] is Deleted {
            1nat
        } else {
            0nat
        }
    }
}

pub open spec fn failed_count(outcomes: Seq<CleanOutcome>, n: int) -> nat
    decreases n,
{
    if n <= 0 {
        0
    } else {
        failed_count(outcomes, n - 1) + if outcomes[n - 1] is DeleteFailed {
            1nat
        } else {
            0nat
        }
    }
}

/// Bytes of the items that were deleted among the first `n`.
pub open spec fn freed_of(items: Seq<CleanItem>, outcomes: Seq<CleanOutcome>, n: int) -> nat
    decreases n,
{
    if n <= 0 {
        0
    } else {
        freed_of(items, outcomes, n - 1) + if outcomes[n - 1] is Deleted {
            items[n - 1].size_bytes as nat
        } else {
            0nat
        }
    }
}

/// `res` is the result of a cleanup run over `items` in which the accepted
/// items met `outcomes`, one per accepted item, in order.
pub open spec fn is_run_result(res: CleanResult, items: Seq<CleanItem>, outcomes: Seq<CleanOutcome>) -> bool {
    let acc = accepted_of(items);
    let n = processed_count(outcomes);
    &&& res.total_attempted == acc.len()
    &&& res.items@.len() == n
    &&& forall|k: int| 0 <= k < n ==> result_agrees(#[trigger] res.items@[k], acc[k], outcomes[k])
    &&& res.succeeded == deleted_count(outcomes, n as int)
    &&& res.failed == failed_count(outcomes, n as int)
    &&& res.skipped == n - deleted_count(outcomes, n as int) - failed_count(outcomes, n as int)
    &&& res.freed_bytes == freed_of(acc, outcomes, n as int)
}

proof fn lemma_processed_bounds(outcomes: Seq<CleanOutcome>)
    ensures
        processed_count(outcomes) <= outcomes.len(),
        forall|k: int| 0 <= k < processed_count(outcomes) - 1 ==> !(#[trigger] outcomes[k] is Cancelled),
        processed_count(outcomes) < outcomes.len() ==> outcomes[processed_count(outcomes) - 1] is Cancelled,
    decreases outcomes.len(),
{
    if outcomes.len() > 0 && !(outcomes[0] is Cancelled) {
        let t = outcomes.drop_first();
        lemma_processed_bounds(t);
        assert forall|k: int| 0 <= k < processed_count(outcomes) - 1 implies !(
        #[trigger] outcomes[k] is Cancelled) by {
            if k > 0 {
                assert(outcomes[k] == t[k - 1]);
            }
        }
    }
}

proof fn lemma_processed_first(outcomes: Seq<CleanOutcome>, i: int)
    requires
        0 <= i < outcomes.len(),
        forall|k: int| 0 <= k < i ==> !(#[trigger] outcomes[k] is Cancelled),
    ensures
        processed_count(outcomes) >= i + 1,
        outcomes[i] is Cancelled ==> processed_count(outcomes) == i + 1,
    decreases i,
{
    if i > 0 {
        let t = outcomes.drop_first();
        assert(!(outcomes[0] is Cancelled));
        assert forall|k: int| 0 <= k < i - 1 implies !(#[trigger] t[k] is Cancelled) by {
            assert(t[k] == outcomes[k + 1]);
        }
        lemma_processed_first(t, i - 1);
        assert(t[i - 1] == outcomes[i]);
    }
}

proof fn lemma_counts_bounded(items: Seq<CleanItem>, outcomes: Seq<CleanOutcome>, n: int)
    requires
        0 <= n <= outcomes.len(),
        n <= items.len(),
    ensures
        deleted_count(outcomes, n) + failed_count(outcomes, n) <= n,
        freed_of(items, outcomes, n) <= items_bytes(items.take(n)),
    decreases n,
{
    if n > 0 {
        lemma_counts_bounded(items, outcomes, n - 1);
        assert(items.take(n).drop_last() =~= items.take(n - 1));
    }
}

proof fn lemma_bytes_prefix(items: Seq<CleanItem>, n: int)
    requires
        0 <= n <= items.len(),
    ensures
        items_bytes(items.take(n)) <= items_bytes(items),
    decreases items.len() - n,
{
    if n < items.len() {
        lemma_bytes_prefix(items, n + 1);
        assert(items.take(n + 1).drop_last() =~= items.take(n));
    } else {
        assert(items.take(n) =~= items);
    }
}

fn result_for(item: &CleanItem, status: CleanItemStatus, reason: Option<String>) -> (r: CleanItemResult)
    ensures
        r.path@ == item.path@,
        r.name@ == item.name@,
        r.size_bytes == item.size_bytes,
        r.status == status,
        r.reason == reason,
        r.original_path matches Some(p) && p@ == item.path@,
{
    CleanItemResult {
        path: item.path.clone(),
        name: item.name.clone(),
        size_bytes: item.size_bytes,
        status,
        reason,
        original_path: Some(item.path.clone()),
    }
}

/// The result of cleaning `items`: the preview decides which items are
/// attempted, and `outcomes` reports, for each accepted item in order, what
/// the deletion step did with it. The run stops after a cancellation.
pub fn clean_items_with_progress(items: Vec<CleanItem>, outcomes: &Vec<CleanOutcome>) -> (res: CleanResult)
    requires
        items_bytes(accepted_of(items@)) <= u64::MAX,
        outcomes@.len() == accepted_of(items@).len(),
    ensures
        is_run_result(res, items@, outcomes@),
{
    let ghost all = items@;
    let preview = preview_cleanup(items);
    let accepted = preview.accepted;
    let total = accepted.len();
    let ghost acc = accepted@;
    proof {
        lemma_processed_bounds(outcomes@);
    }
    if total == 0 {
        return CleanResult {
            total_attempted: 0,
            succeeded: 0,
            skipped: 0,
            failed: 0,
            freed_bytes: 0,
            items: Vec::new(),
        };
    }
    let ghost n = processed_count(outcomes@);
    let mut item_results: Vec<CleanItemResult> = Vec::new();
    let mut succeeded: usize = 0;
    let mut skipped: usize = 0;
    let mut failed: usize = 0;
    let mut freed_bytes: u64 = 0;
    let mut i: usize = 0;
    while i < total
        invariant_except_break
            forall|k: int| 0 <= k < i ==> !(#[trigger] outcomes@[k] is Cancelled),
        invariant
            acc == accepted@,
            acc == accepted_of(all),
            total == acc.len(),
            outcomes@.len() == total,
            items_bytes(acc) <= u64::MAX,
            n == processed_count(outcomes@),
            n <= outcomes@.len(),
            forall|k: int| 0 <= k < n - 1 ==> !(#[trigger] outcomes@[k] is Cancelled),
            n < outcomes@.len() ==> outcomes@[n - 1] is Cancelled,
            i <= n,
            item_results@.len() == i,
            forall|k: int| 0 <= k < i ==> result_agrees(#[trigger] item_results@[k], acc[k], outcomes@[k]),
            succeeded == deleted_count(outcomes@, i as int),
            failed == failed_count(outcomes@, i as int),
            skipped == i - deleted_count(outcomes@, i as int) - failed_count(outcomes@, i as int),
            freed_bytes == freed_of(acc, outcomes@, i as int),
        ensures
            i == n,
            item_results@.len() == i,
            forall|k: int| 0 <= k < i ==> result_agrees(#[trigger] item_results@[k], acc[k], outcomes@[k]),
            succeeded == deleted_count(outcomes@, i as int),
            failed == failed_count(outcomes@, i as int),
            skipped == i - deleted_count(outcomes@, i as int) - failed_count(outcomes@, i as int),
            freed_bytes == freed_of(acc, outcomes@, i as int),
        decreases total - i,
    {
        let item = &accepted[i];
        proof {
            lemma_counts_bounded(acc, outcomes@, i + 1);
            lemma_bytes_prefix(acc, i + 1);
            lemma_processed_first(outcomes@, i as int);
        }
        match &outcomes[i] {
            CleanOutcome::Cancelled => {
                item_results.push(result_for(item, CleanItemStatus::Skipped, Some(owned("Cancelled by user"))));
                skipped = skipped + 1;
                i = i + 1;
                break;
            },
            CleanOutcome::CheckFailed(reason) => {
                item_results.push(result_for(item, CleanItemStatus::Skipped, Some(reason.clone())));
                skipped = skipped + 1;
            },
            CleanOutcome::Deleted => {
                freed_bytes = freed_bytes + item.size_bytes;
                succeeded = succeeded + 1;
                item_results.push(result_for(item, CleanItemStatus::Success, None));
            },
            CleanOutcome::DeleteFailed => {
                failed = failed + 1;
                item_results.push(
                    result_for(item, CleanItemStatus::Failed, Some(owned("SHFileOperationW failed — file may be in use"))),
                );
            },
        }
        i = i + 1;
    }
    CleanResult {
        total_attempted: total,
        succeeded,
        skipped,
        failed,
        freed_bytes,
        items: item_results,
    }
}


// ── The deletion step ──────────────────────────────────────

/// What cleaning does with the next accepted item.
#[derive(Debug, Clone)]
pub enum CleanAction {
    /// The user cancelled: this item is reported cancelled and the run ends.
    Stop,
    /// A pre-delete check refused the item, for this reason.
    Skip(String),
    /// Move the item to the recycle bin.
    Delete,
}

/// All pre-delete checks for a path: the rule check first, then what the
/// file system reported.
pub open spec fn safety_verdict(path: Seq<char>, exists: bool, locked: bool) -> Result<(), Seq<char>> {
    match rule_verdict(path) {
        Err(e) => Err(e),
        Ok(()) => runtime_verdict(exists, locked),
    }
}

/// The decision for an item: `None` to stop, else the safety verdict (`Ok`
/// to delete).
pub open spec fn step_decision(path: Seq<char>, cancelled: bool, exists: bool, locked: bool) -> Option<
    Result<(), Seq<char>>,
> {
    if cancelled {
        None
    } else {
        Some(safety_verdict(path, exists, locked))
    }
}

pub open spec fn action_view(a: CleanAction) -> Option<Result<(), Seq<char>>> {
    match a {
        CleanAction::Stop => None,
        CleanAction::Skip(m) => Some(Err(m@)),
        CleanAction::Delete => Some(Ok(())),
    }
}

/// Decide what to do with an accepted item right before its deletion:
/// stop when cancelled; else run every pre-delete check (`exists` and
/// `locked` are what the file system reports for its path now), skipping the
/// item with the reason of the first that fails, and delete it otherwise.
pub fn clean_step(item: &CleanItem, cancelled: bool, exists: bool, locked: bool) -> (a: CleanAction)
    ensures
        action_view(a) == step_decision(item.path@, cancelled, exists, locked),
        cancelled ==> a is Stop,
        !cancelled ==> match safety_verdict(item.path@, exists, locked) {
            Err(m) => a matches CleanAction::Skip(r) && r@ == m,
            Ok(()) => a is Delete,
        },
{
    if cancelled {
        return CleanAction::Stop;
    }
    match safety_check(item, exists, locked) {
        Err(reason) => CleanAction::Skip(reason),
        Ok(()) => CleanAction::Delete,
    }
}

/// The state of a cleanup run: whether a cancellation was seen.
pub struct CleanRun {
    pub stopped: bool,
}

impl CleanRun {
    /// A run that has not been cancelled.
    pub fn new() -> (r: CleanRun)
        ensures
            !r.stopped,
    {
        CleanRun { stopped: false }
    }

    /// The next step of the run: a cancellation, once requested, stays in
    /// force, so every later item stops as well.
    pub fn step(&mut self, item: &CleanItem, cancel_requested: bool, exists: bool, locked: bool) -> (a: CleanAction)
        ensures
            final(self).stopped == (old(self).stopped || cancel_requested),
            action_view(a) == step_decision(item.path@, final(self).stopped, exists, locked),
    {
        self.stopped = self.stopped || cancel_requested;
        clean_step(item, self.stopped, exists, locked)
    }
}

/// The run's state after step `i` follows from the state before it and the
/// cancel flag read at that step.
pub open spec fn follows(states: Seq<bool>, flags: Seq<bool>, i: int) -> bool {
    states[i + 1] == (states[i] || flags[i])
}

proof fn lemma_states_monotone(states: Seq<bool>, flags: Seq<bool>, j: int, k: int)
    requires
        states.len() == flags.len() + 1,
        forall|i: int| 0 <= i < flags.len() ==> #[trigger] follows(states, flags, i),
        0 <= j <= k < states.len(),
    ensures
        states[j] ==> states[k],
    decreases k - j,
{
    if j < k {
        lemma_states_monotone(states, flags, j, k - 1);
        assert(follows(states, flags, k - 1));
    }
}

proof fn lemma_states_clear(states: Seq<bool>, flags: Seq<bool>, k: int)
    requires
        states.len() == flags.len() + 1,
        forall|i: int| 0 <= i < flags.len() ==> #[trigger] follows(states, flags, i),
        0 <= k < states.len(),
        !states[k],
    ensures
        !states[0],
        forall|i: int| 0 <= i < k ==> !#[trigger] flags[i],
    decreases k,
{
    if k > 0 {
        assert(follows(states, flags, k - 1));
        lemma_states_clear(states, flags, k - 1);
    }
}

/// A cleanup run deletes nothing unchecked and nothing after it stopped.
/// Take the steps of a run over the items with paths `paths`: `states` are
/// the run's cancelled state before each step and after the last, each
/// following from the one before and the cancel flag read at that step, as
/// `CleanRun::step` gives it; `exists` and `locked` are what the file system
/// reported at each step. Then an item is deleted only if the run was never
/// cancelled up to it and it passed every pre-delete check (its path is
/// whitelisted and not protected, it exists and is not locked); and once a
/// step stops, every later step stops too.
pub proof fn law_cleaning_deletes_only_checked_items_before_stop(
    paths: Seq<Seq<char>>,
    flags: Seq<bool>,
    exists: Seq<bool>,
    locked: Seq<bool>,
    states: Seq<bool>,
)
    requires
        flags.len() == paths.len(),
        exists.len() == paths.len(),
        locked.len() == paths.len(),
        states.len() == paths.len() + 1,
        forall|i: int| 0 <= i < flags.len() ==> #[trigger] follows(states, flags, i),
    ensures
        forall|k: int|
            0 <= k < paths.len() && #[trigger] step_decision(paths[k], states[k + 1], exists[k], locked[k])
                == Some(Ok::<(), Seq<char>>(())) ==> {
                &&& !states[0]
                &&& forall|i: int| 0 <= i <= k ==> !#[trigger] flags[i]
                &&& path_allowed(paths[k])
                &&& path_safe(paths[k])
                &&& exists[k]
                &&& !locked[k]
            },
        forall|j: int, k: int|
            0 <= j < k < paths.len() && #[trigger] step_decision(paths[j], states[j + 1], exists[j], locked[j])
                is None ==> #[trigger] step_decision(paths[k], states[k + 1], exists[k], locked[k]) is None,
{
    assert forall|k: int|
        0 <= k < paths.len() && #[trigger] step_decision(paths[k], states[k + 1], exists[k], locked[k]) == Some(
            Ok::<(), Seq<char>>(()),
        ) implies {
        &&& !states[0]
        &&& forall|i: int| 0 <= i <= k ==> !#[trigger] flags[i]
        &&& path_allowed(paths[k])
        &&& path_safe(paths[k])
        &&& exists[k]
        &&& !locked[k]
    } by {
        lemma_states_clear(states, flags, k + 1);
    }
    assert forall|j: int, k: int|
        0 <= j < k < paths.len() && #[trigger] step_decision(paths[j], states[j + 1], exists[j], locked[j])
            is None implies #[trigger] step_decision(paths[k], states[k + 1], exists[k], locked[k]) is None by {
        lemma_states_monotone(states, flags, j + 1, k + 1);
    }
}

// ── Restore from the recycle bin ───────────────────────────

/// The key under which a deleted item is found again: forward slashes, lower case.
pub open spec fn restore_key(path: Seq<char>) -> Seq<char> {
    unicode_lower(replace_char(path, '\\', '/'))
}

/// The key of `path` for the recycle-bin index.
pub fn restore_key_of(path: &str) -> (r: String)
    ensures
        r@ == restore_key(path@),
{
    let cs = chars_of(path);
    let replaced = replace(cs.as_slice(), '\\', '/');
    let s = string_of(replaced.as_slice());
    to_lowercase(s.as_str())
}

/// The UTF-16 code units of a recycle-bin info record: little-endian words
/// from byte `i` on, up to the first zero word or the last whole word.
pub open spec fn info_units(data: Seq<u8>, i: int) -> Seq<u16>
    decreases data.len() - i,
{
    if i < 0 || i + 2 > data.len() {
        Seq::empty()
    } else {
        let w = (data[i] as int + 256 * data[i + 1] as int) as u16;
        if w == 0 {
            Seq::empty()
        } else {
            seq![w] + info_units(data, i + 2)
        }
    }
}

/// The original path recorded in the bytes of a recycle-bin `$I` info file:
/// the text after the 24-byte header, when the file has at least 28 bytes and
/// the text is non-empty valid UTF-16.
pub open spec fn info_path(data: Seq<u8>) -> Option<Seq<char>> {
    if data.len() < 28 || info_units(data, 24).len() == 0 {
        None
    } else {
        utf16_decode(info_units(data, 24))
    }
}

/// Read the original path out of the bytes of a `$I` info file.
pub fn parse_info_data(data: &[u8]) -> (r: Option<String>)
    ensures
        match r {
            Some(p) => info_path(data@) == Some(p@),
            None => info_path(data@) is None,
        },
{
    if data.len() < 28 {
        return None;
    }
    let mut units: Vec<u16> = Vec::new();
    let mut pos: usize = 24;
    while data.len() - pos >= 2
        invariant
            24 <= pos <= data.len(),
            units@ + info_units(data@, pos as int) == info_units(data@, 24),
        ensures
            units@ == info_units(data@, 24),
        decreases data.len() - pos,
    {
        let w: u16 = data[pos] as u16 + (data[pos + 1] as u16) * 256;
        assert(w == (data@[pos as int] as int + 256 * data@[pos + 1] as int) as u16);
        if w == 0 {
            break;
        }
        units.push(w);
        assert(units@ + info_units(data@, pos + 2) =~= units@.drop_last() + info_units(
            data@,
            pos as int,
        ));
        pos = pos + 2;
    }
    if units.len() == 0 {
        return None;
    }
    from_utf16(units.as_slice())
}

/// Where the recycle-bin index, a list of keys and recycled paths built in
/// order, sends `key`: the entry added last wins.
pub open spec fn index_lookup(index: Seq<(String, String)>, key: Seq<char>) -> Option<Seq<char>>
    decreases index.len(),
{
    if index.len() == 0 {
        None
    } else if index.last().0@ == key {
        Some(index.last().1@)
    } else {
        index_lookup(index.drop_last(), key)
    }
}

/// Look `key` up in the recycle-bin index.
pub fn find_recycled(index: &Vec<(String, String)>, key: &str) -> (r: Option<String>)
    ensures
        match r {
            Some(p) => index_lookup(index@, key@) == Some(p@),
            None => index_lookup(index@, key@) is None,
        },
{
    let mut i = index.len();
    assert(index@.take(i as int) =~= index@);
    while i > 0
        invariant
            i <= index.len(),
            index_lookup(index@, key@) == index_lookup(index@.take(i as int), key@),
        decreases i,
    {
        let ghost t = index@.take(i as int);
        assert(t.drop_last() =~= index@.take(i - 1));
        if str_eq(index[i - 1].0.as_str(), key) {
            return Some(index[i - 1].1.clone());
        }
        i = i - 1;
    }
    None
}

/// For each original path, the recycled file to restore it from, if the
/// index knows it.
pub fn restore_plan(original_paths: &Vec<String>, index: &Vec<(String, String)>) -> (r: Vec<Option<String>>)
    ensures
        r@.len() == original_paths@.len(),
        forall|k: int|
            0 <= k < r@.len() ==> match #[trigger] r@[k] {
                Some(p) => index_lookup(index@, restore_key(original_paths@[k]@)) == Some(p@),
                None => index_lookup(index@, restore_key(original_paths@[k]@)) is None,
            },
{
    let mut out: Vec<Option<String>> = Vec::new();
    for k in 0..original_paths.len()
        invariant
            out@.len() == k,
            forall|j: int|
                0 <= j < k ==> match #[trigger] out@[j] {
                    Some(p) => index_lookup(index@, restore_key(original_paths@[j]@)) == Some(p@),
                    None => index_lookup(index@, restore_key(original_paths@[j]@)) is None,
                },
    {
        let key = restore_key_of(original_paths[k].as_str());
        out.push(find_recycled(index, key.as_str()));
    }
    out
}

pub open spec fn bin_missing_reason() -> Seq<char> {
    "Recycle Bin not found"@
}

pub open spec fn restore_failed_reason() -> Seq<char> {
    "Failed to restore file"@
}

pub open spec fn not_in_bin_reason() -> Seq<char> {
    "Item not found in Recycle Bin (may have been permanently deleted)"@
}

/// The result for one path: `index` is the recycle-bin index (none where the
/// recycle bin was not found) and `ok` whether moving the recycled file back
/// succeeded, where one was found.
pub open spec fn restore_agrees(
    r: RestoreItemResult,
    path: Seq<char>,
    index: Option<Seq<(String, String)>>,
    ok: bool,
) -> bool {
    &&& r.original_path@ == path
    &&& match index {
        None => !r.restored && (r.reason matches Some(m) && m@ == bin_missing_reason()),
        Some(ix) => match index_lookup(ix, restore_key(path)) {
            None => !r.restored && (r.reason matches Some(m) && m@ == not_in_bin_reason()),
            Some(_) => if ok {
                r.restored && r.reason is None
            } else {
                !r.restored && (r.reason matches Some(m) && m@ == restore_failed_reason())
            },
        },
    }
}

/// How many of the results report a restored item.
pub open spec fn restored_in(items: Seq<RestoreItemResult>) -> nat
    decreases items.len(),
{
    if items.len() == 0 {
        0
    } else {
        restored_in(items.drop_last()) + if items.last().restored {
            1nat
        } else {
            0nat
        }
    }
}

pub open spec fn index_view(index: Option<&Vec<(String, String)>>) -> Option<Seq<(String, String)>> {
    match index {
        Some(v) => Some(v@),
        None => None,
    }
}

fn restore_entry(path: String, restored: bool, reason: &str) -> (r: RestoreItemResult)
    ensures
        r.original_path@ == path@,
        r.restored == restored,
        r.reason matches Some(m) && m@ == reason@,
{
    RestoreItemResult { original_path: path, restored, reason: Some(owned(reason)) }
}

/// Restore items from the recycle bin by original path. `index` is the
/// recycle-bin index, none where the recycle bin was not found; `restored`
/// says, for each path that the index knows, whether moving the recycled
/// file back succeeded.
pub fn restore_items(
    original_paths: Vec<String>,
    index: Option<&Vec<(String, String)>>,
    restored: &Vec<bool>,
) -> (res: RestoreResult)
    requires
        restored@.len() == original_paths@.len(),
    ensures
        res.attempted == original_paths@.len(),
        res.items@.len() == original_paths@.len(),
        forall|k: int|
            0 <= k < res.items@.len() ==> restore_agrees(
                #[trigger] res.items@[k],
                original_paths@[k]@,
                index_view(index),
                restored@[k],
            ),
        res.restored == restored_in(res.items@),
        res.failed == res.attempted - res.restored,
{
    let ghost paths = original_paths@;
    let n = original_paths.len();
    let mut items: Vec<RestoreItemResult> = Vec::new();
    let mut n_restored: usize = 0;
    let mut rest = original_paths;
    let mut k: usize = 0;
    while rest.len() > 0
        invariant
            k + rest@.len() == n,
            n == paths.len(),
            restored@.len() == n,
            rest@ == paths.subrange(k as int, n as int),
            items@.len() == k,
            forall|j: int|
                0 <= j < k ==> restore_agrees(#[trigger] items@[j], paths[j]@, index_view(index), restored@[j]),
            n_restored == restored_in(items@),
            n_restored <= k,
        decreases rest.len(),
    {
        let path = rest.remove(0);
        assert(path == paths[k as int]);
        let ghost before = items@;
        let entry = match index {
            None => restore_entry(path, false, "Recycle Bin not found"),
            Some(ix) => {
                let key = restore_key_of(path.as_str());
                match find_recycled(ix, key.as_str()) {
                    None => restore_entry(
                        path,
                        false,
                        "Item not found in Recycle Bin (may have been permanently deleted)",
                    ),
                    Some(_) => {
                        if restored[k] {
                            RestoreItemResult { original_path: path, restored: true, reason: None }
                        } else {
                            restore_entry(path, false, "Failed to restore file")
                        }
                    },
                }
            },
        };
        proof {
            reveal_strlit("Recycle Bin not found");
            reveal_strlit("Item not found in Recycle Bin (may have been permanently deleted)");
            reveal_strlit("Failed to restore file");
        }
        if entry.restored {
            n_restored = n_restored + 1;
        }
        items.push(entry);
        assert(items@.drop_last() =~= before);
        k = k + 1;
        assert(rest@ =~= paths.subrange(k as int, n as int));
    }
    RestoreResult { attempted: n, restored: n_restored, failed: n - n_restored, items }
}

// ── Safety laws ────────────────────────────────────────────

proof fn lemma_accepted_allowed(items: Seq<CleanItem>)
    ensures
        forall|k: int| 0 <= k < accepted_of(items).len() ==> preview_allows(#[trigger] accepted_of(items)[k]),
        forall|k: int| 0 <= k < blocked_of(items).len() ==> !preview_allows(#[trigger] blocked_of(items)[k]),
    decreases items.len(),
{
    if items.len() > 0 {
        let t = items.drop_last();
        lemma_accepted_allowed(t);
        let a = accepted_of(items);
        let b = blocked_of(items);
        assert forall|k: int| 0 <= k < a.len() implies preview_allows(#[trigger] a[k]) by {
            if k < accepted_of(t).len() {
                assert(a[k] == accepted_of(t)[k]);
            }
        }
        assert forall|k: int| 0 <= k < b.len() implies !preview_allows(#[trigger] b[k]) by {
            if k < blocked_of(t).len() {
                assert(b[k] == blocked_of(t)[k]);
            }
        }
    }
}

/// The preview splits the items in two: every accepted item is marked safe
/// to delete, of low or medium risk, on a whitelisted path and on no
/// protected one; every blocked item fails one of these; together they are
/// all the items.
pub proof fn law_preview_partitions(items: Seq<CleanItem>)
    ensures
        accepted_of(items).len() + blocked_of(items).len() == items.len(),
        forall|k: int| 0 <= k < accepted_of(items).len() ==> preview_allows(#[trigger] accepted_of(items)[k]),
        forall|k: int| 0 <= k < blocked_of(items).len() ==> !preview_allows(#[trigger] blocked_of(items)[k]),
{
    lemma_partition_len(items);
    lemma_accepted_allowed(items);
}

/// A cleanup run acts only on what the preview accepts: every item it reports
/// on is an accepted item, on a whitelisted path that is not protected, marked
/// safe to delete and of low or medium risk; and it reports an item cleaned
/// only when the deletion step moved that item to the recycle bin.
pub proof fn law_run_touches_only_accepted(
    res: CleanResult,
    items: Seq<CleanItem>,
    outcomes: Seq<CleanOutcome>,
    k: int,
)
    requires
        is_run_result(res, items, outcomes),
        outcomes.len() == accepted_of(items).len(),
        0 <= k < res.items@.len(),
    ensures
        preview_allows(accepted_of(items)[k]),
        res.items@[k].path@ == accepted_of(items)[k].path@,
        path_allowed(res.items@[k].path@),
        path_safe(res.items@[k].path@),
        res.items@[k].status == CleanItemStatus::Success ==> outcomes[k] is Deleted,
{
    lemma_processed_bounds(outcomes);
    lemma_accepted_allowed(items);
    assert(result_agrees(res.items@[k], accepted_of(items)[k], outcomes[k]));
}


/// A path under a system location is never safe for cleanup: once back
/// slashes are forward slashes and letters lower case, a path with a
/// `windows`, `program files`, `program files (x86)`,
/// `system volume information` or `$recycle.bin` component is refused.
pub proof fn law_system_locations_are_not_safe(path: Seq<char>)
    requires
        has_sub(cleanup_text(path), "/windows/"@) || has_sub(cleanup_text(path), "/program files/"@)
            || has_sub(cleanup_text(path), "/program files (x86)/"@) || has_sub(
            cleanup_text(path),
            "/system volume information/"@,
        ) || has_sub(cleanup_text(path), "/$recycle.bin/"@),
    ensures
        !path_safe(path),
{
}

/// The preview never accepts an item under a system location.
pub proof fn law_preview_never_accepts_system_locations(items: Seq<CleanItem>, k: int)
    requires
        0 <= k < accepted_of(items).len(),
    ensures
        !has_sub(cleanup_text(accepted_of(items)[k].path@), "/windows/"@),
        !has_sub(cleanup_text(accepted_of(items)[k].path@), "/program files/"@),
        !has_sub(cleanup_text(accepted_of(items)[k].path@), "/program files (x86)/"@),
        !has_sub(cleanup_text(accepted_of(items)[k].path@), "/system volume information/"@),
        !has_sub(cleanup_text(accepted_of(items)[k].path@), "/$recycle.bin/"@),
{
    law_preview_partitions(items);
    assert(preview_allows(accepted_of(items)[k]));
}


/// The preview accepts only items that are marked safe to delete, of low or
/// medium risk, and under a known-safe location: a `temp`, `tmp`, `cache`,
/// `dxcache`, `deliveryoptimization`, `downloads` or `logs` component, or an
/// `npm-cache` or `.npm` piece, once back slashes are forward slashes and
/// letters lower case.
pub proof fn law_preview_accepts_only_safe_whitelisted_items(items: Seq<CleanItem>, k: int)
    requires
        0 <= k < accepted_of(items).len(),
    ensures
        accepted_of(items)[k].safe_to_delete,
        accepted_of(items)[k].risk_level != RiskLevel::High,
        ({
            let n = cleanup_text(accepted_of(items)[k].path@);
            ||| has_sub(n, "/temp/"@)
            ||| has_sub(n, "/tmp/"@)
            ||| has_sub(n, "/cache/"@)
            ||| has_sub(n, "npm-cache"@)
            ||| has_sub(n, ".npm"@)
            ||| has_sub(n, "/dxcache/"@)
            ||| has_sub(n, "/deliveryoptimization/"@)
            ||| has_sub(n, "/downloads/"@)
            ||| has_sub(n, "/logs/"@)
        }),
{
    law_preview_partitions(items);
    assert(preview_allows(accepted_of(items)[k]));
}

} // verus!
