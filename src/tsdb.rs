use vstd::prelude::*;

verus! {

/// One stored record: when it was written and how many bytes it takes.
#[derive(Clone, Copy, Debug, PartialEq, Eq, Structural)]
pub struct StoredRecord {
    pub ts_ms: u64,
    pub size_bytes: u64,
}

/// Whether a record is older than the retention period at `now`.
pub open spec fn expired(r: StoredRecord, now: u64, retention_ms: u64) -> bool {
    now >= r.ts_ms && now - r.ts_ms > retention_ms
}

/// How many records at the front of the store are expired.
pub open spec fn leading_expired(rs: Seq<StoredRecord>, k: int, now: u64, retention_ms: u64) -> int
    decreases rs.len() - k,
{
    if 0 <= k < rs.len() && expired(rs[k], now, retention_ms) {
        leading_expired(rs, k + 1, now, retention_ms)
    } else {
        k
    }
}

/// Bytes held by the records from position `k` on.
pub open spec fn suffix_bytes(rs: Seq<StoredRecord>, k: int) -> nat
    decreases rs.len() - k,
{
    if k < 0 || k >= rs.len() { 0 } else { rs[k].size_bytes as nat + suffix_bytes(rs, k + 1) }
}

/// The first position at or after `k` from which the store fits in `max_bytes`.
pub open spec fn fitting_from(rs: Seq<StoredRecord>, k: int, max_bytes: u64) -> int
    decreases rs.len() - k,
{
    if k < 0 || k >= rs.len() || suffix_bytes(rs, k) <= max_bytes { k } else { fitting_from(rs, k + 1, max_bytes) }
}

/// How many of the oldest records a prune drops: the expired ones at the front, then as many
/// more of the oldest as it takes for the rest to fit in `max_bytes`.
pub open spec fn prune_count(rs: Seq<StoredRecord>, now: u64, retention_ms: u64, max_bytes: u64) -> int {
    fitting_from(rs, leading_expired(rs, 0, now, retention_ms), max_bytes)
}

/// Decides how many of the oldest records (in write order) a prune removes.
pub fn plan_prune(records: &Vec<StoredRecord>, now_ms: u64, retention_ms: u64, max_bytes: u64) -> (r: usize)
    ensures
        r == prune_count(records@, now_ms, retention_ms, max_bytes),
        r <= records@.len(),
{
    let n = records.len();
    let mut k: usize = 0;
    while k < n && now_ms >= records[k].ts_ms && now_ms - records[k].ts_ms > retention_ms
        invariant
            n == records@.len(),
            k <= n,
            leading_expired(records@, k as int, now_ms, retention_ms) == leading_expired(records@, 0, now_ms, retention_ms),
        decreases n - k,
    {
        k = k + 1;
    }
    let mut total: u128 = 0;
    let mut j: usize = n;
    while j > k
        invariant
            n == records@.len(),
            k <= j <= n,
            total == suffix_bytes(records@, j as int),
            total <= (n - j) * (u64::MAX as nat),
        decreases j,
    {
        j = j - 1;
        assert((n - j) * (u64::MAX as nat) <= (u64::MAX as nat) * (u64::MAX as nat)) by (nonlinear_arith)
            requires n - j <= u64::MAX;
        total = total + records[j].size_bytes as u128;
        assert(total <= (n - j) * (u64::MAX as nat)) by (nonlinear_arith)
            requires total <= (n - (j + 1)) * (u64::MAX as nat) + u64::MAX, j < n;
    }
    while k < n && total > max_bytes as u128
        invariant
            n == records@.len(),
            k <= n,
            total == suffix_bytes(records@, k as int),
            fitting_from(records@, k as int, max_bytes) == prune_count(records@, now_ms, retention_ms, max_bytes),
        decreases n - k,
    {
        total = total - records[k].size_bytes as u128;
        k = k + 1;
    }
    k
}

} // verus!
