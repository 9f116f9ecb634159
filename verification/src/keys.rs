//! The key pool's rules: which key is leased, how a reported outcome changes a key,
//! what the usage refresh does to a key, and the pool statistics.
use vstd::prelude::*;

use crate::provider::{provider_name, Provider};
use crate::text::str_eq;
use crate::tokens::{hyphenated_v4_shape, new_lease_id};

verus! {

/// One row of the key table.
#[derive(Debug)]
pub struct KeyRow {
    pub id: i64,
    pub provider: String,
    pub account_team: Option<String>,
    pub key_value: String,
    pub status: String,
    pub cooldown_until: Option<i64>,
    pub credits_remaining: Option<i64>,
    pub last_used_at: Option<i64>,
    pub last_error: Option<String>,
}

/// The mathematical content of a key row.
pub struct KeyRowView {
    pub id: i64,
    pub provider: Seq<char>,
    pub account_team: Option<Seq<char>>,
    pub key_value: Seq<char>,
    pub status: Seq<char>,
    pub cooldown_until: Option<i64>,
    pub credits_remaining: Option<i64>,
    pub last_used_at: Option<i64>,
    pub last_error: Option<Seq<char>>,
}

pub open spec fn opt_view(o: Option<String>) -> Option<Seq<char>> {
    match o {
        Some(s) => Some(s@),
        None => None,
    }
}

impl View for KeyRow {
    type V = KeyRowView;

    open spec fn view(&self) -> KeyRowView {
        KeyRowView {
            id: self.id,
            provider: self.provider@,
            account_team: opt_view(self.account_team),
            key_value: self.key_value@,
            status: self.status@,
            cooldown_until: self.cooldown_until,
            credits_remaining: self.credits_remaining,
            last_used_at: self.last_used_at,
            last_error: opt_view(self.last_error),
        }
    }
}

/// The rows of a table, each by its view.
pub open spec fn rows_view(rows: Seq<KeyRow>) -> Seq<KeyRowView> {
    rows.map_values(|r: KeyRow| r@)
}

/// A key in this status may still be used (it is neither `auth-failed` nor `disabled`).
pub open spec fn usable_status(status: Seq<char>) -> bool {
    status != "auth-failed"@ && status != "disabled"@
}

/// No cooldown is pending at time `now`: there is none, or it ended before `now`.
pub open spec fn cooled_down(cooldown_until: Option<i64>, now: int) -> bool {
    match cooldown_until {
        None => true,
        Some(t) => t < now,
    }
}

/// A key may be leased for `p` at time `now`.
pub open spec fn leasable(k: KeyRowView, p: Provider, now: int) -> bool {
    &&& k.provider == provider_name(p)
    &&& usable_status(k.status)
    &&& cooled_down(k.cooldown_until, now)
}

/// `a` comes no later than `b` in lease order: least recently used first, a key never
/// used before any used one, ties broken by the smaller id.
pub open spec fn lru_le(a: KeyRowView, b: KeyRowView) -> bool {
    match (a.last_used_at, b.last_used_at) {
        (None, None) => a.id <= b.id,
        (None, Some(_)) => true,
        (Some(_), None) => false,
        (Some(x), Some(y)) => x < y || (x == y && a.id <= b.id),
    }
}

/// The index that a lease for `p` at `now` picks: the first leasable row that comes
/// no later in lease order than every leasable row.
pub open spec fn is_lease_choice(rows: Seq<KeyRowView>, p: Provider, now: int, i: int) -> bool {
    &&& 0 <= i < rows.len()
    &&& leasable(rows[i], p, now)
    &&& forall|j: int| 0 <= j < rows.len() && leasable(rows[j], p, now) ==> lru_le(rows[i], rows[j])
    &&& forall|j: int| 0 <= j < i && leasable(rows[j], p, now) ==> !lru_le(rows[j], rows[i])
}

/// Some row may be leased for `p` at `now`.
pub open spec fn any_leasable(rows: Seq<KeyRowView>, p: Provider, now: int) -> bool {
    exists|j: int| 0 <= j < rows.len() && leasable(rows[j], p, now)
}

/// Whether a key status still allows use.
pub fn is_usable_status(status: &str) -> (r: bool)
    ensures
        r == usable_status(status@),
{
    !str_eq(status, "auth-failed") && !str_eq(status, "disabled")
}

/// Whether `row` may be leased for `p` at `now`.
pub fn is_leasable(row: &KeyRow, p: Provider, now: i64) -> (r: bool)
    ensures
        r == leasable(row@, p, now as int),
{
    let cooled = match row.cooldown_until {
        None => true,
        Some(t) => t < now,
    };
    str_eq(row.provider.as_str(), p.as_str()) && is_usable_status(row.status.as_str()) && cooled
}

fn lru_le_exec(a: &KeyRow, b: &KeyRow) -> (r: bool)
    ensures
        r == lru_le(a@, b@),
{
    match (a.last_used_at, b.last_used_at) {
        (None, None) => a.id <= b.id,
        (None, Some(_)) => true,
        (Some(_), None) => false,
        (Some(x), Some(y)) => x < y || (x == y && a.id <= b.id),
    }
}

/// Lease order is total and transitive.
pub proof fn lemma_lru_order(a: KeyRowView, b: KeyRowView, c: KeyRowView)
    ensures
        lru_le(a, b) || lru_le(b, a),
        lru_le(a, b) && lru_le(b, c) ==> lru_le(a, c),
        lru_le(a, a),
{
}

/// Picks the key to lease for `provider` at `now`: among the rows that are leasable, the
/// least recently used one (never-used keys first, then by id), as the pool's lease query
/// orders them.
pub fn select_lease(rows: &Vec<KeyRow>, provider: Provider, now: i64) -> (r: Option<usize>)
    ensures
        r is None <==> !any_leasable(rows_view(rows@), provider, now as int),
        r matches Some(i) ==> is_lease_choice(rows_view(rows@), provider, now as int, i as int),
{
    let ghost rv = rows_view(rows@);
    let mut best: Option<usize> = None;
    let mut i: usize = 0;
    while i < rows.len()
        invariant
            i <= rows.len(),
            rv == rows_view(rows@),
            rv.len() == rows.len(),
            best is None <==> (forall|j: int| 0 <= j < i ==> !leasable(rv[j], provider, now as int)),
            best matches Some(b) ==> {
                &&& b < i
                &&& leasable(rv[b as int], provider, now as int)
                &&& forall|j: int| 0 <= j < i && leasable(rv[j], provider, now as int) ==> lru_le(rv[b as int], rv[j])
                &&& forall|j: int| 0 <= j < b && leasable(rv[j], provider, now as int) ==> !lru_le(rv[j], rv[b as int])
            },
        decreases rows.len() - i,
    {
        assert(rv[i as int] == rows@[i as int]@);
        if is_leasable(&rows[i], provider, now) {
            match best {
                None => {
                    best = Some(i);
                },
                Some(b) => {
                    assert(rv[b as int] == rows@[b as int]@);
                    if !lru_le_exec(&rows[b], &rows[i]) {
                        proof {
                            assert forall|j: int| 0 <= j < i + 1 && leasable(rv[j], provider, now as int) implies lru_le(rv[i as int], rv[j]) by {
                                lemma_lru_order(rv[i as int], rv[b as int], rv[j]);
                            }
                            assert forall|j: int| 0 <= j < i && leasable(rv[j], provider, now as int) implies !lru_le(rv[j], rv[i as int]) by {
                                lemma_lru_order(rv[b as int], rv[j], rv[i as int]);
                            }
                        }
                        best = Some(i);
                    }
                },
            }
        }
        i = i + 1;
    }
    best
}

/// The status that a reported outcome of a key use leaves the key in.
pub open spec fn report_status(result: Seq<char>) -> Seq<char> {
    if result == "ok"@ {
        "active"@
    } else if result == "429"@ {
        "rate-limited"@
    } else if result == "402"@ || result == "quota"@ {
        "exhausted"@
    } else if result == "auth-failed"@ {
        "auth-failed"@
    } else {
        "active"@
    }
}

/// The end of the cooldown that a reported outcome sets, if any: a rate limit cools the key
/// down for `retry_after` seconds (or the configured rate-limit cooldown), an exhausted quota
/// for the configured quota cooldown.
pub open spec fn report_cooldown_int(
    result: Seq<char>,
    retry_after: Option<i64>,
    now: int,
    rl_cooldown_secs: int,
    quota_cooldown_secs: int,
) -> Option<int> {
    if result == "ok"@ {
        None
    } else if result == "429"@ {
        Some(
            now + match retry_after {
                Some(r) => r as int,
                None => rl_cooldown_secs,
            },
        )
    } else if result == "402"@ || result == "quota"@ {
        Some(now + quota_cooldown_secs)
    } else {
        None
    }
}

/// The cooldown end of a report fits in an `i64`.
pub open spec fn report_fits(
    result: Seq<char>,
    retry_after: Option<i64>,
    now: i64,
    rl_cooldown_secs: i64,
    quota_cooldown_secs: i64,
) -> bool {
    match report_cooldown_int(result, retry_after, now as int, rl_cooldown_secs as int, quota_cooldown_secs as int) {
        Some(c) => i64::MIN <= c <= i64::MAX,
        None => true,
    }
}

pub open spec fn report_cooldown(
    result: Seq<char>,
    retry_after: Option<i64>,
    now: i64,
    rl_cooldown_secs: i64,
    quota_cooldown_secs: i64,
) -> Option<i64> {
    match report_cooldown_int(result, retry_after, now as int, rl_cooldown_secs as int, quota_cooldown_secs as int) {
        Some(c) => Some(c as i64),
        None => None,
    }
}

/// A key row after an outcome was reported for it.
pub open spec fn after_report(
    k: KeyRowView,
    result: Seq<char>,
    retry_after: Option<i64>,
    now: i64,
    rl_cooldown_secs: i64,
    quota_cooldown_secs: i64,
) -> KeyRowView {
    KeyRowView {
        status: report_status(result),
        cooldown_until: report_cooldown(result, retry_after, now, rl_cooldown_secs, quota_cooldown_secs),
        last_error: Some(result),
        ..k
    }
}

/// A key row after it was leased at `now`: a key that is not `active` is reactivated and
/// its cooldown cleared, and the key is marked as last used at `now`.
pub open spec fn after_lease(k: KeyRowView, now: i64) -> KeyRowView {
    if k.status == "active"@ {
        KeyRowView { last_used_at: Some(now), ..k }
    } else {
        KeyRowView { status: "active"@, cooldown_until: None, last_used_at: Some(now), ..k }
    }
}

/// The new status and cooldown end of a key after the outcome `result` of its use was
/// reported at `now`.
pub fn report_outcome(
    result: &str,
    retry_after: Option<i64>,
    now: i64,
    rl_cooldown_secs: i64,
    quota_cooldown_secs: i64,
) -> (r: (&'static str, Option<i64>))
    requires
        report_fits(result@, retry_after, now, rl_cooldown_secs, quota_cooldown_secs),
    ensures
        r.0@ == report_status(result@),
        r.1 == report_cooldown(result@, retry_after, now, rl_cooldown_secs, quota_cooldown_secs),
        result@ == "429"@ ==> (retry_after matches Some(ra) ==> (r.1 matches Some(c) && c == now + ra)),
        result@ == "429"@ ==> (retry_after is None ==> (r.1 matches Some(c) && c == now + rl_cooldown_secs)),
        (result@ == "402"@ || result@ == "quota"@) ==> (r.1 matches Some(c) && c == now + quota_cooldown_secs),
{
    proof {
        lemma_report_cooldown_ends(result@, retry_after, now, rl_cooldown_secs, quota_cooldown_secs);
    }
    if str_eq(result, "ok") {
        ("active", None)
    } else if str_eq(result, "429") {
        let secs = match retry_after {
            Some(r) => r,
            None => rl_cooldown_secs,
        };
        ("rate-limited", Some(now + secs))
    } else if str_eq(result, "402") || str_eq(result, "quota") {
        ("exhausted", Some(now + quota_cooldown_secs))
    } else if str_eq(result, "auth-failed") {
        ("auth-failed", None)
    } else {
        ("active", None)
    }
}

/// Whether the cooldown end of a report fits in an `i64` (the condition of `report_outcome`).
pub fn cooldown_fits(
    result: &str,
    retry_after: Option<i64>,
    now: i64,
    rl_cooldown_secs: i64,
    quota_cooldown_secs: i64,
) -> (r: bool)
    ensures
        r == report_fits(result@, retry_after, now, rl_cooldown_secs, quota_cooldown_secs),
{
    if str_eq(result, "ok") {
        true
    } else if str_eq(result, "429") {
        let secs = match retry_after {
            Some(r) => r,
            None => rl_cooldown_secs,
        };
        now.checked_add(secs).is_some()
    } else if str_eq(result, "402") || str_eq(result, "quota") {
        now.checked_add(quota_cooldown_secs).is_some()
    } else {
        true
    }
}

/// Whether leasing `row` must first reactivate it (its status is not `active`).
pub fn needs_reactivation(row: &KeyRow) -> (r: bool)
    ensures
        r == (row@.status != "active"@),
{
    !str_eq(row.status.as_str(), "active")
}

proof fn lemma_status_literals()
    ensures
        usable_status("active"@),
        usable_status("rate-limited"@),
        usable_status("exhausted"@),
        !usable_status("auth-failed"@),
{
    reveal_strlit("active");
    reveal_strlit("rate-limited");
    reveal_strlit("exhausted");
    reveal_strlit("auth-failed");
    reveal_strlit("disabled");
    assert("active"@.len() == 6);
    assert("rate-limited"@.len() == 12);
    assert("exhausted"@.len() == 9);
    assert("auth-failed"@.len() == 11);
    assert("disabled"@.len() == 8);
    assert("rate-limited"@[0] != "auth-failed"@[0]);
}

proof fn lemma_outcome_literals()
    ensures
        "ok"@ != "429"@,
        "ok"@ != "402"@,
        "ok"@ != "quota"@,
        "ok"@ != "auth-failed"@,
        "429"@ != "402"@,
        "429"@ != "quota"@,
        "429"@ != "auth-failed"@,
        "402"@ != "quota"@,
        "402"@ != "auth-failed"@,
        "quota"@ != "auth-failed"@,
{
    reveal_strlit("ok");
    reveal_strlit("429");
    reveal_strlit("402");
    reveal_strlit("quota");
    reveal_strlit("auth-failed");
    assert("ok"@.len() == 2);
    assert("429"@.len() == 3);
    assert("402"@.len() == 3);
    assert("quota"@.len() == 5);
    assert("auth-failed"@.len() == 11);
    assert("429"@[1] != "402"@[1]);
}

/// The cooldown a report sets, in plain integers: a `429` cools the key down until
/// `now + retry_after` when the provider sent `Retry-After`, and until
/// `now + rl_cooldown_secs` only when it did not; `402` and `quota` cool it down until
/// `now + quota_cooldown_secs`; `ok` clears the cooldown, and so does every other outcome.
pub proof fn lemma_report_cooldown_ends(
    result: Seq<char>,
    retry_after: Option<i64>,
    now: i64,
    rl_cooldown_secs: i64,
    quota_cooldown_secs: i64,
)
    requires
        report_fits(result, retry_after, now, rl_cooldown_secs, quota_cooldown_secs),
    ensures
        result == "429"@ ==> (retry_after matches Some(ra) ==> (report_cooldown(
            result,
            retry_after,
            now,
            rl_cooldown_secs,
            quota_cooldown_secs,
        ) matches Some(c) && c == now + ra)),
        result == "429"@ ==> (retry_after is None ==> (report_cooldown(
            result,
            retry_after,
            now,
            rl_cooldown_secs,
            quota_cooldown_secs,
        ) matches Some(c) && c == now + rl_cooldown_secs)),
        (result == "402"@ || result == "quota"@) ==> (report_cooldown(
            result,
            retry_after,
            now,
            rl_cooldown_secs,
            quota_cooldown_secs,
        ) matches Some(c) && c == now + quota_cooldown_secs),
        (result != "429"@ && result != "402"@ && result != "quota"@) ==> report_cooldown(
            result,
            retry_after,
            now,
            rl_cooldown_secs,
            quota_cooldown_secs,
        ) is None,
        result == "429"@ ==> report_status(result) == "rate-limited"@,
        (result == "402"@ || result == "quota"@) ==> report_status(result) == "exhausted"@,
        result == "auth-failed"@ ==> report_status(result) == "auth-failed"@,
        result == "ok"@ ==> report_status(result) == "active"@,
{
    lemma_outcome_literals();
}

/// After a rate-limit (`429`) or quota (`402`, `quota`) report, the key is not leased again
/// until its cooldown has passed, and it is leasable for its own provider as soon as it has.
pub proof fn lemma_limited_key_cools_down(
    k: KeyRowView,
    p: Provider,
    result: Seq<char>,
    retry_after: Option<i64>,
    now: i64,
    rl_cooldown_secs: i64,
    quota_cooldown_secs: i64,
    t: int,
)
    requires
        result == "429"@ || result == "402"@ || result == "quota"@,
        report_fits(result, retry_after, now, rl_cooldown_secs, quota_cooldown_secs),
    ensures
        report_cooldown(result, retry_after, now, rl_cooldown_secs, quota_cooldown_secs) is Some,
        leasable(after_report(k, result, retry_after, now, rl_cooldown_secs, quota_cooldown_secs), p, t)
            <==> (k.provider == provider_name(p) && report_cooldown(
            result,
            retry_after,
            now,
            rl_cooldown_secs,
            quota_cooldown_secs,
        )->0 < t),
{
    lemma_status_literals();
    lemma_outcome_literals();
}

/// A key reported `auth-failed` is never leased again.
pub proof fn lemma_auth_failed_never_leased(
    k: KeyRowView,
    p: Provider,
    retry_after: Option<i64>,
    now: i64,
    rl_cooldown_secs: i64,
    quota_cooldown_secs: i64,
    t: int,
)
    ensures
        !leasable(after_report(k, "auth-failed"@, retry_after, now, rl_cooldown_secs, quota_cooldown_secs), p, t),
{
    lemma_status_literals();
    lemma_outcome_literals();
}

/// A report of success (or of any outcome that is neither a limit nor an auth failure) leaves
/// the key active with no cooldown: it is leasable for its provider at once.
pub proof fn lemma_ok_report_frees_key(
    k: KeyRowView,
    p: Provider,
    result: Seq<char>,
    retry_after: Option<i64>,
    now: i64,
    rl_cooldown_secs: i64,
    quota_cooldown_secs: i64,
    t: int,
)
    requires
        result != "429"@,
        result != "402"@,
        result != "quota"@,
        result != "auth-failed"@,
    ensures
        leasable(after_report(k, result, retry_after, now, rl_cooldown_secs, quota_cooldown_secs), p, t)
            <==> k.provider == provider_name(p),
{
    lemma_status_literals();
}

/// Leasing rotates keys: once the chosen key has been leased at `now`, a later lease does not
/// pick it again while another leasable key was last used before `now` (or never).
pub proof fn lemma_lease_rotates(rows: Seq<KeyRowView>, p: Provider, now: i64, i: int, j: int, t: int)
    requires
        is_lease_choice(rows, p, now as int, i),
        0 <= j < rows.len(),
        j != i,
        leasable(rows[j], p, t),
        match rows[j].last_used_at {
            None => true,
            Some(u) => u < now,
        },
    ensures
        !is_lease_choice(rows.update(i, after_lease(rows[i], now)), p, t, i),
{
    let rows2 = rows.update(i, after_lease(rows[i], now));
    assert(rows2[j] == rows[j]);
    assert(!lru_le(rows2[i], rows2[j]));
}

/// A run of leases for `p`: lease `k`, made at `times[k]`, picks `choices[k]` in the table
/// `states[k]` and leaves the table `states[k + 1]`.
pub open spec fn is_lease_run(states: Seq<Seq<KeyRowView>>, p: Provider, times: Seq<i64>, choices: Seq<int>) -> bool {
    &&& states.len() == times.len() + 1
    &&& choices.len() == times.len()
    &&& forall|k: int|
        0 <= k < times.len() ==> {
            &&& #[trigger] is_lease_choice(states[k], p, times[k] as int, choices[k])
            &&& states[k + 1] == states[k].update(choices[k], after_lease(states[k][choices[k]], times[k]))
        }
}

/// The key was last used before time `t` (or never).
pub open spec fn used_before(k: KeyRowView, t: int) -> bool {
    match k.last_used_at {
        None => true,
        Some(u) => u < t,
    }
}

proof fn lemma_some_index_unused(s: Seq<int>, n: int) -> (u: int)
    requires
        s.no_duplicates(),
        s.len() < n,
    ensures
        0 <= u < n,
        !s.contains(u),
{
    broadcast use vstd::set::group_set_axioms;
    broadcast use vstd::seq_lib::seq_to_set_is_finite;

    s.unique_seq_to_set();
    vstd::set_lib::lemma_int_range(0, n);
    if forall|u: int| 0 <= u < n ==> s.contains(u) {
        assert(vstd::set_lib::set_int_range(0, n).subset_of(s.to_set()));
        vstd::set_lib::lemma_len_subset(vstd::set_lib::set_int_range(0, n), s.to_set());
        assert(false);
    }
    choose|u: int| 0 <= u < n && !s.contains(u)
}

/// What holds of a lease run after its first `k` leases (see `lemma_leases_round_robin`).
pub open spec fn round_robin_inv(
    states: Seq<Seq<KeyRowView>>,
    times: Seq<i64>,
    choices: Seq<int>,
    t0: int,
    n: int,
    k: int,
) -> bool {
    &&& states[k].len() == n
    &&& choices.take(k).no_duplicates()
    &&& forall|i: int|
        0 <= i < n ==> {
            &&& (#[trigger] states[k][i]).provider == states[0][i].provider
            &&& usable_status(states[k][i].status)
            &&& cooled_down(states[k][i].cooldown_until, t0)
        }
    &&& forall|j: int| 0 <= j < k ==> (#[trigger] states[k][choices[j]]).last_used_at == Some(times[j])
    &&& forall|j: int| 0 <= j < k ==> 0 <= #[trigger] choices[j] < n
    &&& forall|i: int| 0 <= i < n && !choices.take(k).contains(i) ==> #[trigger] states[k][i] == states[0][i]
}

proof fn lemma_round_robin_prefix(
    states: Seq<Seq<KeyRowView>>,
    p: Provider,
    times: Seq<i64>,
    choices: Seq<int>,
    t0: int,
    k: int,
)
    requires
        is_lease_run(states, p, times, choices),
        times.len() <= states[0].len(),
        forall|i: int| 0 <= i < states[0].len() ==> leasable(#[trigger] states[0][i], p, t0) && used_before(states[0][i], t0),
        forall|j: int| 0 <= j < times.len() ==> t0 <= #[trigger] times[j],
        0 <= k <= times.len(),
    ensures
        round_robin_inv(states, times, choices, t0, states[0].len() as int, k),
    decreases k,
{
    let n: int = states[0].len() as int;
    if k == 0 {
        assert(choices.take(0) =~= Seq::<int>::empty());
        return;
    }
    let k0 = k - 1;
    lemma_round_robin_prefix(states, p, times, choices, t0, k0);
    lemma_status_literals();
    let c = choices[k0];
    assert(is_lease_choice(states[k0], p, times[k0] as int, c));
    let u = lemma_some_index_unused(choices.take(k0), n);
    assert(states[k0][u] == states[0][u]);
    assert(leasable(states[k0][u], p, times[k0] as int));
    if choices.take(k0).contains(c) {
        let j = choose|j: int| 0 <= j < k0 && choices.take(k0)[j] == c;
        assert(choices[j] == c);
        assert(states[k0][c].last_used_at == Some(times[j]));
        assert(!lru_le(states[k0][c], states[k0][u]));
        assert(false);
    }
    assert(states[k] == states[k0].update(c, after_lease(states[k0][c], times[k0])));
    assert(choices.take(k) =~= choices.take(k0).push(c));
    assert forall|i: int| 0 <= i < n && !choices.take(k).contains(i) implies #[trigger] states[k][i] == states[0][i] by {
        assert(choices.take(k)[k0] == c);
        assert(i != c);
        assert(!choices.take(k0).contains(i)) by {
            if choices.take(k0).contains(i) {
                let j = choose|j: int| 0 <= j < k0 && choices.take(k0)[j] == i;
                assert(choices.take(k)[j] == i);
            }
        }
    }
    assert forall|j: int| 0 <= j < k implies (#[trigger] states[k][choices[j]]).last_used_at == Some(times[j]) by {
        if j < k0 {
            assert(choices.take(k0)[j] == choices[j]);
            assert(choices[j] != c);
        }
    }
    assert forall|a: int, b: int| 0 <= a < k && 0 <= b < k && a != b implies choices.take(k)[a] != choices.take(k)[b] by {
        if a < k0 && b < k0 {
            assert(choices.take(k0)[a] == choices.take(k)[a]);
            assert(choices.take(k0)[b] == choices.take(k)[b]);
        } else if a == k0 {
            assert(choices.take(k0)[b] == choices[b]);
        } else {
            assert(choices.take(k0)[a] == choices[a]);
        }
    }
}

/// Round robin: when every key of the table is available for `p` from time `t0` on and none
/// was used since `t0`, leases made at or after `t0` hand out distinct keys for as long as
/// there are keys left: with `n` keys, `n` leases use each key once.
pub proof fn lemma_leases_round_robin(
    states: Seq<Seq<KeyRowView>>,
    p: Provider,
    times: Seq<i64>,
    choices: Seq<int>,
    t0: int,
)
    requires
        is_lease_run(states, p, times, choices),
        times.len() <= states[0].len(),
        forall|i: int| 0 <= i < states[0].len() ==> leasable(#[trigger] states[0][i], p, t0) && used_before(states[0][i], t0),
        forall|k: int| 0 <= k < times.len() ==> t0 <= #[trigger] times[k],
    ensures
        choices.no_duplicates(),
{
    lemma_round_robin_prefix(states, p, times, choices, t0, times.len() as int);
    assert(choices.take(times.len() as int) =~= choices);
}

/// A leased key is active afterwards, whatever its status was.
pub proof fn lemma_lease_reactivates(k: KeyRowView, now: i64)
    ensures
        after_lease(k, now).status == "active"@,
        k.status != "active"@ ==> after_lease(k, now).cooldown_until is None,
        after_lease(k, now).last_used_at == Some(now),
{
}

/// A Unix time in seconds that the `time` crate can represent: its dates run from year
/// -999,999 to year 999,999 at the widest (with its `large-dates` feature; -9999 to 9999
/// without), which is well within 10^14 seconds of the epoch either way.
pub open spec fn representable_unix_secs(t: int) -> bool {
    -100_000_000_000_000 <= t <= 100_000_000_000_000
}

/// The current Unix time in seconds (`time::OffsetDateTime::now_utc().unix_timestamp()`).
/// It reads the system clock, so which second it gives is not stated; it is stated only
/// that the value is a time `OffsetDateTime` can hold (see `representable_unix_secs`).
#[verifier::external_body]
pub fn now_ts() -> (r: i64)
    ensures
        representable_unix_secs(r as int),
{
    time::OffsetDateTime::now_utc().unix_timestamp()
}

/// A leased key handed to a mode-A wrapper or mode-B proxy worker.
pub struct Lease {
    pub key_id: i64,
    pub key_value: String,
    pub lease_id: String,
    pub provider: Provider,
}

/// The key chosen by a lease, and what must be written back for it.
pub struct LeasePick {
    /// Position of the chosen row among the rows given.
    pub index: usize,
    /// The row was not `active` and must be reactivated (status `active`, no cooldown).
    pub reactivate: bool,
    pub lease: Lease,
}

/// The outcome of a lease attempt at time `now`.
pub struct LeasePlan {
    pub now: i64,
    pub pick: Option<LeasePick>,
}

/// A lease never hands out a key that is still cooling down at the time it decides at (its
/// cooldown end not before that time), nor one of another provider, nor an auth-failed or
/// disabled key; and among the keys it could hand out it takes one used least recently.
pub proof fn lemma_lease_choice_available(rows: Seq<KeyRowView>, p: Provider, now: i64, i: int)
    requires
        is_lease_choice(rows, p, now as int, i),
    ensures
        rows[i].cooldown_until matches Some(c) ==> c < now,
        rows[i].provider == provider_name(p),
        rows[i].status != "auth-failed"@ && rows[i].status != "disabled"@,
        forall|j: int|
            0 <= j < rows.len() && rows[j].provider == provider_name(p) && rows[j].status != "auth-failed"@
                && rows[j].status != "disabled"@ && (rows[j].cooldown_until matches Some(c) ==> c < now)
                ==> match (rows[i].last_used_at, #[trigger] rows[j].last_used_at) {
                (Some(x), Some(y)) => x <= y,
                (Some(_), None) => false,
                _ => true,
            },
{
    assert forall|j: int|
        0 <= j < rows.len() && rows[j].provider == provider_name(p) && rows[j].status != "auth-failed"@
            && rows[j].status != "disabled"@ && (rows[j].cooldown_until matches Some(c) ==> c < now)
            implies match (rows[i].last_used_at, #[trigger] rows[j].last_used_at) {
            (Some(x), Some(y)) => x <= y,
            (Some(_), None) => false,
            _ => true,
        } by {
        assert(leasable(rows[j], p, now as int));
        assert(lru_le(rows[i], rows[j]));
    }
}

/// Leases a key for `provider` out of `rows` at the current time: the least-recently-used
/// available key (a key whose cooldown has expired is available again and is reactivated),
/// with a fresh lease id. `pick` is `None` when no key is available.
pub fn plan_lease(rows: &Vec<KeyRow>, provider: Provider) -> (r: LeasePlan)
    ensures
        representable_unix_secs(r.now as int),
        r.pick matches Some(pk) ==> (rows@[pk.index as int].cooldown_until matches Some(c) ==> c < r.now),
        r.pick matches Some(pk) ==> rows@[pk.index as int].provider@ == provider_name(provider),
        forall|j: int|
            #![trigger rows@[j]]
            0 <= j < rows.len() && rows@[j].provider@ == provider_name(provider) && usable_status(rows@[j].status@)
                && (rows@[j].cooldown_until is None || rows@[j].cooldown_until->0 < r.now) ==> r.pick is Some,
        r.pick is None <==> !any_leasable(rows_view(rows@), provider, r.now as int),
        r.pick matches Some(pk) ==> {
            &&& is_lease_choice(rows_view(rows@), provider, r.now as int, pk.index as int)
            &&& pk.reactivate == (rows@[pk.index as int]@.status != "active"@)
            &&& pk.lease.key_id == rows@[pk.index as int].id
            &&& pk.lease.key_value@ == rows@[pk.index as int].key_value@
            &&& pk.lease.provider == provider
            &&& hyphenated_v4_shape(pk.lease.lease_id@)
        },
{
    let now = now_ts();
    let ghost rv = rows_view(rows@);
    match select_lease(rows, provider, now) {
        None => {
            proof {
                assert forall|j: int|
                    #![trigger rows@[j]]
                    0 <= j < rows.len() && rows@[j].provider@ == provider_name(provider) && usable_status(
                        rows@[j].status@,
                    ) && (rows@[j].cooldown_until is None || rows@[j].cooldown_until->0 < now) implies false by {
                    assert(rv[j] == rows@[j]@);
                    assert(leasable(rv[j], provider, now as int));
                }
            }
            LeasePlan { now, pick: None }
        },
        Some(i) => {
            proof {
                lemma_lease_choice_available(rv, provider, now, i as int);
                assert(rv[i as int] == rows@[i as int]@);
            }
            let row = &rows[i];
            let lease = Lease {
                key_id: row.id,
                key_value: row.key_value.clone(),
                lease_id: new_lease_id(),
                provider,
            };
            LeasePlan { now, pick: Some(LeasePick { index: i, reactivate: needs_reactivation(row), lease }) }
        },
    }
}

/// A key row after the usage refresh set its status, cooldown and last error.
pub open spec fn after_mark(k: KeyRowView, status: Seq<char>, cooldown_until: Option<i64>, error: Seq<char>) -> KeyRowView {
    KeyRowView { status, cooldown_until, last_error: Some(error), ..k }
}

/// A key row after the usage refresh recorded its remaining credits.
pub open spec fn after_credits(k: KeyRowView, credits: i64) -> KeyRowView {
    KeyRowView { credits_remaining: Some(credits), ..k }
}

/// How many rows have status `s`.
pub open spec fn count_status(rows: Seq<KeyRowView>, s: Seq<char>) -> nat
    decreases rows.len(),
{
    if rows.len() == 0 {
        0
    } else {
        count_status(rows.drop_last(), s) + if rows.last().status == s {
            1nat
        } else {
            0nat
        }
    }
}

proof fn lemma_count_bound(rows: Seq<KeyRowView>, s: Seq<char>)
    ensures
        count_status(rows, s) <= rows.len(),
    decreases rows.len(),
{
    if rows.len() > 0 {
        lemma_count_bound(rows.drop_last(), s);
    }
}

/// The sum of the counts in a list of status groups.
pub open spec fn sum_counts(groups: Seq<(String, i64)>) -> int
    decreases groups.len(),
{
    if groups.len() == 0 {
        0
    } else {
        sum_counts(groups.drop_last()) + groups.last().1
    }
}

proof fn lemma_sum_counts_update(groups: Seq<(String, i64)>, g: int, x: (String, i64))
    requires
        0 <= g < groups.len(),
    ensures
        sum_counts(groups.update(g, x)) == sum_counts(groups) - groups[g].1 + x.1,
    decreases groups.len(),
{
    if g < groups.len() - 1 {
        assert(groups.update(g, x).drop_last() =~= groups.drop_last().update(g, x));
        lemma_sum_counts_update(groups.drop_last(), g, x);
    } else {
        assert(groups.update(g, x).drop_last() =~= groups.drop_last());
    }
}

/// Counts of keys by status, and totals.
#[derive(Debug, Clone)]
pub struct PoolStats {
    /// Each status that occurs, once, with the number of keys in it.
    pub keys_by_status: Vec<(String, i64)>,
    pub total_keys: i64,
    pub total_users: i64,
}

/// The statuses of `groups` are distinct, each is counted exactly, and every status that
/// occurs among `rows` is listed.
pub open spec fn groups_count(groups: Seq<(String, i64)>, rows: Seq<KeyRowView>) -> bool {
    &&& forall|a: int, b: int| 0 <= a < b < groups.len() ==> groups[a].0@ != groups[b].0@
    &&& forall|g: int| 0 <= g < groups.len() ==> {
        &&& groups[g].1 == count_status(rows, groups[g].0@)
        &&& groups[g].1 >= 1
    }
    &&& forall|s: Seq<char>| count_status(rows, s) > 0 ==> exists|g: int| 0 <= g < groups.len() && groups[g].0@ == s
}

fn find_group(groups: &Vec<(String, i64)>, status: &str) -> (r: Option<usize>)
    ensures
        r matches Some(g) ==> g < groups.len() && groups@[g as int].0@ == status@,
        r is None ==> forall|g: int| 0 <= g < groups.len() ==> groups@[g].0@ != status@,
{
    let mut g: usize = 0;
    while g < groups.len()
        invariant
            g <= groups.len(),
            forall|h: int| 0 <= h < g ==> groups@[h].0@ != status@,
        decreases groups.len() - g,
    {
        if str_eq(groups[g].0.as_str(), status) {
            return Some(g);
        }
        g = g + 1;
    }
    None
}

/// Pool statistics over all key rows: how many keys are in each status, how many keys
/// there are, and the number of users.
pub fn pool_stats(rows: &Vec<KeyRow>, total_users: i64) -> (r: PoolStats)
    requires
        rows.len() <= i64::MAX,
    ensures
        groups_count(r.keys_by_status@, rows_view(rows@)),
        r.total_keys == rows.len(),
        sum_counts(r.keys_by_status@) == r.total_keys,
        r.total_users == total_users,
{
    let ghost rv = rows_view(rows@);
    let mut groups: Vec<(String, i64)> = Vec::new();
    let mut i: usize = 0;
    while i < rows.len()
        invariant
            i <= rows.len(),
            rows.len() <= i64::MAX,
            rv == rows_view(rows@),
            rv.len() == rows.len(),
            groups_count(groups@, rv.take(i as int)),
            sum_counts(groups@) == i,
        decreases rows.len() - i,
    {
        let ghost old_groups = groups@;
        let ghost pre = rv.take(i as int);
        let ghost post = rv.take(i + 1);
        assert(post.drop_last() =~= pre);
        assert(post.last() == rows@[i as int]@);
        let status = &rows[i].status;
        assert forall|s: Seq<char>| #[trigger] count_status(post, s) == count_status(pre, s) + if rows@[i as int]@.status == s {
            1nat
        } else {
            0nat
        } by {}
        match find_group(&groups, status.as_str()) {
            Some(g) => {
                proof {
                    lemma_count_bound(pre, status@);
                }
                let n = groups[g].1;
                let name = groups[g].0.clone();
                groups.set(g, (name, n + 1));
                proof {
                    lemma_sum_counts_update(old_groups, g as int, groups@[g as int]);
                    assert forall|s: Seq<char>| count_status(post, s) > 0 implies exists|h: int| 0 <= h < groups@.len() && groups@[h].0@ == s by {
                        if s == status@ {
                            assert(groups@[g as int].0@ == s);
                        } else {
                            assert(count_status(pre, s) > 0);
                            let h = choose|h: int| 0 <= h < old_groups.len() && old_groups[h].0@ == s;
                            assert(groups@[h].0@ == s);
                        }
                    }
                }
            },
            None => {
                groups.push((status.clone(), 1));
                proof {
                    assert(groups@.drop_last() =~= old_groups);
                    assert forall|g: int| 0 <= g < old_groups.len() implies count_status(pre, #[trigger] old_groups[g].0@) == count_status(post, old_groups[g].0@) by {}
                    assert(count_status(pre, status@) == 0) by {
                        if count_status(pre, status@) > 0 {
                            let h = choose|h: int| 0 <= h < old_groups.len() && old_groups[h].0@ == status@;
                        }
                    }
                    assert forall|s: Seq<char>| count_status(post, s) > 0 implies exists|h: int| 0 <= h < groups@.len() && groups@[h].0@ == s by {
                        if s == status@ {
                            assert(groups@[old_groups.len() as int].0@ == s);
                        } else {
                            assert(count_status(pre, s) > 0);
                            let h = choose|h: int| 0 <= h < old_groups.len() && old_groups[h].0@ == s;
                            assert(groups@[h].0@ == s);
                        }
                    }
                }
            },
        }
        i = i + 1;
    }
    assert(rv.take(rows.len() as int) =~= rv);
    PoolStats { keys_by_status: groups, total_keys: rows.len() as i64, total_users }
}

} // verus!
