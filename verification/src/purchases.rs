//! Whether an Apple account owns an app: from the service's own records, a short-lived
//! cache, or the store's reply to a download query.
use vstd::prelude::*;
use crate::apple::{lower_text, members_value, to_lower};
use crate::download_flow::reply_ok;
use crate::download_jobs::query_error_text;
use crate::json::JsonNode;
use crate::text::{chars_of, contains_run, opt_text, push_str, seq_contains_run, string_from_chars};

verus! {

/// Whether an account owns an app, as clients are told.
#[derive(Debug, Clone)]
pub struct PurchaseStatus {
    pub purchased: bool,
    pub needs_purchase: bool,
    /// `owned`, `not_owned`, `unknown` or `error`.
    pub status: String,
    pub error: Option<String>,
}

/// How long a cached answer is trusted, in seconds.
pub open spec fn purchase_cache_ttl() -> int {
    300
}

/// Whether a cached answer of this age (in whole seconds) is still trusted.
pub fn purchase_cache_fresh(age_seconds: u64) -> (r: bool)
    ensures
        r == (age_seconds < purchase_cache_ttl()),
{
    age_seconds < 300
}

/// Whether a status is exactly these values.
pub open spec fn status_is(s: PurchaseStatus, purchased: bool, needs_purchase: bool, status: Seq<char>, error: Option<Seq<char>>) -> bool {
    s.purchased == purchased && s.needs_purchase == needs_purchase && s.status@ == status && opt_text(s.error) == error
}

/// The status of an app the account owns.
pub fn owned_status() -> (r: PurchaseStatus)
    ensures
        status_is(r, true, false, "owned"@, None),
{
    PurchaseStatus { purchased: true, needs_purchase: false, status: "owned".to_owned(), error: None }
}

/// The status word of a known answer: `owned`, else `not_owned` when a purchase is
/// needed, else `unknown`.
pub open spec fn status_word(purchased: bool, needs_purchase: bool) -> Seq<char> {
    if purchased { "owned"@ } else if needs_purchase { "not_owned"@ } else { "unknown"@ }
}

/// The status of a cached answer.
pub fn cached_purchase_status(purchased: bool, needs_purchase: bool) -> (r: PurchaseStatus)
    ensures
        status_is(r, purchased, needs_purchase, status_word(purchased, needs_purchase), None),
{
    let status = if purchased {
        "owned".to_owned()
    } else if needs_purchase {
        "not_owned".to_owned()
    } else {
        "unknown".to_owned()
    };
    PurchaseStatus { purchased, needs_purchase, status, error: None }
}

/// The phrases that, lower-cased, mean the account does not own the app.
pub open spec fn not_owned_phrases() -> Seq<Seq<char>> {
    seq!["license"@, "not found"@, "not purchased"@, "not owned"@]
}

/// The phrases that, as written, mean the account does not own the app.
pub open spec fn not_owned_marks() -> Seq<Seq<char>> {
    seq!["未购买"@, "未领取"@, "未找到"@]
}

/// Whether a failure message means the account does not own the app.
pub open spec fn spec_not_owned(message: Seq<char>) -> bool {
    (exists|i: int| 0 <= i < not_owned_phrases().len() && seq_contains_run(lower_text(message), #[trigger] not_owned_phrases()[i]))
        || (exists|i: int| 0 <= i < not_owned_marks().len() && seq_contains_run(message, #[trigger] not_owned_marks()[i]))
}

fn not_owned_phrase(k: usize) -> (r: &'static str)
    requires
        k < 4,
    ensures
        r@ == not_owned_phrases()[k as int],
{
    if k == 0 {
        "license"
    } else if k == 1 {
        "not found"
    } else if k == 2 {
        "not purchased"
    } else {
        "not owned"
    }
}

fn not_owned_mark(k: usize) -> (r: &'static str)
    requires
        k < 3,
    ensures
        r@ == not_owned_marks()[k as int],
{
    if k == 0 {
        "未购买"
    } else if k == 1 {
        "未领取"
    } else {
        "未找到"
    }
}

/// Whether a failure message means the account does not own the app (see
/// [`spec_not_owned`]).
pub fn not_owned(message: &str) -> (r: bool)
    ensures
        r == spec_not_owned(message@),
{
    let lowered = chars_of(to_lower(message).as_str());
    let plain = chars_of(message);
    let mut k: usize = 0;
    while k < 4
        invariant
            k <= 4,
            lowered@ == lower_text(message@),
            forall|i: int| 0 <= i < k ==> !seq_contains_run(lowered@, #[trigger] not_owned_phrases()[i]),
        decreases 4 - k,
    {
        if contains_run(lowered.as_slice(), chars_of(not_owned_phrase(k)).as_slice()) {
            assert(seq_contains_run(lower_text(message@), not_owned_phrases()[k as int]));
            return true;
        }
        k = k + 1;
    }
    let mut j: usize = 0;
    while j < 3
        invariant
            j <= 3,
            plain@ == message@,
            forall|i: int| 0 <= i < j ==> !seq_contains_run(plain@, #[trigger] not_owned_marks()[i]),
        decreases 3 - j,
    {
        if contains_run(plain.as_slice(), chars_of(not_owned_mark(j)).as_slice()) {
            assert(seq_contains_run(message@, not_owned_marks()[j as int]));
            return true;
        }
        j = j + 1;
    }
    false
}

/// The status the store's reply to a download query gives: owned on success; otherwise
/// not owned with the reply's message (see [`query_error_text`]), needing a purchase when
/// the message says so (see [`spec_not_owned`]).
pub open spec fn spec_reply_status(reply: Seq<(String, JsonNode)>, r: PurchaseStatus) -> bool {
    if reply_ok(reply) {
        status_is(r, true, false, "owned"@, None)
    } else {
        let m = query_error_text(reply);
        status_is(r, false, spec_not_owned(m), status_word(false, spec_not_owned(m)), Some(m))
    }
}

/// The status the store's reply to a download query gives (see [`spec_reply_status`]).
pub fn purchase_status_from_reply(reply: &Vec<(String, JsonNode)>) -> (r: PurchaseStatus)
    ensures
        spec_reply_status(reply@, r),
{
    let success = "success".to_owned();
    let ok = match members_value(reply, "_state") {
        Some(JsonNode::String(s)) => *s == success,
        _ => false,
    };
    if ok {
        return owned_status();
    }
    let first = match members_value(reply, "customerMessage") {
        Some(v) => Some(v),
        None => match members_value(reply, "failureType") {
            Some(v) => Some(v),
            None => members_value(reply, "message"),
        },
    };
    let message = match first {
        Some(JsonNode::String(s)) => s.clone(),
        _ => "下载失败".to_owned(),
    };
    let needs = not_owned(message.as_str());
    let status = if needs { "not_owned".to_owned() } else { "unknown".to_owned() };
    PurchaseStatus { purchased: false, needs_purchase: needs, status, error: Some(message) }
}

/// The status of an app whose query failed before the store answered.
pub fn purchase_query_failed(error: &str) -> (r: PurchaseStatus)
    ensures
        status_is(r, false, false, "error"@, Some("查询失败: "@ + error@)),
{
    let mut buf: Vec<char> = Vec::new();
    push_str(&mut buf, "查询失败: ");
    push_str(&mut buf, error);
    PurchaseStatus { purchased: false, needs_purchase: false, status: "error".to_owned(), error: Some(string_from_chars(buf.as_slice())) }
}

/// The apps still to be checked: those not known to be owned, in order.
pub open spec fn spec_unowned(appids: Seq<Seq<char>>, owned: Seq<Seq<char>>) -> Seq<Seq<char>> {
    appids.filter(|a: Seq<char>| !owned.contains(a))
}

/// The apps still to be checked (see [`spec_unowned`]).
pub fn apps_to_check(appids: &Vec<String>, owned: &Vec<String>) -> (r: Vec<String>)
    ensures
        r.deep_view() == spec_unowned(appids.deep_view(), owned.deep_view()),
{
    let ghost ids = appids.deep_view();
    let ghost known = owned.deep_view();
    let mut out: Vec<String> = Vec::new();
    let mut i: usize = 0;
    while i < appids.len()
        invariant
            i <= ids.len(),
            ids == appids.deep_view(),
            known == owned.deep_view(),
            out.deep_view() == spec_unowned(ids.take(i as int), known),
        decreases ids.len() - i,
    {
        proof {
            assert(ids.take(i + 1).drop_last() =~= ids.take(i as int));
            assert(ids.take(i + 1).last() == ids[i as int]);
            ids.take(i as int).lemma_filter_push(ids[i as int], |a: Seq<char>| !known.contains(a));
            assert(ids.take(i as int).push(ids[i as int]) =~= ids.take(i + 1));
        }
        if !crate::injection::contains_string(owned, &appids[i]) {
            let ghost before = out.deep_view();
            out.push(appids[i].clone());
            assert(out.deep_view() =~= before.push(ids[i as int]));
        }
        i = i + 1;
    }
    assert(ids.take(ids.len() as int) =~= ids);
    out
}

/// A cached answer about one app for the account, with its age in whole seconds.
#[derive(Debug, Clone)]
pub struct CachedPurchase {
    pub appid: String,
    pub purchased: bool,
    pub needs_purchase: bool,
    pub age_seconds: u64,
}

/// A status as plain values: purchased, needs a purchase, status word, error.
pub open spec fn status_view(s: PurchaseStatus) -> (bool, bool, Seq<char>, Option<Seq<char>>) {
    (s.purchased, s.needs_purchase, s.status@, opt_text(s.error))
}

/// The first cache entry for app `a` at or after position `i`.
pub open spec fn cache_entry_from(cached: Seq<CachedPurchase>, a: Seq<char>, i: int) -> Option<CachedPurchase>
    decreases cached.len() - i,
{
    if i < 0 || i >= cached.len() {
        None
    } else if cached[i].appid@ == a {
        Some(cached[i])
    } else {
        cache_entry_from(cached, a, i + 1)
    }
}

/// The cached answer for app `a` that is still trusted (see [`purchase_cache_fresh`]):
/// its first cache entry, when young enough.
pub open spec fn fresh_cache_entry(cached: Seq<CachedPurchase>, a: Seq<char>) -> Option<CachedPurchase> {
    match cache_entry_from(cached, a, 0) {
        Some(e) => if e.age_seconds < purchase_cache_ttl() { Some(e) } else { None },
        None => None,
    }
}

/// Whether app `a` is asked of the store: it is not recorded as owned and has no trusted
/// cached answer.
pub open spec fn needs_store_query(owned: Seq<Seq<char>>, cached: Seq<CachedPurchase>, a: Seq<char>) -> bool {
    !owned.contains(a) && fresh_cache_entry(cached, a) is None
}

/// The apps asked of the store, in request order; a repeated request is asked again.
pub open spec fn spec_store_queries(appids: Seq<Seq<char>>, owned: Seq<Seq<char>>, cached: Seq<CachedPurchase>) -> Seq<Seq<char>>
    decreases appids.len(),
{
    if appids.len() == 0 {
        Seq::empty()
    } else {
        let prev = spec_store_queries(appids.drop_last(), owned, cached);
        if needs_store_query(owned, cached, appids.last()) { prev.push(appids.last()) } else { prev }
    }
}

/// The last position of `a` in `q`, or -1.
pub open spec fn last_position(q: Seq<Seq<char>>, a: Seq<char>) -> int
    decreases q.len(),
{
    if q.len() == 0 {
        -1
    } else if q.last() == a {
        q.len() - 1
    } else {
        last_position(q.drop_last(), a)
    }
}

/// The answer about one requested app: owned when the service records it as owned; else
/// the trusted cached answer; else the store's answer to the last query about it
/// (`answers[k]` answers the `k`-th query of [`spec_store_queries`]).
pub open spec fn spec_batch_answer(
    appids: Seq<Seq<char>>,
    owned: Seq<Seq<char>>,
    cached: Seq<CachedPurchase>,
    answers: Seq<PurchaseStatus>,
    a: Seq<char>,
) -> (bool, bool, Seq<char>, Option<Seq<char>>) {
    if owned.contains(a) {
        (true, false, "owned"@, None)
    } else {
        match fresh_cache_entry(cached, a) {
            Some(e) => (e.purchased, e.needs_purchase, status_word(e.purchased, e.needs_purchase), None),
            None => status_view(answers[last_position(spec_store_queries(appids, owned, cached), a)]),
        }
    }
}

/// The apps an answer speaks of, in order.
pub open spec fn answer_keys(r: Seq<(String, PurchaseStatus)>) -> Seq<Seq<char>> {
    Seq::new(r.len(), |j: int| r[j].0@)
}

/// The trusted cached answer for an app (see [`fresh_cache_entry`]).
pub fn fresh_cached_purchase<'a>(cached: &'a Vec<CachedPurchase>, appid: &String) -> (r: Option<&'a CachedPurchase>)
    ensures
        match fresh_cache_entry(cached@, appid@) {
            Some(e) => r matches Some(x) && *x == e,
            None => r is None,
        },
{
    let mut i: usize = 0;
    while i < cached.len()
        invariant
            i <= cached@.len(),
            cache_entry_from(cached@, appid@, 0) == cache_entry_from(cached@, appid@, i as int),
        decreases cached@.len() - i,
    {
        if cached[i].appid == *appid {
            if purchase_cache_fresh(cached[i].age_seconds) {
                return Some(&cached[i]);
            }
            return None;
        }
        i = i + 1;
    }
    None
}

/// The apps to ask the store about (see [`spec_store_queries`]).
pub fn store_queries(appids: &Vec<String>, owned: &Vec<String>, cached: &Vec<CachedPurchase>) -> (r: Vec<String>)
    ensures
        r.deep_view() == spec_store_queries(appids.deep_view(), owned.deep_view(), cached@),
{
    let ghost ids = appids.deep_view();
    let mut out: Vec<String> = Vec::new();
    let mut i: usize = 0;
    while i < appids.len()
        invariant
            i <= ids.len(),
            ids == appids.deep_view(),
            out.deep_view() == spec_store_queries(ids.take(i as int), owned.deep_view(), cached@),
        decreases ids.len() - i,
    {
        assert(ids.take(i + 1).drop_last() =~= ids.take(i as int));
        assert(ids.take(i + 1).last() == ids[i as int]);
        let known = crate::injection::contains_string(owned, &appids[i]);
        let hit = fresh_cached_purchase(cached, &appids[i]);
        if !known && hit.is_none() {
            let ghost before = out.deep_view();
            out.push(appids[i].clone());
            assert(out.deep_view() =~= before.push(ids[i as int]));
        }
        i = i + 1;
    }
    assert(ids.take(ids.len() as int) =~= ids);
    out
}

/// An app the service records as owned, or with a trusted cached answer, is never asked
/// of the store.
pub proof fn lemma_owned_never_queried(appids: Seq<Seq<char>>, owned: Seq<Seq<char>>, cached: Seq<CachedPurchase>)
    ensures
        forall|k: int| 0 <= k < spec_store_queries(appids, owned, cached).len()
            ==> needs_store_query(owned, cached, #[trigger] spec_store_queries(appids, owned, cached)[k]),
    decreases appids.len(),
{
    if appids.len() > 0 {
        lemma_owned_never_queried(appids.drop_last(), owned, cached);
        let prev = spec_store_queries(appids.drop_last(), owned, cached);
        let q = spec_store_queries(appids, owned, cached);
        assert forall|k: int| 0 <= k < q.len() implies needs_store_query(owned, cached, #[trigger] q[k]) by {
            if k < prev.len() {
                assert(q[k] == prev[k]);
            }
        }
    }
}

proof fn lemma_queried(appids: Seq<Seq<char>>, owned: Seq<Seq<char>>, cached: Seq<CachedPurchase>, a: Seq<char>)
    requires
        appids.contains(a),
        needs_store_query(owned, cached, a),
    ensures
        spec_store_queries(appids, owned, cached).contains(a),
    decreases appids.len(),
{
    let q = spec_store_queries(appids, owned, cached);
    if appids.last() == a {
        assert(q.last() == a);
    } else {
        let k = choose|k: int| 0 <= k < appids.len() && appids[k] == a;
        assert(appids.drop_last()[k] == a);
        lemma_queried(appids.drop_last(), owned, cached, a);
        let prev = spec_store_queries(appids.drop_last(), owned, cached);
        let j = choose|j: int| 0 <= j < prev.len() && prev[j] == a;
        assert(q[j] == a);
    }
}

proof fn lemma_last_position(q: Seq<Seq<char>>, a: Seq<char>)
    requires
        q.contains(a),
    ensures
        0 <= last_position(q, a) < q.len(),
        q[last_position(q, a)] == a,
    decreases q.len(),
{
    if q.last() != a {
        let k = choose|k: int| 0 <= k < q.len() && q[k] == a;
        assert(q.drop_last()[k] == a);
        lemma_last_position(q.drop_last(), a);
    }
}

/// The answer to a batch purchase-status request: one entry for each distinct requested
/// app, in the order of first request, holding [`spec_batch_answer`].  `answers[k]` is the
/// store's answer to the `k`-th app of [`store_queries`].
pub fn batch_purchase_answers(
    appids: &Vec<String>,
    owned: &Vec<String>,
    cached: &Vec<CachedPurchase>,
    answers: &Vec<PurchaseStatus>,
) -> (r: Vec<(String, PurchaseStatus)>)
    requires
        answers@.len() == spec_store_queries(appids.deep_view(), owned.deep_view(), cached@).len(),
    ensures
        answer_keys(r@).no_duplicates(),
        forall|a: Seq<char>| #[trigger] answer_keys(r@).contains(a) <==> appids.deep_view().contains(a),
        forall|j: int| 0 <= j < r@.len() ==> status_view(#[trigger] r@[j].1) == spec_batch_answer(
            appids.deep_view(),
            owned.deep_view(),
            cached@,
            answers@,
            r@[j].0@,
        ),
{
    let ghost ids = appids.deep_view();
    let queries = store_queries(appids, owned, cached);
    let ghost q = queries.deep_view();
    let mut out: Vec<(String, PurchaseStatus)> = Vec::new();
    let mut keys: Vec<String> = Vec::new();
    let mut i: usize = 0;
    while i < appids.len()
        invariant
            i <= ids.len(),
            ids == appids.deep_view(),
            q == spec_store_queries(ids, owned.deep_view(), cached@),
            q == queries.deep_view(),
            answers@.len() == q.len(),
            keys.deep_view() == answer_keys(out@),
            answer_keys(out@).no_duplicates(),
            forall|a: Seq<char>| #[trigger] answer_keys(out@).contains(a) <==> ids.take(i as int).contains(a),
            forall|j: int| 0 <= j < out@.len() ==> status_view(#[trigger] out@[j].1) == spec_batch_answer(
                ids,
                owned.deep_view(),
                cached@,
                answers@,
                out@[j].0@,
            ),
        decreases ids.len() - i,
    {
        let a = &appids[i];
        assert(ids[i as int] == a@);
        let ghost pre = ids.take(i as int);
        let ghost next = ids.take(i + 1);
        assert(next =~= pre.push(a@));
        proof {
            crate::injection::lemma_push_contains(pre, a@);
        }
        if !crate::injection::contains_string(&keys, a) {
            let status = if crate::injection::contains_string(owned, a) {
                owned_status()
            } else {
                match fresh_cached_purchase(cached, a) {
                    Some(e) => cached_purchase_status(e.purchased, e.needs_purchase),
                    None => {
                        proof {
                            assert(ids.contains(a@));
                            lemma_queried(ids, owned.deep_view(), cached@, a@);
                            lemma_last_position(q, a@);
                        }
                        let mut found: usize = 0;
                        let mut k: usize = 0;
                        while k < queries.len()
                            invariant
                                k <= q.len(),
                                q == queries.deep_view(),
                                found < q.len(),
                                last_position(q.take(k as int), a@) == -1 || last_position(q.take(k as int), a@) == found,
                                q.contains(a@),
                            decreases q.len() - k,
                        {
                            assert(q.take(k + 1).drop_last() =~= q.take(k as int));
                            if queries[k] == *a {
                                found = k;
                            }
                            k = k + 1;
                        }
                        assert(q.take(q.len() as int) =~= q);
                        let s = &answers[found];
                        PurchaseStatus {
                            purchased: s.purchased,
                            needs_purchase: s.needs_purchase,
                            status: s.status.clone(),
                            error: match &s.error {
                                Some(m) => Some(m.clone()),
                                None => None,
                            },
                        }
                    },
                }
            };
            let ghost before = out@;
            out.push((a.clone(), status));
            keys.push(a.clone());
            assert(answer_keys(out@) =~= answer_keys(before).push(a@));
            assert(keys.deep_view() =~= answer_keys(out@));
            proof {
                crate::injection::lemma_push_contains(answer_keys(before), a@);
            }
        }
        assert forall|x: Seq<char>| #[trigger] answer_keys(out@).contains(x) <==> next.contains(x) by {
            assert(next.contains(x) <==> (pre.contains(x) || x == a@));
        }
        i = i + 1;
    }
    assert(ids.take(ids.len() as int) =~= ids);
    out
}

} // verus!
