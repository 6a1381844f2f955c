//! Batch downloads and subscriptions: the record a finished download leaves, how its IPA
//! is delivered, when a failed download is retried, the progress of a batch, and the
//! updates found for subscribed apps.
use vstd::prelude::*;
use crate::inspection::IpaInspection;
use crate::json::{json_get, json_member, json_member_text, json_text, JsonNode};
use crate::models::DeliveryDecision;
use crate::records::{AppUpdate, AuthInfo, DownloadMetadata, DownloadRecord, Subscription};
use crate::delisted::texts;
use crate::text::{push_str, string_from_chars, trim_white};
use crate::text::opt_text;

verus! {

/// A text, unless it is empty.
pub open spec fn unless_empty(t: Seq<char>) -> Option<Seq<char>> {
    if t.len() == 0 { None } else { Some(t) }
}

fn some_unless_empty(t: &String) -> (r: Option<String>)
    ensures
        opt_text(r) == unless_empty(t@),
{
    if t.as_str().is_empty() { None } else { Some(t.clone()) }
}

/// Whether a record is the one a finished batch download leaves: named after the app's
/// display name (else its id), with its bundle id, version, artwork and artist when not
/// empty, completed at 100% `now`, with the file and its size.
pub open spec fn is_batch_record(
    r: DownloadRecord,
    app_id: Seq<char>,
    account_email: Seq<char>,
    metadata: Option<DownloadMetadata>,
    file_path: Seq<char>,
    file_size: Option<i64>,
    now: Seq<char>,
) -> bool {
    &&& r.id is None
    &&& r.job_id is None
    &&& r.app_name@ == match metadata {
        Some(m) => if m.bundle_display_name@.len() > 0 { m.bundle_display_name@ } else { app_id },
        None => app_id,
    }
    &&& r.app_id@ == app_id
    &&& opt_text(r.bundle_id) == match metadata {
        Some(m) => unless_empty(m.bundle_id@),
        None => None,
    }
    &&& opt_text(r.version) == match metadata {
        Some(m) => unless_empty(m.bundle_short_version_string@),
        None => None,
    }
    &&& r.account_email@ == account_email
    &&& r.account_region is None
    &&& opt_text(r.download_date) == Some(now)
    &&& r.status@ == "completed"@
    &&& r.file_size == file_size
    &&& opt_text(r.file_path) == Some(file_path)
    &&& r.install_url is None
    &&& opt_text(r.artwork_url) == match metadata {
        Some(m) => unless_empty(m.artwork_url@),
        None => None,
    }
    &&& opt_text(r.artist_name) == match metadata {
        Some(m) => unless_empty(m.artist_name@),
        None => None,
    }
    &&& r.progress == Some(100i64)
    &&& r.error is None
    &&& r.package_kind is None
    &&& r.ota_installable is None
    &&& r.install_method is None
    &&& r.inspection_json is None
    &&& r.created_at is None
}

/// The record a finished batch download leaves (see [`is_batch_record`]); `now` is the
/// time it finished and `file_size` the size of its file, when known.
pub fn batch_download_record(
    app_id: &str,
    account_email: &str,
    metadata: Option<&DownloadMetadata>,
    file_path: &str,
    file_size: Option<i64>,
    now: String,
) -> (r: DownloadRecord)
    ensures
        is_batch_record(
            r,
            app_id@,
            account_email@,
            match metadata {
                Some(m) => Some(*m),
                None => None,
            },
            file_path@,
            file_size,
            now@,
        ),
{
    let (app_name, bundle_id, version, artwork_url, artist_name) = match metadata {
        Some(m) => (
            if m.bundle_display_name.as_str().is_empty() { app_id.to_owned() } else { m.bundle_display_name.clone() },
            some_unless_empty(&m.bundle_id),
            some_unless_empty(&m.bundle_short_version_string),
            some_unless_empty(&m.artwork_url),
            some_unless_empty(&m.artist_name),
        ),
        None => (app_id.to_owned(), None, None, None, None),
    };
    DownloadRecord {
        id: None,
        job_id: None,
        app_name,
        app_id: app_id.to_owned(),
        bundle_id,
        version,
        account_email: account_email.to_owned(),
        account_region: None,
        download_date: Some(now),
        status: "completed".to_owned(),
        file_size,
        file_path: Some(file_path.to_owned()),
        install_url: None,
        artwork_url,
        artist_name,
        progress: Some(100),
        error: None,
        package_kind: None,
        ota_installable: None,
        install_method: None,
        inspection_json: None,
        created_at: None,
    }
}

/// How a batch-downloaded IPA is delivered: installable and provisioned, over the air as
/// `ota_sideloadable`; with a `.sinf` manifest or encrypted binaries,
/// `fairplay_appstore_package` for download only; otherwise `unknown`, for manual review.
pub open spec fn spec_batch_delivery(i: IpaInspection) -> (Seq<char>, bool, Seq<char>) {
    if i.direct_install_ok && i.has_embedded_mobileprovision {
        ("ota_sideloadable"@, true, "ota"@)
    } else if i.has_sc_info_manifest || i.encrypted_binaries@.len() > 0 {
        ("fairplay_appstore_package"@, false, "download_only"@)
    } else {
        ("unknown"@, false, "manual_review"@)
    }
}

/// How a batch-downloaded IPA is delivered (see [`spec_batch_delivery`]).
pub fn batch_delivery(i: &IpaInspection) -> (d: DeliveryDecision)
    ensures
        (d.package_kind@, d.ota_installable, d.install_method@) == spec_batch_delivery(*i),
{
    if i.direct_install_ok && i.has_embedded_mobileprovision {
        DeliveryDecision { package_kind: "ota_sideloadable".to_owned(), ota_installable: true, install_method: "ota".to_owned() }
    } else if i.has_sc_info_manifest || i.encrypted_binaries.len() > 0 {
        DeliveryDecision {
            package_kind: "fairplay_appstore_package".to_owned(),
            ota_installable: false,
            install_method: "download_only".to_owned(),
        }
    } else {
        DeliveryDecision { package_kind: "unknown".to_owned(), ota_installable: false, install_method: "manual_review".to_owned() }
    }
}

/// The most attempts a batch download gets.
pub const MAX_ATTEMPTS: u32 = 5;

/// Two to the power `n`.
pub open spec fn two_to(n: nat) -> nat
    decreases n,
{
    if n == 0 { 1 } else { 2 * two_to((n - 1) as nat) }
}

/// What follows a failed attempt of a batch download.
#[derive(Debug, Clone, Copy, PartialEq, Eq, Structural)]
pub enum RetryStep {
    /// Wait this long, then try again; `attempts` failed so far.
    Retry { attempts: u32, delay_ms: u64 },
    /// Give up after this many failed attempts.
    GiveUp { attempts: u32 },
}

/// What follows a failure when `failed_before` attempts had failed already: give up at
/// [`MAX_ATTEMPTS`] failures, else wait `3000 · 2^failures` milliseconds and retry.
pub open spec fn spec_after_failure(failed_before: u32) -> RetryStep {
    let attempts = (failed_before + 1) as u32;
    if attempts >= MAX_ATTEMPTS {
        RetryStep::GiveUp { attempts }
    } else {
        RetryStep::Retry { attempts, delay_ms: (3000 * two_to(attempts as nat)) as u64 }
    }
}

/// What follows a failed attempt (see [`spec_after_failure`]).
pub fn after_failure(failed_before: u32) -> (r: RetryStep)
    requires
        failed_before < u32::MAX,
    ensures
        r == spec_after_failure(failed_before),
{
    let attempts = failed_before + 1;
    if attempts >= MAX_ATTEMPTS {
        return RetryStep::GiveUp { attempts };
    }
    let mut delay: u64 = 3000;
    let mut k: u32 = 0;
    while k < attempts
        invariant
            k <= attempts,
            attempts < MAX_ATTEMPTS,
            delay == 3000 * two_to(k as nat),
        decreases attempts - k,
    {
        assert(two_to((k + 1) as nat) == 2 * two_to(k as nat));
        assert(3000 * two_to(k as nat) <= 3000 * 16) by {
            lemma_two_to_small(k as nat);
        }
        delay = delay * 2;
        k = k + 1;
    }
    RetryStep::Retry { attempts, delay_ms: delay }
}

proof fn lemma_two_to_small(k: nat)
    requires
        k < 5,
    ensures
        two_to(k) <= 16,
{
    reveal_with_fuel(two_to, 5);
}

/// The status of a batch after an item: `completed` once every item is done or failed,
/// else `processing`.
pub fn batch_status(completed: i64, failed: i64, total: i64) -> (r: &'static str)
    ensures
        r@ == (if completed + failed == total { "completed"@ } else { "processing"@ }),
{
    if (completed as i128) + (failed as i128) == (total as i128) { "completed" } else { "processing" }
}

/// The latest version the services report for an app: the `bundle_version` text of the
/// first entry (empty when it has none); nothing without entries.
pub open spec fn latest_reported(versions: Seq<JsonNode>) -> Option<Seq<char>> {
    if versions.len() == 0 {
        None
    } else {
        Some(match json_text(json_get(versions[0], "bundle_version"@)) {
            Some(t) => t,
            None => Seq::empty(),
        })
    }
}

/// Whether an update is the one a subscription shows for a newer version: the
/// subscription's app, account and artwork, its version (empty when unknown) and the
/// latest one.
pub open spec fn is_update_of(u: AppUpdate, s: Subscription, latest: Seq<char>) -> bool {
    &&& u.app_id@ == s.app_id@
    &&& u.app_name@ == s.app_name@
    &&& opt_text(u.bundle_id) == opt_text(s.bundle_id)
    &&& u.current_version@ == match opt_text(s.current_version) {
        Some(v) => v,
        None => Seq::empty(),
    }
    &&& u.latest_version@ == latest
    &&& opt_text(u.artwork_url) == opt_text(s.artwork_url)
    &&& opt_text(u.artist_name) == opt_text(s.artist_name)
    &&& u.account_email@ == s.account_email@
}

fn copy_opt(o: &Option<String>) -> (r: Option<String>)
    ensures
        opt_text(r) == opt_text(*o),
{
    match o {
        Some(v) => Some(v.clone()),
        None => None,
    }
}

/// What the versions reported for a subscribed app give: the latest version, which the
/// subscription then records, and an update when it differs from the subscription's
/// version (an unknown version counting as empty); nothing without versions.
pub fn subscription_check(s: &Subscription, versions: &Vec<JsonNode>) -> (r: Option<(String, Option<AppUpdate>)>)
    ensures
        match latest_reported(versions@) {
            None => r is None,
            Some(latest) => r matches Some((l, u)) && l@ == latest && (match opt_text(s.current_version) {
                Some(v) => v,
                None => Seq::empty(),
            } == latest <==> u is None) && (u matches Some(x) ==> is_update_of(x, *s, latest)),
        },
{
    if versions.len() == 0 {
        return None;
    }
    let latest = match json_member_text(&versions[0], "bundle_version") {
        Some(t) => t,
        None => String::new(),
    };
    let current = match &s.current_version {
        Some(v) => v.clone(),
        None => String::new(),
    };
    if crate::apple::same_text(latest.as_str(), current.as_str()) {
        Some((latest, None))
    } else {
        let update = AppUpdate {
            app_id: s.app_id.clone(),
            app_name: s.app_name.clone(),
            bundle_id: copy_opt(&s.bundle_id),
            current_version: current,
            latest_version: latest.clone(),
            artwork_url: copy_opt(&s.artwork_url),
            artist_name: copy_opt(&s.artist_name),
            account_email: s.account_email.clone(),
        };
        Some((latest, Some(update)))
    }
}

/// The version list in a reply of the first history service: its `data` array, else the
/// reply itself when it is an array.
pub fn primary_versions(reply: &JsonNode) -> (r: Option<&Vec<JsonNode>>)
    ensures
        match json_get(*reply, "data"@) {
            Some(JsonNode::Array(items)) => r matches Some(v) && *v == items,
            _ => match *reply {
                JsonNode::Array(items) => r matches Some(v) && *v == items,
                _ => r is None,
            },
        },
{
    match json_member(reply, "data") {
        Some(JsonNode::Array(items)) => return Some(items),
        _ => {},
    }
    match reply {
        JsonNode::Array(items) => Some(items),
        _ => None,
    }
}

/// The version list in a reply of the second history service: its `data` array.
pub fn fallback_versions(reply: &JsonNode) -> (r: Option<&Vec<JsonNode>>)
    ensures
        match json_get(*reply, "data"@) {
            Some(JsonNode::Array(items)) => r matches Some(v) && *v == items,
            _ => r is None,
        },
{
    match json_member(reply, "data") {
        Some(JsonNode::Array(items)) => Some(items),
        _ => None,
    }
}

/// The first signed-in account with this email, from position `i` on: whether it has
/// finished signing in.
pub open spec fn account_signed_in_from(accounts: Seq<(String, bool)>, email: Seq<char>, i: int) -> Option<bool>
    decreases accounts.len() - i,
{
    if i < 0 || i >= accounts.len() {
        None
    } else if accounts[i].0@ == email {
        Some(accounts[i].1)
    } else {
        account_signed_in_from(accounts, email, i + 1)
    }
}

/// The problem with the items of a batch from position `i` on: the first whose account is
/// not signed in, or has not finished signing in.
pub open spec fn items_problem_from(emails: Seq<Seq<char>>, accounts: Seq<(String, bool)>, i: int) -> Option<Seq<char>>
    decreases emails.len() - i,
{
    if i < 0 || i >= emails.len() {
        None
    } else {
        match account_signed_in_from(accounts, emails[i], 0) {
            None => Some("账号未登录或不存在: "@ + emails[i]),
            Some(false) => Some("账号尚未完成认证: "@ + emails[i]),
            Some(true) => items_problem_from(emails, accounts, i + 1),
        }
    }
}

/// Why a batch is refused: a blank task name, no items, or the first item whose account
/// (the first signed-in account with its email) is missing or not fully signed in.
pub open spec fn spec_batch_problem(task_name: Seq<char>, emails: Seq<Seq<char>>, accounts: Seq<(String, bool)>) -> Option<Seq<char>> {
    if trim_white(task_name).len() == 0 {
        Some("task_name 不能为空"@)
    } else if emails.len() == 0 {
        Some("items 不能为空"@)
    } else {
        items_problem_from(emails, accounts, 0)
    }
}

fn account_signed_in(accounts: &Vec<(String, bool)>, email: &str) -> (r: Option<bool>)
    ensures
        r == account_signed_in_from(accounts@, email@, 0),
{
    let mut i: usize = 0;
    while i < accounts.len()
        invariant
            i <= accounts@.len(),
            account_signed_in_from(accounts@, email@, 0) == account_signed_in_from(accounts@, email@, i as int),
        decreases accounts@.len() - i,
    {
        if crate::apple::same_text(accounts[i].0.as_str(), email) {
            return Some(accounts[i].1);
        }
        i = i + 1;
    }
    None
}

fn with_email(head: &str, email: &str) -> (r: String)
    ensures
        r@ == head@ + email@,
{
    let mut buf: Vec<char> = Vec::new();
    push_str(&mut buf, head);
    push_str(&mut buf, email);
    string_from_chars(buf.as_slice())
}

/// Why a batch download is refused (see [`spec_batch_problem`]); `item_emails` are the
/// accounts of its items in order, and `accounts` the signed-in accounts with whether each
/// has finished signing in.
pub fn batch_problem(task_name: &str, item_emails: &Vec<String>, accounts: &Vec<(String, bool)>) -> (r: Option<String>)
    ensures
        opt_text(r) == spec_batch_problem(task_name@, texts(item_emails@), accounts@),
{
    if crate::text::trim(task_name).as_str().is_empty() {
        return Some("task_name 不能为空".to_owned());
    }
    if item_emails.len() == 0 {
        return Some("items 不能为空".to_owned());
    }
    let ghost emails = texts(item_emails@);
    let mut i: usize = 0;
    while i < item_emails.len()
        invariant
            i <= item_emails@.len(),
            emails == texts(item_emails@),
            trim_white(task_name@).len() != 0,
            item_emails@.len() != 0,
            items_problem_from(emails, accounts@, 0) == items_problem_from(emails, accounts@, i as int),
        decreases item_emails@.len() - i,
    {
        let email = item_emails[i].as_str();
        assert(emails[i as int] == email@);
        match account_signed_in(accounts, email) {
            None => return Some(with_email("账号未登录或不存在: ", email)),
            Some(false) => return Some(with_email("账号尚未完成认证: ", email)),
            Some(true) => {},
        }
        i = i + 1;
    }
    None
}

/// A signed-in Apple account as the account list shows it.
#[derive(Debug, Clone)]
pub struct AccountSummary {
    pub token: String,
    pub email: String,
    pub dsid: String,
    pub region: String,
    pub display_name: Option<String>,
    pub has_saved_credentials: bool,
}

/// Whether a summary is the one the list shows for a signed-in account: its sign-in
/// details' person id (else empty) and email (else the account's), its stored region when
/// not empty (else the sign-in's, else `US`), its display name, and whether a password is
/// saved for its email.
pub open spec fn is_account_summary(
    s: AccountSummary,
    token: Seq<char>,
    account_email: Seq<char>,
    auth: Option<AuthInfo>,
    saved_emails: Seq<Seq<char>>,
    stored_region: Option<Seq<char>>,
) -> bool {
    let email = match auth {
        Some(a) => match opt_text(a.email) {
            Some(e) => e,
            None => account_email,
        },
        None => account_email,
    };
    &&& s.token@ == token
    &&& s.email@ == email
    &&& s.dsid@ == match auth {
        Some(a) => match opt_text(a.ds_person_id) {
            Some(d) => d,
            None => Seq::empty(),
        },
        None => Seq::empty(),
    }
    &&& s.region@ == match unless_empty_opt(stored_region) {
        Some(r) => r,
        None => match auth {
            Some(a) => match opt_text(a.region) {
                Some(r) => r,
                None => "US"@,
            },
            None => "US"@,
        },
    }
    &&& opt_text(s.display_name) == match auth {
        Some(a) => opt_text(a.display_name),
        None => None,
    }
    &&& s.has_saved_credentials == saved_emails.contains(email)
}

/// An optional text, unless it is empty.
pub open spec fn unless_empty_opt(t: Option<Seq<char>>) -> Option<Seq<char>> {
    match t {
        Some(v) => unless_empty(v),
        None => None,
    }
}

fn contains_text(v: &Vec<String>, t: &str) -> (r: bool)
    ensures
        r == texts(v@).contains(t@),
{
    let mut i: usize = 0;
    while i < v.len()
        invariant
            i <= v@.len(),
            forall|k: int| 0 <= k < i ==> v@[k]@ != t@,
        decreases v@.len() - i,
    {
        if crate::apple::same_text(v[i].as_str(), t) {
            assert(texts(v@)[i as int] == t@);
            return true;
        }
        i = i + 1;
    }
    proof {
        if texts(v@).contains(t@) {
            let k = choose|k: int| 0 <= k < texts(v@).len() && texts(v@)[k] == t@;
            assert(v@[k]@ == t@);
        }
    }
    false
}

/// The summary the account list shows for a signed-in account (see
/// [`is_account_summary`]); `saved_emails` are the emails with a saved password and
/// `stored_region` the region stored for the token.
pub fn account_summary(
    token: &str,
    account_email: &str,
    auth: Option<&AuthInfo>,
    saved_emails: &Vec<String>,
    stored_region: Option<&str>,
) -> (s: AccountSummary)
    ensures
        is_account_summary(
            s,
            token@,
            account_email@,
            match auth {
                Some(a) => Some(*a),
                None => None,
            },
            texts(saved_emails@),
            match stored_region {
                Some(r) => Some(r@),
                None => None,
            },
        ),
{
    let email = match auth {
        Some(a) => match &a.email {
            Some(e) => e.clone(),
            None => account_email.to_owned(),
        },
        None => account_email.to_owned(),
    };
    let dsid = match auth {
        Some(a) => match &a.ds_person_id {
            Some(d) => d.clone(),
            None => String::new(),
        },
        None => String::new(),
    };
    let stored = match stored_region {
        Some(r) => if r.is_empty() { None } else { Some(r.to_owned()) },
        None => None,
    };
    let region = match stored {
        Some(r) => r,
        None => match auth {
            Some(a) => match &a.region {
                Some(r) => r.clone(),
                None => "US".to_owned(),
            },
            None => "US".to_owned(),
        },
    };
    let display_name = match auth {
        Some(a) => copy_opt(&a.display_name),
        None => None,
    };
    let has_saved_credentials = contains_text(saved_emails, email.as_str());
    proof {
        reveal_strlit("");
    }
    AccountSummary { token: token.to_owned(), email, dsid, region, display_name, has_saved_credentials }
}

} // verus!
