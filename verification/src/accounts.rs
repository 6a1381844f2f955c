//! Signing in: administrators of the service (credentials, password changes) and Apple
//! accounts (the outcome of an Apple sign-in and the pending two-factor step).
use vstd::prelude::*;
use crate::apple::{apple_auth_failure_details, has_text, members_value, spec_auth_failure};
use crate::download_flow::reply_ok;
use crate::json::{members_get_from, JsonNode};
use crate::models::PENDING_MFA_TTL_MINUTES;
use crate::passwords::{spec_verify_password, verify_password};
use crate::records::AdminUser;
use crate::text::{chars_of, seq_contains_run, trim, trim_white};

verus! {

/// The trimmed user name and password of a sign-in, when neither is blank.
pub open spec fn spec_login_credentials(username: Seq<char>, password: Seq<char>) -> Option<(Seq<char>, Seq<char>)> {
    if trim_white(username).len() == 0 || trim_white(password).len() == 0 {
        None
    } else {
        Some((trim_white(username), trim_white(password)))
    }
}

/// The trimmed user name and password of a sign-in (see [`spec_login_credentials`]).
pub fn login_credentials(username: &str, password: &str) -> (r: Option<(String, String)>)
    ensures
        match spec_login_credentials(username@, password@) {
            Some(c) => r matches Some(p) && p.0@ == c.0 && p.1@ == c.1,
            None => r is None,
        },
{
    let u = trim(username);
    let p = trim(password);
    if chars_of(u.as_str()).len() == 0 || chars_of(p.as_str()).len() == 0 {
        None
    } else {
        Some((u, p))
    }
}

/// Whether an administrator may sign in: the account exists and the password matches its
/// stored hash (see [`spec_verify_password`]).
pub fn admin_login_allowed(password: &str, user: Option<&AdminUser>) -> (r: bool)
    ensures
        r == match user {
            Some(u) => spec_verify_password(password@, u.password_hash@),
            None => false,
        },
{
    match user {
        Some(u) => verify_password(password, u.password_hash.as_str()),
        None => false,
    }
}

/// Why a password change is refused before the current password is checked: a blank new
/// password, or one equal to the current password.
pub open spec fn spec_change_problem(current: Seq<char>, new_password: Seq<char>) -> Option<Seq<char>> {
    if trim_white(new_password).len() == 0 {
        Some("新密码不能为空"@)
    } else if current == new_password {
        Some("新密码不能与当前密码相同"@)
    } else {
        None
    }
}

/// Why a password change is refused before the current password is checked (see
/// [`spec_change_problem`]).
pub fn change_password_problem(current: &str, new_password: &str) -> (r: Option<String>)
    ensures
        crate::text::opt_text(r) == spec_change_problem(current@, new_password@),
{
    if chars_of(trim(new_password).as_str()).len() == 0 {
        proof {
            reveal_strlit("新密码不能为空");
        }
        Some("新密码不能为空".to_owned())
    } else if crate::apple::same_text(current, new_password) {
        Some("新密码不能与当前密码相同".to_owned())
    } else {
        None
    }
}

/// The name an administrator is renamed to: the requested one, trimmed, when it is not
/// empty and differs from the current name.
pub open spec fn spec_new_username(requested: Option<Seq<char>>, current: Seq<char>) -> Option<Seq<char>> {
    match requested {
        Some(r) => if trim_white(r).len() > 0 && trim_white(r) != current { Some(trim_white(r)) } else { None },
        None => None,
    }
}

/// The name an administrator is renamed to (see [`spec_new_username`]).
pub fn new_username_choice(requested: Option<&str>, current: &str) -> (r: Option<String>)
    ensures
        crate::text::opt_text(r) == spec_new_username(match requested {
            Some(s) => Some(s@),
            None => None,
        }, current@),
{
    match requested {
        Some(s) => {
            let t = trim(s);
            if chars_of(t.as_str()).len() > 0 && !crate::apple::same_text(t.as_str(), current) {
                Some(t)
            } else {
                None
            }
        },
        None => None,
    }
}

/// The outcome of an Apple sign-in.
#[derive(Debug, Clone)]
pub enum LoginOutcome {
    /// Signed in.
    Success,
    /// A verification code is needed; the pending sign-in is kept.  Carries the message.
    NeedMfa(String),
    /// The verification code was refused; the pending sign-in is kept for another code.
    MfaFailed(String),
    /// Refused; any pending sign-in is dropped.  Carries the message.
    Failed(String),
}

/// The outcome of an Apple sign-in from the store's reply and whether a verification
/// code was sent: a successful reply signs in; otherwise the failure details (see
/// [`spec_auth_failure`]) decide between asking for a code, refusing the code, and
/// refusing the sign-in, each with the user-facing message.
pub open spec fn spec_login_outcome(result: Seq<(String, JsonNode)>, has_mfa: bool, r: LoginOutcome) -> bool {
    let details = spec_auth_failure(result, has_mfa);
    if reply_ok(result) {
        r is Success
    } else if details.2 && !has_mfa {
        r matches LoginOutcome::NeedMfa(m) && m@ == details.1
    } else if details.2 {
        r matches LoginOutcome::MfaFailed(m) && m@ == details.1
    } else {
        r matches LoginOutcome::Failed(m) && m@ == details.1
    }
}

/// A failed sign-in whose only signal is the configurator's bad-login message (no failure
/// type) asks for a verification code when none was sent, and is refused as wrong
/// credentials, dropping the pending sign-in, when one was.
pub proof fn lemma_login_configurator_bad_login(result: Seq<(String, JsonNode)>, with_code: LoginOutcome, without_code: LoginOutcome)
    requires
        !reply_ok(result),
        crate::text::trim_white(crate::apple::text_or_empty(result, "failureType"@)).len() == 0,
        crate::apple::is_configurator_bad_login(crate::text::trim_white(crate::apple::text_or_empty(result, "customerMessage"@))),
        spec_login_outcome(result, true, with_code),
        spec_login_outcome(result, false, without_code),
    ensures
        with_code matches LoginOutcome::Failed(m) && m@ == "账号或密码错误，请检查后重试"@,
        without_code matches LoginOutcome::NeedMfa(m) && m@ == "此账号需要二次验证，请在验证码输入框输入 6 位验证码后再次点击登录"@,
{
    crate::apple::lemma_configurator_bad_login(result);
}

/// The outcome of an Apple sign-in (see [`spec_login_outcome`]).
pub fn login_outcome(result: &Vec<(String, JsonNode)>, has_mfa: bool) -> (r: LoginOutcome)
    ensures
        spec_login_outcome(result@, has_mfa, r),
{
    let success = "success".to_owned();
    let ok = match members_value(result, "_state") {
        Some(JsonNode::String(s)) => *s == success,
        _ => false,
    };
    if ok {
        return LoginOutcome::Success;
    }
    let (_failure_type, message, needs_mfa) = apple_auth_failure_details(result, has_mfa);
    if needs_mfa && !has_mfa {
        LoginOutcome::NeedMfa(message)
    } else if needs_mfa {
        LoginOutcome::MfaFailed(message)
    } else {
        LoginOutcome::Failed(message)
    }
}

/// Whether a pending two-factor sign-in is older than its lifetime, from the time since it
/// was made (whole seconds and the nanoseconds beyond them).
pub open spec fn spec_pending_expired(elapsed_seconds: int, elapsed_nanos: int) -> bool {
    elapsed_seconds > PENDING_MFA_TTL_MINUTES * 60 || (elapsed_seconds == PENDING_MFA_TTL_MINUTES * 60 && elapsed_nanos > 0)
}

/// Whether a pending two-factor sign-in is older than its lifetime (see
/// [`spec_pending_expired`]).
pub fn is_pending_mfa_expired(elapsed_seconds: i64, elapsed_nanos: u32) -> (r: bool)
    ensures
        r == spec_pending_expired(elapsed_seconds as int, elapsed_nanos as int),
{
    elapsed_seconds > PENDING_MFA_TTL_MINUTES * 60 || (elapsed_seconds == PENDING_MFA_TTL_MINUTES * 60 && elapsed_nanos > 0)
}

/// Why a pending two-factor sign-in cannot be resumed: there is none, it has expired, or
/// the password differs from the one it was started with (see [`spec_verify_password`]).
pub open spec fn spec_pending_problem(found: bool, expired: bool, password: Seq<char>, password_hash: Seq<char>) -> Option<Seq<char>> {
    if !found {
        Some("验证码会话不存在或已丢失，请重新输入账号密码并再次登录以获取新的验证码"@)
    } else if expired {
        Some("验证码会话已超过 10 分钟，请重新登录以获取新的验证码"@)
    } else if !spec_verify_password(password, password_hash) {
        Some("登录密码已变更，请重新输入账号密码并再次登录以重新发起验证"@)
    } else {
        None
    }
}

/// Why a pending two-factor sign-in cannot be resumed (see [`spec_pending_problem`]);
/// `password_hash` is that of the pending sign-in when one was found.
pub fn pending_mfa_problem(found: bool, expired: bool, password: &str, password_hash: &str) -> (r: Option<String>)
    ensures
        crate::text::opt_text(r) == spec_pending_problem(found, expired, password@, password_hash@),
{
    if !found {
        Some("验证码会话不存在或已丢失，请重新输入账号密码并再次登录以获取新的验证码".to_owned())
    } else if expired {
        Some("验证码会话已超过 10 分钟，请重新登录以获取新的验证码".to_owned())
    } else if !verify_password(password, password_hash) {
        Some("登录密码已变更，请重新输入账号密码并再次登录以重新发起验证".to_owned())
    } else {
        None
    }
}

/// The message for a sign-in that failed before Apple answered: a reply that was not
/// JSON, a timeout, or any other error (`登录失败: <error>`).
pub open spec fn spec_login_error_message(error: Seq<char>) -> Seq<char> {
    if seq_contains_run(error, "error decoding response body"@) || seq_contains_run(error, "expected value"@) {
        "登录请求被 Apple 拒绝，请检查网络、账号密码，或者尝试使用应用专用密码登录"@
    } else if seq_contains_run(error, "timed out"@) || seq_contains_run(error, "deadline"@) {
        "连接 Apple 超时，请检查网络环境"@
    } else {
        "登录失败: "@ + error
    }
}

/// The message for a sign-in that failed before Apple answered (see
/// [`spec_login_error_message`]).
pub fn login_error_message(error: &str) -> (r: String)
    ensures
        r@ == spec_login_error_message(error@),
{
    if has_text(error, "error decoding response body") || has_text(error, "expected value") {
        "登录请求被 Apple 拒绝，请检查网络、账号密码，或者尝试使用应用专用密码登录".to_owned()
    } else if has_text(error, "timed out") || has_text(error, "deadline") {
        "连接 Apple 超时，请检查网络环境".to_owned()
    } else {
        let mut buf: Vec<char> = Vec::new();
        crate::text::push_str(&mut buf, "登录失败: ");
        crate::text::push_str(&mut buf, error);
        crate::text::string_from_chars(buf.as_slice())
    }
}

/// The message of a failed sign-in reply: its `customerMessage` member when there is
/// one, else its `failureType` member, when that member is text; else the fallback.
pub open spec fn reply_message(reply: Seq<(String, JsonNode)>, fallback: Seq<char>) -> Seq<char> {
    let member = match crate::json::members_get_from(reply, "customerMessage"@, 0) {
        Some(v) => Some(v),
        None => crate::json::members_get_from(reply, "failureType"@, 0),
    };
    match member {
        Some(JsonNode::String(s)) => s@,
        _ => fallback,
    }
}

fn message_of_reply(reply: &Vec<(String, JsonNode)>, fallback: &str) -> (r: String)
    ensures
        r@ == reply_message(reply@, fallback@),
{
    let member = match crate::apple::members_value(reply, "customerMessage") {
        Some(v) => Some(v),
        None => crate::apple::members_value(reply, "failureType"),
    };
    match member {
        Some(JsonNode::String(s)) => s.clone(),
        _ => fallback.to_owned(),
    }
}

/// What an automatic sign-in with a saved password gave.
#[derive(Debug)]
pub enum AutoLoginOutcome {
    /// Signed in; the account's `dsPersonId` (empty when the reply has none as text).
    SignedIn(String),
    /// A verification code is needed.
    NeedsCode,
    /// Refused, with the message.
    Failed(String),
}

/// Whether a failure message asks for a verification code.
pub open spec fn asks_for_code(m: Seq<char>) -> bool {
    m == "MZFinance.BadLogin.Configurator_message"@ || crate::text::seq_contains_run(m, "verification code"@)
        || crate::text::seq_contains_run(m, "two-factor"@) || crate::text::seq_contains_run(m, "MFA"@)
}

/// The outcome of an automatic sign-in from the store's reply: a successful reply signs
/// in; otherwise its message (see [`reply_message`], `登录失败` by default) either asks
/// for a code (see [`asks_for_code`]) or is the refusal.
pub open spec fn is_auto_login_outcome(reply: Seq<(String, JsonNode)>, r: AutoLoginOutcome) -> bool {
    if crate::download_flow::reply_ok(reply) {
        r matches AutoLoginOutcome::SignedIn(d) && d@ == match crate::json::members_get_from(reply, "dsPersonId"@, 0) {
            Some(JsonNode::String(s)) => s@,
            _ => Seq::<char>::empty(),
        }
    } else if asks_for_code(reply_message(reply, "登录失败"@)) {
        r is NeedsCode
    } else {
        r matches AutoLoginOutcome::Failed(m) && m@ == reply_message(reply, "登录失败"@)
    }
}

fn reply_succeeded(reply: &Vec<(String, JsonNode)>) -> (r: bool)
    ensures
        r == crate::download_flow::reply_ok(reply@),
{
    match crate::apple::members_value(reply, "_state") {
        Some(JsonNode::String(s)) => crate::apple::same_text(s.as_str(), "success"),
        _ => false,
    }
}

/// The outcome of an automatic sign-in (see [`is_auto_login_outcome`]).
pub fn auto_login_outcome(reply: &Vec<(String, JsonNode)>) -> (r: AutoLoginOutcome)
    ensures
        is_auto_login_outcome(reply@, r),
{
    if reply_succeeded(reply) {
        let dsid = match crate::apple::members_value(reply, "dsPersonId") {
            Some(JsonNode::String(s)) => s.clone(),
            _ => String::new(),
        };
        return AutoLoginOutcome::SignedIn(dsid);
    }
    let m = message_of_reply(reply, "登录失败");
    if crate::apple::same_text(m.as_str(), "MZFinance.BadLogin.Configurator_message") || has_text(m.as_str(), "verification code")
        || has_text(m.as_str(), "two-factor") || has_text(m.as_str(), "MFA") {
        AutoLoginOutcome::NeedsCode
    } else {
        AutoLoginOutcome::Failed(m)
    }
}

/// How long after its last sign-in an account's session is refreshed, in seconds.
pub const ACCOUNT_REFRESH_AFTER_SECS: u64 = 1800;

/// Whether a signed-in account's session is due for a refresh: it has sign-in details and
/// was signed in at least [`ACCOUNT_REFRESH_AFTER_SECS`] ago.
pub fn refresh_due(has_auth_info: bool, secs_since_sign_in: u64) -> (r: bool)
    ensures
        r == (has_auth_info && secs_since_sign_in >= ACCOUNT_REFRESH_AFTER_SECS),
{
    has_auth_info && secs_since_sign_in >= ACCOUNT_REFRESH_AFTER_SECS
}

/// What a background refresh of an account gave: `None` when the reply signs in, else the
/// failure message (see [`reply_message`], `unknown failure` by default).
pub fn refresh_failure(reply: &Vec<(String, JsonNode)>) -> (r: Option<String>)
    ensures
        crate::download_flow::reply_ok(reply@) ==> r is None,
        !crate::download_flow::reply_ok(reply@) ==> (r matches Some(m) && m@ == reply_message(reply@, "unknown failure"@)),
{
    if reply_succeeded(reply) {
        None
    } else {
        Some(message_of_reply(reply, "unknown failure"))
    }
}

/// A signed-in account as a refresh round sees it.
#[derive(Debug, Clone)]
pub struct SignedInAccount {
    pub token: String,
    pub email: String,
    pub has_auth_info: bool,
    pub secs_since_sign_in: u64,
}

/// Whether a refresh round signs an account in again: its session is due (see
/// [`refresh_due`]) and its email has saved credentials.
pub open spec fn spec_refreshed(a: SignedInAccount, saved_emails: Seq<Seq<char>>) -> bool {
    a.has_auth_info && a.secs_since_sign_in >= ACCOUNT_REFRESH_AFTER_SECS && saved_emails.contains(a.email@)
}

/// The (token, email) pairs a refresh round signs in again, in order.
pub open spec fn spec_refresh_round(accounts: Seq<SignedInAccount>, saved_emails: Seq<Seq<char>>) -> Seq<(Seq<char>, Seq<char>)>
    decreases accounts.len(),
{
    if accounts.len() == 0 {
        Seq::empty()
    } else {
        let prev = spec_refresh_round(accounts.drop_last(), saved_emails);
        let a = accounts.last();
        if spec_refreshed(a, saved_emails) { prev.push((a.token@, a.email@)) } else { prev }
    }
}

/// The accounts a refresh round signs in again (see [`spec_refresh_round`]).
pub fn refresh_round(accounts: &Vec<SignedInAccount>, saved_emails: &Vec<String>) -> (r: Vec<(String, String)>)
    ensures
        r.deep_view() == spec_refresh_round(accounts@, saved_emails.deep_view()),
{
    let mut out: Vec<(String, String)> = Vec::new();
    let mut i: usize = 0;
    while i < accounts.len()
        invariant
            i <= accounts@.len(),
            out.deep_view() == spec_refresh_round(accounts@.take(i as int), saved_emails.deep_view()),
        decreases accounts@.len() - i,
    {
        assert(accounts@.take(i + 1).drop_last() =~= accounts@.take(i as int));
        assert(accounts@.take(i + 1).last() == accounts@[i as int]);
        let a = &accounts[i];
        if refresh_due(a.has_auth_info, a.secs_since_sign_in) && crate::injection::contains_string(saved_emails, &a.email) {
            let ghost before = out.deep_view();
            out.push((a.token.clone(), a.email.clone()));
            assert(out.deep_view() =~= before.push((a.token@, a.email@)));
        }
        i = i + 1;
    }
    assert(accounts@.take(accounts@.len() as int) =~= accounts@);
    out
}

/// A refresh round signs in again only accounts with saved credentials, and no more
/// accounts than there are.
pub proof fn lemma_refresh_round_only_saved(accounts: Seq<SignedInAccount>, saved_emails: Seq<Seq<char>>)
    ensures
        spec_refresh_round(accounts, saved_emails).len() <= accounts.len(),
        forall|k: int| 0 <= k < spec_refresh_round(accounts, saved_emails).len()
            ==> saved_emails.contains((#[trigger] spec_refresh_round(accounts, saved_emails)[k]).1),
    decreases accounts.len(),
{
    if accounts.len() > 0 {
        let rest = accounts.drop_last();
        lemma_refresh_round_only_saved(rest, saved_emails);
        let prev = spec_refresh_round(rest, saved_emails);
        let out = spec_refresh_round(accounts, saved_emails);
        assert forall|k: int| 0 <= k < out.len() implies saved_emails.contains((#[trigger] out[k]).1) by {
            if k < prev.len() {
                assert(out[k] == prev[k]);
            }
        }
    }
}

/// The answer, sent with HTTP status 401, to a request whose account token is not signed in.
pub open spec fn invalid_token_message() -> Seq<char> {
    "无效的 token"@
}

/// The signed-in account a request's token names: its position among the signed-in
/// tokens (the first, should it repeat), or [`invalid_token_message`] when no account has
/// signed in with it.
pub fn account_for_token(tokens: &Vec<String>, token: &str) -> (r: Result<usize, String>)
    ensures
        match r {
            Ok(i) => i < tokens@.len() && tokens@[i as int]@ == token@
                && forall|k: int| 0 <= k < i ==> (#[trigger] tokens@[k])@ != token@,
            Err(m) => m@ == invalid_token_message() && !tokens.deep_view().contains(token@),
        },
{
    let mut i: usize = 0;
    while i < tokens.len()
        invariant
            i <= tokens@.len(),
            forall|k: int| 0 <= k < i ==> (#[trigger] tokens@[k])@ != token@,
        decreases tokens@.len() - i,
    {
        if crate::apple::same_text(tokens[i].as_str(), token) {
            return Ok(i);
        }
        i = i + 1;
    }
    assert forall|x: Seq<char>| tokens.deep_view().contains(x) implies x != token@ by {
        let k = choose|k: int| 0 <= k < tokens.deep_view().len() && tokens.deep_view()[k] == x;
        assert(tokens@[k]@ == x);
    }
    Err("无效的 token".to_owned())
}

/// What a refresh round's sign-in gave for an account: its token, the sign-in reply and
/// the signed-in account that would replace the old one.
pub struct Renewal<T> {
    pub token: String,
    pub reply: Vec<(String, JsonNode)>,
    pub account: T,
}

/// The account under `token` after the renewals, in order: the account of the last renewal
/// for that token whose sign-in succeeded, else the old account.
pub open spec fn refreshed_value<T>(old_account: T, token: Seq<char>, renewals: Seq<Renewal<T>>) -> T
    decreases renewals.len(),
{
    if renewals.len() == 0 {
        old_account
    } else if renewals.last().token@ == token && reply_ok(renewals.last().reply@) {
        renewals.last().account
    } else {
        refreshed_value(old_account, token, renewals.drop_last())
    }
}

/// Whether entry `i` is the first with its token.
pub open spec fn first_with_token<T>(table: Seq<(String, T)>, i: int) -> bool {
    forall|j: int| 0 <= j < i ==> (#[trigger] table[j]).0@ != table[i].0@
}

/// A refresh round replaces an account only with the account of a successful sign-in
/// under its own token.
pub proof fn lemma_refresh_replaces_only_on_success<T>(old_account: T, token: Seq<char>, renewals: Seq<Renewal<T>>)
    ensures
        refreshed_value(old_account, token, renewals) == old_account || exists|j: int| #![trigger renewals[j]]
            0 <= j < renewals.len() && renewals[j].token@ == token && reply_ok(renewals[j].reply@)
                && renewals[j].account == refreshed_value(old_account, token, renewals),
    decreases renewals.len(),
{
    if renewals.len() > 0 {
        let last = renewals.len() - 1;
        if renewals.last().token@ == token && reply_ok(renewals.last().reply@) {
            assert(renewals[last] == renewals.last());
        } else {
            lemma_refresh_replaces_only_on_success(old_account, token, renewals.drop_last());
            let v = refreshed_value(old_account, token, renewals.drop_last());
            if v != old_account {
                let j = choose|j: int| #![trigger renewals.drop_last()[j]] 0 <= j < renewals.drop_last().len()
                    && renewals.drop_last()[j].token@ == token && reply_ok(renewals.drop_last()[j].reply@)
                    && renewals.drop_last()[j].account == v;
                assert(renewals[j] == renewals.drop_last()[j]);
            }
        }
    }
}

/// Applies a refresh round's renewals to the signed-in accounts: no token is added or
/// removed, and the (first) account under each token becomes the account of the last
/// successful sign-in for it (see [`refreshed_value`]); every other account stays.
pub fn apply_renewals<T>(table: &mut Vec<(String, T)>, renewals: Vec<Renewal<T>>)
    ensures
        final(table)@.len() == old(table)@.len(),
        forall|i: int| 0 <= i < old(table)@.len() ==> (#[trigger] final(table)@[i]).0@ == old(table)@[i].0@,
        forall|i: int| 0 <= i < old(table)@.len() ==> (#[trigger] final(table)@[i]).1 == if first_with_token(old(table)@, i) {
            refreshed_value(old(table)@[i].1, old(table)@[i].0@, renewals@)
        } else {
            old(table)@[i].1
        },
{
    let ghost start = table@;
    let ghost all = renewals@;
    let mut rest = renewals;
    let total = rest.len();
    let mut k: usize = 0;
    assert(all.take(0) =~= Seq::<Renewal<T>>::empty());
    while rest.len() > 0
        invariant
            k <= all.len(),
            all.len() == total,
            rest@ == all.skip(k as int),
            table@.len() == start.len(),
            forall|i: int| 0 <= i < start.len() ==> (#[trigger] table@[i]).0@ == start[i].0@,
            forall|i: int| 0 <= i < start.len() ==> (#[trigger] table@[i]).1 == if first_with_token(start, i) {
                refreshed_value(start[i].1, start[i].0@, all.take(k as int))
            } else {
                start[i].1
            },
        decreases rest@.len(),
    {
        let r = rest.remove(0);
        assert(r == all[k as int]);
        assert(all.take(k + 1).drop_last() =~= all.take(k as int));
        assert(all.take(k + 1).last() == all[k as int]);
        assert(rest@ =~= all.skip(k + 1));
        if reply_succeeded(&r.reply) {
            let mut i: usize = 0;
            while i < table.len() && !crate::apple::same_text(table[i].0.as_str(), r.token.as_str())
                invariant
                    i <= table@.len(),
                    table@.len() == start.len(),
                    forall|j: int| 0 <= j < start.len() ==> (#[trigger] table@[j]).0@ == start[j].0@,
                    forall|j: int| 0 <= j < i ==> (#[trigger] table@[j]).0@ != r.token@,
                decreases table@.len() - i,
            {
                i = i + 1;
            }
            if i < table.len() {
                let key = table[i].0.clone();
                let ghost before = table@;
                table.set(i, (key, r.account));
                proof {
                    assert forall|j: int| 0 <= j < i implies (#[trigger] start[j]).0@ != start[i as int].0@ by {
                        assert(before[j].0@ == start[j].0@);
                    }
                    assert(first_with_token(start, i as int));
                    assert forall|j: int| 0 <= j < start.len() && j != i && first_with_token(start, j)
                        implies #[trigger] start[j].0@ != r.token@ by {
                        if j > i {
                            assert(start[i as int].0@ == r.token@);
                        }
                    }
                }
            }
        }
        k = k + 1;
    }
    assert(all.skip(k as int).len() == 0);
    assert(all.take(k as int) =~= all);
}

} // verus!
