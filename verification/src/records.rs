//! The records of the download service: accounts, credentials, administrators,
//! sessions, tokens, keys, downloads, subscriptions and batch tasks.
use vstd::prelude::*;

verus! {

/// An Apple account that is signed in.
#[derive(Debug, Clone)]
pub struct Account {
    pub id: Option<i64>,
    pub token: String,
    pub email: String,
    pub region: String,
    pub guid: Option<String>,
    pub cookie_user: Option<String>,
    pub cookies: Option<String>,
    pub created_at: Option<String>,
    pub updated_at: Option<String>,
}

/// Saved, encrypted Apple credentials.
#[derive(Debug, Clone)]
pub struct Credentials {
    pub id: Option<i64>,
    pub email: String,
    pub password_encrypted: String,
    pub key_id: String,
    pub iv: String,
    pub auth_tag: String,
    pub created_at: Option<String>,
    pub updated_at: Option<String>,
}

/// An administrator of the service.
#[derive(Debug, Clone)]
pub struct AdminUser {
    pub id: Option<i64>,
    pub username: String,
    pub password_hash: String,
    pub is_default: bool,
    pub created_at: Option<String>,
    pub updated_at: Option<String>,
}

/// An administrator's login session.
#[derive(Debug, Clone)]
pub struct SessionRecord {
    pub id: Option<i64>,
    pub token: String,
    pub username: String,
    pub created_at: Option<String>,
    pub expires_at: String,
}

/// A GitHub token saved by an administrator.
#[derive(Debug, Clone)]
pub struct GitHubToken {
    pub id: Option<i64>,
    pub username: String,
    pub token: String,
    pub created_at: Option<String>,
    pub updated_at: Option<String>,
}

/// A key that encrypts saved credentials.
#[derive(Debug, Clone)]
pub struct EncryptionKey {
    pub id: Option<i64>,
    pub key_id: String,
    pub key_value: String,
    pub is_current: bool,
    pub created_at: Option<String>,
    pub last_rotation: i64,
    pub next_rotation: i64,
}

/// A download of an app.
#[derive(Debug, Clone)]
pub struct DownloadRecord {
    pub id: Option<i64>,
    pub job_id: Option<String>,
    pub app_name: String,
    pub app_id: String,
    pub bundle_id: Option<String>,
    pub version: Option<String>,
    pub account_email: String,
    pub account_region: Option<String>,
    pub download_date: Option<String>,
    pub status: String,
    pub file_size: Option<i64>,
    pub file_path: Option<String>,
    pub install_url: Option<String>,
    pub artwork_url: Option<String>,
    pub artist_name: Option<String>,
    pub progress: Option<i64>,
    pub error: Option<String>,
    pub package_kind: Option<String>,
    pub ota_installable: Option<bool>,
    pub install_method: Option<String>,
    pub inspection_json: Option<String>,
    pub created_at: Option<String>,
}

/// A subscription to be added.
#[derive(Debug, Clone)]
pub struct NewSubscription<'a> {
    pub app_id: &'a str,
    pub app_name: &'a str,
    pub bundle_id: Option<&'a str>,
    pub account_email: &'a str,
    pub account_region: Option<&'a str>,
    pub artwork_url: Option<&'a str>,
    pub artist_name: Option<&'a str>,
}

/// A subscription to an app's updates.
#[derive(Debug, Clone)]
pub struct Subscription {
    pub id: Option<i64>,
    pub app_id: String,
    pub app_name: String,
    pub bundle_id: Option<String>,
    pub account_email: String,
    pub account_region: Option<String>,
    pub current_version: Option<String>,
    pub artwork_url: Option<String>,
    pub artist_name: Option<String>,
    pub subscribed_at: Option<String>,
    pub last_checked: Option<String>,
    pub created_at: Option<String>,
}

/// A batch of downloads.
#[derive(Debug, Clone)]
pub struct BatchDownloadTask {
    pub id: Option<i64>,
    pub task_name: String,
    pub status: String,
    pub total_count: i64,
    pub completed_count: i64,
    pub failed_count: i64,
    pub created_at: Option<String>,
    pub updated_at: Option<String>,
    pub completed_at: Option<String>,
}

/// One download of a batch.
#[derive(Debug, Clone)]
pub struct BatchDownloadItem {
    pub id: Option<i64>,
    pub batch_id: i64,
    pub app_id: String,
    pub app_name: Option<String>,
    pub version: Option<String>,
    pub account_email: String,
    pub status: String,
    pub progress: i64,
    pub error: Option<String>,
    pub retry_count: i64,
    pub created_at: Option<String>,
}

/// One app of a batch download, with the store session that downloads it.
#[derive(Debug, Clone)]
pub struct BatchItem<S> {
    pub store: S,
    pub app_id: String,
    pub app_name: Option<String>,
    pub version: Option<String>,
    pub account_email: String,
}

/// An update found for a subscribed app.
#[derive(Debug, Clone)]
pub struct AppUpdate {
    pub app_id: String,
    pub app_name: String,
    pub bundle_id: Option<String>,
    pub current_version: String,
    pub latest_version: String,
    pub artwork_url: Option<String>,
    pub artist_name: Option<String>,
    pub account_email: String,
}

/// What Apple's sign-in told about an account.
#[derive(Debug, Clone)]
pub struct AuthInfo {
    pub ds_person_id: Option<String>,
    pub password_token: Option<String>,
    pub display_name: Option<String>,
    pub email: Option<String>,
    pub region: Option<String>,
}

/// The metadata of a downloaded app.
#[derive(Debug, Clone)]
pub struct DownloadMetadata {
    pub bundle_display_name: String,
    pub bundle_short_version_string: String,
    pub bundle_id: String,
    pub artwork_url: String,
    pub artist_name: String,
}

/// The outcome of downloading an app.
#[derive(Debug, Clone)]
pub struct DownloadResult {
    pub ok: bool,
    pub file: Option<String>,
    pub metadata: Option<DownloadMetadata>,
    pub error: Option<String>,
    pub needs_reauth: bool,
    pub needs_purchase: bool,
}

/// One version of a delisted app in the community archive.
#[derive(Debug, Clone)]
pub struct CommunityVersion {
    pub version_id: String,
    pub version: String,
    pub released_at: Option<String>,
    pub size_bytes: Option<i64>,
    pub description: Option<String>,
    pub source: String,
}

/// A delisted app in the community archive.
#[derive(Debug, Clone)]
pub struct CommunityDelistedAppDetail {
    pub id: String,
    pub name: String,
    pub bundle_id: Option<String>,
    pub artist_name: Option<String>,
    pub icon_asset: Option<String>,
    pub icon_url: Option<String>,
    pub delisted: bool,
    pub notes: Vec<String>,
    pub countries: Vec<String>,
    pub versions: Vec<CommunityVersion>,
    pub updated_at: String,
}

} // verus!
