//! Read-only inspection of an IPA: declared and present `.sinf` files, FairPlay
//! encrypted binaries, and whether the package looks directly installable.
use vstd::prelude::*;
use crate::archive::{list_entries, zip_listing};
use crate::bundle::{app_bundle_of, read_zip_entry_bytes, read_plist_from_zip, spec_app_bundle, spec_entry_named, spec_plist_named};
use crate::error::SigError;
use crate::injection::{ManifestTargets, contains_string, ordered_unique_paths, spec_dedup, spec_without};
use crate::macho::{macho_outcome, spec_macho_outcome};
use crate::property_list::{PlistNode, node_string, node_string_items, plist_string_items, plist_string_value};
use crate::text::{
    chars_of, contains_run, decimal, join_strings, opt_text, push_chars, push_str, seq_contains_run, seq_ends_with,
    seq_starts_with, spec_decimal, spec_join, string_from_chars, trim_end_all, trim_end_char, trim_prefix_all,
    trim_start_all, ends_with, starts_with,
};

verus! {

/// What an inspection of an IPA found.
#[derive(Debug, Clone)]
pub struct IpaInspection {
    pub has_sc_info_manifest: bool,
    pub has_embedded_mobileprovision: bool,
    pub declared_sinf_paths: Vec<String>,
    pub present_sinf_paths: Vec<String>,
    pub missing_sinf_paths: Vec<String>,
    pub encrypted_binaries: Vec<String>,
    pub direct_install_ok: bool,
    pub blocked_reason: Option<String>,
    pub recommended_action: Option<String>,
    pub summary: String,
    pub bundle_id: Option<String>,
    pub bundle_short_version: Option<String>,
    pub bundle_display_name: Option<String>,
    pub executable: Option<String>,
}

/// The blocker for declared `.sinf` targets that are missing.
pub open spec fn blocker_missing(declared: nat, missing: Seq<Seq<char>>) -> Seq<char> {
    "包内声明了 "@ + spec_decimal(declared) + " 个 .sinf 目标，但缺少 "@ + spec_decimal(missing.len()) + " 个："@
        + spec_join(missing, ", "@)
}

/// The blocker for encrypted binaries in a package that carries a provisioning profile.
pub open spec fn blocker_encrypted_signed(n: nat) -> Seq<char> {
    "检测到 "@ + spec_decimal(n) + " 个 FairPlay 加密二进制，这类包通常不是可直接侧载的成品 IPA"@
}

/// The blocker for encrypted binaries in a package without a provisioning profile.
pub open spec fn blocker_encrypted_unsigned(n: nat) -> Seq<char> {
    "检测到 "@ + spec_decimal(n) + " 个 FairPlay 加密二进制，且未发现 embedded.mobileprovision"@
}

/// The blocker for a package with neither signatures nor a provisioning profile.
pub open spec fn blocker_not_resigned() -> Seq<char> {
    "包内未发现 embedded.mobileprovision，当前看起来不像已正确重签的可侧载 IPA"@
}

/// Advice when a blocker mentions missing `.sinf` data.
pub open spec fn action_missing_sinf() -> Seq<char> {
    "请确认 Apple 下载响应是否返回了完整的 sinf 数据"@
}

/// Advice otherwise.
pub open spec fn action_resign() -> Seq<char> {
    "请先获取完整解密并正确重签（含全部 .appex）的 IPA，再重新上传或安装"@
}

/// The reasons that block a direct install, in order.
pub open spec fn spec_blockers(declared: nat, missing: Seq<Seq<char>>, encrypted: nat, mobileprovision: bool) -> Seq<Seq<char>> {
    let fully_injected = declared > 0 && missing.len() == 0;
    let first: Seq<Seq<char>> = if missing.len() > 0 { seq![blocker_missing(declared, missing)] } else { Seq::empty() };
    let second: Seq<Seq<char>> = if fully_injected {
        Seq::empty()
    } else if mobileprovision {
        if encrypted > 0 { seq![blocker_encrypted_signed(encrypted)] } else { Seq::empty() }
    } else if encrypted > 0 {
        seq![blocker_encrypted_unsigned(encrypted)]
    } else {
        seq![blocker_not_resigned()]
    };
    first + second
}

/// When a direct install is fine: no declared `.sinf` is missing, and either every
/// declared `.sinf` is present (at least one declared) or the package carries a
/// provisioning profile and no FairPlay-encrypted binary.  In particular an encrypted
/// binary blocks a direct install whenever the signatures are not fully injected, whatever
/// the provisioning profile; and with a profile the blocker names the count of encrypted
/// binaries.
pub proof fn lemma_direct_install_rule(declared: nat, missing: Seq<Seq<char>>, encrypted: nat, mobileprovision: bool)
    ensures
        spec_blockers(declared, missing, encrypted, mobileprovision).len() == 0
            <==> (missing.len() == 0 && (declared > 0 || (mobileprovision && encrypted == 0))),
        !(declared > 0 && missing.len() == 0) && encrypted > 0 ==> spec_blockers(declared, missing, encrypted, mobileprovision).len() > 0,
        !(declared > 0 && missing.len() == 0) && encrypted > 0 && mobileprovision ==> spec_blockers(declared, missing, encrypted, mobileprovision).last()
            == "检测到 "@ + spec_decimal(encrypted) + " 个 FairPlay 加密二进制，这类包通常不是可直接侧载的成品 IPA"@,
{
}

/// The blockers joined with `；`, when there is any.
pub open spec fn spec_blocked_reason(blockers: Seq<Seq<char>>) -> Option<Seq<char>> {
    if blockers.len() == 0 { None } else { Some(spec_join(blockers, "；"@)) }
}

/// The advice that goes with a blocked reason.
pub open spec fn spec_recommended_action(reason: Option<Seq<char>>) -> Option<Seq<char>> {
    match reason {
        Some(r) => Some(if seq_contains_run(r, "缺少"@) { action_missing_sinf() } else { action_resign() }),
        None => None,
    }
}

/// The one-line summary of an inspection.
pub open spec fn spec_summary(declared: nat, present: nat, missing: Seq<Seq<char>>, encrypted: nat, mobileprovision: bool) -> Seq<char> {
    let fully_injected = declared > 0 && missing.len() == 0;
    let reason = spec_blocked_reason(spec_blockers(declared, missing, encrypted, mobileprovision));
    if fully_injected && encrypted > 0 {
        "App Store 签名包：已注入 "@ + spec_decimal(present) + " 个 .sinf（含 "@ + spec_decimal(encrypted) + " 个加密二进制）"@
    } else {
        match (reason, spec_recommended_action(reason)) {
            (Some(r), Some(a)) => r + "。"@ + a + "。"@,
            (Some(r), None) => r,
            _ => if declared > 0 {
                "未检测到缺失的 .sinf 目标，可继续安装验证"@
            } else {
                "未发现明显的 FairPlay / 签名阻塞，可继续安装验证"@
            },
        }
    }
}

/// The verdict part of an inspection: whether a direct install is fine, the blocked
/// reason, the advice and the summary.
#[derive(Debug, Clone)]
pub struct InspectionVerdict {
    pub direct_install_ok: bool,
    pub blocked_reason: Option<String>,
    pub recommended_action: Option<String>,
    pub summary: String,
}

fn text(lit: &str) -> (r: String)
    ensures
        r@ == lit@,
{
    string_from_chars(chars_of(lit).as_slice())
}

/// Judges an inspection from the counts and lists it found (see [`spec_blockers`],
/// [`spec_blocked_reason`], [`spec_recommended_action`], [`spec_summary`]).
pub fn inspection_verdict(
    declared_count: usize,
    present_count: usize,
    missing: &Vec<String>,
    encrypted_count: usize,
    has_embedded_mobileprovision: bool,
) -> (v: InspectionVerdict)
    ensures
        ({
            let blockers = spec_blockers(declared_count as nat, missing.deep_view(), encrypted_count as nat, has_embedded_mobileprovision);
            let reason = spec_blocked_reason(blockers);
            &&& v.direct_install_ok == (blockers.len() == 0)
            &&& opt_text(v.blocked_reason) == reason
            &&& opt_text(v.recommended_action) == spec_recommended_action(reason)
            &&& v.summary@ == spec_summary(declared_count as nat, present_count as nat, missing.deep_view(), encrypted_count as nat, has_embedded_mobileprovision)
        }),
{
    let ghost blockers_spec = spec_blockers(declared_count as nat, missing.deep_view(), encrypted_count as nat, has_embedded_mobileprovision);
    let has_manifest = declared_count > 0;
    let fully_injected = has_manifest && missing.len() == 0;
    let mut blockers: Vec<String> = Vec::new();
    if missing.len() > 0 {
        let mut buf: Vec<char> = Vec::new();
        push_str(&mut buf, "包内声明了 ");
        push_chars(&mut buf, decimal(declared_count as u64).as_slice());
        push_str(&mut buf, " 个 .sinf 目标，但缺少 ");
        push_chars(&mut buf, decimal(missing.len() as u64).as_slice());
        push_str(&mut buf, " 个：");
        let listed = join_strings(missing, ", ");
        push_str(&mut buf, listed.as_str());
        blockers.push(string_from_chars(buf.as_slice()));
    }
    let ghost first = blockers.deep_view();
    if fully_injected {
    } else if has_embedded_mobileprovision {
        if encrypted_count > 0 {
            let mut buf: Vec<char> = Vec::new();
            push_str(&mut buf, "检测到 ");
            push_chars(&mut buf, decimal(encrypted_count as u64).as_slice());
            push_str(&mut buf, " 个 FairPlay 加密二进制，这类包通常不是可直接侧载的成品 IPA");
            blockers.push(string_from_chars(buf.as_slice()));
        }
    } else if encrypted_count > 0 {
        let mut buf: Vec<char> = Vec::new();
        push_str(&mut buf, "检测到 ");
        push_chars(&mut buf, decimal(encrypted_count as u64).as_slice());
        push_str(&mut buf, " 个 FairPlay 加密二进制，且未发现 embedded.mobileprovision");
        blockers.push(string_from_chars(buf.as_slice()));
    } else {
        blockers.push(text("包内未发现 embedded.mobileprovision，当前看起来不像已正确重签的可侧载 IPA"));
    }
    assert(blockers.deep_view() =~= blockers_spec);
    let direct_install_ok = blockers.len() == 0;
    let blocked_reason = if blockers.len() == 0 { None } else { Some(join_strings(&blockers, "；")) };
    let recommended_action = match &blocked_reason {
        Some(reason) => {
            let rc = chars_of(reason.as_str());
            let needle = chars_of("缺少");
            if contains_run(rc.as_slice(), needle.as_slice()) {
                Some(text("请确认 Apple 下载响应是否返回了完整的 sinf 数据"))
            } else {
                Some(text("请先获取完整解密并正确重签（含全部 .appex）的 IPA，再重新上传或安装"))
            }
        },
        None => None,
    };
    let summary = if fully_injected && encrypted_count > 0 {
        let mut buf: Vec<char> = Vec::new();
        push_str(&mut buf, "App Store 签名包：已注入 ");
        push_chars(&mut buf, decimal(present_count as u64).as_slice());
        push_str(&mut buf, " 个 .sinf（含 ");
        push_chars(&mut buf, decimal(encrypted_count as u64).as_slice());
        push_str(&mut buf, " 个加密二进制）");
        string_from_chars(buf.as_slice())
    } else {
        match (&blocked_reason, &recommended_action) {
            (Some(reason), Some(action)) => {
                let mut buf: Vec<char> = Vec::new();
                push_str(&mut buf, reason.as_str());
                push_str(&mut buf, "。");
                push_str(&mut buf, action.as_str());
                push_str(&mut buf, "。");
                string_from_chars(buf.as_slice())
            },
            (Some(reason), None) => reason.clone(),
            _ => if has_manifest {
                text("未检测到缺失的 .sinf 目标，可继续安装验证")
            } else {
                text("未发现明显的 FairPlay / 签名阻塞，可继续安装验证")
            },
        }
    };
    InspectionVerdict { direct_install_ok, blocked_reason, recommended_action, summary }
}

/// `Payload/<bundle>/<rest>`.
pub open spec fn in_bundle(bundle: Seq<char>, rest: Seq<char>) -> Seq<char> {
    "Payload/"@ + bundle + "/"@ + rest
}

/// The targets that the bundle's `SC_Info/Manifest.plist` declares; none when the
/// manifest cannot be read.
pub open spec fn spec_manifest_targets(archive: Seq<u8>, bundle: Seq<char>) -> (Seq<Seq<char>>, Seq<Seq<char>>) {
    match spec_plist_named(archive, in_bundle(bundle, "SC_Info/Manifest.plist"@)) {
        Some(n) => (node_string_items(n, "SinfPaths"@), node_string_items(n, "SinfReplicationPaths"@)),
        None => (Seq::empty(), Seq::empty()),
    }
}

/// The `.sinf` entries below `prefix`, with the prefix removed (repeatedly), in order.
pub open spec fn spec_present_raw(names: Seq<Seq<char>>, prefix: Seq<char>) -> Seq<Seq<char>>
    decreases names.len(),
{
    if names.len() == 0 {
        Seq::empty()
    } else {
        let rest = spec_present_raw(names.drop_last(), prefix);
        let n = names.last();
        if seq_starts_with(n, prefix) && seq_ends_with(n, ".sinf"@) {
            rest.push(trim_prefix_all(n, prefix))
        } else {
            rest
        }
    }
}

/// The app-extension directories below `prefix` (names containing `/PlugIns/` and ending
/// in `.appex/`), without their trailing slashes, in order of first appearance.
pub open spec fn spec_plugin_dirs(names: Seq<Seq<char>>, prefix: Seq<char>) -> Seq<Seq<char>>
    decreases names.len(),
{
    if names.len() == 0 {
        Seq::empty()
    } else {
        let rest = spec_plugin_dirs(names.drop_last(), prefix);
        let n = names.last();
        if seq_starts_with(n, prefix) && seq_contains_run(n, "/PlugIns/"@) && seq_ends_with(n, ".appex/"@) {
            let d = trim_end_char(n, '/');
            if rest.contains(d) { rest } else { rest.push(d) }
        } else {
            rest
        }
    }
}

/// Whether the entry at `path` is a FairPlay-encrypted Mach-O image: `Some(false)` when
/// it cannot be read or is not one, and `None` when inspecting it never ends.
pub open spec fn spec_binary_encrypted(archive: Seq<u8>, path: Seq<char>) -> Option<bool> {
    match spec_entry_named(archive, path) {
        None => Some(false),
        Some(bin) => match spec_macho_outcome(bin) {
            None => None,
            Some(o) => Some(o == Some(true)),
        },
    }
}

/// The executable of an app extension, `<dir>/<CFBundleExecutable>`, when its
/// `Info.plist` is a dictionary that names one.
pub open spec fn spec_plugin_binary(archive: Seq<u8>, dir: Seq<char>) -> Option<Seq<char>> {
    match spec_plist_named(archive, dir + "/Info.plist"@) {
        Some(info) => match info {
            PlistNode::Dictionary(_) => match node_string(info, "CFBundleExecutable"@) {
                Some(exe) => Some(dir + "/"@ + exe),
                None => None,
            },
            _ => None,
        },
        None => None,
    }
}

/// The encrypted binaries found in `paths` (in order, without the leading `Payload/`),
/// or `None` when inspecting one never ends.
pub open spec fn spec_encrypted_among(archive: Seq<u8>, paths: Seq<Seq<char>>) -> Option<Seq<Seq<char>>>
    decreases paths.len(),
{
    if paths.len() == 0 {
        Some(Seq::empty())
    } else {
        match spec_encrypted_among(archive, paths.drop_last()) {
            None => None,
            Some(prev) => match spec_binary_encrypted(archive, paths.last()) {
                None => None,
                Some(true) => Some(prev.push(trim_prefix_all(paths.last(), "Payload/"@))),
                Some(false) => Some(prev),
            },
        }
    }
}

/// The executables of the app extensions, in the order of their directories.
pub open spec fn spec_plugin_binaries(archive: Seq<u8>, dirs: Seq<Seq<char>>) -> Seq<Seq<char>>
    decreases dirs.len(),
{
    if dirs.len() == 0 {
        Seq::empty()
    } else {
        let rest = spec_plugin_binaries(archive, dirs.drop_last());
        match spec_plugin_binary(archive, dirs.last()) {
            Some(p) => rest.push(p),
            None => rest,
        }
    }
}

/// The bundle's `Info.plist`, when it is a dictionary.
pub open spec fn spec_info(archive: Seq<u8>, bundle: Seq<char>) -> Option<PlistNode> {
    match spec_plist_named(archive, in_bundle(bundle, "Info.plist"@)) {
        Some(n) => match n {
            PlistNode::Dictionary(_) => Some(n),
            _ => None,
        },
        None => None,
    }
}

/// The text under `key` of the bundle's `Info.plist`.
pub open spec fn spec_info_string(archive: Seq<u8>, bundle: Seq<char>, key: Seq<char>) -> Option<Seq<char>> {
    match spec_info(archive, bundle) {
        Some(info) => node_string(info, key),
        None => None,
    }
}

/// The binaries whose encryption an inspection checks: the main executable (when the
/// `Info.plist` names one), then those of the app extensions.
pub open spec fn spec_checked_binaries(archive: Seq<u8>, names: Seq<Seq<char>>, bundle: Seq<char>) -> Seq<Seq<char>> {
    let main: Seq<Seq<char>> = match spec_info_string(archive, bundle, "CFBundleExecutable"@) {
        Some(exe) => seq![in_bundle(bundle, exe)],
        None => Seq::empty(),
    };
    main + spec_plugin_binaries(archive, spec_plugin_dirs(names, "Payload/"@ + bundle + "/"@))
}

/// How the fields of an inspection follow from the archive, its entry names and its bundle.
pub open spec fn inspection_of(ins: IpaInspection, archive: Seq<u8>, names: Seq<Seq<char>>, bundle: Seq<char>, encrypted: Seq<Seq<char>>) -> bool {
    let targets = spec_manifest_targets(archive, bundle);
    let declared = spec_dedup(targets.0 + targets.1);
    let present = spec_dedup(spec_present_raw(names, "Payload/"@ + bundle + "/"@));
    let missing = spec_without(declared, present);
    let mobileprovision = names.contains(in_bundle(bundle, "embedded.mobileprovision"@));
    let blockers = spec_blockers(declared.len(), missing, encrypted.len(), mobileprovision);
    let reason = spec_blocked_reason(blockers);
    &&& ins.declared_sinf_paths.deep_view() == declared
    &&& ins.present_sinf_paths.deep_view() == present
    &&& ins.missing_sinf_paths.deep_view() == missing
    &&& ins.encrypted_binaries.deep_view() == encrypted
    &&& ins.has_sc_info_manifest == (declared.len() > 0)
    &&& ins.has_embedded_mobileprovision == mobileprovision
    &&& ins.direct_install_ok == (blockers.len() == 0)
    &&& opt_text(ins.blocked_reason) == reason
    &&& opt_text(ins.recommended_action) == spec_recommended_action(reason)
    &&& ins.summary@ == spec_summary(declared.len(), present.len(), missing, encrypted.len(), mobileprovision)
    &&& opt_text(ins.bundle_id) == spec_info_string(archive, bundle, "CFBundleIdentifier"@)
    &&& opt_text(ins.bundle_short_version) == spec_info_string(archive, bundle, "CFBundleShortVersionString"@)
    &&& opt_text(ins.bundle_display_name) == (match spec_info_string(archive, bundle, "CFBundleDisplayName"@) {
        Some(n) => Some(n),
        None => spec_info_string(archive, bundle, "CFBundleName"@),
    })
    &&& opt_text(ins.executable) == spec_info_string(archive, bundle, "CFBundleExecutable"@)
}

/// `Payload/<bundle>/<rest>`.
pub fn bundle_path(bundle: &String, rest: &str) -> (r: String)
    ensures
        r@ == in_bundle(bundle@, rest@),
{
    let mut buf: Vec<char> = Vec::new();
    push_str(&mut buf, "Payload/");
    push_str(&mut buf, bundle.as_str());
    push_str(&mut buf, "/");
    push_str(&mut buf, rest);
    string_from_chars(buf.as_slice())
}

/// The targets a `SC_Info/Manifest.plist` declares: the strings of its `SinfPaths` and
/// `SinfReplicationPaths` arrays (none when the value is not a dictionary).
pub fn manifest_targets_from_value(manifest: &PlistNode) -> (t: ManifestTargets)
    ensures
        t.sinf_paths.deep_view() == node_string_items(*manifest, "SinfPaths"@),
        t.sinf_replication_paths.deep_view() == node_string_items(*manifest, "SinfReplicationPaths"@),
{
    ManifestTargets {
        sinf_paths: plist_string_items(manifest, "SinfPaths"),
        sinf_replication_paths: plist_string_items(manifest, "SinfReplicationPaths"),
    }
}

/// The targets declared by the bundle's `SC_Info/Manifest.plist`; `Ok(None)` when it cannot
/// be read or parsed.  Never fails.
pub fn read_manifest_targets(archive: &[u8], app_bundle_name: &String) -> (r: Result<Option<ManifestTargets>, SigError>)
    ensures
        r matches Ok(o) && match spec_plist_named(archive@, in_bundle(app_bundle_name@, "SC_Info/Manifest.plist"@)) {
            Some(n) => o matches Some(t) && t.sinf_paths.deep_view() == node_string_items(n, "SinfPaths"@)
                && t.sinf_replication_paths.deep_view() == node_string_items(n, "SinfReplicationPaths"@),
            None => o is None,
        },
{
    let path = bundle_path(app_bundle_name, "SC_Info/Manifest.plist");
    match read_plist_from_zip(archive, &path) {
        Some(manifest) => Ok(Some(manifest_targets_from_value(&manifest))),
        None => Ok(None),
    }
}

/// The bundle's `Info.plist` when it is a dictionary.  Never fails.
pub fn read_info_plist(archive: &[u8], app_bundle_name: &String) -> (r: Result<Option<PlistNode>, SigError>)
    ensures
        r matches Ok(o) && o == spec_info(archive@, app_bundle_name@),
{
    let path = bundle_path(app_bundle_name, "Info.plist");
    match read_plist_from_zip(archive, &path) {
        Some(info) => match info {
            PlistNode::Dictionary(_) => Ok(Some(info)),
            _ => Ok(None),
        },
        None => Ok(None),
    }
}

/// The `CFBundleExecutable` of the bundle's `Info.plist`.  Never fails.
pub fn read_bundle_executable(archive: &[u8], app_bundle_name: &String) -> (r: Result<Option<String>, SigError>)
    ensures
        r matches Ok(o) && opt_text(o) == spec_info_string(archive@, app_bundle_name@, "CFBundleExecutable"@),
{
    let path = bundle_path(app_bundle_name, "Info.plist");
    match read_plist_from_zip(archive, &path) {
        Some(info) => Ok(plist_string_value(&info, "CFBundleExecutable")),
        None => Ok(None),
    }
}

fn present_raw(names: &Vec<String>, prefix: &Vec<char>) -> (r: Vec<String>)
    ensures
        r.deep_view() == spec_present_raw(names.deep_view(), prefix@),
{
    let suffix = chars_of(".sinf");
    let mut out: Vec<String> = Vec::new();
    let mut i: usize = 0;
    while i < names.len()
        invariant
            i <= names@.len(),
            suffix@ == ".sinf"@,
            out.deep_view() == spec_present_raw(names.deep_view().subrange(0, i as int), prefix@),
        decreases names@.len() - i,
    {
        let ghost sub = names.deep_view().subrange(0, i + 1);
        assert(sub.drop_last() =~= names.deep_view().subrange(0, i as int));
        let name = chars_of(names[i].as_str());
        if starts_with(name.as_slice(), prefix.as_slice()) && ends_with(name.as_slice(), suffix.as_slice()) {
            let trimmed = trim_start_all(name.as_slice(), prefix.as_slice());
            let ghost before = out.deep_view();
            out.push(string_from_chars(trimmed.as_slice()));
            assert(out.deep_view() =~= before.push(trimmed@));
        }
        i = i + 1;
    }
    assert(names.deep_view().subrange(0, names@.len() as int) =~= names.deep_view());
    out
}

fn plugin_dirs(names: &Vec<String>, prefix: &Vec<char>) -> (r: Vec<String>)
    ensures
        r.deep_view() == spec_plugin_dirs(names.deep_view(), prefix@),
{
    let marker = chars_of("/PlugIns/");
    let suffix = chars_of(".appex/");
    let mut out: Vec<String> = Vec::new();
    let mut i: usize = 0;
    while i < names.len()
        invariant
            i <= names@.len(),
            marker@ == "/PlugIns/"@,
            suffix@ == ".appex/"@,
            out.deep_view() == spec_plugin_dirs(names.deep_view().subrange(0, i as int), prefix@),
        decreases names@.len() - i,
    {
        let ghost sub = names.deep_view().subrange(0, i + 1);
        assert(sub.drop_last() =~= names.deep_view().subrange(0, i as int));
        let name = chars_of(names[i].as_str());
        if starts_with(name.as_slice(), prefix.as_slice()) && contains_run(name.as_slice(), marker.as_slice())
            && ends_with(name.as_slice(), suffix.as_slice()) {
            let trimmed = string_from_chars(trim_end_all(name.as_slice(), '/').as_slice());
            if !contains_string(&out, &trimmed) {
                let ghost before = out.deep_view();
                out.push(trimmed);
                assert(out.deep_view() =~= before.push(trimmed@));
            }
        }
        i = i + 1;
    }
    assert(names.deep_view().subrange(0, names@.len() as int) =~= names.deep_view());
    out
}

/// Whether the entry at `path` is an encrypted Mach-O image (see [`spec_binary_encrypted`]).
fn binary_encrypted(archive: &[u8], path: &String) -> (r: Option<bool>)
    ensures
        r == spec_binary_encrypted(archive@, path@),
{
    match read_zip_entry_bytes(archive, path) {
        None => Some(false),
        Some(bin) => match macho_outcome(bin.as_slice()) {
            None => None,
            Some(o) => Some(o == Some(true)),
        },
    }
}

fn plugin_binary(archive: &[u8], dir: &String) -> (r: Option<String>)
    ensures
        opt_text(r) == spec_plugin_binary(archive@, dir@),
{
    let mut buf: Vec<char> = Vec::new();
    push_str(&mut buf, dir.as_str());
    push_str(&mut buf, "/Info.plist");
    let info_path = string_from_chars(buf.as_slice());
    match read_plist_from_zip(archive, &info_path) {
        Some(info) => match info {
            PlistNode::Dictionary(_) => match plist_string_value(&info, "CFBundleExecutable") {
                Some(exe) => {
                    let mut b: Vec<char> = Vec::new();
                    push_str(&mut b, dir.as_str());
                    push_str(&mut b, "/");
                    push_str(&mut b, exe.as_str());
                    Some(string_from_chars(b.as_slice()))
                },
                None => None,
            },
            _ => None,
        },
        None => None,
    }
}

fn plugin_binaries(archive: &[u8], dirs: &Vec<String>) -> (r: Vec<String>)
    ensures
        r.deep_view() == spec_plugin_binaries(archive@, dirs.deep_view()),
{
    let mut out: Vec<String> = Vec::new();
    let mut i: usize = 0;
    while i < dirs.len()
        invariant
            i <= dirs@.len(),
            out.deep_view() == spec_plugin_binaries(archive@, dirs.deep_view().subrange(0, i as int)),
        decreases dirs@.len() - i,
    {
        let ghost sub = dirs.deep_view().subrange(0, i + 1);
        assert(sub.drop_last() =~= dirs.deep_view().subrange(0, i as int));
        match plugin_binary(archive, &dirs[i]) {
            Some(p) => {
                let ghost before = out.deep_view();
                out.push(p);
                assert(out.deep_view() =~= before.push(p@));
            },
            None => {},
        }
        i = i + 1;
    }
    assert(dirs.deep_view().subrange(0, dirs@.len() as int) =~= dirs.deep_view());
    out
}

fn encrypted_among(archive: &[u8], paths: &Vec<String>) -> (r: Option<Vec<String>>)
    ensures
        match spec_encrypted_among(archive@, paths.deep_view()) {
            Some(e) => r matches Some(v) && v.deep_view() == e,
            None => r is None,
        },
{
    let strip = chars_of("Payload/");
    let mut out: Vec<String> = Vec::new();
    let mut i: usize = 0;
    while i < paths.len()
        invariant
            i <= paths@.len(),
            strip@ == "Payload/"@,
            spec_encrypted_among(archive@, paths.deep_view().subrange(0, i as int)) matches Some(e) && out.deep_view() == e,
        decreases paths@.len() - i,
    {
        let ghost sub = paths.deep_view().subrange(0, i + 1);
        assert(sub.drop_last() =~= paths.deep_view().subrange(0, i as int));
        match binary_encrypted(archive, &paths[i]) {
            None => {
                proof {
                    lemma_encrypted_among_stuck(archive@, paths.deep_view(), i as int);
                }
                return None;
            },
            Some(true) => {
                let pc = chars_of(paths[i].as_str());
                let trimmed = trim_start_all(pc.as_slice(), strip.as_slice());
                let ghost before = out.deep_view();
                out.push(string_from_chars(trimmed.as_slice()));
                assert(out.deep_view() =~= before.push(trimmed@));
            },
            Some(false) => {},
        }
        i = i + 1;
    }
    assert(paths.deep_view().subrange(0, paths@.len() as int) =~= paths.deep_view());
    Some(out)
}

proof fn lemma_encrypted_among_stuck(archive: Seq<u8>, paths: Seq<Seq<char>>, i: int)
    requires
        0 <= i < paths.len(),
        spec_binary_encrypted(archive, paths[i]) is None,
    ensures
        spec_encrypted_among(archive, paths) is None,
    decreases paths.len(),
{
    if i == paths.len() - 1 {
    } else {
        lemma_encrypted_among_stuck(archive, paths.drop_last(), i);
    }
}

/// Inspects an IPA without changing it (see [`inspection_of`]).  Fails when the bytes
/// are not a readable archive, when no app bundle is found, and when a checked binary
/// is a fat Mach-O image that names itself (whose inspection would never end).
/// The app extensions are visited in the order their directories first appear.
pub fn inspect_ipa(ipa_bytes: &[u8]) -> (r: Result<IpaInspection, SigError>)
    ensures
        match zip_listing(ipa_bytes@) {
            Err(e) => r matches Err(SigError::Archive(m)) && m@ == e,
            Ok(names) => match spec_app_bundle(names) {
                None => r matches Err(SigError::NoAppBundle),
                Some(bundle) => match spec_encrypted_among(ipa_bytes@, spec_checked_binaries(ipa_bytes@, names, bundle)) {
                    None => r matches Err(SigError::SelfNestedMacho),
                    Some(enc) => r matches Ok(ins) && inspection_of(ins, ipa_bytes@, names, bundle, enc),
                },
            },
        },
{
    let names = match list_entries(ipa_bytes) {
        Ok(n) => n,
        Err(e) => return Err(SigError::Archive(e)),
    };
    inspect_listed(ipa_bytes, &names)
}

/// Inspects an IPA whose entry names are `names`, in order (see [`inspect_ipa`]).
pub fn inspect_listed(ipa_bytes: &[u8], names: &Vec<String>) -> (r: Result<IpaInspection, SigError>)
    ensures
        match spec_app_bundle(names.deep_view()) {
            None => r matches Err(SigError::NoAppBundle),
            Some(bundle) => match spec_encrypted_among(ipa_bytes@, spec_checked_binaries(ipa_bytes@, names.deep_view(), bundle)) {
                None => r matches Err(SigError::SelfNestedMacho),
                Some(enc) => r matches Ok(ins) && inspection_of(ins, ipa_bytes@, names.deep_view(), bundle, enc),
            },
        },
{
    let app_bundle_name = match app_bundle_of(names) {
        Some(b) => b,
        None => return Err(SigError::NoAppBundle),
    };
    let targets = match read_manifest_targets(ipa_bytes, &app_bundle_name) {
        Ok(Some(t)) => t,
        _ => ManifestTargets { sinf_paths: Vec::new(), sinf_replication_paths: Vec::new() },
    };
    let declared_sinf_paths = ordered_unique_paths(crate::injection::concat_paths(&targets.sinf_paths, &targets.sinf_replication_paths));

    let mut prefix: Vec<char> = Vec::new();
    push_str(&mut prefix, "Payload/");
    push_str(&mut prefix, app_bundle_name.as_str());
    push_str(&mut prefix, "/");
    let present_sinf_paths = ordered_unique_paths(present_raw(names, &prefix));
    let dirs = plugin_dirs(names, &prefix);
    let missing_sinf_paths = crate::injection::paths_without(&declared_sinf_paths, &present_sinf_paths);

    let info = match read_info_plist(ipa_bytes, &app_bundle_name) {
        Ok(o) => o,
        Err(_) => None,
    };
    let (bundle_id, bundle_short_version, bundle_display_name, executable) = match &info {
        Some(d) => {
            let display = match plist_string_value(d, "CFBundleDisplayName") {
                Some(n) => Some(n),
                None => plist_string_value(d, "CFBundleName"),
            };
            (
                plist_string_value(d, "CFBundleIdentifier"),
                plist_string_value(d, "CFBundleShortVersionString"),
                display,
                plist_string_value(d, "CFBundleExecutable"),
            )
        },
        None => (None, None, None, None),
    };
    let mut checked: Vec<String> = Vec::new();
    match &executable {
        Some(exe) => {
            checked.push(bundle_path(&app_bundle_name, exe.as_str()));
        },
        None => {},
    }
    let plugin_paths = plugin_binaries(ipa_bytes, &dirs);
    let checked = crate::injection::concat_paths(&checked, &plugin_paths);
    assert(checked.deep_view() =~= spec_checked_binaries(ipa_bytes@, names.deep_view(), app_bundle_name@));
    let encrypted_binaries = match encrypted_among(ipa_bytes, &checked) {
        Some(e) => e,
        None => return Err(SigError::SelfNestedMacho),
    };
    let mobileprovision_path = bundle_path(&app_bundle_name, "embedded.mobileprovision");
    let has_embedded_mobileprovision = contains_string(names, &mobileprovision_path);
    let verdict = inspection_verdict(
        declared_sinf_paths.len(),
        present_sinf_paths.len(),
        &missing_sinf_paths,
        encrypted_binaries.len(),
        has_embedded_mobileprovision,
    );
    Ok(IpaInspection {
        has_sc_info_manifest: declared_sinf_paths.len() > 0,
        has_embedded_mobileprovision,
        declared_sinf_paths,
        present_sinf_paths,
        missing_sinf_paths,
        encrypted_binaries,
        direct_install_ok: verdict.direct_install_ok,
        blocked_reason: verdict.blocked_reason,
        recommended_action: verdict.recommended_action,
        summary: verdict.summary,
        bundle_id,
        bundle_short_version,
        bundle_display_name,
        executable,
    })
}

} // verus!
