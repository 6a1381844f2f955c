//! Delisted apps: the candidates for the community archive that the completed downloads of
//! apps taken off the App Store give, and the archive entries built from them.
use vstd::prelude::*;
use crate::delivery::{ascii_lower, lower_ascii};
use crate::models::{to_upper, upper_text};
use crate::json::{json_get, json_member, json_member_text, json_text, number_as_i64, JsonNode};
use crate::records::DownloadRecord;
use crate::text::{chars_of, opt_text, text_less, trim, trim_white};

verus! {

/// One version of an app in the local archive.
#[derive(Debug, Clone)]
pub struct ArchiveVersion {
    pub version_id: String,
    pub version: String,
    pub description: Option<String>,
    pub released_at: Option<String>,
    pub size_bytes: Option<i64>,
}

/// The value of an archive version.
pub struct ArchiveVersionView {
    pub version_id: Seq<char>,
    pub version: Seq<char>,
    pub description: Option<Seq<char>>,
    pub released_at: Option<Seq<char>>,
    pub size_bytes: Option<i64>,
}

impl View for ArchiveVersion {
    type V = ArchiveVersionView;

    open spec fn view(&self) -> ArchiveVersionView {
        ArchiveVersionView {
            version_id: self.version_id@,
            version: self.version@,
            description: opt_text(self.description),
            released_at: opt_text(self.released_at),
            size_bytes: self.size_bytes,
        }
    }
}

/// The values of a list of archive versions.
pub open spec fn version_views(vs: Seq<ArchiveVersion>) -> Seq<ArchiveVersionView> {
    Seq::new(vs.len(), |i: int| vs[i]@)
}

/// An app that was downloaded while delisted, as a candidate for the community archive.
#[derive(Debug, Clone)]
pub struct LocalDelistedCandidate {
    pub id: String,
    pub name: String,
    pub bundle_id: Option<String>,
    pub icon_url: Option<String>,
    pub artist_name: Option<String>,
    pub versions: Vec<ArchiveVersion>,
    pub last_download_date: Option<String>,
    pub source_record_count: Option<usize>,
    pub already_archived_locally: bool,
    pub countries: Vec<String>,
}

/// The value of a candidate.
pub struct CandidateView {
    pub id: Seq<char>,
    pub name: Seq<char>,
    pub bundle_id: Option<Seq<char>>,
    pub icon_url: Option<Seq<char>>,
    pub artist_name: Option<Seq<char>>,
    pub versions: Seq<ArchiveVersionView>,
    pub last_download_date: Option<Seq<char>>,
    pub source_record_count: Option<usize>,
    pub already_archived_locally: bool,
    pub countries: Seq<Seq<char>>,
}

/// The texts of a list of strings.
pub open spec fn texts(v: Seq<String>) -> Seq<Seq<char>> {
    Seq::new(v.len(), |i: int| v[i]@)
}

impl View for LocalDelistedCandidate {
    type V = CandidateView;

    open spec fn view(&self) -> CandidateView {
        CandidateView {
            id: self.id@,
            name: self.name@,
            bundle_id: opt_text(self.bundle_id),
            icon_url: opt_text(self.icon_url),
            artist_name: opt_text(self.artist_name),
            versions: version_views(self.versions@),
            last_download_date: opt_text(self.last_download_date),
            source_record_count: self.source_record_count,
            already_archived_locally: self.already_archived_locally,
            countries: texts(self.countries@),
        }
    }
}

/// The values of a list of candidates.
pub open spec fn candidate_views(cs: Seq<LocalDelistedCandidate>) -> Seq<CandidateView> {
    Seq::new(cs.len(), |i: int| cs[i]@)
}

/// A download record with what the store said of the app when it was downloaded: the id of
/// the version fetched and whether the app was delisted.
#[derive(Debug, Clone)]
pub struct ListedRecord {
    pub record: DownloadRecord,
    pub app_version_id: Option<String>,
    pub delisted: Option<bool>,
}

/// Whether a status is `completed` in any ASCII case.
pub open spec fn is_completed(status: Seq<char>) -> bool {
    status.len() == "completed"@.len() && forall|i: int| 0 <= i < status.len() ==> ascii_lower(#[trigger] status[i]) == "completed"@[i]
}

pub(crate) fn completed(status: &str) -> (r: bool)
    ensures
        r == is_completed(status@),
{
    let s = chars_of(status);
    let target = chars_of("completed");
    proof {
        reveal_strlit("completed");
    }
    if s.len() != target.len() {
        return false;
    }
    let mut i: usize = 0;
    while i < s.len()
        invariant
            i <= s@.len(),
            s@ == status@,
            target@ == "completed"@,
            s@.len() == target@.len(),
            forall|k: int| 0 <= k < i ==> ascii_lower(#[trigger] s@[k]) == target@[k],
        decreases s@.len() - i,
    {
        if lower_ascii(s[i]) != target[i] {
            return false;
        }
        i = i + 1;
    }
    true
}

/// Whether a record counts toward the candidates: it names an app, is completed, and the app
/// was delisted when it was downloaded.
pub open spec fn counts_toward(r: ListedRecord) -> bool {
    trim_white(r.record.app_id@).len() > 0 && is_completed(r.record.status@) && r.delisted == Some(true)
}

/// The date a record was downloaded, else the date it was made.
pub open spec fn record_date(r: DownloadRecord) -> Option<Seq<char>> {
    match opt_text(r.download_date) {
        Some(d) => Some(d),
        None => opt_text(r.created_at),
    }
}

/// The first of a value and a fallback that is there.
pub open spec fn either(a: Option<Seq<char>>, b: Option<Seq<char>>) -> Option<Seq<char>> {
    match a {
        Some(x) => Some(x),
        None => b,
    }
}

/// The version id a record contributes: the store's version id, else the job id, when not
/// blank; else the record's version (empty when it has none).
pub open spec fn record_version_id(r: ListedRecord) -> Seq<char> {
    match opt_text(r.app_version_id) {
        Some(v) if trim_white(v).len() > 0 => v,
        _ => match opt_text(r.record.job_id) {
            Some(j) if trim_white(j).len() > 0 => j,
            _ => match opt_text(r.record.version) {
                Some(v) => v,
                None => Seq::empty(),
            },
        },
    }
}

/// The candidate a record opens: its app's id, name, bundle id, artwork and artist, its
/// date, no versions or countries, a count of 0, and whether the app is archived locally.
pub open spec fn opened_by(r: DownloadRecord, archived: Seq<Seq<char>>) -> CandidateView {
    CandidateView {
        id: r.app_id@,
        name: r.app_name@,
        bundle_id: opt_text(r.bundle_id),
        icon_url: opt_text(r.artwork_url),
        artist_name: opt_text(r.artist_name),
        versions: Seq::empty(),
        last_download_date: record_date(r),
        source_record_count: Some(0),
        already_archived_locally: archived.contains(r.app_id@),
        countries: Seq::empty(),
    }
}

/// The countries with a record's region added: trimmed and upper-cased, when not empty and
/// not there yet.
pub open spec fn with_region(countries: Seq<Seq<char>>, region: Option<Seq<char>>) -> Seq<Seq<char>> {
    match region {
        Some(reg) => {
            let u = upper_text(trim_white(reg));
            if u.len() > 0 && !countries.contains(u) {
                countries.push(u)
            } else {
                countries
            }
        },
        None => countries,
    }
}

/// Whether a version with this id is among the versions.
pub open spec fn has_version_id(vs: Seq<ArchiveVersionView>, id: Seq<char>) -> bool {
    exists|k: int| 0 <= k < vs.len() && (#[trigger] vs[k]).version_id == id
}

/// The versions with a record's version added, when its id (see [`record_version_id`]) is
/// not blank and not there yet.
pub open spec fn with_record_version(vs: Seq<ArchiveVersionView>, r: ListedRecord) -> Seq<ArchiveVersionView> {
    let id = record_version_id(r);
    if trim_white(id).len() > 0 && !has_version_id(vs, id) {
        vs.push(
            ArchiveVersionView {
                version_id: id,
                version: match opt_text(r.record.version) {
                    Some(v) => v,
                    None => "unknown"@,
                },
                description: Some("由本地下载记录聚合"@),
                released_at: None,
                size_bytes: r.record.file_size,
            },
        )
    } else {
        vs
    }
}

/// A candidate with a record taken in: a blank name, and a missing bundle id, artwork,
/// artist or date, filled from the record; the count up by one; its region and its version
/// added (see [`with_region`] and [`with_record_version`]).
pub open spec fn absorbed(c: CandidateView, r: ListedRecord) -> CandidateView {
    let rec = r.record;
    CandidateView {
        id: c.id,
        name: if trim_white(c.name).len() == 0 && trim_white(rec.app_name@).len() > 0 {
            rec.app_name@
        } else {
            c.name
        },
        bundle_id: either(c.bundle_id, opt_text(rec.bundle_id)),
        icon_url: either(c.icon_url, opt_text(rec.artwork_url)),
        artist_name: either(c.artist_name, opt_text(rec.artist_name)),
        versions: with_record_version(c.versions, r),
        last_download_date: either(c.last_download_date, record_date(rec)),
        source_record_count: Some(
            (match c.source_record_count {
                Some(n) => n,
                None => 0,
            } + 1) as usize,
        ),
        already_archived_locally: c.already_archived_locally,
        countries: with_region(c.countries, opt_text(rec.account_region)),
    }
}

/// The position of the candidate for an app among the candidates from `i` on.
pub open spec fn candidate_position_from(cs: Seq<CandidateView>, id: Seq<char>, i: int) -> Option<int>
    decreases cs.len() - i,
{
    if i < 0 || i >= cs.len() {
        None
    } else if cs[i].id == id {
        Some(i)
    } else {
        candidate_position_from(cs, id, i + 1)
    }
}

/// The candidates that the records give, one per app in the order the apps first appear:
/// each record that counts (see [`counts_toward`]) is taken into its app's candidate (see
/// [`opened_by`] and [`absorbed`]); `archived` holds the ids of the locally archived apps.
pub open spec fn spec_group_candidates(records: Seq<ListedRecord>, archived: Seq<Seq<char>>) -> Seq<CandidateView>
    decreases records.len(),
{
    if records.len() == 0 {
        Seq::empty()
    } else {
        let prev = spec_group_candidates(records.drop_last(), archived);
        let r = records.last();
        if !counts_toward(r) {
            prev
        } else {
            match candidate_position_from(prev, r.record.app_id@, 0) {
                Some(k) => prev.update(k, absorbed(prev[k], r)),
                None => prev.push(absorbed(opened_by(r.record, archived), r)),
            }
        }
    }
}

fn copy_opt(o: &Option<String>) -> (r: Option<String>)
    ensures
        opt_text(r) == opt_text(*o),
{
    match o {
        Some(v) => Some(v.clone()),
        None => None,
    }
}

fn copy_version(v: &ArchiveVersion) -> (r: ArchiveVersion)
    ensures
        r@ == v@,
{
    ArchiveVersion {
        version_id: v.version_id.clone(),
        version: v.version.clone(),
        description: copy_opt(&v.description),
        released_at: copy_opt(&v.released_at),
        size_bytes: v.size_bytes,
    }
}

fn copy_versions(vs: &Vec<ArchiveVersion>) -> (r: Vec<ArchiveVersion>)
    ensures
        version_views(r@) == version_views(vs@),
{
    let mut out: Vec<ArchiveVersion> = Vec::new();
    let mut i: usize = 0;
    while i < vs.len()
        invariant
            i <= vs@.len(),
            out@.len() == i,
            forall|k: int| 0 <= k < i ==> (#[trigger] out@[k])@ == vs@[k]@,
        decreases vs@.len() - i,
    {
        out.push(copy_version(&vs[i]));
        i = i + 1;
    }
    assert(version_views(out@) =~= version_views(vs@));
    out
}

fn copy_texts(v: &Vec<String>) -> (r: Vec<String>)
    ensures
        texts(r@) == texts(v@),
{
    let mut out: Vec<String> = Vec::new();
    let mut i: usize = 0;
    while i < v.len()
        invariant
            i <= v@.len(),
            out@.len() == i,
            forall|k: int| 0 <= k < i ==> (#[trigger] out@[k])@ == v@[k]@,
        decreases v@.len() - i,
    {
        out.push(v[i].clone());
        i = i + 1;
    }
    assert(texts(out@) =~= texts(v@));
    out
}

fn contains_text(v: &Vec<String>, t: &str) -> (r: bool)
    ensures
        r == texts(v@).contains(t@),
{
    let mut i: usize = 0;
    while i < v.len()
        invariant
            i <= v@.len(),
            forall|k: int| 0 <= k < i ==> v@[k]@ != t@,
        decreases v@.len() - i,
    {
        if crate::apple::same_text(v[i].as_str(), t) {
            assert(texts(v@)[i as int] == t@);
            return true;
        }
        i = i + 1;
    }
    proof {
        if texts(v@).contains(t@) {
            let k = choose|k: int| 0 <= k < texts(v@).len() && texts(v@)[k] == t@;
            assert(v@[k]@ == t@);
        }
    }
    false
}

fn has_version(vs: &Vec<ArchiveVersion>, id: &str) -> (r: bool)
    ensures
        r == has_version_id(version_views(vs@), id@),
{
    let mut i: usize = 0;
    while i < vs.len()
        invariant
            i <= vs@.len(),
            forall|k: int| 0 <= k < i ==> vs@[k].version_id@ != id@,
        decreases vs@.len() - i,
    {
        if crate::apple::same_text(vs[i].version_id.as_str(), id) {
            assert(version_views(vs@)[i as int].version_id == id@);
            return true;
        }
        i = i + 1;
    }
    proof {
        if has_version_id(version_views(vs@), id@) {
            let k = choose|k: int| 0 <= k < version_views(vs@).len() && (#[trigger] version_views(vs@)[k]).version_id == id@;
            assert(vs@[k].version_id@ == id@);
        }
    }
    false
}

fn is_blank(s: &str) -> (r: bool)
    ensures
        r == (trim_white(s@).len() == 0),
{
    trim(s).as_str().is_empty()
}

fn version_id_of(r: &ListedRecord) -> (id: String)
    ensures
        id@ == record_version_id(*r),
{
    if let Some(v) = &r.app_version_id {
        if !is_blank(v.as_str()) {
            return v.clone();
        }
    }
    if let Some(j) = &r.record.job_id {
        if !is_blank(j.as_str()) {
            return j.clone();
        }
    }
    match &r.record.version {
        Some(v) => v.clone(),
        None => String::new(),
    }
}

fn fill(current: &Option<String>, fallback: &Option<String>) -> (r: Option<String>)
    ensures
        opt_text(r) == either(opt_text(*current), opt_text(*fallback)),
{
    match current {
        Some(v) => Some(v.clone()),
        None => copy_opt(fallback),
    }
}

fn date_of(r: &DownloadRecord) -> (d: Option<String>)
    ensures
        opt_text(d) == record_date(*r),
{
    fill(&r.download_date, &r.created_at)
}

fn absorb(c: &LocalDelistedCandidate, lr: &ListedRecord) -> (n: LocalDelistedCandidate)
    requires
        match c.source_record_count {
            Some(k) => k < usize::MAX,
            None => true,
        },
    ensures
        n@ == absorbed(c@, *lr),
{
    let rec = &lr.record;
    let name = if is_blank(c.name.as_str()) && !is_blank(rec.app_name.as_str()) {
        rec.app_name.clone()
    } else {
        c.name.clone()
    };
    let mut countries = copy_texts(&c.countries);
    if let Some(reg) = &rec.account_region {
        let trimmed = trim(reg.as_str());
        let u = to_upper(trimmed.as_str());
        if !u.as_str().is_empty() && !contains_text(&countries, u.as_str()) {
            let ghost before = countries@;
            countries.push(u);
            assert(texts(countries@) =~= texts(before).push(upper_text(trim_white(reg@))));
        }
    }
    let mut versions = copy_versions(&c.versions);
    let id = version_id_of(lr);
    if !is_blank(id.as_str()) && !has_version(&versions, id.as_str()) {
        let ghost before = versions@;
        let label = match &rec.version {
            Some(v) => v.clone(),
            None => "unknown".to_owned(),
        };
        versions.push(ArchiveVersion {
            version_id: id,
            version: label,
            description: Some("由本地下载记录聚合".to_owned()),
            released_at: None,
            size_bytes: rec.file_size,
        });
        assert(version_views(versions@) =~= version_views(before).push(versions@.last()@));
    }
    let count: usize = match c.source_record_count {
        Some(k) => k + 1,
        None => 1,
    };
    LocalDelistedCandidate {
        id: c.id.clone(),
        name,
        bundle_id: fill(&c.bundle_id, &rec.bundle_id),
        icon_url: fill(&c.icon_url, &rec.artwork_url),
        artist_name: fill(&c.artist_name, &rec.artist_name),
        versions,
        last_download_date: fill(&c.last_download_date, &date_of(rec)),
        source_record_count: Some(count),
        already_archived_locally: c.already_archived_locally,
        countries,
    }
}

fn open_candidate(r: &DownloadRecord, archived: &Vec<String>) -> (c: LocalDelistedCandidate)
    ensures
        c@ == opened_by(*r, texts(archived@)),
{
    let c = LocalDelistedCandidate {
        id: r.app_id.clone(),
        name: r.app_name.clone(),
        bundle_id: copy_opt(&r.bundle_id),
        icon_url: copy_opt(&r.artwork_url),
        artist_name: copy_opt(&r.artist_name),
        versions: Vec::new(),
        last_download_date: date_of(r),
        source_record_count: Some(0),
        already_archived_locally: contains_text(archived, r.app_id.as_str()),
        countries: Vec::new(),
    };
    assert(c@.versions =~= Seq::<ArchiveVersionView>::empty());
    assert(c@.countries =~= Seq::<Seq<char>>::empty());
    c
}

fn find_candidate(cs: &Vec<LocalDelistedCandidate>, id: &str) -> (r: Option<usize>)
    ensures
        match candidate_position_from(candidate_views(cs@), id@, 0) {
            Some(k) => r matches Some(u) && u as int == k,
            None => r is None,
        },
        r matches Some(u) ==> u < cs@.len() && cs@[u as int].id@ == id@,
{
    let ghost views = candidate_views(cs@);
    let mut i: usize = 0;
    while i < cs.len()
        invariant
            i <= cs@.len(),
            views == candidate_views(cs@),
            candidate_position_from(views, id@, 0) == candidate_position_from(views, id@, i as int),
        decreases cs@.len() - i,
    {
        if crate::apple::same_text(cs[i].id.as_str(), id) {
            return Some(i);
        }
        i = i + 1;
    }
    None
}

spec fn count_at_most(c: CandidateView, n: nat) -> bool {
    match c.source_record_count {
        Some(k) => k <= n,
        None => false,
    }
}

proof fn lemma_counts_bounded(records: Seq<ListedRecord>, archived: Seq<Seq<char>>)
    ensures
        spec_group_candidates(records, archived).len() <= records.len(),
        forall|k: int| 0 <= k < spec_group_candidates(records, archived).len() ==>
            count_at_most(#[trigger] spec_group_candidates(records, archived)[k], records.len()),
    decreases records.len(),
{
    if records.len() > 0 {
        let prev = spec_group_candidates(records.drop_last(), archived);
        lemma_counts_bounded(records.drop_last(), archived);
        let r = records.last();
        let cur = spec_group_candidates(records, archived);
        if counts_toward(r) {
            match candidate_position_from(prev, r.record.app_id@, 0) {
                Some(k) => {
                    lemma_position_in_range(prev, r.record.app_id@, 0);
                    assert forall|j: int| 0 <= j < cur.len() implies count_at_most(#[trigger] cur[j], records.len()) by {
                        if j != k {
                            assert(cur[j] == prev[j]);
                            assert(count_at_most(prev[j], records.drop_last().len()));
                        } else {
                            assert(count_at_most(prev[k], records.drop_last().len()));
                        }
                    }
                },
                None => {
                    assert forall|j: int| 0 <= j < cur.len() implies count_at_most(#[trigger] cur[j], records.len()) by {
                        if j < prev.len() {
                            assert(cur[j] == prev[j]);
                            assert(count_at_most(prev[j], records.drop_last().len()));
                        }
                    }
                },
            }
        } else {
            assert forall|j: int| 0 <= j < cur.len() implies count_at_most(#[trigger] cur[j], records.len()) by {
                assert(count_at_most(prev[j], records.drop_last().len()));
            }
        }
    }
}

proof fn lemma_position_in_range(cs: Seq<CandidateView>, id: Seq<char>, i: int)
    ensures
        candidate_position_from(cs, id, i) matches Some(k) ==> i <= k < cs.len() && cs[k].id == id,
    decreases cs.len() - i,
{
    if 0 <= i < cs.len() && cs[i].id != id {
        lemma_position_in_range(cs, id, i + 1);
    }
}

proof fn lemma_position_absent(cs: Seq<CandidateView>, id: Seq<char>, i: int)
    requires
        0 <= i,
        candidate_position_from(cs, id, i) is None,
    ensures
        forall|m: int| i <= m < cs.len() ==> cs[m].id != id,
    decreases cs.len() - i,
{
    if i < cs.len() {
        lemma_position_absent(cs, id, i + 1);
    }
}

/// Grouping gives each app one candidate: no two candidates share an app id.
pub proof fn lemma_one_candidate_per_app(records: Seq<ListedRecord>, archived: Seq<Seq<char>>)
    ensures
        forall|i: int, j: int|
            0 <= i < j < spec_group_candidates(records, archived).len() ==> (#[trigger] spec_group_candidates(records, archived)[i]).id
                != (#[trigger] spec_group_candidates(records, archived)[j]).id,
    decreases records.len(),
{
    if records.len() > 0 {
        let prev = spec_group_candidates(records.drop_last(), archived);
        lemma_one_candidate_per_app(records.drop_last(), archived);
        let r = records.last();
        let cur = spec_group_candidates(records, archived);
        if counts_toward(r) {
            match candidate_position_from(prev, r.record.app_id@, 0) {
                Some(k) => {
                    lemma_position_in_range(prev, r.record.app_id@, 0);
                    assert forall|i: int, j: int| 0 <= i < j < cur.len() implies (#[trigger] cur[i]).id != (#[trigger] cur[j]).id by {
                        assert(cur[i].id == prev[i].id);
                        assert(cur[j].id == prev[j].id);
                    }
                },
                None => {
                    lemma_position_absent(prev, r.record.app_id@, 0);
                    assert forall|i: int, j: int| 0 <= i < j < cur.len() implies (#[trigger] cur[i]).id != (#[trigger] cur[j]).id by {
                        if j == prev.len() {
                            assert(cur[i] == prev[i]);
                        } else {
                            assert(cur[i] == prev[i] && cur[j] == prev[j]);
                        }
                    }
                },
            }
        }
    }
}

/// The candidates that the records give (see [`spec_group_candidates`]); `archived_ids`
/// holds the ids of the apps in the local archive.
pub fn group_delisted_candidates(records: &Vec<ListedRecord>, archived_ids: &Vec<String>) -> (r: Vec<LocalDelistedCandidate>)
    ensures
        candidate_views(r@) == spec_group_candidates(records@, texts(archived_ids@)),
{
    let ghost archived = texts(archived_ids@);
    let mut out: Vec<LocalDelistedCandidate> = Vec::new();
    let mut i: usize = 0;
    assert(records@.subrange(0, 0) =~= Seq::<ListedRecord>::empty());
    assert(candidate_views(out@) =~= Seq::<CandidateView>::empty());
    while i < records.len()
        invariant
            i <= records@.len(),
            archived == texts(archived_ids@),
            candidate_views(out@) == spec_group_candidates(records@.subrange(0, i as int), archived),
        decreases records@.len() - i,
    {
        let ghost prefix = records@.subrange(0, i as int + 1);
        assert(prefix.drop_last() =~= records@.subrange(0, i as int));
        assert(prefix.last() == records@[i as int]);
        proof {
            lemma_counts_bounded(records@.subrange(0, i as int), archived);
        }
        let lr = &records[i];
        let rec = &lr.record;
        if !is_blank(rec.app_id.as_str()) && completed(rec.status.as_str()) && lr.delisted == Some(true) {
            let ghost before = out@;
            match find_candidate(&out, rec.app_id.as_str()) {
                Some(k) => {
                    assert(candidate_views(before)[k as int] == out@[k as int]@);
                    let updated = absorb(&out[k], lr);
                    out.set(k, updated);
                    assert(candidate_views(out@) =~= candidate_views(before).update(k as int, updated@));
                },
                None => {
                    let fresh = open_candidate(rec, archived_ids);
                    let updated = absorb(&fresh, lr);
                    out.push(updated);
                    assert(candidate_views(out@) =~= candidate_views(before).push(updated@));
                },
            }
        }
        i = i + 1;
    }
    assert(records@.subrange(0, records@.len() as int) =~= records@);
    out
}

/// An app in the local archive.
#[derive(Debug, Clone)]
pub struct ArchiveApp {
    pub id: String,
    pub name: String,
    pub icon_url: Option<String>,
    pub icon_bak_url: Option<String>,
    pub icon_base64: Option<String>,
    pub icon_content_type: Option<String>,
    pub bundle_id: Option<String>,
    pub artist_name: Option<String>,
    pub versions: Vec<ArchiveVersion>,
    pub delisted: bool,
    pub added_at: String,
    pub added_by: String,
}

/// A candidate completed from the local archive's entry for its app: a blank name from
/// the entry's name when that is not blank, a missing icon from the entry's icon.
pub open spec fn filled_from_archive(c: CandidateView, a: Option<ArchiveApp>) -> CandidateView {
    match a {
        Some(app) => CandidateView {
            id: c.id,
            name: if trim_white(c.name).len() == 0 && trim_white(app.name@).len() > 0 {
                app.name@
            } else {
                c.name
            },
            bundle_id: c.bundle_id,
            icon_url: either(c.icon_url, opt_text(app.icon_url)),
            artist_name: c.artist_name,
            versions: c.versions,
            last_download_date: c.last_download_date,
            source_record_count: c.source_record_count,
            already_archived_locally: c.already_archived_locally,
            countries: c.countries,
        },
        None => c,
    }
}

/// Whether a record's file is named (not blank) and exists.
pub open spec fn file_present(path: Option<String>, exists: bool) -> bool {
    match opt_text(path) {
        Some(p) => trim_white(p).len() > 0 && exists,
        None => false,
    }
}

/// Whether some record that counts toward the app's candidate still has its file;
/// `exists[i]` tells whether the file of record `i` exists.
pub open spec fn has_local_file(records: Seq<ListedRecord>, exists: Seq<bool>, id: Seq<char>) -> bool {
    exists|i: int|
        0 <= i < records.len() && i < exists.len() && counts_toward(#[trigger] records[i]) && records[i].record.app_id@ == id
            && file_present(records[i].record.file_path, exists[i])
}

/// A candidate with `CN` as its country when it has none.
pub open spec fn with_default_country(c: CandidateView) -> CandidateView {
    if c.countries.len() == 0 {
        CandidateView {
            id: c.id,
            name: c.name,
            bundle_id: c.bundle_id,
            icon_url: c.icon_url,
            artist_name: c.artist_name,
            versions: c.versions,
            last_download_date: c.last_download_date,
            source_record_count: c.source_record_count,
            already_archived_locally: c.already_archived_locally,
            countries: seq!["CN"@],
        }
    } else {
        c
    }
}

/// The candidates kept, in order, each completed from its archive entry (see
/// [`filled_from_archive`]) and given a default country: those not archived locally, no
/// longer on the store (`on_store[i]`) and with a local file (see [`has_local_file`]).
pub open spec fn spec_kept_candidates(
    cs: Seq<CandidateView>,
    archives: Seq<Option<ArchiveApp>>,
    on_store: Seq<bool>,
    records: Seq<ListedRecord>,
    exists: Seq<bool>,
) -> Seq<CandidateView>
    decreases cs.len(),
{
    if cs.len() == 0 {
        Seq::empty()
    } else {
        let k = cs.len() - 1;
        let prev = spec_kept_candidates(cs.drop_last(), archives, on_store, records, exists);
        let c = filled_from_archive(cs[k], archives[k]);
        if !c.already_archived_locally && !on_store[k] && has_local_file(records, exists, c.id) {
            prev.push(with_default_country(c))
        } else {
            prev
        }
    }
}

/// Whether date `a` sorts before date `b`: a missing date before any, dates as texts.
pub open spec fn date_less(a: Option<Seq<char>>, b: Option<Seq<char>>) -> bool {
    match (a, b) {
        (None, Some(_)) => true,
        (Some(x), Some(y)) => text_less(x, y),
        _ => false,
    }
}

/// Whether the candidates run from the latest download date to the earliest.
pub open spec fn latest_first(cs: Seq<CandidateView>) -> bool {
    forall|i: int, j: int| 0 <= i < j < cs.len() ==> !date_less(#[trigger] cs[i].last_download_date, #[trigger] cs[j].last_download_date)
}

proof fn lemma_date_order(a: Option<Seq<char>>, b: Option<Seq<char>>, c: Option<Seq<char>>)
    ensures
        date_less(a, b) ==> !date_less(b, a),
        !date_less(a, b) ==> date_less(b, a) || a == b,
        date_less(a, b) && date_less(b, c) ==> date_less(a, c),
{
    match (a, b) {
        (Some(x), Some(y)) => {
            crate::text::lemma_text_less_asymmetric(x, y);
            crate::text::lemma_text_less_total(x, y);
            match c {
                Some(z) => if text_less(x, y) && text_less(y, z) {
                    crate::text::lemma_text_less_transitive(x, y, z);
                },
                None => {},
            }
        },
        _ => {},
    }
}

fn less_date(a: &Option<String>, b: &Option<String>) -> (r: bool)
    ensures
        r == date_less(opt_text(*a), opt_text(*b)),
{
    match (a, b) {
        (None, Some(_)) => true,
        (Some(x), Some(y)) => crate::text::less_text(x, y),
        _ => false,
    }
}

fn copy_candidate(c: &LocalDelistedCandidate) -> (r: LocalDelistedCandidate)
    ensures
        r@ == c@,
{
    LocalDelistedCandidate {
        id: c.id.clone(),
        name: c.name.clone(),
        bundle_id: copy_opt(&c.bundle_id),
        icon_url: copy_opt(&c.icon_url),
        artist_name: copy_opt(&c.artist_name),
        versions: copy_versions(&c.versions),
        last_download_date: copy_opt(&c.last_download_date),
        source_record_count: c.source_record_count,
        already_archived_locally: c.already_archived_locally,
        countries: copy_texts(&c.countries),
    }
}

fn fill_from_archive(c: &LocalDelistedCandidate, a: &Option<ArchiveApp>) -> (r: LocalDelistedCandidate)
    ensures
        r@ == filled_from_archive(
            c@,
            *a,
        ),
{
    match a {
        Some(app) => {
            let mut n = copy_candidate(c);
            if is_blank(c.name.as_str()) && !is_blank(app.name.as_str()) {
                n.name = app.name.clone();
            }
            n.icon_url = fill(&c.icon_url, &app.icon_url);
            n
        },
        None => copy_candidate(c),
    }
}

fn local_file_kept(records: &Vec<ListedRecord>, exists: &Vec<bool>, id: &str) -> (r: bool)
    ensures
        r == has_local_file(records@, exists@, id@),
{
    let mut i: usize = 0;
    while i < records.len() && i < exists.len()
        invariant
            i <= records@.len(),
            forall|k: int|
                0 <= k < i && k < exists@.len() ==> !(counts_toward(#[trigger] records@[k]) && records@[k].record.app_id@ == id@
                    && file_present(records@[k].record.file_path, exists@[k])),
        decreases records@.len() - i,
    {
        let lr = &records[i];
        let rec = &lr.record;
        let present = match &rec.file_path {
            Some(p) => !is_blank(p.as_str()) && exists[i],
            None => false,
        };
        if !is_blank(rec.app_id.as_str()) && completed(rec.status.as_str()) && lr.delisted == Some(true)
            && crate::apple::same_text(rec.app_id.as_str(), id) && present {
            return true;
        }
        i = i + 1;
    }
    false
}

fn insert_latest_first(out: &mut Vec<LocalDelistedCandidate>, c: LocalDelistedCandidate)
    requires
        latest_first(candidate_views(old(out)@)),
    ensures
        latest_first(candidate_views(final(out)@)),
        candidate_views(final(out)@).to_multiset() == candidate_views(old(out)@).to_multiset().insert(c@),
{
    let ghost before = candidate_views(out@);
    let mut p: usize = 0;
    while p < out.len() && !less_date(&out[p].last_download_date, &c.last_download_date)
        invariant
            p <= out@.len(),
            before == candidate_views(out@),
            forall|q: int| 0 <= q < p ==> !date_less(#[trigger] before[q].last_download_date, c@.last_download_date),
        decreases out@.len() - p,
    {
        p = p + 1;
    }
    let ghost x = c@;
    out.insert(p, c);
    let ghost after = candidate_views(out@);
    assert(after =~= before.insert(p as int, x));
    proof {
        vstd::seq_lib::to_multiset_insert(before, p as int, x);
        assert forall|i: int, j: int| 0 <= i < j < after.len() implies !date_less(
            #[trigger] after[i].last_download_date,
            #[trigger] after[j].last_download_date,
        ) by {
            if j < p {
                assert(after[i] == before[i] && after[j] == before[j]);
            } else if j == p {
                assert(after[i] == before[i]);
            } else if i == p {
                assert(after[j] == before[j - 1]);
                let d = before[p as int].last_download_date;
                assert(date_less(d, x.last_download_date));
                if j - 1 > p {
                    assert(!date_less(before[p as int].last_download_date, before[j - 1].last_download_date));
                }
                lemma_date_order(before[j - 1].last_download_date, d, x.last_download_date);
                lemma_date_order(d, before[j - 1].last_download_date, x.last_download_date);
                lemma_date_order(x.last_download_date, before[j - 1].last_download_date, d);
            } else if i < p {
                assert(after[i] == before[i] && after[j] == before[j - 1]);
            } else {
                assert(after[i] == before[i - 1] && after[j] == before[j - 1]);
            }
        }
    }
}

/// The final list of delisted candidates: the grouped candidates kept and completed (see
/// [`spec_kept_candidates`]), latest download first. `archives[i]` is the local archive
/// entry of candidate `i`'s app, `on_store[i]` whether the store still lists it, and
/// `file_exists[j]` whether the file of record `j` exists.
pub fn finish_delisted_candidates(
    candidates: &Vec<LocalDelistedCandidate>,
    archives: &Vec<Option<ArchiveApp>>,
    on_store: &Vec<bool>,
    records: &Vec<ListedRecord>,
    file_exists: &Vec<bool>,
) -> (r: Vec<LocalDelistedCandidate>)
    requires
        archives@.len() == candidates@.len(),
        on_store@.len() == candidates@.len(),
    ensures
        latest_first(candidate_views(r@)),
        candidate_views(r@).to_multiset() == spec_kept_candidates(
            candidate_views(candidates@),
            archives@,
            on_store@,
            records@,
            file_exists@,
        ).to_multiset(),
{
    let ghost cs = candidate_views(candidates@);
    let mut out: Vec<LocalDelistedCandidate> = Vec::new();
    let mut i: usize = 0;
    assert(cs.subrange(0, 0) =~= Seq::<CandidateView>::empty());
    assert(candidate_views(out@) =~= Seq::<CandidateView>::empty());
    while i < candidates.len()
        invariant
            i <= candidates@.len(),
            cs == candidate_views(candidates@),
            archives@.len() == candidates@.len(),
            on_store@.len() == candidates@.len(),
            latest_first(candidate_views(out@)),
            candidate_views(out@).to_multiset() == spec_kept_candidates(cs.subrange(0, i as int), archives@, on_store@, records@, file_exists@).to_multiset(),
        decreases candidates@.len() - i,
    {
        let ghost prefix = cs.subrange(0, i as int + 1);
        assert(prefix.drop_last() =~= cs.subrange(0, i as int));
        assert(prefix[i as int] == candidates@[i as int]@);
        let c = fill_from_archive(&candidates[i], &archives[i]);
        if !c.already_archived_locally && !on_store[i] && local_file_kept(records, file_exists, c.id.as_str()) {
            let mut c = c;
            if c.countries.len() == 0 {
                let mut cn: Vec<String> = Vec::new();
                cn.push("CN".to_owned());
                c.countries = cn;
                assert(texts(c.countries@) =~= seq!["CN"@]);
            }
            let ghost v = c@;
            insert_latest_first(&mut out, c);
            proof {
                vstd::seq_lib::to_multiset_build(spec_kept_candidates(cs.subrange(0, i as int), archives@, on_store@, records@, file_exists@), v);
            }
        }
        i = i + 1;
    }
    assert(cs.subrange(0, candidates@.len() as int) =~= cs);
    out
}

/// A request to add an app, or versions of it, to the local archive.
#[derive(Debug, Clone)]
pub struct AddArchiveRequest {
    pub app_id: String,
    pub app_name: String,
    pub icon_url: Option<String>,
    pub bundle_id: Option<String>,
    pub artist_name: Option<String>,
    pub versions: Vec<ArchiveVersion>,
}

/// A version updated from a requested one with the same id: the requested version label
/// unless blank, the requested description, and the requested date and size when given.
pub open spec fn version_updated(old: ArchiveVersionView, req: ArchiveVersionView) -> ArchiveVersionView {
    ArchiveVersionView {
        version_id: old.version_id,
        version: if trim_white(req.version).len() == 0 { old.version } else { req.version },
        description: req.description,
        released_at: either(req.released_at, old.released_at),
        size_bytes: match req.size_bytes {
            Some(n) => Some(n),
            None => old.size_bytes,
        },
    }
}

/// The position of the first version with this id, from position `i` on.
pub open spec fn version_position_from(vs: Seq<ArchiveVersionView>, id: Seq<char>, i: int) -> Option<int>
    decreases vs.len() - i,
{
    if i < 0 || i >= vs.len() {
        None
    } else if vs[i].version_id == id {
        Some(i)
    } else {
        version_position_from(vs, id, i + 1)
    }
}

/// The versions with the requested ones taken in, in order: one with a blank id is left
/// out; one whose id is there updates the first version with that id (see
/// [`version_updated`]); another is added at the end.
pub open spec fn versions_merged(vs: Seq<ArchiveVersionView>, reqs: Seq<ArchiveVersionView>) -> Seq<ArchiveVersionView>
    decreases reqs.len(),
{
    if reqs.len() == 0 {
        vs
    } else {
        let prev = versions_merged(vs, reqs.drop_last());
        let v = reqs.last();
        if trim_white(v.version_id).len() == 0 {
            prev
        } else {
            match version_position_from(prev, v.version_id, 0) {
                Some(k) => prev.update(k, version_updated(prev[k], v)),
                None => prev.push(v),
            }
        }
    }
}

/// Whether no two versions share an id.
pub open spec fn distinct_version_ids(vs: Seq<ArchiveVersionView>) -> bool {
    forall|i: int, j: int| 0 <= i < j < vs.len() ==> (#[trigger] vs[i]).version_id != (#[trigger] vs[j]).version_id
}

/// Whether an archive entry is the one a request makes of the entry already stored (if
/// any): the request's id and name; its icon, bundle id and artist, else the stored ones;
/// the stored icon copies, versions (with the requested ones merged, see
/// [`versions_merged`]), flag, date and author. A new entry is not delisted, added `now` by
/// `user`.
pub open spec fn is_requested_entry(a: ArchiveApp, req: AddArchiveRequest, existing: Option<ArchiveApp>, now: Seq<char>) -> bool {
    &&& a.id@ == req.app_id@
    &&& a.name@ == req.app_name@
    &&& version_views(a.versions@) == versions_merged(
        match existing {
            Some(e) => version_views(e.versions@),
            None => Seq::empty(),
        },
        version_views(req.versions@),
    )
    &&& match existing {
        Some(e) => {
            &&& opt_text(a.icon_url) == either(opt_text(req.icon_url), opt_text(e.icon_url))
            &&& opt_text(a.icon_bak_url) == opt_text(e.icon_bak_url)
            &&& opt_text(a.icon_base64) == opt_text(e.icon_base64)
            &&& opt_text(a.icon_content_type) == opt_text(e.icon_content_type)
            &&& opt_text(a.bundle_id) == either(opt_text(req.bundle_id), opt_text(e.bundle_id))
            &&& opt_text(a.artist_name) == either(opt_text(req.artist_name), opt_text(e.artist_name))
            &&& a.delisted == e.delisted
            &&& a.added_at@ == e.added_at@
            &&& a.added_by@ == e.added_by@
        },
        None => {
            &&& opt_text(a.icon_url) == opt_text(req.icon_url)
            &&& a.icon_bak_url is None
            &&& a.icon_base64 is None
            &&& a.icon_content_type is None
            &&& opt_text(a.bundle_id) == opt_text(req.bundle_id)
            &&& opt_text(a.artist_name) == opt_text(req.artist_name)
            &&& !a.delisted
            &&& a.added_at@ == now
            &&& a.added_by@ == "user"@
        },
    }
}

fn find_version(vs: &Vec<ArchiveVersion>, id: &str) -> (r: Option<usize>)
    ensures
        match version_position_from(version_views(vs@), id@, 0) {
            Some(k) => r matches Some(u) && u as int == k,
            None => r is None,
        },
        r matches Some(u) ==> u < vs@.len(),
{
    let ghost views = version_views(vs@);
    let mut i: usize = 0;
    while i < vs.len()
        invariant
            i <= vs@.len(),
            views == version_views(vs@),
            version_position_from(views, id@, 0) == version_position_from(views, id@, i as int),
        decreases vs@.len() - i,
    {
        if crate::apple::same_text(vs[i].version_id.as_str(), id) {
            return Some(i);
        }
        i = i + 1;
    }
    None
}

proof fn lemma_version_position(vs: Seq<ArchiveVersionView>, id: Seq<char>, i: int)
    requires
        0 <= i,
    ensures
        version_position_from(vs, id, i) matches Some(k) ==> i <= k < vs.len() && vs[k].version_id == id,
        version_position_from(vs, id, i) is None ==> forall|m: int| i <= m < vs.len() ==> vs[m].version_id != id,
    decreases vs.len() - i,
{
    if i < vs.len() && vs[i].version_id != id {
        lemma_version_position(vs, id, i + 1);
    }
}

fn merge_versions(versions: &mut Vec<ArchiveVersion>, reqs: &Vec<ArchiveVersion>)
    ensures
        version_views(final(versions)@) == versions_merged(version_views(old(versions)@), version_views(reqs@)),
{
    let ghost start = version_views(versions@);
    let mut i: usize = 0;
    assert(version_views(reqs@).subrange(0, 0) =~= Seq::<ArchiveVersionView>::empty());
    while i < reqs.len()
        invariant
            i <= reqs@.len(),
            version_views(versions@) == versions_merged(start, version_views(reqs@).subrange(0, i as int)),
        decreases reqs@.len() - i,
    {
        let ghost prefix = version_views(reqs@).subrange(0, i as int + 1);
        assert(prefix.drop_last() =~= version_views(reqs@).subrange(0, i as int));
        assert(prefix.last() == reqs@[i as int]@);
        let req = &reqs[i];
        if !is_blank(req.version_id.as_str()) {
            let ghost before = version_views(versions@);
            match find_version(versions, req.version_id.as_str()) {
                Some(k) => {
                    let cur = &versions[k];
                    let updated = ArchiveVersion {
                        version_id: cur.version_id.clone(),
                        version: if is_blank(req.version.as_str()) { cur.version.clone() } else { req.version.clone() },
                        description: copy_opt(&req.description),
                        released_at: fill(&req.released_at, &cur.released_at),
                        size_bytes: match req.size_bytes {
                            Some(n) => Some(n),
                            None => cur.size_bytes,
                        },
                    };
                    assert(updated@ == version_updated(before[k as int], req@));
                    versions.set(k, updated);
                    assert(version_views(versions@) =~= before.update(k as int, updated@));
                },
                None => {
                    versions.push(copy_version(req));
                    assert(version_views(versions@) =~= before.push(req@));
                },
            }
        }
        i = i + 1;
    }
    assert(version_views(reqs@).subrange(0, reqs@.len() as int) =~= version_views(reqs@));
}

/// Merging requested versions keeps the ids of the versions distinct.
pub proof fn lemma_merge_keeps_ids_distinct(vs: Seq<ArchiveVersionView>, reqs: Seq<ArchiveVersionView>)
    requires
        distinct_version_ids(vs),
    ensures
        distinct_version_ids(versions_merged(vs, reqs)),
    decreases reqs.len(),
{
    if reqs.len() > 0 {
        let prev = versions_merged(vs, reqs.drop_last());
        lemma_merge_keeps_ids_distinct(vs, reqs.drop_last());
        let v = reqs.last();
        let cur = versions_merged(vs, reqs);
        if trim_white(v.version_id).len() > 0 {
            lemma_version_position(prev, v.version_id, 0);
            match version_position_from(prev, v.version_id, 0) {
                Some(k) => {
                    assert forall|i: int, j: int| 0 <= i < j < cur.len() implies (#[trigger] cur[i]).version_id != (#[trigger] cur[j]).version_id by {
                        assert(cur[i].version_id == prev[i].version_id);
                        assert(cur[j].version_id == prev[j].version_id);
                    }
                },
                None => {
                    assert forall|i: int, j: int| 0 <= i < j < cur.len() implies (#[trigger] cur[i]).version_id != (#[trigger] cur[j]).version_id by {
                        if j == prev.len() {
                            assert(cur[i] == prev[i]);
                        } else {
                            assert(cur[i] == prev[i] && cur[j] == prev[j]);
                        }
                    }
                },
            }
        }
    }
}

/// The archive entry a request makes (see [`is_requested_entry`]); `existing` is the
/// stored entry for the app, if any, and `now` the time of the request.
pub fn requested_archive_entry(req: &AddArchiveRequest, existing: Option<&ArchiveApp>, now: String) -> (a: ArchiveApp)
    ensures
        is_requested_entry(
            a,
            *req,
            match existing {
                Some(e) => Some(*e),
                None => None,
            },
            now@,
        ),
{
    let mut app = match existing {
        Some(e) => ArchiveApp {
            id: req.app_id.clone(),
            name: req.app_name.clone(),
            icon_url: fill(&req.icon_url, &e.icon_url),
            icon_bak_url: copy_opt(&e.icon_bak_url),
            icon_base64: copy_opt(&e.icon_base64),
            icon_content_type: copy_opt(&e.icon_content_type),
            bundle_id: fill(&req.bundle_id, &e.bundle_id),
            artist_name: fill(&req.artist_name, &e.artist_name),
            versions: copy_versions(&e.versions),
            delisted: e.delisted,
            added_at: e.added_at.clone(),
            added_by: e.added_by.clone(),
        },
        None => {
            let none: Vec<ArchiveVersion> = Vec::new();
            assert(version_views(none@) =~= Seq::<ArchiveVersionView>::empty());
            ArchiveApp {
                id: req.app_id.clone(),
                name: req.app_name.clone(),
                icon_url: copy_opt(&req.icon_url),
                icon_bak_url: None,
                icon_base64: None,
                icon_content_type: None,
                bundle_id: copy_opt(&req.bundle_id),
                artist_name: copy_opt(&req.artist_name),
                versions: none,
                delisted: false,
                added_at: now,
                added_by: "user".to_owned(),
            }
        },
    };
    merge_versions(&mut app.versions, &req.versions);
    app
}

/// An archive entry without the versions of one id; nothing when no version is left (the
/// entry is then removed).
pub open spec fn spec_without_version(a: ArchiveApp, version_id: Seq<char>) -> Seq<ArchiveVersionView> {
    version_views(a.versions@).filter(|v: ArchiveVersionView| v.version_id != version_id)
}

/// An archive entry without the versions of one id (see [`spec_without_version`]); nothing
/// when none is left.
pub fn archive_without_version(app: ArchiveApp, version_id: &str) -> (r: Option<ArchiveApp>)
    ensures
        spec_without_version(app, version_id@).len() == 0 ==> r is None,
        spec_without_version(app, version_id@).len() > 0 ==> (r matches Some(a) && version_views(a.versions@)
            == spec_without_version(app, version_id@) && a.id == app.id && a.name == app.name
            && a.icon_url == app.icon_url && a.icon_bak_url == app.icon_bak_url && a.icon_base64 == app.icon_base64
            && a.icon_content_type == app.icon_content_type && a.bundle_id == app.bundle_id
            && a.artist_name == app.artist_name && a.delisted == app.delisted && a.added_at == app.added_at
            && a.added_by == app.added_by),
{
    let ghost all = version_views(app.versions@);
    let mut kept: Vec<ArchiveVersion> = Vec::new();
    let mut i: usize = 0;
    assert(all.subrange(0, 0) =~= Seq::<ArchiveVersionView>::empty());
    proof {
        reveal(Seq::filter);
    }
    assert(version_views(kept@) =~= all.subrange(0, 0).filter(|v: ArchiveVersionView| v.version_id != version_id@));
    while i < app.versions.len()
        invariant
            i <= app.versions@.len(),
            all == version_views(app.versions@),
            version_views(kept@) == all.subrange(0, i as int).filter(|v: ArchiveVersionView| v.version_id != version_id@),
        decreases app.versions@.len() - i,
    {
        proof {
            reveal(Seq::filter);
        }
        let ghost before = version_views(kept@);
        assert(all.subrange(0, i as int + 1).drop_last() =~= all.subrange(0, i as int));
        if !crate::apple::same_text(app.versions[i].version_id.as_str(), version_id) {
            kept.push(copy_version(&app.versions[i]));
            assert(version_views(kept@) =~= before.push(all[i as int]));
        }
        i = i + 1;
    }
    assert(all.subrange(0, app.versions@.len() as int) =~= all);
    if kept.len() == 0 {
        None
    } else {
        let mut app = app;
        app.versions = kept;
        Some(app)
    }
}

/// The community index of delisted apps as its JSON frames it, before its entries are read:
/// the entries, and the index's date, schema version, source and declared count.
pub struct LiteIndexFrame<'a> {
    pub entries: &'a Vec<JsonNode>,
    pub generated_at: Option<String>,
    pub schema_version: i32,
    pub source: Option<String>,
    pub declared_count: usize,
}

/// An integer member read as `as_i64` does, else the fallback.
pub open spec fn member_i64_or(v: JsonNode, key: Seq<char>, fallback: int) -> int {
    match json_get(v, key) {
        Some(JsonNode::Number(n)) => match number_as_i64(n) {
            Some(i) => i,
            None => fallback,
        },
        _ => fallback,
    }
}

fn member_i64(v: &JsonNode, key: &str, fallback: i64) -> (r: i64)
    ensures
        r as int == member_i64_or(*v, key@, fallback as int),
{
    match json_member(v, key) {
        Some(JsonNode::Number(n)) => match n.integer {
            Some(i) => if -9223372036854775808i128 <= i && i <= 9223372036854775807i128 {
                i as i64
            } else {
                fallback
            },
            None => fallback,
        },
        _ => fallback,
    }
}

/// How the index's JSON is framed: a bare array is the list of entries (schema 1, source
/// `flat-array`, no declared count); an object frames its `apps` array with its
/// `generated_at` and `source` texts, its integer `schema_version` (else 1) and `count`
/// (else 0), cut to their widths as `as` does; anything else frames nothing.
pub fn lite_index_frame(data: &JsonNode) -> (r: Option<LiteIndexFrame<'_>>)
    ensures
        match *data {
            JsonNode::Array(items) => r matches Some(f) && *f.entries == items && f.generated_at is None
                && f.schema_version == 1 && opt_text(f.source) == Some("flat-array"@) && f.declared_count == 0,
            JsonNode::Object(_) => match json_get(*data, "apps"@) {
                Some(JsonNode::Array(items)) => r matches Some(f) && *f.entries == items
                    && opt_text(f.generated_at) == json_text(json_get(*data, "generated_at"@))
                    && f.schema_version == member_i64_or(*data, "schema_version"@, 1) as i32
                    && opt_text(f.source) == json_text(json_get(*data, "source"@))
                    && f.declared_count == member_i64_or(*data, "count"@, 0) as usize,
                _ => r is None,
            },
            _ => r is None,
        },
{
    match data {
        JsonNode::Array(items) => Some(LiteIndexFrame {
            entries: items,
            generated_at: None,
            schema_version: 1,
            source: Some("flat-array".to_owned()),
            declared_count: 0,
        }),
        JsonNode::Object(_) => match json_member(data, "apps") {
            Some(JsonNode::Array(items)) => {
                let schema = member_i64(data, "schema_version", 1);
                let count = member_i64(data, "count", 0);
                Some(LiteIndexFrame {
                    entries: items,
                    generated_at: json_member_text(data, "generated_at"),
                    schema_version: schema as i32,
                    source: json_member_text(data, "source"),
                    declared_count: count as usize,
                })
            },
            _ => None,
        },
        _ => None,
    }
}

/// The count of the index: the number of entries read, or the declared count when larger.
pub fn lite_index_count(entries_read: usize, declared_count: usize) -> (r: usize)
    ensures
        r == if entries_read >= declared_count { entries_read } else { declared_count },
{
    if entries_read >= declared_count { entries_read } else { declared_count }
}

/// The value of an archive entry.
pub struct ArchiveAppView {
    pub id: Seq<char>,
    pub name: Seq<char>,
    pub icon_url: Option<Seq<char>>,
    pub icon_bak_url: Option<Seq<char>>,
    pub icon_base64: Option<Seq<char>>,
    pub icon_content_type: Option<Seq<char>>,
    pub bundle_id: Option<Seq<char>>,
    pub artist_name: Option<Seq<char>>,
    pub versions: Seq<ArchiveVersionView>,
    pub delisted: bool,
    pub added_at: Seq<char>,
    pub added_by: Seq<char>,
}

impl View for ArchiveApp {
    type V = ArchiveAppView;

    open spec fn view(&self) -> ArchiveAppView {
        ArchiveAppView {
            id: self.id@,
            name: self.name@,
            icon_url: opt_text(self.icon_url),
            icon_bak_url: opt_text(self.icon_bak_url),
            icon_base64: opt_text(self.icon_base64),
            icon_content_type: opt_text(self.icon_content_type),
            bundle_id: opt_text(self.bundle_id),
            artist_name: opt_text(self.artist_name),
            versions: version_views(self.versions@),
            delisted: self.delisted,
            added_at: self.added_at@,
            added_by: self.added_by@,
        }
    }
}

/// The values of a list of archive entries.
pub open spec fn archive_views(apps: Seq<ArchiveApp>) -> Seq<ArchiveAppView> {
    Seq::new(apps.len(), |i: int| apps[i]@)
}

/// Whether the entries run from the latest addition to the earliest (dates as texts).
pub open spec fn latest_added_first(apps: Seq<ArchiveAppView>) -> bool {
    forall|i: int, j: int| 0 <= i < j < apps.len() ==> !text_less(#[trigger] apps[i].added_at, #[trigger] apps[j].added_at)
}

fn copy_archive_app(a: &ArchiveApp) -> (r: ArchiveApp)
    ensures
        r@ == a@,
{
    ArchiveApp {
        id: a.id.clone(),
        name: a.name.clone(),
        icon_url: copy_opt(&a.icon_url),
        icon_bak_url: copy_opt(&a.icon_bak_url),
        icon_base64: copy_opt(&a.icon_base64),
        icon_content_type: copy_opt(&a.icon_content_type),
        bundle_id: copy_opt(&a.bundle_id),
        artist_name: copy_opt(&a.artist_name),
        versions: copy_versions(&a.versions),
        delisted: a.delisted,
        added_at: a.added_at.clone(),
        added_by: a.added_by.clone(),
    }
}

fn insert_latest_added(out: &mut Vec<ArchiveApp>, a: ArchiveApp)
    requires
        latest_added_first(archive_views(old(out)@)),
    ensures
        latest_added_first(archive_views(final(out)@)),
        archive_views(final(out)@).to_multiset() == archive_views(old(out)@).to_multiset().insert(a@),
{
    let ghost before = archive_views(out@);
    let ghost x = a@;
    let mut p: usize = 0;
    while p < out.len() && !crate::text::less_text(&out[p].added_at, &a.added_at)
        invariant
            p <= out@.len(),
            before == archive_views(out@),
            x == a@,
            forall|q: int| 0 <= q < p ==> !text_less(#[trigger] before[q].added_at, x.added_at),
        decreases out@.len() - p,
    {
        p = p + 1;
    }
    out.insert(p, a);
    let ghost after = archive_views(out@);
    assert(after =~= before.insert(p as int, x));
    proof {
        vstd::seq_lib::to_multiset_insert(before, p as int, x);
        assert forall|i: int, j: int| 0 <= i < j < after.len() implies !text_less(
            #[trigger] after[i].added_at,
            #[trigger] after[j].added_at,
        ) by {
            if j < p {
                assert(after[i] == before[i] && after[j] == before[j]);
            } else if j == p {
                assert(after[i] == before[i]);
            } else if i == p {
                assert(after[j] == before[j - 1]);
                let d = before[p as int].added_at;
                if j - 1 > p {
                    assert(!text_less(d, before[j - 1].added_at));
                }
                crate::text::lemma_text_less_asymmetric(before[j - 1].added_at, x.added_at);
                crate::text::lemma_text_less_total(d, before[j - 1].added_at);
                crate::text::lemma_text_less_asymmetric(x.added_at, before[j - 1].added_at);
                if text_less(before[j - 1].added_at, d) {
                    crate::text::lemma_text_less_transitive(before[j - 1].added_at, d, x.added_at);
                }
            } else if i < p {
                assert(after[i] == before[i] && after[j] == before[j - 1]);
            } else {
                assert(after[i] == before[i - 1] && after[j] == before[j - 1]);
            }
        }
    }
}

/// The archive entries from the latest addition to the earliest (see
/// [`latest_added_first`]); the same entries, in another order.
pub fn sort_archive_apps(apps: &Vec<ArchiveApp>) -> (r: Vec<ArchiveApp>)
    ensures
        latest_added_first(archive_views(r@)),
        archive_views(r@).to_multiset() == archive_views(apps@).to_multiset(),
{
    let ghost all = archive_views(apps@);
    let mut out: Vec<ArchiveApp> = Vec::new();
    let mut i: usize = 0;
    assert(archive_views(out@) =~= Seq::<ArchiveAppView>::empty());
    assert(all.subrange(0, 0) =~= Seq::<ArchiveAppView>::empty());
    while i < apps.len()
        invariant
            i <= apps@.len(),
            all == archive_views(apps@),
            latest_added_first(archive_views(out@)),
            archive_views(out@).to_multiset() == all.subrange(0, i as int).to_multiset(),
        decreases apps@.len() - i,
    {
        let a = copy_archive_app(&apps[i]);
        let ghost x = a@;
        insert_latest_added(&mut out, a);
        proof {
            assert(all.subrange(0, i as int + 1) =~= all.subrange(0, i as int).push(x));
            vstd::seq_lib::to_multiset_build(all.subrange(0, i as int), x);
        }
        i = i + 1;
    }
    assert(all.subrange(0, apps@.len() as int) =~= all);
    out
}

} // verus!
