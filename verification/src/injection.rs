//! Planning which `.sinf` entries of an IPA receive which signature.
use vstd::prelude::*;
use crate::text::{chars_of, push_chars, push_str, string_from_chars, decimal, spec_decimal};

verus! {

/// One signature as Apple's download response returns it: an id and the
/// base64 text of the `.sinf` bytes.
#[derive(Debug, Clone)]
pub struct Sinf {
    pub id: String,
    pub sinf: String,
}

/// The `.sinf` targets that `SC_Info/Manifest.plist` declares.
#[derive(Debug, Clone)]
pub struct ManifestTargets {
    pub sinf_paths: Vec<String>,
    pub sinf_replication_paths: Vec<String>,
}

/// One planned write: the bundle-relative path and the index of the signature written there.
#[derive(Debug, Clone)]
pub struct SignatureReplacement {
    pub path: String,
    pub signature_index: usize,
}

/// The outcome of planning an injection: the paths written, the writes, and a warning
/// when nothing (or, for the fallback, something special) happens.
#[derive(Debug, Clone)]
pub struct SignatureApplyResult {
    pub applied_paths: Vec<String>,
    pub replacements: Vec<SignatureReplacement>,
    pub warning: Option<String>,
}

/// A plan as mathematical values: applied paths, (path, signature index) writes, warning.
pub type PlanView = (Seq<Seq<char>>, Seq<(Seq<char>, int)>, Option<Seq<char>>);

/// The mathematical value of a planning result.
pub open spec fn plan_view(r: SignatureApplyResult) -> PlanView {
    (
        r.applied_paths.deep_view(),
        Seq::new(r.replacements@.len(), |i: int| (r.replacements@[i].path@, r.replacements@[i].signature_index as int)),
        match r.warning {
            Some(w) => Some(w@),
            None => None,
        },
    )
}

/// The sequence with later repetitions removed; first occurrences keep their order.
pub open spec fn spec_dedup(s: Seq<Seq<char>>) -> Seq<Seq<char>>
    decreases s.len(),
{
    if s.len() == 0 {
        Seq::empty()
    } else {
        let d = spec_dedup(s.drop_last());
        if d.contains(s.last()) {
            d
        } else {
            d.push(s.last())
        }
    }
}

/// The elements of `s` that do not occur in `excluded`, in order.
pub open spec fn spec_without(s: Seq<Seq<char>>, excluded: Seq<Seq<char>>) -> Seq<Seq<char>>
    decreases s.len(),
{
    if s.len() == 0 {
        Seq::empty()
    } else {
        let d = spec_without(s.drop_last(), excluded);
        if excluded.contains(s.last()) {
            d
        } else {
            d.push(s.last())
        }
    }
}

/// The part of a path after its last `/` (the whole path when it has none).
pub open spec fn spec_after_last_slash(p: Seq<char>) -> Seq<char>
    decreases p.len(),
{
    if p.len() == 0 {
        p
    } else if p.last() == '/' {
        Seq::empty()
    } else {
        spec_after_last_slash(p.drop_last()).push(p.last())
    }
}

/// The text with every trailing `.sinf` removed (repeatedly).
pub open spec fn spec_trim_sinf(s: Seq<char>) -> Seq<char>
    decreases s.len(),
{
    if s.len() >= 5 && s.subrange(s.len() - 5, s.len() as int) == seq!['.', 's', 'i', 'n', 'f'] {
        spec_trim_sinf(s.subrange(0, s.len() - 5))
    } else {
        s
    }
}

/// The basename of a `.sinf` path: its last segment without the `.sinf` suffix.
pub open spec fn spec_sinf_basename(p: Seq<char>) -> Seq<char> {
    spec_trim_sinf(spec_after_last_slash(p))
}

/// The first position at or after `i` where `x` occurs in `s`.
pub open spec fn spec_position_from(s: Seq<Seq<char>>, x: Seq<char>, i: int) -> Option<int>
    decreases s.len() - i,
{
    if i < 0 || i >= s.len() {
        None
    } else if s[i] == x {
        Some(i)
    } else {
        spec_position_from(s, x, i + 1)
    }
}

/// Whether `x` occurs in `v` (by content).
pub fn contains_string(v: &Vec<String>, x: &String) -> (r: bool)
    ensures
        r == v.deep_view().contains(x@),
{
    let mut i: usize = 0;
    while i < v.len()
        invariant
            i <= v@.len(),
            forall|k: int| 0 <= k < i ==> v.deep_view()[k] != x@,
        decreases v@.len() - i,
    {
        if v[i] == *x {
            assert(v.deep_view()[i as int] == x@);
            return true;
        }
        i = i + 1;
    }
    false
}

proof fn lemma_dedup_step(s: Seq<Seq<char>>, i: int)
    requires
        0 <= i < s.len(),
    ensures
        spec_dedup(s.subrange(0, i + 1)) == (if spec_dedup(s.subrange(0, i)).contains(s[i]) {
            spec_dedup(s.subrange(0, i))
        } else {
            spec_dedup(s.subrange(0, i)).push(s[i])
        }),
{
    assert(s.subrange(0, i + 1).drop_last() == s.subrange(0, i));
}

proof fn lemma_without_step(s: Seq<Seq<char>>, e: Seq<Seq<char>>, i: int)
    requires
        0 <= i < s.len(),
    ensures
        spec_without(s.subrange(0, i + 1), e) == (if e.contains(s[i]) {
            spec_without(s.subrange(0, i), e)
        } else {
            spec_without(s.subrange(0, i), e).push(s[i])
        }),
{
    assert(s.subrange(0, i + 1).drop_last() == s.subrange(0, i));
}

/// The paths with later repetitions removed; first occurrences keep their order.
pub fn ordered_unique_paths(paths: Vec<String>) -> (r: Vec<String>)
    ensures
        r.deep_view() == spec_dedup(paths.deep_view()),
{
    let mut ordered: Vec<String> = Vec::new();
    let mut i: usize = 0;
    while i < paths.len()
        invariant
            i <= paths@.len(),
            ordered.deep_view() == spec_dedup(paths.deep_view().subrange(0, i as int)),
        decreases paths@.len() - i,
    {
        proof {
            lemma_dedup_step(paths.deep_view(), i as int);
        }
        if !contains_string(&ordered, &paths[i]) {
            let p = paths[i].clone();
            ordered.push(p);
            assert(ordered.deep_view() =~= spec_dedup(paths.deep_view().subrange(0, i as int)).push(paths.deep_view()[i as int]));
        }
        i = i + 1;
    }
    assert(paths.deep_view().subrange(0, paths@.len() as int) == paths.deep_view());
    ordered
}

/// The paths of `paths` that do not occur in `excluded`, in order.
pub fn paths_without(paths: &Vec<String>, excluded: &Vec<String>) -> (r: Vec<String>)
    ensures
        r.deep_view() == spec_without(paths.deep_view(), excluded.deep_view()),
{
    let mut kept: Vec<String> = Vec::new();
    let mut i: usize = 0;
    while i < paths.len()
        invariant
            i <= paths@.len(),
            kept.deep_view() == spec_without(paths.deep_view().subrange(0, i as int), excluded.deep_view()),
        decreases paths@.len() - i,
    {
        proof {
            lemma_without_step(paths.deep_view(), excluded.deep_view(), i as int);
        }
        if !contains_string(excluded, &paths[i]) {
            let p = paths[i].clone();
            kept.push(p);
            assert(kept.deep_view() =~= spec_without(paths.deep_view().subrange(0, i as int), excluded.deep_view()).push(paths.deep_view()[i as int]));
        }
        i = i + 1;
    }
    assert(paths.deep_view().subrange(0, paths@.len() as int) == paths.deep_view());
    kept
}

/// The concatenation of two path lists.
pub fn concat_paths(a: &Vec<String>, b: &Vec<String>) -> (r: Vec<String>)
    ensures
        r.deep_view() == a.deep_view() + b.deep_view(),
{
    let mut out: Vec<String> = Vec::new();
    let mut i: usize = 0;
    while i < a.len()
        invariant
            i <= a@.len(),
            out.deep_view() == a.deep_view().subrange(0, i as int),
        decreases a@.len() - i,
    {
        let ghost before = out.deep_view();
        out.push(a[i].clone());
        assert(out.deep_view() =~= before.push(a.deep_view()[i as int]));
        i = i + 1;
        assert(out.deep_view() =~= a.deep_view().subrange(0, i as int));
    }
    let mut j: usize = 0;
    while j < b.len()
        invariant
            j <= b@.len(),
            out.deep_view() == a.deep_view() + b.deep_view().subrange(0, j as int),
        decreases b@.len() - j,
    {
        let ghost before = out.deep_view();
        out.push(b[j].clone());
        assert(out.deep_view() =~= before.push(b.deep_view()[j as int]));
        j = j + 1;
        assert(out.deep_view() =~= a.deep_view() + b.deep_view().subrange(0, j as int));
    }
    assert(b.deep_view().subrange(0, b@.len() as int) == b.deep_view());
    out
}

fn after_last_slash(p: &[char]) -> (r: Vec<char>)
    ensures
        r@ == spec_after_last_slash(p@),
{
    let mut start: usize = p.len();
    assert(p@.subrange(0, p@.len() as int) =~= p@);
    assert(p@.subrange(p@.len() as int, p@.len() as int) =~= Seq::<char>::empty());
    while start > 0 && p[start - 1] != '/'
        invariant
            start <= p@.len(),
            spec_after_last_slash(p@) == spec_after_last_slash(p@.subrange(0, start as int)) + p@.subrange(start as int, p@.len() as int),
        decreases start,
    {
        let ghost q = p@.subrange(0, start as int);
        assert(q.drop_last() == p@.subrange(0, start - 1));
        assert(p@.subrange(start - 1, p@.len() as int) == seq![q.last()] + p@.subrange(start as int, p@.len() as int));
        start = start - 1;
    }
    if start > 0 {
        let ghost q = p@.subrange(0, start as int);
        assert(q.last() == '/');
    } else {
        assert(p@.subrange(0, 0).len() == 0);
    }
    let mut out: Vec<char> = Vec::new();
    let mut i = start;
    while i < p.len()
        invariant
            start <= i <= p@.len(),
            out@ == p@.subrange(start as int, i as int),
        decreases p@.len() - i,
    {
        out.push(p[i]);
        i = i + 1;
        assert(out@ =~= p@.subrange(start as int, i as int));
    }
    assert(spec_after_last_slash(p@.subrange(0, start as int)).len() == 0);
    assert(out@ =~= spec_after_last_slash(p@));
    out
}

fn trim_sinf(s: &[char]) -> (r: Vec<char>)
    ensures
        r@ == spec_trim_sinf(s@),
{
    let mut end: usize = s.len();
    assert(s@.subrange(0, s@.len() as int) =~= s@);
    while end >= 5 && s[end - 5] == '.' && s[end - 4] == 's' && s[end - 3] == 'i' && s[end - 2] == 'n' && s[end - 1] == 'f'
        invariant
            end <= s@.len(),
            spec_trim_sinf(s@) == spec_trim_sinf(s@.subrange(0, end as int)),
        decreases end,
    {
        let ghost q = s@.subrange(0, end as int);
        assert(q.subrange(q.len() - 5, q.len() as int) =~= seq!['.', 's', 'i', 'n', 'f']);
        assert(q.subrange(0, q.len() - 5) == s@.subrange(0, end - 5));
        end = end - 5;
    }
    let ghost q = s@.subrange(0, end as int);
    if end >= 5 {
        assert(q.subrange(q.len() - 5, q.len() as int) != seq!['.', 's', 'i', 'n', 'f']) by {
            if q.subrange(q.len() - 5, q.len() as int) == seq!['.', 's', 'i', 'n', 'f'] {
                assert(q.subrange(q.len() - 5, q.len() as int)[0] == s@[end - 5]);
                assert(q.subrange(q.len() - 5, q.len() as int)[1] == s@[end - 4]);
                assert(q.subrange(q.len() - 5, q.len() as int)[2] == s@[end - 3]);
                assert(q.subrange(q.len() - 5, q.len() as int)[3] == s@[end - 2]);
                assert(q.subrange(q.len() - 5, q.len() as int)[4] == s@[end - 1]);
            }
        }
    }
    let mut out: Vec<char> = Vec::new();
    let mut i: usize = 0;
    while i < end
        invariant
            i <= end <= s@.len(),
            out@ == s@.subrange(0, i as int),
        decreases end - i,
    {
        out.push(s[i]);
        i = i + 1;
        assert(out@ =~= s@.subrange(0, i as int));
    }
    out
}

/// The basename of a `.sinf` path (see [`spec_sinf_basename`]); always present.
pub fn sinf_basename(path: &str) -> (r: Option<String>)
    ensures
        r matches Some(b) && b@ == spec_sinf_basename(path@),
{
    let cs = chars_of(path);
    let last = after_last_slash(cs.as_slice());
    let trimmed = trim_sinf(last.as_slice());
    Some(string_from_chars(trimmed.as_slice()))
}

/// Text made of `a`, then `mid`, then `b`.
pub fn join3(a: &str, mid: &[char], b: &str) -> (r: String)
    ensures
        r@ == a@ + mid@ + b@,
{
    let mut buf: Vec<char> = Vec::new();
    push_str(&mut buf, a);
    push_chars(&mut buf, mid);
    push_str(&mut buf, b);
    string_from_chars(buf.as_slice())
}

/// Warning: the manifest declares no `.sinf` target.
pub open spec fn warn_no_targets() -> Seq<char> {
    "包内未声明需要补齐的 .sinf 目标"@
}

/// Warning: `count` targets are declared but Apple returned no signature.
pub open spec fn warn_no_signatures(count: nat) -> Seq<char> {
    "包内声明了 "@ + spec_decimal(count) + " 个 .sinf 目标，但 Apple 下载响应未返回任何真实 sinf"@
}

/// Warning: a primary path has no basename (never produced, every path has one).
pub open spec fn warn_primary_without_basename() -> Seq<char> {
    "存在无法解析 basename 的主 .sinf 路径，跳过注入"@
}

/// Warning: two primary paths share a basename.
pub open spec fn warn_duplicate_basename() -> Seq<char> {
    "主 SinfPaths 出现重复 basename，无法安全映射 replication 目标"@
}

/// Warning: a replication path has no basename (never produced).
pub open spec fn warn_replication_without_basename(path: Seq<char>) -> Seq<char> {
    "replication 目标 "@ + path + " 无法解析 basename，跳过注入"@
}

/// Warning: a replication path matches no primary basename.
pub open spec fn warn_unmatched_replication(path: Seq<char>) -> Seq<char> {
    "replication 目标 "@ + path + " 找不到同 basename 的主 SinfPath，跳过注入"@
}

/// Warning: the signature count fits neither one nor every target.
pub open spec fn warn_count_mismatch(signatures: nat, targets: nat) -> Seq<char> {
    "Apple 返回 sinf 数量 ("@ + spec_decimal(signatures) + ") 与包内声明目标数量 ("@ + spec_decimal(targets)
        + ") 不匹配，跳过注入"@
}

/// The primary targets: the declared `SinfPaths` without repetitions.
pub open spec fn spec_primary_paths(sinf_paths: Seq<Seq<char>>) -> Seq<Seq<char>> {
    spec_dedup(sinf_paths)
}

/// The replication targets: the declared replication paths that are not primary, without repetitions.
pub open spec fn spec_replication_paths(sinf_paths: Seq<Seq<char>>, replication: Seq<Seq<char>>) -> Seq<Seq<char>> {
    spec_dedup(spec_without(replication, spec_dedup(sinf_paths)))
}

/// The basenames of the primary targets, in order.
pub open spec fn spec_bases(primary: Seq<Seq<char>>) -> Seq<Seq<char>> {
    Seq::new(primary.len(), |i: int| spec_sinf_basename(primary[i]))
}

/// The first replication path at or after `i` whose basename no primary target has.
pub open spec fn spec_first_unmatched_from(rep: Seq<Seq<char>>, bases: Seq<Seq<char>>, i: int) -> Option<Seq<char>>
    decreases rep.len() - i,
{
    if i < 0 || i >= rep.len() {
        None
    } else if spec_position_from(bases, spec_sinf_basename(rep[i]), 0) is None {
        Some(rep[i])
    } else {
        spec_first_unmatched_from(rep, bases, i + 1)
    }
}

/// A plan that writes nothing and carries a warning.
pub open spec fn skipped(w: Seq<char>) -> PlanView {
    (Seq::empty(), Seq::empty(), Some(w))
}

/// The plan when there are as many signatures as primary targets and some replication
/// targets: the i-th signature goes to the i-th primary target, and each replication
/// target takes the signature of the primary target with the same basename.  Skipped
/// when two primary targets share a basename, or when a replication target matches none
/// (the first such target is named).
pub open spec fn spec_replication_plan(primary: Seq<Seq<char>>, replication: Seq<Seq<char>>) -> PlanView {
    let bases = spec_bases(primary);
    if !bases.no_duplicates() {
        skipped(warn_duplicate_basename())
    } else {
        match spec_first_unmatched_from(replication, bases, 0) {
            Some(p) => skipped(warn_unmatched_replication(p)),
            None => (
                primary + replication,
                Seq::new(primary.len(), |i: int| (primary[i], i)) + Seq::new(
                    replication.len(),
                    |i: int| (replication[i], spec_position_from(bases, spec_sinf_basename(replication[i]), 0)->0),
                ),
                None,
            ),
        }
    }
}

/// The plan for `n` signatures and the declared targets:
/// * no target: skipped with [`warn_no_targets`];
/// * no signature: skipped with [`warn_no_signatures`];
/// * one signature: it goes to every target;
/// * as many signatures as targets: the i-th goes to the i-th target;
/// * as many signatures as primary targets, with replication targets:
///   [`spec_replication_plan`];
/// * otherwise skipped with [`warn_count_mismatch`].
pub open spec fn spec_injection_plan(n: nat, sinf_paths: Seq<Seq<char>>, replication_paths: Seq<Seq<char>>) -> PlanView {
    let primary = spec_primary_paths(sinf_paths);
    let replication = spec_replication_paths(sinf_paths, replication_paths);
    let targets = spec_dedup(primary + replication);
    if targets.len() == 0 {
        skipped(warn_no_targets())
    } else if n == 0 {
        skipped(warn_no_signatures(targets.len()))
    } else if n == 1 {
        (targets, Seq::new(targets.len(), |i: int| (targets[i], 0int)), None)
    } else if n == targets.len() {
        (targets, Seq::new(targets.len(), |i: int| (targets[i], i)), None)
    } else if n == primary.len() && replication.len() > 0 {
        spec_replication_plan(primary, replication)
    } else {
        skipped(warn_count_mismatch(n, targets.len()))
    }
}

pub(crate) fn skipped_result(w: String) -> (r: SignatureApplyResult)
    ensures
        plan_view(r) == skipped(w@),
{
    let r = SignatureApplyResult { applied_paths: Vec::new(), replacements: Vec::new(), warning: Some(w) };
    assert(plan_view(r).0 =~= Seq::<Seq<char>>::empty());
    assert(plan_view(r).1 =~= Seq::<(Seq<char>, int)>::empty());
    r
}

/// The first position of `x` in `v` (by content).
fn position_of(v: &Vec<String>, x: &String) -> (r: Option<usize>)
    ensures
        match spec_position_from(v.deep_view(), x@, 0) {
            None => r is None,
            Some(k) => r matches Some(u) && u as int == k,
        },
{
    let mut i: usize = 0;
    while i < v.len()
        invariant
            i <= v@.len(),
            spec_position_from(v.deep_view(), x@, 0) == spec_position_from(v.deep_view(), x@, i as int),
        decreases v@.len() - i,
    {
        if v[i] == *x {
            return Some(i);
        }
        i = i + 1;
    }
    None
}

/// Writes to every path of `paths`, all with signature 0 (`same`), or the i-th
/// path with signature `i` (otherwise).
fn uniform_or_indexed(paths: &Vec<String>, same: bool) -> (r: Vec<SignatureReplacement>)
    ensures
        r@.len() == paths@.len(),
        forall|i: int| 0 <= i < paths@.len() ==> #[trigger] r@[i].path@ == paths.deep_view()[i]
            && r@[i].signature_index == (if same { 0 } else { i }),
{
    let mut out: Vec<SignatureReplacement> = Vec::new();
    let mut i: usize = 0;
    while i < paths.len()
        invariant
            i <= paths@.len(),
            out@.len() == i,
            forall|k: int| 0 <= k < i ==> #[trigger] out@[k].path@ == paths.deep_view()[k]
                && out@[k].signature_index == (if same { 0 } else { k }),
        decreases paths@.len() - i,
    {
        out.push(SignatureReplacement { path: paths[i].clone(), signature_index: if same { 0 } else { i } });
        i = i + 1;
    }
    out
}

/// The plan that writes the i-th primary path with signature `i`, then the j-th
/// replication path with signature `indices[j]`.
fn assemble_plan(primary: &Vec<String>, replication: &Vec<String>, indices: &Vec<usize>) -> (r: SignatureApplyResult)
    requires
        indices@.len() == replication@.len(),
    ensures
        plan_view(r) == (
            primary.deep_view() + replication.deep_view(),
            Seq::new(primary@.len(), |i: int| (primary.deep_view()[i], i)) + Seq::new(
                replication@.len(),
                |i: int| (replication.deep_view()[i], indices@[i] as int),
            ),
            None::<Seq<char>>,
        ),
{
    let mut applied: Vec<String> = Vec::new();
    let mut writes: Vec<SignatureReplacement> = Vec::new();
    let mut i: usize = 0;
    while i < primary.len()
        invariant
            i <= primary@.len(),
            applied.deep_view() == primary.deep_view().subrange(0, i as int),
            writes@.len() == i,
            forall|k: int| 0 <= k < i ==> #[trigger] writes@[k].path@ == primary.deep_view()[k]
                && writes@[k].signature_index == k,
        decreases primary@.len() - i,
    {
        let ghost before = applied.deep_view();
        applied.push(primary[i].clone());
        assert(applied.deep_view() =~= before.push(primary.deep_view()[i as int]));
        writes.push(SignatureReplacement { path: primary[i].clone(), signature_index: i });
        i = i + 1;
        assert(applied.deep_view() =~= primary.deep_view().subrange(0, i as int));
    }
    let p = primary.len();
    assert(primary.deep_view().subrange(0, p as int) =~= primary.deep_view());
    let mut j: usize = 0;
    while j < replication.len()
        invariant
            j <= replication@.len(),
            p == primary@.len(),
            indices@.len() == replication@.len(),
            applied.deep_view() == primary.deep_view() + replication.deep_view().subrange(0, j as int),
            writes@.len() == p + j,
            forall|k: int| 0 <= k < p ==> #[trigger] writes@[k].path@ == primary.deep_view()[k]
                && writes@[k].signature_index == k,
            forall|k: int| p <= k < p + j ==> #[trigger] writes@[k].path@ == replication.deep_view()[k - p]
                && writes@[k].signature_index == indices@[k - p],
        decreases replication@.len() - j,
    {
        let ghost before = applied.deep_view();
        applied.push(replication[j].clone());
        assert(applied.deep_view() =~= before.push(replication.deep_view()[j as int]));
        writes.push(SignatureReplacement { path: replication[j].clone(), signature_index: indices[j] });
        j = j + 1;
        assert(applied.deep_view() =~= primary.deep_view() + replication.deep_view().subrange(0, j as int));
    }
    assert(replication.deep_view().subrange(0, replication@.len() as int) =~= replication.deep_view());
    let r = SignatureApplyResult { applied_paths: applied, replacements: writes, warning: None };
    let ghost expected = Seq::new(primary@.len(), |i: int| (primary.deep_view()[i], i)) + Seq::new(
        replication@.len(),
        |i: int| (replication.deep_view()[i], indices@[i] as int),
    );
    assert forall|k: int| 0 <= k < expected.len() implies #[trigger] plan_view(r).1[k] == expected[k] by {
        if k < p {
            assert(writes@[k].path@ == primary.deep_view()[k]);
        } else {
            assert(writes@[k].path@ == replication.deep_view()[k - p]);
        }
    }
    assert(plan_view(r).1 =~= expected);
    r
}

/// The replication branch of the plan (see [`spec_replication_plan`]).
fn plan_with_replication(primary: &Vec<String>, replication: &Vec<String>) -> (r: SignatureApplyResult)
    ensures
        plan_view(r) == spec_replication_plan(primary.deep_view(), replication.deep_view()),
{
    let ghost bases_spec = spec_bases(primary.deep_view());
    let mut bases: Vec<String> = Vec::new();
    let mut i: usize = 0;
    while i < primary.len()
        invariant
            i <= primary@.len(),
            bases_spec == spec_bases(primary.deep_view()),
            bases.deep_view() == bases_spec.subrange(0, i as int),
            bases.deep_view().no_duplicates(),
        decreases primary@.len() - i,
    {
        let base = match sinf_basename(primary[i].as_str()) {
            Some(b) => b,
            None => {
                return skipped_result(string_from_chars(chars_of("存在无法解析 basename 的主 .sinf 路径，跳过注入").as_slice()));
            },
        };
        assert(base@ == bases_spec[i as int]);
        if contains_string(&bases, &base) {
            proof {
                let k = choose|k: int| 0 <= k < bases.deep_view().len() && bases.deep_view()[k] == base@;
                assert(bases.deep_view()[k] == bases_spec[k]);
                assert(bases_spec[k] == bases_spec[i as int]);
                assert(k != i);
                assert(!bases_spec.no_duplicates());
            }
            return skipped_result(string_from_chars(chars_of("主 SinfPaths 出现重复 basename，无法安全映射 replication 目标").as_slice()));
        }
        let ghost before = bases.deep_view();
        bases.push(base);
        assert(bases.deep_view() =~= before.push(bases_spec[i as int]));
        i = i + 1;
        assert(bases.deep_view() =~= bases_spec.subrange(0, i as int));
    }
    assert(bases.deep_view() =~= bases_spec);
    let ghost rep = replication.deep_view();
    let mut indices: Vec<usize> = Vec::new();
    let mut j: usize = 0;
    while j < replication.len()
        invariant
            j <= rep.len(),
            rep == replication.deep_view(),
            bases.deep_view() == bases_spec,
            bases_spec == spec_bases(primary.deep_view()),
            bases_spec.no_duplicates(),
            spec_first_unmatched_from(rep, bases_spec, 0) == spec_first_unmatched_from(rep, bases_spec, j as int),
            indices@.len() == j,
            forall|k: int| 0 <= k < j ==> spec_position_from(bases_spec, spec_sinf_basename(rep[k]), 0)
                == Some(#[trigger] indices@[k] as int),
        decreases rep.len() - j,
    {
        let path = &replication[j];
        let base = match sinf_basename(path.as_str()) {
            Some(b) => b,
            None => {
                let pc = chars_of(path.as_str());
                return skipped_result(join3("replication 目标 ", pc.as_slice(), " 无法解析 basename，跳过注入"));
            },
        };
        let signature_index = match position_of(&bases, &base) {
            Some(k) => k,
            None => {
                let pc = chars_of(path.as_str());
                return skipped_result(join3("replication 目标 ", pc.as_slice(), " 找不到同 basename 的主 SinfPath，跳过注入"));
            },
        };
        assert(base@ == spec_sinf_basename(rep[j as int]));
        let ghost before = indices@;
        indices.push(signature_index);
        assert(indices@ == before.push(signature_index));
        assert(spec_first_unmatched_from(rep, bases_spec, j as int) == spec_first_unmatched_from(rep, bases_spec, j + 1));
        j = j + 1;
    }
    let r = assemble_plan(primary, replication, &indices);
    let ghost expected = spec_replication_plan(primary.deep_view(), replication.deep_view());
    assert(plan_view(r).1 =~= expected.1);
    r
}

proof fn lemma_position_in_range(s: Seq<Seq<char>>, x: Seq<char>, i: int)
    ensures
        spec_position_from(s, x, i) matches Some(k) ==> i <= k < s.len() && s[k] == x,
    decreases s.len() - i,
{
    if 0 <= i < s.len() && s[i] != x {
        lemma_position_in_range(s, x, i + 1);
    }
}

proof fn lemma_all_matched(rep: Seq<Seq<char>>, bases: Seq<Seq<char>>, i: int, j: int)
    requires
        spec_first_unmatched_from(rep, bases, i) is None,
        0 <= i <= j < rep.len(),
    ensures
        spec_position_from(bases, spec_sinf_basename(rep[j]), 0) is Some,
    decreases j - i,
{
    if i < j {
        lemma_all_matched(rep, bases, i + 1, j);
    }
}

/// Every write of a plan names one of the `n` signatures, and the applied paths are
/// the paths of the writes, in order.
pub proof fn lemma_plan_writes_valid(n: nat, sinf_paths: Seq<Seq<char>>, replication_paths: Seq<Seq<char>>)
    ensures
        ({
            let plan = spec_injection_plan(n, sinf_paths, replication_paths);
            &&& forall|i: int| 0 <= i < plan.1.len() ==> 0 <= (#[trigger] plan.1[i]).1 < n
            &&& plan.0.len() == plan.1.len()
            &&& forall|i: int| 0 <= i < plan.1.len() ==> (#[trigger] plan.1[i]).0 == plan.0[i]
        }),
{
    let plan = spec_injection_plan(n, sinf_paths, replication_paths);
    let primary = spec_primary_paths(sinf_paths);
    let replication = spec_replication_paths(sinf_paths, replication_paths);
    let targets = spec_dedup(primary + replication);
    if targets.len() != 0 && n != 0 && n != 1 && n != targets.len() && n == primary.len() && replication.len() > 0 {
        let bases = spec_bases(primary);
        if bases.no_duplicates() && spec_first_unmatched_from(replication, bases, 0) is None {
            assert forall|i: int| 0 <= i < plan.1.len() implies 0 <= (#[trigger] plan.1[i]).1 < n by {
                if i >= primary.len() {
                    let j = i - primary.len();
                    lemma_all_matched(replication, bases, 0, j);
                    lemma_position_in_range(bases, spec_sinf_basename(replication[j]), 0);
                }
            }
        }
    }
}

/// An element is in a sequence with one more element pushed exactly when it is that
/// element or already in the sequence.
pub(crate) proof fn lemma_push_contains(s: Seq<Seq<char>>, v: Seq<char>)
    ensures
        forall|x: Seq<char>| #[trigger] s.push(v).contains(x) <==> (s.contains(x) || x == v),
{
    assert forall|x: Seq<char>| #[trigger] s.push(v).contains(x) <==> (s.contains(x) || x == v) by {
        if s.push(v).contains(x) {
            let k = choose|k: int| 0 <= k < s.len() + 1 && s.push(v)[k] == x;
            if k < s.len() {
                assert(s[k] == x);
            }
        }
        if s.contains(x) {
            let k = choose|k: int| 0 <= k < s.len() && s[k] == x;
            assert(s.push(v)[k] == x);
        }
        if x == v {
            assert(s.push(v)[s.len() as int] == x);
        }
    }
}

proof fn lemma_dedup_members(s: Seq<Seq<char>>)
    ensures
        spec_dedup(s).no_duplicates(),
        forall|x: Seq<char>| #[trigger] spec_dedup(s).contains(x) <==> s.contains(x),
    decreases s.len(),
{
    if s.len() > 0 {
        let rest = s.drop_last();
        lemma_dedup_members(rest);
        lemma_push_contains(rest, s.last());
        assert(s =~= rest.push(s.last()));
        let d = spec_dedup(rest);
        lemma_push_contains(d, s.last());
    }
}

proof fn lemma_without_members(s: Seq<Seq<char>>, excluded: Seq<Seq<char>>)
    ensures
        forall|x: Seq<char>| #[trigger] spec_without(s, excluded).contains(x) <==> (s.contains(x) && !excluded.contains(x)),
    decreases s.len(),
{
    if s.len() > 0 {
        let rest = s.drop_last();
        lemma_without_members(rest, excluded);
        lemma_push_contains(rest, s.last());
        assert(s =~= rest.push(s.last()));
        lemma_push_contains(spec_without(rest, excluded), s.last());
    }
}

/// The paths a plan writes are distinct, each is a declared path (a `SinfPaths` or a
/// replication path), and a plan carries a warning exactly when it writes nothing.
pub proof fn lemma_plan_targets(n: nat, sinf_paths: Seq<Seq<char>>, replication_paths: Seq<Seq<char>>)
    ensures
        ({
            let plan = spec_injection_plan(n, sinf_paths, replication_paths);
            &&& plan.0.no_duplicates()
            &&& forall|x: Seq<char>| #[trigger] plan.0.contains(x) ==> sinf_paths.contains(x) || replication_paths.contains(x)
            &&& (plan.2 is Some <==> plan.0.len() == 0)
        }),
{
    let plan = spec_injection_plan(n, sinf_paths, replication_paths);
    let primary = spec_primary_paths(sinf_paths);
    let excluded = spec_without(replication_paths, primary);
    let replication = spec_replication_paths(sinf_paths, replication_paths);
    let both = primary + replication;
    lemma_dedup_members(sinf_paths);
    lemma_without_members(replication_paths, primary);
    lemma_dedup_members(excluded);
    lemma_dedup_members(both);
    assert forall|x: Seq<char>| #[trigger] both.contains(x) ==> sinf_paths.contains(x) || replication_paths.contains(x) by {
        if both.contains(x) {
            let k = choose|k: int| 0 <= k < both.len() && both[k] == x;
            if k < primary.len() {
                assert(primary[k] == x);
                assert(primary.contains(x));
            } else {
                assert(replication[k - primary.len()] == x);
                assert(replication.contains(x));
            }
        }
    }
    assert(both.no_duplicates()) by {
        assert forall|i: int, j: int| 0 <= i < both.len() && 0 <= j < both.len() && i != j implies both[i] != both[j] by {
            if i < primary.len() && j >= primary.len() {
                assert(primary.contains(both[i]));
                assert(replication.contains(both[j]));
            } else if j < primary.len() && i >= primary.len() {
                assert(primary.contains(both[j]));
                assert(replication.contains(both[i]));
            }
        }
    }
    if primary.len() > 0 {
        assert(both.contains(both[0]));
    }
    if replication.len() > 0 {
        assert(both.contains(both[primary.len() as int]));
    }
}

/// The law of a plan: its applied paths are the paths of its writes, in order, distinct
/// and each declared; every write names one of the `n` signatures; and it carries no
/// warning exactly when it writes something, which is exactly when there are targets and
/// signatures and either one signature, as many as targets, or as many as primary targets
/// with replication targets, distinct primary basenames and every replication basename
/// among them.
pub proof fn lemma_injection_plan_law(n: nat, sinf_paths: Seq<Seq<char>>, replication_paths: Seq<Seq<char>>)
    ensures
        ({
            let plan = spec_injection_plan(n, sinf_paths, replication_paths);
            let primary = spec_primary_paths(sinf_paths);
            let replication = spec_replication_paths(sinf_paths, replication_paths);
            let targets = spec_dedup(primary + replication);
            let bases = spec_bases(primary);
            &&& plan.0.len() == plan.1.len()
            &&& forall|i: int| 0 <= i < plan.1.len() ==> (#[trigger] plan.1[i]).0 == plan.0[i] && 0 <= plan.1[i].1 < n
            &&& plan.0.no_duplicates()
            &&& forall|x: Seq<char>| #[trigger] plan.0.contains(x) ==> sinf_paths.contains(x) || replication_paths.contains(x)
            &&& (plan.2 is None <==> plan.0.len() > 0)
            &&& (plan.0.len() > 0 <==> (targets.len() > 0 && n > 0 && (n == 1 || n == targets.len() || (n == primary.len()
                && replication.len() > 0 && bases.no_duplicates() && spec_first_unmatched_from(replication, bases, 0) is None))))
        }),
{
    lemma_plan_writes_valid(n, sinf_paths, replication_paths);
    lemma_plan_targets(n, sinf_paths, replication_paths);
}

/// Which signature each target gets: with one signature, every target gets it; with as
/// many signatures as targets (more than one), the i-th target gets the i-th signature;
/// with as many as the primary targets and replication targets besides, the i-th primary
/// target gets the i-th signature and each replication target the signature of the primary
/// target with the same basename.
pub proof fn lemma_plan_signature_indices(n: nat, sinf_paths: Seq<Seq<char>>, replication_paths: Seq<Seq<char>>)
    ensures
        ({
            let plan = spec_injection_plan(n, sinf_paths, replication_paths);
            let primary = spec_primary_paths(sinf_paths);
            let replication = spec_replication_paths(sinf_paths, replication_paths);
            let targets = spec_dedup(primary + replication);
            &&& (n == 1 && targets.len() > 0) ==> plan.0 == targets && plan.1.len() == targets.len()
                && forall|i: int| 0 <= i < targets.len() ==> #[trigger] plan.1[i] == (targets[i], 0int)
            &&& (n > 1 && n == targets.len()) ==> plan.0 == targets && plan.1.len() == targets.len()
                && forall|i: int| 0 <= i < targets.len() ==> #[trigger] plan.1[i] == (targets[i], i)
            &&& (n > 1 && n != targets.len() && n == primary.len() && plan.0.len() > 0) ==> plan.1.len() == primary.len() + replication.len()
                && (forall|i: int| 0 <= i < primary.len() ==> #[trigger] plan.1[i] == (primary[i], i))
                && (forall|j: int| 0 <= j < replication.len() ==> (#[trigger] plan.1[primary.len() + j]).0 == replication[j]
                    && 0 <= plan.1[primary.len() + j].1 < primary.len()
                    && spec_sinf_basename(primary[plan.1[primary.len() + j].1]) == spec_sinf_basename(replication[j]))
        }),
{
    let plan = spec_injection_plan(n, sinf_paths, replication_paths);
    let primary = spec_primary_paths(sinf_paths);
    let replication = spec_replication_paths(sinf_paths, replication_paths);
    let targets = spec_dedup(primary + replication);
    if n > 1 && n != targets.len() && n == primary.len() && plan.0.len() > 0 {
        let bases = spec_bases(primary);
        assert(replication.len() > 0);
        assert(bases.no_duplicates() && spec_first_unmatched_from(replication, bases, 0) is None);
        assert forall|j: int| 0 <= j < replication.len() implies (#[trigger] plan.1[primary.len() + j]).0 == replication[j]
            && 0 <= plan.1[primary.len() + j].1 < primary.len()
            && spec_sinf_basename(primary[plan.1[primary.len() + j].1]) == spec_sinf_basename(replication[j]) by {
            lemma_all_matched(replication, bases, 0, j);
            lemma_position_in_range(bases, spec_sinf_basename(replication[j]), 0);
        }
    }
}

/// A copy of a path list.
fn copy_paths(v: &Vec<String>) -> (r: Vec<String>)
    ensures
        r.deep_view() == v.deep_view(),
{
    let mut out: Vec<String> = Vec::new();
    let mut i: usize = 0;
    while i < v.len()
        invariant
            i <= v@.len(),
            out.deep_view() == v.deep_view().subrange(0, i as int),
        decreases v@.len() - i,
    {
        let ghost before = out.deep_view();
        out.push(v[i].clone());
        assert(out.deep_view() =~= before.push(v.deep_view()[i as int]));
        i = i + 1;
        assert(out.deep_view() =~= v.deep_view().subrange(0, i as int));
    }
    assert(v.deep_view().subrange(0, v@.len() as int) =~= v.deep_view());
    out
}

/// Plans which declared `.sinf` target receives which of the `signatures`
/// (see [`spec_injection_plan`]); never fails.
pub fn build_injection_plan(signatures: &[Sinf], manifest_targets: &ManifestTargets) -> (r: Result<SignatureApplyResult, crate::error::SigError>)
    ensures
        r matches Ok(plan) && plan_view(plan) == spec_injection_plan(
            signatures@.len(),
            manifest_targets.sinf_paths.deep_view(),
            manifest_targets.sinf_replication_paths.deep_view(),
        ),
{
    let ghost sp = manifest_targets.sinf_paths.deep_view();
    let ghost rp = manifest_targets.sinf_replication_paths.deep_view();
    let ghost spec = spec_injection_plan(signatures@.len(), sp, rp);
    let primary_paths = ordered_unique_paths(copy_paths(&manifest_targets.sinf_paths));
    let not_primary = paths_without(&manifest_targets.sinf_replication_paths, &primary_paths);
    let replication_paths = ordered_unique_paths(not_primary);
    let target_paths = ordered_unique_paths(concat_paths(&primary_paths, &replication_paths));
    let n = signatures.len();

    if target_paths.len() == 0 {
        return Ok(skipped_result(string_from_chars(chars_of("包内未声明需要补齐的 .sinf 目标").as_slice())));
    }
    if n == 0 {
        let count = decimal(target_paths.len() as u64);
        return Ok(skipped_result(join3("包内声明了 ", count.as_slice(), " 个 .sinf 目标，但 Apple 下载响应未返回任何真实 sinf")));
    }
    if n == 1 || n == target_paths.len() {
        let replacements = uniform_or_indexed(&target_paths, n == 1);
        let r = SignatureApplyResult { applied_paths: target_paths, replacements, warning: None };
        assert(plan_view(r).1 =~= spec.1);
        return Ok(r);
    }
    if n == primary_paths.len() && replication_paths.len() > 0 {
        return Ok(plan_with_replication(&primary_paths, &replication_paths));
    }
    let c1 = decimal(n as u64);
    let c2 = decimal(target_paths.len() as u64);
    let mut buf: Vec<char> = Vec::new();
    push_str(&mut buf, "Apple 返回 sinf 数量 (");
    push_chars(&mut buf, c1.as_slice());
    push_str(&mut buf, ") 与包内声明目标数量 (");
    push_chars(&mut buf, c2.as_slice());
    push_str(&mut buf, ") 不匹配，跳过注入");
    Ok(skipped_result(string_from_chars(buf.as_slice())))
}

} // verus!
