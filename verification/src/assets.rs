//! Asset references: recognition of URLs rooted at the public download
//! base, derivation of object-storage source and target keys, and the copy
//! plan a duplication must carry out.
use vstd::prelude::*;
use crate::ids::{id_text, spec_id_text};

verus! {

/// The public base URL under which this deployment's assets are served.
pub open spec fn spec_base_prefix() -> Seq<char> {
    "https://download.swissgeol.ch/"@
}

/// The well-known object-storage bucket holding the assets.
pub open spec fn spec_bucket_name() -> Seq<char> {
    "ngmpub-download-bgdi-ch"@
}

/// The base URL prefix as a string.
pub fn base_prefix() -> (r: &'static str)
    ensures
        r@ == spec_base_prefix(),
{
    "https://download.swissgeol.ch/"
}

/// The bucket name as a string.
pub fn bucket_name() -> (r: &'static str)
    ensures
        r@ == spec_bucket_name(),
{
    "ngmpub-download-bgdi-ch"
}

/// Whether an asset URL is rooted at the known base prefix; only such
/// assets are copied on duplication.
pub open spec fn is_base_asset(href: Seq<char>) -> bool {
    href.len() >= spec_base_prefix().len() && href.subrange(
        0,
        spec_base_prefix().len() as int,
    ) == spec_base_prefix()
}

/// The object-storage key of a base-rooted asset: the URL suffix after the
/// base prefix.
pub open spec fn spec_source_key(href: Seq<char>) -> Seq<char> {
    href.subrange(spec_base_prefix().len() as int, href.len() as int)
}

/// The final path segment of a URL: everything after the last `/`, or the
/// whole text when it has no `/`.
pub open spec fn spec_basename(href: Seq<char>) -> Seq<char> {
    match href.index_of_last('/') {
        Option::Some(i) => href.subrange(i + 1, href.len() as int),
        Option::None => href,
    }
}

/// The destination key of a copied asset: `assets/`, the new project id in
/// canonical text form, `/`, and the asset URL's final path segment.
pub open spec fn spec_target_key(new_id: u128, href: Seq<char>) -> Seq<char> {
    "assets/"@ + spec_id_text(new_id) + "/"@ + spec_basename(href)
}

/// Whether `s` starts with `p`.
fn starts_with(s: &str, p: &str) -> (r: bool)
    ensures
        r == (s@.len() >= p@.len() && s@.subrange(0, p@.len() as int) == p@),
{
    let lp = p.unicode_len();
    let ls = s.unicode_len();
    if ls < lp {
        return false;
    }
    let mut i: usize = 0;
    while i < lp
        invariant
            i <= lp,
            lp == p@.len(),
            ls == s@.len(),
            ls >= lp,
            forall|j: int| 0 <= j < i ==> s@[j] == p@[j],
        decreases lp - i,
    {
        if s.get_char(i) != p.get_char(i) {
            proof {
                assert(s@.subrange(0, p@.len() as int)[i as int] == s@[i as int]);
            }
            return false;
        }
        i = i + 1;
    }
    proof {
        assert(s@.subrange(0, p@.len() as int) =~= p@);
    }
    true
}

/// The index of the last `/` in `s`, if any.
fn last_slash_index(s: &str) -> (r: Option<usize>)
    ensures
        match r {
            Option::Some(i) => i < s@.len() && s@[i as int] == '/' && (forall|j: int|
                i < j < s@.len() ==> s@[j] != '/'),
            Option::None => forall|j: int| 0 <= j < s@.len() ==> s@[j] != '/',
        },
{
    let len = s.unicode_len();
    let mut i: usize = len;
    while i > 0
        invariant
            i <= len,
            len == s@.len(),
            forall|j: int| i <= j < s@.len() ==> s@[j] != '/',
        decreases i,
    {
        i = i - 1;
        if s.get_char(i) == '/' {
            return Option::Some(i);
        }
    }
    Option::None
}

/// The source key of `href` when it is rooted at the base prefix, `None`
/// when it is a foreign URL that duplication must leave alone.
pub fn asset_source_key(href: &str) -> (r: Option<String>)
    ensures
        match r {
            Option::Some(k) => is_base_asset(href@) && k@ == spec_source_key(href@),
            Option::None => !is_base_asset(href@),
        },
{
    let p = base_prefix();
    if starts_with(href, p) {
        let lp = p.unicode_len();
        let ls = href.unicode_len();
        Option::Some(href.substring_char(lp, ls).to_owned())
    } else {
        Option::None
    }
}

/// The final path segment of `href`.
pub fn asset_basename(href: &str) -> (r: String)
    ensures
        r@ == spec_basename(href@),
{
    proof {
        href@.index_of_last_ensures('/');
    }
    match last_slash_index(href) {
        Option::Some(i) => {
            proof {
                let k = href@.index_of_last('/');
                assert(k is Some);
                let ki = k->Some_0;
                assert(href@[ki] == '/');
                assert(ki == i as int);
            }
            let ls = href.unicode_len();
            href.substring_char(i + 1, ls).to_owned()
        },
        Option::None => {
            proof {
                assert(!href@.contains('/')) by {
                    if href@.contains('/') {
                        let w = choose|w: int| 0 <= w < href@.len() && href@[w] == '/';
                        assert(href@[w] != '/');
                    }
                }
                assert(href@.index_of_last('/') is None);
            }
            href.to_owned()
        },
    }
}

/// The destination key for copying `href` into the namespace of `new_id`.
pub fn target_key(new_id: u128, href: &str) -> (r: String)
    ensures
        r@ == spec_target_key(new_id, href@),
{
    let mut out = String::from_str("assets/");
    let idt = id_text(new_id);
    out.append(idt.as_str());
    out.append("/");
    let base = asset_basename(href);
    out.append(base.as_str());
    proof {
        assert(out@ =~= spec_target_key(new_id, href@));
    }
    out
}

/// One asset copy a duplication must perform: a server-side copy from
/// `source_key` to `target_key` within the well-known bucket.
pub struct CopyJob {
    pub source_key: String,
    pub target_key: String,
}

/// Mathematical model of a `CopyJob`.
#[verifier::ext_equal]
pub struct JobModel {
    pub source_key: Seq<char>,
    pub target_key: Seq<char>,
}

impl View for CopyJob {
    type V = JobModel;

    open spec fn view(&self) -> JobModel {
        JobModel { source_key: self.source_key@, target_key: self.target_key@ }
    }
}

impl DeepView for CopyJob {
    type V = JobModel;

    open spec fn deep_view(&self) -> JobModel {
        self.view()
    }
}

/// The copy that duplicating the base-rooted asset `href` into the
/// namespace of `new_id` performs.
pub open spec fn spec_job_of(new_id: u128, href: Seq<char>) -> JobModel {
    JobModel { source_key: spec_source_key(href), target_key: spec_target_key(new_id, href) }
}

/// The copies a duplication with fresh id `new_id` must perform: one per
/// base-rooted asset, in asset order; foreign URLs contribute none.
pub open spec fn spec_copy_plan(assets: Seq<Seq<char>>, new_id: u128) -> Seq<JobModel> {
    assets.filter(|h: Seq<char>| is_base_asset(h)).map_values(
        |h: Seq<char>| spec_job_of(new_id, h),
    )
}

/// How the copy plan grows by one asset: a base-rooted asset appends its
/// copy, a foreign one leaves the plan unchanged.
pub proof fn lemma_copy_plan_push(assets: Seq<Seq<char>>, a: Seq<char>, new_id: u128)
    ensures
        is_base_asset(a) ==> spec_copy_plan(assets.push(a), new_id) == spec_copy_plan(
            assets,
            new_id,
        ).push(spec_job_of(new_id, a)),
        !is_base_asset(a) ==> spec_copy_plan(assets.push(a), new_id) == spec_copy_plan(
            assets,
            new_id,
        ),
{
    let pred = |h: Seq<char>| is_base_asset(h);
    let single = seq![a];
    assert(assets.push(a) =~= assets + single);
    Seq::filter_distributes_over_add(assets, single, pred);
    reveal_with_fuel(Seq::filter, 2);
    assert(single.drop_last() =~= Seq::<Seq<char>>::empty());
    if pred(a) {
        assert(single.filter(pred) =~= seq![a]);
        assert((assets + single).filter(pred) =~= assets.filter(pred).push(a));
        assert(spec_copy_plan(assets.push(a), new_id) =~= spec_copy_plan(assets, new_id).push(
            spec_job_of(new_id, a),
        ));
    } else {
        assert(single.filter(pred) =~= Seq::<Seq<char>>::empty());
        assert((assets + single).filter(pred) =~= assets.filter(pred));
        assert(spec_copy_plan(assets.push(a), new_id) =~= spec_copy_plan(assets, new_id));
    }
}

/// A duplication whose template has no base-rooted asset performs no copy
/// at all.
pub proof fn lemma_foreign_assets_no_copy(assets: Seq<Seq<char>>, new_id: u128)
    requires
        forall|i: int| 0 <= i < assets.len() ==> !is_base_asset(assets[i]),
    ensures
        spec_copy_plan(assets, new_id) == Seq::<JobModel>::empty(),
    decreases assets.len(),
{
    if assets.len() == 0 {
        reveal_with_fuel(Seq::filter, 1);
        assert(assets.filter(|h: Seq<char>| is_base_asset(h)) =~= Seq::<Seq<char>>::empty());
        assert(spec_copy_plan(assets, new_id) =~= Seq::<JobModel>::empty());
    } else {
        let front = assets.drop_last();
        assert(forall|i: int| 0 <= i < front.len() ==> !is_base_asset(front[i]));
        lemma_foreign_assets_no_copy(front, new_id);
        assert(assets =~= front.push(assets.last()));
        lemma_copy_plan_push(front, assets.last(), new_id);
    }
}

/// Copied objects are namespaced by the id of the duplication that wrote
/// them: duplications under distinct fresh ids can never produce the same
/// destination key, whatever assets they copy. An abandoned duplication
/// therefore never collides with, nor gets attributed to, a valid project.
pub proof fn lemma_distinct_ids_distinct_namespaces(
    id1: u128,
    id2: u128,
    href1: Seq<char>,
    href2: Seq<char>,
)
    requires
        id1 != id2,
    ensures
        spec_target_key(id1, href1) != spec_target_key(id2, href2),
{
    let t1 = spec_id_text(id1);
    let t2 = spec_id_text(id2);
    assert(t1.len() == 36);
    assert(t2.len() == 36);
    if t1 == t2 {
        crate::ids::lemma_id_text_injective(id1, id2);
    }
    assert(!(forall|j: int| 0 <= j < 36 ==> t1[j] == t2[j])) by {
        if forall|j: int| 0 <= j < 36 ==> t1[j] == t2[j] {
            assert(t1 =~= t2);
        }
    }
    let j = choose|j: int| 0 <= j < 36 && t1[j] != t2[j];
    reveal_strlit("assets/");
    assert("assets/"@.len() == 7);
    let k1 = spec_target_key(id1, href1);
    let k2 = spec_target_key(id2, href2);
    assert(k1[7 + j] == t1[j]);
    assert(k2[7 + j] == t2[j]);
}

/// Computes the copy plan for duplicating `assets` under the fresh id
/// `new_id`.
pub fn plan_copies(assets: &Vec<String>, new_id: u128) -> (r: Vec<CopyJob>)
    ensures
        r.deep_view() == spec_copy_plan(assets.deep_view(), new_id),
{
    let mut r: Vec<CopyJob> = Vec::new();
    let mut i: usize = 0;
    proof {
        assert(assets.deep_view().subrange(0, 0) =~= Seq::<Seq<char>>::empty());
        lemma_foreign_assets_no_copy(Seq::<Seq<char>>::empty(), new_id);
        assert(r.deep_view() =~= Seq::<JobModel>::empty());
    }
    while i < assets.len()
        invariant
            i <= assets.len(),
            r.deep_view() == spec_copy_plan(assets.deep_view().subrange(0, i as int), new_id),
        decreases assets.len() - i,
    {
        let href = assets[i].as_str();
        let ghost done = assets.deep_view().subrange(0, i as int);
        proof {
            assert(assets.deep_view().subrange(0, i + 1 as int) =~= done.push(href@));
            lemma_copy_plan_push(done, href@, new_id);
        }
        match asset_source_key(href) {
            Option::Some(source_key) => {
                let tkey = target_key(new_id, href);
                let job = CopyJob { source_key, target_key: tkey };
                assert(job@ == spec_job_of(new_id, href@));
                r.push(job);
                proof {
                    assert(r.deep_view() =~= spec_copy_plan(
                        assets.deep_view().subrange(0, i + 1 as int),
                        new_id,
                    ));
                }
            },
            Option::None => {},
        }
        i = i + 1;
    }
    proof {
        assert(assets.deep_view().subrange(0, assets.deep_view().len() as int) =~= assets.deep_view());
    }
    r
}

} // verus!
