//! Whether a newer release is out, and whether guest images fit the running one.

use crate::json;
use crate::text;
use crate::json::{Json, JsonTree, parse_json};
use crate::sandbox::RunnerGuestImages;
use crate::text::{rsplit_once, trim_leading};
use vstd::prelude::*;

verus! {

/// For how long a stored answer is good enough.
pub const CACHE_TTL_SECS: u64 = 86400;

/// The answer of an earlier check.
#[derive(Debug, PartialEq, Eq)]
pub struct UpdateCache {
    pub latest_tag: String,
    pub checked_at_secs: u64,
}

/// The model of an [`UpdateCache`].
pub struct UpdateCacheModel {
    pub latest_tag: Seq<char>,
    pub checked_at_secs: u64,
}

impl DeepView for UpdateCache {
    type V = UpdateCacheModel;

    open spec fn deep_view(&self) -> UpdateCacheModel {
        UpdateCacheModel {
            latest_tag: self.latest_tag@,
            checked_at_secs: self.checked_at_secs,
        }
    }
}

/// An answer is fresh for a day. One from the future is fresh too.
pub open spec fn is_fresh(checked_at_secs: u64, now_secs: u64) -> bool {
    now_secs < checked_at_secs + CACHE_TTL_SECS
}

/// Whether a stored answer is still good enough.
pub fn cache_is_fresh(cache: &UpdateCache, now_secs: u64) -> (r: bool)
    ensures
        r == is_fresh(cache.checked_at_secs, now_secs),
{
    now_secs.saturating_sub(cache.checked_at_secs) < CACHE_TTL_SECS
}

/// A flag of a release. One that is missing counts as set.
pub open spec fn flag(release: JsonTree, name: Seq<char>) -> bool {
    match json::member(release, name) {
        Some(JsonTree::Bool(value)) => value,
        _ => true,
    }
}

/// A release counts if it is no draft and, unless those are wanted, no prerelease.
pub open spec fn counts(release: JsonTree, include_prerelease: bool) -> bool {
    !flag(release, "draft"@) && (include_prerelease || !flag(release, "prerelease"@))
}

/// The tag of the first release that counts.
pub open spec fn first_tag(releases: Seq<JsonTree>, include_prerelease: bool) -> Option<Seq<char>>
    decreases releases.len(),
{
    if releases.len() == 0 {
        None
    } else if counts(releases[0], include_prerelease) {
        match json::member(releases[0], "tag_name"@) {
            Some(JsonTree::Text(tag)) => Some(tag),
            _ => None,
        }
    } else {
        first_tag(releases.skip(1), include_prerelease)
    }
}

/// The tag of the first release that counts in an answer of the release service.
pub open spec fn tag_in_answer(answer: Seq<char>, include_prerelease: bool) -> Option<Seq<char>> {
    match json::parsed_tree(answer) {
        Some(JsonTree::List(releases)) => first_tag(releases, include_prerelease),
        _ => None,
    }
}

fn read_flag(release: &Json, name: &str) -> (r: bool)
    ensures
        r == flag(release.deep_view(), name@),
{
    match release.get(name) {
        Some(Json::Bool(value)) => *value,
        _ => true,
    }
}

/// The tag of the first release that counts.
pub fn tag_of_releases(releases: &Vec<Json>, include_prerelease: bool) -> (r: Option<String>)
    ensures
        r.deep_view() == first_tag(releases.deep_view(), include_prerelease),
{
    let ghost trees = releases.deep_view();
    let mut i: usize = 0;
    proof {
        assert(trees.skip(0) =~= trees);
    }
    while i < releases.len()
        invariant
            i <= releases.len(),
            trees == releases.deep_view(),
            first_tag(trees, include_prerelease) == first_tag(
                trees.skip(i as int),
                include_prerelease,
            ),
        decreases releases.len() - i,
    {
        let release = &releases[i];
        proof {
            assert(trees.skip(i as int)[0] == release.deep_view());
            assert(trees.skip(i as int).skip(1) =~= trees.skip(i as int + 1));
        }
        let draft = read_flag(release, "draft");
        let prerelease = read_flag(release, "prerelease");
        if !draft && (include_prerelease || !prerelease) {
            return match release.get("tag_name") {
                Some(tag) => match tag.as_str() {
                    Some(text) => Some(text.to_owned()),
                    None => None,
                },
                None => None,
            };
        }
        i += 1;
    }
    None
}

/// The tag of the first release that counts in an answer of the release service.
pub fn release_tag(answer: &str, include_prerelease: bool) -> (r: Option<String>)
    ensures
        r.deep_view() == tag_in_answer(answer@, include_prerelease),
{
    match parse_json(answer) {
        Ok(Json::List(releases)) => {
            proof {
                let trees = json::parsed_tree(answer@)->0->List_0;
                assert(trees =~= releases.deep_view());
            }
            tag_of_releases(&releases, include_prerelease)
        },
        _ => None,
    }
}

/// Whether the release service has to be asked.
pub open spec fn must_ask(
    use_cache: bool,
    cache: Option<UpdateCacheModel>,
    now_secs: u64,
) -> bool {
    !use_cache || cache is None || !is_fresh(cache->0.checked_at_secs, now_secs)
}

/// Whether the release service has to be asked: unless a stored answer may be used
/// and is fresh.
pub fn needs_fetch(use_cache: bool, cache: &Option<UpdateCache>, now_secs: u64) -> (r: bool)
    ensures
        r == must_ask(use_cache, cache.deep_view(), now_secs),
{
    match cache {
        Some(cache) => !use_cache || !cache_is_fresh(cache, now_secs),
        None => true,
    }
}

/// The tag that the release service gave, where it had to be asked and gave one.
pub open spec fn fetched_tag(
    use_cache: bool,
    include_prerelease: bool,
    cache: Option<UpdateCacheModel>,
    now_secs: u64,
    answer: Option<Seq<char>>,
) -> Option<Seq<char>> {
    if must_ask(use_cache, cache, now_secs) {
        match answer {
            Some(text) => tag_in_answer(text, include_prerelease),
            None => None,
        }
    } else {
        None
    }
}

/// The tag of the latest release.
pub open spec fn tag_of_latest(
    use_cache: bool,
    include_prerelease: bool,
    cache: Option<UpdateCacheModel>,
    now_secs: u64,
    answer: Option<Seq<char>>,
) -> Option<Seq<char>> {
    if must_ask(use_cache, cache, now_secs) {
        fetched_tag(use_cache, include_prerelease, cache, now_secs, answer)
    } else {
        Some(cache->0.latest_tag)
    }
}

/// What is stored after a check.
pub open spec fn stored_after(
    use_cache: bool,
    include_prerelease: bool,
    cache: Option<UpdateCacheModel>,
    now_secs: u64,
    answer: Option<Seq<char>>,
) -> Option<UpdateCacheModel> {
    match fetched_tag(use_cache, include_prerelease, cache, now_secs, answer) {
        Some(tag) => Some(UpdateCacheModel { latest_tag: tag, checked_at_secs: now_secs }),
        None => cache,
    }
}

/// The tag of the latest release: that of a stored answer where it may be used and is
/// fresh, else the one in the answer of the release service, if there is one.
pub fn latest_tag(
    use_cache: bool,
    include_prerelease: bool,
    cache: &Option<UpdateCache>,
    now_secs: u64,
    answer: Option<&str>,
) -> (r: Option<String>)
    ensures
        r.deep_view() == tag_of_latest(
            use_cache,
            include_prerelease,
            cache.deep_view(),
            now_secs,
            answer.deep_view(),
        ),
{
    if use_cache {
        if let Some(cache) = cache {
            if cache_is_fresh(cache, now_secs) {
                return Some(cache.latest_tag.clone());
            }
        }
    }
    match answer {
        Some(text) => release_tag(text, include_prerelease),
        None => None,
    }
}

/// What is stored after a check: the tag that the release service gave, with the time,
/// where it had to be asked and gave one, and otherwise what was stored before.
pub fn cache_after(
    use_cache: bool,
    include_prerelease: bool,
    cache: Option<UpdateCache>,
    now_secs: u64,
    answer: Option<&str>,
) -> (r: Option<UpdateCache>)
    ensures
        r.deep_view() == stored_after(
            use_cache,
            include_prerelease,
            cache.deep_view(),
            now_secs,
            answer.deep_view(),
        ),
{
    if !needs_fetch(use_cache, &cache, now_secs) {
        return cache;
    }
    let fetched = match answer {
        Some(text) => release_tag(text, include_prerelease),
        None => None,
    };
    match fetched {
        Some(tag) => Some(UpdateCache { latest_tag: tag, checked_at_secs: now_secs }),
        None => cache,
    }
}

/// A check that the release service answered with a tag is remembered: for a day, one
/// that may use what is stored gives that tag and asks nobody. A check that gave none
/// changes nothing.
pub proof fn law_check_is_remembered(
    use_cache: bool,
    include_prerelease: bool,
    cache: Option<UpdateCacheModel>,
    now: u64,
    answer: Option<Seq<char>>,
    later: u64,
    later_answer: Option<Seq<char>>,
)
    ensures
        ({
            let fetched = fetched_tag(use_cache, include_prerelease, cache, now, answer);
            let stored = stored_after(use_cache, include_prerelease, cache, now, answer);
            &&& fetched is None ==> stored == cache
            &&& fetched is Some && later < now + CACHE_TTL_SECS ==> {
                &&& !must_ask(true, stored, later)
                &&& tag_of_latest(true, include_prerelease, stored, later, later_answer) == fetched
                &&& stored_after(true, include_prerelease, stored, later, later_answer) == stored
            }
        }),
{
}

/// A version of `semver`.
#[verifier::external_type_specification]
#[verifier::external_body]
pub struct ExSemver(semver::Version);

/// The version that a text reads as with `semver::Version::parse`, if it does.
pub uninterp spec fn semver_version(text: Seq<char>) -> Option<semver::Version>;

/// Whether one version precedes another in the order of `semver::Version`.
pub uninterp spec fn semver_precedes(one: semver::Version, other: semver::Version) -> bool;

/// `semver::Version::parse`: the outcome depends on the text alone.
#[verifier::external_body]
fn parse_semver(text: &str) -> (r: Option<semver::Version>)
    ensures
        r == semver_version(text@),
{
    semver::Version::parse(text).ok()
}

/// `<` of `semver::Version`, which depends on the two versions alone. The order is total:
/// one of two versions precedes the other unless they are equal, and then neither does.
#[verifier::external_body]
fn precedes(one: &semver::Version, other: &semver::Version) -> (r: bool)
    ensures
        r == semver_precedes(*one, *other),
        r ==> *one != *other && !semver_precedes(*other, *one),
        !r ==> *one == *other || semver_precedes(*other, *one),
{
    one < other
}

/// Equality of `semver::Version` compares all parts of the two versions.
#[verifier::external_body]
fn same_version(one: &semver::Version, other: &semver::Version) -> (r: bool)
    ensures
        r == (*one == *other),
{
    one == other
}

/// How the running version compares to the latest one.
#[derive(Debug, PartialEq, Eq)]
pub struct UpdateCheckOutcome {
    pub current_version: String,
    pub latest_version: String,
    pub update_available: bool,
}

/// Compares the running version to the tag of the latest release: it precedes that one,
/// or it is the same, or that one precedes it. There is no outcome where there is no tag
/// or either is no version.
pub fn run_check(current_version: &str, tag: Option<&str>) -> (r: Option<UpdateCheckOutcome>)
    ensures
        match r {
            Some(outcome) => {
                &&& tag is Some
                &&& semver_version(current_version@) is Some
                &&& semver_version(text::without_leading(tag->0@, 'v')) is Some
                &&& outcome.current_version@ == current_version@
                &&& outcome.latest_version@ == text::without_leading(tag->0@, 'v')
                &&& outcome.update_available == semver_precedes(
                    semver_version(current_version@)->0,
                    semver_version(text::without_leading(tag->0@, 'v'))->0,
                )
                &&& outcome.update_available ==> {
                    let current = semver_version(current_version@)->0;
                    let latest = semver_version(text::without_leading(tag->0@, 'v'))->0;
                    current != latest && !semver_precedes(latest, current)
                }
                &&& !outcome.update_available ==> {
                    let current = semver_version(current_version@)->0;
                    let latest = semver_version(text::without_leading(tag->0@, 'v'))->0;
                    current == latest || semver_precedes(latest, current)
                }
            },
            None => tag is None || semver_version(current_version@) is None || semver_version(
                text::without_leading(tag->0@, 'v'),
            ) is None,
        },
{
    let current = match parse_semver(current_version) {
        Some(version) => version,
        None => {
            return None;
        },
    };
    let tag: &str = match tag {
        Some(tag) => tag,
        None => {
            return None;
        },
    };
    let latest_text = trim_leading(tag, 'v');
    let latest = match parse_semver(latest_text.as_str()) {
        Some(version) => version,
        None => {
            return None;
        },
    };
    Some(
        UpdateCheckOutcome {
            current_version: current_version.to_owned(),
            latest_version: latest_text,
            update_available: precedes(&current, &latest),
        },
    )
}

/// An image whose tag is another version than the running one.
#[derive(Debug, PartialEq, Eq)]
pub struct ImageTagMismatch {
    pub field: &'static str,
    pub image_ref: String,
    pub image_tag: String,
    pub binary_version: String,
}

/// The model of an [`ImageTagMismatch`].
pub struct MismatchModel {
    pub field: Seq<char>,
    pub image_ref: Seq<char>,
    pub image_tag: Seq<char>,
    pub binary_version: Seq<char>,
}

impl DeepView for ImageTagMismatch {
    type V = MismatchModel;

    open spec fn deep_view(&self) -> MismatchModel {
        MismatchModel {
            field: self.field@,
            image_ref: self.image_ref@,
            image_tag: self.image_tag@,
            binary_version: self.binary_version@,
        }
    }
}

/// The tag of an image: what follows its last colon.
pub open spec fn image_tag(image_ref: Seq<char>) -> Seq<char> {
    match text::rsplit_once_at(image_ref, ':') {
        Some((_, tag)) => tag,
        None => "latest"@,
    }
}

/// The mismatch of one image, if it has one. A tag that is no version never does.
pub open spec fn mismatch_of(
    field: Seq<char>,
    image_ref: Seq<char>,
    binary_version: Seq<char>,
) -> Seq<MismatchModel> {
    match (
        semver_version(binary_version),
        semver_version(text::without_leading(image_tag(image_ref), 'v')),
    ) {
        (Some(binary), Some(image)) => if image != binary {
            seq![
                MismatchModel { field, image_ref, image_tag: image_tag(image_ref), binary_version },
            ]
        } else {
            Seq::empty()
        },
        _ => Seq::empty(),
    }
}

/// The mismatch of an image whose tag is a version, or nothing where that is the running
/// one.
pub fn mismatch_of_version(
    field: &'static str,
    image_ref: &str,
    image_tag: &str,
    binary_version: &str,
    same: bool,
) -> (r: Option<ImageTagMismatch>)
    ensures
        r.deep_view() == if same {
            None
        } else {
            Some(
                MismatchModel {
                    field: field@,
                    image_ref: image_ref@,
                    image_tag: image_tag@,
                    binary_version: binary_version@,
                },
            )
        },
{
    if same {
        return None;
    }
    Some(
        ImageTagMismatch {
            field,
            image_ref: image_ref.to_owned(),
            image_tag: image_tag.to_owned(),
            binary_version: binary_version.to_owned(),
        },
    )
}

fn push_mismatch(
    mismatches: &mut Vec<ImageTagMismatch>,
    field: &'static str,
    image_ref: &str,
    binary_version: &str,
    binary: &semver::Version,
)
    requires
        semver_version(binary_version@) == Some(*binary),
    ensures
        final(mismatches).deep_view() == old(mismatches).deep_view() + mismatch_of(
            field@,
            image_ref@,
            binary_version@,
        ),
{
    let tag: String = match rsplit_once(image_ref, ':') {
        Some((_, tag)) => tag,
        None => "latest".to_owned(),
    };
    if let Some(version) = parse_semver(trim_leading(tag.as_str(), 'v').as_str()) {
        let same = same_version(&version, binary);
        if let Some(mismatch) = mismatch_of_version(
            field,
            image_ref,
            tag.as_str(),
            binary_version,
            same,
        ) {
            mismatches.push(mismatch);
        }
    }
    proof {
        assert(mismatches.deep_view() =~= old(mismatches).deep_view() + mismatch_of(
            field@,
            image_ref@,
            binary_version@,
        ));
    }
}

/// The guest images whose tags are other versions than the running one.
pub fn check_image_tag_mismatches(guest_images: &RunnerGuestImages, binary_version: &str) -> (r:
    Vec<ImageTagMismatch>)
    ensures
        r.deep_view() == mismatch_of(
            "guest_images.oxydra_vm"@,
            guest_images.oxydra_vm@,
            binary_version@,
        ) + mismatch_of("guest_images.shell_vm"@, guest_images.shell_vm@, binary_version@),
{
    let mut mismatches: Vec<ImageTagMismatch> = Vec::new();
    proof {
        assert(mismatches.deep_view() =~= Seq::empty());
        assert(Seq::<MismatchModel>::empty() + Seq::empty() =~= Seq::empty());
    }
    let binary = match parse_semver(binary_version) {
        Some(version) => version,
        None => {
            return mismatches;
        },
    };
    push_mismatch(
        &mut mismatches,
        "guest_images.oxydra_vm",
        guest_images.oxydra_vm.as_str(),
        binary_version,
        &binary,
    );
    push_mismatch(
        &mut mismatches,
        "guest_images.shell_vm",
        guest_images.shell_vm.as_str(),
        binary_version,
        &binary,
    );
    proof {
        assert(mismatches.deep_view() =~= mismatch_of(
            "guest_images.oxydra_vm"@,
            guest_images.oxydra_vm@,
            binary_version@,
        ) + mismatch_of("guest_images.shell_vm"@, guest_images.shell_vm@, binary_version@));
    }
    mismatches
}

/// A stored answer is fresh the moment that it is stored and stale a day later, and
/// once stale it stays so.
pub proof fn law_freshness_ends_after_a_day(checked_at: u64, now: u64, later: u64)
    requires
        now <= later,
    ensures
        is_fresh(checked_at, checked_at),
        now >= checked_at + CACHE_TTL_SECS ==> !is_fresh(checked_at, now),
        !is_fresh(checked_at, now) ==> !is_fresh(checked_at, later),
{
}

/// A stored answer is used for a day and no longer, where it may be used at all.
pub proof fn law_stored_answer_serves_for_a_day(
    use_cache: bool,
    cache: UpdateCache,
    now_secs: u64,
    fresh: bool,
    needed: bool,
    unstored: bool,
)
    requires
        call_ensures(cache_is_fresh, (&cache, now_secs), fresh),
        call_ensures(needs_fetch, (use_cache, &Some(cache), now_secs), needed),
        call_ensures(needs_fetch, (use_cache, &None, now_secs), unstored),
    ensures
        fresh <==> now_secs < cache.checked_at_secs + 24 * 60 * 60,
        needed <==> !use_cache || !fresh,
        unstored,
{
}

proof fn lemma_first_that_counts(releases: Seq<JsonTree>, include_prerelease: bool, i: int)
    requires
        0 <= i < releases.len(),
        counts(releases[i], include_prerelease),
        forall|k: int| 0 <= k < i ==> !counts(#[trigger] releases[k], include_prerelease),
    ensures
        first_tag(releases, include_prerelease) == (match json::member(releases[i], "tag_name"@) {
            Some(JsonTree::Text(tag)) => Some(tag),
            _ => None,
        }),
    decreases i,
{
    if i > 0 {
        let rest = releases.skip(1);
        assert(!counts(releases[0], include_prerelease));
        assert(rest[i - 1] == releases[i]);
        assert forall|k: int| 0 <= k < i - 1 implies !counts(
            #[trigger] rest[k],
            include_prerelease,
        ) by {
            assert(rest[k] == releases[k + 1]);
        }
        lemma_first_that_counts(rest, include_prerelease, i - 1);
    }
}

proof fn lemma_none_counts(releases: Seq<JsonTree>, include_prerelease: bool)
    requires
        forall|k: int|
            0 <= k < releases.len() ==> !counts(#[trigger] releases[k], include_prerelease),
    ensures
        first_tag(releases, include_prerelease) is None,
    decreases releases.len(),
{
    if releases.len() > 0 {
        let rest = releases.skip(1);
        assert(!counts(releases[0], include_prerelease));
        assert forall|k: int| 0 <= k < rest.len() implies !counts(
            #[trigger] rest[k],
            include_prerelease,
        ) by {
            assert(rest[k] == releases[k + 1]);
        }
        lemma_none_counts(rest, include_prerelease);
    }
}

/// Whether a member of a release is there and not set.
pub open spec fn is_unset(release: Json, name: Seq<char>) -> bool {
    json::member(release.deep_view(), name) == Some(JsonTree::Bool(false))
}

/// The latest tag is that of the first release that is no draft and, where those are not
/// wanted, no prerelease.
pub proof fn law_first_release_gives_the_tag(
    releases: Vec<Json>,
    include_prerelease: bool,
    r: Option<String>,
    i: int,
    tag: Seq<char>,
)
    requires
        call_ensures(tag_of_releases, (&releases, include_prerelease), r),
        0 <= i < releases@.len(),
        is_unset(releases@[i], "draft"@),
        include_prerelease || is_unset(releases@[i], "prerelease"@),
        forall|k: int|
            0 <= k < i ==> !is_unset(#[trigger] releases@[k], "draft"@) || !include_prerelease
                && !is_unset(releases@[k], "prerelease"@),
        json::member(releases@[i].deep_view(), "tag_name"@) == Some(JsonTree::Text(tag)),
    ensures
        r matches Some(found) && found@ == tag,
{
    let trees = releases.deep_view();
    assert(trees[i] == releases@[i].deep_view());
    assert forall|k: int| 0 <= k < i implies !counts(#[trigger] trees[k], include_prerelease) by {
        assert(trees[k] == releases@[k].deep_view());
        assert(!is_unset(releases@[k], "draft"@) || !include_prerelease && !is_unset(
            releases@[k],
            "prerelease"@,
        ));
    }
    lemma_first_that_counts(trees, include_prerelease, i);
}

/// Where every release is a draft, or a prerelease that is not wanted, there is no tag.
pub proof fn law_drafts_give_no_tag(
    releases: Vec<Json>,
    include_prerelease: bool,
    r: Option<String>,
)
    requires
        call_ensures(tag_of_releases, (&releases, include_prerelease), r),
        forall|k: int|
            0 <= k < releases@.len() ==> !is_unset(#[trigger] releases@[k], "draft"@)
                || !include_prerelease && !is_unset(releases@[k], "prerelease"@),
    ensures
        r is None,
{
    let trees = releases.deep_view();
    assert forall|k: int| 0 <= k < trees.len() implies !counts(
        #[trigger] trees[k],
        include_prerelease,
    ) by {
        assert(trees[k] == releases@[k].deep_view());
        assert(!is_unset(releases@[k], "draft"@) || !include_prerelease && !is_unset(
            releases@[k],
            "prerelease"@,
        ));
    }
    lemma_none_counts(trees, include_prerelease);
}

/// A tag that was found is stored with the time of the check, and is the one a later check
/// of that day gives.
pub proof fn law_found_tag_is_given_again(
    include_prerelease: bool,
    cache: Option<UpdateCache>,
    now: u64,
    answer: &str,
    found: Option<String>,
    stored: Option<UpdateCache>,
    later: u64,
    again: Option<String>,
)
    requires
        call_ensures(latest_tag, (false, include_prerelease, &cache, now, Some(answer)), found),
        call_ensures(cache_after, (false, include_prerelease, cache, now, Some(answer)), stored),
        call_ensures(latest_tag, (true, include_prerelease, &stored, later, None), again),
    ensures
        found matches Some(tag) ==> (stored matches Some(kept) && kept.latest_tag@ == tag@
            && kept.checked_at_secs == now),
        found matches Some(tag) ==> (later < now + 86400 ==> (again matches Some(second)
            && second@ == tag@)),
        found matches Some(_) ==> (later >= now + 86400 ==> again is None),
{
}

/// The running version and the latest one are reported as they are, without the letter in
/// front; an update is there exactly where the running one precedes.
pub proof fn law_update_is_offered_for_newer_versions(
    current: &str,
    tag: &str,
    version: Seq<char>,
    r: Option<UpdateCheckOutcome>,
    untagged: Option<UpdateCheckOutcome>,
)
    requires
        call_ensures(run_check, (current, Some(tag)), r),
        call_ensures(run_check, (current, None), untagged),
        tag@ == version || tag@ == seq!['v'] + version,
        version.len() > 0 ==> version[0] != 'v',
        semver_version(current@) is Some,
        semver_version(version) is Some,
    ensures
        untagged is None,
        r is Some,
        r->0.current_version@ == current@,
        r->0.latest_version@ == version,
        r->0.update_available ==> !semver_precedes(
            semver_version(version)->0,
            semver_version(current@)->0,
        ) && semver_version(version) != semver_version(current@),
        !r->0.update_available ==> semver_precedes(
            semver_version(version)->0,
            semver_version(current@)->0,
        ) || semver_version(version) == semver_version(current@),
{
    reveal_with_fuel(text::without_leading, 3);
    assert((seq!['v'] + version).skip(1) =~= version);
}

/// An image whose tag is another version than the running one is reported with its field;
/// one whose tag is the running version, or no version, is not.
pub proof fn law_other_versions_are_reported(
    images: RunnerGuestImages,
    binary: &str,
    r: Vec<ImageTagMismatch>,
    runtime: Seq<char>,
    sidecar: Seq<char>,
)
    requires
        call_ensures(check_image_tag_mismatches, (&images, binary), r),
        text::rsplit_once_at(images.oxydra_vm@, ':') matches Some((_, tag)) && tag == runtime,
        text::rsplit_once_at(images.shell_vm@, ':') matches Some((_, tag)) && tag == sidecar,
        runtime.len() > 0 ==> runtime[0] != 'v',
        sidecar.len() > 0 ==> sidecar[0] != 'v',
        semver_version(binary@) is Some,
    ensures
        ({
            let first = semver_version(runtime) is Some && semver_version(runtime)
                != semver_version(binary@);
            let second = semver_version(sidecar) is Some && semver_version(sidecar)
                != semver_version(binary@);
            &&& r@.len() == (if first {
                1int
            } else {
                0
            }) + (if second {
                1int
            } else {
                0
            })
            &&& first ==> r@[0].field@ == "guest_images.oxydra_vm"@ && r@[0].image_ref@
                == images.oxydra_vm@ && r@[0].image_tag@ == runtime && r@[0].binary_version@
                == binary@
            &&& second ==> r@.last().field@ == "guest_images.shell_vm"@ && r@.last().image_ref@
                == images.shell_vm@ && r@.last().image_tag@ == sidecar && r@.last().binary_version@
                == binary@
        }),
{
    reveal_with_fuel(text::without_leading, 2);
    assert(r.deep_view().len() == r@.len());
    assert forall|j: int| 0 <= j < r@.len() implies r.deep_view()[j] == (
    #[trigger] r@[j]).deep_view() by {}
    if r@.len() > 0 {
        assert(r@.last() == r@[r@.len() - 1]);
        assert(r.deep_view()[0] == r@[0].deep_view());
    }
}

} // verus!
