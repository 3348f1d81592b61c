//! The rules of a fuzzing session: its profile, when progress is shown, how it ends.

use crate::profile::{
    lemma_with_tags, parse_profile, preset_tags, tag_texts, with_tags, Feature, FuzzProfile,
};
use crate::text::lemma_push_contains;
use vstd::prelude::*;

verus! {

/// What a list of texts holds.
pub open spec fn texts(items: Seq<String>) -> Seq<Seq<char>> {
    items.map_values(|s: String| s@)
}

/// The profile of a preset with tags added, each with what it implies, and then tags taken away.
pub fn session_profile(preset: &str, enable: &[Feature], disable: &[String]) -> (profile:
    FuzzProfile)
    ensures
        profile@ == with_tags(preset_tags(preset@), tag_texts(enable@)).difference(
            texts(disable@).to_set(),
        ),
        forall|tag: Seq<char>| #[trigger]
            profile@.contains(tag) <==> !texts(disable@).contains(tag) && (preset_tags(
                preset@,
            ).contains(tag) || tag_texts(enable@).contains(tag) || tag == "copy"@ && tag_texts(
                enable@,
            ).contains("copy_extended"@)),
{
    let mut profile = parse_profile(preset);
    profile.enable_all(enable);
    let ghost wide = profile@;
    let mut k: usize = 0;
    assert(texts(disable@.take(0)).to_set() =~= Set::empty());
    assert(profile@ =~= wide.difference(texts(disable@.take(0)).to_set()));
    while k < disable.len()
        invariant
            k <= disable.len(),
            profile@ == wide.difference(texts(disable@.take(k as int)).to_set()),
        decreases disable.len() - k,
    {
        profile.disable(disable[k].as_str());
        proof {
            let before = texts(disable@.take(k as int));
            let after = texts(disable@.take(k + 1));
            assert(after =~= before.push(disable@[k as int]@));
            lemma_push_to_set(before, disable@[k as int]@);
            assert(profile@ =~= wide.difference(after.to_set()));
        }
        k += 1;
    }
    assert(disable@.take(k as int) =~= disable@);
    proof {
        lemma_with_tags(preset_tags(preset@), tag_texts(enable@));
    }
    profile
}

proof fn lemma_push_to_set(items: Seq<Seq<char>>, item: Seq<char>)
    ensures
        items.push(item).to_set() == items.to_set().insert(item),
{
    assert forall|t: Seq<char>| #[trigger]
        items.push(item).to_set().contains(t) <==> items.to_set().insert(item).contains(t) by {
        lemma_push_contains(items, item, t);
    }
    assert(items.push(item).to_set() =~= items.to_set().insert(item));
}

/// Whether progress is shown: after every hundred iterations and after the last.
pub fn progress_due(done: usize, total: usize) -> (due: bool)
    ensures
        due == (done % 100 == 0 || done == total),
        due <==> done == total || done == 100 * (done as int / 100),
{
    done % 100 == 0 || done == total
}

/// How the session ends: 1 if any divergence was found, 0 otherwise.
pub fn exit_code(divergences: usize) -> (code: i32)
    ensures
        code == if divergences > 0 {
            1int
        } else {
            0
        },
        code == 0 <==> divergences == 0,
{
    if divergences > 0 {
        1
    } else {
        0
    }
}

// ---------------------------------------------------------------------------
// Laws
// ---------------------------------------------------------------------------

/// A list of texts shows each of them, in order.
pub proof fn law_texts_seen_one_for_one(items: Seq<String>)
    ensures
        texts(items).len() == items.len(),
        forall|i: int| 0 <= i < items.len() ==> #[trigger] texts(items)[i] == items[i]@,
{
}

} // verus!
