//! Feature tags and the profiles that enable them.

use crate::text::{lemma_push_contains, text_equal};
use vstd::prelude::*;

verus! {

/// A feature tag. Any text will do; there is no closed list.
pub type Feature = &'static str;

pub const COPY: Feature = "copy";

pub const COPY_EXTENDED: Feature = "copy_extended";

pub const TRANSACTIONS: Feature = "transactions";

pub const SQL_PREPARE: Feature = "sql_prepare";

pub const PLPGSQL: Feature = "plpgsql";

pub const FUNCTION_CALL: Feature = "function_call";

pub const MULTI_STATEMENT: Feature = "multi_statement";

/// The texts of a list of tags.
pub open spec fn tag_texts(tags: Seq<&str>) -> Seq<Seq<char>> {
    tags.map_values(|t: &str| t@)
}

/// The built-in tags.
pub open spec fn built_in_tags() -> Seq<Seq<char>> {
    seq![
        COPY@,
        COPY_EXTENDED@,
        TRANSACTIONS@,
        SQL_PREPARE@,
        PLPGSQL@,
        FUNCTION_CALL@,
        MULTI_STATEMENT@,
    ]
}

/// All built-in feature tags.
pub fn all_tags() -> (tags: Vec<Feature>)
    ensures
        tag_texts(tags@) == built_in_tags(),
{
    let tags: Vec<Feature> = vec![
        COPY,
        COPY_EXTENDED,
        TRANSACTIONS,
        SQL_PREPARE,
        PLPGSQL,
        FUNCTION_CALL,
        MULTI_STATEMENT,
    ];
    assert(tag_texts(tags@) =~= built_in_tags());
    tags
}

/// The tags of the `minimal` preset.
pub open spec fn minimal_tags() -> Set<Seq<char>> {
    Set::empty()
}

/// The tags of the `standard` preset.
pub open spec fn standard_tags() -> Set<Seq<char>> {
    set![TRANSACTIONS@, COPY@, MULTI_STATEMENT@]
}

/// The tags of the `full` preset.
pub open spec fn full_tags() -> Set<Seq<char>> {
    built_in_tags().to_set()
}

/// The tags that a preset's name stands for; an unknown name stands for `minimal`.
pub open spec fn preset_tags(name: Seq<char>) -> Set<Seq<char>> {
    if name == "standard"@ {
        standard_tags()
    } else if name == "full"@ {
        full_tags()
    } else {
        minimal_tags()
    }
}

/// The tags with one more. COPY over the extended query path implies COPY over the simple one.
pub open spec fn with_tag(tags: Set<Seq<char>>, tag: Seq<char>) -> Set<Seq<char>> {
    if tag == COPY_EXTENDED@ {
        tags.insert(tag).insert(COPY@)
    } else {
        tags.insert(tag)
    }
}

/// The tags with those of a list, one after the other.
pub open spec fn with_tags(tags: Set<Seq<char>>, more: Seq<Seq<char>>) -> Set<Seq<char>>
    decreases more.len(),
{
    if more.len() == 0 {
        tags
    } else {
        with_tag(with_tags(tags, more.drop_last()), more.last())
    }
}

/// Controls which SQL templates the generator can draw from.
#[derive(Debug)]
pub struct FuzzProfile {
    enabled: Vec<Feature>,
}

impl View for FuzzProfile {
    type V = Set<Seq<char>>;

    /// The enabled tags.
    closed spec fn view(&self) -> Set<Seq<char>> {
        tag_texts(self.enabled@).to_set()
    }
}

impl Clone for FuzzProfile {
    fn clone(&self) -> (copy: FuzzProfile)
        ensures
            copy@ == self@,
    {
        proof {
            use_type_invariant(self);
        }
        let enabled = self.enabled.clone();
        assert(enabled@ =~= self.enabled@);
        FuzzProfile { enabled }
    }
}

impl FuzzProfile {
    /// No tag is held twice.
    #[verifier::type_invariant]
    spec fn distinct(self) -> bool {
        tag_texts(self.enabled@).no_duplicates()
    }

    /// Core protocol operations only. No optional features.
    pub fn minimal() -> (profile: FuzzProfile)
        ensures
            profile@ == minimal_tags(),
    {
        let enabled: Vec<Feature> = Vec::new();
        assert(tag_texts(enabled@).to_set() =~= minimal_tags());
        FuzzProfile { enabled }
    }

    /// Core operations, transactions, simple COPY and multi-statement queries.
    pub fn standard() -> (profile: FuzzProfile)
        ensures
            profile@ == standard_tags(),
    {
        let mut p = FuzzProfile::minimal();
        p.enable(TRANSACTIONS);
        p.enable(COPY);
        p.enable(MULTI_STATEMENT);
        assert(p@ =~= standard_tags());
        p
    }

    /// Everything enabled.
    pub fn full() -> (profile: FuzzProfile)
        ensures
            profile@ == full_tags(),
    {
        let mut p = FuzzProfile::minimal();
        let tags = all_tags();
        p.enable_all(tags.as_slice());
        proof {
            lemma_with_tags(minimal_tags(), built_in_tags());
            lemma_built_in();
            assert(p@ =~= full_tags());
        }
        p
    }

    /// Enables a tag, and what it implies: `copy_extended` enables `copy` too.
    pub fn enable(&mut self, tag: Feature)
        ensures
            final(self)@ == with_tag(old(self)@, tag@),
    {
        self.hold(tag);
        if text_equal(tag, COPY_EXTENDED) {
            self.hold(COPY);
        }
    }

    /// Enables each tag of a list, and what it implies.
    pub fn enable_all(&mut self, tags: &[Feature])
        ensures
            final(self)@ == with_tags(old(self)@, tag_texts(tags@)),
    {
        let ghost texts = tag_texts(tags@);
        let mut i: usize = 0;
        assert(texts.take(0) =~= seq![]);
        while i < tags.len()
            invariant
                i <= tags.len(),
                texts == tag_texts(tags@),
                self@ == with_tags(old(self)@, texts.take(i as int)),
            decreases tags.len() - i,
        {
            self.enable(tags[i]);
            proof {
                assert(texts.take(i + 1).drop_last() =~= texts.take(i as int));
                assert(texts.take(i + 1).last() == tags@[i as int]@);
            }
            i += 1;
        }
        assert(texts.take(i as int) =~= texts);
    }

    /// Takes in a single tag; nothing changes if it is enabled already.
    fn hold(&mut self, tag: Feature)
        ensures
            final(self)@ == old(self)@.insert(tag@),
    {
        proof {
            use_type_invariant(&*self);
        }
        if self.is_enabled(tag) {
            assert(self@ =~= self@.insert(tag@));
            return;
        }
        let ghost before = tag_texts(self.enabled@);
        let mut tags: Vec<Feature> = Vec::new();
        std::mem::swap(&mut tags, &mut self.enabled);
        tags.push(tag);
        proof {
            assert(tag_texts(tags@) =~= before.push(tag@));
            assert(before.push(tag@).to_set() =~= before.to_set().insert(tag@)) by {
                assert(before.push(tag@)[before.len() as int] == tag@);
                assert forall|t: Seq<char>| before.contains(t) implies before.push(
                    tag@,
                ).contains(t) by {
                    let k = before.index_of(t);
                    assert(before.push(tag@)[k] == t);
                }
            }
            assert(!before.contains(tag@));
        }
        self.enabled = tags;
    }

    /// Disables a tag and no other; nothing changes if it is not enabled. To disable `copy` keeps
    /// `copy_extended` as it is: what is asked for last holds.
    pub fn disable(&mut self, tag: &str)
        ensures
            final(self)@ == old(self)@.remove(tag@),
    {
        proof {
            use_type_invariant(&*self);
        }
        let ghost all = tag_texts(self.enabled@);
        let mut kept: Vec<Feature> = Vec::new();
        let mut i: usize = 0;
        while i < self.enabled.len()
            invariant
                i <= self.enabled@.len(),
                all == tag_texts(self.enabled@),
                all.no_duplicates(),
                tag_texts(kept@).no_duplicates(),
                forall|t: Seq<char>|
                    tag_texts(kept@).contains(t) <==> t != tag@ && all.take(i as int).contains(t),
            decreases self.enabled@.len() - i,
        {
            let current = self.enabled[i];
            let ghost before = tag_texts(kept@);
            let same = text_equal(current, tag);
            if !same {
                kept.push(current);
            }
            proof {
                let x = all[i as int];
                assert(x == current@);
                assert(!all.take(i as int).contains(x)) by {
                    if all.take(i as int).contains(x) {
                        let k = all.take(i as int).index_of(x);
                        assert(all[k] == all[i as int]);
                    }
                }
                assert(all.take(i + 1) =~= all.take(i as int).push(x));
                assert forall|t: Seq<char>| all.take(i + 1).contains(t) <==> (all.take(
                    i as int,
                ).contains(t) || t == x) by {
                    lemma_push_contains(all.take(i as int), x, t);
                }
                if !same {
                    assert(tag_texts(kept@) =~= before.push(x));
                    assert forall|t: Seq<char>| tag_texts(kept@).contains(t) <==> (
                    before.contains(t) || t == x) by {
                        lemma_push_contains(before, x, t);
                    }
                    assert(!before.contains(x));
                }
                assert forall|t: Seq<char>| tag_texts(kept@).contains(t) <==> t != tag@
                    && all.take(i + 1).contains(t) by {
                    assert(before.contains(t) <==> t != tag@ && all.take(i as int).contains(t));
                }
            }
            i += 1;
        }
        assert(all.take(i as int) =~= all);
        assert(tag_texts(kept@).to_set() =~= all.to_set().remove(tag@));
        self.enabled = kept;
    }

    /// Whether a tag is enabled.
    pub fn is_enabled(&self, tag: &str) -> (enabled: bool)
        ensures
            enabled == self@.contains(tag@),
    {
        let mut i: usize = 0;
        while i < self.enabled.len()
            invariant
                i <= self.enabled@.len(),
                forall|j: int| 0 <= j < i ==> self.enabled@[j]@ != tag@,
            decreases self.enabled@.len() - i,
        {
            if text_equal(self.enabled[i], tag) {
                assert(tag_texts(self.enabled@)[i as int] == tag@);
                return true;
            }
            i += 1;
        }
        proof {
            if tag_texts(self.enabled@).contains(tag@) {
                let k = tag_texts(self.enabled@).index_of(tag@);
                assert(self.enabled@[k]@ == tag@);
            }
        }
        false
    }

    /// Whether all of the given tags are enabled. An empty slice always gives true.
    pub fn all_enabled(&self, tags: &[Feature]) -> (enabled: bool)
        ensures
            enabled == all_in(tag_texts(tags@), self@),
    {
        let mut i: usize = 0;
        while i < tags.len()
            invariant
                i <= tags.len(),
                forall|j: int| 0 <= j < i ==> self@.contains(tags@[j]@),
            decreases tags.len() - i,
        {
            if !self.is_enabled(tags[i]) {
                assert(!self@.contains(tag_texts(tags@)[i as int]));
                return false;
            }
            i += 1;
        }
        true
    }
}

/// Every one of the tags is in the set.
pub open spec fn all_in(tags: Seq<Seq<char>>, enabled: Set<Seq<char>>) -> bool {
    forall|i: int| 0 <= i < tags.len() ==> enabled.contains(#[trigger] tags[i])
}

/// Whether a name is that of a preset.
pub fn is_preset(name: &str) -> (known: bool)
    ensures
        known == (name@ == "minimal"@ || name@ == "standard"@ || name@ == "full"@),
{
    text_equal(name, "minimal") || text_equal(name, "standard") || text_equal(name, "full")
}

/// The profile of a preset; an unknown name gives `minimal`.
pub fn parse_profile(name: &str) -> (profile: FuzzProfile)
    ensures
        profile@ == preset_tags(name@),
{
    if text_equal(name, "standard") {
        FuzzProfile::standard()
    } else if text_equal(name, "full") {
        FuzzProfile::full()
    } else {
        FuzzProfile::minimal()
    }
}

/// Enabling the tags of a list enables those tags, keeps what was enabled, and adds `copy` where
/// `copy_extended` is among them.
pub(crate) proof fn lemma_with_tags(tags: Set<Seq<char>>, more: Seq<Seq<char>>)
    ensures
        forall|t: Seq<char>| #[trigger]
            with_tags(tags, more).contains(t) <==> tags.contains(t) || more.contains(t) || (t
                == COPY@ && more.contains(COPY_EXTENDED@)),
    decreases more.len(),
{
    if more.len() > 0 {
        let before = more.drop_last();
        lemma_with_tags(tags, before);
        assert(more =~= before.push(more.last()));
        assert forall|t: Seq<char>| #[trigger]
            with_tags(tags, more).contains(t) <==> tags.contains(t) || more.contains(t) || (t
                == COPY@ && more.contains(COPY_EXTENDED@)) by {
            assert(with_tags(tags, before).contains(t) <==> tags.contains(t) || before.contains(t)
                || (t == COPY@ && before.contains(COPY_EXTENDED@)));
            lemma_push_contains(before, more.last(), t);
            lemma_push_contains(before, more.last(), COPY_EXTENDED@);
        }
    }
}

// ---------------------------------------------------------------------------
// Laws
// ---------------------------------------------------------------------------

/// Where COPY over the extended query path is enabled, COPY over the simple one is enabled with
/// it, whatever was enabled before.
pub proof fn law_copy_extended_implies_copy(tags: Set<Seq<char>>, more: Seq<Seq<char>>)
    requires
        more.contains(COPY_EXTENDED@),
    ensures
        with_tags(tags, more).contains(COPY_EXTENDED@),
        with_tags(tags, more).contains(COPY@),
{
    lemma_with_tags(tags, more);
}

/// Enabling a tag takes nothing away, and enabling it again changes nothing.
pub proof fn law_enabling_only_adds(tags: Set<Seq<char>>, tag: Seq<char>)
    ensures
        tags.subset_of(with_tag(tags, tag)),
        with_tag(tags, tag).contains(tag),
        with_tag(with_tag(tags, tag), tag) == with_tag(tags, tag),
{
    assert(with_tag(with_tag(tags, tag), tag) =~= with_tag(tags, tag));
}

pub(crate) proof fn lemma_built_in()
    ensures
        full_tags().contains(COPY@),
        full_tags().contains(COPY_EXTENDED@),
        full_tags().contains(TRANSACTIONS@),
        full_tags().contains(SQL_PREPARE@),
        full_tags().contains(PLPGSQL@),
        full_tags().contains(FUNCTION_CALL@),
        full_tags().contains(MULTI_STATEMENT@),
{
    let tags = built_in_tags();
    assert(tags[0] == COPY@);
    assert(tags[1] == COPY_EXTENDED@);
    assert(tags[2] == TRANSACTIONS@);
    assert(tags[3] == SQL_PREPARE@);
    assert(tags[4] == PLPGSQL@);
    assert(tags[5] == FUNCTION_CALL@);
    assert(tags[6] == MULTI_STATEMENT@);
}

/// Each preset enables what the one before it enables, and `full` enables every built-in tag.
pub proof fn law_presets_grow()
    ensures
        minimal_tags().subset_of(standard_tags()),
        standard_tags().subset_of(full_tags()),
        all_in(built_in_tags(), full_tags()),
{
    lemma_built_in();
    assert forall|i: int| 0 <= i < built_in_tags().len() implies full_tags().contains(
        #[trigger] built_in_tags()[i],
    ) by {
        assert(built_in_tags().contains(built_in_tags()[i]));
    }
}

/// A list without tags is always enabled, and more tags never take anything away.
pub proof fn law_more_tags_enable_more(
    wanted: Seq<Seq<char>>,
    tags: Set<Seq<char>>,
    more: Set<Seq<char>>,
)
    requires
        tags.subset_of(more),
    ensures
        wanted.len() == 0 ==> all_in(wanted, tags),
        all_in(wanted, tags) ==> all_in(wanted, more),
{
}

/// Enabling a tag adds just that tag, and `copy` with `copy_extended`.
pub proof fn law_enabling_adds_just_the_tag(
    tags: Set<Seq<char>>,
    tag: Seq<char>,
    other: Seq<char>,
)
    ensures
        with_tag(tags, tag).contains(other) <==> tags.contains(other) || other == tag || (tag
            == "copy_extended"@ && other == "copy"@),
{
}

/// Enabling the tags of a list adds just those tags, and `copy` where `copy_extended` is among
/// them, in whatever order they come.
pub proof fn law_enabling_a_list_adds_just_its_tags(
    tags: Set<Seq<char>>,
    more: Seq<Seq<char>>,
    other: Seq<char>,
)
    ensures
        with_tags(tags, more).contains(other) <==> tags.contains(other) || more.contains(other)
            || (more.contains("copy_extended"@) && other == "copy"@),
{
    lemma_with_tags(tags, more);
}

/// The `minimal` preset enables nothing, `standard` enables transactions, COPY and several
/// statements in one query, and `full` enables each of the seven built-in tags; a name that is no
/// preset's enables nothing.
pub proof fn law_what_presets_enable(tag: Seq<char>, name: Seq<char>)
    ensures
        !preset_tags("minimal"@).contains(tag),
        preset_tags("standard"@).contains(tag) <==> tag == "transactions"@ || tag == "copy"@
            || tag == "multi_statement"@,
        preset_tags("full"@).contains(tag) <==> tag == "copy"@ || tag == "copy_extended"@ || tag
            == "transactions"@ || tag == "sql_prepare"@ || tag == "plpgsql"@ || tag
            == "function_call"@ || tag == "multi_statement"@,
        name != "standard"@ && name != "full"@ ==> !preset_tags(name).contains(tag),
{
    reveal_strlit("minimal");
    reveal_strlit("standard");
    reveal_strlit("full");
    assert("minimal"@.len() == 7 && "standard"@.len() == 8 && "full"@.len() == 4);
    lemma_built_in();
    if full_tags().contains(tag) {
        let i = choose|i: int| 0 <= i < built_in_tags().len() && built_in_tags()[i] == tag;
        assert(built_in_tags()[i] == tag);
    }
}

/// A list of tags is enabled exactly where each tag of it is.
pub proof fn law_list_enabled_iff_each_tag_is(tags: Seq<Seq<char>>, enabled: Set<Seq<char>>)
    ensures
        all_in(tags, enabled) <==> forall|t: Seq<char>| #[trigger]
            tags.contains(t) ==> enabled.contains(t),
{
    if forall|t: Seq<char>| #[trigger] tags.contains(t) ==> enabled.contains(t) {
        assert forall|i: int| 0 <= i < tags.len() implies enabled.contains(#[trigger] tags[i]) by {
            assert(tags.contains(tags[i]));
        }
    }
    if all_in(tags, enabled) {
        assert forall|t: Seq<char>| #[trigger] tags.contains(t) implies enabled.contains(t) by {
            let i = choose|i: int| 0 <= i < tags.len() && tags[i] == t;
            assert(enabled.contains(tags[i]));
        }
    }
}

/// A list of tags shows the text of each, in order.
pub proof fn law_tags_seen_one_for_one(tags: Seq<&str>)
    ensures
        tag_texts(tags).len() == tags.len(),
        forall|i: int| 0 <= i < tags.len() ==> #[trigger] tag_texts(tags)[i] == tags[i]@,
{
}

/// The built-in tags, in order.
pub proof fn law_built_in_tags_in_order()
    ensures
        built_in_tags().len() == 7,
        built_in_tags()[0] == "copy"@,
        built_in_tags()[1] == "copy_extended"@,
        built_in_tags()[2] == "transactions"@,
        built_in_tags()[3] == "sql_prepare"@,
        built_in_tags()[4] == "plpgsql"@,
        built_in_tags()[5] == "function_call"@,
        built_in_tags()[6] == "multi_statement"@,
{
}

} // verus!
