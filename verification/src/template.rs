//! The registry of SQL templates.

use crate::profile::{
    all_in, full_tags, lemma_built_in, minimal_tags, tag_texts, with_tag, Feature, FuzzProfile,
    COPY, COPY_EXTENDED, MULTI_STATEMENT, PLPGSQL, SQL_PREPARE, TRANSACTIONS,
};
use crate::text::{lemma_push_contains, text_equal};
use vstd::prelude::*;

verus! {

/// Which protocol path a template is designed for.
#[derive(Debug, Clone, Copy, PartialEq, Eq, Structural)]
pub enum Affinity {
    /// Works in both simple and extended query paths.
    Any,
    /// Designed for simple query.
    Simple,
    /// Designed for extended query.
    Extended,
}

/// A SQL template.
#[derive(Debug, Clone, Copy)]
pub struct SqlEntry {
    pub sql: &'static str,
    pub affinity: Affinity,
    /// All of these tags must be enabled for the template to be drawn.
    pub requires: &'static [Feature],
    /// Number of bind parameters.
    pub param_count: usize,
    /// SQL to run once per connection before the template can be used.
    pub setup: &'static [&'static str],
}

/// What a template holds.
pub struct TemplateModel {
    pub sql: Seq<char>,
    pub affinity: Affinity,
    pub requires: Seq<Seq<char>>,
    pub param_count: usize,
    pub setup: Seq<Seq<char>>,
}

impl View for SqlEntry {
    type V = TemplateModel;

    open spec fn view(&self) -> TemplateModel {
        TemplateModel {
            sql: self.sql@,
            affinity: self.affinity,
            requires: tag_texts(self.requires@),
            param_count: self.param_count,
            setup: tag_texts(self.setup@),
        }
    }
}

/// What a list of templates holds.
pub open spec fn template_models(entries: Seq<SqlEntry>) -> Seq<TemplateModel> {
    entries.map_values(|e: SqlEntry| e@)
}

/// A template without parameters that needs no setup.
pub open spec fn plain_model(
    sql: Seq<char>,
    affinity: Affinity,
    tags: Seq<Seq<char>>,
) -> TemplateModel {
    TemplateModel { sql, affinity, requires: tags, param_count: 0, setup: seq![] }
}

/// The table that the COPY-in templates write to.
pub open spec fn copy_table() -> Seq<char> {
    "CREATE TABLE IF NOT EXISTS copy_test (id int)"@
}

/// The full template registry.
pub open spec fn registry() -> Seq<TemplateModel> {
    seq![
        plain_model("SELECT 1"@, Affinity::Any, seq![]),
        TemplateModel {
            sql: "SELECT $1::int"@,
            affinity: Affinity::Extended,
            requires: seq![],
            param_count: 1,
            setup: seq![],
        },
        TemplateModel {
            sql: "SELECT $1::int, $2::text"@,
            affinity: Affinity::Extended,
            requires: seq![],
            param_count: 2,
            setup: seq![],
        },
        plain_model("SELECT * FROM pg_type LIMIT 5"@, Affinity::Any, seq![]),
        plain_model("SLECT 1"@, Affinity::Any, seq![]),
        plain_model("SELECT 1/0"@, Affinity::Any, seq![]),
        plain_model("SELECT 1; SELECT 2"@, Affinity::Simple, seq![MULTI_STATEMENT@]),
        plain_model("BEGIN"@, Affinity::Any, seq![TRANSACTIONS@]),
        plain_model("COMMIT"@, Affinity::Any, seq![TRANSACTIONS@]),
        plain_model("ROLLBACK"@, Affinity::Any, seq![TRANSACTIONS@]),
        plain_model("COPY (SELECT 1) TO STDOUT"@, Affinity::Simple, seq![COPY@]),
        TemplateModel {
            sql: "COPY copy_test FROM STDIN"@,
            affinity: Affinity::Simple,
            requires: seq![COPY@],
            param_count: 0,
            setup: seq![copy_table()],
        },
        plain_model("COPY (SELECT 1) TO STDOUT"@, Affinity::Extended, seq![COPY_EXTENDED@]),
        TemplateModel {
            sql: "COPY copy_test FROM STDIN"@,
            affinity: Affinity::Extended,
            requires: seq![COPY_EXTENDED@],
            param_count: 0,
            setup: seq![copy_table()],
        },
        plain_model("DO $$ BEGIN RAISE NOTICE 'hi'; END $$"@, Affinity::Any, seq![PLPGSQL@]),
        plain_model("PREPARE fuzz_stmt AS SELECT 1"@, Affinity::Simple, seq![SQL_PREPARE@]),
        plain_model("DEALLOCATE fuzz_stmt"@, Affinity::Simple, seq![SQL_PREPARE@]),
        plain_model("EXECUTE fuzz_stmt"@, Affinity::Simple, seq![SQL_PREPARE@]),
        plain_model("DEALLOCATE ALL"@, Affinity::Simple, seq![SQL_PREPARE@]),
    ]
}

/// The templates whose required tags are all in the set, in order.
pub open spec fn enabled_models(
    entries: Seq<TemplateModel>,
    tags: Set<Seq<char>>,
) -> Seq<TemplateModel> {
    entries.filter(|t: TemplateModel| all_in(t.requires, tags))
}

/// The setup statements of the templates, one template after the other.
pub open spec fn setup_texts(entries: Seq<TemplateModel>) -> Seq<Seq<char>>
    decreases entries.len(),
{
    if entries.len() == 0 {
        seq![]
    } else {
        setup_texts(entries.drop_last()) + entries.last().setup
    }
}

/// The first occurrence of each item, in order.
pub open spec fn first_occurrences(items: Seq<Seq<char>>) -> Seq<Seq<char>>
    decreases items.len(),
{
    if items.len() == 0 {
        seq![]
    } else {
        let before = first_occurrences(items.drop_last());
        if before.contains(items.last()) {
            before
        } else {
            before.push(items.last())
        }
    }
}

/// A template that needs no tag and no setup.
fn untagged(sql: &'static str, affinity: Affinity, param_count: usize) -> (entry: SqlEntry)
    ensures
        entry@ == (TemplateModel {
            sql: sql@,
            affinity,
            requires: seq![],
            param_count,
            setup: seq![],
        }),
{
    let entry = SqlEntry { sql, affinity, requires: &[], param_count, setup: &[] };
    assert(entry@.requires =~= seq![]);
    assert(entry@.setup =~= seq![]);
    entry
}

/// A template behind tags.
fn tagged(
    sql: &'static str,
    affinity: Affinity,
    tags: &'static [Feature],
    setup: &'static [&'static str],
) -> (entry: SqlEntry)
    ensures
        entry@ == (TemplateModel {
            sql: sql@,
            affinity,
            requires: tag_texts(tags@),
            param_count: 0,
            setup: tag_texts(setup@),
        }),
{
    SqlEntry { sql, affinity, requires: tags, param_count: 0, setup }
}

/// All templates.
pub fn templates() -> (entries: Vec<SqlEntry>)
    ensures
        template_models(entries@) == registry(),
{
    let entries = vec![
        // Core
        untagged("SELECT 1", Affinity::Any, 0),
        untagged("SELECT $1::int", Affinity::Extended, 1),
        untagged("SELECT $1::int, $2::text", Affinity::Extended, 2),
        untagged("SELECT * FROM pg_type LIMIT 5", Affinity::Any, 0),
        // Parse error
        untagged("SLECT 1", Affinity::Any, 0),
        // Runtime error
        untagged("SELECT 1/0", Affinity::Any, 0),
        tagged("SELECT 1; SELECT 2", Affinity::Simple, &[MULTI_STATEMENT], &[]),
        tagged("BEGIN", Affinity::Any, &[TRANSACTIONS], &[]),
        tagged("COMMIT", Affinity::Any, &[TRANSACTIONS], &[]),
        tagged("ROLLBACK", Affinity::Any, &[TRANSACTIONS], &[]),
        // COPY over the simple query path
        tagged("COPY (SELECT 1) TO STDOUT", Affinity::Simple, &[COPY], &[]),
        tagged(
            "COPY copy_test FROM STDIN",
            Affinity::Simple,
            &[COPY],
            &["CREATE TABLE IF NOT EXISTS copy_test (id int)"],
        ),
        // COPY over the extended query path
        tagged("COPY (SELECT 1) TO STDOUT", Affinity::Extended, &[COPY_EXTENDED], &[]),
        tagged(
            "COPY copy_test FROM STDIN",
            Affinity::Extended,
            &[COPY_EXTENDED],
            &["CREATE TABLE IF NOT EXISTS copy_test (id int)"],
        ),
        tagged("DO $$ BEGIN RAISE NOTICE 'hi'; END $$", Affinity::Any, &[PLPGSQL], &[]),
        tagged("PREPARE fuzz_stmt AS SELECT 1", Affinity::Simple, &[SQL_PREPARE], &[]),
        tagged("DEALLOCATE fuzz_stmt", Affinity::Simple, &[SQL_PREPARE], &[]),
        tagged("EXECUTE fuzz_stmt", Affinity::Simple, &[SQL_PREPARE], &[]),
        tagged("DEALLOCATE ALL", Affinity::Simple, &[SQL_PREPARE], &[]),
    ];
    proof {
        let models = template_models(entries@);
        assert forall|i: int| 0 <= i < models.len() implies models[i] == registry()[i] by {
            assert(models[i].requires =~= registry()[i].requires);
            assert(models[i].setup =~= registry()[i].setup);
        }
        assert(models =~= registry());
    }
    entries
}

/// Returns all templates whose required tags are enabled in the profile.
pub fn enabled_templates(profile: &FuzzProfile) -> (entries: Vec<SqlEntry>)
    ensures
        template_models(entries@) == enabled_models(registry(), profile@),
{
    let all = templates();
    let mut entries: Vec<SqlEntry> = Vec::new();
    let mut i: usize = 0;
    assert(registry().take(0) =~= seq![]);
    assert(enabled_models(registry().take(0), profile@) =~= seq![]) by {
        reveal_with_fuel(Seq::filter, 1);
    }
    assert(template_models(entries@) =~= seq![]);
    while i < all.len()
        invariant
            i <= all.len(),
            template_models(all@) == registry(),
            template_models(entries@) == enabled_models(registry().take(i as int), profile@),
        decreases all.len() - i,
    {
        let entry = all[i];
        let ghost before = entries@;
        let keep = profile.all_enabled(entry.requires);
        if keep {
            entries.push(entry);
        }
        proof {
            reveal_with_fuel(Seq::filter, 1);
            let upto = registry().take(i + 1);
            assert(upto.drop_last() =~= registry().take(i as int));
            assert(upto.last() == entry@) by {
                assert(registry()[i as int] == template_models(all@)[i as int]);
            }
            if keep {
                assert(template_models(entries@) =~= template_models(before).push(entry@));
            }
        }
        i += 1;
    }
    assert(registry().take(i as int) =~= registry());
    entries
}

/// Whether a text is among those in a list.
fn holds_text(list: &Vec<&'static str>, text: &str) -> (found: bool)
    ensures
        found == tag_texts(list@).contains(text@),
{
    let mut i: usize = 0;
    while i < list.len()
        invariant
            i <= list.len(),
            forall|j: int| 0 <= j < i ==> list@[j]@ != text@,
        decreases list.len() - i,
    {
        if text_equal(list[i], text) {
            assert(tag_texts(list@)[i as int] == text@);
            return true;
        }
        i += 1;
    }
    false
}

/// Returns deduplicated setup SQL from all enabled templates.
pub fn setup_sql(profile: &FuzzProfile) -> (statements: Vec<&'static str>)
    ensures
        tag_texts(statements@) == first_occurrences(
            setup_texts(enabled_models(registry(), profile@)),
        ),
{
    let entries = enabled_templates(profile);
    let ghost models = template_models(entries@);
    let mut result: Vec<&'static str> = Vec::new();
    let mut i: usize = 0;
    assert(models.take(0) =~= seq![]);
    assert(tag_texts(result@) =~= seq![]);
    while i < entries.len()
        invariant
            i <= entries.len(),
            models == template_models(entries@),
            tag_texts(result@) == first_occurrences(setup_texts(models.take(i as int))),
        decreases entries.len() - i,
    {
        let setup = entries[i].setup;
        let ghost earlier = setup_texts(models.take(i as int));
        let ghost texts = tag_texts(setup@);
        let mut j: usize = 0;
        assert(earlier + texts.take(0) =~= earlier);
        while j < setup.len()
            invariant
                j <= setup.len(),
                texts == tag_texts(setup@),
                tag_texts(result@) == first_occurrences(earlier + texts.take(j as int)),
            decreases setup.len() - j,
        {
            let ghost before = result@;
            let seen = holds_text(&result, setup[j]);
            if !seen {
                result.push(setup[j]);
            }
            proof {
                let upto = earlier + texts.take(j + 1);
                assert(upto.drop_last() =~= earlier + texts.take(j as int));
                assert(upto.last() == setup@[j as int]@);
                if !seen {
                    assert(tag_texts(result@) =~= tag_texts(before).push(setup@[j as int]@));
                }
            }
            j += 1;
        }
        proof {
            assert(texts.take(j as int) =~= texts);
            assert(models.take(i + 1).drop_last() =~= models.take(i as int));
            assert(models.take(i + 1).last() == entries@[i as int]@);
        }
        i += 1;
    }
    assert(models.take(i as int) =~= models);
    result
}

// ---------------------------------------------------------------------------
// Laws
// ---------------------------------------------------------------------------

/// The core templates, which need no tag, are enabled in every profile.
pub proof fn law_core_always_enabled(tags: Set<Seq<char>>)
    ensures
        enabled_models(registry(), tags).len() > 0,
        forall|i: int|
            0 <= i < registry().len() && (#[trigger] registry()[i]).requires.len() == 0
                ==> enabled_models(registry(), tags).contains(registry()[i]),
{
    let wanted = |t: TemplateModel| all_in(t.requires, tags);
    assert forall|i: int|
        0 <= i < registry().len() && (#[trigger] registry()[i]).requires.len()
            == 0 implies enabled_models(registry(), tags).contains(registry()[i]) by {
        assert(wanted(registry()[i]));
        registry().lemma_filter_contains(wanted, i);
    }
    assert(registry()[0].requires.len() == 0);
    assert(enabled_models(registry(), tags).contains(registry()[0]));
}

/// With no tag enabled, only templates that need none are drawn from.
pub proof fn law_minimal_needs_nothing(i: int)
    requires
        0 <= i < enabled_models(registry(), minimal_tags()).len(),
    ensures
        enabled_models(registry(), minimal_tags())[i].requires.len() == 0,
{
    let wanted = |t: TemplateModel| all_in(t.requires, minimal_tags());
    registry().lemma_filter_pred(wanted, i);
    let entry = enabled_models(registry(), minimal_tags())[i];
    if entry.requires.len() > 0 {
        assert(minimal_tags().contains(entry.requires[0]));
    }
}

/// With all built-in tags enabled, the whole registry is drawn from.
pub proof fn law_full_enables_all()
    ensures
        enabled_models(registry(), full_tags()) == registry(),
{
    lemma_built_in();
    let wanted = |t: TemplateModel| all_in(t.requires, full_tags());
    assert forall|i: int| 0 <= i < registry().len() implies wanted(#[trigger] registry()[i]) by {
        assert(registry()[i].requires.len() <= 1);
    }
    lemma_filter_all(registry(), wanted);
}

proof fn lemma_filter_all(entries: Seq<TemplateModel>, wanted: spec_fn(TemplateModel) -> bool)
    requires
        forall|i: int| 0 <= i < entries.len() ==> wanted(#[trigger] entries[i]),
    ensures
        entries.filter(wanted) == entries,
    decreases entries.len(),
{
    reveal_with_fuel(Seq::filter, 1);
    if entries.len() > 0 {
        let before = entries.drop_last();
        assert forall|i: int| 0 <= i < before.len() implies wanted(#[trigger] before[i]) by {
            assert(wanted(entries[i]));
        }
        lemma_filter_all(before, wanted);
        assert(wanted(entries[entries.len() - 1]));
        assert(before.push(entries.last()) =~= entries);
    } else {
        assert(entries.filter(wanted) =~= entries);
    }
}

/// A template is enabled exactly where all of its tags are.
pub proof fn law_enabled_iff_tags_enabled(
    entries: Seq<TemplateModel>,
    tags: Set<Seq<char>>,
    entry: TemplateModel,
)
    ensures
        enabled_models(entries, tags).contains(entry) <==> entries.contains(entry) && all_in(
            entry.requires,
            tags,
        ),
{
    let wanted = |t: TemplateModel| all_in(t.requires, tags);
    let kept = enabled_models(entries, tags);
    if kept.contains(entry) {
        let i = choose|i: int| 0 <= i < kept.len() && kept[i] == entry;
        entries.lemma_filter_pred(wanted, i);
        lemma_filter_adds_nothing(entries, wanted, i);
    }
    if entries.contains(entry) && all_in(entry.requires, tags) {
        let i = choose|i: int| 0 <= i < entries.len() && entries[i] == entry;
        assert(wanted(entries[i]));
        entries.lemma_filter_contains(wanted, i);
    }
}

proof fn lemma_filter_adds_nothing(
    entries: Seq<TemplateModel>,
    wanted: spec_fn(TemplateModel) -> bool,
    i: int,
)
    requires
        0 <= i < entries.filter(wanted).len(),
    ensures
        entries.contains(entries.filter(wanted)[i]),
    decreases entries.len(),
{
    reveal_with_fuel(Seq::filter, 1);
    if entries.len() > 0 {
        let before = entries.drop_last();
        if i < before.filter(wanted).len() {
            lemma_filter_adds_nothing(before, wanted, i);
            let item = before.filter(wanted)[i];
            let k = choose|k: int| 0 <= k < before.len() && before[k] == item;
            assert(entries[k] == item);
        } else {
            assert(entries[entries.len() - 1] == entries.filter(wanted)[i]);
        }
    }
}

/// Enabling more tags never takes a template away.
pub proof fn law_more_tags_more_templates(
    entries: Seq<TemplateModel>,
    tags: Set<Seq<char>>,
    more: Set<Seq<char>>,
    entry: TemplateModel,
)
    requires
        tags.subset_of(more),
        enabled_models(entries, tags).contains(entry),
    ensures
        enabled_models(entries, more).contains(entry),
{
    law_enabled_iff_tags_enabled(entries, tags, entry);
    law_enabled_iff_tags_enabled(entries, more, entry);
}

/// Enabling COPY over the extended query path enables the templates for both paths.
pub proof fn law_extended_copy_enables_both(tags: Set<Seq<char>>, entry: TemplateModel)
    requires
        registry().contains(entry),
        entry.requires == seq![COPY@] || entry.requires == seq![COPY_EXTENDED@],
    ensures
        enabled_models(registry(), with_tag(tags, COPY_EXTENDED@)).contains(entry),
{
    let more = with_tag(tags, COPY_EXTENDED@);
    assert(all_in(entry.requires, more));
    law_enabled_iff_tags_enabled(registry(), more, entry);
}

/// Each setup statement is listed once, and those listed are those of the templates.
pub proof fn law_setup_listed_once(items: Seq<Seq<char>>)
    ensures
        first_occurrences(items).no_duplicates(),
        first_occurrences(items).to_set() == items.to_set(),
    decreases items.len(),
{
    let listed = first_occurrences(items);
    if items.len() == 0 {
        assert(listed.to_set() =~= items.to_set());
    } else {
        let before = items.drop_last();
        law_setup_listed_once(before);
        let earlier = first_occurrences(before);
        assert(earlier.to_set() =~= before.to_set());
        assert(items =~= before.push(items.last()));
        assert forall|t: Seq<char>| #[trigger] listed.to_set().contains(t)
            <==> items.to_set().contains(t) by {
            assert(earlier.to_set().contains(t) <==> before.to_set().contains(t));
            lemma_push_contains(before, items.last(), t);
            lemma_push_contains(earlier, items.last(), t);
        }
        assert(listed.to_set() =~= items.to_set());
    }
}

/// What the templates ask of a server, in the order in which they are drawn from.
pub proof fn law_templates_in_order()
    ensures
        registry().len() == 19,
        registry()[0].sql == "SELECT 1"@,
        registry()[1].sql == "SELECT $1::int"@,
        registry()[2].sql == "SELECT $1::int, $2::text"@,
        registry()[3].sql == "SELECT * FROM pg_type LIMIT 5"@,
        registry()[4].sql == "SLECT 1"@,
        registry()[5].sql == "SELECT 1/0"@,
        registry()[6].sql == "SELECT 1; SELECT 2"@,
        registry()[7].sql == "BEGIN"@,
        registry()[8].sql == "COMMIT"@,
        registry()[9].sql == "ROLLBACK"@,
        registry()[10].sql == "COPY (SELECT 1) TO STDOUT"@,
        registry()[11].sql == "COPY copy_test FROM STDIN"@,
        registry()[12].sql == "COPY (SELECT 1) TO STDOUT"@,
        registry()[13].sql == "COPY copy_test FROM STDIN"@,
        registry()[14].sql == "DO $$ BEGIN RAISE NOTICE 'hi'; END $$"@,
        registry()[15].sql == "PREPARE fuzz_stmt AS SELECT 1"@,
        registry()[16].sql == "DEALLOCATE fuzz_stmt"@,
        registry()[17].sql == "EXECUTE fuzz_stmt"@,
        registry()[18].sql == "DEALLOCATE ALL"@,
{
}

/// The six templates at the front need no tag. Each template behind them needs one tag, that of the
/// feature that its SQL uses.
pub proof fn law_templates_need_the_tag_of_their_feature(i: int)
    requires
        0 <= i < registry().len(),
    ensures
        i < 6 ==> registry()[i].requires.len() == 0,
        i >= 6 ==> registry()[i].requires.len() == 1,
        i == 6 ==> registry()[i].requires[0] == "multi_statement"@,
        7 <= i < 10 ==> registry()[i].requires[0] == "transactions"@,
        10 <= i < 12 ==> registry()[i].requires[0] == "copy"@,
        12 <= i < 14 ==> registry()[i].requires[0] == "copy_extended"@,
        i == 14 ==> registry()[i].requires[0] == "plpgsql"@,
        i >= 15 ==> registry()[i].requires[0] == "sql_prepare"@,
{
}

/// What takes parameters, and COPY over the extended path, is for the extended path alone. Several
/// statements in one query, COPY and prepared statements in SQL are for simple queries alone, and
/// what is left is for both. `SELECT $1::int` takes one parameter, `SELECT $1::int, $2::text` takes
/// two, and the others take none; copying into a table is all that needs a table to be there.
pub proof fn law_templates_fit_their_path(i: int)
    requires
        0 <= i < registry().len(),
    ensures
        registry()[i].affinity == Affinity::Extended <==> i == 1 || i == 2 || i == 12 || i == 13,
        registry()[i].affinity == Affinity::Simple <==> i == 6 || i == 10 || i == 11 || i >= 15,
        registry()[i].param_count == if i == 1 {
            1int
        } else if i == 2 {
            2
        } else {
            0
        },
        registry()[i].setup == if i == 11 || i == 13 {
            seq!["CREATE TABLE IF NOT EXISTS copy_test (id int)"@]
        } else {
            seq![]
        },
{
}

/// Templates are enabled one for one and in order: a further template is the last one enabled where
/// each tag that it needs is there, and changes nothing otherwise.
pub proof fn law_templates_enabled_in_order(
    entries: Seq<TemplateModel>,
    entry: TemplateModel,
    tags: Set<Seq<char>>,
)
    ensures
        enabled_models(seq![], tags) == Seq::<TemplateModel>::empty(),
        (forall|i: int|
            0 <= i < entry.requires.len() ==> tags.contains(#[trigger] entry.requires[i]))
            ==> enabled_models(entries.push(entry), tags) == enabled_models(entries, tags).push(
            entry,
        ),
        (exists|i: int|
            0 <= i < entry.requires.len() && !tags.contains(#[trigger] entry.requires[i]))
            ==> enabled_models(entries.push(entry), tags) == enabled_models(entries, tags),
{
    reveal_with_fuel(Seq::filter, 1);
    assert(entries.push(entry).drop_last() =~= entries);
}

/// The setup of templates is that of each of them, in order, each statement where it comes up
/// first.
pub proof fn law_setup_in_order(
    entries: Seq<TemplateModel>,
    entry: TemplateModel,
    items: Seq<Seq<char>>,
    item: Seq<char>,
)
    ensures
        setup_texts(seq![]) == Seq::<Seq<char>>::empty(),
        setup_texts(entries.push(entry)) == setup_texts(entries) + entry.setup,
        first_occurrences(seq![]) == Seq::<Seq<char>>::empty(),
        items.contains(item) ==> first_occurrences(items.push(item)) == first_occurrences(items),
        !items.contains(item) ==> first_occurrences(items.push(item)) == first_occurrences(
            items,
        ).push(item),
{
    assert(entries.push(entry).drop_last() =~= entries);
    assert(items.push(item).drop_last() =~= items);
    law_setup_listed_once(items);
    assert(first_occurrences(items).to_set().contains(item) <==> items.to_set().contains(item));
}

/// A list of templates shows each of them, in order, with all that it holds.
pub proof fn law_templates_seen_one_for_one(entries: Seq<SqlEntry>)
    ensures
        template_models(entries).len() == entries.len(),
        forall|i: int|
            0 <= i < entries.len() ==> {
                &&& (#[trigger] template_models(entries)[i]).sql == entries[i].sql@
                &&& template_models(entries)[i].affinity == entries[i].affinity
                &&& template_models(entries)[i].requires == tag_texts(entries[i].requires@)
                &&& template_models(entries)[i].param_count == entries[i].param_count
                &&& template_models(entries)[i].setup == tag_texts(entries[i].setup@)
            },
{
}

} // verus!
