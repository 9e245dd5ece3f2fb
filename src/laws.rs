//! What holds of every résumé.
use vstd::prelude::*;
use crate::catalog::{token_categories, Catalog, DefinitionModel};
use crate::compose::{
    body_text, composed, dates_in_range, entry_at, index_ordered, insert_by_index, joined,
    resume_model, sorted_by_index, EntryModel,
};
use crate::page::{achieved_time, ExtractedProfile};

verus! {

proof fn lemma_insert_keeps(s: Seq<EntryModel>, e: EntryModel, p: spec_fn(EntryModel) -> bool)
    requires
        forall|i: int| 0 <= i < s.len() ==> p(#[trigger] s[i]),
        p(e),
    ensures
        insert_by_index(s, e).len() == s.len() + 1,
        forall|i: int| 0 <= i < s.len() + 1 ==> p(#[trigger] insert_by_index(s, e)[i]),
    decreases s.len(),
{
    if s.len() > 0 && s.last().sort_index > e.sort_index {
        let t = s.drop_last();
        assert forall|i: int| 0 <= i < t.len() implies p(#[trigger] t[i]) by {
            assert(t[i] == s[i]);
        }
        lemma_insert_keeps(t, e, p);
    }
}

proof fn lemma_sorted_keeps(s: Seq<EntryModel>, p: spec_fn(EntryModel) -> bool)
    requires
        forall|i: int| 0 <= i < s.len() ==> p(#[trigger] s[i]),
    ensures
        sorted_by_index(s).len() == s.len(),
        forall|i: int| 0 <= i < s.len() ==> p(#[trigger] sorted_by_index(s)[i]),
    decreases s.len(),
{
    if s.len() > 0 {
        let t = s.drop_last();
        assert forall|i: int| 0 <= i < t.len() implies p(#[trigger] t[i]) by {
            assert(t[i] == s[i]);
        }
        lemma_sorted_keeps(t, p);
        assert(p(s[s.len() - 1]));
        lemma_insert_keeps(sorted_by_index(t), s.last(), p);
    }
}

proof fn lemma_insert_ordered(s: Seq<EntryModel>, e: EntryModel)
    requires
        index_ordered(s),
    ensures
        index_ordered(insert_by_index(s, e)),
    decreases s.len(),
{
    if s.len() > 0 && s.last().sort_index > e.sort_index {
        let t = s.drop_last();
        let top = s.last().sort_index;
        lemma_insert_ordered(t, e);
        let p = |x: EntryModel| x.sort_index <= top;
        assert forall|i: int| 0 <= i < t.len() implies p(#[trigger] t[i]) by {
            assert(t[i] == s[i]);
        }
        lemma_insert_keeps(t, e, p);
        let r = insert_by_index(t, e);
        assert(insert_by_index(s, e) == r.push(s.last()));
        assert forall|i: int, j: int|
            0 <= i < j < r.len() + 1 implies #[trigger] r.push(s.last())[i].sort_index <= #[trigger] r.push(
            s.last(),
        )[j].sort_index by {
            if j == r.len() {
                assert(p(r[i]));
            }
        }
    }
}

proof fn lemma_sorted_ordered(s: Seq<EntryModel>)
    ensures
        index_ordered(sorted_by_index(s)),
    decreases s.len(),
{
    if s.len() > 0 {
        lemma_sorted_ordered(s.drop_last());
        lemma_insert_ordered(sorted_by_index(s.drop_last()), s.last());
    }
}

proof fn lemma_joined_earned(achieved: Seq<(Seq<char>, i64)>, defs: Seq<DefinitionModel>)
    ensures
        forall|i: int|
            0 <= i < joined(achieved, defs).len() ==> achieved_time(
                achieved,
                (#[trigger] joined(achieved, defs)[i]).title,
            ) is Some,
    decreases defs.len(),
{
    if defs.len() > 0 {
        lemma_joined_earned(achieved, defs.drop_last());
    }
}

/// An achievement that the character has not earned gets no line: every
/// entry of the résumé is of an earned title.
pub proof fn law_unearned_not_reported(
    achieved: Seq<(Seq<char>, i64)>,
    defs: Seq<DefinitionModel>,
    title: Seq<char>,
)
    requires
        achieved_time(achieved, title) is None,
    ensures
        forall|i: int|
            0 <= i < resume_model(achieved, defs).len() ==> (#[trigger] resume_model(
                achieved,
                defs,
            )[i]).title != title,
{
    let s = joined(achieved, defs);
    lemma_joined_earned(achieved, defs);
    let p = |x: EntryModel| achieved_time(achieved, x.title) is Some;
    assert forall|i: int| 0 <= i < s.len() implies p(#[trigger] s[i]) by {}
    lemma_sorted_keeps(s, p);
}

/// The entries of the résumé come by ascending `sort_index`.
pub proof fn law_resume_ordered(achieved: Seq<(Seq<char>, i64)>, defs: Seq<DefinitionModel>)
    ensures
        index_ordered(resume_model(achieved, defs)),
{
    lemma_sorted_ordered(joined(achieved, defs));
}

/// Composing twice from the same profile, catalog and selection gives the
/// same header and the same body, character for character.
pub proof fn law_compose_repeatable(
    profile: ExtractedProfile,
    catalog: &Catalog,
    token: Seq<char>,
    first: (String, String),
    second: (String, String),
)
    requires
        composed(profile, catalog, token, first),
        composed(profile, catalog, token, second),
    ensures
        first.0@ == second.0@,
        first.1@ == second.1@,
{
}

/// Deadlines are inclusive: an achievement earned at or before a window's
/// deadline passes that window.
pub proof fn law_deadline_inclusive(d: DefinitionModel, t: i64)
    requires
        dates_in_range(d, t),
    ensures
        t <= d.strict_deadline ==> entry_at(d, t).passed_strict,
        t <= d.lenient_deadline ==> entry_at(d, t).passed_lenient,
{
}

/// A selection token that names no category gives an empty body.
pub proof fn law_unknown_token_empty(
    catalog: &Catalog,
    achieved: Seq<(Seq<char>, i64)>,
    token: Seq<char>,
)
    requires
        token != "all"@,
        token != "u"@,
        token != "s"@,
        token != "bm"@,
        token != "ad"@,
        token != "pd"@,
        token != "dd"@,
    ensures
        body_text(resume_model(achieved, catalog.selection_model(token_categories(token))))
            == Seq::<char>::empty(),
{
    let defs = catalog.selection_model(token_categories(token));
    assert(defs.len() == 0);
    assert(joined(achieved, defs).len() == 0);
}

} // verus!
