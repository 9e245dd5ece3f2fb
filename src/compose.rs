//! The résumé: each tracked achievement that the character earned, how many
//! whole days after release it took, and whether that was within each window.
use vstd::prelude::*;
use vstd::string::StringExecFns;
use vstd::utf8::{decode_utf8, valid_utf8};
use crate::catalog::{token_categories, AchievementDefinition, Catalog, DefinitionModel, definitions_model};
use crate::page::{
    achieved_model, achieved_time, extract, page_achieved, page_name, page_world, ExtractError,
    ExtractedProfile,
};
use crate::text::{append_int_numeral, int_numeral};

verus! {

/// Seconds in a day.
pub const SECS_PER_DAY: i64 = 86400;

/// The earliest time (epoch seconds) that is a calendar date: the first
/// second of January 1 of the year -262143.
pub const MIN_DATE_TIME: i64 = -8_334_601_228_800;

/// The latest time (epoch seconds) that is a calendar date: the last second
/// of December 31 of the year 262142.
pub const MAX_DATE_TIME: i64 = 8_210_266_876_799;

/// Whether the time `t` is a calendar date.
pub open spec fn in_date_range(t: i64) -> bool {
    MIN_DATE_TIME <= t <= MAX_DATE_TIME
}

/// Whole days in `secs` seconds, cut toward zero.
pub open spec fn whole_days(secs: int) -> int {
    if secs >= 0 {
        secs / 86400
    } else {
        -((-secs) / 86400)
    }
}

/// Relies on chrono's DateTime::from_timestamp, on the difference of two
/// DateTimes, and on TimeDelta::num_days: a time is a date exactly when its
/// day lies within the years -262143 to 262142, and the whole days from
/// `from` to `to` are then cut toward zero.
#[verifier::external_body]
fn days_between(from: i64, to: i64) -> (r: Option<i64>)
    ensures
        r is Some <==> (in_date_range(from) && in_date_range(to)),
        r is Some ==> r->0 == whole_days(to - from),
{
    let start = chrono::DateTime::from_timestamp(from, 0)?;
    let end = chrono::DateTime::from_timestamp(to, 0)?;
    Some((end - start).num_days())
}

/// One line of the résumé.
pub struct ResumeEntry {
    pub sort_index: i64,
    pub title: String,
    pub days_to_achieve: i64,
    pub passed_strict: bool,
    pub passed_lenient: bool,
}

/// The mathematical value of a [`ResumeEntry`].
pub struct EntryModel {
    pub sort_index: i64,
    pub title: Seq<char>,
    pub days_to_achieve: int,
    pub passed_strict: bool,
    pub passed_lenient: bool,
}

impl View for ResumeEntry {
    type V = EntryModel;

    open spec fn view(&self) -> EntryModel {
        EntryModel {
            sort_index: self.sort_index,
            title: self.title@,
            days_to_achieve: self.days_to_achieve as int,
            passed_strict: self.passed_strict,
            passed_lenient: self.passed_lenient,
        }
    }
}

/// The entries of `v` as values, in order.
pub open spec fn entries_model(v: Seq<ResumeEntry>) -> Seq<EntryModel> {
    v.map_values(|e: ResumeEntry| e@)
}

/// Whether all four times of an entry are dates.
pub open spec fn dates_in_range(d: DefinitionModel, achieved: i64) -> bool {
    &&& in_date_range(d.release_time)
    &&& in_date_range(d.strict_deadline)
    &&& in_date_range(d.lenient_deadline)
    &&& in_date_range(achieved)
}

/// The entry for `d` given when it was achieved: whole days from release to
/// achievement, and a window is passed when those days are at most the whole
/// days from release to its deadline.
pub open spec fn entry_at(d: DefinitionModel, achieved: i64) -> EntryModel {
    let days = whole_days(achieved - d.release_time);
    EntryModel {
        sort_index: d.sort_index,
        title: d.title,
        days_to_achieve: days,
        passed_strict: days <= whole_days(d.strict_deadline - d.release_time),
        passed_lenient: days <= whole_days(d.lenient_deadline - d.release_time),
    }
}

/// The entries for `defs` that the character earned, in the order of
/// `defs`. A definition whose times are not all dates is left out.
pub open spec fn joined(achieved: Seq<(Seq<char>, i64)>, defs: Seq<DefinitionModel>) -> Seq<
    EntryModel,
>
    decreases defs.len(),
{
    if defs.len() == 0 {
        Seq::empty()
    } else {
        let rest = joined(achieved, defs.drop_last());
        let d = defs.last();
        match achieved_time(achieved, d.title) {
            Some(t) => if dates_in_range(d, t) {
                rest.push(entry_at(d, t))
            } else {
                rest
            },
            None => rest,
        }
    }
}

/// `s` with `e` put after the last element from the end whose index is at
/// most `e`'s; in a sorted `s`, after all equal indices.
pub open spec fn insert_by_index(s: Seq<EntryModel>, e: EntryModel) -> Seq<EntryModel>
    decreases s.len(),
{
    if s.len() == 0 {
        seq![e]
    } else if s.last().sort_index <= e.sort_index {
        s.push(e)
    } else {
        insert_by_index(s.drop_last(), e).push(s.last())
    }
}

/// `s` sorted by ascending `sort_index`, keeping the order of equal indices.
pub open spec fn sorted_by_index(s: Seq<EntryModel>) -> Seq<EntryModel>
    decreases s.len(),
{
    if s.len() == 0 {
        Seq::empty()
    } else {
        insert_by_index(sorted_by_index(s.drop_last()), s.last())
    }
}

/// Whether the indices of `s` never decrease.
pub open spec fn index_ordered(s: Seq<EntryModel>) -> bool {
    forall|i: int, j: int| 0 <= i < j < s.len() ==> s[i].sort_index <= s[j].sort_index
}

/// The résumé's entries: those of the selected definitions that were
/// earned, by ascending index.
pub open spec fn resume_model(achieved: Seq<(Seq<char>, i64)>, defs: Seq<DefinitionModel>) -> Seq<
    EntryModel,
> {
    sorted_by_index(joined(achieved, defs))
}

/// The mark of a window: a circle when passed, a cross when missed.
pub open spec fn mark(passed: bool) -> Seq<char> {
    if passed {
        "\u{25cb}"@
    } else {
        "\u{d7}"@
    }
}

/// The line that reports `e`.
pub open spec fn line_text(e: EntryModel) -> Seq<char> {
    e.title + ": "@ + int_numeral(e.days_to_achieve) + " days (in minor patch: "@ + mark(
        e.passed_strict,
    ) + "/in major patch: "@ + mark(e.passed_lenient) + ")\n"@
}

/// The lines that report `s`, one after another.
pub open spec fn body_text(s: Seq<EntryModel>) -> Seq<char>
    decreases s.len(),
{
    if s.len() == 0 {
        Seq::empty()
    } else {
        body_text(s.drop_last()) + line_text(s.last())
    }
}

/// The header of the résumé: who, and on which world.
pub open spec fn header_text(name: Seq<char>, world: Seq<char>) -> Seq<char> {
    name + " @ "@ + world
}


proof fn lemma_insert_at(s: Seq<EntryModel>, e: EntryModel, p: int)
    requires
        0 <= p <= s.len(),
        forall|j: int| p <= j < s.len() ==> s[j].sort_index > e.sort_index,
        p == 0 || s[p - 1].sort_index <= e.sort_index,
    ensures
        insert_by_index(s, e) == s.insert(p, e),
    decreases s.len(),
{
    if s.len() == 0 {
        assert(s.insert(p, e) =~= seq![e]);
    } else if p == s.len() {
        assert(s.insert(p, e) =~= s.push(e));
    } else {
        lemma_insert_at(s.drop_last(), e, p);
        assert(s.drop_last().insert(p, e).push(s.last()) =~= s.insert(p, e));
    }
}

/// The entries of the résumé for the definitions `defs`, in their order:
/// one for each definition whose title the character earned.
pub fn resume_entries(profile: &ExtractedProfile, defs: &Vec<&AchievementDefinition>) -> (r: Vec<
    ResumeEntry,
>)
    ensures
        entries_model(r@) == joined(achieved_model(profile.achieved@), definitions_model(defs@)),
{
    let ghost achieved = achieved_model(profile.achieved@);
    let ghost dm = definitions_model(defs@);
    let mut out: Vec<ResumeEntry> = Vec::new();
    let mut i: usize = 0;
    while i < defs.len()
        invariant
            i <= defs.len(),
            achieved == achieved_model(profile.achieved@),
            dm == definitions_model(defs@),
            entries_model(out@) == joined(achieved, dm.take(i as int)),
        decreases defs.len() - i,
    {
        let d: &AchievementDefinition = defs[i];
        proof {
            assert(dm.take(i as int + 1).drop_last() =~= dm.take(i as int));
            assert(dm.take(i as int + 1).last() == d@);
        }
        let ghost prev = out@;
        match profile.time_of(&d.title) {
            Some(t) => {
                if MIN_DATE_TIME <= d.release_time && d.release_time <= MAX_DATE_TIME
                    && MIN_DATE_TIME <= d.strict_deadline && d.strict_deadline <= MAX_DATE_TIME
                    && MIN_DATE_TIME <= d.lenient_deadline && d.lenient_deadline <= MAX_DATE_TIME
                    && MIN_DATE_TIME <= t && t <= MAX_DATE_TIME {
                    let days = days_between(d.release_time, t);
                    let strict = days_between(d.release_time, d.strict_deadline);
                    let lenient = days_between(d.release_time, d.lenient_deadline);
                    match (days, strict, lenient) {
                        (Some(days), Some(strict), Some(lenient)) => {
                            out.push(
                                ResumeEntry {
                                    sort_index: d.sort_index,
                                    title: d.title.clone(),
                                    days_to_achieve: days,
                                    passed_strict: days <= strict,
                                    passed_lenient: days <= lenient,
                                },
                            );
                            assert(entries_model(out@) =~= entries_model(prev).push(
                                entry_at(d@, t),
                            ));
                        },
                        _ => {},
                    }
                }
            },
            None => {},
        }
        i = i + 1;
    }
    proof {
        assert(dm.take(defs.len() as int) =~= dm);
    }
    out
}

/// Sorts `entries` by ascending index; entries with equal indices keep
/// their order.
pub fn sort_entries(entries: Vec<ResumeEntry>) -> (r: Vec<ResumeEntry>)
    ensures
        entries_model(r@) == sorted_by_index(entries_model(entries@)),
{
    let ghost all = entries_model(entries@);
    let mut rest = entries;
    let mut out: Vec<ResumeEntry> = Vec::new();
    let ghost mut k: int = 0;
    while rest.len() > 0
        invariant
            0 <= k <= all.len(),
            entries_model(rest@) == all.skip(k),
            entries_model(out@) == sorted_by_index(all.take(k)),
        decreases rest.len(),
    {
        let ghost before = rest@;
        proof {
            assert(entries_model(before).len() == before.len());
            assert(all.skip(k).len() > 0);
            assert(entries_model(before)[0] == before[0]@);
        }
        let e = rest.remove(0);
        proof {
            assert(entries_model(rest@) =~= entries_model(before).drop_first());
            assert(all.skip(k + 1) =~= all.skip(k).drop_first());
            assert(all.skip(k)[0] == all[k]);
            assert(e@ == all[k]);
            assert(all.take(k + 1).drop_last() =~= all.take(k));
        }
        let mut p: usize = out.len();
        while p > 0 && out[p - 1].sort_index > e.sort_index
            invariant
                p <= out.len(),
                forall|j: int| p <= j < out@.len() ==> out@[j].sort_index > e.sort_index,
            decreases p,
        {
            p = p - 1;
        }
        let ghost prev = out@;
        proof {
            lemma_insert_at(entries_model(prev), e@, p as int);
        }
        out.insert(p, e);
        assert(entries_model(out@) =~= entries_model(prev).insert(p as int, e@));
        proof {
            k = k + 1;
        }
    }
    proof {
        assert(all.skip(k).len() == 0);
        assert(all.take(k) =~= all);
    }
    out
}

fn mark_text(passed: bool) -> (r: &'static str)
    ensures
        r@ == mark(passed),
{
    if passed {
        "\u{25cb}"
    } else {
        "\u{d7}"
    }
}

/// The lines that report `entries`, in their order.
pub fn render_body(entries: &Vec<ResumeEntry>) -> (r: String)
    ensures
        r@ == body_text(entries_model(entries@)),
{
    let ghost m = entries_model(entries@);
    let mut out = String::new();
    let mut i: usize = 0;
    while i < entries.len()
        invariant
            i <= entries.len(),
            m == entries_model(entries@),
            out@ == body_text(m.take(i as int)),
        decreases entries.len() - i,
    {
        let e = &entries[i];
        let ghost prev = out@;
        out.append(e.title.as_str());
        out.append(": ");
        append_int_numeral(&mut out, e.days_to_achieve);
        out.append(" days (in minor patch: ");
        out.append(mark_text(e.passed_strict));
        out.append("/in major patch: ");
        out.append(mark_text(e.passed_lenient));
        out.append(")\n");
        proof {
            assert(m.take(i as int + 1).drop_last() =~= m.take(i as int));
            assert(m.take(i as int + 1).last() == e@);
            assert(out@ =~= prev + line_text(e@));
        }
        i = i + 1;
    }
    proof {
        assert(m.take(entries.len() as int) =~= m);
    }
    out
}

/// The header of the résumé: `<name> @ <world>`.
pub fn render_header(profile: &ExtractedProfile) -> (r: String)
    ensures
        r@ == header_text(profile.character_name@, profile.home_world@),
{
    let mut out = String::new();
    out.append(profile.character_name.as_str());
    out.append(" @ ");
    out.append(profile.home_world.as_str());
    assert(out@ =~= header_text(profile.character_name@, profile.home_world@));
    out
}

/// What the résumé of `profile` over the categories that `token` selects
/// reads: the header, and the body.
pub open spec fn composed(profile: ExtractedProfile, catalog: &Catalog, token: Seq<char>, r: (
    String,
    String,
)) -> bool {
    &&& r.0@ == header_text(profile.character_name@, profile.home_world@)
    &&& r.1@ == body_text(
        resume_model(
            achieved_model(profile.achieved@),
            catalog.selection_model(token_categories(token)),
        ),
    )
}

/// The résumé of `profile` over the categories that `resume_type` selects:
/// the header, and one line per tracked achievement earned, by index.
pub fn compose(profile: &ExtractedProfile, catalog: &Catalog, resume_type: &str) -> (r: (
    String,
    String,
))
    ensures
        composed(*profile, catalog, resume_type@, r),
{
    let defs = catalog.resolve(resume_type);
    let entries = resume_entries(profile, &defs);
    let sorted = sort_entries(entries);
    (render_header(profile), render_body(&sorted))
}

/// Reads a character's achievement page and composes its résumé over the
/// categories that `resume_type` selects. Fails only on a page that is not
/// a text document; otherwise the header holds the page's name and world,
/// and the body one line for each selected achievement the page records.
pub fn get_resume(markup: &[u8], resume_type: &str, catalog: &Catalog) -> (r: Result<
    (String, String),
    ExtractError,
>)
    ensures
        r is Err <==> !valid_utf8(markup@),
        r matches Err(e) ==> e == ExtractError::MalformedDocument,
        r matches Ok(v) ==> {
            &&& v.0@ == header_text(
                page_name(decode_utf8(markup@)),
                page_world(decode_utf8(markup@)),
            )
            &&& v.1@ == body_text(
                resume_model(
                    page_achieved(decode_utf8(markup@)),
                    catalog.selection_model(token_categories(resume_type@)),
                ),
            )
        },
{
    match extract(markup) {
        Ok(profile) => {
            let v = compose(&profile, catalog, resume_type);
            Ok(v)
        },
        Err(e) => Err(e),
    }
}

} // verus!
