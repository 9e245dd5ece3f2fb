//! Reading a character's achievement page: the display name, the home world,
//! and the time at which each achievement on the page was earned.
use vstd::prelude::*;
use vstd::string::StringExecFns;
use vstd::utf8::{decode_utf8, valid_utf8};
use scraper::{Html, Selector};
use crate::text::{decimal_reading, parse_decimal};

verus! {

/// Relies on std::str::from_utf8: it accepts exactly the valid UTF-8 byte
/// sequences, and the text it gives is their decoding.
#[verifier::external_body]
fn decode_text(bytes: &[u8]) -> (r: Option<String>)
    ensures
        r is Some <==> valid_utf8(bytes@),
        r is Some ==> r->0@ == decode_utf8(bytes@),
{
    std::str::from_utf8(bytes).ok().map(|s| s.to_string())
}

/// The text of an element in a page: its text nodes, joined in order.
/// Where found, the text of the first element of `page` that the CSS
/// selector `css` selects; nothing when none matches or `css` is not a selector.
pub uninterp spec fn selected_first_text(page: Seq<char>, css: Seq<char>) -> Option<Seq<char>>;

/// Where found, the markup (the element written back as HTML) of the first
/// element of `page` that `css` selects; nothing when none matches or `css`
/// is not a selector.
pub uninterp spec fn selected_first_markup(page: Seq<char>, css: Seq<char>) -> Option<Seq<char>>;

/// For each element of `page` that `entry_css` selects, in document order:
/// the text of the first element below it that `text_css` selects, and the
/// markup of the first that `time_css` selects, each where found. Nothing
/// at all when one of the three is not a selector.
pub uninterp spec fn selected_entry_parts(
    page: Seq<char>,
    entry_css: Seq<char>,
    text_css: Seq<char>,
    time_css: Seq<char>,
) -> Seq<(Option<Seq<char>>, Option<Seq<char>>)>;

/// Relies on scraper's Selector::parse, Html::parse_document, Html::select and
/// ElementRef::text: the text of the first selected element. An HTML5 parser
/// builds a tree from any text, so the result depends on the arguments alone.
#[verifier::external_body]
fn first_text_in(page: &str, css: &str) -> (r: Option<String>)
    ensures
        text_model(r) == selected_first_text(page@, css@),
{
    let sel = Selector::parse(css).ok()?;
    let doc = Html::parse_document(page);
    let first = doc.select(&sel).next()?;
    Some(first.text().collect())
}

/// Relies on scraper's Selector::parse, Html::parse_document, Html::select and
/// ElementRef::html: the markup of the first selected element.
#[verifier::external_body]
fn first_markup_in(page: &str, css: &str) -> (r: Option<String>)
    ensures
        text_model(r) == selected_first_markup(page@, css@),
{
    let sel = Selector::parse(css).ok()?;
    let doc = Html::parse_document(page);
    let first = doc.select(&sel).next()?;
    Some(first.html())
}

/// Relies on scraper's Selector::parse, Html::parse_document, Html::select,
/// ElementRef::select, ElementRef::text and ElementRef::html: the parts of
/// each selected entry, in document order.
#[verifier::external_body]
fn entry_parts_in(page: &str, entry_css: &str, text_css: &str, time_css: &str) -> (r: Vec<EntryParts>)
    ensures
        parts_model(r@) == selected_entry_parts(page@, entry_css@, text_css@, time_css@),
{
    let doc = Html::parse_document(page);
    match (Selector::parse(entry_css), Selector::parse(text_css), Selector::parse(time_css)) {
        (Ok(entry), Ok(text), Ok(time)) => doc.select(&entry).map(|e| EntryParts {
            text: e.select(&text).next().map(|t| t.text().collect()),
            script: e.select(&time).next().map(|s| s.html()),
        }).collect(),
        _ => Vec::new(),
    }
}

/// What the first capture group of the regular expression `pattern` holds at
/// its leftmost match in `haystack`; nothing when the pattern does not compile,
/// does not match, or the group takes no part in the match.
pub uninterp spec fn regex_group(pattern: Seq<char>, haystack: Seq<char>) -> Option<Seq<char>>;

/// Relies on regex::Regex::new and regex::Regex::captures: the first group of
/// the leftmost match, which depends on the pattern and the text alone.
#[verifier::external_body]
fn first_group(pattern: &str, haystack: &str) -> (r: Option<String>)
    ensures
        r is Some <==> regex_group(pattern@, haystack@) is Some,
        r is Some ==> r->0@ == regex_group(pattern@, haystack@)->0,
{
    let re = regex::Regex::new(pattern).ok()?;
    re.captures(haystack)?.get(1).map(|m| m.as_str().to_string())
}

/// Whether `c` has the Unicode White_Space property.
pub open spec fn is_white_space(c: char) -> bool {
    ||| '\u{9}' <= c <= '\u{d}'
    ||| c == ' '
    ||| c == '\u{85}'
    ||| c == '\u{a0}'
    ||| c == '\u{1680}'
    ||| '\u{2000}' <= c <= '\u{200a}'
    ||| c == '\u{2028}'
    ||| c == '\u{2029}'
    ||| c == '\u{202f}'
    ||| c == '\u{205f}'
    ||| c == '\u{3000}'
}

/// `s` without its leading white space.
pub open spec fn trim_start(s: Seq<char>) -> Seq<char>
    decreases s.len(),
{
    if s.len() > 0 && is_white_space(s[0]) {
        trim_start(s.drop_first())
    } else {
        s
    }
}

/// `s` without its trailing white space.
pub open spec fn trim_end(s: Seq<char>) -> Seq<char>
    decreases s.len(),
{
    if s.len() > 0 && is_white_space(s.last()) {
        trim_end(s.drop_last())
    } else {
        s
    }
}

/// `s` without the white space at either end.
pub open spec fn trimmed(s: Seq<char>) -> Seq<char> {
    trim_end(trim_start(s))
}

/// Relies on str::trim: it removes the leading and trailing characters that
/// have the Unicode White_Space property.
#[verifier::external_body]
fn trim_text(s: &str) -> (r: String)
    ensures
        r@ == trimmed(s@),
{
    s.trim().to_string()
}


/// Where a character's achievement page starts; the character's id follows.
pub const PAGE_URL_PREFIX: &'static str = "https://jp.finalfantasyxiv.com/lodestone/character/";

/// What follows the character's id in the address of the achievement page.
pub const PAGE_URL_SUFFIX: &'static str = "/achievement/kind/1/#anchor_achievement";

/// The address of the achievement page of the character `character_id`.
pub fn achievement_page_url(character_id: &str) -> (r: String)
    ensures
        r@ == PAGE_URL_PREFIX@ + character_id@ + PAGE_URL_SUFFIX@,
{
    let mut url = String::from_str(PAGE_URL_PREFIX);
    url.append(character_id);
    url.append(PAGE_URL_SUFFIX);
    url
}

/// Finds the achievement time in the markup of an entry's time element: the
/// first argument of the page's date-rendering call.
pub const TIME_PATTERN: &'static str = "ldst_strftime\\((\\d+),";

/// Finds the world's name in the markup of the home-world element: the text
/// that follows the icon element.
pub const WORLD_PATTERN: &'static str = "<i[^>]*></i>([^<]+)";

/// Selects an entry of the achievement log.
pub const ENTRY_SELECTOR: &'static str = "li.entry";

/// Selects, inside an entry, the achievement's description.
pub const ENTRY_TEXT_SELECTOR: &'static str = "p.entry__activity__txt";

/// Selects, inside an entry, the script that renders its time.
pub const ENTRY_TIME_SELECTOR: &'static str = "time.entry__activity__time script";

/// Selects the character's name.
pub const NAME_SELECTOR: &'static str = "p.frame__chara__name";

/// Selects the character's home world.
pub const WORLD_SELECTOR: &'static str = "p.frame__chara__world";

/// One completed achievement: its title as the page writes it, and the time
/// (epoch seconds) at which it was earned.
pub struct Achieved {
    pub title: String,
    pub time: i64,
}

/// What a character's page tells: the display name, the home world, and the
/// completed achievements in page order. A title met twice counts with the
/// time given last.
pub struct ExtractedProfile {
    pub character_name: String,
    pub home_world: String,
    pub achieved: Vec<Achieved>,
}

/// Why a page could not be read at all.
#[derive(Debug, Clone, Copy, PartialEq, Eq, Structural)]
pub enum ExtractError {
    /// The page is not a text document (its bytes are not UTF-8).
    MalformedDocument,
}

/// What the page holds for one entry of its achievement log: the text of
/// the description element and the markup of the time script, where found.
pub struct EntryParts {
    pub text: Option<String>,
    pub script: Option<String>,
}

/// The value of an optional text.
pub open spec fn text_model(o: Option<String>) -> Option<Seq<char>> {
    match o {
        Some(t) => Some(t@),
        None => None,
    }
}

/// The parts of each entry as values: description text, time markup.
pub open spec fn parts_model(v: Seq<EntryParts>) -> Seq<(Option<Seq<char>>, Option<Seq<char>>)> {
    v.map_values(|e: EntryParts| (text_model(e.text), text_model(e.script)))
}

/// The completed achievements as (title, time) pairs, in order.
pub open spec fn achieved_model(v: Seq<Achieved>) -> Seq<(Seq<char>, i64)> {
    v.map_values(|a: Achieved| (a.title@, a.time))
}

/// The time at which `title` was earned according to `achieved`: the time of
/// its last occurrence.
pub open spec fn achieved_time(achieved: Seq<(Seq<char>, i64)>, title: Seq<char>) -> Option<i64>
    decreases achieved.len(),
{
    if achieved.len() == 0 {
        None
    } else if achieved.last().0 == title {
        Some(achieved.last().1)
    } else {
        achieved_time(achieved.drop_last(), title)
    }
}

/// The completed achievement that an entry records, if it has a description
/// and a time call whose argument reads as a decimal number.
pub open spec fn entry_reading(e: (Option<Seq<char>>, Option<Seq<char>>)) -> Option<(Seq<char>, i64)> {
    match e {
        (Some(t), Some(s)) => match regex_group(TIME_PATTERN@, s) {
            Some(g) => match decimal_reading(g) {
                Some(v) => Some((t, v)),
                None => None,
            },
            None => None,
        },
        _ => None,
    }
}

/// The completed achievements that `entries` record, in order; an entry that
/// records none is passed over.
pub open spec fn achieved_from(entries: Seq<(Option<Seq<char>>, Option<Seq<char>>)>) -> Seq<(Seq<char>, i64)>
    decreases entries.len(),
{
    if entries.len() == 0 {
        Seq::empty()
    } else {
        let rest = achieved_from(entries.drop_last());
        match entry_reading(entries.last()) {
            Some(a) => rest.push(a),
            None => rest,
        }
    }
}

/// The character's name, given the text of the name element where found.
pub open spec fn name_from(name_text: Option<Seq<char>>) -> Seq<char> {
    match name_text {
        Some(t) => t,
        None => Seq::empty(),
    }
}

/// The home world, given the markup of the world element where found: the
/// trimmed text after the icon, or nothing where the pattern does not match.
pub open spec fn world_from(world_markup: Option<Seq<char>>) -> Seq<char> {
    match world_markup {
        Some(m) => match regex_group(WORLD_PATTERN@, m) {
            Some(g) => trimmed(g),
            None => Seq::empty(),
        },
        None => Seq::empty(),
    }
}

impl ExtractedProfile {
    /// The time at which the character earned `title`, if it did.
    pub fn time_of(&self, title: &String) -> (r: Option<i64>)
        ensures
            r == achieved_time(achieved_model(self.achieved@), title@),
    {
        let ghost model = achieved_model(self.achieved@);
        let mut i: usize = self.achieved.len();
        proof {
            assert(model.take(i as int) =~= model);
        }
        while i > 0
            invariant
                i <= self.achieved.len(),
                model == achieved_model(self.achieved@),
                achieved_time(model, title@) == achieved_time(model.take(i as int), title@),
            decreases i,
        {
            let a = &self.achieved[i - 1];
            proof {
                assert(model.take(i as int).drop_last() =~= model.take(i - 1));
            }
            if a.title == *title {
                return Some(a.time);
            }
            i = i - 1;
        }
        None
    }
}

/// Builds the profile from what was found on the page: the name's text, the
/// world element's markup, and the parts of each log entry in page order.
pub fn profile_from_parts(
    name_text: Option<String>,
    world_markup: Option<String>,
    entries: &Vec<EntryParts>,
) -> (r: ExtractedProfile)
    ensures
        r.character_name@ == name_from(text_model(name_text)),
        r.home_world@ == world_from(text_model(world_markup)),
        achieved_model(r.achieved@) == achieved_from(parts_model(entries@)),
{
    let character_name = match name_text {
        Some(t) => t,
        None => String::new(),
    };
    let home_world = match world_markup {
        Some(m) => match first_group(WORLD_PATTERN, m.as_str()) {
            Some(g) => trim_text(g.as_str()),
            None => String::new(),
        },
        None => String::new(),
    };
    let ghost pm = parts_model(entries@);
    let mut achieved: Vec<Achieved> = Vec::new();
    let mut i: usize = 0;
    while i < entries.len()
        invariant
            i <= entries.len(),
            pm == parts_model(entries@),
            achieved_model(achieved@) == achieved_from(pm.take(i as int)),
        decreases entries.len() - i,
    {
        let e = &entries[i];
        proof {
            assert(pm.take(i as int + 1).drop_last() =~= pm.take(i as int));
            assert(pm.take(i as int + 1).last() == (text_model(e.text), text_model(e.script)));
        }
        let ghost before = achieved@;
        match (&e.text, &e.script) {
            (Some(t), Some(s)) => match first_group(TIME_PATTERN, s.as_str()) {
                Some(g) => match parse_decimal(g.as_str()) {
                    Some(v) => {
                        achieved.push(Achieved { title: t.clone(), time: v });
                        assert(achieved_model(achieved@) =~= achieved_model(before).push(
                            (t@, v),
                        ));
                    },
                    None => {},
                },
                None => {},
            },
            _ => {},
        }
        i = i + 1;
    }
    proof {
        assert(pm.take(entries.len() as int) =~= pm);
    }
    ExtractedProfile { character_name, home_world, achieved }
}

/// The character's name on the page `page`.
pub open spec fn page_name(page: Seq<char>) -> Seq<char> {
    name_from(selected_first_text(page, NAME_SELECTOR@))
}

/// The character's home world on the page `page`.
pub open spec fn page_world(page: Seq<char>) -> Seq<char> {
    world_from(selected_first_markup(page, WORLD_SELECTOR@))
}

/// The completed achievements on the page `page`, in page order.
pub open spec fn page_achieved(page: Seq<char>) -> Seq<(Seq<char>, i64)> {
    achieved_from(
        selected_entry_parts(page, ENTRY_SELECTOR@, ENTRY_TEXT_SELECTOR@, ENTRY_TIME_SELECTOR@),
    )
}

/// Reads a character's achievement page. Elements that the page lacks leave
/// the name or world empty, or the entry out; only bytes that are not text
/// at all make it fail.
pub fn extract(markup: &[u8]) -> (r: Result<ExtractedProfile, ExtractError>)
    ensures
        r is Err <==> !valid_utf8(markup@),
        r matches Err(e) ==> e == ExtractError::MalformedDocument,
        r matches Ok(p) ==> {
            &&& p.character_name@ == page_name(decode_utf8(markup@))
            &&& p.home_world@ == page_world(decode_utf8(markup@))
            &&& achieved_model(p.achieved@) == page_achieved(decode_utf8(markup@))
        },
{
    let text = match decode_text(markup) {
        Some(t) => t,
        None => {
            return Err(ExtractError::MalformedDocument);
        },
    };
    let page = text.as_str();
    let name_text = first_text_in(page, NAME_SELECTOR);
    let world_markup = first_markup_in(page, WORLD_SELECTOR);
    let entries = entry_parts_in(page, ENTRY_SELECTOR, ENTRY_TEXT_SELECTOR, ENTRY_TIME_SELECTOR);
    Ok(profile_from_parts(name_text, world_markup, &entries))
}

} // verus!
