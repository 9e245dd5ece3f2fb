use lodestone_resume::catalog::{categories_for, AchievementDefinition, Catalog, Category};
use lodestone_resume::compose::{compose, get_resume, render_body, resume_entries, sort_entries, ResumeEntry};
use lodestone_resume::page::{extract, profile_from_parts, Achieved, EntryParts, ExtractError, ExtractedProfile};
use lodestone_resume::text::{append_int_numeral, parse_decimal};

fn def(sort_index: i64, title: &str, release: i64, strict: i64, lenient: i64) -> AchievementDefinition {
    AchievementDefinition {
        sort_index,
        title: title.to_string(),
        release_time: release,
        strict_deadline: strict,
        lenient_deadline: lenient,
    }
}

fn catalog_with(ultimate: Vec<AchievementDefinition>, savage: Vec<AchievementDefinition>) -> Catalog {
    Catalog {
        ultimate,
        savage,
        blue_mage: Vec::new(),
        another: Vec::new(),
        public: Vec::new(),
        deep: Vec::new(),
    }
}

fn profile(achieved: &[(&str, i64)]) -> ExtractedProfile {
    ExtractedProfile {
        character_name: "Alice Example".to_string(),
        home_world: "Tonberry".to_string(),
        achieved: achieved
            .iter()
            .map(|(t, s)| Achieved { title: t.to_string(), time: *s })
            .collect(),
    }
}

fn example_catalog() -> Catalog {
    catalog_with(vec![def(1, "Example", 1000, 1000 + 86400, 1000 + 172800)], Vec::new())
}

#[test]
fn scenario_one_day_passes_both_windows() {
    let p = profile(&[("Example", 1000 + 86400)]);
    let (header, body) = compose(&p, &example_catalog(), "u");
    assert_eq!(header, "Alice Example @ Tonberry");
    assert_eq!(body, "Example: 1 days (in minor patch: \u{25cb}/in major patch: \u{25cb})\n");
}

#[test]
fn scenario_two_days_misses_strict_window() {
    let p = profile(&[("Example", 1000 + 200000)]);
    let cat = example_catalog();
    let defs = cat.resolve("u");
    let entries = resume_entries(&p, &defs);
    assert_eq!(entries.len(), 1);
    assert_eq!(entries[0].days_to_achieve, 2);
    assert!(!entries[0].passed_strict);
    assert!(entries[0].passed_lenient);
    let (_, body) = compose(&p, &cat, "all");
    assert_eq!(body, "Example: 2 days (in minor patch: \u{d7}/in major patch: \u{25cb})\n");
}

#[test]
fn deadline_is_inclusive() {
    let cat = catalog_with(vec![def(1, "Edge", 0, 3 * 86400 + 500, 5 * 86400 + 7)], Vec::new());
    let p = profile(&[("Edge", 3 * 86400 + 500)]);
    let (_, body) = compose(&p, &cat, "u");
    assert_eq!(body, "Edge: 3 days (in minor patch: \u{25cb}/in major patch: \u{25cb})\n");
    let p = profile(&[("Edge", 5 * 86400 + 7)]);
    let (_, body) = compose(&p, &cat, "u");
    assert_eq!(body, "Edge: 5 days (in minor patch: \u{d7}/in major patch: \u{25cb})\n");
}

#[test]
fn unknown_token_gives_empty_body() {
    let p = profile(&[("Example", 1000 + 86400)]);
    let (header, body) = compose(&p, &example_catalog(), "zz");
    assert_eq!(header, "Alice Example @ Tonberry");
    assert_eq!(body, "");
}

#[test]
fn unearned_achievements_are_left_out() {
    let cat = catalog_with(
        vec![def(2, "Earned", 0, 86400, 2 * 86400), def(1, "Missing", 0, 86400, 2 * 86400)],
        Vec::new(),
    );
    let p = profile(&[("Earned", 10), ("Something else", 20)]);
    let (_, body) = compose(&p, &cat, "u");
    assert!(!body.contains("Missing"));
    assert_eq!(body, "Earned: 0 days (in minor patch: \u{25cb}/in major patch: \u{25cb})\n");
}

#[test]
fn entries_come_by_ascending_index() {
    let cat = catalog_with(
        vec![def(3, "C", 0, 86400, 86400), def(1, "A", 0, 86400, 86400)],
        vec![def(2, "B", 0, 86400, 86400), def(1, "A2", 0, 86400, 86400)],
    );
    let p = profile(&[("A", 1), ("B", 1), ("C", 1), ("A2", 1)]);
    let (_, body) = compose(&p, &cat, "all");
    let titles: Vec<&str> = body.lines().map(|l| l.split(':').next().unwrap()).collect();
    assert_eq!(titles, vec!["A", "A2", "B", "C"]);
}

#[test]
fn sort_keeps_order_of_equal_indices() {
    let e = |i: i64, t: &str| ResumeEntry {
        sort_index: i,
        title: t.to_string(),
        days_to_achieve: 0,
        passed_strict: true,
        passed_lenient: true,
    };
    let sorted = sort_entries(vec![e(5, "x"), e(1, "y"), e(5, "z"), e(1, "w"), e(-2, "v")]);
    let titles: Vec<&str> = sorted.iter().map(|x| x.title.as_str()).collect();
    assert_eq!(titles, vec!["v", "y", "w", "x", "z"]);
}

#[test]
fn composing_twice_is_identical() {
    let cat = catalog_with(
        vec![def(2, "B", 0, 86400, 86400), def(1, "A", 0, 86400, 86400)],
        Vec::new(),
    );
    let p = profile(&[("A", 100000), ("B", 5)]);
    assert_eq!(compose(&p, &cat, "all"), compose(&p, &cat, "all"));
}

#[test]
fn negative_days_are_reported_as_is() {
    let p = profile(&[("Example", 1000 - 90000)]);
    let (_, body) = compose(&p, &example_catalog(), "u");
    assert_eq!(body, "Example: -1 days (in minor patch: \u{25cb}/in major patch: \u{25cb})\n");
}

#[test]
fn times_beyond_the_calendar_are_left_out() {
    let p = profile(&[("Example", 9_000_000_000_000)]);
    let (_, body) = compose(&p, &example_catalog(), "u");
    assert_eq!(body, "");
}

#[test]
fn last_time_of_a_title_wins() {
    let p = profile(&[("Example", 5), ("Example", 1000 + 3 * 86400)]);
    assert_eq!(p.time_of(&"Example".to_string()), Some(1000 + 3 * 86400));
    assert_eq!(p.time_of(&"Other".to_string()), None);
    let (_, body) = compose(&p, &example_catalog(), "u");
    assert!(body.starts_with("Example: 3 days"));
}

#[test]
fn tokens_select_categories() {
    assert_eq!(
        categories_for("all"),
        vec![
            Category::Ultimate,
            Category::Savage,
            Category::BlueMage,
            Category::Another,
            Category::Public,
            Category::Deep
        ]
    );
    assert_eq!(categories_for("bm"), vec![Category::BlueMage]);
    assert_eq!(categories_for("dd"), vec![Category::Deep]);
    assert_eq!(categories_for("ALL"), Vec::<Category>::new());
    let cat = catalog_with(vec![def(1, "U", 0, 0, 0)], vec![def(2, "S", 0, 0, 0)]);
    let titles: Vec<&str> = cat.resolve("all").iter().map(|d| d.title.as_str()).collect();
    assert_eq!(titles, vec!["U", "S"]);
    assert_eq!(cat.resolve("s").len(), 1);
    assert_eq!(cat.resolve("pd").len(), 0);
}

#[test]
fn render_body_of_no_entries_is_empty() {
    assert_eq!(render_body(&Vec::new()), "");
}

#[test]
fn decimal_reading() {
    assert_eq!(parse_decimal("1700000000"), Some(1700000000));
    assert_eq!(parse_decimal("007"), Some(7));
    assert_eq!(parse_decimal(""), None);
    assert_eq!(parse_decimal("12a"), None);
    assert_eq!(parse_decimal("-5"), None);
    assert_eq!(parse_decimal("\u{0663}"), None);
    assert_eq!(parse_decimal("9223372036854775807"), Some(i64::MAX));
    assert_eq!(parse_decimal("9223372036854775808"), None);
}

#[test]
fn decimal_writing() {
    let mut s = String::from("n=");
    append_int_numeral(&mut s, -45);
    assert_eq!(s, "n=-45");
    let mut s = String::new();
    append_int_numeral(&mut s, 0);
    assert_eq!(s, "0");
    let mut s = String::new();
    append_int_numeral(&mut s, i64::MIN);
    assert_eq!(s, i64::MIN.to_string());
}

const PAGE: &str = r#"<!DOCTYPE html><html><head><title>t</title></head><body>
<div class="frame__chara">
<p class="frame__chara__name">Alice Example</p>
<p class="frame__chara__world"><i class="xiv-lds xiv-lds-home-world"></i>  Tonberry [Elemental] </p>
</div>
<ul>
<li class="entry"><div><p class="entry__activity__txt">First Clear</p>
<time class="entry__activity__time"><script>document.getElementById('x').innerHTML = ldst_strftime(1700000000, 'YMD');</script></time></div></li>
<li class="entry"><div><p class="entry__activity__txt">No Time</p></div></li>
<li class="entry"><div><time class="entry__activity__time"><script>ldst_strftime(1700000500, 'YMD');</script></time></div></li>
<li class="entry"><div><p class="entry__activity__txt">Second Clear</p>
<time class="entry__activity__time"><script>ldst_strftime(1700086400, 'YMD');</script></time></div></li>
<li class="entry"><div><p class="entry__activity__txt">First Clear</p>
<time class="entry__activity__time"><script>ldst_strftime(1700090000, 'YMD');</script></time></div></li>
</ul></body></html>"#;

#[test]
fn extracts_name_world_and_times() {
    let p = extract(PAGE.as_bytes()).unwrap();
    assert_eq!(p.character_name, "Alice Example");
    assert_eq!(p.home_world, "Tonberry [Elemental]");
    let got: Vec<(&str, i64)> = p.achieved.iter().map(|a| (a.title.as_str(), a.time)).collect();
    assert_eq!(
        got,
        vec![("First Clear", 1700000000), ("Second Clear", 1700086400), ("First Clear", 1700090000)]
    );
    assert_eq!(p.time_of(&"First Clear".to_string()), Some(1700090000));
}

#[test]
fn missing_elements_leave_values_empty() {
    let p = extract(b"<html><body><p>nothing here</p></body></html>").unwrap();
    assert_eq!(p.character_name, "");
    assert_eq!(p.home_world, "");
    assert!(p.achieved.is_empty());
    let p = extract(b"").unwrap();
    assert_eq!(p.character_name, "");
}

#[test]
fn world_without_icon_is_empty() {
    let p = profile_from_parts(
        Some("Bob".to_string()),
        Some("<p class=\"frame__chara__world\">Tonberry</p>".to_string()),
        &Vec::new(),
    );
    assert_eq!(p.character_name, "Bob");
    assert_eq!(p.home_world, "");
}

#[test]
fn entry_parts_are_read() {
    let entries = vec![
        EntryParts { text: Some("A".to_string()), script: Some("<script>ldst_strftime(42, 'x')</script>".to_string()) },
        EntryParts { text: Some("B".to_string()), script: Some("<script>ldst_strftime(42)</script>".to_string()) },
        EntryParts { text: Some("C".to_string()), script: Some("ldst_strftime(99999999999999999999,".to_string()) },
        EntryParts { text: None, script: Some("ldst_strftime(7,".to_string()) },
        EntryParts { text: Some("D".to_string()), script: None },
    ];
    let p = profile_from_parts(None, Some("<p><i a=\"b\"></i> W </p>".to_string()), &entries);
    assert_eq!(p.character_name, "");
    assert_eq!(p.home_world, "W");
    let got: Vec<(&str, i64)> = p.achieved.iter().map(|a| (a.title.as_str(), a.time)).collect();
    assert_eq!(got, vec![("A", 42)]);
}

#[test]
fn malformed_document_fails() {
    assert_eq!(extract(&[0x3c, 0xff, 0xfe, 0x3e]).err(), Some(ExtractError::MalformedDocument));
    let cat = example_catalog();
    assert_eq!(get_resume(&[0xc3], "all", &cat).err(), Some(ExtractError::MalformedDocument));
}

#[test]
fn resume_from_a_page() {
    let cat = catalog_with(
        vec![
            def(2, "Second Clear", 1700000000 - 86400, 1700000000 + 86400, 1700000000 + 10 * 86400),
            def(1, "First Clear", 1699000000, 1699500000, 1700100000),
        ],
        Vec::new(),
    );
    let (header, body) = get_resume(PAGE.as_bytes(), "all", &cat).unwrap();
    assert_eq!(header, "Alice Example @ Tonberry [Elemental]");
    assert_eq!(
        body,
        "First Clear: 12 days (in minor patch: \u{d7}/in major patch: \u{25cb})\n\
         Second Clear: 2 days (in minor patch: \u{25cb}/in major patch: \u{25cb})\n"
    );
}

#[test]
fn page_address() {
    assert_eq!(
        lodestone_resume::page::achievement_page_url("12345"),
        "https://jp.finalfantasyxiv.com/lodestone/character/12345/achievement/kind/1/#anchor_achievement"
    );
}

#[test]
fn calendar_edges_follow_the_date_library() {
    let cat = catalog_with(vec![def(1, "Far", 0, 0, 0)], Vec::new());
    let (_, body) = compose(&profile(&[("Far", 8_210_266_876_799)]), &cat, "u");
    assert_eq!(body, "Far: 95026236 days (in minor patch: \u{d7}/in major patch: \u{d7})\n");
    let (_, body) = compose(&profile(&[("Far", 8_100_000_000_000)]), &cat, "u");
    assert!(body.starts_with("Far: 93750000 days"));
    let (_, body) = compose(&profile(&[("Far", 8_210_266_876_800)]), &cat, "u");
    assert_eq!(body, "");
    let (_, body) = compose(&profile(&[("Far", -8_334_601_228_800)]), &cat, "u");
    assert_eq!(body, "Far: -96465292 days (in minor patch: \u{25cb}/in major patch: \u{25cb})\n");
    let (_, body) = compose(&profile(&[("Far", -8_334_601_228_801)]), &cat, "u");
    assert_eq!(body, "");
}

#[test]
fn world_is_trimmed_of_unicode_white_space() {
    let p = profile_from_parts(None, Some("<i></i>\u{3000}\u{a0} New World\u{2009}\n".to_string()), &Vec::new());
    assert_eq!(p.home_world, "New World");
}
