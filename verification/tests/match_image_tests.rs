use android_adb_run::game_automation::match_image::region::{
    search_window, RegionManager, SearchRegion, SearchWindow,
};
use android_adb_run::game_automation::match_image::sidecar::{
    CropRect, MatchTargetDef, TemplateSidecar,
};
use android_adb_run::game_automation::match_image::template::{
    Template, TemplateCategory, TemplateManager, TemplateSource,
};

// ------------------------------------------------------------------
// Search regions
// ------------------------------------------------------------------

#[test]
fn test_region_parse_from_filename() {
    let region = SearchRegion::parse_from_filename("img-[300,1682,50,50].png", 1080, 2280);

    assert_eq!(region.x, 300);
    assert_eq!(region.y, 1682);
    assert_eq!(region.width, 50);
    assert_eq!(region.height, 50);
}

#[test]
fn test_region_parse_full_screen_fallback() {
    let region = SearchRegion::parse_from_filename("button_start.png", 1080, 2280);

    assert_eq!(region.x, 0);
    assert_eq!(region.y, 0);
    assert_eq!(region.width, 1080);
    assert_eq!(region.height, 2280);
}

#[test]
fn test_region_clips_to_screen_bounds() {
    let region = SearchRegion::parse_from_filename("img-[1000,2200,200,200].png", 1080, 2280);

    assert_eq!(region.x, 1000);
    assert_eq!(region.width, 80);
    assert_eq!(region.y, 2200);
    assert_eq!(region.height, 80);
}

#[test]
fn parsed_region_is_named_after_its_numbers() {
    let region = SearchRegion::parse_from_filename("img-[300, 1682 ,50,50].png", 1080, 2280);
    assert_eq!(region.name, "parsed_300_1682_50_50");
    let full = SearchRegion::parse_from_filename("img-[1,2,3].png", 1080, 2280);
    assert_eq!(full.name, "full_screen");
    assert_eq!(full.width, 1080);
}

#[test]
fn region_text_needs_brackets_in_order() {
    assert_eq!(
        SearchRegion::extract_region_string("a-[1,2,3,4].png"),
        Some("1,2,3,4".to_string())
    );
    assert_eq!(SearchRegion::extract_region_string("a-]1,2[.png"), None);
    assert_eq!(SearchRegion::extract_region_string("a-[1,2.png"), None);
    assert_eq!(SearchRegion::extract_region_string("a-[].png"), Some(String::new()));
}

#[test]
fn region_coordinates_must_be_four_numbers() {
    assert!(SearchRegion::parse_region_coordinates("1,2,3").is_none());
    assert!(SearchRegion::parse_region_coordinates("1,2,3,x").is_none());
    assert!(SearchRegion::parse_region_coordinates("1,2,3,4,5").is_none());
    assert!(SearchRegion::parse_region_coordinates("1,2,3,-4").is_none());
    let r = SearchRegion::parse_region_coordinates(" 7 ,8,9,+10").unwrap();
    assert_eq!((r.x, r.y, r.width, r.height), (7, 8, 9, 10));
    assert_eq!(r.name, "parsed_7_8_9_10");
}

#[test]
fn clipping_a_region_off_screen() {
    let r = SearchRegion::new(5000, 5000, 10, 10, "far".to_string());
    let c = SearchRegion::clip_to_screen(r, 100, 200);
    assert_eq!((c.x, c.y, c.width, c.height), (99, 199, 1, 1));
    assert_eq!(c.name, "far");
    let inside = SearchRegion::new(10, 10, 20, 20, "in".to_string());
    assert_eq!(SearchRegion::clip_to_screen(inside.clone(), 100, 200), inside);
    let empty_screen = SearchRegion::clip_to_screen(SearchRegion::new(3, 4, 5, 6, "e".to_string()), 0, 0);
    assert_eq!((empty_screen.x, empty_screen.y, empty_screen.width, empty_screen.height), (0, 0, 0, 0));
}

#[test]
fn region_geometry() {
    let r = SearchRegion::new(10, 20, 30, 40, "r".to_string());
    assert!(r.contains_point(10, 20));
    assert!(r.contains_point(39, 59));
    assert!(!r.contains_point(40, 20));
    assert!(!r.contains_point(9, 20));
    assert_eq!(r.center(), (25, 40));
    assert!(r.is_valid());
    assert!(!SearchRegion::new(0, 0, 0, 5, "z".to_string()).is_valid());
    assert_eq!(SearchRegion::full_screen(1080, 2280).name, "full_screen");
}

#[test]
fn region_manager_has_common_regions() {
    let m = RegionManager::new(1080, 2280);
    let mut names = m.get_region_names();
    names.sort();
    assert_eq!(
        names,
        vec![
            "action_area", "bottom_left", "bottom_right", "center", "hud_area",
            "inventory_area", "navigation_bar", "status_bar", "top_left", "top_right",
        ]
    );
    let nav = m.get_region("navigation_bar").unwrap();
    assert_eq!((nav.x, nav.y, nav.width, nav.height), (0, 2166, 1080, 114));
    let inv = m.get_region("inventory_area").unwrap();
    assert_eq!((inv.x, inv.y, inv.width, inv.height), (945, 570, 135, 1140));
    assert!(m.get_region("nowhere").is_none());
}

#[test]
fn region_manager_add_and_resolve() {
    let mut m = RegionManager::new(1080, 2280);
    m.add_region("mine", SearchRegion::new(1, 2, 3, 4, "mine".to_string()));
    assert_eq!(m.resolve_region("mine"), SearchRegion::new(1, 2, 3, 4, "mine".to_string()));
    m.add_region("mine", SearchRegion::new(5, 6, 7, 8, "again".to_string()));
    assert_eq!(m.get_region("mine").unwrap().x, 5);
    assert_eq!(m.get_region_names().len(), 11);
    let parsed = m.resolve_region("t-[10,20,30,40].png");
    assert_eq!((parsed.x, parsed.y, parsed.width, parsed.height), (10, 20, 30, 40));
    assert_eq!(m.resolve_region("plain.png"), SearchRegion::full_screen(1080, 2280));
}

// ------------------------------------------------------------------
// Sidecars
// ------------------------------------------------------------------

fn target(name: &str, w: u32, h: u32) -> MatchTargetDef {
    MatchTargetDef { name: name.to_string(), crop: CropRect { x: 0, y: 0, width: w, height: h } }
}

#[test]
fn test_sidecar_path_derives_from_png() {
    let sidecar = TemplateSidecar::sidecar_path("/tmp/images/screen.png");
    assert_eq!(sidecar, "/tmp/images/screen.json");
    assert_eq!(TemplateSidecar::sidecar_path("login.png"), "login.json");
    assert_eq!(TemplateSidecar::sidecar_path("noext"), "noext.json");
}

#[test]
fn test_has_sidecar_false_when_missing() {
    assert!(!TemplateSidecar::has_sidecar("/nonexistent-directory-for-sidecars/screen.png"));
}

#[test]
fn test_add_target_saves_immediately() {
    let mut sidecar = TemplateSidecar::default();
    sidecar.add_target(target("btn", 50, 30)).unwrap();
    assert_eq!(sidecar.match_targets[0].name, "btn");
}

#[test]
fn test_add_duplicate_name_is_error() {
    let mut sidecar = TemplateSidecar::default();
    let t = target("btn", 50, 30);
    sidecar.add_target(t.clone()).unwrap();
    assert!(sidecar.add_target(t).is_err());
}

#[test]
fn duplicate_name_error_text() {
    let mut sidecar = TemplateSidecar::default();
    sidecar.add_target(target("btn", 50, 30)).unwrap();
    assert_eq!(
        sidecar.add_target(target("btn", 1, 1)),
        Err("MatchTarget 'btn' already exists".to_string())
    );
    assert_eq!(sidecar.match_targets.len(), 1);
}

#[test]
fn test_remove_target() {
    let mut sidecar = TemplateSidecar::default();
    sidecar.add_target(target("btn", 50, 30)).unwrap();
    sidecar.remove_target("btn").unwrap();
    assert!(sidecar.match_targets.is_empty());
}

#[test]
fn test_rename_target() {
    let mut sidecar = TemplateSidecar::default();
    sidecar.add_target(target("old", 10, 10)).unwrap();
    sidecar.rename_target("old", "new").unwrap();
    assert_eq!(sidecar.match_targets[0].name, "new");
}

#[test]
fn test_remove_nonexistent_is_error() {
    let mut sidecar = TemplateSidecar::default();
    assert!(sidecar.remove_target("ghost").is_err());
    assert_eq!(
        sidecar.remove_target("ghost"),
        Err("MatchTarget 'ghost' not found".to_string())
    );
}

#[test]
fn rename_refusals() {
    let mut sidecar = TemplateSidecar::default();
    sidecar.add_target(target("a", 1, 1)).unwrap();
    sidecar.add_target(target("b", 2, 2)).unwrap();
    assert_eq!(
        sidecar.rename_target("a", "b"),
        Err("MatchTarget 'b' already exists".to_string())
    );
    assert_eq!(
        sidecar.rename_target("zzz", "c"),
        Err("MatchTarget 'zzz' not found".to_string())
    );
    sidecar.rename_target("a", "c").unwrap();
    sidecar.rename_target("c", "a").unwrap();
    assert_eq!(sidecar.match_targets[0], target("a", 1, 1));
}

#[test]
fn add_then_remove_restores_targets() {
    let mut sidecar = TemplateSidecar::default();
    sidecar.add_target(target("keep", 1, 1)).unwrap();
    let before = sidecar.clone();
    sidecar.add_target(target("temp", 2, 2)).unwrap();
    sidecar.remove_target("temp").unwrap();
    assert_eq!(sidecar.match_targets, before.match_targets);
}

#[test]
fn remove_drops_every_target_of_the_name() {
    let mut sidecar = TemplateSidecar::default();
    sidecar.match_targets.push(target("dup", 1, 1));
    sidecar.match_targets.push(target("other", 1, 1));
    sidecar.match_targets.push(target("dup", 2, 2));
    sidecar.remove_target("dup").unwrap();
    assert_eq!(sidecar.match_targets, vec![target("other", 1, 1)]);
}

// ------------------------------------------------------------------
// Templates
// ------------------------------------------------------------------

fn template(name: &str, category: TemplateCategory) -> Template {
    Template {
        path: "test.png".to_string(),
        name: "test".to_string(),
        match_target_name: name.to_string(),
        search_region: SearchRegion::new(0, 0, 200, 200, "test".to_string()),
        crop_x: 0,
        crop_y: 0,
        width: 50,
        height: 50,
        category,
    }
}

#[test]
fn test_template_match_tap_coordinates() {
    let t = template("test", TemplateCategory::Unknown);
    let (tap_x, tap_y) = t.get_tap_coordinates(100, 150);
    assert_eq!(tap_x, 125);
    assert_eq!(tap_y, 175);
}

#[test]
fn test_template_match_within_bounds() {
    let t = template("test", TemplateCategory::Unknown);
    assert!(t.tap_within_bounds(100, 150, 1080, 2280));
    assert!(t.tap_within_bounds(1050, 2250, 1080, 2280));
    assert!(!t.tap_within_bounds(1060, 100, 1080, 2280));
}

#[test]
fn categories_from_names() {
    assert_eq!(Template::determine_category("Login_BUTTON"), TemplateCategory::Button);
    assert_eq!(Template::determine_category("close_btn"), TemplateCategory::Button);
    assert_eq!(Template::determine_category("gear_icon"), TemplateCategory::Icon);
    assert_eq!(Template::determine_category("main_menu"), TemplateCategory::UI);
    assert_eq!(Template::determine_category("score_label"), TemplateCategory::Text);
    assert_eq!(Template::determine_category("gold_item"), TemplateCategory::GameObject);
    assert_eq!(Template::determine_category("logo"), TemplateCategory::Unknown);
    assert_eq!(Template::determine_category("icon_button"), TemplateCategory::Button);
}

#[test]
fn template_from_target() {
    let region = SearchRegion::new(0, 0, 100, 100, "r".to_string());
    let t = Template::from_match_target(
        "/img/login.png".to_string(),
        region.clone(),
        &MatchTargetDef {
            name: "login_button".to_string(),
            crop: CropRect { x: 120, y: 540, width: 200, height: 60 },
        },
        1080,
        2280,
    )
    .unwrap();
    assert_eq!(t.name, "login");
    assert_eq!(t.match_target_name, "login_button");
    assert_eq!((t.crop_x, t.crop_y, t.width, t.height), (120, 540, 200, 60));
    assert_eq!(t.category, TemplateCategory::Button);
    assert!(t.is_valid_given(true));
    assert!(!t.is_valid_given(false));
    assert!(!t.is_valid());
}

#[test]
fn crop_past_the_image_is_an_error() {
    let region = SearchRegion::new(0, 0, 100, 100, "r".to_string());
    let r = Template::from_match_target(
        "a.png".to_string(),
        region,
        &MatchTargetDef {
            name: "wide".to_string(),
            crop: CropRect { x: 10, y: 0, width: u32::MAX, height: 5 },
        },
        100,
        50,
    );
    assert_eq!(
        r.err(),
        Some(format!(
            "MatchTarget 'wide' crop [10,0,{},5] exceeds image bounds (100x50)",
            u32::MAX
        ))
    );
}

fn source(file_name: &str, targets: Vec<MatchTargetDef>, size: Option<(u32, u32)>) -> TemplateSource {
    TemplateSource {
        file_name: file_name.to_string(),
        file_path: format!("/images/{}", file_name),
        sidecar: TemplateSidecar { match_targets: targets },
        image_size: size,
    }
}

#[test]
fn loading_templates_from_sources() {
    let mut m = TemplateManager::new(1080, 2280);
    let sources = vec![
        source(
            "screen-[10,20,300,400].png",
            vec![target("zeta_item", 10, 10), target("alpha_btn", 5, 5), target("huge", 5000, 5)],
            Some((1000, 1000)),
        ),
        source("notes.txt", vec![target("text_label", 1, 1)], Some((10, 10))),
        source("broken.png", vec![target("menu", 1, 1)], None),
        source("flat.png", vec![target("empty", 0, 3), target("b_icon", 2, 2)], Some((10, 10))),
    ];
    let n = m.load_templates_from_sources(&sources);
    assert_eq!(n, 3);
    assert_eq!(m.count(), 3);
    let names: Vec<&str> =
        m.get_templates().iter().map(|t| t.match_target_name.as_str()).collect();
    assert_eq!(names, vec!["alpha_btn", "b_icon", "zeta_item"]);
    let first = &m.get_templates()[0];
    assert_eq!(first.search_region.name, "parsed_10_20_300_400");
    assert_eq!(first.name, "screen-[10,20,300,400]");
    let icon = m.get_template_by_target_name("b_icon").unwrap();
    assert_eq!(icon.search_region, SearchRegion::full_screen(1080, 2280));
    assert!(m.get_template_by_target_name("menu").is_none());
    assert_eq!(m.get_templates_by_category(TemplateCategory::GameObject).len(), 1);
    assert_eq!(m.get_templates_by_category(TemplateCategory::UI).len(), 0);
}

#[test]
fn templates_list_by_category_then_name() {
    let mut m = TemplateManager::new(100, 100);
    let sources = vec![source(
        "a.png",
        vec![
            target("unknown_b", 1, 1),
            target("unknown_a", 1, 1),
            target("z_button", 1, 1),
            target("a_icon", 1, 1),
        ],
        Some((10, 10)),
    )];
    m.load_templates_from_sources(&sources);
    let names: Vec<&str> =
        m.get_templates().iter().map(|t| t.match_target_name.as_str()).collect();
    assert_eq!(names, vec!["z_button", "a_icon", "unknown_a", "unknown_b"]);
}

#[test]
fn reload_replaces_and_clear_empties() {
    let mut m = TemplateManager::new(100, 100);
    let one = vec![source("a.png", vec![target("x_btn", 1, 1)], Some((10, 10)))];
    m.load_templates_from_sources(&one);
    m.load_templates_from_sources(&one);
    assert_eq!(m.count(), 2);
    assert_eq!(m.reload_templates(&one), 1);
    assert_eq!(m.count(), 1);
    m.clear();
    assert_eq!(m.count(), 0);
}

#[test]
fn search_windows() {
    assert_eq!(search_window(10, 10, 20, 5, None, 3), None);
    assert_eq!(
        search_window(100, 80, 10, 20, None, 3),
        Some(SearchWindow { x_min: 0, x_max: 90, y_min: 0, y_max: 60 })
    );
    assert_eq!(
        search_window(100, 80, 10, 20, Some((50, 5)), 10),
        Some(SearchWindow { x_min: 40, x_max: 70, y_min: 0, y_max: 35 })
    );
    assert_eq!(
        search_window(100, 80, 10, 20, Some((95, 70)), 10),
        Some(SearchWindow { x_min: 85, x_max: 90, y_min: 60, y_max: 60 })
    );
}
