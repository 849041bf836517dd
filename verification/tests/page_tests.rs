use tag_timer::templates::{render_timers, FormatError, MainPage};
use tag_timer::timer_store::{DataStore, Project, Timer};
use tag_timer::uid::TagId;

fn sample_groups() -> Vec<(Project, Vec<Timer>)> {
    let project = Project {
        id: 1,
        name: String::from("garden"),
        is_current: true,
        unique_id: String::from("key"),
    };
    let timer = Timer {
        id: 1,
        unique_id: String::from("key"),
        project_id: 1,
        start_time: 100,
        is_current: false,
        duration: 50,
    };
    vec![(project, vec![timer])]
}

#[test]
fn page_defaults_to_pacific() {
    let page = MainPage::new(
        String::from("tag-name"),
        sample_groups(),
        None,
        String::from("https://example.test"),
    )
    .unwrap();

    assert_eq!(page.current_timezone, "US-Pacific");
    assert_eq!(page.tag_name, "tag-name");
    assert_eq!(page.uri_base, "https://example.test");
    assert_eq!(
        page.timezones,
        vec!["US-Mountain", "US-Central", "US-Eastern"]
    );
}

#[test]
fn page_honours_requested_timezone() {
    let page = MainPage::new(
        String::from("tag-name"),
        sample_groups(),
        Some(String::from("US-Eastern")),
        String::from("https://example.test"),
    )
    .unwrap();

    assert_eq!(page.current_timezone, "US-Eastern");
    assert_eq!(
        page.timezones,
        vec!["US-Pacific", "US-Mountain", "US-Central"]
    );
}

#[test]
fn page_rejects_unknown_timezone() {
    let r = MainPage::new(
        String::from("tag-name"),
        sample_groups(),
        Some(String::from("Else-Where")),
        String::from("https://example.test"),
    );
    assert_eq!(r.unwrap_err(), FormatError::UnknownTimezone);
}

#[test]
fn page_sections_carry_download_links() {
    let page = MainPage::new(
        String::from("tag-name"),
        sample_groups(),
        None,
        String::from("https://example.test"),
    )
    .unwrap();

    assert_eq!(page.projects.len(), 1);
    let section = &page.projects[0];
    assert_eq!(section.name, "garden");
    assert_eq!(section.download_file_name, "garden.csv");
    assert_eq!(
        section.download_link,
        "https://example.test/export/tag-name/garden.csv/US-Pacific"
    );
    assert_eq!(section.timers.len(), 1);
    assert_eq!(section.timers[0].start_time, 100);
}

#[test]
fn render_timers_builds_page_for_tag() {
    let mut store = DataStore::new();
    let uid = TagId::new("render-tag").unwrap();
    store.create_project(&uid, "garden").unwrap();
    store.toggle_current_at(&uid, 100).unwrap();
    store.toggle_current_at(&uid, 150).unwrap();

    let groups = store.projects_by_tag(&uid).unwrap();
    let key = uid.as_ref().to_string();
    let page = render_timers(uid, None, groups, String::from("base")).unwrap();

    assert_eq!(page.tag_name, key);
    assert_eq!(page.projects.len(), 1);
    assert_eq!(page.projects[0].timers[0].duration, 50);
}
