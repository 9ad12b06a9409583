use meetily::clock::Moment;
use meetily::database::query::{Param, Query};
use meetily::database::repositories::tags::{
    new_tag, normalize_name, normalize_optional, CreateStep, TagError, TagsRepository,
    CLEAR_MEETING, LINK_TAG,
};

const NOW: Moment = Moment { secs: 1_700_000_000, nanos: 0 };

#[test]
fn optional_texts_are_trimmed_and_dropped_when_blank() {
    assert_eq!(normalize_optional(None), None);
    assert_eq!(normalize_optional(Some("  ")), None);
    assert_eq!(normalize_optional(Some(" blue ")), Some("blue".to_string()));
}

#[test]
fn names_are_trimmed_and_never_blank() {
    assert_eq!(normalize_name("  Payzli  ").unwrap(), "Payzli");
    match normalize_name(" \n") {
        Err(TagError::Protocol(m)) => assert_eq!(m, "tag name cannot be empty"),
        _ => panic!("expected a refusal"),
    }
}

#[test]
fn new_tags_are_complete() {
    let t = new_tag("id".to_string(), "Payzli".to_string(), Some("blue"), Some("  "), NOW);
    assert_eq!(t.id, "id");
    assert_eq!(t.name, "Payzli");
    assert_eq!(t.color.as_deref(), Some("blue"));
    assert_eq!(t.description, None);
    assert_eq!(t.created_at, "2023-11-14T22:13:20+00:00");
    assert_eq!(t.updated_at, t.created_at);
    assert_eq!(t.meeting_count, 0);
}

#[test]
fn taken_names_lead_to_the_existing_tag() {
    let step = TagsRepository::create_tag(
        "payzli".to_string(),
        Some("red"),
        None,
        Some("first".to_string()),
        NOW,
    );
    assert!(matches!(step, CreateStep::Fetch(id) if id == "first"));
    match TagsRepository::create_tag("Payzli".to_string(), None, Some(" d "), None, NOW) {
        CreateStep::Insert(t) => {
            assert_eq!(t.id.len(), 36);
            assert_eq!(t.id.matches('-').count(), 4);
            assert_eq!(t.id.as_bytes()[14], b'4');
            assert_eq!(t.description.as_deref(), Some("d"));
        }
        _ => panic!("expected a new tag"),
    }
    assert!(matches!(TagsRepository::require_tag(None), Err(TagError::RowNotFound)));
}

#[test]
fn updates_refuse_names_of_other_tags() {
    match TagsRepository::update_tag("Payzli".to_string(), None, None, true, NOW) {
        Err(TagError::Protocol(m)) => assert_eq!(m, "a tag named \"Payzli\" already exists"),
        _ => panic!("expected a refusal"),
    }
    let u = TagsRepository::update_tag("P".to_string(), Some(" "), Some("x"), false, NOW).unwrap();
    assert_eq!(u.name, "P");
    assert_eq!(u.color, None);
    assert_eq!(u.description.as_deref(), Some("x"));
    assert_eq!(u.updated_at, "2023-11-14T22:13:20+00:00");
    assert!(matches!(TagsRepository::require_changed(0), Err(TagError::RowNotFound)));
    assert!(TagsRepository::require_changed(1).is_ok());
    assert!(TagsRepository::was_deleted(1));
    assert!(!TagsRepository::was_deleted(0));
}

#[test]
fn ids_must_not_be_blank() {
    assert!(TagsRepository::get_meeting_tags("m").is_ok());
    match TagsRepository::get_meeting_tags(" ") {
        Err(TagError::Protocol(m)) => assert_eq!(m, "meeting_id cannot be empty"),
        _ => panic!("expected a refusal"),
    }
    assert!(TagsRepository::get_meetings_for_tag("t").is_ok());
    match TagsRepository::get_meetings_for_tag("") {
        Err(TagError::Protocol(m)) => assert_eq!(m, "tag_id cannot be empty"),
        _ => panic!("expected a refusal"),
    }
}

fn given(q: &Query) -> Vec<String> {
    q.params
        .iter()
        .map(|p| match p {
            Param::Text(t) => t.clone(),
            other => format!("{:?}", other),
        })
        .collect()
}

#[test]
fn links_skip_blank_ids() {
    let ids = vec![" a ".to_string(), "  ".to_string(), "b".to_string()];
    let statements = TagsRepository::set_meeting_tags("m", true, &ids, NOW).unwrap();
    let stamp = "2023-11-14T22:13:20+00:00";
    assert_eq!(
        statements.iter().map(given).collect::<Vec<_>>(),
        vec![vec!["m"], vec!["m", stamp, "a"], vec!["m", stamp, "b"]]
    );
    assert_eq!(statements[0].sql, CLEAR_MEETING);
    assert_eq!(statements[1].sql, LINK_TAG);
    assert!(matches!(
        TagsRepository::set_meeting_tags("m", false, &ids, NOW),
        Err(TagError::RowNotFound)
    ));
    assert!(matches!(
        TagsRepository::set_meeting_tags(" ", false, &ids, NOW),
        Err(TagError::Protocol(m)) if m == "meeting_id cannot be empty"
    ));
}
