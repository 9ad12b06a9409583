use meetily::database::models::TagModel;
use meetily::summary::auto_tag::{
    accept_names, braced_at, build_prompts, has_work, member_names, member_value, outer_span, parse_tag_names, pick_ids,
    reply_part, resolve_tag_ids, single_line, strip_thinking, tags_from_reply, ReplyPart,
};

fn tag(id: &str, name: &str, description: Option<&str>) -> TagModel {
    TagModel {
        id: id.to_string(),
        name: name.to_string(),
        color: None,
        description: description.map(str::to_string),
        created_at: String::new(),
        updated_at: String::new(),
        meeting_count: 0,
    }
}

fn names(values: &[&str]) -> Vec<String> {
    values.iter().map(|v| v.to_string()).collect()
}

#[test]
fn prompts_list_tags_with_descriptions_on_one_line() {
    let tags = vec![
        tag("1", "Payzli", Some("Client meetings\nabout payments")),
        tag("2", "Follow-up", None),
        tag("3", "Internal", Some("   ")),
    ];

    let (system, user) = build_prompts(&tags, "Weekly sync", "## Notes\n- item");

    assert!(system.contains("- Payzli: Client meetings about payments\n"));
    assert!(system.contains("- Follow-up\n"));
    assert!(system.contains("- Internal\n"));
    assert!(system.contains(r#"{"tags": ["Tag name", "Another tag"]}"#));
    assert!(user.starts_with("Meeting title: Weekly sync"));
    assert!(user.contains("<summary>\n## Notes\n- item\n</summary>"));
}

#[test]
fn parses_plain_json_object() {
    assert_eq!(
        parse_tag_names(r#"{"tags": ["Payzli", "Follow-up"]}"#),
        Some(names(&["Payzli", "Follow-up"]))
    );
}

#[test]
fn parses_json_inside_code_fence_and_prose() {
    let reply = "Here are the tags:\n```json\n{\"tags\": [\"Payzli\"]}\n```";
    assert_eq!(parse_tag_names(reply), Some(names(&["Payzli"])));
}

#[test]
fn parses_json_after_thinking_block() {
    let reply = "<think>The meeting is about {payments}</think>\n{\"tags\": [\"Payzli\"]}";
    assert_eq!(parse_tag_names(reply), Some(names(&["Payzli"])));
}

#[test]
fn parses_empty_list() {
    assert_eq!(parse_tag_names(r#"{"tags": []}"#), Some(vec![]));
}

#[test]
fn falls_back_to_bare_array() {
    assert_eq!(
        parse_tag_names(r#"["Payzli", "Internal"]"#),
        Some(names(&["Payzli", "Internal"]))
    );
}

#[test]
fn rejects_unreadable_reply() {
    assert_eq!(parse_tag_names("Payzli, Follow-up"), None);
    assert_eq!(parse_tag_names(r#"{"labels": ["Payzli"]}"#), None);
    assert_eq!(parse_tag_names(""), None);
}

#[test]
fn resolves_names_case_insensitively_without_duplicates() {
    let tags = vec![tag("1", "Payzli", None), tag("2", "Follow-up", None)];

    let ids = resolve_tag_ids(&names(&[" payzli ", "FOLLOW-UP", "Payzli", "Unknown"]), &tags);

    assert_eq!(ids, vec!["1".to_string(), "2".to_string()]);
}

#[test]
fn resolves_nothing_for_unknown_names() {
    let tags = vec![tag("1", "Payzli", None)];
    assert!(resolve_tag_ids(&names(&["Other"]), &tags).is_empty());
}

#[test]
fn whole_prompts_are_exact() {
    let (system, user) = build_prompts(
        &[tag("1", " A  b ", Some(" c\t\td ")), tag("2", "E", None)],
        " T\n1 ",
        "\n s \n",
    );
    assert_eq!(
        system,
        "You label meeting summaries with tags.\n\nPick every tag from the list below that clearly applies to the meeting. Use only tags from this list and copy each name exactly as written. Do not invent tags. If no tag applies, return an empty list.\n\nAvailable tags:\n- A b: c d\n- E\n\nRespond with only a JSON object and nothing else, in this exact shape:\n{\"tags\": [\"Tag name\", \"Another tag\"]}"
    );
    assert_eq!(user, "Meeting title: T 1\n\n<summary>\ns\n</summary>");
}

#[test]
fn one_line_is_like_split_whitespace() {
    for s in ["", "  ", "a", " a\u{a0}b\u{3000}c\r\nd ", "x\u{2028}y\u{85}z", "é  è"] {
        assert_eq!(single_line(s), s.split_whitespace().collect::<Vec<_>>().join(" "));
    }
}

#[test]
fn thinking_blocks_are_removed() {
    assert_eq!(strip_thinking("a<think>b</think>c<thinking>d</thinking>e"), "ace");
    assert_eq!(strip_thinking("a<think>b<think>c</think>d"), "ad");
    assert_eq!(strip_thinking("a<think>b"), "a<think>b");
    assert_eq!(strip_thinking("</think>a<think>"), "</think>a<think>");
    assert_eq!(strip_thinking("<think>[\"x\"]</thinking>é"), "é");
    assert_eq!(strip_thinking("<think></think>"), "");
}

#[test]
fn spans_reach_from_first_to_last() {
    assert_eq!(outer_span("a{b}c}d", '{', '}'), Some("{b}c}"));
    assert_eq!(outer_span("}x{", '{', '}'), None);
    assert_eq!(outer_span("{", '{', '}'), None);
    assert_eq!(outer_span("é[ü]", '[', ']'), Some("[ü]"));
    assert_eq!(reply_part("[1] {\"a\": 2}"), ReplyPart::Object("{\"a\": 2}"));
    assert_eq!(reply_part("[1] {2}"), ReplyPart::Array("[1]"));
    assert_eq!(reply_part("{[1]}"), ReplyPart::Nothing);
    assert_eq!(reply_part("x [1] y"), ReplyPart::Array("[1]"));
    assert_eq!(reply_part("] {"), ReplyPart::Nothing);
}

#[test]
fn objects_of_other_shapes_are_no_tags() {
    assert_eq!(parse_tag_names(r#"{"not_applicable": ["A"]} ["B"]"#), None);
    assert_eq!(parse_tag_names(r#"{"tags": "A"}"#), None);
    assert_eq!(parse_tag_names(r#"{"tags": ["A", 1]}"#), None);
    assert_eq!(parse_tag_names(r#"{"tags": null}"#), None);
    assert_eq!(parse_tag_names(r#"{"tags": ["A"], "why": {"n": 1e999}}"#), Some(names(&["A"])));
    assert_eq!(parse_tag_names(r#"{"tags": ["é\n"]}"#), Some(names(&["é\n"])));
    assert_eq!(parse_tag_names("[1, 2]"), None);
}

#[test]
fn keys_pick_ids_in_order() {
    let picked = pick_ids(
        &names(&["b", "a", "b", "z"]),
        &names(&["a", "b", "b"]),
        &names(&["1", "2", "3"]),
    );
    assert_eq!(picked, names(&["2", "1"]));
}

#[test]
fn first_tag_of_a_name_wins_and_case_is_unicode() {
    let tags = vec![tag("1", "ÉQUIPE", None), tag("2", " équipe ", None)];
    assert_eq!(resolve_tag_ids(&names(&["Équipe"]), &tags), names(&["1"]));
}

#[test]
fn replies_lead_to_ids_or_reasons() {
    let tags = vec![tag("1", "Payzli", None), tag("2", "Follow-up", None)];
    assert_eq!(
        tags_from_reply("{\"tags\": [\"follow-up\", \"New\"]}", &tags),
        Ok(names(&["2"]))
    );
    assert_eq!(tags_from_reply("{\"tags\": []}", &tags), Ok(vec![]));
    assert_eq!(
        tags_from_reply(" no idea \n", &tags),
        Err("could not read tags from the LLM reply: no idea".to_string())
    );
    assert_eq!(
        tags_from_reply("{\"tags\": [\"New\", \"Other\"]}", &tags),
        Err("the LLM picked no existing tag (reply: New, Other)".to_string())
    );
    assert_eq!(accept_names("", Some(vec![]), vec![]), Ok(vec![]));
}

#[test]
fn nothing_to_tag_without_summary_or_tags() {
    assert!(has_work("text", 1));
    assert!(!has_work(" \n ", 1));
    assert!(!has_work("text", 0));
}

#[test]
fn members_are_named_at_the_top_only() {
    let object = r#"{"a": {"tags": 1, "b": [","]}, "say \"hi\"": "tags", "c\u0064": []}"#;
    assert_eq!(member_names(object), vec![r#""a""#, r#""say \"hi\"""#, r#""c\u0064""#]);
    assert!(member_names("{}").is_empty());
    assert_eq!(member_names(r#"{"open\"#), vec![r#""open\"#]);
}

#[test]
fn tags_given_twice_are_not_read() {
    assert_eq!(parse_tag_names(r#"{"tags": ["A"], "tags": ["B"]}"#), None);
    assert_eq!(parse_tag_names(r#"{"tags": ["A"], "t\u0061gs": ["B"]}"#), None);
    assert_eq!(
        parse_tag_names(r#"{"why": {"tags": ["B"]}, "tags": ["A"], "tags ": 1}"#),
        Some(names(&["A"]))
    );
    assert_eq!(parse_tag_names(r#"{"t\u0061gs": ["A"]}"#), Some(names(&["A"])));
}

#[test]
fn the_first_object_is_read() {
    assert_eq!(
        parse_tag_names("{\"tags\": [\"Payzli\"]} {\"note\": \"done\"}"),
        Some(names(&["Payzli"]))
    );
    assert_eq!(
        parse_tag_names(r#"{"tags": ["A"]} or, better, {"tags": ["B"]}."#),
        Some(names(&["A"]))
    );
    assert_eq!(parse_tag_names(r#"{"note": "done"} {"tags": ["A"]}"#), None);
    assert_eq!(
        parse_tag_names(r#"About {payments}: {"tags": ["A"], "why": "} {"} bye }"#),
        Some(names(&["A"]))
    );
    assert_eq!(parse_tag_names(r#"{open {"tags": ["A"]}"#), Some(names(&["A"])));
    assert_eq!(parse_tag_names(r#"{"tags": ["A"]} {"tags": ["B"], "tags": []}"#), Some(names(&["A"])));
}

#[test]
fn bare_arrays_stand_outside_of_braces() {
    assert_eq!(parse_tag_names(r#"About {payments}: ["A"]"#), Some(names(&["A"])));
    assert_eq!(parse_tag_names(r#"["A"] and {that}"#), Some(names(&["A"])));
    assert_eq!(parse_tag_names(r#"{"not_applicable": ["A"],}"#), None);
    assert_eq!(parse_tag_names(r#"{"tags": ["A"]"#), Some(names(&["A"])));
}

#[test]
fn braces_are_matched_outside_strings() {
    assert_eq!(braced_at(r#"x{"a}": {"b": "\"}"}} }"#, 1), Some(r#"{"a}": {"b": "\"}"}}"#));
    assert_eq!(braced_at("é{ü}{", 1), Some("{ü}"));
    assert_eq!(braced_at("é{ü}{", 4), None);
    assert_eq!(braced_at("é{ü}{", 0), None);
    assert_eq!(braced_at("é{ü}{", 9), None);
    assert_eq!(braced_at("{\"}", 0), None);
}

#[test]
fn members_are_looked_up_by_name() {
    let members = vec![
        ("a".to_string(), "1".to_string()),
        ("tags".to_string(), "[]".to_string()),
        ("tags".to_string(), "2".to_string()),
    ];
    assert_eq!(member_value(&members, "tags"), Some("[]"));
    assert_eq!(member_value(&members, "Tags"), None);
    assert_eq!(member_value(&[], "tags"), None);
}
