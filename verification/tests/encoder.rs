use browser_agent::executor::make_extraction;
use browser_agent::executor::plan;
use browser_agent::executor::BrowserCommand;
use browser_agent::snapshot::capture_dom_snapshot;
use browser_agent::snapshot::truncate_to_budget;
use browser_agent::snapshot::DomNode;
use browser_agent::snapshot::ElementKind;
use browser_agent::types::Step;
use browser_agent::types::DOM_SNAPSHOT_MAX_CHARS;

fn node(kind: ElementKind, text: &str, children: Vec<DomNode>) -> DomNode {
    DomNode {
        kind,
        visible: true,
        text: text.to_string(),
        input_type: String::new(),
        placeholder: String::new(),
        name: String::new(),
        value: String::new(),
        options: vec![],
        children,
    }
}

#[test]
fn snapshot_assigns_sequential_identifiers_in_traversal_order() {
    let root = node(
        ElementKind::Other,
        "",
        vec![
            node(ElementKind::Anchor, "  Home  ", vec![]),
            node(ElementKind::Other, "Hello world", vec![]),
            DomNode {
                kind: ElementKind::Input,
                visible: true,
                text: String::new(),
                input_type: String::new(),
                placeholder: "Search".to_string(),
                name: "q".to_string(),
                value: String::new(),
                options: vec![],
                children: vec![],
            },
            node(ElementKind::Button, "Go", vec![]),
        ],
    );
    let snap = capture_dom_snapshot(&root);
    assert_eq!(
        snap,
        "[e0] link \"Home\"\n  \"Hello world\"\n[e1] input type=text placeholder=\"Search\" name=q\n[e2] button \"Go\""
    );
}

#[test]
fn snapshot_skips_hidden_and_non_content_subtrees() {
    let root = node(
        ElementKind::Other,
        "",
        vec![
            node(ElementKind::Script, "var x = 1;", vec![node(ElementKind::Anchor, "inside", vec![])]),
            DomNode { visible: false, ..node(ElementKind::Anchor, "hidden", vec![]) },
            node(ElementKind::Anchor, "shown", vec![]),
        ],
    );
    let snap = capture_dom_snapshot(&root);
    assert_eq!(snap, "[e0] link \"shown\"");
}

#[test]
fn snapshot_suppresses_duplicate_text_lines() {
    let root = node(
        ElementKind::Other,
        "",
        vec![
            node(ElementKind::Other, "same words", vec![]),
            node(ElementKind::Other, "same words", vec![]),
            node(ElementKind::Other, "other words", vec![]),
        ],
    );
    let snap = capture_dom_snapshot(&root);
    assert_eq!(snap, "  \"same words\"\n  \"other words\"");
}

#[test]
fn snapshot_text_window_and_leaf_rule() {
    let root = node(
        ElementKind::Other,
        "",
        vec![
            node(ElementKind::Other, "ab", vec![]),                  // too short
            node(ElementKind::Other, &"x".repeat(200), vec![]),      // too long
            node(ElementKind::Other, "kept", vec![]),
            node(ElementKind::Other, "parent text", vec![node(ElementKind::Other, "child text", vec![])]),
        ],
    );
    let snap = capture_dom_snapshot(&root);
    // The parent has children, so only its child's leaf text is emitted.
    assert_eq!(snap, "  \"kept\"\n  \"child text\"");
}

#[test]
fn snapshot_clips_link_text_and_select_options() {
    let long = "a".repeat(80);
    let sel = DomNode {
        kind: ElementKind::Select,
        visible: true,
        text: String::new(),
        input_type: String::new(),
        placeholder: String::new(),
        name: String::new(),
        value: String::new(),
        options: vec![" One ".to_string(), "Two".to_string()],
        children: vec![],
    };
    let root = node(
        ElementKind::Other,
        "",
        vec![node(ElementKind::Anchor, &long, vec![]), sel],
    );
    let snap = capture_dom_snapshot(&root);
    let expected_link = format!("[e0] link \"{}\"", "a".repeat(60));
    assert_eq!(snap, format!("{}\n[e1] select [One|Two]", expected_link));
}

#[test]
fn snapshot_respects_the_character_budget_with_exact_marker() {
    let mut children = Vec::new();
    for i in 0..60 {
        children.push(node(
            ElementKind::Other,
            &format!("{:02} {}", i, "w".repeat(90)),
            vec![],
        ));
    }
    let root = node(ElementKind::Other, "", children);
    let snap = capture_dom_snapshot(&root);
    assert!(snap.chars().count() <= DOM_SNAPSHOT_MAX_CHARS);

    // Reconstruct the untruncated text to check the marker's exact count.
    let mut lines = Vec::new();
    for i in 0..60 {
        lines.push(format!("  \"{:02} {}\"", i, "w".repeat(90)));
    }
    let full = lines.join("\n");
    let total = full.chars().count();
    assert!(total > DOM_SNAPSHOT_MAX_CHARS);
    let marker = format!("\n... [truncated, {} total chars]", total);
    assert!(snap.ends_with(&marker));
    let keep = DOM_SNAPSHOT_MAX_CHARS - marker.chars().count();
    let expected: String = full.chars().take(keep).chain(marker.chars()).collect();
    assert_eq!(snap, expected);
}

#[test]
fn snapshot_depth_is_bounded() {
    // A chain 20 deep: anchors past depth 15 are not visited.
    let mut tree = node(ElementKind::Anchor, "deepest", vec![]);
    for i in (0..20).rev() {
        tree = node(ElementKind::Anchor, &format!("level {}", i), vec![tree]);
    }
    let root = node(ElementKind::Other, "", vec![tree]);
    let snap = capture_dom_snapshot(&root);
    assert!(snap.contains("level 0"));
    assert!(snap.contains("level 15"));
    assert!(!snap.contains("level 16"));
    assert!(!snap.contains("deepest"));
}

#[test]
fn plan_navigate_waits_for_body_and_settles() {
    let cmds = plan(&Step::Navigate { url: "https://a".to_string() });
    assert_eq!(cmds.len(), 3);
    assert!(matches!(&cmds[0], BrowserCommand::Navigate { url } if url == "https://a"));
    assert!(matches!(
        &cmds[1],
        BrowserCommand::WaitForElement { selector, timeout_ms: None } if selector == "body"
    ));
    assert!(matches!(&cmds[2], BrowserCommand::Sleep { millis: 1500 }));
}

#[test]
fn plan_type_into_clicks_clears_then_types() {
    let cmds = plan(&Step::TypeInto { selector: "[data-eid='[e0]']".to_string(), text: "X".to_string() });
    assert_eq!(cmds.len(), 3);
    assert!(matches!(&cmds[0], BrowserCommand::FindAndClick { selector } if selector == "[data-eid='[e0]']"));
    assert!(matches!(
        &cmds[1],
        BrowserCommand::EvalScript { script }
            if script == "document.querySelector('[data-eid=\\'[e0]\\']').value = ''"
    ));
    assert!(matches!(&cmds[2], BrowserCommand::TypeText { text } if text == "X"));
}

#[test]
fn plan_click_and_press_key_settle() {
    let cmds = plan(&Step::Click { selector: "#b".to_string() });
    assert_eq!(cmds.len(), 2);
    assert!(matches!(&cmds[1], BrowserCommand::Sleep { millis: 1000 }));
    let cmds = plan(&Step::PressKey { key: "Enter".to_string() });
    assert_eq!(cmds.len(), 2);
    assert!(matches!(&cmds[0], BrowserCommand::PressKey { key } if key == "Enter"));
}

#[test]
fn plan_wait_for_carries_the_caller_timeout() {
    let cmds = plan(&Step::WaitFor { selector: "#q".to_string(), timeout_ms: 5000 });
    assert_eq!(cmds.len(), 1);
    assert!(matches!(
        &cmds[0],
        BrowserCommand::WaitForElement { selector, timeout_ms: Some(5000) } if selector == "#q"
    ));
}

#[test]
fn plan_extract_reads_text_with_escaped_selector() {
    let cmds = plan(&Step::Extract { selector: "bo'dy".to_string(), label: "main".to_string() });
    assert_eq!(cmds.len(), 1);
    assert!(matches!(
        &cmds[0],
        BrowserCommand::ReadText { script }
            if script == "(document.querySelector('bo\\'dy') || {}).innerText || ''"
    ));
}

#[test]
fn plan_terminal_and_session_steps_touch_no_page() {
    assert_eq!(plan(&Step::Screenshot).len(), 0);
    assert_eq!(plan(&Step::Done { summary: "s".to_string() }).len(), 0);
    assert_eq!(plan(&Step::NewTab).len(), 0);
}

#[test]
fn extraction_content_is_capped() {
    let long = "y".repeat(2500);
    let e = make_extraction("result", &long);
    assert_eq!(e.label, "result");
    assert_eq!(e.content.chars().count(), 2000);
    assert_eq!(e.content, "y".repeat(2000));

    let short = make_extraction("r", "tiny");
    assert_eq!(short.content, "tiny");
}

#[test]
fn truncation_boundary_is_exact() {
    let exactly: Vec<char> = "x".repeat(DOM_SNAPSHOT_MAX_CHARS).chars().collect();
    let out = truncate_to_budget(&exactly);
    assert_eq!(out.len(), DOM_SNAPSHOT_MAX_CHARS);
    assert_eq!(out, exactly);

    let over: Vec<char> = "x".repeat(DOM_SNAPSHOT_MAX_CHARS + 1).chars().collect();
    let out: String = truncate_to_budget(&over).into_iter().collect();
    assert_eq!(out.chars().count(), DOM_SNAPSHOT_MAX_CHARS);
    assert!(out.ends_with(&format!(
        "\n... [truncated, {} total chars]",
        DOM_SNAPSHOT_MAX_CHARS + 1
    )));
}

#[test]
fn empty_tree_yields_empty_snapshot() {
    let root = node(ElementKind::Other, "", vec![]);
    assert_eq!(capture_dom_snapshot(&root), "");
}
