use channel_relay::discovery::plan_discovery;
use channel_relay::discovery::resolve_plan;
use channel_relay::discovery::ChannelInfo;
use channel_relay::discovery::ChannelKind;
use channel_relay::discovery::MirrorTarget;
use channel_relay::text::mirror_name;
use channel_relay::text::str_contains;
use channel_relay::text::u64_to_dec;

fn chan(id: u64, name: &str, kind: ChannelKind) -> ChannelInfo {
    ChannelInfo { id, name: String::from(name), kind }
}

#[test]
fn decimal_rendering() {
    assert_eq!(u64_to_dec(0), "0");
    assert_eq!(u64_to_dec(7), "7");
    assert_eq!(u64_to_dec(42), "42");
    assert_eq!(u64_to_dec(1294665730368737373), "1294665730368737373");
}

#[test]
fn substring_search() {
    assert!(str_contains("general-42", "42"));
    assert!(str_contains("42-general", "42"));
    assert!(!str_contains("general-4", "42"));
    assert!(str_contains("anything", ""));
    assert!(!str_contains("", "42"));
}

#[test]
fn mirror_name_format() {
    assert_eq!(mirror_name("news", 7), "news-7");
    assert_eq!(mirror_name("updates", 42), "updates-42");
}

#[test]
fn discovery_maps_embedded_id_without_creating() {
    let senders = vec![chan(42, "updates", ChannelKind::Text)];
    let receivers = vec![
        chan(900, "general-41", ChannelKind::Text),
        chan(901, "general-42", ChannelKind::Text),
    ];
    let plan = plan_discovery(&senders, &receivers);
    assert_eq!(plan.len(), 1);
    assert_eq!(plan[0].source, 42);
    match &plan[0].target {
        MirrorTarget::Existing { dest } => assert_eq!(*dest, 901),
        MirrorTarget::Create { .. } => panic!("expected a match, not a creation"),
    }
}

#[test]
fn discovery_creates_named_mirror_when_no_match() {
    let senders = vec![chan(7, "news", ChannelKind::Text)];
    let receivers = vec![chan(900, "general", ChannelKind::Text)];
    let plan = plan_discovery(&senders, &receivers);
    assert_eq!(plan.len(), 1);
    assert_eq!(plan[0].source, 7);
    match &plan[0].target {
        MirrorTarget::Existing { .. } => panic!("expected a creation, not a match"),
        MirrorTarget::Create { name, kind } => {
            assert_eq!(name, "news-7");
            assert_eq!(*kind, ChannelKind::Text);
        }
    }
}

#[test]
fn discovery_skips_categories_on_both_sides() {
    let senders = vec![
        chan(1, "container", ChannelKind::Category),
        chan(2, "talk", ChannelKind::Text),
    ];
    let receivers = vec![
        // a category embedding the identifier must not be matched
        chan(800, "category-2", ChannelKind::Category),
        chan(801, "mirror-2", ChannelKind::Text),
    ];
    let plan = plan_discovery(&senders, &receivers);
    assert_eq!(plan.len(), 1);
    assert_eq!(plan[0].source, 2);
    match &plan[0].target {
        MirrorTarget::Existing { dest } => assert_eq!(*dest, 801),
        MirrorTarget::Create { .. } => panic!("expected the non-category mirror"),
    }
}

#[test]
fn second_run_creates_nothing() {
    let senders = vec![
        chan(7, "news", ChannelKind::Text),
        chan(8, "talk", ChannelKind::Voice),
    ];
    let receivers: Vec<ChannelInfo> = Vec::new();
    let plan1 = plan_discovery(&senders, &receivers);
    // realize the first run's creation requests as destination channels
    let mut receivers2: Vec<ChannelInfo> = Vec::new();
    let mut next_id = 100u64;
    for entry in &plan1 {
        if let MirrorTarget::Create { name, kind } = &entry.target {
            receivers2.push(ChannelInfo { id: next_id, name: name.clone(), kind: *kind });
            next_id += 1;
        }
    }
    let plan2 = plan_discovery(&senders, &receivers2);
    assert_eq!(plan2.len(), 2);
    for entry in &plan2 {
        match &entry.target {
            MirrorTarget::Existing { .. } => {}
            MirrorTarget::Create { .. } => panic!("second run must not create channels"),
        }
    }
}

#[test]
fn resolve_plan_pairs_matches_and_creations() {
    let senders = vec![
        chan(42, "updates", ChannelKind::Text),
        chan(7, "news", ChannelKind::Text),
    ];
    let receivers = vec![chan(901, "general-42", ChannelKind::Text)];
    let plan = plan_discovery(&senders, &receivers);
    let created = vec![555u64];
    let pairs = resolve_plan(&plan, &created);
    assert_eq!(pairs, vec![(42, 901), (7, 555)]);
}
