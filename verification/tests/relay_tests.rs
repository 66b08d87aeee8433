use channel_relay::endpoints::DeliveryEndpoint;
use channel_relay::events::decide;
use channel_relay::events::RelayAction;
use channel_relay::events::RelayEvent;
use channel_relay::relay::avatar_or_default;
use channel_relay::relay::build_push;
use channel_relay::relay::build_relay_message;
use channel_relay::relay::default_avatar_url;
use channel_relay::relay::keep_successes;
use channel_relay::relay::plan_dispatches;
use channel_relay::routing::assemble_table;
use channel_relay::routing::ChannelMaps;

fn endpoint(channel: u64, id: u64, token: &str) -> DeliveryEndpoint {
    DeliveryEndpoint { channel, endpoint: id, token: String::from(token) }
}

/// A table where source channel 42 fans out to two destination channels.
fn two_destination_table() -> ChannelMaps {
    let pairs = vec![(42u64, 901u64)];
    let endpoints = vec![endpoint(901, 1, "a"), endpoint(902, 2, "b")];
    let mut table = assemble_table(&pairs, &endpoints).expect("covered");
    table.channel_map.insert(42, vec![901, 902]);
    table
}

#[test]
fn absent_channel_relays_nothing() {
    let pairs = vec![(42u64, 901u64)];
    let endpoints = vec![endpoint(901, 1, "a")];
    let table = assemble_table(&pairs, &endpoints).expect("covered");
    let dispatches = plan_dispatches(&table, 7777);
    assert_eq!(dispatches.len(), 0);
}

#[test]
fn mapped_channel_gets_one_dispatch_per_destination() {
    let table = two_destination_table();
    let dispatches = plan_dispatches(&table, 42);
    assert_eq!(dispatches.len(), 2);
    assert_eq!(dispatches[0].channel, 901);
    assert_eq!(dispatches[0].endpoint, 1);
    assert_eq!(dispatches[1].channel, 902);
    assert_eq!(dispatches[1].endpoint, 2);
}

#[test]
fn failed_attachment_is_dropped_not_fatal() {
    let fetched: Vec<Option<String>> =
        vec![Some(String::from("photo.png")), None];
    let kept = keep_successes(fetched);
    assert_eq!(kept, vec![String::from("photo.png")]);

    let msg = build_relay_message(
        String::from("alice"),
        None,
        String::from("look at this"),
        vec![String::from("embed-one")],
        vec![String::from("https://files.example/photo.png"), String::from("https://files.example/gone.png")],
    );
    let push = build_push(&endpoint(901, 1, "a"), &msg, kept);
    // exactly one attachment survives, text and embeds are unchanged
    assert_eq!(push.attachments, vec![String::from("photo.png")]);
    assert_eq!(push.content, "look at this");
    assert_eq!(push.embeds, vec![String::from("embed-one")]);
    assert_eq!(push.author_name, "alice");
    assert_eq!(push.endpoint.channel, 901);
}

#[test]
fn message_still_delivers_when_every_attachment_fails() {
    let fetched: Vec<Option<String>> = vec![None, None];
    let kept = keep_successes(fetched);
    assert!(kept.is_empty());
    let msg = build_relay_message(
        String::from("bob"),
        Some(String::from("https://cdn.example/bob.png")),
        String::from("text only"),
        Vec::new(),
        vec![String::from("https://files.example/a"), String::from("https://files.example/b")],
    );
    let push = build_push(&endpoint(901, 1, "a"), &msg, kept);
    assert!(push.attachments.is_empty());
    assert_eq!(push.content, "text only");
    assert_eq!(push.avatar_url, "https://cdn.example/bob.png");
}

#[test]
fn avatar_falls_back_to_placeholder() {
    assert_eq!(
        avatar_or_default(None),
        "https://cdn.discordapp.com/embed/avatars/1.png"
    );
    assert_eq!(
        avatar_or_default(Some(String::from("https://cdn.example/me.png"))),
        "https://cdn.example/me.png"
    );
    assert_eq!(default_avatar_url(), "https://cdn.discordapp.com/embed/avatars/1.png");
}

#[test]
fn events_drive_refresh_and_relay() {
    assert_eq!(decide(&RelayEvent::Ready), RelayAction::Refresh);
    assert_eq!(decide(&RelayEvent::ChannelCreated), RelayAction::Refresh);
    assert_eq!(
        decide(&RelayEvent::MessageCreated { channel: 42 }),
        RelayAction::Relay { channel: 42 }
    );
    assert_eq!(decide(&RelayEvent::Other), RelayAction::Ignore);
}
