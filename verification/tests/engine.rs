use oxibot::ids::{ChannelId, GuildId, MessageId, UserId};
use oxibot::reconcile::{
    adjusted_reaction_count, apply_update_outcome, manage_starboard_entry, reconcile_lookup,
    BoardPostFetch, EntryPlan, ReactionEvent, UpdateEffect,
};
use oxibot::state::{Starboard, StarboardError};

fn guild() -> GuildId {
    GuildId { raw: 10 }
}

fn board() -> ChannelId {
    ChannelId { raw: 20 }
}

fn source_channel() -> ChannelId {
    ChannelId { raw: 30 }
}

fn message() -> MessageId {
    MessageId { raw: 40 }
}

fn star() -> String {
    String::from("\u{2b50}")
}

fn event_for(message: MessageId, emoji: &str) -> ReactionEvent {
    ReactionEvent {
        guild: Some(guild()),
        channel: source_channel(),
        message,
        emoji: String::from(emoji),
    }
}

fn configured() -> Starboard {
    let mut s = Starboard::new();
    s.add_starboard_tables(guild(), board(), star(), 3).unwrap();
    s
}

fn users(ids: &[u64]) -> Vec<UserId> {
    ids.iter().map(|&raw| UserId { raw }).collect()
}

#[test]
fn lookup_finds_only_configured_pairs() {
    let s = configured();
    let hit = reconcile_lookup(&s, &event_for(message(), "\u{2b50}"));
    assert_eq!(hit, Some((board(), 3)));

    let other_emoji = reconcile_lookup(&s, &event_for(message(), "\u{1f525}"));
    assert_eq!(other_emoji, None);

    let mut outside_guild = event_for(message(), "\u{2b50}");
    outside_guild.guild = None;
    assert_eq!(reconcile_lookup(&s, &outside_guild), None);
}

#[test]
fn duplicate_config_is_refused() {
    let mut s = configured();
    let r = s.add_starboard_tables(guild(), ChannelId { raw: 99 }, star(), 5);
    assert_eq!(r, Err(StarboardError::DuplicateConfig));
    assert_eq!(s.configs.len(), 1);
    assert_eq!(s.configs[0].board_channel, board());
    assert_eq!(s.configs[0].min_reactions, 3);
}

#[test]
fn two_reactors_are_below_threshold() {
    let s = configured();
    let reactors = users(&[1, 2]);
    let author = UserId { raw: 7 };
    let adjusted = adjusted_reaction_count(&reactors, author);
    assert_eq!(adjusted, 2);
    let plan = manage_starboard_entry(&s, &event_for(message(), "\u{2b50}"), adjusted, board(), 3);
    assert_eq!(plan, EntryPlan::Leave);
    assert!(s.entries.is_empty());
}

#[test]
fn third_distinct_reactor_creates_exactly_one_entry() {
    let mut s = configured();
    let reactors = users(&[1, 2, 3]);
    let author = UserId { raw: 7 };
    let adjusted = adjusted_reaction_count(&reactors, author);
    assert_eq!(adjusted, 3);
    let plan = manage_starboard_entry(&s, &event_for(message(), "\u{2b50}"), adjusted, board(), 3);
    assert_eq!(plan, EntryPlan::CreatePost { board_channel: board() });

    let post = MessageId { raw: 500 };
    s.commit_starboard_creation(message(), star(), source_channel(), board(), post, adjusted)
        .unwrap();
    assert_eq!(s.entries.len(), 1);
    assert_eq!(s.entries[0].source_message, message());
    assert_eq!(s.entries[0].board_channel, board());
    assert_eq!(s.entries[0].board_post, post);
    assert_eq!(s.entries[0].reaction_count, 3);
}

#[test]
fn concurrent_creation_loses_to_uniqueness_constraint() {
    let mut s = configured();
    s.commit_starboard_creation(message(), star(), source_channel(), board(), MessageId { raw: 500 }, 3)
        .unwrap();
    let second = s.commit_starboard_creation(
        message(),
        star(),
        source_channel(),
        board(),
        MessageId { raw: 501 },
        3,
    );
    assert_eq!(second, Err(StarboardError::DuplicateEntry));
    assert_eq!(s.entries.len(), 1);
    assert_eq!(s.entries[0].board_post, MessageId { raw: 500 });
}

#[test]
fn dropping_below_threshold_updates_but_never_deletes() {
    let mut s = configured();
    let post = MessageId { raw: 500 };
    s.commit_starboard_creation(message(), star(), source_channel(), board(), post, 3)
        .unwrap();

    let plan = manage_starboard_entry(&s, &event_for(message(), "\u{2b50}"), 1, board(), 3);
    assert_eq!(plan, EntryPlan::RefreshPost { board_channel: board(), board_post: post });

    let fetched = BoardPostFetch::Found {
        content: String::from("https://discord.com/channels/10/30/40 | \u{2b50} 3"),
    };
    let effect = apply_update_outcome(&mut s, message(), &star(), 1, fetched);
    match effect {
        UpdateEffect::Edit { board_channel, board_post, content } => {
            assert_eq!(board_channel, board());
            assert_eq!(board_post, post);
            assert_eq!(content, "https://discord.com/channels/10/30/40 | \u{2b50} 1");
        }
        UpdateEffect::SelfHealed => panic!("an existing board post must be edited, not dropped"),
    }
    assert_eq!(s.entries.len(), 1);
    assert_eq!(s.entries[0].reaction_count, 1);
    assert_eq!(s.entries[0].board_post, post);
}

#[test]
fn missing_board_post_self_heals_without_recreation() {
    let mut s = configured();
    s.commit_starboard_creation(message(), star(), source_channel(), board(), MessageId { raw: 500 }, 3)
        .unwrap();

    // The count still meets the threshold, yet the entry is dropped and no
    // new post is requested.
    let effect = apply_update_outcome(&mut s, message(), &star(), 4, BoardPostFetch::Missing);
    assert!(matches!(effect, UpdateEffect::SelfHealed));
    assert!(s.entries.is_empty());
    assert_eq!(s.configs.len(), 1);
}

#[test]
fn message_delete_cascades_across_emoji() {
    let mut s = configured();
    s.add_starboard_tables(guild(), ChannelId { raw: 21 }, String::from("\u{1f525}"), 2)
        .unwrap();
    s.commit_starboard_creation(message(), star(), source_channel(), board(), MessageId { raw: 500 }, 3)
        .unwrap();
    s.commit_starboard_creation(
        message(),
        String::from("\u{1f525}"),
        source_channel(),
        ChannelId { raw: 21 },
        MessageId { raw: 501 },
        2,
    )
    .unwrap();
    s.commit_starboard_creation(
        MessageId { raw: 41 },
        star(),
        source_channel(),
        board(),
        MessageId { raw: 502 },
        5,
    )
    .unwrap();

    let posts = s.remove_starboard_entry(message());
    // Both mirrored posts come back for deletion, each handled
    // independently by the caller; the rows are gone either way.
    assert_eq!(
        posts,
        vec![
            (board(), MessageId { raw: 500 }),
            (ChannelId { raw: 21 }, MessageId { raw: 501 }),
        ]
    );
    assert_eq!(s.entries.len(), 1);
    assert_eq!(s.entries[0].source_message, MessageId { raw: 41 });
    assert_eq!(s.configs.len(), 2);
}

#[test]
fn removal_by_channel_only_touches_that_channel() {
    let mut s = configured();
    s.commit_starboard_creation(message(), star(), source_channel(), board(), MessageId { raw: 500 }, 3)
        .unwrap();
    s.commit_starboard_creation(
        message(),
        String::from("\u{1f525}"),
        source_channel(),
        ChannelId { raw: 21 },
        MessageId { raw: 501 },
        2,
    )
    .unwrap();

    let posts = s.remove_starboard_entry_with_channel(message(), board());
    assert_eq!(posts, vec![MessageId { raw: 500 }]);
    assert_eq!(s.entries.len(), 1);
    assert_eq!(s.entries[0].board_channel, ChannelId { raw: 21 });
}

#[test]
fn channel_delete_removes_config_and_entries_together() {
    let mut s = configured();
    s.add_starboard_tables(guild(), ChannelId { raw: 21 }, String::from("\u{1f525}"), 2)
        .unwrap();
    s.commit_starboard_creation(message(), star(), source_channel(), board(), MessageId { raw: 500 }, 3)
        .unwrap();
    s.commit_starboard_creation(
        MessageId { raw: 41 },
        star(),
        source_channel(),
        board(),
        MessageId { raw: 502 },
        4,
    )
    .unwrap();
    s.commit_starboard_creation(
        MessageId { raw: 42 },
        String::from("\u{1f525}"),
        source_channel(),
        ChannelId { raw: 21 },
        MessageId { raw: 503 },
        2,
    )
    .unwrap();

    s.delete_starboard_tables(board());
    // The configuration and every entry mirrored into the deleted channel
    // are gone; the other starboard is untouched.
    assert_eq!(s.configs.len(), 1);
    assert_eq!(s.configs[0].board_channel, ChannelId { raw: 21 });
    assert_eq!(s.entries.len(), 1);
    assert_eq!(s.entries[0].board_post, MessageId { raw: 503 });
}

#[test]
fn author_reaction_does_not_count_towards_threshold() {
    let s = configured();
    let author = UserId { raw: 1 };
    let reactors = users(&[1, 2, 3]);
    let adjusted = adjusted_reaction_count(&reactors, author);
    assert_eq!(adjusted, 2);
    let plan = manage_starboard_entry(&s, &event_for(message(), "\u{2b50}"), adjusted, board(), 3);
    assert_eq!(plan, EntryPlan::Leave);
    assert!(s.entries.is_empty());
}

#[test]
fn empty_state_has_nothing_to_remove() {
    let mut s = Starboard::new();
    assert_eq!(s.remove_starboard_entry(message()), vec![]);
    assert_eq!(s.remove_starboard_entry_with_channel(message(), board()), vec![]);
    s.delete_starboard_tables(board());
    assert!(s.configs.is_empty());
    assert!(s.entries.is_empty());
}

#[test]
fn channel_delete_without_config_changes_nothing() {
    let mut s = configured();
    s.commit_starboard_creation(message(), star(), source_channel(), board(), MessageId { raw: 500 }, 3)
        .unwrap();
    s.delete_starboard_tables(ChannelId { raw: 777 });
    assert_eq!(s.configs.len(), 1);
    assert_eq!(s.entries.len(), 1);
}

#[test]
fn no_reactors_means_count_zero() {
    let reactors = users(&[]);
    assert_eq!(adjusted_reaction_count(&reactors, UserId { raw: 1 }), 0);
    let lone_author = users(&[1]);
    assert_eq!(adjusted_reaction_count(&lone_author, UserId { raw: 1 }), 0);
}

#[test]
fn refresh_ignores_threshold_direction_upwards_too() {
    let mut s = configured();
    let post = MessageId { raw: 500 };
    s.commit_starboard_creation(message(), star(), source_channel(), board(), post, 3)
        .unwrap();
    let fetched = BoardPostFetch::Found {
        content: String::from("https://discord.com/channels/10/30/40 | \u{2b50} 3"),
    };
    let effect = apply_update_outcome(&mut s, message(), &star(), 9, fetched);
    match effect {
        UpdateEffect::Edit { content, .. } => {
            assert_eq!(content, "https://discord.com/channels/10/30/40 | \u{2b50} 9");
        }
        UpdateEffect::SelfHealed => panic!("an existing board post must be edited"),
    }
    assert_eq!(s.entries[0].reaction_count, 9);
}
