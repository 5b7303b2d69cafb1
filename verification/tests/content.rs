use oxibot::content::{compose_board_content, count_to_string, patch_board_content};
use oxibot::ids::{ChannelId, GuildId, MessageId};

#[test]
fn counts_render_as_plain_decimal() {
    assert_eq!(count_to_string(0), "0");
    assert_eq!(count_to_string(7), "7");
    assert_eq!(count_to_string(10), "10");
    assert_eq!(count_to_string(120), "120");
    assert_eq!(count_to_string(98765), "98765");
    assert_eq!(count_to_string(u64::MAX), "18446744073709551615");
}

#[test]
fn composed_line_links_source_and_shows_count() {
    let line = compose_board_content(
        GuildId { raw: 1 },
        ChannelId { raw: 2 },
        MessageId { raw: 3 },
        "\u{2b50}",
        4,
    );
    assert_eq!(line, "https://discord.com/channels/1/2/3 | \u{2b50} 4");
}

#[test]
fn patch_replaces_only_the_trailing_number() {
    assert_eq!(
        patch_board_content("https://discord.com/channels/1/2/3 | \u{2b50} 5", 12),
        "https://discord.com/channels/1/2/3 | \u{2b50} 12",
    );
    assert_eq!(
        patch_board_content("https://discord.com/channels/1/2/3 | \u{2b50} 100", 9),
        "https://discord.com/channels/1/2/3 | \u{2b50} 9",
    );
}

#[test]
fn patch_appends_when_nothing_trails() {
    assert_eq!(patch_board_content("count: ", 3), "count: 3");
    assert_eq!(patch_board_content("", 3), "3");
    assert_eq!(patch_board_content("987", 3), "3");
}

#[test]
fn patching_a_composed_line_recomposes_it() {
    let first = compose_board_content(
        GuildId { raw: 11 },
        ChannelId { raw: 22 },
        MessageId { raw: 33 },
        "\u{1f525}",
        5,
    );
    let repatched = patch_board_content(&first, 2);
    let fresh = compose_board_content(
        GuildId { raw: 11 },
        ChannelId { raw: 22 },
        MessageId { raw: 33 },
        "\u{1f525}",
        2,
    );
    assert_eq!(repatched, fresh);

    let twice = patch_board_content(&repatched, 8);
    assert_eq!(twice, patch_board_content(&first, 8));
}
