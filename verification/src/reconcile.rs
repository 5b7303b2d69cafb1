//! The core reconciliation algorithm.
//!
//! A reaction-change notification arrives; the caller looks the starboard
//! configuration up, fetches the message's reactors from the gateway, and
//! asks the engine what to do.  The engine answers with a plan — leave the
//! state alone, refresh the existing board post, or create a new one — and
//! applies the matching state change, handing back the remote side effect
//! the caller must perform.

use crate::content::{patch_board_content, patched_content};
use crate::ids::{ChannelId, GuildId, MessageId, UserId};
use crate::state::{
    entries_not_for_key, entry_index, with_count, Starboard,
};
use vstd::prelude::*;

verus! {

/// Reactor lookups are capped at one page of this many users; an engine
/// approximation, documented rather than paginated around: counts beyond the
/// page are not reflected, and an author reaction outside the page is not
/// excluded.
pub const REACTOR_PAGE_LIMIT: usize = 100;

/// A reaction-change notification, as the gateway delivers one: which
/// message, in which channel, in which guild (reactions outside a guild are
/// out of scope), and which emoji changed.
pub struct ReactionEvent {
    pub guild: Option<GuildId>,
    pub channel: ChannelId,
    pub message: MessageId,
    pub emoji: String,
}

/// How many reactors count towards the threshold once a reaction by the
/// message's own author is excluded.
pub open spec fn spec_adjusted(reactors: Seq<UserId>, author: UserId) -> nat {
    if reactors.contains(author) {
        (reactors.len() - 1) as nat
    } else {
        reactors.len()
    }
}

/// Counts the fetched reactors, minus one if the message's author is among
/// them: a self-reaction never counts towards the threshold.
pub fn adjusted_reaction_count(reactors: &Vec<UserId>, author: UserId) -> (n: usize)
    ensures
        n as nat == spec_adjusted(reactors@, author),
{
    let mut found = false;
    let mut i: usize = 0;
    while i < reactors.len()
        invariant
            i <= reactors@.len(),
            found <==> exists|j: int| 0 <= j < i && reactors@[j] == author,
        decreases reactors@.len() - i,
    {
        if reactors[i] == author {
            found = true;
        }
        i = i + 1;
    }
    if found {
        reactors.len() - 1
    } else {
        reactors.len()
    }
}

/// What the engine decides to do about one (message, emoji) key.
#[derive(Clone, Copy, PartialEq, Eq, Structural, Debug)]
pub enum EntryPlan {
    /// Nothing is tracked and the threshold is not met: no state change, no
    /// remote effect.
    Leave,
    /// An entry is tracked: its board post is refreshed, whether or not the
    /// count still meets the threshold.
    RefreshPost { board_channel: ChannelId, board_post: MessageId },
    /// Nothing is tracked and the threshold is met: a board post is sent and
    /// an entry created.
    CreatePost { board_channel: ChannelId },
}

/// The decision for one key: an existing entry is always refreshed — once
/// mirrored, a post stays mirrored — and a new one is created exactly when
/// the adjusted count meets the threshold.
pub open spec fn spec_plan(
    state: Starboard,
    message: MessageId,
    emoji: Seq<char>,
    adjusted: nat,
    board_channel: ChannelId,
    min_reactions: nat,
) -> EntryPlan {
    if state.has_entry(message, emoji) {
        EntryPlan::RefreshPost {
            board_channel: state.entry_for(message, emoji).board_channel,
            board_post: state.entry_for(message, emoji).board_post,
        }
    } else if adjusted >= min_reactions {
        EntryPlan::CreatePost { board_channel }
    } else {
        EntryPlan::Leave
    }
}

/// Step one of reconciliation: a reaction without a guild, or without a
/// starboard configured for its (guild, emoji) pair, concerns the engine not
/// at all.  Otherwise the configured board channel and threshold come back.
pub fn reconcile_lookup(state: &Starboard, event: &ReactionEvent) -> (r: Option<(ChannelId, usize)>)
    requires
        state.wf(),
    ensures
        r is Some <==> (event.guild matches Some(g) && state.has_config(g, event.emoji@)),
        r matches Some(c) ==> c.0 == state.config_for(event.guild->Some_0, event.emoji@).board_channel
            && c.1 == state.config_for(event.guild->Some_0, event.emoji@).min_reactions
            && c.1 >= 1,
{
    match event.guild {
        Some(g) => state.lookup(g, &event.emoji),
        None => None,
    }
}

/// Step two of reconciliation: given the adjusted reactor count and the
/// configuration, decides the starboard's response to the change in
/// reactions on this key.
pub fn manage_starboard_entry(
    state: &Starboard,
    event: &ReactionEvent,
    adjusted: usize,
    board_channel: ChannelId,
    min_reactions: usize,
) -> (plan: EntryPlan)
    requires
        state.wf(),
    ensures
        plan == spec_plan(
            *state,
            event.message,
            event.emoji@,
            adjusted as nat,
            board_channel,
            min_reactions as nat,
        ),
{
    match state.find_entry(event.message, &event.emoji) {
        Some(i) => {
            let e = &state.entries[i];
            EntryPlan::RefreshPost { board_channel: e.board_channel, board_post: e.board_post }
        },
        None => {
            if adjusted >= min_reactions {
                EntryPlan::CreatePost { board_channel }
            } else {
                EntryPlan::Leave
            }
        },
    }
}

/// What the gateway answered when the tracked board post was fetched back.
pub enum BoardPostFetch {
    /// The post exists; its current text is here.
    Found { content: String },
    /// The post is gone — deleted out-of-band.
    Missing,
}

/// The remote side effect the caller must perform after the update path ran.
#[derive(Debug)]
pub enum UpdateEffect {
    /// Edit the board post to this text.
    Edit { board_channel: ChannelId, board_post: MessageId, content: String },
    /// Nothing to send: the tracked entry was dropped because its post was
    /// already gone.
    SelfHealed,
}

/// The update path.  The board post was fetched back: if it is gone, the
/// tracked entry is dropped (self-heal) and no recreation is attempted, even
/// if the count still meets the threshold; otherwise the new count is
/// persisted and the post's trailing counter is rewritten in place.
pub fn apply_update_outcome(
    state: &mut Starboard,
    message: MessageId,
    emoji: &String,
    adjusted: usize,
    fetch: BoardPostFetch,
) -> (effect: UpdateEffect)
    requires
        old(state).wf(),
        old(state).has_entry(message, emoji@),
    ensures
        final(state).wf(),
        final(state).configs@ == old(state).configs@,
        fetch is Missing ==> {
            &&& effect == UpdateEffect::SelfHealed
            &&& final(state).entries@ == entries_not_for_key(old(state).entries@, message, emoji@)
            &&& !final(state).has_entry(message, emoji@)
        },
        fetch matches BoardPostFetch::Found { content } ==> {
            &&& (effect matches UpdateEffect::Edit { board_channel, board_post, content: edited }
                && board_channel == old(state).entry_for(message, emoji@).board_channel
                && board_post == old(state).entry_for(message, emoji@).board_post
                && edited@ == patched_content(content@, adjusted as nat))
            &&& final(state).entries@ == old(state).entries@.update(
                entry_index(old(state).entries@, message, emoji@),
                with_count(old(state).entry_for(message, emoji@), adjusted),
            )
            &&& final(state).has_entry(message, emoji@)
        },
{
    match fetch {
        BoardPostFetch::Missing => {
            state.remove_entry(message, emoji);
            UpdateEffect::SelfHealed
        },
        BoardPostFetch::Found { content } => {
            state.record_reaction_count(message, emoji, adjusted);
            if let Some(i) = state.find_entry(message, emoji) {
                let board_channel = state.entries[i].board_channel;
                let board_post = state.entries[i].board_post;
                let edited = patch_board_content(content.as_str(), adjusted as u64);
                UpdateEffect::Edit { board_channel, board_post, content: edited }
            } else {
                UpdateEffect::SelfHealed
            }
        },
    }
}

/// Threshold gating: while nothing is tracked for a key, an adjusted count
/// below the configured minimum plans no entry and no post.
pub proof fn lemma_threshold_gating(
    state: Starboard,
    message: MessageId,
    emoji: Seq<char>,
    adjusted: nat,
    board_channel: ChannelId,
    min_reactions: nat,
)
    requires
        !state.has_entry(message, emoji),
        adjusted < min_reactions,
    ensures
        spec_plan(state, message, emoji, adjusted, board_channel, min_reactions)
            == EntryPlan::Leave,
{
}

/// Creation: the moment the adjusted count reaches the threshold of an
/// untracked key, the plan is exactly one new board post, into the
/// configured channel.
pub proof fn lemma_creation_at_threshold(
    state: Starboard,
    message: MessageId,
    emoji: Seq<char>,
    adjusted: nat,
    board_channel: ChannelId,
    min_reactions: nat,
)
    requires
        !state.has_entry(message, emoji),
        adjusted >= min_reactions,
    ensures
        spec_plan(state, message, emoji, adjusted, board_channel, min_reactions)
            == (EntryPlan::CreatePost { board_channel }),
{
}

/// Hysteresis: once a key is tracked, the plan is a refresh of its board
/// post whatever the adjusted count — dropping below the threshold never
/// deletes the entry or the post.
pub proof fn lemma_hysteresis(
    state: Starboard,
    message: MessageId,
    emoji: Seq<char>,
    low: nat,
    high: nat,
    board_channel: ChannelId,
    min_reactions: nat,
)
    requires
        state.has_entry(message, emoji),
    ensures
        spec_plan(state, message, emoji, low, board_channel, min_reactions) is RefreshPost,
        spec_plan(state, message, emoji, low, board_channel, min_reactions) == spec_plan(
            state,
            message,
            emoji,
            high,
            board_channel,
            min_reactions,
        ),
{
}

/// Self-reaction exclusion: with exactly as many reactors as the threshold
/// asks, one of whom is the author, the adjusted count falls one short and
/// nothing is created.
pub proof fn lemma_self_reaction_exclusion(
    state: Starboard,
    message: MessageId,
    emoji: Seq<char>,
    reactors: Seq<UserId>,
    author: UserId,
    board_channel: ChannelId,
    min_reactions: nat,
)
    requires
        !state.has_entry(message, emoji),
        reactors.contains(author),
        reactors.len() == min_reactions,
        min_reactions >= 1,
    ensures
        spec_adjusted(reactors, author) == min_reactions - 1,
        spec_plan(
            state,
            message,
            emoji,
            spec_adjusted(reactors, author),
            board_channel,
            min_reactions,
        ) == EntryPlan::Leave,
{
}

} // verus!
