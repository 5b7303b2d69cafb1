//! The synchronized state the engine maintains.
//!
//! Two tables: per-guild, per-emoji starboard configurations, and the tracked
//! mapping from (source message, emoji) to the mirrored board post.  Both
//! carry a uniqueness invariant on their key — the model of the store's
//! uniqueness constraints — and every mutation here preserves it.

use crate::ids::{ChannelId, GuildId, MessageId};
use vstd::prelude::*;

verus! {

/// Why a store mutation was refused.
#[derive(Clone, Copy, PartialEq, Eq, Structural, Debug)]
pub enum StarboardError {
    /// A configuration for this (guild, emoji) pair already exists.
    DuplicateConfig,
    /// A tracked entry for this (source message, emoji) pair already exists.
    DuplicateEntry,
}

/// Which emoji triggers mirroring in a guild, where mirrored posts go, and
/// how many reactors a message needs before it is mirrored.
pub struct StarboardConfig {
    pub guild: GuildId,
    pub emoji: String,
    pub board_channel: ChannelId,
    pub min_reactions: usize,
}

/// The persisted link from a source message and emoji to its board post.
pub struct TrackedEntry {
    pub source_message: MessageId,
    pub emoji: String,
    pub source_channel: ChannelId,
    pub board_channel: ChannelId,
    pub board_post: MessageId,
    pub reaction_count: usize,
}

/// The engine's whole persisted state.
pub struct Starboard {
    pub configs: Vec<StarboardConfig>,
    pub entries: Vec<TrackedEntry>,
}

/// The key a configuration is unique on.
pub open spec fn config_key(c: StarboardConfig) -> (GuildId, Seq<char>) {
    (c.guild, c.emoji@)
}

/// The key a tracked entry is unique on.
pub open spec fn entry_key(e: TrackedEntry) -> (MessageId, Seq<char>) {
    (e.source_message, e.emoji@)
}

/// Whether this configuration is for the given guild and emoji.
pub open spec fn config_key_is(c: StarboardConfig, guild: GuildId, emoji: Seq<char>) -> bool {
    config_key(c) == (guild, emoji)
}

/// Whether this entry tracks the given source message and emoji.
pub open spec fn entry_key_is(e: TrackedEntry, message: MessageId, emoji: Seq<char>) -> bool {
    entry_key(e) == (message, emoji)
}

/// No two configurations share a (guild, emoji) key.
pub open spec fn configs_unique(s: Seq<StarboardConfig>) -> bool {
    forall|i: int, j: int|
        #![trigger s[i], s[j]]
        0 <= i < j < s.len() ==> config_key(s[i]) != config_key(s[j])
}

/// No two tracked entries share a (source message, emoji) key.
pub open spec fn entries_unique(s: Seq<TrackedEntry>) -> bool {
    forall|i: int, j: int|
        #![trigger s[i], s[j]]
        0 <= i < j < s.len() ==> entry_key(s[i]) != entry_key(s[j])
}

/// A valid configuration table: unique keys and positive thresholds.
pub open spec fn configs_wf(s: Seq<StarboardConfig>) -> bool {
    &&& configs_unique(s)
    &&& forall|i: int| 0 <= i < s.len() ==> (#[trigger] s[i]).min_reactions >= 1
}

/// The position of the configuration for (guild, emoji), where one exists.
pub open spec fn config_index(s: Seq<StarboardConfig>, guild: GuildId, emoji: Seq<char>) -> int {
    choose|i: int| 0 <= i < s.len() && config_key_is(s[i], guild, emoji)
}

/// The position of the entry for (message, emoji), where one exists.
pub open spec fn entry_index(s: Seq<TrackedEntry>, message: MessageId, emoji: Seq<char>) -> int {
    choose|i: int| 0 <= i < s.len() && entry_key_is(s[i], message, emoji)
}

impl Starboard {
    /// Whether a configuration for (guild, emoji) exists.
    pub open spec fn has_config(self, guild: GuildId, emoji: Seq<char>) -> bool {
        exists|i: int|
            0 <= i < self.configs@.len() && config_key_is(#[trigger] self.configs@[i], guild, emoji)
    }

    /// Whether an entry for (message, emoji) exists.
    pub open spec fn has_entry(self, message: MessageId, emoji: Seq<char>) -> bool {
        exists|i: int|
            0 <= i < self.entries@.len() && entry_key_is(#[trigger] self.entries@[i], message, emoji)
    }

    /// The entry for (message, emoji), where one exists.
    pub open spec fn entry_for(self, message: MessageId, emoji: Seq<char>) -> TrackedEntry {
        self.entries@[entry_index(self.entries@, message, emoji)]
    }

    /// The configuration for (guild, emoji), where one exists.
    pub open spec fn config_for(self, guild: GuildId, emoji: Seq<char>) -> StarboardConfig {
        self.configs@[config_index(self.configs@, guild, emoji)]
    }

    /// Both uniqueness constraints hold, and every configured threshold is
    /// positive.
    pub open spec fn wf(self) -> bool {
        &&& configs_wf(self.configs@)
        &&& entries_unique(self.entries@)
    }

    /// An empty state: no configurations, nothing tracked.
    pub fn new() -> (r: Starboard)
        ensures
            r.wf(),
            r.configs@ == Seq::<StarboardConfig>::empty(),
            r.entries@ == Seq::<TrackedEntry>::empty(),
    {
        Starboard { configs: Vec::new(), entries: Vec::new() }
    }
}

/// No two tracked entries share the same (source message, emoji) key.
pub proof fn lemma_tracked_entries_unique(s: Starboard, i: int, j: int)
    requires
        s.wf(),
        0 <= i < s.entries@.len(),
        0 <= j < s.entries@.len(),
        i != j,
    ensures
        entry_key(s.entries@[i]) != entry_key(s.entries@[j]),
{
}

/// If some position holds the key, the chosen index is that position.
pub proof fn lemma_config_index_of(s: Seq<StarboardConfig>, guild: GuildId, emoji: Seq<char>, i: int)
    requires
        configs_unique(s),
        0 <= i < s.len(),
        config_key_is(s[i], guild, emoji),
    ensures
        config_index(s, guild, emoji) == i,
{
    let j = config_index(s, guild, emoji);
    assert(0 <= j < s.len() && config_key_is(s[j], guild, emoji));
}

/// If some position holds the key, the chosen index is that position.
pub proof fn lemma_entry_index_of(s: Seq<TrackedEntry>, message: MessageId, emoji: Seq<char>, i: int)
    requires
        entries_unique(s),
        0 <= i < s.len(),
        entry_key_is(s[i], message, emoji),
    ensures
        entry_index(s, message, emoji) == i,
{
    let j = entry_index(s, message, emoji);
    assert(0 <= j < s.len() && entry_key_is(s[j], message, emoji));
}

fn string_eq(a: &String, b: &String) -> (r: bool)
    ensures
        r == (a@ == b@),
{
    a.eq(b)
}

impl Starboard {
    /// Looks a configuration up by (guild, emoji).  Absence is not an error:
    /// it means this emoji is not tracked in this guild.
    pub fn lookup(&self, guild: GuildId, emoji: &String) -> (r: Option<(ChannelId, usize)>)
        requires
            self.wf(),
        ensures
            r is Some <==> self.has_config(guild, emoji@),
            r matches Some(c) ==> c.0 == self.config_for(guild, emoji@).board_channel
                && c.1 == self.config_for(guild, emoji@).min_reactions && c.1 >= 1,
    {
        let mut i: usize = 0;
        while i < self.configs.len()
            invariant
                self.wf(),
                i <= self.configs@.len(),
                forall|j: int|
                    0 <= j < i ==> !config_key_is(#[trigger] self.configs@[j], guild, emoji@),
            decreases self.configs@.len() - i,
        {
            let c = &self.configs[i];
            if c.guild == guild && string_eq(&c.emoji, emoji) {
                proof {
                    lemma_config_index_of(self.configs@, guild, emoji@, i as int);
                }
                return Some((c.board_channel, c.min_reactions));
            }
            i = i + 1;
        }
        None
    }

    /// Finds the position of the tracked entry for (message, emoji).
    pub fn find_entry(&self, message: MessageId, emoji: &String) -> (r: Option<usize>)
        requires
            self.wf(),
        ensures
            r is Some <==> self.has_entry(message, emoji@),
            r matches Some(i) ==> i < self.entries@.len()
                && entry_key_is(self.entries@[i as int], message, emoji@)
                && i as int == entry_index(self.entries@, message, emoji@),
    {
        let mut i: usize = 0;
        while i < self.entries.len()
            invariant
                self.wf(),
                i <= self.entries@.len(),
                forall|j: int|
                    0 <= j < i ==> !entry_key_is(#[trigger] self.entries@[j], message, emoji@),
            decreases self.entries@.len() - i,
        {
            let e = &self.entries[i];
            if e.source_message == message && string_eq(&e.emoji, emoji) {
                proof {
                    lemma_entry_index_of(self.entries@, message, emoji@, i as int);
                }
                return Some(i);
            }
            i = i + 1;
        }
        None
    }
}

impl Clone for StarboardConfig {
    fn clone(&self) -> (r: Self)
        ensures
            r == *self,
    {
        StarboardConfig {
            guild: self.guild,
            emoji: self.emoji.clone(),
            board_channel: self.board_channel,
            min_reactions: self.min_reactions,
        }
    }
}

impl Clone for TrackedEntry {
    fn clone(&self) -> (r: Self)
        ensures
            r == *self,
    {
        TrackedEntry {
            source_message: self.source_message,
            emoji: self.emoji.clone(),
            source_channel: self.source_channel,
            board_channel: self.board_channel,
            board_post: self.board_post,
            reaction_count: self.reaction_count,
        }
    }
}

impl Starboard {
    /// Registers a starboard for (guild, emoji): which channel mirrored posts
    /// go to and how many reactors a message needs.  Refused when the pair is
    /// already configured.
    pub fn add_starboard_tables(
        &mut self,
        guild: GuildId,
        board_channel: ChannelId,
        emoji: String,
        min_reactions: usize,
    ) -> (r: Result<(), StarboardError>)
        requires
            old(self).wf(),
            min_reactions >= 1,
        ensures
            final(self).wf(),
            final(self).entries@ == old(self).entries@,
            r is Ok <==> !old(self).has_config(guild, emoji@),
            r is Ok ==> final(self).configs@ == old(self).configs@.push(
                StarboardConfig { guild, emoji, board_channel, min_reactions },
            ),
            r is Err ==> *final(self) == *old(self) && r == Err::<(), StarboardError>(
                StarboardError::DuplicateConfig,
            ),
    {
        if self.lookup(guild, &emoji).is_some() {
            return Err(StarboardError::DuplicateConfig);
        }
        let config = StarboardConfig { guild, emoji, board_channel, min_reactions };
        proof {
            let s = self.configs@;
            let n = s.push(config).len() - 1;
            assert forall|i: int, j: int|
                #![trigger s.push(config)[i], s.push(config)[j]]
                0 <= i < j < s.push(config).len() implies config_key(s.push(config)[i])
                != config_key(s.push(config)[j]) by {
                if j < n {
                    assert(s.push(config)[i] == s[i] && s.push(config)[j] == s[j]);
                } else {
                    assert(s.push(config)[i] == s[i]);
                    if config_key(s[i]) == config_key(config) {
                        assert(config_key_is(s[i], guild, emoji@));
                    }
                }
            }
        }
        self.configs.push(config);
        Ok(())
    }

    /// Commits the creation of a tracked entry, the final step of the
    /// two-phase create path: the caller has already sent the board post and
    /// hands in its identifier.  Refused — modelling the store's uniqueness
    /// constraint, the sole serialization point under concurrent
    /// reconciliation — when the key is already tracked, in which case the
    /// state is unchanged.
    pub fn commit_starboard_creation(
        &mut self,
        source_message: MessageId,
        emoji: String,
        source_channel: ChannelId,
        board_channel: ChannelId,
        board_post: MessageId,
        reaction_count: usize,
    ) -> (r: Result<(), StarboardError>)
        requires
            old(self).wf(),
        ensures
            final(self).wf(),
            final(self).configs@ == old(self).configs@,
            r is Ok <==> !old(self).has_entry(source_message, emoji@),
            r is Ok ==> final(self).entries@ == old(self).entries@.push(
                TrackedEntry {
                    source_message,
                    emoji,
                    source_channel,
                    board_channel,
                    board_post,
                    reaction_count,
                },
            ),
            r is Ok ==> final(self).has_entry(source_message, emoji@),
            r is Err ==> *final(self) == *old(self) && r == Err::<(), StarboardError>(
                StarboardError::DuplicateEntry,
            ),
    {
        if self.find_entry(source_message, &emoji).is_some() {
            return Err(StarboardError::DuplicateEntry);
        }
        let entry = TrackedEntry {
            source_message,
            emoji,
            source_channel,
            board_channel,
            board_post,
            reaction_count,
        };
        proof {
            let s = self.entries@;
            let n = s.push(entry).len() - 1;
            assert forall|i: int, j: int|
                #![trigger s.push(entry)[i], s.push(entry)[j]]
                0 <= i < j < s.push(entry).len() implies entry_key(s.push(entry)[i]) != entry_key(
                s.push(entry)[j],
            ) by {
                if j < n {
                    assert(s.push(entry)[i] == s[i] && s.push(entry)[j] == s[j]);
                } else {
                    assert(s.push(entry)[i] == s[i]);
                    if entry_key(s[i]) == entry_key(entry) {
                        assert(entry_key_is(s[i], source_message, emoji@));
                    }
                }
            }
        }
        self.entries.push(entry);
        proof {
            assert(entry_key_is(self.entries@[self.entries@.len() - 1], source_message, emoji@));
        }
        Ok(())
    }
}

/// The same entry with its reactor count replaced.
pub open spec fn with_count(e: TrackedEntry, count: usize) -> TrackedEntry {
    TrackedEntry {
        source_message: e.source_message,
        emoji: e.emoji,
        source_channel: e.source_channel,
        board_channel: e.board_channel,
        board_post: e.board_post,
        reaction_count: count,
    }
}

impl Starboard {
    /// Persists a new reactor count on an existing tracked entry.  Nothing
    /// else about the entry — or any other row — changes; in particular the
    /// entry survives a count below the configured threshold.
    pub fn record_reaction_count(&mut self, message: MessageId, emoji: &String, new_count: usize)
        requires
            old(self).wf(),
            old(self).has_entry(message, emoji@),
        ensures
            final(self).wf(),
            final(self).configs@ == old(self).configs@,
            final(self).entries@ == old(self).entries@.update(
                entry_index(old(self).entries@, message, emoji@),
                with_count(old(self).entry_for(message, emoji@), new_count),
            ),
            final(self).has_entry(message, emoji@),
            final(self).entry_for(message, emoji@) == with_count(
                old(self).entry_for(message, emoji@),
                new_count,
            ),
    {
        if let Some(i) = self.find_entry(message, emoji) {
            let updated = TrackedEntry {
                source_message: self.entries[i].source_message,
                emoji: self.entries[i].emoji.clone(),
                source_channel: self.entries[i].source_channel,
                board_channel: self.entries[i].board_channel,
                board_post: self.entries[i].board_post,
                reaction_count: new_count,
            };
            proof {
                let s = old(self).entries@;
                let t = s.update(i as int, with_count(s[i as int], new_count));
                assert forall|a: int, b: int|
                    #![trigger t[a], t[b]]
                    0 <= a < b < t.len() implies entry_key(t[a]) != entry_key(t[b]) by {
                    assert(entry_key(t[a]) == entry_key(s[a]));
                    assert(entry_key(t[b]) == entry_key(s[b]));
                }
            }
            self.entries[i] = updated;
            proof {
                lemma_entry_index_of(self.entries@, message, emoji@, i as int);
            }
        }
    }
}

/// Each element of a filtered sequence comes from the sequence it was
/// filtered out of.
proof fn lemma_filter_elem_of<T>(s: Seq<T>, pred: spec_fn(T) -> bool, k: int)
    requires
        0 <= k < s.filter(pred).len(),
    ensures
        exists|j: int| 0 <= j < s.len() && s[j] == s.filter(pred)[k],
    decreases s.len(),
{
    reveal(Seq::filter);
    if s.len() > 0 {
        let rest = s.drop_last();
        if pred(s.last()) && k == s.filter(pred).len() - 1 {
            assert(s[s.len() - 1] == s.filter(pred)[k]);
        } else {
            lemma_filter_elem_of(rest, pred, k);
            let j = choose|j: int| 0 <= j < rest.len() && rest[j] == rest.filter(pred)[k];
            assert(s[j] == s.filter(pred)[k]);
        }
    }
}

/// Filtering keeps tracked-entry keys unique.
pub broadcast proof fn lemma_filter_entries_unique(
    s: Seq<TrackedEntry>,
    pred: spec_fn(TrackedEntry) -> bool,
)
    requires
        entries_unique(s),
    ensures
        entries_unique(#[trigger] s.filter(pred)),
    decreases s.len(),
{
    reveal(Seq::filter);
    if s.len() > 0 {
        let rest = s.drop_last();
        assert(entries_unique(rest)) by {
            assert forall|i: int, j: int|
                #![trigger rest[i], rest[j]]
                0 <= i < j < rest.len() implies entry_key(rest[i]) != entry_key(rest[j]) by {
                assert(rest[i] == s[i] && rest[j] == s[j]);
            }
        }
        lemma_filter_entries_unique(rest, pred);
        if pred(s.last()) {
            let f = rest.filter(pred).push(s.last());
            assert(s.filter(pred) == f);
            assert forall|a: int, b: int|
                #![trigger f[a], f[b]]
                0 <= a < b < f.len() implies entry_key(f[a]) != entry_key(f[b]) by {
                if b == f.len() - 1 {
                    lemma_filter_elem_of(rest, pred, a);
                    let w = choose|w: int|
                        0 <= w < rest.len() && rest[w] == rest.filter(pred)[a];
                    assert(f[a] == rest.filter(pred)[a]);
                    assert(rest[w] == s[w]);
                    assert(f[b] == s[s.len() - 1]);
                    assert(entry_key(s[w]) != entry_key(s[s.len() - 1]));
                } else {
                    assert(f[a] == rest.filter(pred)[a] && f[b] == rest.filter(pred)[b]);
                }
            }
        }
    }
}

/// Filtering keeps a configuration table valid.
pub broadcast proof fn lemma_filter_configs_wf(
    s: Seq<StarboardConfig>,
    pred: spec_fn(StarboardConfig) -> bool,
)
    requires
        configs_wf(s),
    ensures
        configs_wf(#[trigger] s.filter(pred)),
    decreases s.len(),
{
    reveal(Seq::filter);
    if s.len() > 0 {
        let rest = s.drop_last();
        assert(configs_wf(rest)) by {
            assert forall|i: int, j: int|
                #![trigger rest[i], rest[j]]
                0 <= i < j < rest.len() implies config_key(rest[i]) != config_key(rest[j]) by {
                assert(rest[i] == s[i] && rest[j] == s[j]);
            }
            assert(forall|i: int| 0 <= i < rest.len() ==> #[trigger] rest[i] == s[i]);
        }
        lemma_filter_configs_wf(rest, pred);
        if pred(s.last()) {
            let f = rest.filter(pred).push(s.last());
            assert(s.filter(pred) == f);
            assert forall|a: int, b: int|
                #![trigger f[a], f[b]]
                0 <= a < b < f.len() implies config_key(f[a]) != config_key(f[b]) by {
                if b == f.len() - 1 {
                    lemma_filter_elem_of(rest, pred, a);
                    let w = choose|w: int|
                        0 <= w < rest.len() && rest[w] == rest.filter(pred)[a];
                    assert(f[a] == rest.filter(pred)[a]);
                    assert(rest[w] == s[w]);
                    assert(f[b] == s[s.len() - 1]);
                    assert(config_key(s[w]) != config_key(s[s.len() - 1]));
                } else {
                    assert(f[a] == rest.filter(pred)[a] && f[b] == rest.filter(pred)[b]);
                }
            }
            assert forall|i: int| 0 <= i < f.len() implies (#[trigger] f[i]).min_reactions >= 1 by {
                if i < f.len() - 1 {
                    lemma_filter_elem_of(rest, pred, i);
                    let w = choose|w: int|
                        0 <= w < rest.len() && rest[w] == rest.filter(pred)[i];
                    assert(f[i] == rest.filter(pred)[i]);
                    assert(rest[w] == s[w]);
                }
            }
        }
    }
}

/// The entries left after the tracked entry for (message, emoji) is removed.
pub open spec fn entries_not_for_key(
    s: Seq<TrackedEntry>,
    message: MessageId,
    emoji: Seq<char>,
) -> Seq<TrackedEntry> {
    s.filter(|e: TrackedEntry| !entry_key_is(e, message, emoji))
}

/// The entries left after every entry for the source message is removed.
pub open spec fn entries_not_for_message(s: Seq<TrackedEntry>, message: MessageId) -> Seq<
    TrackedEntry,
> {
    s.filter(|e: TrackedEntry| e.source_message != message)
}

/// The board posts of the entries tracking the source message, in table
/// order.
pub open spec fn board_posts_for_message(s: Seq<TrackedEntry>, message: MessageId) -> Seq<
    (ChannelId, MessageId),
> {
    s.filter(|e: TrackedEntry| e.source_message == message).map_values(
        |e: TrackedEntry| (e.board_channel, e.board_post),
    )
}

/// The entries left after every entry for the source message whose board
/// post sits in the given channel is removed.
pub open spec fn entries_not_for_message_in_channel(
    s: Seq<TrackedEntry>,
    message: MessageId,
    channel: ChannelId,
) -> Seq<TrackedEntry> {
    s.filter(|e: TrackedEntry| !(e.source_message == message && e.board_channel == channel))
}

/// The board posts of the entries tracking the source message in the given
/// channel, in table order.
pub open spec fn board_posts_for_message_in_channel(
    s: Seq<TrackedEntry>,
    message: MessageId,
    channel: ChannelId,
) -> Seq<MessageId> {
    s.filter(|e: TrackedEntry| e.source_message == message && e.board_channel == channel)
        .map_values(|e: TrackedEntry| e.board_post)
}

/// The entries left after a board channel is torn down.
pub open spec fn entries_outside_board_channel(s: Seq<TrackedEntry>, channel: ChannelId) -> Seq<
    TrackedEntry,
> {
    s.filter(|e: TrackedEntry| e.board_channel != channel)
}

/// The configurations left after a board channel is torn down.
pub open spec fn configs_outside_board_channel(s: Seq<StarboardConfig>, channel: ChannelId) -> Seq<
    StarboardConfig,
> {
    s.filter(|c: StarboardConfig| c.board_channel != channel)
}

impl Starboard {
    /// Self-heal: drops the tracked entry for (message, emoji) after the
    /// remote board post turned out to be gone.  Every other entry, and every
    /// configuration, stays.
    #[verifier::loop_isolation(false)]
    pub fn remove_entry(&mut self, message: MessageId, emoji: &String)
        requires
            old(self).wf(),
        ensures
            final(self).wf(),
            final(self).configs@ == old(self).configs@,
            final(self).entries@ == entries_not_for_key(old(self).entries@, message, emoji@),
            !final(self).has_entry(message, emoji@),
    {
        broadcast use Seq::lemma_filter_push, Seq::lemma_filter_pred, lemma_filter_entries_unique;

        let mut kept: Vec<TrackedEntry> = Vec::new();
        let mut i: usize = 0;
        while i < self.entries.len()
            invariant
                i <= self.entries@.len(),
                kept@ == entries_not_for_key(self.entries@.take(i as int), message, emoji@),
            decreases self.entries@.len() - i,
        {
            proof {
                assert(self.entries@.take(i + 1) =~= self.entries@.take(i as int).push(
                    self.entries@[i as int],
                ));
            }
            let e = &self.entries[i];
            if !(e.source_message == message && string_eq(&e.emoji, emoji)) {
                kept.push(e.clone());
            }
            i = i + 1;
        }
        proof {
            assert(self.entries@.take(self.entries@.len() as int) =~= self.entries@);
        }
        self.entries = kept;
        proof {
            if self.has_entry(message, emoji@) {
                let w = choose|w: int|
                    0 <= w < self.entries@.len() && entry_key_is(self.entries@[w], message, emoji@);
                assert(!entry_key_is(self.entries@[w], message, emoji@));
            }
        }
    }

    /// Cascade for a deleted source message: drops every tracked entry for
    /// it, across all emoji, and reports the board posts that mirrored it so
    /// the caller can try to delete each — each deletion independently.
    #[verifier::loop_isolation(false)]
    pub fn remove_starboard_entry(&mut self, message: MessageId) -> (posts: Vec<
        (ChannelId, MessageId),
    >)
        requires
            old(self).wf(),
        ensures
            final(self).wf(),
            final(self).configs@ == old(self).configs@,
            final(self).entries@ == entries_not_for_message(old(self).entries@, message),
            posts@ == board_posts_for_message(old(self).entries@, message),
            forall|emoji: Seq<char>| !final(self).has_entry(message, emoji),
    {
        broadcast use
            Seq::lemma_filter_push,
            Seq::lemma_filter_pred,
            Seq::lemma_push_map_commute,
            lemma_filter_entries_unique;

        let mut kept: Vec<TrackedEntry> = Vec::new();
        let mut posts: Vec<(ChannelId, MessageId)> = Vec::new();
        let mut i: usize = 0;
        while i < self.entries.len()
            invariant
                i <= self.entries@.len(),
                kept@ == entries_not_for_message(self.entries@.take(i as int), message),
                posts@ == board_posts_for_message(self.entries@.take(i as int), message),
            decreases self.entries@.len() - i,
        {
            proof {
                assert(self.entries@.take(i + 1) =~= self.entries@.take(i as int).push(
                    self.entries@[i as int],
                ));
            }
            let e = &self.entries[i];
            if e.source_message == message {
                posts.push((e.board_channel, e.board_post));
            } else {
                kept.push(e.clone());
            }
            i = i + 1;
        }
        proof {
            assert(self.entries@.take(self.entries@.len() as int) =~= self.entries@);
        }
        self.entries = kept;
        proof {
            assert forall|emoji: Seq<char>| !self.has_entry(message, emoji) by {
                if self.has_entry(message, emoji) {
                    let w = choose|w: int|
                        0 <= w < self.entries@.len() && entry_key_is(
                            self.entries@[w],
                            message,
                            emoji,
                        );
                    assert(self.entries@[w].source_message != message);
                }
            }
        }
        posts
    }

    /// Like the cascade for a deleted source message, but restricted to the
    /// entries whose board post sits in the given channel.
    #[verifier::loop_isolation(false)]
    pub fn remove_starboard_entry_with_channel(
        &mut self,
        message: MessageId,
        starboard_channel: ChannelId,
    ) -> (posts: Vec<MessageId>)
        requires
            old(self).wf(),
        ensures
            final(self).wf(),
            final(self).configs@ == old(self).configs@,
            final(self).entries@ == entries_not_for_message_in_channel(
                old(self).entries@,
                message,
                starboard_channel,
            ),
            posts@ == board_posts_for_message_in_channel(
                old(self).entries@,
                message,
                starboard_channel,
            ),
    {
        broadcast use
            Seq::lemma_filter_push,
            Seq::lemma_push_map_commute,
            lemma_filter_entries_unique;

        let mut kept: Vec<TrackedEntry> = Vec::new();
        let mut posts: Vec<MessageId> = Vec::new();
        let mut i: usize = 0;
        while i < self.entries.len()
            invariant
                i <= self.entries@.len(),
                kept@ == entries_not_for_message_in_channel(
                    self.entries@.take(i as int),
                    message,
                    starboard_channel,
                ),
                posts@ == board_posts_for_message_in_channel(
                    self.entries@.take(i as int),
                    message,
                    starboard_channel,
                ),
            decreases self.entries@.len() - i,
        {
            proof {
                assert(self.entries@.take(i + 1) =~= self.entries@.take(i as int).push(
                    self.entries@[i as int],
                ));
            }
            let e = &self.entries[i];
            if e.source_message == message && e.board_channel == starboard_channel {
                posts.push(e.board_post);
            } else {
                kept.push(e.clone());
            }
            i = i + 1;
        }
        proof {
            assert(self.entries@.take(self.entries@.len() as int) =~= self.entries@);
        }
        self.entries = kept;
        posts
    }

    /// Cascade for a deleted board channel: removes the configurations that
    /// point at it and every tracked entry mirrored into it, as one atomic
    /// unit — the caller commits both removals in a single transaction.
    #[verifier::loop_isolation(false)]
    pub fn delete_starboard_tables(&mut self, channel: ChannelId)
        requires
            old(self).wf(),
        ensures
            final(self).wf(),
            final(self).configs@ == configs_outside_board_channel(old(self).configs@, channel),
            final(self).entries@ == entries_outside_board_channel(old(self).entries@, channel),
    {
        broadcast use
            Seq::lemma_filter_push,
            lemma_filter_entries_unique,
            lemma_filter_configs_wf;

        let mut kept_entries: Vec<TrackedEntry> = Vec::new();
        let mut i: usize = 0;
        while i < self.entries.len()
            invariant
                i <= self.entries@.len(),
                kept_entries@ == entries_outside_board_channel(
                    self.entries@.take(i as int),
                    channel,
                ),
            decreases self.entries@.len() - i,
        {
            proof {
                assert(self.entries@.take(i + 1) =~= self.entries@.take(i as int).push(
                    self.entries@[i as int],
                ));
            }
            let e = &self.entries[i];
            if !(e.board_channel == channel) {
                kept_entries.push(e.clone());
            }
            i = i + 1;
        }
        let mut kept_configs: Vec<StarboardConfig> = Vec::new();
        let mut j: usize = 0;
        while j < self.configs.len()
            invariant
                j <= self.configs@.len(),
                kept_configs@ == configs_outside_board_channel(
                    self.configs@.take(j as int),
                    channel,
                ),
            decreases self.configs@.len() - j,
        {
            proof {
                assert(self.configs@.take(j + 1) =~= self.configs@.take(j as int).push(
                    self.configs@[j as int],
                ));
            }
            let c = &self.configs[j];
            if !(c.board_channel == channel) {
                kept_configs.push(c.clone());
            }
            j = j + 1;
        }
        proof {
            assert(self.entries@.take(self.entries@.len() as int) =~= self.entries@);
            assert(self.configs@.take(self.configs@.len() as int) =~= self.configs@);
        }
        self.entries = kept_entries;
        self.configs = kept_configs;
    }
}

} // verus!
