//! Typed identifiers for the chat domain and their storage representation.
//!
//! The gateway hands out unsigned 64-bit identifiers while the store keeps
//! them in signed 64-bit columns.  The conversions here are a narrow adapter
//! boundary with explicit range validation: an identifier crosses into the
//! store only when it is positive and fits the signed column, and a stored
//! value crosses back only when it is positive.

use vstd::prelude::*;

verus! {

/// An identifier can be kept in a signed 64-bit storage column exactly when
/// it is positive and no larger than the column's maximum.
pub open spec fn fits_db(raw: u64) -> bool {
    0 < raw <= i64::MAX as u64
}

/// A bounded chat space containing channels and members.
#[derive(Clone, Copy, PartialEq, Eq, Structural, Debug)]
pub struct GuildId {
    pub raw: u64,
}

/// A channel inside a guild.
#[derive(Clone, Copy, PartialEq, Eq, Structural, Debug)]
pub struct ChannelId {
    pub raw: u64,
}

/// A message inside a channel.
#[derive(Clone, Copy, PartialEq, Eq, Structural, Debug)]
pub struct MessageId {
    pub raw: u64,
}

/// A member of a guild.
#[derive(Clone, Copy, PartialEq, Eq, Structural, Debug)]
pub struct UserId {
    pub raw: u64,
}

/// Conversion from a typed identifier to its storage column value.
pub trait IntoDatabase: Sized {
    /// The raw 64-bit identifier behind the typed wrapper.
    spec fn id_raw(self) -> u64;

    /// The storage representation: the same number, now in a signed column.
    fn into_db(self) -> (r: i64)
        requires
            fits_db(self.id_raw()),
        ensures
            r == self.id_raw() as int,
            r > 0,
    ;
}

impl IntoDatabase for GuildId {
    open spec fn id_raw(self) -> u64 {
        self.raw
    }

    fn into_db(self) -> (r: i64)
    {
        self.raw as i64
    }
}

impl IntoDatabase for ChannelId {
    open spec fn id_raw(self) -> u64 {
        self.raw
    }

    fn into_db(self) -> (r: i64)
    {
        self.raw as i64
    }
}

impl IntoDatabase for MessageId {
    open spec fn id_raw(self) -> u64 {
        self.raw
    }

    fn into_db(self) -> (r: i64)
    {
        self.raw as i64
    }
}

impl IntoDatabase for UserId {
    open spec fn id_raw(self) -> u64 {
        self.raw
    }

    fn into_db(self) -> (r: i64)
    {
        self.raw as i64
    }
}

impl GuildId {
    /// Reads a guild identifier back out of its storage column.
    pub fn from_db(v: i64) -> (r: Option<GuildId>)
        ensures
            r is Some <==> v > 0,
            r is Some ==> r->Some_0.raw == v as u64 && fits_db(r->Some_0.raw),
    {
        if v > 0 {
            Some(GuildId { raw: v as u64 })
        } else {
            None
        }
    }
}

impl ChannelId {
    /// Reads a channel identifier back out of its storage column.
    pub fn from_db(v: i64) -> (r: Option<ChannelId>)
        ensures
            r is Some <==> v > 0,
            r is Some ==> r->Some_0.raw == v as u64 && fits_db(r->Some_0.raw),
    {
        if v > 0 {
            Some(ChannelId { raw: v as u64 })
        } else {
            None
        }
    }
}

impl MessageId {
    /// Reads a message identifier back out of its storage column.
    pub fn from_db(v: i64) -> (r: Option<MessageId>)
        ensures
            r is Some <==> v > 0,
            r is Some ==> r->Some_0.raw == v as u64 && fits_db(r->Some_0.raw),
    {
        if v > 0 {
            Some(MessageId { raw: v as u64 })
        } else {
            None
        }
    }
}

impl UserId {
    /// Reads a user identifier back out of its storage column.
    pub fn from_db(v: i64) -> (r: Option<UserId>)
        ensures
            r is Some <==> v > 0,
            r is Some ==> r->Some_0.raw == v as u64 && fits_db(r->Some_0.raw),
    {
        if v > 0 {
            Some(UserId { raw: v as u64 })
        } else {
            None
        }
    }
}

/// Round trip: an identifier that fits the storage column survives the trip
/// into the column and back unchanged.
pub proof fn lemma_db_round_trip(id: u64)
    requires
        fits_db(id),
    ensures
        (id as i64) as u64 == id,
        id as i64 > 0,
{
}

} // verus!
