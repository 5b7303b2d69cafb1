use oxibot::ids::{ChannelId, GuildId, IntoDatabase, MessageId, UserId};

#[test]
fn identifiers_round_trip_through_the_store() {
    assert_eq!(GuildId { raw: 1 }.into_db(), 1);
    assert_eq!(ChannelId { raw: 20 }.into_db(), 20);
    assert_eq!(MessageId { raw: 300 }.into_db(), 300);
    assert_eq!(UserId { raw: 4000 }.into_db(), 4000);

    let largest = i64::MAX as u64;
    assert_eq!(MessageId { raw: largest }.into_db(), i64::MAX);
    assert_eq!(MessageId::from_db(i64::MAX), Some(MessageId { raw: largest }));

    assert_eq!(GuildId::from_db(7), Some(GuildId { raw: 7 }));
    assert_eq!(ChannelId::from_db(9).map(|c| c.into_db()), Some(9));
}

#[test]
fn non_positive_columns_are_rejected() {
    assert_eq!(GuildId::from_db(0), None);
    assert_eq!(ChannelId::from_db(-1), None);
    assert_eq!(MessageId::from_db(i64::MIN), None);
    assert_eq!(UserId::from_db(-42), None);
}
