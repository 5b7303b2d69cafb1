//! Rendering and in-place surgery of a board post's text.
//!
//! A board post's visible line is composed once, at creation, as a link to
//! the source message followed by the emoji and the reactor count.  Later
//! reaction changes never rebuild the line: they replace the trailing numeric
//! token with the new count and leave everything before it untouched.

use crate::ids::{ChannelId, GuildId, MessageId};
use vstd::prelude::*;
use vstd::string::StrSliceExecFns;
use vstd::string::StringExecFns;

verus! {

/// The characters that make up a rendered count: the ten decimal digits.
pub open spec fn is_count_digit(c: char) -> bool {
    48 <= c as u32 <= 57
}

/// The character rendering a single decimal digit.
pub open spec fn digit_char(d: nat) -> char
    recommends
        d < 10,
{
    if d == 0 { '0' }
    else if d == 1 { '1' }
    else if d == 2 { '2' }
    else if d == 3 { '3' }
    else if d == 4 { '4' }
    else if d == 5 { '5' }
    else if d == 6 { '6' }
    else if d == 7 { '7' }
    else if d == 8 { '8' }
    else { '9' }
}

/// The usual decimal rendering of a number, most significant digit first,
/// with no leading zeros (a lone zero renders as "0").
pub open spec fn dec_digits(n: nat) -> Seq<char>
    decreases n,
{
    if n < 10 {
        seq![digit_char(n)]
    } else {
        dec_digits(n / 10).push(digit_char(n % 10))
    }
}

/// Every character of a decimal rendering is a digit.
pub proof fn lemma_dec_digits_are_digits(n: nat)
    ensures
        dec_digits(n).len() >= 1,
        forall|i: int| 0 <= i < dec_digits(n).len() ==> is_count_digit(#[trigger] dec_digits(n)[i]),
    decreases n,
{
    if n >= 10 {
        lemma_dec_digits_are_digits(n / 10);
    }
}

fn digit_str(d: u64) -> (r: &'static str)
    requires
        d < 10,
    ensures
        r@ == seq![digit_char(d as nat)],
{
    proof {
        reveal_strlit("0");
        reveal_strlit("1");
        reveal_strlit("2");
        reveal_strlit("3");
        reveal_strlit("4");
        reveal_strlit("5");
        reveal_strlit("6");
        reveal_strlit("7");
        reveal_strlit("8");
        reveal_strlit("9");
    }
    let r: &'static str = if d == 0 { "0" }
    else if d == 1 { "1" }
    else if d == 2 { "2" }
    else if d == 3 { "3" }
    else if d == 4 { "4" }
    else if d == 5 { "5" }
    else if d == 6 { "6" }
    else if d == 7 { "7" }
    else if d == 8 { "8" }
    else { "9" };
    proof {
        assert(r@ =~= seq![digit_char(d as nat)]);
    }
    r
}

/// Renders a count as its decimal digits.
pub fn count_to_string(n: u64) -> (r: String)
    ensures
        r@ == dec_digits(n as nat),
    decreases n,
{
    if n < 10 {
        digit_str(n).to_owned()
    } else {
        let prefix = count_to_string(n / 10);
        let r = prefix.concat(digit_str(n % 10));
        proof {
            assert(r@ =~= dec_digits(n as nat));
        }
        r
    }
}

/// The content with its trailing run of decimal digits removed.
pub open spec fn strip_count_suffix(s: Seq<char>) -> Seq<char>
    decreases s.len(),
{
    if s.len() > 0 && is_count_digit(s.last()) {
        strip_count_suffix(s.drop_last())
    } else {
        s
    }
}

/// The content after surgery: everything up to the trailing numeric token is
/// kept, and the token is replaced by the new count.
pub open spec fn patched_content(s: Seq<char>, count: nat) -> Seq<char> {
    strip_count_suffix(s) + dec_digits(count)
}

/// Appending digits and stripping the digit suffix cancel out.
pub proof fn lemma_strip_digit_suffix(x: Seq<char>, d: Seq<char>)
    requires
        forall|i: int| 0 <= i < d.len() ==> is_count_digit(#[trigger] d[i]),
    ensures
        strip_count_suffix(x + d) == strip_count_suffix(x),
    decreases d.len(),
{
    if d.len() == 0 {
        assert(x + d =~= x);
    } else {
        assert((x + d).last() == d.last());
        assert((x + d).drop_last() =~= x + d.drop_last());
        lemma_strip_digit_suffix(x, d.drop_last());
    }
}

/// What stripping leaves never ends in a digit.
pub proof fn lemma_strip_is_stripped(s: Seq<char>)
    ensures
        strip_count_suffix(s).len() > 0 ==> !is_count_digit(strip_count_suffix(s).last()),
    decreases s.len(),
{
    if s.len() > 0 && is_count_digit(s.last()) {
        lemma_strip_is_stripped(s.drop_last());
    }
}

/// Stripping is idempotent.
pub proof fn lemma_strip_idempotent(s: Seq<char>)
    ensures
        strip_count_suffix(strip_count_suffix(s)) == strip_count_suffix(s),
{
    lemma_strip_is_stripped(s);
}

/// If everything from position `k` on is a digit and the character just
/// before `k` (if any) is not, then stripping cuts exactly at `k`.
pub proof fn lemma_strip_cut_point(s: Seq<char>, k: int)
    requires
        0 <= k <= s.len(),
        forall|i: int| k <= i < s.len() ==> is_count_digit(#[trigger] s[i]),
        k > 0 ==> !is_count_digit(s[k - 1]),
    ensures
        strip_count_suffix(s) == s.take(k),
{
    assert(s =~= s.take(k) + s.skip(k));
    lemma_strip_digit_suffix(s.take(k), s.skip(k));
    if k == 0 {
        assert(s.take(0) =~= Seq::<char>::empty());
    } else {
        assert(s.take(k).last() == s[k - 1]);
    }
}

fn is_digit_char(c: char) -> (b: bool)
    ensures
        b == is_count_digit(c),
{
    let v = c as u32;
    48 <= v && v <= 57
}

/// Replaces the trailing numeric token of a board post's text with the new
/// count, leaving the rest of the rendering untouched.
pub fn patch_board_content(content: &str, count: u64) -> (r: String)
    ensures
        r@ == patched_content(content@, count as nat),
{
    let len = content.unicode_len();
    let mut k = len;
    while k > 0 && is_digit_char(content.get_char(k - 1))
        invariant
            k <= len,
            len == content@.len(),
            forall|i: int| k <= i < len ==> is_count_digit(#[trigger] content@[i]),
        decreases k,
    {
        k = k - 1;
    }
    proof {
        lemma_strip_cut_point(content@, k as int);
    }
    let prefix = content.substring_char(0, k);
    let digits = count_to_string(count);
    let r = prefix.to_owned().concat(digits.as_str());
    proof {
        assert(r@ =~= patched_content(content@, count as nat));
    }
    r
}

/// The link back to the source message, as the gateway renders one.
pub open spec fn source_link(guild: GuildId, channel: ChannelId, message: MessageId) -> Seq<char> {
    "https://discord.com/channels/"@ + dec_digits(guild.raw as nat) + "/"@
        + dec_digits(channel.raw as nat) + "/"@ + dec_digits(message.raw as nat)
}

/// The visible line of a board post: the source link, the emoji, and the
/// current reactor count.
pub open spec fn board_line(
    guild: GuildId,
    channel: ChannelId,
    message: MessageId,
    emoji: Seq<char>,
    count: nat,
) -> Seq<char> {
    source_link(guild, channel, message) + " | "@ + emoji + " "@ + dec_digits(count)
}

/// Composes the visible line of a fresh board post.
pub fn compose_board_content(
    guild: GuildId,
    channel: ChannelId,
    message: MessageId,
    emoji: &str,
    count: u64,
) -> (r: String)
    ensures
        r@ == board_line(guild, channel, message, emoji@, count as nat),
{
    let mut s: String = "https://discord.com/channels/".to_owned();
    s.append(count_to_string(guild.raw).as_str());
    s.append("/");
    s.append(count_to_string(channel.raw).as_str());
    s.append("/");
    s.append(count_to_string(message.raw).as_str());
    s.append(" | ");
    s.append(emoji);
    s.append(" ");
    s.append(count_to_string(count).as_str());
    proof {
        assert(s@ =~= board_line(guild, channel, message, emoji@, count as nat));
    }
    s
}

/// Content surgery is faithful: patching a composed line gives exactly the
/// line that would have been composed with the new count.
pub proof fn lemma_patch_composed_line(
    guild: GuildId,
    channel: ChannelId,
    message: MessageId,
    emoji: Seq<char>,
    count: nat,
    new_count: nat,
)
    ensures
        patched_content(board_line(guild, channel, message, emoji, count), new_count)
            == board_line(guild, channel, message, emoji, new_count),
{
    reveal_strlit(" ");
    let pre = source_link(guild, channel, message) + " | "@ + emoji + " "@;
    lemma_dec_digits_are_digits(count);
    assert(board_line(guild, channel, message, emoji, count) =~= pre + dec_digits(count));
    lemma_strip_digit_suffix(pre, dec_digits(count));
    assert(pre.last() == ' ');
    assert(strip_count_suffix(pre) == pre);
    assert(patched_content(board_line(guild, channel, message, emoji, count), new_count)
        =~= board_line(guild, channel, message, emoji, new_count));
}

/// Content surgery is stable: patching twice is the same as patching once
/// with the latest count.
pub proof fn lemma_patch_twice(s: Seq<char>, count: nat, new_count: nat)
    ensures
        patched_content(patched_content(s, count), new_count) == patched_content(s, new_count),
{
    lemma_dec_digits_are_digits(count);
    lemma_strip_digit_suffix(strip_count_suffix(s), dec_digits(count));
    lemma_strip_idempotent(s);
}

} // verus!
