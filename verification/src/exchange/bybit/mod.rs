//! The Bybit exchange: its channels, its topics and its messages.
use crate::error::{Field, SchemaError};
use crate::subscription::{subscription_id_of, subscription_key, subscription_text};
use barter_integration::model::SubscriptionId;
use vstd::prelude::*;
use vstd::string::*;
use vstd::utf8::is_ascii_chars;

pub mod book;
pub mod message;

verus! {

/// The channels of Bybit by the names that the exchange gives them.
#[derive(Clone, Copy, Debug, PartialEq, Eq, Hash)]
pub struct BybitChannel(pub &'static str);

impl BybitChannel {
    /// The channel of public trades.
    pub fn trades() -> (channel: BybitChannel)
        ensures
            channel.0@ == "publicTrade"@,
    {
        BybitChannel("publicTrade")
    }

    /// The channel of the order book of depth one: the best bid and ask.
    pub fn order_book_l1() -> (channel: BybitChannel)
        ensures
            channel.0@ == "orderbook.1"@,
    {
        BybitChannel("orderbook.1")
    }
}

/// Position of the last `'.'` in `s`, or `-1` where there is none.
pub open spec fn last_dot(s: Seq<char>) -> int
    decreases s.len(),
{
    if s.len() == 0 {
        -1
    } else if s.last() == '.' {
        s.len() - 1
    } else {
        last_dot(s.drop_last())
    }
}

/// The channel and the market that a topic names: what stands before its last
/// `'.'` and what stands after it, as in `orderbook.1.BTCUSDT`. A topic names
/// none where it is not ASCII, has no `'.'`, or has nothing on one side of it.
pub open spec fn topic_parts(topic: Seq<char>) -> Option<(Seq<char>, Seq<char>)> {
    let dot = last_dot(topic);
    if is_ascii_chars(topic) && 0 < dot && dot + 1 < topic.len() {
        Some((topic.take(dot), topic.skip(dot + 1)))
    } else {
        None
    }
}

/// The position found by scanning backwards for a `'.'` is `last_dot`.
proof fn lemma_last_dot(s: Seq<char>, dot: int)
    requires
        -1 <= dot < s.len(),
        dot >= 0 ==> s[dot] == '.',
        forall|j: int| dot < j < s.len() ==> s[j] != '.',
    ensures
        last_dot(s) == dot,
    decreases s.len(),
{
    if s.len() == 0 {
    } else if dot == s.len() - 1 {
    } else {
        assert(s.last() == s[s.len() - 1]);
        assert forall|j: int| dot < j < s.drop_last().len() implies s.drop_last()[j] != '.' by {
            assert(s.drop_last()[j] == s[j]);
        }
        lemma_last_dot(s.drop_last(), dot);
    }
}

/// Reads a topic, such as `"publicTrade.BTCUSDT"`, as the key of the stream
/// that it names, `"publicTrade|BTCUSDT"`.
pub fn topic_subscription_id(topic: &str) -> (r: Result<SubscriptionId, SchemaError>)
    ensures
        match r {
            Ok(id) => topic_parts(topic@) matches Some((channel, market)) && subscription_text(id)
                == subscription_key(channel, market),
            Err(error) => topic_parts(topic@) is None && error == SchemaError::Invalid(
                Field::Topic,
            ),
        },
{
    if !topic.is_ascii() {
        return Err(SchemaError::Invalid(Field::Topic));
    }
    let bytes = topic.as_bytes();
    let n = bytes.len();
    proof {
        is_ascii_spec_bytes(topic);
    }
    let mut end: usize = n;
    while end > 0 && bytes[end - 1] != 46u8
        invariant
            0 <= end <= n,
            n == topic@.len(),
            bytes@.len() == topic@.len(),
            is_ascii_chars(topic@),
            forall|i: int| 0 <= i < topic@.len() ==> bytes@[i] == #[trigger] topic@[i] as u8,
            forall|j: int| end <= j < n ==> topic@[j] != '.',
        decreases end,
    {
        end = end - 1;
    }
    proof {
        lemma_last_dot(topic@, end - 1);
    }
    if end <= 1 || end == n {
        return Err(SchemaError::Invalid(Field::Topic));
    }
    let channel = topic.substring_ascii(0, end - 1);
    let market = topic.substring_ascii(end, n);
    proof {
        assert(topic@.subrange(0, end - 1) == topic@.take(end - 1));
        assert(topic@.subrange(end as int, n as int) == topic@.skip(end as int));
    }
    Ok(subscription_id_of(channel, market))
}

/// A topic and a market field name the same stream: the topic
/// `{channel}.{market}` has the key of `channel` and `market`, wherever the
/// market holds no `'.'` and neither part is empty.
pub proof fn lemma_topic_names_channel_and_market(channel: Seq<char>, market: Seq<char>)
    requires
        is_ascii_chars(channel),
        is_ascii_chars(market),
        channel.len() > 0,
        market.len() > 0,
        !market.contains('.'),
    ensures
        topic_parts(channel + seq!['.'] + market) == Some((channel, market)),
{
    let topic = channel + seq!['.'] + market;
    assert forall|j: int| channel.len() < j < topic.len() implies topic[j] != '.' by {
        assert(topic[j] == market[j - channel.len() - 1]);
        assert(market.contains(market[j - channel.len() - 1]));
    }
    lemma_last_dot(topic, channel.len() as int);
    assert(topic.take(channel.len() as int) == channel);
    assert(topic.skip(channel.len() as int + 1) == market);
    assert forall|i: int| 0 <= i < topic.len() implies '\0' <= #[trigger] topic[i] <= '\u{7f}' by {
        if i < channel.len() {
            assert(topic[i] == channel[i]);
        } else if i > channel.len() {
            assert(topic[i] == market[i - channel.len() - 1]);
        }
    }
}

} // verus!
