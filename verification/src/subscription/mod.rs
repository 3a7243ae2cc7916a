//! What can be subscribed to, the key that identifies a subscribed stream, and
//! the values that each kind of subscription yields.
use barter_integration::model::SubscriptionId;
use vstd::prelude::*;
use vstd::string::*;

pub mod aggregated_trade;
pub mod book;

verus! {

/// `barter_integration::model::SubscriptionId`, the key of a subscribed
/// stream. Opaque to the verifier: its characters are spoken of through
/// [`subscription_text`].
#[verifier::external_type_specification]
#[verifier::external_body]
pub struct ExSubscriptionId(SubscriptionId);

/// The characters of a subscription key.
pub uninterp spec fn subscription_text(id: SubscriptionId) -> Seq<char>;

/// `SubscriptionId::from(String)`: the key whose characters are those of `text`.
#[verifier::external_body]
pub(crate) fn subscription_id_from(text: String) -> (id: SubscriptionId)
    ensures
        subscription_text(id) == text@,
{
    SubscriptionId::from(text)
}

/// `SubscriptionId::as_ref`: the characters of the key.
#[verifier::external_body]
pub(crate) fn subscription_id_str(id: &SubscriptionId) -> (text: &str)
    ensures
        text@ == subscription_text(*id),
{
    id.as_ref()
}

/// What kind of market data a subscription asks for, and the event that it yields.
pub trait SubscriptionKind {
    type Event;
}

/// Something that names the stream it belongs to.
pub trait Identifier<T> {
    fn id(&self) -> T;
}

/// The canonical key of the stream of `channel` for `market`:
/// `"{channel}|{market}"`.
pub open spec fn subscription_key(channel: Seq<char>, market: Seq<char>) -> Seq<char> {
    channel + seq!['|'] + market
}

/// A channel and a market as one exchange spells them.
#[derive(Clone, Debug, PartialEq, Eq, Hash)]
pub struct ExchangeSub {
    pub channel: String,
    pub market: String,
}

impl ExchangeSub {
    /// The subscription of `channel` for `market`.
    pub fn new(channel: &str, market: &str) -> (sub: ExchangeSub)
        ensures
            sub.channel@ == channel@,
            sub.market@ == market@,
    {
        ExchangeSub { channel: String::from_str(channel), market: String::from_str(market) }
    }
}

impl Identifier<SubscriptionId> for ExchangeSub {
    /// The key `"{channel}|{market}"`, whatever message the channel and the
    /// market were read from.
    fn id(&self) -> (id: SubscriptionId)
        ensures
            subscription_text(id) == subscription_key(self.channel@, self.market@),
    {
        subscription_id_of(self.channel.as_str(), self.market.as_str())
    }
}

/// The key `"{channel}|{market}"`.
pub fn subscription_id_of(channel: &str, market: &str) -> (id: SubscriptionId)
    ensures
        subscription_text(id) == subscription_key(channel@, market@),
{
    let mut text = String::from_str(channel);
    text.append("|");
    text.append(market);
    proof {
        reveal_strlit("|");
        assert("|"@ == seq!['|']);
    }
    subscription_id_from(text)
}

/// Whether two texts have the same characters.
pub fn same_text(a: &str, b: &str) -> (r: bool)
    ensures
        r == (a@ == b@),
{
    String::from_str(a) == String::from_str(b)
}

/// Whether two keys have the same characters.
pub fn same_subscription(a: &SubscriptionId, b: &SubscriptionId) -> (r: bool)
    ensures
        r == (subscription_text(*a) == subscription_text(*b)),
{
    same_text(subscription_id_str(a), subscription_id_str(b))
}

/// A key determines its channel and market wherever the channel holds no `'|'`:
/// two keys are equal only if both parts are.
pub proof fn lemma_subscription_key_injective(
    channel: Seq<char>,
    market: Seq<char>,
    other_channel: Seq<char>,
    other_market: Seq<char>,
)
    requires
        !channel.contains('|'),
        !other_channel.contains('|'),
        subscription_key(channel, market) == subscription_key(other_channel, other_market),
    ensures
        channel == other_channel,
        market == other_market,
{
    let key = subscription_key(channel, market);
    let other = subscription_key(other_channel, other_market);
    assert(key[channel.len() as int] == '|');
    assert(other[other_channel.len() as int] == '|');
    if channel.len() < other_channel.len() {
        assert(other[channel.len() as int] == other_channel[channel.len() as int]);
        assert(other_channel.contains('|'));
    }
    if other_channel.len() < channel.len() {
        assert(key[other_channel.len() as int] == channel[other_channel.len() as int]);
        assert(channel.contains('|'));
    }
    assert(channel =~= key.take(channel.len() as int));
    assert(other_channel =~= other.take(channel.len() as int));
    assert(market =~= key.skip(channel.len() as int + 1));
    assert(other_market =~= other.skip(channel.len() as int + 1));
}

} // verus!
