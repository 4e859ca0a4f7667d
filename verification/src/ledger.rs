//! The ledger that runs the contract, as the contract sees it: plugin
//! contracts to ask for quotes, and a stream of events to publish to.
//!
//! The ledger is reached through an [`Env`]. What a contract asked of it through
//! that handle is named here: the plugin calls it made and the events it
//! published, oldest first.

use soroban_sdk::{Address, Bytes, Env, Error, IntoVal, InvokeError, Symbol};
use vstd::prelude::*;

verus! {

/// The handle through which a contract reaches the ledger that runs it.
#[verifier::external_type_specification]
#[verifier::external_body]
pub struct ExEnv(soroban_sdk::Env);

/// The address of an account or of a contract.
#[verifier::external_type_specification]
#[verifier::external_body]
pub struct ExAddress(soroban_sdk::Address);

/// An error value that an invoked contract, or the ledger, handed back.
#[verifier::external_type_specification]
#[verifier::external_body]
pub struct ExError(soroban_sdk::Error);

/// Why an invocation failed, where that is no error value.
#[verifier::external_type_specification]
#[verifier::external_body]
pub struct ExInvokeError(soroban_sdk::InvokeError);

/// `Address::clone` is derived: it copies the two handles that an address
/// consists of, so the copy is the address itself.
pub assume_specification[ <soroban_sdk::Address as Clone>::clone ](
    address: &soroban_sdk::Address,
) -> (copy: soroban_sdk::Address)
    ensures
        copy == *address,
;

/// The text form of an address, byte by byte.
pub uninterp spec fn address_text(address: Address) -> Seq<u8>;

/// Whether an address is the address of a contract. The text form of such an
/// address starts with `C` (0x43), that of an account's address with `G`.
pub open spec fn names_contract(address: Address) -> bool {
    address_text(address).len() > 0 && address_text(address)[0] == 0x43
}

/// A call of a liquidity plugin, and the amount that it answered with. `None`
/// stands for a call that failed, or whose answer was no amount.
pub struct PluginCall {
    pub plugin: Address,
    pub function: Seq<char>,
    pub token_in: Address,
    pub token_out: Address,
    pub amount_in: i128,
    pub reply: Option<i128>,
}

/// An event as it was published: under one topic.
pub struct PublishedEvent {
    pub topic: Seq<char>,
    pub event: RouterEvent,
}

/// The plugin calls that a contract made through `env`, oldest first.
pub uninterp spec fn plugin_calls(env: Env) -> Seq<PluginCall>;

/// The events that a contract published through `env`, oldest first.
pub uninterp spec fn published(env: Env) -> Seq<PublishedEvent>;

/// The amount in what an invocation handed back, if there is one.
pub open spec fn amount_in_reply(
    reply: Result<Result<i128, Error>, Result<Error, InvokeError>>,
) -> Option<i128> {
    match reply {
        Ok(Ok(amount)) => Some(amount),
        _ => None,
    }
}

/// Whether a text can be a symbol of the ledger: at most 32 characters, each
/// of them an ASCII letter, an ASCII digit or an underscore.
pub open spec fn is_symbol(text: Seq<char>) -> bool {
    &&& text.len() <= 32
    &&& forall|i: int|
        0 <= i < text.len() ==> {
            ||| 'a' <= #[trigger] text[i] <= 'z'
            ||| 'A' <= text[i] <= 'Z'
            ||| '0' <= text[i] <= '9'
            ||| text[i] == '_'
        }
}

/// `Address::to_string`: the text form of an address. It is a function of the
/// address alone; which text belongs to which address is not stated.
#[verifier::external_body]
fn text_of(address: &Address) -> (text: Vec<u8>)
    ensures
        text@ == address_text(*address),
{
    let string = address.to_string();
    let mut bytes = vec![0; string.len() as usize];
    string.copy_into_slice(&mut bytes);
    bytes
}

/// `Env::try_invoke_contract`: calls `function` of the contract at `plugin`
/// with the two tokens and the amount, and hands back what came of it. The call
/// is one more plugin call of `env`, and publishes no event of the caller's.
/// What comes back is up to the contract at `plugin`, so it is recorded and
/// nothing else is stated of it.
///
/// An address is a handle on an object of the ledger that it was made on, which
/// means nothing to another ledger. So each address is first made anew on `env`
/// from its text, `Address::to_string` and `Address::from_string_bytes`: the
/// ledger behind `env` gets the addresses that the caller names, wherever they
/// were made.
///
/// The call does not return when `plugin` is no contract's address, or
/// `function` no symbol: the ledger then aborts the caller, as it does when the
/// resources of a transaction run out.
#[verifier::external_body]
fn try_invoke(
    env: &mut Env,
    plugin: &Address,
    function: &str,
    token_in: &Address,
    token_out: &Address,
    amount_in: i128,
) -> (reply: Result<Result<i128, Error>, Result<Error, InvokeError>>)
    requires
        names_contract(*plugin),
        is_symbol(function@),
    ensures
        plugin_calls(*final(env)) == plugin_calls(*old(env)).push(
            (PluginCall {
                plugin: *plugin,
                function: function@,
                token_in: *token_in,
                token_out: *token_out,
                amount_in,
                reply: amount_in_reply(reply),
            }),
        ),
        published(*final(env)) == published(*old(env)),
{
    let [plugin, token_in, token_out] = [plugin, token_in, token_out].map(|address| {
        let text = address.to_string();
        let mut bytes = vec![0; text.len() as usize];
        text.copy_into_slice(&mut bytes);
        Address::from_string_bytes(&Bytes::from_slice(env, &bytes))
    });
    let mut args = soroban_sdk::Vec::new(env);
    args.push_back(token_in.to_val());
    args.push_back(token_out.to_val());
    args.push_back(amount_in.into_val(env));
    env.try_invoke_contract::<i128, Error>(&plugin, &Symbol::new(env, function), args)
}

/// `Events::publish`, with `topic` as the only topic and the fee and the flag
/// as the data: one more event of `env`.
#[verifier::external_body]
#[allow(deprecated)]
fn publish_fee(env: &mut Env, topic: &str, total_fee: i128, surge_pricing: bool)
    requires
        is_symbol(topic@),
    ensures
        published(*final(env)) == published(*old(env)).push(
            (PublishedEvent {
                topic: topic@,
                event: RouterEvent::FeeEstimated { total_fee, surge_pricing },
            }),
        ),
        plugin_calls(*final(env)) == plugin_calls(*old(env)),
{
    env.events().publish((Symbol::new(env, topic),), (total_fee, surge_pricing));
}

/// `Events::publish`, with `topic` as the only topic and the three amounts as
/// the data: one more event of `env`.
#[verifier::external_body]
#[allow(deprecated)]
fn publish_quote(
    env: &mut Env,
    topic: &str,
    amount_in: i128,
    amount_out: i128,
    exchange_rate: i128,
)
    requires
        is_symbol(topic@),
    ensures
        published(*final(env)) == published(*old(env)).push(
            (PublishedEvent {
                topic: topic@,
                event: RouterEvent::QuoteGenerated { amount_in, amount_out, exchange_rate },
            }),
        ),
        plugin_calls(*final(env)) == plugin_calls(*old(env)),
{
    env.events().publish((Symbol::new(env, topic),), (amount_in, amount_out, exchange_rate));
}

/// What the contract announces.
#[derive(Copy, Clone, Debug, PartialEq, Eq, Structural)]
pub enum RouterEvent {
    /// A fee was estimated.
    FeeEstimated { total_fee: i128, surge_pricing: bool },
    /// A quote was given.
    QuoteGenerated { amount_in: i128, amount_out: i128, exchange_rate: i128 },
}

impl RouterEvent {
    /// An event under its topic, a past tense verb in snake_case.
    pub open spec fn under_topic(self) -> PublishedEvent {
        PublishedEvent {
            topic: match self {
                RouterEvent::FeeEstimated { .. } => "fee_estimated"@,
                RouterEvent::QuoteGenerated { .. } => "quote_generated"@,
            },
            event: self,
        }
    }

    /// The topic under which the event is published.
    pub fn topic(&self) -> (topic: &'static str)
        ensures
            topic@ == self.under_topic().topic,
            is_symbol(topic@),
    {
        proof {
            reveal_strlit("fee_estimated");
            reveal_strlit("quote_generated");
        }
        match self {
            RouterEvent::FeeEstimated { .. } => "fee_estimated",
            RouterEvent::QuoteGenerated { .. } => "quote_generated",
        }
    }

    /// Publishes the event under its topic.
    pub fn publish(self, env: &mut Env)
        ensures
            published(*final(env)) == published(*old(env)).push(self.under_topic()),
            plugin_calls(*final(env)) == plugin_calls(*old(env)),
    {
        let topic = self.topic();
        match self {
            RouterEvent::FeeEstimated { total_fee, surge_pricing } => {
                publish_fee(env, topic, total_fee, surge_pricing);
            },
            RouterEvent::QuoteGenerated { amount_in, amount_out, exchange_rate } => {
                publish_quote(env, topic, amount_in, amount_out, exchange_rate);
            },
        }
    }
}

/// Whether `address` is the address of a contract.
pub fn is_contract(address: &Address) -> (yes: bool)
    ensures
        yes == names_contract(*address),
{
    let text = text_of(address);
    text.len() > 0 && text[0] == 0x43
}

/// Calls `function` of the contract at `plugin`, and gives the amount that it
/// answers with, if it does.
pub fn ask_plugin(
    env: &mut Env,
    plugin: &Address,
    function: &str,
    token_in: &Address,
    token_out: &Address,
    amount_in: i128,
) -> (reply: Option<i128>)
    requires
        names_contract(*plugin),
        is_symbol(function@),
    ensures
        plugin_calls(*final(env)) == plugin_calls(*old(env)).push(
            (PluginCall {
                plugin: *plugin,
                function: function@,
                token_in: *token_in,
                token_out: *token_out,
                amount_in,
                reply,
            }),
        ),
        published(*final(env)) == published(*old(env)),
{
    match try_invoke(env, plugin, function, token_in, token_out, amount_in) {
        Ok(Ok(amount_out)) => Some(amount_out),
        Ok(Err(_)) => None,
        Err(_) => None,
    }
}

} // verus!
