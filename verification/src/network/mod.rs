//! The wire protocol and the routing of messages to clients.

pub mod messages;

pub mod server;

pub mod sync_systems;

use vstd::prelude::*;
use vstd::std_specs::convert::FromSpecImpl;
use crate::components::Entity;
use crate::math::Position;
use crate::network::messages::server::{MessageView, ServerMessages};

verus! {

/// The version tag both sides of a connection must present.
pub const PROTOCOL_ID: u64 = 7;

/// The transport's identifier of a connected client.
#[derive(Clone, Copy, Debug, PartialEq, Eq, Structural)]
pub struct NetworkClientId(pub u64);

/// The sessions of all connected clients: the unit each of them plays.
#[derive(Debug)]
pub struct NetworkResource {
    pub player_entity_map: std::collections::HashMap<u64, Entity>,
}

/// The channels a client sends on.
#[derive(Clone, Copy, Debug, PartialEq, Eq, Structural)]
pub enum ClientChannel {
    Input,
}

/// The channels the server sends on.
#[derive(Clone, Copy, Debug, PartialEq, Eq, Structural)]
pub enum ServerChannel {
    ServerMessages,
}

/// How one channel of a connection is to be set up.
#[derive(Clone, Copy, Debug, PartialEq, Eq, Structural)]
pub struct ChannelConfig {
    pub channel_id: u8,
    /// Milliseconds after which a message that was not acknowledged is sent
    /// again.
    pub message_resend_time: u64,
}

/// How the channels of one end of a connection are to be set up.
#[derive(Clone, Debug, PartialEq, Eq)]
pub struct RenetConnectionConfig {
    pub send_channels_config: Vec<ChannelConfig>,
    pub receive_channels_config: Vec<ChannelConfig>,
}

/// Milliseconds after which the server sends a message again.
pub const SERVER_RESEND_TIME: u64 = 200;

impl ClientChannel {
    /// The channels a client sends on: one that sends again at once.
    pub fn channels_config() -> (channels: Vec<ChannelConfig>)
        ensures
            channels@ == seq![ChannelConfig { channel_id: 0, message_resend_time: 0 }],
    {
        let mut channels: Vec<ChannelConfig> = Vec::new();
        channels.push(
            ChannelConfig { channel_id: u8::from(ClientChannel::Input), message_resend_time: 0 },
        );
        channels
    }
}

impl ServerChannel {
    /// The channels the server sends on: one that sends again after a fifth
    /// of a second.
    pub fn channels_config() -> (channels: Vec<ChannelConfig>)
        ensures
            channels@ == seq![
                ChannelConfig { channel_id: 0, message_resend_time: SERVER_RESEND_TIME },
            ],
    {
        let mut channels: Vec<ChannelConfig> = Vec::new();
        channels.push(
            ChannelConfig {
                channel_id: u8::from(ServerChannel::ServerMessages),
                message_resend_time: SERVER_RESEND_TIME,
            },
        );
        channels
    }
}

/// The set-up of the client's end: it sends on its own channels and takes
/// in those of the server.
pub fn client_connection_config() -> (config: RenetConnectionConfig)
    ensures
        config.send_channels_config@ == seq![
            ChannelConfig { channel_id: 0, message_resend_time: 0 },
        ],
        config.receive_channels_config@ == seq![
            ChannelConfig { channel_id: 0, message_resend_time: SERVER_RESEND_TIME },
        ],
{
    RenetConnectionConfig {
        send_channels_config: ClientChannel::channels_config(),
        receive_channels_config: ServerChannel::channels_config(),
    }
}

/// The set-up of the server's end: it sends on its own channels and takes
/// in those of the clients.
pub fn server_connection_config() -> (config: RenetConnectionConfig)
    ensures
        config.send_channels_config@ == seq![
            ChannelConfig { channel_id: 0, message_resend_time: SERVER_RESEND_TIME },
        ],
        config.receive_channels_config@ == seq![
            ChannelConfig { channel_id: 0, message_resend_time: 0 },
        ],
{
    RenetConnectionConfig {
        send_channels_config: ServerChannel::channels_config(),
        receive_channels_config: ClientChannel::channels_config(),
    }
}

impl From<ClientChannel> for u8 {
    fn from(channel_id: ClientChannel) -> (id: u8) {
        match channel_id {
            ClientChannel::Input => 0,
        }
    }
}

impl FromSpecImpl<ClientChannel> for u8 {
    open spec fn obeys_from_spec() -> bool {
        true
    }

    open spec fn from_spec(channel_id: ClientChannel) -> u8 {
        0
    }
}

impl From<ServerChannel> for u8 {
    fn from(channel_id: ServerChannel) -> (id: u8) {
        match channel_id {
            ServerChannel::ServerMessages => 0,
        }
    }
}

impl FromSpecImpl<ServerChannel> for u8 {
    open spec fn obeys_from_spec() -> bool {
        true
    }

    open spec fn from_spec(channel_id: ServerChannel) -> u8 {
        0
    }
}

/// Who gets a message.
#[derive(Clone, Copy, Debug, PartialEq, Eq, Structural)]
pub enum BroadcastScope {
    /// The one client named.
    Direct { client_id: u64 },
    /// Every client whose player is a child of `instance`, but for the one
    /// that plays `except`.
    Instance { instance: Entity, except: Option<Entity> },
    /// Every client whose player is a child of `instance` and on the ground
    /// strictly closer than `range` world units to `point`.
    Nearby { instance: Entity, point: Position, range: u32 },
    /// Every connected client.
    Global,
}

/// A message on its way out, with those it is meant for.
#[derive(Clone, Debug, PartialEq, Eq)]
pub struct SendServerMessageEvent {
    pub scope: BroadcastScope,
    pub message: ServerMessages,
}

/// A message on its way out as contracts see it.
pub struct OutboundView {
    pub scope: BroadcastScope,
    pub message: MessageView,
}

impl View for SendServerMessageEvent {
    type V = OutboundView;

    open spec fn view(&self) -> OutboundView {
        OutboundView { scope: self.scope, message: self.message@ }
    }
}

/// The messages of `events` as contracts see them.
pub open spec fn outbound(events: Seq<SendServerMessageEvent>) -> Seq<OutboundView> {
    Seq::new(events.len(), |i: int| events[i]@)
}

/// The view of a list of messages grows with the list.
pub proof fn lemma_outbound_push(events: Seq<SendServerMessageEvent>, event: SendServerMessageEvent)
    ensures
        outbound(events.push(event)) == outbound(events).push(event@),
        outbound(events.push(event)) == outbound(events) + seq![event@],
{
    assert(outbound(events.push(event)) =~= outbound(events).push(event@));
    assert(outbound(events.push(event)) =~= outbound(events) + seq![event@]);
}

/// The view of two lists of messages put together is the two views put
/// together.
pub proof fn lemma_outbound_add(a: Seq<SendServerMessageEvent>, b: Seq<SendServerMessageEvent>)
    ensures
        outbound(a + b) == outbound(a) + outbound(b),
{
    assert(outbound(a + b) =~= outbound(a) + outbound(b));
}

/// Moves the messages of `more` to the end of `messages`.
pub fn queue(messages: &mut Vec<SendServerMessageEvent>, more: Vec<SendServerMessageEvent>)
    ensures
        final(messages)@ == old(messages)@ + more@,
        outbound(final(messages)@) == outbound(old(messages)@) + outbound(more@),
{
    let mut more = more;
    proof {
        lemma_outbound_add(messages@, more@);
    }
    messages.append(&mut more);
}

impl SendServerMessageEvent {
    /// `message` for the client `client_id` alone.
    pub fn directly_to(client_id: u64, message: ServerMessages) -> (event: Self)
        ensures
            event.scope == (BroadcastScope::Direct { client_id }),
            event.message == message,
    {
        SendServerMessageEvent { scope: BroadcastScope::Direct { client_id }, message }
    }

    /// `message` for every client in the map instance `instance`, but for
    /// the one that plays `except`.
    pub fn to_map(instance: Entity, except: Option<Entity>, message: ServerMessages) -> (event:
        Self)
        ensures
            event.scope == (BroadcastScope::Instance { instance, except }),
            event.message == message,
    {
        SendServerMessageEvent { scope: BroadcastScope::Instance { instance, except }, message }
    }

    /// `message` for every client in the map instance `instance` that is
    /// closer than `range` world units to `point`.
    pub fn to_players_nearby(
        instance: Entity,
        point: Position,
        range: u32,
        message: ServerMessages,
    ) -> (event: Self)
        ensures
            event.scope == (BroadcastScope::Nearby { instance, point, range }),
            event.message == message,
    {
        SendServerMessageEvent { scope: BroadcastScope::Nearby { instance, point, range }, message }
    }

    /// `message` for every connected client.
    pub fn to_everyone(message: ServerMessages) -> (event: Self)
        ensures
            event.scope == BroadcastScope::Global,
            event.message == message,
    {
        SendServerMessageEvent { scope: BroadcastScope::Global, message }
    }
}

} // verus!
