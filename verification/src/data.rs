//! The values that the gateway hands to its consumer: users, channels,
//! guilds, messages, and the event that carries them.

use crate::error::DecodeError;
use crate::json::{views_of, Json, JsonView};
use crate::payload::{
    array_field, decode_all, id_field, integer_field, lemma_decode_all_fails,
    lemma_decode_all_pointwise, read_array, read_id, read_integer, read_text, text_field,
};
use crate::text::same_text;
use vstd::prelude::*;
use vstd::string::*;

verus! {

/// The account that wrote a message.
#[derive(Debug, PartialEq, Eq, Hash)]
pub struct User {
    pub id: u64,
    pub name: String,
    pub discriminator: String,
}

/// A [`User`], as mathematics.
pub struct UserView {
    pub id: u64,
    pub name: Seq<char>,
    pub discriminator: Seq<char>,
}

impl View for User {
    type V = UserView;

    open spec fn view(&self) -> UserView {
        UserView { id: self.id, name: self.name@, discriminator: self.discriminator@ }
    }
}

/// A channel of a guild. `kind` is the numeric channel type of the protocol.
#[derive(Debug, PartialEq, Eq, Hash)]
pub struct Channel {
    pub id: u64,
    pub name: String,
    pub kind: i64,
}

/// A [`Channel`], as mathematics.
pub struct ChannelView {
    pub id: u64,
    pub name: Seq<char>,
    pub kind: i64,
}

impl View for Channel {
    type V = ChannelView;

    open spec fn view(&self) -> ChannelView {
        ChannelView { id: self.id, name: self.name@, kind: self.kind }
    }
}

/// The view of each channel of `channels`.
pub open spec fn channel_views(channels: Seq<Channel>) -> Seq<ChannelView> {
    Seq::new(channels.len(), |i: int| channels[i]@)
}

/// A guild with the channels that a text client can show.
#[derive(Debug, PartialEq, Eq, Hash)]
pub struct Guild {
    pub id: u64,
    pub name: String,
    pub channels: Vec<Channel>,
}

/// A [`Guild`], as mathematics.
pub struct GuildView {
    pub id: u64,
    pub name: Seq<char>,
    pub channels: Seq<ChannelView>,
}

impl View for Guild {
    type V = GuildView;

    open spec fn view(&self) -> GuildView {
        GuildView { id: self.id, name: self.name@, channels: channel_views(self.channels@) }
    }
}

/// The view of each guild of `guilds`.
pub open spec fn guild_views(guilds: Seq<Guild>) -> Seq<GuildView> {
    Seq::new(guilds.len(), |i: int| guilds[i]@)
}

/// A chat message.
#[derive(Debug, PartialEq, Eq, Hash)]
pub struct Msg {
    pub id: u64,
    pub channel_id: u64,
    pub user: User,
    pub content: String,
}

/// A [`Msg`], as mathematics.
pub struct MsgView {
    pub id: u64,
    pub channel_id: u64,
    pub user: UserView,
    pub content: Seq<char>,
}

impl View for Msg {
    type V = MsgView;

    open spec fn view(&self) -> MsgView {
        MsgView {
            id: self.id,
            channel_id: self.channel_id,
            user: self.user@,
            content: self.content@,
        }
    }
}

/// The view of each message of `messages`.
pub open spec fn msg_views(messages: Seq<Msg>) -> Seq<MsgView> {
    Seq::new(messages.len(), |i: int| messages[i]@)
}

/// One event for the consumer: `operation` names it, and the field that
/// belongs to that name carries it.
#[derive(Debug, PartialEq, Eq, Hash)]
pub struct GatewayResponse {
    pub operation: String,
    pub message: Msg,
    pub guilds: Vec<Guild>,
}

/// A [`GatewayResponse`], as mathematics.
pub struct GatewayResponseView {
    pub operation: Seq<char>,
    pub message: MsgView,
    pub guilds: Seq<GuildView>,
}

impl View for GatewayResponse {
    type V = GatewayResponseView;

    open spec fn view(&self) -> GatewayResponseView {
        GatewayResponseView {
            operation: self.operation@,
            message: self.message@,
            guilds: guild_views(self.guilds@),
        }
    }
}

/// The user that stands in where no real one is known.
pub open spec fn placeholder_user() -> UserView {
    UserView { id: 111, name: "Dev"@, discriminator: "0001"@ }
}

/// The message that stands in where no real one is known.
pub open spec fn placeholder_msg() -> MsgView {
    MsgView {
        id: 222,
        channel_id: 333,
        user: placeholder_user(),
        content: "Unable to open a channel without proper permission"@,
    }
}

impl User {
    /// The placeholder user.
    pub fn new() -> (user: User)
        ensures
            user@ == placeholder_user(),
    {
        User { id: 111, name: "Dev".to_owned(), discriminator: "0001".to_owned() }
    }
}

impl Msg {
    /// The placeholder message.
    pub fn new() -> (msg: Msg)
        ensures
            msg@ == placeholder_msg(),
    {
        Msg {
            id: 222,
            channel_id: 333,
            user: User::new(),
            content: "Unable to open a channel without proper permission".to_owned(),
        }
    }
}

impl GatewayResponse {
    /// The event for a message that was posted: no guilds come with it.
    pub fn msg_create(message: Msg) -> (event: GatewayResponse)
        ensures
            event@ == (GatewayResponseView {
                operation: "MESSAGE_CREATE"@,
                message: message@,
                guilds: Seq::empty(),
            }),
    {
        let event = GatewayResponse {
            operation: "MESSAGE_CREATE".to_owned(),
            message,
            guilds: Vec::new(),
        };
        assert(guild_views(event.guilds@) =~= Seq::empty());
        event
    }

    /// The event for the initial data: the guilds, beside the placeholder
    /// message.
    pub fn ready(guilds: Vec<Guild>) -> (event: GatewayResponse)
        ensures
            event@ == (GatewayResponseView {
                operation: "READY"@,
                message: placeholder_msg(),
                guilds: guild_views(guilds@),
            }),
    {
        GatewayResponse { operation: "READY".to_owned(), message: Msg::new(), guilds }
    }
}

impl Clone for User {
    fn clone(&self) -> (copy: User)
        ensures
            copy@ == self@,
    {
        User { id: self.id, name: self.name.clone(), discriminator: self.discriminator.clone() }
    }
}

impl Clone for Channel {
    fn clone(&self) -> (copy: Channel)
        ensures
            copy@ == self@,
    {
        Channel { id: self.id, name: self.name.clone(), kind: self.kind }
    }
}

impl Channel {
    /// Whether two channels are the same in every field.
    pub fn same(&self, other: &Channel) -> (same: bool)
        ensures
            same == (self@ == other@),
    {
        self.id == other.id && self.kind == other.kind && same_text(
            self.name.as_str(),
            other.name.as_str(),
        )
    }
}

/// A copy of a list of channels.
pub fn clone_channels(channels: &Vec<Channel>) -> (copy: Vec<Channel>)
    ensures
        channel_views(copy@) == channel_views(channels@),
{
    let mut copy: Vec<Channel> = Vec::new();
    let mut i: usize = 0;
    while i < channels.len()
        invariant
            i <= channels.len(),
            copy@.len() == i,
            forall|j: int| 0 <= j < i ==> (#[trigger] copy@[j])@ == channels@[j]@,
        decreases channels.len() - i,
    {
        copy.push(channels[i].clone());
        i += 1;
    }
    assert(channel_views(copy@) =~= channel_views(channels@));
    copy
}

impl Clone for Guild {
    fn clone(&self) -> (copy: Guild)
        ensures
            copy@ == self@,
    {
        Guild { id: self.id, name: self.name.clone(), channels: clone_channels(&self.channels) }
    }
}

impl Clone for Msg {
    fn clone(&self) -> (copy: Msg)
        ensures
            copy@ == self@,
    {
        Msg {
            id: self.id,
            channel_id: self.channel_id,
            user: self.user.clone(),
            content: self.content.clone(),
        }
    }
}

/// A copy of a list of messages.
pub fn clone_msgs(messages: &Vec<Msg>) -> (copy: Vec<Msg>)
    ensures
        msg_views(copy@) == msg_views(messages@),
{
    let mut copy: Vec<Msg> = Vec::new();
    let mut i: usize = 0;
    while i < messages.len()
        invariant
            i <= messages.len(),
            copy@.len() == i,
            forall|j: int| 0 <= j < i ==> (#[trigger] copy@[j])@ == messages@[j]@,
        decreases messages.len() - i,
    {
        copy.push(messages[i].clone());
        i += 1;
    }
    assert(msg_views(copy@) =~= msg_views(messages@));
    copy
}

impl Clone for GatewayResponse {
    fn clone(&self) -> (copy: GatewayResponse)
        ensures
            copy@ == self@,
    {
        let mut guilds: Vec<Guild> = Vec::new();
        let mut i: usize = 0;
        while i < self.guilds.len()
            invariant
                i <= self.guilds.len(),
                guilds@.len() == i,
                forall|j: int| 0 <= j < i ==> (#[trigger] guilds@[j])@ == self.guilds@[j]@,
            decreases self.guilds.len() - i,
        {
            guilds.push(self.guilds[i].clone());
            i += 1;
        }
        assert(guild_views(guilds@) =~= guild_views(self.guilds@));
        GatewayResponse { operation: self.operation.clone(), message: self.message.clone(), guilds }
    }
}

impl Msg {
    /// The line that shows the message: the author's name, a colon and a
    /// space, and the content.
    pub fn line(&self) -> (text: String)
        ensures
            text@ == self@.user.name + ": "@ + self@.content,
    {
        let mut text = self.user.name.clone();
        text.append(": ");
        text.append(self.content.as_str());
        text
    }
}

/// The user that a payload describes.
pub open spec fn user_of(json: JsonView) -> Result<UserView, DecodeError> {
    match id_field(json, "id"@) {
        Err(e) => Err(e),
        Ok(id) => match text_field(json, "username"@) {
            Err(e) => Err(e),
            Ok(name) => match text_field(json, "discriminator"@) {
                Err(e) => Err(e),
                Ok(discriminator) => Ok(UserView { id, name, discriminator }),
            },
        },
    }
}

/// The channel that a payload describes.
pub open spec fn channel_of(json: JsonView) -> Result<ChannelView, DecodeError> {
    match id_field(json, "id"@) {
        Err(e) => Err(e),
        Ok(id) => match text_field(json, "name"@) {
            Err(e) => Err(e),
            Ok(name) => match integer_field(json, "type"@) {
                Err(e) => Err(e),
                Ok(kind) => Ok(ChannelView { id, name, kind }),
            },
        },
    }
}

/// [`channel_of`], as a function value.
pub open spec fn channel_decoder() -> spec_fn(JsonView) -> Result<ChannelView, DecodeError> {
    |json: JsonView| channel_of(json)
}

/// Whether `kind` is a channel type that a text client leaves out: voice,
/// category, the three thread types, stage, directory and forum.
pub open spec fn is_hidden_kind(kind: i64) -> bool {
    kind == 2 || kind == 4 || kind == 10 || kind == 11 || kind == 12 || kind == 13 || kind == 14
        || kind == 15
}

/// Whether a channel is of a kind that is shown, as a function value.
pub open spec fn is_shown() -> spec_fn(ChannelView) -> bool {
    |channel: ChannelView| !is_hidden_kind(channel.kind)
}

/// The channels that a list of payloads describes, without the hidden ones.
/// Every payload has to decode, the hidden ones too.
pub open spec fn shown_channels_of(items: Seq<JsonView>) -> Result<Seq<ChannelView>, DecodeError> {
    match decode_all(items, channel_decoder()) {
        Err(e) => Err(e),
        Ok(all) => Ok(all.filter(is_shown())),
    }
}

/// The guild that a payload describes, with the channels that are shown.
pub open spec fn guild_of(json: JsonView) -> Result<GuildView, DecodeError> {
    match id_field(json, "id"@) {
        Err(e) => Err(e),
        Ok(id) => match text_field(json, "name"@) {
            Err(e) => Err(e),
            Ok(name) => match array_field(json, "channels"@) {
                Err(e) => Err(e),
                Ok(items) => match shown_channels_of(items) {
                    Err(e) => Err(e),
                    Ok(channels) => Ok(GuildView { id, name, channels }),
                },
            },
        },
    }
}

/// [`guild_of`], as a function value.
pub open spec fn guild_decoder() -> spec_fn(JsonView) -> Result<GuildView, DecodeError> {
    |json: JsonView| guild_of(json)
}

/// The guilds that the payload of the initial event lists under `guilds`.
pub open spec fn guild_list_of(event: JsonView) -> Result<Seq<GuildView>, DecodeError> {
    match array_field(event, "guilds"@) {
        Err(e) => Err(e),
        Ok(items) => decode_all(items, guild_decoder()),
    }
}

/// The guild that a payload describes, without any channel.
pub open spec fn partial_guild_of(json: JsonView) -> Result<GuildView, DecodeError> {
    match id_field(json, "id"@) {
        Err(e) => Err(e),
        Ok(id) => match text_field(json, "name"@) {
            Err(e) => Err(e),
            Ok(name) => Ok(GuildView { id, name, channels: Seq::empty() }),
        },
    }
}

/// The message that a payload describes.
pub open spec fn msg_of(json: JsonView) -> Result<MsgView, DecodeError> {
    match id_field(json, "id"@) {
        Err(e) => Err(e),
        Ok(id) => match id_field(json, "channel_id"@) {
            Err(e) => Err(e),
            Ok(channel_id) => match json.member("author"@) {
                None => Err(DecodeError::MissingField),
                Some(author) => match user_of(author) {
                    Err(e) => Err(e),
                    Ok(user) => match text_field(json, "content"@) {
                        Err(e) => Err(e),
                        Ok(content) => Ok(MsgView { id, channel_id, user, content }),
                    },
                },
            },
        },
    }
}

/// [`msg_of`], as a function value.
pub open spec fn msg_decoder() -> spec_fn(JsonView) -> Result<MsgView, DecodeError> {
    |json: JsonView| msg_of(json)
}

/// The messages that an array of payloads describes.
pub open spec fn msg_list_of(list: JsonView) -> Result<Seq<MsgView>, DecodeError> {
    match list.items() {
        None => Err(DecodeError::MissingField),
        Some(items) => decode_all(items, msg_decoder()),
    }
}

/// Whether `kind` is a channel type that a text client leaves out.
pub fn hidden_kind(kind: i64) -> (hidden: bool)
    ensures
        hidden == is_hidden_kind(kind),
{
    kind == 2 || kind == 4 || (10 <= kind && kind <= 15)
}

/// The number of elements of an array.
pub fn get_length(list: &Json) -> (n: usize)
    requires
        list@.items() is Some,
    ensures
        n == list@.items()->Some_0.len(),
{
    match list.as_array() {
        Some(items) => items.len(),
        None => 0,
    }
}

impl User {
    /// Decodes the author of a message.
    pub fn from(author: &Json) -> (r: Result<User, DecodeError>)
        ensures
            match r {
                Ok(user) => user_of(author@) == Ok::<UserView, DecodeError>(user@),
                Err(e) => user_of(author@) == Err::<UserView, DecodeError>(e),
            },
    {
        let id = match read_id(author, "id") {
            Ok(id) => id,
            Err(e) => { return Err(e); },
        };
        let name = match read_text(author, "username") {
            Ok(text) => text.to_owned(),
            Err(e) => { return Err(e); },
        };
        let discriminator = match read_text(author, "discriminator") {
            Ok(text) => text.to_owned(),
            Err(e) => { return Err(e); },
        };
        Ok(User { id, name, discriminator })
    }
}

impl Channel {
    /// Decodes one channel, whatever its kind.
    pub fn from(event: &Json) -> (r: Result<Channel, DecodeError>)
        ensures
            match r {
                Ok(channel) => channel_of(event@) == Ok::<ChannelView, DecodeError>(channel@),
                Err(e) => channel_of(event@) == Err::<ChannelView, DecodeError>(e),
            },
    {
        let id = match read_id(event, "id") {
            Ok(id) => id,
            Err(e) => { return Err(e); },
        };
        let name = match read_text(event, "name") {
            Ok(text) => text.to_owned(),
            Err(e) => { return Err(e); },
        };
        let kind = match read_integer(event, "type") {
            Ok(kind) => kind,
            Err(e) => { return Err(e); },
        };
        Ok(Channel { id, name, kind })
    }

    /// Decodes the channels of a guild and keeps those that are shown.
    pub fn from_list(items: &Vec<Json>) -> (r: Result<Vec<Channel>, DecodeError>)
        ensures
            match r {
                Ok(channels) => shown_channels_of(views_of(items@)) == Ok::<
                    Seq<ChannelView>,
                    DecodeError,
                >(channel_views(channels@)),
                Err(e) => shown_channels_of(views_of(items@)) == Err::<
                    Seq<ChannelView>,
                    DecodeError,
                >(e),
            },
    {
        let ghost all = views_of(items@);
        let ghost decoded: Seq<ChannelView> = Seq::empty();
        let mut channels: Vec<Channel> = Vec::new();
        let mut i: usize = 0;
        proof {
            assert(all.subrange(0, 0) =~= Seq::<JsonView>::empty());
            reveal(Seq::filter);
            assert(channel_views(channels@) =~= decoded.filter(is_shown()));
        }
        while i < items.len()
            invariant
                i <= items.len(),
                all == views_of(items@),
                decode_all(all.subrange(0, i as int), channel_decoder()) == Ok::<
                    Seq<ChannelView>,
                    DecodeError,
                >(decoded),
                channel_views(channels@) == decoded.filter(is_shown()),
            decreases items.len() - i,
        {
            let ghost seen = all.subrange(0, i as int);
            let ghost next = all.subrange(0, i as int + 1);
            proof {
                assert(next.drop_last() =~= seen);
                assert(next.last() == items@[i as int]@);
            }
            match Channel::from(&items[i]) {
                Ok(channel) => {
                    let ghost grown = decoded.push(channel@);
                    proof {
                        reveal(Seq::filter);
                        assert(grown.drop_last() =~= decoded);
                        assert(grown.last() == channel@);
                    }
                    if !hidden_kind(channel.kind) {
                        let ghost before = channels@;
                        channels.push(channel);
                        assert(channel_views(channels@) =~= channel_views(before).push(
                            channel@,
                        ));
                    }
                    proof {
                        decoded = grown;
                    }
                },
                Err(e) => {
                    proof {
                        lemma_decode_all_fails(all, channel_decoder(), i as int + 1);
                    }
                    return Err(e);
                },
            }
            i += 1;
        }
        assert(all.subrange(0, i as int) =~= all);
        Ok(channels)
    }
}

impl Guild {
    /// Decodes one guild with the channels that are shown.
    pub fn from(event: &Json) -> (r: Result<Guild, DecodeError>)
        ensures
            match r {
                Ok(guild) => guild_of(event@) == Ok::<GuildView, DecodeError>(guild@),
                Err(e) => guild_of(event@) == Err::<GuildView, DecodeError>(e),
            },
    {
        let id = match read_id(event, "id") {
            Ok(id) => id,
            Err(e) => { return Err(e); },
        };
        let name = match read_text(event, "name") {
            Ok(text) => text.to_owned(),
            Err(e) => { return Err(e); },
        };
        let items = match read_array(event, "channels") {
            Ok(items) => items,
            Err(e) => { return Err(e); },
        };
        let channels = match Channel::from_list(items) {
            Ok(channels) => channels,
            Err(e) => { return Err(e); },
        };
        Ok(Guild { id, name, channels })
    }

    /// Decodes the guilds of the initial event, each with the channels that
    /// are shown.
    pub fn from_list(event: &Json) -> (r: Result<Vec<Guild>, DecodeError>)
        ensures
            match r {
                Ok(guilds) => guild_list_of(event@) == Ok::<Seq<GuildView>, DecodeError>(
                    guild_views(guilds@),
                ),
                Err(e) => guild_list_of(event@) == Err::<Seq<GuildView>, DecodeError>(e),
            },
    {
        let items = match read_array(event, "guilds") {
            Ok(items) => items,
            Err(e) => { return Err(e); },
        };
        let ghost all = views_of(items@);
        let mut guilds: Vec<Guild> = Vec::new();
        let mut i: usize = 0;
        proof {
            assert(all.subrange(0, 0) =~= Seq::<JsonView>::empty());
            assert(guild_views(guilds@) =~= Seq::<GuildView>::empty());
        }
        while i < items.len()
            invariant
                i <= items.len(),
                all == views_of(items@),
                array_field(event@, "guilds"@) == Ok::<Seq<JsonView>, DecodeError>(all),
                decode_all(all.subrange(0, i as int), guild_decoder()) == Ok::<
                    Seq<GuildView>,
                    DecodeError,
                >(guild_views(guilds@)),
            decreases items.len() - i,
        {
            let ghost seen = all.subrange(0, i as int);
            let ghost next = all.subrange(0, i as int + 1);
            proof {
                assert(next.drop_last() =~= seen);
                assert(next.last() == items@[i as int]@);
            }
            match Guild::from(&items[i]) {
                Ok(guild) => {
                    let ghost before = guilds@;
                    guilds.push(guild);
                    assert(guild_views(guilds@) =~= guild_views(before).push(guild@));
                },
                Err(e) => {
                    proof {
                        lemma_decode_all_fails(all, guild_decoder(), i as int + 1);
                    }
                    return Err(e);
                },
            }
            i += 1;
        }
        assert(all.subrange(0, i as int) =~= all);
        Ok(guilds)
    }

    /// Decodes the identifier and the name of a guild, leaving its channels
    /// out.
    pub fn from_partial(event: &Json) -> (r: Result<Guild, DecodeError>)
        ensures
            match r {
                Ok(guild) => partial_guild_of(event@) == Ok::<GuildView, DecodeError>(guild@),
                Err(e) => partial_guild_of(event@) == Err::<GuildView, DecodeError>(e),
            },
    {
        let id = match read_id(event, "id") {
            Ok(id) => id,
            Err(e) => { return Err(e); },
        };
        let name = match read_text(event, "name") {
            Ok(text) => text.to_owned(),
            Err(e) => { return Err(e); },
        };
        let guild = Guild { id, name, channels: Vec::new() };
        assert(channel_views(guild.channels@) =~= Seq::<ChannelView>::empty());
        Ok(guild)
    }
}

impl Msg {
    /// Decodes one message.
    pub fn from(event: &Json) -> (r: Result<Msg, DecodeError>)
        ensures
            match r {
                Ok(msg) => msg_of(event@) == Ok::<MsgView, DecodeError>(msg@),
                Err(e) => msg_of(event@) == Err::<MsgView, DecodeError>(e),
            },
    {
        let id = match read_id(event, "id") {
            Ok(id) => id,
            Err(e) => { return Err(e); },
        };
        let channel_id = match read_id(event, "channel_id") {
            Ok(id) => id,
            Err(e) => { return Err(e); },
        };
        let user = match event.get("author") {
            Some(author) => match User::from(author) {
                Ok(user) => user,
                Err(e) => { return Err(e); },
            },
            None => { return Err(DecodeError::MissingField); },
        };
        let content = match read_text(event, "content") {
            Ok(text) => text.to_owned(),
            Err(e) => { return Err(e); },
        };
        Ok(Msg { id, channel_id, user, content })
    }

    /// Decodes a list of messages, as the history of a channel comes.
    pub fn from_list(list: &Json) -> (r: Result<Vec<Msg>, DecodeError>)
        ensures
            match r {
                Ok(messages) => msg_list_of(list@) == Ok::<Seq<MsgView>, DecodeError>(
                    msg_views(messages@),
                ),
                Err(e) => msg_list_of(list@) == Err::<Seq<MsgView>, DecodeError>(e),
            },
    {
        let items = match list.as_array() {
            Some(items) => items,
            None => { return Err(DecodeError::MissingField); },
        };
        let ghost all = views_of(items@);
        let mut messages: Vec<Msg> = Vec::new();
        let mut i: usize = 0;
        proof {
            assert(all.subrange(0, 0) =~= Seq::<JsonView>::empty());
            assert(msg_views(messages@) =~= Seq::<MsgView>::empty());
        }
        while i < items.len()
            invariant
                i <= items.len(),
                all == views_of(items@),
                list@.items() == Some(all),
                decode_all(all.subrange(0, i as int), msg_decoder()) == Ok::<
                    Seq<MsgView>,
                    DecodeError,
                >(msg_views(messages@)),
            decreases items.len() - i,
        {
            let ghost seen = all.subrange(0, i as int);
            let ghost next = all.subrange(0, i as int + 1);
            proof {
                assert(next.drop_last() =~= seen);
                assert(next.last() == items@[i as int]@);
            }
            match Msg::from(&items[i]) {
                Ok(msg) => {
                    let ghost before = messages@;
                    messages.push(msg);
                    assert(msg_views(messages@) =~= msg_views(before).push(msg@));
                },
                Err(e) => {
                    proof {
                        lemma_decode_all_fails(all, msg_decoder(), i as int + 1);
                    }
                    return Err(e);
                },
            }
            i += 1;
        }
        assert(all.subrange(0, i as int) =~= all);
        Ok(messages)
    }
}

/// A message decodes exactly when its three identifiers are decimal
/// strings and its other fields are present, and the identifiers of the
/// decoded message are the numbers that those strings spell. An identifier
/// that is a string but spells no number is reported as such.
pub proof fn lemma_msg_ids(json: JsonView)
    ensures
        msg_of(json) matches Ok(msg) ==> {
            &&& id_field(json, "id"@) == Ok::<u64, DecodeError>(msg.id)
            &&& id_field(json, "channel_id"@) == Ok::<u64, DecodeError>(msg.channel_id)
            &&& json.member("author"@) matches Some(author)
            &&& id_field(author, "id"@) == Ok::<u64, DecodeError>(msg.user.id)
        },
        msg_of(json) is Ok <==> {
            &&& id_field(json, "id"@) is Ok
            &&& id_field(json, "channel_id"@) is Ok
            &&& json.member("author"@) matches Some(author)
            &&& id_field(author, "id"@) is Ok
            &&& text_field(author, "username"@) is Ok
            &&& text_field(author, "discriminator"@) is Ok
            &&& text_field(json, "content"@) is Ok
        },
        ({
            ||| id_field(json, "id"@) == Err::<u64, DecodeError>(DecodeError::InvalidId)
            ||| id_field(json, "channel_id"@) == Err::<u64, DecodeError>(DecodeError::InvalidId)
            ||| (json.member("author"@) matches Some(author) && id_field(author, "id"@) == Err::<
                u64,
                DecodeError,
            >(DecodeError::InvalidId))
        }) ==> msg_of(json) is Err,
{
}

/// Of the channels that a guild lists, the decoded guild keeps those of a
/// shown kind, all of them and in their order, and none of a hidden kind.
pub proof fn lemma_hidden_channels_left_out(items: Seq<JsonView>)
    requires
        shown_channels_of(items) is Ok,
    ensures
        decode_all(items, channel_decoder()) matches Ok(all) && shown_channels_of(items)
            == Ok::<Seq<ChannelView>, DecodeError>(all.filter(is_shown())),
        forall|i: int|
            0 <= i < shown_channels_of(items)->Ok_0.len() ==> !is_hidden_kind(
                (#[trigger] shown_channels_of(items)->Ok_0[i]).kind,
            ),
        forall|i: int|
            0 <= i < items.len() ==> (channel_of(#[trigger] items[i]) matches Ok(channel) && (
            is_hidden_kind(channel.kind) <==> !shown_channels_of(items)->Ok_0.contains(channel))),
{
    let all = decode_all(items, channel_decoder())->Ok_0;
    let kept = all.filter(is_shown());
    lemma_decode_all_pointwise(items, channel_decoder());
    assert forall|i: int| 0 <= i < kept.len() implies !is_hidden_kind((#[trigger] kept[i]).kind) by {
        all.lemma_filter_pred(is_shown(), i);
    }
    assert forall|i: int| 0 <= i < items.len() implies (channel_of(#[trigger] items[i]) matches Ok(
        channel,
    ) && (is_hidden_kind(channel.kind) <==> !kept.contains(channel))) by {
        assert(channel_decoder()(items[i]) == Ok::<ChannelView, DecodeError>(all[i]));
        let channel = all[i];
        if is_hidden_kind(channel.kind) {
            if kept.contains(channel) {
                let k = choose|k: int| 0 <= k < kept.len() && kept[k] == channel;
                assert(!is_hidden_kind(kept[k].kind));
            }
        } else {
            all.lemma_filter_contains(is_shown(), i);
        }
    }
}

} // verus!
