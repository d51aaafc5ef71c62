//! The guilds, the channels of the guild that was entered, and the messages
//! of the channels that were opened.

use crate::data::{
    channel_views, clone_msgs, msg_views, placeholder_msg, Channel, ChannelView,
    GatewayResponse, Guild, Msg, MsgView,
};
use crate::text::same_text;
use crate::ui::stateful_list::{index_above, index_below, StatefulList};
use vstd::prelude::*;

verus! {

/// What the list on the screen shows.
#[derive(Debug, Clone, Copy, PartialEq, Eq, Structural)]
pub enum DisplayMode {
    GuildMode,
    ChannelMode,
}

/// A list of messages with its cursor, as mathematics.
pub struct MsgListView {
    pub selected: Option<usize>,
    pub items: Seq<MsgView>,
}

/// The view of a list of messages.
pub open spec fn msg_list_view(list: StatefulList<Msg>) -> MsgListView {
    MsgListView { selected: list.state.selected, items: msg_views(list.items@) }
}

/// The messages of the channels that were opened, by channel. No channel is
/// held twice.
#[derive(Debug)]
pub struct LoadedChannels {
    entries: Vec<(Channel, StatefulList<Msg>)>,
}

spec fn holds_key(entries: Seq<(Channel, StatefulList<Msg>)>, key: ChannelView) -> bool {
    exists|i: int| 0 <= i < entries.len() && (#[trigger] entries[i]).0@ == key
}

spec fn place_of(entries: Seq<(Channel, StatefulList<Msg>)>, key: ChannelView) -> int {
    choose|i: int| 0 <= i < entries.len() && (#[trigger] entries[i]).0@ == key
}

spec fn distinct_keys(entries: Seq<(Channel, StatefulList<Msg>)>) -> bool {
    forall|i: int, j: int|
        0 <= i < j < entries.len() ==> (#[trigger] entries[i]).0@ != (#[trigger] entries[j]).0@
}

spec fn map_of(entries: Seq<(Channel, StatefulList<Msg>)>) -> Map<
    ChannelView,
    MsgListView,
> {
    Map::new(
        |key: ChannelView| holds_key(entries, key),
        |key: ChannelView| msg_list_view(entries[place_of(entries, key)].1),
    )
}

/// A message put behind the loaded messages of every channel with the
/// identifier that the message names.
pub open spec fn with_message(
    loaded: Map<ChannelView, MsgListView>,
    message: MsgView,
) -> Map<ChannelView, MsgListView> {
    Map::new(
        |key: ChannelView| loaded.contains_key(key),
        |key: ChannelView|
            if key.id == message.channel_id {
                MsgListView { selected: loaded[key].selected, items: loaded[key].items.push(message) }
            } else {
                loaded[key]
            },
    )
}

proof fn lemma_place_of(entries: Seq<(Channel, StatefulList<Msg>)>, i: int)
    requires
        distinct_keys(entries),
        0 <= i < entries.len(),
    ensures
        holds_key(entries, entries[i].0@),
        place_of(entries, entries[i].0@) == i,
{
    let key = entries[i].0@;
    let j = place_of(entries, key);
    assert(0 <= j < entries.len() && entries[j].0@ == key);
    if j < i {
        assert(entries[j].0@ != entries[i].0@);
    } else if i < j {
        assert(entries[i].0@ != entries[j].0@);
    }
}

impl View for LoadedChannels {
    type V = Map<ChannelView, MsgListView>;

    closed spec fn view(&self) -> Map<ChannelView, MsgListView> {
        map_of(self.entries@)
    }
}

impl LoadedChannels {
    /// No channel is held twice.
    pub closed spec fn well_formed(&self) -> bool {
        distinct_keys(self.entries@)
    }

    /// No channel is loaded.
    pub fn new() -> (loaded: LoadedChannels)
        ensures
            loaded.well_formed(),
            loaded@ == Map::<ChannelView, MsgListView>::empty(),
    {
        let loaded = LoadedChannels { entries: Vec::new() };
        assert(loaded@ =~= Map::<ChannelView, MsgListView>::empty());
        loaded
    }

    fn find(&self, channel: &Channel) -> (r: Option<usize>)
        ensures
            match r {
                Some(i) => i < self.entries@.len() && self.entries@[i as int].0@ == channel@,
                None => !holds_key(self.entries@, channel@),
            },
    {
        let mut i: usize = 0;
        while i < self.entries.len()
            invariant
                i <= self.entries@.len(),
                forall|j: int| 0 <= j < i ==> (#[trigger] self.entries@[j]).0@ != channel@,
            decreases self.entries.len() - i,
        {
            if self.entries[i].0.same(channel) {
                return Some(i);
            }
            i += 1;
        }
        None
    }

    /// Whether the messages of `channel` are loaded.
    pub fn contains_key(&self, channel: &Channel) -> (held: bool)
        ensures
            held == self@.contains_key(channel@),
    {
        self.find(channel).is_some()
    }

    /// A copy of the loaded messages of `channel`.
    pub fn get(&self, channel: &Channel) -> (r: Option<StatefulList<Msg>>)
        requires
            self.well_formed(),
        ensures
            match r {
                Some(list) => self@.contains_key(channel@) && msg_list_view(list)
                    == self@[channel@],
                None => !self@.contains_key(channel@),
            },
    {
        match self.find(channel) {
            Some(i) => {
                proof {
                    lemma_place_of(self.entries@, i as int);
                }
                let list = &self.entries[i].1;
                Some(StatefulList { state: list.state, items: clone_msgs(&list.items) })
            },
            None => None,
        }
    }

    /// Loads `list` as the messages of `channel`, in place of what was
    /// loaded for it.
    pub fn insert(&mut self, channel: Channel, list: StatefulList<Msg>)
        requires
            old(self).well_formed(),
        ensures
            final(self).well_formed(),
            final(self)@ == old(self)@.insert(channel@, msg_list_view(list)),
    {
        let ghost before = self.entries@;
        let ghost key = channel@;
        match self.find(&channel) {
            Some(i) => {
                self.entries.set(i, (channel, list));
                let ghost after = self.entries@;
                proof {
                    assert forall|a: int, b: int| 0 <= a < b < after.len() implies (
                    #[trigger] after[a]).0@ != (#[trigger] after[b]).0@ by {
                        assert(after[a].0@ == before[a].0@);
                        assert(after[b].0@ == before[b].0@);
                    }
                    assert forall|k: ChannelView| #[trigger]
                        holds_key(after, k) == holds_key(before, k) || k == key by {
                        if holds_key(after, k) {
                            let a = place_of(after, k);
                            assert(after[a].0@ == before[a].0@);
                        }
                        if holds_key(before, k) {
                            let a = place_of(before, k);
                            assert(after[a].0@ == before[a].0@);
                        }
                    }
                    assert forall|k: ChannelView| #[trigger] holds_key(after, k) implies map_of(
                        after,
                    )[k] == map_of(before).insert(key, msg_list_view(list))[k] by {
                        let a = place_of(after, k);
                        lemma_place_of(after, a);
                        assert(after[a].0@ == before[a].0@);
                        lemma_place_of(before, a);
                    }
                    assert(holds_key(after, key)) by {
                        assert(after[i as int].0@ == key);
                    }
                    assert(map_of(after) =~= map_of(before).insert(key, msg_list_view(list)));
                }
            },
            None => {
                self.entries.push((channel, list));
                let ghost after = self.entries@;
                proof {
                    let last = before.len() as int;
                    assert forall|a: int, b: int| 0 <= a < b < after.len() implies (
                    #[trigger] after[a]).0@ != (#[trigger] after[b]).0@ by {
                        assert(after[a] == before[a]);
                        if b < last {
                            assert(after[b] == before[b]);
                        } else {
                            assert(before[a].0@ != key);
                        }
                    }
                    assert(after[last].0@ == key);
                    assert forall|k: ChannelView| #[trigger]
                        holds_key(after, k) == (holds_key(before, k) || k == key) by {
                        if holds_key(after, k) {
                            let a = place_of(after, k);
                            if a < last {
                                assert(after[a] == before[a]);
                            }
                        }
                        if holds_key(before, k) {
                            let a = place_of(before, k);
                            assert(after[a] == before[a]);
                        }
                    }
                    assert forall|k: ChannelView| #[trigger] holds_key(after, k) implies map_of(
                        after,
                    )[k] == map_of(before).insert(key, msg_list_view(list))[k] by {
                        let a = place_of(after, k);
                        lemma_place_of(after, a);
                        if a < last {
                            assert(after[a] == before[a]);
                            lemma_place_of(before, a);
                        }
                    }
                    assert(map_of(after) =~= map_of(before).insert(key, msg_list_view(list)));
                }
            },
        }
    }

    /// Puts `message` behind the loaded messages of every channel with the
    /// identifier that it names.
    pub fn append(&mut self, message: &Msg)
        requires
            old(self).well_formed(),
        ensures
            final(self).well_formed(),
            final(self)@ == with_message(old(self)@, message@),
    {
        let ghost before = self.entries@;
        let mut i: usize = 0;
        while i < self.entries.len()
            invariant
                i <= self.entries@.len(),
                self.entries@.len() == before.len(),
                distinct_keys(before),
                forall|j: int|
                    0 <= j < before.len() ==> (#[trigger] self.entries@[j]).0@ == before[j].0@,
                forall|j: int|
                    i <= j < before.len() ==> #[trigger] self.entries@[j] == before[j],
                forall|j: int|
                    0 <= j < i ==> msg_list_view((#[trigger] self.entries@[j]).1) == (if before[j].0@.id
                        == message@.channel_id {
                        MsgListView {
                            selected: before[j].1.state.selected,
                            items: msg_views(before[j].1.items@).push(message@),
                        }
                    } else {
                        msg_list_view(before[j].1)
                    }),
            decreases self.entries.len() - i,
        {
            if self.entries[i].0.id == message.channel_id {
                let ghost held = self.entries@;
                let entry = self.entries.remove(i);
                let channel = entry.0;
                let mut list = entry.1;
                let ghost items = list.items@;
                list.items.push(message.clone());
                assert(msg_views(list.items@) =~= msg_views(items).push(message@));
                self.entries.insert(i, (channel, list));
                proof {
                    let now = self.entries@;
                    assert forall|j: int| 0 <= j < before.len() implies (#[trigger] now[j]).0@
                        == before[j].0@ by {
                        if j != i {
                            assert(now[j] == held[j]);
                        }
                    }
                    assert forall|j: int| i < j < before.len() implies #[trigger] now[j]
                        == before[j] by {
                        assert(now[j] == held[j]);
                    }
                    assert forall|j: int| 0 <= j < i implies #[trigger] now[j] == held[j] by {}
                    assert forall|a: int, b: int| 0 <= a < b < now.len() implies (
                    #[trigger] now[a]).0@ != (#[trigger] now[b]).0@ by {
                        assert(before[a].0@ != before[b].0@);
                    }
                }
            }
            i += 1;
        }
        proof {
            let after = self.entries@;
            assert forall|k: ChannelView| #[trigger]
                holds_key(after, k) == holds_key(before, k) by {
                if holds_key(after, k) {
                    let a = place_of(after, k);
                    assert(before[a].0@ == k);
                }
                if holds_key(before, k) {
                    let a = place_of(before, k);
                    assert(after[a].0@ == k);
                }
            }
            assert forall|a: int, b: int| 0 <= a < b < after.len() implies (#[trigger] after[a]).0@
                != (#[trigger] after[b]).0@ by {
                assert(before[a].0@ != before[b].0@);
            }
            assert forall|k: ChannelView| #[trigger] holds_key(after, k) implies map_of(after)[k]
                == with_message(map_of(before), message@)[k] by {
                let a = place_of(after, k);
                lemma_place_of(after, a);
                assert(before[a].0@ == k);
                lemma_place_of(before, a);
            }
            assert(map_of(after) =~= with_message(map_of(before), message@));
        }
    }
}

/// Where the cursor of a list stands, the first item where nothing is
/// selected.
pub open spec fn cursor_of(selected: Option<usize>) -> int {
    match selected {
        Some(i) => i as int,
        None => 0,
    }
}

/// The state behind the screen.
#[derive(Debug)]
pub struct App {
    pub channels: StatefulList<Channel>,
    pub guilds: StatefulList<Guild>,
    pub loaded_channels: LoadedChannels,
    pub mode: DisplayMode,
}

/// The list of messages that stands for the history of a channel: the
/// messages that were fetched, or the placeholder message where the fetch
/// failed; nothing is selected.
pub open spec fn fetched_list(fetched: Option<Vec<Msg>>) -> MsgListView {
    MsgListView {
        selected: None,
        items: match fetched {
            Some(messages) => msg_views(messages@),
            None => seq![placeholder_msg()],
        },
    }
}

impl App {
    /// Whether the cursor of the guild list stands on a guild.
    pub open spec fn on_guild(&self) -> bool {
        cursor_of(self.guilds.state.selected) < self.guilds.items@.len()
    }

    /// Whether the cursor of the channel list stands on a channel.
    pub open spec fn on_channel(&self) -> bool {
        cursor_of(self.channels.state.selected) < self.channels.items@.len()
    }

    /// The guild under the cursor.
    pub open spec fn current_guild(&self) -> Guild {
        self.guilds.items@[cursor_of(self.guilds.state.selected)]
    }

    /// The channel under the cursor.
    pub open spec fn current_channel(&self) -> Channel {
        self.channels.items@[cursor_of(self.channels.state.selected)]
    }

    /// The state at the start: the guilds are listed, nothing is selected,
    /// no guild is entered and no channel is loaded.
    pub fn new(guilds: Vec<Guild>) -> (app: App)
        ensures
            app.guilds.items@ == guilds@,
            app.guilds.state.selected is None,
            app.channels.items@.len() == 0,
            app.channels.state.selected is None,
            app.loaded_channels.well_formed(),
            app.loaded_channels@ == Map::<ChannelView, MsgListView>::empty(),
            app.mode == DisplayMode::GuildMode,
    {
        App {
            channels: StatefulList::from(Vec::new()),
            guilds: StatefulList::from(guilds),
            loaded_channels: LoadedChannels::new(),
            mode: DisplayMode::GuildMode,
        }
    }

    /// Takes in an event of the gateway: a message that was posted goes
    /// behind the loaded messages of its channel. Any other event changes
    /// nothing.
    pub fn react_to_gateway(&mut self, gate_response: &GatewayResponse)
        requires
            old(self).loaded_channels.well_formed(),
        ensures
            final(self).loaded_channels.well_formed(),
            final(self).loaded_channels@ == if gate_response@.operation == "MESSAGE_CREATE"@ {
                with_message(old(self).loaded_channels@, gate_response@.message)
            } else {
                old(self).loaded_channels@
            },
            final(self).channels == old(self).channels,
            final(self).guilds == old(self).guilds,
            final(self).mode == old(self).mode,
    {
        if same_text(gate_response.operation.as_str(), "MESSAGE_CREATE") {
            self.loaded_channels.append(&gate_response.message);
        }
    }

    /// Enters the guild under the cursor: its channels are listed, with
    /// nothing selected.
    pub fn enter_guild(&mut self)
        requires
            old(self).on_guild(),
        ensures
            channel_views(final(self).channels.items@) == old(self).current_guild()@.channels,
            final(self).channels.state.selected is None,
            final(self).mode == DisplayMode::ChannelMode,
            final(self).guilds == old(self).guilds,
            final(self).loaded_channels == old(self).loaded_channels,
    {
        let current_guild = self.get_guild();
        self.channels = StatefulList::from(current_guild.channels);
        self.mode = DisplayMode::ChannelMode;
    }

    /// Goes back to the list of guilds.
    pub fn leave_guild(&mut self)
        ensures
            final(self).mode == DisplayMode::GuildMode,
            final(self).channels == old(self).channels,
            final(self).guilds == old(self).guilds,
            final(self).loaded_channels == old(self).loaded_channels,
    {
        self.mode = DisplayMode::GuildMode;
    }

    /// A copy of the channel under the cursor.
    pub fn get_channel(&mut self) -> (channel: Channel)
        requires
            old(self).on_channel(),
        ensures
            channel@ == old(self).current_channel()@,
            *final(self) == *old(self),
    {
        let index = match self.channels.state.selected() {
            Some(i) => i,
            None => 0,
        };
        self.channels.items[index].clone()
    }

    /// A copy of the guild under the cursor.
    pub fn get_guild(&mut self) -> (guild: Guild)
        requires
            old(self).on_guild(),
        ensures
            guild@ == old(self).current_guild()@,
            *final(self) == *old(self),
    {
        let index = match self.guilds.state.selected() {
            Some(i) => i,
            None => 0,
        };
        self.guilds.items[index].clone()
    }

    /// The name of what is under the cursor of the list that is shown.
    pub fn get_current_title(&mut self) -> (title: String)
        requires
            old(self).mode == DisplayMode::GuildMode ==> old(self).on_guild(),
            old(self).mode == DisplayMode::ChannelMode ==> old(self).on_channel(),
        ensures
            title@ == match old(self).mode {
                DisplayMode::GuildMode => old(self).current_guild()@.name,
                DisplayMode::ChannelMode => old(self).current_channel()@.name,
            },
            *final(self) == *old(self),
    {
        match self.mode {
            DisplayMode::GuildMode => self.get_guild().name,
            DisplayMode::ChannelMode => self.get_channel().name,
        }
    }

    /// A copy of the loaded messages of the channel under the cursor;
    /// `None` while the guilds are shown, and for a channel that is not
    /// loaded.
    pub fn get_messages(&mut self) -> (r: Option<StatefulList<Msg>>)
        requires
            old(self).loaded_channels.well_formed(),
            old(self).mode == DisplayMode::ChannelMode ==> old(self).on_channel(),
        ensures
            match r {
                Some(list) => {
                    &&& old(self).mode == DisplayMode::ChannelMode
                    &&& old(self).loaded_channels@.contains_key(old(self).current_channel()@)
                    &&& msg_list_view(list) == old(self).loaded_channels@[old(
                        self,
                    ).current_channel()@]
                },
                None => old(self).mode == DisplayMode::GuildMode || !old(
                    self,
                ).loaded_channels@.contains_key(old(self).current_channel()@),
            },
            *final(self) == *old(self),
    {
        match self.mode {
            DisplayMode::GuildMode => { return None; },
            DisplayMode::ChannelMode => {},
        }
        let current_channel = self.get_channel();
        self.loaded_channels.get(&current_channel)
    }

    /// Moves the cursor of the list that is shown one item down. Where
    /// that brings it on a channel that is not loaded, the channel comes
    /// back: its history is to be fetched and handed to
    /// [`App::load_messages`].
    pub fn next(&mut self) -> (to_load: Option<Channel>)
        requires
            old(self).mode == DisplayMode::GuildMode && old(self).guilds.state.selected is Some
                ==> old(self).guilds.items@.len() > 0,
            old(self).mode == DisplayMode::ChannelMode ==> old(self).channels.items@.len() > 0,
        ensures
            final(self).mode == old(self).mode,
            final(self).loaded_channels == old(self).loaded_channels,
            final(self).guilds.items@ == old(self).guilds.items@,
            final(self).channels.items@ == old(self).channels.items@,
            old(self).mode == DisplayMode::GuildMode ==> {
                &&& to_load is None
                &&& final(self).channels == old(self).channels
                &&& final(self).guilds.state.selected == Some(
                    index_below(old(self).guilds.state.selected, old(self).guilds.items@.len()),
                )
            },
            old(self).mode == DisplayMode::ChannelMode ==> {
                &&& final(self).guilds == old(self).guilds
                &&& final(self).channels.state.selected == Some(
                    index_below(old(self).channels.state.selected, old(self).channels.items@.len()),
                )
                &&& final(self).on_channel()
                &&& match to_load {
                    Some(channel) => channel@ == final(self).current_channel()@ && !old(
                        self,
                    ).loaded_channels@.contains_key(channel@),
                    None => old(self).loaded_channels@.contains_key(
                        final(self).current_channel()@,
                    ),
                }
            },
    {
        match self.mode {
            DisplayMode::GuildMode => {
                self.guilds.next();
                return None;
            },
            DisplayMode::ChannelMode => {
                self.channels.next();
            },
        }
        let current_channel = self.get_channel();
        if !self.loaded_channels.contains_key(&current_channel) {
            Some(current_channel)
        } else {
            None
        }
    }

    /// Moves the cursor of the list that is shown one item up. Where that
    /// brings it on a channel that is not loaded, the channel comes back:
    /// its history is to be fetched and handed to [`App::load_messages`].
    /// While the channels are shown, the step has to bring the cursor on a
    /// channel; where it stood before does not matter.
    pub fn previous(&mut self) -> (to_load: Option<Channel>)
        requires
            old(self).mode == DisplayMode::GuildMode && old(self).guilds.state.selected is Some
                ==> old(self).guilds.items@.len() > 0,
            old(self).mode == DisplayMode::ChannelMode ==> index_above(
                old(self).channels.state.selected,
                old(self).channels.items@.len(),
            ) < old(self).channels.items@.len(),
        ensures
            final(self).mode == old(self).mode,
            final(self).loaded_channels == old(self).loaded_channels,
            final(self).guilds.items@ == old(self).guilds.items@,
            final(self).channels.items@ == old(self).channels.items@,
            old(self).mode == DisplayMode::GuildMode ==> {
                &&& to_load is None
                &&& final(self).channels == old(self).channels
                &&& final(self).guilds.state.selected == Some(
                    index_above(old(self).guilds.state.selected, old(self).guilds.items@.len()),
                )
            },
            old(self).mode == DisplayMode::ChannelMode ==> {
                &&& final(self).guilds == old(self).guilds
                &&& final(self).channels.state.selected == Some(
                    index_above(old(self).channels.state.selected, old(self).channels.items@.len()),
                )
                &&& final(self).on_channel()
                &&& match to_load {
                    Some(channel) => channel@ == final(self).current_channel()@ && !old(
                        self,
                    ).loaded_channels@.contains_key(channel@),
                    None => old(self).loaded_channels@.contains_key(
                        final(self).current_channel()@,
                    ),
                }
            },
    {
        match self.mode {
            DisplayMode::GuildMode => {
                self.guilds.previous();
                return None;
            },
            DisplayMode::ChannelMode => {
                self.channels.previous();
            },
        }
        let current_channel = self.get_channel();
        if !self.loaded_channels.contains_key(&current_channel) {
            Some(current_channel)
        } else {
            None
        }
    }

    /// Loads the history of `channel` as it was fetched, or the placeholder
    /// message where the fetch failed.
    pub fn load_messages(&mut self, channel: Channel, fetched: Option<Vec<Msg>>)
        requires
            old(self).loaded_channels.well_formed(),
        ensures
            final(self).loaded_channels.well_formed(),
            final(self).loaded_channels@ == old(self).loaded_channels@.insert(
                channel@,
                fetched_list(fetched),
            ),
            final(self).channels == old(self).channels,
            final(self).guilds == old(self).guilds,
            final(self).mode == old(self).mode,
    {
        match fetched {
            Some(messages) => {
                self.loaded_channels.insert(channel, StatefulList::from(messages));
            },
            None => {
                let mut messages: Vec<Msg> = Vec::new();
                messages.push(Msg::new());
                assert(msg_views(messages@) =~= seq![placeholder_msg()]);
                self.loaded_channels.insert(channel, StatefulList::from(messages));
            },
        }
    }

    /// Takes the cursor off the list of channels.
    pub fn unselect(&mut self)
        ensures
            final(self).channels.state.selected is None,
            final(self).channels.items@ == old(self).channels.items@,
            final(self).guilds == old(self).guilds,
            final(self).loaded_channels == old(self).loaded_channels,
            final(self).mode == old(self).mode,
    {
        self.channels.state.select(None);
    }
}

} // verus!
