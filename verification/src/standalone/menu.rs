//! The items of the settings menu.

use crate::standalone::device::{self, ChannelRoute};
use crate::standalone::midi::{self, MidiChannel};
use crate::text;
use vstd::prelude::*;
use vstd::string::StringExecFns;

verus! {

/// The tag of the item that stands for the default device or for all ports.
pub const TAG_DEFAULT: isize = -1;

/// An item of a menu.
#[derive(Debug)]
pub struct MenuItem {
    /// What it says.
    pub label: String,
    /// The number that tells what it stands for.
    pub tag: isize,
    /// Whether it is checked.
    pub checked: bool,
    /// Whether it can be chosen.
    pub enabled: bool,
}

/// An item with text.
pub struct ItemView {
    /// What it says.
    pub label: Seq<char>,
    /// The number that tells what it stands for.
    pub tag: isize,
    /// Whether it is checked.
    pub checked: bool,
    /// Whether it can be chosen.
    pub enabled: bool,
}

impl View for MenuItem {
    type V = ItemView;

    open spec fn view(&self) -> ItemView {
        ItemView {
            label: self.label@,
            tag: self.tag,
            checked: self.checked,
            enabled: self.enabled,
        }
    }
}

/// The items with text.
pub open spec fn views(items: Seq<MenuItem>) -> Seq<ItemView> {
    Seq::new(items.len(), |i: int| items[i]@)
}

/// An item that can be chosen.
pub open spec fn item(label: Seq<char>, tag: isize, checked: bool) -> ItemView {
    ItemView { label, tag, checked, enabled: true }
}

/// Appends an item that can be chosen.
fn add_item(items: &mut Vec<MenuItem>, label: String, tag: isize, checked: bool)
    ensures
        views(final(items)@) == views(old(items)@).push(item(label@, tag, checked)),
{
    let ghost before = items@;
    items.push(MenuItem { label, tag, checked, enabled: true });
    assert(views(items@) =~= views(before).push(item(label@, tag, checked)));
}

// ---------------------------------------------------------------------------
// Devices and ports
// ---------------------------------------------------------------------------

/// The items of `names`; the current one is checked.
pub open spec fn name_items(names: Seq<String>, current: Option<Seq<char>>) -> Seq<ItemView> {
    Seq::new(names.len(), |i: int| item(names[i]@, 0, current == Some(names[i]@)))
}

fn add_names(items: &mut Vec<MenuItem>, names: &[String], current: Option<&str>)
    ensures
        views(final(items)@) == views(old(items)@) + name_items(
            names@,
            match current {
                Some(c) => Some(c@),
                None => None,
            },
        ),
{
    let ghost first = views(items@);
    let ghost now = match current {
        Some(c) => Some(c@),
        None => None,
    };
    let mut i: usize = 0;
    while i < names.len()
        invariant
            i <= names.len(),
            now == (match current {
                Some(c) => Some(c@),
                None => None,
            }),
            views(items@) =~= first + name_items(names@, now).take(i as int),
        decreases names.len() - i,
    {
        let checked: bool = match current {
            Some(c) => text::same_str(c, names[i].as_str()),
            None => false,
        };
        add_item(items, names[i].clone(), 0, checked);
        i += 1;
    }
    assert(name_items(names@, now).take(i as int) =~= name_items(names@, now));
}

/// The items for output devices: the default one, then each by its name.
#[must_use]
pub fn output_device_items(names: &[String], current: Option<&str>) -> (items: Vec<MenuItem>)
    ensures
        views(items@) == seq![item("System Default"@, TAG_DEFAULT, current is None)] + name_items(
            names@,
            match current {
                Some(c) => Some(c@),
                None => None,
            },
        ),
{
    let mut items: Vec<MenuItem> = Vec::new();
    add_item(&mut items, String::from_str("System Default"), TAG_DEFAULT, current.is_none());
    assert(views(items@) =~= seq![item("System Default"@, TAG_DEFAULT, current is None)]);
    add_names(&mut items, names, current);
    items
}

/// The item that says that there are no ports.
pub open spec fn no_ports_item() -> ItemView {
    ItemView { label: "(no MIDI inputs)"@, tag: 0, checked: false, enabled: false }
}

/// The items for MIDI ports: all of them, then each by its name.
#[must_use]
pub fn midi_input_items(names: &[String], current: Option<&str>) -> (items: Vec<MenuItem>)
    ensures
        views(items@) == seq![item("All Ports"@, TAG_DEFAULT, current is None)] + (if names@.len()
            == 0 {
            seq![no_ports_item()]
        } else {
            name_items(
                names@,
                match current {
                    Some(c) => Some(c@),
                    None => None,
                },
            )
        }),
{
    let mut items: Vec<MenuItem> = Vec::new();
    add_item(&mut items, String::from_str("All Ports"), TAG_DEFAULT, current.is_none());
    let ghost first = seq![item("All Ports"@, TAG_DEFAULT, current is None)];
    assert(views(items@) =~= first);
    if names.len() == 0 {
        let ghost before = items@;
        let none = MenuItem {
            label: String::from_str("(no MIDI inputs)"),
            tag: 0,
            checked: false,
            enabled: false,
        };
        items.push(none);
        assert(views(items@) =~= views(before).push(none@));
    } else {
        add_names(&mut items, names, current);
    }
    items
}

/// The name that a chosen item stands for; none for the default device or all
/// ports.
pub open spec fn chosen_name<S>(tag: isize, title: Option<S>) -> Option<S> {
    if tag == TAG_DEFAULT {
        None
    } else {
        title
    }
}

/// The name that a chosen item stands for; none for the default device or all
/// ports.
#[must_use]
pub fn item_device_name(tag: isize, title: Option<String>) -> (name: Option<String>)
    ensures
        name == chosen_name(tag, title),
{
    if tag == TAG_DEFAULT {
        None
    } else {
        title
    }
}

// ---------------------------------------------------------------------------
// Output channels
// ---------------------------------------------------------------------------

/// The tag of a route's item: the route's number, or 0 where that is too large.
pub open spec fn route_tag(route: ChannelRoute) -> isize {
    if route.code() <= isize::MAX {
        route.code() as isize
    } else {
        0
    }
}

/// A route's item.
pub open spec fn route_item(label: Seq<char>, route: ChannelRoute, current: ChannelRoute) -> ItemView {
    item(label, route_tag(route), route == current)
}

/// The items of the stereo pairs of a device with `channels` channels: 1-2, 3-4
/// and so on.
pub open spec fn pair_items(channels: nat, current: ChannelRoute) -> Seq<ItemView> {
    Seq::new(
        channels / 2,
        |k: int|
            route_item(
                text::decimal((2 * k + 1) as nat) + "-"@ + text::decimal((2 * k + 2) as nat),
                ChannelRoute::Stereo { base: (2 * k) as usize },
                current,
            ),
    )
}

/// The items of the single channels.
pub open spec fn mono_items(channels: nat, current: ChannelRoute) -> Seq<ItemView> {
    Seq::new(
        channels,
        |k: int|
            route_item(
                "Channel "@ + text::decimal((k + 1) as nat) + " (mono)"@,
                ChannelRoute::Mono { base: k as usize },
                current,
            ),
    )
}

fn add_route(items: &mut Vec<MenuItem>, label: String, route: ChannelRoute, current: ChannelRoute)
    requires
        route.code() <= usize::MAX,
    ensures
        views(final(items)@) == views(old(items)@).push(route_item(label@, route, current)),
{
    let code: usize = route.encode();
    let tag: isize = if code <= isize::MAX as usize {
        code as isize
    } else {
        0
    };
    add_item(items, label, tag, route == current);
}

/// The items for the channels of a device with `channels` channels.
#[must_use]
pub fn output_channel_items(channels: usize, current: ChannelRoute) -> (items: Vec<MenuItem>)
    requires
        2 * channels <= usize::MAX,
    ensures
        views(items@) == seq![
            route_item("Direct (all channels)"@, ChannelRoute::Direct, current),
        ] + pair_items(channels as nat, current) + mono_items(channels as nat, current),
{
    let mut items: Vec<MenuItem> = Vec::new();
    add_route(
        &mut items,
        String::from_str("Direct (all channels)"),
        ChannelRoute::Direct,
        current,
    );
    let ghost first = seq![route_item("Direct (all channels)"@, ChannelRoute::Direct, current)];
    assert(views(items@) =~= first);
    let ghost pairs = pair_items(channels as nat, current);
    let mut base: usize = 0;
    while base < channels && channels - base > 1
        invariant
            base % 2 == 0,
            base <= channels,
            2 * channels <= usize::MAX,
            pairs == pair_items(channels as nat, current),
            views(items@) =~= first + pairs.take(base as int / 2),
        decreases channels - base,
    {
        let mut label = String::new();
        text::push_decimal(&mut label, base as u64 + 1);
        label.append("-");
        text::push_decimal(&mut label, base as u64 + 2);
        let ghost k = base as int / 2;
        assert(label@ =~= text::decimal((2 * k + 1) as nat) + "-"@ + text::decimal(
            (2 * k + 2) as nat,
        ));
        add_route(&mut items, label, ChannelRoute::Stereo { base }, current);
        base = base + 2;
        assert(pairs.take(base as int / 2) =~= pairs.take(k).push(pairs[k]));
    }
    assert(pairs.take(base as int / 2) =~= pairs);
    let ghost monos = mono_items(channels as nat, current);
    let mut k: usize = 0;
    while k < channels
        invariant
            k <= channels,
            2 * channels <= usize::MAX,
            monos == mono_items(channels as nat, current),
            views(items@) =~= first + pairs + monos.take(k as int),
        decreases channels - k,
    {
        let mut label = String::from_str("Channel ");
        text::push_decimal(&mut label, k as u64 + 1);
        label.append(" (mono)");
        add_route(&mut items, label, ChannelRoute::Mono { base: k }, current);
        k += 1;
    }
    assert(monos.take(k as int) =~= monos);
    items
}

/// The route that a chosen item stands for.
#[must_use]
pub fn route_of_tag(tag: isize) -> (route: ChannelRoute)
    ensures
        route == ChannelRoute::of_code(
            if tag < 0 {
                0
            } else {
                tag as usize
            },
        ),
{
    if tag < 0 {
        ChannelRoute::decode(0)
    } else {
        ChannelRoute::decode(tag as usize)
    }
}

/// Choosing a route's item chooses that route, where its number fits in a tag.
pub proof fn route_tags_round_trip(route: ChannelRoute)
    requires
        route.code() <= isize::MAX,
    ensures
        route_tag(route) >= 0,
        ChannelRoute::of_code(route_tag(route) as usize) == route,
{
    device::routes_round_trip(route, 0);
}

// ---------------------------------------------------------------------------
// MIDI channels
// ---------------------------------------------------------------------------

/// The tag of the item of a choice of channels.
pub open spec fn channel_tag_spec(channel: MidiChannel) -> isize {
    match channel {
        MidiChannel::Omni => 16,
        MidiChannel::Only(n) => n as isize,
    }
}

/// The tag of the item of a choice of channels: the channel, or 16 for all.
#[must_use]
pub fn channel_tag(channel: MidiChannel) -> (tag: isize)
    ensures
        tag == channel_tag_spec(channel),
{
    match channel {
        MidiChannel::Omni => 16,
        MidiChannel::Only(n) => n as isize,
    }
}

/// The channels that a tag stands for; one that is no channel stands for all.
pub open spec fn channel_of_tag(tag: isize) -> MidiChannel {
    if 0 <= tag < 16 {
        MidiChannel::Only(tag as u8)
    } else {
        MidiChannel::Omni
    }
}

/// The channels that a tag stands for.
#[must_use]
pub fn decode_channel_tag(tag: isize) -> (channel: MidiChannel)
    ensures
        channel == channel_of_tag(tag),
{
    if 0 <= tag && tag < 16 {
        MidiChannel::Only(tag as u8)
    } else {
        MidiChannel::Omni
    }
}

/// Every choice of channels comes back from its tag.
pub proof fn channel_tags_round_trip(channel: MidiChannel)
    requires
        channel matches MidiChannel::Only(n) ==> n < 16,
    ensures
        channel_of_tag(channel_tag_spec(channel)) == channel,
{
}

/// The items of the single channels.
pub open spec fn only_items(current: MidiChannel) -> Seq<ItemView> {
    Seq::new(
        16,
        |n: int|
            item(
                "Channel "@ + text::decimal((n + 1) as nat),
                n as isize,
                current == MidiChannel::Only(n as u8),
            ),
    )
}

/// The items for MIDI channels: all of them, then each.
#[must_use]
pub fn midi_channel_items(current: MidiChannel) -> (items: Vec<MenuItem>)
    ensures
        views(items@) == seq![
            item("Omni (all channels)"@, 16, current == MidiChannel::Omni),
        ] + only_items(current),
{
    let mut items: Vec<MenuItem> = Vec::new();
    add_item(
        &mut items,
        String::from_str("Omni (all channels)"),
        channel_tag(MidiChannel::Omni),
        current == MidiChannel::Omni,
    );
    let ghost first = seq![item("Omni (all channels)"@, 16, current == MidiChannel::Omni)];
    assert(views(items@) =~= first);
    let mut n: u8 = 0;
    while n < 16
        invariant
            n <= 16,
            views(items@) =~= first + only_items(current).take(n as int),
        decreases 16 - n,
    {
        let mut label = String::from_str("Channel ");
        text::push_decimal(&mut label, n as u64 + 1);
        let channel = MidiChannel::Only(n);
        add_item(&mut items, label, channel_tag(channel), current == channel);
        n += 1;
    }
    assert(only_items(current).take(16) =~= only_items(current));
    items
}

// ---------------------------------------------------------------------------
// What items mean
// ---------------------------------------------------------------------------

/// Choosing the item of a name chooses that name, choosing the first item chooses
/// none, and an item is checked just where choosing it would change nothing.
pub proof fn named_items_choose_their_name(names: Seq<String>, current: Option<Seq<char>>, i: int)
    requires
        0 <= i < names.len(),
    ensures
        name_items(names, current).len() == names.len(),
        ({
            let it = name_items(names, current)[i];
            &&& it.label == names[i]@
            &&& it.enabled
            &&& it.tag == 0
            &&& chosen_name(it.tag, Some(it.label)) == Some(it.label)
            &&& it.checked <==> chosen_name(it.tag, Some(it.label)) == current
        }),
        chosen_name(TAG_DEFAULT, Some(names[i]@)) is None,
{
}

/// Choosing the item of a pair chooses the route that its label says, and the item
/// is checked just where that route is the current one.
pub proof fn pair_items_choose_their_pair(channels: nat, current: ChannelRoute, k: int)
    requires
        0 <= k < pair_items(channels, current).len(),
        4 * channels + 4 <= isize::MAX,
    ensures
        2 * k + 1 < channels,
        ({
            let it = pair_items(channels, current)[k];
            &&& it.enabled
            &&& it.tag >= 0
            &&& device::route_of(it.label) == Some(ChannelRoute::of_code(it.tag as usize))
            &&& ChannelRoute::of_code(it.tag as usize) == ChannelRoute::Stereo {
                base: (2 * k) as usize,
            }
            &&& it.checked <==> ChannelRoute::of_code(it.tag as usize) == current
        }),
{
    reveal_strlit("-");
    let route = ChannelRoute::Stereo { base: (2 * k) as usize };
    route_tags_round_trip(route);
    device::written_routes_are_read((2 * k + 1) as nat, (2 * k + 2) as nat);
    assert("-"@ =~= seq!['-']);
}

/// Choosing the item of a channel chooses that channel alone, by the number in its
/// label, and the item is checked just where that is the current route.
pub proof fn mono_items_choose_their_channel(channels: nat, current: ChannelRoute, k: int)
    requires
        0 <= k < mono_items(channels, current).len(),
        4 * channels + 4 <= isize::MAX,
    ensures
        mono_items(channels, current).len() == channels,
        ({
            let it = mono_items(channels, current)[k];
            let number = text::decimal((k + 1) as nat);
            &&& it.enabled
            &&& it.tag >= 0
            &&& it.label == "Channel "@ + number + " (mono)"@
            &&& device::route_of(number) == Some(ChannelRoute::of_code(it.tag as usize))
            &&& ChannelRoute::of_code(it.tag as usize) == ChannelRoute::Mono { base: k as usize }
            &&& it.checked <==> ChannelRoute::of_code(it.tag as usize) == current
        }),
{
    let route = ChannelRoute::Mono { base: k as usize };
    route_tags_round_trip(route);
    device::written_routes_are_read((k + 1) as nat, 0);
}

/// Choosing the item of a MIDI channel chooses the channel that its label says, and
/// the item is checked just where that is the current choice; the tag of all
/// channels is no channel's.
pub proof fn channel_items_choose_their_channel(current: MidiChannel, n: int)
    requires
        0 <= n < 16,
    ensures
        only_items(current).len() == 16,
        ({
            let it = only_items(current)[n];
            let number = text::decimal((n + 1) as nat);
            &&& it.enabled
            &&& it.label == "Channel "@ + number
            &&& midi::channel_of(number) == Some(channel_of_tag(it.tag))
            &&& it.checked <==> channel_of_tag(it.tag) == current
            &&& it.tag != channel_tag_spec(MidiChannel::Omni)
        }),
        channel_of_tag(channel_tag_spec(MidiChannel::Omni)) == MidiChannel::Omni,
{
    midi::written_channels_are_read((n + 1) as nat);
}

/// A route whose number fits in no tag has the tag of the route that leaves every
/// channel as it is. Tags of channels are the channels, counted from 0, and the one of
/// all channels is the next.
pub proof fn other_tags_are_the_default(route: ChannelRoute, current: MidiChannel)
    ensures
        route.code() > isize::MAX ==> ChannelRoute::of_code(route_tag(route) as usize)
            == ChannelRoute::Direct && route_tag(route) >= 0,
        channel_tag_spec(MidiChannel::Omni) == only_items(current).len(),
        forall|n: int| 0 <= n < 16 ==> (#[trigger] only_items(current)[n]).tag == n,
{
}

} // verus!
