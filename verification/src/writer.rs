//! Virtual devices that replay events: what is written to them, and which keys are down on them.

use vstd::prelude::*;

use crate::abs::{AbsAxis, AbsEvent, AbsInfo};
use crate::event::{
    Event, RawEvent, SyncEvent, ABS_MT_TOOL_TYPE, BUS_VIRTUAL, EV_ABS, EV_KEY, EV_REL, EV_SYN,
    REP_DELAY, REP_PERIOD, SYN_MT_REPORT,
};
use crate::interceptor::{create_error_into_io, CreateError};
use crate::io_error::{ErrorKind, IoError};
use crate::key::{Key, KeyEvent};
use crate::keyset::KeySet;
use crate::rel::{RelAxis, RelEvent};

verus! {

/// An event as the kernel takes it.
pub open spec fn raw_of(event: Event) -> RawEvent {
    match event {
        Event::Rel(RelEvent { axis, value }) => (EV_REL, axis.code(), value),
        Event::Abs(AbsEvent::Axis { axis, value }) => (EV_ABS, axis.code(), value),
        Event::Abs(AbsEvent::MtToolType { value }) => (EV_ABS, ABS_MT_TOOL_TYPE, value.code()),
        Event::Key(KeyEvent { key, down }) => (
            EV_KEY,
            key.code(),
            if down {
                1i32
            } else {
                0i32
            },
        ),
        Event::Sync(sync) => (EV_SYN, sync.code(), 0i32),
    }
}

/// Events as the kernel takes them.
pub open spec fn raws_of(events: Seq<Event>) -> Seq<RawEvent> {
    events.map_values(|event: Event| raw_of(event))
}

/// An event as the kernel takes it. Every event can be written.
pub fn raw_event(event: &Event) -> (raw: Option<RawEvent>)
    ensures
        raw == Some(raw_of(*event)),
{
    let (kind, code, value) = match event {
        Event::Rel(RelEvent { axis, value }) => (EV_REL, axis.to_raw(), Some(*value)),
        Event::Abs(AbsEvent::Axis { axis, value }) => (EV_ABS, axis.to_raw(), Some(*value)),
        Event::Abs(AbsEvent::MtToolType { value }) => (
            EV_ABS,
            Some(ABS_MT_TOOL_TYPE),
            value.to_raw(),
        ),
        Event::Key(KeyEvent { key, down }) => (
            EV_KEY,
            key.to_raw(),
            Some(
                if *down {
                    1i32
                } else {
                    0i32
                },
            ),
        ),
        Event::Sync(sync) => (EV_SYN, sync.to_raw(), Some(0i32)),
    };
    Some((kind, code?, value?))
}

/// The place of a key in a list of keys: by its code, with the modifiers all at the start or all
/// at the end.
pub open spec fn key_rank(key: Key, modifiers_first: bool) -> int {
    if key.modifies() == modifiers_first {
        key.code() as int
    } else {
        key.code() + 0x10000
    }
}

/// Whether keys are listed by their ranks.
pub open spec fn ranked(keys: Seq<Key>, modifiers_first: bool) -> bool {
    forall|left: int, right: int|
        0 <= left < right < keys.len() ==> key_rank(keys[left], modifiers_first) < key_rank(
            keys[right],
            modifiers_first,
        )
}

/// The list of a set of keys by their ranks.
pub open spec fn by_rank(keys: Set<Key>, modifiers_first: bool) -> Seq<Key> {
    choose|listed: Seq<Key>| ranked(listed, modifiers_first) && #[trigger] listed.to_set() == keys
}

/// The events of keys that all go down or all go up.
pub open spec fn key_events(keys: Seq<Key>, down: bool) -> Seq<Event> {
    keys.map_values(|key: Key| Event::Key(KeyEvent { key, down }))
}

/// The frame that brings keys from one state to another: plain keys go up before modifiers, then
/// modifiers go down before plain keys.
pub open spec fn state_change(current: Set<Key>, desired: Set<Key>) -> Seq<Event> {
    let moves = key_events(by_rank(current.difference(desired), false), false) + key_events(
        by_rank(desired.difference(current), true),
        true,
    );
    if moves.len() == 0 {
        moves
    } else {
        moves.push(Event::Sync(SyncEvent::All))
    }
}

/// There is one list of a set of keys by their ranks.
proof fn lemma_rank_is_unique(left: Seq<Key>, right: Seq<Key>, modifiers_first: bool)
    requires
        ranked(left, modifiers_first),
        ranked(right, modifiers_first),
        left.to_set() == right.to_set(),
    ensures
        left == right,
    decreases left.len(),
{
    if left.len() == 0 {
        if right.len() > 0 {
            assert(right.to_set().contains(right[0]));
        }
        assert(left =~= right);
    } else {
        assert(left.to_set().contains(left.last()));
        assert(right.to_set().contains(left.last()));
        let to = choose|to: int| 0 <= to < right.len() && right[to] == left.last();
        assert(right.to_set().contains(right.last()));
        assert(left.to_set().contains(right.last()));
        let at = choose|at: int| 0 <= at < left.len() && left[at] == right.last();
        if to < right.len() - 1 {
            assert(key_rank(right[to], modifiers_first) < key_rank(right.last(), modifiers_first));
            if at < left.len() - 1 {
                assert(key_rank(left[at], modifiers_first) < key_rank(
                    left.last(),
                    modifiers_first,
                ));
            }
        }
        assert(left.last() == right.last());
        let shorter_left = left.drop_last();
        let shorter_right = right.drop_last();
        assert forall|key: Key| shorter_left.to_set().contains(
            key,
        ) implies shorter_right.to_set().contains(key) by {
            let at = choose|at: int| 0 <= at < shorter_left.len() && shorter_left[at] == key;
            assert(left[at] == key);
            assert(key_rank(left[at], modifiers_first) < key_rank(left.last(), modifiers_first));
            assert(left.to_set().contains(key));
            assert(right.to_set().contains(key));
            let to = choose|to: int| 0 <= to < right.len() && right[to] == key;
            assert(shorter_right[to] == key);
        }
        assert forall|key: Key| shorter_right.to_set().contains(
            key,
        ) implies shorter_left.to_set().contains(key) by {
            let to = choose|to: int| 0 <= to < shorter_right.len() && shorter_right[to] == key;
            assert(right[to] == key);
            assert(key_rank(right[to], modifiers_first) < key_rank(right.last(), modifiers_first));
            assert(right.to_set().contains(key));
            assert(left.to_set().contains(key));
            let at = choose|at: int| 0 <= at < left.len() && left[at] == key;
            assert(shorter_left[at] == key);
        }
        assert(shorter_left.to_set() =~= shorter_right.to_set());
        lemma_rank_is_unique(shorter_left, shorter_right, modifiers_first);
        assert(left =~= shorter_left.push(left.last()));
        assert(right =~= shorter_right.push(right.last()));
    }
}

/// The place of a key in a list of keys.
fn rank(key: Key, modifiers_first: bool) -> (rank: u32)
    ensures
        rank == key_rank(key, modifiers_first),
{
    let code: u16 = key.to_raw().unwrap();
    if key.is_modifier() == modifiers_first {
        code as u32
    } else {
        code as u32 + 0x10000
    }
}

/// The keys of a set that are not in another, by their ranks.
fn ranked_difference(keys: &KeySet, other: &KeySet, modifiers_first: bool) -> (sorted: Vec<Key>)
    ensures
        sorted@ == by_rank(keys@.difference(other@), modifiers_first),
        ranked(sorted@, modifiers_first),
        sorted@.to_set() == keys@.difference(other@),
{
    let listed = keys.to_vec();
    let mut sorted: Vec<Key> = Vec::new();
    let mut index: usize = 0;
    while index < listed.len()
        invariant
            index <= listed@.len(),
            listed@.no_duplicates(),
            listed@.to_set() == keys@,
            ranked(sorted@, modifiers_first),
            forall|key: Key| #[trigger]
                sorted@.contains(key) <==> listed@.take(index as int).contains(key)
                    && !other@.contains(key),
        decreases listed@.len() - index,
    {
        let key = listed[index];
        let ghost before = sorted@;
        proof {
            assert(listed@.take(index + 1) =~= listed@.take(index as int).push(key));
            assert forall|held: Key| #[trigger] listed@.take(index + 1).contains(held)
                <==> listed@.take(index as int).contains(held) || held == key by {
                let shorter = listed@.take(index as int);
                if shorter.contains(held) {
                    let at = choose|at: int| 0 <= at < shorter.len() && shorter[at] == held;
                    assert(listed@.take(index + 1)[at] == held);
                }
                assert(listed@.take(index + 1)[index as int] == key);
            }
            assert(!listed@.take(index as int).contains(key)) by {
                if listed@.take(index as int).contains(key) {
                    let at = choose|at: int|
                        0 <= at < index && listed@.take(index as int)[at] == key;
                    assert(listed@[at] == listed@[index as int]);
                }
            }
        }
        if !other.contains(key) {
            let place = rank(key, modifiers_first);
            let mut to: usize = 0;
            while to < sorted.len() && rank(sorted[to], modifiers_first) < place
                invariant
                    to <= sorted@.len(),
                    sorted@ == before,
                    place == key_rank(key, modifiers_first),
                    forall|at: int|
                        0 <= at < to ==> key_rank(#[trigger] sorted@[at], modifiers_first) < place,
                decreases sorted@.len() - to,
            {
                to = to + 1;
            }
            proof {
                assert(!before.contains(key));
                if to < before.len() {
                    assert(before.contains(before[to as int]));
                    if key_rank(before[to as int], modifiers_first) == place {
                        crate::key::key_codes_are_distinct(before[to as int], key);
                        lemma_rank_tells_apart(before[to as int], key, modifiers_first);
                    }
                }
            }
            sorted.insert(to, key);
            proof {
                assert(sorted@ =~= before.insert(to as int, key));
                assert forall|left: int, right: int|
                    0 <= left < right < sorted@.len() implies key_rank(
                    sorted@[left],
                    modifiers_first,
                ) < key_rank(sorted@[right], modifiers_first) by {
                    let old_left = if left > to {
                        left - 1
                    } else {
                        left
                    };
                    let old_right = if right > to {
                        right - 1
                    } else {
                        right
                    };
                    if left == to {
                        if old_right > to {
                            assert(key_rank(before[to as int], modifiers_first) < key_rank(
                                before[old_right],
                                modifiers_first,
                            ));
                        }
                    } else if right == to {
                        assert(key_rank(before[left], modifiers_first) < place);
                    } else {
                        assert(key_rank(before[old_left], modifiers_first) < key_rank(
                            before[old_right],
                            modifiers_first,
                        ));
                    }
                }
                assert forall|held: Key| #[trigger] sorted@.contains(held) <==> before.contains(
                    held,
                ) || held == key by {
                    if before.contains(held) {
                        let at = choose|at: int| 0 <= at < before.len() && before[at] == held;
                        if at < to {
                            assert(sorted@[at] == held);
                        } else {
                            assert(sorted@[at + 1] == held);
                        }
                    }
                    assert(sorted@[to as int] == key);
                    if sorted@.contains(held) && held != key {
                        let at = choose|at: int| 0 <= at < sorted@.len() && sorted@[at] == held;
                        if at < to {
                            assert(before[at] == held);
                        } else {
                            assert(before[at - 1] == held);
                        }
                    }
                }
            }
        }
        index = index + 1;
    }
    proof {
        assert(listed@.take(index as int) =~= listed@);
        assert forall|key: Key| #[trigger] sorted@.to_set().contains(key) <==> keys@.difference(
            other@,
        ).contains(key) by {
            assert(listed@.to_set().contains(key) == listed@.contains(key));
            assert(sorted@.to_set().contains(key) == sorted@.contains(key));
        }
        assert(sorted@.to_set() =~= keys@.difference(other@));
        lemma_rank_is_unique(
            sorted@,
            by_rank(keys@.difference(other@), modifiers_first),
            modifiers_first,
        );
    }
    sorted
}

proof fn lemma_rank_tells_apart(left: Key, right: Key, modifiers_first: bool)
    ensures
        key_rank(left, modifiers_first) == key_rank(right, modifiers_first) ==> left == right,
{
    crate::key::key_codes_are_distinct(left, right);
}

/// The frame that brings keys from one state to another. It is empty where the states are equal.
pub fn key_state_events(current: &KeySet, desired: &KeySet) -> (events: Vec<Event>)
    ensures
        events@ == state_change(current@, desired@),
{
    let released = ranked_difference(current, desired, false);
    let pressed = ranked_difference(desired, current, true);
    let mut events: Vec<Event> = Vec::new();
    push_key_events(&mut events, released, false);
    push_key_events(&mut events, pressed, true);
    if events.len() > 0 {
        events.push(Event::Sync(SyncEvent::All));
    }
    events
}

fn push_key_events(events: &mut Vec<Event>, keys: Vec<Key>, down: bool)
    ensures
        final(events)@ == old(events)@ + key_events(keys@, down),
{
    let ghost before = events@;
    let ghost added = key_events(keys@, down);
    let mut index: usize = 0;
    while index < keys.len()
        invariant
            index <= keys@.len(),
            added == key_events(keys@, down),
            events@ == before + added.take(index as int),
        decreases keys@.len() - index,
    {
        events.push(Event::Key(KeyEvent { key: keys[index], down }));
        index = index + 1;
        proof {
            assert(events@ =~= before + added.take(index as int));
        }
    }
    proof {
        assert(added.take(index as int) =~= added);
    }
}

proof fn lemma_keys_after_concat(down: Set<Key>, first: Seq<Event>, second: Seq<Event>)
    ensures
        crate::event::keys_after(down, first + second) == crate::event::keys_after(
            crate::event::keys_after(down, first),
            second,
        ),
    decreases second.len(),
{
    if second.len() == 0 {
        assert(first + second =~= first);
    } else {
        assert((first + second).drop_last() =~= first + second.drop_last());
        lemma_keys_after_concat(down, first, second.drop_last());
    }
}

proof fn lemma_keys_after_moves(down: Set<Key>, keys: Seq<Key>, press: bool)
    ensures
        crate::event::keys_after(down, key_events(keys, press)) == if press {
            down.union(keys.to_set())
        } else {
            down.difference(keys.to_set())
        },
    decreases keys.len(),
{
    let after = crate::event::keys_after(down, key_events(keys, press));
    let target = if press {
        down.union(keys.to_set())
    } else {
        down.difference(keys.to_set())
    };
    if keys.len() > 0 {
        let shorter = keys.drop_last();
        lemma_keys_after_moves(down, shorter, press);
        assert(key_events(keys, press).drop_last() =~= key_events(shorter, press));
        assert forall|key: Key| keys.to_set().contains(key) <==> shorter.to_set().contains(key)
            || key == keys.last() by {
            if shorter.contains(key) {
                let at = choose|at: int| 0 <= at < shorter.len() && shorter[at] == key;
                assert(keys[at] == key);
            }
            if keys.contains(key) && key != keys.last() {
                let at = choose|at: int| 0 <= at < keys.len() && keys[at] == key;
                assert(shorter[at] == key);
            }
        }
    }
    assert(after =~= target);
}

pub(crate) proof fn lemma_ranking(keys: Set<Key>, modifiers_first: bool) -> (listed: Seq<Key>)
    requires
        keys.finite(),
    ensures
        listed == by_rank(keys, modifiers_first),
        ranked(listed, modifiers_first),
        listed.to_set() == keys,
    decreases keys.len(),
{
    if keys.len() == 0 {
        let listed = Seq::<Key>::empty();
        assert(listed.to_set() =~= keys);
        lemma_rank_is_unique(listed, by_rank(keys, modifiers_first), modifiers_first);
        listed
    } else {
        let last = lemma_last_key(keys, modifiers_first);
        let shorter = lemma_ranking(keys.remove(last), modifiers_first);
        let listed = shorter.push(last);
        assert forall|at: int| 0 <= at < shorter.len() implies key_rank(
            #[trigger] shorter[at],
            modifiers_first,
        ) < key_rank(last, modifiers_first) by {
            assert(shorter.to_set().contains(shorter[at]));
            lemma_rank_tells_apart(shorter[at], last, modifiers_first);
        }
        assert forall|key: Key| listed.to_set().contains(key) <==> keys.contains(key) by {
            assert(shorter.to_set().contains(key) == shorter.contains(key));
            if shorter.contains(key) {
                let at = choose|at: int| 0 <= at < shorter.len() && shorter[at] == key;
                assert(listed[at] == key);
            }
            assert(listed[listed.len() - 1] == last);
        }
        assert(listed.to_set() =~= keys);
        lemma_rank_is_unique(listed, by_rank(keys, modifiers_first), modifiers_first);
        listed
    }
}

proof fn lemma_last_key(keys: Set<Key>, modifiers_first: bool) -> (last: Key)
    requires
        keys.finite(),
        keys.len() > 0,
    ensures
        keys.contains(last),
        forall|key: Key| #[trigger]
            keys.contains(key) ==> key_rank(key, modifiers_first) <= key_rank(
                last,
                modifiers_first,
            ),
    decreases keys.len(),
{
    let key = keys.choose();
    if keys.len() == 1 {
        assert(keys.remove(key).len() == 0);
        assert forall|other: Key| #[trigger] keys.contains(other) implies key_rank(
            other,
            modifiers_first,
        ) <= key_rank(key, modifiers_first) by {
            if other != key {
                assert(keys.remove(key).contains(other));
            }
        }
        key
    } else {
        let other = lemma_last_key(keys.remove(key), modifiers_first);
        let last = if key_rank(key, modifiers_first) < key_rank(other, modifiers_first) {
            other
        } else {
            key
        };
        assert forall|held: Key| #[trigger] keys.contains(held) implies key_rank(
            held,
            modifiers_first,
        ) <= key_rank(last, modifiers_first) by {
            if held != key {
                assert(keys.remove(key).contains(held));
            }
        }
        last
    }
}

/// Replaying the frame that brings keys from one state to another does so.
pub proof fn state_change_reaches_state(current: Set<Key>, desired: Set<Key>)
    requires
        current.finite(),
        desired.finite(),
    ensures
        crate::event::keys_after(current, state_change(current, desired)) == desired,
{
    let released = lemma_ranking(current.difference(desired), false);
    let pressed = lemma_ranking(desired.difference(current), true);
    let releases = key_events(released, false);
    let presses = key_events(pressed, true);
    lemma_keys_after_concat(current, releases, presses);
    lemma_keys_after_moves(current, released, false);
    let between = crate::event::keys_after(current, releases);
    lemma_keys_after_moves(between, pressed, true);
    let moves = releases + presses;
    assert(crate::event::keys_after(current, moves) =~= desired);
    if moves.len() > 0 {
        assert(state_change(current, desired).drop_last() =~= moves);
    }
}

/// Equal key states need no events, and no others do.
pub proof fn only_equal_states_need_no_events(current: Set<Key>, desired: Set<Key>)
    requires
        current.finite(),
        desired.finite(),
    ensures
        state_change(current, desired).len() == 0 <==> current == desired,
{
    let released = lemma_ranking(current.difference(desired), false);
    let pressed = lemma_ranking(desired.difference(current), true);
    if current == desired {
        if released.len() > 0 {
            assert(released.to_set().contains(released[0]));
        }
        if pressed.len() > 0 {
            assert(pressed.to_set().contains(pressed[0]));
        }
    }
    if released.len() == 0 && pressed.len() == 0 {
        assert forall|key: Key| current.contains(key) <==> desired.contains(key) by {
            if current.contains(key) && !desired.contains(key) {
                assert(released.to_set().contains(key));
            }
            if desired.contains(key) && !current.contains(key) {
                assert(pressed.to_set().contains(key));
            }
        }
        assert(current =~= desired);
    }
}

/// In a list by rank, the modifiers are all at the start or all at the end.
pub proof fn modifiers_are_grouped(
    keys: Set<Key>,
    modifiers_first: bool,
    left: int,
    right: int,
)
    requires
        keys.finite(),
        0 <= left < right < by_rank(keys, modifiers_first).len(),
    ensures
        modifiers_first && by_rank(keys, modifiers_first)[right].modifies() ==> by_rank(
            keys,
            modifiers_first,
        )[left].modifies(),
        !modifiers_first && by_rank(keys, modifiers_first)[left].modifies() ==> by_rank(
            keys,
            modifiers_first,
        )[right].modifies(),
{
    let listed = lemma_ranking(keys, modifiers_first);
    assert(key_rank(listed[left], modifiers_first) < key_rank(listed[right], modifiers_first));
}

/// What a virtual device is told to support.
#[derive(Clone, Copy, Debug, PartialEq, Eq, Structural)]
pub enum Enabled {
    /// A code of a type of events.
    Code { kind: u16, code: u16 },
    /// An absolute axis with its range.
    Axis {
        code: u16,
        value: i32,
        minimum: i32,
        maximum: i32,
        fuzz: i32,
        flat: i32,
        resolution: i32,
    },
    /// A parameter of the key repetition.
    Repeat { code: u16, value: i32 },
}

/// How a code of an event type is enabled.
pub open spec fn enabled_code(kind: u16, code: u16) -> Enabled {
    Enabled::Code { kind, code }
}

/// How an absolute axis is enabled: it rests at its minimum.
pub open spec fn enabled_axis(item: (AbsAxis, AbsInfo)) -> Enabled {
    Enabled::Axis {
        code: item.0.code(),
        value: item.1.min,
        minimum: item.1.min,
        maximum: item.1.max,
        fuzz: item.1.fuzz,
        flat: item.1.flat,
        resolution: item.1.resolution,
    }
}

/// The description of a virtual device that is to be made.
#[derive(Debug)]
pub struct WriterBuilder {
    name: Vec<u8>,
    bustype: u16,
    vendor: u16,
    product: u16,
    version: u16,
    enabled: Vec<Enabled>,
}

/// What a [`WriterBuilder`] describes.
#[verifier::ext_equal]
pub struct Description {
    pub name: Seq<u8>,
    pub bustype: u16,
    pub vendor: u16,
    pub product: u16,
    pub version: u16,
    /// What the device supports, in the order in which it is enabled.
    pub enabled: Seq<Enabled>,
}

impl View for WriterBuilder {
    type V = Description;

    closed spec fn view(&self) -> Description {
        Description {
            name: self.name@,
            bustype: self.bustype,
            vendor: self.vendor,
            product: self.product,
            version: self.version,
            enabled: self.enabled@,
        }
    }
}

impl WriterBuilder {
    /// A device on the virtual bus that supports nothing yet.
    pub fn new() -> (builder: WriterBuilder)
        ensures
            builder@ == (Description {
                name: seq![],
                bustype: BUS_VIRTUAL,
                vendor: 0,
                product: 0,
                version: 0,
                enabled: seq![],
            }),
    {
        let builder = WriterBuilder {
            name: Vec::new(),
            bustype: BUS_VIRTUAL,
            vendor: 0,
            product: 0,
            version: 0,
            enabled: Vec::new(),
        };
        proof {
            assert(builder.name@ =~= Seq::<u8>::empty());
            assert(builder.enabled@ =~= Seq::<Enabled>::empty());
        }
        builder
    }

    pub fn name(self, name: Vec<u8>) -> (builder: WriterBuilder)
        ensures
            builder@ == (Description { name: name@, ..self@ }),
    {
        let mut builder = self;
        builder.name = name;
        builder
    }

    pub fn vendor(self, value: u16) -> (builder: WriterBuilder)
        ensures
            builder@ == (Description { vendor: value, ..self@ }),
    {
        let mut builder = self;
        builder.vendor = value;
        builder
    }

    pub fn product(self, value: u16) -> (builder: WriterBuilder)
        ensures
            builder@ == (Description { product: value, ..self@ }),
    {
        let mut builder = self;
        builder.product = value;
        builder
    }

    pub fn version(self, value: u16) -> (builder: WriterBuilder)
        ensures
            builder@ == (Description { version: value, ..self@ }),
    {
        let mut builder = self;
        builder.version = value;
        builder
    }

    /// Adds relative axes.
    pub fn rel(self, items: &[RelAxis]) -> (builder: WriterBuilder)
        ensures
            builder@ == (Description {
                enabled: self@.enabled + items@.map_values(
                    |axis: RelAxis| enabled_code(EV_REL, axis.code()),
                ),
                ..self@
            }),
    {
        let mut builder = self;
        let ghost before = builder@;
        let ghost added = items@.map_values(|axis: RelAxis| enabled_code(EV_REL, axis.code()));
        let mut index: usize = 0;
        while index < items.len()
            invariant
                index <= items@.len(),
                added == items@.map_values(|axis: RelAxis| enabled_code(EV_REL, axis.code())),
                builder@ == (Description {
                    enabled: before.enabled + added.take(index as int),
                    ..before
                }),
            decreases items@.len() - index,
        {
            if let Some(code) = items[index].to_raw() {
                builder.enabled.push(Enabled::Code { kind: EV_REL, code });
            }
            index = index + 1;
            proof {
                assert(builder.enabled@ =~= before.enabled + added.take(index as int));
            }
        }
        proof {
            assert(added.take(index as int) =~= added);
        }
        builder
    }

    /// Adds absolute axes, and with them the mark that ends the data of a touch contact.
    pub fn abs(self, items: &[(AbsAxis, AbsInfo)]) -> (builder: WriterBuilder)
        ensures
            builder@ == (Description {
                enabled: self@.enabled.push(enabled_code(EV_SYN, SYN_MT_REPORT))
                    + items@.map_values(|item: (AbsAxis, AbsInfo)| enabled_axis(item)),
                ..self@
            }),
    {
        let mut builder = self;
        let ghost before = builder@;
        let ghost added = items@.map_values(|item: (AbsAxis, AbsInfo)| enabled_axis(item));
        builder.enabled.push(Enabled::Code { kind: EV_SYN, code: SYN_MT_REPORT });
        let ghost marked = before.enabled.push(enabled_code(EV_SYN, SYN_MT_REPORT));
        let mut index: usize = 0;
        while index < items.len()
            invariant
                index <= items@.len(),
                added == items@.map_values(|item: (AbsAxis, AbsInfo)| enabled_axis(item)),
                builder@ == (Description {
                    enabled: marked + added.take(index as int),
                    ..before
                }),
            decreases items@.len() - index,
        {
            let (axis, info) = items[index];
            if let Some(code) = axis.to_raw() {
                builder.enabled.push(
                    Enabled::Axis {
                        code,
                        value: info.min,
                        minimum: info.min,
                        maximum: info.max,
                        fuzz: info.fuzz,
                        flat: info.flat,
                        resolution: info.resolution,
                    },
                );
            }
            index = index + 1;
            proof {
                assert(builder.enabled@ =~= marked + added.take(index as int));
            }
        }
        proof {
            assert(added.take(index as int) =~= added);
        }
        builder
    }

    /// Adds keys.
    pub fn key(self, items: &[Key]) -> (builder: WriterBuilder)
        ensures
            builder@ == (Description {
                enabled: self@.enabled + items@.map_values(
                    |key: Key| enabled_code(EV_KEY, key.code()),
                ),
                ..self@
            }),
    {
        let mut builder = self;
        let ghost before = builder@;
        let ghost added = items@.map_values(|key: Key| enabled_code(EV_KEY, key.code()));
        let mut index: usize = 0;
        while index < items.len()
            invariant
                index <= items@.len(),
                added == items@.map_values(|key: Key| enabled_code(EV_KEY, key.code())),
                builder@ == (Description {
                    enabled: before.enabled + added.take(index as int),
                    ..before
                }),
            decreases items@.len() - index,
        {
            if let Some(code) = items[index].to_raw() {
                builder.enabled.push(Enabled::Code { kind: EV_KEY, code });
            }
            index = index + 1;
            proof {
                assert(builder.enabled@ =~= before.enabled + added.take(index as int));
            }
        }
        proof {
            assert(added.take(index as int) =~= added);
        }
        builder
    }

    /// Sets the delay before a held key repeats, where there is one.
    pub fn delay(self, value: Option<i32>) -> (builder: WriterBuilder)
        ensures
            builder@ == match value {
                Some(value) => (Description {
                    enabled: self@.enabled.push(Enabled::Repeat { code: REP_DELAY, value }),
                    ..self@
                }),
                None => self@,
            },
    {
        let mut builder = self;
        if let Some(value) = value {
            builder.enabled.push(Enabled::Repeat { code: REP_DELAY, value });
        }
        builder
    }

    /// Sets the time between repetitions of a held key, where there is one.
    pub fn period(self, value: Option<i32>) -> (builder: WriterBuilder)
        ensures
            builder@ == match value {
                Some(value) => (Description {
                    enabled: self@.enabled.push(Enabled::Repeat { code: REP_PERIOD, value }),
                    ..self@
                }),
                None => self@,
            },
    {
        let mut builder = self;
        if let Some(value) = value {
            builder.enabled.push(Enabled::Repeat { code: REP_PERIOD, value });
        }
        builder
    }

    pub fn device_name(&self) -> (name: &Vec<u8>)
        ensures
            name@ == self@.name,
    {
        &self.name
    }

    /// The bus type, vendor, product and version of the device.
    pub fn ids(&self) -> (ids: (u16, u16, u16, u16))
        ensures
            ids == (self@.bustype, self@.vendor, self@.product, self@.version),
    {
        (self.bustype, self.vendor, self.product, self.version)
    }

    /// What the device supports, in the order in which it is to be enabled.
    pub fn enabled(&self) -> (enabled: &Vec<Enabled>)
        ensures
            enabled@ == self@.enabled,
    {
        &self.enabled
    }

    /// The writer of the device, by the result of making the device from this description. No key is
    /// down on a new device. Where the device could not be made, the cause is passed on.
    pub fn build(self, made: Result<(), CreateError>) -> (result: Result<Writer, IoError>)
        ensures
            match (made, result) {
                (Ok(_), Ok(writer)) => writer@ == Set::<Key>::empty(),
                (Err(CreateError::Open(inner)), Err(err)) => err == inner,
                (Err(CreateError::Create(inner)), Err(err)) => err == inner,
                _ => false,
            },
    {
        match made {
            Ok(_) => Ok(Writer::new()),
            Err(err) => Err(create_error_into_io(err)),
        }
    }
}

/// The keys that are down on a virtual device.
#[derive(Debug)]
pub struct Writer {
    pressed_keys: KeySet,
}

impl View for Writer {
    type V = Set<Key>;

    closed spec fn view(&self) -> Set<Key> {
        self.pressed_keys@
    }
}

impl Writer {
    pub fn builder() -> (builder: WriterBuilder)
        ensures
            builder@ == (Description {
                name: seq![],
                bustype: BUS_VIRTUAL,
                vendor: 0,
                product: 0,
                version: 0,
                enabled: seq![],
            }),
    {
        WriterBuilder::new()
    }

    /// The writer of a new device.
    pub fn new() -> (writer: Writer)
        ensures
            writer@ == Set::<Key>::empty(),
    {
        Writer { pressed_keys: KeySet::new() }
    }

    pub fn pressed_keys(&self) -> (keys: &KeySet)
        ensures
            keys@ == self@,
    {
        &self.pressed_keys
    }

    /// What is to be written for an event. [`Writer::update_key_state`] follows once it is written.
    pub fn write(&self, event: &Event) -> (raw: Option<RawEvent>)
        ensures
            raw == Some(raw_of(*event)),
    {
        raw_event(event)
    }

    /// What is to be written for a frame. [`Writer::finish_frame`] follows once all is written.
    pub fn write_frame(&self, events: &[Event]) -> (write: FrameWrite)
        ensures
            write.wf(),
            write.raw_events() == raws_of(events@),
            write.written_count() == 0,
    {
        FrameWrite::new(events)
    }

    /// Records an event that was written.
    pub fn update_key_state(&mut self, event: &Event)
        ensures
            final(self)@ == crate::event::keys_after(old(self)@, seq![*event]),
    {
        proof {
            let one = seq![*event];
            assert(one.drop_last() =~= Seq::<Event>::empty());
            assert(crate::event::keys_after(self@, one.drop_last()) == self@);
        }
        if let Event::Key(KeyEvent { key, down }) = event {
            if *down {
                self.pressed_keys.insert(*key);
            } else {
                self.pressed_keys.remove(*key);
            }
        }
    }

    /// Records a frame that was written to its end.
    pub fn finish_frame(&mut self, events: &[Event])
        ensures
            final(self)@ == crate::event::keys_after(old(self)@, events@),
    {
        let ghost before = self@;
        let mut index: usize = 0;
        proof {
            assert(events@.take(0) =~= Seq::<Event>::empty());
        }
        while index < events.len()
            invariant
                index <= events@.len(),
                self@ == crate::event::keys_after(before, events@.take(index as int)),
            decreases events@.len() - index,
        {
            let ghost shorter = events@.take(index as int);
            let ghost now = self@;
            self.update_key_state(&events[index]);
            proof {
                let one = seq![events@[index as int]];
                lemma_keys_after_concat(before, shorter, one);
                assert(events@.take(index + 1) =~= shorter + one);
            }
            index = index + 1;
        }
        proof {
            assert(events@.take(index as int) =~= events@);
        }
    }

    /// The frame that brings the keys of the device to a state, if any is needed.
    pub fn set_key_state(&self, pressed_keys: &KeySet) -> (frame: Option<Vec<Event>>)
        ensures
            match frame {
                Some(events) => events@ == state_change(self@, pressed_keys@) && events@.len() > 0,
                None => state_change(self@, pressed_keys@).len() == 0,
            },
    {
        let events = key_state_events(&self.pressed_keys, pressed_keys);
        if events.len() == 0 {
            return None;
        }
        Some(events)
    }
}

/// What the result of writing an event calls for.
#[derive(Clone, Copy, Debug, PartialEq, Eq, Structural)]
pub enum WriteStep {
    /// Go on: the event is written.
    Go,
    /// Wait until the virtual device takes more, and write the event again.
    Wait,
}

/// A frame on its way to a virtual device. It can be taken up again after an interruption.
#[derive(Debug)]
pub struct FrameWrite {
    raw_events: Vec<RawEvent>,
    cursor: usize,
}

impl FrameWrite {
    /// The events of the frame.
    pub closed spec fn raw_events(&self) -> Seq<RawEvent> {
        self.raw_events@
    }

    /// The number of events that were written.
    pub closed spec fn written_count(&self) -> nat {
        self.cursor as nat
    }

    pub closed spec fn wf(&self) -> bool {
        self.cursor <= self.raw_events@.len()
    }

    pub fn new(events: &[Event]) -> (write: FrameWrite)
        ensures
            write.wf(),
            write.raw_events() == raws_of(events@),
            write.written_count() == 0,
    {
        let mut raw_events: Vec<RawEvent> = Vec::new();
        let ghost all = raws_of(events@);
        let mut index: usize = 0;
        while index < events.len()
            invariant
                index <= events@.len(),
                all == raws_of(events@),
                raw_events@ == all.take(index as int),
            decreases events@.len() - index,
        {
            if let Some(raw) = raw_event(&events[index]) {
                raw_events.push(raw);
            }
            index = index + 1;
            proof {
                assert(raw_events@ =~= all.take(index as int));
            }
        }
        proof {
            assert(all.take(index as int) =~= all);
        }
        FrameWrite { raw_events, cursor: 0 }
    }

    /// The event to be written next, until all were.
    pub fn next(&self) -> (event: Option<RawEvent>)
        requires
            self.wf(),
        ensures
            event == if self.written_count() < self.raw_events().len() {
                Some(self.raw_events()[self.written_count() as int])
            } else {
                None
            },
    {
        if self.cursor < self.raw_events.len() {
            Some(self.raw_events[self.cursor])
        } else {
            None
        }
    }

    /// A single event on its way.
    pub fn single(raw: RawEvent) -> (write: FrameWrite)
        ensures
            write.wf(),
            write.raw_events() == seq![raw],
            write.written_count() == 0,
    {
        let mut raw_events: Vec<RawEvent> = Vec::new();
        raw_events.push(raw);
        proof {
            assert(raw_events@ =~= seq![raw]);
        }
        FrameWrite { raw_events, cursor: 0 }
    }

    /// Takes the result of writing the next event: a negative error code, or success. An event that
    /// the virtual device does not take yet is written again.
    pub fn advance(&mut self, ret: i32) -> (step: Result<WriteStep, IoError>)
        requires
            old(self).wf(),
            old(self).written_count() < old(self).raw_events().len(),
            ret > i32::MIN,
        ensures
            final(self).wf(),
            final(self).raw_events() == old(self).raw_events(),
            final(self).written_count() == if ret >= 0 {
                old(self).written_count() + 1
            } else {
                old(self).written_count()
            },
            match step {
                Ok(WriteStep::Go) => ret >= 0,
                Ok(WriteStep::Wait) => ret < 0 && crate::io_error::kind_of_code((-ret) as i32)
                    == ErrorKind::WouldBlock,
                Err(err) => {
                    &&& ret < 0
                    &&& err.has_code((-ret) as i32)
                    &&& err.kind == crate::io_error::kind_of_code((-ret) as i32)
                    &&& err.kind != ErrorKind::WouldBlock
                },
            },
    {
        if ret < 0 {
            let err = IoError::from_raw_os_error(-ret);
            if err.kind == ErrorKind::WouldBlock {
                return Ok(WriteStep::Wait);
            }
            return Err(err);
        }
        assert(self.cursor < self.raw_events.len());
        self.cursor = self.cursor + 1;
        Ok(WriteStep::Go)
    }
}

} // verus!
