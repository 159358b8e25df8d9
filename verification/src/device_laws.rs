//! How the events of devices are read and written, and how keys are brought from one state to
//! another.

use vstd::prelude::*;

use crate::abs::{AbsAxis, AbsEvent, AbsInfo, ToolType};
use crate::event::{Event, RawEvent, SyncEvent};
use crate::interceptor::{RawRead, Reading, Translation};
use crate::io_error::{ErrorKind, IoError};
use crate::key::{Key, KeyEvent};
use crate::rel::{RelAxis, RelEvent};
use crate::writer::Enabled;

verus! {

/// What becomes of a raw event shows in its type, its code and its value. A routed event says what
/// the raw event said. Repetitions of keys and unknown marks are dropped, and one mark reports a
/// loss.
pub proof fn raw_events_are_told_apart(raw: RawEvent)
    ensures
        crate::interceptor::translation(raw) is Lost <==> raw.0 == 0 && raw.1 == 3,
        crate::interceptor::translation(raw) is Skip <==> (raw.0 == 1 && raw.2 == 2) || (raw.0 == 0
            && raw.1 != 0 && raw.1 != 2 && raw.1 != 3),
        crate::interceptor::translation(raw) == Translation::Event(Event::Sync(SyncEvent::All))
            <==> raw.0 == 0 && raw.1 == 0,
        crate::interceptor::translation(raw) == Translation::Event(Event::Sync(SyncEvent::Mt))
            <==> raw.0 == 0 && raw.1 == 2,
        crate::interceptor::translation(raw) matches Translation::Event(Event::Rel(moved)) ==> raw.0
            == 2 && raw.1 == moved.axis.code() && raw.2 == moved.value,
        crate::interceptor::translation(raw) matches Translation::Event(Event::Key(moved)) ==> raw.0
            == 1 && raw.1 == moved.key.code() && (moved.down ==> raw.2 == 1) && (!moved.down
            ==> raw.2 == 0),
        crate::interceptor::translation(raw) matches Translation::Event(
            Event::Abs(AbsEvent::Axis { axis, value }),
        ) ==> raw.0 == 3 && raw.1 == axis.code() && raw.2 == value && raw.1 != 0x37,
        crate::interceptor::translation(raw) matches Translation::Event(
            Event::Abs(AbsEvent::MtToolType { value }),
        ) ==> raw.0 == 3 && raw.1 == 0x37 && raw.2 == value.code(),
{
    crate::rel::rel_axis_code_is_kept(raw.1);
    crate::abs::abs_axis_code_is_kept(raw.1);
    crate::abs::tool_type_code_is_kept(raw.2);
    crate::key::key_code_is_kept(raw.1);
}

/// Every movement of a known axis is routed, whatever its value, and so is every press and every
/// release of a known key.
pub proof fn known_events_are_routed(
    rel: RelAxis,
    abs: AbsAxis,
    tool: ToolType,
    key: Key,
    value: i32,
)
    ensures
        crate::interceptor::translation((2u16, rel.code(), value)) == Translation::Event(
            Event::Rel(RelEvent { axis: rel, value }),
        ),
        crate::interceptor::translation((3u16, abs.code(), value)) == Translation::Event(
            Event::Abs(AbsEvent::Axis { axis: abs, value }),
        ),
        crate::interceptor::translation((3u16, 0x37u16, tool.code())) == Translation::Event(
            Event::Abs(AbsEvent::MtToolType { value: tool }),
        ),
        crate::interceptor::translation((1u16, key.code(), 1i32)) == Translation::Event(
            Event::Key(KeyEvent { key, down: true }),
        ),
        crate::interceptor::translation((1u16, key.code(), 0i32)) == Translation::Event(
            Event::Key(KeyEvent { key, down: false }),
        ),
{
    crate::rel::rel_axis_codes_round_trip(rel);
    crate::abs::abs_axis_codes_round_trip(abs);
    crate::abs::tool_type_codes_round_trip(tool);
    crate::key::key_codes_round_trip(key);
}

/// An event is written with the type, the code and the value that stand for it.
pub proof fn events_are_written_as_they_are(event: Event)
    ensures
        event matches Event::Rel(moved) ==> crate::writer::raw_of(event) == (
            2u16,
            moved.axis.code(),
            moved.value,
        ),
        event matches Event::Abs(AbsEvent::Axis { axis, value }) ==> crate::writer::raw_of(event)
            == (3u16, axis.code(), value),
        event matches Event::Abs(AbsEvent::MtToolType { value }) ==> crate::writer::raw_of(event)
            == (3u16, 0x37u16, value.code()),
        event matches Event::Key(moved) ==> crate::writer::raw_of(event).0 == 1
            && crate::writer::raw_of(event).1 == moved.key.code() && (moved.down
            ==> crate::writer::raw_of(event).2 == 1) && (!moved.down
            ==> crate::writer::raw_of(event).2 == 0),
        event == Event::Sync(SyncEvent::All) ==> crate::writer::raw_of(event) == (0u16, 0u16, 0i32),
        event == Event::Sync(SyncEvent::Mt) ==> crate::writer::raw_of(event) == (0u16, 2u16, 0i32),
{
}

/// Events are written in turn, each once.
pub proof fn events_are_written_in_turn(events: Seq<Event>)
    ensures
        crate::writer::raws_of(events).len() == events.len(),
        forall|at: int|
            0 <= at < events.len() ==> #[trigger] crate::writer::raws_of(events)[at]
                == crate::writer::raw_of(events[at]),
{
}

/// Where events were lost, nothing of the frame so far is kept and nothing is written back. Nothing
/// else that is read takes anything from the frame.
pub proof fn only_losses_drop_events(reading: Reading, raw: RawRead)
    ensures
        ({
            let after = reading.after(raw);
            let lost = match raw {
                RawRead::InputLost => true,
                RawRead::Event(event) => event.0 == 0 && event.1 == 3,
            };
            &&& after.writer == reading.writer
            &&& lost ==> after.queue.len() == 0 && after.writing is None
            &&& !lost ==> after.queue.len() >= reading.queue.len() && after.queue.take(
                reading.queue.len() as int,
            ) == reading.queue
        }),
{
    let after = reading.after(raw);
    if let RawRead::Event(event) = raw {
        raw_events_are_told_apart(event);
        if !(event.0 == 0 && event.1 == 3) {
            assert(after.queue.take(reading.queue.len() as int) =~= reading.queue);
        }
    }
}

/// A whole frame ends with the mark that ends frames.
pub proof fn frames_end_with_their_mark(reading: Reading, raw: RawEvent)
    requires
        !crate::interceptor::is_whole(reading.queue),
    ensures
        crate::interceptor::is_whole(reading.after(RawRead::Event(raw)).queue) <==> raw.0 == 0
            && raw.1 == 0,
{
    raw_events_are_told_apart(raw);
}

/// Whether some event of a list moves a key.
pub open spec fn moves(events: Seq<Event>, key: Key) -> bool {
    exists|at: int| 0 <= at < events.len() && moves_at(events, key, at)
}

/// Whether one event of a list moves a key.
pub open spec fn moves_at(events: Seq<Event>, key: Key, at: int) -> bool {
    events[at] matches Event::Key(moved) && moved.key == key
}

/// The last event that moves a key says whether it is down. A key that no event moves stays as it
/// was.
pub proof fn the_last_move_of_a_key_counts(down: Set<Key>, events: Seq<Event>, key: Key, at: int)
    ensures
        !moves(events, key) ==> crate::event::keys_after(down, events).contains(key)
            == down.contains(key),
        0 <= at < events.len() && moves_at(events, key, at) && (forall|to: int|
            at < to < events.len() ==> !#[trigger] moves_at(events, key, to))
            ==> crate::event::keys_after(down, events).contains(key) == events[at]->Key_0.down,
    decreases events.len(),
{
    if events.len() > 0 {
        let before = events.drop_last();
        let last = events.len() - 1;
        the_last_move_of_a_key_counts(down, before, key, at);
        assert forall|to: int| 0 <= to < before.len() implies moves_at(before, key, to) == moves_at(
            events,
            key,
            to,
        ) by {}
        if !moves(events, key) {
            assert(!moves_at(events, key, last));
            assert(!moves(before, key));
        }
        if 0 <= at < events.len() && moves_at(events, key, at) && (forall|to: int|
            at < to < events.len() ==> !#[trigger] moves_at(events, key, to)) {
            if at < last {
                assert(!moves_at(events, key, last));
                assert forall|to: int| at < to < before.len() implies !#[trigger] moves_at(
                    before,
                    key,
                    to,
                ) by {
                    assert(!moves_at(events, key, to));
                }
            }
        }
    }
}

/// Whether a list has an event that moves a key one way.
pub open spec fn has_move(events: Seq<Event>, key: Key, down: bool) -> bool {
    events.contains(Event::Key(KeyEvent { key, down }))
}

/// Whether one move of a key may come before another: no press before a release, no release of a
/// modifier before that of a plain key, no press of a plain key before that of a modifier, and
/// otherwise no key before one with a lower code.
pub open spec fn may_come_first(one: KeyEvent, other: KeyEvent) -> bool {
    &&& one.down ==> other.down
    &&& !one.down && !other.down && one.key.modifies() ==> other.key.modifies()
    &&& one.down && other.down && other.key.modifies() ==> one.key.modifies()
    &&& one.down == other.down && one.key.modifies() == other.key.modifies() ==> one.key.code()
        < other.key.code()
}

/// Keys are brought from one state to another by moving just the keys that differ, each once. All
/// releases come before all presses. Among releases plain keys come before modifiers, among presses
/// modifiers come before plain keys, and what is left is in the order of the codes. The frame is
/// closed by one mark, and empty where nothing differs.
#[verifier::rlimit(60)]
pub proof fn only_differing_keys_move(current: Set<Key>, desired: Set<Key>)
    requires
        current.finite(),
        desired.finite(),
    ensures
        ({
            let frame = crate::writer::state_change(current, desired);
            &&& forall|key: Key|
                has_move(frame, key, true) <==> desired.contains(key) && !current.contains(key)
            &&& forall|key: Key|
                has_move(frame, key, false) <==> current.contains(key) && !desired.contains(key)
            &&& forall|at: int|
                0 <= at < frame.len() ==> (#[trigger] frame[at] == Event::Sync(SyncEvent::All)
                    <==> at == frame.len() - 1)
            &&& forall|at: int| 0 <= at < frame.len() - 1 ==> #[trigger] frame[at] is Key
            &&& forall|left: int, right: int|
                #![trigger frame[left], frame[right]]
                0 <= left < right < frame.len() - 1 ==> may_come_first(
                    frame[left]->Key_0,
                    frame[right]->Key_0,
                )
        }),
{
    let frame = crate::writer::state_change(current, desired);
    let released = crate::writer::lemma_ranking(current.difference(desired), false);
    let pressed = crate::writer::lemma_ranking(desired.difference(current), true);
    let releases = crate::writer::key_events(released, false);
    let presses = crate::writer::key_events(pressed, true);
    let count = (released.len() + pressed.len()) as int;
    assert(frame.len() == if count == 0 { 0 } else { count + 1 });
    assert forall|at: int| 0 <= at < count implies #[trigger] frame[at] == if at < released.len() {
        Event::Key(KeyEvent { key: released[at], down: false })
    } else {
        Event::Key(KeyEvent { key: pressed[at - released.len()], down: true })
    } by {
        if at < released.len() {
            assert((releases + presses)[at] == releases[at]);
        } else {
            assert((releases + presses)[at] == presses[at - released.len()]);
        }
    }
    assert forall|key: Key| has_move(frame, key, false) <==> current.contains(key)
        && !desired.contains(key) by {
        assert(released.to_set().contains(key) == released.contains(key));
        if released.contains(key) {
            let at = choose|at: int| 0 <= at < released.len() && released[at] == key;
            assert(frame[at] == Event::Key(KeyEvent { key, down: false }));
        }
        if has_move(frame, key, false) {
            let at = choose|at: int|
                0 <= at < frame.len() && frame[at] == Event::Key(KeyEvent { key, down: false });
            assert(at < released.len());
            assert(released[at] == key);
        }
    }
    assert forall|key: Key| has_move(frame, key, true) <==> desired.contains(key)
        && !current.contains(key) by {
        assert(pressed.to_set().contains(key) == pressed.contains(key));
        if pressed.contains(key) {
            let at = choose|at: int| 0 <= at < pressed.len() && pressed[at] == key;
            assert(frame[at + released.len()] == Event::Key(KeyEvent { key, down: true }));
        }
        if has_move(frame, key, true) {
            let at = choose|at: int|
                0 <= at < frame.len() && frame[at] == Event::Key(KeyEvent { key, down: true });
            assert(released.len() <= at < count);
            assert(pressed[at - released.len()] == key);
        }
    }
    assert forall|left: int, right: int|
        #![trigger frame[left], frame[right]]
        0 <= left < right < frame.len() - 1 implies may_come_first(
        frame[left]->Key_0,
        frame[right]->Key_0,
    ) by {
        if right < released.len() {
            assert(crate::writer::key_rank(released[left], false) < crate::writer::key_rank(
                released[right],
                false,
            ));
        } else if left >= released.len() {
            assert(crate::writer::key_rank(pressed[left - released.len()], true)
                < crate::writer::key_rank(pressed[right - released.len()], true));
        }
    }
}

/// A virtual axis has the range, the noise filter and the resolution of the axis that it stands
/// for, and rests at its minimum.
pub proof fn axes_keep_their_ranges(axis: AbsAxis, info: AbsInfo)
    ensures
        crate::writer::enabled_axis((axis, info)) matches Enabled::Axis {
            code,
            value,
            minimum,
            maximum,
            fuzz,
            flat,
            resolution,
        } && code == axis.code() && value == info.min && minimum == info.min && maximum == info.max
            && fuzz == info.fuzz && flat == info.flat && resolution == info.resolution,
{
}

/// Devices with one major and one minor number are one device.
pub proof fn device_numbers_are_distinct(left: u64, right: u64)
    ensures
        crate::interceptor::major_of(left) == crate::interceptor::major_of(right)
            && crate::interceptor::minor_of(left) == crate::interceptor::minor_of(right) ==> left
            == right,
{
    assert((((left & 0x0000_0000_000f_ff00) >> 8) | ((left & 0xffff_f000_0000_0000) >> 32)) as u32
        == (((right & 0x0000_0000_000f_ff00) >> 8) | ((right & 0xffff_f000_0000_0000)
        >> 32)) as u32 && ((left & 0x0000_0000_0000_00ff) | ((left & 0x0000_0fff_fff0_0000)
        >> 12)) as u32 == ((right & 0x0000_0000_0000_00ff) | ((right & 0x0000_0fff_fff0_0000)
        >> 12)) as u32 ==> left == right) by (bit_vector);
}

/// An operation that fails keeps its code in its error, but that a device that is gone breaks the
/// pipe. An error ends the use of a device exactly if the device is gone, its input fails or the
/// pipe is broken.
pub proof fn failed_input_keeps_its_code(ret: i32, error: IoError)
    requires
        i32::MIN < ret < 0,
        crate::interceptor::is_input_error(ret, error),
    ensures
        ret != -19 ==> error.os_code == Some((-ret) as i32),
        ret == -19 ==> error.kind == ErrorKind::BrokenPipe && error.os_code is None,
        error.disconnected() <==> ret == -19 || ret == -5 || error.kind == ErrorKind::BrokenPipe,
{
}

/// A failed recovery and a missing virtual device end the use of a device.
pub proof fn failed_recoveries_end_the_use_of_devices(cause: IoError, error: IoError)
    ensures
        crate::interceptor::is_recovery_error(cause, error) ==> error.disconnected(),
        crate::interceptor::is_writer_error(error) ==> error.disconnected(),
{
}

/// The keys that a device holds are those that it names with a value that is not zero.
pub proof fn held_keys_have_values(codes: Seq<u16>, values: Seq<i32>, key: Key)
    requires
        codes.len() == values.len(),
    ensures
        crate::interceptor::is_held(codes, values, key) <==> exists|at: int|
            0 <= at < codes.len() && #[trigger] codes[at] == key.code() && values[at] != 0,
{
    assert forall|code: u16| Key::of_code(code) == Some(key) <==> code == key.code() by {
        crate::key::key_code_is_kept(code);
        crate::key::key_codes_round_trip(key);
    }
    if crate::interceptor::is_held(codes, values, key) {
        let at = choose|at: int|
            0 <= at < codes.len() && Key::of_code(#[trigger] codes[at]) == Some(key) && values[at]
                != 0;
        assert(codes[at] == key.code());
    }
}

/// An axis has a range exactly if the list has one for it. Of several the last one counts.
pub proof fn the_last_range_of_an_axis_counts(
    pairs: Seq<(AbsAxis, AbsInfo)>,
    axis: AbsAxis,
    at: int,
)
    ensures
        crate::axes::ranges_of(pairs).contains_key(axis) <==> exists|to: int|
            0 <= to < pairs.len() && (#[trigger] pairs[to]).0 == axis,
        0 <= at < pairs.len() && pairs[at].0 == axis && (forall|to: int|
            at < to < pairs.len() ==> (#[trigger] pairs[to]).0 != axis) ==> crate::axes::ranges_of(
            pairs,
        )[axis] == pairs[at].1,
    decreases pairs.len(),
{
    if pairs.len() > 0 {
        let before = pairs.drop_last();
        the_last_range_of_an_axis_counts(before, axis, at);
        assert forall|to: int| 0 <= to < before.len() implies #[trigger] before[to] == pairs[to] by {
        }
        if exists|to: int| 0 <= to < before.len() && (#[trigger] before[to]).0 == axis {
            let to = choose|to: int| 0 <= to < before.len() && (#[trigger] before[to]).0 == axis;
            assert(pairs[to].0 == axis);
        }
        if exists|to: int| 0 <= to < pairs.len() && (#[trigger] pairs[to]).0 == axis {
            let to = choose|to: int| 0 <= to < pairs.len() && (#[trigger] pairs[to]).0 == axis;
            if to < before.len() {
                assert(before[to].0 == axis);
            }
        }
        assert(pairs[pairs.len() - 1] == pairs.last());
    }
}

} // verus!
