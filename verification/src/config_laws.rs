//! Which configurations are accepted, and what they say of chords.

use vstd::prelude::*;

use crate::config::{BindingError, BindingName, Config, DeviceGroup, PolicyError};
use crate::key::Key;

verus! {

/// Whether a list of switch keys can be used: it has a key, and none twice.
pub open spec fn is_usable(keys: Seq<Key>) -> bool {
    &&& keys.len() > 0
    &&& forall|left: int, right: int|
        0 <= left < right < keys.len() ==> keys[left] != keys[right]
}

/// The lists of switch keys are the one list first and the further ones after it, in order.
pub proof fn chords_stand_in_order(config: Config, at: int)
    ensures
        ({
            let lists = crate::config::binding_lists(config);
            let first = if config.switch_keys is Some {
                1int
            } else {
                0
            };
            &&& lists.len() == first + (if config.switch_bindings is Some {
                config.switch_bindings->0@.len() as int
            } else {
                0
            })
            &&& config.switch_keys is Some ==> lists[0].0 == config.switch_keys->0@ && lists[0].1
                == BindingName::SwitchKeys
            &&& config.switch_bindings is Some && 0 <= at < config.switch_bindings->0@.len()
                ==> lists[first + at].0 == config.switch_bindings->0@[at]@ && lists[first + at].1
                == BindingName::SwitchBindings
        }),
{
}

/// The chords of a configuration are those of its lists, in order: each has the keys of its list,
/// and the last one triggers it.
pub proof fn chords_have_their_keys(lists: Seq<(Seq<Key>, BindingName)>, at: int, key: Key)
    requires
        0 <= at < lists.len(),
        lists[at].0.len() > 0,
    ensures
        crate::config::chords_of(lists).len() == lists.len(),
        crate::config::chords_of(lists)[at].keys.contains(key) == lists[at].0.contains(key),
        crate::config::chords_of(lists)[at].trigger == lists[at].0[lists[at].0.len() - 1],
{
}

/// A configuration is refused for its lists exactly if one cannot be used. The first such list is
/// the one that is reported, as empty or for a key that it has twice, by its own name.
pub proof fn unusable_chords_are_refused(lists: Seq<(Seq<Key>, BindingName)>)
    ensures
        match crate::config::first_binding_error(lists) {
            None => forall|at: int| 0 <= at < lists.len() ==> is_usable((#[trigger] lists[at]).0),
            Some(error) => exists|at: int|
                0 <= at < lists.len() && !is_usable((#[trigger] lists[at]).0) && (forall|
                    earlier: int,
                |
                    0 <= earlier < at ==> is_usable((#[trigger] lists[earlier]).0)) && error
                    == if lists[at].0.len() == 0 {
                    BindingError::Empty { name: lists[at].1 }
                } else {
                    BindingError::Duplicate { name: lists[at].1 }
                },
        },
    decreases lists.len(),
{
    if lists.len() > 0 {
        let before = lists.drop_last();
        let last = lists.len() - 1;
        unusable_chords_are_refused(before);
        let keys = lists[last].0;
        if keys.no_duplicates() {
            assert forall|left: int, right: int| 0 <= left < right < keys.len() implies keys[left]
                != keys[right] by {}
        } else {
            let (left, right) = choose|left: int, right: int|
                0 <= left < keys.len() && 0 <= right < keys.len() && left != right && keys[left]
                    == keys[right];
            if left < right {
                assert(keys[left] == keys[right]);
            } else {
                assert(keys[right] == keys[left]);
            }
            assert(!is_usable(keys));
        }
        match crate::config::first_binding_error(before) {
            Some(error) => {
                let at = choose|at: int|
                    0 <= at < before.len() && !is_usable((#[trigger] before[at]).0) && (forall|
                        earlier: int,
                    |
                        0 <= earlier < at ==> is_usable((#[trigger] before[earlier]).0)) && error
                        == if before[at].0.len() == 0 {
                        BindingError::Empty { name: before[at].1 }
                    } else {
                        BindingError::Duplicate { name: before[at].1 }
                    };
                assert(lists[at] == before[at]);
                assert forall|earlier: int| 0 <= earlier < at implies is_usable(
                    (#[trigger] lists[earlier]).0,
                ) by {
                    assert(lists[earlier] == before[earlier]);
                }
            },
            None => {
                assert forall|earlier: int| 0 <= earlier < last implies is_usable(
                    (#[trigger] lists[earlier]).0,
                ) by {
                    assert(lists[earlier] == before[earlier]);
                }
                assert(!is_usable(lists[last].0) ==> crate::config::first_binding_error(
                    lists,
                ) is Some);
            },
        }
    }
}

/// Whether a group can be used: its name has a visible character and is that of no earlier group,
/// it has a candidate, and every candidate has a field.
pub open spec fn is_usable_group(groups: Seq<DeviceGroup>, at: int) -> bool {
    &&& exists|to: int|
        0 <= to < groups[at].name@.len() && !crate::config::is_blank(
            #[trigger] groups[at].name@[to],
        )
    &&& forall|earlier: int|
        0 <= earlier < at ==> (#[trigger] groups[earlier]).name@ != groups[at].name@
    &&& groups[at].candidates@.len() > 0
    &&& forall|to: int|
        0 <= to < groups[at].candidates@.len() ==> !(
        #[trigger] groups[at].candidates@[to]).matcher.has_no_field()
}

proof fn lemma_group(groups: Seq<DeviceGroup>, at: int)
    ensures
        (crate::config::group_error(groups, at) is None) == is_usable_group(groups, at),
{
}

proof fn lemma_groups(groups: Seq<DeviceGroup>, count: int)
    ensures
        (crate::config::first_group_error(groups, count) is None) == forall|at: int|
            0 <= at < count ==> #[trigger] is_usable_group(groups, at),
    decreases count,
{
    if count > 0 {
        lemma_groups(groups, count - 1);
        lemma_group(groups, count - 1);
        if crate::config::first_group_error(groups, count) is Some
            && crate::config::first_group_error(groups, count - 1) is Some {
            let at = choose|at: int| 0 <= at < count - 1 && !#[trigger] is_usable_group(groups, at);
            assert(!is_usable_group(groups, at));
        }
    }
}

/// A device policy is accepted exactly if it is a whitelist or a list of groups, not both, every
/// rule of the whitelist has a field, there is a group where there is a list of them, and every
/// group can be used.
pub proof fn usable_policies_are_accepted(config: Config)
    ensures
        (crate::config::policy_error(config) is None) == {
            &&& config.device_whitelist is None || config.device_groups is None
            &&& config.device_whitelist is Some ==> forall|at: int|
                0 <= at < config.device_whitelist->0@.len() ==> !(
                #[trigger] config.device_whitelist->0@[at]).has_no_field()
            &&& config.device_groups is Some ==> config.device_groups->0@.len() > 0 && forall|
                at: int,
            |
                0 <= at < config.device_groups->0@.len() ==> #[trigger] is_usable_group(
                    config.device_groups->0@,
                    at,
                )
        },
        config.device_whitelist is Some && config.device_groups is Some
            ==> crate::config::policy_error(config) == Some(PolicyError::Both),
        config.device_groups is None && crate::config::policy_error(config) is Some
            ==> crate::config::policy_error(config) == Some(PolicyError::EmptyRule),
        config.device_whitelist is None && config.device_groups is Some
            && config.device_groups->0@.len() == 0 ==> crate::config::policy_error(config) == Some(
            PolicyError::NoGroups,
        ),
{
    if config.device_groups is Some {
        lemma_groups(config.device_groups->0@, config.device_groups->0@.len() as int);
    }
}

/// What is wrong with a group is said by the first thing in this order: a name without a visible
/// character, a name that an earlier group has, no candidate, a candidate without a field.
pub proof fn group_errors_say_what_is_wrong(groups: Seq<DeviceGroup>, at: int)
    requires
        0 <= at < groups.len() <= usize::MAX,
    ensures
        ({
            let error = crate::config::group_error(groups, at);
            let blank = forall|to: int|
                0 <= to < groups[at].name@.len() ==> crate::config::is_blank(
                    #[trigger] groups[at].name@[to],
                );
            let taken = exists|earlier: int|
                0 <= earlier < at && (#[trigger] groups[earlier]).name@ == groups[at].name@;
            &&& (error == Some(PolicyError::BlankName)) == blank
            &&& (error == Some(PolicyError::DuplicateName { group: at as usize })) == (!blank
                && taken)
            &&& (error == Some(PolicyError::NoCandidates { group: at as usize })) == (!blank
                && !taken && groups[at].candidates@.len() == 0)
            &&& (error == Some(PolicyError::EmptyCandidate { group: at as usize })) == (!blank
                && !taken && groups[at].candidates@.len() > 0 && exists|to: int|
                0 <= to < groups[at].candidates@.len() && (
                #[trigger] groups[at].candidates@[to]).matcher.has_no_field())
        }),
{
}

/// Of several groups that cannot be used, the first one is reported.
pub proof fn the_first_wrong_group_is_reported(groups: Seq<DeviceGroup>, at: int, count: int)
    requires
        0 <= at < count <= groups.len(),
        !is_usable_group(groups, at),
        forall|earlier: int| 0 <= earlier < at ==> #[trigger] is_usable_group(groups, earlier),
    ensures
        crate::config::first_group_error(groups, count) == crate::config::group_error(groups, at),
        crate::config::group_error(groups, at) is Some,
    decreases count,
{
    lemma_group(groups, at);
    lemma_groups(groups, at);
    if count > at + 1 {
        the_first_wrong_group_is_reported(groups, at, count - 1);
    }
}

/// White space is what Unicode counts as such: tabs and the ends of lines and pages, spaces of all
/// widths, and the separators of lines and paragraphs. Nothing that can be seen is.
pub proof fn only_white_space_is_blank(ch: char)
    ensures
        crate::config::is_blank(ch) <==> seq![
            0x9u32,
            0xa,
            0xb,
            0xc,
            0xd,
            0x20,
            0x85,
            0xa0,
            0x1680,
            0x2000,
            0x2001,
            0x2002,
            0x2003,
            0x2004,
            0x2005,
            0x2006,
            0x2007,
            0x2008,
            0x2009,
            0x200a,
            0x2028,
            0x2029,
            0x202f,
            0x205f,
            0x3000,
        ].contains(ch as u32),
        33 <= ch as u32 <= 126 ==> !crate::config::is_blank(ch),
{
    let spaces = seq![
        0x9u32,
        0xa,
        0xb,
        0xc,
        0xd,
        0x20,
        0x85,
        0xa0,
        0x1680,
        0x2000,
        0x2001,
        0x2002,
        0x2003,
        0x2004,
        0x2005,
        0x2006,
        0x2007,
        0x2008,
        0x2009,
        0x200a,
        0x2028,
        0x2029,
        0x202f,
        0x205f,
        0x3000,
    ];
    let code = ch as u32;
    assert(spaces[5] == 0x20 && spaces[6] == 0x85 && spaces[7] == 0xa0 && spaces[8] == 0x1680
        && spaces[20] == 0x2028 && spaces[21] == 0x2029 && spaces[22] == 0x202f && spaces[23]
        == 0x205f && spaces[24] == 0x3000);
    if 9 <= code <= 13 {
        assert(spaces[code - 9] == code);
    }
    if 0x2000 <= code <= 0x200a {
        assert(spaces[code - 0x2000 + 9] == code);
    }
}

} // verus!
