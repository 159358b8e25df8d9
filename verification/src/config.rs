//! The configuration of the server: its switch chords and its device policy.

use vstd::prelude::*;

use crate::interceptor::{DeviceFacts, DeviceInfo, DeviceOrigin};
use crate::key::Key;
use crate::keyset::KeySet;
use crate::path::same_bytes;
use crate::routing::{Chord, SwitchBinding};
use crate::server::DEFAULT_CLIENT_QUEUE_SIZE;

verus! {

/// A rule that devices match: all fields that are there must agree.
#[derive(Debug)]
pub struct DeviceMatch {
    /// A path to the node, which may be another name of it.
    pub path: Option<Vec<u8>>,
    pub name: Option<Vec<u8>>,
    pub vendor: Option<u16>,
    pub product: Option<u16>,
    pub version: Option<u16>,
    pub origin: Option<DeviceOrigin>,
    pub bustype: Option<u16>,
}

/// One of the devices that can stand for a peripheral.
#[derive(Debug)]
pub struct GroupCandidate {
    pub matcher: DeviceMatch,
    /// How long a device is left to others after it appeared, in milliseconds.
    pub grab_delay_ms: Option<u64>,
}

/// A peripheral that can appear as one of several devices, the preferred one first.
#[derive(Debug)]
pub struct DeviceGroup {
    pub name: String,
    pub candidates: Vec<GroupCandidate>,
}

/// The configuration of the server.
#[derive(Debug)]
pub struct Config {
    pub listen: String,
    pub certificate: Vec<u8>,
    pub key: Vec<u8>,
    pub password: String,
    pub switch_keys: Option<Vec<Key>>,
    pub switch_bindings: Option<Vec<Vec<Key>>>,
    pub propagate_switch_keys: Option<bool>,
    pub device_whitelist: Option<Vec<DeviceMatch>>,
    pub device_groups: Option<Vec<DeviceGroup>>,
    pub client_queue_size: Option<usize>,
}

/// Whether a field of a rule agrees with a device: it does where the rule does not have it.
pub open spec fn agrees<T>(rule: Option<T>, fact: T) -> bool {
    rule matches Some(rule) ==> rule == fact
}

impl DeviceMatch {
    /// Whether the rule has no field.
    pub open spec fn has_no_field(self) -> bool {
        self.path is None && self.name is None && self.vendor is None && self.product is None
            && self.version is None && self.origin is None && self.bustype is None
    }

    pub fn is_empty(&self) -> (empty: bool)
        ensures
            empty == self.has_no_field(),
    {
        self.path.is_none() && self.name.is_none() && self.vendor.is_none()
            && self.product.is_none() && self.version.is_none() && self.origin.is_none()
            && self.bustype.is_none()
    }

    /// Whether a device matches the rule. The path of the rule counts by what it leads to, where it
    /// leads anywhere.
    pub open spec fn accepts(self, facts: DeviceFacts, resolved: Option<Seq<u8>>) -> bool {
        &&& self.path is Some ==> resolved == Some(facts.path)
        &&& self.name matches Some(name) ==> name@ == facts.name
        &&& agrees(self.vendor, facts.vendor)
        &&& agrees(self.product, facts.product)
        &&& agrees(self.version, facts.version)
        &&& agrees(self.origin, facts.origin)
        &&& agrees(self.bustype, facts.bustype)
    }

    /// Whether a device matches the rule, with what the path of the rule leads to.
    pub fn matches(&self, info: &DeviceInfo, resolved: Option<&Vec<u8>>) -> (matched: bool)
        ensures
            matched == self.accepts(
                info@,
                match resolved {
                    Some(path) => Some(path@),
                    None => None,
                },
            ),
    {
        let path = match &self.path {
            Some(_) => match resolved {
                Some(resolved) => same_bytes(resolved.as_slice(), info.path().as_slice()),
                None => false,
            },
            None => true,
        };
        let name = match &self.name {
            Some(name) => same_bytes(name.as_slice(), info.name().as_slice()),
            None => true,
        };
        let vendor = match self.vendor {
            Some(vendor) => vendor == info.vendor(),
            None => true,
        };
        let product = match self.product {
            Some(product) => product == info.product(),
            None => true,
        };
        let version = match self.version {
            Some(version) => version == info.version(),
            None => true,
        };
        let origin = match self.origin {
            Some(origin) => origin == info.origin(),
            None => true,
        };
        let bustype = match self.bustype {
            Some(bustype) => bustype == info.bustype(),
            None => true,
        };
        path && name && vendor && product && version && origin && bustype
    }
}

/// What a list of switch keys is called in messages.
#[derive(Clone, Copy, Debug, PartialEq, Eq, Structural)]
pub enum BindingName {
    SwitchKeys,
    SwitchBindings,
}

/// Why the switch keys of a configuration are refused.
#[derive(Clone, Copy, Debug, PartialEq, Eq, Structural)]
pub enum BindingError {
    /// A list has no key.
    Empty { name: BindingName },
    /// A list has a key twice.
    Duplicate { name: BindingName },
    /// There is no list.
    Missing,
}

impl BindingError {
    /// The text of the error.
    pub open spec fn text(self) -> Seq<char> {
        match self {
            BindingError::Empty { name: BindingName::SwitchKeys } =>
            "switch-keys must contain at least one key"@,
            BindingError::Empty { name: BindingName::SwitchBindings } =>
            "switch-bindings entries must contain at least one key"@,
            BindingError::Duplicate { name: BindingName::SwitchKeys } =>
            "switch-keys must not contain duplicate keys"@,
            BindingError::Duplicate { name: BindingName::SwitchBindings } =>
            "switch-bindings entries must not contain duplicate keys"@,
            BindingError::Missing => "either switch-keys or switch-bindings must be configured"@,
        }
    }

    pub fn message(self) -> (text: &'static str)
        ensures
            text@ == self.text(),
    {
        match self {
            BindingError::Empty { name: BindingName::SwitchKeys } =>
            "switch-keys must contain at least one key",
            BindingError::Empty { name: BindingName::SwitchBindings } =>
            "switch-bindings entries must contain at least one key",
            BindingError::Duplicate { name: BindingName::SwitchKeys } =>
            "switch-keys must not contain duplicate keys",
            BindingError::Duplicate { name: BindingName::SwitchBindings } =>
            "switch-bindings entries must not contain duplicate keys",
            BindingError::Missing => "either switch-keys or switch-bindings must be configured",
        }
    }
}

/// What is wrong with a list of switch keys.
pub open spec fn binding_error(keys: Seq<Key>, name: BindingName) -> Option<BindingError> {
    if keys.len() == 0 {
        Some(BindingError::Empty { name })
    } else if !keys.no_duplicates() {
        Some(BindingError::Duplicate { name })
    } else {
        None
    }
}

/// The chord of a list of switch keys: the last key is the trigger.
pub open spec fn chord_of(keys: Seq<Key>) -> Chord {
    Chord { keys: keys.to_set(), trigger: keys.last() }
}

/// The chord of a list of switch keys, unless something is wrong with it.
pub fn convert_switch_binding(binding: &[Key], name: BindingName) -> (result: Result<
    SwitchBinding,
    BindingError,
>)
    ensures
        match result {
            Ok(converted) => binding_error(binding@, name) is None && converted@ == chord_of(
                binding@,
            ),
            Err(error) => binding_error(binding@, name) == Some(error),
        },
{
    if binding.len() == 0 {
        return Err(BindingError::Empty { name });
    }
    let trigger = binding[binding.len() - 1];
    let mut seen = KeySet::new();
    let mut index: usize = 0;
    proof {
        assert(binding@.take(0) =~= Seq::<Key>::empty());
        assert(binding@.take(0).to_set() =~= Set::<Key>::empty());
    }
    while index < binding.len()
        invariant
            index <= binding@.len(),
            seen@ == binding@.take(index as int).to_set(),
            binding@.take(index as int).no_duplicates(),
        decreases binding@.len() - index,
    {
        let key = binding[index];
        let ghost shorter = binding@.take(index as int);
        let ghost longer = binding@.take(index + 1);
        proof {
            assert(longer =~= shorter.push(key));
        }
        if !seen.insert(key) {
            proof {
                assert(shorter.to_set().contains(key));
                let at = choose|at: int| 0 <= at < shorter.len() && shorter[at] == key;
                assert(binding@[at] == binding@[index as int]);
                assert(!binding@.no_duplicates());
            }
            return Err(BindingError::Duplicate { name });
        }
        proof {
            assert(!shorter.contains(key)) by {
                assert(shorter.to_set().contains(key) == shorter.contains(key));
            }
            assert forall|left: int, right: int|
                0 <= left < longer.len() && 0 <= right < longer.len() && left
                    != right implies longer[left] != longer[right] by {
                if left < index && right < index {
                    assert(shorter[left] != shorter[right]);
                } else if left < index {
                    assert(shorter.contains(shorter[left]));
                } else {
                    assert(shorter.contains(shorter[right]));
                }
            }
            assert forall|other: Key| longer.to_set().contains(other) <==> shorter.to_set().insert(
                key,
            ).contains(other) by {
                if shorter.contains(other) {
                    let at = choose|at: int| 0 <= at < shorter.len() && shorter[at] == other;
                    assert(longer[at] == other);
                }
                assert(longer[index as int] == key);
            }
            assert(longer.to_set() =~= shorter.to_set().insert(key));
        }
        index = index + 1;
    }
    proof {
        assert(binding@.take(index as int) =~= binding@);
    }
    Ok(SwitchBinding::new(seen, trigger))
}

/// The lists of switch keys of a configuration, in order, each with its name.
pub open spec fn binding_lists(config: Config) -> Seq<(Seq<Key>, BindingName)> {
    let first = match config.switch_keys {
        Some(keys) => seq![(keys@, BindingName::SwitchKeys)],
        None => seq![],
    };
    let rest = match config.switch_bindings {
        Some(bindings) => bindings@.map_values(
            |keys: Vec<Key>| (keys@, BindingName::SwitchBindings),
        ),
        None => seq![],
    };
    first + rest
}

/// What is wrong with some lists of switch keys: the first thing counts.
pub open spec fn first_binding_error(lists: Seq<(Seq<Key>, BindingName)>) -> Option<BindingError>
    decreases lists.len(),
{
    if lists.len() == 0 {
        None
    } else {
        match first_binding_error(lists.drop_last()) {
            Some(error) => Some(error),
            None => binding_error(lists.last().0, lists.last().1),
        }
    }
}

/// The chords of some lists of switch keys.
pub open spec fn chords_of(lists: Seq<(Seq<Key>, BindingName)>) -> Seq<Chord> {
    lists.map_values(|list: (Seq<Key>, BindingName)| chord_of(list.0))
}

proof fn lemma_first_error(lists: Seq<(Seq<Key>, BindingName)>, count: int)
    requires
        0 <= count <= lists.len(),
        first_binding_error(lists.take(count)) is Some,
    ensures
        first_binding_error(lists) == first_binding_error(lists.take(count)),
    decreases lists.len() - count,
{
    if count == lists.len() {
        assert(lists.take(count) =~= lists);
    } else {
        assert(lists.take(count + 1).drop_last() =~= lists.take(count));
        lemma_first_error(lists, count + 1);
    }
}

/// The chords of a configuration, in order. The first list with something wrong is reported.
pub fn build_switch_bindings(config: &Config) -> (result: Result<Vec<SwitchBinding>, &'static str>)
    ensures
        match result {
            Ok(bindings) => {
                &&& first_binding_error(binding_lists(*config)) is None
                &&& bindings@.len() > 0
                &&& crate::routing::chords(bindings@) == chords_of(binding_lists(*config))
            },
            Err(text) => match first_binding_error(binding_lists(*config)) {
                Some(first) => text@ == first.text(),
                None => text@ == BindingError::Missing.text() && binding_lists(*config).len() == 0,
            },
        },
{
    match collect_switch_bindings(config) {
        Ok(bindings) => Ok(bindings),
        Err(error) => Err(error.message()),
    }
}

fn collect_switch_bindings(config: &Config) -> (result: Result<Vec<SwitchBinding>, BindingError>)
    ensures
        match result {
            Ok(bindings) => {
                &&& first_binding_error(binding_lists(*config)) is None
                &&& bindings@.len() > 0
                &&& crate::routing::chords(bindings@) == chords_of(binding_lists(*config))
            },
            Err(error) => match first_binding_error(binding_lists(*config)) {
                Some(first) => error == first,
                None => error == BindingError::Missing && binding_lists(*config).len() == 0,
            },
        },
{
    let ghost lists = binding_lists(*config);
    let mut bindings: Vec<SwitchBinding> = Vec::new();
    let ghost mut count: int = 0;
    proof {
        assert(lists.take(0) =~= Seq::<(Seq<Key>, BindingName)>::empty());
        assert(crate::routing::chords(bindings@) =~= chords_of(lists.take(0)));
        assert(first_binding_error(lists.take(0)) is None);
    }
    if let Some(keys) = &config.switch_keys {
        proof {
            assert(lists[0] == (keys@, BindingName::SwitchKeys));
            assert(lists.take(1).drop_last() =~= lists.take(0));
            assert(lists.take(1).last() == lists[0]);
        }
        match convert_switch_binding(keys.as_slice(), BindingName::SwitchKeys) {
            Ok(binding) => {
                bindings.push(binding);
            },
            Err(error) => {
                proof {
                    lemma_first_error(lists, 1);
                }
                return Err(error);
            },
        }
        proof {
            count = 1;
            assert(crate::routing::chords(bindings@) =~= chords_of(lists.take(1)));
        }
    }
    if let Some(entries) = &config.switch_bindings {
        let ghost skipped = count;
        let mut index: usize = 0;
        while index < entries.len()
            invariant
                index <= entries@.len(),
                lists == binding_lists(*config),
                config.switch_bindings == Some(*entries),
                lists.len() == skipped + entries@.len(),
                skipped == (if config.switch_keys is Some {
                    1int
                } else {
                    0int
                }),
                count == skipped + index,
                first_binding_error(lists.take(count)) is None,
                crate::routing::chords(bindings@) == chords_of(lists.take(count)),
            decreases entries@.len() - index,
        {
            let ghost before = bindings@;
            proof {
                assert(lists[count] == (entries@[index as int]@, BindingName::SwitchBindings));
                assert(lists.take(count + 1).drop_last() =~= lists.take(count));
                assert(lists.take(count + 1).last() == lists[count]);
            }
            match convert_switch_binding(entries[index].as_slice(), BindingName::SwitchBindings) {
                Ok(binding) => {
                    let ghost chord = binding@;
                    bindings.push(binding);
                    proof {
                        assert(crate::routing::chords(bindings@) =~= crate::routing::chords(
                            before,
                        ).push(chord));
                        assert(chords_of(lists.take(count + 1)) =~= chords_of(
                            lists.take(count),
                        ).push(chord));
                    }
                },
                Err(error) => {
                    proof {
                        lemma_first_error(lists, count + 1);
                    }
                    return Err(error);
                },
            }
            index = index + 1;
            proof {
                count = count + 1;
            }
        }
    }
    proof {
        assert(lists.take(count) =~= lists);
        assert(crate::routing::chords(bindings@).len() == bindings@.len());
    }
    if bindings.len() == 0 {
        return Err(BindingError::Missing);
    }
    Ok(bindings)
}

/// The order of the keys of a chord does not matter, but for the last one, which is the trigger and
/// one of its keys.
pub proof fn the_last_key_triggers(keys: Seq<Key>)
    requires
        keys.len() > 0,
    ensures
        chord_of(keys).trigger == keys.last(),
        chord_of(keys).keys.contains(keys.last()),
        forall|key: Key| chord_of(keys).keys.contains(key) <==> keys.contains(key),
{
    assert(keys.contains(keys.last()));
}

/// Whether a character is white space.
pub open spec fn is_blank(ch: char) -> bool {
    let code = ch as u32;
    9 <= code <= 13 || code == 32 || code == 0x85 || code == 0xa0 || code == 0x1680 || 0x2000
        <= code <= 0x200a || code == 0x2028 || code == 0x2029 || code == 0x202f || code == 0x205f
        || code == 0x3000
}

/// Whether a text has nothing but white space.
pub open spec fn is_blank_text(text: Seq<char>) -> bool {
    forall|at: int| 0 <= at < text.len() ==> is_blank(#[trigger] text[at])
}

/// Whether a text has nothing but white space.
pub fn is_blank_name(text: &str) -> (blank: bool)
    ensures
        blank == is_blank_text(text@),
{
    let count = text.unicode_len();
    let mut index: usize = 0;
    while index < count
        invariant
            count == text@.len(),
            index <= count,
            forall|at: int| 0 <= at < index ==> is_blank(#[trigger] text@[at]),
        decreases count - index,
    {
        let code = text.get_char(index) as u32;
        let blank = 9 <= code && code <= 13 || code == 32 || code == 0x85 || code == 0xa0 || code
            == 0x1680 || 0x2000 <= code && code <= 0x200a || code == 0x2028 || code == 0x2029
            || code == 0x202f || code == 0x205f || code == 0x3000;
        if !blank {
            assert(!is_blank(text@[index as int]));
            return false;
        }
        index = index + 1;
    }
    true
}

/// What is wrong with a device policy.
#[derive(Clone, Copy, Debug, PartialEq, Eq, Structural)]
pub enum PolicyError {
    /// There is both a whitelist and a list of groups.
    Both,
    /// A rule of the whitelist has no field.
    EmptyRule,
    /// The list of groups is empty.
    NoGroups,
    /// A group has a name without a visible character.
    BlankName,
    /// A group has the name of an earlier one.
    DuplicateName { group: usize },
    /// A group has no candidate.
    NoCandidates { group: usize },
    /// A candidate of a group has no field.
    EmptyCandidate { group: usize },
}

/// What is wrong with a group.
pub open spec fn group_error(groups: Seq<DeviceGroup>, at: int) -> Option<PolicyError> {
    let group = groups[at];
    if is_blank_text(group.name@) {
        Some(PolicyError::BlankName)
    } else if exists|earlier: int|
        0 <= earlier < at && (#[trigger] groups[earlier]).name@ == group.name@ {
        Some(PolicyError::DuplicateName { group: at as usize })
    } else if group.candidates@.len() == 0 {
        Some(PolicyError::NoCandidates { group: at as usize })
    } else if exists|candidate: int|
        0 <= candidate < group.candidates@.len() && (
        #[trigger] group.candidates@[candidate]).matcher.has_no_field() {
        Some(PolicyError::EmptyCandidate { group: at as usize })
    } else {
        None
    }
}

/// What is wrong with the first groups of a list: the first thing counts.
pub open spec fn first_group_error(groups: Seq<DeviceGroup>, count: int) -> Option<PolicyError>
    decreases count,
{
    if count <= 0 {
        None
    } else {
        match first_group_error(groups, count - 1) {
            Some(error) => Some(error),
            None => group_error(groups, count - 1),
        }
    }
}

/// What is wrong with the device policy of a configuration.
pub open spec fn policy_error(config: Config) -> Option<PolicyError> {
    if config.device_whitelist is Some && config.device_groups is Some {
        Some(PolicyError::Both)
    } else if config.device_whitelist matches Some(rules) && exists|at: int|
        0 <= at < rules@.len() && (#[trigger] rules@[at]).has_no_field() {
        Some(PolicyError::EmptyRule)
    } else {
        match config.device_groups {
            Some(groups) => if groups@.len() == 0 {
                Some(PolicyError::NoGroups)
            } else {
                first_group_error(groups@, groups@.len() as int)
            },
            None => None,
        }
    }
}

proof fn lemma_first_group_error(groups: Seq<DeviceGroup>, at: int, count: int)
    requires
        0 <= at < count,
        first_group_error(groups, at) is None,
        group_error(groups, at) is Some,
    ensures
        first_group_error(groups, count) == group_error(groups, at),
    decreases count,
{
    if count > at + 1 {
        lemma_first_group_error(groups, at, count - 1);
    }
}

fn any_rule_empty(rules: &Vec<DeviceMatch>) -> (empty: bool)
    ensures
        empty == exists|at: int| 0 <= at < rules@.len() && (#[trigger] rules@[at]).has_no_field(),
{
    let mut index: usize = 0;
    while index < rules.len()
        invariant
            index <= rules@.len(),
            forall|at: int| 0 <= at < index ==> !(#[trigger] rules@[at]).has_no_field(),
        decreases rules@.len() - index,
    {
        if rules[index].is_empty() {
            assert(rules@[index as int].has_no_field());
            return true;
        }
        index = index + 1;
    }
    false
}

fn any_candidate_empty(candidates: &Vec<GroupCandidate>) -> (empty: bool)
    ensures
        empty == exists|at: int|
            0 <= at < candidates@.len() && (#[trigger] candidates@[at]).matcher.has_no_field(),
{
    let mut index: usize = 0;
    while index < candidates.len()
        invariant
            index <= candidates@.len(),
            forall|at: int|
                0 <= at < index ==> !(#[trigger] candidates@[at]).matcher.has_no_field(),
        decreases candidates@.len() - index,
    {
        if candidates[index].matcher.is_empty() {
            assert(candidates@[index as int].matcher.has_no_field());
            return true;
        }
        index = index + 1;
    }
    false
}

fn check_group(groups: &Vec<DeviceGroup>, at: usize) -> (error: Option<PolicyError>)
    requires
        at < groups@.len(),
    ensures
        error == group_error(groups@, at as int),
{
    if is_blank_name(groups[at].name.as_str()) {
        return Some(PolicyError::BlankName);
    }
    let mut earlier: usize = 0;
    while earlier < at
        invariant
            earlier <= at < groups@.len(),
            forall|other: int|
                0 <= other < earlier ==> (#[trigger] groups@[other]).name@ != groups@[at as int].name@,
            !is_blank_text(groups@[at as int].name@),
        decreases at - earlier,
    {
        if groups[earlier].name == groups[at].name {
            assert(groups@[earlier as int].name@ == groups@[at as int].name@);
            return Some(PolicyError::DuplicateName { group: at });
        }
        earlier = earlier + 1;
    }
    if groups[at].candidates.len() == 0 {
        return Some(PolicyError::NoCandidates { group: at });
    }
    if any_candidate_empty(&groups[at].candidates) {
        return Some(PolicyError::EmptyCandidate { group: at });
    }
    None
}

/// What is wrong with the device policy of a configuration, if anything.
pub fn find_policy_error(config: &Config) -> (error: Option<PolicyError>)
    ensures
        error == policy_error(*config),
{
    if config.device_whitelist.is_some() && config.device_groups.is_some() {
        return Some(PolicyError::Both);
    }
    if let Some(rules) = &config.device_whitelist {
        if any_rule_empty(rules) {
            return Some(PolicyError::EmptyRule);
        }
    }
    if let Some(groups) = &config.device_groups {
        if groups.len() == 0 {
            return Some(PolicyError::NoGroups);
        }
        let mut index: usize = 0;
        while index < groups.len()
            invariant
                index <= groups@.len(),
                config.device_groups == Some(*groups),
                config.device_whitelist is None,
                groups@.len() > 0,
                first_group_error(groups@, index as int) is None,
            decreases groups@.len() - index,
        {
            let error = check_group(groups, index);
            if error.is_some() {
                proof {
                    lemma_first_group_error(groups@, index as int, groups@.len() as int);
                }
                return error;
            }
            index = index + 1;
        }
    }
    None
}

/// A text in quotes, with what is special in it escaped: the `Debug` form of `str`.
pub uninterp spec fn quoted(text: Seq<char>) -> Seq<char>;

/// `format!("{:?}", ..)` of a text: its `Debug` form, which depends on the text alone.
#[verifier::external_body]
pub(crate) fn quote(text: &str) -> (form: String)
    ensures
        form@ == quoted(text@),
{
    format!("{:?}", text)
}

/// The text of a policy error, with the quoted name of the group that it is about.
pub open spec fn policy_text(error: PolicyError, name: Seq<char>) -> Seq<char> {
    match error {
        PolicyError::Both => "device-whitelist and device-groups are mutually exclusive"@,
        PolicyError::EmptyRule =>
        "device-whitelist entries must contain at least one match field"@,
        PolicyError::NoGroups => "device-groups must contain at least one group"@,
        PolicyError::BlankName => "device-group names must not be empty"@,
        PolicyError::DuplicateName { .. } => "duplicate device-group name "@ + name,
        PolicyError::NoCandidates { .. } => "device-group "@ + name
            + " must contain at least one candidate"@,
        PolicyError::EmptyCandidate { .. } => "device-group "@ + name
            + " candidates must contain at least one match field"@,
    }
}

/// The text of a policy error, with the quoted name of the group that it is about.
pub fn policy_message(error: PolicyError, name: &str) -> (text: String)
    ensures
        text@ == policy_text(error, name@),
{
    let (start, named, end) = match error {
        PolicyError::Both => (
            "device-whitelist and device-groups are mutually exclusive",
            false,
            "",
        ),
        PolicyError::EmptyRule => (
            "device-whitelist entries must contain at least one match field",
            false,
            "",
        ),
        PolicyError::NoGroups => ("device-groups must contain at least one group", false, ""),
        PolicyError::BlankName => ("device-group names must not be empty", false, ""),
        PolicyError::DuplicateName { .. } => ("duplicate device-group name ", true, ""),
        PolicyError::NoCandidates { .. } => (
            "device-group ",
            true,
            " must contain at least one candidate",
        ),
        PolicyError::EmptyCandidate { .. } => (
            "device-group ",
            true,
            " candidates must contain at least one match field",
        ),
    };
    proof {
        reveal_strlit("");
    }
    let mut text = String::new();
    text.append(start);
    if named {
        text.append(name);
    }
    text.append(end);
    proof {
        assert(text@ =~= policy_text(error, name@));
    }
    text
}

/// The group that a policy error is about.
pub open spec fn group_of(error: PolicyError) -> Option<int> {
    match error {
        PolicyError::DuplicateName { group } => Some(group as int),
        PolicyError::NoCandidates { group } => Some(group as int),
        PolicyError::EmptyCandidate { group } => Some(group as int),
        _ => None,
    }
}

proof fn lemma_error_group(groups: Seq<DeviceGroup>, count: int)
    requires
        0 <= count <= groups.len() <= usize::MAX,
    ensures
        first_group_error(groups, count) matches Some(error) ==> (group_of(error) matches Some(
            group,
        ) ==> 0 <= group < groups.len()),
    decreases count,
{
    if count > 0 {
        lemma_error_group(groups, count - 1);
    }
}

/// Checks the device policy of a configuration: a whitelist or groups, not both, without empty
/// rules, and groups with names of their own and candidates.
pub fn validate_device_policy(config: &Config) -> (result: Result<(), String>)
    ensures
        match (policy_error(*config), result) {
            (None, Ok(_)) => true,
            (Some(error), Err(text)) => text@ == policy_text(
                error,
                match group_of(error) {
                    Some(group) => quoted((config.device_groups->0)@[group].name@),
                    None => Seq::empty(),
                },
            ),
            _ => false,
        },
{
    match find_policy_error(config) {
        None => Ok(()),
        Some(error) => {
            let group = match error {
                PolicyError::DuplicateName { group } => Some(group),
                PolicyError::NoCandidates { group } => Some(group),
                PolicyError::EmptyCandidate { group } => Some(group),
                _ => None,
            };
            let name = match (group, &config.device_groups) {
                (Some(group), Some(groups)) => {
                    proof {
                        assert(groups.len() == groups@.len());
                        lemma_error_group(groups@, groups@.len() as int);
                    }
                    quote(groups[group].name.as_str())
                },
                _ => String::new(),
            };
            Err(policy_message(error, name.as_str()))
        },
    }
}

/// Whether a rule of the whitelist may match several nodes of one device.
pub fn is_broad_device_whitelist(device_whitelist: &Option<Vec<DeviceMatch>>) -> (broad: bool)
    ensures
        broad == (device_whitelist matches Some(rules) && exists|at: int|
            0 <= at < rules@.len() && (#[trigger] rules@[at]).path is None),
{
    if let Some(rules) = device_whitelist {
        let mut index: usize = 0;
        while index < rules.len()
            invariant
                index <= rules@.len(),
                *device_whitelist == Some(*rules),
                forall|at: int| 0 <= at < index ==> (#[trigger] rules@[at]).path is Some,
            decreases rules@.len() - index,
        {
            if rules[index].path.is_none() {
                assert(rules@[index as int].path is None);
                return true;
            }
            index = index + 1;
        }
    }
    false
}

/// The number of updates that may wait for a client. None at all is refused.
pub fn client_queue_size(config: &Config) -> (result: Result<usize, &'static str>)
    ensures
        ({
            let size = match config.client_queue_size {
                Some(size) => size,
                None => DEFAULT_CLIENT_QUEUE_SIZE,
            };
            match result {
                Ok(given) => size > 0 && given == size,
                Err(text) => size == 0 && text@ == "client-queue-size must be greater than zero"@,
            }
        }),
{
    let size: usize = match config.client_queue_size {
        Some(size) => size,
        None => DEFAULT_CLIENT_QUEUE_SIZE,
    };
    if size == 0 {
        return Err("client-queue-size must be greater than zero");
    }
    Ok(size)
}

/// Whether the keys of chords reach the output on which they are pressed. They do, unless the
/// configuration says otherwise.
pub fn propagates_switch_keys(config: &Config) -> (propagates: bool)
    ensures
        propagates == (config.propagate_switch_keys != Some(false)),
{
    match config.propagate_switch_keys {
        Some(propagates) => propagates,
        None => true,
    }
}

} // verus!
