//! The description of a device for people who write the configuration.

use vstd::prelude::*;

use crate::config::{DeviceGroup, DeviceMatch};
use crate::interceptor::{DeviceCapabilities, DeviceFacts, DeviceInfo, DeviceOrigin};
use crate::text::{push_char, push_decimal, push_hex4};

verus! {

/// The text that some bytes stand for, with what is no UTF-8 replaced.
pub uninterp spec fn lossy(bytes: Seq<u8>) -> Seq<char>;

/// `String::from_utf8_lossy`: the text that some bytes stand for. Bytes that are UTF-8 are decoded.
#[verifier::external_body]
fn to_text(bytes: &[u8]) -> (text: String)
    ensures
        text@ == lossy(bytes@),
        vstd::utf8::valid_utf8(bytes@) ==> text@ == vstd::utf8::decode_utf8(bytes@),
{
    String::from_utf8_lossy(bytes).into_owned()
}

pub open spec fn origin_text(origin: DeviceOrigin) -> Seq<char> {
    match origin {
        DeviceOrigin::Physical => "physical"@,
        DeviceOrigin::Virtual => "virtual"@,
    }
}

pub fn origin_name(origin: DeviceOrigin) -> (name: &'static str)
    ensures
        name@ == origin_text(origin),
{
    match origin {
        DeviceOrigin::Physical => "physical",
        DeviceOrigin::Virtual => "virtual",
    }
}

/// The name of a bus type in the Linux input subsystem.
pub open spec fn bustype_text(bustype: u16) -> Option<Seq<char>> {
    match bustype {
        0x0001 => Some("BUS_PCI"@),
        0x0002 => Some("BUS_ISAPNP"@),
        0x0003 => Some("BUS_USB"@),
        0x0004 => Some("BUS_HIL"@),
        0x0005 => Some("BUS_BLUETOOTH"@),
        0x0006 => Some("BUS_VIRTUAL"@),
        0x0010 => Some("BUS_ISA"@),
        0x0011 => Some("BUS_I8042"@),
        0x0012 => Some("BUS_XTKBD"@),
        0x0013 => Some("BUS_RS232"@),
        0x0014 => Some("BUS_GAMEPORT"@),
        0x0015 => Some("BUS_PARPORT"@),
        0x0016 => Some("BUS_AMIGA"@),
        0x0017 => Some("BUS_ADB"@),
        0x0018 => Some("BUS_I2C"@),
        0x0019 => Some("BUS_HOST"@),
        0x001a => Some("BUS_GSC"@),
        0x001b => Some("BUS_ATARI"@),
        0x001c => Some("BUS_SPI"@),
        0x001d => Some("BUS_RMI"@),
        0x001e => Some("BUS_CEC"@),
        0x001f => Some("BUS_INTEL_ISHTP"@),
        0x0020 => Some("BUS_AMD_SFH"@),
        _ => None,
    }
}

/// The name of a bus type in the Linux input subsystem.
pub fn bustype_name(bustype: u16) -> (name: Option<&'static str>)
    ensures
        match name {
            Some(name) => bustype_text(bustype) == Some(name@),
            None => bustype_text(bustype) is None,
        },
{
    match bustype {
        0x0001 => Some("BUS_PCI"),
        0x0002 => Some("BUS_ISAPNP"),
        0x0003 => Some("BUS_USB"),
        0x0004 => Some("BUS_HIL"),
        0x0005 => Some("BUS_BLUETOOTH"),
        0x0006 => Some("BUS_VIRTUAL"),
        0x0010 => Some("BUS_ISA"),
        0x0011 => Some("BUS_I8042"),
        0x0012 => Some("BUS_XTKBD"),
        0x0013 => Some("BUS_RS232"),
        0x0014 => Some("BUS_GAMEPORT"),
        0x0015 => Some("BUS_PARPORT"),
        0x0016 => Some("BUS_AMIGA"),
        0x0017 => Some("BUS_ADB"),
        0x0018 => Some("BUS_I2C"),
        0x0019 => Some("BUS_HOST"),
        0x001a => Some("BUS_GSC"),
        0x001b => Some("BUS_ATARI"),
        0x001c => Some("BUS_SPI"),
        0x001d => Some("BUS_RMI"),
        0x001e => Some("BUS_CEC"),
        0x001f => Some("BUS_INTEL_ISHTP"),
        0x0020 => Some("BUS_AMD_SFH"),
        _ => None,
    }
}

/// A word that follows others in a list.
pub open spec fn listed(before: Seq<char>, present: bool, word: Seq<char>) -> Seq<char> {
    if !present {
        before
    } else if before.len() == 0 {
        word
    } else {
        before + ", "@ + word
    }
}

/// The kinds of events of a device, as a list in brackets.
pub open spec fn capability_text(capabilities: DeviceCapabilities) -> Seq<char> {
    let keys = listed(seq![], capabilities.key, "key"@);
    let axes = listed(keys, capabilities.relative, "relative"@);
    "["@ + listed(axes, capabilities.absolute, "absolute"@) + "]"@
}

fn push_listed(text: &mut String, present: bool, word: &str)
    requires
        word@.len() > 0,
    ensures
        final(text)@ == listed(old(text)@, present, word@),
{
    if present {
        if text.as_str().unicode_len() > 0 {
            text.append(", ");
            text.append(word);
        } else {
            text.append(word);
            proof {
                assert(text@ =~= word@);
            }
        }
    }
}

/// The kinds of events of a device, as a list in brackets.
pub fn capability_summary(capabilities: DeviceCapabilities) -> (text: String)
    ensures
        text@ == capability_text(capabilities),
{
    proof {
        reveal_strlit("key");
        reveal_strlit("relative");
        reveal_strlit("absolute");
    }
    let mut names = String::new();
    push_listed(&mut names, capabilities.key, "key");
    push_listed(&mut names, capabilities.relative, "relative");
    push_listed(&mut names, capabilities.absolute, "absolute");
    let mut text = String::new();
    text.append("[");
    text.append(names.as_str());
    text.append("]");
    proof {
        assert(text@ =~= capability_text(capabilities));
    }
    text
}

/// How a character is written in a quoted text.
pub open spec fn escaped_char(ch: char) -> Seq<char> {
    if ch == '\\' {
        seq!['\\', '\\']
    } else if ch == '"' {
        seq!['\\', '"']
    } else if ch == '\n' {
        seq!['\\', 'n']
    } else if ch == '\r' {
        seq!['\\', 'r']
    } else if ch == '\t' {
        seq!['\\', 't']
    } else {
        seq![ch]
    }
}

/// How characters are written in a quoted text.
pub open spec fn escaped(value: Seq<char>) -> Seq<char>
    decreases value.len(),
{
    if value.len() == 0 {
        seq![]
    } else {
        escaped_char(value[0]) + escaped(value.drop_first())
    }
}

/// A quoted text.
pub open spec fn toml_text(value: Seq<char>) -> Seq<char> {
    seq!['"'] + escaped(value) + seq!['"']
}

/// A text in quotes, as TOML writes it.
pub fn toml_string(value: &str) -> (text: String)
    ensures
        text@ == toml_text(value@),
{
    let mut text = String::new();
    push_char(&mut text, '"');
    let count = value.unicode_len();
    let mut index: usize = 0;
    proof {
        assert(text@ =~= seq!['"']);
        assert(value@.skip(0) =~= value@);
    }
    while index < count
        invariant
            count == value@.len(),
            index <= count,
            text@ + escaped(value@.skip(index as int)) == seq!['"'] + escaped(value@),
        decreases count - index,
    {
        let ghost before = text@;
        let ghost rest = value@.skip(index as int);
        let ch = value.get_char(index);
        if ch == '\\' {
            push_char(&mut text, '\\');
            push_char(&mut text, '\\');
        } else if ch == '"' {
            push_char(&mut text, '\\');
            push_char(&mut text, '"');
        } else if ch == '\n' {
            push_char(&mut text, '\\');
            push_char(&mut text, 'n');
        } else if ch == '\r' {
            push_char(&mut text, '\\');
            push_char(&mut text, 'r');
        } else if ch == '\t' {
            push_char(&mut text, '\\');
            push_char(&mut text, 't');
        } else {
            push_char(&mut text, ch);
        }
        proof {
            assert(text@ =~= before + escaped_char(ch));
            assert(rest.drop_first() =~= value@.skip(index + 1));
            assert(rest[0] == ch);
            assert(text@ + escaped(value@.skip(index + 1)) =~= before + escaped(rest));
        }
        index = index + 1;
    }
    proof {
        assert(value@.skip(index as int) =~= Seq::<char>::empty());
        assert(text@ =~= seq!['"'] + escaped(value@));
    }
    push_char(&mut text, '"');
    proof {
        assert(text@ =~= toml_text(value@));
    }
    text
}

/// The character that an escape stands for.
pub open spec fn unescaped_char(ch: char) -> char {
    if ch == 'n' {
        '\n'
    } else if ch == 'r' {
        '\r'
    } else if ch == 't' {
        '\t'
    } else {
        ch
    }
}

/// The characters that a text with escapes stands for.
pub open spec fn unescaped(text: Seq<char>) -> Seq<char>
    decreases text.len(),
{
    if text.len() == 0 {
        seq![]
    } else if text[0] == '\\' && text.len() > 1 {
        seq![unescaped_char(text[1])] + unescaped(text.skip(2))
    } else {
        seq![text[0]] + unescaped(text.drop_first())
    }
}

/// A quoted text stands for the text that was quoted.
pub proof fn quoted_texts_read_back(value: Seq<char>)
    ensures
        unescaped(escaped(value)) == value,
    decreases value.len(),
{
    if value.len() > 0 {
        let rest = value.drop_first();
        let tail = escaped(rest);
        let text = escaped(value);
        quoted_texts_read_back(rest);
        let head = escaped_char(value[0]);
        if head.len() == 2 {
            assert(text[0] == head[0] && text[1] == head[1]);
            assert(text.skip(2) =~= tail);
        } else {
            assert(text[0] == value[0]);
            assert(text.drop_first() =~= tail);
        }
        assert(unescaped(text) =~= seq![value[0]] + rest);
        assert(value =~= seq![value[0]] + rest);
    }
}

/// What the paths of some rules lead to.
pub open spec fn resolved_views(resolved: Seq<Option<Vec<u8>>>) -> Seq<Option<Seq<u8>>> {
    resolved.map_values(
        |path: Option<Vec<u8>>|
            match path {
                Some(path) => Some(path@),
                None => None,
            },
    )
}

/// Whether a device matches one of some rules.
pub open spec fn any_accepts(
    rules: Seq<DeviceMatch>,
    resolved: Seq<Option<Seq<u8>>>,
    facts: DeviceFacts,
) -> bool {
    exists|at: int| 0 <= at < rules.len() && (#[trigger] rules[at]).accepts(facts, resolved[at])
}

/// Whether a device matches one of some rules, with what the path of each rule leads to.
pub fn any_matches(
    rules: &[DeviceMatch],
    resolved: &[Option<Vec<u8>>],
    info: &DeviceInfo,
) -> (matched: bool)
    requires
        rules@.len() == resolved@.len(),
    ensures
        matched == any_accepts(rules@, resolved_views(resolved@), info@),
{
    let mut index: usize = 0;
    let ghost paths = resolved_views(resolved@);
    while index < rules.len()
        invariant
            index <= rules@.len(),
            rules@.len() == resolved@.len(),
            paths == resolved_views(resolved@),
            forall|at: int|
                0 <= at < index ==> !(#[trigger] rules@[at]).accepts(info@, paths[at]),
        decreases rules@.len() - index,
    {
        let path = match &resolved[index] {
            Some(path) => Some(path),
            None => None,
        };
        if rules[index].matches(info, path) {
            assert(rules@[index as int].accepts(info@, paths[index as int]));
            return true;
        }
        index = index + 1;
    }
    false
}

/// Whether the whitelist lets a device through.
#[derive(Clone, Copy, Debug, PartialEq, Eq, Structural)]
pub enum Whitelisted {
    Yes,
    No,
    /// There is no whitelist.
    Disabled,
}

impl Whitelisted {
    pub open spec fn text(self) -> Seq<char> {
        match self {
            Whitelisted::Yes => "yes"@,
            Whitelisted::No => "no"@,
            Whitelisted::Disabled => "disabled"@,
        }
    }

    pub fn label(self) -> (label: &'static str)
        ensures
            label@ == self.text(),
    {
        match self {
            Whitelisted::Yes => "yes",
            Whitelisted::No => "no",
            Whitelisted::Disabled => "disabled",
        }
    }
}

/// Whether the whitelist lets a device through, with what the path of each rule leads to.
pub fn whitelisted(
    whitelist: Option<&[DeviceMatch]>,
    resolved: &[Option<Vec<u8>>],
    info: &DeviceInfo,
) -> (label: Whitelisted)
    requires
        whitelist matches Some(rules) ==> rules@.len() == resolved@.len(),
    ensures
        label == match whitelist {
            Some(rules) => if any_accepts(rules@, resolved_views(resolved@), info@) {
                Whitelisted::Yes
            } else {
                Whitelisted::No
            },
            None => Whitelisted::Disabled,
        },
{
    match whitelist {
        Some(rules) => {
            if any_matches(rules, resolved, info) {
                Whitelisted::Yes
            } else {
                Whitelisted::No
            }
        },
        None => Whitelisted::Disabled,
    }
}

/// Whether a candidate of a group is the first one of it that a device matches.
pub open spec fn is_first_candidate(
    group: DeviceGroup,
    resolved: Seq<Option<Seq<u8>>>,
    facts: DeviceFacts,
    at: int,
) -> bool {
    &&& 0 <= at < group.candidates@.len()
    &&& group.candidates@[at].matcher.accepts(facts, resolved[at])
    &&& forall|earlier: int|
        0 <= earlier < at ==> !(#[trigger] group.candidates@[earlier]).matcher.accepts(
            facts,
            resolved[earlier],
        )
}

/// Whether a device matches no candidate of a group.
pub open spec fn is_outside(
    group: DeviceGroup,
    resolved: Seq<Option<Seq<u8>>>,
    facts: DeviceFacts,
) -> bool {
    forall|at: int|
        0 <= at < group.candidates@.len() ==> !(#[trigger] group.candidates@[at]).matcher.accepts(
            facts,
            resolved[at],
        )
}

/// The first candidate of a group that a device matches.
fn candidate_match(
    group: &DeviceGroup,
    resolved: &[Option<Vec<u8>>],
    info: &DeviceInfo,
) -> (found: Option<usize>)
    requires
        group.candidates@.len() == resolved@.len(),
    ensures
        match found {
            Some(at) => is_first_candidate(*group, resolved_views(resolved@), info@, at as int),
            None => is_outside(*group, resolved_views(resolved@), info@),
        },
{
    let ghost paths = resolved_views(resolved@);
    let mut index: usize = 0;
    while index < group.candidates.len()
        invariant
            index <= group.candidates@.len(),
            group.candidates@.len() == resolved@.len(),
            paths == resolved_views(resolved@),
            forall|at: int|
                0 <= at < index ==> !(#[trigger] group.candidates@[at]).matcher.accepts(
                    info@,
                    paths[at],
                ),
        decreases group.candidates@.len() - index,
    {
        let path = match &resolved[index] {
            Some(path) => Some(path),
            None => None,
        };
        if group.candidates[index].matcher.matches(info, path) {
            assert(group.candidates@[index as int].matcher.accepts(info@, paths[index as int]));
            return Some(index);
        }
        index = index + 1;
    }
    None
}

/// What the paths of the candidates of some groups lead to.
pub open spec fn resolved_groups(resolved: Seq<Vec<Option<Vec<u8>>>>) -> Seq<
    Seq<Option<Seq<u8>>>,
> {
    resolved.map_values(|paths: Vec<Option<Vec<u8>>>| resolved_views(paths@))
}

/// The first group that a device matches, and the first candidate of it that it matches.
pub fn group_match(
    groups: &[DeviceGroup],
    resolved: &[Vec<Option<Vec<u8>>>],
    info: &DeviceInfo,
) -> (found: Option<(usize, usize)>)
    requires
        groups@.len() == resolved@.len(),
        forall|at: int|
            0 <= at < groups@.len() ==> (#[trigger] groups@[at]).candidates@.len()
                == resolved@[at]@.len(),
    ensures
        match found {
            Some((group, candidate)) => {
                &&& group < groups@.len()
                &&& is_first_candidate(
                    groups@[group as int],
                    resolved_groups(resolved@)[group as int],
                    info@,
                    candidate as int,
                )
                &&& forall|earlier: int|
                    0 <= earlier < group ==> is_outside(
                        #[trigger] groups@[earlier],
                        resolved_groups(resolved@)[earlier],
                        info@,
                    )
            },
            None => forall|at: int|
                0 <= at < groups@.len() ==> is_outside(
                    #[trigger] groups@[at],
                    resolved_groups(resolved@)[at],
                    info@,
                ),
        },
{
    let ghost paths = resolved_groups(resolved@);
    let mut index: usize = 0;
    while index < groups.len()
        invariant
            index <= groups@.len(),
            groups@.len() == resolved@.len(),
            paths == resolved_groups(resolved@),
            forall|at: int|
                0 <= at < groups@.len() ==> (#[trigger] groups@[at]).candidates@.len()
                    == resolved@[at]@.len(),
            forall|at: int|
                0 <= at < index ==> is_outside(#[trigger] groups@[at], paths[at], info@),
        decreases groups@.len() - index,
    {
        assert(groups@[index as int].candidates@.len() == resolved@[index as int]@.len());
        if let Some(candidate) = candidate_match(
            &groups[index],
            resolved[index].as_slice(),
            info,
        ) {
            return Some((index, candidate));
        }
        index = index + 1;
    }
    None
}

/// The lines about the group of a device.
pub open spec fn group_text(
    groups: Option<Seq<DeviceGroup>>,
    found: Option<(usize, usize)>,
) -> Seq<char> {
    match (groups, found) {
        (Some(groups), Some((group, candidate))) => "matching-group = "@ + toml_text(
            groups[group as int].name@,
        ) + "\nmatching-group-index = "@ + crate::text::decimal((group + 1) as nat)
            + "\nmatching-candidate-index = "@ + crate::text::decimal((candidate + 1) as nat)
            + "\nconfigured-grab-delay-ms = "@ + crate::text::decimal(
            match groups[group as int].candidates@[candidate as int].grab_delay_ms {
                Some(delay) => delay as nat,
                None => 0,
            },
        ) + "\n"@,
        (Some(_), None) => "matching-group = none\n"@,
        (None, _) => "matching-group = disabled\n"@,
    }
}

/// Adds the lines about the group of a device.
fn push_group(text: &mut String, groups: Option<&[DeviceGroup]>, found: Option<(usize, usize)>)
    requires
        groups matches Some(groups) ==> (found matches Some((group, candidate)) ==> group
            < groups@.len() && candidate < groups@[group as int].candidates@.len()),
    ensures
        final(text)@ == old(text)@ + group_text(
            match groups {
                Some(groups) => Some(groups@),
                None => None,
            },
            found,
        ),
{
    let ghost before = text@;
    match (groups, found) {
        (Some(groups), Some((group, candidate))) => {
            let delay: u64 = match groups[group].candidates[candidate].grab_delay_ms {
                Some(delay) => delay,
                None => 0,
            };
            let name = toml_string(groups[group].name.as_str());
            text.append("matching-group = ");
            text.append(name.as_str());
            text.append("\nmatching-group-index = ");
            assert(group < groups.len());
            push_decimal(text, group as u64 + 1);
            text.append("\nmatching-candidate-index = ");
            assert(candidate < groups@[group as int].candidates.len());
            push_decimal(text, candidate as u64 + 1);
            text.append("\nconfigured-grab-delay-ms = ");
            push_decimal(text, delay);
            text.append("\n");
            proof {
                assert(text@ =~= before + group_text(Some(groups@), found));
            }
        },
        (Some(_), None) => {
            text.append("matching-group = none\n");
        },
        (None, _) => {
            text.append("matching-group = disabled\n");
        },
    }
}

/// The lines of some names of a device.
pub open spec fn alias_lines(aliases: Seq<Seq<char>>) -> Seq<char>
    decreases aliases.len(),
{
    if aliases.len() == 0 {
        seq![]
    } else {
        alias_lines(aliases.drop_last()) + "    "@ + toml_text(aliases.last()) + ",\n"@
    }
}

/// The lines about the other names of a device.
pub open spec fn alias_text(aliases: Seq<Seq<char>>) -> Seq<char> {
    if aliases.len() == 0 {
        "aliases = []\n"@
    } else {
        "aliases = [\n"@ + alias_lines(aliases) + "]\n"@
    }
}

pub open spec fn string_views(texts: Seq<String>) -> Seq<Seq<char>> {
    texts.map_values(|text: String| text@)
}

/// Adds the lines about the other names of a device.
fn push_aliases(text: &mut String, aliases: &Vec<String>)
    ensures
        final(text)@ == old(text)@ + alias_text(string_views(aliases@)),
{
    let ghost before = text@;
    let ghost names = string_views(aliases@);
    if aliases.len() == 0 {
        text.append("aliases = []\n");
        return;
    }
    text.append("aliases = [\n");
    let ghost opened = text@;
    let mut index: usize = 0;
    proof {
        assert(names.take(0) =~= Seq::<Seq<char>>::empty());
        assert(text@ =~= opened + alias_lines(names.take(0)));
    }
    while index < aliases.len()
        invariant
            index <= aliases@.len(),
            names == string_views(aliases@),
            text@ == opened + alias_lines(names.take(index as int)),
        decreases aliases@.len() - index,
    {
        let ghost lines = alias_lines(names.take(index as int));
        let quoted = toml_string(aliases[index].as_str());
        text.append("    ");
        text.append(quoted.as_str());
        text.append(",\n");
        proof {
            assert(names.take(index + 1).drop_last() =~= names.take(index as int));
            assert(names.take(index + 1).last() == names[index as int]);
            assert(text@ =~= opened + alias_lines(names.take(index + 1)));
        }
        index = index + 1;
    }
    text.append("]\n");
    proof {
        assert(names.take(index as int) =~= names);
        assert(text@ =~= before + alias_text(names));
    }
}

/// A line with a number of 16 bits.
pub open spec fn number_line(key: Seq<char>, value: u16) -> Seq<char> {
    key + crate::text::hex4(value) + "\n"@
}

/// The lines about the facts of a device.
pub open spec fn facts_text(
    path: Seq<char>,
    sysfs_path: Seq<char>,
    name: Seq<char>,
    facts: DeviceFacts,
) -> Seq<char> {
    "path = "@ + path + "\nsysfs-path = "@ + sysfs_path + "\norigin = "@ + origin_text(facts.origin)
        + "\nname = "@ + name + "\nbustype = "@ + crate::text::hex4(facts.bustype) + (
    match bustype_text(facts.bustype) {
        Some(bus) => " # "@ + bus,
        None => Seq::empty(),
    }) + "\n"@ + number_line("vendor = "@, facts.vendor) + number_line(
        "product = "@,
        facts.product,
    ) + number_line("version = "@, facts.version) + "capabilities = "@ + capability_text(
        facts.capabilities,
    ) + "\n"@
}

/// The lines about the facts of a device. The name is given as it is to be shown.
pub fn describe_facts(path: &str, sysfs_path: &str, name: &str, info: &DeviceInfo) -> (text: String)
    ensures
        text@ == facts_text(path@, sysfs_path@, name@, info@),
{
    let mut text = String::new();
    text.append("path = ");
    text.append(path);
    text.append("\nsysfs-path = ");
    text.append(sysfs_path);
    text.append("\norigin = ");
    text.append(origin_name(info.origin()));
    text.append("\nname = ");
    text.append(name);
    text.append("\nbustype = ");
    push_hex4(&mut text, info.bustype());
    if let Some(bus) = bustype_name(info.bustype()) {
        text.append(" # ");
        text.append(bus);
    }
    text.append("\n");
    text.append("vendor = ");
    push_hex4(&mut text, info.vendor());
    text.append("\n");
    text.append("product = ");
    push_hex4(&mut text, info.product());
    text.append("\n");
    text.append("version = ");
    push_hex4(&mut text, info.version());
    text.append("\n");
    text.append("capabilities = ");
    let capabilities = capability_summary(info.capabilities());
    text.append(capabilities.as_str());
    text.append("\n");
    proof {
        assert(text@ =~= facts_text(path@, sysfs_path@, name@, info@));
    }
    text
}

/// The description of a device.
pub open spec fn device_text(
    path: Seq<char>,
    sysfs_path: Seq<char>,
    name: Seq<char>,
    facts: DeviceFacts,
    whitelisted: Whitelisted,
    group: Seq<char>,
    aliases: Seq<Seq<char>>,
) -> Seq<char> {
    facts_text(path, sysfs_path, name, facts) + "whitelisted = "@ + whitelisted.text() + "\n"@
        + group + alias_text(aliases) + "\n"@
}

/// The description of a device, with its paths and its name as they are to be shown, and what the
/// policy makes of it.
pub fn describe(
    path: &str,
    sysfs_path: &str,
    name: &str,
    info: &DeviceInfo,
    whitelisted: Whitelisted,
    groups: Option<&[DeviceGroup]>,
    found: Option<(usize, usize)>,
    aliases: &Vec<String>,
) -> (text: String)
    requires
        groups matches Some(groups) ==> (found matches Some((group, candidate)) ==> group
            < groups@.len() && candidate < groups@[group as int].candidates@.len()),
    ensures
        text@ == device_text(
            path@,
            sysfs_path@,
            name@,
            info@,
            whitelisted,
            group_text(
                match groups {
                    Some(groups) => Some(groups@),
                    None => None,
                },
                found,
            ),
            string_views(aliases@),
        ),
{
    let mut text = describe_facts(path, sysfs_path, name, info);
    text.append("whitelisted = ");
    text.append(whitelisted.label());
    text.append("\n");
    push_group(&mut text, groups, found);
    push_aliases(&mut text, aliases);
    text.append("\n");
    text
}

/// The texts of the paths of some names.
pub open spec fn lossy_all(paths: Seq<Vec<u8>>) -> Seq<Seq<char>> {
    paths.map_values(|path: Vec<u8>| lossy(path@))
}

/// The description of a device, with its name as it is to be shown, and what the policy makes of it.
pub fn describe_device(
    info: &DeviceInfo,
    name: &str,
    whitelisted: Whitelisted,
    groups: Option<&[DeviceGroup]>,
    found: Option<(usize, usize)>,
    aliases: &[Vec<u8>],
) -> (text: String)
    requires
        groups matches Some(groups) ==> (found matches Some((group, candidate)) ==> group
            < groups@.len() && candidate < groups@[group as int].candidates@.len()),
    ensures
        text@ == device_text(
            lossy(info@.path),
            lossy(info@.sysfs_path),
            name@,
            info@,
            whitelisted,
            group_text(
                match groups {
                    Some(groups) => Some(groups@),
                    None => None,
                },
                found,
            ),
            lossy_all(aliases@),
        ),
{
    let path = to_text(info.path().as_slice());
    let sysfs_path = to_text(info.sysfs_path().as_slice());
    let mut names: Vec<String> = Vec::new();
    let ghost all = lossy_all(aliases@);
    let mut index: usize = 0;
    while index < aliases.len()
        invariant
            index <= aliases@.len(),
            all == lossy_all(aliases@),
            string_views(names@) == all.take(index as int),
        decreases aliases@.len() - index,
    {
        let ghost before = names@;
        let alias = to_text(aliases[index].as_slice());
        let ghost shown = alias@;
        names.push(alias);
        proof {
            assert(string_views(names@) =~= string_views(before).push(shown));
            assert(all.take(index + 1) =~= all.take(index as int).push(all[index as int]));
        }
        index = index + 1;
    }
    proof {
        assert(all.take(index as int) =~= all);
    }
    describe(
        path.as_str(),
        sysfs_path.as_str(),
        name,
        info,
        whitelisted,
        groups,
        found,
        &names,
    )
}

} // verus!
