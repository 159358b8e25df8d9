//! What the listing of devices tells.

use vstd::prelude::*;

use crate::config::DeviceGroup;
use crate::interceptor::{DeviceCapabilities, DeviceFacts, DeviceOrigin};
use crate::listing::Whitelisted;

verus! {

/// A line: what it is about, and what it tells of it.
pub open spec fn line(key: Seq<char>, value: Seq<char>) -> Seq<char> {
    key + " = "@ + value + "\n"@
}

/// Whether a text has another one in it, at the start of a line.
#[verifier::opaque]
pub open spec fn has_line(text: Seq<char>, line: Seq<char>) -> bool {
    exists|from: int| #[trigger] has_line_at(text, line, from)
}

/// Whether a text has another one at some point, at the start of a line.
pub open spec fn has_line_at(text: Seq<char>, line: Seq<char>, from: int) -> bool {
    &&& 0 <= from <= from + line.len() <= text.len()
    &&& text.subrange(from, (from + line.len()) as int) == line
    &&& from == 0 || text[from - 1] == '\n'
}

proof fn lemma_has_line(before: Seq<char>, line: Seq<char>, after: Seq<char>)
    requires
        before.len() == 0 || before.last() == '\n',
    ensures
        has_line(before + line + after, line),
{
    reveal(has_line);
    let text = before + line + after;
    let from = before.len() as int;
    assert(text.subrange(from, (from + line.len()) as int) =~= line);
    assert(has_line_at(text, line, from));
}

proof fn lemma_keeps_line(before: Seq<char>, line: Seq<char>, more: Seq<char>)
    requires
        has_line(before, line),
    ensures
        has_line(before + more, line),
{
    reveal(has_line);
    let text = before + more;
    let from = choose|from: int| #[trigger] has_line_at(before, line, from);
    assert(text.subrange(from, (from + line.len()) as int) =~= before.subrange(
        from,
        (from + line.len()) as int,
    ));
    assert(has_line_at(text, line, from));
}

/// The words of a list in brackets.
pub open spec fn bracketed(words: Seq<Seq<char>>) -> Seq<char> {
    "["@ + joined(words) + "]"@
}

/// Words with commas between them.
pub open spec fn joined(words: Seq<Seq<char>>) -> Seq<char>
    decreases words.len(),
{
    if words.len() == 0 {
        seq![]
    } else if words.len() == 1 {
        words[0]
    } else {
        joined(words.drop_last()) + ", "@ + words.last()
    }
}

/// The kinds of events of a device are listed one after the other, each exactly if the device has
/// it, in the order of keys, relative axes and absolute axes.
pub proof fn capabilities_are_listed_in_order(capabilities: DeviceCapabilities)
    ensures
        crate::listing::capability_text(capabilities) == bracketed(
            (if capabilities.key {
                seq!["key"@]
            } else {
                seq![]
            }) + (if capabilities.relative {
                seq!["relative"@]
            } else {
                seq![]
            }) + (if capabilities.absolute {
                seq!["absolute"@]
            } else {
                seq![]
            }),
        ),
{
    reveal_strlit("key");
    reveal_strlit("relative");
    reveal_strlit("absolute");
    reveal_with_fuel(joined, 4);
    let keys = if capabilities.key {
        seq!["key"@]
    } else {
        seq![]
    };
    let axes = if capabilities.relative {
        seq!["relative"@]
    } else {
        seq![]
    };
    let ranges = if capabilities.absolute {
        seq!["absolute"@]
    } else {
        seq![]
    };
    let words = keys + axes + ranges;
    if capabilities.absolute {
        assert(words.drop_last() =~= keys + axes);
        assert(words.last() == "absolute"@);
    } else {
        assert(words =~= keys + axes);
    }
    if capabilities.relative {
        assert((keys + axes).drop_last() =~= keys);
        assert((keys + axes).last() == "relative"@);
    } else {
        assert(keys + axes =~= keys);
    }
    let text = joined(words);
    let first = joined(keys);
    let second = joined(keys + axes);
    assert(first == crate::listing::listed(seq![], capabilities.key, "key"@));
    assert(second == crate::listing::listed(first, capabilities.relative, "relative"@));
    assert(text == crate::listing::listed(second, capabilities.absolute, "absolute"@));
}

/// What a listing tells of a device: its paths, where it comes from, its name, its bus, its numbers
/// and the kinds of its events, each in a line of its own.
pub proof fn facts_are_told_line_by_line(
    path: Seq<char>,
    sysfs_path: Seq<char>,
    name: Seq<char>,
    facts: DeviceFacts,
)
    ensures
        ({
            let text = crate::listing::facts_text(path, sysfs_path, name, facts);
            let bus = crate::text::hex4(facts.bustype) + (match crate::listing::bustype_text(
                facts.bustype,
            ) {
                Some(bus) => " # "@ + bus,
                None => Seq::empty(),
            });
            text == line("path"@, path) + line("sysfs-path"@, sysfs_path) + line(
                "origin"@,
                match facts.origin {
                    DeviceOrigin::Physical => "physical"@,
                    DeviceOrigin::Virtual => "virtual"@,
                },
            ) + line("name"@, name) + line("bustype"@, bus) + line(
                "vendor"@,
                crate::text::hex4(facts.vendor),
            ) + line("product"@, crate::text::hex4(facts.product)) + line(
                "version"@,
                crate::text::hex4(facts.version),
            ) + line("capabilities"@, crate::listing::capability_text(facts.capabilities))
        }),
{
    reveal_strlit("path = ");
    reveal_strlit("\nsysfs-path = ");
    reveal_strlit("\norigin = ");
    reveal_strlit("\nname = ");
    reveal_strlit("\nbustype = ");
    reveal_strlit("vendor = ");
    reveal_strlit("product = ");
    reveal_strlit("version = ");
    reveal_strlit("capabilities = ");
    reveal_strlit("path");
    reveal_strlit("sysfs-path");
    reveal_strlit("origin");
    reveal_strlit("name");
    reveal_strlit("bustype");
    reveal_strlit("vendor");
    reveal_strlit("product");
    reveal_strlit("version");
    reveal_strlit("capabilities");
    reveal_strlit(" = ");
    reveal_strlit("\n");
    let stop = "\n"@;
    assert("path = "@ =~= "path"@ + " = "@);
    assert("\nsysfs-path = "@ =~= stop + ("sysfs-path"@ + " = "@));
    assert("\norigin = "@ =~= stop + ("origin"@ + " = "@));
    assert("\nname = "@ =~= stop + ("name"@ + " = "@));
    assert("\nbustype = "@ =~= stop + ("bustype"@ + " = "@));
    assert("vendor = "@ =~= "vendor"@ + " = "@);
    assert("product = "@ =~= "product"@ + " = "@);
    assert("version = "@ =~= "version"@ + " = "@);
    assert("capabilities = "@ =~= "capabilities"@ + " = "@);
    let origin = crate::listing::origin_text(facts.origin);
    let comment = match crate::listing::bustype_text(facts.bustype) {
        Some(bus) => " # "@ + bus,
        None => Seq::empty(),
    };
    let one = "path = "@ + path + "\nsysfs-path = "@ + sysfs_path + "\norigin = "@ + origin
        + "\nname = "@ + name + "\nbustype = "@ + crate::text::hex4(facts.bustype) + comment
        + "\n"@;
    assert(one =~= line("path"@, path) + line("sysfs-path"@, sysfs_path) + line("origin"@, origin)
        + line("name"@, name) + line("bustype"@, crate::text::hex4(facts.bustype) + comment));
    assert(crate::listing::number_line("vendor = "@, facts.vendor) =~= line(
        "vendor"@,
        crate::text::hex4(facts.vendor),
    ));
    assert(crate::listing::number_line("product = "@, facts.product) =~= line(
        "product"@,
        crate::text::hex4(facts.product),
    ));
    assert(crate::listing::number_line("version = "@, facts.version) =~= line(
        "version"@,
        crate::text::hex4(facts.version),
    ));
    let kinds = crate::listing::capability_text(facts.capabilities);
    let two = one + crate::listing::number_line("vendor = "@, facts.vendor)
        + crate::listing::number_line("product = "@, facts.product) + crate::listing::number_line(
        "version = "@,
        facts.version,
    );
    assert(two + "capabilities = "@ + kinds + "\n"@ =~= two + line("capabilities"@, kinds));
}

/// A device that matches a group is listed with the name of the group, the places of the group and
/// of the candidate in it, counted from one, and the delay of the candidate, which is zero where
/// none is set. One that matches none, or where there are no groups, is listed as such.
pub proof fn groups_are_told_line_by_line(groups: Seq<DeviceGroup>, group: usize, candidate: usize)
    requires
        group < groups.len(),
        candidate < groups[group as int].candidates@.len(),
    ensures
        crate::listing::group_text(Some(groups), Some((group, candidate))) == line(
            "matching-group"@,
            crate::listing::toml_text(groups[group as int].name@),
        ) + line("matching-group-index"@, crate::text::decimal((group + 1) as nat)) + line(
            "matching-candidate-index"@,
            crate::text::decimal((candidate + 1) as nat),
        ) + line(
            "configured-grab-delay-ms"@,
            crate::text::decimal(
                match groups[group as int].candidates@[candidate as int].grab_delay_ms {
                    Some(delay) => delay as nat,
                    None => 0nat,
                },
            ),
        ),
        crate::listing::group_text(Some(groups), None) == line("matching-group"@, "none"@),
        crate::listing::group_text(None, Some((group, candidate))) == line(
            "matching-group"@,
            "disabled"@,
        ),
        crate::listing::group_text(None, None) == line("matching-group"@, "disabled"@),
{
    reveal_strlit("matching-group = ");
    reveal_strlit("\nmatching-group-index = ");
    reveal_strlit("\nmatching-candidate-index = ");
    reveal_strlit("\nconfigured-grab-delay-ms = ");
    reveal_strlit("matching-group");
    reveal_strlit("matching-group-index");
    reveal_strlit("matching-candidate-index");
    reveal_strlit("configured-grab-delay-ms");
    reveal_strlit("matching-group = none\n");
    reveal_strlit("matching-group = disabled\n");
    reveal_strlit("none");
    reveal_strlit("disabled");
    reveal_strlit(" = ");
    reveal_strlit("\n");
    let stop = "\n"@;
    assert("matching-group = "@ =~= "matching-group"@ + " = "@);
    assert("\nmatching-group-index = "@ =~= stop + ("matching-group-index"@ + " = "@));
    assert("\nmatching-candidate-index = "@ =~= stop + ("matching-candidate-index"@ + " = "@));
    assert("\nconfigured-grab-delay-ms = "@ =~= stop + ("configured-grab-delay-ms"@ + " = "@));
    assert("matching-group = none\n"@ =~= line("matching-group"@, "none"@));
    assert("matching-group = disabled\n"@ =~= line("matching-group"@, "disabled"@));
    let delay = crate::text::decimal(
        match groups[group as int].candidates@[candidate as int].grab_delay_ms {
            Some(delay) => delay as nat,
            None => 0nat,
        },
    );
    assert(crate::listing::group_text(Some(groups), Some((group, candidate))) =~= line(
        "matching-group"@,
        crate::listing::toml_text(groups[group as int].name@),
    ) + line("matching-group-index"@, crate::text::decimal((group + 1) as nat)) + line(
        "matching-candidate-index"@,
        crate::text::decimal((candidate + 1) as nat),
    ) + line("configured-grab-delay-ms"@, delay));
}

/// A quoted text stays on its line and ends where its last quote is: it has no ends of lines and no
/// tabs, and every quote in it follows a backslash.
pub proof fn quoted_texts_stay_on_a_line(value: Seq<char>)
    ensures
        forall|at: int|
            0 <= at < crate::listing::escaped(value).len() ==> {
                let ch = #[trigger] crate::listing::escaped(value)[at];
                &&& ch != '\n' && ch != '\r' && ch != '\t'
                &&& ch == '"' ==> at > 0 && crate::listing::escaped(value)[at - 1] == '\\'
            },
    decreases value.len(),
{
    if value.len() > 0 {
        let head = crate::listing::escaped_char(value[0]);
        let rest = crate::listing::escaped(value.drop_first());
        quoted_texts_stay_on_a_line(value.drop_first());
        let text = head + rest;
        assert forall|at: int| 0 <= at < text.len() implies {
            let ch = #[trigger] text[at];
            &&& ch != '\n' && ch != '\r' && ch != '\t'
            &&& ch == '"' ==> at > 0 && text[at - 1] == '\\'
        } by {
            if at >= head.len() {
                assert(text[at] == rest[at - head.len()]);
                if at > head.len() {
                    assert(text[at - 1] == rest[at - head.len() - 1]);
                }
            }
        }
    }
}

/// A name of a device in a list, as a line.
pub open spec fn name_line(name: Seq<char>) -> Seq<char> {
    "    "@ + crate::listing::toml_text(name) + ",\n"@
}

proof fn lemma_last_name(names: Seq<Seq<char>>)
    requires
        names.len() > 0,
    ensures
        crate::listing::alias_lines(names) == crate::listing::alias_lines(names.drop_last())
            + name_line(names.last()),
        crate::listing::alias_lines(names).len() > 0,
        crate::listing::alias_lines(names).last() == '\n',
{
    reveal_strlit(",\n");
    let before = crate::listing::alias_lines(names.drop_last());
    let text = crate::listing::alias_lines(names);
    let quoted = crate::listing::toml_text(names.last());
    assert(text =~= before + ("    "@ + quoted + ",\n"@));
    assert(text.last() == ",\n"@[1]);
}

proof fn lemma_names(names: Seq<Seq<char>>, at: int)
    requires
        0 <= at < names.len(),
    ensures
        has_line(crate::listing::alias_lines(names), name_line(names[at])),
    decreases names.len(),
{
    let shorter = names.drop_last();
    let before = crate::listing::alias_lines(shorter);
    let last = name_line(names.last());
    lemma_last_name(names);
    if at < names.len() - 1 {
        lemma_names(shorter, at);
        assert(shorter[at] == names[at]);
        lemma_keeps_line(before, name_line(names[at]), last);
    } else {
        if shorter.len() > 0 {
            lemma_last_name(shorter);
        }
        lemma_has_line(before, last, Seq::empty());
        assert(before + last + Seq::<char>::empty() =~= before + last);
    }
}

/// Every other name of a device is listed in a line of its own. A device without other names has an
/// empty list.
pub proof fn every_name_is_listed(names: Seq<Seq<char>>, at: int)
    ensures
        names.len() == 0 ==> crate::listing::alias_text(names) == line("aliases"@, "[]"@),
        0 <= at < names.len() ==> has_line(crate::listing::alias_text(names), name_line(names[at])),
{
    reveal_strlit("aliases = []\n");
    reveal_strlit("aliases = [\n");
    reveal_strlit("aliases");
    reveal_strlit("[]");
    reveal_strlit(" = ");
    reveal_strlit("\n");
    if names.len() == 0 {
        assert(crate::listing::alias_text(names) =~= line("aliases"@, "[]"@));
    }
    if 0 <= at < names.len() {
        lemma_names(names, at);
        reveal(has_line);
        let lines = crate::listing::alias_lines(names);
        let line = name_line(names[at]);
        let from = choose|from: int| #[trigger] has_line_at(lines, line, from);
        let text = crate::listing::alias_text(names);
        let to = from + "aliases = [\n"@.len();
        assert(text =~= "aliases = [\n"@ + lines + "]\n"@);
        assert(text.subrange(to, (to + line.len()) as int) =~= lines.subrange(
            from,
            (from + line.len()) as int,
        ));
        if from > 0 {
            assert(text[to - 1] == lines[from - 1]);
        } else {
            assert(text[to - 1] == "aliases = [\n"@[11]);
        }
        assert(has_line_at(text, line, to));
    }
}

/// A description of a device tells what the policy makes of it, behind its facts and before the
/// lines about its group and its names.
pub proof fn the_whitelist_is_told(
    path: Seq<char>,
    sysfs_path: Seq<char>,
    name: Seq<char>,
    facts: DeviceFacts,
    whitelisted: Whitelisted,
    group: Seq<char>,
    names: Seq<Seq<char>>,
)
    ensures
        crate::listing::device_text(path, sysfs_path, name, facts, whitelisted, group, names)
            == crate::listing::facts_text(path, sysfs_path, name, facts) + line(
            "whitelisted"@,
            match whitelisted {
                Whitelisted::Yes => "yes"@,
                Whitelisted::No => "no"@,
                Whitelisted::Disabled => "disabled"@,
            },
        ) + group + crate::listing::alias_text(names) + "\n"@,
{
    reveal_strlit("whitelisted = ");
    reveal_strlit("whitelisted");
    reveal_strlit(" = ");
    assert("whitelisted = "@ =~= "whitelisted"@ + " = "@);
    let told = crate::listing::facts_text(path, sysfs_path, name, facts);
    assert(told + "whitelisted = "@ + whitelisted.text() + "\n"@ =~= told + line(
        "whitelisted"@,
        whitelisted.text(),
    ));
}

} // verus!
