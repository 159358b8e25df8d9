//! What paths are made of, and in which order they stand.

use vstd::prelude::*;

use crate::interceptor::DeviceOrigin;
use crate::path::{ComponentView, DOT, SEPARATOR};

verus! {

/// Whether some bytes can stand between two separators: there is one, and none is a separator.
pub open spec fn is_name(name: Seq<u8>) -> bool {
    name.len() > 0 && forall|at: int| 0 <= at < name.len() ==> name[at] != 47
}

/// Whether a name names something: it is neither one dot nor two.
pub open spec fn is_plain_name(name: Seq<u8>) -> bool {
    is_name(name) && name != seq![46u8] && name != seq![46u8, 46u8]
}

proof fn lemma_name(name: Seq<u8>, rest: Seq<u8>)
    requires
        forall|at: int| 0 <= at < name.len() ==> name[at] != 47,
        rest.len() == 0 || rest[0] == 47,
    ensures
        crate::path::name_length(name + rest) == name.len(),
    decreases name.len(),
{
    let path = name + rest;
    if name.len() > 0 {
        assert(path.drop_first() =~= name.drop_first() + rest);
        assert(path[0] == name[0]);
        lemma_name(name.drop_first(), rest);
    } else {
        assert(path =~= rest);
    }
}

proof fn lemma_first_name(name: Seq<u8>, rest: Seq<u8>, first: bool)
    requires
        is_name(name),
        rest.len() == 0 || rest[0] == 47,
    ensures
        crate::path::components_from(name + rest, first) == crate::path::component_of(name, first)
            + crate::path::components_from(rest, false),
{
    let path = name + rest;
    lemma_name(name, rest);
    assert(path[0] == name[0]);
    assert(path.take(name.len() as int) =~= name);
    assert(path.skip(name.len() as int) =~= rest);
}

/// A separator parts a path: the components of what is before it come first, then those of what is
/// after it.
pub proof fn separators_part_paths(first: Seq<u8>, second: Seq<u8>, start: bool)
    ensures
        crate::path::components_from(first + seq![47u8] + second, start)
            == crate::path::components_from(first, start) + crate::path::components_from(
            second,
            false,
        ),
    decreases first.len(),
{
    let path = first + seq![47u8] + second;
    if first.len() == 0 {
        assert(path[0] == 47);
        assert(path.drop_first() =~= second);
        assert(crate::path::components_from(first, start) =~= Seq::<ComponentView>::empty());
        assert(crate::path::components_from(path, start) =~= crate::path::components_from(
            first,
            start,
        ) + crate::path::components_from(second, false));
    } else if first[0] == 47 {
        assert(path[0] == 47);
        assert(path.drop_first() =~= first.drop_first() + seq![47u8] + second);
        separators_part_paths(first.drop_first(), second, false);
    } else {
        crate::path::lemma_name_length(first);
        let length = crate::path::name_length(first) as int;
        let name = first.take(length);
        let rest = first.skip(length);
        assert(first =~= name + rest);
        assert(is_name(name));
        assert(path =~= name + (rest + seq![47u8] + second));
        lemma_first_name(name, rest + seq![47u8] + second, start);
        lemma_first_name(name, rest, start);
        separators_part_paths(rest, second, false);
        assert(crate::path::components_from(path, start) =~= crate::path::components_from(
            first,
            start,
        ) + crate::path::components_from(second, false));
    }
}

/// A path has the components of its directory and then its name. Where the path is that of the
/// root and a name, it has the root before it.
pub proof fn names_come_last(directory: Seq<u8>, name: Seq<u8>)
    requires
        is_plain_name(name),
    ensures
        directory.len() > 0 ==> crate::path::components_of(directory + seq![47u8] + name)
            == crate::path::components_of(directory).push(ComponentView::Normal(name)),
        crate::path::components_of(seq![47u8] + name) == seq![
            ComponentView::Root,
            ComponentView::Normal(name),
        ],
        crate::path::components_of(name) == seq![ComponentView::Normal(name)],
{
    let path = directory + seq![47u8] + name;
    assert(name + Seq::<u8>::empty() =~= name);
    lemma_first_name(name, Seq::empty(), false);
    lemma_first_name(name, Seq::empty(), true);
    assert(SEPARATOR == 47 && DOT == 46);
    assert(crate::path::component_of(name, false) =~= seq![ComponentView::Normal(name)]);
    assert(crate::path::component_of(name, true) =~= seq![ComponentView::Normal(name)]);
    let none = crate::path::components_from(Seq::empty(), false);
    assert(none =~= Seq::<ComponentView>::empty());
    assert(crate::path::components_from(name, false) =~= seq![ComponentView::Normal(name)]);
    assert(crate::path::components_from(name, true) =~= seq![ComponentView::Normal(name)]);
    assert(name[0] != 47);
    if directory.len() > 0 {
        assert(path[0] == directory[0]);
        separators_part_paths(directory, name, true);
        separators_part_paths(directory, name, false);
        assert(crate::path::components_of(path) =~= crate::path::components_of(directory).push(
            ComponentView::Normal(name),
        ));
    }
    let rooted = seq![47u8] + name;
    assert(rooted[0] == 47);
    assert(rooted.drop_first() =~= name);
    assert(crate::path::components_of(rooted) =~= seq![
        ComponentView::Root,
        ComponentView::Normal(name),
    ]);
}

/// The name of the file that a path leads to is what stands after its last separator, or the whole
/// path where there is none.
pub proof fn files_have_the_last_name(directory: Seq<u8>, name: Seq<u8>)
    requires
        is_plain_name(name),
    ensures
        crate::path::file_name_of(directory + seq![47u8] + name) == Some(name),
        crate::path::file_name_of(name) == Some(name),
{
    names_come_last(directory, name);
    if directory.len() == 0 {
        assert(directory + seq![47u8] + name =~= seq![47u8] + name);
    }
}

/// A path leads to an event node exactly if its name is UTF-8 and starts with `event`.
pub proof fn event_nodes_are_known_by_name(directory: Seq<u8>, name: Seq<u8>)
    requires
        is_plain_name(name),
    ensures
        crate::path::names_event(directory + seq![47u8] + name) == (vstd::utf8::valid_utf8(name)
            && name.len() >= 5 && name[0] == 101 && name[1] == 118 && name[2] == 101 && name[3]
            == 110 && name[4] == 116),
{
    files_have_the_last_name(directory, name);
    let prefix = crate::path::event_prefix();
    if prefix.is_prefix_of(name) {
        assert(name.subrange(0, 5) == prefix);
        assert(name[0] == prefix[0] && name[1] == prefix[1] && name[2] == prefix[2] && name[3]
            == prefix[3] && name[4] == prefix[4]) by {
            let start = name.subrange(0, 5);
            assert(start[0] == prefix[0] && start[1] == prefix[1] && start[2] == prefix[2]
                && start[3] == prefix[3] && start[4] == prefix[4]);
        }
    }
    if name.len() >= 5 && name[0] == 101 && name[1] == 118 && name[2] == 101 && name[3] == 110
        && name[4] == 116 {
        assert(name.subrange(0, 5) =~= prefix);
    }
}

/// A device is virtual exactly if the components of its place in sysfs start with the root and the
/// names `sys`, `devices`, `virtual` and `input`.
pub proof fn virtual_devices_are_known_by_place(path: Seq<u8>)
    ensures
        ({
            let components = crate::path::components_of(path);
            (crate::interceptor::origin_of(path) == DeviceOrigin::Virtual) == (components.len() >= 5
                && components[0] is Root && components[1] == ComponentView::Normal(
                seq![115u8, 121, 115],
            ) && components[2] == ComponentView::Normal(
                seq![100u8, 101, 118, 105, 99, 101, 115],
            ) && components[3] == ComponentView::Normal(
                seq![118u8, 105, 114, 116, 117, 97, 108],
            ) && components[4] == ComponentView::Normal(seq![105u8, 110, 112, 117, 116]))
        }),
{
    let sys = seq![115u8, 121, 115];
    let devices = seq![100u8, 101, 118, 105, 99, 101, 115];
    let virtual_ = seq![118u8, 105, 114, 116, 117, 97, 108];
    let input = seq![105u8, 110, 112, 117, 116];
    let one = seq![47u8] + sys;
    let two = one + seq![47u8] + devices;
    let three = two + seq![47u8] + virtual_;
    let four = three + seq![47u8] + input;
    names_come_last(one, devices);
    names_come_last(two, virtual_);
    names_come_last(three, input);
    names_come_last(one, sys);
    let root = crate::interceptor::virtual_root();
    assert(root =~= four);
    let expected = seq![
        ComponentView::Root,
        ComponentView::Normal(sys),
        ComponentView::Normal(devices),
        ComponentView::Normal(virtual_),
        ComponentView::Normal(input),
    ];
    assert(crate::path::components_of(root) =~= expected);
    let components = crate::path::components_of(path);
    if expected.is_prefix_of(components) {
        let start = components.subrange(0, 5);
        assert(start == expected);
        assert(start[0] == components[0] && start[1] == components[1] && start[2] == components[2]
            && start[3] == components[3] && start[4] == components[4]);
    }
    if components.len() >= 5 && components[0] is Root && components[1] == ComponentView::Normal(
        sys,
    ) && components[2] == ComponentView::Normal(devices) && components[3]
        == ComponentView::Normal(virtual_) && components[4] == ComponentView::Normal(input) {
        assert(components.subrange(0, 5) =~= expected);
    }
}

/// Whether two lists agree up to a point.
pub open spec fn agree<T>(left: Seq<T>, right: Seq<T>, count: int) -> bool {
    forall|at: int| 0 <= at < count ==> left[at] == right[at]
}

/// Bytes stand in the order of dictionaries: the first difference decides, and a part of the whole
/// comes before the whole.
pub proof fn bytes_stand_as_in_a_dictionary(left: Seq<u8>, right: Seq<u8>)
    ensures
        crate::path::bytes_before(left, right) <==> exists|at: int|
            0 <= at <= left.len() && at < right.len() && #[trigger] agree(left, right, at) && (at
                == left.len() || left[at] < right[at]),
    decreases left.len(),
{
    if right.len() > 0 && left.len() > 0 {
        let shorter = left.drop_first();
        let rest = right.drop_first();
        bytes_stand_as_in_a_dictionary(shorter, rest);
        if left[0] == right[0] {
            if crate::path::bytes_before(left, right) {
                let at = choose|at: int|
                    0 <= at <= shorter.len() && at < rest.len() && #[trigger] agree(
                        shorter,
                        rest,
                        at,
                    ) && (at == shorter.len() || shorter[at] < rest[at]);
                assert forall|to: int| 0 <= to < at + 1 implies left[to] == right[to] by {
                    if to > 0 {
                        assert(shorter[to - 1] == rest[to - 1]);
                    }
                }
                assert(agree(left, right, at + 1));
            }
            if exists|at: int|
                0 <= at <= left.len() && at < right.len() && #[trigger] agree(left, right, at) && (at
                    == left.len() || left[at] < right[at]) {
                let at = choose|at: int|
                    0 <= at <= left.len() && at < right.len() && #[trigger] agree(left, right, at)
                        && (at == left.len() || left[at] < right[at]);
                assert(at > 0);
                assert forall|to: int| 0 <= to < at - 1 implies shorter[to] == rest[to] by {
                    assert(left[to + 1] == right[to + 1]);
                }
                assert(agree(shorter, rest, at - 1));
            }
        } else {
            if left[0] < right[0] {
                assert(agree(left, right, 0));
            }
            if exists|at: int|
                0 <= at <= left.len() && at < right.len() && #[trigger] agree(left, right, at) && (at
                    == left.len() || left[at] < right[at]) {
                let at = choose|at: int|
                    0 <= at <= left.len() && at < right.len() && #[trigger] agree(left, right, at)
                        && (at == left.len() || left[at] < right[at]);
                if at > 0 {
                    assert(left[0] == right[0]);
                }
            }
        }
    } else if right.len() > 0 {
        assert(agree(left, right, 0));
    }
}

/// Paths of one directory stand in the order of their names, and a directory comes before all that
/// is in it.
pub proof fn paths_stand_by_name(directory: Seq<u8>, one: Seq<u8>, other: Seq<u8>)
    requires
        directory.len() > 0,
        is_plain_name(one),
        is_plain_name(other),
    ensures
        crate::path::path_before(
            directory + seq![47u8] + one,
            directory + seq![47u8] + other,
        ) == (one != other && crate::path::bytes_before(one, other)),
        crate::path::path_before(directory, directory + seq![47u8] + one),
{
    names_come_last(directory, one);
    names_come_last(directory, other);
    let base = crate::path::components_of(directory);
    lemma_common_start(base, seq![ComponentView::Normal(one)], seq![ComponentView::Normal(other)]);
    lemma_common_start(base, Seq::empty(), seq![ComponentView::Normal(one)]);
    assert(base + seq![ComponentView::Normal(one)] =~= base.push(ComponentView::Normal(one)));
    assert(base + seq![ComponentView::Normal(other)] =~= base.push(ComponentView::Normal(other)));
    assert(base + Seq::<ComponentView>::empty() =~= base);
    reveal_with_fuel(crate::path::components_before, 3);
    let left = seq![ComponentView::Normal(one)];
    let right = seq![ComponentView::Normal(other)];
    assert(left[0] == ComponentView::Normal(one) && right[0] == ComponentView::Normal(other));
    if one == other {
        assert(left.drop_first() =~= Seq::<ComponentView>::empty());
        assert(right.drop_first() =~= Seq::<ComponentView>::empty());
    }
}

proof fn lemma_common_start(
    base: Seq<ComponentView>,
    left: Seq<ComponentView>,
    right: Seq<ComponentView>,
)
    ensures
        crate::path::components_before(base + left, base + right)
            == crate::path::components_before(left, right),
    decreases base.len(),
{
    if base.len() == 0 {
        assert(base + left =~= left);
        assert(base + right =~= right);
    } else {
        assert((base + left).drop_first() =~= base.drop_first() + left);
        assert((base + right).drop_first() =~= base.drop_first() + right);
        assert((base + left)[0] == base[0] && (base + right)[0] == base[0]);
        lemma_common_start(base.drop_first(), left, right);
    }
}

/// A dot behind a directory stands for the directory, and two dots for the one above it, which has
/// no file name. A separator behind a directory makes no difference. At the start of a path, dots
/// stand for themselves.
pub proof fn dots_stand_for_directories(directory: Seq<u8>)
    requires
        directory.len() > 0,
    ensures
        crate::path::components_of(directory + seq![47u8]) == crate::path::components_of(directory),
        crate::path::components_of(directory + seq![47u8] + seq![46u8])
            == crate::path::components_of(directory),
        crate::path::components_of(directory + seq![47u8] + seq![46u8, 46u8])
            == crate::path::components_of(directory).push(ComponentView::Parent),
        crate::path::file_name_of(directory + seq![47u8] + seq![46u8, 46u8]) is None,
        crate::path::components_of(seq![46u8]) == seq![ComponentView::Current],
        crate::path::components_of(seq![46u8, 46u8]) == seq![ComponentView::Parent],
{
    let none = Seq::<u8>::empty();
    let one = seq![46u8];
    let two = seq![46u8, 46u8];
    assert(one + none =~= one);
    assert(two + none =~= two);
    lemma_first_name(one, none, false);
    lemma_first_name(one, none, true);
    lemma_first_name(two, none, false);
    lemma_first_name(two, none, true);
    assert(crate::path::components_from(none, false) =~= Seq::<ComponentView>::empty());
    assert(SEPARATOR == 47 && DOT == 46);
    assert(two != one) by {
        assert(two.len() != one.len());
    }
    assert(crate::path::components_from(one, false) =~= Seq::<ComponentView>::empty());
    assert(crate::path::components_from(one, true) =~= seq![ComponentView::Current]);
    assert(crate::path::components_from(two, false) =~= seq![ComponentView::Parent]);
    assert(crate::path::components_from(two, true) =~= seq![ComponentView::Parent]);
    assert(directory + seq![47u8] + none =~= directory + seq![47u8]);
    assert forall|rest: Seq<u8>|
        #![trigger crate::path::components_of(directory + seq![47u8] + rest)]
        crate::path::components_of(directory + seq![47u8] + rest) == crate::path::components_of(
            directory,
        ) + crate::path::components_from(rest, false) by {
        let path = directory + seq![47u8] + rest;
        assert(path[0] == directory[0]);
        separators_part_paths(directory, rest, true);
        separators_part_paths(directory, rest, false);
        assert(crate::path::components_of(path) =~= crate::path::components_of(directory)
            + crate::path::components_from(rest, false));
    }
    let base = crate::path::components_of(directory);
    assert(crate::path::components_of(directory + seq![47u8] + none) =~= base);
    assert(crate::path::components_of(directory + seq![47u8] + one) =~= base);
    assert(crate::path::components_of(directory + seq![47u8] + two) =~= base.push(
        ComponentView::Parent,
    ));
}

proof fn lemma_no_root(path: Seq<u8>, start: bool)
    ensures
        forall|at: int|
            0 <= at < crate::path::components_from(path, start).len()
                ==> !((#[trigger] crate::path::components_from(path, start)[at]) is Root),
    decreases path.len(),
{
    if path.len() > 0 {
        if path[0] == 47 {
            lemma_no_root(path.drop_first(), false);
        } else {
            crate::path::lemma_name_length(path);
            let length = crate::path::name_length(path) as int;
            lemma_no_root(path.skip(length), false);
            let head = crate::path::component_of(path.take(length), start);
            let tail = crate::path::components_from(path.skip(length), false);
            assert forall|at: int| 0 <= at < (head + tail).len() implies !((#[trigger] (head
                + tail)[at]) is Root) by {
                if at >= head.len() {
                    assert((head + tail)[at] == tail[at - head.len()]);
                }
            }
        }
    }
}

/// The root stands at the start of the paths that start with a separator, and nowhere else.
pub proof fn only_separators_start_at_the_root(path: Seq<u8>, at: int)
    requires
        0 <= at < crate::path::components_of(path).len(),
    ensures
        (crate::path::components_of(path)[at] is Root) == (at == 0 && path.len() > 0 && path[0]
            == 47),
{
    lemma_no_root(path, false);
    lemma_no_root(path, true);
    let rest = crate::path::components_from(path, false);
    if path.len() > 0 && path[0] == 47 && at > 0 {
        assert((seq![ComponentView::Root] + rest)[at] == rest[at - 1]);
    }
}

/// Whether one component comes before another: the root before all others, the current directory
/// before the one above, this before names, and names as their bytes do.
pub open spec fn comes_before(one: ComponentView, other: ComponentView) -> bool {
    match (one, other) {
        (ComponentView::Root, _) => !(other is Root),
        (ComponentView::Current, _) => other is Parent || other is Normal,
        (ComponentView::Parent, _) => other is Normal,
        (ComponentView::Normal(one), ComponentView::Normal(other)) => crate::path::bytes_before(
            one,
            other,
        ),
        _ => false,
    }
}

proof fn lemma_components_differ(left: Seq<ComponentView>, right: Seq<ComponentView>, at: int)
    requires
        0 <= at <= left.len(),
        at <= right.len(),
        agree(left, right, at),
        at < left.len() && at < right.len() ==> left[at] != right[at],
        at < left.len() || at < right.len(),
    ensures
        crate::path::components_before(left, right) == (at < right.len() && (at == left.len()
            || comes_before(left[at], right[at]))),
    decreases at,
{
    if at > 0 {
        let shorter = left.drop_first();
        let rest = right.drop_first();
        assert forall|to: int| 0 <= to < at - 1 implies shorter[to] == rest[to] by {
            assert(left[to + 1] == right[to + 1]);
        }
        assert(left[0] == right[0]);
        lemma_components_differ(shorter, rest, at - 1);
    }
}

/// Paths stand in the order of dictionaries, with their components for letters: the first component
/// that differs decides, and a part of the whole comes before the whole.
pub proof fn paths_stand_as_in_a_dictionary(left: Seq<u8>, right: Seq<u8>, at: int)
    requires
        0 <= at <= crate::path::components_of(left).len(),
        at <= crate::path::components_of(right).len(),
        agree(crate::path::components_of(left), crate::path::components_of(right), at),
        at < crate::path::components_of(left).len() && at < crate::path::components_of(right).len()
            ==> crate::path::components_of(left)[at] != crate::path::components_of(right)[at],
        at < crate::path::components_of(left).len() || at < crate::path::components_of(right).len(),
    ensures
        crate::path::path_before(left, right) == (at < crate::path::components_of(right).len() && (at
            == crate::path::components_of(left).len() || comes_before(
            crate::path::components_of(left)[at],
            crate::path::components_of(right)[at],
        ))),
{
    lemma_components_differ(
        crate::path::components_of(left),
        crate::path::components_of(right),
        at,
    );
}

/// Paths are in order exactly if none stands behind one that comes after it, and ascend exactly if
/// each comes before all that stand behind it.
pub proof fn ordered_paths_stand_in_turn(paths: Seq<Seq<u8>>)
    ensures
        crate::monitor::paths_in_order(paths) <==> forall|left: int, right: int|
            0 <= left < right < paths.len() ==> !crate::path::path_before(
                #[trigger] paths[right],
                #[trigger] paths[left],
            ),
        crate::pathset::paths_ascend(paths) <==> forall|left: int, right: int|
            0 <= left < right < paths.len() ==> crate::path::path_before(
                #[trigger] paths[left],
                #[trigger] paths[right],
            ),
{
}

} // verus!
