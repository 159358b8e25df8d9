//! Paths as bytes, taken apart into their components.

use vstd::prelude::*;

verus! {

/// A component of a path.
#[derive(Debug)]
pub enum Component {
    Root,
    Current,
    Parent,
    Normal(Vec<u8>),
}

/// What a [`Component`] is.
#[verifier::ext_equal]
pub enum ComponentView {
    Root,
    Current,
    Parent,
    Normal(Seq<u8>),
}

impl View for Component {
    type V = ComponentView;

    open spec fn view(&self) -> ComponentView {
        match self {
            Component::Root => ComponentView::Root,
            Component::Current => ComponentView::Current,
            Component::Parent => ComponentView::Parent,
            Component::Normal(name) => ComponentView::Normal(name@),
        }
    }
}

pub open spec fn component_views(components: Seq<Component>) -> Seq<ComponentView> {
    components.map_values(|component: Component| component@)
}

pub const SEPARATOR: u8 = 47;

pub const DOT: u8 = 46;

/// The number of bytes before the first separator.
pub open spec fn name_length(path: Seq<u8>) -> nat
    decreases path.len(),
{
    if path.len() == 0 || path[0] == SEPARATOR {
        0
    } else {
        1 + name_length(path.drop_first())
    }
}

/// What a name between separators stands for. A dot stands for nothing, but at the start of a
/// relative path.
pub open spec fn component_of(name: Seq<u8>, first: bool) -> Seq<ComponentView> {
    if name == seq![DOT] {
        if first {
            seq![ComponentView::Current]
        } else {
            seq![]
        }
    } else if name == seq![DOT, DOT] {
        seq![ComponentView::Parent]
    } else {
        seq![ComponentView::Normal(name)]
    }
}

/// The components of a path, from some point on.
pub open spec fn components_from(path: Seq<u8>, first: bool) -> Seq<ComponentView>
    decreases path.len(),
{
    if path.len() == 0 {
        seq![]
    } else if path[0] == SEPARATOR {
        components_from(path.drop_first(), false)
    } else {
        proof {
            lemma_name_length(path);
        }
        let length = name_length(path) as int;
        component_of(path.take(length), first) + components_from(path.skip(length), false)
    }
}

/// The components of a path. Repeated and trailing separators make no difference.
pub open spec fn components_of(path: Seq<u8>) -> Seq<ComponentView> {
    if path.len() > 0 && path[0] == SEPARATOR {
        seq![ComponentView::Root] + components_from(path, false)
    } else {
        components_from(path, true)
    }
}

/// The name of the file that a path leads to.
pub open spec fn file_name_of(path: Seq<u8>) -> Option<Seq<u8>> {
    let components = components_of(path);
    if components.len() > 0 && components.last() is Normal {
        Some(components.last()->Normal_0)
    } else {
        None
    }
}

pub proof fn lemma_name_length(path: Seq<u8>)
    ensures
        name_length(path) <= path.len(),
        path.len() > 0 && path[0] != SEPARATOR ==> name_length(path) > 0,
        forall|at: int| 0 <= at < name_length(path) ==> path[at] != SEPARATOR,
        name_length(path) < path.len() ==> path[name_length(path) as int] == SEPARATOR,
    decreases path.len(),
{
    if path.len() > 0 && path[0] != SEPARATOR {
        let rest = path.drop_first();
        lemma_name_length(rest);
        assert forall|at: int| 0 <= at < name_length(path) implies path[at] != SEPARATOR by {
            if at > 0 {
                assert(path[at] == rest[at - 1]);
            }
        }
    }
}

/// Copies a part of some bytes.
pub fn copy_range(bytes: &[u8], start: usize, end: usize) -> (copy: Vec<u8>)
    requires
        start <= end <= bytes@.len(),
    ensures
        copy@ == bytes@.subrange(start as int, end as int),
{
    let mut copy: Vec<u8> = Vec::new();
    let mut index: usize = start;
    while index < end
        invariant
            start <= index <= end <= bytes@.len(),
            copy@ == bytes@.subrange(start as int, index as int),
        decreases end - index,
    {
        copy.push(bytes[index]);
        index = index + 1;
        proof {
            assert(copy@ =~= bytes@.subrange(start as int, index as int));
        }
    }
    copy
}

/// Takes a path apart.
pub fn components(path: &[u8]) -> (components: Vec<Component>)
    ensures
        component_views(components@) == components_of(path@),
{
    let mut components: Vec<Component> = Vec::new();
    let mut first = true;
    let mut index: usize = 0;
    if path.len() > 0 && path[0] == SEPARATOR {
        components.push(Component::Root);
        first = false;
        assert(component_views(components@) =~= seq![ComponentView::Root]);
    } else {
        assert(component_views(components@) =~= Seq::<ComponentView>::empty());
    }
    proof {
        assert(path@.skip(0) =~= path@);
        assert(component_views(components@) + components_from(path@.skip(0), first)
            =~= components_of(path@));
    }
    while index < path.len()
        invariant
            index <= path@.len(),
            component_views(components@) + components_from(path@.skip(index as int), first)
                == components_of(path@),
        decreases path@.len() - index,
    {
        let ghost rest = path@.skip(index as int);
        let ghost before = component_views(components@);
        if path[index] == SEPARATOR {
            proof {
                assert(rest.drop_first() =~= path@.skip(index + 1));
            }
            index = index + 1;
            first = false;
        } else {
            let start: usize = index;
            while index < path.len() && path[index] != SEPARATOR
                invariant
                    start <= index <= path@.len(),
                    forall|at: int| start <= at < index ==> path@[at] != SEPARATOR,
                decreases path@.len() - index,
            {
                index = index + 1;
            }
            proof {
                lemma_name_length(rest);
                let length = name_length(rest) as int;
                if length < index - start {
                    assert(rest[length] == path@[start + length]);
                }
                if index - start < length {
                    assert(rest[index - start] == path@[index as int]);
                }
                assert(length == index - start);
                assert(rest.take(length) =~= path@.subrange(start as int, index as int));
                assert(rest.skip(length) =~= path@.skip(index as int));
            }
            let ghost name = path@.subrange(start as int, index as int);
            if index - start == 1 && path[start] == DOT {
                assert(name =~= seq![DOT]);
                if first {
                    components.push(Component::Current);
                    assert(component_views(components@) =~= before + seq![ComponentView::Current]);
                }
            } else if index - start == 2 && path[start] == DOT && path[start + 1] == DOT {
                assert(name =~= seq![DOT, DOT]);
                components.push(Component::Parent);
                assert(component_views(components@) =~= before + seq![ComponentView::Parent]);
            } else {
                proof {
                    if name == seq![DOT] {
                        assert(name[0] == DOT);
                    }
                    if name == seq![DOT, DOT] {
                        assert(name[0] == DOT && name[1] == DOT);
                    }
                }
                components.push(Component::Normal(copy_range(path, start, index)));
                assert(component_views(components@) =~= before + seq![ComponentView::Normal(name)]);
            }
            proof {
                assert(component_views(components@) =~= before + component_of(name, first));
                assert(component_views(components@) + components_from(
                    path@.skip(index as int),
                    false,
                ) =~= before + components_from(rest, first));
            }
            first = false;
        }
    }
    proof {
        assert(path@.skip(index as int) =~= Seq::<u8>::empty());
        assert(component_views(components@) =~= components_of(path@));
    }
    components
}

/// Whether two lists of bytes are equal.
pub fn same_bytes(left: &[u8], right: &[u8]) -> (same: bool)
    ensures
        same == (left@ == right@),
{
    if left.len() != right.len() {
        return false;
    }
    let mut index: usize = 0;
    while index < left.len()
        invariant
            left@.len() == right@.len(),
            index <= left@.len(),
            forall|at: int| 0 <= at < index ==> left@[at] == right@[at],
        decreases left@.len() - index,
    {
        if left[index] != right[index] {
            return false;
        }
        index = index + 1;
    }
    proof {
        assert(left@ =~= right@);
    }
    true
}

/// Whether two components are equal.
pub fn same_component(left: &Component, right: &Component) -> (same: bool)
    ensures
        same == (left@ == right@),
{
    match (left, right) {
        (Component::Root, Component::Root) => true,
        (Component::Current, Component::Current) => true,
        (Component::Parent, Component::Parent) => true,
        (Component::Normal(left), Component::Normal(right)) => same_bytes(
            left.as_slice(),
            right.as_slice(),
        ),
        _ => false,
    }
}

/// Whether the components of a path begin with those of another.
pub fn starts_with(path: &[u8], base: &[u8]) -> (starts: bool)
    ensures
        starts == components_of(base@).is_prefix_of(components_of(path@)),
{
    let path_components = components(path);
    let base_components = components(base);
    let ghost whole = component_views(path_components@);
    let ghost start = component_views(base_components@);
    if base_components.len() > path_components.len() {
        return false;
    }
    let mut index: usize = 0;
    while index < base_components.len()
        invariant
            whole == component_views(path_components@),
            start == component_views(base_components@),
            whole == components_of(path@),
            start == components_of(base@),
            index <= start.len() <= whole.len(),
            forall|at: int| 0 <= at < index ==> whole[at] == start[at],
        decreases start.len() - index,
    {
        if !same_component(&path_components[index], &base_components[index]) {
            proof {
                assert(whole[index as int] != start[index as int]);
                if start.is_prefix_of(whole) {
                    assert(whole.subrange(0, start.len() as int)[index as int]
                        == start[index as int]);
                }
            }
            return false;
        }
        assert(whole[index as int] == start[index as int]);
        index = index + 1;
    }
    proof {
        assert(whole.subrange(0, start.len() as int) =~= start);
    }
    true
}

/// The name of the file that a path leads to.
pub fn file_name(path: &[u8]) -> (name: Option<Vec<u8>>)
    ensures
        match name {
            Some(name) => file_name_of(path@) == Some(name@),
            None => file_name_of(path@) is None,
        },
{
    let mut components = components(path);
    let ghost views = component_views(components@);
    match components.pop() {
        Some(Component::Normal(name)) => {
            assert(views.last() == ComponentView::Normal(name@));
            Some(name)
        },
        Some(other) => {
            assert(views.last() == other@);
            None
        },
        None => None,
    }
}

/// Whether some bytes come before others in the order of dictionaries.
pub open spec fn bytes_before(left: Seq<u8>, right: Seq<u8>) -> bool
    decreases left.len(),
{
    if right.len() == 0 {
        false
    } else if left.len() == 0 {
        true
    } else if left[0] != right[0] {
        left[0] < right[0]
    } else {
        bytes_before(left.drop_first(), right.drop_first())
    }
}

/// Whether a component comes before another: the root before the current and the parent directory,
/// and these before names, which are in the order of their bytes.
pub open spec fn component_before(left: ComponentView, right: ComponentView) -> bool {
    match (left, right) {
        (ComponentView::Normal(left), ComponentView::Normal(right)) => bytes_before(left, right),
        _ => component_rank(left) < component_rank(right),
    }
}

pub open spec fn component_rank(component: ComponentView) -> int {
    match component {
        ComponentView::Root => 0,
        ComponentView::Current => 1,
        ComponentView::Parent => 2,
        ComponentView::Normal(_) => 3,
    }
}

/// Whether a list of components comes before another in the order of dictionaries.
pub open spec fn components_before(left: Seq<ComponentView>, right: Seq<ComponentView>) -> bool
    decreases left.len(),
{
    if right.len() == 0 {
        false
    } else if left.len() == 0 {
        true
    } else if left[0] != right[0] {
        component_before(left[0], right[0])
    } else {
        components_before(left.drop_first(), right.drop_first())
    }
}

/// Whether a path comes before another: paths are in the order of their components.
pub open spec fn path_before(left: Seq<u8>, right: Seq<u8>) -> bool {
    components_before(components_of(left), components_of(right))
}

fn bytes_precede(left: &[u8], right: &[u8]) -> (before: bool)
    ensures
        before == bytes_before(left@, right@),
{
    let mut index: usize = 0;
    proof {
        assert(left@.skip(0) =~= left@);
        assert(right@.skip(0) =~= right@);
    }
    while index < left.len() && index < right.len()
        invariant
            index <= left@.len(),
            index <= right@.len(),
            bytes_before(left@.skip(index as int), right@.skip(index as int)) == bytes_before(
                left@,
                right@,
            ),
        decreases left@.len() - index,
    {
        proof {
            assert(left@.skip(index as int).drop_first() =~= left@.skip(index + 1));
            assert(right@.skip(index as int).drop_first() =~= right@.skip(index + 1));
        }
        if left[index] != right[index] {
            return left[index] < right[index];
        }
        index = index + 1;
    }
    index < right.len()
}

fn component_precedes(left: &Component, right: &Component) -> (before: bool)
    ensures
        before == component_before(left@, right@),
{
    match (left, right) {
        (Component::Normal(left), Component::Normal(right)) => bytes_precede(
            left.as_slice(),
            right.as_slice(),
        ),
        (_, Component::Root) => false,
        (Component::Root, _) => true,
        (_, Component::Current) => false,
        (Component::Current, _) => true,
        (_, Component::Parent) => false,
        (Component::Parent, _) => true,
    }
}

/// Whether a path comes before another.
pub fn precedes(left: &[u8], right: &[u8]) -> (before: bool)
    ensures
        before == path_before(left@, right@),
{
    let left_components = components(left);
    let right_components = components(right);
    let ghost lefts = component_views(left_components@);
    let ghost rights = component_views(right_components@);
    let mut index: usize = 0;
    proof {
        assert(lefts.skip(0) =~= lefts);
        assert(rights.skip(0) =~= rights);
    }
    while index < left_components.len() && index < right_components.len()
        invariant
            lefts == component_views(left_components@),
            rights == component_views(right_components@),
            index <= lefts.len(),
            index <= rights.len(),
            path_before(left@, right@) == components_before(lefts, rights),
            components_before(lefts.skip(index as int), rights.skip(index as int))
                == components_before(lefts, rights),
        decreases lefts.len() - index,
    {
        proof {
            assert(lefts.skip(index as int).drop_first() =~= lefts.skip(index + 1));
            assert(rights.skip(index as int).drop_first() =~= rights.skip(index + 1));
            assert(lefts.skip(index as int)[0] == left_components@[index as int]@);
            assert(rights.skip(index as int)[0] == right_components@[index as int]@);
        }
        if !same_component(&left_components[index], &right_components[index]) {
            return component_precedes(&left_components[index], &right_components[index]);
        }
        index = index + 1;
    }
    index < right_components.len()
}

proof fn lemma_bytes_order(left: Seq<u8>, right: Seq<u8>, third: Seq<u8>)
    ensures
        !bytes_before(left, left),
        left != right ==> bytes_before(left, right) || bytes_before(right, left),
        bytes_before(left, right) && bytes_before(right, third) ==> bytes_before(left, third),
    decreases left.len(),
{
    if left.len() > 0 && right.len() > 0 {
        if third.len() > 0 {
            lemma_bytes_order(left.drop_first(), right.drop_first(), third.drop_first());
        } else {
            lemma_bytes_order(left.drop_first(), right.drop_first(), third);
        }
        assert(left =~= seq![left[0]] + left.drop_first());
        assert(right =~= seq![right[0]] + right.drop_first());
    } else if left.len() == 0 && right.len() == 0 {
        assert(left =~= right);
    }
    if left.len() > 0 {
        lemma_bytes_order(left.drop_first(), left.drop_first(), left.drop_first());
    }
}

proof fn lemma_component_order(left: ComponentView, right: ComponentView, third: ComponentView)
    ensures
        !component_before(left, left),
        left != right ==> component_before(left, right) || component_before(right, left),
        component_before(left, right) && component_before(right, third) ==> component_before(
            left,
            third,
        ),
{
    let names = |component: ComponentView|
        match component {
            ComponentView::Normal(name) => name,
            _ => seq![],
        };
    lemma_bytes_order(names(left), names(right), names(third));
}

/// The order of component lists is total and strict.
pub proof fn lemma_components_order(
    left: Seq<ComponentView>,
    right: Seq<ComponentView>,
    third: Seq<ComponentView>,
)
    ensures
        !components_before(left, left),
        left != right ==> components_before(left, right) || components_before(right, left),
        components_before(left, right) && components_before(right, third) ==> components_before(
            left,
            third,
        ),
    decreases left.len(),
{
    if left.len() > 0 && right.len() > 0 {
        if third.len() > 0 {
            lemma_components_order(left.drop_first(), right.drop_first(), third.drop_first());
            lemma_component_order(left[0], right[0], third[0]);
            lemma_component_order(left[0], left[0], left[0]);
            lemma_component_order(right[0], left[0], right[0]);
        } else {
            lemma_components_order(left.drop_first(), right.drop_first(), third);
            lemma_component_order(left[0], right[0], left[0]);
        }
        assert(left =~= seq![left[0]] + left.drop_first());
        assert(right =~= seq![right[0]] + right.drop_first());
    } else if left.len() == 0 && right.len() == 0 {
        assert(left =~= right);
    }
    if left.len() > 0 {
        lemma_components_order(left.drop_first(), left.drop_first(), left.drop_first());
    }
}

/// `std::str::from_utf8`: whether some bytes are text in UTF-8.
#[verifier::external_body]
fn is_utf8(bytes: &[u8]) -> (valid: bool)
    ensures
        valid == vstd::utf8::valid_utf8(bytes@),
{
    std::str::from_utf8(bytes).is_ok()
}

/// The bytes of the word "event".
pub open spec fn event_prefix() -> Seq<u8> {
    seq![101u8, 118u8, 101u8, 110u8, 116u8]
}

/// Whether a path leads to an event node, by its name.
pub open spec fn names_event(path: Seq<u8>) -> bool {
    match file_name_of(path) {
        Some(name) => vstd::utf8::valid_utf8(name) && event_prefix().is_prefix_of(name),
        None => false,
    }
}

/// Whether a path leads to an event node, by its name.
pub fn is_event_filename(path: &[u8]) -> (event: bool)
    ensures
        event == names_event(path@),
{
    match file_name(path) {
        Some(name) => {
            let starts = name.len() >= 5 && name[0] == 101 && name[1] == 118 && name[2] == 101
                && name[3] == 110 && name[4] == 116;
            proof {
                let prefix = event_prefix();
                if starts {
                    assert(name@.subrange(0, 5) =~= prefix);
                }
                if prefix.is_prefix_of(name@) {
                    let start = name@.subrange(0, 5);
                    assert(start == prefix);
                    assert(start[0] == 101 && start[1] == 118 && start[2] == 101 && start[3] == 110
                        && start[4] == 116);
                }
            }
            starts && is_utf8(name.as_slice())
        },
        None => false,
    }
}

} // verus!
