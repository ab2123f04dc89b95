//! Which display shows the program.
use vstd::prelude::*;
use vstd::string::*;

use crate::ordered::Ranked;

verus! {

/// How one sequence of bytes stands to another.
#[derive(Clone, Copy, Debug, PartialEq, Eq, Structural)]
pub enum BytesOrder {
    Below,
    Same,
    Above,
}

/// Whether a sequence of bytes comes before another, byte by byte; a beginning comes before
/// what it begins.
pub open spec fn bytes_below(a: Seq<u8>, b: Seq<u8>) -> bool
    decreases a.len(),
{
    if b.len() == 0 {
        false
    } else if a.len() == 0 {
        true
    } else if a[0] != b[0] {
        a[0] < b[0]
    } else {
        bytes_below(a.drop_first(), b.drop_first())
    }
}

/// Bytes are ordered: of two sequences exactly one comes first unless they are the same, and
/// what comes before also comes before everything after.
pub proof fn bytes_are_ordered(a: Seq<u8>, b: Seq<u8>, c: Seq<u8>)
    ensures
        !(bytes_below(a, b) && bytes_below(b, a)),
        bytes_below(a, b) || bytes_below(b, a) || a == b,
        bytes_below(a, b) && bytes_below(b, c) ==> bytes_below(a, c),
        !bytes_below(a, a),
    decreases a.len() + b.len() + c.len(),
{
    if a.len() > 0 && b.len() > 0 && c.len() > 0 {
        bytes_are_ordered(a.drop_first(), b.drop_first(), c.drop_first());
        if a[0] == b[0] && a.drop_first() == b.drop_first() {
            assert(a =~= seq![a[0]] + a.drop_first());
            assert(b =~= seq![b[0]] + b.drop_first());
        }
    } else if a.len() > 0 && b.len() > 0 {
        bytes_are_ordered(a.drop_first(), b.drop_first(), c);
        if a[0] == b[0] && a.drop_first() == b.drop_first() {
            assert(a =~= seq![a[0]] + a.drop_first());
            assert(b =~= seq![b[0]] + b.drop_first());
        }
    } else if a.len() == 0 && b.len() == 0 {
        assert(a =~= b);
    }
    if a.len() > 0 {
        bytes_not_below_itself(a);
    }
}

proof fn bytes_not_below_itself(a: Seq<u8>)
    ensures
        !bytes_below(a, a),
    decreases a.len(),
{
    if a.len() > 0 {
        bytes_not_below_itself(a.drop_first());
    }
}

/// Finds how one sequence of bytes stands to another.
pub fn order_bytes(a: &[u8], b: &[u8]) -> (order: BytesOrder)
    ensures
        match order {
            BytesOrder::Below => bytes_below(a@, b@) && a@ != b@,
            BytesOrder::Same => a@ == b@,
            BytesOrder::Above => bytes_below(b@, a@) && a@ != b@,
        },
{
    let mut i: usize = 0;
    assert(a@.skip(0) =~= a@);
    assert(b@.skip(0) =~= b@);
    while i < a.len() && i < b.len()
        invariant
            i <= a@.len(),
            i <= b@.len(),
            forall|k: int| 0 <= k < i ==> a@[k] == b@[k],
            bytes_below(a@, b@) == bytes_below(a@.skip(i as int), b@.skip(i as int)),
            bytes_below(b@, a@) == bytes_below(b@.skip(i as int), a@.skip(i as int)),
        decreases a@.len() - i,
    {
        assert(a@.skip(i as int)[0] == a@[i as int]);
        assert(b@.skip(i as int)[0] == b@[i as int]);
        if a[i] < b[i] {
            return BytesOrder::Below;
        }
        if b[i] < a[i] {
            return BytesOrder::Above;
        }
        assert(a@.skip(i as int).drop_first() =~= a@.skip(i + 1));
        assert(b@.skip(i as int).drop_first() =~= b@.skip(i + 1));
        i = i + 1;
    }
    if a.len() < b.len() {
        BytesOrder::Below
    } else if b.len() < a.len() {
        BytesOrder::Above
    } else {
        assert(a@ =~= b@);
        BytesOrder::Same
    }
}

/// What is known of a display.
#[derive(Debug)]
pub struct MonitorDescriptor {
    pub x: i32,
    pub y: i32,
    pub name: String,
    pub width: u32,
    pub height: u32,
    pub refresh_millihertz: u32,
    pub scale_bits: u64,
}

/// What is known of a display, with the bytes of its name.
#[verifier::ext_equal]
pub struct DescriptorModel {
    pub x: i32,
    pub y: i32,
    pub name: Seq<u8>,
    pub width: u32,
    pub height: u32,
    pub refresh_millihertz: u32,
    pub scale_bits: u64,
}

impl View for MonitorDescriptor {
    type V = DescriptorModel;

    open spec fn view(&self) -> DescriptorModel {
        DescriptorModel {
            x: self.x,
            y: self.y,
            name: vstd::utf8::encode_utf8(self.name@),
            width: self.width,
            height: self.height,
            refresh_millihertz: self.refresh_millihertz,
            scale_bits: self.scale_bits,
        }
    }
}

/// Whether a display comes before another: by its place, then its name, size, rate and scale.
pub open spec fn comes_before(a: DescriptorModel, b: DescriptorModel) -> bool {
    if a.x != b.x {
        a.x < b.x
    } else if a.y != b.y {
        a.y < b.y
    } else if a.name != b.name {
        bytes_below(a.name, b.name)
    } else if a.width != b.width {
        a.width < b.width
    } else if a.height != b.height {
        a.height < b.height
    } else if a.refresh_millihertz != b.refresh_millihertz {
        a.refresh_millihertz < b.refresh_millihertz
    } else {
        a.scale_bits < b.scale_bits
    }
}

/// Displays are ordered: two that differ have an order, and it carries over.
pub proof fn displays_are_ordered(a: DescriptorModel, b: DescriptorModel, c: DescriptorModel)
    ensures
        !comes_before(a, a),
        !(comes_before(a, b) && comes_before(b, a)),
        comes_before(a, b) || comes_before(b, a) || a == b,
        comes_before(a, b) && comes_before(b, c) ==> comes_before(a, c),
        comes_before(a, b) && !comes_before(c, b) ==> comes_before(a, c),
{
    bytes_are_ordered(a.name, b.name, c.name);
    bytes_are_ordered(b.name, c.name, a.name);
    bytes_are_ordered(c.name, b.name, a.name);
    if !comes_before(a, b) && !comes_before(b, a) {
        assert(a =~= b);
    }
}

impl MonitorDescriptor {
    /// Tells how a display stands to another.
    pub fn order(&self, other: &MonitorDescriptor) -> (order: BytesOrder)
        ensures
            match order {
                BytesOrder::Below => comes_before(self@, other@) && self@ != other@,
                BytesOrder::Same => self@ == other@,
                BytesOrder::Above => comes_before(other@, self@) && self@ != other@,
            },
    {
        if self.x != other.x {
            return if self.x < other.x {
                BytesOrder::Below
            } else {
                BytesOrder::Above
            };
        }
        if self.y != other.y {
            return if self.y < other.y {
                BytesOrder::Below
            } else {
                BytesOrder::Above
            };
        }
        let names: BytesOrder = order_bytes(
            self.name.as_str().as_bytes(),
            other.name.as_str().as_bytes(),
        );
        if names != BytesOrder::Same {
            return names;
        }
        if self.width != other.width {
            return if self.width < other.width {
                BytesOrder::Below
            } else {
                BytesOrder::Above
            };
        }
        if self.height != other.height {
            return if self.height < other.height {
                BytesOrder::Below
            } else {
                BytesOrder::Above
            };
        }
        if self.refresh_millihertz != other.refresh_millihertz {
            return if self.refresh_millihertz < other.refresh_millihertz {
                BytesOrder::Below
            } else {
                BytesOrder::Above
            };
        }
        if self.scale_bits != other.scale_bits {
            return if self.scale_bits < other.scale_bits {
                BytesOrder::Below
            } else {
                BytesOrder::Above
            };
        }
        assert(self@ =~= other@);
        BytesOrder::Same
    }
}

/// A display and what identifies it while it is connected.
#[derive(Debug)]
pub struct MonitorEntry<I> {
    pub descriptor: MonitorDescriptor,
    pub identity: I,
}

/// Where a display goes among displays in order: after those that are alike.
pub open spec fn place_for<I>(sorted: Seq<MonitorEntry<I>>, entry: MonitorEntry<I>) -> int
    decreases sorted.len(),
{
    if sorted.len() == 0 {
        0
    } else if comes_before(entry.descriptor@, sorted.last().descriptor@) {
        place_for(sorted.drop_last(), entry)
    } else {
        sorted.len() as int
    }
}

/// Displays in order; those that are alike keep the order they had.
pub open spec fn monitor_order<I>(inventory: Seq<MonitorEntry<I>>) -> Seq<MonitorEntry<I>>
    decreases inventory.len(),
{
    if inventory.len() == 0 {
        Seq::empty()
    } else {
        let sorted = monitor_order(inventory.drop_last());
        sorted.insert(place_for(sorted, inventory.last()), inventory.last())
    }
}

/// Whether no display stands after one that it comes before.
pub open spec fn is_in_order<I>(inventory: Seq<MonitorEntry<I>>) -> bool {
    forall|i: int, j: int|
        0 <= i < j < inventory.len() ==> !comes_before(
            (#[trigger] inventory[j]).descriptor@,
            (#[trigger] inventory[i]).descriptor@,
        )
}

proof fn lemma_place<I>(sorted: Seq<MonitorEntry<I>>, entry: MonitorEntry<I>)
    requires
        is_in_order(sorted),
    ensures
        0 <= place_for(sorted, entry) <= sorted.len(),
        forall|i: int|
            0 <= i < place_for(sorted, entry) ==> !comes_before(
                entry.descriptor@,
                (#[trigger] sorted[i]).descriptor@,
            ),
        forall|i: int|
            place_for(sorted, entry) <= i < sorted.len() ==> comes_before(
                entry.descriptor@,
                (#[trigger] sorted[i]).descriptor@,
            ),
    decreases sorted.len(),
{
    if sorted.len() > 0 {
        let rest = sorted.drop_last();
        assert forall|i: int, j: int| 0 <= i < j < rest.len() implies !comes_before(
            (#[trigger] rest[j]).descriptor@,
            (#[trigger] rest[i]).descriptor@,
        ) by {
            assert(rest[i] == sorted[i] && rest[j] == sorted[j]);
        }
        if comes_before(entry.descriptor@, sorted.last().descriptor@) {
            lemma_place(rest, entry);
            assert forall|i: int| 0 <= i < place_for(sorted, entry) implies !comes_before(
                entry.descriptor@,
                (#[trigger] sorted[i]).descriptor@,
            ) by {
                assert(rest[i] == sorted[i]);
            }
            assert forall|i: int| place_for(sorted, entry) <= i < sorted.len() implies comes_before(
                entry.descriptor@,
                (#[trigger] sorted[i]).descriptor@,
            ) by {
                if i < rest.len() {
                    assert(rest[i] == sorted[i]);
                }
            }
        } else {
            assert forall|i: int| 0 <= i < sorted.len() implies !comes_before(
                entry.descriptor@,
                (#[trigger] sorted[i]).descriptor@,
            ) by {
                let last = sorted.last().descriptor@;
                let here = sorted[i].descriptor@;
                displays_are_ordered(entry.descriptor@, here, last);
                if i < sorted.len() - 1 {
                    assert(!comes_before(sorted[sorted.len() - 1].descriptor@, here));
                }
            }
        }
    }
}

/// The displays that are like a given one, in their order.
pub open spec fn alike<I>(inventory: Seq<MonitorEntry<I>>, descriptor: DescriptorModel) -> Seq<
    MonitorEntry<I>,
>
    decreases inventory.len(),
{
    if inventory.len() == 0 {
        Seq::empty()
    } else if inventory.last().descriptor@ == descriptor {
        alike(inventory.drop_last(), descriptor).push(inventory.last())
    } else {
        alike(inventory.drop_last(), descriptor)
    }
}

proof fn lemma_alike_behind<I>(
    front: Seq<MonitorEntry<I>>,
    back: Seq<MonitorEntry<I>>,
    descriptor: DescriptorModel,
)
    ensures
        alike(front + back, descriptor) == alike(front, descriptor) + alike(back, descriptor),
    decreases back.len(),
{
    if back.len() == 0 {
        assert(front + back =~= front);
    } else {
        lemma_alike_behind(front, back.drop_last(), descriptor);
        assert((front + back).drop_last() =~= front + back.drop_last());
        assert((front + back).last() == back.last());
        assert(alike(front + back, descriptor) =~= alike(front, descriptor) + alike(
            back,
            descriptor,
        ));
    }
}

proof fn lemma_none_alike<I>(inventory: Seq<MonitorEntry<I>>, descriptor: DescriptorModel)
    requires
        forall|i: int|
            0 <= i < inventory.len() ==> (#[trigger] inventory[i]).descriptor@ != descriptor,
    ensures
        alike(inventory, descriptor).len() == 0,
    decreases inventory.len(),
{
    if inventory.len() > 0 {
        let rest = inventory.drop_last();
        assert forall|i: int| 0 <= i < rest.len() implies (#[trigger] rest[i]).descriptor@
            != descriptor by {
            assert(rest[i] == inventory[i]);
        }
        assert(inventory.last() == inventory[inventory.len() - 1]);
        lemma_none_alike(rest, descriptor);
    }
}

/// Displays that are alike keep the order they had.
pub proof fn displays_alike_keep_their_order<I>(
    inventory: Seq<MonitorEntry<I>>,
    descriptor: DescriptorModel,
)
    ensures
        alike(monitor_order(inventory), descriptor) == alike(inventory, descriptor),
    decreases inventory.len(),
{
    if inventory.len() > 0 {
        let rest = inventory.drop_last();
        let entry = inventory.last();
        let sorted = monitor_order(rest);
        displays_alike_keep_their_order(rest, descriptor);
        ordering_keeps_the_displays(rest);
        lemma_place(sorted, entry);
        let place = place_for(sorted, entry);
        let front = sorted.take(place);
        let back = sorted.skip(place);
        let middle = seq![entry];
        assert(sorted.insert(place, entry) =~= (front + middle) + back);
        assert(sorted =~= front + back);
        lemma_alike_behind(front + middle, back, descriptor);
        lemma_alike_behind(front, middle, descriptor);
        lemma_alike_behind(front, back, descriptor);
        assert(middle.drop_last() =~= Seq::<MonitorEntry<I>>::empty());
        assert(alike(middle.drop_last(), descriptor) =~= Seq::<MonitorEntry<I>>::empty());
        if entry.descriptor@ == descriptor {
            assert forall|i: int| 0 <= i < back.len() implies (#[trigger] back[i]).descriptor@
                != descriptor by {
                assert(back[i] == sorted[place + i]);
                displays_are_ordered(descriptor, descriptor, descriptor);
            }
            lemma_none_alike(back, descriptor);
            assert(alike(middle, descriptor) =~= middle);
            assert(alike(monitor_order(inventory), descriptor) =~= alike(rest, descriptor).push(
                entry,
            ));
        } else {
            assert(alike(middle, descriptor) =~= Seq::<MonitorEntry<I>>::empty());
            assert(alike(monitor_order(inventory), descriptor) =~= alike(rest, descriptor));
        }
    }
}

/// Displays in order are in order, and they are the same displays.
pub proof fn ordering_keeps_the_displays<I>(inventory: Seq<MonitorEntry<I>>)
    ensures
        is_in_order(monitor_order(inventory)),
        monitor_order(inventory).len() == inventory.len(),
        monitor_order(inventory).to_multiset() == inventory.to_multiset(),
    decreases inventory.len(),
{
    if inventory.len() > 0 {
        let rest = inventory.drop_last();
        let entry = inventory.last();
        ordering_keeps_the_displays(rest);
        let sorted = monitor_order(rest);
        lemma_place(sorted, entry);
        let place = place_for(sorted, entry);
        let after = sorted.insert(place, entry);
        assert forall|i: int, j: int| 0 <= i < j < after.len() implies !comes_before(
            (#[trigger] after[j]).descriptor@,
            (#[trigger] after[i]).descriptor@,
        ) by {
            let a = if i < place {
                i
            } else {
                i - 1
            };
            let b = if j < place {
                j
            } else {
                j - 1
            };
            if i == place {
                displays_are_ordered(entry.descriptor@, after[j].descriptor@, entry.descriptor@);
                assert(after[j] == sorted[b]);
            } else if j == place {
                assert(after[i] == sorted[a]);
            } else {
                assert(after[i] == sorted[a]);
                assert(after[j] == sorted[b]);
            }
        }
        broadcast use vstd::seq_lib::group_to_multiset_ensures;

        assert(inventory =~= rest.push(entry));
        assert(after.to_multiset() =~= sorted.to_multiset().insert(entry));
        assert(inventory.to_multiset() =~= rest.to_multiset().insert(entry));
    } else {
        assert(monitor_order(inventory) =~= inventory);
    }
}

/// Puts displays in order.
pub fn sort_monitor_entries<I>(inventory: &mut Vec<MonitorEntry<I>>)
    ensures
        final(inventory)@ == monitor_order(old(inventory)@),
        is_in_order(final(inventory)@),
{
    let ghost before = inventory@;
    let mut i: usize = 0;
    assert(before.take(0) =~= Seq::<MonitorEntry<I>>::empty());
    assert(inventory@ =~= monitor_order(before.take(0)) + before.skip(0));
    while i < inventory.len()
        invariant
            i <= before.len(),
            inventory@.len() == before.len(),
            before == old(inventory)@,
            inventory@ == monitor_order(before.take(i as int)) + before.skip(i as int),
        decreases before.len() - i,
    {
        let ghost sorted = monitor_order(before.take(i as int));
        proof {
            ordering_keeps_the_displays(before.take(i as int));
        }
        assert(inventory@[i as int] == before.skip(i as int)[0]);
        let entry: MonitorEntry<I> = inventory.remove(i);
        assert(entry == before[i as int]);
        assert(inventory@ =~= sorted + before.skip(i + 1));
        let mut slot: usize = i;
        assert(sorted.take(slot as int) =~= sorted);
        while slot > 0 && entry.descriptor.order(&inventory[slot - 1].descriptor)
            == BytesOrder::Below
            invariant
                slot <= i,
                sorted.len() == i,
                inventory@.len() >= i,
                inventory@ == sorted + before.skip(i + 1),
                place_for(sorted, entry) == place_for(sorted.take(slot as int), entry),
            decreases slot,
        {
            assert(inventory@[slot - 1] == sorted[slot - 1]);
            assert(sorted.take(slot as int).drop_last() =~= sorted.take(slot - 1));
            assert(sorted.take(slot as int).last() == sorted[slot - 1]);
            slot = slot - 1;
        }
        proof {
            if slot > 0 {
                let shorter = sorted.take(slot as int);
                assert(shorter.last() == sorted[slot - 1]);
                assert(inventory@[slot - 1] == sorted[slot - 1]);
                displays_are_ordered(
                    entry.descriptor@,
                    shorter.last().descriptor@,
                    entry.descriptor@,
                );
            }
            assert(slot == place_for(sorted, entry));
            assert(before.take(i + 1).drop_last() =~= before.take(i as int));
            assert(before.take(i + 1).last() == entry);
            assert(monitor_order(before.take(i + 1)) == sorted.insert(slot as int, entry));
        }
        inventory.insert(slot, entry);
        assert(inventory@ =~= sorted.insert(slot as int, entry) + before.skip(i + 1));
        i = i + 1;
    }
    assert(before.take(i as int) =~= before);
    assert(inventory@ =~= monitor_order(before));
    proof {
        ordering_keeps_the_displays(before);
    }
}

/// What has become of the selected display.
#[derive(Clone, Copy, Debug, PartialEq, Eq, Structural)]
pub enum MonitorChange {
    Unchanged,
    Disconnected,
    Reconnected(usize),
}

/// Why no display can be selected.
#[derive(Clone, Copy, Debug, PartialEq, Eq, Structural)]
pub enum MonitorSelectionError {
    Unavailable,
    AmbiguousDescriptors,
}

/// Where the window of the program belongs.
#[derive(Clone, Copy, Debug, PartialEq, Eq, Structural)]
pub enum WindowTarget {
    /// The selected display is gone: nothing is shown.
    Suspended,
    /// The window is on another display and moves to this one, hidden until it is there.
    Rehome(usize),
    /// The window is on the selected display and is shown.
    Shown,
}

/// Whether two displays that follow one another cannot be told apart.
pub open spec fn has_twins<I>(inventory: Seq<MonitorEntry<I>>) -> bool {
    exists|i: int|
        0 <= i < inventory.len() - 1 && (#[trigger] inventory[i]).descriptor@ == inventory[i
            + 1].descriptor@
}

/// Among displays in order, two that cannot be told apart follow one another.
pub proof fn twins_follow_one_another<I>(inventory: Seq<MonitorEntry<I>>, i: int, j: int)
    requires
        is_in_order(inventory),
        0 <= i < j < inventory.len(),
        inventory[i].descriptor@ == inventory[j].descriptor@,
    ensures
        has_twins(inventory),
{
    let a = inventory[i].descriptor@;
    let b = inventory[i + 1].descriptor@;
    if i + 1 < j {
        assert(!comes_before(inventory[j].descriptor@, b));
        displays_are_ordered(a, b, b);
        assert(!comes_before(b, a));
    }
    assert(inventory[i].descriptor@ == inventory[i + 1].descriptor@);
}

/// The first display with an identity.
pub open spec fn first_with<I>(inventory: Seq<MonitorEntry<I>>, identity: I) -> Option<usize>
    decreases inventory.len(),
{
    if inventory.len() == 0 {
        None
    } else {
        match first_with(inventory.drop_last(), identity) {
            Some(index) => Some(index),
            None => if inventory.last().identity == identity {
                Some((inventory.len() - 1) as usize)
            } else {
                None
            },
        }
    }
}

proof fn lemma_first_with<I>(inventory: Seq<MonitorEntry<I>>, identity: I, index: int)
    requires
        0 <= index < inventory.len() <= usize::MAX,
        inventory[index].identity == identity,
        forall|i: int| 0 <= i < index ==> (#[trigger] inventory[i]).identity != identity,
    ensures
        first_with(inventory, identity) == Some(index as usize),
    decreases inventory.len(),
{
    let rest = inventory.drop_last();
    if index < rest.len() {
        lemma_first_with(rest, identity, index);
    } else {
        lemma_none_with(rest, identity);
    }
}

proof fn lemma_none_with<I>(inventory: Seq<MonitorEntry<I>>, identity: I)
    requires
        forall|i: int| 0 <= i < inventory.len() ==> (#[trigger] inventory[i]).identity != identity,
    ensures
        first_with(inventory, identity) is None,
    decreases inventory.len(),
{
    if inventory.len() > 0 {
        lemma_none_with(inventory.drop_last(), identity);
    }
}

/// Keeps the program on the display that was selected.
pub struct MonitorPolicy<I> {
    pub selected: I,
    pub connected: bool,
}

/// The policy after it has seen the displays in order, and what has become of the selected one.
pub open spec fn updated<I>(policy: MonitorPolicy<I>, inventory: Seq<MonitorEntry<I>>) -> (
    MonitorPolicy<I>,
    MonitorChange,
) {
    let found = first_with(inventory, policy.selected);
    (
        MonitorPolicy { selected: policy.selected, connected: found is Some },
        match (policy.connected, found) {
            (true, None) => MonitorChange::Disconnected,
            (false, Some(index)) => MonitorChange::Reconnected(index),
            _ => MonitorChange::Unchanged,
        },
    )
}

impl<I: Ranked> MonitorPolicy<I> {
    /// Puts displays in order and selects one by its place. Displays that cannot be told apart
    /// have no place.
    pub fn select(inventory: &mut Vec<MonitorEntry<I>>, index: usize) -> (selected: Result<
        (Self, usize),
        MonitorSelectionError,
    >)
        ensures
            final(inventory)@ == monitor_order(old(inventory)@),
            match selected {
                Ok((policy, place)) => !has_twins(final(inventory)@) && place == index && index
                    < old(inventory)@.len() && policy == (MonitorPolicy {
                    selected: final(inventory)@[index as int].identity,
                    connected: true,
                }),
                Err(MonitorSelectionError::AmbiguousDescriptors) => has_twins(
                    final(inventory)@,
                ),
                Err(MonitorSelectionError::Unavailable) => !has_twins(final(inventory)@)
                    && index >= old(inventory)@.len(),
            },
    {
        sort_monitor_entries(inventory);
        proof {
            ordering_keeps_the_displays(old(inventory)@);
        }
        let mut i: usize = 1;
        while i < inventory.len()
            invariant
                1 <= i,
                i <= inventory@.len() || inventory@.len() == 0,
                inventory@ == monitor_order(old(inventory)@),
                forall|k: int|
                    0 <= k < i - 1 && k < inventory@.len() - 1 ==> (
                    #[trigger] inventory@[k]).descriptor@ != inventory@[k + 1].descriptor@,
            decreases inventory@.len() - i,
        {
            if inventory[i - 1].descriptor.order(&inventory[i].descriptor) == BytesOrder::Same {
                assert(inventory@[i - 1].descriptor@ == inventory@[i - 1 + 1].descriptor@);
                return Err(MonitorSelectionError::AmbiguousDescriptors);
            }
            assert(inventory@[i - 1].descriptor@ != inventory@[i as int].descriptor@);
            i = i + 1;
        }
        if index >= inventory.len() {
            return Err(MonitorSelectionError::Unavailable);
        }
        Ok((MonitorPolicy { selected: inventory[index].identity, connected: true }, index))
    }

    /// Puts displays in order and finds out what has become of the selected one. Another
    /// display never takes its place.
    pub fn update(&mut self, inventory: &mut Vec<MonitorEntry<I>>) -> (change: MonitorChange)
        ensures
            final(inventory)@ == monitor_order(old(inventory)@),
            (*final(self), change) == updated(*old(self), final(inventory)@),
    {
        sort_monitor_entries(inventory);
        match self.selected_index(inventory) {
            None => {
                if self.connected {
                    self.connected = false;
                    MonitorChange::Disconnected
                } else {
                    MonitorChange::Unchanged
                }
            },
            Some(index) => {
                if self.connected {
                    MonitorChange::Unchanged
                } else {
                    self.connected = true;
                    MonitorChange::Reconnected(index)
                }
            },
        }
    }

    /// Finds the selected display.
    pub fn selected_index(&self, inventory: &Vec<MonitorEntry<I>>) -> (index: Option<usize>)
        ensures
            index == first_with(inventory@, self.selected),
            index matches Some(index) ==> index < inventory@.len(),
    {
        let mut i: usize = 0;
        while i < inventory.len()
            invariant
                i <= inventory@.len(),
                forall|k: int|
                    0 <= k < i ==> (#[trigger] inventory@[k]).identity != self.selected,
            decreases inventory@.len() - i,
        {
            let identity: I = inventory[i].identity;
            if !identity.ranks_below(&self.selected) && !self.selected.ranks_below(&identity) {
                proof {
                    I::rank_is_injective(identity, self.selected);
                    lemma_first_with(inventory@, self.selected, i as int);
                }
                return Some(i);
            }
            i = i + 1;
        }
        proof {
            lemma_none_with(inventory@, self.selected);
        }
        None
    }

    /// Whether a resize of a window on the display `current` counts.
    pub fn accepts_resize(&self, current: Option<&I>) -> (accepts: bool)
        ensures
            accepts == (self.connected && current == Some(&self.selected)),
    {
        match current {
            None => false,
            Some(current) => {
                proof {
                    if current.rank() == self.selected.rank() {
                        I::rank_is_injective(*current, self.selected);
                    }
                }
                self.connected && !current.ranks_below(&self.selected)
                    && !self.selected.ranks_below(current)
            },
        }
    }

    /// Finds where the window belongs that is on the display `current`.
    pub fn window_target(&self, inventory: &Vec<MonitorEntry<I>>, current: Option<&I>) -> (target:
        WindowTarget)
        ensures
            target == (match first_with(inventory@, self.selected) {
                None => WindowTarget::Suspended,
                Some(index) => if self.connected && current == Some(&self.selected) {
                    WindowTarget::Shown
                } else {
                    WindowTarget::Rehome(index)
                },
            }),
    {
        match self.selected_index(inventory) {
            None => WindowTarget::Suspended,
            Some(index) => if self.accepts_resize(current) {
                WindowTarget::Shown
            } else {
                WindowTarget::Rehome(index)
            },
        }
    }
}

/// While the selected display is gone, no window is resized; when it comes back, it is the one
/// that was selected.
pub proof fn the_selected_display_is_never_replaced<I: Ranked>(
    policy: MonitorPolicy<I>,
    inventory: Seq<MonitorEntry<I>>,
)
    requires
        inventory.len() <= usize::MAX,
    ensures
        updated(policy, inventory).0.selected == policy.selected,
        updated(policy, inventory).1 is Disconnected ==> !updated(policy, inventory).0.connected,
        updated(policy, inventory).1 matches MonitorChange::Reconnected(index) ==> index
            < inventory.len() && inventory[index as int].identity == policy.selected,
{
    lemma_found(inventory, policy.selected);
}

proof fn lemma_found<I>(inventory: Seq<MonitorEntry<I>>, identity: I)
    requires
        inventory.len() <= usize::MAX,
    ensures
        first_with(inventory, identity) matches Some(index) ==> index < inventory.len()
            && inventory[index as int].identity == identity,
    decreases inventory.len(),
{
    if inventory.len() > 0 {
        lemma_found(inventory.drop_last(), identity);
    }
}

} // verus!
