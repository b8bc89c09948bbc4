//! The allocator that carves windows out of a memory and keeps track of the
//! ones in use.
//!
//! Windows are handed out one after the other from a cursor that only moves
//! forward: the bytes of a window that was given back are not handed out
//! again.

use crate::fault::Fault;
use crate::mem::_Memory;
use crate::pointer::Pointer;
use crate::text::{hex_upper_4, push_hex_upper_4};
use vstd::prelude::*;
use vstd::string::StringExecFns;

verus! {

/// One range of addresses in use: `size` bytes from `address` on.
#[derive(Debug, Clone, Copy, PartialEq, Eq)]
pub struct MappedMemory {
    pub address: usize,
    pub size: usize,
}

impl MappedMemory {
    /// The address after the range's last byte.
    pub open spec fn end(self) -> int {
        self.address + self.size
    }

    /// Whether `address` is one of the range's bytes.
    pub open spec fn covers(self, address: usize) -> bool {
        self.address <= address < self.end()
    }

    /// Whether the two ranges have a byte in common.
    pub open spec fn overlaps(self, other: MappedMemory) -> bool {
        self.address < other.end() && other.address < self.end() && self.size > 0 && other.size
            > 0
    }
}

/// What an allocator is, to its callers: the size of the memory it carves,
/// the cursor from which the next window is taken, and the ranges in use, in
/// the order in which they were handed out.
pub struct AddressSpace {
    pub capacity: nat,
    pub cursor: nat,
    pub live: Seq<MappedMemory>,
}

/// The place in `live` of the first range that covers `address`; the length
/// of `live` where none does.
pub open spec fn position(live: Seq<MappedMemory>, address: usize) -> int
    decreases live.len(),
{
    if live.len() == 0 {
        0
    } else if live.first().covers(address) {
        0
    } else {
        1 + position(live.drop_first(), address)
    }
}

impl AddressSpace {
    /// The memory's size is one that a machine address can hold, the cursor
    /// is inside the memory, the ranges in use lie before the cursor, and each
    /// lies before the ones handed out after it.
    pub open spec fn wf(self) -> bool {
        &&& self.capacity <= usize::MAX
        &&& self.cursor <= self.capacity
        &&& forall|i: int| 0 <= i < self.live.len() ==> (#[trigger] self.live[i]).end() <= self.cursor
        &&& forall|i: int, j: int|
            0 <= i < j < self.live.len() ==> (#[trigger] self.live[i]).end() <= (
            #[trigger] self.live[j]).address
    }

    /// The allocator of a memory of `capacity` bytes before any request.
    pub open spec fn fresh(capacity: nat) -> AddressSpace {
        AddressSpace { capacity, cursor: 0, live: Seq::empty() }
    }

    /// Whether `size` more bytes can be handed out.
    pub open spec fn can_allocate(self, size: usize) -> bool {
        self.cursor + size <= self.capacity
    }

    /// The range that an allocation of `size` bytes hands out.
    pub open spec fn next_window(self, size: usize) -> MappedMemory {
        MappedMemory { address: self.cursor as usize, size }
    }

    /// The allocator after it has handed out `size` bytes.
    pub open spec fn allocated(self, size: usize) -> AddressSpace {
        AddressSpace {
            capacity: self.capacity,
            cursor: self.cursor + size as nat,
            live: self.live.push(self.next_window(size)),
        }
    }

    /// Whether a range in use covers `address`.
    pub open spec fn is_mapped(self, address: usize) -> bool {
        position(self.live, address) < self.live.len()
    }

    /// The allocator after the first range that covers `address` was given
    /// back.
    pub open spec fn deallocated(self, address: usize) -> AddressSpace {
        AddressSpace {
            capacity: self.capacity,
            cursor: self.cursor,
            live: self.live.remove(position(self.live, address)),
        }
    }
}

/// `position` finds the first range that covers the address, and only
/// reports the length where none does.
pub proof fn lemma_position(live: Seq<MappedMemory>, address: usize)
    ensures
        0 <= position(live, address) <= live.len(),
        forall|i: int| 0 <= i < position(live, address) ==> !(#[trigger] live[i]).covers(address),
        position(live, address) < live.len() ==> live[position(live, address)].covers(address),
    decreases live.len(),
{
    if live.len() > 0 && !live.first().covers(address) {
        let rest = live.drop_first();
        lemma_position(rest, address);
        assert forall|i: int| 0 <= i < position(live, address) implies !(#[trigger] live[i]).covers(
            address,
        ) by {
            if i > 0 {
                assert(live[i] == rest[i - 1]);
            }
        }
    }
}

/// An allocator: the cursor, the ranges in use, and the size of the memory
/// that it carves. Its view is an [`AddressSpace`], which is well-formed at
/// all times.
#[derive(Debug)]
pub struct VirtualMemory {
    capacity: usize,
    mapped_memory: Vec<MappedMemory>,
    last_address: usize,
}

impl View for VirtualMemory {
    type V = AddressSpace;

    closed spec fn view(&self) -> AddressSpace {
        AddressSpace {
            capacity: self.capacity as nat,
            cursor: self.last_address as nat,
            live: self.mapped_memory@,
        }
    }
}

impl VirtualMemory {
    #[verifier::type_invariant]
    spec fn well_formed(&self) -> bool {
        self@.wf()
    }

    /// An allocator for `memory`, with nothing handed out.
    pub fn new(memory: &_Memory) -> (space: Self)
        ensures
            space@ == AddressSpace::fresh(memory@.len()),
            space@.wf(),
    {
        VirtualMemory { capacity: memory.len(), mapped_memory: Vec::new(), last_address: 0 }
    }

    /// Takes `size` bytes from the cursor, where the memory has them left,
    /// and gives the address of the first.
    fn find_fit(&mut self, size: usize) -> (address: Option<usize>)
        ensures
            old(self)@.can_allocate(size) ==> address == Some(old(self)@.cursor as usize)
                && final(self)@ == (AddressSpace {
                cursor: old(self)@.cursor + size as nat,
                ..old(self)@
            }),
            !old(self)@.can_allocate(size) ==> address.is_none() && final(self)@ == old(self)@,
    {
        proof {
            use_type_invariant(&*self);
        }
        let address = self.last_address;
        if size > self.capacity - address {
            return None;
        }
        self.last_address = address + size;
        Some(address)
    }

    /// The place of the first range in use that covers `address`.
    fn find_mapped_memory(&self, address: usize) -> (found: Option<usize>)
        ensures
            self@.is_mapped(address) ==> (found matches Some(index) && index == position(
                self@.live,
                address,
            )),
            !self@.is_mapped(address) ==> found.is_none(),
    {
        proof {
            use_type_invariant(self);
        }
        let mut index: usize = 0;
        while index < self.mapped_memory.len()
            invariant
                index <= self.mapped_memory@.len(),
                self@.wf(),
                forall|i: int| 0 <= i < index ==> !(#[trigger] self.mapped_memory@[i]).covers(address),
            decreases self.mapped_memory@.len() - index,
        {
            let range = &self.mapped_memory[index];
            if range.address <= address && address - range.address < range.size {
                proof {
                    lemma_position(self@.live, address);
                    let first = position(self@.live, address);
                    assert(self@.live[index as int].covers(address));
                    assert(first == index) by {
                        if first < index {
                            assert(self@.live[first].covers(address));
                        }
                    }
                }
                return Some(index);
            }
            index += 1;
        }
        proof {
            lemma_position(self@.live, address);
            let first = position(self@.live, address);
            if first < self@.live.len() {
                assert(self@.live[first].covers(address));
            }
        }
        None
    }

    /// Records the range of `size` bytes at `address` as in use, and gives
    /// its place among the ranges in use.
    fn map(&mut self, address: usize, size: usize) -> (index: usize)
        requires
            address + size <= old(self)@.cursor,
            forall|i: int|
                0 <= i < old(self)@.live.len() ==> (#[trigger] old(self)@.live[i]).end() <= address,
        ensures
            index == old(self)@.live.len(),
            final(self)@ == (AddressSpace {
                live: old(self)@.live.push(MappedMemory { address, size }),
                ..old(self)@
            }),
    {
        proof {
            use_type_invariant(&*self);
        }
        // The ranges change outside the allocator, which is well-formed at
        // every moment, and come back changed.
        let mut ranges: Vec<MappedMemory> = Vec::new();
        core::mem::swap(&mut self.mapped_memory, &mut ranges);
        ranges.push(MappedMemory { address, size });
        let index = ranges.len() - 1;
        core::mem::swap(&mut self.mapped_memory, &mut ranges);
        index
    }

    /// Takes the range at place `index` out of the ranges in use.
    fn unmap(&mut self, index: usize)
        requires
            index < old(self)@.live.len(),
        ensures
            final(self)@ == (AddressSpace {
                live: old(self)@.live.remove(index as int),
                ..old(self)@
            }),
    {
        proof {
            use_type_invariant(&*self);
        }
        let mut ranges: Vec<MappedMemory> = Vec::new();
        core::mem::swap(&mut self.mapped_memory, &mut ranges);
        ranges.remove(index);
        core::mem::swap(&mut self.mapped_memory, &mut ranges);
    }

    /// Hands out a window of `size` bytes at the cursor and moves the cursor
    /// past it. Refused where the memory has fewer bytes left.
    pub fn allocate(&mut self, size: usize) -> (r: Result<Pointer, Fault>)
        ensures
            old(self)@.can_allocate(size) ==> (r matches Ok(pointer) && pointer.address() == old(self)@.cursor && pointer.len() == size)
                && final(self)@ == old(self)@.allocated(size),
            !old(self)@.can_allocate(size) ==> (r matches Err(fault) && fault == (
            Fault::OutOfMemory {
                left: (old(self)@.capacity - old(self)@.cursor) as u64,
                requested: size as u64,
            })) && final(self)@ == old(self)@,
            final(self)@.wf(),
    {
        proof {
            use_type_invariant(&*self);
        }
        match self.find_fit(size) {
            Some(address) => {
                self.map(address, size);
                Ok(Pointer::new(address, size))
            },
            None => {
                let left = self.capacity - self.last_address;
                Err(Fault::OutOfMemory { left: left as u64, requested: size as u64 })
            },
        }
    }

    /// Gives back the first range in use that covers `address`. The cursor
    /// stays where it is. Refused where no range in use covers `address`.
    pub fn deallocate(&mut self, address: usize) -> (r: Result<(), Fault>)
        ensures
            old(self)@.is_mapped(address) ==> r == Ok::<(), Fault>(())
                && final(self)@ == old(self)@.deallocated(address),
            !old(self)@.is_mapped(address) ==> r == Err::<(), Fault>(
                Fault::UnmappedAddress { address: address as u64 },
            ) && final(self)@ == old(self)@,
            final(self)@.wf(),
    {
        proof {
            use_type_invariant(&*self);
            lemma_position(self@.live, address);
        }
        match self.find_mapped_memory(address) {
            Some(index) => {
                self.unmap(index);
                Ok(())
            },
            None => Err(Fault::UnmappedAddress { address: address as u64 }),
        }
    }

    /// Gives back the first range in use that covers the window's address,
    /// and shrinks the window to no bytes. Refused, with the window as it
    /// was, where no range in use covers its address.
    pub fn free(&mut self, pointer: &mut Pointer) -> (r: Result<(), Fault>)
        ensures
            final(pointer).address() == old(pointer).address(),
            old(self)@.is_mapped(old(pointer).address()) ==> r == Ok::<(), Fault>(())
                && final(self)@ == old(self)@.deallocated(old(pointer).address()) && final(pointer).len() == 0,
            !old(self)@.is_mapped(old(pointer).address()) ==> r == Err::<(), Fault>(
                Fault::UnmappedAddress { address: old(pointer).address() as u64 },
            ) && final(self)@ == old(self)@ && final(pointer).len() == old(pointer).len(),
            final(self)@.wf(),
    {
        match self.deallocate(pointer.address()) {
            Ok(()) => {
                pointer.revoke();
                Ok(())
            },
            Err(fault) => Err(fault),
        }
    }

    /// The ranges in use, one line each, as [`listing`] says.
    pub fn to_string(&self) -> (text: String)
        ensures
            text@ == listing(self@.live),
    {
        proof {
            use_type_invariant(self);
        }
        let mut text = String::new();
        let mut index: usize = 0;
        while index < self.mapped_memory.len()
            invariant
                index <= self.mapped_memory@.len(),
                self@.wf(),
                text@ == listing(self@.live.subrange(0, index as int)),
            decreases self.mapped_memory@.len() - index,
        {
            let range = &self.mapped_memory[index];
            let ghost before = text@;
            if index > 0 {
                text.append("\n");
            }
            text.append("address: 0x");
            push_hex_upper_4(&mut text, range.address as u128);
            text.append(", size: 0x");
            push_hex_upper_4(&mut text, range.address as u128 + range.size as u128);
            proof {
                let done = self@.live.subrange(0, index as int);
                let more = self@.live.subrange(0, index + 1);
                assert(more.drop_last() =~= done);
                assert(more.last() == *range);
                assert(text@ =~= listing(more));
            }
            index += 1;
        }
        assert(self@.live.subrange(0, index as int) =~= self@.live);
        text
    }
}

/// One line for a range in use: its first address and the address after its
/// last, each in hexadecimal of four digits or more.
pub open spec fn listing_line(range: MappedMemory) -> Seq<char> {
    "address: 0x"@ + hex_upper_4(range.address as nat) + ", size: 0x"@ + hex_upper_4(
        range.end() as nat,
    )
}

/// The lines of the ranges, parted by line breaks.
pub open spec fn listing(live: Seq<MappedMemory>) -> Seq<char>
    decreases live.len(),
{
    if live.len() == 0 {
        Seq::empty()
    } else if live.len() == 1 {
        listing_line(live.last())
    } else {
        listing(live.drop_last()) + "\n"@ + listing_line(live.last())
    }
}

/// What a caller may ask of an allocator: a window of so many bytes, or to
/// take back the range that covers an address.
pub enum Request {
    Allocate(usize),
    Deallocate(usize),
}

/// The sum of the sizes of the ranges.
pub open spec fn total_size(ranges: Seq<MappedMemory>) -> nat
    decreases ranges.len(),
{
    if ranges.len() == 0 {
        0
    } else {
        total_size(ranges.drop_last()) + ranges.last().size as nat
    }
}

impl AddressSpace {
    /// The allocator after a request: changed where the request is granted,
    /// the same where it is refused.
    pub open spec fn after(self, request: Request) -> AddressSpace {
        match request {
            Request::Allocate(size) => if self.can_allocate(size) {
                self.allocated(size)
            } else {
                self
            },
            Request::Deallocate(address) => if self.is_mapped(address) {
                self.deallocated(address)
            } else {
                self
            },
        }
    }

    /// The window that a request hands out, where it hands one out.
    pub open spec fn hands_out(self, request: Request) -> Option<MappedMemory> {
        match request {
            Request::Allocate(size) => if self.can_allocate(size) {
                Some(self.next_window(size))
            } else {
                None
            },
            Request::Deallocate(_) => None,
        }
    }

    /// The allocator after a series of requests.
    pub open spec fn after_all(self, requests: Seq<Request>) -> AddressSpace
        decreases requests.len(),
    {
        if requests.len() == 0 {
            self
        } else {
            self.after_all(requests.drop_last()).after(requests.last())
        }
    }

    /// The windows that a series of requests hands out, in their order.
    pub open spec fn handed_out(self, requests: Seq<Request>) -> Seq<MappedMemory>
        decreases requests.len(),
    {
        if requests.len() == 0 {
            Seq::empty()
        } else {
            let earlier = self.handed_out(requests.drop_last());
            match self.after_all(requests.drop_last()).hands_out(requests.last()) {
                Some(window) => earlier.push(window),
                None => earlier,
            }
        }
    }
}

/// No two of the ranges in use of a well-formed allocator have a byte in
/// common, and all of them lie inside the memory.
pub proof fn lemma_live_ranges_disjoint(space: AddressSpace)
    requires
        space.wf(),
    ensures
        forall|i: int, j: int|
            0 <= i < space.live.len() && 0 <= j < space.live.len() && i != j ==> !(
            #[trigger] space.live[i]).overlaps(#[trigger] space.live[j]),
        forall|i: int| 0 <= i < space.live.len() ==> (#[trigger] space.live[i]).end() <= space.capacity,
{
    assert forall|i: int, j: int|
        0 <= i < space.live.len() && 0 <= j < space.live.len() && i != j implies !(
    #[trigger] space.live[i]).overlaps(#[trigger] space.live[j]) by {
        if i < j {
            assert(space.live[i].end() <= space.live[j].address);
        } else {
            assert(space.live[j].end() <= space.live[i].address);
        }
    }
}

/// A request leaves a well-formed allocator well-formed, and never moves
/// the cursor back.
pub proof fn lemma_after_keeps_wf(space: AddressSpace, request: Request)
    requires
        space.wf(),
    ensures
        space.after(request).wf(),
        space.after(request).capacity == space.capacity,
        space.cursor <= space.after(request).cursor,
{
    match request {
        Request::Allocate(size) => {},
        Request::Deallocate(address) => {
            lemma_position(space.live, address);
        },
    }
}

/// Through any series of requests the allocator stays well-formed, and the
/// windows handed out lie one after the other between the cursor at the
/// start and the cursor at the end.
pub proof fn lemma_handed_out_in_order(space: AddressSpace, requests: Seq<Request>)
    requires
        space.wf(),
    ensures
        space.after_all(requests).wf(),
        space.after_all(requests).capacity == space.capacity,
        space.cursor <= space.after_all(requests).cursor,
        forall|i: int|
            0 <= i < space.handed_out(requests).len() ==> space.cursor <= (
            #[trigger] space.handed_out(requests)[i]).address && space.handed_out(
                requests,
            )[i].end() <= space.after_all(requests).cursor,
        forall|i: int, j: int|
            0 <= i < j < space.handed_out(requests).len() ==> (#[trigger] space.handed_out(
                requests,
            )[i]).end() <= (#[trigger] space.handed_out(requests)[j]).address,
    decreases requests.len(),
{
    if requests.len() > 0 {
        lemma_handed_out_in_order(space, requests.drop_last());
        lemma_after_keeps_wf(space.after_all(requests.drop_last()), requests.last());
        let earlier = space.handed_out(requests.drop_last());
        let all = space.handed_out(requests);
        let before = space.after_all(requests.drop_last());
        let end = space.after_all(requests).cursor;
        assert forall|i: int| 0 <= i < all.len() implies space.cursor <= (#[trigger] all[i]).address
            && all[i].end() <= end by {
            if i < earlier.len() {
                assert(all[i] == earlier[i]);
            }
        }
        assert forall|i: int, j: int| 0 <= i < j < all.len() implies (#[trigger] all[i]).end() <= (
        #[trigger] all[j]).address by {
            assert(all[i] == earlier[i]);
            if j < earlier.len() {
                assert(all[j] == earlier[j]);
            } else {
                assert(all[j].address == before.cursor);
            }
        }
    }
}

/// No two windows that an allocator hands out have a byte in common,
/// whatever was asked of it before, between and after, windows given back
/// included; and none has a byte in common with a range that was in use at
/// the start.
pub proof fn lemma_windows_never_overlap(space: AddressSpace, requests: Seq<Request>)
    requires
        space.wf(),
    ensures
        forall|i: int, j: int|
            0 <= i < j < space.handed_out(requests).len() ==> !(#[trigger] space.handed_out(
                requests,
            )[i]).overlaps(#[trigger] space.handed_out(requests)[j]),
        forall|i: int, k: int|
            0 <= i < space.handed_out(requests).len() && 0 <= k < space.live.len() ==> !(
            #[trigger] space.handed_out(requests)[i]).overlaps(#[trigger] space.live[k]),
{
    lemma_handed_out_in_order(space, requests);
}

/// Starting with nothing handed out, the cursor counts the bytes of all
/// windows handed out so far, given back or not. So a further allocation is
/// granted exactly when those bytes and the bytes asked for fit in the
/// memory.
pub proof fn lemma_allocation_granted_iff_total_fits(
    capacity: nat,
    requests: Seq<Request>,
    size: usize,
)
    requires
        capacity <= usize::MAX,
    ensures
        AddressSpace::fresh(capacity).after_all(requests).cursor == total_size(
            AddressSpace::fresh(capacity).handed_out(requests),
        ),
        AddressSpace::fresh(capacity).after_all(requests).capacity == capacity,
        AddressSpace::fresh(capacity).after_all(requests).can_allocate(size) <==> total_size(
            AddressSpace::fresh(capacity).handed_out(requests),
        ) + size <= capacity,
    decreases requests.len(),
{
    let fresh = AddressSpace::fresh(capacity);
    if requests.len() > 0 {
        lemma_allocation_granted_iff_total_fits(capacity, requests.drop_last(), 0);
        lemma_handed_out_in_order(fresh, requests.drop_last());
        let before = fresh.after_all(requests.drop_last());
        let earlier = fresh.handed_out(requests.drop_last());
        match before.hands_out(requests.last()) {
            Some(window) => {
                assert(earlier.push(window).drop_last() =~= earlier);
            },
            None => {},
        }
    }
}

} // verus!
