//! The software breakpoint table: up to 64 planted `int3` bytes with the
//! original bytes they replaced.
use vstd::prelude::*;

verus! {

pub const MAX_BP: usize = 64;

/// The `int3` opcode that a planted breakpoint writes.
pub const INT3: u8 = 0xCC;

/// One breakpoint: its address, the byte it replaced, and whether the
/// `int3` is currently in memory.
#[derive(Clone, Copy, Debug, PartialEq, Eq)]
pub struct Bp {
    pub addr: u64,
    pub orig: u8,
    pub armed: bool,
}

/// Slot `i` holds a breakpoint at `addr`.
pub open spec fn slot_has(s: Seq<Option<Bp>>, i: int, addr: u64) -> bool {
    s[i] matches Some(bp) && bp.addr == addr
}

/// The slot that `find_slot` picks: the first slot of a breakpoint at `addr`,
/// else the first free slot, else none.
pub open spec fn chosen_slot(s: Seq<Option<Bp>>, addr: u64) -> Option<int> {
    if exists|i: int| 0 <= i < s.len() && slot_has(s, i, addr) {
        Some(choose|i: int| 0 <= i < s.len() && slot_has(s, i, addr) && forall|j: int| 0 <= j < i ==> !slot_has(s, j, addr))
    } else if exists|i: int| 0 <= i < s.len() && s[i] is None {
        Some(choose|i: int| 0 <= i < s.len() && s[i] is None && forall|j: int| 0 <= j < i ==> s[j] is Some)
    } else {
        None
    }
}

/// The first slot of a breakpoint at `addr`, if any.
pub open spec fn first_with(s: Seq<Option<Bp>>, addr: u64) -> Option<int> {
    if exists|i: int| 0 <= i < s.len() && slot_has(s, i, addr) {
        Some(choose|i: int| 0 <= i < s.len() && slot_has(s, i, addr) && forall|j: int| 0 <= j < i ==> !slot_has(s, j, addr))
    } else {
        None
    }
}

/// The first slot of an armed breakpoint at `addr`, if any.
pub open spec fn first_armed(s: Seq<Option<Bp>>, addr: u64) -> Option<int> {
    if exists|i: int| 0 <= i < s.len() && slot_has(s, i, addr) && s[i]->Some_0.armed {
        Some(choose|i: int| 0 <= i < s.len() && slot_has(s, i, addr) && s[i]->Some_0.armed && forall|j: int|
            0 <= j < i ==> !(slot_has(s, j, addr) && s[j]->Some_0.armed))
    } else {
        None
    }
}

/// What planting a breakpoint takes.
#[derive(Clone, Copy, Debug, PartialEq, Eq)]
pub enum InsertPlan {
    /// Every slot holds another breakpoint.
    NoSlot,
    /// The breakpoint is already planted.
    AlreadyArmed,
    /// Read the byte at the address, write `int3`, read it back, and commit
    /// the result into this slot.
    Patch(usize),
}

/// What `plan_insert` answers for a breakpoint at `addr`.
pub open spec fn insert_plan(s: Seq<Option<Bp>>, addr: u64) -> InsertPlan {
    match chosen_slot(s, addr) {
        None => InsertPlan::NoSlot,
        Some(i) => if s[i] matches Some(bp) && bp.armed {
            InsertPlan::AlreadyArmed
        } else {
            InsertPlan::Patch(i as usize)
        },
    }
}

/// No two slots hold a breakpoint at the same address.
pub open spec fn unique_addrs(s: Seq<Option<Bp>>) -> bool {
    forall|i: int, j: int|
        #![trigger s[i], s[j]]
        0 <= i < s.len() && 0 <= j < s.len() && i != j && s[i] is Some && s[j] is Some
            ==> s[i]->Some_0.addr != s[j]->Some_0.addr
}

/// A well-formed table: `MAX_BP` slots, no address in two of them.
pub open spec fn table_ok(s: Seq<Option<Bp>>) -> bool {
    s.len() == MAX_BP && unique_addrs(s)
}

/// A breakpoint at `addr` may go into `slot`: no other slot holds one.
pub open spec fn may_commit(s: Seq<Option<Bp>>, slot: int, addr: u64) -> bool {
    forall|j: int| 0 <= j < s.len() && j != slot ==> !slot_has(s, j, addr)
}

/// The breakpoint table, and the breakpoint to plant again once a single step completes.
pub struct BreakpointTable {
    slots: Vec<Option<Bp>>,
    replant_after_step: Option<u64>,
}

impl BreakpointTable {
    pub closed spec fn view(&self) -> Seq<Option<Bp>> {
        self.slots@
    }

    pub closed spec fn replant(&self) -> Option<u64> {
        self.replant_after_step
    }

    /// The table's invariant: `MAX_BP` slots, each address in at most one.
    pub open spec fn wf(&self) -> bool {
        table_ok(self@)
    }

    /// An empty table.
    pub fn new() -> (t: BreakpointTable)
        ensures
            t.wf(),
            forall|i: int| 0 <= i < MAX_BP ==> t@[i] is None,
            t.replant() is None,
    {
        let mut slots: Vec<Option<Bp>> = Vec::new();
        let mut i: usize = 0;
        while i < MAX_BP
            invariant
                i <= MAX_BP,
                slots@.len() == i,
                forall|j: int| 0 <= j < i ==> slots@[j] is None,
            decreases MAX_BP - i,
        {
            slots.push(None);
            i = i + 1;
        }
        BreakpointTable { slots, replant_after_step: None }
    }

    /// The slot for a breakpoint at `addr`: the first one that already holds
    /// it, else the first free one.
    pub fn find_slot(&self, addr: u64) -> (r: Option<usize>)
        requires
            self.wf(),
        ensures
            r matches Some(i) ==> chosen_slot(self@, addr) == Some(i as int) && i < MAX_BP,
            r is None ==> chosen_slot(self@, addr) is None,
    {
        let mut free: Option<usize> = None;
        let mut i: usize = 0;
        while i < self.slots.len()
            invariant
                i <= self@.len(),
                self.wf(),
                forall|j: int| 0 <= j < i ==> !slot_has(self@, j, addr),
                match free {
                    Some(f) => f < i && self@[f as int] is None && forall|j: int| 0 <= j < f ==> self@[j] is Some,
                    None => forall|j: int| 0 <= j < i ==> self@[j] is Some,
                },
            decreases self@.len() - i,
        {
            match self.slots[i] {
                Some(bp) => {
                    if bp.addr == addr {
                        proof {
                            let c = choose|k: int| 0 <= k < self@.len() && slot_has(self@, k, addr) && forall|j: int| 0 <= j < k ==> !slot_has(self@, j, addr);
                            assert(slot_has(self@, i as int, addr));
                            if c < i {
                            } else if c > i {
                            }
                        }
                        return Some(i);
                    }
                },
                None => {
                    if free.is_none() {
                        free = Some(i);
                    }
                },
            }
            i = i + 1;
        }
        proof {
            if let Some(f) = free {
                let c = choose|k: int| 0 <= k < self@.len() && self@[k] is None && forall|j: int| 0 <= j < k ==> self@[j] is Some;
                assert(self@[f as int] is None);
                if c < f {
                } else if c > f {
                }
            }
        }
        free
    }

    /// The first half of planting a breakpoint at `addr`.
    pub fn plan_insert(&self, addr: u64) -> (p: InsertPlan)
        requires
            self.wf(),
        ensures
            p == insert_plan(self@, addr),
            p matches InsertPlan::Patch(i) ==> i < MAX_BP && may_commit(self@, i as int, addr),
    {
        proof {
            if chosen_slot(self@, addr) is Some {
                lemma_chosen_may_commit(self@, addr);
            }
        }
        match self.find_slot(addr) {
            None => InsertPlan::NoSlot,
            Some(i) => {
                match self.slots[i] {
                    Some(bp) => {
                        if bp.armed {
                            return InsertPlan::AlreadyArmed;
                        }
                    },
                    None => {},
                }
                InsertPlan::Patch(i)
            },
        }
    }

    /// The second half: `orig` is the byte read before the patch and
    /// `patched` whether `int3` read back. A failed patch leaves the table
    /// as it was and answers `false`. The slot is one no other breakpoint at
    /// `addr` holds, such as the one `plan_insert` chose.
    pub fn commit_insert(&mut self, slot: usize, addr: u64, orig: u8, patched: bool) -> (ok: bool)
        requires
            old(self).wf(),
            slot < MAX_BP,
            may_commit(old(self)@, slot as int, addr),
        ensures
            final(self).wf(),
            ok == patched,
            final(self).replant() == old(self).replant(),
            final(self)@ == if patched {
                old(self)@.update(slot as int, Some(Bp { addr, orig, armed: true }))
            } else {
                old(self)@
            },
    {
        if !patched {
            return false;
        }
        proof {
            lemma_commit_unique(old(self)@, slot as int, addr, orig);
        }
        self.slots.set(slot, Some(Bp { addr, orig, armed: true }));
        true
    }

    /// Whether a breakpoint at `addr` may be committed into `slot`: the slot
    /// exists and no other slot holds a breakpoint at `addr`.
    pub fn can_commit(&self, slot: usize, addr: u64) -> (b: bool)
        requires
            self.wf(),
        ensures
            b == (slot < MAX_BP && may_commit(self@, slot as int, addr)),
    {
        if slot >= self.slots.len() {
            return false;
        }
        let mut i: usize = 0;
        while i < self.slots.len()
            invariant
                i <= self@.len(),
                self.wf(),
                slot < MAX_BP,
                forall|j: int| 0 <= j < i && j != slot ==> !slot_has(self@, j, addr),
            decreases self@.len() - i,
        {
            if i != slot {
                if let Some(bp) = self.slots[i] {
                    if bp.addr == addr {
                        assert(slot_has(self@, i as int, addr));
                        return false;
                    }
                }
            }
            i = i + 1;
        }
        true
    }

    /// Removes the first breakpoint at `addr`. Answers whether there was one,
    /// and the byte to write back when its `int3` was in memory.
    pub fn remove(&mut self, addr: u64) -> (r: (bool, Option<(u64, u8)>))
        requires
            old(self).wf(),
        ensures
            final(self).wf(),
            final(self).replant() == old(self).replant(),
            match first_with(old(self)@, addr) {
                None => r == (false, None::<(u64, u8)>) && final(self)@ == old(self)@,
                Some(i) => {
                    &&& r.0
                    &&& r.1 == if old(self)@[i]->Some_0.armed {
                        Some((addr, old(self)@[i]->Some_0.orig))
                    } else {
                        None
                    }
                    &&& final(self)@ == old(self)@.update(i, None)
                },
            },
    {
        let mut i: usize = 0;
        while i < self.slots.len()
            invariant
                i <= self@.len(),
                self.wf(),
                self@ == old(self)@,
                self.replant() == old(self).replant(),
                forall|j: int| 0 <= j < i ==> !slot_has(self@, j, addr),
            decreases self@.len() - i,
        {
            if let Some(bp) = self.slots[i] {
                if bp.addr == addr {
                    proof {
                        let c = choose|k: int| 0 <= k < self@.len() && slot_has(self@, k, addr) && forall|j: int| 0 <= j < k ==> !slot_has(self@, j, addr);
                        assert(slot_has(self@, i as int, addr));
                        if c < i {
                        } else if c > i {
                        }
                    }
                    let restore = if bp.armed {
                        Some((addr, bp.orig))
                    } else {
                        None
                    };
                    proof {
                        lemma_clear_keeps_unique(old(self)@, i as int);
                    }
                    self.slots.set(i, None);
                    return (true, restore);
                }
            }
            i = i + 1;
        }
        (false, None)
    }

    /// On entry through `int3`: if `rip - 1` is an armed breakpoint, rewind
    /// `rip` onto it, mark it disarmed until it is planted again, and answer
    /// its address with the original byte to write back.
    pub fn on_breakpoint_enter(&mut self, rip: &mut u64) -> (hit: Option<(u64, u8)>)
        requires
            old(self).wf(),
        ensures
            final(self).wf(),
            final(self).replant() == old(self).replant(),
            match first_armed(old(self)@, prev_addr(*old(rip))) {
                None => hit is None && final(self)@ == old(self)@ && *final(rip) == *old(rip),
                Some(i) => {
                    let bp = old(self)@[i]->Some_0;
                    &&& hit == Some((bp.addr, bp.orig))
                    &&& *final(rip) == bp.addr
                    &&& final(self)@ == old(self)@.update(i, Some(Bp { armed: false, ..bp }))
                },
            },
    {
        let hit_addr = if *rip == 0 {
            u64::MAX
        } else {
            *rip - 1
        };
        let mut i: usize = 0;
        while i < self.slots.len()
            invariant
                i <= self@.len(),
                self.wf(),
                self@ == old(self)@,
                self.replant() == old(self).replant(),
                *rip == *old(rip),
                hit_addr == prev_addr(*old(rip)),
                forall|j: int| 0 <= j < i ==> !(slot_has(self@, j, hit_addr) && self@[j]->Some_0.armed),
            decreases self@.len() - i,
        {
            if let Some(bp) = self.slots[i] {
                if bp.addr == hit_addr && bp.armed {
                    proof {
                        let c = choose|k: int| 0 <= k < self@.len() && slot_has(self@, k, hit_addr) && self@[k]->Some_0.armed
                            && forall|j: int| 0 <= j < k ==> !(slot_has(self@, j, hit_addr) && self@[j]->Some_0.armed);
                        assert(slot_has(self@, i as int, hit_addr) && self@[i as int]->Some_0.armed);
                        if c < i {
                        } else if c > i {
                        }
                    }
                    proof {
                        lemma_rewrite_keeps_unique(old(self)@, i as int, Bp { armed: false, ..bp });
                    }
                    *rip = hit_addr;
                    self.slots.set(i, Some(Bp { armed: false, ..bp }));
                    return Some((hit_addr, bp.orig));
                }
            }
            i = i + 1;
        }
        None
    }

    /// When the debugger continues: plant the breakpoint last hit again.
    pub fn on_resume_continue(&self, last_hit: Option<u64>) -> (p: Option<(u64, InsertPlan)>)
        requires
            self.wf(),
        ensures
            match last_hit {
                None => p is None,
                Some(a) => p matches Some((b, plan)) && b == a && plan == insert_plan(self@, a),
            },
    {
        match last_hit {
            Some(addr) => Some((addr, self.plan_insert(addr))),
            None => None,
        }
    }

    /// When the debugger single-steps: plant the breakpoint last hit again
    /// only after the step traps.
    pub fn on_resume_step(&mut self, last_hit: Option<u64>)
        ensures
            final(self)@ == old(self)@,
            final(self).replant() == last_hit,
    {
        self.replant_after_step = last_hit;
    }
}

/// Some breakpoint at `addr` at or before slot `k` is the first one.
proof fn lemma_first_has(s: Seq<Option<Bp>>, addr: u64, k: int)
    requires
        0 <= k < s.len(),
        slot_has(s, k, addr),
    ensures
        exists|m: int| 0 <= m <= k && slot_has(s, m, addr) && forall|j: int| 0 <= j < m ==> !slot_has(s, j, addr),
    decreases k,
{
    if exists|j: int| 0 <= j < k && slot_has(s, j, addr) {
        let j = choose|j: int| 0 <= j < k && slot_has(s, j, addr);
        lemma_first_has(s, addr, j);
    } else {
        assert(forall|j: int| 0 <= j < k ==> !slot_has(s, j, addr));
    }
}

/// Some free slot at or before slot `k` is the first one.
proof fn lemma_first_free(s: Seq<Option<Bp>>, k: int)
    requires
        0 <= k < s.len(),
        s[k] is None,
    ensures
        exists|m: int| 0 <= m <= k && s[m] is None && forall|j: int| 0 <= j < m ==> s[j] is Some,
    decreases k,
{
    if exists|j: int| 0 <= j < k && s[j] is None {
        let j = choose|j: int| 0 <= j < k && s[j] is None;
        lemma_first_free(s, j);
    } else {
        assert(forall|j: int| 0 <= j < k ==> s[j] is Some);
    }
}

/// What the slot `plan_insert` chooses holds: the first breakpoint at
/// `addr`, or, when there is none, the first free slot.
proof fn lemma_chosen_slot(s: Seq<Option<Bp>>, addr: u64)
    requires
        chosen_slot(s, addr) is Some,
    ensures
        ({
            let i = chosen_slot(s, addr)->Some_0;
            &&& 0 <= i < s.len()
            &&& slot_has(s, i, addr) || (s[i] is None && forall|k: int| 0 <= k < s.len() ==> !slot_has(s, k, addr))
            &&& forall|j: int| 0 <= j < i ==> !slot_has(s, j, addr)
        }),
{
    let i = chosen_slot(s, addr)->Some_0;
    if exists|k: int| 0 <= k < s.len() && slot_has(s, k, addr) {
        let k = choose|k: int| 0 <= k < s.len() && slot_has(s, k, addr);
        lemma_first_has(s, addr, k);
        assert(0 <= i < s.len() && slot_has(s, i, addr) && forall|j: int| 0 <= j < i ==> !slot_has(s, j, addr));
    } else {
        let k = choose|k: int| 0 <= k < s.len() && s[k] is None;
        lemma_first_free(s, k);
        assert(0 <= i < s.len() && s[i] is None && forall|j: int| 0 <= j < i ==> s[j] is Some);
        assert forall|j: int| 0 <= j < s.len() implies !slot_has(s, j, addr) by {
            assert(!(0 <= j < s.len() && slot_has(s, j, addr)));
        }
    }
}

/// In a table with unique addresses, the slot `plan_insert` chooses for
/// `addr` is one no other breakpoint at `addr` holds.
proof fn lemma_chosen_may_commit(s: Seq<Option<Bp>>, addr: u64)
    requires
        unique_addrs(s),
        chosen_slot(s, addr) is Some,
    ensures
        0 <= chosen_slot(s, addr)->Some_0 < s.len(),
        may_commit(s, chosen_slot(s, addr)->Some_0, addr),
{
    lemma_chosen_slot(s, addr);
    let i = chosen_slot(s, addr)->Some_0;
    assert forall|j: int| 0 <= j < s.len() && j != i implies !slot_has(s, j, addr) by {
        if slot_has(s, i, addr) && slot_has(s, j, addr) {
            assert(s[i] is Some && s[j] is Some);
        }
    }
}

/// Recording a breakpoint at `addr` in a slot no other breakpoint at `addr`
/// holds keeps addresses unique.
proof fn lemma_commit_unique(s: Seq<Option<Bp>>, slot: int, addr: u64, orig: u8)
    requires
        unique_addrs(s),
        0 <= slot < s.len(),
        may_commit(s, slot, addr),
    ensures
        unique_addrs(s.update(slot, Some(Bp { addr, orig, armed: true }))),
{
    let s2 = s.update(slot, Some(Bp { addr, orig, armed: true }));
    assert forall|a: int, b: int|
        #![trigger s2[a], s2[b]]
        0 <= a < s2.len() && 0 <= b < s2.len() && a != b && s2[a] is Some && s2[b] is Some implies s2[a]->Some_0.addr
            != s2[b]->Some_0.addr by {
        if a == slot {
            assert(s2[b] == s[b]);
            assert(!slot_has(s, b, addr));
        } else if b == slot {
            assert(s2[a] == s[a]);
            assert(!slot_has(s, a, addr));
        } else {
            assert(s2[a] == s[a] && s2[b] == s[b]);
        }
    }
}

/// A planted breakpoint recorded in the chosen slot keeps addresses unique.
proof fn lemma_commit_keeps_unique(s: Seq<Option<Bp>>, addr: u64, orig: u8)
    requires
        unique_addrs(s),
        chosen_slot(s, addr) is Some,
    ensures
        unique_addrs(s.update(chosen_slot(s, addr)->Some_0, Some(Bp { addr, orig, armed: true }))),
{
    lemma_chosen_may_commit(s, addr);
    lemma_commit_unique(s, chosen_slot(s, addr)->Some_0, addr, orig);
}

/// Emptying a slot keeps addresses unique.
proof fn lemma_clear_keeps_unique(s: Seq<Option<Bp>>, i: int)
    requires
        0 <= i < s.len(),
    ensures
        unique_addrs(s) ==> unique_addrs(s.update(i, None)),
{
    let s2 = s.update(i, None);
    if unique_addrs(s) {
        assert forall|a: int, b: int|
            #![trigger s2[a], s2[b]]
            0 <= a < s2.len() && 0 <= b < s2.len() && a != b && s2[a] is Some && s2[b] is Some implies s2[a]->Some_0.addr
                != s2[b]->Some_0.addr by {
            assert(s2[a] == s[a] && s2[b] == s[b]);
        }
    }
}

/// Rewriting a breakpoint in place, at the same address, keeps addresses
/// unique.
proof fn lemma_rewrite_keeps_unique(s: Seq<Option<Bp>>, i: int, bp: Bp)
    requires
        0 <= i < s.len(),
        slot_has(s, i, bp.addr),
    ensures
        unique_addrs(s) ==> unique_addrs(s.update(i, Some(bp))),
{
    let s2 = s.update(i, Some(bp));
    if unique_addrs(s) {
        assert forall|a: int, b: int|
            #![trigger s2[a], s2[b]]
            0 <= a < s2.len() && 0 <= b < s2.len() && a != b && s2[a] is Some && s2[b] is Some implies s2[a]->Some_0.addr
                != s2[b]->Some_0.addr by {
            if a == i {
                assert(s2[b] == s[b]);
                assert(s[i] is Some && s[b] is Some);
            } else if b == i {
                assert(s2[a] == s[a]);
                assert(s[i] is Some && s[a] is Some);
            } else {
                assert(s2[a] == s[a] && s2[b] == s[b]);
            }
        }
    }
}

/// Planting then removing a breakpoint gives back the byte the patch
/// replaced: once a patch succeeds in the slot that `plan_insert` chose for
/// `addr` (and `commit_insert` records it there), `remove(addr)` finds that
/// very slot, armed, with the original byte.
pub proof fn lemma_plant_then_remove(s: Seq<Option<Bp>>, addr: u64, orig: u8)
    requires
        chosen_slot(s, addr) is Some,
    ensures
        ({
            let i = chosen_slot(s, addr)->Some_0;
            let s2 = s.update(i, Some(Bp { addr, orig, armed: true }));
            &&& 0 <= i < s.len()
            &&& first_with(s2, addr) == Some(i)
            &&& s2[i] == Some(Bp { addr, orig, armed: true })
        }),
{
    lemma_chosen_slot(s, addr);
    let i = chosen_slot(s, addr)->Some_0;
    let s2 = s.update(i, Some(Bp { addr, orig, armed: true }));
    assert(slot_has(s2, i, addr));
    assert forall|j: int| 0 <= j < i implies !slot_has(s2, j, addr) by {
        assert(s2[j] == s[j]);
        assert(!slot_has(s, j, addr));
    }
    lemma_first_has(s2, addr, i);
    let c = choose|k: int| 0 <= k < s2.len() && slot_has(s2, k, addr) && forall|j: int| 0 <= j < k ==> !slot_has(s2, j, addr);
    assert(0 <= c < s2.len() && slot_has(s2, c, addr) && forall|j: int| 0 <= j < c ==> !slot_has(s2, j, addr));
    if c < i {
        assert(!slot_has(s2, c, addr));
    } else if c > i {
        assert(!slot_has(s2, i, addr));
    }
}

/// Planting a breakpoint twice leaves the first one in place: once a patch
/// for `addr` is committed into the slot `plan_insert` chose, a second
/// `plan_insert(addr)` answers `AlreadyArmed`, so nothing is patched again
/// and the recorded original byte stays the one the first patch replaced.
/// The table still holds each address in at most one slot.
pub proof fn lemma_insert_twice(s: Seq<Option<Bp>>, addr: u64, orig: u8)
    requires
        table_ok(s),
        chosen_slot(s, addr) is Some,
    ensures
        ({
            let i = chosen_slot(s, addr)->Some_0;
            let s2 = s.update(i, Some(Bp { addr, orig, armed: true }));
            &&& table_ok(s2)
            &&& chosen_slot(s2, addr) == Some(i)
            &&& insert_plan(s2, addr) == InsertPlan::AlreadyArmed
            &&& s2[i] == Some(Bp { addr, orig, armed: true })
        }),
{
    lemma_plant_then_remove(s, addr, orig);
    lemma_commit_keeps_unique(s, addr, orig);
}

/// Insert, remove, remove: in a well-formed table, a
/// breakpoint planted at `addr` and then removed gives back its original
/// byte, leaves no breakpoint at `addr` behind, and a second `remove(addr)`
/// finds nothing (it answers `(false, None)` and changes nothing). The
/// table keeps each address in at most one slot throughout.
pub proof fn lemma_insert_remove_remove(s: Seq<Option<Bp>>, addr: u64, orig: u8)
    requires
        table_ok(s),
        chosen_slot(s, addr) is Some,
    ensures
        ({
            let i = chosen_slot(s, addr)->Some_0;
            let s2 = s.update(i, Some(Bp { addr, orig, armed: true }));
            let s3 = s2.update(i, None);
            &&& table_ok(s2)
            &&& first_with(s2, addr) == Some(i)
            &&& s2[i] == Some(Bp { addr, orig, armed: true })
            &&& table_ok(s3)
            &&& first_with(s3, addr) is None
        }),
{
    lemma_plant_then_remove(s, addr, orig);
    lemma_commit_keeps_unique(s, addr, orig);
    let i = chosen_slot(s, addr)->Some_0;
    let s2 = s.update(i, Some(Bp { addr, orig, armed: true }));
    let s3 = s2.update(i, None);
    lemma_clear_keeps_unique(s2, i);
    assert forall|k: int| 0 <= k < s3.len() implies !slot_has(s3, k, addr) by {
        if k != i {
            assert(s3[k] == s2[k]);
            assert(s2[i] is Some);
            if s2[k] is Some {
                assert(s2[k]->Some_0.addr != s2[i]->Some_0.addr);
            }
        }
    }
}

/// The address just before `rip`, wrapping below zero.
pub open spec fn prev_addr(rip: u64) -> u64 {
    if rip == 0 {
        u64::MAX
    } else {
        (rip - 1) as u64
    }
}

/// The CR0 write-protect bit.
pub const CR0_WP: u64 = 1u64 << 16;

/// The CR0 value under which supervisor code may patch read-only text, or
/// `None` when write protection is already off.
pub fn cr0_without_wp(cr0: u64) -> (r: Option<u64>)
    ensures
        r == if cr0 & CR0_WP == 0 { None } else { Some(cr0 & !CR0_WP) },
{
    if cr0 & CR0_WP == 0 {
        None
    } else {
        Some(cr0 & !CR0_WP)
    }
}

} // verus!
