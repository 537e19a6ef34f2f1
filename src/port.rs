//! The command-slot scheduler of one AHCI port.
use vstd::prelude::*;
use vstd::bits::lemma_u32_shr_is_div;
use std::sync::Arc;

use crate::dma::{buffer_count, planned, DmaRequest, SECTORS_PER_BUFFER};
use crate::hba::{
    bit_set, command_programmed, prdt_len, HbaCmdHeader, HbaCmdTbl, HbaPort, COMMAND_SLOTS,
    MAX_COMMAND_SECTORS, PRDT_DBC_MASK, PRDT_ENTRIES,
};

verus! {

/// A command in flight in one slot: it holds the request alive.
pub struct AhciCommand {
    pub request: Arc<DmaRequest>,
}

/// What the scheduler put into a slot: the hardware runs it once the
/// `issue` bit is written to the command-issue register.
#[derive(Debug, Copy, Clone, PartialEq, Eq, Structural)]
pub struct SlotDispatch {
    pub slot: usize,
    pub sector: usize,
    pub count: usize,
    pub issue: u32,
}

/// The state of a port that its lock protects: which slots hold a command,
/// and how many are free.
pub struct AhciPortProtected {
    pub cmds: Vec<Option<AhciCommand>>,
    pub free_cmds: usize,
}

/// Number of occupied slots among the first `n` of `s`.
pub open spec fn busy(s: Seq<Option<AhciCommand>>, n: int) -> int
    decreases n,
{
    if n <= 0 {
        0
    } else {
        busy(s, n - 1) + (if s[n - 1] is Some {
            1int
        } else {
            0int
        })
    }
}

proof fn lemma_busy_bounds(s: Seq<Option<AhciCommand>>, n: int)
    requires
        0 <= n,
    ensures
        0 <= busy(s, n) <= n,
    decreases n,
{
    if n > 0 {
        lemma_busy_bounds(s, n - 1);
    }
}

proof fn lemma_busy_update(s: Seq<Option<AhciCommand>>, i: int, v: Option<AhciCommand>, n: int)
    requires
        0 <= i < s.len(),
        0 <= n <= s.len(),
    ensures
        busy(s.update(i, v), n) == busy(s, n) - (if i < n && s[i] is Some {
            1int
        } else {
            0int
        }) + (if i < n && v is Some {
            1int
        } else {
            0int
        }),
    decreases n,
{
    if n > 0 {
        lemma_busy_update(s, i, v, n - 1);
    }
}

/// A request of `count` sectors has enough buffers from sector `offset` on
/// for a command of `min(count - offset, 128)` sectors.
proof fn lemma_buffers_suffice(count: int, offset: int, n: int)
    requires
        0 <= offset < count,
        n == (if count - offset < 128 {
            count - offset
        } else {
            128
        }),
    ensures
        buffer_count(count) - offset / 16 >= prdt_len(n),
        prdt_len(n) <= 8,
{
    assert(buffer_count(count) == (count + 15) / 16) by (nonlinear_arith)
        requires
            buffer_count(count) == (count * 512 + 8191) / 8192,
    ;
    assert((count + 15) / 16 - offset / 16 >= (n - 1) / 16 + 1) by (nonlinear_arith)
        requires
            0 <= offset < count,
            1 <= n <= count - offset,
    ;
}

impl AhciPortProtected {
    /// Slot `i` may take a command: the table holds none there, and the
    /// hardware's command-issue bit for it is clear.
    pub open spec fn slot_free(&self, ci: u32, i: int) -> bool {
        &&& self.cmds@[i] is None
        &&& !bit_set(ci, i)
    }

    pub open spec fn wf(&self) -> bool {
        &&& self.cmds@.len() == COMMAND_SLOTS
        &&& self.free_cmds == COMMAND_SLOTS - busy(self.cmds@, COMMAND_SLOTS as int)
    }

    /// A port with all slots free.
    pub fn new() -> (r: AhciPortProtected)
        ensures
            r.wf(),
            r.free_cmds == COMMAND_SLOTS,
            forall|i: int| 0 <= i < COMMAND_SLOTS ==> #[trigger] r.cmds@[i] is None,
    {
        let mut cmds: Vec<Option<AhciCommand>> = Vec::new();
        let mut i: usize = 0;
        while i < COMMAND_SLOTS
            invariant
                i <= COMMAND_SLOTS,
                cmds@.len() == i,
                forall|k: int| 0 <= k < i ==> #[trigger] cmds@[k] is None,
                busy(cmds@, i as int) == 0,
            decreases COMMAND_SLOTS - i,
        {
            let ghost before = cmds@;
            cmds.push(None);
            proof {
                lemma_busy_prefix(cmds@, before, i as int);
            }
            i = i + 1;
        }
        AhciPortProtected { cmds, free_cmds: COMMAND_SLOTS }
    }

    /// Whether the command-issue bit of slot `i` is clear in `ci`.
    fn issue_bit_clear(ci: u32, i: usize) -> (r: bool)
        requires
            i < COMMAND_SLOTS,
        ensures
            r == !bit_set(ci, i as int),
    {
        let shift = i as u32;
        let v = ci >> shift;
        proof {
            lemma_u32_shr_is_div(ci, shift);
        }
        let b = v & 1;
        assert(b == v % 2) by (bit_vector)
            requires
                b == v & 1,
        ;
        b == 0
    }

    /// Places the next command of `request`, the one for its sectors from
    /// `offset` on, into the lowest free slot, given the command-issue
    /// register `ci`: programs that slot's header in `list` and table in
    /// `tables`, and marks the slot busy, keeping `request` there so that it
    /// lives until the slot is freed. Returns `None`, changing nothing,
    /// when no slot is free; the caller retries once a slot frees up.
    pub fn run_request(
        &mut self,
        request: Arc<DmaRequest>,
        offset: usize,
        ci: u32,
        list: &mut Vec<HbaCmdHeader>,
        tables: &mut Vec<HbaCmdTbl>,
    ) -> (r: Option<SlotDispatch>)
        requires
            old(self).wf(),
            request.wf(),
            offset < request.count,
            old(list)@.len() == COMMAND_SLOTS,
            old(tables)@.len() == COMMAND_SLOTS,
            forall|t: int|
                0 <= t < COMMAND_SLOTS ==> #[trigger] old(tables)@[t].prdt_entry@.len()
                    >= PRDT_ENTRIES,
        ensures
            final(self).wf(),
            final(list)@.len() == COMMAND_SLOTS,
            final(tables)@.len() == COMMAND_SLOTS,
            forall|t: int|
                0 <= t < COMMAND_SLOTS ==> #[trigger] final(tables)@[t].prdt_entry@.len()
                    == old(tables)@[t].prdt_entry@.len(),
            r is None ==> {
                &&& forall|i: int| 0 <= i < COMMAND_SLOTS ==> !old(self).slot_free(ci, i)
                &&& final(self).cmds@ == old(self).cmds@
                &&& final(self).free_cmds == old(self).free_cmds
                &&& final(list)@ == old(list)@
                &&& final(tables)@ == old(tables)@
            },
            r is Some ==> {
                let d = r.unwrap();
                let slot = d.slot as int;
                &&& slot < COMMAND_SLOTS
                &&& old(self).slot_free(ci, slot)
                &&& forall|j: int| 0 <= j < slot ==> !old(self).slot_free(ci, j)
                &&& d.sector == request.sector + offset
                &&& d.count == (if request.count - offset < MAX_COMMAND_SECTORS {
                    request.count - offset
                } else {
                    MAX_COMMAND_SECTORS as int
                })
                &&& d.issue == 1u32 << d.slot as u32
                &&& final(self).cmds@[slot] == Some(AhciCommand { request })
                &&& final(self).free_cmds == old(self).free_cmds - 1
                &&& forall|j: int|
                    0 <= j < COMMAND_SLOTS && j != slot ==> #[trigger] final(self).cmds@[j]
                        == old(self).cmds@[j]
                &&& forall|j: int|
                    0 <= j < COMMAND_SLOTS && j != slot ==> #[trigger] final(list)@[j]
                        == old(list)@[j]
                &&& command_programmed(
                    old(list)@[slot],
                    final(list)@[slot],
                    old(tables)@[slot].prdt_entry@,
                    final(tables)@[slot].prdt_entry@,
                    final(tables)@[slot].cfis,
                    request.spec_into_command(),
                    d.sector,
                    d.count,
                    request.buffer@.subrange(
                        (offset / SECTORS_PER_BUFFER) as int,
                        request.buffer@.len() as int,
                    ),
                )
            },
    {
        let remaining = request.count - offset;
        let mut i: usize = 0;
        while i < COMMAND_SLOTS
            invariant
                i <= COMMAND_SLOTS,
                self.wf(),
                self.cmds@ == old(self).cmds@,
                self.free_cmds == old(self).free_cmds,
                forall|j: int| 0 <= j < i ==> !self.slot_free(ci, j),
            ensures
                i <= COMMAND_SLOTS,
                self.wf(),
                self.cmds@ == old(self).cmds@,
                self.free_cmds == old(self).free_cmds,
                forall|j: int| 0 <= j < i ==> !self.slot_free(ci, j),
                i < COMMAND_SLOTS ==> self.slot_free(ci, i as int),
            decreases COMMAND_SLOTS - i,
        {
            if self.cmds[i].is_none() && Self::issue_bit_clear(ci, i) {
                break;
            }
            i = i + 1;
        }
        if i == COMMAND_SLOTS {
            return None;
        }
        let count = if remaining < MAX_COMMAND_SECTORS {
            remaining
        } else {
            MAX_COMMAND_SECTORS
        };
        proof {
            lemma_buffers_suffice(request.count as int, offset as int, count as int);
            assert forall|k: int| 0 <= k < prdt_len(count as int) implies 1 <= #[trigger] request.buffer@.subrange(
                (offset / SECTORS_PER_BUFFER) as int,
                request.buffer@.len() as int,
            )[k].data_size <= (PRDT_DBC_MASK + 1) by {
                let j = offset / SECTORS_PER_BUFFER + k;
                assert(planned(request.count as int, request.buffer@[j], j));
                assert(j * 8192 < request.count * 512) by (nonlinear_arith)
                    requires
                        j < request.buffer@.len(),
                        request.buffer@.len() == (request.count * 512 + 8191) / 8192,
                ;
            }
        }
        let buffers = request.at_offset(offset);
        let sector = request.sector + offset;
        let command = request.into_command();
        let issue = HbaPort::run_command(
            &mut list[i],
            &mut tables[i],
            command,
            sector,
            count,
            i,
            buffers,
        );
        let ghost before = self.cmds@;
        self.cmds.set(i, Some(AhciCommand { request }));
        proof {
            lemma_busy_update(before, i as int, self.cmds@[i as int], COMMAND_SLOTS as int);
            lemma_busy_bounds(self.cmds@, COMMAND_SLOTS as int);
            assert(self.cmds@ == before.update(i as int, self.cmds@[i as int]));
        }
        self.free_cmds = self.free_cmds - 1;
        Some(SlotDispatch { slot: i, sector, count, issue })
    }

    /// Frees every occupied slot whose command-issue bit is clear in `ci`:
    /// the hardware has finished its command.
    pub fn complete(&mut self, ci: u32)
        requires
            old(self).wf(),
        ensures
            final(self).wf(),
            forall|i: int|
                0 <= i < COMMAND_SLOTS ==> (#[trigger] final(self).cmds@[i] is None <==> (old(
                    self,
                ).cmds@[i] is None || !bit_set(ci, i))),
    {
        let mut i: usize = 0;
        while i < COMMAND_SLOTS
            invariant
                i <= COMMAND_SLOTS,
                self.wf(),
                forall|j: int|
                    0 <= j < i ==> (#[trigger] self.cmds@[j] is None <==> (old(self).cmds@[j] is None
                        || !bit_set(ci, j))),
                forall|j: int| i <= j < COMMAND_SLOTS ==> #[trigger] self.cmds@[j] == old(self).cmds@[j],
            decreases COMMAND_SLOTS - i,
        {
            if self.cmds[i].is_some() && Self::issue_bit_clear(ci, i) {
                let ghost before = self.cmds@;
                self.cmds.set(i, None);
                proof {
                    lemma_busy_update(before, i as int, None, COMMAND_SLOTS as int);
                    lemma_busy_bounds(before, COMMAND_SLOTS as int);
                }
                self.free_cmds = self.free_cmds + 1;
            }
            i = i + 1;
        }
    }
}

/// `busy` over the first `n` slots depends on those slots alone.
proof fn lemma_busy_prefix(s: Seq<Option<AhciCommand>>, t: Seq<Option<AhciCommand>>, n: int)
    requires
        0 <= n <= s.len(),
        n <= t.len(),
        forall|k: int| 0 <= k < n ==> s[k] == t[k],
    ensures
        busy(s, n) == busy(t, n),
    decreases n,
{
    if n > 0 {
        lemma_busy_prefix(s, t, n - 1);
    }
}

} // verus!
