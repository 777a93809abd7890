//! The binding table: the ordered pairing of host functions to the guest's
//! declared import slots, and the host-side dispatch that routes one guest
//! call through its slot's decoder.
//!
//! The linkage is positional.  When the host's registration order and the
//! guest's declaration order agree, every call decodes as the guest meant it;
//! when they do not, a call reaches the wrong decoder, and the decoders'
//! validation — never the linkage itself — is what stops garbage from being
//! accepted.  [`check_bindings`] is the load-time pass that rejects a
//! mismatched table before any call runs.

use vstd::prelude::*;
use vstd::utf8::{decode_utf8, valid_utf8};
use crate::errors::TrapError;
use crate::fixed::{decode_record_fixed, spec_decode_cd};
use crate::memory::{slice_of, LinearMemory};
use crate::model::{AB, AbV, CD, CdV};
use crate::record::{decode_record_selfdescribing, spec_decode_ab};
use crate::text::decode_text;

verus! {

/// The identity of one host function a guest may import: its name and, with
/// it, which decoder its arguments must be routed through.
#[derive(Clone, Copy, Debug, PartialEq, Eq, Structural)]
pub enum HostFuncKind {
    /// `log_int(value)`: one integer, passed directly.
    LogInt,
    /// `log_str(offset, length)`: a text region.
    LogStr,
    /// `log_ab(offset, length)`: a self-describing record region.
    LogAb,
    /// `log_cd(offset, length)`: a fixed-layout record region.
    LogCd,
}

/// How many raw 32-bit arguments a slot's signature carries.  This is all a
/// positional, signature-only linkage can see of a function.
pub open spec fn spec_arity(k: HostFuncKind) -> int {
    match k {
        HostFuncKind::LogInt => 1,
        HostFuncKind::LogStr => 2,
        HostFuncKind::LogAb => 2,
        HostFuncKind::LogCd => 2,
    }
}

impl HostFuncKind {
    /// Signature arity of this slot.
    pub fn arity(&self) -> (n: usize)
        ensures
            n == spec_arity(*self),
    {
        match self {
            HostFuncKind::LogInt => 1,
            HostFuncKind::LogStr => 2,
            HostFuncKind::LogAb => 2,
            HostFuncKind::LogCd => 2,
        }
    }
}

/// One boundary crossing as the linkage sees it: the ordinal of the import
/// slot the guest called, and the raw 32-bit arguments it passed.  What the
/// arguments mean is decided entirely by the slot the table routes them to.
#[derive(Clone, Debug, PartialEq, Eq)]
pub struct GuestCall {
    /// Index into the guest's declared import order.
    pub slot: usize,
    /// Raw arguments: a direct value, or a region's offset and length.
    pub args: Vec<i32>,
}

/// A host-native value recovered from one guest call.
#[derive(Clone, Debug, PartialEq, Eq)]
pub enum HostEvent {
    /// A directly passed integer.
    Int(i32),
    /// A decoded text value.
    Str(String),
    /// A decoded self-describing record.
    Ab(AB),
    /// A decoded fixed-layout record.
    Cd(CD),
}

/// The mathematical value of a [`HostEvent`].
pub enum HostEventV {
    Int(i32),
    Str(Seq<char>),
    Ab(AbV),
    Cd(CdV),
}

impl View for HostEvent {
    type V = HostEventV;

    open spec fn view(&self) -> HostEventV {
        match self {
            HostEvent::Int(v) => HostEventV::Int(*v),
            HostEvent::Str(s) => HostEventV::Str(s@),
            HostEvent::Ab(ab) => HostEventV::Ab(ab@),
            HostEvent::Cd(cd) => HostEventV::Cd(cd@),
        }
    }
}

/// The meaning of routing one call through slot `slot` of `table` against
/// memory `mem`: either the host-native value the slot's decoder recovers,
/// or the trap that kills the call.  An unknown ordinal or an arity mismatch
/// is a linkage fault; everything else is the slot's decoder speaking.
pub open spec fn spec_dispatch(
    table: Seq<HostFuncKind>,
    mem: Seq<u8>,
    slot: int,
    args: Seq<i32>,
) -> Result<HostEventV, TrapError> {
    if slot < 0 || slot >= table.len() {
        Err(TrapError::BindingOrderMismatch)
    } else if args.len() != spec_arity(table[slot]) {
        Err(TrapError::BindingOrderMismatch)
    } else {
        match table[slot] {
            HostFuncKind::LogInt => Ok(HostEventV::Int(args[0])),
            HostFuncKind::LogStr => {
                let offset = args[0] as u32;
                let length = args[1] as u32;
                if offset + length > mem.len() {
                    Err(TrapError::OutOfBounds)
                } else {
                    let bytes = mem.subrange(offset as int, offset as int + length as int);
                    if valid_utf8(bytes) {
                        Ok(HostEventV::Str(decode_utf8(bytes)))
                    } else {
                        Err(TrapError::InvalidUtf8)
                    }
                }
            },
            HostFuncKind::LogAb => {
                let offset = args[0] as u32;
                let length = args[1] as u32;
                if offset + length > mem.len() {
                    Err(TrapError::OutOfBounds)
                } else {
                    let bytes = mem.subrange(offset as int, offset as int + length as int);
                    match spec_decode_ab(bytes) {
                        Ok(v) => Ok(HostEventV::Ab(v)),
                        Err(e) => Err(e),
                    }
                }
            },
            HostFuncKind::LogCd => {
                let offset = args[0] as u32;
                let length = args[1] as u32;
                if offset + length > mem.len() {
                    Err(TrapError::OutOfBounds)
                } else {
                    let bytes = mem.subrange(offset as int, offset as int + length as int);
                    match spec_decode_cd(bytes) {
                        Ok(v) => Ok(HostEventV::Cd(v)),
                        Err(e) => Err(e),
                    }
                }
            },
        }
    }
}

/// Routes one guest call through the binding table: looks up the slot,
/// checks the signature's arity, validates the claimed region, and runs the
/// slot's decoder.  Exactly [`spec_dispatch`], on real memory.
pub fn dispatch(table: &Vec<HostFuncKind>, mem: &LinearMemory, call: &GuestCall) -> (res: Result<
    HostEvent,
    TrapError,
>)
    requires
        mem.wf(),
    ensures
        res is Ok <==> spec_dispatch(table@, mem@, call.slot as int, call.args@) is Ok,
        res matches Ok(ev) ==> spec_dispatch(table@, mem@, call.slot as int, call.args@)
            matches Ok(v) && ev@ == v,
        res matches Err(e) ==> spec_dispatch(table@, mem@, call.slot as int, call.args@)
            == Err::<HostEventV, TrapError>(e),
{
    if call.slot >= table.len() {
        return Err(TrapError::BindingOrderMismatch);
    }
    let kind = table[call.slot];
    if call.args.len() != kind.arity() {
        return Err(TrapError::BindingOrderMismatch);
    }
    match kind {
        HostFuncKind::LogInt => Ok(HostEvent::Int(call.args[0])),
        HostFuncKind::LogStr => {
            let bytes = match slice_of(mem, call.args[0] as u32, call.args[1] as u32) {
                Ok(b) => b,
                Err(e) => {
                    return Err(e);
                },
            };
            match decode_text(bytes.as_slice()) {
                Ok(s) => Ok(HostEvent::Str(s)),
                Err(e) => Err(e),
            }
        },
        HostFuncKind::LogAb => {
            let bytes = match slice_of(mem, call.args[0] as u32, call.args[1] as u32) {
                Ok(b) => b,
                Err(e) => {
                    return Err(e);
                },
            };
            match decode_record_selfdescribing(bytes.as_slice()) {
                Ok(ab) => Ok(HostEvent::Ab(ab)),
                Err(e) => Err(e),
            }
        },
        HostFuncKind::LogCd => {
            let bytes = match slice_of(mem, call.args[0] as u32, call.args[1] as u32) {
                Ok(b) => b,
                Err(e) => {
                    return Err(e);
                },
            };
            match decode_record_fixed(bytes.as_slice()) {
                Ok(cd) => Ok(HostEvent::Cd(cd)),
                Err(e) => Err(e),
            }
        },
    }
}

/// The views of a run's events.
pub open spec fn view_events(evs: Seq<HostEvent>) -> Seq<HostEventV> {
    evs.map_values(|e: HostEvent| e@)
}

/// The meaning of a whole guest run: each call dispatched in order against
/// the same memory, stopping at the first trap — a trapped call aborts the
/// run, and nothing after it is decoded.
pub open spec fn spec_run(
    table: Seq<HostFuncKind>,
    mem: Seq<u8>,
    calls: Seq<GuestCall>,
) -> Result<Seq<HostEventV>, TrapError>
    decreases calls.len(),
{
    if calls.len() == 0 {
        Ok(seq![])
    } else {
        match spec_dispatch(table, mem, calls[0].slot as int, calls[0].args@) {
            Err(e) => Err(e),
            Ok(ev) => match spec_run(table, mem, calls.drop_first()) {
                Err(e) => Err(e),
                Ok(rest) => Ok(seq![ev] + rest),
            },
        }
    }
}

/// Dispatches a sequence of guest calls in order, aborting at the first
/// trap.  Decoding never writes to the memory, so every call sees the same
/// bytes.  Exactly [`spec_run`].
pub fn run(table: &Vec<HostFuncKind>, mem: &LinearMemory, calls: &Vec<GuestCall>) -> (res: Result<
    Vec<HostEvent>,
    TrapError,
>)
    requires
        mem.wf(),
    ensures
        res matches Ok(evs) ==> spec_run(table@, mem@, calls@) == Ok::<
            Seq<HostEventV>,
            TrapError,
        >(view_events(evs@)),
        res matches Err(e) ==> spec_run(table@, mem@, calls@) == Err::<
            Seq<HostEventV>,
            TrapError,
        >(e),
{
    let n = calls.len();
    let mut events: Vec<HostEvent> = Vec::new();
    proof {
        assert(calls@.subrange(0, n as int) =~= calls@);
        assert forall|rest: Seq<HostEventV>| true implies view_events(events@) + rest == rest by {
            assert(view_events(events@) + rest =~= rest);
        }
    }
    let mut k: usize = 0;
    while k < n
        invariant
            mem.wf(),
            k <= n,
            n == calls@.len(),
            spec_run(table@, mem@, calls@) == match spec_run(
                table@,
                mem@,
                calls@.subrange(k as int, n as int),
            ) {
                Ok(rest) => Ok::<Seq<HostEventV>, TrapError>(view_events(events@) + rest),
                Err(e) => Err::<Seq<HostEventV>, TrapError>(e),
            },
        decreases n - k,
    {
        let ghost suffix = calls@.subrange(k as int, n as int);
        proof {
            assert(suffix[0] == calls@[k as int]);
            assert(suffix.drop_first() =~= calls@.subrange(k as int + 1, n as int));
        }
        match dispatch(table, mem, &calls[k]) {
            Ok(ev) => {
                let ghost before = events@;
                events.push(ev);
                proof {
                    assert(view_events(events@) =~= view_events(before) + seq![ev@]);
                    assert forall|rest: Seq<HostEventV>|
                        true implies (view_events(before) + (seq![ev@] + rest)) == (view_events(
                        events@,
                    ) + rest) by {
                        assert(view_events(before) + (seq![ev@] + rest) =~= view_events(events@)
                            + rest);
                    }
                }
            },
            Err(e) => {
                return Err(e);
            },
        }
        k = k + 1;
    }
    proof {
        assert(calls@.subrange(n as int, n as int) =~= Seq::<GuestCall>::empty());
        assert(view_events(events@) + Seq::<HostEventV>::empty() =~= view_events(events@));
    }
    Ok(events)
}

/// The host's registration order for the record-logging guest: the table
/// handed to instantiation.  The order is load-bearing — reordering it
/// misroutes every positionally linked call.
pub fn get_funcs() -> (g: Vec<HostFuncKind>)
    ensures
        g@ == seq![
            HostFuncKind::LogAb,
            HostFuncKind::LogCd,
            HostFuncKind::LogStr,
            HostFuncKind::LogInt,
        ],
{
    let mut g: Vec<HostFuncKind> = Vec::new();
    g.push(HostFuncKind::LogAb);
    g.push(HostFuncKind::LogCd);
    g.push(HostFuncKind::LogStr);
    g.push(HostFuncKind::LogInt);
    proof {
        assert(g@ =~= seq![
            HostFuncKind::LogAb,
            HostFuncKind::LogCd,
            HostFuncKind::LogStr,
            HostFuncKind::LogInt,
        ]);
    }
    g
}

/// Decoding is idempotent: it never writes to the memory — every decoder
/// reads it through a shared borrow — so dispatching the same call against
/// the same unchanged bytes, any number of times, yields the identical
/// result.
pub proof fn lemma_dispatch_idempotent(
    table: Seq<HostFuncKind>,
    mem_then: Seq<u8>,
    mem_now: Seq<u8>,
    slot: int,
    args: Seq<i32>,
)
    requires
        mem_then == mem_now,
    ensures
        spec_dispatch(table, mem_then, slot, args) == spec_dispatch(table, mem_now, slot, args),
{
}

/// The signature-only check a positional linkage performs at instantiation:
/// the two orders pair up arity by arity.  It cannot see names, so it accepts
/// any reordering among slots that happen to share a signature — the
/// dangerous case the decoders must then catch.
pub fn check_signatures(host: &Vec<HostFuncKind>, guest: &Vec<HostFuncKind>) -> (r: Result<
    (),
    TrapError,
>)
    ensures
        r is Ok <==> (host@.len() == guest@.len() && forall|i: int|
            0 <= i < host@.len() ==> spec_arity(host@[i]) == spec_arity(guest@[i])),
        r is Err ==> r == Err::<(), TrapError>(TrapError::BindingOrderMismatch),
{
    if host.len() != guest.len() {
        return Err(TrapError::BindingOrderMismatch);
    }
    let n = host.len();
    let mut i: usize = 0;
    while i < n
        invariant
            i <= n,
            n == host@.len() == guest@.len(),
            forall|j: int| 0 <= j < i ==> spec_arity(host@[j]) == spec_arity(guest@[j]),
        decreases n - i,
    {
        if host[i].arity() != guest[i].arity() {
            return Err(TrapError::BindingOrderMismatch);
        }
        i = i + 1;
    }
    Ok(())
}

/// The name-and-signature check that rejects a mismatched table before any
/// call runs: host registration and guest declaration must pair up slot by
/// slot, in the same order.  Passing this is what makes positional dispatch
/// route every call to the decoder the guest meant.
pub fn check_bindings(host: &Vec<HostFuncKind>, guest: &Vec<HostFuncKind>) -> (r: Result<
    (),
    TrapError,
>)
    ensures
        r is Ok <==> host@ == guest@,
        r is Err ==> r == Err::<(), TrapError>(TrapError::BindingOrderMismatch),
{
    if host.len() != guest.len() {
        proof {
            assert(host@.len() != guest@.len() ==> host@ != guest@);
        }
        return Err(TrapError::BindingOrderMismatch);
    }
    let n = host.len();
    let mut i: usize = 0;
    while i < n
        invariant
            i <= n,
            n == host@.len() == guest@.len(),
            forall|j: int| 0 <= j < i ==> host@[j] == guest@[j],
        decreases n - i,
    {
        if host[i] != guest[i] {
            return Err(TrapError::BindingOrderMismatch);
        }
        i = i + 1;
    }
    proof {
        assert(host@ =~= guest@);
    }
    Ok(())
}

} // verus!
