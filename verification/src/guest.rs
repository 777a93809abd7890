//! The guest-side encoders: each places a value — directly, or as encoded
//! bytes inside the linear memory — and forms the call that hands it to one
//! import slot.  The slot ordinal is fixed by the guest's declaration order;
//! whether it reaches the host function the guest meant is decided by the
//! binding table alone.

use vstd::prelude::*;
use vstd::utf8::{encode_utf8, is_ascii_chars, is_ascii_chars_encode_utf8};
use crate::binding::{spec_dispatch, spec_run, GuestCall, HostEventV, HostFuncKind};
use crate::errors::TrapError;
use crate::fixed::{encode_record_fixed, spec_cd_bytes, CD_WIRE_SIZE};
use crate::memory::{lemma_spec_write_frame, spec_write, LinearMemory};
use crate::model::{AB, AbV, CD, CD_CAPACITY, CdV};
use crate::record::{encode_record_selfdescribing, spec_encode_ab};
use crate::text::encode_text;

verus! {

/// Encodes a primitive value: passed through the calling convention
/// directly, it needs no region and no validation beyond its type.
pub fn log_int(slot: usize, v: i32) -> (c: GuestCall)
    ensures
        c.slot == slot,
        c.args@ == seq![v],
{
    let mut args: Vec<i32> = Vec::new();
    args.push(v);
    proof {
        assert(args@ =~= seq![v]);
    }
    GuestCall { slot, args }
}

/// Places an already-encoded payload at `at` and forms the call claiming
/// exactly that region: the step every region-passing encoder shares.  The
/// payload must fit the current memory; nothing grows it here.
pub fn log_struct(mem: &mut LinearMemory, at: u32, slot: usize, payload: &[u8]) -> (r: Result<
    GuestCall,
    TrapError,
>)
    requires
        old(mem).wf(),
    ensures
        final(mem).wf(),
        r is Ok <==> at + payload@.len() <= old(mem)@.len(),
        r matches Ok(c) ==> {
            &&& final(mem)@ == spec_write(old(mem)@, at as int, payload@)
            &&& c.slot == slot
            &&& c.args@.len() == 2
            &&& c.args@[0] as u32 == at
            &&& c.args@[1] as u32 == payload@.len()
        },
        r is Err ==> final(mem)@ == old(mem)@ && r == Err::<GuestCall, TrapError>(
            TrapError::OutOfBounds,
        ),
{
    match mem.write(at, payload) {
        Ok(()) => {
            let length = payload.len() as u32;
            let mut args: Vec<i32> = Vec::new();
            args.push(at as i32);
            args.push(length as i32);
            proof {
                assert(args@ =~= seq![at as i32, length as i32]);
                assert((at as i32) as u32 == at) by (bit_vector);
                let l = length;
                assert((l as i32) as u32 == l) by (bit_vector);
            }
            Ok(GuestCall { slot, args })
        },
        Err(e) => Err(e),
    }
}

/// Encodes a text value: the call claims the region now holding the text's
/// own UTF-8 byte storage, copied into memory unchanged — no re-encoding.
pub fn log_str(mem: &mut LinearMemory, at: u32, slot: usize, s: &str) -> (r: Result<
    GuestCall,
    TrapError,
>)
    requires
        old(mem).wf(),
    ensures
        final(mem).wf(),
        r is Ok <==> at + encode_utf8(s@).len() <= old(mem)@.len(),
        r matches Ok(c) ==> {
            &&& final(mem)@ == spec_write(old(mem)@, at as int, encode_utf8(s@))
            &&& c.slot == slot
            &&& c.args@.len() == 2
            &&& c.args@[0] as u32 == at
            &&& c.args@[1] as u32 == encode_utf8(s@).len()
        },
        r is Err ==> final(mem)@ == old(mem)@ && r == Err::<GuestCall, TrapError>(
            TrapError::OutOfBounds,
        ),
{
    let bytes = encode_text(s);
    log_struct(mem, at, slot, bytes.as_slice())
}

/// Encodes a self-describing record into its tagged wire image and places
/// it; the call claims the image's region.
pub fn log_ab(mem: &mut LinearMemory, at: u32, slot: usize, ab: &AB) -> (r: Result<
    GuestCall,
    TrapError,
>)
    requires
        old(mem).wf(),
        encode_utf8(ab@.b).len() <= 0xffff_ffff,
    ensures
        final(mem).wf(),
        r is Ok <==> at + spec_encode_ab(ab@.a, encode_utf8(ab@.b)).len() <= old(mem)@.len(),
        r matches Ok(c) ==> {
            &&& final(mem)@ == spec_write(
                old(mem)@,
                at as int,
                spec_encode_ab(ab@.a, encode_utf8(ab@.b)),
            )
            &&& c.slot == slot
            &&& c.args@.len() == 2
            &&& c.args@[0] as u32 == at
            &&& c.args@[1] as u32 == spec_encode_ab(ab@.a, encode_utf8(ab@.b)).len()
        },
        r is Err ==> final(mem)@ == old(mem)@ && r == Err::<GuestCall, TrapError>(
            TrapError::OutOfBounds,
        ),
{
    let bytes = encode_record_selfdescribing(ab);
    log_struct(mem, at, slot, bytes.as_slice())
}

/// Encodes a fixed-layout record into its pinned wire image and places it;
/// the call claims exactly [`CD_WIRE_SIZE`] bytes.  A text field over
/// capacity has no image and fails here, before anything touches memory.
pub fn log_cd(mem: &mut LinearMemory, at: u32, slot: usize, cd: &CD) -> (r: Result<
    GuestCall,
    TrapError,
>)
    requires
        old(mem).wf(),
    ensures
        final(mem).wf(),
        r is Ok <==> encode_utf8(cd@.d).len() <= CD_CAPACITY && at + CD_WIRE_SIZE <= old(
            mem,
        )@.len(),
        r matches Ok(c) ==> {
            &&& final(mem)@ == spec_write(
                old(mem)@,
                at as int,
                spec_cd_bytes(cd@.c, encode_utf8(cd@.d)),
            )
            &&& c.slot == slot
            &&& c.args@.len() == 2
            &&& c.args@[0] as u32 == at
            &&& c.args@[1] as u32 == CD_WIRE_SIZE
        },
        r matches Err(e) ==> final(mem)@ == old(mem)@ && e == if encode_utf8(cd@.d).len()
            > CD_CAPACITY {
            TrapError::SizeMismatch
        } else {
            TrapError::OutOfBounds
        },
{
    let bytes = match encode_record_fixed(cd) {
        Ok(b) => b,
        Err(e) => {
            return Err(e);
        },
    };
    log_struct(mem, at, slot, bytes.as_slice())
}

/// The import order the [`hello`] guest declares.  The host must register
/// its functions in exactly this order; the linkage is positional and will
/// not reorder for it.
pub fn hello_imports() -> (g: Vec<HostFuncKind>)
    ensures
        g@ == seq![HostFuncKind::LogStr, HostFuncKind::LogInt, HostFuncKind::LogAb],
{
    let mut g: Vec<HostFuncKind> = Vec::new();
    g.push(HostFuncKind::LogStr);
    g.push(HostFuncKind::LogInt);
    g.push(HostFuncKind::LogAb);
    proof {
        assert(g@ =~= seq![HostFuncKind::LogStr, HostFuncKind::LogInt, HostFuncKind::LogAb]);
    }
    g
}

/// The guest's exported entry function: encodes a text, an integer and a
/// record through its three import slots, in declaration order, and returns
/// its final integer.  It needs a little linear memory to stage its regions
/// in.  The contract carries the whole scenario: dispatched against a host
/// table registered in the declared order, the run decodes exactly the three
/// values the guest sent, in the order it sent them.
pub fn hello(mem: &mut LinearMemory) -> (r: (Vec<GuestCall>, i32))
    requires
        old(mem).wf(),
        old(mem)@.len() >= 32,
    ensures
        final(mem).wf(),
        r.1 == 4567,
        spec_run(
            seq![HostFuncKind::LogStr, HostFuncKind::LogInt, HostFuncKind::LogAb],
            final(mem)@,
            r.0@,
        ) == Ok::<Seq<HostEventV>, TrapError>(
            seq![
                HostEventV::Str("abcd 1234"@),
                HostEventV::Int(1234),
                HostEventV::Ab(AbV { a: 1, b: "1234"@ }),
            ],
        ),
{
    proof {
        reveal_strlit("abcd 1234");
        reveal_strlit("1234");
        assert(is_ascii_chars("abcd 1234"@));
        assert(is_ascii_chars("1234"@));
        is_ascii_chars_encode_utf8("abcd 1234"@);
        is_ascii_chars_encode_utf8("1234"@);
    }
    let ghost m0 = mem@;
    let ghost sb = encode_utf8("abcd 1234"@);
    let c0 = match log_str(mem, 0, 0, "abcd 1234") {
        Ok(c) => c,
        Err(_) => vstd::pervasive::unreached(),
    };
    let ghost m1 = mem@;
    let c1 = log_int(1, 1234);
    let ab = AB { a: 1, b: "1234".to_owned() };
    let ghost eb = encode_utf8("1234"@);
    let ghost abb = spec_encode_ab(1, eb);
    proof {
        assert(abb.len() == 7);
    }
    let c2 = match log_ab(mem, 16, 2, &ab) {
        Ok(c) => c,
        Err(_) => vstd::pervasive::unreached(),
    };
    let mut calls: Vec<GuestCall> = Vec::new();
    calls.push(c0);
    calls.push(c1);
    calls.push(c2);
    proof {
        let table = seq![HostFuncKind::LogStr, HostFuncKind::LogInt, HostFuncKind::LogAb];
        let m2 = mem@;
        assert(m2.len() == m0.len());
        let cs = calls@;
        assert(cs =~= seq![c0, c1, c2]);

        // What each region of the final memory holds: the second write did
        // not touch the first region.
        assert(m2.subrange(0, 9) =~= sb);
        assert(m2.subrange(16, 23) =~= abb);

        // What each slot's decoder makes of its region.
        crate::text::lemma_text_round_trip("abcd 1234"@);
        crate::record::lemma_record_round_trip(1, "1234"@);
        let ev0 = HostEventV::Str("abcd 1234"@);
        let ev1 = HostEventV::Int(1234);
        let ev2 = HostEventV::Ab(AbV { a: 1, b: "1234"@ });
        assert(spec_dispatch(table, m2, 0, c0.args@) == Ok::<HostEventV, TrapError>(ev0));
        assert(spec_dispatch(table, m2, 1, c1.args@) == Ok::<HostEventV, TrapError>(ev1));
        assert(spec_dispatch(table, m2, 2, c2.args@) == Ok::<HostEventV, TrapError>(ev2));

        // Fold the run from the back.
        reveal_with_fuel(spec_run, 5);
        assert(seq![c2].drop_first() =~= Seq::<GuestCall>::empty());
        assert(spec_run(table, m2, seq![c2]) == Ok::<Seq<HostEventV>, TrapError>(
            seq![ev2] + Seq::<HostEventV>::empty(),
        ));
        assert(seq![ev2] + Seq::<HostEventV>::empty() =~= seq![ev2]);
        assert(seq![c1, c2].drop_first() =~= seq![c2]);
        assert(spec_run(table, m2, seq![c1, c2]) == Ok::<Seq<HostEventV>, TrapError>(
            seq![ev1] + seq![ev2],
        ));
        assert(seq![ev1] + seq![ev2] =~= seq![ev1, ev2]);
        assert(cs.drop_first() =~= seq![c1, c2]);
        assert(spec_run(table, m2, cs) == Ok::<Seq<HostEventV>, TrapError>(
            seq![ev0] + seq![ev1, ev2],
        ));
        assert(seq![ev0] + seq![ev1, ev2] =~= seq![ev0, ev1, ev2]);
    }
    (calls, 4567)
}

/// The import order the [`hello_records`] guest declares: the same order
/// [`crate::binding::get_funcs`] registers on the host side.
pub fn hello_records_imports() -> (g: Vec<HostFuncKind>)
    ensures
        g@ == seq![
            HostFuncKind::LogAb,
            HostFuncKind::LogCd,
            HostFuncKind::LogStr,
            HostFuncKind::LogInt,
        ],
{
    let mut g: Vec<HostFuncKind> = Vec::new();
    g.push(HostFuncKind::LogAb);
    g.push(HostFuncKind::LogCd);
    g.push(HostFuncKind::LogStr);
    g.push(HostFuncKind::LogInt);
    proof {
        assert(g@ =~= seq![
            HostFuncKind::LogAb,
            HostFuncKind::LogCd,
            HostFuncKind::LogStr,
            HostFuncKind::LogInt,
        ]);
    }
    g
}

/// The final memory of [`hello_records`], region by region: its three
/// writes land at disjoint offsets, so each region still holds exactly what
/// was written to it.
proof fn lemma_records_memory(m0: Seq<u8>, sb: Seq<u8>, abb: Seq<u8>, cdb: Seq<u8>)
    requires
        m0.len() >= 68,
        sb.len() == 12,
        abb.len() == 9,
        cdb.len() == 36,
    ensures
        ({
            let m3 = spec_write(spec_write(spec_write(m0, 0, sb), 16, abb), 32, cdb);
            &&& m3.len() == m0.len()
            &&& m3.subrange(0, 12) == sb
            &&& m3.subrange(16, 25) == abb
            &&& m3.subrange(32, 68) == cdb
        }),
{
    let m1 = spec_write(m0, 0, sb);
    let m2 = spec_write(m1, 16, abb);
    let m3 = spec_write(m2, 32, cdb);
    lemma_spec_write_frame(m0, 0, sb);
    lemma_spec_write_frame(m1, 16, abb);
    lemma_spec_write_frame(m2, 32, cdb);
    assert(m3.subrange(0, 12) =~= sb);
    assert(m3.subrange(16, 25) =~= abb);
    assert(m3.subrange(32, 68) =~= cdb);
}

/// The run of [`hello_records`]'s four calls against the registration order
/// of [`crate::binding::get_funcs`]: each slot's decoder recovers from its
/// region exactly the value the guest placed there, in call order.
proof fn lemma_records_run(
    m: Seq<u8>,
    c_int: GuestCall,
    c_str: GuestCall,
    c_ab: GuestCall,
    c_cd: GuestCall,
)
    requires
        m.len() >= 68,
        encode_utf8("Hello World!"@).len() == 12,
        encode_utf8("abcd"@).len() == 4,
        encode_utf8("hello world"@).len() == 11,
        m.subrange(0, 12) == encode_utf8("Hello World!"@),
        m.subrange(16, 25) == spec_encode_ab(1234, encode_utf8("abcd"@)),
        m.subrange(32, 68) == spec_cd_bytes(1234, encode_utf8("hello world"@)),
        c_int.slot == 3 && c_int.args@ == seq![1234i32],
        c_str.slot == 2 && c_str.args@.len() == 2 && c_str.args@[0] as u32 == 0
            && c_str.args@[1] as u32 == 12,
        c_ab.slot == 0 && c_ab.args@.len() == 2 && c_ab.args@[0] as u32 == 16
            && c_ab.args@[1] as u32 == 9,
        c_cd.slot == 1 && c_cd.args@.len() == 2 && c_cd.args@[0] as u32 == 32
            && c_cd.args@[1] as u32 == 36,
    ensures
        spec_run(
            seq![
                HostFuncKind::LogAb,
                HostFuncKind::LogCd,
                HostFuncKind::LogStr,
                HostFuncKind::LogInt,
            ],
            m,
            seq![c_int, c_str, c_ab, c_cd],
        ) == Ok::<Seq<HostEventV>, TrapError>(
            seq![
                HostEventV::Int(1234),
                HostEventV::Str("Hello World!"@),
                HostEventV::Ab(AbV { a: 1234, b: "abcd"@ }),
                HostEventV::Cd(CdV { c: 1234, d: "hello world"@ }),
            ],
        ),
{
    let table = seq![
        HostFuncKind::LogAb,
        HostFuncKind::LogCd,
        HostFuncKind::LogStr,
        HostFuncKind::LogInt,
    ];
    let ev0 = HostEventV::Int(1234);
    let ev1 = HostEventV::Str("Hello World!"@);
    let ev2 = HostEventV::Ab(AbV { a: 1234, b: "abcd"@ });
    let ev3 = HostEventV::Cd(CdV { c: 1234, d: "hello world"@ });

    // What each slot's decoder makes of its region.
    assert(spec_dispatch(table, m, 3, c_int.args@) == Ok::<HostEventV, TrapError>(ev0));
    assert(spec_dispatch(table, m, 2, c_str.args@) == Ok::<HostEventV, TrapError>(ev1)) by {
        crate::text::lemma_text_round_trip("Hello World!"@);
    }
    assert(spec_dispatch(table, m, 0, c_ab.args@) == Ok::<HostEventV, TrapError>(ev2)) by {
        crate::record::lemma_record_round_trip(1234, "abcd"@);
    }
    assert(spec_dispatch(table, m, 1, c_cd.args@) == Ok::<HostEventV, TrapError>(ev3)) by {
        crate::fixed::lemma_fixed_round_trip(1234, "hello world"@);
    }

    // Fold the run from the back.
    reveal_with_fuel(spec_run, 6);
    assert(seq![c_cd].drop_first() =~= Seq::<GuestCall>::empty());
    assert(spec_run(table, m, seq![c_cd]) == Ok::<Seq<HostEventV>, TrapError>(
        seq![ev3] + Seq::<HostEventV>::empty(),
    ));
    assert(seq![ev3] + Seq::<HostEventV>::empty() =~= seq![ev3]);
    assert(seq![c_ab, c_cd].drop_first() =~= seq![c_cd]);
    assert(spec_run(table, m, seq![c_ab, c_cd]) == Ok::<Seq<HostEventV>, TrapError>(
        seq![ev2] + seq![ev3],
    ));
    assert(seq![ev2] + seq![ev3] =~= seq![ev2, ev3]);
    assert(seq![c_str, c_ab, c_cd].drop_first() =~= seq![c_ab, c_cd]);
    assert(spec_run(table, m, seq![c_str, c_ab, c_cd]) == Ok::<Seq<HostEventV>, TrapError>(
        seq![ev1] + seq![ev2, ev3],
    ));
    assert(seq![ev1] + seq![ev2, ev3] =~= seq![ev1, ev2, ev3]);
    assert(seq![c_int, c_str, c_ab, c_cd].drop_first() =~= seq![c_str, c_ab, c_cd]);
    assert(spec_run(table, m, seq![c_int, c_str, c_ab, c_cd]) == Ok::<
        Seq<HostEventV>,
        TrapError,
    >(seq![ev0] + seq![ev1, ev2, ev3]));
    assert(seq![ev0] + seq![ev1, ev2, ev3] =~= seq![ev0, ev1, ev2, ev3]);
}

/// The guest entry that exercises both record crossings: an integer, a
/// text, a self-describing record and a fixed-layout record, through four
/// import slots; it needs a little linear memory to stage its regions in.
/// As with [`hello`], the contract carries the scenario: against the host
/// table of [`crate::binding::get_funcs`], the run decodes exactly the four
/// values, in call order.
pub fn hello_records(mem: &mut LinearMemory) -> (r: (Vec<GuestCall>, i32))
    requires
        old(mem).wf(),
        old(mem)@.len() >= 96,
    ensures
        final(mem).wf(),
        r.1 == 4567,
        spec_run(
            seq![
                HostFuncKind::LogAb,
                HostFuncKind::LogCd,
                HostFuncKind::LogStr,
                HostFuncKind::LogInt,
            ],
            final(mem)@,
            r.0@,
        ) == Ok::<Seq<HostEventV>, TrapError>(
            seq![
                HostEventV::Int(1234),
                HostEventV::Str("Hello World!"@),
                HostEventV::Ab(AbV { a: 1234, b: "abcd"@ }),
                HostEventV::Cd(CdV { c: 1234, d: "hello world"@ }),
            ],
        ),
{
    proof {
        reveal_strlit("Hello World!");
        reveal_strlit("abcd");
        reveal_strlit("hello world");
        assert(is_ascii_chars("Hello World!"@));
        assert(is_ascii_chars("abcd"@));
        assert(is_ascii_chars("hello world"@));
        is_ascii_chars_encode_utf8("Hello World!"@);
        is_ascii_chars_encode_utf8("abcd"@);
        is_ascii_chars_encode_utf8("hello world"@);
    }
    let ghost m0 = mem@;
    let ghost sb = encode_utf8("Hello World!"@);
    let ghost eb = encode_utf8("abcd"@);
    let ghost abb = spec_encode_ab(1234, eb);
    let ghost db = encode_utf8("hello world"@);
    let ghost cdb = spec_cd_bytes(1234, db);
    proof {
        assert(abb.len() == 9);
        vstd::bytes::lemma_auto_spec_u32_to_from_le_bytes();
        assert(cdb.len() == 36);
    }
    let c_int = log_int(3, 1234);
    let c_str = match log_str(mem, 0, 2, "Hello World!") {
        Ok(c) => c,
        Err(_) => vstd::pervasive::unreached(),
    };
    let ab = AB { a: 1234, b: "abcd".to_owned() };
    let c_ab = match log_ab(mem, 16, 0, &ab) {
        Ok(c) => c,
        Err(_) => vstd::pervasive::unreached(),
    };
    let cd = CD::from(1234, "hello world");
    let c_cd = match log_cd(mem, 32, 1, &cd) {
        Ok(c) => c,
        Err(_) => vstd::pervasive::unreached(),
    };
    let mut calls: Vec<GuestCall> = Vec::new();
    calls.push(c_int);
    calls.push(c_str);
    calls.push(c_ab);
    calls.push(c_cd);
    proof {
        lemma_records_memory(m0, sb, abb, cdb);
        assert(mem@ == spec_write(spec_write(spec_write(m0, 0, sb), 16, abb), 32, cdb));
        lemma_records_run(mem@, c_int, c_str, c_ab, c_cd);
        assert(calls@ =~= seq![c_int, c_str, c_ab, c_cd]);
    }
    (calls, 4567)
}

} // verus!
