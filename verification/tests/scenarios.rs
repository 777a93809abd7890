//! Whole-boundary scenarios: the ordered import contract, the misordered
//! table, and decode idempotence.

use hostcall::binding::{check_bindings, check_signatures, dispatch, run, GuestCall, HostEvent,
    HostFuncKind};
use hostcall::errors::{RecordError, TrapError};
use hostcall::guest;
use hostcall::memory::LinearMemory;
use hostcall::model::{AB, CD};

fn host_table_in_order() -> Vec<HostFuncKind> {
    vec![HostFuncKind::LogStr, HostFuncKind::LogInt, HostFuncKind::LogAb]
}

#[test]
fn hello_in_declared_order_decodes_every_value() {
    let mut mem = LinearMemory::new(64);
    let (calls, ret) = guest::hello(&mut mem);
    assert_eq!(ret, 4567);
    assert_eq!(calls.len(), 3);

    let host = host_table_in_order();
    let declared = guest::hello_imports();
    assert_eq!(check_bindings(&host, &declared), Ok(()));

    let events = run(&host, &mem, &calls).unwrap();
    assert_eq!(
        events,
        vec![
            HostEvent::Str("abcd 1234".to_string()),
            HostEvent::Int(1234),
            HostEvent::Ab(AB { a: 1, b: "1234".to_string() }),
        ]
    );
}

#[test]
fn swapped_table_is_caught_at_load_time() {
    // log_str and log_ab share a signature, so the signature-only check a
    // positional linkage performs cannot tell the orders apart...
    let swapped = vec![HostFuncKind::LogAb, HostFuncKind::LogInt, HostFuncKind::LogStr];
    let declared = guest::hello_imports();
    assert_eq!(check_signatures(&swapped, &declared), Ok(()));
    // ...but the name-and-signature pass rejects the table outright.
    assert_eq!(check_bindings(&swapped, &declared), Err(TrapError::BindingOrderMismatch));
}

#[test]
fn swapped_table_misroutes_and_the_decoders_trap() {
    let mut mem = LinearMemory::new(64);
    let (calls, _) = guest::hello(&mut mem);
    let swapped = vec![HostFuncKind::LogAb, HostFuncKind::LogInt, HostFuncKind::LogStr];

    // The text region reaches the record decoder: its first byte is no tag.
    assert_eq!(
        dispatch(&swapped, &mem, &calls[0]),
        Err(TrapError::MalformedRecord(RecordError::UnexpectedTag))
    );
    // The record region reaches the text decoder: its framing bytes are not
    // UTF-8.  Misrouting fails loudly, never silently with garbage.
    assert_eq!(dispatch(&swapped, &mem, &calls[2]), Err(TrapError::InvalidUtf8));
    // The slot whose position did not move still decodes.
    assert_eq!(dispatch(&swapped, &mem, &calls[1]), Ok(HostEvent::Int(1234)));
    // A run against the swapped table aborts at the first trap.
    assert_eq!(
        run(&swapped, &mem, &calls),
        Err(TrapError::MalformedRecord(RecordError::UnexpectedTag))
    );
}

#[test]
fn unknown_ordinal_and_arity_mismatch_are_linkage_faults() {
    let mem = LinearMemory::new(8);
    let table = host_table_in_order();
    let call = GuestCall { slot: 3, args: vec![0] };
    assert_eq!(dispatch(&table, &mem, &call), Err(TrapError::BindingOrderMismatch));
    // One argument handed to a two-argument slot.
    let call = GuestCall { slot: 0, args: vec![0] };
    assert_eq!(dispatch(&table, &mem, &call), Err(TrapError::BindingOrderMismatch));
    let call = GuestCall { slot: 1, args: vec![0, 9] };
    assert_eq!(dispatch(&table, &mem, &call), Err(TrapError::BindingOrderMismatch));
}

#[test]
fn length_mismatched_tables_fail_both_checks() {
    let declared = guest::hello_imports();
    let short = vec![HostFuncKind::LogStr, HostFuncKind::LogInt];
    assert_eq!(check_signatures(&short, &declared), Err(TrapError::BindingOrderMismatch));
    assert_eq!(check_bindings(&short, &declared), Err(TrapError::BindingOrderMismatch));
}

#[test]
fn repeated_decode_of_unchanged_region_is_identical() {
    let mut mem = LinearMemory::new(64);
    let (calls, _) = guest::hello(&mut mem);
    let table = host_table_in_order();

    let first = run(&table, &mem, &calls).unwrap();
    // Decoding reads the memory without writing it, so the same region
    // decodes to the same values, as many times as asked.
    for _ in 0..3 {
        assert_eq!(run(&table, &mem, &calls).unwrap(), first);
    }
    for call in &calls {
        assert_eq!(dispatch(&table, &mem, call), dispatch(&table, &mem, call));
    }
}

#[test]
fn guest_encoders_place_and_claim_regions() {
    let mut mem = LinearMemory::new(128);
    let c_str = guest::log_str(&mut mem, 0, 0, "hi").unwrap();
    assert_eq!(c_str.slot, 0);
    assert_eq!(c_str.args, vec![0, 2]);

    let cd = CD::from(-5, "pad");
    let c_cd = guest::log_cd(&mut mem, 8, 1, &cd).unwrap();
    assert_eq!(c_cd.args, vec![8, 36]);
    let table = vec![HostFuncKind::LogStr, HostFuncKind::LogCd];
    assert_eq!(dispatch(&table, &mem, &c_str), Ok(HostEvent::Str("hi".to_string())));
    assert_eq!(dispatch(&table, &mem, &c_cd), Ok(HostEvent::Cd(CD::from(-5, "pad"))));
}

#[test]
fn guest_encoders_respect_memory_bounds() {
    let mut mem = LinearMemory::new(8);
    assert_eq!(
        guest::log_str(&mut mem, 4, 0, "too long here").err(),
        Some(TrapError::OutOfBounds)
    );
    let ab = AB { a: 1, b: "oversize".to_string() };
    assert_eq!(guest::log_ab(&mut mem, 0, 2, &ab).err(), Some(TrapError::OutOfBounds));
    let cd = CD { c: 0, d: "x".repeat(40) };
    // Over-capacity text is an encode-time failure, not a bounds one.
    assert_eq!(guest::log_cd(&mut mem, 0, 1, &cd).err(), Some(TrapError::SizeMismatch));
}

#[test]
fn log_struct_passes_raw_payloads_through() {
    let mut mem = LinearMemory::new(16);
    let payload = [1u8, 2, 3, 4];
    let call = guest::log_struct(&mut mem, 2, 0, &payload).unwrap();
    assert_eq!(call.args, vec![2, 4]);
    assert_eq!(hostcall::memory::slice_of(&mem, 2, 4).unwrap(), payload.to_vec());
}

#[test]
fn hello_records_decodes_all_four_kinds_in_call_order() {
    let mut mem = LinearMemory::new(128);
    let (calls, ret) = guest::hello_records(&mut mem);
    assert_eq!(ret, 4567);

    let host = hostcall::binding::get_funcs();
    assert_eq!(check_bindings(&host, &guest::hello_records_imports()), Ok(()));

    let events = run(&host, &mem, &calls).unwrap();
    assert_eq!(
        events,
        vec![
            HostEvent::Int(1234),
            HostEvent::Str("Hello World!".to_string()),
            HostEvent::Ab(AB { a: 1234, b: "abcd".to_string() }),
            HostEvent::Cd(CD::from(1234, "hello world")),
        ]
    );
}

#[test]
fn log_int_passes_the_value_through() {
    let call = guest::log_int(5, -123);
    assert_eq!(call.slot, 5);
    assert_eq!(call.args, vec![-123]);
}
