use unwinder::cursor::state::CfaRule;
use unwinder::cursor::state::EvalLocation;
use unwinder::cursor::state::EvalPiece;
use unwinder::cursor::state::RegisterRule;
use unwinder::cursor::state::UnwindRow;
use unwinder::cursor::state::read_word;
use unwinder::cursor::state::resolve_evaluation;
use unwinder::cursor::x86_64::FramePointerBasedState;
use unwinder::cursor::x86_64::RegisterRecovery;
use unwinder::cursor::x86_64::RETURN_ADDRESS_IDX;
use unwinder::cursor::x86_64::STACK_POINTER_IDX;
use unwinder::cursor::FrameState;
use unwinder::image::Endianness;
use unwinder::ErrorKind;
use unwinder::UnwindError;

fn row(cfa: CfaRule, rules: Vec<(u16, RegisterRule)>) -> UnwindRow {
    UnwindRow { cfa, registers: rules }
}

fn frame_rule_row(offset: i64, ret: RegisterRule) -> UnwindRow {
    row(
        CfaRule::RegisterAndOffset { register: STACK_POINTER_IDX, offset },
        vec![(RETURN_ADDRESS_IDX, ret)],
    )
}

#[test]
fn frame_state_accessors() {
    let s = FrameState::new(0x4010, 0x7fff_0000);
    assert_eq!(s.get_program_counter(), 0x4010);
    assert_eq!(s.get_frame_pointer(), 0x7fff_0000);
}

#[test]
fn state_accessors_and_registers() {
    let s = FramePointerBasedState::new(0x4010, 0x7fff_0000);
    assert_eq!(s.get_program_counter(), 0x4010);
    assert_eq!(s.get_register(STACK_POINTER_IDX).unwrap(), 0x7fff_0000);
    let e = s.get_register(3).unwrap_err();
    assert_eq!(e.kind(), ErrorKind::NotSupported);
}

#[test]
fn cfa_from_stack_pointer_offset() {
    let s = FramePointerBasedState::new(0x4010, 0x1000);
    let r = frame_rule_row(16, RegisterRule::Offset(-8));
    assert_eq!(s.get_cfa(&r).unwrap(), 0x1010);
    let other = row(CfaRule::RegisterAndOffset { register: 6, offset: 16 }, Vec::new());
    assert_eq!(s.get_cfa(&other).unwrap_err().kind(), ErrorKind::NotSupported);
    let expr = row(CfaRule::Expression, Vec::new());
    assert_eq!(s.get_cfa(&expr).unwrap_err().kind(), ErrorKind::NotSupported);
}

#[test]
fn recover_register_rules() {
    let s = FramePointerBasedState::new(0x4010, 0x1000);
    let read = s
        .recover_register(RETURN_ADDRESS_IDX, &frame_rule_row(16, RegisterRule::Offset(-8)))
        .unwrap();
    assert_eq!(read, RegisterRecovery::ReadMemory(0x1008));
    let val = s
        .recover_register(RETURN_ADDRESS_IDX, &frame_rule_row(16, RegisterRule::ValOffset(-8)))
        .unwrap();
    assert_eq!(val, RegisterRecovery::Value(0x1008));
    let reg = s
        .recover_register(
            RETURN_ADDRESS_IDX,
            &frame_rule_row(16, RegisterRule::Register(STACK_POINTER_IDX)),
        )
        .unwrap();
    assert_eq!(reg, RegisterRecovery::Value(0x1000));
    let constant = s
        .recover_register(RETURN_ADDRESS_IDX, &frame_rule_row(16, RegisterRule::Constant(0x77)))
        .unwrap();
    assert_eq!(constant, RegisterRecovery::Value(0x77));
    let ended = s
        .recover_register(RETURN_ADDRESS_IDX, &frame_rule_row(16, RegisterRule::Undefined))
        .unwrap_err();
    assert_eq!(ended.kind(), ErrorKind::UnwindEnded);
    let arch = s
        .recover_register(RETURN_ADDRESS_IDX, &frame_rule_row(16, RegisterRule::Architectural))
        .unwrap_err();
    assert_eq!(arch.kind(), ErrorKind::NotSupported);
    let expr = s
        .recover_register(RETURN_ADDRESS_IDX, &frame_rule_row(16, RegisterRule::Expression))
        .unwrap_err();
    assert_eq!(expr.kind(), ErrorKind::NotSupported);
}

#[test]
fn default_rule_is_undefined() {
    let r = row(
        CfaRule::RegisterAndOffset { register: STACK_POINTER_IDX, offset: 8 },
        vec![(6, RegisterRule::SameValue)],
    );
    assert_eq!(r.register(RETURN_ADDRESS_IDX), RegisterRule::Undefined);
    assert_eq!(r.register(6), RegisterRule::SameValue);
}

#[test]
fn plan_and_commit_step() {
    let mut s = FramePointerBasedState::new(0x4010, 0x1000);
    let plan = s.plan_step(&frame_rule_row(16, RegisterRule::Offset(-8))).unwrap();
    assert_eq!(plan.new_rsp, 0x1010);
    assert_eq!(plan.rip, RegisterRecovery::ReadMemory(0x1008));
    // The stack pointer grows across a successful step.
    assert!(plan.new_rsp > 0x1000);
    // The caller reads the word the plan names, then commits.
    s.commit_step(0x5020, plan.new_rsp);
    assert_eq!(s.get_program_counter(), 0x5020);
    assert_eq!(s.get_register(STACK_POINTER_IDX).unwrap(), 0x1010);
}

#[test]
fn undefined_return_address_ends_walk() {
    let s = FramePointerBasedState::new(0x4010, 0x1000);
    let e = s.plan_step(&frame_rule_row(16, RegisterRule::Undefined)).unwrap_err();
    assert!(matches!(e, UnwindError::UnwindEnded));
}

#[test]
fn read_word_both_orders() {
    let bytes = vec![0x01, 0x02, 0x03, 0x04];
    assert_eq!(read_word(&bytes, 0, 2, true), 0x0201);
    assert_eq!(read_word(&bytes, 0, 2, false), 0x0102);
    assert_eq!(read_word(&bytes, 1, 3, true), 0x040302);
    assert_eq!(read_word(&bytes, 0, 4, false), 0x01020304);
    assert_eq!(read_word(&bytes, 2, 0, true), 0);
}

fn plain_piece(location: EvalLocation) -> EvalPiece {
    EvalPiece { location, bit_offset: None, size_in_bits: None }
}

#[test]
fn evaluation_single_value() {
    let s = FramePointerBasedState::new(0, 0x1000);
    let dbg: Vec<u8> = Vec::new();
    let r = resolve_evaluation(
        &vec![plain_piece(EvalLocation::Value(0x42))],
        8,
        &s,
        &dbg,
        Endianness::Little,
    );
    assert_eq!(r.unwrap(), RegisterRecovery::Value(0x42));
}

#[test]
fn evaluation_wrong_piece_count() {
    let s = FramePointerBasedState::new(0, 0x1000);
    let dbg: Vec<u8> = Vec::new();
    let none = resolve_evaluation(&Vec::new(), 8, &s, &dbg, Endianness::Little);
    assert_eq!(none.unwrap_err().kind(), ErrorKind::UnwindLogicalError);
    let two = resolve_evaluation(
        &vec![plain_piece(EvalLocation::Value(1)), plain_piece(EvalLocation::Value(2))],
        8,
        &s,
        &dbg,
        Endianness::Little,
    );
    assert_eq!(two.unwrap_err().kind(), ErrorKind::UnwindLogicalError);
}

#[test]
fn evaluation_register_cases() {
    let s = FramePointerBasedState::new(0, 0x1000);
    let dbg: Vec<u8> = Vec::new();
    let sp = resolve_evaluation(
        &vec![plain_piece(EvalLocation::Register(STACK_POINTER_IDX))],
        8,
        &s,
        &dbg,
        Endianness::Little,
    );
    assert_eq!(sp.unwrap(), RegisterRecovery::Value(0x1000));
    let other = resolve_evaluation(
        &vec![plain_piece(EvalLocation::Register(3))],
        8,
        &s,
        &dbg,
        Endianness::Little,
    );
    assert_eq!(other.unwrap_err().kind(), ErrorKind::NotSupported);
    let offset = resolve_evaluation(
        &vec![EvalPiece {
            location: EvalLocation::Register(STACK_POINTER_IDX),
            bit_offset: Some(1),
            size_in_bits: None,
        }],
        8,
        &s,
        &dbg,
        Endianness::Little,
    );
    assert_eq!(offset.unwrap_err().kind(), ErrorKind::NotSupported);
    let sized = resolve_evaluation(
        &vec![EvalPiece {
            location: EvalLocation::Register(STACK_POINTER_IDX),
            bit_offset: None,
            size_in_bits: Some(32),
        }],
        8,
        &s,
        &dbg,
        Endianness::Little,
    );
    assert_eq!(sized.unwrap_err().kind(), ErrorKind::UnwindLogicalError);
}

#[test]
fn evaluation_address_and_empty() {
    let s = FramePointerBasedState::new(0, 0x1000);
    let dbg: Vec<u8> = Vec::new();
    let addr = resolve_evaluation(
        &vec![plain_piece(EvalLocation::Address(0x2000))],
        8,
        &s,
        &dbg,
        Endianness::Little,
    );
    assert_eq!(addr.unwrap(), RegisterRecovery::ReadMemory(0x2000));
    let shifted = resolve_evaluation(
        &vec![EvalPiece {
            location: EvalLocation::Address(0x2000),
            bit_offset: Some(16),
            size_in_bits: None,
        }],
        8,
        &s,
        &dbg,
        Endianness::Little,
    );
    assert_eq!(shifted.unwrap(), RegisterRecovery::ReadMemory(0x2002));
    let empty = resolve_evaluation(
        &vec![plain_piece(EvalLocation::Empty)],
        8,
        &s,
        &dbg,
        Endianness::Little,
    );
    assert_eq!(empty.unwrap_err().kind(), ErrorKind::UnwindLogicalError);
}

#[test]
fn evaluation_bytes_and_implicit_pointer() {
    let s = FramePointerBasedState::new(0, 0x1000);
    let dbg: Vec<u8> = vec![0xAA, 0x11, 0x22, 0x33, 0x44];
    let bytes = resolve_evaluation(
        &vec![plain_piece(EvalLocation::Bytes(vec![0x78, 0x56, 0x34, 0x12]))],
        4,
        &s,
        &dbg,
        Endianness::Little,
    );
    assert_eq!(bytes.unwrap(), RegisterRecovery::Value(0x12345678));
    let short = resolve_evaluation(
        &vec![plain_piece(EvalLocation::Bytes(vec![0x78]))],
        4,
        &s,
        &dbg,
        Endianness::Little,
    );
    assert_eq!(short.unwrap_err().kind(), ErrorKind::UnwindLogicalError);
    let inside = resolve_evaluation(
        &vec![plain_piece(EvalLocation::ImplicitPointer { offset: 1, byte_offset: 0 })],
        4,
        &s,
        &dbg,
        Endianness::Little,
    );
    assert_eq!(inside.unwrap(), RegisterRecovery::Value(0x44332211));
    let outside = resolve_evaluation(
        &vec![plain_piece(EvalLocation::ImplicitPointer { offset: 4, byte_offset: 4 })],
        4,
        &s,
        &dbg,
        Endianness::Little,
    );
    assert_eq!(outside.unwrap_err().kind(), ErrorKind::UnwindLogicalError);
}
