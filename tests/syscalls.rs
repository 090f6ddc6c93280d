use hypercore_sequencer::{ParamType, PtrInfo, PtrType, SysCallName, ValueType, SYSCALL_COUNT};

#[test]
fn names_of_some_syscalls() {
    assert_eq!(SysCallName::Alloc.to_str(), "alloc");
    assert_eq!(SysCallName::Free.to_str(), "free");
    assert_eq!(SysCallName::Send.to_str(), "gr_send");
    assert_eq!(SysCallName::ReplyInputWGas.to_str(), "gr_reply_input_wgas");
    assert_eq!(SysCallName::PayProgramRent.to_str(), "gr_pay_program_rent");
}

#[test]
fn names_are_distinct() {
    let all = SysCallName::all();
    let mut names: Vec<&str> = all.iter().map(|n| n.to_str()).collect();
    names.sort();
    names.dedup();
    assert_eq!(names.len(), all.len());
}

#[test]
fn count_is_number_of_variants() {
    assert_eq!(SysCallName::count(), 55);
    assert_eq!(SYSCALL_COUNT, 55);
    assert_eq!(SysCallName::all().len(), 55);
}

#[test]
fn instrumentable_excludes_two() {
    let inst = SysCallName::instrumentable();
    assert_eq!(inst.len(), 53);
    assert!(!inst.contains(&SysCallName::OutOfGas));
    assert!(!inst.contains(&SysCallName::SystemReserveGas));
    assert!(inst.contains(&SysCallName::Random));
    let mut sorted = inst.clone();
    sorted.sort();
    assert_eq!(sorted, inst);
}

#[test]
fn wgas_variants() {
    assert_eq!(SysCallName::Send.to_wgas(), Some(SysCallName::SendWGas));
    assert_eq!(SysCallName::CreateProgram.to_wgas(), Some(SysCallName::CreateProgramWGas));
    assert_eq!(SysCallName::SendWGas.to_wgas(), None);
    assert_eq!(SysCallName::Wait.to_wgas(), None);
}

#[test]
fn pointer_kinds() {
    assert!(PtrType::ErrorWithHash.is_error());
    assert!(PtrType::ErrorCode.is_error());
    assert!(!PtrType::BufferStart { length_param_id: 1 }.is_error());
    assert!(!PtrType::Hash.is_error());
    let m = PtrInfo::new_mutable(PtrType::Gas);
    assert!(m.mutable);
    assert_eq!(m.ty, PtrType::Gas);
    let i = PtrInfo::new_immutable(PtrType::Value);
    assert!(!i.mutable);
    assert_eq!(i.ty, PtrType::Value);
}

#[test]
fn signatures_of_some_syscalls() {
    let alloc = SysCallName::Alloc.signature();
    assert_eq!(alloc.params, vec![ParamType::Alloc]);
    assert_eq!(alloc.results, vec![ValueType::I32]);
    let debug = SysCallName::Debug.signature();
    assert_eq!(
        debug.params,
        vec![
            ParamType::Ptr(PtrInfo::new_immutable(PtrType::BufferStart { length_param_id: 1 })),
            ParamType::Size,
        ]
    );
    assert!(debug.results.is_empty());
    assert!(SysCallName::Wait.signature().params.is_empty());
    let reserve = SysCallName::ReserveGas.signature();
    assert_eq!(
        reserve.params,
        vec![
            ParamType::Gas,
            ParamType::Duration,
            ParamType::Ptr(PtrInfo::new_mutable(PtrType::ErrorWithHash)),
        ]
    );
    assert_eq!(ValueType::from(ParamType::Gas), ValueType::I64);
    assert_eq!(ValueType::from(ParamType::Size), ValueType::I32);
}

#[test]
fn every_signature_keeps_buffer_and_error_conventions() {
    for name in SysCallName::all() {
        if name == SysCallName::OutOfGas {
            continue;
        }
        let params = name.signature().params;
        for (i, p) in params.iter().enumerate() {
            if let ParamType::Ptr(info) = p {
                if let PtrType::BufferStart { length_param_id } = info.ty {
                    assert!(!info.mutable);
                    assert!(i < length_param_id && length_param_id < params.len());
                    assert_eq!(params[length_param_id], ParamType::Size);
                }
                if info.ty.is_error() {
                    assert!(info.mutable);
                    assert_eq!(i, params.len() - 1);
                }
            }
        }
    }
}
