//! Names and parameter kinds of the syscalls that programs import.

use vstd::prelude::*;

verus! {

/// All available syscalls.
///
/// The type guards against skipping the integration of a newly introduced
/// syscall, and against typos in syscall names.
#[derive(Debug, Clone, Copy, PartialEq, Eq, Structural, Hash, PartialOrd, Ord)]
pub enum SysCallName {
    // Message sending related
    // --
    // Sending `handle` message
    Send,
    SendWGas,
    SendCommit,
    SendCommitWGas,
    SendInit,
    SendPush,
    ReservationSend,
    ReservationSendCommit,
    SendInput,
    SendPushInput,
    SendInputWGas,

    // Sending `handle_reply` message
    Reply,
    ReplyWGas,
    ReplyCommit,
    ReplyCommitWGas,
    ReplyPush,
    ReservationReply,
    ReservationReplyCommit,
    ReplyInput,
    ReplyPushInput,
    ReplyInputWGas,

    // Sending `init` message
    CreateProgram,
    CreateProgramWGas,

    // Message data related
    Read,
    ReplyTo,
    SignalFrom,
    Size,
    ReplyCode,
    SignalCode,
    MessageId,
    ProgramId,
    Source,
    Value,

    // Program execution related
    // --
    // Execution environmental data
    BlockHeight,
    BlockTimestamp,
    GasAvailable,
    ValueAvailable,

    // Changing execution path calls
    Exit,
    Leave,
    Wait,
    WaitFor,
    WaitUpTo,
    Wake,
    Panic,
    OomPanic,

    // Hard under the hood calls, serving proper program execution
    Alloc,
    Free,
    OutOfGas,

    // Miscellaneous
    ReplyDeposit,
    Debug,
    Random,
    ReserveGas,
    UnreserveGas,
    SystemReserveGas,
    PayProgramRent,
}

/// The number of syscall names.
pub const SYSCALL_COUNT: usize = 55;

impl SysCallName {
    /// The name under which a program imports the syscall.
    pub open spec fn spec_to_str(self) -> &'static str {
        match self {
            SysCallName::Alloc => "alloc",
            SysCallName::BlockHeight => "gr_block_height",
            SysCallName::BlockTimestamp => "gr_block_timestamp",
            SysCallName::CreateProgram => "gr_create_program",
            SysCallName::CreateProgramWGas => "gr_create_program_wgas",
            SysCallName::ReplyDeposit => "gr_reply_deposit",
            SysCallName::Debug => "gr_debug",
            SysCallName::Panic => "gr_panic",
            SysCallName::OomPanic => "gr_oom_panic",
            SysCallName::Exit => "gr_exit",
            SysCallName::Free => "free",
            SysCallName::GasAvailable => "gr_gas_available",
            SysCallName::Leave => "gr_leave",
            SysCallName::MessageId => "gr_message_id",
            SysCallName::OutOfGas => "gr_out_of_gas",
            SysCallName::PayProgramRent => "gr_pay_program_rent",
            SysCallName::ProgramId => "gr_program_id",
            SysCallName::Random => "gr_random",
            SysCallName::Read => "gr_read",
            SysCallName::Reply => "gr_reply",
            SysCallName::ReplyCommit => "gr_reply_commit",
            SysCallName::ReplyCommitWGas => "gr_reply_commit_wgas",
            SysCallName::ReplyPush => "gr_reply_push",
            SysCallName::ReplyTo => "gr_reply_to",
            SysCallName::SignalFrom => "gr_signal_from",
            SysCallName::ReplyWGas => "gr_reply_wgas",
            SysCallName::ReplyInput => "gr_reply_input",
            SysCallName::ReplyPushInput => "gr_reply_push_input",
            SysCallName::ReplyInputWGas => "gr_reply_input_wgas",
            SysCallName::ReservationReply => "gr_reservation_reply",
            SysCallName::ReservationReplyCommit => "gr_reservation_reply_commit",
            SysCallName::ReservationSend => "gr_reservation_send",
            SysCallName::ReservationSendCommit => "gr_reservation_send_commit",
            SysCallName::ReserveGas => "gr_reserve_gas",
            SysCallName::Send => "gr_send",
            SysCallName::SendCommit => "gr_send_commit",
            SysCallName::SendCommitWGas => "gr_send_commit_wgas",
            SysCallName::SendInit => "gr_send_init",
            SysCallName::SendPush => "gr_send_push",
            SysCallName::SendWGas => "gr_send_wgas",
            SysCallName::SendInput => "gr_send_input",
            SysCallName::SendPushInput => "gr_send_push_input",
            SysCallName::SendInputWGas => "gr_send_input_wgas",
            SysCallName::Size => "gr_size",
            SysCallName::Source => "gr_source",
            SysCallName::ReplyCode => "gr_reply_code",
            SysCallName::SignalCode => "gr_signal_code",
            SysCallName::SystemReserveGas => "gr_system_reserve_gas",
            SysCallName::UnreserveGas => "gr_unreserve_gas",
            SysCallName::Value => "gr_value",
            SysCallName::ValueAvailable => "gr_value_available",
            SysCallName::Wait => "gr_wait",
            SysCallName::WaitFor => "gr_wait_for",
            SysCallName::WaitUpTo => "gr_wait_up_to",
            SysCallName::Wake => "gr_wake",
        }
    }

    /// The position of the syscall in declaration order.
    pub open spec fn ordinal(self) -> int {
        match self {
            SysCallName::Send => 0,
            SysCallName::SendWGas => 1,
            SysCallName::SendCommit => 2,
            SysCallName::SendCommitWGas => 3,
            SysCallName::SendInit => 4,
            SysCallName::SendPush => 5,
            SysCallName::ReservationSend => 6,
            SysCallName::ReservationSendCommit => 7,
            SysCallName::SendInput => 8,
            SysCallName::SendPushInput => 9,
            SysCallName::SendInputWGas => 10,
            SysCallName::Reply => 11,
            SysCallName::ReplyWGas => 12,
            SysCallName::ReplyCommit => 13,
            SysCallName::ReplyCommitWGas => 14,
            SysCallName::ReplyPush => 15,
            SysCallName::ReservationReply => 16,
            SysCallName::ReservationReplyCommit => 17,
            SysCallName::ReplyInput => 18,
            SysCallName::ReplyPushInput => 19,
            SysCallName::ReplyInputWGas => 20,
            SysCallName::CreateProgram => 21,
            SysCallName::CreateProgramWGas => 22,
            SysCallName::Read => 23,
            SysCallName::ReplyTo => 24,
            SysCallName::SignalFrom => 25,
            SysCallName::Size => 26,
            SysCallName::ReplyCode => 27,
            SysCallName::SignalCode => 28,
            SysCallName::MessageId => 29,
            SysCallName::ProgramId => 30,
            SysCallName::Source => 31,
            SysCallName::Value => 32,
            SysCallName::BlockHeight => 33,
            SysCallName::BlockTimestamp => 34,
            SysCallName::GasAvailable => 35,
            SysCallName::ValueAvailable => 36,
            SysCallName::Exit => 37,
            SysCallName::Leave => 38,
            SysCallName::Wait => 39,
            SysCallName::WaitFor => 40,
            SysCallName::WaitUpTo => 41,
            SysCallName::Wake => 42,
            SysCallName::Panic => 43,
            SysCallName::OomPanic => 44,
            SysCallName::Alloc => 45,
            SysCallName::Free => 46,
            SysCallName::OutOfGas => 47,
            SysCallName::ReplyDeposit => 48,
            SysCallName::Debug => 49,
            SysCallName::Random => 50,
            SysCallName::ReserveGas => 51,
            SysCallName::UnreserveGas => 52,
            SysCallName::SystemReserveGas => 53,
            SysCallName::PayProgramRent => 54,
        }
    }

    /// Whether the instrumentation supports the syscall: all but the
    /// out-of-gas trap and the system gas reservation.
    pub open spec fn spec_instrumentable(self) -> bool {
        !(self == SysCallName::OutOfGas || self == SysCallName::SystemReserveGas)
    }

    /// The variant of the syscall that takes an explicit gas limit, if it
    /// has one.
    pub open spec fn spec_to_wgas(self) -> Option<SysCallName> {
        match self {
            SysCallName::Reply => Some(SysCallName::ReplyWGas),
            SysCallName::ReplyInput => Some(SysCallName::ReplyInputWGas),
            SysCallName::ReplyCommit => Some(SysCallName::ReplyCommitWGas),
            SysCallName::Send => Some(SysCallName::SendWGas),
            SysCallName::SendInput => Some(SysCallName::SendInputWGas),
            SysCallName::SendCommit => Some(SysCallName::SendCommitWGas),
            SysCallName::CreateProgram => Some(SysCallName::CreateProgramWGas),
            _ => None,
        }
    }

    /// The name under which a program imports the syscall.
    pub fn to_str(&self) -> (r: &'static str)
        ensures
            r == self.spec_to_str(),
    {
        match self {
            SysCallName::Alloc => "alloc",
            SysCallName::BlockHeight => "gr_block_height",
            SysCallName::BlockTimestamp => "gr_block_timestamp",
            SysCallName::CreateProgram => "gr_create_program",
            SysCallName::CreateProgramWGas => "gr_create_program_wgas",
            SysCallName::ReplyDeposit => "gr_reply_deposit",
            SysCallName::Debug => "gr_debug",
            SysCallName::Panic => "gr_panic",
            SysCallName::OomPanic => "gr_oom_panic",
            SysCallName::Exit => "gr_exit",
            SysCallName::Free => "free",
            SysCallName::GasAvailable => "gr_gas_available",
            SysCallName::Leave => "gr_leave",
            SysCallName::MessageId => "gr_message_id",
            SysCallName::OutOfGas => "gr_out_of_gas",
            SysCallName::PayProgramRent => "gr_pay_program_rent",
            SysCallName::ProgramId => "gr_program_id",
            SysCallName::Random => "gr_random",
            SysCallName::Read => "gr_read",
            SysCallName::Reply => "gr_reply",
            SysCallName::ReplyCommit => "gr_reply_commit",
            SysCallName::ReplyCommitWGas => "gr_reply_commit_wgas",
            SysCallName::ReplyPush => "gr_reply_push",
            SysCallName::ReplyTo => "gr_reply_to",
            SysCallName::SignalFrom => "gr_signal_from",
            SysCallName::ReplyWGas => "gr_reply_wgas",
            SysCallName::ReplyInput => "gr_reply_input",
            SysCallName::ReplyPushInput => "gr_reply_push_input",
            SysCallName::ReplyInputWGas => "gr_reply_input_wgas",
            SysCallName::ReservationReply => "gr_reservation_reply",
            SysCallName::ReservationReplyCommit => "gr_reservation_reply_commit",
            SysCallName::ReservationSend => "gr_reservation_send",
            SysCallName::ReservationSendCommit => "gr_reservation_send_commit",
            SysCallName::ReserveGas => "gr_reserve_gas",
            SysCallName::Send => "gr_send",
            SysCallName::SendCommit => "gr_send_commit",
            SysCallName::SendCommitWGas => "gr_send_commit_wgas",
            SysCallName::SendInit => "gr_send_init",
            SysCallName::SendPush => "gr_send_push",
            SysCallName::SendWGas => "gr_send_wgas",
            SysCallName::SendInput => "gr_send_input",
            SysCallName::SendPushInput => "gr_send_push_input",
            SysCallName::SendInputWGas => "gr_send_input_wgas",
            SysCallName::Size => "gr_size",
            SysCallName::Source => "gr_source",
            SysCallName::ReplyCode => "gr_reply_code",
            SysCallName::SignalCode => "gr_signal_code",
            SysCallName::SystemReserveGas => "gr_system_reserve_gas",
            SysCallName::UnreserveGas => "gr_unreserve_gas",
            SysCallName::Value => "gr_value",
            SysCallName::ValueAvailable => "gr_value_available",
            SysCallName::Wait => "gr_wait",
            SysCallName::WaitFor => "gr_wait_for",
            SysCallName::WaitUpTo => "gr_wait_up_to",
            SysCallName::Wake => "gr_wake",
        }
    }

    /// Every syscall name once, in declaration order.
    pub fn all() -> (r: Vec<SysCallName>)
        ensures
            r@.len() == SYSCALL_COUNT,
            forall|i: int| 0 <= i < r@.len() ==> (#[trigger] r@[i]).ordinal() == i,
            forall|n: SysCallName| 0 <= n.ordinal() < SYSCALL_COUNT && r@[#[trigger] n.ordinal()] == n,
    {
        let r = vec![
            SysCallName::Send,
            SysCallName::SendWGas,
            SysCallName::SendCommit,
            SysCallName::SendCommitWGas,
            SysCallName::SendInit,
            SysCallName::SendPush,
            SysCallName::ReservationSend,
            SysCallName::ReservationSendCommit,
            SysCallName::SendInput,
            SysCallName::SendPushInput,
            SysCallName::SendInputWGas,
            SysCallName::Reply,
            SysCallName::ReplyWGas,
            SysCallName::ReplyCommit,
            SysCallName::ReplyCommitWGas,
            SysCallName::ReplyPush,
            SysCallName::ReservationReply,
            SysCallName::ReservationReplyCommit,
            SysCallName::ReplyInput,
            SysCallName::ReplyPushInput,
            SysCallName::ReplyInputWGas,
            SysCallName::CreateProgram,
            SysCallName::CreateProgramWGas,
            SysCallName::Read,
            SysCallName::ReplyTo,
            SysCallName::SignalFrom,
            SysCallName::Size,
            SysCallName::ReplyCode,
            SysCallName::SignalCode,
            SysCallName::MessageId,
            SysCallName::ProgramId,
            SysCallName::Source,
            SysCallName::Value,
            SysCallName::BlockHeight,
            SysCallName::BlockTimestamp,
            SysCallName::GasAvailable,
            SysCallName::ValueAvailable,
            SysCallName::Exit,
            SysCallName::Leave,
            SysCallName::Wait,
            SysCallName::WaitFor,
            SysCallName::WaitUpTo,
            SysCallName::Wake,
            SysCallName::Panic,
            SysCallName::OomPanic,
            SysCallName::Alloc,
            SysCallName::Free,
            SysCallName::OutOfGas,
            SysCallName::ReplyDeposit,
            SysCallName::Debug,
            SysCallName::Random,
            SysCallName::ReserveGas,
            SysCallName::UnreserveGas,
            SysCallName::SystemReserveGas,
            SysCallName::PayProgramRent,
        ];
        proof {
            assert(r@[0] == SysCallName::Send);
            assert(r@[1] == SysCallName::SendWGas);
            assert(r@[2] == SysCallName::SendCommit);
            assert(r@[3] == SysCallName::SendCommitWGas);
            assert(r@[4] == SysCallName::SendInit);
            assert(r@[5] == SysCallName::SendPush);
            assert(r@[6] == SysCallName::ReservationSend);
            assert(r@[7] == SysCallName::ReservationSendCommit);
            assert(r@[8] == SysCallName::SendInput);
            assert(r@[9] == SysCallName::SendPushInput);
            assert(r@[10] == SysCallName::SendInputWGas);
            assert(r@[11] == SysCallName::Reply);
            assert(r@[12] == SysCallName::ReplyWGas);
            assert(r@[13] == SysCallName::ReplyCommit);
            assert(r@[14] == SysCallName::ReplyCommitWGas);
            assert(r@[15] == SysCallName::ReplyPush);
            assert(r@[16] == SysCallName::ReservationReply);
            assert(r@[17] == SysCallName::ReservationReplyCommit);
            assert(r@[18] == SysCallName::ReplyInput);
            assert(r@[19] == SysCallName::ReplyPushInput);
            assert(r@[20] == SysCallName::ReplyInputWGas);
            assert(r@[21] == SysCallName::CreateProgram);
            assert(r@[22] == SysCallName::CreateProgramWGas);
            assert(r@[23] == SysCallName::Read);
            assert(r@[24] == SysCallName::ReplyTo);
            assert(r@[25] == SysCallName::SignalFrom);
            assert(r@[26] == SysCallName::Size);
            assert(r@[27] == SysCallName::ReplyCode);
            assert(r@[28] == SysCallName::SignalCode);
            assert(r@[29] == SysCallName::MessageId);
            assert(r@[30] == SysCallName::ProgramId);
            assert(r@[31] == SysCallName::Source);
            assert(r@[32] == SysCallName::Value);
            assert(r@[33] == SysCallName::BlockHeight);
            assert(r@[34] == SysCallName::BlockTimestamp);
            assert(r@[35] == SysCallName::GasAvailable);
            assert(r@[36] == SysCallName::ValueAvailable);
            assert(r@[37] == SysCallName::Exit);
            assert(r@[38] == SysCallName::Leave);
            assert(r@[39] == SysCallName::Wait);
            assert(r@[40] == SysCallName::WaitFor);
            assert(r@[41] == SysCallName::WaitUpTo);
            assert(r@[42] == SysCallName::Wake);
            assert(r@[43] == SysCallName::Panic);
            assert(r@[44] == SysCallName::OomPanic);
            assert(r@[45] == SysCallName::Alloc);
            assert(r@[46] == SysCallName::Free);
            assert(r@[47] == SysCallName::OutOfGas);
            assert(r@[48] == SysCallName::ReplyDeposit);
            assert(r@[49] == SysCallName::Debug);
            assert(r@[50] == SysCallName::Random);
            assert(r@[51] == SysCallName::ReserveGas);
            assert(r@[52] == SysCallName::UnreserveGas);
            assert(r@[53] == SysCallName::SystemReserveGas);
            assert(r@[54] == SysCallName::PayProgramRent);
            assert forall|i: int| 0 <= i < r@.len() implies (#[trigger] r@[i]).ordinal() == i by {
                if i == 0 {
                } else if i == 1 {
                } else if i == 2 {
                } else if i == 3 {
                } else if i == 4 {
                } else if i == 5 {
                } else if i == 6 {
                } else if i == 7 {
                } else if i == 8 {
                } else if i == 9 {
                } else if i == 10 {
                } else if i == 11 {
                } else if i == 12 {
                } else if i == 13 {
                } else if i == 14 {
                } else if i == 15 {
                } else if i == 16 {
                } else if i == 17 {
                } else if i == 18 {
                } else if i == 19 {
                } else if i == 20 {
                } else if i == 21 {
                } else if i == 22 {
                } else if i == 23 {
                } else if i == 24 {
                } else if i == 25 {
                } else if i == 26 {
                } else if i == 27 {
                } else if i == 28 {
                } else if i == 29 {
                } else if i == 30 {
                } else if i == 31 {
                } else if i == 32 {
                } else if i == 33 {
                } else if i == 34 {
                } else if i == 35 {
                } else if i == 36 {
                } else if i == 37 {
                } else if i == 38 {
                } else if i == 39 {
                } else if i == 40 {
                } else if i == 41 {
                } else if i == 42 {
                } else if i == 43 {
                } else if i == 44 {
                } else if i == 45 {
                } else if i == 46 {
                } else if i == 47 {
                } else if i == 48 {
                } else if i == 49 {
                } else if i == 50 {
                } else if i == 51 {
                } else if i == 52 {
                } else if i == 53 {
                } else if i == 54 {
                }
            }
        }
        r
    }

    /// The number of syscall names.
    pub fn count() -> (r: usize)
        ensures
            r == SYSCALL_COUNT,
    {
        Self::all().len()
    }

    /// The syscalls that the instrumentation supports, each once, in
    /// declaration order.
    pub fn instrumentable() -> (r: Vec<SysCallName>)
        ensures
            forall|n: SysCallName| #[trigger] r@.contains(n) == n.spec_instrumentable(),
            forall|j: int, k: int|
                0 <= j < k < r@.len() ==> (#[trigger] r@[j]).ordinal() < (#[trigger] r@[k]).ordinal(),
    {
        let all = Self::all();
        let mut r: Vec<SysCallName> = Vec::new();
        let mut i: usize = 0;
        while i < all.len()
            invariant
                i <= all@.len(),
                all@.len() == SYSCALL_COUNT,
                forall|j: int| 0 <= j < all@.len() ==> (#[trigger] all@[j]).ordinal() == j,
                forall|n: SysCallName| 0 <= n.ordinal() < SYSCALL_COUNT && all@[#[trigger] n.ordinal()] == n,
                forall|j: int| 0 <= j < r@.len() ==> (#[trigger] r@[j]).ordinal() < i && r@[j].spec_instrumentable(),
                forall|n: SysCallName| n.ordinal() < i && n.spec_instrumentable() ==> #[trigger] r@.contains(n),
                forall|j: int, k: int|
                    0 <= j < k < r@.len() ==> (#[trigger] r@[j]).ordinal() < (#[trigger] r@[k]).ordinal(),
            decreases all@.len() - i,
        {
            let n = all[i];
            if n.is_instrumentable() {
                let ghost before = r@;
                r.push(n);
                proof {
                    assert(r@[r@.len() - 1] == n);
                    assert forall|m: SysCallName| m.ordinal() < i + 1 && m.spec_instrumentable() implies #[trigger] r@.contains(m) by {
                        if m.ordinal() < i {
                            assert(before.contains(m));
                            let j = before.index_of(m);
                            assert(r@[j] == m);
                        } else {
                            assert(all@[m.ordinal()] == m);
                        }
                    }
                }
            } else {
                proof {
                    assert forall|m: SysCallName| m.ordinal() < i + 1 && m.spec_instrumentable() implies #[trigger] r@.contains(m) by {
                        if m.ordinal() == i {
                            assert(all@[m.ordinal()] == m);
                        }
                    }
                }
            }
            i = i + 1;
        }
        proof {
            assert forall|n: SysCallName| #[trigger] r@.contains(n) == n.spec_instrumentable() by {
                if r@.contains(n) {
                    let j = r@.index_of(n);
                    assert(r@[j].spec_instrumentable());
                }
            }
        }
        r
    }

    /// Whether the instrumentation supports this syscall.
    pub fn is_instrumentable(&self) -> (r: bool)
        ensures
            r == self.spec_instrumentable(),
    {
        match self {
            SysCallName::OutOfGas | SysCallName::SystemReserveGas => false,
            _ => true,
        }
    }

    /// The variant of the syscall that takes an explicit gas limit, if any.
    pub fn to_wgas(self) -> (r: Option<SysCallName>)
        ensures
            r == self.spec_to_wgas(),
    {
        match self {
            SysCallName::Reply => Some(SysCallName::ReplyWGas),
            SysCallName::ReplyInput => Some(SysCallName::ReplyInputWGas),
            SysCallName::ReplyCommit => Some(SysCallName::ReplyCommitWGas),
            SysCallName::Send => Some(SysCallName::SendWGas),
            SysCallName::SendInput => Some(SysCallName::SendInputWGas),
            SysCallName::SendCommit => Some(SysCallName::SendCommitWGas),
            SysCallName::CreateProgram => Some(SysCallName::CreateProgramWGas),
            _ => None,
        }
    }
}

/// Syscall param type.
///
/// `Ptr` is usually used to point to the beginning of the array in memory.
/// In order to distinguish between pointer to the memory array and pointer
/// to some value, `Ptr` was defined as a tuple-like struct that owns an
/// optional index of the memory array size parameter. So if current sys-call
/// doesn't accept any memory array as an argument, then pointer parameter will
/// be `Ptr(None)`.
#[derive(Debug, Clone, Copy, PartialEq, Eq, Structural, Hash, PartialOrd, Ord)]
pub enum ParamType {
    Size,            // i32 buffers size in memory
    Ptr(PtrInfo),    // i32 pointer
    Gas,             // i64 gas amount
    MessagePosition, // i32 message position
    Duration,        // i32 duration in blocks
    Delay,           // i32 delay in blocks
    Handler,         // i32 handler number
    Alloc,           // i32 alloc pages
    Free,            // i32 free page
}

#[derive(Debug, Clone, Copy, PartialEq, Eq, Structural, Hash, PartialOrd, Ord)]
pub struct PtrInfo {
    pub mutable: bool,
    pub ty: PtrType,
}


impl PtrInfo {
    pub fn new_immutable(ty: PtrType) -> (r: PtrInfo)
        ensures
            r == (PtrInfo { mutable: false, ty }),
    {
        PtrInfo { mutable: false, ty }
    }

    pub fn new_mutable(ty: PtrType) -> (r: PtrInfo)
        ensures
            r == (PtrInfo { mutable: true, ty }),
    {
        PtrInfo { mutable: true, ty }
    }
}

/// What a pointer parameter points to.
#[derive(Debug, Clone, Copy, PartialEq, Eq, Structural, Hash, PartialOrd, Ord)]
pub enum PtrType {
    BlockNumber,
    BlockTimestamp,
    BufferStart { length_param_id: usize },
    Hash,
    Gas,
    Length,
    Value,

    BlockNumberWithHash,
    HashWithValue,
    TwoHashes,
    TwoHashesWithValue,

    ErrorCode,

    ErrorWithReplyCode,
    ErrorWithSignalCode,
    ErrorWithGas,
    ErrorWithHandle,
    ErrorWithHash,
    ErrorWithTwoHashes,
    ErrorWithBlockNumberAndValue,
}


impl PtrType {
    /// Whether the pointer receives an error code, possibly with a payload.
    pub open spec fn spec_is_error(self) -> bool {
        match self {
            PtrType::ErrorCode
            | PtrType::ErrorWithReplyCode
            | PtrType::ErrorWithSignalCode
            | PtrType::ErrorWithGas
            | PtrType::ErrorWithHandle
            | PtrType::ErrorWithHash
            | PtrType::ErrorWithTwoHashes
            | PtrType::ErrorWithBlockNumberAndValue => true,
            _ => false,
        }
    }

    pub fn is_error(self) -> (r: bool)
        ensures
            r == self.spec_is_error(),
    {
        match self {
            PtrType::ErrorCode
            | PtrType::ErrorWithReplyCode
            | PtrType::ErrorWithSignalCode
            | PtrType::ErrorWithGas
            | PtrType::ErrorWithHandle
            | PtrType::ErrorWithHash
            | PtrType::ErrorWithTwoHashes
            | PtrType::ErrorWithBlockNumberAndValue => true,
            PtrType::BlockNumber
            | PtrType::BlockTimestamp
            | PtrType::BufferStart { .. }
            | PtrType::Hash
            | PtrType::Gas
            | PtrType::Length
            | PtrType::Value
            | PtrType::BlockNumberWithHash
            | PtrType::HashWithValue
            | PtrType::TwoHashes
            | PtrType::TwoHashesWithValue => false,
        }
    }
}

/// A WebAssembly value type of a syscall parameter or result.
#[derive(Debug, Clone, Copy, PartialEq, Eq, Structural, Hash)]
pub enum ValueType {
    I32,
    I64,
}

impl From<ParamType> for ValueType {
    fn from(value: ParamType) -> (r: ValueType) {
        match value {
            ParamType::Gas => ValueType::I64,
            _ => ValueType::I32,
        }
    }
}

impl vstd::std_specs::convert::FromSpecImpl<ParamType> for ValueType {
    open spec fn obeys_from_spec() -> bool {
        true
    }

    /// Gas amounts are 64-bit; every other parameter is 32-bit.
    open spec fn from_spec(value: ParamType) -> ValueType {
        match value {
            ParamType::Gas => ValueType::I64,
            _ => ValueType::I32,
        }
    }
}

/// Syscall signature.
#[derive(Debug, Clone, PartialEq, Eq, Hash)]
pub struct SysCallSignature {
    pub params: Vec<ParamType>,
    pub results: Vec<ValueType>,
}

fn array_to_vec<T: Copy, const N: usize>(a: [T; N]) -> (r: Vec<T>)
    ensures
        r@ == a@,
{
    let mut r: Vec<T> = Vec::new();
    let mut i: usize = 0;
    while i < N
        invariant
            i <= N,
            a@.len() == N,
            r@ == a@.subrange(0, i as int),
        decreases N - i,
    {
        r.push(a[i]);
        proof {
            assert(a@.subrange(0, i + 1) =~= a@.subrange(0, i as int).push(a@[i as int]));
        }
        i = i + 1;
    }
    proof {
        assert(a@.subrange(0, N as int) =~= a@);
    }
    r
}

impl SysCallSignature {
    /// The signature of a `gr_*` syscall: the given parameters, no results.
    pub fn gr<const N: usize>(params: [ParamType; N]) -> (r: Self)
        ensures
            r.params@ == params@,
            r.results@ == Seq::<ValueType>::empty(),
    {
        SysCallSignature { params: array_to_vec(params), results: Vec::new() }
    }

    /// The signature of a system syscall, with its results.
    pub fn system<const N: usize, const M: usize>(
        params: [ParamType; N],
        results: [ValueType; M],
    ) -> (r: Self)
        ensures
            r.params@ == params@,
            r.results@ == results@,
    {
        SysCallSignature { params: array_to_vec(params), results: array_to_vec(results) }
    }
}

/// Every buffer pointer is immutable and names, as its length parameter, a
/// `Size` parameter that comes after it.
pub open spec fn buffer_lengths_follow(params: Seq<ParamType>) -> bool {
    forall|i: int|
        0 <= i < params.len() ==> match #[trigger] params[i] {
            ParamType::Ptr(PtrInfo { mutable, ty: PtrType::BufferStart { length_param_id } }) => {
                &&& !mutable
                &&& i < length_param_id < params.len()
                &&& params[length_param_id as int] == ParamType::Size
            },
            _ => true,
        }
}

/// An error pointer is mutable and is the last parameter.
pub open spec fn error_pointer_last(params: Seq<ParamType>) -> bool {
    forall|i: int|
        0 <= i < params.len() ==> match #[trigger] params[i] {
            ParamType::Ptr(info) => info.ty.spec_is_error() ==> info.mutable && i == params.len()
                - 1,
            _ => true,
        }
}

impl SysCallName {
    /// The parameters of the syscall; the out-of-gas trap has no signature.
    pub open spec fn spec_params(self) -> Seq<ParamType> {
        match self {
            SysCallName::Alloc => seq![ParamType::Alloc],
            SysCallName::Free => seq![ParamType::Free],
            SysCallName::Debug => seq![
                ParamType::Ptr(PtrInfo { mutable: false, ty: PtrType::BufferStart { length_param_id: 1 } }),
                ParamType::Size,
            ],
            SysCallName::Panic => seq![
                ParamType::Ptr(PtrInfo { mutable: false, ty: PtrType::BufferStart { length_param_id: 1 } }),
                ParamType::Size,
            ],
            SysCallName::OomPanic => Seq::empty(),
            SysCallName::BlockHeight => seq![ParamType::Ptr(PtrInfo { mutable: true, ty: PtrType::BlockNumber })],
            SysCallName::BlockTimestamp => seq![ParamType::Ptr(PtrInfo { mutable: true, ty: PtrType::BlockTimestamp })],
            SysCallName::Exit => seq![ParamType::Ptr(PtrInfo { mutable: false, ty: PtrType::Hash })],
            SysCallName::GasAvailable => seq![ParamType::Ptr(PtrInfo { mutable: true, ty: PtrType::Gas })],
            SysCallName::PayProgramRent => seq![
                ParamType::Ptr(PtrInfo { mutable: false, ty: PtrType::HashWithValue }),
                ParamType::Ptr(PtrInfo { mutable: true, ty: PtrType::ErrorWithBlockNumberAndValue }),
            ],
            SysCallName::ProgramId => seq![ParamType::Ptr(PtrInfo { mutable: true, ty: PtrType::Hash })],
            SysCallName::Leave => Seq::empty(),
            SysCallName::ValueAvailable => seq![ParamType::Ptr(PtrInfo { mutable: true, ty: PtrType::Value })],
            SysCallName::Wait => Seq::empty(),
            SysCallName::WaitUpTo => seq![ParamType::Duration],
            SysCallName::WaitFor => seq![ParamType::Duration],
            SysCallName::Wake => seq![
                ParamType::Ptr(PtrInfo { mutable: false, ty: PtrType::Hash }),
                ParamType::Delay,
                ParamType::Ptr(PtrInfo { mutable: true, ty: PtrType::ErrorCode }),
            ],
            SysCallName::ReplyCode => seq![ParamType::Ptr(PtrInfo { mutable: true, ty: PtrType::ErrorWithReplyCode })],
            SysCallName::SignalCode => seq![ParamType::Ptr(PtrInfo { mutable: true, ty: PtrType::ErrorWithSignalCode })],
            SysCallName::MessageId => seq![ParamType::Ptr(PtrInfo { mutable: true, ty: PtrType::Hash })],
            SysCallName::Read => seq![
                ParamType::MessagePosition,
                ParamType::Size,
                ParamType::Ptr(PtrInfo { mutable: true, ty: PtrType::BlockNumber }),
                ParamType::Ptr(PtrInfo { mutable: true, ty: PtrType::ErrorCode }),
            ],
            SysCallName::Reply => seq![
                ParamType::Ptr(PtrInfo { mutable: false, ty: PtrType::BufferStart { length_param_id: 1 } }),
                ParamType::Size,
                ParamType::Ptr(PtrInfo { mutable: false, ty: PtrType::Value }),
                ParamType::Ptr(PtrInfo { mutable: true, ty: PtrType::ErrorWithHash }),
            ],
            SysCallName::ReplyInput => seq![
                ParamType::Size,
                ParamType::Size,
                ParamType::Ptr(PtrInfo { mutable: false, ty: PtrType::Value }),
                ParamType::Ptr(PtrInfo { mutable: true, ty: PtrType::ErrorWithHash }),
            ],
            SysCallName::ReplyWGas => seq![
                ParamType::Ptr(PtrInfo { mutable: false, ty: PtrType::BufferStart { length_param_id: 1 } }),
                ParamType::Size,
                ParamType::Gas,
                ParamType::Ptr(PtrInfo { mutable: false, ty: PtrType::Value }),
                ParamType::Ptr(PtrInfo { mutable: true, ty: PtrType::ErrorWithHash }),
            ],
            SysCallName::ReplyInputWGas => seq![
                ParamType::Size,
                ParamType::Size,
                ParamType::Gas,
                ParamType::Ptr(PtrInfo { mutable: false, ty: PtrType::Value }),
                ParamType::Ptr(PtrInfo { mutable: true, ty: PtrType::ErrorWithHash }),
            ],
            SysCallName::ReplyCommit => seq![
                ParamType::Ptr(PtrInfo { mutable: false, ty: PtrType::Value }),
                ParamType::Ptr(PtrInfo { mutable: true, ty: PtrType::ErrorWithHash }),
            ],
            SysCallName::ReplyCommitWGas => seq![
                ParamType::Gas,
                ParamType::Ptr(PtrInfo { mutable: false, ty: PtrType::Value }),
                ParamType::Ptr(PtrInfo { mutable: true, ty: PtrType::ErrorWithHash }),
            ],
            SysCallName::ReservationReply => seq![
                ParamType::Ptr(PtrInfo { mutable: false, ty: PtrType::HashWithValue }),
                ParamType::Ptr(PtrInfo { mutable: false, ty: PtrType::BufferStart { length_param_id: 2 } }),
                ParamType::Size,
                ParamType::Ptr(PtrInfo { mutable: true, ty: PtrType::ErrorWithHash }),
            ],
            SysCallName::ReservationReplyCommit => seq![
                ParamType::Ptr(PtrInfo { mutable: false, ty: PtrType::HashWithValue }),
                ParamType::Ptr(PtrInfo { mutable: true, ty: PtrType::ErrorWithHash }),
            ],
            SysCallName::ReplyPush => seq![
                ParamType::Ptr(PtrInfo { mutable: false, ty: PtrType::BufferStart { length_param_id: 1 } }),
                ParamType::Size,
                ParamType::Ptr(PtrInfo { mutable: true, ty: PtrType::ErrorCode }),
            ],
            SysCallName::ReplyPushInput => seq![
                ParamType::Size,
                ParamType::Size,
                ParamType::Ptr(PtrInfo { mutable: true, ty: PtrType::ErrorCode }),
            ],
            SysCallName::ReplyTo => seq![ParamType::Ptr(PtrInfo { mutable: true, ty: PtrType::ErrorWithHash })],
            SysCallName::SignalFrom => seq![ParamType::Ptr(PtrInfo { mutable: true, ty: PtrType::ErrorWithHash })],
            SysCallName::Send => seq![
                ParamType::Ptr(PtrInfo { mutable: false, ty: PtrType::HashWithValue }),
                ParamType::Ptr(PtrInfo { mutable: false, ty: PtrType::BufferStart { length_param_id: 2 } }),
                ParamType::Size,
                ParamType::Delay,
                ParamType::Ptr(PtrInfo { mutable: true, ty: PtrType::ErrorWithHash }),
            ],
            SysCallName::SendInput => seq![
                ParamType::Ptr(PtrInfo { mutable: false, ty: PtrType::HashWithValue }),
                ParamType::Size,
                ParamType::Size,
                ParamType::Delay,
                ParamType::Ptr(PtrInfo { mutable: true, ty: PtrType::ErrorWithHash }),
            ],
            SysCallName::SendWGas => seq![
                ParamType::Ptr(PtrInfo { mutable: false, ty: PtrType::HashWithValue }),
                ParamType::Ptr(PtrInfo { mutable: false, ty: PtrType::BufferStart { length_param_id: 2 } }),
                ParamType::Size,
                ParamType::Gas,
                ParamType::Delay,
                ParamType::Ptr(PtrInfo { mutable: true, ty: PtrType::ErrorWithHash }),
            ],
            SysCallName::SendInputWGas => seq![
                ParamType::Ptr(PtrInfo { mutable: false, ty: PtrType::HashWithValue }),
                ParamType::Size,
                ParamType::Size,
                ParamType::Gas,
                ParamType::Delay,
                ParamType::Ptr(PtrInfo { mutable: true, ty: PtrType::ErrorWithHash }),
            ],
            SysCallName::SendCommit => seq![
                ParamType::Handler,
                ParamType::Ptr(PtrInfo { mutable: false, ty: PtrType::HashWithValue }),
                ParamType::Delay,
                ParamType::Ptr(PtrInfo { mutable: true, ty: PtrType::ErrorWithHash }),
            ],
            SysCallName::SendCommitWGas => seq![
                ParamType::Handler,
                ParamType::Ptr(PtrInfo { mutable: false, ty: PtrType::HashWithValue }),
                ParamType::Gas,
                ParamType::Delay,
                ParamType::Ptr(PtrInfo { mutable: true, ty: PtrType::ErrorWithHash }),
            ],
            SysCallName::SendInit => seq![ParamType::Ptr(PtrInfo { mutable: true, ty: PtrType::ErrorWithHandle })],
            SysCallName::SendPush => seq![
                ParamType::Handler,
                ParamType::Ptr(PtrInfo { mutable: false, ty: PtrType::BufferStart { length_param_id: 2 } }),
                ParamType::Size,
                ParamType::Ptr(PtrInfo { mutable: true, ty: PtrType::ErrorCode }),
            ],
            SysCallName::SendPushInput => seq![
                ParamType::Handler,
                ParamType::Size,
                ParamType::Size,
                ParamType::Ptr(PtrInfo { mutable: true, ty: PtrType::ErrorCode }),
            ],
            SysCallName::ReservationSend => seq![
                ParamType::Ptr(PtrInfo { mutable: false, ty: PtrType::TwoHashesWithValue }),
                ParamType::Ptr(PtrInfo { mutable: false, ty: PtrType::BufferStart { length_param_id: 2 } }),
                ParamType::Size,
                ParamType::Delay,
                ParamType::Ptr(PtrInfo { mutable: true, ty: PtrType::ErrorWithHash }),
            ],
            SysCallName::ReservationSendCommit => seq![
                ParamType::Handler,
                ParamType::Ptr(PtrInfo { mutable: false, ty: PtrType::TwoHashesWithValue }),
                ParamType::Delay,
                ParamType::Ptr(PtrInfo { mutable: true, ty: PtrType::ErrorWithHash }),
            ],
            SysCallName::Size => seq![ParamType::Ptr(PtrInfo { mutable: true, ty: PtrType::Length })],
            SysCallName::Source => seq![ParamType::Ptr(PtrInfo { mutable: true, ty: PtrType::Hash })],
            SysCallName::Value => seq![ParamType::Ptr(PtrInfo { mutable: true, ty: PtrType::Value })],
            SysCallName::CreateProgram => seq![
                ParamType::Ptr(PtrInfo { mutable: false, ty: PtrType::HashWithValue }),
                ParamType::Ptr(PtrInfo { mutable: false, ty: PtrType::BufferStart { length_param_id: 2 } }),
                ParamType::Size,
                ParamType::Ptr(PtrInfo { mutable: false, ty: PtrType::BufferStart { length_param_id: 4 } }),
                ParamType::Size,
                ParamType::Delay,
                ParamType::Ptr(PtrInfo { mutable: true, ty: PtrType::ErrorWithTwoHashes }),
            ],
            SysCallName::CreateProgramWGas => seq![
                ParamType::Ptr(PtrInfo { mutable: false, ty: PtrType::HashWithValue }),
                ParamType::Ptr(PtrInfo { mutable: false, ty: PtrType::BufferStart { length_param_id: 2 } }),
                ParamType::Size,
                ParamType::Ptr(PtrInfo { mutable: false, ty: PtrType::BufferStart { length_param_id: 4 } }),
                ParamType::Size,
                ParamType::Gas,
                ParamType::Delay,
                ParamType::Ptr(PtrInfo { mutable: true, ty: PtrType::ErrorWithTwoHashes }),
            ],
            SysCallName::ReplyDeposit => seq![
                ParamType::Ptr(PtrInfo { mutable: false, ty: PtrType::Hash }),
                ParamType::Gas,
                ParamType::Ptr(PtrInfo { mutable: true, ty: PtrType::ErrorCode }),
            ],
            SysCallName::ReserveGas => seq![
                ParamType::Gas,
                ParamType::Duration,
                ParamType::Ptr(PtrInfo { mutable: true, ty: PtrType::ErrorWithHash }),
            ],
            SysCallName::UnreserveGas => seq![
                ParamType::Ptr(PtrInfo { mutable: false, ty: PtrType::Hash }),
                ParamType::Ptr(PtrInfo { mutable: true, ty: PtrType::ErrorWithGas }),
            ],
            SysCallName::SystemReserveGas => seq![
                ParamType::Gas,
                ParamType::Ptr(PtrInfo { mutable: true, ty: PtrType::ErrorCode }),
            ],
            SysCallName::Random => seq![
                ParamType::Ptr(PtrInfo { mutable: false, ty:  PtrType::Hash,  }),
                ParamType::Ptr(PtrInfo { mutable: true, ty: PtrType::BlockNumberWithHash }),
            ],
            SysCallName::OutOfGas => Seq::empty(),
        }
    }

    /// The results of the syscall: one 32-bit value for the memory calls,
    /// none for the others.
    pub open spec fn spec_results(self) -> Seq<ValueType> {
        match self {
            SysCallName::Alloc | SysCallName::Free => seq![ValueType::I32],
            _ => Seq::empty(),
        }
    }

    /// Returns the signature of the syscall.
    pub fn signature(self) -> (r: SysCallSignature)
        requires
            self != SysCallName::OutOfGas,
        ensures
            r.params@ == self.spec_params(),
            r.results@ == self.spec_results(),
    {
        match self {
            SysCallName::Alloc => {
                let r = SysCallSignature::system([ParamType::Alloc], [ValueType::I32]);
                proof {
                    assert(r.params@ =~= self.spec_params());
                }
                r
            },
            SysCallName::Free => {
                let r = SysCallSignature::system([ParamType::Free], [ValueType::I32]);
                proof {
                    assert(r.params@ =~= self.spec_params());
                }
                r
            },
            SysCallName::Debug => {
                let r = SysCallSignature::gr([
                        ParamType::Ptr(PtrInfo::new_immutable(PtrType::BufferStart { length_param_id: 1 })),
                        ParamType::Size,
                    ]);
                proof {
                    assert(r.params@ =~= self.spec_params());
                }
                r
            },
            SysCallName::Panic => {
                let r = SysCallSignature::gr([
                        ParamType::Ptr(PtrInfo::new_immutable(PtrType::BufferStart { length_param_id: 1 })),
                        ParamType::Size,
                    ]);
                proof {
                    assert(r.params@ =~= self.spec_params());
                }
                r
            },
            SysCallName::OomPanic => {
                let r = SysCallSignature::gr([]);
                proof {
                    assert(r.params@ =~= self.spec_params());
                }
                r
            },
            SysCallName::BlockHeight => {
                let r = SysCallSignature::gr([ParamType::Ptr(PtrInfo::new_mutable(PtrType::BlockNumber))]);
                proof {
                    assert(r.params@ =~= self.spec_params());
                }
                r
            },
            SysCallName::BlockTimestamp => {
                let r = SysCallSignature::gr([ParamType::Ptr(PtrInfo::new_mutable(PtrType::BlockTimestamp))]);
                proof {
                    assert(r.params@ =~= self.spec_params());
                }
                r
            },
            SysCallName::Exit => {
                let r = SysCallSignature::gr([ParamType::Ptr(PtrInfo::new_immutable(PtrType::Hash))]);
                proof {
                    assert(r.params@ =~= self.spec_params());
                }
                r
            },
            SysCallName::GasAvailable => {
                let r = SysCallSignature::gr([ParamType::Ptr(PtrInfo::new_mutable(PtrType::Gas))]);
                proof {
                    assert(r.params@ =~= self.spec_params());
                }
                r
            },
            SysCallName::PayProgramRent => {
                let r = SysCallSignature::gr([
                        ParamType::Ptr(PtrInfo::new_immutable(PtrType::HashWithValue)),
                        ParamType::Ptr(PtrInfo::new_mutable(PtrType::ErrorWithBlockNumberAndValue)),
                    ]);
                proof {
                    assert(r.params@ =~= self.spec_params());
                }
                r
            },
            SysCallName::ProgramId => {
                let r = SysCallSignature::gr([ParamType::Ptr(PtrInfo::new_mutable(PtrType::Hash))]);
                proof {
                    assert(r.params@ =~= self.spec_params());
                }
                r
            },
            SysCallName::Leave => {
                let r = SysCallSignature::gr([]);
                proof {
                    assert(r.params@ =~= self.spec_params());
                }
                r
            },
            SysCallName::ValueAvailable => {
                let r = SysCallSignature::gr([ParamType::Ptr(PtrInfo::new_mutable(PtrType::Value))]);
                proof {
                    assert(r.params@ =~= self.spec_params());
                }
                r
            },
            SysCallName::Wait => {
                let r = SysCallSignature::gr([]);
                proof {
                    assert(r.params@ =~= self.spec_params());
                }
                r
            },
            SysCallName::WaitUpTo => {
                let r = SysCallSignature::gr([ParamType::Duration]);
                proof {
                    assert(r.params@ =~= self.spec_params());
                }
                r
            },
            SysCallName::WaitFor => {
                let r = SysCallSignature::gr([ParamType::Duration]);
                proof {
                    assert(r.params@ =~= self.spec_params());
                }
                r
            },
            SysCallName::Wake => {
                let r = SysCallSignature::gr([
                        ParamType::Ptr(PtrInfo::new_immutable(PtrType::Hash)),
                        ParamType::Delay,
                        ParamType::Ptr(PtrInfo::new_mutable(PtrType::ErrorCode)),
                    ]);
                proof {
                    assert(r.params@ =~= self.spec_params());
                }
                r
            },
            SysCallName::ReplyCode => {
                let r = SysCallSignature::gr([ParamType::Ptr(PtrInfo::new_mutable(PtrType::ErrorWithReplyCode))]);
                proof {
                    assert(r.params@ =~= self.spec_params());
                }
                r
            },
            SysCallName::SignalCode => {
                let r = SysCallSignature::gr([ParamType::Ptr(PtrInfo::new_mutable(PtrType::ErrorWithSignalCode))]);
                proof {
                    assert(r.params@ =~= self.spec_params());
                }
                r
            },
            SysCallName::MessageId => {
                let r = SysCallSignature::gr([ParamType::Ptr(PtrInfo::new_mutable(PtrType::Hash))]);
                proof {
                    assert(r.params@ =~= self.spec_params());
                }
                r
            },
            SysCallName::Read => {
                let r = SysCallSignature::gr([
                        ParamType::MessagePosition,
                        ParamType::Size,
                        ParamType::Ptr(PtrInfo::new_mutable(PtrType::BlockNumber)),
                        ParamType::Ptr(PtrInfo::new_mutable(PtrType::ErrorCode)),
                    ]);
                proof {
                    assert(r.params@ =~= self.spec_params());
                }
                r
            },
            SysCallName::Reply => {
                let r = SysCallSignature::gr([
                        ParamType::Ptr(PtrInfo::new_immutable(PtrType::BufferStart { length_param_id: 1 })),
                        ParamType::Size,
                        ParamType::Ptr(PtrInfo::new_immutable(PtrType::Value)),
                        ParamType::Ptr(PtrInfo::new_mutable(PtrType::ErrorWithHash)),
                    ]);
                proof {
                    assert(r.params@ =~= self.spec_params());
                }
                r
            },
            SysCallName::ReplyInput => {
                let r = SysCallSignature::gr([
                        ParamType::Size,
                        ParamType::Size,
                        ParamType::Ptr(PtrInfo::new_immutable(PtrType::Value)),
                        ParamType::Ptr(PtrInfo::new_mutable(PtrType::ErrorWithHash)),
                    ]);
                proof {
                    assert(r.params@ =~= self.spec_params());
                }
                r
            },
            SysCallName::ReplyWGas => {
                let r = SysCallSignature::gr([
                        ParamType::Ptr(PtrInfo::new_immutable(PtrType::BufferStart { length_param_id: 1 })),
                        ParamType::Size,
                        ParamType::Gas,
                        ParamType::Ptr(PtrInfo::new_immutable(PtrType::Value)),
                        ParamType::Ptr(PtrInfo::new_mutable(PtrType::ErrorWithHash)),
                    ]);
                proof {
                    assert(r.params@ =~= self.spec_params());
                }
                r
            },
            SysCallName::ReplyInputWGas => {
                let r = SysCallSignature::gr([
                        ParamType::Size,
                        ParamType::Size,
                        ParamType::Gas,
                        ParamType::Ptr(PtrInfo::new_immutable(PtrType::Value)),
                        ParamType::Ptr(PtrInfo::new_mutable(PtrType::ErrorWithHash)),
                    ]);
                proof {
                    assert(r.params@ =~= self.spec_params());
                }
                r
            },
            SysCallName::ReplyCommit => {
                let r = SysCallSignature::gr([
                        ParamType::Ptr(PtrInfo::new_immutable(PtrType::Value)),
                        ParamType::Ptr(PtrInfo::new_mutable(PtrType::ErrorWithHash)),
                    ]);
                proof {
                    assert(r.params@ =~= self.spec_params());
                }
                r
            },
            SysCallName::ReplyCommitWGas => {
                let r = SysCallSignature::gr([
                        ParamType::Gas,
                        ParamType::Ptr(PtrInfo::new_immutable(PtrType::Value)),
                        ParamType::Ptr(PtrInfo::new_mutable(PtrType::ErrorWithHash)),
                    ]);
                proof {
                    assert(r.params@ =~= self.spec_params());
                }
                r
            },
            SysCallName::ReservationReply => {
                let r = SysCallSignature::gr([
                        ParamType::Ptr(PtrInfo::new_immutable(PtrType::HashWithValue)),
                        ParamType::Ptr(PtrInfo::new_immutable(PtrType::BufferStart { length_param_id: 2 })),
                        ParamType::Size,
                        ParamType::Ptr(PtrInfo::new_mutable(PtrType::ErrorWithHash)),
                    ]);
                proof {
                    assert(r.params@ =~= self.spec_params());
                }
                r
            },
            SysCallName::ReservationReplyCommit => {
                let r = SysCallSignature::gr([
                        ParamType::Ptr(PtrInfo::new_immutable(PtrType::HashWithValue)),
                        ParamType::Ptr(PtrInfo::new_mutable(PtrType::ErrorWithHash)),
                    ]);
                proof {
                    assert(r.params@ =~= self.spec_params());
                }
                r
            },
            SysCallName::ReplyPush => {
                let r = SysCallSignature::gr([
                        ParamType::Ptr(PtrInfo::new_immutable(PtrType::BufferStart { length_param_id: 1 })),
                        ParamType::Size,
                        ParamType::Ptr(PtrInfo::new_mutable(PtrType::ErrorCode)),
                    ]);
                proof {
                    assert(r.params@ =~= self.spec_params());
                }
                r
            },
            SysCallName::ReplyPushInput => {
                let r = SysCallSignature::gr([
                        ParamType::Size,
                        ParamType::Size,
                        ParamType::Ptr(PtrInfo::new_mutable(PtrType::ErrorCode)),
                    ]);
                proof {
                    assert(r.params@ =~= self.spec_params());
                }
                r
            },
            SysCallName::ReplyTo => {
                let r = SysCallSignature::gr([ParamType::Ptr(PtrInfo::new_mutable(PtrType::ErrorWithHash))]);
                proof {
                    assert(r.params@ =~= self.spec_params());
                }
                r
            },
            SysCallName::SignalFrom => {
                let r = SysCallSignature::gr([ParamType::Ptr(PtrInfo::new_mutable(PtrType::ErrorWithHash))]);
                proof {
                    assert(r.params@ =~= self.spec_params());
                }
                r
            },
            SysCallName::Send => {
                let r = SysCallSignature::gr([
                        ParamType::Ptr(PtrInfo::new_immutable(PtrType::HashWithValue)),
                        ParamType::Ptr(PtrInfo::new_immutable(PtrType::BufferStart { length_param_id: 2 })),
                        ParamType::Size,
                        ParamType::Delay,
                        ParamType::Ptr(PtrInfo::new_mutable(PtrType::ErrorWithHash)),
                    ]);
                proof {
                    assert(r.params@ =~= self.spec_params());
                }
                r
            },
            SysCallName::SendInput => {
                let r = SysCallSignature::gr([
                        ParamType::Ptr(PtrInfo::new_immutable(PtrType::HashWithValue)),
                        ParamType::Size,
                        ParamType::Size,
                        ParamType::Delay,
                        ParamType::Ptr(PtrInfo::new_mutable(PtrType::ErrorWithHash)),
                    ]);
                proof {
                    assert(r.params@ =~= self.spec_params());
                }
                r
            },
            SysCallName::SendWGas => {
                let r = SysCallSignature::gr([
                        ParamType::Ptr(PtrInfo::new_immutable(PtrType::HashWithValue)),
                        ParamType::Ptr(PtrInfo::new_immutable(PtrType::BufferStart { length_param_id: 2 })),
                        ParamType::Size,
                        ParamType::Gas,
                        ParamType::Delay,
                        ParamType::Ptr(PtrInfo::new_mutable(PtrType::ErrorWithHash)),
                    ]);
                proof {
                    assert(r.params@ =~= self.spec_params());
                }
                r
            },
            SysCallName::SendInputWGas => {
                let r = SysCallSignature::gr([
                        ParamType::Ptr(PtrInfo::new_immutable(PtrType::HashWithValue)),
                        ParamType::Size,
                        ParamType::Size,
                        ParamType::Gas,
                        ParamType::Delay,
                        ParamType::Ptr(PtrInfo::new_mutable(PtrType::ErrorWithHash)),
                    ]);
                proof {
                    assert(r.params@ =~= self.spec_params());
                }
                r
            },
            SysCallName::SendCommit => {
                let r = SysCallSignature::gr([
                        ParamType::Handler,
                        ParamType::Ptr(PtrInfo::new_immutable(PtrType::HashWithValue)),
                        ParamType::Delay,
                        ParamType::Ptr(PtrInfo::new_mutable(PtrType::ErrorWithHash)),
                    ]);
                proof {
                    assert(r.params@ =~= self.spec_params());
                }
                r
            },
            SysCallName::SendCommitWGas => {
                let r = SysCallSignature::gr([
                        ParamType::Handler,
                        ParamType::Ptr(PtrInfo::new_immutable(PtrType::HashWithValue)),
                        ParamType::Gas,
                        ParamType::Delay,
                        ParamType::Ptr(PtrInfo::new_mutable(PtrType::ErrorWithHash)),
                    ]);
                proof {
                    assert(r.params@ =~= self.spec_params());
                }
                r
            },
            SysCallName::SendInit => {
                let r = SysCallSignature::gr([ParamType::Ptr(PtrInfo::new_mutable(PtrType::ErrorWithHandle))]);
                proof {
                    assert(r.params@ =~= self.spec_params());
                }
                r
            },
            SysCallName::SendPush => {
                let r = SysCallSignature::gr([
                        ParamType::Handler,
                        ParamType::Ptr(PtrInfo::new_immutable(PtrType::BufferStart { length_param_id: 2 })),
                        ParamType::Size,
                        ParamType::Ptr(PtrInfo::new_mutable(PtrType::ErrorCode)),
                    ]);
                proof {
                    assert(r.params@ =~= self.spec_params());
                }
                r
            },
            SysCallName::SendPushInput => {
                let r = SysCallSignature::gr([
                        ParamType::Handler,
                        ParamType::Size,
                        ParamType::Size,
                        ParamType::Ptr(PtrInfo::new_mutable(PtrType::ErrorCode)),
                    ]);
                proof {
                    assert(r.params@ =~= self.spec_params());
                }
                r
            },
            SysCallName::ReservationSend => {
                let r = SysCallSignature::gr([
                        ParamType::Ptr(PtrInfo::new_immutable(PtrType::TwoHashesWithValue)),
                        ParamType::Ptr(PtrInfo::new_immutable(PtrType::BufferStart { length_param_id: 2 })),
                        ParamType::Size,
                        ParamType::Delay,
                        ParamType::Ptr(PtrInfo::new_mutable(PtrType::ErrorWithHash)),
                    ]);
                proof {
                    assert(r.params@ =~= self.spec_params());
                }
                r
            },
            SysCallName::ReservationSendCommit => {
                let r = SysCallSignature::gr([
                        ParamType::Handler,
                        ParamType::Ptr(PtrInfo::new_immutable(PtrType::TwoHashesWithValue)),
                        ParamType::Delay,
                        ParamType::Ptr(PtrInfo::new_mutable(PtrType::ErrorWithHash)),
                    ]);
                proof {
                    assert(r.params@ =~= self.spec_params());
                }
                r
            },
            SysCallName::Size => {
                let r = SysCallSignature::gr([ParamType::Ptr(PtrInfo::new_mutable(PtrType::Length))]);
                proof {
                    assert(r.params@ =~= self.spec_params());
                }
                r
            },
            SysCallName::Source => {
                let r = SysCallSignature::gr([ParamType::Ptr(PtrInfo::new_mutable(PtrType::Hash))]);
                proof {
                    assert(r.params@ =~= self.spec_params());
                }
                r
            },
            SysCallName::Value => {
                let r = SysCallSignature::gr([ParamType::Ptr(PtrInfo::new_mutable(PtrType::Value))]);
                proof {
                    assert(r.params@ =~= self.spec_params());
                }
                r
            },
            SysCallName::CreateProgram => {
                let r = SysCallSignature::gr([
                        ParamType::Ptr(PtrInfo::new_immutable(PtrType::HashWithValue)),
                        ParamType::Ptr(PtrInfo::new_immutable(PtrType::BufferStart { length_param_id: 2 })),
                        ParamType::Size,
                        ParamType::Ptr(PtrInfo::new_immutable(PtrType::BufferStart { length_param_id: 4 })),
                        ParamType::Size,
                        ParamType::Delay,
                        ParamType::Ptr(PtrInfo::new_mutable(PtrType::ErrorWithTwoHashes)),
                    ]);
                proof {
                    assert(r.params@ =~= self.spec_params());
                }
                r
            },
            SysCallName::CreateProgramWGas => {
                let r = SysCallSignature::gr([
                        ParamType::Ptr(PtrInfo::new_immutable(PtrType::HashWithValue)),
                        ParamType::Ptr(PtrInfo::new_immutable(PtrType::BufferStart { length_param_id: 2 })),
                        ParamType::Size,
                        ParamType::Ptr(PtrInfo::new_immutable(PtrType::BufferStart { length_param_id: 4 })),
                        ParamType::Size,
                        ParamType::Gas,
                        ParamType::Delay,
                        ParamType::Ptr(PtrInfo::new_mutable(PtrType::ErrorWithTwoHashes)),
                    ]);
                proof {
                    assert(r.params@ =~= self.spec_params());
                }
                r
            },
            SysCallName::ReplyDeposit => {
                let r = SysCallSignature::gr([
                        ParamType::Ptr(PtrInfo::new_immutable(PtrType::Hash)),
                        ParamType::Gas,
                        ParamType::Ptr(PtrInfo::new_mutable(PtrType::ErrorCode)),
                    ]);
                proof {
                    assert(r.params@ =~= self.spec_params());
                }
                r
            },
            SysCallName::ReserveGas => {
                let r = SysCallSignature::gr([
                        ParamType::Gas,
                        ParamType::Duration,
                        ParamType::Ptr(PtrInfo::new_mutable(PtrType::ErrorWithHash)),
                    ]);
                proof {
                    assert(r.params@ =~= self.spec_params());
                }
                r
            },
            SysCallName::UnreserveGas => {
                let r = SysCallSignature::gr([
                        ParamType::Ptr(PtrInfo::new_immutable(PtrType::Hash)),
                        ParamType::Ptr(PtrInfo::new_mutable(PtrType::ErrorWithGas)),
                    ]);
                proof {
                    assert(r.params@ =~= self.spec_params());
                }
                r
            },
            SysCallName::SystemReserveGas => {
                let r = SysCallSignature::gr([
                        ParamType::Gas,
                        ParamType::Ptr(PtrInfo::new_mutable(PtrType::ErrorCode)),
                    ]);
                proof {
                    assert(r.params@ =~= self.spec_params());
                }
                r
            },
            SysCallName::Random => {
                let r = SysCallSignature::gr([
                        ParamType::Ptr(PtrInfo::new_immutable( PtrType::Hash, )),
                        ParamType::Ptr(PtrInfo::new_mutable(PtrType::BlockNumberWithHash)),
                    ]);
                proof {
                    assert(r.params@ =~= self.spec_params());
                }
                r
            },
            SysCallName::OutOfGas => SysCallSignature::gr([]),
        }
    }
}

/// In every signature, buffer pointers name a later `Size` parameter as
/// their length, and an error pointer is mutable and comes last.
pub proof fn lemma_signature_shape(n: SysCallName)
    ensures
        buffer_lengths_follow(n.spec_params()),
        error_pointer_last(n.spec_params()),
{
    let p = n.spec_params();
    assert forall|i: int| 0 <= i < p.len() implies match #[trigger] p[i] {
        ParamType::Ptr(PtrInfo { mutable, ty: PtrType::BufferStart { length_param_id } }) => {
            &&& !mutable
            &&& i < length_param_id < p.len()
            &&& p[length_param_id as int] == ParamType::Size
        },
        _ => true,
    } && match p[i] {
        ParamType::Ptr(info) => info.ty.spec_is_error() ==> info.mutable && i == p.len() - 1,
        _ => true,
    } by {
        if i == 0 {
        } else if i == 1 {
        } else if i == 2 {
        } else if i == 3 {
        } else if i == 4 {
        } else if i == 5 {
        } else if i == 6 {
        } else if i == 7 {
        }
    }
}

} // verus!
