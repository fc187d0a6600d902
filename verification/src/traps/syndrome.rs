//! Decoding of the exception syndrome register (ESR_EL1).
use vstd::prelude::*;

verus! {

/// The kind of an abort, from the fault status code in ISS bits 5..0.
#[derive(Debug, PartialEq, Eq, Copy, Clone, Structural)]
pub enum Fault {
    AddressSize,
    Translation,
    AccessFlag,
    Permission,
    Alignment,
    TlbConflict,
    Other(u8),
}

/// The fault denoted by the fault status code in the low six bits of `val`.
pub open spec fn fault_of(val: u32) -> Fault {
    let code = val % 64;
    if code <= 0b000011 {
        Fault::AddressSize
    } else if 0b000100 <= code <= 0b000111 {
        Fault::Translation
    } else if 0b001001 <= code <= 0b001011 {
        Fault::AccessFlag
    } else if 0b001101 <= code <= 0b001111 {
        Fault::Permission
    } else if code == 0b100001 {
        Fault::Alignment
    } else if code == 0b110000 {
        Fault::TlbConflict
    } else {
        Fault::Other(code as u8)
    }
}

impl vstd::std_specs::convert::FromSpecImpl<u32> for Fault {
    open spec fn obeys_from_spec() -> bool {
        true
    }

    open spec fn from_spec(v: u32) -> Fault {
        fault_of(v)
    }
}

impl From<u32> for Fault {
    fn from(val: u32) -> (r: Fault)
        ensures
            r == fault_of(val),
    {
        let code = val & 0b111111;
        assert(code == val % 64) by (bit_vector)
            requires
                code == val & 0b111111u32,
        ;
        match code {
            0b000000 => Fault::AddressSize,
            0b000001 => Fault::AddressSize,
            0b000010 => Fault::AddressSize,
            0b000011 => Fault::AddressSize,
            0b000100 => Fault::Translation,
            0b000111 => Fault::Translation,
            0b000101 => Fault::Translation,
            0b000110 => Fault::Translation,
            0b001001 => Fault::AccessFlag,
            0b001011 => Fault::AccessFlag,
            0b001010 => Fault::AccessFlag,
            0b001101 => Fault::Permission,
            0b001111 => Fault::Permission,
            0b001110 => Fault::Permission,
            0b100001 => Fault::Alignment,
            0b110000 => Fault::TlbConflict,
            _ => Fault::Other(code as u8),
        }
    }
}

/// The cause of a synchronous exception.
#[derive(Debug, PartialEq, Eq, Copy, Clone, Structural)]
pub enum Syndrome {
    Unknown,
    WfiWfe,
    SimdFp,
    IllegalExecutionState,
    Svc(u16),
    Hvc(u16),
    Smc(u16),
    MsrMrsSystem,
    InstructionAbort { kind: Fault, level: u8 },
    PCAlignmentFault,
    DataAbort { kind: Fault, level: u8 },
    SpAlignmentFault,
    TrappedFpu,
    SError,
    Breakpoint,
    Step,
    Watchpoint,
    Brk(u16),
    Other(u32),
}

/// The exception class: bits 31..26 of the syndrome.
pub open spec fn exception_class(esr: u32) -> int {
    esr as int / 0x400_0000
}

/// The 16-bit immediate of a call or breakpoint instruction: bits 15..0.
pub open spec fn imm16(esr: u32) -> u16 {
    (esr % 0x1_0000) as u16
}

/// The syndrome denoted by a raw ESR value.
pub open spec fn syndrome_of(esr: u32) -> Syndrome {
    let ec = exception_class(esr);
    if ec == 0b000000 {
        Syndrome::Unknown
    } else if ec == 0b000001 {
        Syndrome::WfiWfe
    } else if ec == 0b000111 {
        Syndrome::SimdFp
    } else if ec == 0b001110 {
        Syndrome::IllegalExecutionState
    } else if ec == 0b010001 || ec == 0b010101 {
        Syndrome::Svc(imm16(esr))
    } else if ec == 0b010010 || ec == 0b010110 {
        Syndrome::Hvc(imm16(esr))
    } else if ec == 0b010011 || ec == 0b010111 {
        Syndrome::Smc(imm16(esr))
    } else if ec == 0b011000 {
        Syndrome::MsrMrsSystem
    } else if ec == 0b100000 || ec == 0b100001 {
        Syndrome::InstructionAbort { kind: fault_of(esr), level: (esr % 4) as u8 }
    } else if ec == 0b100010 {
        Syndrome::PCAlignmentFault
    } else if ec == 0b100100 || ec == 0b100101 {
        Syndrome::DataAbort { kind: fault_of(esr), level: (esr % 4) as u8 }
    } else if ec == 0b100110 {
        Syndrome::SpAlignmentFault
    } else if ec == 0b101100 {
        Syndrome::TrappedFpu
    } else if ec == 0b101111 {
        Syndrome::SError
    } else if ec == 0b110000 || ec == 0b110001 {
        Syndrome::Breakpoint
    } else if ec == 0b110010 || ec == 0b110011 {
        Syndrome::Step
    } else if ec == 0b110100 || ec == 0b110101 {
        Syndrome::Watchpoint
    } else if ec == 0b111100 {
        Syndrome::Brk(imm16(esr))
    } else {
        Syndrome::Other(esr)
    }
}

impl vstd::std_specs::convert::FromSpecImpl<u32> for Syndrome {
    open spec fn obeys_from_spec() -> bool {
        true
    }

    open spec fn from_spec(v: u32) -> Syndrome {
        syndrome_of(v)
    }
}

/// Converts a raw syndrome value (ESR) into a `Syndrome` (ref: D1.10.4).
impl From<u32> for Syndrome {
    fn from(esr: u32) -> (r: Syndrome)
        ensures
            r == syndrome_of(esr),
    {
        assert((esr >> 26u32) as u8 == esr / 0x400_0000) by (bit_vector);
        assert((esr & 0xFFFFu32) as u16 == esr % 0x1_0000) by (bit_vector);
        assert((esr & 0b11u32) as u8 == esr % 4) by (bit_vector);
        let ec: u8 = (esr >> 26) as u8;
        let imm: u16 = (esr & 0xFFFF) as u16;
        match ec {
            0b000000 => Syndrome::Unknown,
            0b000001 => Syndrome::WfiWfe,
            0b000111 => Syndrome::SimdFp,
            0b001110 => Syndrome::IllegalExecutionState,
            0b010001 => Syndrome::Svc(imm),
            0b010010 => Syndrome::Hvc(imm),
            0b010011 => Syndrome::Smc(imm),
            0b010101 => Syndrome::Svc(imm),
            0b010110 => Syndrome::Hvc(imm),
            0b010111 => Syndrome::Smc(imm),
            0b011000 => Syndrome::MsrMrsSystem,
            0b100000 => Syndrome::InstructionAbort { kind: Fault::from(esr), level: (esr & 0b11) as u8 },
            0b100001 => Syndrome::InstructionAbort { kind: Fault::from(esr), level: (esr & 0b11) as u8 },
            0b100010 => Syndrome::PCAlignmentFault,
            0b100100 => Syndrome::DataAbort { kind: Fault::from(esr), level: (esr & 0b11) as u8 },
            0b100101 => Syndrome::DataAbort { kind: Fault::from(esr), level: (esr & 0b11) as u8 },
            0b100110 => Syndrome::SpAlignmentFault,
            0b101100 => Syndrome::TrappedFpu,
            0b101111 => Syndrome::SError,
            0b110000 => Syndrome::Breakpoint,
            0b110001 => Syndrome::Breakpoint,
            0b110010 => Syndrome::Step,
            0b110011 => Syndrome::Step,
            0b110100 => Syndrome::Watchpoint,
            0b110101 => Syndrome::Watchpoint,
            0b111100 => Syndrome::Brk(imm),
            _ => Syndrome::Other(esr),
        }
    }
}

/// A supervisor call's syndrome carries the call's 16-bit immediate, which
/// the kernel uses as the system call number, whichever of the two SVC
/// classes raised it.
pub proof fn law_svc_number(esr: u32)
    ensures
        (exception_class(esr) == 0b010101 || exception_class(esr) == 0b010001)
            ==> syndrome_of(esr) == Syndrome::Svc(imm16(esr)),
        syndrome_of(esr) matches Syndrome::Svc(n) ==> n as int == esr % 0x1_0000,
        syndrome_of(esr) matches Syndrome::DataAbort { level, .. } ==> level <= 3,
{
}

/// The architectural fault status codes (ISS bits 5..0): address size
/// faults at levels 0 to 3 are codes 0 to 3, translation faults 4 to 7,
/// access flag faults (levels 1 to 3) 9 to 11, permission faults (levels 1
/// to 3) 13 to 15, an alignment fault 33 and a TLB conflict 48; any other
/// code is kept as it is.
pub proof fn law_fault_status_codes(v: u32)
    ensures
        v % 64 == 0 || v % 64 == 1 || v % 64 == 2 || v % 64 == 3 ==> fault_of(v) == Fault::AddressSize,
        v % 64 == 4 || v % 64 == 5 || v % 64 == 6 || v % 64 == 7 ==> fault_of(v) == Fault::Translation,
        v % 64 == 9 || v % 64 == 10 || v % 64 == 11 ==> fault_of(v) == Fault::AccessFlag,
        v % 64 == 13 || v % 64 == 14 || v % 64 == 15 ==> fault_of(v) == Fault::Permission,
        v % 64 == 33 ==> fault_of(v) == Fault::Alignment,
        v % 64 == 48 ==> fault_of(v) == Fault::TlbConflict,
        v % 64 == 8 || v % 64 == 12 || (16 <= v % 64 <= 63 && v % 64 != 33 && v % 64 != 48)
            ==> fault_of(v) == Fault::Other((v % 64) as u8),
        fault_of(v) == fault_of(v % 64),
{
}

/// Decoding by exception class (ESR bits 31..26): the abort classes carry
/// the fault of the status code and the level of its low two bits, and the
/// call and breakpoint classes carry the immediate of bits 15..0.
pub proof fn law_syndrome_classes(esr: u32)
    ensures
        esr / 0x400_0000 == 0b100100 || esr / 0x400_0000 == 0b100101 ==> syndrome_of(esr)
            == (Syndrome::DataAbort { kind: fault_of(esr), level: (esr % 4) as u8 }),
        esr / 0x400_0000 == 0b100000 || esr / 0x400_0000 == 0b100001 ==> syndrome_of(esr)
            == (Syndrome::InstructionAbort { kind: fault_of(esr), level: (esr % 4) as u8 }),
        esr / 0x400_0000 == 0b010101 || esr / 0x400_0000 == 0b010001 ==> syndrome_of(esr)
            == Syndrome::Svc((esr % 0x1_0000) as u16),
        esr / 0x400_0000 == 0b010110 || esr / 0x400_0000 == 0b010010 ==> syndrome_of(esr)
            == Syndrome::Hvc((esr % 0x1_0000) as u16),
        esr / 0x400_0000 == 0b010111 || esr / 0x400_0000 == 0b010011 ==> syndrome_of(esr)
            == Syndrome::Smc((esr % 0x1_0000) as u16),
        esr / 0x400_0000 == 0b111100 ==> syndrome_of(esr) == Syndrome::Brk((esr % 0x1_0000) as u16),
        esr / 0x400_0000 == 0 ==> syndrome_of(esr) == Syndrome::Unknown,
        esr / 0x400_0000 == 0b000001 ==> syndrome_of(esr) == Syndrome::WfiWfe,
        esr / 0x400_0000 == 0b100010 ==> syndrome_of(esr) == Syndrome::PCAlignmentFault,
        esr / 0x400_0000 == 0b100110 ==> syndrome_of(esr) == Syndrome::SpAlignmentFault,
        esr / 0x400_0000 == 0b101111 ==> syndrome_of(esr) == Syndrome::SError,
{
}

} // verus!
