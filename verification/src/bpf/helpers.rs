//! The registry of BPF helper functions: ids, names, argument types and
//! return kinds.

use vstd::prelude::*;

verus! {

/// What a helper returns in r0.
#[derive(Debug, Clone, Copy, PartialEq, Eq, Structural)]
pub enum HelperReturn {
    Scalar,
    MapPtr,
    RingBufPtr,
    ErrorCode,
    /// Returns a kernel pointer (e.g. bpf_get_current_task_btf).
    KernelPtr,
}

/// Expected type for a helper argument register.
#[derive(Debug, Clone, Copy, PartialEq, Eq, Structural)]
pub enum ArgType {
    /// Any value (scalar or pointer) -- not checked.
    Any,
    /// Must be a scalar (not a pointer).
    Scalar,
    /// Must be a pointer to stack memory of known size.
    PtrToStack,
    /// Must be a pointer to a map (map fds are loaded as immediates, so any
    /// scalar is accepted).
    MapPtr,
    /// Must be a pointer to map key (stack pointer).
    PtrToMapKey,
    /// Must be a pointer to map value (stack pointer or map value pointer).
    PtrToMapValue,
    /// Must be a scalar (the size argument for probe_read etc.).
    Size,
    /// Must be a pointer to a ring buffer reservation.
    PtrToRingBuf,
    /// Flags argument (scalar).
    Flags,
    /// Must be a pointer to any writable memory (stack, map value, ringbuf).
    PtrToMem,
    /// Must be a pointer to readable memory (stack, map value, rodata/data).
    PtrToReadonlyMem,
}

impl ArgType {
    pub open spec fn text(self) -> Seq<char> {
        match self {
            ArgType::Any => "any"@,
            ArgType::Scalar => "scalar"@,
            ArgType::PtrToStack => "pointer to stack"@,
            ArgType::MapPtr => "map pointer"@,
            ArgType::PtrToMapKey => "pointer to map key"@,
            ArgType::PtrToMapValue => "pointer to map value"@,
            ArgType::Size => "size (scalar)"@,
            ArgType::PtrToRingBuf => "pointer to ring buffer"@,
            ArgType::Flags => "flags (scalar)"@,
            ArgType::PtrToMem => "pointer to memory"@,
            ArgType::PtrToReadonlyMem => "pointer to readable memory"@,
        }
    }

    pub fn description(&self) -> (s: &'static str)
        ensures
            s@ == self.text(),
    {
        match self {
            ArgType::Any => "any",
            ArgType::Scalar => "scalar",
            ArgType::PtrToStack => "pointer to stack",
            ArgType::MapPtr => "map pointer",
            ArgType::PtrToMapKey => "pointer to map key",
            ArgType::PtrToMapValue => "pointer to map value",
            ArgType::Size => "size (scalar)",
            ArgType::PtrToRingBuf => "pointer to ring buffer",
            ArgType::Flags => "flags (scalar)",
            ArgType::PtrToMem => "pointer to memory",
            ArgType::PtrToReadonlyMem => "pointer to readable memory",
        }
    }
}

#[derive(Debug, Clone, Copy)]
pub struct HelperSpec {
    pub id: i32,
    pub name: &'static str,
    pub ret_type: HelperReturn,
    /// Expected types for arguments r1-r5. `None` means the argument is unused.
    pub args: [Option<ArgType>; 5],
}

/// Return kind of the known helper with id `id`, if it is known.
pub open spec fn helper_ret(id: int) -> Option<HelperReturn> {
    if id == 1 { Some(HelperReturn::MapPtr) }
    else if id == 2 || id == 3 || id == 4 || id == 6 || id == 16 || id == 45 || id == 112
        || id == 113 || id == 115 || id == 132 || id == 133 || id == 147 { Some(HelperReturn::ErrorCode) }
    else if id == 5 || id == 7 || id == 14 || id == 15 || id == 125 || id == 181 { Some(HelperReturn::Scalar) }
    else if id == 35 || id == 158 { Some(HelperReturn::KernelPtr) }
    else if id == 131 { Some(HelperReturn::RingBufPtr) }
    else { None }
}

/// Argument types of the known helper with id `id` (r1..r5).
pub open spec fn helper_args(id: int) -> Seq<Option<ArgType>> {
    let n = None::<ArgType>;
    if id == 1 { seq![Some(ArgType::MapPtr), Some(ArgType::PtrToMapKey), n, n, n] }
    else if id == 2 { seq![Some(ArgType::MapPtr), Some(ArgType::PtrToMapKey), Some(ArgType::PtrToMapValue), Some(ArgType::Flags), n] }
    else if id == 3 { seq![Some(ArgType::MapPtr), Some(ArgType::PtrToMapKey), n, n, n] }
    else if id == 4 || id == 112 || id == 113 || id == 115 { seq![Some(ArgType::PtrToMem), Some(ArgType::Size), Some(ArgType::Scalar), n, n] }
    else if id == 6 { seq![Some(ArgType::PtrToReadonlyMem), Some(ArgType::Size), n, n, n] }
    else if id == 16 { seq![Some(ArgType::PtrToMem), Some(ArgType::Size), n, n, n] }
    else if id == 45 { seq![Some(ArgType::PtrToMem), Some(ArgType::Size), Some(ArgType::Any), n, n] }
    else if id == 131 { seq![Some(ArgType::MapPtr), Some(ArgType::Size), Some(ArgType::Flags), n, n] }
    else if id == 132 || id == 133 { seq![Some(ArgType::PtrToRingBuf), Some(ArgType::Flags), n, n, n] }
    else if id == 147 { seq![Some(ArgType::Scalar), Some(ArgType::PtrToMem), Some(ArgType::Size), n, n] }
    else if id == 181 { seq![Some(ArgType::Scalar), Some(ArgType::Any), Some(ArgType::Any), Some(ArgType::Flags), n] }
    else { seq![n, n, n, n, n] }
}

/// Name of the known helper with id `id`.
pub open spec fn helper_name(id: int) -> Seq<char> {
    if id == 1 { "MAP_LOOKUP_ELEM"@ }
    else if id == 2 { "MAP_UPDATE_ELEM"@ }
    else if id == 3 { "MAP_DELETE_ELEM"@ }
    else if id == 4 { "PROBE_READ"@ }
    else if id == 5 { "KTIME_GET_NS"@ }
    else if id == 6 { "TRACE_PRINTK"@ }
    else if id == 7 { "GET_PRANDOM_U32"@ }
    else if id == 14 { "GET_CURRENT_PID_TGID"@ }
    else if id == 15 { "GET_CURRENT_UID_GID"@ }
    else if id == 16 { "GET_CURRENT_COMM"@ }
    else if id == 35 { "GET_CURRENT_TASK"@ }
    else if id == 45 { "PROBE_READ_STR"@ }
    else if id == 112 { "PROBE_READ_USER"@ }
    else if id == 113 { "PROBE_READ_KERNEL"@ }
    else if id == 115 { "PROBE_READ_KERNEL_STR"@ }
    else if id == 125 { "KTIME_GET_BOOT_NS"@ }
    else if id == 131 { "RINGBUF_RESERVE"@ }
    else if id == 132 { "RINGBUF_SUBMIT"@ }
    else if id == 133 { "RINGBUF_DISCARD"@ }
    else if id == 147 { "D_PATH"@ }
    else if id == 158 { "GET_CURRENT_TASK_BTF"@ }
    else { "LOOP"@ }
}

/// The registry entry of helper `id`: present exactly for the known ids,
/// with that helper's name, return kind and argument types.
pub open spec fn helper_entry_matches(id: i32, r: Option<HelperSpec>) -> bool {
    match helper_ret(id as int) {
        None => r is None,
        Some(ret) => r matches Some(h) && h.id == id && h.ret_type == ret
            && h.name@ == helper_name(id as int) && h.args@ == helper_args(id as int),
    }
}

fn entry(id: i32, name: &'static str, ret_type: HelperReturn, args: [Option<ArgType>; 5]) -> (h: HelperSpec)
    ensures
        h.id == id,
        h.name == name,
        h.ret_type == ret_type,
        h.args == args,
{
    HelperSpec { id, name, ret_type, args }
}

/// Look up a helper by id.
pub fn get_helper(id: i32) -> (r: Option<HelperSpec>)
    ensures
        helper_entry_matches(id, r),
{
    let n: Option<ArgType> = None;
    let h = match id {
        1 => entry(1, "MAP_LOOKUP_ELEM", HelperReturn::MapPtr,
            [Some(ArgType::MapPtr), Some(ArgType::PtrToMapKey), n, n, n]),
        2 => entry(2, "MAP_UPDATE_ELEM", HelperReturn::ErrorCode,
            [Some(ArgType::MapPtr), Some(ArgType::PtrToMapKey), Some(ArgType::PtrToMapValue), Some(ArgType::Flags), n]),
        3 => entry(3, "MAP_DELETE_ELEM", HelperReturn::ErrorCode,
            [Some(ArgType::MapPtr), Some(ArgType::PtrToMapKey), n, n, n]),
        4 => entry(4, "PROBE_READ", HelperReturn::ErrorCode,
            [Some(ArgType::PtrToMem), Some(ArgType::Size), Some(ArgType::Scalar), n, n]),
        5 => entry(5, "KTIME_GET_NS", HelperReturn::Scalar, [n, n, n, n, n]),
        6 => entry(6, "TRACE_PRINTK", HelperReturn::ErrorCode,
            [Some(ArgType::PtrToReadonlyMem), Some(ArgType::Size), n, n, n]),
        7 => entry(7, "GET_PRANDOM_U32", HelperReturn::Scalar, [n, n, n, n, n]),
        14 => entry(14, "GET_CURRENT_PID_TGID", HelperReturn::Scalar, [n, n, n, n, n]),
        15 => entry(15, "GET_CURRENT_UID_GID", HelperReturn::Scalar, [n, n, n, n, n]),
        16 => entry(16, "GET_CURRENT_COMM", HelperReturn::ErrorCode,
            [Some(ArgType::PtrToMem), Some(ArgType::Size), n, n, n]),
        35 => entry(35, "GET_CURRENT_TASK", HelperReturn::KernelPtr, [n, n, n, n, n]),
        45 => entry(45, "PROBE_READ_STR", HelperReturn::ErrorCode,
            [Some(ArgType::PtrToMem), Some(ArgType::Size), Some(ArgType::Any), n, n]),
        112 => entry(112, "PROBE_READ_USER", HelperReturn::ErrorCode,
            [Some(ArgType::PtrToMem), Some(ArgType::Size), Some(ArgType::Scalar), n, n]),
        113 => entry(113, "PROBE_READ_KERNEL", HelperReturn::ErrorCode,
            [Some(ArgType::PtrToMem), Some(ArgType::Size), Some(ArgType::Scalar), n, n]),
        115 => entry(115, "PROBE_READ_KERNEL_STR", HelperReturn::ErrorCode,
            [Some(ArgType::PtrToMem), Some(ArgType::Size), Some(ArgType::Scalar), n, n]),
        125 => entry(125, "KTIME_GET_BOOT_NS", HelperReturn::Scalar, [n, n, n, n, n]),
        131 => entry(131, "RINGBUF_RESERVE", HelperReturn::RingBufPtr,
            [Some(ArgType::MapPtr), Some(ArgType::Size), Some(ArgType::Flags), n, n]),
        132 => entry(132, "RINGBUF_SUBMIT", HelperReturn::ErrorCode,
            [Some(ArgType::PtrToRingBuf), Some(ArgType::Flags), n, n, n]),
        133 => entry(133, "RINGBUF_DISCARD", HelperReturn::ErrorCode,
            [Some(ArgType::PtrToRingBuf), Some(ArgType::Flags), n, n, n]),
        147 => entry(147, "D_PATH", HelperReturn::ErrorCode,
            [Some(ArgType::Scalar), Some(ArgType::PtrToMem), Some(ArgType::Size), n, n]),
        158 => entry(158, "GET_CURRENT_TASK_BTF", HelperReturn::KernelPtr, [n, n, n, n, n]),
        181 => entry(181, "LOOP", HelperReturn::Scalar,
            [Some(ArgType::Scalar), Some(ArgType::Any), Some(ArgType::Any), Some(ArgType::Flags), n]),
        _ => {
            return None;
        }
    };
    assert(h.args@ =~= helper_args(id as int));
    Some(h)
}

/// Whether the helper returns a pointer that may be null (a map value or
/// a ring buffer reservation).
pub fn returns_nullable_ptr(id: i32) -> (b: bool)
    ensures
        b == (helper_ret(id as int) == Some(HelperReturn::MapPtr)
            || helper_ret(id as int) == Some(HelperReturn::RingBufPtr)),
{
    match get_helper(id) {
        Some(h) => h.ret_type == HelperReturn::MapPtr || h.ret_type == HelperReturn::RingBufPtr,
        None => false,
    }
}

/// Whether the helper returns a (nullable) map value pointer.
pub fn returns_map_ptr(id: i32) -> (b: bool)
    ensures
        b == (helper_ret(id as int) == Some(HelperReturn::MapPtr)),
{
    match get_helper(id) {
        Some(h) => h.ret_type == HelperReturn::MapPtr,
        None => false,
    }
}

} // verus!
