//! The system calls a program can ask for, and the values that pass between
//! the machine and the host that carries them out.

use vstd::prelude::*;
use vstd::std_specs::convert::FromSpecImpl;
use crate::exec::Value;

verus! {

/// The four system calls, and what every other code stands for.
#[derive(Clone, Copy, Debug, PartialEq, Eq)]
pub enum Syscall {
    Read,
    Write,
    Open,
    Close,
    Unknown,
}

impl From<u32> for Syscall {
    fn from(syscall: u32) -> (kind: Syscall) {
        match syscall {
            0 => Syscall::Read,
            1 => Syscall::Write,
            2 => Syscall::Open,
            3 => Syscall::Close,
            _ => Syscall::Unknown,
        }
    }
}

impl FromSpecImpl<u32> for Syscall {
    open spec fn obeys_from_spec() -> bool {
        true
    }

    open spec fn from_spec(syscall: u32) -> Syscall {
        syscall_of(syscall)
    }
}

/// The system call that a code names: 0 to 3 in the order of the variants,
/// `Unknown` for any other.
pub open spec fn syscall_of(code: u32) -> Syscall {
    if code == 0 {
        Syscall::Read
    } else if code == 1 {
        Syscall::Write
    } else if code == 2 {
        Syscall::Open
    } else if code == 3 {
        Syscall::Close
    } else {
        Syscall::Unknown
    }
}

/// The byte that a cell is written out as: the low eight bits of its value.
pub open spec fn low_byte(cell: Value) -> u8 {
    (cell.as_int() % 256) as u8
}

/// The bytes that a run of cells is written out as.
pub open spec fn low_bytes(cells: Seq<Value>) -> Seq<u8> {
    Seq::new(cells.len(), |i: int| low_byte(cells[i]))
}

/// The cells that bytes read in become: each byte widened to a cell.
pub open spec fn widened(bytes: Seq<u8>) -> Seq<Value> {
    Seq::new(bytes.len(), |i: int| Value::Int(bytes[i] as u32))
}

/// Stores the bytes of `temp` at the front of `buf`, each widened to a cell.
pub fn write_temp(temp: &[u8], buf: &mut [Value])
    requires
        temp@.len() <= old(buf)@.len(),
    ensures
        final(buf)@ == widened(temp@) + old(buf)@.skip(temp@.len() as int),
{
    let mut index: usize = 0;
    while index < temp.len()
        invariant
            index <= temp@.len() <= buf@.len(),
            buf@.len() == old(buf)@.len(),
            buf@ == widened(temp@.take(index as int)) + old(buf)@.skip(index as int),
        decreases temp@.len() - index,
    {
        buf[index] = Value::Int(temp[index] as u32);
        assert(buf@ =~= widened(temp@.take(index + 1)) + old(buf)@.skip(index + 1));
        index += 1;
    }
    assert(temp@.take(index as int) =~= temp@);
}

/// The bytes that `values` are written out as: the low eight bits of each.
pub fn value_to_u8(values: &[Value]) -> (bytes: Vec<u8>)
    ensures
        bytes@ == low_bytes(values@),
{
    let mut bytes: Vec<u8> = Vec::new();
    let mut index: usize = 0;
    while index < values.len()
        invariant
            index <= values@.len(),
            bytes@ == low_bytes(values@.take(index as int)),
        decreases values@.len() - index,
    {
        bytes.push((values[index].as_int() % 256) as u8);
        assert(bytes@ =~= low_bytes(values@.take(index + 1)));
        index += 1;
    }
    assert(values@.take(index as int) =~= values@);
    bytes
}

/// What a program asks of the host.
#[derive(Clone, Debug, PartialEq, Eq)]
pub enum Request {
    /// Read up to `count` bytes from `fd`; they go to the cells from `buf` on.
    Read { fd: u32, buf: u32, count: u32 },
    /// Write `bytes` to `fd`.
    Write { fd: u32, bytes: Vec<u8> },
    /// Open the file at `path` with `flags`.
    Open { path: String, flags: u32 },
    /// Close `fd`.
    Close { fd: u32 },
}

/// A request as contracts see it.
pub enum RequestView {
    Read { fd: u32, buf: u32, count: u32 },
    Write { fd: u32, bytes: Seq<u8> },
    Open { path: Seq<char>, flags: u32 },
    Close { fd: u32 },
}

impl View for Request {
    type V = RequestView;

    open spec fn view(&self) -> RequestView {
        match self {
            Request::Read { fd, buf, count } => RequestView::Read {
                fd: *fd,
                buf: *buf,
                count: *count,
            },
            Request::Write { fd, bytes } => RequestView::Write { fd: *fd, bytes: bytes@ },
            Request::Open { path, flags } => RequestView::Open { path: path@, flags: *flags },
            Request::Close { fd } => RequestView::Close { fd: *fd },
        }
    }
}

} // verus!
