use vstd::prelude::*;

verus! {

/// Raw, sized access to physical memory.
///
/// The hardware implementation performs volatile loads and stores at the given
/// address; [`RamPort`] keeps the values in ordinary memory. `width` is the
/// transfer size in bytes: 1, 2, 4 or 8.
pub trait MemoryPort {
    /// Loads `width` bytes at `addr`, zero-extended.
    fn read_raw(&mut self, addr: u64, width: usize) -> u64;

    /// Stores the low `width` bytes of `value` at `addr`.
    fn write_raw(&mut self, addr: u64, width: usize, value: u64);
}

/// One memory access, as it went through a [`Bus`].
#[derive(Clone, Copy, Debug, PartialEq, Eq, Structural)]
pub enum Access {
    Read { addr: u64, width: usize, value: u64 },
    Write { addr: u64, width: usize, value: u64 },
}

/// A memory port together with the log of every access made through it and
/// the poll budget that busy-waits on this bus may spend.
pub struct Bus<P: MemoryPort> {
    port: P,
    max_polls: usize,
    log: Ghost<Seq<Access>>,
}

impl<P: MemoryPort> Bus<P> {
    /// Every access made through this bus, oldest first.
    pub closed spec fn accesses(&self) -> Seq<Access> {
        self.log@
    }

    /// How many flag reads a single busy-wait may make before it gives up.
    pub closed spec fn poll_limit(&self) -> nat {
        self.max_polls as nat
    }

    /// A bus whose busy-waits spin for as long as a `usize` can count.
    pub fn new(port: P) -> (r: Self)
        ensures
            r.accesses() == Seq::<Access>::empty(),
            r.poll_limit() == usize::MAX as nat,
    {
        Bus { port, max_polls: usize::MAX, log: Ghost(Seq::empty()) }
    }

    /// A bus whose busy-waits give up after `max_polls` flag reads.
    pub fn with_poll_limit(port: P, max_polls: usize) -> (r: Self)
        ensures
            r.accesses() == Seq::<Access>::empty(),
            r.poll_limit() == max_polls as nat,
    {
        Bus { port, max_polls, log: Ghost(Seq::empty()) }
    }

    pub fn max_polls(&self) -> (r: usize)
        ensures
            r as nat == self.poll_limit(),
    {
        self.max_polls
    }

    pub fn port(&self) -> &P {
        &self.port
    }

    pub fn into_port(self) -> P {
        self.port
    }

    pub(crate) fn read_raw(&mut self, addr: u64, width: usize) -> (r: u64)
        ensures
            final(self).accesses() == old(self).accesses().push(
                Access::Read { addr, width, value: r },
            ),
            final(self).poll_limit() == old(self).poll_limit(),
    {
        let r = self.port.read_raw(addr, width);
        self.log = Ghost(self.log@.push(Access::Read { addr, width, value: r }));
        r
    }

    pub(crate) fn write_raw(&mut self, addr: u64, width: usize, value: u64)
        ensures
            final(self).accesses() == old(self).accesses().push(
                Access::Write { addr, width, value },
            ),
            final(self).poll_limit() == old(self).poll_limit(),
    {
        self.port.write_raw(addr, width, value);
        self.log = Ghost(self.log@.push(Access::Write { addr, width, value }));
    }
}

/// The low `width` bytes of a 64-bit word.
pub open spec fn truncate_to_width(value: u64, width: usize) -> u64 {
    if width >= 8 {
        value
    } else {
        value & (((1u64 << (8 * width) as u64) - 1) as u64)
    }
}

/// The value that a sequence of stores leaves at `addr`: the latest store there
/// wins, and memory that was never stored to holds zero.
pub open spec fn stored_at(cells: Seq<(u64, u64)>, addr: u64) -> u64
    decreases cells.len(),
{
    if cells.len() == 0 {
        0
    } else if cells.last().0 == addr {
        cells.last().1
    } else {
        stored_at(cells.drop_last(), addr)
    }
}

/// Plain memory behind a [`MemoryPort`]: what is written is what is read back,
/// cut to the width of each access. Counts the accesses made through it.
pub struct RamPort {
    cells: Vec<(u64, u64)>,
    accesses: usize,
}

impl RamPort {
    pub closed spec fn cells(&self) -> Seq<(u64, u64)> {
        self.cells@
    }

    /// The value held at `addr`.
    pub open spec fn value_at(&self, addr: u64) -> u64 {
        stored_at(self.cells(), addr)
    }

    /// How many reads and writes went through the port (saturating).
    pub closed spec fn spec_access_count(&self) -> nat {
        self.accesses as nat
    }

    /// Memory that holds zero everywhere.
    pub fn new() -> (r: Self)
        ensures
            forall|a: u64| r.value_at(a) == 0,
            r.spec_access_count() == 0,
    {
        RamPort { cells: Vec::new(), accesses: 0 }
    }

    pub fn get(&self, addr: u64) -> (r: u64)
        ensures
            r == self.value_at(addr),
    {
        let mut i: usize = self.cells.len();
        assert(self.cells@.subrange(0, i as int) =~= self.cells@);
        while i > 0
            invariant
                i <= self.cells@.len(),
                stored_at(self.cells@, addr) == stored_at(self.cells@.subrange(0, i as int), addr),
            decreases i,
        {
            let (a, v) = self.cells[i - 1];
            let ghost pre = self.cells@.subrange(0, i as int);
            assert(pre.drop_last() =~= self.cells@.subrange(0, i - 1));
            if a == addr {
                return v;
            }
            i = i - 1;
        }
        0
    }

    /// Sets the value at `addr` without counting an access.
    pub fn set(&mut self, addr: u64, value: u64)
        ensures
            forall|a: u64|
                #[trigger] final(self).value_at(a) == if a == addr {
                    value
                } else {
                    old(self).value_at(a)
                },
            final(self).spec_access_count() == old(self).spec_access_count(),
    {
        let ghost before = self.cells@;
        self.cells.push((addr, value));
        assert(self.cells@.drop_last() =~= before);
    }

    pub fn access_count(&self) -> (r: usize)
        ensures
            r as nat == self.spec_access_count(),
    {
        self.accesses
    }

    fn count_access(&mut self)
        ensures
            final(self).cells() == old(self).cells(),
            final(self).spec_access_count() == if old(self).spec_access_count() < usize::MAX {
                old(self).spec_access_count() + 1
            } else {
                old(self).spec_access_count()
            },
    {
        if self.accesses < usize::MAX {
            self.accesses = self.accesses + 1;
        }
    }
}

fn low_bytes_mask(width: usize) -> (r: u64)
    requires
        width < 8,
    ensures
        r == ((1u64 << (8 * width) as u64) - 1) as u64,
{
    let s: u64 = (8 * width) as u64;
    assert(1u64 << s >= 1) by (bit_vector)
        requires
            s < 64,
    ;
    (1u64 << s) - 1
}

impl MemoryPort for RamPort {
    fn read_raw(&mut self, addr: u64, width: usize) -> u64 {
        self.count_access();
        let v = self.get(addr);
        if width >= 8 {
            v
        } else {
            v & low_bytes_mask(width)
        }
    }

    fn write_raw(&mut self, addr: u64, width: usize, value: u64) {
        self.count_access();
        if width >= 8 {
            self.set(addr, value);
        } else {
            self.set(addr, value & low_bytes_mask(width));
        }
    }
}

} // verus!
