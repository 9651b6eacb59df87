use vstd::prelude::*;

verus! {

/// Size of the addressable memory in bytes.
pub const RAM_SIZE: usize = 4096;

/// Number of return addresses the call stack can hold.
pub const STACK_SIZE: usize = 16;

/// Byte-addressed memory together with the call stack of return addresses.
///
/// Only the first `sp` slots of `stack` are live; `sp` never exceeds
/// `STACK_SIZE`.
pub struct Ram {
    pub ram: [u8; RAM_SIZE],
    pub sp: u16,
    pub stack: [u16; STACK_SIZE],
}

impl Ram {
    /// The stack invariant: at most `STACK_SIZE` live entries.
    pub open spec fn wf(&self) -> bool {
        self.sp as usize <= STACK_SIZE
    }

    /// The memory contents, one byte per address.
    pub open spec fn memory(&self) -> Seq<u8> {
        self.ram@
    }

    /// The live part of the call stack, bottom first.
    pub open spec fn stack_seq(&self) -> Seq<u16> {
        Seq::new(self.sp as nat, |i: int| self.stack@[i])
    }

    /// Zeroed memory and an empty stack.
    pub fn new() -> (r: Self)
        ensures
            r.wf(),
            r.memory() == Seq::new(RAM_SIZE as nat, |i: int| 0u8),
            r.stack_seq() == Seq::<u16>::empty(),
            r.stack@ == Seq::new(STACK_SIZE as nat, |j: int| 0u16),
    {
        let r = Ram { ram: [0; RAM_SIZE], sp: 0, stack: [0; STACK_SIZE] };
        assert(r.memory() =~= Seq::new(RAM_SIZE as nat, |i: int| 0u8));
        assert(r.stack_seq() =~= Seq::<u16>::empty());
        assert(r.stack@ =~= Seq::new(STACK_SIZE as nat, |j: int| 0u16));
        r
    }

    /// Zeroes memory and empties the stack.
    pub fn reset(&mut self)
        ensures
            final(self).wf(),
            final(self).memory() == Seq::new(RAM_SIZE as nat, |i: int| 0u8),
            final(self).stack_seq() == Seq::<u16>::empty(),
            final(self).stack@ == Seq::new(STACK_SIZE as nat, |j: int| 0u16),
    {
        self.ram = [0; RAM_SIZE];
        self.sp = 0;
        self.stack = [0; STACK_SIZE];
        assert(self.memory() =~= Seq::new(RAM_SIZE as nat, |i: int| 0u8));
        assert(self.stack_seq() =~= Seq::<u16>::empty());
        assert(self.stack@ =~= Seq::new(STACK_SIZE as nat, |j: int| 0u16));
    }

    /// The byte at `index`.
    pub fn read(&self, index: usize) -> (r: u8)
        requires
            index < RAM_SIZE,
        ensures
            r == self.memory()[index as int],
    {
        self.ram[index]
    }

    /// Stores `value` at `index`.
    pub fn write(&mut self, index: usize, value: u8)
        requires
            index < RAM_SIZE,
        ensures
            final(self).memory() == old(self).memory().update(index as int, value),
            final(self).sp == old(self).sp,
            final(self).stack == old(self).stack,
    {
        self.ram[index] = value;
    }

    /// Copies `items` to the start of memory.
    pub fn push_arr(&mut self, items: &[u8])
        requires
            items@.len() <= RAM_SIZE,
        ensures
            final(self).memory() == items@ + old(self).memory().subrange(
                items@.len() as int,
                RAM_SIZE as int,
            ),
            final(self).sp == old(self).sp,
            final(self).stack == old(self).stack,
    {
        self.push_at(items, 0);
        assert(old(self).memory().subrange(0, 0) + items@ =~= items@);
    }

    /// Copies `items` into memory starting at `index`.
    pub fn push_at(&mut self, items: &[u8], index: usize)
        requires
            index + items@.len() <= RAM_SIZE,
        ensures
            final(self).memory() == old(self).memory().subrange(0, index as int) + items@
                + old(self).memory().subrange(index + items@.len(), RAM_SIZE as int),
            final(self).sp == old(self).sp,
            final(self).stack == old(self).stack,
    {
        let n = items.len();
        let mut k: usize = 0;
        while k < n
            invariant
                k <= n,
                n == items@.len(),
                index + n <= RAM_SIZE,
                self.sp == old(self).sp,
                self.stack == old(self).stack,
                forall|j: int|
                    0 <= j < RAM_SIZE ==> #[trigger] self.ram@[j] == if index <= j < index + k {
                        items@[j - index]
                    } else {
                        old(self).ram@[j]
                    },
            decreases n - k,
        {
            self.ram[index + k] = items[k];
            k = k + 1;
        }
        assert(self.memory() =~= old(self).memory().subrange(0, index as int) + items@
            + old(self).memory().subrange(index + items@.len(), RAM_SIZE as int));
    }

    /// Pushes a return address.
    pub fn stack_push(&mut self, val: u16)
        requires
            old(self).wf(),
            (old(self).sp as usize) < STACK_SIZE,
        ensures
            final(self).wf(),
            final(self).stack_seq() == old(self).stack_seq().push(val),
            final(self).stack@ == old(self).stack@.update(old(self).sp as int, val),
            final(self).memory() == old(self).memory(),
    {
        self.stack[self.sp as usize] = val;
        self.sp = self.sp + 1;
        assert(self.stack_seq() =~= old(self).stack_seq().push(val));
    }

    /// Pops the most recent return address.
    pub fn stack_pop(&mut self) -> (r: u16)
        requires
            old(self).wf(),
            old(self).sp > 0,
        ensures
            final(self).wf(),
            r == old(self).stack_seq().last(),
            final(self).stack_seq() == old(self).stack_seq().drop_last(),
            final(self).stack == old(self).stack,
            final(self).memory() == old(self).memory(),
    {
        self.sp = self.sp - 1;
        assert(self.stack_seq() =~= old(self).stack_seq().drop_last());
        self.stack[self.sp as usize]
    }
}

} // verus!
