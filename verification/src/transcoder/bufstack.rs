use vstd::prelude::*;

verus! {

/// A reusable pool of buffers of one length: buffers handed back are handed out again,
/// last in first out; an empty pool makes a new zeroed buffer.
pub struct BufStack {
    stack: Vec<Vec<u8>>,
    sz: usize,
}

/// A buffer of `n` zero bytes.
pub open spec fn zeroes(n: nat) -> Seq<u8> {
    Seq::new(n, |i: int| 0u8)
}

impl BufStack {
    /// The buffers held, oldest first.
    pub closed spec fn held(&self) -> Seq<Seq<u8>> {
        self.stack@.map_values(|b: Vec<u8>| b@)
    }

    /// The length of the buffers the pool makes.
    pub closed spec fn buf_size(&self) -> usize {
        self.sz
    }

    /// An empty pool of buffers of `sz` bytes.
    pub fn new(sz: usize) -> (r: Self)
        ensures
            r.held() == Seq::<Seq<u8>>::empty(),
            r.buf_size() == sz,
    {
        let r = BufStack { stack: Vec::new(), sz };
        assert(r.held() =~= Seq::<Seq<u8>>::empty());
        r
    }

    /// The most recently returned buffer, or a new zeroed one when none is held.
    pub fn pop(&mut self) -> (b: Vec<u8>)
        ensures
            final(self).buf_size() == old(self).buf_size(),
            old(self).held().len() > 0 ==> b@ == old(self).held().last() && final(self).held()
                == old(self).held().drop_last(),
            old(self).held().len() == 0 ==> b@ == zeroes(old(self).buf_size() as nat)
                && final(self).held() == old(self).held(),
    {
        let ghost pre = self.stack@;
        match self.stack.pop() {
            Some(b) => {
                proof {
                    assert(self.stack@.map_values(|b: Vec<u8>| b@) =~= pre.map_values(|b: Vec<u8>| b@).drop_last());
                }
                b
            },
            None => {
                let b: Vec<u8> = vec![0u8; self.sz];
                assert(b@ =~= zeroes(self.sz as nat));
                b
            },
        }
    }

    /// Hands a buffer back to the pool.
    pub fn push(&mut self, buf: Vec<u8>)
        ensures
            final(self).buf_size() == old(self).buf_size(),
            final(self).held() == old(self).held().push(buf@),
    {
        let ghost pre = self.stack@;
        let ghost v = buf@;
        self.stack.push(buf);
        assert(self.stack@.map_values(|b: Vec<u8>| b@) =~= pre.map_values(|b: Vec<u8>| b@).push(v));
    }
}

/// A buffer handed back is the next one handed out, and the pool is then as it was.
pub proof fn lemma_push_then_pop(pool: BufStack, buf: Seq<u8>)
    ensures
        pool.held().push(buf).len() > 0,
        pool.held().push(buf).last() == buf,
        pool.held().push(buf).drop_last() == pool.held(),
{
    assert(pool.held().push(buf).drop_last() =~= pool.held());
}

} // verus!
