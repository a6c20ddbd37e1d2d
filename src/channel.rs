use vstd::prelude::*;

verus! {

/// An ordered, unbounded queue: what is sent first is received first.
///
/// Its view is the sequence of buffered values, oldest first.
pub struct Channel<T> {
    buffered: std::collections::VecDeque<T>,
}

impl<T> View for Channel<T> {
    type V = Seq<T>;

    closed spec fn view(&self) -> Seq<T> {
        self.buffered@
    }
}

impl<T> Channel<T> {
    /// An empty channel.
    pub fn new() -> (r: Self)
        ensures
            r@ == Seq::<T>::empty(),
    {
        Channel { buffered: std::collections::VecDeque::new() }
    }

    /// Appends `value` behind everything already buffered; never blocks.
    pub fn send(&mut self, value: T)
        ensures
            final(self)@ == old(self)@.push(value),
    {
        self.buffered.push_back(value);
    }

    /// The number of buffered values.
    pub fn len(&self) -> (r: usize)
        ensures
            r == self@.len(),
    {
        self.buffered.len()
    }

    /// Whether nothing is buffered.
    pub fn is_empty(&self) -> (r: bool)
        ensures
            r == (self@.len() == 0),
    {
        self.buffered.len() == 0
    }

    /// Takes the oldest buffered value, or `None` without blocking when there
    /// is none.
    pub fn try_receive(&mut self) -> (r: Option<T>)
        ensures
            old(self)@.len() == 0 ==> r is None && final(self)@ == old(self)@,
            old(self)@.len() > 0 ==> r == Some(old(self)@[0]) && final(self)@ == old(self)@.drop_first(),
    {
        self.buffered.pop_front()
    }

    /// Takes every buffered value, oldest first, leaving the channel empty.
    /// Calling it with nothing buffered returns an empty vector.
    pub fn try_receive_all(&mut self) -> (r: Vec<T>)
        ensures
            r@ == old(self)@,
            final(self)@ == Seq::<T>::empty(),
    {
        let mut out: Vec<T> = Vec::new();
        while self.buffered.len() > 0
            invariant
                out@ + self@ == old(self)@,
            decreases self@.len(),
        {
            let v = self.buffered.pop_front().unwrap();
            out.push(v);
        }
        assert(self@ =~= Seq::<T>::empty());
        assert(out@ =~= old(self)@);
        out
    }
}

} // verus!
