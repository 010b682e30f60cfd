use vstd::prelude::*;

verus! {

/// What the GPU side must do to bring the frame's records to the device.
#[derive(Debug, Clone, Copy, PartialEq, Eq, Structural)]
pub enum UploadAction {
    /// Allocate a new buffer holding exactly `len` records, initialised with them.
    Create { len: usize },
    /// Write the `len` records into the existing buffer from its start.
    Write { len: usize },
}

/// The host-side staging list of a frame's instance records, with the size of the device buffer
/// that holds them.
#[derive(Debug)]
pub struct InstanceBuffer<T> {
    records: Vec<T>,
    capacity: usize,
}

impl<T: Copy> InstanceBuffer<T> {
    pub closed spec fn records(&self) -> Seq<T> {
        self.records@
    }

    /// Number of records the device buffer can hold.
    pub closed spec fn capacity(&self) -> nat {
        self.capacity as nat
    }

    pub fn new() -> (r: Self)
        ensures
            r.records().len() == 0,
            r.capacity() == 0,
    {
        InstanceBuffer { records: Vec::new(), capacity: 0 }
    }

    pub fn len(&self) -> (r: usize)
        ensures
            r == self.records().len(),
    {
        self.records.len()
    }

    pub fn capacity_records(&self) -> (r: usize)
        ensures
            r == self.capacity(),
    {
        self.capacity
    }

    /// The staged records, for the device upload.
    pub fn records_ref(&self) -> (r: &Vec<T>)
        ensures
            r@ == self.records(),
    {
        &self.records
    }

    /// Appends a record and returns its index.
    pub fn push(&mut self, record: T) -> (index: usize)
        requires
            old(self).records().len() < usize::MAX,
        ensures
            index == old(self).records().len(),
            final(self).records() == old(self).records().push(record),
            final(self).capacity() == old(self).capacity(),
    {
        let index = self.records.len();
        self.records.push(record);
        index
    }

    /// Decides how this frame's records reach the device: a new buffer of exactly their size
    /// when the current one is too small, else a write into it. The buffer never shrinks.
    pub fn write_frame(&mut self) -> (action: UploadAction)
        ensures
            final(self).records() == old(self).records(),
            old(self).capacity() < old(self).records().len() ==> action == (UploadAction::Create {
                len: old(self).records().len() as usize,
            }) && final(self).capacity() == old(self).records().len(),
            old(self).capacity() >= old(self).records().len() ==> action == (UploadAction::Write {
                len: old(self).records().len() as usize,
            }) && final(self).capacity() == old(self).capacity(),
    {
        let len = self.records.len();
        if self.capacity < len {
            self.capacity = len;
            UploadAction::Create { len }
        } else {
            UploadAction::Write { len }
        }
    }

    /// Empties the staging list for the next frame; the device buffer is kept.
    pub fn clear_frame(&mut self)
        ensures
            final(self).records().len() == 0,
            final(self).capacity() == old(self).capacity(),
    {
        self.records.clear();
    }

    /// Some backends fail on a buffer of exactly one record: then a filler record is appended
    /// after it. Any other number of records is left as it is.
    pub fn pad_single(&mut self, filler: T)
        ensures
            old(self).records().len() == 1 ==> final(self).records() == old(self).records().push(
                filler,
            ),
            old(self).records().len() != 1 ==> final(self).records() == old(self).records(),
            final(self).capacity() == old(self).capacity(),
    {
        if self.records.len() == 1 {
            self.records.push(filler);
        }
    }
}

/// After a frame is cleared, the next frame starts over: its first record lands at index 0 and is
/// the only record held, while the device buffer keeps its size.
pub proof fn lemma_cleared_buffer_restarts<T: Copy>(
    cleared: InstanceBuffer<T>,
    next: InstanceBuffer<T>,
    record: T,
    index: usize,
)
    requires
        cleared.records().len() == 0,
        index == cleared.records().len(),
        next.records() == cleared.records().push(record),
        next.capacity() == cleared.capacity(),
    ensures
        index == 0,
        next.records() == seq![record],
        next.capacity() == cleared.capacity(),
{
    assert(next.records() =~= seq![record]);
}

} // verus!
