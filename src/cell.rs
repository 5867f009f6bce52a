use vstd::prelude::*;

verus! {

/// Single-slot, latest-value-wins store for the most recent measurement.
///
/// Writes overwrite unconditionally; nothing is queued and no history is kept.
pub struct MeasurementCell {
    value: u16,
}

impl View for MeasurementCell {
    type V = u16;

    closed spec fn view(&self) -> u16 {
        self.value
    }
}

/// The value a cell holds after the writes `writes` land on it in order,
/// starting from `initial`: each write replaces the value, as `MeasurementCell::set` does.
pub open spec fn after_writes(initial: u16, writes: Seq<u16>) -> u16 {
    writes.fold_left(initial, |_held: u16, w: u16| w)
}

impl MeasurementCell {
    /// A cell holding the default reading, zero.
    pub fn new() -> (r: MeasurementCell)
        ensures
            r@ == 0,
    {
        MeasurementCell { value: 0 }
    }

    /// Overwrites the stored value; never blocks.
    pub fn set(&mut self, value: u16)
        ensures
            final(self)@ == value,
    {
        self.value = value;
    }

    /// The most recently stored value, or zero if nothing was stored yet.
    pub fn get_latest(&self) -> (r: u16)
        ensures
            r == self@,
    {
        self.value
    }
}

/// Latest value wins: whatever number of writes lands between two reads,
/// in whatever order they were issued, a read returns the physically last one.
pub proof fn lemma_latest_write_wins(initial: u16, writes: Seq<u16>)
    requires
        writes.len() > 0,
    ensures
        after_writes(initial, writes) == writes[writes.len() - 1],
{
}

} // verus!
