//! Bounded batches of transform and opacity updates, kept in arrival order.
use vstd::prelude::*;

use crate::layer::LayerId;
use crate::opacity::{clamp_unit_bits, in_unit_interval, Opacity};

verus! {

/// Most updates that one batch holds.
pub const MAX_BATCH_SIZE: usize = 10_000;

/// A new transform for one layer.
#[derive(Debug, Clone, Copy)]
pub struct TransformUpdate {
    pub id: LayerId,
    pub transform: glam::Mat3,
}

impl TransformUpdate {
    /// The update that sets the transform of layer `id`.
    pub fn new(id: LayerId, transform: glam::Mat3) -> (r: TransformUpdate)
        ensures
            r == (TransformUpdate { id, transform }),
    {
        TransformUpdate { id, transform }
    }
}

/// Transform updates in arrival order, at most `MAX_BATCH_SIZE` of them.
#[derive(Debug, Clone)]
pub struct TransformBatch {
    updates: Vec<TransformUpdate>,
}

impl View for TransformBatch {
    type V = Seq<TransformUpdate>;

    closed spec fn view(&self) -> Seq<TransformUpdate> {
        self.updates@
    }
}

impl TransformBatch {
    /// The batch holds at most `MAX_BATCH_SIZE` updates.
    pub open spec fn wf(&self) -> bool {
        self@.len() <= MAX_BATCH_SIZE
    }

    /// An empty batch.
    pub fn new() -> (r: TransformBatch)
        ensures
            r.wf(),
            r@ == Seq::<TransformUpdate>::empty(),
    {
        TransformBatch { updates: Vec::new() }
    }

    /// Appends `update`. A full batch refuses it and stays as it was.
    pub fn add(&mut self, update: TransformUpdate) -> (r: Result<(), String>)
        requires
            old(self).wf(),
        ensures
            final(self).wf(),
            r.is_err() <==> old(self)@.len() == MAX_BATCH_SIZE,
            r.is_ok() ==> final(self)@ == old(self)@.push(update),
            r.is_err() ==> final(self)@ == old(self)@,
    {
        if self.updates.len() >= MAX_BATCH_SIZE {
            return Err("Batch size exceeded".to_string());
        }
        self.updates.push(update);
        Ok(())
    }

    /// The updates in arrival order.
    pub fn updates(&self) -> (r: &[TransformUpdate])
        ensures
            r@ == self@,
    {
        self.updates.as_slice()
    }

    /// Empties the batch so that it can be filled again.
    pub fn clear(&mut self)
        ensures
            final(self).wf(),
            final(self)@ == Seq::<TransformUpdate>::empty(),
    {
        self.updates.clear();
    }

    /// Number of updates held.
    pub fn len(&self) -> (r: usize)
        ensures
            r == self@.len(),
    {
        self.updates.len()
    }

    /// Whether the batch holds no update.
    pub fn is_empty(&self) -> (r: bool)
        ensures
            r == (self@.len() == 0),
    {
        self.updates.len() == 0
    }
}

impl Default for TransformBatch {
    fn default() -> (r: TransformBatch)
        ensures
            r.wf(),
            r@ == Seq::<TransformUpdate>::empty(),
    {
        TransformBatch::new()
    }
}

/// A new opacity for one layer.
#[derive(Debug, Clone, Copy)]
pub struct OpacityUpdate {
    pub id: LayerId,
    pub opacity: Opacity,
}

impl OpacityUpdate {
    /// The update that sets the opacity of layer `id` to the number with bit
    /// pattern `bits`; refused unless that number lies in `[0.0, 1.0]`.
    pub fn new(id: LayerId, bits: u32) -> (r: Result<OpacityUpdate, String>)
        ensures
            r.is_ok() <==> in_unit_interval(bits),
            r.is_ok() ==> r.unwrap().id == id && r.unwrap().opacity@ == clamp_unit_bits(bits),
    {
        match Opacity::from_bits(bits) {
            Some(opacity) => Ok(OpacityUpdate { id, opacity }),
            None => Err("Opacity out of range".to_string()),
        }
    }
}

/// Opacity updates in arrival order, at most `MAX_BATCH_SIZE` of them.
#[derive(Debug, Clone)]
pub struct OpacityBatch {
    updates: Vec<OpacityUpdate>,
}

impl View for OpacityBatch {
    type V = Seq<OpacityUpdate>;

    closed spec fn view(&self) -> Seq<OpacityUpdate> {
        self.updates@
    }
}

impl OpacityBatch {
    /// The batch holds at most `MAX_BATCH_SIZE` updates.
    pub open spec fn wf(&self) -> bool {
        self@.len() <= MAX_BATCH_SIZE
    }

    /// An empty batch.
    pub fn new() -> (r: OpacityBatch)
        ensures
            r.wf(),
            r@ == Seq::<OpacityUpdate>::empty(),
    {
        OpacityBatch { updates: Vec::new() }
    }

    /// Appends `update`. A full batch refuses it and stays as it was.
    pub fn add(&mut self, update: OpacityUpdate) -> (r: Result<(), String>)
        requires
            old(self).wf(),
        ensures
            final(self).wf(),
            r.is_err() <==> old(self)@.len() == MAX_BATCH_SIZE,
            r.is_ok() ==> final(self)@ == old(self)@.push(update),
            r.is_err() ==> final(self)@ == old(self)@,
    {
        if self.updates.len() >= MAX_BATCH_SIZE {
            return Err("Batch size exceeded".to_string());
        }
        self.updates.push(update);
        Ok(())
    }

    /// The updates in arrival order.
    pub fn updates(&self) -> (r: &[OpacityUpdate])
        ensures
            r@ == self@,
    {
        self.updates.as_slice()
    }

    /// Empties the batch so that it can be filled again.
    pub fn clear(&mut self)
        ensures
            final(self).wf(),
            final(self)@ == Seq::<OpacityUpdate>::empty(),
    {
        self.updates.clear();
    }

    /// Number of updates held.
    pub fn len(&self) -> (r: usize)
        ensures
            r == self@.len(),
    {
        self.updates.len()
    }

    /// Whether the batch holds no update.
    pub fn is_empty(&self) -> (r: bool)
        ensures
            r == (self@.len() == 0),
    {
        self.updates.len() == 0
    }
}

impl Default for OpacityBatch {
    fn default() -> (r: OpacityBatch)
        ensures
            r.wf(),
            r@ == Seq::<OpacityUpdate>::empty(),
    {
        OpacityBatch::new()
    }
}

} // verus!
