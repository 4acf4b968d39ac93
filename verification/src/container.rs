use vstd::prelude::*;
use crate::types::PlayerId;

verus! {

/// Number of fuel slots of a campfire.
pub const NUM_FUEL_SLOTS: usize = 5;

/// Number of slots of a wooden storage box.
pub const NUM_BOX_SLOTS: usize = 18;

/// Something that holds items in numbered slots. Each slot names an item
/// instance and that item's definition id.
pub trait ItemContainer: Sized {
    /// The instance id in each slot.
    spec fn slot_ids(&self) -> Seq<Option<u64>>;

    /// The definition id in each slot.
    spec fn slot_defs(&self) -> Seq<Option<u64>>;

    /// The same container with its slots replaced.
    spec fn with_slots(&self, ids: Seq<Option<u64>>, defs: Seq<Option<u64>>) -> Self;

    proof fn lemma_with_slots(&self, ids: Seq<Option<u64>>, defs: Seq<Option<u64>>)
        requires
            ids.len() == self.slot_ids().len(),
            defs.len() == self.slot_defs().len(),
        ensures
            self.with_slots(ids, defs).slot_ids() == ids,
            self.with_slots(ids, defs).slot_defs() == defs,
    ;

    proof fn lemma_with_own_slots(&self)
        ensures
            self.with_slots(self.slot_ids(), self.slot_defs()) == *self,
            self.slot_ids().len() == self.slot_defs().len(),
    ;

    proof fn lemma_with_slots_twice(
        &self,
        ids: Seq<Option<u64>>,
        defs: Seq<Option<u64>>,
        ids2: Seq<Option<u64>>,
        defs2: Seq<Option<u64>>,
    )
        ensures
            self.with_slots(ids, defs).with_slots(ids2, defs2) == self.with_slots(ids2, defs2),
    ;

    /// Number of slots.
    fn num_slots(&self) -> (n: usize)
        ensures
            n == self.slot_ids().len(),
            n == self.slot_defs().len(),
            n < 256,
    ;

    /// The instance id in the slot; none for an index out of range.
    fn get_slot_instance_id(&self, slot_index: u8) -> (r: Option<u64>)
        ensures
            r == (if slot_index < self.slot_ids().len() {
                self.slot_ids()[slot_index as int]
            } else {
                None
            }),
    ;

    /// The definition id in the slot; none for an index out of range.
    fn get_slot_def_id(&self, slot_index: u8) -> (r: Option<u64>)
        ensures
            r == (if slot_index < self.slot_defs().len() {
                self.slot_defs()[slot_index as int]
            } else {
                None
            }),
    ;

    /// Sets both ids of the slot; an index out of range changes nothing.
    fn set_slot(&mut self, slot_index: u8, instance_id: Option<u64>, def_id: Option<u64>)
        ensures
            *final(self) == (if slot_index < old(self).slot_ids().len() {
                old(self).with_slots(
                    old(self).slot_ids().update(slot_index as int, instance_id),
                    old(self).slot_defs().update(slot_index as int, def_id),
                )
            } else {
                *old(self)
            }),
    ;
}

/// A campfire: who placed it and when, whether it burns, its fuel slots and
/// when it next burns a unit of fuel. Times are microseconds since the epoch.
#[derive(Clone, Copy, Debug, PartialEq, Eq, Structural)]
pub struct Campfire {
    pub id: u32,
    pub chunk_index: u32,
    pub placed_by: PlayerId,
    pub placed_at: i64,
    pub is_burning: bool,
    pub fuel_instance_id_0: Option<u64>,
    pub fuel_def_id_0: Option<u64>,
    pub fuel_instance_id_1: Option<u64>,
    pub fuel_def_id_1: Option<u64>,
    pub fuel_instance_id_2: Option<u64>,
    pub fuel_def_id_2: Option<u64>,
    pub fuel_instance_id_3: Option<u64>,
    pub fuel_def_id_3: Option<u64>,
    pub fuel_instance_id_4: Option<u64>,
    pub fuel_def_id_4: Option<u64>,
    pub next_fuel_consume_at: Option<i64>,
}

impl Campfire {
    /// A campfire with empty fuel slots.
    pub fn new(
        id: u32,
        chunk_index: u32,
        placed_by: PlayerId,
        placed_at: i64,
        is_burning: bool,
        next_fuel_consume_at: Option<i64>,
    ) -> (c: Campfire)
        ensures
            c.id == id && c.chunk_index == chunk_index && c.placed_by == placed_by && c.placed_at
                == placed_at && c.is_burning == is_burning && c.next_fuel_consume_at
                == next_fuel_consume_at,
            c.slot_ids() == Seq::new(NUM_FUEL_SLOTS as nat, |i: int| None::<u64>),
            c.slot_defs() == Seq::new(NUM_FUEL_SLOTS as nat, |i: int| None::<u64>),
    {
        let c = Campfire {
            id,
            chunk_index,
            placed_by,
            placed_at,
            is_burning,
            fuel_instance_id_0: None,
            fuel_def_id_0: None,
            fuel_instance_id_1: None,
            fuel_def_id_1: None,
            fuel_instance_id_2: None,
            fuel_def_id_2: None,
            fuel_instance_id_3: None,
            fuel_def_id_3: None,
            fuel_instance_id_4: None,
            fuel_def_id_4: None,
            next_fuel_consume_at,
        };
        assert(c.slot_ids() =~= Seq::new(NUM_FUEL_SLOTS as nat, |i: int| None::<u64>));
        assert(c.slot_defs() =~= Seq::new(NUM_FUEL_SLOTS as nat, |i: int| None::<u64>));
        c
    }
}

impl ItemContainer for Campfire {
    open spec fn slot_ids(&self) -> Seq<Option<u64>> {
        seq![self.fuel_instance_id_0, self.fuel_instance_id_1, self.fuel_instance_id_2, self.fuel_instance_id_3, self.fuel_instance_id_4]
    }

    open spec fn slot_defs(&self) -> Seq<Option<u64>> {
        seq![self.fuel_def_id_0, self.fuel_def_id_1, self.fuel_def_id_2, self.fuel_def_id_3, self.fuel_def_id_4]
    }

    open spec fn with_slots(&self, ids: Seq<Option<u64>>, defs: Seq<Option<u64>>) -> Self {
        Campfire {
            fuel_instance_id_0: ids[0],
            fuel_def_id_0: defs[0],
            fuel_instance_id_1: ids[1],
            fuel_def_id_1: defs[1],
            fuel_instance_id_2: ids[2],
            fuel_def_id_2: defs[2],
            fuel_instance_id_3: ids[3],
            fuel_def_id_3: defs[3],
            fuel_instance_id_4: ids[4],
            fuel_def_id_4: defs[4],
            ..*self
        }
    }

    proof fn lemma_with_slots(&self, ids: Seq<Option<u64>>, defs: Seq<Option<u64>>) {
        assert(self.with_slots(ids, defs).slot_ids() =~= ids);
        assert(self.with_slots(ids, defs).slot_defs() =~= defs);
    }

    proof fn lemma_with_own_slots(&self) {
    }

    proof fn lemma_with_slots_twice(
        &self,
        ids: Seq<Option<u64>>,
        defs: Seq<Option<u64>>,
        ids2: Seq<Option<u64>>,
        defs2: Seq<Option<u64>>,
    ) {
    }

    fn num_slots(&self) -> (n: usize) {
        NUM_FUEL_SLOTS
    }

    fn get_slot_instance_id(&self, slot_index: u8) -> (r: Option<u64>) {
        match slot_index {
            0 => self.fuel_instance_id_0,
            1 => self.fuel_instance_id_1,
            2 => self.fuel_instance_id_2,
            3 => self.fuel_instance_id_3,
            4 => self.fuel_instance_id_4,
            _ => None,
        }
    }

    fn get_slot_def_id(&self, slot_index: u8) -> (r: Option<u64>) {
        match slot_index {
            0 => self.fuel_def_id_0,
            1 => self.fuel_def_id_1,
            2 => self.fuel_def_id_2,
            3 => self.fuel_def_id_3,
            4 => self.fuel_def_id_4,
            _ => None,
        }
    }

    fn set_slot(&mut self, slot_index: u8, instance_id: Option<u64>, def_id: Option<u64>) {
        proof {
            if slot_index < self.slot_ids().len() {
                self.lemma_with_slots(
                    self.slot_ids().update(slot_index as int, instance_id),
                    self.slot_defs().update(slot_index as int, def_id),
                );
            }
        }
        match slot_index {
            0 => {
                self.fuel_instance_id_0 = instance_id;
                self.fuel_def_id_0 = def_id;
            },
            1 => {
                self.fuel_instance_id_1 = instance_id;
                self.fuel_def_id_1 = def_id;
            },
            2 => {
                self.fuel_instance_id_2 = instance_id;
                self.fuel_def_id_2 = def_id;
            },
            3 => {
                self.fuel_instance_id_3 = instance_id;
                self.fuel_def_id_3 = def_id;
            },
            4 => {
                self.fuel_instance_id_4 = instance_id;
                self.fuel_def_id_4 = def_id;
            },
            _ => {},
        }
    }
}

/// A wooden storage box: who placed it and its item slots.
#[derive(Clone, Copy, Debug, PartialEq, Eq, Structural)]
pub struct WoodenStorageBox {
    pub id: u32,
    pub placed_by: PlayerId,
    pub slot_instance_id_0: Option<u64>,
    pub slot_def_id_0: Option<u64>,
    pub slot_instance_id_1: Option<u64>,
    pub slot_def_id_1: Option<u64>,
    pub slot_instance_id_2: Option<u64>,
    pub slot_def_id_2: Option<u64>,
    pub slot_instance_id_3: Option<u64>,
    pub slot_def_id_3: Option<u64>,
    pub slot_instance_id_4: Option<u64>,
    pub slot_def_id_4: Option<u64>,
    pub slot_instance_id_5: Option<u64>,
    pub slot_def_id_5: Option<u64>,
    pub slot_instance_id_6: Option<u64>,
    pub slot_def_id_6: Option<u64>,
    pub slot_instance_id_7: Option<u64>,
    pub slot_def_id_7: Option<u64>,
    pub slot_instance_id_8: Option<u64>,
    pub slot_def_id_8: Option<u64>,
    pub slot_instance_id_9: Option<u64>,
    pub slot_def_id_9: Option<u64>,
    pub slot_instance_id_10: Option<u64>,
    pub slot_def_id_10: Option<u64>,
    pub slot_instance_id_11: Option<u64>,
    pub slot_def_id_11: Option<u64>,
    pub slot_instance_id_12: Option<u64>,
    pub slot_def_id_12: Option<u64>,
    pub slot_instance_id_13: Option<u64>,
    pub slot_def_id_13: Option<u64>,
    pub slot_instance_id_14: Option<u64>,
    pub slot_def_id_14: Option<u64>,
    pub slot_instance_id_15: Option<u64>,
    pub slot_def_id_15: Option<u64>,
    pub slot_instance_id_16: Option<u64>,
    pub slot_def_id_16: Option<u64>,
    pub slot_instance_id_17: Option<u64>,
    pub slot_def_id_17: Option<u64>,
}

impl WoodenStorageBox {
    /// A storage box with empty slots.
    pub fn new(id: u32, placed_by: PlayerId) -> (b: WoodenStorageBox)
        ensures
            b.id == id && b.placed_by == placed_by,
            b.slot_ids() == Seq::new(NUM_BOX_SLOTS as nat, |i: int| None::<u64>),
            b.slot_defs() == Seq::new(NUM_BOX_SLOTS as nat, |i: int| None::<u64>),
    {
        let b = WoodenStorageBox {
            id,
            placed_by,
            slot_instance_id_0: None,
            slot_def_id_0: None,
            slot_instance_id_1: None,
            slot_def_id_1: None,
            slot_instance_id_2: None,
            slot_def_id_2: None,
            slot_instance_id_3: None,
            slot_def_id_3: None,
            slot_instance_id_4: None,
            slot_def_id_4: None,
            slot_instance_id_5: None,
            slot_def_id_5: None,
            slot_instance_id_6: None,
            slot_def_id_6: None,
            slot_instance_id_7: None,
            slot_def_id_7: None,
            slot_instance_id_8: None,
            slot_def_id_8: None,
            slot_instance_id_9: None,
            slot_def_id_9: None,
            slot_instance_id_10: None,
            slot_def_id_10: None,
            slot_instance_id_11: None,
            slot_def_id_11: None,
            slot_instance_id_12: None,
            slot_def_id_12: None,
            slot_instance_id_13: None,
            slot_def_id_13: None,
            slot_instance_id_14: None,
            slot_def_id_14: None,
            slot_instance_id_15: None,
            slot_def_id_15: None,
            slot_instance_id_16: None,
            slot_def_id_16: None,
            slot_instance_id_17: None,
            slot_def_id_17: None,
        };
        assert(b.slot_ids() =~= Seq::new(NUM_BOX_SLOTS as nat, |i: int| None::<u64>));
        assert(b.slot_defs() =~= Seq::new(NUM_BOX_SLOTS as nat, |i: int| None::<u64>));
        b
    }
}

impl ItemContainer for WoodenStorageBox {
    open spec fn slot_ids(&self) -> Seq<Option<u64>> {
        seq![self.slot_instance_id_0, self.slot_instance_id_1, self.slot_instance_id_2, self.slot_instance_id_3, self.slot_instance_id_4, self.slot_instance_id_5, self.slot_instance_id_6, self.slot_instance_id_7, self.slot_instance_id_8, self.slot_instance_id_9, self.slot_instance_id_10, self.slot_instance_id_11, self.slot_instance_id_12, self.slot_instance_id_13, self.slot_instance_id_14, self.slot_instance_id_15, self.slot_instance_id_16, self.slot_instance_id_17]
    }

    open spec fn slot_defs(&self) -> Seq<Option<u64>> {
        seq![self.slot_def_id_0, self.slot_def_id_1, self.slot_def_id_2, self.slot_def_id_3, self.slot_def_id_4, self.slot_def_id_5, self.slot_def_id_6, self.slot_def_id_7, self.slot_def_id_8, self.slot_def_id_9, self.slot_def_id_10, self.slot_def_id_11, self.slot_def_id_12, self.slot_def_id_13, self.slot_def_id_14, self.slot_def_id_15, self.slot_def_id_16, self.slot_def_id_17]
    }

    open spec fn with_slots(&self, ids: Seq<Option<u64>>, defs: Seq<Option<u64>>) -> Self {
        WoodenStorageBox {
            slot_instance_id_0: ids[0],
            slot_def_id_0: defs[0],
            slot_instance_id_1: ids[1],
            slot_def_id_1: defs[1],
            slot_instance_id_2: ids[2],
            slot_def_id_2: defs[2],
            slot_instance_id_3: ids[3],
            slot_def_id_3: defs[3],
            slot_instance_id_4: ids[4],
            slot_def_id_4: defs[4],
            slot_instance_id_5: ids[5],
            slot_def_id_5: defs[5],
            slot_instance_id_6: ids[6],
            slot_def_id_6: defs[6],
            slot_instance_id_7: ids[7],
            slot_def_id_7: defs[7],
            slot_instance_id_8: ids[8],
            slot_def_id_8: defs[8],
            slot_instance_id_9: ids[9],
            slot_def_id_9: defs[9],
            slot_instance_id_10: ids[10],
            slot_def_id_10: defs[10],
            slot_instance_id_11: ids[11],
            slot_def_id_11: defs[11],
            slot_instance_id_12: ids[12],
            slot_def_id_12: defs[12],
            slot_instance_id_13: ids[13],
            slot_def_id_13: defs[13],
            slot_instance_id_14: ids[14],
            slot_def_id_14: defs[14],
            slot_instance_id_15: ids[15],
            slot_def_id_15: defs[15],
            slot_instance_id_16: ids[16],
            slot_def_id_16: defs[16],
            slot_instance_id_17: ids[17],
            slot_def_id_17: defs[17],
            ..*self
        }
    }

    proof fn lemma_with_slots(&self, ids: Seq<Option<u64>>, defs: Seq<Option<u64>>) {
        assert(self.with_slots(ids, defs).slot_ids() =~= ids);
        assert(self.with_slots(ids, defs).slot_defs() =~= defs);
    }

    proof fn lemma_with_own_slots(&self) {
    }

    proof fn lemma_with_slots_twice(
        &self,
        ids: Seq<Option<u64>>,
        defs: Seq<Option<u64>>,
        ids2: Seq<Option<u64>>,
        defs2: Seq<Option<u64>>,
    ) {
    }

    fn num_slots(&self) -> (n: usize) {
        NUM_BOX_SLOTS
    }

    fn get_slot_instance_id(&self, slot_index: u8) -> (r: Option<u64>) {
        match slot_index {
            0 => self.slot_instance_id_0,
            1 => self.slot_instance_id_1,
            2 => self.slot_instance_id_2,
            3 => self.slot_instance_id_3,
            4 => self.slot_instance_id_4,
            5 => self.slot_instance_id_5,
            6 => self.slot_instance_id_6,
            7 => self.slot_instance_id_7,
            8 => self.slot_instance_id_8,
            9 => self.slot_instance_id_9,
            10 => self.slot_instance_id_10,
            11 => self.slot_instance_id_11,
            12 => self.slot_instance_id_12,
            13 => self.slot_instance_id_13,
            14 => self.slot_instance_id_14,
            15 => self.slot_instance_id_15,
            16 => self.slot_instance_id_16,
            17 => self.slot_instance_id_17,
            _ => None,
        }
    }

    fn get_slot_def_id(&self, slot_index: u8) -> (r: Option<u64>) {
        match slot_index {
            0 => self.slot_def_id_0,
            1 => self.slot_def_id_1,
            2 => self.slot_def_id_2,
            3 => self.slot_def_id_3,
            4 => self.slot_def_id_4,
            5 => self.slot_def_id_5,
            6 => self.slot_def_id_6,
            7 => self.slot_def_id_7,
            8 => self.slot_def_id_8,
            9 => self.slot_def_id_9,
            10 => self.slot_def_id_10,
            11 => self.slot_def_id_11,
            12 => self.slot_def_id_12,
            13 => self.slot_def_id_13,
            14 => self.slot_def_id_14,
            15 => self.slot_def_id_15,
            16 => self.slot_def_id_16,
            17 => self.slot_def_id_17,
            _ => None,
        }
    }

    fn set_slot(&mut self, slot_index: u8, instance_id: Option<u64>, def_id: Option<u64>) {
        proof {
            if slot_index < self.slot_ids().len() {
                self.lemma_with_slots(
                    self.slot_ids().update(slot_index as int, instance_id),
                    self.slot_defs().update(slot_index as int, def_id),
                );
            }
        }
        match slot_index {
            0 => {
                self.slot_instance_id_0 = instance_id;
                self.slot_def_id_0 = def_id;
            },
            1 => {
                self.slot_instance_id_1 = instance_id;
                self.slot_def_id_1 = def_id;
            },
            2 => {
                self.slot_instance_id_2 = instance_id;
                self.slot_def_id_2 = def_id;
            },
            3 => {
                self.slot_instance_id_3 = instance_id;
                self.slot_def_id_3 = def_id;
            },
            4 => {
                self.slot_instance_id_4 = instance_id;
                self.slot_def_id_4 = def_id;
            },
            5 => {
                self.slot_instance_id_5 = instance_id;
                self.slot_def_id_5 = def_id;
            },
            6 => {
                self.slot_instance_id_6 = instance_id;
                self.slot_def_id_6 = def_id;
            },
            7 => {
                self.slot_instance_id_7 = instance_id;
                self.slot_def_id_7 = def_id;
            },
            8 => {
                self.slot_instance_id_8 = instance_id;
                self.slot_def_id_8 = def_id;
            },
            9 => {
                self.slot_instance_id_9 = instance_id;
                self.slot_def_id_9 = def_id;
            },
            10 => {
                self.slot_instance_id_10 = instance_id;
                self.slot_def_id_10 = def_id;
            },
            11 => {
                self.slot_instance_id_11 = instance_id;
                self.slot_def_id_11 = def_id;
            },
            12 => {
                self.slot_instance_id_12 = instance_id;
                self.slot_def_id_12 = def_id;
            },
            13 => {
                self.slot_instance_id_13 = instance_id;
                self.slot_def_id_13 = def_id;
            },
            14 => {
                self.slot_instance_id_14 = instance_id;
                self.slot_def_id_14 = def_id;
            },
            15 => {
                self.slot_instance_id_15 = instance_id;
                self.slot_def_id_15 = def_id;
            },
            16 => {
                self.slot_instance_id_16 = instance_id;
                self.slot_def_id_16 = def_id;
            },
            17 => {
                self.slot_instance_id_17 = instance_id;
                self.slot_def_id_17 = def_id;
            },
            _ => {},
        }
    }
}

} // verus!
