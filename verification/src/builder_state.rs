use vstd::prelude::*;

use crate::builder::FieldClass;
use crate::name::{copy_chars, names_view};

verus! {

/// One slot of a live builder: never set, set to one value, or an
/// accumulated sequence of elements. Field values are modeled as plain
/// machine words.
#[derive(Debug, PartialEq)]
pub enum SlotState {
    Absent,
    One(u64),
    Many(Vec<u64>),
}

/// The mathematical value of a slot.
#[verifier::ext_equal]
pub enum SlotStateV {
    Absent,
    One(u64),
    Many(Seq<u64>),
}

pub open spec fn slot_state_view(s: SlotState) -> SlotStateV {
    match s {
        SlotState::Absent => SlotStateV::Absent,
        SlotState::One(v) => SlotStateV::One(v),
        SlotState::Many(vs) => SlotStateV::Many(vs@),
    }
}

pub open spec fn slot_states_view(s: Seq<SlotState>) -> Seq<SlotStateV> {
    Seq::new(s.len(), |i: int| slot_state_view(s[i]))
}

/// A live builder, as the generated code behaves: one slot per source field
/// in declaration order, with the field's classification and name beside it.
#[derive(Debug, PartialEq)]
pub struct BuilderState {
    pub classes: Vec<FieldClass>,
    pub names: Vec<Vec<char>>,
    pub slots: Vec<SlotState>,
}

/// The mathematical value of a live builder.
#[verifier::ext_equal]
pub struct BuilderStateV {
    pub classes: Seq<FieldClass>,
    pub names: Seq<Seq<char>>,
    pub slots: Seq<SlotStateV>,
}

pub open spec fn state_view(b: BuilderState) -> BuilderStateV {
    BuilderStateV {
        classes: b.classes@,
        names: names_view(b.names@),
        slots: slot_states_view(b.slots@),
    }
}

/// The builder's invariant: one slot and one name per field, and a slot
/// holds an accumulated sequence exactly when its field is each-annotated.
/// The factory establishes it and every mutation method keeps it.
pub open spec fn state_wf(b: BuilderStateV) -> bool {
    &&& b.slots.len() == b.classes.len()
    &&& b.names.len() == b.classes.len()
    &&& forall|i: int|
        0 <= i < b.classes.len() ==> ((b.classes[i] == FieldClass::Each) <==> b.slots[i] is Many)
}

/// The state a fresh builder starts in: each-annotated slots hold the empty
/// sequence (so repeated appends need no special first call), all others are
/// absent.
pub open spec fn init_state(classes: Seq<FieldClass>, names: Seq<Seq<char>>) -> BuilderStateV {
    BuilderStateV {
        classes: classes,
        names: names,
        slots: Seq::new(
            classes.len(),
            |i: int|
                if classes[i] == FieldClass::Each {
                    SlotStateV::Many(Seq::empty())
                } else {
                    SlotStateV::Absent
                },
        ),
    }
}

/// One finalized field value: what finalize hands back for an optional, an
/// each-annotated, and a plain field.
#[derive(Debug, PartialEq)]
pub enum Built {
    OptVal(Option<u64>),
    ListVal(Vec<u64>),
    Val(u64),
}

/// The mathematical value of a finalized field value.
#[verifier::ext_equal]
pub enum BuiltV {
    OptVal(Option<u64>),
    ListVal(Seq<u64>),
    Val(u64),
}

pub open spec fn built_view(b: Built) -> BuiltV {
    match b {
        Built::OptVal(v) => BuiltV::OptVal(v),
        Built::ListVal(vs) => BuiltV::ListVal(vs@),
        Built::Val(v) => BuiltV::Val(v),
    }
}

pub open spec fn builts_view(s: Seq<Built>) -> Seq<BuiltV> {
    Seq::new(s.len(), |i: int| built_view(s[i]))
}

/// The first field, in declaration order from position `i` on, that finalize
/// must reject: a plain field whose slot was never set. Optional and
/// each-annotated fields never qualify.
pub open spec fn missing_from(b: BuilderStateV, i: int) -> Option<int>
    decreases b.classes.len() - i,
{
    if i < 0 || i >= b.classes.len() {
        None
    } else if b.classes[i] == FieldClass::Plain && b.slots[i] is Absent {
        Some(i)
    } else {
        missing_from(b, i + 1)
    }
}

/// What finalize yields for one field: an optional field maps its slot to an
/// optional value (never failing), an each-annotated field hands out its
/// accumulated sequence, a plain field hands out its set value.
pub open spec fn built_of(c: FieldClass, s: SlotStateV) -> BuiltV {
    match c {
        FieldClass::Optional => BuiltV::OptVal(
            match s {
                SlotStateV::One(v) => Some(v),
                _ => None,
            },
        ),
        FieldClass::Each => BuiltV::ListVal(
            match s {
                SlotStateV::Many(vs) => vs,
                _ => Seq::empty(),
            },
        ),
        FieldClass::Plain => BuiltV::Val(
            match s {
                SlotStateV::One(v) => v,
                _ => 0,
            },
        ),
    }
}

/// What finalize owes: the name of the first unset plain field in
/// declaration order, or else one finalized value per field.
pub open spec fn build_spec(b: BuilderStateV) -> Result<Seq<BuiltV>, Seq<char>> {
    match missing_from(b, 0) {
        Some(i) => Err(b.names[i]),
        None => Ok(Seq::new(b.classes.len(), |i: int| built_of(b.classes[i], b.slots[i]))),
    }
}

fn copy_u64s(a: &Vec<u64>) -> (r: Vec<u64>)
    ensures
        r@ == a@,
{
    let mut r: Vec<u64> = Vec::new();
    let mut i: usize = 0;
    while i < a.len()
        invariant
            i <= a.len(),
            r@ =~= a@.take(i as int),
        decreases a.len() - i,
    {
        r.push(a[i]);
        i += 1;
    }
    proof {
        assert(r@ =~= a@);
    }
    r
}

impl BuilderState {
    /// The generated factory: a fresh builder whose each-annotated slots hold
    /// the empty sequence and whose other slots are absent.
    pub fn new(classes: Vec<FieldClass>, names: Vec<Vec<char>>) -> (b: BuilderState)
        requires
            classes@.len() == names@.len(),
        ensures
            state_view(b) == init_state(classes@, names_view(names@)),
            state_wf(state_view(b)),
    {
        let mut slots: Vec<SlotState> = Vec::new();
        let mut i: usize = 0;
        while i < classes.len()
            invariant
                i <= classes.len(),
                slots@.len() == i,
                forall|j: int|
                    0 <= j < i ==> slot_state_view(slots@[j]) == (if classes@[j]
                        == FieldClass::Each {
                        SlotStateV::Many(Seq::<u64>::empty())
                    } else {
                        SlotStateV::Absent
                    }),
            decreases classes.len() - i,
        {
            let s = match classes[i] {
                FieldClass::Each => SlotState::Many(Vec::new()),
                _ => SlotState::Absent,
            };
            slots.push(s);
            i += 1;
        }
        let b = BuilderState { classes, names, slots };
        proof {
            assert(state_view(b) =~= init_state(b.classes@, names_view(b.names@)));
        }
        b
    }

    /// The generated setter for an optional or plain field: stores the value,
    /// so that of repeated calls only the last one counts. The generated code
    /// mutates the builder in place and returns it for chaining.
    pub fn set(&mut self, i: usize, v: u64)
        requires
            state_wf(state_view(*old(self))),
            i < old(self).classes@.len(),
            old(self).classes@[i as int] != FieldClass::Each,
        ensures
            state_view(*final(self)) == (BuilderStateV {
                slots: state_view(*old(self)).slots.update(i as int, SlotStateV::One(v)),
                ..state_view(*old(self))
            }),
            state_wf(state_view(*final(self))),
    {
        let m = &mut self.slots[i];
        *m = SlotState::One(v);
        proof {
            assert(state_view(*self) =~= BuilderStateV {
                slots: state_view(*old(self)).slots.update(i as int, SlotStateV::One(v)),
                ..state_view(*old(self))
            });
        }
    }

    /// The generated whole-sequence setter for an each-annotated field whose
    /// accumulator name differs from the field name: replaces the whole
    /// accumulated sequence.
    pub fn set_all(&mut self, i: usize, vs: Vec<u64>)
        requires
            state_wf(state_view(*old(self))),
            i < old(self).classes@.len(),
            old(self).classes@[i as int] == FieldClass::Each,
        ensures
            state_view(*final(self)) == (BuilderStateV {
                slots: state_view(*old(self)).slots.update(i as int, SlotStateV::Many(vs@)),
                ..state_view(*old(self))
            }),
            state_wf(state_view(*final(self))),
    {
        let ghost vsv = vs@;
        let m = &mut self.slots[i];
        *m = SlotState::Many(vs);
        proof {
            assert(state_view(*self) =~= BuilderStateV {
                slots: state_view(*old(self)).slots.update(i as int, SlotStateV::Many(vsv)),
                ..state_view(*old(self))
            });
        }
    }

    /// The generated appender for an each-annotated field: pushes one element
    /// onto the accumulated sequence.
    pub fn append(&mut self, i: usize, v: u64)
        requires
            state_wf(state_view(*old(self))),
            i < old(self).classes@.len(),
            old(self).classes@[i as int] == FieldClass::Each,
        ensures
            state_view(*final(self)) == (BuilderStateV {
                slots: state_view(*old(self)).slots.update(
                    i as int,
                    SlotStateV::Many(state_view(*old(self)).slots[i as int]->Many_0.push(v)),
                ),
                ..state_view(*old(self))
            }),
            state_wf(state_view(*final(self))),
    {
        let m = &mut self.slots[i];
        match m {
            SlotState::Many(vs) => {
                vs.push(v);
            },
            _ => {
                proof {
                    assert(false);
                }
            },
        }
        proof {
            assert(state_view(*self) =~= BuilderStateV {
                slots: state_view(*old(self)).slots.update(
                    i as int,
                    SlotStateV::Many(state_view(*old(self)).slots[i as int]->Many_0.push(v)),
                ),
                ..state_view(*old(self))
            });
        }
    }

    /// The generated finalize operation: walks the fields in declaration
    /// order; an optional field maps its slot to an optional value, an
    /// each-annotated field hands out its accumulated sequence, a plain field
    /// hands out its value or fails with the field's name — the first such
    /// field reported, the rest not looked at.
    pub fn build(&self) -> (r: Result<Vec<Built>, Vec<char>>)
        requires
            state_wf(state_view(*self)),
        ensures
            match r {
                Ok(vals) => build_spec(state_view(*self)) == Ok::<Seq<BuiltV>, Seq<char>>(
                    builts_view(vals@),
                ),
                Err(nm) => build_spec(state_view(*self)) == Err::<Seq<BuiltV>, Seq<char>>(nm@),
            },
    {
        let ghost bv = state_view(*self);
        let mut vals: Vec<Built> = Vec::new();
        let mut i: usize = 0;
        while i < self.classes.len()
            invariant
                i <= self.classes.len(),
                bv == state_view(*self),
                state_wf(bv),
                missing_from(bv, 0) == missing_from(bv, i as int),
                vals@.len() == i,
                forall|j: int|
                    0 <= j < i ==> built_view(vals@[j]) == built_of(bv.classes[j], bv.slots[j]),
            decreases self.classes.len() - i,
        {
            match self.classes[i] {
                FieldClass::Optional => {
                    let b = match &self.slots[i] {
                        SlotState::One(v) => Built::OptVal(Some(*v)),
                        _ => Built::OptVal(None),
                    };
                    vals.push(b);
                },
                FieldClass::Each => {
                    let b = match &self.slots[i] {
                        SlotState::Many(vs) => Built::ListVal(copy_u64s(vs)),
                        _ => Built::ListVal(Vec::new()),
                    };
                    vals.push(b);
                },
                FieldClass::Plain => {
                    match &self.slots[i] {
                        SlotState::One(v) => {
                            vals.push(Built::Val(*v));
                        },
                        _ => {
                            return Err(copy_chars(&self.names[i]));
                        },
                    }
                },
            }
            i += 1;
        }
        proof {
            assert(missing_from(bv, i as int) is None);
            assert(builts_view(vals@) =~= Seq::new(
                bv.classes.len(),
                |j: int| built_of(bv.classes[j], bv.slots[j]),
            ));
        }
        Ok(vals)
    }
}

/// Finalizing a builder whose fields are all plain succeeds exactly when
/// every slot has been set; with the factory starting every such slot
/// absent and the setter being the one operation that fills one, this says:
/// finalize succeeds exactly when every field's setter was called at least
/// once.
pub proof fn lemma_build_all_plain(b: BuilderStateV)
    requires
        state_wf(b),
        forall|i: int| 0 <= i < b.classes.len() ==> b.classes[i] == FieldClass::Plain,
    ensures
        build_spec(b) is Ok <==> (forall|i: int| 0 <= i < b.slots.len() ==> b.slots[i] is One),
{
    lemma_missing_characterized(b, 0);
    if missing_from(b, 0) is Some {
        let k = missing_from(b, 0)->Some_0;
        assert(b.slots[k] is Absent);
    } else {
        assert forall|i: int| 0 <= i < b.slots.len() implies b.slots[i] is One by {
            assert(!(b.classes[i] == FieldClass::Plain && b.slots[i] is Absent));
            assert(!(b.slots[i] is Many));
        }
    }
}

/// Setting the same field twice keeps only the last value: two updates of
/// one slot collapse to the second.
pub proof fn lemma_set_keeps_last(slots: Seq<SlotStateV>, i: int, v1: u64, v2: u64)
    requires
        0 <= i < slots.len(),
    ensures
        slots.update(i, SlotStateV::One(v1)).update(i, SlotStateV::One(v2)) == slots.update(
            i,
            SlotStateV::One(v2),
        ),
{
    assert(slots.update(i, SlotStateV::One(v1)).update(i, SlotStateV::One(v2)) =~= slots.update(
        i,
        SlotStateV::One(v2),
    ));
}

/// What `missing_from` finds, searching from position `i`: the first plain,
/// absent slot at or after `i`, and nothing when there is none.
pub proof fn lemma_missing_characterized(b: BuilderStateV, i: int)
    requires
        0 <= i <= b.classes.len(),
    ensures
        match missing_from(b, i) {
            Some(k) => i <= k < b.classes.len() && b.classes[k] == FieldClass::Plain && b.slots[k]
                is Absent && (forall|j: int|
                i <= j < k ==> !(b.classes[j] == FieldClass::Plain && b.slots[j] is Absent)),
            None => forall|j: int|
                i <= j < b.classes.len() ==> !(b.classes[j] == FieldClass::Plain && b.slots[j]
                    is Absent),
        },
    decreases b.classes.len() - i,
{
    if i < b.classes.len() {
        if !(b.classes[i] == FieldClass::Plain && b.slots[i] is Absent) {
            lemma_missing_characterized(b, i + 1);
        }
    }
}

/// A missing-field failure always names the first plain field, in
/// declaration order, whose slot is still absent; optional and
/// each-annotated fields are never reported.
pub proof fn lemma_missing_names_first(b: BuilderStateV)
    requires
        state_wf(b),
    ensures
        build_spec(b) matches Err(nm) ==> exists|k: int|
            {
                &&& 0 <= k < b.classes.len()
                &&& nm == b.names[k]
                &&& b.classes[k] == FieldClass::Plain
                &&& b.slots[k] is Absent
                &&& forall|j: int|
                    0 <= j < k ==> !(b.classes[j] == FieldClass::Plain && b.slots[j] is Absent)
            },
{
    lemma_missing_characterized(b, 0);
    if missing_from(b, 0) is Some {
        let k = missing_from(b, 0)->Some_0;
        assert(0 <= k < b.classes.len() && b.names[k] == b.names[k]);
    }
}

/// An each-annotated field never causes a missing-field failure, and with no
/// appender call made for it — its slot still the empty sequence the factory
/// gave it — finalize hands back the empty sequence for that field.
pub proof fn lemma_each_never_missing(b: BuilderStateV, i: int)
    requires
        state_wf(b),
        0 <= i < b.classes.len(),
        b.classes[i] == FieldClass::Each,
    ensures
        build_spec(b) matches Err(nm) ==> missing_from(b, 0) != Some(i),
        b.slots[i] == SlotStateV::Many(Seq::<u64>::empty()) && build_spec(b) is Ok
            ==> build_spec(b)->Ok_0[i] == BuiltV::ListVal(Seq::<u64>::empty()),
{
    lemma_missing_characterized(b, 0);
}

} // verus!
