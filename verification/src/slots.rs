//! Storage slots: once a function body is checked, its stored locals get
//! consecutive slots behind the parameters, grouped by type.

use crate::ast::{LocalView, Locals, LocalsView, Type};
use vstd::prelude::*;

verus! {

/// Whether the local at `i` is a stored local of type `t` that is no
/// parameter.
pub open spec fn is_stored(l: LocalsView, i: int, t: Type) -> bool {
    &&& l.params <= i < l.locals.len()
    &&& l.locals[i].index is Some
    &&& l.locals[i].type_ == t
}

/// How many of the locals before `to` are stored locals of type `t`.
pub open spec fn stored_before(l: LocalsView, to: int, t: Type) -> nat
    decreases to,
{
    if to <= l.params || to <= 0 {
        0
    } else if is_stored(l, to - 1, t) {
        stored_before(l, to - 1, t) + 1
    } else {
        stored_before(l, to - 1, t)
    }
}

/// How many stored locals of type `t` there are.
pub open spec fn stored_count(l: LocalsView, t: Type) -> nat {
    stored_before(l, l.locals.len() as int, t)
}

/// How many stored locals there are.
pub open spec fn stored_total(l: LocalsView) -> nat {
    stored_count(l, Type::I32) + stored_count(l, Type::I64) + stored_count(l, Type::F32)
        + stored_count(l, Type::F64)
}

/// How many stored locals have a type that comes before `t` in the order
/// of the types.
pub open spec fn stored_below(l: LocalsView, t: Type) -> nat {
    match t {
        Type::I32 => 0,
        Type::I64 => stored_count(l, Type::I32),
        Type::F32 => stored_count(l, Type::I32) + stored_count(l, Type::I64),
        Type::F64 => stored_count(l, Type::I32) + stored_count(l, Type::I64) + stored_count(
            l,
            Type::F32,
        ),
    }
}

/// The slot of the stored local at `i`: behind the parameters, the stored
/// locals of earlier types, and the earlier stored locals of its own type.
pub open spec fn slot_of(l: LocalsView, i: int) -> nat {
    l.params + stored_below(l, l.locals[i].type_) + stored_before(l, i, l.locals[i].type_)
}

/// The locals with the slots given out: parameters and inline locals stay
/// as they are.
pub open spec fn assign_slots(l: LocalsView) -> LocalsView {
    LocalsView {
        params: l.params,
        locals: Seq::new(
            l.locals.len(),
            |i: int|
                if l.params <= i && l.locals[i].index is Some {
                    LocalView { index: Some(slot_of(l, i) as usize), ..l.locals[i] }
                } else {
                    l.locals[i]
                },
        ),
    }
}

/// The count of stored locals before a position does not fall as the
/// position moves on.
pub proof fn lemma_stored_before_monotone(l: LocalsView, a: int, b: int, t: Type)
    requires
        a <= b,
    ensures
        stored_before(l, a, t) <= stored_before(l, b, t),
    decreases b - a,
{
    if a < b {
        lemma_stored_before_monotone(l, a, b - 1, t);
    }
}

/// A stored local is counted behind the ones before it.
pub proof fn lemma_stored_before_strict(l: LocalsView, i: int, b: int, t: Type)
    requires
        is_stored(l, i, t),
        i < b,
    ensures
        stored_before(l, i, t) < stored_before(l, b, t),
{
    lemma_stored_before_monotone(l, i + 1, b, t);
}

/// Of the locals before `to` that are no parameters, each is counted for
/// at most one type.
pub proof fn lemma_stored_bound(l: LocalsView, to: int)
    requires
        l.params <= to <= l.locals.len(),
    ensures
        stored_before(l, to, Type::I32) + stored_before(l, to, Type::I64) + stored_before(
            l,
            to,
            Type::F32,
        ) + stored_before(l, to, Type::F64) <= to - l.params,
    decreases to,
{
    if to > l.params {
        lemma_stored_bound(l, to - 1);
    }
}

/// A stored local's slot lies behind the parameters and within the stored
/// locals.
pub proof fn lemma_slot_in_range(l: LocalsView, i: int)
    requires
        l.params <= i < l.locals.len(),
        l.locals[i].index is Some,
    ensures
        l.params <= slot_of(l, i) < l.params + stored_total(l),
        l.params + stored_total(l) <= l.locals.len(),
{
    let t = l.locals[i].type_;
    lemma_stored_before_strict(l, i, l.locals.len() as int, t);
    lemma_stored_bound(l, l.locals.len() as int);
}

/// Stored locals of an earlier type have lower slots, and of two stored
/// locals of one type the earlier has the lower slot.
pub proof fn lemma_slot_order(l: LocalsView, i: int, j: int)
    requires
        l.params <= i < l.locals.len(),
        l.params <= j < l.locals.len(),
        l.locals[i].index is Some,
        l.locals[j].index is Some,
        l.locals[i].type_.rank() < l.locals[j].type_.rank() || (l.locals[i].type_
            == l.locals[j].type_ && i < j),
    ensures
        slot_of(l, i) < slot_of(l, j),
{
    let ti = l.locals[i].type_;
    let tj = l.locals[j].type_;
    if ti == tj {
        lemma_stored_before_strict(l, i, j, ti);
    } else {
        lemma_stored_before_strict(l, i, l.locals.len() as int, ti);
    }
}

/// If more than `k` stored locals of type `t` stand before `to`, one of
/// them has exactly `k` of them before it.
pub proof fn lemma_stored_nth(l: LocalsView, to: int, t: Type, k: nat) -> (i: int)
    requires
        to <= l.locals.len(),
        k < stored_before(l, to, t),
    ensures
        is_stored(l, i, t),
        i < to,
        stored_before(l, i, t) == k,
    decreases to,
{
    if k < stored_before(l, to - 1, t) {
        lemma_stored_nth(l, to - 1, t, k)
    } else {
        to - 1
    }
}

/// Every slot from the parameter count up to the number of stored locals
/// behind it belongs to a stored local.
pub proof fn lemma_slot_taken(l: LocalsView, slot: nat) -> (i: int)
    requires
        l.params <= slot < l.params + stored_total(l),
    ensures
        l.params <= i < l.locals.len(),
        l.locals[i].index is Some,
        slot_of(l, i) == slot,
{
    let k = (slot - l.params) as nat;
    let n = l.locals.len() as int;
    let c32 = stored_count(l, Type::I32);
    let c64 = stored_count(l, Type::I64);
    let cf32 = stored_count(l, Type::F32);
    if k < c32 {
        lemma_stored_nth(l, n, Type::I32, k)
    } else if k < c32 + c64 {
        lemma_stored_nth(l, n, Type::I64, (k - c32) as nat)
    } else if k < c32 + c64 + cf32 {
        lemma_stored_nth(l, n, Type::F32, (k - c32 - c64) as nat)
    } else {
        lemma_stored_nth(l, n, Type::F64, (k - c32 - c64 - cf32) as nat)
    }
}

/// The slots that stored locals behind the parameters have.
pub open spec fn slots_taken(a: LocalsView) -> Set<usize> {
    Set::new(
        |slot: usize|
            exists|i: int|
                a.params <= i < a.locals.len() && (#[trigger] a.locals[i]).index == Some(slot),
    )
}

/// The parameters sit in the slots of their positions, and the stored
/// locals behind them occupy exactly the slots from the parameter count on,
/// one each, a local of an earlier type in a lower slot than one of a later
/// type.
pub open spec fn slots_packed(a: LocalsView) -> bool {
    &&& a.wf()
    &&& slots_taken(a) == Set::new(|slot: usize| a.params <= slot < a.params + stored_total(a))
    &&& forall|i: int, j: int|
        #![trigger a.locals[i], a.locals[j]]
        a.params <= i < a.locals.len() && a.params <= j < a.locals.len() && i != j
            && a.locals[i].index is Some ==> a.locals[i].index != a.locals[j].index
    &&& forall|i: int, j: int|
        #![trigger a.locals[i], a.locals[j]]
        a.params <= i < a.locals.len() && a.params <= j < a.locals.len()
            && a.locals[i].index is Some && a.locals[j].index is Some
            && a.locals[i].type_.rank() < a.locals[j].type_.rank() ==> a.locals[i].index.unwrap()
            < a.locals[j].index.unwrap()
}

proof fn lemma_assign_keeps_stored(l: LocalsView, to: int, t: Type)
    requires
        to <= l.locals.len(),
    ensures
        stored_before(assign_slots(l), to, t) == stored_before(l, to, t),
    decreases to,
{
    if to > l.params && to > 0 {
        lemma_assign_keeps_stored(l, to - 1, t);
    }
}

/// Giving out the slots packs them. Inline locals stay without a slot.
pub proof fn lemma_slots_packed(l: LocalsView)
    requires
        l.wf(),
        l.locals.len() <= usize::MAX,
    ensures
        slots_packed(assign_slots(l)),
        forall|i: int|
            0 <= i < l.locals.len() ==> ((#[trigger] assign_slots(l).locals[i]).index is None
                <==> l.locals[i].index is None),
{
    let a = assign_slots(l);
    let n = l.locals.len() as int;
    lemma_assign_keeps_stored(l, n, Type::I32);
    lemma_assign_keeps_stored(l, n, Type::I64);
    lemma_assign_keeps_stored(l, n, Type::F32);
    lemma_assign_keeps_stored(l, n, Type::F64);
    assert(stored_total(a) == stored_total(l));
    assert forall|i: int| l.params <= i < l.locals.len() && l.locals[i].index is Some implies (
    #[trigger] a.locals[i]).index == Some(slot_of(l, i) as usize) && slot_of(l, i) <= usize::MAX by {
        lemma_slot_in_range(l, i);
    }
    assert forall|i: int, j: int|
        #![trigger a.locals[i], a.locals[j]]
        a.params <= i < a.locals.len() && a.params <= j < a.locals.len() && i != j
            && a.locals[i].index is Some implies a.locals[i].index != a.locals[j].index by {
        if l.locals[j].index is Some {
            let ti = l.locals[i].type_;
            let tj = l.locals[j].type_;
            if ti.rank() < tj.rank() || (ti == tj && i < j) {
                lemma_slot_order(l, i, j);
            } else {
                lemma_slot_order(l, j, i);
            }
        }
    }
    assert forall|i: int, j: int|
        #![trigger a.locals[i], a.locals[j]]
        a.params <= i < a.locals.len() && a.params <= j < a.locals.len()
            && a.locals[i].index is Some && a.locals[j].index is Some
            && a.locals[i].type_.rank() < a.locals[j].type_.rank() implies a.locals[i].index.unwrap()
        < a.locals[j].index.unwrap() by {
        lemma_slot_order(l, i, j);
    }
    let range = Set::new(|slot: usize| a.params <= slot < a.params + stored_total(a));
    assert forall|slot: usize| slots_taken(a).contains(slot) implies range.contains(slot) by {
        let i = choose|i: int|
            a.params <= i < a.locals.len() && (#[trigger] a.locals[i]).index == Some(slot);
        lemma_slot_in_range(l, i);
    }
    assert forall|slot: usize| range.contains(slot) implies slots_taken(a).contains(slot) by {
        let i = lemma_slot_taken(l, slot as nat);
        lemma_slot_in_range(l, i);
        assert(a.locals[i].index == Some(slot));
    }
    assert(slots_taken(a) =~= range);
}

impl Locals {
    /// How many stored locals of each type there are, in the order of the
    /// types.
    fn count_stored(&self) -> (c: (usize, usize, usize, usize))
        requires
            self@.wf(),
        ensures
            c.0 == stored_count(self@, Type::I32),
            c.1 == stored_count(self@, Type::I64),
            c.2 == stored_count(self@, Type::F32),
            c.3 == stored_count(self@, Type::F64),
    {
        let mut c32: usize = 0;
        let mut c64: usize = 0;
        let mut cf32: usize = 0;
        let mut cf64: usize = 0;
        let mut i: usize = self.params;
        while i < self.locals.len()
            invariant
                self@.params <= i <= self@.locals.len(),
                c32 == stored_before(self@, i as int, Type::I32),
                c64 == stored_before(self@, i as int, Type::I64),
                cf32 == stored_before(self@, i as int, Type::F32),
                cf64 == stored_before(self@, i as int, Type::F64),
            decreases self.locals.len() - i,
        {
            proof {
                lemma_stored_bound(self@, i as int + 1);
            }
            if self.locals[i].index.is_some() {
                match self.locals[i].type_ {
                    Type::I32 => {
                        c32 += 1;
                    },
                    Type::I64 => {
                        c64 += 1;
                    },
                    Type::F32 => {
                        cf32 += 1;
                    },
                    Type::F64 => {
                        cf64 += 1;
                    },
                }
            }
            i += 1;
        }
        (c32, c64, cf32, cf64)
    }

    /// Gives the stored locals behind the parameters their slots: from the
    /// parameter count on, grouped by type in the order of the types, and
    /// within a type in the order of declaration.
    pub fn assign_slots(&mut self)
        requires
            old(self)@.wf(),
        ensures
            final(self)@ == assign_slots(old(self)@),
    {
        let (c32, c64, cf32, cf64) = self.count_stored();
        let ghost l = self@;
        proof {
            lemma_stored_bound(l, l.locals.len() as int);
            assert(l.params + c32 + c64 + cf32 + cf64 <= self.locals.len());
        }
        let base64: usize = self.params + c32;
        let basef32: usize = base64 + c64;
        let basef64: usize = basef32 + cf32;
        let mut n32: usize = 0;
        let mut n64: usize = 0;
        let mut nf32: usize = 0;
        let mut nf64: usize = 0;
        let mut i: usize = self.params;
        while i < self.locals.len()
            invariant
                l == old(self)@,
                l.wf(),
                self@.params == l.params,
                self@.locals.len() == l.locals.len(),
                l.params <= i <= l.locals.len(),
                c32 == stored_count(l, Type::I32),
                c64 == stored_count(l, Type::I64),
                cf32 == stored_count(l, Type::F32),
                cf64 == stored_count(l, Type::F64),
                base64 == l.params + c32,
                basef32 == base64 + c64,
                basef64 == basef32 + cf32,
                n32 == stored_before(l, i as int, Type::I32),
                n64 == stored_before(l, i as int, Type::I64),
                nf32 == stored_before(l, i as int, Type::F32),
                nf64 == stored_before(l, i as int, Type::F64),
                forall|j: int| 0 <= j < i ==> self@.locals[j] == assign_slots(l).locals[j],
                forall|j: int| i <= j < l.locals.len() ==> self@.locals[j] == l.locals[j],
            decreases self.locals.len() - i,
        {
            proof {
                lemma_stored_bound(l, i as int + 1);
                if l.locals[i as int].index is Some {
                    lemma_slot_in_range(l, i as int);
                }
            }
            let ghost before = self@;
            if self.locals[i].index.is_some() {
                let slot = match self.locals[i].type_ {
                    Type::I32 => {
                        n32 += 1;
                        self.params + (n32 - 1)
                    },
                    Type::I64 => {
                        n64 += 1;
                        base64 + (n64 - 1)
                    },
                    Type::F32 => {
                        nf32 += 1;
                        basef32 + (nf32 - 1)
                    },
                    Type::F64 => {
                        nf64 += 1;
                        basef64 + (nf64 - 1)
                    },
                };
                self.locals[i].index = Some(slot);
                proof {
                    assert(slot == slot_of(l, i as int));
                    assert(self@.locals[i as int] == assign_slots(l).locals[i as int]);
                    assert forall|j: int| 0 <= j < i implies self@.locals[j] == assign_slots(
                        l,
                    ).locals[j] by {
                        assert(self@.locals[j] == before.locals[j]);
                    }
                }
            }
            i += 1;
        }
        proof {
            assert(self@.locals =~= assign_slots(l).locals);
        }
    }
}

} // verus!
