//! What the derived conversions do to values: the meaning of a view's
//! conversions and of a patch's two operations, on values laid out like
//! the original declaration.
//!
//! A value of a record is the sequence of the values of its fields, in the
//! order of the declaration. A value of a tagged union is the index of its
//! variant and what the variant carries. What a field holds is left open:
//! the operations only move it.

use vstd::prelude::*;
use crate::args::SpecAttrArgs;
use crate::decl::{lemma_selected, selected, SpecDeclaration};
use crate::patch::{
    flags_at, lemma_steps_cover, names_member, patch_of, steps_cover, PatchModel, SpecPatchField,
    SpecPatchModel, SpecPatchStep,
};
use crate::view::field_kept;
use crate::policy::OptionType;
use crate::view::{Conversions, SpecConversions, SpecViewModel, ViewModel};

verus! {

/// A value of a declaration or of a view of it.
#[derive(Debug, PartialEq, Eq)]
pub enum Value<T> {
    /// Of a record: the values of its fields, in order.
    Record(Vec<T>),
    /// Of a tagged union: the index of the variant among the variants of
    /// the type, and what it carries.
    Variant(usize, Vec<T>),
}

/// The mathematical value of a [`Value`].
pub ghost enum SpecValue<T> {
    Record(Seq<T>),
    Variant(usize, Seq<T>),
}

impl<T> View for Value<T> {
    type V = SpecValue<T>;

    open spec fn view(&self) -> SpecValue<T> {
        match self {
            Value::Record(fields) => SpecValue::Record(fields@),
            Value::Variant(index, payload) => SpecValue::Variant(*index, payload@),
        }
    }
}

/// The items of `v` in reverse order.
pub fn reversed<T>(v: Vec<T>) -> (r: Vec<T>)
    ensures
        r@ == v@.reverse(),
{
    let ghost all = v@;
    let mut rest = v;
    let mut out: Vec<T> = Vec::new();
    while rest.len() > 0
        invariant
            rest@ == all.subrange(0, rest.len() as int),
            rest.len() <= all.len(),
            out.len() == all.len() - rest.len(),
            forall|k: int| 0 <= k < out.len() ==> out@[k] == all[all.len() - 1 - k],
        decreases rest.len(),
    {
        match rest.pop() {
            Some(x) => {
                out.push(x);
            },
            None => {},
        }
    }
    out
}

/// Whether `indices` rise strictly and stay below `n`: they pick members
/// of a declaration of `n` members, in its order.
pub open spec fn indices_fit(indices: Seq<usize>, n: nat) -> bool {
    &&& forall|k: int| 0 <= k < indices.len() ==> (#[trigger] indices[k]) < n
    &&& forall|j: int, k: int| 0 <= j < k < indices.len() ==> indices[j] < indices[k]
}

/// The values of `value` at `indices`, in that order.
pub open spec fn projected<T>(indices: Seq<usize>, value: Seq<T>) -> Seq<T> {
    Seq::new(indices.len(), |k: int| value[indices[k] as int])
}

/// Whether `indices` rise strictly and stay below `n`.
pub fn check_indices(indices: &Vec<usize>, n: usize) -> (r: bool)
    ensures
        r == indices_fit(indices@, n as nat),
{
    let mut k: usize = 0;
    while k < indices.len()
        invariant
            k <= indices.len(),
            forall|j: int| 0 <= j < k ==> (#[trigger] indices@[j]) < n,
            forall|i: int, j: int| 0 <= i < j < k ==> indices@[i] < indices@[j],
        decreases indices.len() - k,
    {
        if indices[k] >= n {
            return false;
        }
        if k > 0 && indices[k - 1] >= indices[k] {
            return false;
        }
        k += 1;
    }
    true
}

/// Strictly rising indices below `n` number at most `n`, and each is at
/// least its own place.
pub proof fn lemma_indices_bound(indices: Seq<usize>, n: nat)
    requires
        indices_fit(indices, n),
    ensures
        indices.len() <= n,
        forall|k: int| 0 <= k < indices.len() ==> k <= #[trigger] indices[k],
    decreases indices.len(),
{
    if indices.len() > 0 {
        let head = indices.drop_last();
        lemma_indices_bound(head, n);
        let last = indices.len() - 1;
        if last > 0 {
            assert(head[last - 1] == indices[last - 1]);
            assert(indices[last - 1] < indices[last]);
        }
        assert forall|k: int| 0 <= k < indices.len() implies k <= #[trigger] indices[k] by {
            if k < last {
                assert(head[k] == indices[k]);
            }
        }
    }
}

/// Strictly rising indices below `n` that number `n` are `0, 1, ...`.
pub proof fn lemma_indices_full(indices: Seq<usize>, n: nat)
    requires
        indices_fit(indices, n),
        indices.len() == n,
    ensures
        forall|k: int| 0 <= k < n ==> #[trigger] indices[k] == k,
    decreases n,
{
    if n > 0 {
        lemma_indices_bound(indices, n);
        let head = indices.drop_last();
        let last = n - 1;
        assert(indices[last] == last);
        lemma_indices_full(head, last as nat);
        assert forall|k: int| 0 <= k < n implies #[trigger] indices[k] == k by {
            if k < last {
                assert(head[k] == indices[k]);
            }
        }
    }
}

/// Takes the values at `indices` out of `value`, in that order. `None`
/// where the indices do not rise strictly or do not stay below the length
/// of `value`.
pub fn project<T>(indices: &Vec<usize>, value: Vec<T>) -> (r: Option<Vec<T>>)
    ensures
        match r {
            Some(v) => indices_fit(indices@, value@.len()) && v@ == projected(indices@, value@),
            None => !indices_fit(indices@, value@.len()),
        },
{
    let n = value.len();
    if !check_indices(indices, n) {
        return None;
    }
    let ghost all = value@;
    let mut rest = reversed(value);
    let mut out: Vec<T> = Vec::new();
    let mut k: usize = 0;
    let mut i: usize = 0;
    while i < n
        invariant
            i <= n,
            n == all.len(),
            k <= indices.len(),
            indices_fit(indices@, n as nat),
            rest@ == all.reverse().subrange(0, n - i),
            out.len() == k,
            forall|j: int| 0 <= j < k ==> out@[j] == all[indices@[j] as int],
            forall|j: int| 0 <= j < k ==> (#[trigger] indices@[j]) < i,
            k < indices.len() ==> indices@[k as int] >= i,
        decreases n - i,
    {
        let item = rest.pop();
        if k < indices.len() && indices[k] == i {
            match item {
                Some(x) => {
                    out.push(x);
                },
                None => {},
            }
            k += 1;
        }
        i += 1;
    }
    Some(out)
}

/// The index in `indices` of the first entry that is `i`, or
/// `indices.len()` where none is.
pub open spec fn place_of(indices: Seq<usize>, i: usize) -> int
    decreases indices.len(),
{
    if indices.len() == 0 {
        0
    } else if indices[0] == i {
        0
    } else {
        1 + place_of(indices.drop_first(), i)
    }
}

/// `place_of` is the least place that holds `i`.
pub proof fn lemma_place_of(indices: Seq<usize>, i: usize)
    ensures
        0 <= place_of(indices, i) <= indices.len(),
        place_of(indices, i) < indices.len() ==> indices[place_of(indices, i)] == i,
        forall|k: int| 0 <= k < place_of(indices, i) ==> indices[k] != i,
    decreases indices.len(),
{
    if indices.len() > 0 && indices[0] != i {
        let tail = indices.drop_first();
        lemma_place_of(tail, i);
        assert forall|k: int| 0 <= k < place_of(indices, i) implies indices[k] != i by {
            if k > 0 {
                assert(indices[k] == tail[k - 1]);
            }
        }
    }
}

/// The index in `indices` of the first entry that is `i`.
pub fn find_place(indices: &Vec<usize>, i: usize) -> (r: usize)
    ensures
        r == place_of(indices@, i),
        r <= indices.len(),
{
    let mut k: usize = 0;
    while k < indices.len()
        invariant
            k <= indices.len(),
            forall|j: int| 0 <= j < k ==> indices@[j] != i,
        decreases indices.len() - k,
    {
        if indices[k] == i {
            proof {
                lemma_place_of(indices@, i);
            }
            return k;
        }
        k += 1;
    }
    proof {
        lemma_place_of(indices@, i);
    }
    k
}

/// Which member of the original each member of `view` repeats.
pub open spec fn view_indices(view: SpecViewModel) -> Seq<usize> {
    Seq::new(view.members.len(), |k: int| view.members[k].index)
}

/// The value of `view` that the value `original` of the original converts
/// to. Of a record, the values of the fields that the view keeps. Of a
/// tagged union, the same variant with what it carries, where the view has
/// that variant; the conversion is refused for every other variant.
pub open spec fn view_value<T>(view: SpecViewModel, original: SpecValue<T>) -> Option<
    SpecValue<T>,
> {
    match original {
        SpecValue::Record(fields) => if view.is_struct && indices_fit(
            view_indices(view),
            fields.len(),
        ) {
            Some(SpecValue::Record(projected(view_indices(view), fields)))
        } else {
            None
        },
        SpecValue::Variant(index, payload) => if !view.is_struct && place_of(
            view_indices(view),
            index,
        ) < view.members.len() {
            Some(SpecValue::Variant(place_of(view_indices(view), index) as usize, payload))
        } else {
            None
        },
    }
}

/// The value of the original that the value `derived` of `view` converts
/// back to, where the original has `members` members. Of a record, there
/// is a way back only from a view that keeps every field: the value
/// itself. Of a tagged union, the same variant with what it carries, where
/// the view has arms that lead back.
pub open spec fn original_value<T>(view: SpecViewModel, derived: SpecValue<T>, members: nat)
    -> Option<SpecValue<T>> {
    match derived {
        SpecValue::Record(fields) => if view.is_struct && view.members.len() == members
            && fields.len() == members && indices_fit(view_indices(view), members) {
            Some(SpecValue::Record(fields))
        } else {
            None
        },
        SpecValue::Variant(index, payload) => if !view.is_struct && index < view.members.len()
            && (view.conversions matches SpecConversions::Union { into_original, .. }
            && into_original is Ok) {
            Some(SpecValue::Variant(view.members[index as int].index, payload))
        } else {
            None
        },
    }
}

impl ViewModel {
    /// Which member of the original each member repeats.
    pub fn member_indices(&self) -> (r: Vec<usize>)
        ensures
            r@ == view_indices(self.deep_view()),
    {
        let mut out: Vec<usize> = Vec::new();
        let mut k: usize = 0;
        while k < self.members.len()
            invariant
                k <= self.members.len(),
                out.len() == k,
                forall|j: int| 0 <= j < k ==> out@[j] == self.members@[j].index,
            decreases self.members.len() - k,
        {
            out.push(self.members[k].index);
            k += 1;
        }
        out
    }

    /// Converts a value of the original into a value of this view.
    pub fn view_from<T>(&self, original: Value<T>) -> (r: Option<Value<T>>)
        ensures
            match view_value(self.deep_view(), original@) {
                Some(value) => r matches Some(v) && v@ == value,
                None => r is None,
            },
    {
        let indices = self.member_indices();
        match original {
            Value::Record(fields) => {
                if !self.is_struct {
                    return None;
                }
                match project(&indices, fields) {
                    Some(kept) => Some(Value::Record(kept)),
                    None => None,
                }
            },
            Value::Variant(index, payload) => {
                if self.is_struct {
                    return None;
                }
                let place = find_place(&indices, index);
                if place < indices.len() {
                    Some(Value::Variant(place, payload))
                } else {
                    None
                }
            },
        }
    }

    /// Converts a value of this view back into a value of the original,
    /// which has `members` members.
    pub fn original_from<T>(&self, derived: Value<T>, members: usize) -> (r: Option<Value<T>>)
        ensures
            match original_value(self.deep_view(), derived@, members as nat) {
                Some(value) => r matches Some(v) && v@ == value,
                None => r is None,
            },
    {
        match derived {
            Value::Record(fields) => {
                let indices = self.member_indices();
                if self.is_struct && self.members.len() == members && fields.len() == members
                    && check_indices(&indices, members) {
                    Some(Value::Record(fields))
                } else {
                    None
                }
            },
            Value::Variant(index, payload) => {
                if self.is_struct || index >= self.members.len() {
                    return None;
                }
                match &self.conversions {
                    Conversions::Union { into_original: Ok(_), .. } => Some(
                        Value::Variant(self.members[index].index, payload),
                    ),
                    _ => None,
                }
            },
        }
    }
}

/// Whether `value` is laid out like a declaration of `members` members: a
/// record has that many fields, a variant is one of that many.
pub open spec fn laid_out<T>(value: SpecValue<T>, members: nat) -> bool {
    match value {
        SpecValue::Record(fields) => fields.len() == members,
        SpecValue::Variant(index, _) => index < members,
    }
}

/// A value that went to a view comes back as it was: where a value of the
/// original converts to a value of the view, and that one converts back,
/// the result is the value of the original.
pub proof fn lemma_round_trip<T>(view: SpecViewModel, original: SpecValue<T>, members: nat)
    requires
        view.members.len() <= usize::MAX,
        laid_out(original, members),
        view_value(view, original) is Some,
        original_value(view, view_value(view, original)->0, members) is Some,
    ensures
        original_value(view, view_value(view, original)->0, members) == Some(original),
{
    let indices = view_indices(view);
    match original {
        SpecValue::Record(fields) => {
            lemma_indices_full(indices, members);
            assert(projected(indices, fields) =~= fields);
        },
        SpecValue::Variant(index, payload) => {
            lemma_place_of(indices, index);
        },
    }
}

/// From a view that keeps every member, there is a way back for every
/// value: a view of a record that keeps all its `members` fields, or a
/// view of a tagged union that keeps all its `members` variants and has
/// the arms that lead back, converts every value of the original, and
/// converts the result back into that value.
pub proof fn lemma_full_round_trip<T>(view: SpecViewModel, original: SpecValue<T>, members: nat)
    requires
        members <= usize::MAX,
        indices_fit(view_indices(view), members),
        view.members.len() == members,
        match original {
            SpecValue::Record(fields) => view.is_struct && fields.len() == members,
            SpecValue::Variant(index, _) => !view.is_struct && index < members
                && (view.conversions matches SpecConversions::Union { into_original, .. }
                && into_original is Ok),
        },
    ensures
        view_value(view, original) is Some,
        original_value(view, view_value(view, original)->0, members) == Some(original),
{
    let indices = view_indices(view);
    lemma_indices_full(indices, members);
    match original {
        SpecValue::Record(fields) => {
            assert(projected(indices, fields) =~= fields);
        },
        SpecValue::Variant(index, payload) => {
            lemma_place_of(indices, index);
            assert(indices[index as int] == index);
        },
    }
}

/// What a field of a record holds, as far as a patch has to know: a value,
/// or, where the field is declared optional, a value or none.
#[derive(Debug, PartialEq, Eq)]
pub enum Slot<T> {
    Plain(T),
    Optional(Option<T>),
}

/// The three states of a member of a patch whose field is optional.
#[derive(Debug, PartialEq, Eq)]
pub enum MaybeUndefined<T> {
    /// Not mentioned: the field stays as it is.
    Undefined,
    /// Cleared: the field is to hold nothing.
    Null,
    /// Set: the field is to hold this value.
    Value(T),
}

/// What a member of a patch holds.
#[derive(Debug, PartialEq, Eq)]
pub enum PatchSlot<T> {
    /// The plain wrapper: absent for no change, else what the field is to hold.
    Option(Option<Slot<T>>),
    /// The three-state wrapper.
    MaybeUndefined(MaybeUndefined<T>),
}

impl<T: Clone> Clone for Value<T> {
    fn clone(&self) -> Self {
        match self {
            Value::Record(fields) => Value::Record(fields.clone()),
            Value::Variant(index, payload) => Value::Variant(*index, payload.clone()),
        }
    }
}

impl<T: Clone> Clone for Slot<T> {
    fn clone(&self) -> Self {
        match self {
            Slot::Plain(v) => Slot::Plain(v.clone()),
            Slot::Optional(Some(v)) => Slot::Optional(Some(v.clone())),
            Slot::Optional(None) => Slot::Optional(None),
        }
    }
}

impl<T: Clone> Clone for MaybeUndefined<T> {
    fn clone(&self) -> Self {
        match self {
            MaybeUndefined::Undefined => MaybeUndefined::Undefined,
            MaybeUndefined::Null => MaybeUndefined::Null,
            MaybeUndefined::Value(v) => MaybeUndefined::Value(v.clone()),
        }
    }
}

impl<T: Clone> Clone for PatchSlot<T> {
    fn clone(&self) -> Self {
        match self {
            PatchSlot::Option(Some(v)) => PatchSlot::Option(Some(v.clone())),
            PatchSlot::Option(None) => PatchSlot::Option(None),
            PatchSlot::MaybeUndefined(m) => PatchSlot::MaybeUndefined(m.clone()),
        }
    }
}

/// Of the three states, one and only one holds.
pub proof fn lemma_three_states<T>(m: MaybeUndefined<T>)
    ensures
        m is Undefined || m is Null || m is Value,
        !(m is Undefined && m is Null),
        !(m is Undefined && m is Value),
        !(m is Null && m is Value),
{
}

impl<T> PatchSlot<T> {
    /// Whether the member asks for no change.
    pub open spec fn is_silent(self) -> bool {
        self == PatchSlot::<T>::Option(None) || self == PatchSlot::<T>::MaybeUndefined(
            MaybeUndefined::Undefined,
        )
    }

    /// What a field that held `before` holds after this member was merged
    /// into it. Plain wrapper: a present value overwrites, an absent one
    /// leaves. Three states: not mentioned leaves, cleared empties, set
    /// overwrites.
    pub open spec fn effect(self, before: Slot<T>) -> Slot<T> {
        match self {
            PatchSlot::Option(None) => before,
            PatchSlot::Option(Some(v)) => v,
            PatchSlot::MaybeUndefined(MaybeUndefined::Undefined) => before,
            PatchSlot::MaybeUndefined(MaybeUndefined::Null) => Slot::Optional(None),
            PatchSlot::MaybeUndefined(MaybeUndefined::Value(v)) => Slot::Optional(Some(v)),
        }
    }
}

/// `target` after the member `slot` was merged into its field `index`. A
/// member for a field that `target` has not changes nothing.
pub open spec fn applied<T>(target: Seq<Slot<T>>, index: usize, slot: PatchSlot<T>) -> Seq<
    Slot<T>,
> {
    if index < target.len() {
        target.update(index as int, slot.effect(target[index as int]))
    } else {
        target
    }
}

/// `target` after the first `n` members of `patch` were merged into it,
/// the member in the place `k` into the field `indices[k]`.
pub open spec fn merged_upto<T>(
    indices: Seq<usize>,
    patch: Seq<PatchSlot<T>>,
    target: Seq<Slot<T>>,
    n: nat,
) -> Seq<Slot<T>>
    decreases n,
{
    if n == 0 {
        target
    } else {
        applied(
            merged_upto(indices, patch, target, (n - 1) as nat),
            indices[n - 1],
            patch[n - 1],
        )
    }
}

/// How many members of `patch` have a field to go to.
pub open spec fn paired<T>(indices: Seq<usize>, patch: Seq<PatchSlot<T>>) -> nat {
    if indices.len() <= patch.len() {
        indices.len()
    } else {
        patch.len()
    }
}

/// `target` after `patch` was merged into it.
pub open spec fn merged<T>(indices: Seq<usize>, patch: Seq<PatchSlot<T>>, target: Seq<Slot<T>>)
    -> Seq<Slot<T>> {
    merged_upto(indices, patch, target, paired(indices, patch))
}

/// Which field of the original each member of `patch` is for.
pub open spec fn patch_indices(patch: SpecPatchModel) -> Seq<usize> {
    Seq::new(patch.fields.len(), |k: int| patch.fields[k].index)
}

/// Merging leaves the number of fields as it is.
pub proof fn lemma_merged_len<T>(
    indices: Seq<usize>,
    patch: Seq<PatchSlot<T>>,
    target: Seq<Slot<T>>,
    n: nat,
)
    ensures
        merged_upto(indices, patch, target, n).len() == target.len(),
    decreases n,
{
    if n > 0 {
        lemma_merged_len(indices, patch, target, (n - 1) as nat);
    }
}

/// A patch that mentions nothing changes nothing: where every member is
/// absent or not mentioned, the target comes out as it went in.
pub proof fn lemma_merge_nothing<T>(
    indices: Seq<usize>,
    patch: Seq<PatchSlot<T>>,
    target: Seq<Slot<T>>,
    n: nat,
)
    requires
        n <= patch.len(),
        forall|k: int| 0 <= k < patch.len() ==> (#[trigger] patch[k]).is_silent(),
    ensures
        merged_upto(indices, patch, target, n) == target,
        n == paired(indices, patch) ==> merged(indices, patch, target) == target,
    decreases n,
{
    if n > 0 {
        lemma_merge_nothing(indices, patch, target, (n - 1) as nat);
    }
}

/// Merging goes field by field. Where each member of the patch has its own
/// field of the target, the field of the member `k` holds afterwards what
/// the member's state says, and every field that no member is for holds
/// what it held.
pub proof fn lemma_merge_fieldwise<T>(
    indices: Seq<usize>,
    patch: Seq<PatchSlot<T>>,
    target: Seq<Slot<T>>,
    n: nat,
)
    requires
        indices_fit(indices, target.len()),
        n <= indices.len(),
        n <= patch.len(),
    ensures
        merged_upto(indices, patch, target, n).len() == target.len(),
        forall|k: int|
            0 <= k < n ==> merged_upto(indices, patch, target, n)[(#[trigger] indices[k]) as int]
                == patch[k].effect(target[indices[k] as int]),
        forall|i: int|
            0 <= i < target.len() && (forall|k: int| 0 <= k < n ==> indices[k] != i)
                ==> #[trigger] merged_upto(indices, patch, target, n)[i] == target[i],
    decreases n,
{
    if n > 0 {
        let m = (n - 1) as nat;
        lemma_merge_fieldwise(indices, patch, target, m);
    }
}

/// `target` after the first `n` of `steps` were carried out, in their
/// order: each merges the member that it names into that member's field.
pub open spec fn stepped<T>(
    steps: Seq<SpecPatchStep>,
    indices: Seq<usize>,
    patch: Seq<PatchSlot<T>>,
    target: Seq<Slot<T>>,
    n: nat,
) -> Seq<Slot<T>>
    decreases n,
{
    if n == 0 {
        target
    } else {
        let before = stepped(steps, indices, patch, target, (n - 1) as nat);
        let member = steps[n - 1].member;
        if member < indices.len() && member < patch.len() {
            applied(before, indices[member as int], patch[member as int])
        } else {
            before
        }
    }
}

/// Steps that are about distinct members change each member's field as the
/// member says, and no other field.
proof fn lemma_stepped_fieldwise<T>(
    steps: Seq<SpecPatchStep>,
    indices: Seq<usize>,
    patch: Seq<PatchSlot<T>>,
    target: Seq<Slot<T>>,
    n: nat,
)
    requires
        indices_fit(indices, target.len()),
        patch.len() == indices.len(),
        n <= steps.len(),
        forall|j: int| 0 <= j < steps.len() ==> (#[trigger] steps[j]).member < indices.len(),
        forall|i: int, j: int|
            0 <= i < j < steps.len() ==> (#[trigger] steps[i]).member != (
            #[trigger] steps[j]).member,
    ensures
        stepped(steps, indices, patch, target, n).len() == target.len(),
        forall|j: int|
            0 <= j < n ==> stepped(steps, indices, patch, target, n)[indices[(
            #[trigger] steps[j]).member as int] as int] == patch[steps[j].member as int].effect(
                target[indices[steps[j].member as int] as int],
            ),
        forall|i: int|
            0 <= i < target.len() && (forall|j: int|
                0 <= j < n ==> indices[(#[trigger] steps[j]).member as int] != i)
                ==> #[trigger] stepped(steps, indices, patch, target, n)[i] == target[i],
    decreases n,
{
    if n > 0 {
        let m = (n - 1) as nat;
        lemma_stepped_fieldwise(steps, indices, patch, target, m);
        let before = stepped(steps, indices, patch, target, m);
        let after = stepped(steps, indices, patch, target, n);
        let member = steps[n - 1].member;
        let index = indices[member as int];
        assert forall|j: int| 0 <= j < m implies indices[(#[trigger] steps[j]).member as int]
            != index by {
            let other = steps[j].member;
            assert(other != member);
            if other < member {
                assert(indices[other as int] < indices[member as int]);
            } else {
                assert(indices[member as int] < indices[other as int]);
            }
        }
        assert(before[index as int] == target[index as int]);
        assert forall|j: int| 0 <= j < n implies after[indices[(
        #[trigger] steps[j]).member as int] as int] == patch[steps[j].member as int].effect(
            target[indices[steps[j].member as int] as int],
        ) by {
            if j < m {
                assert(indices[steps[j].member as int] != index);
            }
        }
        assert forall|i: int|
            0 <= i < target.len() && (forall|j: int|
                0 <= j < n ==> indices[(#[trigger] steps[j]).member as int] != i)
                implies #[trigger] after[i] == target[i] by {
            assert(indices[steps[n - 1].member as int] != i);
            assert(forall|j: int| 0 <= j < m ==> indices[(#[trigger] steps[j]).member as int] != i);
        }
    }
}

/// The order of the steps does not matter: steps that are about each
/// member of the patch once leave the target as the merge of the patch
/// leaves it, member by member.
pub proof fn lemma_steps_merge<T>(
    steps: Seq<SpecPatchStep>,
    indices: Seq<usize>,
    patch: Seq<PatchSlot<T>>,
    target: Seq<Slot<T>>,
)
    requires
        steps_cover(steps, indices.len()),
        indices_fit(indices, target.len()),
        patch.len() == indices.len(),
    ensures
        stepped(steps, indices, patch, target, steps.len()) == merged(indices, patch, target),
{
    let by_steps = stepped(steps, indices, patch, target, steps.len());
    let by_members = merged(indices, patch, target);
    lemma_stepped_fieldwise(steps, indices, patch, target, steps.len());
    lemma_merge_fieldwise(indices, patch, target, indices.len());
    assert forall|i: int| 0 <= i < target.len() implies by_steps[i] == by_members[i] by {
        if exists|k: int| 0 <= k < indices.len() && indices[k] == i {
            let k = choose|k: int| 0 <= k < indices.len() && indices[k] == i;
            assert(names_member(steps, k));
            let j = choose|j: int| 0 <= j < steps.len() && (#[trigger] steps[j]).member == k;
            assert(by_steps[indices[steps[j].member as int] as int] == patch[k].effect(target[i]));
            assert(by_members[indices[k] as int] == patch[k].effect(target[i]));
        } else {
            assert forall|j: int| 0 <= j < steps.len() implies indices[(
            #[trigger] steps[j]).member as int] != i by {
                let k = steps[j].member as int;
                assert(0 <= k < indices.len());
            }
            assert(forall|k: int| 0 <= k < indices.len() ==> indices[k] != i);
        }
    }
    assert(by_steps =~= by_members);
}

/// Of a derived patch, the steps of the merge, carried out in their
/// order, leave a target as the merge of the patch leaves it.
pub proof fn lemma_patch_steps_merge<T>(
    ast: SpecDeclaration,
    args: SpecAttrArgs,
    option: OptionType,
    patch: Seq<PatchSlot<T>>,
    target: Seq<Slot<T>>,
)
    requires
        ast.members is Fields,
        ast.members.len() <= usize::MAX,
        indices_fit(patch_indices(patch_of(ast, args, option)->Ok_0), target.len()),
        patch.len() == patch_of(ast, args, option)->Ok_0.fields.len(),
    ensures
        stepped(
            patch_of(ast, args, option)->Ok_0.merge,
            patch_indices(patch_of(ast, args, option)->Ok_0),
            patch,
            target,
            patch_of(ast, args, option)->Ok_0.merge.len(),
        ) == merged(patch_indices(patch_of(ast, args, option)->Ok_0), patch, target),
{
    let fields = ast.members->Fields_0;
    let kept = selected(fields, field_kept(args));
    lemma_selected(fields, field_kept(args));
    lemma_steps_cover(flags_at(fields, kept), option);
    let model = patch_of(ast, args, option)->Ok_0;
    lemma_steps_merge(model.merge, patch_indices(model), patch, target);
}

/// The member that the wrapper `wrapper` makes of what a field holds: by
/// the plain wrapper, the value, present; by three states, set to the value
/// where the field holds one and cleared where it holds none. Three states
/// make nothing of a field that is not optional.
pub open spec fn wrapped<T>(wrapper: OptionType, value: Slot<T>) -> Option<PatchSlot<T>> {
    match wrapper {
        OptionType::Option => Some(PatchSlot::Option(Some(value))),
        OptionType::MaybeUndefined => match value {
            Slot::Optional(Some(v)) => Some(PatchSlot::MaybeUndefined(MaybeUndefined::Value(v))),
            Slot::Optional(None) => Some(PatchSlot::MaybeUndefined(MaybeUndefined::Null)),
            Slot::Plain(_) => None,
        },
    }
}

/// Whether a patch of the fields `fields` can be made from `value`: the
/// fields pick values of it in order, and a field wrapped by three states
/// is optional in it.
pub open spec fn makes_patch<T>(fields: Seq<SpecPatchField>, value: Seq<Slot<T>>) -> bool {
    &&& indices_fit(Seq::new(fields.len(), |k: int| fields[k].index), value.len())
    &&& forall|k: int|
        0 <= k < fields.len() ==> wrapped(
            (#[trigger] fields[k]).wrapper,
            value[fields[k].index as int],
        ) is Some
}

/// The patch made from the value `value` of the original: each member
/// says that its field is to hold what it holds in `value`.
pub open spec fn patch_made<T>(fields: Seq<SpecPatchField>, value: Seq<Slot<T>>) -> Option<
    Seq<PatchSlot<T>>,
> {
    if makes_patch(fields, value) {
        Some(
            Seq::new(
                fields.len(),
                |k: int| wrapped(fields[k].wrapper, value[fields[k].index as int])->0,
            ),
        )
    } else {
        None
    }
}

/// A patch made from a value says all of that value: merged into any
/// target with as many fields, it leaves in each of its fields what the
/// value holds there.
pub proof fn lemma_merge_made<T>(
    fields: Seq<SpecPatchField>,
    value: Seq<Slot<T>>,
    target: Seq<Slot<T>>,
)
    requires
        makes_patch(fields, value),
        target.len() == value.len(),
    ensures
        forall|k: int|
            0 <= k < fields.len() ==> merged(
                Seq::new(fields.len(), |j: int| fields[j].index),
                patch_made(fields, value)->0,
                target,
            )[(#[trigger] fields[k]).index as int] == value[fields[k].index as int],
{
    let indices = Seq::new(fields.len(), |j: int| fields[j].index);
    let patch = patch_made(fields, value)->0;
    lemma_merge_fieldwise(indices, patch, target, fields.len());
    assert forall|k: int| 0 <= k < fields.len() implies merged(indices, patch, target)[(
    #[trigger] fields[k]).index as int] == value[fields[k].index as int] by {
        assert(indices[k] == fields[k].index);
    }
}

impl PatchModel {
    /// Which field of the original each member is for.
    pub fn member_indices(&self) -> (r: Vec<usize>)
        ensures
            r@ == patch_indices(self.deep_view()),
    {
        let mut out: Vec<usize> = Vec::new();
        let mut k: usize = 0;
        while k < self.fields.len()
            invariant
                k <= self.fields.len(),
                out.len() == k,
                forall|j: int| 0 <= j < k ==> out@[j] == self.fields@[j].index,
            decreases self.fields.len() - k,
        {
            out.push(self.fields[k].index);
            k += 1;
        }
        out
    }

    /// Merges the patch value `patch` into `value`, a value of the
    /// original: only the fields whose members say so change.
    pub fn merge_mut<T>(&self, patch: Vec<PatchSlot<T>>, value: &mut Vec<Slot<T>>)
        ensures
            final(value)@ == merged(patch_indices(self.deep_view()), patch@, old(value)@),
    {
        let indices = self.member_indices();
        let ghost slots = patch@;
        let ghost start = value@;
        let n = if indices.len() <= patch.len() {
            indices.len()
        } else {
            patch.len()
        };
        let mut rest = reversed(patch);
        let mut k: usize = 0;
        while k < n
            invariant
                k <= n,
                n == paired(indices@, slots),
                rest@ == slots.reverse().subrange(0, slots.len() - k),
                value@ == merged_upto(indices@, slots, start, k as nat),
            decreases n - k,
        {
            let slot = rest.pop();
            let index = indices[k];
            if index < value.len() {
                match slot {
                    Some(PatchSlot::Option(Some(v))) => {
                        value.set(index, v);
                    },
                    Some(PatchSlot::MaybeUndefined(MaybeUndefined::Null)) => {
                        value.set(index, Slot::Optional(None));
                    },
                    Some(PatchSlot::MaybeUndefined(MaybeUndefined::Value(v))) => {
                        value.set(index, Slot::Optional(Some(v)));
                    },
                    _ => {
                    },
                }
            }
            k += 1;
        }
    }

    /// Merges the patch value `patch` into `value` and returns the result.
    pub fn merge<T>(&self, patch: Vec<PatchSlot<T>>, value: Vec<Slot<T>>) -> (r: Vec<Slot<T>>)
        ensures
            r@ == merged(patch_indices(self.deep_view()), patch@, value@),
    {
        let mut value = value;
        self.merge_mut(patch, &mut value);
        value
    }

    /// Makes the patch value that says all of `value`, a value of the
    /// original. `None` where `value` is not laid out as the patch needs it.
    pub fn from_original<T>(&self, value: Vec<Slot<T>>) -> (r: Option<Vec<PatchSlot<T>>>)
        ensures
            match patch_made(self.deep_view().fields, value@) {
                Some(made) => r matches Some(v) && v@ == made,
                None => r is None,
            },
    {
        let indices = self.member_indices();
        let ghost fields = self.deep_view().fields;
        let ghost all = value@;
        let kept = match project(&indices, value) {
            Some(kept) => kept,
            None => {
                return None;
            },
        };
        let mut k: usize = 0;
        while k < kept.len()
            invariant
                k <= kept.len(),
                kept.len() == self.fields.len(),
                fields == self.deep_view().fields,
                all == value@,
                kept@ == projected(indices@, all),
                indices@ == Seq::new(fields.len(), |j: int| fields[j].index),
                indices_fit(indices@, all.len()),
                forall|j: int|
                    0 <= j < k ==> wrapped(
                        (#[trigger] fields[j]).wrapper,
                        all[fields[j].index as int],
                    ) is Some,
            decreases kept.len() - k,
        {
            let fits = match self.fields[k].wrapper {
                OptionType::Option => true,
                OptionType::MaybeUndefined => match &kept[k] {
                    Slot::Optional(_) => true,
                    Slot::Plain(_) => false,
                },
            };
            if !fits {
                return None;
            }
            k += 1;
        }
        let ghost made = patch_made(fields, all)->0;
        let n = kept.len();
        let mut rest = reversed(kept);
        let mut out: Vec<PatchSlot<T>> = Vec::new();
        let mut k: usize = 0;
        while k < n
            invariant
                k <= n,
                n == self.fields.len(),
                n == fields.len(),
                fields == self.deep_view().fields,
                makes_patch(fields, all),
                made == patch_made(fields, all)->0,
                indices@ == Seq::new(fields.len(), |j: int| fields[j].index),
                rest@ == projected(indices@, all).reverse().subrange(0, n - k),
                out.len() == k,
                forall|j: int| 0 <= j < k ==> out@[j] == made[j],
            decreases n - k,
        {
            let item = rest.pop();
            match (self.fields[k].wrapper, item) {
                (OptionType::Option, Some(v)) => {
                    out.push(PatchSlot::Option(Some(v)));
                },
                (OptionType::MaybeUndefined, Some(Slot::Optional(Some(v)))) => {
                    out.push(PatchSlot::MaybeUndefined(MaybeUndefined::Value(v)));
                },
                (OptionType::MaybeUndefined, Some(Slot::Optional(None))) => {
                    out.push(PatchSlot::MaybeUndefined(MaybeUndefined::Null));
                },
                _ => {
                    assert(false);
                },
            }
            k += 1;
        }
        Some(out)
    }
}

} // verus!
