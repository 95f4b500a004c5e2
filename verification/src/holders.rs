//! The list of holders: a vector of fixed capacity.

use vstd::prelude::*;

use crate::holder::ServerHolder;

verus! {

/// How many holders a list can hold.
pub const MAX_COUNT: usize = 0x40;

/// An `arrayvec::ArrayVec` of holders.
#[verifier::external_body]
pub struct HolderVec {
    items: arrayvec::ArrayVec<[ServerHolder; 64]>,
}

/// The holders in a list, in order.
pub uninterp spec fn holders_in(list: HolderVec) -> Seq<ServerHolder>;

impl View for HolderVec {
    type V = Seq<ServerHolder>;

    open spec fn view(&self) -> Seq<ServerHolder> {
        holders_in(*self)
    }
}

/// `arrayvec::ArrayVec::new`: an empty list.
#[verifier::external_body]
pub(crate) fn new_list() -> (list: HolderVec)
    ensures
        holders_in(list) == Seq::<ServerHolder>::empty(),
{
    HolderVec { items: arrayvec::ArrayVec::new() }
}

/// `arrayvec::ArrayVec::try_push`: a holder is added at the end of a list that
/// is not full; a full one stays as it is, and the holder comes back.
#[verifier::external_body]
pub(crate) fn try_push(list: &mut HolderVec, holder: ServerHolder) -> (r: Result<(), ServerHolder>)
    ensures
        holders_in(*old(list)).len() < MAX_COUNT ==> r is Ok && holders_in(*final(list))
            == holders_in(*old(list)).push(holder),
        holders_in(*old(list)).len() >= MAX_COUNT ==> (r matches Err(back) && back == holder)
            && holders_in(*final(list)) == holders_in(*old(list)),
{
    match list.items.try_push(holder) {
        Ok(()) => Ok(()),
        Err(full) => Err(full.element()),
    }
}

/// `arrayvec::ArrayVec::pop_at`: the holder at a place is taken out, and those
/// behind it move up; where there is none, the list stays as it is.
#[verifier::external_body]
pub(crate) fn pop_at(list: &mut HolderVec, index: usize) -> (r: Option<ServerHolder>)
    ensures
        index < holders_in(*old(list)).len() ==> r == Some(holders_in(*old(list))[index as int])
            && holders_in(*final(list)) == holders_in(*old(list)).remove(index as int),
        index >= holders_in(*old(list)).len() ==> r is None && holders_in(*final(list))
            == holders_in(*old(list)),
{
    list.items.pop_at(index)
}

/// `arrayvec::ArrayVec::as_slice`: all holders of a list, in order. There are no
/// more than the capacity.
#[verifier::external_body]
pub(crate) fn as_slice(list: &HolderVec) -> (holders: &[ServerHolder])
    ensures
        holders@ == holders_in(*list),
        holders@.len() <= MAX_COUNT,
{
    list.items.as_slice()
}

/// `arrayvec::ArrayVec::as_mut_slice`: all holders of a list, in order, to be
/// changed in place. What they are in the end, the list holds.
#[verifier::external_body]
pub(crate) fn as_mut_slice(list: &mut HolderVec) -> (holders: &mut [ServerHolder])
    ensures
        holders@ == holders_in(*old(list)),
        final(holders)@ == holders_in(*final(list)),
        final(holders)@.len() == holders@.len(),
{
    list.items.as_mut_slice()
}

impl HolderVec {
    pub fn new() -> (list: Self)
        ensures
            list@ == Seq::<ServerHolder>::empty(),
    {
        new_list()
    }

    pub fn len(&self) -> (n: usize)
        ensures
            n == self@.len(),
            n <= MAX_COUNT,
    {
        as_slice(self).len()
    }

    pub fn get(&self, index: usize) -> (holder: &ServerHolder)
        requires
            index < self@.len(),
        ensures
            *holder == self@[index as int],
    {
        &as_slice(self)[index]
    }

    /// Adds a holder at the end, unless the list is full: then it comes back.
    pub fn push(&mut self, holder: ServerHolder) -> (r: Result<(), ServerHolder>)
        ensures
            old(self)@.len() < MAX_COUNT ==> r is Ok && final(self)@ == old(self)@.push(holder),
            old(self)@.len() >= MAX_COUNT ==> r == Err::<(), ServerHolder>(holder) && final(self)@
                == old(self)@,
    {
        try_push(self, holder)
    }

    /// Takes out the holder at a place, if there is one.
    pub fn take_out(&mut self, index: usize) -> (r: Option<ServerHolder>)
        ensures
            index < old(self)@.len() ==> r == Some(old(self)@[index as int]) && final(self)@ == old(
                self,
            )@.remove(index as int),
            index >= old(self)@.len() ==> r is None && final(self)@ == old(self)@,
    {
        pop_at(self, index)
    }

    /// Moves all holders to the end of `to`.
    pub fn move_all(&mut self, to: &mut Vec<ServerHolder>)
        ensures
            final(self)@ == Seq::<ServerHolder>::empty(),
            final(to)@ == old(to)@ + old(self)@,
    {
        let ghost all = self@;
        let mut left: usize = self.len();
        while left > 0
            invariant
                left == self@.len(),
                left <= all.len(),
                self@ == all.skip(all.len() - left),
                to@ == old(to)@ + all.take(all.len() - left),
            decreases left,
        {
            if let Some(holder) = self.take_out(0) {
                to.push(holder);
            }
            assert(self@ =~= all.skip(all.len() - (left - 1)));
            assert(to@ =~= old(to)@ + all.take(all.len() - (left - 1)));
            left = left - 1;
        }
        assert(self@ =~= Seq::<ServerHolder>::empty());
        assert(all.take(all.len() as int) =~= all);
    }
}

} // verus!
