//! Trusted interface to the persistent vector of the `im-rc` crate, which
//! backs the sharable canvas. The vector holds colors as plain channel
//! tuples; `im_vec_model` names its contents as a sequence.

use vstd::prelude::*;

verus! {

#[verifier::external_type_specification]
#[verifier::external_body]
#[verifier::reject_recursive_types(A)]
pub struct ExImVector<A>(im_rc::Vector<A>);

/// What a persistent vector of channel tuples holds, in order.
pub uninterp spec fn im_vec_model(v: im_rc::Vector<(u8, u8, u8, u8)>) -> Seq<(u8, u8, u8, u8)>;

/// Relies on im_rc::Vector::new: it constructs an empty vector.
#[verifier::external_body]
pub fn im_vec_new() -> (v: im_rc::Vector<(u8, u8, u8, u8)>)
    ensures
        im_vec_model(v) == Seq::<(u8, u8, u8, u8)>::empty(),
{
    im_rc::Vector::new()
}

/// Relies on im_rc::Vector::push_back: the value is appended at the back.
#[verifier::external_body]
pub fn im_vec_push_back(v: &mut im_rc::Vector<(u8, u8, u8, u8)>, item: (u8, u8, u8, u8))
    ensures
        im_vec_model(*final(v)) == im_vec_model(*old(v)).push(item),
{
    v.push_back(item)
}

/// Relies on im_rc::Vector::clone: a persistent copy holds the same items.
#[verifier::external_body]
pub fn im_vec_clone(v: &im_rc::Vector<(u8, u8, u8, u8)>) -> (r: im_rc::Vector<(u8, u8, u8, u8)>)
    ensures
        im_vec_model(r) == im_vec_model(*v),
{
    v.clone()
}

/// Relies on im_rc::Vector::get: `Some` of the item at `index` exactly when
/// `index` is within bounds, which the contract requires.
#[verifier::external_body]
pub fn im_vec_get(v: &im_rc::Vector<(u8, u8, u8, u8)>, index: usize) -> (r: (u8, u8, u8, u8))
    requires
        index < im_vec_model(*v).len(),
    ensures
        r == im_vec_model(*v)[index as int],
{
    *v.get(index).unwrap()
}

/// Relies on im_rc::Vector::update: a new vector with the item at `index`
/// replaced; it panics outside the bounds, which the contract rules out.
#[verifier::external_body]
pub fn im_vec_update(
    v: &im_rc::Vector<(u8, u8, u8, u8)>,
    index: usize,
    item: (u8, u8, u8, u8),
) -> (r: im_rc::Vector<(u8, u8, u8, u8)>)
    requires
        index < im_vec_model(*v).len(),
    ensures
        im_vec_model(r) == im_vec_model(*v).update(index as int, item),
{
    v.update(index, item)
}

} // verus!
