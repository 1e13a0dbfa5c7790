//! Resize/Rebuild bus: central place to notify subsystems when attachments
//! or surface configuration change so they can rebuild bind groups or state.
use vstd::prelude::*;
use std::marker::PhantomData;

verus! {

/// Something that reacts to a rebuild by updating the shared value.
pub trait RebuildListener<T> {
    /// `r` stands for one call of the listener: `*r` is the value it was
    /// handed and `*final(r)` the value it left behind.
    spec fn rebuilds(&self, r: &mut T) -> bool;

    fn on_rebuild(&self, t: &mut T)
        ensures
            exists|r: &mut T| *r == *old(t) && *final(r) == *final(t) && self.rebuilds(r),
    ;
}

/// A listener made from a closure that accepts every value.
#[verifier::reject_recursive_types(T)]
pub struct FnListener<T, F: Fn(&mut T)> {
    f: F,
    _t: PhantomData<T>,
}

impl<T, F: Fn(&mut T)> FnListener<T, F> {
    #[verifier::type_invariant]
    closed spec fn accepts_all(self) -> bool {
        forall|t: &mut T| call_requires(self.f, (t,))
    }

    /// The closure this listener runs.
    pub closed spec fn func(self) -> F {
        self.f
    }
}

impl<T, F: Fn(&mut T)> RebuildListener<T> for FnListener<T, F> {
    /// A call of the listener is a call of its closure.
    open spec fn rebuilds(&self, r: &mut T) -> bool {
        call_ensures(self.func(), (r,), ())
    }

    fn on_rebuild(&self, t: &mut T) {
        proof {
            use_type_invariant(self);
        }
        (self.f)(t);
        proof {
            let r = choose|r: &mut T|
                *r == *old(t) && *final(r) == *final(t) && call_ensures(self.f, (r,), ());
            assert(self.rebuilds(r));
        }
    }
}

/// Wrap a closure as a boxed listener that behaves exactly as the closure does.
fn boxed_listener<T: 'static, F: Fn(&mut T) + 'static>(f: F) -> (s: (
    Box<dyn RebuildListener<T> + 'static>,
))
    requires
        forall|t: &mut T| call_requires(f, (t,)),
    ensures
        forall|r: &mut T| s.0.rebuilds(r) <==> call_ensures(f, (r,), ()),
{
    let l = FnListener { f, _t: PhantomData };
    assert(l.func() == f);
    let b: Box<dyn RebuildListener<T> + 'static> = Box::new(l);
    assert(forall|r: &mut T| b.rebuilds(r) <==> call_ensures(f, (r,), ()));
    let ghost gb = b;
    let s = (b,);
    assert(s.0 == gb);
    s
}

/// Listeners run, in registration order, on a shared value.
///
/// Each listener is kept in a one-element tuple, which gives the stored
/// elements a sized type that the proofs can follow through `push`.
#[verifier::reject_recursive_types(T)]
pub struct RebuildBusCore<T> {
    listeners: Vec<(Box<dyn RebuildListener<T> + 'static>,)>,
}

impl<T> RebuildBusCore<T> {
    /// Number of registered listeners.
    pub closed spec fn num_listeners(&self) -> nat {
        self.listeners@.len()
    }

    /// `r` is a possible call of the listener registered at position `i`
    /// (counting from 0 in registration order).
    pub closed spec fn listener_rebuilds(&self, i: int, r: &mut T) -> bool {
        self.listeners@[i].0.rebuilds(r)
    }

    /// A bus with no listener.
    pub fn new() -> (r: Self)
        ensures
            r.num_listeners() == 0,
    {
        Self { listeners: Vec::new() }
    }

    /// Register a listener; it runs after every listener registered before it.
    pub fn register<F>(&mut self, f: F) where F: Fn(&mut T) + 'static, T: 'static
        requires
            forall|t: &mut T| call_requires(f, (t,)),
        ensures
            final(self).num_listeners() == old(self).num_listeners() + 1,
            forall|i: int, r: &mut T|
                0 <= i < old(self).num_listeners() ==> (final(self).listener_rebuilds(i, r)
                    <==> old(self).listener_rebuilds(i, r)),
            forall|r: &mut T|
                final(self).listener_rebuilds(old(self).num_listeners() as int, r)
                    <==> call_ensures(f, (r,), ()),
    {
        let s = boxed_listener(f);
        self.listeners.push(s);
    }

    /// Run every listener once on `t`, in registration order.
    ///
    /// The value passes through `states[0] == *old(t)`, ..., `states[n] ==
    /// *final(t)`: listener `i` is called once (`calls[i]`), on `states[i]`,
    /// and leaves `states[i + 1]`.
    pub fn run_all(&self, t: &mut T)
        ensures
            exists|states: Seq<T>, calls: Seq<&mut T>|
                #![trigger states.len(), calls.len()]
                {
                    &&& states.len() == self.num_listeners() + 1
                    &&& calls.len() == self.num_listeners()
                    &&& states[0] == *old(t)
                    &&& states.last() == *final(t)
                    &&& forall|i: int|
                        0 <= i < self.num_listeners() ==> {
                            &&& *#[trigger] calls[i] == states[i]
                            &&& *final(calls[i]) == states[i + 1]
                            &&& self.listener_rebuilds(i, calls[i])
                        }
                },
    {
        self.run_from(0, t);
        proof {
            let (states, calls) = choose|states: Seq<T>, calls: Seq<&mut T>|
                #![trigger states.len(), calls.len()]
                {
                    &&& states.len() == self.num_listeners() + 1
                    &&& calls.len() == self.num_listeners()
                    &&& states[0] == *old(t)
                    &&& states.last() == *t
                    &&& forall|i: int|
                        0 <= i < self.num_listeners() ==> {
                            &&& *#[trigger] calls[i] == states[i]
                            &&& *final(calls[i]) == states[i + 1]
                            &&& self.listener_rebuilds(0 + i, calls[i])
                        }
                };
            assert forall|i: int| 0 <= i < self.num_listeners() implies {
                &&& *#[trigger] calls[i] == states[i]
                &&& *final(calls[i]) == states[i + 1]
                &&& self.listener_rebuilds(i, calls[i])
            } by {
                assert(0 + i == i);
            }
        }
    }

    /// Run the listeners from position `k` on, in registration order.
    fn run_from(&self, k: usize, t: &mut T)
        requires
            k <= self.num_listeners(),
        ensures
            exists|states: Seq<T>, calls: Seq<&mut T>|
                #![trigger states.len(), calls.len()]
                {
                    &&& states.len() == self.num_listeners() - k + 1
                    &&& calls.len() == self.num_listeners() - k
                    &&& states[0] == *old(t)
                    &&& states.last() == *final(t)
                    &&& forall|i: int|
                        0 <= i < self.num_listeners() - k ==> {
                            &&& *#[trigger] calls[i] == states[i]
                            &&& *final(calls[i]) == states[i + 1]
                            &&& self.listener_rebuilds(k + i, calls[i])
                        }
                },
        decreases self.num_listeners() - k,
    {
        if k < self.listeners.len() {
            let ghost before = *t;
            self.listeners[k].0.on_rebuild(t);
            let ghost mid = *t;
            self.run_from(k + 1, t);
            proof {
                let r = choose|r: &mut T|
                    *r == before && *final(r) == mid && self.listeners@[k as int].0.rebuilds(r);
                let (rest, rest_calls) = choose|states: Seq<T>, calls: Seq<&mut T>|
                    #![trigger states.len(), calls.len()]
                    {
                        &&& states.len() == self.num_listeners() - (k + 1) + 1
                        &&& calls.len() == self.num_listeners() - (k + 1)
                        &&& states[0] == mid
                        &&& states.last() == *t
                        &&& forall|i: int|
                            0 <= i < self.num_listeners() - (k + 1) ==> {
                                &&& *#[trigger] calls[i] == states[i]
                                &&& *final(calls[i]) == states[i + 1]
                                &&& self.listener_rebuilds(k + 1 + i, calls[i])
                            }
                    };
                let states = seq![before].add(rest);
                let calls = seq![r].add(rest_calls);
                assert forall|i: int| 0 <= i < self.num_listeners() - k implies {
                    &&& *#[trigger] calls[i] == states[i]
                    &&& *final(calls[i]) == states[i + 1]
                    &&& self.listener_rebuilds(k + i, calls[i])
                } by {
                    if i == 0 {
                        assert(self.listener_rebuilds(k + 0, r));
                    } else {
                        assert(calls[i] == rest_calls[i - 1]);
                        assert(states[i] == rest[i - 1]);
                        assert(states[i + 1] == rest[i]);
                        assert(k + 1 + (i - 1) == k + i);
                    }
                }
                assert(states.last() == *t);
                assert(states.len() == self.num_listeners() - k + 1);
                assert(calls.len() == self.num_listeners() - k);
            }
        } else {
            proof {
                let states = seq![*t];
                let calls: Seq<&mut T> = Seq::empty();
                assert(calls.len() == 0);
                assert(states.last() == *t);
                assert(states.len() == self.num_listeners() - k + 1);
            }
        }
    }
}

} // verus!
