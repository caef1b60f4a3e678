//! Ticks of entities that wait for something to happen.
use std::task::Context;

use vstd::prelude::*;

verus! {

/// The context that a task is polled in.
#[verifier::external_type_specification]
#[verifier::external_body]
pub struct ExContext<'a>(Context<'a>);

/// Whether a wait is over.
#[derive(Clone, Copy, Debug, PartialEq, Eq, Structural)]
pub enum Poll {
    Ready,
    Pending,
}

/// Something that waits. A poll tells whether it has found anything.
pub trait AwaitingEntity: Sized {
    /// Whether a poll can turn one value into another with a result, and the context that it
    /// is given into another.
    spec fn polled<'a>(
        before: Self,
        cx: Context<'a>,
        after: Self,
        cx_after: Context<'a>,
        found: Result<bool, ()>,
    ) -> bool;

    fn poll_tick<'a>(&mut self, cx: &mut Context<'a>) -> (found: Result<bool, ()>)
        ensures
            Self::polled(*old(self), *old(cx), *final(self), *final(cx), found),
    ;
}

impl<T: AwaitingEntity> AwaitingEntity for &mut T {
    open spec fn polled<'a>(
        before: Self,
        cx: Context<'a>,
        after: Self,
        cx_after: Context<'a>,
        found: Result<bool, ()>,
    ) -> bool {
        T::polled(*before, cx, *after, cx_after, found)
    }

    fn poll_tick<'a>(&mut self, cx: &mut Context<'a>) -> (found: Result<bool, ()>) {
        T::poll_tick(*self, cx)
    }
}

/// Something that can be borrowed for a wait.
pub trait CaptureAwaitingEntity: Sized {
    type AwaitingEntityOutput<'a> where Self: 'a;

    /// Whether borrowing a value can give the output, and leave another value once the
    /// borrow ends.
    spec fn captured<'a>(before: Self, output: Self::AwaitingEntityOutput<'a>, after: Self) -> bool;

    fn capture<'a>(&'a mut self) -> (output: Self::AwaitingEntityOutput<'a>)
        ensures
            Self::captured(*old(self), output, *final(self)),
    ;
}

/// Entities that wait together.
pub struct AwaitingEntities<T> {
    pub entities: Vec<T>,
}

/// Whether one of the results tells that something was found.
pub open spec fn any_found(results: Seq<Result<bool, ()>>) -> bool {
    results.contains(Ok(true))
}

/// Whether polls in the order of a list can turn its values into others with the results.
/// Each poll is given the context as the one before has left it: `contexts` holds the one
/// that the first is given, and then the one that each leaves.
pub open spec fn all_polled<'a, T: AwaitingEntity>(
    before: Seq<T>,
    after: Seq<T>,
    contexts: Seq<Context<'a>>,
    results: Seq<Result<bool, ()>>,
) -> bool {
    &&& before.len() == after.len() == results.len()
    &&& contexts.len() == results.len() + 1
    &&& forall|i: int|
        0 <= i < results.len() ==> T::polled(
            before[i],
            contexts[i],
            after[i],
            contexts[i + 1],
            #[trigger] results[i],
        )
}

impl<T: AwaitingEntity> AwaitingEntities<T> {
    /// Polls every entity in turn, and is ready where one of them has found something.
    pub fn poll<'a>(&mut self, cx: &mut Context<'a>) -> (r: Poll)
        ensures
            exists|contexts: Seq<Context<'a>>, results: Seq<Result<bool, ()>>|
                {
                    &&& #[trigger] all_polled(
                        old(self).entities@,
                        final(self).entities@,
                        contexts,
                        results,
                    )
                    &&& contexts.first() == *old(cx)
                    &&& contexts.last() == *final(cx)
                    &&& r == (if any_found(results) {
                        Poll::Ready
                    } else {
                        Poll::Pending
                    })
                },
    {
        let ghost before = self.entities@;
        let ghost mut results: Seq<Result<bool, ()>> = Seq::empty();
        let ghost mut contexts: Seq<Context<'a>> = seq![*cx];
        let mut found_packets: bool = false;
        let total: usize = self.entities.len();
        let mut i: usize = 0;
        while i < total
            invariant
                i <= total,
                total == self.entities@.len(),
                total == before.len(),
                results.len() == i,
                contexts.len() == i + 1,
                contexts.first() == *old(cx),
                contexts.last() == *cx,
                forall|k: int|
                    0 <= k < i ==> T::polled(
                        before[k],
                        contexts[k],
                        self.entities@[k],
                        contexts[k + 1],
                        #[trigger] results[k],
                    ),
                forall|k: int| i <= k < total ==> self.entities@[k] == before[k],
                found_packets == any_found(results),
            decreases total - i,
        {
            let found: Result<bool, ()> = self.entities[i].poll_tick(cx);
            proof {
                let previous = results;
                results = results.push(found);
                contexts = contexts.push(*cx);
                assert(results[i as int] == found);
                if any_found(previous) {
                    let k = choose|k: int|
                        0 <= k < previous.len() && previous[k] == Ok::<bool, ()>(true);
                    assert(results[k] == Ok::<bool, ()>(true));
                }
            }
            match found {
                Ok(true) => {
                    found_packets = true;
                },
                Ok(false) | Err(()) => {},
            }
            i = i + 1;
        }
        assert(all_polled(before, self.entities@, contexts, results));
        if found_packets {
            Poll::Ready
        } else {
            Poll::Pending
        }
    }
}

/// Whether borrowing every value of a list can give the outputs, and leave other values.
pub open spec fn all_captured<'a, T: CaptureAwaitingEntity>(
    before: Seq<T>,
    outputs: Seq<T::AwaitingEntityOutput<'a>>,
    after: Seq<T>,
) -> bool {
    &&& before.len() == outputs.len() == after.len()
    &&& forall|i: int|
        0 <= i < before.len() ==> T::captured(before[i], #[trigger] outputs[i], after[i])
}

/// Borrows every entity for a wait.
pub fn tick_entities<'a, T: CaptureAwaitingEntity>(entities: &'a mut Vec<T>) -> (ticks:
    AwaitingEntities<T::AwaitingEntityOutput<'a>>)
    ensures
        all_captured(old(entities)@, ticks.entities@, final(entities)@),
{
    let ghost before = entities@;
    let mut outputs: Vec<T::AwaitingEntityOutput<'a>> = Vec::new();
    let mut rest: &'a mut [T] = entities.as_mut_slice();
    let ghost after = final(rest)@;
    while rest.len() > 0
        invariant
            outputs@.len() + rest@.len() == before.len(),
            rest@ == before.skip(outputs@.len() as int),
            after.len() == outputs@.len() + final(rest)@.len(),
            final(rest)@ == after.skip(outputs@.len() as int),
            forall|k: int|
                0 <= k < outputs@.len() ==> T::captured(
                    before[k],
                    #[trigger] outputs@[k],
                    after[k],
                ),
        decreases rest@.len(),
    {
        let ghost n = outputs@.len() as int;
        let current: &'a mut [T] = rest;
        let ghost now = final(current)@;
        let (head, tail) = current.split_at_mut(1);
        let ghost head_after = final(head)@;
        let ghost tail_after = final(tail)@;
        assert(now == head_after + tail_after);
        let entity: &'a mut T = &mut head[0];
        let ghost left = *final(entity);
        outputs.push(entity.capture());
        rest = tail;
        assert(head_after =~= seq![left]);
        assert(after.skip(n)[0] == left);
        assert forall|i: int|
            0 <= i < tail_after.len() implies tail_after[i] == #[trigger] after.skip(n + 1)[i] by {
            assert(now[i + 1] == tail_after[i]);
        }
        assert(tail_after =~= after.skip(n + 1));
    }
    AwaitingEntities { entities: outputs }
}

/// A base and entities that wait together.
pub struct EntityFactoryTick<T, E> {
    pub base: E,
    pub entities: AwaitingEntities<T>,
}

impl<T: AwaitingEntity, E: AwaitingEntity> EntityFactoryTick<T, E> {
    /// Polls the base and then every entity in turn, and is ready where one of them has found
    /// something. The first entity is given the context as the base has left it.
    pub fn poll<'a>(&mut self, cx: &mut Context<'a>) -> (r: Poll)
        ensures
            exists|
                found: Result<bool, ()>,
                contexts: Seq<Context<'a>>,
                results: Seq<Result<bool, ()>>,
            |
                {
                    &&& #[trigger] E::polled(
                        old(self).base,
                        *old(cx),
                        final(self).base,
                        contexts.first(),
                        found,
                    )
                    &&& #[trigger] all_polled(
                        old(self).entities.entities@,
                        final(self).entities.entities@,
                        contexts,
                        results,
                    )
                    &&& contexts.last() == *final(cx)
                    &&& r == (if found == Ok::<bool, ()>(true) || any_found(results) {
                        Poll::Ready
                    } else {
                        Poll::Pending
                    })
                },
    {
        let mut found_packets: bool = false;
        let found: Result<bool, ()> = self.base.poll_tick(cx);
        match found {
            Ok(true) => {
                found_packets = true;
            },
            Ok(false) | Err(()) => {},
        }
        let ghost before = self.entities.entities@;
        let ghost between = *cx;
        let polled: Poll = self.entities.poll(cx);
        let ghost after = self.entities.entities@;
        let ghost (contexts, results) = choose|
            contexts: Seq<Context<'a>>,
            results: Seq<Result<bool, ()>>,
        |
            {
                &&& #[trigger] all_polled(before, after, contexts, results)
                &&& contexts.first() == between
                &&& contexts.last() == *cx
                &&& polled == (if any_found(results) {
                    Poll::Ready
                } else {
                    Poll::Pending
                })
            };
        assert(all_polled(before, after, contexts, results));
        assert(E::polled(old(self).base, *old(cx), self.base, contexts.first(), found));
        match polled {
            Poll::Ready => {
                found_packets = true;
            },
            Poll::Pending => {},
        }
        if found_packets {
            Poll::Ready
        } else {
            Poll::Pending
        }
    }
}

/// Borrows a base and every entity for a wait.
pub fn tick_factory<'a, T: CaptureAwaitingEntity, E: CaptureAwaitingEntity>(
    base: &'a mut E,
    entities: &'a mut Vec<T>,
) -> (tick: EntityFactoryTick<T::AwaitingEntityOutput<'a>, E::AwaitingEntityOutput<'a>>)
    ensures
        E::captured(*old(base), tick.base, *final(base)),
        all_captured(old(entities)@, tick.entities.entities@, final(entities)@),
{
    EntityFactoryTick { base: base.capture(), entities: tick_entities(entities) }
}

/// Something that is made of a base and entities.
pub trait EntityFactory: Sized {
    type Base: CaptureAwaitingEntity;

    type Entity: CaptureAwaitingEntity;

    /// The base.
    spec fn base(&self) -> Self::Base;

    /// The entities.
    spec fn entities(&self) -> Vec<Self::Entity>;

    fn split_factory_mut<'a>(&'a mut self) -> (parts: (
        &'a mut Self::Base,
        &'a mut Vec<Self::Entity>,
    ))
        ensures
            *parts.0 == old(self).base(),
            *parts.1 == old(self).entities(),
            *final(parts.0) == final(self).base(),
            *final(parts.1) == final(self).entities(),
    ;

    /// Borrows the base and every entity for a wait.
    fn tick<'a>(&'a mut self) -> (tick: EntityFactoryTick<
        <Self::Entity as CaptureAwaitingEntity>::AwaitingEntityOutput<'a>,
        <Self::Base as CaptureAwaitingEntity>::AwaitingEntityOutput<'a>,
    >)
        ensures
            <Self::Base as CaptureAwaitingEntity>::captured(
                old(self).base(),
                tick.base,
                final(self).base(),
            ),
            all_captured(old(self).entities()@, tick.entities.entities@, final(self).entities()@),
    {
        let (base, entities) = self.split_factory_mut();
        tick_factory(base, entities)
    }
}

/// Something is found exactly where one of the polls found it. An error counts for nothing.
pub proof fn finds_are_told(results: Seq<Result<bool, ()>>)
    ensures
        any_found(results) <==> exists|i: int|
            0 <= i < results.len() && (#[trigger] results[i]) is Ok && results[i]->Ok_0,
{
    if any_found(results) {
        let i = choose|i: int| 0 <= i < results.len() && results[i] == Ok::<bool, ()>(true);
        assert(results[i] is Ok && results[i]->Ok_0);
    }
    if exists|i: int| 0 <= i < results.len() && (#[trigger] results[i]) is Ok && results[i]->Ok_0 {
        let i = choose|i: int|
            0 <= i < results.len() && (#[trigger] results[i]) is Ok && results[i]->Ok_0;
        assert(results[i] == Ok::<bool, ()>(true));
    }
}

/// Every entity is polled, each for itself, with the context that the one before it left.
pub proof fn everyone_is_polled_in_turn<'a, T: AwaitingEntity>(
    before: Seq<T>,
    after: Seq<T>,
    contexts: Seq<Context<'a>>,
    results: Seq<Result<bool, ()>>,
    i: int,
)
    requires
        all_polled(before, after, contexts, results),
        0 <= i < before.len(),
    ensures
        after.len() == before.len(),
        results.len() == before.len(),
        contexts.len() == before.len() + 1,
        T::polled(before[i], contexts[i], after[i], contexts[i + 1], results[i]),
{
    assert(T::polled(before[i], contexts[i], after[i], contexts[i + 1], results[i]));
}

/// Every entity is borrowed, each for itself and in its place.
pub proof fn everyone_is_captured<'a, T: CaptureAwaitingEntity>(
    before: Seq<T>,
    outputs: Seq<T::AwaitingEntityOutput<'a>>,
    after: Seq<T>,
    i: int,
)
    requires
        all_captured(before, outputs, after),
        0 <= i < before.len(),
    ensures
        outputs.len() == before.len(),
        after.len() == before.len(),
        T::captured(before[i], outputs[i], after[i]),
{
    assert(T::captured(before[i], outputs[i], after[i]));
}

} // verus!
