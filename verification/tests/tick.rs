use std::sync::{Arc, Mutex};
use std::task::{Context, Wake, Waker};

use shovel::tick::{
    tick_entities, tick_factory, AwaitingEntities, AwaitingEntity, CaptureAwaitingEntity,
    EntityFactory, EntityFactoryTick, Poll,
};

struct Idle;

impl Wake for Idle {
    fn wake(self: Arc<Self>) {}
}

#[derive(Clone, Debug, PartialEq)]
struct Mob {
    polls: u32,
    finds: Result<bool, ()>,
}

impl AwaitingEntity for Mob {
    fn polled<'a>(
        _: Self,
        _: Context<'a>,
        _: Self,
        _: Context<'a>,
        _: Result<bool, ()>,
    ) -> bool {
        unreachable!()
    }

    fn poll_tick<'a>(&mut self, _: &mut Context<'a>) -> Result<bool, ()> {
        self.polls += 1;
        self.finds
    }
}

impl CaptureAwaitingEntity for Mob {
    type AwaitingEntityOutput<'a> = &'a mut Mob;

    fn captured<'a>(_: Self, _: &'a mut Mob, _: Self) -> bool {
        unreachable!()
    }

    fn capture<'a>(&'a mut self) -> &'a mut Mob {
        self
    }
}

fn mob(finds: Result<bool, ()>) -> Mob {
    Mob { polls: 0, finds }
}

#[test]
fn every_entity_is_polled() {
    let waker = Waker::from(Arc::new(Idle));
    let mut cx = Context::from_waker(&waker);
    let mut entities =
        AwaitingEntities { entities: vec![mob(Ok(true)), mob(Err(())), mob(Ok(false))] };
    assert_eq!(entities.poll(&mut cx), Poll::Ready);
    assert!(entities.entities.iter().all(|mob| mob.polls == 1));
    entities.entities[0].finds = Ok(false);
    assert_eq!(entities.poll(&mut cx), Poll::Pending);
    assert!(entities.entities.iter().all(|mob| mob.polls == 2));
}

#[test]
fn nothing_is_found_among_no_entities() {
    let waker = Waker::from(Arc::new(Idle));
    let mut cx = Context::from_waker(&waker);
    let mut entities: AwaitingEntities<Mob> = AwaitingEntities { entities: vec![] };
    assert_eq!(entities.poll(&mut cx), Poll::Pending);
}

#[test]
fn captured_entities_are_the_ones_that_are_polled() {
    let waker = Waker::from(Arc::new(Idle));
    let mut cx = Context::from_waker(&waker);
    let mut mobs = vec![mob(Ok(false)), mob(Ok(true)), mob(Ok(false))];
    {
        let mut ticks = tick_entities(&mut mobs);
        assert_eq!(ticks.entities.len(), 3);
        assert_eq!(ticks.poll(&mut cx), Poll::Ready);
        ticks.entities[2].polls = 10;
    }
    assert_eq!(mobs.iter().map(|mob| mob.polls).collect::<Vec<_>>(), vec![1, 1, 10]);
}

#[test]
fn factories_are_ready_when_any_part_is() {
    let waker = Waker::from(Arc::new(Idle));
    let mut cx = Context::from_waker(&waker);
    for (base, entity, expected) in [
        (Ok(true), Ok(false), Poll::Ready),
        (Ok(false), Ok(true), Poll::Ready),
        (Err(()), Ok(true), Poll::Ready),
        (Ok(false), Err(()), Poll::Pending),
    ] {
        let mut base = mob(base);
        let mut entities = vec![mob(entity)];
        assert_eq!(tick_factory(&mut base, &mut entities).poll(&mut cx), expected);
        assert_eq!((base.polls, entities[0].polls), (1, 1));
    }
}

struct World {
    base: Mob,
    mobs: Vec<Mob>,
}

impl EntityFactory for World {
    type Base = Mob;
    type Entity = Mob;

    fn base(&self) -> Mob {
        unreachable!()
    }

    fn entities(&self) -> Vec<Mob> {
        unreachable!()
    }

    fn split_factory_mut<'a>(&'a mut self) -> (&'a mut Mob, &'a mut Vec<Mob>) {
        (&mut self.base, &mut self.mobs)
    }
}

#[test]
fn factories_tick_their_parts() {
    let waker = Waker::from(Arc::new(Idle));
    let mut cx = Context::from_waker(&waker);
    let mut world = World { base: mob(Ok(false)), mobs: vec![mob(Ok(false)), mob(Ok(true))] };
    assert_eq!(world.tick().poll(&mut cx), Poll::Ready);
    assert_eq!(world.base.polls, 1);
    assert_eq!(world.mobs[1].polls, 1);
}

struct Witness {
    name: u32,
    log: Arc<Mutex<Vec<(u32, bool)>>>,
    waker: Waker,
    finds: Result<bool, ()>,
}

impl AwaitingEntity for Witness {
    fn polled<'a>(
        _: Self,
        _: Context<'a>,
        _: Self,
        _: Context<'a>,
        _: Result<bool, ()>,
    ) -> bool {
        unreachable!()
    }

    fn poll_tick<'a>(&mut self, cx: &mut Context<'a>) -> Result<bool, ()> {
        self.log.lock().unwrap().push((self.name, cx.waker().will_wake(&self.waker)));
        self.finds
    }
}

#[test]
fn the_base_is_polled_first_and_then_the_entities_in_turn() {
    let waker = Waker::from(Arc::new(Idle));
    let mut cx = Context::from_waker(&waker);
    let log = Arc::new(Mutex::new(Vec::new()));
    let witness =
        |name, finds| Witness { name, log: log.clone(), waker: waker.clone(), finds };
    let mut tick = EntityFactoryTick {
        base: witness(0, Err(())),
        entities: AwaitingEntities {
            entities: vec![witness(1, Ok(true)), witness(2, Err(())), witness(3, Ok(false))],
        },
    };
    assert_eq!(tick.poll(&mut cx), Poll::Ready);
    assert_eq!(*log.lock().unwrap(), vec![(0, true), (1, true), (2, true), (3, true)]);
}
