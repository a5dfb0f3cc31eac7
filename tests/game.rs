use microtile_app::game::driver::{Branch, Direction, GameDriver, Phase, TickCall};
use microtile_app::game::tile::{
    ConstantProducer, LoopingProducer, TileIterator, TileProducer, TileShape,
};

fn floating_driver() -> GameDriver<LoopingProducer> {
    let (driver, first) = GameDriver::new(LoopingProducer::new());
    assert_eq!(first, TileShape::Square);
    driver
}

/// Ticks until the driver is in `TileNeeded`: the tile lands and the rows
/// are processed.
fn land_and_clear(driver: &mut GameDriver<LoopingProducer>) {
    assert_eq!(driver.tick_call(), TickCall::DescendTile);
    assert_eq!(driver.tick_done(Branch::Right), None);
    assert_eq!(driver.tick_call(), TickCall::ProcessRow);
    assert_eq!(driver.tick_done(Branch::Right), None);
}

#[test]
fn looping_producer_cycles() {
    let mut p = LoopingProducer::default();
    assert_eq!(p.generate_tile(), TileShape::Square);
    assert_eq!(p.generate_tile(), TileShape::Line);
    assert_eq!(p.generate_tile(), TileShape::Diagonal);
    assert_eq!(p.generate_tile(), TileShape::Square);
}

#[test]
fn constant_producer_repeats() {
    let mut p = ConstantProducer::new(TileShape::Line);
    assert_eq!(p.generate_tile(), TileShape::Line);
    assert_eq!(p.generate_tile(), TileShape::Line);
}

#[test]
fn tile_iterator_never_ends() {
    let mut it = TileIterator::new(LoopingProducer::new());
    assert_eq!(it.next(), Some(TileShape::Square));
    assert_eq!(it.next(), Some(TileShape::Line));
    assert_eq!(it.next(), Some(TileShape::Diagonal));
    assert_eq!(it.next(), Some(TileShape::Square));
}

#[test]
fn tick_follows_engine_phases() {
    let mut driver = floating_driver();
    assert_eq!(driver.tick_call(), TickCall::DescendTile);
    assert_eq!(driver.tick_done(Branch::Left), None);
    assert_eq!(driver.tick_call(), TickCall::DescendTile);
    assert_eq!(driver.tick_done(Branch::Right), None);
    assert_eq!(driver.tick_call(), TickCall::ProcessRow);
    assert_eq!(driver.tick_done(Branch::Left), None);
    assert_eq!(driver.tick_call(), TickCall::ProcessRow);
    assert_eq!(driver.tick_done(Branch::Right), None);
    assert_eq!(driver.tick_call(), TickCall::PlaceTile(TileShape::Line));
    assert_eq!(driver.tick_done(Branch::Left), None);
    assert_eq!(driver.tick_call(), TickCall::DescendTile);
}

#[test]
fn game_over_restarts_with_a_new_tile() {
    let mut driver = floating_driver();
    land_and_clear(&mut driver);
    assert_eq!(driver.tick_call(), TickCall::PlaceTile(TileShape::Line));
    assert_eq!(driver.tick_done(Branch::Right), Some(TileShape::Diagonal));
    assert!(driver.rotate());
    assert_eq!(driver.tick_call(), TickCall::DescendTile);
}

#[test]
fn rotate_only_while_floating() {
    let mut driver = floating_driver();
    assert!(driver.rotate());
    assert_eq!(driver.tick_call(), TickCall::DescendTile);
    assert_eq!(driver.tick_done(Branch::Right), None);
    assert!(!driver.rotate());
    assert_eq!(driver.tick_call(), TickCall::ProcessRow);
    assert_eq!(driver.tick_done(Branch::Right), None);
    assert!(!driver.rotate());
    assert_eq!(driver.tick_call(), TickCall::PlaceTile(TileShape::Line));
}

#[test]
fn move_outside_floating_does_nothing() {
    let mut driver = floating_driver();
    assert_eq!(driver.tick_call(), TickCall::DescendTile);
    assert_eq!(driver.tick_done(Branch::Right), None);
    let plan = driver.move_to(4, 0);
    assert_eq!(plan.next_step(), None);
    assert_eq!(driver.tick_call(), TickCall::ProcessRow);
}

#[test]
fn move_issues_distance_steps() {
    let driver = floating_driver();
    let mut plan = driver.move_to(4, 1);
    let mut steps = 0;
    while let Some(d) = plan.next_step() {
        assert_eq!(d, Direction::Right);
        plan.record(true);
        steps += 1;
    }
    assert_eq!(steps, 3);

    let mut plan = driver.move_to(0, 2);
    let mut steps = 0;
    while let Some(d) = plan.next_step() {
        assert_eq!(d, Direction::Left);
        plan.record(true);
        steps += 1;
    }
    assert_eq!(steps, 2);

    assert_eq!(driver.move_to(2, 2).next_step(), None);
}

#[test]
fn move_stops_at_first_rejection() {
    let driver = floating_driver();
    let mut plan = driver.move_to(4, 0);
    let answers = [true, true, false, true];
    let mut steps = 0;
    while let Some(d) = plan.next_step() {
        assert_eq!(d, Direction::Right);
        plan.record(answers[steps]);
        steps += 1;
    }
    assert_eq!(steps, 3);
}

#[test]
fn phase_is_always_defined() {
    let mut driver = floating_driver();
    let answers = [Branch::Left, Branch::Right, Branch::Left, Branch::Right, Branch::Right, Branch::Left];
    for a in answers {
        let _ = driver.tick_call();
        let _ = driver.tick_done(a);
        let _ = driver.rotate();
        let _ = driver.move_to(3, 2);
    }
    let call = driver.tick_call();
    assert!(matches!(call, TickCall::DescendTile | TickCall::ProcessRow | TickCall::PlaceTile(_)));
    let _ = Phase::TileNeeded;
}
