use firecore_battle::endpoint::{BattleError, BattleErrors, ConnectionError};
use firecore_battle::items::{BattleItemExecution, ItemExecution, ItemUsage};
use firecore_battle::pokemon::{Ailment, LiveAilment};
use firecore_battle::moves::DamageResult;
use firecore_battle::engine::ActionResult;
use firecore_battle::scripting::{AilmentEffect, AilmentLength, DerefPtr, ScriptActionResult, ScriptAilment, ScriptDamage, ScriptRandom};
use firecore_battle::select::{Indexed, TeamIndex};
use firecore_battle::types::Effective;
use firecore_battle::state::{FullState, StateInstance, Substate};
use firecore_battle::moves::DamageKind;
use firecore_battle::usage::{MoveExecution, MoveUse};
use rand::rngs::StdRng;
use rand::SeedableRng;

#[test]
fn a_state_goes_through_its_phases() {
    let mut s = StateInstance::new(1u8);
    assert_eq!(s.current, FullState(1, Substate::Begin));
    s.cycle();
    assert_eq!(s.current, FullState(1, Substate::Update));
    s.cycle();
    assert_eq!(s.current, FullState(1, Substate::Update));
    s.set(2);
    assert_eq!(s.current, FullState(1, Substate::Update));
    s.cycle();
    assert_eq!(s.current, FullState(1, Substate::End));
    s.cycle();
    assert_eq!(s.current, FullState(2, Substate::Begin));
    assert_eq!(s.next, None);
    assert_eq!(Substate::default(), Substate::Begin);
}

#[test]
fn ailment_lengths() {
    let mut random = StdRng::seed_from_u64(5);
    assert_eq!(AilmentLength::Permanent.get(&mut random), None);
    for _ in 0..100 {
        let t = AilmentLength::Temporary(2, 5).get(&mut random).unwrap();
        assert!((2..=5).contains(&t));
    }
    assert_eq!(AilmentLength::Temporary(3, 3).get(&mut random), Some(3));
    let live = AilmentLength::Permanent.init(Ailment::Burn, &mut random);
    assert_eq!(live, LiveAilment { ailment: Ailment::Burn, turns: None });
}

#[test]
fn script_ailments() {
    let mut random = StdRng::seed_from_u64(5);
    let effect = ScriptAilment::<AilmentEffect>::ailment(Ailment::Sleep, AilmentLength::Temporary(1, 3));
    assert_eq!(effect.0, Some(AilmentEffect { ailment: Ailment::Sleep, turns: AilmentLength::Temporary(1, 3) }));
    let live = effect.init(&mut random).0.unwrap();
    assert_eq!(live.ailment, Ailment::Sleep);
    assert!((1..=3).contains(&live.turns.unwrap()));
    assert!(ScriptAilment::<AilmentEffect>(None).init(&mut random).0.is_none());
    assert!(ScriptAilment::<LiveAilment>::clear_ailment().0.is_none());
}

#[test]
fn pointers_for_scripts() {
    let value = 17u32;
    let ptr = DerefPtr::of(&value);
    assert_eq!(*ptr.get(), 17);
    assert_eq!(*ptr.0, 17);
}

#[test]
fn item_defaults() {
    assert!(matches!(ItemExecution::default(), ItemExecution::NoActions));
    let usage = ItemUsage::default();
    assert!(usage.conditions.is_empty());
    assert!(matches!(usage.execute, ItemExecution::NoActions));
    assert!(matches!(BattleItemExecution::default(), BattleItemExecution::Normal(ItemExecution::NoActions)));
}

#[test]
fn battle_errors_name_the_player() {
    let e = BattleError(3, BattleErrors::Connection(ConnectionError::Disconnected));
    assert_eq!(e.0, 3);
    assert_eq!(e.1, BattleErrors::Connection(ConnectionError::Disconnected));
}

#[test]
fn sizes_of_move_uses() {
    let uses = vec![
        MoveUse::Damage(DamageKind::Power(40)),
        MoveUse::Drain(DamageKind::Power(20), 50),
        MoveUse::Chance(vec![MoveUse::Flinch, MoveUse::Drain(DamageKind::Constant(5), 10)], 30),
        MoveUse::Ailment(None, 10),
    ];
    assert_eq!(uses[1].size(), 2);
    assert_eq!(uses[2].size(), 3);
    assert_eq!(MoveExecution::Actions(uses).size(), 7);
    assert_eq!(MoveExecution::Script.size(), 1);
    assert_eq!(MoveExecution::NoUsage.size(), 1);
    assert_eq!(MoveExecution::Actions(vec![]).size(), 0);
}

#[test]
fn damage_for_scripts() {
    let mut d = ScriptDamage::with_damage(30);
    assert_eq!(d.get_damage(), 30);
    assert_eq!(d.effective(), Effective::Effective);
    d.set_damage(70000);
    assert_eq!(d.get_damage(), 70000);
    let back = d.to_result();
    assert_eq!(back.damage, 70000u32 as u16);
    let d = ScriptDamage::from_result(DamageResult { damage: 12u16, effective: Effective::NotEffective, crit: true });
    assert_eq!(d.0, DamageResult { damage: 12i64, effective: Effective::NotEffective, crit: true });
}

#[test]
fn chances_for_scripts() {
    let mut rng = StdRng::seed_from_u64(8);
    let mut random = ScriptRandom::new(&mut rng);
    assert!(!random.chance(0));
    assert!(random.chance(100));
    let hits = (0..1000).filter(|_| random.chance(50)).count();
    assert!(hits > 400 && hits < 600);
}

#[test]
fn results_reported_by_scripts() {
    let slot = TeamIndex(2, 1);
    assert!(matches!(ScriptActionResult::miss(slot).0, Indexed(TeamIndex(2, 1), ActionResult::Miss)));
    assert!(matches!(ScriptActionResult::heal(slot, -5).0, Indexed(_, ActionResult::Heal(-5))));
    match ScriptActionResult::damage(slot, ScriptDamage::with_damage(40)).0 {
        Indexed(t, ActionResult::Damage(d)) => {
            assert_eq!(t, slot);
            assert_eq!(d, DamageResult { damage: 40u16, effective: Effective::Effective, crit: false });
        },
        _ => panic!("expected damage"),
    }
    let cure = ScriptActionResult::ailment(slot, ScriptAilment::<LiveAilment>::clear_ailment());
    assert!(matches!(cure.0, Indexed(_, ActionResult::Ailment(None))));
}
