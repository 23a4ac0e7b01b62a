use firecore_battle::data::BattleData;
use firecore_battle::engine::{ailment_use, chance_roll, run_action, select, ActionResult, DefaultScriptEngine, DefaultScriptError};
use firecore_battle::moves::{BattleMove, ClientDamage, Contact, DamageKind, DamageResult, MoveCategory, MoveTarget, StatType};
use firecore_battle::party::ActiveBattlePokemon;
use firecore_battle::player::{BattlePlayer, PlayerData, PlayerQuery, PlayerSettings, RemovalReason};
use firecore_battle::pokedex::item::bag::Bag;
use firecore_battle::pokedex::item::ItemStack;
use firecore_battle::pokedex::item::ItemId;
use firecore_battle::pokedex::moves::MoveId;
use firecore_battle::pokemon::{Ailment, BattlePokemon, LiveAilment, OwnedMove, StatStages};
use firecore_battle::queue::{before, move_queue, selections_clash_in, MovePriority};
use firecore_battle::scripting::AilmentLength;
use firecore_battle::select::{BattleSelection, BattleStatType, HpRatio, MoveCancelId, Indexed, PublicAction, SelectConfirm, SelectMessage, SelectReason, TeamIndex};
use firecore_battle::target::create_targets;
use firecore_battle::usage::{drain_healing, execute_uses, move_usage, uses_are_valid, ExecuteFault, MoveUse};
use firecore_battle::types::{Effective, PokemonType, PokemonTypes};
use rand::rngs::StdRng;
use rand::SeedableRng;

fn mid(s: &str) -> MoveId {
    MoveId(s.parse().unwrap())
}

fn mon(hp: u16, speed: u16) -> BattlePokemon {
    BattlePokemon {
        hp,
        max_hp: 100,
        level: 5,
        base_exp: 64,
        types: PokemonTypes { primary: PokemonType::Normal, secondary: None },
        attack: 50,
        defense: 50,
        sp_attack: 50,
        sp_defense: 50,
        speed,
        stages: StatStages::new(),
        moves: vec![OwnedMove { id: mid("tackle"), pp: 35 }, OwnedMove { id: mid("quick"), pp: 0 }],
        ailment: None,
        learnable: vec![],
        revealed: false,
    }
}

fn player(id: u64, pokemon: Vec<BattlePokemon>, active: usize) -> BattlePlayer {
    let mut p = PlayerData { id, name: None, party: pokemon, bag: Bag::default(), settings: PlayerSettings { gains_exp: true } }
        .init(active);
    p.ready = true;
    p
}

fn bmove(id: &str, priority: i8, target: MoveTarget) -> BattleMove {
    BattleMove {
        id: mid(id),
        category: MoveCategory::Physical,
        pokemon_type: PokemonType::Normal,
        accuracy: None,
        power: Some(40),
        priority,
        target,
        contact: Contact(true),
        crit_rate: 0,
    }
}

fn queue_on(p: &mut BattlePlayer, slot: usize, selection: BattleSelection) {
    let index = p.party.active[slot].unwrap().index;
    p.party.active[slot] = Some(ActiveBattlePokemon { index, queued_move: Some(selection) });
}

#[test]
fn damage_lowers_health_and_faints() {
    let mut players = PlayerQuery::new(vec![player(1, vec![mon(30, 10)], 1), player(2, vec![mon(50, 10)], 1)]);
    let data = BattleData::default();
    let mut actions = Vec::new();
    let hit = ActionResult::Damage(DamageResult { damage: 20, effective: Effective::SuperEffective, crit: false });
    run_action(TeamIndex(2, 0), hit, &data, &mut actions, &mut players);
    assert_eq!(players.0[1].party.pokemon[0].hp, 30);
    assert_eq!(actions.len(), 1);
    match actions[0] {
        Indexed(t, PublicAction::SetHP(ClientDamage::Result(r))) => {
            assert_eq!(t, TeamIndex(2, 0));
            assert_eq!(r.damage, HpRatio { hp: 30, max_hp: 100 });
            assert_eq!(r.effective, Effective::SuperEffective);
        },
        _ => panic!("expected a health change"),
    }
    let big = ActionResult::Damage(DamageResult { damage: 500, effective: Effective::Effective, crit: true });
    run_action(TeamIndex(2, 0), big, &data, &mut actions, &mut players);
    assert_eq!(players.0[1].party.pokemon[0].hp, 0);
    assert!(players.0[1].party.active[0].is_none());
    assert_eq!(players.0[0].party.pokemon[0].hp, 30);
}

#[test]
fn healing_is_capped_by_the_maximum_heal() {
    let mut players = PlayerQuery::new(vec![player(1, vec![mon(30, 10)], 1)]);
    let data = BattleData::default();
    let mut actions = Vec::new();
    run_action(TeamIndex(1, 0), ActionResult::Heal(25), &data, &mut actions, &mut players);
    assert_eq!(players.0[0].party.pokemon[0].hp, 55);
    run_action(TeamIndex(1, 0), ActionResult::Heal(-70), &data, &mut actions, &mut players);
    assert_eq!(players.0[0].party.pokemon[0].hp, 0);
    assert!(players.0[0].party.active[0].is_none());
    assert_eq!(actions.len(), 2);
}

#[test]
fn ailments_and_misses_are_reported() {
    let mut players = PlayerQuery::new(vec![player(1, vec![mon(30, 10)], 1)]);
    let data = BattleData::default();
    let mut actions = Vec::new();
    let burn = LiveAilment { ailment: Ailment::Burn, turns: None };
    run_action(TeamIndex(1, 0), ActionResult::Ailment(Some(burn)), &data, &mut actions, &mut players);
    assert_eq!(players.0[0].party.pokemon[0].ailment, Some(burn));
    run_action(TeamIndex(1, 0), ActionResult::Miss, &data, &mut actions, &mut players);
    assert_eq!(actions.len(), 2);
    assert!(matches!(actions[1].1, PublicAction::Miss));
}

#[test]
fn selecting_moves_and_items() {
    let mut p = player(1, vec![mon(30, 10)], 1);
    let tackle = BattleSelection::Move(mid("tackle"), None);
    match select(0, &tackle, &mut p) {
        SelectMessage::Confirm(SelectConfirm::Move(id, 1)) => assert_eq!(id, mid("tackle")),
        _ => panic!("expected a confirmed move"),
    }
    assert_eq!(p.party.pokemon[0].moves[0].pp, 34);
    assert_eq!(p.party.pokemon[0].moves[1].pp, 0);
    assert!(matches!(
        select(0, &BattleSelection::Move(mid("quick"), None), &mut p),
        SelectMessage::Request(Some(SelectReason::NoPP))
    ));
    assert!(matches!(
        select(0, &BattleSelection::Move(mid("surf"), None), &mut p),
        SelectMessage::Request(Some(SelectReason::MissingAction))
    ));
    let potion: ItemId = "potion".parse().unwrap();
    let item = BattleSelection::Item(Indexed(TeamIndex(1, 0), potion));
    assert!(matches!(select(0, &item, &mut p), SelectMessage::Request(Some(SelectReason::MissingAction))));
    p.bag.insert_saved(ItemStack { item: potion, count: 1 });
    assert!(matches!(select(0, &item, &mut p), SelectMessage::Confirm(SelectConfirm::Other)));
    assert_eq!(p.party.pokemon[0].moves[0].pp, 34);
    assert!(DefaultScriptEngine.execute_move().is_err());
    assert_eq!(DefaultScriptEngine.execute_item().unwrap_err(), DefaultScriptError);
}

#[test]
fn chances_and_ailment_uses() {
    let mut random = StdRng::seed_from_u64(11);
    assert!(!chance_roll(&mut random, 0));
    assert!(chance_roll(&mut random, 101));
    for _ in 0..200 {
        assert!(chance_roll(&mut random, 100));
        assert!(!chance_roll(&mut random, 0));
    }
    let healthy = mon(30, 10);
    let sick = BattlePokemon { ailment: Some(LiveAilment { ailment: Ailment::Poison, turns: None }), ..mon(30, 10) };
    assert!(ailment_use(&healthy, Some((Ailment::Burn, AilmentLength::Permanent)), 0, &mut random).is_none());
    match ailment_use(&healthy, Some((Ailment::Burn, AilmentLength::Permanent)), 100, &mut random) {
        Some(ActionResult::Ailment(Some(a))) => assert_eq!(a, LiveAilment { ailment: Ailment::Burn, turns: None }),
        _ => panic!("expected a burn"),
    }
    assert!(ailment_use(&sick, Some((Ailment::Burn, AilmentLength::Permanent)), 100, &mut random).is_none());
    assert!(matches!(ailment_use(&sick, None, 100, &mut random), Some(ActionResult::Ailment(None))));
    assert!(ailment_use(&healthy, None, 100, &mut random).is_none());
}

#[test]
fn faster_pokemon_move_first() {
    let mut p1 = player(1, vec![mon(30, 10)], 1);
    let mut p2 = player(2, vec![mon(30, 90)], 1);
    queue_on(&mut p1, 0, BattleSelection::Move(mid("tackle"), None));
    queue_on(&mut p2, 0, BattleSelection::Move(mid("tackle"), None));
    let mut query = PlayerQuery::new(vec![p1, p2]);
    let table = vec![bmove("tackle", 0, MoveTarget::Opponent), bmove("quick", 1, MoveTarget::Opponent)];
    let mut random = StdRng::seed_from_u64(2);
    let order = move_queue(&mut query, &table, &mut random);
    assert_eq!(order.len(), 2);
    assert_eq!(order[0].0, TeamIndex(2, 0));
    assert_eq!(order[1].0, TeamIndex(1, 0));
    assert!(query.0[0].party.active[0].unwrap().queued_move.is_none());
    assert!(query.0[1].party.active[0].unwrap().queued_move.is_none());
}

#[test]
fn move_priority_beats_speed_and_switches_go_first() {
    let mut p1 = player(1, vec![mon(30, 10), mon(30, 10)], 2);
    let mut p2 = player(2, vec![mon(30, 90), mon(30, 10)], 1);
    let mut quick = mon(30, 10);
    quick.moves[1].pp = 30;
    p1.party.pokemon[0] = quick;
    queue_on(&mut p1, 0, BattleSelection::Move(mid("quick"), None));
    queue_on(&mut p1, 1, BattleSelection::Pokemon(1));
    queue_on(&mut p2, 0, BattleSelection::Move(mid("tackle"), None));
    let mut query = PlayerQuery::new(vec![p1, p2]);
    let table = vec![bmove("tackle", 0, MoveTarget::Opponent), bmove("quick", 1, MoveTarget::Opponent)];
    let mut random = StdRng::seed_from_u64(2);
    let order = move_queue(&mut query, &table, &mut random);
    assert_eq!(order.len(), 3);
    assert_eq!(order[0].0, TeamIndex(1, 1));
    assert!(matches!(order[0].1, BattleSelection::Pokemon(1)));
    assert_eq!(order[1].0, TeamIndex(1, 0));
    assert_eq!(order[2].0, TeamIndex(2, 0));
}

#[test]
fn priority_order() {
    assert!(before(&MovePriority::First(1, 0), &MovePriority::Second(5, 100, None)));
    assert!(before(&MovePriority::First(1, 0), &MovePriority::First(1, 1)));
    assert!(before(&MovePriority::Second(1, 0, None), &MovePriority::Second(0, 100, None)));
    assert!(before(&MovePriority::Second(0, 50, None), &MovePriority::Second(0, 10, None)));
    assert!(before(&MovePriority::Second(0, 50, Some(2)), &MovePriority::Second(0, 50, Some(3))));
    assert!(!before(&MovePriority::Second(0, 50, Some(3)), &MovePriority::Second(0, 50, Some(3))));
}

#[test]
fn targets_of_moves() {
    let query = PlayerQuery::new(vec![player(1, vec![mon(30, 10), mon(30, 10)], 2), player(2, vec![mon(30, 10), mon(30, 10)], 2)]);
    let mut random = StdRng::seed_from_u64(4);
    let user = TeamIndex(1, 0);
    assert_eq!(create_targets(&query, user, &bmove("m", 0, MoveTarget::User), None, &mut random), vec![user]);
    assert_eq!(
        create_targets(&query, user, &bmove("m", 0, MoveTarget::AllOpponents), None, &mut random),
        vec![TeamIndex(2, 0), TeamIndex(2, 1)]
    );
    assert_eq!(create_targets(&query, user, &bmove("m", 0, MoveTarget::Allies), None, &mut random), vec![TeamIndex(1, 1)]);
    assert_eq!(
        create_targets(&query, user, &bmove("m", 0, MoveTarget::UserAndAllies), None, &mut random),
        vec![TeamIndex(1, 0), TeamIndex(1, 1)]
    );
    assert_eq!(
        create_targets(&query, user, &bmove("m", 0, MoveTarget::AllOtherPokemon), None, &mut random),
        vec![TeamIndex(1, 1), TeamIndex(2, 0), TeamIndex(2, 1)]
    );
    assert_eq!(create_targets(&query, user, &bmove("m", 0, MoveTarget::AllPokemon), None, &mut random).len(), 4);
    assert!(create_targets(&query, user, &bmove("m", 0, MoveTarget::NoTarget), None, &mut random).is_empty());
    assert_eq!(
        create_targets(&query, user, &bmove("m", 0, MoveTarget::Opponent), Some(TeamIndex(2, 1)), &mut random),
        vec![TeamIndex(2, 1)]
    );
    let random_target = create_targets(&query, user, &bmove("m", 0, MoveTarget::RandomOpponent), None, &mut random);
    assert_eq!(random_target.len(), 1);
    assert_eq!(random_target[0].0, 2);
}

#[test]
fn actions_on_a_missing_target_change_nothing() {
    let mut players = PlayerQuery::new(vec![player(1, vec![mon(30, 10)], 1)]);
    let data = BattleData::default();
    let mut actions = Vec::new();
    run_action(TeamIndex(5, 0), ActionResult::Heal(10), &data, &mut actions, &mut players);
    run_action(TeamIndex(1, 3), ActionResult::Miss, &data, &mut actions, &mut players);
    assert!(actions.is_empty());
    assert_eq!(players.0[0].party.pokemon[0].hp, 30);
}

#[test]
fn speed_ties_are_broken_by_chance() {
    // the first action queued at a priority and speed goes first; the ones
    // tied with it after that are ordered by chance
    let table = vec![bmove("tackle", 0, MoveTarget::Opponent)];
    let mut seconds = Vec::new();
    for seed in 0..40 {
        let mut players = Vec::new();
        for id in 1..=3 {
            let mut p = player(id, vec![mon(30, 50)], 1);
            queue_on(&mut p, 0, BattleSelection::Move(mid("tackle"), None));
            players.push(p);
        }
        let mut query = PlayerQuery::new(players);
        let mut random = StdRng::seed_from_u64(seed);
        let order = move_queue(&mut query, &table, &mut random);
        assert_eq!(order.len(), 3);
        assert_eq!(order[0].0 .0, 1);
        seconds.push(order[1].0 .0);
    }
    assert!(seconds.contains(&2));
    assert!(seconds.contains(&3));
}

#[test]
fn stat_changes_are_applied_and_told() {
    let mut players = PlayerQuery::new(vec![player(1, vec![mon(30, 10)], 1)]);
    let data = BattleData::default();
    let mut actions = Vec::new();
    let speed = BattleStatType::Basic(StatType::Speed);
    run_action(TeamIndex(1, 0), ActionResult::Stat(speed, 2), &data, &mut actions, &mut players);
    assert_eq!(players.0[0].party.pokemon[0].stages.get(speed), 2);
    assert_eq!(players.0[0].party.pokemon[0].stat(StatType::Speed), 20);
    assert_eq!(actions.len(), 1);
    assert!(matches!(actions[0].1, PublicAction::AddStat(BattleStatType::Basic(StatType::Speed), 2)));
}

#[test]
fn raised_speed_moves_first() {
    let mut p1 = player(1, vec![mon(30, 40)], 1);
    let mut p2 = player(2, vec![mon(30, 50)], 1);
    p1.party.pokemon[0].stages.change_stage(BattleStatType::Basic(StatType::Speed), 1);
    queue_on(&mut p1, 0, BattleSelection::Move(mid("tackle"), None));
    queue_on(&mut p2, 0, BattleSelection::Move(mid("tackle"), None));
    let mut query = PlayerQuery::new(vec![p1, p2]);
    let table = vec![bmove("tackle", 0, MoveTarget::Opponent)];
    let mut random = StdRng::seed_from_u64(5);
    let order = move_queue(&mut query, &table, &mut random);
    assert_eq!(order.len(), 2);
    assert_eq!(order[0].0, TeamIndex(1, 0));
    assert_eq!(order[1].0, TeamIndex(2, 0));
}

#[test]
fn players_sharing_an_id_are_ordered_too() {
    let mut p1 = player(7, vec![mon(30, 10)], 1);
    let mut p2 = player(7, vec![mon(30, 90), mon(30, 20)], 1);
    queue_on(&mut p1, 0, BattleSelection::Move(mid("tackle"), None));
    queue_on(&mut p2, 0, BattleSelection::Move(mid("tackle"), None));
    let mut query = PlayerQuery::new(vec![p1, p2]);
    assert!(!selections_clash_in(&query));
    let table = vec![bmove("tackle", 0, MoveTarget::Opponent)];
    let mut random = StdRng::seed_from_u64(3);
    let order = move_queue(&mut query, &table, &mut random);
    assert_eq!(order.len(), 2);
    assert_eq!(order[0].0, TeamIndex(7, 0));
    assert_eq!(order[1].0, TeamIndex(7, 0));
}

#[test]
fn switches_of_one_team_from_one_slot_clash() {
    let mut p1 = player(7, vec![mon(30, 10), mon(30, 10)], 1);
    let mut p2 = player(7, vec![mon(30, 90), mon(30, 20)], 1);
    queue_on(&mut p1, 0, BattleSelection::Pokemon(1));
    queue_on(&mut p2, 0, BattleSelection::Move(mid("tackle"), None));
    let query = PlayerQuery::new(vec![p1, p2]);
    assert!(!selections_clash_in(&query));
    let PlayerQuery(mut players) = query;
    queue_on(&mut players[1], 0, BattleSelection::Pokemon(1));
    assert!(selections_clash_in(&PlayerQuery::new(players)));
}

#[test]
fn drained_health_rounds_toward_zero() {
    assert_eq!(drain_healing(50, 50), 25);
    assert_eq!(drain_healing(33, 50), 16);
    assert_eq!(drain_healing(33, -50), -16);
    assert_eq!(drain_healing(0, 100), 0);
    assert_eq!(drain_healing(65535, 127), i16::MAX);
    assert_eq!(drain_healing(65535, -128), i16::MIN);
}

#[test]
fn uses_of_a_move_give_their_results_in_order() {
    let user = mon(30, 10);
    let target = mon(50, 10);
    let m = bmove("tackle", 0, MoveTarget::Opponent);
    let uses = vec![
        MoveUse::Damage(DamageKind::Constant(10)),
        MoveUse::Stat(BattleStatType::Basic(StatType::Attack), 1),
        MoveUse::Stat(BattleStatType::Basic(StatType::Health), 1),
        MoveUse::Flinch,
        MoveUse::Drain(DamageKind::Constant(40), 50),
        MoveUse::Chance(vec![MoveUse::Flinch], 0),
        MoveUse::Ailment(Some((Ailment::Burn, AilmentLength::Permanent)), 0),
        MoveUse::Chance(vec![MoveUse::Stat(BattleStatType::Evasion, -1)], 100),
    ];
    assert!(uses_are_valid(&uses));
    let formula = |_: &BattlePokemon, _: &BattlePokemon, kind: DamageKind, crit: bool, _: u8| DamageResult {
        damage: match kind {
            DamageKind::Constant(d) => d,
            _ => 0,
        },
        effective: Effective::Effective,
        crit,
    };
    let flinch: MoveCancelId = "flinch".parse().unwrap();
    let mut random = StdRng::seed_from_u64(8);
    let mut results = Vec::new();
    move_usage(&uses, TeamIndex(1, 0), &user, TeamIndex(2, 0), &target, &m, flinch, &mut random, &mut results, &formula);
    assert_eq!(results.len(), 6);
    assert!(matches!(results[5], Indexed(TeamIndex(2, 0), ActionResult::Stat(BattleStatType::Evasion, -1))));
    assert!(matches!(results[0], Indexed(TeamIndex(2, 0), ActionResult::Damage(DamageResult { damage: 10, .. }))));
    assert!(matches!(results[1], Indexed(TeamIndex(2, 0), ActionResult::Stat(BattleStatType::Basic(StatType::Attack), 1))));
    assert!(matches!(results[2], Indexed(TeamIndex(2, 0), ActionResult::Cancel(_))));
    assert!(matches!(results[3], Indexed(TeamIndex(2, 0), ActionResult::Damage(DamageResult { damage: 40, .. }))));
    assert!(matches!(results[4], Indexed(TeamIndex(1, 0), ActionResult::Heal(20))));
}

#[test]
fn invalid_uses_are_found() {
    assert!(!uses_are_valid(&vec![MoveUse::Ailment(None, 101)]));
    assert!(!uses_are_valid(&vec![MoveUse::Flinch, MoveUse::Chance(vec![MoveUse::Ailment(Some((Ailment::Sleep, AilmentLength::Temporary(3, 1))), 50)], 10)]));
    assert!(uses_are_valid(&vec![MoveUse::Chance(vec![MoveUse::Ailment(Some((Ailment::Sleep, AilmentLength::Temporary(1, 3))), 100)], 100)]));
}

#[test]
fn iter_gives_the_players_in_play_in_order() {
    let mut gone = player(2, vec![mon(30, 10)], 1);
    gone.removed = Some(RemovalReason::Run);
    let mut waiting = player(4, vec![mon(30, 10)], 1);
    waiting.ready = false;
    let query = PlayerQuery::new(vec![player(1, vec![mon(30, 10)], 1), gone, player(3, vec![mon(30, 10)], 1), waiting]);
    let ids: Vec<u64> = query.iter().iter().map(|p| p.party.id).collect();
    assert_eq!(ids, vec![1, 3]);
}

fn constant_formula(_: &BattlePokemon, _: &BattlePokemon, kind: DamageKind, crit: bool, _: u8) -> DamageResult<u16> {
    DamageResult {
        damage: match kind {
            DamageKind::Constant(d) => d,
            _ => 0,
        },
        effective: Effective::Effective,
        crit,
    }
}

#[test]
fn a_move_is_carried_out_against_its_targets() {
    let mut players = PlayerQuery::new(vec![player(1, vec![mon(30, 10)], 1), player(2, vec![mon(50, 10)], 1)]);
    let m = BattleMove { accuracy: None, ..bmove("tackle", 0, MoveTarget::Any) };
    let uses = vec![MoveUse::Damage(DamageKind::Constant(10)), MoveUse::Drain(DamageKind::Constant(20), 50)];
    let flinch: MoveCancelId = "flinch".parse().unwrap();
    let mut random = StdRng::seed_from_u64(4);
    let told = execute_uses(&m, &uses, TeamIndex(1, 0), Some(TeamIndex(2, 0)), flinch, &BattleData::default(), &mut players, &mut random, &constant_formula).unwrap();
    assert_eq!(players.0[1].party.pokemon[0].hp, 20);
    assert_eq!(players.0[0].party.pokemon[0].hp, 40);
    assert_eq!(told.len(), 3);
    assert_eq!(told[0].0, TeamIndex(2, 0));
    assert_eq!(told[2].0, TeamIndex(1, 0));
    assert!(matches!(told[2].1, PublicAction::SetHP(ClientDamage::Number(HpRatio { hp: 40, max_hp: 100 }))));
}

#[test]
fn a_move_stops_where_the_original_would_fail() {
    let m = BattleMove { accuracy: None, ..bmove("tackle", 0, MoveTarget::Any) };
    let flinch: MoveCancelId = "flinch".parse().unwrap();
    let mut random = StdRng::seed_from_u64(4);
    let data = BattleData::default();
    let uses = vec![MoveUse::Damage(DamageKind::Constant(10))];
    let mut players = PlayerQuery::new(vec![player(1, vec![mon(30, 10)], 1), player(2, vec![mon(50, 10)], 1)]);
    let r = execute_uses(&m, &uses, TeamIndex(1, 0), Some(TeamIndex(9, 0)), flinch, &data, &mut players, &mut random, &constant_formula);
    assert_eq!(r.unwrap_err(), ExecuteFault::MissingTarget);
    let r = execute_uses(&m, &uses, TeamIndex(7, 0), Some(TeamIndex(2, 0)), flinch, &data, &mut players, &mut random, &constant_formula);
    assert_eq!(r.unwrap_err(), ExecuteFault::MissingUser);
    let mut strong = mon(65530, 10);
    strong.max_hp = 65535;
    let mut players = PlayerQuery::new(vec![player(1, vec![strong], 1), player(2, vec![mon(50, 10)], 1)]);
    let drain = vec![MoveUse::Drain(DamageKind::Constant(40), 50)];
    let r = execute_uses(&m, &drain, TeamIndex(1, 0), Some(TeamIndex(2, 0)), flinch, &data, &mut players, &mut random, &constant_formula);
    assert_eq!(r.unwrap_err(), ExecuteFault::HealOverflow);
}

#[test]
fn a_move_can_miss() {
    let mut players = PlayerQuery::new(vec![player(1, vec![mon(30, 10)], 1), player(2, vec![mon(50, 10)], 1)]);
    let m = BattleMove { accuracy: Some(0), ..bmove("tackle", 0, MoveTarget::Any) };
    let uses = vec![MoveUse::Damage(DamageKind::Constant(10))];
    let flinch: MoveCancelId = "flinch".parse().unwrap();
    let mut random = StdRng::seed_from_u64(4);
    let told = execute_uses(&m, &uses, TeamIndex(1, 0), Some(TeamIndex(2, 0)), flinch, &BattleData::default(), &mut players, &mut random, &constant_formula).unwrap();
    assert_eq!(told.len(), 1);
    assert_eq!(told[0].0, TeamIndex(1, 0));
    assert!(matches!(told[0].1, PublicAction::Miss));
    assert_eq!(players.0[1].party.pokemon[0].hp, 50);
}
