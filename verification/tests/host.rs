use firecore_battle::data::{BattleData, BattleSettings, VersusType};
use firecore_battle::dex::Movedex;
use firecore_battle::host::{Battle, BattleState, ClientMessage, Outgoing, ServerMessage, TurnRequest};
use firecore_battle::moves::{BattleMove, Contact, MoveCategory, MoveTarget};
use firecore_battle::player::{PlayerData, PlayerSettings, RemovalReason};
use firecore_battle::pokedex::item::bag::Bag;
use firecore_battle::pokedex::moves::{Move, MoveId};
use firecore_battle::pokedex::Dex;
use firecore_battle::pokemon::{BattlePokemon, OwnedMove, StatStages};
use firecore_battle::select::{BattleSelection, ClientAction, ClientActionType, Indexed, PublicAction, SelectConfirm, SelectMessage, SelectReason, TeamIndex};
use firecore_battle::pokedex::item::ItemId;
use firecore_battle::types::{PokemonType, PokemonTypes};
use rand::rngs::StdRng;
use rand::SeedableRng;

fn mid(s: &str) -> MoveId {
    MoveId(s.parse().unwrap())
}

fn mon(hp: u16) -> BattlePokemon {
    BattlePokemon {
        hp,
        max_hp: 100,
        level: 5,
        base_exp: 64,
        types: PokemonTypes { primary: PokemonType::Normal, secondary: None },
        attack: 50,
        defense: 50,
        sp_attack: 50,
        sp_defense: 50,
        speed: 50,
        stages: StatStages::new(),
        moves: vec![OwnedMove { id: mid("tackle"), pp: 35 }],
        ailment: None,
        learnable: vec![],
        revealed: false,
    }
}

fn pdata(id: u64, party: Vec<BattlePokemon>) -> PlayerData {
    PlayerData { id, name: None, party, bag: Bag::default(), settings: PlayerSettings { gains_exp: true } }
}

fn battle(versus: VersusType, allow_forfeit: bool) -> Battle {
    let data = BattleData { versus, active: 1, settings: BattleSettings { allow_forfeit } };
    Battle::new(data, vec![pdata(1, vec![mon(50), mon(40)]), pdata(2, vec![mon(60)])])
}

fn table() -> Vec<BattleMove> {
    vec![BattleMove {
        id: mid("tackle"),
        category: MoveCategory::Physical,
        pokemon_type: PokemonType::Normal,
        accuracy: Some(95),
        power: Some(40),
        priority: 0,
        target: MoveTarget::Opponent,
        contact: Contact(true),
        crit_rate: 0,
    }]
}

fn movedex() -> Movedex {
    let mut dex: Dex<Move> = Dex::default();
    dex.insert(Move {
        id: mid("ember"),
        name: "Ember".to_string(),
        category: firecore_battle::pokedex::moves::MoveCategory::Special,
        pokemon_type: firecore_battle::pokedex::types::PokemonType::Fire,
        accuracy: Some(100),
        power: Some(40),
        pp: 25,
        priority: 0,
        target: firecore_battle::pokedex::moves::MoveTarget::Opponent,
        contact: false,
        crit_rate: 0,
    });
    Movedex { dex }
}

fn started(versus: VersusType, allow_forfeit: bool) -> Battle {
    let mut b = battle(versus, allow_forfeit);
    let mut random = StdRng::seed_from_u64(1);
    b.update(&table(), &mut random);
    b
}

fn is_to(m: &Outgoing, to: usize) -> bool {
    m.to == to
}

#[test]
fn the_battle_starts_by_sending_player_data() {
    let mut b = battle(VersusType::Trainer, true);
    assert_eq!(b.state, BattleState::Start);
    assert!(b.running());
    assert_eq!(b.winner(), None);
    assert!(!b.players.0[0].ready);
    let mut random = StdRng::seed_from_u64(1);
    let step = b.update(&table(), &mut random);
    assert!(step.turn.is_none());
    assert_eq!(step.messages.len(), 4);
    assert!(is_to(&step.messages[0], 0) && matches!(step.messages[0].message, ServerMessage::PlayerData));
    assert!(is_to(&step.messages[1], 0) && matches!(step.messages[1].message, ServerMessage::AddOpponent(1)));
    assert!(is_to(&step.messages[2], 1) && matches!(step.messages[2].message, ServerMessage::PlayerData));
    assert!(is_to(&step.messages[3], 1) && matches!(step.messages[3].message, ServerMessage::AddOpponent(0)));
    assert!(b.players.0[0].ready && b.players.0[1].ready);
    assert_eq!(b.state, BattleState::Selecting(false));
    assert!(b.players.0[0].party.pokemon[0].revealed);
    assert!(!b.players.0[0].party.pokemon[1].revealed);
}

#[test]
fn a_whole_turn() {
    let mut b = started(VersusType::Trainer, true);
    let mut random = StdRng::seed_from_u64(2);
    let dex = movedex();
    let step = b.update(&table(), &mut random);
    assert_eq!(step.messages.len(), 2);
    assert!(matches!(step.messages[0].message, ServerMessage::Select(0, SelectMessage::Request(None))));
    assert_eq!(b.state, BattleState::Selecting(true));
    let pp = b.players.0[0].party.pokemon[0].moves[0].pp;
    let answer = b.receive(0, ClientMessage::Select(0, BattleSelection::Move(mid("tackle"), None)), &dex);
    assert_eq!(b.players.0[0].party.pokemon[0].moves[0].pp, pp - 1);
    assert_eq!(answer.len(), 1);
    assert!(is_to(&answer[0], 0));
    assert!(matches!(answer[0].message, ServerMessage::Select(0, SelectMessage::Confirm(SelectConfirm::Move(_, 1)))));
    assert!(b.players.0[0].party.active[0].unwrap().queued());
    b.update(&table(), &mut random);
    assert_eq!(b.state, BattleState::Selecting(true));
    b.receive(1, ClientMessage::Select(0, BattleSelection::Move(mid("tackle"), Some(TeamIndex(1, 0)))), &dex);
    b.update(&table(), &mut random);
    assert_eq!(b.state, BattleState::Moves(false));
    let step = b.update(&table(), &mut random);
    assert_eq!(b.state, BattleState::Moves(true));
    let order = step.turn.unwrap();
    assert_eq!(order.len(), 2);
    assert!(!b.players.0[0].party.active[0].unwrap().queued());
    let told = b.finish_turn();
    assert_eq!(told.len(), 2);
    assert!(told.iter().all(|m| matches!(m.message, ServerMessage::Results)));
    b.update(&table(), &mut random);
    assert_eq!(b.state, BattleState::Selecting(false));
}

#[test]
fn wrong_selections_are_asked_again() {
    let mut b = started(VersusType::Trainer, true);
    let dex = movedex();
    let answer = b.receive(0, ClientMessage::Select(3, BattleSelection::Move(mid("tackle"), None)), &dex);
    assert!(matches!(answer[0].message, ServerMessage::Select(3, SelectMessage::Request(Some(SelectReason::InvalidInput)))));
    let answer = b.receive(0, ClientMessage::Select(0, BattleSelection::Move(mid("surf"), None)), &dex);
    assert!(matches!(answer[0].message, ServerMessage::Select(0, SelectMessage::Request(Some(SelectReason::MissingAction)))));
    assert!(!b.players.0[0].party.active[0].unwrap().queued());
    // the pokemon at party position 0 has not fainted: a switch is only checked
    let answer = b.receive(0, ClientMessage::Select(0, BattleSelection::Pokemon(1)), &dex);
    assert!(matches!(answer[0].message, ServerMessage::Select(0, SelectMessage::Confirm(SelectConfirm::Other))));
    assert_eq!(b.players.0[0].party.index(0), Some(0));
    let answer = b.receive(0, ClientMessage::Select(0, BattleSelection::Pokemon(0)), &dex);
    assert!(matches!(answer[0].message, ServerMessage::Select(0, SelectMessage::Request(Some(SelectReason::MissingAction)))));
}

#[test]
fn a_fainted_pokemon_is_replaced_and_shown() {
    let mut b = started(VersusType::Trainer, true);
    let dex = movedex();
    b.players.0[0].party.pokemon[0].hp = 0;
    b.players.0[0].party.active[0] = None;
    assert!(b.players.0[0].party.needs_replace());
    let told = b.receive(0, ClientMessage::Select(0, BattleSelection::Pokemon(1)), &dex);
    assert_eq!(told.len(), 4);
    assert!(is_to(&told[0], 0) && matches!(told[0].message, ServerMessage::Replace(_)));
    assert!(is_to(&told[1], 1) && matches!(told[1].message, ServerMessage::Reveal(TeamIndex(1, 1))));
    assert!(is_to(&told[2], 1) && matches!(told[2].message, ServerMessage::Replace(_)));
    assert!(is_to(&told[3], 0) && matches!(told[3].message, ServerMessage::Select(0, SelectMessage::Confirm(SelectConfirm::Other))));
    assert_eq!(b.players.0[0].party.index(0), Some(1));
    assert!(b.players.0[0].party.pokemon[1].revealed);
}

#[test]
fn running_from_a_wild_battle_ends_it() {
    let mut b = started(VersusType::Wild, false);
    let dex = movedex();
    let told = b.receive(0, ClientMessage::TryForfeit, &dex);
    assert_eq!(told.len(), 2);
    assert!(told.iter().all(|m| matches!(m.message, ServerMessage::Remove(1, RemovalReason::Run, 0))));
    assert_eq!(b.players.0[0].removed, Some(RemovalReason::Run));
    let mut random = StdRng::seed_from_u64(3);
    let step = b.update(&table(), &mut random);
    assert_eq!(b.state, BattleState::Winner(Some(2)));
    assert_eq!(b.winner(), Some(Some(2)));
    assert!(!b.running());
    assert!(step.messages.iter().any(|m| matches!(m.message, ServerMessage::End(Some(2)))));
    // a finished battle stays finished
    let step = b.update(&table(), &mut random);
    assert!(step.messages.is_empty());
    assert_eq!(b.state, BattleState::Winner(Some(2)));
}

#[test]
fn forfeiting_a_trainer_battle_needs_permission() {
    let mut b = started(VersusType::Trainer, false);
    let dex = movedex();
    assert!(b.receive(0, ClientMessage::TryForfeit, &dex).is_empty());
    assert_eq!(b.players.0[0].removed, None);
    let mut b = started(VersusType::Trainer, true);
    let told = b.receive(1, ClientMessage::TryForfeit, &dex);
    assert_eq!(told.len(), 2);
    assert_eq!(b.players.0[1].removed, Some(RemovalReason::Loss));
    assert!(b.receive(1, ClientMessage::TryForfeit, &dex).is_empty());
}

#[test]
fn learning_a_move_from_the_dex() {
    let mut b = started(VersusType::Trainer, true);
    let dex = movedex();
    b.players.0[0].party.pokemon[0].learnable = vec![mid("ember"), mid("growl")];
    assert!(b.receive(0, ClientMessage::LearnMove(0, mid("ember"), None), &dex).is_empty());
    assert_eq!(b.players.0[0].party.pokemon[0].moves.len(), 2);
    assert_eq!(b.players.0[0].party.pokemon[0].moves[1].id, mid("ember"));
    assert_eq!(b.players.0[0].party.pokemon[0].moves[1].pp, 25);
    assert_eq!(b.players.0[0].party.pokemon[0].learnable, vec![mid("growl")]);
    // not in the dex: struck off, not learnt
    b.receive(0, ClientMessage::LearnMove(0, mid("growl"), None), &dex);
    assert_eq!(b.players.0[0].party.pokemon[0].moves.len(), 2);
    assert!(b.players.0[0].party.pokemon[0].learnable.is_empty());
    // not learnable: nothing happens
    b.receive(0, ClientMessage::LearnMove(0, mid("ember"), None), &dex);
    assert_eq!(b.players.0[0].party.pokemon[0].moves.len(), 2);
}

#[test]
fn losing_every_pokemon_loses_the_battle() {
    let mut b = started(VersusType::Trainer, true);
    b.players.0[1].party.pokemon[0].hp = 0;
    let told = b.finish_turn();
    assert_eq!(b.players.0[1].removed, Some(RemovalReason::Loss));
    assert_eq!(b.state, BattleState::Winner(Some(1)));
    assert!(told.iter().any(|m| matches!(m.message, ServerMessage::Remove(2, RemovalReason::Loss, 0))));
    assert!(told.iter().any(|m| matches!(m.message, ServerMessage::End(Some(1)))));
}

#[test]
fn switching_in_during_a_turn() {
    let mut b = started(VersusType::Trainer, true);
    let (told, action) = b.switch_in(TeamIndex(1, 0), 1);
    assert_eq!(b.players.0[0].party.index(0), Some(1));
    assert!(b.players.0[0].party.pokemon[1].revealed);
    assert_eq!(told.len(), 2);
    assert!(told.iter().all(|m| matches!(m.message, ServerMessage::Reveal(TeamIndex(1, 1)))));
    assert_eq!(action.0, TeamIndex(1, 0));
    assert!(matches!(action.1, firecore_battle::select::PublicAction::Switch(1)));
}

#[test]
fn removing_and_ending_by_hand() {
    let mut b = started(VersusType::Trainer, true);
    let told = b.remove(2, RemovalReason::Loss);
    assert_eq!(told.len(), 2);
    assert_eq!(b.players.0[1].removed, Some(RemovalReason::Loss));
    assert!(b.remove(2, RemovalReason::Loss).is_empty());
    let told = b.end(None);
    assert_eq!(told.len(), 2);
    assert_eq!(b.winner(), Some(None));
}

#[test]
fn adding_players_later() {
    let mut b = started(VersusType::Trainer, true);
    let told = b.add_players(vec![pdata(3, vec![mon(10)])]);
    assert_eq!(b.players.0.len(), 3);
    assert!(b.players.0[2].ready);
    assert!(is_to(&told[0], 2) && matches!(told[0].message, ServerMessage::PlayerData));
    assert_eq!(told.len(), 3);
    b.get_data_mut().settings.allow_forfeit = false;
    assert!(!b.data().settings.allow_forfeit);
    b.reset();
    assert!(b.players.0.is_empty());
    assert_eq!(b.state, BattleState::Start);
}

#[test]
fn steps_of_a_turn_are_announced_and_handed_on() {
    let mut b = started(VersusType::Trainer, true);
    let tackle = BattleSelection::Move(mid("tackle"), Some(TeamIndex(2, 0)));
    let step = b.turn_step(0, Indexed(TeamIndex(1, 0), tackle));
    assert!(matches!(step.announce, ClientAction::Announce(0, Some(TeamIndex(1, 0)), ClientActionType::Move(_))));
    assert!(matches!(step.request, Some(TurnRequest::Move(_, TeamIndex(1, 0), Some(TeamIndex(2, 0))))));
    assert!(step.told.is_empty() && step.switch.is_none());
    let step = b.turn_step(1, Indexed(TeamIndex(9, 0), tackle));
    assert!(matches!(step.announce, ClientAction::Announce(1, Some(TeamIndex(9, 0)), ClientActionType::Move(_))));
    assert!(step.request.is_none());
    assert!(b.in_battle(TeamIndex(2, 0)));
    assert!(!b.in_battle(TeamIndex(2, 1)));
    let potion: ItemId = "potion".parse().unwrap();
    let step = b.turn_step(2, Indexed(TeamIndex(2, 0), BattleSelection::Item(Indexed(TeamIndex(2, 0), potion))));
    assert!(matches!(step.announce, ClientAction::Announce(2, Some(TeamIndex(2, 0)), ClientActionType::Item(_))));
    assert!(matches!(step.request, Some(TurnRequest::Item(_, TeamIndex(2, 0)))));
    let step = b.turn_step(3, Indexed(TeamIndex(1, 0), BattleSelection::Pokemon(1)));
    assert!(matches!(step.announce, ClientAction::Announce(3, Some(TeamIndex(1, 0)), ClientActionType::Pokemon(1))));
    assert!(step.request.is_none());
    assert_eq!(step.told.len(), 2);
    assert!(matches!(step.switch, Some(Indexed(TeamIndex(1, 0), PublicAction::Switch(1)))));
    assert_eq!(b.players.0[0].party.index(0), Some(1));
}
