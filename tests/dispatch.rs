use command_engine::bindings::ArgBindings;
use command_engine::command::{CommandArgHandler, CommandBuilder, CommandContext, RegistrationError};
use command_engine::manager::{CommandManager, DispatchAction, DispatchPlan};
use command_engine::text::parse_command_line;
use command_engine::validate::{
    ArgError, ArgKind, ArgValidator, NumberConstraints, PlayerConstraints, PlayerDirectory,
    PlayerInfo, StringConstraints, Violation,
};

fn player(id: i32, spawned: bool, name: &str, health: i32) -> PlayerInfo {
    PlayerInfo { id, spawned, name: name.to_string(), health }
}

fn strings(v: &[&str]) -> Vec<String> {
    v.iter().map(|s| s.to_string()).collect()
}

fn steps(plan: &DispatchPlan) -> Vec<(Vec<usize>, Vec<String>)> {
    plan.steps.iter().map(|s| (s.path.clone(), s.args.clone())).collect()
}

#[test]
fn tokenizes_identifier_and_arguments() {
    let (id, args) = parse_command_line("/test 5 hello world").unwrap();
    assert_eq!(id, "test");
    assert_eq!(args, strings(&["5", "hello", "world"]));
}

#[test]
fn tokenizer_collapses_whitespace_runs() {
    let (id, args) = parse_command_line("  /veh\t spawn   411  ").unwrap();
    assert_eq!(id, "veh");
    assert_eq!(args, strings(&["spawn", "411"]));
}

#[test]
fn line_without_marker_is_not_a_command() {
    assert!(parse_command_line("test 5").is_none());
    assert!(parse_command_line("").is_none());
    assert!(parse_command_line("   ").is_none());
}

#[test]
fn unknown_command_calls_nothing_and_reports_nothing() {
    let mut m: CommandManager<u32> = CommandManager::new();
    m.add(CommandBuilder::new("test").handler(1).build().unwrap()).unwrap();
    let dir = PlayerDirectory::new();
    let plan = m.process("/other 1 2", &dir);
    assert!(plan.steps.is_empty());
    assert!(plan.failure.is_none());
    assert_eq!(plan.next_action(0, Ok(())), DispatchAction::Done);
    let plan = m.process("hello there", &dir);
    assert!(plan.steps.is_empty());
    assert!(plan.failure.is_none());
}

#[test]
fn number_validator_rejects_text_before_handler() {
    let mut m: CommandManager<u32> = CommandManager::new();
    let cmd = CommandBuilder::new("give")
        .validator(0, ArgValidator::Number(NumberConstraints::new()))
        .handler(7)
        .build()
        .unwrap();
    m.add(cmd).unwrap();
    let dir = PlayerDirectory::new();
    let plan = m.process("/give abc", &dir);
    assert!(plan.steps.is_empty());
    assert_eq!(plan.failure, Some(ArgError::ParseError(ArgKind::Number)));
    assert_eq!(
        plan.next_action(0, Ok(())),
        DispatchAction::Notify("Invalid number".to_string())
    );
}

#[test]
fn inactive_player_fails_spawn_constraint() {
    let mut m: CommandManager<u32> = CommandManager::new();
    let cmd = CommandBuilder::new("heal")
        .validator(0, ArgValidator::Player(PlayerConstraints::new().must_be_spawned()))
        .handler(1)
        .build()
        .unwrap();
    m.add(cmd).unwrap();
    let mut dir = PlayerDirectory::new();
    dir.insert(player(3, false, "alice", 100));
    let plan = m.process("/heal 3", &dir);
    assert!(plan.steps.is_empty());
    assert_eq!(plan.failure, Some(ArgError::ConstraintViolation(Violation::NotSpawned)));
    assert_eq!(plan.failure.unwrap().message(), "Player must be spawned");
}

#[test]
fn free_text_takes_the_rest_and_ends_the_cursor() {
    let bindings = ArgBindings::new();
    let dir = PlayerDirectory::new();
    let mut cur = CommandArgHandler::new(strings(&["a", "b", "c"]), &bindings, &dir);
    assert_eq!(cur.next_text(), Ok(Some("a b c".to_string())));
    assert_eq!(cur.index, 3);
    assert_eq!(
        cur.next_string(),
        Err(ArgError::MissingArgument { kind: ArgKind::String, position: 3 })
    );
    assert_eq!(cur.next_text(), Ok(None));
}

#[test]
fn mismatched_request_does_not_advance() {
    let bindings = ArgBindings::new().bind(0, ArgValidator::Number(NumberConstraints::new()));
    let dir = PlayerDirectory::new();
    let mut cur = CommandArgHandler::new(strings(&["5"]), &bindings, &dir);
    assert_eq!(
        cur.next_player(),
        Err(ArgError::ValidatorMismatch {
            bound: ArgKind::Number,
            requested: ArgKind::Player,
            position: 0
        })
    );
    assert_eq!(cur.index, 0);
    assert_eq!(cur.next_number(), Ok(5));
    assert_eq!(cur.index, 1);
}

#[test]
fn mismatch_message_names_both_kinds() {
    let e = ArgError::ValidatorMismatch { bound: ArgKind::Number, requested: ArgKind::Player, position: 0 };
    assert_eq!(
        e.message(),
        "Validator mismatch at position 0: expected Number, but you used next_player()"
    );
}

#[test]
fn free_text_checks_its_binding() {
    let bindings = ArgBindings::new().bind(1, ArgValidator::String(StringConstraints::new()));
    let dir = PlayerDirectory::new();
    let mut cur = CommandArgHandler::new(strings(&["x", "y", "z"]), &bindings, &dir);
    assert_eq!(cur.next_string(), Ok("x".to_string()));
    assert_eq!(cur.index, 1);
    assert_eq!(
        cur.next_text(),
        Err(ArgError::ValidatorMismatch {
            bound: ArgKind::String,
            requested: ArgKind::Text,
            position: 1
        })
    );
    assert_eq!(cur.index, 1);
}

#[test]
fn next_player_resolves_and_reports_unknown_ids() {
    let bindings = ArgBindings::new();
    let mut dir = PlayerDirectory::new();
    dir.insert(player(4, true, "bob", 50));
    let mut cur = CommandArgHandler::new(strings(&["4", "9", "x"]), &bindings, &dir);
    assert_eq!(cur.next_player().unwrap().name, "bob");
    assert_eq!(cur.next_player(), Err(ArgError::EntryNotFound(9)));
    assert_eq!(cur.index, 1);
    cur.index = 2;
    assert_eq!(cur.next_player(), Err(ArgError::ParseError(ArgKind::Player)));
    assert_eq!(cur.index, 2);
}

#[test]
fn subcommand_receives_remaining_tokens() {
    let spawn = CommandBuilder::new("spawn")
        .validator(0, ArgValidator::Number(NumberConstraints::new().min(400).max(611)))
        .handler(2)
        .build()
        .unwrap();
    let veh = CommandBuilder::new("veh").handler(1).subcommand(spawn).build().unwrap();
    let mut m: CommandManager<u32> = CommandManager::new();
    m.add(veh).unwrap();
    let dir = PlayerDirectory::new();
    let plan = m.process("/veh spawn 411", &dir);
    assert_eq!(
        steps(&plan),
        vec![(vec![0], strings(&["spawn", "411"])), (vec![0, 0], strings(&["411"]))]
    );
    assert!(plan.failure.is_none());
    assert_eq!(*m.command_at(&vec![0, 0]).unwrap().handler.as_ref().unwrap(), 2);
    assert_eq!(plan.next_action(1, Ok(())), DispatchAction::Invoke(1));
    assert_eq!(
        plan.next_action(1, Err("no money".to_string())),
        DispatchAction::Notify("no money".to_string())
    );
}

#[test]
fn unknown_subcommand_is_silent() {
    let spawn = CommandBuilder::new("spawn").handler(2).build().unwrap();
    let veh = CommandBuilder::new("veh").handler(1).subcommand(spawn).build().unwrap();
    let mut m: CommandManager<u32> = CommandManager::new();
    m.add(veh).unwrap();
    let dir = PlayerDirectory::new();
    let plan = m.process("/veh foo", &dir);
    assert_eq!(steps(&plan), vec![(vec![0], strings(&["foo"]))]);
    assert!(plan.failure.is_none());
}

#[test]
fn subcommand_without_parent_handler() {
    let spawn = CommandBuilder::new("spawn")
        .validator(0, ArgValidator::Number(NumberConstraints::new().min(400)))
        .handler(2)
        .build()
        .unwrap();
    let veh: command_engine::command::Command<u32> =
        CommandBuilder::new("veh").subcommand(spawn).build().unwrap();
    let mut m = CommandManager::new();
    m.add(veh).unwrap();
    let dir = PlayerDirectory::new();
    let plan = m.process("/veh spawn 12", &dir);
    assert!(plan.steps.is_empty());
    assert_eq!(plan.failure, Some(ArgError::ConstraintViolation(Violation::BelowMin(400))));
    assert_eq!(plan.next_action(0, Ok(())), DispatchAction::Notify("Number must be at least 400".to_string()));
}

#[test]
fn repeated_dispatch_gives_the_same_plan() {
    let cmd = CommandBuilder::new("pm")
        .validator(0, ArgValidator::Player(PlayerConstraints::new()))
        .validator(1, ArgValidator::Text)
        .handler(5)
        .build()
        .unwrap();
    let mut m: CommandManager<u32> = CommandManager::new();
    m.add(cmd).unwrap();
    let mut dir = PlayerDirectory::new();
    dir.insert(player(1, true, "carol", 80));
    for line in ["/pm 1 hi there", "/pm 2 hi", "/pm", "/pm x y"] {
        let a = m.process(line, &dir);
        let b = m.process(line, &dir);
        assert_eq!(steps(&a), steps(&b));
        assert_eq!(a.failure, b.failure);
    }
}

#[test]
fn validation_runs_in_ascending_position_order() {
    let cmd = CommandBuilder::new("set")
        .validator(2, ArgValidator::Number(NumberConstraints::new()))
        .validator(0, ArgValidator::Number(NumberConstraints::new().positive()))
        .handler(1)
        .build()
        .unwrap();
    let mut m: CommandManager<u32> = CommandManager::new();
    m.add(cmd).unwrap();
    let dir = PlayerDirectory::new();
    let plan = m.process("/set -1 a b", &dir);
    assert_eq!(plan.failure, Some(ArgError::ConstraintViolation(Violation::NotPositive)));
    let plan = m.process("/set 1 a", &dir);
    assert_eq!(
        plan.failure,
        Some(ArgError::MissingArgument { kind: ArgKind::Number, position: 2 })
    );
    assert_eq!(
        plan.failure.unwrap().message(),
        "Missing number argument at position 2"
    );
    let plan = m.process("/set 1 a 3", &dir);
    assert_eq!(steps(&plan), vec![(vec![0], strings(&["1", "a", "3"]))]);
}

#[test]
fn rebinding_a_position_replaces_the_validator() {
    let b = ArgBindings::new()
        .bind(3, ArgValidator::Text)
        .bind(1, ArgValidator::Text)
        .bind(3, ArgValidator::Number(NumberConstraints::new()));
    assert_eq!(b.len(), 2);
    assert_eq!(b.entry(0).0, 1);
    assert_eq!(b.entry(1).0, 3);
    assert_eq!(b.get(3).unwrap().kind(), ArgKind::Number);
    assert!(b.get(2).is_none());
}

#[test]
fn duplicate_identifiers_are_refused() {
    let mut m: CommandManager<u32> = CommandManager::new();
    m.add(CommandBuilder::new("a").build().unwrap()).unwrap();
    assert_eq!(
        m.add(CommandBuilder::new("a").handler(1).build().unwrap()),
        Err(RegistrationError::DuplicateIdentifier("a".to_string()))
    );
    let b = CommandBuilder::<u32>::new("p")
        .subcommand(CommandBuilder::new("x").build().unwrap())
        .subcommand(CommandBuilder::new("y").build().unwrap())
        .subcommand(CommandBuilder::new("x").build().unwrap())
        .build();
    assert!(matches!(b, Err(RegistrationError::DuplicateIdentifier(n)) if n == "x"));
}

#[test]
fn context_keeps_caller_and_raw_line() {
    let bindings = ArgBindings::new();
    let dir = PlayerDirectory::new();
    let cur = CommandArgHandler::new(strings(&["1"]), &bindings, &dir);
    let ctx = CommandContext::new(12, "/x 1", cur);
    assert_eq!(ctx.player, 12);
    assert_eq!(ctx.raw, "/x 1");
    assert_eq!(ctx.arg.index, 0);
}
