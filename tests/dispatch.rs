use bot_core::command::{ArgMetadata, ArgRequirement, Command, CommandMetadata, ReplyRequirement};
use bot_core::dispatcher::{Dispatcher, Event, Handling, IncomingMessage, Outcome, Phase};
use bot_core::permission::Permission;

type Dp = Dispatcher<usize, &'static str, &'static str>;

fn meta(perm: Permission, handler: usize) -> CommandMetadata<usize> {
    CommandMetadata::new(perm, format!("handler {}", handler), ReplyRequirement::NoReply, vec![], handler)
}

fn cmd(name: &str) -> Command {
    Command { prefix: '/', name: name.to_string(), args: vec![] }
}

/// What the serving side observes while it drives one handling.
struct World {
    alive: bool,
    stored: Option<Permission>,
    prefixes: Vec<char>,
    store_reads: u32,
    invoked: Vec<usize>,
    ran: Vec<&'static str>,
    context_checks: u32,
}

impl World {
    fn new(alive: bool, stored: Option<Permission>) -> World {
        World { alive, stored, prefixes: vec!['/'], store_reads: 0, invoked: vec![], ran: vec![], context_checks: 0 }
    }
}

fn drive(dp: &Dp, mut h: Handling, w: &mut World) -> Outcome {
    loop {
        match h.phase {
            Phase::BeforeUpdateHandler(_) | Phase::BeforePrefixes | Phase::BeforePermission { .. } => {
                w.context_checks += 1;
                h = dp.advance(h, Event::Context(w.alive));
            }
            Phase::RunUpdateHandler(i) => {
                w.ran.push(dp.update_handlers[i]);
                h = dp.advance(h, Event::HandlerDone);
            }
            Phase::ReadPrefixes => {
                let p = w.prefixes.clone();
                h = dp.advance(h, Event::Prefixes(p));
            }
            Phase::ReadPermission { .. } => {
                w.store_reads += 1;
                let ev = match w.stored {
                    Some(p) => Event::StoredMask(p),
                    None => Event::StoreFailed,
                };
                h = dp.advance(h, ev);
            }
            Phase::Done(Outcome::Invoked(slot)) => {
                let (_, m) = dp.command_handlers.entry(slot);
                w.invoked.push(m.handler);
                return Outcome::Invoked(slot);
            }
            Phase::Done(o) => return o,
        }
    }
}

fn admin_dispatcher() -> Dp {
    let mut dp: Dp = Dispatcher::new();
    dp.register_plugin(
        "admin".to_string(),
        vec![("admincmd".to_string(), meta(Permission::admin(), 7))],
        vec![],
        "admin plugin",
    );
    dp
}

#[test]
fn later_registration_wins() {
    let mut dp: Dp = Dispatcher::new();
    dp.register_plugin(
        "a".to_string(),
        vec![("x".to_string(), meta(Permission::user(), 1)), ("y".to_string(), meta(Permission::user(), 2))],
        vec!["a1", "a2"],
        "plugin a",
    );
    dp.register_plugin(
        "b".to_string(),
        vec![("x".to_string(), meta(Permission::owner(), 3))],
        vec!["b1"],
        "plugin b",
    );
    assert_eq!(dp.command_handlers.len(), 2);
    let x = dp.command_handlers.get("x").unwrap();
    assert_eq!(x.handler, 3);
    assert_eq!(x.perm, Permission::owner());
    assert_eq!(dp.command_handlers.position("x"), Some(0));
    assert_eq!(dp.command_handlers.position("y"), Some(1));
    assert_eq!(dp.update_handlers, vec!["a1", "a2", "b1"]);
    assert_eq!(dp.plugins.len(), 2);
    dp.register_plugin("a".to_string(), vec![], vec![], "plugin a again");
    assert_eq!(dp.plugins.len(), 2);
    assert_eq!(*dp.plugins.get("a").unwrap(), "plugin a again");
    assert_eq!(dp.command_handlers.get("x").unwrap().handler, 3);
}

#[test]
fn user_cannot_run_admin_command() {
    let dp = admin_dispatcher();
    let mut w = World::new(true, Some(Permission::user()));
    let out = drive(&dp, dp.begin_command(Some(5), cmd("admincmd")), &mut w);
    assert_eq!(out, Outcome::PermissionDenied);
    assert_eq!(w.invoked.len(), 0);
}

#[test]
fn owner_runs_admin_command_once() {
    let dp = admin_dispatcher();
    let mut w = World::new(true, Some(Permission::owner()));
    let out = drive(&dp, dp.begin_command(Some(5), cmd("admincmd")), &mut w);
    assert_eq!(out, Outcome::Invoked(0));
    assert_eq!(w.invoked, vec![7]);
    assert_eq!(w.store_reads, 1);
}

#[test]
fn disposed_context_invokes_nothing() {
    let mut dp = admin_dispatcher();
    dp.register_plugin("raw".to_string(), vec![], vec!["r1", "r2"], "raw plugin");
    let mut w = World::new(false, Some(Permission::owner()));
    let out = drive(&dp, dp.begin_command(Some(5), cmd("admincmd")), &mut w);
    assert_eq!(out, Outcome::ContextDisposed);
    assert!(w.invoked.is_empty());
    assert_eq!(w.store_reads, 0);

    let mut w = World::new(false, Some(Permission::owner()));
    let msg = IncomingMessage { text: Some("/admincmd".to_string()), sender: Some(5) };
    let out = drive(&dp, dp.begin_update(Some(msg)), &mut w);
    assert_eq!(out, Outcome::ContextDisposed);
    assert!(w.ran.is_empty());
    assert!(w.invoked.is_empty());

    let mut w = World::new(false, Some(Permission::owner()));
    let msg = IncomingMessage { text: Some("/admincmd".to_string()), sender: Some(5) };
    let out = drive(&dp, dp.begin_message(msg), &mut w);
    assert_eq!(out, Outcome::ContextDisposed);
    assert!(w.invoked.is_empty());
}

#[test]
fn missing_sender_does_not_read_store() {
    let dp = admin_dispatcher();
    let mut w = World::new(true, Some(Permission::owner()));
    let out = drive(&dp, dp.begin_command(None, cmd("admincmd")), &mut w);
    assert_eq!(out, Outcome::NoSender);
    assert_eq!(w.store_reads, 0);
    assert!(w.invoked.is_empty());

    let mut w = World::new(true, Some(Permission::owner()));
    let msg = IncomingMessage { text: Some("/admincmd".to_string()), sender: None };
    let out = drive(&dp, dp.begin_message(msg), &mut w);
    assert_eq!(out, Outcome::NoSender);
    assert_eq!(w.store_reads, 0);
}

#[test]
fn unknown_command_and_plain_text() {
    let dp = admin_dispatcher();
    let mut w = World::new(true, Some(Permission::owner()));
    assert_eq!(drive(&dp, dp.begin_command(Some(1), cmd("nope")), &mut w), Outcome::UnknownCommand);
    let msg = IncomingMessage { text: Some("hello there".to_string()), sender: Some(1) };
    assert_eq!(drive(&dp, dp.begin_message(msg), &mut w), Outcome::NotACommand);
    let msg = IncomingMessage { text: None, sender: Some(1) };
    assert_eq!(drive(&dp, dp.begin_message(msg), &mut w), Outcome::NoText);
    assert_eq!(w.store_reads, 0);
}

#[test]
fn store_failure_denies_access() {
    let dp = admin_dispatcher();
    let mut w = World::new(true, None);
    let out = drive(&dp, dp.begin_command(Some(5), cmd("admincmd")), &mut w);
    assert_eq!(out, Outcome::StoreFailure);
    assert!(out.is_fault());
    assert!(!Outcome::PermissionDenied.is_fault());
    assert!(w.invoked.is_empty());
}

#[test]
fn update_runs_raw_handlers_in_order_then_the_command() {
    let mut dp = admin_dispatcher();
    dp.register_plugin("raw".to_string(), vec![], vec!["r1", "r2"], "raw plugin");
    dp.register_plugin("more".to_string(), vec![], vec!["r3"], "more plugin");
    let mut w = World::new(true, Some(Permission::admin()));
    w.prefixes = vec!['!', '/'];
    let msg = IncomingMessage { text: Some("!admincmd now".to_string()), sender: Some(5) };
    let mut h = dp.begin_update(Some(msg));
    assert_eq!(h.phase, Phase::BeforeUpdateHandler(0));
    let out = drive(&dp, dp.advance(std::mem::replace(&mut h, dp.begin_update(None)), Event::Context(true)), &mut w);
    assert_eq!(out, Outcome::Invoked(0));
    assert_eq!(w.ran, vec!["r1", "r2", "r3"]);
    assert_eq!(w.invoked, vec![7]);
    assert_eq!(h.phase, Phase::BeforeUpdateHandler(0));
}

#[test]
fn update_without_message_runs_handlers_only() {
    let mut dp: Dp = Dispatcher::new();
    let mut w = World::new(true, None);
    assert_eq!(drive(&dp, dp.begin_update(None), &mut w), Outcome::NotAMessage);
    dp.register_plugin("raw".to_string(), vec![], vec!["r1"], "raw plugin");
    assert_eq!(drive(&dp, dp.begin_update(None), &mut w), Outcome::NotAMessage);
    assert_eq!(w.ran, vec!["r1"]);
}

#[test]
fn events_out_of_turn_change_nothing() {
    let dp = admin_dispatcher();
    let h = dp.begin_command(Some(5), cmd("admincmd"));
    let h = dp.advance(h, Event::HandlerDone);
    assert_eq!(h.phase, Phase::BeforePermission { slot: 0, user: 5 });
    let h = dp.advance(h, Event::StoredMask(Permission::owner()));
    assert_eq!(h.phase, Phase::BeforePermission { slot: 0, user: 5 });
    let h = dp.advance(h, Event::Context(true));
    assert_eq!(h.phase, Phase::ReadPermission { slot: 0, user: 5 });
    let h = dp.advance(h, Event::StoredMask(Permission::owner()));
    assert_eq!(h.phase, Phase::Done(Outcome::Invoked(0)));
    assert_eq!(h.command.as_ref().map(|c| c.name.as_str()), Some("admincmd"));
    let h = dp.advance(h, Event::Context(false));
    assert_eq!(h.phase, Phase::Done(Outcome::Invoked(0)));
}

#[test]
fn metadata_constructors() {
    let a = ArgMetadata::new("user_id".to_string(), "who".to_string(), ArgRequirement::OnlyWithoutReply);
    assert_eq!(a.name, "user_id");
    assert_eq!(a.requirement, ArgRequirement::OnlyWithoutReply);
    let m = CommandMetadata::new(Permission::owner(), "d".to_string(), ReplyRequirement::Required, vec![a.clone()], 1u8);
    assert_eq!(m.args, vec![a]);
    assert_eq!(m.reply, ReplyRequirement::Required);
    assert_eq!(m.handler, 1);
}
