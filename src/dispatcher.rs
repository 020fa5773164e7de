use vstd::prelude::*;

use crate::command::{is_command, Command, CommandMetadata};
use crate::permission::{can, ranks_at_least, Permission, UserId};
use crate::registry::{
    has_name, insert_all, insert_named, lemma_insert_all, lookup, position_of, unique_names,
    NamedTable,
};

verus! {

/// The entries of a list of `(name, value)` pairs, with names as characters.
pub open spec fn named<V>(items: Seq<(String, V)>) -> Seq<(Seq<char>, V)> {
    items.map_values(|e: (String, V)| (e.0@, e.1))
}

/// The registry and dispatcher of commands: the merged command table, the
/// raw-update handlers of every plugin in registration order, and the plugins
/// by name. `H` is a command handler, `U` a raw-update handler, `P` a plugin.
pub struct Dispatcher<H, U, P> {
    pub command_handlers: NamedTable<CommandMetadata<H>>,
    pub update_handlers: Vec<U>,
    pub plugins: NamedTable<P>,
}

impl<H, U, P> Dispatcher<H, U, P> {
    pub open spec fn wf(&self) -> bool {
        self.command_handlers.wf() && self.plugins.wf()
    }

    /// A dispatcher with no plugin registered.
    pub fn new() -> (r: Dispatcher<H, U, P>)
        ensures
            r.wf(),
            r.command_handlers@ == Seq::<(Seq<char>, CommandMetadata<H>)>::empty(),
            r.update_handlers@ == Seq::<U>::empty(),
            r.plugins@ == Seq::<(Seq<char>, P)>::empty(),
    {
        Dispatcher {
            command_handlers: NamedTable::new(),
            update_handlers: Vec::new(),
            plugins: NamedTable::new(),
        }
    }

    /// Registers the plugin `plugin` named `name`, with its commands and its
    /// raw-update handlers: the handlers are appended in order; each command
    /// is inserted into the merged table, a later one replacing an earlier
    /// one of the same name where it stands; the plugin replaces one of the
    /// same name. Registration cannot fail.
    pub fn register_plugin(
        &mut self,
        name: String,
        commands: Vec<(String, CommandMetadata<H>)>,
        update_handlers: Vec<U>,
        plugin: P,
    )
        requires
            old(self).wf(),
        ensures
            final(self).wf(),
            final(self).update_handlers@ == old(self).update_handlers@ + update_handlers@,
            final(self).command_handlers@ == insert_all(
                old(self).command_handlers@,
                named(commands@),
            ),
            final(self).plugins@ == insert_named(old(self).plugins@, name@, plugin),
    {
        let mut handlers = update_handlers;
        assert(named(commands@).subrange(named(commands@).len() - commands@.len(), named(commands@).len() as int) =~= named(commands@));
        assert(named(commands@).subrange(0, 0) =~= Seq::<(Seq<char>, CommandMetadata<H>)>::empty());
        self.update_handlers.append(&mut handlers);
        let ghost start = self.command_handlers@;
        let ghost items = named(commands@);
        let mut cmds = commands;
        while cmds.len() > 0
            invariant
                self.command_handlers.wf(),
                self.plugins.wf(),
                self.plugins@ == old(self).plugins@,
                self.update_handlers@ == old(self).update_handlers@ + update_handlers@,
                0 <= items.len() - cmds@.len() <= items.len(),
                self.command_handlers@ == insert_all(start, items.subrange(0, items.len() - cmds@.len())),
                named(cmds@) == items.subrange(items.len() - cmds@.len(), items.len() as int),
            decreases cmds@.len(),
        {
            let ghost done = items.len() - cmds@.len();
            let ghost before = cmds@;
            assert(named(before)[0] == items[done]);
            let (k, v) = cmds.remove(0);
            assert(before[0] == (k, v));
            assert(items[done] == (k@, v));
            assert(items.subrange(0, done + 1).drop_last() =~= items.subrange(0, done));
            self.command_handlers.insert(k, v);
            assert(cmds@ == before.subrange(1, before.len() as int));
            assert(named(cmds@) =~= named(before).subrange(1, before.len() as int));
            assert(named(cmds@) =~= items.subrange(items.len() - cmds@.len(), items.len() as int));
        }
        assert(items.subrange(0, items.len() as int) =~= items);
        self.plugins.insert(name, plugin);
    }
}

/// Later registration wins: when two plugins, registered one after the
/// other, both declare a command named `k`, the merged table holds exactly
/// one entry named `k`, and its metadata is the second plugin's.
pub proof fn lemma_later_registration_wins<H>(
    table: Seq<(Seq<char>, CommandMetadata<H>)>,
    first: Seq<(Seq<char>, CommandMetadata<H>)>,
    second: Seq<(Seq<char>, CommandMetadata<H>)>,
    k: Seq<char>,
)
    requires
        unique_names(table),
        unique_names(first),
        unique_names(second),
        has_name(first, k),
        has_name(second, k),
    ensures
        unique_names(insert_all(insert_all(table, first), second)),
        has_name(insert_all(insert_all(table, first), second), k),
        lookup(insert_all(insert_all(table, first), second), k) == Some(
            second[position_of(second, k)].1,
        ),
{
    lemma_insert_all(table, first);
    lemma_insert_all(insert_all(table, first), second);
}

/// What the dispatcher reads of an inbound text message.
#[derive(Debug, Clone)]
pub struct IncomingMessage {
    pub text: Option<String>,
    pub sender: Option<UserId>,
}

/// How the handling of one inbound update ended.
#[derive(Clone, Copy, Debug, PartialEq, Eq, Structural)]
pub enum Outcome {
    /// The update is no text message; every raw-update handler ran.
    NotAMessage,
    /// The message has no text.
    NoText,
    /// The shared context was gone when it was needed.
    ContextDisposed,
    /// The text does not read as a command under the configured prefixes.
    NotACommand,
    /// The message has no identifiable sender.
    NoSender,
    /// No plugin registered a command of that name.
    UnknownCommand,
    /// The sender's level is below the command's requirement.
    PermissionDenied,
    /// The permission store could not answer: access is denied.
    StoreFailure,
    /// The handler of the command at this position of the table was started.
    Invoked(usize),
}

impl Outcome {
    /// Only a store failure is a fault worth reporting; every other ending
    /// is an expected miss.
    pub fn is_fault(&self) -> (r: bool)
        ensures
            r == (*self == Outcome::StoreFailure),
    {
        match self {
            Outcome::StoreFailure => true,
            _ => false,
        }
    }
}

/// Where the handling of an update stands, and so what the caller does next.
#[derive(Clone, Copy, Debug, PartialEq, Eq, Structural)]
pub enum Phase {
    /// Raw-update handler `i` is next: resolve the context and answer
    /// `Event::Context`.
    BeforeUpdateHandler(usize),
    /// Run raw-update handler `i` to completion, then answer
    /// `Event::HandlerDone`.
    RunUpdateHandler(usize),
    /// The message has text: resolve the context and answer `Event::Context`.
    BeforePrefixes,
    /// Read the configured prefixes and answer `Event::Prefixes`.
    ReadPrefixes,
    /// The command at `slot` was found for `user`: resolve the context and
    /// answer `Event::Context`.
    BeforePermission { slot: usize, user: UserId },
    /// Read the stored mask of `user` and answer `Event::StoredMask`, or
    /// `Event::StoreFailed` when the store cannot answer.
    ReadPermission { slot: usize, user: UserId },
    /// Nothing is left to do.
    Done(Outcome),
}

/// What the caller observed while doing what a phase asked.
pub enum Event {
    /// The weak context reference resolved (`true`) or the context is gone.
    Context(bool),
    /// The raw-update handler ran to completion.
    HandlerDone,
    /// The prefixes configured now.
    Prefixes(Vec<char>),
    /// The mask the store holds for the principal.
    StoredMask(Permission),
    /// The store could not be read.
    StoreFailed,
}

/// Whether `phase` waits for an event of the kind of `event`.
pub open spec fn expects(phase: Phase, event: Event) -> bool {
    match phase {
        Phase::BeforeUpdateHandler(_) | Phase::BeforePrefixes | Phase::BeforePermission { .. } => event is Context,
        Phase::RunUpdateHandler(_) => event is HandlerDone,
        Phase::ReadPrefixes => event is Prefixes,
        Phase::ReadPermission { .. } => event is StoredMask || event is StoreFailed,
        Phase::Done(_) => false,
    }
}

/// The handling of one inbound update: its phase, the message it carries
/// (if it is a text message) and the command parsed from it.
pub struct Handling {
    pub phase: Phase,
    pub message: Option<IncomingMessage>,
    pub command: Option<Command>,
}

impl<H, U, P> Dispatcher<H, U, P> {
    /// Starts dispatching `command` sent by `sender`: without a sender, or
    /// for a name no plugin registered, nothing happens; otherwise the
    /// context is resolved next. The permission store is not touched here.
    pub fn begin_command(&self, sender: Option<UserId>, command: Command) -> (r: Handling)
        requires
            self.wf(),
        ensures
            r.command == Some(command),
            sender is None ==> r.phase == Phase::Done(Outcome::NoSender),
            sender is Some && !has_name(self.command_handlers@, command.name@) ==> r.phase
                == Phase::Done(Outcome::UnknownCommand),
            sender is Some && has_name(self.command_handlers@, command.name@) ==> r.phase
                == (Phase::BeforePermission {
                slot: position_of(self.command_handlers@, command.name@) as usize,
                user: sender->0,
            }),
    {
        let phase = match sender {
            None => Phase::Done(Outcome::NoSender),
            Some(user) => match self.command_handlers.position(command.name.as_str()) {
                None => Phase::Done(Outcome::UnknownCommand),
                Some(slot) => Phase::BeforePermission { slot, user },
            },
        };
        Handling { phase, message: None, command: Some(command) }
    }

    /// Starts handling a text message: without text nothing happens;
    /// otherwise the context is resolved before the prefixes are read.
    pub fn begin_message(&self, message: IncomingMessage) -> (r: Handling)
        ensures
            r.message == Some(message),
            r.command is None,
            message.text is None ==> r.phase == Phase::Done(Outcome::NoText),
            message.text is Some ==> r.phase == Phase::BeforePrefixes,
    {
        let phase = match &message.text {
            None => Phase::Done(Outcome::NoText),
            Some(_) => Phase::BeforePrefixes,
        };
        Handling { phase, message: Some(message), command: None }
    }

    /// Starts handling an inbound update, `message` being its text message if
    /// it is one: the raw-update handlers come first, in registration order.
    pub fn begin_update(&self, message: Option<IncomingMessage>) -> (r: Handling)
        ensures
            self.update_handlers@.len() > 0 ==> r.phase == Phase::BeforeUpdateHandler(0)
                && r.message == message && r.command is None,
            self.update_handlers@.len() == 0 ==> r == self.after_update_handlers(message),
    {
        if self.update_handlers.len() > 0 {
            Handling { phase: Phase::BeforeUpdateHandler(0), message, command: None }
        } else {
            self.finish_update_handlers(message)
        }
    }

    /// What follows the last raw-update handler.
    pub open spec fn after_update_handlers(&self, message: Option<IncomingMessage>) -> Handling {
        match message {
            None => Handling { phase: Phase::Done(Outcome::NotAMessage), message: None, command: None },
            Some(m) => Handling {
                phase: if m.text is None { Phase::Done(Outcome::NoText) } else { Phase::BeforePrefixes },
                message: Some(m),
                command: None,
            },
        }
    }

    /// Moves the handling of an update on by what the caller observed.
    /// A phase that waits for the context ends the handling quietly when the
    /// context is gone. An event that the phase does not wait for changes
    /// nothing.
    pub fn advance(&self, h: Handling, event: Event) -> (r: Handling)
        requires
            self.wf(),
        ensures
            // the context is gone: the update is dropped, no handler runs
            ({
                ||| h.phase is BeforeUpdateHandler
                ||| h.phase is BeforePrefixes
                ||| h.phase is BeforePermission
            }) && event == Event::Context(false) ==> r.phase == Phase::Done(Outcome::ContextDisposed),
            // the context is there: go on
            h.phase is BeforeUpdateHandler && event == Event::Context(true) ==> r.phase
                == Phase::RunUpdateHandler(h.phase->BeforeUpdateHandler_0) && r.message == h.message,
            h.phase is BeforePrefixes && event == Event::Context(true) ==> r.phase == Phase::ReadPrefixes
                && r.message == h.message,
            h.phase is BeforePermission && event == Event::Context(true) ==> r.phase
                == (Phase::ReadPermission {
                slot: h.phase->BeforePermission_slot,
                user: h.phase->BeforePermission_user,
            }) && r.command == h.command,
            // raw-update handlers run one after the other, then the message
            h.phase is RunUpdateHandler && event == Event::HandlerDone
                && h.phase->RunUpdateHandler_0 + 1 < self.update_handlers@.len() ==> r.phase
                == Phase::BeforeUpdateHandler((h.phase->RunUpdateHandler_0 + 1) as usize)
                && r.message == h.message,
            h.phase is RunUpdateHandler && event == Event::HandlerDone
                && h.phase->RunUpdateHandler_0 + 1 >= self.update_handlers@.len() ==> r
                == self.after_update_handlers(h.message),
            // the text is parsed under the prefixes configured now
            h.phase == Phase::ReadPrefixes && event is Prefixes ==> match h.message {
                Some(m) => match m.text {
                    Some(text) => {
                        let first = text@[0];
                        if text@.len() > 0 && event->Prefixes_0@.contains(first) && is_command(
                            text@,
                            first,
                        ) {
                            &&& r.command is Some
                            &&& r.command->0.parses_as(text@, first)
                            &&& m.sender is None ==> r.phase == Phase::Done(Outcome::NoSender)
                            &&& m.sender is Some && !has_name(
                                self.command_handlers@,
                                r.command->0.name@,
                            ) ==> r.phase == Phase::Done(Outcome::UnknownCommand)
                            &&& m.sender is Some && has_name(
                                self.command_handlers@,
                                r.command->0.name@,
                            ) ==> r.phase == (Phase::BeforePermission {
                                slot: position_of(self.command_handlers@, r.command->0.name@) as usize,
                                user: m.sender->0,
                            })
                        } else {
                            r.phase == Phase::Done(Outcome::NotACommand)
                        }
                    },
                    None => r.phase == Phase::Done(Outcome::NoText),
                },
                None => r.phase == Phase::Done(Outcome::NoText),
            },
            // the permission check: the stored level against the required one
            h.phase is ReadPermission && event is StoredMask ==> {
                let slot = h.phase->ReadPermission_slot;
                let held = event->StoredMask_0;
                if slot < self.command_handlers@.len() {
                    if ranks_at_least(held@, self.command_handlers@[slot as int].1.perm@) {
                        r.phase == Phase::Done(Outcome::Invoked(slot)) && r.command == h.command
                    } else {
                        r.phase == Phase::Done(Outcome::PermissionDenied)
                    }
                } else {
                    r.phase == Phase::Done(Outcome::UnknownCommand)
                }
            },
            h.phase is ReadPermission && event is StoreFailed ==> r.phase == Phase::Done(
                Outcome::StoreFailure,
            ),
            // every awaited event brings the end closer; anything else changes nothing
            expects(h.phase, event) ==> self.steps_left(r.phase) < self.steps_left(h.phase),
            !expects(h.phase, event) ==> r == h,
    {
        if !self.accepts(&h.phase, &event) {
            return h;
        }
        match (h.phase, event) {
            (Phase::BeforeUpdateHandler(i), Event::Context(alive)) => {
                if alive {
                    Handling { phase: Phase::RunUpdateHandler(i), message: h.message, command: h.command }
                } else {
                    Handling { phase: Phase::Done(Outcome::ContextDisposed), message: h.message, command: h.command }
                }
            },
            (Phase::BeforePrefixes, Event::Context(alive)) => {
                if alive {
                    Handling { phase: Phase::ReadPrefixes, message: h.message, command: h.command }
                } else {
                    Handling { phase: Phase::Done(Outcome::ContextDisposed), message: h.message, command: h.command }
                }
            },
            (Phase::BeforePermission { slot, user }, Event::Context(alive)) => {
                if alive {
                    Handling { phase: Phase::ReadPermission { slot, user }, message: h.message, command: h.command }
                } else {
                    Handling { phase: Phase::Done(Outcome::ContextDisposed), message: h.message, command: h.command }
                }
            },
            (Phase::RunUpdateHandler(i), Event::HandlerDone) => {
                if i < self.update_handlers.len() && i + 1 < self.update_handlers.len() {
                    Handling { phase: Phase::BeforeUpdateHandler(i + 1), message: h.message, command: h.command }
                } else {
                    self.finish_update_handlers(h.message)
                }
            },
            (Phase::ReadPrefixes, Event::Prefixes(prefixes)) => {
                match h.message {
                    Some(m) => match &m.text {
                        Some(text) => match Command::with_prefixes(text.as_str(), prefixes.as_slice()) {
                            Some(command) => {
                                let started = self.begin_command(m.sender, command);
                                Handling { phase: started.phase, message: Some(m), command: started.command }
                            },
                            None => Handling { phase: Phase::Done(Outcome::NotACommand), message: Some(m), command: None },
                        },
                        None => Handling { phase: Phase::Done(Outcome::NoText), message: Some(m), command: None },
                    },
                    None => Handling { phase: Phase::Done(Outcome::NoText), message: None, command: None },
                }
            },
            (Phase::ReadPermission { slot, .. }, Event::StoredMask(held)) => {
                if slot < self.command_handlers.len() {
                    let (_, meta) = self.command_handlers.entry(slot);
                    if can(held, meta.perm) {
                        Handling { phase: Phase::Done(Outcome::Invoked(slot)), message: h.message, command: h.command }
                    } else {
                        Handling { phase: Phase::Done(Outcome::PermissionDenied), message: h.message, command: h.command }
                    }
                } else {
                    Handling { phase: Phase::Done(Outcome::UnknownCommand), message: h.message, command: h.command }
                }
            },
            (Phase::ReadPermission { .. }, Event::StoreFailed) => {
                Handling { phase: Phase::Done(Outcome::StoreFailure), message: h.message, command: h.command }
            },
            (phase, _) => Handling { phase, message: h.message, command: h.command },
        }
    }

    /// A bound on the events still needed before `phase` is done: the
    /// handling of an update always ends.
    pub open spec fn steps_left(&self, phase: Phase) -> nat {
        let n = self.update_handlers@.len();
        match phase {
            Phase::BeforeUpdateHandler(i) => if i < n {
                (2 * (n - i) + 5) as nat
            } else {
                6
            },
            Phase::RunUpdateHandler(i) => if i < n {
                (2 * (n - i) + 4) as nat
            } else {
                5
            },
            Phase::BeforePrefixes => 4,
            Phase::ReadPrefixes => 3,
            Phase::BeforePermission { .. } => 2,
            Phase::ReadPermission { .. } => 1,
            Phase::Done(_) => 0,
        }
    }

    fn accepts(&self, phase: &Phase, event: &Event) -> (r: bool)
        ensures
            r == expects(*phase, *event),
    {
        match (phase, event) {
            (Phase::BeforeUpdateHandler(_), Event::Context(_)) => true,
            (Phase::BeforePrefixes, Event::Context(_)) => true,
            (Phase::BeforePermission { .. }, Event::Context(_)) => true,
            (Phase::RunUpdateHandler(_), Event::HandlerDone) => true,
            (Phase::ReadPrefixes, Event::Prefixes(_)) => true,
            (Phase::ReadPermission { .. }, Event::StoredMask(_)) => true,
            (Phase::ReadPermission { .. }, Event::StoreFailed) => true,
            _ => false,
        }
    }

    fn finish_update_handlers(&self, message: Option<IncomingMessage>) -> (r: Handling)
        ensures
            r == self.after_update_handlers(message),
    {
        match message {
            None => Handling { phase: Phase::Done(Outcome::NotAMessage), message: None, command: None },
            Some(m) => self.begin_message(m),
        }
    }
}

} // verus!
