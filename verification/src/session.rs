//! A run of the program, from the first question to the last file.
//!
//! The run alternates decisions with work that is done outside: questions, requests to the
//! services, reads and writes of files. A session holds what is known so far. It is handed what
//! the last piece of work came to, and says which lines to print and which work to do next.

use vstd::prelude::*;
use vstd::string::*;

use crate::accessory::{accessory_to_plist, BeaconAccessory};
use crate::account::{account_ids, hash_password, AccountIds, AccountIdsView};
use crate::command_line::{Options, OptionsView};
use crate::escrow::{bottle_line, choose_bottle, Bottle};
use crate::file_name::file_name;
use crate::property_list::{Entries, Node};
use crate::text::{decimal_text, trim};

verus! {

/// The work that a session waits for.
#[derive(Clone, Copy, PartialEq, Eq, Structural)]
pub enum Phase {
    AppleId,
    Password,
    Storage,
    Anisette,
    Login,
    FindMyCheck,
    FindMyCreate,
    Delegate,
    KeychainLoad,
    KeychainNew,
    KeychainHost,
    KeychainSave,
    CloudKitLoad,
    CloudKitNew,
    CloudKitSave,
    Membership,
    Bottles,
    Choice,
    Passcode,
    Join,
    Sync,
    Export,
    Finished,
}

/// What a piece of work came to.
pub enum Event {
    /// A line was read.
    Line(String),
    /// The work is done.
    Done,
    /// What was asked for is there, or not.
    Present(bool),
    /// The login succeeded, with what the service told about the account.
    LoggedIn(Option<plist::Dictionary>),
    /// The escrow bottles were fetched.
    Bottles(Vec<Bottle>),
    /// The accessories were fetched.
    Accessories(Vec<BeaconAccessory>),
    /// The file was written, under this path.
    Written(String),
}

/// The content of what a piece of work came to.
pub enum EventView {
    Line(Seq<char>),
    Done,
    Present(bool),
    LoggedIn(Option<Entries>),
    Bottles(Seq<Bottle>),
    Accessories(Seq<BeaconAccessory>),
    Written(Seq<char>),
}

impl View for Event {
    type V = EventView;

    open spec fn view(&self) -> EventView {
        match *self {
            Event::Line(line) => EventView::Line(line@),
            Event::Done => EventView::Done,
            Event::Present(present) => EventView::Present(present),
            Event::LoggedIn(spd) => EventView::LoggedIn(
                match spd {
                    Some(d) => Some(crate::property_list::dictionary_entries(d)),
                    None => None,
                },
            ),
            Event::Bottles(bottles) => EventView::Bottles(bottles@),
            Event::Accessories(accessories) => EventView::Accessories(accessories@),
            Event::Written(path) => EventView::Written(path@),
        }
    }
}

/// A piece of work.
pub enum Action {
    /// Print the prompt and read a line, unseen where it is secret.
    Ask { prompt: String, secret: bool },
    /// Make the directories, and open the key store.
    PrepareStorage { output_dir: String },
    /// Make a client of the anisette server.
    Connect { url: String },
    /// Log in.
    Login { apple_id: String, password_hash: Vec<u8> },
    /// Look for the state of the accessory service.
    CheckFindMyState,
    /// Make and save a state of the accessory service.
    CreateFindMyState { dsid: String },
    /// Fetch the delegate of the account.
    FetchDelegate,
    /// Load the state of the key chain.
    LoadKeychainState,
    /// Make a state of the key chain from the delegate.
    NewKeychainState { dsid: String, adsid: String },
    /// Make a state of the key chain with a given host.
    NewKeychainStateWithHost { dsid: String, adsid: String, host: String },
    /// Save the state of the key chain.
    SaveKeychainState,
    /// Load the state of the record store.
    LoadCloudKitState,
    /// Make a state of the record store.
    NewCloudKitState { dsid: String },
    /// Save the state of the record store.
    SaveCloudKitState,
    /// Make the clients, and ask whether the device is in the circle of trust.
    QueryMembership,
    /// Fetch the escrow bottles.
    FetchBottles,
    /// Join the circle of trust through one of the escrow bottles.
    Join { bottle: usize, passcode: Vec<u8>, device_secret: Vec<u8> },
    /// Fetch the accessories.
    Sync,
    /// Write a file into the output directory.
    WriteFile { file_name: String, content: plist::Value },
    /// End well.
    Finish,
    /// End with an error.
    Fail(String),
    /// End in a panic.
    Abort(String),
}

/// The content of a piece of work.
pub enum ActionView {
    Ask { prompt: Seq<char>, secret: bool },
    PrepareStorage { output_dir: Seq<char> },
    Connect { url: Seq<char> },
    Login { apple_id: Seq<char>, password_hash: Seq<u8> },
    CheckFindMyState,
    CreateFindMyState { dsid: Seq<char> },
    FetchDelegate,
    LoadKeychainState,
    NewKeychainState { dsid: Seq<char>, adsid: Seq<char> },
    NewKeychainStateWithHost { dsid: Seq<char>, adsid: Seq<char>, host: Seq<char> },
    SaveKeychainState,
    LoadCloudKitState,
    NewCloudKitState { dsid: Seq<char> },
    SaveCloudKitState,
    QueryMembership,
    FetchBottles,
    Join { bottle: int, passcode: Seq<u8>, device_secret: Seq<u8> },
    Sync,
    WriteFile { file_name: Seq<char>, content: Node },
    Finish,
    Fail(Seq<char>),
    Abort(Seq<char>),
}

impl View for Action {
    type V = ActionView;

    open spec fn view(&self) -> ActionView {
        match *self {
            Action::Ask { prompt, secret } => ActionView::Ask { prompt: prompt@, secret },
            Action::PrepareStorage { output_dir } => ActionView::PrepareStorage {
                output_dir: output_dir@,
            },
            Action::Connect { url } => ActionView::Connect { url: url@ },
            Action::Login { apple_id, password_hash } => ActionView::Login {
                apple_id: apple_id@,
                password_hash: password_hash@,
            },
            Action::CheckFindMyState => ActionView::CheckFindMyState,
            Action::CreateFindMyState { dsid } => ActionView::CreateFindMyState { dsid: dsid@ },
            Action::FetchDelegate => ActionView::FetchDelegate,
            Action::LoadKeychainState => ActionView::LoadKeychainState,
            Action::NewKeychainState { dsid, adsid } => ActionView::NewKeychainState {
                dsid: dsid@,
                adsid: adsid@,
            },
            Action::NewKeychainStateWithHost {
                dsid,
                adsid,
                host,
            } => ActionView::NewKeychainStateWithHost { dsid: dsid@, adsid: adsid@, host: host@ },
            Action::SaveKeychainState => ActionView::SaveKeychainState,
            Action::LoadCloudKitState => ActionView::LoadCloudKitState,
            Action::NewCloudKitState { dsid } => ActionView::NewCloudKitState { dsid: dsid@ },
            Action::SaveCloudKitState => ActionView::SaveCloudKitState,
            Action::QueryMembership => ActionView::QueryMembership,
            Action::FetchBottles => ActionView::FetchBottles,
            Action::Join { bottle, passcode, device_secret } => ActionView::Join {
                bottle: bottle as int,
                passcode: passcode@,
                device_secret: device_secret@,
            },
            Action::Sync => ActionView::Sync,
            Action::WriteFile { file_name, content } => ActionView::WriteFile {
                file_name: file_name@,
                content: crate::property_list::value_node(content),
            },
            Action::Finish => ActionView::Finish,
            Action::Fail(message) => ActionView::Fail(message@),
            Action::Abort(message) => ActionView::Abort(message@),
        }
    }
}

/// What is known in the course of a run.
pub struct Session {
    pub phase: Phase,
    pub options: Options,
    pub password_hash: Vec<u8>,
    pub ids: AccountIds,
    pub bottles: Vec<Bottle>,
    /// The number of the bottle that was chosen.
    pub chosen: usize,
    pub accessories: Vec<BeaconAccessory>,
    /// How many accessories were exported.
    pub written: usize,
}

/// The content of what is known in the course of a run.
pub struct SessionView {
    pub phase: Phase,
    pub options: OptionsView,
    pub password_hash: Seq<u8>,
    pub ids: AccountIdsView,
    pub bottles: Seq<Bottle>,
    pub chosen: int,
    pub accessories: Seq<BeaconAccessory>,
    pub written: int,
}

impl View for Session {
    type V = SessionView;

    open spec fn view(&self) -> SessionView {
        SessionView {
            phase: self.phase,
            options: self.options@,
            password_hash: self.password_hash@,
            ids: self.ids@,
            bottles: self.bottles@,
            chosen: self.chosen as int,
            accessories: self.accessories@,
            written: self.written as int,
        }
    }
}

/// What follows an event: what is known then, the lines to print and the work to do next.
pub struct Step {
    pub session: SessionView,
    pub lines: Seq<Seq<char>>,
    pub action: ActionView,
}

/// Lines to print, and the work to do next.
pub struct Command {
    pub lines: Vec<String>,
    pub action: Action,
}

impl SessionView {
    /// Whether what the phase relies on is there.
    pub open spec fn well_formed(self) -> bool {
        &&& self.phase == Phase::Choice ==> self.bottles.len() > 0
        &&& self.phase == Phase::Passcode ==> 0 <= self.chosen < self.bottles.len()
        &&& self.phase == Phase::Export ==> 0 <= self.written < self.accessories.len()
    }

    /// Whether an event is one of those that the work of the phase can come to.
    pub open spec fn accepts(self, event: EventView) -> bool {
        match self.phase {
            Phase::AppleId | Phase::Password | Phase::Choice | Phase::Passcode => event is Line,
            Phase::Storage | Phase::Anisette | Phase::FindMyCreate | Phase::KeychainHost
            | Phase::KeychainSave | Phase::CloudKitSave | Phase::Join => event is Done,
            Phase::FindMyCheck | Phase::Delegate | Phase::KeychainLoad | Phase::KeychainNew
            | Phase::CloudKitLoad | Phase::CloudKitNew | Phase::Membership => event is Present,
            Phase::Login => event is LoggedIn,
            Phase::Bottles => event is Bottles,
            Phase::Sync => event is Accessories,
            Phase::Export => event is Written,
            Phase::Finished => false,
        }
    }

    /// The step into a phase without anything to print.
    pub open spec fn go(self, phase: Phase, action: ActionView) -> Step {
        self.say(phase, Seq::empty(), action)
    }

    /// The step into a phase with lines to print.
    pub open spec fn say(self, phase: Phase, lines: Seq<Seq<char>>, action: ActionView) -> Step {
        Step { session: SessionView { phase, ..self }, lines, action }
    }
}

/// The question for the password.
pub open spec fn ask_password() -> ActionView {
    ActionView::Ask { prompt: "Password: "@, secret: true }
}

/// The question for the passcode of a device.
pub open spec fn ask_passcode() -> ActionView {
    ActionView::Ask { prompt: "  Enter the passcode of that device: "@, secret: true }
}

/// The step on which the delegate is fetched.
pub open spec fn delegate_step(s: SessionView) -> Step {
    s.say(
        Phase::Delegate,
        seq!["  Logged in (dsid="@ + s.ids.dsid + ")"@, "[3/7] Fetching MobileMe delegate..."@],
        ActionView::FetchDelegate,
    )
}

/// The step on which the membership in the circle of trust is asked for.
pub open spec fn membership_step(s: SessionView) -> Step {
    s.say(
        Phase::Membership,
        seq!["[5/7] Joining iCloud Keychain trust circle..."@],
        ActionView::QueryMembership,
    )
}

/// The step on which the accessories are fetched.
pub open spec fn sync_step(s: SessionView, line: Seq<char>) -> Step {
    s.say(
        Phase::Sync,
        seq![line, "[6/7] Fetching FindMy accessories from CloudKit..."@],
        ActionView::Sync,
    )
}

/// The lines that show the escrow bottles.
pub open spec fn bottle_lines(bottles: Seq<Bottle>) -> Seq<Seq<char>> {
    seq!["  Found "@ + crate::text::decimal(bottles.len()) + " escrow bottle(s):"@] + Seq::new(
        bottles.len(),
        |i: int| crate::escrow::bottle_line_spec(i as nat, bottles[i]),
    )
}

/// The step on which the passcode for a bottle is asked for.
pub open spec fn passcode_step(s: SessionView, lines: Seq<Seq<char>>, chosen: int) -> Step {
    SessionView { chosen, ..s }.say(
        Phase::Passcode,
        lines.push("  Using escrow bottle from device: "@ + s.bottles[chosen].serial@),
        ask_passcode(),
    )
}

/// The work of exporting an accessory.
pub open spec fn write_accessory(acc: BeaconAccessory) -> ActionView {
    ActionView::WriteFile {
        file_name: crate::file_name::file_name_spec(acc.naming.name@),
        content: Node::Dictionary(crate::accessory::accessory_entries(acc)),
    }
}

/// The line that reports an accessory as exported.
pub open spec fn exported_line(acc: BeaconAccessory, path: Seq<char>) -> Seq<char> {
    "  "@ + acc.naming.emoji@ + " "@ + acc.naming.name@ + " ("@ + acc.master_record.model@ + ") -> "@
        + path
}

/// The line that ends the report.
pub open spec fn done_line(count: nat, output_dir: Seq<char>) -> Seq<char> {
    "Done! Exported "@ + crate::text::decimal(count) + " accessory plist file(s) to "@ + output_dir
}

/// The first step of a run.
pub open spec fn first_step(options: OptionsView) -> Step {
    let s = SessionView {
        phase: Phase::AppleId,
        options,
        password_hash: Seq::empty(),
        ids: AccountIdsView { dsid: Seq::empty(), adsid: Seq::empty() },
        bottles: Seq::empty(),
        chosen: 0,
        accessories: Seq::empty(),
        written: 0,
    };
    if options.apple_id.len() == 0 {
        s.go(Phase::AppleId, ActionView::Ask { prompt: "Apple ID: "@, secret: false })
    } else {
        s.go(Phase::Password, ask_password())
    }
}

/// The step that follows a line that was read.
pub open spec fn after_line(s: SessionView, line: Seq<char>) -> Step {
    let answer = crate::text::trimmed(line);
    match s.phase {
        Phase::AppleId => SessionView {
            options: OptionsView { apple_id: answer, ..s.options },
            ..s
        }.go(Phase::Password, ask_password()),
        Phase::Password => SessionView {
            password_hash: crate::account::sha256(vstd::utf8::encode_utf8(answer)),
            ..s
        }.go(Phase::Storage, ActionView::PrepareStorage { output_dir: s.options.output_dir }),
        Phase::Choice => {
            let chosen = crate::escrow::answered(line) as int;
            if chosen < s.bottles.len() {
                passcode_step(s, Seq::empty(), chosen)
            } else {
                s.go(
                    Phase::Finished,
                    ActionView::Fail(
                        crate::escrow::invalid_index_spec(chosen as nat, s.bottles.len()),
                    ),
                )
            }
        },
        _ => s.go(
            Phase::Join,
            ActionView::Join {
                bottle: s.chosen,
                passcode: vstd::utf8::encode_utf8(answer),
                device_secret: vstd::utf8::encode_utf8("findmy-export"@),
            },
        ),
    }
}

/// The step that follows work that is done.
pub open spec fn after_done(s: SessionView) -> Step {
    match s.phase {
        Phase::Storage => s.say(
            Phase::Anisette,
            seq!["[1/7] Connecting to anisette server..."@],
            ActionView::Connect { url: s.options.anisette_url },
        ),
        Phase::Anisette => s.say(
            Phase::Login,
            seq!["[2/7] Logging in to Apple ID..."@],
            ActionView::Login {
                apple_id: s.options.apple_id,
                password_hash: s.password_hash,
            },
        ),
        Phase::FindMyCreate => delegate_step(s),
        Phase::KeychainHost => s.go(Phase::KeychainSave, ActionView::SaveKeychainState),
        Phase::KeychainSave => s.go(Phase::CloudKitLoad, ActionView::LoadCloudKitState),
        Phase::CloudKitSave => membership_step(s),
        _ => sync_step(s, "  Joined keychain trust circle!"@),
    }
}

/// The step that follows word on whether something is there.
pub open spec fn after_present(s: SessionView, present: bool) -> Step {
    match s.phase {
        Phase::FindMyCheck => if present {
            delegate_step(s)
        } else {
            s.go(Phase::FindMyCreate, ActionView::CreateFindMyState { dsid: s.ids.dsid })
        },
        Phase::Delegate => if present {
            s.say(
                Phase::KeychainLoad,
                seq!["[4/7] Setting up CloudKit & Keychain..."@],
                ActionView::LoadKeychainState,
            )
        } else {
            s.go(Phase::Finished, ActionView::Abort("No MobileMe delegate returned"@))
        },
        Phase::KeychainLoad => if present {
            s.go(Phase::CloudKitLoad, ActionView::LoadCloudKitState)
        } else {
            s.go(
                Phase::KeychainNew,
                ActionView::NewKeychainState { dsid: s.ids.dsid, adsid: s.ids.adsid },
            )
        },
        Phase::KeychainNew => if present {
            s.go(Phase::KeychainSave, ActionView::SaveKeychainState)
        } else {
            s.say(
                Phase::KeychainHost,
                seq!["  (could not determine escrow proxy URL; using default)"@],
                ActionView::NewKeychainStateWithHost {
                    dsid: s.ids.dsid,
                    adsid: s.ids.adsid,
                    host: "https://escrowproxy.icloud.com:443"@,
                },
            )
        },
        Phase::CloudKitLoad => if present {
            membership_step(s)
        } else {
            s.go(Phase::CloudKitNew, ActionView::NewCloudKitState { dsid: s.ids.dsid })
        },
        Phase::CloudKitNew => if present {
            s.go(Phase::CloudKitSave, ActionView::SaveCloudKitState)
        } else {
            s.go(Phase::Finished, ActionView::Abort("Failed to create CloudKitState"@))
        },
        _ => if present {
            sync_step(s, "  Already in trust circle; skipping escrow join."@)
        } else {
            s.go(Phase::Bottles, ActionView::FetchBottles)
        },
    }
}

/// The step that follows the login.
pub open spec fn after_login(s: SessionView, spd: Option<Entries>) -> Step {
    match spd {
        None => s.go(Phase::Finished, ActionView::Abort("No SPD after login"@)),
        Some(entries) => match crate::account::ids_in(entries) {
            None => s.go(
                Phase::Finished,
                ActionView::Abort("No account identifiers after login"@),
            ),
            Some(ids) => SessionView { ids, ..s }.go(
                Phase::FindMyCheck,
                ActionView::CheckFindMyState,
            ),
        },
    }
}

/// The step that follows the escrow bottles.
pub open spec fn after_bottles(s: SessionView, bottles: Seq<Bottle>) -> Step {
    let t = SessionView { bottles, ..s };
    if bottles.len() == 0 {
        t.go(
            Phase::Finished,
            ActionView::Fail(
                "No escrow bottles found. Make sure you have another trusted device."@,
            ),
        )
    } else if bottles.len() == 1 {
        passcode_step(t, bottle_lines(bottles), 0)
    } else {
        t.say(
            Phase::Choice,
            bottle_lines(bottles),
            ActionView::Ask { prompt: "  Choose bottle [0]: "@, secret: false },
        )
    }
}

/// The step that follows the accessories.
pub open spec fn after_accessories(s: SessionView, accessories: Seq<BeaconAccessory>) -> Step {
    let t = SessionView { accessories, written: 0, ..s };
    let banner = "[7/7] Writing plist files..."@;
    if accessories.len() == 0 {
        t.say(Phase::Finished, seq![banner, "  No accessories found!"@], ActionView::Finish)
    } else {
        t.say(Phase::Export, seq![banner], write_accessory(accessories[0]))
    }
}

/// The step that follows a file.
pub open spec fn after_written(s: SessionView, path: Seq<char>) -> Step {
    let t = SessionView { written: s.written + 1, ..s };
    let line = exported_line(s.accessories[s.written], path);
    if t.written < t.accessories.len() {
        t.say(Phase::Export, seq![line], write_accessory(t.accessories[t.written]))
    } else {
        t.say(
            Phase::Finished,
            seq![line, ""@, done_line(t.accessories.len(), t.options.output_dir)],
            ActionView::Finish,
        )
    }
}

/// The step that follows an event.
pub open spec fn next(s: SessionView, event: EventView) -> Step {
    match event {
        EventView::Line(line) => after_line(s, line),
        EventView::Done => after_done(s),
        EventView::Present(present) => after_present(s, present),
        EventView::LoggedIn(spd) => after_login(s, spd),
        EventView::Bottles(bottles) => after_bottles(s, bottles),
        EventView::Accessories(accessories) => after_accessories(s, accessories),
        EventView::Written(path) => after_written(s, path),
    }
}

/// Whether what an executable step comes to is the step.
pub open spec fn is_step(result: (Session, Command), step: Step) -> bool {
    &&& result.0@ == step.session
    &&& crate::text::views(result.1.lines@) == step.lines
    &&& result.1.action@ == step.action
}

/// Whether the file that is to be written, if one is, stays in the output directory.
pub open spec fn writes_in_directory(action: ActionView) -> bool {
    action matches ActionView::WriteFile { file_name, .. }
        ==> crate::file_name::stays_in_directory(file_name)
}

impl Session {
    /// Begins a run.
    pub fn start(options: Options) -> (result: (Session, Command))
        ensures
            is_step(result, first_step(options@)),
            result.0@.well_formed(),
            result.0@ == first_step(options@).session,
            result.1.lines.len() == 0,
            result.1.action@ == first_step(options@).action,
    {
        let session = Session {
            phase: Phase::AppleId,
            options,
            password_hash: Vec::new(),
            ids: AccountIds { dsid: String::new(), adsid: String::new() },
            bottles: Vec::new(),
            chosen: 0,
            accessories: Vec::new(),
            written: 0,
        };
        let result = if session.options.apple_id.as_str().is_empty() {
            let prompt = "Apple ID: ".to_string();
            session.go(Phase::AppleId, Action::Ask { prompt, secret: false })
        } else {
            session.ask_password()
        };
        assert(crate::text::views(result.1.lines@).len() == 0);
        result
    }

    /// Whether an event is one of those that the work of the phase can come to.
    pub fn accepts(&self, event: &Event) -> (accepted: bool)
        ensures
            accepted == self@.accepts(event@),
            accepted == match *event {
                Event::Line(_) => self.phase == Phase::AppleId || self.phase == Phase::Password
                    || self.phase == Phase::Choice || self.phase == Phase::Passcode,
                Event::Done => self.phase == Phase::Storage || self.phase == Phase::Anisette
                    || self.phase == Phase::FindMyCreate || self.phase == Phase::KeychainHost
                    || self.phase == Phase::KeychainSave || self.phase == Phase::CloudKitSave
                    || self.phase == Phase::Join,
                Event::Present(_) => self.phase == Phase::FindMyCheck || self.phase
                    == Phase::Delegate || self.phase == Phase::KeychainLoad || self.phase
                    == Phase::KeychainNew || self.phase == Phase::CloudKitLoad || self.phase
                    == Phase::CloudKitNew || self.phase == Phase::Membership,
                Event::LoggedIn(_) => self.phase == Phase::Login,
                Event::Bottles(_) => self.phase == Phase::Bottles,
                Event::Accessories(_) => self.phase == Phase::Sync,
                Event::Written(_) => self.phase == Phase::Export,
            },
    {
        match self.phase {
            Phase::AppleId | Phase::Password | Phase::Choice | Phase::Passcode => matches!(
                event,
                Event::Line(_)
            ),
            Phase::Storage | Phase::Anisette | Phase::FindMyCreate | Phase::KeychainHost
            | Phase::KeychainSave | Phase::CloudKitSave | Phase::Join => matches!(
                event,
                Event::Done
            ),
            Phase::FindMyCheck | Phase::Delegate | Phase::KeychainLoad | Phase::KeychainNew
            | Phase::CloudKitLoad | Phase::CloudKitNew | Phase::Membership => matches!(
                event,
                Event::Present(_)
            ),
            Phase::Login => matches!(event, Event::LoggedIn(_)),
            Phase::Bottles => matches!(event, Event::Bottles(_)),
            Phase::Sync => matches!(event, Event::Accessories(_)),
            Phase::Export => matches!(event, Event::Written(_)),
            Phase::Finished => false,
        }
    }

    fn say(self, phase: Phase, lines: Vec<String>, action: Action) -> (result: (Session, Command))
        ensures
            is_step(result, self@.say(phase, crate::text::views(lines@), action@)),
    {
        let mut session = self;
        session.phase = phase;
        (session, Command { lines, action })
    }

    fn go(self, phase: Phase, action: Action) -> (result: (Session, Command))
        ensures
            is_step(result, self@.go(phase, action@)),
    {
        let lines: Vec<String> = Vec::new();
        assert(crate::text::views(lines@) == Seq::<Seq<char>>::empty());
        self.say(phase, lines, action)
    }

    fn ask_password(self) -> (result: (Session, Command))
        ensures
            is_step(result, self@.go(Phase::Password, ask_password())),
    {
        let prompt = "Password: ".to_string();
        self.go(Phase::Password, Action::Ask { prompt, secret: true })
    }

    fn say_one(self, phase: Phase, line: String, action: Action) -> (result: (Session, Command))
        ensures
            is_step(result, self@.say(phase, seq![line@], action@)),
    {
        let lines: Vec<String> = vec![line];
        assert(crate::text::views(lines@) == seq![line@]);
        self.say(phase, lines, action)
    }

    fn say_two(self, phase: Phase, first: String, second: String, action: Action) -> (result: (
        Session,
        Command,
    ))
        ensures
            is_step(result, self@.say(phase, seq![first@, second@], action@)),
    {
        let lines: Vec<String> = vec![first, second];
        assert(crate::text::views(lines@) == seq![first@, second@]);
        self.say(phase, lines, action)
    }

    fn fetch_delegate(self) -> (result: (Session, Command))
        ensures
            is_step(result, delegate_step(self@)),
    {
        let line = "  Logged in (dsid=".to_string().concat(self.ids.dsid.as_str()).concat(")");
        let banner = "[3/7] Fetching MobileMe delegate...".to_string();
        self.say_two(Phase::Delegate, line, banner, Action::FetchDelegate)
    }

    fn query_membership(self) -> (result: (Session, Command))
        ensures
            is_step(result, membership_step(self@)),
    {
        let banner = "[5/7] Joining iCloud Keychain trust circle...".to_string();
        self.say_one(Phase::Membership, banner, Action::QueryMembership)
    }

    fn sync(self, line: &str) -> (result: (Session, Command))
        ensures
            is_step(result, sync_step(self@, line@)),
    {
        let banner = "[6/7] Fetching FindMy accessories from CloudKit...".to_string();
        self.say_two(Phase::Sync, line.to_string(), banner, Action::Sync)
    }

    fn ask_passcode(self, lines: Vec<String>, chosen: usize) -> (result: (Session, Command))
        requires
            chosen < self.bottles.len(),
        ensures
            is_step(result, passcode_step(self@, crate::text::views(lines@), chosen as int)),
    {
        let line = "  Using escrow bottle from device: ".to_string().concat(
            self.bottles[chosen].serial.as_str(),
        );
        let ghost before = lines@;
        let mut lines = lines;
        lines.push(line);
        assert(crate::text::views(lines@) == crate::text::views(before).push(line@));
        let mut session = self;
        session.chosen = chosen;
        let prompt = "  Enter the passcode of that device: ".to_string();
        session.say(Phase::Passcode, lines, Action::Ask { prompt, secret: true })
    }

    fn line_read(self, line: &str) -> (result: (Session, Command))
        requires
            self@.well_formed(),
            self@.accepts(EventView::Line(line@)),
        ensures
            is_step(result, after_line(self@, line@)),
    {
        let mut session = self;
        match session.phase {
            Phase::AppleId => {
                session.options.apple_id = trim(line);
                session.ask_password()
            },
            Phase::Password => {
                let password = trim(line);
                session.password_hash = hash_password(password.as_str());
                let output_dir = session.options.output_dir.clone();
                session.go(Phase::Storage, Action::PrepareStorage { output_dir })
            },
            Phase::Choice => match choose_bottle(line, session.bottles.len()) {
                Ok(chosen) => {
                    let lines: Vec<String> = Vec::new();
                    assert(crate::text::views(lines@) == Seq::<Seq<char>>::empty());
                    session.ask_passcode(lines, chosen)
                },
                Err(message) => session.go(Phase::Finished, Action::Fail(message)),
            },
            _ => {
                let answer = trim(line);
                let action = Action::Join {
                    bottle: session.chosen,
                    passcode: answer.as_str().as_bytes_vec(),
                    device_secret: "findmy-export".as_bytes_vec(),
                };
                session.go(Phase::Join, action)
            },
        }
    }

    fn work_done(self) -> (result: (Session, Command))
        requires
            self@.accepts(EventView::Done),
        ensures
            is_step(result, after_done(self@)),
    {
        match self.phase {
            Phase::Storage => {
                let banner = "[1/7] Connecting to anisette server...".to_string();
                let url = self.options.anisette_url.clone();
                self.say_one(Phase::Anisette, banner, Action::Connect { url })
            },
            Phase::Anisette => {
                let banner = "[2/7] Logging in to Apple ID...".to_string();
                let apple_id = self.options.apple_id.clone();
                let password_hash = self.password_hash.clone();
                self.say_one(Phase::Login, banner, Action::Login { apple_id, password_hash })
            },
            Phase::FindMyCreate => self.fetch_delegate(),
            Phase::KeychainHost => self.go(Phase::KeychainSave, Action::SaveKeychainState),
            Phase::KeychainSave => self.go(Phase::CloudKitLoad, Action::LoadCloudKitState),
            Phase::CloudKitSave => self.query_membership(),
            _ => self.sync("  Joined keychain trust circle!"),
        }
    }

    fn presence_known(self, present: bool) -> (result: (Session, Command))
        requires
            self@.accepts(EventView::Present(present)),
        ensures
            is_step(result, after_present(self@, present)),
    {
        match self.phase {
            Phase::FindMyCheck => if present {
                self.fetch_delegate()
            } else {
                let dsid = self.ids.dsid.clone();
                self.go(Phase::FindMyCreate, Action::CreateFindMyState { dsid })
            },
            Phase::Delegate => if present {
                let banner = "[4/7] Setting up CloudKit & Keychain...".to_string();
                self.say_one(Phase::KeychainLoad, banner, Action::LoadKeychainState)
            } else {
                self.go(
                    Phase::Finished,
                    Action::Abort("No MobileMe delegate returned".to_string()),
                )
            },
            Phase::KeychainLoad => if present {
                self.go(Phase::CloudKitLoad, Action::LoadCloudKitState)
            } else {
                let dsid = self.ids.dsid.clone();
                let adsid = self.ids.adsid.clone();
                self.go(Phase::KeychainNew, Action::NewKeychainState { dsid, adsid })
            },
            Phase::KeychainNew => if present {
                self.go(Phase::KeychainSave, Action::SaveKeychainState)
            } else {
                let line = "  (could not determine escrow proxy URL; using default)".to_string();
                let dsid = self.ids.dsid.clone();
                let adsid = self.ids.adsid.clone();
                let host = "https://escrowproxy.icloud.com:443".to_string();
                self.say_one(
                    Phase::KeychainHost,
                    line,
                    Action::NewKeychainStateWithHost { dsid, adsid, host },
                )
            },
            Phase::CloudKitLoad => if present {
                self.query_membership()
            } else {
                let dsid = self.ids.dsid.clone();
                self.go(Phase::CloudKitNew, Action::NewCloudKitState { dsid })
            },
            Phase::CloudKitNew => if present {
                self.go(Phase::CloudKitSave, Action::SaveCloudKitState)
            } else {
                self.go(
                    Phase::Finished,
                    Action::Abort("Failed to create CloudKitState".to_string()),
                )
            },
            _ => if present {
                self.sync("  Already in trust circle; skipping escrow join.")
            } else {
                self.go(Phase::Bottles, Action::FetchBottles)
            },
        }
    }

    fn logged_in(self, spd: Option<plist::Dictionary>) -> (result: (Session, Command))
        ensures
            is_step(result, next(self@, Event::LoggedIn(spd)@)),
    {
        match spd {
            None => self.go(Phase::Finished, Action::Abort("No SPD after login".to_string())),
            Some(dictionary) => match account_ids(&dictionary) {
                None => self.go(
                    Phase::Finished,
                    Action::Abort("No account identifiers after login".to_string()),
                ),
                Some(ids) => {
                    let mut session = self;
                    session.ids = ids;
                    session.go(Phase::FindMyCheck, Action::CheckFindMyState)
                },
            },
        }
    }

    fn bottles_fetched(self, bottles: Vec<Bottle>) -> (result: (Session, Command))
        ensures
            is_step(result, after_bottles(self@, bottles@)),
    {
        let mut session = self;
        let count = bottles.len();
        if count == 0 {
            session.bottles = bottles;
            return session.go(
                Phase::Finished,
                Action::Fail(
                    "No escrow bottles found. Make sure you have another trusted device.".to_string(),
                ),
            );
        }
        let number = decimal_text(count as u64);
        let mut lines: Vec<String> = vec![
            "  Found ".to_string().concat(number.as_str()).concat(" escrow bottle(s):"),
        ];
        let mut i: usize = 0;
        while i < count
            invariant
                i <= count,
                count == bottles.len(),
                crate::text::views(lines@) == bottle_lines(bottles@).take(i + 1),
            decreases count - i,
        {
            let ghost before = lines@;
            let line = bottle_line(i, &bottles[i]);
            lines.push(line);
            assert(crate::text::views(lines@) == crate::text::views(before).push(line@));
            assert(bottle_lines(bottles@).take(i + 2) == bottle_lines(bottles@).take(i + 1).push(
                line@,
            ));
            i = i + 1;
        }
        assert(bottle_lines(bottles@).take(count + 1) == bottle_lines(bottles@));
        session.bottles = bottles;
        if count == 1 {
            session.ask_passcode(lines, 0)
        } else {
            let prompt = "  Choose bottle [0]: ".to_string();
            session.say(Phase::Choice, lines, Action::Ask { prompt, secret: false })
        }
    }

    fn accessories_fetched(self, accessories: Vec<BeaconAccessory>) -> (result: (Session, Command))
        ensures
            is_step(result, after_accessories(self@, accessories@)),
            writes_in_directory(result.1.action@),
    {
        let mut session = self;
        session.accessories = accessories;
        session.written = 0;
        let banner = "[7/7] Writing plist files...".to_string();
        if session.accessories.len() == 0 {
            let line = "  No accessories found!".to_string();
            session.say_two(Phase::Finished, banner, line, Action::Finish)
        } else {
            let action = export(&session.accessories[0]);
            session.say_one(Phase::Export, banner, action)
        }
    }

    fn file_written(self, path: &str) -> (result: (Session, Command))
        requires
            self@.well_formed(),
            self@.accepts(EventView::Written(path@)),
        ensures
            is_step(result, after_written(self@, path@)),
            writes_in_directory(result.1.action@),
    {
        let mut session = self;
        let count = session.accessories.len();
        let line = exported(&session.accessories[session.written], path);
        session.written = session.written + 1;
        if session.written < count {
            let action = export(&session.accessories[session.written]);
            session.say_one(Phase::Export, line, action)
        } else {
            let number = decimal_text(count as u64);
            let last = "Done! Exported ".to_string().concat(number.as_str()).concat(
                " accessory plist file(s) to ",
            ).concat(session.options.output_dir.as_str());
            let lines: Vec<String> = vec![line, "".to_string(), last];
            assert(crate::text::views(lines@) == seq![line@, ""@, last@]);
            session.say(Phase::Finished, lines, Action::Finish)
        }
    }

    /// Takes what the last piece of work came to, and decides what follows.
    ///
    /// No file is ever written outside of the output directory, whatever the accessory is
    /// called.
    pub fn step(self, event: Event) -> (result: (Session, Command))
        requires
            self@.well_formed(),
            self@.accepts(event@),
        ensures
            is_step(result, next(self@, event@)),
            result.0@.well_formed(),
            writes_in_directory(result.1.action@),
            result.0@ == next(self@, event@).session,
            result.1.lines.len() == next(self@, event@).lines.len(),
            forall|i: int|
                0 <= i < result.1.lines.len() ==> (#[trigger] result.1.lines[i])@ == next(
                    self@,
                    event@,
                ).lines[i],
            result.1.action@ == next(self@, event@).action,
            result.1.action matches Action::WriteFile { file_name, .. } ==> forall|i: int|
                0 <= i < file_name@.len() ==> #[trigger] file_name@[i] != '/' && file_name@[i]
                    != '\\' && file_name@[i] != '\0',
    {
        match event {
            Event::Line(line) => self.line_read(line.as_str()),
            Event::Done => self.work_done(),
            Event::Present(present) => self.presence_known(present),
            Event::LoggedIn(spd) => self.logged_in(spd),
            Event::Bottles(bottles) => self.bottles_fetched(bottles),
            Event::Accessories(accessories) => self.accessories_fetched(accessories),
            Event::Written(path) => self.file_written(path.as_str()),
        }
    }
}

/// The file that an accessory is exported to.
fn export(acc: &BeaconAccessory) -> (action: Action)
    ensures
        action@ == write_accessory(*acc),
        writes_in_directory(action@),
{
    Action::WriteFile {
        file_name: file_name(acc.naming.name.as_str()),
        content: accessory_to_plist(acc),
    }
}

/// Reports an accessory as exported.
fn exported(acc: &BeaconAccessory, path: &str) -> (line: String)
    ensures
        line@ == exported_line(*acc, path@),
{
    "  ".to_string().concat(acc.naming.emoji.as_str()).concat(" ").concat(
        acc.naming.name.as_str(),
    ).concat(" (").concat(acc.master_record.model.as_str()).concat(") -> ").concat(path)
}

/// How far a phase is into the run.
pub open spec fn rank(phase: Phase) -> int {
    match phase {
        Phase::AppleId => 0,
        Phase::Password => 1,
        Phase::Storage => 2,
        Phase::Anisette => 3,
        Phase::Login => 4,
        Phase::FindMyCheck => 5,
        Phase::FindMyCreate => 6,
        Phase::Delegate => 7,
        Phase::KeychainLoad => 8,
        Phase::KeychainNew => 9,
        Phase::KeychainHost => 10,
        Phase::KeychainSave => 11,
        Phase::CloudKitLoad => 12,
        Phase::CloudKitNew => 13,
        Phase::CloudKitSave => 14,
        Phase::Membership => 15,
        Phase::Bottles => 16,
        Phase::Choice => 17,
        Phase::Passcode => 18,
        Phase::Join => 19,
        Phase::Sync => 20,
        Phase::Export => 21,
        Phase::Finished => 22,
    }
}

/// The steps of a run over a sequence of events.
pub open spec fn run(s: SessionView, events: Seq<EventView>) -> Seq<Step>
    decreases events.len(),
{
    if events.len() == 0 {
        Seq::empty()
    } else {
        let step = next(s, events[0]);
        seq![step] + run(step.session, events.skip(1))
    }
}

/// Whether each event of a sequence is one that the session waits for when it comes.
pub open spec fn is_run(s: SessionView, events: Seq<EventView>) -> bool
    decreases events.len(),
{
    events.len() == 0 || s.accepts(events[0]) && is_run(
        next(s, events[0]).session,
        events.skip(1),
    )
}

/// Whether an event establishes that the device is in the circle of trust.
pub open spec fn establishes_trust(s: SessionView, event: EventView) -> bool {
    s.phase == Phase::Join || (s.phase == Phase::Membership && event == EventView::Present(true))
}

/// Whether some event of a run establishes that the device is in the circle of trust.
pub open spec fn trust_established(s: SessionView, events: Seq<EventView>) -> bool
    decreases events.len(),
{
    events.len() > 0 && (establishes_trust(s, events[0]) || trust_established(
        next(s, events[0]).session,
        events.skip(1),
    ))
}

/// Every step goes forward: to a later phase, or to the next accessory.
pub proof fn lemma_every_step_advances(s: SessionView, event: EventView)
    requires
        s.well_formed(),
        s.accepts(event),
    ensures
        next(s, event).session.well_formed(),
        ({
            let t = next(s, event).session;
            ||| rank(s.phase) < rank(t.phase)
            ||| s.phase == Phase::Export && t.phase == Phase::Export && t.accessories
                == s.accessories && t.written == s.written + 1
        }),
{
}

/// How many steps are left at most, where no more than `longest` accessories are fetched.
pub open spec fn steps_left(s: SessionView, longest: nat) -> int {
    match s.phase {
        Phase::Finished => 0,
        Phase::Export => s.accessories.len() - s.written,
        _ => 21 - rank(s.phase) + longest,
    }
}

/// Every run ends: the steps of a run are no more than the phases that are left and the
/// accessories that are fetched.
pub proof fn lemma_every_run_ends(s: SessionView, events: Seq<EventView>, longest: nat)
    requires
        s.well_formed(),
        is_run(s, events),
        forall|i: int|
            0 <= i < events.len() ==> ((#[trigger] events[i]) matches EventView::Accessories(a)
                ==> a.len() <= longest),
    ensures
        events.len() <= steps_left(s, longest),
    decreases events.len(),
{
    if events.len() > 0 {
        let t = next(s, events[0]).session;
        let rest = events.skip(1);
        lemma_run_begins(s, events);
        lemma_every_step_advances(s, events[0]);
        assert forall|i: int| 0 <= i < rest.len() implies ((#[trigger] rest[i]) matches
            EventView::Accessories(a) ==> a.len() <= longest) by {
            assert(rest[i] == events[i + 1]);
        }
        lemma_every_run_ends(t, rest, longest);
    }
}

/// A run ends exactly where the next piece of work is to end it.
pub proof fn lemma_the_end(s: SessionView, event: EventView)
    requires
        s.well_formed(),
        s.accepts(event),
    ensures
        next(s, event).session.phase == Phase::Finished <==> (next(s, event).action is Finish
            || next(s, event).action is Fail || next(s, event).action is Abort),
        forall|e: EventView|
            next(s, event).session.phase == Phase::Finished ==> !(#[trigger] next(
                s,
                event,
            ).session.accepts(e)),
{
}

/// What is known stays known: each piece is set once, on the answer to the work that it comes
/// from, and no other step changes it. What the command line gave is not changed, but for an
/// account that was asked for.
pub proof fn lemma_what_is_known_stays(s: SessionView, event: EventView)
    requires
        s.accepts(event),
    ensures
        ({
            let t = next(s, event).session;
            &&& t.options.anisette_url == s.options.anisette_url
            &&& t.options.output_dir == s.options.output_dir
            &&& s.phase != Phase::AppleId ==> t.options.apple_id == s.options.apple_id
            &&& s.phase != Phase::Password ==> t.password_hash == s.password_hash
            &&& s.phase != Phase::Login ==> t.ids == s.ids
            &&& s.phase != Phase::Bottles ==> t.bottles == s.bottles
            &&& s.phase != Phase::Bottles && s.phase != Phase::Choice ==> t.chosen == s.chosen
            &&& s.phase != Phase::Sync ==> t.accessories == s.accessories
        }),
{
}

/// No accessory is fetched, and no file written, before the device is in the circle of trust.
#[verifier::rlimit(40)]
pub proof fn lemma_no_export_without_trust(s: SessionView, events: Seq<EventView>)
    requires
        rank(s.phase) < rank(Phase::Sync),
        s.well_formed(),
        is_run(s, events),
        !trust_established(s, events),
    ensures
        forall|i: int|
            0 <= i < run(s, events).len() ==> !((#[trigger] run(s, events)[i]).action is Sync)
                && !(run(s, events)[i].action is WriteFile),
    decreases events.len(),
{
    if events.len() > 0 {
        let step = next(s, events[0]);
        let rest = events.skip(1);
        let later = run(step.session, rest);
        lemma_run_begins(s, events);
        lemma_trust_begins(s, events);
        lemma_no_step_without_trust(s, events[0]);
        if step.session.phase == Phase::Finished {
            assert(is_run(step.session, rest));
            assert(rest.len() == 0);
        } else {
            lemma_no_export_without_trust(step.session, rest);
        }
        assert forall|i: int| 0 <= i < run(s, events).len() implies !((#[trigger] run(
            s,
            events,
        )[i]).action is Sync) && !(run(s, events)[i].action is WriteFile) by {
            if i > 0 {
                assert(run(s, events)[i] == later[i - 1]);
            }
        }
    }
}

proof fn lemma_no_step_without_trust(s: SessionView, event: EventView)
    requires
        rank(s.phase) < rank(Phase::Sync),
        s.well_formed(),
        s.accepts(event),
        !establishes_trust(s, event),
    ensures
        next(s, event).session.well_formed(),
        next(s, event).session.phase == Phase::Finished || rank(next(s, event).session.phase)
            < rank(Phase::Sync),
        !(next(s, event).action is Sync),
        !(next(s, event).action is WriteFile),
{
}

/// A run over events is the step on the first, and then the run over the others from the session
/// that it leaves. A run over no events has no steps.
pub proof fn lemma_run_begins(s: SessionView, events: Seq<EventView>)
    requires
        events.len() > 0,
    ensures
        run(s, Seq::empty()) == Seq::<Step>::empty(),
        run(s, events) == seq![next(s, events[0])] + run(
            next(s, events[0]).session,
            events.skip(1),
        ),
        is_run(s, events) == (s.accepts(events[0]) && is_run(
            next(s, events[0]).session,
            events.skip(1),
        )),
{
}

proof fn lemma_trust_begins(s: SessionView, events: Seq<EventView>)
    requires
        events.len() > 0,
    ensures
        trust_established(s, events) == (establishes_trust(s, events[0]) || trust_established(
            next(s, events[0]).session,
            events.skip(1),
        )),
{
}

/// The circle of trust is joined through one of the bottles that were fetched: the only one, or
/// the one that the answer named.
pub proof fn lemma_joins_through_a_fetched_bottle(s: SessionView, event: EventView)
    requires
        s.well_formed(),
        s.accepts(event),
    ensures
        next(s, event).action matches ActionView::Join { bottle, .. } ==> bottle == s.chosen && 0
            <= bottle < s.bottles.len(),
        s.phase == Phase::Passcode ==> next(s, event).action == (ActionView::Join {
            bottle: s.chosen,
            passcode: vstd::utf8::encode_utf8(crate::text::trimmed(event->Line_0)),
            device_secret: vstd::utf8::encode_utf8("findmy-export"@),
        }),
        s.phase == Phase::Bottles && next(s, event).session.phase == Phase::Passcode ==> next(
            s,
            event,
        ).session.chosen == 0 && next(s, event).session.bottles.len() == 1,
        s.phase == Phase::Choice && next(s, event).session.phase == Phase::Passcode ==> next(
            s,
            event,
        ).session.chosen == crate::escrow::answered(event->Line_0),
{
}

/// The events of an export: the accessories, then a path for each of them.
pub open spec fn export_events(accessories: Seq<BeaconAccessory>, paths: Seq<Seq<char>>) -> Seq<
    EventView,
> {
    seq![EventView::Accessories(accessories)] + written_events(paths)
}

/// The events of files that are written.
pub open spec fn written_events(paths: Seq<Seq<char>>) -> Seq<EventView> {
    Seq::new(paths.len(), |i: int| EventView::Written(paths[i]))
}

/// Every accessory is exported, once and in the order in which it was fetched: it is written to
/// the file that is named after it, in which each key is answered with what the accessory holds,
/// and then reported with the path. The run then ends well.
pub proof fn lemma_every_accessory_is_exported(
    s: SessionView,
    accessories: Seq<BeaconAccessory>,
    paths: Seq<Seq<char>>,
)
    requires
        s.phase == Phase::Sync,
        accessories.len() > 0,
        paths.len() == accessories.len(),
    ensures
        is_run(s, export_events(accessories, paths)),
        export_events(accessories, paths).len() == accessories.len() + 1,
        export_events(accessories, paths)[0] == EventView::Accessories(accessories),
        forall|i: int|
            0 <= i < paths.len() ==> export_events(accessories, paths)[i + 1]
                == EventView::Written(#[trigger] paths[i]),
        ({
            let steps = run(s, export_events(accessories, paths));
            &&& steps.len() == accessories.len() + 1
            &&& forall|i: int|
                0 <= i < accessories.len() ==> (#[trigger] steps[i]).action == write_accessory(
                    accessories[i],
                )
            &&& forall|i: int|
                0 <= i < accessories.len() ==> ((#[trigger] steps[i]).action matches
                    ActionView::WriteFile { file_name, content } && {
                    &&& file_name.len() == accessories[i].naming.name@.len() + 6
                    &&& forall|j: int|
                        #![trigger file_name[j]]
                        0 <= j < accessories[i].naming.name@.len() ==> file_name[j] == if crate::file_name::alphanumeric(
                            accessories[i].naming.name@[j],
                        ) || accessories[i].naming.name@[j] == '-' || accessories[i].naming.name@[j] == '_' {
                            accessories[i].naming.name@[j]
                        } else {
                            '_'
                        }
                    &&& file_name.skip(accessories[i].naming.name@.len() as int) == ".plist"@
                    &&& content matches Node::Dictionary(entries)
                    &&& crate::property_list::distinct_keys(entries)
                    &&& crate::property_list::lookup(entries, "privateKey"@) == Some(
                        Node::Data(accessories[i].master_record.private_key@),
                    )
                    &&& crate::property_list::lookup(entries, "sharedSecret"@) == Some(
                        Node::Data(accessories[i].master_record.shared_secret@),
                    )
                    &&& crate::property_list::lookup(entries, "publicKey"@) == Some(
                        Node::Data(accessories[i].master_record.public_key@),
                    )
                    &&& crate::property_list::lookup(entries, "identifier"@) == Some(
                        Node::Text(accessories[i].master_record.stable_identifier@),
                    )
                    &&& crate::property_list::lookup(entries, "model"@) == Some(
                        Node::Text(accessories[i].master_record.model@),
                    )
                    &&& crate::property_list::lookup(entries, "name"@) == Some(
                        Node::Text(accessories[i].naming.name@),
                    )
                    &&& crate::property_list::lookup(entries, "emoji"@) == Some(
                        Node::Text(accessories[i].naming.emoji@),
                    )
                    &&& crate::property_list::lookup(entries, "secondarySharedSecret"@) == (
                    match accessories[i].master_record.shared_secret_2 {
                        Some(ss2) => Some(Node::Data(ss2@)),
                        None => None,
                    })
                    &&& crate::property_list::lookup(entries, "secureLocationsSharedSecret"@) == (
                    match accessories[i].master_record.secure_locations_shared_secret {
                        Some(slss) => Some(Node::Data(slss@)),
                        None => None,
                    })
                    &&& crate::property_list::lookup(entries, "pairingDate"@) == (
                    match accessories[i].master_record.pairing_date {
                        Some(date) => Some(Node::Date(date)),
                        None => None,
                    })
                })
            &&& forall|i: int|
                0 < i <= accessories.len() ==> (#[trigger] steps[i]).lines[0] == exported_line(
                    accessories[i - 1],
                    paths[i - 1],
                )
            &&& steps.last().action is Finish
            &&& steps.last().lines.last() == done_line(accessories.len(), s.options.output_dir)
        }),
{
    lemma_export_steps(s, accessories, paths);
    let steps = run(s, export_events(accessories, paths));
    assert forall|i: int| 0 <= i < accessories.len() implies ((#[trigger] steps[i]).action matches
        ActionView::WriteFile { file_name, content } && {
        &&& file_name.len() == accessories[i].naming.name@.len() + 6
        &&& forall|j: int|
            #![trigger file_name[j]]
            0 <= j < accessories[i].naming.name@.len() ==> file_name[j] == if crate::file_name::alphanumeric(
                accessories[i].naming.name@[j],
            ) || accessories[i].naming.name@[j] == '-' || accessories[i].naming.name@[j] == '_' {
                accessories[i].naming.name@[j]
            } else {
                '_'
            }
        &&& file_name.skip(accessories[i].naming.name@.len() as int) == ".plist"@
        &&& content matches Node::Dictionary(entries)
        &&& crate::property_list::distinct_keys(entries)
        &&& crate::property_list::lookup(entries, "privateKey"@) == Some(
            Node::Data(accessories[i].master_record.private_key@),
        )
        &&& crate::property_list::lookup(entries, "sharedSecret"@) == Some(
            Node::Data(accessories[i].master_record.shared_secret@),
        )
        &&& crate::property_list::lookup(entries, "publicKey"@) == Some(
            Node::Data(accessories[i].master_record.public_key@),
        )
        &&& crate::property_list::lookup(entries, "identifier"@) == Some(
            Node::Text(accessories[i].master_record.stable_identifier@),
        )
        &&& crate::property_list::lookup(entries, "model"@) == Some(
            Node::Text(accessories[i].master_record.model@),
        )
        &&& crate::property_list::lookup(entries, "name"@) == Some(
            Node::Text(accessories[i].naming.name@),
        )
        &&& crate::property_list::lookup(entries, "emoji"@) == Some(
            Node::Text(accessories[i].naming.emoji@),
        )
        &&& crate::property_list::lookup(entries, "secondarySharedSecret"@) == (
        match accessories[i].master_record.shared_secret_2 {
            Some(ss2) => Some(Node::Data(ss2@)),
            None => None,
        })
        &&& crate::property_list::lookup(entries, "secureLocationsSharedSecret"@) == (
        match accessories[i].master_record.secure_locations_shared_secret {
            Some(slss) => Some(Node::Data(slss@)),
            None => None,
        })
        &&& crate::property_list::lookup(entries, "pairingDate"@) == (
        match accessories[i].master_record.pairing_date {
            Some(date) => Some(Node::Date(date)),
            None => None,
        })
    }) by {
        lemma_what_is_written(accessories[i]);
        assert(steps[i].action == write_accessory(accessories[i]));
    }
}

proof fn lemma_export_steps(
    s: SessionView,
    accessories: Seq<BeaconAccessory>,
    paths: Seq<Seq<char>>,
)
    requires
        s.phase == Phase::Sync,
        accessories.len() > 0,
        paths.len() == accessories.len(),
    ensures
        is_run(s, export_events(accessories, paths)),
        ({
            let steps = run(s, export_events(accessories, paths));
            &&& steps.len() == accessories.len() + 1
            &&& forall|i: int|
                0 <= i < accessories.len() ==> (#[trigger] steps[i]).action == write_accessory(
                    accessories[i],
                )
            &&& forall|i: int|
                0 < i <= accessories.len() ==> (#[trigger] steps[i]).lines[0] == exported_line(
                    accessories[i - 1],
                    paths[i - 1],
                )
            &&& steps.last().action is Finish
            &&& steps.last().lines.last() == done_line(accessories.len(), s.options.output_dir)
        }),
{
    let events = export_events(accessories, paths);
    let first = after_accessories(s, accessories);
    let rest = written_events(paths);
    assert(events[0] == EventView::Accessories(accessories));
    assert(next(s, events[0]) == first);
    assert(events.skip(1) == rest);
    lemma_run_begins(s, events);
    lemma_export_is_a_run(first.session, paths);
    lemma_export_ends(first.session, paths);
    let steps = run(s, events);
    let later = run(first.session, rest);
    assert(steps.last() == later.last());
    assert forall|i: int| 0 < i <= accessories.len() implies (#[trigger] steps[i]).lines[0]
        == exported_line(accessories[i - 1], paths[i - 1]) by {
        lemma_export_lines(first.session, paths, i - 1);
        assert(steps[i] == later[i - 1]);
    }
    assert forall|i: int| 0 <= i < accessories.len() implies (#[trigger] steps[i]).action
        == write_accessory(accessories[i]) by {
        if i > 0 {
            lemma_export_actions(first.session, paths, i - 1);
            assert(steps[i] == later[i - 1]);
        }
    }
}

proof fn lemma_export_begins(s: SessionView, paths: Seq<Seq<char>>)
    requires
        s.phase == Phase::Export,
        paths.len() > 0,
    ensures
        run(s, written_events(paths)) == seq![after_written(s, paths[0])] + run(
            after_written(s, paths[0]).session,
            written_events(paths.skip(1)),
        ),
        is_run(s, written_events(paths)) == is_run(
            after_written(s, paths[0]).session,
            written_events(paths.skip(1)),
        ),
{
    let events = written_events(paths);
    assert(events[0] == EventView::Written(paths[0]));
    assert(events.skip(1) == written_events(paths.skip(1)));
    lemma_run_begins(s, events);
}

/// The export of the accessories that are left is a run, with a step for each.
proof fn lemma_export_is_a_run(s: SessionView, paths: Seq<Seq<char>>)
    requires
        s.phase == Phase::Export,
        s.well_formed(),
        paths.len() == s.accessories.len() - s.written,
    ensures
        is_run(s, written_events(paths)),
        run(s, written_events(paths)).len() == paths.len(),
    decreases paths.len(),
{
    let t = after_written(s, paths[0]).session;
    let rest = paths.skip(1);
    lemma_export_begins(s, paths);
    if rest.len() > 0 {
        lemma_export_is_a_run(t, rest);
    } else {
        assert(written_events(rest).len() == 0);
        assert(is_run(t, written_events(rest)));
        assert(run(t, written_events(rest)).len() == 0);
    }
}

/// Each step of the export reports the accessory that was written.
proof fn lemma_export_lines(s: SessionView, paths: Seq<Seq<char>>, i: int)
    requires
        s.phase == Phase::Export,
        s.well_formed(),
        paths.len() == s.accessories.len() - s.written,
        0 <= i < paths.len(),
    ensures
        run(s, written_events(paths))[i].lines[0] == exported_line(
            s.accessories[s.written + i],
            paths[i],
        ),
    decreases paths.len(),
{
    lemma_export_begins(s, paths);
    if i > 0 {
        let t = after_written(s, paths[0]).session;
        lemma_export_lines(t, paths.skip(1), i - 1);
        lemma_export_is_a_run(t, paths.skip(1));
        assert(paths[i] == paths.skip(1)[i - 1]);
    }
}

/// Each step of the export but the last writes the next accessory.
proof fn lemma_export_actions(s: SessionView, paths: Seq<Seq<char>>, i: int)
    requires
        s.phase == Phase::Export,
        s.well_formed(),
        paths.len() == s.accessories.len() - s.written,
        0 <= i < paths.len() - 1,
    ensures
        run(s, written_events(paths))[i].action == write_accessory(
            s.accessories[s.written + i + 1],
        ),
    decreases paths.len(),
{
    lemma_export_begins(s, paths);
    if i > 0 {
        let t = after_written(s, paths[0]).session;
        lemma_export_actions(t, paths.skip(1), i - 1);
        lemma_export_is_a_run(t, paths.skip(1));
    }
}

/// The last step of the export ends the run.
proof fn lemma_export_ends(s: SessionView, paths: Seq<Seq<char>>)
    requires
        s.phase == Phase::Export,
        s.well_formed(),
        paths.len() == s.accessories.len() - s.written,
    ensures
        run(s, written_events(paths)).last().action is Finish,
        run(s, written_events(paths)).last().lines.last() == done_line(
            s.accessories.len(),
            s.options.output_dir,
        ),
    decreases paths.len(),
{
    let t = after_written(s, paths[0]).session;
    let rest = paths.skip(1);
    lemma_export_begins(s, paths);
    if rest.len() > 0 {
        lemma_export_ends(t, rest);
        lemma_export_is_a_run(t, rest);
        assert(run(s, written_events(paths)).last() == run(t, written_events(rest)).last());
    } else {
        assert(written_events(rest).len() == 0);
        assert(run(t, written_events(rest)).len() == 0);
        assert(run(s, written_events(paths)).last() == after_written(s, paths[0]));
    }
}

/// The login is made with the account that was given or asked for and with the digest of the
/// password that was typed, without the white space around it.
pub proof fn lemma_login_uses_what_was_typed(s: SessionView, password: Seq<char>)
    requires
        s.phase == Phase::Password,
    ensures
        ({
            let events = seq![EventView::Line(password), EventView::Done, EventView::Done];
            &&& is_run(s, events)
            &&& run(s, events).last().action == ActionView::Login {
                apple_id: s.options.apple_id,
                password_hash: crate::account::sha256(
                    vstd::utf8::encode_utf8(crate::text::trimmed(password)),
                ),
            }
        }),
{
    let events = seq![EventView::Line(password), EventView::Done, EventView::Done];
    reveal_with_fuel(run, 4);
    reveal_with_fuel(is_run, 4);
    assert(events.skip(1)[0] == EventView::Done);
    assert(events.skip(1).skip(1)[0] == EventView::Done);
    assert(events.skip(1).skip(1).skip(1).len() == 0);
}

/// What is typed in secret is not printed: nothing is printed on a password or a passcode, and
/// no line of any step depends on the digest that is kept of the password.
pub proof fn lemma_secrets_are_not_printed(
    s: SessionView,
    line: Seq<char>,
    event: EventView,
    other: Seq<u8>,
)
    ensures
        s.phase == Phase::Password || s.phase == Phase::Passcode ==> next(
            s,
            EventView::Line(line),
        ).lines.len() == 0,
        next(SessionView { password_hash: other, ..s }, event).lines == next(s, event).lines,
{
}

/// The line with which a phase of the run is announced.
pub open spec fn announcement(phase: Phase) -> Option<Seq<char>> {
    match phase {
        Phase::Anisette => Some("[1/7] Connecting to anisette server..."@),
        Phase::Login => Some("[2/7] Logging in to Apple ID..."@),
        Phase::Delegate => Some("[3/7] Fetching MobileMe delegate..."@),
        Phase::KeychainLoad => Some("[4/7] Setting up CloudKit & Keychain..."@),
        Phase::Membership => Some("[5/7] Joining iCloud Keychain trust circle..."@),
        Phase::Sync => Some("[6/7] Fetching FindMy accessories from CloudKit..."@),
        Phase::Export => Some("[7/7] Writing plist files..."@),
        _ => None,
    }
}

/// A phase that has an announcement is announced when it begins, as the last line before its
/// work.
pub proof fn lemma_phases_are_announced(s: SessionView, event: EventView)
    requires
        s.well_formed(),
        s.accepts(event),
    ensures
        ({
            let step = next(s, event);
            step.session.phase != s.phase ==> (announcement(step.session.phase) matches Some(line)
                ==> step.lines.len() > 0 && step.lines.last() == line)
        }),
{
}

/// A run begins with nothing known but the options, and prints nothing yet. The account is asked
/// for where the options name none; otherwise the password is asked for at once, unseen.
pub proof fn lemma_a_run_begins(options: OptionsView)
    ensures
        ({
            let step = first_step(options);
            let s = step.session;
            &&& s.options == options
            &&& s.password_hash.len() == 0
            &&& s.ids.dsid.len() == 0
            &&& s.ids.adsid.len() == 0
            &&& s.bottles.len() == 0
            &&& s.accessories.len() == 0
            &&& s.chosen == 0
            &&& s.written == 0
            &&& step.lines.len() == 0
            &&& options.apple_id.len() == 0 ==> s.phase == Phase::AppleId && step.action == (
            ActionView::Ask { prompt: "Apple ID: "@, secret: false })
            &&& options.apple_id.len() > 0 ==> s.phase == Phase::Password && step.action == (
            ActionView::Ask { prompt: "Password: "@, secret: true })
        }),
{
}

/// An event is taken exactly in the phases whose work can come to it, and a session is well
/// formed exactly where there is a bottle to choose from, the bottle that was chosen is there,
/// and an accessory is left to report, in the phases that need them.
pub proof fn lemma_what_a_phase_waits_for(s: SessionView, event: EventView)
    ensures
        s.accepts(event) <==> match event {
            EventView::Line(_) => s.phase == Phase::AppleId || s.phase == Phase::Password
                || s.phase == Phase::Choice || s.phase == Phase::Passcode,
            EventView::Done => s.phase == Phase::Storage || s.phase == Phase::Anisette || s.phase
                == Phase::FindMyCreate || s.phase == Phase::KeychainHost || s.phase
                == Phase::KeychainSave || s.phase == Phase::CloudKitSave || s.phase == Phase::Join,
            EventView::Present(_) => s.phase == Phase::FindMyCheck || s.phase == Phase::Delegate
                || s.phase == Phase::KeychainLoad || s.phase == Phase::KeychainNew || s.phase
                == Phase::CloudKitLoad || s.phase == Phase::CloudKitNew || s.phase
                == Phase::Membership,
            EventView::LoggedIn(_) => s.phase == Phase::Login,
            EventView::Bottles(_) => s.phase == Phase::Bottles,
            EventView::Accessories(_) => s.phase == Phase::Sync,
            EventView::Written(_) => s.phase == Phase::Export,
        },
        s.well_formed() <==> {
            &&& s.phase == Phase::Choice ==> s.bottles.len() > 0
            &&& s.phase == Phase::Passcode ==> 0 <= s.chosen < s.bottles.len()
            &&& s.phase == Phase::Export ==> 0 <= s.written < s.accessories.len()
        },
{
}

/// What is typed is taken without the white space around it. The account becomes one of the
/// options and nothing else changes; of the password only its digest is kept.
pub proof fn lemma_account_and_password_are_taken(s: SessionView, line: Seq<char>)
    ensures
        s.phase == Phase::AppleId ==> next(s, EventView::Line(line)) == (Step {
            session: SessionView {
                phase: Phase::Password,
                options: OptionsView {
                    apple_id: crate::text::trimmed(line),
                    anisette_url: s.options.anisette_url,
                    output_dir: s.options.output_dir,
                },
                ..s
            },
            lines: Seq::empty(),
            action: ActionView::Ask { prompt: "Password: "@, secret: true },
        }),
        s.phase == Phase::Password ==> next(s, EventView::Line(line)) == (Step {
            session: SessionView {
                phase: Phase::Storage,
                password_hash: crate::account::sha256(
                    vstd::utf8::encode_utf8(crate::text::trimmed(line)),
                ),
                ..s
            },
            lines: Seq::empty(),
            action: ActionView::PrepareStorage { output_dir: s.options.output_dir },
        }),
{
}

/// The directories are made first; then the server of the options is connected to; then the
/// login is made, with the account and the digest that are kept.
pub proof fn lemma_the_way_to_the_login(s: SessionView)
    ensures
        s.phase == Phase::Storage ==> next(s, EventView::Done) == (Step {
            session: SessionView { phase: Phase::Anisette, ..s },
            lines: seq!["[1/7] Connecting to anisette server..."@],
            action: ActionView::Connect { url: s.options.anisette_url },
        }),
        s.phase == Phase::Anisette ==> next(s, EventView::Done) == (Step {
            session: SessionView { phase: Phase::Login, ..s },
            lines: seq!["[2/7] Logging in to Apple ID..."@],
            action: ActionView::Login {
                apple_id: s.options.apple_id,
                password_hash: s.password_hash,
            },
        }),
{
}

/// A login goes on exactly where it returned both identifiers of the account, a number of 64
/// bits without a sign and a text. They are kept as they were returned, the number in decimal
/// digits, and nothing else changes.
pub proof fn lemma_what_a_login_comes_to(
    s: SessionView,
    entries: Entries,
    n: u64,
    text: Seq<char>,
)
    ensures
        next(s, EventView::LoggedIn(None)) == (Step {
            session: SessionView { phase: Phase::Finished, ..s },
            lines: Seq::empty(),
            action: ActionView::Abort("No SPD after login"@),
        }),
        crate::property_list::lookup(entries, "DsPrsId"@) == Some(Node::Integer(n as int))
            && crate::property_list::lookup(entries, "adsid"@) == Some(Node::Text(text)) ==> {
            let step = next(s, EventView::LoggedIn(Some(entries)));
            let ids = step.session.ids;
            &&& crate::text::number(ids.dsid) == Some(n as nat)
            &&& ids.dsid == crate::text::decimal(n as nat)
            &&& ids.adsid == text
            &&& step.session == (SessionView { phase: Phase::FindMyCheck, ids, ..s })
            &&& step.lines.len() == 0
            &&& step.action == ActionView::CheckFindMyState
        },
        !(crate::property_list::lookup(entries, "DsPrsId"@) matches Some(Node::Integer(m)) && 0
            <= m <= u64::MAX) || !(crate::property_list::lookup(entries, "adsid"@) matches Some(
            Node::Text(_),
        )) ==> next(s, EventView::LoggedIn(Some(entries))) == (Step {
            session: SessionView { phase: Phase::Finished, ..s },
            lines: Seq::empty(),
            action: ActionView::Abort("No account identifiers after login"@),
        }),
{
    crate::text::lemma_decimal_round_trip(n as nat);
}

/// A state of the accessory service is made, for the account, only where there is none. Either
/// way the delegate is fetched then, and the login reported.
pub proof fn lemma_the_way_to_the_delegate(s: SessionView)
    ensures
        ({
            let fetched = Step {
                session: SessionView { phase: Phase::Delegate, ..s },
                lines: seq![
                    "  Logged in (dsid="@ + s.ids.dsid + ")"@,
                    "[3/7] Fetching MobileMe delegate..."@,
                ],
                action: ActionView::FetchDelegate,
            };
            &&& s.phase == Phase::FindMyCheck ==> next(s, EventView::Present(true)) == fetched
            &&& s.phase == Phase::FindMyCreate ==> next(s, EventView::Done) == fetched
        }),
        s.phase == Phase::FindMyCheck ==> next(s, EventView::Present(false)) == (Step {
            session: SessionView { phase: Phase::FindMyCreate, ..s },
            lines: Seq::empty(),
            action: ActionView::CreateFindMyState { dsid: s.ids.dsid },
        }),
{
}

/// Without a delegate the run cannot go on; with one, the state of the key chain is loaded.
pub proof fn lemma_the_delegate_is_needed(s: SessionView)
    requires
        s.phase == Phase::Delegate,
    ensures
        next(s, EventView::Present(true)) == (Step {
            session: SessionView { phase: Phase::KeychainLoad, ..s },
            lines: seq!["[4/7] Setting up CloudKit & Keychain..."@],
            action: ActionView::LoadKeychainState,
        }),
        next(s, EventView::Present(false)) == (Step {
            session: SessionView { phase: Phase::Finished, ..s },
            lines: Seq::empty(),
            action: ActionView::Abort("No MobileMe delegate returned"@),
        }),
{
}

/// A state of the key chain that is there is used as it is. Where there is none, one is made for
/// the account, with the host of the delegate or, where it tells none, with the usual host; what
/// was made is saved. The state of the record store is loaded in every case.
pub proof fn lemma_the_key_chain(s: SessionView)
    ensures
        ({
            let loaded = Step {
                session: SessionView { phase: Phase::CloudKitLoad, ..s },
                lines: Seq::empty(),
                action: ActionView::LoadCloudKitState,
            };
            &&& s.phase == Phase::KeychainLoad ==> next(s, EventView::Present(true)) == loaded
            &&& s.phase == Phase::KeychainSave ==> next(s, EventView::Done) == loaded
        }),
        ({
            let saved = Step {
                session: SessionView { phase: Phase::KeychainSave, ..s },
                lines: Seq::empty(),
                action: ActionView::SaveKeychainState,
            };
            &&& s.phase == Phase::KeychainNew ==> next(s, EventView::Present(true)) == saved
            &&& s.phase == Phase::KeychainHost ==> next(s, EventView::Done) == saved
        }),
        s.phase == Phase::KeychainLoad ==> next(s, EventView::Present(false)) == (Step {
            session: SessionView { phase: Phase::KeychainNew, ..s },
            lines: Seq::empty(),
            action: ActionView::NewKeychainState { dsid: s.ids.dsid, adsid: s.ids.adsid },
        }),
        s.phase == Phase::KeychainNew ==> next(s, EventView::Present(false)) == (Step {
            session: SessionView { phase: Phase::KeychainHost, ..s },
            lines: seq!["  (could not determine escrow proxy URL; using default)"@],
            action: ActionView::NewKeychainStateWithHost {
                dsid: s.ids.dsid,
                adsid: s.ids.adsid,
                host: "https://escrowproxy.icloud.com:443"@,
            },
        }),
{
}

/// A state of the record store that is there is used as it is. Where there is none, one is made
/// for the account and saved, or the run cannot go on. The membership in the circle of trust is
/// asked for then.
pub proof fn lemma_the_record_store(s: SessionView)
    ensures
        ({
            let asked = Step {
                session: SessionView { phase: Phase::Membership, ..s },
                lines: seq!["[5/7] Joining iCloud Keychain trust circle..."@],
                action: ActionView::QueryMembership,
            };
            &&& s.phase == Phase::CloudKitLoad ==> next(s, EventView::Present(true)) == asked
            &&& s.phase == Phase::CloudKitSave ==> next(s, EventView::Done) == asked
        }),
        s.phase == Phase::CloudKitLoad ==> next(s, EventView::Present(false)) == (Step {
            session: SessionView { phase: Phase::CloudKitNew, ..s },
            lines: Seq::empty(),
            action: ActionView::NewCloudKitState { dsid: s.ids.dsid },
        }),
        s.phase == Phase::CloudKitNew ==> next(s, EventView::Present(true)) == (Step {
            session: SessionView { phase: Phase::CloudKitSave, ..s },
            lines: Seq::empty(),
            action: ActionView::SaveCloudKitState,
        }),
        s.phase == Phase::CloudKitNew ==> next(s, EventView::Present(false)) == (Step {
            session: SessionView { phase: Phase::Finished, ..s },
            lines: Seq::empty(),
            action: ActionView::Abort("Failed to create CloudKitState"@),
        }),
{
}

/// A member of the circle of trust fetches the accessories at once, any other device the escrow
/// bottles first; once it has joined, it goes on as a member does.
pub proof fn lemma_members_and_others(s: SessionView)
    ensures
        s.phase == Phase::Membership ==> next(s, EventView::Present(true)) == (Step {
            session: SessionView { phase: Phase::Sync, ..s },
            lines: seq![
                "  Already in trust circle; skipping escrow join."@,
                "[6/7] Fetching FindMy accessories from CloudKit..."@,
            ],
            action: ActionView::Sync,
        }),
        s.phase == Phase::Membership ==> next(s, EventView::Present(false)) == (Step {
            session: SessionView { phase: Phase::Bottles, ..s },
            lines: Seq::empty(),
            action: ActionView::FetchBottles,
        }),
        s.phase == Phase::Join ==> next(s, EventView::Done) == (Step {
            session: SessionView { phase: Phase::Sync, ..s },
            lines: seq![
                "  Joined keychain trust circle!"@,
                "[6/7] Fetching FindMy accessories from CloudKit..."@,
            ],
            action: ActionView::Sync,
        }),
{
}

/// Every bottle is shown, in order and with its number, serial number and name. One bottle is
/// taken without a question, among several a choice is asked for, and without any the run fails.
pub proof fn lemma_bottles_are_shown(s: SessionView, bottles: Seq<Bottle>)
    ensures
        ({
            let step = next(s, EventView::Bottles(bottles));
            let n = bottles.len();
            &&& n == 0 ==> step == (Step {
                session: SessionView { phase: Phase::Finished, bottles, ..s },
                lines: Seq::empty(),
                action: ActionView::Fail(
                    "No escrow bottles found. Make sure you have another trusted device."@,
                ),
            })
            &&& n > 0 ==> step.lines[0] == "  Found "@ + crate::text::decimal(n)
                + " escrow bottle(s):"@
            &&& forall|i: int|
                0 < i <= n ==> (bottles[i - 1].device_name matches Some(name)
                    ==> #[trigger] step.lines[i] == "    ["@ + crate::text::decimal((i - 1) as nat)
                    + "] "@ + bottles[i - 1].serial@ + " ("@ + name@ + ")"@)
            &&& forall|i: int|
                0 < i <= n && bottles[i - 1].device_name is None ==> #[trigger] step.lines[i]
                    == "    ["@ + crate::text::decimal((i - 1) as nat) + "] "@ + bottles[i
                    - 1].serial@
            &&& n == 1 ==> {
                &&& step.session == (SessionView {
                    phase: Phase::Passcode,
                    bottles,
                    chosen: 0,
                    ..s
                })
                &&& step.lines.len() == 3
                &&& step.lines[2] == "  Using escrow bottle from device: "@ + bottles[0].serial@
                &&& step.action == (ActionView::Ask {
                    prompt: "  Enter the passcode of that device: "@,
                    secret: true,
                })
            }
            &&& n > 1 ==> {
                &&& step.session == (SessionView { phase: Phase::Choice, bottles, ..s })
                &&& step.lines.len() == n + 1
                &&& step.action == (ActionView::Ask {
                    prompt: "  Choose bottle [0]: "@,
                    secret: false,
                })
            }
        }),
{
}

/// A choice names the number that is typed, and the first bottle where no number is. The bottle
/// with that number is taken, and the passcode of its device is asked for, unseen; where there
/// is none, the run fails.
pub proof fn lemma_what_a_choice_comes_to(s: SessionView, line: Seq<char>)
    requires
        s.phase == Phase::Choice,
        s.bottles.len() > 0,
    ensures
        ({
            let given = crate::text::number(crate::text::trimmed(line));
            let named: nat = if given is Some && given->0 <= usize::MAX {
                given->0
            } else {
                0
            };
            let step = next(s, EventView::Line(line));
            &&& named < s.bottles.len() ==> step == (Step {
                session: SessionView { phase: Phase::Passcode, chosen: named as int, ..s },
                lines: Seq::empty().push(
                    "  Using escrow bottle from device: "@ + s.bottles[named as int].serial@,
                ),
                action: ActionView::Ask {
                    prompt: "  Enter the passcode of that device: "@,
                    secret: true,
                },
            })
            &&& named >= s.bottles.len() ==> step == (Step {
                session: SessionView { phase: Phase::Finished, ..s },
                lines: Seq::empty(),
                action: ActionView::Fail(
                    "Invalid bottle index "@ + crate::text::decimal(named) + ". Must be 0-"@
                        + crate::text::decimal((s.bottles.len() - 1) as nat) + "."@,
                ),
            })
        }),
{
}

/// The circle of trust is joined through the bottle that was chosen, with the bytes in UTF-8 of
/// the passcode that was typed, without the white space around it, and of the secret that stands
/// for this device. The passcode is not kept and not printed.
pub proof fn lemma_the_passcode_joins(s: SessionView, line: Seq<char>)
    requires
        s.well_formed(),
        s.phase == Phase::Passcode,
    ensures
        s.accepts(EventView::Line(line)),
        next(s, EventView::Line(line)) == (Step {
            session: SessionView { phase: Phase::Join, ..s },
            lines: Seq::empty(),
            action: ActionView::Join {
                bottle: s.chosen,
                passcode: vstd::utf8::encode_utf8(crate::text::trimmed(line)),
                device_secret: vstd::utf8::encode_utf8("findmy-export"@),
            },
        }),
{
}

/// From the bottles on, a run joins through the bottle whose number was typed, or through the
/// only one, with the passcode that was typed then.
pub proof fn lemma_from_the_bottles_to_the_join(
    s: SessionView,
    bottles: Seq<Bottle>,
    choice: Seq<char>,
    k: usize,
    passcode: Seq<char>,
)
    requires
        s.phase == Phase::Bottles,
        crate::text::number(crate::text::trimmed(choice)) == Some(k as nat),
        k < bottles.len(),
    ensures
        ({
            let shown = next(s, EventView::Bottles(bottles)).session;
            let chosen = if bottles.len() == 1 {
                shown
            } else {
                next(shown, EventView::Line(choice)).session
            };
            let joining = next(chosen, EventView::Line(passcode));
            &&& chosen.phase == Phase::Passcode
            &&& joining.session.phase == Phase::Join
            &&& joining.session.bottles == bottles
            &&& joining.action == (ActionView::Join {
                bottle: k as int,
                passcode: vstd::utf8::encode_utf8(crate::text::trimmed(passcode)),
                device_secret: vstd::utf8::encode_utf8("findmy-export"@),
            })
        }),
{
}

/// The export of accessories that were fetched begins with the first, and ends at once where
/// there is none.
pub proof fn lemma_an_export_begins(s: SessionView, accessories: Seq<BeaconAccessory>)
    requires
        s.phase == Phase::Sync,
    ensures
        ({
            let step = next(s, EventView::Accessories(accessories));
            &&& accessories.len() == 0 ==> step == (Step {
                session: SessionView { phase: Phase::Finished, accessories, written: 0, ..s },
                lines: seq!["[7/7] Writing plist files..."@, "  No accessories found!"@],
                action: ActionView::Finish,
            })
            &&& accessories.len() > 0 ==> step == (Step {
                session: SessionView { phase: Phase::Export, accessories, written: 0, ..s },
                lines: seq!["[7/7] Writing plist files..."@],
                action: write_accessory(accessories[0]),
            })
        }),
{
}

/// A file that was written is reported with what its accessory is called, its model and the
/// path. The next accessory is exported then; after the last, the run ends well, with the number
/// of files and the directory that they are in.
pub proof fn lemma_an_export_is_reported(s: SessionView, path: Seq<char>)
    requires
        s.phase == Phase::Export,
        s.well_formed(),
    ensures
        ({
            let acc = s.accessories[s.written];
            let line = "  "@ + acc.naming.emoji@ + " "@ + acc.naming.name@ + " ("@
                + acc.master_record.model@ + ") -> "@ + path;
            let step = next(s, EventView::Written(path));
            &&& s.written + 1 < s.accessories.len() ==> step == (Step {
                session: SessionView { phase: Phase::Export, written: s.written + 1, ..s },
                lines: seq![line],
                action: write_accessory(s.accessories[s.written + 1]),
            })
            &&& s.written + 1 == s.accessories.len() ==> step == (Step {
                session: SessionView { phase: Phase::Finished, written: s.written + 1, ..s },
                lines: seq![
                    line,
                    ""@,
                    "Done! Exported "@ + crate::text::decimal(s.accessories.len())
                        + " accessory plist file(s) to "@ + s.options.output_dir,
                ],
                action: ActionView::Finish,
            })
        }),
{
}

/// An accessory is exported to a file that is named after it, character for character, and that
/// answers each key with what the accessory holds.
pub proof fn lemma_what_is_written(acc: BeaconAccessory)
    ensures
        write_accessory(acc) matches ActionView::WriteFile { file_name, content } && {
            &&& file_name.len() == acc.naming.name@.len() + 6
            &&& forall|j: int|
                #![trigger file_name[j]]
                0 <= j < acc.naming.name@.len() ==> file_name[j] == if crate::file_name::alphanumeric(
                    acc.naming.name@[j],
                ) || acc.naming.name@[j] == '-' || acc.naming.name@[j] == '_' {
                    acc.naming.name@[j]
                } else {
                    '_'
                }
            &&& file_name.skip(acc.naming.name@.len() as int) == ".plist"@
            &&& content matches Node::Dictionary(entries)
            &&& crate::property_list::distinct_keys(entries)
            &&& crate::property_list::lookup(entries, "privateKey"@) == Some(
                Node::Data(acc.master_record.private_key@),
            )
            &&& crate::property_list::lookup(entries, "sharedSecret"@) == Some(
                Node::Data(acc.master_record.shared_secret@),
            )
            &&& crate::property_list::lookup(entries, "publicKey"@) == Some(
                Node::Data(acc.master_record.public_key@),
            )
            &&& crate::property_list::lookup(entries, "identifier"@) == Some(
                Node::Text(acc.master_record.stable_identifier@),
            )
            &&& crate::property_list::lookup(entries, "model"@) == Some(
                Node::Text(acc.master_record.model@),
            )
            &&& crate::property_list::lookup(entries, "name"@) == Some(
                Node::Text(acc.naming.name@),
            )
            &&& crate::property_list::lookup(entries, "emoji"@) == Some(
                Node::Text(acc.naming.emoji@),
            )
            &&& crate::property_list::lookup(entries, "secondarySharedSecret"@) == (
            match acc.master_record.shared_secret_2 {
                Some(ss2) => Some(Node::Data(ss2@)),
                None => None,
            })
            &&& crate::property_list::lookup(entries, "secureLocationsSharedSecret"@) == (
            match acc.master_record.secure_locations_shared_secret {
                Some(slss) => Some(Node::Data(slss@)),
                None => None,
            })
            &&& crate::property_list::lookup(entries, "pairingDate"@) == (
            match acc.master_record.pairing_date {
                Some(date) => Some(Node::Date(date)),
                None => None,
            })
        },
{
    crate::file_name::lemma_file_name_by_character(acc.naming.name@);
    crate::accessory::lemma_export_reads_back(acc);
}

/// The content of an event, of a piece of work and of a session is what they hold, each piece in
/// its place.
pub proof fn lemma_contents(event: Event, action: Action, session: Session)
    ensures
        match event {
            Event::Line(line) => event@ == EventView::Line(line@),
            Event::Done => event@ == EventView::Done,
            Event::Present(present) => event@ == EventView::Present(present),
            Event::LoggedIn(None) => event@ == EventView::LoggedIn(None),
            Event::LoggedIn(Some(spd)) => event@ == EventView::LoggedIn(
                Some(crate::property_list::dictionary_entries(spd)),
            ),
            Event::Bottles(bottles) => event@ == EventView::Bottles(bottles@),
            Event::Accessories(accessories) => event@ == EventView::Accessories(accessories@),
            Event::Written(path) => event@ == EventView::Written(path@),
        },
        match action {
            Action::Ask { prompt, secret } => action@ == (ActionView::Ask {
                prompt: prompt@,
                secret,
            }),
            Action::PrepareStorage { output_dir } => action@ == (ActionView::PrepareStorage {
                output_dir: output_dir@,
            }),
            Action::Connect { url } => action@ == (ActionView::Connect { url: url@ }),
            Action::Login { apple_id, password_hash } => action@ == (ActionView::Login {
                apple_id: apple_id@,
                password_hash: password_hash@,
            }),
            Action::CheckFindMyState => action@ == ActionView::CheckFindMyState,
            Action::CreateFindMyState { dsid } => action@ == (ActionView::CreateFindMyState {
                dsid: dsid@,
            }),
            Action::FetchDelegate => action@ == ActionView::FetchDelegate,
            Action::LoadKeychainState => action@ == ActionView::LoadKeychainState,
            Action::NewKeychainState { dsid, adsid } => action@ == (ActionView::NewKeychainState {
                dsid: dsid@,
                adsid: adsid@,
            }),
            Action::NewKeychainStateWithHost { dsid, adsid, host } => action@ == (
            ActionView::NewKeychainStateWithHost { dsid: dsid@, adsid: adsid@, host: host@ }),
            Action::SaveKeychainState => action@ == ActionView::SaveKeychainState,
            Action::LoadCloudKitState => action@ == ActionView::LoadCloudKitState,
            Action::NewCloudKitState { dsid } => action@ == (ActionView::NewCloudKitState {
                dsid: dsid@,
            }),
            Action::SaveCloudKitState => action@ == ActionView::SaveCloudKitState,
            Action::QueryMembership => action@ == ActionView::QueryMembership,
            Action::FetchBottles => action@ == ActionView::FetchBottles,
            Action::Join { bottle, passcode, device_secret } => action@ == (ActionView::Join {
                bottle: bottle as int,
                passcode: passcode@,
                device_secret: device_secret@,
            }),
            Action::Sync => action@ == ActionView::Sync,
            Action::WriteFile { file_name, content } => action@ == (ActionView::WriteFile {
                file_name: file_name@,
                content: crate::property_list::value_node(content),
            }),
            Action::Finish => action@ == ActionView::Finish,
            Action::Fail(message) => action@ == ActionView::Fail(message@),
            Action::Abort(message) => action@ == ActionView::Abort(message@),
        },
        session@.phase == session.phase,
        session@.options.apple_id == session.options.apple_id@,
        session@.options.anisette_url == session.options.anisette_url@,
        session@.options.output_dir == session.options.output_dir@,
        session@.password_hash == session.password_hash@,
        session@.ids.dsid == session.ids.dsid@,
        session@.ids.adsid == session.ids.adsid@,
        session@.bottles == session.bottles@,
        session@.chosen == session.chosen,
        session@.accessories == session.accessories@,
        session@.written == session.written,
{
}

} // verus!
