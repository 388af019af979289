//! The state of one control connection and the rules by which commands
//! change it.
//!
//! The session decides; the caller does the input and output. Each command
//! yields an `Action`: a reply to send, or outside work to do first (bind a
//! passive listener, resolve a directory on disk, open a data connection),
//! whose outcome the caller reports back through the matching method.

use vstd::prelude::*;
use crate::addr::{addr_arg_ok, arg_octets, octets, parse_ipv4_addr, DataAddr};
use crate::bytes::{copy_bytes, to_upper, upper_seq};
use crate::command::{list_path, list_target, Command, Verb};
use crate::path::{
    absolute_path, all_names, combine, joined, lemma_under_root_within, relative_to_root,
    under_root, virtual_path, SLASH,
};
use crate::transcode::TransferType;

verus! {

/// The settings that every session shares.
pub struct Config {
    /// The IPv4 address the server listens on.
    pub listen: [u8; 4],
    /// The port of the control connection.
    pub port: u16,
    pub username: Vec<u8>,
    pub password: Vec<u8>,
    /// The virtual root: an absolute path whose links are resolved.
    pub path: Vec<u8>,
}

impl Config {
    /// The address of the control connection.
    pub fn address(&self) -> (r: DataAddr)
        ensures
            r.ip == self.listen,
            r.port == self.port,
    {
        DataAddr { ip: self.listen, port: self.port }
    }

    /// The local port that active-mode data connections come from: one below
    /// the control port (any port, for control port 0).
    pub fn data_port(&self) -> (r: u16)
        ensures
            r == if self.port > 0 {
                (self.port - 1) as u16
            } else {
                0
            },
    {
        if self.port > 0 {
            self.port - 1
        } else {
            0
        }
    }
}

impl Default for Config {
    /// Listens on all addresses at port 21, user `root` with password
    /// `password`, serving the whole file system.
    fn default() -> (r: Config)
        ensures
            r.listen == [0u8, 0, 0, 0],
            r.port == 21,
            r.username@ == seq![114u8, 111, 111, 116],
            r.password@ == seq![112u8, 97, 115, 115, 119, 111, 114, 100],
            r.path@ == seq![SLASH],
    {
        Config {
            listen: [0, 0, 0, 0],
            port: 21,
            username: vec![114u8, 111, 111, 116],
            password: vec![112u8, 97, 115, 115, 119, 111, 114, 100],
            path: vec![SLASH],
        }
    }
}

/// How the next data connection is made. `L` is the listening socket of
/// passive mode, held until a transfer accepts on it.
pub enum TransferMode<L> {
    Disabled,
    /// Connect out to the client's address.
    Active(DataAddr),
    /// Accept the client's connection on this listener.
    Passive(L),
}

/// What a data connection carries.
#[derive(Clone, Copy, Debug, PartialEq, Eq, Structural)]
pub enum TransferKind {
    List,
    Retrieve,
    Store,
}

/// The replies of the protocol.
pub enum Reply {
    Welcome,
    PasswordRequired,
    LoginSuccessful,
    AlreadyLoggedIn,
    LoginIncorrect,
    CannotChangeUser,
    NotLoggedIn,
    PortSuccessful,
    IllegalAddress,
    EnteringPassiveMode(DataAddr),
    CannotCreateSocket,
    SwitchedToAscii,
    SwitchedToBinary,
    UnsupportedType,
    ModeSet,
    BadMode,
    StructureSet,
    BadStructure,
    DirectoryChanged,
    ChangeDirectoryFailed,
    /// The current directory, as the client sees it.
    CurrentDirectory(Vec<u8>),
    UsePortOrPasv,
    CannotOpenDataConnection,
    ListingStarts,
    DataStarts,
    ListingDone,
    TransferComplete,
    TransferAborted,
    Features,
    SystemType,
    NoopOk,
    AlwaysUtf8,
    Goodbye,
    UnknownCommand,
}

impl Reply {
    /// The three-digit status code.
    pub fn code(&self) -> (r: u16)
        ensures
            r == reply_code(*self),
    {
        match self {
            Reply::Welcome => 220,
            Reply::PasswordRequired => 331,
            Reply::LoginSuccessful => 230,
            Reply::AlreadyLoggedIn => 230,
            Reply::LoginIncorrect => 530,
            Reply::CannotChangeUser => 530,
            Reply::NotLoggedIn => 530,
            Reply::PortSuccessful => 200,
            Reply::IllegalAddress => 501,
            Reply::EnteringPassiveMode(_) => 227,
            Reply::CannotCreateSocket => 421,
            Reply::SwitchedToAscii => 200,
            Reply::SwitchedToBinary => 200,
            Reply::UnsupportedType => 504,
            Reply::ModeSet => 200,
            Reply::BadMode => 504,
            Reply::StructureSet => 200,
            Reply::BadStructure => 504,
            Reply::DirectoryChanged => 250,
            Reply::ChangeDirectoryFailed => 550,
            Reply::CurrentDirectory(_) => 257,
            Reply::UsePortOrPasv => 425,
            Reply::CannotOpenDataConnection => 425,
            Reply::ListingStarts => 150,
            Reply::DataStarts => 150,
            Reply::ListingDone => 226,
            Reply::TransferComplete => 226,
            Reply::TransferAborted => 426,
            Reply::Features => 211,
            Reply::SystemType => 215,
            Reply::NoopOk => 200,
            Reply::AlwaysUtf8 => 200,
            Reply::Goodbye => 221,
            Reply::UnknownCommand => 500,
        }
    }
}

pub open spec fn reply_code(r: Reply) -> u16 {
    match r {
        Reply::Welcome => 220,
        Reply::PasswordRequired => 331,
        Reply::LoginSuccessful => 230,
        Reply::AlreadyLoggedIn => 230,
        Reply::LoginIncorrect => 530,
        Reply::CannotChangeUser => 530,
        Reply::NotLoggedIn => 530,
        Reply::PortSuccessful => 200,
        Reply::IllegalAddress => 501,
        Reply::EnteringPassiveMode(_) => 227,
        Reply::CannotCreateSocket => 421,
        Reply::SwitchedToAscii => 200,
        Reply::SwitchedToBinary => 200,
        Reply::UnsupportedType => 504,
        Reply::ModeSet => 200,
        Reply::BadMode => 504,
        Reply::StructureSet => 200,
        Reply::BadStructure => 504,
        Reply::DirectoryChanged => 250,
        Reply::ChangeDirectoryFailed => 550,
        Reply::CurrentDirectory(_) => 257,
        Reply::UsePortOrPasv => 425,
        Reply::CannotOpenDataConnection => 425,
        Reply::ListingStarts => 150,
        Reply::DataStarts => 150,
        Reply::ListingDone => 226,
        Reply::TransferComplete => 226,
        Reply::TransferAborted => 426,
        Reply::Features => 211,
        Reply::SystemType => 215,
        Reply::NoopOk => 200,
        Reply::AlwaysUtf8 => 200,
        Reply::Goodbye => 221,
        Reply::UnknownCommand => 500,
    }
}

/// A transfer that the caller is to carry out.
pub struct Transfer<L> {
    pub kind: TransferKind,
    /// The path of the file or directory, as the client named it, joined
    /// onto the current directory; to be resolved on disk and checked with
    /// `is_within_root` before use.
    pub path: Vec<u8>,
    /// How to obtain the data connection.
    pub mode: TransferMode<L>,
    pub transfer_type: TransferType,
}

/// What the caller does after a command.
pub enum Action<L> {
    /// Send this reply.
    Reply(Reply),
    /// Bind a listener on the listen address at a port the system picks, and
    /// report it with `passive_bound` or `passive_failed`.
    Bind,
    /// Resolve this path on disk (links, `.` and `..`); report the resolved
    /// path of the directory it names with `finish_change_directory`.
    ChangeDirectory(Vec<u8>),
    /// Open the data connection and carry out the transfer.
    Transfer(Transfer<L>),
    /// Send `Goodbye` and close the connection.
    Quit,
}

/// The state of a session.
pub struct SessionView<L> {
    pub user: Seq<u8>,
    pub logged_in: bool,
    pub anonymous: bool,
    pub mode: TransferMode<L>,
    pub transfer_type: TransferType,
    /// The current directory: names to walk down from the root.
    pub cwd: Seq<Seq<u8>>,
}

/// The user name that logs in with any password.
pub open spec fn anonymous_name() -> Seq<u8> {
    seq![97u8, 110, 111, 110, 121, 109, 111, 117, 115]
}

/// One control connection.
pub struct FTPSession<L> {
    current_user: Vec<u8>,
    is_logged_in: bool,
    is_anonymous: bool,
    transfer_mode: TransferMode<L>,
    transfer_type: TransferType,
    current_path: Vec<Vec<u8>>,
    config: Config,
}

impl<L> View for FTPSession<L> {
    type V = SessionView<L>;

    closed spec fn view(&self) -> SessionView<L> {
        SessionView {
            user: self.current_user@,
            logged_in: self.is_logged_in,
            anonymous: self.is_anonymous,
            mode: self.transfer_mode,
            transfer_type: self.transfer_type,
            cwd: crate::bytes::views(self.current_path@),
        }
    }
}

/// USER: refused once logged in; otherwise the name is kept and a password
/// is asked for.
pub open spec fn pre_login_post<L>(
    s: SessionView<L>,
    name: Seq<u8>,
    t: SessionView<L>,
    r: Reply,
) -> bool {
    if s.logged_in {
        r is CannotChangeUser && t == s
    } else {
        r is PasswordRequired && t == (SessionView { user: name, ..s })
    }
}

/// PASS: the anonymous user logs in with any password, the configured user
/// with the configured password; anything else fails and changes nothing.
pub open spec fn try_login_post<L>(
    s: SessionView<L>,
    c: Config,
    password: Seq<u8>,
    t: SessionView<L>,
    r: Reply,
) -> bool {
    if s.logged_in {
        r is AlreadyLoggedIn && t == s
    } else if s.user == anonymous_name() {
        r is LoginSuccessful && t == (SessionView { logged_in: true, anonymous: true, ..s })
    } else if s.user == c.username@ && password == c.password@ {
        r is LoginSuccessful && t == (SessionView { logged_in: true, ..s })
    } else {
        r is LoginIncorrect && t == s
    }
}

/// PORT: a well-formed address becomes the active-mode target; anything
/// else disables the data connection.
pub open spec fn set_active_post<L>(
    s: SessionView<L>,
    arg: Seq<u8>,
    t: SessionView<L>,
    r: Reply,
) -> bool {
    if !s.logged_in {
        r is NotLoggedIn && t == s
    } else if addr_arg_ok(arg) {
        &&& r is PortSuccessful
        &&& t == (SessionView { mode: t.mode, ..s })
        &&& t.mode matches TransferMode::Active(a) && octets(a) == arg_octets(arg)
    } else {
        r is IllegalAddress && t == (SessionView { mode: TransferMode::Disabled, ..s })
    }
}

/// PASV: once logged in, a listener is to be bound.
pub open spec fn set_passive_post<L>(s: SessionView<L>, t: SessionView<L>, r: Action<L>) -> bool {
    t == s && if !s.logged_in {
        r matches Action::Reply(Reply::NotLoggedIn)
    } else {
        r is Bind
    }
}

/// TYPE: `A` or `I`, in either case.
pub open spec fn set_transfer_type_post<L>(
    s: SessionView<L>,
    arg: Seq<u8>,
    t: SessionView<L>,
    r: Reply,
) -> bool {
    if upper_seq(arg) == seq![65u8] {
        r is SwitchedToAscii && t == (SessionView { transfer_type: TransferType::Ascii, ..s })
    } else if upper_seq(arg) == seq![73u8] {
        r is SwitchedToBinary && t == (SessionView { transfer_type: TransferType::Binary, ..s })
    } else {
        r is UnsupportedType && t == s
    }
}

/// MODE: only `S` (stream), in either case.
pub open spec fn set_transfer_mode_post<L>(
    s: SessionView<L>,
    arg: Seq<u8>,
    t: SessionView<L>,
    r: Reply,
) -> bool {
    t == s && if upper_seq(arg) == seq![83u8] {
        r is ModeSet
    } else {
        r is BadMode
    }
}

/// STRU: only `F` (file).
pub open spec fn set_file_struct_post<L>(
    s: SessionView<L>,
    arg: Seq<u8>,
    t: SessionView<L>,
    r: Reply,
) -> bool {
    t == s && if arg == seq![70u8] {
        r is StructureSet
    } else {
        r is BadStructure
    }
}

/// CWD: once logged in, the path is handed out to be resolved on disk; the
/// state does not change yet.
pub open spec fn change_working_directory_post<L>(
    s: SessionView<L>,
    c: Config,
    arg: Seq<u8>,
    t: SessionView<L>,
    r: Action<L>,
) -> bool {
    t == s && if !s.logged_in {
        r matches Action::Reply(Reply::NotLoggedIn)
    } else {
        r matches Action::ChangeDirectory(p) && p@ == joined(c.path@, s.cwd, arg)
    }
}

/// The end of CWD: the directory, as the system resolved it, becomes
/// current if it lies within the root.
pub open spec fn finish_change_directory_post<L>(
    s: SessionView<L>,
    c: Config,
    resolved_path: Option<Seq<u8>>,
    t: SessionView<L>,
    r: Reply,
) -> bool {
    match resolved_path {
        None => r is ChangeDirectoryFailed && t == s,
        Some(p) => match under_root(c.path@, p) {
            None => r is ChangeDirectoryFailed && t == s,
            Some(x) => r is DirectoryChanged && t == (SessionView { cwd: x, ..s }),
        },
    }
}

/// PWD: the current directory, as seen from the root.
pub open spec fn print_working_directory_post<L>(
    s: SessionView<L>,
    t: SessionView<L>,
    r: Reply,
) -> bool {
    t == s && if !s.logged_in {
        r is NotLoggedIn
    } else {
        r matches Reply::CurrentDirectory(p) && p@ == virtual_path(s.cwd)
    }
}

/// LIST, RETR, STOR: the data connection is used up whatever happens; the
/// transfer is handed out only with a data connection prepared. Its path
/// is resolved on disk and checked with `is_within_root` before use.
pub open spec fn transfer_post<L>(
    s: SessionView<L>,
    c: Config,
    kind: TransferKind,
    target: Seq<u8>,
    t: SessionView<L>,
    r: Action<L>,
) -> bool {
    if !s.logged_in {
        r matches Action::Reply(Reply::NotLoggedIn) && t == s
    } else {
        &&& t == (SessionView { mode: TransferMode::Disabled, ..s })
        &&& if s.mode is Disabled {
            r matches Action::Reply(Reply::UsePortOrPasv)
        } else {
            r matches Action::Transfer(tr) && (tr.kind == kind && tr.path@ == joined(
                c.path@,
                s.cwd,
                target,
            ) && tr.mode == s.mode && tr.transfer_type == s.transfer_type)
        }
    }
}

/// The commands that need a logged-in session.
pub open spec fn login_gated(v: Verb) -> bool {
    v == Verb::Port || v == Verb::Pasv || v == Verb::Cwd || v == Verb::Pwd || v == Verb::List
        || v == Verb::Retr || v == Verb::Stor
}

/// The commands that use up the data connection.
pub open spec fn is_transfer(v: Verb) -> bool {
    v == Verb::List || v == Verb::Retr || v == Verb::Stor
}

/// What `handle` does with a command.
pub open spec fn handle_post<L>(
    s: SessionView<L>,
    c: Config,
    cmd: Command,
    t: SessionView<L>,
    r: Action<L>,
) -> bool {
    let arg = cmd.arg@;
    match cmd.verb {
        Verb::User => r matches Action::Reply(rep) && pre_login_post(s, arg, t, rep),
        Verb::Pass => r matches Action::Reply(rep) && try_login_post(s, c, arg, t, rep),
        Verb::Port => r matches Action::Reply(rep) && set_active_post(s, arg, t, rep),
        Verb::Pasv => set_passive_post(s, t, r),
        Verb::Type => r matches Action::Reply(rep) && set_transfer_type_post(s, arg, t, rep),
        Verb::Mode => r matches Action::Reply(rep) && set_transfer_mode_post(s, arg, t, rep),
        Verb::Stru => r matches Action::Reply(rep) && set_file_struct_post(s, arg, t, rep),
        Verb::Cwd => change_working_directory_post(s, c, arg, t, r),
        Verb::Pwd => r matches Action::Reply(rep) && print_working_directory_post(s, t, rep),
        Verb::List => transfer_post(s, c, TransferKind::List, list_target(arg), t, r),
        Verb::Retr => transfer_post(s, c, TransferKind::Retrieve, arg, t, r),
        Verb::Stor => transfer_post(s, c, TransferKind::Store, arg, t, r),
        Verb::Feat => r matches Action::Reply(Reply::Features) && t == s,
        Verb::Syst => r matches Action::Reply(Reply::SystemType) && t == s,
        Verb::Noop => r matches Action::Reply(Reply::NoopOk) && t == s,
        Verb::OptsUtf8 => r matches Action::Reply(Reply::AlwaysUtf8) && t == s,
        Verb::Quit => r is Quit && t == s,
        Verb::Unknown => r matches Action::Reply(Reply::UnknownCommand) && t == s,
    }
}

/// The reply sent once the data connection is open, before any data moves.
pub fn transfer_started(kind: TransferKind) -> (r: Reply)
    ensures
        kind == TransferKind::List ==> r is ListingStarts,
        kind != TransferKind::List ==> r is DataStarts,
{
    match kind {
        TransferKind::List => Reply::ListingStarts,
        _ => Reply::DataStarts,
    }
}

/// The reply that ends a transfer: done if it `succeeded`, else aborted.
pub fn transfer_finished(kind: TransferKind, succeeded: bool) -> (r: Reply)
    ensures
        !succeeded ==> r is TransferAborted,
        succeeded && kind == TransferKind::List ==> r is ListingDone,
        succeeded && kind != TransferKind::List ==> r is TransferComplete,
{
    if !succeeded {
        Reply::TransferAborted
    } else {
        match kind {
            TransferKind::List => Reply::ListingDone,
            _ => Reply::TransferComplete,
        }
    }
}

/// Before login no data connection is prepared and the session is not
/// anonymous.
pub open spec fn valid_state<L>(s: SessionView<L>) -> bool {
    !s.logged_in ==> (s.mode is Disabled && !s.anonymous)
}

/// Before login, every command that needs it is refused with the
/// not-logged-in reply, and nothing changes.
pub proof fn lemma_login_gate<L>(
    s: SessionView<L>,
    c: Config,
    cmd: Command,
    t: SessionView<L>,
    r: Action<L>,
)
    requires
        handle_post(s, c, cmd, t, r),
        !s.logged_in,
        login_gated(cmd.verb),
    ensures
        r matches Action::Reply(Reply::NotLoggedIn),
        t == s,
{
}

/// The data connection serves one transfer: after LIST, RETR or STOR, and
/// after a PORT whose address is malformed, none is prepared. (A failed
/// bind for PASV leaves none either: see `passive_failed`.)
pub proof fn lemma_transfer_mode_one_shot<L>(
    s: SessionView<L>,
    c: Config,
    cmd: Command,
    t: SessionView<L>,
    r: Action<L>,
)
    requires
        handle_post(s, c, cmd, t, r),
        valid_state(s),
    ensures
        is_transfer(cmd.verb) ==> t.mode is Disabled,
        cmd.verb == Verb::Port && !addr_arg_ok(cmd.arg@) ==> t.mode is Disabled,
{
}

/// A session that has logged in stays logged in, with its anonymity
/// unchanged; a session that logs in is anonymous exactly when the user it
/// logged in as is the anonymous one; and every command keeps the session
/// state valid.
pub proof fn lemma_login_persists<L>(
    s: SessionView<L>,
    c: Config,
    cmd: Command,
    t: SessionView<L>,
    r: Action<L>,
)
    requires
        handle_post(s, c, cmd, t, r),
        valid_state(s),
    ensures
        s.logged_in ==> t.logged_in && t.anonymous == s.anonymous,
        !s.logged_in && t.logged_in ==> t.anonymous == (s.user == anonymous_name()),
        valid_state(t),
{
}

impl<L> FTPSession<L> {
    pub closed spec fn config(&self) -> Config {
        self.config
    }

    /// The current directory is a list of names, and the session state is
    /// valid.
    pub closed spec fn wf(&self) -> bool {
        &&& all_names(crate::bytes::views(self.current_path@))
        &&& valid_state(self@)
    }

    /// A new session: nobody logged in, no data connection, ASCII type, at
    /// the root.
    pub fn new(config: Config) -> (r: FTPSession<L>)
        ensures
            r.wf(),
            r.config() == config,
            r@ == (SessionView::<L> {
                user: Seq::empty(),
                logged_in: false,
                anonymous: false,
                mode: TransferMode::Disabled,
                transfer_type: TransferType::Ascii,
                cwd: Seq::empty(),
            }),
    {
        let r = FTPSession {
            current_user: Vec::new(),
            is_logged_in: false,
            is_anonymous: false,
            transfer_mode: TransferMode::Disabled,
            transfer_type: TransferType::Ascii,
            current_path: Vec::new(),
            config,
        };
        assert(crate::bytes::views(r.current_path@) =~= Seq::<Seq<u8>>::empty());
        assert(r.current_user@ =~= Seq::<u8>::empty());
        r
    }

    /// The greeting sent when the connection opens.
    pub fn welcome(&self) -> (r: Reply)
        ensures
            r is Welcome,
    {
        Reply::Welcome
    }

    /// FEAT: the list of supported extensions.
    pub fn list_features(&self) -> (r: Reply)
        ensures
            r is Features,
    {
        Reply::Features
    }

    /// SYST: the system type.
    pub fn print_info(&self) -> (r: Reply)
        ensures
            r is SystemType,
    {
        Reply::SystemType
    }

    /// NOOP.
    pub fn wait(&self) -> (r: Reply)
        ensures
            r is NoopOk,
    {
        Reply::NoopOk
    }

    /// OPTS UTF8 ON: names are always UTF-8.
    pub fn unicode(&self) -> (r: Reply)
        ensures
            r is AlwaysUtf8,
    {
        Reply::AlwaysUtf8
    }

    /// QUIT: say goodbye and close.
    pub fn quit(&self) -> (r: Action<L>)
        ensures
            r is Quit,
    {
        Action::Quit
    }

    /// Any command that is not understood.
    pub fn unknown_command(&self) -> (r: Reply)
        ensures
            r is UnknownCommand,
    {
        Reply::UnknownCommand
    }

    pub fn is_logged_in(&self) -> (r: bool)
        ensures
            r == self@.logged_in,
    {
        self.is_logged_in
    }

    pub fn is_anonymous(&self) -> (r: bool)
        ensures
            r == self@.anonymous,
    {
        self.is_anonymous
    }

    pub fn transfer_type(&self) -> (r: TransferType)
        ensures
            r == self@.transfer_type,
    {
        self.transfer_type
    }

    pub fn transfer_mode(&self) -> (r: &TransferMode<L>)
        ensures
            *r == self@.mode,
    {
        &self.transfer_mode
    }

    pub fn current_user(&self) -> (r: &Vec<u8>)
        ensures
            r@ == self@.user,
    {
        &self.current_user
    }

    /// The current directory, as the client sees it.
    pub fn current_directory(&self) -> (r: Vec<u8>)
        ensures
            r@ == virtual_path(self@.cwd),
    {
        let mut slash: Vec<u8> = Vec::new();
        slash.push(SLASH);
        assert(slash@ =~= seq![SLASH]);
        absolute_path(slash.as_slice(), &self.current_path)
    }

    pub fn config_ref(&self) -> (r: &Config)
        ensures
            *r == self.config(),
    {
        &self.config
    }

    pub fn pre_login(&mut self, username: &[u8]) -> (r: Reply)
        requires
            old(self).wf(),
        ensures
            final(self).wf(),
            final(self).config() == old(self).config(),
            pre_login_post(old(self)@, username@, final(self)@, r),
    {
        if self.is_logged_in {
            Reply::CannotChangeUser
        } else {
            self.current_user = copy_bytes(username);
            Reply::PasswordRequired
        }
    }

    pub fn try_login(&mut self, password: &[u8]) -> (r: Reply)
        requires
            old(self).wf(),
        ensures
            final(self).wf(),
            final(self).config() == old(self).config(),
            try_login_post(old(self)@, old(self).config(), password@, final(self)@, r),
    {
        if self.is_logged_in {
            Reply::AlreadyLoggedIn
        } else if crate::bytes::bytes_eq(
            self.current_user.as_slice(),
            &[97u8, 110, 111, 110, 121, 109, 111, 117, 115],
        ) {
            self.is_anonymous = true;
            self.is_logged_in = true;
            Reply::LoginSuccessful
        } else if crate::bytes::bytes_eq(
            self.current_user.as_slice(),
            self.config.username.as_slice(),
        ) && crate::bytes::bytes_eq(password, self.config.password.as_slice()) {
            self.is_logged_in = true;
            Reply::LoginSuccessful
        } else {
            Reply::LoginIncorrect
        }
    }

    pub fn set_active(&mut self, remote: &[u8]) -> (r: Reply)
        requires
            old(self).wf(),
        ensures
            final(self).wf(),
            final(self).config() == old(self).config(),
            set_active_post(old(self)@, remote@, final(self)@, r),
    {
        if !self.is_logged_in {
            return Reply::NotLoggedIn;
        }
        match parse_ipv4_addr(remote) {
            Some(a) => {
                self.transfer_mode = TransferMode::Active(a);
                Reply::PortSuccessful
            },
            None => {
                self.transfer_mode = TransferMode::Disabled;
                Reply::IllegalAddress
            },
        }
    }

    pub fn set_passive(&mut self) -> (r: Action<L>)
        requires
            old(self).wf(),
        ensures
            final(self).wf(),
            final(self).config() == old(self).config(),
            set_passive_post(old(self)@, final(self)@, r),
    {
        if !self.is_logged_in {
            Action::Reply(Reply::NotLoggedIn)
        } else {
            Action::Bind
        }
    }

    /// A listener was bound for passive mode at `addr`: it replaces any
    /// earlier data-connection setting.
    pub fn passive_bound(&mut self, listener: L, addr: DataAddr) -> (r: Reply)
        requires
            old(self).wf(),
            old(self)@.logged_in,
        ensures
            final(self).wf(),
            final(self).config() == old(self).config(),
            final(self)@ == (SessionView { mode: TransferMode::Passive(listener), ..old(self)@ }),
            r matches Reply::EnteringPassiveMode(a) && a == addr,
    {
        self.transfer_mode = TransferMode::Passive(listener);
        Reply::EnteringPassiveMode(addr)
    }

    /// No listener could be bound: passive mode is not entered and the data
    /// connection is disabled.
    pub fn passive_failed(&mut self) -> (r: Reply)
        requires
            old(self).wf(),
        ensures
            final(self).wf(),
            final(self).config() == old(self).config(),
            final(self)@ == (SessionView { mode: TransferMode::Disabled, ..old(self)@ }),
            r is CannotCreateSocket,
    {
        self.transfer_mode = TransferMode::Disabled;
        Reply::CannotCreateSocket
    }

    pub fn set_transfer_type(&mut self, transfer_type: &[u8]) -> (r: Reply)
        requires
            old(self).wf(),
        ensures
            final(self).wf(),
            final(self).config() == old(self).config(),
            set_transfer_type_post(old(self)@, transfer_type@, final(self)@, r),
    {
        let t = to_upper(transfer_type);
        if t.len() == 1 && t[0] == 65 {
            assert(t@ =~= seq![65u8]);
            self.transfer_type = TransferType::Ascii;
            Reply::SwitchedToAscii
        } else if t.len() == 1 && t[0] == 73 {
            assert(t@ =~= seq![73u8]);
            self.transfer_type = TransferType::Binary;
            Reply::SwitchedToBinary
        } else {
            assert(t@ != seq![65u8] && t@ != seq![73u8]) by {
                if t@ == seq![65u8] || t@ == seq![73u8] {
                    assert(t@.len() == 1);
                }
            }
            Reply::UnsupportedType
        }
    }

    pub fn set_transfer_mode(&mut self, mode: &[u8]) -> (r: Reply)
        requires
            old(self).wf(),
        ensures
            final(self).wf(),
            final(self).config() == old(self).config(),
            set_transfer_mode_post(old(self)@, mode@, final(self)@, r),
    {
        let m = to_upper(mode);
        if m.len() == 1 && m[0] == 83 {
            assert(m@ =~= seq![83u8]);
            Reply::ModeSet
        } else {
            assert(m@ != seq![83u8]) by {
                if m@ == seq![83u8] {
                    assert(m@.len() == 1);
                }
            }
            Reply::BadMode
        }
    }

    pub fn set_file_struct(&mut self, stru: &[u8]) -> (r: Reply)
        requires
            old(self).wf(),
        ensures
            final(self).wf(),
            final(self).config() == old(self).config(),
            set_file_struct_post(old(self)@, stru@, final(self)@, r),
    {
        if stru.len() == 1 && stru[0] == 70 {
            assert(stru@ =~= seq![70u8]);
            Reply::StructureSet
        } else {
            assert(stru@ != seq![70u8]) by {
                if stru@ == seq![70u8] {
                    assert(stru@.len() == 1);
                }
            }
            Reply::BadStructure
        }
    }

    pub fn change_working_directory(&mut self, path: &[u8]) -> (r: Action<L>)
        requires
            old(self).wf(),
        ensures
            final(self).wf(),
            final(self).config() == old(self).config(),
            change_working_directory_post(old(self)@, old(self).config(), path@, final(self)@, r),
    {
        if !self.is_logged_in {
            return Action::Reply(Reply::NotLoggedIn);
        }
        Action::ChangeDirectory(combine(self.config.path.as_slice(), &self.current_path, path))
    }

    /// Completes CWD with the path that the system resolved, or `None` if
    /// the target does not exist or is not a directory.
    pub fn finish_change_directory(&mut self, resolved_path: Option<Vec<u8>>) -> (r: Reply)
        requires
            old(self).wf(),
        ensures
            final(self).wf(),
            final(self).config() == old(self).config(),
            finish_change_directory_post(
                old(self)@,
                old(self).config(),
                match resolved_path {
                    Some(p) => Some(p@),
                    None => None,
                },
                final(self)@,
                r,
            ),
    {
        match resolved_path {
            None => Reply::ChangeDirectoryFailed,
            Some(p) => match relative_to_root(self.config.path.as_slice(), p.as_slice()) {
                None => Reply::ChangeDirectoryFailed,
                Some(segs) => {
                    proof {
                        lemma_under_root_within(self.config.path@, p@);
                    }
                    self.current_path = segs;
                    Reply::DirectoryChanged
                },
            },
        }
    }

    pub fn print_working_directory(&mut self) -> (r: Reply)
        requires
            old(self).wf(),
        ensures
            final(self).wf(),
            final(self).config() == old(self).config(),
            print_working_directory_post(old(self)@, final(self)@, r),
    {
        if !self.is_logged_in {
            return Reply::NotLoggedIn;
        }
        Reply::CurrentDirectory(self.current_directory())
    }

    /// Prepares a transfer of `kind` on `target`; the data-connection
    /// setting is used up.
    fn start_transfer(&mut self, kind: TransferKind, target: &[u8]) -> (r: Action<L>)
        requires
            old(self).wf(),
        ensures
            final(self).wf(),
            final(self).config() == old(self).config(),
            transfer_post(old(self)@, old(self).config(), kind, target@, final(self)@, r),
    {
        if !self.is_logged_in {
            return Action::Reply(Reply::NotLoggedIn);
        }
        let mut mode = TransferMode::Disabled;
        core::mem::swap(&mut self.transfer_mode, &mut mode);
        match mode {
            TransferMode::Disabled => Action::Reply(Reply::UsePortOrPasv),
            _ => {
                let path = combine(self.config.path.as_slice(), &self.current_path, target);
                Action::Transfer(Transfer { kind, path, mode, transfer_type: self.transfer_type })
            },
        }
    }

    /// LIST: the listing of a directory; options in the argument are
    /// skipped, and no path means the current directory.
    pub fn list(&mut self, opts: &[u8]) -> (r: Action<L>)
        requires
            old(self).wf(),
        ensures
            final(self).wf(),
            final(self).config() == old(self).config(),
            transfer_post(
                old(self)@,
                old(self).config(),
                TransferKind::List,
                list_target(opts@),
                final(self)@,
                r,
            ),
    {
        let target = list_path(opts);
        self.start_transfer(TransferKind::List, target.as_slice())
    }

    /// RETR: a file is sent to the client.
    pub fn send(&mut self, path: &[u8]) -> (r: Action<L>)
        requires
            old(self).wf(),
        ensures
            final(self).wf(),
            final(self).config() == old(self).config(),
            transfer_post(old(self)@, old(self).config(), TransferKind::Retrieve, path@, final(self)@, r),
    {
        self.start_transfer(TransferKind::Retrieve, path)
    }

    /// STOR: a file is received from the client.
    pub fn receive(&mut self, path: &[u8]) -> (r: Action<L>)
        requires
            old(self).wf(),
        ensures
            final(self).wf(),
            final(self).config() == old(self).config(),
            transfer_post(old(self)@, old(self).config(), TransferKind::Store, path@, final(self)@, r),
    {
        self.start_transfer(TransferKind::Store, path)
    }

    /// Whether `resolved_path`, a path whose links the system resolved, lies within
    /// the root; a transfer touches only such a path.
    pub fn is_within_root(&self, resolved_path: &[u8]) -> (r: bool)
        ensures
            r == under_root(self.config().path@, resolved_path@) is Some,
    {
        relative_to_root(self.config.path.as_slice(), resolved_path).is_some()
    }

    /// Routes a parsed command to its handler.
    pub fn handle(&mut self, cmd: &Command) -> (r: Action<L>)
        requires
            old(self).wf(),
        ensures
            final(self).wf(),
            final(self).config() == old(self).config(),
            handle_post(old(self)@, old(self).config(), *cmd, final(self)@, r),
    {
        let arg = cmd.arg.as_slice();
        match cmd.verb {
            Verb::User => Action::Reply(self.pre_login(arg)),
            Verb::Pass => Action::Reply(self.try_login(arg)),
            Verb::Port => Action::Reply(self.set_active(arg)),
            Verb::Pasv => self.set_passive(),
            Verb::Type => Action::Reply(self.set_transfer_type(arg)),
            Verb::Mode => Action::Reply(self.set_transfer_mode(arg)),
            Verb::Stru => Action::Reply(self.set_file_struct(arg)),
            Verb::Cwd => self.change_working_directory(arg),
            Verb::Pwd => Action::Reply(self.print_working_directory()),
            Verb::List => self.list(arg),
            Verb::Retr => self.send(arg),
            Verb::Stor => self.receive(arg),
            Verb::Feat => Action::Reply(self.list_features()),
            Verb::Syst => Action::Reply(self.print_info()),
            Verb::Noop => Action::Reply(self.wait()),
            Verb::OptsUtf8 => Action::Reply(self.unicode()),
            Verb::Quit => self.quit(),
            Verb::Unknown => Action::Reply(self.unknown_command()),
        }
    }
}

} // verus!
