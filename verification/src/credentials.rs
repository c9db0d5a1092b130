//! Secrets in the credential store, with test and development builds kept off the installed app's
//! entries.
//!
//! | build | service name |
//! |---|---|
//! | test run | `<service>.test` |
//! | debug build | `<service>.dev` |
//! | release build | `<service>` |

use vstd::prelude::*;

use crate::keyring::{
    answered, delete_credential, get_password, has_default_store, no_default_store, open_entry,
    set_password, CredentialError, ErrorKind,
};

verus! {

/// Which kind of build is running.
#[derive(Debug, Clone, Copy, PartialEq, Eq, Structural)]
pub enum BuildKind {
    /// A test run.
    Test,
    /// A debug build of the app.
    Dev,
    /// A release build: the entries the installed app uses.
    Release,
}

/// The kind of build that an app's two build flags make.
pub open spec fn kind_of_build(test: bool, debug_assertions: bool) -> BuildKind {
    if test {
        BuildKind::Test
    } else if debug_assertions {
        BuildKind::Dev
    } else {
        BuildKind::Release
    }
}

/// The kind of build that an app's two build flags make. A test build is a debug build too, and
/// counts as a test build: a test run must not clear what a development session signed in with.
pub fn build_kind(test: bool, debug_assertions: bool) -> (kind: BuildKind)
    ensures
        kind == kind_of_build(test, debug_assertions),
        kind == BuildKind::Test <==> test,
        kind == BuildKind::Dev <==> !test && debug_assertions,
{
    if test {
        BuildKind::Test
    } else if debug_assertions {
        BuildKind::Dev
    } else {
        BuildKind::Release
    }
}

impl BuildKind {
    /// The text of the suffix, if there is one.
    pub open spec fn suffix_text(self) -> Option<Seq<char>> {
        match self {
            BuildKind::Test => Some("test"@),
            BuildKind::Dev => Some("dev"@),
            BuildKind::Release => None,
        }
    }

    /// The suffix this kind adds to a service name, if any.
    pub fn suffix(self) -> (suffix: Option<&'static str>)
        ensures
            match self.suffix_text() {
                Some(text) => suffix matches Some(s) && s@ == text,
                None => suffix is None,
            },
            self == BuildKind::Test ==> (suffix matches Some(s) && s@ == "test"@),
            self == BuildKind::Dev ==> (suffix matches Some(s) && s@ == "dev"@),
            self == BuildKind::Release ==> suffix is None,
    {
        match self {
            BuildKind::Test => Some("test"),
            BuildKind::Dev => Some("dev"),
            BuildKind::Release => None,
        }
    }
}

/// The service name that entries are stored under, for a service as seen by a kind of build.
pub open spec fn service_name(service: Seq<char>, kind: BuildKind) -> Seq<char> {
    match kind.suffix_text() {
        Some(suffix) => service + "."@ + suffix,
        None => service,
    }
}

/// What [`Credentials::get`] makes of a store's reply to a read: no entry is no secret.
pub open spec fn found_outcome(reply: Result<Seq<char>, keyring_core::Error>) -> Result<
    Option<Seq<char>>,
    CredentialError,
> {
    match reply {
        Ok(secret) => Ok(Some(secret)),
        Err(error) => if crate::keyring::error_kind(error) == ErrorKind::NoEntry {
            Ok(None)
        } else {
            Err(crate::keyring::as_reported(error))
        },
    }
}

/// What [`Credentials::delete`] makes of a store's reply to a removal: no entry is as good as one
/// removed.
pub open spec fn gone_outcome(reply: Result<(), keyring_core::Error>) -> Result<
    (),
    CredentialError,
> {
    match reply {
        Ok(_) => Ok(()),
        Err(error) => if crate::keyring::error_kind(error) == ErrorKind::NoEntry {
            Ok(())
        } else {
            Err(crate::keyring::as_reported(error))
        },
    }
}

/// The secret in a result of [`Credentials::get`], by its text.
pub open spec fn secret_outcome(res: Result<Option<String>, CredentialError>) -> Result<
    Option<Seq<char>>,
    CredentialError,
> {
    match res {
        Ok(Some(secret)) => Ok(Some(secret@)),
        Ok(None) => Ok(None),
        Err(error) => Err(error),
    }
}

/// What a read that ended in `reply` found.
pub fn found(reply: Result<String, CredentialError>) -> (res: Result<
    Option<String>,
    CredentialError,
>)
    ensures
        match reply {
            Ok(secret) => res == Ok::<Option<String>, CredentialError>(Some(secret)),
            Err(error) => if error.kind == ErrorKind::NoEntry {
                res == Ok::<Option<String>, CredentialError>(None)
            } else {
                res == Err::<Option<String>, CredentialError>(error)
            },
        },
    opens_invariants none
{
    match reply {
        Ok(secret) => Ok(Some(secret)),
        Err(error) => {
            if error.kind == ErrorKind::NoEntry {
                Ok(None)
            } else {
                Err(error)
            }
        },
    }
}

/// Whether a removal that ended in `reply` left no secret behind.
pub fn gone(reply: Result<(), CredentialError>) -> (res: Result<(), CredentialError>)
    ensures
        match reply {
            Ok(_) => res == Ok::<(), CredentialError>(()),
            Err(error) => if error.kind == ErrorKind::NoEntry {
                res == Ok::<(), CredentialError>(())
            } else {
                res == Err::<(), CredentialError>(error)
            },
        },
    opens_invariants none
{
    match reply {
        Ok(_) => Ok(()),
        Err(error) => {
            if error.kind == ErrorKind::NoEntry {
                Ok(())
            } else {
                Err(error)
            }
        },
    }
}

/// How installing the platform's store turned out, once it is known.
#[derive(Debug, Clone, Copy, PartialEq, Eq, Structural)]
pub enum StoreSetup {
    /// A default store is there: the platform's, or one that the app had installed itself.
    Ready,
    /// The platform's store could not be installed.
    Failed,
}

/// What to do about the default store.
#[derive(Debug, Clone, Copy, PartialEq, Eq, Structural)]
pub enum SetupStep {
    /// Nothing more: it turned out like this.
    Settled(StoreSetup),
    /// Install the platform's store, then settle by [`installed`].
    Install,
}

/// What to do on first use: a default store that is already there is kept.
pub open spec fn first_step(default_store: bool) -> SetupStep {
    if default_store {
        SetupStep::Settled(StoreSetup::Ready)
    } else {
        SetupStep::Install
    }
}

/// What to do on first use: a default store that is already there is kept.
pub fn first_use(default_store: bool) -> (step: SetupStep)
    ensures
        step == first_step(default_store),
        default_store ==> step == SetupStep::Settled(StoreSetup::Ready),
        !default_store ==> step == SetupStep::Install,
{
    if default_store {
        SetupStep::Settled(StoreSetup::Ready)
    } else {
        SetupStep::Install
    }
}

/// How the setup turned out when the platform's store was, or was not, installed.
pub fn installed(success: bool) -> (setup: StoreSetup)
    ensures
        setup == if success {
            StoreSetup::Ready
        } else {
            StoreSetup::Failed
        },
{
    if success {
        StoreSetup::Ready
    } else {
        StoreSetup::Failed
    }
}

/// What to do about the default store, given how the setup turned out if it was made before. It is
/// made once: a setup that is known is never tried again, not even a failed one.
pub fn ensure_store(known: Option<StoreSetup>) -> (step: SetupStep)
    ensures
        match known {
            Some(setup) => step == SetupStep::Settled(setup),
            None => exists|present: bool| #[trigger]
                crate::keyring::default_store_seen(present) && step == first_step(present),
        },
        known is None ==> (exists|present: bool| #[trigger]
            crate::keyring::default_store_seen(present) && step == if present {
                SetupStep::Settled(StoreSetup::Ready)
            } else {
                SetupStep::Install
            }),
{
    match known {
        Some(setup) => SetupStep::Settled(setup),
        None => {
            let present = has_default_store();
            assert(crate::keyring::default_store_seen(present));
            first_use(present)
        },
    }
}

/// How the setup stands after one more use, given how it stood before, whether there was a default
/// store, and whether installing the platform's succeeded if it was asked for.
pub open spec fn setup_after(
    known: Option<StoreSetup>,
    present: bool,
    success: bool,
) -> StoreSetup {
    match known {
        Some(setup) => setup,
        None => match first_step(present) {
            SetupStep::Settled(setup) => setup,
            SetupStep::Install => if success {
                StoreSetup::Ready
            } else {
                StoreSetup::Failed
            },
        },
    }
}

/// How the setup stands after these uses, each told by whether there was a default store and
/// whether installing succeeded; nothing is known before the first.
pub open spec fn setup_run(uses: Seq<(bool, bool)>) -> Option<StoreSetup>
    decreases uses.len(),
{
    if uses.len() == 0 {
        None
    } else {
        Some(setup_after(setup_run(uses.drop_last()), uses.last().0, uses.last().1))
    }
}

/// The first use settles the setup for good. A store that is there is kept; otherwise the
/// platform's is installed, and what came of that stands, whatever later uses find.
pub proof fn law_setup_is_made_once(uses: Seq<(bool, bool)>)
    requires
        uses.len() > 0,
    ensures
        setup_run(uses) == Some(
            if uses[0].0 || uses[0].1 {
                StoreSetup::Ready
            } else {
                StoreSetup::Failed
            },
        ),
    decreases uses.len(),
{
    if uses.len() > 1 {
        law_setup_is_made_once(uses.drop_last());
        assert(uses.drop_last()[0] == uses[0]);
    } else {
        assert(setup_run(uses.drop_last()) is None);
    }
}

/// Secrets an app keeps under one service name, one per account.
///
/// Each operation takes how the setup of the default store turned out: [`ensure_store`] says whether
/// the platform's store has to be installed first, and [`installed`] what came of that. After a
/// failed setup an operation ends in `NoDefaultStore` without asking a store. After a setup that is
/// ready it asks the default store, which has to be there still: without one, opening the entry
/// ends in `NoDefaultStore` too. The header of each operation lists the calls it may make of the
/// store: none after a failed setup, whose number is that of no call.
#[derive(Debug, Clone)]
pub struct Credentials {
    service: String,
}

impl View for Credentials {
    type V = Seq<char>;

    /// The service name entries are stored under.
    closed spec fn view(&self) -> Seq<char> {
        self.service@
    }
}

impl Credentials {
    /// Secrets under `service` (for example the app's identifier), as seen by this kind of build.
    pub fn new(service: &str, kind: BuildKind) -> (credentials: Self)
        ensures
            credentials@ == service_name(service@, kind),
            kind == BuildKind::Test ==> credentials@ == service@ + "."@ + "test"@,
            kind == BuildKind::Dev ==> credentials@ == service@ + "."@ + "dev"@,
            kind == BuildKind::Release ==> credentials@ == service@,
    {
        let mut name: String = service.to_string();
        match kind.suffix() {
            Some(suffix) => {
                name.append(".");
                name.append(suffix);
            },
            None => {},
        }
        Self { service: name }
    }

    /// The service name entries are actually stored under.
    pub fn service(&self) -> (service: &str)
        ensures
            service@ == self@,
    {
        self.service.as_str()
    }

    /// The entry for `account`, in the default store. After a failed setup there is no store to ask.
    fn entry(&self, setup: StoreSetup, account: &str) -> (res: Result<
        keyring_core::Entry,
        CredentialError,
    >)
        ensures
            entry_asked(
                setup,
                self@,
                account@,
                match res {
                    Ok(_) => Ok(()),
                    Err(error) => Err(error.source),
                },
            ),
            res matches Err(error) ==> error == crate::keyring::as_reported(error.source),
            res matches Ok(entry) ==> crate::keyring::entry_key(entry) == (self@, account@),
        opens_invariants [
            if setup == StoreSetup::Ready {
                crate::keyring::call_name(crate::keyring::StoreCall::Open(self@, account@))
            } else {
                -1
            },
        ]
    {
        let answer = match setup {
            StoreSetup::Ready => open_entry(&self.service, account),
            StoreSetup::Failed => Err(no_default_store()),
        };
        answered(answer)
    }

    /// Stores `secret` for `account`, replacing any earlier one.
    pub fn set(&self, setup: StoreSetup, account: &str, secret: &str) -> (res: Result<
        (),
        CredentialError,
    >)
        ensures
            exists|
                open: Result<(), keyring_core::Error>,
                reply: Result<(), keyring_core::Error>,
            | #[trigger]
                set_asked(setup, self@, account@, secret@, open, reply) && res == set_end(
                    open,
                    reply,
                ),
            setup == StoreSetup::Failed ==> no_store(res),
        opens_invariants [
            if setup == StoreSetup::Ready {
                crate::keyring::call_name(crate::keyring::StoreCall::Open(self@, account@))
            } else {
                -1
            },
            if setup == StoreSetup::Ready {
                crate::keyring::call_name(crate::keyring::StoreCall::Write(self@, account@, secret@))
            } else {
                -1
            },
        ]
    {
        match self.entry(setup, account) {
            Ok(entry) => {
                let answer = set_password(&entry, secret);
                assert(set_asked(
                    setup,
                    self@,
                    account@,
                    secret@,
                    Ok(()),
                    crate::keyring::done_reply(answer),
                ));
                answered(answer)
            },
            Err(error) => {
                assert(set_asked(setup, self@, account@, secret@, Err(error.source), Ok(())));
                Err(error)
            },
        }
    }

    /// The secret stored for `account`, or `None` when there is none.
    pub fn get(&self, setup: StoreSetup, account: &str) -> (res: Result<
        Option<String>,
        CredentialError,
    >)
        ensures
            exists|
                open: Result<(), keyring_core::Error>,
                reply: Result<Seq<char>, keyring_core::Error>,
            | #[trigger]
                get_asked(setup, self@, account@, open, reply) && secret_outcome(res) == get_end(
                    open,
                    reply,
                ),
            setup == StoreSetup::Failed ==> no_store(res),
        opens_invariants [
            if setup == StoreSetup::Ready {
                crate::keyring::call_name(crate::keyring::StoreCall::Open(self@, account@))
            } else {
                -1
            },
            if setup == StoreSetup::Ready {
                crate::keyring::call_name(crate::keyring::StoreCall::Read(self@, account@))
            } else {
                -1
            },
        ]
    {
        match self.entry(setup, account) {
            Ok(entry) => {
                let answer = get_password(&entry);
                assert(get_asked(
                    setup,
                    self@,
                    account@,
                    Ok(()),
                    crate::keyring::secret_reply(answer),
                ));
                found(answered(answer))
            },
            Err(error) => {
                assert(get_asked(setup, self@, account@, Err(error.source), Ok(Seq::empty())));
                Err(error)
            },
        }
    }

    /// Whether a secret is stored for `account`, without handing it out.
    pub fn contains(&self, setup: StoreSetup, account: &str) -> (res: Result<bool, CredentialError>)
        ensures
            exists|
                open: Result<(), keyring_core::Error>,
                reply: Result<Seq<char>, keyring_core::Error>,
            | #[trigger]
                get_asked(setup, self@, account@, open, reply) && res == contains_end(open, reply),
            setup == StoreSetup::Failed ==> no_store(res),
        opens_invariants [
            if setup == StoreSetup::Ready {
                crate::keyring::call_name(crate::keyring::StoreCall::Open(self@, account@))
            } else {
                -1
            },
            if setup == StoreSetup::Ready {
                crate::keyring::call_name(crate::keyring::StoreCall::Read(self@, account@))
            } else {
                -1
            },
        ]
    {
        match self.get(setup, account) {
            Ok(Some(_)) => Ok(true),
            Ok(None) => Ok(false),
            Err(error) => Err(error),
        }
    }

    /// Removes the secret for `account`. Removing one that is not there is not an error.
    pub fn delete(&self, setup: StoreSetup, account: &str) -> (res: Result<(), CredentialError>)
        ensures
            exists|
                open: Result<(), keyring_core::Error>,
                reply: Result<(), keyring_core::Error>,
            | #[trigger]
                delete_asked(setup, self@, account@, open, reply) && res == delete_end(open, reply),
            setup == StoreSetup::Failed ==> no_store(res),
        opens_invariants [
            if setup == StoreSetup::Ready {
                crate::keyring::call_name(crate::keyring::StoreCall::Open(self@, account@))
            } else {
                -1
            },
            if setup == StoreSetup::Ready {
                crate::keyring::call_name(crate::keyring::StoreCall::Remove(self@, account@))
            } else {
                -1
            },
        ]
    {
        match self.entry(setup, account) {
            Ok(entry) => {
                let answer = delete_credential(&entry);
                assert(delete_asked(
                    setup,
                    self@,
                    account@,
                    Ok(()),
                    crate::keyring::done_reply(answer),
                ));
                gone(answered(answer))
            },
            Err(error) => {
                assert(delete_asked(setup, self@, account@, Err(error.source), Ok(())));
                Err(error)
            },
        }
    }
}

/// That an operation ended because there is no default store.
pub open spec fn no_store<T>(res: Result<T, CredentialError>) -> bool {
    res matches Err(error) && error.kind == ErrorKind::NoDefaultStore
        && crate::keyring::error_kind(error.source) == ErrorKind::NoDefaultStore
}

/// How a `set` ends when opening the entry and writing to it end in these replies: an error is the
/// store's own.
pub open spec fn set_end(
    open: Result<(), keyring_core::Error>,
    reply: Result<(), keyring_core::Error>,
) -> Result<(), CredentialError> {
    match (open, reply) {
        (Ok(_), Ok(_)) => Ok(()),
        (Ok(_), Err(error)) => Err(crate::keyring::as_reported(error)),
        (Err(error), _) => Err(crate::keyring::as_reported(error)),
    }
}

/// How a `get` ends when opening the entry and reading it end in these replies.
pub open spec fn get_end(
    open: Result<(), keyring_core::Error>,
    reply: Result<Seq<char>, keyring_core::Error>,
) -> Result<Option<Seq<char>>, CredentialError> {
    match open {
        Ok(_) => found_outcome(reply),
        Err(error) => Err(crate::keyring::as_reported(error)),
    }
}

/// How a `contains` ends when opening the entry and reading it end in these replies.
pub open spec fn contains_end(
    open: Result<(), keyring_core::Error>,
    reply: Result<Seq<char>, keyring_core::Error>,
) -> Result<bool, CredentialError> {
    match get_end(open, reply) {
        Ok(secret) => Ok(secret is Some),
        Err(error) => Err(error),
    }
}

/// How a `delete` ends when opening the entry and removing it end in these replies.
pub open spec fn delete_end(
    open: Result<(), keyring_core::Error>,
    reply: Result<(), keyring_core::Error>,
) -> Result<(), CredentialError> {
    match open {
        Ok(_) => gone_outcome(reply),
        Err(error) => Err(crate::keyring::as_reported(error)),
    }
}

/// That opening an entry after this setup ended in this reply. A failed setup leaves no store to ask,
/// and is answered by that.
pub open spec fn entry_asked(
    setup: StoreSetup,
    service: Seq<char>,
    account: Seq<char>,
    open: Result<(), keyring_core::Error>,
) -> bool {
    match setup {
        StoreSetup::Ready => crate::keyring::opened(service, account, open),
        StoreSetup::Failed => open matches Err(error) && crate::keyring::error_kind(error)
            == ErrorKind::NoDefaultStore,
    }
}

/// That opening the entry, and writing the secret to it if it opened, ended in these replies.
pub open spec fn set_asked(
    setup: StoreSetup,
    service: Seq<char>,
    account: Seq<char>,
    secret: Seq<char>,
    open: Result<(), keyring_core::Error>,
    reply: Result<(), keyring_core::Error>,
) -> bool {
    &&& entry_asked(setup, service, account, open)
    &&& open is Ok ==> crate::keyring::wrote(service, account, secret, reply)
}

/// That opening the entry, and reading it if it opened, ended in these replies.
pub open spec fn get_asked(
    setup: StoreSetup,
    service: Seq<char>,
    account: Seq<char>,
    open: Result<(), keyring_core::Error>,
    reply: Result<Seq<char>, keyring_core::Error>,
) -> bool {
    &&& entry_asked(setup, service, account, open)
    &&& open is Ok ==> crate::keyring::read(service, account, reply)
}

/// That opening the entry, and removing it if it opened, ended in these replies.
pub open spec fn delete_asked(
    setup: StoreSetup,
    service: Seq<char>,
    account: Seq<char>,
    open: Result<(), keyring_core::Error>,
    reply: Result<(), keyring_core::Error>,
) -> bool {
    &&& entry_asked(setup, service, account, open)
    &&& open is Ok ==> crate::keyring::removed(service, account, reply)
}

/// How a `set` with these replies changes what a store holds.
pub open spec fn set_conduct(
    before: crate::keyring::Secrets,
    service: Seq<char>,
    account: Seq<char>,
    secret: Seq<char>,
    open: Result<(), keyring_core::Error>,
    reply: Result<(), keyring_core::Error>,
    after: crate::keyring::Secrets,
) -> bool {
    &&& open is Err ==> after == before
    &&& open is Ok ==> crate::keyring::write_conduct(
        before,
        (service, account),
        secret,
        reply,
        after,
    )
}

/// How a `get` is answered for a store that holds `held`. It changes nothing there.
pub open spec fn get_conduct(
    held: crate::keyring::Secrets,
    service: Seq<char>,
    account: Seq<char>,
    open: Result<(), keyring_core::Error>,
    reply: Result<Seq<char>, keyring_core::Error>,
) -> bool {
    open is Ok ==> crate::keyring::read_conduct(held, (service, account), reply)
}

/// How a `delete` with these replies changes what a store holds.
pub open spec fn delete_conduct(
    before: crate::keyring::Secrets,
    service: Seq<char>,
    account: Seq<char>,
    open: Result<(), keyring_core::Error>,
    reply: Result<(), keyring_core::Error>,
    after: crate::keyring::Secrets,
) -> bool {
    &&& open is Err ==> after == before
    &&& open is Ok ==> crate::keyring::remove_conduct(before, (service, account), reply, after)
}

/// That the entry `key` is as it was.
pub open spec fn same_entry(
    before: crate::keyring::Secrets,
    key: (Seq<char>, Seq<char>),
    after: crate::keyring::Secrets,
) -> bool {
    &&& after.contains_key(key) <==> before.contains_key(key)
    &&& before.contains_key(key) ==> after[key] == before[key]
}

/// That what a store holds changes by one operation of credentials with this service name: a `set`
/// or a `delete`, whatever it ends in. A `get` changes nothing.
pub open spec fn one_operation(
    before: crate::keyring::Secrets,
    service: Seq<char>,
    after: crate::keyring::Secrets,
) -> bool {
    ||| after == before
    ||| exists|
        account: Seq<char>,
        secret: Seq<char>,
        open: Result<(), keyring_core::Error>,
        reply: Result<(), keyring_core::Error>,
    | #[trigger]
        set_conduct(before, service, account, secret, open, reply, after)
    ||| exists|account: Seq<char>, open: Result<(), keyring_core::Error>, reply: Result<(), keyring_core::Error>|
        #[trigger] delete_conduct(before, service, account, open, reply, after)
}

/// Different kinds of build never share a service name.
pub proof fn law_kinds_have_their_own_names(service: Seq<char>, one: BuildKind, other: BuildKind)
    requires
        one != other,
    ensures
        service_name(service, one) != service_name(service, other),
{
    reveal_strlit(".");
    reveal_strlit("test");
    reveal_strlit("dev");
    assert(service_name(service, BuildKind::Test).len() == service.len() + 5);
    assert(service_name(service, BuildKind::Dev).len() == service.len() + 4);
    assert(service_name(service, BuildKind::Release).len() == service.len());
}

/// After a failed setup every operation ends in `NoDefaultStore`, whatever a store would answer.
pub proof fn law_failed_setup_is_refused(
    service: Seq<char>,
    account: Seq<char>,
    secret: Seq<char>,
    open: Result<(), keyring_core::Error>,
    reply: Result<(), keyring_core::Error>,
    read: Result<Seq<char>, keyring_core::Error>,
)
    ensures
        set_asked(StoreSetup::Failed, service, account, secret, open, reply) ==> no_store(
            set_end(open, reply),
        ),
        get_asked(StoreSetup::Failed, service, account, open, read) ==> no_store(
            get_end(open, read),
        ) && no_store(contains_end(open, read)),
        delete_asked(StoreSetup::Failed, service, account, open, reply) ==> no_store(
            delete_end(open, reply),
        ),
{
}

/// A secret that was set is what a `get` then finds, whatever the entry held before, and whatever
/// has become of other entries since.
pub proof fn law_get_finds_what_was_set(
    before: crate::keyring::Secrets,
    service: Seq<char>,
    account: Seq<char>,
    secret: Seq<char>,
    set_open: Result<(), keyring_core::Error>,
    set_reply: Result<(), keyring_core::Error>,
    after: crate::keyring::Secrets,
    later: crate::keyring::Secrets,
    get_open: Result<(), keyring_core::Error>,
    get_reply: Result<Seq<char>, keyring_core::Error>,
)
    requires
        set_conduct(before, service, account, secret, set_open, set_reply, after),
        set_end(set_open, set_reply) is Ok,
        same_entry(after, (service, account), later),
        get_conduct(later, service, account, get_open, get_reply),
        get_end(get_open, get_reply) is Ok,
    ensures
        get_end(get_open, get_reply) == Ok::<Option<Seq<char>>, CredentialError>(Some(secret)),
        contains_end(get_open, get_reply) == Ok::<bool, CredentialError>(true),
{
}

/// After a successful `delete` a `get` finds nothing, whatever has become of other entries since.
pub proof fn law_get_finds_nothing_after_delete(
    before: crate::keyring::Secrets,
    service: Seq<char>,
    account: Seq<char>,
    delete_open: Result<(), keyring_core::Error>,
    delete_reply: Result<(), keyring_core::Error>,
    after: crate::keyring::Secrets,
    later: crate::keyring::Secrets,
    get_open: Result<(), keyring_core::Error>,
    get_reply: Result<Seq<char>, keyring_core::Error>,
)
    requires
        delete_conduct(before, service, account, delete_open, delete_reply, after),
        delete_end(delete_open, delete_reply) is Ok,
        same_entry(after, (service, account), later),
        get_conduct(later, service, account, get_open, get_reply),
        get_end(get_open, get_reply) is Ok,
    ensures
        get_end(get_open, get_reply) == Ok::<Option<Seq<char>>, CredentialError>(None),
        contains_end(get_open, get_reply) == Ok::<bool, CredentialError>(false),
{
}

/// A `get` that succeeds finds exactly what the entry holds, so a secret is found only where there
/// is one, and `contains` agrees with it.
pub proof fn law_get_is_truthful(
    held: crate::keyring::Secrets,
    service: Seq<char>,
    account: Seq<char>,
    open: Result<(), keyring_core::Error>,
    reply: Result<Seq<char>, keyring_core::Error>,
    seen: Option<Seq<char>>,
)
    requires
        get_conduct(held, service, account, open, reply),
        get_end(open, reply) == Ok::<Option<Seq<char>>, CredentialError>(seen),
    ensures
        seen is Some <==> held.contains_key((service, account)),
        seen matches Some(secret) ==> held[(service, account)] == secret,
        contains_end(open, reply) == Ok::<bool, CredentialError>(held.contains_key((service, account))),
{
}

/// Removing what is not there succeeds and changes nothing, however often it is done: it ends in an
/// error only if opening the entry does, or if the store fails at the removal for another reason
/// than that there is no entry.
pub proof fn law_delete_of_nothing_succeeds(
    before: crate::keyring::Secrets,
    service: Seq<char>,
    account: Seq<char>,
    reply: Result<(), keyring_core::Error>,
    after: crate::keyring::Secrets,
)
    requires
        !before.contains_key((service, account)),
        delete_conduct(before, service, account, Ok(()), reply, after),
        reply matches Err(error) ==> crate::keyring::error_kind(error) == ErrorKind::NoEntry,
    ensures
        delete_end(Ok(()), reply) is Ok,
        after == before,
{
}

/// An operation for one account leaves every entry of other accounts, and of other services, as it
/// was, even when it fails.
pub proof fn law_other_entries_are_left_alone(
    before: crate::keyring::Secrets,
    service: Seq<char>,
    account: Seq<char>,
    secret: Seq<char>,
    open: Result<(), keyring_core::Error>,
    reply: Result<(), keyring_core::Error>,
    after: crate::keyring::Secrets,
    other: (Seq<char>, Seq<char>),
)
    requires
        set_conduct(before, service, account, secret, open, reply, after) || delete_conduct(
            before,
            service,
            account,
            open,
            reply,
            after,
        ),
        other != (service, account),
    ensures
        same_entry(before, other, after),
{
    let key = (service, account);
    assert(before.remove(key).contains_key(other) <==> before.contains_key(other));
    assert(after.remove(key).contains_key(other) <==> after.contains_key(other));
    if before.remove(key) == after.remove(key) && before.contains_key(other) {
        assert(before.remove(key)[other] == before[other]);
        assert(after.remove(key)[other] == after[other]);
    }
}

/// However many operations one kind of build carries out, and however they end, the entries of
/// every other kind of build of the same app stay as they were: a test run never overwrites or
/// clears the secrets of the installed app.
pub proof fn law_builds_are_isolated(
    states: Seq<crate::keyring::Secrets>,
    service: Seq<char>,
    kind: BuildKind,
    other: BuildKind,
    account: Seq<char>,
)
    requires
        states.len() > 0,
        forall|i: int|
            #![trigger states[i]]
            0 <= i < states.len() - 1 ==> one_operation(
                states[i],
                service_name(service, kind),
                states[i + 1],
            ),
        kind != other,
    ensures
        same_entry(states[0], (service_name(service, other), account), states.last()),
    decreases states.len(),
{
    if states.len() > 1 {
        let earlier = states.drop_last();
        assert forall|i: int|
            #![trigger earlier[i]]
            0 <= i < earlier.len() - 1 implies one_operation(
            earlier[i],
            service_name(service, kind),
            earlier[i + 1],
        ) by {
            assert(earlier[i] == states[i] && earlier[i + 1] == states[i + 1]);
        }
        law_builds_are_isolated(earlier, service, kind, other, account);
        law_kinds_have_their_own_names(service, kind, other);
        let before = states[states.len() - 2];
        let after = states[states.len() - 1];
        assert(one_operation(before, service_name(service, kind), after));
        let name = service_name(service, kind);
        let key = (service_name(service, other), account);
        if after != before {
            if exists|
                a: Seq<char>,
                s: Seq<char>,
                open: Result<(), keyring_core::Error>,
                reply: Result<(), keyring_core::Error>,
            | #[trigger]
                set_conduct(before, name, a, s, open, reply, after) {
                let (a, s, open, reply) = choose|
                    a: Seq<char>,
                    s: Seq<char>,
                    open: Result<(), keyring_core::Error>,
                    reply: Result<(), keyring_core::Error>,
                | #[trigger]
                    set_conduct(before, name, a, s, open, reply, after);
                law_other_entries_are_left_alone(before, name, a, s, open, reply, after, key);
            } else {
                let (a, open, reply) = choose|
                    a: Seq<char>,
                    open: Result<(), keyring_core::Error>,
                    reply: Result<(), keyring_core::Error>,
                | #[trigger]
                    delete_conduct(before, name, a, open, reply, after);
                law_other_entries_are_left_alone(
                    before,
                    name,
                    a,
                    Seq::empty(),
                    open,
                    reply,
                    after,
                    key,
                );
            }
        }
    }
}

/// The name of a service says which app and which kind of build it is for: the app's own name, and
/// for a test run or a debug build a dot and the word for it. Different apps never share a name
/// within one kind of build.
pub proof fn law_service_names_in_full(service: Seq<char>, other: Seq<char>, kind: BuildKind)
    ensures
        service_name(service, BuildKind::Release) == service,
        service_name(service, BuildKind::Dev) == service + ".dev"@,
        service_name(service, BuildKind::Test) == service + ".test"@,
        service_name(service, kind) == service_name(other, kind) ==> service == other,
{
    reveal_strlit(".");
    reveal_strlit("test");
    reveal_strlit("dev");
    reveal_strlit(".test");
    reveal_strlit(".dev");
    assert("."@ + "dev"@ =~= ".dev"@);
    assert("."@ + "test"@ =~= ".test"@);
    assert(service + "."@ + "dev"@ =~= service + ".dev"@);
    assert(service + "."@ + "test"@ =~= service + ".test"@);
    if service_name(service, kind) == service_name(other, kind) {
        let n = service.len() as int;
        assert(service_name(service, kind).len() == service_name(other, kind).len());
        assert(service =~= service_name(service, kind).take(n));
        assert(other =~= service_name(other, kind).take(n));
    }
}

/// A test run is one whatever else the build is; a debug build is one only outside a test run; and
/// nothing else keeps a build from using the installed app's entries.
pub proof fn law_kinds_of_build(test: bool, debug_assertions: bool)
    ensures
        kind_of_build(test, debug_assertions) == BuildKind::Test <==> test,
        kind_of_build(test, debug_assertions) == BuildKind::Dev <==> !test && debug_assertions,
        kind_of_build(test, debug_assertions) == BuildKind::Release <==> !test && !debug_assertions,
{
}

/// What each operation asks a store that is ready: it opens the entry of its own service and
/// account, and once that is open, `set` writes the very secret it was given to it, `get` and
/// `contains` read it, and `delete` removes it.
pub proof fn law_the_entry_itself_is_asked_for(
    service: Seq<char>,
    account: Seq<char>,
    secret: Seq<char>,
    open: Result<(), keyring_core::Error>,
    reply: Result<(), keyring_core::Error>,
    read: Result<Seq<char>, keyring_core::Error>,
)
    ensures
        set_asked(StoreSetup::Ready, service, account, secret, open, reply)
            ==> crate::keyring::opened(service, account, open) && (open is Ok
            ==> crate::keyring::wrote(service, account, secret, reply)),
        get_asked(StoreSetup::Ready, service, account, open, read) ==> crate::keyring::opened(
            service,
            account,
            open,
        ) && (open is Ok ==> crate::keyring::read(service, account, read)),
        delete_asked(StoreSetup::Ready, service, account, open, reply) ==> crate::keyring::opened(
            service,
            account,
            open,
        ) && (open is Ok ==> crate::keyring::removed(service, account, reply)),
{
}

/// An operation succeeds exactly when the store does, where no entry counts as no secret and as
/// one removed; a secret is handed out as the store gave it; and an error is the store's own, with
/// the kind that it has.
pub proof fn law_operations_end_as_the_store_answers(
    secret: Seq<char>,
    open: Result<(), keyring_core::Error>,
    reply: Result<(), keyring_core::Error>,
    read: Result<Seq<char>, keyring_core::Error>,
)
    ensures
        set_end(open, reply) is Ok <==> open is Ok && reply is Ok,
        get_end(open, read) is Ok <==> open is Ok && (read matches Err(e)
            ==> crate::keyring::error_kind(e) == ErrorKind::NoEntry),
        delete_end(open, reply) is Ok <==> open is Ok && (reply matches Err(e)
            ==> crate::keyring::error_kind(e) == ErrorKind::NoEntry),
        get_end(open, read) == Ok::<Option<Seq<char>>, CredentialError>(Some(secret)) <==> open is Ok
            && read == Ok::<Seq<char>, keyring_core::Error>(secret),
        contains_end(open, read) == Ok::<bool, CredentialError>(true) <==> open is Ok && read is Ok,
        contains_end(open, read) == Ok::<bool, CredentialError>(false) <==> open is Ok && (
        read matches Err(e) && crate::keyring::error_kind(e) == ErrorKind::NoEntry),
        set_end(open, reply) matches Err(e) ==> e.kind == crate::keyring::error_kind(e.source) && (
        open == Err::<(), keyring_core::Error>(e.source) || (open is Ok && reply == Err::<
            (),
            keyring_core::Error,
        >(e.source))),
        get_end(open, read) matches Err(e) ==> e.kind == crate::keyring::error_kind(e.source) && (
        open == Err::<(), keyring_core::Error>(e.source) || (open is Ok && read == Err::<
            Seq<char>,
            keyring_core::Error,
        >(e.source))),
        contains_end(open, read) matches Err(e) ==> e.kind == crate::keyring::error_kind(e.source)
            && (open == Err::<(), keyring_core::Error>(e.source) || (open is Ok && read == Err::<
            Seq<char>,
            keyring_core::Error,
        >(e.source))),
        delete_end(open, reply) matches Err(e) ==> e.kind == crate::keyring::error_kind(e.source) && (
        open == Err::<(), keyring_core::Error>(e.source) || (open is Ok && reply == Err::<
            (),
            keyring_core::Error,
        >(e.source))),
{
}

/// The secret that a `get` hands out is told by its text, and its error by the whole of it.
pub proof fn law_secrets_are_told_by_their_text(
    res: Result<Option<String>, CredentialError>,
    secret: Seq<char>,
    error: CredentialError,
)
    ensures
        secret_outcome(res) == Ok::<Option<Seq<char>>, CredentialError>(Some(secret)) <==> (
        res matches Ok(Some(text)) && text@ == secret),
        secret_outcome(res) == Ok::<Option<Seq<char>>, CredentialError>(None) <==> res == Ok::<
            Option<String>,
            CredentialError,
        >(None),
        secret_outcome(res) == Err::<Option<Seq<char>>, CredentialError>(error) <==> res == Err::<
            Option<String>,
            CredentialError,
        >(error),
        no_store(res) <==> (res matches Err(e) && e.kind == ErrorKind::NoDefaultStore
            && crate::keyring::error_kind(e.source) == ErrorKind::NoDefaultStore),
{
}

/// How one call with this reply changes what a store holds.
pub open spec fn call_conduct(
    before: crate::keyring::Secrets,
    call: crate::keyring::StoreCall,
    reply: Result<(), keyring_core::Error>,
    after: crate::keyring::Secrets,
) -> bool {
    match call {
        crate::keyring::StoreCall::Open(_, _) | crate::keyring::StoreCall::Read(_, _) => after
            == before,
        crate::keyring::StoreCall::Write(service, account, secret) => crate::keyring::write_conduct(
            before,
            (service, account),
            secret,
            reply,
            after,
        ),
        crate::keyring::StoreCall::Remove(service, account) => crate::keyring::remove_conduct(
            before,
            (service, account),
            reply,
            after,
        ),
    }
}

/// That a store goes through these states as it answers these calls, first to last.
pub open spec fn calls_conduct(
    states: Seq<crate::keyring::Secrets>,
    calls: Seq<crate::keyring::StoreCall>,
    replies: Seq<Result<(), keyring_core::Error>>,
) -> bool {
    &&& states.len() == calls.len() + 1
    &&& replies.len() == calls.len()
    &&& forall|i: int|
        #![trigger calls[i]]
        0 <= i < calls.len() ==> call_conduct(states[i], calls[i], replies[i], states[i + 1])
}

/// The calls that the header of [`Credentials::set`] lists, in whatever number and order they are
/// made, leave exactly the given secret in the entry of a store that works, once the last of its
/// writes succeeded, and leave every other entry alone.
pub proof fn law_set_leaves_exactly_its_secret(
    states: Seq<crate::keyring::Secrets>,
    calls: Seq<crate::keyring::StoreCall>,
    replies: Seq<Result<(), keyring_core::Error>>,
    service: Seq<char>,
    account: Seq<char>,
    secret: Seq<char>,
    last: int,
)
    requires
        calls_conduct(states, calls, replies),
        forall|i: int|
            0 <= i < calls.len() ==> crate::keyring::call_name(#[trigger] calls[i])
                == crate::keyring::call_name(crate::keyring::StoreCall::Open(service, account))
                || crate::keyring::call_name(calls[i]) == crate::keyring::call_name(
                crate::keyring::StoreCall::Write(service, account, secret),
            ),
        0 <= last < calls.len(),
        calls[last] is Write,
        replies[last] is Ok,
        forall|i: int| last < i < calls.len() ==> !(#[trigger] calls[i] is Write),
    ensures
        states.last().contains_key((service, account)),
        states.last()[(service, account)] == secret,
        states.last().remove((service, account)) == states[0].remove((service, account)),
    decreases calls.len(),
{
    let key = (service, account);
    let n = calls.len() as int;
    let call = calls[n - 1];
    crate::keyring::law_call_names_tell_calls_apart(
        call,
        crate::keyring::StoreCall::Open(service, account),
    );
    crate::keyring::law_call_names_tell_calls_apart(
        call,
        crate::keyring::StoreCall::Write(service, account, secret),
    );
    assert(call_conduct(states[n - 1], call, replies[n - 1], states[n]));
    lemma_calls_cut(states, calls, replies);
    if last == n - 1 {
        lemma_calls_keep_the_rest(
            states.drop_last(),
            calls.drop_last(),
            replies.drop_last(),
            service,
            account,
            secret,
        );
        assert(states[n - 1].insert(key, secret).remove(key) =~= states[n - 1].remove(key));
    } else {
        law_set_leaves_exactly_its_secret(
            states.drop_last(),
            calls.drop_last(),
            replies.drop_last(),
            service,
            account,
            secret,
            last,
        );
    }
}

/// The calls that the headers of [`Credentials::get`] and [`Credentials::contains`] list change
/// nothing in a store that works, however often they are made.
pub proof fn law_get_changes_nothing(
    states: Seq<crate::keyring::Secrets>,
    calls: Seq<crate::keyring::StoreCall>,
    replies: Seq<Result<(), keyring_core::Error>>,
    service: Seq<char>,
    account: Seq<char>,
)
    requires
        calls_conduct(states, calls, replies),
        forall|i: int|
            0 <= i < calls.len() ==> crate::keyring::call_name(#[trigger] calls[i])
                == crate::keyring::call_name(crate::keyring::StoreCall::Open(service, account))
                || crate::keyring::call_name(calls[i]) == crate::keyring::call_name(
                crate::keyring::StoreCall::Read(service, account),
            ),
    ensures
        states.last() == states[0],
    decreases calls.len(),
{
    if calls.len() > 0 {
        let n = calls.len() as int;
        let call = calls[n - 1];
        crate::keyring::law_call_names_tell_calls_apart(
            call,
            crate::keyring::StoreCall::Open(service, account),
        );
        crate::keyring::law_call_names_tell_calls_apart(
            call,
            crate::keyring::StoreCall::Read(service, account),
        );
        lemma_calls_cut(states, calls, replies);
        law_get_changes_nothing(
            states.drop_last(),
            calls.drop_last(),
            replies.drop_last(),
            service,
            account,
        );
    }
}

/// The calls that the header of [`Credentials::delete`] lists leave no secret in the entry of a
/// store that works, once the last of its removals succeeded or found no entry, and leave every
/// other entry alone.
pub proof fn law_delete_leaves_no_secret(
    states: Seq<crate::keyring::Secrets>,
    calls: Seq<crate::keyring::StoreCall>,
    replies: Seq<Result<(), keyring_core::Error>>,
    service: Seq<char>,
    account: Seq<char>,
    last: int,
)
    requires
        calls_conduct(states, calls, replies),
        forall|i: int|
            0 <= i < calls.len() ==> crate::keyring::call_name(#[trigger] calls[i])
                == crate::keyring::call_name(crate::keyring::StoreCall::Open(service, account))
                || crate::keyring::call_name(calls[i]) == crate::keyring::call_name(
                crate::keyring::StoreCall::Remove(service, account),
            ),
        0 <= last < calls.len(),
        calls[last] is Remove,
        replies[last] matches Err(e) ==> crate::keyring::error_kind(e) == ErrorKind::NoEntry,
        forall|i: int| last < i < calls.len() ==> !(#[trigger] calls[i] is Remove),
    ensures
        !states.last().contains_key((service, account)),
        states.last().remove((service, account)) == states[0].remove((service, account)),
    decreases calls.len(),
{
    let key = (service, account);
    let n = calls.len() as int;
    let call = calls[n - 1];
    crate::keyring::law_call_names_tell_calls_apart(
        call,
        crate::keyring::StoreCall::Open(service, account),
    );
    crate::keyring::law_call_names_tell_calls_apart(
        call,
        crate::keyring::StoreCall::Remove(service, account),
    );
    assert(call_conduct(states[n - 1], call, replies[n - 1], states[n]));
    lemma_calls_cut(states, calls, replies);
    if last == n - 1 {
        lemma_calls_keep_the_rest(
            states.drop_last(),
            calls.drop_last(),
            replies.drop_last(),
            service,
            account,
            Seq::empty(),
        );
        assert(states[n - 1].remove(key).remove(key) =~= states[n - 1].remove(key));
    } else {
        law_delete_leaves_no_secret(
            states.drop_last(),
            calls.drop_last(),
            replies.drop_last(),
            service,
            account,
            last,
        );
    }
}

/// All calls but the last.
proof fn lemma_calls_cut(
    states: Seq<crate::keyring::Secrets>,
    calls: Seq<crate::keyring::StoreCall>,
    replies: Seq<Result<(), keyring_core::Error>>,
)
    requires
        calls_conduct(states, calls, replies),
        calls.len() > 0,
    ensures
        calls_conduct(states.drop_last(), calls.drop_last(), replies.drop_last()),
        call_conduct(
            states.drop_last().last(),
            calls.last(),
            replies.last(),
            states.last(),
        ),
        states.drop_last()[0] == states[0],
{
    let n = calls.len() as int;
    assert forall|i: int|
        #![trigger calls.drop_last()[i]]
        0 <= i < calls.drop_last().len() implies call_conduct(
        states.drop_last()[i],
        calls.drop_last()[i],
        replies.drop_last()[i],
        states.drop_last()[i + 1],
    ) by {
        assert(calls.drop_last()[i] == calls[i]);
    }
    assert(calls[n - 1] == calls.last());
}

/// Calls that concern one entry keep all others.
proof fn lemma_calls_keep_the_rest(
    states: Seq<crate::keyring::Secrets>,
    calls: Seq<crate::keyring::StoreCall>,
    replies: Seq<Result<(), keyring_core::Error>>,
    service: Seq<char>,
    account: Seq<char>,
    secret: Seq<char>,
)
    requires
        calls_conduct(states, calls, replies),
        forall|i: int|
            0 <= i < calls.len() ==> crate::keyring::call_name(#[trigger] calls[i])
                == crate::keyring::call_name(crate::keyring::StoreCall::Open(service, account))
                || crate::keyring::call_name(calls[i]) == crate::keyring::call_name(
                crate::keyring::StoreCall::Write(service, account, secret),
            ) || crate::keyring::call_name(calls[i]) == crate::keyring::call_name(
                crate::keyring::StoreCall::Remove(service, account),
            ),
    ensures
        states.last().remove((service, account)) == states[0].remove((service, account)),
    decreases calls.len(),
{
    if calls.len() > 0 {
        let key = (service, account);
        let n = calls.len() as int;
        let call = calls[n - 1];
        crate::keyring::law_call_names_tell_calls_apart(
            call,
            crate::keyring::StoreCall::Open(service, account),
        );
        crate::keyring::law_call_names_tell_calls_apart(
            call,
            crate::keyring::StoreCall::Write(service, account, secret),
        );
        crate::keyring::law_call_names_tell_calls_apart(
            call,
            crate::keyring::StoreCall::Remove(service, account),
        );
        lemma_calls_cut(states, calls, replies);
        lemma_calls_keep_the_rest(
            states.drop_last(),
            calls.drop_last(),
            replies.drop_last(),
            service,
            account,
            secret,
        );
        let before = states[n - 1];
        assert(before.insert(key, secret).remove(key) =~= before.remove(key));
        assert(before.remove(key).remove(key) =~= before.remove(key));
    }
}

} // verus!
