//! The credential store, reached through `keyring_core`.
//!
//! What a store answers depends on the store and on the moment, so nothing here says which answer
//! comes. [`opened`], [`wrote`], [`read`] and [`removed`] relate questions to the answers that came:
//! the same question may get different answers, and each of them is related to it. They tie what
//! the library returns to what it asked and was told. [`Secrets`] and the conducts over it say how
//! the answers of a store that works hang together; they are claimed of no store.
//!
//! Which calls of a store a function may make at all stands in its header: the calls are numbered by
//! [`call_name`], no two alike, and a function that lists numbers after `opens_invariants` can make
//! the listed calls only, as Verus follows such lists through every call. The functions that list
//! nothing but `none` make no call of a store.

use vstd::prelude::*;

verus! {

/// `keyring_core::Entry`: an entry of a credential store. Nothing is claimed of what is inside.
#[verifier::external_type_specification]
#[verifier::external_body]
pub struct ExEntry(keyring_core::Entry);

/// `keyring_core::Error`: a store's report of a failure. Nothing is claimed of what is inside.
#[verifier::external_type_specification]
#[verifier::external_body]
pub struct ExStoreError(keyring_core::Error);

/// The kinds of error a store reports, without their details.
#[derive(Debug, Clone, Copy, PartialEq, Eq, Structural)]
pub enum ErrorKind {
    /// The platform's storage system failed.
    PlatformFailure,
    /// The storage could not be accessed, for example because it is locked.
    NoStorageAccess,
    /// There is no credential for the entry.
    NoEntry,
    /// The stored secret is not UTF-8.
    BadEncoding,
    /// The stored secret is not in the store's format.
    BadDataFormat,
    /// The store itself is not in the expected format.
    BadStoreFormat,
    /// A part of the entry is longer than the platform allows.
    TooLong,
    /// A parameter is not acceptable to the store.
    Invalid,
    /// More than one credential matches the entry.
    Ambiguous,
    /// No default store is installed.
    NoDefaultStore,
    /// The store does not offer the operation.
    NotSupportedByStore,
    /// A kind that this library does not know.
    Unknown,
}

/// A failed credential operation: its kind, and the store's own report of it.
#[derive(Debug)]
pub struct CredentialError {
    pub kind: ErrorKind,
    pub source: keyring_core::Error,
}

/// The variant of a store's error.
pub uninterp spec fn error_kind(error: keyring_core::Error) -> ErrorKind;

/// The service and the account that an entry was opened for.
pub uninterp spec fn entry_key(entry: keyring_core::Entry) -> (Seq<char>, Seq<char>);

/// That opening an entry for `service` and `account` ended in `reply`, at some moment.
pub uninterp spec fn opened(
    service: Seq<char>,
    account: Seq<char>,
    reply: Result<(), keyring_core::Error>,
) -> bool;

/// That writing `secret` to the entry for `service` and `account` ended in `reply`, at some moment.
pub uninterp spec fn wrote(
    service: Seq<char>,
    account: Seq<char>,
    secret: Seq<char>,
    reply: Result<(), keyring_core::Error>,
) -> bool;

/// That reading the entry for `service` and `account` ended in `reply`, at some moment.
pub uninterp spec fn read(
    service: Seq<char>,
    account: Seq<char>,
    reply: Result<Seq<char>, keyring_core::Error>,
) -> bool;

/// That removing the entry for `service` and `account` ended in `reply`, at some moment.
pub uninterp spec fn removed(
    service: Seq<char>,
    account: Seq<char>,
    reply: Result<(), keyring_core::Error>,
) -> bool;

/// That looking for a default store found one, or did not, at some moment.
pub uninterp spec fn default_store_seen(present: bool) -> bool;

/// A call of a store: opening the entry for a service and an account, writing a secret to it, reading
/// it, or removing it.
pub enum StoreCall {
    Open(Seq<char>, Seq<char>),
    Write(Seq<char>, Seq<char>, Seq<char>),
    Read(Seq<char>, Seq<char>),
    Remove(Seq<char>, Seq<char>),
}

/// A text as numbers, none of which is less than two.
pub open spec fn spelled(text: Seq<char>) -> Seq<int> {
    text.map_values(|c: char| c as int + 2)
}

/// A call as numbers: which call it is, then its texts, each but the last followed by a one.
pub open spec fn spelled_call(call: StoreCall) -> Seq<int> {
    match call {
        StoreCall::Open(service, account) => seq![2int] + (spelled(service) + seq![1int] + spelled(
            account,
        )),
        StoreCall::Write(service, account, secret) => seq![3int] + (spelled(service) + seq![1int] + (
        spelled(account) + seq![1int] + spelled(secret))),
        StoreCall::Read(service, account) => seq![4int] + (spelled(service) + seq![1int] + spelled(
            account,
        )),
        StoreCall::Remove(service, account) => seq![5int] + (spelled(service) + seq![1int] + spelled(
            account,
        )),
    }
}

/// Numbers as the digits of one, to a base that is greater than any of them.
pub open spec fn digits_number(digits: Seq<int>) -> int
    decreases digits.len(),
{
    if digits.len() == 0 {
        0
    } else {
        digits_number(digits.drop_last()) * 0x110002 + digits.last()
    }
}

/// The number of a call.
pub open spec fn call_name(call: StoreCall) -> int {
    digits_number(spelled_call(call))
}

/// That these can be the digits of a number: none is zero.
spec fn are_digits(digits: Seq<int>) -> bool {
    forall|i: int| 0 <= i < digits.len() ==> 0 < #[trigger] digits[i] < 0x110002
}

/// Different digits make different numbers.
proof fn lemma_digits_number(a: Seq<int>, b: Seq<int>)
    requires
        are_digits(a),
        are_digits(b),
        digits_number(a) == digits_number(b),
    ensures
        a == b,
    decreases a.len(),
{
    lemma_number_is_natural(a);
    lemma_number_is_natural(b);
    if a.len() == 0 {
        if b.len() > 0 {
            lemma_number_is_natural(b.drop_last());
        }
    } else if b.len() == 0 {
        lemma_number_is_natural(a.drop_last());
    } else {
        let x = digits_number(a.drop_last());
        let y = digits_number(b.drop_last());
        assert(0 < a[a.len() - 1] < 0x110002);
        assert(0 < b[b.len() - 1] < 0x110002);
        assert(x == y && a.last() == b.last());
        assert(are_digits(a.drop_last())) by {
            assert forall|i: int| 0 <= i < a.drop_last().len() implies 0
                < #[trigger] a.drop_last()[i] < 0x110002 by {
                assert(a.drop_last()[i] == a[i]);
            }
        }
        assert(are_digits(b.drop_last())) by {
            assert forall|i: int| 0 <= i < b.drop_last().len() implies 0
                < #[trigger] b.drop_last()[i] < 0x110002 by {
                assert(b.drop_last()[i] == b[i]);
            }
        }
        lemma_digits_number(a.drop_last(), b.drop_last());
        assert(a =~= a.drop_last().push(a.last()));
        assert(b =~= b.drop_last().push(b.last()));
    }
}

/// Digits make a natural number, zero only if there are none.
proof fn lemma_number_is_natural(digits: Seq<int>)
    requires
        are_digits(digits),
    ensures
        digits_number(digits) >= 0,
        digits.len() > 0 ==> digits_number(digits) > 0,
    decreases digits.len(),
{
    if digits.len() > 0 {
        assert forall|i: int| 0 <= i < digits.drop_last().len() implies 0
            < #[trigger] digits.drop_last()[i] < 0x110002 by {
            assert(digits.drop_last()[i] == digits[i]);
        }
        lemma_number_is_natural(digits.drop_last());
        assert(digits[digits.len() - 1] > 0);
    }
}

/// The numbers of the characters.
proof fn lemma_char(c: char)
    ensures
        0 <= c as int <= 0x10ffff,
{
}

/// The numbers of a text, one by one.
proof fn lemma_spelled_digits(text: Seq<char>)
    ensures
        spelled(text).len() == text.len(),
        forall|i: int|
            0 <= i < text.len() ==> #[trigger] spelled(text)[i] == text[i] as int + 2 && 2
                <= spelled(text)[i] < 0x110002,
{
    assert forall|i: int| 0 <= i < text.len() implies #[trigger] spelled(text)[i] == text[i] as int
        + 2 && 2 <= spelled(text)[i] < 0x110002 by {
        lemma_char(text[i]);
    }
}

/// A text is told by its numbers, and where it ends by the one behind it.
proof fn lemma_spelled(a: Seq<char>, after_a: Seq<int>, b: Seq<char>, after_b: Seq<int>)
    ensures
        spelled(a) + seq![1int] + after_a == spelled(b) + seq![1int] + after_b ==> a == b && after_a
            == after_b,
        spelled(a) == spelled(b) ==> a == b,
{
    lemma_spelled_digits(a);
    lemma_spelled_digits(b);
    let left = spelled(a) + seq![1int] + after_a;
    let right = spelled(b) + seq![1int] + after_b;
    if left == right {
        assert(left[a.len() as int] == 1);
        assert(right[b.len() as int] == 1);
        if a.len() < b.len() {
            assert(right[a.len() as int] == spelled(b)[a.len() as int]);
        }
        if b.len() < a.len() {
            assert(left[b.len() as int] == spelled(a)[b.len() as int]);
        }
        assert forall|i: int| 0 <= i < a.len() implies a[i] == b[i] by {
            assert(left[i] == spelled(a)[i]);
            assert(right[i] == spelled(b)[i]);
        }
        assert(a =~= b);
        assert(after_a =~= left.skip(a.len() as int + 1));
        assert(after_b =~= right.skip(b.len() as int + 1));
    }
    if spelled(a) == spelled(b) {
        assert(spelled(a).len() == a.len());
        assert(spelled(b).len() == b.len());
        assert forall|i: int| 0 <= i < a.len() implies a[i] == b[i] by {
            assert(spelled(a)[i] == a[i] as int + 2);
            assert(spelled(b)[i] == b[i] as int + 2);
        }
        assert(a =~= b);
    }
}

/// The texts of a call behind the number that says which call it is.
spec fn texts(call: StoreCall) -> Seq<int> {
    spelled_call(call).skip(1)
}

/// The numbers of a call can be digits.
proof fn lemma_spelled_call(call: StoreCall)
    ensures
        are_digits(spelled_call(call)),
{
    match call {
        StoreCall::Open(service, account)
        | StoreCall::Read(service, account)
        | StoreCall::Remove(service, account) => {
            lemma_spelled_digits(service);
            lemma_spelled_digits(account);
        },
        StoreCall::Write(service, account, secret) => {
            lemma_spelled_digits(service);
            lemma_spelled_digits(account);
            lemma_spelled_digits(secret);
        },
    }
}

/// No two calls have the same number, and none has a negative one: a header that lists the numbers
/// of some calls allows these calls and no others, and one that lists only a negative number none.
pub proof fn law_call_names_tell_calls_apart(one: StoreCall, other: StoreCall)
    ensures
        call_name(one) == call_name(other) ==> one == other,
        call_name(one) > 0,
{
    lemma_spelled_call(one);
    lemma_number_is_natural(spelled_call(one));
    if call_name(one) == call_name(other) {
        lemma_spelled_call(other);
        lemma_digits_number(spelled_call(one), spelled_call(other));
        assert(spelled_call(one)[0] == spelled_call(other)[0]);
        assert(texts(one) == texts(other));
        match (one, other) {
            (StoreCall::Open(s, a), StoreCall::Open(t, b)) => {
                assert(texts(one) =~= spelled(s) + seq![1int] + spelled(a));
                assert(texts(other) =~= spelled(t) + seq![1int] + spelled(b));
                lemma_spelled(s, spelled(a), t, spelled(b));
                lemma_spelled(a, Seq::empty(), b, Seq::empty());
            },
            (StoreCall::Read(s, a), StoreCall::Read(t, b)) => {
                assert(texts(one) =~= spelled(s) + seq![1int] + spelled(a));
                assert(texts(other) =~= spelled(t) + seq![1int] + spelled(b));
                lemma_spelled(s, spelled(a), t, spelled(b));
                lemma_spelled(a, Seq::empty(), b, Seq::empty());
            },
            (StoreCall::Remove(s, a), StoreCall::Remove(t, b)) => {
                assert(texts(one) =~= spelled(s) + seq![1int] + spelled(a));
                assert(texts(other) =~= spelled(t) + seq![1int] + spelled(b));
                lemma_spelled(s, spelled(a), t, spelled(b));
                lemma_spelled(a, Seq::empty(), b, Seq::empty());
            },
            (StoreCall::Write(s, a, x), StoreCall::Write(t, b, y)) => {
                let rest = spelled(a) + seq![1int] + spelled(x);
                let others = spelled(b) + seq![1int] + spelled(y);
                assert(texts(one) =~= spelled(s) + seq![1int] + rest);
                assert(texts(other) =~= spelled(t) + seq![1int] + others);
                lemma_spelled(s, rest, t, others);
                lemma_spelled(a, spelled(x), b, spelled(y));
                lemma_spelled(x, Seq::empty(), y, Seq::empty());
            },
            _ => {},
        }
    }
}

/// What a store's answer says, of a call that returns nothing else.
pub open spec fn done_reply<T>(answer: Result<T, keyring_core::Error>) -> Result<
    (),
    keyring_core::Error,
> {
    match answer {
        Ok(_) => Ok(()),
        Err(error) => Err(error),
    }
}

/// What a store's answer says, of a call that returns a secret.
pub open spec fn secret_reply(answer: Result<String, keyring_core::Error>) -> Result<
    Seq<char>,
    keyring_core::Error,
> {
    match answer {
        Ok(secret) => Ok(secret@),
        Err(error) => Err(error),
    }
}

/// A store's report as an error of this library: its kind, and the report itself.
pub open spec fn as_reported(source: keyring_core::Error) -> CredentialError {
    CredentialError { kind: error_kind(source), source }
}

/// Tells the variants of `keyring_core::Error` apart. The contract claims that the answer depends
/// on the error alone.
#[verifier::external_body]
fn kind_of(error: &keyring_core::Error) -> (kind: ErrorKind)
    ensures
        kind == error_kind(*error),
    opens_invariants none
{
    match error {
        keyring_core::Error::PlatformFailure(_) => ErrorKind::PlatformFailure,
        keyring_core::Error::NoStorageAccess(_) => ErrorKind::NoStorageAccess,
        keyring_core::Error::NoEntry => ErrorKind::NoEntry,
        keyring_core::Error::BadEncoding(_) => ErrorKind::BadEncoding,
        keyring_core::Error::BadDataFormat(_, _) => ErrorKind::BadDataFormat,
        keyring_core::Error::BadStoreFormat(_) => ErrorKind::BadStoreFormat,
        keyring_core::Error::TooLong(_, _) => ErrorKind::TooLong,
        keyring_core::Error::Invalid(_, _) => ErrorKind::Invalid,
        keyring_core::Error::Ambiguous(_) => ErrorKind::Ambiguous,
        keyring_core::Error::NoDefaultStore => ErrorKind::NoDefaultStore,
        keyring_core::Error::NotSupportedByStore(_) => ErrorKind::NotSupportedByStore,
        _ => ErrorKind::Unknown,
    }
}

/// `keyring_core::Entry::new`. The contract claims that an entry it returns stands for the given
/// service and account, and records how the call ended. Which way it ends is up to the default
/// store, or to there being none, and is left unsaid. The call panics if a thread panicked while it
/// was installing a default store.
#[verifier::external_body]
pub(crate) fn open_entry(service: &String, account: &str) -> (answer: Result<
    keyring_core::Entry,
    keyring_core::Error,
>)
    ensures
        opened(service@, account@, done_reply(answer)),
        answer matches Ok(entry) ==> entry_key(entry) == (service@, account@),
    opens_invariants [ call_name(StoreCall::Open(service@, account@)) ]
{
    keyring_core::Entry::new(service, account)
}

/// `keyring_core::Entry::set_password`. The contract records how the call ended for this entry and
/// this secret; which way it ends is up to the store and is left unsaid.
#[verifier::external_body]
pub(crate) fn set_password(entry: &keyring_core::Entry, secret: &str) -> (answer: Result<
    (),
    keyring_core::Error,
>)
    ensures
        wrote(entry_key(*entry).0, entry_key(*entry).1, secret@, done_reply(answer)),
    opens_invariants [ call_name(
        StoreCall::Write(entry_key(*entry).0, entry_key(*entry).1, secret@),
    ) ]
{
    entry.set_password(secret)
}

/// `keyring_core::Entry::get_password`. The contract records how the call ended for this entry;
/// which way it ends is up to the store and is left unsaid.
#[verifier::external_body]
pub(crate) fn get_password(entry: &keyring_core::Entry) -> (answer: Result<
    String,
    keyring_core::Error,
>)
    ensures
        read(entry_key(*entry).0, entry_key(*entry).1, secret_reply(answer)),
    opens_invariants [ call_name(StoreCall::Read(entry_key(*entry).0, entry_key(*entry).1)) ]
{
    entry.get_password()
}

/// `keyring_core::Entry::delete_credential`. The contract records how the call ended for this
/// entry; which way it ends is up to the store and is left unsaid.
#[verifier::external_body]
pub(crate) fn delete_credential(entry: &keyring_core::Entry) -> (answer: Result<
    (),
    keyring_core::Error,
>)
    ensures
        removed(entry_key(*entry).0, entry_key(*entry).1, done_reply(answer)),
    opens_invariants [ call_name(StoreCall::Remove(entry_key(*entry).0, entry_key(*entry).1)) ]
{
    entry.delete_credential()
}

/// Whether `keyring_core::get_default_store` has a store to give. The contract records the answer;
/// which it is changes when a store is installed, and is left unsaid. The call panics if a thread
/// panicked while it was installing a default store.
#[verifier::external_body]
pub(crate) fn has_default_store() -> (present: bool)
    ensures
        default_store_seen(present),
{
    keyring_core::get_default_store().is_some()
}

/// The variant `keyring_core::Error::NoDefaultStore`. The contract claims that it is told apart from
/// the others as [`ErrorKind::NoDefaultStore`].
#[verifier::external_body]
pub(crate) fn no_default_store() -> (error: keyring_core::Error)
    ensures
        error_kind(error) == ErrorKind::NoDefaultStore,
    opens_invariants none
{
    keyring_core::Error::NoDefaultStore
}

/// A store's report as an error of this library.
pub fn reported(source: keyring_core::Error) -> (error: CredentialError)
    ensures
        error == as_reported(source),
        error.kind == error_kind(source),
        error.source == source,
    opens_invariants none
{
    let kind = kind_of(&source);
    CredentialError { kind, source }
}

/// A store's answer with its error as an error of this library.
pub fn answered<T>(answer: Result<T, keyring_core::Error>) -> (res: Result<T, CredentialError>)
    ensures
        match answer {
            Ok(value) => res == Ok::<T, CredentialError>(value),
            Err(source) => res == Err::<T, CredentialError>(as_reported(source)) && (
            res matches Err(error) && error.kind == error_kind(source) && error.source == source),
        },
    opens_invariants none
{
    match answer {
        Ok(value) => Ok(value),
        Err(source) => Err(reported(source)),
    }
}

/// What a store holds: a secret for each service and account that has one.
pub type Secrets = Map<(Seq<char>, Seq<char>), Seq<char>>;

/// That two stores hold the same but for the entry `key`.
pub open spec fn same_but_for(before: Secrets, key: (Seq<char>, Seq<char>), after: Secrets) -> bool {
    before.remove(key) =~= after.remove(key)
}

/// How a store answers a write: after a success the entry holds the secret; after a failure
/// nothing is known of that entry. No other entry changes.
pub open spec fn write_conduct(
    before: Secrets,
    key: (Seq<char>, Seq<char>),
    secret: Seq<char>,
    reply: Result<(), keyring_core::Error>,
    after: Secrets,
) -> bool {
    match reply {
        Ok(_) => after == before.insert(key, secret),
        Err(_) => same_but_for(before, key, after),
    }
}

/// How a store answers a read: with the secret that the entry holds, with `NoEntry` if it holds
/// none, or with another error.
pub open spec fn read_conduct(
    held: Secrets,
    key: (Seq<char>, Seq<char>),
    reply: Result<Seq<char>, keyring_core::Error>,
) -> bool {
    match reply {
        Ok(secret) => held.contains_key(key) && held[key] == secret,
        Err(error) => error_kind(error) == ErrorKind::NoEntry ==> !held.contains_key(key),
    }
}

/// How a store answers a removal: after a success the entry, which held a secret, holds none;
/// `NoEntry` means that it held none; after another error nothing is known of that entry. No other
/// entry changes.
pub open spec fn remove_conduct(
    before: Secrets,
    key: (Seq<char>, Seq<char>),
    reply: Result<(), keyring_core::Error>,
    after: Secrets,
) -> bool {
    match reply {
        Ok(_) => before.contains_key(key) && after == before.remove(key),
        Err(error) => if error_kind(error) == ErrorKind::NoEntry {
            !before.contains_key(key) && after == before
        } else {
            same_but_for(before, key, after)
        },
    }
}

/// Nothing of a store's answer is lost: whether it succeeded, the secret it gave, and its error stay,
/// and an error of this library is the store's report with its kind.
pub proof fn law_answers_are_kept(
    done: Result<(), keyring_core::Error>,
    secret: Result<String, keyring_core::Error>,
    error: keyring_core::Error,
    text: Seq<char>,
)
    ensures
        done_reply(done) is Ok <==> done is Ok,
        done_reply(done) == Err::<(), keyring_core::Error>(error) <==> done == Err::<
            (),
            keyring_core::Error,
        >(error),
        secret_reply(secret) == Ok::<Seq<char>, keyring_core::Error>(text) <==> (
        secret matches Ok(given) && given@ == text),
        secret_reply(secret) == Err::<Seq<char>, keyring_core::Error>(error) <==> secret == Err::<
            String,
            keyring_core::Error,
        >(error),
        as_reported(error).source == error,
        as_reported(error).kind == error_kind(error),
{
}

} // verus!
