use vstd::prelude::*;
use vstd::string::*;
use crate::text::{decimal_digits, lemma_decimal_digits, push_decimal_digits};

verus! {

/// Identifies a conversation. Conversations built from protocol events are
/// named `group:<group id>` or `private:<user id>`.
#[derive(Debug, Hash, PartialOrd, Ord)]
pub struct ConversationId(String);

impl View for ConversationId {
    type V = Seq<char>;

    closed spec fn view(&self) -> Seq<char> {
        self.0@
    }
}

impl ConversationId {
    /// Wraps the given text.
    pub fn new(value: String) -> (id: Self)
        ensures
            id@ == value@,
    {
        ConversationId(value)
    }

    /// The identifier's text, taken out of it.
    pub fn into_string(self) -> (s: String)
        ensures
            s@ == self@,
    {
        self.0
    }

    /// The identifier's text.
    pub fn as_str(&self) -> (s: &str)
        ensures
            s@ == self@,
    {
        self.0.as_str()
    }
}

impl Clone for ConversationId {
    fn clone(&self) -> (res: Self)
        ensures
            res == *self,
    {
        ConversationId(self.0.clone())
    }
}

impl PartialEq for ConversationId {
    fn eq(&self, other: &Self) -> (res: bool) {
        self.0 == other.0
    }
}

impl vstd::std_specs::cmp::PartialEqSpecImpl for ConversationId {
    open spec fn obeys_eq_spec() -> bool {
        true
    }

    open spec fn eq_spec(&self, other: &Self) -> bool {
        self@ == other@
    }
}

impl Eq for ConversationId {
}

impl From<String> for ConversationId {
    fn from(value: String) -> (id: Self)
        ensures
            id@ == value@,
    {
        ConversationId(value)
    }
}

impl vstd::std_specs::convert::FromSpecImpl<String> for ConversationId {
    open spec fn obeys_from_spec() -> bool {
        true
    }

    closed spec fn from_spec(value: String) -> Self {
        ConversationId(value)
    }
}

impl<'a> From<&'a str> for ConversationId {
    fn from(value: &'a str) -> (id: Self)
        ensures
            id@ == value@,
    {
        ConversationId(value.to_owned())
    }
}

/// Two ids built from the same text are equal in text only, so no single value is
/// named here; the impl's own `ensures` states the text.
impl<'a> vstd::std_specs::convert::FromSpecImpl<&'a str> for ConversationId {
    open spec fn obeys_from_spec() -> bool {
        false
    }

    closed spec fn from_spec(value: &'a str) -> Self {
        arbitrary()
    }
}

/// Identifies a message inside this client, whether or not the server knows it.
#[derive(Debug, Hash, PartialOrd, Ord)]
pub struct LocalMessageId(String);

impl View for LocalMessageId {
    type V = Seq<char>;

    closed spec fn view(&self) -> Seq<char> {
        self.0@
    }
}

impl LocalMessageId {
    /// Wraps the given text.
    pub fn new(value: String) -> (id: Self)
        ensures
            id@ == value@,
    {
        LocalMessageId(value)
    }

    /// The identifier's text, taken out of it.
    pub fn into_string(self) -> (s: String)
        ensures
            s@ == self@,
    {
        self.0
    }

    /// The identifier's text.
    pub fn as_str(&self) -> (s: &str)
        ensures
            s@ == self@,
    {
        self.0.as_str()
    }
}

impl Clone for LocalMessageId {
    fn clone(&self) -> (res: Self)
        ensures
            res == *self,
    {
        LocalMessageId(self.0.clone())
    }
}

impl PartialEq for LocalMessageId {
    fn eq(&self, other: &Self) -> (res: bool) {
        self.0 == other.0
    }
}

impl vstd::std_specs::cmp::PartialEqSpecImpl for LocalMessageId {
    open spec fn obeys_eq_spec() -> bool {
        true
    }

    open spec fn eq_spec(&self, other: &Self) -> bool {
        self@ == other@
    }
}

impl Eq for LocalMessageId {
}

impl From<String> for LocalMessageId {
    fn from(value: String) -> (id: Self)
        ensures
            id@ == value@,
    {
        LocalMessageId(value)
    }
}

impl vstd::std_specs::convert::FromSpecImpl<String> for LocalMessageId {
    open spec fn obeys_from_spec() -> bool {
        true
    }

    closed spec fn from_spec(value: String) -> Self {
        LocalMessageId(value)
    }
}

impl<'a> From<&'a str> for LocalMessageId {
    fn from(value: &'a str) -> (id: Self)
        ensures
            id@ == value@,
    {
        LocalMessageId(value.to_owned())
    }
}

/// Two ids built from the same text are equal in text only, so no single value is
/// named here; the impl's own `ensures` states the text.
impl<'a> vstd::std_specs::convert::FromSpecImpl<&'a str> for LocalMessageId {
    open spec fn obeys_from_spec() -> bool {
        false
    }

    closed spec fn from_spec(value: &'a str) -> Self {
        arbitrary()
    }
}

/// The identifier that the chat server gave a message.
#[derive(Debug, Hash, PartialOrd, Ord)]
pub struct RemoteMessageId(String);

impl View for RemoteMessageId {
    type V = Seq<char>;

    closed spec fn view(&self) -> Seq<char> {
        self.0@
    }
}

impl RemoteMessageId {
    /// Wraps the given text.
    pub fn new(value: String) -> (id: Self)
        ensures
            id@ == value@,
    {
        RemoteMessageId(value)
    }

    /// The identifier's text, taken out of it.
    pub fn into_string(self) -> (s: String)
        ensures
            s@ == self@,
    {
        self.0
    }

    /// The identifier's text.
    pub fn as_str(&self) -> (s: &str)
        ensures
            s@ == self@,
    {
        self.0.as_str()
    }
}

impl Clone for RemoteMessageId {
    fn clone(&self) -> (res: Self)
        ensures
            res == *self,
    {
        RemoteMessageId(self.0.clone())
    }
}

impl PartialEq for RemoteMessageId {
    fn eq(&self, other: &Self) -> (res: bool) {
        self.0 == other.0
    }
}

impl vstd::std_specs::cmp::PartialEqSpecImpl for RemoteMessageId {
    open spec fn obeys_eq_spec() -> bool {
        true
    }

    open spec fn eq_spec(&self, other: &Self) -> bool {
        self@ == other@
    }
}

impl Eq for RemoteMessageId {
}

impl From<String> for RemoteMessageId {
    fn from(value: String) -> (id: Self)
        ensures
            id@ == value@,
    {
        RemoteMessageId(value)
    }
}

impl vstd::std_specs::convert::FromSpecImpl<String> for RemoteMessageId {
    open spec fn obeys_from_spec() -> bool {
        true
    }

    closed spec fn from_spec(value: String) -> Self {
        RemoteMessageId(value)
    }
}

impl<'a> From<&'a str> for RemoteMessageId {
    fn from(value: &'a str) -> (id: Self)
        ensures
            id@ == value@,
    {
        RemoteMessageId(value.to_owned())
    }
}

/// Two ids built from the same text are equal in text only, so no single value is
/// named here; the impl's own `ensures` states the text.
impl<'a> vstd::std_specs::convert::FromSpecImpl<&'a str> for RemoteMessageId {
    open spec fn obeys_from_spec() -> bool {
        false
    }

    closed spec fn from_spec(value: &'a str) -> Self {
        arbitrary()
    }
}

/// Identifies a user of the chat service.
#[derive(Debug, Hash, PartialOrd, Ord)]
pub struct UserId(String);

impl View for UserId {
    type V = Seq<char>;

    closed spec fn view(&self) -> Seq<char> {
        self.0@
    }
}

impl UserId {
    /// Wraps the given text.
    pub fn new(value: String) -> (id: Self)
        ensures
            id@ == value@,
    {
        UserId(value)
    }

    /// The identifier's text, taken out of it.
    pub fn into_string(self) -> (s: String)
        ensures
            s@ == self@,
    {
        self.0
    }

    /// The identifier's text.
    pub fn as_str(&self) -> (s: &str)
        ensures
            s@ == self@,
    {
        self.0.as_str()
    }
}

impl Clone for UserId {
    fn clone(&self) -> (res: Self)
        ensures
            res == *self,
    {
        UserId(self.0.clone())
    }
}

impl PartialEq for UserId {
    fn eq(&self, other: &Self) -> (res: bool) {
        self.0 == other.0
    }
}

impl vstd::std_specs::cmp::PartialEqSpecImpl for UserId {
    open spec fn obeys_eq_spec() -> bool {
        true
    }

    open spec fn eq_spec(&self, other: &Self) -> bool {
        self@ == other@
    }
}

impl Eq for UserId {
}

impl From<String> for UserId {
    fn from(value: String) -> (id: Self)
        ensures
            id@ == value@,
    {
        UserId(value)
    }
}

impl vstd::std_specs::convert::FromSpecImpl<String> for UserId {
    open spec fn obeys_from_spec() -> bool {
        true
    }

    closed spec fn from_spec(value: String) -> Self {
        UserId(value)
    }
}

impl<'a> From<&'a str> for UserId {
    fn from(value: &'a str) -> (id: Self)
        ensures
            id@ == value@,
    {
        UserId(value.to_owned())
    }
}

/// Two ids built from the same text are equal in text only, so no single value is
/// named here; the impl's own `ensures` states the text.
impl<'a> vstd::std_specs::convert::FromSpecImpl<&'a str> for UserId {
    open spec fn obeys_from_spec() -> bool {
        false
    }

    closed spec fn from_spec(value: &'a str) -> Self {
        arbitrary()
    }
}

/// A lower-case hexadecimal digit.
pub open spec fn is_lower_hex(c: char) -> bool {
    ('0' <= c <= '9') || ('a' <= c <= 'f')
}

/// The hyphenated lower-case text of a version-4 UUID, such as
/// `67e55044-10b1-426f-9247-bb680e5fe0c8`: groups of 8, 4, 4, 4 and 12 hex
/// digits, the version digit `4`, and a variant digit out of `8`, `9`, `a`, `b`.
pub open spec fn is_uuid_v4_text(s: Seq<char>) -> bool {
    &&& s.len() == 36
    &&& forall|i: int|
        0 <= i < 36 ==> if i == 8 || i == 13 || i == 18 || i == 23 {
            s[i] == '-'
        } else {
            is_lower_hex(#[trigger] s[i])
        }
    &&& s[14] == '4'
    &&& (s[19] == '8' || s[19] == '9' || s[19] == 'a' || s[19] == 'b')
}

/// The prefix of every generated local message id.
pub open spec fn local_id_prefix() -> Seq<char> {
    seq!['l', 'o', 'c', 'a', 'l', '-']
}

/// The text of a generated local message id: `local-`, a random UUID, a
/// hyphen, and the decimal digits of the counter value it was generated with.
pub open spec fn is_generated_local_id(s: Seq<char>, counter: u64) -> bool {
    &&& s.len() == 43 + decimal_digits(counter as nat).len()
    &&& s.take(6) == local_id_prefix()
    &&& is_uuid_v4_text(s.subrange(6, 42))
    &&& s[42] == '-'
    &&& s.skip(43) == decimal_digits(counter as nat)
}

/// Law: ids generated with different counter values differ.
pub proof fn lemma_generated_ids_differ(a: Seq<char>, b: Seq<char>, first: u64, second: u64)
    requires
        is_generated_local_id(a, first),
        is_generated_local_id(b, second),
        first != second,
    ensures
        a != b,
{
    lemma_decimal_digits(first as nat);
    lemma_decimal_digits(second as nat);
}

/// Calls `uuid::Uuid::new_v4` and renders the UUID with its `Display` impl, which
/// writes the hyphenated lower-case form with the version and variant bits that
/// `new_v4` sets. The contract states that shape only: which UUID comes out is
/// chance.
#[verifier::external_body]
pub(crate) fn random_uuid_text() -> (text: String)
    ensures
        is_uuid_v4_text(text@),
{
    uuid::Uuid::new_v4().to_string()
}

impl LocalMessageId {
    /// The id made of `local-`, the UUID text, a hyphen and the decimal
    /// digits of `counter`.
    pub fn from_parts(uuid: &str, counter: u64) -> (id: Self)
        ensures
            id@ == local_id_prefix() + uuid@ + seq!['-'] + decimal_digits(counter as nat),
    {
        let mut text = String::new();
        text.push('l');
        text.push('o');
        text.push('c');
        text.push('a');
        text.push('l');
        text.push('-');
        text.append(uuid);
        text.push('-');
        push_decimal_digits(&mut text, counter);
        assert(text@ =~= local_id_prefix() + uuid@ + seq!['-'] + decimal_digits(counter as nat));
        LocalMessageId(text)
    }

    /// A fresh id: `local-`, a random UUID, a hyphen and `counter`. The
    /// caller takes `counter` from a process-wide counter, once per id, so
    /// that no two ids are alike.
    pub fn generated(counter: u64) -> (id: Self)
        ensures
            is_generated_local_id(id@, counter),
    {
        let uuid = random_uuid_text();
        let id = LocalMessageId::from_parts(uuid.as_str(), counter);
        proof {
            let t = id@;
            assert(t.take(6) =~= local_id_prefix());
            assert(t.subrange(6, 42) =~= uuid@);
            assert(t.skip(43) =~= decimal_digits(counter as nat));
        }
        id
    }
}

} // verus!
