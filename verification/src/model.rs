//! Identifiers and labels: the values by which workloads, groups and
//! memberships are named, and the texts that denote them.

use vstd::prelude::*;
use vstd::string::*;

use crate::text::{
    all_digits, ascii_alphanumeric, ascii_digit, ascii_graphic, ascii_lower, blank, chars_of, decimal,
    has_prefix, is_ascii_alphanumeric, is_ascii_digit, is_ascii_graphic, is_ascii_lower, is_blank,
    numeral, numeral_value, parse_decimal, text_between,
};
use crate::uuids::{
    hex_value, is_simple_form, lemma_hex_text_of_value, lemma_simple_round_trip, now_v7,
    parse_simple, pow16, simple_form, simple_text, version_number, version_of, write_simple,
};

verus! {

/// Where Herdr should place a newly opened terminal.
#[derive(Clone, Copy, Debug, PartialEq, Eq, Structural)]
pub enum Placement {
    SplitRight,
    SplitDown,
    NewTab,
    ReplaceCurrentPane,
}

impl Default for Placement {
    fn default() -> (placement: Self)
        ensures
            placement == Placement::SplitRight,
    {
        Placement::SplitRight
    }
}

/// A stable, Tether-owned identifier for a durable session: a version 7 UUID.
///
/// Its textual representation is also safe to use as a tmux session name.
#[derive(Clone, Copy, Debug, PartialEq, Eq, PartialOrd, Ord, Hash, Structural)]
pub struct SessionId(u128);

impl View for SessionId {
    type V = u128;

    closed spec fn view(&self) -> u128 {
        self.0
    }
}

/// Two identifiers with the same UUID are the same identifier.
pub proof fn session_id_is_its_uuid(a: SessionId, b: SessionId)
    ensures
        a@ == b@ <==> a == b,
{
}

/// The text of a session identifier with the given UUID.
pub open spec fn session_id_text(uuid: u128) -> Seq<char> {
    "tether-"@ + simple_text(uuid)
}

/// The UUID that the digits behind `tether-` denote.
pub open spec fn denoted_uuid(text: Seq<char>) -> u128 {
    hex_value(text.skip("tether-"@.len() as int)) as u128
}

/// Text that denotes a session identifier: `tether-` and a version 7 UUID in
/// its simple form.
pub open spec fn denotes_session_id(text: Seq<char>) -> bool {
    &&& "tether-"@.is_prefix_of(text)
    &&& simple_form(text.skip("tether-"@.len() as int))
    &&& version_of(denoted_uuid(text)) == 7
}

impl SessionId {
    /// The number of digits that tell most identifiers apart.
    pub const SHORT_REFERENCE_WIDTH: usize = 8;

    /// The number of digits that tell any two identifiers apart.
    pub const MAX_REFERENCE_WIDTH: usize = 32;

    /// Identifiers in use have the version field of a version 7 UUID.
    pub open spec fn well_formed(self) -> bool {
        version_of(self@) == 7
    }

    /// A fresh identifier.
    pub fn new() -> (id: Self)
        ensures
            id.well_formed(),
    {
        SessionId(now_v7())
    }

    /// The UUID as a number.
    pub fn as_uuid(&self) -> (uuid: u128)
        ensures
            uuid == self@,
    {
        self.0
    }

    /// The text that denotes this identifier.
    pub fn to_string(&self) -> (text: String)
        ensures
            text@ == session_id_text(self@),
    {
        "tether-".to_owned().concat(write_simple(self.0).as_str())
    }

    /// The identifier that `value` denotes.
    pub fn from_str(value: &str) -> (r: Result<Self, SessionIdError>)
        ensures
            r is Ok <==> denotes_session_id(value@),
            r is Ok ==> r->Ok_0@ == denoted_uuid(value@),
            r is Ok ==> r->Ok_0.well_formed() && session_id_text(r->Ok_0@) == value@,
            r is Err ==> r->Err_0@ == value@,
    {
        if !has_prefix(value, "tether-") {
            return Err(SessionIdError { value: value.to_owned() });
        }
        proof {
            reveal_strlit("tether-");
        }
        let chars = chars_of(value);
        let encoded = text_between(&chars, 7, chars.len());
        proof {
            assert(encoded@ =~= value@.skip("tether-"@.len() as int));
        }
        if !is_simple_form(encoded.as_str()) {
            return Err(SessionIdError { value: value.to_owned() });
        }
        match parse_simple(encoded.as_str()) {
            None => Err(SessionIdError { value: value.to_owned() }),
            Some(uuid) => {
                if version_number(uuid) != 7 {
                    return Err(SessionIdError { value: value.to_owned() });
                }
                proof {
                    lemma_hex_text_of_value(encoded@);
                    assert("tether-"@ + encoded@ =~= value@);
                }
                Ok(SessionId(uuid))
            },
        }
    }

    /// The last `width` digits of the identifier, by which a reader can refer
    /// to it.
    pub fn reference_token(&self, width: usize) -> (token: String)
        requires
            width <= 32,
        ensures
            token@ == reference_token_text(self@, width as int),
    {
        let digits = chars_of(write_simple(self.0).as_str());
        proof {
            lemma_simple_round_trip(self.0);
        }
        text_between(&digits, 32 - width, 32)
    }
}

/// The last `width` digits of a UUID in its simple form.
pub open spec fn reference_token_text(uuid: u128, width: int) -> Seq<char> {
    simple_text(uuid).subrange(32 - width, 32)
}

/// Reading the text of an identifier gives that identifier and no other.
pub proof fn session_id_text_denotes_it(id: SessionId)
    requires
        id.well_formed(),
    ensures
        denotes_session_id(session_id_text(id@)),
        denoted_uuid(session_id_text(id@)) == id@,
        forall|other: SessionId| session_id_text(other@) == session_id_text(id@) ==> other == id,
{
    lemma_simple_round_trip(id@);
    let text = session_id_text(id@);
    let prefix = "tether-"@;
    assert(text.skip(prefix.len() as int) =~= simple_text(id@));
    assert(text.subrange(0, prefix.len() as int) =~= prefix);
    assert forall|other: SessionId| session_id_text(other@) == text implies other == id by {
        lemma_simple_round_trip(other@);
        assert(session_id_text(other@).skip(prefix.len() as int) =~= simple_text(other@));
    }
}

/// Two texts that denote session identifiers denote different ones.
pub proof fn session_id_texts_differ(a: Seq<char>, b: Seq<char>)
    requires
        denotes_session_id(a),
        denotes_session_id(b),
        a != b,
    ensures
        denoted_uuid(a) != denoted_uuid(b),
{
    let prefix = "tether-"@;
    assert forall|text: Seq<char>| #[trigger] denotes_session_id(text) implies text == prefix
        + simple_text(denoted_uuid(text)) by {
        let digits = text.skip(prefix.len() as int);
        lemma_hex_text_of_value(digits);
        assert(pow16(32) == 0x1_0000_0000_0000_0000_0000_0000_0000_0000) by {
            reveal_with_fuel(pow16, 33);
        }
        assert(text =~= prefix + digits);
    }
}

/// At full width the reference tokens of two UUIDs differ.
pub proof fn full_reference_texts_differ(a: u128, b: u128)
    requires
        a != b,
    ensures
        reference_token_text(a, 32) != reference_token_text(b, 32),
{
    lemma_simple_round_trip(a);
    lemma_simple_round_trip(b);
    assert(reference_token_text(a, 32) =~= simple_text(a));
    assert(reference_token_text(b, 32) =~= simple_text(b));
}

/// At full width the reference tokens of two identifiers differ.
pub proof fn full_reference_tokens_differ(a: SessionId, b: SessionId)
    requires
        a != b,
    ensures
        reference_token_text(a@, 32) != reference_token_text(b@, 32),
{
    session_id_is_its_uuid(a, b);
    full_reference_texts_differ(a@, b@);
}

impl std::str::FromStr for SessionId {
    type Err = SessionIdError;

    fn from_str(value: &str) -> Result<Self, SessionIdError> {
        SessionId::from_str(value)
    }
}

/// The text that did not denote a session identifier.
#[derive(Clone, Debug, PartialEq, Eq)]
pub struct SessionIdError {
    value: String,
}

impl View for SessionIdError {
    type V = Seq<char>;

    closed spec fn view(&self) -> Seq<char> {
        self.value@
    }
}

impl SessionIdError {
    /// What went wrong, for a reader.
    pub fn message(&self) -> (text: String)
        ensures
            text@ == "invalid session id `"@ + self@
                + "`: expected `tether-` followed by a lowercase UUIDv7 in 32 hexadecimal digits"@,
    {
        "invalid session id `".to_owned().concat(self.value.as_str()).concat(
            "`: expected `tether-` followed by a lowercase UUIDv7 in 32 hexadecimal digits",
        )
    }
}

/// A private, unguessable capability proving that a tmux incarnation was
/// created for one persisted Tether reservation.
#[derive(Clone, Copy, Debug, PartialEq, Eq, Hash, Structural)]
pub struct OwnershipProof(u128);

impl View for OwnershipProof {
    type V = u128;

    closed spec fn view(&self) -> u128 {
        self.0
    }
}

impl OwnershipProof {
    /// A fresh proof.
    pub fn new() -> (proof_value: Self)
        ensures
            version_of(proof_value@) == 7,
    {
        OwnershipProof(now_v7())
    }

    /// The text that denotes this proof.
    pub fn to_string(&self) -> (text: String)
        ensures
            text@ == simple_text(self@),
    {
        write_simple(self.0)
    }

    /// The proof that `value` denotes: any UUID in its simple form.
    pub fn from_str(value: &str) -> (r: Result<Self, OwnershipProofError>)
        ensures
            r is Ok <==> simple_form(value@),
            r is Ok ==> simple_text(r->Ok_0@) == value@,
    {
        if !is_simple_form(value) {
            return Err(OwnershipProofError);
        }
        match parse_simple(value) {
            Some(uuid) => {
                proof {
                    lemma_hex_text_of_value(value@);
                }
                Ok(OwnershipProof(uuid))
            },
            None => Err(OwnershipProofError),
        }
    }
}

impl std::str::FromStr for OwnershipProof {
    type Err = OwnershipProofError;

    fn from_str(value: &str) -> Result<Self, OwnershipProofError> {
        OwnershipProof::from_str(value)
    }
}

/// The text did not denote an ownership proof. The text itself is not kept.
#[derive(Clone, Copy, Debug, PartialEq, Eq, Structural)]
pub struct OwnershipProofError;

impl OwnershipProofError {
    /// What went wrong, for a reader.
    pub fn message(&self) -> (text: String)
        ensures
            text@ == "invalid ownership proof"@,
    {
        "invalid ownership proof".to_owned()
    }
}

/// Reading the text of a proof gives that proof and no other.
pub proof fn ownership_proof_text_denotes_it(p: OwnershipProof)
    ensures
        simple_form(simple_text(p@)),
        forall|other: OwnershipProof| simple_text(other@) == simple_text(p@) ==> other == p,
{
    lemma_simple_round_trip(p@);
    assert forall|other: OwnershipProof| simple_text(other@) == simple_text(p@) implies other == p by {
        lemma_simple_round_trip(other@);
    }
}

/// The immutable tmux server identity captured when an owned session is created.
///
/// Destructive operations target this identity, never a reusable session name.
#[derive(Clone, Copy, Debug, PartialEq, Eq, PartialOrd, Ord, Hash, Structural)]
pub struct TmuxSessionId(u64);

impl View for TmuxSessionId {
    type V = u64;

    closed spec fn view(&self) -> u64 {
        self.0
    }
}

/// Text that denotes a tmux identity: `$` and a decimal number of 64 bits.
pub open spec fn denotes_tmux_id(text: Seq<char>) -> bool {
    &&& text.len() > 0
    &&& text[0] == '$'
    &&& all_digits(text.skip(1))
    &&& numeral_value(text.skip(1)) <= u64::MAX
}

impl TmuxSessionId {
    /// The text that denotes this identity.
    pub fn to_string(&self) -> (text: String)
        ensures
            text@ == seq!['$'] + numeral(self@ as nat),
    {
        let mut text = String::new();
        text.push('$');
        text.append(decimal(self.0).as_str());
        assert(text@ =~= seq!['$'] + numeral(self@ as nat));
        text
    }

    /// The identity that `value` denotes.
    pub fn from_str(value: &str) -> (r: Result<Self, TmuxSessionIdError>)
        ensures
            r is Ok <==> denotes_tmux_id(value@),
            r is Ok ==> r->Ok_0@ == numeral_value(value@.skip(1)),
            r is Err ==> r->Err_0@ == value@,
    {
        let chars = chars_of(value);
        if chars.len() == 0 || chars[0] != '$' {
            return Err(TmuxSessionIdError { value: value.to_owned() });
        }
        let encoded = text_between(&chars, 1, chars.len());
        assert(encoded@ =~= value@.skip(1));
        match parse_decimal(encoded.as_str()) {
            Some(number) => Ok(TmuxSessionId(number)),
            None => Err(TmuxSessionIdError { value: value.to_owned() }),
        }
    }
}

impl std::str::FromStr for TmuxSessionId {
    type Err = TmuxSessionIdError;

    fn from_str(value: &str) -> Result<Self, TmuxSessionIdError> {
        TmuxSessionId::from_str(value)
    }
}

/// The text that did not denote a tmux identity.
#[derive(Clone, Debug, PartialEq, Eq)]
pub struct TmuxSessionIdError {
    value: String,
}

impl View for TmuxSessionIdError {
    type V = Seq<char>;

    closed spec fn view(&self) -> Seq<char> {
        self.value@
    }
}

impl TmuxSessionIdError {
    /// What went wrong, for a reader.
    pub fn message(&self) -> (text: String)
        ensures
            text@ == "invalid tmux session identity `"@ + self@ + "`"@,
    {
        "invalid tmux session identity `".to_owned().concat(self.value.as_str()).concat("`")
    }
}

/// A persisted opaque epoch for one exact orchestration membership.
///
/// Removing and re-adding the same session always creates a new value so
/// asynchronous observation from an earlier authorization cannot cross epochs.
#[derive(Clone, Copy, Debug, PartialEq, Eq, PartialOrd, Ord, Hash, Structural)]
pub struct OrchestrationMembershipId(u128);

impl View for OrchestrationMembershipId {
    type V = u128;

    closed spec fn view(&self) -> u128 {
        self.0
    }
}

impl OrchestrationMembershipId {
    /// A fresh membership epoch.
    pub fn new() -> (id: Self)
        ensures
            version_of(id@) == 7,
    {
        OrchestrationMembershipId(now_v7())
    }

    /// The text that denotes this membership.
    pub fn to_string(&self) -> (text: String)
        ensures
            text@ == simple_text(self@),
    {
        write_simple(self.0)
    }

    /// The membership that `value` denotes: a version 7 UUID in its simple form.
    pub fn from_str(value: &str) -> (r: Result<Self, OrchestrationMembershipIdError>)
        ensures
            r is Ok <==> simple_form(value@) && version_of(hex_value(value@) as u128) == 7,
            r is Ok ==> simple_text(r->Ok_0@) == value@,
    {
        if !is_simple_form(value) {
            return Err(OrchestrationMembershipIdError);
        }
        match parse_simple(value) {
            Some(uuid) => {
                if version_number(uuid) != 7 {
                    return Err(OrchestrationMembershipIdError);
                }
                proof {
                    lemma_hex_text_of_value(value@);
                }
                Ok(OrchestrationMembershipId(uuid))
            },
            None => Err(OrchestrationMembershipIdError),
        }
    }
}

impl std::str::FromStr for OrchestrationMembershipId {
    type Err = OrchestrationMembershipIdError;

    fn from_str(value: &str) -> Result<Self, OrchestrationMembershipIdError> {
        OrchestrationMembershipId::from_str(value)
    }
}

/// Two memberships with the same UUID are the same membership.
pub proof fn membership_id_is_its_uuid(a: OrchestrationMembershipId, b: OrchestrationMembershipId)
    ensures
        a@ == b@ <==> a == b,
{
}

/// The text did not denote a membership.
#[derive(Clone, Copy, Debug, PartialEq, Eq, Structural)]
pub struct OrchestrationMembershipIdError;

impl OrchestrationMembershipIdError {
    /// What went wrong, for a reader.
    pub fn message(&self) -> (text: String)
        ensures
            text@ == "invalid orchestration membership id"@,
    {
        "invalid orchestration membership id".to_owned()
    }
}

/// The space or a printable ASCII character.
pub open spec fn printable(c: char) -> bool {
    c == ' ' || ascii_graphic(c)
}

/// Whether `c` is the space or a printable ASCII character.
pub(crate) fn is_printable(c: char) -> (r: bool)
    ensures
        r == printable(c),
{
    c == ' ' || is_ascii_graphic(c)
}

/// A validated, non-Tether tmux session name that may only be attached.
#[derive(Debug, PartialEq, Eq, PartialOrd, Ord, Hash)]
pub struct ExternalSessionName(String);

impl View for ExternalSessionName {
    type V = Seq<char>;

    closed spec fn view(&self) -> Seq<char> {
        self.0@
    }
}

impl Clone for ExternalSessionName {
    fn clone(&self) -> (copy: Self)
        ensures
            copy == *self,
    {
        ExternalSessionName(self.0.clone())
    }
}

/// A name that cannot be taken for a Tether session, a tmux identity, or a
/// tmux target with a window or pane in it.
pub open spec fn safe_external_name(text: Seq<char>) -> bool {
    &&& 0 < text.len() <= 256
    &&& !"tether-"@.is_prefix_of(text)
    &&& text[0] != '$'
    &&& forall|i: int|
        0 <= i < text.len() ==> printable(#[trigger] text[i]) && text[i] != ':' && text[i] != '.'
}

impl ExternalSessionName {
    pub const MAX_BYTES: usize = 256;

    /// The text itself.
    pub fn as_str(&self) -> (text: &str)
        ensures
            text@ == self@,
    {
        self.0.as_str()
    }

    /// The text itself.
    pub fn to_string(&self) -> (text: String)
        ensures
            text@ == self@,
    {
        self.0.clone()
    }

    /// Whether two values hold the same text.
    pub fn same(&self, other: &Self) -> (r: bool)
        ensures
            r == (self@ == other@),
    {
        self.0 == other.0
    }

    /// The name, if `value` is safe to hand to tmux.
    pub fn from_str(value: &str) -> (r: Result<Self, ExternalSessionNameError>)
        ensures
            r is Ok <==> safe_external_name(value@),
            r is Ok ==> r->Ok_0@ == value@,
    {
        let chars = chars_of(value);
        if chars.len() == 0 || chars.len() > Self::MAX_BYTES || has_prefix(value, "tether-")
            || chars[0] == '$' {
            return Err(ExternalSessionNameError);
        }
        let mut i: usize = 0;
        while i < chars.len()
            invariant
                i <= chars@.len(),
                chars@ == value@,
                forall|j: int|
                    0 <= j < i ==> printable(#[trigger] value@[j]) && value@[j] != ':' && value@[j]
                        != '.',
            decreases chars.len() - i,
        {
            let c = chars[i];
            if !is_printable(c) || c == ':' || c == '.' {
                return Err(ExternalSessionNameError);
            }
            i += 1;
        }
        Ok(ExternalSessionName(value.to_owned()))
    }
}

impl std::str::FromStr for ExternalSessionName {
    type Err = ExternalSessionNameError;

    fn from_str(value: &str) -> Result<Self, ExternalSessionNameError> {
        ExternalSessionName::from_str(value)
    }
}

/// The text is not a safe external session name.
#[derive(Clone, Copy, Debug, PartialEq, Eq, Structural)]
pub struct ExternalSessionNameError;

impl ExternalSessionNameError {
    /// What went wrong, for a reader.
    pub fn message(&self) -> (text: String)
        ensures
            text@ == "unsafe external tmux session name"@,
    {
        "unsafe external tmux session name".to_owned()
    }
}

/// A harness-neutral identifier for a persisted orchestration group.
///
/// The restricted representation is safe for logs, terminal labels, and exact
/// state lookups without carrying host, path, or command data.
#[derive(Debug, PartialEq, Eq, PartialOrd, Ord, Hash)]
pub struct OrchestrationGroupId(String);

impl View for OrchestrationGroupId {
    type V = Seq<char>;

    closed spec fn view(&self) -> Seq<char> {
        self.0@
    }
}

impl Clone for OrchestrationGroupId {
    fn clone(&self) -> (copy: Self)
        ensures
            copy == *self,
    {
        OrchestrationGroupId(self.0.clone())
    }
}

/// One to 64 lowercase letters, digits and separators that begin with a letter,
/// end with a letter or digit, and have no two separators in a row.
pub open spec fn group_id_shape(text: Seq<char>) -> bool {
    &&& 0 < text.len() <= 64
    &&& ascii_lower(text[0])
    &&& ascii_alphanumeric(text.last())
    &&& forall|i: int| 0 <= i < text.len() ==> group_id_char(#[trigger] text[i])
    &&& forall|i: int, j: int|
        0 <= i < j < text.len() && j == i + 1 ==> !(separator(#[trigger] text[i]) && separator(
            #[trigger] text[j],
        ))
}

/// A character of a group identifier.
pub open spec fn group_id_char(c: char) -> bool {
    ascii_lower(c) || ascii_digit(c) || separator(c)
}

/// A separator inside a group identifier.
pub open spec fn separator(c: char) -> bool {
    c == '-' || c == '_'
}

impl OrchestrationGroupId {
    pub const MAX_BYTES: usize = 64;

    /// The text itself.
    pub fn as_str(&self) -> (text: &str)
        ensures
            text@ == self@,
    {
        self.0.as_str()
    }

    /// The text itself.
    pub fn to_string(&self) -> (text: String)
        ensures
            text@ == self@,
    {
        self.0.clone()
    }

    /// Whether two values hold the same text.
    pub fn same(&self, other: &Self) -> (r: bool)
        ensures
            r == (self@ == other@),
    {
        self.0 == other.0
    }

    /// The identifier, if `value` has its shape.
    pub fn from_str(value: &str) -> (r: Result<Self, OrchestrationGroupIdError>)
        ensures
            r is Ok <==> group_id_shape(value@),
            r is Ok ==> r->Ok_0@ == value@,
    {
        let chars = chars_of(value);
        if chars.len() == 0 || chars.len() > Self::MAX_BYTES || !is_ascii_lower(chars[0])
            || !is_ascii_alphanumeric(chars[chars.len() - 1]) {
            return Err(OrchestrationGroupIdError);
        }
        let mut i: usize = 0;
        while i < chars.len()
            invariant
                i <= chars@.len(),
                chars@ == value@,
                forall|j: int| 0 <= j < i ==> group_id_char(#[trigger] value@[j]),
                forall|j: int, k: int|
                    0 <= j < k < i && k == j + 1 ==> !(separator(#[trigger] value@[j]) && separator(
                        #[trigger] value@[k],
                    )),
            decreases chars.len() - i,
        {
            let c = chars[i];
            let separates = c == '-' || c == '_';
            if !(is_ascii_lower(c) || is_ascii_digit(c) || separates) {
                return Err(OrchestrationGroupIdError);
            }
            if separates && i > 0 && (chars[i - 1] == '-' || chars[i - 1] == '_') {
                assert(separator(value@[i - 1]) && separator(value@[i as int]));
                return Err(OrchestrationGroupIdError);
            }
            i += 1;
        }
        Ok(OrchestrationGroupId(value.to_owned()))
    }
}

impl std::str::FromStr for OrchestrationGroupId {
    type Err = OrchestrationGroupIdError;

    fn from_str(value: &str) -> Result<Self, OrchestrationGroupIdError> {
        OrchestrationGroupId::from_str(value)
    }
}

/// The text is not an orchestration group identifier.
#[derive(Clone, Copy, Debug, PartialEq, Eq, Structural)]
pub struct OrchestrationGroupIdError;

impl OrchestrationGroupIdError {
    /// What went wrong, for a reader.
    pub fn message(&self) -> (text: String)
        ensures
            text@ == "invalid orchestration group id"@,
    {
        "invalid orchestration group id".to_owned()
    }
}

/// A bounded, display-safe label for an orchestration group or member.
#[derive(Debug, PartialEq, Eq, PartialOrd, Ord, Hash)]
pub struct OrchestrationTitle(String);

impl View for OrchestrationTitle {
    type V = Seq<char>;

    closed spec fn view(&self) -> Seq<char> {
        self.0@
    }
}

impl Clone for OrchestrationTitle {
    fn clone(&self) -> (copy: Self)
        ensures
            copy == *self,
    {
        OrchestrationTitle(self.0.clone())
    }
}

/// One to 128 printable characters with no space at either end.
pub open spec fn safe_title(text: Seq<char>) -> bool {
    &&& 0 < text.len() <= 128
    &&& text[0] != ' '
    &&& text.last() != ' '
    &&& forall|i: int| 0 <= i < text.len() ==> printable(#[trigger] text[i])
}

impl OrchestrationTitle {
    pub const MAX_BYTES: usize = 128;

    /// The text itself.
    pub fn as_str(&self) -> (text: &str)
        ensures
            text@ == self@,
    {
        self.0.as_str()
    }

    /// The text itself.
    pub fn to_string(&self) -> (text: String)
        ensures
            text@ == self@,
    {
        self.0.clone()
    }

    /// Whether two values hold the same text.
    pub fn same(&self, other: &Self) -> (r: bool)
        ensures
            r == (self@ == other@),
    {
        self.0 == other.0
    }

    /// The label, if `value` is safe to display.
    pub fn from_str(value: &str) -> (r: Result<Self, OrchestrationTitleError>)
        ensures
            r is Ok <==> safe_title(value@),
            r is Ok ==> r->Ok_0@ == value@,
    {
        let chars = chars_of(value);
        if chars.len() == 0 || chars.len() > Self::MAX_BYTES || chars[0] == ' ' || chars[chars.len()
            - 1] == ' ' {
            return Err(OrchestrationTitleError);
        }
        let mut i: usize = 0;
        while i < chars.len()
            invariant
                i <= chars@.len(),
                chars@ == value@,
                forall|j: int| 0 <= j < i ==> printable(#[trigger] value@[j]),
            decreases chars.len() - i,
        {
            if !is_printable(chars[i]) {
                return Err(OrchestrationTitleError);
            }
            i += 1;
        }
        Ok(OrchestrationTitle(value.to_owned()))
    }
}

impl std::str::FromStr for OrchestrationTitle {
    type Err = OrchestrationTitleError;

    fn from_str(value: &str) -> Result<Self, OrchestrationTitleError> {
        OrchestrationTitle::from_str(value)
    }
}

/// The text is not a display-safe label.
#[derive(Clone, Copy, Debug, PartialEq, Eq, Structural)]
pub struct OrchestrationTitleError;

impl OrchestrationTitleError {
    /// What went wrong, for a reader.
    pub fn message(&self) -> (text: String)
        ensures
            text@ == "unsafe orchestration title"@,
    {
        "unsafe orchestration title".to_owned()
    }
}

/// The kind of agent that Herdr should recognize behind an attach process.
#[derive(Debug, PartialEq, Eq, PartialOrd, Ord, Hash)]
pub struct HerdrAgentKind(String);

impl View for HerdrAgentKind {
    type V = Seq<char>;

    closed spec fn view(&self) -> Seq<char> {
        self.0@
    }
}

impl Clone for HerdrAgentKind {
    fn clone(&self) -> (copy: Self)
        ensures
            copy == *self,
    {
        HerdrAgentKind(self.0.clone())
    }
}

impl HerdrAgentKind {
    /// The text itself.
    pub fn as_str(&self) -> (text: &str)
        ensures
            text@ == self@,
    {
        self.0.as_str()
    }

    /// The text itself.
    pub fn to_string(&self) -> (text: String)
        ensures
            text@ == self@,
    {
        self.0.clone()
    }

    /// Whether two values hold the same text.
    pub fn same(&self, other: &Self) -> (r: bool)
        ensures
            r == (self@ == other@),
    {
        self.0 == other.0
    }

    /// The kind named `value`, unless it is blank.
    pub fn from_str(value: &str) -> (r: Result<Self, HerdrAgentKindError>)
        ensures
            r is Ok <==> !blank(value@),
            r is Ok ==> r->Ok_0@ == value@,
    {
        if is_blank(value) {
            return Err(HerdrAgentKindError);
        }
        Ok(HerdrAgentKind(value.to_owned()))
    }
}

impl std::str::FromStr for HerdrAgentKind {
    type Err = HerdrAgentKindError;

    fn from_str(value: &str) -> Result<Self, HerdrAgentKindError> {
        HerdrAgentKind::from_str(value)
    }
}

/// The text names no agent kind.
#[derive(Clone, Copy, Debug, PartialEq, Eq, Structural)]
pub struct HerdrAgentKindError;

impl HerdrAgentKindError {
    /// What went wrong, for a reader.
    pub fn message(&self) -> (text: String)
        ensures
            text@ == "agent kind must not be empty"@,
    {
        "agent kind must not be empty".to_owned()
    }
}

} // verus!
