//! Matrix server names, user identifiers and room identifiers.
use vstd::prelude::*;

use crate::decimal::{all_digits, is_ascii_digit};
use crate::text::{find_char, first_index_of, split_once, split_once_char, strip_prefix};

verus! {

pub open spec fn is_ascii_alpha(c: char) -> bool {
    ('a' <= c && c <= 'z') || ('A' <= c && c <= 'Z')
}

/// A character allowed in a DNS name or IPv4 address of a server name.
pub open spec fn is_dns_char(c: char) -> bool {
    is_ascii_digit(c) || is_ascii_alpha(c) || c == '-' || c == '.'
}

/// A character allowed inside the brackets of an IPv6 literal.
pub open spec fn is_ipv6_char(c: char) -> bool {
    is_ascii_digit(c) || ('A' <= c && c <= 'F') || ('a' <= c && c <= 'f') || c == ':' || c == '.'
}

pub open spec fn is_dns_name(s: Seq<char>) -> bool {
    1 <= s.len() <= 255 && forall|i: int| 0 <= i < s.len() ==> is_dns_char(#[trigger] s[i])
}

pub open spec fn is_port(s: Seq<char>) -> bool {
    1 <= s.len() <= 5 && all_digits(s)
}

/// An IPv6 literal in brackets, then optionally `:` and a port.
pub open spec fn is_bracketed_server_name(s: Seq<char>) -> bool {
    match first_index_of(s, ']') {
        Some(k) => {
            &&& s.len() > 0 && s[0] == '['
            &&& 3 <= k <= 46
            &&& forall|i: int| 1 <= i < k ==> is_ipv6_char(#[trigger] s[i])
            &&& (k + 1 == s.len() || (s[k + 1] == ':' && is_port(
                s.subrange(k + 2, s.len() as int),
            )))
        },
        None => false,
    }
}

/// The Matrix server name grammar: a host (DNS name, IPv4 address or bracketed
/// IPv6 literal), optionally followed by `:` and a port of one to five digits.
pub open spec fn is_server_name(s: Seq<char>) -> bool {
    if s.len() > 0 && s[0] == '[' {
        is_bracketed_server_name(s)
    } else {
        match split_once(s, ':') {
            Some((host, port)) => is_dns_name(host) && is_port(port),
            None => is_dns_name(s),
        }
    }
}

fn is_dns_name_str(s: &str) -> (r: bool)
    ensures
        r == is_dns_name(s@),
{
    let n = s.unicode_len();
    if n < 1 || n > 255 {
        return false;
    }
    let mut i: usize = 0;
    while i < n
        invariant
            n == s@.len(),
            i <= n,
            forall|k: int| 0 <= k < i ==> is_dns_char(#[trigger] s@[k]),
        decreases n - i,
    {
        let c = s.get_char(i);
        if !(('0' <= c && c <= '9') || ('a' <= c && c <= 'z') || ('A' <= c && c <= 'Z') || c == '-'
            || c == '.') {
            return false;
        }
        i = i + 1;
    }
    true
}

fn is_port_str(s: &str) -> (r: bool)
    ensures
        r == is_port(s@),
{
    let n = s.unicode_len();
    if n < 1 || n > 5 {
        return false;
    }
    let mut i: usize = 0;
    while i < n
        invariant
            n == s@.len(),
            i <= n,
            forall|k: int| 0 <= k < i ==> is_ascii_digit(#[trigger] s@[k]),
        decreases n - i,
    {
        let c = s.get_char(i);
        if !('0' <= c && c <= '9') {
            return false;
        }
        i = i + 1;
    }
    true
}

fn is_bracketed_server_name_str(s: &str) -> (r: bool)
    requires
        s@.len() > 0,
        s@[0] == '[',
    ensures
        r == is_bracketed_server_name(s@),
{
    let n = s.unicode_len();
    match find_char(s, ']') {
        None => false,
        Some(k) => {
            if k < 3 || k > 46 {
                return false;
            }
            let mut i: usize = 1;
            while i < k
                invariant
                    n == s@.len(),
                    k < n,
                    1 <= i <= k,
                    s@.len() > 0 && s@[0] == '[',
                    first_index_of(s@, ']') == Some(k as int),
                    forall|j: int| 1 <= j < i ==> is_ipv6_char(#[trigger] s@[j]),
                decreases k - i,
            {
                let c = s.get_char(i);
                if !(('0' <= c && c <= '9') || ('A' <= c && c <= 'F') || ('a' <= c && c <= 'f')
                    || c == ':' || c == '.') {
                    assert(!is_ipv6_char(s@[i as int]));
                    return false;
                }
                i = i + 1;
            }
            if k + 1 == n {
                true
            } else if s.get_char(k + 1) == ':' {
                is_port_str(s.substring_char(k + 2, n))
            } else {
                false
            }
        },
    }
}

/// Decides the Matrix server name grammar.
pub fn is_server_name_str(s: &str) -> (r: bool)
    ensures
        r == is_server_name(s@),
{
    let n = s.unicode_len();
    if n > 0 && s.get_char(0) == '[' {
        is_bracketed_server_name_str(s)
    } else {
        match split_once_char(s, ':') {
            Some((host, port)) => is_dns_name_str(host) && is_port_str(port),
            None => is_dns_name_str(s),
        }
    }
}

/// The name of a Matrix homeserver, as validated by the server name grammar.
#[derive(Debug, PartialEq, Eq, Hash)]
pub struct ServerName {
    name: String,
}

impl View for ServerName {
    type V = Seq<char>;

    closed spec fn view(&self) -> Seq<char> {
        self.name@
    }
}

impl Clone for ServerName {
    fn clone(&self) -> (r: Self)
        ensures
            r@ == self@,
    {
        proof {
            use_type_invariant(self);
        }
        ServerName { name: self.name.clone() }
    }
}

impl ServerName {
    #[verifier::type_invariant]
    spec fn inv(self) -> bool {
        is_server_name(self.name@)
    }

    /// Accepts `value` exactly when it follows the server name grammar.
    pub fn try_new(value: &str) -> (r: Option<ServerName>)
        ensures
            r matches Some(n) ==> n@ == value@,
            r is Some <==> is_server_name(value@),
    {
        if is_server_name_str(value) {
            Some(ServerName { name: String::from_str(value) })
        } else {
            None
        }
    }

    pub fn as_str(&self) -> (r: &str)
        ensures
            r@ == self@,
            is_server_name(self@),
    {
        proof {
            use_type_invariant(self);
        }
        self.name.as_str()
    }

    /// Splits `localpart:server` at its first `:`.
    pub fn split_localpart_and_server_name(value: &str) -> (r: Option<(&str, &str)>)
        ensures
            r matches Some(p) ==> split_once(value@, ':') == Some((p.0@, p.1@)),
            r is None ==> split_once(value@, ':') is None,
    {
        split_once_char(value, ':')
    }
}

/// A character allowed in a user localpart: printable ASCII except `:`.
pub open spec fn is_user_localpart_char(c: char) -> bool {
    '!' <= c && c <= '~' && c != ':'
}

/// A Matrix user identifier `@localpart:server_name`, at most 255 characters.
pub open spec fn is_user_identifier(s: Seq<char>) -> bool {
    &&& 0 < s.len() <= 255
    &&& s[0] == '@'
    &&& match split_once(s.drop_first(), ':') {
        Some((localpart, server)) => {
            &&& localpart.len() > 0
            &&& forall|i: int| 0 <= i < localpart.len() ==> is_user_localpart_char(
                #[trigger] localpart[i],
            )
            &&& is_server_name(server)
        },
        None => false,
    }
}

/// The server part of a user identifier: what follows its first `:`.
pub open spec fn user_domain(s: Seq<char>) -> Option<Seq<char>> {
    match split_once(s, ':') {
        Some((_, domain)) => Some(domain),
        None => None,
    }
}

/// A validated Matrix user identifier.
#[derive(Debug, PartialEq, Eq, Hash)]
pub struct UserIdentifier {
    value: String,
}

impl View for UserIdentifier {
    type V = Seq<char>;

    closed spec fn view(&self) -> Seq<char> {
        self.value@
    }
}

impl Clone for UserIdentifier {
    fn clone(&self) -> (r: Self)
        ensures
            r@ == self@,
    {
        proof {
            use_type_invariant(self);
        }
        UserIdentifier { value: self.value.clone() }
    }
}

impl UserIdentifier {
    #[verifier::type_invariant]
    spec fn inv(self) -> bool {
        is_user_identifier(self.value@)
    }

    /// Accepts `value` exactly when it is a well-formed user identifier.
    pub fn parse(value: &str) -> (r: Option<UserIdentifier>)
        ensures
            r matches Some(u) ==> u@ == value@,
            r is Some <==> is_user_identifier(value@),
    {
        let n = value.unicode_len();
        if n == 0 || n > 255 || value.get_char(0) != '@' {
            return None;
        }
        let rest = value.substring_char(1, n);
        assert(rest@ =~= value@.drop_first());
        match split_once_char(rest, ':') {
            None => None,
            Some((localpart, server)) => {
                let m = localpart.unicode_len();
                if m == 0 {
                    return None;
                }
                let mut i: usize = 0;
                while i < m
                    invariant
                        m == localpart@.len(),
                        i <= m,
                        0 < value@.len() <= 255,
                        value@[0] == '@',
                        split_once(value@.drop_first(), ':') == Some((localpart@, server@)),
                        forall|k: int| 0 <= k < i ==> is_user_localpart_char(#[trigger] localpart@[k]),
                    decreases m - i,
                {
                    let c = localpart.get_char(i);
                    if !('!' <= c && c <= '~' && c != ':') {
                        assert(!is_user_localpart_char(localpart@[i as int]));
                        return None;
                    }
                    i = i + 1;
                }
                if is_server_name_str(server) {
                    Some(UserIdentifier { value: String::from_str(value) })
                } else {
                    None
                }
            },
        }
    }

    pub fn as_str(&self) -> (r: &str)
        ensures
            r@ == self@,
            is_user_identifier(self@),
    {
        proof {
            use_type_invariant(self);
        }
        self.value.as_str()
    }
}

/// A UUID in its simple form: 32 lower-case hexadecimal digits.
pub open spec fn is_simple_uuid(s: Seq<char>) -> bool {
    s.len() == 32 && forall|i: int| 0 <= i < 32 ==> ('0' <= #[trigger] s[i] <= '9' || 'a' <= s[i] <= 'f')
}

/// A room localpart is non-empty and holds no `:`.
pub open spec fn is_room_localpart(s: Seq<char>) -> bool {
    s.len() > 0 && !s.contains(':')
}

/// What a room identifier holds: its localpart, its server name if it has
/// one, and its full text.
pub struct RoomIdentifierView {
    pub localpart: Seq<char>,
    pub server_name: Option<Seq<char>>,
    pub full: Seq<char>,
}

/// The full text of a room identifier: `!localpart:server` or `!localpart`.
pub open spec fn room_identifier_text(localpart: Seq<char>, server_name: Option<Seq<char>>) -> Seq<
    char,
> {
    match server_name {
        Some(server) => seq!['!'] + localpart + seq![':'] + server,
        None => seq!['!'] + localpart,
    }
}

pub open spec fn room_identifier_view_wf(v: RoomIdentifierView) -> bool {
    &&& is_room_localpart(v.localpart)
    &&& (v.server_name matches Some(s) ==> is_server_name(s))
    &&& v.full == room_identifier_text(v.localpart, v.server_name)
}

/// What `RoomIdentifier::parse` gives for `s`.
pub open spec fn parse_room_identifier(s: Seq<char>) -> Option<RoomIdentifierView> {
    match strip_prefix(s, '!') {
        Some(rest) => match split_once(rest, ':') {
            Some((localpart, server)) => if localpart.len() > 0 && is_server_name(server) {
                Some(
                    RoomIdentifierView {
                        localpart,
                        server_name: Some(server),
                        full: room_identifier_text(localpart, Some(server)),
                    },
                )
            } else {
                None
            },
            None => None,
        },
        None => None,
    }
}

/// What `RoomIdentifier::parse_domain_less` gives for `s`.
pub open spec fn parse_domain_less_room_identifier(s: Seq<char>) -> Option<RoomIdentifierView> {
    match strip_prefix(s, '!') {
        Some(localpart) => if is_room_localpart(localpart) {
            Some(
                RoomIdentifierView {
                    localpart,
                    server_name: None,
                    full: room_identifier_text(localpart, None),
                },
            )
        } else {
            None
        },
        None => None,
    }
}

#[derive(Clone, Debug, PartialEq, Eq)]
pub enum RoomIdentifierValidationError {
    InvalidStructure { room_id: String, expected: &'static str },
}

/// A Matrix room identifier, with a server name (`!localpart:server.name`)
/// or without one (the hash-only `!localpart` form).
#[derive(Debug, PartialEq, Eq, Hash)]
pub struct RoomIdentifier {
    localpart: String,
    server_name: Option<ServerName>,
    full_identifier: String,
}

impl View for RoomIdentifier {
    type V = RoomIdentifierView;

    closed spec fn view(&self) -> RoomIdentifierView {
        RoomIdentifierView {
            localpart: self.localpart@,
            server_name: match self.server_name {
                Some(s) => Some(s@),
                None => None,
            },
            full: self.full_identifier@,
        }
    }
}

pub fn is_valid_room_localpart(localpart: &str) -> (r: bool)
    ensures
        r == is_room_localpart(localpart@),
{
    localpart.unicode_len() > 0 && !crate::text::contains_char(localpart, ':')
}

/// Calls `uuid::Uuid::new_v4` and renders the random UUID with its `simple`
/// formatter. The uuid crate writes that form as 32 lower-case hexadecimal
/// digits; which digits come out is left open.
#[verifier::external_body]
pub(crate) fn new_simple_uuid() -> (r: String)
    ensures
        r@.len() == 32,
        forall|i: int|
            0 <= i < 32 ==> ('0' <= #[trigger] r@[i] <= '9' || 'a' <= r@[i] <= 'f'),
{
    uuid::Uuid::new_v4().simple().to_string()
}

impl Clone for RoomIdentifier {
    fn clone(&self) -> (r: Self)
        ensures
            r@ == self@,
    {
        proof {
            use_type_invariant(self);
        }
        RoomIdentifier {
            localpart: self.localpart.clone(),
            server_name: match &self.server_name {
                Some(s) => Some(s.clone()),
                None => None,
            },
            full_identifier: self.full_identifier.clone(),
        }
    }
}

impl RoomIdentifier {
    #[verifier::type_invariant]
    spec fn inv(self) -> bool {
        room_identifier_view_wf(self@)
    }

    /// A fresh identifier `!<32 random hex digits>:<home server>`.
    pub fn generate(home_server_name: &ServerName) -> (r: RoomIdentifier)
        ensures
            r@.server_name == Some(home_server_name@),
            is_simple_uuid(r@.localpart),
            r@.full == room_identifier_text(r@.localpart, Some(home_server_name@)),
    {
        let localpart = new_simple_uuid();
        assert(!localpart@.contains(':')) by {
            if localpart@.contains(':') {
                let k = choose|k: int| 0 <= k < localpart@.len() && localpart@[k] == ':';
            }
        }
        match Self::from_localpart_and_server(localpart.as_str(), home_server_name) {
            Some(r) => r,
            None => {
                assert(false);
                Self::from_localpart(localpart.as_str()).unwrap()
            },
        }
    }

    /// Parses `!localpart:server_name`, the localpart ending at the first `:`.
    pub fn parse(value: &str) -> (r: Option<RoomIdentifier>)
        ensures
            r matches Some(id) ==> parse_room_identifier(value@) == Some(id@),
            r is None ==> parse_room_identifier(value@) is None,
    {
        let rest = match crate::text::strip_prefix_char(value, '!') {
            Some(rest) => rest,
            None => return None,
        };
        let (localpart, server) = match ServerName::split_localpart_and_server_name(rest) {
            Some(p) => p,
            None => return None,
        };
        let server_name = match ServerName::try_new(server) {
            Some(s) => s,
            None => return None,
        };
        proof {
            crate::text::lemma_split_once_parts(rest@, ':');
        }
        Self::from_localpart_and_server(localpart, &server_name)
    }

    /// Parses the hash-only form `!localpart`.
    pub fn parse_domain_less(value: &str) -> (r: Option<RoomIdentifier>)
        ensures
            r matches Some(id) ==> parse_domain_less_room_identifier(value@) == Some(id@),
            r is None ==> parse_domain_less_room_identifier(value@) is None,
    {
        match crate::text::strip_prefix_char(value, '!') {
            Some(localpart) => Self::from_localpart(localpart),
            None => None,
        }
    }

    /// Fails exactly when the identifier has no server name.
    pub fn validate(&self) -> (r: Result<(), RoomIdentifierValidationError>)
        ensures
            r is Ok <==> self@.server_name is Some,
            r matches Err(RoomIdentifierValidationError::InvalidStructure { room_id, expected })
                ==> room_id@ == self@.full && expected@
                == "room IDs must use the `!localpart:server.name` format"@,
    {
        if self.server_name.is_none() {
            return Err(
                RoomIdentifierValidationError::InvalidStructure {
                    room_id: self.full_identifier.clone(),
                    expected: "room IDs must use the `!localpart:server.name` format",
                },
            );
        }
        Ok(())
    }

    /// Room versions 1 and 2 require a server name; later versions accept both forms.
    pub fn validate_for_room_version(&self, room_version: u8) -> (r: Result<
        (),
        RoomIdentifierValidationError,
    >)
        ensures
            r is Ok <==> (room_version != 1 && room_version != 2) || self@.server_name is Some,
            r matches Err(RoomIdentifierValidationError::InvalidStructure { room_id, expected })
                ==> room_id@ == self@.full && expected@
                == "room IDs must use the `!localpart:server.name` format"@,
    {
        if room_version == 1 || room_version == 2 {
            self.validate()
        } else {
            if self.validate().is_ok() || self.server_name.is_none() {
                return Ok(());
            }
            Err(
                RoomIdentifierValidationError::InvalidStructure {
                    room_id: self.full_identifier.clone(),
                    expected: "room IDs must use `!localpart:server.name` or hash-only `!localpart` form depending on version rules",
                },
            )
        }
    }

    /// The identifier as text: `!localpart:server` when it names a server,
    /// `!localpart` otherwise; the localpart is never empty and holds no
    /// `:`.
    pub fn as_str(&self) -> (r: &str)
        ensures
            r@ == self@.full,
            r@ == room_identifier_text(self@.localpart, self@.server_name),
            is_room_localpart(self@.localpart),
            room_identifier_view_wf(self@),
    {
        proof {
            use_type_invariant(self);
        }
        self.full_identifier.as_str()
    }

    pub fn server_name(&self) -> (r: Option<&str>)
        ensures
            r matches Some(s) ==> self@.server_name == Some(s@),
            r is None ==> self@.server_name is None,
    {
        match &self.server_name {
            Some(s) => Some(s.as_str()),
            None => None,
        }
    }

    pub fn localpart(&self) -> (r: &str)
        ensures
            r@ == self@.localpart,
            is_room_localpart(r@),
    {
        proof {
            use_type_invariant(self);
        }
        self.localpart.as_str()
    }

    pub fn server_name_value(&self) -> (r: Option<&ServerName>)
        ensures
            r matches Some(s) ==> self@.server_name == Some(s@),
            r is None ==> self@.server_name is None,
    {
        match &self.server_name {
            Some(s) => Some(s),
            None => None,
        }
    }

    /// `!localpart:server_name`, when the localpart is valid.
    pub fn from_localpart_and_server(localpart: &str, server_name: &ServerName) -> (r: Option<
        RoomIdentifier,
    >)
        ensures
            r matches Some(id) ==> id@ == (RoomIdentifierView {
                localpart: localpart@,
                server_name: Some(server_name@),
                full: room_identifier_text(localpart@, Some(server_name@)),
            }),
            r is Some <==> is_room_localpart(localpart@),
    {
        if !is_valid_room_localpart(localpart) {
            return None;
        }
        let full = String::from_str("!").concat(localpart).concat(":").concat(server_name.as_str());
        proof {
            reveal_strlit("!");
            reveal_strlit(":");
            assert(full@ =~= room_identifier_text(localpart@, Some(server_name@)));
        }
        Some(
            RoomIdentifier {
                localpart: String::from_str(localpart),
                server_name: Some(server_name.clone()),
                full_identifier: full,
            },
        )
    }

    /// `!localpart`, when the localpart is valid.
    pub fn from_localpart(localpart: &str) -> (r: Option<RoomIdentifier>)
        ensures
            r matches Some(id) ==> id@ == (RoomIdentifierView {
                localpart: localpart@,
                server_name: None,
                full: room_identifier_text(localpart@, None),
            }),
            r is Some <==> is_room_localpart(localpart@),
    {
        if !is_valid_room_localpart(localpart) {
            return None;
        }
        let full = String::from_str("!").concat(localpart);
        proof {
            reveal_strlit("!");
            assert(full@ =~= room_identifier_text(localpart@, None));
        }
        Some(
            RoomIdentifier {
                localpart: String::from_str(localpart),
                server_name: None,
                full_identifier: full,
            },
        )
    }
}

} // verus!
