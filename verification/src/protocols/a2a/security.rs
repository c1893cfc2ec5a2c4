//! A2A transport security: a TLS version floor and header-based
//! authentication.
//!
//! TLS versions are ordered, with 1.2 the default floor. Authentication
//! schemes are tried in order against the `Authorization` header; the
//! first scheme that accepts it names the identity.

use crate::text::{lower_bytes, utf8_of};
use vstd::prelude::*;
use vstd::string::StrSliceExecFns;
use vstd::string::StringExecFns;

verus! {

/// TLS protocol versions, oldest first.
#[derive(Debug, Clone, Copy, PartialEq, Eq, Structural)]
pub enum TlsVersion {
    /// TLS 1.0 (not recommended).
    Tls10,
    /// TLS 1.1 (not recommended).
    Tls11,
    /// TLS 1.2 (the default floor).
    Tls12,
    /// TLS 1.3 (recommended).
    Tls13,
}

/// The ordering rank of a TLS version.
pub open spec fn tls_rank(v: TlsVersion) -> int {
    match v {
        TlsVersion::Tls10 => 0,
        TlsVersion::Tls11 => 1,
        TlsVersion::Tls12 => 2,
        TlsVersion::Tls13 => 3,
    }
}

impl TlsVersion {
    /// The ordering rank: newer versions rank higher.
    pub fn rank(&self) -> (r: u8)
        ensures
            r == tls_rank(*self),
    {
        match self {
            TlsVersion::Tls10 => 0,
            TlsVersion::Tls11 => 1,
            TlsVersion::Tls12 => 2,
            TlsVersion::Tls13 => 3,
        }
    }
}

/// TLS connection information as the proxy reports it.
#[derive(Debug, Clone)]
pub struct TlsInfo {
    /// Negotiated TLS version.
    pub version: TlsVersion,
    /// Cipher suite, when reported.
    pub cipher: Option<String>,
    /// Client certificate, for mutual TLS.
    pub client_cert: Option<String>,
}

/// Authentication schemes, tried in order.
#[derive(Debug, Clone, Copy, PartialEq, Eq, Structural)]
pub enum AuthScheme {
    /// Bearer token.
    Bearer,
    /// API key.
    ApiKey,
    /// Mutual TLS (validated at the transport, never from a header).
    Mtls,
}

/// An authenticated identity.
#[derive(Debug, Clone)]
pub struct Identity {
    /// The scheme that accepted the credentials.
    pub scheme: AuthScheme,
    /// The token, key or certificate name presented.
    pub identifier: String,
    /// Claims carried by the token, when any were parsed.
    pub claims: Option<String>,
}

/// A character that header-credential trimming removes.
pub open spec fn trim_char(c: char) -> bool {
    c == ' ' || c == '\t' || c == '\n' || c == '\r' || c == '\u{b}' || c == '\u{c}'
}

/// The first non-trimmed position at or after `i`.
pub open spec fn trim_from(s: Seq<char>, i: int) -> int
    decreases s.len() - i,
    when 0 <= i <= s.len()
{
    if i >= s.len() {
        s.len() as int
    } else if trim_char(s[i]) {
        trim_from(s, i + 1)
    } else {
        i
    }
}

/// The position just past the last non-trimmed character before `j`.
pub open spec fn trim_upto(s: Seq<char>, j: int) -> int
    decreases j,
    when 0 <= j <= s.len()
{
    if j <= 0 {
        0
    } else if trim_char(s[j - 1]) {
        trim_upto(s, j - 1)
    } else {
        j
    }
}

/// `s` with surrounding whitespace removed.
pub open spec fn trimmed(s: Seq<char>) -> Seq<char> {
    let a = trim_from(s, 0);
    let b = trim_upto(s, s.len() as int);
    if a <= b {
        s.subrange(a, b)
    } else {
        Seq::empty()
    }
}

/// Case-insensitive match of `s` against a lowercase prefix, over the
/// strings' bytes.
pub open spec fn prefix_ci(s: Seq<char>, p: Seq<char>) -> bool {
    crate::text::matches_at(lower_bytes(utf8_of(s)), lower_bytes(utf8_of(p)), 0)
}

/// What a scheme extracts from an `Authorization` value: `Bearer` and
/// `ApiKey` each demand their marker word, then a non-empty trimmed
/// token; mutual TLS never authenticates from a header.
pub open spec fn scheme_token(scheme: AuthScheme, value: Seq<char>) -> Option<Seq<char>> {
    match scheme {
        AuthScheme::Bearer => if prefix_ci(value, "bearer "@) && trimmed(
            value.skip(7),
        ).len() > 0 {
            Some(trimmed(value.skip(7)))
        } else {
            None
        },
        AuthScheme::ApiKey => if prefix_ci(value, "apikey "@) && trimmed(value.skip(7)).len()
            > 0 {
            Some(trimmed(value.skip(7)))
        } else {
            None
        },
        AuthScheme::Mtls => None,
    }
}

impl AuthScheme {
    /// Try this scheme against an `Authorization` value.
    pub fn validate(&self, auth_header: &str) -> (r: Option<Identity>)
        ensures
            match scheme_token(*self, auth_header@) {
                Some(tok) => r matches Some(id) && id.scheme == *self && id.identifier@ == tok
                    && id.claims is None,
                None => r is None,
            },
    {
        match self {
            AuthScheme::Bearer => Self::marker_token(auth_header, *self),
            AuthScheme::ApiKey => Self::marker_token(auth_header, *self),
            AuthScheme::Mtls => None,
        }
    }

    /// Extract the token after a 7-character marker word.
    fn marker_token(auth_header: &str, scheme: AuthScheme) -> (r: Option<Identity>)
        requires
            scheme == AuthScheme::Bearer || scheme == AuthScheme::ApiKey,
        ensures
            match scheme_token(scheme, auth_header@) {
                Some(tok) => r matches Some(id) && id.scheme == scheme && id.identifier@ == tok
                    && id.claims is None,
                None => r is None,
            },
    {
        let marker: &str = if matches!(scheme, AuthScheme::Bearer) {
            "bearer "
        } else {
            "apikey "
        };
        let hb = auth_header.as_bytes();
        let mb = marker.as_bytes();
        let prefix_low = if hb.len() >= mb.len() {
            crate::text::eq_ignore_ascii(
                vstd::slice::slice_subrange(hb, 0, mb.len()),
                mb,
            )
        } else {
            false
        };
        proof {
            lemma_marker_len(marker@);
        }
        if !prefix_low {
            proof {
                if prefix_ci(auth_header@, marker@) {
                    assert(lower_bytes(utf8_of(auth_header@)).subrange(
                        0,
                        utf8_of(marker@).len() as int,
                    ) =~= lower_bytes(
                        utf8_of(auth_header@).subrange(0, utf8_of(marker@).len() as int),
                    ));
                }
            }
            return None;
        }
        proof {
            assert(hb@.subrange(0, mb@.len() as int) =~= utf8_of(auth_header@).subrange(
                0,
                utf8_of(marker@).len() as int,
            ));
            assert(lower_bytes(utf8_of(auth_header@).subrange(0, utf8_of(marker@).len() as int))
                =~= lower_bytes(utf8_of(auth_header@)).subrange(0, utf8_of(marker@).len() as int));
            assert(prefix_ci(auth_header@, marker@));
        }
        let n = auth_header.unicode_len();
        proof {
            lemma_prefix_seven_chars(auth_header@, marker@);
        }
        let rest = auth_header.substring_char(7, n);
        let token = Self::trim_exec(rest);
        if token.as_str().unicode_len() == 0 {
            return None;
        }
        Some(Identity { scheme, identifier: token, claims: None })
    }

    /// Trim surrounding whitespace, character by character.
    #[verifier::loop_isolation(false)]
    fn trim_exec(s: &str) -> (r: String)
        ensures
            r@ == trimmed(s@),
    {
        let n = s.unicode_len();
        let mut a: usize = 0;
        while a < n && Self::is_trim(s.get_char(a))
            invariant
                a <= n,
                n == s@.len(),
                trim_from(s@, 0) == trim_from(s@, a as int),
            decreases n - a,
        {
            a += 1;
        }
        proof {
            assert(trim_from(s@, a as int) == a as int);
        }
        let mut b: usize = n;
        while b > a && Self::is_trim(s.get_char(b - 1))
            invariant
                a <= b <= n,
                n == s@.len(),
                trim_upto(s@, n as int) == trim_upto(s@, b as int),
            decreases b,
        {
            b -= 1;
        }
        proof {
            if b > a {
                assert(trim_upto(s@, b as int) == b as int);
            } else {
                lemma_trim_upto_le(s@, b as int);
            }
        }
        let out = s.substring_char(a, b).to_owned();
        proof {
            assert(out@ =~= trimmed(s@));
        }
        out
    }

    /// Whether trimming removes this character.
    fn is_trim(c: char) -> (r: bool)
        ensures
            r == trim_char(c),
    {
        c == ' ' || c == '\t' || c == '\n' || c == '\r' || c == '\u{b}' || c == '\u{c}'
    }
}

/// `trim_upto` never moves past its bound.
proof fn lemma_trim_upto_le(s: Seq<char>, j: int)
    requires
        0 <= j <= s.len(),
    ensures
        0 <= trim_upto(s, j) <= j,
    decreases j,
{
    if j > 0 && trim_char(s[j - 1]) {
        lemma_trim_upto_le(s, j - 1);
    }
}

/// The marker words are seven ASCII characters.
proof fn lemma_marker_len(m: Seq<char>)
    requires
        m == "bearer "@ || m == "apikey "@,
    ensures
        m.len() == 7,
        utf8_of(m).len() == 7,
        vstd::utf8::is_ascii_chars(m),
{
    reveal_strlit("bearer ");
    reveal_strlit("apikey ");
    if m == "bearer "@ {
        assert(m.len() == 7);
        assert forall|j: int| 0 <= j < m.len() implies '\0' <= #[trigger] m[j] <= '\u{7f}' by {
            assert(m[0] == 'b' && m[1] == 'e' && m[2] == 'a' && m[3] == 'r' && m[4] == 'e'
                && m[5] == 'r' && m[6] == ' ');
        }
    } else {
        assert(m.len() == 7);
        assert forall|j: int| 0 <= j < m.len() implies '\0' <= #[trigger] m[j] <= '\u{7f}' by {
            assert(m[0] == 'a' && m[1] == 'p' && m[2] == 'i' && m[3] == 'k' && m[4] == 'e'
                && m[5] == 'y' && m[6] == ' ');
        }
    }
    vstd::utf8::is_ascii_chars_encode_utf8(m);
}

/// If a string's first seven bytes case-fold to an ASCII marker, its
/// first seven characters are those bytes, so dropping seven bytes drops
/// seven characters.
proof fn lemma_prefix_seven_chars(s: Seq<char>, m: Seq<char>)
    requires
        m == "bearer "@ || m == "apikey "@,
        prefix_ci(s, m),
    ensures
        s.len() >= 7,
        utf8_of(s).subrange(7, utf8_of(s).len() as int) == utf8_of(s.skip(7)),
        s.skip(7) == s.subrange(7, s.len() as int),
{
    lemma_marker_len(m);
    assert(utf8_of(s).len() >= 7);
    vstd::utf8::is_ascii_chars_encode_utf8(m);
    crate::text::lemma_lower_bytes_index(utf8_of(s));
    crate::text::lemma_lower_bytes_index(utf8_of(m));
    assert forall|j: int| 0 <= j < 7 implies utf8_of(s)[j] < 0x80 by {
        assert(lower_bytes(utf8_of(s)).subrange(0, 7)[j] == lower_bytes(utf8_of(m))[j]);
        assert(lower_bytes(utf8_of(s))[j] == crate::text::lower_byte(utf8_of(s)[j]));
        assert(lower_bytes(utf8_of(m))[j] == crate::text::lower_byte(utf8_of(m)[j]));
        assert(utf8_of(m)[j] == m[j] as u8);
        assert((m[j] as u32) < 128);
    }
    lemma_ascii_byte_prefix(s, 7);
    assert(s.skip(7) =~= s.subrange(7, s.len() as int));
}

/// When the first `k` bytes of a string's encoding are ASCII, they encode
/// its first `k` characters one-for-one, and the rest of the bytes encode
/// the rest of the characters.
proof fn lemma_ascii_byte_prefix(s: Seq<char>, k: int)
    requires
        0 <= k <= utf8_of(s).len(),
        forall|j: int| 0 <= j < k ==> utf8_of(s)[j] < 0x80,
    ensures
        s.len() >= k,
        utf8_of(s).subrange(k, utf8_of(s).len() as int) == utf8_of(s.skip(k)),
    decreases k,
{
    if k > 0 {
        assert(s.len() > 0) by {
            if s.len() == 0 {
                assert(utf8_of(s).len() == 0);
            }
        }
        let c = s[0];
        vstd::utf8::encode_utf8_first_scalar(s);
        let b0 = utf8_of(s)[0];
        assert((b0 & 0x7F) == b0) by (bit_vector)
            requires
                b0 < 0x80,
        ;
        assert(vstd::utf8::length_of_first_scalar(utf8_of(s)) == 1);
        assert(vstd::utf8::pop_first_scalar(utf8_of(s)) =~= utf8_of(s).skip(1));
        assert(utf8_of(s).skip(1) == utf8_of(s.skip(1)));
        assert forall|j: int| 0 <= j < k - 1 implies utf8_of(s.skip(1))[j] < 0x80 by {
            assert(utf8_of(s.skip(1))[j] == utf8_of(s).skip(1)[j]);
            assert(utf8_of(s).skip(1)[j] == utf8_of(s)[j + 1]);
        }
        lemma_ascii_byte_prefix(s.skip(1), k - 1);
        assert(s.skip(1).skip(k - 1) =~= s.skip(k));
        assert(utf8_of(s).subrange(k, utf8_of(s).len() as int) =~= utf8_of(s).skip(1).subrange(
            k - 1,
            utf8_of(s).skip(1).len() as int,
        ));
    } else {
        assert(utf8_of(s).subrange(0, utf8_of(s).len() as int) =~= utf8_of(s));
        assert(s.skip(0) =~= s);
    }
}

/// Ways a security check can fail.
#[derive(Debug, Clone)]
pub enum A2ASecurityError {
    /// TLS required but not present.
    TlsRequired,
    /// The negotiated TLS version is below the floor.
    TlsVersionTooLow {
        /// The configured floor.
        required: TlsVersion,
        /// The negotiated version.
        actual: TlsVersion,
    },
    /// No credentials were presented.
    MissingCredentials,
    /// Credentials were presented but no scheme accepted them.
    InvalidCredentials,
    /// The identity lacks a needed permission.
    InsufficientPermissions(String),
}

/// A2A security enforcer.
pub struct A2ASecurityEnforcer {
    tls_required: bool,
    min_tls_version: TlsVersion,
    auth_required: bool,
    auth_schemes: Vec<AuthScheme>,
}

/// The first scheme in order that accepts the value, with its token.
pub open spec fn first_scheme_token(
    schemes: Seq<AuthScheme>,
    value: Seq<char>,
    i: int,
) -> Option<(AuthScheme, Seq<char>)>
    decreases schemes.len() - i,
    when 0 <= i
{
    if i >= schemes.len() {
        None
    } else {
        match scheme_token(schemes[i], value) {
            Some(tok) => Some((schemes[i], tok)),
            None => first_scheme_token(schemes, value, i + 1),
        }
    }
}

/// The first `authorization` header's value, scanning from `i`.
pub open spec fn auth_header_value(hs: Seq<(String, String)>, i: int) -> Option<Seq<char>>
    decreases hs.len() - i,
    when 0 <= i
{
    if i >= hs.len() {
        None
    } else if lower_bytes(utf8_of(hs[i].0@)) == lower_bytes(utf8_of("authorization"@)) {
        Some(hs[i].1@)
    } else {
        auth_header_value(hs, i + 1)
    }
}

impl A2ASecurityEnforcer {
    /// Whether TLS is required.
    pub closed spec fn requires_tls(&self) -> bool {
        self.tls_required
    }

    /// The TLS version floor.
    pub closed spec fn floor(&self) -> TlsVersion {
        self.min_tls_version
    }

    /// Whether authentication is required.
    pub closed spec fn requires_auth(&self) -> bool {
        self.auth_required
    }

    /// The accepted schemes, in trial order.
    pub closed spec fn schemes(&self) -> Seq<AuthScheme> {
        self.auth_schemes@
    }

    /// An enforcer with a 1.2 floor, optional authentication, and the
    /// bearer-then-API-key scheme order.
    pub fn new(require_tls: bool) -> (r: A2ASecurityEnforcer)
        ensures
            r.requires_tls() == require_tls,
            r.floor() == TlsVersion::Tls12,
            !r.requires_auth(),
            r.schemes() =~= seq![AuthScheme::Bearer, AuthScheme::ApiKey],
    {
        let mut auth_schemes: Vec<AuthScheme> = Vec::new();
        auth_schemes.push(AuthScheme::Bearer);
        auth_schemes.push(AuthScheme::ApiKey);
        let r = A2ASecurityEnforcer {
            tls_required: require_tls,
            min_tls_version: TlsVersion::Tls12,
            auth_required: false,
            auth_schemes,
        };
        proof {
            assert(r.schemes() =~= seq![AuthScheme::Bearer, AuthScheme::ApiKey]);
        }
        r
    }

    /// An enforcer with every knob explicit.
    pub fn with_config(
        require_tls: bool,
        min_tls_version: TlsVersion,
        auth_required: bool,
        auth_schemes: Vec<AuthScheme>,
    ) -> (r: A2ASecurityEnforcer)
        ensures
            r.requires_tls() == require_tls,
            r.floor() == min_tls_version,
            r.requires_auth() == auth_required,
            r.schemes() == auth_schemes@,
    {
        A2ASecurityEnforcer { tls_required: require_tls, min_tls_version, auth_required, auth_schemes }
    }

    /// Check transport security: without a TLS requirement anything
    /// passes; with one, a connection must present TLS at or above the
    /// floor.
    pub fn check_transport(&self, tls_info: Option<&TlsInfo>) -> (r: Result<(), A2ASecurityError>)
        ensures
            !self.requires_tls() ==> r is Ok,
            self.requires_tls() && tls_info is None ==> r matches Err(
                A2ASecurityError::TlsRequired,
            ),
            (self.requires_tls() && tls_info matches Some(t)) ==> (if tls_rank(
                tls_info.unwrap().version,
            ) < tls_rank(self.floor()) {
                r matches Err(A2ASecurityError::TlsVersionTooLow { required, actual }) && required
                    == self.floor() && actual == tls_info.unwrap().version
            } else {
                r is Ok
            }),
    {
        if !self.tls_required {
            return Ok(());
        }
        let tls = match tls_info {
            Some(t) => t,
            None => {
                return Err(A2ASecurityError::TlsRequired);
            },
        };
        if tls.version.rank() < self.min_tls_version.rank() {
            return Err(
                A2ASecurityError::TlsVersionTooLow {
                    required: self.min_tls_version,
                    actual: tls.version,
                },
            );
        }
        Ok(())
    }

    /// Check authentication. When it is not required, an identity is still
    /// extracted opportunistically. When it is required, a missing
    /// `Authorization` header rejects, and the schemes are tried in
    /// order — the first to accept names the identity; none accepting
    /// rejects.
    pub fn check_authentication(&self, headers: &[(String, String)]) -> (r: Result<
        Option<Identity>,
        A2ASecurityError,
    >)
        ensures
            !self.requires_auth() ==> ({
                match auth_header_value(headers@, 0) {
                    Some(v) => match first_scheme_token(self.schemes(), v, 0) {
                        Some(st) => r matches Ok(Some(id)) && id.scheme == st.0
                            && id.identifier@ == st.1,
                        None => r matches Ok(None),
                    },
                    None => r matches Ok(None),
                }
            }),
            self.requires_auth() ==> ({
                match auth_header_value(headers@, 0) {
                    Some(v) => match first_scheme_token(self.schemes(), v, 0) {
                        Some(st) => r matches Ok(Some(id)) && id.scheme == st.0
                            && id.identifier@ == st.1,
                        None => r matches Err(A2ASecurityError::InvalidCredentials),
                    },
                    None => r matches Err(A2ASecurityError::MissingCredentials),
                }
            }),
    {
        let auth_value = self.find_auth_header(headers);
        match auth_value {
            Some(value) => {
                match self.try_schemes(value) {
                    Some(id) => Ok(Some(id)),
                    None => {
                        if self.auth_required {
                            Err(A2ASecurityError::InvalidCredentials)
                        } else {
                            Ok(None)
                        }
                    },
                }
            },
            None => {
                if self.auth_required {
                    Err(A2ASecurityError::MissingCredentials)
                } else {
                    Ok(None)
                }
            },
        }
    }

    /// The first `Authorization` header's value.
    #[verifier::loop_isolation(false)]
    fn find_auth_header<'a>(&self, headers: &'a [(String, String)]) -> (r: Option<&'a str>)
        ensures
            match auth_header_value(headers@, 0) {
                Some(v) => r matches Some(s) && s@ == v,
                None => r is None,
            },
    {
        let mut i: usize = 0;
        while i < headers.len()
            invariant
                i <= headers@.len(),
                auth_header_value(headers@, 0) == auth_header_value(headers@, i as int),
            decreases headers@.len() - i,
        {
            if crate::text::str_eq_ignore_ascii(headers[i].0.as_str(), "authorization") {
                return Some(headers[i].1.as_str());
            }
            i += 1;
        }
        None
    }

    /// Try each scheme in order against the header value.
    #[verifier::loop_isolation(false)]
    fn try_schemes(&self, value: &str) -> (r: Option<Identity>)
        ensures
            match first_scheme_token(self.schemes(), value@, 0) {
                Some(st) => r matches Some(id) && id.scheme == st.0 && id.identifier@ == st.1,
                None => r is None,
            },
    {
        let mut i: usize = 0;
        while i < self.auth_schemes.len()
            invariant
                i <= self.schemes().len(),
                first_scheme_token(self.schemes(), value@, 0) == first_scheme_token(
                    self.schemes(),
                    value@,
                    i as int,
                ),
            decreases self.schemes().len() - i,
        {
            let scheme = self.auth_schemes[i];
            match scheme.validate(value) {
                Some(id) => {
                    return Some(id);
                },
                None => {},
            }
            i += 1;
        }
        None
    }
}

impl Default for A2ASecurityEnforcer {
    /// An enforcer without a TLS requirement.
    fn default() -> (r: A2ASecurityEnforcer)
        ensures
            !r.requires_tls(),
            r.floor() == TlsVersion::Tls12,
    {
        A2ASecurityEnforcer::new(false)
    }
}

} // verus!
