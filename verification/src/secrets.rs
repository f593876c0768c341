//! The stored credentials: one JSON blob with host and token.

use vstd::prelude::*;
use vstd::string::*;

use crate::error::Error;

verus! {

#[derive(Debug)]
pub struct Credentials {
    pub host: String,
    pub token: String,
}

impl Clone for Credentials {
    fn clone(&self) -> (r: Self)
        ensures
            r == *self,
    {
        Credentials { host: self.host.clone(), token: self.token.clone() }
    }
}

/// The text of the member `key` of the JSON object that `bytes` hold: `Ok(None)`
/// where there is no such text, the parser's message where they hold no JSON.
pub uninterp spec fn json_member(bytes: Seq<u8>, key: Seq<char>) -> Result<
    Option<Seq<char>>,
    Seq<char>,
>;

/// What a member that was read stands for.
pub open spec fn member_text(r: Result<Option<String>, String>) -> Result<
    Option<Seq<char>>,
    Seq<char>,
> {
    match r {
        Ok(Some(s)) => Ok(Some(s@)),
        Ok(None) => Ok(None),
        Err(e) => Err(e@),
    }
}

/// A member that is there, with its text.
pub open spec fn found(t: Seq<char>) -> Result<Option<Seq<char>>, Seq<char>> {
    Ok(Some(t))
}

/// Calls `serde_json::from_slice` and reads the member `key` of the value as a
/// string. The result is a function of the arguments alone and goes by the name
/// [`json_member`].
#[verifier::external_body]
fn read_member(bytes: &Vec<u8>, key: &str) -> (r: Result<Option<String>, String>)
    ensures
        member_text(r) == json_member(bytes@, key@),
{
    match serde_json::from_slice::<serde_json::Value>(bytes) {
        Ok(v) => Ok(v[key].as_str().map(|s| s.to_string())),
        Err(e) => Err(e.to_string()),
    }
}

/// The bytes of the JSON object with two text members.
pub uninterp spec fn json_object(
    key1: Seq<char>,
    text1: Seq<char>,
    key2: Seq<char>,
    text2: Seq<char>,
) -> Seq<u8>;

/// Calls `serde_json::to_vec` on an object with two text members. The bytes are
/// a function of the arguments alone and go by the name [`json_object`]; an
/// object of texts is always serialised, and where the keys differ, reading
/// each member back gives its text. Keys that begin with `$` are left out: the
/// parser keeps some of them for itself.
#[verifier::external_body]
fn write_members(key1: &str, text1: &str, key2: &str, text2: &str) -> (r: Result<Vec<u8>, String>)
    requires
        key1@.len() > 0 && key1@[0] != '$',
        key2@.len() > 0 && key2@[0] != '$',
    ensures
        r is Ok,
        r->Ok_0@ == json_object(key1@, text1@, key2@, text2@),
        key1@ != key2@ ==> json_member(r->Ok_0@, key1@) == found(text1@),
        key1@ != key2@ ==> json_member(r->Ok_0@, key2@) == found(text2@),
{
    let mut m = serde_json::Map::new();
    m.insert(key1.to_string(), serde_json::Value::String(text1.to_string()));
    m.insert(key2.to_string(), serde_json::Value::String(text2.to_string()));
    serde_json::to_vec(&m).map_err(|e| e.to_string())
}

/// The blob that credentials are stored as.
pub fn encode(creds: &Credentials) -> (r: Result<Vec<u8>, Error>)
    ensures
        r matches Ok(b) && b@ == json_object("host"@, creds.host@, "token"@, creds.token@)
            && decoded(b@) == Ok::<(Seq<char>, Seq<char>), Seq<char>>(
            (creds.host@, creds.token@),
        ),
{
    proof {
        reveal_strlit("host");
        reveal_strlit("token");
        assert("host"@[0] == 'h' && "token"@[0] == 't');
    }
    match write_members("host", creds.host.as_str(), "token", creds.token.as_str()) {
        Ok(b) => Ok(b),
        Err(e) => Err(Error::Json(e)),
    }
}

/// The host and token in a stored blob, or the message of the error.
pub open spec fn decoded(bytes: Seq<u8>) -> Result<(Seq<char>, Seq<char>), Seq<char>> {
    credentials_in(json_member(bytes, "host"@), json_member(bytes, "token"@))
}

/// The credentials that the two members of a stored blob make up.
pub open spec fn credentials_in(
    host: Result<Option<Seq<char>>, Seq<char>>,
    token: Result<Option<Seq<char>>, Seq<char>>,
) -> Result<(Seq<char>, Seq<char>), Seq<char>> {
    match (host, token) {
        (Err(e), _) => Err("JSON error: "@ + e),
        (Ok(None), _) => Err("secret store: "@ + "stored secret missing 'host'"@),
        (Ok(Some(_)), Err(e)) => Err("JSON error: "@ + e),
        (Ok(Some(_)), Ok(None)) => Err("secret store: "@ + "stored secret missing 'token'"@),
        (Ok(Some(h)), Ok(Some(t))) => Ok((h, t)),
    }
}

/// The credentials that the two members of a stored blob make up.
pub fn assemble(
    host: Result<Option<String>, String>,
    token: Result<Option<String>, String>,
) -> (r: Result<Credentials, Error>)
    ensures
        match credentials_in(member_text(host), member_text(token)) {
            Ok((h, t)) => r matches Ok(c) && c.host@ == h && c.token@ == t,
            Err(m) => r matches Err(e) && crate::error::error_text(e) == m,
        },
{
    match host {
        Err(e) => Err(Error::Json(e)),
        Ok(None) => Err(Error::Secrets("stored secret missing 'host'".to_owned())),
        Ok(Some(host)) => match token {
            Err(e) => Err(Error::Json(e)),
            Ok(None) => Err(Error::Secrets("stored secret missing 'token'".to_owned())),
            Ok(Some(token)) => Ok(Credentials { host, token }),
        },
    }
}

/// The credentials in a stored blob.
pub fn decode(bytes: &Vec<u8>) -> (r: Result<Credentials, Error>)
    ensures
        match decoded(bytes@) {
            Ok((h, t)) => r matches Ok(c) && c.host@ == h && c.token@ == t,
            Err(m) => r matches Err(e) && crate::error::error_text(e) == m,
        },
{
    let host = read_member(bytes, "host");
    let token = read_member(bytes, "token");
    assemble(host, token)
}

/// Stored credentials are read where both members are there, each as what it is;
/// what is missing is named, and what cannot be parsed is reported.
pub proof fn law_credentials_are_read(
    host: Result<Option<Seq<char>>, Seq<char>>,
    token: Result<Option<Seq<char>>, Seq<char>>,
)
    ensures
        credentials_in(host, token) is Ok <==> (host is Ok && host->Ok_0 is Some && token is Ok
            && token->Ok_0 is Some),
        credentials_in(host, token) is Ok ==> credentials_in(host, token)->Ok_0.0 == host->Ok_0->0
            && credentials_in(host, token)->Ok_0.1 == token->Ok_0->0,
        host is Err ==> credentials_in(host, token) == Err::<(Seq<char>, Seq<char>), Seq<char>>(
            "JSON error: "@ + host->Err_0,
        ),
        host == Ok::<Option<Seq<char>>, Seq<char>>(None) ==> credentials_in(host, token) == Err::<
            (Seq<char>, Seq<char>),
            Seq<char>,
        >("secret store: "@ + "stored secret missing 'host'"@),
        host is Ok && host->Ok_0 is Some && token == Ok::<Option<Seq<char>>, Seq<char>>(None)
            ==> credentials_in(host, token) == Err::<(Seq<char>, Seq<char>), Seq<char>>(
            "secret store: "@ + "stored secret missing 'token'"@,
        ),
{
}

} // verus!
