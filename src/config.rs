use crate::json_check::{check_json, well_formed_json};
use crate::registry::Mapping;
use vstd::prelude::*;
use vstd::string::StringExecFns;

verus! {

/// What a JSON document holds at a path, as text, per ajson.
pub uninterp spec fn json_text(doc: Seq<char>, path: Seq<char>) -> Option<Seq<char>>;

/// What kind of JSON value a document holds at a path, per ajson.
pub uninterp spec fn json_kind(doc: Seq<char>, path: Seq<char>) -> Option<ValueKind>;

/// The kinds of JSON value that configuration decoding tells apart.
#[derive(Clone, Copy, Debug, PartialEq, Eq, Structural)]
pub enum ValueKind {
    /// An object or an array.
    Container,
    /// A number that ajson reads as unsigned, with its value.
    Unsigned(u64),
    /// A negative or fractional number.
    OtherNumber,
    /// A string, boolean or null.
    Scalar,
}

/// A path that ajson reads as plain keys and indexes: ASCII letters,
/// digits, `_`, the `.` separator and the `#` count.
pub open spec fn plain_path(p: Seq<char>) -> bool {
    forall|i: int| 0 <= i < p.len() ==> plain_char(#[trigger] p[i])
}

pub open spec fn plain_char(c: char) -> bool {
    ('a' <= c <= 'z') || ('A' <= c <= 'Z') || ('0' <= c <= '9') || c == '_' || c == '.' || c == '#'
}

/// Every part of `path` before a `.` names an object or an array, so that
/// ajson descends into a container at each step.
pub open spec fn descends_through_containers(doc: Seq<char>, path: Seq<char>) -> bool {
    forall|k: int| 0 <= k < path.len() && path[k] == '.' ==> #[trigger] json_kind(doc, path.take(k)) == Some(
        ValueKind::Container,
    )
}

pub open spec fn no_dots(p: Seq<char>) -> bool {
    forall|i: int| 0 <= i < p.len() ==> #[trigger] p[i] != '.'
}

/// Relies on ajson::get, with Value::as_str and Number::to_u64: the value at
/// `path` as text, and its kind, with the number where ajson holds it as
/// unsigned; or nothing where the document has no value there. ajson panics
/// on some text outside `well_formed_json`, builds a regex for wildcard
/// paths, and scans on through the text when a path goes on past a value
/// that is no container, so only admitted text and plain paths that descend
/// through containers are handed to it.
#[verifier::external_body]
fn lookup(doc: &str, path: &str) -> (r: Option<(String, ValueKind)>)
    requires
        well_formed_json(doc@),
        plain_path(path@),
        descends_through_containers(doc@, path@),
    ensures
        match r {
            Some((t, k)) => json_text(doc@, path@) == Some(t@) && json_kind(doc@, path@) == Some(k),
            None => json_text(doc@, path@) is None && json_kind(doc@, path@) is None,
        },
{
    ajson::get(doc, path).map(|v| {
        let kind = match &v {
            ajson::Value::Object(_) | ajson::Value::Array(_) => ValueKind::Container,
            ajson::Value::Number(n @ ajson::Number::U64(_)) => ValueKind::Unsigned(n.to_u64()),
            ajson::Value::Number(_) => ValueKind::OtherNumber,
            _ => ValueKind::Scalar,
        };
        (v.as_str().to_string(), kind)
    })
}

fn lookup_text(doc: &str, path: &str) -> (r: Option<String>)
    requires
        well_formed_json(doc@),
        plain_path(path@),
        descends_through_containers(doc@, path@),
    ensures
        match r {
            Some(t) => json_text(doc@, path@) == Some(t@),
            None => json_text(doc@, path@) is None,
        },
{
    match lookup(doc, path) {
        Some((t, _)) => Some(t),
        None => None,
    }
}

fn lookup_kind(doc: &str, path: &str) -> (r: Option<ValueKind>)
    requires
        well_formed_json(doc@),
        plain_path(path@),
        descends_through_containers(doc@, path@),
    ensures
        r == json_kind(doc@, path@),
{
    match lookup(doc, path) {
        Some((_, k)) => Some(k),
        None => None,
    }
}

/// Why a configuration document was refused.
#[derive(Clone, Copy, Debug, PartialEq, Eq, Structural)]
pub enum ConfigError {
    /// The document is not JSON.
    Malformed,
    /// A field that the role needs is absent.
    MissingField,
    /// `mode` is neither `"server"` nor `"inner_client"`.
    InvalidMode,
    /// A port is outside `1..=65535`.
    PortOutOfRange,
}

/// The two roles a process can run in.
#[derive(Clone, Copy, Debug, PartialEq, Eq, Structural)]
pub enum Role {
    Server,
    InnerClient,
}

/// Settings of the public relay.
#[derive(Clone, Debug, PartialEq, Eq)]
pub struct ServerSettings {
    pub server_addr: String,
    pub server_port: u16,
    pub cert_path: String,
    pub key_path: String,
}

/// Settings of the client behind NAT.
#[derive(Clone, Debug, PartialEq, Eq)]
pub struct ClientSettings {
    pub mappings: Vec<Mapping>,
    pub cafile_path: String,
}

/// A validated configuration: one role with exactly that role's settings.
#[derive(Clone, Debug, PartialEq, Eq)]
pub enum Config {
    Server(ServerSettings),
    InnerClient(ClientSettings),
}

/// A configuration as plain values.
pub enum ConfigView {
    Server { server_addr: Seq<char>, server_port: u16, cert_path: Seq<char>, key_path: Seq<char> },
    InnerClient { mappings: Seq<Mapping>, cafile_path: Seq<char> },
}

pub open spec fn config_view(c: Config) -> ConfigView {
    match c {
        Config::Server(s) => ConfigView::Server {
            server_addr: s.server_addr@,
            server_port: s.server_port,
            cert_path: s.cert_path@,
            key_path: s.key_path@,
        },
        Config::InnerClient(c) => ConfigView::InnerClient { mappings: c.mappings@, cafile_path: c.cafile_path@ },
    }
}

pub open spec fn result_view(r: Result<Config, ConfigError>) -> Result<ConfigView, ConfigError> {
    match r {
        Ok(c) => Ok(config_view(c)),
        Err(e) => Err(e),
    }
}

pub open spec fn role_spec(mode: Seq<char>) -> Result<Role, ConfigError> {
    if mode == "server"@ {
        Ok(Role::Server)
    } else if mode == "inner_client"@ {
        Ok(Role::InnerClient)
    } else {
        Err(ConfigError::InvalidMode)
    }
}

pub open spec fn port_spec(k: Option<ValueKind>) -> Result<u16, ConfigError> {
    match k {
        Some(ValueKind::Unsigned(v)) => if 1 <= v <= 65535 {
            Ok(v as u16)
        } else {
            Err(ConfigError::PortOutOfRange)
        },
        Some(ValueKind::OtherNumber) => Err(ConfigError::PortOutOfRange),
        _ => Err(ConfigError::MissingField),
    }
}

pub open spec fn text_spec(t: Option<Seq<char>>) -> Result<Seq<char>, ConfigError> {
    match t {
        None => Err(ConfigError::MissingField),
        Some(v) => Ok(v),
    }
}

/// Decimal digits of `n`, most significant first.
pub open spec fn decimal(n: nat) -> Seq<char>
    decreases n,
{
    if n < 10 {
        seq![digit_char(n)]
    } else {
        decimal(n / 10).push(digit_char(n % 10))
    }
}

pub open spec fn digit_char(d: nat) -> char {
    if d < 10 {
        ((d + 48) as u8) as char
    } else {
        '?'
    }
}

/// The path of the `i`-th inner host.
pub open spec fn host_path(i: nat) -> Seq<char> {
    "inner_hosts"@ + "."@ + decimal(i)
}

/// The path of a field of the `i`-th inner host.
pub open spec fn host_field_path(i: nat, field: Seq<char>) -> Seq<char> {
    host_path(i) + "."@ + field
}

/// The `i`-th inner host of a document: an object or array holding both
/// ports.
pub open spec fn host_spec(doc: Seq<char>, i: nat) -> Result<Mapping, ConfigError> {
    if json_kind(doc, host_path(i)) != Some(ValueKind::Container) {
        Err(ConfigError::MissingField)
    } else {
        match port_spec(json_kind(doc, host_field_path(i, "local_port"@))) {
            Err(e) => Err(e),
            Ok(l) => match port_spec(json_kind(doc, host_field_path(i, "exposed_port"@))) {
                Err(e) => Err(e),
                Ok(x) => Ok(Mapping { local_port: l, exposed_port: x }),
            },
        }
    }
}

/// The first `n` inner hosts of a document, or the first error among them.
pub open spec fn hosts_spec(doc: Seq<char>, n: nat) -> Result<Seq<Mapping>, ConfigError>
    decreases n,
{
    if n == 0 {
        Ok(Seq::empty())
    } else {
        match hosts_spec(doc, (n - 1) as nat) {
            Err(e) => Err(e),
            Ok(s) => match host_spec(doc, (n - 1) as nat) {
                Err(e) => Err(e),
                Ok(m) => Ok(s.push(m)),
            },
        }
    }
}

/// The configuration that a document describes, field by field in the
/// order they are read; text outside the JSON subset that ajson reads safely
/// is malformed.
pub open spec fn config_of(doc: Seq<char>) -> Result<ConfigView, ConfigError> {
    if !well_formed_json(doc) {
        Err(ConfigError::Malformed)
    } else {
        match text_spec(json_text(doc, "mode"@)) {
            Err(e) => Err(e),
            Ok(mode) => match role_spec(mode) {
                Err(e) => Err(e),
                Ok(Role::InnerClient) => if json_kind(doc, "inner_hosts"@) != Some(ValueKind::Container) {
                    Err(ConfigError::MissingField)
                } else {
                    match json_kind(doc, "inner_hosts.#"@) {
                    Some(ValueKind::Unsigned(n)) => match hosts_spec(doc, n as nat) {
                        Err(e) => Err(e),
                        Ok(ms) => match text_spec(json_text(doc, "cafile_path"@)) {
                            Err(e) => Err(e),
                            Ok(ca) => Ok(ConfigView::InnerClient { mappings: ms, cafile_path: ca }),
                        },
                    },
                    _ => Err(ConfigError::MissingField),
                }
                },
                Ok(Role::Server) => match text_spec(json_text(doc, "server_addr"@)) {
                    Err(e) => Err(e),
                    Ok(addr) => match port_spec(json_kind(doc, "server_port"@)) {
                        Err(e) => Err(e),
                        Ok(port) => match text_spec(json_text(doc, "cert_path"@)) {
                            Err(e) => Err(e),
                            Ok(cert) => match text_spec(json_text(doc, "key_path"@)) {
                                Err(e) => Err(e),
                                Ok(key) => Ok(
                                    ConfigView::Server { server_addr: addr, server_port: port, cert_path: cert, key_path: key },
                                ),
                            },
                        },
                    },
                },
            },
        }
    }
}

/// The role that a `mode` value selects.
pub fn role_of(mode: &str) -> (r: Result<Role, ConfigError>)
    ensures
        r == role_spec(mode@),
{
    let m = String::from_str(mode);
    if m == String::from_str("server") {
        Ok(Role::Server)
    } else if m == String::from_str("inner_client") {
        Ok(Role::InnerClient)
    } else {
        Err(ConfigError::InvalidMode)
    }
}

/// A port field's value: a whole number in `1..=65535`. Any other number
/// is out of range; anything else, or nothing, is a missing port.
pub fn port_of(k: Option<ValueKind>) -> (r: Result<u16, ConfigError>)
    ensures
        r == port_spec(k),
{
    match k {
        Some(ValueKind::Unsigned(v)) => if 1 <= v && v <= 65535 {
            Ok(v as u16)
        } else {
            Err(ConfigError::PortOutOfRange)
        },
        Some(ValueKind::OtherNumber) => Err(ConfigError::PortOutOfRange),
        _ => Err(ConfigError::MissingField),
    }
}

fn text_of(t: Option<String>) -> (r: Result<String, ConfigError>)
    ensures
        match t {
            None => r == Err::<String, ConfigError>(ConfigError::MissingField),
            Some(v) => r matches Ok(x) && x@ == v@,
        },
{
    match t {
        None => Err(ConfigError::MissingField),
        Some(v) => Ok(v),
    }
}

fn digit_text(d: u64) -> (r: &'static str)
    requires
        d < 10,
    ensures
        r@ == seq![digit_char(d as nat)],
{
    proof {
        reveal_strlit("0");
        reveal_strlit("1");
        reveal_strlit("2");
        reveal_strlit("3");
        reveal_strlit("4");
        reveal_strlit("5");
        reveal_strlit("6");
        reveal_strlit("7");
        reveal_strlit("8");
        reveal_strlit("9");
    }
    match d {
        0 => "0",
        1 => "1",
        2 => "2",
        3 => "3",
        4 => "4",
        5 => "5",
        6 => "6",
        7 => "7",
        8 => "8",
        _ => "9",
    }
}

/// `n` written in decimal.
pub fn decimal_text(n: u64) -> (r: String)
    ensures
        r@ == decimal(n as nat),
    decreases n,
{
    if n < 10 {
        String::from_str(digit_text(n))
    } else {
        let mut s = decimal_text(n / 10);
        s.append(digit_text(n % 10));
        s
    }
}

fn host_path_text(i: u64) -> (r: String)
    ensures
        r@ == host_path(i as nat),
{
    let mut p = String::from_str("inner_hosts");
    p.append(".");
    let d = decimal_text(i);
    p.append(d.as_str());
    p
}

fn host_field_path_text(host: &String, field: &str) -> (r: String)
    ensures
        r@ == host@ + "."@ + field@,
{
    let mut p = host.clone();
    p.append(".");
    p.append(field);
    p
}

fn read_host(doc: &str, i: u64) -> (r: Result<Mapping, ConfigError>)
    requires
        well_formed_json(doc@),
        json_kind(doc@, "inner_hosts"@) == Some(ValueKind::Container),
    ensures
        r == host_spec(doc@, i as nat),
{
    let hp = host_path_text(i);
    proof {
        lemma_host_paths(doc@, i as nat);
    }
    if lookup_kind(doc, hp.as_str()) != Some(ValueKind::Container) {
        return Err(ConfigError::MissingField);
    }
    let lp = host_field_path_text(&hp, "local_port");
    let xp = host_field_path_text(&hp, "exposed_port");
    let l = port_of(lookup_kind(doc, lp.as_str()))?;
    let x = port_of(lookup_kind(doc, xp.as_str()))?;
    Ok(Mapping { local_port: l, exposed_port: x })
}

fn read_hosts(doc: &str, n: u64) -> (r: Result<Vec<Mapping>, ConfigError>)
    requires
        well_formed_json(doc@),
        json_kind(doc@, "inner_hosts"@) == Some(ValueKind::Container),
    ensures
        match r {
            Ok(v) => hosts_spec(doc@, n as nat) == Ok::<Seq<Mapping>, ConfigError>(v@),
            Err(e) => hosts_spec(doc@, n as nat) == Err::<Seq<Mapping>, ConfigError>(e),
        },
{
    let mut v: Vec<Mapping> = Vec::new();
    let mut i: u64 = 0;
    while i < n
        invariant
            i <= n,
            well_formed_json(doc@),
            json_kind(doc@, "inner_hosts"@) == Some(ValueKind::Container),
            hosts_spec(doc@, i as nat) == Ok::<Seq<Mapping>, ConfigError>(v@),
        decreases n - i,
    {
        match read_host(doc, i) {
            Ok(m) => v.push(m),
            Err(e) => {
                proof {
                    lemma_hosts_error_stays(doc@, (i + 1) as nat, n as nat, e);
                }
                return Err(e);
            },
        }
        i += 1;
    }
    Ok(v)
}

proof fn lemma_hosts_error_stays(doc: Seq<char>, i: nat, n: nat, e: ConfigError)
    requires
        i <= n,
        hosts_spec(doc, i) == Err::<Seq<Mapping>, ConfigError>(e),
    ensures
        hosts_spec(doc, n) == Err::<Seq<Mapping>, ConfigError>(e),
    decreases n - i,
{
    if i < n {
        lemma_hosts_error_stays(doc, i + 1, n, e);
    }
}

/// Decodes a JSON configuration document into the settings of one role.
pub fn parse_config(doc: &str) -> (r: Result<Config, ConfigError>)
    ensures
        result_view(r) == config_of(doc@),
{
    if !check_json(doc) {
        return Err(ConfigError::Malformed);
    }
    proof {
        lemma_literal_paths(doc@);
    }
    let mode = text_of(lookup_text(doc, "mode"))?;
    match role_of(mode.as_str())? {
        Role::InnerClient => {
            if lookup_kind(doc, "inner_hosts") != Some(ValueKind::Container) {
                return Err(ConfigError::MissingField);
            }
            proof {
                lemma_count_path(doc@);
            }
            let n = match lookup_kind(doc, "inner_hosts.#") {
                Some(ValueKind::Unsigned(n)) => n,
                _ => {
                    return Err(ConfigError::MissingField);
                },
            };
            let mappings = read_hosts(doc, n)?;
            let cafile_path = text_of(lookup_text(doc, "cafile_path"))?;
            Ok(Config::InnerClient(ClientSettings { mappings, cafile_path }))
        },
        Role::Server => {
            let server_addr = text_of(lookup_text(doc, "server_addr"))?;
            let server_port = port_of(lookup_kind(doc, "server_port"))?;
            let cert_path = text_of(lookup_text(doc, "cert_path"))?;
            let key_path = text_of(lookup_text(doc, "key_path"))?;
            Ok(Config::Server(ServerSettings { server_addr, server_port, cert_path, key_path }))
        },
    }
}

/// The server endpoint that an inner client dials: `server_addr` and
/// `server_port` of the document.
pub fn server_endpoint(doc: &str) -> (r: Result<(String, u16), ConfigError>)
    ensures
        match r {
            Ok((a, p)) => text_spec(json_text(doc@, "server_addr"@)) == Ok::<Seq<char>, ConfigError>(a@) && port_spec(
                json_kind(doc@, "server_port"@),
            ) == Ok::<u16, ConfigError>(p) && well_formed_json(doc@),
            Err(e) => !well_formed_json(doc@) && e == ConfigError::Malformed || well_formed_json(doc@) && (text_spec(
                json_text(doc@, "server_addr"@),
            ) == Err::<Seq<char>, ConfigError>(e) || text_spec(json_text(doc@, "server_addr"@)) is Ok && port_spec(
                json_kind(doc@, "server_port"@),
            ) == Err::<u16, ConfigError>(e)),
        },
        well_formed_json(doc@) && text_spec(json_text(doc@, "server_addr"@)) is Ok && port_spec(
            json_kind(doc@, "server_port"@),
        ) is Ok <==> r is Ok,
{
    if !check_json(doc) {
        return Err(ConfigError::Malformed);
    }
    proof {
        lemma_literal_paths(doc@);
    }
    let addr = text_of(lookup_text(doc, "server_addr"))?;
    let port = port_of(lookup_kind(doc, "server_port"))?;
    Ok((addr, port))
}

proof fn lemma_decimal_plain(n: nat)
    ensures
        plain_path(decimal(n)),
    decreases n,
{
    if n >= 10 {
        lemma_decimal_plain(n / 10);
        let d = decimal(n / 10);
        assert forall|i: int| 0 <= i < decimal(n).len() implies plain_char(#[trigger] decimal(n)[i]) by {
            if i < d.len() {
                assert(decimal(n)[i] == d[i]);
            }
        }
    }
}

proof fn lemma_concat_plain(a: Seq<char>, b: Seq<char>)
    requires
        plain_path(a),
        plain_path(b),
    ensures
        plain_path(a + b),
{
    assert forall|i: int| 0 <= i < (a + b).len() implies plain_char(#[trigger] (a + b)[i]) by {
        if i < a.len() {
            assert((a + b)[i] == a[i]);
        } else {
            assert((a + b)[i] == b[i - a.len()]);
        }
    }
}

proof fn lemma_no_dots_descends(doc: Seq<char>, p: Seq<char>)
    requires
        no_dots(p),
    ensures
        descends_through_containers(doc, p),
{
}

proof fn lemma_descend_one(doc: Seq<char>, x: Seq<char>, y: Seq<char>)
    requires
        descends_through_containers(doc, x),
        json_kind(doc, x) == Some(ValueKind::Container),
        no_dots(y),
    ensures
        descends_through_containers(doc, x + seq!['.'] + y),
{
    let p = x + seq!['.'] + y;
    assert forall|k: int| 0 <= k < p.len() && p[k] == '.' implies #[trigger] json_kind(doc, p.take(k)) == Some(
        ValueKind::Container,
    ) by {
        if k < x.len() {
            assert(p[k] == x[k]);
            assert(p.take(k) =~= x.take(k));
        } else if k == x.len() {
            assert(p.take(k) =~= x);
        } else {
            assert(p[k] == y[k - x.len() - 1]);
        }
    }
}

proof fn lemma_decimal_no_dots(n: nat)
    ensures
        no_dots(decimal(n)),
        plain_path(decimal(n)),
    decreases n,
{
    lemma_decimal_plain(n);
    if n >= 10 {
        lemma_decimal_no_dots(n / 10);
        let d = decimal(n / 10);
        assert forall|i: int| 0 <= i < decimal(n).len() implies #[trigger] decimal(n)[i] != '.' by {
            if i < d.len() {
                assert(decimal(n)[i] == d[i]);
            }
        }
    }
}

proof fn lemma_literal_paths(doc: Seq<char>)
    ensures
        plain_path("mode"@) && descends_through_containers(doc, "mode"@),
        plain_path("inner_hosts"@) && descends_through_containers(doc, "inner_hosts"@),
        plain_path("cafile_path"@) && descends_through_containers(doc, "cafile_path"@),
        plain_path("server_addr"@) && descends_through_containers(doc, "server_addr"@),
        plain_path("server_port"@) && descends_through_containers(doc, "server_port"@),
        plain_path("cert_path"@) && descends_through_containers(doc, "cert_path"@),
        plain_path("key_path"@) && descends_through_containers(doc, "key_path"@),
{
    reveal_strlit("mode");
    reveal_strlit("inner_hosts");
    reveal_strlit("cafile_path");
    reveal_strlit("server_addr");
    reveal_strlit("server_port");
    reveal_strlit("cert_path");
    reveal_strlit("key_path");
    lemma_no_dots_descends(doc, "mode"@);
    lemma_no_dots_descends(doc, "inner_hosts"@);
    lemma_no_dots_descends(doc, "cafile_path"@);
    lemma_no_dots_descends(doc, "server_addr"@);
    lemma_no_dots_descends(doc, "server_port"@);
    lemma_no_dots_descends(doc, "cert_path"@);
    lemma_no_dots_descends(doc, "key_path"@);
}

proof fn lemma_count_path(doc: Seq<char>)
    requires
        json_kind(doc, "inner_hosts"@) == Some(ValueKind::Container),
    ensures
        plain_path("inner_hosts.#"@),
        descends_through_containers(doc, "inner_hosts.#"@),
{
    lemma_literal_paths(doc);
    reveal_strlit("inner_hosts.#");
    reveal_strlit("inner_hosts");
    assert("inner_hosts.#"@ =~= "inner_hosts"@ + seq!['.'] + seq!['#']);
    lemma_descend_one(doc, "inner_hosts"@, seq!['#']);
}

proof fn lemma_host_paths(doc: Seq<char>, i: nat)
    requires
        json_kind(doc, "inner_hosts"@) == Some(ValueKind::Container),
    ensures
        plain_path(host_path(i)),
        descends_through_containers(doc, host_path(i)),
        json_kind(doc, host_path(i)) == Some(ValueKind::Container) ==> {
            &&& plain_path(host_field_path(i, "local_port"@))
            &&& descends_through_containers(doc, host_field_path(i, "local_port"@))
            &&& plain_path(host_field_path(i, "exposed_port"@))
            &&& descends_through_containers(doc, host_field_path(i, "exposed_port"@))
        },
{
    lemma_literal_paths(doc);
    reveal_strlit("inner_hosts");
    reveal_strlit(".");
    reveal_strlit("local_port");
    reveal_strlit("exposed_port");
    assert("."@ =~= seq!['.']);
    lemma_decimal_no_dots(i);
    lemma_descend_one(doc, "inner_hosts"@, decimal(i));
    lemma_concat_plain("inner_hosts"@, "."@);
    lemma_concat_plain("inner_hosts"@ + "."@, decimal(i));
    let h = host_path(i);
    if json_kind(doc, h) == Some(ValueKind::Container) {
        lemma_descend_one(doc, h, "local_port"@);
        lemma_descend_one(doc, h, "exposed_port"@);
        lemma_concat_plain(h, "."@);
        lemma_concat_plain(h + "."@, "local_port"@);
        lemma_concat_plain(h + "."@, "exposed_port"@);
    }
}

} // verus!
