use vstd::prelude::*;
use crate::error::{DbError, ErrorKind};
use crate::project::{digest_label, hash_str, sha256_of};
use crate::text::{chars_of, concat, copy_opt, copy_range, push_text, string_of, text_eq};

verus! {

/// Backend kinds. A kind may be recognised before a client implements it.
#[derive(Debug, Clone, Copy, PartialEq, Eq, Structural)]
pub enum DatabaseType {
    Postgres,
    MySql,
}

/// Port a Postgres server listens on unless told otherwise.
pub const DEFAULT_POSTGRES_PORT: u16 = 5432;

/// Port a MySQL server listens on unless told otherwise.
pub const DEFAULT_MYSQL_PORT: u16 = 3306;

pub open spec fn default_port_of(k: DatabaseType) -> u16 {
    match k {
        DatabaseType::Postgres => DEFAULT_POSTGRES_PORT,
        DatabaseType::MySql => DEFAULT_MYSQL_PORT,
    }
}

/// The backend kind a connection string's scheme names. Only the schemes of
/// a backend with a client are read; any other is unsupported.
pub open spec fn scheme_kind(s: Seq<char>) -> Option<DatabaseType> {
    if s == "postgres"@ || s == "postgresql"@ {
        Some(DatabaseType::Postgres)
    } else {
        None
    }
}

/// The scheme written for a backend kind.
pub open spec fn scheme_of(k: DatabaseType) -> Seq<char> {
    match k {
        DatabaseType::Postgres => "postgres"@,
        DatabaseType::MySql => "mysql"@,
    }
}

impl DatabaseType {
    /// The port the backend listens on unless told otherwise.
    pub fn default_port(&self) -> (r: u16)
        ensures
            r == default_port_of(*self),
    {
        match self {
            DatabaseType::Postgres => DEFAULT_POSTGRES_PORT,
            DatabaseType::MySql => DEFAULT_MYSQL_PORT,
        }
    }
}

/// A named connection: either a connection string, or discrete fields.
#[derive(Debug, Clone)]
pub struct ConnectionConfig {
    pub id: String,
    pub name: String,
    pub db_type: DatabaseType,
    pub connection_string: Option<String>,
    pub host: Option<String>,
    pub port: Option<u16>,
    pub database: Option<String>,
    pub username: Option<String>,
    pub password: Option<String>,
    /// Query parameters of the connection URL, in order
    pub options: Vec<(String, String)>,
    pub ssl_enabled: bool,
}

pub open spec fn opt_view(o: Option<String>) -> Option<Seq<char>> {
    match o {
        Some(s) => Some(s@),
        None => None,
    }
}

pub open spec fn or_default(o: Option<Seq<char>>, d: Seq<char>) -> Seq<char> {
    match o {
        Some(s) => s,
        None => d,
    }
}

pub open spec fn pair_views(v: Seq<(String, String)>) -> Seq<(Seq<char>, Seq<char>)> {
    v.map_values(|p: (String, String)| (p.0@, p.1@))
}

/// The components of a URL as the URL parser reports them.
#[derive(Debug)]
pub struct UrlParts {
    pub scheme: String,
    pub username: String,
    pub password: Option<String>,
    pub host: Option<String>,
    pub port: Option<u16>,
    pub path: String,
    pub query: Vec<(String, String)>,
}

/// Scheme, user name, password, host, port, path and query pairs.
pub type UrlView = (
    Seq<char>,
    Seq<char>,
    Option<Seq<char>>,
    Option<Seq<char>>,
    Option<u16>,
    Seq<char>,
    Seq<(Seq<char>, Seq<char>)>,
);

impl View for UrlParts {
    type V = UrlView;

    open spec fn view(&self) -> UrlView {
        (
            self.scheme@,
            self.username@,
            opt_view(self.password),
            opt_view(self.host),
            self.port,
            self.path@,
            pair_views(self.query@),
        )
    }
}

/// What `url::Url::parse` reads from a text: its components, or the text of
/// the parse error.
pub uninterp spec fn parsed_url(s: Seq<char>) -> Result<UrlView, Seq<char>>;

/// Relies on `url::Url::parse` and the accessors `scheme`, `username`,
/// `password`, `host_str`, `port`, `path` and `query_pairs` of its result;
/// on failure, the `Display` text of its `ParseError`.
#[verifier::external_body]
pub(crate) fn parse_url(s: &str) -> (r: Result<UrlParts, String>)
    ensures
        match r {
            Ok(p) => parsed_url(s@) == Ok::<UrlView, Seq<char>>(p@),
            Err(e) => parsed_url(s@) == Err::<UrlView, Seq<char>>(e@),
        },
{
    let u = url::Url::parse(s).map_err(|e| e.to_string())?;
    Ok(UrlParts {
        scheme: u.scheme().to_string(),
        username: u.username().to_string(),
        password: u.password().map(|p| p.to_string()),
        host: u.host_str().map(|h| h.to_string()),
        port: u.port(),
        path: u.path().to_string(),
        query: u.query_pairs().map(|(k, v)| (k.into_owned(), v.into_owned())).collect(),
    })
}

/// The URL text that `url::Url` serialises for a scheme, host, port, user
/// name, password and path, if its setters accept them.
pub uninterp spec fn written_url(p: UrlView) -> Option<Seq<char>>;

/// Relies on `url::Url::parse` of `<scheme>://` and the setters `set_host`,
/// `set_port`, `set_username`, `set_password` and `set_path`, which
/// percent-encode what they are given. The query pairs are not written here.
#[verifier::external_body]
fn write_url(p: &UrlParts) -> (r: Option<String>)
    ensures
        r is Some ==> written_url(p@) == Some(r->Some_0@),
        r is None ==> written_url(p@) is None,
{
    let mut u = url::Url::parse(&format!("{}://", p.scheme)).ok()?;
    u.set_host(p.host.as_deref()).ok()?;
    u.set_port(p.port).ok()?;
    u.set_username(&p.username).ok()?;
    u.set_password(p.password.as_deref()).ok()?;
    u.set_path(&p.path);
    Some(u.to_string())
}

/// The URL text after appending form-encoded query pairs to a URL.
pub uninterp spec fn url_with_query(u: Seq<char>, q: Seq<(Seq<char>, Seq<char>)>) -> Option<Seq<char>>;

/// Relies on `url::Url::parse` and `query_pairs_mut().extend_pairs`, which
/// form-encodes each pair.
#[verifier::external_body]
fn append_query(u: &str, q: &Vec<(String, String)>) -> (r: Option<String>)
    ensures
        r is Some ==> url_with_query(u@, pair_views(q@)) == Some(r->Some_0@),
        r is None ==> url_with_query(u@, pair_views(q@)) is None,
{
    let mut url = url::Url::parse(u).ok()?;
    url.query_pairs_mut().extend_pairs(q.iter().map(|(k, v)| (k.as_str(), v.as_str())));
    Some(url.to_string())
}

/// `s` without its leading `/` characters.
pub open spec fn trim_slashes(s: Seq<char>) -> Seq<char>
    decreases s.len(),
{
    if s.len() > 0 && s[0] == '/' {
        trim_slashes(s.drop_first())
    } else {
        s
    }
}

/// Where a connection goes: host, port, database, user name, password, options.
pub type Target = (Seq<char>, u16, Seq<char>, Seq<char>, Seq<char>, Seq<(Seq<char>, Seq<char>)>);

/// The target that URL components denote for a backend kind, with the
/// defaults for what is absent.
pub open spec fn url_target(p: UrlView, k: DatabaseType) -> Target {
    (
        or_default(p.3, "localhost"@),
        match p.4 {
            Some(n) => n,
            None => default_port_of(k),
        },
        trim_slashes(p.5),
        p.1,
        or_default(p.2, ""@),
        p.6,
    )
}

/// The target of a configuration's discrete fields, with the defaults for
/// what is absent.
pub open spec fn config_target(c: ConnectionConfig) -> Target {
    (
        or_default(opt_view(c.host), "localhost"@),
        match c.port {
            Some(n) => n,
            None => default_port_of(c.db_type),
        },
        or_default(opt_view(c.database), ""@),
        or_default(opt_view(c.username), ""@),
        or_default(opt_view(c.password), ""@),
        pair_views(c.options@),
    )
}

/// `c` is the configuration read from the connection string `input`, whose
/// URL components are `p`.
pub open spec fn config_from_url_spec(c: ConnectionConfig, input: Seq<char>, p: UrlView) -> bool {
    let t = url_target(p, c.db_type);
    &&& scheme_kind(p.0) == Some(c.db_type)
    &&& opt_view(c.connection_string) == Some(input)
    &&& opt_view(c.host) == Some(t.0)
    &&& c.port == Some(t.1)
    &&& opt_view(c.database) == Some(t.2)
    &&& opt_view(c.username) == Some(t.3)
    &&& opt_view(c.password) == Some(t.4)
    &&& pair_views(c.options@) == t.5
    &&& c.name@ == t.2 + " on "@ + t.0
    &&& !c.ssl_enabled
}

fn copy_text(s: &String) -> (r: String)
    ensures
        r@ == s@,
{
    s.clone()
}

fn copy_pairs(v: &Vec<(String, String)>) -> (r: Vec<(String, String)>)
    ensures
        r@ == v@,
{
    let mut r: Vec<(String, String)> = Vec::new();
    let mut i: usize = 0;
    while i < v.len()
        invariant
            i <= v@.len(),
            r@ == v@.take(i as int),
        decreases v@.len() - i,
    {
        r.push((v[i].0.clone(), v[i].1.clone()));
        assert(r@ =~= v@.take(i + 1));
        i = i + 1;
    }
    assert(v@.take(v@.len() as int) =~= v@);
    r
}

/// The two configurations agree field for field.
pub open spec fn same_config(a: ConnectionConfig, b: ConnectionConfig) -> bool {
    &&& a.id == b.id
    &&& a.name == b.name
    &&& a.db_type == b.db_type
    &&& a.connection_string == b.connection_string
    &&& a.host == b.host
    &&& a.port == b.port
    &&& a.database == b.database
    &&& a.username == b.username
    &&& a.password == b.password
    &&& a.options@ == b.options@
    &&& a.ssl_enabled == b.ssl_enabled
}

impl ConnectionConfig {
    /// A field-for-field copy.
    pub fn duplicate(&self) -> (r: ConnectionConfig)
        ensures
            same_config(r, *self),
    {
        ConnectionConfig {
            id: self.id.clone(),
            name: self.name.clone(),
            db_type: self.db_type,
            connection_string: copy_opt(&self.connection_string),
            host: copy_opt(&self.host),
            port: self.port,
            database: copy_opt(&self.database),
            username: copy_opt(&self.username),
            password: copy_opt(&self.password),
            options: copy_pairs(&self.options),
            ssl_enabled: self.ssl_enabled,
        }
    }
}

/// The text after its leading `/` characters.
fn strip_slashes(s: &str) -> (r: String)
    ensures
        r@ == trim_slashes(s@),
{
    let cs = chars_of(s);
    let mut i: usize = 0;
    assert(cs@.subrange(0, cs@.len() as int) =~= cs@);
    while i < cs.len() && cs[i] == '/'
        invariant
            cs@ == s@,
            i <= cs@.len(),
            trim_slashes(s@) == trim_slashes(cs@.subrange(i as int, cs@.len() as int)),
        decreases cs@.len() - i,
    {
        assert(cs@.subrange(i as int, cs@.len() as int).drop_first() =~= cs@.subrange(
            i + 1,
            cs@.len() as int,
        ));
        i = i + 1;
    }
    assert(i == 0 ==> cs@.subrange(0, cs@.len() as int) =~= cs@);
    let rest = copy_range(cs.as_slice(), i, cs.len());
    string_of(rest.as_slice())
}

fn concat3(a: &str, b: &str, c: &str) -> (r: String)
    ensures
        r@ == a@ + b@ + c@,
{
    let mut out: Vec<char> = Vec::new();
    push_text(&mut out, a);
    push_text(&mut out, b);
    push_text(&mut out, c);
    string_of(out.as_slice())
}

/// The configuration that the URL components `url` of the connection string
/// `input` describe, under the id `id`. Absent host, port and password take
/// their defaults (`localhost`, the backend's port, empty); the database is
/// the path without its leading slashes; the name is `<database> on <host>`.
/// Only the schemes `postgres` and `postgresql` are supported; any other is
/// a configuration error.
pub fn config_from_url(input: &str, id: String, url: &UrlParts) -> (r: Result<ConnectionConfig, DbError>)
    ensures
        scheme_kind(url@.0) is Some ==> r is Ok && config_from_url_spec(r->Ok_0, input@, url@)
            && r->Ok_0.id == id,
        scheme_kind(url@.0) is None ==> r is Err && r->Err_0@ == (
            ErrorKind::Config,
            "Unsupported database type: "@ + url@.0,
        ),
{
    proof {
        reveal_strlit("");
    }
    let db_type = if text_eq(url.scheme.as_str(), "postgres") || text_eq(url.scheme.as_str(), "postgresql") {
        DatabaseType::Postgres
    } else {
        let msg = concat3("Unsupported database type: ", url.scheme.as_str(), "");
        assert(msg@ =~= "Unsupported database type: "@ + url@.0);
        return Err(DbError::Config(msg));
    };
    let host = match &url.host {
        Some(h) => copy_text(h),
        None => String::from_str("localhost"),
    };
    let port = match url.port {
        Some(n) => n,
        None => db_type.default_port(),
    };
    let database = strip_slashes(url.path.as_str());
    let password = match &url.password {
        Some(p) => copy_text(p),
        None => String::from_str(""),
    };
    let name = concat3(database.as_str(), " on ", host.as_str());
    let c = ConnectionConfig {
        id,
        name,
        db_type,
        connection_string: Some(String::from_str(input)),
        host: Some(host),
        port: Some(port),
        database: Some(database),
        username: Some(copy_text(&url.username)),
        password: Some(password),
        options: copy_pairs(&url.query),
        ssl_enabled: false,
    };
    assert(pair_views(c.options@) =~= pair_views(url.query@));
    Ok(c)
}

/// Parses a connection string into a configuration whose id is the hash
/// label of the string. Fails with a configuration error when the text is
/// not a URL (`Invalid connection URL: ` and the parser's message), or its
/// scheme is not `postgres` or `postgresql`.
pub fn parse_connection_string(connection_string: &str) -> (r: Result<ConnectionConfig, DbError>)
    ensures
        match parsed_url(connection_string@) {
            Err(e) => r is Err && r->Err_0@ == (ErrorKind::Config, "Invalid connection URL: "@ + e),
            Ok(p) => if scheme_kind(p.0) is Some {
                r is Ok && config_from_url_spec(r->Ok_0, connection_string@, p) && r->Ok_0.id@
                    == digest_label(sha256_of(connection_string@))
            } else {
                r is Err && r->Err_0@ == (ErrorKind::Config, "Unsupported database type: "@ + p.0)
            },
        },
{
    match parse_url(connection_string) {
        Err(e) => Err(DbError::Config(concat("Invalid connection URL: ", e.as_str()))),
        Ok(p) => {
            let id = hash_str(connection_string);
            config_from_url(connection_string, id, &p)
        },
    }
}

/// The URL components that resolving writes for a configuration's discrete
/// fields (the options are appended afterwards).
pub open spec fn url_parts_for(c: ConnectionConfig) -> UrlView {
    let t = config_target(c);
    (scheme_of(c.db_type), t.3, Some(t.4), Some(t.0), Some(t.1), "/"@ + t.2, Seq::empty())
}

/// The connection URL for a configuration's discrete fields, if the URL
/// writer accepts them.
pub open spec fn resolved_url(c: ConnectionConfig) -> Option<Seq<char>> {
    match written_url(url_parts_for(c)) {
        None => None,
        Some(u) => if c.options@.len() == 0 {
            Some(u)
        } else {
            url_with_query(u, pair_views(c.options@))
        },
    }
}

/// Resolves a configuration to its connection string: the stored string if
/// there is one, else a URL of the backend's scheme written from host,
/// port, database, user name, password and options. Host, database and user
/// name are required; port and password default to the backend's port and
/// empty.
pub fn resolve_connection_string(config: &ConnectionConfig) -> (r: Result<String, DbError>)
    ensures
        (r is Ok) == resolvable(*config),
        r is Ok ==> r->Ok_0@ == resolved_text(*config),
        r is Err ==> r->Err_0@ == resolve_error(*config),
{
    if let Some(s) = &config.connection_string {
        return Ok(copy_text(s));
    }
    let host = match &config.host {
        Some(h) => h,
        None => return Err(DbError::Config(String::from_str("Host is required"))),
    };
    let database = match &config.database {
        Some(d) => d,
        None => return Err(DbError::Config(String::from_str("Database name is required"))),
    };
    let username = match &config.username {
        Some(u) => u,
        None => return Err(DbError::Config(String::from_str("Username is required"))),
    };
    let password = match &config.password {
        Some(p) => copy_text(p),
        None => String::from_str(""),
    };
    let port = match config.port {
        Some(n) => n,
        None => config.db_type.default_port(),
    };
    let scheme = match config.db_type {
        DatabaseType::Postgres => String::from_str("postgres"),
        DatabaseType::MySql => String::from_str("mysql"),
    };
    let parts = UrlParts {
        scheme,
        username: copy_text(username),
        password: Some(password),
        host: Some(copy_text(host)),
        port: Some(port),
        path: concat3("/", database.as_str(), ""),
        query: Vec::new(),
    };
    proof {
        reveal_strlit("");
    }
    assert(parts.path@ =~= "/"@ + database@);
    assert(parts@ =~= url_parts_for(*config));
    let written = match write_url(&parts) {
        Some(u) => u,
        None => return Err(DbError::Config(String::from_str("Cannot write a connection URL"))),
    };
    if config.options.len() == 0 {
        return Ok(written);
    }
    match append_query(written.as_str(), &config.options) {
        Some(u) => Ok(u),
        None => Err(DbError::Config(String::from_str("Cannot write a connection URL"))),
    }
}

/// Whether a configuration resolves to a connection string: it holds one,
/// or its host, database and user name are present and the URL writer
/// accepts them.
pub open spec fn resolvable(c: ConnectionConfig) -> bool {
    c.connection_string is Some || (is_complete(c) && resolved_url(c) is Some)
}

/// The connection string a resolvable configuration resolves to.
pub open spec fn resolved_text(c: ConnectionConfig) -> Seq<char> {
    match c.connection_string {
        Some(s) => s@,
        None => resolved_url(c)->Some_0,
    }
}

/// The error for a configuration that does not resolve: the first required
/// field that is missing, else the URL writer's refusal.
pub open spec fn resolve_error(c: ConnectionConfig) -> (ErrorKind, Seq<char>) {
    if c.host is None {
        (ErrorKind::Config, "Host is required"@)
    } else if c.database is None {
        (ErrorKind::Config, "Database name is required"@)
    } else if c.username is None {
        (ErrorKind::Config, "Username is required"@)
    } else {
        (ErrorKind::Config, "Cannot write a connection URL"@)
    }
}

/// A configuration whose host, database and user name are all present.
pub open spec fn is_complete(c: ConnectionConfig) -> bool {
    c.host is Some && c.database is Some && c.username is Some
}

/// Round trip of the components: for a complete Postgres configuration whose
/// database name does not start with `/`, the URL components that resolving
/// writes (with the options as query pairs) are read back, by the same rules
/// that parsing applies, as the configuration's own target. What remains of
/// the textual round trip is the URL writer and parser reading back each
/// other's components.
pub proof fn lemma_components_round_trip(c: ConnectionConfig)
    requires
        c.db_type == DatabaseType::Postgres,
        is_complete(c),
        !(c.database->Some_0@.len() > 0 && c.database->Some_0@[0] == '/'),
    ensures
        scheme_kind(url_parts_for(c).0) == Some(c.db_type),
        ({
            let p = url_parts_for(c);
            url_target((p.0, p.1, p.2, p.3, p.4, p.5, pair_views(c.options@)), c.db_type)
        }) == config_target(c),
{
    let d = c.database->Some_0@;
    reveal_strlit("/");
    reveal_strlit("postgres");
    reveal_strlit("postgresql");
    assert(("/"@ + d).drop_first() =~= d);
    assert(("/"@ + d)[0] == '/');
    assert(trim_slashes("/"@ + d) == trim_slashes(d));
    assert(trim_slashes(d) == d);
}

} // verus!
