use vstd::prelude::*;
use crate::text::{concat, push_text, string_of};
use vstd::string::StringSliceAdditionalSpecFns;
use vstd::utf8::{encode_utf8, is_char_boundary};

verus! {

/// SHA-256 digest of the UTF-8 bytes of a text.
pub uninterp spec fn sha256_of(s: Seq<char>) -> Seq<u8>;

/// Relies on `sha2::Sha256::digest`: the SHA-256 digest of the text's UTF-8
/// bytes, which is 32 bytes long.
#[verifier::external_body]
fn sha256_text(s: &str) -> (r: Vec<u8>)
    ensures
        r@ == sha256_of(s@),
        r@.len() == 32,
{
    <sha2::Sha256 as sha2::Digest>::digest(s.as_bytes()).to_vec()
}

/// The lower-case hexadecimal digit for `d < 16`.
pub open spec fn hex_digit(d: nat) -> char {
    if d < 10 {
        crate::text::digit_char(d)
    } else if d == 10 { 'a' } else if d == 11 { 'b' } else if d == 12 { 'c' }
    else if d == 13 { 'd' } else if d == 14 { 'e' } else { 'f' }
}

/// Lower-case hexadecimal notation of `n`, without leading zeros.
pub open spec fn hex_of(n: nat) -> Seq<char>
    decreases n,
{
    if n < 16 {
        seq![hex_digit(n)]
    } else {
        hex_of(n / 16).push(hex_digit(n % 16))
    }
}

fn hex_char(d: u64) -> (r: char)
    requires
        d < 16,
    ensures
        r == hex_digit(d as nat),
{
    if d == 0 { '0' } else if d == 1 { '1' } else if d == 2 { '2' } else if d == 3 { '3' }
    else if d == 4 { '4' } else if d == 5 { '5' } else if d == 6 { '6' } else if d == 7 { '7' }
    else if d == 8 { '8' } else if d == 9 { '9' } else if d == 10 { 'a' } else if d == 11 { 'b' }
    else if d == 12 { 'c' } else if d == 13 { 'd' } else if d == 14 { 'e' } else { 'f' }
}

/// Appends the hexadecimal notation of `n` to `out`.
pub fn push_hex(n: u64, out: &mut Vec<char>)
    ensures
        final(out)@ == old(out)@ + hex_of(n as nat),
    decreases n,
{
    if n >= 16 {
        push_hex(n / 16, out);
    }
    out.push(hex_char(n % 16));
    assert(final(out)@ =~= old(out)@ + hex_of(n as nat)) by {
        if n >= 16 {
            assert(hex_of(n as nat) == hex_of((n / 16) as nat).push(hex_digit((n % 16) as nat)));
        }
    };
}

/// The big-endian number of `d[lo..hi]`.
pub open spec fn be_number(d: Seq<u8>, lo: int, hi: int) -> nat
    decreases hi - lo,
{
    if hi <= lo {
        0
    } else {
        be_number(d, lo, hi - 1) * 256 + d[hi - 1] as nat
    }
}

fn be_value(d: &[u8], lo: usize, hi: usize) -> (r: u64)
    requires
        lo <= hi <= d@.len(),
        hi - lo <= 4,
    ensures
        r as nat == be_number(d@, lo as int, hi as int),
        r < 0x1_0000_0000,
{
    let mut r: u64 = 0;
    let mut k = lo;
    while k < hi
        invariant
            lo <= k <= hi <= d@.len(),
            hi - lo <= 4,
            r as nat == be_number(d@, lo as int, k as int),
            r < pow256((k - lo) as nat),
        decreases hi - k,
    {
        assert(pow256((k - lo + 1) as nat) == pow256((k - lo) as nat) * 256);
        assert(pow256((k - lo) as nat) <= 0x100_0000) by {
            lemma_pow256_bound((k - lo) as nat);
        };
        r = r * 256 + d[k] as u64;
        k = k + 1;
    }
    proof {
        lemma_pow256_bound((hi - lo) as nat);
    }
    r
}

pub open spec fn pow256(n: nat) -> nat
    decreases n,
{
    if n == 0 {
        1
    } else {
        256 * pow256((n - 1) as nat)
    }
}

proof fn lemma_pow256_bound(n: nat)
    requires
        n <= 4,
    ensures
        n < 4 ==> pow256(n) <= 0x100_0000,
        pow256(n) <= 0x1_0000_0000,
{
    reveal_with_fuel(pow256, 5);
}

/// The label of a digest: its first four bytes, then the next two, then the
/// next two, each read as a big-endian number in hexadecimal and joined by `-`.
pub open spec fn digest_label(d: Seq<u8>) -> Seq<char> {
    hex_of(be_number(d, 0, 4)) + "-"@ + hex_of(be_number(d, 4, 6)) + "-"@ + hex_of(be_number(d, 6, 8))
}

/// The short label of a digest of at least eight bytes.
pub fn label_from_digest(d: &[u8]) -> (r: String)
    requires
        d@.len() >= 8,
    ensures
        r@ == digest_label(d@),
{
    let mut out: Vec<char> = Vec::new();
    push_hex(be_value(d, 0, 4), &mut out);
    push_text(&mut out, "-");
    push_hex(be_value(d, 4, 6), &mut out);
    push_text(&mut out, "-");
    push_hex(be_value(d, 6, 8), &mut out);
    string_of(out.as_slice())
}

/// A short, stable label for a text: the label of its SHA-256 digest.
pub fn hash_str(s: &str) -> (r: String)
    ensures
        r@ == digest_label(sha256_of(s@)),
{
    let d = sha256_text(s);
    label_from_digest(d.as_slice())
}

} // verus!

verus! {

/// The directory of a project, as a path text.
#[derive(Debug, Clone)]
pub struct ProjectPath(pub String);

impl ProjectPath {
    pub fn new(path: String) -> (r: Self)
        ensures
            r.0 == path,
    {
        ProjectPath(path)
    }

    /// The window label of the project: `prj-` and the hash label of its path.
    pub fn to_window_label(&self) -> (r: String)
        ensures
            r@ == "prj-"@ + digest_label(sha256_of(self.0@)),
    {
        let h = hash_str(self.0.as_str());
        concat("prj-", h.as_str())
    }
}

/// What identifies a project: a database URL, a directory holding a `.env`
/// file, or the path of such a file.
#[derive(Debug, Clone)]
pub enum ProjectId {
    Url(String),
    Directory(String),
    File(String),
}

/// The hash that `DefaultHasher::new()` gives a text fed through `Hash::hash`.
pub uninterp spec fn default_hash_of(s: Seq<char>) -> u64;

/// Relies on `std::collections::hash_map::DefaultHasher`, whose `new` uses
/// fixed keys, fed with the text through `Hash::hash`.
#[verifier::external_body]
fn default_hash(s: &str) -> (r: u64)
    ensures
        r == default_hash_of(s@),
{
    let mut h = std::collections::hash_map::DefaultHasher::new();
    std::hash::Hash::hash(s, &mut h);
    std::hash::Hasher::finish(&h)
}

/// The last component of a path, as `Path::file_name` gives it.
pub uninterp spec fn file_name_of(p: Seq<char>) -> Option<Seq<char>>;

/// The path without its last component, as `Path::parent` gives it.
pub uninterp spec fn parent_of(p: Seq<char>) -> Option<Seq<char>>;

/// Relies on `std::path::Path::file_name`, with the path syntax of the build
/// target, read back lossily as text.
#[verifier::external_body]
fn path_file_name(p: &str) -> (r: Option<String>)
    ensures
        match r {
            Some(n) => file_name_of(p@) == Some(n@),
            None => file_name_of(p@) is None,
        },
{
    std::path::Path::new(p).file_name().map(|n| n.to_string_lossy().into_owned())
}

/// Relies on `std::path::Path::parent`, with the path syntax of the build
/// target, read back lossily as text.
#[verifier::external_body]
fn path_parent(p: &str) -> (r: Option<String>)
    ensures
        match r {
            Some(n) => parent_of(p@) == Some(n@),
            None => parent_of(p@) is None,
        },
{
    std::path::Path::new(p).parent().map(|n| n.to_string_lossy().into_owned())
}

/// The prefix of a project's window label, by the kind of its id.
pub open spec fn label_prefix(id: ProjectId) -> Seq<char> {
    match id {
        ProjectId::Url(_) => "project_url_"@,
        ProjectId::Directory(_) => "project_dir_"@,
        ProjectId::File(_) => "project_file_"@,
    }
}

/// The text a project id holds.
pub open spec fn id_text(id: ProjectId) -> Seq<char> {
    match id {
        ProjectId::Url(s) => s@,
        ProjectId::Directory(s) => s@,
        ProjectId::File(s) => s@,
    }
}

/// `name` or, when it is absent, `fallback`.
pub open spec fn name_or(name: Option<Seq<char>>, fallback: Seq<char>) -> Seq<char> {
    match name {
        Some(n) => n,
        None => fallback,
    }
}

impl ProjectId {
    fn text(&self) -> (r: &String)
        ensures
            r@ == id_text(*self),
    {
        match self {
            ProjectId::Url(s) => s,
            ProjectId::Directory(s) => s,
            ProjectId::File(s) => s,
        }
    }

    /// The window label for a given hash of the id's text: the kind's prefix
    /// and the hash in hexadecimal.
    pub fn window_label_from_hash(&self, hash: u64) -> (r: String)
        ensures
            r@ == label_prefix(*self) + hex_of(hash as nat),
    {
        let mut out: Vec<char> = Vec::new();
        match self {
            ProjectId::Url(_) => push_text(&mut out, "project_url_"),
            ProjectId::Directory(_) => push_text(&mut out, "project_dir_"),
            ProjectId::File(_) => push_text(&mut out, "project_file_"),
        }
        push_hex(hash, &mut out);
        string_of(out.as_slice())
    }

    /// A window label unique to the id: the kind's prefix and the hash of the
    /// id's text in hexadecimal.
    pub fn to_window_label(&self) -> (r: String)
        ensures
            r@ == label_prefix(*self) + hex_of(default_hash_of(id_text(*self)) as nat),
    {
        let h = default_hash(self.text().as_str());
        self.window_label_from_hash(h)
    }

    /// A short name for display: a URL of more than 50 bytes is cut to its
    /// first 47 bytes and `...` (the cut must fall between characters); a
    /// directory shows its last component; a file shows its parent
    /// directory's last component and its own name.
    pub fn display_name(&self) -> (r: String)
        requires
            match *self {
                ProjectId::Url(u) => encode_utf8(u@).len() > 50 ==> is_char_boundary(encode_utf8(u@), 47),
                _ => true,
            },
        ensures
            match *self {
                ProjectId::Url(u) => if encode_utf8(u@).len() > 50 {
                    exists|h: Seq<char>| encode_utf8(h) == encode_utf8(u@).take(47) && r@ == h + "..."@
                } else {
                    r@ == u@
                },
                ProjectId::Directory(p) => r@ == name_or(file_name_of(p@), p@),
                ProjectId::File(p) => {
                    let f = name_or(file_name_of(p@), p@);
                    match parent_of(p@) {
                        Some(d) => match file_name_of(d) {
                            Some(dn) => r@ == dn + "/"@ + f,
                            None => r@ == f,
                        },
                        None => r@ == f,
                    }
                },
            },
    {
        match self {
            ProjectId::Url(u) => {
                let s = u.as_str();
                assert(s.spec_bytes() == encode_utf8(u@));
                let bytes = s.as_bytes();
                if bytes.len() > 50 {
                    let (head, _rest) = s.split_at(47);
                    assert(encode_utf8(head@) == head.spec_bytes());
                    assert(encode_utf8(head@) =~= encode_utf8(u@).take(47));
                    let r = concat(head, "...");
                    assert(encode_utf8(head@) == encode_utf8(u@).take(47) && r@ == head@ + "..."@);
                    assert(exists|h: Seq<char>| encode_utf8(h) == encode_utf8(u@).take(47) && r@ == h + "..."@);
                    r
                } else {
                    assert(encode_utf8(u@).len() <= 50);
                    String::from_str(s)
                }
            },
            ProjectId::Directory(p) => match path_file_name(p.as_str()) {
                Some(n) => n,
                None => String::from_str(p.as_str()),
            },
            ProjectId::File(p) => {
                let f = match path_file_name(p.as_str()) {
                    Some(n) => n,
                    None => String::from_str(p.as_str()),
                };
                match path_parent(p.as_str()) {
                    Some(d) => match path_file_name(d.as_str()) {
                        Some(dn) => {
                            let mut out: Vec<char> = Vec::new();
                            push_text(&mut out, dn.as_str());
                            push_text(&mut out, "/");
                            push_text(&mut out, f.as_str());
                            string_of(out.as_slice())
                        },
                        None => f,
                    },
                    None => f,
                }
            },
        }
    }

    /// The connection string of a URL id; directory and file ids name an env
    /// file that the caller reads (see `crate::env::database_url_from_env`).
    pub fn direct_url(&self) -> (r: Option<String>)
        ensures
            match *self {
                ProjectId::Url(u) => r is Some && r->Some_0@ == u@,
                _ => r is None,
            },
    {
        match self {
            ProjectId::Url(u) => Some(String::from_str(u.as_str())),
            _ => None,
        }
    }
}

/// Connection parameters, each the name of an environment variable.
#[derive(Debug, Clone)]
pub struct ConnectionParams {
    pub host: String,
    pub port: String,
    pub database: String,
    pub user: String,
    pub password: String,
}

/// Project-specific settings.
#[derive(Debug, Clone)]
pub struct ProjectSettings {
    /// Project name for display
    pub project_name: Option<String>,
    /// Whether to save queries
    pub save_queries: bool,
}

/// Project configuration.
#[derive(Debug, Clone)]
pub struct ProjectConfig {
    /// Environment variable that holds the connection string
    pub connection_variable: String,
    /// Individual connection parameters as environment variables
    pub connection_params: Option<ConnectionParams>,
    pub settings: ProjectSettings,
}

/// Default for `ProjectConfig::connection_variable`.
pub fn default_connection_variable() -> (r: String)
    ensures
        r@ == "DATABASE_URL"@,
{
    String::from_str("DATABASE_URL")
}

/// Default for `ProjectSettings::save_queries`.
pub fn default_save_queries() -> (r: bool)
    ensures
        r,
{
    true
}

impl ProjectSettings {
    /// Settings with no project name; queries are saved.
    pub fn defaults() -> (r: Self)
        ensures
            r.project_name is None,
            r.save_queries,
    {
        ProjectSettings { project_name: None, save_queries: default_save_queries() }
    }
}

impl ProjectConfig {
    /// The configuration of a project that states nothing: the connection
    /// string in `DATABASE_URL`, no parameters, default settings.
    pub fn defaults() -> (r: Self)
        ensures
            r.connection_variable@ == "DATABASE_URL"@,
            r.connection_params is None,
            r.settings.project_name is None,
            r.settings.save_queries,
    {
        ProjectConfig {
            connection_variable: default_connection_variable(),
            connection_params: None,
            settings: ProjectSettings::defaults(),
        }
    }
}

/// Command-line arguments.
#[derive(Debug, Clone)]
pub struct Args {
    /// Path to a project directory to open
    pub project_path: Option<String>,
}

/// Reads the arguments that follow the program name: the first one is the
/// project path, unless it is absent or starts with `-`.
pub fn parse_cli_args(args: &Vec<String>) -> (r: Args)
    ensures
        (args@.len() > 0 && !(args@[0]@.len() > 0 && args@[0]@[0] == '-')) ==> r.project_path is Some
            && r.project_path->Some_0@ == args@[0]@,
        !(args@.len() > 0 && !(args@[0]@.len() > 0 && args@[0]@[0] == '-')) ==> r.project_path is None,
{
    if args.len() == 0 {
        return Args { project_path: None };
    }
    let first = crate::text::chars_of(args[0].as_str());
    if first.len() > 0 && first[0] == '-' {
        Args { project_path: None }
    } else {
        Args { project_path: Some(String::from_str(args[0].as_str())) }
    }
}

} // verus!

verus! {

/// What follows the last `/` of `s`, or all of `s`.
pub open spec fn after_last_slash(s: Seq<char>) -> Seq<char>
    decreases s.len(),
{
    if s.len() == 0 {
        s
    } else if s.last() == '/' {
        Seq::empty()
    } else {
        after_last_slash(s.drop_last()).push(s.last())
    }
}

/// The last segment of a URL path, for a path that has segments (one that
/// starts with `/`).
pub open spec fn last_path_segment(p: Seq<char>) -> Option<Seq<char>> {
    if p.len() > 0 && p[0] == '/' {
        Some(after_last_slash(p))
    } else {
        None
    }
}

fn after_last_slash_exec(s: &[char]) -> (r: Vec<char>)
    ensures
        r@ == after_last_slash(s@),
{
    let mut i = s.len();
    assert(s@.take(s@.len() as int) =~= s@);
    assert(s@.subrange(s@.len() as int, s@.len() as int) =~= Seq::<char>::empty());
    assert(after_last_slash(s@) + Seq::<char>::empty() =~= after_last_slash(s@));
    while i > 0 && s[i - 1] != '/'
        invariant
            i <= s@.len(),
            after_last_slash(s@) == after_last_slash(s@.take(i as int)) + s@.subrange(i as int, s@.len() as int),
        decreases i,
    {
        assert(s@.take(i as int).drop_last() =~= s@.take(i - 1));
        assert(after_last_slash(s@.take(i as int)) == after_last_slash(s@.take(i - 1)).push(s@[i - 1]));
        assert(after_last_slash(s@.take(i - 1)).push(s@[i - 1]) + s@.subrange(i as int, s@.len() as int)
            =~= after_last_slash(s@.take(i - 1)) + s@.subrange(i - 1, s@.len() as int));
        i = i - 1;
    }
    assert(after_last_slash(s@.take(i as int)) =~= Seq::<char>::empty());
    crate::text::copy_range(s, i, s.len())
}

/// The name a project takes when its configuration gives none. A project in
/// the application's own projects directory is named after the database: the
/// last segment of the URL's path when it is not empty, else `DB on <host>`,
/// else `Unnamed Database`. Any other project is named after its parent
/// directory, `parent_dir_name`, which must be known.
pub fn infer_project_name(in_projects_dir: bool, db_url: &str, parent_dir_name: Option<String>) -> (r: Result<String, String>)
    ensures
        !in_projects_dir ==> match parent_dir_name {
            Some(n) => r is Ok && r->Ok_0@ == n@,
            None => r is Err && r->Err_0@ == "Unable to determine parent directory name"@,
        },
        in_projects_dir ==> match crate::config::parsed_url(db_url@) {
            Err(_) => r is Err,
            Ok(u) => r is Ok && r->Ok_0@ == (
                if last_path_segment(u.5) is Some && last_path_segment(u.5)->Some_0.len() > 0 {
                    last_path_segment(u.5)->Some_0
                } else if u.3 is Some {
                    "DB on "@ + u.3->Some_0
                } else {
                    "Unnamed Database"@
                }
            ),
        },
{
    if !in_projects_dir {
        return match parent_dir_name {
            Some(n) => Ok(n),
            None => Err(String::from_str("Unable to determine parent directory name")),
        };
    }
    let u = match crate::config::parse_url(db_url) {
        Ok(u) => u,
        Err(e) => return Err(concat("Invalid database URL: ", e.as_str())),
    };
    let path = crate::text::chars_of(u.path.as_str());
    if path.len() > 0 && path[0] == '/' {
        let seg = after_last_slash_exec(path.as_slice());
        if seg.len() > 0 {
            return Ok(string_of(seg.as_slice()));
        }
    }
    match &u.host {
        Some(h) => Ok(concat("DB on ", h.as_str())),
        None => Ok(String::from_str("Unnamed Database")),
    }
}

} // verus!
