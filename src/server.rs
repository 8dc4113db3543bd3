//! What a request and the running server are known by: the request id, the region,
//! and the build the server runs.
use vstd::prelude::*;

verus! {

/// Where the source of the server lives; a revision is appended.
pub const SOURCE_TREE: &'static str = "https://github.com/dusterthefirst/spotify-backup/tree/";

/// Build-time information about the server.
pub struct StaticServerInformation {
    /// Server name
    pub name: String,
    /// Server SemVer version
    pub version: String,
    /// Server git commit
    pub commit: String,
    /// Server source code URI
    pub source: String,
    /// Server environment (development or production)
    pub environment: String,
}

/// What a request is known by.
pub struct RequestMetadata {
    /// The request ID
    pub request_id: String,
    /// Static build-time server information
    pub server: StaticServerInformation,
    /// Server region
    pub region: String,
}

impl StaticServerInformation {
    /// The information for a build of `name` at `version` from `commit`; `revision`
    /// names the source tree, and `debug` tells a development build.
    pub fn new(name: String, version: String, commit: String, revision: &str, debug: bool) -> (r:
        StaticServerInformation)
        ensures
            r.name@ == name@,
            r.version@ == version@,
            r.commit@ == commit@,
            r.source@ == SOURCE_TREE@ + revision@,
            r.environment@ == (if debug {
                "development"@
            } else {
                "production"@
            }),
    {
        let mut source = SOURCE_TREE.to_owned();
        source.append(revision);
        let environment = if debug {
            "development".to_owned()
        } else {
            "production".to_owned()
        };
        StaticServerInformation { name, version, commit, source, environment }
    }

    /// The value of the origin-server response header: `name@version (commit commit)`.
    pub fn origin_server(&self) -> (r: String)
        ensures
            r@ == self.name@ + "@"@ + self.version@ + " (commit "@ + self.commit@ + ")"@,
    {
        let mut r = self.name.clone();
        r.append("@");
        r.append(self.version.as_str());
        r.append(" (commit ");
        r.append(self.commit.as_str());
        r.append(")");
        r
    }
}

/// Where in the source a panic happened.
pub struct Location {
    file: String,
    line: u32,
    column: u32,
}

impl Location {
    pub fn new(file: String, line: u32, column: u32) -> (r: Location)
        ensures
            r.file_view() == file@,
            r.line_view() == line,
            r.column_view() == column,
    {
        Location { file, line, column }
    }

    pub closed spec fn file_view(&self) -> Seq<char> {
        self.file@
    }

    pub closed spec fn line_view(&self) -> u32 {
        self.line
    }

    pub closed spec fn column_view(&self) -> u32 {
        self.column
    }

    pub fn file(&self) -> (r: &str)
        ensures
            r@ == self.file_view(),
    {
        self.file.as_str()
    }

    pub fn line(&self) -> (r: u32)
        ensures
            r == self.line_view(),
    {
        self.line
    }

    pub fn column(&self) -> (r: u32)
        ensures
            r == self.column_view(),
    {
        self.column
    }
}

/// The messages of an error's sources, the deepest first, from the messages of the
/// error and its chain of sources (the error first).
pub fn error_sources(chain: &Vec<String>) -> (r: Vec<String>)
    ensures
        chain@.len() == 0 ==> r@.len() == 0,
        chain@.len() > 0 ==> r@.len() == chain@.len() - 1,
        forall|i: int| 0 <= i < r@.len() ==> (#[trigger] r@[i])@ == chain@[chain@.len() - 1 - i]@,
{
    let mut r: Vec<String> = Vec::new();
    let mut n: usize = chain.len();
    while n > 1
        invariant
            n <= chain@.len(),
            chain@.len() > 0 ==> n >= 1,
            chain@.len() == 0 ==> n == 0,
            r@.len() == chain@.len() - n,
            forall|i: int| 0 <= i < r@.len() ==> (#[trigger] r@[i])@ == chain@[chain@.len() - 1 - i]@,
        decreases n,
    {
        n = n - 1;
        r.push(chain[n].clone());
    }
    r
}

} // verus!
