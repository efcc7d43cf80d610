//! Locating the sidecar programs (`yt-dlp`, `ffmpeg`, `ffprobe`): where they
//! are searched, how their version is read, and the cache of the binaries
//! found.
use vstd::prelude::*;

use crate::publish::join_file;
use crate::text::{
    concat3, concat_str, decimal, ends_with, to_chars, trim, trim_chars, from_chars,
    u64_to_decimal,
};

verus! {

/// External sidecar binary kind.
#[derive(Debug, Clone, Copy, PartialEq, Eq, Hash, Structural)]
pub enum BinaryKind {
    YtDlp,
    Ffmpeg,
    Ffprobe,
}

pub open spec fn kind_base_name(k: BinaryKind) -> Seq<char> {
    match k {
        BinaryKind::YtDlp => "yt-dlp"@,
        BinaryKind::Ffmpeg => "ffmpeg"@,
        BinaryKind::Ffprobe => "ffprobe"@,
    }
}

pub open spec fn kind_version_flag(k: BinaryKind) -> Seq<char> {
    match k {
        BinaryKind::YtDlp => "--version"@,
        _ => "-version"@,
    }
}

impl BinaryKind {
    /// Returns the canonical executable name for this tool.
    pub fn base_name(self) -> (r: &'static str)
        ensures
            r@ == kind_base_name(self),
    {
        match self {
            BinaryKind::YtDlp => "yt-dlp",
            BinaryKind::Ffmpeg => "ffmpeg",
            BinaryKind::Ffprobe => "ffprobe",
        }
    }

    /// Returns the canonical CLI argument to query tool version.
    pub fn version_flag(self) -> (r: &'static str)
        ensures
            r@ == kind_version_flag(self),
    {
        match self {
            BinaryKind::YtDlp => "--version",
            BinaryKind::Ffmpeg | BinaryKind::Ffprobe => "-version",
        }
    }

    /// The text of the kind: its executable name.
    pub fn to_text(self) -> (r: String)
        ensures
            r@ == kind_base_name(self),
    {
        String::from_str(self.base_name())
    }
}

/// The other version flag, tried when the first one fails.
pub open spec fn alternate_flag(flag: Seq<char>) -> Seq<char> {
    if flag == "--version"@ {
        "-version"@
    } else {
        "--version"@
    }
}

pub fn alternate_version_flag(kind: BinaryKind) -> (r: &'static str)
    ensures
        r@ == alternate_flag(kind_version_flag(kind)),
{
    proof {
        reveal_strlit("--version");
        reveal_strlit("-version");
    }
    match kind {
        BinaryKind::YtDlp => "-version",
        _ => "--version",
    }
}

/// Errors originating from binary resolution or version querying.
#[derive(Debug, Clone)]
pub enum BinResError {
    NotFound { kind: BinaryKind },
    ProbeFailed { kind: BinaryKind, error: String },
}

pub open spec fn binres_error_text(e: BinResError) -> Seq<char> {
    match e {
        BinResError::NotFound { kind } => "Binary '"@ + kind_base_name(kind)
            + "' was not found in any searched locations"@,
        BinResError::ProbeFailed { kind, error } => "Failed to execute probe for binary '"@
            + kind_base_name(kind) + "': "@ + error@,
    }
}

impl BinResError {
    /// The displayed text of the error.
    pub fn message(&self) -> (r: String)
        ensures
            r@ == binres_error_text(*self),
    {
        match self {
            BinResError::NotFound { kind } => concat3(
                "Binary '",
                kind.base_name(),
                "' was not found in any searched locations",
            ),
            BinResError::ProbeFailed { kind, error } => {
                let mut m = concat3("Failed to execute probe for binary '", kind.base_name(), "': ");
                m.append(error.as_str());
                m
            },
        }
    }
}

/// Information about a verified, resolved binary; `modified_nanos` is the
/// modification time in nanoseconds from the Unix epoch.
#[derive(Debug)]
pub struct ResolvedBinary {
    pub kind: BinaryKind,
    pub path: String,
    pub version: String,
    pub size: u64,
    pub modified_nanos: i128,
}

pub struct ResolvedBinaryView {
    pub kind: BinaryKind,
    pub path: Seq<char>,
    pub version: Seq<char>,
    pub size: u64,
    pub modified_nanos: i128,
}

impl View for ResolvedBinary {
    type V = ResolvedBinaryView;

    open spec fn view(&self) -> ResolvedBinaryView {
        ResolvedBinaryView {
            kind: self.kind,
            path: self.path@,
            version: self.version@,
            size: self.size,
            modified_nanos: self.modified_nanos,
        }
    }
}

impl ResolvedBinary {
    pub fn duplicate(&self) -> (r: Self)
        ensures
            r@ == self@,
    {
        ResolvedBinary {
            kind: self.kind,
            path: self.path.clone(),
            version: self.version.clone(),
            size: self.size,
            modified_nanos: self.modified_nanos,
        }
    }

    /// Whether the file found at the cached path still has the size and
    /// modification time it had when it was verified.
    pub fn is_fresh(&self, size: u64, modified_nanos: i128) -> (r: bool)
        ensures
            r == (size == self.size && modified_nanos == self.modified_nanos),
    {
        size == self.size && modified_nanos == self.modified_nanos
    }
}

/// The executable names tried for a tool: on Windows the `.exe` name first.
pub open spec fn candidate_names_spec(base_name: Seq<char>, windows: bool) -> Seq<Seq<char>> {
    if windows {
        if ends_with(base_name, ".exe"@) {
            seq![base_name]
        } else {
            seq![base_name + ".exe"@, base_name]
        }
    } else {
        seq![base_name]
    }
}

pub open spec fn strings_view(v: Seq<String>) -> Seq<Seq<char>> {
    v.map_values(|s: String| s@)
}

/// Generates platform-appropriate file candidate names.
pub fn candidate_file_names(base_name: &str, windows: bool) -> (r: Vec<String>)
    ensures
        strings_view(r@) == candidate_names_spec(base_name@, windows),
{
    let mut r: Vec<String> = Vec::new();
    if windows {
        let chars = to_chars(base_name);
        let exe = to_chars(".exe");
        if crate::text::chars_ends_with(&chars, &exe) {
            r.push(String::from_str(base_name));
        } else {
            r.push(concat_str(base_name, ".exe"));
            r.push(String::from_str(base_name));
        }
    } else {
        r.push(String::from_str(base_name));
    }
    assert(strings_view(r@) =~= candidate_names_spec(base_name@, windows));
    r
}

/// The directories searched, in priority order.
pub struct SearchDirs {
    /// The application's bundled resource directory, if any.
    pub resource_dir: Option<String>,
    /// The directory the application manages its binaries in.
    pub app_dir: String,
    /// The directory of the running executable, if known.
    pub exe_dir: Option<String>,
    /// Whether the standard Unix system directories are searched.
    pub system_dirs: bool,
    /// The directories of the `PATH` variable.
    pub path_dirs: Vec<String>,
}

pub open spec fn unix_system_dirs() -> Seq<Seq<char>> {
    seq!["/opt/homebrew/bin"@, "/usr/local/bin"@, "/usr/bin"@]
}

/// The paths tried for one executable name, in order.
pub open spec fn paths_for_name(
    resource_dir: Option<Seq<char>>,
    app_dir: Seq<char>,
    exe_dir: Option<Seq<char>>,
    system_dirs: bool,
    path_dirs: Seq<Seq<char>>,
    name: Seq<char>,
) -> Seq<Seq<char>> {
    let res = match resource_dir {
        Some(d) => seq![join_file(d, name)],
        None => seq![],
    };
    let app = seq![join_file(app_dir, name)];
    let exe = match exe_dir {
        Some(d) => seq![
            join_file(d, name),
            join_file(join_file(d, "bin"@), name),
            join_file(join_file(d, "../Resources/bin"@), name),
        ],
        None => seq![],
    };
    let sys = if system_dirs {
        unix_system_dirs().map_values(|d: Seq<char>| join_file(d, name))
    } else {
        seq![]
    };
    let path = path_dirs.map_values(|d: Seq<char>| join_file(d, name));
    res + app + exe + sys + path
}

/// Every candidate path of a search, name by name.
pub open spec fn search_paths_spec(
    resource_dir: Option<Seq<char>>,
    app_dir: Seq<char>,
    exe_dir: Option<Seq<char>>,
    system_dirs: bool,
    path_dirs: Seq<Seq<char>>,
    names: Seq<Seq<char>>,
) -> Seq<Seq<char>>
    decreases names.len(),
{
    if names.len() == 0 {
        seq![]
    } else {
        search_paths_spec(resource_dir, app_dir, exe_dir, system_dirs, path_dirs, names.drop_last())
            + paths_for_name(resource_dir, app_dir, exe_dir, system_dirs, path_dirs, names.last())
    }
}

fn push_joined(v: &mut Vec<String>, dir: &str, name: &str)
    ensures
        strings_view(final(v)@) == strings_view(old(v)@).push(join_file(dir@, name@)),
{
    let p = crate::publish::join_file_path(dir, name);
    v.push(p);
    assert(strings_view(final(v)@) =~= strings_view(old(v)@).push(join_file(dir@, name@)));
}

fn push_paths_for_name(v: &mut Vec<String>, dirs: &SearchDirs, name: &str)
    ensures
        strings_view(final(v)@) == strings_view(old(v)@) + paths_for_name(
            crate::media_url::opt_view(dirs.resource_dir),
            dirs.app_dir@,
            crate::media_url::opt_view(dirs.exe_dir),
            dirs.system_dirs,
            strings_view(dirs.path_dirs@),
            name@,
        ),
{
    let ghost start = strings_view(v@);
    match &dirs.resource_dir {
        Some(d) => push_joined(v, d.as_str(), name),
        None => {},
    }
    push_joined(v, dirs.app_dir.as_str(), name);
    match &dirs.exe_dir {
        Some(d) => {
            push_joined(v, d.as_str(), name);
            let bin = crate::publish::join_file_path(d.as_str(), "bin");
            push_joined(v, bin.as_str(), name);
            let res = crate::publish::join_file_path(d.as_str(), "../Resources/bin");
            push_joined(v, res.as_str(), name);
        },
        None => {},
    }
    let ghost before_sys = strings_view(v@);
    if dirs.system_dirs {
        push_joined(v, "/opt/homebrew/bin", name);
        push_joined(v, "/usr/local/bin", name);
        push_joined(v, "/usr/bin", name);
        assert(unix_system_dirs().map_values(|d: Seq<char>| join_file(d, name@)) =~= seq![
            join_file("/opt/homebrew/bin"@, name@),
            join_file("/usr/local/bin"@, name@),
            join_file("/usr/bin"@, name@),
        ]);
    }
    let ghost before_path = strings_view(v@);
    let mut i: usize = 0;
    while i < dirs.path_dirs.len()
        invariant
            i <= dirs.path_dirs@.len(),
            strings_view(v@) == before_path + strings_view(dirs.path_dirs@).subrange(
                0,
                i as int,
            ).map_values(|d: Seq<char>| join_file(d, name@)),
        decreases dirs.path_dirs@.len() - i,
    {
        push_joined(v, dirs.path_dirs[i].as_str(), name);
        assert(strings_view(dirs.path_dirs@).subrange(0, i + 1).map_values(
            |d: Seq<char>| join_file(d, name@),
        ) =~= strings_view(dirs.path_dirs@).subrange(0, i as int).map_values(
            |d: Seq<char>| join_file(d, name@),
        ).push(join_file(dirs.path_dirs@[i as int]@, name@)));
        i = i + 1;
    }
    assert(strings_view(dirs.path_dirs@).subrange(0, dirs.path_dirs@.len() as int)
        =~= strings_view(dirs.path_dirs@));
    assert(strings_view(v@) =~= start + paths_for_name(
        crate::media_url::opt_view(dirs.resource_dir),
        dirs.app_dir@,
        crate::media_url::opt_view(dirs.exe_dir),
        dirs.system_dirs,
        strings_view(dirs.path_dirs@),
        name@,
    ));
}

/// The paths tried for a tool, in priority order: for each candidate name,
/// the resource directory, the application directory, next to the running
/// executable (also in its `bin` and `../Resources/bin`), the system
/// directories, then each `PATH` directory.
pub fn search_paths(dirs: &SearchDirs, names: &Vec<String>) -> (r: Vec<String>)
    ensures
        strings_view(r@) == search_paths_spec(
            crate::media_url::opt_view(dirs.resource_dir),
            dirs.app_dir@,
            crate::media_url::opt_view(dirs.exe_dir),
            dirs.system_dirs,
            strings_view(dirs.path_dirs@),
            strings_view(names@),
        ),
{
    let mut r: Vec<String> = Vec::new();
    let mut i: usize = 0;
    while i < names.len()
        invariant
            i <= names@.len(),
            strings_view(r@) == search_paths_spec(
                crate::media_url::opt_view(dirs.resource_dir),
                dirs.app_dir@,
                crate::media_url::opt_view(dirs.exe_dir),
                dirs.system_dirs,
                strings_view(dirs.path_dirs@),
                strings_view(names@).subrange(0, i as int),
            ),
        decreases names@.len() - i,
    {
        push_paths_for_name(&mut r, dirs, names[i].as_str());
        assert(strings_view(names@).subrange(0, i + 1).drop_last() =~= strings_view(
            names@,
        ).subrange(0, i as int));
        i = i + 1;
    }
    assert(strings_view(names@).subrange(0, names@.len() as int) =~= strings_view(names@));
    r
}

/// The first line of a text, as `str::lines` gives it.
pub open spec fn first_line(s: Seq<char>) -> Seq<char>
    decreases s.len(),
{
    if s.len() == 0 {
        s
    } else if s[0] == '\n' {
        seq![]
    } else {
        seq![s[0]] + first_line(s.drop_first())
    }
}

/// The trimmed first line of a program's output.
pub fn first_output_line(s: &str) -> (r: String)
    ensures
        r@ == trim(first_line(s@)),
{
    let v = to_chars(s);
    let mut line: Vec<char> = Vec::new();
    let mut i: usize = 0;
    while i < v.len() && v[i] != '\n'
        invariant
            i <= v@.len(),
            forall|j: int| 0 <= j < i ==> v@[j] != '\n',
            line@ == v@.subrange(0, i as int),
        decreases v@.len() - i,
    {
        line.push(v[i]);
        i = i + 1;
    }
    proof {
        lemma_first_line(v@, i as int);
    }
    let t = trim_chars(&line);
    from_chars(&t)
}

proof fn lemma_first_line(s: Seq<char>, i: int)
    requires
        0 <= i <= s.len(),
        forall|j: int| 0 <= j < i ==> s[j] != '\n',
        i == s.len() || s[i] == '\n',
    ensures
        first_line(s) == s.subrange(0, i),
    decreases s.len(),
{
    if s.len() > 0 && i > 0 {
        lemma_first_line(s.drop_first(), i - 1);
        assert(s.subrange(0, i) =~= seq![s[0]] + s.drop_first().subrange(0, i - 1));
    } else if s.len() > 0 {
        assert(s.subrange(0, i) =~= Seq::<char>::empty());
    }
}

/// The `{:?}` text of a signed number.
pub open spec fn i32_text(n: i32) -> Seq<char> {
    if n < 0 {
        "-"@ + decimal((-n) as nat)
    } else {
        decimal(n as nat)
    }
}

/// The `{:?}` text of an exit code.
pub open spec fn exit_code_text(code: Option<i32>) -> Seq<char> {
    match code {
        Some(n) => "Some("@ + i32_text(n) + ")"@,
        None => "None"@,
    }
}

fn exit_code_debug(code: Option<i32>) -> (r: String)
    ensures
        r@ == exit_code_text(code),
{
    match code {
        None => String::from_str("None"),
        Some(n) => {
            let digits = if n < 0 {
                let a: i64 = -(n as i64);
                concat_str("-", u64_to_decimal(a as u64).as_str())
            } else {
                u64_to_decimal(n as u64)
            };
            concat3("Some(", digits.as_str(), ")")
        },
    }
}

/// What a finished process gave: whether it succeeded, its exit code, and
/// its output, decoded lossily.
pub struct ProcessOutput {
    pub success: bool,
    pub code: Option<i32>,
    pub stdout: String,
    pub stderr: String,
}

/// The version a tool reported: the trimmed first line of a successful run;
/// when the first flag fails, that of a successful run with the other flag.
pub open spec fn version_spec(
    kind: BinaryKind,
    success: bool,
    code: Option<i32>,
    stdout: Seq<char>,
    stderr: Seq<char>,
    alternate: Option<(bool, Seq<char>)>,
) -> Result<Seq<char>, Seq<char>> {
    if success {
        if trim(first_line(stdout)).len() == 0 {
            Err("Binary produced empty version output"@)
        } else {
            Ok(trim(first_line(stdout)))
        }
    } else {
        match alternate {
            Some((ok, out)) if ok && trim(first_line(out)).len() > 0 => Ok(trim(first_line(out))),
            _ => Err("Binary exited with code "@ + exit_code_text(code) + ": "@ + stderr),
        }
    }
}

pub open spec fn alternate_view(a: Option<ProcessOutput>) -> Option<(bool, Seq<char>)> {
    match a {
        Some(o) => Some((o.success, o.stdout@)),
        None => None,
    }
}

/// The version of a tool from the output of its version command and, when
/// that failed, of the command with the other flag (`None` when it could not
/// be run).
pub fn version_from_outputs(
    kind: BinaryKind,
    primary: &ProcessOutput,
    alternate: Option<ProcessOutput>,
) -> (r: Result<String, BinResError>)
    ensures
        match version_spec(
            kind,
            primary.success,
            primary.code,
            primary.stdout@,
            primary.stderr@,
            alternate_view(alternate),
        ) {
            Ok(v) => r matches Ok(x) && x@ == v,
            Err(m) => r matches Err(BinResError::ProbeFailed { kind: k, error }) && k == kind
                && error@ == m,
        },
{
    if primary.success {
        let first = first_output_line(primary.stdout.as_str());
        if first.unicode_len() == 0 {
            return Err(
                BinResError::ProbeFailed {
                    kind,
                    error: String::from_str("Binary produced empty version output"),
                },
            );
        }
        return Ok(first);
    }
    match alternate {
        Some(a) => {
            if a.success {
                let first = first_output_line(a.stdout.as_str());
                if first.unicode_len() > 0 {
                    return Ok(first);
                }
            }
        },
        None => {},
    }
    let mut m = concat3("Binary exited with code ", exit_code_debug(primary.code).as_str(), ": ");
    m.append(primary.stderr.as_str());
    Err(BinResError::ProbeFailed { kind, error: m })
}

/// The error when a tool's version command cannot be started.
pub fn spawn_failure(kind: BinaryKind, path: &str, reason: &str) -> (e: BinResError)
    ensures
        e matches BinResError::ProbeFailed { kind: k, error } && k == kind && error@
            == "Failed to spawn "@ + path@ + ": "@ + reason@,
{
    let mut m = concat3("Failed to spawn ", path, ": ");
    m.append(reason);
    BinResError::ProbeFailed { kind, error: m }
}

/// The binaries found so far, at most one per kind.
pub struct BinaryCache {
    entries: Vec<ResolvedBinary>,
}

pub open spec fn cache_map(s: Seq<ResolvedBinaryView>) -> Map<BinaryKind, ResolvedBinaryView>
    decreases s.len(),
{
    if s.len() == 0 {
        Map::empty()
    } else {
        cache_map(s.drop_last()).insert(s.last().kind, s.last())
    }
}

pub open spec fn kinds_unique(s: Seq<ResolvedBinaryView>) -> bool {
    forall|i: int, j: int| 0 <= i < j < s.len() ==> s[i].kind != s[j].kind
}

pub open spec fn entries_view(v: Seq<ResolvedBinary>) -> Seq<ResolvedBinaryView> {
    v.map_values(|b: ResolvedBinary| b@)
}

proof fn lemma_cache_map_lookup(s: Seq<ResolvedBinaryView>, k: BinaryKind)
    requires
        kinds_unique(s),
    ensures
        cache_map(s).contains_key(k) <==> exists|i: int| 0 <= i < s.len() && s[i].kind == k,
        forall|i: int| 0 <= i < s.len() && s[i].kind == k ==> cache_map(s)[k] == s[i],
    decreases s.len(),
{
    if s.len() > 0 {
        let t = s.drop_last();
        let n = s.len() - 1;
        assert(kinds_unique(t));
        lemma_cache_map_lookup(t, k);
        if s[n].kind == k {
            assert(cache_map(s) == cache_map(t).insert(k, s[n]));
            assert forall|i: int| 0 <= i < s.len() && s[i].kind == k implies cache_map(s)[k]
                == s[i] by {
                if i < n {
                    assert(s[i].kind != s[n].kind);
                }
            }
        } else {
            assert(cache_map(s) == cache_map(t).insert(s[n].kind, s[n]));
            if exists|i: int| 0 <= i < s.len() && s[i].kind == k {
                let i = choose|i: int| 0 <= i < s.len() && s[i].kind == k;
                assert(t[i].kind == k);
            }
            if exists|i: int| 0 <= i < t.len() && t[i].kind == k {
                let i = choose|i: int| 0 <= i < t.len() && t[i].kind == k;
                assert(s[i].kind == k);
            }
            assert forall|i: int| 0 <= i < s.len() && s[i].kind == k implies cache_map(s)[k]
                == s[i] by {
                assert(t[i] == s[i]);
            }
        }
    }
}

impl View for BinaryCache {
    type V = Map<BinaryKind, ResolvedBinaryView>;

    closed spec fn view(&self) -> Map<BinaryKind, ResolvedBinaryView> {
        cache_map(entries_view(self.entries@))
    }
}

impl BinaryCache {
    #[verifier::type_invariant]
    spec fn inv(self) -> bool {
        kinds_unique(entries_view(self.entries@))
    }

    pub fn new() -> (c: Self)
        ensures
            c@ == Map::<BinaryKind, ResolvedBinaryView>::empty(),
    {
        let c = BinaryCache { entries: Vec::new() };
        assert(entries_view(c.entries@) =~= Seq::<ResolvedBinaryView>::empty());
        c
    }

    fn index_of(&self, kind: BinaryKind) -> (r: Option<usize>)
        ensures
            match r {
                Some(i) => i < self.entries@.len() && self.entries@[i as int].kind == kind,
                None => forall|i: int| 0 <= i < self.entries@.len() ==> self.entries@[i].kind != kind,
            },
    {
        let mut i: usize = 0;
        while i < self.entries.len()
            invariant
                i <= self.entries@.len(),
                forall|j: int| 0 <= j < i ==> self.entries@[j].kind != kind,
            decreases self.entries@.len() - i,
        {
            if self.entries[i].kind == kind {
                return Some(i);
            }
            i = i + 1;
        }
        None
    }

    /// A copy of the cached binary of a kind.
    pub fn get(&self, kind: BinaryKind) -> (r: Option<ResolvedBinary>)
        ensures
            match r {
                Some(b) => self@.contains_key(kind) && self@[kind] == b@,
                None => !self@.contains_key(kind),
            },
    {
        proof {
            use_type_invariant(self);
            lemma_cache_map_lookup(entries_view(self.entries@), kind);
        }
        match self.index_of(kind) {
            Some(i) => {
                assert(entries_view(self.entries@)[i as int].kind == kind);
                Some(self.entries[i].duplicate())
            },
            None => {
                assert forall|i: int| 0 <= i < entries_view(self.entries@).len() implies entries_view(
                    self.entries@,
                )[i].kind != kind by {
                    assert(entries_view(self.entries@)[i] == self.entries@[i]@);
                }
                None
            },
        }
    }

    /// Caches a resolved binary, replacing the one of the same kind.
    pub fn insert(&mut self, b: ResolvedBinary)
        ensures
            final(self)@ == old(self)@.insert(b.kind, b@),
    {
        proof {
            use_type_invariant(&*self);
        }
        let ghost bv = b@;
        let ghost k = b.kind;
        let ghost before = entries_view(self.entries@);
        let mut entries = Vec::new();
        std::mem::swap(&mut entries, &mut self.entries);
        match index_of_in(&entries, b.kind) {
            Some(i) => {
                entries.remove(i);
                proof {
                    assert(entries_view(entries@) =~= before.remove(i as int));
                    lemma_remove_kind(before, i as int);
                    assert forall|j: int| 0 <= j < entries_view(entries@).len() implies entries_view(
                        entries@,
                    )[j].kind != k by {
                        if j < i {
                            assert(before[j].kind != before[i as int].kind);
                        } else {
                            assert(before[j + 1].kind != before[i as int].kind);
                        }
                    }
                }
            },
            None => {
                proof {
                    assert forall|j: int| 0 <= j < before.len() implies before[j].kind != k by {
                        assert(before[j] == entries@[j]@);
                    }
                    lemma_absent_kind(before, k);
                }
            },
        }
        let ghost mid = entries_view(entries@);
        entries.push(b);
        proof {
            assert(entries_view(entries@) =~= mid.push(bv));
            assert(mid.push(bv).drop_last() =~= mid);
            assert(cache_map(before).remove(k).insert(k, bv) =~= cache_map(before).insert(k, bv));
        }
        self.entries = entries;
    }

}

fn index_of_in(entries: &Vec<ResolvedBinary>, kind: BinaryKind) -> (r: Option<usize>)
        ensures
            match r {
                Some(i) => i < entries@.len() && entries@[i as int].kind == kind,
                None => forall|i: int| 0 <= i < entries@.len() ==> entries@[i].kind != kind,
            },
    {
        let mut i: usize = 0;
        while i < entries.len()
            invariant
                i <= entries@.len(),
                forall|j: int| 0 <= j < i ==> entries@[j].kind != kind,
            decreases entries@.len() - i,
        {
            if entries[i].kind == kind {
                return Some(i);
            }
            i = i + 1;
        }
        None
}

impl BinaryCache {
    /// Forgets the cached binary of a kind.
    pub fn invalidate(&mut self, kind: BinaryKind)
        ensures
            final(self)@ == old(self)@.remove(kind),
    {
        proof {
            use_type_invariant(&*self);
        }
        let ghost before = entries_view(self.entries@);
        let mut entries = Vec::new();
        std::mem::swap(&mut entries, &mut self.entries);
        match index_of_in(&entries, kind) {
            Some(i) => {
                entries.remove(i);
                proof {
                    assert(entries_view(entries@) =~= before.remove(i as int));
                    lemma_remove_kind(before, i as int);
                }
            },
            None => {
                proof {
                    lemma_absent_kind(before, kind);
                }
            },
        }
        self.entries = entries;
    }

    /// Forgets every cached binary.
    pub fn invalidate_all(&mut self)
        ensures
            final(self)@ == Map::<BinaryKind, ResolvedBinaryView>::empty(),
    {
        self.entries = Vec::new();
        assert(entries_view(self.entries@) =~= Seq::<ResolvedBinaryView>::empty());
    }
}

proof fn lemma_absent_kind(s: Seq<ResolvedBinaryView>, k: BinaryKind)
    requires
        forall|i: int| 0 <= i < s.len() ==> s[i].kind != k,
    ensures
        cache_map(s) == cache_map(s).remove(k),
        !cache_map(s).contains_key(k),
    decreases s.len(),
{
    if s.len() > 0 {
        lemma_absent_kind(s.drop_last(), k);
    }
    assert(cache_map(s) =~= cache_map(s).remove(k));
}

proof fn lemma_remove_kind(s: Seq<ResolvedBinaryView>, i: int)
    requires
        kinds_unique(s),
        0 <= i < s.len(),
    ensures
        cache_map(s.remove(i)) == cache_map(s).remove(s[i].kind),
        kinds_unique(s.remove(i)),
    decreases s.len(),
{
    let k = s[i].kind;
    if i == s.len() - 1 {
        assert(s.remove(i) =~= s.drop_last());
        assert forall|j: int| 0 <= j < s.drop_last().len() implies s.drop_last()[j].kind != k by {
            assert(s[j].kind != s[i].kind);
        }
        lemma_absent_kind(s.drop_last(), k);
        assert(cache_map(s.drop_last()) =~= cache_map(s).remove(k));
    } else {
        let t = s.drop_last();
        assert(kinds_unique(t));
        lemma_remove_kind(t, i);
        assert(s.remove(i).drop_last() =~= t.remove(i));
        assert(s.remove(i).last() == s.last());
        assert(s.last().kind != k);
        assert(cache_map(s.remove(i)) =~= cache_map(s).remove(k));
    }
}

/// The cache answers what was last stored for a kind and forgets it when
/// invalidated: after storing a resolved binary, reading its kind gives it
/// back (and its file, unchanged, is still fresh); after invalidating the
/// kind, reading it finds nothing; other kinds are untouched.
pub proof fn law_cache_hit_and_invalidation(
    c: Map<BinaryKind, ResolvedBinaryView>,
    r: ResolvedBinaryView,
    other: BinaryKind,
)
    requires
        other != r.kind,
    ensures
        c.insert(r.kind, r).contains_key(r.kind),
        c.insert(r.kind, r)[r.kind] == r,
        !c.insert(r.kind, r).remove(r.kind).contains_key(r.kind),
        c.insert(r.kind, r).contains_key(other) == c.contains_key(other),
        c.contains_key(other) ==> c.insert(r.kind, r)[other] == c[other],
        c.remove(r.kind).contains_key(other) == c.contains_key(other),
{
}

} // verus!
