//! Publishing a converted file into the target directory without replacing
//! any existing file: the staged file is linked (or copied) under the first
//! free name among `name.ext`, `name (1).ext`, `name (2).ext`, ...
use vstd::prelude::*;

use crate::error::{CoreError, DownloadErrorCode, DownloadErrorDetails};
use crate::job::{new_uuid_v4, uuid_simple, uuid_simple_text};
use crate::service::is_failure;
use crate::text::{concat3, concat_str, decimal, digit_char, is_ascii_digit, u64_to_decimal};

verus! {

/// The file name tried at a given attempt.
pub open spec fn candidate_name(base: Seq<char>, ext: Seq<char>, counter: nat) -> Seq<char> {
    if counter == 0 {
        base + "."@ + ext
    } else {
        base + " ("@ + decimal(counter) + ")."@ + ext
    }
}

/// `Path::join` of a directory and a relative file name.
pub open spec fn join_file(dir: Seq<char>, name: Seq<char>) -> Seq<char> {
    if dir.len() == 0 {
        name
    } else if dir.last() == '/' {
        dir + name
    } else {
        dir + "/"@ + name
    }
}

/// The name of a file at a given attempt.
pub fn candidate_file_name(base: &str, ext: &str, counter: usize) -> (r: String)
    ensures
        r@ == candidate_name(base@, ext@, counter as nat),
{
    if counter == 0 {
        concat3(base, ".", ext)
    } else {
        let n = u64_to_decimal(counter as u64);
        let mut r = concat3(base, " (", n.as_str());
        r.append(").");
        r.append(ext);
        r
    }
}

/// The path of a relative file name inside a directory.
pub fn join_file_path(dir: &str, name: &str) -> (r: String)
    ensures
        r@ == join_file(dir@, name@),
{
    let n: usize = dir.unicode_len();
    if n == 0 {
        String::from_str(name)
    } else if dir.get_char(n - 1) == '/' {
        concat_str(dir, name)
    } else {
        concat3(dir, "/", name)
    }
}

/// A fresh name for the staged copy of a file with the given extension.
pub fn stage_file_name(ext: &str) -> (r: String)
    ensures
        exists|v: u128| r@ == ".polysaver_stage_"@ + #[trigger] uuid_simple(v) + "."@ + ext@,
{
    let v = new_uuid_v4();
    let u = uuid_simple_text(v);
    let r = concat3(".polysaver_stage_", u.as_str(), ".");
    let mut r = r;
    r.append(ext);
    assert(r@ == ".polysaver_stage_"@ + uuid_simple(v) + "."@ + ext@);
    r
}

/// The error when the converted file can be neither moved nor copied next to
/// its destination.
pub fn transfer_failure(rename_error: &str, copy_error: &str) -> (e: CoreError)
    ensures
        is_failure(
            e,
            DownloadErrorCode::OutputPermissionDenied,
            "Impossible de transférer le fichier vers le dossier de destination: "@ + rename_error@
                + " / "@ + copy_error@,
        ),
{
    let mut m = concat3(
        "Impossible de transférer le fichier vers le dossier de destination: ",
        rename_error,
        " / ",
    );
    m.append(copy_error);
    CoreError::DownloadFailed(
        DownloadErrorDetails::with_message(DownloadErrorCode::OutputPermissionDenied, m),
    )
}

/// The error when the staged file cannot be opened for copying.
pub fn staging_open_failure(reason: &str) -> (e: CoreError)
    ensures
        e matches CoreError::StorageError(m) && m@ == "Failed to open staging file: "@ + reason@,
{
    CoreError::StorageError(concat_str("Failed to open staging file: ", reason))
}

/// The error when the destination file cannot be written.
pub fn destination_write_failure(reason: &str) -> (e: CoreError)
    ensures
        e matches CoreError::StorageError(m) && m@ == "Failed to write destination file: "@
            + reason@,
{
    CoreError::StorageError(concat_str("Failed to write destination file: ", reason))
}

/// What linking the staged file under the current name gave.
pub enum LinkResult {
    Linked,
    AlreadyExists,
    /// Any other failure: the file is then created and copied instead.
    Failed,
}

/// What creating a new file under the current name gave.
pub enum CreateResult {
    Created,
    AlreadyExists,
    Failed(String),
}

/// What to do next.
pub enum PublishStep {
    /// Link the staged file at this path.
    Link(String),
    /// Create a new file at this path and copy the staged file into it.
    Create(String),
    /// The file is published at this path.
    Published(String),
    /// Publishing failed.
    Refused(CoreError),
}

pub struct PublisherView {
    pub dir: Seq<char>,
    pub base: Seq<char>,
    pub ext: Seq<char>,
    pub counter: nat,
}

/// The attempts of publishing one file.
pub struct Publisher {
    dir: String,
    base: String,
    ext: String,
    counter: usize,
}

impl View for Publisher {
    type V = PublisherView;

    closed spec fn view(&self) -> PublisherView {
        PublisherView {
            dir: self.dir@,
            base: self.base@,
            ext: self.ext@,
            counter: self.counter as nat,
        }
    }
}

/// The path tried at the current attempt.
pub open spec fn current_path(p: PublisherView) -> Seq<char> {
    join_file(p.dir, candidate_name(p.base, p.ext, p.counter))
}

pub open spec fn create_failure_message(path: Seq<char>, reason: Seq<char>) -> Seq<char> {
    "Impossible de créer le fichier '"@ + path + "': "@ + reason
}

impl Publisher {
    /// Starts publishing `base.ext` into `dir`: the first attempt links
    /// `dir/base.ext`.
    pub fn new(dir: String, base: String, ext: String) -> (r: (Publisher, PublishStep))
        ensures
            r.0@ == (PublisherView { dir: dir@, base: base@, ext: ext@, counter: 0 }),
            r.1 matches PublishStep::Link(p) && p@ == current_path(r.0@),
    {
        let p = Publisher { dir, base, ext, counter: 0 };
        let path = p.current_path();
        (p, PublishStep::Link(path))
    }

    /// The number of names tried so far.
    pub fn attempts(&self) -> (r: usize)
        ensures
            r as nat == self@.counter,
    {
        self.counter
    }

    /// The path tried at the current attempt.
    pub fn current_path(&self) -> (r: String)
        ensures
            r@ == current_path(self@),
    {
        let name = candidate_file_name(self.base.as_str(), self.ext.as_str(), self.counter);
        join_file_path(self.dir.as_str(), name.as_str())
    }

    /// After a link: published, or the next name when this one is taken, or
    /// creating this one when linking is not possible.
    pub fn after_link(&mut self, result: LinkResult) -> (r: PublishStep)
        requires
            result is AlreadyExists ==> old(self)@.counter < usize::MAX,
        ensures
            match result {
                LinkResult::Linked => r matches PublishStep::Published(p) && p@ == current_path(
                    old(self)@,
                ) && final(self)@ == old(self)@,
                LinkResult::AlreadyExists => r matches PublishStep::Link(p) && p@ == current_path(
                    final(self)@,
                ) && final(self)@ == (PublisherView { counter: old(self)@.counter + 1, ..old(self)@ }),
                LinkResult::Failed => r matches PublishStep::Create(p) && p@ == current_path(
                    old(self)@,
                ) && final(self)@ == old(self)@,
            },
    {
        match result {
            LinkResult::Linked => PublishStep::Published(self.current_path()),
            LinkResult::AlreadyExists => {
                self.counter = self.counter + 1;
                PublishStep::Link(self.current_path())
            },
            LinkResult::Failed => PublishStep::Create(self.current_path()),
        }
    }

    /// After creating a file: published, or the next name when this one is
    /// taken, or refused.
    pub fn after_create(&mut self, result: CreateResult) -> (r: PublishStep)
        requires
            result is AlreadyExists ==> old(self)@.counter < usize::MAX,
        ensures
            match result {
                CreateResult::Created => r matches PublishStep::Published(p) && p@ == current_path(
                    old(self)@,
                ) && final(self)@ == old(self)@,
                CreateResult::AlreadyExists => r matches PublishStep::Link(p) && p@ == current_path(
                    final(self)@,
                ) && final(self)@ == (PublisherView { counter: old(self)@.counter + 1, ..old(self)@ }),
                CreateResult::Failed(reason) => r matches PublishStep::Refused(e) && is_failure(
                    e,
                    DownloadErrorCode::OutputPermissionDenied,
                    create_failure_message(current_path(old(self)@), reason@),
                ) && final(self)@ == old(self)@,
            },
    {
        match result {
            CreateResult::Created => PublishStep::Published(self.current_path()),
            CreateResult::AlreadyExists => {
                self.counter = self.counter + 1;
                PublishStep::Link(self.current_path())
            },
            CreateResult::Failed(reason) => {
                let path = self.current_path();
                let mut m = concat3("Impossible de créer le fichier '", path.as_str(), "': ");
                m.append(reason.as_str());
                PublishStep::Refused(
                    CoreError::DownloadFailed(
                        DownloadErrorDetails::with_message(
                            DownloadErrorCode::OutputPermissionDenied,
                            m,
                        ),
                    ),
                )
            },
        }
    }
}

pub(crate) proof fn lemma_decimal_shape(n: nat)
    ensures
        decimal(n).len() >= 1,
        n >= 10 ==> decimal(n).len() >= 2,
        forall|k: int| 0 <= k < decimal(n).len() ==> is_ascii_digit(#[trigger] decimal(n)[k]),
    decreases n,
{
    if n >= 10 {
        lemma_decimal_shape(n / 10);
        let d = decimal(n / 10);
        assert(decimal(n) == d.push(digit_char(n % 10)));
        assert forall|k: int| 0 <= k < decimal(n).len() implies is_ascii_digit(
            #[trigger] decimal(n)[k],
        ) by {
            if k < d.len() {
                assert(decimal(n)[k] == d[k]);
            }
        }
    }
}

proof fn lemma_decimal_injective(n: nat, m: nat)
    requires
        decimal(n) == decimal(m),
    ensures
        n == m,
    decreases n,
{
    lemma_decimal_shape(n);
    lemma_decimal_shape(m);
    if n < 10 && m < 10 {
        assert(decimal(n)[0] == digit_char(n));
        assert(decimal(m)[0] == digit_char(m));
    } else if n >= 10 && m >= 10 {
        let a = decimal(n);
        assert(a.last() == digit_char(n % 10));
        assert(decimal(m).last() == digit_char(m % 10));
        assert(a.drop_last() == decimal(n / 10));
        assert(decimal(m).drop_last() == decimal(m / 10));
        lemma_decimal_injective(n / 10, m / 10);
    }
}

proof fn lemma_numbered_names_differ(base: Seq<char>, ext: Seq<char>, i: nat, j: nat)
    requires
        i > 0,
        j > 0,
        decimal(i).len() < decimal(j).len(),
    ensures
        candidate_name(base, ext, i) != candidate_name(base, ext, j),
{
    let a = decimal(i);
    let b = decimal(j);
    let s1 = candidate_name(base, ext, i);
    let s2 = candidate_name(base, ext, j);
    reveal_strlit(" (");
    reveal_strlit(").");
    let k: int = (base.len() + 2 + a.len()) as int;
    lemma_decimal_shape(j);
    assert(s1[k] == ')');
    assert(s2[k] == b[a.len() as int]);
    assert(is_ascii_digit(b[a.len() as int]));
}

/// Distinct attempts try distinct names: publishing never retries a name it
/// already found taken.
pub proof fn law_candidate_names_distinct(base: Seq<char>, ext: Seq<char>, i: nat, j: nat)
    requires
        i != j,
    ensures
        candidate_name(base, ext, i) != candidate_name(base, ext, j),
{
    reveal_strlit(" (");
    reveal_strlit(").");
    reveal_strlit(".");
    let s1 = candidate_name(base, ext, i);
    let s2 = candidate_name(base, ext, j);
    if i == 0 || j == 0 {
        let k = base.len() as int;
        if i == 0 {
            assert(s1[k] == '.');
            assert(s2[k] == ' ');
        } else {
            assert(s1[k] == ' ');
            assert(s2[k] == '.');
        }
    } else {
        let a = decimal(i);
        let b = decimal(j);
        if a.len() < b.len() {
            lemma_numbered_names_differ(base, ext, i, j);
        } else if b.len() < a.len() {
            lemma_numbered_names_differ(base, ext, j, i);
        } else if s1 == s2 {
            let p: int = (base.len() + 2) as int;
            assert(a =~= s1.subrange(p, p + a.len()));
            assert(b =~= s2.subrange(p, p + b.len()));
            lemma_decimal_injective(i, j);
        }
    }
}

} // verus!
