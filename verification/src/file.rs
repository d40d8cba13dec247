use vstd::prelude::*;

use crate::archive::{
    zip_count, zip_entry_bytes, zip_entry_contents, zip_entry_count, zip_entry_is_dir,
    zip_entry_located, zip_entry_meta, zip_entry_name, zip_entry_readable, zip_parse_ok,
};
use crate::error::Error;
use crate::strutil::{
    contains_char, contains_seq, contains_substring, find_char, is_space_char, join_path,
    joined_path, lemma_find_char_at, lemma_find_char_from, lemma_rfind_char_before,
    lemma_split_lines_from_is_skip, lemma_trim_end_is_take, lemma_trim_start_is_skip, push_char,
    rfind_char_before, split_lines, split_lines_from, str_eq, strip_cr, trim_spaces, trimmed,
};

verus! {

// The install ledger: per-platform directory resolution, the persisted
// version identity, the record of files written by the last extraction, and
// the lockfile staleness rule. Everything here is pure bookkeeping over
// strings; reading and writing the real file system is the caller's side.

/// The platform kinds the directory resolution distinguishes: a platform
/// with a per-user application-data root and an application-bundle layout,
/// one where processes are spawned without waiting, and the rest.
#[derive(Debug, Clone, Copy, PartialEq, Eq, Structural)]
pub enum Platform {
    MacOs,
    Windows,
    Other,
}

/// The persisted version identity: which version is installed and under
/// which patcher secret it was fetched.
#[derive(Debug)]
pub struct VersionInfo {
    pub version: String,
    pub patcher_secret: String,
}

/// The one text line that stores a version identity.
pub open spec fn version_line_of(patcher_secret: Seq<char>, version: Seq<char>) -> Seq<char> {
    patcher_secret + seq![':'] + version
}

/// A position that splits `t` into the two stored fields: a colon with no
/// other colon anywhere else.
pub open spec fn valid_split(t: Seq<char>, i: int) -> bool {
    0 <= i < t.len() && t[i] == ':' && !contains_char(t.take(i), ':') && !contains_char(
        t.skip(i + 1),
        ':',
    )
}

/// The two fields of a stored version line, or `None` when the line does not
/// hold exactly one colon.
pub open spec fn parse_version_parts(t: Seq<char>) -> Option<(Seq<char>, Seq<char>)> {
    if exists|i: int| valid_split(t, i) {
        let i = choose|i: int| valid_split(t, i);
        Some((t.take(i), t.skip(i + 1)))
    } else {
        None
    }
}

/// A split position is unique when it exists.
pub proof fn lemma_valid_split_unique(t: Seq<char>, i: int, j: int)
    requires
        valid_split(t, i),
        valid_split(t, j),
    ensures
        i == j,
{
    if i < j {
        assert(t.take(j)[i] == ':');
        assert(contains_char(t.take(j), ':'));
    }
    if j < i {
        assert(t.skip(j + 1)[i - j - 1] == ':');
        assert(contains_char(t.skip(j + 1), ':'));
    }
}

impl VersionInfo {
    /// Packs a version and the patcher secret it was fetched under.
    pub fn new(version: String, patcher_secret: String) -> (r: Self)
        ensures
            r.version == version,
            r.patcher_secret == patcher_secret,
    {
        Self { version, patcher_secret }
    }

    /// Parses a stored version line: the content is trimmed and must hold
    /// exactly one colon, with the patcher secret before it and the version
    /// after it. Anything else is treated as no stored version.
    pub fn from_string(content: &str) -> (r: Option<Self>)
        ensures
            r is Some <==> parse_version_parts(trimmed(content@)) is Some,
            r is Some ==> (parse_version_parts(trimmed(content@)) matches Some(p)
                && r->0.patcher_secret@ == p.0 && r->0.version@ == p.1),
    {
        let t = trim_spaces(content);
        let n = t.unicode_len();
        let mut j: usize = 0;
        let mut found: bool = false;
        let mut fi: usize = 0;
        let mut dup: bool = false;
        while j < n
            invariant
                n == t@.len(),
                0 <= j <= n,
                found ==> fi < j && t@[fi as int] == ':',
                found ==> forall|k: int| 0 <= k < fi ==> t@[k] != ':',
                !found ==> forall|k: int| 0 <= k < j ==> t@[k] != ':',
                dup ==> found && contains_char(t@.skip(fi + 1), ':'),
                found && !dup ==> forall|k: int| fi < k < j ==> t@[k] != ':',
            decreases n - j,
        {
            if t.get_char(j) == ':' {
                if found {
                    proof {
                        assert(t@.skip(fi + 1)[j - fi - 1] == ':');
                    }
                    dup = true;
                } else {
                    found = true;
                    fi = j;
                }
            }
            j = j + 1;
        }
        if found && !dup {
            proof {
                assert forall|k: int| 0 <= k < t@.take(fi as int).len() implies #[trigger] t@.take(
                    fi as int,
                )[k] != ':' by {}
                assert(!contains_char(t@.take(fi as int), ':'));
                assert forall|k: int| 0 <= k < t@.skip(fi + 1).len() implies #[trigger] t@.skip(
                    fi + 1,
                )[k] != ':' by {
                    assert(t@.skip(fi + 1)[k] == t@[fi + 1 + k]);
                }
                assert(!contains_char(t@.skip(fi + 1), ':'));
                assert(valid_split(t@, fi as int));
                let w = choose|i: int| valid_split(t@, i);
                lemma_valid_split_unique(t@, w, fi as int);
            }
            let secret_part = t.substring_char(0, fi);
            let version_part = t.substring_char(fi + 1, n);
            proof {
                assert(t@.subrange(0, fi as int) =~= t@.take(fi as int));
                assert(t@.subrange(fi + 1, n as int) =~= t@.skip(fi + 1));
            }
            Some(
                Self {
                    patcher_secret: secret_part.to_owned(),
                    version: version_part.to_owned(),
                },
            )
        } else {
            proof {
                assert forall|i: int| !valid_split(t@, i) by {
                    if valid_split(t@, i) {
                        assert(t@[i] == ':');
                        if !found {
                            assert(false);
                        } else {
                            assert(dup);
                            if i < fi {
                                assert(t@.skip(i + 1)[fi - i - 1] == ':');
                                assert(contains_char(t@.skip(i + 1), ':'));
                                assert(false);
                            } else if i > fi {
                                assert(t@.take(i)[fi as int] == ':');
                                assert(contains_char(t@.take(i), ':'));
                                assert(false);
                            } else {
                                assert(contains_char(t@.skip(i + 1), ':'));
                                assert(false);
                            }
                        }
                    }
                }
            }
            None
        }
    }

    /// Formats the stored line: the patcher secret, a colon, the version.
    pub fn to_string(&self) -> (r: String)
        ensures
            r@ == version_line_of(self.patcher_secret@, self.version@),
    {
        let mut out = self.patcher_secret.clone();
        push_char(&mut out, ':');
        out.append(self.version.as_str());
        proof {
            assert(out@ =~= version_line_of(self.patcher_secret@, self.version@));
        }
        out
    }
}

/// A version line built from a secret and a version that hold no colon, no
/// leading whitespace on the secret and no trailing whitespace on the
/// version parses back to exactly those two fields.
pub proof fn lemma_version_line_round_trip(secret: Seq<char>, version: Seq<char>)
    requires
        secret.len() > 0,
        version.len() > 0,
        !contains_char(secret, ':'),
        !contains_char(version, ':'),
        !is_space_char(secret[0]),
        !is_space_char(version.last()),
    ensures
        parse_version_parts(trimmed(version_line_of(secret, version))) == Some((secret, version)),
{
    let t = version_line_of(secret, version);
    assert(t.len() == secret.len() + 1 + version.len());
    assert(t[0] == secret[0]);
    assert(t.last() == version.last());
    lemma_trim_start_is_skip(t, 0);
    assert(t.skip(0) =~= t);
    lemma_trim_end_is_take(t, t.len() as int);
    assert(t.take(t.len() as int) =~= t);
    assert(trimmed(t) == t);
    let i = secret.len() as int;
    assert(t[i] == ':');
    assert(t.take(i) =~= secret);
    assert(t.skip(i + 1) =~= version);
    assert(valid_split(t, i));
    let w = choose|k: int| valid_split(t, k);
    lemma_valid_split_unique(t, w, i);
}

/// Whether a newly offered version and patcher secret call for an update:
/// yes when nothing is stored, and when either field differs from the stored
/// one.
pub open spec fn needs_update_spec(
    current: Option<VersionInfo>,
    new_version: Seq<char>,
    new_patcher_secret: Seq<char>,
) -> bool {
    match current {
        None => true,
        Some(v) => v.version@ != new_version || v.patcher_secret@ != new_patcher_secret,
    }
}

/// The install directory for an application slug: beneath the per-user data
/// root on the bundle platform, beside the running executable elsewhere.
pub open spec fn install_dir_spec(p: Platform, base: Seq<char>, slug: Seq<char>) -> Seq<char> {
    match p {
        Platform::MacOs => base + "/PatchKit/Apps/"@ + slug + "/Data"@,
        _ => base + "/app"@,
    }
}

/// The state directory holding the version file and the installed-file
/// ledger, kept outside the install directory.
pub open spec fn patcher_dir_spec(p: Platform, base: Seq<char>, slug: Seq<char>) -> Seq<char> {
    match p {
        Platform::MacOs => base + "/PatchKit/Apps/"@ + slug + "/Patcher"@,
        _ => base + "/Patcher"@,
    }
}

/// Tracks the install directory layout for one application slug and the
/// ledger of files written by the most recent extraction.
pub struct FileManager {
    pub install_dir: String,
    pub patcher_dir: String,
    pub installed_files: Vec<String>,
    pub secret_slug: String,
    pub platform: Platform,
}

/// A path made relative to a directory: the empty path for the directory
/// itself, the remainder after `dir/` for a path beneath it, and `None` for
/// anything else.
pub open spec fn relative_to(path: Seq<char>, dir: Seq<char>) -> Option<Seq<char>> {
    if path == dir {
        Some(Seq::empty())
    } else if path.len() > dir.len() && path.take(dir.len() as int) == dir && path[dir.len() as int]
        == '/' {
        Some(path.skip(dir.len() as int + 1))
    } else {
        None
    }
}

/// The ledger file text for the paths from index `i` on: one line per path
/// that lies beneath `dir`, each ending in a newline; paths elsewhere are
/// left out.
pub open spec fn ledger_text_from(paths: Seq<Seq<char>>, dir: Seq<char>, i: int) -> Seq<char>
    decreases paths.len() - i,
        when 0 <= i <= paths.len()
{
    if i >= paths.len() {
        Seq::empty()
    } else {
        (match relative_to(paths[i], dir) {
            Some(rel) => rel.push('\n'),
            None => Seq::empty(),
        }) + ledger_text_from(paths, dir, i + 1)
    }
}

/// The whole ledger file text for a list of paths.
pub open spec fn ledger_text(paths: Seq<Seq<char>>, dir: Seq<char>) -> Seq<char> {
    ledger_text_from(paths, dir, 0)
}

/// The view of a ledger: the character sequences of its paths.
pub open spec fn ledger_view(paths: Seq<String>) -> Seq<Seq<char>> {
    paths.map(|i: int, p: String| p@)
}

/// What a tracked path must look like for the persistence round trip:
/// strictly beneath `dir`, with no newline and no carriage return in its
/// relative part.
pub open spec fn ledger_path_ok(path: Seq<char>, dir: Seq<char>) -> bool {
    &&& path.len() > dir.len()
    &&& path.take(dir.len() as int) == dir
    &&& path[dir.len() as int] == '/'
    &&& (forall|k: int| dir.len() < k < path.len() ==> path[k] != '\n' && path[k] != '\r')
}

proof fn lemma_ledger_text_splits(paths: Seq<Seq<char>>, dir: Seq<char>, i: int)
    requires
        0 <= i <= paths.len(),
        forall|n: int| 0 <= n < paths.len() ==> ledger_path_ok(#[trigger] paths[n], dir),
    ensures
        split_lines(ledger_text_from(paths, dir, i)) == Seq::new(
            (paths.len() - i) as nat,
            |n: int| paths[i + n].skip(dir.len() as int + 1),
        ),
    decreases paths.len() - i,
{
    let d = dir.len() as int;
    if i >= paths.len() {
        assert(split_lines(ledger_text_from(paths, dir, i)) =~= Seq::<Seq<char>>::empty());
        assert(Seq::new((paths.len() - i) as nat, |n: int| paths[i + n].skip(d + 1))
            =~= Seq::<Seq<char>>::empty());
    } else {
        let rel = paths[i].skip(d + 1);
        assert(relative_to(paths[i], dir) == Some(rel));
        let head = rel.push('\n');
        let rest = ledger_text_from(paths, dir, i + 1);
        let t = ledger_text_from(paths, dir, i);
        assert(t == head + rest);
        let j = rel.len() as int;
        assert forall|k: int| 0 <= k < j implies t[k] != '\n' by {
            assert(t[k] == rel[k]);
            assert(rel[k] == paths[i][d + 1 + k]);
        }
        assert(t[j] == '\n');
        lemma_find_char_at(t, '\n', 0, j);
        assert(t.subrange(0, j) =~= rel);
        if rel.len() > 0 {
            assert(rel.last() == paths[i][paths[i].len() - 1]);
        }
        assert(strip_cr(rel) == rel);
        lemma_split_lines_from_is_skip(t, j + 1);
        assert(t.skip(j + 1) =~= rest);
        lemma_ledger_text_splits(paths, dir, i + 1);
        assert(split_lines(t) == seq![rel] + split_lines(rest));
        assert(seq![rel] + Seq::new((paths.len() - i - 1) as nat, |n: int| paths[i + 1 + n].skip(
            d + 1,
        )) =~= Seq::new((paths.len() - i) as nat, |n: int| paths[i + n].skip(d + 1)));
    }
}

/// The persistence round trip: the ledger file text written for tracked
/// paths that all lie beneath the state directory, once split back into
/// lines and joined beneath that directory again, yields exactly the paths
/// it was written from.
pub proof fn lemma_ledger_round_trip(paths: Seq<Seq<char>>, dir: Seq<char>)
    requires
        forall|n: int| 0 <= n < paths.len() ==> ledger_path_ok(#[trigger] paths[n], dir),
    ensures
        split_lines(ledger_text(paths, dir)).map(|n: int, l: Seq<char>| joined_path(dir, l))
            == paths,
{
    let d = dir.len() as int;
    lemma_ledger_text_splits(paths, dir, 0);
    reveal_strlit("/");
    assert forall|n: int| 0 <= n < paths.len() implies joined_path(
        dir,
        paths[n].skip(d + 1),
    ) == paths[n] by {
        assert(paths[n].take(d) == dir);
        assert forall|k: int| 0 <= k < d implies dir[k] == paths[n][k] by {
            assert(paths[n].take(d)[k] == paths[n][k]);
        }
        assert(joined_path(dir, paths[n].skip(d + 1)) =~= paths[n]);
    }
    assert(split_lines(ledger_text(paths, dir)).map(|n: int, l: Seq<char>| joined_path(dir, l))
        =~= paths);
}

impl FileManager {
    /// The state directory for a slug on a platform, given the platform's
    /// base directory (the per-user data root, or the directory of the
    /// running executable).
    pub fn get_patcher_dir(platform: Platform, base_dir: &str, secret_slug: &str) -> (r: String)
        ensures
            r@ == patcher_dir_spec(platform, base_dir@, secret_slug@),
    {
        if platform == Platform::MacOs {
            let mut out = base_dir.to_owned();
            out.append("/PatchKit/Apps/");
            out.append(secret_slug);
            out.append("/Patcher");
            proof {
                assert(out@ =~= patcher_dir_spec(platform, base_dir@, secret_slug@));
            }
            out
        } else {
            let mut out = base_dir.to_owned();
            out.append("/Patcher");
            out
        }
    }

    /// Sets up the manager for one slug: resolves the install and state
    /// directories and starts with an empty ledger.
    pub fn new(platform: Platform, base_dir: &str, secret_slug: &str) -> (r: Self)
        ensures
            r.install_dir@ == install_dir_spec(platform, base_dir@, secret_slug@),
            r.patcher_dir@ == patcher_dir_spec(platform, base_dir@, secret_slug@),
            r.installed_files@ == Seq::<String>::empty(),
            r.secret_slug@ == secret_slug@,
            r.platform == platform,
    {
        let install_dir = if platform == Platform::MacOs {
            let mut out = base_dir.to_owned();
            out.append("/PatchKit/Apps/");
            out.append(secret_slug);
            out.append("/Data");
            proof {
                assert(out@ =~= install_dir_spec(platform, base_dir@, secret_slug@));
            }
            out
        } else {
            let mut out = base_dir.to_owned();
            out.append("/app");
            out
        };
        let patcher_dir = Self::get_patcher_dir(platform, base_dir, secret_slug);
        FileManager {
            install_dir,
            patcher_dir,
            installed_files: Vec::new(),
            secret_slug: secret_slug.to_owned(),
            platform,
        }
    }

    /// The resolved install directory.
    pub fn get_install_dir(&self) -> (r: &str)
        ensures
            r@ == self.install_dir@,
    {
        self.install_dir.as_str()
    }

    /// The path of the installed-file ledger inside the state directory.
    pub fn get_installed_files_path(&self) -> (r: String)
        ensures
            r@ == joined_path(self.patcher_dir@, "installed_files.txt"@),
    {
        join_path(self.patcher_dir.as_str(), "installed_files.txt")
    }

    /// The path of the version file inside the state directory.
    pub fn get_version_file_path(&self) -> (r: String)
        ensures
            r@ == joined_path(self.patcher_dir@, "version.txt"@),
    {
        join_path(self.patcher_dir.as_str(), "version.txt")
    }

    /// Parses the stored version file content. A missing file or a line in
    /// an unrecognised format is no stored version, never an error.
    pub fn get_current_version(&self, content: Option<&str>) -> (r: Option<VersionInfo>)
        ensures
            match content {
                None => r is None,
                Some(c) => {
                    &&& r is Some <==> parse_version_parts(trimmed(c@)) is Some
                    &&& r is Some ==> (parse_version_parts(trimmed(c@)) matches Some(p)
                        && r->0.patcher_secret@ == p.0 && r->0.version@ == p.1)
                },
            },
    {
        match content {
            None => None,
            Some(c) => VersionInfo::from_string(c),
        }
    }

    /// Whether the offered version and patcher secret differ from the stored
    /// identity: true exactly when nothing is stored or either field
    /// changed.
    pub fn needs_update(
        &self,
        current: &Option<VersionInfo>,
        new_version: &str,
        new_patcher_secret: &str,
    ) -> (r: bool)
        ensures
            r == needs_update_spec(*current, new_version@, new_patcher_secret@),
    {
        match current {
            None => true,
            Some(v) => !str_eq(v.version.as_str(), new_version) || !str_eq(
                v.patcher_secret.as_str(),
                new_patcher_secret,
            ),
        }
    }

    /// Replaces the in-memory ledger with the paths listed in the ledger
    /// file text: one relative path per line, each joined beneath the state
    /// directory.
    pub fn load_installed_files(&mut self, content: &str)
        ensures
            ledger_view(final(self).installed_files@) == split_lines(content@).map(
                |i: int, l: Seq<char>| joined_path(old(self).patcher_dir@, l),
            ),
            final(self).install_dir == old(self).install_dir,
            final(self).patcher_dir == old(self).patcher_dir,
            final(self).secret_slug == old(self).secret_slug,
            final(self).platform == old(self).platform,
    {
        let n = content.unicode_len();
        self.installed_files = Vec::new();
        let mut pos: usize = 0;
        let ghost dir = self.patcher_dir@;
        while pos < n
            invariant
                n == content@.len(),
                0 <= pos <= n,
                self.patcher_dir@ == dir,
                self.install_dir == old(self).install_dir,
                self.patcher_dir == old(self).patcher_dir,
                self.secret_slug == old(self).secret_slug,
                self.platform == old(self).platform,
                split_lines(content@) == ledger_view(self.installed_files@).map(
                    |i: int, l: Seq<char>| l.skip(dir.len() as int + 1),
                ) + split_lines_from(content@, pos as int),
                forall|i: int|
                    0 <= i < self.installed_files@.len() ==> #[trigger] self.installed_files@[i]@
                        == joined_path(dir, self.installed_files@[i]@.skip(dir.len() as int + 1)),
            decreases n - pos,
        {
            proof {
                lemma_find_char_from(content@, '\n', pos as int);
            }
            let j = find_char(content, '\n', pos);
            let raw_line = content.substring_char(pos, j);
            let line = if raw_line.unicode_len() > 0 && raw_line.get_char(
                raw_line.unicode_len() - 1,
            ) == '\r' {
                let stripped = raw_line.substring_char(0, raw_line.unicode_len() - 1);
                proof {
                    assert(raw_line@.subrange(0, raw_line@.len() - 1) =~= raw_line@.drop_last());
                }
                stripped
            } else {
                raw_line
            };
            proof {
                assert(line@ == strip_cr(content@.subrange(pos as int, j as int)));
            }
            let joined = join_path(self.patcher_dir.as_str(), line);
            let ghost prev = self.installed_files@;
            self.installed_files.push(joined);
            let new_pos = if j >= n {
                n
            } else {
                j + 1
            };
            proof {
                reveal_strlit("/");
                assert(joined@.skip(dir.len() as int + 1) =~= line@);
                assert(ledger_view(self.installed_files@) =~= ledger_view(prev).push(joined@));
                assert(ledger_view(self.installed_files@).map(
                    |i: int, l: Seq<char>| l.skip(dir.len() as int + 1),
                ) =~= ledger_view(prev).map(|i: int, l: Seq<char>| l.skip(dir.len() as int + 1)).push(
                    line@,
                ));
                if j < n {
                    assert(split_lines_from(content@, pos as int) == seq![line@]
                        + split_lines_from(content@, new_pos as int));
                } else {
                    assert(split_lines_from(content@, pos as int) == seq![line@]);
                    assert(split_lines_from(content@, new_pos as int)
                        =~= Seq::<Seq<char>>::empty());
                    assert(seq![line@] + split_lines_from(content@, new_pos as int)
                        =~= split_lines_from(content@, pos as int));
                }
                assert(ledger_view(prev).map(|i: int, l: Seq<char>| l.skip(dir.len() as int + 1)).push(
                    line@,
                ) + split_lines_from(content@, new_pos as int) =~= ledger_view(prev).map(
                    |i: int, l: Seq<char>| l.skip(dir.len() as int + 1),
                ) + split_lines_from(content@, pos as int));
            }
            pos = new_pos;
        }
        proof {
            assert(split_lines_from(content@, pos as int) =~= Seq::<Seq<char>>::empty());
            assert(split_lines(content@) =~= ledger_view(self.installed_files@).map(
                |i: int, l: Seq<char>| l.skip(dir.len() as int + 1),
            ));
            let lines = split_lines(content@);
            assert forall|i: int| 0 <= i < lines.len() implies ledger_view(
                self.installed_files@,
            )[i] == joined_path(dir, lines[i]) by {
                assert(self.installed_files@[i]@ == joined_path(
                    dir,
                    self.installed_files@[i]@.skip(dir.len() as int + 1),
                ));
            }
            assert(ledger_view(self.installed_files@) =~= lines.map(
                |i: int, l: Seq<char>| joined_path(dir, l),
            ));
        }
    }

    /// Serialises the ledger for persisting: one line per tracked path that
    /// lies beneath the state directory, relative to it; paths elsewhere are
    /// left out.
    pub fn installed_files_text(&self) -> (r: String)
        ensures
            r@ == ledger_text(ledger_view(self.installed_files@), self.patcher_dir@),
    {
        let ghost paths = ledger_view(self.installed_files@);
        let ghost dir = self.patcher_dir@;
        let mut out = String::new();
        let n = self.installed_files.len();
        let mut i: usize = 0;
        while i < n
            invariant
                n == self.installed_files@.len(),
                0 <= i <= n,
                paths == ledger_view(self.installed_files@),
                dir == self.patcher_dir@,
                ledger_text(paths, dir) == out@ + ledger_text_from(paths, dir, i as int),
            decreases n - i,
        {
            let path = &self.installed_files[i];
            let dir_len = self.patcher_dir.unicode_len();
            let path_len = path.unicode_len();
            let ghost before = out@;
            if str_eq(path.as_str(), self.patcher_dir.as_str()) {
                push_char(&mut out, '\n');
                proof {
                    assert(relative_to(paths[i as int], dir) == Some(Seq::<char>::empty()));
                    assert(out@ =~= before + Seq::<char>::empty().push('\n'));
                }
            } else if path_len > dir_len && {
                let prefix = path.as_str().substring_char(0, dir_len);
                str_eq(prefix, self.patcher_dir.as_str()) && path.as_str().get_char(dir_len) == '/'
            } {
                let rel = path.as_str().substring_char(dir_len + 1, path_len);
                out.append(rel);
                push_char(&mut out, '\n');
                proof {
                    assert(path@.subrange(0, dir_len as int) =~= path@.take(dir_len as int));
                    assert(path@.subrange(dir_len as int + 1, path_len as int) =~= path@.skip(
                        dir_len as int + 1,
                    ));
                    assert(relative_to(paths[i as int], dir) == Some(
                        path@.skip(dir_len as int + 1),
                    ));
                    assert(out@ =~= before + path@.skip(dir_len as int + 1).push('\n'));
                }
            } else {
                proof {
                    if path@.len() > dir.len() && path@.take(dir.len() as int) == dir && path@[
                        dir.len() as int
                    ] == '/' {
                        assert(path@.subrange(0, dir_len as int) =~= path@.take(dir_len as int));
                        assert(false);
                    }
                    assert(relative_to(paths[i as int], dir) is None);
                    assert(out@ =~= before + Seq::<char>::empty());
                }
            }
            i = i + 1;
        }
        proof {
            assert(ledger_text_from(paths, dir, n as int) =~= Seq::<char>::empty());
            assert(ledger_text(paths, dir) =~= out@);
        }
        out
    }

    /// The removal order for tracked paths: the ledger reversed, so children
    /// come before the directories that hold them.
    pub fn remove_old_files(&self) -> (r: Vec<String>)
        ensures
            ledger_view(r@) == ledger_view(self.installed_files@).reverse(),
    {
        let n = self.installed_files.len();
        let mut out: Vec<String> = Vec::new();
        let mut i: usize = 0;
        while i < n
            invariant
                n == self.installed_files@.len(),
                0 <= i <= n,
                out@.len() == i,
                forall|k: int|
                    0 <= k < i ==> #[trigger] out@[k]@ == self.installed_files@[n - 1 - k]@,
            decreases n - i,
        {
            out.push(self.installed_files[n - 1 - i].clone());
            i = i + 1;
        }
        proof {
            assert(ledger_view(out@) =~= ledger_view(self.installed_files@).reverse());
        }
        out
    }

    /// What to do with one tracked path during cleanup: remove a file
    /// unconditionally, remove a directory only once it is empty, and leave
    /// anything else alone.
    pub fn removal_action(&self, is_file: bool, is_dir: bool, dir_is_empty: bool) -> (r:
        RemovalAction)
        ensures
            is_file ==> r == RemovalAction::RemoveFile,
            !is_file && is_dir && dir_is_empty ==> r == RemovalAction::RemoveDir,
            !is_file && is_dir && !dir_is_empty ==> r == RemovalAction::Keep,
            !is_file && !is_dir ==> r == RemovalAction::Keep,
    {
        if is_file {
            RemovalAction::RemoveFile
        } else if is_dir && dir_is_empty {
            RemovalAction::RemoveDir
        } else {
            RemovalAction::Keep
        }
    }

    /// Judges a lockfile from what the file system reports: no file means
    /// unlocked; a file older than the staleness threshold is abandoned and
    /// is to be deleted; anything else, age unreadable included, means
    /// locked.
    pub fn check_lockfile(&self, exists: bool, age: Option<(u64, u32)>) -> (r: LockDecision)
        ensures
            !exists ==> r == (LockDecision { locked: false, remove_stale: false }),
            exists && lock_age_is_stale(age) ==> r == (LockDecision {
                locked: false,
                remove_stale: true,
            }),
            exists && !lock_age_is_stale(age) ==> r == (LockDecision {
                locked: true,
                remove_stale: false,
            }),
    {
        if !exists {
            LockDecision { locked: false, remove_stale: false }
        } else {
            let stale = match age {
                Some((secs, nanos)) => secs > LOCKFILE_STALE_SECS || (secs == LOCKFILE_STALE_SECS
                    && nanos > 0),
                None => false,
            };
            if stale {
                LockDecision { locked: false, remove_stale: true }
            } else {
                LockDecision { locked: true, remove_stale: false }
            }
        }
    }
}

/// The textual parent of a path: everything before the last `/`, empty when
/// the path holds none.
pub open spec fn parent_dir_of(path: Seq<char>) -> Seq<char> {
    let k = rfind_char_before(path, '/', path.len() as int);
    if k >= 0 {
        path.take(k)
    } else {
        Seq::empty()
    }
}

/// The parent directory part of a path string.
pub fn parent_path<'a>(path: &'a str) -> (r: &'a str)
    ensures
        r@ == parent_dir_of(path@),
{
    let n = path.unicode_len();
    let mut k: usize = n;
    while k > 0 && path.get_char(k - 1) != '/'
        invariant
            n == path@.len(),
            0 <= k <= n,
            forall|j: int| k <= j < n ==> path@[j] != '/',
        decreases k,
    {
        k = k - 1;
    }
    proof {
        lemma_rfind_char_before(path@, '/', n as int);
        let r0 = rfind_char_before(path@, '/', n as int);
        if k > 0 {
            if r0 > k - 1 {
                assert(path@[r0] != '/');
            }
            if r0 < k - 1 {
                assert(path@[k - 1] != '/');
            }
            assert(r0 == k - 1);
        } else {
            if r0 >= 0 {
                assert(path@[r0] != '/');
            }
            assert(r0 == -1);
        }
    }
    if k == 0 {
        let empty_parent = "";
        proof {
            reveal_strlit("");
            assert(empty_parent@ =~= Seq::<char>::empty());
        }
        empty_parent
    } else {
        let r = path.substring_char(0, k - 1);
        proof {
            assert(path@.subrange(0, k - 1) =~= path@.take(k - 1));
        }
        r
    }
}

/// One step of an extraction plan: make a directory, or make a file's parent
/// directories and write its contents, marking it executable where the
/// bundle layout calls for it.
pub enum ExtractOp {
    MakeDir(String),
    WriteFile { parent_dir: String, path: String, contents: Vec<u8>, executable: bool },
}

/// Where entry `i` of the archive is written: the entry's sanitised name
/// joined beneath the destination directory.
pub open spec fn planned_path(data: Seq<u8>, dest: Seq<char>, i: int) -> Seq<char> {
    joined_path(dest, zip_entry_name(data, i))
}

/// The paths an extraction creates, one per archive entry, in entry order.
pub open spec fn planned_ledger(data: Seq<u8>, dest: Seq<char>) -> Seq<Seq<char>> {
    Seq::new(zip_entry_count(data), |i: int| planned_path(data, dest, i))
}

/// Whether a file written at `path` receives executable permission bits:
/// only on the bundle platform, for files inside the bundle's executable
/// subdirectory.
pub open spec fn planned_executable(platform: Platform, path: Seq<char>) -> bool {
    platform is MacOs && contains_seq(path, "Contents/MacOS"@)
}

/// Whether one plan step treats entry `i` of the archive exactly as the
/// extraction promises: a directory entry becomes its directory, a file
/// entry becomes its parent directories, its contents and its permission
/// flag.
pub open spec fn op_matches(
    op: ExtractOp,
    data: Seq<u8>,
    dest: Seq<char>,
    platform: Platform,
    i: int,
) -> bool {
    if zip_entry_is_dir(data, i) {
        op matches ExtractOp::MakeDir(p) && p@ == planned_path(data, dest, i)
    } else {
        op matches ExtractOp::WriteFile { parent_dir, path, contents, executable } && path@
            == planned_path(data, dest, i) && parent_dir@ == parent_dir_of(
            planned_path(data, dest, i),
        ) && contents@ == zip_entry_bytes(data, i) && executable == planned_executable(
            platform,
            planned_path(data, dest, i),
        )
    }
}

impl FileManager {
    /// Plans the extraction of an in-memory archive into `destination`: the
    /// ledger is cleared and rebuilt with every entry's output path in entry
    /// order, and the returned steps describe each directory to make and
    /// each file to write. On a failing archive the ledger keeps the paths
    /// of the entries already planned, in order, and nothing is rolled back.
    pub fn extract_zip(&mut self, zip_data: &[u8], destination: &str) -> (r: Result<
        Vec<ExtractOp>,
        Error,
    >)
        ensures
            final(self).install_dir == old(self).install_dir,
            final(self).patcher_dir == old(self).patcher_dir,
            final(self).secret_slug == old(self).secret_slug,
            final(self).platform == old(self).platform,
            r is Ok ==> {
                &&& zip_parse_ok(zip_data@)
                &&& ledger_view(final(self).installed_files@) == planned_ledger(
                    zip_data@,
                    destination@,
                )
                &&& r->Ok_0@.len() == zip_entry_count(zip_data@)
                &&& forall|i: int|
                    0 <= i < r->Ok_0@.len() ==> op_matches(
                        #[trigger] r->Ok_0@[i],
                        zip_data@,
                        destination@,
                        old(self).platform,
                        i,
                    )
            },
            r is Err ==> {
                &&& final(self).installed_files@.len() <= zip_entry_count(zip_data@)
                &&& ledger_view(final(self).installed_files@) == planned_ledger(
                    zip_data@,
                    destination@,
                ).take(final(self).installed_files@.len() as int)
            },
            (zip_parse_ok(zip_data@) && (forall|i: int|
                0 <= i < zip_entry_count(zip_data@) ==> #[trigger] zip_entry_located(zip_data@, i)
                    && (zip_entry_is_dir(zip_data@, i) || zip_entry_readable(zip_data@, i))))
                ==> r is Ok,
    {
        self.installed_files = Vec::new();
        let count = match zip_count(zip_data) {
            Ok(c) => c,
            Err(e) => {
                proof {
                    assert(ledger_view(self.installed_files@) =~= planned_ledger(
                        zip_data@,
                        destination@,
                    ).take(0));
                }
                return Err(e);
            },
        };
        let mut ops: Vec<ExtractOp> = Vec::new();
        let mut i: usize = 0;
        while i < count
            invariant
                zip_parse_ok(zip_data@),
                count as nat == zip_entry_count(zip_data@),
                0 <= i <= count,
                self.install_dir == old(self).install_dir,
                self.patcher_dir == old(self).patcher_dir,
                self.secret_slug == old(self).secret_slug,
                self.platform == old(self).platform,
                self.installed_files@.len() == i,
                ledger_view(self.installed_files@) == planned_ledger(
                    zip_data@,
                    destination@,
                ).take(i as int),
                ops@.len() == i,
                forall|k: int|
                    0 <= k < i ==> op_matches(
                        #[trigger] ops@[k],
                        zip_data@,
                        destination@,
                        old(self).platform,
                        k,
                    ),
            decreases count - i,
        {
            let ghost prev = self.installed_files@;
            let (name, is_dir) = match zip_entry_meta(zip_data, i) {
                Ok(m) => m,
                Err(e) => {
                    proof {
                        assert(!zip_entry_located(zip_data@, i as int));
                    }
                    return Err(e);
                },
            };
            let outpath = join_path(destination, name.as_str());
            if is_dir {
                let dir_path = outpath.clone();
                ops.push(ExtractOp::MakeDir(dir_path));
            } else {
                let contents = match zip_entry_contents(zip_data, i) {
                    Ok(c) => c,
                    Err(e) => {
                        proof {
                            assert(zip_entry_located(zip_data@, i as int) && !zip_entry_is_dir(
                                zip_data@,
                                i as int,
                            ) && !zip_entry_readable(zip_data@, i as int));
                        }
                        return Err(e);
                    },
                };
                let parent_dir = parent_path(outpath.as_str()).to_owned();
                let executable = self.platform == Platform::MacOs && contains_substring(
                    outpath.as_str(),
                    "Contents/MacOS",
                );
                let file_path = outpath.clone();
                ops.push(
                    ExtractOp::WriteFile { parent_dir, path: file_path, contents, executable },
                );
            }
            self.installed_files.push(outpath);
            proof {
                assert(ledger_view(self.installed_files@) =~= planned_ledger(
                    zip_data@,
                    destination@,
                ).take(i + 1));
            }
            i = i + 1;
        }
        proof {
            assert(planned_ledger(zip_data@, destination@).take(count as int) =~= planned_ledger(
                zip_data@,
                destination@,
            ));
        }
        Ok(ops)
    }
}

/// How many seconds a lockfile may go untouched before it counts as
/// abandoned.
pub const LOCKFILE_STALE_SECS: u64 = 60;

/// Whether a measured lockfile age (seconds and leftover nanoseconds since
/// the file was last modified) is strictly beyond the staleness threshold.
/// An unreadable age is never stale.
pub open spec fn lock_age_is_stale(age: Option<(u64, u32)>) -> bool {
    match age {
        Some(a) => a.0 > LOCKFILE_STALE_SECS || (a.0 == LOCKFILE_STALE_SECS && a.1 > 0),
        None => false,
    }
}

/// The verdict on a lockfile: whether the lock is held, and whether a stale
/// lockfile is to be deleted.
#[derive(Debug, Clone, Copy, PartialEq, Eq, Structural)]
pub struct LockDecision {
    pub locked: bool,
    pub remove_stale: bool,
}

/// What cleanup does with one tracked path.
#[derive(Debug, Clone, Copy, PartialEq, Eq, Structural)]
pub enum RemovalAction {
    RemoveFile,
    RemoveDir,
    Keep,
}

} // verus!
