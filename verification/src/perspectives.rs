//! Perspective configuration: named base directories plus perspectives
//! that list `<dir_name>:<relative_path>` documents, validated against what
//! the file system resolved those paths to.
use vstd::prelude::*;
use vstd::string::*;
use crate::path::{join, path_is_within, path_join, strip_prefix};
use crate::text::{assoc, lemma_assoc_found, lemma_assoc_missing, debug_quote, debug_rendering, contains_string, first_index_of, find_char, lemma_first_index_of, same_text, slice, views};

verus! {

/// Reason recorded when a resolved document path escapes its base directory.
pub const OUTSIDE_BASE_REASON: &'static str = "resolved path is outside base directory";

/// Reason recorded for a document path that the file system probe did not
/// resolve.
pub const NOT_RESOLVED_REASON: &'static str = "No such file or directory (os error 2)";

/// Raw configuration for perspectives.
#[derive(Debug, Clone, Default)]
pub struct PerspectivesConfig {
    /// Named base directories for perspective documents: `(name, path)`.
    pub perspectives_dirs: Vec<(String, String)>,
    /// Perspective definitions (name + paths).
    pub perspectives: Vec<PerspectiveEntry>,
}

/// A single perspective definition from configuration.
#[derive(Debug, Clone)]
pub struct PerspectiveEntry {
    /// Unique identifier for this perspective.
    pub name: String,
    /// Paths in `<dir_name>:<relative_path>` format.
    pub paths: Vec<String>,
}

/// Validated and resolved perspective configuration ready for runtime use.
#[derive(Debug, Clone)]
pub struct ValidatedPerspectives {
    /// Resolved base directories: `(name, canonical absolute path)`.
    pub dirs: Vec<(String, String)>,
    /// Validated perspective definitions.
    pub perspectives: Vec<ValidatedPerspective>,
}

/// A single validated perspective.
#[derive(Debug, Clone)]
pub struct ValidatedPerspective {
    pub name: String,
    pub paths: Vec<PerspectivePath>,
}

/// A parsed `<dir_name>:<relative_path>` entry.
#[derive(Debug, Clone)]
pub struct PerspectivePath {
    pub dir_name: String,
    pub relative_path: String,
}

/// Errors from validating perspective configuration.
#[derive(Debug)]
pub enum PerspectivesValidationError {
    /// A perspectives_dirs directory does not exist.
    DirNotFound { name: String, path: String },
    /// Perspective name is not unique.
    DuplicateName { name: String },
    /// Perspective has empty paths.
    EmptyPaths { name: String },
    /// A path entry is empty or has an empty relative component.
    EmptyPathEntry { perspective: String, entry: String },
    /// Duplicate path entry within a perspective.
    DuplicatePathEntry { perspective: String, entry: String },
    /// The dir_name in a path entry does not exist in perspectives_dirs.
    UnknownDir { perspective: String, dir_name: String },
    /// Resolved path is outside the base directory (traversal attempt).
    PathTraversal { perspective: String, entry: String, reason: String },
}

/// Aggregated error for perspective configuration validation.
#[derive(Debug)]
pub struct PerspectivesConfigError {
    pub errors: Vec<PerspectivesValidationError>,
}

/// What the file system said about the paths a configuration names: for
/// each configured base directory path, its canonical form when it exists
/// and is a directory; for each document path (a canonical base joined
/// with a relative path), its canonical form or the error text.
#[derive(Debug, Clone, Default)]
pub struct ResolvedPaths {
    pub dirs: Vec<(String, Option<String>)>,
    pub paths: Vec<(String, Result<String, String>)>,
}

// ---------------------------------------------------------------------------
// Abstract views
// ---------------------------------------------------------------------------

pub struct PathView {
    pub dir_name: Seq<char>,
    pub relative_path: Seq<char>,
}

pub struct PerspectiveView {
    pub name: Seq<char>,
    pub paths: Seq<PathView>,
}

pub struct ValidatedView {
    pub dirs: Seq<(Seq<char>, Seq<char>)>,
    pub perspectives: Seq<PerspectiveView>,
}

pub enum ErrorView {
    DirNotFound { name: Seq<char>, path: Seq<char> },
    DuplicateName { name: Seq<char> },
    EmptyPaths { name: Seq<char> },
    EmptyPathEntry { perspective: Seq<char>, entry: Seq<char> },
    DuplicatePathEntry { perspective: Seq<char>, entry: Seq<char> },
    UnknownDir { perspective: Seq<char>, dir_name: Seq<char> },
    PathTraversal { perspective: Seq<char>, entry: Seq<char>, reason: Seq<char> },
}

pub open spec fn pair_views(v: Seq<(String, String)>) -> Seq<(Seq<char>, Seq<char>)> {
    v.map_values(|p: (String, String)| (p.0@, p.1@))
}

impl View for PerspectivePath {
    type V = PathView;

    open spec fn view(&self) -> PathView {
        PathView { dir_name: self.dir_name@, relative_path: self.relative_path@ }
    }
}

pub open spec fn path_views(v: Seq<PerspectivePath>) -> Seq<PathView> {
    v.map_values(|p: PerspectivePath| p@)
}

impl View for ValidatedPerspective {
    type V = PerspectiveView;

    open spec fn view(&self) -> PerspectiveView {
        PerspectiveView { name: self.name@, paths: path_views(self.paths@) }
    }
}

pub open spec fn perspective_views(v: Seq<ValidatedPerspective>) -> Seq<PerspectiveView> {
    v.map_values(|p: ValidatedPerspective| p@)
}

impl View for ValidatedPerspectives {
    type V = ValidatedView;

    open spec fn view(&self) -> ValidatedView {
        ValidatedView {
            dirs: pair_views(self.dirs@),
            perspectives: perspective_views(self.perspectives@),
        }
    }
}

impl View for PerspectivesValidationError {
    type V = ErrorView;

    open spec fn view(&self) -> ErrorView {
        match self {
            PerspectivesValidationError::DirNotFound { name, path } => ErrorView::DirNotFound {
                name: name@,
                path: path@,
            },
            PerspectivesValidationError::DuplicateName { name } => ErrorView::DuplicateName {
                name: name@,
            },
            PerspectivesValidationError::EmptyPaths { name } => ErrorView::EmptyPaths { name: name@ },
            PerspectivesValidationError::EmptyPathEntry { perspective, entry } =>
                ErrorView::EmptyPathEntry { perspective: perspective@, entry: entry@ },
            PerspectivesValidationError::DuplicatePathEntry { perspective, entry } =>
                ErrorView::DuplicatePathEntry { perspective: perspective@, entry: entry@ },
            PerspectivesValidationError::UnknownDir { perspective, dir_name } =>
                ErrorView::UnknownDir { perspective: perspective@, dir_name: dir_name@ },
            PerspectivesValidationError::PathTraversal { perspective, entry, reason } =>
                ErrorView::PathTraversal {
                    perspective: perspective@,
                    entry: entry@,
                    reason: reason@,
                },
        }
    }
}

pub open spec fn error_views(v: Seq<PerspectivesValidationError>) -> Seq<ErrorView> {
    v.map_values(|e: PerspectivesValidationError| e@)
}

/// A configured perspective: its name and its raw path entries.
pub open spec fn entry_view(e: PerspectiveEntry) -> (Seq<char>, Seq<Seq<char>>) {
    (e.name@, views(e.paths@))
}

pub open spec fn entry_views(v: Seq<PerspectiveEntry>) -> Seq<(Seq<char>, Seq<Seq<char>>)> {
    v.map_values(|e: PerspectiveEntry| entry_view(e))
}

pub open spec fn dir_probe_views(v: Seq<(String, Option<String>)>) -> Seq<(Seq<char>, Option<Seq<char>>)> {
    v.map_values(
        |p: (String, Option<String>)|
            (
                p.0@,
                match p.1 {
                    Some(c) => Some(c@),
                    None => None,
                },
            ),
    )
}

pub open spec fn path_probe_views(v: Seq<(String, Result<String, String>)>) -> Seq<(Seq<char>, Result<Seq<char>, Seq<char>>)> {
    v.map_values(
        |p: (String, Result<String, String>)|
            (
                p.0@,
                match p.1 {
                    Ok(c) => Ok(c@),
                    Err(e) => Err(e@),
                },
            ),
    )
}

// ---------------------------------------------------------------------------
// The validation rules
// ---------------------------------------------------------------------------

/// Canonical directory that the probe reports for a configured path.
pub open spec fn probed_dir(probe: Seq<(Seq<char>, Option<Seq<char>>)>, path: Seq<char>) -> Option<Seq<char>> {
    match assoc(probe, path) {
        Some(r) => r,
        None => None,
    }
}

/// Canonical form (or error text) that the probe reports for a document path.
pub open spec fn probed_path(probe: Seq<(Seq<char>, Result<Seq<char>, Seq<char>>)>, path: Seq<char>) -> Result<Seq<char>, Seq<char>> {
    match assoc(probe, path) {
        Some(r) => r,
        None => Err(NOT_RESOLVED_REASON@),
    }
}

/// Base directories that resolved, and an error for each that did not.
pub open spec fn dir_phase(
    cfg: Seq<(Seq<char>, Seq<char>)>,
    probe: Seq<(Seq<char>, Option<Seq<char>>)>,
) -> (Seq<(Seq<char>, Seq<char>)>, Seq<ErrorView>)
    decreases cfg.len(),
{
    if cfg.len() == 0 {
        (Seq::empty(), Seq::empty())
    } else {
        let prev = dir_phase(cfg.drop_last(), probe);
        let (name, path) = cfg.last();
        match probed_dir(probe, path) {
            Some(c) => (prev.0.push((name, c)), prev.1),
            None => (prev.0, prev.1.push(ErrorView::DirNotFound { name, path })),
        }
    }
}

/// An error for each perspective name that an earlier one already used.
pub open spec fn duplicate_name_errors(names: Seq<Seq<char>>) -> Seq<ErrorView>
    decreases names.len(),
{
    if names.len() == 0 {
        Seq::empty()
    } else {
        let prev = duplicate_name_errors(names.drop_last());
        if names.drop_last().contains(names.last()) {
            prev.push(ErrorView::DuplicateName { name: names.last() })
        } else {
            prev
        }
    }
}

/// Progress through one perspective's path entries: entries seen so far,
/// the paths accepted, and the errors found.
pub struct PathPhase {
    pub seen: Seq<Seq<char>>,
    pub paths: Seq<PathView>,
    pub errors: Seq<ErrorView>,
}

/// One path entry of perspective `pname` checked against the resolved base
/// directories `dirs` and the probe.
pub open spec fn path_step(
    pname: Seq<char>,
    dirs: Seq<(Seq<char>, Seq<char>)>,
    probe: Seq<(Seq<char>, Result<Seq<char>, Seq<char>>)>,
    st: PathPhase,
    entry: Seq<char>,
) -> PathPhase {
    let empty_entry = PathPhase {
        errors: st.errors.push(ErrorView::EmptyPathEntry { perspective: pname, entry }),
        ..st
    };
    match first_index_of(entry, ':') {
        None => empty_entry,
        Some(k) => {
            let dir_name = entry.subrange(0, k);
            let rel = entry.skip(k + 1);
            if rel.len() == 0 {
                empty_entry
            } else if st.seen.contains(entry) {
                PathPhase {
                    errors: st.errors.push(ErrorView::DuplicatePathEntry { perspective: pname, entry }),
                    ..st
                }
            } else {
                let seen = st.seen.push(entry);
                match assoc(dirs, dir_name) {
                    None => PathPhase {
                        seen,
                        paths: st.paths,
                        errors: st.errors.push(ErrorView::UnknownDir { perspective: pname, dir_name }),
                    },
                    Some(base) => match probed_path(probe, path_join(base, rel)) {
                        Ok(c) => if path_is_within(c, base) {
                            PathPhase {
                                seen,
                                paths: st.paths.push(PathView { dir_name, relative_path: rel }),
                                errors: st.errors,
                            }
                        } else {
                            PathPhase {
                                seen,
                                paths: st.paths,
                                errors: st.errors.push(
                                    ErrorView::PathTraversal {
                                        perspective: pname,
                                        entry,
                                        reason: OUTSIDE_BASE_REASON@,
                                    },
                                ),
                            }
                        },
                        Err(reason) => PathPhase {
                            seen,
                            paths: st.paths,
                            errors: st.errors.push(
                                ErrorView::PathTraversal { perspective: pname, entry, reason },
                            ),
                        },
                    },
                }
            }
        },
    }
}

/// All path entries of perspective `pname`, in order.
pub open spec fn path_phase(
    pname: Seq<char>,
    dirs: Seq<(Seq<char>, Seq<char>)>,
    probe: Seq<(Seq<char>, Result<Seq<char>, Seq<char>>)>,
    entries: Seq<Seq<char>>,
) -> PathPhase
    decreases entries.len(),
{
    if entries.len() == 0 {
        PathPhase { seen: Seq::empty(), paths: Seq::empty(), errors: Seq::empty() }
    } else {
        path_step(pname, dirs, probe, path_phase(pname, dirs, probe, entries.drop_last()), entries.last())
    }
}

/// Perspectives validated so far and the errors found.
pub open spec fn entry_phase(
    dirs: Seq<(Seq<char>, Seq<char>)>,
    probe: Seq<(Seq<char>, Result<Seq<char>, Seq<char>>)>,
    entries: Seq<(Seq<char>, Seq<Seq<char>>)>,
) -> (Seq<PerspectiveView>, Seq<ErrorView>)
    decreases entries.len(),
{
    if entries.len() == 0 {
        (Seq::empty(), Seq::empty())
    } else {
        let prev = entry_phase(dirs, probe, entries.drop_last());
        let (name, paths) = entries.last();
        if paths.len() == 0 {
            (prev.0, prev.1.push(ErrorView::EmptyPaths { name }))
        } else {
            let ph = path_phase(name, dirs, probe, paths);
            (prev.0.push(PerspectiveView { name, paths: ph.paths }), prev.1 + ph.errors)
        }
    }
}

/// Every error that validation reports, in the order it reports them:
/// base directories first, then duplicate names, then each perspective's
/// entries.
pub open spec fn validation_errors(
    cfg_dirs: Seq<(Seq<char>, Seq<char>)>,
    entries: Seq<(Seq<char>, Seq<Seq<char>>)>,
    dir_probe: Seq<(Seq<char>, Option<Seq<char>>)>,
    path_probe: Seq<(Seq<char>, Result<Seq<char>, Seq<char>>)>,
) -> Seq<ErrorView> {
    let d = dir_phase(cfg_dirs, dir_probe);
    d.1 + duplicate_name_errors(entries.map_values(|e: (Seq<char>, Seq<Seq<char>>)| e.0)) + entry_phase(
        d.0,
        path_probe,
        entries,
    ).1
}

impl PerspectivesConfig {
    pub open spec fn dirs_view(&self) -> Seq<(Seq<char>, Seq<char>)> {
        pair_views(self.perspectives_dirs@)
    }

    pub open spec fn entries_view(&self) -> Seq<(Seq<char>, Seq<Seq<char>>)> {
        entry_views(self.perspectives@)
    }

    /// The errors that validating against `fs` reports.
    pub open spec fn errors_against(&self, fs: ResolvedPaths) -> Seq<ErrorView> {
        validation_errors(
            self.dirs_view(),
            self.entries_view(),
            dir_probe_views(fs.dirs@),
            path_probe_views(fs.paths@),
        )
    }

    /// The validated configuration, when there are no errors.
    pub open spec fn validated_against(&self, fs: ResolvedPaths) -> ValidatedView {
        let d = dir_phase(self.dirs_view(), dir_probe_views(fs.dirs@));
        ValidatedView {
            dirs: d.0,
            perspectives: entry_phase(d.0, path_probe_views(fs.paths@), self.entries_view()).0,
        }
    }
}


// ---------------------------------------------------------------------------
// Execution
// ---------------------------------------------------------------------------

pub open spec fn opt_view(o: Option<String>) -> Option<Seq<char>> {
    match o {
        Some(s) => Some(s@),
        None => None,
    }
}

/// Canonical directory that `fs` reports for the configured path `path`.
fn probe_dir(fs: &ResolvedPaths, path: &str) -> (r: Option<String>)
    ensures
        opt_view(r) == probed_dir(dir_probe_views(fs.dirs@), path@),
{
    let ghost list = dir_probe_views(fs.dirs@);
    let mut i: usize = 0;
    while i < fs.dirs.len()
        invariant
            i <= fs.dirs@.len(),
            list == dir_probe_views(fs.dirs@),
            forall|j: int| 0 <= j < i ==> list[j].0 != path@,
        decreases fs.dirs@.len() - i,
    {
        if same_text(fs.dirs[i].0.as_str(), path) {
            proof {
                lemma_assoc_found(list, path@, i as int);
            }
            return fs.dirs[i].1.clone();
        }
        i = i + 1;
    }
    proof {
        lemma_assoc_missing(list, path@);
    }
    None
}

pub open spec fn result_view(r: Result<String, String>) -> Result<Seq<char>, Seq<char>> {
    match r {
        Ok(s) => Ok(s@),
        Err(e) => Err(e@),
    }
}

/// Canonical form or error text that `fs` reports for the document path `path`.
fn probe_path(fs: &ResolvedPaths, path: &str) -> (r: Result<String, String>)
    ensures
        result_view(r) == probed_path(path_probe_views(fs.paths@), path@),
{
    let ghost list = path_probe_views(fs.paths@);
    let mut i: usize = 0;
    while i < fs.paths.len()
        invariant
            i <= fs.paths@.len(),
            list == path_probe_views(fs.paths@),
            forall|j: int| 0 <= j < i ==> list[j].0 != path@,
        decreases fs.paths@.len() - i,
    {
        if same_text(fs.paths[i].0.as_str(), path) {
            proof {
                lemma_assoc_found(list, path@, i as int);
            }
            return match &fs.paths[i].1 {
                Ok(c) => Ok(c.clone()),
                Err(e) => Err(e.clone()),
            };
        }
        i = i + 1;
    }
    proof {
        lemma_assoc_missing(list, path@);
    }
    Err(String::from_str(NOT_RESOLVED_REASON))
}

/// The base directory recorded under `name`.
pub fn lookup_base(dirs: &Vec<(String, String)>, name: &str) -> (r: Option<String>)
    ensures
        opt_view(r) == assoc(pair_views(dirs@), name@),
{
    let ghost list = pair_views(dirs@);
    let mut i: usize = 0;
    while i < dirs.len()
        invariant
            i <= dirs@.len(),
            list == pair_views(dirs@),
            forall|j: int| 0 <= j < i ==> list[j].0 != name@,
        decreases dirs@.len() - i,
    {
        if same_text(dirs[i].0.as_str(), name) {
            proof {
                lemma_assoc_found(list, name@, i as int);
            }
            return Some(dirs[i].1.clone());
        }
        i = i + 1;
    }
    proof {
        lemma_assoc_missing(list, name@);
    }
    None
}

/// Check the path entries of perspective `pname`.
fn validate_paths(
    pname: &String,
    entries: &Vec<String>,
    dirs: &Vec<(String, String)>,
    fs: &ResolvedPaths,
) -> (r: (Vec<PerspectivePath>, Vec<PerspectivesValidationError>))
    ensures
        path_views(r.0@) == path_phase(pname@, pair_views(dirs@), path_probe_views(fs.paths@), views(entries@)).paths,
        error_views(r.1@) == path_phase(pname@, pair_views(dirs@), path_probe_views(fs.paths@), views(entries@)).errors,
{
    let ghost dv = pair_views(dirs@);
    let ghost pv = path_probe_views(fs.paths@);
    let ghost ev = views(entries@);
    let mut seen: Vec<String> = Vec::new();
    let mut paths: Vec<PerspectivePath> = Vec::new();
    let mut errors: Vec<PerspectivesValidationError> = Vec::new();
    let mut i: usize = 0;
    proof {
        reveal_strlit(":");
    }
    while i < entries.len()
        invariant
            i <= entries@.len(),
            dv == pair_views(dirs@),
            pv == path_probe_views(fs.paths@),
            ev == views(entries@),
            views(seen@) == path_phase(pname@, dv, pv, ev.take(i as int)).seen,
            path_views(paths@) == path_phase(pname@, dv, pv, ev.take(i as int)).paths,
            error_views(errors@) == path_phase(pname@, dv, pv, ev.take(i as int)).errors,
        decreases entries@.len() - i,
    {
        let ghost prev = path_phase(pname@, dv, pv, ev.take(i as int));
        let entry = &entries[i];
        assert(ev.take(i + 1).drop_last() =~= ev.take(i as int));
        assert(ev.take(i + 1).last() == entry@);
        let ghost next = path_step(pname@, dv, pv, prev, entry@);
        assert(path_phase(pname@, dv, pv, ev.take(i + 1)) == next);
        proof {
            lemma_first_index_of(entry@, ':');
        }
        let n = entry.as_str().unicode_len();
        match find_char(entry.as_str(), ':') {
            None => {
                errors.push(
                    PerspectivesValidationError::EmptyPathEntry {
                        perspective: pname.clone(),
                        entry: entry.clone(),
                    },
                );
                assert(error_views(errors@) =~= next.errors);
            },
            Some(k) => {
                let dir_name = slice(entry.as_str(), 0, k);
                let rel = slice(entry.as_str(), k + 1, n);
                assert(rel@ =~= entry@.skip(k + 1));
                if rel.as_str().unicode_len() == 0 {
                    errors.push(
                        PerspectivesValidationError::EmptyPathEntry {
                            perspective: pname.clone(),
                            entry: entry.clone(),
                        },
                    );
                    assert(error_views(errors@) =~= next.errors);
                } else if contains_string(&seen, entry.as_str()) {
                    errors.push(
                        PerspectivesValidationError::DuplicatePathEntry {
                            perspective: pname.clone(),
                            entry: entry.clone(),
                        },
                    );
                    assert(error_views(errors@) =~= next.errors);
                } else {
                    seen.push(entry.clone());
                    assert(views(seen@) =~= next.seen);
                    match lookup_base(dirs, dir_name.as_str()) {
                        None => {
                            errors.push(
                                PerspectivesValidationError::UnknownDir {
                                    perspective: pname.clone(),
                                    dir_name,
                                },
                            );
                            assert(error_views(errors@) =~= next.errors);
                        },
                        Some(base) => {
                            let full = join(base.as_str(), rel.as_str());
                            match probe_path(fs, full.as_str()) {
                                Ok(c) => {
                                    if strip_prefix(c.as_str(), base.as_str()).is_some() {
                                        paths.push(PerspectivePath { dir_name, relative_path: rel });
                                        assert(path_views(paths@) =~= next.paths);
                                    } else {
                                        errors.push(
                                            PerspectivesValidationError::PathTraversal {
                                                perspective: pname.clone(),
                                                entry: entry.clone(),
                                                reason: String::from_str(OUTSIDE_BASE_REASON),
                                            },
                                        );
                                        assert(error_views(errors@) =~= next.errors);
                                    }
                                },
                                Err(reason) => {
                                    errors.push(
                                        PerspectivesValidationError::PathTraversal {
                                            perspective: pname.clone(),
                                            entry: entry.clone(),
                                            reason,
                                        },
                                    );
                                    assert(error_views(errors@) =~= next.errors);
                                },
                            }
                        },
                    }
                }
            },
        }
        i = i + 1;
    }
    assert(ev.take(entries@.len() as int) =~= ev);
    (paths, errors)
}

/// Whether no name occurs twice in a list of `(name, path)` pairs.
pub open spec fn names_distinct(v: Seq<(Seq<char>, Seq<char>)>) -> bool {
    forall|a: int, b: int| 0 <= a < b < v.len() ==> v[a].0 != v[b].0
}

/// The base directories that resolve keep their distinct names.
pub proof fn lemma_dir_phase_names(cfg: Seq<(Seq<char>, Seq<char>)>, probe: Seq<(Seq<char>, Option<Seq<char>>)>)
    requires
        names_distinct(cfg),
    ensures
        names_distinct(dir_phase(cfg, probe).0),
        forall|i: int| 0 <= i < dir_phase(cfg, probe).0.len() ==> exists|j: int|
            0 <= j < cfg.len() && cfg[j].0 == #[trigger] dir_phase(cfg, probe).0[i].0,
    decreases cfg.len(),
{
    if cfg.len() > 0 {
        let prev_cfg = cfg.drop_last();
        assert forall|a: int, b: int| 0 <= a < b < prev_cfg.len() implies prev_cfg[a].0 != prev_cfg[b].0 by {
            assert(prev_cfg[a] == cfg[a] && prev_cfg[b] == cfg[b]);
        }
        lemma_dir_phase_names(prev_cfg, probe);
        let prev = dir_phase(prev_cfg, probe).0;
        let cur = dir_phase(cfg, probe).0;
        assert forall|i: int| 0 <= i < prev.len() implies #[trigger] prev[i].0 != cfg.last().0 by {
            let j = choose|j: int| 0 <= j < prev_cfg.len() && prev_cfg[j].0 == prev[i].0;
            assert(cfg[j] == prev_cfg[j]);
        }
        assert forall|i: int| 0 <= i < cur.len() implies exists|j: int|
            0 <= j < cfg.len() && cfg[j].0 == #[trigger] cur[i].0 by {
            if i < prev.len() {
                assert(cur[i] == prev[i]);
                let j = choose|j: int| 0 <= j < prev_cfg.len() && prev_cfg[j].0 == prev[i].0;
                assert(cfg[j] == prev_cfg[j]);
            } else {
                assert(cur[i].0 == cfg[cfg.len() - 1].0);
            }
        }
        assert forall|a: int, b: int| 0 <= a < b < cur.len() implies cur[a].0 != cur[b].0 by {
            if b < prev.len() {
                assert(cur[a] == prev[a] && cur[b] == prev[b]);
            } else {
                assert(cur[a] == prev[a]);
                assert(prev[a].0 != cfg.last().0);
            }
        }
    }
}

impl PerspectivesConfig {
    /// Validate and resolve the raw configuration into runtime-ready form,
    /// given what the file system resolved its paths to.
    ///
    /// Succeeds exactly when no rule is broken; otherwise every broken rule
    /// is reported, in order.
    ///
    /// The base directories are named once each, as in a map; the
    /// validated ones keep that.
    pub fn validate(&self, fs: &ResolvedPaths) -> (r: Result<ValidatedPerspectives, PerspectivesConfigError>)
        requires
            names_distinct(self.dirs_view()),
        ensures
            self.errors_against(*fs).len() == 0 ==> (r matches Ok(v) && v@ == self.validated_against(*fs)),
            r matches Ok(v) ==> names_distinct(v@.dirs),
            self.errors_against(*fs).len() != 0 ==> (r matches Err(e) && error_views(e.errors@)
                == self.errors_against(*fs)),
    {
        let ghost cd = self.dirs_view();
        let ghost ce = self.entries_view();
        let ghost dp = dir_probe_views(fs.dirs@);
        let ghost pp = path_probe_views(fs.paths@);
        let mut errors: Vec<PerspectivesValidationError> = Vec::new();
        let mut dirs: Vec<(String, String)> = Vec::new();

        // Base directories.
        let mut i: usize = 0;
        while i < self.perspectives_dirs.len()
            invariant
                i <= self.perspectives_dirs@.len(),
                cd == self.dirs_view(),
                dp == dir_probe_views(fs.dirs@),
                pair_views(dirs@) == dir_phase(cd.take(i as int), dp).0,
                error_views(errors@) == dir_phase(cd.take(i as int), dp).1,
            decreases self.perspectives_dirs@.len() - i,
        {
            assert(cd.take(i + 1).drop_last() =~= cd.take(i as int));
            let name = &self.perspectives_dirs[i].0;
            let path = &self.perspectives_dirs[i].1;
            match probe_dir(fs, path.as_str()) {
                Some(c) => {
                    dirs.push((name.clone(), c));
                    assert(pair_views(dirs@) =~= dir_phase(cd.take(i + 1), dp).0);
                },
                None => {
                    errors.push(
                        PerspectivesValidationError::DirNotFound { name: name.clone(), path: path.clone() },
                    );
                    assert(error_views(errors@) =~= dir_phase(cd.take(i + 1), dp).1);
                },
            }
            i = i + 1;
        }
        assert(cd.take(self.perspectives_dirs@.len() as int) =~= cd);
        let ghost e1 = error_views(errors@);
        let ghost d0 = pair_views(dirs@);

        // Unique perspective names.
        let ghost names = ce.map_values(|e: (Seq<char>, Seq<Seq<char>>)| e.0);
        let mut seen_names: Vec<String> = Vec::new();
        let mut j: usize = 0;
        while j < self.perspectives.len()
            invariant
                j <= self.perspectives@.len(),
                ce == self.entries_view(),
                names == ce.map_values(|e: (Seq<char>, Seq<Seq<char>>)| e.0),
                views(seen_names@) == names.take(j as int),
                error_views(errors@) == e1 + duplicate_name_errors(names.take(j as int)),
            decreases self.perspectives@.len() - j,
        {
            let name = &self.perspectives[j].name;
            assert(names.take(j + 1).drop_last() =~= names.take(j as int));
            assert(names[j as int] == name@);
            assert(names.take(j + 1).last() == name@);
            if contains_string(&seen_names, name.as_str()) {
                let ghost before = error_views(errors@);
                assert(names.take(j + 1).drop_last().contains(names.take(j + 1).last()));
                assert(duplicate_name_errors(names.take(j + 1)) == duplicate_name_errors(names.take(j as int)).push(
                    ErrorView::DuplicateName { name: name@ },
                ));
                errors.push(PerspectivesValidationError::DuplicateName { name: name.clone() });
                assert(error_views(errors@) =~= before.push(ErrorView::DuplicateName { name: name@ }));
                assert(error_views(errors@) =~= e1 + duplicate_name_errors(names.take(j + 1)));
            } else {
                assert(error_views(errors@) =~= e1 + duplicate_name_errors(names.take(j + 1)));
            }
            seen_names.push(name.clone());
            assert(views(seen_names@) =~= names.take(j + 1));
            j = j + 1;
        }
        assert(names.take(self.perspectives@.len() as int) =~= names);
        let ghost e2 = error_views(errors@);

        // Each perspective's paths.
        let mut validated: Vec<ValidatedPerspective> = Vec::new();
        let mut k: usize = 0;
        while k < self.perspectives.len()
            invariant
                k <= self.perspectives@.len(),
                ce == self.entries_view(),
                pp == path_probe_views(fs.paths@),
                d0 == pair_views(dirs@),
                perspective_views(validated@) == entry_phase(d0, pp, ce.take(k as int)).0,
                error_views(errors@) == e2 + entry_phase(d0, pp, ce.take(k as int)).1,
            decreases self.perspectives@.len() - k,
        {
            let entry = &self.perspectives[k];
            assert(ce.take(k + 1).drop_last() =~= ce.take(k as int));
            assert(ce[k as int] == entry_view(*entry));
            if entry.paths.len() == 0 {
                assert(ce.take(k + 1).last().1.len() == 0);
                let ghost before = error_views(errors@);
                errors.push(PerspectivesValidationError::EmptyPaths { name: entry.name.clone() });
                assert(error_views(errors@) =~= before.push(ErrorView::EmptyPaths { name: entry.name@ }));
                assert(entry_phase(d0, pp, ce.take(k + 1)).1 == entry_phase(d0, pp, ce.take(k as int)).1.push(
                    ErrorView::EmptyPaths { name: entry.name@ },
                ));
                assert(error_views(errors@) =~= e2 + entry_phase(d0, pp, ce.take(k + 1)).1);
            } else {
                let (paths, mut errs) = validate_paths(&entry.name, &entry.paths, &dirs, fs);
                let ghost before = error_views(errors@);
                errors.append(&mut errs);
                assert(error_views(errors@) =~= before + path_phase(entry.name@, d0, pp, views(entry.paths@)).errors);
                validated.push(ValidatedPerspective { name: entry.name.clone(), paths });
                assert(perspective_views(validated@) =~= entry_phase(d0, pp, ce.take(k + 1)).0);
                assert(error_views(errors@) =~= e2 + entry_phase(d0, pp, ce.take(k + 1)).1);
            }
            k = k + 1;
        }
        assert(ce.take(self.perspectives@.len() as int) =~= ce);
        assert(error_views(errors@) =~= self.errors_against(*fs));
        if errors.len() == 0 {
            let v = ValidatedPerspectives { dirs, perspectives: validated };
            assert(v@.dirs == self.validated_against(*fs).dirs);
            proof {
                lemma_dir_phase_names(self.dirs_view(), dir_probe_views(fs.dirs@));
            }
            Ok(v)
        } else {
            Err(PerspectivesConfigError { errors })
        }
    }
}

/// Index of the first perspective called `name`.
pub open spec fn first_named(ps: Seq<PerspectiveView>, name: Seq<char>) -> Option<int>
    decreases ps.len(),
{
    if ps.len() == 0 {
        None
    } else if ps[0].name == name {
        Some(0)
    } else {
        match first_named(ps.drop_first(), name) {
            Some(i) => Some(i + 1),
            None => None,
        }
    }
}

pub proof fn lemma_first_named(ps: Seq<PerspectiveView>, name: Seq<char>)
    ensures
        match first_named(ps, name) {
            Some(i) => 0 <= i < ps.len() && ps[i].name == name && forall|j: int| 0 <= j < i ==> ps[j].name != name,
            None => forall|j: int| 0 <= j < ps.len() ==> ps[j].name != name,
        },
    decreases ps.len(),
{
    if ps.len() > 0 && ps[0].name != name {
        lemma_first_named(ps.drop_first(), name);
        assert forall|j: int| 1 <= j < ps.len() implies ps[j] == ps.drop_first()[j - 1] by {}
    }
}

/// Whether `s` holds no value twice.
pub open spec fn distinct(s: Seq<Seq<char>>) -> bool {
    forall|i: int, j: int| 0 <= i < j < s.len() ==> s[i] != s[j]
}

impl ValidatedPerspectives {
    /// The perspective names, each once, in the order they first appear.
    pub fn names(&self) -> (r: Vec<String>)
        ensures
            distinct(views(r@)),
            forall|n: Seq<char>| views(r@).contains(n) <==> exists|i: int|
                0 <= i < self.perspectives@.len() && #[trigger] self.perspectives@[i].name@ == n,
    {
        let mut r: Vec<String> = Vec::new();
        let mut i: usize = 0;
        while i < self.perspectives.len()
            invariant
                i <= self.perspectives@.len(),
                distinct(views(r@)),
                forall|n: Seq<char>| views(r@).contains(n) <==> exists|k: int|
                    0 <= k < i && #[trigger] self.perspectives@[k].name@ == n,
            decreases self.perspectives@.len() - i,
        {
            let name = &self.perspectives[i].name;
            if !contains_string(&r, name.as_str()) {
                let ghost before = views(r@);
                r.push(name.clone());
                assert(views(r@) =~= before.push(name@));
                assert forall|n: Seq<char>| views(r@).contains(n) <==> exists|k: int|
                    0 <= k < i + 1 && #[trigger] self.perspectives@[k].name@ == n by {
                    if views(r@).contains(n) {
                        let q = choose|q: int| 0 <= q < views(r@).len() && views(r@)[q] == n;
                        if q < before.len() {
                            assert(before.contains(n));
                        } else {
                            assert(self.perspectives@[i as int].name@ == n);
                        }
                    }
                    if exists|k: int| 0 <= k < i + 1 && #[trigger] self.perspectives@[k].name@ == n {
                        let k = choose|k: int| 0 <= k < i + 1 && #[trigger] self.perspectives@[k].name@ == n;
                        if k < i {
                            assert(before.contains(n));
                            let q = choose|q: int| 0 <= q < before.len() && before[q] == n;
                            assert(views(r@)[q] == n);
                        } else {
                            assert(views(r@)[before.len() as int] == n);
                        }
                    }
                }
            } else {
                assert forall|n: Seq<char>| views(r@).contains(n) <==> exists|k: int|
                    0 <= k < i + 1 && #[trigger] self.perspectives@[k].name@ == n by {
                    if exists|k: int| 0 <= k < i + 1 && #[trigger] self.perspectives@[k].name@ == n {
                        let k = choose|k: int| 0 <= k < i + 1 && #[trigger] self.perspectives@[k].name@ == n;
                        if k < i {
                            assert(views(r@).contains(n));
                        }
                    }
                }
            }
            i = i + 1;
        }
        r
    }

    /// The first perspective called `name`.
    pub fn find(&self, name: &str) -> (r: Option<&ValidatedPerspective>)
        ensures
            match first_named(perspective_views(self.perspectives@), name@) {
                Some(i) => r == Some(&self.perspectives@[i]),
                None => r is None,
            },
    {
        let ghost pv = perspective_views(self.perspectives@);
        proof {
            lemma_first_named(pv, name@);
        }
        let mut i: usize = 0;
        while i < self.perspectives.len()
            invariant
                i <= self.perspectives@.len(),
                pv == perspective_views(self.perspectives@),
                forall|j: int| 0 <= j < i ==> pv[j].name != name@,
                match first_named(pv, name@) {
                    Some(k) => 0 <= k < pv.len() && pv[k].name == name@ && forall|j: int| 0 <= j < k ==> pv[j].name != name@,
                    None => forall|j: int| 0 <= j < pv.len() ==> pv[j].name != name@,
                },
            decreases self.perspectives@.len() - i,
        {
            if same_text(self.perspectives[i].name.as_str(), name) {
                assert(pv[i as int].name == name@);
                return Some(&self.perspectives[i]);
            }
            i = i + 1;
        }
        None
    }
}

/// The one-line description of a validation error.
pub open spec fn error_message(e: ErrorView) -> Seq<char> {
    match e {
        ErrorView::DirNotFound { name, path } => "perspectives_dirs["@ + name + "]: directory not found: "@ + path,
        ErrorView::DuplicateName { name } => "perspectives: duplicate name: "@ + name,
        ErrorView::EmptyPaths { name } => "perspectives["@ + name + "]: paths must not be empty"@,
        ErrorView::EmptyPathEntry { perspective, entry } => "perspectives["@ + perspective
            + "]: empty path entry: "@ + debug_rendering(entry),
        ErrorView::DuplicatePathEntry { perspective, entry } => "perspectives["@ + perspective
            + "]: duplicate path entry: "@ + entry,
        ErrorView::UnknownDir { perspective, dir_name } => "perspectives["@ + perspective
            + "]: unknown dir name: "@ + dir_name,
        ErrorView::PathTraversal { perspective, entry, reason } => "perspectives["@ + perspective
            + "]: path traversal in "@ + entry + ": "@ + reason,
    }
}

/// The report for a list of validation errors: a heading, then one
/// indented line per error.
pub open spec fn report_lines(es: Seq<ErrorView>) -> Seq<char>
    decreases es.len(),
{
    if es.len() == 0 {
        Seq::empty()
    } else {
        report_lines(es.drop_last()) + "  "@ + error_message(es.last()) + "\n"@
    }
}

impl PerspectivesValidationError {
    /// The one-line description of this error.
    pub fn message(&self) -> (r: String)
        ensures
            r@ == error_message(self@),
    {
        match self {
            PerspectivesValidationError::DirNotFound { name, path } => String::from_str(
                "perspectives_dirs[",
            ).concat(name.as_str()).concat("]: directory not found: ").concat(path.as_str()),
            PerspectivesValidationError::DuplicateName { name } => String::from_str(
                "perspectives: duplicate name: ",
            ).concat(name.as_str()),
            PerspectivesValidationError::EmptyPaths { name } => String::from_str(
                "perspectives[",
            ).concat(name.as_str()).concat("]: paths must not be empty"),
            PerspectivesValidationError::EmptyPathEntry { perspective, entry } => {
                let quoted = debug_quote(entry.as_str());
                String::from_str("perspectives[").concat(perspective.as_str()).concat(
                    "]: empty path entry: ",
                ).concat(quoted.as_str())
            },
            PerspectivesValidationError::DuplicatePathEntry { perspective, entry } => String::from_str(
                "perspectives[",
            ).concat(perspective.as_str()).concat("]: duplicate path entry: ").concat(entry.as_str()),
            PerspectivesValidationError::UnknownDir { perspective, dir_name } => String::from_str(
                "perspectives[",
            ).concat(perspective.as_str()).concat("]: unknown dir name: ").concat(dir_name.as_str()),
            PerspectivesValidationError::PathTraversal { perspective, entry, reason } => String::from_str(
                "perspectives[",
            ).concat(perspective.as_str()).concat("]: path traversal in ").concat(entry.as_str()).concat(
                ": ",
            ).concat(reason.as_str()),
        }
    }
}

impl PerspectivesConfigError {
    /// The full report: a heading line, then each error on its own
    /// indented line.
    pub fn message(&self) -> (r: String)
        ensures
            r@ == "perspectives config validation failed:\n"@ + report_lines(error_views(self.errors@)),
    {
        let mut r = String::from_str("perspectives config validation failed:\n");
        let ghost head = r@;
        let ghost ev = error_views(self.errors@);
        let mut i: usize = 0;
        while i < self.errors.len()
            invariant
                i <= self.errors@.len(),
                ev == error_views(self.errors@),
                r@ == head + report_lines(ev.take(i as int)),
            decreases self.errors@.len() - i,
        {
            let line = self.errors[i].message();
            r.append("  ");
            r.append(line.as_str());
            r.append("\n");
            assert(ev.take(i + 1).drop_last() =~= ev.take(i as int));
            assert(r@ =~= head + report_lines(ev.take(i + 1)));
            i = i + 1;
        }
        assert(ev.take(self.errors@.len() as int) =~= ev);
        r
    }
}

impl PerspectivePath {
    /// The original `<dir_name>:<relative_path>` string.
    pub fn as_config_str(&self) -> (r: String)
        ensures
            r@ == self.dir_name@ + seq![':'] + self.relative_path@,
    {
        proof {
            reveal_strlit(":");
        }
        let r = self.dir_name.clone().concat(":").concat(self.relative_path.as_str());
        assert(r@ =~= self.dir_name@ + seq![':'] + self.relative_path@);
        r
    }
}

} // verus!
