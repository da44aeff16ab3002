//! Dependency sources and their resolution into key-value fragments.
//!
//! A `Source` says where a dependency's code comes from: a local path with
//! an optional fallback source, a git reference, or a registry version.
//! Resolution renders the source as the canonical key-value fragment of the
//! specification string, testing path existence on the way down a fallback
//! chain. The existence answers are the only contact with the outside
//! world; everything around them is specified exactly over the answers.

use vstd::prelude::*;
use vstd::string::StrSliceExecFns;
use vstd::string::StringExecFns;

use crate::encode::lit_of;
use crate::encode::to_lit;

verus! {

/// Where a dependency's code comes from.
#[derive(Debug)]
pub enum Source {
    /// A local filesystem path relative to the base directory, with an
    /// optional fallback source used when the path does not exist.
    Path { path: String, or: Option<Box<Source>> },
    /// A version-control remote location with an optional pinned revision.
    Git { git: String, rev: Option<String> },
    /// A published-package version with an optional alternate registry.
    Registry { version: String, registry: Option<String> },
}

/// One crate to be compiled: a package name plus a source.
#[derive(Debug)]
pub struct Dependency {
    pub package: String,
    pub source: Source,
}

/// What went wrong, by kind.
#[derive(Debug, Clone, Copy, PartialEq, Eq, Structural)]
pub enum ErrorKind {
    /// The base directory could not be determined from the environment.
    MissingEnvironment,
    /// A resolved filesystem path is not representable as text. It cannot
    /// arise from the text-valued sources resolved here; it is part of the
    /// orchestrator's error surface for embedders that hold raw paths.
    NonUtf8Path,
    /// A path source does not exist and no fallback was left to try.
    UnresolvedPath,
    /// The external driver could not be started.
    ProcessLaunchFailure,
    /// The external driver ran and reported failure.
    ProcessExitFailure,
}

/// An ordered chain of failure messages: the primary cause first, each
/// later entry a cause of the one before it.
#[derive(Debug)]
pub struct ErrorChain {
    pub kind: ErrorKind,
    pub messages: Vec<String>,
}

/// The mathematical value of an `ErrorChain`.
#[verifier::ext_equal]
pub ghost struct ErrView {
    pub kind: ErrorKind,
    pub msgs: Seq<Seq<char>>,
}

impl View for ErrorChain {
    type V = ErrView;

    open spec fn view(&self) -> ErrView {
        ErrView { kind: self.kind, msgs: self.messages@.map_values(|m: String| m@) }
    }
}

/// The views of an optional string.
pub open spec fn opt_text(o: Option<String>) -> Option<Seq<char>> {
    match o {
        Some(s) => Some(s@),
        None => None,
    }
}

/// The view of a resolution result.
pub open spec fn res_view(r: Result<String, ErrorChain>) -> Result<Seq<char>, ErrView> {
    match r {
        Ok(s) => Ok(s@),
        Err(e) => Err(e@),
    }
}

// ---------------------------------------------------------------------------
// The fragments and errors, as values
// ---------------------------------------------------------------------------

pub open spec fn path_fragment(p: Seq<char>) -> Seq<char> {
    "path = "@ + lit_of(p)
}

pub open spec fn git_fragment(git: Seq<char>, rev: Option<Seq<char>>) -> Seq<char> {
    let head = "git = "@ + lit_of(git);
    match rev {
        Some(r) => head + ", rev = "@ + lit_of(r),
        None => head,
    }
}

pub open spec fn registry_fragment(version: Seq<char>, registry: Option<Seq<char>>) -> Seq<char> {
    let head = "version = "@ + lit_of(version);
    match registry {
        Some(r) => head + ", registry = "@ + lit_of(r),
        None => head,
    }
}

/// Joining a base directory and a relative path, Unix style: an absolute
/// path stands alone, otherwise the two are separated by exactly one `/`.
pub open spec fn join_spec(base: Seq<char>, p: Seq<char>) -> Seq<char> {
    if p.len() > 0 && p[0] == '/' {
        p
    } else if base.len() == 0 {
        p
    } else if base[base.len() - 1] == '/' {
        base + p
    } else {
        base + seq!['/'] + p
    }
}

pub open spec fn missing_env_error() -> ErrView {
    ErrView {
        kind: ErrorKind::MissingEnvironment,
        msgs: seq!["could not read `$CARGO_MANIFEST_DIR`"@],
    }
}

pub open spec fn unresolved_path_error(p: Seq<char>) -> ErrView {
    ErrView {
        kind: ErrorKind::UnresolvedPath,
        msgs: seq!["`"@ + p + "` does not exist and missing `Source::Path::or`"@],
    }
}

// ---------------------------------------------------------------------------
// Resolution, as a function of the existence answers
// ---------------------------------------------------------------------------

/// Resolves a source given the base directory and the path-existence
/// answers, one per `Path` node in chain order; a missing answer counts as
/// "does not exist". This is the whole resolution algorithm: the first
/// existing path wins, otherwise resolution falls through the fallback
/// chain, and fails where no fallback is left.
pub open spec fn resolve_spec(src: Source, base: Option<Seq<char>>, found: Seq<bool>) -> Result<
    Seq<char>,
    ErrView,
>
    decreases src,
{
    match src {
        Source::Git { git, rev } => Ok(git_fragment(git@, opt_text(rev))),
        Source::Registry { version, registry } => Ok(
            registry_fragment(version@, opt_text(registry)),
        ),
        Source::Path { path, or } => match base {
            None => Err(missing_env_error()),
            Some(b) => {
                let joined = join_spec(b, path@);
                if found.len() > 0 && found[0] {
                    Ok(path_fragment(joined))
                } else {
                    let rest = if found.len() > 0 {
                        found.drop_first()
                    } else {
                        found
                    };
                    match or {
                        Some(child) => resolve_spec(*child, base, rest),
                        None => Err(unresolved_path_error(joined)),
                    }
                }
            },
        },
    }
}

/// The full specification string for one dependency.
pub open spec fn spec_string(package: Seq<char>, kv: Seq<char>) -> Seq<char> {
    "{ package = "@ + lit_of(package) + ", "@ + kv + " }"@
}

pub open spec fn dep_spec(d: Dependency, base: Option<Seq<char>>, found: Seq<bool>) -> Result<
    Seq<char>,
    ErrView,
> {
    match resolve_spec(d.source, base, found) {
        Ok(kv) => Ok(spec_string(d.package@, kv)),
        Err(e) => Err(e),
    }
}

/// Some pattern of path-existence answers explains `frag` as `d`'s
/// specification string.
pub open spec fn resolved_frag(d: Dependency, base: Option<Seq<char>>, frag: Seq<char>) -> bool {
    exists|found: Seq<bool>|
        Ok::<Seq<char>, ErrView>(frag) == #[trigger] dep_spec(d, base, found)
}

/// Some pattern of path-existence answers explains `e` as the error that
/// resolving `d` produced.
pub open spec fn failed_dep(d: Dependency, base: Option<Seq<char>>, e: ErrView) -> bool {
    exists|found: Seq<bool>|
        Err::<Seq<char>, ErrView>(e) == #[trigger] dep_spec(d, base, found)
}

// ---------------------------------------------------------------------------
// Executable resolution
// ---------------------------------------------------------------------------

/// Relies on `std::path::Path::exists`: whether the path exists on disk.
/// The answer depends on the state of the filesystem, so nothing is
/// promised of it; everything downstream is specified for both answers.
#[verifier::external_body]
fn path_exists(p: &str) -> bool {
    std::path::Path::new(p).exists()
}

/// Joins the base directory and a path, Unix style.
pub fn join_path(base: &str, path: &str) -> (r: String)
    ensures
        r@ == join_spec(base@, path@),
{
    let plen = path.unicode_len();
    if plen > 0 && path.get_char(0) == '/' {
        return String::from_str(path);
    }
    let blen = base.unicode_len();
    if blen == 0 {
        return String::from_str(path);
    }
    let mut r = String::from_str(base);
    if !(base.get_char(blen - 1) == '/') {
        r.append("/");
        proof {
            reveal_strlit("/");
            assert("/"@ =~= seq!['/']);
        }
    }
    r.append(path);
    r
}

/// Gathers the existence answers for every `Path` node of the chain, in
/// chain order.
fn probe_paths(src: &Source, base: &str, found: &mut Vec<bool>)
    decreases *src,
{
    match src {
        Source::Path { path, or } => {
            let joined = join_path(base, path.as_str());
            let hit = path_exists(joined.as_str());
            found.push(hit);
            match or {
                Some(child) => probe_paths(&**child, base, found),
                None => {},
            }
        },
        _ => {},
    }
}

fn missing_env_chain() -> (e: ErrorChain)
    ensures
        e@ == missing_env_error(),
{
    let mut messages: Vec<String> = Vec::new();
    messages.push(String::from_str("could not read `$CARGO_MANIFEST_DIR`"));
    let e = ErrorChain { kind: ErrorKind::MissingEnvironment, messages };
    proof {
        assert(e@.msgs =~= missing_env_error().msgs);
        assert(e@ =~= missing_env_error());
    }
    e
}

fn unresolved_path_chain(joined: &String) -> (e: ErrorChain)
    ensures
        e@ == unresolved_path_error(joined@),
{
    let mut msg = String::from_str("`");
    msg.append(joined.as_str());
    msg.append("` does not exist and missing `Source::Path::or`");
    let mut messages: Vec<String> = Vec::new();
    messages.push(msg);
    let e = ErrorChain { kind: ErrorKind::UnresolvedPath, messages };
    proof {
        assert(e@.msgs =~= unresolved_path_error(joined@).msgs);
        assert(e@ =~= unresolved_path_error(joined@));
    }
    e
}

/// Resolves `src` against the given existence answers, starting at answer
/// `i`. Pure: the filesystem is consulted only through `found`.
fn resolve_with_at(
    src: &Source,
    base: &Option<String>,
    found: &Vec<bool>,
    i: usize,
) -> (r: Result<String, ErrorChain>)
    requires
        i <= found@.len(),
    ensures
        res_view(r) == resolve_spec(*src, opt_text(*base), found@.skip(i as int)),
    decreases *src,
{
    match src {
        Source::Git { git, rev } => {
            let mut s = String::from_str("git = ");
            s.append(to_lit(git.as_str()).as_str());
            match rev {
                Some(rv) => {
                    s.append(", rev = ");
                    s.append(to_lit(rv.as_str()).as_str());
                },
                None => {},
            }
            Ok(s)
        },
        Source::Registry { version, registry } => {
            let mut s = String::from_str("version = ");
            s.append(to_lit(version.as_str()).as_str());
            match registry {
                Some(rg) => {
                    s.append(", registry = ");
                    s.append(to_lit(rg.as_str()).as_str());
                },
                None => {},
            }
            Ok(s)
        },
        Source::Path { path, or } => match base {
            None => Err(missing_env_chain()),
            Some(b) => {
                let joined = join_path(b.as_str(), path.as_str());
                let hit = if i < found.len() {
                    found[i]
                } else {
                    false
                };
                if hit {
                    let mut s = String::from_str("path = ");
                    s.append(to_lit(joined.as_str()).as_str());
                    Ok(s)
                } else {
                    match or {
                        Some(child) => {
                            let j = if i < found.len() {
                                i + 1
                            } else {
                                i
                            };
                            let r = resolve_with_at(&**child, base, found, j);
                            proof {
                                if i < found@.len() {
                                    assert(found@.skip(i as int).drop_first() =~= found@.skip(
                                        j as int,
                                    ));
                                }
                            }
                            r
                        },
                        None => Err(unresolved_path_chain(&joined)),
                    }
                }
            },
        },
    }
}

impl Source {
    /// Resolves this source against explicitly given path-existence
    /// answers, one per `Path` node in chain order (a missing answer
    /// counts as "does not exist"), without touching the filesystem:
    /// exactly `resolve_spec` of this source, the base directory and the
    /// answers.
    pub fn resolve_with(&self, base: &Option<String>, found: &Vec<bool>) -> (r: Result<
        String,
        ErrorChain,
    >)
        ensures
            res_view(r) == resolve_spec(*self, opt_text(*base), found@),
    {
        let r = resolve_with_at(self, base, found, 0);
        proof {
            assert(found@.skip(0) =~= found@);
        }
        r
    }

    /// Resolves this source into its key-value fragment: `path = "..."`
    /// for the first existing path of the chain, else the fragment of the
    /// terminal fallback; `git = "..."` (with `, rev = "..."` when pinned)
    /// and `version = "..."` (with `, registry = "..."` when named) always
    /// succeed. `base` is the base directory for path sources; without
    /// one, resolving a path source fails with `MissingEnvironment`.
    pub fn to_key_values(&self, base: &Option<String>) -> (r: Result<String, ErrorChain>)
        ensures
            exists|found: Seq<bool>|
                res_view(r) == resolve_spec(*self, opt_text(*base), found),
            *self matches Source::Git { git, rev } ==> res_view(r) == Ok::<Seq<char>, ErrView>(
                git_fragment(git@, opt_text(rev)),
            ),
            *self matches Source::Registry { version, registry } ==> res_view(r) == Ok::<
                Seq<char>,
                ErrView,
            >(registry_fragment(version@, opt_text(registry))),
            (*self matches Source::Path { .. } && opt_text(*base) is None) ==> res_view(r)
                == Err::<Seq<char>, ErrView>(missing_env_error()),
    {
        let mut found: Vec<bool> = Vec::new();
        match base {
            Some(b) => probe_paths(self, b.as_str(), &mut found),
            None => {},
        }
        let r = resolve_with_at(self, base, &found, 0);
        proof {
            assert(found@.skip(0) =~= found@);
            assert(res_view(r) == resolve_spec(*self, opt_text(*base), found@));
        }
        r
    }
}

impl Dependency {
    /// Renders this dependency as its full specification string
    /// `{ package = "...", <key-values> }`, resolving the source on the
    /// way; fails exactly when the source fails to resolve, with that
    /// error.
    pub fn to_specification(&self, base: &Option<String>) -> (r: Result<String, ErrorChain>)
        ensures
            exists|found: Seq<bool>|
                res_view(r) == dep_spec(*self, opt_text(*base), found),
            self.source matches Source::Git { git, rev } ==> res_view(r) == Ok::<
                Seq<char>,
                ErrView,
            >(spec_string(self.package@, git_fragment(git@, opt_text(rev)))),
            self.source matches Source::Registry { version, registry } ==> res_view(r) == Ok::<
                Seq<char>,
                ErrView,
            >(spec_string(self.package@, registry_fragment(version@, opt_text(registry)))),
    {
        let kvr = self.source.to_key_values(base);
        let ghost gkvr = kvr;
        let ghost found = choose|found: Seq<bool>|
            res_view(gkvr) == resolve_spec(self.source, opt_text(*base), found);
        match kvr {
            Ok(kv) => {
                let mut s = String::from_str("{ package = ");
                s.append(to_lit(self.package.as_str()).as_str());
                s.append(", ");
                s.append(kv.as_str());
                s.append(" }");
                proof {
                    assert(res_view(Ok(s)) == dep_spec(*self, opt_text(*base), found));
                }
                Ok(s)
            },
            Err(e) => {
                proof {
                    assert(res_view(Err(e)) == dep_spec(*self, opt_text(*base), found));
                }
                Err(e)
            },
        }
    }
}

} // verus!
