//! Store handles: resolving a store-location string into a backend variant
//! plus base path, and joining that base with a relative object key.

use crate::error::StoreError;
use vstd::prelude::*;
use vstd::string::StrSliceExecFns;
use vstd::string::StringExecFns;

verus! {

/// The closed set of backend variants a store handle can refer to.
pub enum Backend {
    /// Local filesystem rooted at a directory.
    Local { root: String },
    /// Cloud blob store, addressed by bucket name.
    Gcs { bucket: String },
}

/// An immutable store handle: a backend and a normalized base path with no
/// leading slash. Created once per run and never mutated.
pub struct Store {
    pub backend: Backend,
    pub base: String,
}

/// What URL resolution decides: either a complete handle, or the request to
/// canonicalize a bare filesystem path first and resolve the resulting
/// `file` URL.
pub enum Resolution {
    Store(Store),
    BarePath,
}

/// What the URL parser returns for a store-location string, reduced to plain
/// components.
pub enum UrlParse {
    Parsed { scheme: String, host: Option<String>, path: String },
    NoScheme,
    Invalid,
}

/// The mathematical shape of a parse outcome.
pub enum UrlParts {
    Parsed { scheme: Seq<char>, host: Option<Seq<char>>, path: Seq<char> },
    NoScheme,
    Invalid,
}

impl View for UrlParse {
    type V = UrlParts;

    open spec fn view(&self) -> UrlParts {
        match self {
            UrlParse::Parsed { scheme, host, path } => UrlParts::Parsed {
                scheme: scheme@,
                host: match host {
                    Some(h) => Some(h@),
                    None => None,
                },
                path: path@,
            },
            UrlParse::NoScheme => UrlParts::NoScheme,
            UrlParse::Invalid => UrlParts::Invalid,
        }
    }
}

/// The outcome of parsing `s` as an absolute URL: scheme, host and path
/// components, or the reason parsing failed. A function of the input string
/// alone.
pub uninterp spec fn url_outcome(s: Seq<char>) -> UrlParts;

/// Relies on `url::Url::parse` and the accessors `Url::scheme`,
/// `Url::host_str` and `Url::path`: parsing is deterministic, and the
/// outcome together with those three components is a function of the input
/// string alone. A missing scheme is the one parse failure reported as
/// `RelativeUrlWithoutBase`.
#[verifier::external_body]
fn parse_store_url(s: &str) -> (r: UrlParse)
    ensures
        r@ == url_outcome(s@),
{
    match url::Url::parse(s) {
        Ok(u) => UrlParse::Parsed {
            scheme: u.scheme().to_string(),
            host: u.host_str().map(|h| h.to_string()),
            path: u.path().to_string(),
        },
        Err(url::ParseError::RelativeUrlWithoutBase) => UrlParse::NoScheme,
        Err(_) => UrlParse::Invalid,
    }
}

/// `s` with one leading slash removed, if it has one.
pub open spec fn strip_one_slash(s: Seq<char>) -> Seq<char> {
    if s.len() > 0 && s[0] == '/' {
        s.skip(1)
    } else {
        s
    }
}

/// `k` with every leading slash removed.
pub open spec fn strip_slashes(k: Seq<char>) -> Seq<char>
    decreases k.len(),
{
    if k.len() > 0 && k[0] == '/' {
        strip_slashes(k.skip(1))
    } else {
        k
    }
}

/// The canonical joined storage path: leading slashes are stripped from the
/// key, and base and key meet at exactly one separator (an empty base
/// contributes nothing).
pub open spec fn join_spec(b: Seq<char>, k: Seq<char>) -> Seq<char> {
    let k2 = strip_slashes(k);
    if b.len() == 0 {
        k2
    } else if b[b.len() - 1] == '/' {
        b + k2
    } else {
        b + seq!['/'] + k2
    }
}

/// Removes one leading slash from an owned path component.
fn strip_one_slash_exec(path: String) -> (r: String)
    ensures
        r@ == strip_one_slash(path@),
{
    let n: usize = path.as_str().unicode_len();
    if n > 0 && path.as_str().get_char(0) == '/' {
        let rest: &str = path.as_str().substring_char(1, n);
        proof {
            assert(rest@ =~= path@.skip(1));
        }
        rest.to_owned()
    } else {
        path
    }
}

/// Resolves a store-location string. A `file` URL yields a local backend
/// rooted at the URL path; a `gs` URL yields the cloud blob backend for the
/// URL host, with the path (minus one leading slash) as base; `s3` is
/// recognized but deliberately unimplemented; any other scheme is unknown. A
/// string with no scheme at all is a bare filesystem path: the caller is
/// asked to canonicalize it and resolve the resulting `file` URL.
pub fn new(store_url: &str) -> (r: Result<Resolution, StoreError>)
    ensures
        match url_outcome(store_url@) {
            UrlParts::NoScheme => r matches Ok(Resolution::BarePath),
            UrlParts::Invalid => r matches Err(StoreError::Configuration(m)) && m@ == store_url@,
            UrlParts::Parsed { scheme, host, path } => {
                if scheme == "file"@ {
                    r matches Ok(Resolution::Store(st)) && st.backend matches Backend::Local {
                        root,
                    } && root@ == path && st.base@ == Seq::<char>::empty()
                } else if scheme == "gs"@ {
                    match host {
                        Some(bucket) => r matches Ok(Resolution::Store(st))
                            && st.backend matches Backend::Gcs { bucket: bk } && bk@ == bucket
                            && st.base@ == strip_one_slash(path),
                        None => r matches Err(StoreError::Configuration(m)) && m@ == store_url@,
                    }
                } else if scheme == "s3"@ {
                    r matches Err(StoreError::UnsupportedBackend(m)) && m@ == store_url@
                } else {
                    r matches Err(StoreError::UnsupportedScheme(m)) && m@ == scheme
                }
            },
        },
{
    let parsed = parse_store_url(store_url);
    match parsed {
        UrlParse::NoScheme => Ok(Resolution::BarePath),
        UrlParse::Invalid => Err(StoreError::Configuration(store_url.to_owned())),
        UrlParse::Parsed { scheme, host, path } => {
            let file_scheme: String = "file".to_owned();
            let gs_scheme: String = "gs".to_owned();
            let s3_scheme: String = "s3".to_owned();
            if scheme == file_scheme {
                Ok(
                    Resolution::Store(
                        Store { backend: Backend::Local { root: path }, base: String::new() },
                    ),
                )
            } else if scheme == gs_scheme {
                match host {
                    Some(bucket) => {
                        let base = strip_one_slash_exec(path);
                        Ok(Resolution::Store(Store { backend: Backend::Gcs { bucket }, base }))
                    },
                    None => Err(StoreError::Configuration(store_url.to_owned())),
                }
            } else if scheme == s3_scheme {
                Err(StoreError::UnsupportedBackend(store_url.to_owned()))
            } else {
                Err(StoreError::UnsupportedScheme(scheme))
            }
        },
    }
}

impl Store {
    /// Joins the base path and a relative object key with exactly one
    /// separator.
    pub fn join_path(&self, path: &str) -> (r: String)
        ensures
            r@ == join_spec(self.base@, path@),
    {
        let n: usize = path.unicode_len();
        let mut i: usize = 0;
        proof {
            assert(path@.skip(0) =~= path@);
        }
        while i < n && path.get_char(i) == '/'
            invariant
                0 <= i <= n,
                n == path@.len(),
                forall|j: int| 0 <= j < i ==> path@[j] == '/',
                strip_slashes(path@) == strip_slashes(path@.skip(i as int)),
            decreases n - i,
        {
            proof {
                assert(path@.skip(i as int).skip(1) =~= path@.skip(i + 1));
            }
            i = i + 1;
        }
        let stripped: &str = path.substring_char(i, n);
        proof {
            assert(stripped@ =~= path@.skip(i as int));
            assert(strip_slashes(path@) == stripped@);
        }
        let bn: usize = self.base.as_str().unicode_len();
        if bn == 0 {
            stripped.to_owned()
        } else if self.base.as_str().get_char(bn - 1) == '/' {
            let r = self.base.clone().concat(stripped);
            r
        } else {
            let mut r = self.base.clone();
            proof {
                reveal_strlit("/");
            }
            r.append("/");
            r.append(stripped);
            proof {
                assert(r@ =~= self.base@ + seq!['/'] + strip_slashes(path@));
            }
            r
        }
    }
}

/// Whether `s` is free of doubled separators.
pub open spec fn no_double_sep(s: Seq<char>) -> bool {
    forall|i: int| 0 <= i < s.len() - 1 ==> !(#[trigger] s[i] == '/' && s[i + 1] == '/')
}

/// Stripping leading slashes leaves a suffix that starts with a non-slash
/// character, if it is non-empty at all.
proof fn lemma_strip_slashes(k: Seq<char>)
    ensures
        exists|d: int| 0 <= d <= k.len() && strip_slashes(k) == k.skip(d),
        strip_slashes(k).len() > 0 ==> strip_slashes(k)[0] != '/',
    decreases k.len(),
{
    if k.len() > 0 && k[0] == '/' {
        lemma_strip_slashes(k.skip(1));
        let d0 = choose|d: int| 0 <= d <= k.skip(1).len() && strip_slashes(k.skip(1)) == k.skip(
            1,
        ).skip(d);
        assert(k.skip(1).skip(d0) =~= k.skip(1 + d0));
        assert(strip_slashes(k) == k.skip(1 + d0));
        assert(0 <= 1 + d0 <= k.len());
    } else {
        assert(strip_slashes(k) == k.skip(0));
    }
}

/// Joining introduces no doubled separator: when base and key are free of
/// them, so is the joined path.
pub proof fn lemma_join_no_double_sep(b: Seq<char>, k: Seq<char>)
    requires
        no_double_sep(b),
        no_double_sep(k),
    ensures
        no_double_sep(join_spec(b, k)),
{
    lemma_strip_slashes(k);
    let k2 = strip_slashes(k);
    let d = choose|d: int| 0 <= d <= k.len() && strip_slashes(k) == k.skip(d);
    assert(no_double_sep(k2)) by {
        assert forall|i: int| 0 <= i < k2.len() - 1 implies !(#[trigger] k2[i] == '/' && k2[i + 1]
            == '/') by {
            assert(k2[i] == k[i + d] && k2[i + 1] == k[i + d + 1]);
        }
    }
    let j = join_spec(b, k);
    if b.len() == 0 {
    } else if b[b.len() - 1] == '/' {
        assert forall|i: int| 0 <= i < j.len() - 1 implies !(#[trigger] j[i] == '/' && j[i + 1]
            == '/') by {
            if i < b.len() - 1 {
                assert(j[i] == b[i] && j[i + 1] == b[i + 1]);
            } else if i == b.len() - 1 {
                assert(j[i + 1] == k2[0]);
            } else {
                assert(j[i] == k2[i - b.len()] && j[i + 1] == k2[i + 1 - b.len()]);
            }
        }
    } else {
        assert forall|i: int| 0 <= i < j.len() - 1 implies !(#[trigger] j[i] == '/' && j[i + 1]
            == '/') by {
            if i < b.len() - 1 {
                assert(j[i] == b[i] && j[i + 1] == b[i + 1]);
            } else if i == b.len() - 1 {
                assert(j[i] == b[i] && j[i + 1] == '/');
            } else if i == b.len() {
                assert(j[i] == '/');
                if k2.len() > 0 {
                    assert(j[i + 1] == k2[0]);
                }
            } else {
                assert(j[i] == k2[i - b.len() - 1] && j[i + 1] == k2[i - b.len()]);
            }
        }
    }
}

} // verus!
