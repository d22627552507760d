//! The recipe data model: a declarative description of a package's
//! sources, stage bodies and subpackages, with one-pass variable
//! substitution, source filename resolution, the canonical basename, and
//! digest verification over the declared sources.

use vstd::prelude::*;
use crate::errors::BuildError;
use crate::strutil;
use crate::strutil::{spec_replace, spec_udec};
use crate::urlname;
use crate::urlname::spec_url_basename;

verus! {

/// One declared source: a URL, an optional filename override, and an
/// optional expected SHA-256 hex digest.
pub struct PackageRecipeSource {
    pub url: String,
    pub filename: Option<String>,
    pub sha256sum: Option<String>,
}

/// One declared subpackage: a name, an optional description, and an
/// optional packaging-stage body.
pub struct PackageRecipePackage {
    pub name: String,
    pub description: Option<String>,
    pub package: Option<String>,
}

/// The declarative description of a package: identity, metadata, sources,
/// stage bodies and subpackages.  Immutable once loaded and substituted.
pub struct PackageRecipe {
    pub name: String,
    pub version: String,
    pub epoch: Option<u32>,
    pub release: u32,
    pub description: String,
    pub url: Option<String>,
    pub arch: Option<Vec<String>>,
    pub license: Option<Vec<String>>,
    pub depends: Option<Vec<String>>,
    pub makedepends: Option<Vec<String>>,
    pub checkdepends: Option<Vec<String>>,
    pub sources: Option<Vec<PackageRecipeSource>>,
    pub source: Option<String>,
    pub prepare: Option<String>,
    pub build: Option<String>,
    pub check: Option<String>,
    pub packages: Option<Vec<PackageRecipePackage>>,
}

/// The substitution token for a variable name: `${name}`.
pub open spec fn token(name: Seq<char>) -> Seq<char> {
    seq!['$', '{'] + name + seq!['}']
}

/// The view of an optional string.
pub open spec fn opt_view(o: Option<String>) -> Option<Seq<char>> {
    match o {
        Some(s) => Some(s@),
        None => None,
    }
}

/// One-pass substitution of the recipe variables into a text: `${pkgname}`,
/// then `${pkgver}`, then (if the recipe declares a url) `${url}`.
pub open spec fn subbed_text(
    s: Seq<char>,
    name: Seq<char>,
    version: Seq<char>,
    url: Option<Seq<char>>,
) -> Seq<char> {
    let a = spec_replace(s, token(("pkgname")@), name);
    let b = spec_replace(a, token(("pkgver")@), version);
    match url {
        Some(u) => spec_replace(b, token(("url")@), u),
        None => b,
    }
}

/// Relates a source before and after recipe-variable substitution: the url
/// and the filename override are substituted independently, the digest is
/// untouched.
pub open spec fn source_substituted(
    s: PackageRecipeSource,
    n: PackageRecipeSource,
    name: Seq<char>,
    version: Seq<char>,
    url: Option<Seq<char>>,
) -> bool {
    &&& n.url@ == subbed_text(s.url@, name, version, url)
    &&& (n.filename is Some <==> s.filename is Some)
    &&& (s.filename matches Some(f) ==> n.filename matches Some(g) && g@ == subbed_text(f@, name,
        version, url))
    &&& n.sha256sum == s.sha256sum
}

/// The resolved filename a source ends with: its nonempty override if one
/// is present, else the basename its URL yields.
pub open spec fn spec_resolved_name(s: PackageRecipeSource) -> Option<Seq<char>> {
    match s.filename {
        Some(f) => if f@.len() > 0 {
            Some(f@)
        } else {
            None
        },
        None => spec_url_basename(s.url@),
    }
}

/// Relates a source before and after filename resolution: url and digest
/// are kept, and the filename holds the resolved name.
pub open spec fn source_resolved(s: PackageRecipeSource, n: PackageRecipeSource) -> bool {
    &&& n.url == s.url
    &&& n.sha256sum == s.sha256sum
    &&& n.filename matches Some(f) && Some(f@) == spec_resolved_name(s)
}

/// Resolution is memoized and idempotent: once every source carries its
/// resolved filename, resolving again yields exactly the names already
/// held, so a second `compute_filenames` pass leaves the recipe as it is.
pub proof fn lemma_resolution_idempotent(r: PackageRecipe)
    requires
        filenames_resolved(r),
        r.sources is Some,
    ensures
        forall|i: int| 0 <= i < r.sources->0.len() ==> spec_resolved_name(
            #[trigger] r.sources->0[i]) == Some(r.sources->0[i].filename->0@),
{
}

/// True once every source carries a nonempty resolved filename.
pub open spec fn filenames_resolved(r: PackageRecipe) -> bool {
    r.sources matches Some(srcs) ==> forall|i: int| 0 <= i < srcs.len()
        ==> ((#[trigger] srcs[i]).filename matches Some(f) && f@.len() > 0)
}

/// The number of declared sources.
pub open spec fn spec_source_count(r: PackageRecipe) -> nat {
    match r.sources {
        Some(srcs) => srcs@.len(),
        None => 0,
    }
}

/// The resolved filenames of the declared sources, in declaration order.
pub open spec fn spec_source_names(r: PackageRecipe) -> Seq<Seq<char>> {
    match r.sources {
        Some(srcs) => srcs@.map_values(|s: PackageRecipeSource| s.filename->0@),
        None => Seq::empty(),
    }
}

/// The canonical basename: `name-epoch:version-release` with a declared
/// epoch, else `name-version-release`.
pub open spec fn spec_basename(r: PackageRecipe) -> Seq<char> {
    match r.epoch {
        Some(e) => r.name@ + seq!['-'] + spec_udec(e as nat) + seq![':'] + r.version@ + seq!['-']
            + spec_udec(r.release as nat),
        None => r.name@ + seq!['-'] + r.version@ + seq!['-'] + spec_udec(r.release as nat),
    }
}

fn clone_opt_string(o: &Option<String>) -> (r: Option<String>)
    ensures
        r == *o,
{
    match o {
        Some(s) => Some(s.clone()),
        None => None,
    }
}

fn clone_source(s: &PackageRecipeSource) -> (r: PackageRecipeSource)
    ensures
        r.url == s.url,
        r.filename == s.filename,
        r.sha256sum == s.sha256sum,
{
    PackageRecipeSource {
        url: s.url.clone(),
        filename: clone_opt_string(&s.filename),
        sha256sum: clone_opt_string(&s.sha256sum),
    }
}

impl PackageRecipeSource {
    /// Replaces every occurrence of `${find}` by `replace` in the url and,
    /// independently, in the filename override; the digest is untouched.
    pub fn variable_substitution(&mut self, find: &str, replace: &str)
        ensures
            final(self).url@ == spec_replace(old(self).url@, token(find@), replace@),
            final(self).filename is Some <==> old(self).filename is Some,
            old(self).filename matches Some(f) ==> final(self).filename matches Some(g) && g@
                == spec_replace(f@, token(find@), replace@),
            final(self).sha256sum == old(self).sha256sum,
    {
        let mut pat: Vec<char> = Vec::new();
        pat.push('$');
        pat.push('{');
        let fc = strutil::str_chars(find);
        strutil::push_all(&mut pat, &fc);
        pat.push('}');
        proof {
            assert(pat@ =~= token(find@));
        }
        let pat_s = strutil::chars_to_string(&pat);
        self.url = strutil::replace_str(self.url.as_str(), pat_s.as_str(), replace);
        let newf = match &self.filename {
            Some(f) => Some(strutil::replace_str(f.as_str(), pat_s.as_str(), replace)),
            None => None,
        };
        self.filename = newf;
    }
}

impl PackageRecipe {
    /// The package name.
    pub fn name(&self) -> (r: &String)
        ensures
            r@ == self.name@,
    {
        &self.name
    }

    /// The package version.
    pub fn version(&self) -> (r: &String)
        ensures
            r@ == self.version@,
    {
        &self.version
    }

    /// The canonical basename of the package.
    pub fn package_basename(&self) -> (r: String)
        ensures
            r@ == spec_basename(*self),
    {
        let mut out: Vec<char> = Vec::new();
        strutil::push_all(&mut out, &strutil::str_chars(self.name.as_str()));
        out.push('-');
        match self.epoch {
            Some(e) => {
                strutil::push_udec(&mut out, e);
                out.push(':');
            },
            None => {},
        }
        strutil::push_all(&mut out, &strutil::str_chars(self.version.as_str()));
        out.push('-');
        strutil::push_udec(&mut out, self.release);
        proof {
            assert(out@ =~= spec_basename(*self));
        }
        strutil::chars_to_string(&out)
    }

    /// Substitutes the recipe variables into every source's url and
    /// filename override, in one pass over each field.
    pub fn variable_substitution(&mut self)
        ensures
            final(self).sources is Some <==> old(self).sources is Some,
            old(self).sources matches Some(srcs) ==> final(self).sources matches Some(ns)
                && ns.len() == srcs.len() && forall|i: int| 0 <= i < srcs.len()
                ==> source_substituted(srcs[i], #[trigger] ns[i], old(self).name@,
                    old(self).version@, opt_view(old(self).url)),
            final(self).name == old(self).name,
            final(self).version == old(self).version,
            final(self).epoch == old(self).epoch,
            final(self).release == old(self).release,
            final(self).url == old(self).url,
            final(self).source == old(self).source,
            final(self).prepare == old(self).prepare,
            final(self).build == old(self).build,
            final(self).check == old(self).check,
            final(self).packages == old(self).packages,
    {
        let new_sources: Option<Vec<PackageRecipeSource>> = match &self.sources {
            Some(srcs) => {
                let mut out: Vec<PackageRecipeSource> = Vec::new();
                let mut i: usize = 0;
                while i < srcs.len()
                    invariant
                        i <= srcs.len(),
                        out@.len() == i,
                        forall|k: int| 0 <= k < i ==> source_substituted(srcs@[k],
                            #[trigger] out@[k], self.name@, self.version@, opt_view(self.url)),
                    decreases srcs.len() - i,
                {
                    let mut s = clone_source(&srcs[i]);
                    s.variable_substitution("pkgname", self.name.as_str());
                    s.variable_substitution("pkgver", self.version.as_str());
                    match &self.url {
                        Some(u) => s.variable_substitution("url", u.as_str()),
                        None => {},
                    }
                    out.push(s);
                    i = i + 1;
                }
                Some(out)
            },
            None => None,
        };
        self.sources = new_sources;
    }

    /// Resolves every source's filename: the nonempty override if present,
    /// else the basename derived from the URL; a source with neither fails
    /// the whole load with a `NameError`.
    pub fn compute_filenames(&mut self) -> (r: Result<(), BuildError>)
        ensures
            r is Ok <==> (old(self).sources is None || (old(self).sources matches Some(srcs)
                && forall|i: int| 0 <= i < srcs.len() ==> (#[trigger] spec_resolved_name(
                    srcs[i])) is Some)),
            r is Err ==> *final(self) == *old(self),
            r matches Err(e) ==> e is NameError,
            old(self).sources is None ==> *final(self) == *old(self),
            old(self).sources matches Some(srcs) ==> (r is Ok ==> final(self).sources is Some
                && final(self).sources->0.len() == srcs.len() && (forall|i: int| 0 <= i
                < srcs.len() ==> source_resolved(srcs[i], #[trigger] final(self).sources->0[i]))),
            r is Ok ==> filenames_resolved(*final(self)),
            final(self).name == old(self).name,
            final(self).version == old(self).version,
            final(self).epoch == old(self).epoch,
            final(self).release == old(self).release,
            final(self).url == old(self).url,
            final(self).source == old(self).source,
            final(self).prepare == old(self).prepare,
            final(self).build == old(self).build,
            final(self).check == old(self).check,
            final(self).packages == old(self).packages,
    {
        let new_sources: Option<Vec<PackageRecipeSource>> = match &self.sources {
            Some(srcs) => {
                let mut out: Vec<PackageRecipeSource> = Vec::new();
                let mut i: usize = 0;
                while i < srcs.len()
                    invariant
                        i <= srcs.len(),
                        out@.len() == i,
                        *self == *old(self),
                        self.sources matches Some(ss) && ss == *srcs,
                        forall|k: int| 0 <= k < i ==> (#[trigger] spec_resolved_name(
                            srcs@[k])) is Some,
                        forall|k: int| 0 <= k < i ==> source_resolved(srcs@[k],
                            #[trigger] out@[k]),
                    decreases srcs.len() - i,
                {
                    let s = &srcs[i];
                    let resolved: String = match &s.filename {
                        Some(f) => {
                            if f.unicode_len() == 0 {
                                proof {
                                    let ss = old(self).sources->0;
                                    assert(ss == *srcs);
                                    assert(spec_resolved_name(srcs@[i as int]) is None);
                                    assert(spec_resolved_name(ss[i as int]) is None);
                                }
                                return Err(BuildError::NameError { url: s.url.clone() });
                            }
                            f.clone()
                        },
                        None => {
                            match urlname::get_url_basename(s.url.as_str()) {
                                Ok(b) => b,
                                Err(e) => {
                                    proof {
                                        let ss = old(self).sources->0;
                                        assert(ss == *srcs);
                                        assert(spec_resolved_name(srcs@[i as int]) is None);
                                        assert(spec_resolved_name(ss[i as int]) is None);
                                    }
                                    return Err(e);
                                },
                            }
                        },
                    };
                    out.push(PackageRecipeSource {
                        url: s.url.clone(),
                        filename: Some(resolved),
                        sha256sum: clone_opt_string(&s.sha256sum),
                    });
                    i = i + 1;
                }
                Some(out)
            },
            None => {
                return Ok(());
            },
        };
        self.sources = new_sources;
        Ok(())
    }

    /// The resolved filenames of all declared sources, in order.
    pub fn all_source_filenames(&self) -> (r: Vec<String>)
        requires
            filenames_resolved(*self),
        ensures
            strutil::views_of(r@) == spec_source_names(*self),
    {
        let mut out: Vec<String> = Vec::new();
        match &self.sources {
            Some(srcs) => {
                let mut i: usize = 0;
                while i < srcs.len()
                    invariant
                        i <= srcs.len(),
                        filenames_resolved(*self),
                        self.sources matches Some(ss) && ss@ == srcs@,
                        out@.len() == i,
                        forall|k: int| 0 <= k < i ==> (#[trigger] out@[k])@
                            == srcs@[k].filename->0@,
                    decreases srcs.len() - i,
                {
                    let s = &srcs[i];
                    match &s.filename {
                        Some(f) => {
                            out.push(f.clone());
                        },
                        None => {
                            proof {
                                assert(srcs@[i as int].filename is Some);
                            }
                        },
                    }
                    i = i + 1;
                }
            },
            None => {},
        }
        proof {
            assert(strutil::views_of(out@) =~= spec_source_names(*self));
        }
        out
    }

    /// Checks every source with a declared digest against the actual hex
    /// digests handed in (one per source, in declaration order); the first
    /// mismatch aborts with a `MismatchError` naming the resolved
    /// filename, and sources with no declared digest are accepted
    /// unverified.
    pub fn verify_sources(&self, actual: &Vec<String>) -> (r: Result<(), BuildError>)
        requires
            filenames_resolved(*self),
            actual@.len() == spec_source_count(*self),
        ensures
            r is Ok <==> (self.sources is None || (self.sources matches Some(srcs) && forall|
                i: int| 0 <= i < srcs.len() ==> ((#[trigger] srcs[i]).sha256sum matches Some(h)
                ==> h@ == actual@[i]@))),
            r matches Err(e) ==> self.sources matches Some(srcs) && e matches
                BuildError::MismatchError { filename } && exists|i: int| 0 <= i < srcs.len()
                && ((#[trigger] srcs[i]).sha256sum matches Some(h) && h@ != actual@[i]@
                    && filename@ == srcs[i].filename->0@ && forall|k: int| 0 <= k < i
                    ==> ((#[trigger] srcs[k]).sha256sum matches Some(g) ==> g@ == actual@[k]@)),
    {
        match &self.sources {
            Some(srcs) => {
                let mut i: usize = 0;
                while i < srcs.len()
                    invariant
                        i <= srcs.len(),
                        self.sources matches Some(ss) && ss@ == srcs@,
                        filenames_resolved(*self),
                        actual@.len() == srcs@.len(),
                        forall|k: int| 0 <= k < i ==> ((#[trigger] srcs@[k]).sha256sum matches
                            Some(g) ==> g@ == actual@[k]@),
                    decreases srcs.len() - i,
                {
                    let s = &srcs[i];
                    match &s.sha256sum {
                        Some(h) => {
                            if !strutil::str_eq(h.as_str(), actual[i].as_str()) {
                                let name = match &s.filename {
                                    Some(f) => f.clone(),
                                    None => {
                                        proof {
                                            assert(srcs@[i as int].filename is Some);
                                        }
                                        String::new()
                                    },
                                };
                                return Err(BuildError::MismatchError { filename: name });
                            }
                        },
                        None => {},
                    }
                    i = i + 1;
                }
                Ok(())
            },
            None => Ok(()),
        }
    }
}

impl PackageRecipePackage {
    /// The subpackage name.
    pub fn name(&self) -> (r: &String)
        ensures
            r@ == self.name@,
    {
        &self.name
    }

    /// The packaging-stage body, if one is declared.
    pub fn package(&self) -> (r: Option<&String>)
        ensures
            r is Some <==> self.package is Some,
            r matches Some(p) ==> p@ == self.package->0@,
    {
        self.package.as_ref()
    }

    /// Binary-artifact creation: an extension point that consumes the
    /// populated package tree; deliberately a no-op here.
    pub fn create_package(&self) {
    }

    /// Debug-artifact creation: an extension point that consumes the
    /// populated package tree; deliberately a no-op here.
    pub fn create_debug_package(&self) {
    }
}

} // verus!
