//! The source-package assembler: every top-level staged entry is
//! classified into exactly one of three categories — skipped, included
//! from the invocation directory, or included from the staging directory —
//! and the archive-creation argument list is derived from that
//! classification in sorted entry order, grouping consecutive entries by
//! their source base directory.

use vstd::prelude::*;
use crate::recipe::{PackageRecipe, filenames_resolved, spec_basename, spec_source_names};
use crate::strutil;
use crate::strutil::{lex_le_fn, views_of};

verus! {

/// The category of one staged entry.
#[derive(Clone, Copy, Debug, PartialEq, Eq, Structural)]
pub enum EntryClass {
    /// An extracted archive's own entry: its content is already present
    /// through the relocation tree, so the entry is left out entirely.
    Skip,
    /// A flat (non-archive) source: included from the invocation
    /// directory, so the archive holds the real file and not a symlink.
    FromRoot,
    /// Extraction byproduct: included from the staging directory.
    FromStaging,
}

/// Classifies one entry name against the record of extracted archives and
/// the declared source filenames.
pub open spec fn spec_classify(
    entry: Seq<char>,
    extracted: Seq<Seq<char>>,
    sources: Seq<Seq<char>>,
) -> EntryClass {
    if extracted.contains(entry) {
        EntryClass::Skip
    } else if sources.contains(entry) {
        EntryClass::FromRoot
    } else {
        EntryClass::FromStaging
    }
}

/// Classifies one staged entry: an extracted archive is skipped, a
/// declared flat source is taken from the invocation directory, and
/// anything else is extraction byproduct taken from the staging directory.
pub fn classify_entry(entry: &str, extracted: &Vec<String>, sources: &Vec<String>) -> (r:
    EntryClass)
    ensures
        r == spec_classify(entry@, views_of(extracted@), views_of(sources@)),
{
    if strutil::contains_str(extracted, entry) {
        EntryClass::Skip
    } else if strutil::contains_str(sources, entry) {
        EntryClass::FromRoot
    } else {
        EntryClass::FromStaging
    }
}

/// The fixed head of the archive-creation invocation: create the gzipped
/// archive named after the basename, relocate `./` to the canonical
/// `usr/share/src/<pkgname>/` path, include the pre-created `usr` tree
/// from the staging directory and the recipe document from the invocation
/// directory.
pub open spec fn fixed_args(
    basename: Seq<char>,
    pkgname: Seq<char>,
    cwd: Seq<char>,
    srcdir: Seq<char>,
    recipe_file: Seq<char>,
) -> Seq<Seq<char>> {
    seq![
        ("--")@,
        ("bsdtar")@,
        ("czf")@,
        basename + (".src.tar.gz")@,
        ("-s")@,
        ("|\\./|usr/share/src/")@ + pkgname + ("/|")@,
        ("-C")@,
        srcdir,
        ("usr")@,
        ("-C")@,
        cwd,
        ("./")@ + recipe_file,
    ]
}

/// The per-entry tail of the invocation: entries in the given order, each
/// either skipped or emitted as `./entry`, with a `-C` directory switch
/// wherever the source base directory changes; `last_root` tells whether
/// the current base is the invocation directory.
pub open spec fn entry_args(
    entries: Seq<Seq<char>>,
    extracted: Seq<Seq<char>>,
    sources: Seq<Seq<char>>,
    cwd: Seq<char>,
    srcdir: Seq<char>,
    last_root: bool,
) -> Seq<Seq<char>>
    decreases entries.len(),
{
    if entries.len() == 0 {
        Seq::empty()
    } else {
        let e = entries[0];
        let rest = entries.drop_first();
        if e == ("usr")@ {
            entry_args(rest, extracted, sources, cwd, srcdir, last_root)
        } else {
            match spec_classify(e, extracted, sources) {
                EntryClass::Skip => entry_args(rest, extracted, sources, cwd, srcdir, last_root),
                EntryClass::FromRoot => if last_root {
                    seq![("./")@ + e] + entry_args(rest, extracted, sources, cwd, srcdir, true)
                } else {
                    seq![("-C")@, cwd, ("./")@ + e] + entry_args(rest, extracted, sources, cwd,
                        srcdir, true)
                },
                EntryClass::FromStaging => if !last_root {
                    seq![("./")@ + e] + entry_args(rest, extracted, sources, cwd, srcdir, false)
                } else {
                    seq![("-C")@, srcdir, ("./")@ + e] + entry_args(rest, extracted, sources, cwd,
                        srcdir, false)
                },
            }
        }
    }
}

/// The whole argument list of the archive-creation invocation: the fixed
/// head, then the staged entries in sorted lexicographic order, classified
/// and grouped; the base directory starts at the invocation directory.
pub open spec fn spec_package_args(
    r: PackageRecipe,
    recipe_file: Seq<char>,
    cwd: Seq<char>,
    srcdir: Seq<char>,
    entries: Seq<Seq<char>>,
    extracted: Seq<Seq<char>>,
) -> Seq<Seq<char>> {
    fixed_args(spec_basename(r), r.name@, cwd, srcdir, recipe_file) + entry_args(entries.sort_by(
        lex_le_fn()), extracted, spec_source_names(r), cwd, srcdir, true)
}

impl PackageRecipe {
    /// The relative path of the relocation tree pre-created inside the
    /// staging directory: `usr/share/src/<pkgname>`.
    pub fn relocation_subdir(&self) -> (r: String)
        ensures
            r@ == ("usr/share/src/")@ + self.name@,
    {
        let base = String::from_str("usr/share/src/");
        base.concat(self.name.as_str())
    }

    /// Derives the archive-creation argument list for the source package:
    /// classifies every staged entry in sorted order and groups
    /// consecutive entries by their base directory.  `entries` are the
    /// top-level names found in the staging directory, `extracted` the
    /// recorded filenames of successfully extracted archives.
    pub fn source_package_args(
        &self,
        recipe_file: &str,
        cwd: &str,
        srcdir: &str,
        entries: Vec<String>,
        extracted: &Vec<String>,
    ) -> (r: Vec<String>)
        requires
            filenames_resolved(*self),
        ensures
            views_of(r@) == spec_package_args(*self, recipe_file@, cwd@, srcdir@, views_of(
                entries@), views_of(extracted@)),
    {
        let ghost sources_spec = spec_source_names(*self);
        let sources = self.all_source_filenames();
        let sorted = strutil::sort_strings(entries);
        let ghost sorted_views = views_of(sorted@);
        let mut out: Vec<String> = Vec::new();
        out.push(String::from_str("--"));
        out.push(String::from_str("bsdtar"));
        out.push(String::from_str("czf"));
        out.push(self.package_basename().concat(".src.tar.gz"));
        out.push(String::from_str("-s"));
        out.push(String::from_str("|\\./|usr/share/src/").concat(self.name.as_str()).concat(
            "/|"));
        out.push(String::from_str("-C"));
        out.push(String::from_str(srcdir));
        out.push(String::from_str("usr"));
        out.push(String::from_str("-C"));
        out.push(String::from_str(cwd));
        out.push(String::from_str("./").concat(recipe_file));
        let ghost fixed = fixed_args(spec_basename(*self), self.name@, cwd@, srcdir@,
            recipe_file@);
        proof {
            assert(views_of(out@) =~= fixed);
        }
        let mut last_root: bool = true;
        let mut i: usize = 0;
        proof {
            assert(sorted_views.skip(0) =~= sorted_views);
        }
        while i < sorted.len()
            invariant
                i <= sorted@.len(),
                sorted_views == views_of(sorted@),
                views_of(sources@) == sources_spec,
                fixed == fixed_args(spec_basename(*self), self.name@, cwd@, srcdir@,
                    recipe_file@),
                fixed + entry_args(sorted_views, views_of(extracted@), sources_spec, cwd@,
                    srcdir@, true) == views_of(out@) + entry_args(sorted_views.skip(i as int),
                    views_of(extracted@), sources_spec, cwd@, srcdir@, last_root),
            decreases sorted@.len() - i,
        {
            let ghost rest = sorted_views.skip(i as int);
            let ghost ex = views_of(extracted@);
            proof {
                assert(rest[0] == sorted_views[i as int]);
                assert(rest.drop_first() =~= sorted_views.skip(i + 1));
                assert(views_of(sorted@)[i as int] == sorted@[i as int]@);
            }
            let entry = &sorted[i];
            if strutil::str_eq(entry.as_str(), "usr") {
                proof {
                    assert(rest[0] == ("usr")@);
                    assert(entry_args(rest, ex, sources_spec, cwd@, srcdir@, last_root)
                        == entry_args(sorted_views.skip(i + 1), ex, sources_spec, cwd@, srcdir@,
                        last_root));
                }
                i = i + 1;
                continue;
            }
            let class = classify_entry(entry.as_str(), extracted, &sources);
            let ghost out0 = out@;
            let ghost last0 = last_root;
            let ghost e = rest[0];
            match class {
                EntryClass::Skip => {
                    proof {
                        assert(entry_args(rest, ex, sources_spec, cwd@, srcdir@, last0)
                            == entry_args(sorted_views.skip(i + 1), ex, sources_spec, cwd@,
                            srcdir@, last0));
                    }
                },
                EntryClass::FromRoot => {
                    if !last_root {
                        out.push(String::from_str("-C"));
                        out.push(String::from_str(cwd));
                    }
                    out.push(String::from_str("./").concat(entry.as_str()));
                    last_root = true;
                    proof {
                        let tail = entry_args(sorted_views.skip(i + 1), ex, sources_spec, cwd@,
                            srcdir@, true);
                        if last0 {
                            assert(entry_args(rest, ex, sources_spec, cwd@, srcdir@, last0)
                                == seq![("./")@ + e] + tail);
                            assert(views_of(out@) =~= views_of(out0) + seq![("./")@ + e]);
                            assert(views_of(out0) + (seq![("./")@ + e] + tail) =~= views_of(out@)
                                + tail);
                        } else {
                            assert(entry_args(rest, ex, sources_spec, cwd@, srcdir@, last0)
                                == seq![("-C")@, cwd@, ("./")@ + e] + tail);
                            assert(views_of(out@) =~= views_of(out0) + seq![("-C")@, cwd@, (
                                "./")@ + e]);
                            assert(views_of(out0) + (seq![("-C")@, cwd@, ("./")@ + e] + tail)
                                =~= views_of(out@) + tail);
                        }
                    }
                },
                EntryClass::FromStaging => {
                    if last_root {
                        out.push(String::from_str("-C"));
                        out.push(String::from_str(srcdir));
                    }
                    out.push(String::from_str("./").concat(entry.as_str()));
                    last_root = false;
                    proof {
                        let tail = entry_args(sorted_views.skip(i + 1), ex, sources_spec, cwd@,
                            srcdir@, false);
                        if !last0 {
                            assert(entry_args(rest, ex, sources_spec, cwd@, srcdir@, last0)
                                == seq![("./")@ + e] + tail);
                            assert(views_of(out@) =~= views_of(out0) + seq![("./")@ + e]);
                            assert(views_of(out0) + (seq![("./")@ + e] + tail) =~= views_of(out@)
                                + tail);
                        } else {
                            assert(entry_args(rest, ex, sources_spec, cwd@, srcdir@, last0)
                                == seq![("-C")@, srcdir@, ("./")@ + e] + tail);
                            assert(views_of(out@) =~= views_of(out0) + seq![("-C")@, srcdir@, (
                                "./")@ + e]);
                            assert(views_of(out0) + (seq![("-C")@, srcdir@, ("./")@ + e] + tail)
                                =~= views_of(out@) + tail);
                        }
                    }
                },
            }
            i = i + 1;
        }
        proof {
            assert(sorted_views.skip(sorted_views.len() as int) =~= Seq::<Seq<char>>::empty());
            assert(views_of(out@) + Seq::<Seq<char>>::empty() =~= views_of(out@));
        }
        out
    }
}

} // verus!
