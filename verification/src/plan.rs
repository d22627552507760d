//! The staging orchestrator's plan: the pipeline is a linear sequence of
//! steps — run the `source` stage, assemble the source package, run
//! `prepare`, `build` and `check`, then for each subpackage create its
//! staging directory, run its `package` stage and invoke artifact
//! creation.  Variable bindings accumulate monotonically: the base set
//! `pkgname`/`pkgver`, then `srcdir`, and `pkgdir` inside each
//! subpackage's stage.

use vstd::prelude::*;
use crate::recipe::{PackageRecipe, PackageRecipePackage, opt_view};
use crate::script::{VarBinding, binding_views};

verus! {

/// A ghost description of one pipeline step.
pub enum SpecStep {
    RunScript {
        stage: Seq<char>,
        subpackage: Option<Seq<char>>,
        cwd: Seq<char>,
        body: Seq<char>,
        vars: Seq<(Seq<char>, Seq<char>)>,
    },
    AssembleSourcePackage,
    CreatePkgDir { subpackage: Seq<char>, path: Seq<char> },
    CreateArtifacts { subpackage: Seq<char> },
}

/// One executable step of the build pipeline.  The front end performs the
/// steps in order and aborts the whole run on the first failure.
pub enum BuildStep {
    /// Run a stage body through the script runner, rooted at `cwd`, with
    /// the given variable bindings; a non-zero exit is a `StageFailure`
    /// naming `stage` and, where set, `subpackage`.
    RunScript {
        stage: String,
        subpackage: Option<String>,
        cwd: String,
        body: String,
        vars: Vec<VarBinding>,
    },
    /// Assemble the source package from the staging tree.
    AssembleSourcePackage,
    /// Create the staging directory of one subpackage.
    CreatePkgDir { subpackage: String, path: String },
    /// Invoke the binary- and debug-artifact extension points of one
    /// subpackage.
    CreateArtifacts { subpackage: String },
}

/// The view of one step.
pub open spec fn step_view(s: BuildStep) -> SpecStep {
    match s {
        BuildStep::RunScript { stage, subpackage, cwd, body, vars } => SpecStep::RunScript {
            stage: stage@,
            subpackage: opt_view(subpackage),
            cwd: cwd@,
            body: body@,
            vars: binding_views(vars@),
        },
        BuildStep::AssembleSourcePackage => SpecStep::AssembleSourcePackage,
        BuildStep::CreatePkgDir { subpackage, path } => SpecStep::CreatePkgDir {
            subpackage: subpackage@,
            path: path@,
        },
        BuildStep::CreateArtifacts { subpackage } => SpecStep::CreateArtifacts {
            subpackage: subpackage@,
        },
    }
}

/// The views of a sequence of steps.
pub open spec fn step_views(s: Seq<BuildStep>) -> Seq<SpecStep> {
    s.map_values(|b: BuildStep| step_view(b))
}

/// The base variable set with `srcdir` bound: what every whole-package
/// stage script sees.
pub open spec fn srcdir_vars(name: Seq<char>, version: Seq<char>, srcdir_abs: Seq<char>) -> Seq<(
    Seq<char>,
    Seq<char>,
)> {
    seq![(("pkgname")@, name), (("pkgver")@, version), (("srcdir")@, srcdir_abs)]
}

/// The plan segment of one optional whole-package stage: one script run
/// if the stage body is declared, else nothing.
pub open spec fn opt_script(
    stage: Seq<char>,
    body: Option<String>,
    cwd: Seq<char>,
    vars: Seq<(Seq<char>, Seq<char>)>,
) -> Seq<SpecStep> {
    match body {
        Some(b) => seq![
            SpecStep::RunScript { stage, subpackage: None, cwd, body: b@, vars },
        ],
        None => Seq::empty(),
    }
}

/// The plan segment of the declared subpackages, in declaration order:
/// create the package directory, run the packaging stage (with `pkgdir`
/// bound on top of the accumulated set) if one is declared, then invoke
/// artifact creation.
pub open spec fn pkg_steps(
    pkgs: Seq<PackageRecipePackage>,
    cwd: Seq<char>,
    svars: Seq<(Seq<char>, Seq<char>)>,
    pkgbase_abs: Seq<char>,
) -> Seq<SpecStep>
    decreases pkgs.len(),
{
    if pkgs.len() == 0 {
        Seq::empty()
    } else {
        let p = pkgs[0];
        let path = pkgbase_abs + ("/")@ + p.name@;
        seq![SpecStep::CreatePkgDir { subpackage: p.name@, path }] + (match p.package {
            Some(b) => seq![
                SpecStep::RunScript {
                    stage: ("package")@,
                    subpackage: Some(p.name@),
                    cwd,
                    body: b@,
                    vars: svars.push((("pkgdir")@, path)),
                },
            ],
            None => Seq::empty(),
        }) + seq![SpecStep::CreateArtifacts { subpackage: p.name@ }] + pkg_steps(
            pkgs.drop_first(), cwd, svars, pkgbase_abs)
    }
}

/// The whole pipeline plan after staging: the `source` stage, the source
/// package assembly, the `prepare`, `build` and `check` stages, then the
/// subpackage segments.
pub open spec fn spec_plan(
    r: PackageRecipe,
    cwd: Seq<char>,
    srcdir_abs: Seq<char>,
    pkgbase_abs: Seq<char>,
) -> Seq<SpecStep> {
    let svars = srcdir_vars(r.name@, r.version@, srcdir_abs);
    opt_script(("source")@, r.source, cwd, svars) + seq![SpecStep::AssembleSourcePackage]
        + opt_script(("prepare")@, r.prepare, cwd, svars) + opt_script(("build")@, r.build, cwd,
        svars) + opt_script(("check")@, r.check, cwd, svars) + (match r.packages {
        Some(ps) => pkg_steps(ps@, cwd, svars, pkgbase_abs),
        None => Seq::empty(),
    })
}

/// The two well-known staging directories that are removed and recreated
/// before every run, in that fixed order: the source-staging root and the
/// package-staging root.
pub fn staging_dirs() -> (r: (String, String))
    ensures
        r.0@ == ("tmpsrc")@,
        r.1@ == ("tmppkg")@,
{
    (String::from_str("tmpsrc"), String::from_str("tmppkg"))
}

fn clone_bindings(v: &Vec<VarBinding>) -> (r: Vec<VarBinding>)
    ensures
        binding_views(r@) == binding_views(v@),
{
    let mut out: Vec<VarBinding> = Vec::new();
    let mut i: usize = 0;
    proof {
        assert(binding_views(out@) =~= binding_views(v@).take(0));
    }
    while i < v.len()
        invariant
            i <= v@.len(),
            out@.len() == i,
            binding_views(out@) == binding_views(v@).take(i as int),
        decreases v@.len() - i,
    {
        let ghost out0 = out@;
        out.push(VarBinding { name: v[i].name.clone(), value: v[i].value.clone() });
        proof {
            assert(out@ == out0.push(out@[i as int]));
            assert(out@[i as int].name@ == v@[i as int].name@);
            assert(out@[i as int].value@ == v@[i as int].value@);
            assert forall|k: int| 0 <= k < i + 1 implies binding_views(out@)[k] == binding_views(
                v@).take(i + 1)[k] by {
                assert(binding_views(out@)[k] == crate::script::binding_view(out@[k]));
                if k < i {
                    assert(out@[k] == out0[k]);
                    assert(binding_views(out0)[k] == crate::script::binding_view(out0[k]));
                }
            }
            assert(binding_views(out@) =~= binding_views(v@).take(i + 1));
        }
        i = i + 1;
    }
    proof {
        assert(binding_views(v@).take(v@.len() as int) =~= binding_views(v@));
    }
    out
}

impl PackageRecipe {
    /// Lays out the pipeline steps that follow staging, in order, with
    /// the variable set of each script fixed: `pkgname`, `pkgver` and
    /// `srcdir` for whole-package stages, plus `pkgdir` inside each
    /// subpackage's packaging stage.
    pub fn build_plan(&self, cwd: &str, srcdir_abs: &str, pkgbase_abs: &str) -> (r: Vec<
        BuildStep>)
        ensures
            step_views(r@) == spec_plan(*self, cwd@, srcdir_abs@, pkgbase_abs@),
    {
        let ghost svars_spec = srcdir_vars(self.name@, self.version@, srcdir_abs@);
        let mut svars: Vec<VarBinding> = Vec::new();
        svars.push(VarBinding { name: String::from_str("pkgname"), value: self.name.clone() });
        svars.push(VarBinding { name: String::from_str("pkgver"), value: self.version.clone() });
        svars.push(VarBinding { name: String::from_str("srcdir"), value: String::from_str(
            srcdir_abs) });
        proof {
            assert(binding_views(svars@) =~= svars_spec);
        }
        let mut out: Vec<BuildStep> = Vec::new();
        match &self.source {
            Some(b) => {
                out.push(BuildStep::RunScript {
                    stage: String::from_str("source"),
                    subpackage: None,
                    cwd: String::from_str(cwd),
                    body: b.clone(),
                    vars: clone_bindings(&svars),
                });
            },
            None => {},
        }
        out.push(BuildStep::AssembleSourcePackage);
        match &self.prepare {
            Some(b) => {
                out.push(BuildStep::RunScript {
                    stage: String::from_str("prepare"),
                    subpackage: None,
                    cwd: String::from_str(cwd),
                    body: b.clone(),
                    vars: clone_bindings(&svars),
                });
            },
            None => {},
        }
        match &self.build {
            Some(b) => {
                out.push(BuildStep::RunScript {
                    stage: String::from_str("build"),
                    subpackage: None,
                    cwd: String::from_str(cwd),
                    body: b.clone(),
                    vars: clone_bindings(&svars),
                });
            },
            None => {},
        }
        match &self.check {
            Some(b) => {
                out.push(BuildStep::RunScript {
                    stage: String::from_str("check"),
                    subpackage: None,
                    cwd: String::from_str(cwd),
                    body: b.clone(),
                    vars: clone_bindings(&svars),
                });
            },
            None => {},
        }
        let ghost head = opt_script(("source")@, self.source, cwd@, svars_spec) + seq![
            SpecStep::AssembleSourcePackage,
        ] + opt_script(("prepare")@, self.prepare, cwd@, svars_spec) + opt_script(("build")@,
            self.build, cwd@, svars_spec) + opt_script(("check")@, self.check, cwd@, svars_spec);
        proof {
            assert(step_views(out@) =~= head);
        }
        match &self.packages {
            Some(pkgs) => {
                let mut i: usize = 0;
                proof {
                    assert(pkgs@.skip(0) =~= pkgs@);
                }
                while i < pkgs.len()
                    invariant
                        i <= pkgs@.len(),
                        self.packages matches Some(ps) && ps@ == pkgs@,
                        svars_spec == srcdir_vars(self.name@, self.version@, srcdir_abs@),
                        binding_views(svars@) == svars_spec,
                        head + pkg_steps(pkgs@, cwd@, svars_spec, pkgbase_abs@) == step_views(
                            out@) + pkg_steps(pkgs@.skip(i as int), cwd@, svars_spec,
                            pkgbase_abs@),
                    decreases pkgs@.len() - i,
                {
                    let ghost rest = pkgs@.skip(i as int);
                    let ghost out0 = out@;
                    proof {
                        assert(rest[0] == pkgs@[i as int]);
                        assert(rest.drop_first() =~= pkgs@.skip(i + 1));
                    }
                    let p = &pkgs[i];
                    let path = String::from_str(pkgbase_abs).concat("/").concat(p.name.as_str());
                    out.push(BuildStep::CreatePkgDir {
                        subpackage: p.name.clone(),
                        path: path.clone(),
                    });
                    match &p.package {
                        Some(b) => {
                            let mut pvars = clone_bindings(&svars);
                            pvars.push(VarBinding {
                                name: String::from_str("pkgdir"),
                                value: path.clone(),
                            });
                            proof {
                                assert(binding_views(pvars@) =~= svars_spec.push((("pkgdir")@,
                                    path@)));
                            }
                            out.push(BuildStep::RunScript {
                                stage: String::from_str("package"),
                                subpackage: Some(p.name.clone()),
                                cwd: String::from_str(cwd),
                                body: b.clone(),
                                vars: pvars,
                            });
                        },
                        None => {},
                    }
                    out.push(BuildStep::CreateArtifacts { subpackage: p.name.clone() });
                    proof {
                        let seg = pkg_steps(rest, cwd@, svars_spec, pkgbase_abs@);
                        let tail = pkg_steps(pkgs@.skip(i + 1), cwd@, svars_spec, pkgbase_abs@);
                        let p0 = pkgs@[i as int];
                        let path0 = pkgbase_abs@ + ("/")@ + p0.name@;
                        assert(path@ == path0);
                        match p0.package {
                            Some(b0) => {
                                assert(seg =~= seq![
                                    SpecStep::CreatePkgDir { subpackage: p0.name@, path: path0 },
                                    SpecStep::RunScript {
                                        stage: ("package")@,
                                        subpackage: Some(p0.name@),
                                        cwd: cwd@,
                                        body: b0@,
                                        vars: svars_spec.push((("pkgdir")@, path0)),
                                    },
                                    SpecStep::CreateArtifacts { subpackage: p0.name@ },
                                ] + tail);
                                assert(step_views(out@) =~= step_views(out0) + seq![
                                    SpecStep::CreatePkgDir { subpackage: p0.name@, path: path0 },
                                    SpecStep::RunScript {
                                        stage: ("package")@,
                                        subpackage: Some(p0.name@),
                                        cwd: cwd@,
                                        body: b0@,
                                        vars: svars_spec.push((("pkgdir")@, path0)),
                                    },
                                    SpecStep::CreateArtifacts { subpackage: p0.name@ },
                                ]);
                            },
                            None => {
                                assert(seg =~= seq![
                                    SpecStep::CreatePkgDir { subpackage: p0.name@, path: path0 },
                                    SpecStep::CreateArtifacts { subpackage: p0.name@ },
                                ] + tail);
                                assert(step_views(out@) =~= step_views(out0) + seq![
                                    SpecStep::CreatePkgDir { subpackage: p0.name@, path: path0 },
                                    SpecStep::CreateArtifacts { subpackage: p0.name@ },
                                ]);
                            },
                        }
                        assert(step_views(out0) + seg =~= step_views(out@) + tail);
                    }
                    i = i + 1;
                }
                proof {
                    assert(pkgs@.skip(pkgs@.len() as int) =~= Seq::<
                        PackageRecipePackage>::empty());
                    assert(pkg_steps(Seq::<PackageRecipePackage>::empty(), cwd@, svars_spec,
                        pkgbase_abs@) =~= Seq::<SpecStep>::empty());
                    assert(step_views(out@) + Seq::<SpecStep>::empty() =~= step_views(out@));
                }
            },
            None => {},
        }
        proof {
            assert(step_views(out@) =~= spec_plan(*self, cwd@, srcdir_abs@, pkgbase_abs@));
        }
        out
    }
}

} // verus!
