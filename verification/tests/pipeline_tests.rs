use mpm::assemble::EntryClass;
use mpm::digest;
use mpm::errors::BuildError;
use mpm::plan::BuildStep;
use mpm::recipe::{PackageRecipe, PackageRecipePackage, PackageRecipeSource};
use mpm::script::{create_script, VarBinding};
use mpm::urlname;

fn demo_recipe() -> PackageRecipe {
    PackageRecipe {
        name: String::from("demo"),
        version: String::from("1.0"),
        epoch: None,
        release: 1,
        description: String::from("demo package"),
        url: None,
        arch: None,
        license: None,
        depends: None,
        makedepends: None,
        checkdepends: None,
        sources: Some(vec![
            PackageRecipeSource {
                url: String::from("https://example.com/src.tar.gz"),
                filename: Some(String::from("src.tar.gz")),
                sha256sum: Some(String::from(
                    "ba7816bf8f01cfea414140de5dae2223b00361a396177a9cb410ff61f20015ad",
                )),
            },
            PackageRecipeSource {
                url: String::from("https://example.com/notes.txt"),
                filename: Some(String::from("notes.txt")),
                sha256sum: None,
            },
        ]),
        source: None,
        prepare: None,
        build: None,
        check: None,
        packages: None,
    }
}

#[test]
fn good_parse_example() {
    assert_eq!(
        urlname::get_url_basename("https://example.com/dir/file.tar.gz").unwrap(),
        "file.tar.gz"
    );
}

#[test]
fn url_without_segment_is_a_name_error() {
    match urlname::get_url_basename("https://example.com/") {
        Err(BuildError::NameError { url }) => assert_eq!(url, "https://example.com/"),
        other => panic!("expected a name error, got {:?}", other),
    }
    assert!(urlname::get_url_basename("not a url at all").is_err());
}

#[test]
fn test_script_output() {
    let script = "echo $somevar\n";
    let vars = vec![VarBinding {
        name: String::from("somevar"),
        value: String::from("testing"),
    }];
    assert_eq!(
        create_script(&script, &vars),
        "set -ex\n\nsomevar='testing'\n\necho $somevar\n\nexit 0\n"
    );
}

#[test]
fn script_is_deterministic_in_binding_order() {
    let a = vec![
        VarBinding { name: String::from("pkgver"), value: String::from("1.0") },
        VarBinding { name: String::from("pkgname"), value: String::from("demo") },
        VarBinding { name: String::from("srcdir"), value: String::from("/tmp/x") },
    ];
    let b = vec![
        VarBinding { name: String::from("srcdir"), value: String::from("/tmp/x") },
        VarBinding { name: String::from("pkgver"), value: String::from("1.0") },
        VarBinding { name: String::from("pkgname"), value: String::from("demo") },
    ];
    let body = "make\n";
    let sa = create_script(body, &a);
    assert_eq!(sa, create_script(body, &b));
    assert_eq!(
        sa,
        "set -ex\n\npkgname='demo'\npkgver='1.0'\nsrcdir='/tmp/x'\n\nmake\n\nexit 0\n"
    );
}

#[test]
fn sha256_hex_of_known_values() {
    let empty: Vec<u8> = Vec::new();
    assert_eq!(
        digest::sha256_hex(&empty),
        "e3b0c44298fc1c149afbf4c8996fb92427ae41e4649b934ca495991b7852b855"
    );
    let abc: Vec<u8> = b"abc".to_vec();
    assert_eq!(
        digest::sha256_hex(&abc),
        "ba7816bf8f01cfea414140de5dae2223b00361a396177a9cb410ff61f20015ad"
    );
}

#[test]
fn digest_matches_flips_on_content_change() {
    let abc: Vec<u8> = b"abc".to_vec();
    let abd: Vec<u8> = b"abd".to_vec();
    let expected = "ba7816bf8f01cfea414140de5dae2223b00361a396177a9cb410ff61f20015ad";
    assert!(digest::digest_matches(&abc, expected));
    assert!(!digest::digest_matches(&abd, expected));
    assert!(!digest::digest_matches(&abc, "something else"));
}

#[test]
fn download_is_skipped_when_the_file_exists() {
    assert!(!urlname::should_download(true, false));
    assert!(urlname::should_download(true, true));
    assert!(urlname::should_download(false, false));
    assert!(urlname::should_download(false, true));
}

#[test]
fn staging_dirs_are_fixed() {
    let (src, pkg) = mpm::plan::staging_dirs();
    assert_eq!(src, "tmpsrc");
    assert_eq!(pkg, "tmppkg");
    let again = mpm::plan::staging_dirs();
    assert_eq!((src, pkg), again);
}

#[test]
fn classify_covers_all_three_categories() {
    let extracted = vec![String::from("src.tar.gz")];
    let sources = vec![String::from("src.tar.gz"), String::from("notes.txt")];
    assert_eq!(
        mpm::assemble::classify_entry("src.tar.gz", &extracted, &sources),
        EntryClass::Skip
    );
    assert_eq!(
        mpm::assemble::classify_entry("notes.txt", &extracted, &sources),
        EntryClass::FromRoot
    );
    assert_eq!(
        mpm::assemble::classify_entry("demo-1.0", &extracted, &sources),
        EntryClass::FromStaging
    );
}

#[test]
fn source_package_args_skip_root_and_staging() {
    let recipe = demo_recipe();
    let entries = vec![
        String::from("src.tar.gz"),
        String::from("demo-1.0"),
        String::from("notes.txt"),
        String::from("usr"),
    ];
    let extracted = vec![String::from("src.tar.gz")];
    let args = recipe.source_package_args(
        "pkgrecipe.yaml",
        "/work",
        "/work/tmpsrc",
        entries,
        &extracted,
    );
    let expected = vec![
        "--",
        "bsdtar",
        "czf",
        "demo-1.0-1.src.tar.gz",
        "-s",
        "|\\./|usr/share/src/demo/|",
        "-C",
        "/work/tmpsrc",
        "usr",
        "-C",
        "/work",
        "./pkgrecipe.yaml",
        // entries in sorted order: demo-1.0 (staging), notes.txt (root),
        // src.tar.gz (skipped), usr (the relocation root, handled above)
        "-C",
        "/work/tmpsrc",
        "./demo-1.0",
        "-C",
        "/work",
        "./notes.txt",
    ];
    assert_eq!(args, expected);
    assert!(!args.contains(&String::from("./src.tar.gz")));
}

#[test]
fn relocation_subdir_follows_the_name() {
    let recipe = demo_recipe();
    assert_eq!(recipe.relocation_subdir(), "usr/share/src/demo");
}

#[test]
fn build_plan_orders_stages_and_subpackages() {
    let mut recipe = demo_recipe();
    recipe.source = Some(String::from("tar xf src.tar.gz\n"));
    recipe.build = Some(String::from("make\n"));
    recipe.packages = Some(vec![PackageRecipePackage {
        name: String::from("demo-bin"),
        description: None,
        package: Some(String::from("cp demo $pkgdir/\n")),
    }]);
    let steps = recipe.build_plan("tmpsrc", "/abs/tmpsrc", "/abs/tmppkg");
    assert_eq!(steps.len(), 6);
    match &steps[0] {
        BuildStep::RunScript { stage, subpackage, cwd, body, vars } => {
            assert_eq!(stage, "source");
            assert!(subpackage.is_none());
            assert_eq!(cwd, "tmpsrc");
            assert_eq!(body, "tar xf src.tar.gz\n");
            let names: Vec<&str> = vars.iter().map(|v| v.name.as_str()).collect();
            assert_eq!(names, vec!["pkgname", "pkgver", "srcdir"]);
            assert_eq!(vars[2].value, "/abs/tmpsrc");
        }
        other => panic!("expected the source stage first, got {:?}", step_kind(other)),
    }
    assert!(matches!(&steps[1], BuildStep::AssembleSourcePackage));
    match &steps[2] {
        BuildStep::RunScript { stage, .. } => assert_eq!(stage, "build"),
        other => panic!("expected the build stage, got {:?}", step_kind(other)),
    }
    match &steps[3] {
        BuildStep::CreatePkgDir { subpackage, path } => {
            assert_eq!(subpackage, "demo-bin");
            assert_eq!(path, "/abs/tmppkg/demo-bin");
        }
        other => panic!("expected the package dir step, got {:?}", step_kind(other)),
    }
    match &steps[4] {
        BuildStep::RunScript { stage, subpackage, vars, .. } => {
            assert_eq!(stage, "package");
            assert_eq!(subpackage.as_ref().unwrap(), "demo-bin");
            assert_eq!(vars[3].name, "pkgdir");
            assert_eq!(vars[3].value, "/abs/tmppkg/demo-bin");
        }
        other => panic!("expected the packaging stage, got {:?}", step_kind(other)),
    }
    match &steps[5] {
        BuildStep::CreateArtifacts { subpackage } => assert_eq!(subpackage, "demo-bin"),
        other => panic!("expected the artifacts step, got {:?}", step_kind(other)),
    }
}

fn step_kind(s: &BuildStep) -> &'static str {
    match s {
        BuildStep::RunScript { .. } => "RunScript",
        BuildStep::AssembleSourcePackage => "AssembleSourcePackage",
        BuildStep::CreatePkgDir { .. } => "CreatePkgDir",
        BuildStep::CreateArtifacts { .. } => "CreateArtifacts",
    }
}

#[test]
fn end_to_end_verify_then_assemble() {
    // A recipe with one archive source (correct checksum, extracted) and
    // one flat text source (no checksum): verification checks only the
    // archive, and the assembled invocation takes the extracted tree from
    // staging, the flat file from the invocation directory, and leaves
    // the archive entry out.
    let recipe = demo_recipe();
    let archive_bytes: Vec<u8> = b"abc".to_vec();
    let digests = vec![
        digest::sha256_hex(&archive_bytes),
        String::from("never inspected"),
    ];
    assert!(recipe.verify_sources(&digests).is_ok());

    let entries = vec![
        String::from("notes.txt"),
        String::from("src.tar.gz"),
        String::from("demo-1.0"),
        String::from("usr"),
    ];
    let extracted = vec![String::from("src.tar.gz")];
    let args =
        recipe.source_package_args("pkgrecipe.yaml", "/w", "/w/tmpsrc", entries, &extracted);
    assert!(args.contains(&String::from("./notes.txt")));
    assert!(args.contains(&String::from("./demo-1.0")));
    assert!(args.contains(&String::from("./pkgrecipe.yaml")));
    assert!(!args.contains(&String::from("./src.tar.gz")));
    assert!(args.contains(&String::from("usr")));
}

#[test]
fn build_plan_with_only_a_check_stage() {
    let mut recipe = demo_recipe();
    recipe.check = Some(String::from("make test\n"));
    let steps = recipe.build_plan("tmpsrc", "/abs/tmpsrc", "/abs/tmppkg");
    assert_eq!(steps.len(), 2);
    assert!(matches!(&steps[0], BuildStep::AssembleSourcePackage));
    match &steps[1] {
        BuildStep::RunScript { stage, .. } => assert_eq!(stage, "check"),
        other => panic!("expected the check stage, got {:?}", step_kind(other)),
    }
}
