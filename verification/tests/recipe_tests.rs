use mpm::recipe::{PackageRecipe, PackageRecipePackage, PackageRecipeSource};

fn bare_recipe() -> PackageRecipe {
    PackageRecipe {
        name: String::from("testpkg"),
        version: String::from("1.2.3"),
        epoch: None,
        release: 4,
        description: String::from("test"),
        url: None,
        arch: None,
        license: None,
        depends: None,
        makedepends: None,
        checkdepends: None,
        sources: None,
        source: None,
        prepare: None,
        build: None,
        check: None,
        packages: None,
    }
}

#[test]
fn test_variable_substitution() {
    let mut s = PackageRecipeSource {
        url: String::from("${url}/archive/${pkgname}-${pkgver}.tar.gz"),
        sha256sum: None,
        filename: Some(String::from("${pkgname}.tgz")),
    };

    s.variable_substitution("url", "https://example.com");
    s.variable_substitution("pkgname", "test");
    s.variable_substitution("pkgver", "1.0");

    assert_eq!(s.url, "https://example.com/archive/test-1.0.tar.gz");
    assert_eq!(s.filename.unwrap(), "test.tgz");
}

#[test]
fn test_basename_with_epoch() {
    let mut recipe = bare_recipe();
    recipe.epoch = Some(1);
    assert_eq!(recipe.package_basename(), "testpkg-1:1.2.3-4");
}

#[test]
fn test_basename_without_epoch() {
    let recipe = bare_recipe();
    assert_eq!(recipe.package_basename(), "testpkg-1.2.3-4");
}

#[test]
fn basename_multi_digit_release() {
    let mut recipe = bare_recipe();
    recipe.version = String::from("2.0");
    recipe.release = 12;
    recipe.epoch = Some(10);
    assert_eq!(recipe.package_basename(), "testpkg-10:2.0-12");
}

#[test]
fn whole_recipe_substitution_touches_every_source() {
    let mut recipe = bare_recipe();
    recipe.name = String::from("test");
    recipe.version = String::from("1.0");
    recipe.url = Some(String::from("https://example.com"));
    recipe.sources = Some(vec![
        PackageRecipeSource {
            url: String::from("${url}/archive/${pkgname}-${pkgver}.tar.gz"),
            filename: None,
            sha256sum: None,
        },
        PackageRecipeSource {
            url: String::from("${url}/notes.txt"),
            filename: Some(String::from("${pkgname}-notes.txt")),
            sha256sum: None,
        },
    ]);
    recipe.variable_substitution();
    let sources = recipe.sources.as_ref().unwrap();
    assert_eq!(sources[0].url, "https://example.com/archive/test-1.0.tar.gz");
    assert!(sources[0].filename.is_none());
    assert_eq!(sources[1].url, "https://example.com/notes.txt");
    assert_eq!(sources[1].filename.as_ref().unwrap(), "test-notes.txt");
}

#[test]
fn compute_filenames_resolves_and_is_idempotent() {
    let mut recipe = bare_recipe();
    recipe.sources = Some(vec![
        PackageRecipeSource {
            url: String::from("https://example.com/dir/file.tar.gz"),
            filename: None,
            sha256sum: None,
        },
        PackageRecipeSource {
            url: String::from("https://example.com/whatever"),
            filename: Some(String::from("named.txt")),
            sha256sum: None,
        },
    ]);
    assert!(recipe.compute_filenames().is_ok());
    let first = recipe.all_source_filenames();
    assert_eq!(first, vec!["file.tar.gz".to_string(), "named.txt".to_string()]);
    assert!(recipe.compute_filenames().is_ok());
    assert_eq!(recipe.all_source_filenames(), first);
}

#[test]
fn compute_filenames_fails_without_derivable_name() {
    let mut recipe = bare_recipe();
    recipe.sources = Some(vec![PackageRecipeSource {
        url: String::from("https://example.com/"),
        filename: None,
        sha256sum: None,
    }]);
    assert!(recipe.compute_filenames().is_err());
}

#[test]
fn verify_sources_ignores_undeclared_and_names_first_mismatch() {
    let mut recipe = bare_recipe();
    recipe.sources = Some(vec![
        PackageRecipeSource {
            url: String::from("https://example.com/a.tar.gz"),
            filename: Some(String::from("a.tar.gz")),
            sha256sum: Some(String::from("aaaa")),
        },
        PackageRecipeSource {
            url: String::from("https://example.com/b.txt"),
            filename: Some(String::from("b.txt")),
            sha256sum: None,
        },
        PackageRecipeSource {
            url: String::from("https://example.com/c.txt"),
            filename: Some(String::from("c.txt")),
            sha256sum: Some(String::from("cccc")),
        },
    ]);

    let good = vec![
        String::from("aaaa"),
        String::from("anything-at-all"),
        String::from("cccc"),
    ];
    assert!(recipe.verify_sources(&good).is_ok());

    let bad = vec![
        String::from("aaaa"),
        String::from("anything-at-all"),
        String::from("not-cccc"),
    ];
    match recipe.verify_sources(&bad) {
        Err(mpm::errors::BuildError::MismatchError { filename }) => {
            assert_eq!(filename, "c.txt");
        }
        other => panic!("expected a mismatch, got {:?}", other),
    }
}

#[test]
fn subpackage_getters() {
    let p = PackageRecipePackage {
        name: String::from("demo-bin"),
        description: None,
        package: Some(String::from("cp a b\n")),
    };
    assert_eq!(p.name(), "demo-bin");
    assert_eq!(p.package().unwrap(), "cp a b\n");
    p.create_package();
    p.create_debug_package();
}

#[test]
fn empty_filename_override_fails_the_load() {
    let mut recipe = bare_recipe();
    recipe.sources = Some(vec![PackageRecipeSource {
        url: String::from("https://example.com/file.txt"),
        filename: Some(String::new()),
        sha256sum: None,
    }]);
    assert!(recipe.compute_filenames().is_err());
}
