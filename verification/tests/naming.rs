use cargo_play::cargo::is_package_name;
use cargo_play::errors::CargoPlayError;
use cargo_play::opt::{Opt, RustEdition};
use cargo_play::steps::temp_dir;

/// The hash that `Opt::src_hash` is to give, computed the long way round.
fn expected_hash(paths: &[&str]) -> String {
    let mut hash: u64 = 0xcbf2_9ce4_8422_2325;
    for path in paths {
        for byte in path.bytes() {
            hash = (hash ^ u64::from(byte)).wrapping_mul(0x0000_0100_0000_01b3);
        }
        hash = (hash ^ 0xff).wrapping_mul(0x0000_0100_0000_01b3);
    }
    format!("{:016x}", hash)
}

#[test]
fn with_files_leaves_everything_else_at_its_default() {
    let opt = Opt::with_files(vec!["fixtures/hello.rs", "fixtures/util.rs"]);
    assert_eq!(opt.src, vec!["fixtures/hello.rs", "fixtures/util.rs"]);
    assert_eq!(opt.toolchain, None);
    assert!(!opt.release);
    assert_eq!(opt.cargo_option, None);
    assert!(!opt.clean);
    assert_eq!(opt.edition, RustEdition::E2015);
    assert!(opt.args.is_empty());
    assert_eq!(opt.save, None);
}

#[test]
fn the_hash_has_sixteen_hex_digits() {
    for paths in [vec![], vec![""], vec!["a.rs"], vec!["fixtures/hello.rs", "x/y.rs"]] {
        let hash = Opt::with_files(paths.clone()).src_hash();
        assert_eq!(hash.len(), 16);
        assert!(hash.chars().all(|c| c.is_ascii_digit() || ('a'..='f').contains(&c)));
        assert_eq!(hash, expected_hash(&paths));
    }
}

#[test]
fn the_hash_of_no_paths_is_the_seed() {
    assert_eq!(Opt::with_files(vec![]).src_hash(), "cbf29ce484222325");
}

#[test]
fn the_hash_of_one_empty_path() {
    // (seed ^ 0xff) * prime, within 64 bits
    let expected = (0xcbf2_9ce4_8422_2325u64 ^ 0xff).wrapping_mul(0x0000_0100_0000_01b3);
    assert_eq!(Opt::with_files(vec![""]).src_hash(), format!("{:016x}", expected));
    assert_eq!(Opt::with_files(vec![""]).src_hash(), "af64724c8602eb6e");
}

#[test]
fn the_hash_of_some_paths() {
    assert_eq!(Opt::with_files(vec!["a.rs"]).src_hash(), "90f04bb56194ebc6");
    assert_eq!(Opt::with_files(vec!["fixtures/hello.rs"]).src_hash(), "6a093e6957db4b9e");
    assert_eq!(Opt::with_files(vec!["a.rs", "b.rs"]).src_hash(), "5be242187969d5e6");
    assert_eq!(Opt::with_files(vec!["b.rs", "a.rs"]).src_hash(), "4d23ea30b00a3ac8");
    assert_eq!(Opt::with_files(vec!["\u{4e16}\u{754c}/main.rs"]).src_hash(), "c1d50f99e2cce1eb");
    assert_eq!(
        Opt::with_files(vec!["fixtures/hello.rs"]).temp_dirname(),
        "cargo-play.6a093e6957db4b9e"
    );
    assert_eq!(
        Opt::with_files(vec!["fixtures/hello.rs"]).package_name(),
        "cargo-play-6a093e6957db4b9e"
    );
}

#[test]
fn the_same_paths_give_the_same_name() {
    let a = Opt::with_files(vec!["fixtures/hello.rs", "src/util.rs"]);
    let mut b = Opt::with_files(vec!["fixtures/hello.rs", "src/util.rs"]);
    b.release = true;
    b.clean = true;
    b.edition = RustEdition::E2018;
    b.args = vec!["x".to_string()];
    b.toolchain = Some("nightly".to_string());
    assert_eq!(a.temp_dirname(), b.temp_dirname());
    assert_eq!(a.temp_dirname(), a.temp_dirname());
    assert_eq!(a.src_hash(), b.src_hash());
    assert_eq!(a.package_name(), b.package_name());
}

#[test]
fn other_paths_or_another_order_give_another_name() {
    let a = Opt::with_files(vec!["a.rs", "b.rs"]).temp_dirname();
    let b = Opt::with_files(vec!["b.rs", "a.rs"]).temp_dirname();
    let c = Opt::with_files(vec!["a.rsb.rs"]).temp_dirname();
    let d = Opt::with_files(vec!["a.rs", "b.rs", ""]).temp_dirname();
    assert_ne!(a, b);
    assert_ne!(a, c);
    assert_ne!(a, d);
}

#[test]
fn the_names_are_built_on_the_hash() {
    let opt = Opt::with_files(vec!["fixtures/hello.rs"]);
    let hash = opt.src_hash();
    assert_eq!(opt.temp_dirname(), format!("cargo-play.{}", hash));
    assert_eq!(opt.package_name(), format!("cargo-play-{}", hash));
    assert!(is_package_name(&opt.package_name()));
}

#[test]
fn paths_beyond_ascii_are_hashed_by_their_bytes() {
    let paths = vec!["\u{4e16}\u{754c}/main.rs"];
    assert_eq!(Opt::with_files(paths.clone()).src_hash(), expected_hash(&paths));
}

#[test]
fn the_scratch_directory_lies_below_the_root() {
    assert_eq!(temp_dir("/tmp", "cargo-play.0123"), "/tmp/cargo-play.0123");
    assert_eq!(temp_dir("/tmp/", "cargo-play.0123"), "/tmp/cargo-play.0123");
    assert_eq!(temp_dir("", "cargo-play.0123"), "cargo-play.0123");
    assert_eq!(temp_dir("/tmp", "/elsewhere"), "/elsewhere");
}

#[test]
fn editions_are_read_by_their_exact_spelling() {
    assert_eq!(RustEdition::parse("2015"), Ok(RustEdition::E2015));
    assert_eq!(RustEdition::parse("2018"), Ok(RustEdition::E2018));
    let others =
        ["", "2016", "2021", " 2015", "2015 ", "02015", "201", "20155", "e2015", "\u{ff12}015"];
    for text in others {
        assert_eq!(
            RustEdition::parse(text),
            Err(CargoPlayError::EditionError(text.to_string())),
            "{:?}",
            text
        );
    }
}

#[test]
fn editions_are_written_as_they_are_read() {
    for edition in [RustEdition::E2015, RustEdition::E2018] {
        assert_eq!(RustEdition::parse(edition.as_str()), Ok(edition));
    }
    assert_eq!(RustEdition::E2015.as_str(), "2015");
    assert_eq!(RustEdition::E2018.as_str(), "2018");
}

#[test]
fn the_default_edition_is_the_oldest() {
    assert_eq!(RustEdition::default(), RustEdition::E2015);
}
