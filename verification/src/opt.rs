//! The options of one run, and the names that follow from them.

use crate::cargo::{name_char, package_name};
use crate::errors::CargoPlayError;
use crate::text::{chars_of, push_char};
use vstd::prelude::*;
use vstd::string::StringSliceAdditionalSpecFns;

verus! {

/// The language edition that the generated manifest asks for.
#[derive(Clone, Copy, Debug, PartialEq, Eq, Structural)]
pub enum RustEdition {
    E2015,
    E2018,
}

impl RustEdition {
    /// How the edition is written, on the command line and in the manifest.
    pub open spec fn spec_text(self) -> Seq<char> {
        match self {
            RustEdition::E2015 => seq!['2', '0', '1', '5'],
            RustEdition::E2018 => seq!['2', '0', '1', '8'],
        }
    }

    /// The edition that `text` names, if it names one.
    pub open spec fn spec_parse(text: Seq<char>) -> Option<RustEdition> {
        if text == RustEdition::E2015.spec_text() {
            Some(RustEdition::E2015)
        } else if text == RustEdition::E2018.spec_text() {
            Some(RustEdition::E2018)
        } else {
            None
        }
    }

    /// How the edition is written.
    pub fn as_str(self) -> (text: &'static str)
        ensures
            text@ == self.spec_text(),
    {
        match self {
            RustEdition::E2015 => {
                proof {
                    reveal_strlit("2015");
                }
                assert("2015"@ =~= RustEdition::E2015.spec_text());
                "2015"
            },
            RustEdition::E2018 => {
                proof {
                    reveal_strlit("2018");
                }
                assert("2018"@ =~= RustEdition::E2018.spec_text());
                "2018"
            },
        }
    }

    /// Reads an edition. Only the exact spellings of the accepted editions
    /// are taken; anything else is rejected with the text that was given,
    /// never replaced by a default.
    pub fn parse(text: &str) -> (r: Result<RustEdition, CargoPlayError>)
        ensures
            match RustEdition::spec_parse(text@) {
                Some(edition) => r == Ok::<RustEdition, CargoPlayError>(edition),
                None => r matches Err(CargoPlayError::EditionError(rejected)) && rejected@
                    == text@,
            },
    {
        let chars = chars_of(text);
        if chars.len() == 4 && chars[0] == '2' && chars[1] == '0' && chars[2] == '1' {
            if chars[3] == '5' {
                assert(text@ =~= RustEdition::E2015.spec_text());
                return Ok(RustEdition::E2015);
            }
            if chars[3] == '8' {
                assert(text@ =~= RustEdition::E2018.spec_text());
                return Ok(RustEdition::E2018);
            }
        }
        Err(CargoPlayError::EditionError(text.to_owned()))
    }
}

impl Default for RustEdition {
    /// The oldest edition: every later one accepts less.
    fn default() -> (edition: RustEdition)
        ensures
            edition == RustEdition::E2015,
    {
        RustEdition::E2015
    }
}

/// Where the hash of the source paths starts.
pub const HASH_SEED: u64 = 0xcbf2_9ce4_8422_2325;

/// What the hash is multiplied by after each byte.
pub const HASH_PRIME: u64 = 0x0000_0100_0000_01b3;

/// The byte that closes each path in the hash. No path holds it, so the hash
/// is taken of the list of paths and not only of their concatenation.
pub const PATH_END: u8 = 0xff;

/// One step of the hash: mix in a byte, then multiply, both within 64 bits.
pub open spec fn hash_step(hash: u64, byte: u8) -> u64 {
    (hash ^ (byte as u64)).wrapping_mul(HASH_PRIME)
}

/// The hash after `bytes`, starting from `hash`.
pub open spec fn hash_bytes(hash: u64, bytes: Seq<u8>) -> u64
    decreases bytes.len(),
{
    if bytes.len() == 0 {
        hash
    } else {
        hash_step(hash_bytes(hash, bytes.drop_last()), bytes.last())
    }
}

/// The hash after the UTF-8 bytes of each of `paths`, each closed by
/// [`PATH_END`], starting from `hash`.
pub open spec fn hash_paths(hash: u64, paths: Seq<Seq<char>>) -> u64
    decreases paths.len(),
{
    if paths.len() == 0 {
        hash
    } else {
        hash_step(
            hash_bytes(
                hash_paths(hash, paths.drop_last()),
                vstd::utf8::encode_utf8(paths.last()),
            ),
            PATH_END,
        )
    }
}

/// The lower-case hexadecimal digit for `value`, which is below 16.
pub open spec fn hex_digit(value: u64) -> char {
    if value < 10 {
        (value + 48) as u8 as char
    } else {
        (value + 87) as u8 as char
    }
}

/// The sixteen hexadecimal digits of `value`, highest first.
pub open spec fn hex_digits(value: u64) -> Seq<char> {
    Seq::new(16, |i: int| hex_digit((value >> ((60 - 4 * i) as u64)) & 0xf))
}

/// The hash of a list of source paths, as text: sixteen hexadecimal digits
/// that depend on nothing but the paths and their order.
pub open spec fn spec_src_hash(paths: Seq<Seq<char>>) -> Seq<char> {
    hex_digits(hash_paths(HASH_SEED, paths))
}

/// Hexadecimal digits may stand in a package name.
pub proof fn lemma_hex_digits_are_name_chars(value: u64)
    ensures
        hex_digits(value).len() == 16,
        forall|i: int| 0 <= i < 16 ==> name_char(#[trigger] hex_digits(value)[i]),
{
    assert forall|i: int| 0 <= i < 16 implies name_char(#[trigger] hex_digits(value)[i]) by {
        let shift = (60 - 4 * i) as u64;
        let nibble = (value >> shift) & 0xf;
        assert(nibble < 16) by (bit_vector)
            requires
                nibble == (value >> shift) & 0xf,
        ;
    }
}

/// What the name of every scratch directory starts with.
pub open spec fn dirname_prefix() -> Seq<char> {
    "cargo-play."@
}

/// What the name of every scratch package starts with.
pub open spec fn package_prefix() -> Seq<char> {
    "cargo-play-"@
}

/// The name of the package that is built for a list of source paths.
pub open spec fn spec_package_name(paths: Seq<Seq<char>>) -> Seq<char> {
    package_prefix() + spec_src_hash(paths)
}

/// The name of the scratch directory for a list of source paths.
pub open spec fn spec_temp_dirname(paths: Seq<Seq<char>>) -> Seq<char> {
    dirname_prefix() + spec_src_hash(paths)
}

/// The hash after the bytes of `text`, starting from `hash`.
fn hash_text(hash: u64, text: &str) -> (r: u64)
    ensures
        r == hash_bytes(hash, vstd::utf8::encode_utf8(text@)),
{
    let bytes = text.as_bytes();
    let mut r: u64 = hash;
    let mut i: usize = 0;
    assert(bytes@.take(0) =~= Seq::<u8>::empty());
    while i < bytes.len()
        invariant
            i <= bytes.len(),
            bytes@ == text.spec_bytes(),
            r == hash_bytes(hash, bytes@.take(i as int)),
        decreases bytes.len() - i,
    {
        assert(bytes@.take(i + 1).drop_last() =~= bytes@.take(i as int));
        r = (r ^ (bytes[i] as u64)).wrapping_mul(HASH_PRIME);
        i += 1;
    }
    assert(bytes@.take(i as int) =~= bytes@);
    r
}

/// The sixteen hexadecimal digits of `value`, highest first.
fn hex_text(value: u64) -> (text: String)
    ensures
        text@ == hex_digits(value),
{
    let mut text = String::new();
    let mut i: u64 = 0;
    while i < 16
        invariant
            i <= 16,
            text@ == hex_digits(value).take(i as int),
        decreases 16 - i,
    {
        let shift: u64 = 60 - 4 * i;
        let nibble: u64 = (value >> shift) & 0xf;
        assert(nibble < 16) by (bit_vector)
            requires
                nibble == (value >> shift) & 0xf,
        ;
        let digit: char = if nibble < 10 {
            (nibble + 48) as u8 as char
        } else {
            (nibble + 87) as u8 as char
        };
        push_char(&mut text, digit);
        assert(text@ =~= hex_digits(value).take(i + 1));
        i += 1;
    }
    assert(hex_digits(value).take(16) =~= hex_digits(value));
    text
}

/// What one run is asked to do.
#[derive(Clone, Debug, PartialEq, Eq)]
pub struct Opt {
    /// The source files. The first is the entry point.
    pub src: Vec<String>,
    /// The toolchain to build with, if not the default one.
    pub toolchain: Option<String>,
    /// Whether to build with optimisations.
    pub release: bool,
    /// Further options for the build tool, separated by white space.
    pub cargo_option: Option<String>,
    /// Whether to remove the scratch directory of an earlier run first.
    pub clean: bool,
    /// The language edition of the generated project.
    pub edition: RustEdition,
    /// The arguments of the program that is built and run.
    pub args: Vec<String>,
    /// Where to export the scratch project to, in place of building it.
    pub save: Option<String>,
}

impl Opt {
    /// The options for running `src` with everything else left at its
    /// default.
    pub fn with_files(src: Vec<&str>) -> (opt: Opt)
        ensures
            opt.src.deep_view() == src.deep_view(),
            opt.toolchain is None,
            !opt.release,
            opt.cargo_option is None,
            !opt.clean,
            opt.edition == RustEdition::E2015,
            opt.args@.len() == 0,
            opt.save is None,
    {
        let mut files: Vec<String> = Vec::new();
        let mut i: usize = 0;
        while i < src.len()
            invariant
                i <= src.len(),
                files.deep_view() == src.deep_view().take(i as int),
            decreases src.len() - i,
        {
            let ghost before = files.deep_view();
            files.push(src[i].to_owned());
            assert(files.deep_view() =~= before.push(src[i as int]@));
            assert(src.deep_view().take(i + 1) =~= before.push(src[i as int]@));
            i += 1;
        }
        assert(src.deep_view().take(i as int) =~= src.deep_view());
        Opt {
            src: files,
            toolchain: None,
            release: false,
            cargo_option: None,
            clean: false,
            edition: RustEdition::default(),
            args: Vec::new(),
            save: None,
        }
    }

    /// The hash of the source paths: the same for the same paths in the same
    /// order, whenever and wherever it is taken.
    pub fn src_hash(&self) -> (hash: String)
        ensures
            hash@ == spec_src_hash(self.src.deep_view()),
    {
        let mut hash: u64 = HASH_SEED;
        let mut i: usize = 0;
        assert(self.src.deep_view().take(0) =~= Seq::<Seq<char>>::empty());
        while i < self.src.len()
            invariant
                i <= self.src.len(),
                hash == hash_paths(HASH_SEED, self.src.deep_view().take(i as int)),
            decreases self.src.len() - i,
        {
            let ghost upto = self.src.deep_view().take(i + 1);
            assert(upto.drop_last() =~= self.src.deep_view().take(i as int));
            assert(upto.last() == self.src[i as int]@);
            hash = hash_text(hash, self.src[i].as_str());
            hash = (hash ^ (PATH_END as u64)).wrapping_mul(HASH_PRIME);
            i += 1;
        }
        assert(self.src.deep_view().take(i as int) =~= self.src.deep_view());
        hex_text(hash)
    }

    /// The name of the package that is built in this run. It is fit for a
    /// manifest whatever the source paths are.
    pub fn package_name(&self) -> (name: String)
        ensures
            name@ == spec_package_name(self.src.deep_view()),
            package_name(name@),
    {
        let hash = self.src_hash();
        let name = String::from_str("cargo-play-").concat(hash.as_str());
        proof {
            reveal_strlit("cargo-play-");
            lemma_hex_digits_are_name_chars(hash_paths(HASH_SEED, self.src.deep_view()));
            assert(name@.len() == 27);
            assert forall|i: int| 0 <= i < name@.len() implies name_char(#[trigger] name@[i]) by {
                if i >= 11 {
                    assert(name@[i] == hash@[i - 11]);
                }
            }
        }
        name
    }

    /// The name of the scratch directory of this run. Runs on the same source
    /// paths share it, so that a later run finds what an earlier one left.
    pub fn temp_dirname(&self) -> (name: String)
        ensures
            name@ == spec_temp_dirname(self.src.deep_view()),
    {
        let hash = self.src_hash();
        String::from_str("cargo-play.").concat(hash.as_str())
    }
}

} // verus!
