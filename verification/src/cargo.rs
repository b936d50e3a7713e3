//! The manifest of the scratch project.
//!
//! A manifest is assembled from a package name, an edition and the
//! directives found in the sources. Directives are untrusted text: each is
//! checked with the `toml` crate before it is let into a manifest, and is
//! then written out as it stands, in the order in which it was found. As
//! each directive is a TOML document by itself, none leaves a string or a
//! bracket open that would swallow the lines after it. Whether two
//! directives contradict each other is for the build tool to say.

use crate::errors::CargoPlayError;
use crate::opt::RustEdition;
use crate::text::chars_of;
use vstd::prelude::*;

verus! {

/// Whether the `toml` crate reads `text` as a TOML document.
pub uninterp spec fn toml_document(text: Seq<char>) -> bool;

/// `toml::de::Error`, what the `toml` crate returns where it cannot read a
/// text. Nothing is known of what is inside.
#[verifier::external_type_specification]
#[verifier::external_body]
pub struct ExTomlError(toml::de::Error);

/// How many marks of nesting a directive may hold. The parser descends once
/// for each level of nesting; the bound keeps that descent shallow.
pub const MAX_NESTING: usize = 64;

/// Whether `c` can open a level of nesting in a TOML document: a bracket, a
/// brace, or the dot of a dotted key.
pub open spec fn nesting_mark(c: char) -> bool {
    c == '[' || c == '{' || c == '.'
}

/// The number of nesting marks in `text`.
pub open spec fn nesting_marks(text: Seq<char>) -> nat
    decreases text.len(),
{
    if text.len() == 0 {
        0
    } else {
        nesting_marks(text.drop_last()) + if nesting_mark(text.last()) {
            1nat
        } else {
            0nat
        }
    }
}

/// Whether a manifest takes `directive`: it nests no deeper than
/// [`MAX_NESTING`] allows, and it is a TOML document by itself.
pub open spec fn acceptable(directive: Seq<char>) -> bool {
    nesting_marks(directive) <= MAX_NESTING && toml_document(directive)
}

/// Whether `c` may stand in a package name: an ASCII letter or digit, `-` or
/// `_`.
pub open spec fn name_char(c: char) -> bool {
    ('a' <= c <= 'z') || ('A' <= c <= 'Z') || ('0' <= c <= '9') || c == '-' || c == '_'
}

/// Whether `name` can be the name of a package: it is not empty, starts with
/// a letter or `_`, and holds nothing but letters, digits, `-` and `_`.
pub open spec fn package_name(name: Seq<char>) -> bool {
    &&& name.len() > 0
    &&& !('0' <= name[0] <= '9') && name[0] != '-'
    &&& forall|i: int| 0 <= i < name.len() ==> name_char(#[trigger] name[i])
}

/// The position of the first directive that no manifest takes, if there is
/// one.
pub open spec fn first_rejected(directives: Seq<Seq<char>>) -> Option<int>
    decreases directives.len(),
{
    if directives.len() == 0 {
        None
    } else if !acceptable(directives[0]) {
        Some(0int)
    } else {
        match first_rejected(directives.skip(1)) {
            Some(i) => Some(i + 1),
            None => None,
        }
    }
}

/// The first rejected directive is not acceptable, and all before it are.
pub proof fn lemma_first_rejected(directives: Seq<Seq<char>>)
    ensures
        match first_rejected(directives) {
            Some(i) => {
                &&& 0 <= i < directives.len()
                &&& !acceptable(directives[i])
                &&& forall|k: int| 0 <= k < i ==> acceptable(#[trigger] directives[k])
            },
            None => forall|k: int|
                0 <= k < directives.len() ==> acceptable(#[trigger] directives[k]),
        },
    decreases directives.len(),
{
    if directives.len() > 0 && acceptable(directives[0]) {
        let rest = directives.skip(1);
        lemma_first_rejected(rest);
        match first_rejected(rest) {
            Some(i) => {
                assert(rest[i] == directives[i + 1]);
                assert forall|k: int| 0 <= k < i + 1 implies acceptable(
                    #[trigger] directives[k],
                ) by {
                    if k > 0 {
                        assert(directives[k] == rest[k - 1]);
                    }
                }
            },
            None => {
                assert forall|k: int| 0 <= k < directives.len() implies acceptable(
                    #[trigger] directives[k],
                ) by {
                    if k > 0 {
                        assert(directives[k] == rest[k - 1]);
                    }
                }
            },
        }
    }
}

/// The first rejected directive is the one at `n` if all before it are
/// acceptable and it is not; there is none if all are acceptable.
pub proof fn lemma_first_rejected_is(directives: Seq<Seq<char>>, n: int)
    requires
        0 <= n <= directives.len(),
        forall|k: int| 0 <= k < n ==> acceptable(#[trigger] directives[k]),
        n < directives.len() ==> !acceptable(directives[n]),
    ensures
        first_rejected(directives) == if n < directives.len() {
            Some(n)
        } else {
            None
        },
    decreases directives.len(),
{
    if directives.len() > 0 {
        if n > 0 {
            let rest = directives.skip(1);
            assert(acceptable(directives[0]));
            assert forall|k: int| 0 <= k < n - 1 implies acceptable(#[trigger] rest[k]) by {
                assert(rest[k] == directives[k + 1]);
            }
            if n - 1 < rest.len() {
                assert(rest[n - 1] == directives[n]);
            }
            lemma_first_rejected_is(rest, n - 1);
        }
    }
}

/// The `toml` crate's reading of `text` as a document, kept only as far as
/// it succeeds or fails: which of the two is a function of the text alone,
/// named [`toml_document`]. The `requires` keeps away texts that nest so
/// deeply that the parser, which descends once per level, might not return.
#[verifier::external_body]
fn read_document(text: &str) -> (r: Result<(), toml::de::Error>)
    requires
        nesting_marks(text@) <= MAX_NESTING,
    ensures
        r is Ok <==> toml_document(text@),
{
    match text.parse::<toml::Value>() {
        Ok(_) => Ok(()),
        Err(error) => Err(error),
    }
}

/// What the `toml` crate says of a failure, through its `Display`. Nothing is
/// claimed of the text.
#[verifier::external_body]
fn describe(error: &toml::de::Error) -> (message: String) {
    error.to_string()
}

/// Whether `text` holds at most [`MAX_NESTING`] nesting marks.
pub fn nests_within_bound(text: &str) -> (r: bool)
    ensures
        r == (nesting_marks(text@) <= MAX_NESTING),
{
    let chars = chars_of(text);
    let mut marks: usize = 0;
    let mut i: usize = 0;
    assert(chars@.take(0) =~= Seq::<char>::empty());
    while i < chars.len()
        invariant
            i <= chars.len(),
            marks <= i,
            marks == nesting_marks(chars@.take(i as int)),
        decreases chars.len() - i,
    {
        assert(chars@.take(i + 1).drop_last() =~= chars@.take(i as int));
        let c = chars[i];
        if c == '[' || c == '{' || c == '.' {
            marks += 1;
        }
        i += 1;
    }
    assert(chars@.take(i as int) =~= chars@);
    marks <= MAX_NESTING
}

/// Checks one directive, given what reading it as a TOML document came back
/// with. `read` is `None` where the directive nests too deeply to be read at
/// all.
pub fn judge_directive(directive: &str, read: Option<Result<(), String>>) -> (r: Result<
    (),
    CargoPlayError,
>)
    ensures
        match read {
            Some(Ok(_)) => r is Ok,
            Some(Err(said)) => r matches Err(CargoPlayError::ParseError(text, message)) && text@
                == directive@ && message@ == said@,
            None => r matches Err(CargoPlayError::ParseError(text, message)) && text@
                == directive@ && message@ == "nested too deeply"@,
        },
{
    match read {
        Some(Ok(_)) => Ok(()),
        Some(Err(said)) => Err(CargoPlayError::ParseError(directive.to_owned(), said)),
        None => Err(
            CargoPlayError::ParseError(directive.to_owned(), String::from_str("nested too deeply")),
        ),
    }
}

/// Checks one directive: it is taken exactly if it is [`acceptable`].
/// Otherwise the failure holds the directive, and a message: that it nests
/// too deeply, or else what the parser said of it.
pub fn check_directive(directive: &str) -> (r: Result<(), CargoPlayError>)
    ensures
        match r {
            Ok(_) => acceptable(directive@),
            Err(CargoPlayError::ParseError(text, message)) => {
                &&& !acceptable(directive@)
                &&& text@ == directive@
                &&& nesting_marks(directive@) > MAX_NESTING ==> message@ == "nested too deeply"@
            },
            Err(_) => false,
        },
{
    let read = if nests_within_bound(directive) {
        match read_document(directive) {
            Ok(_) => Some(Ok(())),
            Err(error) => Some(Err(describe(&error))),
        }
    } else {
        None
    };
    judge_directive(directive, read)
}

/// Whether `name` can be the name of a package.
pub fn is_package_name(name: &str) -> (r: bool)
    ensures
        r == package_name(name@),
{
    let chars = chars_of(name);
    if chars.len() == 0 {
        return false;
    }
    let first = chars[0];
    if ('0' <= first && first <= '9') || first == '-' {
        return false;
    }
    let mut i: usize = 0;
    while i < chars.len()
        invariant
            i <= chars.len(),
            chars@ == name@,
            forall|k: int| 0 <= k < i ==> name_char(#[trigger] chars@[k]),
        decreases chars.len() - i,
    {
        let c = chars[i];
        let fits = ('a' <= c && c <= 'z') || ('A' <= c && c <= 'Z') || ('0' <= c && c <= '9') || c
            == '-' || c == '_';
        if !fits {
            assert(!name_char(name@[i as int]));
            return false;
        }
        i += 1;
    }
    true
}

/// The manifest of a scratch project.
///
/// A value of this type is always fit to be written: its name is a package
/// name and each of its dependencies is acceptable.
#[derive(Debug, PartialEq, Eq)]
pub struct CargoManifest {
    name: String,
    edition: RustEdition,
    dependencies: Vec<String>,
}

/// What a [`CargoManifest`] holds, as text.
pub ghost struct ManifestView {
    pub name: Seq<char>,
    pub edition: RustEdition,
    pub dependencies: Seq<Seq<char>>,
}

impl View for CargoManifest {
    type V = ManifestView;

    closed spec fn view(&self) -> ManifestView {
        ManifestView {
            name: self.name@,
            edition: self.edition,
            dependencies: self.dependencies.deep_view(),
        }
    }
}

/// The version that every scratch project carries.
pub open spec fn manifest_version() -> Seq<char> {
    "0.1.0"@
}

/// The directives, one per line.
pub open spec fn dependency_lines(directives: Seq<Seq<char>>) -> Seq<char>
    decreases directives.len(),
{
    if directives.len() == 0 {
        Seq::empty()
    } else {
        dependency_lines(directives.drop_last()) + directives.last() + "\n"@
    }
}

/// The manifest as the build tool reads it: the package with its name,
/// version and edition, then the dependencies, every directive on a line of
/// its own, in order and unchanged.
pub open spec fn manifest_text(manifest: ManifestView) -> Seq<char> {
    "[package]\nname = \""@ + manifest.name + "\"\nversion = \""@ + manifest_version()
        + "\"\nedition = \""@ + manifest.edition.spec_text() + "\"\n\n[dependencies]\n"@
        + dependency_lines(manifest.dependencies)
}

impl CargoManifest {
    /// What holds of every manifest.
    #[verifier::type_invariant]
    spec fn fit(&self) -> bool {
        &&& package_name(self.name@)
        &&& forall|i: int|
            0 <= i < self.dependencies@.len() ==> acceptable((#[trigger] self.dependencies@[i])@)
    }

    /// Assembles a manifest.
    ///
    /// The name has to be a package name, and each of `dependencies` has to
    /// be acceptable. The first that is not fails the assembly, and the
    /// failure holds it. Dependencies are kept in their order; none is
    /// merged with another or dropped.
    pub fn new(name: String, dependencies: Vec<String>, edition: RustEdition) -> (r: Result<
        CargoManifest,
        CargoPlayError,
    >)
        ensures
            if !package_name(name@) {
                r matches Err(CargoPlayError::NameError(rejected)) && rejected@ == name@
            } else {
                match first_rejected(dependencies.deep_view()) {
                    Some(i) => r matches Err(CargoPlayError::ParseError(text, _)) && text@
                        == dependencies[i]@,
                    None => r matches Ok(manifest) && manifest@ == (ManifestView {
                        name: name@,
                        edition,
                        dependencies: dependencies.deep_view(),
                    }),
                }
            },
    {
        if !is_package_name(name.as_str()) {
            return Err(CargoPlayError::NameError(name));
        }
        let ghost directives = dependencies.deep_view();
        let mut i: usize = 0;
        while i < dependencies.len()
            invariant
                i <= dependencies.len(),
                package_name(name@),
                directives == dependencies.deep_view(),
                forall|k: int| 0 <= k < i ==> acceptable(#[trigger] directives[k]),
            decreases dependencies.len() - i,
        {
            assert(directives[i as int] == dependencies[i as int]@);
            match check_directive(dependencies[i].as_str()) {
                Ok(_) => {},
                Err(e) => {
                    proof {
                        lemma_first_rejected_is(directives, i as int);
                    }
                    return Err(e);
                },
            }
            i += 1;
        }
        proof {
            lemma_first_rejected_is(directives, i as int);
            assert forall|k: int| 0 <= k < dependencies@.len() implies acceptable(
                (#[trigger] dependencies@[k])@,
            ) by {
                assert(acceptable(directives[k]));
            }
        }
        Ok(CargoManifest { name, edition, dependencies })
    }

    /// The name of the package.
    pub fn name(&self) -> (name: &str)
        ensures
            name@ == self@.name,
            package_name(name@),
    {
        proof {
            use_type_invariant(self);
        }
        self.name.as_str()
    }

    /// The edition of the package.
    pub fn edition(&self) -> (edition: RustEdition)
        ensures
            edition == self@.edition,
    {
        self.edition
    }

    /// The dependencies, in the order in which they were given.
    pub fn dependencies(&self) -> (dependencies: &[String])
        ensures
            dependencies.deep_view() == self@.dependencies,
            forall|i: int|
                0 <= i < dependencies.deep_view().len() ==> acceptable(
                    #[trigger] dependencies.deep_view()[i],
                ),
    {
        proof {
            use_type_invariant(self);
        }
        let dependencies = self.dependencies.as_slice();
        assert(dependencies.deep_view() =~= self.dependencies.deep_view());
        dependencies
    }

    /// The manifest as the build tool reads it.
    pub fn to_toml(&self) -> (text: String)
        ensures
            text@ == manifest_text(self@),
    {
        let mut text = String::from_str("[package]\nname = \"");
        text.append(self.name.as_str());
        text.append("\"\nversion = \"");
        text.append("0.1.0");
        text.append("\"\nedition = \"");
        text.append(self.edition.as_str());
        text.append("\"\n\n[dependencies]\n");
        let ghost head = text@;
        let ghost directives = self.dependencies.deep_view();
        let mut i: usize = 0;
        assert(directives.take(0) =~= Seq::<Seq<char>>::empty());
        assert(text@ =~= head + dependency_lines(directives.take(0)));
        while i < self.dependencies.len()
            invariant
                i <= self.dependencies.len(),
                directives == self.dependencies.deep_view(),
                text@ == head + dependency_lines(directives.take(i as int)),
            decreases self.dependencies.len() - i,
        {
            assert(directives.take(i + 1).drop_last() =~= directives.take(i as int));
            text.append(self.dependencies[i].as_str());
            text.append("\n");
            assert(text@ =~= head + dependency_lines(directives.take(i + 1)));
            i += 1;
        }
        assert(directives.take(i as int) =~= directives);
        text
    }
}

/// The text of the manifest for a scratch project: what [`CargoManifest::new`]
/// assembles, as [`CargoManifest::to_toml`] writes it. Nothing is written
/// where the assembly fails.
pub fn cargo_toml(name: String, dependencies: Vec<String>, edition: RustEdition) -> (r: Result<
    String,
    CargoPlayError,
>)
    ensures
        if !package_name(name@) {
            r matches Err(CargoPlayError::NameError(rejected)) && rejected@ == name@
        } else {
            match first_rejected(dependencies.deep_view()) {
                Some(i) => r matches Err(CargoPlayError::ParseError(text, _)) && text@
                    == dependencies[i]@,
                None => r matches Ok(text) && text@ == manifest_text(
                    ManifestView { name: name@, edition, dependencies: dependencies.deep_view() },
                ),
            }
        },
{
    match CargoManifest::new(name, dependencies, edition) {
        Ok(manifest) => Ok(manifest.to_toml()),
        Err(e) => Err(e),
    }
}

} // verus!
