//! The update channel: which published release is an update for this
//! machine, whether a downloaded package is the one that was published, and
//! how it is installed.
use vstd::prelude::*;
use crate::model::AppRelease;
use crate::text::{
    ascii_lower, chars_between, chars_equal, chars_of, contains_char, decimal, decimal_chars,
    ends_with, first_word, first_word_of, has_prefix, has_suffix, push_chars, push_str, starts_with,
    string_from, to_ascii_lower, chars_from,
};

verus! {

/// Why an update could not be offered, downloaded or installed.
#[derive(Clone, Copy, Debug, PartialEq, Eq, Structural)]
pub enum UpdateError {
    InvalidVersion,
    NoPackageForThisMachine,
    NoChecksum,
    UnsafePackageName,
    EmptyChecksum,
    InvalidChecksum,
    ChecksumMismatch,
    UnsupportedArchitecture,
    LinuxExpectsDeb,
    WindowsExpectsMsiOrExe,
    MacosExpectsPkg,
    PackageGone,
    InstallationFailed,
}

/// The sentence shown for each error.
pub open spec fn update_error_text(e: UpdateError) -> Seq<char> {
    match e {
        UpdateError::InvalidVersion => "GitHub publicó una versión con formato inválido"@,
        UpdateError::NoPackageForThisMachine => "La versión nueva no incluye un instalador para este equipo"@,
        UpdateError::NoChecksum => "El instalador no incluye su comprobación SHA-256"@,
        UpdateError::UnsafePackageName => "El nombre del instalador no es seguro."@,
        UpdateError::EmptyChecksum => "El archivo SHA-256 está vacío"@,
        UpdateError::InvalidChecksum => "El SHA-256 publicado no es válido."@,
        UpdateError::ChecksumMismatch => "El instalador descargado no coincide con su SHA-256."@,
        UpdateError::UnsupportedArchitecture => "Esta arquitectura todavía no tiene paquetes de Nitum PDF."@,
        UpdateError::LinuxExpectsDeb => "Linux esperaba un paquete .deb."@,
        UpdateError::WindowsExpectsMsiOrExe => "Windows esperaba un instalador .msi o .exe."@,
        UpdateError::MacosExpectsPkg => "macOS esperaba un instalador .pkg."@,
        UpdateError::PackageGone => "El instalador descargado ya no está disponible."@,
        UpdateError::InstallationFailed => "La instalación se canceló o no pudo completarse."@,
    }
}

impl UpdateError {
    /// The sentence shown to the person.
    pub fn message(&self) -> (r: &'static str)
        ensures
            r@ == update_error_text(*self),
    {
        match self {
            UpdateError::InvalidVersion => "GitHub publicó una versión con formato inválido",
            UpdateError::NoPackageForThisMachine => "La versión nueva no incluye un instalador para este equipo",
            UpdateError::NoChecksum => "El instalador no incluye su comprobación SHA-256",
            UpdateError::UnsafePackageName => "El nombre del instalador no es seguro.",
            UpdateError::EmptyChecksum => "El archivo SHA-256 está vacío",
            UpdateError::InvalidChecksum => "El SHA-256 publicado no es válido.",
            UpdateError::ChecksumMismatch => "El instalador descargado no coincide con su SHA-256.",
            UpdateError::UnsupportedArchitecture => "Esta arquitectura todavía no tiene paquetes de Nitum PDF.",
            UpdateError::LinuxExpectsDeb => "Linux esperaba un paquete .deb.",
            UpdateError::WindowsExpectsMsiOrExe => "Windows esperaba un instalador .msi o .exe.",
            UpdateError::MacosExpectsPkg => "macOS esperaba un instalador .pkg.",
            UpdateError::PackageGone => "El instalador descargado ya no está disponible.",
            UpdateError::InstallationFailed => "La instalación se canceló o no pudo completarse.",
        }
    }
}

// ------------------------------------------------------ package names

/// The file endings of the installers Nitum publishes.
pub open spec fn installer_endings() -> Seq<Seq<char>> {
    seq![".deb"@, ".AppImage"@, ".pkg"@, ".msi"@, ".exe"@]
}

/// `name` ends like an installer.
pub open spec fn has_installer_ending(name: Seq<char>) -> bool {
    exists|i: int| 0 <= i < installer_endings().len() && ends_with(name, #[trigger] installer_endings()[i])
}

/// `suffix` is exactly an installer ending.
pub open spec fn is_installer_ending(suffix: Seq<char>) -> bool {
    exists|i: int| 0 <= i < installer_endings().len() && suffix == #[trigger] installer_endings()[i]
}

fn endings() -> (r: Vec<Vec<char>>)
    ensures
        r@.len() == installer_endings().len(),
        forall|i: int| 0 <= i < r@.len() ==> #[trigger] r@[i]@ == installer_endings()[i],
{
    let mut r: Vec<Vec<char>> = Vec::new();
    r.push(chars_of(".deb"));
    r.push(chars_of(".AppImage"));
    r.push(chars_of(".pkg"));
    r.push(chars_of(".msi"));
    r.push(chars_of(".exe"));
    r
}

/// Whether `name` ends like an installer Nitum publishes.
pub fn package_extension(name: &str) -> (r: bool)
    ensures
        r == has_installer_ending(name@),
{
    let text = chars_of(name);
    let all = endings();
    let mut i: usize = 0;
    while i < all.len()
        invariant
            i <= all@.len(),
            all@.len() == installer_endings().len(),
            forall|j: int| 0 <= j < all@.len() ==> #[trigger] all@[j]@ == installer_endings()[j],
            text@ == name@,
            forall|j: int| 0 <= j < i ==> !ends_with(name@, #[trigger] installer_endings()[j]),
        decreases all@.len() - i,
    {
        if has_suffix(&text, &all[i]) {
            assert(ends_with(name@, installer_endings()[i as int]));
            return true;
        }
        i = i + 1;
    }
    false
}

/// Whether `suffix` is exactly one of the installer endings.
pub fn package_suffix(suffix: &str) -> (r: bool)
    ensures
        r == is_installer_ending(suffix@),
{
    let text = chars_of(suffix);
    let all = endings();
    let mut i: usize = 0;
    while i < all.len()
        invariant
            i <= all@.len(),
            all@.len() == installer_endings().len(),
            forall|j: int| 0 <= j < all@.len() ==> #[trigger] all@[j]@ == installer_endings()[j],
            text@ == suffix@,
            forall|j: int| 0 <= j < i ==> suffix@ != #[trigger] installer_endings()[j],
        decreases all@.len() - i,
    {
        if chars_equal(&text, &all[i]) {
            assert(suffix@ == installer_endings()[i as int]);
            return true;
        }
        i = i + 1;
    }
    false
}

/// An installer ending is an installer name, and so is any name that ends
/// with one.
pub proof fn law_installer_suffix_makes_an_installer_name(prefix: Seq<char>, suffix: Seq<char>)
    requires
        is_installer_ending(suffix),
    ensures
        has_installer_ending(prefix + suffix),
        has_installer_ending(suffix),
{
    let i = choose|i: int| 0 <= i < installer_endings().len() && suffix == #[trigger] installer_endings()[i];
    let name = prefix + suffix;
    assert(name.subrange(name.len() - suffix.len(), name.len() as int) =~= suffix);
    assert(ends_with(name, installer_endings()[i]));
    assert(suffix.subrange(0, suffix.len() as int) =~= suffix);
    assert(ends_with(suffix, installer_endings()[i]));
}

/// A downloaded installer is only written under a name that is an installer
/// name and holds no directory separator.
pub open spec fn safe_package_name(name: Seq<char>) -> bool {
    has_installer_ending(name) && !name.contains('/') && !name.contains('\\')
}

/// Refuses a release whose package name could escape the download folder
/// or is not an installer.
pub fn check_package_name(name: &str) -> (r: Result<(), UpdateError>)
    ensures
        r is Ok <==> safe_package_name(name@),
        r matches Err(e) ==> e == UpdateError::UnsafePackageName,
{
    let text = chars_of(name);
    if !package_extension(name) || contains_char(&text, '/') || contains_char(&text, '\\') {
        return Err(UpdateError::UnsafePackageName);
    }
    Ok(())
}

// ------------------------------------------------ relaunch and platform

/// What Linux appends to `/proc/self/exe` once the running binary has
/// been replaced on disk.
pub open spec fn deleted_marker() -> Seq<char> {
    " (deleted)"@
}

/// The path with a trailing deleted marker removed, and any other path as
/// it is.
pub open spec fn without_deleted_marker(path: Seq<char>) -> Seq<char> {
    if ends_with(path, deleted_marker()) {
        path.subrange(0, path.len() - deleted_marker().len())
    } else {
        path
    }
}

/// Removes the " (deleted)" suffix Linux appends to the running executable's
/// path once it has been replaced, so the program that replaced it is the
/// one restarted.
pub fn strip_deleted_marker(path: &str) -> (r: String)
    ensures
        r@ == without_deleted_marker(path@),
{
    let text = chars_of(path);
    let marker = chars_of(" (deleted)");
    if has_suffix(&text, &marker) {
        let kept = chars_between(&text, 0, text.len() - marker.len());
        string_from(kept.as_slice())
    } else {
        String::from_str(path)
    }
}

/// Stripping the marker only ever removes that exact suffix: putting it back
/// gives the path that was stripped, and a path without it is untouched.
pub proof fn law_strip_only_removes_the_marker(path: Seq<char>)
    ensures
        ends_with(path, deleted_marker()) ==> without_deleted_marker(path) + deleted_marker() == path,
        !ends_with(path, deleted_marker()) ==> without_deleted_marker(path) == path,
{
    if ends_with(path, deleted_marker()) {
        assert(path.subrange(0, path.len() - deleted_marker().len()) + deleted_marker() =~= path);
    }
}

/// The operating systems Nitum publishes installers for.
#[derive(Clone, Copy, Debug, PartialEq, Eq, Structural)]
pub enum Platform {
    Linux,
    Windows,
    Macos,
}

/// The platform for Rust's `target_os` name: Windows and macOS by name,
/// Linux for everything else.
pub open spec fn platform_of(target_os: Seq<char>) -> Platform {
    if target_os == "windows"@ {
        Platform::Windows
    } else if target_os == "macos"@ {
        Platform::Macos
    } else {
        Platform::Linux
    }
}

/// The platform word used in installer names.
pub open spec fn platform_word(p: Platform) -> Seq<char> {
    match p {
        Platform::Windows => "windows"@,
        Platform::Macos => "macos"@,
        Platform::Linux => "linux"@,
    }
}

/// The platform for Rust's `target_os` name.
pub fn platform_for(target_os: &str) -> (r: Platform)
    ensures
        r == platform_of(target_os@),
{
    let text = chars_of(target_os);
    if chars_equal(&text, &chars_of("windows")) {
        Platform::Windows
    } else if chars_equal(&text, &chars_of("macos")) {
        Platform::Macos
    } else {
        Platform::Linux
    }
}

/// The word naming this platform in installer file names.
pub fn platform_name(target_os: &str) -> (r: &'static str)
    ensures
        r@ == platform_word(platform_of(target_os@)),
{
    match platform_for(target_os) {
        Platform::Windows => "windows",
        Platform::Macos => "macos",
        Platform::Linux => "linux",
    }
}

/// The word naming this processor architecture in installer file names;
/// only x86_64 and aarch64 have packages.
pub fn architecture_name(target_arch: &str) -> (r: Result<&'static str, UpdateError>)
    ensures
        target_arch@ == "x86_64"@ ==> (r matches Ok(w) && w@ == "x86_64"@),
        target_arch@ == "aarch64"@ ==> (r matches Ok(w) && w@ == "aarch64"@),
        target_arch@ != "x86_64"@ && target_arch@ != "aarch64"@ ==> r == Err::<&'static str, UpdateError>(
            UpdateError::UnsupportedArchitecture,
        ),
{
    let text = chars_of(target_arch);
    if chars_equal(&text, &chars_of("x86_64")) {
        Ok("x86_64")
    } else if chars_equal(&text, &chars_of("aarch64")) {
        Ok("aarch64")
    } else {
        Err(UpdateError::UnsupportedArchitecture)
    }
}

/// How a downloaded package is installed.
#[derive(Clone, Copy, Debug, PartialEq, Eq, Structural)]
pub enum InstallerKind {
    /// `pkexec apt-get install -y <package>`.
    AptGet,
    /// `msiexec.exe /i <package> /passive /norestart`.
    Msiexec,
    /// The Inno Setup program itself, silently, restarting the application.
    InnoSetup,
    /// `installer -pkg <package> -target /` run with administrator rights.
    MacInstaller,
}

/// The installer for a package with file extension `extension` on `p`:
/// `.deb` on Linux, `.msi` or `.exe` on Windows, `.pkg` on macOS.
pub open spec fn installer_plan(p: Platform, extension: Option<Seq<char>>) -> Result<InstallerKind, UpdateError> {
    match p {
        Platform::Linux => if extension == Some("deb"@) {
            Ok(InstallerKind::AptGet)
        } else {
            Err(UpdateError::LinuxExpectsDeb)
        },
        Platform::Windows => if extension == Some("msi"@) {
            Ok(InstallerKind::Msiexec)
        } else if extension == Some("exe"@) {
            Ok(InstallerKind::InnoSetup)
        } else {
            Err(UpdateError::WindowsExpectsMsiOrExe)
        },
        Platform::Macos => if extension == Some("pkg"@) {
            Ok(InstallerKind::MacInstaller)
        } else {
            Err(UpdateError::MacosExpectsPkg)
        },
    }
}

/// Chooses how a downloaded package is installed from its file extension.
pub fn installer_for(p: Platform, extension: Option<&str>) -> (r: Result<InstallerKind, UpdateError>)
    ensures
        r == installer_plan(
            p,
            match extension {
                Some(e) => Some(e@),
                None => None,
            },
        ),
{
    let ext: Vec<char> = match extension {
        Some(e) => chars_of(e),
        None => Vec::new(),
    };
    let present = extension.is_some();
    match p {
        Platform::Linux => {
            if present && chars_equal(&ext, &chars_of("deb")) {
                Ok(InstallerKind::AptGet)
            } else {
                Err(UpdateError::LinuxExpectsDeb)
            }
        },
        Platform::Windows => {
            if present && chars_equal(&ext, &chars_of("msi")) {
                Ok(InstallerKind::Msiexec)
            } else if present && chars_equal(&ext, &chars_of("exe")) {
                Ok(InstallerKind::InnoSetup)
            } else {
                Err(UpdateError::WindowsExpectsMsiOrExe)
            }
        },
        Platform::Macos => {
            if present && chars_equal(&ext, &chars_of("pkg")) {
                Ok(InstallerKind::MacInstaller)
            } else {
                Err(UpdateError::MacosExpectsPkg)
            }
        },
    }
}

// ------------------------------------------------------------ checksum

/// A lower-case hexadecimal digit or an upper-case one (`is_ascii_hexdigit`).
pub open spec fn hex_digit(c: char) -> bool {
    ('0' <= c && c <= '9') || ('a' <= c && c <= 'f') || ('A' <= c && c <= 'F')
}

/// The published checksum, as read from the first word of the `.sha256`
/// file: lower-cased, and valid only as 64 hexadecimal digits.
pub open spec fn published_checksum(file_text: Seq<char>) -> Result<Seq<char>, UpdateError> {
    match first_word(file_text) {
        None => Err(UpdateError::EmptyChecksum),
        Some(word) => {
            let lowered = ascii_lower(word);
            if lowered.len() == 64 && forall|i: int| 0 <= i < 64 ==> #[trigger] hex_digit(lowered[i]) {
                Ok(lowered)
            } else {
                Err(UpdateError::InvalidChecksum)
            }
        },
    }
}

/// The SHA-256 a `.sha256` file publishes: its first word, in lower case,
/// which must be 64 hexadecimal digits.
pub fn expected_checksum(file_text: &str) -> (r: Result<String, UpdateError>)
    ensures
        match r {
            Ok(c) => published_checksum(file_text@) == Ok::<Seq<char>, UpdateError>(c@),
            Err(e) => published_checksum(file_text@) == Err::<Seq<char>, UpdateError>(e),
        },
{
    let text = chars_of(file_text);
    let word = match first_word_of(&text) {
        Some(w) => w,
        None => return Err(UpdateError::EmptyChecksum),
    };
    let lowered = to_ascii_lower(&word);
    if lowered.len() != 64 {
        return Err(UpdateError::InvalidChecksum);
    }
    let mut i: usize = 0;
    while i < 64
        invariant
            i <= 64,
            lowered@.len() == 64,
            first_word(file_text@) == Some(word@),
            lowered@ == ascii_lower(word@),
            forall|j: int| 0 <= j < i ==> #[trigger] hex_digit(lowered@[j]),
        decreases 64 - i,
    {
        let c = lowered[i];
        if !(('0' <= c && c <= '9') || ('a' <= c && c <= 'f') || ('A' <= c && c <= 'F')) {
            proof {
                assert(first_word(file_text@) == Some(word@));
                assert(!hex_digit(lowered@[i as int]));
                assert(!(forall|j: int| 0 <= j < 64 ==> #[trigger] hex_digit(lowered@[j])));
            }
            return Err(UpdateError::InvalidChecksum);
        }
        i = i + 1;
    }
    Ok(string_from(lowered.as_slice()))
}

/// A valid published checksum is always 64 lower-case hexadecimal digits,
/// whatever case the file used.
pub proof fn law_published_checksum_is_lower_hex(file_text: Seq<char>)
    ensures
        published_checksum(file_text) matches Ok(c) ==> c.len() == 64 && forall|i: int|
            0 <= i < 64 ==> ('0' <= #[trigger] c[i] && c[i] <= '9') || ('a' <= c[i] && c[i] <= 'f'),
{
    if let Ok(c) = published_checksum(file_text) {
        assert forall|i: int| 0 <= i < 64 implies ('0' <= #[trigger] c[i] && c[i] <= '9') || ('a'
            <= c[i] && c[i] <= 'f') by {
            assert(hex_digit(c[i]));
        }
    }
}

/// The SHA-256 digest of `data`, as computed by the `sha2` crate.
pub uninterp spec fn sha256_digest(data: Seq<u8>) -> Seq<u8>;

/// `sha2::Sha256::digest`: the 32-byte SHA-256 digest of `data`.
#[verifier::external_body]
fn sha256(data: &[u8]) -> (r: Vec<u8>)
    ensures
        r@ == sha256_digest(data@),
        r@.len() == 32,
{
    <sha2::Sha256 as sha2::Digest>::digest(data).to_vec()
}

/// A lower-case hexadecimal digit.
pub open spec fn hex_char(d: int) -> char {
    if d < 10 {
        crate::text::digit_char(d)
    } else if d == 10 {
        'a'
    } else if d == 11 {
        'b'
    } else if d == 12 {
        'c'
    } else if d == 13 {
        'd'
    } else if d == 14 {
        'e'
    } else {
        'f'
    }
}

/// Bytes written as lower-case hexadecimal, two digits each (`{:x}`).
pub open spec fn lower_hex(bytes: Seq<u8>) -> Seq<char>
    decreases bytes.len(),
{
    if bytes.len() == 0 {
        Seq::<char>::empty()
    } else {
        lower_hex(bytes.drop_last()) + seq![
            hex_char((bytes.last() / 16) as int),
            hex_char((bytes.last() % 16) as int),
        ]
    }
}

fn hex_digit_char(d: u8) -> (c: char)
    requires
        d < 16,
    ensures
        c == hex_char(d as int),
{
    if d < 10 {
        let digits = decimal_chars(d as u64);
        assert(digits@ == decimal(d as nat));
        digits[0]
    } else if d == 10 {
        'a'
    } else if d == 11 {
        'b'
    } else if d == 12 {
        'c'
    } else if d == 13 {
        'd'
    } else if d == 14 {
        'e'
    } else {
        'f'
    }
}

/// `bytes` in lower-case hexadecimal.
pub fn to_lower_hex(bytes: &[u8]) -> (r: Vec<char>)
    ensures
        r@ == lower_hex(bytes@),
{
    let mut r: Vec<char> = Vec::new();
    let mut i: usize = 0;
    while i < bytes.len()
        invariant
            i <= bytes@.len(),
            r@ == lower_hex(bytes@.subrange(0, i as int)),
        decreases bytes@.len() - i,
    {
        let b = bytes[i];
        r.push(hex_digit_char(b / 16));
        r.push(hex_digit_char(b % 16));
        proof {
            let next = bytes@.subrange(0, i + 1);
            assert(next.drop_last() =~= bytes@.subrange(0, i as int));
            assert(next.last() == b);
        }
        i = i + 1;
    }
    assert(bytes@.subrange(0, bytes@.len() as int) =~= bytes@);
    r
}

/// Whether `data` is the package the release published: its SHA-256 in
/// lower-case hexadecimal is exactly `expected`.
pub fn digest_matches(data: &[u8], expected: &str) -> (r: bool)
    ensures
        r == (lower_hex(sha256_digest(data@)) == expected@),
{
    let digest = sha256(data);
    digest_is(digest.as_slice(), expected)
}

/// Whether `digest`, written in lower-case hexadecimal, is exactly
/// `expected`.
pub fn digest_is(digest: &[u8], expected: &str) -> (r: bool)
    ensures
        r == (lower_hex(digest@) == expected@),
{
    let actual = to_lower_hex(digest);
    chars_equal(&actual, &chars_of(expected))
}

/// Accepts the downloaded package only when it hashes to the published
/// checksum.
pub fn verify_sha256(data: &[u8], expected: &str) -> (r: Result<(), UpdateError>)
    ensures
        r is Ok <==> lower_hex(sha256_digest(data@)) == expected@,
        r matches Err(e) ==> e == UpdateError::ChecksumMismatch,
{
    if digest_matches(data, expected) {
        Ok(())
    } else {
        Err(UpdateError::ChecksumMismatch)
    }
}

// ------------------------------------------------------------ versions

/// `semver::Version`, kept beside the plain parts it was parsed into.
#[verifier::external_type_specification]
#[verifier::external_body]
pub struct ExSemverVersion(semver::Version);

/// A semantic version as plain values: major, minor, patch, pre-release
/// and build metadata (the last two empty when absent).
pub type VersionParts = (u64, u64, u64, Seq<char>, Seq<char>);

/// What `semver::Version::parse` makes of `text`: its parts, or `None` when
/// the text is not a semantic version.
pub uninterp spec fn semver_parse(text: Seq<char>) -> Option<VersionParts>;

/// Whether version `a` sorts at or before version `b` in `semver`'s total
/// order (major, minor, patch, pre-release precedence, build metadata).
pub uninterp spec fn semver_le(a: VersionParts, b: VersionParts) -> bool;

/// A parsed semantic version.
pub struct VersionNumber {
    major: u64,
    minor: u64,
    patch: u64,
    pre: String,
    build: String,
    parsed: semver::Version,
}

impl VersionNumber {
    /// The parts of the version.
    pub closed spec fn parts(&self) -> VersionParts {
        (self.major, self.minor, self.patch, self.pre@, self.build@)
    }

    /// `semver::Version::parse`, with the version's fields copied out as
    /// plain values beside it.
    #[verifier::external_body]
    pub(crate) fn parse(text: &str) -> (r: Option<VersionNumber>)
        ensures
            match r {
                Some(v) => semver_parse(text@) == Some(v.parts()),
                None => semver_parse(text@) is None,
            },
    {
        semver::Version::parse(text).ok().map(
            |v| VersionNumber {
                major: v.major,
                minor: v.minor,
                patch: v.patch,
                pre: v.pre.as_str().to_owned(),
                build: v.build.as_str().to_owned(),
                parsed: v,
            },
        )
    }

    /// `<semver::Version as PartialOrd>::le`; a total order, so every
    /// version is at or before itself.
    #[verifier::external_body]
    pub(crate) fn at_or_before(&self, other: &VersionNumber) -> (r: bool)
        ensures
            r == semver_le(self.parts(), other.parts()),
            self.parts() == other.parts() ==> r,
    {
        self.parsed <= other.parsed
    }

    /// The version as `semver` displays it.
    pub fn text(&self) -> (r: String)
        ensures
            r@ == version_text(self.parts()),
    {
        let mut out: Vec<char> = decimal_chars(self.major);
        push_str(&mut out, ".");
        push_chars(&mut out, &decimal_chars(self.minor));
        push_str(&mut out, ".");
        push_chars(&mut out, &decimal_chars(self.patch));
        let pre = chars_of(self.pre.as_str());
        if pre.len() > 0 {
            push_str(&mut out, "-");
            push_chars(&mut out, &pre);
        }
        let build = chars_of(self.build.as_str());
        if build.len() > 0 {
            push_str(&mut out, "+");
            push_chars(&mut out, &build);
        }
        string_from(out.as_slice())
    }
}

/// How `semver` displays a version: `major.minor.patch`, then `-pre` and
/// `+build` when present.
pub open spec fn version_text(v: VersionParts) -> Seq<char> {
    decimal(v.0 as nat) + "."@ + decimal(v.1 as nat) + "."@ + decimal(v.2 as nat) + (if v.3.len()
        > 0 {
        "-"@ + v.3
    } else {
        Seq::<char>::empty()
    }) + (if v.4.len() > 0 {
        "+"@ + v.4
    } else {
        Seq::<char>::empty()
    })
}

// ------------------------------------------------------------- releases

/// A file attached to a published release.
#[derive(Clone, Debug, PartialEq, Eq)]
pub struct ReleaseAsset {
    pub name: String,
    pub browser_download_url: String,
}

/// A release as the GitHub API describes it.
#[derive(Clone, Debug, PartialEq, Eq)]
pub struct ReleasePayload {
    pub tag_name: String,
    pub prerelease: bool,
    pub draft: bool,
    pub assets: Vec<ReleaseAsset>,
}

/// The tag with every leading `v` removed (`str::trim_start_matches('v')`).
pub open spec fn without_leading_v(tag: Seq<char>) -> Seq<char>
    decreases tag.len(),
{
    if tag.len() > 0 && tag[0] == 'v' {
        without_leading_v(tag.drop_first())
    } else {
        tag
    }
}

/// The start every installer name of version `version` for this machine
/// has: `nitum-pdf-<version>-<platform>-<architecture>`.
pub open spec fn package_prefix(version: Seq<char>, platform: Seq<char>, architecture: Seq<char>) -> Seq<char> {
    "nitum-pdf-"@ + version + "-"@ + platform + "-"@ + architecture
}

/// `name` is the installer for this machine: the expected start followed
/// by exactly an installer ending.
pub open spec fn is_package_named(name: Seq<char>, prefix: Seq<char>) -> bool {
    starts_with(name, prefix) && is_installer_ending(name.subrange(prefix.len() as int, name.len() as int))
}

/// `i` is the first asset that is the installer for this machine.
pub open spec fn first_package(assets: Seq<ReleaseAsset>, prefix: Seq<char>, i: int) -> bool {
    &&& 0 <= i < assets.len()
    &&& is_package_named(assets[i].name@, prefix)
    &&& forall|j: int| 0 <= j < i ==> !is_package_named(#[trigger] assets[j].name@, prefix)
}

/// `k` is the first asset named `name`.
pub open spec fn first_named(assets: Seq<ReleaseAsset>, name: Seq<char>, k: int) -> bool {
    &&& 0 <= k < assets.len()
    &&& assets[k].name@ == name
    &&& forall|j: int| 0 <= j < k ==> #[trigger] assets[j].name@ != name
}

/// What a published release means once its tag has been read: drafts and
/// pre-releases are no update; nor is a tag that is not a semantic version
/// (`remote` is `None`, an error) or a version that is not `newer` than the
/// installed one. A newer version, written `remote`, is offered through the
/// first asset that is an installer for this machine, which needs an asset
/// named like it plus `.sha256` (the first such one is its checksum).
pub open spec fn offer_outcome(
    payload: ReleasePayload,
    remote: Option<Seq<char>>,
    newer: bool,
    platform: Seq<char>,
    architecture: Seq<char>,
    r: Result<Option<AppRelease>, UpdateError>,
) -> bool {
    if payload.draft || payload.prerelease {
        r == Ok::<Option<AppRelease>, UpdateError>(None)
    } else {
        match remote {
            None => r == Err::<Option<AppRelease>, UpdateError>(UpdateError::InvalidVersion),
            Some(version) => if !newer {
                r == Ok::<Option<AppRelease>, UpdateError>(None)
            } else {
                let prefix = package_prefix(version, platform, architecture);
                let assets = payload.assets@;
                if forall|j: int| 0 <= j < assets.len() ==> !is_package_named(#[trigger] assets[j].name@, prefix) {
                    r == Err::<Option<AppRelease>, UpdateError>(UpdateError::NoPackageForThisMachine)
                } else {
                    exists|i: int| #![trigger first_package(assets, prefix, i)]
                        first_package(assets, prefix, i) && {
                            let checksum = assets[i].name@ + ".sha256"@;
                            if forall|k: int| 0 <= k < assets.len() ==> #[trigger] assets[k].name@ != checksum {
                                r == Err::<Option<AppRelease>, UpdateError>(UpdateError::NoChecksum)
                            } else {
                                exists|k: int| #![trigger first_named(assets, checksum, k)]
                                    first_named(assets, checksum, k) && (r matches Ok(Some(release)) && release.version@
                                        == version && release.package_name@ == assets[i].name@
                                        && release.package_url@ == assets[i].browser_download_url@
                                        && release.checksum_url@ == assets[k].browser_download_url@)
                            }
                        }
                }
            },
        }
    }
}

/// What a published release means for the installed version `current` on
/// this platform and architecture: the tag, without its leading `v`, read
/// as a semantic version, and offered when it sorts after `current`.
pub open spec fn release_outcome(
    payload: ReleasePayload,
    current: VersionParts,
    platform: Seq<char>,
    architecture: Seq<char>,
    r: Result<Option<AppRelease>, UpdateError>,
) -> bool {
    let parsed = semver_parse(without_leading_v(payload.tag_name@));
    offer_outcome(
        payload,
        match parsed {
            Some(remote) => Some(version_text(remote)),
            None => None,
        },
        match parsed {
            Some(remote) => !semver_le(remote, current),
            None => false,
        },
        platform,
        architecture,
        r,
    )
}

/// The update a published release offers, given what its tag says: the
/// version it names as `semver` writes it (`None` when the tag is not a
/// semantic version) and whether that version is newer than the installed
/// one.
pub fn offered_release(
    payload: &ReleasePayload,
    remote: Option<&str>,
    newer: bool,
    platform: &str,
    architecture: &str,
) -> (r: Result<Option<AppRelease>, UpdateError>)
    ensures
        offer_outcome(*payload, crate::text::str_option(remote), newer, platform@, architecture@, r),
{
    if payload.draft || payload.prerelease {
        return Ok(None);
    }
    let version = match remote {
        Some(v) => v,
        None => return Err(UpdateError::InvalidVersion),
    };
    if !newer {
        return Ok(None);
    }
    let mut prefix: Vec<char> = chars_of("nitum-pdf-");
    push_chars(&mut prefix, &chars_of(version));
    push_str(&mut prefix, "-");
    push_chars(&mut prefix, &chars_of(platform));
    push_str(&mut prefix, "-");
    push_chars(&mut prefix, &chars_of(architecture));
    let ghost spec_prefix = package_prefix(version@, platform@, architecture@);
    assert(prefix@ =~= spec_prefix);
    let assets = &payload.assets;
    let mut i: usize = 0;
    let mut found: Option<usize> = None;
    while i < assets.len() && found.is_none()
        invariant
            i <= assets@.len(),
            prefix@ == spec_prefix,
            found matches Some(p) ==> first_package(assets@, spec_prefix, p as int),
            found is None ==> forall|j: int| 0 <= j < i ==> !is_package_named(#[trigger] assets@[j].name@, spec_prefix),
        decreases assets@.len() - i + (if found is None { 1int } else { 0int }),
    {
        let name = chars_of(assets[i].name.as_str());
        assert(name@ == assets@[i as int].name@);
        let mut matched = false;
        if has_prefix(&name, &prefix) {
            let rest = chars_from(&name, prefix.len());
            let rest_text = string_from(rest.as_slice());
            matched = package_suffix(rest_text.as_str());
        }
        assert(matched == is_package_named(assets@[i as int].name@, spec_prefix));
        if matched {
            found = Some(i);
        } else {
            i = i + 1;
        }
    }
    let index = match found {
        Some(p) => p,
        None => return Err(UpdateError::NoPackageForThisMachine),
    };
    let package = &assets[index];
    let mut checksum_name = chars_of(package.name.as_str());
    push_str(&mut checksum_name, ".sha256");
    let ghost checksum = assets@[index as int].name@ + ".sha256"@;
    let mut k: usize = 0;
    let mut named: Option<usize> = None;
    while k < assets.len() && named.is_none()
        invariant
            k <= assets@.len(),
            checksum_name@ == checksum,
            named matches Some(p) ==> first_named(assets@, checksum, p as int),
            named is None ==> forall|j: int| 0 <= j < k ==> #[trigger] assets@[j].name@ != checksum,
        decreases assets@.len() - k + (if named is None { 1int } else { 0int }),
    {
        if chars_equal(&chars_of(assets[k].name.as_str()), &checksum_name) {
            named = Some(k);
        } else {
            k = k + 1;
        }
    }
    proof {
        assert(first_package(assets@, spec_prefix, index as int));
        assert(!(forall|j: int| 0 <= j < assets@.len() ==> !is_package_named(#[trigger] assets@[j].name@, spec_prefix)));
    }
    let checksum_index = match named {
        Some(p) => p,
        None => return Err(UpdateError::NoChecksum),
    };
    let release = AppRelease {
        version: String::from_str(version),
        package_name: package.name.clone(),
        package_url: package.browser_download_url.clone(),
        checksum_url: assets[checksum_index].browser_download_url.clone(),
    };
    proof {
        assert(first_package(assets@, spec_prefix, index as int));
        assert(first_named(assets@, checksum, checksum_index as int));
    }
    Ok(Some(release))
}

fn trim_leading_v(tag: &Vec<char>) -> (r: Vec<char>)
    ensures
        r@ == without_leading_v(tag@),
{
    let mut start: usize = 0;
    assert(tag@.subrange(0, tag@.len() as int) =~= tag@);
    while start < tag.len() && tag[start] == 'v'
        invariant
            start <= tag@.len(),
            without_leading_v(tag@.subrange(start as int, tag@.len() as int)) == without_leading_v(tag@),
        decreases tag@.len() - start,
    {
        proof {
            let rest = tag@.subrange(start as int, tag@.len() as int);
            assert(rest.drop_first() =~= tag@.subrange(start + 1, tag@.len() as int));
        }
        start = start + 1;
    }
    let r = chars_from(tag, start);
    proof {
        let rest = tag@.subrange(start as int, tag@.len() as int);
        assert(rest == r@);
        assert(without_leading_v(rest) == rest);
    }
    r
}

/// Where the updater stands: the installed version and the machine it
/// runs on.
pub struct UpdateChannel {
    current: VersionNumber,
    platform: String,
    architecture: String,
}

impl UpdateChannel {
    pub closed spec fn current_version(&self) -> VersionParts {
        self.current.parts()
    }

    pub closed spec fn platform_text(&self) -> Seq<char> {
        self.platform@
    }

    pub closed spec fn architecture_text(&self) -> Seq<char> {
        self.architecture@
    }

    /// The channel of version `current` on the given platform and
    /// architecture words; `None` when `current` is not a semantic version.
    pub fn for_target(current: &str, platform: &str, architecture: &str) -> (r: Option<Self>)
        ensures
            match r {
                Some(c) => semver_parse(current@) == Some(c.current_version()) && c.platform_text()
                    == platform@ && c.architecture_text() == architecture@,
                None => semver_parse(current@) is None,
            },
    {
        match VersionNumber::parse(current) {
            Some(version) => Some(
                UpdateChannel {
                    current: version,
                    platform: String::from_str(platform),
                    architecture: String::from_str(architecture),
                },
            ),
            None => None,
        }
    }

    /// The update a published release offers this machine, if any.
    pub fn release_from_payload(&self, payload: &ReleasePayload) -> (r: Result<Option<AppRelease>, UpdateError>)
        ensures
            release_outcome(*payload, self.current_version(), self.platform_text(), self.architecture_text(), r),
            semver_parse(without_leading_v(payload.tag_name@)) == Some(self.current_version()) ==> r
                == Ok::<Option<AppRelease>, UpdateError>(None),
    {
        if payload.draft || payload.prerelease {
            return Ok(None);
        }
        let tag = chars_of(payload.tag_name.as_str());
        let stripped = trim_leading_v(&tag);
        let stripped_text = string_from(stripped.as_slice());
        match VersionNumber::parse(stripped_text.as_str()) {
            Some(remote) => {
                let newer = !remote.at_or_before(&self.current);
                let version = remote.text();
                offered_release(
                    payload,
                    Some(version.as_str()),
                    newer,
                    self.platform.as_str(),
                    self.architecture.as_str(),
                )
            },
            None => offered_release(
                payload,
                None,
                false,
                self.platform.as_str(),
                self.architecture.as_str(),
            ),
        }
    }
}

/// The repository releases are published in, unless configured otherwise.
pub open spec fn default_repository() -> Seq<char> {
    "dev-jackson/nitum-pdf"@
}

/// The configured repository, or the official one.
pub fn repository_or_default(configured: Option<String>) -> (r: String)
    ensures
        r@ == match configured {
            Some(c) => c@,
            None => default_repository(),
        },
{
    match configured {
        Some(c) => c,
        None => String::from_str("dev-jackson/nitum-pdf"),
    }
}

/// The GitHub API address of the latest release of `repository`.
pub open spec fn latest_release_address(repository: Seq<char>) -> Seq<char> {
    "https://api.github.com/repos/"@ + repository + "/releases/latest"@
}

/// The GitHub API address of the latest release of `repository`.
pub fn latest_release_url(repository: &str) -> (r: String)
    ensures
        r@ == latest_release_address(repository@),
{
    let mut out = chars_of("https://api.github.com/repos/");
    push_str(&mut out, repository);
    push_str(&mut out, "/releases/latest");
    string_from(out.as_slice())
}

// ------------------------------------------------------ checking, installing

/// The shortest time between two automatic checks, in seconds: one day.
pub const CHECK_INTERVAL_SECONDS: u64 = 86400;

/// An automatic check is due when checking is on and no check has been
/// made yet, or the last one (at `last_check`, in seconds) is at least a day
/// before `now`.
pub open spec fn check_due(automatic: bool, last_check: Option<u64>, now: u64) -> bool {
    automatic && match last_check {
        None => true,
        Some(last) => now >= last + CHECK_INTERVAL_SECONDS,
    }
}

/// Whether to look for updates on its own at start-up.
pub fn automatic_check_due(automatic: bool, last_check: Option<u64>, now: u64) -> (r: bool)
    ensures
        r == check_due(automatic, last_check, now),
{
    if !automatic {
        return false;
    }
    match last_check {
        None => true,
        Some(last) => (now as u128) >= (last as u128) + (CHECK_INTERVAL_SECONDS as u128),
    }
}

/// Updates are looked for on their own at most once a day: once a check is
/// made at `now` and recorded, none is due again before a day has passed.
pub proof fn law_at_most_one_automatic_check_a_day(automatic: bool, now: u64, later: u64)
    requires
        later < now + CHECK_INTERVAL_SECONDS,
    ensures
        !check_due(automatic, Some(now), later),
{
}

/// Where installing an update stands.
#[derive(Clone, Copy, Debug, PartialEq, Eq, Structural)]
pub enum InstallStage {
    Downloading,
    Installing,
    Relaunching,
    Finished,
}

/// What the ports reported: the verified package downloaded (or why not),
/// the installation done (or why not), the program started again (or why
/// not).
#[derive(Debug, PartialEq, Eq)]
pub enum InstallEvent {
    Downloaded(Result<std::path::PathBuf, String>),
    Installed(Result<(), String>),
    Relaunched(Result<(), String>),
}

/// What to do next: install this package, start the program again, quit,
/// report the error, or nothing (an event that does not belong to the
/// stage).
#[derive(Clone, Debug, PartialEq, Eq)]
pub enum InstallAction {
    Install(std::path::PathBuf),
    Relaunch,
    Quit,
    Report(String),
    Ignore,
}

/// How installing an update goes on: the downloaded and verified package is
/// installed, the program is started again once installing succeeded, and
/// the program quits once it has been started again; any failure is
/// reported and ends the installation.
pub open spec fn install_transition(stage: InstallStage, event: InstallEvent) -> (InstallStage, InstallAction) {
    match (stage, event) {
        (InstallStage::Downloading, InstallEvent::Downloaded(Ok(package))) => (
            InstallStage::Installing,
            InstallAction::Install(package),
        ),
        (InstallStage::Downloading, InstallEvent::Downloaded(Err(message))) => (
            InstallStage::Finished,
            InstallAction::Report(message),
        ),
        (InstallStage::Installing, InstallEvent::Installed(Ok(()))) => (
            InstallStage::Relaunching,
            InstallAction::Relaunch,
        ),
        (InstallStage::Installing, InstallEvent::Installed(Err(message))) => (
            InstallStage::Finished,
            InstallAction::Report(message),
        ),
        (InstallStage::Relaunching, InstallEvent::Relaunched(Ok(()))) => (
            InstallStage::Finished,
            InstallAction::Quit,
        ),
        (InstallStage::Relaunching, InstallEvent::Relaunched(Err(message))) => (
            InstallStage::Finished,
            InstallAction::Report(message),
        ),
        (other, _) => (other, InstallAction::Ignore),
    }
}

/// The next stage and action of an update installation.
pub fn install_step(stage: InstallStage, event: InstallEvent) -> (r: (InstallStage, InstallAction))
    ensures
        r == install_transition(stage, event),
{
    match stage {
        InstallStage::Downloading => match event {
            InstallEvent::Downloaded(Ok(package)) => (InstallStage::Installing, InstallAction::Install(package)),
            InstallEvent::Downloaded(Err(message)) => (InstallStage::Finished, InstallAction::Report(message)),
            _ => (stage, InstallAction::Ignore),
        },
        InstallStage::Installing => match event {
            InstallEvent::Installed(Ok(())) => (InstallStage::Relaunching, InstallAction::Relaunch),
            InstallEvent::Installed(Err(message)) => (InstallStage::Finished, InstallAction::Report(message)),
            _ => (stage, InstallAction::Ignore),
        },
        InstallStage::Relaunching => match event {
            InstallEvent::Relaunched(Ok(())) => (InstallStage::Finished, InstallAction::Quit),
            InstallEvent::Relaunched(Err(message)) => (InstallStage::Finished, InstallAction::Report(message)),
            _ => (stage, InstallAction::Ignore),
        },
        InstallStage::Finished => (stage, InstallAction::Ignore),
    }
}

/// Only the package the download step verified is ever installed: an
/// installation is started only right after a successful download, and of
/// exactly the package that download gave.
pub proof fn law_installs_only_the_verified_package(stage: InstallStage, event: InstallEvent, package: std::path::PathBuf)
    requires
        install_transition(stage, event).1 == InstallAction::Install(package),
    ensures
        stage == InstallStage::Downloading,
        event == InstallEvent::Downloaded(Ok(package)),
{
}

/// The program is started again only once installing succeeded, and quits
/// only once it has been started again.
pub proof fn law_relaunch_only_after_installing(stage: InstallStage, event: InstallEvent)
    ensures
        install_transition(stage, event).1 == InstallAction::Relaunch ==> stage == InstallStage::Installing
            && event == InstallEvent::Installed(Ok(())),
        install_transition(stage, event).1 == InstallAction::Quit ==> stage == InstallStage::Relaunching
            && event == InstallEvent::Relaunched(Ok(())),
{
    match event {
        InstallEvent::Installed(Ok(u)) => {
            assert(u == ());
        },
        InstallEvent::Relaunched(Ok(u)) => {
            assert(u == ());
        },
        _ => {},
    }
}

/// Every failure ends the installation, and a finished installation does
/// nothing more.
pub proof fn law_failures_end_the_installation(stage: InstallStage, event: InstallEvent)
    ensures
        install_transition(stage, event).1 is Report ==> install_transition(stage, event).0 == InstallStage::Finished,
        stage == InstallStage::Finished ==> install_transition(stage, event) == (stage, InstallAction::Ignore),
{
}

/// Each stage's own failure is reported with its message and ends the
/// installation, and each stage's own success moves on: a failed download,
/// installation or restart is never swallowed.
pub proof fn law_every_failure_is_reported(message: String, package: std::path::PathBuf)
    ensures
        install_transition(InstallStage::Downloading, InstallEvent::Downloaded(Err(message))) == (
            InstallStage::Finished,
            InstallAction::Report(message),
        ),
        install_transition(InstallStage::Installing, InstallEvent::Installed(Err(message))) == (
            InstallStage::Finished,
            InstallAction::Report(message),
        ),
        install_transition(InstallStage::Relaunching, InstallEvent::Relaunched(Err(message))) == (
            InstallStage::Finished,
            InstallAction::Report(message),
        ),
        install_transition(InstallStage::Downloading, InstallEvent::Downloaded(Ok(package))) == (
            InstallStage::Installing,
            InstallAction::Install(package),
        ),
        install_transition(InstallStage::Installing, InstallEvent::Installed(Ok(()))) == (
            InstallStage::Relaunching,
            InstallAction::Relaunch,
        ),
        install_transition(InstallStage::Relaunching, InstallEvent::Relaunched(Ok(()))) == (
            InstallStage::Finished,
            InstallAction::Quit,
        ),
{
}

} // verus!
