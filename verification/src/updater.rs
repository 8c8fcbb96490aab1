//! The release updater's decisions: its arguments, the installed version,
//! whether to update, which archive to take, the digest and archive checks,
//! which extracted files to copy, and the version it records.
use vstd::prelude::*;

use crate::fmt::{parse_u64, spec_parse_u64};
use crate::ini::{header_inner, is_header, write_ini_lines, write_lines};
use crate::text::{
    append_chars, chars_of, contains, contains_chars, eq_ic, eq_ic_chars, eq_str, ends_with,
    ends_with_chars, join, join_chars, lines_chars, lines_of, lower, lower_vec, replace_all,
    replace_chars, split_once, split_once_chars, starts_with, starts_with_chars, string_from,
    strip_prefix_vec, to_string, trim, trim_start_str, trim_start_str_vec, trim_vec, views,
};

verus! {

/// `semver::Version`, carried from its parse to its comparison.
#[verifier::external_type_specification]
#[verifier::external_body]
pub struct ExVersion(semver::Version);

/// `semver::Error`, the reason a version did not parse.
#[verifier::external_type_specification]
#[verifier::external_body]
pub struct ExSemverError(semver::Error);

/// Whether `semver::Version::parse` accepts a text.
pub uninterp spec fn semver_accepts(text: Seq<char>) -> bool;

/// `semver::Version::parse`: succeeds exactly on the texts it accepts, a
/// function of the text alone. What the parsed version holds is not stated.
#[verifier::external_body]
fn parse_version(text: &str) -> (r: Result<semver::Version, semver::Error>)
    ensures
        r is Ok <==> semver_accepts(text@),
{
    semver::Version::parse(text)
}

/// Whether the version `a` is newer than `b`, both accepted by `semver::Version::parse`.
pub uninterp spec fn semver_newer(a: Seq<char>, b: Seq<char>) -> bool;

/// `>` on the `semver::Version`s that `a` and `b` parse to (the order of
/// major, minor, patch and pre-release that the crate defines): a function of
/// the two texts alone. Which way it answers is left to the crate.
#[verifier::external_body]
fn version_gt(a: &str, b: &str) -> (r: bool)
    requires
        semver_accepts(a@),
        semver_accepts(b@),
    ensures
        r == semver_newer(a@, b@),
{
    semver::Version::parse(a).unwrap() > semver::Version::parse(b).unwrap()
}

/// An error of the updater's own decisions.
#[derive(Debug)]
pub enum UpdaterError {
    Msg(String),
    /// The release has no `.zip` asset.
    NoZipAsset,
    /// The archive's SHA-256 differs from the release's digest.
    DigestMismatch { expected: String, actual: String },
    /// The release's version is not a SemVer version.
    SemVer(semver::Error),
}

/// The updater's options.
pub struct UpdaterArgs {
    /// `--root`; `None` when the folder is to be found from the working
    /// directory or the program's location.
    pub root: Option<String>,
    pub repo: String,
    pub yes: bool,
    pub force: bool,
    pub check_only: bool,
    pub timeout_sec: u64,
}

/// The options after reading `args` from `i` on, from the given state.
pub open spec fn args_acc(args: Seq<Seq<char>>, i: int, root: Option<Seq<char>>, repo: Seq<char>, yes: bool, force: bool, check_only: bool, timeout: nat)
    -> Result<(Option<Seq<char>>, Seq<char>, bool, bool, bool, nat), Seq<char>>
    decreases args.len() - i,
{
    if i >= args.len() || i < 0 {
        Ok((root, repo, yes, force, check_only, timeout))
    } else {
        let a = args[i];
        if a == "--root"@ {
            if i + 1 < args.len() {
                args_acc(args, i + 2, Some(args[i + 1]), repo, yes, force, check_only, timeout)
            } else {
                Err("Ожидалось значение после --root"@)
            }
        } else if a == "--repo"@ {
            if i + 1 < args.len() {
                args_acc(args, i + 2, root, args[i + 1], yes, force, check_only, timeout)
            } else {
                Err("Ожидалось значение после --repo"@)
            }
        } else if a == "--yes"@ || a == "-y"@ {
            args_acc(args, i + 1, root, repo, true, force, check_only, timeout)
        } else if a == "--force"@ {
            args_acc(args, i + 1, root, repo, yes, true, check_only, timeout)
        } else if a == "--check-only"@ {
            args_acc(args, i + 1, root, repo, yes, force, true, timeout)
        } else if a == "--timeout"@ {
            if i + 1 < args.len() {
                args_acc(args, i + 2, root, repo, yes, force, check_only, match spec_parse_u64(args[i + 1]) {
                    Some(n) => n,
                    None => 30,
                })
            } else {
                Err("Ожидалось значение после --timeout"@)
            }
        } else if a == "--no-pause"@ || a == "--help"@ || a == "-h"@ {
            args_acc(args, i + 1, root, repo, yes, force, check_only, timeout)
        } else {
            Err("Неизвестный аргумент: "@ + a + "\nИспользуйте --help"@)
        }
    }
}

/// The options the arguments (without the program name) give: defaults are
/// the `MuXolotl/MuZap` repository and a 30 s timeout; an unparsable timeout
/// is 30; `--no-pause` and `--help` are handled before; anything else is an error.
pub open spec fn spec_parse_args(args: Seq<Seq<char>>) -> Result<(Option<Seq<char>>, Seq<char>, bool, bool, bool, nat), Seq<char>> {
    args_acc(args, 0, None, "MuXolotl/MuZap"@, false, false, false, 30)
}

pub open spec fn args_view(a: UpdaterArgs) -> (Option<Seq<char>>, Seq<char>, bool, bool, bool, nat) {
    (match a.root { Some(r) => Some(r@), None => None }, a.repo@, a.yes, a.force, a.check_only, a.timeout_sec as nat)
}

/// The updater's command-line options (the program name left out).
pub fn parse_args(args: &[String]) -> (r: Result<UpdaterArgs, UpdaterError>)
    ensures
        match spec_parse_args(args@.map_values(|s: String| s@)) {
            Ok(v) => r matches Ok(a) && args_view(a) == v,
            Err(m) => r matches Err(UpdaterError::Msg(e)) && e@ == m,
        },
{
    let ghost av = args@.map_values(|s: String| s@);
    let mut root: Option<String> = None;
    let mut repo = to_string("MuXolotl/MuZap");
    let mut yes = false;
    let mut force = false;
    let mut check_only = false;
    let mut timeout_sec: u64 = 30;
    let mut i: usize = 0;
    while i < args.len()
        invariant
            i <= args.len(),
            av == args@.map_values(|s: String| s@),
            spec_parse_args(av) == args_acc(av, i as int, match root { Some(r) => Some(r@), None => None }, repo@, yes, force, check_only, timeout_sec as nat),
        decreases args.len() - i,
    {
        let a = chars_of(args[i].as_str());
        assert(a@ == av[i as int]);
        if eq_str(&a, "--root") {
            if i + 1 < args.len() {
                root = Some(args[i + 1].clone());
                i = i + 2;
            } else {
                return Err(UpdaterError::Msg(to_string("Ожидалось значение после --root")));
            }
        } else if eq_str(&a, "--repo") {
            if i + 1 < args.len() {
                repo = args[i + 1].clone();
                i = i + 2;
            } else {
                return Err(UpdaterError::Msg(to_string("Ожидалось значение после --repo")));
            }
        } else if eq_str(&a, "--yes") || eq_str(&a, "-y") {
            yes = true;
            i = i + 1;
        } else if eq_str(&a, "--force") {
            force = true;
            i = i + 1;
        } else if eq_str(&a, "--check-only") {
            check_only = true;
            i = i + 1;
        } else if eq_str(&a, "--timeout") {
            if i + 1 < args.len() {
                timeout_sec = match parse_u64(&chars_of(args[i + 1].as_str())) {
                    Some(n) => n,
                    None => 30,
                };
                i = i + 2;
            } else {
                return Err(UpdaterError::Msg(to_string("Ожидалось значение после --timeout")));
            }
        } else if eq_str(&a, "--no-pause") || eq_str(&a, "--help") || eq_str(&a, "-h") {
            i = i + 1;
        } else {
            let mut m = chars_of("Неизвестный аргумент: ");
            append_chars(&mut m, &a);
            append_chars(&mut m, &chars_of("\nИспользуйте --help"));
            return Err(UpdaterError::Msg(string_from(&m)));
        }
    }
    Ok(UpdaterArgs { root, repo, yes, force, check_only, timeout_sec })
}

/// The scan for `[App] Version`: inside the `App` section (name compared up
/// to ASCII case; any `[..]` line starts a section), the first `key=value`
/// line whose key is `Version` up to ASCII case gives the trimmed value.
pub open spec fn version_scan(ls: Seq<Seq<char>>, in_app: bool) -> Option<Seq<char>>
    decreases ls.len(),
{
    if ls.len() == 0 {
        None
    } else {
        let line = trim(ls[0]);
        if is_header(line) {
            version_scan(ls.drop_first(), eq_ic(header_inner(line), "App"@))
        } else if in_app && split_once(line, '=') is Some && eq_ic(trim(split_once(line, '=').unwrap().0), "Version"@) {
            Some(trim(split_once(line, '=').unwrap().1))
        } else {
            version_scan(ls.drop_first(), in_app)
        }
    }
}

/// Without `muzap.ini` only a check may go on: installing needs the file to
/// record the new version in.
pub fn ini_precheck(ini_exists: bool, check_only: bool) -> (r: Result<(), UpdaterError>)
    ensures
        r is Err <==> !ini_exists && !check_only,
        r matches Err(e) ==> (e matches UpdaterError::Msg(m) && m@ == "Не могу продолжить установку обновления: не найден muzap.ini.\nПодсказка: запусти программу из папки MuZap или укажи --root \"ПУТЬ_К_MUZAP\".\n(Режим --check-only можно запускать без muzap.ini.)"@),
{
    if !ini_exists && !check_only {
        return Err(UpdaterError::Msg(to_string("Не могу продолжить установку обновления: не найден muzap.ini.\nПодсказка: запусти программу из папки MuZap или укажи --root \"ПУТЬ_К_MUZAP\".\n(Режим --check-only можно запускать без muzap.ini.)")));
    }
    Ok(())
}

/// The version `muzap.ini` records under `[App] Version`, if any.
pub fn read_local_version(text: &str) -> (r: Option<String>)
    ensures
        match version_scan(lines_of(text@), false) {
            Some(v) => r matches Some(s) && s@ == v,
            None => r is None,
        },
{
    let ls = lines_chars(&chars_of(text));
    let ghost all = views(ls@);
    let app = chars_of("App");
    let ver = chars_of("Version");
    let mut in_app = false;
    let mut i: usize = 0;
    assert(all.skip(0) =~= all);
    while i < ls.len()
        invariant
            i <= ls.len(),
            all == views(ls@),
            all == lines_of(text@),
            app@ == "App"@,
            ver@ == "Version"@,
            version_scan(all, false) == version_scan(all.skip(i as int), in_app),
        decreases ls.len() - i,
    {
        let ghost rest = all.skip(i as int);
        assert(rest[0] == ls@[i as int]@);
        assert(rest.drop_first() =~= all.skip(i + 1));
        let line = trim_vec(&ls[i]);
        if line.len() >= 2 && line[0] == '[' && line[line.len() - 1] == ']' {
            let inner = slice_of_inner(&line);
            in_app = eq_ic_chars(&inner, &app);
            i = i + 1;
            continue;
        }
        assert(!is_header(line@));
        if in_app {
            match split_once_chars(&line, '=') {
                Some((k, v)) => {
                    if eq_ic_chars(&trim_vec(&k), &ver) {
                        return Some(string_from(&trim_vec(&v)));
                    }
                },
                None => {},
            }
        }
        i = i + 1;
    }
    None
}

fn slice_of_inner(t: &Vec<char>) -> (r: Vec<char>)
    requires
        t.len() >= 2,
    ensures
        r@ == t@.subrange(1, t@.len() - 1),
{
    crate::text::slice_of(t, 1, t.len() - 1)
}

/// The release's version: its tag trimmed, without leading `v`s.
pub fn remote_version(tag: &str) -> (r: String)
    ensures
        r@ == trim_start_str(trim(tag@), seq!['v']),
{
    let mut p: Vec<char> = Vec::new();
    p.push('v');
    string_from(&trim_start_str_vec(&trim_vec(&chars_of(tag)), &p))
}

/// Whether to install the release `remote` over the installed `local`:
/// always with `force`; an unparsable release version is an error; an
/// unparsable installed version (such as `unknown`) is always updated;
/// otherwise the release must be newer.
pub fn is_update_needed(local: &str, remote: &str, force: bool) -> (r: Result<bool, UpdaterError>)
    ensures
        force ==> r matches Ok(true),
        !force && !semver_accepts(remote@) ==> r matches Err(UpdaterError::SemVer(_)),
        !force && semver_accepts(remote@) && !semver_accepts(local@) ==> r matches Ok(true),
        !force && semver_accepts(remote@) && semver_accepts(local@) ==> (r matches Ok(b) && b == semver_newer(remote@, local@)),
{
    if force {
        return Ok(true);
    }
    match parse_version(remote) {
        Ok(_) => {},
        Err(e) => {
            return Err(UpdaterError::SemVer(e));
        },
    }
    match parse_version(local) {
        Ok(_) => Ok(version_gt(remote, local)),
        Err(_) => Ok(true),
    }
}

/// A release asset.
#[derive(Debug, Clone)]
pub struct GhAsset {
    pub name: String,
    pub browser_download_url: String,
    pub size: Option<u64>,
    /// `sha256:<hex>` where the release gives one.
    pub digest: Option<String>,
}

pub open spec fn is_muzap_zip(name: Seq<char>) -> bool {
    starts_with(name, "MuZap_"@) && ends_with(name, ".zip"@)
}

pub open spec fn is_zip(name: Seq<char>) -> bool {
    ends_with(name, ".zip"@)
}

/// The first asset whose name satisfies `muzap` (named `MuZap_*.zip`) or, with
/// `muzap` false, ends with `.zip`.
pub open spec fn first_asset(assets: Seq<GhAsset>, muzap: bool, i: int) -> bool {
    0 <= i < assets.len() && (if muzap { is_muzap_zip(assets[i].name@) } else { is_zip(assets[i].name@) })
        && forall|j: int| 0 <= j < i ==> !(if muzap { is_muzap_zip(#[trigger] assets[j].name@) } else { is_zip(assets[j].name@) })
}

/// Two assets with the same name, address, size and digest.
pub open spec fn same_asset(a: GhAsset, b: GhAsset) -> bool {
    &&& a.name@ == b.name@
    &&& a.browser_download_url@ == b.browser_download_url@
    &&& a.size == b.size
    &&& match (a.digest, b.digest) {
        (Some(x), Some(y)) => x@ == y@,
        (None, None) => true,
        _ => false,
    }
}

fn copy_asset(a: &GhAsset) -> (r: GhAsset)
    ensures
        same_asset(r, *a),
{
    let digest = match &a.digest {
        Some(d) => Some(to_string(d.as_str())),
        None => None,
    };
    GhAsset { name: to_string(a.name.as_str()), browser_download_url: to_string(a.browser_download_url.as_str()), size: a.size, digest }
}

fn find_asset(assets: &[GhAsset], muzap: bool) -> (r: Option<usize>)
    ensures
        match r {
            Some(i) => first_asset(assets@, muzap, i as int),
            None => forall|j: int| 0 <= j < assets@.len() ==> !(if muzap { is_muzap_zip(#[trigger] assets@[j].name@) } else { is_zip(assets@[j].name@) }),
        },
{
    let pre = chars_of("MuZap_");
    let suf = chars_of(".zip");
    let mut i: usize = 0;
    while i < assets.len()
        invariant
            i <= assets.len(),
            pre@ == "MuZap_"@,
            suf@ == ".zip"@,
            forall|j: int| 0 <= j < i ==> !(if muzap { is_muzap_zip(#[trigger] assets@[j].name@) } else { is_zip(assets@[j].name@) }),
        decreases assets.len() - i,
    {
        let n = chars_of(assets[i].name.as_str());
        let ok = if muzap {
            starts_with_chars(&n, &pre) && ends_with_chars(&n, &suf)
        } else {
            ends_with_chars(&n, &suf)
        };
        if ok {
            return Some(i);
        }
        i = i + 1;
    }
    None
}

/// The archive to install: the first `MuZap_*.zip` asset, else the first
/// `.zip` asset; none is an error.
pub fn pick_zip_asset(assets: &[GhAsset]) -> (r: Result<GhAsset, UpdaterError>)
    ensures
        (exists|i: int| first_asset(assets@, true, i)) ==> (r matches Ok(a) && exists|i: int| first_asset(assets@, true, i) && same_asset(a, assets@[i])),
        !(exists|i: int| first_asset(assets@, true, i)) && (exists|i: int| first_asset(assets@, false, i)) ==> (r matches Ok(a)
            && exists|i: int| first_asset(assets@, false, i) && same_asset(a, assets@[i])),
        r is Err <==> forall|j: int| 0 <= j < assets@.len() ==> !is_zip(#[trigger] assets@[j].name@),
        r matches Err(e) ==> e is NoZipAsset,
{
    match find_asset(assets, true) {
        Some(i) => {
            return Ok(copy_asset(&assets[i]));
        },
        None => {},
    }
    match find_asset(assets, false) {
        Some(i) => {
            proof {
                assert forall|k: int| !first_asset(assets@, true, k) by {}
            }
            Ok(copy_asset(&assets[i]))
        },
        None => {
            proof {
                assert forall|k: int| !first_asset(assets@, true, k) by {
                    if 0 <= k < assets@.len() {
                        assert(!is_zip(assets@[k].name@));
                    }
                }
                assert forall|k: int| !first_asset(assets@, false, k) by {}
            }
            Err(UpdaterError::NoZipAsset)
        },
    }
}

/// The outcome of comparing the archive's SHA-256 with the release's digest.
#[derive(Debug)]
pub enum DigestCheck {
    /// The release gives no digest: nothing to compare.
    NoDigest,
    /// The digest is not `sha256:...`: the comparison is skipped.
    UnknownFormat,
    /// The two agree.
    Match,
    /// They differ: the expected and the actual value, both trimmed and lower-cased.
    Mismatch { expected: String, actual: String },
}

/// The comparison of a release digest (`sha256:<hex>`) with the archive's
/// SHA-256 in hex, both trimmed and compared in lower case.
pub fn check_digest(digest: Option<&str>, actual_hex: &str) -> (r: DigestCheck)
    ensures
        digest is None ==> r is NoDigest,
        digest matches Some(d) ==> if !starts_with(d@, "sha256:"@) {
            r is UnknownFormat
        } else {
            let expected = lower(trim(d@.skip(7)));
            let actual = lower(trim(actual_hex@));
            if expected == actual {
                r is Match
            } else {
                r matches DigestCheck::Mismatch { expected: e, actual: a } && e@ == expected && a@ == actual
            }
        },
{
    let d = match digest {
        Some(d) => d,
        None => {
            return DigestCheck::NoDigest;
        },
    };
    proof {
        reveal_strlit("sha256:");
    }
    match strip_prefix_vec(&chars_of(d), &chars_of("sha256:")) {
        None => DigestCheck::UnknownFormat,
        Some(rest) => {
            let e = lower_vec(&trim_vec(&rest));
            let a = lower_vec(&trim_vec(&chars_of(actual_hex)));
            if crate::text::eq_chars(&e, &a) {
                DigestCheck::Match
            } else {
                DigestCheck::Mismatch { expected: string_from(&e), actual: string_from(&a) }
            }
        },
    }
}

/// The SHA-256 digest of a byte string.
pub uninterp spec fn sha256(data: Seq<u8>) -> Seq<u8>;

/// `sha2::Sha256::digest`: the digest of `data`, a function of `data` alone,
/// 32 bytes long.
#[verifier::external_body]
fn sha256_digest(data: &[u8]) -> (r: Vec<u8>)
    ensures
        r@ == sha256(data@),
        r@.len() == 32,
{
    <sha2::Sha256 as sha2::Digest>::digest(data).to_vec()
}

/// The lower-case hex digit of `n < 16`.
pub open spec fn hex_digit(n: nat) -> char {
    if n < 10 { ((n + 48) as u32) as char } else { ((n + 87) as u32) as char }
}

/// Two lower-case hex digits per byte, high half first.
pub open spec fn spec_hex(b: Seq<u8>) -> Seq<char>
    decreases b.len(),
{
    if b.len() == 0 {
        Seq::empty()
    } else {
        spec_hex(b.drop_last()) + seq![hex_digit((b.last() / 16) as nat), hex_digit((b.last() % 16) as nat)]
    }
}

/// `hex::encode`: two lower-case hex digits per byte, high half first.
#[verifier::external_body]
fn hex_encode(data: &[u8]) -> (r: String)
    ensures
        r@ == spec_hex(data@),
{
    hex::encode(data)
}

/// The SHA-256 of a byte string in lower-case hex, as the updater shows and compares it.
pub fn sha256_hex(data: &[u8]) -> (r: String)
    ensures
        r@ == spec_hex(sha256(data@)),
        r@.len() == 64,
{
    let d = sha256_digest(data);
    proof {
        lemma_hex_len(d@);
    }
    hex_encode(&d)
}

proof fn lemma_hex_len(b: Seq<u8>)
    ensures
        spec_hex(b).len() == 2 * b.len(),
    decreases b.len(),
{
    if b.len() > 0 {
        lemma_hex_len(b.drop_last());
    }
}

/// The archive check on its first four bytes: a ZIP starts with `PK\x03\x04`.
pub fn ensure_zip_magic(head: &[u8]) -> (r: Result<(), UpdaterError>)
    requires
        head.len() == 4,
    ensures
        r is Ok <==> head@ == seq![0x50u8, 0x4Bu8, 0x03u8, 0x04u8],
        r matches Err(e) ==> (e matches UpdaterError::Msg(m) && m@ == "Файл не похож на ZIP (не совпадает сигнатура PK\\x03\\x04)"@),
{
    if head[0] == 0x50 && head[1] == 0x4B && head[2] == 0x03 && head[3] == 0x04 {
        assert(head@ =~= seq![0x50u8, 0x4Bu8, 0x03u8, 0x04u8]);
        Ok(())
    } else {
        Err(UpdaterError::Msg(to_string("Файл не похож на ZIP (не совпадает сигнатура PK\\x03\\x04)")))
    }
}

/// An extracted archive with a single entry that is a folder has its files in
/// that folder; otherwise they are at its top.
pub fn use_single_entry(entry_count: usize, first_is_dir: bool) -> (r: bool)
    ensures
        r == (entry_count == 1 && first_is_dir),
{
    entry_count == 1 && first_is_dir
}

/// `\\` made `/`, then every leading `./` dropped.
pub open spec fn spec_normalize_rel(path: Seq<char>) -> Seq<char> {
    trim_start_str(replace_all(path, seq!['\\'], seq!['/']), seq!['.', '/'])
}

/// A relative path with `/` separators and no leading `./`.
pub fn normalize_rel(path: &str) -> (r: String)
    ensures
        r@ == spec_normalize_rel(path@),
{
    let mut bs: Vec<char> = Vec::new();
    bs.push('\\');
    let mut sl: Vec<char> = Vec::new();
    sl.push('/');
    let replaced = replace_chars(&chars_of(path), &bs, &sl);
    let mut dot: Vec<char> = Vec::new();
    dot.push('.');
    dot.push('/');
    assert(bs@ =~= seq!['\\']);
    assert(sl@ =~= seq!['/']);
    assert(dot@ =~= seq!['.', '/']);
    string_from(&trim_start_str_vec(&replaced, &dot))
}

/// What the updater does with one extracted file.
#[derive(Debug, Clone, Copy, PartialEq, Eq, Structural)]
pub enum FileAction {
    /// Repository metadata (`.git/`, `.github/`): left out silently.
    Ignore,
    /// The running updater itself, or a protected user file: kept, with a note.
    Protected,
    /// `muzap.bat`: copied aside to `.service/MuZap.bat.pending`.
    Pending,
    /// Copied over the installed file.
    Copy,
}

/// The user files an update never overwrites.
pub open spec fn protected_files() -> Seq<Seq<char>> {
    seq!["muzap.ini"@, "muzap.bat"@, "lists/ipset-exclude-user.txt"@, "lists/list-general-user.txt"@, "lists/list-exclude-user.txt"@]
}

pub open spec fn spec_file_action(rel: Seq<char>, self_name: Option<Seq<char>>) -> FileAction {
    if starts_with(rel, ".git/"@) || starts_with(rel, ".github/"@) {
        FileAction::Ignore
    } else if self_name matches Some(n) && eq_ic(rel, n) {
        FileAction::Protected
    } else if exists|i: int| 0 <= i < protected_files().len() && eq_ic(rel, #[trigger] protected_files()[i]) {
        if eq_ic(rel, "muzap.bat"@) { FileAction::Pending } else { FileAction::Protected }
    } else {
        FileAction::Copy
    }
}

/// The action for the extracted file at the normalised relative path `rel`,
/// given the updater's own file name when known (names compared up to ASCII case).
pub fn classify_update_file(rel: &str, self_name: Option<&str>) -> (r: FileAction)
    ensures
        r == spec_file_action(rel@, match self_name { Some(n) => Some(n@), None => None }),
{
    let r = chars_of(rel);
    if starts_with_chars(&r, &chars_of(".git/")) || starts_with_chars(&r, &chars_of(".github/")) {
        return FileAction::Ignore;
    }
    match self_name {
        Some(n) => {
            if eq_ic_chars(&r, &chars_of(n)) {
                return FileAction::Protected;
            }
        },
        None => {},
    }
    let prot: Vec<&str> = vec!["muzap.ini", "muzap.bat", "lists/ipset-exclude-user.txt", "lists/list-general-user.txt", "lists/list-exclude-user.txt"];
    assert(prot@.map_values(|s: &str| s@) =~= protected_files());
    let mut i: usize = 0;
    while i < prot.len()
        invariant
            i <= prot.len() == 5,
            prot@.map_values(|s: &str| s@) == protected_files(),
            r@ == rel@,
            !starts_with(r@, ".git/"@) && !starts_with(r@, ".github/"@),
            self_name matches Some(n) ==> !eq_ic(r@, n@),
            forall|j: int| 0 <= j < i ==> !eq_ic(r@, #[trigger] protected_files()[j]),
        decreases prot.len() - i,
    {
        if eq_ic_chars(&r, &chars_of(prot[i])) {
            assert(eq_ic(r@, protected_files()[i as int]));
            if eq_ic_chars(&r, &chars_of("muzap.bat")) {
                return FileAction::Pending;
            } else {
                return FileAction::Protected;
            }
        }
        i = i + 1;
    }
    FileAction::Copy
}

/// The text the updater writes to `muzap.ini`: the lines as `write_ini_lines`
/// makes them, each followed by the file's line ending (CRLF when the file
/// has one, LF otherwise; CRLF for a new file).
pub open spec fn spec_updater_ini(existing: Option<Seq<char>>, section: Seq<char>, key: Seq<char>, value: Seq<char>) -> Seq<char> {
    let (text, eol) = match existing {
        Some(t) => (t, if contains(t, seq!['\r', '\n']) { seq!['\r', '\n'] } else { seq!['\n'] }),
        None => (Seq::empty(), seq!['\r', '\n']),
    };
    join(write_lines(lines_of(text), section, key, value), eol) + eol
}

/// The new text of `muzap.ini` with `section.key = value`, given the current
/// text (`None` when there is no file).
pub fn updater_ini_text(existing: Option<&str>, section: &str, key: &str, value: &str) -> (r: String)
    ensures
        r@ == spec_updater_ini(match existing { Some(t) => Some(t@), None => None }, section@, key@, value@),
{
    let mut crlf: Vec<char> = Vec::new();
    crlf.push('\r');
    crlf.push('\n');
    assert(crlf@ =~= seq!['\r', '\n']);
    let (lines, eol) = match existing {
        Some(t) => {
            let eol = if contains_chars(&chars_of(t), &crlf) {
                crlf
            } else {
                let mut lf: Vec<char> = Vec::new();
                lf.push('\n');
                assert(lf@ =~= seq!['\n']);
                lf
            };
            (write_ini_lines(t, section, key, value), eol)
        },
        None => {
            proof {
                reveal_strlit("");
                assert(""@ =~= Seq::<char>::empty());
            }
            (write_ini_lines("", section, key, value), crlf)
        },
    };
    let mut out = join_chars(&lines, &eol);
    append_chars(&mut out, &eol);
    string_from(&out)
}

/// What a key does to the yes/no question.
#[derive(Debug, Clone, Copy, PartialEq, Eq, Structural)]
pub enum YesNoStep {
    /// The selection changes (0 yes, 1 no) and the warning is cleared.
    Select(usize),
    /// The answer: yes only when yes was selected at Enter; no at Esc.
    Answer(bool),
    /// Another key: the selection stays and a warning is shown.
    Warn(usize),
}

/// One key in the yes/no question with `selection` (0 yes, 1 no): Up or Down
/// switch, Enter answers, Esc answers no, any other key warns.
pub fn yes_no_step(selection: usize, key: crate::muzap::menu::MenuKey) -> (r: YesNoStep)
    requires
        selection <= 1,
    ensures
        (key == crate::muzap::menu::MenuKey::Up || key == crate::muzap::menu::MenuKey::Down) ==> r == YesNoStep::Select((1 - selection) as usize),
        key == crate::muzap::menu::MenuKey::Enter ==> r == YesNoStep::Answer(selection == 0),
        key == crate::muzap::menu::MenuKey::Esc ==> r == YesNoStep::Answer(false),
        key != crate::muzap::menu::MenuKey::Up && key != crate::muzap::menu::MenuKey::Down && key
            != crate::muzap::menu::MenuKey::Enter && key != crate::muzap::menu::MenuKey::Esc ==> r == YesNoStep::Warn(selection),
{
    match key {
        crate::muzap::menu::MenuKey::Up => YesNoStep::Select(1 - selection),
        crate::muzap::menu::MenuKey::Down => YesNoStep::Select(1 - selection),
        crate::muzap::menu::MenuKey::Enter => YesNoStep::Answer(selection == 0),
        crate::muzap::menu::MenuKey::Esc => YesNoStep::Answer(false),
        _ => YesNoStep::Warn(selection),
    }
}

} // verus!
