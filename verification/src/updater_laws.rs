//! The version the updater records is the version it reads on its next run.
use vstd::prelude::*;

use crate::ini::{header_inner, is_header, is_skipped, line_state, read_lines, write_lines};
use crate::ini_laws::{eol_ok, eol_view, header_ok, headers_agree, key_name_ok, lemma_eq_ic_trim_fixed, lemma_lines_join, lemma_lines_no_nl, lemma_lower_idem, lemma_trim_fixed, lemma_trim_strip_cr, lemma_written_lines, no_nl, section_name_ok, value_ok};
use crate::text::{contains, eq_ic, find_char, is_ws, join, lines_of, lower, split_once, trim, trim_end, trim_start};
use crate::fmt::spec_parse_u64;
use crate::text::{lemma_replace_char_absent, lemma_replace_char_gone, lemma_trim_start_str_suffix, replace_all, starts_with, trim_start_str};
use crate::updater::{spec_normalize_rel, args_acc, spec_parse_args, protected_files, spec_file_action, spec_updater_ini, version_scan, FileAction};

verus! {

proof fn lemma_find_some(t: Seq<char>, c: char)
    ensures
        find_char(t, c) matches Some(i) ==> 0 <= i < t.len() && t[i] == c,
    decreases t.len(),
{
    if t.len() > 0 && t[0] != c {
        lemma_find_some(t.drop_first(), c);
    }
}

proof fn lemma_trim_end_first(a: Seq<char>)
    requires
        a.len() > 0,
        !is_ws(a[0]),
    ensures
        trim_end(a).len() > 0,
        trim_end(a)[0] == a[0],
    decreases a.len(),
{
    if a.len() > 1 && is_ws(a.last()) {
        lemma_trim_end_first(a.drop_last());
    }
}

/// A comment line is never read as a `Version` entry.
proof fn lemma_comment_key(t: Seq<char>)
    requires
        is_skipped(t),
        split_once(t, '=') is Some,
    ensures
        !eq_ic(trim(split_once(t, '=').unwrap().0), "Version"@),
{
    reveal_strlit("Version");
    lemma_find_some(t, '=');
    let i = find_char(t, '=').unwrap();
    let a = t.take(i);
    assert(lower("Version"@).len() == 7);
    assert(lower("Version"@)[0] == 'v');
    if i == 0 {
        assert(a.len() == 0);
        assert(trim(a) =~= a);
        assert(lower(trim(a)).len() == 0);
    } else {
        assert(a[0] == t[0]);
        assert(!is_ws(a[0]));
        assert(trim_start(a) == a);
        lemma_trim_end_first(a);
        assert(lower(trim(a))[0] == a[0]);
    }
}

/// Under headers the two readers see alike, the updater's `[App] Version`
/// scan finds what the INI reader finds for `App.Version`.
proof fn lemma_scan_is_read(ls: Seq<Seq<char>>, in_app: bool, cur: Seq<char>)
    requires
        forall|i: int| 0 <= i < ls.len() ==> header_ok(#[trigger] ls[i], "App"@),
        in_app == eq_ic(cur, "App"@),
    ensures
        version_scan(ls, in_app) == read_lines(ls, cur, "App"@, "Version"@),
    decreases ls.len(),
{
    reveal_strlit("App");
    reveal_strlit("Version");
    if ls.len() > 0 {
        let rest = ls.drop_first();
        assert forall|i: int| 0 <= i < rest.len() implies header_ok(#[trigger] rest[i], "App"@) by {
            assert(rest[i] == ls[i + 1]);
        }
        let app = "App"@;
        let ver = "Version"@;
        assert(trim(app) == app) by {
            lemma_trim_fixed(app);
        }
        assert(trim(ver) == ver) by {
            lemma_trim_fixed(ver);
        }
        let t = trim(ls[0]);
        assert(header_ok(ls[0], app));
        if is_header(t) {
            let inner = header_inner(t);
            let nxt = lower(trim(inner));
            assert(line_state(t, cur) == nxt);
            lemma_lower_idem(trim(inner));
            if eq_ic(inner, app) {
                lemma_eq_ic_trim_fixed(inner, app);
            }
            assert(eq_ic(inner, app) == eq_ic(nxt, app));
            lemma_scan_is_read(rest, eq_ic(inner, app), nxt);
        } else {
            assert(line_state(t, cur) == cur);
            if is_skipped(t) && split_once(t, '=') is Some {
                lemma_comment_key(t);
            }
            lemma_scan_is_read(rest, in_app, cur);
        }
    }
}

/// The scan looks at trimmed lines only.
proof fn lemma_scan_trim(m: Seq<Seq<char>>, w: Seq<Seq<char>>, in_app: bool)
    requires
        m.len() == w.len(),
        forall|i: int| 0 <= i < m.len() ==> trim(#[trigger] m[i]) == trim(w[i]),
    ensures
        version_scan(m, in_app) == version_scan(w, in_app),
    decreases m.len(),
{
    if m.len() > 0 {
        assert(trim(m[0]) == trim(w[0]));
        let (m2, w2) = (m.drop_first(), w.drop_first());
        assert forall|i: int| 0 <= i < m2.len() implies trim(#[trigger] m2[i]) == trim(w2[i]) by {
            assert(m2[i] == m[i + 1]);
            assert(w2[i] == w[i + 1]);
        }
        lemma_scan_trim(m2, w2, true);
        lemma_scan_trim(m2, w2, false);
    }
}

/// The updater records the new version as `[App] Version` in `muzap.ini`;
/// on its next run it reads that version back, for a version that fits on
/// one line without surrounding whitespace and a file (or none) whose `[App]`
/// headers the writer and the reader see alike.
pub proof fn law_recorded_version_reads_back(existing: Option<Seq<char>>, version: Seq<char>)
    requires
        value_ok(version),
        existing matches Some(t) ==> headers_agree(t, "App"@),
    ensures
        version_scan(lines_of(spec_updater_ini(existing, "App"@, "Version"@, version)), false) == Some(version),
{
    reveal_strlit("App");
    reveal_strlit("Version");
    let app = "App"@;
    let ver = "Version"@;
    assert(section_name_ok(app)) by {
        lemma_trim_fixed(app);
    }
    assert(key_name_ok(ver)) by {
        lemma_trim_fixed(ver);
        assert(find_char(ver, '=') is None) by {
            reveal_with_fuel(find_char, 8);
        }
    }
    let (text, eol) = match existing {
        Some(t) => (t, if contains(t, seq!['\r', '\n']) { seq!['\r', '\n'] } else { seq!['\n'] }),
        None => (Seq::<char>::empty(), seq!['\r', '\n']),
    };
    assert(eol_ok(eol));
    let ls = lines_of(text);
    if existing is None {
        assert(ls =~= Seq::<Seq<char>>::empty());
    }
    lemma_lines_no_nl(text);
    assert forall|i: int| 0 <= i < ls.len() implies no_nl(#[trigger] ls[i]) && header_ok(ls[i], app) by {}
    lemma_written_lines(ls, app, ver, version);
    let w = write_lines(ls, app, ver, version);
    lemma_lines_join(w, eol);
    let m = w.map_values(|l: Seq<char>| eol_view(l, eol));
    assert(lines_of(join(w, eol) + eol) == m);
    assert forall|i: int| 0 <= i < m.len() implies trim(#[trigger] m[i]) == trim(w[i]) by {
        lemma_trim_strip_cr(w[i]);
    }
    lemma_scan_trim(m, w, false);
    assert(!eq_ic(Seq::<char>::empty(), app)) by {
        assert(lower(Seq::<char>::empty()).len() == 0);
        assert(lower(app).len() == 3);
    }
    lemma_scan_is_read(w, false, Seq::empty());
}

/// An update never copies over the user's own files (`muzap.ini`,
/// `muzap.bat` and the `*-user.txt` lists), whatever the case of their names.
pub proof fn law_user_files_not_overwritten(rel: Seq<char>, self_name: Option<Seq<char>>, i: int)
    requires
        0 <= i < protected_files().len(),
        eq_ic(rel, protected_files()[i]),
    ensures
        spec_file_action(rel, self_name) != FileAction::Copy,
{
}

/// The option words are distinct.
proof fn lemma_option_words()
    ensures
        "--root"@ != "--repo"@,
        "--root"@.len() == 6 && "--repo"@.len() == 6 && "--yes"@.len() == 5 && "-y"@.len() == 2,
        "--force"@.len() == 7 && "--check-only"@.len() == 12 && "--timeout"@.len() == 9,
        "--no-pause"@.len() == 10 && "--help"@.len() == 6 && "-h"@.len() == 2,
        "--help"@ != "--root"@ && "--help"@ != "--repo"@ && "-h"@ != "-y"@,
{
    reveal_strlit("--root");
    reveal_strlit("--repo");
    reveal_strlit("--yes");
    reveal_strlit("-y");
    reveal_strlit("--force");
    reveal_strlit("--check-only");
    reveal_strlit("--timeout");
    reveal_strlit("--no-pause");
    reveal_strlit("--help");
    reveal_strlit("-h");
    assert("--root"@[3] != "--repo"@[3]);
    assert("--help"@[2] != "--root"@[2]);
    assert("--help"@[2] != "--repo"@[2]);
    assert("-h"@[1] != "-y"@[1]);
}

/// Reading the options of `p + t` from position `p.len() + j` is reading
/// those of `t` from `j`.
proof fn lemma_args_shift(
    p: Seq<Seq<char>>,
    t: Seq<Seq<char>>,
    j: int,
    root: Option<Seq<char>>,
    repo: Seq<char>,
    yes: bool,
    force: bool,
    check_only: bool,
    timeout: nat,
)
    requires
        0 <= j,
    ensures
        args_acc(p + t, p.len() + j, root, repo, yes, force, check_only, timeout) == args_acc(
            t,
            j,
            root,
            repo,
            yes,
            force,
            check_only,
            timeout,
        ),
    decreases t.len() - j,
{
    lemma_option_words();
    let a = p + t;
    if j < t.len() {
        assert(a[p.len() + j] == t[j]);
        let x = t[j];
        if j + 1 < t.len() {
            assert(a[p.len() + j + 1] == t[j + 1]);
            let v = t[j + 1];
            if x == "--root"@ {
                lemma_args_shift(p, t, j + 2, Some(v), repo, yes, force, check_only, timeout);
            } else if x == "--repo"@ {
                lemma_args_shift(p, t, j + 2, root, v, yes, force, check_only, timeout);
            } else if x == "--timeout"@ {
                lemma_args_shift(p, t, j + 2, root, repo, yes, force, check_only, match spec_parse_u64(v) {
                    Some(n) => n,
                    None => 30,
                });
            }
        }
        if x == "--yes"@ || x == "-y"@ {
            lemma_args_shift(p, t, j + 1, root, repo, true, force, check_only, timeout);
        } else if x == "--force"@ {
            lemma_args_shift(p, t, j + 1, root, repo, yes, true, check_only, timeout);
        } else if x == "--check-only"@ {
            lemma_args_shift(p, t, j + 1, root, repo, yes, force, true, timeout);
        } else {
            lemma_args_shift(p, t, j + 1, root, repo, yes, force, check_only, timeout);
        }
    }
}

/// When the options of `p` read completely from `i`, reading `p + t` from
/// `i` reaches the end of `p` in the state that reading `p` ends in.
proof fn lemma_args_prefix(
    p: Seq<Seq<char>>,
    t: Seq<Seq<char>>,
    i: int,
    root: Option<Seq<char>>,
    repo: Seq<char>,
    yes: bool,
    force: bool,
    check_only: bool,
    timeout: nat,
)
    requires
        0 <= i <= p.len(),
        args_acc(p, i, root, repo, yes, force, check_only, timeout) is Ok,
    ensures
        ({
            let s = args_acc(p, i, root, repo, yes, force, check_only, timeout)->Ok_0;
            args_acc(p + t, i, root, repo, yes, force, check_only, timeout) == args_acc(p + t, p.len() as int, s.0, s.1, s.2, s.3, s.4, s.5)
        }),
    decreases p.len() - i,
{
    lemma_option_words();
    let a = p + t;
    if i < p.len() {
        assert(a[i] == p[i]);
        let x = p[i];
        if i + 1 < p.len() {
            assert(a[i + 1] == p[i + 1]);
            let v = p[i + 1];
            if x == "--root"@ {
                lemma_args_prefix(p, t, i + 2, Some(v), repo, yes, force, check_only, timeout);
            } else if x == "--repo"@ {
                lemma_args_prefix(p, t, i + 2, root, v, yes, force, check_only, timeout);
            } else if x == "--timeout"@ {
                lemma_args_prefix(p, t, i + 2, root, repo, yes, force, check_only, match spec_parse_u64(v) {
                    Some(n) => n,
                    None => 30,
                });
            }
        }
        if x == "--root"@ || x == "--repo"@ || x == "--timeout"@ {
        } else if x == "--yes"@ || x == "-y"@ {
            lemma_args_prefix(p, t, i + 1, root, repo, true, force, check_only, timeout);
        } else if x == "--force"@ {
            lemma_args_prefix(p, t, i + 1, root, repo, yes, true, check_only, timeout);
        } else if x == "--check-only"@ {
            lemma_args_prefix(p, t, i + 1, root, repo, yes, force, true, timeout);
        } else {
            lemma_args_prefix(p, t, i + 1, root, repo, yes, force, check_only, timeout);
        }
    }
}

/// Once set, the confirmation, force and check-only flags stay set.
proof fn lemma_args_flags_stick(
    t: Seq<Seq<char>>,
    j: int,
    root: Option<Seq<char>>,
    repo: Seq<char>,
    yes: bool,
    force: bool,
    check_only: bool,
    timeout: nat,
)
    requires
        0 <= j,
    ensures
        args_acc(t, j, root, repo, yes, force, check_only, timeout) matches Ok(v) ==> (yes ==> v.2) && (force ==> v.3) && (
        check_only ==> v.4),
    decreases t.len() - j,
{
    lemma_option_words();
    if j < t.len() {
        let x = t[j];
        if x == "--root"@ || x == "--repo"@ || x == "--timeout"@ {
            if j + 1 < t.len() {
                let v = t[j + 1];
                if x == "--root"@ {
                    lemma_args_flags_stick(t, j + 2, Some(v), repo, yes, force, check_only, timeout);
                } else if x == "--repo"@ {
                    lemma_args_flags_stick(t, j + 2, root, v, yes, force, check_only, timeout);
                } else {
                    let n = match spec_parse_u64(v) {
                        Some(n) => n,
                        None => 30,
                    };
                    lemma_args_flags_stick(t, j + 2, root, repo, yes, force, check_only, n);
                }
            }
        } else if x == "--yes"@ || x == "-y"@ {
            lemma_args_flags_stick(t, j + 1, root, repo, true, force, check_only, timeout);
        } else if x == "--force"@ {
            lemma_args_flags_stick(t, j + 1, root, repo, yes, true, check_only, timeout);
        } else if x == "--check-only"@ {
            lemma_args_flags_stick(t, j + 1, root, repo, yes, force, true, timeout);
        } else {
            lemma_args_flags_stick(t, j + 1, root, repo, yes, force, check_only, timeout);
        }
    }
}

/// Reading a flag where an option may stand (after options that read
/// completely): the options of `p`, then `flag`, then `t`.
proof fn lemma_args_flag_at(p: Seq<Seq<char>>, flag: Seq<char>, t: Seq<Seq<char>>)
    requires
        spec_parse_args(p) is Ok,
    ensures
        ({
            let s = spec_parse_args(p)->Ok_0;
            let f = seq![flag] + t;
            spec_parse_args(p.push(flag) + t) == args_acc(f, 0, s.0, s.1, s.2, s.3, s.4, s.5)
        }),
{
    let f = seq![flag] + t;
    let args = p + f;
    assert(p.push(flag) + t =~= args);
    let s = args_acc(p, 0, None, "MuXolotl/MuZap"@, false, false, false, 30)->Ok_0;
    lemma_args_prefix(p, f, 0, None, "MuXolotl/MuZap"@, false, false, false, 30);
    lemma_args_shift(p, f, 0, s.0, s.1, s.2, s.3, s.4, s.5);
}

/// Either spelling of the confirmation flag, `--yes` or `-y`, given where an
/// option may stand (after options that read completely), makes the updater
/// install without asking: whatever follows, the options say yes.
pub proof fn law_yes_flag_confirms(p: Seq<Seq<char>>, flag: Seq<char>, t: Seq<Seq<char>>)
    requires
        flag == "--yes"@ || flag == "-y"@,
        spec_parse_args(p) is Ok,
    ensures
        spec_parse_args(p.push(flag) + t) matches Ok(v) ==> v.2,
{
    reveal_strlit("--yes");
    reveal_strlit("-y");
    lemma_option_words();
    lemma_args_flag_at(p, flag, t);
    let s = spec_parse_args(p)->Ok_0;
    let f = seq![flag] + t;
    assert(f[0] == flag);
    assert(flag != "--root"@ && flag != "--repo"@);
    lemma_args_flags_stick(f, 1, s.0, s.1, true, s.3, s.4, s.5);
}

/// `--force`, where an option may stand, makes the updater install whatever
/// the versions: whatever follows, the options say force.
pub proof fn law_force_flag_forces(p: Seq<Seq<char>>, t: Seq<Seq<char>>)
    requires
        spec_parse_args(p) is Ok,
    ensures
        spec_parse_args(p.push("--force"@) + t) matches Ok(v) ==> v.3,
{
    lemma_option_words();
    lemma_args_flag_at(p, "--force"@, t);
    let s = spec_parse_args(p)->Ok_0;
    let f = seq!["--force"@] + t;
    assert(f[0] == "--force"@);
    lemma_args_flags_stick(f, 1, s.0, s.1, s.2, true, s.4, s.5);
}

/// `--check-only`, where an option may stand, makes the updater only check:
/// whatever follows, the options say check only.
pub proof fn law_check_only_flag_checks(p: Seq<Seq<char>>, t: Seq<Seq<char>>)
    requires
        spec_parse_args(p) is Ok,
    ensures
        spec_parse_args(p.push("--check-only"@) + t) matches Ok(v) ==> v.4,
{
    lemma_option_words();
    lemma_args_flag_at(p, "--check-only"@, t);
    let s = spec_parse_args(p)->Ok_0;
    let f = seq!["--check-only"@] + t;
    assert(f[0] == "--check-only"@);
    lemma_args_flags_stick(f, 1, s.0, s.1, s.2, s.3, true, s.5);
}

/// The relative paths of an update's files: no `\\` separators are left and no
/// leading `./`; a path already in that form is kept as it is.
pub proof fn law_normalized_paths(path: Seq<char>)
    ensures
        forall|i: int| 0 <= i < spec_normalize_rel(path).len() ==> spec_normalize_rel(path)[i] != '\\',
        !starts_with(spec_normalize_rel(path), "./"@),
        (forall|i: int| 0 <= i < path.len() ==> path[i] != '\\') && !starts_with(path, "./"@) ==> spec_normalize_rel(path) == path,
{
    reveal_strlit("./");
    assert("./"@ =~= seq!['.', '/']);
    let r = replace_all(path, seq!['\\'], seq!['/']);
    lemma_replace_char_gone(path, '\\', seq!['/']);
    lemma_trim_start_str_suffix(r, seq!['.', '/']);
    let k = choose|k: int| 0 <= k <= r.len() && trim_start_str(r, seq!['.', '/']) == #[trigger] r.skip(k);
    assert forall|i: int| 0 <= i < spec_normalize_rel(path).len() implies spec_normalize_rel(path)[i] != '\\' by {
        assert(spec_normalize_rel(path)[i] == r[i + k]);
    }
    if (forall|i: int| 0 <= i < path.len() ==> path[i] != '\\') {
        lemma_replace_char_absent(path, '\\', seq!['/']);
    }
}

/// What an update does with each extracted file: `.git/` and `.github/`
/// are skipped; the user's `muzap.ini` and `*-user.txt` lists are never
/// overwritten; `muzap.bat` (when not the updater itself) is replaced after
/// the updater exits; every other file is copied (names compared up to ASCII
/// case).
pub proof fn law_update_file_actions(rel: Seq<char>, self_name: Option<Seq<char>>)
    ensures
        starts_with(rel, ".git/"@) || starts_with(rel, ".github/"@) ==> spec_file_action(rel, self_name) == FileAction::Ignore,
        eq_ic(rel, "muzap.ini"@) || eq_ic(rel, "lists/ipset-exclude-user.txt"@) || eq_ic(rel, "lists/list-general-user.txt"@)
            || eq_ic(rel, "lists/list-exclude-user.txt"@) ==> spec_file_action(rel, self_name) == FileAction::Protected,
        eq_ic(rel, "muzap.bat"@) && !(self_name matches Some(n) && eq_ic(rel, n)) ==> spec_file_action(rel, self_name) == FileAction::Pending,
        !starts_with(rel, ".git/"@) && !starts_with(rel, ".github/"@) && !(self_name matches Some(n) && eq_ic(rel, n)) && !eq_ic(rel, "muzap.ini"@)
            && !eq_ic(rel, "muzap.bat"@) && !eq_ic(rel, "lists/ipset-exclude-user.txt"@) && !eq_ic(rel, "lists/list-general-user.txt"@)
            && !eq_ic(rel, "lists/list-exclude-user.txt"@) ==> spec_file_action(rel, self_name) == FileAction::Copy,
{
    reveal_strlit(".git/");
    reveal_strlit(".github/");
    reveal_strlit("muzap.ini");
    reveal_strlit("muzap.bat");
    reveal_strlit("lists/ipset-exclude-user.txt");
    reveal_strlit("lists/list-general-user.txt");
    reveal_strlit("lists/list-exclude-user.txt");
    let pf = protected_files();
    assert(pf[0] == "muzap.ini"@ && pf[1] == "muzap.bat"@ && pf[2] == "lists/ipset-exclude-user.txt"@ && pf[3] == "lists/list-general-user.txt"@
        && pf[4] == "lists/list-exclude-user.txt"@);
    if eq_ic(rel, "muzap.ini"@) || eq_ic(rel, "lists/ipset-exclude-user.txt"@) || eq_ic(rel, "lists/list-general-user.txt"@)
        || eq_ic(rel, "lists/list-exclude-user.txt"@) {
        // such a name is neither under `.git` nor `muzap.bat`
        assert(lower(rel)[0] == 'm' || lower(rel)[0] == 'l');
        assert(!starts_with(rel, ".git/"@) && !starts_with(rel, ".github/"@)) by {
            if starts_with(rel, ".git/"@) {
                assert(rel.take(5)[0] == rel[0]);
                assert(lower(rel)[0] == crate::text::lower_c(rel[0]));
            }
            if starts_with(rel, ".github/"@) {
                assert(rel.take(8)[0] == rel[0]);
                assert(lower(rel)[0] == crate::text::lower_c(rel[0]));
            }
        }
        assert(!eq_ic(rel, "muzap.bat"@)) by {
            if eq_ic(rel, "muzap.bat"@) {
                let b = lower("muzap.bat"@);
                assert(b.len() == 9);
                assert(b[6] == 'b');
                assert(lower("muzap.ini"@)[6] == 'i');
            }
        }
    }
    if eq_ic(rel, "muzap.bat"@) {
        assert(lower(rel)[0] == 'm');
        assert(!starts_with(rel, ".git/"@) && !starts_with(rel, ".github/"@)) by {
            if starts_with(rel, ".git/"@) {
                assert(rel.take(5)[0] == rel[0]);
                assert(lower(rel)[0] == crate::text::lower_c(rel[0]));
            }
            if starts_with(rel, ".github/"@) {
                assert(rel.take(8)[0] == rel[0]);
                assert(lower(rel)[0] == crate::text::lower_c(rel[0]));
            }
        }
    }
}

} // verus!
