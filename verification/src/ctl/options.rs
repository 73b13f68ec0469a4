//! What the container is launched with: mounts, working directory, hardening
//! and the project's own options. And the pager's command line.

use vstd::prelude::*;

use super::config::{Config, ConfigModel, FileKind, FileTable};
use super::error::CtlError;
use super::expand::{self, expanded};
use crate::environment::Environment;
use crate::pathname::{self, join_spec, parent_spec};
use crate::text::{self, push_text, views, words};

verus! {

/// A mount of `dir` at the same place inside.
pub open spec fn same_place(dir: Seq<char>) -> Seq<char> {
    dir + ":"@ + dir
}

/// A read-only mount of `dir` at the same place inside.
pub open spec fn read_only(dir: Seq<char>) -> Seq<char> {
    dir + ":"@ + dir + ":ro"@
}

/// The hardening flags.
pub open spec fn harden_flags(on: bool) -> Seq<Seq<char>> {
    if on {
        seq!["--cap-drop=all"@, "--security-opt=no-new-privileges"@]
    } else {
        Seq::empty()
    }
}

/// The mounts that every container has, with its working directory.
pub open spec fn default_mounts(cfg: ConfigModel, socket_dir: Seq<char>) -> Seq<Seq<char>> {
    seq![
        "-v"@,
        "/nix:/nix:ro"@,
        "-v"@,
        same_place(socket_dir),
        "-v"@,
        same_place(cfg.root),
        "-w"@,
        cfg.root,
        "-v"@,
        read_only(cfg.cache_dir),
        "-v"@,
        same_place(cfg.log_dir),
    ]
}

/// The repository's data, read-only, where it is a real directory.
pub open spec fn git_mount(root: Seq<char>, is_dir: bool) -> Seq<Seq<char>> {
    if is_dir {
        seq!["-v"@, read_only(join_spec(root, ".git"@))]
    } else {
        Seq::empty()
    }
}

/// The watched files that exist, read-only.
pub open spec fn watch_mounts(
    root: Seq<char>,
    entries: Seq<Seq<char>>,
    files: FileTable,
) -> Seq<Seq<char>>
    decreases entries.len(),
{
    if entries.len() == 0 {
        Seq::empty()
    } else {
        let before = watch_mounts(root, entries.drop_last(), files);
        let path = join_spec(root, entries.last());
        if files.at(path) == FileKind::Absent {
            before
        } else {
            before + seq!["-v"@, read_only(path)]
        }
    }
}

/// The options with their variables replaced, or the first name that is not
/// set.
pub open spec fn expanded_options(
    opts: Seq<Seq<char>>,
    vars: Map<Seq<char>, Seq<char>>,
) -> Result<Seq<Seq<char>>, Seq<char>>
    decreases opts.len(),
{
    if opts.len() == 0 {
        Ok(Seq::empty())
    } else {
        match expanded_options(opts.drop_last(), vars) {
            Err(name) => Err(name),
            Ok(before) => match expanded(opts.last(), vars) {
                Ok(opt) => Ok(before.push(opt)),
                Err(name) => Err(name),
            },
        }
    }
}

/// All launch options that do not come from the project: hardening first,
/// then the default mounts, the repository, and hardened watched files.
pub open spec fn base_options(
    cfg: ConfigModel,
    socket_dir: Seq<char>,
    git_is_dir: bool,
    files: FileTable,
) -> Seq<Seq<char>> {
    harden_flags(cfg.harden) + default_mounts(cfg, socket_dir) + git_mount(cfg.root, git_is_dir) + (
    if cfg.harden {
        watch_mounts(cfg.root, cfg.watch_files, files)
    } else {
        Seq::empty()
    })
}

/// Append `-v` and the mount of `dir`.
fn push_mount(list: &mut Vec<String>, dir: &str, writable: bool)
    ensures
        views(final(list)@) == views(old(list)@) + seq![
            "-v"@,
            if writable {
                same_place(dir@)
            } else {
                read_only(dir@)
            },
        ],
{
    let ghost before = views(list@);
    let mut mount = dir.to_owned();
    mount.append(":");
    mount.append(dir);
    if !writable {
        mount.append(":ro");
    }
    push_text(list, "-v");
    push_text(list, mount.as_str());
    proof {
        assert(views(list@) =~= before + seq!["-v"@, mount@]);
    }
}

/// Append the watched files that exist.
fn push_watch_mounts(list: &mut Vec<String>, root: &str, entries: &Vec<String>, files: &FileTable)
    ensures
        views(final(list)@) == views(old(list)@) + watch_mounts(root@, views(entries@), *files),
{
    let ghost before = views(list@);
    let ghost all = views(entries@);
    let mut i: usize = 0;
    proof {
        assert(views(list@) =~= before + watch_mounts(root@, all.take(0), *files));
    }
    while i < entries.len()
        invariant
            i <= entries@.len(),
            all == views(entries@),
            views(list@) == before + watch_mounts(root@, all.take(i as int), *files),
        decreases entries@.len() - i,
    {
        let path = pathname::join(root, entries[i].as_str());
        proof {
            let t = all.take(i + 1);
            assert(t.drop_last() =~= all.take(i as int));
            assert(t.last() == entries@[i as int]@);
        }
        if files.kind(path.as_str()) != FileKind::Absent {
            push_mount(list, path.as_str(), false);
            proof {
                assert(views(list@) =~= before + watch_mounts(root@, all.take(i + 1), *files));
            }
        }
        i = i + 1;
    }
    proof {
        assert(all.take(i as int) =~= all);
    }
}

/// Append the options with their variables replaced; those before the first
/// unset variable are appended either way.
fn push_options(list: &mut Vec<String>, opts: &Vec<String>, env: &Environment) -> (r: Result<
    (),
    CtlError,
>)
    ensures
        match expanded_options(views(opts@), env@) {
            Ok(out) => r is Ok && views(final(list)@) == views(old(list)@) + out,
            Err(name) => r matches Err(CtlError::UnsetVar { name: n }) && n@ == name,
        },
        r is Err ==> exists|k: int|
            0 <= k < opts@.len() && expanded_options(views(opts@).take(k), env@) is Ok && expanded(
                views(opts@)[k],
                env@,
            ) is Err && views(final(list)@) == views(old(list)@) + (#[trigger] expanded_options(
                views(opts@).take(k),
                env@,
            ))->Ok_0,
{
    let ghost before = views(list@);
    let ghost all = views(opts@);
    let mut i: usize = 0;
    proof {
        assert(views(list@) =~= before + Seq::<Seq<char>>::empty());
    }
    while i < opts.len()
        invariant
            i <= opts@.len(),
            all == views(opts@),
            before == views(old(list)@),
            expanded_options(all.take(i as int), env@) is Ok,
            views(list@) == before + expanded_options(all.take(i as int), env@)->Ok_0,
        decreases opts@.len() - i,
    {
        let ghost so_far = expanded_options(all.take(i as int), env@)->Ok_0;
        proof {
            let t = all.take(i + 1);
            assert(t.drop_last() =~= all.take(i as int));
            assert(t.last() == opts@[i as int]@);
            if expanded_options(t, env@) is Err {
                lemma_option_error_stays(all, env@, i + 1);
            }
        }
        match expand::expand_with(opts[i].as_str(), env) {
            Ok(opt) => {
                push_text(list, opt.as_str());
                proof {
                    assert(views(list@) =~= before + so_far.push(opt@));
                }
            },
            Err(name) => {
                proof {
                    assert(all[i as int] == opts@[i as int]@);
                    assert(views(list@) == before + expanded_options(
                        all.take(i as int),
                        env@,
                    )->Ok_0);
                }
                return Err(CtlError::UnsetVar { name });
            },
        }
        i = i + 1;
    }
    proof {
        assert(all.take(i as int) =~= all);
    }
    Ok(())
}

/// Once an option is in error, so are all longer lists, and in the same name.
proof fn lemma_option_error_stays(
    opts: Seq<Seq<char>>,
    vars: Map<Seq<char>, Seq<char>>,
    n: int,
)
    requires
        0 <= n <= opts.len(),
        expanded_options(opts.take(n), vars) is Err,
    ensures
        expanded_options(opts, vars) == expanded_options(opts.take(n), vars),
    decreases opts.len(),
{
    if n == opts.len() {
        assert(opts.take(n) =~= opts);
    } else {
        assert(opts.drop_last().take(n) =~= opts.take(n));
        lemma_option_error_stays(opts.drop_last(), vars, n);
    }
}

/// What the launch options of a configuration come to.
pub open spec fn launch_options(
    cfg: ConfigModel,
    git_is_dir: bool,
    files: FileTable,
    vars: Map<Seq<char>, Seq<char>>,
    r: Result<Vec<String>, CtlError>,
) -> bool {
    match parent_spec(cfg.socket) {
        None => r matches Err(CtlError::SocketNoParent { socket }) && socket@ == cfg.socket,
        Some(socket_dir) => match expanded_options(cfg.run_opts, vars) {
            Err(name) => r matches Err(CtlError::UnsetVar { name: n }) && n@ == name,
            Ok(opts) => r is Ok && views(r->Ok_0@) == base_options(
                cfg,
                socket_dir,
                git_is_dir,
                files,
            ) + opts,
        },
    }
}

/// The mounts and options of the launch. `git_is_dir` says whether the
/// root's `.git` is a real directory (not a worktree's file, not a link);
/// `files` says what stands at the watched files.
pub fn build_runtime_args(
    cfg: &Config,
    git_is_dir: bool,
    files: &FileTable,
    env: &Environment,
) -> (r: Result<Vec<String>, CtlError>)
    ensures
        launch_options(cfg@, git_is_dir, *files, env@, r),
{
    let socket_dir = match pathname::parent(cfg.socket.as_str()) {
        Some(dir) => dir,
        None => return Err(CtlError::SocketNoParent { socket: cfg.socket.clone() }),
    };
    let mut args: Vec<String> = Vec::new();
    if cfg.harden {
        push_text(&mut args, "--cap-drop=all");
        push_text(&mut args, "--security-opt=no-new-privileges");
    }
    let ghost flags = harden_flags(cfg.harden);
    proof {
        assert(views(args@) =~= flags);
    }
    push_text(&mut args, "-v");
    push_text(&mut args, "/nix:/nix:ro");
    push_mount(&mut args, socket_dir.as_str(), true);
    push_mount(&mut args, cfg.root.as_str(), true);
    push_text(&mut args, "-w");
    push_text(&mut args, cfg.root.as_str());
    push_mount(&mut args, cfg.cache_dir.as_str(), false);
    push_mount(&mut args, cfg.log_dir.as_str(), true);
    proof {
        assert(views(args@) =~= flags + default_mounts(cfg@, socket_dir@));
    }
    if git_is_dir {
        let git = pathname::join(cfg.root.as_str(), ".git");
        push_mount(&mut args, git.as_str(), false);
    }
    proof {
        assert(views(args@) =~= flags + default_mounts(cfg@, socket_dir@) + git_mount(
            cfg.root@,
            git_is_dir,
        ));
    }
    if cfg.harden {
        push_watch_mounts(&mut args, cfg.root.as_str(), &cfg.watch_files, files);
    }
    proof {
        assert(views(args@) =~= base_options(cfg@, socket_dir@, git_is_dir, *files));
    }
    match push_options(&mut args, &cfg.run_opts, env) {
        Ok(_) => Ok(args),
        Err(err) => Err(err),
    }
}

/// The options with their variables replaced, one line each: all of them, or
/// those before the first that names an unset variable and then the error.
pub fn show_options(opts: &Vec<String>, env: &Environment) -> (r: (Vec<String>, Option<CtlError>))
    ensures
        match expanded_options(views(opts@), env@) {
            Ok(out) => r.1 is None && views(r.0@) == out,
            Err(name) => (r.1 matches Some(CtlError::UnsetVar { name: n }) && n@ == name)
                && exists|k: int|
                0 <= k < opts@.len() && expanded(views(opts@)[k], env@) is Err && ((
                #[trigger] expanded_options(views(opts@).take(k), env@)) matches Ok(before)
                    && views(r.0@) == before),
        },
{
    let mut lines: Vec<String> = Vec::new();
    proof {
        assert(views(lines@) =~= Seq::<Seq<char>>::empty());
    }
    let r = push_options(&mut lines, opts, env);
    proof {
        assert forall|s: Seq<Seq<char>>| #[trigger] (Seq::<Seq<char>>::empty() + s) == s by {
            assert(Seq::<Seq<char>>::empty() + s =~= s);
        }
    }
    match r {
        Ok(_) => (lines, None),
        Err(err) => (lines, Some(err)),
    }
}

/// The pager's program and arguments: the words of `PAGER`, else `less -R`.
pub open spec fn pager_words(pager: Option<Seq<char>>) -> Seq<Seq<char>> {
    match pager {
        Some(line) => if words(line).len() > 0 {
            words(line)
        } else {
            seq!["less"@, "-R"@]
        },
        None => seq!["less"@, "-R"@],
    }
}

/// The pager from `PAGER`, split into program and args; `less -R` when
/// `PAGER` is unset or names nothing.
pub fn pager_command(pager: Option<&str>) -> (r: (String, Vec<String>))
    ensures
        seq![r.0@] + views(r.1@) == pager_words(
            match pager {
                Some(line) => Some(line@),
                None => None,
            },
        ),
{
    if let Some(line) = pager {
        let mut parts = text::split_words(line);
        if parts.len() > 0 {
            let ghost all = views(parts@);
            let prog = parts.remove(0);
            proof {
                assert(seq![prog@] + views(parts@) =~= all);
            }
            return (prog, parts);
        }
    }
    let args: Vec<String> = vec!["-R".to_owned()];
    proof {
        assert(seq!["less"@] + views(args@) =~= seq!["less"@, "-R"@]);
    }
    ("less".to_owned(), args)
}

/// The project's own options come last, whatever else is set, so that the
/// defaults cannot displace them; and hardening flags come first.
pub proof fn law_options_follow_the_defaults(
    cfg: ConfigModel,
    git_is_dir: bool,
    files: FileTable,
    vars: Map<Seq<char>, Seq<char>>,
    args: Vec<String>,
    socket_dir: Seq<char>,
)
    requires
        parent_spec(cfg.socket) == Some(socket_dir),
        launch_options(cfg, git_is_dir, files, vars, Ok(args)),
    ensures
        ({
            let base = base_options(cfg, socket_dir, git_is_dir, files);
            let opts = expanded_options(cfg.run_opts, vars)->Ok_0;
            &&& views(args@).take(base.len() as int) == base
            &&& views(args@).skip(base.len() as int) == opts
            &&& opts.len() == cfg.run_opts.len()
            &&& cfg.harden ==> args@[0]@ == "--cap-drop=all"@ && args@[1]@
                == "--security-opt=no-new-privileges"@
        }),
{
    let base = base_options(cfg, socket_dir, git_is_dir, files);
    let opts = expanded_options(cfg.run_opts, vars)->Ok_0;
    assert((base + opts).take(base.len() as int) =~= base);
    assert((base + opts).skip(base.len() as int) =~= opts);
    lemma_options_len(cfg.run_opts, vars);
    if cfg.harden {
        assert(views(args@)[0] == base[0]);
        assert(views(args@)[1] == base[1]);
    }
}

/// Hardening changes nothing but what it adds: its two flags in front, and
/// the read-only mounts of the watched files that exist between the defaults
/// and the project's own options.
pub proof fn law_hardening_adds_flags_and_mounts(
    cfg: ConfigModel,
    socket_dir: Seq<char>,
    git_is_dir: bool,
    files: FileTable,
    vars: Map<Seq<char>, Seq<char>>,
    hard: Vec<String>,
    soft: Vec<String>,
)
    requires
        parent_spec(cfg.socket) == Some(socket_dir),
        launch_options(
            (ConfigModel { harden: true, ..cfg }),
            git_is_dir,
            files,
            vars,
            Ok(hard),
        ),
        launch_options(
            (ConfigModel { harden: false, ..cfg }),
            git_is_dir,
            files,
            vars,
            Ok(soft),
        ),
    ensures
        ({
            let defaults = default_mounts(cfg, socket_dir) + git_mount(cfg.root, git_is_dir);
            let opts = expanded_options(cfg.run_opts, vars)->Ok_0;
            &&& views(soft@) == defaults + opts
            &&& views(hard@) == seq![
                "--cap-drop=all"@,
                "--security-opt=no-new-privileges"@,
            ] + defaults + watch_mounts(cfg.root, cfg.watch_files, files) + opts
        }),
{
    let plain = ConfigModel { harden: false, ..cfg };
    let hardened = ConfigModel { harden: true, ..cfg };
    let defaults = default_mounts(cfg, socket_dir) + git_mount(cfg.root, git_is_dir);
    let opts = expanded_options(cfg.run_opts, vars)->Ok_0;
    assert(base_options(plain, socket_dir, git_is_dir, files) =~= defaults);
    assert(base_options(hardened, socket_dir, git_is_dir, files) =~= harden_flags(true) + defaults
        + watch_mounts(cfg.root, cfg.watch_files, files));
    assert(views(soft@) =~= defaults + opts);
}

/// No option is split: as many come out as went in.
proof fn lemma_options_len(opts: Seq<Seq<char>>, vars: Map<Seq<char>, Seq<char>>)
    ensures
        expanded_options(opts, vars) matches Ok(out) ==> out.len() == opts.len(),
    decreases opts.len(),
{
    if opts.len() > 0 {
        lemma_options_len(opts.drop_last(), vars);
    }
}

/// The defaults are these and no others: the store read-only, the socket's
/// directory, the project as working directory, the cache read-only and the
/// logs, each mounted where it stands.
pub proof fn law_defaults_are_these_mounts(
    cfg: ConfigModel,
    dir: Seq<char>,
    git_is_dir: bool,
    files: FileTable,
    vars: Map<Seq<char>, Seq<char>>,
    args: Vec<String>,
)
    requires
        !cfg.harden,
        parent_spec(cfg.socket) == Some(dir),
        launch_options(cfg, git_is_dir, files, vars, Ok(args)),
    ensures
        views(args@) == seq![
            "-v"@,
            "/nix:/nix:ro"@,
            "-v"@,
            dir + ":"@ + dir,
            "-v"@,
            cfg.root + ":"@ + cfg.root,
            "-w"@,
            cfg.root,
            "-v"@,
            cfg.cache_dir + ":"@ + cfg.cache_dir + ":ro"@,
            "-v"@,
            cfg.log_dir + ":"@ + cfg.log_dir,
        ] + (if git_is_dir {
            let git = join_spec(cfg.root, ".git"@);
            seq!["-v"@, git + ":"@ + git + ":ro"@]
        } else {
            Seq::empty()
        }) + expanded_options(cfg.run_opts, vars)->Ok_0,
{
    let base = base_options(cfg, dir, git_is_dir, files);
    assert(base =~= default_mounts(cfg, dir) + git_mount(cfg.root, git_is_dir));
}

/// A hardened container has each watched file that exists mounted read-only
/// where it stands, in the order they are watched; one that does not exist
/// is passed over.
pub proof fn law_existing_watched_files_are_mounted(
    root: Seq<char>,
    entries: Seq<Seq<char>>,
    entry: Seq<char>,
    files: FileTable,
)
    ensures
        watch_mounts(root, Seq::empty(), files) == Seq::<Seq<char>>::empty(),
        files.at(join_spec(root, entry)) == FileKind::Absent ==> watch_mounts(
            root,
            entries.push(entry),
            files,
        ) == watch_mounts(root, entries, files),
        files.at(join_spec(root, entry)) != FileKind::Absent ==> watch_mounts(
            root,
            entries.push(entry),
            files,
        ) == watch_mounts(root, entries, files) + seq![
            "-v"@,
            join_spec(root, entry) + ":"@ + join_spec(root, entry) + ":ro"@,
        ],
{
    assert(entries.push(entry).drop_last() =~= entries);
}

/// The project's options are expanded one by one: as many come out as went
/// in, each the expansion of its own. The first that names an unset variable
/// is the failure, and without such a one there is none.
pub proof fn law_each_option_is_expanded_for_itself(
    opts: Seq<Seq<char>>,
    vars: Map<Seq<char>, Seq<char>>,
)
    ensures
        match expanded_options(opts, vars) {
            Ok(out) => out.len() == opts.len() && forall|i: int|
                0 <= i < opts.len() ==> expanded(#[trigger] opts[i], vars) == Ok::<
                    Seq<char>,
                    Seq<char>,
                >(out[i]),
            Err(name) => exists|k: int|
                0 <= k < opts.len() && expanded(#[trigger] opts[k], vars) == Err::<
                    Seq<char>,
                    Seq<char>,
                >(name) && forall|i: int|
                    0 <= i < k ==> expanded(#[trigger] opts[i], vars) is Ok,
        },
    decreases opts.len(),
{
    if opts.len() > 0 {
        let front = opts.drop_last();
        let n = opts.len() - 1;
        law_each_option_is_expanded_for_itself(front, vars);
        match expanded_options(front, vars) {
            Ok(before) => {
                assert forall|i: int| 0 <= i < n implies expanded(#[trigger] opts[i], vars) == Ok::<
                    Seq<char>,
                    Seq<char>,
                >(before[i]) by {
                    assert(front[i] == opts[i]);
                }
                if let Err(name) = expanded(opts[n], vars) {
                    assert(expanded_options(opts, vars) == Err::<Seq<Seq<char>>, Seq<char>>(name));
                }
            },
            Err(name) => {
                let k = choose|k: int|
                    0 <= k < front.len() && expanded(#[trigger] front[k], vars) == Err::<
                        Seq<char>,
                        Seq<char>,
                    >(name) && forall|i: int|
                        0 <= i < k ==> expanded(#[trigger] front[i], vars) is Ok;
                assert(opts[k] == front[k]);
                assert forall|i: int| 0 <= i < k implies expanded(#[trigger] opts[i], vars)
                    is Ok by {
                    assert(opts[i] == front[i]);
                }
            },
        }
    }
}

/// The pager is what `PAGER` names, its words the program and its arguments;
/// `less -R` where it is not set or blank.
pub proof fn law_pager_is_what_is_named(
    program: Seq<char>,
    blank: Seq<char>,
    rest: Seq<char>,
    c: char,
)
    requires
        program.len() > 0,
        forall|i: int| 0 <= i < program.len() ==> !text::is_space(#[trigger] program[i]),
        forall|i: int| 0 <= i < blank.len() ==> text::is_space(#[trigger] blank[i]),
        text::is_space(c),
    ensures
        pager_words(Some(program)) == seq![program],
        pager_words(Some(program + seq![c] + rest)) == seq![program] + words(rest),
        pager_words(Some(blank)) == seq!["less"@, "-R"@],
        pager_words(None) == seq!["less"@, "-R"@],
{
    text::law_unbroken_text_is_one_word(program);
    text::law_white_space_parts_words(program, c, rest);
    lemma_blank_has_no_words(blank);
}

proof fn lemma_blank_has_no_words(blank: Seq<char>)
    requires
        forall|i: int| 0 <= i < blank.len() ==> text::is_space(#[trigger] blank[i]),
    ensures
        words(blank).len() == 0,
    decreases blank.len(),
{
    if blank.len() > 0 {
        assert(text::is_space(blank[blank.len() - 1]));
        let front = blank.drop_last();
        assert forall|i: int| 0 <= i < front.len() implies text::is_space(#[trigger] front[i]) by {
            assert(text::is_space(blank[i]));
        }
        lemma_blank_has_no_words(front);
    }
}

} // verus!
