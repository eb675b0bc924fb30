//! Command-line arguments of the downloader: `hfd <REPO_ID> [options]`.

use vstd::prelude::*;
use crate::text::{starts_with, str_eq, str_starts_with, views, opt_view};

verus! {

/// What the command line asks for.
pub struct CliArgs {
    pub model_id: String,
    pub config_path: Option<String>,
    pub include_patterns: Option<Vec<String>>,
    pub exclude_patterns: Option<Vec<String>>,
    pub local_dir: Option<String>,
    pub hf_token: Option<String>,
}

/// The arguments as character sequences.
pub struct CliArgsView {
    pub model_id: Seq<char>,
    pub config_path: Option<Seq<char>>,
    pub include_patterns: Option<Seq<Seq<char>>>,
    pub exclude_patterns: Option<Seq<Seq<char>>>,
    pub local_dir: Option<Seq<char>>,
    pub hf_token: Option<Seq<char>>,
}

/// The character sequences of an optional list of strings.
pub open spec fn opt_views(o: Option<Vec<String>>) -> Option<Seq<Seq<char>>> {
    match o {
        Some(v) => Some(views(v@)),
        None => None,
    }
}

impl View for CliArgs {
    type V = CliArgsView;

    open spec fn view(&self) -> CliArgsView {
        CliArgsView {
            model_id: self.model_id@,
            config_path: opt_view(self.config_path),
            include_patterns: opt_views(self.include_patterns),
            exclude_patterns: opt_views(self.exclude_patterns),
            local_dir: opt_view(self.local_dir),
            hf_token: opt_view(self.hf_token),
        }
    }
}

/// The arguments with only the repository given.
pub open spec fn initial_args(model_id: Seq<char>) -> CliArgsView {
    CliArgsView {
        model_id,
        config_path: None,
        include_patterns: None,
        exclude_patterns: None,
        local_dir: None,
        hf_token: None,
    }
}

/// The first position at or after `i` that holds an option (`--...`), or the end.
pub open spec fn values_end(args: Seq<Seq<char>>, i: int) -> int
    decreases args.len() - i,
{
    if 0 <= i < args.len() && !starts_with(args[i], "--"@) {
        values_end(args, i + 1)
    } else {
        i
    }
}

/// Where the values of a list-taking option end.
pub proof fn lemma_values_end_bounds(args: Seq<Seq<char>>, i: int)
    requires
        0 <= i <= args.len(),
    ensures
        i <= values_end(args, i) <= args.len(),
        forall|k: int| i <= k < values_end(args, i) ==> !starts_with(#[trigger] args[k], "--"@),
        values_end(args, i) < args.len() ==> starts_with(args[values_end(args, i)], "--"@),
    decreases args.len() - i,
{
    if i < args.len() && !starts_with(args[i], "--"@) {
        lemma_values_end_bounds(args, i + 1);
    }
}

/// The options from position `i` on, read into `acc`: `--config`, `--local-dir`
/// and `--hf_token` take the next argument when there is one; `--include` and
/// `--exclude` take every following argument up to the next `--...` and are
/// set only when they took at least one; anything else is skipped.
pub open spec fn scan_options(args: Seq<Seq<char>>, i: int, acc: CliArgsView) -> CliArgsView
    decreases args.len() - i,
{
    if i < 0 || i >= args.len() {
        acc
    } else {
        let a = args[i];
        if a == "--config"@ {
            if i + 1 < args.len() {
                scan_options(args, i + 2, CliArgsView { config_path: Some(args[i + 1]), ..acc })
            } else {
                scan_options(args, i + 1, acc)
            }
        } else if a == "--include"@ || a == "--exclude"@ {
            proof {
                lemma_values_end_bounds(args, i + 1);
            }
            let j = values_end(args, i + 1);
            let pats = args.subrange(i + 1, j);
            let next = if pats.len() == 0 {
                acc
            } else if a == "--include"@ {
                CliArgsView { include_patterns: Some(pats), ..acc }
            } else {
                CliArgsView { exclude_patterns: Some(pats), ..acc }
            };
            scan_options(args, j, next)
        } else if a == "--local-dir"@ {
            if i + 1 < args.len() {
                scan_options(args, i + 2, CliArgsView { local_dir: Some(args[i + 1]), ..acc })
            } else {
                scan_options(args, i + 1, acc)
            }
        } else if a == "--hf_token"@ {
            if i + 1 < args.len() {
                scan_options(args, i + 2, CliArgsView { hf_token: Some(args[i + 1]), ..acc })
            } else {
                scan_options(args, i + 1, acc)
            }
        } else {
            scan_options(args, i + 1, acc)
        }
    }
}

/// The meaning of the command line `argv` (program name and sub-command
/// first): nothing when no repository is given or help is asked for with
/// `-h` or `--help` in its place; otherwise the repository and the options
/// that follow it.
pub open spec fn parse_args_spec(argv: Seq<Seq<char>>) -> Option<CliArgsView> {
    if argv.len() <= 2 {
        None
    } else {
        let args = argv.skip(2);
        if args[0] == "-h"@ || args[0] == "--help"@ {
            None
        } else {
            Some(scan_options(args, 1, initial_args(args[0])))
        }
    }
}

/// Reads the command line `argv`, whose first two entries (program name and
/// sub-command) are skipped. `None` means that help should be shown.
pub fn parse_args(argv: &Vec<String>) -> (res: Option<CliArgs>)
    ensures
        match res {
            Some(c) => parse_args_spec(views(argv@)) == Some(c@),
            None => parse_args_spec(views(argv@)).is_none(),
        },
{
    let ghost all = views(argv@);
    let ghost args = all.skip(2);
    let n = argv.len();
    if n <= 2 {
        return None;
    }
    assert(args[0] == argv@[2]@);
    if str_eq(argv[2].as_str(), "-h") || str_eq(argv[2].as_str(), "--help") {
        return None;
    }
    let mut cli = CliArgs {
        model_id: argv[2].clone(),
        config_path: None,
        include_patterns: None,
        exclude_patterns: None,
        local_dir: None,
        hf_token: None,
    };
    assert(cli@ == initial_args(args[0]));
    let mut i: usize = 3;
    while i < n
        invariant
            n == argv@.len(),
            n > 2,
            3 <= i <= n,
            all == views(argv@),
            args == all.skip(2),
            args.len() == n - 2,
            forall|k: int| 0 <= k < args.len() ==> #[trigger] args[k] == argv@[k + 2]@,
            scan_options(args, i - 2, cli@) == scan_options(args, 1, initial_args(args[0])),
        decreases n - i,
    {
        let k: Ghost<int> = Ghost(i - 2);
        assert(args[k@] == argv@[i as int]@);
        let a = argv[i].as_str();
        if str_eq(a, "--config") {
            if i + 1 < n {
                assert(args[k@ + 1] == argv@[i + 1]@);
                cli.config_path = Some(argv[i + 1].clone());
                i += 1;
            }
            i += 1;
        } else if str_eq(a, "--include") || str_eq(a, "--exclude") {
            let is_include = str_eq(a, "--include");
            let mut patterns: Vec<String> = Vec::new();
            i += 1;
            proof {
                lemma_values_end_bounds(args, k@ + 1);
            }
            while i < n && !str_starts_with(argv[i].as_str(), "--")
                invariant
                    n == argv@.len(),
                    k@ + 3 <= i <= n,
                    args.len() == n - 2,
                    0 <= k@ < args.len(),
                    forall|q: int| 0 <= q < args.len() ==> #[trigger] args[q] == argv@[q + 2]@,
                    values_end(args, k@ + 1) == values_end(args, i - 2),
                    views(patterns@) == args.subrange(k@ + 1, i - 2),
                decreases n - i,
            {
                assert(args[i - 2] == argv@[i as int]@);
                let ghost before = patterns@;
                assert(views(before).len() == before.len());
                assert(before.len() == i - 2 - (k@ + 1));
                patterns.push(argv[i].clone());
                i += 1;
                assert forall|j: int| 0 <= j < before.len() implies #[trigger] views(patterns@)[j]
                    == args.subrange(k@ + 1, i - 2)[j] by {
                    assert(patterns@[j] == before[j]);
                    assert(views(patterns@)[j] == patterns@[j]@);
                    assert(views(before)[j] == before[j]@);
                    assert(views(before)[j] == args.subrange(k@ + 1, i - 3)[j]);
                    assert(args.subrange(k@ + 1, i - 3)[j] == args[k@ + 1 + j]);
                    assert(args.subrange(k@ + 1, i - 2)[j] == args[k@ + 1 + j]);
                }
                assert(views(patterns@)[before.len() as int] == args[i - 3]);
                assert(views(patterns@) =~= args.subrange(k@ + 1, i - 2));
            }
            proof {
                if i < n {
                    assert(args[i - 2] == argv@[i as int]@);
                }
                lemma_values_end_bounds(args, i - 2);
            }
            if patterns.len() > 0 {
                if is_include {
                    cli.include_patterns = Some(patterns);
                } else {
                    cli.exclude_patterns = Some(patterns);
                }
            }
        } else if str_eq(a, "--local-dir") {
            if i + 1 < n {
                assert(args[k@ + 1] == argv@[i + 1]@);
                cli.local_dir = Some(argv[i + 1].clone());
                i += 1;
            }
            i += 1;
        } else if str_eq(a, "--hf_token") {
            if i + 1 < n {
                assert(args[k@ + 1] == argv@[i + 1]@);
                cli.hf_token = Some(argv[i + 1].clone());
                i += 1;
            }
            i += 1;
        } else {
            i += 1;
        }
    }
    Some(cli)
}

proof fn lemma_scan_keeps_model_id(args: Seq<Seq<char>>, i: int, acc: CliArgsView)
    ensures
        scan_options(args, i, acc).model_id == acc.model_id,
    decreases args.len() - i,
{
    if 0 <= i < args.len() {
        let a = args[i];
        if a == "--config"@ {
            if i + 1 < args.len() {
                lemma_scan_keeps_model_id(args, i + 2, CliArgsView { config_path: Some(args[i + 1]), ..acc });
            } else {
                lemma_scan_keeps_model_id(args, i + 1, acc);
            }
        } else if a == "--include"@ || a == "--exclude"@ {
            lemma_values_end_bounds(args, i + 1);
            let j = values_end(args, i + 1);
            let pats = args.subrange(i + 1, j);
            let next = if pats.len() == 0 {
                acc
            } else if a == "--include"@ {
                CliArgsView { include_patterns: Some(pats), ..acc }
            } else {
                CliArgsView { exclude_patterns: Some(pats), ..acc }
            };
            lemma_scan_keeps_model_id(args, j, next);
        } else if a == "--local-dir"@ {
            if i + 1 < args.len() {
                lemma_scan_keeps_model_id(args, i + 2, CliArgsView { local_dir: Some(args[i + 1]), ..acc });
            } else {
                lemma_scan_keeps_model_id(args, i + 1, acc);
            }
        } else if a == "--hf_token"@ {
            if i + 1 < args.len() {
                lemma_scan_keeps_model_id(args, i + 2, CliArgsView { hf_token: Some(args[i + 1]), ..acc });
            } else {
                lemma_scan_keeps_model_id(args, i + 1, acc);
            }
        } else {
            lemma_scan_keeps_model_id(args, i + 1, acc);
        }
    }
}

/// Help is shown exactly when no repository is given or `-h`/`--help` stands
/// in its place; otherwise the repository is the first argument after the
/// program and sub-command, whatever options follow.
pub proof fn lemma_repository_is_first_argument(argv: Seq<Seq<char>>)
    ensures
        parse_args_spec(argv) is None <==> (argv.len() <= 2 || argv[2] == "-h"@ || argv[2] == "--help"@),
        parse_args_spec(argv) matches Some(c) ==> c.model_id == argv[2],
{
    if argv.len() > 2 {
        let args = argv.skip(2);
        assert(args[0] == argv[2]);
        lemma_scan_keeps_model_id(args, 1, initial_args(args[0]));
    }
}

/// With no option among the arguments from `i` on, the values run to the end.
proof fn lemma_values_run_to_end(args: Seq<Seq<char>>, i: int)
    requires
        0 <= i <= args.len(),
        forall|k: int| i <= k < args.len() ==> !starts_with(#[trigger] args[k], "--"@),
    ensures
        values_end(args, i) == args.len(),
    decreases args.len() - i,
{
    if i < args.len() {
        lemma_values_run_to_end(args, i + 1);
    }
}

/// A list option takes every argument that follows it up to the next `--...`,
/// whichever of `--include` and `--exclude` it is: for
/// `[program, command, repo, opt, v1, ..., vn]` where no `vk` starts with
/// `--`, the list that `opt` names is `[v1, ..., vn]` (unset when `n` is 0),
/// and nothing else but the repository is set.
pub proof fn lemma_list_option_takes_all_values(argv: Seq<Seq<char>>, opt: Seq<char>)
    requires
        argv.len() >= 4,
        argv[2] != "-h"@,
        argv[2] != "--help"@,
        opt == "--include"@ || opt == "--exclude"@,
        argv[3] == opt,
        forall|k: int| 4 <= k < argv.len() ==> !starts_with(#[trigger] argv[k], "--"@),
    ensures
        parse_args_spec(argv) matches Some(c) && ({
            let values = if argv.len() > 4 {
                Some(argv.skip(4))
            } else {
                None::<Seq<Seq<char>>>
            };
            &&& c.model_id == argv[2]
            &&& c.config_path is None
            &&& c.local_dir is None
            &&& c.hf_token is None
            &&& c.include_patterns == (if opt == "--include"@ {
                values
            } else {
                None
            })
            &&& c.exclude_patterns == (if opt == "--exclude"@ {
                values
            } else {
                None
            })
        }),
{
    reveal_strlit("--config");
    reveal_strlit("--include");
    reveal_strlit("--exclude");
    let args = argv.skip(2);
    assert(args[0] == argv[2]);
    assert(args[1] == opt);
    assert("--config"@[2] != "--include"@[2]);
    assert("--config"@[2] != "--exclude"@[2]);
    assert("--include"@[2] != "--exclude"@[2]);
    assert(opt != "--config"@);
    assert forall|k: int| 2 <= k < args.len() implies !starts_with(#[trigger] args[k], "--"@) by {
        assert(args[k] == argv[k + 2]);
    }
    lemma_values_run_to_end(args, 2);
    let pats = args.subrange(2, args.len() as int);
    assert(pats =~= argv.skip(4));
    let init = initial_args(args[0]);
    let next = if pats.len() == 0 {
        init
    } else if opt == "--include"@ {
        CliArgsView { include_patterns: Some(pats), ..init }
    } else {
        CliArgsView { exclude_patterns: Some(pats), ..init }
    };
    assert(scan_options(args, 1, init) == scan_options(args, args.len() as int, next));
    assert(scan_options(args, args.len() as int, next) == next);
}

/// An option with one value takes the argument right after it: for
/// `[program, command, repo, opt, v]` with `opt` one of `--config`,
/// `--local-dir` and `--hf_token`, the setting that `opt` names is `v`, and
/// nothing else but the repository is set.
pub proof fn lemma_value_option_takes_next(argv: Seq<Seq<char>>, opt: Seq<char>)
    requires
        argv.len() == 5,
        argv[2] != "-h"@,
        argv[2] != "--help"@,
        opt == "--config"@ || opt == "--local-dir"@ || opt == "--hf_token"@,
        argv[3] == opt,
    ensures
        parse_args_spec(argv) matches Some(c) && ({
            &&& c.model_id == argv[2]
            &&& c.include_patterns is None
            &&& c.exclude_patterns is None
            &&& c.config_path == (if opt == "--config"@ {
                Some(argv[4])
            } else {
                None
            })
            &&& c.local_dir == (if opt == "--local-dir"@ {
                Some(argv[4])
            } else {
                None
            })
            &&& c.hf_token == (if opt == "--hf_token"@ {
                Some(argv[4])
            } else {
                None
            })
        }),
{
    reveal_strlit("--config");
    reveal_strlit("--include");
    reveal_strlit("--exclude");
    reveal_strlit("--local-dir");
    reveal_strlit("--hf_token");
    let args = argv.skip(2);
    assert(args[0] == argv[2]);
    assert(args[1] == opt);
    assert(args[2] == argv[4]);
    assert("--config"@[2] != "--include"@[2]);
    assert("--config"@[2] != "--exclude"@[2]);
    assert("--config"@[2] != "--local-dir"@[2]);
    assert("--config"@[2] != "--hf_token"@[2]);
    assert("--local-dir"@[2] != "--include"@[2]);
    assert("--local-dir"@[2] != "--exclude"@[2]);
    assert("--local-dir"@[2] != "--hf_token"@[2]);
    assert("--hf_token"@[2] != "--include"@[2]);
    assert("--hf_token"@[2] != "--exclude"@[2]);
    assert(opt != "--include"@ && opt != "--exclude"@);
    let init = initial_args(args[0]);
    let next = if opt == "--config"@ {
        CliArgsView { config_path: Some(args[2]), ..init }
    } else if opt == "--local-dir"@ {
        CliArgsView { local_dir: Some(args[2]), ..init }
    } else {
        CliArgsView { hf_token: Some(args[2]), ..init }
    };
    assert(scan_options(args, 1, init) == scan_options(args, 3, next));
}

} // verus!
