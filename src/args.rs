use vstd::prelude::*;

verus! {

/// What a run of the launcher is asked to do.
pub struct Config {
    /// The files to load, in the order given: later files win.
    pub files: Vec<String>,
    /// Whether warnings about files that fail to load are silenced.
    pub silent: bool,
    /// The command to run: the program, then its arguments. Never empty.
    pub command: Vec<String>,
}

/// A malformed invocation.
#[derive(PartialEq, Eq, Structural, Clone, Copy, Debug)]
pub enum UsageError {
    /// `-f` was the last argument.
    TrailingFile,
    /// Nothing was left for the command.
    NoCommand,
}

/// The outcome of reading the command line.
pub enum ArgParseResult {
    Config(Config),
    Usage(UsageError),
    Help,
}

/// The outcome of reading the command line, over plain sequences.
pub ghost enum ArgsModel {
    Run { files: Seq<Seq<char>>, silent: bool, command: Seq<Seq<char>> },
    Usage(UsageError),
    Help,
}

/// `a` begins with `p`.
pub open spec fn has_prefix(a: Seq<char>, p: Seq<char>) -> bool {
    p.len() <= a.len() && a.subrange(0, p.len() as int) == p
}

/// Reads `args` while still scanning flags, with `files` and `silent` as
/// gathered so far. The first argument that is not a flag starts the
/// command, which takes it and everything after it verbatim.
pub open spec fn scan(args: Seq<Seq<char>>, files: Seq<Seq<char>>, silent: bool) -> ArgsModel
    decreases args.len(),
{
    if args.len() == 0 {
        ArgsModel::Usage(UsageError::NoCommand)
    } else {
        let a = args[0];
        let rest = args.subrange(1, args.len() as int);
        if a == "-h"@ || a == "--help"@ {
            ArgsModel::Help
        } else if a == "-s"@ {
            scan(rest, files, true)
        } else if a == "-f"@ {
            if rest.len() == 0 {
                ArgsModel::Usage(UsageError::TrailingFile)
            } else {
                scan(rest.subrange(1, rest.len() as int), files.push(rest[0]), silent)
            }
        } else if has_prefix(a, "-f="@) {
            scan(rest, files.push(a.subrange(3, a.len() as int)), silent)
        } else {
            ArgsModel::Run { files, silent, command: args }
        }
    }
}

/// The outcome of reading a whole command line.
pub open spec fn parse_spec(args: Seq<Seq<char>>) -> ArgsModel {
    scan(args, Seq::empty(), false)
}

/// The text of each string.
pub open spec fn texts(v: Seq<String>) -> Seq<Seq<char>> {
    v.map_values(|s: String| s@)
}

impl ArgParseResult {
    pub open spec fn model(&self) -> ArgsModel {
        match self {
            ArgParseResult::Config(c) => ArgsModel::Run {
                files: texts(c.files@),
                silent: c.silent,
                command: texts(c.command@),
            },
            ArgParseResult::Usage(e) => ArgsModel::Usage(*e),
            ArgParseResult::Help => ArgsModel::Help,
        }
    }
}

impl UsageError {
    pub open spec fn message_spec(&self) -> Seq<char> {
        match self {
            UsageError::TrailingFile => "Trailing -f"@,
            UsageError::NoCommand => "No command to execute was provided."@,
        }
    }

    /// The message shown for this error.
    pub fn message(&self) -> (r: &'static str)
        ensures
            r@ == self.message_spec(),
    {
        match self {
            UsageError::TrailingFile => "Trailing -f",
            UsageError::NoCommand => "No command to execute was provided.",
        }
    }
}

/// Whether `a` begins with `p`.
pub fn starts_with_str(a: &str, p: &str) -> (r: bool)
    ensures
        r == has_prefix(a@, p@),
{
    let n = a.unicode_len();
    let m = p.unicode_len();
    if m > n {
        return false;
    }
    let mut i: usize = 0;
    while i < m
        invariant
            n == a@.len(),
            m == p@.len(),
            m <= n,
            0 <= i <= m,
            forall|j: int| 0 <= j < i ==> a@[j] == p@[j],
        decreases m - i,
    {
        if a.get_char(i) != p.get_char(i) {
            assert(a@.subrange(0, m as int)[i as int] != p@[i as int]);
            return false;
        }
        i = i + 1;
    }
    assert(a@.subrange(0, m as int) =~= p@);
    true
}

/// Whether `a` and `b` hold the same characters.
pub fn str_equal(a: &str, b: &str) -> (r: bool)
    ensures
        r == (a@ == b@),
{
    if a.unicode_len() != b.unicode_len() {
        return false;
    }
    let r = starts_with_str(a, b);
    assert(a@ =~= a@.subrange(0, b@.len() as int));
    r
}

/// Reads the launcher's arguments (the program name left out): flags while
/// they last, then the command.
pub fn parse_args(args: &Vec<String>) -> (r: ArgParseResult)
    ensures
        r.model() == parse_spec(texts(args@)),
        r matches ArgParseResult::Config(c) ==> c.command@.len() > 0,
{
    let ghost all = texts(args@);
    let n = args.len();
    let mut files: Vec<String> = Vec::new();
    let mut silent = false;
    let mut i: usize = 0;
    assert(all.subrange(0, n as int) =~= all);
    assert(texts(files@) =~= Seq::<Seq<char>>::empty());
    while i < n
        invariant
            n == args@.len(),
            all == texts(args@),
            0 <= i <= n,
            scan(all.subrange(i as int, n as int), texts(files@), silent) == parse_spec(all),
        decreases n - i,
    {
        let ghost rest = all.subrange(i as int, n as int);
        let arg = args[i].as_str();
        assert(rest[0] == arg@);
        assert(rest.subrange(1, rest.len() as int) =~= all.subrange(i + 1, n as int));
        if str_equal(arg, "-h") || str_equal(arg, "--help") {
            return ArgParseResult::Help;
        } else if str_equal(arg, "-s") {
            silent = true;
            i = i + 1;
        } else if str_equal(arg, "-f") {
            if i + 1 >= n {
                return ArgParseResult::Usage(UsageError::TrailingFile);
            }
            let path = args[i + 1].clone();
            let ghost before = files@;
            proof {
                let r1 = rest.subrange(1, rest.len() as int);
                assert(r1[0] == path@);
                assert(r1.subrange(1, r1.len() as int) =~= all.subrange(i + 2, n as int));
            }
            files.push(path);
            proof {
                assert(files@.drop_last() == before);
                assert(texts(files@) =~= texts(before).push(path@));
            }
            i = i + 2;
        } else if starts_with_str(arg, "-f=") {
            proof {
                reveal_strlit("-f=");
            }
            let len = arg.unicode_len();
            let path = arg.substring_char(3, len).to_owned();
            let ghost before = files@;
            files.push(path);
            proof {
                assert(files@.drop_last() == before);
                assert(texts(files@) =~= texts(before).push(path@));
            }
            i = i + 1;
        } else {
            let mut command: Vec<String> = Vec::new();
            let mut j: usize = i;
            while j < n
                invariant
                    n == args@.len(),
                    all == texts(args@),
                    i <= j <= n,
                    texts(command@) =~= all.subrange(i as int, j as int),
                decreases n - j,
            {
                let ghost before = command@;
                command.push(args[j].clone());
                proof {
                    assert(command@.drop_last() == before);
                    assert(texts(command@) =~= texts(before).push(args@[j as int]@));
                }
                j = j + 1;
            }
            return ArgParseResult::Config(Config { files, silent, command });
        }
    }
    ArgParseResult::Usage(UsageError::NoCommand)
}

/// `args` is made of launcher flags only: `-s`, `-f PATH` and `-f=PATH`.
pub open spec fn flags_only(args: Seq<Seq<char>>) -> bool
    decreases args.len(),
{
    if args.len() == 0 {
        true
    } else if args[0] == "-s"@ || has_prefix(args[0], "-f="@) {
        flags_only(args.subrange(1, args.len() as int))
    } else if args[0] == "-f"@ {
        args.len() >= 2 && flags_only(args.subrange(2, args.len() as int))
    } else {
        false
    }
}

/// `-f PATH` and `-f=PATH` name the same file, wherever they stand among
/// the flags and whatever was read before them.
pub proof fn lemma_file_flag_forms(
    path: Seq<char>,
    rest: Seq<Seq<char>>,
    files: Seq<Seq<char>>,
    silent: bool,
)
    ensures
        scan(seq!["-f"@, path] + rest, files, silent) == scan(
            seq!["-f="@ + path] + rest,
            files,
            silent,
        ),
{
    reveal_strlit("-h");
    reveal_strlit("--help");
    reveal_strlit("-s");
    reveal_strlit("-f");
    reveal_strlit("-f=");
    let joined = "-f="@ + path;
    let spaced = seq!["-f"@, path] + rest;
    let glued = seq![joined] + rest;
    assert(joined[1] == 'f');
    assert(joined != "-h"@ && joined != "--help"@ && joined != "-s"@ && joined != "-f"@) by {
        assert(joined.len() >= 3);
        if joined == "--help"@ {
            assert(joined[1] == "--help"@[1]);
        }
    }
    assert(joined.subrange(0, 3) =~= "-f="@);
    assert(joined.subrange(3, joined.len() as int) =~= path);
    assert(glued[0] == joined);
    assert(glued.subrange(1, glued.len() as int) =~= rest);
    let r1 = spaced.subrange(1, spaced.len() as int);
    assert(spaced[0] == "-f"@);
    assert("-f"@ != "-h"@ && "-f"@ != "-s"@) by {
        assert("-f"@[1] != "-h"@[1] && "-f"@[1] != "-s"@[1]);
    }
    assert("-f"@ != "--help"@) by {
        assert("-f"@.len() != "--help"@.len());
    }
    assert(r1 =~= seq![path] + rest);
    assert(r1[0] == path);
    assert(r1.subrange(1, r1.len() as int) =~= rest);
}

/// Once `-h` or `--help` is reached while flags are still being read, the
/// outcome is help, whatever flags came before and whatever follows.
pub proof fn lemma_help_wins(
    before: Seq<Seq<char>>,
    help: Seq<char>,
    after: Seq<Seq<char>>,
    files: Seq<Seq<char>>,
    silent: bool,
)
    requires
        flags_only(before),
        help == "-h"@ || help == "--help"@,
    ensures
        scan(before + seq![help] + after, files, silent) == ArgsModel::Help,
    decreases before.len(),
{
    reveal_strlit("-h");
    reveal_strlit("--help");
    reveal_strlit("-s");
    reveal_strlit("-f");
    reveal_strlit("-f=");
    let args = before + seq![help] + after;
    if before.len() == 0 {
        assert(args =~= seq![help] + after);
        assert(args[0] == help);
    } else {
        let a = before[0];
        assert(args[0] == a);
        assert(a.len() >= 2 && (a[1] == 's' || a[1] == 'f')) by {
            if a == "-s"@ {
            } else if has_prefix(a, "-f="@) {
                assert(a.subrange(0, 3)[1] == a[1]);
            } else {
                assert(a == "-f"@);
            }
        }
        assert(a != "-h"@ && a != "--help"@) by {
            if a == "-h"@ {
                assert(a[1] == "-h"@[1]);
            }
            if a == "--help"@ {
                assert(a[1] == "--help"@[1]);
            }
        }
        let b1 = before.subrange(1, before.len() as int);
        if a == "-s"@ {
            assert(args.subrange(1, args.len() as int) =~= b1 + seq![help] + after);
            lemma_help_wins(b1, help, after, files, true);
        } else if has_prefix(a, "-f="@) {
            assert(args.subrange(1, args.len() as int) =~= b1 + seq![help] + after);
            lemma_help_wins(b1, help, after, files.push(a.subrange(3, a.len() as int)), silent);
        } else {
            let b2 = before.subrange(2, before.len() as int);
            let r1 = args.subrange(1, args.len() as int);
            assert(r1[0] == before[1]);
            assert(r1.subrange(1, r1.len() as int) =~= b2 + seq![help] + after);
            lemma_help_wins(b2, help, after, files.push(before[1]), silent);
        }
    }
}

} // verus!
