//! Detection of the user's preferred shell through an ordered,
//! platform-conditional fallback chain.
//!
//! The chain consults, in this order: an environment preference (returned
//! verbatim when present), then — depending on the host family — either a
//! scan of the user-database file (`name:password:uid:gid:gecos:home:shell`,
//! one record per line) or the outcome of a directory-service query whose
//! output is expected to read `UserShell: <path>`.
//!
//! Reading the environment, the database file and the query output is the
//! embedding program's business; the selection itself is verified here, as a
//! function of those plain values.

use vstd::prelude::*;

use crate::host::HostFamily;
use crate::text::{opt_view, seq_views, split_all, split_on, starts_with_prefix,
    lemma_split_rec_len, is_prefix};

verus! {

/// What running the directory-service command produced: whether it exited
/// successfully, and its standard output decoded as text.
pub struct CommandOutcome {
    pub success: bool,
    pub stdout: String,
}

/// The character view of an optional list of text lines.
pub open spec fn lines_view(o: Option<Vec<String>>) -> Option<Seq<Seq<char>>> {
    match o {
        Option::None => Option::None,
        Option::Some(v) => Option::Some(seq_views(v@)),
    }
}

/// The view of an optional command outcome.
pub open spec fn outcome_view(o: Option<CommandOutcome>) -> Option<(bool, Seq<char>)> {
    match o {
        Option::None => Option::None,
        Option::Some(c) => Option::Some((c.success, c.stdout@)),
    }
}

/// The shell named by the first user-database line whose first colon-field
/// equals `user`: its seventh field. A matching line with fewer than seven
/// fields yields nothing, and stops the scan; non-matching lines are passed
/// over.
pub open spec fn passwd_shell_spec(lines: Seq<Seq<char>>, user: Seq<char>) -> Option<Seq<char>>
    decreases lines.len(),
{
    if lines.len() == 0 {
        Option::None
    } else {
        let fields = split_all(lines[0], ':');
        if fields[0] == user {
            if fields.len() >= 7 {
                Option::Some(fields[6])
            } else {
                Option::None
            }
        } else {
            passwd_shell_spec(lines.drop_first(), user)
        }
    }
}

/// The shell named by a directory-service answer: the second
/// whitespace-delimited token of an output that begins with the literal
/// `UserShell: `, provided the command succeeded.
pub open spec fn dscl_shell_spec(success: bool, out: Seq<char>) -> Option<Seq<char>> {
    if success && is_prefix("UserShell: "@, out) {
        let toks = tokens_of(out);
        if toks.len() >= 2 {
            Option::Some(toks[1])
        } else {
            Option::None
        }
    } else {
        Option::None
    }
}

/// Whether `c` separates tokens: the ASCII whitespace characters.
pub open spec fn is_space(c: char) -> bool {
    c == ' ' || c == '\t' || c == '\n' || c == '\r' || c == '\u{b}' || c == '\u{c}'
}

/// The non-empty runs of `s` between whitespace, with `cur` the token read
/// so far.
pub open spec fn toks_rec(s: Seq<char>, cur: Seq<char>) -> Seq<Seq<char>>
    decreases s.len(),
{
    if s.len() == 0 {
        if cur.len() == 0 {
            Seq::empty()
        } else {
            seq![cur]
        }
    } else if is_space(s[0]) {
        let rest = toks_rec(s.drop_first(), Seq::empty());
        if cur.len() == 0 {
            rest
        } else {
            seq![cur] + rest
        }
    } else {
        toks_rec(s.drop_first(), cur.push(s[0]))
    }
}

/// The whitespace-delimited tokens of `s`.
pub open spec fn tokens_of(s: Seq<char>) -> Seq<Seq<char>> {
    toks_rec(s, Seq::empty())
}

/// Tests whether `c` separates tokens.
fn is_space_char(c: char) -> (r: bool)
    ensures
        r == is_space(c),
{
    c == ' ' || c == '\t' || c == '\n' || c == '\r' || c == '\u{b}' || c == '\u{c}'
}

/// Splits a string into its whitespace-delimited tokens.
pub fn split_tokens(s: &str) -> (r: Vec<String>)
    ensures
        seq_views(r@) == tokens_of(s@),
{
    let n = s.unicode_len();
    let mut out: Vec<String> = Vec::new();
    let mut cur: String = String::new();
    let mut i: usize = 0;
    proof {
        assert(s@.skip(0) =~= s@);
        assert(seq_views(out@) =~= Seq::<Seq<char>>::empty());
        assert(seq_views(out@) + toks_rec(s@.skip(0), cur@) =~= tokens_of(s@));
    }
    while i < n
        invariant
            n == s@.len(),
            i <= n,
            tokens_of(s@) == seq_views(out@) + toks_rec(s@.skip(i as int), cur@),
        decreases n - i,
    {
        let c = s.get_char(i);
        proof {
            assert(s@.skip(i as int)[0] == s@[i as int]);
            assert(s@.skip(i as int).drop_first() =~= s@.skip(i as int + 1));
        }
        if is_space_char(c) {
            if cur.as_str().is_empty() {
                proof {
                    assert(cur@ =~= Seq::<char>::empty());
                }
            } else {
                let ghost old_out = out@;
                let ghost old_cur = cur@;
                out.push(cur);
                cur = String::new();
                proof {
                    assert(seq_views(out@) =~= seq_views(old_out).push(old_cur));
                    assert(seq_views(old_out) + (seq![old_cur] + toks_rec(
                        s@.skip(i as int + 1),
                        Seq::empty(),
                    )) =~= seq_views(out@) + toks_rec(s@.skip(i as int + 1), cur@));
                }
            }
        } else {
            cur.push(c);
        }
        i += 1;
    }
    proof {
        assert(s@.skip(n as int) =~= Seq::<char>::empty());
    }
    if cur.as_str().is_empty() {
        proof {
            assert(cur@ =~= Seq::<char>::empty());
            assert(seq_views(out@) + toks_rec(s@.skip(n as int), cur@) =~= seq_views(out@));
        }
        out
    } else {
        let ghost old_out = out@;
        let ghost old_cur = cur@;
        out.push(cur);
        proof {
            assert(seq_views(out@) =~= seq_views(old_out).push(old_cur));
            assert(seq_views(old_out) + seq![old_cur] =~= seq_views(old_out).push(old_cur));
        }
        out
    }
}

/// Looks the user's shell up in the lines of the user-database file. Yields
/// nothing when the username is unresolved or the database could not be
/// read.
pub fn shell_from_user_database(username: &Option<String>, database: &Option<Vec<String>>) -> (r:
    Option<String>)
    ensures
        opt_view(r) == match (opt_view(*username), lines_view(*database)) {
            (Option::Some(u), Option::Some(lines)) => passwd_shell_spec(lines, u),
            _ => Option::<Seq<char>>::None,
        },
{
    match username.as_ref() {
        Option::None => Option::None,
        Option::Some(user) => match database.as_ref() {
            Option::None => Option::None,
            Option::Some(lines) => {
                let ghost all = seq_views(lines@);
                let mut i: usize = 0;
                proof {
                    assert(all.skip(0) =~= all);
                }
                while i < lines.len()
                    invariant
                        i <= lines@.len(),
                        all == seq_views(lines@),
                        opt_view(*username) == Option::Some(user@),
                        lines_view(*database) == Option::Some(all),
                        passwd_shell_spec(all, user@) == passwd_shell_spec(
                            all.skip(i as int),
                            user@,
                        ),
                    decreases lines@.len() - i,
                {
                    proof {
                        assert(all.skip(i as int)[0] == lines@[i as int]@);
                        assert(all.skip(i as int).drop_first() =~= all.skip(i as int + 1));
                    }
                    let fields = split_on(lines[i].as_str(), ':');
                    proof {
                        lemma_split_rec_len(lines@[i as int]@, ':', Seq::<char>::empty());
                        assert(seq_views(fields@)[0] == fields@[0]@);
                    }
                    if *user == fields[0] {
                        proof {
                            assert(seq_views(fields@) == split_all(all.skip(i as int)[0], ':'));
                        }
                        if fields.len() >= 7 {
                            proof {
                                assert(seq_views(fields@)[6] == fields@[6]@);
                                assert(passwd_shell_spec(all.skip(i as int), user@)
                                    == Option::Some(fields@[6 as int]@));
                                assert(passwd_shell_spec(all, user@)
                                    == Option::Some(fields@[6 as int]@));
                            }
                            return Option::Some(fields[6].clone());
                        } else {
                            proof {
                                assert(passwd_shell_spec(all.skip(i as int), user@)
                                    == Option::<Seq<char>>::None);
                            }
                            return Option::None;
                        }
                    }
                    i += 1;
                }
                proof {
                    assert(all.skip(lines@.len() as int) =~= Seq::<Seq<char>>::empty());
                }
                Option::None
            },
        },
    }
}

/// Extracts the user's shell from a directory-service answer. Yields nothing
/// when the username is unresolved or the command could not be run at all.
pub fn shell_from_directory_service(username: &Option<String>, query: &Option<CommandOutcome>) -> (
    r: Option<String>)
    ensures
        opt_view(r) == match (opt_view(*username), outcome_view(*query)) {
            (Option::Some(_), Option::Some(q)) => dscl_shell_spec(q.0, q.1),
            _ => Option::<Seq<char>>::None,
        },
{
    match username.as_ref() {
        Option::None => Option::None,
        Option::Some(_) => match query.as_ref() {
            Option::None => Option::None,
            Option::Some(out) => {
                if out.success && starts_with_prefix(out.stdout.as_str(), "UserShell: ") {
                    let toks = split_tokens(out.stdout.as_str());
                    if toks.len() >= 2 {
                        proof {
                            assert(seq_views(toks@)[1] == toks@[1]@);
                        }
                        Option::Some(toks[1].clone())
                    } else {
                        Option::None
                    }
                } else {
                    Option::None
                }
            },
        },
    }
}

/// The whole fallback chain as a function of its possible sources: the
/// environment preference wins verbatim; otherwise the macOS family asks the
/// directory service and every other family scans the user database. The
/// branch not taken on a family is never a further fallback.
pub open spec fn select_shell_spec(
    family: HostFamily,
    env_shell: Option<Seq<char>>,
    username: Option<Seq<char>>,
    database: Option<Seq<Seq<char>>>,
    query: Option<(bool, Seq<char>)>,
) -> Option<Seq<char>> {
    if env_shell is Some {
        env_shell
    } else if family == HostFamily::MacOs {
        match (username, query) {
            (Option::Some(_), Option::Some(q)) => dscl_shell_spec(q.0, q.1),
            _ => Option::<Seq<char>>::None,
        }
    } else {
        match (username, database) {
            (Option::Some(u), Option::Some(lines)) => passwd_shell_spec(lines, u),
            _ => Option::<Seq<char>>::None,
        }
    }
}

/// Selects the user's shell from the sources the embedding program gathered,
/// in strict priority order. An environment preference is returned exactly
/// as given, without validation.
pub fn select_shell(
    family: HostFamily,
    env_shell: &Option<String>,
    username: &Option<String>,
    database: &Option<Vec<String>>,
    query: &Option<CommandOutcome>,
) -> (r: Option<String>)
    ensures
        opt_view(r) == select_shell_spec(
            family,
            opt_view(*env_shell),
            opt_view(*username),
            lines_view(*database),
            outcome_view(*query),
        ),
        env_shell is Some ==> opt_view(r) == opt_view(*env_shell),
{
    match env_shell.as_ref() {
        Option::Some(s) => Option::Some(s.clone()),
        Option::None => {
            if family == HostFamily::MacOs {
                shell_from_directory_service(username, query)
            } else {
                shell_from_user_database(username, database)
            }
        },
    }
}

} // verus!
