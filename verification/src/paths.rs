//! Lexical path canonicalization with a home-directory shorthand.
//!
//! A path is modelled as its sequence of non-empty segments plus an
//! absolute/relative marker. A single leading `~` segment stands for the
//! current user's home directory; `.` and `..` segments are resolved purely
//! lexically, without consulting the filesystem. The result is always an
//! absolute path: a relative input is first prefixed with the current working
//! directory.

use vstd::prelude::*;

use crate::text::{seg_is_char, seg_is_parent, opt_view, seq_views};

use path_absolutize::Absolutize;

verus! {

/// The two ways path resolution can fail: an empty input path, or a path
/// whose leading `~` needs the home directory when none can be resolved.
#[derive(Clone, Copy, Debug, PartialEq, Eq, Structural)]
pub enum PathError {
    InvalidInput,
    NotFound,
}

/// The character view of a path-resolution result.
pub open spec fn res_view(r: Result<String, PathError>) -> Result<Seq<char>, PathError> {
    match r {
        Result::Ok(s) => Result::Ok(s@),
        Result::Err(e) => Result::Err(e),
    }
}

/// The non-empty segments of `s` between `/` separators, with `cur` the
/// segment read so far.
pub open spec fn segs_rec(s: Seq<char>, cur: Seq<char>) -> Seq<Seq<char>>
    decreases s.len(),
{
    if s.len() == 0 {
        if cur.len() == 0 {
            Seq::empty()
        } else {
            seq![cur]
        }
    } else if s[0] == '/' {
        let rest = segs_rec(s.drop_first(), Seq::empty());
        if cur.len() == 0 {
            rest
        } else {
            seq![cur] + rest
        }
    } else {
        segs_rec(s.drop_first(), cur.push(s[0]))
    }
}

/// The segments of a path string: the non-empty chunks between `/`
/// separators. Redundant separators therefore collapse.
pub open spec fn segments_of(s: Seq<char>) -> Seq<Seq<char>> {
    segs_rec(s, Seq::empty())
}

/// Lexical resolution of `.` and `..`: `.` is dropped, `..` pops the last
/// segment already resolved (a no-op at the root), and any other segment is
/// kept. `acc` holds the segments resolved so far.
pub open spec fn resolve_rec(segs: Seq<Seq<char>>, acc: Seq<Seq<char>>) -> Seq<Seq<char>>
    decreases segs.len(),
{
    if segs.len() == 0 {
        acc
    } else {
        let h = segs[0];
        let acc2 = if h == seq!['.'] {
            acc
        } else if h == seq!['.', '.'] {
            if acc.len() == 0 {
                acc
            } else {
                acc.drop_last()
            }
        } else {
            acc.push(h)
        };
        resolve_rec(segs.drop_first(), acc2)
    }
}

/// The text of an absolute path with the given segments: each segment
/// preceded by `/`.
pub open spec fn render_rec(segs: Seq<Seq<char>>) -> Seq<char>
    decreases segs.len(),
{
    if segs.len() == 0 {
        Seq::empty()
    } else {
        seq!['/'] + segs[0] + render_rec(segs.drop_first())
    }
}

/// The text of an absolute path: `/` alone when there are no segments.
pub open spec fn render_abs(segs: Seq<Seq<char>>) -> Seq<char> {
    if segs.len() == 0 {
        seq!['/']
    } else {
        render_rec(segs)
    }
}

/// The absolute canonical path for the given segments: a relative path is
/// first prefixed with the working directory, then `.` and `..` are resolved
/// lexically and the result rendered with single separators.
pub open spec fn make_absolute(abs: bool, segs: Seq<Seq<char>>, cwd: Seq<char>) -> Seq<char> {
    if abs {
        render_abs(resolve_rec(segs, Seq::empty()))
    } else {
        render_abs(resolve_rec(segments_of(cwd) + segs, Seq::empty()))
    }
}

/// What canonicalizing the path string `input` returns, as a function of the
/// home directory (if one can be resolved) and the working directory.
///
/// An empty input is rejected. A single leading `~` segment of a relative
/// input is replaced by the home directory — required to be resolvable — and
/// the remaining segments are appended unchanged. A `~` anywhere else, or as
/// a prefix of a longer segment, is left untouched.
pub open spec fn absolutize_spec(input: Seq<char>, home: Option<Seq<char>>, cwd: Seq<char>) -> Result<
    Seq<char>,
    PathError,
> {
    if input.len() == 0 {
        Result::Err(PathError::InvalidInput)
    } else {
        let abs = input[0] == '/';
        let segs = segments_of(input);
        if !abs && segs.len() > 0 && segs[0] == seq!['~'] {
            match home {
                Option::None => Result::Err(PathError::NotFound),
                Option::Some(h) => Result::Ok(
                    make_absolute(h.len() > 0 && h[0] == '/', segments_of(h) + segs.drop_first(), cwd),
                ),
            }
        } else {
            Result::Ok(make_absolute(abs, segs, cwd))
        }
    }
}

/// Splits a path string into its non-empty segments.
pub fn split_segments(s: &str) -> (r: Vec<String>)
    ensures
        seq_views(r@) == segments_of(s@),
{
    let n = s.unicode_len();
    let mut out: Vec<String> = Vec::new();
    let mut cur: String = String::new();
    let mut i: usize = 0;
    proof {
        assert(s@.skip(0) =~= s@);
        assert(seq_views(out@) =~= Seq::<Seq<char>>::empty());
        assert(seq_views(out@) + segs_rec(s@.skip(0), cur@) =~= segments_of(s@));
    }
    while i < n
        invariant
            n == s@.len(),
            i <= n,
            segments_of(s@) == seq_views(out@) + segs_rec(s@.skip(i as int), cur@),
        decreases n - i,
    {
        let c = s.get_char(i);
        proof {
            assert(s@.skip(i as int)[0] == s@[i as int]);
            assert(s@.skip(i as int).drop_first() =~= s@.skip(i as int + 1));
        }
        if c == '/' {
            if cur.as_str().is_empty() {
                proof {
                    assert(cur@ =~= Seq::<char>::empty());
                }
            } else {
                let ghost old_out = out@;
                let ghost old_cur = cur@;
                out.push(cur);
                cur = String::new();
                proof {
                    assert(seq_views(out@) =~= seq_views(old_out).push(old_cur));
                    assert(seq_views(old_out) + (seq![old_cur] + segs_rec(
                        s@.skip(i as int + 1),
                        Seq::empty(),
                    )) =~= seq_views(out@) + segs_rec(s@.skip(i as int + 1), cur@));
                }
            }
        } else {
            cur.push(c);
        }
        i += 1;
    }
    proof {
        assert(s@.skip(n as int) =~= Seq::<char>::empty());
    }
    if cur.as_str().is_empty() {
        proof {
            assert(cur@ =~= Seq::<char>::empty());
            assert(seq_views(out@) + segs_rec(s@.skip(n as int), cur@) =~= seq_views(out@));
        }
        out
    } else {
        let ghost old_out = out@;
        let ghost old_cur = cur@;
        out.push(cur);
        proof {
            assert(seq_views(out@) =~= seq_views(old_out).push(old_cur));
            assert(seq_views(old_out) + seq![old_cur] =~= seq_views(old_out).push(old_cur));
        }
        out
    }
}

/// Resolves `.` and `..` segments lexically, starting from an empty stack.
fn resolve_all(segs: Vec<String>) -> (r: Vec<String>)
    ensures
        seq_views(r@) == resolve_rec(seq_views(segs@), Seq::empty()),
{
    let mut acc: Vec<String> = Vec::new();
    let mut i: usize = 0;
    proof {
        assert(seq_views(segs@).skip(0) =~= seq_views(segs@));
        assert(seq_views(acc@) =~= Seq::<Seq<char>>::empty());
    }
    while i < segs.len()
        invariant
            i <= segs.len(),
            resolve_rec(seq_views(segs@), Seq::empty()) == resolve_rec(
                seq_views(segs@).skip(i as int),
                seq_views(acc@),
            ),
        decreases segs.len() - i,
    {
        proof {
            assert(seq_views(segs@).skip(i as int)[0] == seq_views(segs@)[i as int]);
            assert(seq_views(segs@)[i as int] == segs@[i as int]@);
            assert(seq_views(segs@).skip(i as int).drop_first() =~= seq_views(segs@).skip(
                i as int + 1,
            ));
        }
        let is_dot = seg_is_char(&segs[i], '.');
        let is_parent = seg_is_parent(&segs[i]);
        if is_dot {
        } else if is_parent {
            if acc.len() > 0 {
                let ghost old_acc = acc@;
                acc.pop();
                proof {
                    assert(seq_views(acc@) =~= seq_views(old_acc).drop_last());
                }
            }
        } else {
            let ghost old_acc = acc@;
            acc.push(segs[i].clone());
            proof {
                assert(seq_views(acc@) =~= seq_views(old_acc).push(segs@[i as int]@));
            }
        }
        i += 1;
    }
    proof {
        assert(seq_views(segs@).skip(segs@.len() as int) =~= Seq::<Seq<char>>::empty());
    }
    acc
}

/// Renders segments as an absolute path string.
fn render_absolute(segs: &Vec<String>) -> (r: String)
    ensures
        r@ == render_abs(seq_views(segs@)),
{
    if segs.len() == 0 {
        let mut out = String::new();
        out.push('/');
        proof {
            assert(seq_views(segs@) =~= Seq::<Seq<char>>::empty());
            assert(out@ =~= seq!['/']);
        }
        return out;
    }
    let mut out = String::new();
    let mut i: usize = 0;
    proof {
        assert(seq_views(segs@).skip(0) =~= seq_views(segs@));
        assert(out@ + render_rec(seq_views(segs@)) =~= render_rec(seq_views(segs@)));
    }
    while i < segs.len()
        invariant
            i <= segs.len(),
            render_rec(seq_views(segs@)) == out@ + render_rec(seq_views(segs@).skip(i as int)),
        decreases segs.len() - i,
    {
        proof {
            assert(seq_views(segs@).skip(i as int)[0] == segs@[i as int]@);
            assert(seq_views(segs@).skip(i as int).drop_first() =~= seq_views(segs@).skip(
                i as int + 1,
            ));
        }
        let ghost old_out = out@;
        out.push('/');
        out.append(segs[i].as_str());
        proof {
            assert(out@ =~= old_out + seq!['/'] + segs@[i as int]@);
            assert(old_out + (seq!['/'] + segs@[i as int]@ + render_rec(
                seq_views(segs@).skip(i as int + 1),
            )) =~= out@ + render_rec(seq_views(segs@).skip(i as int + 1)));
        }
        i += 1;
    }
    proof {
        assert(seq_views(segs@).skip(segs@.len() as int) =~= Seq::<Seq<char>>::empty());
        assert(out@ + render_rec(Seq::<Seq<char>>::empty()) =~= out@);
    }
    out
}

/// Appends clones of `src[from..]` to `dst`.
fn append_from(dst: &mut Vec<String>, src: &Vec<String>, from: usize)
    requires
        from <= src@.len(),
    ensures
        seq_views(final(dst)@) == seq_views(old(dst)@) + seq_views(src@).skip(from as int),
{
    let mut j: usize = from;
    proof {
        assert(seq_views(dst@) + seq_views(src@).subrange(from as int, from as int) =~= seq_views(
            dst@,
        ));
    }
    while j < src.len()
        invariant
            from <= j <= src@.len(),
            seq_views(dst@) == seq_views(old(dst)@) + seq_views(src@).subrange(
                from as int,
                j as int,
            ),
        decreases src@.len() - j,
    {
        let ghost old_dst = dst@;
        dst.push(src[j].clone());
        proof {
            assert(seq_views(dst@) =~= seq_views(old_dst).push(src@[j as int]@));
            assert(seq_views(src@).subrange(from as int, j as int + 1) =~= seq_views(src@).subrange(
                from as int,
                j as int,
            ).push(src@[j as int]@));
            assert(seq_views(old(dst)@) + seq_views(src@).subrange(from as int, j as int + 1)
                =~= seq_views(old_dst).push(src@[j as int]@));
        }
        j += 1;
    }
    proof {
        assert(seq_views(src@).subrange(from as int, src@.len() as int) =~= seq_views(src@).skip(
            from as int,
        ));
    }
}

/// Canonicalizes already-split segments: prefixes the working directory when
/// the path is relative, then resolves dots and renders.
fn make_absolute_exec(abs: bool, segs: Vec<String>, cwd: &str) -> (r: String)
    ensures
        r@ == make_absolute(abs, seq_views(segs@), cwd@),
{
    if abs {
        let resolved = resolve_all(segs);
        render_absolute(&resolved)
    } else {
        let mut full = split_segments(cwd);
        append_from(&mut full, &segs, 0);
        proof {
            assert(seq_views(segs@).skip(0) =~= seq_views(segs@));
        }
        let resolved = resolve_all(full);
        render_absolute(&resolved)
    }
}

/// Relies on `dirs::home_dir`: it returns the current user's home directory
/// when one can be resolved from the host environment, and `None` otherwise.
/// The result depends on the environment, so nothing is promised of it.
#[verifier::external_body]
fn host_home_dir() -> (r: Option<String>) {
    dirs::home_dir().map(|p| p.to_string_lossy().into_owned())
}

/// Relies on `path_absolutize::Absolutize::absolutize`: a relative path is
/// resolved against the process's current working directory, so absolutizing
/// `.` yields that directory; `None` when it cannot be read. The result
/// depends on the environment, so nothing is promised of it.
#[verifier::external_body]
fn host_working_dir() -> (r: Option<String>) {
    std::path::Path::new(".").absolutize().ok().map(|p| p.to_string_lossy().into_owned())
}

/// Canonicalizes `path` against the given home and working directories: the
/// result is exactly `absolutize_spec` of the three values.
pub fn absolutize_with(path: &str, home: &Option<String>, cwd: &str) -> (r: Result<
    String,
    PathError,
>)
    ensures
        res_view(r) == absolutize_spec(path@, opt_view(*home), cwd@),
{
    let n = path.unicode_len();
    if n == 0 {
        return Result::Err(PathError::InvalidInput);
    }
    let abs = path.get_char(0) == '/';
    let segs = split_segments(path);
    let tilde = !abs && segs.len() > 0 && seg_is_char(&segs[0], '~');
    if tilde {
        match home {
            Option::None => Result::Err(PathError::NotFound),
            Option::Some(h) => {
                let hn = h.as_str().unicode_len();
                let habs = hn > 0 && h.as_str().get_char(0) == '/';
                let mut full = split_segments(h.as_str());
                append_from(&mut full, &segs, 1);
                proof {
                    assert(seq_views(segs@).skip(1) =~= seq_views(segs@).drop_first());
                    assert(seq_views(segs@).drop_first() =~= segments_of(path@).drop_first());
                }
                Result::Ok(make_absolute_exec(habs, full, cwd))
            },
        }
    } else {
        Result::Ok(make_absolute_exec(abs, segs, cwd))
    }
}

/// Canonicalizes `path` against the host's home and working directories.
///
/// Exactly the empty input is rejected as `InvalidInput`. An absolute input
/// never consults the home or working directory, and its result is pinned
/// exactly. `NotFound` reports a leading `~` whose home directory cannot be
/// resolved — and, beyond the two failures the resolver itself defines, a
/// working directory that is needed but cannot be read. Every success is an
/// `absolutize_spec` value for some home and working directory.
pub fn absolutize_path(path: &str) -> (r: Result<String, PathError>)
    ensures
        (path@.len() == 0) <==> (r == Result::<String, PathError>::Err(PathError::InvalidInput)),
        path@.len() > 0 && path@[0] == '/' ==> res_view(r) == Result::<Seq<char>, PathError>::Ok(
            render_abs(resolve_rec(segments_of(path@), Seq::empty())),
        ),
        r is Ok ==> exists|home: Option<Seq<char>>, cwd: Seq<char>|
            res_view(r) == absolutize_spec(path@, home, cwd),
{
    let n = path.unicode_len();
    if n == 0 {
        return Result::Err(PathError::InvalidInput);
    }
    let abs = path.get_char(0) == '/';
    let segs = split_segments(path);
    let tilde = !abs && segs.len() > 0 && seg_is_char(&segs[0], '~');
    let home: Option<String> = if tilde {
        match host_home_dir() {
            Option::None => {
                return Result::Err(PathError::NotFound);
            },
            Option::Some(h) => Option::Some(h),
        }
    } else {
        Option::None
    };
    let needs_cwd = if tilde {
        match &home {
            Option::Some(h) => !(h.as_str().unicode_len() > 0 && h.as_str().get_char(0) == '/'),
            Option::None => false,
        }
    } else {
        !abs
    };
    let cwd: String = if needs_cwd {
        match host_working_dir() {
            Option::None => {
                return Result::Err(PathError::NotFound);
            },
            Option::Some(c) => c,
        }
    } else {
        String::new()
    };
    let r = absolutize_with(path, &home, cwd.as_str());
    proof {
        assert(res_view(r) == absolutize_spec(path@, opt_view(home), cwd@));
    }
    r
}

/// A `..` segment cancels the ordinary segment just before it: lexical
/// parent resolution, with no filesystem entry required to exist.
pub proof fn lemma_parent_cancels(x: Seq<char>, rest: Seq<Seq<char>>, acc: Seq<Seq<char>>)
    requires
        x != seq!['.'],
        x != seq!['.', '.'],
    ensures
        resolve_rec(seq![x, seq!['.', '.']] + rest, acc) == resolve_rec(rest, acc),
{
    let s = seq![x, seq!['.', '.']] + rest;
    assert(s[0] == x);
    let s1 = seq![seq!['.', '.']] + rest;
    assert(s.drop_first() =~= s1);
    assert(s1[0] == seq!['.', '.']);
    assert(s1.drop_first() =~= rest);
    assert(acc.push(x).drop_last() =~= acc);
    assert(resolve_rec(s, acc) == resolve_rec(s1, acc.push(x)));
    assert(resolve_rec(s1, acc.push(x)) == resolve_rec(rest, acc));
}

/// A bare `~` resolves to exactly the home directory, canonicalized — for
/// every home value and every working directory.
pub proof fn lemma_tilde_is_home(h: Seq<char>, cwd: Seq<char>)
    ensures
        absolutize_spec(seq!['~'], Option::Some(h), cwd) == Result::<Seq<char>, PathError>::Ok(
            make_absolute(h.len() > 0 && h[0] == '/', segments_of(h), cwd),
        ),
{
    let input = seq!['~'];
    assert(input[0] == '~');
    assert(input.drop_first() =~= Seq::<char>::empty());
    assert(Seq::<char>::empty().push('~') =~= seq!['~']);
    assert(segs_rec(Seq::<char>::empty(), seq!['~']) == seq![seq!['~']]);
    assert(segments_of(input) == seq![seq!['~']]);
    assert(segments_of(input)[0] == seq!['~']);
    assert(segments_of(input).drop_first() =~= Seq::<Seq<char>>::empty());
    assert(segments_of(h) + segments_of(input).drop_first() =~= segments_of(h));
}

/// On segments free of `.` and `..`, lexical resolution changes nothing: it
/// appends them as they stand.
pub proof fn lemma_resolve_plain(segs: Seq<Seq<char>>, acc: Seq<Seq<char>>)
    requires
        forall|i: int|
            0 <= i < segs.len() ==> segs[i] != seq!['.'] && segs[i] != seq!['.', '.'],
    ensures
        resolve_rec(segs, acc) == acc + segs,
    decreases segs.len(),
{
    if segs.len() == 0 {
        assert(acc + segs =~= acc);
    } else {
        lemma_resolve_plain(segs.drop_first(), acc.push(segs[0]));
        assert(acc.push(segs[0]) + segs.drop_first() =~= acc + segs);
    }
}

/// Rendering after appending one segment appends `/` and that segment to the
/// rendered text.
pub proof fn lemma_render_append(segs: Seq<Seq<char>>, x: Seq<char>)
    ensures
        render_rec(segs.push(x)) == render_rec(segs) + seq!['/'] + x,
    decreases segs.len(),
{
    if segs.len() == 0 {
        assert(segs.push(x)[0] == x);
        assert(segs.push(x).drop_first() =~= Seq::<Seq<char>>::empty());
        assert(seq!['/'] + x + render_rec(Seq::<Seq<char>>::empty()) =~= seq!['/'] + x);
        assert(render_rec(segs) + seq!['/'] + x =~= seq!['/'] + x);
    } else {
        lemma_render_append(segs.drop_first(), x);
        assert(segs.push(x)[0] == segs[0]);
        assert(segs.push(x).drop_first() =~= segs.drop_first().push(x));
        assert(seq!['/'] + segs[0] + (render_rec(segs.drop_first()) + seq!['/'] + x) =~= (seq![
            '/',
        ] + segs[0] + render_rec(segs.drop_first())) + seq!['/'] + x);
    }
}

/// Joining one ordinary segment under the home directory: with the home
/// directory's segments already canonical, the result is the home
/// directory's text followed by `/` and the new segment.
pub proof fn lemma_join_segment(home_segs: Seq<Seq<char>>, x: Seq<char>)
    requires
        forall|i: int|
            0 <= i < home_segs.len() ==> home_segs[i] != seq!['.'] && home_segs[i] != seq![
                '.',
                '.',
            ],
        x != seq!['.'],
        x != seq!['.', '.'],
    ensures
        render_abs(resolve_rec(home_segs.push(x), Seq::empty())) == render_rec(home_segs) + seq![
            '/',
        ] + x,
{
    lemma_resolve_plain(home_segs.push(x), Seq::empty());
    assert(Seq::<Seq<char>>::empty() + home_segs.push(x) =~= home_segs.push(x));
    lemma_render_append(home_segs, x);
}

/// A run of characters without a separator forms a single segment, appended
/// to whatever was already read.
pub proof fn lemma_segs_rec_plain(x: Seq<char>, cur: Seq<char>)
    requires
        forall|i: int| 0 <= i < x.len() ==> x[i] != '/',
        cur.len() + x.len() > 0,
    ensures
        segs_rec(x, cur) == seq![cur + x],
    decreases x.len(),
{
    if x.len() == 0 {
        assert(cur + x =~= cur);
    } else {
        lemma_segs_rec_plain(x.drop_first(), cur.push(x[0]));
        assert(cur.push(x[0]) + x.drop_first() =~= cur + x);
    }
}

/// A bare `~` resolves to exactly the home directory when that directory is
/// already in canonical absolute form — whatever the working directory.
pub proof fn lemma_tilde_exact(h: Seq<char>, cwd: Seq<char>)
    requires
        h.len() > 0 && h[0] == '/',
        forall|i: int|
            0 <= i < segments_of(h).len() ==> segments_of(h)[i] != seq!['.'] && segments_of(
                h,
            )[i] != seq!['.', '.'],
        h == render_abs(segments_of(h)),
    ensures
        absolutize_spec(seq!['~'], Option::Some(h), cwd) == Result::<Seq<char>, PathError>::Ok(h),
{
    lemma_tilde_is_home(h, cwd);
    lemma_resolve_plain(segments_of(h), Seq::empty());
    assert(Seq::<Seq<char>>::empty() + segments_of(h) =~= segments_of(h));
}

/// A relative path of a bare `~` followed by one ordinary segment resolves
/// to the home directory — canonical and absolute — joined with that
/// segment, whatever the working directory.
pub proof fn lemma_tilde_join(x: Seq<char>, h: Seq<char>, cwd: Seq<char>)
    requires
        x.len() > 0,
        forall|i: int| 0 <= i < x.len() ==> x[i] != '/',
        x != seq!['.'],
        x != seq!['.', '.'],
        h.len() > 0 && h[0] == '/',
        forall|i: int|
            0 <= i < segments_of(h).len() ==> segments_of(h)[i] != seq!['.'] && segments_of(
                h,
            )[i] != seq!['.', '.'],
    ensures
        absolutize_spec(seq!['~', '/'] + x, Option::Some(h), cwd) == Result::<
            Seq<char>,
            PathError,
        >::Ok(render_rec(segments_of(h)) + seq!['/'] + x),
{
    let input = seq!['~', '/'] + x;
    assert(input.len() == 2 + x.len());
    assert(input[0] == '~');
    // The segments of "~/" followed by one plain segment are `~` and that segment.
    assert(input.drop_first() =~= seq!['/'] + x);
    assert((seq!['/'] + x)[0] == '/');
    assert((seq!['/'] + x).drop_first() =~= x);
    assert(Seq::<char>::empty().push('~') =~= seq!['~']);
    lemma_segs_rec_plain(x, Seq::empty());
    assert(Seq::<char>::empty() + x =~= x);
    assert(segs_rec(seq!['/'] + x, seq!['~']) == seq![seq!['~']] + seq![x]);
    assert(segments_of(input) == seq![seq!['~']] + seq![x]);
    assert(segments_of(input).len() == 2);
    assert(segments_of(input)[0] == seq!['~']);
    assert(segments_of(input).drop_first() =~= seq![x]);
    assert(segments_of(h) + seq![x] =~= segments_of(h).push(x));
    lemma_join_segment(segments_of(h), x);
}

/// A path that is absolute, or whose first segment is anything but exactly
/// `~`, gets no home substitution: its result is the same whatever the home
/// directory is.
pub proof fn lemma_no_home_substitution(
    input: Seq<char>,
    h1: Option<Seq<char>>,
    h2: Option<Seq<char>>,
    cwd: Seq<char>,
)
    requires
        input.len() > 0,
        input[0] == '/' || !(segments_of(input).len() > 0 && segments_of(input)[0] == seq!['~']),
    ensures
        absolutize_spec(input, h1, cwd) == absolutize_spec(input, h2, cwd),
{
}

} // verus!
