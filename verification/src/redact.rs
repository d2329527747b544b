use vstd::prelude::*;

use crate::text::{
    ascii_lower, chars_of, clean, clean_prefix, first_index, first_index_of, has_suffix,
    lemma_first_index, lemma_first_index_bounds, prefix_of, suffix_matches, trim_end,
    trim_end_len,
};

verus! {

/// The pieces of `s` between single spaces, in order; there is always at least one.
pub open spec fn split_on_space(s: Seq<char>) -> Seq<Seq<char>>
    decreases s.len(),
{
    if s.len() == 0 {
        seq![Seq::<char>::empty()]
    } else {
        let p = split_on_space(s.drop_last());
        if s.last() == ' ' {
            p.push(Seq::<char>::empty())
        } else {
            p.update(p.len() - 1, p.last().push(s.last()))
        }
    }
}

/// Each piece followed by a space.
pub open spec fn spaced(ts: Seq<Seq<char>>) -> Seq<char>
    decreases ts.len(),
{
    if ts.len() == 0 {
        Seq::<char>::empty()
    } else {
        spaced(ts.drop_last()) + ts.last() + seq![' ']
    }
}

/// The pieces joined with single spaces.
pub open spec fn join_spaces(ts: Seq<Seq<char>>) -> Seq<char> {
    if ts.len() == 0 {
        Seq::<char>::empty()
    } else {
        spaced(ts.drop_last()) + ts.last()
    }
}

/// What stands in place of a hidden value.
pub open spec fn mask() -> Seq<char> {
    seq!['*', '*', '*']
}

/// The part of a `KEY=VALUE` token before its first `=`.
pub open spec fn key_part(t: Seq<char>) -> Seq<char> {
    t.take(first_index(t, '=') as int)
}

/// Whether `t` holds a `=`.
pub open spec fn has_assignment(t: Seq<char>) -> bool {
    first_index(t, '=') < t.len()
}

/// A key is sensitive when, lower-cased and without `_` and `-`, it ends with one
/// of the words that name secrets.
pub open spec fn sensitive(k: Seq<char>) -> bool {
    let n = clean(k);
    ||| has_suffix(n, "token"@)
    ||| has_suffix(n, "secret"@)
    ||| has_suffix(n, "password"@)
    ||| has_suffix(n, "passwd"@)
    ||| has_suffix(n, "apikey"@)
    ||| has_suffix(n, "auth"@)
}

/// A token that starts with `--`.
pub open spec fn is_long_flag(t: Seq<char>) -> bool {
    t.len() >= 2 && t[0] == '-' && t[1] == '-'
}

/// One token through the redactor: `hide_next` says the previous sensitive flag is
/// still waiting for its value. Gives the token written out and the new `hide_next`.
pub open spec fn redact_step(t: Seq<char>, hide_next: bool) -> (Seq<char>, bool) {
    if hide_next && t.len() > 0 {
        (mask(), false)
    } else if has_assignment(t) && sensitive(key_part(t)) {
        (key_part(t) + seq!['='] + mask(), hide_next)
    } else if is_long_flag(t) && sensitive(t) {
        (t, true)
    } else {
        (t, hide_next)
    }
}

/// The tokens through the redactor from left to right, with the final `hide_next`.
pub open spec fn redact_scan(ts: Seq<Seq<char>>) -> (Seq<Seq<char>>, bool)
    decreases ts.len(),
{
    if ts.len() == 0 {
        (Seq::<Seq<char>>::empty(), false)
    } else {
        let prev = redact_scan(ts.drop_last());
        let step = redact_step(ts.last(), prev.1);
        (prev.0.push(step.0), step.1)
    }
}

/// The redacted form of a line: its space-separated tokens through the redactor,
/// joined again with single spaces.
pub open spec fn redact_line(s: Seq<char>) -> Seq<char> {
    join_spaces(redact_scan(split_on_space(s)).0)
}

pub proof fn lemma_split_nonempty(s: Seq<char>)
    ensures
        split_on_space(s).len() >= 1,
    decreases s.len(),
{
    if s.len() > 0 {
        lemma_split_nonempty(s.drop_last());
    }
}

proof fn lemma_scan_len(ts: Seq<Seq<char>>)
    ensures
        redact_scan(ts).0.len() == ts.len(),
    decreases ts.len(),
{
    if ts.len() > 0 {
        lemma_scan_len(ts.drop_last());
    }
}

/// One token through the redactor (see `redact_step`).
fn redact_token(t: &Vec<char>, hide_next: bool) -> (r: (Vec<char>, bool))
    ensures
        (r.0@, r.1) == redact_step(t@, hide_next),
{
    if hide_next && t.len() > 0 {
        let mut m: Vec<char> = Vec::new();
        m.push('*');
        m.push('*');
        m.push('*');
        assert(m@ == mask());
        return (m, false);
    }
    let eq = first_index_of(t, '=');
    if eq < t.len() && key_is_sensitive(t, eq) {
        let mut out: Vec<char> = Vec::new();
        for i in 0..eq
            invariant
                eq <= t.len(),
                out@ == t@.take(i as int),
        {
            out.push(t[i]);
            assert(t@.take(i + 1) == t@.take(i as int).push(t@[i as int]));
        }
        out.push('=');
        out.push('*');
        out.push('*');
        out.push('*');
        assert(out@ == key_part(t@) + seq!['='] + mask());
        return (out, hide_next);
    }
    let flag = t.len() >= 2 && t[0] == '-' && t[1] == '-';
    if flag && key_is_sensitive(t, t.len()) {
        assert(t@.take(t@.len() as int) == t@);
        return (t.clone(), true);
    }
    if flag {
        assert(t@.take(t@.len() as int) == t@);
    }
    (t.clone(), hide_next)
}

/// Whether the first `n` characters of `t` form a sensitive key.
fn key_is_sensitive(t: &Vec<char>, n: usize) -> (r: bool)
    requires
        n <= t@.len(),
    ensures
        r == sensitive(t@.take(n as int)),
{
    let c = clean_prefix(t, n);
    suffix_matches(&c, "token") || suffix_matches(&c, "secret") || suffix_matches(&c, "password")
        || suffix_matches(&c, "passwd") || suffix_matches(&c, "apikey") || suffix_matches(&c, "auth")
}

/// Masks `KEY=VALUE` and `--flag VALUE` for sensitive keys so that secrets written
/// inline in commands or in their output do not reach the log.
pub fn redact(line: &str) -> (out: String)
    ensures
        out@ == redact_line(line@),
{
    let chars = chars_of(line);
    redact_chars(&chars)
}

/// `redact` on a line given as its characters.
pub fn redact_chars(chars: &Vec<char>) -> (out: String)
    ensures
        out@ == redact_line(chars@),
{
    let ghost line = chars@;
    let mut out = String::new();
    let mut cur: Vec<char> = Vec::new();
    let mut hide_next = false;
    let ghost mut done: Seq<Seq<char>> = Seq::empty();
    for i in 0..chars.len()
        invariant
            chars@ == line,
            split_on_space(line.take(i as int)) == done.push(cur@),
            redact_scan(done).1 == hide_next,
            out@ == spaced(redact_scan(done).0),
    {
        let c = chars[i];
        assert(line.take(i + 1).drop_last() == line.take(i as int));
        if c == ' ' {
            let (t, next) = redact_token(&cur, hide_next);
            for j in 0..t.len()
                invariant
                    out@ == spaced(redact_scan(done).0) + t@.take(j as int),
            {
                out.push(t[j]);
                assert(t@.take(j + 1) == t@.take(j as int).push(t@[j as int]));
            }
            out.push(' ');
            assert(t@.take(t@.len() as int) == t@);
            proof {
                let nd = done.push(cur@);
                assert(nd.drop_last() == done);
                assert(redact_scan(nd).0.drop_last() == redact_scan(done).0);
                done = nd;
            }
            hide_next = next;
            cur = Vec::new();
        } else {
            cur.push(c);
        }
    }
    assert(line.take(chars@.len() as int) == line);
    let (t, _) = redact_token(&cur, hide_next);
    for j in 0..t.len()
        invariant
            out@ == spaced(redact_scan(done).0) + t@.take(j as int),
    {
        out.push(t[j]);
        assert(t@.take(j + 1) == t@.take(j as int).push(t@[j as int]));
    }
    assert(t@.take(t@.len() as int) == t@);
    proof {
        let all = done.push(cur@);
        assert(all.drop_last() == done);
        let r = redact_scan(all).0;
        assert(r.drop_last() == redact_scan(done).0);
    }
    out
}


/// No piece holds a space.
pub open spec fn space_free(ts: Seq<Seq<char>>) -> bool {
    forall|i: int| 0 <= i < ts.len() ==> !(#[trigger] ts[i]).contains(' ')
}

proof fn lemma_split_space_free(s: Seq<char>)
    ensures
        space_free(split_on_space(s)),
    decreases s.len(),
{
    if s.len() > 0 {
        lemma_split_space_free(s.drop_last());
        lemma_split_nonempty(s.drop_last());
        let p = split_on_space(s.drop_last());
        if s.last() != ' ' {
            let q = split_on_space(s);
            assert forall|i: int| 0 <= i < q.len() implies !(#[trigger] q[i]).contains(' ') by {
                if i == p.len() - 1 {
                    if q[i].contains(' ') {
                        let k = choose|k: int| 0 <= k < q[i].len() && q[i][k] == ' ';
                        if k < p.last().len() {
                            assert(p[i][k] == ' ');
                        }
                    }
                } else {
                    assert(q[i] == p[i]);
                }
            }
        }
    }
}

proof fn lemma_join_split(s: Seq<char>)
    ensures
        join_spaces(split_on_space(s)) == s,
    decreases s.len(),
{
    if s.len() > 0 {
        let p = split_on_space(s.drop_last());
        lemma_split_nonempty(s.drop_last());
        lemma_join_split(s.drop_last());
        let q = split_on_space(s);
        if s.last() == ' ' {
            assert(q.drop_last() == p);
            assert(p.drop_last().push(p.last()) == p);
            assert(spaced(p) == spaced(p.drop_last()) + p.last() + seq![' ']);
            assert(s == s.drop_last().push(' '));
        } else {
            assert(q.drop_last() == p.drop_last());
            assert(q.last() == p.last().push(s.last()));
            assert(s == s.drop_last().push(s.last()));
        }
    }
}

proof fn lemma_split_append(x: Seq<char>, t: Seq<char>)
    requires
        !t.contains(' '),
    ensures
        split_on_space(x + t) == split_on_space(x).update(
            split_on_space(x).len() - 1,
            split_on_space(x).last() + t,
        ),
    decreases t.len(),
{
    lemma_split_nonempty(x);
    if t.len() == 0 {
        assert(x + t == x);
        assert(split_on_space(x).last() + t == split_on_space(x).last());
        assert(split_on_space(x).update(split_on_space(x).len() - 1, split_on_space(x).last())
            == split_on_space(x));
    } else {
        let t0 = t.drop_last();
        assert(!t0.contains(' ')) by {
            if t0.contains(' ') {
                let k = choose|k: int| 0 <= k < t0.len() && t0[k] == ' ';
                assert(t[k] == ' ');
            }
        }
        lemma_split_append(x, t0);
        assert((x + t).drop_last() == x + t0);
        assert(t.last() != ' ') by {
            assert(t[t.len() - 1] == t.last());
        }
        assert(split_on_space(x + t0).last() == split_on_space(x).last() + t0);
        let sx = split_on_space(x);
        let p = split_on_space(x + t0);
        assert((x + t).last() == t.last());
        assert(p.len() == sx.len());
        assert(p.last() == sx.last() + t0);
        assert((sx.last() + t0).push(t.last()) == sx.last() + t);
        assert(p.update(p.len() - 1, p.last().push(t.last())) == sx.update(
            sx.len() - 1,
            sx.last() + t,
        ));
    }
}

proof fn lemma_split_spaced(ts: Seq<Seq<char>>)
    requires
        space_free(ts),
    ensures
        split_on_space(spaced(ts)) == ts.push(Seq::<char>::empty()),
    decreases ts.len(),
{
    if ts.len() > 0 {
        let ts0 = ts.drop_last();
        assert(space_free(ts0)) by {
            assert forall|i: int| 0 <= i < ts0.len() implies !(#[trigger] ts0[i]).contains(' ') by {
                assert(ts0[i] == ts[i]);
            }
        }
        lemma_split_spaced(ts0);
        let t = ts.last();
        assert(!t.contains(' ')) by {
            assert(ts[ts.len() - 1] == t);
        }
        lemma_split_append(spaced(ts0), t);
        let x = spaced(ts0) + t;
        assert(spaced(ts) == x.push(' '));
        assert(x.push(' ').drop_last() == x);
        assert(ts0.push(Seq::<char>::empty()).last() + t == t);
        assert(ts0.push(Seq::<char>::empty()).update(ts0.len() as int, t) == ts);
    }
}

proof fn lemma_split_join(ts: Seq<Seq<char>>)
    requires
        ts.len() >= 1,
        space_free(ts),
    ensures
        split_on_space(join_spaces(ts)) == ts,
{
    let ts0 = ts.drop_last();
    assert(space_free(ts0)) by {
        assert forall|i: int| 0 <= i < ts0.len() implies !(#[trigger] ts0[i]).contains(' ') by {
            assert(ts0[i] == ts[i]);
        }
    }
    lemma_split_spaced(ts0);
    assert(!ts.last().contains(' ')) by {
        assert(ts[ts.len() - 1] == ts.last());
    }
    lemma_split_append(spaced(ts0), ts.last());
    assert(Seq::<char>::empty() + ts.last() == ts.last());
    assert(ts0.push(Seq::<char>::empty()).update(ts0.len() as int, ts.last()) == ts);
}

proof fn lemma_step_space_free(t: Seq<char>, h: bool)
    requires
        !t.contains(' '),
    ensures
        !redact_step(t, h).0.contains(' '),
{
    let x = redact_step(t, h).0;
    if x.contains(' ') {
        let k = choose|k: int| 0 <= k < x.len() && x[k] == ' ';
        if !(h && t.len() > 0) && has_assignment(t) && sensitive(key_part(t)) {
            if k < key_part(t).len() {
                assert(t[k] == ' ');
            }
        }
    }
}

proof fn lemma_scan_space_free(ts: Seq<Seq<char>>)
    requires
        space_free(ts),
    ensures
        space_free(redact_scan(ts).0),
        redact_scan(ts).0.len() == ts.len(),
    decreases ts.len(),
{
    if ts.len() > 0 {
        let ts0 = ts.drop_last();
        assert(space_free(ts0)) by {
            assert forall|i: int| 0 <= i < ts0.len() implies !(#[trigger] ts0[i]).contains(' ') by {
                assert(ts0[i] == ts[i]);
            }
        }
        lemma_scan_space_free(ts0);
        assert(!ts.last().contains(' ')) by {
            assert(ts[ts.len() - 1] == ts.last());
        }
        let prev = redact_scan(ts0);
        lemma_step_space_free(ts.last(), prev.1);
        let o = redact_scan(ts).0;
        assert forall|i: int| 0 <= i < o.len() implies !(#[trigger] o[i]).contains(' ') by {
            if i < ts0.len() {
                assert(o[i] == prev.0[i]);
            }
        }
    }
}

/// A token written out by the redactor comes out the same when redacted again in
/// the same state.
proof fn lemma_step_stable(t: Seq<char>, h: bool)
    ensures
        redact_step(redact_step(t, h).0, h) == redact_step(t, h),
{
    let r = redact_step(t, h);
    if h && t.len() > 0 {
        assert(mask().len() > 0);
    } else if has_assignment(t) && sensitive(key_part(t)) {
        let k = key_part(t);
        let x = k + seq!['='] + mask();
        lemma_first_index_bounds(t, '=');
        assert forall|j: int| 0 <= j < k.len() implies x[j] != '=' by {
            assert(x[j] == t[j]);
        }
        assert(x[k.len() as int] == '=');
        lemma_first_index(x, '=', k.len() as int);
        assert(key_part(x) == k);
    }
}

proof fn lemma_scan_stable(ts: Seq<Seq<char>>)
    ensures
        redact_scan(redact_scan(ts).0) == redact_scan(ts),
    decreases ts.len(),
{
    if ts.len() > 0 {
        let ts0 = ts.drop_last();
        lemma_scan_stable(ts0);
        let prev = redact_scan(ts0);
        lemma_step_stable(ts.last(), prev.1);
        let o = redact_scan(ts).0;
        assert(o.drop_last() == prev.0);
        assert(o.last() == redact_step(ts.last(), prev.1).0);
    }
}

/// The token at `i` comes out of the scan as one step in the state left by the
/// tokens before it.
proof fn lemma_scan_index(ts: Seq<Seq<char>>, i: int)
    requires
        0 <= i < ts.len(),
    ensures
        redact_scan(ts).0.len() == ts.len(),
        redact_scan(ts).0[i] == redact_step(ts[i], redact_scan(ts.take(i)).1).0,
        redact_scan(ts.take(i + 1)).1 == redact_step(ts[i], redact_scan(ts.take(i)).1).1,
    decreases ts.len(),
{
    lemma_scan_len(ts);
    let ts0 = ts.drop_last();
    if i == ts.len() - 1 {
        assert(ts.take(i) == ts0);
        assert(ts.take(i + 1) == ts);
    } else {
        lemma_scan_index(ts0, i);
        assert(ts0.take(i) == ts.take(i));
        assert(ts0.take(i + 1) == ts.take(i + 1));
        assert(ts0[i] == ts[i]);
        lemma_scan_len(ts0);
    }
}

/// The tokens of the redacted line are those of the redactor's scan.
proof fn lemma_tokens_of_redacted(s: Seq<char>)
    ensures
        split_on_space(redact_line(s)) == redact_scan(split_on_space(s)).0,
{
    let ts = split_on_space(s);
    lemma_split_nonempty(s);
    lemma_split_space_free(s);
    lemma_scan_space_free(ts);
    lemma_split_join(redact_scan(ts).0);
}

/// Redacting twice gives what redacting once gives.
pub proof fn law_redact_idempotent(s: Seq<char>)
    ensures
        redact_line(redact_line(s)) == redact_line(s),
{
    lemma_tokens_of_redacted(s);
    lemma_scan_stable(split_on_space(s));
}

/// The redactor keeps the line's space-separated tokens one for one: each comes out
/// unchanged, as the mask, or as its key followed by `=` and the mask.
pub proof fn law_redact_token_for_token(s: Seq<char>)
    ensures
        split_on_space(redact_line(s)).len() == split_on_space(s).len(),
        forall|i: int|
            0 <= i < split_on_space(s).len() ==> {
                let t = #[trigger] split_on_space(s)[i];
                let o = split_on_space(redact_line(s))[i];
                o == t || o == mask() || o == key_part(t) + seq!['='] + mask()
            },
{
    let ts = split_on_space(s);
    lemma_tokens_of_redacted(s);
    lemma_scan_len(ts);
    assert forall|i: int| 0 <= i < ts.len() implies {
        let t = #[trigger] ts[i];
        let o = split_on_space(redact_line(s))[i];
        o == t || o == mask() || o == key_part(t) + seq!['='] + mask()
    } by {
        lemma_scan_index(ts, i);
    }
}

/// Every `KEY=VALUE` token with a sensitive key has its value hidden.
pub proof fn law_redact_hides_assignments(s: Seq<char>)
    ensures
        forall|i: int|
            0 <= i < split_on_space(s).len() && has_assignment(#[trigger] split_on_space(s)[i])
                && sensitive(key_part(split_on_space(s)[i])) ==> {
                let o = split_on_space(redact_line(s))[i];
                o == mask() || o == key_part(split_on_space(s)[i]) + seq!['='] + mask()
            },
{
    let ts = split_on_space(s);
    lemma_tokens_of_redacted(s);
    assert forall|i: int|
        0 <= i < ts.len() && has_assignment(#[trigger] ts[i]) && sensitive(key_part(ts[i])) implies {
        let o = split_on_space(redact_line(s))[i];
        o == mask() || o == key_part(ts[i]) + seq!['='] + mask()
    } by {
        lemma_scan_index(ts, i);
    }
}

/// The token that follows a sensitive `--flag` is hidden when it is not empty
/// (or the flag itself was hidden, as the value of an earlier flag).
pub proof fn law_redact_hides_flag_values(s: Seq<char>)
    ensures
        forall|i: int|
            0 <= i && i + 1 < split_on_space(s).len() && is_long_flag(
                #[trigger] split_on_space(s)[i],
            ) && sensitive(split_on_space(s)[i]) && !(has_assignment(split_on_space(s)[i])
                && sensitive(key_part(split_on_space(s)[i])))
                && split_on_space(s)[i + 1].len() > 0 ==> split_on_space(redact_line(s))[i]
                == mask() || split_on_space(redact_line(s))[i + 1] == mask(),
{
    let ts = split_on_space(s);
    lemma_tokens_of_redacted(s);
    assert forall|i: int|
        0 <= i && i + 1 < ts.len() && is_long_flag(#[trigger] ts[i]) && sensitive(ts[i]) && !(
        has_assignment(ts[i]) && sensitive(key_part(ts[i]))) && ts[i + 1].len() > 0 implies
        split_on_space(redact_line(s))[i] == mask() || split_on_space(redact_line(s))[i + 1]
            == mask() by {
        lemma_scan_index(ts, i);
        lemma_scan_index(ts, i + 1);
    }
}

/// Whether a token makes the redactor change something.
pub open spec fn triggers_redaction(t: Seq<char>) -> bool {
    (has_assignment(t) && sensitive(key_part(t))) || (is_long_flag(t) && sensitive(t))
}

proof fn lemma_scan_untouched(ts: Seq<Seq<char>>)
    requires
        forall|i: int| 0 <= i < ts.len() ==> !triggers_redaction(#[trigger] ts[i]),
    ensures
        redact_scan(ts) == (ts, false),
    decreases ts.len(),
{
    if ts.len() > 0 {
        let ts0 = ts.drop_last();
        assert forall|i: int| 0 <= i < ts0.len() implies !triggers_redaction(#[trigger] ts0[i]) by {
            assert(ts0[i] == ts[i]);
        }
        lemma_scan_untouched(ts0);
        assert(!triggers_redaction(ts[ts.len() - 1]));
        assert(ts0.push(ts.last()) == ts);
    }
}

/// A line none of whose tokens names a secret comes out unchanged.
pub proof fn law_redact_keeps_harmless_lines(s: Seq<char>)
    requires
        forall|i: int|
            0 <= i < split_on_space(s).len() ==> !triggers_redaction(
                #[trigger] split_on_space(s)[i],
            ),
    ensures
        redact_line(s) == s,
{
    lemma_scan_untouched(split_on_space(s));
    lemma_join_split(s);
}

/// The pieces of `s` that `str::split_inclusive('\n')` gives: each ends with its
/// newline, but for the last, which may lack one; an empty text has none.
pub open spec fn newline_pieces(s: Seq<char>) -> Seq<Seq<char>>
    decreases s.len(),
{
    if s.len() == 0 {
        Seq::<Seq<char>>::empty()
    } else {
        let p = newline_pieces(s.drop_last());
        if p.len() == 0 || p.last().last() == '\n' {
            p.push(seq![s.last()])
        } else {
            p.update(p.len() - 1, p.last().push(s.last()))
        }
    }
}

/// What the log shows of one chunk of output: each of its lines without trailing
/// white space, redacted.
pub open spec fn log_view(s: Seq<char>) -> Seq<Seq<char>> {
    newline_pieces(s).map_values(|p: Seq<char>| redact_line(trim_end(p)))
}

/// The lines the log shows of one chunk of service or SSH output (see `log_view`).
pub fn log_lines(chunk: &str) -> (out: Vec<String>)
    ensures
        out@.len() == log_view(chunk@).len(),
        forall|i: int| 0 <= i < out@.len() ==> (#[trigger] out@[i])@ == log_view(chunk@)[i],
{
    let chars = chars_of(chunk);
    let ghost s = chars@;
    let mut out: Vec<String> = Vec::new();
    let mut cur: Vec<char> = Vec::new();
    let ghost mut done: Seq<Seq<char>> = Seq::empty();
    for i in 0..chars.len()
        invariant
            chars@ == s,
            s == chunk@,
            newline_pieces(s.take(i as int)) == (if cur@.len() == 0 {
                done
            } else {
                done.push(cur@)
            }),
            done.len() == out@.len(),
            forall|j: int|
                0 <= j < out@.len() ==> (#[trigger] out@[j])@ == redact_line(trim_end(done[j])),
            forall|j: int| 0 <= j < done.len() ==> (#[trigger] done[j]).len() > 0 && done[j].last() == '\n',
            !cur@.contains('\n'),
    {
        let c = chars[i];
        assert(s.take(i + 1).drop_last() == s.take(i as int));
        assert(s.take(i + 1).last() == c);
        let ghost before = newline_pieces(s.take(i as int));
        proof {
            if cur@.len() == 0 && done.len() > 0 {
                assert(before.last() == done[done.len() - 1]);
            }
        }
        cur.push(c);
        proof {
            if cur@.len() > 1 {
                assert(cur@.drop_last().last() != '\n') by {
                    assert(cur@.drop_last()[cur@.len() - 2] == cur@[cur@.len() - 2]);
                }
                assert(before.last() == cur@.drop_last());
                assert(newline_pieces(s.take(i + 1)) == done.push(cur@));
            } else {
                assert(cur@ == seq![c]);
                assert(before == done);
                if done.len() > 0 {
                    assert(done[done.len() - 1].last() == '\n');
                }
                assert(newline_pieces(s.take(i + 1)) == done.push(cur@));
            }
        }
        if c == '\n' {
            let n = trim_end_len(&cur);
            let line = prefix_of(&cur, n);
            out.push(redact_chars(&line));
            proof {
                done = done.push(cur@);
            }
            cur = Vec::new();
        } else {
            proof {
                assert forall|k: int| 0 <= k < cur@.len() implies cur@[k] != '\n' by {
                    if k < cur@.len() - 1 {
                        assert(cur@[k] == cur@.drop_last()[k]);
                    }
                }
            }
        }
    }
    assert(s.take(chars@.len() as int) == s);
    if cur.len() > 0 {
        let n = trim_end_len(&cur);
        let line = prefix_of(&cur, n);
        out.push(redact_chars(&line));
        proof {
            done = done.push(cur@);
        }
    }
    assert(done == newline_pieces(s));
    out
}

/// Two token sequences that differ at most at `i`, where the token of each comes
/// out of the redactor the same in the state the tokens before leave, are redacted
/// alike.
proof fn lemma_scan_congruent(ts1: Seq<Seq<char>>, ts2: Seq<Seq<char>>, i: int)
    requires
        ts1.len() == ts2.len(),
        0 <= i < ts1.len(),
        forall|j: int| 0 <= j < ts1.len() && j != i ==> ts1[j] == ts2[j],
        redact_step(ts1[i], redact_scan(ts1.take(i)).1) == redact_step(
            ts2[i],
            redact_scan(ts1.take(i)).1,
        ),
    ensures
        redact_scan(ts1) == redact_scan(ts2),
    decreases ts1.len(),
{
    let a = ts1.drop_last();
    let b = ts2.drop_last();
    if i == ts1.len() - 1 {
        assert(a =~= b);
        assert(ts1.take(i) == a);
    } else {
        assert(a.take(i) == ts1.take(i));
        lemma_scan_congruent(a, b, i);
        assert(ts1.last() == ts2.last()) by {
            assert(ts1[ts1.len() - 1] == ts2[ts2.len() - 1]);
        }
    }
}

/// The value of a sensitive `KEY=VALUE` token does not change the redacted line:
/// two lines whose tokens agree but for one such token, with the same sensitive
/// key and any values, are redacted alike.
pub proof fn law_redact_ignores_assignment_values(s1: Seq<char>, s2: Seq<char>, i: int)
    requires
        split_on_space(s1).len() == split_on_space(s2).len(),
        0 <= i < split_on_space(s1).len(),
        forall|j: int|
            0 <= j < split_on_space(s1).len() && j != i ==> split_on_space(s1)[j] == split_on_space(
                s2,
            )[j],
        has_assignment(split_on_space(s1)[i]),
        has_assignment(split_on_space(s2)[i]),
        key_part(split_on_space(s1)[i]) == key_part(split_on_space(s2)[i]),
        sensitive(key_part(split_on_space(s1)[i])),
    ensures
        redact_line(s1) == redact_line(s2),
{
    let ts1 = split_on_space(s1);
    let ts2 = split_on_space(s2);
    lemma_scan_congruent(ts1, ts2, i);
}

/// The value that follows a sensitive `--flag` does not change the redacted line,
/// and comes out as the mask: when token `i - 1` is such a flag and the redactor was
/// not itself waiting for a value there, two lines that agree but for a non-empty
/// token `i` are redacted alike.
pub proof fn law_redact_ignores_flag_values(s1: Seq<char>, s2: Seq<char>, i: int)
    requires
        split_on_space(s1).len() == split_on_space(s2).len(),
        1 <= i < split_on_space(s1).len(),
        forall|j: int|
            0 <= j < split_on_space(s1).len() && j != i ==> split_on_space(s1)[j] == split_on_space(
                s2,
            )[j],
        is_long_flag(split_on_space(s1)[i - 1]),
        sensitive(split_on_space(s1)[i - 1]),
        !(has_assignment(split_on_space(s1)[i - 1]) && sensitive(
            key_part(split_on_space(s1)[i - 1]),
        )),
        !redact_scan(split_on_space(s1).take(i - 1)).1,
        split_on_space(s1)[i].len() > 0,
        split_on_space(s2)[i].len() > 0,
    ensures
        redact_line(s1) == redact_line(s2),
        split_on_space(redact_line(s1))[i] == mask(),
{
    let ts1 = split_on_space(s1);
    let ts2 = split_on_space(s2);
    lemma_scan_index(ts1, i - 1);
    assert(ts1.take(i - 1 + 1) == ts1.take(i));
    assert(redact_scan(ts1.take(i)).1);
    lemma_scan_congruent(ts1, ts2, i);
    lemma_tokens_of_redacted(s1);
    lemma_scan_index(ts1, i);
}

/// `w` occurs somewhere in `s`.
pub open spec fn occurs_in(w: Seq<char>, s: Seq<char>) -> bool {
    exists|k: int| 0 <= k && k + w.len() <= s.len() && #[trigger] s.subrange(k, k + w.len()) == w
}

/// Whether one of the words that name secrets occurs in `n`.
pub open spec fn names_a_secret(n: Seq<char>) -> bool {
    ||| occurs_in("token"@, n)
    ||| occurs_in("secret"@, n)
    ||| occurs_in("password"@, n)
    ||| occurs_in("passwd"@, n)
    ||| occurs_in("apikey"@, n)
    ||| occurs_in("auth"@, n)
}

proof fn lemma_clean_append(a: Seq<char>, b: Seq<char>)
    ensures
        clean(a + b) == clean(a) + clean(b),
    decreases b.len(),
{
    if b.len() == 0 {
        assert(a + b == a);
        assert(clean(a) + clean(b) == clean(a));
    } else {
        lemma_clean_append(a, b.drop_last());
        assert((a + b).drop_last() == a + b.drop_last());
        assert((a + b).last() == b.last());
    }
}

proof fn lemma_occurs_within(w: Seq<char>, a: Seq<char>, b: Seq<char>, c: Seq<char>)
    requires
        occurs_in(w, b),
    ensures
        occurs_in(w, a + b + c),
{
    let k = choose|k: int| 0 <= k && k + w.len() <= b.len() && #[trigger] b.subrange(k, k + w.len()) == w;
    let s = a + b + c;
    let k2 = a.len() + k;
    assert(s.subrange(k2, k2 + w.len()) =~= b.subrange(k, k + w.len()));
}

proof fn lemma_suffix_occurs(w: Seq<char>, n: Seq<char>)
    requires
        has_suffix(n, w),
    ensures
        occurs_in(w, n),
{
    let k = n.len() - w.len();
    assert(n.subrange(k, k + w.len()) == w);
}

/// Each token of a line stands in it whole.
proof fn lemma_token_in_join(ts: Seq<Seq<char>>, i: int) -> (pq: (Seq<char>, Seq<char>))
    requires
        0 <= i < ts.len(),
    ensures
        join_spaces(ts) == pq.0 + ts[i] + pq.1,
    decreases ts.len(),
{
    let ts0 = ts.drop_last();
    if i == ts.len() - 1 {
        assert(ts.last() == ts[i]);
        assert(join_spaces(ts) == spaced(ts0) + ts[i] + Seq::<char>::empty());
        (spaced(ts0), Seq::<char>::empty())
    } else {
        let pq0 = lemma_token_in_join(ts0, i);
        assert(ts0[i] == ts[i]);
        assert(ts0.drop_last().push(ts0.last()) == ts0);
        assert(spaced(ts0) == join_spaces(ts0) + seq![' ']);
        let q = pq0.1 + seq![' '] + ts.last();
        assert(join_spaces(ts) == pq0.0 + ts[i] + q);
        (pq0.0, q)
    }
}

/// A key naming a secret puts one of the secret words into the cleaned line.
proof fn lemma_trigger_names_secret(s: Seq<char>, i: int)
    requires
        0 <= i < split_on_space(s).len(),
        triggers_redaction(split_on_space(s)[i]),
    ensures
        names_a_secret(clean(s)),
{
    let ts = split_on_space(s);
    let t = ts[i];
    lemma_join_split(s);
    let pq = lemma_token_in_join(ts, i);
    lemma_clean_append(pq.0 + t, pq.1);
    lemma_clean_append(pq.0, t);
    let part = if has_assignment(t) && sensitive(key_part(t)) {
        key_part(t)
    } else {
        t
    };
    // `part` is a prefix of `t`, so its cleaned form lies within the cleaned line.
    let rest = t.skip(part.len() as int);
    lemma_first_index_bounds(t, '=');
    assert(part + rest == t);
    lemma_clean_append(part, rest);
    assert(clean(s) == clean(pq.0) + (clean(part) + clean(rest)) + clean(pq.1));
    let n = clean(part);
    let w = if has_suffix(n, "token"@) {
        "token"@
    } else if has_suffix(n, "secret"@) {
        "secret"@
    } else if has_suffix(n, "password"@) {
        "password"@
    } else if has_suffix(n, "passwd"@) {
        "passwd"@
    } else if has_suffix(n, "apikey"@) {
        "apikey"@
    } else {
        "auth"@
    };
    lemma_suffix_occurs(w, n);
    lemma_occurs_within(w, Seq::<char>::empty(), n, clean(rest));
    assert(Seq::<char>::empty() + n + clean(rest) == n + clean(rest));
    lemma_occurs_within(w, clean(pq.0), n + clean(rest), clean(pq.1));
}

/// A line in which, lower-cased and without `_` and `-`, none of the words that
/// name secrets occurs comes out of the redactor unchanged, spacing included.
pub proof fn law_redact_keeps_lines_without_secret_words(s: Seq<char>)
    requires
        !names_a_secret(clean(s)),
    ensures
        redact_line(s) == s,
{
    assert forall|i: int| 0 <= i < split_on_space(s).len() implies !triggers_redaction(
        #[trigger] split_on_space(s)[i],
    ) by {
        if triggers_redaction(split_on_space(s)[i]) {
            lemma_trigger_names_secret(s, i);
        }
    }
    law_redact_keeps_harmless_lines(s);
}

/// A key's normal form holds no `_`, no `-` and no upper-case ASCII letter.
pub proof fn law_clean_has_no_separators(s: Seq<char>)
    ensures
        forall|k: int|
            0 <= k < clean(s).len() ==> #[trigger] clean(s)[k] != '_' && clean(s)[k] != '-' && !(
            'A' <= clean(s)[k] && clean(s)[k] <= 'Z'),
    decreases s.len(),
{
    if s.len() > 0 {
        law_clean_has_no_separators(s.drop_last());
        let p = clean(s.drop_last());
        let c = s.last();
        if !(c == '_' || c == '-') {
            assert forall|k: int| 0 <= k < clean(s).len() implies #[trigger] clean(s)[k] != '_'
                && clean(s)[k] != '-' && !('A' <= clean(s)[k] && clean(s)[k] <= 'Z') by {
                if k < p.len() {
                    assert(clean(s)[k] == p[k]);
                } else {
                    assert(clean(s)[k] == ascii_lower(c));
                }
            }
        }
    }
}

/// Where the separators stand in a key does not matter: taking out one `_` or `-`
/// anywhere leaves its normal form, and so whether it is sensitive, unchanged.
pub proof fn law_clean_ignores_separators(a: Seq<char>, b: Seq<char>, c: char)
    requires
        c == '_' || c == '-',
    ensures
        clean(a + seq![c] + b) == clean(a + b),
        sensitive(a + seq![c] + b) == sensitive(a + b),
{
    lemma_clean_append(a + seq![c], b);
    lemma_clean_append(a, seq![c]);
    lemma_clean_append(a, b);
    assert(clean(seq![c]) == Seq::<char>::empty()) by {
        assert(seq![c].drop_last() == Seq::<char>::empty());
        assert(seq![c].last() == c);
        assert(clean(Seq::<char>::empty()) == Seq::<char>::empty());
    }
    assert(clean(a) + Seq::<char>::empty() == clean(a));
}

/// The API key flags, however their words are separated.
pub open spec fn is_api_key_flag(t: Seq<char>) -> bool {
    t == "--api-key"@ || t == "--api_key"@ || t == "--apikey"@
}

proof fn lemma_api_key_flag(t: Seq<char>)
    requires
        is_api_key_flag(t),
    ensures
        is_long_flag(t),
        sensitive(t),
        !has_assignment(t),
{
    reveal_strlit("--api-key");
    reveal_strlit("--api_key");
    reveal_strlit("--apikey");
    reveal_strlit("apikey");
    let k = seq!['a', 'p', 'i', 'k', 'e', 'y'];
    assert(k == "apikey"@);
    let dd = seq!['-', '-'];
    assert(clean(dd) == Seq::<char>::empty()) by {
        reveal_with_fuel(clean, 3);
        assert(dd.drop_last() == seq!['-']);
        assert(seq!['-'].drop_last() == Seq::<char>::empty());
    }
    let api = seq!['a', 'p', 'i'];
    let key = seq!['k', 'e', 'y'];
    assert(clean(api) == api) by {
        reveal_with_fuel(clean, 4);
        assert(api.drop_last() == seq!['a', 'p']);
        assert(seq!['a', 'p'].drop_last() == seq!['a']);
        assert(seq!['a'].drop_last() == Seq::<char>::empty());
    }
    assert(clean(key) == key) by {
        reveal_with_fuel(clean, 4);
        assert(key.drop_last() == seq!['k', 'e']);
        assert(seq!['k', 'e'].drop_last() == seq!['k']);
        assert(seq!['k'].drop_last() == Seq::<char>::empty());
    }
    lemma_clean_append(dd, api);
    lemma_clean_append(dd + api, key);
    assert(clean(dd + api + key) == k);
    if t == "--api-key"@ {
        assert(t == dd + api + seq!['-'] + key);
        law_clean_ignores_separators(dd + api, key, '-');
    } else if t == "--api_key"@ {
        assert(t == dd + api + seq!['_'] + key);
        law_clean_ignores_separators(dd + api, key, '_');
    } else {
        assert(t == dd + api + key);
    }
    assert(clean(t) == k);
    assert(has_suffix(clean(t), "apikey"@)) by {
        assert(clean(t).subrange(0, 6) == k);
    }
    lemma_first_index(t, '=', t.len() as int);
}

/// The value after `--api-key`, `--api_key` or `--apikey` is masked, the flag
/// itself kept (unless the flag was itself the value of an earlier flag).
pub proof fn law_redact_hides_api_key_values(s: Seq<char>, i: int)
    requires
        0 <= i && i + 1 < split_on_space(s).len(),
        is_api_key_flag(split_on_space(s)[i]),
        split_on_space(s)[i + 1].len() > 0,
        !redact_scan(split_on_space(s).take(i)).1,
    ensures
        split_on_space(redact_line(s))[i] == split_on_space(s)[i],
        split_on_space(redact_line(s))[i + 1] == mask(),
{
    let ts = split_on_space(s);
    lemma_api_key_flag(ts[i]);
    lemma_tokens_of_redacted(s);
    lemma_scan_index(ts, i);
    lemma_scan_index(ts, i + 1);
    assert(ts.take(i + 1) == ts.take(i + 1));
}

/// A chunk holding no newline is one piece.
proof fn lemma_pieces_single(s: Seq<char>)
    requires
        s.len() > 0,
        !s.contains('\n'),
    ensures
        newline_pieces(s) == seq![s],
    decreases s.len(),
{
    let t = s.drop_last();
    if t.len() == 0 {
        assert(newline_pieces(t) == Seq::<Seq<char>>::empty());
        assert(seq![s.last()] == s);
    } else {
        assert(!t.contains('\n')) by {
            if t.contains('\n') {
                let k = choose|k: int| 0 <= k < t.len() && t[k] == '\n';
                assert(s[k] == '\n');
            }
        }
        lemma_pieces_single(t);
        assert(t.last() != '\n') by {
            assert(s[t.len() - 1] == t.last());
        }
        assert(t.push(s.last()) == s);
        assert(seq![t].update(0, t.push(s.last())) == seq![s]);
    }
}

/// A log message without a newline is one log line: the message without trailing
/// white space, redacted.
pub proof fn law_log_line_without_newline(s: Seq<char>)
    requires
        s.len() > 0,
        !s.contains('\n'),
    ensures
        log_view(s) == seq![redact_line(trim_end(s))],
{
    lemma_pieces_single(s);
}

/// Every line the log shows is redacted: redacting it again changes nothing.
pub proof fn law_log_lines_are_redacted(s: Seq<char>)
    ensures
        forall|i: int|
            0 <= i < log_view(s).len() ==> redact_line(#[trigger] log_view(s)[i]) == log_view(s)[i],
{
    assert forall|i: int| 0 <= i < log_view(s).len() implies redact_line(#[trigger] log_view(s)[i])
        == log_view(s)[i] by {
        law_redact_idempotent(trim_end(newline_pieces(s)[i]));
    }
}

} // verus!
