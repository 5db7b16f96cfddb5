//! Running a launcher action as a command line: `%VAR%` expansion, splitting into
//! program and arguments, and the choice of how to start it.
//!
//! Environment variables are read by the caller: `env_var_refs` lists the names a
//! text refers to, and the caller passes their values (`None` when unset) as
//! `(name, value)` pairs.

use vstd::prelude::*;
use crate::text::{
    ascii_lower, chars_of, decimal, decimal_string, find_char, find_from, is_space, join,
    lemma_find_from_bounds, string_of, to_ascii_lower, trim_chars, views,
};

verus! {

/// Values of environment variables, as `(name, value)` pairs.
pub type EnvValues = Vec<(String, Option<String>)>;

pub open spec fn opt_view(o: Option<String>) -> Option<Seq<char>> {
    match o {
        Some(s) => Some(s@),
        None => None,
    }
}

pub open spec fn env_view(env: Seq<(String, Option<String>)>) -> Seq<(Seq<char>, Option<Seq<char>>)> {
    env.map_values(|p: (String, Option<String>)| (p.0@, opt_view(p.1)))
}

/// The value of `name`: that of its first pair, `None` when it has none.
pub open spec fn env_lookup(env: Seq<(Seq<char>, Option<Seq<char>>)>, name: Seq<char>) -> Option<Seq<char>>
    decreases env.len(),
{
    if env.len() == 0 {
        None
    } else if env[0].0 == name {
        env[0].1
    } else {
        env_lookup(env.drop_first(), name)
    }
}

/// The reference `%name%` that starts at the first `%` of `s`, if there is one:
/// `(start, name, after)` with `after` the text behind the closing `%`.  A `%`
/// directly followed by `%`, or without a closing `%`, starts no reference.
pub open spec fn percent_ref(s: Seq<char>) -> Option<(int, Seq<char>, Seq<char>)> {
    match find_from(s, '%', 0) {
        None => None,
        Some(start) => {
            let tail = s.skip(start + 1);
            match find_from(tail, '%', 0) {
                Some(p) => if p > 0 {
                    Some((start, tail.take(p), tail.skip(p + 1)))
                } else {
                    None
                },
                None => None,
            }
        },
    }
}

/// `%NAME%` expansion as done on Windows command lines: each reference to a set
/// variable is replaced by its value; references to unset variables, and `%`
/// signs that start no reference, are kept.
pub open spec fn expand_spec(s: Seq<char>, env: Seq<(Seq<char>, Option<Seq<char>>)>) -> Seq<char>
    decreases s.len(),
{
    match find_from(s, '%', 0) {
        None => s,
        Some(start) => {
            proof {
                lemma_find_from_bounds(s, '%', 0);
            }
            let tail = s.skip(start + 1);
            match percent_ref(s) {
                Some(r) => {
                    proof {
                        lemma_find_from_bounds(tail, '%', 0);
                    }
                    let name = r.1;
                    let after = r.2;
                    s.take(start) + match env_lookup(env, name) {
                        Some(v) => v,
                        None => seq!['%'] + name + seq!['%'],
                    } + expand_spec(after, env)
                },
                None => s.take(start) + seq!['%'] + expand_spec(tail, env),
            }
        },
    }
}

/// The names of the variables that `%NAME%` expansion of `s` looks up, in order.
pub open spec fn refs_spec(s: Seq<char>) -> Seq<Seq<char>>
    decreases s.len(),
{
    match find_from(s, '%', 0) {
        None => Seq::empty(),
        Some(start) => {
            proof {
                lemma_find_from_bounds(s, '%', 0);
            }
            let tail = s.skip(start + 1);
            match percent_ref(s) {
                Some(r) => {
                    proof {
                        lemma_find_from_bounds(tail, '%', 0);
                    }
                    seq![r.1] + refs_spec(r.2)
                },
                None => refs_spec(tail),
            }
        },
    }
}

fn lookup_env(env: &EnvValues, name: &[char]) -> (r: Option<Vec<char>>)
    ensures
        opt_view_chars(r) == env_lookup(env_view(env@), name@),
{
    let key = string_of(name);
    let mut i: usize = 0;
    assert(env_view(env@).skip(0) =~= env_view(env@));
    while i < env.len()
        invariant
            i <= env@.len(),
            key@ == name@,
            env_lookup(env_view(env@), name@) == env_lookup(env_view(env@).skip(i as int), name@),
        decreases env.len() - i,
    {
        proof {
            let rest = env_view(env@).skip(i as int);
            assert(rest.drop_first() =~= env_view(env@).skip(i + 1));
        }
        if env[i].0 == key {
            return match &env[i].1 {
                Some(v) => Some(chars_of(v.as_str())),
                None => None,
            };
        }
        i = i + 1;
    }
    None
}

pub open spec fn opt_view_chars(o: Option<Vec<char>>) -> Option<Seq<char>> {
    match o {
        Some(v) => Some(v@),
        None => None,
    }
}

/// Where the `%NAME%` reference at the first `%` of `s[pos..]` ends, if there is one:
/// `(start, close)` with the name in `s[start + 1 .. close]`.
fn next_ref(s: &[char], pos: usize) -> (r: (Option<usize>, Option<usize>))
    requires
        pos <= s@.len(),
    ensures
        ({
            let rest = s@.skip(pos as int);
            &&& (r.0 is None) == (find_from(rest, '%', 0) is None)
            &&& r.0 matches Some(st) ==> pos <= st < s@.len() && Some(st - pos) == find_from(rest, '%', 0)
            &&& r.0 is None ==> r.1 is None
            &&& (r.1 is Some) == (percent_ref(rest) is Some)
            &&& r.1 matches Some(cl) ==> r.0 matches Some(st) && st + 1 < cl < s@.len()
                && percent_ref(rest) == Some(
                (
                    (st - pos) as int,
                    s@.subrange(st + 1, cl as int),
                    s@.skip(cl + 1),
                ),
            )
        }),
{
    let ghost rest = s@.skip(pos as int);
    let start = find_char(s, '%', pos);
    proof {
        lemma_find_from_shift(s@, '%', pos as int);
        lemma_find_from_bounds(s@, '%', pos as int);
    }
    match start {
        None => (None, None),
        Some(st) => {
            assert(st < s@.len());
            assert(st < s.len());
            let close = find_char(s, '%', st + 1);
            proof {
                lemma_find_from_shift(s@, '%', st + 1);
                lemma_find_from_bounds(s@, '%', st + 1);
                let tail = rest.skip(st - pos + 1);
                assert(tail =~= s@.skip(st + 1));
            }
            match close {
                Some(cl) => {
                    if cl > st + 1 {
                        proof {
                            let tail = s@.skip(st + 1);
                            assert(tail.take(cl - st - 1) =~= s@.subrange(st + 1, cl as int));
                            assert(tail.skip(cl - st) =~= s@.skip(cl + 1));
                        }
                        (Some(st), Some(cl))
                    } else {
                        (Some(st), None)
                    }
                },
                None => (Some(st), None),
            }
        },
    }
}

/// Searching from `from` in `s` is searching from 0 in `s.skip(from)`, shifted.
pub proof fn lemma_find_from_shift(s: Seq<char>, c: char, from: int)
    requires
        0 <= from <= s.len(),
    ensures
        find_from(s, c, from) matches Some(i) ==> find_from(s.skip(from), c, 0) == Some(i - from),
        find_from(s, c, from) is None ==> find_from(s.skip(from), c, 0) is None,
    decreases s.len() - from,
{
    lemma_find_from_shift_gen(s, c, from, 0);
}

proof fn lemma_find_from_shift_gen(s: Seq<char>, c: char, from: int, k: int)
    requires
        0 <= from <= s.len(),
        0 <= k,
    ensures
        find_from(s, c, from + k) matches Some(i) ==> find_from(s.skip(from), c, k) == Some(i - from),
        find_from(s, c, from + k) is None ==> find_from(s.skip(from), c, k) is None,
    decreases s.len() - from - k,
{
    if from + k < s.len() {
        assert(s.skip(from)[k] == s[from + k]);
        lemma_find_from_shift_gen(s, c, from, k + 1);
    }
}

/// Expands `%NAME%` references in `input` (see `expand_spec`); `env` holds the
/// values of the variables named by `env_var_refs(input)`.
pub fn expand_env_vars(input: &str, env: &EnvValues) -> (r: String)
    ensures
        r@ == expand_spec(input@, env_view(env@)),
{
    let s = chars_of(input);
    let out = expand_chars(&s, env);
    string_of(&out)
}

pub fn expand_chars(s: &[char], env: &EnvValues) -> (r: Vec<char>)
    ensures
        r@ == expand_spec(s@, env_view(env@)),
{
    let ghost e = env_view(env@);
    let mut out: Vec<char> = Vec::new();
    let mut pos: usize = 0;
    assert(s@.skip(0) =~= s@);
    assert(out@ + expand_spec(s@.skip(0), e) =~= expand_spec(s@, e));
    while pos < s.len()
        invariant
            pos <= s@.len(),
            e == env_view(env@),
            out@ + expand_spec(s@.skip(pos as int), e) == expand_spec(s@, e),
        decreases s.len() - pos,
    {
        let ghost rest = s@.skip(pos as int);
        let ghost before = out@;
        let (start, close) = next_ref(s, pos);
        match start {
            None => {
                append_range(&mut out, s, pos, s.len());
                proof {
                    assert(s@.subrange(pos as int, s@.len() as int) =~= rest);
                    assert(s@.skip(s@.len() as int) =~= Seq::<char>::empty());
                    assert(expand_spec(Seq::<char>::empty(), e) =~= Seq::<char>::empty());
                    assert(out@ + expand_spec(s@.skip(s@.len() as int), e) =~= before + rest);
                }
                pos = s.len();
            },
            Some(st) => {
                append_range(&mut out, s, pos, st);
                proof {
                    assert(s@.subrange(pos as int, st as int) =~= rest.take(st - pos));
                }
                match close {
                    Some(cl) => {
                        let name = slice_chars(s, st + 1, cl);
                        let value = lookup_env(env, &name);
                        match value {
                            Some(v) => {
                                append_range(&mut out, &v, 0, v.len());
                                proof {
                                    assert(v@.subrange(0, v@.len() as int) =~= v@);
                                }
                            },
                            None => {
                                out.push('%');
                                append_range(&mut out, &name, 0, name.len());
                                out.push('%');
                                proof {
                                    assert(name@.subrange(0, name@.len() as int) =~= name@);
                                }
                            },
                        }
                        proof {
                            assert(out@ + expand_spec(s@.skip(cl + 1), e) =~= before + expand_spec(rest, e));
                        }
                        pos = cl + 1;
                    },
                    None => {
                        out.push('%');
                        proof {
                            assert(rest.skip(st - pos + 1) =~= s@.skip(st + 1));
                            assert(out@ + expand_spec(s@.skip(st + 1), e) =~= before + expand_spec(rest, e));
                        }
                        pos = st + 1;
                    },
                }
            },
        }
    }
    proof {
        assert(s@.skip(pos as int) =~= Seq::<char>::empty());
        assert(expand_spec(Seq::<char>::empty(), e) =~= Seq::<char>::empty());
        assert(out@ + expand_spec(s@.skip(pos as int), e) =~= out@);
    }
    out
}

/// Appends `s[from..to]` to `out`.
pub fn append_range(out: &mut Vec<char>, s: &[char], from: usize, to: usize)
    requires
        from <= to <= s@.len(),
    ensures
        final(out)@ == old(out)@ + s@.subrange(from as int, to as int),
{
    let mut k = from;
    while k < to
        invariant
            from <= k <= to <= s@.len(),
            out@ == old(out)@ + s@.subrange(from as int, k as int),
        decreases to - k,
    {
        out.push(s[k]);
        k = k + 1;
        assert(out@ =~= old(out)@ + s@.subrange(from as int, k as int));
    }
}

/// A copy of `s[from..to]`.
pub fn slice_chars(s: &[char], from: usize, to: usize) -> (r: Vec<char>)
    requires
        from <= to <= s@.len(),
    ensures
        r@ == s@.subrange(from as int, to as int),
{
    let mut r: Vec<char> = Vec::new();
    append_range(&mut r, s, from, to);
    assert(r@ =~= s@.subrange(from as int, to as int));
    r
}


/// The names of the variables that expanding `input` looks up, in order.
pub fn env_var_refs(input: &str) -> (r: Vec<String>)
    ensures
        views(r@) == refs_spec(input@),
{
    let s = chars_of(input);
    let mut names: Vec<String> = Vec::new();
    let mut pos: usize = 0;
    assert(s@.skip(0) =~= s@);
    assert(views(names@) + refs_spec(s@.skip(0)) =~= refs_spec(s@));
    while pos < s.len()
        invariant
            pos <= s@.len(),
            s@ == input@,
            views(names@) + refs_spec(s@.skip(pos as int)) == refs_spec(s@),
        decreases s.len() - pos,
    {
        let ghost rest = s@.skip(pos as int);
        let ghost before = views(names@);
        let (start, close) = next_ref(&s, pos);
        match start {
            None => {
                proof {
                    assert(s@.skip(s@.len() as int) =~= Seq::<char>::empty());
                    assert(refs_spec(rest) =~= Seq::<Seq<char>>::empty());
                    assert(before + refs_spec(Seq::<char>::empty()) =~= before + refs_spec(rest));
                }
                pos = s.len();
            },
            Some(st) => {
                match close {
                    Some(cl) => {
                        let name = slice_chars(&s, st + 1, cl);
                        names.push(string_of(&name));
                        proof {
                            assert(views(names@) =~= before.push(name@));
                            assert(views(names@) + refs_spec(s@.skip(cl + 1)) =~= before
                                + refs_spec(rest));
                        }
                        pos = cl + 1;
                    },
                    None => {
                        proof {
                            assert(rest.skip(st - pos + 1) =~= s@.skip(st + 1));
                        }
                        pos = st + 1;
                    },
                }
            },
        }
    }
    proof {
        assert(s@.skip(pos as int) =~= Seq::<char>::empty());
        assert(views(names@) + refs_spec(s@.skip(pos as int)) =~= views(
            names@,
        ));
    }
    names
}

/// Expansion with no variable set gives back the text unchanged: references to
/// unset variables and stray `%` signs are kept as they are.
pub proof fn law_expansion_without_values_is_identity(s: Seq<char>)
    ensures
        expand_spec(s, Seq::empty()) == s,
    decreases s.len(),
{
    match find_from(s, '%', 0) {
        None => {},
        Some(start) => {
            lemma_find_from_bounds(s, '%', 0);
            let tail = s.skip(start + 1);
            lemma_find_from_bounds(tail, '%', 0);
            match percent_ref(s) {
                Some(r) => {
                    law_expansion_without_values_is_identity(r.2);
                    let p = find_from(tail, '%', 0)->0;
                    assert(s =~= s.take(start) + seq!['%'] + r.1 + seq!['%'] + r.2);
                },
                None => {
                    law_expansion_without_values_is_identity(tail);
                    assert(s =~= s.take(start) + seq!['%'] + tail);
                },
            }
        },
    }
}

/// Text without `%` is not changed by expansion.
pub proof fn law_expansion_needs_percent(s: Seq<char>, env: Seq<(Seq<char>, Option<Seq<char>>)>)
    requires
        find_from(s, '%', 0) is None,
    ensures
        expand_spec(s, env) == s,
        refs_spec(s) == Seq::<Seq<char>>::empty(),
{
}


/// Progress of splitting a command line: `(program, args, current, in_program, quoted)`.
pub open spec fn split_start() -> (Seq<char>, Seq<Seq<char>>, Seq<char>, bool, bool) {
    (Seq::empty(), Seq::empty(), Seq::empty(), true, false)
}

/// One character of a command line: `"` toggles quoting; an unquoted space or tab
/// ends the current word (the first word is the program); any other character is
/// added to the current word.
pub open spec fn split_step(
    st: (Seq<char>, Seq<Seq<char>>, Seq<char>, bool, bool),
    c: char,
) -> (Seq<char>, Seq<Seq<char>>, Seq<char>, bool, bool) {
    let (program, args, current, in_program, quoted) = st;
    if c == '"' {
        (program, args, current, in_program, !quoted)
    } else if (c == ' ' || c == '\t') && !quoted {
        if in_program {
            if current.len() > 0 {
                (current, args, Seq::empty(), false, quoted)
            } else {
                st
            }
        } else if current.len() > 0 {
            (program, args.push(current), Seq::empty(), in_program, quoted)
        } else {
            st
        }
    } else {
        (program, args, current.push(c), in_program, quoted)
    }
}

/// The state after the characters of `s`.
pub open spec fn split_run(s: Seq<char>) -> (Seq<char>, Seq<Seq<char>>, Seq<char>, bool, bool)
    decreases s.len(),
{
    if s.len() == 0 {
        split_start()
    } else {
        split_step(split_run(s.drop_last()), s.last())
    }
}

/// Program and arguments of the command line `s`; the last word is completed at
/// the end (an open quote simply runs to the end).
pub open spec fn split_words(s: Seq<char>) -> (Seq<char>, Seq<Seq<char>>) {
    let (program, args, current, in_program, quoted) = split_run(s);
    if in_program {
        (current, args)
    } else if current.len() > 0 {
        (program, args.push(current))
    } else {
        (program, args)
    }
}

/// The program and arguments of a command line after trimming and `%NAME%` expansion.
pub open spec fn split_command_spec(input: Seq<char>, env: Seq<(Seq<char>, Option<Seq<char>>)>) -> (
    Seq<char>,
    Seq<Seq<char>>,
) {
    split_words(expand_spec(crate::text::trim(input), env))
}

/// The splitting state after the characters of `s`, starting from `st`.
pub open spec fn split_from(
    st: (Seq<char>, Seq<Seq<char>>, Seq<char>, bool, bool),
    s: Seq<char>,
) -> (Seq<char>, Seq<Seq<char>>, Seq<char>, bool, bool)
    decreases s.len(),
{
    if s.len() == 0 {
        st
    } else {
        split_step(split_from(st, s.drop_last()), s.last())
    }
}

proof fn lemma_split_run_from(s: Seq<char>)
    ensures
        split_run(s) == split_from(split_start(), s),
    decreases s.len(),
{
    if s.len() > 0 {
        lemma_split_run_from(s.drop_last());
    }
}

proof fn lemma_split_from_concat(
    st: (Seq<char>, Seq<Seq<char>>, Seq<char>, bool, bool),
    x: Seq<char>,
    y: Seq<char>,
)
    ensures
        split_from(st, x + y) == split_from(split_from(st, x), y),
    decreases y.len(),
{
    if y.len() == 0 {
        assert(x + y =~= x);
    } else {
        assert((x + y).drop_last() =~= x + y.drop_last());
        assert((x + y).last() == y.last());
        lemma_split_from_concat(st, x, y.drop_last());
    }
}

proof fn lemma_split_from_push(
    st: (Seq<char>, Seq<Seq<char>>, Seq<char>, bool, bool),
    x: Seq<char>,
    c: char,
)
    ensures
        split_from(st, x.push(c)) == split_step(split_from(st, x), c),
{
    assert(x.push(c).drop_last() =~= x);
}

/// Inside quotes every character but `"` joins the current word.
proof fn lemma_split_quoted_run(
    st: (Seq<char>, Seq<Seq<char>>, Seq<char>, bool, bool),
    w: Seq<char>,
)
    requires
        st.4,
        forall|k: int| 0 <= k < w.len() ==> w[k] != '"',
    ensures
        split_from(st, w) == (st.0, st.1, st.2 + w, st.3, true),
    decreases w.len(),
{
    if w.len() == 0 {
        assert(st.2 + w =~= st.2);
    } else {
        lemma_split_quoted_run(st, w.drop_last());
        assert(st.2 + w =~= (st.2 + w.drop_last()).push(w.last()));
    }
}

/// Outside quotes a word without quotes, spaces or tabs joins the current word.
proof fn lemma_split_plain_word(
    st: (Seq<char>, Seq<Seq<char>>, Seq<char>, bool, bool),
    w: Seq<char>,
)
    requires
        !st.4,
        forall|k: int| 0 <= k < w.len() ==> w[k] != '"' && w[k] != ' ' && w[k] != '\t',
    ensures
        split_from(st, w) == (st.0, st.1, st.2 + w, st.3, false),
    decreases w.len(),
{
    if w.len() == 0 {
        assert(st.2 + w =~= st.2);
    } else {
        lemma_split_plain_word(st, w.drop_last());
        assert(st.2 + w =~= (st.2 + w.drop_last()).push(w.last()));
    }
}

/// Arguments joined by single spaces, after the program, come back as the words.
proof fn lemma_split_joined_args(program: Seq<char>, done: Seq<Seq<char>>, args: Seq<Seq<char>>)
    requires
        args.len() > 0,
        forall|i: int| 0 <= i < args.len() ==> #[trigger] args[i].len() > 0,
        forall|i: int, k: int|
            0 <= i < args.len() && 0 <= k < args[i].len() ==> #[trigger] args[i][k] != '"'
                && args[i][k] != ' ' && args[i][k] != '\t',
    ensures
        split_from((program, done, Seq::empty(), false, false), join(args, seq![' '])) == (
            program,
            done + args.drop_last(),
            args.last(),
            false,
            false,
        ),
    decreases args.len(),
{
    let st = (program, done, Seq::<char>::empty(), false, false);
    let last = args.last();
    assert(last == args[args.len() - 1]);
    assert(last.len() > 0);
    if args.len() == 1 {
        lemma_split_plain_word(st, args[0]);
        assert(Seq::<char>::empty() + args[0] =~= args[0]);
        assert(done + args.drop_last() =~= done);
    } else {
        let front = args.drop_last();
        assert forall|i: int| 0 <= i < front.len() implies #[trigger] front[i].len() > 0 by {
            assert(front[i] == args[i]);
        }
        assert forall|i: int, k: int| 0 <= i < front.len() && 0 <= k < front[i].len() implies #[trigger] front[i][k]
            != '"' && front[i][k] != ' ' && front[i][k] != '\t' by {
            assert(front[i] == args[i]);
            assert(args[i][k] != '"');
        }
        lemma_split_joined_args(program, done, front);
        let j = join(front, seq![' ']);
        lemma_split_from_push(st, j, ' ');
        let f_last = front.last();
        assert(f_last == front[front.len() - 1]);
        assert(f_last.len() > 0);
        let mid = (program, (done + front.drop_last()).push(f_last), Seq::<char>::empty(), false, false);
        assert(split_from(st, j.push(' ')) == mid);
        assert((done + front.drop_last()).push(f_last) =~= done + front);
        lemma_split_plain_word(mid, last);
        assert(Seq::<char>::empty() + last =~= last);
        assert(join(args, seq![' ']) =~= j.push(' ') + last);
        lemma_split_from_concat(st, j.push(' '), last);
    }
}

/// Every character of `join(parts, sep)` is one of `sep` or of a part.
proof fn lemma_join_chars(parts: Seq<Seq<char>>, sep: Seq<char>, ok: spec_fn(char) -> bool)
    requires
        forall|k: int| 0 <= k < sep.len() ==> ok(#[trigger] sep[k]),
        forall|i: int, k: int| 0 <= i < parts.len() && 0 <= k < parts[i].len() ==> ok(#[trigger] parts[i][k]),
    ensures
        forall|k: int| 0 <= k < join(parts, sep).len() ==> ok(#[trigger] join(parts, sep)[k]),
    decreases parts.len(),
{
    if parts.len() >= 2 {
        let front = parts.drop_last();
        assert forall|i: int, k: int| 0 <= i < front.len() && 0 <= k < front[i].len() implies ok(
            #[trigger] front[i][k],
        ) by {
            assert(front[i] == parts[i]);
        }
        lemma_join_chars(front, sep, ok);
        let j = join(front, sep);
        let last = parts.last();
        assert(last == parts[parts.len() - 1]);
        assert forall|k: int| 0 <= k < join(parts, sep).len() implies ok(#[trigger] join(parts, sep)[k]) by {
            if k < j.len() {
                assert(join(parts, sep)[k] == j[k]);
            } else if k < j.len() + sep.len() {
                assert(join(parts, sep)[k] == sep[k - j.len()]);
            } else {
                assert(join(parts, sep)[k] == last[k - j.len() - sep.len()]);
                assert(ok(parts[parts.len() - 1][k - j.len() - sep.len()]));
            }
        }
    } else if parts.len() == 1 {
        assert forall|k: int| 0 <= k < join(parts, sep).len() implies ok(#[trigger] join(parts, sep)[k]) by {
            assert(join(parts, sep)[k] == parts[0][k]);
        }
    }
}

/// The last character of joined non-empty parts is that of the last part.
proof fn lemma_join_last(parts: Seq<Seq<char>>, sep: Seq<char>)
    requires
        parts.len() > 0,
        parts.last().len() > 0,
    ensures
        join(parts, sep).len() > 0,
        join(parts, sep).last() == parts.last().last(),
{
}

/// Text in which `c` never occurs has no `c` to find.
proof fn lemma_find_from_absent(s: Seq<char>, c: char, from: int)
    requires
        0 <= from,
        forall|k: int| 0 <= k < s.len() ==> s[k] != c,
    ensures
        find_from(s, c, from) is None,
    decreases s.len() - from,
{
    if from < s.len() {
        lemma_find_from_absent(s, c, from + 1);
    }
}

/// A quoted program followed by a space and its arguments, joined by single spaces,
/// splits back into that program and those arguments: the quotes keep the spaces of
/// the program and are dropped.  The program is not empty, and neither it nor the
/// arguments hold `"` or `%`; the arguments are not empty and hold no white space.
pub proof fn law_quoted_program_round_trip(
    p: Seq<char>,
    args: Seq<Seq<char>>,
    env: Seq<(Seq<char>, Option<Seq<char>>)>,
)
    requires
        p.len() > 0,
        forall|k: int| 0 <= k < p.len() ==> #[trigger] p[k] != '"' && p[k] != '%',
        forall|i: int| 0 <= i < args.len() ==> #[trigger] args[i].len() > 0,
        forall|i: int, k: int|
            0 <= i < args.len() && 0 <= k < args[i].len() ==> #[trigger] args[i][k] != '"'
                && args[i][k] != '%' && !is_space(args[i][k]),
    ensures
        split_command_spec(seq!['"'] + p + seq!['"', ' '] + join(args, seq![' ']), env) == (p, args),
{
    let j = join(args, seq![' ']);
    let head = (seq!['"'] + p).push('"');
    let q = seq!['"'] + p + seq!['"', ' '] + j;
    assert(q =~= head.push(' ') + j);
    // No `%` anywhere, so expansion changes nothing.
    let no_pct = |c: char| c != '%';
    assert forall|i: int, k: int| 0 <= i < args.len() && 0 <= k < args[i].len() implies no_pct(
        #[trigger] args[i][k],
    ) by {}
    lemma_join_chars(args, seq![' '], no_pct);
    assert forall|k: int| 0 <= k < q.len() implies q[k] != '%' by {
        if k == 0 {
        } else if k < p.len() + 1 {
            assert(q[k] == p[k - 1]);
        } else if k < p.len() + 3 {
        } else {
            assert(q[k] == j[k - p.len() - 3]);
            assert(no_pct(j[k - p.len() - 3]));
        }
    }
    // Trimming drops only the trailing space that stands there when no argument follows.
    assert(!is_space('"'));
    assert(is_space(' '));
    assert(crate::text::trim_start(q) == q);
    let t = if args.len() == 0 {
        q.drop_last()
    } else {
        q
    };
    if args.len() == 0 {
        assert(q =~= head.push(' '));
        assert(q.drop_last() =~= head);
        assert(crate::text::trim_end(q.drop_last()) == q.drop_last());
    } else {
        let last = args.last();
        assert(last == args[args.len() - 1]);
        assert(last.len() > 0);
        lemma_join_last(args, seq![' ']);
        assert(q.last() == last.last());
        assert(!is_space(last[last.len() - 1]));
    }
    assert(crate::text::trim(q) == t);
    assert forall|k: int| 0 <= k < t.len() implies t[k] != '%' by {
        assert(t[k] == q[k]);
    }
    lemma_find_from_absent(t, '%', 0);
    law_expansion_needs_percent(t, env);
    // Splitting: the quoted program becomes the current word, the space ends it.
    let opened = split_from(split_start(), seq!['"']);
    lemma_split_from_push(split_start(), Seq::empty(), '"');
    assert(seq!['"'] =~= Seq::<char>::empty().push('"'));
    assert(opened == (Seq::<char>::empty(), Seq::<Seq<char>>::empty(), Seq::<char>::empty(), true, true));
    lemma_split_quoted_run(opened, p);
    lemma_split_from_concat(split_start(), seq!['"'], p);
    assert(Seq::<char>::empty() + p =~= p);
    lemma_split_from_push(split_start(), seq!['"'] + p, '"');
    assert(split_from(split_start(), head) == (Seq::<char>::empty(), Seq::<Seq<char>>::empty(), p, true, false));
    lemma_split_run_from(t);
    if args.len() == 0 {
        assert(t == head);
    } else {
        lemma_split_from_push(split_start(), head, ' ');
        let named = (p, Seq::<Seq<char>>::empty(), Seq::<char>::empty(), false, false);
        assert(split_from(split_start(), head.push(' ')) == named);
        assert forall|i: int, k: int| 0 <= i < args.len() && 0 <= k < args[i].len() implies #[trigger] args[i][k]
            != '"' && args[i][k] != ' ' && args[i][k] != '\t' by {
            assert(!is_space(args[i][k]));
            assert(is_space('\t'));
        }
        lemma_split_joined_args(p, Seq::empty(), args);
        lemma_split_from_concat(split_start(), head.push(' '), j);
        assert(Seq::<Seq<char>>::empty() + args.drop_last() =~= args.drop_last());
        assert(args.drop_last().push(args.last()) =~= args);
    }
}

/// Splits an (already expanded) command line into program and arguments.
pub fn split_words_exec(s: &[char]) -> (r: (Vec<char>, Vec<Vec<char>>))
    ensures
        r.0@ == split_words(s@).0,
        words_view(r.1@) == split_words(s@).1,
{
    let mut program: Vec<char> = Vec::new();
    let mut args: Vec<Vec<char>> = Vec::new();
    let mut current: Vec<char> = Vec::new();
    let mut in_program = true;
    let mut quoted = false;
    let mut i: usize = 0;
    while i < s.len()
        invariant
            i <= s@.len(),
            split_run(s@.take(i as int)) == (program@, words_view(args@), current@, in_program, quoted),
        decreases s.len() - i,
    {
        let c = s[i];
        proof {
            assert(s@.take(i + 1).drop_last() =~= s@.take(i as int));
            assert(s@.take(i + 1).last() == c);
        }
        if c == '"' {
            quoted = !quoted;
        } else if (c == ' ' || c == '\t') && !quoted {
            if in_program {
                if current.len() > 0 {
                    program = current;
                    current = Vec::new();
                    in_program = false;
                }
            } else if current.len() > 0 {
                let word = current;
                current = Vec::new();
                let ghost before = words_view(args@);
                let ghost wv = word@;
                args.push(word);
                proof {
                    assert(words_view(args@) =~= before.push(wv));
                }
            }
        } else {
            current.push(c);
        }
        i = i + 1;
    }
    assert(s@.take(s@.len() as int) =~= s@);
    if in_program {
        (current, args)
    } else {
        if current.len() > 0 {
            let ghost before = words_view(args@);
            args.push(current);
            assert(words_view(args@) =~= before.push(args@.last()@));
        }
        (program, args)
    }
}

pub open spec fn words_view(v: Seq<Vec<char>>) -> Seq<Seq<char>> {
    v.map_values(|w: Vec<char>| w@)
}


fn words_to_strings(words: &Vec<Vec<char>>) -> (r: Vec<String>)
    ensures
        views(r@) == words_view(words@),
{
    let mut r: Vec<String> = Vec::new();
    let mut i: usize = 0;
    while i < words.len()
        invariant
            i <= words@.len(),
            views(r@) == words_view(words@.take(i as int)),
        decreases words.len() - i,
    {
        let ghost before = views(r@);
        r.push(string_of(&words[i]));
        proof {
            assert(views(r@) =~= before.push(words@[i as int]@));
            assert(words_view(words@.take(i + 1)) =~= words_view(words@.take(i as int)).push(
                words@[i as int]@,
            ));
        }
        i = i + 1;
    }
    assert(words@.take(words@.len() as int) =~= words@);
    r
}

/// Splits a command line into program and arguments after trimming it and
/// expanding `%NAME%` references (see `split_words` and `expand_spec`).  Double
/// quotes group words and are dropped.  `env` holds the values of the variables
/// named by `env_var_refs` of the command line.
pub fn split_command_line(input: &str, env: &EnvValues) -> (r: (String, Vec<String>))
    ensures
        r.0@ == split_command_spec(input@, env_view(env@)).0,
        views(r.1@) == split_command_spec(input@, env_view(env@)).1,
{
    let chars = chars_of(input);
    let trimmed = trim_chars(&chars);
    let expanded = expand_chars(&trimmed, env);
    let (program, args) = split_words_exec(&expanded);
    (string_of(&program), words_to_strings(&args))
}

/// The extension of a path as `std::path::Path::extension` finds it: the part of
/// the final component after its last `.` (a leading `.` does not count).  It
/// follows the path syntax of the platform the program is built for.
pub uninterp spec fn path_extension_of(path: Seq<char>) -> Option<Seq<char>>;

/// Calls `std::path::Path::extension` and converts the result to a `String` (a
/// `&str` path always has a UTF-8 extension).  Trusted claim: the result is
/// `path_extension_of` of the path, a function of the path alone; nothing more is
/// stated about it.
#[verifier::external_body]
pub(crate) fn path_extension(path: &str) -> (r: Option<String>)
    ensures
        opt_view(r) == path_extension_of(path@),
{
    match std::path::Path::new(path).extension() {
        Some(ext) => match ext.to_str() {
            Some(text) => Some(text.to_string()),
            None => None,
        },
        None => None,
    }
}

/// The lower-cased extension, or empty when there is none.
pub open spec fn lower_ext(ext: Option<Seq<char>>) -> Seq<char> {
    match ext {
        Some(e) => ascii_lower(e),
        None => Seq::empty(),
    }
}

/// How a command line is started.
#[derive(Debug)]
pub enum CommandPlan {
    /// The command line is empty: nothing to do.
    Nothing,
    /// No program could be found in it.
    Unparsable,
    /// A batch file: run the whole expanded line with `cmd.exe /S /C`.
    Batch { command_line: String },
    /// A PowerShell script: run it with PowerShell `-File`, passing the arguments.
    Script { script: String, args: Vec<String> },
    /// Any other program: look it up and start it with the arguments.
    Program { program: String, args: Vec<String> },
}

/// The plan for a command line whose expanded text is `expanded`, split into
/// `program` and `args`, where the program has the extension `ext`.
pub open spec fn command_plan_spec(
    expanded: Seq<char>,
    program: Seq<char>,
    args: Seq<Seq<char>>,
    ext: Option<Seq<char>>,
    r: CommandPlan,
) -> bool {
    let e = lower_ext(ext);
    if program.len() == 0 {
        r is Unparsable
    } else if e == "bat"@ || e == "cmd"@ {
        r matches CommandPlan::Batch { command_line } && command_line@ == expanded
    } else if e == "ps1"@ {
        r matches CommandPlan::Script { script, args: a } && script@ == program && views(a@) == args
    } else {
        r matches CommandPlan::Program { program: p, args: a } && p@ == program && views(a@) == args
    }
}

/// Chooses how to start a split command line from the extension of its program:
/// `.bat`/`.cmd` through `cmd.exe`, `.ps1` through PowerShell, anything else
/// directly (letters compared without case).
pub fn command_plan(expanded: &str, program: String, args: Vec<String>, ext: Option<String>) -> (r: CommandPlan)
    ensures
        command_plan_spec(expanded@, program@, views(args@), opt_view(ext), r),
{
    if program.unicode_len() == 0 {
        return CommandPlan::Unparsable;
    }
    let e: Vec<char> = match &ext {
        Some(x) => {
            let c = chars_of(x.as_str());
            to_ascii_lower(&c)
        },
        None => Vec::new(),
    };
    assert(e@ == lower_ext(opt_view(ext)));
    let is_bat = slice_is(&e, "bat");
    let is_cmd = slice_is(&e, "cmd");
    if is_bat || is_cmd {
        return CommandPlan::Batch { command_line: String::from_str(expanded) };
    }
    if slice_is(&e, "ps1") {
        return CommandPlan::Script { script: program, args };
    }
    CommandPlan::Program { program, args }
}

/// `chars` spells out `word`.
pub fn slice_is(chars: &[char], word: &str) -> (r: bool)
    ensures
        r == (chars@ == word@),
{
    let w = chars_of(word);
    if w.len() != chars.len() {
        return false;
    }
    let r = crate::text::starts_with(chars, &w);
    proof {
        if r {
            assert(chars@ =~= w@);
        }
        if chars@ == w@ {
            assert(chars@.take(w@.len() as int) =~= w@);
        }
    }
    r
}

/// The plan for the command line `target` (see `run_plan_ok`).
pub open spec fn run_plan_ok(target: Seq<char>, env: Seq<(Seq<char>, Option<Seq<char>>)>, r: CommandPlan) -> bool {
    let expanded = crate::text::trim(expand_spec(target, env));
    if expanded.len() == 0 {
        r is Nothing
    } else {
        let words = split_command_spec(expanded, env);
        command_plan_spec(expanded, words.0, words.1, path_extension_of(words.0), r)
    }
}

/// Plans running `target` as a command line: it is expanded and trimmed (empty:
/// nothing to do), then split again with expansion, and its program's extension
/// decides how it is started (see `command_plan`).  `env` holds the values of the
/// variables referred to by `target` and by its expansion.
pub fn plan_command_line(target: &str, env: &EnvValues) -> (r: CommandPlan)
    ensures
        run_plan_ok(target@, env_view(env@), r),
{
    let t = chars_of(target);
    let once = expand_chars(&t, env);
    let expanded = trim_chars(&once);
    if expanded.len() == 0 {
        return CommandPlan::Nothing;
    }
    let text = string_of(&expanded);
    let (program, args) = split_command_line(text.as_str(), env);
    let ext = path_extension(program.as_str());
    command_plan(text.as_str(), program, args, ext)
}


/// `s` without leading and trailing `c` characters (`str::trim_matches` with a char).
pub open spec fn strip_char(s: Seq<char>, c: char) -> Seq<char>
    decreases s.len(),
{
    if s.len() > 0 && s[0] == c {
        strip_char(s.drop_first(), c)
    } else if s.len() > 0 && s.last() == c {
        strip_char(s.drop_last(), c)
    } else {
        s
    }
}

fn strip_char_exec(s: &[char], c: char) -> (r: Vec<char>)
    ensures
        r@ == strip_char(s@, c),
{
    let mut i: usize = 0;
    let mut j: usize = s.len();
    assert(s@.subrange(0, s@.len() as int) =~= s@);
    while i < j && (s[i] == c || s[j - 1] == c)
        invariant
            i <= j <= s@.len(),
            strip_char(s@, c) == strip_char(s@.subrange(i as int, j as int), c),
        decreases j - i,
    {
        let ghost cur = s@.subrange(i as int, j as int);
        if s[i] == c {
            assert(cur.drop_first() =~= s@.subrange(i + 1, j as int));
            i = i + 1;
        } else {
            assert(cur.drop_last() =~= s@.subrange(i as int, j - 1));
            j = j - 1;
        }
    }
    slice_chars(s, i, j)
}

/// The file an elevated launch refers to: the trimmed target without surrounding quotes.
pub open spec fn elevated_target_spec(target: Seq<char>) -> Seq<char> {
    strip_char(crate::text::trim(target), '"')
}

/// The target of an elevated launch, trimmed and without surrounding quotes.
pub fn elevated_target(target: &str) -> (r: String)
    ensures
        r@ == elevated_target_spec(target@),
{
    let t = chars_of(target);
    let trimmed = trim_chars(&t);
    let stripped = strip_char_exec(&trimmed, '"');
    string_of(&stripped)
}

/// How an existing file is started with administrator rights.
#[derive(Debug)]
pub enum ElevatedFile {
    /// A batch file: `cmd.exe` with these parameters.
    Batch { params: String },
    /// A PowerShell script: PowerShell (`pwsh.exe` when present, else
    /// `powershell.exe`) with these parameters.
    Script { params: String },
    /// Anything else: the file itself, without parameters.
    Direct,
}

/// The plan for starting the file `file` (extension `ext`) elevated.
pub open spec fn elevated_file_spec(file: Seq<char>, ext: Option<Seq<char>>, r: ElevatedFile) -> bool {
    let e = lower_ext(ext);
    if e == "bat"@ || e == "cmd"@ {
        r matches ElevatedFile::Batch { params } && params@ == "/S /C \""@ + crate::text::replace_all(
            file,
            "\""@,
            "\"\""@,
        ) + "\""@
    } else if e == "ps1"@ {
        r matches ElevatedFile::Script { params } && params@ == "-NoProfile -ExecutionPolicy Bypass -File \""@
            + file + "\""@
    } else {
        r is Direct
    }
}

/// Chooses how to start the existing file `file`, whose extension is `ext`, with
/// administrator rights: batch files through `cmd.exe /S /C "<file>"` (inner quotes
/// doubled), PowerShell scripts with `-File "<file>"`, anything else directly.
pub fn elevated_file_plan_for(file: &str, ext: Option<String>) -> (r: ElevatedFile)
    ensures
        elevated_file_spec(file@, opt_view(ext), r),
{
    let e: Vec<char> = match &ext {
        Some(x) => {
            let c = chars_of(x.as_str());
            to_ascii_lower(&c)
        },
        None => Vec::new(),
    };
    if slice_is(&e, "bat") || slice_is(&e, "cmd") {
        let f = chars_of(file);
        let quote = chars_of("\"");
        let doubled = chars_of("\"\"");
        proof {
            reveal_strlit("\"");
        }
        let escaped = crate::text::replace_chars(&f, &quote, &doubled);
        let mut params = String::from_str("/S /C \"");
        params.append(string_of(&escaped).as_str());
        params.append("\"");
        return ElevatedFile::Batch { params };
    }
    if slice_is(&e, "ps1") {
        let mut params = String::from_str("-NoProfile -ExecutionPolicy Bypass -File \"");
        params.append(file);
        params.append("\"");
        return ElevatedFile::Script { params };
    }
    ElevatedFile::Direct
}

/// Chooses how to start the existing file `file` elevated, from its extension.
pub fn elevated_file_plan(file: &str) -> (r: ElevatedFile)
    ensures
        elevated_file_spec(file@, path_extension_of(file@), r),
{
    let ext = path_extension(file);
    elevated_file_plan_for(file, ext)
}

/// Splits a command line to be started elevated when it does not name an existing
/// file: `None` when no program is found, otherwise the program and the arguments
/// joined with spaces.
pub fn elevated_command(target: &str, env: &EnvValues) -> (r: Option<(String, String)>)
    ensures
        ({
            let words = split_command_spec(crate::text::trim(target@), env_view(env@));
            &&& (r is None) == (words.0.len() == 0)
            &&& r matches Some(p) ==> p.0@ == words.0 && p.1@ == crate::text::join(words.1, " "@)
        }),
{
    let t = chars_of(target);
    let trimmed = string_of(&trim_chars(&t));
    let (program, args) = split_command_line(trimmed.as_str(), env);
    if program.unicode_len() == 0 {
        return None;
    }
    let joined = crate::text::join_strings(&args, " ");
    Some((program, joined))
}

/// The message for a program that cannot be found for an elevated launch.
pub fn missing_program_message(program: &str) -> (r: String)
    ensures
        r@ == "找不到程序 "@ + program@ + "，管理员模式需要完整路径"@,
{
    let mut r = String::from_str("找不到程序 ");
    r.append(program);
    r.append("，管理员模式需要完整路径");
    r
}

/// A launch that the Windows shell refused, with the code it returned.
pub enum ShellFailure {
    /// Starting a program or file with administrator rights.
    Elevated(i64),
    /// Starting a PowerShell command with administrator rights.
    ElevatedScript(i64),
    /// Starting the downloaded update installer.
    UpdateInstaller(i64),
    /// Opening an address in the browser.
    ExternalLink(i64),
    /// Starting the startup helper through UAC.
    Uac(i64),
    /// Opening a file or URI, after which running it as a command line failed too
    /// with the given message.
    OpenThenCommand(i64, String),
}

/// The error message for a refused launch.
pub open spec fn shell_failure_text(f: ShellFailure) -> Seq<char> {
    match f {
        ShellFailure::Elevated(code) => "管理员启动失败："@ + decimal(code as int),
        ShellFailure::ElevatedScript(code) => "管理员 PowerShell 启动失败："@ + decimal(code as int),
        ShellFailure::UpdateInstaller(code) => "无法启动更新安装程序："@ + decimal(code as int),
        ShellFailure::ExternalLink(code) => "无法打开外部链接："@ + decimal(code as int),
        ShellFailure::Uac(code) => "UAC 启动失败："@ + decimal(code as int),
        ShellFailure::OpenThenCommand(code, error) => "无法打开文件或 URI："@ + decimal(code as int)
            + "；按命令行执行也失败："@ + error@,
    }
}

/// The error message for a refused launch (see `shell_failure_text`).
pub fn shell_failure_message(f: ShellFailure) -> (r: String)
    ensures
        r@ == shell_failure_text(f),
{
    let (prefix, code): (&str, i64) = match &f {
        ShellFailure::Elevated(code) => ("管理员启动失败：", *code),
        ShellFailure::ElevatedScript(code) => ("管理员 PowerShell 启动失败：", *code),
        ShellFailure::UpdateInstaller(code) => ("无法启动更新安装程序：", *code),
        ShellFailure::ExternalLink(code) => ("无法打开外部链接：", *code),
        ShellFailure::Uac(code) => ("UAC 启动失败：", *code),
        ShellFailure::OpenThenCommand(code, _) => ("无法打开文件或 URI：", *code),
    };
    let mut r = String::from_str(prefix);
    r.append(decimal_string(code).as_str());
    if let ShellFailure::OpenThenCommand(_, error) = &f {
        r.append("；按命令行执行也失败：");
        r.append(error.as_str());
    }
    r
}

/// How a launcher action is carried out.
#[derive(Debug)]
pub enum ActionRoute {
    /// The target is blank: nothing to do.
    Nothing,
    /// A PowerShell command with administrator rights: `pwsh.exe` with these parameters.
    ElevatedScript { params: String },
    /// A PowerShell command (`pwsh.exe`, else `powershell.exe`, with `-Command`).
    Script,
    /// A program or file with administrator rights.
    Elevated,
    /// Opened through the shell, falling back to running it as a command line.
    Open,
}

/// The route of the action `target` with the given options.
pub open spec fn action_route_spec(target: Seq<char>, elevated: bool, script: bool, r: ActionRoute) -> bool {
    if crate::text::trim(target).len() == 0 {
        r is Nothing
    } else if script && elevated {
        r matches ActionRoute::ElevatedScript { params } && params@ == "-NoProfile -ExecutionPolicy Bypass -Command \""@
            + crate::text::replace_all(target, "\""@, "\\\""@) + "\""@
    } else if script {
        r is Script
    } else if elevated {
        r is Elevated
    } else {
        r is Open
    }
}

/// Decides how to carry out an action: blank targets do nothing; PowerShell
/// commands run with `-Command` (elevated ones with their quotes escaped as `\"`);
/// elevated targets start with administrator rights; anything else is opened
/// through the shell.
pub fn action_route(target: &str, elevated: bool, script: bool) -> (r: ActionRoute)
    ensures
        action_route_spec(target@, elevated, script, r),
{
    let t = chars_of(target);
    let trimmed = trim_chars(&t);
    if trimmed.len() == 0 {
        return ActionRoute::Nothing;
    }
    if script && elevated {
        let quote = chars_of("\"");
        let escaped_quote = chars_of("\\\"");
        proof {
            reveal_strlit("\"");
        }
        let escaped = crate::text::replace_chars(&t, &quote, &escaped_quote);
        let mut params = String::from_str("-NoProfile -ExecutionPolicy Bypass -Command \"");
        params.append(string_of(&escaped).as_str());
        params.append("\"");
        return ActionRoute::ElevatedScript { params };
    }
    if script {
        return ActionRoute::Script;
    }
    if elevated {
        return ActionRoute::Elevated;
    }
    ActionRoute::Open
}


/// The program is given as a path (it holds a `/` or `\\`), so it is not searched for.
pub fn names_a_path(program: &str) -> (r: bool)
    ensures
        r == (program@.contains('/') || program@.contains('\\')),
{
    let p = chars_of(program);
    let mut i: usize = 0;
    while i < p.len()
        invariant
            i <= p@.len(),
            p@ == program@,
            forall|k: int| 0 <= k < i ==> p@[k] != '/' && p@[k] != '\\',
        decreases p.len() - i,
    {
        if p[i] == '/' || p[i] == '\\' {
            assert(p@[i as int] == p@[i as int]);
            return true;
        }
        i = i + 1;
    }
    false
}

/// Progress of splitting a `PATH` value at `;`: `(entries, current entry)`.
pub open spec fn path_list_run(s: Seq<char>) -> (Seq<Seq<char>>, Seq<char>)
    decreases s.len(),
{
    if s.len() == 0 {
        (Seq::empty(), Seq::empty())
    } else {
        let (es, cur) = path_list_run(s.drop_last());
        if s.last() == ';' {
            if cur.len() > 0 {
                (es.push(cur), Seq::empty())
            } else {
                (es, Seq::empty())
            }
        } else {
            (es, cur.push(s.last()))
        }
    }
}

/// The non-empty entries of a `PATH` value, in order.
pub open spec fn path_list_spec(s: Seq<char>) -> Seq<Seq<char>> {
    let (es, cur) = path_list_run(s);
    if cur.len() > 0 {
        es.push(cur)
    } else {
        es
    }
}

/// The directories of a `PATH` value: its `;`-separated entries, empty ones dropped.
pub fn split_path_list(path: &str) -> (r: Vec<String>)
    ensures
        views(r@) == path_list_spec(path@),
{
    let s = chars_of(path);
    let mut es: Vec<Vec<char>> = Vec::new();
    let mut cur: Vec<char> = Vec::new();
    let mut i: usize = 0;
    while i < s.len()
        invariant
            i <= s@.len(),
            path_list_run(s@.take(i as int)) == (words_view(es@), cur@),
        decreases s.len() - i,
    {
        let c = s[i];
        proof {
            assert(s@.take(i + 1).drop_last() =~= s@.take(i as int));
            assert(s@.take(i + 1).last() == c);
        }
        if c == ';' {
            if cur.len() > 0 {
                let entry = cur;
                cur = Vec::new();
                let ghost before = words_view(es@);
                let ghost ev = entry@;
                es.push(entry);
                assert(words_view(es@) =~= before.push(ev));
            }
        } else {
            cur.push(c);
        }
        i = i + 1;
    }
    assert(s@.take(s@.len() as int) =~= s@);
    if cur.len() > 0 {
        let ghost before = words_view(es@);
        let ghost cv = cur@;
        es.push(cur);
        assert(words_view(es@) =~= before.push(cv));
    }
    words_to_strings(&es)
}

/// A directory searched for a program.
pub enum SearchDir {
    /// The current directory.
    Current,
    /// This directory.
    Dir(String),
    /// The directory `.1` inside the directory `.0`.
    Under(String, String),
}

/// What a `SearchDir` names, as plain text.
pub enum SearchDirModel {
    Current,
    Dir(Seq<char>),
    Under(Seq<char>, Seq<char>),
}

pub open spec fn search_dir_view(d: SearchDir) -> SearchDirModel {
    match d {
        SearchDir::Current => SearchDirModel::Current,
        SearchDir::Dir(s) => SearchDirModel::Dir(s@),
        SearchDir::Under(s, t) => SearchDirModel::Under(s@, t@),
    }
}

pub open spec fn search_dirs_view(v: Seq<SearchDir>) -> Seq<SearchDirModel> {
    v.map_values(|d: SearchDir| search_dir_view(d))
}

/// Where a program named without a directory is looked for, in order: the current
/// directory (when there is one), the entries of `PATH`, then `System32` inside the
/// system root and the system root itself.  A program given as a path is not searched.
pub open spec fn program_search_dirs_spec(
    program: Seq<char>,
    has_current: bool,
    path: Option<Seq<char>>,
    system_root: Option<Seq<char>>,
) -> Seq<SearchDirModel> {
    if program.contains('/') || program.contains('\\') {
        Seq::empty()
    } else {
        let here = if has_current {
            seq![SearchDirModel::Current]
        } else {
            Seq::empty()
        };
        let listed = match path {
            Some(p) => path_list_spec(p).map_values(|d: Seq<char>| SearchDirModel::Dir(d)),
            None => Seq::empty(),
        };
        let system = match system_root {
            Some(r) => seq![SearchDirModel::Under(r, "System32"@), SearchDirModel::Dir(r)],
            None => Seq::empty(),
        };
        here + listed + system
    }
}

/// The directories to search for `program`, in order (see `program_search_dirs_spec`);
/// `path` and `system_root` are the values of `PATH` and `SystemRoot`, if set.
pub fn program_search_dirs(
    program: &str,
    has_current: bool,
    path: Option<String>,
    system_root: Option<String>,
) -> (r: Vec<SearchDir>)
    ensures
        search_dirs_view(r@) == program_search_dirs_spec(
            program@,
            has_current,
            opt_view(path),
            opt_view(system_root),
        ),
{
    let mut dirs: Vec<SearchDir> = Vec::new();
    if names_a_path(program) {
        assert(search_dirs_view(dirs@) =~= Seq::<SearchDirModel>::empty());
        return dirs;
    }
    if has_current {
        dirs.push(SearchDir::Current);
    }
    let ghost here = search_dirs_view(dirs@);
    assert(here =~= (if has_current {
        seq![SearchDirModel::Current]
    } else {
        Seq::<SearchDirModel>::empty()
    }));
    let ghost listed: Seq<SearchDirModel> = Seq::empty();
    match path {
        Some(p) => {
            let entries = split_path_list(p.as_str());
            let ghost ev = views(entries@);
            let mut i: usize = 0;
            while i < entries.len()
                invariant
                    i <= entries@.len(),
                    ev == views(entries@),
                    ev == path_list_spec(p@),
                    search_dirs_view(dirs@) == here + ev.take(i as int).map_values(
                        |d: Seq<char>| SearchDirModel::Dir(d),
                    ),
                decreases entries.len() - i,
            {
                let ghost before = search_dirs_view(dirs@);
                let e = entries[i].clone();
                dirs.push(SearchDir::Dir(e));
                assert(ev[i as int] == entries@[i as int]@);
                assert(search_dirs_view(dirs@) =~= before.push(SearchDirModel::Dir(ev[i as int])));
                assert(ev.take(i + 1).map_values(|d: Seq<char>| SearchDirModel::Dir(d)) =~= ev.take(
                    i as int,
                ).map_values(|d: Seq<char>| SearchDirModel::Dir(d)).push(SearchDirModel::Dir(ev[i as int])));
                i = i + 1;
            }
            assert(ev.take(entries@.len() as int) =~= ev);
            proof {
                listed = ev.map_values(|d: Seq<char>| SearchDirModel::Dir(d));
            }
        },
        None => {
            assert(search_dirs_view(dirs@) =~= here + Seq::<SearchDirModel>::empty());
        },
    }
    let ghost middle = search_dirs_view(dirs@);
    assert(middle == here + listed);
    match system_root {
        Some(root) => {
            dirs.push(SearchDir::Under(root.clone(), String::from_str("System32")));
            dirs.push(SearchDir::Dir(root));
            proof {
                reveal_strlit("System32");
            }
            assert(search_dirs_view(dirs@) =~= middle + seq![
                SearchDirModel::Under(root@, "System32"@),
                SearchDirModel::Dir(root@),
            ]);
        },
        None => {
            assert(search_dirs_view(dirs@) =~= middle + Seq::<SearchDirModel>::empty());
        },
    }
    dirs
}


/// Expansion reads only the variables that `env_var_refs` lists: two sets of values
/// that agree on those names give the same text.
pub proof fn law_expansion_reads_only_listed_names(
    s: Seq<char>,
    e1: Seq<(Seq<char>, Option<Seq<char>>)>,
    e2: Seq<(Seq<char>, Option<Seq<char>>)>,
)
    requires
        forall|i: int| 0 <= i < refs_spec(s).len() ==> env_lookup(e1, #[trigger] refs_spec(s)[i])
            == env_lookup(e2, refs_spec(s)[i]),
    ensures
        expand_spec(s, e1) == expand_spec(s, e2),
    decreases s.len(),
{
    match find_from(s, '%', 0) {
        None => {},
        Some(start) => {
            lemma_find_from_bounds(s, '%', 0);
            let tail = s.skip(start + 1);
            lemma_find_from_bounds(tail, '%', 0);
            match percent_ref(s) {
                Some(r) => {
                    let rs = refs_spec(s);
                    assert(rs == seq![r.1] + refs_spec(r.2));
                    assert(rs[0] == r.1);
                    assert forall|i: int| 0 <= i < refs_spec(r.2).len() implies env_lookup(
                        e1,
                        #[trigger] refs_spec(r.2)[i],
                    ) == env_lookup(e2, refs_spec(r.2)[i]) by {
                        assert(rs[i + 1] == refs_spec(r.2)[i]);
                    }
                    law_expansion_reads_only_listed_names(r.2, e1, e2);
                },
                None => {
                    law_expansion_reads_only_listed_names(tail, e1, e2);
                },
            }
        },
    }
}

} // verus!
