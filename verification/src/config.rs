//! The configuration parser: command-line tokens become a record of the
//! target path and nine independent boolean flags. A token starting with `-`
//! toggles one flag per following character, unrecognized characters are
//! ignored, and a bare token replaces the target path, the last one winning.

use vstd::prelude::*;
use vstd::string::StrSliceExecFns;
use vstd::string::StringExecFns;

verus! {

/// The mathematical value of a configuration: the target path as a character
/// sequence, and the nine flags.
#[allow(non_snake_case)]
#[verifier::ext_equal]
pub ghost struct ConfigV {
    pub path: Seq<char>,
    pub l: bool,
    pub a: bool,
    pub F: bool,
    pub h: bool,
    pub S: bool,
    pub R: bool,
    pub r: bool,
    pub t: bool,
    pub d: bool,
}

/// The parsed command line: a target path and nine independent flags.
#[allow(non_snake_case)]
#[derive(Debug)]
pub struct Config {
    pub path: String,
    pub l: bool,
    pub a: bool,
    pub F: bool,
    pub h: bool,
    pub S: bool,
    pub R: bool,
    pub r: bool,
    pub t: bool,
    pub d: bool,
}

impl View for Config {
    type V = ConfigV;

    open spec fn view(&self) -> ConfigV {
        ConfigV {
            path: self.path@,
            l: self.l,
            a: self.a,
            F: self.F,
            h: self.h,
            S: self.S,
            R: self.R,
            r: self.r,
            t: self.t,
            d: self.d,
        }
    }
}

impl PartialEq for Config {
    fn eq(&self, other: &Config) -> (r: bool) {
        self.path == other.path && self.l == other.l && self.a == other.a && self.F == other.F
            && self.h == other.h && self.S == other.S && self.R == other.R && self.r == other.r
            && self.t == other.t && self.d == other.d
    }
}

impl vstd::std_specs::cmp::PartialEqSpecImpl for Config {
    open spec fn obeys_eq_spec() -> bool {
        true
    }

    open spec fn eq_spec(&self, other: &Config) -> bool {
        self@ == other@
    }
}

/// The all-false default configuration, listing the current directory.
pub open spec fn default_config() -> ConfigV {
    ConfigV {
        path: "."@,
        l: false,
        a: false,
        F: false,
        h: false,
        S: false,
        R: false,
        r: false,
        t: false,
        d: false,
    }
}

/// What one flag character does to a configuration: each of the nine known
/// characters sets its flag, and any other character changes nothing.
pub open spec fn spec_set_flag(c: ConfigV, flag: char) -> ConfigV {
    if flag == 'l' {
        ConfigV { l: true, ..c }
    } else if flag == 'a' {
        ConfigV { a: true, ..c }
    } else if flag == 'F' {
        ConfigV { F: true, ..c }
    } else if flag == 'h' {
        ConfigV { h: true, ..c }
    } else if flag == 'S' {
        ConfigV { S: true, ..c }
    } else if flag == 'R' {
        ConfigV { R: true, ..c }
    } else if flag == 'r' {
        ConfigV { r: true, ..c }
    } else if flag == 't' {
        ConfigV { t: true, ..c }
    } else if flag == 'd' {
        ConfigV { d: true, ..c }
    } else {
        c
    }
}

/// Applies a sequence of flag characters in order.
pub open spec fn spec_apply_flags(c: ConfigV, flags: Seq<char>) -> ConfigV
    decreases flags.len(),
{
    if flags.len() == 0 {
        c
    } else {
        spec_apply_flags(spec_set_flag(c, flags[0]), flags.drop_first())
    }
}

/// Whether a token is a flag token: nonempty and starting with `-`.
pub open spec fn is_flag_token(t: Seq<char>) -> bool {
    t.len() > 0 && t[0] == '-'
}

/// What one token does: a flag token applies its characters after the dash,
/// and a bare token replaces the target path.
pub open spec fn spec_apply_token(c: ConfigV, t: Seq<char>) -> ConfigV {
    if is_flag_token(t) {
        spec_apply_flags(c, t.drop_first())
    } else {
        ConfigV { path: t, ..c }
    }
}

/// Applies a sequence of tokens in order.
pub open spec fn spec_fold_tokens(c: ConfigV, toks: Seq<Seq<char>>) -> ConfigV
    decreases toks.len(),
{
    if toks.len() == 0 {
        c
    } else {
        spec_fold_tokens(spec_apply_token(c, toks[0]), toks.drop_first())
    }
}

/// The configuration parsed from a full argument list: the first argument is
/// the program name and is skipped, and the remaining tokens are applied in
/// order to the default configuration.
pub open spec fn spec_build(args: Seq<Seq<char>>) -> ConfigV {
    if args.len() == 0 {
        default_config()
    } else {
        spec_fold_tokens(default_config(), args.drop_first())
    }
}

impl Config {
    /// The default configuration: every flag off, the current directory as
    /// the target path.
    pub fn new() -> (c: Config)
        ensures
            c@ == default_config(),
    {
        let c = Config {
            path: String::from_str("."),
            l: false,
            a: false,
            F: false,
            h: false,
            S: false,
            R: false,
            r: false,
            t: false,
            d: false,
        };
        proof {
            assert(c@ =~= default_config());
        }
        c
    }

    /// Replaces the target path.
    pub fn set_path(&mut self, path: String)
        ensures
            final(self)@ == (ConfigV { path: path@, ..old(self)@ }),
    {
        self.path = path;
        proof {
            assert(self@ =~= (ConfigV { path: path@, ..old(self)@ }));
        }
    }

    /// Sets the flag a single character names; an unrecognized character is
    /// silently ignored.
    pub fn set_flag(&mut self, flag: char)
        ensures
            final(self)@ == spec_set_flag(old(self)@, flag),
    {
        match flag {
            'l' => self.l = true,
            'a' => self.a = true,
            'F' => self.F = true,
            'h' => self.h = true,
            'S' => self.S = true,
            'R' => self.R = true,
            'r' => self.r = true,
            't' => self.t = true,
            'd' => self.d = true,
            _ => {},
        }
        proof {
            assert(self@ =~= spec_set_flag(old(self)@, flag));
        }
    }

    /// Parses a full argument list, program name first. Parsing cannot fail:
    /// every token either toggles flags or replaces the target path.
    pub fn build(args: Vec<String>) -> (r: Result<Config, &'static str>)
        ensures
            r is Ok,
            r matches Ok(c) ==> c@ == spec_build(args.deep_view()),
    {
        let ghost dv: Seq<Seq<char>> = args.deep_view();
        let mut config = Config::new();
        let mut i: usize = 1;
        proof {
            if dv.len() > 0 {
                assert(dv.skip(1) =~= dv.drop_first());
            }
        }
        while i < args.len()
            invariant
                1 <= i,
                dv == args.deep_view(),
                dv.len() == args.len(),
                args.len() > 0 ==> i <= args.len(),
                args.len() > 0 ==> spec_build(dv) == spec_fold_tokens(config@, dv.skip(i as int)),
                args.len() == 0 ==> config@ == spec_build(dv),
            decreases args.len() - i,
        {
            let ghost before: ConfigV = config@;
            let ghost t: Seq<char> = dv[i as int];
            proof {
                assert(dv.skip(i as int)[0] == t);
                assert(dv.skip(i as int).drop_first() =~= dv.skip(i as int + 1));
            }
            let arg = &args[i];
            let n = arg.as_str().unicode_len();
            let is_flag = n > 0 && arg.as_str().get_char(0) == '-';
            if is_flag {
                let mut j: usize = 1;
                proof {
                    assert(t.skip(1) =~= t.drop_first());
                }
                while j < n
                    invariant
                        1 <= j <= n,
                        n == t.len(),
                        t == arg@,
                        spec_apply_flags(before, t.drop_first()) == spec_apply_flags(
                            config@,
                            t.skip(j as int),
                        ),
                    decreases n - j,
                {
                    proof {
                        assert(t.skip(j as int)[0] == t[j as int]);
                        assert(t.skip(j as int).drop_first() =~= t.skip(j as int + 1));
                    }
                    let f = arg.as_str().get_char(j);
                    config.set_flag(f);
                    j = j + 1;
                }
                proof {
                    assert(t.skip(n as int) =~= Seq::<char>::empty());
                    assert(config@ == spec_apply_token(before, t));
                }
            } else {
                config.set_path(arg.clone());
                proof {
                    assert(config@ =~= spec_apply_token(before, t));
                }
            }
            i = i + 1;
        }
        Ok(config)
    }
}

/// The last bare (non-flag) token of a token sequence, if any.
pub open spec fn spec_last_bare(toks: Seq<Seq<char>>) -> Option<Seq<char>>
    decreases toks.len(),
{
    if toks.len() == 0 {
        None
    } else if !is_flag_token(toks.last()) {
        Some(toks.last())
    } else {
        spec_last_bare(toks.drop_last())
    }
}

proof fn lemma_apply_flags_path(c: ConfigV, flags: Seq<char>)
    ensures
        spec_apply_flags(c, flags).path == c.path,
    decreases flags.len(),
{
    if flags.len() > 0 {
        lemma_apply_flags_path(spec_set_flag(c, flags[0]), flags.drop_first());
    }
}

proof fn lemma_fold_tokens_push(c: ConfigV, toks: Seq<Seq<char>>, t: Seq<char>)
    ensures
        spec_fold_tokens(c, toks.push(t)) == spec_apply_token(spec_fold_tokens(c, toks), t),
    decreases toks.len(),
{
    if toks.len() == 0 {
        assert(toks.push(t)[0] == t);
        assert(toks.push(t).drop_first() =~= Seq::<Seq<char>>::empty());
        assert(spec_fold_tokens(c, toks.push(t)) == spec_fold_tokens(
            spec_apply_token(c, t),
            Seq::<Seq<char>>::empty(),
        ));
        assert(spec_fold_tokens(spec_apply_token(c, t), Seq::<Seq<char>>::empty())
            == spec_apply_token(c, t));
        assert(spec_fold_tokens(c, toks) == c);
    } else {
        assert(toks.push(t)[0] == toks[0]);
        assert(toks.push(t).drop_first() =~= toks.drop_first().push(t));
        lemma_fold_tokens_push(spec_apply_token(c, toks[0]), toks.drop_first(), t);
        assert(spec_fold_tokens(c, toks.push(t)) == spec_fold_tokens(
            spec_apply_token(c, toks[0]),
            toks.drop_first().push(t),
        ));
        assert(spec_fold_tokens(c, toks) == spec_fold_tokens(
            spec_apply_token(c, toks[0]),
            toks.drop_first(),
        ));
    }
}

proof fn lemma_fold_tokens_path(c: ConfigV, toks: Seq<Seq<char>>)
    ensures
        spec_fold_tokens(c, toks).path == (match spec_last_bare(toks) {
            Some(t) => t,
            None => c.path,
        }),
    decreases toks.len(),
{
    if toks.len() > 0 {
        let d = toks.drop_last();
        assert(toks =~= d.push(toks.last()));
        lemma_fold_tokens_push(c, d, toks.last());
        lemma_fold_tokens_path(c, d);
        if is_flag_token(toks.last()) {
            lemma_apply_flags_path(spec_fold_tokens(c, d), toks.last().drop_first());
        }
    }
}

/// A bare token always replaces the target path, wherever it stands among
/// the flag tokens, and the last bare token wins: the parsed path is the
/// last non-flag token, or the default `.` when there is none.
pub proof fn lemma_last_bare_token_wins(args: Seq<Seq<char>>)
    requires
        args.len() >= 1,
    ensures
        spec_build(args).path == (match spec_last_bare(args.drop_first()) {
            Some(t) => t,
            None => "."@,
        }),
{
    lemma_fold_tokens_path(default_config(), args.drop_first());
}

/// Whether a character names one of the nine recognized flags.
pub open spec fn is_known_flag(f: char) -> bool {
    f == 'l' || f == 'a' || f == 'F' || f == 'h' || f == 'S' || f == 'R' || f == 'r' || f == 't'
        || f == 'd'
}

/// The value of the flag a character names.
pub open spec fn flag_set(c: ConfigV, f: char) -> bool {
    if f == 'l' {
        c.l
    } else if f == 'a' {
        c.a
    } else if f == 'F' {
        c.F
    } else if f == 'h' {
        c.h
    } else if f == 'S' {
        c.S
    } else if f == 'R' {
        c.R
    } else if f == 'r' {
        c.r
    } else if f == 't' {
        c.t
    } else if f == 'd' {
        c.d
    } else {
        false
    }
}

proof fn lemma_apply_flags_flag(c: ConfigV, flags: Seq<char>, f: char)
    requires
        is_known_flag(f),
    ensures
        flag_set(spec_apply_flags(c, flags), f) == (flag_set(c, f) || flags.contains(f)),
    decreases flags.len(),
{
    if flags.len() == 0 {
        assert(!flags.contains(f));
    } else {
        lemma_apply_flags_flag(spec_set_flag(c, flags[0]), flags.drop_first(), f);
        let d = flags.drop_first();
        if flags[0] == f {
            assert(flags.contains(f));
        }
        if d.contains(f) {
            let i = choose|i: int| 0 <= i < d.len() && d[i] == f;
            assert(flags[i + 1] == f);
            assert(flags.contains(f));
        }
        if flags.contains(f) {
            let i = choose|i: int| 0 <= i < flags.len() && flags[i] == f;
            if i > 0 {
                assert(d[i - 1] == f);
                assert(d.contains(f));
            }
        }
    }
}

proof fn lemma_apply_token_flag(c: ConfigV, t: Seq<char>, f: char)
    requires
        is_known_flag(f),
    ensures
        flag_set(spec_apply_token(c, t), f) == (flag_set(c, f) || (is_flag_token(t)
            && t.drop_first().contains(f))),
{
    if is_flag_token(t) {
        lemma_apply_flags_flag(c, t.drop_first(), f);
    }
}

/// Whether some token in a sequence is a flag token mentioning `f`.
pub open spec fn some_token_mentions(toks: Seq<Seq<char>>, f: char) -> bool {
    exists|i: int|
        0 <= i < toks.len() && is_flag_token(#[trigger] toks[i]) && toks[i].drop_first().contains(f)
}

proof fn lemma_fold_tokens_flag(c: ConfigV, toks: Seq<Seq<char>>, f: char)
    requires
        is_known_flag(f),
    ensures
        flag_set(spec_fold_tokens(c, toks), f) == (flag_set(c, f) || some_token_mentions(toks, f)),
    decreases toks.len(),
{
    if toks.len() > 0 {
        lemma_apply_token_flag(c, toks[0], f);
        let d = toks.drop_first();
        lemma_fold_tokens_flag(spec_apply_token(c, toks[0]), d, f);
        if some_token_mentions(d, f) {
            let i = choose|i: int|
                0 <= i < d.len() && is_flag_token(#[trigger] d[i]) && d[i].drop_first().contains(f);
            assert(toks[i + 1] == d[i]);
            assert(some_token_mentions(toks, f));
        }
        if is_flag_token(toks[0]) && toks[0].drop_first().contains(f) {
            assert(some_token_mentions(toks, f));
        }
        if some_token_mentions(toks, f) {
            let i = choose|i: int|
                0 <= i < toks.len() && is_flag_token(#[trigger] toks[i])
                    && toks[i].drop_first().contains(f);
            if i > 0 {
                assert(d[i - 1] == toks[i]);
                assert(some_token_mentions(d, f));
            }
        }
    }
}

/// A recognized flag is set in the parsed configuration exactly when some
/// flag token among the arguments mentions its character: the order and the
/// grouping of flag tokens are irrelevant.
pub proof fn lemma_flag_set_iff(args: Seq<Seq<char>>, f: char)
    requires
        is_known_flag(f),
        args.len() >= 1,
    ensures
        flag_set(spec_build(args), f) <==> some_token_mentions(args.drop_first(), f),
{
    lemma_fold_tokens_flag(default_config(), args.drop_first(), f);
}

} // verus!
