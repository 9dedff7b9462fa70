//! The command-line parser: from an argument list to a settled
//! tournament configuration.
//!
//! Numeric SPRT parameters are kept as the text they were given in;
//! turning them into numbers, and loading the opening file named by
//! `fens_path`, is left to the caller.

use vstd::prelude::*;
use crate::players::str_eq;

verus! {

/// Why an argument list was rejected.
#[derive(Debug, PartialEq)]
pub enum ParseError {
    /// A value that had to be a number was not one; holds the offending token.
    ValueParse(String),
    /// The opening file could not be read.
    FileParse,
    /// A required parameter was missing or empty.
    MissingParameter,
    /// A `key=value` parameter with an unknown key.
    UnknownParameter,
}

/// The ghost counterpart of `ParseError`.
pub ghost enum ParseErrorV {
    ValueParse(Seq<char>),
    FileParse,
    MissingParameter,
    UnknownParameter,
}

impl View for ParseError {
    type V = ParseErrorV;

    open spec fn view(&self) -> ParseErrorV {
        match self {
            ParseError::ValueParse(s) => ParseErrorV::ValueParse(s@),
            ParseError::FileParse => ParseErrorV::FileParse,
            ParseError::MissingParameter => ParseErrorV::MissingParameter,
            ParseError::UnknownParameter => ParseErrorV::UnknownParameter,
        }
    }
}

pub open spec fn spec_is_digit(c: char) -> bool {
    '0' <= c && c <= '9'
}

pub open spec fn spec_digit_val(c: char) -> int {
    c as int - '0' as int
}

/// The number a digit string denotes, most significant digit first.
pub open spec fn spec_digits_val(s: Seq<char>) -> int
    decreases s.len(),
{
    if s.len() == 0 {
        0
    } else {
        spec_digits_val(s.drop_last()) * 10 + spec_digit_val(s.last())
    }
}

/// The digits of an unsigned-number token: one leading `+` may precede them.
pub open spec fn spec_usize_body(s: Seq<char>) -> Seq<char> {
    if s.len() > 0 && s[0] == '+' {
        s.skip(1)
    } else {
        s
    }
}

/// What `str::parse::<usize>` accepts: an optional `+`, then one or more
/// digits, denoting a value that fits.
pub open spec fn spec_parse_usize(s: Seq<char>) -> Option<usize> {
    let b = spec_usize_body(s);
    if b.len() > 0 && (forall|i: int| 0 <= i < b.len() ==> spec_is_digit(b[i]))
        && spec_digits_val(b) <= usize::MAX {
        Some(spec_digits_val(b) as usize)
    } else {
        None
    }
}

proof fn lemma_digits_val_nonneg(s: Seq<char>)
    requires
        forall|i: int| 0 <= i < s.len() ==> spec_is_digit(s[i]),
    ensures
        spec_digits_val(s) >= 0,
    decreases s.len(),
{
    if s.len() > 0 {
        lemma_digits_val_nonneg(s.drop_last());
    }
}

/// A longer digit string never denotes a smaller number.
proof fn lemma_digits_val_prefix(s: Seq<char>, i: int)
    requires
        forall|j: int| 0 <= j < s.len() ==> spec_is_digit(s[j]),
        0 <= i <= s.len(),
    ensures
        spec_digits_val(s) >= spec_digits_val(s.take(i)),
    decreases s.len() - i,
{
    if i < s.len() {
        lemma_digits_val_prefix(s, i + 1);
        assert(s.take(i + 1).drop_last() =~= s.take(i));
        assert(spec_digits_val(s.take(i + 1)) == spec_digits_val(s.take(i)) * 10
            + spec_digit_val(s.take(i + 1).last()));
        lemma_digits_val_nonneg(s.take(i));
        assert(spec_digits_val(s.take(i)) * 10 >= spec_digits_val(s.take(i))) by (nonlinear_arith)
            requires
                spec_digits_val(s.take(i)) >= 0,
        ;
    } else {
        assert(s.take(i) =~= s);
    }
}

/// Parse an unsigned number as `str::parse::<usize>` does: an optional
/// leading `+`, then decimal digits; rejects anything else and values
/// that do not fit.
pub fn parse_usize(s: &str) -> (r: Option<usize>)
    ensures
        r == spec_parse_usize(s@),
{
    let n = s.unicode_len();
    let start: usize = if n > 0 && s.get_char(0) == '+' {
        1
    } else {
        0
    };
    let ghost b = spec_usize_body(s@);
    proof {
        assert(b =~= s@.skip(start as int));
    }
    if n == start {
        return None;
    }
    let mut value: usize = 0;
    let mut i: usize = start;
    while i < n
        invariant
            start <= i <= n,
            n == s@.len(),
            b == s@.skip(start as int),
            b == spec_usize_body(s@),
            forall|j: int| start <= j < i ==> spec_is_digit(s@[j]),
            value == spec_digits_val(b.take(i - start)),
        decreases n - i,
    {
        let c = s.get_char(i);
        if !('0' <= c && c <= '9') {
            proof {
                assert(b[i - start] == s@[i as int]);
                assert(!spec_is_digit(b[i - start]));
                assert(!(forall|j: int| 0 <= j < b.len() ==> spec_is_digit(b[j]))) by {
                    assert(0 <= i - start < b.len() && !spec_is_digit(b[i - start]));
                }
                assert(spec_parse_usize(s@) is None);
            }
            return None;
        }
        let d: usize = (c as u8 - 48) as usize;
        proof {
            assert(c as u8 == c as int) by {
                assert('0' <= c && c <= '9');
            }
            assert(d == spec_digit_val(c));
        }
        let ghost prev = value as int;
        if value > usize::MAX / 10 || (value == usize::MAX / 10 && d > usize::MAX % 10) {
            // The digits so far already exceed the machine range; more
            // digits cannot bring the value back down.
            proof {
                assert(prev * 10 + d > usize::MAX) by (nonlinear_arith)
                    requires
                        prev > usize::MAX / 10 || (prev == usize::MAX / 10 && d > usize::MAX
                            % 10),
                        d >= 0,
                        prev >= 0,
                ;
                assert(b[i - start] == s@[i as int]);
                assert(b.take(i - start + 1).drop_last() =~= b.take(i - start));
                assert(b.take(i - start + 1).last() == c);
                assert(spec_digits_val(b.take(i - start + 1)) == prev * 10 + spec_digit_val(c));
                if forall|j: int| 0 <= j < b.len() ==> spec_is_digit(b[j]) {
                    assert(forall|j: int| 0 <= j < i - start + 1 ==> spec_is_digit(
                        #[trigger] b.take(i - start + 1)[j],
                    ));
                    lemma_digits_val_prefix(b, i - start + 1);
                    assert(spec_digits_val(b) > usize::MAX);
                }
                assert(spec_parse_usize(s@) is None);
            }
            return None;
        }
        proof {
            assert(prev * 10 + d <= usize::MAX) by (nonlinear_arith)
                requires
                    prev >= 0,
                    0 <= d <= 9,
                    prev < usize::MAX / 10 || (prev == usize::MAX / 10 && d <= usize::MAX % 10),
            ;
            assert(b[i - start] == s@[i as int]);
            assert(b.take(i - start + 1).drop_last() =~= b.take(i - start));
            assert(b.take(i - start + 1).last() == c);
        }
        value = value * 10 + d;
        i += 1;
    }
    proof {
        assert(b.take(n - start) =~= b);
    }
    Some(value)
}

/// The position of the first `=` in `s`; meaningful only when one exists.
pub open spec fn spec_first_eq(s: Seq<char>) -> int {
    choose|i: int|
        0 <= i < s.len() && s[i] == '=' && (forall|j: int| 0 <= j < i ==> s[j] != '=')
}

pub open spec fn spec_has_eq(s: Seq<char>) -> bool {
    exists|i: int| 0 <= i < s.len() && s[i] == '='
}

/// What splitting at the first `=` yields: the key before it and the
/// value after it.
pub open spec fn spec_split_eq(s: Seq<char>) -> Option<(Seq<char>, Seq<char>)> {
    if spec_has_eq(s) {
        let i = spec_first_eq(s);
        Some((s.take(i), s.skip(i + 1)))
    } else {
        None
    }
}

/// A first `=` position exists whenever any `=` exists, and it satisfies
/// the defining property of `spec_first_eq`.
proof fn lemma_first_eq(s: Seq<char>, w: int)
    requires
        0 <= w < s.len(),
        s[w] == '=',
        forall|j: int| 0 <= j < w ==> s[j] != '=',
    ensures
        spec_has_eq(s),
        spec_first_eq(s) == w,
{
    let i = spec_first_eq(s);
    assert(0 <= i < s.len() && s[i] == '=' && (forall|j: int| 0 <= j < i ==> s[j] != '='))
        by {
        assert(0 <= w < s.len() && s[w] == '=' && (forall|j: int| 0 <= j < w ==> s[j] != '='));
    }
    if i < w {
        assert(s[i] != '=');
    }
    if w < i {
        assert(s[w] != '=');
    }
}

/// Split a token at its first `=`, as `str::split_once('=')` does.
pub fn split_once_eq(s: &str) -> (r: Option<(String, String)>)
    ensures
        match r {
            Some(kv) => spec_split_eq(s@) == Some((kv.0@, kv.1@)),
            None => spec_split_eq(s@) is None,
        },
{
    let n = s.unicode_len();
    let mut i: usize = 0;
    while i < n
        invariant
            0 <= i <= n,
            n == s@.len(),
            forall|j: int| 0 <= j < i ==> s@[j] != '=',
        decreases n - i,
    {
        let c = s.get_char(i);
        if c == '=' {
            let key = s.substring_char(0, i).to_owned();
            let val = s.substring_char(i + 1, n).to_owned();
            proof {
                lemma_first_eq(s@, i as int);
                assert(key@ =~= s@.take(i as int));
                assert(val@ =~= s@.skip(i as int + 1));
            }
            return Some((key, val));
        }
        i += 1;
    }
    proof {
        if spec_has_eq(s@) {
            let w = choose|w: int| 0 <= w < s@.len() && s@[w] == '=';
            assert(s@[w] != '=');
        }
    }
    None
}

} // verus!

verus! {

/// One engine's configuration as given on the command line.
#[derive(Debug, Clone, PartialEq)]
pub struct PlayerSettings {
    pub name: String,
    pub path: String,
    pub proto: String,
    pub parameters: String,
    pub debug: bool,
}

/// The ghost counterpart of `PlayerSettings`.
pub ghost struct PlayerSettingsV {
    pub name: Seq<char>,
    pub path: Seq<char>,
    pub proto: Seq<char>,
    pub parameters: Seq<char>,
    pub debug: bool,
}

impl View for PlayerSettings {
    type V = PlayerSettingsV;

    open spec fn view(&self) -> PlayerSettingsV {
        PlayerSettingsV {
            name: self.name@,
            path: self.path@,
            proto: self.proto@,
            parameters: self.parameters@,
            debug: self.debug,
        }
    }
}

/// SPRT parameters as given on the command line. The numeric fields keep
/// the text they were written in; an empty field was not given.
#[derive(Debug, PartialEq)]
pub struct SPRTSettings {
    pub alpha: String,
    pub beta: String,
    pub elo0: String,
    pub elo1: String,
    pub autostop: bool,
}

/// The ghost counterpart of `SPRTSettings`.
pub ghost struct SPRTSettingsV {
    pub alpha: Seq<char>,
    pub beta: Seq<char>,
    pub elo0: Seq<char>,
    pub elo1: Seq<char>,
    pub autostop: bool,
}

impl View for SPRTSettings {
    type V = SPRTSettingsV;

    open spec fn view(&self) -> SPRTSettingsV {
        SPRTSettingsV {
            alpha: self.alpha@,
            beta: self.beta@,
            elo0: self.elo0@,
            elo1: self.elo1@,
            autostop: self.autostop,
        }
    }
}

/// The settled tournament configuration. `fens` is filled by whoever reads
/// the file named in `fens_path`.
#[derive(Debug, PartialEq)]
pub struct TournamentSettings {
    pub players: Vec<PlayerSettings>,
    pub fens: Vec<String>,
    pub fens_path: Option<String>,
    pub num_threads: usize,
    pub num_games: Option<usize>,
    pub update_frequency: usize,
    pub sprt_trinomial: Option<SPRTSettings>,
    pub sprt_pentanomial: Option<SPRTSettings>,
    pub verbose: bool,
}

/// The ghost counterpart of `TournamentSettings`.
pub ghost struct SettingsV {
    pub players: Seq<PlayerSettingsV>,
    pub fens: Seq<Seq<char>>,
    pub fens_path: Option<Seq<char>>,
    pub num_threads: usize,
    pub num_games: Option<usize>,
    pub update_frequency: usize,
    pub sprt_trinomial: Option<SPRTSettingsV>,
    pub sprt_pentanomial: Option<SPRTSettingsV>,
    pub verbose: bool,
}

impl View for TournamentSettings {
    type V = SettingsV;

    open spec fn view(&self) -> SettingsV {
        SettingsV {
            players: self.players@.map_values(|p: PlayerSettings| p@),
            fens: self.fens@.map_values(|s: String| s@),
            fens_path: match self.fens_path {
                Some(ref s) => Some(s@),
                None => None,
            },
            num_threads: self.num_threads,
            num_games: self.num_games,
            update_frequency: self.update_frequency,
            sprt_trinomial: match self.sprt_trinomial {
                Some(ref t) => Some(t@),
                None => None,
            },
            sprt_pentanomial: match self.sprt_pentanomial {
                Some(ref t) => Some(t@),
                None => None,
            },
            verbose: self.verbose,
        }
    }
}

pub open spec fn spec_default_player() -> PlayerSettingsV {
    PlayerSettingsV {
        name: Seq::empty(),
        path: Seq::empty(),
        proto: Seq::empty(),
        parameters: Seq::empty(),
        debug: false,
    }
}

pub open spec fn spec_default_sprt() -> SPRTSettingsV {
    SPRTSettingsV {
        alpha: Seq::empty(),
        beta: Seq::empty(),
        elo0: Seq::empty(),
        elo1: Seq::empty(),
        autostop: false,
    }
}

pub open spec fn spec_default_settings() -> SettingsV {
    SettingsV {
        players: Seq::empty(),
        fens: Seq::empty(),
        fens_path: None,
        num_threads: 1,
        num_games: None,
        update_frequency: 10,
        sprt_trinomial: None,
        sprt_pentanomial: None,
        verbose: false,
    }
}

impl Default for PlayerSettings {
    fn default() -> (r: Self)
        ensures
            r@ == spec_default_player(),
    {
        Self {
            name: String::new(),
            path: String::new(),
            proto: String::new(),
            parameters: String::new(),
            debug: false,
        }
    }
}

impl Default for SPRTSettings {
    fn default() -> (r: Self)
        ensures
            r@ == spec_default_sprt(),
    {
        Self {
            alpha: String::new(),
            beta: String::new(),
            elo0: String::new(),
            elo1: String::new(),
            autostop: false,
        }
    }
}

impl Default for TournamentSettings {
    fn default() -> (r: Self)
        ensures
            r@ == spec_default_settings(),
    {
        let r = Self {
            players: Vec::new(),
            fens: Vec::new(),
            fens_path: None,
            num_threads: 1,
            num_games: None,
            update_frequency: 10,
            sprt_trinomial: None,
            sprt_pentanomial: None,
            verbose: false,
        };
        proof {
            assert(r@.players =~= spec_default_settings().players);
            assert(r@.fens =~= spec_default_settings().fens);
        }
        r
    }
}

/// The `key=value` arguments after `--player`, folded into one player
/// record; returns the record and the index of the first argument that
/// does not belong to it.
pub open spec fn spec_player_loop(
    args: Seq<Seq<char>>,
    i: int,
    p: PlayerSettingsV,
) -> Result<(PlayerSettingsV, int), ParseErrorV>
    decreases args.len() - i,
{
    if i < 0 || i >= args.len() {
        Ok((p, i))
    } else {
        match spec_split_eq(args[i]) {
            None => Ok((p, i)),
            Some(kv) => {
                if kv.1.len() == 0 {
                    Err(ParseErrorV::MissingParameter)
                } else if kv.0 == "name"@ {
                    spec_player_loop(args, i + 1, PlayerSettingsV { name: kv.1, ..p })
                } else if kv.0 == "path"@ {
                    spec_player_loop(args, i + 1, PlayerSettingsV { path: kv.1, ..p })
                } else if kv.0 == "proto"@ {
                    spec_player_loop(args, i + 1, PlayerSettingsV { proto: kv.1, ..p })
                } else if kv.0 == "parameters"@ {
                    spec_player_loop(args, i + 1, PlayerSettingsV { parameters: kv.1, ..p })
                } else {
                    Err(ParseErrorV::UnknownParameter)
                }
            },
        }
    }
}

/// The arguments after `--trinomial`, folded into one SPRT record; returns
/// the record and the index of the first argument that does not belong to
/// it.
pub open spec fn spec_sprt_loop(args: Seq<Seq<char>>, i: int, t: SPRTSettingsV) -> (
    SPRTSettingsV,
    int,
)
    decreases args.len() - i,
{
    if i < 0 || i >= args.len() {
        (t, i)
    } else if args[i] == "autostop"@ {
        spec_sprt_loop(args, i + 1, SPRTSettingsV { autostop: true, ..t })
    } else {
        match spec_split_eq(args[i]) {
            Some(kv) => {
                if kv.0 == "alpha"@ {
                    spec_sprt_loop(args, i + 1, SPRTSettingsV { alpha: kv.1, ..t })
                } else if kv.0 == "beta"@ {
                    spec_sprt_loop(args, i + 1, SPRTSettingsV { beta: kv.1, ..t })
                } else if kv.0 == "elo0"@ {
                    spec_sprt_loop(args, i + 1, SPRTSettingsV { elo0: kv.1, ..t })
                } else if kv.0 == "elo1"@ {
                    spec_sprt_loop(args, i + 1, SPRTSettingsV { elo1: kv.1, ..t })
                } else {
                    (t, i)
                }
            },
            None => (t, i),
        }
    }
}

/// One word of the argument list and whatever arguments it consumes,
/// applied to the settings; then the rest of the list.
pub open spec fn spec_parse_loop(args: Seq<Seq<char>>, i: int, s: SettingsV) -> Result<
    SettingsV,
    ParseErrorV,
>
    decreases args.len() - i,
{
    if i < 0 || i >= args.len() {
        Ok(s)
    } else {
        let word = args[i];
        let s1 = if word == "--verbose"@ {
            SettingsV { verbose: true, ..s }
        } else {
            s
        };
        if word == "--games"@ && i + 1 < args.len() {
            match spec_parse_usize(args[i + 1]) {
                Some(v) => spec_parse_loop(args, i + 1, SettingsV { num_games: Some(v), ..s1 }),
                None => Err(ParseErrorV::ValueParse(args[i + 1])),
            }
        } else if word == "--threads"@ && i + 1 < args.len() {
            match spec_parse_usize(args[i + 1]) {
                Some(v) => spec_parse_loop(args, i + 1, SettingsV { num_threads: v, ..s1 }),
                None => Err(ParseErrorV::ValueParse(args[i + 1])),
            }
        } else if word == "--updates"@ && i + 1 < args.len() {
            match spec_parse_usize(args[i + 1]) {
                Some(v) => spec_parse_loop(args, i + 1, SettingsV { update_frequency: v, ..s1 }),
                None => Err(ParseErrorV::ValueParse(args[i + 1])),
            }
        } else if word == "--fens"@ && i + 1 < args.len() {
            spec_parse_loop(args, i + 1, SettingsV { fens_path: Some(args[i + 1]), ..s1 })
        } else if word == "--player"@ {
            match spec_player_loop(args, i + 1, spec_default_player()) {
                Err(e) => Err(e),
                Ok(pj) => {
                    if pj.0.path.len() == 0 {
                        Err(ParseErrorV::MissingParameter)
                    } else {
                        let j = if pj.1 < i + 1 {
                            i + 1
                        } else if pj.1 > args.len() {
                            args.len() as int
                        } else {
                            pj.1
                        };
                        spec_parse_loop(args, j, SettingsV { players: s1.players.push(pj.0), ..s1 })
                    }
                },
            }
        } else if word == "--trinomial"@ {
            let tj = spec_sprt_loop(args, i + 1, spec_default_sprt());
            let j = if tj.1 < i + 1 {
                i + 1
            } else if tj.1 > args.len() {
                args.len() as int
            } else {
                tj.1
            };
            spec_parse_loop(args, j, SettingsV { sprt_trinomial: Some(tj.0), ..s1 })
        } else {
            spec_parse_loop(args, i + 1, s1)
        }
    }
}

/// What parsing an argument list yields.
pub open spec fn spec_parse(args: Seq<Seq<char>>) -> Result<SettingsV, ParseErrorV> {
    spec_parse_loop(args, 0, spec_default_settings())
}

pub open spec fn views_of(args: Seq<String>) -> Seq<Seq<char>> {
    args.map_values(|s: String| s@)
}

/// The player loop never walks backwards nor past the end.
proof fn lemma_player_loop_bounds(args: Seq<Seq<char>>, i: int, p: PlayerSettingsV)
    requires
        0 <= i <= args.len(),
    ensures
        spec_player_loop(args, i, p) matches Ok(pj) ==> i <= pj.1 <= args.len(),
    decreases args.len() - i,
{
    if i < args.len() {
        match spec_split_eq(args[i]) {
            None => {},
            Some(kv) => {
                if kv.1.len() == 0 {
                } else if kv.0 == "name"@ {
                    lemma_player_loop_bounds(args, i + 1, PlayerSettingsV { name: kv.1, ..p });
                } else if kv.0 == "path"@ {
                    lemma_player_loop_bounds(args, i + 1, PlayerSettingsV { path: kv.1, ..p });
                } else if kv.0 == "proto"@ {
                    lemma_player_loop_bounds(args, i + 1, PlayerSettingsV { proto: kv.1, ..p });
                } else if kv.0 == "parameters"@ {
                    lemma_player_loop_bounds(
                        args,
                        i + 1,
                        PlayerSettingsV { parameters: kv.1, ..p },
                    );
                }
            },
        }
    }
}

/// The SPRT loop never walks backwards nor past the end.
proof fn lemma_sprt_loop_bounds(args: Seq<Seq<char>>, i: int, t: SPRTSettingsV)
    requires
        0 <= i <= args.len(),
    ensures
        i <= spec_sprt_loop(args, i, t).1 <= args.len(),
    decreases args.len() - i,
{
    if i < args.len() {
        if args[i] == "autostop"@ {
            lemma_sprt_loop_bounds(args, i + 1, SPRTSettingsV { autostop: true, ..t });
        } else {
            match spec_split_eq(args[i]) {
                Some(kv) => {
                    if kv.0 == "alpha"@ {
                        lemma_sprt_loop_bounds(args, i + 1, SPRTSettingsV { alpha: kv.1, ..t });
                    } else if kv.0 == "beta"@ {
                        lemma_sprt_loop_bounds(args, i + 1, SPRTSettingsV { beta: kv.1, ..t });
                    } else if kv.0 == "elo0"@ {
                        lemma_sprt_loop_bounds(args, i + 1, SPRTSettingsV { elo0: kv.1, ..t });
                    } else if kv.0 == "elo1"@ {
                        lemma_sprt_loop_bounds(args, i + 1, SPRTSettingsV { elo1: kv.1, ..t });
                    }
                },
                None => {},
            }
        }
    }
}

/// Parse an argument list into tournament settings, or say why not.
#[verifier::loop_isolation(false)]
pub fn parse(args: &Vec<String>) -> (r: Result<TournamentSettings, ParseError>)
    ensures
        match r {
            Ok(s) => spec_parse(views_of(args@)) == Ok::<SettingsV, ParseErrorV>(s@),
            Err(e) => spec_parse(views_of(args@)) == Err::<SettingsV, ParseErrorV>(e@),
        },
{
    proof {
        reveal_strlit("--verbose");
        reveal_strlit("--games");
        reveal_strlit("--threads");
        reveal_strlit("--updates");
        reveal_strlit("--fens");
        reveal_strlit("--player");
        reveal_strlit("--trinomial");
        reveal_strlit("name");
        reveal_strlit("path");
        reveal_strlit("proto");
        reveal_strlit("parameters");
        reveal_strlit("autostop");
        reveal_strlit("alpha");
        reveal_strlit("beta");
        reveal_strlit("elo0");
        reveal_strlit("elo1");
    }
    let ghost av = views_of(args@);
    let mut settings = TournamentSettings::default();
    let mut i: usize = 0;
    while i < args.len()
        invariant
            0 <= i <= args.len(),
            av == views_of(args@),
            av.len() == args@.len(),
            spec_parse_loop(av, i as int, settings@) == spec_parse(av),
        decreases args.len() - i,
    {
        proof {
            assert(av[i as int] == args@[i as int]@);
        }
        let ghost s_entry = settings@;
        if str_eq(args[i].as_str(), "--verbose") {
            settings.verbose = true;
        }
        let ghost s1 = settings@;

        if str_eq(args[i].as_str(), "--games") && i + 1 < args.len() {
            proof {
                assert(av[i as int + 1] == args@[i as int + 1]@);
            }
            match parse_usize(args[i + 1].as_str()) {
                Some(v) => {
                    settings.num_games = Some(v);
                },
                None => {
                    return Err(ParseError::ValueParse(args[i + 1].clone()));
                },
            }
        } else if str_eq(args[i].as_str(), "--threads") && i + 1 < args.len() {
            proof {
                assert(av[i as int + 1] == args@[i as int + 1]@);
            }
            match parse_usize(args[i + 1].as_str()) {
                Some(v) => {
                    settings.num_threads = v;
                },
                None => {
                    return Err(ParseError::ValueParse(args[i + 1].clone()));
                },
            }
        } else if str_eq(args[i].as_str(), "--updates") && i + 1 < args.len() {
            proof {
                assert(av[i as int + 1] == args@[i as int + 1]@);
            }
            match parse_usize(args[i + 1].as_str()) {
                Some(v) => {
                    settings.update_frequency = v;
                },
                None => {
                    return Err(ParseError::ValueParse(args[i + 1].clone()));
                },
            }
        } else if str_eq(args[i].as_str(), "--fens") && i + 1 < args.len() {
            proof {
                assert(av[i as int + 1] == args@[i as int + 1]@);
            }
            settings.fens_path = Some(args[i + 1].clone());
        } else if str_eq(args[i].as_str(), "--player") {
            let mut player = PlayerSettings::default();
            let mut j = i + 1;
            loop
                invariant
                    i as int + 1 <= j as int <= args.len(),
                    av == views_of(args@),
                    av.len() == args@.len(),
                    spec_player_loop(av, j as int, player@) == spec_player_loop(
                        av,
                        i as int + 1,
                        spec_default_player(),
                    ),
                decreases args.len() - j,
            {
                if j >= args.len() {
                    break;
                }
                proof {
                    assert(av[j as int] == args@[j as int]@);
                }
                match split_once_eq(args[j].as_str()) {
                    None => {
                        break;
                    },
                    Some(kv) => {
                        let (key, value) = kv;
                        if value.as_str().is_empty() {
                            return Err(ParseError::MissingParameter);
                        } else if str_eq(key.as_str(), "name") {
                            player.name = value;
                        } else if str_eq(key.as_str(), "path") {
                            player.path = value;
                        } else if str_eq(key.as_str(), "proto") {
                            player.proto = value;
                        } else if str_eq(key.as_str(), "parameters") {
                            player.parameters = value;
                        } else {
                            return Err(ParseError::UnknownParameter);
                        }
                        j += 1;
                    },
                }
            }
            if player.path.as_str().is_empty() {
                return Err(ParseError::MissingParameter);
            }
            let ghost pv = player@;
            settings.players.push(player);
            proof {
                lemma_player_loop_bounds(av, i as int + 1, spec_default_player());
                assert(settings@.players =~= s1.players.push(pv));
                assert(settings@ == SettingsV { players: s1.players.push(pv), ..s1 });
            }
            i = j;
            continue;
        } else if str_eq(args[i].as_str(), "--trinomial") {
            let mut tri = SPRTSettings::default();
            let mut j = i + 1;
            loop
                invariant
                    i as int + 1 <= j as int <= args.len(),
                    av == views_of(args@),
                    av.len() == args@.len(),
                    spec_sprt_loop(av, j as int, tri@) == spec_sprt_loop(
                        av,
                        i as int + 1,
                        spec_default_sprt(),
                    ),
                decreases args.len() - j,
            {
                if j >= args.len() {
                    break;
                }
                proof {
                    assert(av[j as int] == args@[j as int]@);
                }
                if str_eq(args[j].as_str(), "autostop") {
                    tri.autostop = true;
                    j += 1;
                    continue;
                }
                match split_once_eq(args[j].as_str()) {
                    None => {
                        break;
                    },
                    Some(kv) => {
                        let (key, value) = kv;
                        if str_eq(key.as_str(), "alpha") {
                            tri.alpha = value;
                        } else if str_eq(key.as_str(), "beta") {
                            tri.beta = value;
                        } else if str_eq(key.as_str(), "elo0") {
                            tri.elo0 = value;
                        } else if str_eq(key.as_str(), "elo1") {
                            tri.elo1 = value;
                        } else {
                            break;
                        }
                        j += 1;
                    },
                }
            }
            let ghost tv = tri@;
            settings.sprt_trinomial = Some(tri);
            proof {
                lemma_sprt_loop_bounds(av, i as int + 1, spec_default_sprt());
                assert(settings@ == SettingsV { sprt_trinomial: Some(tv), ..s1 });
            }
            i = j;
            continue;
        }
        i += 1;
    }
    Ok(settings)
}

} // verus!
