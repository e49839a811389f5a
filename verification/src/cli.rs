//! The command-line grammar of the beeper, as verified logic on the raw
//! argument strings (taken as byte strings, the program name excluded).
//!
//! Four options are understood, each at most once: `help` and `verbose` as
//! bare flags, `frequency` and `duration` with an unsigned decimal value.
//! An argument starting with `--` names one option, by its long name or its
//! single letter (`--help`, `--h`), the value attached after `=`
//! (`--frequency=440`, `--f=440`) or in the next argument. An argument
//! starting with a single `-` is a group of letters (`-v`, `-vh`): flag
//! letters may run on, and the first value letter takes the rest of the
//! group as its value (`-f440`, `-vf440`) or, bare at the end, the next
//! argument. `--` ends option scanning; it and everything after it, a lone
//! `-`, and arguments without a leading `-` are ignored. Any other option
//! name or letter is unknown. Help, once scanning succeeded, wins over
//! value errors, as the defaults `440` and `1000` fill in for absent
//! values.

use vstd::prelude::*;

verus! {

/// Default tone frequency in hertz when no frequency option is given.
pub const DEFAULT_FREQ: u32 = 440;

/// Default tone duration in milliseconds when no duration option is given.
pub const DEFAULT_DURATION: u32 = 1000;

/// The validated configuration triple an invocation runs with.
#[derive(Clone, Copy, Debug, PartialEq, Eq, Structural)]
pub struct BeepOptions {
    pub freq: u32,
    pub duration: u32,
    pub verbose: bool,
}

/// What a well-formed command line asks for: the usage text, or one
/// emission attempt under the given options.
#[derive(Clone, Copy, Debug, PartialEq, Eq, Structural)]
pub enum Command {
    Help,
    Emit(BeepOptions),
}

/// A malformed command line, by the first fault found: an option that is
/// not part of the grammar, an option given twice, a value option at the
/// end with nothing to take its value from, a bare flag given a value, or
/// a value that is not an unsigned 32-bit decimal.
#[derive(Clone, Copy, Debug, PartialEq, Eq, Structural)]
pub enum ConfigError {
    UnknownOption,
    DuplicateOption,
    MissingValue,
    UnexpectedValue,
    InvalidFrequency,
    InvalidDuration,
}

/// The two options that take a value.
#[derive(Clone, Copy, Debug, PartialEq, Eq, Structural)]
pub enum ValueOpt {
    Frequency,
    Duration,
}

/// What an option scan has gathered so far: which flags were seen and the
/// raw value taken for each value option.
pub struct ScanState {
    pub help: bool,
    pub verbose: bool,
    pub freq: Option<Seq<u8>>,
    pub dur: Option<Seq<u8>>,
}

/// The state a scan starts from: nothing seen.
pub open spec fn init_state() -> ScanState {
    ScanState { help: false, verbose: false, freq: Option::None, dur: Option::None }
}

pub open spec fn end_marker() -> Seq<u8> {
    seq!['-' as u8, '-' as u8]
}

pub open spec fn nm_help() -> Seq<u8> {
    seq!['h' as u8, 'e' as u8, 'l' as u8, 'p' as u8]
}

pub open spec fn nm_verbose() -> Seq<u8> {
    seq!['v' as u8, 'e' as u8, 'r' as u8, 'b' as u8, 'o' as u8, 's' as u8, 'e' as u8]
}

pub open spec fn nm_frequency() -> Seq<u8> {
    seq![
        'f' as u8,
        'r' as u8,
        'e' as u8,
        'q' as u8,
        'u' as u8,
        'e' as u8,
        'n' as u8,
        'c' as u8,
        'y' as u8,
    ]
}

pub open spec fn nm_duration() -> Seq<u8> {
    seq!['d' as u8, 'u' as u8, 'r' as u8, 'a' as u8, 't' as u8, 'i' as u8, 'o' as u8, 'n' as u8]
}

/// The position of the first `=` in `a` at or after `j`, or the length of
/// `a` if there is none.
pub open spec fn find_eq(a: Seq<u8>, j: int) -> int
    decreases a.len() - j,
{
    if j < 0 || j >= a.len() {
        a.len() as int
    } else if a[j] == '=' as u8 {
        j
    } else {
        find_eq(a, j + 1)
    }
}

/// One `--` argument applied to the scan state. Its name runs up to the
/// first `=`; one letter stands for the option of that letter. A flag
/// refuses an attached value; a value option keeps an attached value, or
/// asks (by the second component) for the next argument.
pub open spec fn long_step(a: Seq<u8>, st: ScanState) -> Result<
    (ScanState, Option<ValueOpt>),
    ConfigError,
> {
    let p = find_eq(a, 2);
    let name = a.subrange(2, p);
    let has_val = p < a.len();
    if name == nm_help() || name == seq!['h' as u8] {
        if has_val {
            Err(ConfigError::UnexpectedValue)
        } else if st.help {
            Err(ConfigError::DuplicateOption)
        } else {
            Ok(
                (
                    ScanState { help: true, verbose: st.verbose, freq: st.freq, dur: st.dur },
                    Option::None,
                ),
            )
        }
    } else if name == nm_verbose() || name == seq!['v' as u8] {
        if has_val {
            Err(ConfigError::UnexpectedValue)
        } else if st.verbose {
            Err(ConfigError::DuplicateOption)
        } else {
            Ok(
                (
                    ScanState { help: st.help, verbose: true, freq: st.freq, dur: st.dur },
                    Option::None,
                ),
            )
        }
    } else if name == nm_frequency() || name == seq!['f' as u8] {
        if st.freq is Some {
            Err(ConfigError::DuplicateOption)
        } else if has_val {
            Ok(
                (
                    ScanState {
                        help: st.help,
                        verbose: st.verbose,
                        freq: Option::Some(a.subrange(p + 1, a.len() as int)),
                        dur: st.dur,
                    },
                    Option::None,
                ),
            )
        } else {
            Ok((st, Option::Some(ValueOpt::Frequency)))
        }
    } else if name == nm_duration() || name == seq!['d' as u8] {
        if st.dur is Some {
            Err(ConfigError::DuplicateOption)
        } else if has_val {
            Ok(
                (
                    ScanState {
                        help: st.help,
                        verbose: st.verbose,
                        freq: st.freq,
                        dur: Option::Some(a.subrange(p + 1, a.len() as int)),
                    },
                    Option::None,
                ),
            )
        } else {
            Ok((st, Option::Some(ValueOpt::Duration)))
        }
    } else {
        Err(ConfigError::UnknownOption)
    }
}

/// A group of single-letter options applied to the scan state, from the
/// letter at `j` on. Flag letters accumulate; the first value letter takes
/// the rest of the group as its value, or, standing last, asks (by the
/// second component) for the next argument; any other letter is unknown.
pub open spec fn short_step(a: Seq<u8>, j: int, st: ScanState) -> Result<
    (ScanState, Option<ValueOpt>),
    ConfigError,
>
    decreases a.len() - j,
{
    if j < 0 || j >= a.len() {
        Ok((st, Option::None))
    } else if a[j] == 'h' as u8 {
        if st.help {
            Err(ConfigError::DuplicateOption)
        } else {
            short_step(
                a,
                j + 1,
                ScanState { help: true, verbose: st.verbose, freq: st.freq, dur: st.dur },
            )
        }
    } else if a[j] == 'v' as u8 {
        if st.verbose {
            Err(ConfigError::DuplicateOption)
        } else {
            short_step(
                a,
                j + 1,
                ScanState { help: st.help, verbose: true, freq: st.freq, dur: st.dur },
            )
        }
    } else if a[j] == 'f' as u8 {
        if st.freq is Some {
            Err(ConfigError::DuplicateOption)
        } else if j + 1 < a.len() {
            Ok(
                (
                    ScanState {
                        help: st.help,
                        verbose: st.verbose,
                        freq: Option::Some(a.subrange(j + 1, a.len() as int)),
                        dur: st.dur,
                    },
                    Option::None,
                ),
            )
        } else {
            Ok((st, Option::Some(ValueOpt::Frequency)))
        }
    } else if a[j] == 'd' as u8 {
        if st.dur is Some {
            Err(ConfigError::DuplicateOption)
        } else if j + 1 < a.len() {
            Ok(
                (
                    ScanState {
                        help: st.help,
                        verbose: st.verbose,
                        freq: st.freq,
                        dur: Option::Some(a.subrange(j + 1, a.len() as int)),
                    },
                    Option::None,
                ),
            )
        } else {
            Ok((st, Option::Some(ValueOpt::Duration)))
        }
    } else {
        Err(ConfigError::UnknownOption)
    }
}

/// The scan state with the value of one value option filled in.
pub open spec fn record_value(st: ScanState, opt: ValueOpt, v: Seq<u8>) -> ScanState {
    match opt {
        ValueOpt::Frequency => ScanState {
            help: st.help,
            verbose: st.verbose,
            freq: Option::Some(v),
            dur: st.dur,
        },
        ValueOpt::Duration => ScanState {
            help: st.help,
            verbose: st.verbose,
            freq: st.freq,
            dur: Option::Some(v),
        },
    }
}

/// One left-to-right pass over the arguments from position `i`: the state
/// at the end of the line (or at `--`), or the first fault found. An
/// option left asking for a value takes the next argument whole, whatever
/// it looks like, and fails only when the line ends first.
pub open spec fn scan(args: Seq<Seq<u8>>, i: int, st: ScanState) -> Result<ScanState, ConfigError>
    decreases args.len() - i,
{
    if i >= args.len() {
        Ok(st)
    } else {
        let a = args[i];
        if a.len() < 2 || a[0] != '-' as u8 {
            scan(args, i + 1, st)
        } else if a == end_marker() {
            Ok(st)
        } else {
            let step = if a[1] == '-' as u8 {
                long_step(a, st)
            } else {
                short_step(a, 1, st)
            };
            match step {
                Err(e) => Err(e),
                Ok((st2, Option::None)) => scan(args, i + 1, st2),
                Ok((st2, Option::Some(opt))) => if i + 1 < args.len() {
                    scan(args, i + 2, record_value(st2, opt, args[i + 1]))
                } else {
                    Err(ConfigError::MissingValue)
                },
            }
        }
    }
}

pub open spec fn is_digit(b: u8) -> bool {
    '0' as u8 <= b && b <= '9' as u8
}

pub open spec fn all_digits(s: Seq<u8>) -> bool {
    forall|i: int| 0 <= i < s.len() ==> is_digit(#[trigger] s[i])
}

/// The number a sequence of decimal digit bytes denotes.
pub open spec fn dec_value(s: Seq<u8>) -> int
    decreases s.len(),
{
    if s.len() == 0 {
        0
    } else {
        dec_value(s.drop_last()) * 10 + (s.last() - '0' as u8)
    }
}

/// The digit part of a decimal numeral: what follows an optional leading
/// `+`, as the standard library's unsigned parsing accepts it.
pub open spec fn digits_of(s: Seq<u8>) -> Seq<u8> {
    if s.len() > 0 && s[0] == '+' as u8 {
        s.subrange(1, s.len() as int)
    } else {
        s
    }
}

/// Whether a byte string is a decimal numeral for a 32-bit unsigned value:
/// an optional `+`, then at least one digit and nothing else, denoting at
/// most `u32::MAX`.
pub open spec fn valid_u32_text(s: Seq<u8>) -> bool {
    digits_of(s).len() > 0 && all_digits(digits_of(s)) && dec_value(digits_of(s)) <= u32::MAX
}

/// The value a valid decimal numeral denotes.
pub open spec fn u32_text_value(s: Seq<u8>) -> int {
    dec_value(digits_of(s))
}

/// Turns a completed scan into the command: help wins outright; otherwise
/// each absent value falls back to its default and each present one must
/// be a valid unsigned decimal, the frequency checked before the duration.
pub open spec fn resolve(st: ScanState) -> Result<Command, ConfigError> {
    if st.help {
        Ok(Command::Help)
    } else if !(match st.freq {
        Option::None => true,
        Option::Some(s) => valid_u32_text(s),
    }) {
        Err(ConfigError::InvalidFrequency)
    } else if !(match st.dur {
        Option::None => true,
        Option::Some(s) => valid_u32_text(s),
    }) {
        Err(ConfigError::InvalidDuration)
    } else {
        Ok(
            Command::Emit(
                BeepOptions {
                    freq: match st.freq {
                        Option::None => DEFAULT_FREQ,
                        Option::Some(s) => u32_text_value(s) as u32,
                    },
                    duration: match st.dur {
                        Option::None => DEFAULT_DURATION,
                        Option::Some(s) => u32_text_value(s) as u32,
                    },
                    verbose: st.verbose,
                },
            ),
        )
    }
}

/// What a whole command line means: the command it asks for, or the first
/// fault in it.
pub open spec fn spec_parse(args: Seq<Seq<u8>>) -> Result<Command, ConfigError> {
    match scan(args, 0, init_state()) {
        Ok(st) => resolve(st),
        Err(e) => Err(e),
    }
}

proof fn lemma_dec_value_nonneg(s: Seq<u8>)
    requires
        all_digits(s),
    ensures
        dec_value(s) >= 0,
    decreases s.len(),
{
    if s.len() > 0 {
        assert(forall|i: int| 0 <= i < s.drop_last().len() ==> is_digit(#[trigger] s.drop_last()[i]));
        lemma_dec_value_nonneg(s.drop_last());
    }
}

/// Extending a digit string to the right never shrinks its value, so an
/// overflow seen on a prefix condemns the whole numeral.
proof fn lemma_dec_value_prefix(s: Seq<u8>, k: int)
    requires
        all_digits(s),
        0 <= k <= s.len(),
    ensures
        dec_value(s.subrange(0, k)) <= dec_value(s),
    decreases s.len() - k,
{
    if k == s.len() {
        assert(s.subrange(0, k) =~= s);
    } else {
        assert(s.subrange(0, k + 1).drop_last() =~= s.subrange(0, k));
        assert(s.subrange(0, k + 1).last() == s[k]);
        assert(forall|i: int| 0 <= i < k ==> is_digit(#[trigger] s.subrange(0, k)[i]));
        lemma_dec_value_nonneg(s.subrange(0, k));
        lemma_dec_value_prefix(s, k + 1);
    }
}

/// Reads a byte string as an unsigned 32-bit decimal numeral, exactly as
/// `valid_u32_text` delimits them: `Some` with the denoted value on every
/// valid numeral, `None` on everything else.
pub fn parse_u32(s: &Vec<u8>) -> (r: Option<u32>)
    ensures
        match r {
            Some(v) => valid_u32_text(s@) && v == u32_text_value(s@),
            None => !valid_u32_text(s@),
        },
{
    let n = s.len();
    let start: usize = if n > 0 && s[0] == '+' as u8 {
        1
    } else {
        0
    };
    let ghost d = digits_of(s@);
    proof {
        assert(d =~= s@.subrange(start as int, n as int));
    }
    if n == start {
        return None;
    }
    let mut acc: u32 = 0;
    let mut i: usize = start;
    while i < n
        invariant
            n == s@.len(),
            start <= i <= n,
            start < n,
            d == digits_of(s@),
            d == s@.subrange(start as int, n as int),
            forall|j: int| start <= j < i ==> is_digit(#[trigger] s@[j]),
            acc == dec_value(s@.subrange(start as int, i as int)),
        decreases n - i,
    {
        let b = s[i];
        if b < '0' as u8 || b > '9' as u8 {
            proof {
                assert(d[i - start] == s@[i as int]);
                assert(!is_digit(d[i - start]));
            }
            return None;
        }
        let digit: u32 = (b - '0' as u8) as u32;
        let wide: u64 = acc as u64 * 10 + digit as u64;
        proof {
            assert(s@.subrange(start as int, i as int + 1).drop_last() =~= s@.subrange(
                start as int,
                i as int,
            ));
            assert(s@.subrange(start as int, i as int + 1).last() == s@[i as int]);
        }
        if wide > 0xffff_ffffu64 {
            proof {
                if all_digits(d) {
                    assert(s@.subrange(start as int, i as int + 1) =~= d.subrange(
                        0,
                        i as int + 1 - start,
                    ));
                    lemma_dec_value_prefix(d, i as int + 1 - start);
                }
            }
            return None;
        }
        acc = wide as u32;
        i += 1;
    }
    proof {
        assert(s@.subrange(start as int, n as int) =~= d);
        assert(forall|j: int| 0 <= j < d.len() ==> is_digit(#[trigger] d[j]));
    }
    Some(acc)
}

proof fn lemma_bytes_deep_view(v: Vec<u8>)
    ensures
        v.deep_view() == v@,
{
    assert(v.deep_view() =~= v@);
}

fn bytes_eq(a: &Vec<u8>, pat: &Vec<u8>) -> (r: bool)
    ensures
        r == (a@ == pat@),
{
    if a.len() != pat.len() {
        return false;
    }
    let n = a.len();
    let mut i: usize = 0;
    while i < n
        invariant
            n == a@.len(),
            n == pat@.len(),
            i <= n,
            forall|j: int| 0 <= j < i ==> a@[j] == pat@[j],
        decreases n - i,
    {
        if a[i] != pat[i] {
            return false;
        }
        i += 1;
    }
    proof {
        assert(a@ =~= pat@);
    }
    true
}

/// Copies the bytes of `v` from position `lo` up to `hi`.
fn slice_range(v: &Vec<u8>, lo: usize, hi: usize) -> (t: Vec<u8>)
    requires
        lo <= hi <= v@.len(),
    ensures
        t@ == v@.subrange(lo as int, hi as int),
{
    let mut t: Vec<u8> = Vec::new();
    let mut j: usize = lo;
    proof {
        assert(t@ =~= v@.subrange(lo as int, lo as int));
    }
    while j < hi
        invariant
            lo <= j <= hi <= v@.len(),
            t@ == v@.subrange(lo as int, j as int),
        decreases hi - j,
    {
        t.push(v[j]);
        proof {
            assert(v@.subrange(lo as int, j as int + 1).drop_last() =~= v@.subrange(
                lo as int,
                j as int,
            ));
            assert(v@.subrange(lo as int, j as int + 1).last() == v@[j as int]);
            assert(t@ =~= v@.subrange(lo as int, j as int + 1));
        }
        j += 1;
    }
    t
}

/// Finds the first `=` in `a` at or after `from`, or the length of `a`.
fn find_eq_pos(a: &Vec<u8>, from: usize) -> (p: usize)
    requires
        from <= a@.len(),
    ensures
        p == find_eq(a@, from as int),
        from <= p <= a@.len(),
{
    let n = a.len();
    let mut j: usize = from;
    while j < n
        invariant
            from <= j <= n,
            n == a@.len(),
            find_eq(a@, from as int) == find_eq(a@, j as int),
        decreases n - j,
    {
        if a[j] == '=' as u8 {
            return j;
        }
        j += 1;
    }
    n
}

/// The executable scan state; `acc_view` is the `ScanState` it stands for.
struct Acc {
    help: bool,
    verbose: bool,
    freq: Option<Vec<u8>>,
    dur: Option<Vec<u8>>,
}

spec fn acc_view(acc: Acc) -> ScanState {
    ScanState {
        help: acc.help,
        verbose: acc.verbose,
        freq: acc.freq.deep_view(),
        dur: acc.dur.deep_view(),
    }
}

/// Applies one `--` argument, exactly as `long_step` says.
fn apply_long(acc: Acc, a: &Vec<u8>) -> (r: Result<(Acc, Option<ValueOpt>), ConfigError>)
    requires
        a@.len() >= 3,
    ensures
        match r {
            Ok(p) => long_step(a@, acc_view(acc)) == Ok::<(ScanState, Option<ValueOpt>), ConfigError>(
                (acc_view(p.0), p.1),
            ),
            Err(e) => long_step(a@, acc_view(acc)) == Err::<(ScanState, Option<ValueOpt>), ConfigError>(e),
        },
{
    let n = a.len();
    let p = find_eq_pos(a, 2);
    let name = slice_range(a, 2, p);
    let has_val = p < n;
    let help_pat: Vec<u8> = vec!['h' as u8, 'e' as u8, 'l' as u8, 'p' as u8];
    let verbose_pat: Vec<u8> = vec![
        'v' as u8,
        'e' as u8,
        'r' as u8,
        'b' as u8,
        'o' as u8,
        's' as u8,
        'e' as u8,
    ];
    let frequency_pat: Vec<u8> = vec![
        'f' as u8,
        'r' as u8,
        'e' as u8,
        'q' as u8,
        'u' as u8,
        'e' as u8,
        'n' as u8,
        'c' as u8,
        'y' as u8,
    ];
    let duration_pat: Vec<u8> = vec![
        'd' as u8,
        'u' as u8,
        'r' as u8,
        'a' as u8,
        't' as u8,
        'i' as u8,
        'o' as u8,
        'n' as u8,
    ];
    let h_pat: Vec<u8> = vec!['h' as u8];
    let v_pat: Vec<u8> = vec!['v' as u8];
    let f_pat: Vec<u8> = vec!['f' as u8];
    let d_pat: Vec<u8> = vec!['d' as u8];
    proof {
        assert(help_pat@ =~= nm_help());
        assert(verbose_pat@ =~= nm_verbose());
        assert(frequency_pat@ =~= nm_frequency());
        assert(duration_pat@ =~= nm_duration());
        assert(h_pat@ =~= seq!['h' as u8]);
        assert(v_pat@ =~= seq!['v' as u8]);
        assert(f_pat@ =~= seq!['f' as u8]);
        assert(d_pat@ =~= seq!['d' as u8]);
    }
    if bytes_eq(&name, &help_pat) || bytes_eq(&name, &h_pat) {
        if has_val {
            Err(ConfigError::UnexpectedValue)
        } else if acc.help {
            Err(ConfigError::DuplicateOption)
        } else {
            Ok(
                (
                    Acc { help: true, verbose: acc.verbose, freq: acc.freq, dur: acc.dur },
                    None,
                ),
            )
        }
    } else if bytes_eq(&name, &verbose_pat) || bytes_eq(&name, &v_pat) {
        if has_val {
            Err(ConfigError::UnexpectedValue)
        } else if acc.verbose {
            Err(ConfigError::DuplicateOption)
        } else {
            Ok(
                (
                    Acc { help: acc.help, verbose: true, freq: acc.freq, dur: acc.dur },
                    None,
                ),
            )
        }
    } else if bytes_eq(&name, &frequency_pat) || bytes_eq(&name, &f_pat) {
        if acc.freq.is_some() {
            Err(ConfigError::DuplicateOption)
        } else if has_val {
            let v = slice_range(a, p + 1, n);
            proof {
                lemma_bytes_deep_view(v);
            }
            Ok(
                (
                    Acc { help: acc.help, verbose: acc.verbose, freq: Some(v), dur: acc.dur },
                    None,
                ),
            )
        } else {
            Ok((acc, Some(ValueOpt::Frequency)))
        }
    } else if bytes_eq(&name, &duration_pat) || bytes_eq(&name, &d_pat) {
        if acc.dur.is_some() {
            Err(ConfigError::DuplicateOption)
        } else if has_val {
            let v = slice_range(a, p + 1, n);
            proof {
                lemma_bytes_deep_view(v);
            }
            Ok(
                (
                    Acc { help: acc.help, verbose: acc.verbose, freq: acc.freq, dur: Some(v) },
                    None,
                ),
            )
        } else {
            Ok((acc, Some(ValueOpt::Duration)))
        }
    } else {
        Err(ConfigError::UnknownOption)
    }
}

/// Applies one group of single-letter options, exactly as `short_step`
/// says.
fn apply_short(acc: Acc, a: &Vec<u8>) -> (r: Result<(Acc, Option<ValueOpt>), ConfigError>)
    ensures
        match r {
            Ok(p) => short_step(a@, 1, acc_view(acc)) == Ok::<(ScanState, Option<ValueOpt>), ConfigError>(
                (acc_view(p.0), p.1),
            ),
            Err(e) => short_step(a@, 1, acc_view(acc)) == Err::<
                (ScanState, Option<ValueOpt>),
                ConfigError,
            >(e),
        },
{
    let n = a.len();
    let mut cur = acc;
    let mut j: usize = 1;
    while j < n
        invariant
            1 <= j,
            j <= n || n < 1,
            n == a@.len(),
            short_step(a@, 1, acc_view(acc)) == short_step(a@, j as int, acc_view(cur)),
        decreases n - j,
    {
        let c = a[j];
        if c == 'h' as u8 {
            if cur.help {
                return Err(ConfigError::DuplicateOption);
            }
            cur = Acc { help: true, verbose: cur.verbose, freq: cur.freq, dur: cur.dur };
            j += 1;
        } else if c == 'v' as u8 {
            if cur.verbose {
                return Err(ConfigError::DuplicateOption);
            }
            cur = Acc { help: cur.help, verbose: true, freq: cur.freq, dur: cur.dur };
            j += 1;
        } else if c == 'f' as u8 {
            if cur.freq.is_some() {
                return Err(ConfigError::DuplicateOption);
            }
            if j + 1 < n {
                let v = slice_range(a, j + 1, n);
                proof {
                    lemma_bytes_deep_view(v);
                }
                return Ok(
                    (
                        Acc { help: cur.help, verbose: cur.verbose, freq: Some(v), dur: cur.dur },
                        None,
                    ),
                );
            } else {
                return Ok((cur, Some(ValueOpt::Frequency)));
            }
        } else if c == 'd' as u8 {
            if cur.dur.is_some() {
                return Err(ConfigError::DuplicateOption);
            }
            if j + 1 < n {
                let v = slice_range(a, j + 1, n);
                proof {
                    lemma_bytes_deep_view(v);
                }
                return Ok(
                    (
                        Acc { help: cur.help, verbose: cur.verbose, freq: cur.freq, dur: Some(v) },
                        None,
                    ),
                );
            } else {
                return Ok((cur, Some(ValueOpt::Duration)));
            }
        } else {
            return Err(ConfigError::UnknownOption);
        }
    }
    Ok((cur, None))
}

/// Parses a command line, given as the raw arguments after the program
/// name, each as its bytes. Returns exactly what the grammar at the top of
/// this module assigns to it: the command, or the first fault.
pub fn parse_args(args: &Vec<Vec<u8>>) -> (r: Result<Command, ConfigError>)
    ensures
        r == spec_parse(args.deep_view()),
{
    let ghost a = args.deep_view();
    let n = args.len();
    let mut st = Acc { help: false, verbose: false, freq: None, dur: None };
    let mut i: usize = 0;
    let dash: u8 = '-' as u8;
    let end_pat: Vec<u8> = vec![dash, dash];
    proof {
        assert(end_pat@ =~= end_marker());
    }
    while i < n
        invariant
            a == args.deep_view(),
            a.len() == n,
            n == args@.len(),
            i <= n,
            end_pat@ == end_marker(),
            dash == '-' as u8,
            scan(a, 0, init_state()) == scan(a, i as int, acc_view(st)),
        decreases n - i,
    {
        proof {
            lemma_bytes_deep_view(args@[i as int]);
        }
        let arg = &args[i];
        if arg.len() < 2 || arg[0] != dash {
            i += 1;
        } else if bytes_eq(arg, &end_pat) {
            i = n;
        } else {
            proof {
                if arg@.len() == 2 && arg@[0] == '-' as u8 && arg@[1] == '-' as u8 {
                    assert(arg@ =~= end_marker());
                }
            }
            let step = if arg[1] == dash {
                apply_long(st, arg)
            } else {
                apply_short(st, arg)
            };
            match step {
                Err(e) => {
                    return Err(e);
                },
                Ok((st2, need)) => {
                    match need {
                        None => {
                            st = st2;
                            i += 1;
                        },
                        Some(opt) => {
                            if i + 1 < n {
                                let v = args[i + 1].clone();
                                proof {
                                    lemma_bytes_deep_view(args@[i as int + 1]);
                                    lemma_bytes_deep_view(v);
                                }
                                st = match opt {
                                    ValueOpt::Frequency => Acc {
                                        help: st2.help,
                                        verbose: st2.verbose,
                                        freq: Some(v),
                                        dur: st2.dur,
                                    },
                                    ValueOpt::Duration => Acc {
                                        help: st2.help,
                                        verbose: st2.verbose,
                                        freq: st2.freq,
                                        dur: Some(v),
                                    },
                                };
                                i += 2;
                            } else {
                                return Err(ConfigError::MissingValue);
                            }
                        },
                    }
                },
            }
        }
    }
    if st.help {
        return Ok(Command::Help);
    }
    let freq_hz: u32 = match &st.freq {
        None => DEFAULT_FREQ,
        Some(v) => {
            proof {
                lemma_bytes_deep_view(*v);
            }
            match parse_u32(v) {
                Some(x) => x,
                None => {
                    return Err(ConfigError::InvalidFrequency);
                },
            }
        },
    };
    let duration_ms: u32 = match &st.dur {
        None => DEFAULT_DURATION,
        Some(v) => {
            proof {
                lemma_bytes_deep_view(*v);
            }
            match parse_u32(v) {
                Some(x) => x,
                None => {
                    return Err(ConfigError::InvalidDuration);
                },
            }
        },
    };
    Ok(Command::Emit(BeepOptions { freq: freq_hz, duration: duration_ms, verbose: st.verbose }))
}

} // verus!
